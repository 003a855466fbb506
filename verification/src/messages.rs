//! Cross-chain messages, their identity, and the oracle's verification
//! statuses.

use crate::store::{StoreKey, StoreValue};
use crate::types::{bytes_eq, Address, ChainName};
use vstd::prelude::*;

verus! {

/// The trust classification the oracle assigns to a message.
#[derive(Clone, Copy, Debug, PartialEq, Eq, Structural)]
pub enum VerificationStatus {
    Unknown,
    InProgress,
    NotFoundOnSourceChain,
    FailedToVerify,
    SucceededOnSourceChain,
    FailedOnSourceChain,
}

impl VerificationStatus {
    /// Position in the fixed bucket order that makes output deterministic:
    /// `Unknown < InProgress < NotFoundOnSourceChain < FailedToVerify
    /// < SucceededOnSourceChain < FailedOnSourceChain`.
    pub open spec fn rank(self) -> int {
        match self {
            VerificationStatus::Unknown => 0,
            VerificationStatus::InProgress => 1,
            VerificationStatus::NotFoundOnSourceChain => 2,
            VerificationStatus::FailedToVerify => 3,
            VerificationStatus::SucceededOnSourceChain => 4,
            VerificationStatus::FailedOnSourceChain => 5,
        }
    }
}

/// Every status, in rank order.
pub open spec fn all_statuses() -> Seq<VerificationStatus> {
    seq![
        VerificationStatus::Unknown,
        VerificationStatus::InProgress,
        VerificationStatus::NotFoundOnSourceChain,
        VerificationStatus::FailedToVerify,
        VerificationStatus::SucceededOnSourceChain,
        VerificationStatus::FailedOnSourceChain,
    ]
}

/// The status at a given rank.
pub fn status_with_rank(i: usize) -> (r: VerificationStatus)
    requires
        i < 6,
    ensures
        r == all_statuses()[i as int],
        r.rank() == i,
{
    if i == 0 {
        VerificationStatus::Unknown
    } else if i == 1 {
        VerificationStatus::InProgress
    } else if i == 2 {
        VerificationStatus::NotFoundOnSourceChain
    } else if i == 3 {
        VerificationStatus::FailedToVerify
    } else if i == 4 {
        VerificationStatus::SucceededOnSourceChain
    } else {
        VerificationStatus::FailedOnSourceChain
    }
}

/// The global identity of a message: where it came from and its id there.
#[derive(Debug, PartialEq, Eq)]
pub struct CrossChainId {
    pub source_chain: ChainName,
    pub message_id: String,
}

/// The mathematical value of a `CrossChainId`.
pub struct CrossChainIdView {
    pub source_chain: Seq<char>,
    pub message_id: Seq<char>,
}

impl View for CrossChainId {
    type V = CrossChainIdView;

    open spec fn view(&self) -> CrossChainIdView {
        CrossChainIdView { source_chain: self.source_chain@, message_id: self.message_id@ }
    }
}

impl CrossChainId {
    pub fn new(source_chain: ChainName, message_id: String) -> (r: Self)
        ensures
            r@.source_chain == source_chain@,
            r@.message_id == message_id@,
    {
        CrossChainId { source_chain, message_id }
    }
}

impl Clone for CrossChainId {
    fn clone(&self) -> (r: Self)
        ensures
            r@ == self@,
    {
        CrossChainId {
            source_chain: self.source_chain.clone(),
            message_id: self.message_id.clone(),
        }
    }
}

impl CrossChainId {
    /// Whether the two identities are the same.
    pub fn same(&self, other: &Self) -> (r: bool)
        ensures
            r == (self@ == other@),
    {
        self.source_chain.same(&other.source_chain) && self.message_id == other.message_id
    }
}

impl StoreKey for CrossChainId {
    fn key_eq(&self, other: &Self) -> (r: bool) {
        self.same(other)
    }

    fn key_dup(&self) -> (r: Self) {
        self.clone()
    }
}

/// A unit of cross-chain communication. Equality is by full identity and
/// payload; two messages that share an identity but differ elsewhere are a
/// caller error, never merged.
#[derive(Debug, PartialEq, Eq)]
pub struct Message {
    pub cc_id: CrossChainId,
    pub source_address: Address,
    pub destination_chain: ChainName,
    pub destination_address: Address,
    pub payload_hash: Vec<u8>,
}

/// The mathematical value of a `Message`.
pub struct MessageView {
    pub cc_id: CrossChainIdView,
    pub source_address: Seq<char>,
    pub destination_chain: Seq<char>,
    pub destination_address: Seq<char>,
    pub payload_hash: Seq<u8>,
}

impl View for Message {
    type V = MessageView;

    open spec fn view(&self) -> MessageView {
        MessageView {
            cc_id: self.cc_id@,
            source_address: self.source_address@,
            destination_chain: self.destination_chain@,
            destination_address: self.destination_address@,
            payload_hash: self.payload_hash@,
        }
    }
}

impl Clone for Message {
    fn clone(&self) -> (r: Self)
        ensures
            r@ == self@,
    {
        let r = Message {
            cc_id: self.cc_id.clone(),
            source_address: self.source_address.clone(),
            destination_chain: self.destination_chain.clone(),
            destination_address: self.destination_address.clone(),
            payload_hash: self.payload_hash.clone(),
        };
        proof {
            assert(r.payload_hash@ =~= self.payload_hash@);
        }
        r
    }
}

impl Message {
    /// Whether the two messages are the same in identity and payload.
    pub fn same(&self, other: &Self) -> (r: bool)
        ensures
            r == (self@ == other@),
    {
        let hashes_eq = bytes_eq(&self.payload_hash, &other.payload_hash);
        self.cc_id.same(&other.cc_id) && self.source_address.same(&other.source_address)
            && self.destination_chain.same(&other.destination_chain)
            && self.destination_address.same(&other.destination_address) && hashes_eq
    }
}

impl StoreValue for Message {
    fn val_dup(&self) -> (r: Self) {
        self.clone()
    }
}

/// One answer of the oracle: a message together with its current status.
#[derive(Debug, PartialEq, Eq)]
pub struct MessageStatus {
    pub message: Message,
    pub status: VerificationStatus,
}

/// The mathematical value of a `MessageStatus`.
pub struct MessageStatusView {
    pub message: MessageView,
    pub status: VerificationStatus,
}

impl View for MessageStatus {
    type V = MessageStatusView;

    open spec fn view(&self) -> MessageStatusView {
        MessageStatusView { message: self.message@, status: self.status }
    }
}

impl Clone for MessageStatus {
    fn clone(&self) -> (r: Self)
        ensures
            r@ == self@,
    {
        MessageStatus { message: self.message.clone(), status: self.status }
    }
}

/// The views of a batch of messages, in order.
pub open spec fn message_views(s: Seq<Message>) -> Seq<MessageView> {
    s.map_values(|m: Message| m@)
}

/// The views of a list of oracle answers, in order.
pub open spec fn status_views(s: Seq<MessageStatus>) -> Seq<MessageStatusView> {
    s.map_values(|p: MessageStatus| p@)
}

} // verus!
