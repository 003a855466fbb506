//! The gateway's persistent state: outgoing messages, stored once under
//! their identity key.

use crate::messages::{CrossChainId, CrossChainIdView, Message, MessageView};
use crate::pipeline::Error;
use crate::store::{StoreKey, StoreValue, Table};
use vstd::prelude::*;

verus! {

/// The gateway's slice of the host's store.
pub struct GatewayStorage {
    outgoing_messages: Table<CrossChainId, Message>,
}

impl GatewayStorage {
    /// The stored outgoing messages, keyed by identity.
    pub closed spec fn outgoing(&self) -> Map<CrossChainIdView, MessageView> {
        self.outgoing_messages.as_map()
    }

    pub closed spec fn wf(&self) -> bool {
        self.outgoing_messages.wf()
    }

    pub fn new() -> (r: Self)
        ensures
            r.wf(),
            r.outgoing() == Map::<CrossChainIdView, MessageView>::empty(),
    {
        GatewayStorage { outgoing_messages: Table::new() }
    }
}

/// Persist one outgoing message under its identity key. Re-saving the same
/// identity overwrites: idempotent for identical content, and conflicting
/// content is a data-integrity bug of the caller, not detected here.
pub fn save_outgoing_message(
    storage: &mut GatewayStorage,
    cc_id: &CrossChainId,
    msg: &Message,
) -> (r: Result<(), Error>)
    requires
        old(storage).wf(),
    ensures
        final(storage).wf(),
        r is Ok,
        final(storage).outgoing() == old(storage).outgoing().insert(cc_id@, msg@),
{
    storage.outgoing_messages.insert(cc_id.key_dup(), msg.val_dup());
    Ok(())
}

/// Strict lookup of one stored outgoing message.
pub fn load_outgoing_message(storage: &GatewayStorage, cc_id: &CrossChainId) -> (r: Result<
    Message,
    Error,
>)
    requires
        storage.wf(),
    ensures
        match r {
            Ok(m) => storage.outgoing().contains_key(cc_id@) && m@ == storage.outgoing()[cc_id@],
            Err(e) => e == Error::InvalidStoreAccess && !storage.outgoing().contains_key(cc_id@),
        },
{
    match storage.outgoing_messages.get(cc_id) {
        Some(m) => Ok(m),
        None => Err(Error::InvalidStoreAccess),
    }
}

/// The views of a list of identity keys, in order.
pub open spec fn id_views(s: Seq<CrossChainId>) -> Seq<CrossChainIdView> {
    s.map_values(|c: CrossChainId| c@)
}

/// Strict batch lookup: every id must be present, else the whole call fails.
pub fn get_outgoing_messages(storage: &GatewayStorage, message_ids: Vec<CrossChainId>) -> (r:
    Result<Vec<Message>, Error>)
    requires
        storage.wf(),
    ensures
        r is Ok <==> (forall|i: int|
            0 <= i < message_ids@.len() ==> storage.outgoing().contains_key(
                #[trigger] id_views(message_ids@)[i],
            )),
        r matches Ok(msgs) ==> {
            &&& msgs@.len() == message_ids@.len()
            &&& forall|i: int|
                0 <= i < msgs@.len() ==> (#[trigger] msgs@[i])@ == storage.outgoing()[id_views(
                    message_ids@,
                )[i]]
        },
        r matches Err(e) ==> e == Error::InvalidStoreAccess,
{
    let n = message_ids.len();
    let mut out: Vec<Message> = Vec::new();
    let mut i: usize = 0;
    while i < n
        invariant
            storage.wf(),
            n == message_ids.len(),
            i <= n,
            out@.len() == i,
            forall|j: int|
                0 <= j < i ==> storage.outgoing().contains_key(
                    #[trigger] id_views(message_ids@)[j],
                ),
            forall|j: int|
                0 <= j < i ==> (#[trigger] out@[j])@ == storage.outgoing()[id_views(
                    message_ids@,
                )[j]],
        decreases n - i,
    {
        match load_outgoing_message(storage, &message_ids[i]) {
            Ok(m) => {
                out.push(m);
            },
            Err(e) => {
                proof {
                    assert(id_views(message_ids@)[i as int] == message_ids@[i as int]@);
                }
                return Err(e);
            },
        }
        i = i + 1;
    }
    Ok(out)
}


} // verus!
