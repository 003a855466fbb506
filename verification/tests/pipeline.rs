use gateway_core::events::GatewayEvent;
use gateway_core::gateway_state::{
    get_outgoing_messages, load_outgoing_message, GatewayStorage,
};
use gateway_core::messages::{CrossChainId, Message, MessageStatus, VerificationStatus};
use gateway_core::pipeline::{
    flat_unzip, route_incoming_messages, route_outgoing_messages, unique_messages,
    verify_messages, Error,
};
use gateway_core::types::{Address, ChainName};

fn chain(s: &str) -> ChainName {
    ChainName::new(s.to_string())
}

fn address(s: &str) -> Address {
    Address::new(s.to_string())
}

fn msg(id: &str) -> Message {
    Message {
        cc_id: CrossChainId::new(chain("sourcechain"), id.to_string()),
        source_address: address("source"),
        destination_chain: chain("destchain"),
        destination_address: address("dest"),
        payload_hash: vec![7u8; 32],
    }
}

fn answered(m: &Message, status: VerificationStatus) -> MessageStatus {
    MessageStatus { message: m.clone(), status }
}

#[test]
fn duplicate_messages_collapse_before_the_oracle_sees_them() {
    let a = msg("a");
    let b = msg("b");
    let batch = vec![a.clone(), b.clone(), a.clone()];

    let unique = unique_messages(batch);
    assert_eq!(unique, vec![a, b]);
}

#[test]
fn unique_messages_keeps_first_occurrence_order() {
    let a = msg("a");
    let b = msg("b");
    let c = msg("c");
    let batch = vec![b.clone(), a.clone(), b.clone(), c.clone(), a.clone()];

    assert_eq!(unique_messages(batch), vec![b, a, c]);
}

#[test]
fn verify_forwards_only_the_unverified_message() {
    let a = msg("a");
    let b = msg("b");
    let batch = vec![a.clone(), b.clone()];
    let answers = vec![
        answered(&a, VerificationStatus::SucceededOnSourceChain),
        answered(&b, VerificationStatus::FailedToVerify),
    ];

    let (cmd, events) = verify_messages(batch, answers).unwrap();

    let cmd = cmd.unwrap();
    assert_eq!(cmd.messages, vec![b.clone()]);

    assert_eq!(events.len(), 2);
    assert!(events.contains(&GatewayEvent::AlreadyVerified { msg: a }));
    assert!(events.contains(&GatewayEvent::Verifying { msg: b }));
}

#[test]
fn verify_emits_events_in_status_rank_order() {
    let a = msg("a");
    let b = msg("b");
    let c = msg("c");
    let batch = vec![a.clone(), b.clone(), c.clone()];
    let answers = vec![
        answered(&a, VerificationStatus::FailedOnSourceChain),
        answered(&b, VerificationStatus::Unknown),
        answered(&c, VerificationStatus::SucceededOnSourceChain),
    ];

    let (cmd, events) = verify_messages(batch, answers).unwrap();

    assert_eq!(cmd.unwrap().messages, vec![b.clone()]);
    assert_eq!(
        events,
        vec![
            GatewayEvent::Verifying { msg: b },
            GatewayEvent::AlreadyVerified { msg: c },
            GatewayEvent::AlreadyRejected { msg: a },
        ]
    );
}

#[test]
fn verify_treats_batch_and_deduplicated_batch_alike() {
    let a = msg("a");
    let b = msg("b");
    let batch = vec![a.clone(), b.clone(), a.clone(), b.clone()];
    let answers = vec![
        answered(&a, VerificationStatus::Unknown),
        answered(&b, VerificationStatus::SucceededOnSourceChain),
    ];

    let deduplicated = unique_messages(batch.clone());
    let (cmd1, events1) = verify_messages(batch, answers.clone()).unwrap();
    let (cmd2, events2) = verify_messages(deduplicated, answers).unwrap();

    assert_eq!(cmd1, cmd2);
    assert_eq!(events1, events2);
}

#[test]
fn verify_output_does_not_depend_on_batch_order() {
    let a = msg("a");
    let b = msg("b");
    let c = msg("c");
    let answers = vec![
        answered(&a, VerificationStatus::Unknown),
        answered(&b, VerificationStatus::Unknown),
        answered(&c, VerificationStatus::FailedOnSourceChain),
    ];

    let batch1 = vec![a.clone(), b.clone(), c.clone()];
    let batch2 = vec![c.clone(), a.clone(), b.clone()];

    let (cmd1, events1) = verify_messages(batch1, answers.clone()).unwrap();
    let (cmd2, events2) = verify_messages(batch2, answers).unwrap();

    assert_eq!(cmd1, cmd2);
    assert_eq!(events1, events2);
}

#[test]
fn verify_rejects_an_answer_that_misses_a_message() {
    let a = msg("a");
    let b = msg("b");
    let batch = vec![a.clone(), b.clone()];
    let answers = vec![answered(&a, VerificationStatus::Unknown)];

    assert_eq!(verify_messages(batch, answers), Err(Error::QueryVerifier));
}

#[test]
fn verify_rejects_an_answer_about_a_stranger() {
    let a = msg("a");
    let batch = vec![a.clone()];
    let answers = vec![
        answered(&a, VerificationStatus::Unknown),
        answered(&msg("stranger"), VerificationStatus::Unknown),
    ];

    assert_eq!(verify_messages(batch, answers), Err(Error::QueryVerifier));
}

#[test]
fn route_incoming_forwards_only_fully_verified_messages() {
    let a = msg("a");
    let b = msg("b");
    let batch = vec![a.clone(), b.clone()];
    let answers = vec![
        answered(&a, VerificationStatus::SucceededOnSourceChain),
        answered(&b, VerificationStatus::InProgress),
    ];

    let (cmd, events) = route_incoming_messages(batch, answers).unwrap();

    assert_eq!(cmd.unwrap().messages, vec![a.clone()]);
    assert_eq!(events.len(), 2);
    assert!(events.contains(&GatewayEvent::Routing { msg: a }));
    assert!(events.contains(&GatewayEvent::UnfitForRouting { msg: b }));
}

#[test]
fn route_incoming_without_verified_messages_sends_no_command() {
    let a = msg("a");
    let batch = vec![a.clone()];
    let answers = vec![answered(&a, VerificationStatus::FailedToVerify)];

    let (cmd, events) = route_incoming_messages(batch, answers).unwrap();

    assert!(cmd.is_none());
    assert_eq!(events, vec![GatewayEvent::UnfitForRouting { msg: a }]);
}

#[test]
fn route_outgoing_twice_stores_once_and_still_emits_routing() {
    let mut storage = GatewayStorage::new();
    let a = msg("a");

    let events1 = route_outgoing_messages(&mut storage, vec![a.clone()]).unwrap();
    assert_eq!(events1, vec![GatewayEvent::Routing { msg: a.clone() }]);

    let events2 = route_outgoing_messages(&mut storage, vec![a.clone()]).unwrap();
    assert_eq!(events2, vec![GatewayEvent::Routing { msg: a.clone() }]);

    let stored = load_outgoing_message(&storage, &a.cc_id).unwrap();
    assert_eq!(stored, a.clone());

    let all = get_outgoing_messages(&storage, vec![a.cc_id.clone()]).unwrap();
    assert_eq!(all, vec![a]);
}

#[test]
fn route_outgoing_deduplicates_its_batch() {
    let mut storage = GatewayStorage::new();
    let a = msg("a");
    let b = msg("b");

    let events =
        route_outgoing_messages(&mut storage, vec![a.clone(), a.clone(), b.clone()]).unwrap();
    assert_eq!(
        events,
        vec![
            GatewayEvent::Routing { msg: a.clone() },
            GatewayEvent::Routing { msg: b.clone() },
        ]
    );

    let all = get_outgoing_messages(&storage, vec![a.cc_id.clone(), b.cc_id.clone()]).unwrap();
    assert_eq!(all, vec![a, b]);
}

#[test]
fn strict_lookup_of_a_missing_message_fails() {
    let storage = GatewayStorage::new();
    let a = msg("a");

    assert_eq!(
        get_outgoing_messages(&storage, vec![a.cc_id.clone()]),
        Err(Error::InvalidStoreAccess)
    );
    assert_eq!(load_outgoing_message(&storage, &a.cc_id), Err(Error::InvalidStoreAccess));
}

#[test]
fn flat_unzip_concatenates_each_side_in_order() {
    let pairs: Vec<(Vec<u32>, Vec<char>)> = vec![
        (vec![1, 2], vec!['a']),
        (vec![], vec!['b', 'c']),
        (vec![3], vec![]),
    ];

    let (nums, chars) = flat_unzip(pairs);
    assert_eq!(nums, vec![1, 2, 3]);
    assert_eq!(chars, vec!['a', 'b', 'c']);
}

#[test]
fn empty_batch_verifies_to_nothing() {
    let (cmd, events) = verify_messages(Vec::new(), Vec::new()).unwrap();
    assert!(cmd.is_none());
    assert!(events.is_empty());

    let (cmd, events) = route_incoming_messages(Vec::new(), Vec::new()).unwrap();
    assert!(cmd.is_none());
    assert!(events.is_empty());
}

#[test]
fn same_identity_with_different_payload_is_stored_as_the_later_one() {
    let mut storage = GatewayStorage::new();
    let first = msg("a");
    let mut second = msg("a");
    second.payload_hash = vec![9u8; 32];

    let events =
        route_outgoing_messages(&mut storage, vec![first.clone(), second.clone()]).unwrap();
    assert_eq!(events.len(), 2);

    let stored = load_outgoing_message(&storage, &first.cc_id).unwrap();
    assert_eq!(stored, second);
}
