//! The verification/routing pipeline: deduplicate a batch, consult the
//! oracle's answers, group by status, filter by policy, and emit commands
//! and events.

use crate::events::{event_views, event_with_kind, make_event, EventKind, GatewayEvent};
use crate::messages::{
    all_statuses, message_views, status_views, status_with_rank, Message, MessageStatus,
    MessageStatusView, MessageView, VerificationStatus,
};
use vstd::prelude::*;

verus! {

/// What can go wrong in the gateway.
#[derive(Clone, Copy, Debug, PartialEq, Eq, Structural)]
pub enum Error {
    /// The gateway's configuration is missing: corrupted initialization.
    ConfigMissing,
    /// The store failed, or a strict lookup missed.
    InvalidStoreAccess,
    /// A response could not be serialized.
    SerializeResponse,
    /// The caller supplied a batch with ambiguous message ids.
    DuplicateMessageIds,
    /// The oracle was unreachable or its answer did not cover the batch.
    QueryVerifier,
    /// A store write failed while persisting an outgoing message.
    SaveOutgoingMessage,
    /// A collaborator address did not validate at setup time.
    InvalidAddress,
}

/// The one outbound instruction to the oracle: begin verification of these
/// messages.
#[derive(Debug, PartialEq, Eq)]
pub struct OracleCommand {
    pub messages: Vec<Message>,
}

impl View for OracleCommand {
    type V = Seq<MessageView>;

    open spec fn view(&self) -> Seq<MessageView> {
        message_views(self.messages@)
    }
}

/// The one outbound instruction to the router: deliver these messages.
#[derive(Debug, PartialEq, Eq)]
pub struct RouterCommand {
    pub messages: Vec<Message>,
}

impl View for RouterCommand {
    type V = Seq<MessageView>;

    open spec fn view(&self) -> Seq<MessageView> {
        message_views(self.messages@)
    }
}

/// The verify-policy: these statuses are forwarded to the oracle's verify
/// command.
pub open spec fn is_verifiable(st: VerificationStatus) -> bool {
    match st {
        VerificationStatus::Unknown => true,
        VerificationStatus::NotFoundOnSourceChain => true,
        VerificationStatus::FailedToVerify => true,
        _ => false,
    }
}

/// The event each status produces under `verify`.
pub open spec fn verify_event_kind(st: VerificationStatus) -> EventKind {
    match st {
        VerificationStatus::Unknown => EventKind::Verifying,
        VerificationStatus::InProgress => EventKind::Verifying,
        VerificationStatus::NotFoundOnSourceChain => EventKind::Verifying,
        VerificationStatus::FailedToVerify => EventKind::Verifying,
        VerificationStatus::SucceededOnSourceChain => EventKind::AlreadyVerified,
        VerificationStatus::FailedOnSourceChain => EventKind::AlreadyRejected,
    }
}

/// The route-policy: only fully verified messages go to the router.
pub open spec fn is_routable(st: VerificationStatus) -> bool {
    st == VerificationStatus::SucceededOnSourceChain
}

/// The event each status produces under `routeIncoming`.
pub open spec fn route_event_kind(st: VerificationStatus) -> EventKind {
    if st == VerificationStatus::SucceededOnSourceChain {
        EventKind::Routing
    } else {
        EventKind::UnfitForRouting
    }
}

/// The batch with later duplicates dropped: the first occurrence of each
/// message stays, in order.
pub open spec fn dedup(s: Seq<MessageView>) -> Seq<MessageView>
    decreases s.len(),
{
    if s.len() == 0 {
        s
    } else {
        let rest = dedup(s.drop_last());
        if rest.contains(s.last()) {
            rest
        } else {
            rest.push(s.last())
        }
    }
}

pub proof fn lemma_dedup_contains(s: Seq<MessageView>)
    ensures
        forall|x: MessageView| dedup(s).contains(x) <==> s.contains(x),
    decreases s.len(),
{
    if s.len() > 0 {
        lemma_dedup_contains(s.drop_last());
        assert forall|x: MessageView| s.contains(x) implies dedup(s).contains(x) by {
            let i = choose|i: int| 0 <= i < s.len() && s[i] == x;
            if i < s.len() - 1 {
                assert(s.drop_last()[i] == x);
                assert(s.drop_last().contains(x));
                assert(dedup(s.drop_last()).contains(x));
                if !dedup(s.drop_last()).contains(s.last()) {
                    let j = choose|j: int|
                        0 <= j < dedup(s.drop_last()).len() && dedup(s.drop_last())[j] == x;
                    assert(dedup(s)[j] == x);
                }
            } else {
                if !dedup(s.drop_last()).contains(s.last()) {
                    assert(dedup(s).last() == x);
                } else {
                    assert(dedup(s).contains(x));
                }
            }
        }
        assert forall|x: MessageView| dedup(s).contains(x) implies s.contains(x) by {
            let rest = dedup(s.drop_last());
            if rest.contains(x) {
                assert(s.drop_last().contains(x));
                let i = choose|i: int| 0 <= i < s.drop_last().len() && s.drop_last()[i] == x;
                assert(s[i] == x);
            } else {
                assert(x == s.last());
                assert(s[s.len() - 1] == x);
            }
        }
    }
}

pub proof fn lemma_dedup_no_duplicates(s: Seq<MessageView>)
    ensures
        dedup(s).no_duplicates(),
    decreases s.len(),
{
    if s.len() > 0 {
        lemma_dedup_no_duplicates(s.drop_last());
        lemma_dedup_contains(s.drop_last());
        let rest = dedup(s.drop_last());
        if !rest.contains(s.last()) {
            assert forall|i: int, j: int|
                0 <= i < dedup(s).len() && 0 <= j < dedup(s).len() && i != j implies dedup(s)[i]
                != dedup(s)[j] by {
                if i < rest.len() && j < rest.len() {
                    assert(rest[i] != rest[j]);
                } else if i < rest.len() {
                    assert(rest.contains(rest[i]));
                } else if j < rest.len() {
                    assert(rest.contains(rest[j]));
                }
            }
        }
    }
}

pub proof fn lemma_dedup_of_unique(s: Seq<MessageView>)
    requires
        s.no_duplicates(),
    ensures
        dedup(s) == s,
    decreases s.len(),
{
    if s.len() > 0 {
        assert(s.drop_last().no_duplicates());
        lemma_dedup_of_unique(s.drop_last());
        lemma_dedup_contains(s.drop_last());
        if s.drop_last().contains(s.last()) {
            let i = choose|i: int| 0 <= i < s.drop_last().len() && s.drop_last()[i] == s.last();
            assert(s[i] == s[s.len() - 1]);
            assert(false);
        }
        assert(dedup(s) =~= s);
    }
}

/// Dropping duplicates twice is the same as dropping them once.
pub proof fn lemma_dedup_idempotent(s: Seq<MessageView>)
    ensures
        dedup(dedup(s)) == dedup(s),
{
    lemma_dedup_no_duplicates(s);
    lemma_dedup_of_unique(dedup(s));
}

/// Whether the batch holds a message with this view.
fn contains_message(v: &Vec<Message>, m: &Message) -> (r: bool)
    ensures
        r == message_views(v@).contains(m@),
{
    let n = v.len();
    let mut i: usize = 0;
    while i < n
        invariant
            n == v.len(),
            i <= n,
            forall|j: int| 0 <= j < i ==> message_views(v@)[j] != m@,
        decreases n - i,
    {
        if v[i].same(m) {
            proof {
                assert(message_views(v@)[i as int] == m@);
            }
            return true;
        }
        i = i + 1;
    }
    proof {
        assert forall|j: int| 0 <= j < message_views(v@).len() implies message_views(v@)[j]
            != m@ by {}
    }
    false
}

/// The batch with later duplicates dropped, first occurrences kept in order.
pub fn unique_messages(msgs: Vec<Message>) -> (r: Vec<Message>)
    ensures
        message_views(r@) == dedup(message_views(msgs@)),
{
    let n = msgs.len();
    let mut out: Vec<Message> = Vec::new();
    let mut i: usize = 0;
    proof {
        assert(message_views(out@) =~= dedup(message_views(msgs@).take(0)));
    }
    while i < n
        invariant
            n == msgs.len(),
            i <= n,
            message_views(out@) == dedup(message_views(msgs@).take(i as int)),
        decreases n - i,
    {
        let ghost pre = message_views(out@);
        let present = contains_message(&out, &msgs[i]);
        if !present {
            out.push(msgs[i].clone());
        }
        proof {
            let full = message_views(msgs@);
            assert(full.take(i + 1).drop_last() =~= full.take(i as int));
            assert(full.take(i + 1).last() == full[i as int]);
            assert(full[i as int] == msgs@[i as int]@);
            if !present {
                assert(message_views(out@) =~= pre.push(msgs@[i as int]@));
            }
        }
        i = i + 1;
    }
    proof {
        assert(message_views(msgs@).take(n as int) =~= message_views(msgs@));
    }
    out
}

/// The messages of a list of answers, in order.
pub open spec fn answer_messages(answers: Seq<MessageStatusView>) -> Seq<MessageView> {
    answers.map_values(|p: MessageStatusView| p.message)
}

/// The messages the oracle reported with this status, in answer order.
pub open spec fn bucket_of(answers: Seq<MessageStatusView>, st: VerificationStatus) -> Seq<
    MessageView,
> {
    answer_messages(answers.filter(|p: MessageStatusView| p.status == st))
}

/// The buckets for the first `k` statuses of the rank order, empty buckets
/// left out.
pub open spec fn status_buckets_prefix(answers: Seq<MessageStatusView>, k: int) -> Seq<
    (VerificationStatus, Seq<MessageView>),
> {
    all_statuses().take(k).map_values(
        |st: VerificationStatus| (st, bucket_of(answers, st)),
    ).filter(|p: (VerificationStatus, Seq<MessageView>)| p.1.len() > 0)
}

/// The answers grouped by status, buckets in rank order, members in answer
/// order; statuses that no answer carries have no bucket.
pub open spec fn status_buckets(answers: Seq<MessageStatusView>) -> Seq<
    (VerificationStatus, Seq<MessageView>),
> {
    status_buckets_prefix(answers, 6)
}

/// The views of grouped messages.
pub open spec fn group_views(s: Seq<(VerificationStatus, Vec<Message>)>) -> Seq<
    (VerificationStatus, Seq<MessageView>),
> {
    s.map_values(|p: (VerificationStatus, Vec<Message>)| (p.0, message_views(p.1@)))
}

/// Copies of all messages of the batch, in order.
fn clone_messages(msgs: &Vec<Message>) -> (r: Vec<Message>)
    ensures
        message_views(r@) == message_views(msgs@),
{
    let n = msgs.len();
    let mut out: Vec<Message> = Vec::new();
    let mut i: usize = 0;
    while i < n
        invariant
            n == msgs.len(),
            i <= n,
            message_views(out@) =~= message_views(msgs@).take(i as int),
        decreases n - i,
    {
        let ghost pre = message_views(out@);
        out.push(msgs[i].clone());
        proof {
            assert(message_views(msgs@).len() == msgs@.len());
            assert(pre.len() == i);
            assert(message_views(out@) =~= pre.push(msgs@[i as int]@));
            assert(message_views(msgs@).take(i + 1) =~= pre.push(msgs@[i as int]@));
        }
        i = i + 1;
    }
    proof {
        assert(message_views(msgs@).take(n as int) =~= message_views(msgs@));
    }
    out
}

/// The messages of the answers that carry this status, in answer order.
fn filter_by_status(msgs_with_status: &Vec<MessageStatus>, status: VerificationStatus) -> (r: Vec<
    Message,
>)
    ensures
        message_views(r@) == bucket_of(status_views(msgs_with_status@), status),
{
    let n = msgs_with_status.len();
    let mut out: Vec<Message> = Vec::new();
    let ghost answers = status_views(msgs_with_status@);
    let mut i: usize = 0;
    proof {
        broadcast use Seq::lemma_filter_push;

        assert(answers.take(0).filter(|p: MessageStatusView| p.status == status) =~= Seq::<
            MessageStatusView,
        >::empty());
        assert(message_views(out@) =~= bucket_of(answers.take(0), status));
    }
    while i < n
        invariant
            n == msgs_with_status.len(),
            i <= n,
            answers == status_views(msgs_with_status@),
            message_views(out@) == bucket_of(answers.take(i as int), status),
        decreases n - i,
    {
        let p = &msgs_with_status[i];
        let ghost pre = message_views(out@);
        if p.status == status {
            out.push(p.message.clone());
        }
        proof {
            broadcast use Seq::lemma_filter_push;

            assert(answers.take(i + 1) =~= answers.take(i as int).push(answers[i as int]));
            assert(answers[i as int] == msgs_with_status@[i as int]@);
            let pred = |q: MessageStatusView| q.status == status;
            assert(answers.take(i + 1).filter(pred) == if pred(answers[i as int]) {
                answers.take(i as int).filter(pred).push(answers[i as int])
            } else {
                answers.take(i as int).filter(pred)
            });
            if p.status == status {
                assert(message_views(out@) =~= pre.push(p.message@));
                assert(bucket_of(answers.take(i + 1), status) =~= bucket_of(
                    answers.take(i as int),
                    status,
                ).push(answers[i as int].message));
            } else {
                assert(bucket_of(answers.take(i + 1), status) =~= bucket_of(
                    answers.take(i as int),
                    status,
                ));
            }
        }
        i = i + 1;
    }
    proof {
        assert(answers.take(n as int) =~= answers);
    }
    out
}

/// Group the oracle's answers into buckets keyed by status, buckets in rank
/// order so that the output is deterministic, members in answer order.
pub fn group_by_status(msgs_with_status: Vec<MessageStatus>) -> (r: Vec<
    (VerificationStatus, Vec<Message>),
>)
    ensures
        group_views(r@) == status_buckets(status_views(msgs_with_status@)),
{
    let ghost answers = status_views(msgs_with_status@);
    let mut out: Vec<(VerificationStatus, Vec<Message>)> = Vec::new();
    let mut rank: usize = 0;
    proof {
        assert(all_statuses().take(0).map_values(
            |st: VerificationStatus| (st, bucket_of(answers, st)),
        ) =~= Seq::<(VerificationStatus, Seq<MessageView>)>::empty());
        assert(group_views(out@) =~= status_buckets_prefix(answers, 0));
    }
    while rank < 6
        invariant
            rank <= 6,
            answers == status_views(msgs_with_status@),
            group_views(out@) == status_buckets_prefix(answers, rank as int),
        decreases 6 - rank,
    {
        let st = status_with_rank(rank);
        let bucket = filter_by_status(&msgs_with_status, st);
        let ghost pre = group_views(out@);
        if bucket.len() > 0 {
            out.push((st, bucket));
        }
        proof {
            broadcast use Seq::lemma_filter_push;

            let f = |s: VerificationStatus| (s, bucket_of(answers, s));
            let pred = |p: (VerificationStatus, Seq<MessageView>)| p.1.len() > 0;
            assert(all_statuses().take(rank + 1) =~= all_statuses().take(rank as int).push(st));
            assert(all_statuses().take(rank + 1).map_values(f) =~= all_statuses().take(
                rank as int,
            ).map_values(f).push((st, bucket_of(answers, st))));
            assert(all_statuses().take(rank + 1).map_values(f).filter(pred) == if pred(
                (st, bucket_of(answers, st)),
            ) {
                all_statuses().take(rank as int).map_values(f).filter(pred).push(
                    (st, bucket_of(answers, st)),
                )
            } else {
                all_statuses().take(rank as int).map_values(f).filter(pred)
            });
            if bucket.len() > 0 {
                assert(message_views(bucket@).len() > 0);
                assert(group_views(out@) =~= pre.push((st, message_views(bucket@))));
            } else {
                assert(message_views(bucket@).len() == 0);
            }
        }
        rank = rank + 1;
    }
    out
}

/// Unzip a list of pairs of lists and concatenate each side, keeping order.
pub fn flat_unzip<A, B>(x: Vec<(Vec<A>, Vec<B>)>) -> (r: (Vec<A>, Vec<B>))
    ensures
        r.0@ == x@.map_values(|p: (Vec<A>, Vec<B>)| p.0@).flatten(),
        r.1@ == x@.map_values(|p: (Vec<A>, Vec<B>)| p.1@).flatten(),
{
    broadcast use Seq::lemma_flatten_push;

    let ghost orig = x@;
    let mut x = x;
    let mut firsts: Vec<A> = Vec::new();
    let mut seconds: Vec<B> = Vec::new();
    let ghost k: int = 0;
    proof {
        assert(orig.take(0).map_values(|p: (Vec<A>, Vec<B>)| p.0@) =~= Seq::<Seq<A>>::empty());
        assert(orig.take(0).map_values(|p: (Vec<A>, Vec<B>)| p.1@) =~= Seq::<Seq<B>>::empty());
        assert(Seq::<Seq<A>>::empty().flatten() =~= Seq::<A>::empty());
        assert(Seq::<Seq<B>>::empty().flatten() =~= Seq::<B>::empty());
    }
    while x.len() > 0
        invariant
            0 <= k <= orig.len(),
            x@ == orig.skip(k),
            firsts@ == orig.take(k).map_values(|p: (Vec<A>, Vec<B>)| p.0@).flatten(),
            seconds@ == orig.take(k).map_values(|p: (Vec<A>, Vec<B>)| p.1@).flatten(),
        decreases x.len(),
    {
        let (mut a, mut b) = x.remove(0);
        proof {
            assert(orig.skip(k)[0] == orig[k]);
            assert(orig.skip(k).remove(0) =~= orig.skip(k + 1));
        }
        let ghost fa = firsts@;
        let ghost sb = seconds@;
        firsts.append(&mut a);
        seconds.append(&mut b);
        proof {
            broadcast use Seq::lemma_flatten_push;

            let f0 = |p: (Vec<A>, Vec<B>)| p.0@;
            let f1 = |p: (Vec<A>, Vec<B>)| p.1@;
            assert(orig.take(k + 1) =~= orig.take(k).push(orig[k]));
            assert(orig.take(k + 1).map_values(f0) =~= orig.take(k).map_values(f0).push(
                f0(orig[k]),
            ));
            assert(orig.take(k + 1).map_values(f1) =~= orig.take(k).map_values(f1).push(
                f1(orig[k]),
            ));
            assert(firsts@ == fa + f0(orig[k]));
            assert(seconds@ == sb + f1(orig[k]));
        }
        proof {
            k = k + 1;
        }
    }
    proof {
        assert(orig.take(orig.len() as int) =~= orig);
        assert(orig.skip(k).len() == orig.len() - k);
    }
    (firsts, seconds)
}

/// One event of the given kind for each message, in order.
fn messages_into_events(msgs: Vec<Message>, kind: EventKind) -> (r: Vec<GatewayEvent>)
    ensures
        event_views(r@) == message_views(msgs@).map_values(
            |m: MessageView| event_with_kind(kind, m),
        ),
{
    let n = msgs.len();
    let mut out: Vec<GatewayEvent> = Vec::new();
    let ghost f = |m: MessageView| event_with_kind(kind, m);
    let mut i: usize = 0;
    proof {
        assert(event_views(out@) =~= message_views(msgs@).take(0).map_values(f));
    }
    while i < n
        invariant
            n == msgs.len(),
            i <= n,
            f == (|m: MessageView| event_with_kind(kind, m)),
            event_views(out@) == message_views(msgs@).take(i as int).map_values(f),
        decreases n - i,
    {
        let ghost pre = event_views(out@);
        out.push(make_event(kind, msgs[i].clone()));
        proof {
            assert(message_views(msgs@).len() == msgs@.len());
            assert(pre.len() == i);
            assert(event_views(out@) =~= pre.push(event_with_kind(kind, msgs@[i as int]@)));
            assert(message_views(msgs@).take(i + 1) =~= message_views(msgs@).take(i as int).push(
                msgs@[i as int]@,
            ));
            assert(message_views(msgs@).take(i + 1).map_values(f) =~= pre.push(
                event_with_kind(kind, msgs@[i as int]@),
            ));
        }
        i = i + 1;
    }
    proof {
        assert(message_views(msgs@).take(n as int) =~= message_views(msgs@));
    }
    out
}

/// The messages the verify-policy forwards to the oracle: all of them when
/// the status is verifiable, none otherwise.
pub fn filter_verifiable_messages(status: VerificationStatus, msgs: &Vec<Message>) -> (r: Vec<
    Message,
>)
    ensures
        message_views(r@) == if is_verifiable(status) {
            message_views(msgs@)
        } else {
            Seq::<MessageView>::empty()
        },
{
    match status {
        VerificationStatus::Unknown
        | VerificationStatus::NotFoundOnSourceChain
        | VerificationStatus::FailedToVerify => clone_messages(msgs),
        _ => {
            let r: Vec<Message> = Vec::new();
            proof {
                assert(message_views(r@) =~= Seq::<MessageView>::empty());
            }
            r
        },
    }
}

/// One event per message under the verify-policy.
pub fn into_verify_events(status: VerificationStatus, msgs: Vec<Message>) -> (r: Vec<GatewayEvent>)
    ensures
        event_views(r@) == message_views(msgs@).map_values(
            |m: MessageView| event_with_kind(verify_event_kind(status), m),
        ),
{
    let kind = match status {
        VerificationStatus::Unknown
        | VerificationStatus::NotFoundOnSourceChain
        | VerificationStatus::FailedToVerify
        | VerificationStatus::InProgress => EventKind::Verifying,
        VerificationStatus::SucceededOnSourceChain => EventKind::AlreadyVerified,
        VerificationStatus::FailedOnSourceChain => EventKind::AlreadyRejected,
    };
    let r = messages_into_events(msgs, kind);
    proof {
        assert(event_views(r@) =~= message_views(msgs@).map_values(
            |m: MessageView| event_with_kind(verify_event_kind(status), m),
        ));
    }
    r
}

/// The messages the route-policy forwards to the router: all of them when
/// the status is `SucceededOnSourceChain`, none otherwise.
pub fn filter_routable_messages(status: VerificationStatus, msgs: &Vec<Message>) -> (r: Vec<
    Message,
>)
    ensures
        message_views(r@) == if is_routable(status) {
            message_views(msgs@)
        } else {
            Seq::<MessageView>::empty()
        },
{
    if status == VerificationStatus::SucceededOnSourceChain {
        clone_messages(msgs)
    } else {
        let r: Vec<Message> = Vec::new();
        proof {
            assert(message_views(r@) =~= Seq::<MessageView>::empty());
        }
        r
    }
}

/// One event per message under the route-policy.
pub fn into_route_events(status: VerificationStatus, msgs: Vec<Message>) -> (r: Vec<GatewayEvent>)
    ensures
        event_views(r@) == message_views(msgs@).map_values(
            |m: MessageView| event_with_kind(route_event_kind(status), m),
        ),
{
    let kind = if status == VerificationStatus::SucceededOnSourceChain {
        EventKind::Routing
    } else {
        EventKind::UnfitForRouting
    };
    let r = messages_into_events(msgs, kind);
    proof {
        assert(event_views(r@) =~= message_views(msgs@).map_values(
            |m: MessageView| event_with_kind(route_event_kind(status), m),
        ));
    }
    r
}

/// The messages the verify-policy forwards, over grouped buckets.
pub open spec fn verify_forwarded_groups(
    groups: Seq<(VerificationStatus, Seq<MessageView>)>,
) -> Seq<MessageView> {
    groups.map_values(
        |p: (VerificationStatus, Seq<MessageView>)|
            if is_verifiable(p.0) {
                p.1
            } else {
                Seq::<MessageView>::empty()
            },
    ).flatten()
}

/// The events the verify-policy emits, over grouped buckets.
pub open spec fn verify_events_groups(
    groups: Seq<(VerificationStatus, Seq<MessageView>)>,
) -> Seq<crate::events::GatewayEventView> {
    groups.map_values(
        |p: (VerificationStatus, Seq<MessageView>)|
            p.1.map_values(|m: MessageView| event_with_kind(verify_event_kind(p.0), m)),
    ).flatten()
}

/// The messages the route-policy forwards, over grouped buckets.
pub open spec fn route_forwarded_groups(
    groups: Seq<(VerificationStatus, Seq<MessageView>)>,
) -> Seq<MessageView> {
    groups.map_values(
        |p: (VerificationStatus, Seq<MessageView>)|
            if is_routable(p.0) {
                p.1
            } else {
                Seq::<MessageView>::empty()
            },
    ).flatten()
}

/// The events the route-policy emits, over grouped buckets.
pub open spec fn route_events_groups(
    groups: Seq<(VerificationStatus, Seq<MessageView>)>,
) -> Seq<crate::events::GatewayEventView> {
    groups.map_values(
        |p: (VerificationStatus, Seq<MessageView>)|
            p.1.map_values(|m: MessageView| event_with_kind(route_event_kind(p.0), m)),
    ).flatten()
}

proof fn lemma_message_views_flatten(xs: Seq<Seq<Message>>)
    ensures
        message_views(xs.flatten()) == xs.map_values(
            |s: Seq<Message>| message_views(s),
        ).flatten(),
    decreases xs.len(),
{
    let mv = |s: Seq<Message>| message_views(s);
    if xs.len() == 0 {
        assert(message_views(xs.flatten()) =~= Seq::<MessageView>::empty());
        assert(xs.map_values(mv) =~= Seq::<Seq<MessageView>>::empty());
        assert(xs.map_values(mv).flatten() =~= Seq::<MessageView>::empty());
    } else {
        lemma_message_views_flatten(xs.drop_first());
        assert(xs.flatten() == xs.first() + xs.drop_first().flatten());
        assert(message_views(xs.first() + xs.drop_first().flatten()) =~= message_views(xs.first())
            + message_views(xs.drop_first().flatten()));
        assert(xs.map_values(mv).drop_first() =~= xs.drop_first().map_values(mv));
        assert(xs.map_values(mv).first() == message_views(xs.first()));
        assert(xs.map_values(mv).flatten() == xs.map_values(mv).first() + xs.map_values(
            mv,
        ).drop_first().flatten());
    }
}

proof fn lemma_event_views_flatten(xs: Seq<Seq<GatewayEvent>>)
    ensures
        event_views(xs.flatten()) == xs.map_values(
            |s: Seq<GatewayEvent>| event_views(s),
        ).flatten(),
    decreases xs.len(),
{
    let ev = |s: Seq<GatewayEvent>| event_views(s);
    if xs.len() == 0 {
        assert(event_views(xs.flatten()) =~= Seq::<crate::events::GatewayEventView>::empty());
        assert(xs.map_values(ev) =~= Seq::<Seq<crate::events::GatewayEventView>>::empty());
        assert(xs.map_values(ev).flatten() =~= Seq::<crate::events::GatewayEventView>::empty());
    } else {
        lemma_event_views_flatten(xs.drop_first());
        assert(xs.flatten() == xs.first() + xs.drop_first().flatten());
        assert(event_views(xs.first() + xs.drop_first().flatten()) =~= event_views(xs.first())
            + event_views(xs.drop_first().flatten()));
        assert(xs.map_values(ev).drop_first() =~= xs.drop_first().map_values(ev));
        assert(xs.map_values(ev).first() == event_views(xs.first()));
        assert(xs.map_values(ev).flatten() == xs.map_values(ev).first() + xs.map_values(
            ev,
        ).drop_first().flatten());
    }
}

/// Apply the verify-policy to grouped buckets: at most one oracle command,
/// and one event per message.
pub fn verify(msgs_by_status: Vec<(VerificationStatus, Vec<Message>)>) -> (r: (
    Option<OracleCommand>,
    Vec<GatewayEvent>,
))
    ensures
        event_views(r.1@) == verify_events_groups(group_views(msgs_by_status@)),
        match r.0 {
            Some(c) => c@ == verify_forwarded_groups(group_views(msgs_by_status@)) && c@.len()
                > 0,
            None => verify_forwarded_groups(group_views(msgs_by_status@)).len() == 0,
        },
{
    let ghost groups = group_views(msgs_by_status@);
    let n = msgs_by_status.len();
    let mut pairs: Vec<(Vec<Message>, Vec<GatewayEvent>)> = Vec::new();
    let mut i: usize = 0;
    while i < n
        invariant
            n == msgs_by_status.len(),
            i <= n,
            groups == group_views(msgs_by_status@),
            pairs@.len() == i,
            forall|j: int|
                0 <= j < i ==> message_views((#[trigger] pairs@[j]).0@) == (if is_verifiable(
                    groups[j].0,
                ) {
                    groups[j].1
                } else {
                    Seq::<MessageView>::empty()
                }),
            forall|j: int|
                0 <= j < i ==> event_views((#[trigger] pairs@[j]).1@) == groups[j].1.map_values(
                    |m: MessageView| event_with_kind(verify_event_kind(groups[j].0), m),
                ),
        decreases n - i,
    {
        let st = msgs_by_status[i].0;
        let bucket = clone_messages(&msgs_by_status[i].1);
        let fwd = filter_verifiable_messages(st, &bucket);
        let evs = into_verify_events(st, bucket);
        proof {
            assert(groups[i as int] == (st, message_views(msgs_by_status@[i as int].1@)));
        }
        pairs.push((fwd, evs));
        i = i + 1;
    }
    let (fwd_all, evs_all) = flat_unzip(pairs);
    proof {
        let p0 = |p: (Vec<Message>, Vec<GatewayEvent>)| p.0@;
        let p1 = |p: (Vec<Message>, Vec<GatewayEvent>)| p.1@;
        lemma_message_views_flatten(pairs@.map_values(p0));
        lemma_event_views_flatten(pairs@.map_values(p1));
        let mv = |s: Seq<Message>| message_views(s);
        let ev = |s: Seq<GatewayEvent>| event_views(s);
        assert(pairs@.map_values(p0).map_values(mv) =~= groups.map_values(
            |p: (VerificationStatus, Seq<MessageView>)|
                if is_verifiable(p.0) {
                    p.1
                } else {
                    Seq::<MessageView>::empty()
                },
        ));
        assert(pairs@.map_values(p1).map_values(ev) =~= groups.map_values(
            |p: (VerificationStatus, Seq<MessageView>)|
                p.1.map_values(|m: MessageView| event_with_kind(verify_event_kind(p.0), m)),
        ));
        assert(message_views(fwd_all@) == verify_forwarded_groups(groups));
        assert(event_views(evs_all@) == verify_events_groups(groups));
    }
    if fwd_all.len() > 0 {
        proof {
            assert(message_views(fwd_all@).len() == fwd_all@.len());
        }
        (Some(OracleCommand { messages: fwd_all }), evs_all)
    } else {
        proof {
            assert(message_views(fwd_all@).len() == fwd_all@.len());
        }
        (None, evs_all)
    }
}

/// Apply the route-policy to grouped buckets: at most one router command,
/// and one event per message.
pub fn route(msgs_by_status: Vec<(VerificationStatus, Vec<Message>)>) -> (r: (
    Option<RouterCommand>,
    Vec<GatewayEvent>,
))
    ensures
        event_views(r.1@) == route_events_groups(group_views(msgs_by_status@)),
        match r.0 {
            Some(c) => c@ == route_forwarded_groups(group_views(msgs_by_status@)) && c@.len() > 0,
            None => route_forwarded_groups(group_views(msgs_by_status@)).len() == 0,
        },
{
    let ghost groups = group_views(msgs_by_status@);
    let n = msgs_by_status.len();
    let mut pairs: Vec<(Vec<Message>, Vec<GatewayEvent>)> = Vec::new();
    let mut i: usize = 0;
    while i < n
        invariant
            n == msgs_by_status.len(),
            i <= n,
            groups == group_views(msgs_by_status@),
            pairs@.len() == i,
            forall|j: int|
                0 <= j < i ==> message_views((#[trigger] pairs@[j]).0@) == (if is_routable(
                    groups[j].0,
                ) {
                    groups[j].1
                } else {
                    Seq::<MessageView>::empty()
                }),
            forall|j: int|
                0 <= j < i ==> event_views((#[trigger] pairs@[j]).1@) == groups[j].1.map_values(
                    |m: MessageView| event_with_kind(route_event_kind(groups[j].0), m),
                ),
        decreases n - i,
    {
        let st = msgs_by_status[i].0;
        let bucket = clone_messages(&msgs_by_status[i].1);
        let fwd = filter_routable_messages(st, &bucket);
        let evs = into_route_events(st, bucket);
        proof {
            assert(groups[i as int] == (st, message_views(msgs_by_status@[i as int].1@)));
        }
        pairs.push((fwd, evs));
        i = i + 1;
    }
    let (fwd_all, evs_all) = flat_unzip(pairs);
    proof {
        let p0 = |p: (Vec<Message>, Vec<GatewayEvent>)| p.0@;
        let p1 = |p: (Vec<Message>, Vec<GatewayEvent>)| p.1@;
        lemma_message_views_flatten(pairs@.map_values(p0));
        lemma_event_views_flatten(pairs@.map_values(p1));
        let mv = |s: Seq<Message>| message_views(s);
        let ev = |s: Seq<GatewayEvent>| event_views(s);
        assert(pairs@.map_values(p0).map_values(mv) =~= groups.map_values(
            |p: (VerificationStatus, Seq<MessageView>)|
                if is_routable(p.0) {
                    p.1
                } else {
                    Seq::<MessageView>::empty()
                },
        ));
        assert(pairs@.map_values(p1).map_values(ev) =~= groups.map_values(
            |p: (VerificationStatus, Seq<MessageView>)|
                p.1.map_values(|m: MessageView| event_with_kind(route_event_kind(p.0), m)),
        ));
        assert(message_views(fwd_all@) == route_forwarded_groups(groups));
        assert(event_views(evs_all@) == route_events_groups(groups));
    }
    if fwd_all.len() > 0 {
        proof {
            assert(message_views(fwd_all@).len() == fwd_all@.len());
        }
        (Some(RouterCommand { messages: fwd_all }), evs_all)
    } else {
        proof {
            assert(message_views(fwd_all@).len() == fwd_all@.len());
        }
        (None, evs_all)
    }
}

/// The events and forwarded messages that `verifyMessages` owes for these
/// oracle answers.
pub open spec fn verify_outcome_events(answers: Seq<MessageStatusView>) -> Seq<
    crate::events::GatewayEventView,
> {
    verify_events_groups(status_buckets(answers))
}

pub open spec fn verify_outcome_forwarded(answers: Seq<MessageStatusView>) -> Seq<MessageView> {
    verify_forwarded_groups(status_buckets(answers))
}

/// The events and forwarded messages that `routeIncomingMessages` owes for
/// these oracle answers.
pub open spec fn route_outcome_events(answers: Seq<MessageStatusView>) -> Seq<
    crate::events::GatewayEventView,
> {
    route_events_groups(status_buckets(answers))
}

pub open spec fn route_outcome_forwarded(answers: Seq<MessageStatusView>) -> Seq<MessageView> {
    route_forwarded_groups(status_buckets(answers))
}

/// The oracle answered the deduplicated batch completely: one answer for
/// every unique message, no omissions, no strangers, no repeats.
pub open spec fn complete_answer(
    unique: Seq<MessageView>,
    answers: Seq<MessageStatusView>,
) -> bool {
    &&& forall|j: int|
        0 <= j < answers.len() ==> unique.contains((#[trigger] answers[j]).message)
    &&& forall|j1: int, j2: int|
        0 <= j1 < j2 < answers.len() ==> (#[trigger] answers[j1]).message != (
        #[trigger] answers[j2]).message
    &&& forall|i: int|
        0 <= i < unique.len() ==> answer_messages(answers).contains(#[trigger] unique[i])
}

/// Whether some answer speaks of this message.
fn answers_contain(answers: &Vec<MessageStatus>, m: &Message) -> (r: bool)
    ensures
        r == answer_messages(status_views(answers@)).contains(m@),
{
    let n = answers.len();
    let mut i: usize = 0;
    while i < n
        invariant
            n == answers.len(),
            i <= n,
            forall|j: int| 0 <= j < i ==> answer_messages(status_views(answers@))[j] != m@,
        decreases n - i,
    {
        if answers[i].message.same(m) {
            proof {
                assert(answer_messages(status_views(answers@))[i as int] == m@);
            }
            return true;
        }
        i = i + 1;
    }
    proof {
        assert(answer_messages(status_views(answers@)).len() == answers@.len());
    }
    false
}

/// Check that the oracle's answers cover the deduplicated batch exactly.
fn answers_cover(unique: &Vec<Message>, answers: &Vec<MessageStatus>) -> (r: bool)
    ensures
        r == complete_answer(message_views(unique@), status_views(answers@)),
{
    let ghost uv = message_views(unique@);
    let ghost av = status_views(answers@);
    let na = answers.len();
    let nu = unique.len();
    let mut j: usize = 0;
    while j < na
        invariant
            na == answers.len(),
            uv == message_views(unique@),
            av == status_views(answers@),
            j <= na,
            forall|t: int| 0 <= t < j ==> uv.contains((#[trigger] av[t]).message),
        decreases na - j,
    {
        if !contains_message(unique, &answers[j].message) {
            proof {
                assert(av[j as int].message == answers@[j as int].message@);
            }
            return false;
        }
        proof {
            assert(av[j as int].message == answers@[j as int].message@);
        }
        j = j + 1;
    }
    let mut j1: usize = 0;
    while j1 < na
        invariant
            na == answers.len(),
            av == status_views(answers@),
            uv == message_views(unique@),
            j1 <= na,
            forall|t: int| 0 <= t < av.len() ==> uv.contains((#[trigger] av[t]).message),
            forall|t1: int, t2: int|
                0 <= t1 < j1 && t1 < t2 < av.len() ==> (#[trigger] av[t1]).message != (
                #[trigger] av[t2]).message,
        decreases na - j1,
    {
        let mut j2: usize = j1 + 1;
        while j2 < na
            invariant
                na == answers.len(),
                av == status_views(answers@),
                j1 < j2 || j2 == j1 + 1,
                j1 < na,
                j1 + 1 <= j2 <= na,
                forall|t2: int|
                    j1 < t2 < j2 ==> (#[trigger] av[t2]).message != av[j1 as int].message,
            decreases na - j2,
        {
            if answers[j1].message.same(&answers[j2].message) {
                proof {
                    assert(av[j1 as int].message == av[j2 as int].message);
                }
                return false;
            }
            proof {
                assert(av[j2 as int].message == answers@[j2 as int].message@);
                assert(av[j1 as int].message == answers@[j1 as int].message@);
            }
            j2 = j2 + 1;
        }
        j1 = j1 + 1;
    }
    let mut i: usize = 0;
    while i < nu
        invariant
            nu == unique.len(),
            na == answers.len(),
            av == status_views(answers@),
            uv == message_views(unique@),
            i <= nu,
            forall|t: int| 0 <= t < av.len() ==> uv.contains((#[trigger] av[t]).message),
            forall|t1: int, t2: int|
                0 <= t1 < t2 < av.len() ==> (#[trigger] av[t1]).message != (
                #[trigger] av[t2]).message,
            forall|t: int| 0 <= t < i ==> answer_messages(av).contains(#[trigger] uv[t]),
        decreases nu - i,
    {
        if !answers_contain(answers, &unique[i]) {
            proof {
                assert(uv[i as int] == unique@[i as int]@);
            }
            return false;
        }
        proof {
            assert(uv[i as int] == unique@[i as int]@);
        }
        i = i + 1;
    }
    true
}

/// The shared front of both policies: deduplicate the batch, check that the
/// oracle's answer covers the deduplicated batch exactly, and group the
/// answer by status. An answer that does not cover the batch is rejected as
/// `QueryVerifier`.
fn apply(msgs: Vec<Message>, oracle_answers: Vec<MessageStatus>) -> (r: Result<
    Vec<(VerificationStatus, Vec<Message>)>,
    Error,
>)
    ensures
        r is Ok <==> complete_answer(
            dedup(message_views(msgs@)),
            status_views(oracle_answers@),
        ),
        r matches Err(e) ==> e == Error::QueryVerifier,
        r matches Ok(groups) ==> group_views(groups@) == status_buckets(
            status_views(oracle_answers@),
        ),
{
    let unique = unique_messages(msgs);
    if !answers_cover(&unique, &oracle_answers) {
        return Err(Error::QueryVerifier);
    }
    Ok(group_by_status(oracle_answers))
}

/// Accept a batch and the oracle's answers for its deduplicated form; group
/// the answers by status and apply the verify-policy. The oracle is an
/// external collaborator: the caller queries it for `unique_messages(msgs)`
/// and hands its answer in. An answer that does not cover the deduplicated
/// batch exactly is rejected as `QueryVerifier`, and nothing is emitted.
pub fn verify_messages(msgs: Vec<Message>, oracle_answers: Vec<MessageStatus>) -> (r: Result<
    (Option<OracleCommand>, Vec<GatewayEvent>),
    Error,
>)
    ensures
        r is Ok <==> complete_answer(
            dedup(message_views(msgs@)),
            status_views(oracle_answers@),
        ),
        r matches Err(e) ==> e == Error::QueryVerifier,
        r matches Ok(pair) ==> {
            &&& event_views(pair.1@) == verify_outcome_events(status_views(oracle_answers@))
            &&& match pair.0 {
                Some(c) => c@ == verify_outcome_forwarded(status_views(oracle_answers@))
                    && c@.len() > 0,
                None => verify_outcome_forwarded(status_views(oracle_answers@)).len() == 0,
            }
        },
{
    let grouped = apply(msgs, oracle_answers)?;
    let (cmd, events) = verify(grouped);
    Ok((cmd, events))
}

/// Accept a batch and the oracle's answers for its deduplicated form; group
/// the answers by status and apply the route-policy. Only messages whose
/// status is `SucceededOnSourceChain` are forwarded to the router.
pub fn route_incoming_messages(msgs: Vec<Message>, oracle_answers: Vec<MessageStatus>) -> (r:
    Result<(Option<RouterCommand>, Vec<GatewayEvent>), Error>)
    ensures
        r is Ok <==> complete_answer(
            dedup(message_views(msgs@)),
            status_views(oracle_answers@),
        ),
        r matches Err(e) ==> e == Error::QueryVerifier,
        r matches Ok(pair) ==> {
            &&& event_views(pair.1@) == route_outcome_events(status_views(oracle_answers@))
            &&& match pair.0 {
                Some(c) => c@ == route_outcome_forwarded(status_views(oracle_answers@))
                    && c@.len() > 0,
                None => route_outcome_forwarded(status_views(oracle_answers@)).len() == 0,
            }
        },
{
    let grouped = apply(msgs, oracle_answers)?;
    let (cmd, events) = route(grouped);
    Ok((cmd, events))
}

/// The store after each message has been saved under its identity, in order;
/// with equal identities the later message wins.
pub open spec fn store_after(
    m: Map<crate::messages::CrossChainIdView, MessageView>,
    msgs: Seq<MessageView>,
) -> Map<crate::messages::CrossChainIdView, MessageView>
    decreases msgs.len(),
{
    if msgs.len() == 0 {
        m
    } else {
        store_after(m, msgs.drop_last()).insert(msgs.last().cc_id, msgs.last())
    }
}

/// The caller-trusted path: the batch already passed the router, so no
/// oracle is consulted. Deduplicate, persist each message under its identity
/// key, and emit one `Routing` event per unique message, in stored order.
pub fn route_outgoing_messages(
    storage: &mut crate::gateway_state::GatewayStorage,
    verified: Vec<Message>,
) -> (r: Result<Vec<GatewayEvent>, Error>)
    requires
        old(storage).wf(),
    ensures
        final(storage).wf(),
        r is Ok,
        final(storage).outgoing() == store_after(
            old(storage).outgoing(),
            dedup(message_views(verified@)),
        ),
        r matches Ok(events) ==> event_views(events@) == dedup(
            message_views(verified@),
        ).map_values(|m: MessageView| event_with_kind(EventKind::Routing, m)),
{
    let msgs = unique_messages(verified);
    let ghost m0 = old(storage).outgoing();
    let ghost dv = dedup(message_views(verified@));
    let n = msgs.len();
    let mut i: usize = 0;
    proof {
        assert(message_views(msgs@).len() == msgs@.len());
    }
    while i < n
        invariant
            n == msgs.len(),
            i <= n,
            storage.wf(),
            dv == message_views(msgs@),
            dv.len() == msgs@.len(),
            storage.outgoing() == store_after(m0, dv.take(i as int)),
        decreases n - i,
    {
        let m = &msgs[i];
        let res = crate::gateway_state::save_outgoing_message(storage, &m.cc_id, m);
        proof {
            assert(res is Ok);
            assert(dv.take(i + 1).drop_last() =~= dv.take(i as int));
            assert(dv.take(i + 1).last() == msgs@[i as int]@);
            assert(m.cc_id@ == dv.take(i + 1).last().cc_id);
        }
        i = i + 1;
    }
    proof {
        assert(dv.take(n as int) =~= dv);
    }
    let events = messages_into_events(msgs, EventKind::Routing);
    Ok(events)
}

} // verus!
