//! The pipeline's laws: deduplication is idempotent, grouping is
//! deterministic up to the order the batch fixes, and the route-policy maps
//! exactly the fully verified status to a `Routing` event.

use crate::events::{event_with_kind, EventKind, GatewayEventView};
use crate::messages::{all_statuses, MessageStatusView, MessageView, VerificationStatus};
use crate::pipeline::{
    bucket_of, complete_answer, dedup, lemma_dedup_idempotent, route_event_kind,
    route_events_groups, route_outcome_events, status_buckets, verify_event_kind,
};
use vstd::multiset::Multiset;
use vstd::prelude::*;

verus! {

/// A permutation's filters are permutations of one another.
proof fn lemma_filter_permutation<A>(s1: Seq<A>, s2: Seq<A>, pred: spec_fn(A) -> bool)
    requires
        s1.to_multiset() == s2.to_multiset(),
    ensures
        s1.filter(pred).to_multiset() == s2.filter(pred).to_multiset(),
    decreases s1.len(),
{
    broadcast use Seq::lemma_filter_push;
    broadcast use Seq::filter_distributes_over_add;
    broadcast use vstd::seq_lib::lemma_multiset_commutative;

    s1.to_multiset_ensures();
    s2.to_multiset_ensures();
    if s1.len() == 0 {
        assert(s2.to_multiset().len() == 0);
        assert(s2.len() == 0);
        assert(s1.filter(pred) =~= s1);
        assert(s2.filter(pred) =~= s2);
    } else {
        let x = s1.last();
        let s1p = s1.drop_last();
        assert(s1 =~= s1p.push(x));
        assert(s1.contains(x));
        assert(s1.to_multiset().count(x) > 0);
        assert(s2.to_multiset().count(x) > 0);
        assert(s2.contains(x));
        let j = choose|j: int| 0 <= j < s2.len() && s2[j] == x;
        let s2p = s2.remove(j);
        s1p.to_multiset_ensures();
        s2p.to_multiset_ensures();
        assert(s1p.push(x).to_multiset() == s1p.to_multiset().insert(x));
        assert(s2p.to_multiset() == s2.to_multiset().remove(x));
        assert(s1p.to_multiset() =~= s1.to_multiset().remove(x));
        assert(s1p.to_multiset() == s2p.to_multiset());
        lemma_filter_permutation(s1p, s2p, pred);
        assert(s1.filter(pred) == if pred(x) {
            s1p.filter(pred).push(x)
        } else {
            s1p.filter(pred)
        });
        let a = s2.take(j);
        let b = s2.skip(j + 1);
        s1p.filter(pred).to_multiset_ensures();
        s2p.filter(pred).to_multiset_ensures();
        a.filter(pred).to_multiset_ensures();
        b.filter(pred).to_multiset_ensures();
        assert(s2 =~= a + (seq![x] + b));
        assert(s2p =~= a + b);
        assert(seq![x] =~= Seq::<A>::empty().push(x));
        assert(Seq::<A>::empty().filter(pred) =~= Seq::<A>::empty());
        assert(seq![x].filter(pred) == if pred(x) {
            Seq::<A>::empty().push(x)
        } else {
            Seq::<A>::empty()
        });
        assert((a + (seq![x] + b)).filter(pred) == a.filter(pred) + (seq![x] + b).filter(pred));
        assert((seq![x] + b).filter(pred) == seq![x].filter(pred) + b.filter(pred));
        assert((a + b).filter(pred) == a.filter(pred) + b.filter(pred));
        let fa = a.filter(pred);
        let fb = b.filter(pred);
        let fx = seq![x].filter(pred);
        assert((fa + (fx + fb)).to_multiset() == fa.to_multiset().add((fx + fb).to_multiset()));
        assert((fx + fb).to_multiset() == fx.to_multiset().add(fb.to_multiset()));
        assert((fa + fb).to_multiset() == fa.to_multiset().add(fb.to_multiset()));
        Seq::<A>::empty().to_multiset_ensures();
        assert(Seq::<A>::empty().to_multiset() =~= Multiset::<A>::empty());
        if pred(x) {
            assert(fx =~= Seq::<A>::empty().push(x));
            assert(fx.to_multiset() =~= Multiset::<A>::empty().insert(x));
            assert(s2.filter(pred).to_multiset() =~= s2p.filter(pred).to_multiset().insert(x));
            assert(s1.filter(pred).to_multiset() =~= s1p.filter(pred).to_multiset().insert(x));
        } else {
            assert(fx =~= Seq::<A>::empty());
            assert(fx.to_multiset() =~= Multiset::<A>::empty());
            assert(s2.filter(pred).to_multiset() =~= s2p.filter(pred).to_multiset());
        }
    }
}

/// A permutation's images under a map are permutations of one another.
proof fn lemma_map_values_permutation<A, B>(s1: Seq<A>, s2: Seq<A>, f: spec_fn(A) -> B)
    requires
        s1.to_multiset() == s2.to_multiset(),
    ensures
        s1.map_values(f).to_multiset() == s2.map_values(f).to_multiset(),
    decreases s1.len(),
{
    broadcast use vstd::seq_lib::lemma_multiset_commutative;

    s1.to_multiset_ensures();
    s2.to_multiset_ensures();
    if s1.len() == 0 {
        assert(s2.to_multiset().len() == 0);
        assert(s2.len() == 0);
        assert(s1.map_values(f) =~= Seq::<B>::empty());
        assert(s2.map_values(f) =~= Seq::<B>::empty());
    } else {
        let x = s1.last();
        let s1p = s1.drop_last();
        assert(s1 =~= s1p.push(x));
        assert(s1.contains(x));
        assert(s1.to_multiset().count(x) > 0);
        assert(s2.to_multiset().count(x) > 0);
        assert(s2.contains(x));
        let j = choose|j: int| 0 <= j < s2.len() && s2[j] == x;
        let s2p = s2.remove(j);
        s1p.to_multiset_ensures();
        s2p.to_multiset_ensures();
        assert(s1p.push(x).to_multiset() == s1p.to_multiset().insert(x));
        assert(s2p.to_multiset() == s2.to_multiset().remove(x));
        assert(s1p.to_multiset() =~= s1.to_multiset().remove(x));
        assert(s1p.to_multiset() == s2p.to_multiset());
        lemma_map_values_permutation(s1p, s2p, f);
        s1p.map_values(f).to_multiset_ensures();
        s2p.map_values(f).to_multiset_ensures();
        assert(s1.map_values(f) =~= s1p.map_values(f).push(f(x)));
        let a = s2.take(j);
        let b = s2.skip(j + 1);
        assert(s2 =~= a + (seq![x] + b));
        assert(s2p =~= a + b);
        assert(s2.map_values(f) =~= a.map_values(f) + (seq![f(x)] + b.map_values(f)));
        assert(s2p.map_values(f) =~= a.map_values(f) + b.map_values(f));
        assert(seq![f(x)] =~= Seq::<B>::empty().push(f(x)));
        let ma = a.map_values(f);
        let mb = b.map_values(f);
        assert((ma + (seq![f(x)] + mb)).to_multiset() == ma.to_multiset().add(
            (seq![f(x)] + mb).to_multiset(),
        ));
        assert((seq![f(x)] + mb).to_multiset() == seq![f(x)].to_multiset().add(mb.to_multiset()));
        assert((ma + mb).to_multiset() == ma.to_multiset().add(mb.to_multiset()));
        Seq::<B>::empty().to_multiset_ensures();
        assert(Seq::<B>::empty().to_multiset() =~= Multiset::<B>::empty());
        assert(seq![f(x)].to_multiset() =~= Multiset::<B>::empty().insert(f(x)));
        assert(s2.map_values(f).to_multiset() =~= s2p.map_values(f).to_multiset().insert(f(x)));
        assert(s1.map_values(f).to_multiset() =~= s1p.map_values(f).to_multiset().insert(f(x)));
    }
}

/// Idempotent dedup: submitting a batch and submitting its deduplicated
/// form are the same call of `verify_messages`. The oracle's answers are
/// checked against `dedup(batch)`, which deduplication leaves unchanged,
/// and the command and events that the contracts of `verify_messages` and
/// `route_incoming_messages` promise are functions of the answers alone.
pub proof fn lemma_verify_of_dedup_unchanged(
    batch: Seq<MessageView>,
    answers: Seq<MessageStatusView>,
)
    ensures
        complete_answer(dedup(batch), answers) == complete_answer(dedup(dedup(batch)), answers),
        dedup(dedup(batch)) == dedup(batch),
{
    lemma_dedup_idempotent(batch);
}

/// The oracle's answers for a batch, statuses assigned consistently by
/// identity.
pub open spec fn answers_for(
    batch: Seq<MessageView>,
    smap: Map<MessageView, VerificationStatus>,
) -> Seq<MessageStatusView> {
    batch.map_values(|m: MessageView| MessageStatusView { message: m, status: smap[m] })
}

/// Within one status, the bucket lists the batch's messages of that status
/// in batch order: the tie-break order is the (deduplicated) input's.
pub proof fn lemma_bucket_follows_batch_order(
    batch: Seq<MessageView>,
    smap: Map<MessageView, VerificationStatus>,
    st: VerificationStatus,
)
    ensures
        bucket_of(answers_for(batch, smap), st) == batch.filter(
            |m: MessageView| smap[m] == st,
        ),
    decreases batch.len(),
{
    broadcast use Seq::lemma_filter_push;

    let pf = |m: MessageView| MessageStatusView { message: m, status: smap[m] };
    let pred = |p: MessageStatusView| p.status == st;
    let mpred = |m: MessageView| smap[m] == st;
    if batch.len() == 0 {
        assert(answers_for(batch, smap) =~= Seq::<MessageStatusView>::empty());
        assert(Seq::<MessageStatusView>::empty().filter(pred) =~= Seq::<
            MessageStatusView,
        >::empty());
        assert(bucket_of(answers_for(batch, smap), st) =~= Seq::<MessageView>::empty());
        assert(batch.filter(mpred) =~= Seq::<MessageView>::empty());
    } else {
        let x = batch.last();
        let bp = batch.drop_last();
        lemma_bucket_follows_batch_order(bp, smap, st);
        assert(batch =~= bp.push(x));
        assert(answers_for(batch, smap) =~= answers_for(bp, smap).push(pf(x)));
        assert(answers_for(bp, smap).push(pf(x)).filter(pred) == if pred(pf(x)) {
            answers_for(bp, smap).filter(pred).push(pf(x))
        } else {
            answers_for(bp, smap).filter(pred)
        });
        assert(bp.push(x).filter(mpred) == if mpred(x) {
            bp.filter(mpred).push(x)
        } else {
            bp.filter(mpred)
        });
        if pred(pf(x)) {
            assert(bucket_of(answers_for(batch, smap), st) =~= bucket_of(
                answers_for(bp, smap),
                st,
            ).push(x));
        } else {
            assert(bucket_of(answers_for(batch, smap), st) =~= bucket_of(
                answers_for(bp, smap),
                st,
            ));
        }
    }
}

/// Deterministic ordering: statuses supplied consistently by identity, an
/// identity-preserving permutation of the batch fills every status bucket
/// with the same messages — only their order can move, and that order is
/// the batch's own, as the companion lemma above states.
pub proof fn lemma_deterministic_ordering(
    b1: Seq<MessageView>,
    b2: Seq<MessageView>,
    smap: Map<MessageView, VerificationStatus>,
    st: VerificationStatus,
)
    requires
        b1.to_multiset() == b2.to_multiset(),
    ensures
        bucket_of(answers_for(b1, smap), st).to_multiset() == bucket_of(
            answers_for(b2, smap),
            st,
        ).to_multiset(),
        bucket_of(answers_for(b1, smap), st).map_values(
            |m: MessageView| event_with_kind(verify_event_kind(st), m),
        ).to_multiset() == bucket_of(answers_for(b2, smap), st).map_values(
            |m: MessageView| event_with_kind(verify_event_kind(st), m),
        ).to_multiset(),
        bucket_of(answers_for(b1, smap), st).map_values(
            |m: MessageView| event_with_kind(route_event_kind(st), m),
        ).to_multiset() == bucket_of(answers_for(b2, smap), st).map_values(
            |m: MessageView| event_with_kind(route_event_kind(st), m),
        ).to_multiset(),
{
    let pf = |m: MessageView| MessageStatusView { message: m, status: smap[m] };
    let pred = |p: MessageStatusView| p.status == st;
    let getm = |p: MessageStatusView| p.message;
    lemma_map_values_permutation(b1, b2, pf);
    lemma_filter_permutation(answers_for(b1, smap), answers_for(b2, smap), pred);
    lemma_map_values_permutation(
        answers_for(b1, smap).filter(pred),
        answers_for(b2, smap).filter(pred),
        getm,
    );
    lemma_map_values_permutation(
        bucket_of(answers_for(b1, smap), st),
        bucket_of(answers_for(b2, smap), st),
        |m: MessageView| event_with_kind(verify_event_kind(st), m),
    );
    lemma_map_values_permutation(
        bucket_of(answers_for(b1, smap), st),
        bucket_of(answers_for(b2, smap), st),
        |m: MessageView| event_with_kind(route_event_kind(st), m),
    );
}

/// Status routing correctness: under the route-policy, and only there, the
/// fully verified status produces a `Routing` event; every other status
/// produces `UnfitForRouting`.
pub proof fn lemma_status_routing_correctness(st: VerificationStatus, m: MessageView)
    ensures
        (route_event_kind(st) == EventKind::Routing) <==> (st
            == VerificationStatus::SucceededOnSourceChain),
        (event_with_kind(route_event_kind(st), m) is Routing) <==> (st
            == VerificationStatus::SucceededOnSourceChain),
        st != VerificationStatus::SucceededOnSourceChain ==> event_with_kind(
            route_event_kind(st),
            m,
        ) is UnfitForRouting,
{
}

/// Where an event of a given kind can come from in grouped buckets: some
/// bucket whose status the route-policy maps to that kind holds the
/// message.
proof fn lemma_route_events_groups_contains(
    groups: Seq<(VerificationStatus, Seq<MessageView>)>,
    kind: EventKind,
    m: MessageView,
)
    ensures
        route_events_groups(groups).contains(event_with_kind(kind, m)) <==> (exists|
            j: int,
            k: int,
        |
            0 <= j < groups.len() && 0 <= k < groups[j].1.len() && route_event_kind(
                groups[j].0,
            ) == kind && (#[trigger] groups[j].1[k]) == m),
    decreases groups.len(),
{
    if groups.len() == 0 {
        assert(route_events_groups(groups) =~= Seq::<GatewayEventView>::empty());
    } else {
        let rest = groups.drop_first();
        lemma_route_events_groups_contains(rest, kind, m);
        let f = |p: (VerificationStatus, Seq<MessageView>)|
            p.1.map_values(|mm: MessageView| event_with_kind(route_event_kind(p.0), mm));
        assert(groups.map_values(f).drop_first() =~= rest.map_values(f));
        assert(route_events_groups(groups) == groups.map_values(f).first() + route_events_groups(
            rest,
        ));
        let head = groups.map_values(f).first();
        let tail = route_events_groups(rest);
        let e = event_with_kind(kind, m);
        assert(head == f(groups[0]));
        assert(head.len() == groups[0].1.len());
        assert forall|k: int| 0 <= k < head.len() implies #[trigger] head[k] == event_with_kind(
            route_event_kind(groups[0].0),
            groups[0].1[k],
        ) by {}
        if (head + tail).contains(e) {
            let i = choose|i: int| 0 <= i < (head + tail).len() && (head + tail)[i] == e;
            if i < head.len() {
                assert(head[i] == e);
                assert(event_with_kind(route_event_kind(groups[0].0), groups[0].1[i]) == e);
                assert(route_event_kind(groups[0].0) == kind && groups[0].1[i] == m);
            } else {
                assert(tail[i - head.len()] == e);
                assert(tail.contains(e));
                let (j, k): (int, int) = choose|j: int, k: int|
                    0 <= j < rest.len() && 0 <= k < rest[j].1.len() && route_event_kind(
                        rest[j].0,
                    ) == kind && (#[trigger] rest[j].1[k]) == m;
                assert(groups[j + 1] == rest[j]);
            }
        }
        if exists|j: int, k: int|
            0 <= j < groups.len() && 0 <= k < groups[j].1.len() && route_event_kind(
                groups[j].0,
            ) == kind && (#[trigger] groups[j].1[k]) == m {
            let (j, k): (int, int) = choose|j: int, k: int|
                0 <= j < groups.len() && 0 <= k < groups[j].1.len() && route_event_kind(
                    groups[j].0,
                ) == kind && (#[trigger] groups[j].1[k]) == m;
            if j == 0 {
                assert(head[k] == e);
                assert((head + tail)[k] == e);
            } else {
                assert(rest[j - 1] == groups[j]);
                assert(tail.contains(e));
                let i = choose|i: int| 0 <= i < tail.len() && tail[i] == e;
                assert((head + tail)[head.len() + i] == e);
            }
        }
    }
}

/// Status routing correctness at the outcome: `routeIncoming`'s event list
/// holds a `Routing` event for a message exactly when the oracle answered
/// `SucceededOnSourceChain` for it.
pub proof fn lemma_route_outcome_routing_events(answers: Seq<MessageStatusView>, m: MessageView)
    ensures
        route_outcome_events(answers).contains(GatewayEventView::Routing { msg: m })
            <==> answers.contains(
            MessageStatusView {
                message: m,
                status: VerificationStatus::SucceededOnSourceChain,
            },
        ),
{
    broadcast use Seq::lemma_filter_pred;
    broadcast use Seq::lemma_filter_contains;
    broadcast use Seq::lemma_filter_contains_rev;

    let succeeded = VerificationStatus::SucceededOnSourceChain;
    let groups = status_buckets(answers);
    let gf = |st: VerificationStatus| (st, bucket_of(answers, st));
    let gpred = |p: (VerificationStatus, Seq<MessageView>)| p.1.len() > 0;
    let apred = |p: MessageStatusView| p.status == succeeded;
    let getm = |p: MessageStatusView| p.message;
    let bucket = bucket_of(answers, succeeded);
    let pair = MessageStatusView { message: m, status: succeeded };
    let mapped = all_statuses().take(6).map_values(gf);
    assert(all_statuses().take(6) =~= all_statuses());
    assert(event_with_kind(EventKind::Routing, m) == (GatewayEventView::Routing { msg: m }));
    lemma_route_events_groups_contains(groups, EventKind::Routing, m);

    if route_outcome_events(answers).contains(GatewayEventView::Routing { msg: m }) {
        let (j, k): (int, int) = choose|j: int, k: int|
            0 <= j < groups.len() && 0 <= k < groups[j].1.len() && route_event_kind(
                groups[j].0,
            ) == EventKind::Routing && (#[trigger] groups[j].1[k]) == m;
        assert(groups[j].0 == succeeded);
        assert(groups.contains(groups[j]));
        assert(mapped.contains(groups[j]));
        let i = choose|i: int| 0 <= i < mapped.len() && mapped[i] == groups[j];
        assert(mapped[i] == gf(all_statuses()[i]));
        assert(groups[j].1 == bucket_of(answers, groups[j].0));
        assert(bucket[k] == m);
        let filtered = answers.filter(apred);
        assert(bucket == filtered.map_values(getm));
        assert(filtered[k].message == m);
        assert(apred(filtered[k]));
        assert(filtered.contains(filtered[k]));
        assert(answers.contains(filtered[k]));
        assert(filtered[k] == pair);
    }
    if answers.contains(pair) {
        let i = choose|i: int| 0 <= i < answers.len() && answers[i] == pair;
        assert(apred(answers[i]));
        assert(answers.filter(apred).contains(pair));
        let filtered = answers.filter(apred);
        let k = choose|k: int| 0 <= k < filtered.len() && filtered[k] == pair;
        assert(bucket == filtered.map_values(getm));
        assert(bucket[k] == m);
        assert(bucket.len() > 0);
        assert(all_statuses()[4] == succeeded);
        assert(mapped[4] == gf(succeeded));
        assert(gpred(mapped[4]));
        assert(mapped.filter(gpred).contains(mapped[4]));
        assert(groups == mapped.filter(gpred));
        let j = choose|j: int| 0 <= j < groups.len() && groups[j] == mapped[4];
        assert(groups[j].1[k] == m);
        assert(route_event_kind(groups[j].0) == EventKind::Routing);
    }
}

/// Status routing correctness, the other half: a status other than
/// `SucceededOnSourceChain` leaves its message an `UnfitForRouting` event
/// in `routeIncoming`'s event list.
pub proof fn lemma_route_outcome_unfit_events(
    answers: Seq<MessageStatusView>,
    m: MessageView,
    st: VerificationStatus,
)
    requires
        st != VerificationStatus::SucceededOnSourceChain,
        answers.contains(MessageStatusView { message: m, status: st }),
    ensures
        route_outcome_events(answers).contains(GatewayEventView::UnfitForRouting { msg: m }),
{
    broadcast use Seq::lemma_filter_pred;
    broadcast use Seq::lemma_filter_contains;
    broadcast use Seq::lemma_filter_contains_rev;

    let groups = status_buckets(answers);
    let gf = |s: VerificationStatus| (s, bucket_of(answers, s));
    let gpred = |p: (VerificationStatus, Seq<MessageView>)| p.1.len() > 0;
    let apred = |p: MessageStatusView| p.status == st;
    let getm = |p: MessageStatusView| p.message;
    let bucket = bucket_of(answers, st);
    let pair = MessageStatusView { message: m, status: st };
    let mapped = all_statuses().take(6).map_values(gf);
    assert(all_statuses().take(6) =~= all_statuses());
    assert(event_with_kind(EventKind::UnfitForRouting, m) == (GatewayEventView::UnfitForRouting {
        msg: m,
    }));
    lemma_route_events_groups_contains(groups, EventKind::UnfitForRouting, m);

    let i = choose|i: int| 0 <= i < answers.len() && answers[i] == pair;
    assert(apred(answers[i]));
    assert(answers.filter(apred).contains(pair));
    let filtered = answers.filter(apred);
    let k = choose|k: int| 0 <= k < filtered.len() && filtered[k] == pair;
    assert(bucket == filtered.map_values(getm));
    assert(bucket[k] == m);
    assert(bucket.len() > 0);
    let r = st.rank();
    assert(all_statuses()[r] == st);
    assert(mapped[r] == gf(st));
    assert(gpred(mapped[r]));
    assert(mapped.filter(gpred).contains(mapped[r]));
    assert(groups == mapped.filter(gpred));
    let j = choose|j: int| 0 <= j < groups.len() && groups[j] == mapped[r];
    assert(groups[j].1[k] == m);
    assert(route_event_kind(groups[j].0) == EventKind::UnfitForRouting);
}

} // verus!
