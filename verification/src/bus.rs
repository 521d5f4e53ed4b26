//! Non-blocking channel plumbing for the control bus: commands flow
//! many-to-one into the coordinator, events fan out one-to-many.  The
//! channels come from crossbeam; everything here either declares them or
//! wraps one call so the logic above can be verified against what a send or
//! receive can observably do.

use vstd::prelude::*;

verus! {

#[verifier::external_type_specification]
#[verifier::external_body]
#[verifier::reject_recursive_types(T)]
pub struct ExSender<T>(crossbeam_channel::Sender<T>);

#[verifier::external_type_specification]
#[verifier::external_body]
#[verifier::reject_recursive_types(T)]
pub struct ExReceiver<T>(crossbeam_channel::Receiver<T>);

/// What one non-blocking send attempt did.
#[derive(Clone, Copy, Debug, PartialEq, Eq, Structural)]
pub enum SendOutcome {
    /// The message was handed to the channel.
    Delivered,
    /// The channel was full but still connected; the message was dropped.
    Full,
    /// Every receiver is gone; the sender is dead.
    Disconnected,
}

/// Relies on crossbeam_channel::unbounded: a fresh channel with no capacity
/// bound.
#[verifier::external_body]
pub(crate) fn channel_new<T>() -> (crossbeam_channel::Sender<T>, crossbeam_channel::Receiver<T>) {
    crossbeam_channel::unbounded()
}

/// Relies on crossbeam_channel::Sender::try_send: never blocks; the three
/// outcomes map one-to-one onto crossbeam's Ok, Full and Disconnected.
#[verifier::external_body]
pub(crate) fn channel_try_send<T>(tx: &crossbeam_channel::Sender<T>, msg: T) -> SendOutcome {
    match tx.try_send(msg) {
        Ok(()) => SendOutcome::Delivered,
        Err(crossbeam_channel::TrySendError::Full(_)) => SendOutcome::Full,
        Err(crossbeam_channel::TrySendError::Disconnected(_)) => SendOutcome::Disconnected,
    }
}

/// Relies on crossbeam_channel::Receiver::try_recv: never blocks; yields a
/// queued message if one is ready, and nothing when the channel is empty or
/// disconnected.
#[verifier::external_body]
pub(crate) fn channel_try_recv<T>(rx: &crossbeam_channel::Receiver<T>) -> Option<T> {
    rx.try_recv().ok()
}

/// The subscribers that survive a fan-out pass: those whose send outcome was
/// anything but `Disconnected`, in their original order.
pub open spec fn prune_disconnected<T>(l: Seq<T>, outcomes: Seq<SendOutcome>) -> Seq<T>
    decreases l.len(),
{
    if l.len() == 0 {
        Seq::empty()
    } else {
        let rest = prune_disconnected(l.skip(1), outcomes.skip(1));
        if outcomes[0] is Disconnected {
            rest
        } else {
            seq![l[0]] + rest
        }
    }
}

/// Unfolding `prune_disconnected` at the right end: pruning after one more
/// send keeps the earlier result and appends the new subscriber exactly when
/// its outcome was not `Disconnected`.
pub proof fn lemma_prune_snoc<T>(l: Seq<T>, outcomes: Seq<SendOutcome>, x: T, oc: SendOutcome)
    requires
        l.len() == outcomes.len(),
    ensures
        prune_disconnected(l.push(x), outcomes.push(oc)) =~= if oc is Disconnected {
            prune_disconnected(l, outcomes)
        } else {
            prune_disconnected(l, outcomes).push(x)
        },
    decreases l.len(),
{
    let lp = l.push(x);
    let op = outcomes.push(oc);
    if l.len() == 0 {
        assert(lp.skip(1) =~= Seq::<T>::empty());
        assert(op.skip(1) =~= Seq::<SendOutcome>::empty());
        assert(prune_disconnected(lp.skip(1), op.skip(1)) =~= Seq::<T>::empty());
        assert(op[0] == oc);
        assert(lp[0] == x);
        if oc is Disconnected {
            assert(prune_disconnected(lp, op) =~= Seq::<T>::empty());
        } else {
            assert(prune_disconnected(lp, op) =~= seq![x] + Seq::<T>::empty());
            assert(seq![x] + Seq::<T>::empty() =~= seq![x]);
            assert(prune_disconnected(l, outcomes).push(x) =~= seq![x]);
        }
    } else {
        assert(lp.skip(1) =~= l.skip(1).push(x));
        assert(op.skip(1) =~= outcomes.skip(1).push(oc));
        lemma_prune_snoc(l.skip(1), outcomes.skip(1), x, oc);
        assert(op[0] == outcomes[0]);
        assert(lp[0] == l[0]);
        let rest = prune_disconnected(l.skip(1), outcomes.skip(1));
        if outcomes[0] is Disconnected {
            assert(prune_disconnected(lp, op) =~= prune_disconnected(lp.skip(1), op.skip(1)));
            if !(oc is Disconnected) {
                assert(prune_disconnected(lp, op) =~= rest.push(x));
                assert(prune_disconnected(l, outcomes) =~= rest);
            }
        } else {
            assert(prune_disconnected(lp, op) =~= seq![l[0]] + prune_disconnected(
                lp.skip(1),
                op.skip(1),
            ));
            assert(prune_disconnected(l, outcomes) =~= seq![l[0]] + rest);
            if !(oc is Disconnected) {
                assert((seq![l[0]] + rest).push(x) =~= seq![l[0]] + rest.push(x));
            }
        }
    }
}

/// Pruning never invents subscribers: the survivors are a subset of the
/// originals, and a subscriber whose send reported `Disconnected` is gone.
pub proof fn lemma_prune_sound<T>(l: Seq<T>, outcomes: Seq<SendOutcome>)
    requires
        l.len() == outcomes.len(),
    ensures
        prune_disconnected(l, outcomes).len() <= l.len(),
        forall|x: T| prune_disconnected(l, outcomes).contains(x) ==> l.contains(x),
        (forall|i: int| 0 <= i < outcomes.len() ==> outcomes[i] is Disconnected)
            ==> prune_disconnected(l, outcomes).len() == 0,
        (forall|i: int| 0 <= i < outcomes.len() ==> !(outcomes[i] is Disconnected))
            ==> prune_disconnected(l, outcomes) =~= l,
    decreases l.len(),
{
    if l.len() > 0 {
        lemma_prune_sound(l.skip(1), outcomes.skip(1));
        assert forall|x: T| prune_disconnected(l, outcomes).contains(x) implies l.contains(
            x,
        ) by {
            if outcomes[0] is Disconnected {
                assert(prune_disconnected(l.skip(1), outcomes.skip(1)).contains(x));
                assert(l.skip(1).contains(x));
                let i = choose|i: int|
                    0 <= i < l.skip(1).len() && l.skip(1)[i] == x;
                assert(l[i + 1] == x);
            } else {
                let p = prune_disconnected(l, outcomes);
                let i = choose|i: int| 0 <= i < p.len() && p[i] == x;
                if i == 0 {
                    assert(l[0] == x);
                } else {
                    assert(prune_disconnected(l.skip(1), outcomes.skip(1)).contains(x));
                    assert(l.skip(1).contains(x));
                    let j = choose|j: int|
                        0 <= j < l.skip(1).len() && l.skip(1)[j] == x;
                    assert(l[j + 1] == x);
                }
            }
        }
    }
}

} // verus!
