//! The message channel between objects and the scenes they are attached to,
//! carried by `std::sync::mpsc`, and two slice reads that cannot unwind.
//!
//! What a receiver yields depends on every sender that shares its channel,
//! so nothing is promised of it here: the scene takes the received messages
//! as an argument of a verified function instead. What is handed to a sender,
//! and what a receiver yields, is recorded in ghost logs that only the calls
//! here extend.
use vstd::prelude::*;

verus! {

#[verifier::external_type_specification]
#[verifier::external_body]
#[verifier::reject_recursive_types(M)]
pub struct ExSender<M>(std::sync::mpsc::Sender<M>);

#[verifier::external_type_specification]
#[verifier::external_body]
#[verifier::reject_recursive_types(M)]
pub struct ExReceiver<M>(std::sync::mpsc::Receiver<M>);

/// Calls `std::sync::mpsc::channel`: a fresh channel with its two ends.
/// Nothing is claimed of the ends but their types.
#[verifier::external_body]
pub(crate) fn new_channel<M>() -> (ends: (std::sync::mpsc::Sender<M>, std::sync::mpsc::Receiver<M>)) {
    std::sync::mpsc::channel()
}

/// `Sender::clone`: another sender into the same channel. Nothing is claimed
/// of the result beyond being what `clone` returns.
pub assume_specification<T>[<std::sync::mpsc::Sender<T> as Clone>::clone](tx: &std::sync::mpsc::Sender<T>) -> (copy: std::sync::mpsc::Sender<T>);

/// A record of what was handed to `Sender::send`: each entry is the sender
/// and the message. Only `send_message` adds to it, and nothing removes from
/// it.
#[verifier::reject_recursive_types(M)]
pub struct SendLog<M> {
    entries: Ghost<Seq<(std::sync::mpsc::Sender<M>, M)>>,
}

impl<M> SendLog<M> {
    pub closed spec fn entries(&self) -> Seq<(std::sync::mpsc::Sender<M>, M)> {
        self.entries@
    }

    /// An empty record.
    pub(crate) fn new() -> (log: Self)
        ensures
            log.entries() == Seq::<(std::sync::mpsc::Sender<M>, M)>::empty(),
    {
        SendLog { entries: Ghost(Seq::empty()) }
    }
}

/// Calls `Sender::send` on `tx` with `msg` and ignores its result, as a
/// sender whose receiver is gone has nobody to tell; `send` never blocks and
/// does not panic, so this call neither unwinds nor opens an invariant. The
/// log gains the entry `(tx, msg)`: the sender and the message handed to
/// `send`. Whether the message arrives is not claimed.
#[verifier::external_body]
pub(crate) fn send_message<M>(tx: &std::sync::mpsc::Sender<M>, msg: M, log: &mut SendLog<M>)
    ensures
        final(log).entries() == old(log).entries().push((*tx, msg)),
    opens_invariants none
    no_unwind
{
    let _ = tx.send(msg);
}

/// A record of what `Receiver::try_iter` yielded: each entry is the
/// receiver and the message; and of each time a receiver was drained until
/// nothing was waiting on it. Only `drain_messages` adds to it, and nothing
/// removes from it.
#[verifier::reject_recursive_types(M)]
pub struct ReceiveLog<M> {
    entries: Ghost<Seq<(std::sync::mpsc::Receiver<M>, M)>>,
    drains: Ghost<Seq<std::sync::mpsc::Receiver<M>>>,
}

impl<M> ReceiveLog<M> {
    pub closed spec fn entries(&self) -> Seq<(std::sync::mpsc::Receiver<M>, M)> {
        self.entries@
    }

    /// The receivers that were drained, one entry per drain, in order.
    pub closed spec fn drains(&self) -> Seq<std::sync::mpsc::Receiver<M>> {
        self.drains@
    }

    /// An empty record.
    pub(crate) fn new() -> (log: Self)
        ensures
            log.entries() == Seq::<(std::sync::mpsc::Receiver<M>, M)>::empty(),
            log.drains() == Seq::<std::sync::mpsc::Receiver<M>>::empty(),
    {
        ReceiveLog { entries: Ghost(Seq::empty()), drains: Ghost(Seq::empty()) }
    }
}

/// Each message paired with the receiver it was taken from.
pub open spec fn taken_from<M>(rx: std::sync::mpsc::Receiver<M>, msgs: Seq<M>) -> Seq<(std::sync::mpsc::Receiver<M>, M)> {
    msgs.map_values(|m: M| (rx, m))
}

/// Calls `Receiver::try_iter` on `rx` and collects what it yields: the
/// messages that are waiting now, in the order they were sent. `try_iter`
/// yields until no message is waiting, so the call drains `rx`: the log
/// records one drain of `rx`. Which messages were waiting depends on the
/// senders, so nothing is claimed of them but that the log gains exactly
/// them, each with `rx`.
#[verifier::external_body]
pub(crate) fn drain_messages<M>(rx: &std::sync::mpsc::Receiver<M>, log: &mut ReceiveLog<M>) -> (msgs: Vec<M>)
    ensures
        final(log).entries() == old(log).entries() + taken_from(*rx, msgs@),
        final(log).drains() == old(log).drains().push(*rx),
{
    rx.try_iter().collect()
}

/// Calls `<[X]>::len`, which returns the slice's length and never unwinds.
#[verifier::external_body]
pub(crate) fn slice_len<X>(s: &[X]) -> (n: usize)
    ensures
        n == s@.len(),
    opens_invariants none
    no_unwind
{
    s.len()
}

/// Indexes the slice (`<[X] as Index<usize>>::index`) inside its bounds: the item there, with no
/// unwinding.
#[verifier::external_body]
pub(crate) fn slice_at<X>(s: &[X], i: usize) -> (item: &X)
    requires
        i < s@.len(),
    ensures
        *item == s@[i as int],
    opens_invariants none
    no_unwind
{
    &s[i]
}

} // verus!
