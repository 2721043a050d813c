//! The two ends of a `std::sync::mpsc` channel that carries `Message`s.
//!
//! `Message` holds a `MessageSender`, so a declaration of the std type
//! `Sender<Message>` would use `Message` recursively through a type
//! parameter that such declarations must reject. The two endpoint types
//! are therefore opaque structs of this crate, and every operation on them
//! is one of the trusted wrappers below.

use std::sync::mpsc;
use vstd::prelude::*;

use crate::Message;

verus! {

/// The sending end of a message channel (opaque to Verus).
#[verifier::external_body]
pub(crate) struct TxChan {
    tx: mpsc::Sender<Message>,
}

/// The receiving end of a message channel (opaque to Verus).
#[verifier::external_body]
pub(crate) struct RxChan {
    rx: mpsc::Receiver<Message>,
}

/// `std::sync::mpsc::Iter`, the blocking iterator over a receiver.
#[verifier::external_type_specification]
#[verifier::external_body]
#[verifier::reject_recursive_types(T)]
pub struct ExIter<'a, T: 'a>(mpsc::Iter<'a, T>);

/// Why a blocking receive with a time limit returned no message.
pub enum RecvFailure {
    /// Every sender has gone away.
    Disconnected,
    /// Nothing arrived in time.
    Timeout,
}

/// Why a non-blocking receive returned no message.
pub enum TryRecvFailure {
    /// The channel holds no message.
    Empty,
    /// Every sender has gone away.
    Disconnected,
}

/// Calls `std::sync::mpsc::channel`. Nothing is claimed of the two ends.
#[verifier::external_body]
pub(crate) fn new_channel() -> (TxChan, RxChan) {
    let (tx, rx) = mpsc::channel::<Message>();
    (TxChan { tx }, RxChan { rx })
}

/// Calls `Sender::clone`. Nothing is claimed of the new sender.
#[verifier::external_body]
pub(crate) fn tx_clone(chan: &TxChan) -> TxChan {
    TxChan { tx: chan.tx.clone() }
}

/// Calls `Sender::send`. As its documentation says, a message that cannot
/// be delivered (the receiver is gone) is handed back in the error.
/// Whether delivery succeeds is not stated.
#[verifier::external_body]
pub(crate) fn tx_send(chan: &TxChan, msg: Message) -> (r: Result<(), Message>)
    ensures
        r matches Err(m) ==> m == msg,
{
    chan.tx.send(msg).map_err(|e| e.0)
}

/// Calls `Receiver::recv_timeout` with a limit of `millis` milliseconds and
/// converts the two error variants one for one. What arrives depends on
/// other threads and the clock, so nothing is claimed of the result.
#[verifier::external_body]
pub(crate) fn rx_recv_timeout(chan: &RxChan, millis: u64) -> Result<Message, RecvFailure> {
    match chan.rx.recv_timeout(std::time::Duration::from_millis(millis)) {
        Ok(m) => Ok(m),
        Err(mpsc::RecvTimeoutError::Disconnected) => Err(RecvFailure::Disconnected),
        Err(mpsc::RecvTimeoutError::Timeout) => Err(RecvFailure::Timeout),
    }
}

/// Calls `Receiver::try_recv` and converts the two error variants one for
/// one. Nothing is claimed of the result, which depends on other threads.
#[verifier::external_body]
pub(crate) fn rx_try_recv(chan: &RxChan) -> Result<Message, TryRecvFailure> {
    match chan.rx.try_recv() {
        Ok(m) => Ok(m),
        Err(mpsc::TryRecvError::Empty) => Err(TryRecvFailure::Empty),
        Err(mpsc::TryRecvError::Disconnected) => Err(TryRecvFailure::Disconnected),
    }
}

/// Calls `Receiver::iter`. Nothing is claimed of the iterator.
#[verifier::external_body]
pub(crate) fn rx_iter(chan: &RxChan) -> mpsc::Iter<'_, Message> {
    chan.rx.iter()
}

} // verus!
