//! # grease - message passing between tasks, with verified task logic.
//!
//! Tasks exchange `Message`s over channels. A task is handed a
//! `MessageReceiver` to read from, and other tasks reach it through clones of
//! its `MessageSender`. Requests carry the sender that the confirmation must
//! go back to.
//!
//! Every sender and receiver carries a ghost label: the two ends made by one
//! `make_channel` share it and `MessageSender::clone` keeps it (labels of
//! different channels are not known to differ). The task logic in `socket`,
//! `http` and `webserv` is written as functions from a task's state and an
//! incoming event to the next state and the messages to send (`Outgoing`),
//! and their contracts say, by label, which sender each message goes to.

use vstd::prelude::*;

pub mod address;
pub mod atcommands;
mod channel;
pub mod echo;
pub mod http;
mod multimap;
pub mod prelude;
pub mod socket;
pub mod text;
pub mod webserv;

pub use channel::{RecvFailure, TryRecvFailure};

use channel::{RxChan, TxChan};

verus! {

/// Identifies something across layers. If each layer keeps a map from
/// `Context` to its own records, a confirmation coming back from the layer
/// below is easily matched with the record it belongs to.
#[derive(Debug, Copy, Clone, PartialEq, Eq, Structural, Hash)]
pub struct Context(pub usize);

impl Default for Context {
    fn default() -> (r: Context)
        ensures
            r.0 == 0,
    {
        Context(0)
    }
}

/// How a context is written: `Context(<decimal value>)`.
pub open spec fn context_text(c: Context) -> Seq<char> {
    seq!['C', 'o', 'n', 't', 'e', 'x', 't', '('] + text::decimal(c.0 as nat) + seq![')']
}

/// The successor of a context value, wrapping to 0 after `usize::MAX`.
pub open spec fn next_value(v: usize) -> usize {
    if v == usize::MAX {
        0
    } else {
        (v + 1) as usize
    }
}

impl Context {
    /// The value inside the context.
    pub open spec fn value(self) -> usize {
        self.0
    }

    /// Makes a context holding `value`.
    pub fn new(value: usize) -> (r: Context)
        ensures
            r.value() == value,
    {
        Context(value)
    }

    /// The value inside the context.
    pub fn as_usize(&self) -> (r: usize)
        ensures
            r == self.value(),
    {
        self.0
    }

    /// Returns a copy of the current value and advances to the next one
    /// (wrapping to 0 after `usize::MAX`).
    pub fn take(&mut self) -> (r: Context)
        ensures
            r == *old(self),
            final(self).value() == next_value(old(self).value()),
    {
        let result = Context(self.0);
        self.0 = self.0.wrapping_add(1);
        result
    }

    /// Renders the context as `Context(<decimal value>)`.
    pub fn to_string(&self) -> (r: String)
        ensures
            r@ == context_text(*self),
    {
        proof {
            reveal_strlit("Context(");
            reveal_strlit(")");
        }
        let mut s = String::new();
        text::push_str(&mut s, "Context(");
        text::push_decimal(&mut s, self.0);
        text::push_str(&mut s, ")");
        s
    }
}

/// Taking a context twice gives two different values, and the second is
/// the successor of the first.
pub proof fn law_take_gives_successive_values(v: usize)
    ensures
        next_value(v) != v,
        next_value(v) as int == (v as int + 1) % (usize::MAX as int + 1),
{
    if v < usize::MAX {
        vstd::arithmetic::div_mod::lemma_small_mod((v + 1) as nat, (usize::MAX + 1) as nat);
    } else {
        vstd::arithmetic::div_mod::lemma_mod_self_0(usize::MAX as int + 1);
    }
}

/// The sending end of a channel. Clones of it reach the same channel.
pub struct MessageSender {
    chan: TxChan,
    id: Ghost<int>,
}

/// The receiving end of a channel.
pub struct MessageReceiver {
    chan: RxChan,
    id: Ghost<int>,
}

/// Saved while a request is being served, so that its confirmation can be
/// sent later.
pub struct ReplyContext {
    pub reply_to: MessageSender,
    pub context: Context,
}

/// The unit passed between tasks. Requests also carry the sender that the
/// confirmation must be sent to.
pub enum Message {
    Request(MessageSender, RequestTask),
    Confirmation(ConfirmationTask),
    Indication(IndicationTask),
    Response(ResponseTask),
}

/// Every request in the system, by the task that serves it.
#[derive(Debug)]
pub enum RequestTask {
    Http(http::Request),
    Socket(socket::Request),
    WebServ(webserv::Request),
}

/// Every confirmation in the system, by the task that sends it.
#[derive(Debug)]
pub enum ConfirmationTask {
    Http(http::Confirmation),
    Socket(socket::Confirmation),
    WebServ(webserv::Confirmation),
}

/// Every indication in the system, by the task that sends it.
#[derive(Debug)]
pub enum IndicationTask {
    Http(http::Indication),
    Socket(socket::Indication),
    WebServ(webserv::Indication),
}

/// Every response in the system, by the task that receives it.
#[derive(Debug)]
pub enum ResponseTask {
    Socket(socket::Response),
}

/// Confirmations, indications and responses wrap themselves in a
/// `Message`.
pub trait NonRequestSendable: Sized {
    /// The message that `wrap` builds.
    spec fn wrapped(self) -> Message;

    fn wrap(self) -> (m: Message)
        ensures
            m == self.wrapped(),
    ;
}

/// Requests wrap themselves in a `Message` together with the sender that
/// the confirmation must go to.
pub trait RequestSendable: Sized {
    /// The request that `wrap` puts in the message.
    spec fn task(self) -> RequestTask;

    fn wrap(self, reply_to: &MessageSender) -> (m: Message)
        ensures
            m matches Message::Request(s, t) && s.id() == reply_to.id() && t == self.task(),
    ;
}

/// A message together with the channel it must be sent to.
pub struct Outgoing {
    pub to: MessageSender,
    pub msg: Message,
}

impl Outgoing {
    /// Sends the message. A message that cannot be delivered comes back in
    /// the error.
    pub fn send(self) -> (r: Result<(), Message>)
        ensures
            r matches Err(m) ==> m == self.msg,
    {
        self.to.send(self.msg)
    }
}

/// Makes the two ends of a new channel.
pub fn make_channel() -> (r: (MessageSender, MessageReceiver))
    ensures
        r.0.id() == r.1.id(),
{
    let (tx, rx) = channel::new_channel();
    let ghost id: int = arbitrary();
    (MessageSender { chan: tx, id: Ghost(id) }, MessageReceiver { chan: rx, id: Ghost(id) })
}

impl MessageSender {
    /// The identity of the channel this sender reaches.
    pub closed spec fn id(&self) -> int {
        self.id@
    }

    /// Sends a request; the confirmation is to go to `reply_to`. A message
    /// that cannot be delivered comes back in the error.
    pub fn send_request<T: RequestSendable>(&self, msg: T, reply_to: &MessageSender) -> (r: Result<
        (),
        Message,
    >)
        ensures
            r matches Err(m) ==> (m matches Message::Request(s, t) && s.id() == reply_to.id() && t
                == msg.task()),
    {
        let m = msg.wrap(reply_to);
        self.send(m)
    }

    /// Sends a confirmation, indication or response. A message that cannot
    /// be delivered comes back in the error.
    pub fn send_nonrequest<T: NonRequestSendable>(&self, msg: T) -> (r: Result<(), Message>)
        ensures
            r matches Err(m) ==> m == msg.wrapped(),
    {
        let m = msg.wrap();
        self.send(m)
    }

    /// Sends a message that is already wrapped. A message that cannot be
    /// delivered comes back in the error.
    pub fn send(&self, msg: Message) -> (r: Result<(), Message>)
        ensures
            r matches Err(m) ==> m == msg,
    {
        channel::tx_send(&self.chan, msg)
    }

    /// A new sender to the same channel.
    pub fn clone(&self) -> (r: MessageSender)
        ensures
            r.id() == self.id(),
    {
        MessageSender { chan: channel::tx_clone(&self.chan), id: Ghost(self.id@) }
    }
}

/// Why `MessageReceiver::check_empty` found the channel not empty.
pub enum CheckEmptyFailure {
    /// A message was waiting.
    NotEmpty(Message),
    /// Every sender has gone away.
    Disconnected,
}

/// What `MessageReceiver::check_empty` makes of a non-blocking receive:
/// a waiting message or a lost channel is a failure, an empty channel is not.
pub fn empty_check(received: Result<Message, TryRecvFailure>) -> (r: Result<(), CheckEmptyFailure>)
    ensures
        match received {
            Ok(m) => r == Err::<(), CheckEmptyFailure>(CheckEmptyFailure::NotEmpty(m)),
            Err(TryRecvFailure::Empty) => r is Ok,
            Err(TryRecvFailure::Disconnected) => r matches Err(CheckEmptyFailure::Disconnected),
        },
{
    match received {
        Ok(msg) => Err(CheckEmptyFailure::NotEmpty(msg)),
        Err(TryRecvFailure::Disconnected) => Err(CheckEmptyFailure::Disconnected),
        Err(TryRecvFailure::Empty) => Ok(()),
    }
}

impl MessageReceiver {
    /// The identity of the channel this receiver reads.
    pub closed spec fn id(&self) -> int {
        self.id@
    }

    /// Waits up to a second for a message. For tests; tasks use `iter`.
    pub fn recv(&self) -> (r: Result<Message, RecvFailure>) {
        channel::rx_recv_timeout(&self.chan, 1000)
    }

    /// Succeeds when no message is waiting. For tests.
    pub fn check_empty(&self) -> (r: Result<(), CheckEmptyFailure>) {
        empty_check(channel::rx_try_recv(&self.chan))
    }

    /// Blocks on each new message in turn; ends when every sender is gone.
    pub fn iter(&self) -> std::sync::mpsc::Iter<'_, Message> {
        channel::rx_iter(&self.chan)
    }
}

} // verus!
