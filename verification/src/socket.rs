//! # socket - A TCP server task
//!
//! A user asks the socket task to bind a listening socket. The user then
//! receives indications when a connection arrives, when data arrives on it
//! and when it closes, and can send data on it or close it.
//!
//! The network calls themselves are made outside the library. `TaskContext`
//! holds everything the task decides with: the listening sockets, the open
//! connections with their queues of unfinished writes, and the next handle.
//! Each of its methods takes the outcome of the network call that preceded
//! it and returns the messages to send.

use std::collections::{HashMap, VecDeque};

use vstd::prelude::*;

use crate::address::SocketAddr;
use crate::{NonRequestSendable, RequestSendable};
use crate::{
    ConfirmationTask, Context, IndicationTask, Message, MessageSender, Outgoing, RequestTask,
    ResponseTask,
};

verus! {

broadcast use {vstd::std_specs::hash::group_hash_axioms, vstd::std_specs::vecdeque::group_vec_dequeue_axioms};

// ****************************************************************************
// Public Messages
// ****************************************************************************

/// Requests that can be sent to the Socket task
#[derive(Debug)]
pub enum Request {
    /// A Bind Request - Bind a listen socket
    Bind(Box<ReqBind>),
    /// An Unbind Request - Unbind a bound listen socket
    Unbind(Box<ReqUnbind>),
    /// A Close request - Close an open connection
    Close(Box<ReqClose>),
    /// A Send request - Send something on a connection
    Send(Box<ReqSend>),
}

/// Confirmations sent from the Socket task in answer to a Request
#[derive(Debug)]
pub enum Confirmation {
    /// A Bind Confirm - Bound a listen socket
    Bind(Box<CfmBind>),
    /// An Unbind Confirm - Unbound a bound listen socket
    Unbind(Box<CfmUnbind>),
    /// A Close Confirm - Closed an open connection
    Close(Box<CfmClose>),
    /// A Send Confirm - Sent something on a connection
    Send(Box<CfmSend>),
}

/// Asynchronous indications sent by the Socket task
#[derive(Debug)]
pub enum Indication {
    /// A listening socket has been connected to
    Connected(Box<IndConnected>),
    /// An open socket has been dropped
    Dropped(Box<IndDropped>),
    /// Data has arrived on an open socket
    Received(Box<IndReceived>),
}

/// Responses to Indications
#[derive(Debug)]
pub enum Response {
    /// Unblocks the open socket so more IndReceived can be sent
    Received(Box<RspReceived>),
}

/// Bind a listen socket
#[derive(Debug)]
pub struct ReqBind {
    /// The address to bind to
    pub addr: SocketAddr,
    /// Reflected in the cfm
    pub context: Context,
}

/// Unbind a bound listen socket
#[derive(Debug)]
pub struct ReqUnbind {
    /// The handle from a CfmBind
    pub handle: ConnHandle,
    /// Reflected in the cfm
    pub context: Context,
}

/// Close an open connection
#[derive(Debug)]
pub struct ReqClose {
    /// The handle from a IndConnected
    pub handle: ConnHandle,
    /// Reflected in the cfm
    pub context: Context,
}

/// Send something on a connection
#[derive(Debug)]
pub struct ReqSend {
    /// The handle from a IndConnected
    pub handle: ConnHandle,
    /// Some (maybe) unique identifier
    pub context: Context,
    /// The data to be sent
    pub data: Vec<u8>,
}

/// Reply to a ReqBind.
#[derive(Debug)]
pub struct CfmBind {
    /// Either a new ListenHandle or an error
    pub result: Result<ListenHandle, SocketError>,
    /// Reflected from the req
    pub context: Context,
}

/// Reply to a ReqUnbind.
#[derive(Debug)]
pub struct CfmUnbind {
    /// The handle requested for unbinding
    pub handle: ListenHandle,
    /// Whether we were successful in unbinding
    pub result: Result<(), SocketError>,
    /// Reflected from the req
    pub context: Context,
}

/// Reply to a ReqClose. Will flush out all existing data: it comes once
/// every write queued on the connection has been written out.
#[derive(Debug)]
pub struct CfmClose {
    /// The handle requested for closing
    pub handle: ConnHandle,
    /// Success or failed
    pub result: Result<(), SocketError>,
    /// Reflected from the req
    pub context: Context,
}

/// Reply to a ReqSend. The data has not necessarily been sent, but it is
/// safe to send some more data.
#[derive(Debug)]
pub struct CfmSend {
    /// The handle requested for sending
    pub handle: ConnHandle,
    /// Amount sent or error
    pub result: Result<usize, SocketError>,
    /// Some (maybe) unique identifier
    pub context: Context,
}

/// Indicates that a listening socket has been connected to.
#[derive(Debug)]
pub struct IndConnected {
    /// The listen handle the connection came in on
    pub listen_handle: ListenHandle,
    /// The handle for the new connection
    pub conn_handle: ConnHandle,
    /// Details about who connected
    pub peer: SocketAddr,
}

/// Indicates that a socket has been dropped.
#[derive(Debug)]
pub struct IndDropped {
    /// The handle that is no longer valid
    pub handle: ConnHandle,
}

/// Indicates that data has arrived on the socket. No further data will be
/// sent on this handle until RspReceived is sent back.
#[derive(Debug)]
pub struct IndReceived {
    /// The handle for the socket data came in on
    pub handle: ConnHandle,
    /// The data that came in (at most `MAX_READ_LEN` octets)
    pub data: Vec<u8>,
}

/// Tell the task that more data can now be sent.
#[derive(Debug)]
pub struct RspReceived {
    /// Which handle is now free to send up more data
    pub handle: ConnHandle,
}

/// How a message that carries data is summed up for a log: its name, its
/// handle and how many octets it carries, not the octets themselves.
pub open spec fn data_summary(name: Seq<char>, handle: ConnHandle, len: nat) -> Seq<char> {
    name + " { handle: "@ + crate::context_text(handle) + ", data.len: "@ + crate::text::decimal(len)
        + " }"@
}

/// Writes `data_summary(name, handle, len)`.
fn summarise(name: &str, handle: ConnHandle, len: usize) -> (r: String)
    ensures
        r@ == data_summary(name@, handle, len as nat),
{
    let mut s = String::new();
    crate::text::push_str(&mut s, name);
    crate::text::push_str(&mut s, " { handle: ");
    let h = handle.to_string();
    crate::text::push_str(&mut s, h.as_str());
    crate::text::push_str(&mut s, ", data.len: ");
    crate::text::push_decimal(&mut s, len);
    crate::text::push_str(&mut s, " }");
    assert(s@ =~= data_summary(name@, handle, len as nat));
    s
}

impl IndReceived {
    /// Sums the indication up for a log, without the data.
    pub fn summary(&self) -> (r: String)
        ensures
            r@ == data_summary("IndReceived"@, self.handle, self.data@.len()),
    {
        summarise("IndReceived", self.handle, self.data.len())
    }
}

impl ReqSend {
    /// Sums the request up for a log, without the data.
    pub fn summary(&self) -> (r: String)
        ensures
            r@ == data_summary("ReqSend"@, self.handle, self.data@.len()),
    {
        summarise("ReqSend", self.handle, self.data.len())
    }
}

impl RequestSendable for ReqBind {
    open spec fn task(self) -> RequestTask {
        RequestTask::Socket(Request::Bind(Box::new(self)))
    }

    fn wrap(self, reply_to: &MessageSender) -> (m: Message) {
        Message::Request(reply_to.clone(), RequestTask::Socket(Request::Bind(Box::new(self))))
    }
}

impl RequestSendable for ReqUnbind {
    open spec fn task(self) -> RequestTask {
        RequestTask::Socket(Request::Unbind(Box::new(self)))
    }

    fn wrap(self, reply_to: &MessageSender) -> (m: Message) {
        Message::Request(reply_to.clone(), RequestTask::Socket(Request::Unbind(Box::new(self))))
    }
}

impl RequestSendable for ReqClose {
    open spec fn task(self) -> RequestTask {
        RequestTask::Socket(Request::Close(Box::new(self)))
    }

    fn wrap(self, reply_to: &MessageSender) -> (m: Message) {
        Message::Request(reply_to.clone(), RequestTask::Socket(Request::Close(Box::new(self))))
    }
}

impl RequestSendable for ReqSend {
    open spec fn task(self) -> RequestTask {
        RequestTask::Socket(Request::Send(Box::new(self)))
    }

    fn wrap(self, reply_to: &MessageSender) -> (m: Message) {
        Message::Request(reply_to.clone(), RequestTask::Socket(Request::Send(Box::new(self))))
    }
}

impl NonRequestSendable for CfmBind {
    open spec fn wrapped(self) -> Message {
        Message::Confirmation(ConfirmationTask::Socket(Confirmation::Bind(Box::new(self))))
    }

    fn wrap(self) -> (m: Message) {
        Message::Confirmation(ConfirmationTask::Socket(Confirmation::Bind(Box::new(self))))
    }
}

impl NonRequestSendable for CfmUnbind {
    open spec fn wrapped(self) -> Message {
        Message::Confirmation(ConfirmationTask::Socket(Confirmation::Unbind(Box::new(self))))
    }

    fn wrap(self) -> (m: Message) {
        Message::Confirmation(ConfirmationTask::Socket(Confirmation::Unbind(Box::new(self))))
    }
}

impl NonRequestSendable for CfmClose {
    open spec fn wrapped(self) -> Message {
        Message::Confirmation(ConfirmationTask::Socket(Confirmation::Close(Box::new(self))))
    }

    fn wrap(self) -> (m: Message) {
        Message::Confirmation(ConfirmationTask::Socket(Confirmation::Close(Box::new(self))))
    }
}

impl NonRequestSendable for CfmSend {
    open spec fn wrapped(self) -> Message {
        Message::Confirmation(ConfirmationTask::Socket(Confirmation::Send(Box::new(self))))
    }

    fn wrap(self) -> (m: Message) {
        Message::Confirmation(ConfirmationTask::Socket(Confirmation::Send(Box::new(self))))
    }
}

impl NonRequestSendable for IndConnected {
    open spec fn wrapped(self) -> Message {
        Message::Indication(IndicationTask::Socket(Indication::Connected(Box::new(self))))
    }

    fn wrap(self) -> (m: Message) {
        Message::Indication(IndicationTask::Socket(Indication::Connected(Box::new(self))))
    }
}

impl NonRequestSendable for IndDropped {
    open spec fn wrapped(self) -> Message {
        Message::Indication(IndicationTask::Socket(Indication::Dropped(Box::new(self))))
    }

    fn wrap(self) -> (m: Message) {
        Message::Indication(IndicationTask::Socket(Indication::Dropped(Box::new(self))))
    }
}

impl NonRequestSendable for IndReceived {
    open spec fn wrapped(self) -> Message {
        Message::Indication(IndicationTask::Socket(Indication::Received(Box::new(self))))
    }

    fn wrap(self) -> (m: Message) {
        Message::Indication(IndicationTask::Socket(Indication::Received(Box::new(self))))
    }
}

impl NonRequestSendable for RspReceived {
    open spec fn wrapped(self) -> Message {
        Message::Response(ResponseTask::Socket(Response::Received(Box::new(self))))
    }

    fn wrap(self) -> (m: Message) {
        Message::Response(ResponseTask::Socket(Response::Received(Box::new(self))))
    }
}

// ****************************************************************************
// Public Types
// ****************************************************************************

/// Users of the socket task implement this trait to have incoming
/// confirmations and indications routed to one handler per message. Each
/// handler's effect on the user is described by the spec function named
/// after it, which the implementation defines.
pub trait User: Sized {
    /// Whether `after` is what handling Bind confirmation `msg` makes of
    /// `self`.
    spec fn handled_cfm_bind(self, after: Self, msg: CfmBind) -> bool;

    /// Whether `after` is what handling Unbind confirmation `msg` makes of
    /// `self`.
    spec fn handled_cfm_unbind(self, after: Self, msg: CfmUnbind) -> bool;

    /// Whether `after` is what handling Close confirmation `msg` makes of
    /// `self`.
    spec fn handled_cfm_close(self, after: Self, msg: CfmClose) -> bool;

    /// Whether `after` is what handling Send confirmation `msg` makes of
    /// `self`.
    spec fn handled_cfm_send(self, after: Self, msg: CfmSend) -> bool;

    /// Whether `after` is what handling Connected indication `msg` makes of
    /// `self`.
    spec fn handled_ind_connected(self, after: Self, msg: IndConnected) -> bool;

    /// Whether `after` is what handling Dropped indication `msg` makes of
    /// `self`.
    spec fn handled_ind_dropped(self, after: Self, msg: IndDropped) -> bool;

    /// Whether `after` is what handling Received indication `msg` makes of
    /// `self`.
    spec fn handled_ind_received(self, after: Self, msg: IndReceived) -> bool;

    /// Unpacks a Socket Confirmation and routes it to its handler.
    fn handle_socket_cfm(&mut self, msg: &Confirmation)
        ensures
            match *msg {
                Confirmation::Bind(x) => (*old(self)).handled_cfm_bind(*final(self), *x),
                Confirmation::Unbind(x) => (*old(self)).handled_cfm_unbind(*final(self), *x),
                Confirmation::Close(x) => (*old(self)).handled_cfm_close(*final(self), *x),
                Confirmation::Send(x) => (*old(self)).handled_cfm_send(*final(self), *x),
            },
    {
        match msg {
            Confirmation::Bind(x) => self.handle_socket_cfm_bind(x),
            Confirmation::Unbind(x) => self.handle_socket_cfm_unbind(x),
            Confirmation::Close(x) => self.handle_socket_cfm_close(x),
            Confirmation::Send(x) => self.handle_socket_cfm_send(x),
        }
    }

    /// Called when a Bind confirmation is received.
    fn handle_socket_cfm_bind(&mut self, msg: &CfmBind)
        ensures
            (*old(self)).handled_cfm_bind(*final(self), *msg),
    ;

    /// Called when an Unbind confirmation is received.
    fn handle_socket_cfm_unbind(&mut self, msg: &CfmUnbind)
        ensures
            (*old(self)).handled_cfm_unbind(*final(self), *msg),
    ;

    /// Called when a Close confirmation is received.
    fn handle_socket_cfm_close(&mut self, msg: &CfmClose)
        ensures
            (*old(self)).handled_cfm_close(*final(self), *msg),
    ;

    /// Called when a Send confirmation is received.
    fn handle_socket_cfm_send(&mut self, msg: &CfmSend)
        ensures
            (*old(self)).handled_cfm_send(*final(self), *msg),
    ;

    /// Unpacks a Socket Indication and routes it to its handler.
    fn handle_socket_ind(&mut self, msg: &Indication)
        ensures
            match *msg {
                Indication::Connected(x) => (*old(self)).handled_ind_connected(*final(self), *x),
                Indication::Dropped(x) => (*old(self)).handled_ind_dropped(*final(self), *x),
                Indication::Received(x) => (*old(self)).handled_ind_received(*final(self), *x),
            },
    {
        match msg {
            Indication::Connected(x) => self.handle_socket_ind_connected(x),
            Indication::Dropped(x) => self.handle_socket_ind_dropped(x),
            Indication::Received(x) => self.handle_socket_ind_received(x),
        }
    }

    /// Handles a Connected indication.
    fn handle_socket_ind_connected(&mut self, msg: &IndConnected)
        ensures
            (*old(self)).handled_ind_connected(*final(self), *msg),
    ;

    /// Handles a connection Dropped indication.
    fn handle_socket_ind_dropped(&mut self, msg: &IndDropped)
        ensures
            (*old(self)).handled_ind_dropped(*final(self), *msg),
    ;

    /// Handles a data Received indication.
    fn handle_socket_ind_received(&mut self, msg: &IndReceived)
        ensures
            (*old(self)).handled_ind_received(*final(self), *msg),
    ;
}

/// Uniquely identifies a listening socket
pub type ListenHandle = Context;

/// Uniquely identifies an open socket
pub type ConnHandle = Context;

/// `std::io::ErrorKind`, carried inside `SocketError` without being read.
#[verifier::external_type_specification]
#[verifier::external_body]
pub struct ExErrorKind(std::io::ErrorKind);

/// All possible errors the Socket task might want to report.
#[derive(Debug, Copy, Clone)]
pub enum SocketError {
    /// An underlying socket error
    IOError(std::io::ErrorKind),
    /// The given handle was not recognised
    BadHandle,
    /// The pending write failed because the socket dropped
    Dropped,
    /// Function not implemented yet
    NotImplemented,
}

/// The most that one IndReceived carries.
pub const MAX_READ_LEN: usize = 128;

/// The token of the task's own message channel; no socket gets this handle.
pub const MESSAGE_TOKEN: usize = 0;

// ****************************************************************************
// Task state
// ****************************************************************************

/// Created for every bound (i.e. listening) socket
pub struct ListenSocket {
    pub handle: ListenHandle,
    pub ind_to: MessageSender,
}

/// Created for every write that could not be completed at once
pub struct PendingWrite {
    pub context: Context,
    pub sent: usize,
    pub data: Vec<u8>,
    pub reply_to: MessageSender,
}

/// Recorded for a ReqClose that waits for the queued writes to go out
pub struct PendingClose {
    pub context: Context,
    pub reply_to: MessageSender,
}

/// Created for every connection received on a ListenSocket
pub struct ConnectedSocket {
    pub ind_to: MessageSender,
    pub handle: ConnHandle,
    /// There's a read the user hasn't processed yet
    pub outstanding: bool,
    /// Queue of pending writes, oldest first
    pub pending_writes: VecDeque<PendingWrite>,
    /// A close that waits for the queue to empty
    pub closing: Option<PendingClose>,
}

/// One instance per task. Stores everything the task decides with.
pub struct TaskContext {
    /// Set of all bound sockets, by handle value
    listeners: HashMap<usize, ListenSocket>,
    /// Set of all connected sockets, by handle value
    connections: HashMap<usize, ConnectedSocket>,
    /// The next handle we'll use for a bound/open socket
    next_handle: usize,
}

/// A message to the socket task, by kind.
pub enum Incoming {
    /// A request, with the sender its confirmation goes to
    Request(MessageSender, Request),
    /// A response to one of the task's indications
    Response(Response),
    /// Anything else, which the task does not handle
    Unexpected(Message),
}

/// Sorts a message to the socket task by kind.
pub fn incoming(msg: Message) -> (r: Incoming)
    ensures
        match msg {
            Message::Request(s, RequestTask::Socket(req)) => r == Incoming::Request(s, req),
            Message::Response(ResponseTask::Socket(rsp)) => r == Incoming::Response(rsp),
            _ => r == Incoming::Unexpected(msg),
        },
{
    match msg {
        Message::Request(s, RequestTask::Socket(req)) => Incoming::Request(s, req),
        Message::Response(ResponseTask::Socket(rsp)) => Incoming::Response(rsp),
        other => Incoming::Unexpected(other),
    }
}

/// What one readiness event on a token asks the task to do, in order.
#[derive(Debug, PartialEq, Eq, Structural)]
pub enum ReadyStep {
    /// Take the next message from the task's own channel
    ReceiveMessage,
    /// Accept a connection on this listening socket
    Accept(ListenHandle),
    /// Read from this connection
    Read(ConnHandle),
    /// Write queued data on this connection
    WritePending(ConnHandle),
    /// This connection has gone away
    Drop(ConnHandle),
}

// ****************************************************************************
// Specifications
// ****************************************************************************

/// A socket confirmation, wrapped.
pub open spec fn cfm_msg(c: Confirmation) -> Message {
    Message::Confirmation(ConfirmationTask::Socket(c))
}

/// A socket indication, wrapped.
pub open spec fn ind_msg(i: Indication) -> Message {
    Message::Indication(IndicationTask::Socket(i))
}

/// The CfmSend for a write on handle `h`.
pub open spec fn send_cfm_msg(h: ConnHandle, ctx: Context, result: Result<usize, SocketError>) -> Message {
    cfm_msg(Confirmation::Send(Box::new(CfmSend { handle: h, result, context: ctx })))
}

/// What a pending write's requester is told when its connection goes away.
pub open spec fn dropped_write_notice(h: ConnHandle, pw: PendingWrite) -> Outgoing {
    Outgoing { to: pw.reply_to, msg: send_cfm_msg(h, pw.context, Err(SocketError::Dropped)) }
}

/// The notices for every write still queued on a connection, oldest first.
pub open spec fn dropped_write_notices(c: ConnectedSocket) -> Seq<Outgoing> {
    c.pending_writes@.map_values(|pw: PendingWrite| dropped_write_notice(c.handle, pw))
}

/// The steps for one readiness event, as the task takes them: the readable
/// part first (own messages, then listeners, then connections), then the
/// writable part, then error, then hang-up. A connection dropped on error
/// is already gone when the hang-up is looked at.
pub open spec fn ready_plan(
    listening: Set<usize>,
    connected: Set<usize>,
    token: usize,
    readable: bool,
    writable: bool,
    error: bool,
    hup: bool,
) -> Seq<ReadyStep> {
    let conn = !listening.contains(token) && connected.contains(token);
    let r = if !readable {
        Seq::<ReadyStep>::empty()
    } else if token == MESSAGE_TOKEN {
        seq![ReadyStep::ReceiveMessage]
    } else if listening.contains(token) {
        seq![ReadyStep::Accept(Context(token))]
    } else if connected.contains(token) {
        seq![ReadyStep::Read(Context(token))]
    } else {
        Seq::<ReadyStep>::empty()
    };
    let w = if writable && conn {
        seq![ReadyStep::WritePending(Context(token))]
    } else {
        Seq::<ReadyStep>::empty()
    };
    let e = if error && conn {
        seq![ReadyStep::Drop(Context(token))]
    } else {
        Seq::<ReadyStep>::empty()
    };
    let h = if hup && !error && conn {
        seq![ReadyStep::Drop(Context(token))]
    } else {
        Seq::<ReadyStep>::empty()
    };
    r + w + e + h
}

/// On an open connection, a readiness event reads first whenever data has
/// arrived, whatever else the event reports: the plan is a Read if
/// readable, then a WritePending if writable, then one Drop if the
/// connection failed or hung up, and nothing else. So data that arrives
/// with a hang-up is read and passed up before the connection is dropped.
pub proof fn law_ready_reads_before_drop(
    t: TaskContext,
    token: usize,
    readable: bool,
    writable: bool,
    error: bool,
    hup: bool,
)
    requires
        t.wf(),
        t.connections().contains_key(token),
    ensures
        ({
            let plan = ready_plan(t.listeners().dom(), t.connections().dom(), token, readable, writable, error, hup);
            let r: int = if readable { 1 } else { 0 };
            let w: int = if writable { 1 } else { 0 };
            let d: int = if error || hup { 1 } else { 0 };
            &&& plan.len() == r + w + d
            &&& readable ==> plan[0] == ReadyStep::Read(Context(token))
            &&& writable ==> plan[r] == ReadyStep::WritePending(Context(token))
            &&& (error || hup) ==> plan[r + w] == ReadyStep::Drop(Context(token))
        }),
{
    law_handles_unique(t, token);
}

/// On a listening socket, a readiness event only ever accepts, and only
/// when readable; on the task's own channel it only takes the next message.
pub proof fn law_ready_listener_and_channel(
    t: TaskContext,
    token: usize,
    readable: bool,
    writable: bool,
    error: bool,
    hup: bool,
)
    requires
        t.wf(),
    ensures
        ({
            let plan = ready_plan(t.listeners().dom(), t.connections().dom(), token, readable, writable, error, hup);
            &&& t.listeners().contains_key(token) ==> plan == (if readable {
                seq![ReadyStep::Accept(Context(token))]
            } else {
                Seq::<ReadyStep>::empty()
            })
            &&& token == MESSAGE_TOKEN ==> plan == (if readable {
                seq![ReadyStep::ReceiveMessage]
            } else {
                Seq::<ReadyStep>::empty()
            })
        }),
{
    law_handles_unique(t, token);
    let plan = ready_plan(t.listeners().dom(), t.connections().dom(), token, readable, writable, error, hup);
    if t.listeners().contains_key(token) || token == MESSAGE_TOKEN {
        assert(!t.connections().contains_key(token));
        if readable {
            assert(plan =~= seq![plan[0]]);
        } else {
            assert(plan =~= Seq::<ReadyStep>::empty());
        }
    }
}

/// No queued write has sent more than its data, and a close waits only/// No queued write has sent more than its data, and a close waits only
/// while writes are queued.
pub open spec fn pending_ok(c: ConnectedSocket) -> bool {
    &&& forall|i: int|
        0 <= i < c.pending_writes@.len() ==> (#[trigger] c.pending_writes@[i]).sent
            <= c.pending_writes@[i].data@.len()
    &&& c.closing is Some ==> c.pending_writes@.len() > 0
}

/// The CfmClose for a close of handle `h`.
pub open spec fn close_cfm_msg(h: ConnHandle, ctx: Context, result: Result<(), SocketError>) -> Message {
    cfm_msg(Confirmation::Close(Box::new(CfmClose { handle: h, result, context: ctx })))
}

/// What a waiting closer is told when its connection goes away first.
pub open spec fn dropped_close_notices(c: ConnectedSocket) -> Seq<Outgoing> {
    match c.closing {
        Some(pc) => seq![
            Outgoing { to: pc.reply_to, msg: close_cfm_msg(c.handle, pc.context, Err(SocketError::Dropped)) },
        ],
        None => Seq::<Outgoing>::empty(),
    }
}

impl TaskContext {
    /// The bound sockets, by handle value.
    pub closed spec fn listeners(&self) -> Map<usize, ListenSocket> {
        self.listeners@
    }

    /// The open connections, by handle value.
    pub closed spec fn connections(&self) -> Map<usize, ConnectedSocket> {
        self.connections@
    }

    /// The handle the next bound or accepted socket will get.
    pub closed spec fn next_handle(&self) -> usize {
        self.next_handle
    }

    /// The task's invariant: each record sits under its own handle, every
    /// handle was given out before (and is not the message token), a handle
    /// names a listener or a connection but not both, and no queued write
    /// has sent more than its data.
    pub open spec fn wf(&self) -> bool {
        &&& MESSAGE_TOKEN < self.next_handle()
        &&& forall|h: usize| #[trigger]
            self.listeners().contains_key(h) ==> {
                &&& self.listeners()[h].handle == Context(h)
                &&& MESSAGE_TOKEN < h < self.next_handle()
                &&& !self.connections().contains_key(h)
            }
        &&& forall|h: usize| #[trigger]
            self.connections().contains_key(h) ==> {
                &&& self.connections()[h].handle == Context(h)
                &&& MESSAGE_TOKEN < h < self.next_handle()
                &&& pending_ok(self.connections()[h])
            }
    }

    /// Whether a handle may still be given out.
    pub open spec fn can_allocate(&self) -> bool {
        self.next_handle() < usize::MAX
    }
}

/// The notices for every write in `queue`, queued on connection `handle`
/// that has gone away, oldest first.
fn notify_dropped(handle: ConnHandle, queue: VecDeque<PendingWrite>) -> (outs: Vec<Outgoing>)
    ensures
        outs@ == queue@.map_values(|pw: PendingWrite| dropped_write_notice(handle, pw)),
{
    let ghost orig = queue@;
    let ghost f = |pw: PendingWrite| dropped_write_notice(handle, pw);
    let mut queue = queue;
    let mut outs: Vec<Outgoing> = Vec::new();
    assert(queue@ == orig.subrange(0, orig.len() as int));
    while queue.len() > 0
        invariant
            f == (|pw: PendingWrite| dropped_write_notice(handle, pw)),
            queue@.len() <= orig.len(),
            queue@ == orig.subrange(orig.len() - queue@.len(), orig.len() as int),
            outs@ == orig.subrange(0, orig.len() - queue@.len()).map_values(f),
        decreases queue@.len(),
    {
        let ghost done = orig.len() - queue@.len();
        let pw = queue.pop_front().unwrap();
        let cfm = CfmSend { handle, result: Err(SocketError::Dropped), context: pw.context };
        outs.push(Outgoing { to: pw.reply_to, msg: cfm.wrap() });
        assert(outs@ =~= orig.subrange(0, done + 1).map_values(f));
        assert(queue@ =~= orig.subrange(done + 1, orig.len() as int));
    }
    assert(orig.subrange(0, orig.len() as int) =~= orig);
    outs
}

impl TaskContext {
    /// A task with no sockets; the first handle given out is 1.
    pub fn new() -> (t: TaskContext)
        ensures
            t.wf(),
            t.listeners() == Map::<usize, ListenSocket>::empty(),
            t.connections() == Map::<usize, ConnectedSocket>::empty(),
            t.next_handle() == MESSAGE_TOKEN + 1,
    {
        TaskContext {
            listeners: HashMap::new(),
            connections: HashMap::new(),
            next_handle: MESSAGE_TOKEN + 1,
        }
    }

    /// The handle the next bound or accepted socket will get.
    pub fn upcoming_handle(&self) -> (r: Context)
        ensures
            r == Context(self.next_handle()),
    {
        Context(self.next_handle)
    }

    /// Decides what a readiness event on `token` asks the task to do.
    pub fn ready(&self, token: usize, readable: bool, writable: bool, error: bool, hup: bool) -> (plan:
        Vec<ReadyStep>)
        requires
            self.wf(),
        ensures
            plan@ == ready_plan(
                self.listeners().dom(),
                self.connections().dom(),
                token,
                readable,
                writable,
                error,
                hup,
            ),
    {
        let is_listener = self.listeners.contains_key(&token);
        let is_connection = self.connections.contains_key(&token);
        let mut plan: Vec<ReadyStep> = Vec::new();
        if readable {
            if token == MESSAGE_TOKEN {
                plan.push(ReadyStep::ReceiveMessage);
            } else if is_listener {
                plan.push(ReadyStep::Accept(Context(token)));
            } else if is_connection {
                plan.push(ReadyStep::Read(Context(token)));
            }
        }
        let mut connected = !is_listener && is_connection;
        if writable && connected {
            plan.push(ReadyStep::WritePending(Context(token)));
        }
        if error && connected {
            plan.push(ReadyStep::Drop(Context(token)));
            connected = false;
        }
        if hup && connected {
            plan.push(ReadyStep::Drop(Context(token)));
        }
        let ghost expected = ready_plan(
            self.listeners().dom(),
            self.connections().dom(),
            token,
            readable,
            writable,
            error,
            hup,
        );
        assert(plan@ =~= expected);
        plan
    }

    /// Completes a ReqBind. `bound` is the outcome of binding the address;
    /// when it succeeded, `registered` is the outcome of registering the new
    /// listener for readiness under `upcoming_handle()`. A handle is used
    /// up whenever the bind succeeded; the listener is kept only when the
    /// registration succeeded too.
    pub fn handle_bind(
        &mut self,
        req_bind: &ReqBind,
        reply_to: &MessageSender,
        bound: Result<(), SocketError>,
        registered: Result<(), SocketError>,
    ) -> (outs: Vec<Outgoing>)
        requires
            old(self).wf(),
            bound is Ok ==> old(self).can_allocate(),
        ensures
            final(self).wf(),
            final(self).connections() == old(self).connections(),
            outs@.len() == 1,
            outs@[0].to.id() == reply_to.id(),
            match bound {
                Err(e) => {
                    &&& final(self).listeners() == old(self).listeners()
                    &&& final(self).next_handle() == old(self).next_handle()
                    &&& outs@[0].msg == cfm_msg(
                        Confirmation::Bind(Box::new(CfmBind { result: Err(e), context: req_bind.context })),
                    )
                },
                Ok(_) => {
                    let h = old(self).next_handle();
                    &&& final(self).next_handle() == h + 1
                    &&& match registered {
                        Err(e) => {
                            &&& final(self).listeners() == old(self).listeners()
                            &&& outs@[0].msg == cfm_msg(
                                Confirmation::Bind(
                                    Box::new(CfmBind { result: Err(e), context: req_bind.context }),
                                ),
                            )
                        },
                        Ok(_) => {
                            &&& final(self).listeners() == old(self).listeners().insert(
                                h,
                                final(self).listeners()[h],
                            )
                            &&& final(self).listeners()[h].handle == Context(h)
                            &&& final(self).listeners()[h].ind_to.id() == reply_to.id()
                            &&& outs@[0].msg == cfm_msg(
                                Confirmation::Bind(
                                    Box::new(
                                        CfmBind { result: Ok(Context(h)), context: req_bind.context },
                                    ),
                                ),
                            )
                        },
                    }
                },
            },
    {
        let result = match bound {
            Err(e) => Err(e),
            Ok(_) => {
                let h = self.next_handle;
                self.next_handle = self.next_handle + 1;
                match registered {
                    Ok(_) => {
                        let l = ListenSocket { handle: Context(h), ind_to: reply_to.clone() };
                        self.listeners.insert(h, l);
                        Ok(Context(h))
                    },
                    Err(e) => Err(e),
                }
            },
        };
        proof {
            if bound is Ok {
                lemma_put_listener(*old(self), *self, old(self).next_handle(), registered is Ok);
            }
        }
        let cfm = CfmBind { result, context: req_bind.context };
        let mut outs: Vec<Outgoing> = Vec::new();
        outs.push(Outgoing { to: reply_to.clone(), msg: cfm.wrap() });
        outs
    }

    /// A connection has been accepted on listener `ls_handle`, and has been
    /// registered for readiness under `upcoming_handle()`. Records it and
    /// tells the listener's user.
    pub fn accept(&mut self, ls_handle: ListenHandle, peer: SocketAddr) -> (outs: Vec<Outgoing>)
        requires
            old(self).wf(),
            old(self).listeners().contains_key(ls_handle.0),
            old(self).can_allocate(),
        ensures
            final(self).wf(),
            ({
                let h = old(self).next_handle();
                let l = old(self).listeners()[ls_handle.0];
                let c = final(self).connections()[h];
                &&& final(self).next_handle() == h + 1
                &&& final(self).listeners() == old(self).listeners()
                &&& final(self).connections() == old(self).connections().insert(h, c)
                &&& c.handle == Context(h)
                &&& c.ind_to.id() == l.ind_to.id()
                &&& !c.outstanding
                &&& c.pending_writes@.len() == 0
                &&& c.closing is None
                &&& outs@.len() == 1
                &&& outs@[0].to.id() == l.ind_to.id()
                &&& outs@[0].msg == ind_msg(
                    Indication::Connected(
                        Box::new(
                            IndConnected { listen_handle: ls_handle, conn_handle: Context(h), peer },
                        ),
                    ),
                )
            }),
    {
        let ls = self.listeners.get(&ls_handle.0).unwrap();
        let h = self.next_handle;
        let cs = ConnectedSocket {
            handle: Context(h),
            ind_to: ls.ind_to.clone(),
            outstanding: false,
            pending_writes: VecDeque::new(),
            closing: None,
        };
        let to = ls.ind_to.clone();
        let ind = IndConnected { listen_handle: ls.handle, conn_handle: Context(h), peer };
        self.next_handle = self.next_handle + 1;
        self.connections.insert(h, cs);
        proof {
            lemma_put_connection(*old(self), *self, h);
        }
        let mut outs: Vec<Outgoing> = Vec::new();
        outs.push(Outgoing { to, msg: ind.wrap() });
        outs
    }

    /// Whether a ReqSend on `handle` is to be written at once: the
    /// connection exists and nothing is queued on it.
    pub fn wants_write(&self, handle: ConnHandle) -> (r: bool)
        ensures
            r == (self.connections().contains_key(handle.0)
                && self.connections()[handle.0].pending_writes@.len() == 0),
    {
        match self.connections.get(&handle.0) {
            Some(c) => c.pending_writes.len() == 0,
            None => false,
        }
    }

    /// Handles a ReqSend. `written` is the outcome of writing the data at
    /// once, and is present exactly when `wants_write` says so; a failed
    /// write is an I/O error. Whatever is left unsent is queued; the
    /// confirmation then waits until the queue reaches it. The request is
    /// answered with BadHandle exactly when its handle is unknown.
    pub fn handle_send(
        &mut self,
        req_send: &ReqSend,
        reply_to: &MessageSender,
        written: Option<Result<usize, SocketError>>,
    ) -> (outs: Vec<Outgoing>)
        requires
            old(self).wf(),
            written is Some <==> (old(self).connections().contains_key(req_send.handle.0)
                && old(self).connections()[req_send.handle.0].pending_writes@.len() == 0),
            written matches Some(Err(e)) ==> e is IOError,
        ensures
            final(self).wf(),
            final(self).listeners() == old(self).listeners(),
            final(self).next_handle() == old(self).next_handle(),
            send_effect(*old(self), *final(self), *req_send, *reply_to, written, outs@),
            (outs@.len() == 1 && outs@[0].msg == send_cfm_msg(
                req_send.handle,
                req_send.context,
                Err(SocketError::BadHandle),
            )) <==> !old(self).connections().contains_key(req_send.handle.0),
    {
        let h = req_send.handle.0;
        let mut outs: Vec<Outgoing> = Vec::new();
        let to_send = req_send.data.len();
        match self.connections.remove(&h) {
            None => {
                assert(self.connections@ =~= old(self).connections@);
                proof {
                    lemma_remove_connection(*old(self), *self, h);
                }
                let cfm = CfmSend {
                    result: Err(SocketError::BadHandle),
                    context: req_send.context,
                    handle: req_send.handle,
                };
                outs.push(Outgoing { to: reply_to.clone(), msg: cfm.wrap() });
            },
            Some(c) => {
                let ConnectedSocket { ind_to, handle, outstanding, pending_writes, closing } = c;
                let mut queue = pending_writes;
                let sent: Option<usize> = match written {
                    None => Some(0),
                    Some(Ok(n)) => {
                        if n < to_send {
                            Some(n)
                        } else {
                            let cfm = CfmSend {
                                context: req_send.context,
                                handle: req_send.handle,
                                result: Ok(to_send),
                            };
                            outs.push(Outgoing { to: reply_to.clone(), msg: cfm.wrap() });
                            None
                        }
                    },
                    Some(Err(e)) => {
                        let cfm = CfmSend {
                            context: req_send.context,
                            handle: req_send.handle,
                            result: Err(e),
                        };
                        outs.push(Outgoing { to: reply_to.clone(), msg: cfm.wrap() });
                        None
                    },
                };
                if let Some(n) = sent {
                    let pw = PendingWrite {
                        sent: n,
                        context: req_send.context,
                        data: vstd::slice::slice_to_vec(req_send.data.as_slice()),
                        reply_to: reply_to.clone(),
                    };
                    queue.push_back(pw);
                }
                let c2 = ConnectedSocket { ind_to, handle, outstanding, pending_writes: queue, closing };
                self.connections.insert(h, c2);
                proof {
                    if sent is None {
                        assert(self.connections@ =~= old(self).connections@);
                    }
                    assert(self.connections() =~= old(self).connections().insert(h, self.connections()[h]));
                    lemma_put_connection(*old(self), *self, h);
                }
            },
        }
        outs
    }

    /// The data and progress of the oldest write queued on `handle`, if
    /// there is one.
    pub fn next_pending_write(&self, handle: ConnHandle) -> (r: Option<(&Vec<u8>, usize)>)
        requires
            self.wf(),
        ensures
            match r {
                None => !(self.connections().contains_key(handle.0)
                    && self.connections()[handle.0].pending_writes@.len() > 0),
                Some((d, s)) => {
                    &&& self.connections().contains_key(handle.0)
                    &&& self.connections()[handle.0].pending_writes@.len() > 0
                    &&& d@ == self.connections()[handle.0].pending_writes@[0].data@
                    &&& s == self.connections()[handle.0].pending_writes@[0].sent
                    &&& s <= d@.len()
                },
            },
    {
        match self.connections.get(&handle.0) {
            None => None,
            Some(c) => {
                assert(*c == self.connections()[handle.0]);
                if c.pending_writes.len() == 0 {
                    None
                } else {
                    let pw = &c.pending_writes[0];
                    Some((&pw.data, pw.sent))
                }
            },
        }
    }

    /// Records the outcome of writing the rest of the oldest queued write on
    /// `handle`. A short write keeps it at the head of the queue and stops;
    /// a complete write confirms it and lets the next one go; an error
    /// confirms it with the error, drops it and stops. When the last queued
    /// write is done and a close is waiting, the connection is closed and
    /// the close confirmed (with the write's error, if it failed). The
    /// first flag says whether to go on with the next queued write, the
    /// second whether the connection is to be closed now.
    pub fn pending_write_done(&mut self, handle: ConnHandle, written: Result<usize, SocketError>) -> (r: (
        Vec<Outgoing>,
        bool,
        bool,
    ))
        requires
            old(self).wf(),
            old(self).connections().contains_key(handle.0),
            old(self).connections()[handle.0].pending_writes@.len() > 0,
        ensures
            final(self).wf(),
            final(self).listeners() == old(self).listeners(),
            final(self).next_handle() == old(self).next_handle(),
            write_done_effect(*old(self), *final(self), handle, written, r.0@, r.1, r.2),
    {
        let h = handle.0;
        let c = self.connections.remove(&h).unwrap();
        let ConnectedSocket { ind_to, handle: ch, outstanding, pending_writes, closing } = c;
        let mut queue = pending_writes;
        let ghost q0 = queue@;
        let pw = queue.pop_front().unwrap();
        let PendingWrite { context, sent, data, reply_to } = pw;
        let to_send = data.len() - sent;
        let mut outs: Vec<Outgoing> = Vec::new();
        let (done, failure) = match written {
            Ok(n) => {
                if n < to_send {
                    queue.push_front(PendingWrite { context, sent: sent + n, data, reply_to });
                    assert(queue@ =~= q0.update(0, PendingWrite { sent: (sent + n) as usize, ..q0[0] }));
                    (false, None)
                } else {
                    let total = data.len();
                    let cfm = CfmSend { handle: ch, context, result: Ok(total) };
                    outs.push(Outgoing { to: reply_to, msg: cfm.wrap() });
                    (true, None)
                }
            },
            Err(e) => {
                let cfm = CfmSend { handle: ch, context, result: Err(e) };
                outs.push(Outgoing { to: reply_to, msg: cfm.wrap() });
                (true, Some(e))
            },
        };
        proof {
            if done {
                assert(queue@ =~= q0.drop_first());
            }
        }
        if done && queue.len() == 0 && closing.is_some() {
            let pc = closing.unwrap();
            let result = match failure {
                Some(e) => Err(e),
                None => Ok(()),
            };
            let cfm = CfmClose { handle: ch, result, context: pc.context };
            outs.push(Outgoing { to: pc.reply_to, msg: cfm.wrap() });
            proof {
                lemma_remove_connection(*old(self), *self, h);
                assert(outs@ =~= seq![outs@[0], outs@[1]]);
            }
            (outs, false, true)
        } else {
            let c2 = ConnectedSocket { ind_to, handle: ch, outstanding, pending_writes: queue, closing };
            self.connections.insert(h, c2);
            proof {
                lemma_put_connection(*old(self), *self, h);
                assert(self.connections() == old(self).connections().insert(h, self.connections()[h]));
            }
            (outs, done && failure.is_none(), false)
        }
    }

    /// Whether the task reads from `handle` now: the connection exists and
    /// its last IndReceived has been answered.
    pub fn wants_read(&self, handle: ConnHandle) -> (r: bool)
        ensures
            r == (self.connections().contains_key(handle.0)
                && !self.connections()[handle.0].outstanding),
    {
        match self.connections.get(&handle.0) {
            Some(c) => !c.outstanding,
            None => false,
        }
    }

    /// Records the outcome of reading into `buffer` from `handle`. A read of
    /// some octets is passed up in one IndReceived, and no more is read
    /// until the user answers it; an empty read or an error passes nothing
    /// up.
    pub fn handle_read(&mut self, handle: ConnHandle, buffer: Vec<u8>, read: Result<usize, SocketError>) -> (outs:
        Vec<Outgoing>)
        requires
            old(self).wf(),
            old(self).connections().contains_key(handle.0),
            !old(self).connections()[handle.0].outstanding,
            read matches Ok(n) ==> n <= buffer@.len(),
        ensures
            final(self).wf(),
            final(self).listeners() == old(self).listeners(),
            final(self).next_handle() == old(self).next_handle(),
            read_effect(*old(self), *final(self), handle, buffer@, read, outs@),
    {
        let mut outs: Vec<Outgoing> = Vec::new();
        match read {
            Ok(n) => {
                if n > 0 {
                    let h = handle.0;
                    let c = self.connections.remove(&h).unwrap();
                    let mut data = buffer;
                    data.truncate(n);
                    let ind = IndReceived { handle: c.handle, data };
                    let to = c.ind_to.clone();
                    let c2 = ConnectedSocket { outstanding: true, ..c };
                    self.connections.insert(h, c2);
                    proof {
                        assert(self.connections() =~= old(self).connections().insert(h, c2));
                        lemma_put_connection(*old(self), *self, h);
                    }
                    outs.push(Outgoing { to, msg: ind.wrap() });
                }
            },
            Err(_) => {},
        }
        outs
    }

    /// Handles a response from the user.
    pub fn handle_socket_rsp(&mut self, rsp: &Response) -> (need_read: bool)
        requires
            old(self).wf(),
        ensures
            final(self).wf(),
            match rsp {
                Response::Received(x) => received_effect(*old(self), *final(self), **x, need_read),
            },
    {
        match rsp {
            Response::Received(x) => self.handle_received(x),
        }
    }

    /// The user has taken the last IndReceived on a connection, so more may
    /// be read from it. Answers whether to read now; a handle that has gone
    /// meanwhile is ignored.
    pub fn handle_received(&mut self, rsp_received: &RspReceived) -> (need_read: bool)
        requires
            old(self).wf(),
        ensures
            final(self).wf(),
            received_effect(*old(self), *final(self), *rsp_received, need_read),
    {
        let h = rsp_received.handle.0;
        match self.connections.remove(&h) {
            Some(c) => {
                let c2 = ConnectedSocket { outstanding: false, ..c };
                self.connections.insert(h, c2);
                proof {
                    lemma_put_connection(*old(self), *self, h);
                }
                true
            },
            None => {
                assert(self.connections@ =~= old(self).connections@);
                proof {
                    lemma_remove_connection(*old(self), *self, h);
                }
                false
            },
        }
    }

    /// Connection `handle` has gone away (and has been taken out of the
    /// readiness poll). Forgets it, tells its user, fails every write still
    /// queued on it, and fails a close that was waiting for them. A handle
    /// that is no longer open (closed earlier in the same readiness event,
    /// say) changes nothing and sends nothing.
    pub fn dropped(&mut self, handle: ConnHandle) -> (outs: Vec<Outgoing>)
        requires
            old(self).wf(),
        ensures
            final(self).wf(),
            final(self).listeners() == old(self).listeners(),
            final(self).next_handle() == old(self).next_handle(),
            drop_effect(*old(self), *final(self), handle, outs@),
    {
        let mut outs: Vec<Outgoing> = Vec::new();
        match self.connections.remove(&handle.0) {
            None => {
                assert(self.connections@ =~= old(self).connections@.remove(handle.0));
                proof {
                    lemma_remove_connection(*old(self), *self, handle.0);
                }
            },
            Some(c) => {
                proof {
                    lemma_remove_connection(*old(self), *self, handle.0);
                }
                let ghost c0 = c;
                let ind = IndDropped { handle };
                let ConnectedSocket { ind_to, handle: ch, outstanding: _, pending_writes, closing } = c;
                outs.push(Outgoing { to: ind_to, msg: ind.wrap() });
                let mut rest = notify_dropped(ch, pending_writes);
                outs.append(&mut rest);
                match closing {
                    Some(pc) => {
                        let cfm = CfmClose { handle: ch, result: Err(SocketError::Dropped), context: pc.context };
                        outs.push(Outgoing { to: pc.reply_to, msg: cfm.wrap() });
                    },
                    None => {},
                }
                proof {
                    let first = seq![
                        Outgoing {
                            to: c0.ind_to,
                            msg: ind_msg(Indication::Dropped(Box::new(IndDropped { handle }))),
                        },
                    ];
                    assert(outs@ =~= first + dropped_write_notices(c0) + dropped_close_notices(c0));
                }
            },
        }
        outs
    }

    /// Handles a ReqClose. Data still queued on the connection is flushed
    /// first: the close is recorded and confirmed once the last queued
    /// write is done. With nothing queued the connection is closed and the
    /// close confirmed at once. An unknown handle, or a connection already
    /// waiting to close, is answered with BadHandle. The flag says whether
    /// the connection is to be closed now.
    pub fn handle_close(&mut self, req_close: &ReqClose, reply_to: &MessageSender) -> (r: (Vec<
        Outgoing,
    >, bool))
        requires
            old(self).wf(),
        ensures
            final(self).wf(),
            final(self).listeners() == old(self).listeners(),
            final(self).next_handle() == old(self).next_handle(),
            close_effect(*old(self), *final(self), *req_close, *reply_to, r.0@, r.1),
    {
        let h = req_close.handle.0;
        let mut outs: Vec<Outgoing> = Vec::new();
        match self.connections.remove(&h) {
            None => {
                assert(self.connections@ =~= old(self).connections@);
                proof {
                    lemma_remove_connection(*old(self), *self, h);
                }
                let cfm = CfmClose {
                    result: Err(SocketError::BadHandle),
                    handle: req_close.handle,
                    context: req_close.context,
                };
                outs.push(Outgoing { to: reply_to.clone(), msg: cfm.wrap() });
                (outs, false)
            },
            Some(c) => {
                if c.closing.is_some() {
                    self.connections.insert(h, c);
                    proof {
                        assert(self.connections@ =~= old(self).connections@);
                        lemma_put_connection(*old(self), *self, h);
                    }
                    let cfm = CfmClose {
                        result: Err(SocketError::BadHandle),
                        handle: req_close.handle,
                        context: req_close.context,
                    };
                    outs.push(Outgoing { to: reply_to.clone(), msg: cfm.wrap() });
                    (outs, false)
                } else if c.pending_writes.len() == 0 {
                    proof {
                        lemma_remove_connection(*old(self), *self, h);
                    }
                    let cfm = CfmClose { result: Ok(()), handle: req_close.handle, context: req_close.context };
                    outs.push(Outgoing { to: reply_to.clone(), msg: cfm.wrap() });
                    (outs, true)
                } else {
                    let pc = PendingClose { context: req_close.context, reply_to: reply_to.clone() };
                    let c2 = ConnectedSocket { closing: Some(pc), ..c };
                    self.connections.insert(h, c2);
                    proof {
                        lemma_put_connection(*old(self), *self, h);
                        assert(self.connections() == old(self).connections().insert(h, self.connections()[h]));
                    }
                    (outs, false)
                }
            },
        }
    }

    /// Handles a ReqUnbind, which is not supported: it is confirmed with
    /// NotImplemented.
    pub fn handle_unbind(&self, req_unbind: &ReqUnbind, reply_to: &MessageSender) -> (outs: Vec<
        Outgoing,
    >)
        ensures
            outs@.len() == 1,
            outs@[0].to.id() == reply_to.id(),
            outs@[0].msg == cfm_msg(
                Confirmation::Unbind(
                    Box::new(
                        CfmUnbind {
                            handle: req_unbind.handle,
                            result: Err(SocketError::NotImplemented),
                            context: req_unbind.context,
                        },
                    ),
                ),
            ),
    {
        let cfm = CfmUnbind {
            result: Err(SocketError::NotImplemented),
            handle: req_unbind.handle,
            context: req_unbind.context,
        };
        let mut outs: Vec<Outgoing> = Vec::new();
        outs.push(Outgoing { to: reply_to.clone(), msg: cfm.wrap() });
        outs
    }
}

/// Putting a record under its own, already given out, handle keeps the
/// invariant.
proof fn lemma_put_connection(t: TaskContext, t2: TaskContext, h: usize)
    requires
        t.wf(),
        t2.listeners() == t.listeners(),
        t2.next_handle() >= t.next_handle(),
        t2.connections() =~= t.connections().insert(h, t2.connections()[h]),
        t2.connections()[h].handle == Context(h),
        MESSAGE_TOKEN < h < t2.next_handle(),
        !t.listeners().contains_key(h),
        pending_ok(t2.connections()[h]),
    ensures
        t2.wf(),
{
    assert forall|k: usize| #[trigger] t2.listeners().contains_key(k) implies {
        &&& t2.listeners()[k].handle == Context(k)
        &&& MESSAGE_TOKEN < k < t2.next_handle()
        &&& !t2.connections().contains_key(k)
    } by {
        assert(t.listeners().contains_key(k));
    }
    assert forall|k: usize| #[trigger] t2.connections().contains_key(k) implies {
        &&& t2.connections()[k].handle == Context(k)
        &&& MESSAGE_TOKEN < k < t2.next_handle()
        &&& pending_ok(t2.connections()[k])
    } by {
        if k != h {
            assert(t.connections().contains_key(k));
        }
    }
}

/// Removing a connection keeps the invariant.
proof fn lemma_remove_connection(t: TaskContext, t2: TaskContext, h: usize)
    requires
        t.wf(),
        t2.listeners() == t.listeners(),
        t2.next_handle() == t.next_handle(),
        t2.connections() == t.connections().remove(h),
    ensures
        t2.wf(),
{
    assert forall|k: usize| #[trigger] t2.listeners().contains_key(k) implies {
        &&& t2.listeners()[k].handle == Context(k)
        &&& MESSAGE_TOKEN < k < t2.next_handle()
        &&& !t2.connections().contains_key(k)
    } by {
        assert(t.listeners().contains_key(k));
    }
    assert forall|k: usize| #[trigger] t2.connections().contains_key(k) implies {
        &&& t2.connections()[k].handle == Context(k)
        &&& MESSAGE_TOKEN < k < t2.next_handle()
        &&& pending_ok(t2.connections()[k])
    } by {
        assert(t.connections().contains_key(k));
    }
}

/// Using up a handle, and putting a listener under it, keeps the invariant.
proof fn lemma_put_listener(t: TaskContext, t2: TaskContext, h: usize, keep: bool)
    requires
        t.wf(),
        h == t.next_handle(),
        t2.next_handle() == h + 1,
        t2.connections() == t.connections(),
        keep ==> t2.listeners() =~= t.listeners().insert(h, t2.listeners()[h]),
        keep ==> t2.listeners()[h].handle == Context(h),
        !keep ==> t2.listeners() == t.listeners(),
    ensures
        t2.wf(),
{
    assert forall|k: usize| #[trigger] t2.listeners().contains_key(k) implies {
        &&& t2.listeners()[k].handle == Context(k)
        &&& MESSAGE_TOKEN < k < t2.next_handle()
        &&& !t2.connections().contains_key(k)
    } by {
        if k != h {
            assert(t.listeners().contains_key(k));
        }
    }
    assert forall|k: usize| #[trigger] t2.connections().contains_key(k) implies {
        &&& t2.connections()[k].handle == Context(k)
        &&& MESSAGE_TOKEN < k < t2.next_handle()
        &&& pending_ok(t2.connections()[k])
    } by {
        assert(t.connections().contains_key(k));
    }
}

/// What the task does with a ReqSend, given the outcome of writing the
/// data at once (present exactly when nothing was queued on the
/// connection). An unknown handle is answered with BadHandle. A write that
/// failed or sent everything is confirmed at once; otherwise the rest is
/// queued and confirmed when the queue reaches it.
pub open spec fn send_effect(
    before: TaskContext,
    after: TaskContext,
    req_send: ReqSend,
    reply_to: MessageSender,
    written: Option<Result<usize, SocketError>>,
    outs: Seq<Outgoing>,
) -> bool {
    let h = req_send.handle.0;
    let len = req_send.data@.len();
    &&& after.listeners() == before.listeners()
    &&& after.next_handle() == before.next_handle()
    &&& if !before.connections().contains_key(h) {
        &&& after.connections() == before.connections()
        &&& outs.len() == 1
        &&& outs[0].to.id() == reply_to.id()
        &&& outs[0].msg == send_cfm_msg(req_send.handle, req_send.context, Err(SocketError::BadHandle))
    } else {
        match written {
            Some(Err(e)) => {
                &&& after.connections() == before.connections()
                &&& outs.len() == 1
                &&& outs[0].to.id() == reply_to.id()
                &&& outs[0].msg == send_cfm_msg(req_send.handle, req_send.context, Err(e))
            },
            Some(Ok(n)) if n >= len => {
                &&& after.connections() == before.connections()
                &&& outs.len() == 1
                &&& outs[0].to.id() == reply_to.id()
                &&& outs[0].msg == send_cfm_msg(req_send.handle, req_send.context, Ok(len as usize))
            },
            _ => {
                let sent: usize = match written {
                    Some(Ok(n)) => n,
                    _ => 0,
                };
                &&& outs.len() == 0
                &&& queued_write(
                    before.connections()[h],
                    after.connections()[h],
                    req_send,
                    reply_to,
                    sent,
                )
                &&& after.connections() == before.connections().insert(h, after.connections()[h])
            },
        }
    }
}

/// Whether the task reads from connection `h` when it is readable: the
/// connection exists and its last IndReceived has been answered.
pub open spec fn reads(t: TaskContext, h: usize) -> bool {
    t.connections().contains_key(h) && !t.connections()[h].outstanding
}

/// What the task does with the outcome of a read into `buffer` on a
/// connection: octets read are passed up in one IndReceived and the
/// connection waits for the answer; an empty read or an error changes
/// nothing.
pub open spec fn read_effect(
    before: TaskContext,
    after: TaskContext,
    handle: ConnHandle,
    buffer: Seq<u8>,
    read: Result<usize, SocketError>,
    outs: Seq<Outgoing>,
) -> bool {
    let h = handle.0;
    let c = before.connections()[h];
    &&& after.listeners() == before.listeners()
    &&& after.next_handle() == before.next_handle()
    &&& match read {
        Ok(n) if n > 0 => {
            let c2 = after.connections()[h];
            &&& after.connections() == before.connections().insert(h, c2)
            &&& c2 == ConnectedSocket { outstanding: true, ..c }
            &&& outs.len() == 1
            &&& outs[0].to.id() == c.ind_to.id()
            &&& outs[0].msg matches Message::Indication(IndicationTask::Socket(Indication::Received(ind)))
                && ind.handle == c.handle && ind.data@ == buffer.subrange(0, n as int)
        },
        _ => {
            &&& after.connections() == before.connections()
            &&& outs.len() == 0
        },
    }
}

/// A new handle never names a socket in use, the message token never names
/// a socket, and no handle names both a listener and a connection.
pub proof fn law_handles_unique(t: TaskContext, h: usize)
    requires
        t.wf(),
    ensures
        !t.listeners().contains_key(t.next_handle()),
        !t.connections().contains_key(t.next_handle()),
        !t.listeners().contains_key(MESSAGE_TOKEN),
        !t.connections().contains_key(MESSAGE_TOKEN),
        !(t.listeners().contains_key(h) && t.connections().contains_key(h)),
{
    if t.listeners().contains_key(t.next_handle()) {
    }
    if t.connections().contains_key(t.next_handle()) {
    }
    if t.listeners().contains_key(MESSAGE_TOKEN) {
    }
    if t.connections().contains_key(MESSAGE_TOKEN) {
    }
}

/// Flow control: once data has been passed up in an IndReceived, nothing
/// more is read from that connection until the user answers it, and the
/// answer makes the connection readable again. The data passed up is at
/// most what one read buffer holds.
pub proof fn law_one_indication_at_a_time(
    before: TaskContext,
    after: TaskContext,
    handle: ConnHandle,
    buffer: Seq<u8>,
    n: usize,
    outs: Seq<Outgoing>,
    answered: TaskContext,
    rsp: RspReceived,
    need_read: bool,
)
    requires
        before.connections().contains_key(handle.0),
        buffer.len() == MAX_READ_LEN,
        0 < n <= buffer.len(),
        read_effect(before, after, handle, buffer, Ok(n), outs),
        received_effect(after, answered, rsp, need_read),
        rsp.handle == handle,
    ensures
        !reads(after, handle.0),
        outs[0].msg matches Message::Indication(IndicationTask::Socket(Indication::Received(ind)))
            && ind.data@.len() <= MAX_READ_LEN,
        need_read,
        reads(answered, handle.0),
{
}

/// The data of the IndReceived that a read passed up, if its first
/// message is one.
pub open spec fn received_data(outs: Seq<Outgoing>) -> Seq<u8> {
    if outs.len() == 0 {
        Seq::<u8>::empty()
    } else {
        match outs[0].msg {
            Message::Indication(IndicationTask::Socket(Indication::Received(ind))) => ind.data@,
            _ => Seq::<u8>::empty(),
        }
    }
}

/// The data passed up by the first `k` reads, in order.
pub open spec fn received_upto(outs: Seq<Seq<Outgoing>>, k: int) -> Seq<u8>
    decreases k,
{
    if k <= 0 {
        Seq::<u8>::empty()
    } else {
        received_upto(outs, k - 1) + received_data(outs[k - 1])
    }
}

/// What the first `k` reads took from the connection, in order: the
/// first `counts[i]` octets of buffer `i`.
pub open spec fn read_upto(buffers: Seq<Seq<u8>>, counts: Seq<usize>, k: int) -> Seq<u8>
    decreases k,
{
    if k <= 0 {
        Seq::<u8>::empty()
    } else {
        read_upto(buffers, counts, k - 1) + buffers[k - 1].subrange(0, counts[k - 1] as int)
    }
}

/// In-order delivery: over a run of reads on one connection, each passed
/// up and answered by the user before the next, every IndReceived names
/// the connection, and the data passed up, taken in order, is exactly what
/// was read from the connection: nothing lost, doubled or reordered.
pub proof fn law_reads_delivered_in_order(
    states: Seq<TaskContext>,
    answered: Seq<TaskContext>,
    handle: ConnHandle,
    buffers: Seq<Seq<u8>>,
    counts: Seq<usize>,
    outs: Seq<Seq<Outgoing>>,
)
    requires
        states.len() == buffers.len() + 1,
        answered.len() == buffers.len(),
        counts.len() == buffers.len(),
        outs.len() == buffers.len(),
        states[0].connections().contains_key(handle.0),
        forall|i: int| 0 <= i < states.len() ==> (#[trigger] states[i]).wf(),
        forall|i: int| 0 <= i < buffers.len() ==> 0 < #[trigger] counts[i] <= buffers[i].len(),
        forall|i: int|
            0 <= i < buffers.len() ==> read_effect(
                #[trigger] states[i],
                answered[i],
                handle,
                buffers[i],
                Ok(counts[i]),
                outs[i],
            ),
        forall|i: int|
            0 <= i < buffers.len() ==> received_effect(
                #[trigger] answered[i],
                states[i + 1],
                RspReceived { handle },
                true,
            ),
    ensures
        forall|i: int|
            0 <= i < buffers.len() ==> (#[trigger] outs[i]).len() == 1 && (outs[i][0].msg matches Message::Indication(
                IndicationTask::Socket(Indication::Received(ind)),
            ) && ind.handle == handle),
        received_upto(outs, buffers.len() as int) == read_upto(buffers, counts, buffers.len() as int),
{
    assert forall|i: int| 0 <= i < buffers.len() implies (#[trigger] outs[i]).len() == 1 && (outs[i][0].msg matches Message::Indication(
        IndicationTask::Socket(Indication::Received(ind)),
    ) && ind.handle == handle) by {
        lemma_connection_stays(states, answered, handle, buffers, counts, outs, i);
        assert(states[i].wf());
        assert(read_effect(states[i], answered[i], handle, buffers[i], Ok(counts[i]), outs[i]));
    }
    lemma_received_upto(states, answered, handle, buffers, counts, outs, buffers.len() as int);
}

/// Along such a run the connection stays open.
proof fn lemma_connection_stays(
    states: Seq<TaskContext>,
    answered: Seq<TaskContext>,
    handle: ConnHandle,
    buffers: Seq<Seq<u8>>,
    counts: Seq<usize>,
    outs: Seq<Seq<Outgoing>>,
    i: int,
)
    requires
        states.len() == buffers.len() + 1,
        answered.len() == buffers.len(),
        counts.len() == buffers.len(),
        outs.len() == buffers.len(),
        states[0].connections().contains_key(handle.0),
        forall|i: int| 0 <= i < buffers.len() ==> 0 < #[trigger] counts[i] <= buffers[i].len(),
        forall|i: int|
            0 <= i < buffers.len() ==> read_effect(
                #[trigger] states[i],
                answered[i],
                handle,
                buffers[i],
                Ok(counts[i]),
                outs[i],
            ),
        forall|i: int|
            0 <= i < buffers.len() ==> received_effect(
                #[trigger] answered[i],
                states[i + 1],
                RspReceived { handle },
                true,
            ),
        0 <= i <= buffers.len(),
    ensures
        states[i].connections().contains_key(handle.0),
    decreases i,
{
    if i > 0 {
        lemma_connection_stays(states, answered, handle, buffers, counts, outs, i - 1);
        assert(read_effect(states[i - 1], answered[i - 1], handle, buffers[i - 1], Ok(counts[i - 1]), outs[i - 1]));
        assert(received_effect(answered[i - 1], states[i], RspReceived { handle }, true));
    }
}

proof fn lemma_received_upto(
    states: Seq<TaskContext>,
    answered: Seq<TaskContext>,
    handle: ConnHandle,
    buffers: Seq<Seq<u8>>,
    counts: Seq<usize>,
    outs: Seq<Seq<Outgoing>>,
    k: int,
)
    requires
        states.len() == buffers.len() + 1,
        answered.len() == buffers.len(),
        counts.len() == buffers.len(),
        outs.len() == buffers.len(),
        forall|i: int| 0 <= i < buffers.len() ==> 0 < #[trigger] counts[i] <= buffers[i].len(),
        forall|i: int|
            0 <= i < buffers.len() ==> read_effect(
                #[trigger] states[i],
                answered[i],
                handle,
                buffers[i],
                Ok(counts[i]),
                outs[i],
            ),
        0 <= k <= buffers.len(),
    ensures
        received_upto(outs, k) == read_upto(buffers, counts, k),
    decreases k,
{
    if k > 0 {
        lemma_received_upto(states, answered, handle, buffers, counts, outs, k - 1);
        assert(read_effect(states[k - 1], answered[k - 1], handle, buffers[k - 1], Ok(counts[k - 1]), outs[k - 1]));
        assert(received_data(outs[k - 1]) == buffers[k - 1].subrange(0, counts[k - 1] as int));
    }
}

/// Every ReqSend on a known connection is either answered at once or
/// queued, never both and never neither; a queued write keeps its context
/// and its requester's channel.
pub proof fn law_send_answered_or_queued(
    before: TaskContext,
    after: TaskContext,
    req_send: ReqSend,
    reply_to: MessageSender,
    written: Option<Result<usize, SocketError>>,
    outs: Seq<Outgoing>,
)
    requires
        before.connections().contains_key(req_send.handle.0),
        send_effect(before, after, req_send, reply_to, written, outs),
    ensures
        ({
            let q0 = before.connections()[req_send.handle.0].pending_writes@;
            let q1 = after.connections()[req_send.handle.0].pending_writes@;
            ||| (outs.len() == 1 && q1 == q0 && outs[0].to.id() == reply_to.id())
            ||| (outs.len() == 0 && q1.len() == q0.len() + 1 && q1.last().context == req_send.context
                && q1.last().reply_to.id() == reply_to.id())
        }),
{
    let h = req_send.handle.0;
    if outs.len() == 0 {
        let q0 = before.connections()[h].pending_writes@;
        let q1 = after.connections()[h].pending_writes@;
        assert(q1.len() == q0.len() + 1);
    }
}

/// What the task does when connection `handle` goes away: it is forgotten,
/// its user is told, every queued write is failed and so is a waiting
/// close; a handle that is not open changes nothing.
pub open spec fn drop_effect(before: TaskContext, after: TaskContext, handle: ConnHandle, outs: Seq<Outgoing>) -> bool {
    let c = before.connections()[handle.0];
    &&& after.listeners() == before.listeners()
    &&& after.next_handle() == before.next_handle()
    &&& after.connections() == before.connections().remove(handle.0)
    &&& if before.connections().contains_key(handle.0) {
        outs == seq![
            Outgoing {
                to: c.ind_to,
                msg: ind_msg(Indication::Dropped(Box::new(IndDropped { handle }))),
            },
        ] + dropped_write_notices(c) + dropped_close_notices(c)
    } else {
        outs.len() == 0
    }
}

/// What the task does with a ReqClose: an unknown handle, or a
/// connection already waiting to close, is answered with BadHandle; a
/// connection with nothing queued is forgotten and closed at once and the
/// close confirmed; otherwise the close waits for the queued writes (no
/// answer yet). `close_now` says whether the connection is to be closed.
pub open spec fn close_effect(
    before: TaskContext,
    after: TaskContext,
    req_close: ReqClose,
    reply_to: MessageSender,
    outs: Seq<Outgoing>,
    close_now: bool,
) -> bool {
    let h = req_close.handle.0;
    let c = before.connections()[h];
    if !before.connections().contains_key(h) || c.closing is Some {
        &&& after.connections() == before.connections()
        &&& !close_now
        &&& outs.len() == 1
        &&& outs[0].to.id() == reply_to.id()
        &&& outs[0].msg == close_cfm_msg(req_close.handle, req_close.context, Err(SocketError::BadHandle))
    } else if c.pending_writes@.len() == 0 {
        &&& after.connections() == before.connections().remove(h)
        &&& close_now
        &&& outs.len() == 1
        &&& outs[0].to.id() == reply_to.id()
        &&& outs[0].msg == close_cfm_msg(req_close.handle, req_close.context, Ok(()))
    } else {
        let c2 = after.connections()[h];
        &&& after.connections() == before.connections().insert(h, c2)
        &&& c2.handle == c.handle
        &&& c2.ind_to == c.ind_to
        &&& c2.outstanding == c.outstanding
        &&& c2.pending_writes@ == c.pending_writes@
        &&& c2.closing matches Some(pc) && pc.context == req_close.context && pc.reply_to.id()
            == reply_to.id()
        &&& !close_now
        &&& outs.len() == 0
    }
}

/// What the task does with the outcome of writing the rest of the oldest
/// queued write on `handle` (see `pending_write_done`). `more` says whether
/// to go on with the next queued write, `closed` whether the connection is
/// to be closed now.
pub open spec fn write_done_effect(
    before: TaskContext,
    after: TaskContext,
    handle: ConnHandle,
    written: Result<usize, SocketError>,
    outs: Seq<Outgoing>,
    more: bool,
    closed: bool,
) -> bool {
    let h = handle.0;
    let c = before.connections()[h];
    let pw = c.pending_writes@[0];
    let to_send = pw.data@.len() - pw.sent;
    let rest = c.pending_writes@.drop_first();
    let c2 = after.connections()[h];
    match written {
        Ok(n) if n < to_send => {
            &&& outs.len() == 0
            &&& !more
            &&& !closed
            &&& after.connections() == before.connections().insert(h, c2)
            &&& c2 == ConnectedSocket {
                pending_writes: c2.pending_writes,
                ..c
            }
            &&& c2.pending_writes@ == c.pending_writes@.update(0, PendingWrite { sent: (pw.sent + n) as usize, ..pw })
        },
        _ => {
            let result: Result<usize, SocketError> = match written {
                Ok(_) => Ok(pw.data@.len() as usize),
                Err(e) => Err(e),
            };
            let confirm = Outgoing { to: pw.reply_to, msg: send_cfm_msg(c.handle, pw.context, result) };
            &&& outs.len() >= 1
            &&& outs[0] == confirm
            &&& if rest.len() == 0 && c.closing is Some {
                let pc = c.closing->0;
                let close_result: Result<(), SocketError> = match written {
                    Ok(_) => Ok(()),
                    Err(e) => Err(e),
                };
                &&& after.connections() == before.connections().remove(h)
                &&& closed
                &&& !more
                &&& outs == seq![confirm, Outgoing { to: pc.reply_to, msg: close_cfm_msg(c.handle, pc.context, close_result) }]
            } else {
                &&& after.connections() == before.connections().insert(h, c2)
                &&& c2 == ConnectedSocket {
                    pending_writes: c2.pending_writes,
                    ..c
                }
                &&& c2.pending_writes@ == rest
                &&& !closed
                &&& more == (written is Ok)
                &&& outs.len() == 1
            }
        },
    }
}

/// A queued write is confirmed exactly once. A short write confirms
/// nothing and leaves the write at the head of the queue; a write that
/// completes or fails sends its requester one CfmSend with its context, and
/// takes it off the queue (with the whole connection, when it was the last
/// write before a waiting close, which is then confirmed to its requester
/// with its context). Nothing else is sent. A waiting close is confirmed
/// only once the write done was the only one queued: while other writes
/// remain, the connection stays open and the close keeps waiting, so every
/// write queued before a close is confirmed before the close is.
pub proof fn law_queued_write_confirmed_once(
    before: TaskContext,
    after: TaskContext,
    handle: ConnHandle,
    written: Result<usize, SocketError>,
    outs: Seq<Outgoing>,
    more: bool,
    closed: bool,
)
    requires
        before.connections().contains_key(handle.0),
        before.connections()[handle.0].pending_writes@.len() > 0,
        write_done_effect(before, after, handle, written, outs, more, closed),
    ensures
        ({
            let c = before.connections()[handle.0];
            let pw = c.pending_writes@[0];
            let short = written matches Ok(n) && n < pw.data@.len() - pw.sent;
            &&& short ==> {
                &&& outs.len() == 0
                &&& after.connections()[handle.0].pending_writes@[0].context == pw.context
                &&& after.connections()[handle.0].pending_writes@[0].reply_to == pw.reply_to
                &&& after.connections()[handle.0].pending_writes@.len() == c.pending_writes@.len()
            }
            &&& !short ==> {
                &&& outs[0].to == pw.reply_to
                &&& outs[0].msg matches Message::Confirmation(ConfirmationTask::Socket(Confirmation::Send(x)))
                &&& x.context == pw.context
                &&& x.handle == c.handle
                &&& (after.connections().contains_key(handle.0) ==> after.connections()[handle.0].pending_writes@
                    == c.pending_writes@.drop_first())
                &&& c.pending_writes@.len() > 1 ==> {
                    &&& !closed
                    &&& after.connections().contains_key(handle.0)
                    &&& after.connections()[handle.0].closing == c.closing
                }
                &&& if closed {
                    &&& c.closing is Some
                    &&& c.pending_writes@.len() == 1
                    &&& !after.connections().contains_key(handle.0)
                    &&& outs.len() == 2
                    &&& outs[1].to == c.closing->0.reply_to
                    &&& outs[1].msg matches Message::Confirmation(ConfirmationTask::Socket(Confirmation::Close(y)))
                    &&& y.context == c.closing->0.context
                } else {
                    outs.len() == 1
                }
            }
        }),
{
}

/// When a connection goes away, every write queued on it is confirmed
/// exactly once, with Dropped, to its own requester and with its own
/// context, in queue order; a waiting close is confirmed once too, and the
/// user is told once. Nothing else is sent.
pub proof fn law_dropped_confirms_each_write(
    before: TaskContext,
    after: TaskContext,
    handle: ConnHandle,
    outs: Seq<Outgoing>,
)
    requires
        before.connections().contains_key(handle.0),
        drop_effect(before, after, handle, outs),
    ensures
        ({
            let c = before.connections()[handle.0];
            let q = c.pending_writes@;
            &&& outs.len() == 1 + q.len() + (if c.closing is Some { 1int } else { 0int })
            &&& outs[0].to == c.ind_to
            &&& forall|i: int|
                0 <= i < q.len() ==> #[trigger] outs[1 + i] == Outgoing {
                    to: q[i].reply_to,
                    msg: send_cfm_msg(c.handle, q[i].context, Err(SocketError::Dropped)),
                }
            &&& c.closing matches Some(pc) ==> outs.last() == Outgoing {
                to: pc.reply_to,
                msg: close_cfm_msg(c.handle, pc.context, Err(SocketError::Dropped)),
            }
        }),
{
    let c = before.connections()[handle.0];
    let q = c.pending_writes@;
    assert forall|i: int| 0 <= i < q.len() implies #[trigger] outs[1 + i] == Outgoing {
        to: q[i].reply_to,
        msg: send_cfm_msg(c.handle, q[i].context, Err(SocketError::Dropped)),
    } by {
        assert(dropped_write_notices(c)[i] == dropped_write_notice(c.handle, q[i]));
    }
}

/// How the task state changes when the user answers an IndReceived.
pub open spec fn received_effect(
    before: TaskContext,
    after: TaskContext,
    rsp: RspReceived,
    need_read: bool,
) -> bool {
    let h = rsp.handle.0;
    &&& after.listeners() == before.listeners()
    &&& after.next_handle() == before.next_handle()
    &&& need_read == before.connections().contains_key(h)
    &&& if need_read {
        after.connections() == before.connections().insert(
            h,
            ConnectedSocket { outstanding: false, ..before.connections()[h] },
        )
    } else {
        after.connections() == before.connections()
    }
}

/// A write was queued at the back of a connection's queue, `sent` octets
/// of it already written.
pub open spec fn queued_write(
    before: ConnectedSocket,
    after: ConnectedSocket,
    req_send: ReqSend,
    reply_to: MessageSender,
    sent: usize,
) -> bool {
    &&& after.handle == before.handle
    &&& after.ind_to == before.ind_to
    &&& after.outstanding == before.outstanding
    &&& after.closing == before.closing
    &&& after.pending_writes@.len() == before.pending_writes@.len() + 1
    &&& after.pending_writes@.drop_last() =~= before.pending_writes@
    &&& ({
        let pw = after.pending_writes@.last();
        &&& pw.context == req_send.context
        &&& pw.sent == sent
        &&& pw.data@ == req_send.data@
        &&& pw.reply_to.id() == reply_to.id()
    })
}

} // verus!
