//! # http - An HTTP parsing/rendering task
//!
//! The http task turns data arriving on sockets (through the `socket` task)
//! into HTTP requests that it passes up, and renders the HTTP responses
//! that the layer above asks for. It accepts any method on any URL.
//!
//! A `ReqBind` binds a socket through the socket task. When a connection
//! arrives on it, a connection record is made; data is fed to a request
//! parser, and once a whole request has been parsed an `IndConnected` is
//! sent up. The user answers with a `ReqResponseStart` (the status line and
//! headers) and zero or more `ReqResponseBody`. When the declared length has
//! been sent, or an empty body is sent for a response of unbounded length,
//! the connection is closed and an `IndClosed` is sent.
//!
//! Parsing requests and rendering the error page are done outside the
//! library; `TaskContext` takes their results.

use std::collections::HashMap;

use vstd::prelude::*;

use crate::address::SocketAddr;
use crate::{NonRequestSendable, RequestSendable};
use crate::socket;
use crate::multimap::{
    connection_keys, connection_values, connections_get_alt, connections_get_mut, connections_insert,
    connections_new, connections_remove, ConnectionTable, ServerTable, connections_remove_alt, server_keys, server_values,
    servers_get, servers_get_alt, servers_insert, servers_new, servers_remove,
};
use crate::text;
use crate::{
    ConfirmationTask, Context, IndicationTask, Message, MessageSender, Outgoing, ReplyContext,
    RequestTask, ResponseTask,
};

verus! {

// ****************************************************************************
// Public Messages
// ****************************************************************************

/// Requests that can be sent to the http task.
#[derive(Debug)]
pub enum Request {
    /// A bind request - start an HTTP server on a given port
    Bind(Box<ReqBind>),
    /// Send the headers for an HTTP response
    ResponseStart(Box<ReqResponseStart>),
    /// Send some body content for an HTTP response
    ResponseBody(Box<ReqResponseBody>),
}

/// Confirmations that the http task sends back.
#[derive(Debug)]
pub enum Confirmation {
    /// Whether the ReqBind was successful
    Bind(Box<CfmBind>),
    /// Whether the ReqResponseStart was successful
    ResponseStart(Box<CfmResponseStart>),
    /// Confirms a ReqResponseBody has been sent
    ResponseBody(Box<CfmResponseBody>),
}

/// Indications that come out of the http task.
#[derive(Debug)]
pub enum Indication {
    /// A new HTTP request has been received
    Connected(Box<IndConnected>),
    /// An HTTP connection has been closed
    Closed(Box<IndClosed>),
}

/// A bind request - start an HTTP server on a given port.
#[derive(Debug)]
pub struct ReqBind {
    /// Which address to bind.
    pub addr: SocketAddr,
    /// Reflected back in the cfm
    pub context: Context,
}

/// Send the status line and headers of an HTTP response. `Server`,
/// `Content-Length` and `Content-Type` are added unless `headers` already
/// names them.
///
/// Send zero or more ReqResponseBody to fulfil the length given. If the
/// length is unbounded, send an empty ReqResponseBody to finish, so that the
/// connection is closed.
#[derive(Debug)]
pub struct ReqResponseStart {
    /// Which HTTP connection to start a response on
    pub handle: ConnHandle,
    /// Reflected back in the cfm
    pub context: Context,
    /// Status code
    pub status: HttpResponseStatus,
    /// Content-Type for the response, e.g. "text/html"
    pub content_type: String,
    /// Length for the response - None means unbounded and 0 means no body.
    pub length: Option<usize>,
    /// Any other headers, as (name, value) pairs in the order to send them.
    pub headers: Vec<(String, String)>,
}

/// Send some body content for an HTTP response. Must be preceded by a
/// ReqResponseStart.
#[derive(Debug)]
pub struct ReqResponseBody {
    /// Which HTTP connection to send some response body on
    pub handle: ConnHandle,
    /// Reflected back in the cfm
    pub context: Context,
    /// Some data
    pub data: Vec<u8>,
}

/// Whether the ReqBind was successful
#[derive(Debug)]
pub struct CfmBind {
    pub context: Context,
    pub result: Result<ServerHandle, Error>,
}

/// Whether the ReqResponseStart was successful
#[derive(Debug)]
pub struct CfmResponseStart {
    pub handle: ConnHandle,
    pub context: Context,
    pub result: Result<(), Error>,
}

/// Confirms a ReqResponseBody has been sent
#[derive(Debug)]
pub struct CfmResponseBody {
    pub handle: ConnHandle,
    pub context: Context,
    pub result: Result<(), Error>,
}

/// A new HTTP request has been received
#[derive(Debug)]
pub struct IndConnected {
    pub server_handle: ServerHandle,
    pub connection_handle: ConnHandle,
    pub url: String,
    pub method: String,
    pub headers: Vec<(String, String)>,
}

/// An HTTP connection has been closed
#[derive(Debug)]
pub struct IndClosed {
    pub handle: ConnHandle,
}

impl RequestSendable for ReqBind {
    open spec fn task(self) -> RequestTask {
        RequestTask::Http(Request::Bind(Box::new(self)))
    }

    fn wrap(self, reply_to: &MessageSender) -> (m: Message) {
        Message::Request(reply_to.clone(), RequestTask::Http(Request::Bind(Box::new(self))))
    }
}

impl RequestSendable for ReqResponseStart {
    open spec fn task(self) -> RequestTask {
        RequestTask::Http(Request::ResponseStart(Box::new(self)))
    }

    fn wrap(self, reply_to: &MessageSender) -> (m: Message) {
        let to = reply_to.clone();
        let task = RequestTask::Http(Request::ResponseStart(Box::new(self)));
        assert(task == self.task());
        Message::Request(to, task)
    }
}

impl RequestSendable for ReqResponseBody {
    open spec fn task(self) -> RequestTask {
        RequestTask::Http(Request::ResponseBody(Box::new(self)))
    }

    fn wrap(self, reply_to: &MessageSender) -> (m: Message) {
        Message::Request(reply_to.clone(), RequestTask::Http(Request::ResponseBody(Box::new(self))))
    }
}

impl NonRequestSendable for CfmBind {
    open spec fn wrapped(self) -> Message {
        Message::Confirmation(ConfirmationTask::Http(Confirmation::Bind(Box::new(self))))
    }

    fn wrap(self) -> (m: Message) {
        Message::Confirmation(ConfirmationTask::Http(Confirmation::Bind(Box::new(self))))
    }
}

impl NonRequestSendable for CfmResponseStart {
    open spec fn wrapped(self) -> Message {
        Message::Confirmation(ConfirmationTask::Http(Confirmation::ResponseStart(Box::new(self))))
    }

    fn wrap(self) -> (m: Message) {
        Message::Confirmation(ConfirmationTask::Http(Confirmation::ResponseStart(Box::new(self))))
    }
}

impl NonRequestSendable for CfmResponseBody {
    open spec fn wrapped(self) -> Message {
        Message::Confirmation(ConfirmationTask::Http(Confirmation::ResponseBody(Box::new(self))))
    }

    fn wrap(self) -> (m: Message) {
        Message::Confirmation(ConfirmationTask::Http(Confirmation::ResponseBody(Box::new(self))))
    }
}

impl NonRequestSendable for IndConnected {
    open spec fn wrapped(self) -> Message {
        Message::Indication(IndicationTask::Http(Indication::Connected(Box::new(self))))
    }

    fn wrap(self) -> (m: Message) {
        Message::Indication(IndicationTask::Http(Indication::Connected(Box::new(self))))
    }
}

impl NonRequestSendable for IndClosed {
    open spec fn wrapped(self) -> Message {
        Message::Indication(IndicationTask::Http(Indication::Closed(Box::new(self))))
    }

    fn wrap(self) -> (m: Message) {
        Message::Indication(IndicationTask::Http(Indication::Closed(Box::new(self))))
    }
}

// ****************************************************************************
// Public Types
// ****************************************************************************

/// Users of the http task implement this trait to have incoming
/// confirmations and indications routed to one handler per message. Each
/// handler's effect on the user is described by the spec function named
/// after it, which the implementation defines.
pub trait User: Sized {
    /// Whether `after` is what handling Bind confirmation `msg` makes of
    /// `self`.
    spec fn handled_cfm_bind(self, after: Self, msg: CfmBind) -> bool;

    /// Whether `after` is what handling ResponseStart confirmation `msg`
    /// makes of `self`.
    spec fn handled_cfm_response_start(self, after: Self, msg: CfmResponseStart) -> bool;

    /// Whether `after` is what handling ResponseBody confirmation `msg`
    /// makes of `self`.
    spec fn handled_cfm_response_body(self, after: Self, msg: CfmResponseBody) -> bool;

    /// Whether `after` is what handling Connected indication `msg` makes of
    /// `self`.
    spec fn handled_ind_connected(self, after: Self, msg: IndConnected) -> bool;

    /// Whether `after` is what handling Closed indication `msg` makes of
    /// `self`.
    spec fn handled_ind_closed(self, after: Self, msg: IndClosed) -> bool;

    /// Unpacks an Http Confirmation and routes it to its handler.
    fn handle_http_cfm(&mut self, msg: &Confirmation)
        ensures
            match *msg {
                Confirmation::Bind(x) => (*old(self)).handled_cfm_bind(*final(self), *x),
                Confirmation::ResponseStart(x) => (*old(self)).handled_cfm_response_start(*final(self), *x),
                Confirmation::ResponseBody(x) => (*old(self)).handled_cfm_response_body(*final(self), *x),
            },
    {
        match msg {
            Confirmation::Bind(x) => self.handle_http_cfm_bind(x),
            Confirmation::ResponseStart(x) => self.handle_http_cfm_response_start(x),
            Confirmation::ResponseBody(x) => self.handle_http_cfm_response_body(x),
        }
    }

    /// Called when a Bind confirmation is received.
    fn handle_http_cfm_bind(&mut self, msg: &CfmBind)
        ensures
            (*old(self)).handled_cfm_bind(*final(self), *msg),
    ;

    /// Called when a ResponseStart confirmation is received.
    fn handle_http_cfm_response_start(&mut self, msg: &CfmResponseStart)
        ensures
            (*old(self)).handled_cfm_response_start(*final(self), *msg),
    ;

    /// Called when a ResponseBody confirmation is received.
    fn handle_http_cfm_response_body(&mut self, msg: &CfmResponseBody)
        ensures
            (*old(self)).handled_cfm_response_body(*final(self), *msg),
    ;

    /// Unpacks an Http Indication and routes it to its handler.
    fn handle_http_ind(&mut self, msg: &Indication)
        ensures
            match *msg {
                Indication::Connected(x) => (*old(self)).handled_ind_connected(*final(self), *x),
                Indication::Closed(x) => (*old(self)).handled_ind_closed(*final(self), *x),
            },
    {
        match msg {
            Indication::Connected(x) => self.handle_http_ind_connected(x),
            Indication::Closed(x) => self.handle_http_ind_closed(x),
        }
    }

    /// Handles a Connected indication.
    fn handle_http_ind_connected(&mut self, msg: &IndConnected)
        ensures
            (*old(self)).handled_ind_connected(*final(self), *msg),
    ;

    /// Handles a connection Closed indication.
    fn handle_http_ind_closed(&mut self, msg: &IndClosed)
        ensures
            (*old(self)).handled_ind_closed(*final(self), *msg),
    ;
}

/// A new one of these is allocated for every new HTTP server
pub type ServerHandle = Context;

/// A new one of these is allocated for every new HTTP connection
pub type ConnHandle = Context;

/// All possible http task errors
#[derive(Debug, Copy, Clone)]
pub enum Error {
    /// Used when no better error has been defined yet
    Unknown,
    /// Used if a ReqResponseXXX is sent on an invalid (perhaps recently
    /// closed) ConnHandle
    BadHandle,
    /// The socket task reported an error
    SocketError(socket::SocketError),
}

/// The status of an HTTP response: its code and reason phrase.
#[derive(Debug, Clone)]
pub struct HttpResponseStatus {
    pub code: u16,
    pub reason: String,
}

/// What the request parser made of the data seen so far on a connection.
#[derive(Debug)]
pub enum ParseOutcome {
    /// A whole request has been parsed
    Complete { url: String, method: String, headers: Vec<(String, String)> },
    /// More data is needed
    InProgress,
    /// The data is not an HTTP request
    Invalid,
}

// ****************************************************************************
// Task state
// ****************************************************************************

/// What a pending socket confirmation is to be turned into.
#[derive(Debug, PartialEq, Eq, Structural)]
pub enum CfmType {
    /// A CfmResponseStart
    Start,
    /// A CfmResponseBody
    Body,
    /// Nothing: the close was ours
    Close,
}

/// Recorded for every request to the socket task whose confirmation must
/// be answered upwards.
pub struct PendingCfm {
    pub reply_to: MessageSender,
    pub context: Context,
    pub cfm_type: CfmType,
    pub handle: ConnHandle,
    /// If true, close the connection when this cfm comes in
    pub close_after: bool,
}

/// One per ReqBind.
pub struct Server {
    /// Supplied in a `socket::CfmBind`
    pub listen_handle: Option<socket::ListenHandle>,
    /// To whom we need to acknowledge the bind, until we have
    pub reply_ctx: Option<ReplyContext>,
    /// The handle by which the upper layer refers to us
    pub our_handle: ServerHandle,
    /// Who to tell about the new connections we get
    pub ind_to: MessageSender,
}

/// One per socket connection on a bound server. The request parser that
/// goes with it is kept outside the library.
pub struct Connection {
    /// The handle by which the upper layer refers to us
    pub our_handle: ConnHandle,
    /// The server we were spawned for
    pub server_handle: ServerHandle,
    /// The socket handle for this specific connection
    pub socket_handle: socket::ConnHandle,
    /// How much response body is still to be sent: None while unbounded.
    pub body_length: Option<usize>,
    /// Whether the server's user has been told of this connection
    pub announced: bool,
}

/// One instance per task. Stores everything the task decides with.
pub struct TaskContext {
    /// Who we send socket messages to
    socket: MessageSender,
    /// How the socket task sends messages to us
    reply_to: MessageSender,
    /// Our servers, by server handle and by listen handle once bound
    servers: ServerTable,
    /// Our connections, by connection handle and by socket handle
    connections: ConnectionTable,
    /// The next context we use for downward messages
    next_ctx: Context,
    /// Socket confirmations still to be answered, by the context we sent
    pending: HashMap<usize, PendingCfm>,
    /// The rendered "400 Bad Request" page, if it could be rendered
    error_page: Option<Vec<u8>>,
}

// ****************************************************************************
// Specifications
// ****************************************************************************

/// An http confirmation, wrapped.
pub open spec fn cfm_msg(c: Confirmation) -> Message {
    Message::Confirmation(ConfirmationTask::Http(c))
}

/// An http indication, wrapped.
pub open spec fn ind_msg(i: Indication) -> Message {
    Message::Indication(IndicationTask::Http(i))
}

/// A socket error as an http result.
pub open spec fn mapped<T>(result: Result<T, socket::SocketError>) -> Result<(), Error> {
    match result {
        Ok(_) => Ok(()),
        Err(e) => Err(Error::SocketError(e)),
    }
}

/// The status line text: the code in decimal, a space, the reason.
pub open spec fn status_text(status: HttpResponseStatus) -> Seq<char> {
    text::decimal(status.code as nat) + seq![' '] + status.reason@
}

/// Whether a header list names `name` (ASCII letters compared without
/// regard to case, as header names are).
pub open spec fn has_header(headers: Seq<(String, String)>, name: Seq<char>) -> bool {
    exists|i: int| 0 <= i < headers.len() && text::same_ignoring_ascii_case(#[trigger] headers[i].0@, name)
}

/// `name: value` and a line end.
pub open spec fn header_line(name: Seq<char>, value: Seq<char>) -> Seq<char> {
    name + ": "@ + value + "\r\n"@
}

/// The lines for a header list, in order.
pub open spec fn header_lines(headers: Seq<(String, String)>) -> Seq<char>
    decreases headers.len(),
{
    if headers.len() == 0 {
        Seq::<char>::empty()
    } else {
        header_lines(headers.drop_last()) + header_line(headers.last().0@, headers.last().1@)
    }
}

/// The head of an HTTP response: the status line, `Server`,
/// `Content-Length` (when the length is known) and `Content-Type` unless
/// the given headers name them, the given headers, and a blank line.
pub open spec fn rendered_response(
    status: HttpResponseStatus,
    content_type: Seq<char>,
    length: Option<usize>,
    headers: Seq<(String, String)>,
) -> Seq<char> {
    "HTTP/1.1 "@ + status_text(status) + "\r\n"@ + (if !has_header(headers, "Server"@) {
        "Server: grease/http\r\n"@
    } else {
        Seq::<char>::empty()
    }) + (if !has_header(headers, "Content-Length"@) && length is Some {
        "Content-Length: "@ + text::decimal(length->0 as nat) + "\r\n"@
    } else {
        Seq::<char>::empty()
    }) + (if !has_header(headers, "Content-Type"@) {
        "Content-Type: "@ + content_type + "\r\n"@
    } else {
        Seq::<char>::empty()
    }) + header_lines(headers) + "\r\n"@
}

impl TaskContext {
    /// The identity of the socket task's channel.
    pub closed spec fn socket_id(&self) -> int {
        self.socket.id()
    }

    /// The identity of the channel that reaches the task.
    pub closed spec fn own_id(&self) -> int {
        self.reply_to.id()
    }

    /// The servers' main table.
    pub closed spec fn servers(&self) -> Map<usize, (Option<usize>, Server)> {
        server_values(self.servers)
    }

    /// The servers' table from listen handle to server handle.
    pub closed spec fn server_index(&self) -> Map<Option<usize>, usize> {
        server_keys(self.servers)
    }

    /// The connections' main table.
    pub closed spec fn connections(&self) -> Map<usize, (usize, Connection)> {
        connection_values(self.connections)
    }

    /// The connections' table from socket handle to connection handle.
    pub closed spec fn connection_index(&self) -> Map<usize, usize> {
        connection_keys(self.connections)
    }

    /// The next context for a downward message.
    pub closed spec fn next_ctx(&self) -> Context {
        self.next_ctx
    }

    /// The socket confirmations still to be answered.
    pub closed spec fn pending(&self) -> Map<usize, PendingCfm> {
        self.pending@
    }

    /// The rendered error page.
    pub closed spec fn error_page(&self) -> Option<Seq<u8>> {
        match self.error_page {
            Some(p) => Some(p@),
            None => None,
        }
    }

    /// `o` asks the socket task to send `data` on `handle`, under `ctx`,
    /// with the confirmation to come back to the http task.
    pub open spec fn sends_data(&self, o: Outgoing, handle: socket::ConnHandle, ctx: Context, data: Seq<u8>) -> bool {
        &&& o.to.id() == self.socket_id()
        &&& o.msg matches Message::Request(s, RequestTask::Socket(socket::Request::Send(r)))
        &&& s.id() == self.own_id()
        &&& r.handle == handle
        &&& r.context == ctx
        &&& r.data@ == data
    }

    /// `o` asks the socket task to close `handle`, under `ctx`, with the
    /// confirmation to come back to the http task.
    pub open spec fn sends_close(&self, o: Outgoing, handle: socket::ConnHandle, ctx: Context) -> bool {
        &&& o.to.id() == self.socket_id()
        &&& o.msg matches Message::Request(s, RequestTask::Socket(socket::Request::Close(r)))
        &&& s.id() == self.own_id()
        &&& *r == socket::ReqClose { handle, context: ctx }
    }

    /// The parts of the state that no step changes.
    pub open spec fn same_channels(&self, other: &TaskContext) -> bool {
        &&& self.socket_id() == other.socket_id()
        &&& self.own_id() == other.own_id()
        &&& self.error_page() == other.error_page()
    }

    /// The task's invariant: every server sits under its own handle, with
    /// its listen handle as its second key; every connection sits under its
    /// own handle, with its socket handle as its second key; every entry of
    /// either second-key table leads to a record with that second key; and
    /// every handle in use was given out before `next_ctx`.
    pub open spec fn wf(&self) -> bool {
        servers_ok(*self) && connections_ok(*self)
    }

    /// Whether a context may still be given out.
    pub open spec fn can_allocate(&self) -> bool {
        self.next_ctx().0 < usize::MAX
    }

    /// Whether data arriving on socket connection `h` is to be parsed: the
    /// socket handle leads to a connection, and that to its server.
    pub open spec fn routes(&self, h: usize) -> bool {
        &&& self.connection_index().contains_key(h)
        &&& self.connections().contains_key(self.connection_index()[h])
        &&& self.servers().contains_key(
            self.connections()[self.connection_index()[h]].1.server_handle.0,
        )
    }
}

/// Whether a header list names `name`, comparing without regard to case.
fn find_header(headers: &Vec<(String, String)>, name: &str) -> (r: bool)
    ensures
        r == has_header(headers@, name@),
{
    let mut i: usize = 0;
    while i < headers.len()
        invariant
            i <= headers@.len(),
            forall|j: int| 0 <= j < i ==> !text::same_ignoring_ascii_case(#[trigger] headers@[j].0@, name@),
        decreases headers@.len() - i,
    {
        if text::eq_ignore_ascii_case(headers[i].0.as_str(), name) {
            return true;
        }
        i = i + 1;
    }
    false
}

/// A socket result as an http result.
pub fn map_result<T>(result: &Result<T, socket::SocketError>) -> (r: Result<(), Error>)
    ensures
        r == mapped(*result),
{
    match result {
        Ok(_) => Ok(()),
        Err(e) => Err(Error::SocketError(*e)),
    }
}

/// Renders the head of an HTTP response (see `rendered_response`).
pub fn render_response(
    status: &HttpResponseStatus,
    content_type: &str,
    length: Option<usize>,
    headers: &Vec<(String, String)>,
) -> (s: String)
    ensures
        s@ == rendered_response(*status, content_type@, length, headers@),
{
    let mut s = String::new();
    text::push_str(&mut s, "HTTP/1.1 ");
    text::push_decimal(&mut s, status.code as usize);
    text::push_str(&mut s, " ");
    proof {
        reveal_strlit(" ");
    }
    text::push_str(&mut s, status.reason.as_str());
    text::push_str(&mut s, "\r\n");
    let ghost head = s@;
    assert(head =~= "HTTP/1.1 "@ + status_text(*status) + "\r\n"@);
    if !find_header(headers, "Server") {
        text::push_str(&mut s, "Server: grease/http\r\n");
    }
    let ghost with_server = s@;
    if !find_header(headers, "Content-Length") {
        if let Some(l) = length {
            text::push_str(&mut s, "Content-Length: ");
            text::push_decimal(&mut s, l);
            text::push_str(&mut s, "\r\n");
        }
    }
    let ghost with_length = s@;
    if !find_header(headers, "Content-Type") {
        text::push_str(&mut s, "Content-Type: ");
        text::push_str(&mut s, content_type);
        text::push_str(&mut s, "\r\n");
    }
    let ghost with_type = s@;
    let mut i: usize = 0;
    while i < headers.len()
        invariant
            i <= headers@.len(),
            s@ == with_type + header_lines(headers@.subrange(0, i as int)),
        decreases headers@.len() - i,
    {
        let ghost before = s@;
        text::push_str(&mut s, headers[i].0.as_str());
        text::push_str(&mut s, ": ");
        text::push_str(&mut s, headers[i].1.as_str());
        text::push_str(&mut s, "\r\n");
        proof {
            let sub = headers@.subrange(0, i + 1);
            assert(sub.drop_last() =~= headers@.subrange(0, i as int));
            assert(sub.last() == headers@[i as int]);
        }
        i = i + 1;
    }
    assert(headers@.subrange(0, headers@.len() as int) =~= headers@);
    text::push_str(&mut s, "\r\n");
    s
}

// ****************************************************************************
// What each step does
// ****************************************************************************

/// The rest of the task is left as it was.
pub open spec fn keeps_servers(before: TaskContext, after: TaskContext) -> bool {
    &&& after.servers() == before.servers()
    &&& after.server_index() == before.server_index()
}

/// The connection tables are left as they were.
pub open spec fn keeps_connections(before: TaskContext, after: TaskContext) -> bool {
    &&& after.connections() == before.connections()
    &&& after.connection_index() == before.connection_index()
}

/// The connection under `k1` has been forgotten, as `MultiMap::remove`
/// does it.
pub open spec fn removed(before: TaskContext, after: TaskContext, k1: usize) -> bool {
    if before.connections().contains_key(k1) {
        &&& after.connections() == before.connections().remove(k1)
        &&& after.connection_index() == before.connection_index().remove(
            before.connections()[k1].0,
        )
    } else {
        keeps_connections(before, after)
    }
}

/// The connection found by socket handle `k2` has been forgotten, as
/// `MultiMap::remove_alt` does it.
pub open spec fn removed_alt(before: TaskContext, after: TaskContext, k2: usize) -> bool {
    if before.connection_index().contains_key(k2) {
        let k1 = before.connection_index()[k2];
        &&& after.connection_index() == before.connection_index().remove(k2)
        &&& if before.connections().contains_key(k1) {
            after.connections() == before.connections().remove(k1)
        } else {
            after.connections() == before.connections()
        }
    } else {
        keeps_connections(before, after)
    }
}

/// One context has been used up for a downward message.
pub open spec fn took_ctx(before: TaskContext, after: TaskContext) -> bool {
    after.next_ctx().0 == crate::next_value(before.next_ctx().0)
}

/// `o` tells the socket task that the data of an IndReceived on `handle`
/// has been dealt with.
pub open spec fn answers_received(t: TaskContext, o: Outgoing, handle: socket::ConnHandle) -> bool {
    &&& o.to.id() == t.socket_id()
    &&& o.msg == Message::Response(
        ResponseTask::Socket(socket::Response::Received(Box::new(socket::RspReceived { handle }))),
    )
}

/// What the task does with a ReqBind: asks the socket task to bind, under
/// a new server handle, and records the server until the socket task
/// answers.
pub open spec fn bind_effect(
    before: TaskContext,
    after: TaskContext,
    req_bind: ReqBind,
    reply_to: MessageSender,
    outs: Seq<Outgoing>,
) -> bool {
    let h = before.next_ctx();
    let s = after.servers()[h.0].1;
    &&& took_ctx(before, after)
    &&& after.servers() == before.servers().insert(h.0, (None, s))
    &&& after.server_index() == before.server_index().insert(None, h.0)
    &&& s.listen_handle is None
    &&& s.our_handle == h
    &&& s.ind_to.id() == reply_to.id()
    &&& s.reply_ctx matches Some(rc) && rc.context == req_bind.context && rc.reply_to.id()
        == reply_to.id()
    &&& keeps_connections(before, after)
    &&& after.pending() == before.pending()
    &&& outs.len() == 1
    &&& outs[0].to.id() == before.socket_id()
    &&& outs[0].msg matches Message::Request(m, RequestTask::Socket(socket::Request::Bind(r)))
        && m.id() == before.own_id() && *r == socket::ReqBind { addr: req_bind.addr, context: h }
}

/// What the task does with a ReqResponseStart: renders the status line and
/// headers and asks the socket task to send them, recording the declared
/// length against the connection; the CfmResponseStart waits for the socket
/// task's CfmSend. An unknown handle is answered with BadHandle at once.
pub open spec fn response_start_effect(
    before: TaskContext,
    after: TaskContext,
    req_start: ReqResponseStart,
    reply_to: MessageSender,
    outs: Seq<Outgoing>,
) -> bool {
    let h = req_start.handle.0;
    &&& keeps_servers(before, after)
    &&& after.connection_index() == before.connection_index()
    &&& if !before.connections().contains_key(h) {
        &&& after.connections() == before.connections()
        &&& after.pending() == before.pending()
        &&& after.next_ctx() == before.next_ctx()
        &&& outs.len() == 1
        &&& outs[0].to.id() == reply_to.id()
        &&& outs[0].msg == cfm_msg(
            Confirmation::ResponseStart(
                Box::new(
                    CfmResponseStart {
                        context: req_start.context,
                        handle: req_start.handle,
                        result: Err(Error::BadHandle),
                    },
                ),
            ),
        )
    } else {
        let (k2, c) = before.connections()[h];
        let ctx = before.next_ctx();
        let p = after.pending()[ctx.0];
        &&& took_ctx(before, after)
        &&& after.connections() == before.connections().insert(
            h,
            (k2, Connection { body_length: req_start.length, ..c }),
        )
        &&& after.pending() == before.pending().insert(ctx.0, p)
        &&& p.handle == req_start.handle
        &&& p.context == req_start.context
        &&& p.reply_to.id() == reply_to.id()
        &&& p.cfm_type == CfmType::Start
        &&& p.close_after == (req_start.length == Some(0usize))
        &&& outs.len() == 1
        &&& before.sends_data(
            outs[0],
            c.socket_handle,
            ctx,
            vstd::utf8::encode_utf8(
                rendered_response(
                    req_start.status,
                    req_start.content_type@,
                    req_start.length,
                    req_start.headers@,
                ),
            ),
        )
    }
}

/// What a body of `n` octets does to the length still to be sent: `None`
/// if it is refused (nothing more may be sent, or it is too long), else
/// the new length and whether the response is then complete.
pub open spec fn body_step(remaining: Option<usize>, n: nat) -> Option<(Option<usize>, bool)> {
    match remaining {
        Some(len) => if len == 0 || n > len {
            None
        } else if n == len {
            Some((Some(0usize), true))
        } else {
            Some((Some((len - n) as usize), false))
        },
        None => Some((None, false)),
    }
}

/// What the task does with a ReqResponseBody. A body that the declared
/// length does not allow, or an unknown handle, is answered with BadHandle
/// at once. A non-empty body is sent, closing the connection after it if it
/// completes the declared length; an empty body closes the connection. The
/// CfmResponseBody waits for the socket task's confirmation.
pub open spec fn response_body_effect(
    before: TaskContext,
    after: TaskContext,
    req_body: ReqResponseBody,
    reply_to: MessageSender,
    outs: Seq<Outgoing>,
) -> bool {
    let h = req_body.handle.0;
    let n = req_body.data@.len();
    let refused = cfm_msg(
        Confirmation::ResponseBody(
            Box::new(
                CfmResponseBody {
                    context: req_body.context,
                    handle: req_body.handle,
                    result: Err(Error::BadHandle),
                },
            ),
        ),
    );
    &&& keeps_servers(before, after)
    &&& if !before.connections().contains_key(h) || body_step(
        before.connections()[h].1.body_length,
        n,
    ) is None {
        &&& keeps_connections(before, after)
        &&& after.pending() == before.pending()
        &&& after.next_ctx() == before.next_ctx()
        &&& outs.len() == 1
        &&& outs[0].to.id() == reply_to.id()
        &&& outs[0].msg == refused
    } else {
        let (k2, c) = before.connections()[h];
        let (new_length, complete) = body_step(c.body_length, n)->0;
        let ctx = before.next_ctx();
        let p = after.pending()[ctx.0];
        &&& took_ctx(before, after)
        &&& after.pending() == before.pending().insert(ctx.0, p)
        &&& p.handle == req_body.handle
        &&& p.context == req_body.context
        &&& p.reply_to.id() == reply_to.id()
        &&& p.cfm_type == CfmType::Body
        &&& outs.len() == 1
        &&& if n > 0 {
            &&& p.close_after == complete
            &&& after.connections() == before.connections().insert(
                h,
                (k2, Connection { body_length: new_length, ..c }),
            )
            &&& after.connection_index() == before.connection_index()
            &&& before.sends_data(outs[0], c.socket_handle, ctx, req_body.data@)
        } else {
            &&& !p.close_after
            &&& after.connections() == before.connections().remove(h)
            &&& after.connection_index() == before.connection_index().remove(k2)
            &&& before.sends_close(outs[0], c.socket_handle, ctx)
        }
    }
}

/// What the task does with the socket task's answer to a bind: the server
/// is bound and findable by its listen handle, or it is forgotten; either
/// way the requester of the ReqBind is told. An answer for an unknown
/// server is ignored.
pub open spec fn cfm_bind_effect(
    before: TaskContext,
    after: TaskContext,
    cfm_bind: socket::CfmBind,
    outs: Seq<Outgoing>,
) -> bool {
    let c = cfm_bind.context.0;
    &&& keeps_connections(before, after)
    &&& after.pending() == before.pending()
    &&& after.next_ctx() == before.next_ctx()
    &&& if !before.servers().contains_key(c) {
        &&& keeps_servers(before, after)
        &&& outs.len() == 0
    } else {
        let (k2, s) = before.servers()[c];
        let rc = s.reply_ctx->0;
        let servers = before.servers().remove(c);
        let index = before.server_index().remove(k2);
        &&& outs.len() == 1
        &&& outs[0].to == rc.reply_to
        &&& match cfm_bind.result {
            Ok(lh) => {
                &&& after.servers() == servers.insert(
                    c,
                    (Some(lh.0), Server { listen_handle: Some(lh), reply_ctx: None, ..s }),
                )
                &&& after.server_index() == index.insert(Some(lh.0), c)
                &&& outs[0].msg == cfm_msg(
                    Confirmation::Bind(Box::new(CfmBind { context: rc.context, result: Ok(cfm_bind.context) })),
                )
            },
            Err(e) => {
                &&& after.servers() == servers
                &&& after.server_index() == index
                &&& outs[0].msg == cfm_msg(
                    Confirmation::Bind(
                        Box::new(CfmBind { context: rc.context, result: Err(Error::SocketError(e)) }),
                    ),
                )
            },
        }
    }
}

/// The confirmation upwards that a pending socket request turns into, if
/// any, carrying `result`.
pub open spec fn upward_cfm(p: PendingCfm, result: Result<(), Error>) -> Option<Message> {
    match p.cfm_type {
        CfmType::Start => Some(
            cfm_msg(
                Confirmation::ResponseStart(
                    Box::new(CfmResponseStart { context: p.context, handle: p.handle, result }),
                ),
            ),
        ),
        CfmType::Body => Some(
            cfm_msg(
                Confirmation::ResponseBody(
                    Box::new(CfmResponseBody { context: p.context, handle: p.handle, result }),
                ),
            ),
        ),
        CfmType::Close => None,
    }
}

/// What the task does with the socket task's CfmSend: the pending
/// ReqResponseStart or ReqResponseBody is confirmed with its outcome, and
/// if the response is complete the connection is forgotten and the socket
/// task is asked to close it. An unexpected CfmSend is ignored.
pub open spec fn cfm_send_effect(
    before: TaskContext,
    after: TaskContext,
    cfm: socket::CfmSend,
    outs: Seq<Outgoing>,
) -> bool {
    let c = cfm.context.0;
    &&& keeps_servers(before, after)
    &&& if !before.pending().contains_key(c) {
        &&& keeps_connections(before, after)
        &&& after.pending() == before.pending()
        &&& after.next_ctx() == before.next_ctx()
        &&& outs.len() == 0
    } else {
        let p = before.pending()[c];
        let pending = before.pending().remove(c);
        &&& outs.len() >= 1
        &&& outs[0].to.id() == p.reply_to.id()
        &&& Some(outs[0].msg) == upward_cfm(p, mapped(cfm.result))
        &&& if p.close_after {
            let ctx = before.next_ctx();
            &&& took_ctx(before, after)
            &&& removed(before, after, p.handle.0)
            &&& after.pending() == pending.insert(
                ctx.0,
                PendingCfm { cfm_type: CfmType::Close, close_after: false, ..p },
            )
            &&& outs.len() == 2
            &&& before.sends_close(outs[1], cfm.handle, ctx)
        } else {
            &&& keeps_connections(before, after)
            &&& after.pending() == pending
            &&& after.next_ctx() == before.next_ctx()
            &&& outs.len() == 1
        }
    }
}

/// What the task does with the socket task's CfmClose: the pending request
/// that caused the close (if it came from above) is confirmed with the
/// outcome, and the requester is told the connection is closed. An
/// unexpected CfmClose is ignored.
pub open spec fn cfm_close_effect(
    before: TaskContext,
    after: TaskContext,
    cfm: socket::CfmClose,
    outs: Seq<Outgoing>,
) -> bool {
    let c = cfm.context.0;
    &&& keeps_servers(before, after)
    &&& keeps_connections(before, after)
    &&& after.next_ctx() == before.next_ctx()
    &&& after.pending() == before.pending().remove(c)
    &&& if !before.pending().contains_key(c) {
        outs.len() == 0
    } else {
        let p = before.pending()[c];
        let closed = ind_msg(Indication::Closed(Box::new(IndClosed { handle: p.handle })));
        &&& forall|i: int| 0 <= i < outs.len() ==> (#[trigger] outs[i]).to.id() == p.reply_to.id()
        &&& match upward_cfm(p, mapped(cfm.result)) {
            Some(m) => outs.len() == 2 && outs[0].msg == m && outs[1].msg == closed,
            None => outs.len() == 1 && outs[0].msg == closed,
        }
    }
}

/// What the task does when a connection arrives on a socket: if it belongs
/// to one of our bound servers, a connection record is made under a new
/// handle (the layer above hears of it only once a request has been
/// parsed).
pub open spec fn ind_connected_effect(
    before: TaskContext,
    after: TaskContext,
    ind: socket::IndConnected,
    outs: Seq<Outgoing>,
) -> bool {
    let k = Some(ind.listen_handle.0);
    let found = before.server_index().contains_key(k) && before.servers().contains_key(
        before.server_index()[k],
    );
    &&& keeps_servers(before, after)
    &&& after.pending() == before.pending()
    &&& outs.len() == 0
    &&& if found {
        let sh = before.servers()[before.server_index()[k]].1.our_handle;
        let h = before.next_ctx();
        &&& took_ctx(before, after)
        &&& after.connections() == before.connections().insert(
            h.0,
            (
                ind.conn_handle.0,
                Connection {
                    our_handle: h,
                    server_handle: sh,
                    socket_handle: ind.conn_handle,
                    body_length: None,
                    announced: false,
                },
            ),
        )
        &&& after.connection_index() == before.connection_index().insert(ind.conn_handle.0, h.0)
    } else {
        &&& after.next_ctx() == before.next_ctx()
        &&& keeps_connections(before, after)
    }
}

/// What the task does when a socket connection goes away: its record,
/// found by socket handle, is forgotten, and the user of its server is
/// told that the connection has closed, if that user has heard of it.
pub open spec fn ind_dropped_effect(
    before: TaskContext,
    after: TaskContext,
    ind: socket::IndDropped,
    outs: Seq<Outgoing>,
) -> bool {
    let k2 = ind.handle.0;
    let found = before.connection_index().contains_key(k2) && before.connections().contains_key(
        before.connection_index()[k2],
    );
    let conn = before.connections()[before.connection_index()[k2]].1;
    &&& keeps_servers(before, after)
    &&& after.pending() == before.pending()
    &&& after.next_ctx() == before.next_ctx()
    &&& removed_alt(before, after, k2)
    &&& if found && conn.announced && before.servers().contains_key(conn.server_handle.0) {
        &&& outs.len() == 1
        &&& outs[0].to.id() == before.servers()[conn.server_handle.0].1.ind_to.id()
        &&& outs[0].msg == ind_msg(Indication::Closed(Box::new(IndClosed { handle: conn.our_handle })))
    } else {
        outs.len() == 0
    }
}

/// The messages that reject a connection whose data is not a request: the
/// error page (if there is one) and a close, both under context 0.
pub open spec fn rejects(t: TaskContext, outs: Seq<Outgoing>, handle: socket::ConnHandle) -> bool {
    match t.error_page() {
        Some(page) => {
            &&& outs.len() == 2
            &&& t.sends_data(outs[0], handle, Context(0), page)
            &&& t.sends_close(outs[1], handle, Context(0))
        },
        None => {
            &&& outs.len() == 1
            &&& t.sends_close(outs[0], handle, Context(0))
        },
    }
}

/// What the task does with data arriving on a socket connection, given
/// what the parser made of it. Data on a connection that does not lead to
/// one of our servers, or without a parse, is only answered. A complete
/// request is passed up to the server's user, and the connection is marked
/// as known to that user; data that is not a request gets the error page
/// and the connection is closed and forgotten. Whatever happens, the socket
/// task is then told the data has been dealt with.
pub open spec fn ind_received_effect(
    before: TaskContext,
    after: TaskContext,
    ind: socket::IndReceived,
    parsed: Option<ParseOutcome>,
    outs: Seq<Outgoing>,
) -> bool {
    let h = ind.handle.0;
    &&& keeps_servers(before, after)
    &&& after.pending() == before.pending()
    &&& after.next_ctx() == before.next_ctx()
    &&& outs.len() >= 1
    &&& answers_received(before, outs.last(), ind.handle)
    &&& if !before.routes(h) {
        &&& keeps_connections(before, after)
        &&& outs.len() == 1
    } else {
        match parsed {
            Some(ParseOutcome::Complete { url, method, headers }) => {
                let k1 = before.connection_index()[h];
                let (k2, conn) = before.connections()[k1];
                let server = before.servers()[conn.server_handle.0].1;
                &&& after.connections() == before.connections().insert(
                    k1,
                    (k2, Connection { announced: true, ..conn }),
                )
                &&& after.connection_index() == before.connection_index()
                &&& outs.len() == 2
                &&& outs[0].to.id() == server.ind_to.id()
                &&& outs[0].msg == ind_msg(
                    Indication::Connected(
                        Box::new(
                            IndConnected {
                                server_handle: conn.server_handle,
                                connection_handle: conn.our_handle,
                                url,
                                method,
                                headers,
                            },
                        ),
                    ),
                )
            },
            Some(ParseOutcome::Invalid) => {
                &&& removed_alt(before, after, h)
                &&& rejects(before, outs.drop_last(), ind.handle)
            },
            _ => {
                &&& keeps_connections(before, after)
                &&& outs.len() == 1
            },
        }
    }
}

/// Whether the task can take `msg`: the conditions under which it would
/// otherwise fail. A bind answer must be for a server still waiting to be
/// bound, and a CfmSend must not answer one of the task's own closes.
pub open spec fn accepts(t: TaskContext, msg: Message, parsed: Option<ParseOutcome>) -> bool {
    match msg {
        Message::Confirmation(ConfirmationTask::Socket(socket::Confirmation::Bind(c))) => t.servers().contains_key(c.context.0) ==> t.servers()[c.context.0].1.reply_ctx is Some,
        Message::Confirmation(ConfirmationTask::Socket(socket::Confirmation::Send(c))) => t.pending().contains_key(c.context.0) ==> t.pending()[c.context.0].cfm_type != CfmType::Close,
        _ => true,
    }
}

/// What the task does with a message (see the effect of each kind).
/// Anything not addressed to it is dropped.
pub open spec fn handle_effect(
    before: TaskContext,
    after: TaskContext,
    msg: Message,
    parsed: Option<ParseOutcome>,
    outs: Seq<Outgoing>,
) -> bool {
    match msg {
        Message::Request(reply_to, RequestTask::Http(req)) => match req {
            Request::Bind(b) => bind_effect(before, after, *b, reply_to, outs),
            Request::ResponseStart(r) => response_start_effect(before, after, *r, reply_to, outs),
            Request::ResponseBody(r) => response_body_effect(before, after, *r, reply_to, outs),
        },
        Message::Confirmation(ConfirmationTask::Socket(cfm)) => match cfm {
            socket::Confirmation::Bind(c) => cfm_bind_effect(before, after, *c, outs),
            socket::Confirmation::Send(c) => cfm_send_effect(before, after, *c, outs),
            socket::Confirmation::Close(c) => cfm_close_effect(before, after, *c, outs),
            socket::Confirmation::Unbind(_) => unchanged(before, after) && outs.len() == 0,
        },
        Message::Indication(IndicationTask::Socket(ind)) => match ind {
            socket::Indication::Connected(i) => ind_connected_effect(before, after, *i, outs),
            socket::Indication::Dropped(i) => ind_dropped_effect(before, after, *i, outs),
            socket::Indication::Received(i) => ind_received_effect(before, after, *i, parsed, outs),
        },
        _ => unchanged(before, after) && outs.len() == 0,
    }
}

/// Nothing the task decides with has changed.
pub open spec fn unchanged(before: TaskContext, after: TaskContext) -> bool {
    &&& keeps_servers(before, after)
    &&& keeps_connections(before, after)
    &&& after.pending() == before.pending()
    &&& after.next_ctx() == before.next_ctx()
}

// ****************************************************************************
// Laws
// ****************************************************************************

/// Data arriving on a socket connection is always answered: whatever the
/// connection and whatever the parser made of the data, the last message
/// sent tells the socket task that the data has been dealt with, and it is
/// the only message to the socket task that is not a send or a close.
pub proof fn law_data_always_answered(
    before: TaskContext,
    after: TaskContext,
    ind: socket::IndReceived,
    parsed: Option<ParseOutcome>,
    outs: Seq<Outgoing>,
)
    requires
        ind_received_effect(before, after, ind, parsed, outs),
    ensures
        outs.len() >= 1,
        answers_received(before, outs.last(), ind.handle),
        forall|i: int|
            0 <= i < outs.len() - 1 ==> !((#[trigger] outs[i]).msg is Response),
{
    if before.routes(ind.handle.0) {
        match parsed {
            Some(ParseOutcome::Invalid) => {
                let rest = outs.drop_last();
                assert forall|i: int| 0 <= i < outs.len() - 1 implies !((#[trigger] outs[i]).msg is Response) by {
                    assert(outs[i] == rest[i]);
                }
            },
            _ => {},
        }
    }
}

/// The body sent never exceeds the declared length: an accepted body of
/// `n` octets leaves `len - n` to send, the response is complete exactly
/// when nothing is left, and once nothing is left every further body is
/// refused. An unbounded response accepts any body.
pub proof fn law_body_within_length(len: usize, n: nat)
    ensures
        body_step(Some(0usize), n) is None,
        body_step(Some(len), n) matches Some((Some(r), done)) ==> n + r == len && (done <==> r == 0),
        body_step(Some(len), n) is None <==> (len == 0 || n > len),
        body_step(None, n) == Some((None::<usize>, false)),
{
}

/// A ReqBind is answered exactly once: when the socket task answers the
/// bind that it caused, the requester gets a CfmBind carrying its own
/// context and either the new server handle or the socket error.
pub proof fn law_bind_confirmed(
    before: TaskContext,
    mid: TaskContext,
    after: TaskContext,
    req_bind: ReqBind,
    reply_to: MessageSender,
    outs1: Seq<Outgoing>,
    cfm: socket::CfmBind,
    outs2: Seq<Outgoing>,
)
    requires
        bind_effect(before, mid, req_bind, reply_to, outs1),
        cfm.context == before.next_ctx(),
        cfm_bind_effect(mid, after, cfm, outs2),
    ensures
        outs1.len() == 1,
        outs2.len() == 1,
        outs2[0].to.id() == reply_to.id(),
        outs2[0].msg == cfm_msg(
            Confirmation::Bind(
                Box::new(
                    CfmBind {
                        context: req_bind.context,
                        result: match cfm.result {
                            Ok(_) => Ok(before.next_ctx()),
                            Err(e) => Err(Error::SocketError(e)),
                        },
                    },
                ),
            ),
        ),
{
    let h = before.next_ctx().0;
    assert(mid.servers().contains_key(h));
}

/// A ReqResponseStart on a known connection is answered exactly once:
/// when the socket task confirms the send of the rendered head, the
/// requester gets a CfmResponseStart with its own context and handle and
/// the socket task's outcome; the connection is then closed if the
/// declared length is zero.
pub proof fn law_response_start_confirmed(
    before: TaskContext,
    mid: TaskContext,
    after: TaskContext,
    req_start: ReqResponseStart,
    reply_to: MessageSender,
    outs1: Seq<Outgoing>,
    cfm: socket::CfmSend,
    outs2: Seq<Outgoing>,
)
    requires
        before.connections().contains_key(req_start.handle.0),
        response_start_effect(before, mid, req_start, reply_to, outs1),
        cfm.context == before.next_ctx(),
        cfm_send_effect(mid, after, cfm, outs2),
    ensures
        outs2.len() >= 1,
        outs2[0].to.id() == reply_to.id(),
        outs2[0].msg == cfm_msg(
            Confirmation::ResponseStart(
                Box::new(
                    CfmResponseStart {
                        context: req_start.context,
                        handle: req_start.handle,
                        result: mapped(cfm.result),
                    },
                ),
            ),
        ),
        outs2.len() == 2 <==> req_start.length == Some(0usize),
{
    assert(mid.pending().contains_key(cfm.context.0));
}

/// A ReqResponseBody that the declared length allows is answered exactly
/// once: a non-empty body when the socket task confirms its send (and the
/// connection is then closed if the body completed the declared length),
/// an empty body when the socket task confirms the close, followed by an
/// IndClosed.
pub proof fn law_response_body_confirmed(
    before: TaskContext,
    mid: TaskContext,
    after: TaskContext,
    req_body: ReqResponseBody,
    reply_to: MessageSender,
    outs1: Seq<Outgoing>,
    cfm_send: socket::CfmSend,
    cfm_close: socket::CfmClose,
    outs2: Seq<Outgoing>,
)
    requires
        before.connections().contains_key(req_body.handle.0),
        body_step(before.connections()[req_body.handle.0].1.body_length, req_body.data@.len())
            is Some,
        response_body_effect(before, mid, req_body, reply_to, outs1),
        req_body.data@.len() > 0 ==> cfm_send.context == before.next_ctx() && cfm_send_effect(
            mid,
            after,
            cfm_send,
            outs2,
        ),
        req_body.data@.len() == 0 ==> cfm_close.context == before.next_ctx() && cfm_close_effect(
            mid,
            after,
            cfm_close,
            outs2,
        ),
    ensures
        outs2.len() >= 1,
        outs2[0].to.id() == reply_to.id(),
        req_body.data@.len() > 0 ==> {
            let step = body_step(
                before.connections()[req_body.handle.0].1.body_length,
                req_body.data@.len(),
            )->0;
            let complete = step.1;
            &&& outs2[0].msg == cfm_msg(
                Confirmation::ResponseBody(
                    Box::new(
                        CfmResponseBody {
                            context: req_body.context,
                            handle: req_body.handle,
                            result: mapped(cfm_send.result),
                        },
                    ),
                ),
            )
            &&& (outs2.len() == 2 <==> complete)
        },
        req_body.data@.len() == 0 ==> {
            &&& outs2.len() == 2
            &&& outs2[0].msg == cfm_msg(
                Confirmation::ResponseBody(
                    Box::new(
                        CfmResponseBody {
                            context: req_body.context,
                            handle: req_body.handle,
                            result: mapped(cfm_close.result),
                        },
                    ),
                ),
            )
            &&& outs2[1].to.id() == reply_to.id()
            &&& outs2[1].msg == ind_msg(
                Indication::Closed(Box::new(IndClosed { handle: req_body.handle })),
            )
        },
{
    assert(mid.pending().contains_key(before.next_ctx().0));
}

/// A body counts down the declared length. On a connection with
/// `len` octets of body still to send, a non-empty body of `n` octets is
/// accepted exactly when `0 < n <= len`: it is handed to the socket task as
/// it is, `len - n` octets are then left, and the connection is to be
/// closed after it exactly when it was the last `len` octets. Otherwise it
/// is refused with BadHandle and nothing changes.
pub proof fn law_body_counts_down(
    before: TaskContext,
    after: TaskContext,
    req: ReqResponseBody,
    reply_to: MessageSender,
    outs: Seq<Outgoing>,
    len: usize,
)
    requires
        before.connections().contains_key(req.handle.0),
        before.connections()[req.handle.0].1.body_length == Some(len),
        req.data@.len() > 0,
        response_body_effect(before, after, req, reply_to, outs),
    ensures
        ({
            let h = req.handle.0;
            let n = req.data@.len();
            if 0 < n <= len {
                &&& after.connections().contains_key(h)
                &&& after.connections()[h].1.body_length == Some((len - n) as usize)
                &&& outs.len() == 1
                &&& outs[0].msg matches Message::Request(_, RequestTask::Socket(socket::Request::Send(r)))
                &&& r.data@ == req.data@
                &&& r.handle == before.connections()[h].1.socket_handle
                &&& after.pending()[before.next_ctx().0].close_after == (n == len)
            } else {
                &&& after.connections() == before.connections()
                &&& after.pending() == before.pending()
                &&& outs.len() == 1
                &&& outs[0].to.id() == reply_to.id()
                &&& outs[0].msg == cfm_msg(
                    Confirmation::ResponseBody(
                        Box::new(
                            CfmResponseBody {
                                context: req.context,
                                handle: req.handle,
                                result: Err(Error::BadHandle),
                            },
                        ),
                    ),
                )
            }
        }),
{
}

/// Octets of body that a run of ReqResponseBody requests had accepted: the
/// sizes of the first `k` requests whose answer was a send to the socket
/// task.
pub open spec fn accepted_octets(reqs: Seq<ReqResponseBody>, outs: Seq<Seq<Outgoing>>, k: int) -> nat
    decreases k,
{
    if k <= 0 {
        0
    } else {
        accepted_octets(reqs, outs, k - 1) + if outs[k - 1].len() > 0 && outs[k - 1][0].msg is Request {
            reqs[k - 1].data@.len()
        } else {
            0
        }
    }
}

/// The body sent never exceeds the declared length: over any run of
/// non-empty ReqResponseBody requests on one connection declared with
/// `total` octets, the octets accepted so far never exceed `total`, and
/// what is left to send is exactly `total` less them; so bodies totalling
/// `total` leave nothing to send.
pub proof fn law_bodies_within_declared_length(
    states: Seq<TaskContext>,
    reqs: Seq<ReqResponseBody>,
    replies: Seq<MessageSender>,
    outs: Seq<Seq<Outgoing>>,
    h: ConnHandle,
    total: usize,
    k: int,
)
    requires
        states.len() == reqs.len() + 1,
        replies.len() == reqs.len(),
        outs.len() == reqs.len(),
        0 <= k <= reqs.len(),
        states[0].connections().contains_key(h.0),
        states[0].connections()[h.0].1.body_length == Some(total),
        forall|i: int| 0 <= i < reqs.len() ==> (#[trigger] reqs[i]).handle == h && reqs[i].data@.len() > 0,
        forall|i: int|
            0 <= i < reqs.len() ==> response_body_effect(
                #[trigger] states[i],
                states[i + 1],
                reqs[i],
                replies[i],
                outs[i],
            ),
    ensures
        accepted_octets(reqs, outs, k) <= total,
        states[k].connections().contains_key(h.0),
        states[k].connections()[h.0].1.body_length == Some((total - accepted_octets(reqs, outs, k)) as usize),
    decreases k,
{
    if k > 0 {
        law_bodies_within_declared_length(states, reqs, replies, outs, h, total, k - 1);
        let i = k - 1;
        let left = (total - accepted_octets(reqs, outs, i)) as usize;
        assert(reqs[i].handle == h && reqs[i].data@.len() > 0);
        assert(response_body_effect(states[i], states[i + 1], reqs[i], replies[i], outs[i]));
        law_body_counts_down(states[i], states[i + 1], reqs[i], replies[i], outs[i], left);
    }
}

/// The connection half of the invariant.
pub open spec fn connections_ok(t: TaskContext) -> bool {
    &&& forall|k: usize| #[trigger]
        t.connections().contains_key(k) ==> {
            let (k2, c) = t.connections()[k];
            &&& c.our_handle == Context(k)
            &&& k2 == c.socket_handle.0
            &&& k < t.next_ctx().0
        }
    &&& forall|k2: usize| #[trigger]
        t.connection_index().contains_key(k2) ==> {
            &&& t.connections().contains_key(t.connection_index()[k2])
            &&& t.connections()[t.connection_index()[k2]].0 == k2
        }
}

/// The server half of the invariant.
pub open spec fn servers_ok(t: TaskContext) -> bool {
    &&& forall|k: usize| #[trigger]
        t.servers().contains_key(k) ==> {
            let (k2, s) = t.servers()[k];
            &&& s.our_handle == Context(k)
            &&& k2 == (match s.listen_handle {
                Some(l) => Some(l.0),
                None => None,
            })
            &&& k < t.next_ctx().0
        }
    &&& forall|k2: Option<usize>| #[trigger]
        t.server_index().contains_key(k2) ==> {
            &&& t.servers().contains_key(t.server_index()[k2])
            &&& t.servers()[t.server_index()[k2]].0 == k2
        }
}

/// Keeping the connections and their index, and not moving `next_ctx`
/// back, keeps the connection half of the invariant.
proof fn lemma_connections_kept(t: TaskContext, t2: TaskContext)
    requires
        connections_ok(t),
        keeps_connections(t, t2),
        t.next_ctx().0 <= t2.next_ctx().0,
    ensures
        connections_ok(t2),
{
    assert forall|k: usize| #[trigger] t2.connections().contains_key(k) implies ({
        let (k2, c) = t2.connections()[k];
        &&& c.our_handle == Context(k)
        &&& k2 == c.socket_handle.0
        &&& k < t2.next_ctx().0
    }) by {
        assert(t.connections().contains_key(k));
    }
}

/// Keeping the servers and their index, and not moving `next_ctx` back,
/// keeps the server half of the invariant.
proof fn lemma_servers_kept(t: TaskContext, t2: TaskContext)
    requires
        servers_ok(t),
        keeps_servers(t, t2),
        t.next_ctx().0 <= t2.next_ctx().0,
    ensures
        servers_ok(t2),
{
    assert forall|k: usize| #[trigger] t2.servers().contains_key(k) implies ({
        let (k2, s) = t2.servers()[k];
        &&& s.our_handle == Context(k)
        &&& k2 == (match s.listen_handle {
            Some(l) => Some(l.0),
            None => None,
        })
        &&& k < t2.next_ctx().0
    }) by {
        assert(t.servers().contains_key(k));
    }
}

/// Replacing a connection's record by one with the same handles keeps the
/// connection half of the invariant.
proof fn lemma_connection_updated(t: TaskContext, t2: TaskContext, k1: usize)
    requires
        connections_ok(t),
        t2.connection_index() == t.connection_index(),
        t.connections().contains_key(k1),
        t2.connections() == t.connections().insert(k1, t2.connections()[k1]),
        t2.connections()[k1].0 == t.connections()[k1].0,
        t2.connections()[k1].1.our_handle == t.connections()[k1].1.our_handle,
        t2.connections()[k1].1.socket_handle == t.connections()[k1].1.socket_handle,
        t.next_ctx().0 <= t2.next_ctx().0,
    ensures
        connections_ok(t2),
{
    assert forall|k: usize| #[trigger] t2.connections().contains_key(k) implies ({
        let (k2, c) = t2.connections()[k];
        &&& c.our_handle == Context(k)
        &&& k2 == c.socket_handle.0
        &&& k < t2.next_ctx().0
    }) by {
        assert(t.connections().contains_key(k));
    }
    assert forall|k2: usize| #[trigger] t2.connection_index().contains_key(k2) implies ({
        &&& t2.connections().contains_key(t2.connection_index()[k2])
        &&& t2.connections()[t2.connection_index()[k2]].0 == k2
    }) by {
        assert(t.connection_index().contains_key(k2));
    }
}

/// Forgetting a connection by its handle keeps the connection half of the
/// invariant.
proof fn lemma_connection_removed(t: TaskContext, t2: TaskContext, k1: usize)
    requires
        connections_ok(t),
        removed(t, t2, k1),
        t.next_ctx().0 <= t2.next_ctx().0,
    ensures
        connections_ok(t2),
{
    assert forall|k: usize| #[trigger] t2.connections().contains_key(k) implies ({
        let (k2, c) = t2.connections()[k];
        &&& c.our_handle == Context(k)
        &&& k2 == c.socket_handle.0
        &&& k < t2.next_ctx().0
    }) by {
        assert(t.connections().contains_key(k));
    }
    assert forall|k2: usize| #[trigger] t2.connection_index().contains_key(k2) implies ({
        &&& t2.connections().contains_key(t2.connection_index()[k2])
        &&& t2.connections()[t2.connection_index()[k2]].0 == k2
    }) by {
        assert(t.connection_index().contains_key(k2));
    }
}

/// Forgetting a connection by its socket handle keeps the connection half
/// of the invariant.
proof fn lemma_connection_removed_alt(t: TaskContext, t2: TaskContext, k2: usize)
    requires
        connections_ok(t),
        removed_alt(t, t2, k2),
        t.next_ctx().0 <= t2.next_ctx().0,
    ensures
        connections_ok(t2),
{
    assert forall|k: usize| #[trigger] t2.connections().contains_key(k) implies ({
        let (kk, c) = t2.connections()[k];
        &&& c.our_handle == Context(k)
        &&& kk == c.socket_handle.0
        &&& k < t2.next_ctx().0
    }) by {
        assert(t.connections().contains_key(k));
    }
    assert forall|j: usize| #[trigger] t2.connection_index().contains_key(j) implies ({
        &&& t2.connections().contains_key(t2.connection_index()[j])
        &&& t2.connections()[t2.connection_index()[j]].0 == j
    }) by {
        assert(t.connection_index().contains_key(j));
    }
}

/// Recording a new connection under the handle just given out, with its
/// socket handle as second key, keeps the connection half of the
/// invariant.
proof fn lemma_connection_added(t: TaskContext, t2: TaskContext, h: usize, k2: usize)
    requires
        connections_ok(t),
        h == t.next_ctx().0,
        h < t2.next_ctx().0,
        t2.connections() == t.connections().insert(h, t2.connections()[h]),
        t2.connection_index() == t.connection_index().insert(k2, h),
        t2.connections()[h].0 == k2,
        t2.connections()[h].1.our_handle == Context(h),
        t2.connections()[h].1.socket_handle.0 == k2,
    ensures
        connections_ok(t2),
{
    assert forall|k: usize| #[trigger] t2.connections().contains_key(k) implies ({
        let (kk, c) = t2.connections()[k];
        &&& c.our_handle == Context(k)
        &&& kk == c.socket_handle.0
        &&& k < t2.next_ctx().0
    }) by {
        if k != h {
            assert(t.connections().contains_key(k));
        }
    }
    assert forall|j: usize| #[trigger] t2.connection_index().contains_key(j) implies ({
        &&& t2.connections().contains_key(t2.connection_index()[j])
        &&& t2.connections()[t2.connection_index()[j]].0 == j
    }) by {
        if j != k2 {
            assert(t.connection_index().contains_key(j));
            assert(t.connections().contains_key(t.connection_index()[j]));
        }
    }
}

/// Recording a server under a handle not in use and below `next_ctx`,
/// with its listen handle as second key, keeps the server half of the
/// invariant.
proof fn lemma_server_added(t: TaskContext, t2: TaskContext, h: usize)
    requires
        servers_ok(t),
        !t.servers().contains_key(h),
        h < t2.next_ctx().0,
        t.next_ctx().0 <= t2.next_ctx().0,
        t2.servers() == t.servers().insert(h, t2.servers()[h]),
        t2.server_index() == t.server_index().insert(t2.servers()[h].0, h),
        t2.servers()[h].1.our_handle == Context(h),
        t2.servers()[h].0 == (match t2.servers()[h].1.listen_handle {
            Some(l) => Some(l.0),
            None => None,
        }),
    ensures
        servers_ok(t2),
{
    assert forall|k: usize| #[trigger] t2.servers().contains_key(k) implies ({
        let (k2, s) = t2.servers()[k];
        &&& s.our_handle == Context(k)
        &&& k2 == (match s.listen_handle {
            Some(l) => Some(l.0),
            None => None,
        })
        &&& k < t2.next_ctx().0
    }) by {
        if k != h {
            assert(t.servers().contains_key(k));
        }
    }
    assert forall|j: Option<usize>| #[trigger] t2.server_index().contains_key(j) implies ({
        &&& t2.servers().contains_key(t2.server_index()[j])
        &&& t2.servers()[t2.server_index()[j]].0 == j
    }) by {
        if j != t2.servers()[h].0 {
            assert(t.server_index().contains_key(j));
            assert(t.servers().contains_key(t.server_index()[j]));
        }
    }
}

/// Forgetting a server by its handle, as `MultiMap::remove` does it, keeps
/// the server half of the invariant.
proof fn lemma_server_removed(t: TaskContext, t2: TaskContext, c: usize)
    requires
        servers_ok(t),
        t.servers().contains_key(c),
        t.next_ctx().0 <= t2.next_ctx().0,
        t2.servers() == t.servers().remove(c),
        t2.server_index() == t.server_index().remove(t.servers()[c].0),
    ensures
        servers_ok(t2),
{
    assert forall|k: usize| #[trigger] t2.servers().contains_key(k) implies ({
        let (k2, s) = t2.servers()[k];
        &&& s.our_handle == Context(k)
        &&& k2 == (match s.listen_handle {
            Some(l) => Some(l.0),
            None => None,
        })
        &&& k < t2.next_ctx().0
    }) by {
        assert(t.servers().contains_key(k));
    }
    assert forall|j: Option<usize>| #[trigger] t2.server_index().contains_key(j) implies ({
        &&& t2.servers().contains_key(t2.server_index()[j])
        &&& t2.servers()[t2.server_index()[j]].0 == j
    }) by {
        assert(t.server_index().contains_key(j));
    }
}

impl TaskContext {
    /// A task with no servers or connections. `error_page` is the response
    /// sent on a connection whose data is not an HTTP request.
    pub fn new(socket: MessageSender, us: MessageSender, error_page: Option<Vec<u8>>) -> (t: TaskContext)
        ensures
            t.socket_id() == socket.id(),
            t.own_id() == us.id(),
            t.error_page() == (match error_page {
                Some(p) => Some(p@),
                None => None::<Seq<u8>>,
            }),
            t.servers() == Map::<usize, (Option<usize>, Server)>::empty(),
            t.server_index() == Map::<Option<usize>, usize>::empty(),
            t.connections() == Map::<usize, (usize, Connection)>::empty(),
            t.connection_index() == Map::<usize, usize>::empty(),
            t.pending() == Map::<usize, PendingCfm>::empty(),
            t.next_ctx() == Context(2000),
            t.wf(),
    {
        TaskContext {
            socket,
            servers: servers_new(),
            connections: connections_new(),
            reply_to: us,
            next_ctx: Context::new(2000),
            pending: HashMap::new(),
            error_page,
        }
    }

    /// Handles a message addressed to the task. `parsed` is what the
    /// request parser made of the data of a socket IndReceived (see
    /// `receives`); other messages ignore it.
    pub fn handle(&mut self, msg: Message, parsed: Option<ParseOutcome>) -> (outs: Vec<Outgoing>)
        requires
            old(self).wf(),
            old(self).can_allocate(),
            accepts(*old(self), msg, parsed),
        ensures
            final(self).wf(),
            final(self).same_channels(old(self)),
            handle_effect(*old(self), *final(self), msg, parsed, outs@),
    {
        match msg {
            Message::Request(reply_to, RequestTask::Http(req)) => self.handle_http_req(&req, &reply_to),
            Message::Confirmation(ConfirmationTask::Socket(cfm)) => self.handle_socket_cfm(&cfm),
            Message::Indication(IndicationTask::Socket(ind)) => self.handle_socket_ind(&ind, parsed),
            _ => Vec::new(),
        }
    }

    /// Routes one of our own requests to its handler.
    pub fn handle_http_req(&mut self, req: &Request, reply_to: &MessageSender) -> (outs: Vec<Outgoing>)
        requires
            old(self).wf(),
            old(self).can_allocate(),
        ensures
            final(self).wf(),
            final(self).same_channels(old(self)),
            match req {
                Request::Bind(b) => bind_effect(*old(self), *final(self), **b, *reply_to, outs@),
                Request::ResponseStart(r) => response_start_effect(*old(self), *final(self), **r, *reply_to, outs@),
                Request::ResponseBody(r) => response_body_effect(*old(self), *final(self), **r, *reply_to, outs@),
            },
    {
        match req {
            Request::Bind(x) => self.handle_bind(x, reply_to),
            Request::ResponseStart(x) => self.handle_responsestart(x, reply_to),
            Request::ResponseBody(x) => self.handle_responsebody(x, reply_to),
        }
    }

    /// Routes a socket confirmation to its handler.
    pub fn handle_socket_cfm(&mut self, cfm: &socket::Confirmation) -> (outs: Vec<Outgoing>)
        requires
            old(self).wf(),
            old(self).can_allocate(),
            accepts(*old(self), Message::Confirmation(ConfirmationTask::Socket(*cfm)), None),
        ensures
            final(self).wf(),
            final(self).same_channels(old(self)),
            match cfm {
                socket::Confirmation::Bind(c) => cfm_bind_effect(*old(self), *final(self), **c, outs@),
                socket::Confirmation::Send(c) => cfm_send_effect(*old(self), *final(self), **c, outs@),
                socket::Confirmation::Close(c) => cfm_close_effect(*old(self), *final(self), **c, outs@),
                socket::Confirmation::Unbind(_) => unchanged(*old(self), *final(self)) && outs@.len() == 0,
            },
    {
        match cfm {
            socket::Confirmation::Bind(x) => self.handle_socket_cfm_bind(x),
            socket::Confirmation::Unbind(_) => Vec::new(),
            socket::Confirmation::Close(x) => self.handle_socket_cfm_close(x),
            socket::Confirmation::Send(x) => self.handle_socket_cfm_send(x),
        }
    }

    /// Routes a socket indication to its handler.
    pub fn handle_socket_ind(&mut self, ind: &socket::Indication, parsed: Option<ParseOutcome>) -> (outs: Vec<Outgoing>)
        requires
            old(self).wf(),
            old(self).can_allocate(),
        ensures
            final(self).wf(),
            final(self).same_channels(old(self)),
            match ind {
                socket::Indication::Connected(i) => ind_connected_effect(*old(self), *final(self), **i, outs@),
                socket::Indication::Dropped(i) => ind_dropped_effect(*old(self), *final(self), **i, outs@),
                socket::Indication::Received(i) => ind_received_effect(*old(self), *final(self), **i, parsed, outs@),
            },
    {
        match ind {
            socket::Indication::Connected(x) => self.handle_socket_ind_connected(x),
            socket::Indication::Dropped(x) => self.handle_socket_ind_dropped(x),
            socket::Indication::Received(x) => self.handle_socket_ind_received(x, parsed),
        }
    }

    /// Handles a ReqBind (see `bind_effect`).
    pub fn handle_bind(&mut self, req_bind: &ReqBind, reply_to: &MessageSender) -> (outs: Vec<
        Outgoing,
    >)
        requires
            old(self).wf(),
            old(self).can_allocate(),
        ensures
            final(self).wf(),
            final(self).same_channels(old(self)),
            bind_effect(*old(self), *final(self), *req_bind, *reply_to, outs@),
    {
        let our_handle = self.next_ctx.take();
        let reply_ctx = ReplyContext { context: req_bind.context, reply_to: reply_to.clone() };
        let server = Server {
            listen_handle: None,
            reply_ctx: Some(reply_ctx),
            our_handle,
            ind_to: reply_to.clone(),
        };
        let req = socket::ReqBind { addr: req_bind.addr, context: our_handle };
        let mut outs: Vec<Outgoing> = Vec::new();
        outs.push(Outgoing { to: self.socket.clone(), msg: req.wrap(&self.reply_to) });
        servers_insert(&mut self.servers, our_handle.0, None, server);
        proof {
            assert(!old(self).servers().contains_key(our_handle.0));
            lemma_server_added(*old(self), *self, our_handle.0);
            lemma_connections_kept(*old(self), *self);
        }
        outs
    }

    /// Handles the socket task's answer to a bind (see `cfm_bind_effect`).
    pub fn handle_socket_cfm_bind(&mut self, cfm_bind: &socket::CfmBind) -> (outs: Vec<Outgoing>)
        requires
            old(self).wf(),
            old(self).servers().contains_key(cfm_bind.context.0) ==> old(self).servers()[cfm_bind.context.0].1.reply_ctx is Some,
        ensures
            final(self).wf(),
            final(self).same_channels(old(self)),
            cfm_bind_effect(*old(self), *final(self), *cfm_bind, outs@),
    {
        let mut outs: Vec<Outgoing> = Vec::new();
        let c = cfm_bind.context.0;
        match servers_remove(&mut self.servers, &c) {
            Some(server) => {
                let ghost mid = *self;
                proof {
                    lemma_server_removed(*old(self), mid, c);
                    assert(Context(c) == cfm_bind.context);
                }
                let Server { listen_handle: _, reply_ctx, our_handle, ind_to } = server;
                let reply_ctx = match reply_ctx {
                    Some(rc) => rc,
                    None => {
                        proof {
                            assert(false);
                        }
                        return outs;
                    },
                };
                match cfm_bind.result {
                    Ok(handle) => {
                        let cfm = CfmBind { context: reply_ctx.context, result: Ok(our_handle) };
                        outs.push(Outgoing { to: reply_ctx.reply_to, msg: cfm.wrap() });
                        let bound = Server {
                            listen_handle: Some(handle),
                            reply_ctx: None,
                            our_handle,
                            ind_to,
                        };
                        servers_insert(&mut self.servers, c, Some(handle.0), bound);
                        proof {
                            lemma_server_added(mid, *self, c);
                        }
                    },
                    Err(err) => {
                        let cfm = CfmBind {
                            context: reply_ctx.context,
                            result: Err(Error::SocketError(err)),
                        };
                        outs.push(Outgoing { to: reply_ctx.reply_to, msg: cfm.wrap() });
                    },
                }
            },
            None => {
                proof {
                    lemma_servers_kept(*old(self), *self);
                }
            },
        }
        proof {
            lemma_connections_kept(*old(self), *self);
        }
        outs
    }

    /// Handles a connection arriving on a socket (see
    /// `ind_connected_effect`).
    pub fn handle_socket_ind_connected(&mut self, ind: &socket::IndConnected) -> (outs: Vec<
        Outgoing,
    >)
        requires
            old(self).wf(),
            old(self).can_allocate(),
        ensures
            final(self).wf(),
            final(self).same_channels(old(self)),
            ind_connected_effect(*old(self), *final(self), *ind, outs@),
    {
        let key = Some(ind.listen_handle.0);
        let server_handle = match servers_get_alt(&self.servers, &key) {
            Some(server) => Some(server.our_handle),
            None => None,
        };
        if let Some(sh) = server_handle {
            let our_handle = self.next_ctx.take();
            let conn = Connection {
                our_handle,
                server_handle: sh,
                socket_handle: ind.conn_handle,
                body_length: None,
                announced: false,
            };
            connections_insert(&mut self.connections, our_handle.0, ind.conn_handle.0, conn);
        }
        proof {
            if server_handle is Some {
                lemma_connection_added(*old(self), *self, old(self).next_ctx().0, ind.conn_handle.0);
            } else {
                lemma_connections_kept(*old(self), *self);
            }
            lemma_servers_kept(*old(self), *self);
        }
        Vec::new()
    }

    /// Handles a socket connection going away (see `ind_dropped_effect`).
    pub fn handle_socket_ind_dropped(&mut self, ind: &socket::IndDropped) -> (outs: Vec<Outgoing>)
        requires
            old(self).wf(),
        ensures
            final(self).wf(),
            final(self).same_channels(old(self)),
            ind_dropped_effect(*old(self), *final(self), *ind, outs@),
    {
        let mut outs: Vec<Outgoing> = Vec::new();
        if let Some(conn) = connections_remove_alt(&mut self.connections, &ind.handle.0) {
            if conn.announced {
                if let Some(serv) = servers_get(&self.servers, &conn.server_handle.0) {
                    let closed = IndClosed { handle: conn.our_handle };
                    outs.push(Outgoing { to: serv.ind_to.clone(), msg: closed.wrap() });
                }
            }
        }
        proof {
            lemma_connection_removed_alt(*old(self), *self, ind.handle.0);
            lemma_servers_kept(*old(self), *self);
        }
        outs
    }

    /// Handles a ReqResponseStart (see `response_start_effect`).
    pub fn handle_responsestart(&mut self, req_start: &ReqResponseStart, reply_to: &MessageSender) -> (outs:
        Vec<Outgoing>)
        requires
            old(self).wf(),
            old(self).can_allocate(),
        ensures
            final(self).wf(),
            final(self).same_channels(old(self)),
            response_start_effect(*old(self), *final(self), *req_start, *reply_to, outs@),
    {
        let mut outs: Vec<Outgoing> = Vec::new();
        let skt = match connections_get_mut(&mut self.connections, &req_start.handle.0) {
            Some(conn) => {
                conn.body_length = req_start.length;
                Some(conn.socket_handle)
            },
            None => None,
        };
        match skt {
            Some(skt) => {
                let s = render_response(
                    &req_start.status,
                    req_start.content_type.as_str(),
                    req_start.length,
                    &req_start.headers,
                );
                let ctx = self.next_ctx.take();
                let req = socket::ReqSend {
                    handle: skt,
                    context: ctx,
                    data: vstd::slice::slice_to_vec(s.as_str().as_bytes()),
                };
                let pend = PendingCfm {
                    handle: req_start.handle,
                    context: req_start.context,
                    reply_to: reply_to.clone(),
                    cfm_type: CfmType::Start,
                    close_after: req_start.length == Some(0usize),
                };
                self.pending.insert(ctx.0, pend);
                outs.push(Outgoing { to: self.socket.clone(), msg: req.wrap(&self.reply_to) });
            },
            None => {
                let cfm = CfmResponseStart {
                    context: req_start.context,
                    handle: req_start.handle,
                    result: Err(Error::BadHandle),
                };
                outs.push(Outgoing { to: reply_to.clone(), msg: cfm.wrap() });
            },
        }
        proof {
            if old(self).connections().contains_key(req_start.handle.0) {
                lemma_connection_updated(*old(self), *self, req_start.handle.0);
            } else {
                lemma_connections_kept(*old(self), *self);
            }
            lemma_servers_kept(*old(self), *self);
        }
        outs
    }

    /// Handles a ReqResponseBody (see `response_body_effect`).
    pub fn handle_responsebody(&mut self, req_body: &ReqResponseBody, reply_to: &MessageSender) -> (outs:
        Vec<Outgoing>)
        requires
            old(self).wf(),
            old(self).can_allocate(),
        ensures
            final(self).wf(),
            final(self).same_channels(old(self)),
            response_body_effect(*old(self), *final(self), *req_body, *reply_to, outs@),
    {
        let n = req_body.data.len();
        let mut outs: Vec<Outgoing> = Vec::new();
        let step = match connections_get_mut(&mut self.connections, &req_body.handle.0) {
            Some(conn) => {
                let decision = match conn.body_length {
                    Some(len) => {
                        if len == 0 || n > len {
                            None
                        } else if n == len {
                            Some((Some(0usize), true))
                        } else {
                            Some((Some(len - n), false))
                        }
                    },
                    None => Some((None, false)),
                };
                match decision {
                    Some((new_length, complete)) => {
                        conn.body_length = new_length;
                        Some((conn.socket_handle, complete))
                    },
                    None => None,
                }
            },
            None => None,
        };
        match step {
            None => {
                assert(self.connections() =~= old(self).connections());
                let cfm = CfmResponseBody {
                    context: req_body.context,
                    handle: req_body.handle,
                    result: Err(Error::BadHandle),
                };
                outs.push(Outgoing { to: reply_to.clone(), msg: cfm.wrap() });
            },
            Some((skt, complete)) => {
                let ctx = self.next_ctx.take();
                if n > 0 {
                    let req = socket::ReqSend {
                        handle: skt,
                        context: ctx,
                        data: vstd::slice::slice_to_vec(req_body.data.as_slice()),
                    };
                    let pend = PendingCfm {
                        handle: req_body.handle,
                        context: req_body.context,
                        reply_to: reply_to.clone(),
                        cfm_type: CfmType::Body,
                        close_after: complete,
                    };
                    self.pending.insert(ctx.0, pend);
                    outs.push(Outgoing { to: self.socket.clone(), msg: req.wrap(&self.reply_to) });
                } else {
                    let req = socket::ReqClose { handle: skt, context: ctx };
                    let pend = PendingCfm {
                        handle: req_body.handle,
                        context: req_body.context,
                        reply_to: reply_to.clone(),
                        cfm_type: CfmType::Body,
                        close_after: false,
                    };
                    self.pending.insert(ctx.0, pend);
                    outs.push(Outgoing { to: self.socket.clone(), msg: req.wrap(&self.reply_to) });
                    let _ = connections_remove(&mut self.connections, &req_body.handle.0);
                    assert(self.connections() =~= old(self).connections().remove(req_body.handle.0));
                }
            },
        }
        proof {
            let h = req_body.handle.0;
            if !old(self).connections().contains_key(h) || body_step(
                old(self).connections()[h].1.body_length,
                req_body.data@.len(),
            ) is None {
                lemma_connections_kept(*old(self), *self);
            } else if req_body.data@.len() > 0 {
                lemma_connection_updated(*old(self), *self, h);
            } else {
                lemma_connection_removed(*old(self), *self, h);
            }
            lemma_servers_kept(*old(self), *self);
        }
        outs
    }

    /// Handles the socket task's CfmSend (see `cfm_send_effect`).
    pub fn handle_socket_cfm_send(&mut self, cfm: &socket::CfmSend) -> (outs: Vec<Outgoing>)
        requires
            old(self).wf(),
            old(self).can_allocate(),
            old(self).pending().contains_key(cfm.context.0) ==> old(self).pending()[cfm.context.0].cfm_type != CfmType::Close,
        ensures
            final(self).wf(),
            final(self).same_channels(old(self)),
            cfm_send_effect(*old(self), *final(self), *cfm, outs@),
    {
        let mut outs: Vec<Outgoing> = Vec::new();
        if let Some(pend) = self.pending.remove(&cfm.context.0) {
            let result = map_result(&cfm.result);
            let PendingCfm { reply_to, context, cfm_type, handle, close_after } = pend;
            match cfm_type {
                CfmType::Start => {
                    let msg = CfmResponseStart { context, handle, result };
                    outs.push(Outgoing { to: reply_to.clone(), msg: msg.wrap() });
                },
                CfmType::Body => {
                    let msg = CfmResponseBody { context, handle, result };
                    outs.push(Outgoing { to: reply_to.clone(), msg: msg.wrap() });
                },
                CfmType::Close => {
                    proof {
                        assert(false);
                    }
                },
            }
            if close_after {
                let ctx = self.next_ctx.take();
                let req = socket::ReqClose { handle: cfm.handle, context: ctx };
                let closing = PendingCfm {
                    handle,
                    context,
                    reply_to,
                    cfm_type: CfmType::Close,
                    close_after: false,
                };
                let _ = connections_remove(&mut self.connections, &handle.0);
                self.pending.insert(ctx.0, closing);
                outs.push(Outgoing { to: self.socket.clone(), msg: req.wrap(&self.reply_to) });
            }
        } else {
            assert(self.pending@ =~= old(self).pending@);
        }
        proof {
            let c = cfm.context.0;
            if old(self).pending().contains_key(c) && old(self).pending()[c].close_after {
                lemma_connection_removed(*old(self), *self, old(self).pending()[c].handle.0);
            } else {
                lemma_connections_kept(*old(self), *self);
            }
            lemma_servers_kept(*old(self), *self);
        }
        outs
    }

    /// Handles the socket task's CfmClose (see `cfm_close_effect`).
    pub fn handle_socket_cfm_close(&mut self, cfm: &socket::CfmClose) -> (outs: Vec<Outgoing>)
        requires
            old(self).wf(),
        ensures
            final(self).wf(),
            final(self).same_channels(old(self)),
            cfm_close_effect(*old(self), *final(self), *cfm, outs@),
    {
        let mut outs: Vec<Outgoing> = Vec::new();
        if let Some(pend) = self.pending.remove(&cfm.context.0) {
            let result = map_result(&cfm.result);
            let PendingCfm { reply_to, context, cfm_type, handle, close_after: _ } = pend;
            match cfm_type {
                CfmType::Start => {
                    let msg = CfmResponseStart { context, handle, result };
                    outs.push(Outgoing { to: reply_to.clone(), msg: msg.wrap() });
                },
                CfmType::Body => {
                    let msg = CfmResponseBody { context, handle, result };
                    outs.push(Outgoing { to: reply_to.clone(), msg: msg.wrap() });
                },
                CfmType::Close => {},
            }
            let ind = IndClosed { handle };
            outs.push(Outgoing { to: reply_to, msg: ind.wrap() });
        }
        proof {
            lemma_connections_kept(*old(self), *self);
            lemma_servers_kept(*old(self), *self);
        }
        outs
    }

    /// Whether the task can take `msg` with `parsed` (see `accepts`).
    pub fn accepts_message(&self, msg: &Message, parsed: &Option<ParseOutcome>) -> (r: bool)
        ensures
            r == accepts(*self, *msg, *parsed),
    {
        match msg {
            Message::Confirmation(ConfirmationTask::Socket(socket::Confirmation::Bind(c))) => {
                match servers_get(&self.servers, &c.context.0) {
                    Some(server) => server.reply_ctx.is_some(),
                    None => true,
                }
            },
            Message::Confirmation(ConfirmationTask::Socket(socket::Confirmation::Send(c))) => {
                match self.pending.get(&c.context.0) {
                    Some(p) => match p.cfm_type {
                        CfmType::Close => false,
                        _ => true,
                    },
                    None => true,
                }
            },
            _ => true,
        }
    }

    /// Whether a context may still be given out (see `can_allocate`).
    pub fn contexts_left(&self) -> (r: bool)
        ensures
            r == self.can_allocate(),
    {
        self.next_ctx.0 < usize::MAX
    }

    /// Whether data arriving on socket connection `handle` is to be parsed
    /// (see `routes`).
    pub fn receives(&self, handle: socket::ConnHandle) -> (r: bool)
        ensures
            r == self.routes(handle.0),
    {
        match connections_get_alt(&self.connections, &handle.0) {
            Some(conn) => match servers_get(&self.servers, &conn.server_handle.0) {
                Some(_) => true,
                None => false,
            },
            None => false,
        }
    }

    /// Handles data arriving on a socket connection (see
    /// `ind_received_effect`).
    pub fn handle_socket_ind_received(&mut self, ind: &socket::IndReceived, parsed: Option<ParseOutcome>) -> (outs:
        Vec<Outgoing>)
        requires
            old(self).wf(),
        ensures
            final(self).wf(),
            final(self).same_channels(old(self)),
            ind_received_effect(*old(self), *final(self), *ind, parsed, outs@),
    {
        let mut outs: Vec<Outgoing> = Vec::new();
        let route = match connections_get_alt(&self.connections, &ind.handle.0) {
            Some(conn) => match servers_get(&self.servers, &conn.server_handle.0) {
                Some(serv) => Some((conn.our_handle, conn.server_handle, serv.ind_to.clone())),
                None => None,
            },
            None => None,
        };
        match (route, parsed) {
            (Some((ch, sh, ind_to)), Some(ParseOutcome::Complete { url, method, headers })) => {
                let ghost k1 = self.connection_index()[ind.handle.0];
                assert(self.connections().contains_key(k1));
                assert(ch == Context(k1));
                match connections_get_mut(&mut self.connections, &ch.0) {
                    Some(conn) => {
                        conn.announced = true;
                    },
                    None => {},
                }
                let conn_ind = IndConnected {
                    server_handle: sh,
                    connection_handle: ch,
                    url,
                    method,
                    headers,
                };
                outs.push(Outgoing { to: ind_to, msg: conn_ind.wrap() });
                proof {
                    lemma_connection_updated(*old(self), *self, k1);
                    lemma_servers_kept(*old(self), *self);
                }
            },
            (Some(_), Some(ParseOutcome::Invalid)) => {
                let _ = connections_remove_alt(&mut self.connections, &ind.handle.0);
                outs = self.send_response(ind.handle);
                proof {
                    lemma_connection_removed_alt(*old(self), *self, ind.handle.0);
                    lemma_servers_kept(*old(self), *self);
                }
            },
            _ => {},
        }
        let rsp = socket::RspReceived { handle: ind.handle };
        outs.push(Outgoing { to: self.socket.clone(), msg: rsp.wrap() });
        outs
    }

    /// The messages that reject a connection whose data is not a request
    /// (see `rejects`).
    pub fn send_response(&self, handle: socket::ConnHandle) -> (outs: Vec<Outgoing>)
        ensures
            rejects(*self, outs@, handle),
    {
        let mut outs: Vec<Outgoing> = Vec::new();
        match &self.error_page {
            Some(page) => {
                let req = socket::ReqSend {
                    handle,
                    context: Context::default(),
                    data: vstd::slice::slice_to_vec(page.as_slice()),
                };
                outs.push(Outgoing { to: self.socket.clone(), msg: req.wrap(&self.reply_to) });
            },
            None => {},
        }
        let close_req = socket::ReqClose { handle, context: Context::default() };
        outs.push(Outgoing { to: self.socket.clone(), msg: close_req.wrap(&self.reply_to) });
        outs
    }
}

} // verus!
