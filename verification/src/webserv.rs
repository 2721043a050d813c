//! # WebServ
//! A very basic REST server, which uses the `http` task to handle the HTTP
//! protocol. When a GET on a known URL is received, it informs the layer
//! above and waits for that layer to ask for the reply to be sent. The
//! reply is confirmed once it has gone out and the connection is closed.
//! A request for any other URL or method is answered "404 Not Found".
//!
//! |URL        | Methods         | Message                |
//! |-----------|-----------------|------------------------|
//! | /status   | GET             | IndStatusGetReceived   |
//! |           |                 | ReqSendStatusGetResult |

use vstd::prelude::*;

use crate::address::SocketAddr;
use crate::http;
use std::collections::HashMap;

use crate::text;
use crate::RequestSendable;
use crate::{
    ConfirmationTask, Context, IndicationTask, Message, MessageSender, Outgoing, ReplyContext,
    RequestTask,
};

verus! {

/// Requests that can be sent to the webserv task.
#[derive(Debug)]
pub enum Request {
    SendStatusGetResult(Box<ReqSendStatusGetResult>),
}

/// Confirmations sent in reply to Requests.
#[derive(Debug)]
pub enum Confirmation {
    SendStatusGetResult(Box<CfmSendStatusGetResult>),
}

/// Indications that can be sent from the webserv task.
#[derive(Debug)]
pub enum Indication {
    StatusGetReceived(Box<IndStatusGetReceived>),
}

/// Asks the webserv task to send a reply to an earlier GET on /status.
#[derive(Debug)]
pub struct ReqSendStatusGetResult {
    pub context: WebRequestHandle,
    pub status: u32,
}

/// Informs the layer above that the ReqSendStatusGetResult has been
/// processed and the connection is closed.
#[derive(Debug)]
pub struct CfmSendStatusGetResult {
    pub context: WebRequestHandle,
    pub result: Result<(), Error>,
}

/// Indicates a GET has been performed on /status
#[derive(Debug)]
pub struct IndStatusGetReceived {
    pub context: WebRequestHandle,
}

/// Uniquely identifies an HTTP request received from an HTTP client: the
/// http task's handle for the connection it came in on.
pub type WebRequestHandle = Context;

/// All possible webserv task errors
#[derive(Debug, Copy, Clone)]
pub enum Error {
    /// Used when no better error has been defined yet
    Unknown,
    /// Used if a ReqXXXResult is sent on an invalid (perhaps recently
    /// closed) WebRequestHandle.
    BadHandle,
    /// The http task failed
    HttpError(http::Error),
}

/// One instance per task.
pub struct TaskContext {
    /// Who we send http messages to
    http: MessageSender,
    /// How other tasks send messages to us
    reply_to: MessageSender,
    /// The layer above, told of the requests that arrive
    user: MessageSender,
    /// GET /status requests still to be answered, by connection handle,
    /// with the requester of the reply once it has been asked for
    requests: HashMap<usize, Option<ReplyContext>>,
    /// What the handlers have decided to send, in order
    outbox: Vec<Outgoing>,
}

/// The address the web server binds: all interfaces, port 8000.
pub open spec fn server_addr() -> SocketAddr {
    SocketAddr { ip: crate::address::IpAddr::V4(0, 0, 0, 0), port: 8000 }
}

/// A webserv confirmation, wrapped.
pub open spec fn cfm_msg(c: Confirmation) -> Message {
    Message::Confirmation(ConfirmationTask::WebServ(c))
}

/// A webserv indication, wrapped.
pub open spec fn ind_msg(i: Indication) -> Message {
    Message::Indication(IndicationTask::WebServ(i))
}

/// The confirmation of a reply to request `context`.
pub open spec fn result_cfm(context: WebRequestHandle, result: Result<(), Error>) -> Message {
    cfm_msg(Confirmation::SendStatusGetResult(Box::new(CfmSendStatusGetResult { context, result })))
}

/// Whether an HTTP request is a GET of /status.
pub open spec fn status_get(ind: http::IndConnected) -> bool {
    ind.method@ == "GET"@ && ind.url@ == "/status"@
}

/// The body of a reply: the status in decimal.
pub open spec fn status_body(status: u32) -> Seq<u8> {
    vstd::utf8::encode_utf8(text::decimal(status as nat))
}

/// `o` asks the http task for the head of a response on connection `h`,
/// under context `h`, with `code` and `reason`, a plain text body of
/// `length` octets and no other headers.
pub open spec fn sends_start(
    t: TaskContext,
    o: Outgoing,
    h: http::ConnHandle,
    code: u16,
    reason: Seq<char>,
    length: usize,
) -> bool {
    &&& o.to.id() == t.http_id()
    &&& o.msg matches Message::Request(s, RequestTask::Http(http::Request::ResponseStart(r)))
    &&& s.id() == t.own_id()
    &&& r.handle == h
    &&& r.context == h
    &&& r.status.code == code
    &&& r.status.reason@ == reason
    &&& r.content_type@ == "text/plain"@
    &&& r.length == Some(length)
    &&& r.headers@.len() == 0
}

/// `o` asks the http task to send `data` as the body of the response on
/// connection `h`, under context `h`.
pub open spec fn sends_body(t: TaskContext, o: Outgoing, h: http::ConnHandle, data: Seq<u8>) -> bool {
    &&& o.to.id() == t.http_id()
    &&& o.msg matches Message::Request(s, RequestTask::Http(http::Request::ResponseBody(r)))
    &&& s.id() == t.own_id()
    &&& *r == http::ReqResponseBody { handle: h, context: h, data: r.data }
    &&& r.data@ == data
}

/// Whether `after` keeps the channels of `before`.
pub open spec fn same_channels(before: TaskContext, after: TaskContext) -> bool {
    &&& after.http_id() == before.http_id()
    &&& after.own_id() == before.own_id()
    &&& after.user_id() == before.user_id()
}

/// What the task does with an HTTP request: a GET of /status is recorded
/// and told to the layer above under the connection's handle; anything
/// else is answered "404 Not Found" with no body, after which the http
/// task closes the connection.
pub open spec fn ind_connected_effect(
    before: TaskContext,
    after: TaskContext,
    ind: http::IndConnected,
    sent: Seq<Outgoing>,
) -> bool {
    let h = ind.connection_handle;
    &&& same_channels(before, after)
    &&& sent.len() == 1
    &&& if status_get(ind) {
        &&& after.requests() == before.requests().insert(h.0, None)
        &&& sent[0].to.id() == before.user_id()
        &&& sent[0].msg == ind_msg(Indication::StatusGetReceived(Box::new(IndStatusGetReceived { context: h })))
    } else {
        &&& after.requests() == before.requests()
        &&& sends_start(before, sent[0], h, 404, "Not Found"@, 0)
    }
}

/// What the task does with the upper layer's reply to request `req`: a
/// request that is not waiting for a reply is refused with BadHandle;
/// otherwise the requester is recorded and the http task is asked to send
/// "200 OK" with the status as a plain text body, whose length makes the
/// http task close the connection after it.
pub open spec fn reply_effect(
    before: TaskContext,
    after: TaskContext,
    req: ReqSendStatusGetResult,
    reply_to: MessageSender,
    outs: Seq<Outgoing>,
) -> bool {
    let h = req.context;
    &&& same_channels(before, after)
    &&& if !before.requests().contains_key(h.0) || before.requests()[h.0] is Some {
        &&& after.requests() == before.requests()
        &&& outs.len() == 1
        &&& outs[0].to.id() == reply_to.id()
        &&& outs[0].msg == result_cfm(h, Err(Error::BadHandle))
    } else {
        let rc = after.requests()[h.0]->0;
        let body = status_body(req.status);
        &&& after.requests() == before.requests().insert(h.0, Some(rc))
        &&& rc.context == h
        &&& rc.reply_to.id() == reply_to.id()
        &&& outs.len() == 2
        &&& sends_start(before, outs[0], h, 200, "OK"@, body.len() as usize)
        &&& sends_body(before, outs[1], h, body)
    }
}

/// What a failure reported by the http task for the response on
/// connection `h` does: a reply being sent there is confirmed with the
/// error and forgotten; otherwise nothing happens.
pub open spec fn failure_effect(
    before: TaskContext,
    after: TaskContext,
    h: http::ConnHandle,
    result: Result<(), http::Error>,
    sent: Seq<Outgoing>,
) -> bool {
    &&& same_channels(before, after)
    &&& match result {
        Err(e) if before.requests().contains_key(h.0) && before.requests()[h.0] is Some => {
            let rc = before.requests()[h.0]->0;
            &&& after.requests() == before.requests().remove(h.0)
            &&& sent == seq![Outgoing { to: rc.reply_to, msg: result_cfm(rc.context, Err(Error::HttpError(e))) }]
        },
        _ => {
            &&& after.requests() == before.requests()
            &&& sent.len() == 0
        },
    }
}

/// What the close of connection `h` does: its request is forgotten, and a
/// reply that was being sent on it is confirmed.
pub open spec fn closed_effect(
    before: TaskContext,
    after: TaskContext,
    h: http::ConnHandle,
    sent: Seq<Outgoing>,
) -> bool {
    &&& same_channels(before, after)
    &&& after.requests() == before.requests().remove(h.0)
    &&& match before.requests().get(h.0) {
        Some(Some(rc)) => sent == seq![Outgoing { to: rc.reply_to, msg: result_cfm(rc.context, Ok(())) }],
        _ => sent.len() == 0,
    }
}

/// Nothing changes and nothing is sent.
pub open spec fn ignored(before: TaskContext, after: TaskContext, sent: Seq<Outgoing>) -> bool {
    &&& same_channels(before, after)
    &&& after.requests() == before.requests()
    &&& sent.len() == 0
}

/// `after`'s outbox is `before`'s with `sent` added at the end.
pub open spec fn queued(before: TaskContext, after: TaskContext, sent: Seq<Outgoing>) -> bool {
    after.outbox() == before.outbox() + sent
}

/// What the task does with a message: its own requests, and the http
/// task's confirmations and indications. Anything else is dropped.
pub open spec fn handle_effect(before: TaskContext, after: TaskContext, msg: Message, outs: Seq<Outgoing>) -> bool {
    match msg {
        Message::Request(reply_to, RequestTask::WebServ(Request::SendStatusGetResult(r))) => reply_effect(
            before,
            after,
            *r,
            reply_to,
            outs,
        ),
        Message::Confirmation(ConfirmationTask::Http(c)) => match c {
            http::Confirmation::Bind(_) => ignored(before, after, outs),
            http::Confirmation::ResponseStart(x) => failure_effect(before, after, x.handle, x.result, outs),
            http::Confirmation::ResponseBody(x) => failure_effect(before, after, x.handle, x.result, outs),
        },
        Message::Indication(IndicationTask::Http(i)) => match i {
            http::Indication::Connected(x) => ind_connected_effect(before, after, *x, outs),
            http::Indication::Closed(x) => closed_effect(before, after, x.handle, outs),
        },
        _ => ignored(before, after, outs),
    }
}

/// A reply is confirmed exactly once: once the reply to a waiting GET of
/// /status has been asked for, the close of its connection confirms it
/// to the requester with its own context, and the request is then gone,
/// so that nothing can confirm it again.
pub proof fn law_reply_confirmed_on_close(
    before: TaskContext,
    mid: TaskContext,
    after: TaskContext,
    req: ReqSendStatusGetResult,
    reply_to: MessageSender,
    outs: Seq<Outgoing>,
    sent: Seq<Outgoing>,
)
    requires
        before.requests().contains_key(req.context.0),
        before.requests()[req.context.0] is None,
        reply_effect(before, mid, req, reply_to, outs),
        closed_effect(mid, after, req.context, sent),
    ensures
        outs.len() == 2,
        sent.len() == 1,
        sent[0].to.id() == reply_to.id(),
        sent[0].msg == result_cfm(req.context, Ok(())),
        !after.requests().contains_key(req.context.0),
{
    assert(mid.requests().contains_key(req.context.0));
}

/// A reply whose response fails is confirmed exactly once, with the
/// http task's error, and the request is then gone.
pub proof fn law_reply_confirmed_on_failure(
    before: TaskContext,
    mid: TaskContext,
    after: TaskContext,
    req: ReqSendStatusGetResult,
    reply_to: MessageSender,
    outs: Seq<Outgoing>,
    e: http::Error,
    sent: Seq<Outgoing>,
)
    requires
        before.requests().contains_key(req.context.0),
        before.requests()[req.context.0] is None,
        reply_effect(before, mid, req, reply_to, outs),
        failure_effect(mid, after, req.context, Err(e), sent),
    ensures
        sent.len() == 1,
        sent[0].to.id() == reply_to.id(),
        sent[0].msg == result_cfm(req.context, Err(Error::HttpError(e))),
        !after.requests().contains_key(req.context.0),
{
    assert(mid.requests().contains_key(req.context.0));
}

/// A reply whose response fails is reported failed, never sent: when the
/// http task reports that the head or the body of the reply being sent on
/// connection `h` failed with `e`, the reply's requester gets one
/// confirmation carrying `HttpError(e)` and its own context, the request is
/// forgotten, and the later close of the connection confirms nothing.
pub proof fn law_failed_response_reported(
    before: TaskContext,
    mid: TaskContext,
    after: TaskContext,
    cfm: http::Confirmation,
    h: http::ConnHandle,
    e: http::Error,
    outs: Seq<Outgoing>,
    sent: Seq<Outgoing>,
)
    requires
        before.requests().contains_key(h.0),
        before.requests()[h.0] is Some,
        match cfm {
            http::Confirmation::ResponseStart(x) => x.handle == h && x.result == Err::<(), http::Error>(e),
            http::Confirmation::ResponseBody(x) => x.handle == h && x.result == Err::<(), http::Error>(e),
            http::Confirmation::Bind(_) => false,
        },
        handle_effect(before, mid, Message::Confirmation(ConfirmationTask::Http(cfm)), outs),
        closed_effect(mid, after, h, sent),
    ensures
        ({
            let rc = before.requests()[h.0]->0;
            &&& outs.len() == 1
            &&& outs[0].to == rc.reply_to
            &&& outs[0].msg == cfm_msg(
                Confirmation::SendStatusGetResult(
                    Box::new(CfmSendStatusGetResult { context: rc.context, result: Err(Error::HttpError(e)) }),
                ),
            )
            &&& !mid.requests().contains_key(h.0)
            &&& sent.len() == 0
        }),
{
}

impl TaskContext {
    /// The identity of the http task's channel.
    pub closed spec fn http_id(&self) -> int {
        self.http.id()
    }

    /// The identity of the channel that reaches the task.
    pub closed spec fn own_id(&self) -> int {
        self.reply_to.id()
    }

    /// The identity of the layer above's channel.
    pub closed spec fn user_id(&self) -> int {
        self.user.id()
    }

    /// The GET /status requests still to be answered, by connection
    /// handle.
    pub closed spec fn requests(&self) -> Map<usize, Option<ReplyContext>> {
        self.requests@
    }

    /// What the handlers have decided to send and `handle` has not yet
    /// handed out.
    pub closed spec fn outbox(&self) -> Seq<Outgoing> {
        self.outbox@
    }

    /// Between messages nothing is left in the outbox.
    pub open spec fn wf(&self) -> bool {
        self.outbox().len() == 0
    }

    /// A task that uses `http`, is reached through `us`, and tells `user`
    /// of the requests that arrive.
    pub fn new(http: MessageSender, us: MessageSender, user: MessageSender) -> (t: TaskContext)
        ensures
            t.http_id() == http.id(),
            t.own_id() == us.id(),
            t.user_id() == user.id(),
            t.requests() == Map::<usize, Option<ReplyContext>>::empty(),
            t.wf(),
    {
        TaskContext { http, reply_to: us, user, requests: HashMap::new(), outbox: Vec::new() }
    }

    /// Registers the HTTP server: asks the http task to bind 0.0.0.0:8000
    /// under context 0.
    pub fn init(&self) -> (outs: Vec<Outgoing>)
        ensures
            outs@.len() == 1,
            outs@[0].to.id() == self.http_id(),
            outs@[0].msg matches Message::Request(s, RequestTask::Http(http::Request::Bind(b)))
                && s.id() == self.own_id() && *b == (http::ReqBind {
                addr: server_addr(),
                context: Context(0),
            }),
    {
        let msg = http::ReqBind { addr: SocketAddr::v4(0, 0, 0, 0, 8000), context: Context::new(0) };
        let mut outs: Vec<Outgoing> = Vec::new();
        outs.push(Outgoing { to: self.http.clone(), msg: msg.wrap(&self.reply_to) });
        outs
    }

    /// Handles a message (see `handle_effect`): its own requests, and the
    /// http task's confirmations and indications, which go to the
    /// `http::User` handlers.
    pub fn handle(&mut self, msg: Message) -> (outs: Vec<Outgoing>)
        requires
            old(self).wf(),
        ensures
            final(self).wf(),
            handle_effect(*old(self), *final(self), msg, outs@),
    {
        let mut direct = match msg {
            Message::Request(reply_to, RequestTask::WebServ(req)) => self.handle_webserv_req(&req, &reply_to),
            Message::Confirmation(ConfirmationTask::Http(x)) => {
                http::User::handle_http_cfm(self, &x);
                Vec::new()
            },
            Message::Indication(IndicationTask::Http(x)) => {
                http::User::handle_http_ind(self, &x);
                Vec::new()
            },
            _ => Vec::new(),
        };
        let ghost sent = self.outbox@;
        let ghost answered = direct@;
        let mut outs: Vec<Outgoing> = Vec::new();
        std::mem::swap(&mut outs, &mut self.outbox);
        outs.append(&mut direct);
        proof {
            assert(sent =~= sent.subrange(0, sent.len() as int));
            assert(sent.len() == 0 ==> outs@ =~= answered);
            assert(answered.len() == 0 ==> outs@ =~= sent);
        }
        outs
    }

    /// Handles one of our own requests.
    fn handle_webserv_req(&mut self, req: &Request, reply_to: &MessageSender) -> (outs: Vec<Outgoing>)
        ensures
            final(self).outbox() == old(self).outbox(),
            match req {
                Request::SendStatusGetResult(r) => reply_effect(*old(self), *final(self), **r, *reply_to, outs@),
            },
    {
        match req {
            Request::SendStatusGetResult(x) => self.handle_webserv_sendstatusgetresult_req(x, reply_to),
        }
    }

    /// Handles the upper layer's reply to a GET of /status (see
    /// `reply_effect`).
    fn handle_webserv_sendstatusgetresult_req(&mut self, msg: &ReqSendStatusGetResult, reply_to: &MessageSender) -> (outs:
        Vec<Outgoing>)
        ensures
            final(self).outbox() == old(self).outbox(),
            reply_effect(*old(self), *final(self), *msg, *reply_to, outs@),
    {
        let h = msg.context;
        let mut outs: Vec<Outgoing> = Vec::new();
        let waiting = match self.requests.get(&h.0) {
            Some(r) => r.is_none(),
            None => false,
        };
        if !waiting {
            let cfm = CfmSendStatusGetResult { context: h, result: Err(Error::BadHandle) };
            let m = Message::Confirmation(ConfirmationTask::WebServ(Confirmation::SendStatusGetResult(Box::new(cfm))));
            outs.push(Outgoing { to: reply_to.clone(), msg: m });
            return outs;
        }
        let rc = ReplyContext { reply_to: reply_to.clone(), context: h };
        self.requests.insert(h.0, Some(rc));
        let mut text_body = String::new();
        text::push_decimal(&mut text_body, msg.status as usize);
        let data = vstd::slice::slice_to_vec(text_body.as_str().as_bytes());
        proof {
            assert(text_body@ == text::decimal(msg.status as nat));
        }
        let start = http::ReqResponseStart {
            handle: h,
            context: h,
            status: http::HttpResponseStatus { code: 200, reason: String::from_str("OK") },
            content_type: String::from_str("text/plain"),
            length: Some(data.len()),
            headers: Vec::new(),
        };
        outs.push(Outgoing { to: self.http.clone(), msg: start.wrap(&self.reply_to) });
        let body = http::ReqResponseBody { handle: h, context: h, data };
        outs.push(Outgoing { to: self.http.clone(), msg: body.wrap(&self.reply_to) });
        outs
    }

    /// A reply on connection `h` failed: confirms it with the error.
    fn response_failed(&mut self, h: http::ConnHandle, result: &Result<(), http::Error>)
        ensures
            ({
                let sent = final(self).outbox().subrange(old(self).outbox().len() as int, final(self).outbox().len() as int);
                &&& final(self).outbox().len() >= old(self).outbox().len()
                &&& queued(*old(self), *final(self), sent)
                &&& failure_effect(*old(self), *final(self), h, *result, sent)
            }),
    {
        let ghost before = self.outbox@;
        if let Err(e) = result {
            let waiting = match self.requests.get(&h.0) {
                Some(r) => r.is_some(),
                None => false,
            };
            if waiting {
                let r = self.requests.remove(&h.0);
                if let Some(Some(rc)) = r {
                    let cfm = CfmSendStatusGetResult { context: rc.context, result: Err(Error::HttpError(*e)) };
                    let m = Message::Confirmation(ConfirmationTask::WebServ(Confirmation::SendStatusGetResult(Box::new(cfm))));
                    self.outbox.push(Outgoing { to: rc.reply_to, msg: m });
                    assert(self.outbox@.subrange(before.len() as int, self.outbox@.len() as int) =~= seq![self.outbox@.last()]);
                }
            }
        }
        proof {
            assert(self.outbox@.subrange(0, before.len() as int) =~= before);
            assert(self.outbox@ =~= before + self.outbox@.subrange(before.len() as int, self.outbox@.len() as int));
        }
    }
}

impl http::User for TaskContext {
    /// The web server does not act on a bind confirmation.
    open spec fn handled_cfm_bind(self, after: Self, msg: http::CfmBind) -> bool {
        after == self
    }

    /// A failed response head fails the reply being sent.
    open spec fn handled_cfm_response_start(self, after: Self, msg: http::CfmResponseStart) -> bool {
        let sent = after.outbox().subrange(self.outbox().len() as int, after.outbox().len() as int);
        &&& after.outbox().len() >= self.outbox().len()
        &&& queued(self, after, sent)
        &&& failure_effect(self, after, msg.handle, msg.result, sent)
    }

    /// A failed response body fails the reply being sent.
    open spec fn handled_cfm_response_body(self, after: Self, msg: http::CfmResponseBody) -> bool {
        let sent = after.outbox().subrange(self.outbox().len() as int, after.outbox().len() as int);
        &&& after.outbox().len() >= self.outbox().len()
        &&& queued(self, after, sent)
        &&& failure_effect(self, after, msg.handle, msg.result, sent)
    }

    /// A request arrived (see `ind_connected_effect`).
    open spec fn handled_ind_connected(self, after: Self, msg: http::IndConnected) -> bool {
        let sent = after.outbox().subrange(self.outbox().len() as int, after.outbox().len() as int);
        &&& after.outbox().len() >= self.outbox().len()
        &&& queued(self, after, sent)
        &&& ind_connected_effect(self, after, msg, sent)
    }

    /// A connection closed (see `closed_effect`).
    open spec fn handled_ind_closed(self, after: Self, msg: http::IndClosed) -> bool {
        let sent = after.outbox().subrange(self.outbox().len() as int, after.outbox().len() as int);
        &&& after.outbox().len() >= self.outbox().len()
        &&& queued(self, after, sent)
        &&& closed_effect(self, after, msg.handle, sent)
    }

    fn handle_http_cfm_bind(&mut self, _msg: &http::CfmBind) {
    }

    fn handle_http_cfm_response_start(&mut self, msg: &http::CfmResponseStart) {
        self.response_failed(msg.handle, &msg.result);
    }

    fn handle_http_cfm_response_body(&mut self, msg: &http::CfmResponseBody) {
        self.response_failed(msg.handle, &msg.result);
    }

    fn handle_http_ind_connected(&mut self, msg: &http::IndConnected) {
        let ghost before = self.outbox@;
        let h = msg.connection_handle;
        proof {
            reveal_strlit("GET");
            reveal_strlit("/status");
        }
        if text::same_text(msg.method.as_str(), "GET") && text::same_text(msg.url.as_str(), "/status") {
            self.requests.insert(h.0, None);
            let ind = IndStatusGetReceived { context: h };
            let m = Message::Indication(IndicationTask::WebServ(Indication::StatusGetReceived(Box::new(ind))));
            self.outbox.push(Outgoing { to: self.user.clone(), msg: m });
        } else {
            let start = http::ReqResponseStart {
                handle: h,
                context: h,
                status: http::HttpResponseStatus { code: 404, reason: String::from_str("Not Found") },
                content_type: String::from_str("text/plain"),
                length: Some(0),
                headers: Vec::new(),
            };
            let m = start.wrap(&self.reply_to);
            self.outbox.push(Outgoing { to: self.http.clone(), msg: m });
        }
        proof {
            assert(self.outbox@.subrange(0, before.len() as int) =~= before);
            assert(self.outbox@ =~= before + self.outbox@.subrange(before.len() as int, self.outbox@.len() as int));
        }
    }

    fn handle_http_ind_closed(&mut self, msg: &http::IndClosed) {
        let ghost before = self.outbox@;
        let h = msg.handle;
        let r = self.requests.remove(&h.0);
        if let Some(Some(rc)) = r {
            let cfm = CfmSendStatusGetResult { context: rc.context, result: Ok(()) };
            let m = Message::Confirmation(ConfirmationTask::WebServ(Confirmation::SendStatusGetResult(Box::new(cfm))));
            self.outbox.push(Outgoing { to: rc.reply_to, msg: m });
            assert(self.outbox@.subrange(before.len() as int, self.outbox@.len() as int) =~= seq![self.outbox@.last()]);
        }
        proof {
            assert(self.outbox@.subrange(0, before.len() as int) =~= before);
            assert(self.outbox@ =~= before + self.outbox@.subrange(before.len() as int, self.outbox@.len() as int));
        }
    }
}

} // verus!
