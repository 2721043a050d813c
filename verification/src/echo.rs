//! The echo server of the example program: whatever arrives on a raw
//! socket connection is sent back on it.

use vstd::prelude::*;

use crate::socket;
use crate::{NonRequestSendable, RequestSendable};
use crate::{Context, IndicationTask, Message, MessageSender, Outgoing, RequestTask, ResponseTask};

verus! {

/// The echo server's state: who it talks to, and the context for its next
/// send.
pub struct EchoTask {
    socket: MessageSender,
    reply_to: MessageSender,
    next: Context,
}

impl EchoTask {
    /// The identity of the socket task's channel.
    pub closed spec fn socket_id(&self) -> int {
        self.socket.id()
    }

    /// The identity of the channel that reaches the echo server.
    pub closed spec fn own_id(&self) -> int {
        self.reply_to.id()
    }

    /// The context of the next send.
    pub closed spec fn next(&self) -> Context {
        self.next
    }

    /// An echo server that uses `socket` and is reached through `us`; its
    /// first send has context 0.
    pub fn new(socket: MessageSender, us: MessageSender) -> (t: EchoTask)
        ensures
            t.socket_id() == socket.id(),
            t.own_id() == us.id(),
            t.next() == Context(0),
    {
        EchoTask { socket, reply_to: us, next: Context::default() }
    }

    /// Handles a message. Data arriving on a connection is answered, so
    /// that more can arrive, and sent back on the same connection under the
    /// next context; anything else is ignored.
    pub fn handle(&mut self, msg: &Message) -> (outs: Vec<Outgoing>)
        ensures
            final(self).socket_id() == old(self).socket_id(),
            final(self).own_id() == old(self).own_id(),
            match *msg {
                Message::Indication(IndicationTask::Socket(socket::Indication::Received(ind))) => {
                    &&& final(self).next().0 == crate::next_value(old(self).next().0)
                    &&& outs@.len() == 2
                    &&& outs@[0].to.id() == old(self).socket_id()
                    &&& outs@[0].msg == Message::Response(
                        ResponseTask::Socket(
                            socket::Response::Received(Box::new(socket::RspReceived { handle: ind.handle })),
                        ),
                    )
                    &&& outs@[1].to.id() == old(self).socket_id()
                    &&& outs@[1].msg matches Message::Request(s, RequestTask::Socket(socket::Request::Send(r)))
                    &&& s.id() == old(self).own_id()
                    &&& r.handle == ind.handle
                    &&& r.context == old(self).next()
                    &&& r.data@ == ind.data@
                },
                _ => {
                    &&& final(self).next() == old(self).next()
                    &&& outs@.len() == 0
                },
            },
    {
        let mut outs: Vec<Outgoing> = Vec::new();
        match msg {
            Message::Indication(IndicationTask::Socket(socket::Indication::Received(ind))) => {
                let rsp = socket::RspReceived { handle: ind.handle };
                outs.push(Outgoing { to: self.socket.clone(), msg: rsp.wrap() });
                let send = socket::ReqSend {
                    handle: ind.handle,
                    data: vstd::slice::slice_to_vec(ind.data.as_slice()),
                    context: self.next.take(),
                };
                outs.push(Outgoing { to: self.socket.clone(), msg: send.wrap(&self.reply_to) });
            },
            _ => {},
        }
        outs
    }
}

} // verus!
