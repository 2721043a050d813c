use grease::address::SocketAddr;
use grease::http::{
    render_response, Confirmation, Error, HttpResponseStatus, Indication, ParseOutcome, ReqBind,
    ReqResponseBody, ReqResponseStart, TaskContext,
};
use grease::socket;
use grease::{
    make_channel, ConfirmationTask, Context, IndicationTask, Message, MessageReceiver,
    MessageSender, Outgoing, RequestTask, ResponseTask,
};

struct Rig {
    task: TaskContext,
    user: MessageSender,
    user_rx: MessageReceiver,
    socket_rx: MessageReceiver,
}

fn flush(outs: Vec<Outgoing>) {
    for o in outs {
        assert!(o.send().is_ok());
    }
}

fn ok_status() -> HttpResponseStatus {
    HttpResponseStatus { code: 200, reason: String::from("OK") }
}

fn rig(page: Option<Vec<u8>>) -> Rig {
    let (socket_tx, socket_rx) = make_channel();
    let (http_tx, _http_rx) = make_channel();
    let (user, user_rx) = make_channel();
    let task = TaskContext::new(socket_tx, http_tx, page);
    Rig { task, user, user_rx, socket_rx }
}

fn step(r: &mut Rig, msg: Message, parsed: Option<ParseOutcome>) {
    let outs = r.task.handle(msg, parsed);
    flush(outs);
}

fn user_request(r: &Rig, req: grease::http::Request) -> Message {
    Message::Request(r.user.clone(), RequestTask::Http(req))
}

fn socket_cfm(c: socket::Confirmation) -> Message {
    Message::Confirmation(ConfirmationTask::Socket(c))
}

fn socket_ind(i: socket::Indication) -> Message {
    Message::Indication(IndicationTask::Socket(i))
}

/// Binds a server through the rig; the socket task answers with listen
/// handle 4. Returns the server handle.
fn bind(r: &mut Rig) -> Context {
    let req = ReqBind { addr: SocketAddr::v4(127, 0, 1, 1, 8001), context: Context::new(3) };
    let msg = user_request(r, grease::http::Request::Bind(Box::new(req)));
    step(r, msg, None);
    let ctx = match r.socket_rx.recv() {
        Ok(Message::Request(_, RequestTask::Socket(socket::Request::Bind(x)))) => {
            assert_eq!(x.addr, SocketAddr::v4(127, 0, 1, 1, 8001));
            x.context
        }
        _ => panic!("Bad match"),
    };
    assert_eq!(ctx, Context::new(2000));
    let cfm = socket::CfmBind { result: Ok(Context::new(4)), context: ctx };
    step(r, socket_cfm(socket::Confirmation::Bind(Box::new(cfm))), None);
    match r.user_rx.recv() {
        Ok(Message::Confirmation(ConfirmationTask::Http(Confirmation::Bind(x)))) => {
            assert_eq!(x.context, Context::new(3));
            x.result.unwrap()
        }
        _ => panic!("Bad match"),
    }
}

/// A connection (socket handle 5) arrives and a GET is parsed on it.
/// Returns the connection handle.
fn get_request(r: &mut Rig, sh: Context) -> Context {
    let ind = socket::IndConnected {
        listen_handle: Context::new(4),
        conn_handle: Context::new(5),
        peer: SocketAddr::v4(127, 0, 0, 1, 56789),
    };
    step(r, socket_ind(socket::Indication::Connected(Box::new(ind))), None);
    assert!(r.task.receives(Context::new(5)));
    let data = String::from("GET /foo/bar HTTP/1.1\r\nHost: localhost\r\n\r\n").into_bytes();
    let ind = socket::IndReceived { handle: Context::new(5), data };
    let parsed = ParseOutcome::Complete {
        url: String::from("/foo/bar"),
        method: String::from("GET"),
        headers: vec![(String::from("host"), String::from("localhost"))],
    };
    step(r, socket_ind(socket::Indication::Received(Box::new(ind))), Some(parsed));
    let ch = match r.user_rx.recv() {
        Ok(Message::Indication(IndicationTask::Http(Indication::Connected(x)))) => {
            assert_eq!(x.server_handle, sh);
            assert_eq!(x.url, "/foo/bar");
            assert_eq!(x.method, "GET");
            assert_eq!(x.headers, vec![(String::from("host"), String::from("localhost"))]);
            x.connection_handle
        }
        _ => panic!("Bad match"),
    };
    match r.socket_rx.recv() {
        Ok(Message::Response(ResponseTask::Socket(socket::Response::Received(x)))) => {
            assert_eq!(x.handle, Context::new(5));
        }
        _ => panic!("Bad match"),
    }
    ch
}

/// Expects a ReqSend of `expected` on socket handle 5, and confirms it.
fn expect_send(r: &mut Rig, expected: &[u8]) {
    let (handle, ctx, len) = match r.socket_rx.recv() {
        Ok(Message::Request(_, RequestTask::Socket(socket::Request::Send(x)))) => {
            assert_eq!(x.handle, Context::new(5));
            assert_eq!(x.data, expected);
            (x.handle, x.context, x.data.len())
        }
        _ => panic!("Bad match"),
    };
    let cfm = socket::CfmSend { handle, context: ctx, result: Ok(len) };
    step(r, socket_cfm(socket::Confirmation::Send(Box::new(cfm))), None);
}

/// Expects a ReqClose of socket handle 5, and confirms it.
fn expect_close(r: &mut Rig) {
    let (handle, ctx) = match r.socket_rx.recv() {
        Ok(Message::Request(_, RequestTask::Socket(socket::Request::Close(x)))) => {
            assert_eq!(x.handle, Context::new(5));
            (x.handle, x.context)
        }
        _ => panic!("Bad match"),
    };
    let cfm = socket::CfmClose { handle, context: ctx, result: Ok(()) };
    step(r, socket_cfm(socket::Confirmation::Close(Box::new(cfm))), None);
}

fn expect_body_cfm(r: &Rig, ch: Context, ctx: Context, ok: bool) {
    match r.user_rx.recv() {
        Ok(Message::Confirmation(ConfirmationTask::Http(Confirmation::ResponseBody(x)))) => {
            assert_eq!(x.handle, ch);
            assert_eq!(x.context, ctx);
            assert_eq!(x.result.is_ok(), ok);
        }
        _ => panic!("Bad match"),
    }
}

fn expect_closed(r: &Rig, ch: Context) {
    match r.user_rx.recv() {
        Ok(Message::Indication(IndicationTask::Http(Indication::Closed(x)))) => {
            assert_eq!(x.handle, ch);
        }
        _ => panic!("Bad match"),
    }
}

#[test]
fn http_bind_gives_server_handle() {
    let mut r = rig(None);
    let sh = bind(&mut r);
    assert_eq!(sh, Context::new(2000));
}

#[test]
fn bind_failure_is_reported() {
    let mut r = rig(None);
    let req = ReqBind { addr: SocketAddr::v4(127, 0, 1, 1, 22), context: Context::new(9) };
    let msg = user_request(&r, grease::http::Request::Bind(Box::new(req)));
    step(&mut r, msg, None);
    let _ = r.socket_rx.recv();
    let cfm = socket::CfmBind { result: Err(socket::SocketError::BadHandle), context: Context::new(2000) };
    step(&mut r, socket_cfm(socket::Confirmation::Bind(Box::new(cfm))), None);
    match r.user_rx.recv() {
        Ok(Message::Confirmation(ConfirmationTask::Http(Confirmation::Bind(x)))) => {
            assert_eq!(x.context, Context::new(9));
            assert!(matches!(x.result, Err(Error::SocketError(socket::SocketError::BadHandle))));
        }
        _ => panic!("Bad match"),
    }
}

#[test]
fn basic_get_vary_len() {
    let mut r = rig(None);
    let sh = bind(&mut r);
    let ch = get_request(&mut r, sh);

    let start = ReqResponseStart {
        handle: ch,
        context: Context::new(1234),
        status: ok_status(),
        content_type: String::from("text/plain"),
        length: None,
        headers: vec![(String::from("x-magic"), String::from("frobbins"))],
    };
    let msg = user_request(&r, grease::http::Request::ResponseStart(Box::new(start)));
    step(&mut r, msg, None);
    expect_send(
        &mut r,
        "HTTP/1.1 200 OK\r\nServer: grease/http\r\nContent-Type: text/plain\r\nx-magic: frobbins\r\n\r\n"
            .as_bytes(),
    );
    match r.user_rx.recv() {
        Ok(Message::Confirmation(ConfirmationTask::Http(Confirmation::ResponseStart(x)))) => {
            assert_eq!(x.handle, ch);
            assert_eq!(x.context, Context::new(1234));
            assert!(x.result.is_ok());
        }
        _ => panic!("Bad match"),
    }

    let body = Vec::from("One two, Rust on my shoe");
    let msg = user_request(
        &r,
        grease::http::Request::ResponseBody(Box::new(ReqResponseBody {
            handle: ch,
            context: Context::new(5678),
            data: body.clone(),
        })),
    );
    step(&mut r, msg, None);
    expect_send(&mut r, &body);
    expect_body_cfm(&r, ch, Context::new(5678), true);

    let msg = user_request(
        &r,
        grease::http::Request::ResponseBody(Box::new(ReqResponseBody {
            handle: ch,
            context: Context::new(5678),
            data: Vec::new(),
        })),
    );
    step(&mut r, msg, None);
    expect_close(&mut r);
    expect_body_cfm(&r, ch, Context::new(5678), true);
    expect_closed(&r, ch);
    assert!(r.user_rx.check_empty().is_ok());
}

#[test]
fn basic_get_fixed_len() {
    let mut r = rig(None);
    let sh = bind(&mut r);
    let ch = get_request(&mut r, sh);

    let start = ReqResponseStart {
        handle: ch,
        context: Context::new(1234),
        status: ok_status(),
        content_type: String::from("text/plain"),
        length: Some(24),
        headers: vec![(String::from("x-magic"), String::from("frobbins"))],
    };
    let msg = user_request(&r, grease::http::Request::ResponseStart(Box::new(start)));
    step(&mut r, msg, None);
    expect_send(
        &mut r,
        "HTTP/1.1 200 OK\r\nServer: grease/http\r\nContent-Length: 24\r\nContent-Type: text/plain\r\nx-magic: frobbins\r\n\r\n"
            .as_bytes(),
    );
    let _ = r.user_rx.recv();

    let body = Vec::from("One two, Rust on my shoe");
    let msg = user_request(
        &r,
        grease::http::Request::ResponseBody(Box::new(ReqResponseBody {
            handle: ch,
            context: Context::new(5678),
            data: body.clone(),
        })),
    );
    step(&mut r, msg, None);
    expect_send(&mut r, &body);
    expect_body_cfm(&r, ch, Context::new(5678), true);
    expect_close(&mut r);
    expect_closed(&r, ch);
    assert!(r.user_rx.check_empty().is_ok());
}

#[test]
fn body_beyond_declared_length_is_refused() {
    let mut r = rig(None);
    let sh = bind(&mut r);
    let ch = get_request(&mut r, sh);
    let start = ReqResponseStart {
        handle: ch,
        context: Context::new(1),
        status: ok_status(),
        content_type: String::from("text/plain"),
        length: Some(4),
        headers: Vec::new(),
    };
    let msg = user_request(&r, grease::http::Request::ResponseStart(Box::new(start)));
    step(&mut r, msg, None);
    let _ = r.socket_rx.recv();
    let msg = user_request(
        &r,
        grease::http::Request::ResponseBody(Box::new(ReqResponseBody {
            handle: ch,
            context: Context::new(2),
            data: vec![1u8; 5],
        })),
    );
    step(&mut r, msg, None);
    match r.user_rx.recv() {
        Ok(Message::Confirmation(ConfirmationTask::Http(Confirmation::ResponseBody(x)))) => {
            assert_eq!(x.context, Context::new(2));
            assert!(matches!(x.result, Err(Error::BadHandle)));
        }
        _ => panic!("Bad match"),
    }
    assert!(r.socket_rx.check_empty().is_ok());
}

#[test]
fn zero_length_response_closes_after_the_head() {
    let mut r = rig(None);
    let sh = bind(&mut r);
    let ch = get_request(&mut r, sh);
    let start = ReqResponseStart {
        handle: ch,
        context: Context::new(1),
        status: HttpResponseStatus { code: 204, reason: String::from("No Content") },
        content_type: String::from("text/plain"),
        length: Some(0),
        headers: vec![(String::from("Server"), String::from("mine"))],
    };
    let msg = user_request(&r, grease::http::Request::ResponseStart(Box::new(start)));
    step(&mut r, msg, None);
    expect_send(
        &mut r,
        "HTTP/1.1 204 No Content\r\nContent-Length: 0\r\nContent-Type: text/plain\r\nServer: mine\r\n\r\n"
            .as_bytes(),
    );
    match r.user_rx.recv() {
        Ok(Message::Confirmation(ConfirmationTask::Http(Confirmation::ResponseStart(x)))) => {
            assert!(x.result.is_ok());
        }
        _ => panic!("Bad match"),
    }
    expect_close(&mut r);
    expect_closed(&r, ch);
    let msg = user_request(
        &r,
        grease::http::Request::ResponseBody(Box::new(ReqResponseBody {
            handle: ch,
            context: Context::new(2),
            data: vec![1u8; 1],
        })),
    );
    step(&mut r, msg, None);
    expect_body_cfm(&r, ch, Context::new(2), false);
}

#[test]
fn response_on_unknown_handle_is_bad_handle() {
    let mut r = rig(None);
    let start = ReqResponseStart {
        handle: Context::new(77),
        context: Context::new(1),
        status: ok_status(),
        content_type: String::from("text/plain"),
        length: None,
        headers: Vec::new(),
    };
    let msg = user_request(&r, grease::http::Request::ResponseStart(Box::new(start)));
    step(&mut r, msg, None);
    match r.user_rx.recv() {
        Ok(Message::Confirmation(ConfirmationTask::Http(Confirmation::ResponseStart(x)))) => {
            assert_eq!(x.handle, Context::new(77));
            assert!(matches!(x.result, Err(Error::BadHandle)));
        }
        _ => panic!("Bad match"),
    }
}

#[test]
fn bad_request_gets_error_page_and_close() {
    let page = Vec::from("HTTP/1.0 400 Bad Request\r\n\r\nBad Request");
    let mut r = rig(Some(page.clone()));
    let _sh = bind(&mut r);
    let ind = socket::IndConnected {
        listen_handle: Context::new(4),
        conn_handle: Context::new(5),
        peer: SocketAddr::v4(127, 0, 0, 1, 56789),
    };
    step(&mut r, socket_ind(socket::Indication::Connected(Box::new(ind))), None);
    let ind = socket::IndReceived { handle: Context::new(5), data: Vec::from("NONSENSE") };
    step(&mut r, socket_ind(socket::Indication::Received(Box::new(ind))), Some(ParseOutcome::Invalid));
    match r.socket_rx.recv() {
        Ok(Message::Request(_, RequestTask::Socket(socket::Request::Send(x)))) => {
            assert_eq!(x.handle, Context::new(5));
            assert_eq!(x.context, Context::new(0));
            assert_eq!(x.data, page);
        }
        _ => panic!("Bad match"),
    }
    match r.socket_rx.recv() {
        Ok(Message::Request(_, RequestTask::Socket(socket::Request::Close(x)))) => {
            assert_eq!(x.handle, Context::new(5));
            assert_eq!(x.context, Context::new(0));
        }
        _ => panic!("Bad match"),
    }
    match r.socket_rx.recv() {
        Ok(Message::Response(ResponseTask::Socket(socket::Response::Received(x)))) => {
            assert_eq!(x.handle, Context::new(5));
        }
        _ => panic!("Bad match"),
    }
    assert!(!r.task.receives(Context::new(5)));
    assert!(r.user_rx.check_empty().is_ok());
}

#[test]
fn partial_request_waits_for_more_data() {
    let mut r = rig(None);
    let _sh = bind(&mut r);
    let ind = socket::IndConnected {
        listen_handle: Context::new(4),
        conn_handle: Context::new(5),
        peer: SocketAddr::v4(127, 0, 0, 1, 56789),
    };
    step(&mut r, socket_ind(socket::Indication::Connected(Box::new(ind))), None);
    let ind = socket::IndReceived { handle: Context::new(5), data: Vec::from("GET /") };
    step(&mut r, socket_ind(socket::Indication::Received(Box::new(ind))), Some(ParseOutcome::InProgress));
    assert!(matches!(
        r.socket_rx.recv(),
        Ok(Message::Response(ResponseTask::Socket(socket::Response::Received(_))))
    ));
    assert!(r.user_rx.check_empty().is_ok());
    assert!(r.task.receives(Context::new(5)));
}

#[test]
fn data_on_unknown_connection_is_only_answered() {
    let mut r = rig(None);
    assert!(!r.task.receives(Context::new(5)));
    let ind = socket::IndReceived { handle: Context::new(5), data: Vec::from("GET /") };
    step(&mut r, socket_ind(socket::Indication::Received(Box::new(ind))), None);
    assert!(matches!(
        r.socket_rx.recv(),
        Ok(Message::Response(ResponseTask::Socket(socket::Response::Received(_))))
    ));
}

#[test]
fn dropped_connection_is_reported_closed() {
    let mut r = rig(None);
    let sh = bind(&mut r);
    let ch = get_request(&mut r, sh);
    step(&mut r, socket_ind(socket::Indication::Dropped(Box::new(socket::IndDropped { handle: Context::new(5) }))), None);
    expect_closed(&r, ch);
    assert!(!r.task.receives(Context::new(5)));
}

#[test]
fn connection_on_unknown_listener_is_ignored() {
    let mut r = rig(None);
    let _sh = bind(&mut r);
    let ind = socket::IndConnected {
        listen_handle: Context::new(40),
        conn_handle: Context::new(5),
        peer: SocketAddr::v4(127, 0, 0, 1, 56789),
    };
    step(&mut r, socket_ind(socket::Indication::Connected(Box::new(ind))), None);
    assert!(!r.task.receives(Context::new(5)));
}

#[test]
fn render_response_adds_missing_headers() {
    let s = render_response(&ok_status(), "text/html", Some(12), &Vec::new());
    assert_eq!(
        s,
        "HTTP/1.1 200 OK\r\nServer: grease/http\r\nContent-Length: 12\r\nContent-Type: text/html\r\n\r\n"
    );
    let given = vec![
        (String::from("content-length"), String::from("3")),
        (String::from("CONTENT-TYPE"), String::from("a/b")),
    ];
    let s = render_response(&ok_status(), "text/html", Some(12), &given);
    assert_eq!(
        s,
        "HTTP/1.1 200 OK\r\nServer: grease/http\r\ncontent-length: 3\r\nCONTENT-TYPE: a/b\r\n\r\n"
    );
}

#[test]
fn unexpected_message_is_dropped() {
    let mut r = rig(None);
    let cfm = socket::CfmUnbind { handle: Context::new(1), result: Ok(()), context: Context::new(1) };
    let outs = r.task.handle(socket_cfm(socket::Confirmation::Unbind(Box::new(cfm))), None);
    assert!(outs.is_empty());
    let ind = grease::http::IndClosed { handle: Context::new(1) };
    let outs = r.task.handle(Message::Indication(IndicationTask::Http(Indication::Closed(Box::new(ind)))), None);
    assert!(outs.is_empty());
}

#[test]
fn drop_before_any_request_tells_nobody() {
    let mut r = rig(None);
    let _sh = bind(&mut r);
    let ind = socket::IndConnected {
        listen_handle: Context::new(4),
        conn_handle: Context::new(5),
        peer: SocketAddr::v4(127, 0, 0, 1, 56789),
    };
    step(&mut r, socket_ind(socket::Indication::Connected(Box::new(ind))), None);
    assert!(r.task.receives(Context::new(5)));
    step(&mut r, socket_ind(socket::Indication::Dropped(Box::new(socket::IndDropped { handle: Context::new(5) }))), None);
    assert!(r.user_rx.check_empty().is_ok());
    assert!(!r.task.receives(Context::new(5)));
}

#[test]
fn data_with_a_parse_on_unknown_connection_is_only_answered() {
    let mut r = rig(None);
    let ind = socket::IndReceived { handle: Context::new(5), data: Vec::from("GET /") };
    let outs = r.task.handle(socket_ind(socket::Indication::Received(Box::new(ind))), Some(ParseOutcome::InProgress));
    assert_eq!(outs.len(), 1);
    flush(outs);
    assert!(matches!(
        r.socket_rx.recv(),
        Ok(Message::Response(ResponseTask::Socket(socket::Response::Received(_))))
    ));
    assert!(r.task.contexts_left());
}
