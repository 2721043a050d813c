use grease::address::SocketAddr;
use grease::http::{self as http_task};
use grease::webserv::{
    Confirmation, Error, Indication, ReqSendStatusGetResult, Request, TaskContext,
};
use grease::{
    make_channel, ConfirmationTask, Context, IndicationTask, Message, MessageReceiver,
    MessageSender, RequestTask,
};

struct Rig {
    task: TaskContext,
    http_rx: MessageReceiver,
    user: MessageSender,
    user_rx: MessageReceiver,
}

fn rig() -> Rig {
    let (http_tx, http_rx) = make_channel();
    let (us, _rx) = make_channel();
    let (user, user_rx) = make_channel();
    let task = TaskContext::new(http_tx, us, user.clone());
    Rig { task, http_rx, user, user_rx }
}

fn step(r: &mut Rig, msg: Message) {
    for o in r.task.handle(msg) {
        assert!(o.send().is_ok());
    }
}

fn http_request(handle: usize, method: &str, url: &str) -> Message {
    let ind = http_task::IndConnected {
        server_handle: Context::new(2000),
        connection_handle: Context::new(handle),
        url: String::from(url),
        method: String::from(method),
        headers: vec![],
    };
    Message::Indication(IndicationTask::Http(http_task::Indication::Connected(Box::new(ind))))
}

fn closed(handle: usize) -> Message {
    let ind = http_task::IndClosed { handle: Context::new(handle) };
    Message::Indication(IndicationTask::Http(http_task::Indication::Closed(Box::new(ind))))
}

fn reply(r: &Rig, handle: usize, status: u32) -> Message {
    let req = ReqSendStatusGetResult { context: Context::new(handle), status };
    Message::Request(r.user.clone(), RequestTask::WebServ(Request::SendStatusGetResult(Box::new(req))))
}

fn result_of(rx: &MessageReceiver) -> (Context, Result<(), Error>) {
    match rx.recv() {
        Ok(Message::Confirmation(ConfirmationTask::WebServ(Confirmation::SendStatusGetResult(x)))) => {
            (x.context, x.result)
        }
        _ => panic!("Bad match"),
    }
}

#[test]
fn init_binds_port_8000() {
    let r = rig();
    for o in r.task.init() {
        assert!(o.send().is_ok());
    }
    match r.http_rx.recv() {
        Ok(Message::Request(_, RequestTask::Http(http_task::Request::Bind(x)))) => {
            assert_eq!(x.addr, SocketAddr::v4(0, 0, 0, 0, 8000));
            assert_eq!(x.context, Context::new(0));
        }
        _ => panic!("Bad match"),
    }
}

#[test]
fn get_status_is_indicated_then_answered_and_confirmed() {
    let mut r = rig();
    step(&mut r, http_request(7, "GET", "/status"));
    match r.user_rx.recv() {
        Ok(Message::Indication(IndicationTask::WebServ(Indication::StatusGetReceived(x)))) => {
            assert_eq!(x.context, Context::new(7));
        }
        _ => panic!("Bad match"),
    }
    assert!(r.http_rx.check_empty().is_ok());

    let msg = reply(&r, 7, 42);
    step(&mut r, msg);
    match r.http_rx.recv() {
        Ok(Message::Request(_, RequestTask::Http(http_task::Request::ResponseStart(x)))) => {
            assert_eq!(x.handle, Context::new(7));
            assert_eq!(x.context, Context::new(7));
            assert_eq!(x.status.code, 200);
            assert_eq!(x.status.reason, "OK");
            assert_eq!(x.content_type, "text/plain");
            assert_eq!(x.length, Some(2));
            assert!(x.headers.is_empty());
        }
        _ => panic!("Bad match"),
    }
    match r.http_rx.recv() {
        Ok(Message::Request(_, RequestTask::Http(http_task::Request::ResponseBody(x)))) => {
            assert_eq!(x.handle, Context::new(7));
            assert_eq!(x.data, b"42".to_vec());
        }
        _ => panic!("Bad match"),
    }
    // Nothing is confirmed until the connection has closed.
    assert!(r.user_rx.check_empty().is_ok());
    step(&mut r, closed(7));
    let (ctx, result) = result_of(&r.user_rx);
    assert_eq!(ctx, Context::new(7));
    assert!(result.is_ok());
    // The request is gone: a second reply is refused.
    let msg = reply(&r, 7, 1);
    step(&mut r, msg);
    let (_, result) = result_of(&r.user_rx);
    assert!(matches!(result, Err(Error::BadHandle)));
}

#[test]
fn reply_to_unknown_request_is_bad_handle() {
    let mut r = rig();
    let msg = reply(&r, 9, 0);
    step(&mut r, msg);
    let (ctx, result) = result_of(&r.user_rx);
    assert_eq!(ctx, Context::new(9));
    assert!(matches!(result, Err(Error::BadHandle)));
    assert!(r.http_rx.check_empty().is_ok());
}

#[test]
fn failed_response_is_confirmed_with_the_error() {
    let mut r = rig();
    step(&mut r, http_request(3, "GET", "/status"));
    let _ = r.user_rx.recv();
    let msg = reply(&r, 3, 5);
    step(&mut r, msg);
    let cfm = http_task::CfmResponseStart {
        context: Context::new(3),
        handle: Context::new(3),
        result: Err(http_task::Error::BadHandle),
    };
    step(&mut r, Message::Confirmation(ConfirmationTask::Http(http_task::Confirmation::ResponseStart(Box::new(cfm)))));
    let (ctx, result) = result_of(&r.user_rx);
    assert_eq!(ctx, Context::new(3));
    assert!(matches!(result, Err(Error::HttpError(http_task::Error::BadHandle))));
    step(&mut r, closed(3));
    assert!(r.user_rx.check_empty().is_ok());
}

#[test]
fn other_urls_get_not_found() {
    let mut r = rig();
    step(&mut r, http_request(4, "GET", "/other"));
    step(&mut r, http_request(5, "POST", "/status"));
    for h in [4usize, 5] {
        match r.http_rx.recv() {
            Ok(Message::Request(_, RequestTask::Http(http_task::Request::ResponseStart(x)))) => {
                assert_eq!(x.handle, Context::new(h));
                assert_eq!(x.status.code, 404);
                assert_eq!(x.status.reason, "Not Found");
                assert_eq!(x.length, Some(0));
            }
            _ => panic!("Bad match"),
        }
    }
    assert!(r.user_rx.check_empty().is_ok());
}

#[test]
fn http_answers_are_taken_without_reply() {
    let mut r = rig();
    let cfm = http_task::CfmBind { context: Context::new(0), result: Ok(Context::new(2000)) };
    step(&mut r, Message::Confirmation(ConfirmationTask::Http(http_task::Confirmation::Bind(Box::new(cfm)))));
    step(&mut r, closed(11));
    assert!(r.http_rx.check_empty().is_ok());
    assert!(r.user_rx.check_empty().is_ok());
}
