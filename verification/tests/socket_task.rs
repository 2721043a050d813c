use grease::address::SocketAddr;
use grease::socket::{
    CfmSend, Confirmation, Indication, ReadyStep, ReqBind, ReqClose, ReqSend, ReqUnbind,
    RspReceived, SocketError, TaskContext, MAX_READ_LEN,
};
use grease::{make_channel, ConfirmationTask, Context, IndicationTask, Message, MessageReceiver, Outgoing};

fn send_all(outs: Vec<Outgoing>) {
    for o in outs {
        assert!(o.send().is_ok());
    }
}

fn cfm_send(rx: &MessageReceiver) -> Box<CfmSend> {
    match rx.recv() {
        Ok(Message::Confirmation(ConfirmationTask::Socket(Confirmation::Send(x)))) => x,
        _ => panic!("Bad match"),
    }
}

/// A task with one listener (handle 1, bound by `user`) and one connection
/// on it (handle 2).
fn connected(user: &grease::MessageSender) -> TaskContext {
    let mut t = TaskContext::new();
    let req = ReqBind { addr: SocketAddr::v4(127, 0, 1, 1, 8000), context: Context::new(1) };
    send_all(t.handle_bind(&req, user, Ok(()), Ok(())));
    send_all(t.accept(Context::new(1), SocketAddr::v4(127, 0, 0, 1, 40000)));
    t
}

#[test]
fn bind_port_ok() {
    let mut t = TaskContext::new();
    let (reply_to, test_rx) = make_channel();
    assert_eq!(t.upcoming_handle(), Context::new(1));
    let req = ReqBind { addr: SocketAddr::v4(127, 0, 1, 1, 8000), context: Context::new(1234) };
    send_all(t.handle_bind(&req, &reply_to, Ok(()), Ok(())));
    match test_rx.recv() {
        Ok(Message::Confirmation(ConfirmationTask::Socket(Confirmation::Bind(x)))) => {
            assert_eq!(x.context, Context::new(1234));
            assert_eq!(x.result.unwrap(), Context::new(1));
        }
        _ => panic!("Bad match"),
    }
    assert_eq!(t.upcoming_handle(), Context::new(2));
}

#[test]
fn bind_port_fail() {
    let mut t = TaskContext::new();
    let (reply_to, test_rx) = make_channel();
    let req = ReqBind { addr: SocketAddr::v4(127, 0, 1, 1, 22), context: Context::new(5678) };
    let err = SocketError::IOError(std::io::ErrorKind::PermissionDenied);
    send_all(t.handle_bind(&req, &reply_to, Err(err), Ok(())));
    match test_rx.recv() {
        Ok(Message::Confirmation(ConfirmationTask::Socket(Confirmation::Bind(x)))) => {
            assert_eq!(x.context, Context::new(5678));
            assert!(matches!(
                x.result,
                Err(SocketError::IOError(std::io::ErrorKind::PermissionDenied))
            ));
        }
        _ => panic!("Bad match"),
    }
    assert_eq!(t.upcoming_handle(), Context::new(1));
}

#[test]
fn register_fail_uses_up_the_handle() {
    let mut t = TaskContext::new();
    let (reply_to, test_rx) = make_channel();
    let req = ReqBind { addr: SocketAddr::v4(127, 0, 1, 1, 8010), context: Context::new(6667) };
    let err = SocketError::IOError(std::io::ErrorKind::Other);
    send_all(t.handle_bind(&req, &reply_to, Ok(()), Err(err)));
    match test_rx.recv() {
        Ok(Message::Confirmation(ConfirmationTask::Socket(Confirmation::Bind(x)))) => {
            assert_eq!(x.context, Context::new(6667));
            assert!(x.result.is_err());
        }
        _ => panic!("Bad match"),
    }
    assert_eq!(t.upcoming_handle(), Context::new(2));
    assert_eq!(t.ready(1, true, false, false, false), vec![]);
}

#[test]
fn accept_tells_the_listener_user() {
    let mut t = TaskContext::new();
    let (reply_to, test_rx) = make_channel();
    let req = ReqBind { addr: SocketAddr::v4(127, 0, 1, 1, 8001), context: Context::new(5678) };
    send_all(t.handle_bind(&req, &reply_to, Ok(()), Ok(())));
    let _ = test_rx.recv();
    let peer = SocketAddr::v4(127, 0, 0, 1, 40000);
    send_all(t.accept(Context::new(1), peer));
    match test_rx.recv() {
        Ok(Message::Indication(IndicationTask::Socket(Indication::Connected(x)))) => {
            assert_eq!(x.listen_handle, Context::new(1));
            assert_eq!(x.conn_handle, Context::new(2));
            assert_eq!(x.peer, peer);
        }
        _ => panic!("Bad match"),
    }
    assert!(t.wants_read(Context::new(2)));
    assert!(t.wants_write(Context::new(2)));
}

#[test]
fn ready_plans_each_readiness() {
    let (user, _rx) = make_channel();
    let t = connected(&user);
    assert_eq!(t.ready(0, true, false, false, false), vec![ReadyStep::ReceiveMessage]);
    assert_eq!(t.ready(1, true, true, false, true), vec![ReadyStep::Accept(Context::new(1))]);
    assert_eq!(
        t.ready(2, true, true, false, false),
        vec![ReadyStep::Read(Context::new(2)), ReadyStep::WritePending(Context::new(2))]
    );
    assert_eq!(
        t.ready(2, false, false, true, true),
        vec![ReadyStep::Drop(Context::new(2))]
    );
    assert_eq!(t.ready(2, false, false, false, true), vec![ReadyStep::Drop(Context::new(2))]);
    assert_eq!(t.ready(9, true, true, true, true), vec![]);
}

#[test]
fn read_passes_data_up_once_until_answered() {
    let (user, user_rx) = make_channel();
    let mut t = connected(&user);
    let _ = user_rx.recv();
    let _ = user_rx.recv();
    let mut buffer = vec![0u8; MAX_READ_LEN];
    buffer[0] = 7;
    buffer[1] = 8;
    buffer[2] = 9;
    send_all(t.handle_read(Context::new(2), buffer, Ok(3)));
    match user_rx.recv() {
        Ok(Message::Indication(IndicationTask::Socket(Indication::Received(x)))) => {
            assert_eq!(x.handle, Context::new(2));
            assert_eq!(x.data, vec![7u8, 8, 9]);
        }
        _ => panic!("Bad match"),
    }
    assert!(!t.wants_read(Context::new(2)));
    assert!(t.handle_received(&RspReceived { handle: Context::new(2) }));
    assert!(t.wants_read(Context::new(2)));
    assert!(!t.handle_received(&RspReceived { handle: Context::new(99) }));
}

#[test]
fn empty_read_passes_nothing_up() {
    let (user, user_rx) = make_channel();
    let mut t = connected(&user);
    let _ = user_rx.recv();
    let _ = user_rx.recv();
    send_all(t.handle_read(Context::new(2), vec![0u8; MAX_READ_LEN], Ok(0)));
    send_all(t.handle_read(Context::new(2), vec![0u8; MAX_READ_LEN], Err(SocketError::Dropped)));
    assert!(user_rx.check_empty().is_ok());
    assert!(t.wants_read(Context::new(2)));
}

#[test]
fn send_all_at_once_is_confirmed() {
    let (user, _user_rx) = make_channel();
    let mut t = connected(&user);
    let (req_tx, req_rx) = make_channel();
    let req = ReqSend { handle: Context::new(2), context: Context::new(1234), data: vec![1u8; 1024] };
    assert!(t.wants_write(Context::new(2)));
    send_all(t.handle_send(&req, &req_tx, Some(Ok(1024))));
    let x = cfm_send(&req_rx);
    assert_eq!(x.handle, Context::new(2));
    assert_eq!(x.context, Context::new(1234));
    assert_eq!(x.result.unwrap(), 1024);
}

#[test]
fn send_error_is_confirmed() {
    let (user, _user_rx) = make_channel();
    let mut t = connected(&user);
    let (req_tx, req_rx) = make_channel();
    let req = ReqSend { handle: Context::new(2), context: Context::new(5), data: vec![1u8; 16] };
    send_all(t.handle_send(&req, &req_tx, Some(Err(SocketError::IOError(std::io::ErrorKind::BrokenPipe)))));
    assert!(cfm_send(&req_rx).result.is_err());
    assert!(t.next_pending_write(Context::new(2)).is_none());
}

#[test]
fn send_on_unknown_handle_is_bad_handle() {
    let mut t = TaskContext::new();
    let (req_tx, req_rx) = make_channel();
    let req = ReqSend { handle: Context::new(7), context: Context::new(5), data: vec![1u8; 16] };
    assert!(!t.wants_write(Context::new(7)));
    send_all(t.handle_send(&req, &req_tx, None));
    let x = cfm_send(&req_rx);
    assert_eq!(x.handle, Context::new(7));
    assert!(matches!(x.result, Err(SocketError::BadHandle)));
}

#[test]
fn partial_write_is_queued_then_completed_in_order() {
    let (user, _user_rx) = make_channel();
    let mut t = connected(&user);
    let (req_tx, req_rx) = make_channel();
    let first = ReqSend { handle: Context::new(2), context: Context::new(1), data: vec![1u8; 100] };
    send_all(t.handle_send(&first, &req_tx, Some(Ok(40))));
    assert!(req_rx.check_empty().is_ok());
    assert!(!t.wants_write(Context::new(2)));
    let second = ReqSend { handle: Context::new(2), context: Context::new(2), data: vec![2u8; 10] };
    send_all(t.handle_send(&second, &req_tx, None));
    assert!(req_rx.check_empty().is_ok());

    let (data, sent) = t.next_pending_write(Context::new(2)).unwrap();
    assert_eq!(data.len(), 100);
    assert_eq!(sent, 40);
    let (outs, more, _) = t.pending_write_done(Context::new(2), Ok(20));
    assert!(outs.is_empty());
    assert!(!more);
    let (_, sent) = t.next_pending_write(Context::new(2)).unwrap();
    assert_eq!(sent, 60);
    let (outs, more, _) = t.pending_write_done(Context::new(2), Ok(40));
    assert!(more);
    send_all(outs);
    let x = cfm_send(&req_rx);
    assert_eq!(x.context, Context::new(1));
    assert_eq!(x.result.unwrap(), 100);
    let (data, sent) = t.next_pending_write(Context::new(2)).unwrap();
    assert_eq!(data, &vec![2u8; 10]);
    assert_eq!(sent, 0);
    let (outs, more, _) = t.pending_write_done(Context::new(2), Ok(10));
    assert!(more);
    send_all(outs);
    let x = cfm_send(&req_rx);
    assert_eq!(x.context, Context::new(2));
    assert_eq!(x.result.unwrap(), 10);
    assert!(t.next_pending_write(Context::new(2)).is_none());
    assert!(t.wants_write(Context::new(2)));
}

#[test]
fn pending_write_error_drops_it() {
    let (user, _user_rx) = make_channel();
    let mut t = connected(&user);
    let (req_tx, req_rx) = make_channel();
    let first = ReqSend { handle: Context::new(2), context: Context::new(1), data: vec![1u8; 100] };
    send_all(t.handle_send(&first, &req_tx, Some(Ok(0))));
    let (outs, more, _) = t.pending_write_done(Context::new(2), Err(SocketError::Dropped));
    assert!(!more);
    send_all(outs);
    let x = cfm_send(&req_rx);
    assert_eq!(x.context, Context::new(1));
    assert!(x.result.is_err());
    assert!(t.next_pending_write(Context::new(2)).is_none());
}

#[test]
fn dropped_connection_fails_queued_writes() {
    let (user, user_rx) = make_channel();
    let mut t = connected(&user);
    let _ = user_rx.recv();
    let _ = user_rx.recv();
    let (req_tx, req_rx) = make_channel();
    let first = ReqSend { handle: Context::new(2), context: Context::new(11), data: vec![1u8; 100] };
    send_all(t.handle_send(&first, &req_tx, Some(Ok(5))));
    let second = ReqSend { handle: Context::new(2), context: Context::new(12), data: vec![1u8; 10] };
    send_all(t.handle_send(&second, &req_tx, None));
    send_all(t.dropped(Context::new(2)));
    match user_rx.recv() {
        Ok(Message::Indication(IndicationTask::Socket(Indication::Dropped(x)))) => {
            assert_eq!(x.handle, Context::new(2));
        }
        _ => panic!("Bad match"),
    }
    let a = cfm_send(&req_rx);
    let b = cfm_send(&req_rx);
    assert_eq!(a.context, Context::new(11));
    assert_eq!(b.context, Context::new(12));
    assert!(matches!(a.result, Err(SocketError::Dropped)));
    assert!(matches!(b.result, Err(SocketError::Dropped)));
    assert!(!t.wants_read(Context::new(2)));
    assert_eq!(t.ready(2, true, true, true, true), vec![]);
}

#[test]
fn close_flushes_queued_writes_first() {
    let (user, _user_rx) = make_channel();
    let mut t = connected(&user);
    let (req_tx, req_rx) = make_channel();
    let first = ReqSend { handle: Context::new(2), context: Context::new(11), data: vec![1u8; 100] };
    send_all(t.handle_send(&first, &req_tx, Some(Ok(5))));
    let (outs, close_now) = t.handle_close(&ReqClose { handle: Context::new(2), context: Context::new(3) }, &req_tx);
    assert!(outs.is_empty());
    assert!(!close_now);
    assert!(req_rx.check_empty().is_ok());
    // A second close while the first waits is refused.
    let (outs, close_now) = t.handle_close(&ReqClose { handle: Context::new(2), context: Context::new(4) }, &req_tx);
    assert!(!close_now);
    send_all(outs);
    match req_rx.recv() {
        Ok(Message::Confirmation(ConfirmationTask::Socket(Confirmation::Close(x)))) => {
            assert_eq!(x.context, Context::new(4));
            assert!(matches!(x.result, Err(SocketError::BadHandle)));
        }
        _ => panic!("Bad match"),
    }
    // The rest of the queued data goes out, then the close is confirmed.
    let (data, sent) = t.next_pending_write(Context::new(2)).unwrap();
    assert_eq!(data.len() - sent, 95);
    let (outs, more, closed) = t.pending_write_done(Context::new(2), Ok(95));
    assert!(!more);
    assert!(closed);
    send_all(outs);
    let a = cfm_send(&req_rx);
    assert_eq!(a.context, Context::new(11));
    assert_eq!(a.result.unwrap(), 100);
    match req_rx.recv() {
        Ok(Message::Confirmation(ConfirmationTask::Socket(Confirmation::Close(x)))) => {
            assert_eq!(x.handle, Context::new(2));
            assert_eq!(x.context, Context::new(3));
            assert!(x.result.is_ok());
        }
        _ => panic!("Bad match"),
    }
    assert!(!t.wants_read(Context::new(2)));
    let (outs, close_now) = t.handle_close(&ReqClose { handle: Context::new(2), context: Context::new(5) }, &req_tx);
    assert!(!close_now);
    send_all(outs);
    match req_rx.recv() {
        Ok(Message::Confirmation(ConfirmationTask::Socket(Confirmation::Close(x)))) => {
            assert!(matches!(x.result, Err(SocketError::BadHandle)));
        }
        _ => panic!("Bad match"),
    }
}

#[test]
fn close_with_nothing_queued_is_immediate() {
    let (user, _user_rx) = make_channel();
    let mut t = connected(&user);
    let (req_tx, req_rx) = make_channel();
    let (outs, close_now) = t.handle_close(&ReqClose { handle: Context::new(2), context: Context::new(3) }, &req_tx);
    assert!(close_now);
    send_all(outs);
    match req_rx.recv() {
        Ok(Message::Confirmation(ConfirmationTask::Socket(Confirmation::Close(x)))) => {
            assert_eq!(x.context, Context::new(3));
            assert!(x.result.is_ok());
        }
        _ => panic!("Bad match"),
    }
}

#[test]
fn drop_while_closing_fails_the_close() {
    let (user, user_rx) = make_channel();
    let mut t = connected(&user);
    let _ = user_rx.recv();
    let _ = user_rx.recv();
    let (req_tx, req_rx) = make_channel();
    let first = ReqSend { handle: Context::new(2), context: Context::new(11), data: vec![1u8; 100] };
    send_all(t.handle_send(&first, &req_tx, Some(Ok(5))));
    let (outs, _) = t.handle_close(&ReqClose { handle: Context::new(2), context: Context::new(3) }, &req_tx);
    send_all(outs);
    send_all(t.dropped(Context::new(2)));
    let a = cfm_send(&req_rx);
    assert!(matches!(a.result, Err(SocketError::Dropped)));
    match req_rx.recv() {
        Ok(Message::Confirmation(ConfirmationTask::Socket(Confirmation::Close(x)))) => {
            assert_eq!(x.context, Context::new(3));
            assert!(matches!(x.result, Err(SocketError::Dropped)));
        }
        _ => panic!("Bad match"),
    }
}

#[test]
fn unbind_is_not_implemented() {
    let t = TaskContext::new();
    let (req_tx, req_rx) = make_channel();
    send_all(t.handle_unbind(&ReqUnbind { handle: Context::new(1), context: Context::new(8) }, &req_tx));
    match req_rx.recv() {
        Ok(Message::Confirmation(ConfirmationTask::Socket(Confirmation::Unbind(x)))) => {
            assert_eq!(x.handle, Context::new(1));
            assert_eq!(x.context, Context::new(8));
            assert!(matches!(x.result, Err(SocketError::NotImplemented)));
        }
        _ => panic!("Bad match"),
    }
}

/// Binds `addr` with context 5678 and returns the listen handle.
fn bind_listener(t: &mut TaskContext, reply_to: &grease::MessageSender, rx: &MessageReceiver, addr: SocketAddr) -> Context {
    let req = ReqBind { addr, context: Context::new(5678) };
    send_all(t.handle_bind(&req, reply_to, Ok(()), Ok(())));
    match rx.recv() {
        Ok(Message::Confirmation(ConfirmationTask::Socket(Confirmation::Bind(x)))) => {
            assert_eq!(x.context, Context::new(5678));
            x.result.unwrap()
        }
        _ => panic!("Bad match"),
    }
}

/// A connection from `peer` arrives on `listen_handle`, as the readiness
/// loop would see it. Returns the connection handle.
fn connect_to(t: &mut TaskContext, rx: &MessageReceiver, listen_handle: Context, peer: SocketAddr) -> Context {
    assert_eq!(t.ready(listen_handle.as_usize(), true, false, false, false), vec![ReadyStep::Accept(listen_handle)]);
    send_all(t.accept(listen_handle, peer));
    match rx.recv() {
        Ok(Message::Indication(IndicationTask::Socket(Indication::Connected(x)))) => {
            assert_eq!(x.listen_handle, listen_handle);
            assert_eq!(x.peer, peer);
            x.conn_handle
        }
        _ => panic!("Bad match"),
    }
}

/// The peer hangs up on `conn_handle`, as the readiness loop would see it.
fn hang_up(t: &mut TaskContext, rx: &MessageReceiver, conn_handle: Context) {
    assert_eq!(t.ready(conn_handle.as_usize(), false, false, false, true), vec![ReadyStep::Drop(conn_handle)]);
    send_all(t.dropped(conn_handle));
    match rx.recv() {
        Ok(Message::Indication(IndicationTask::Socket(Indication::Dropped(x)))) => {
            assert_eq!(x.handle, conn_handle);
        }
        _ => panic!("Bad match"),
    }
}

fn test_data(len: usize) -> Vec<u8> {
    (0..len).map(|i| (i * 7 % 251) as u8).collect()
}

#[test]
fn bind_if_fail() {
    let mut t = TaskContext::new();
    let (reply_to, test_rx) = make_channel();
    let req = ReqBind { addr: SocketAddr::v4(8, 8, 8, 8, 8000), context: Context::new(6666) };
    let err = SocketError::IOError(std::io::ErrorKind::AddrNotAvailable);
    send_all(t.handle_bind(&req, &reply_to, Err(err), Ok(())));
    match test_rx.recv() {
        Ok(Message::Confirmation(ConfirmationTask::Socket(Confirmation::Bind(x)))) => {
            assert_eq!(x.context, Context::new(6666));
            assert!(x.result.is_err());
        }
        _ => panic!("Bad match"),
    }
}

#[test]
fn connect() {
    let mut t = TaskContext::new();
    let (reply_to, test_rx) = make_channel();
    let listen_handle = bind_listener(&mut t, &reply_to, &test_rx, SocketAddr::v4(127, 0, 1, 1, 8001));
    let conn_handle = connect_to(&mut t, &test_rx, listen_handle, SocketAddr::v4(127, 0, 0, 1, 41001));
    hang_up(&mut t, &test_rx, conn_handle);
    assert!(test_rx.check_empty().is_ok());
}

#[test]
fn two_connections() {
    let mut t = TaskContext::new();
    let (reply_to, test_rx) = make_channel();
    let listen_handle8002 = bind_listener(&mut t, &reply_to, &test_rx, SocketAddr::v4(127, 0, 1, 1, 8002));
    let listen_handle8003 = bind_listener(&mut t, &reply_to, &test_rx, SocketAddr::v4(127, 0, 1, 1, 8003));
    assert!(listen_handle8002 != listen_handle8003);
    let conn_handle8003 = connect_to(&mut t, &test_rx, listen_handle8003, SocketAddr::v4(127, 0, 0, 1, 41003));
    let conn_handle8002 = connect_to(&mut t, &test_rx, listen_handle8002, SocketAddr::v4(127, 0, 0, 1, 41002));
    assert!(conn_handle8002 != conn_handle8003);
    hang_up(&mut t, &test_rx, conn_handle8002);
    hang_up(&mut t, &test_rx, conn_handle8003);
    assert!(test_rx.check_empty().is_ok());
}

#[test]
fn send_data() {
    let mut t = TaskContext::new();
    let (reply_to, test_rx) = make_channel();
    let listen_handle = bind_listener(&mut t, &reply_to, &test_rx, SocketAddr::v4(127, 0, 1, 1, 8004));
    let conn_handle = connect_to(&mut t, &test_rx, listen_handle, SocketAddr::v4(127, 0, 0, 1, 41004));

    // The peer writes 1024 octets; each readable event reads what fits in
    // one buffer, and the user answers each IndReceived.
    let data = test_data(1024);
    let mut rx_data: Vec<u8> = Vec::new();
    let mut offset = 0;
    while rx_data.len() < data.len() {
        assert_eq!(t.ready(conn_handle.as_usize(), true, false, false, false), vec![ReadyStep::Read(conn_handle)]);
        assert!(t.wants_read(conn_handle));
        let left = data.len() - offset;
        let n = if left < MAX_READ_LEN { left } else { MAX_READ_LEN };
        let mut buffer = vec![0u8; MAX_READ_LEN];
        buffer[..n].copy_from_slice(&data[offset..offset + n]);
        offset += n;
        send_all(t.handle_read(conn_handle, buffer, Ok(n)));
        assert!(!t.wants_read(conn_handle));
        match test_rx.recv() {
            Ok(Message::Indication(IndicationTask::Socket(Indication::Received(x)))) => {
                assert_eq!(x.handle, conn_handle);
                assert!(x.data.len() <= MAX_READ_LEN);
                rx_data.append(&mut x.data.clone());
                assert!(t.handle_received(&RspReceived { handle: x.handle }));
            }
            _ => panic!("Bad match"),
        };
    }
    assert_eq!(rx_data, data);
    hang_up(&mut t, &test_rx, conn_handle);
}

#[test]
fn receive_data() {
    let mut t = TaskContext::new();
    let (reply_to, test_rx) = make_channel();
    let listen_handle = bind_listener(&mut t, &reply_to, &test_rx, SocketAddr::v4(127, 0, 1, 1, 8005));
    let conn_handle = connect_to(&mut t, &test_rx, listen_handle, SocketAddr::v4(127, 0, 0, 1, 41005));
    assert!(test_rx.check_empty().is_ok());

    // The user sends 1024 octets; the first write takes 512 of them.
    let data = test_data(1024);
    let req = ReqSend { handle: conn_handle, context: Context::new(1234), data: data.clone() };
    assert!(t.wants_write(conn_handle));
    let mut on_the_wire: Vec<u8> = data[..512].to_vec();
    send_all(t.handle_send(&req, &reply_to, Some(Ok(512))));
    assert!(test_rx.check_empty().is_ok());

    // The connection becomes writable again and takes the rest.
    assert_eq!(t.ready(conn_handle.as_usize(), false, true, false, false), vec![ReadyStep::WritePending(conn_handle)]);
    let (rest, sent) = t.next_pending_write(conn_handle).unwrap();
    on_the_wire.extend_from_slice(&rest[sent..]);
    let n = rest.len() - sent;
    let (outs, more, _) = t.pending_write_done(conn_handle, Ok(n));
    assert!(more);
    assert!(t.next_pending_write(conn_handle).is_none());
    send_all(outs);
    assert_eq!(on_the_wire, data);

    let x = cfm_send(&test_rx);
    assert_eq!(x.handle, conn_handle);
    if let Ok(len) = x.result {
        assert_eq!(len, data.len())
    } else {
        panic!("Didn't get OK in CfmSend");
    }
    assert_eq!(x.context, Context::new(1234));
    hang_up(&mut t, &test_rx, conn_handle);
}

#[test]
fn echo_sends_received_data_back() {
    let (socket_tx, socket_rx) = make_channel();
    let (us, _us_rx) = make_channel();
    let mut echo = grease::echo::EchoTask::new(socket_tx, us);
    for n in 0..2usize {
        let ind = grease::socket::IndReceived { handle: Context::new(9), data: vec![1u8, 2, 3] };
        let msg = Message::Indication(IndicationTask::Socket(Indication::Received(Box::new(ind))));
        send_all(echo.handle(&msg));
        match socket_rx.recv() {
            Ok(Message::Response(grease::ResponseTask::Socket(grease::socket::Response::Received(x)))) => {
                assert_eq!(x.handle, Context::new(9));
            }
            _ => panic!("Bad match"),
        }
        match socket_rx.recv() {
            Ok(Message::Request(_, grease::RequestTask::Socket(grease::socket::Request::Send(x)))) => {
                assert_eq!(x.handle, Context::new(9));
                assert_eq!(x.data, vec![1u8, 2, 3]);
                assert_eq!(x.context, Context::new(n));
                assert_eq!(x.summary(), format!("ReqSend {{ handle: Context(9), data.len: 3 }}"));
            }
            _ => panic!("Bad match"),
        }
    }
    let other = Message::Indication(IndicationTask::Socket(Indication::Dropped(Box::new(grease::socket::IndDropped { handle: Context::new(9) }))));
    assert!(echo.handle(&other).is_empty());
}

#[test]
fn received_data_is_summed_up_by_length() {
    let ind = grease::socket::IndReceived { handle: Context::new(5), data: vec![0u8; 17] };
    assert_eq!(ind.summary(), "IndReceived { handle: Context(5), data.len: 17 }");
}

#[test]
fn drop_after_close_in_the_same_event_is_harmless() {
    let (user, user_rx) = make_channel();
    let mut t = connected(&user);
    let _ = user_rx.recv();
    let _ = user_rx.recv();
    let (req_tx, req_rx) = make_channel();
    let first = ReqSend { handle: Context::new(2), context: Context::new(11), data: vec![1u8; 10] };
    send_all(t.handle_send(&first, &req_tx, Some(Ok(5))));
    let (outs, _) = t.handle_close(&ReqClose { handle: Context::new(2), context: Context::new(3) }, &req_tx);
    send_all(outs);
    // One readiness event: writable (the flush completes the close), then hang-up.
    let plan = t.ready(2, false, true, false, true);
    assert_eq!(plan, vec![ReadyStep::WritePending(Context::new(2)), ReadyStep::Drop(Context::new(2))]);
    let (outs, _, closed) = t.pending_write_done(Context::new(2), Ok(5));
    assert!(closed);
    send_all(outs);
    let _ = cfm_send(&req_rx);
    let _ = req_rx.recv();
    assert!(t.dropped(Context::new(2)).is_empty());
    assert!(user_rx.check_empty().is_ok());
}

#[test]
fn incoming_sorts_messages_by_kind() {
    let (tx, _rx) = make_channel();
    let req = ReqClose { handle: Context::new(2), context: Context::new(3) };
    let msg = Message::Request(tx.clone(), grease::RequestTask::Socket(grease::socket::Request::Close(Box::new(req))));
    assert!(matches!(grease::socket::incoming(msg), grease::socket::Incoming::Request(_, grease::socket::Request::Close(_))));
    let rsp = Message::Response(grease::ResponseTask::Socket(grease::socket::Response::Received(Box::new(RspReceived { handle: Context::new(2) }))));
    assert!(matches!(grease::socket::incoming(rsp), grease::socket::Incoming::Response(_)));
    let other = Message::Indication(IndicationTask::Socket(Indication::Dropped(Box::new(grease::socket::IndDropped { handle: Context::new(2) }))));
    assert!(matches!(grease::socket::incoming(other), grease::socket::Incoming::Unexpected(_)));
}
