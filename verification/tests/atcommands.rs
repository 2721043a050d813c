use grease::atcommands::{ATCommand, ATRequest, ATResult};

#[test]
fn it_works() {}

#[test]
fn at_messages_hold_their_values() {
    let req = ATRequest::SendCommand(ATCommand::Dial(String::from("0123")));
    match req {
        ATRequest::SendCommand(ATCommand::Dial(s)) => assert_eq!(s, "0123"),
        _ => panic!("Bad match"),
    }
    assert!(matches!(ATResult::OK, ATResult::OK));
}
