use sqlib::error::{Error, SQError};

#[test]
fn parse_ok_status_line() {
    let err = SQError::parse("error id=0 msg=ok").expect("a status line");
    assert_eq!(err.id(), 0);
    assert_eq!(err.msg(), "ok");
    assert_eq!(SQError::parse_is_ok("error id=0 msg=ok").unwrap(), true);
}

#[test]
fn parse_is_ok_fails_on_nonzero_id() {
    match SQError::parse_is_ok("error id=1 msg=test") {
        Err(Error::SQ(e)) => {
            assert_eq!(e.id(), 1);
            assert_eq!(e.msg(), "test");
            assert!(e == SQError::new(1, "test".to_string()));
        }
        _ => panic!("expected a status error"),
    }
}

#[test]
fn parse_is_ok_of_data_line_is_false() {
    assert_eq!(SQError::parse_is_ok("not an error line").unwrap(), false);
    assert_eq!(SQError::parse_is_ok("this is no error").unwrap(), false);
    assert!(SQError::parse("not an error line").is_none());
}

#[test]
fn parse_unescapes_message() {
    let err = SQError::parse("error id=512 msg=invalid\\sclientID").unwrap();
    assert_eq!(err.id(), 512);
    assert_eq!(err.msg(), "invalid clientID");
}

#[test]
fn parse_rejects_malformed_status_lines() {
    assert!(SQError::parse("error id=x msg=ok").is_none());
    assert!(SQError::parse("error id=-1 msg=ok").is_none());
    assert!(SQError::parse("error id=1").is_none());
    assert!(SQError::parse("error code=1 msg=ok").is_none());
    assert!(SQError::parse("error id=1 text=ok").is_none());
    assert!(SQError::parse(" error id=0 msg=ok").is_none());
    assert!(SQError::parse("").is_none());
}

#[test]
fn parse_ignores_what_follows_message() {
    let err = SQError::parse("error id=0 msg=ok extra_msg=more").unwrap();
    assert_eq!(err.id(), 0);
    assert_eq!(err.msg(), "ok");
    let err = SQError::parse("error id=3 msg=").unwrap();
    assert_eq!(err.msg(), "");
}

#[test]
fn status_line_with_zero_id_and_other_message_is_ok() {
    assert_eq!(SQError::parse_is_ok("error id=0 msg=fine").unwrap(), true);
}

#[test]
fn description_is_the_status_line() {
    assert_eq!(SQError::new(1, "test".to_string()).description(), "error id=1 msg=test");
    assert_eq!(SQError::ok().description(), "error id=0 msg=ok");
    assert_eq!(SQError::new(4294967295, "x y".to_string()).description(), "error id=4294967295 msg=x y");
}

#[test]
fn status_equality_is_by_id() {
    assert!(SQError::new(7, "a".to_string()) == SQError::new(7, "b".to_string()));
    assert!(SQError::new(7, "a".to_string()) != SQError::new(8, "a".to_string()));
}

#[test]
fn error_kinds() {
    let io = Error::Io(std::io::Error::new(std::io::ErrorKind::Other, "gone"));
    let sq = Error::SQ(SQError::ok());
    let other = Error::Other("no command".to_string());
    assert!(io.is_io() && !io.is_sq() && !io.is_other());
    assert!(!sq.is_io() && sq.is_sq() && !sq.is_other());
    assert!(!other.is_io() && !other.is_sq() && other.is_other());
    assert!(Error::from(SQError::ok()).is_sq());
    assert!(Error::from("x".to_string()).is_other());
    match Error::from("no command") {
        Error::Other(m) => assert_eq!(m, "no command"),
        _ => panic!("expected a local failure"),
    }
    assert!(Error::from(std::io::Error::new(std::io::ErrorKind::Other, "gone")).is_io());
}
