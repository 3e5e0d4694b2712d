use sqlib::client::ClientList;
use sqlib::command::{Command, Request};
use sqlib::error::Error;
use sqlib::query::{Goal, Next, Query, Stage};
use sqlib::session::{Phase, Session, Step};

/// A scripted server: for each command line, the lines that it answers.
struct Script {
    answers: Vec<(String, Vec<String>)>,
}

impl Script {
    fn lines_for(&self, command_line: &str) -> Vec<String> {
        for (cmd, lines) in self.answers.iter() {
            if format!("{}\n", cmd) == command_line {
                return lines.clone();
            }
        }
        vec!["error id=256 msg=command\\snot\\sfound\n".to_string()]
    }
}

fn handshake() -> Session {
    let mut session = Session::new();
    assert!(matches!(session.receive("TS3\n"), Step::ReadLine));
    assert!(matches!(
        session.receive("\rWelcome to the TeamSpeak 3 ServerQuery interface\n"),
        Step::Ready
    ));
    assert!(session.is_ready());
    session
}

fn run<C: Command>(session: &mut Session, server: &Script, command: &C) -> Result<String, Error> {
    let line = session.send(command)?;
    let lines = server.lines_for(&line);
    for l in lines.iter() {
        match session.receive(l) {
            Step::ReadLine => continue,
            Step::Reply(s) => return Ok(s),
            Step::Failed(e) => return Err(e),
            Step::Ready => panic!("unexpected step"),
        }
    }
    panic!("the script ran out of lines")
}

#[test]
fn handshake_accepts_banner() {
    let session = handshake();
    assert_eq!(session.phase(), Phase::Ready);
    assert!(!session.awaits_line());
}

#[test]
fn handshake_trims_line_terminators_of_banner() {
    let mut session = Session::new();
    assert!(matches!(session.receive("TS3\r\n"), Step::ReadLine));
    assert_eq!(session.phase(), Phase::Greeting);
    let mut session = Session::new();
    assert!(matches!(session.receive("\rTS3\n"), Step::ReadLine));
    assert_eq!(session.phase(), Phase::Greeting);
}

#[test]
fn handshake_rejects_banner_with_spaces() {
    for line in [" TS3\n", "TS3 \n", "  TS3\r\n", "TS3\t\n", "ts3\n", ""].iter() {
        let mut session = Session::new();
        match session.receive(line) {
            Step::Failed(e) => assert!(e.is_other()),
            _ => panic!("a wrong banner was accepted: {:?}", line),
        }
        assert_eq!(session.phase(), Phase::Closed);
    }
}

#[test]
fn handshake_rejects_other_server() {
    let mut session = Session::new();
    match session.receive("SSH-2.0-OpenSSH\n") {
        Step::Failed(e) => assert!(e.is_other()),
        _ => panic!("expected a failure"),
    }
    assert_eq!(session.phase(), Phase::Closed);
}

#[test]
fn send_refuses_empty_command() {
    let mut session = handshake();
    match session.send(&"") {
        Err(e) => assert!(e.is_other()),
        Ok(_) => panic!("an empty command was accepted"),
    }
    assert!(session.is_ready());
}

#[test]
fn send_appends_newline() {
    let mut session = handshake();
    assert_eq!(session.send(&"whoami").unwrap(), "whoami\n");
    assert_eq!(session.phase(), Phase::Awaiting);
}

#[test]
fn response_lines_are_joined_until_ok() {
    let mut session = handshake();
    session.send(&"clientlist".to_string()).unwrap();
    assert!(matches!(session.receive("clid=1 cid=1|\n"), Step::ReadLine));
    assert!(matches!(session.receive("\rclid=2 cid=1\n"), Step::ReadLine));
    match session.receive("\rerror id=0 msg=ok\n") {
        Step::Reply(s) => assert_eq!(s, "clid=1 cid=1|\nclid=2 cid=1\n"),
        _ => panic!("expected the reply"),
    }
    assert!(session.is_ready());
}

#[test]
fn response_without_data_is_empty() {
    let mut session = handshake();
    session.send(&"use 1").unwrap();
    match session.receive("error id=0 msg=ok\n") {
        Step::Reply(s) => assert_eq!(s, ""),
        _ => panic!("expected the reply"),
    }
}

#[test]
fn error_status_fails_command_and_session_stays_usable() {
    let mut session = handshake();
    session.send(&"clientinfo clid=9").unwrap();
    match session.receive("\r\nerror id=512 msg=invalid\\sclientID\n") {
        Step::Failed(Error::SQ(e)) => {
            assert_eq!(e.id(), 512);
            assert_eq!(e.msg(), "invalid clientID");
        }
        _ => panic!("expected the status error"),
    }
    assert!(session.is_ready());
    session.send(&"whoami").unwrap();
    match session.receive("error id=0 msg=ok") {
        Step::Reply(s) => assert_eq!(s, ""),
        _ => panic!("expected the reply"),
    }
}

#[test]
fn close_ends_session() {
    let mut session = handshake();
    session.close();
    assert_eq!(session.phase(), Phase::Closed);
    assert!(!session.is_ready());
}

#[test]
fn request_texts() {
    assert_eq!(Request::UseServer(1).string(), "use 1");
    assert_eq!(Request::Login("serveradmin".to_string(), "pw".to_string()).string(), "login serveradmin pw");
    assert_eq!(Request::WhoAmI.string(), "whoami");
    assert_eq!(Request::ClientList.string(), "clientlist");
    assert_eq!(Request::ClientInfo(5).string(), "clientinfo clid=5");
    assert_eq!(Request::ClientInfo(-3).string(), "clientinfo clid=-3");
    assert_eq!(Request::ChannelList.string(), "channellist");
    assert_eq!(Request::Quit.string(), "quit");
    assert_eq!(Request::UseServer(18446744073709551615).string(), "use 18446744073709551615");
    assert_eq!("text".string(), "text");
    assert_eq!("owned".to_string().string(), "owned");
}

#[test]
fn set_nickname_reads_client_id() {
    let r = Request::set_nickname("virtualserver_status=online client_id=7 client_channel_id=1\n", "bot").unwrap();
    assert_eq!(r.string(), "clientupdate clid=7 client_nickname=bot");
    match Request::set_nickname("virtualserver_status=online", "bot") {
        Err(e) => assert!(e.is_other()),
        Ok(_) => panic!("expected the missing field"),
    }
}

fn run_query(session: &mut Session, server: &Script, goal: Goal) -> Result<Next, Error> {
    let (mut query, mut request) = Query::start(goal);
    assert_eq!(query.stage(), Stage::Clients);
    while query.is_running() {
        let reply = run(session, server, &request)?;
        match query.on_reply(&reply) {
            Next::Send(r) => request = r,
            done => return Ok(done),
        }
    }
    panic!("the operation ended without a result")
}

fn scripted_server() -> Script {
    Script {
        answers: vec![
            (
                "clientlist".to_string(),
                vec![
                    "clid=5 cid=1 client_database_id=3 client_nickname=Max client_type=0\n".to_string(),
                    "\rerror id=0 msg=ok\n".to_string(),
                ],
            ),
            (
                "clientinfo clid=5".to_string(),
                vec![
                    "\rcid=1 client_nickname=Max\\sPower client_type=0 connection_connected_time=65000\n".to_string(),
                    "\rerror id=0 msg=ok\n".to_string(),
                ],
            ),
            (
                "channellist".to_string(),
                vec![
                    "\rcid=1 channel_name=Foo|cid=2 channel_name=Bar\n".to_string(),
                    "\rerror id=0 msg=ok\n".to_string(),
                ],
            ),
        ],
    }
}

#[test]
fn channellist_with_clients_end_to_end() {
    let server = scripted_server();
    let mut session = handshake();
    let channels = match run_query(&mut session, &server, Goal::ChannelsWithClients).unwrap() {
        Next::Channels(channels) => channels.into_inner(),
        _ => panic!("expected the channels"),
    };
    assert_eq!(channels.len(), 2);
    assert_eq!(channels[0].cid, 1);
    assert_eq!(channels[0].channel_name, "Foo");
    assert_eq!(channels[0].clients.len(), 1);
    let max = &channels[0].clients[0];
    assert_eq!(max.clid, 5);
    assert_eq!(max.client_database_id, 3);
    assert_eq!(max.client_nickname, "Max Power");
    assert_eq!(max.connection_connected_time, 65000);
    assert_eq!(max.to_text(), "Max Power (01:05)");
    assert_eq!(channels[1].cid, 2);
    assert_eq!(channels[1].channel_name, "Bar");
    assert!(channels[1].is_empty());
    assert!(session.is_ready());
}

#[test]
fn clientlist_with_info_end_to_end() {
    let server = scripted_server();
    let mut session = handshake();
    let clients = match run_query(&mut session, &server, Goal::ClientsWithInfo).unwrap() {
        Next::Clients(clients) => clients.into_inner(),
        _ => panic!("expected the clients"),
    };
    assert_eq!(clients.len(), 1);
    assert_eq!(clients[0].clid, 5);
    assert_eq!(clients[0].client_nickname, "Max Power");
}

#[test]
fn query_steps_through_every_client() {
    let (mut query, first) = Query::start(Goal::ClientsWithInfo);
    assert_eq!(first.string(), "clientlist");
    match query.on_reply("clid=1|clid=2 cid=4") {
        Next::Send(r) => assert_eq!(r.string(), "clientinfo clid=1"),
        _ => panic!("expected a request"),
    }
    assert_eq!(query.stage(), Stage::Infos);
    match query.on_reply("client_nickname=one") {
        Next::Send(r) => assert_eq!(r.string(), "clientinfo clid=2"),
        _ => panic!("expected a request"),
    }
    match query.on_reply("client_nickname=two cid=5") {
        Next::Clients(list) => {
            let clients = list.into_inner();
            assert_eq!(clients[0].client_nickname, "one");
            assert_eq!(clients[1].client_nickname, "two");
            assert_eq!(clients[1].cid, 5);
        }
        _ => panic!("expected the clients"),
    }
    assert!(!query.is_running());
}

#[test]
fn query_with_no_clients_asks_for_channels() {
    let (mut query, _) = Query::start(Goal::ChannelsWithClients);
    match query.on_reply("") {
        // an empty reply holds one empty record, which gives a blank client
        Next::Send(r) => assert_eq!(r.string(), "clientinfo clid=0"),
        _ => panic!("expected a request"),
    }
    match query.on_reply("") {
        Next::Send(r) => assert_eq!(r.string(), "channellist"),
        _ => panic!("expected a request"),
    }
    match query.on_reply("cid=0 channel_name=Root") {
        Next::Channels(list) => {
            let channels = list.into_inner();
            assert_eq!(channels.len(), 1);
            assert_eq!(channels[0].clients.len(), 1);
        }
        _ => panic!("expected the channels"),
    }
}

#[test]
fn client_info_race_aborts() {
    let server = Script {
        answers: vec![(
            "clientlist".to_string(),
            vec!["clid=5 cid=1\n".to_string(), "error id=0 msg=ok\n".to_string()],
        )],
    };
    let mut session = handshake();
    let reply = run(&mut session, &server, &Request::ClientList).unwrap();
    let clients = ClientList::from_response(&reply);
    let clid = clients.as_vec()[0].clid;
    match run(&mut session, &server, &Request::ClientInfo(clid)) {
        Err(Error::SQ(e)) => assert_eq!(e.id(), 256),
        _ => panic!("expected the status error"),
    }
}
