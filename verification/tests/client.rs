use codenames::client::{
    ClientSession, Command, Frame, Phase, WsClient, CLIENT_TIMEOUT, HEARTBEAT_INTERVAL,
};
use codenames::event::ClientRequestType;

fn active_endpoint(id: u64, now: u64) -> WsClient {
    let mut endpoint = WsClient::new(&String::from("alpha"), now);
    endpoint.started();
    endpoint.joined(Some(id));
    endpoint
}

#[test]
fn a_session_starts_without_a_name() {
    let session = ClientSession::new(5, &String::from("alpha"));
    assert_eq!(
        session,
        ClientSession {
            id: 5,
            username: String::from(""),
            room: String::from("alpha"),
            is_spymaster: false
        }
    );
}

#[test]
fn heartbeat_runs_every_five_seconds_and_gives_up_after_ten() {
    assert_eq!(HEARTBEAT_INTERVAL, 5000);
    assert_eq!(CLIENT_TIMEOUT, 10000);
}

#[test]
fn an_endpoint_joins_before_it_serves() {
    let mut endpoint = WsClient::new(&String::from("alpha"), 1000);
    assert_eq!(endpoint.phase, Phase::Opening);
    assert_eq!(endpoint.session_id, 0);
    assert_eq!(endpoint.room_name, "alpha");
    assert_eq!(endpoint.hb, 1000);

    assert!(endpoint.hb(2000).is_empty());
    assert!(endpoint.handle(Frame::Pong, 2000).is_empty());
    assert!(endpoint.joined(Some(9)).is_empty());
    assert_eq!(endpoint.phase, Phase::Opening);

    let commands = endpoint.started();
    assert_eq!(commands.len(), 1);
    assert!(matches!(&commands[0], Command::Join { room } if room == "alpha"));
    assert_eq!(endpoint.phase, Phase::Joining);
    assert!(endpoint.started().is_empty());

    assert!(endpoint.joined(Some(9)).is_empty());
    assert_eq!(endpoint.phase, Phase::Active);
    assert_eq!(endpoint.session_id, 9);
}

#[test]
fn an_endpoint_that_is_refused_stops_without_a_word_to_the_hub() {
    let mut endpoint = WsClient::new(&String::from("alpha"), 0);
    endpoint.started();
    let commands = endpoint.joined(None);
    assert_eq!(commands.len(), 1);
    assert!(matches!(commands[0], Command::Stop));
    assert_eq!(endpoint.phase, Phase::Closed);
    assert!(endpoint.stopping().is_empty());
}

#[test]
fn heartbeat_timeout() {
    let mut endpoint = active_endpoint(9, 0);
    let commands = endpoint.hb(5000);
    assert_eq!(commands.len(), 1);
    assert!(matches!(commands[0], Command::Ping));
    let commands = endpoint.hb(10000);
    assert_eq!(commands.len(), 1);
    assert!(matches!(commands[0], Command::Ping));
    assert_eq!(endpoint.phase, Phase::Active);

    let commands = endpoint.hb(11000);
    assert_eq!(commands.len(), 2);
    match &commands[0] {
        Command::Post { request } => {
            assert_eq!(request.sender_id, 9);
            assert_eq!(request.room_name, "alpha");
            assert!(matches!(request.request, ClientRequestType::TimedOut { id: 9 }));
        }
        other => panic!("unexpected command {:?}", other),
    }
    assert!(matches!(commands[1], Command::Stop));
    assert_eq!(endpoint.phase, Phase::Closed);

    assert!(endpoint.stopping().is_empty());
    assert!(endpoint.hb(20000).is_empty());
    assert!(endpoint.handle(Frame::Close, 20000).is_empty());
}

#[test]
fn signs_of_life_put_the_timeout_off() {
    let mut endpoint = active_endpoint(9, 0);
    let commands = endpoint.handle(Frame::Ping { payload: vec![1, 2, 3] }, 8000);
    assert_eq!(commands.len(), 1);
    assert!(matches!(&commands[0], Command::Pong { payload } if payload == &vec![1, 2, 3]));
    assert_eq!(endpoint.hb, 8000);
    assert!(matches!(endpoint.hb(15000)[0], Command::Ping));
    assert!(endpoint.handle(Frame::Pong, 16000).is_empty());
    assert_eq!(endpoint.hb, 16000);
    assert!(matches!(endpoint.hb(26000)[0], Command::Ping));
    assert_eq!(endpoint.hb(26001).len(), 2);
}

#[test]
fn a_clock_that_reads_earlier_is_no_timeout() {
    let mut endpoint = active_endpoint(9, 50000);
    let commands = endpoint.hb(10);
    assert_eq!(commands.len(), 1);
    assert!(matches!(commands[0], Command::Ping));
}

#[test]
fn requests_go_to_the_hub_under_the_endpoints_session() {
    let mut endpoint = active_endpoint(9, 0);
    let commands = endpoint.handle(
        Frame::Request { request: ClientRequestType::Message { text: String::from("hi") } },
        100,
    );
    assert_eq!(commands.len(), 1);
    match &commands[0] {
        Command::Post { request } => {
            assert_eq!(request.sender_id, 9);
            assert_eq!(request.room_name, "alpha");
            assert!(matches!(&request.request, ClientRequestType::Message { text } if text == "hi"));
        }
        other => panic!("unexpected command {:?}", other),
    }
    assert_eq!(endpoint.hb, 0);
    assert!(endpoint.handle(Frame::Malformed, 200).is_empty());
    assert!(endpoint.handle(Frame::Unrecognized, 200).is_empty());
    assert_eq!(endpoint.phase, Phase::Active);
    assert_eq!(endpoint.hb, 0);
}

#[test]
fn a_close_frame_ends_with_a_disconnect() {
    let mut endpoint = active_endpoint(9, 0);
    let commands = endpoint.handle(Frame::Close, 100);
    assert_eq!(commands.len(), 1);
    assert!(matches!(commands[0], Command::Stop));
    assert_eq!(endpoint.phase, Phase::Closing);
    assert!(endpoint.hb(200).is_empty());

    let commands = endpoint.stopping();
    assert_eq!(commands.len(), 1);
    match &commands[0] {
        Command::Post { request } => {
            assert_eq!(request.sender_id, 9);
            assert_eq!(request.room_name, "alpha");
            assert!(matches!(request.request, ClientRequestType::Disconnect { id: 9 }));
        }
        other => panic!("unexpected command {:?}", other),
    }
    assert_eq!(endpoint.phase, Phase::Closed);
    assert!(endpoint.stopping().is_empty());
}

#[test]
fn a_broken_socket_ends_with_a_disconnect() {
    let mut endpoint = active_endpoint(9, 0);
    let commands = endpoint.stopping();
    assert_eq!(commands.len(), 1);
    assert!(matches!(
        &commands[0],
        Command::Post { request } if matches!(request.request, ClientRequestType::Disconnect { id: 9 })
    ));
    assert_eq!(endpoint.phase, Phase::Closed);
}
