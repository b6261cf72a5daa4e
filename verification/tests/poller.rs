use std::sync::Arc;

use message_bus::client::Client;
use message_bus::decoder::{parts_of, BodyFrames};
use message_bus::error::ClientError;
use message_bus::message::{Data, PollerMessage, UserMessage};
use message_bus::poller::{event_of, Action, Event, Poller};
use message_bus::state::ResumeCommand;
use message_bus::table::Table;
use serde_json::Value;

fn start(pause: bool) -> (Client<i64>, Poller) {
    let mut client: Client<i64> = Client::builder()
        .url(String::from("http://host/"))
        .pause_after_poll(pause)
        .build()
        .unwrap();
    assert!(client.ensure_poller_started());
    let (poller, first) = client.start_background_poller();
    assert!(matches!(first, Action::SendRequest));
    (client, poller)
}

fn listening(pause: bool) -> (Client<i64>, Poller) {
    let (mut client, mut poller) = start(pause);
    assert!(matches!(
        tell(&mut poller, &mut client, Event::Responded),
        Action::Listen
    ));
    (client, poller)
}

fn tell(poller: &mut Poller, client: &mut Client<i64>, event: Event<i64>) -> Action<i64> {
    assert!(poller.expects(&event));
    poller.step(client, event)
}

fn message(channel: &str, message_id: i64) -> Data<i64> {
    Data::Normal(UserMessage {
        global_id: 0,
        message_id,
        channel: String::from(channel),
        data: 17,
    })
}

fn assert_stopped(poller: &Poller) {
    assert!(!poller.expects(&Event::<i64>::Responded));
    assert!(!poller.expects(&Event::<i64>::StateChanged));
    assert!(!poller.expects(&Event::<i64>::PassedOn(true)));
    assert!(!poller.expects(&Event::<i64>::Resumed(None)));
    assert!(!poller.expects(&Event::<i64>::AbortRequested));
}

#[test]
fn failed_request_is_sent_again() {
    let (mut client, mut poller) = start(false);
    let error = Arc::new(
        reqwest::Client::new()
            .get("no address")
            .build()
            .unwrap_err(),
    );
    match tell(&mut poller, &mut client, Event::RequestFailed(error.clone())) {
        Action::PassOn(Err(ClientError::RequestError(e))) => assert!(Arc::ptr_eq(&e, &error)),
        _ => panic!("the failure is to be passed on"),
    }
    assert!(matches!(
        tell(&mut poller, &mut client, Event::PassedOn(false)),
        Action::SendRequest
    ));
    assert!(client.is_running());
}

#[test]
fn message_is_recorded_once_received() {
    let (mut client, mut poller) = listening(false);
    match tell(&mut poller, &mut client, Event::Received(message("/a", 4))) {
        Action::PassOn(Ok(PollerMessage::UserMessage(m))) => assert_eq!(m.data, 17),
        _ => panic!("the message is to be passed on"),
    }
    assert_eq!(client.position("/a"), None);
    assert!(matches!(
        tell(&mut poller, &mut client, Event::PassedOn(true)),
        Action::Listen
    ));
    assert_eq!(client.position("/a"), Some(4));
}

#[test]
fn message_that_no_one_receives_stops_the_poller() {
    let (mut client, mut poller) = listening(false);
    let _ = tell(&mut poller, &mut client, Event::Received(message("/a", 4)));
    assert!(matches!(
        tell(&mut poller, &mut client, Event::PassedOn(false)),
        Action::Stop
    ));
    assert_eq!(client.position("/a"), None);
    assert!(!client.is_running());
    assert_stopped(&poller);
    assert!(client.ensure_poller_started());
}

#[test]
fn status_is_recorded_at_once() {
    let (mut client, mut poller) = listening(false);
    let mut positions = Table::new();
    positions.insert(String::from("/a"), 6);
    assert!(matches!(
        tell(&mut poller, &mut client, Event::Received(Data::Status(positions))),
        Action::Listen
    ));
    assert_eq!(client.position("/a"), Some(6));
}

#[test]
fn unreadable_part_is_reported() {
    let (mut client, mut poller) = listening(false);
    assert!(matches!(
        tell(&mut poller, &mut client, Event::Unreadable),
        Action::PassOn(Err(ClientError::UnknownError))
    ));
    assert!(matches!(
        tell(&mut poller, &mut client, Event::PassedOn(true)),
        Action::Listen
    ));
    let _ = tell(&mut poller, &mut client, Event::Unreadable);
    assert!(matches!(
        tell(&mut poller, &mut client, Event::PassedOn(false)),
        Action::Stop
    ));
    assert!(!client.is_running());
}

#[test]
fn next_poll_follows_the_last() {
    let (mut client, mut poller) = listening(false);
    assert!(matches!(
        tell(&mut poller, &mut client, Event::BodyEnded),
        Action::PassOn(Ok(PollerMessage::PollEnded))
    ));
    assert!(matches!(
        tell(&mut poller, &mut client, Event::PassedOn(true)),
        Action::SendRequest
    ));
}

#[test]
fn end_of_poll_that_no_one_receives_stops_the_poller() {
    let (mut client, mut poller) = listening(true);
    let _ = tell(&mut poller, &mut client, Event::BodyEnded);
    assert!(matches!(
        tell(&mut poller, &mut client, Event::PassedOn(false)),
        Action::Stop
    ));
    assert!(!client.is_running());
    assert_stopped(&poller);
}

#[test]
fn paused_poller_waits_for_commands() {
    let (mut client, mut poller) = listening(true);
    let _ = client.subscribe_from("/a", 1);
    let _ = tell(&mut poller, &mut client, Event::BodyEnded);
    assert!(matches!(
        tell(&mut poller, &mut client, Event::PassedOn(true)),
        Action::AwaitResume
    ));
    assert!(!poller.expects(&Event::<i64>::StateChanged));
    assert!(!poller.expects(&Event::<i64>::AbortRequested));
    let commands = vec![
        ResumeCommand::Subscribe((String::from("/b"), 5)),
        ResumeCommand::Unsubscribe(String::from("/a")),
        ResumeCommand::Subscribe((String::from("/b"), 2)),
    ];
    assert!(matches!(
        tell(&mut poller, &mut client, Event::Resumed(Some(commands))),
        Action::SendRequest
    ));
    assert_eq!(client.position("/a"), None);
    assert_eq!(client.position("/b"), Some(2));
}

#[test]
fn closed_command_channel_ends_the_pause() {
    let (mut client, mut poller) = listening(true);
    let _ = tell(&mut poller, &mut client, Event::BodyEnded);
    let _ = tell(&mut poller, &mut client, Event::PassedOn(true));
    assert!(matches!(
        tell(&mut poller, &mut client, Event::Resumed(None)),
        Action::SendRequest
    ));
}

#[test]
fn change_of_topics_starts_a_new_poll() {
    let (mut client, mut poller) = listening(true);
    assert!(matches!(
        tell(&mut poller, &mut client, Event::StateChanged),
        Action::SendRequest
    ));
}

#[test]
fn abort_stops_the_poller() {
    for received in [true, false] {
        let (mut client, mut poller) = listening(false);
        assert!(matches!(
            tell(&mut poller, &mut client, Event::AbortRequested),
            Action::PassOn(Err(ClientError::Abort))
        ));
        assert!(!client.is_running());
        assert!(matches!(
            tell(&mut poller, &mut client, Event::PassedOn(received)),
            Action::Stop
        ));
        assert_stopped(&poller);
    }
}

#[test]
fn new_poller_keeps_its_place_when_the_old_one_ends() {
    let (mut client, mut old) = listening(false);
    let _ = tell(&mut old, &mut client, Event::AbortRequested);
    assert!(client.ensure_poller_started());
    let _ = tell(&mut old, &mut client, Event::PassedOn(true));
    assert!(client.is_running());
}

#[test]
fn received_message_is_not_asked_for_again() {
    let (mut client, mut poller) = listening(false);
    for event in [
        Event::Received(message("/a", 4)),
        Event::PassedOn(true),
        Event::Received(message("/a", 3)),
        Event::PassedOn(true),
        Event::Unreadable,
        Event::PassedOn(true),
        Event::BodyEnded,
        Event::PassedOn(true),
    ] {
        let _ = tell(&mut poller, &mut client, event);
    }
    let form = client.prepare_request();
    assert_eq!(form.get("/a"), Some(&String::from("4")));
    assert_eq!(form.get("__seq"), Some(&String::from("1")));
}

#[test]
fn commands_can_be_split() {
    let commands = || {
        vec![
            ResumeCommand::Subscribe((String::from("/a"), 1)),
            ResumeCommand::Unsubscribe(String::from("/b")),
        ]
    };
    let (mut together, mut poller) = listening(true);
    let _ = together.subscribe("/b");
    let _ = tell(&mut poller, &mut together, Event::BodyEnded);
    let _ = tell(&mut poller, &mut together, Event::PassedOn(true));
    let _ = tell(&mut poller, &mut together, Event::Resumed(Some(commands())));
    let (mut apart, mut poller) = listening(true);
    let _ = apart.subscribe("/b");
    for command in commands() {
        let _ = tell(&mut poller, &mut apart, Event::BodyEnded);
        let _ = tell(&mut poller, &mut apart, Event::PassedOn(true));
        let _ = tell(&mut poller, &mut apart, Event::Resumed(Some(vec![command])));
        let _ = tell(&mut poller, &mut apart, Event::Responded);
    }
    assert_eq!(
        together.prepare_request().into_entries(),
        apart.prepare_request().into_entries()
    );
}

fn status(positions: &[(&str, i64)]) -> Data<i64> {
    let mut table = Table::new();
    for (topic, id) in positions {
        table.insert(String::from(*topic), *id);
    }
    Data::Status(table)
}

#[test]
fn whole_poll_is_passed_on_and_recorded() {
    let (mut client, mut poller) = start(false);
    let _ = client.subscribe_from("/a", 5);
    let _ = client.subscribe_from("/quiet", 9);
    let _ = client.prepare_request();
    let mut passed_on = Vec::new();
    let mut last = tell(&mut poller, &mut client, Event::Responded);
    for event in [
        Event::Received(message("/a", 7)),
        Event::Received(status(&[("/a", 6), ("/b", 2)])),
        Event::Unreadable,
        Event::Received(message("/a", 3)),
        Event::Received(message("/b", 1)),
        Event::BodyEnded,
    ] {
        last = tell(&mut poller, &mut client, event);
        if let Action::PassOn(item) = last {
            passed_on.push(item);
            last = tell(&mut poller, &mut client, Event::PassedOn(true));
        }
    }
    let ids: Vec<i64> = passed_on
        .iter()
        .map(|item| match item {
            Ok(PollerMessage::UserMessage(m)) => m.message_id,
            Ok(PollerMessage::PollEnded) => 100,
            Err(ClientError::UnknownError) => 200,
            Err(_) => panic!("no other error has come up"),
        })
        .collect();
    assert_eq!(ids, vec![7, 200, 3, 1, 100]);
    assert!(matches!(last, Action::SendRequest));
    let mut fields = client.prepare_request().into_entries();
    fields.sort();
    let expected = [("/a", "7"), ("/b", "2"), ("/quiet", "9"), ("__seq", "2")];
    let expected: Vec<(String, String)> = expected
        .iter()
        .map(|(name, value)| (String::from(*name), String::from(*value)))
        .collect();
    assert_eq!(fields, expected);
}

fn number(value: &Value) -> Result<i64, String> {
    serde_json::from_value(value.clone()).map_err(|e| e.to_string())
}

#[test]
fn parts_are_events() {
    assert!(matches!(
        event_of(Some(Some(message("/a", 3)))),
        Event::Received(Data::Normal(m)) if m.message_id == 3
    ));
    assert!(matches!(event_of::<i64>(Some(None)), Event::Unreadable));
    assert!(matches!(event_of::<i64>(None), Event::BodyEnded));
}

#[test]
fn chunks_are_passed_on() {
    let (mut client, mut poller) = listening(false);
    let mut body = BodyFrames::new();
    let mut events = Vec::new();
    for chunk in [
        &br#"[[1, 7, "/a", 0], [2, -1, "/__status", {"/b": 4}]]|[[3, 8, "#[..],
        br#""/a", 0]]|"#,
        b"[",
        b"|",
        b"[[1, 2]]|[]|",
        b"",
        br#"[[4, 5, "/b", 0], [5, 9, "/a", 0]]|"#,
    ] {
        for part in parts_of(body.next_messages(Ok(chunk), &number)) {
            events.push(event_of(Some(part)));
        }
    }
    events.push(event_of(None));
    let mut told = Vec::new();
    for event in events {
        if let Action::PassOn(item) = tell(&mut poller, &mut client, event) {
            told.push(match item {
                Ok(PollerMessage::UserMessage(m)) => m.message_id,
                Ok(PollerMessage::PollEnded) => 100,
                Err(ClientError::UnknownError) => 200,
                Err(_) => panic!("no other error has come up"),
            });
            let _ = tell(&mut poller, &mut client, Event::PassedOn(true));
        }
    }
    assert_eq!(told, vec![7, 8, 200, 200, 200, 5, 9, 100]);
    let form = client.prepare_request();
    assert_eq!(form.get("/a"), Some(&String::from("9")));
    assert_eq!(form.get("/b"), Some(&String::from("5")));
}

#[test]
fn changed_topics_are_asked_for_at_once() {
    let (mut client, mut poller) = start(true);
    let _ = client.subscribe_from("/a", 5);
    let _ = client.prepare_request();
    let _ = tell(&mut poller, &mut client, Event::Responded);
    let _ = client.subscribe("/b");
    let _ = client.unsubscribe("/a");
    assert!(matches!(
        tell(&mut poller, &mut client, Event::StateChanged),
        Action::SendRequest
    ));
    let form = client.prepare_request();
    assert_eq!(form.get("/a"), None);
    assert_eq!(form.get("/b"), Some(&String::from("-1")));
    assert_eq!(form.get("__seq"), Some(&String::from("2")));
}

#[test]
fn aborted_client_can_be_started_again() {
    let (mut client, mut poller) = listening(false);
    let _ = client.subscribe_from("/a", 5);
    let _ = client.prepare_request();
    let _ = tell(&mut poller, &mut client, Event::AbortRequested);
    let _ = tell(&mut poller, &mut client, Event::PassedOn(true));
    assert_stopped(&poller);
    assert!(client.ensure_poller_started());
    let (again, first) = client.start_background_poller();
    assert!(matches!(first, Action::SendRequest));
    assert!(again.expects(&Event::<i64>::Responded));
    let form = client.prepare_request();
    assert_eq!(form.get("/a"), Some(&String::from("5")));
    assert_eq!(form.get("__seq"), Some(&String::from("2")));
}
