use std::sync::Arc;

use message_bus::builder::BuilderError;
use message_bus::client::{confirm, stream_step, Client, Notice, Received, StreamStep};
use message_bus::client_id::{ClientId, ClientIdError};
use message_bus::error::{ClientError, DecodeError};
use message_bus::message::{Data, DataError, PollerMessage, UserMessage};
use message_bus::poller::Action;
use message_bus::state::ResumeCommand;
use message_bus::table::Table;

fn client() -> Client<i64> {
    Client::builder()
        .url(String::from("http://host/"))
        .client_id(ClientId::from(0xabc))
        .build()
        .unwrap()
}

fn fields(client: &mut Client<i64>) -> Vec<(String, String)> {
    let mut fields = client.prepare_request().into_entries();
    fields.sort();
    fields
}

fn field(name: &str, value: &str) -> (String, String) {
    (String::from(name), String::from(value))
}

fn message(channel: &str, message_id: i64) -> Data<i64> {
    Data::Normal(UserMessage {
        global_id: 0,
        message_id,
        channel: String::from(channel),
        data: 0,
    })
}

fn status(positions: &[(&str, i64)]) -> Data<i64> {
    let mut table = Table::new();
    for (topic, id) in positions {
        table.insert(String::from(*topic), *id);
    }
    Data::Status(table)
}

#[test]
fn builder_needs_an_address() {
    assert_eq!(
        Client::builder().build::<i64>().err(),
        Some(BuilderError::UrlMissing)
    );
}

#[test]
fn builder_keeps_its_choices() {
    let built: Client<i64> = Client::builder()
        .url(String::from("http://host/"))
        .client_id(ClientId::from(5))
        .http_client(reqwest::Client::new())
        .pause_after_poll(true)
        .build()
        .unwrap();
    assert_eq!(built.get_id(), ClientId::from(5));
    assert!(built.http_client().is_some());
    assert!(built.pause_after_poll());
    assert!(!built.is_running());
    assert_eq!(built.seq(), 0);
    let plain = client();
    assert!(plain.http_client().is_none());
    assert!(!plain.pause_after_poll());
    let named: Client<i64> = Client::builder()
        .url(String::new())
        .build_as(ClientId::from(6))
        .unwrap();
    assert_eq!(named.get_id(), ClientId::from(6));
}

#[test]
fn builder_draws_a_fresh_id() {
    let one: Client<i64> = Client::builder().url(String::new()).build().unwrap();
    let two: Client<i64> = Client::builder().url(String::new()).build().unwrap();
    assert_ne!(one.get_id(), two.get_id());
}

#[test]
fn polls_go_to_the_address_of_the_client() {
    assert_eq!(client().target_url(), "http://host/0000000000000abc/poll");
}

#[test]
fn subscriptions_come_and_go() {
    let mut client = client();
    assert_eq!(client.subscribe("/a"), Notice::StateChanged);
    assert_eq!(client.position("/a"), Some(-1));
    assert_eq!(client.subscribe_from("/a", 7), Notice::StateChanged);
    assert_eq!(client.position("/a"), Some(7));
    assert_eq!(client.subscribe_from("/a", 3), Notice::StateChanged);
    assert_eq!(client.position("/a"), Some(3));
    let mut more = Table::new();
    more.insert(String::from("/a"), 1);
    more.insert(String::from("/b"), 2);
    more.insert(String::from("/c"), 3);
    assert_eq!(client.subscribe_all(more), Notice::StateChanged);
    assert_eq!(client.position("/a"), Some(1));
    assert_eq!(client.position("/b"), Some(2));
    assert_eq!(client.unsubscribe("/a"), Notice::StateChanged);
    assert_eq!(client.position("/a"), None);
    assert_eq!(
        client.unsubscribe_all(vec!["/b", "/x"]),
        Notice::StateChanged
    );
    assert_eq!(client.position("/b"), None);
    assert_eq!(client.position("/c"), Some(3));
}

#[test]
fn requests_name_topics_and_their_number() {
    let mut client = client();
    assert_eq!(fields(&mut client), vec![field("__seq", "1")]);
    let _ = client.subscribe("/a");
    let _ = client.subscribe_from("/b", 1234567890123);
    assert_eq!(
        fields(&mut client),
        vec![
            field("/a", "-1"),
            field("/b", "1234567890123"),
            field("__seq", "2"),
        ]
    );
    assert_eq!(client.seq(), 2);
}

#[test]
fn number_of_the_request_hides_a_topic() {
    let mut client = client();
    let _ = client.subscribe_from("__seq", 100);
    assert_eq!(fields(&mut client), vec![field("__seq", "1")]);
    assert_eq!(client.position("__seq"), Some(100));
}

#[test]
fn positions_do_not_go_back() {
    let mut client = client();
    let _ = client.subscribe_from("/a", 5);
    client.update_last_message_id(&message("/a", 9));
    assert_eq!(client.position("/a"), Some(9));
    client.update_last_message_id(&message("/a", 8));
    assert_eq!(client.position("/a"), Some(9));
    client.update_last_message_id(&status(&[("/a", 7), ("/b", 3)]));
    assert_eq!(client.position("/a"), Some(9));
    assert_eq!(client.position("/b"), Some(3));
    client.update_last_message_id(&status(&[("/a", 12)]));
    assert_eq!(client.position("/a"), Some(12));
    client.update_last_message_id(&message("/new", -4));
    assert_eq!(client.position("/new"), Some(-4));
}

#[test]
fn order_of_messages_does_not_matter() {
    let mut one = client();
    one.update_last_message_id(&message("/a", 4));
    one.update_last_message_id(&status(&[("/a", 6), ("/b", 1)]));
    one.update_last_message_id(&message("/a", 4));
    let mut other = client();
    other.update_last_message_id(&status(&[("/a", 6), ("/b", 1)]));
    other.update_last_message_id(&message("/a", 4));
    assert_eq!(fields(&mut one), fields(&mut other));
}

#[test]
fn only_one_poller_is_started() {
    let mut client = client();
    assert!(client.ensure_poller_started());
    assert!(client.is_running());
    assert!(!client.ensure_poller_started());
}

#[test]
fn requests_need_a_poller() {
    let mut client = client();
    assert!(matches!(client.resume(), Err(ClientError::NoPoller)));
    assert!(matches!(
        client.resume_with(Vec::new()),
        Err(ClientError::NoPoller)
    ));
    assert!(matches!(
        client.resume_inner(Vec::new()),
        Err(ClientError::NoPoller)
    ));
    assert!(matches!(client.abort(), Err(ClientError::NoPoller)));
    let (_, first) = client.start_background_poller();
    assert!(matches!(first, Action::SendRequest));
    assert!(client.resume().unwrap().is_empty());
    let commands = client
        .resume_with(vec![ResumeCommand::Unsubscribe(String::from("/a"))])
        .unwrap();
    assert!(matches!(&commands[..], [ResumeCommand::Unsubscribe(topic)] if topic == "/a"));
    assert!(client.abort().is_ok());
    assert!(confirm(true).is_ok());
    assert!(matches!(confirm(false), Err(ClientError::NoPoller)));
}

#[test]
fn drained_topics_can_be_taken_up() {
    let mut client = client();
    let _ = client.subscribe_from("/a", 5);
    let _ = client.subscribe_from("/b", 6);
    assert!(matches!(
        client.drain(Err(ClientError::NoPoller)),
        Err(ClientError::NoPoller)
    ));
    let mut drained = client.drain(Ok(())).unwrap();
    drained.sort();
    assert_eq!(
        drained,
        vec![(String::from("/a"), 5), (String::from("/b"), 6)]
    );
    let mut table = Table::new();
    for (topic, id) in drained {
        table.insert(topic, id);
    }
    let mut fresh: Client<i64> = Client::builder().url(String::new()).build().unwrap();
    let _ = fresh.subscribe_all(table);
    assert_eq!(fields(&mut fresh), fields(&mut client));
}

#[test]
fn streams_yield_messages_and_end_on_abort() {
    let user = PollerMessage::UserMessage(Arc::new(UserMessage {
        global_id: 1,
        message_id: 2,
        channel: String::from("/a"),
        data: 3,
    }));
    assert!(matches!(
        stream_step(Received::Item(Ok(user))),
        StreamStep::Yield(PollerMessage::UserMessage(m)) if m.data == 3
    ));
    assert!(matches!(
        stream_step::<i64>(Received::Item(Ok(PollerMessage::PollEnded))),
        StreamStep::Yield(PollerMessage::PollEnded)
    ));
    assert!(matches!(
        stream_step::<i64>(Received::Item(Err(ClientError::Abort))),
        StreamStep::End
    ));
    assert!(matches!(
        stream_step::<i64>(Received::Item(Err(ClientError::UnknownError))),
        StreamStep::Continue
    ));
    assert!(matches!(
        stream_step::<i64>(Received::Lagged(4)),
        StreamStep::Continue
    ));
    assert!(matches!(
        stream_step::<i64>(Received::Closed),
        StreamStep::End
    ));
}

#[test]
fn other_topics_are_left_alone() {
    let mut client = client();
    let _ = client.subscribe_from("/a", 5);
    let _ = client.subscribe_from("/b", 6);
    client.update_last_message_id(&message("/a", 50));
    client.update_last_message_id(&status(&[("/a", 51), ("/c", 1)]));
    assert_eq!(client.position("/b"), Some(6));
    let _ = client.subscribe("/d");
    let _ = client.unsubscribe("/d");
    assert_eq!(
        fields(&mut client),
        vec![
            field("/a", "51"),
            field("/b", "6"),
            field("/c", "1"),
            field("__seq", "1"),
        ]
    );
}

#[test]
fn stream_yields_until_abort() {
    let items: Vec<Received<i64>> = vec![
        Received::Item(Ok(PollerMessage::PollEnded)),
        Received::Lagged(1),
        Received::Item(Err(ClientError::Incomplete)),
        Received::Item(Ok(PollerMessage::PollEnded)),
        Received::Item(Err(ClientError::Abort)),
        Received::Item(Ok(PollerMessage::PollEnded)),
    ];
    let mut yielded = 0;
    for item in items {
        match stream_step(item) {
            StreamStep::Yield(_) => yielded += 1,
            StreamStep::Continue => {}
            StreamStep::End => break,
        }
    }
    assert_eq!(yielded, 2);
}

#[test]
fn errors_have_words() {
    assert_eq!(ClientError::NoPoller.to_string(), "no poller");
    assert_eq!(ClientError::Abort.to_string(), "aborted");
    assert_eq!(ClientError::Incomplete.to_string(), "incomplete frame");
    assert_eq!(ClientError::UnknownError.to_string(), "unknown erorr");
    let failed = reqwest::Client::new()
        .get("no address")
        .build()
        .unwrap_err();
    assert_eq!(
        ClientError::RequestError(Arc::new(failed)).to_string(),
        "request error"
    );
    let unread = DecodeError::InvalidMessages(DataError::NotAList(String::from("no list")));
    assert_eq!(
        ClientError::IOError(Arc::new(unread)).to_string(),
        "io error"
    );
    assert_eq!(BuilderError::UrlMissing.to_string(), "url required");
    assert_eq!(ClientIdError::InvalidLength.to_string(), "invalid lenght");
    assert_eq!(
        ClientIdError::InvalidCharacter.to_string(),
        "invalid character"
    );
}
