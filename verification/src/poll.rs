//! What comes of a whole poll, and of the changes that cut one short.

use std::sync::Arc;

use serde_json::Value;
use vstd::prelude::*;

use crate::client::ClientModel;
use crate::decoder;
use crate::error::ClientError;
use crate::json;
use crate::message;
use crate::message::{Data, DataError, PollerMessage};
use crate::poller;
use crate::poller::{Event, PhaseModel, Run};
use crate::state;
use crate::state::Topics;
use crate::text;

verus! {

/// The events by which a poller takes in one part of a poll that others listen to: a message, or
/// `None` for a part that cannot be read.
pub open spec fn part_events<T: Clone>(part: Option<Data<T>>) -> Seq<Event<T>> {
    if is_status(part) {
        seq![poller::event_for(Some(part))]
    } else {
        seq![poller::event_for(Some(part)), Event::PassedOn(true)]
    }
}

/// The events by which a poller takes in the parts of a poll.
pub open spec fn body_events<T: Clone>(parts: Seq<Option<Data<T>>>) -> Seq<Event<T>>
    decreases parts.len(),
{
    if parts.len() == 0 {
        seq![]
    } else {
        body_events(parts.drop_last()) + part_events(parts.last())
    }
}

/// The events of a whole poll, from the response to the end.
pub open spec fn poll_events<T: Clone>(parts: Seq<Option<Data<T>>>) -> Seq<Event<T>> {
    seq![Event::<T>::Responded] + body_events(parts) + seq![
        poller::event_for(None::<Option<Data<T>>>),
        Event::<T>::PassedOn(true),
    ]
}

/// Whether a part of a poll is a status message.
pub open spec fn is_status<T: Clone>(part: Option<Data<T>>) -> bool {
    part matches Some(Data::Status(_))
}

/// What streams are told of a part of a poll that is no status message.
pub open spec fn news<T: Clone>(part: Option<Data<T>>) -> Result<PollerMessage<T>, ClientError> {
    match part {
        Some(Data::Normal(message)) => Ok(PollerMessage::UserMessage(Arc::new(message))),
        _ => Err(ClientError::UnknownError),
    }
}

/// What streams are told of the parts of a poll: of each that is no status message, once and in
/// order.
pub open spec fn all_news<T: Clone>(parts: Seq<Option<Data<T>>>) -> Seq<
    Result<PollerMessage<T>, ClientError>,
> {
    parts.filter(|part: Option<Data<T>>| !is_status(part)).map_values(
        |part: Option<Data<T>>| news(part),
    )
}

/// `topics` after the parts of a poll were recorded.
pub open spec fn all_recorded<T: Clone>(topics: Topics, parts: Seq<Option<Data<T>>>) -> Topics
    decreases parts.len(),
{
    if parts.len() == 0 {
        topics
    } else {
        let before = all_recorded(topics, parts.drop_last());
        match parts.last() {
            Some(data) => state::recorded(before, data),
            None => before,
        }
    }
}

/// Whether a part of a poll reports a position in a topic.
pub open spec fn reports<T: Clone>(part: Option<Data<T>>, topic: Seq<char>, id: i64) -> bool {
    match part {
        Some(Data::Status(positions)) => positions@.dom().contains(topic) && positions@[topic]
            == id,
        Some(Data::Normal(message)) => message.channel@ == topic && message.message_id == id,
        None => false,
    }
}

/// Whether a position in a topic was known before a poll or is reported by a part of it.
pub open spec fn seen<T: Clone>(
    topics: Topics,
    parts: Seq<Option<Data<T>>>,
    topic: Seq<char>,
    id: i64,
) -> bool {
    ||| topics.dom().contains(topic) && topics[topic] == id
    ||| exists|i: int| 0 <= i < parts.len() && #[trigger] reports(parts[i], topic, id)
}

proof fn lemma_seen_grows<T: Clone>(
    topics: Topics,
    parts: Seq<Option<Data<T>>>,
    topic: Seq<char>,
    id: i64,
)
    requires
        parts.len() > 0,
    ensures
        seen(topics, parts, topic, id) == (seen(topics, parts.drop_last(), topic, id) || reports(
            parts.last(),
            topic,
            id,
        )),
{
    let front = parts.drop_last();
    if exists|i: int| 0 <= i < front.len() && #[trigger] reports(front[i], topic, id) {
        let i = choose|i: int| 0 <= i < front.len() && #[trigger] reports(front[i], topic, id);
        assert(reports(parts[i], topic, id));
    }
    if reports(parts.last(), topic, id) {
        assert(reports(parts[parts.len() - 1], topic, id));
    }
    if exists|i: int| 0 <= i < parts.len() && #[trigger] reports(parts[i], topic, id) {
        let i = choose|i: int| 0 <= i < parts.len() && #[trigger] reports(parts[i], topic, id);
        if i < front.len() {
            assert(reports(front[i], topic, id));
        }
    }
}

/// After the parts of a poll were recorded, the topics are those of which a position has been seen,
/// each with the greatest of its positions.
pub proof fn law_greatest_positions_are_kept<T: Clone>(
    topics: Topics,
    parts: Seq<Option<Data<T>>>,
    topic: Seq<char>,
)
    ensures
        ({
            let reached = all_recorded(topics, parts);
            &&& reached.dom().contains(topic) <==> exists|id: i64| #[trigger]
                seen(topics, parts, topic, id)
            &&& reached.dom().contains(topic) ==> seen(topics, parts, topic, reached[topic])
            &&& forall|id: i64| #[trigger] seen(topics, parts, topic, id) ==> id <= reached[topic]
        }),
    decreases parts.len(),
{
    let reached = all_recorded(topics, parts);
    if parts.len() == 0 {
        if reached.dom().contains(topic) {
            assert(seen(topics, parts, topic, reached[topic]));
        }
    } else {
        let front = parts.drop_last();
        let before = all_recorded(topics, front);
        law_greatest_positions_are_kept(topics, front, topic);
        assert forall|id: i64| #[trigger] seen(topics, parts, topic, id) == (seen(
            topics,
            front,
            topic,
            id,
        ) || reports(parts.last(), topic, id)) by {
            lemma_seen_grows(topics, parts, topic, id);
        }
        if reached.dom().contains(topic) {
            assert(before.dom().contains(topic) && reached[topic] == before[topic] || reports(
                parts.last(),
                topic,
                reached[topic],
            ));
            assert(seen(topics, parts, topic, reached[topic]));
        }
        assert forall|id: i64| #[trigger] seen(topics, parts, topic, id) implies
            reached.dom().contains(topic) && id <= reached[topic] by {
            if seen(topics, front, topic, id) {
                assert(before.dom().contains(topic));
            }
        }
    }
}

proof fn lemma_part<T: Clone>(
    pause_after_poll: bool,
    client: ClientModel,
    part: Option<Data<T>>,
)
    ensures
        ({
            let run = poller::after_run(
                PhaseModel::Listening,
                pause_after_poll,
                client,
                part_events(part),
            );
            &&& run.phase is Listening
            &&& run.expected
            &&& run.client == (ClientModel {
                topics: match part {
                    Some(data) => state::recorded(client.topics, data),
                    None => client.topics,
                },
                ..client
            })
            &&& run.passed_on == if is_status(part) {
                seq![]
            } else {
                seq![news(part)]
            }
        }),
{
    reveal_with_fuel(poller::after_run, 3);
    let events = part_events(part);
    let run = poller::after_run(PhaseModel::Listening, pause_after_poll, client, events);
    if is_status(part) {
        assert(events.drop_last() =~= seq![]);
        assert(run.passed_on =~= seq![]);
    } else {
        assert(events.drop_last() =~= seq![events[0]]);
        assert(events.drop_last().drop_last() =~= seq![]);
        assert(run.passed_on =~= seq![news(part)]);
    }
}

proof fn lemma_body<T: Clone>(
    pause_after_poll: bool,
    client: ClientModel,
    parts: Seq<Option<Data<T>>>,
)
    ensures
        poller::after_run(PhaseModel::Listening, pause_after_poll, client, body_events(parts))
            == (Run {
            phase: PhaseModel::Listening,
            client: ClientModel { topics: all_recorded(client.topics, parts), ..client },
            passed_on: all_news(parts),
            expected: true,
        }),
    decreases parts.len(),
{
    reveal(Seq::filter);
    let run = poller::after_run(
        PhaseModel::Listening,
        pause_after_poll,
        client,
        body_events(parts),
    );
    let told = |part: Option<Data<T>>| !is_status(part);
    if parts.len() == 0 {
        assert(run.passed_on =~= all_news(parts));
    } else {
        let front = parts.drop_last();
        let part = parts.last();
        lemma_body(pause_after_poll, client, front);
        let middle = poller::after_run(
            PhaseModel::Listening,
            pause_after_poll,
            client,
            body_events(front),
        );
        lemma_part(pause_after_poll, middle.client, part);
        poller::lemma_run_goes_on(
            PhaseModel::Listening,
            pause_after_poll,
            client,
            body_events(front),
            part_events(part),
        );
        if told(part) {
            assert(parts.filter(told) =~= front.filter(told).push(part));
        } else {
            assert(parts.filter(told) =~= front.filter(told));
        }
        assert(run.passed_on =~= all_news(parts));
    }
}

/// A whole poll that others listen to: each user message is passed on once and in order, and so is
/// the news of each part that cannot be read; a status message never is; the end of the poll comes
/// last. All messages are recorded, and nothing else changes. The poller then sends a request, or
/// waits for a command if it is to pause.
pub proof fn law_whole_poll<T: Clone>(
    pause_after_poll: bool,
    client: ClientModel,
    parts: Seq<Option<Data<T>>>,
)
    ensures
        poller::after_run(PhaseModel::Requesting, pause_after_poll, client, poll_events(parts)) == (
        Run {
            phase: if pause_after_poll {
                PhaseModel::Paused
            } else {
                PhaseModel::Requesting
            },
            client: ClientModel { topics: all_recorded(client.topics, parts), ..client },
            passed_on: all_news(parts).push(Ok(PollerMessage::PollEnded)),
            expected: true,
        }),
{
    reveal_with_fuel(poller::after_run, 3);
    let first = seq![Event::<T>::Responded];
    let body = body_events(parts);
    let end = seq![Event::<T>::BodyEnded, Event::<T>::PassedOn(true)];
    assert(first.drop_last() =~= seq![]);
    assert(end.drop_last() =~= seq![Event::<T>::BodyEnded]);
    assert(end.drop_last().drop_last() =~= seq![]);
    lemma_body(pause_after_poll, client, parts);
    poller::lemma_run_goes_on(PhaseModel::Requesting, pause_after_poll, client, first, body);
    poller::lemma_run_goes_on(PhaseModel::Requesting, pause_after_poll, client, first + body, end);
    let run = poller::after_run(
        PhaseModel::Requesting,
        pause_after_poll,
        client,
        poll_events(parts),
    );
    assert(run.passed_on =~= all_news(parts).push(Ok(PollerMessage::PollEnded)));
}

/// What is left in the buffer after the chunks of a body.
pub open spec fn left_after_all(chunks: Seq<Result<Seq<u8>, Arc<reqwest::Error>>>) -> Seq<u8>
    decreases chunks.len(),
{
    if chunks.len() == 0 {
        seq![]
    } else {
        decoder::left_after(left_after_all(chunks.drop_last()), chunks.last())
    }
}

/// Whether `batches` are what the chunks of a body give, one for each chunk, where `payload` reads
/// the data of user messages.
pub open spec fn are_batches<T: Clone, F: Fn(&Value) -> Result<T, String>>(
    chunks: Seq<Result<Seq<u8>, Arc<reqwest::Error>>>,
    payload: F,
    batches: Seq<Result<Vec<Data<T>>, ClientError>>,
) -> bool {
    &&& batches.len() == chunks.len()
    &&& forall|i: int|
        0 <= i < chunks.len() ==> decoder::is_batch(
            left_after_all(chunks.take(i)),
            chunks[i],
            payload,
            #[trigger] batches[i],
        )
}

/// The parts of a poll that come of what the chunks of a body give.
pub open spec fn parts_of_batches<T: Clone>(
    batches: Seq<Result<Vec<Data<T>>, ClientError>>,
) -> Seq<Option<Data<T>>>
    decreases batches.len(),
{
    if batches.len() == 0 {
        seq![]
    } else {
        parts_of_batches(batches.drop_last()) + decoder::parts_for(batches.last())
    }
}

/// What streams are told of messages: of each user message, once and in order.
pub open spec fn messages_news<T: Clone>(messages: Seq<Data<T>>) -> Seq<
    Result<PollerMessage<T>, ClientError>,
> {
    messages.filter(|data: Data<T>| data is Normal).map_values(
        |data: Data<T>| Ok(PollerMessage::UserMessage(Arc::new(data->Normal_0))),
    )
}

/// What streams are told of a chunk that gives `messages`.
pub open spec fn chunk_news<T: Clone>(messages: Result<Vec<Data<T>>, ClientError>) -> Seq<
    Result<PollerMessage<T>, ClientError>,
> {
    match messages {
        Ok(list) => messages_news(list@),
        Err(_) => seq![Err(ClientError::UnknownError)],
    }
}

/// The JSON value of the frame that a chunk closes, if it arrived, closes one and the frame is a
/// JSON text.
pub open spec fn chunk_value(waiting: Seq<u8>, chunk: Result<Seq<u8>, Arc<reqwest::Error>>) -> Option<
    Value,
> {
    match chunk {
        Ok(bytes) => match decoder::split_frame(waiting + bytes) {
            Some((frame, _)) => match json::json_value(frame) {
                Ok(value) => Some(value),
                Err(_) => None,
            },
            None => None,
        },
        Err(_) => None,
    }
}

/// Whether `told` is what streams are told of a chunk, where `waiting` was in the buffer before: the
/// user messages of its frame in order, or once that something could not be read.
pub open spec fn chunk_tells<T: Clone, F: Fn(&Value) -> Result<T, String>>(
    waiting: Seq<u8>,
    chunk: Result<Seq<u8>, Arc<reqwest::Error>>,
    payload: F,
    told: Seq<Result<PollerMessage<T>, ClientError>>,
) -> bool {
    match chunk_value(waiting, chunk) {
        Some(value) => {
            ||| exists|messages: Seq<Data<T>>| #[trigger]
                message::decodes_all(value, payload, messages) && told == messages_news(messages)
            ||| exists|reason: DataError| #[trigger]
                message::rejects::<T, F>(value, payload, reason) && told == seq![
                    Err::<PollerMessage<T>, ClientError>(ClientError::UnknownError),
                ]
        },
        None => told == seq![Err::<PollerMessage<T>, ClientError>(ClientError::UnknownError)],
    }
}

proof fn lemma_chunk_tells<T: Clone, F: Fn(&Value) -> Result<T, String>>(
    waiting: Seq<u8>,
    chunk: Result<Seq<u8>, Arc<reqwest::Error>>,
    payload: F,
    messages: Result<Vec<Data<T>>, ClientError>,
)
    requires
        decoder::is_batch(waiting, chunk, payload, messages),
    ensures
        chunk_tells(waiting, chunk, payload, chunk_news(messages)),
{
    if let Some(value) = chunk_value(waiting, chunk) {
        match messages {
            Ok(list) => {
                assert(message::decodes_all(value, payload, list@));
            },
            Err(ClientError::IOError(_)) => {
                assert(exists|reason: DataError| #[trigger]
                    message::rejects::<T, F>(value, payload, reason));
            },
            Err(_) => {},
        }
    }
}

/// What streams are told of the chunks of a body.
pub open spec fn body_news<T: Clone>(batches: Seq<Result<Vec<Data<T>>, ClientError>>) -> Seq<
    Result<PollerMessage<T>, ClientError>,
>
    decreases batches.len(),
{
    if batches.len() == 0 {
        seq![]
    } else {
        body_news(batches.drop_last()) + chunk_news(batches.last())
    }
}

proof fn lemma_news_of_list<T: Clone>(list: Seq<Data<T>>)
    ensures
        all_news(list.map_values(|data: Data<T>| Some(data))) == messages_news(list),
    decreases list.len(),
{
    reveal(Seq::filter);
    let told = |part: Option<Data<T>>| !is_status(part);
    let normal = |data: Data<T>| data is Normal;
    let some = |data: Data<T>| Some(data);
    let parts = list.map_values(some);
    if list.len() == 0 {
        assert(parts.filter(told) =~= seq![]);
        assert(list.filter(normal) =~= seq![]);
    } else {
        let front = list.drop_last();
        lemma_news_of_list(front);
        assert(parts.drop_last() =~= front.map_values(some));
        assert(all_news(front.map_values(some)) == messages_news(front));
        if normal(list.last()) {
            assert(parts.filter(told) =~= front.map_values(some).filter(told).push(parts.last()));
            assert(list.filter(normal) =~= front.filter(normal).push(list.last()));
            assert(messages_news(list) =~= messages_news(front).push(news(parts.last())));
            assert(all_news(parts) =~= all_news(front.map_values(some)).push(news(parts.last())));
        } else {
            assert(parts.filter(told) =~= front.map_values(some).filter(told));
            assert(list.filter(normal) =~= front.filter(normal));
        }
    }
    assert(all_news(parts) =~= messages_news(list));
}

proof fn lemma_news_of_chunk<T: Clone>(messages: Result<Vec<Data<T>>, ClientError>)
    ensures
        all_news(decoder::parts_for(messages)) == chunk_news(messages),
{
    match messages {
        Ok(list) => {
            lemma_news_of_list(list@);
        },
        Err(_) => {
            reveal(Seq::filter);
            let told = |part: Option<Data<T>>| !is_status(part);
            let parts = decoder::parts_for(messages);
            assert(parts.drop_last() =~= seq![]);
            assert(parts.drop_last().filter(told) =~= seq![]);
            assert(parts.filter(told) =~= seq![None::<Data<T>>]);
            assert(all_news(parts) =~= chunk_news(messages));
        },
    }
}

proof fn lemma_news_of_body<T: Clone>(batches: Seq<Result<Vec<Data<T>>, ClientError>>)
    ensures
        all_news(parts_of_batches(batches)) == body_news(batches),
    decreases batches.len(),
{
    let told = |part: Option<Data<T>>| !is_status(part);
    if batches.len() == 0 {
        reveal(Seq::filter);
        assert(all_news(parts_of_batches(batches)) =~= body_news(batches));
    } else {
        let front = parts_of_batches(batches.drop_last());
        let last = decoder::parts_for(batches.last());
        lemma_news_of_body(batches.drop_last());
        lemma_news_of_chunk(batches.last());
        Seq::filter_distributes_over_add(front, last, told);
        assert(all_news(front + last) =~= all_news(front) + all_news(last));
    }
}

/// From the chunks of a body to the streams. Of a chunk that did not arrive, that closes no frame,
/// or whose frame is no JSON text or no list of messages, streams are told once that something could
/// not be read. Of any other they are told each user message of its frame, in order. The end of the
/// poll comes last. The messages of all chunks are recorded, and nothing else changes.
pub proof fn law_chunks_are_passed_on<T: Clone, F: Fn(&Value) -> Result<T, String>>(
    pause_after_poll: bool,
    client: ClientModel,
    chunks: Seq<Result<Seq<u8>, Arc<reqwest::Error>>>,
    payload: F,
    batches: Seq<Result<Vec<Data<T>>, ClientError>>,
)
    requires
        are_batches(chunks, payload, batches),
    ensures
        poller::after_run(
            PhaseModel::Requesting,
            pause_after_poll,
            client,
            poll_events(parts_of_batches(batches)),
        ) == (Run {
            phase: if pause_after_poll {
                PhaseModel::Paused
            } else {
                PhaseModel::Requesting
            },
            client: ClientModel {
                topics: all_recorded(client.topics, parts_of_batches(batches)),
                ..client
            },
            passed_on: body_news(batches).push(Ok(PollerMessage::PollEnded)),
            expected: true,
        }),
        forall|i: int|
            0 <= i < chunks.len() ==> chunk_tells(
                left_after_all(chunks.take(i)),
                chunks[i],
                payload,
                chunk_news(#[trigger] batches[i]),
            ),
{
    law_whole_poll(pause_after_poll, client, parts_of_batches(batches));
    lemma_news_of_body(batches);
    assert forall|i: int| 0 <= i < chunks.len() implies chunk_tells(
        left_after_all(chunks.take(i)),
        chunks[i],
        payload,
        chunk_news(#[trigger] batches[i]),
    ) by {
        lemma_chunk_tells(left_after_all(chunks.take(i)), chunks[i], payload, batches[i]);
    }
}

/// The request after a whole poll has the next number and names, besides, exactly the topics of
/// which a position has been seen, each with the greatest of its positions. A topic named `__seq`
/// is hidden by the number.
pub proof fn law_next_request_names_greatest_positions<T: Clone>(
    client: ClientModel,
    parts: Seq<Option<Data<T>>>,
    topic: Seq<char>,
)
    requires
        client.seq < i64::MAX,
        topic != "__seq"@,
    ensures
        ({
            let run = poller::after_run(
                PhaseModel::Requesting,
                false,
                client,
                poll_events(parts),
            );
            let form = run.client.next_request();
            &&& run.phase is Requesting
            &&& form["__seq"@] == text::decimal(client.seq + 1)
            &&& form.dom().contains(topic) <==> exists|id: i64| #[trigger]
                seen(client.topics, parts, topic, id)
            &&& form.dom().contains(topic) ==> {
                let id = run.client.topics[topic];
                &&& form[topic] == text::decimal(id as int)
                &&& seen(client.topics, parts, topic, id)
                &&& forall|other: i64| #[trigger]
                    seen(client.topics, parts, topic, other) ==> other <= id
            }
        }),
{
    law_whole_poll(false, client, parts);
    law_greatest_positions_are_kept(client.topics, parts, topic);
}

/// A change of the topics while a poller listens cuts the poll short: nothing is passed on, not even
/// the end of the poll, the poller does not pause, and the next request has the next number and
/// names the changed topics.
pub proof fn law_changed_topics_are_asked_for_at_once<T: Clone>(
    pause_after_poll: bool,
    before: ClientModel,
    after: ClientModel,
)
    requires
        before.seq < i64::MAX,
        after == (ClientModel { topics: after.topics, ..before }),
    ensures
        poller::after_run(
            PhaseModel::Listening,
            pause_after_poll,
            after,
            seq![Event::<T>::StateChanged],
        ) == (Run::<T> {
            phase: PhaseModel::Requesting,
            client: after,
            passed_on: seq![],
            expected: true,
        }),
        poller::next_action(PhaseModel::Listening, pause_after_poll, Event::<T>::StateChanged)
            is SendRequest,
        after.next_request() == state::form_of(after.topics, (before.seq + 1) as i64),
{
    reveal_with_fuel(poller::after_run, 2);
    assert(seq![Event::<T>::StateChanged].drop_last() =~= seq![]);
}

/// A client whose poller was aborted can be started again: its place is free, and the first request
/// of the new poller has the next number and names the topics that were kept.
pub proof fn law_aborted_client_can_be_started_again<T: Clone>(
    pause_after_poll: bool,
    client: ClientModel,
    received: bool,
)
    requires
        client.seq < i64::MAX,
    ensures
        ({
            let run = poller::after_run(
                PhaseModel::Listening,
                pause_after_poll,
                client,
                seq![Event::<T>::AbortRequested, Event::<T>::PassedOn(received)],
            );
            let again = run.client.started().linked();
            &&& run.phase is Stopped
            &&& run.expected
            &&& run.passed_on == seq![Err::<PollerMessage<T>, ClientError>(ClientError::Abort)]
            &&& run.client == (ClientModel { poller_running: false, ..client })
            &&& again.poller_running
            &&& again.next_request() == state::form_of(client.topics, (client.seq + 1) as i64)
        }),
{
    reveal_with_fuel(poller::after_run, 3);
    let events = seq![Event::<T>::AbortRequested, Event::<T>::PassedOn(received)];
    assert(events.drop_last() =~= seq![Event::<T>::AbortRequested]);
    assert(events.drop_last().drop_last() =~= seq![]);
    let run = poller::after_run(PhaseModel::Listening, pause_after_poll, client, events);
    assert(run.passed_on =~= seq![Err::<PollerMessage<T>, ClientError>(ClientError::Abort)]);
}

proof fn lemma_message_is_a_part<T: Clone>(
    batches: Seq<Result<Vec<Data<T>>, ClientError>>,
    at: int,
    i: int,
) -> (k: int)
    requires
        0 <= at < batches.len(),
        batches[at] is Ok,
        0 <= i < batches[at]->Ok_0@.len(),
    ensures
        0 <= k < parts_of_batches(batches).len(),
        parts_of_batches(batches)[k] == Some(batches[at]->Ok_0@[i]),
    decreases batches.len(),
{
    let front = batches.drop_last();
    let before = parts_of_batches(front);
    if at < front.len() {
        let k = lemma_message_is_a_part(front, at, i);
        assert((before + decoder::parts_for(batches.last()))[k] == before[k]);
        k
    } else {
        let k = before.len() + i;
        assert((before + decoder::parts_for(batches.last()))[k] == decoder::parts_for(
            batches.last(),
        )[i]);
        k
    }
}

/// After a whole poll, every position that a message of any chunk reports has been reached, be it a
/// status message or a user message, and its topic has not gone back.
pub proof fn law_positions_of_all_chunks_are_reached<T: Clone>(
    pause_after_poll: bool,
    client: ClientModel,
    batches: Seq<Result<Vec<Data<T>>, ClientError>>,
    at: int,
    i: int,
    topic: Seq<char>,
    id: i64,
)
    requires
        0 <= at < batches.len(),
        batches[at] is Ok,
        0 <= i < batches[at]->Ok_0@.len(),
        match batches[at]->Ok_0@[i] {
            Data::Status(positions) => positions@.dom().contains(topic) && positions@[topic] == id,
            Data::Normal(message) => message.channel@ == topic && message.message_id == id,
        },
    ensures
        ({
            let reached = poller::after_run(
                PhaseModel::Requesting,
                pause_after_poll,
                client,
                poll_events(parts_of_batches(batches)),
            ).client.topics;
            &&& reached.dom().contains(topic)
            &&& reached[topic] >= id
            &&& client.topics.dom().contains(topic) ==> reached[topic] >= client.topics[topic]
        }),
{
    let parts = parts_of_batches(batches);
    law_whole_poll(pause_after_poll, client, parts);
    law_greatest_positions_are_kept(client.topics, parts, topic);
    let k = lemma_message_is_a_part(batches, at, i);
    assert(reports(parts[k], topic, id));
    assert(seen(client.topics, parts, topic, id));
    if client.topics.dom().contains(topic) {
        assert(seen(client.topics, parts, topic, client.topics[topic]));
    }
}

} // verus!
