//! The client: what it asks for, and what is known of its poller.

use std::marker::PhantomData;

use reqwest::Client as HttpClient;
use vstd::prelude::*;

use crate::client_id;
use crate::client_id::ClientId;
use crate::error::ClientError;
use crate::message::{Data, PollerMessage};
use crate::state;
use crate::state::{ClientState, ResumeCommand, Topics};
use crate::table;
use crate::table::Table;
use crate::text;

verus! {

/// A handle for HTTP requests.
#[verifier::external_type_specification]
#[verifier::external_body]
pub struct ExHttpClient(HttpClient);

/// A client that receives messages with data of type `T`.
pub struct Client<T> {
    url: String,
    client_id: ClientId,
    reqwest_client: Option<HttpClient>,
    state: ClientState,
    poller_running: bool,
    poller_linked: bool,
    pause_after_poll: bool,
    _phantom: PhantomData<T>,
}

/// The contents of a [`Client`].
pub struct ClientModel {
    /// Where the server is.
    pub url: Seq<char>,
    /// How the server knows the client.
    pub client_id: ClientId,
    /// What requests are sent with, if that was chosen.
    pub http: Option<HttpClient>,
    /// The topics that are asked for, each with the last position seen in it.
    pub topics: Topics,
    /// The number of the last request.
    pub seq: i64,
    /// Whether a poller is running.
    pub poller_running: bool,
    /// Whether a poller has ever opened its channels.
    pub poller_linked: bool,
    /// Whether the poller waits for a command after each poll.
    pub pause_after_poll: bool,
}

impl ClientModel {
    /// This client once the place of its poller is claimed.
    pub open spec fn started(self) -> ClientModel {
        ClientModel { poller_running: true, ..self }
    }

    /// This client once its poller has opened its channels.
    pub open spec fn linked(self) -> ClientModel {
        ClientModel { poller_linked: true, ..self }
    }

    /// This client once it has counted one more request.
    pub open spec fn requested(self) -> ClientModel {
        ClientModel { seq: (self.seq + 1) as i64, ..self }
    }

    /// The fields of the next request.
    pub open spec fn next_request(self) -> Map<Seq<char>, Seq<char>> {
        state::form_of(self.topics, self.requested().seq)
    }
}

impl<T> View for Client<T> {
    type V = ClientModel;

    closed spec fn view(&self) -> ClientModel {
        ClientModel {
            url: self.url@,
            client_id: self.client_id,
            http: self.reqwest_client,
            topics: self.state@.topics,
            seq: self.state@.seq,
            poller_running: self.poller_running,
            poller_linked: self.poller_linked,
            pause_after_poll: self.pause_after_poll,
        }
    }
}

/// What a running poller has to be told.
#[must_use]
#[derive(Debug, Clone, Copy, PartialEq, Eq, Structural)]
pub enum Notice {
    /// The topics have changed: the current poll no longer asks for the right ones.
    StateChanged,
}

/// What has come out of the channel of a stream.
pub enum Received<T> {
    /// A message, or an error.
    Item(Result<PollerMessage<T>, ClientError>),
    /// So many messages were dropped because the stream fell behind.
    Lagged(u64),
    /// There will be no more.
    Closed,
}

/// What a stream does next.
pub enum StreamStep<T> {
    /// It yields a message.
    Yield(PollerMessage<T>),
    /// It waits for the next item of its channel.
    Continue,
    /// It ends.
    End,
}

/// The address to which the polls of a client go.
pub open spec fn poll_address(url: Seq<char>, id: ClientId) -> Seq<char> {
    url + id.text() + "/poll"@
}

/// What a stream does with what has come out of its channel: messages are yielded, the stream ends
/// when the poller is aborted or the channel closes, and all else is passed over.
pub open spec fn stream_step_of<T>(received: Received<T>) -> StreamStep<T> {
    match received {
        Received::Item(Ok(message)) => StreamStep::Yield(message),
        Received::Item(Err(ClientError::Abort)) => StreamStep::End,
        Received::Item(Err(_)) => StreamStep::Continue,
        Received::Lagged(_) => StreamStep::Continue,
        Received::Closed => StreamStep::End,
    }
}

/// What a stream does with what has come out of its channel.
pub fn stream_step<T>(received: Received<T>) -> (step: StreamStep<T>)
    ensures
        step == stream_step_of(received),
{
    match received {
        Received::Item(Ok(message)) => StreamStep::Yield(message),
        Received::Item(Err(error)) => match error {
            ClientError::Abort => StreamStep::End,
            _ => StreamStep::Continue,
        },
        Received::Lagged(_) => StreamStep::Continue,
        Received::Closed => StreamStep::End,
    }
}

/// What a request to the poller is answered, once it was sent: a poller that is gone does not take
/// it.
pub fn confirm(sent: bool) -> (outcome: Result<(), ClientError>)
    ensures
        outcome == (if sent {
            Ok::<(), ClientError>(())
        } else {
            Err(ClientError::NoPoller)
        }),
{
    if sent {
        Ok(())
    } else {
        Err(ClientError::NoPoller)
    }
}

impl<T> Client<T> {
    /// A client that asks for nothing and has no poller.
    pub(crate) fn new(
        url: String,
        client_id: ClientId,
        reqwest_client: Option<HttpClient>,
        pause_after_poll: bool,
    ) -> (client: Self)
        ensures
            client@ == (ClientModel {
                url: url@,
                client_id,
                http: reqwest_client,
                topics: Map::empty(),
                seq: 0,
                poller_running: false,
                poller_linked: false,
                pause_after_poll,
            }),
    {
        Client {
            url,
            client_id,
            reqwest_client,
            state: ClientState::default(),
            poller_running: false,
            poller_linked: false,
            pause_after_poll,
            _phantom: PhantomData,
        }
    }

    /// How the server knows this client.
    pub fn get_id(&self) -> (id: ClientId)
        ensures
            id == self@.client_id,
    {
        self.client_id
    }

    /// What requests are sent with, if that was chosen.
    pub fn http_client(&self) -> (http: &Option<HttpClient>)
        ensures
            *http == self@.http,
    {
        &self.reqwest_client
    }

    /// Whether the poller waits for a command after each poll.
    pub fn pause_after_poll(&self) -> (pause: bool)
        ensures
            pause == self@.pause_after_poll,
    {
        self.pause_after_poll
    }

    /// The number of the last request.
    pub fn seq(&self) -> (seq: i64)
        ensures
            seq == self@.seq,
    {
        self.state.seq()
    }

    /// Whether a poller is running.
    pub fn is_running(&self) -> (running: bool)
        ensures
            running == self@.poller_running,
    {
        self.poller_running
    }

    /// The last position seen in a topic that is asked for.
    pub fn position(&self, topic: &str) -> (id: Option<i64>)
        ensures
            id == (if self@.topics.dom().contains(topic@) {
                Some(self@.topics[topic@])
            } else {
                None
            }),
    {
        self.state.position(topic)
    }

    /// The address to which polls go.
    pub fn target_url(&self) -> (url: String)
        ensures
            url@ == poll_address(self@.url, self@.client_id),
    {
        let mut url = self.url.clone();
        let id = self.client_id.to_string();
        url.append(id.as_str());
        url.append("/poll");
        url
    }

    /// Claims the place of the poller. The caller that gets `true` has to start it.
    pub fn ensure_poller_started(&mut self) -> (start: bool)
        ensures
            start == !old(self)@.poller_running,
            final(self)@ == old(self)@.started(),
    {
        let start = !self.poller_running;
        self.poller_running = true;
        start
    }

    /// Gives up the place of the poller.
    pub(crate) fn poller_stopped(&mut self)
        ensures
            final(self)@ == (ClientModel { poller_running: false, ..old(self)@ }),
    {
        self.poller_running = false;
    }

    /// Notes that a poller has opened its channels.
    pub(crate) fn link_poller(&mut self)
        ensures
            final(self)@ == old(self)@.linked(),
    {
        self.poller_linked = true;
    }

    /// Asks for a topic from a position on.
    pub fn subscribe_from(&mut self, topic: &str, latest_id: i64) -> (notice: Notice)
        ensures
            notice == Notice::StateChanged,
            final(self)@ == (ClientModel {
                topics: old(self)@.topics.insert(topic@, latest_id),
                ..old(self)@
            }),
    {
        self.state.subscribe(topic.to_owned(), latest_id);
        Notice::StateChanged
    }

    /// Asks for the messages of a topic that are yet to come.
    pub fn subscribe(&mut self, topic: &str) -> (notice: Notice)
        ensures
            notice == Notice::StateChanged,
            final(self)@ == (ClientModel {
                topics: old(self)@.topics.insert(topic@, (-1) as i64),
                ..old(self)@
            }),
    {
        self.subscribe_from(topic, -1)
    }

    /// Asks for all topics of a table, each from its position on.
    pub fn subscribe_all(&mut self, subscriptions: Table<i64>) -> (notice: Notice)
        ensures
            notice == Notice::StateChanged,
            final(self)@ == (ClientModel {
                topics: old(self)@.topics.union_prefer_right(subscriptions@),
                ..old(self)@
            }),
    {
        self.state.subscribe_all(&subscriptions);
        Notice::StateChanged
    }

    /// Asks for a topic no longer.
    pub fn unsubscribe(&mut self, topic: &str) -> (notice: Notice)
        ensures
            notice == Notice::StateChanged,
            final(self)@ == (ClientModel {
                topics: old(self)@.topics.remove(topic@),
                ..old(self)@
            }),
    {
        self.state.unsubscribe(topic);
        Notice::StateChanged
    }

    /// Asks for none of the topics of a list any longer.
    pub fn unsubscribe_all(&mut self, topics: Vec<&str>) -> (notice: Notice)
        ensures
            notice == Notice::StateChanged,
            final(self)@ == (ClientModel {
                topics: old(self)@.topics.remove_keys(state::named(topics@)),
                ..old(self)@
            }),
    {
        self.state.unsubscribe_all(&topics);
        Notice::StateChanged
    }

    /// Records what a message says of positions.
    pub fn update_last_message_id(&mut self, message: &Data<T>) where T: Clone
        ensures
            final(self)@ == (ClientModel {
                topics: state::recorded(old(self)@.topics, *message),
                ..old(self)@
            }),
    {
        self.state.update_last_message_id(message);
    }

    /// Records that `id` was seen in a topic.
    pub(crate) fn raise(&mut self, topic: String, id: i64)
        ensures
            final(self)@ == (ClientModel {
                topics: state::raised(old(self)@.topics, topic@, id),
                ..old(self)@
            }),
    {
        self.state.raise(topic, id);
    }

    /// Carries out commands in order.
    pub(crate) fn apply(&mut self, commands: Vec<ResumeCommand>)
        ensures
            final(self)@ == (ClientModel {
                topics: state::all_commanded(old(self)@.topics, commands@),
                ..old(self)@
            }),
    {
        self.state.apply(commands);
    }

    /// Counts one more request and gives its fields.
    pub fn prepare_request(&mut self) -> (form: Table<String>)
        requires
            old(self)@.seq < i64::MAX,
        ensures
            final(self)@ == old(self)@.requested(),
            form@.map_values(|field: String| field@) == old(self)@.next_request(),
    {
        self.state.prepare_request()
    }

    /// The commands to send to the poller, unless no poller has ever opened its channels. What comes
    /// of sending them is for [`confirm`] to say.
    pub fn resume_inner(&self, commands: Vec<ResumeCommand>) -> (request: Result<
        Vec<ResumeCommand>,
        ClientError,
    >)
        ensures
            request == (if self@.poller_linked {
                Ok::<Vec<ResumeCommand>, ClientError>(commands)
            } else {
                Err(ClientError::NoPoller)
            }),
    {
        if self.poller_linked {
            Ok(commands)
        } else {
            Err(ClientError::NoPoller)
        }
    }

    /// A request to a paused poller to go on with the topics that it has.
    pub fn resume(&self) -> (request: Result<Vec<ResumeCommand>, ClientError>)
        ensures
            match request {
                Ok(commands) => self@.poller_linked && commands@.len() == 0,
                Err(e) => !self@.poller_linked && e == ClientError::NoPoller,
            },
    {
        self.resume_inner(Vec::new())
    }

    /// A request to a paused poller to go on after carrying out commands.
    pub fn resume_with(&self, commands: Vec<ResumeCommand>) -> (request: Result<
        Vec<ResumeCommand>,
        ClientError,
    >)
        ensures
            request == (if self@.poller_linked {
                Ok::<Vec<ResumeCommand>, ClientError>(commands)
            } else {
                Err(ClientError::NoPoller)
            }),
    {
        self.resume_inner(commands)
    }

    /// Whether the poller can be told to stop. What comes of telling it is for [`confirm`] to say.
    pub fn abort(&self) -> (request: Result<(), ClientError>)
        ensures
            request == (if self@.poller_linked {
                Ok::<(), ClientError>(())
            } else {
                Err(ClientError::NoPoller)
            }),
    {
        confirm(self.poller_linked)
    }

    /// The topics with their positions, each topic once and in no particular order, given what came
    /// of telling the poller to stop.
    pub fn drain(&self, aborted: Result<(), ClientError>) -> (subscriptions: Result<
        Vec<(String, i64)>,
        ClientError,
    >)
        ensures
            match aborted {
                Ok(()) => subscriptions matches Ok(list) && {
                    &&& table::distinct_keys(list@)
                    &&& table::entry_map(list@) == self@.topics
                },
                Err(e) => subscriptions == Err::<Vec<(String, i64)>, ClientError>(e),
            },
    {
        match aborted {
            Ok(()) => Ok(self.state.subscriptions()),
            Err(e) => Err(e),
        }
    }
}

/// The messages that a stream yields of what comes out of its channel.
pub open spec fn yielded<T>(received: Seq<Received<T>>) -> Seq<PollerMessage<T>>
    decreases received.len(),
{
    if received.len() == 0 {
        seq![]
    } else {
        match stream_step_of(received[0]) {
            StreamStep::Yield(message) => seq![message] + yielded(received.skip(1)),
            StreamStep::Continue => yielded(received.skip(1)),
            StreamStep::End => seq![],
        }
    }
}

/// The messages among what comes out of a channel, in order.
pub open spec fn messages_of<T>(received: Seq<Received<T>>) -> Seq<PollerMessage<T>> {
    received.filter(|item: Received<T>| item matches Received::Item(Ok(_))).map_values(
        |item: Received<T>| item->Item_0->Ok_0,
    )
}

/// Whether nothing that comes out of a channel ends the stream.
pub open spec fn goes_on<T>(received: Seq<Received<T>>) -> bool {
    forall|i: int|
        0 <= i < received.len() ==> !(#[trigger] received[i] is Closed) && !(
        received[i] matches Received::Item(Err(ClientError::Abort)))
}

proof fn lemma_yielded_goes_on<T>(first: Seq<Received<T>>, second: Seq<Received<T>>)
    requires
        goes_on(first),
    ensures
        yielded(first + second) == messages_of(first) + yielded(second),
    decreases first.len(),
{
    reveal(Seq::filter);
    let is_message = |item: Received<T>| item matches Received::Item(Ok(_));
    let message = |item: Received<T>| item->Item_0->Ok_0;
    if first.len() == 0 {
        assert(first + second =~= second);
        assert(messages_of(first) + yielded(second) =~= yielded(second));
    } else {
        let front = first.drop_last();
        let item = first.last();
        let rest = seq![item] + second;
        assert forall|i: int| 0 <= i < front.len() implies !(#[trigger] front[i] is Closed) && !(
        front[i] matches Received::Item(Err(ClientError::Abort))) by {
            assert(front[i] == first[i]);
        }
        lemma_yielded_goes_on(front, rest);
        assert(first + second =~= front + rest);
        assert(rest.skip(1) =~= second);
        assert(!(stream_step_of(first[first.len() - 1]) is End));
        if is_message(item) {
            assert(first.filter(is_message) =~= front.filter(is_message).push(item));
            assert(messages_of(first) =~= messages_of(front).push(message(item)));
        } else {
            assert(first.filter(is_message) =~= front.filter(is_message));
        }
        assert(yielded(first + second) =~= messages_of(first) + yielded(second));
    }
}

/// A stream yields the messages that came before the poller was aborted or the channel closed, all
/// of them and in order, whatever errors and gaps lie between, and nothing after.
pub proof fn law_stream_yields_messages_until_its_end<T>(
    before: Seq<Received<T>>,
    last: Received<T>,
    after: Seq<Received<T>>,
)
    requires
        forall|i: int|
            0 <= i < before.len() ==> !(#[trigger] before[i] is Closed) && !(
            before[i] matches Received::Item(Err(ClientError::Abort))),
        last matches Received::Item(Err(ClientError::Abort)) || last is Closed,
    ensures
        yielded(before.push(last) + after) == messages_of(before),
{
    let rest = seq![last] + after;
    lemma_yielded_goes_on(before, rest);
    assert(before.push(last) + after =~= before + rest);
    assert(rest[0] == last);
    assert(yielded(before.push(last) + after) =~= messages_of(before));
}

/// As long as nothing ends it, a stream yields all messages that come, in order.
pub proof fn law_stream_yields_all_messages<T>(received: Seq<Received<T>>)
    requires
        forall|i: int|
            0 <= i < received.len() ==> !(#[trigger] received[i] is Closed) && !(
            received[i] matches Received::Item(Err(ClientError::Abort))),
    ensures
        yielded(received) == messages_of(received),
{
    lemma_yielded_goes_on(received, Seq::empty());
    assert(received + Seq::<Received<T>>::empty() =~= received);
    assert(yielded(received) =~= messages_of(received));
}

/// A stream ends when the poller is aborted or the channel closes, and for no other reason. It yields
/// each message as it came, and nothing else. Any error but the abort, and any gap, is passed over.
pub proof fn law_stream_ends_with_abort_or_channel<T>(received: Received<T>, step: StreamStep<T>)
    requires
        call_ensures(stream_step::<T>, (received,), step),
    ensures
        step == stream_step_of(received),
        step is End <==> received is Closed || received matches Received::Item(
            Err(ClientError::Abort),
        ),
        step is Yield <==> received matches Received::Item(Ok(_)),
        received matches Received::Item(Ok(message)) ==> step == StreamStep::Yield(message),
{
}

/// Of a row of items, a stream yields exactly the messages that come before the first abort or the
/// end of the channel: message by message, in the order in which they come.
pub proof fn law_stream_goes_item_by_item<T>(received: Seq<Received<T>>)
    requires
        received.len() > 0,
    ensures
        match received[0] {
            Received::Item(Ok(message)) => yielded(received) == seq![message] + yielded(
                received.skip(1),
            ),
            Received::Item(Err(ClientError::Abort)) => yielded(received).len() == 0,
            Received::Closed => yielded(received).len() == 0,
            _ => yielded(received) == yielded(received.skip(1)),
        },
{
}

/// A topic that is asked for has the position from which it is asked for, whatever it had before, and
/// all others stay.
pub proof fn law_subscribed_topic_has_its_position<T>(
    client: &mut Client<T>,
    topic: &str,
    id: i64,
    notice: Notice,
    other: &str,
    before: Option<i64>,
    after: Option<i64>,
)
    requires
        call_ensures(Client::<T>::position, (&*old(client), other), before),
        call_ensures(Client::<T>::subscribe_from, (client, topic, id), notice),
        call_ensures(Client::<T>::position, (&*final(client), other), after),
    ensures
        notice == Notice::StateChanged,
        other@ == topic@ ==> after == Some(id),
        other@ != topic@ ==> after == before,
        final(client)@ == (ClientModel { topics: final(client)@.topics, ..old(client)@ }),
{
}

/// A topic that is asked for without a position is asked for from now on.
pub proof fn law_subscribed_topic_starts_from_now_on<T>(
    client: &mut Client<T>,
    topic: &str,
    notice: Notice,
    other: &str,
    before: Option<i64>,
    after: Option<i64>,
)
    requires
        call_ensures(Client::<T>::position, (&*old(client), other), before),
        call_ensures(Client::<T>::subscribe, (client, topic), notice),
        call_ensures(Client::<T>::position, (&*final(client), other), after),
    ensures
        notice == Notice::StateChanged,
        other@ == topic@ ==> after == Some(-1i64),
        other@ != topic@ ==> after == before,
        final(client)@ == (ClientModel { topics: final(client)@.topics, ..old(client)@ }),
{
}

/// Each topic of a table is asked for from its position there, and all others stay.
pub proof fn law_subscribed_topics_have_their_positions<T>(
    client: &mut Client<T>,
    subscriptions: Table<i64>,
    notice: Notice,
    other: &str,
    before: Option<i64>,
    after: Option<i64>,
    listed: Option<&i64>,
)
    requires
        call_ensures(Client::<T>::position, (&*old(client), other), before),
        call_ensures(Table::<i64>::get, (&subscriptions, other), listed),
        call_ensures(Client::<T>::subscribe_all, (client, subscriptions), notice),
        call_ensures(Client::<T>::position, (&*final(client), other), after),
    ensures
        notice == Notice::StateChanged,
        listed matches Some(id) ==> after == Some(*id),
        listed is None ==> after == before,
        final(client)@ == (ClientModel { topics: final(client)@.topics, ..old(client)@ }),
{
}

/// A topic that is asked for no longer has no position, and all others stay.
pub proof fn law_unsubscribed_topic_has_no_position<T>(
    client: &mut Client<T>,
    topic: &str,
    notice: Notice,
    other: &str,
    before: Option<i64>,
    after: Option<i64>,
)
    requires
        call_ensures(Client::<T>::position, (&*old(client), other), before),
        call_ensures(Client::<T>::unsubscribe, (client, topic), notice),
        call_ensures(Client::<T>::position, (&*final(client), other), after),
    ensures
        notice == Notice::StateChanged,
        other@ == topic@ ==> after is None,
        other@ != topic@ ==> after == before,
        final(client)@ == (ClientModel { topics: final(client)@.topics, ..old(client)@ }),
{
}

/// None of the topics of a list is asked for any longer, and all others stay.
pub proof fn law_unsubscribed_topics_have_no_positions<'a, T>(
    client: &mut Client<T>,
    topics: Vec<&'a str>,
    notice: Notice,
    other: &str,
    before: Option<i64>,
    after: Option<i64>,
)
    requires
        call_ensures(Client::<T>::position, (&*old(client), other), before),
        call_ensures(Client::<T>::unsubscribe_all, (client, topics), notice),
        call_ensures(Client::<T>::position, (&*final(client), other), after),
    ensures
        notice == Notice::StateChanged,
        (exists|i: int| 0 <= i < topics@.len() && (#[trigger] topics@[i])@ == other@) ==> after is None,
        (forall|i: int| 0 <= i < topics@.len() ==> (#[trigger] topics@[i])@ != other@) ==> after
            == before,
        final(client)@ == (ClientModel { topics: final(client)@.topics, ..old(client)@ }),
{
    state::law_list_names_its_topics(topics@, other@);
}

/// After a message, a topic has the greater of the position that it had and the one that the message
/// reports of it. Where it reports none, nothing changes.
pub proof fn law_recorded_message_keeps_the_greater_position<T: Clone>(
    client: &mut Client<T>,
    message: &Data<T>,
    other: &str,
    before: Option<i64>,
    after: Option<i64>,
    reported: Option<i64>,
)
    requires
        match *message {
            Data::Status(positions) => reported == if positions@.dom().contains(other@) {
                Some(positions@[other@])
            } else {
                None
            },
            Data::Normal(message) => reported == if message.channel@ == other@ {
                Some(message.message_id)
            } else {
                None
            },
        },
        call_ensures(Client::<T>::position, (&*old(client), other), before),
        call_ensures(Client::<T>::update_last_message_id, (client, message), ()),
        call_ensures(Client::<T>::position, (&*final(client), other), after),
    ensures
        match (before, reported) {
            (Some(a), Some(b)) => after == if a < b {
                Some(b)
            } else {
                Some(a)
            },
            (None, Some(b)) => after == Some(b),
            (_, None) => after == before,
        },
        final(client)@ == (ClientModel { topics: final(client)@.topics, ..old(client)@ }),
{
}

/// A request has the number after that of the last one, and names each topic that is asked for with
/// its position, both in decimal, and nothing else. It changes nothing but the number.
pub proof fn law_request_names_positions_and_number<T>(
    client: &mut Client<T>,
    form: Table<String>,
    topic: &str,
    position: Option<i64>,
    field: Option<&String>,
    seq: i64,
    next_seq: i64,
)
    requires
        seq < i64::MAX,
        call_ensures(Client::<T>::seq, (&*old(client),), seq),
        call_ensures(Client::<T>::position, (&*old(client), topic), position),
        call_ensures(Client::<T>::prepare_request, (client,), form),
        call_ensures(Client::<T>::seq, (&*final(client),), next_seq),
        call_ensures(Table::<String>::get, (&form, topic), field),
    ensures
        next_seq == seq + 1,
        final(client)@ == (ClientModel { seq: next_seq, ..old(client)@ }),
        topic@ == "__seq"@ ==> (field matches Some(number) && number@ == text::decimal(seq + 1)),
        topic@ != "__seq"@ ==> match position {
            Some(id) => field matches Some(number) && number@ == text::decimal(id as int),
            None => field is None,
        },
{
    let fields = form@.map_values(|field: String| field@);
    assert(fields.dom().contains(topic@) == form@.dom().contains(topic@));
    if form@.dom().contains(topic@) {
        assert(fields[topic@] == form@[topic@]@);
    }
    state::law_request_writes_each_position(old(client)@.topics, next_seq, topic@);
}

/// Commands reach the poller, and the poller can be told to stop, only once a poller has opened its
/// channels. What is sent are the commands that were given, or none.
pub proof fn law_requests_need_a_poller<T>(
    client: Client<T>,
    commands: Vec<ResumeCommand>,
    sent_inner: Result<Vec<ResumeCommand>, ClientError>,
    sent_with: Result<Vec<ResumeCommand>, ClientError>,
    sent: Result<Vec<ResumeCommand>, ClientError>,
    aborted: Result<(), ClientError>,
)
    requires
        call_ensures(Client::<T>::resume_inner, (&client, commands), sent_inner),
        call_ensures(Client::<T>::resume_with, (&client, commands), sent_with),
        call_ensures(Client::<T>::resume, (&client,), sent),
        call_ensures(Client::<T>::abort, (&client,), aborted),
    ensures
        client@.poller_linked ==> {
            &&& sent_inner == Ok::<Vec<ResumeCommand>, ClientError>(commands)
            &&& sent_with == Ok::<Vec<ResumeCommand>, ClientError>(commands)
            &&& sent matches Ok(none) && none@.len() == 0
            &&& aborted is Ok
        },
        !client@.poller_linked ==> {
            &&& sent_inner matches Err(ClientError::NoPoller)
            &&& sent_with matches Err(ClientError::NoPoller)
            &&& sent matches Err(ClientError::NoPoller)
            &&& aborted matches Err(ClientError::NoPoller)
        },
{
}

/// A request that could not be sent is answered that there is no poller, and any other that all is
/// well.
pub proof fn law_unsent_request_is_refused(sent: bool, outcome: Result<(), ClientError>)
    requires
        call_ensures(confirm, (sent,), outcome),
    ensures
        outcome is Ok <==> sent,
        outcome is Err ==> outcome matches Err(ClientError::NoPoller),
{
}

/// What is drained are the topics that are asked for, each once and with its position, or the reason
/// why the poller could not be told to stop.
pub proof fn law_drained_topics_are_the_positions<T>(
    client: Client<T>,
    aborted: Result<(), ClientError>,
    drained: Result<Vec<(String, i64)>, ClientError>,
    topic: &str,
    position: Option<i64>,
)
    requires
        call_ensures(Client::<T>::drain, (&client, aborted), drained),
        call_ensures(Client::<T>::position, (&client, topic), position),
    ensures
        aborted matches Err(e) ==> drained == Err::<Vec<(String, i64)>, ClientError>(e),
        aborted is Ok ==> drained is Ok,
        drained matches Ok(list) ==> {
            &&& forall|i: int, j: int|
                0 <= i < j < list@.len() ==> (#[trigger] list@[i]).0@ != (#[trigger] list@[j]).0@
            &&& forall|i: int|
                0 <= i < list@.len() && (#[trigger] list@[i]).0@ == topic@ ==> position == Some(
                    list@[i].1,
                )
            &&& position is Some ==> exists|i: int|
                0 <= i < list@.len() && (#[trigger] list@[i]).0@ == topic@
        },
{
    if let Ok(list) = drained {
        table::law_list_writes_its_entries_down(list@, topic@);
    }
}

/// Of those that want a poller to run, only one is told to start it: the first, unless one runs
/// already.
pub proof fn law_one_poller_is_started<T>(
    first: &mut Client<T>,
    second: &mut Client<T>,
    running: bool,
    starts_first: bool,
    starts_second: bool,
    running_then: bool,
)
    requires
        call_ensures(Client::<T>::is_running, (&*old(first),), running),
        call_ensures(Client::<T>::ensure_poller_started, (first,), starts_first),
        *old(second) == *final(first),
        call_ensures(Client::<T>::ensure_poller_started, (second,), starts_second),
        call_ensures(Client::<T>::is_running, (&*final(second),), running_then),
    ensures
        starts_first == !running,
        !starts_second,
        running_then,
        final(first)@ == (ClientModel { poller_running: true, ..old(first)@ }),
{
}

/// A poll goes to the address of the server, with the sixteen digits of the identifier and `/poll`
/// behind it.
pub proof fn law_polls_go_to_the_address_of_the_client<T>(
    client: Client<T>,
    address: String,
    id: ClientId,
    written: String,
)
    requires
        call_ensures(Client::<T>::target_url, (&client,), address),
        call_ensures(Client::<T>::get_id, (&client,), id),
        call_ensures(ClientId::to_string, (&id,), written),
    ensures
        address@ == client@.url + written@ + "/poll"@,
        written@.len() == 16,
{
    client_id::law_id_text_has_its_digits_in_their_places(id, 0);
}

/// What a client tells of itself is what it holds.
pub proof fn law_client_tells_what_it_holds<T>(
    client: Client<T>,
    id: ClientId,
    http: &Option<HttpClient>,
    pause_after_poll: bool,
    seq: i64,
    running: bool,
    topic: &str,
    position: Option<i64>,
)
    requires
        call_ensures(Client::<T>::get_id, (&client,), id),
        call_ensures(Client::<T>::http_client, (&client,), http),
        call_ensures(Client::<T>::pause_after_poll, (&client,), pause_after_poll),
        call_ensures(Client::<T>::seq, (&client,), seq),
        call_ensures(Client::<T>::is_running, (&client,), running),
        call_ensures(Client::<T>::position, (&client, topic), position),
    ensures
        id == client@.client_id,
        *http == client@.http,
        pause_after_poll == client@.pause_after_poll,
        seq == client@.seq,
        running == client@.poller_running,
        position is Some <==> client@.topics.dom().contains(topic@),
        position matches Some(last) ==> last == client@.topics[topic@],
{
}

} // verus!
