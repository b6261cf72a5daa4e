//! The poller: it polls the server over and over, passes messages on and keeps track of positions.
//!
//! A [`Poller`] decides and does nothing itself. It is told what has happened, as an [`Event`], and
//! answers what to do next, as an [`Action`].

use std::sync::Arc;

use vstd::prelude::*;

use crate::client;
use crate::client::{Client, ClientModel};
use crate::error::ClientError;
use crate::message::{Data, PollerMessage, UserMessage};
use crate::state;
use crate::state::{ResumeCommand, Topics};
use crate::text;

verus! {

/// What a poller waits for.
enum Phase {
    /// The response to a request.
    Requesting,
    /// To have passed on that a request failed.
    ReportingFailure,
    /// The next part of a poll, a change of topics or the order to stop.
    Listening,
    /// To have passed on a message.
    Delivering(String, i64),
    /// To have passed on that a part of a poll could not be read.
    ReportingError,
    /// To have passed on the end of a poll.
    Ending,
    /// The command to go on.
    Paused,
    /// To have passed on that it stops.
    Aborting,
    /// Nothing any more.
    Stopped,
}

/// What a poller waits for.
pub enum PhaseModel {
    /// The response to a request.
    Requesting,
    /// To have passed on that a request failed.
    ReportingFailure,
    /// The next part of a poll, a change of topics or the order to stop.
    Listening,
    /// To have passed on a message, which was published to `channel` as `message_id`.
    Delivering { channel: Seq<char>, message_id: i64 },
    /// To have passed on that a part of a poll could not be read.
    ReportingError,
    /// To have passed on the end of a poll.
    Ending,
    /// The command to go on.
    Paused,
    /// To have passed on that it stops.
    Aborting,
    /// Nothing any more.
    Stopped,
}

/// What has happened.
pub enum Event<T> where T: Clone {
    /// The server has responded to a request.
    Responded,
    /// A request has failed.
    RequestFailed(Arc<reqwest::Error>),
    /// A message has arrived.
    Received(Data<T>),
    /// Something has arrived that could not be read.
    Unreadable,
    /// The poll has ended.
    BodyEnded,
    /// The topics have changed.
    StateChanged,
    /// The poller is to stop.
    AbortRequested,
    /// What was to be passed on was passed on, and whether anyone was there to receive it.
    PassedOn(bool),
    /// The poller is to go on after carrying out commands, or the channel for commands has closed.
    Resumed(Option<Vec<ResumeCommand>>),
}

/// What to do next.
pub enum Action<T> {
    /// Send a request, and report what comes of it.
    SendRequest,
    /// Pass something on to all streams, and report whether there was any.
    PassOn(Result<PollerMessage<T>, ClientError>),
    /// Wait for the next part of the poll, a change of topics or the order to stop.
    Listen,
    /// Wait for a command.
    AwaitResume,
    /// Stop.
    Stop,
}

/// The event by which a poller takes in the next part of a poll, which is `None` for a part that
/// cannot be read, or the end where there is no next one.
pub open spec fn event_for<T: Clone>(part: Option<Option<Data<T>>>) -> Event<T> {
    match part {
        Some(Some(data)) => Event::Received(data),
        Some(None) => Event::Unreadable,
        None => Event::BodyEnded,
    }
}

/// The event by which a poller takes in the next part of a poll, or the end.
pub fn event_of<T: Clone>(part: Option<Option<Data<T>>>) -> (event: Event<T>)
    ensures
        event == event_for(part),
{
    match part {
        Some(Some(data)) => Event::Received(data),
        Some(None) => Event::Unreadable,
        None => Event::BodyEnded,
    }
}

/// Whether an event answers what a poller waits for.
pub open spec fn expects<T: Clone>(phase: PhaseModel, event: Event<T>) -> bool {
    match phase {
        PhaseModel::Requesting => event is Responded || event is RequestFailed,
        PhaseModel::Listening => event is Received || event is Unreadable || event is BodyEnded
            || event is StateChanged || event is AbortRequested,
        PhaseModel::Paused => event is Resumed,
        PhaseModel::Stopped => false,
        _ => event is PassedOn,
    }
}

/// Whether a poller gives up its place: it is told to stop, or there was no one to receive a
/// message, an error in a poll or the end of one.
pub open spec fn gives_up<T: Clone>(phase: PhaseModel, event: Event<T>) -> bool {
    match event {
        Event::AbortRequested => true,
        Event::PassedOn(received) => !received && (phase is Delivering || phase is ReportingError
            || phase is Ending),
        _ => false,
    }
}

/// What a poller waits for after an event.
pub open spec fn next_phase<T: Clone>(
    phase: PhaseModel,
    pause_after_poll: bool,
    event: Event<T>,
) -> PhaseModel {
    match event {
        Event::Responded => PhaseModel::Listening,
        Event::RequestFailed(_) => PhaseModel::ReportingFailure,
        Event::Received(Data::Status(_)) => PhaseModel::Listening,
        Event::Received(Data::Normal(message)) => PhaseModel::Delivering {
            channel: message.channel@,
            message_id: message.message_id,
        },
        Event::Unreadable => PhaseModel::ReportingError,
        Event::BodyEnded => PhaseModel::Ending,
        Event::StateChanged => PhaseModel::Requesting,
        Event::AbortRequested => PhaseModel::Aborting,
        Event::PassedOn(_) => if gives_up(phase, event) || phase is Aborting {
            PhaseModel::Stopped
        } else if phase is ReportingFailure {
            PhaseModel::Requesting
        } else if phase is Ending {
            if pause_after_poll {
                PhaseModel::Paused
            } else {
                PhaseModel::Requesting
            }
        } else {
            PhaseModel::Listening
        },
        Event::Resumed(_) => PhaseModel::Requesting,
    }
}

/// The topics after an event: a status is recorded at once, a message once it was passed on, and
/// commands are carried out.
pub open spec fn next_topics<T: Clone>(phase: PhaseModel, topics: Topics, event: Event<T>) -> Topics {
    match event {
        Event::Received(Data::Status(positions)) => state::merged(topics, positions@),
        Event::PassedOn(received) => match phase {
            PhaseModel::Delivering { channel, message_id } => if received {
                state::raised(topics, channel, message_id)
            } else {
                topics
            },
            _ => topics,
        },
        Event::Resumed(Some(commands)) => state::all_commanded(topics, commands@),
        _ => topics,
    }
}

/// The client after an event.
pub open spec fn stepped<T: Clone>(
    phase: PhaseModel,
    client: ClientModel,
    event: Event<T>,
) -> ClientModel {
    ClientModel {
        topics: next_topics(phase, client.topics, event),
        poller_running: client.poller_running && !gives_up(phase, event),
        ..client
    }
}

/// What to do after an event.
pub open spec fn next_action<T: Clone>(
    phase: PhaseModel,
    pause_after_poll: bool,
    event: Event<T>,
) -> Action<T> {
    match event {
        Event::RequestFailed(e) => Action::PassOn(Err(ClientError::RequestError(e))),
        Event::Received(Data::Normal(message)) => Action::PassOn(
            Ok(PollerMessage::UserMessage(Arc::new(message))),
        ),
        Event::Unreadable => Action::PassOn(Err(ClientError::UnknownError)),
        Event::BodyEnded => Action::PassOn(Ok(PollerMessage::PollEnded)),
        Event::AbortRequested => Action::PassOn(Err(ClientError::Abort)),
        _ => match next_phase(phase, pause_after_poll, event) {
            PhaseModel::Requesting => Action::SendRequest,
            PhaseModel::Paused => Action::AwaitResume,
            PhaseModel::Stopped => Action::Stop,
            _ => Action::Listen,
        },
    }
}

/// The poller of a client.
pub struct Poller {
    phase: Phase,
    pause_after_poll: bool,
}

/// The contents of a [`Poller`].
pub struct PollerModel {
    pub phase: PhaseModel,
    pub pause_after_poll: bool,
}

impl View for Poller {
    type V = PollerModel;

    closed spec fn view(&self) -> PollerModel {
        PollerModel {
            phase: match self.phase {
                Phase::Requesting => PhaseModel::Requesting,
                Phase::ReportingFailure => PhaseModel::ReportingFailure,
                Phase::Listening => PhaseModel::Listening,
                Phase::Delivering(channel, message_id) => PhaseModel::Delivering {
                    channel: channel@,
                    message_id,
                },
                Phase::ReportingError => PhaseModel::ReportingError,
                Phase::Ending => PhaseModel::Ending,
                Phase::Paused => PhaseModel::Paused,
                Phase::Aborting => PhaseModel::Aborting,
                Phase::Stopped => PhaseModel::Stopped,
            },
            pause_after_poll: self.pause_after_poll,
        }
    }
}

impl<T> Client<T> {
    /// Makes the poller of this client, once its channels are open, and says what it does first,
    /// which is to send a request.
    pub fn start_background_poller(&mut self) -> (started: (Poller, Action<T>))
        ensures
            started.0@ == (PollerModel {
                phase: PhaseModel::Requesting,
                pause_after_poll: old(self)@.pause_after_poll,
            }),
            started.1 == Action::<T>::SendRequest,
            final(self)@ == old(self)@.linked(),
    {
        let pause_after_poll = self.pause_after_poll();
        self.link_poller();
        (Poller { phase: Phase::Requesting, pause_after_poll }, Action::SendRequest)
    }
}

impl Poller {
    /// Whether an event answers what this poller waits for.
    pub fn expects<T: Clone>(&self, event: &Event<T>) -> (expected: bool)
        ensures
            expected == expects(self@.phase, *event),
    {
        match (&self.phase, event) {
            (Phase::Requesting, Event::Responded) => true,
            (Phase::Requesting, Event::RequestFailed(_)) => true,
            (Phase::Listening, Event::Received(_)) => true,
            (Phase::Listening, Event::Unreadable) => true,
            (Phase::Listening, Event::BodyEnded) => true,
            (Phase::Listening, Event::StateChanged) => true,
            (Phase::Listening, Event::AbortRequested) => true,
            (Phase::Paused, Event::Resumed(_)) => true,
            (Phase::ReportingFailure, Event::PassedOn(_)) => true,
            (Phase::Delivering(_, _), Event::PassedOn(_)) => true,
            (Phase::ReportingError, Event::PassedOn(_)) => true,
            (Phase::Ending, Event::PassedOn(_)) => true,
            (Phase::Aborting, Event::PassedOn(_)) => true,
            _ => false,
        }
    }

    /// Takes an event in: records it in the client and says what to do next.
    pub fn step<T: Clone>(&mut self, client: &mut Client<T>, event: Event<T>) -> (action: Action<T>)
        requires
            expects(old(self)@.phase, event),
        ensures
            final(self)@ == (PollerModel {
                phase: next_phase(old(self)@.phase, old(self)@.pause_after_poll, event),
                ..old(self)@
            }),
            final(client)@ == stepped(old(self)@.phase, old(client)@, event),
            action == next_action(old(self)@.phase, old(self)@.pause_after_poll, event),
    {
        match event {
            Event::Responded => {
                self.phase = Phase::Listening;
                Action::Listen
            },
            Event::RequestFailed(e) => {
                self.phase = Phase::ReportingFailure;
                Action::PassOn(Err(ClientError::RequestError(e)))
            },
            Event::Received(data) => match data {
                Data::Status(_) => {
                    client.update_last_message_id(&data);
                    Action::Listen
                },
                Data::Normal(message) => {
                    self.phase = Phase::Delivering(message.channel.clone(), message.message_id);
                    Action::PassOn(Ok(PollerMessage::UserMessage(Arc::new(message))))
                },
            },
            Event::Unreadable => {
                self.phase = Phase::ReportingError;
                Action::PassOn(Err(ClientError::UnknownError))
            },
            Event::BodyEnded => {
                self.phase = Phase::Ending;
                Action::PassOn(Ok(PollerMessage::PollEnded))
            },
            Event::StateChanged => {
                self.phase = Phase::Requesting;
                Action::SendRequest
            },
            Event::AbortRequested => {
                client.poller_stopped();
                self.phase = Phase::Aborting;
                Action::PassOn(Err(ClientError::Abort))
            },
            Event::PassedOn(received) => self.passed_on(client, received),
            Event::Resumed(commands) => {
                match commands {
                    Some(commands) => {
                        client.apply(commands);
                    },
                    None => {},
                }
                self.phase = Phase::Requesting;
                Action::SendRequest
            },
        }
    }

    /// Takes in that something was passed on, and whether anyone was there to receive it.
    fn passed_on<T: Clone>(&mut self, client: &mut Client<T>, received: bool) -> (action: Action<T>)
        requires
            expects(old(self)@.phase, Event::<T>::PassedOn(received)),
        ensures
            final(self)@ == (PollerModel {
                phase: next_phase(
                    old(self)@.phase,
                    old(self)@.pause_after_poll,
                    Event::<T>::PassedOn(received),
                ),
                ..old(self)@
            }),
            final(client)@ == stepped(
                old(self)@.phase,
                old(client)@,
                Event::<T>::PassedOn(received),
            ),
            action == next_action(
                old(self)@.phase,
                old(self)@.pause_after_poll,
                Event::<T>::PassedOn(received),
            ),
    {
        let mut phase = Phase::Stopped;
        std::mem::swap(&mut phase, &mut self.phase);
        match phase {
            Phase::ReportingFailure => {
                self.phase = Phase::Requesting;
                Action::SendRequest
            },
            Phase::Aborting => Action::Stop,
            Phase::Delivering(channel, message_id) => if received {
                client.raise(channel, message_id);
                self.phase = Phase::Listening;
                Action::Listen
            } else {
                client.poller_stopped();
                Action::Stop
            },
            Phase::ReportingError => if received {
                self.phase = Phase::Listening;
                Action::Listen
            } else {
                client.poller_stopped();
                Action::Stop
            },
            _ => if !received {
                client.poller_stopped();
                Action::Stop
            } else if self.pause_after_poll {
                self.phase = Phase::Paused;
                Action::AwaitResume
            } else {
                self.phase = Phase::Requesting;
                Action::SendRequest
            },
        }
    }
}

/// A poller that has stopped does nothing any more.
pub proof fn law_stopped_is_final<T: Clone>(event: Event<T>)
    ensures
        !expects(PhaseModel::Stopped, event),
{
}

/// What a poller says to do is what it then waits for.
pub proof fn law_action_fits_phase<T: Clone>(
    phase: PhaseModel,
    pause_after_poll: bool,
    event: Event<T>,
)
    requires
        expects(phase, event),
    ensures
        match next_action(phase, pause_after_poll, event) {
            Action::SendRequest => next_phase(phase, pause_after_poll, event)
                == PhaseModel::Requesting,
            Action::Listen => next_phase(phase, pause_after_poll, event) == PhaseModel::Listening,
            Action::AwaitResume => next_phase(phase, pause_after_poll, event)
                == PhaseModel::Paused,
            Action::Stop => next_phase(phase, pause_after_poll, event) == PhaseModel::Stopped,
            Action::PassOn(_) => forall|received: bool| #[trigger]
                expects(
                    next_phase(phase, pause_after_poll, event),
                    Event::<T>::PassedOn(received),
                ),
        },
{
}

/// A poller that stops has given up its place, and one that gives it up is about to stop.
pub proof fn law_stopping_gives_up_the_place<T: Clone>(
    phase: PhaseModel,
    pause_after_poll: bool,
    event: Event<T>,
)
    requires
        expects(phase, event),
    ensures
        next_phase(phase, pause_after_poll, event) is Stopped ==> gives_up(phase, event)
            || phase is Aborting,
        next_phase(phase, pause_after_poll, event) is Aborting ==> gives_up(phase, event),
        gives_up(phase, event) ==> next_phase(phase, pause_after_poll, event) is Stopped
            || next_phase(phase, pause_after_poll, event) is Aborting,
{
}

/// Status messages are never passed on. They are recorded at once, and the poller goes on
/// listening.
pub proof fn law_status_is_recorded_and_not_passed_on<T: Clone>(
    pause_after_poll: bool,
    topics: Topics,
    data: Data<T>,
)
    requires
        data is Status,
    ensures
        next_action(PhaseModel::Listening, pause_after_poll, Event::Received(data))
            is Listen,
        next_phase(PhaseModel::Listening, pause_after_poll, Event::Received(data)) is Listening,
        next_topics(PhaseModel::Listening, topics, Event::Received(data)) == state::recorded(
            topics,
            data,
        ),
{
}

/// A user message is passed on as it came. It is recorded if someone received it, and then the
/// poller goes on listening; if no one did, it is not recorded, and the poller stops.
pub proof fn law_message_is_recorded_once_received<T: Clone>(
    pause_after_poll: bool,
    topics: Topics,
    message: UserMessage<T>,
    received: bool,
)
    ensures
        ({
            let event = Event::Received(Data::Normal(message));
            let passed_on = Event::<T>::PassedOn(received);
            let phase = next_phase(PhaseModel::Listening, pause_after_poll, event);
            let last = next_phase(phase, pause_after_poll, passed_on);
            &&& next_action(PhaseModel::Listening, pause_after_poll, event) matches Action::PassOn(
                Ok(PollerMessage::UserMessage(sent)),
            ) && *sent == message
            &&& expects(phase, passed_on)
            &&& next_topics(
                phase,
                next_topics(PhaseModel::Listening, topics, event),
                passed_on,
            ) == if received {
                state::recorded(topics, Data::Normal(message))
            } else {
                topics
            }
            &&& last == if received {
                PhaseModel::Listening
            } else {
                PhaseModel::Stopped
            }
        }),
{
}

/// A listening poller that is told to stop says so to all streams, stops whether or not anyone
/// receives that, and leaves the topics as they are. A stream that receives it ends.
pub proof fn law_abort_stops_poller_and_streams<T: Clone>(
    pause_after_poll: bool,
    topics: Topics,
    received: bool,
)
    ensures
        ({
            let abort = Event::<T>::AbortRequested;
            let passed_on = Event::<T>::PassedOn(received);
            let phase = next_phase(PhaseModel::Listening, pause_after_poll, abort);
            &&& gives_up(PhaseModel::Listening, abort)
            &&& next_action(PhaseModel::Listening, pause_after_poll, abort) matches Action::PassOn(
                item,
            ) && client::stream_step_of(client::Received::Item(item)) is End
            &&& next_phase(phase, pause_after_poll, passed_on) is Stopped
            &&& next_topics(phase, next_topics(PhaseModel::Listening, topics, abort), passed_on)
                == topics
        }),
{
}

/// When a poll ends and someone receives that, the poller polls again; if it is to pause, it does
/// so only after a command.
pub proof fn law_polls_follow_each_other<T: Clone>(
    pause_after_poll: bool,
    commands: Option<Vec<ResumeCommand>>,
)
    ensures
        ({
            let ended = Event::<T>::BodyEnded;
            let passed_on = Event::<T>::PassedOn(true);
            let resumed = Event::<T>::Resumed(commands);
            let phase = next_phase(PhaseModel::Listening, pause_after_poll, ended);
            let next = next_phase(phase, pause_after_poll, passed_on);
            if pause_after_poll {
                &&& next_action(phase, pause_after_poll, passed_on) is AwaitResume
                &&& forall|event: Event<T>| #[trigger] expects(next, event) ==> event is Resumed
                &&& next_action(next, pause_after_poll, resumed) is SendRequest
            } else {
                next_action(phase, pause_after_poll, passed_on) is SendRequest
            }
        }),
{
}

/// A failed request is sent again whether or not anyone receives the news, and a part of a poll that
/// cannot be read does not end the poll as long as someone does. Neither changes the topics.
pub proof fn law_errors_are_survived<T: Clone>(
    pause_after_poll: bool,
    topics: Topics,
    e: Arc<reqwest::Error>,
    received: bool,
)
    ensures
        ({
            let failed = Event::<T>::RequestFailed(e);
            let passed_on = Event::<T>::PassedOn(received);
            let phase = next_phase(PhaseModel::Requesting, pause_after_poll, failed);
            &&& next_action(phase, pause_after_poll, passed_on) is SendRequest
            &&& next_topics(phase, next_topics(PhaseModel::Requesting, topics, failed), passed_on)
                == topics
        }),
        ({
            let unreadable = Event::<T>::Unreadable;
            let passed_on = Event::<T>::PassedOn(true);
            let phase = next_phase(PhaseModel::Listening, pause_after_poll, unreadable);
            &&& next_action(phase, pause_after_poll, passed_on) is Listen
            &&& next_topics(phase, next_topics(PhaseModel::Listening, topics, unreadable), passed_on)
                == topics
        }),
{
}

/// What has come of a row of events.
pub struct Run<T> {
    /// What the poller waits for.
    pub phase: PhaseModel,
    /// The client.
    pub client: ClientModel,
    /// What was passed on to the streams, in order.
    pub passed_on: Seq<Result<PollerMessage<T>, ClientError>>,
    /// Whether each event answered what the poller waited for.
    pub expected: bool,
}

/// What comes of a row of events, if nothing but the poller changes the client.
pub open spec fn after_run<T: Clone>(
    phase: PhaseModel,
    pause_after_poll: bool,
    client: ClientModel,
    events: Seq<Event<T>>,
) -> Run<T>
    decreases events.len(),
{
    if events.len() == 0 {
        Run { phase, client, passed_on: seq![], expected: true }
    } else {
        let run = after_run(phase, pause_after_poll, client, events.drop_last());
        let event = events.last();
        Run {
            phase: next_phase(run.phase, pause_after_poll, event),
            client: stepped(run.phase, run.client, event),
            passed_on: match next_action(run.phase, pause_after_poll, event) {
                Action::PassOn(item) => run.passed_on.push(item),
                _ => run.passed_on,
            },
            expected: run.expected && expects(run.phase, event),
        }
    }
}

pub(crate) proof fn lemma_run_goes_on<T: Clone>(
    phase: PhaseModel,
    pause_after_poll: bool,
    client: ClientModel,
    first: Seq<Event<T>>,
    second: Seq<Event<T>>,
)
    ensures
        ({
            let middle = after_run(phase, pause_after_poll, client, first);
            let last = after_run(middle.phase, pause_after_poll, middle.client, second);
            after_run(phase, pause_after_poll, client, first + second) == (Run {
                passed_on: middle.passed_on + last.passed_on,
                expected: middle.expected && last.expected,
                ..last
            })
        }),
    decreases second.len(),
{
    let middle = after_run(phase, pause_after_poll, client, first);
    let last = after_run(middle.phase, pause_after_poll, middle.client, second);
    let whole = after_run(phase, pause_after_poll, client, first + second);
    if second.len() == 0 {
        assert(first + second =~= first);
        assert(middle.passed_on + last.passed_on =~= middle.passed_on);
    } else {
        lemma_run_goes_on(phase, pause_after_poll, client, first, second.drop_last());
        assert((first + second).drop_last() =~= first + second.drop_last());
        assert(whole.passed_on =~= middle.passed_on + last.passed_on);
    }
}

/// Between commands, a poller never takes a topic away nor a position back.
pub proof fn law_positions_never_go_back_in_a_run<T: Clone>(
    phase: PhaseModel,
    pause_after_poll: bool,
    client: ClientModel,
    events: Seq<Event<T>>,
)
    requires
        forall|i: int| 0 <= i < events.len() ==> !(#[trigger] events[i] is Resumed),
    ensures
        state::no_further_back(
            client.topics,
            after_run(phase, pause_after_poll, client, events).client.topics,
        ),
    decreases events.len(),
{
    if events.len() > 0 {
        law_positions_never_go_back_in_a_run(phase, pause_after_poll, client, events.drop_last());
        assert(!(events[events.len() - 1] is Resumed));
    }
}

/// Once a message was received, and as long as only the poller changes the topics and no commands
/// come, each request asks for what follows that message: it names the channel with a position that
/// is not before the message. The one channel of which this is not so is `__seq`, which is hidden
/// by the number of the request.
pub proof fn law_received_message_is_not_asked_for_again<T: Clone>(
    phase: PhaseModel,
    pause_after_poll: bool,
    client: ClientModel,
    events: Seq<Event<T>>,
    i: int,
    message: UserMessage<T>,
)
    requires
        0 <= i,
        i + 1 < events.len(),
        events[i] == Event::Received(Data::Normal(message)),
        events[i + 1] == Event::<T>::PassedOn(true),
        forall|j: int| i + 1 < j < events.len() ==> !(#[trigger] events[j] is Resumed),
        message.channel@ != "__seq"@,
    ensures
        ({
            let form = after_run(phase, pause_after_poll, client, events).client.next_request();
            &&& form.dom().contains(message.channel@)
            &&& text::numeral_value(form[message.channel@]) >= message.message_id
        }),
{
    let first = events.take(i + 2);
    let second = events.skip(i + 2);
    assert(events =~= first + second);
    lemma_run_goes_on(phase, pause_after_poll, client, first, second);
    assert(first.drop_last() =~= events.take(i + 1));
    assert(first.drop_last().drop_last() =~= events.take(i));
    let before = after_run(phase, pause_after_poll, client, events.take(i));
    let middle = after_run(phase, pause_after_poll, client, first);
    assert(after_run(phase, pause_after_poll, client, events.take(i + 1)).client.topics
        == before.client.topics);
    assert(middle.client.topics == state::raised(
        before.client.topics,
        message.channel@,
        message.message_id,
    ));
    assert forall|j: int| 0 <= j < second.len() implies !(#[trigger] second[j] is Resumed) by {
        assert(second[j] == events[j + i + 2]);
    }
    law_positions_never_go_back_in_a_run(middle.phase, pause_after_poll, middle.client, second);
    let last = after_run(phase, pause_after_poll, client, events).client;
    assert(middle.client.topics.dom().contains(message.channel@));
    state::law_request_tells_all_positions(last.topics, last.requested().seq);
}

/// The next part of a poll is taken in as what it is: a message as received, status or not, and what
/// cannot be read as such. The end is the end.
pub proof fn law_parts_are_taken_in_as_they_are<T: Clone>(
    part: Option<Option<Data<T>>>,
    event: Event<T>,
)
    requires
        call_ensures(event_of::<T>, (part,), event),
    ensures
        event == event_for(part),
        match part {
            Some(Some(data)) => event == Event::Received(data),
            Some(None) => event is Unreadable,
            None => event is BodyEnded,
        },
{
}

/// A new poller first sends a request. From then on commands reach it, and nothing else of the client
/// changes.
pub proof fn law_new_poller_sends_a_request<T: Clone>(
    client: &mut Client<T>,
    poller: Poller,
    action: Action<T>,
    pause_after_poll: bool,
)
    requires
        call_ensures(Client::<T>::pause_after_poll, (&*old(client),), pause_after_poll),
        call_ensures(Client::<T>::start_background_poller, (client,), (poller, action)),
    ensures
        action is SendRequest,
        poller@.phase is Requesting,
        poller@.pause_after_poll == pause_after_poll,
        final(client)@ == (ClientModel { poller_linked: true, ..old(client)@ }),
{
}

/// A poller waits for the outcome of what it was last told to do: that of its request, the next thing
/// that happens while it listens, the command to go on, or whether something was received. A stopped
/// one waits for nothing.
pub proof fn law_poller_waits_for_one_thing<T: Clone>(
    poller: Poller,
    event: Event<T>,
    expected: bool,
)
    requires
        call_ensures(Poller::expects::<T>, (&poller, &event), expected),
    ensures
        expected == match event {
            Event::Responded => poller@.phase is Requesting,
            Event::RequestFailed(_) => poller@.phase is Requesting,
            Event::Resumed(_) => poller@.phase is Paused,
            Event::PassedOn(_) => poller@.phase is ReportingFailure || poller@.phase is Delivering
                || poller@.phase is ReportingError || poller@.phase is Ending
                || poller@.phase is Aborting,
            _ => poller@.phase is Listening,
        },
        expected == expects(poller@.phase, event),
{
}

/// A response is listened to. A failed request is told to all streams, with its cause. Neither
/// changes the client.
pub proof fn law_request_is_answered_or_told_to_have_failed<T: Clone>(
    poller: &mut Poller,
    client: &mut Client<T>,
    event: Event<T>,
    action: Action<T>,
)
    requires
        call_ensures(Poller::step::<T>, (poller, client, event), action),
        old(poller)@.phase is Requesting,
        event is Responded || event is RequestFailed,
    ensures
        event is Responded ==> action is Listen && final(poller)@.phase is Listening,
        event matches Event::RequestFailed(e) ==> {
            &&& action == Action::<T>::PassOn(Err(ClientError::RequestError(e)))
            &&& final(poller)@.phase is ReportingFailure
        },
        final(client)@ == old(client)@,
        final(poller)@.pause_after_poll == old(poller)@.pause_after_poll,
{
}

/// A status message is recorded at once, and the poller goes on listening.
pub proof fn law_status_is_recorded_at_once<T: Clone>(
    poller: &mut Poller,
    client: &mut Client<T>,
    event: Event<T>,
    action: Action<T>,
)
    requires
        call_ensures(Poller::step::<T>, (poller, client, event), action),
        old(poller)@.phase is Listening,
        event matches Event::Received(Data::Status(_)),
    ensures
        action is Listen,
        final(poller)@.phase is Listening,
        event matches Event::Received(data) && final(client)@ == (ClientModel {
            topics: state::recorded(old(client)@.topics, data),
            ..old(client)@
        }),
        final(poller)@.pause_after_poll == old(poller)@.pause_after_poll,
{
}

/// A user message is told to all streams as it came, and nothing is recorded yet.
pub proof fn law_user_message_is_told_first<T: Clone>(
    poller: &mut Poller,
    client: &mut Client<T>,
    event: Event<T>,
    action: Action<T>,
)
    requires
        call_ensures(Poller::step::<T>, (poller, client, event), action),
        old(poller)@.phase is Listening,
        event matches Event::Received(Data::Normal(_)),
    ensures
        event matches Event::Received(Data::Normal(message)) && {
            &&& action matches Action::PassOn(Ok(PollerMessage::UserMessage(told))) && *told
                == message
            &&& final(poller)@.phase == PhaseModel::Delivering {
                channel: message.channel@,
                message_id: message.message_id,
            }
        },
        final(client)@ == old(client)@,
        final(poller)@.pause_after_poll == old(poller)@.pause_after_poll,
{
}

/// What cannot be read is told to all streams, and so is the end of a poll. A change of the topics is
/// told to no one: a new request is sent at once. None of these changes the client.
pub proof fn law_errors_ends_and_changes_leave_the_client_alone<T: Clone>(
    poller: &mut Poller,
    client: &mut Client<T>,
    event: Event<T>,
    action: Action<T>,
)
    requires
        call_ensures(Poller::step::<T>, (poller, client, event), action),
        old(poller)@.phase is Listening,
        event is Unreadable || event is BodyEnded || event is StateChanged,
    ensures
        event is Unreadable ==> {
            &&& action == Action::<T>::PassOn(Err(ClientError::UnknownError))
            &&& final(poller)@.phase is ReportingError
        },
        event is BodyEnded ==> {
            &&& action == Action::<T>::PassOn(Ok(PollerMessage::PollEnded))
            &&& final(poller)@.phase is Ending
        },
        event is StateChanged ==> action is SendRequest && final(poller)@.phase is Requesting,
        final(client)@ == old(client)@,
        final(poller)@.pause_after_poll == old(poller)@.pause_after_poll,
{
}

/// A poller that is to stop tells all streams, and gives up its place at once. The topics stay.
pub proof fn law_abort_is_told_to_all_streams<T: Clone>(
    poller: &mut Poller,
    client: &mut Client<T>,
    event: Event<T>,
    action: Action<T>,
)
    requires
        call_ensures(Poller::step::<T>, (poller, client, event), action),
        old(poller)@.phase is Listening,
        event is AbortRequested,
    ensures
        action == Action::<T>::PassOn(Err(ClientError::Abort)),
        final(poller)@.phase is Aborting,
        final(client)@ == (ClientModel { poller_running: false, ..old(client)@ }),
        final(poller)@.pause_after_poll == old(poller)@.pause_after_poll,
{
}

/// A user message that someone received is recorded, and the poller goes on listening. One that no
/// one received is not, and the poller stops and gives up its place.
pub proof fn law_received_message_is_recorded<T: Clone>(
    poller: &mut Poller,
    client: &mut Client<T>,
    event: Event<T>,
    action: Action<T>,
)
    requires
        call_ensures(Poller::step::<T>, (poller, client, event), action),
        old(poller)@.phase is Delivering,
        event is PassedOn,
    ensures
        event == Event::<T>::PassedOn(true) ==> {
            &&& action is Listen
            &&& final(poller)@.phase is Listening
            &&& old(poller)@.phase matches PhaseModel::Delivering { channel, message_id }
                && final(client)@ == (ClientModel {
                topics: state::raised(old(client)@.topics, channel, message_id),
                ..old(client)@
            })
        },
        event == Event::<T>::PassedOn(false) ==> {
            &&& action is Stop
            &&& final(poller)@.phase is Stopped
            &&& final(client)@ == (ClientModel { poller_running: false, ..old(client)@ })
        },
        final(poller)@.pause_after_poll == old(poller)@.pause_after_poll,
{
}

/// After the news of a failed request the next one is sent, and after that of an abort the poller
/// stops, whether or not anyone received it.
pub proof fn law_news_of_failure_and_abort_need_no_one<T: Clone>(
    poller: &mut Poller,
    client: &mut Client<T>,
    event: Event<T>,
    action: Action<T>,
)
    requires
        call_ensures(Poller::step::<T>, (poller, client, event), action),
        old(poller)@.phase is ReportingFailure || old(poller)@.phase is Aborting,
        event is PassedOn,
    ensures
        old(poller)@.phase is ReportingFailure ==> action is SendRequest
            && final(poller)@.phase is Requesting,
        old(poller)@.phase is Aborting ==> action is Stop && final(poller)@.phase is Stopped,
        final(client)@ == old(client)@,
        final(poller)@.pause_after_poll == old(poller)@.pause_after_poll,
{
}

/// After the news of something that cannot be read the poller goes on listening, and after that of the
/// end of a poll it sends the next request, or waits for a command if it is to pause. Where no one
/// received the news, it stops and gives up its place.
pub proof fn law_news_of_errors_and_ends_need_someone<T: Clone>(
    poller: &mut Poller,
    client: &mut Client<T>,
    event: Event<T>,
    action: Action<T>,
)
    requires
        call_ensures(Poller::step::<T>, (poller, client, event), action),
        old(poller)@.phase is ReportingError || old(poller)@.phase is Ending,
        event is PassedOn,
    ensures
        event == Event::<T>::PassedOn(true) ==> {
            &&& final(client)@ == old(client)@
            &&& old(poller)@.phase is ReportingError ==> action is Listen
                && final(poller)@.phase is Listening
            &&& old(poller)@.phase is Ending && !old(poller)@.pause_after_poll ==> action
                is SendRequest && final(poller)@.phase is Requesting
            &&& old(poller)@.phase is Ending && old(poller)@.pause_after_poll ==> action
                is AwaitResume && final(poller)@.phase is Paused
        },
        event == Event::<T>::PassedOn(false) ==> {
            &&& action is Stop
            &&& final(poller)@.phase is Stopped
            &&& final(client)@ == (ClientModel { poller_running: false, ..old(client)@ })
        },
        final(poller)@.pause_after_poll == old(poller)@.pause_after_poll,
{
}

/// A paused poller that is to go on carries out the commands that came, if any, and sends a request.
pub proof fn law_commands_are_carried_out_on_resuming<T: Clone>(
    poller: &mut Poller,
    client: &mut Client<T>,
    event: Event<T>,
    action: Action<T>,
)
    requires
        call_ensures(Poller::step::<T>, (poller, client, event), action),
        old(poller)@.phase is Paused,
        event is Resumed,
    ensures
        action is SendRequest,
        final(poller)@.phase is Requesting,
        event matches Event::Resumed(Some(commands)) ==> final(client)@ == (ClientModel {
            topics: state::all_commanded(old(client)@.topics, commands@),
            ..old(client)@
        }),
        event matches Event::Resumed(None) ==> final(client)@ == old(client)@,
        final(poller)@.pause_after_poll == old(poller)@.pause_after_poll,
{
}

} // verus!
