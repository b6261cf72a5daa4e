//! What the client asks the server for: the topics, with the last position seen in each, and a
//! counter of requests.

use vstd::prelude::*;

use crate::message::Data;
use crate::table;
use crate::table::Table;
use crate::text;
use crate::text::decimal_text;

verus! {

/// A change of the topics that is made when a paused poller goes on.
#[derive(Debug)]
pub enum ResumeCommand {
    /// Ask for a topic from a position on.
    Subscribe((String, i64)),
    /// Ask for a topic no longer.
    Unsubscribe(String),
}

/// Topics, each with the last position seen in it.
pub type Topics = Map<Seq<char>, i64>;

/// `topics` after `id` was seen in `topic`: a position never goes back.
pub open spec fn raised(topics: Topics, topic: Seq<char>, id: i64) -> Topics {
    topics.insert(
        topic,
        if topics.dom().contains(topic) && topics[topic] > id {
            topics[topic]
        } else {
            id
        },
    )
}

/// The topics of both sides, each with the later of its positions.
pub open spec fn merged(topics: Topics, positions: Topics) -> Topics {
    Map::new(
        |topic: Seq<char>| topics.dom().contains(topic) || positions.dom().contains(topic),
        |topic: Seq<char>|
            if !positions.dom().contains(topic) {
                topics[topic]
            } else if topics.dom().contains(topic) && topics[topic] > positions[topic] {
                topics[topic]
            } else {
                positions[topic]
            },
    )
}

/// `topics` after a message was received.
pub open spec fn recorded<T: Clone>(topics: Topics, data: Data<T>) -> Topics {
    match data {
        Data::Status(positions) => merged(topics, positions@),
        Data::Normal(message) => raised(topics, message.channel@, message.message_id),
    }
}

/// `topics` after one command.
pub open spec fn commanded(topics: Topics, command: ResumeCommand) -> Topics {
    match command {
        ResumeCommand::Subscribe((topic, id)) => topics.insert(topic@, id),
        ResumeCommand::Unsubscribe(topic) => topics.remove(topic@),
    }
}

/// `topics` after commands that are carried out in order.
pub open spec fn all_commanded(topics: Topics, commands: Seq<ResumeCommand>) -> Topics
    decreases commands.len(),
{
    if commands.len() == 0 {
        topics
    } else {
        commanded(all_commanded(topics, commands.drop_last()), commands.last())
    }
}

/// The topics that a list names.
pub open spec fn named(topics: Seq<&str>) -> Set<Seq<char>> {
    Set::new(|topic: Seq<char>| exists|i: int| 0 <= i < topics.len() && (#[trigger] topics[i])@ == topic)
}

/// The fields of a request: each topic with its position, and the number of the request under
/// `__seq`, whatever topic has that name.
pub open spec fn form_of(topics: Topics, seq: i64) -> Map<Seq<char>, Seq<char>> {
    topics.map_values(|id: i64| text::decimal(id as int)).insert(
        "__seq"@,
        text::decimal(seq as int),
    )
}

/// The topics and the counter of requests.
pub struct ClientState {
    subscriptions: Table<i64>,
    seq: i64,
}

/// The contents of a [`ClientState`].
pub struct StateModel {
    pub topics: Topics,
    pub seq: i64,
}

impl View for ClientState {
    type V = StateModel;

    closed spec fn view(&self) -> StateModel {
        StateModel { topics: self.subscriptions@, seq: self.seq }
    }
}

impl Default for ClientState {
    fn default() -> (state: Self)
        ensures
            state@ == (StateModel { topics: Map::empty(), seq: 0 }),
    {
        ClientState { subscriptions: Table::new(), seq: 0 }
    }
}

impl ClientState {
    /// The number of the last request.
    pub fn seq(&self) -> (seq: i64)
        ensures
            seq == self@.seq,
    {
        self.seq
    }

    /// The last position seen in a topic that is asked for.
    pub fn position(&self, topic: &str) -> (id: Option<i64>)
        ensures
            id == (if self@.topics.dom().contains(topic@) {
                Some(self@.topics[topic@])
            } else {
                None
            }),
    {
        match self.subscriptions.get(topic) {
            Some(id) => Some(*id),
            None => None,
        }
    }

    /// Asks for a topic from a position on.
    pub fn subscribe(&mut self, topic: String, id: i64)
        ensures
            final(self)@ == (StateModel {
                topics: old(self)@.topics.insert(topic@, id),
                ..old(self)@
            }),
    {
        self.subscriptions.insert(topic, id);
    }

    /// Asks for all topics of a table.
    pub fn subscribe_all(&mut self, subscriptions: &Table<i64>)
        ensures
            final(self)@ == (StateModel {
                topics: old(self)@.topics.union_prefer_right(subscriptions@),
                ..old(self)@
            }),
    {
        let entries = subscriptions.entries();
        let ghost before = self@;
        let mut i: usize = 0;
        assert(before.topics =~= before.topics.union_prefer_right(
            table::entry_map(entries@.take(0)),
        ));
        while i < entries.len()
            invariant
                i <= entries@.len(),
                table::distinct_keys(entries@),
                self@ == (StateModel {
                    topics: before.topics.union_prefer_right(
                        table::entry_map(entries@.take(i as int)),
                    ),
                    ..before
                }),
            decreases entries@.len() - i,
        {
            proof {
                table::lemma_prefix(entries@, i as int);
            }
            self.subscribe(entries[i].0.clone(), entries[i].1);
            i = i + 1;
            assert(self@.topics =~= before.topics.union_prefer_right(
                table::entry_map(entries@.take(i as int)),
            ));
        }
        assert(entries@.take(i as int) =~= entries@);
    }

    /// Asks for a topic no longer.
    pub fn unsubscribe(&mut self, topic: &str)
        ensures
            final(self)@ == (StateModel {
                topics: old(self)@.topics.remove(topic@),
                ..old(self)@
            }),
    {
        self.subscriptions.remove(topic);
    }

    /// Asks for none of the topics of a list any longer.
    pub fn unsubscribe_all(&mut self, topics: &Vec<&str>)
        ensures
            final(self)@ == (StateModel {
                topics: old(self)@.topics.remove_keys(named(topics@)),
                ..old(self)@
            }),
    {
        let ghost before = self@;
        let mut i: usize = 0;
        assert(before.topics =~= before.topics.remove_keys(named(topics@.take(0))));
        while i < topics.len()
            invariant
                i <= topics@.len(),
                self@ == (StateModel {
                    topics: before.topics.remove_keys(named(topics@.take(i as int))),
                    ..before
                }),
            decreases topics@.len() - i,
        {
            let ghost done = topics@.take(i as int);
            self.unsubscribe(topics[i]);
            i = i + 1;
            proof {
                let more = topics@.take(i as int);
                assert(more =~= done.push(topics@[i - 1]));
                assert forall|topic: Seq<char>| #[trigger] named(more).contains(topic) == (named(
                    done,
                ).contains(topic) || topic == topics@[i - 1]@) by {
                    if named(done).contains(topic) {
                        let j = choose|j: int| 0 <= j < done.len() && (#[trigger] done[j])@ == topic;
                        assert(more[j]@ == topic);
                    }
                    if topic == topics@[i - 1]@ {
                        assert(more[i - 1]@ == topic);
                    }
                    if named(more).contains(topic) {
                        let j = choose|j: int| 0 <= j < more.len() && (#[trigger] more[j])@ == topic;
                        if j < i - 1 {
                            assert(done[j]@ == topic);
                        }
                    }
                }
                assert(self@.topics =~= before.topics.remove_keys(named(more)));
            }
        }
        assert(topics@.take(i as int) =~= topics@);
    }

    /// Records that `id` was seen in a topic.
    pub fn raise(&mut self, topic: String, id: i64)
        ensures
            final(self)@ == (StateModel {
                topics: raised(old(self)@.topics, topic@, id),
                ..old(self)@
            }),
    {
        let latest = match self.position(topic.as_str()) {
            Some(seen) => if seen > id {
                seen
            } else {
                id
            },
            None => id,
        };
        self.subscribe(topic, latest);
    }

    /// Records what a message says of positions.
    pub fn update_last_message_id<T: Clone>(&mut self, message: &Data<T>)
        ensures
            final(self)@ == (StateModel {
                topics: recorded(old(self)@.topics, *message),
                ..old(self)@
            }),
    {
        match message {
            Data::Status(positions) => {
                let entries = positions.entries();
                let ghost before = self@;
                let mut i: usize = 0;
                assert(before.topics =~= merged(
                    before.topics,
                    table::entry_map(entries@.take(0)),
                ));
                while i < entries.len()
                    invariant
                        i <= entries@.len(),
                        table::distinct_keys(entries@),
                        self@ == (StateModel {
                            topics: merged(
                                before.topics,
                                table::entry_map(entries@.take(i as int)),
                            ),
                            ..before
                        }),
                    decreases entries@.len() - i,
                {
                    proof {
                        table::lemma_prefix(entries@, i as int);
                    }
                    self.raise(entries[i].0.clone(), entries[i].1);
                    i = i + 1;
                    assert(self@.topics =~= merged(
                        before.topics,
                        table::entry_map(entries@.take(i as int)),
                    ));
                }
                assert(entries@.take(i as int) =~= entries@);
            },
            Data::Normal(message) => {
                self.raise(message.channel.clone(), message.message_id);
            },
        }
    }

    /// Carries out commands in order.
    pub fn apply(&mut self, commands: Vec<ResumeCommand>)
        ensures
            final(self)@ == (StateModel {
                topics: all_commanded(old(self)@.topics, commands@),
                ..old(self)@
            }),
    {
        let ghost before = self@;
        let mut i: usize = 0;
        while i < commands.len()
            invariant
                i <= commands@.len(),
                self@ == (StateModel {
                    topics: all_commanded(before.topics, commands@.take(i as int)),
                    ..before
                }),
            decreases commands@.len() - i,
        {
            assert(commands@.take(i + 1).drop_last() =~= commands@.take(i as int));
            match &commands[i] {
                ResumeCommand::Subscribe(subscription) => {
                    self.subscribe(subscription.0.clone(), subscription.1);
                },
                ResumeCommand::Unsubscribe(topic) => {
                    self.unsubscribe(topic.as_str());
                },
            }
            i = i + 1;
        }
        assert(commands@.take(i as int) =~= commands@);
    }

    /// Counts one more request and gives its fields.
    pub fn prepare_request(&mut self) -> (form: Table<String>)
        requires
            old(self)@.seq < i64::MAX,
        ensures
            final(self)@ == (StateModel { seq: (old(self)@.seq + 1) as i64, ..old(self)@ }),
            form@.map_values(|field: String| field@) == form_of(
                final(self)@.topics,
                final(self)@.seq,
            ),
    {
        let entries = self.subscriptions.entries();
        let mut form: Table<String> = Table::new();
        let mut i: usize = 0;
        assert(form@.map_values(|field: String| field@) =~= table::entry_map(
            entries@.take(0),
        ).map_values(|id: i64| text::decimal(id as int)));
        while i < entries.len()
            invariant
                i <= entries@.len(),
                table::distinct_keys(entries@),
                form@.map_values(|field: String| field@) == table::entry_map(
                    entries@.take(i as int),
                ).map_values(|id: i64| text::decimal(id as int)),
            decreases entries@.len() - i,
        {
            proof {
                table::lemma_prefix(entries@, i as int);
            }
            let ghost before = form@;
            let field = decimal_text(entries[i].1);
            form.insert(entries[i].0.clone(), field);
            i = i + 1;
            assert(form@.map_values(|field: String| field@) =~= before.map_values(
                |field: String| field@,
            ).insert(entries@[i - 1].0@, field@));
            assert(form@.map_values(|field: String| field@) =~= table::entry_map(
                entries@.take(i as int),
            ).map_values(|id: i64| text::decimal(id as int)));
        }
        assert(entries@.take(i as int) =~= entries@);
        let ghost before = form@;
        self.seq = self.seq + 1;
        let number = decimal_text(self.seq);
        form.insert("__seq".to_owned(), number);
        assert(form@.map_values(|field: String| field@) =~= before.map_values(
            |field: String| field@,
        ).insert("__seq"@, number@));
        form
    }

    /// The topics with their positions, each topic once, in no particular order.
    pub fn subscriptions(&self) -> (subscriptions: Vec<(String, i64)>)
        ensures
            table::distinct_keys(subscriptions@),
            table::entry_map(subscriptions@) == self@.topics,
    {
        self.subscriptions.clone().into_entries()
    }
}

/// Whether no topic of `before` is missing or further back in `after`.
pub open spec fn no_further_back(before: Topics, after: Topics) -> bool {
    forall|topic: Seq<char>| #[trigger]
        before.dom().contains(topic) ==> after.dom().contains(topic) && before[topic] <= after[topic]
}

/// A message never takes a topic away nor a position back, whatever order messages come in.
pub proof fn law_positions_never_go_back<T: Clone>(topics: Topics, data: Data<T>)
    ensures
        no_further_back(topics, recorded(topics, data)),
{
}

/// After a message, the positions that it reports have been reached.
pub proof fn law_reported_positions_are_reached<T: Clone>(topics: Topics, data: Data<T>)
    ensures
        match data {
            Data::Status(positions) => no_further_back(positions@, recorded(topics, data)),
            Data::Normal(message) => {
                &&& recorded(topics, data).dom().contains(message.channel@)
                &&& recorded(topics, data)[message.channel@] >= message.message_id
            },
        },
{
}

/// A message changes nothing of the topics that it does not report on.
pub proof fn law_other_topics_are_left_alone<T: Clone>(
    topics: Topics,
    data: Data<T>,
    topic: Seq<char>,
)
    requires
        match data {
            Data::Status(positions) => !positions@.dom().contains(topic),
            Data::Normal(message) => message.channel@ != topic,
        },
    ensures
        recorded(topics, data).dom().contains(topic) == topics.dom().contains(topic),
        topics.dom().contains(topic) ==> recorded(topics, data)[topic] == topics[topic],
{
}

/// A message that comes twice is recorded once.
pub proof fn law_recording_again_changes_nothing<T: Clone>(topics: Topics, data: Data<T>)
    ensures
        recorded(recorded(topics, data), data) == recorded(topics, data),
{
    assert(recorded(recorded(topics, data), data) =~= recorded(topics, data));
}

/// The order in which messages come does not matter for the positions.
pub proof fn law_order_of_recording_does_not_matter<T: Clone>(
    topics: Topics,
    first: Data<T>,
    second: Data<T>,
)
    ensures
        recorded(recorded(topics, first), second) == recorded(recorded(topics, second), first),
{
    assert(recorded(recorded(topics, first), second) =~= recorded(
        recorded(topics, second),
        first,
    ));
}

/// A request names exactly the topics that are asked for and its own number, and the position of
/// each topic and the number can be read off it. A topic named `__seq` is hidden by the number.
pub proof fn law_request_tells_all_positions(topics: Topics, seq: i64)
    ensures
        form_of(topics, seq).dom() == topics.dom().insert("__seq"@),
        text::numeral_value(form_of(topics, seq)["__seq"@]) == seq,
        forall|topic: Seq<char>|
            topics.dom().contains(topic) && topic != "__seq"@ ==> text::numeral_value(
                #[trigger] form_of(topics, seq)[topic],
            ) == topics[topic],
{
    text::law_decimal_reads_back(seq as int);
    assert(form_of(topics, seq).dom() =~= topics.dom().insert("__seq"@));
    assert forall|topic: Seq<char>|
        topics.dom().contains(topic) && topic != "__seq"@ implies text::numeral_value(
        #[trigger] form_of(topics, seq)[topic],
    ) == topics[topic] by {
        text::law_decimal_reads_back(topics[topic] as int);
    }
}

/// Asking for a topic and then no longer for it leaves the other topics as they were.
pub proof fn law_unsubscribing_undoes_subscribing(topics: Topics, topic: Seq<char>, id: i64)
    ensures
        topics.insert(topic, id).remove(topic) == topics.remove(topic),
        !topics.dom().contains(topic) ==> topics.insert(topic, id).remove(topic) == topics,
{
    assert(topics.insert(topic, id).remove(topic) =~= topics.remove(topic));
    if !topics.dom().contains(topic) {
        assert(topics.remove(topic) =~= topics);
    }
}

/// A fresh client that is asked for the drained topics of another goes on where that one was.
pub proof fn law_drained_topics_can_be_taken_up(drained: Seq<(String, i64)>, topics: Topics)
    requires
        table::entry_map(drained) == topics,
    ensures
        Map::<Seq<char>, i64>::empty().union_prefer_right(table::entry_map(drained)) == topics,
{
    assert(Map::<Seq<char>, i64>::empty().union_prefer_right(topics) =~= topics);
}

/// Commands may be sent in one go or in several.
pub proof fn law_commands_can_be_split(
    topics: Topics,
    first: Seq<ResumeCommand>,
    second: Seq<ResumeCommand>,
)
    ensures
        all_commanded(topics, first + second) == all_commanded(
            all_commanded(topics, first),
            second,
        ),
    decreases second.len(),
{
    if second.len() == 0 {
        assert(first + second =~= first);
    } else {
        law_commands_can_be_split(topics, first, second.drop_last());
        assert((first + second).drop_last() =~= first + second.drop_last());
    }
}

/// Requests with different numbers can be told apart.
pub proof fn law_requests_can_be_told_apart(one: Topics, other: Topics, a: i64, b: i64)
    requires
        a != b,
    ensures
        form_of(one, a)["__seq"@] != form_of(other, b)["__seq"@],
{
    text::law_decimal_reads_back(a as int);
    text::law_decimal_reads_back(b as int);
}

/// The greater of the position that a topic had and the one that a message reports of it is kept.
/// Where a message reports none, nothing changes.
pub proof fn law_greater_position_is_kept<T: Clone>(
    topics: Topics,
    data: Data<T>,
    topic: Seq<char>,
    reported: Option<i64>,
)
    requires
        match data {
            Data::Status(positions) => reported == if positions@.dom().contains(topic) {
                Some(positions@[topic])
            } else {
                None
            },
            Data::Normal(message) => reported == if message.channel@ == topic {
                Some(message.message_id)
            } else {
                None
            },
        },
    ensures
        ({
            let after = recorded(topics, data);
            match reported {
                Some(id) => {
                    &&& after.dom().contains(topic)
                    &&& after[topic] >= id
                    &&& topics.dom().contains(topic) ==> after[topic] >= topics[topic]
                    &&& after[topic] == id || topics.dom().contains(topic) && after[topic]
                        == topics[topic]
                },
                None => {
                    &&& after.dom().contains(topic) == topics.dom().contains(topic)
                    &&& topics.dom().contains(topic) ==> after[topic] == topics[topic]
                },
            }
        }),
{
}

/// A topic that was seen at `id` has the greater of its positions, and all others stay.
pub proof fn law_raising_keeps_the_greater_position(
    topics: Topics,
    topic: Seq<char>,
    id: i64,
    other: Seq<char>,
)
    ensures
        ({
            let after = raised(topics, topic, id);
            &&& after.dom().contains(topic)
            &&& after[topic] >= id
            &&& topics.dom().contains(topic) ==> after[topic] >= topics[topic]
            &&& after[topic] == id || topics.dom().contains(topic) && after[topic] == topics[topic]
            &&& other != topic ==> after.dom().contains(other) == topics.dom().contains(other)
            &&& other != topic && topics.dom().contains(other) ==> after[other] == topics[other]
        }),
{
}

/// Two sets of positions are put together topic by topic, and the greater of two positions is kept.
pub proof fn law_merging_keeps_the_greater_positions(
    topics: Topics,
    positions: Topics,
    topic: Seq<char>,
)
    ensures
        ({
            let after = merged(topics, positions);
            &&& after.dom().contains(topic) <==> topics.dom().contains(topic)
                || positions.dom().contains(topic)
            &&& topics.dom().contains(topic) ==> after[topic] >= topics[topic]
            &&& positions.dom().contains(topic) ==> after[topic] >= positions[topic]
            &&& after.dom().contains(topic) ==> topics.dom().contains(topic) && after[topic]
                == topics[topic] || positions.dom().contains(topic) && after[topic]
                == positions[topic]
        }),
{
}

/// Of the commands that name a topic, the last one decides: the topic is asked for from the position
/// that it gives, or no longer.
pub proof fn law_last_command_decides(
    topics: Topics,
    commands: Seq<ResumeCommand>,
    topic: Seq<char>,
    i: int,
)
    requires
        0 <= i < commands.len(),
        match commands[i] {
            ResumeCommand::Subscribe((name, _)) => name@ == topic,
            ResumeCommand::Unsubscribe(name) => name@ == topic,
        },
        forall|j: int|
            i < j < commands.len() ==> match #[trigger] commands[j] {
                ResumeCommand::Subscribe((name, _)) => name@ != topic,
                ResumeCommand::Unsubscribe(name) => name@ != topic,
            },
    ensures
        match commands[i] {
            ResumeCommand::Subscribe((_, id)) => all_commanded(topics, commands).dom().contains(
                topic,
            ) && all_commanded(topics, commands)[topic] == id,
            ResumeCommand::Unsubscribe(_) => !all_commanded(topics, commands).dom().contains(topic),
        },
    decreases commands.len(),
{
    let front = commands.drop_last();
    if i < front.len() {
        assert forall|j: int| i < j < front.len() implies match #[trigger] front[j] {
            ResumeCommand::Subscribe((name, _)) => name@ != topic,
            ResumeCommand::Unsubscribe(name) => name@ != topic,
        } by {
            assert(front[j] == commands[j]);
        }
        assert(front[i] == commands[i]);
        law_last_command_decides(topics, front, topic, i);
        assert(commands.last() == commands[commands.len() - 1]);
    }
}

/// A topic that no command names is asked for as before.
pub proof fn law_commands_leave_other_topics_alone(
    topics: Topics,
    commands: Seq<ResumeCommand>,
    topic: Seq<char>,
)
    requires
        forall|j: int|
            0 <= j < commands.len() ==> match #[trigger] commands[j] {
                ResumeCommand::Subscribe((name, _)) => name@ != topic,
                ResumeCommand::Unsubscribe(name) => name@ != topic,
            },
    ensures
        all_commanded(topics, commands).dom().contains(topic) == topics.dom().contains(topic),
        topics.dom().contains(topic) ==> all_commanded(topics, commands)[topic] == topics[topic],
    decreases commands.len(),
{
    if commands.len() > 0 {
        let front = commands.drop_last();
        assert forall|j: int| 0 <= j < front.len() implies match #[trigger] front[j] {
            ResumeCommand::Subscribe((name, _)) => name@ != topic,
            ResumeCommand::Unsubscribe(name) => name@ != topic,
        } by {
            assert(front[j] == commands[j]);
        }
        law_commands_leave_other_topics_alone(topics, front, topic);
        assert(commands.last() == commands[commands.len() - 1]);
    }
}

/// A list names each of its topics, and no other.
pub proof fn law_list_names_its_topics(topics: Seq<&str>, topic: Seq<char>)
    ensures
        forall|i: int| 0 <= i < topics.len() ==> named(topics).contains((#[trigger] topics[i])@),
        (forall|i: int| 0 <= i < topics.len() ==> (#[trigger] topics[i])@ != topic)
            ==> !named(topics).contains(topic),
{
}

/// A request has a field for each topic, with its position in decimal, and one for its number.
pub proof fn law_request_writes_each_position(topics: Topics, seq: i64, topic: Seq<char>)
    ensures
        form_of(topics, seq).dom().contains("__seq"@),
        form_of(topics, seq)["__seq"@] == text::decimal(seq as int),
        topic != "__seq"@ ==> form_of(topics, seq).dom().contains(topic) == topics.dom().contains(
            topic,
        ),
        topic != "__seq"@ && topics.dom().contains(topic) ==> form_of(topics, seq)[topic]
            == text::decimal(topics[topic] as int),
{
}

/// A topic that is asked for has the position from which it is asked for, whatever it had before, and
/// all others stay.
pub proof fn law_subscribed_topic_has_its_position(
    state: &mut ClientState,
    topic: String,
    id: i64,
    other: &str,
    before: Option<i64>,
    after: Option<i64>,
)
    requires
        call_ensures(ClientState::position, (&*old(state), other), before),
        call_ensures(ClientState::subscribe, (state, topic, id), ()),
        call_ensures(ClientState::position, (&*final(state), other), after),
    ensures
        other@ == topic@ ==> after == Some(id),
        other@ != topic@ ==> after == before,
        final(state)@ == (StateModel { topics: final(state)@.topics, ..old(state)@ }),
{
}

/// Each topic of a table is asked for from its position there, and all others stay.
pub proof fn law_subscribed_topics_have_their_positions(
    state: &mut ClientState,
    subscriptions: &Table<i64>,
    other: &str,
    before: Option<i64>,
    after: Option<i64>,
    listed: Option<&i64>,
)
    requires
        call_ensures(ClientState::position, (&*old(state), other), before),
        call_ensures(Table::<i64>::get, (subscriptions, other), listed),
        call_ensures(ClientState::subscribe_all, (state, subscriptions), ()),
        call_ensures(ClientState::position, (&*final(state), other), after),
    ensures
        listed matches Some(id) ==> after == Some(*id),
        listed is None ==> after == before,
        final(state)@ == (StateModel { topics: final(state)@.topics, ..old(state)@ }),
{
}

/// A topic that is asked for no longer has no position, and all others stay.
pub proof fn law_unsubscribed_topic_has_no_position(
    state: &mut ClientState,
    topic: &str,
    other: &str,
    before: Option<i64>,
    after: Option<i64>,
)
    requires
        call_ensures(ClientState::position, (&*old(state), other), before),
        call_ensures(ClientState::unsubscribe, (state, topic), ()),
        call_ensures(ClientState::position, (&*final(state), other), after),
    ensures
        other@ == topic@ ==> after is None,
        other@ != topic@ ==> after == before,
        final(state)@ == (StateModel { topics: final(state)@.topics, ..old(state)@ }),
{
}

/// None of the topics of a list is asked for any longer, and all others stay.
pub proof fn law_unsubscribed_topics_have_no_positions<'a>(
    state: &mut ClientState,
    topics: &'a Vec<&'a str>,
    other: &str,
    before: Option<i64>,
    after: Option<i64>,
)
    requires
        call_ensures(ClientState::position, (&*old(state), other), before),
        call_ensures(ClientState::unsubscribe_all, (state, topics), ()),
        call_ensures(ClientState::position, (&*final(state), other), after),
    ensures
        (exists|i: int| 0 <= i < topics@.len() && (#[trigger] topics@[i])@ == other@) ==> after is None,
        (forall|i: int| 0 <= i < topics@.len() ==> (#[trigger] topics@[i])@ != other@) ==> after
            == before,
        final(state)@ == (StateModel { topics: final(state)@.topics, ..old(state)@ }),
{
    law_list_names_its_topics(topics@, other@);
}

/// After a message, a topic has the greater of the position that it had and the one that the message
/// reports of it. Where it reports none, nothing changes.
pub proof fn law_recorded_message_keeps_the_greater_position<T: Clone>(
    state: &mut ClientState,
    message: &Data<T>,
    other: &str,
    before: Option<i64>,
    after: Option<i64>,
    reported: Option<i64>,
)
    requires
        match *message {
            Data::Status(positions) => reported == if positions@.dom().contains(other@) {
                Some(positions@[other@])
            } else {
                None
            },
            Data::Normal(message) => reported == if message.channel@ == other@ {
                Some(message.message_id)
            } else {
                None
            },
        },
        call_ensures(ClientState::position, (&*old(state), other), before),
        call_ensures(ClientState::update_last_message_id::<T>, (state, message), ()),
        call_ensures(ClientState::position, (&*final(state), other), after),
    ensures
        match (before, reported) {
            (Some(a), Some(b)) => after == if a < b {
                Some(b)
            } else {
                Some(a)
            },
            (None, Some(b)) => after == Some(b),
            (_, None) => after == before,
        },
        final(state)@ == (StateModel { topics: final(state)@.topics, ..old(state)@ }),
{
}

/// A topic that was seen at a position has the greater of its positions, and all others stay.
pub proof fn law_seen_position_is_kept_where_greater(
    state: &mut ClientState,
    topic: String,
    id: i64,
    other: &str,
    before: Option<i64>,
    after: Option<i64>,
)
    requires
        call_ensures(ClientState::position, (&*old(state), other), before),
        call_ensures(ClientState::raise, (state, topic, id), ()),
        call_ensures(ClientState::position, (&*final(state), other), after),
    ensures
        other@ != topic@ ==> after == before,
        other@ == topic@ ==> match before {
            Some(seen) => after == if seen < id {
                Some(id)
            } else {
                Some(seen)
            },
            None => after == Some(id),
        },
        final(state)@ == (StateModel { topics: final(state)@.topics, ..old(state)@ }),
{
}

/// Of the commands that name a topic, the last one decides what is asked for.
pub proof fn law_last_command_is_carried_out(
    state: &mut ClientState,
    commands: Vec<ResumeCommand>,
    i: int,
    other: &str,
    before: Option<i64>,
    after: Option<i64>,
)
    requires
        call_ensures(ClientState::position, (&*old(state), other), before),
        call_ensures(ClientState::apply, (state, commands), ()),
        call_ensures(ClientState::position, (&*final(state), other), after),
        -1 <= i < commands@.len(),
        i >= 0 ==> match commands@[i] {
            ResumeCommand::Subscribe((name, _)) => name@ == other@,
            ResumeCommand::Unsubscribe(name) => name@ == other@,
        },
        forall|j: int|
            i < j < commands@.len() ==> match #[trigger] commands@[j] {
                ResumeCommand::Subscribe((name, _)) => name@ != other@,
                ResumeCommand::Unsubscribe(name) => name@ != other@,
            },
    ensures
        i < 0 ==> after == before,
        i >= 0 ==> match commands@[i] {
            ResumeCommand::Subscribe((_, id)) => after == Some(id),
            ResumeCommand::Unsubscribe(_) => after is None,
        },
        final(state)@ == (StateModel { topics: final(state)@.topics, ..old(state)@ }),
{
    if i < 0 {
        law_commands_leave_other_topics_alone(old(state)@.topics, commands@, other@);
    } else {
        law_last_command_decides(old(state)@.topics, commands@, other@, i);
    }
}

/// A fresh state asks for nothing and has made no request.
pub proof fn law_fresh_state_asks_for_nothing(
    state: ClientState,
    topic: &str,
    position: Option<i64>,
    seq: i64,
)
    requires
        call_ensures(<ClientState as Default>::default, (), state),
        call_ensures(ClientState::position, (&state, topic), position),
        call_ensures(ClientState::seq, (&state,), seq),
    ensures
        position is None,
        seq == 0,
{
}

/// A request has the number after that of the last one, and names each topic that is asked for with
/// its position, both in decimal, and nothing else. It changes nothing but the number.
pub proof fn law_request_names_positions_and_number(
    state: &mut ClientState,
    form: Table<String>,
    topic: &str,
    position: Option<i64>,
    field: Option<&String>,
    seq: i64,
    next_seq: i64,
)
    requires
        seq < i64::MAX,
        call_ensures(ClientState::seq, (&*old(state),), seq),
        call_ensures(ClientState::position, (&*old(state), topic), position),
        call_ensures(ClientState::prepare_request, (state,), form),
        call_ensures(ClientState::seq, (&*final(state),), next_seq),
        call_ensures(Table::<String>::get, (&form, topic), field),
    ensures
        next_seq == seq + 1,
        final(state)@ == (StateModel { seq: next_seq, ..old(state)@ }),
        topic@ == "__seq"@ ==> (field matches Some(number) && number@ == text::decimal(seq + 1)),
        topic@ != "__seq"@ ==> match position {
            Some(id) => field matches Some(number) && number@ == text::decimal(id as int),
            None => field is None,
        },
{
    let fields = form@.map_values(|field: String| field@);
    assert(fields.dom().contains(topic@) == form@.dom().contains(topic@));
    if form@.dom().contains(topic@) {
        assert(fields[topic@] == form@[topic@]@);
    }
    law_request_writes_each_position(old(state)@.topics, next_seq, topic@);
}

/// The topics that are given out are those that are asked for, each once and with its position.
pub proof fn law_subscriptions_are_the_positions(
    state: ClientState,
    subscriptions: Vec<(String, i64)>,
    topic: &str,
    position: Option<i64>,
)
    requires
        call_ensures(ClientState::subscriptions, (&state,), subscriptions),
        call_ensures(ClientState::position, (&state, topic), position),
    ensures
        forall|i: int, j: int|
            0 <= i < j < subscriptions@.len() ==> (#[trigger] subscriptions@[i]).0@ != (
            #[trigger] subscriptions@[j]).0@,
        forall|i: int|
            0 <= i < subscriptions@.len() && (#[trigger] subscriptions@[i]).0@ == topic@
                ==> position == Some(subscriptions@[i].1),
        position is Some ==> exists|i: int|
            0 <= i < subscriptions@.len() && (#[trigger] subscriptions@[i]).0@ == topic@,
{
    table::law_list_writes_its_entries_down(subscriptions@, topic@);
}

} // verus!
