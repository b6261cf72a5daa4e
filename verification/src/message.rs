//! What the server sends: user messages, and status messages that report positions in channels.

use std::sync::Arc;

use serde_json::Value;
use vstd::prelude::*;

use crate::json;
use crate::json::{
    as_list, get_field, is_record, read_counts, read_integer, read_list, read_text, Node,
};
use crate::table;
use crate::table::Table;
use crate::text;
use crate::text::{count_text, same_text};

verus! {

/// A message that was published to a channel.
#[derive(Debug, Clone)]
pub struct UserMessage<T> {
    /// The position of the message among those of all channels.
    pub global_id: i64,
    /// The position of the message in its channel.
    pub message_id: i64,
    /// The channel.
    pub channel: String,
    /// What was published.
    pub data: T,
}

/// One message of a poll.
#[derive(Debug, Clone)]
pub enum Data<T> where T: Clone {
    /// Positions in channels, by channel.
    Status(Table<i64>),
    /// A message that was published to a channel.
    Normal(UserMessage<T>),
}

/// What a stream of the client yields.
#[derive(Debug, Clone)]
pub enum PollerMessage<T> {
    /// A message that was published to a channel.
    UserMessage(Arc<UserMessage<T>>),
    /// The server has ended a poll.
    PollEnded,
}

/// A part of a message.
#[derive(Debug, Clone, Copy, PartialEq, Eq, Structural)]
pub enum Field {
    /// The position of the message among those of all channels.
    GlobalId,
    /// The position of the message in its channel.
    MessageId,
    /// The channel.
    Channel,
    /// What was published.
    Data,
}

impl Field {
    /// The name under which an object has this part.
    pub open spec fn label(self) -> Seq<char> {
        match self {
            Field::GlobalId => "global_id"@,
            Field::MessageId => "message_id"@,
            Field::Channel => "channel"@,
            Field::Data => "data"@,
        }
    }

    /// The name under which an object has this part.
    pub fn name(&self) -> (name: &'static str)
        ensures
            name@ == self.label(),
    {
        match self {
            Field::GlobalId => "global_id",
            Field::MessageId => "message_id",
            Field::Channel => "channel",
            Field::Data => "data",
        }
    }
}

/// Why a JSON value is no message.
#[derive(Debug, Clone, PartialEq, Eq)]
pub enum MessageFault {
    /// It is neither an object nor an array, for the reason given.
    NotAMessage(String),
    /// It is an array of so many elements.
    WrongLength(usize),
    /// It lacks a part.
    Missing(Field),
    /// A part of it is of another type, for the reason given.
    WrongType(Field, String),
}

/// The contents of a [`MessageFault`].
pub enum FaultModel {
    /// It is neither an object nor an array, for the reason given.
    NotAMessage(Seq<char>),
    /// It is an array of so many elements.
    WrongLength(nat),
    /// It lacks a part.
    Missing(Field),
    /// A part of it is of another type, for the reason given.
    WrongType(Field, Seq<char>),
}

impl View for MessageFault {
    type V = FaultModel;

    open spec fn view(&self) -> FaultModel {
        match *self {
            MessageFault::NotAMessage(cause) => FaultModel::NotAMessage(cause@),
            MessageFault::WrongLength(len) => FaultModel::WrongLength(len as nat),
            MessageFault::Missing(field) => FaultModel::Missing(field),
            MessageFault::WrongType(field, cause) => FaultModel::WrongType(field, cause@),
        }
    }
}

impl FaultModel {
    /// What is wrong, in words.
    pub open spec fn words(self) -> Seq<char> {
        match self {
            FaultModel::NotAMessage(cause) => cause,
            FaultModel::WrongLength(len) => "invalid length "@ + text::decimal(len as int) + if len
                < 4 {
                ", expected struct RawMessage with 4 elements"@
            } else {
                ", expected fewer elements in array"@
            },
            FaultModel::Missing(field) => "missing field `"@ + field.label() + "`"@,
            FaultModel::WrongType(_, cause) => cause,
        }
    }
}

impl MessageFault {
    /// What is wrong, in words.
    pub fn text(&self) -> (text: String)
        ensures
            text@ == self@.words(),
    {
        match self {
            MessageFault::NotAMessage(cause) => cause.clone(),
            MessageFault::WrongLength(len) => {
                let mut text = "invalid length ".to_owned();
                let count = count_text(*len);
                text.append(count.as_str());
                if *len < 4 {
                    text.append(", expected struct RawMessage with 4 elements");
                } else {
                    text.append(", expected fewer elements in array");
                }
                text
            },
            MessageFault::Missing(field) => {
                let mut text = "missing field `".to_owned();
                text.append(field.name());
                text.append("`");
                text
            },
            MessageFault::WrongType(_, cause) => cause.clone(),
        }
    }
}

/// Why a JSON value is no list of messages.
#[derive(Debug, Clone, PartialEq, Eq)]
pub enum DataError {
    /// The value is not an array, for the reason given.
    NotAList(String),
    /// An element is no message.
    InvalidMessage(MessageFault),
    /// The data of a status message is not an object of integers, for the reason given.
    InvalidStatus(String),
    /// The data of a message is not of the type that is expected, for the reason given.
    InvalidData(String),
}

impl DataError {
    /// What is wrong, in words, with the cause.
    pub open spec fn words(self) -> Seq<char> {
        match self {
            DataError::NotAList(cause) => cause@,
            DataError::InvalidMessage(fault) => fault@.words(),
            DataError::InvalidStatus(cause) => "invalid status data format: "@ + cause@,
            DataError::InvalidData(cause) => "invalid normal data format: "@ + cause@,
        }
    }

    /// What is wrong, in words, with the cause.
    pub fn text(&self) -> (text: String)
        ensures
            text@ == self.words(),
    {
        match self {
            DataError::NotAList(cause) => cause.clone(),
            DataError::InvalidMessage(fault) => fault.text(),
            DataError::InvalidStatus(cause) => {
                let mut text = "invalid status data format: ".to_owned();
                text.append(cause.as_str());
                text
            },
            DataError::InvalidData(cause) => {
                let mut text = "invalid normal data format: ".to_owned();
                text.append(cause.as_str());
                text
            },
        }
    }
}

/// A message whose data is still JSON.
pub struct RawMessage<'a> {
    /// The position of the message among those of all channels.
    pub global_id: i64,
    /// The position of the message in its channel.
    pub message_id: i64,
    /// The channel.
    pub channel: String,
    /// What was published.
    pub data: &'a Value,
}

/// The parts of a message.
pub struct RawModel {
    pub global_id: i64,
    pub message_id: i64,
    pub channel: Seq<char>,
    pub data: Value,
}

impl<'a> View for RawMessage<'a> {
    type V = RawModel;

    open spec fn view(&self) -> RawModel {
        RawModel {
            global_id: self.global_id,
            message_id: self.message_id,
            channel: self.channel@,
            data: *self.data,
        }
    }
}

/// The message that an array is: exactly its four parts, which are looked at in order.
pub open spec fn from_list(items: Seq<Value>) -> Result<RawModel, FaultModel> {
    if items.len() < 1 {
        Err(FaultModel::WrongLength(items.len()))
    } else if json::node(items[0]).integer() is None {
        Err(FaultModel::WrongType(Field::GlobalId, json::integer_error(items[0])))
    } else if items.len() < 2 {
        Err(FaultModel::WrongLength(items.len()))
    } else if json::node(items[1]).integer() is None {
        Err(FaultModel::WrongType(Field::MessageId, json::integer_error(items[1])))
    } else if items.len() < 3 {
        Err(FaultModel::WrongLength(items.len()))
    } else if json::node(items[2]).text() is None {
        Err(FaultModel::WrongType(Field::Channel, json::text_error(items[2])))
    } else if items.len() != 4 {
        Err(FaultModel::WrongLength(items.len()))
    } else {
        Ok(
            RawModel {
                global_id: json::node(items[0]).integer()->0,
                message_id: json::node(items[1]).integer()->0,
                channel: json::node(items[2]).text()->0,
                data: items[3],
            },
        )
    }
}

/// The message that an object is: its four parts under their names, whatever else it holds. A part
/// of another type is found before one that is missing. The former are looked at in the order of
/// their names, the latter in the order in which a message has them.
pub open spec fn from_record(record: Node) -> Result<RawModel, FaultModel> {
    let global_id = record.field(Field::GlobalId.label());
    let message_id = record.field(Field::MessageId.label());
    let channel = record.field(Field::Channel.label());
    let data = record.field(Field::Data.label());
    if channel is Some && json::node(channel->0).text() is None {
        Err(FaultModel::WrongType(Field::Channel, json::text_error(channel->0)))
    } else if global_id is Some && json::node(global_id->0).integer() is None {
        Err(FaultModel::WrongType(Field::GlobalId, json::integer_error(global_id->0)))
    } else if message_id is Some && json::node(message_id->0).integer() is None {
        Err(FaultModel::WrongType(Field::MessageId, json::integer_error(message_id->0)))
    } else if global_id is None {
        Err(FaultModel::Missing(Field::GlobalId))
    } else if message_id is None {
        Err(FaultModel::Missing(Field::MessageId))
    } else if channel is None {
        Err(FaultModel::Missing(Field::Channel))
    } else if data is None {
        Err(FaultModel::Missing(Field::Data))
    } else {
        Ok(
            RawModel {
                global_id: json::node(global_id->0).integer()->0,
                message_id: json::node(message_id->0).integer()->0,
                channel: json::node(channel->0).text()->0,
                data: data->0,
            },
        )
    }
}

/// The words for a value in the place of a message, out of those for the same value in the place of
/// a map: both name the value and end with what was expected.
pub open spec fn expecting_message(words: Seq<char>) -> Seq<char> {
    words.take(words.len() - "a map"@.len()) + "struct RawMessage"@
}

/// The message that a JSON value is, or why it is none.
pub open spec fn raw_message(value: Value) -> Result<RawModel, FaultModel> {
    match json::node(value) {
        Node::List(items) => from_list(items),
        Node::Record(_) => from_record(json::node(value)),
        _ => Err(FaultModel::NotAMessage(expecting_message(json::counts_error(value)))),
    }
}

/// Whether `raw` is the expected message, or the expected fault.
pub open spec fn is_raw(
    expected: Result<RawModel, FaultModel>,
    raw: Result<RawMessage, MessageFault>,
) -> bool {
    match raw {
        Ok(message) => expected == Ok::<RawModel, FaultModel>(message@),
        Err(fault) => expected == Err::<RawModel, FaultModel>(fault@),
    }
}

/// The channel of status messages.
pub open spec fn status_channel() -> Seq<char> {
    "/__status"@
}

impl<'a> RawMessage<'a> {
    /// Reads the parts of a message out of an array.
    fn parse_list(items: &'a Vec<Value>) -> (raw: Result<RawMessage<'a>, MessageFault>)
        ensures
            is_raw(from_list(items@), raw),
    {
        let len = items.len();
        if len < 1 {
            return Err(MessageFault::WrongLength(len));
        }
        let global_id = match read_integer(&items[0]) {
            Ok(n) => n,
            Err(cause) => {
                return Err(MessageFault::WrongType(Field::GlobalId, cause));
            },
        };
        if len < 2 {
            return Err(MessageFault::WrongLength(len));
        }
        let message_id = match read_integer(&items[1]) {
            Ok(n) => n,
            Err(cause) => {
                return Err(MessageFault::WrongType(Field::MessageId, cause));
            },
        };
        if len < 3 {
            return Err(MessageFault::WrongLength(len));
        }
        let channel = match read_text(&items[2]) {
            Ok(text) => text,
            Err(cause) => {
                return Err(MessageFault::WrongType(Field::Channel, cause));
            },
        };
        if len != 4 {
            return Err(MessageFault::WrongLength(len));
        }
        Ok(RawMessage { global_id, message_id, channel, data: &items[3] })
    }

    /// An integer part of an object, if it is there.
    fn integer_field(value: &Value, field: Field) -> (part: Result<Option<i64>, MessageFault>)
        ensures
            match (json::node(*value).field(field.label()), part) {
                (None, Ok(None)) => true,
                (Some(v), Ok(Some(n))) => json::node(v).integer() == Some(n),
                (Some(v), Err(fault)) => json::node(v).integer() is None && fault@
                    == FaultModel::WrongType(field, json::integer_error(v)),
                _ => false,
            },
    {
        match get_field(value, field.name()) {
            Some(part) => match read_integer(part) {
                Ok(n) => Ok(Some(n)),
                Err(cause) => Err(MessageFault::WrongType(field, cause)),
            },
            None => Ok(None),
        }
    }

    /// Reads the parts of a message out of an object.
    fn parse_record(value: &'a Value) -> (raw: Result<RawMessage<'a>, MessageFault>)
        ensures
            is_raw(from_record(json::node(*value)), raw),
    {
        let channel = match get_field(value, Field::Channel.name()) {
            Some(part) => match read_text(part) {
                Ok(text) => Some(text),
                Err(cause) => {
                    return Err(MessageFault::WrongType(Field::Channel, cause));
                },
            },
            None => None,
        };
        let global_id = match RawMessage::integer_field(value, Field::GlobalId) {
            Ok(part) => part,
            Err(fault) => {
                return Err(fault);
            },
        };
        let message_id = match RawMessage::integer_field(value, Field::MessageId) {
            Ok(part) => part,
            Err(fault) => {
                return Err(fault);
            },
        };
        match (global_id, message_id, channel, get_field(value, Field::Data.name())) {
            (Some(global_id), Some(message_id), Some(channel), Some(data)) => Ok(
                RawMessage { global_id, message_id, channel, data },
            ),
            (None, _, _, _) => Err(MessageFault::Missing(Field::GlobalId)),
            (_, None, _, _) => Err(MessageFault::Missing(Field::MessageId)),
            (_, _, None, _) => Err(MessageFault::Missing(Field::Channel)),
            (_, _, _, None) => Err(MessageFault::Missing(Field::Data)),
        }
    }

    /// Why a value that is neither an object nor an array is no message.
    fn not_a_message(value: &Value) -> (fault: MessageFault)
        requires
            json::node(*value) !is Record,
        ensures
            fault@ == FaultModel::NotAMessage(expecting_message(json::counts_error(*value))),
    {
        proof {
            reveal_strlit("a map");
        }
        // Only an object can be read, so that there always are words.
        let words = match read_counts(value) {
            Ok(_) => String::new(),
            Err(words) => words,
        };
        let len = words.as_str().unicode_len();
        let mut text = words.as_str().substring_char(0, len - 5).to_owned();
        text.append("struct RawMessage");
        assert(text@ =~= expecting_message(words@));
        MessageFault::NotAMessage(text)
    }

    /// Reads the parts of a message.
    pub fn parse(value: &'a Value) -> (raw: Result<RawMessage<'a>, MessageFault>)
        ensures
            is_raw(raw_message(*value), raw),
    {
        match as_list(value) {
            Some(items) => RawMessage::parse_list(items),
            None => if is_record(value) {
                RawMessage::parse_record(value)
            } else {
                Err(RawMessage::not_a_message(value))
            },
        }
    }

    /// Whether this is a status message.
    pub fn is_status(&self) -> (status: bool)
        ensures
            status == (self@.channel == status_channel()),
    {
        same_text(self.channel.as_str(), "/__status")
    }
}

/// Whether `data` is the status message that a raw message is, or the reason why it is none.
pub open spec fn is_status_data<T: Clone>(raw: RawModel, data: Result<Data<T>, DataError>) -> bool {
    match (json::node(raw.data).counts(), data) {
        (Some(counts), Ok(Data::Status(positions))) => positions@ == counts,
        (None, Err(DataError::InvalidStatus(cause))) => cause@ == json::counts_error(raw.data),
        _ => false,
    }
}

/// Whether `data` is the user message that a raw message is, given what its data was read as, or
/// the reason why it is none.
pub open spec fn is_normal_data<T: Clone>(
    raw: RawModel,
    payload: Result<T, String>,
    data: Result<Data<T>, DataError>,
) -> bool {
    match (payload, data) {
        (Ok(payload), Ok(Data::Normal(message))) => {
            &&& message.global_id == raw.global_id
            &&& message.message_id == raw.message_id
            &&& message.channel@ == raw.channel
            &&& message.data == payload
        },
        (Err(cause), Err(DataError::InvalidData(reason))) => reason@ == cause@,
        _ => false,
    }
}

/// Whether `data` is what a raw message says, where `payload` reads the data of user messages.
pub open spec fn resolves<T: Clone, F: Fn(&Value) -> Result<T, String>>(
    raw: RawModel,
    payload: F,
    data: Result<Data<T>, DataError>,
) -> bool {
    if raw.channel == status_channel() {
        is_status_data(raw, data)
    } else {
        exists|read: Result<T, String>|
            {
                &&& #[trigger] call_ensures(payload, (&raw.data,), read)
                &&& is_normal_data(raw, read, data)
            }
    }
}

/// Whether `data` is what a JSON value says, where `payload` reads the data of user messages.
pub open spec fn decodes<T: Clone, F: Fn(&Value) -> Result<T, String>>(
    value: Value,
    payload: F,
    data: Result<Data<T>, DataError>,
) -> bool {
    match raw_message(value) {
        Ok(raw) => resolves(raw, payload, data),
        Err(fault) => data matches Err(DataError::InvalidMessage(reason)) && reason@ == fault,
    }
}

/// Whether `messages` are what a JSON array says, element by element.
pub open spec fn decodes_all<T: Clone, F: Fn(&Value) -> Result<T, String>>(
    value: Value,
    payload: F,
    messages: Seq<Data<T>>,
) -> bool {
    match json::node(value).list() {
        Some(items) => messages.len() == items.len() && decodes_prefix(items, payload, messages),
        None => false,
    }
}

/// Whether `e` is the reason why a JSON value is no list of messages: it is no array, or the
/// first of its elements that is no message is none for that reason.
pub open spec fn rejects<T: Clone, F: Fn(&Value) -> Result<T, String>>(
    value: Value,
    payload: F,
    e: DataError,
) -> bool {
    match json::node(value).list() {
        Some(items) => exists|messages: Seq<Data<T>>|
            #[trigger] decodes_until(items, payload, messages, e),
        None => e matches DataError::NotAList(cause) && cause@ == json::list_error(value),
    }
}

/// Whether `messages` are what the first elements of an array say.
pub open spec fn decodes_prefix<T: Clone, F: Fn(&Value) -> Result<T, String>>(
    items: Seq<Value>,
    payload: F,
    messages: Seq<Data<T>>,
) -> bool {
    &&& messages.len() <= items.len()
    &&& forall|i: int|
        0 <= i < messages.len() ==> decodes(
            items[i],
            payload,
            Ok::<Data<T>, DataError>(#[trigger] messages[i]),
        )
}

/// Whether `messages` are what the first elements of an array say, and `e` is the reason why the
/// next one is no message.
pub open spec fn decodes_until<T: Clone, F: Fn(&Value) -> Result<T, String>>(
    items: Seq<Value>,
    payload: F,
    messages: Seq<Data<T>>,
    e: DataError,
) -> bool {
    &&& decodes_prefix(items, payload, messages)
    &&& messages.len() < items.len()
    &&& decodes(items[messages.len() as int], payload, Err::<Data<T>, DataError>(e))
}

impl<T: Clone> Data<T> {
    /// The status message that a raw message is.
    pub fn from_status(raw: RawMessage) -> (data: Result<Data<T>, DataError>)
        ensures
            is_status_data(raw@, data),
    {
        match read_counts(raw.data) {
            Ok(entries) => Ok(Data::Status(Table::from_entries(entries))),
            Err(cause) => Err(DataError::InvalidStatus(cause)),
        }
    }

    /// The user message that a raw message is, given what its data was read as.
    pub fn from_normal(raw: RawMessage, payload: Result<T, String>) -> (data: Result<Data<T>, DataError>)
        ensures
            is_normal_data(raw@, payload, data),
    {
        match payload {
            Ok(data) => Ok(
                Data::Normal(
                    UserMessage {
                        global_id: raw.global_id,
                        message_id: raw.message_id,
                        channel: raw.channel,
                        data,
                    },
                ),
            ),
            Err(cause) => Err(DataError::InvalidData(cause)),
        }
    }

    /// The message that a raw message is. The data of a user message is read by `payload`, which
    /// gives the reason where it cannot; that of a status message never is.
    pub fn from_raw<F: Fn(&Value) -> Result<T, String>>(raw: RawMessage, payload: &F) -> (data: Result<
        Data<T>,
        DataError,
    >)
        requires
            forall|v: &Value| call_requires(*payload, (v,)),
        ensures
            resolves(raw@, *payload, data),
    {
        if raw.is_status() {
            Data::from_status(raw)
        } else {
            let read = (*payload)(raw.data);
            let ghost model = raw@;
            assert(call_ensures(*payload, (&model.data,), read));
            Data::from_normal(raw, read)
        }
    }

    /// Reads one message.
    pub fn deserialize<F: Fn(&Value) -> Result<T, String>>(value: &Value, payload: &F) -> (data: Result<
        Data<T>,
        DataError,
    >)
        requires
            forall|v: &Value| call_requires(*payload, (v,)),
        ensures
            decodes(*value, *payload, data),
    {
        match RawMessage::parse(value) {
            Ok(raw) => Data::from_raw(raw, payload),
            Err(fault) => Err(DataError::InvalidMessage(fault)),
        }
    }

    /// Reads an array of messages, all or none.
    pub fn deserialize_all<F: Fn(&Value) -> Result<T, String>>(value: Value, payload: &F) -> (data: Result<
        Vec<Data<T>>,
        DataError,
    >)
        requires
            forall|v: &Value| call_requires(*payload, (v,)),
        ensures
            match data {
                Ok(messages) => decodes_all(value, *payload, messages@),
                Err(e) => rejects::<T, F>(value, *payload, e),
            },
    {
        match read_list(value) {
            Ok(items) => {
                let mut messages: Vec<Data<T>> = Vec::new();
                let mut i: usize = 0;
                while i < items.len()
                    invariant
                        i <= items@.len(),
                        messages@.len() == i,
                        json::node(value).list() == Some(items@),
                        forall|v: &Value| call_requires(*payload, (v,)),
                        decodes_prefix(items@, *payload, messages@),
                    decreases items@.len() - i,
                {
                    match Data::deserialize(&items[i], payload) {
                        Ok(message) => {
                            messages.push(message);
                        },
                        Err(e) => {
                            assert(decodes_until(
                                json::node(value).list()->0,
                                *payload,
                                messages@,
                                e,
                            ));
                            return Err(e);
                        },
                    }
                    i = i + 1;
                }
                Ok(messages)
            },
            Err(cause) => Err(DataError::NotAList(cause)),
        }
    }
}

/// What else an object holds does not matter for the message that it is.
pub proof fn law_other_fields_are_ignored(a: Value, b: Value)
    requires
        json::node(a) is Record,
        json::node(b) is Record,
        json::node(a).field(Field::GlobalId.label()) == json::node(b).field(Field::GlobalId.label()),
        json::node(a).field(Field::MessageId.label()) == json::node(b).field(Field::MessageId.label()),
        json::node(a).field(Field::Channel.label()) == json::node(b).field(Field::Channel.label()),
        json::node(a).field(Field::Data.label()) == json::node(b).field(Field::Data.label()),
    ensures
        raw_message(a) == raw_message(b),
{
}

/// A status message is the same whatever the data of user messages is read as.
pub proof fn law_status_does_not_depend_on_payload<
    T: Clone,
    F: Fn(&Value) -> Result<T, String>,
    G: Fn(&Value) -> Result<T, String>,
>(value: Value, one: F, other: G, data: Result<Data<T>, DataError>)
    requires
        raw_message(value) matches Ok(raw) && raw.channel == status_channel(),
    ensures
        decodes(value, one, data) == decodes(value, other, data),
{
}

/// A status message whose data is no object of integers is an error, and never a user message,
/// whatever its data could be read as. The words for it name the kind of message and the cause.
pub proof fn law_bad_status_is_an_error<T: Clone, F: Fn(&Value) -> Result<T, String>>(
    value: Value,
    payload: F,
    data: Result<Data<T>, DataError>,
)
    requires
        raw_message(value) matches Ok(raw) && raw.channel == status_channel() && json::node(
            raw.data,
        ).counts() is None,
        decodes(value, payload, data),
    ensures
        data matches Err(e) && e is InvalidStatus && e.words()
            == "invalid status data format: "@ + json::counts_error(raw_message(value)->Ok_0.data),
{
}

/// What an object is read as. It is a message where its four parts are there and of their types,
/// whatever else it holds. Else the fault is a part of another type, looked for in the order of the
/// names, or the first part that is missing.
pub proof fn law_object_is_a_message_or_faulty(value: Value, fields: Map<Seq<char>, Value>)
    requires
        json::node(value) == Node::Record(fields),
    ensures
        ({
            let has_global_id = fields.dom().contains("global_id"@);
            let has_message_id = fields.dom().contains("message_id"@);
            let has_channel = fields.dom().contains("channel"@);
            let has_data = fields.dom().contains("data"@);
            let bad_global_id = has_global_id && !(json::node(fields["global_id"@]) matches Node::Number(
                Some(_),
            ));
            let bad_message_id = has_message_id && !(json::node(
                fields["message_id"@],
            ) matches Node::Number(Some(_)));
            let bad_channel = has_channel && !(json::node(fields["channel"@]) is Text);
            let bad = bad_global_id || bad_message_id || bad_channel;
            match raw_message(value) {
                Ok(raw) => {
                    &&& has_global_id && has_message_id && has_channel && has_data
                    &&& json::node(fields["global_id"@]) == Node::Number(Some(raw.global_id))
                    &&& json::node(fields["message_id"@]) == Node::Number(Some(raw.message_id))
                    &&& json::node(fields["channel"@]) == Node::Text(raw.channel)
                    &&& raw.data == fields["data"@]
                },
                Err(FaultModel::WrongType(Field::Channel, cause)) => bad_channel && cause
                    == json::text_error(fields["channel"@]),
                Err(FaultModel::WrongType(Field::GlobalId, cause)) => !bad_channel && bad_global_id
                    && cause == json::integer_error(fields["global_id"@]),
                Err(FaultModel::WrongType(Field::MessageId, cause)) => !bad_channel
                    && !bad_global_id && bad_message_id && cause == json::integer_error(
                    fields["message_id"@],
                ),
                Err(FaultModel::Missing(Field::GlobalId)) => !bad && !has_global_id,
                Err(FaultModel::Missing(Field::MessageId)) => !bad && has_global_id
                    && !has_message_id,
                Err(FaultModel::Missing(Field::Channel)) => !bad && has_global_id && has_message_id
                    && !has_channel,
                Err(FaultModel::Missing(Field::Data)) => !bad && has_global_id && has_message_id
                    && has_channel && !has_data,
                Err(_) => false,
            }
        }),
{
}

/// What an array is read as. It is a message where it has four elements that are of the types of the
/// parts. Else the fault is the first element of another type, or the length.
pub proof fn law_array_is_a_message_or_faulty(value: Value, items: Seq<Value>)
    requires
        json::node(value) == Node::List(items),
    ensures
        ({
            let bad_global_id = items.len() > 0 && !(json::node(items[0]) matches Node::Number(
                Some(_),
            ));
            let bad_message_id = items.len() > 1 && !(json::node(items[1]) matches Node::Number(
                Some(_),
            ));
            let bad_channel = items.len() > 2 && !(json::node(items[2]) is Text);
            match raw_message(value) {
                Ok(raw) => {
                    &&& items.len() == 4
                    &&& json::node(items[0]) == Node::Number(Some(raw.global_id))
                    &&& json::node(items[1]) == Node::Number(Some(raw.message_id))
                    &&& json::node(items[2]) == Node::Text(raw.channel)
                    &&& raw.data == items[3]
                },
                Err(FaultModel::WrongType(Field::GlobalId, cause)) => bad_global_id && cause
                    == json::integer_error(items[0]),
                Err(FaultModel::WrongType(Field::MessageId, cause)) => !bad_global_id
                    && bad_message_id && cause == json::integer_error(items[1]),
                Err(FaultModel::WrongType(Field::Channel, cause)) => !bad_global_id
                    && !bad_message_id && bad_channel && cause == json::text_error(items[2]),
                Err(FaultModel::WrongLength(len)) => !bad_global_id && !bad_message_id
                    && !bad_channel && len == items.len() && len != 4,
                Err(_) => false,
            }
        }),
{
}

/// A value that is neither an object nor an array is no message, and the words for it say what it is
/// and that a message was expected.
pub proof fn law_other_values_are_no_messages(value: Value, head: Seq<char>)
    requires
        !(json::node(value) is Record),
        !(json::node(value) is List),
        json::counts_error(value) == head + "a map"@,
    ensures
        raw_message(value) == Err::<RawModel, FaultModel>(
            FaultModel::NotAMessage(head + "struct RawMessage"@),
        ),
{
    assert((head + "a map"@).take(head.len() as int) =~= head);
}

/// What a value is read as is handed out as it is, part by part.
pub proof fn law_parts_are_handed_out<'a>(
    value: &'a Value,
    raw: Result<RawMessage<'a>, MessageFault>,
)
    requires
        call_ensures(RawMessage::<'a>::parse, (value,), raw),
    ensures
        match raw {
            Ok(message) => raw_message(*value) == Ok::<RawModel, FaultModel>(
                RawModel {
                    global_id: message.global_id,
                    message_id: message.message_id,
                    channel: message.channel@,
                    data: *message.data,
                },
            ),
            Err(MessageFault::NotAMessage(cause)) => raw_message(*value) == Err::<
                RawModel,
                FaultModel,
            >(FaultModel::NotAMessage(cause@)),
            Err(MessageFault::WrongLength(len)) => raw_message(*value) == Err::<
                RawModel,
                FaultModel,
            >(FaultModel::WrongLength(len as nat)),
            Err(MessageFault::Missing(field)) => raw_message(*value) == Err::<RawModel, FaultModel>(
                FaultModel::Missing(field),
            ),
            Err(MessageFault::WrongType(field, cause)) => raw_message(*value) == Err::<
                RawModel,
                FaultModel,
            >(FaultModel::WrongType(field, cause@)),
        },
{
}

/// A status message whose data is an object of integers reports exactly its entries.
pub proof fn law_status_reports_the_entries_of_its_data<T: Clone, F: Fn(&Value) -> Result<T, String>>(
    raw: RawModel,
    payload: F,
    data: Result<Data<T>, DataError>,
    fields: Map<Seq<char>, Value>,
)
    requires
        resolves(raw, payload, data),
        raw.channel == "/__status"@,
        json::node(raw.data) == Node::Record(fields),
        forall|key: Seq<char>|
            fields.dom().contains(key) ==> json::node(#[trigger] fields[key]) matches Node::Number(
                Some(_),
            ),
    ensures
        data matches Ok(Data::Status(positions)) && {
            &&& positions@.dom() =~= fields.dom()
            &&& forall|key: Seq<char>|
                fields.dom().contains(key) ==> json::node(fields[key]) == Node::Number(
                    Some(#[trigger] positions@[key]),
                )
        },
{
    assert forall|key: Seq<char>| fields.dom().contains(key) implies json::node(
        #[trigger] fields[key],
    ).integer() is Some by {
        assert(json::node(fields[key]) matches Node::Number(Some(_)));
    }
    assert(json::node(raw.data).counts() is Some);
    if let Ok(Data::Status(positions)) = data {
        assert forall|key: Seq<char>| fields.dom().contains(key) implies json::node(fields[key])
            == Node::Number(Some(#[trigger] positions@[key])) by {
            assert(json::node(fields[key]).integer() is Some);
        }
    }
}

/// A status message whose data is no object, or one that holds something but integers, is an error
/// with the cause.
pub proof fn law_status_with_other_data_is_refused<T: Clone, F: Fn(&Value) -> Result<T, String>>(
    raw: RawModel,
    payload: F,
    data: Result<Data<T>, DataError>,
    key: Seq<char>,
)
    requires
        resolves(raw, payload, data),
        raw.channel == "/__status"@,
        match json::node(raw.data) {
            Node::Record(fields) => fields.dom().contains(key) && !(json::node(
                fields[key],
            ) matches Node::Number(Some(_))),
            _ => true,
        },
    ensures
        data matches Err(DataError::InvalidStatus(cause)) && cause@ == json::counts_error(raw.data),
{
    if let Node::Record(fields) = json::node(raw.data) {
        assert(json::node(fields[key]).integer() is None);
        assert(json::node(raw.data).counts() is None);
    }
}

/// A message on any other channel is a user message with its positions, its channel and the data as
/// it was read, or an error with the cause why it could not be read.
pub proof fn law_user_message_has_what_was_read<T: Clone, F: Fn(&Value) -> Result<T, String>>(
    raw: RawModel,
    payload: F,
    data: Result<Data<T>, DataError>,
)
    requires
        resolves(raw, payload, data),
        raw.channel != "/__status"@,
    ensures
        match data {
            Ok(Data::Normal(message)) => {
                &&& message.global_id == raw.global_id
                &&& message.message_id == raw.message_id
                &&& message.channel@ == raw.channel
                &&& call_ensures(payload, (&raw.data,), Ok::<T, String>(message.data))
            },
            Err(DataError::InvalidData(reason)) => exists|cause: String|
                #![trigger call_ensures(payload, (&raw.data,), Err::<T, String>(cause))]
                call_ensures(payload, (&raw.data,), Err::<T, String>(cause)) && reason@ == cause@,
            _ => false,
        },
{
    let read = choose|read: Result<T, String>|
        {
            &&& #[trigger] call_ensures(payload, (&raw.data,), read)
            &&& is_normal_data(raw, read, data)
        };
    match read {
        Ok(_) => {},
        Err(cause) => {
            assert(call_ensures(payload, (&raw.data,), Err::<T, String>(cause)));
        },
    }
}

/// A value says what the message that it is says, and one that is no message is an error that names
/// its fault.
pub proof fn law_value_says_what_its_message_says<T: Clone, F: Fn(&Value) -> Result<T, String>>(
    value: Value,
    payload: F,
    data: Result<Data<T>, DataError>,
)
    requires
        decodes(value, payload, data),
    ensures
        match raw_message(value) {
            Ok(raw) => resolves(raw, payload, data),
            Err(FaultModel::NotAMessage(words)) => data matches Err(
                DataError::InvalidMessage(MessageFault::NotAMessage(cause)),
            ) && cause@ == words,
            Err(FaultModel::WrongLength(len)) => data matches Err(
                DataError::InvalidMessage(MessageFault::WrongLength(n)),
            ) && n == len,
            Err(FaultModel::Missing(field)) => data matches Err(
                DataError::InvalidMessage(MessageFault::Missing(name)),
            ) && name == field,
            Err(FaultModel::WrongType(field, words)) => data matches Err(
                DataError::InvalidMessage(MessageFault::WrongType(name, cause)),
            ) && name == field && cause@ == words,
        },
{
}

/// A list of messages is what the elements of an array say, as many and in order.
pub proof fn law_list_says_what_its_elements_say<T: Clone, F: Fn(&Value) -> Result<T, String>>(
    value: Value,
    payload: F,
    messages: Seq<Data<T>>,
)
    requires
        decodes_all(value, payload, messages),
    ensures
        json::node(value) matches Node::List(items) && {
            &&& messages.len() == items.len()
            &&& forall|i: int|
                0 <= i < items.len() ==> decodes(
                    items[i],
                    payload,
                    Ok::<Data<T>, DataError>(#[trigger] messages[i]),
                )
        },
{
}

/// A value is refused as a list of messages where it is no array, with the cause, or for what is wrong
/// with the first of its elements that is no message.
pub proof fn law_list_is_refused_for_its_first_fault<T: Clone, F: Fn(&Value) -> Result<T, String>>(
    value: Value,
    payload: F,
    e: DataError,
)
    requires
        rejects::<T, F>(value, payload, e),
    ensures
        match json::node(value) {
            Node::List(items) => exists|messages: Seq<Data<T>>|
                messages.len() < items.len() && #[trigger] decodes_prefix(items, payload, messages)
                    && decodes(items[messages.len() as int], payload, Err::<Data<T>, DataError>(e)),
            _ => e matches DataError::NotAList(cause) && cause@ == json::list_error(value),
        },
{
    if let Node::List(items) = json::node(value) {
        let messages = choose|messages: Seq<Data<T>>|
            #[trigger] decodes_until(items, payload, messages, e);
        assert(decodes_prefix(items, payload, messages));
    }
}

/// What was read of an array so far is what its first elements say.
pub proof fn law_prefix_says_what_its_elements_say<T: Clone, F: Fn(&Value) -> Result<T, String>>(
    items: Seq<Value>,
    payload: F,
    messages: Seq<Data<T>>,
    i: int,
)
    requires
        decodes_prefix(items, payload, messages),
        0 <= i < messages.len(),
    ensures
        messages.len() <= items.len(),
        decodes(items[i], payload, Ok::<Data<T>, DataError>(messages[i])),
{
    let message = messages[i];
}

/// Messages are read as their values say: one by one, and as a list where all of them can be read.
pub proof fn law_messages_are_read_as_values_say<'a, T: Clone, F: Fn(&Value) -> Result<T, String>>(
    value: &'a Value,
    payload: &'a F,
    data: Result<Data<T>, DataError>,
    raw: RawMessage<'a>,
    resolved: Result<Data<T>, DataError>,
    list: Value,
    all: Result<Vec<Data<T>>, DataError>,
)
    requires
        call_ensures(Data::<T>::deserialize::<F>, (value, payload), data),
        call_ensures(Data::<T>::from_raw::<F>, (raw, payload), resolved),
        call_ensures(Data::<T>::deserialize_all::<F>, (list, payload), all),
    ensures
        decodes(*value, *payload, data),
        resolves(
            RawModel {
                global_id: raw.global_id,
                message_id: raw.message_id,
                channel: raw.channel@,
                data: *raw.data,
            },
            *payload,
            resolved,
        ),
        match all {
            Ok(messages) => decodes_all(list, *payload, messages@),
            Err(e) => rejects::<T, F>(list, *payload, e),
        },
{
}

/// The two kinds of messages, told apart by the channel and read each in its own way.
pub proof fn law_kinds_of_messages_are_told_apart<'a, T: Clone>(
    raw: RawMessage<'a>,
    is_status: bool,
    status: Result<Data<T>, DataError>,
    read: Result<T, String>,
    normal: Result<Data<T>, DataError>,
)
    requires
        call_ensures(RawMessage::<'a>::is_status, (&raw,), is_status),
        call_ensures(Data::<T>::from_status, (raw,), status),
        call_ensures(Data::<T>::from_normal, (raw, read), normal),
    ensures
        is_status <==> raw.channel@ == "/__status"@,
        status is Ok ==> status matches Ok(Data::Status(_)),
        status matches Err(e) ==> e matches DataError::InvalidStatus(cause) && cause@
            == json::counts_error(*raw.data),
        match read {
            Ok(payload) => normal matches Ok(Data::Normal(message)) && {
                &&& message.global_id == raw.global_id
                &&& message.message_id == raw.message_id
                &&& message.channel@ == raw.channel@
                &&& message.data == payload
            },
            Err(cause) => normal matches Err(DataError::InvalidData(reason)) && reason@ == cause@,
        },
{
}

/// The words for what is wrong with a message or a list of messages.
pub proof fn law_faults_are_put_in_words(error: DataError, words: String)
    requires
        call_ensures(DataError::text, (&error,), words),
    ensures
        match error {
            DataError::NotAList(cause) => words@ == cause@,
            DataError::InvalidStatus(cause) => words@ == "invalid status data format: "@ + cause@,
            DataError::InvalidData(cause) => words@ == "invalid normal data format: "@ + cause@,
            DataError::InvalidMessage(MessageFault::NotAMessage(cause)) => words@ == cause@,
            DataError::InvalidMessage(MessageFault::WrongType(_, cause)) => words@ == cause@,
            DataError::InvalidMessage(MessageFault::Missing(Field::GlobalId)) => words@
                == "missing field `"@ + "global_id"@ + "`"@,
            DataError::InvalidMessage(MessageFault::Missing(Field::MessageId)) => words@
                == "missing field `"@ + "message_id"@ + "`"@,
            DataError::InvalidMessage(MessageFault::Missing(Field::Channel)) => words@
                == "missing field `"@ + "channel"@ + "`"@,
            DataError::InvalidMessage(MessageFault::Missing(Field::Data)) => words@
                == "missing field `"@ + "data"@ + "`"@,
            DataError::InvalidMessage(MessageFault::WrongLength(len)) => if len < 4 {
                words@ == "invalid length "@ + text::decimal(len as int)
                    + ", expected struct RawMessage with 4 elements"@
            } else {
                words@ == "invalid length "@ + text::decimal(len as int)
                    + ", expected fewer elements in array"@
            },
        },
{
}

/// A fault by itself is put in the words that it has as the reason of an error.
pub proof fn law_fault_has_the_words_of_its_error(
    fault: MessageFault,
    words: String,
    error_words: String,
)
    requires
        call_ensures(MessageFault::text, (&fault,), words),
        call_ensures(DataError::text, (&DataError::InvalidMessage(fault),), error_words),
    ensures
        words@ == error_words@,
{
}

} // verus!
