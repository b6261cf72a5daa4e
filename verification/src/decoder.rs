//! Frames: the server writes one JSON text after the other, each closed by a vertical bar.

use std::sync::Arc;

use bytes::{Buf, BytesMut};
use serde_json::Value;
use vstd::prelude::*;

use crate::error::{ClientError, DecodeError};
use crate::json;
use crate::message;
use crate::message::Data;

verus! {

/// A growable buffer of bytes.
#[verifier::external_type_specification]
#[verifier::external_body]
pub struct ExBytesMut(bytes::BytesMut);

/// The bytes that a buffer holds.
pub uninterp spec fn buffered(buf: BytesMut) -> Seq<u8>;

/// `BytesMut::new` makes a buffer that holds nothing.
pub assume_specification[ bytes::BytesMut::new ]() -> (buf: BytesMut)
    ensures
        buffered(buf) == Seq::<u8>::empty(),
;

/// `BytesMut::extend_from_slice` appends bytes. It fails where the buffer would outgrow what can
/// be allocated at once, which is asked of its contents here. That the machine has the memory is
/// not spoken of.
pub assume_specification[ bytes::BytesMut::extend_from_slice ](buf: &mut BytesMut, extend: &[u8])
    requires
        buffered(*old(buf)).len() + extend@.len() <= isize::MAX,
    ensures
        buffered(*final(buf)) == buffered(*old(buf)) + extend@,
;

/// `BytesMut::split_to` takes the first `at` bytes out. It fails where there are fewer.
pub assume_specification[ bytes::BytesMut::split_to ](buf: &mut BytesMut, at: usize) -> (front:
    BytesMut)
    requires
        at <= buffered(*old(buf)).len(),
    ensures
        buffered(front) == buffered(*old(buf)).take(at as int),
        buffered(*final(buf)) == buffered(*old(buf)).skip(at as int),
;

/// `BytesMut::clear` drops all bytes.
pub assume_specification[ bytes::BytesMut::clear ](buf: &mut BytesMut)
    ensures
        buffered(*final(buf)) == Seq::<u8>::empty(),
;

/// `<BytesMut as Buf>::advance` drops the first `count` bytes. It fails where there are fewer.
#[verifier::external_body]
fn advance(buf: &mut BytesMut, count: usize)
    requires
        count <= buffered(*old(buf)).len(),
    ensures
        buffered(*final(buf)) == buffered(*old(buf)).skip(count as int),
{
    buf.advance(count)
}

/// The bytes of a buffer, by `<BytesMut as AsRef<[u8]>>::as_ref`.
#[verifier::external_body]
fn contents(buf: &BytesMut) -> (bytes: &[u8])
    ensures
        bytes@ == buffered(*buf),
{
    buf.as_ref()
}

/// The byte that closes a frame, a vertical bar.
pub const BAR: u8 = 0x7c;

/// The first frame in a row of bytes, and what follows its bar.
pub open spec fn split_frame(bytes: Seq<u8>) -> Option<(Seq<u8>, Seq<u8>)> {
    match bytes.index_of_first(BAR) {
        Some(at) => Some((bytes.take(at), bytes.skip(at + 1))),
        None => None,
    }
}

/// The index of the first bar.
fn find_bar(bytes: &[u8]) -> (found: Option<usize>)
    ensures
        match found {
            Some(at) => at < bytes@.len() && bytes@.index_of_first(BAR) == Some(at as int),
            None => bytes@.index_of_first(BAR) is None,
        },
{
    let mut i: usize = 0;
    proof {
        bytes@.index_of_first_ensures(BAR);
    }
    while i < bytes.len()
        invariant
            i <= bytes@.len(),
            forall|j: int| 0 <= j < i ==> bytes@[j] != BAR,
        decreases bytes@.len() - i,
    {
        if bytes[i] == BAR {
            proof {
                bytes@.index_of_first_ensures(BAR);
                assert(bytes@.contains(BAR));
            }
            return Some(i);
        }
        i = i + 1;
    }
    None
}

/// Takes frames out of the bytes that arrive.
pub struct MessageBusCodec;

impl MessageBusCodec {
    /// Takes the first frame out of the buffer, with its bar, and reads it as JSON. A frame that is
    /// no JSON text is taken out too.
    pub fn decode(&mut self, buf: &mut BytesMut) -> (value: Result<Option<Value>, DecodeError>)
        ensures
            match split_frame(buffered(*old(buf))) {
                Some((frame, rest)) => {
                    &&& buffered(*final(buf)) == rest
                    &&& match json::json_value(frame) {
                        Ok(v) => value == Ok::<Option<Value>, DecodeError>(Some(v)),
                        Err(e) => value == Err::<Option<Value>, DecodeError>(
                            DecodeError::InvalidData(e),
                        ),
                    }
                },
                None => {
                    &&& buffered(*final(buf)) == buffered(*old(buf))
                    &&& value == Ok::<Option<Value>, DecodeError>(None)
                },
            },
    {
        match find_bar(contents(buf)) {
            Some(at) => {
                let frame = buf.split_to(at);
                advance(buf, 1);
                assert(buffered(*buf) =~= buffered(*old(buf)).skip(at + 1));
                match json::parse(contents(&frame)) {
                    Ok(value) => Ok(Some(value)),
                    Err(e) => Err(DecodeError::InvalidData(e)),
                }
            },
            None => Ok(None),
        }
    }

    /// Ends the input: what is left in the buffer is no frame and is dropped.
    pub fn decode_eof(&mut self, buf: &mut BytesMut) -> (value: Result<Option<Value>, DecodeError>)
        ensures
            buffered(*final(buf)) == Seq::<u8>::empty(),
            value == Ok::<Option<Value>, DecodeError>(None),
    {
        buf.clear();
        Ok(None)
    }
}

/// What is left of a row of bytes behind its first frame.
pub open spec fn left_over(bytes: Seq<u8>) -> Seq<u8> {
    match split_frame(bytes) {
        Some((_, rest)) => rest,
        None => bytes,
    }
}

/// Whether `value` is the first frame of a row of bytes, or the reason why there is none.
pub open spec fn is_first_frame(bytes: Seq<u8>, value: Result<Value, ClientError>) -> bool {
    match split_frame(bytes) {
        Some((frame, _)) => match json::json_value(frame) {
            Ok(v) => value matches Ok(x) && x == v,
            Err(cause) => value matches Err(ClientError::IOError(e)) && *e
                == DecodeError::InvalidData(cause),
        },
        None => value matches Err(ClientError::Incomplete),
    }
}

/// Whether `messages` are those of the first frame of a row of bytes, where `payload` reads the
/// data of user messages, or the reason why there are none.
pub open spec fn is_first_batch<T: Clone, F: Fn(&Value) -> Result<T, String>>(
    bytes: Seq<u8>,
    payload: F,
    messages: Result<Vec<Data<T>>, ClientError>,
) -> bool {
    match split_frame(bytes) {
        Some((frame, _)) => match json::json_value(frame) {
            Ok(value) => match messages {
                Ok(list) => message::decodes_all(value, payload, list@),
                Err(ClientError::IOError(e)) => *e matches DecodeError::InvalidMessages(reason)
                    && message::rejects::<T, F>(value, payload, reason),
                Err(_) => false,
            },
            Err(cause) => messages matches Err(ClientError::IOError(e)) && *e
                == DecodeError::InvalidData(cause),
        },
        None => messages matches Err(ClientError::Incomplete),
    }
}

/// What a chunk of a body brings: its bytes, or why it did not arrive.
pub open spec fn arrived(chunk: Result<&[u8], Arc<reqwest::Error>>) -> Result<
    Seq<u8>,
    Arc<reqwest::Error>,
> {
    match chunk {
        Ok(bytes) => Ok(bytes@),
        Err(e) => Err(e),
    }
}

/// What is left in the buffer after a chunk, where `waiting` was in it before.
pub open spec fn left_after(waiting: Seq<u8>, chunk: Result<Seq<u8>, Arc<reqwest::Error>>) -> Seq<
    u8,
> {
    match chunk {
        Ok(bytes) => left_over(waiting + bytes),
        Err(_) => waiting,
    }
}

/// Whether `messages` are those that a chunk gives, where `waiting` was in the buffer before and
/// `payload` reads the data of user messages, or the reason why it gives none.
pub open spec fn is_batch<T: Clone, F: Fn(&Value) -> Result<T, String>>(
    waiting: Seq<u8>,
    chunk: Result<Seq<u8>, Arc<reqwest::Error>>,
    payload: F,
    messages: Result<Vec<Data<T>>, ClientError>,
) -> bool {
    match chunk {
        Ok(bytes) => is_first_batch(waiting + bytes, payload, messages),
        Err(e) => messages == Err::<Vec<Data<T>>, ClientError>(ClientError::RequestError(e)),
    }
}

/// The parts of a poll that come of what a chunk gives: each of its messages in order, or one part
/// that cannot be read.
pub open spec fn parts_for<T: Clone>(messages: Result<Vec<Data<T>>, ClientError>) -> Seq<
    Option<Data<T>>,
> {
    match messages {
        Ok(list) => list@.map_values(|data: Data<T>| Some(data)),
        Err(_) => seq![None],
    }
}

/// The parts of a poll that come of what a chunk gives.
pub fn parts_of<T: Clone>(messages: Result<Vec<Data<T>>, ClientError>) -> (parts: Vec<
    Option<Data<T>>,
>)
    ensures
        parts@ == parts_for(messages),
{
    let mut parts: Vec<Option<Data<T>>> = Vec::new();
    match messages {
        Ok(list) => {
            for data in iter: list
                invariant
                    iter.seq() == list@,
                    parts@ == list@.take(iter.index() as int).map_values(
                        |data: Data<T>| Some(data),
                    ),
            {
                parts.push(Some(data));
                assert(parts@ =~= list@.take(iter.index() + 1).map_values(
                    |data: Data<T>| Some(data),
                ));
            }
            assert(list@.take(list@.len() as int) =~= list@);
        },
        Err(_) => {
            parts.push(None);
        },
    }
    parts
}

/// The body of one response, as far as it has arrived and has not been taken out in frames.
pub struct BodyFrames {
    buf: BytesMut,
    codec: MessageBusCodec,
}

impl View for BodyFrames {
    type V = Seq<u8>;

    closed spec fn view(&self) -> Seq<u8> {
        buffered(self.buf)
    }
}

impl BodyFrames {
    /// A body of which nothing has arrived.
    pub fn new() -> (body: Self)
        ensures
            body@ == Seq::<u8>::empty(),
    {
        BodyFrames { buf: BytesMut::new(), codec: MessageBusCodec }
    }

    /// How many bytes wait for the end of their frame.
    pub fn len(&self) -> (len: usize)
        ensures
            len == self@.len(),
    {
        contents(&self.buf).len()
    }

    /// Takes in a chunk of the body, and takes the first frame out, if there is a whole one. Each
    /// chunk gives one frame at most: a second one waits for the next chunk.
    pub fn next_frame(&mut self, chunk: Result<&[u8], Arc<reqwest::Error>>) -> (value: Result<
        Value,
        ClientError,
    >)
        requires
            chunk matches Ok(bytes) ==> old(self)@.len() + bytes@.len() <= isize::MAX,
        ensures
            match chunk {
                Ok(bytes) => {
                    &&& final(self)@ == left_over(old(self)@ + bytes@)
                    &&& is_first_frame(old(self)@ + bytes@, value)
                },
                Err(e) => {
                    &&& final(self)@ == old(self)@
                    &&& value == Err::<Value, ClientError>(ClientError::RequestError(e))
                },
            },
    {
        match chunk {
            Ok(bytes) => {
                self.buf.extend_from_slice(bytes);
                match self.codec.decode(&mut self.buf) {
                    Ok(Some(value)) => Ok(value),
                    Ok(None) => Err(ClientError::Incomplete),
                    Err(e) => Err(ClientError::IOError(Arc::new(e))),
                }
            },
            Err(e) => Err(ClientError::RequestError(e)),
        }
    }

    /// Takes in a chunk of the body, and reads the messages of the first frame, if there is a whole
    /// one.
    pub fn next_messages<T: Clone, F: Fn(&Value) -> Result<T, String>>(
        &mut self,
        chunk: Result<&[u8], Arc<reqwest::Error>>,
        payload: &F,
    ) -> (messages: Result<Vec<Data<T>>, ClientError>)
        requires
            chunk matches Ok(bytes) ==> old(self)@.len() + bytes@.len() <= isize::MAX,
            forall|v: &Value| call_requires(*payload, (v,)),
        ensures
            final(self)@ == left_after(old(self)@, arrived(chunk)),
            is_batch(old(self)@, arrived(chunk), *payload, messages),
    {
        match self.next_frame(chunk) {
            Ok(value) => match Data::deserialize_all(value, payload) {
                Ok(messages) => Ok(messages),
                Err(reason) => Err(
                    ClientError::IOError(Arc::new(DecodeError::InvalidMessages(reason))),
                ),
            },
            Err(e) => Err(e),
        }
    }
}

/// A frame and its bar, and any bytes behind them, are read as that frame and those bytes.
pub proof fn law_written_frame_is_read(frame: Seq<u8>, rest: Seq<u8>)
    requires
        !frame.contains(BAR),
    ensures
        split_frame(frame.push(BAR) + rest) == Some((frame, rest)),
{
    let bytes = frame.push(BAR) + rest;
    let at = frame.len() as int;
    bytes.index_of_first_ensures(BAR);
    assert(bytes[at] == BAR);
    assert(bytes.contains(BAR));
    let first = bytes.index_of_first(BAR)->0;
    assert(first == at) by {
        if first < at {
            assert(frame[first] == BAR);
        }
    }
    assert(bytes.take(at) =~= frame);
    assert(bytes.skip(at + 1) =~= rest);
}

/// Reading takes the bytes apart and loses none: the frame, which holds no bar, its bar, and the
/// rest.
pub proof fn law_frame_and_rest_are_the_bytes(bytes: Seq<u8>)
    ensures
        match split_frame(bytes) {
            Some((frame, rest)) => !frame.contains(BAR) && bytes == frame.push(BAR) + rest,
            None => !bytes.contains(BAR),
        },
{
    bytes.index_of_first_ensures(BAR);
    if let Some((frame, rest)) = split_frame(bytes) {
        let at = bytes.index_of_first(BAR)->0;
        assert forall|i: int| 0 <= i < frame.len() implies frame[i] != BAR by {
            assert(frame[i] == bytes[i]);
        }
        assert(bytes =~= frame.push(BAR) + rest);
    }
}

/// The frames that come out of a body whose chunks arrive one after the other, and what is left
/// in the buffer, where `waiting` was in it before.
pub open spec fn frames_of(waiting: Seq<u8>, chunks: Seq<Seq<u8>>) -> (Seq<Seq<u8>>, Seq<u8>)
    decreases chunks.len(),
{
    if chunks.len() == 0 {
        (seq![], waiting)
    } else {
        let (frames, left) = frames_of(waiting, chunks.drop_last());
        let bytes = left + chunks.last();
        match split_frame(bytes) {
            Some((frame, rest)) => (frames.push(frame), rest),
            None => (frames, bytes),
        }
    }
}

/// The bytes of frames, each with its bar.
pub open spec fn joined(frames: Seq<Seq<u8>>) -> Seq<u8>
    decreases frames.len(),
{
    if frames.len() == 0 {
        seq![]
    } else {
        joined(frames.drop_last()) + frames.last().push(BAR)
    }
}

/// However a body is cut into chunks, the frames that come out, in order and with their bars, and
/// what is left in the buffer are exactly its bytes. No frame holds a bar, and no chunk gives more
/// than one frame.
pub proof fn law_frames_are_the_body(waiting: Seq<u8>, chunks: Seq<Seq<u8>>)
    ensures
        joined(frames_of(waiting, chunks).0) + frames_of(waiting, chunks).1 == waiting
            + chunks.flatten(),
        forall|i: int|
            0 <= i < frames_of(waiting, chunks).0.len() ==> !(#[trigger] frames_of(
                waiting,
                chunks,
            ).0[i]).contains(BAR),
        frames_of(waiting, chunks).0.len() <= chunks.len(),
    decreases chunks.len(),
{
    if chunks.len() == 0 {
        assert(joined(seq![]) + waiting =~= waiting + chunks.flatten());
    } else {
        let (frames, left) = frames_of(waiting, chunks.drop_last());
        let chunk = chunks.last();
        let bytes = left + chunk;
        law_frames_are_the_body(waiting, chunks.drop_last());
        law_frame_and_rest_are_the_bytes(bytes);
        chunks.lemma_flatten_and_flatten_alt_are_equivalent();
        chunks.drop_last().lemma_flatten_and_flatten_alt_are_equivalent();
        assert(waiting + chunks.flatten() =~= (waiting + chunks.drop_last().flatten()) + chunk);
        if let Some((frame, rest)) = split_frame(bytes) {
            let more = frames.push(frame);
            assert(more.drop_last() =~= frames);
            assert(joined(more) + rest =~= joined(frames) + (frame.push(BAR) + rest));
            assert(joined(frames) + (left + chunk) =~= (joined(frames) + left) + chunk);
            assert forall|i: int| 0 <= i < more.len() implies !(#[trigger] more[i]).contains(BAR) by {
                if i < frames.len() {
                    assert(more[i] == frames[i]);
                }
            }
        } else {
            assert(joined(frames) + (left + chunk) =~= (joined(frames) + left) + chunk);
        }
    }
}

/// A row of bytes without a bar holds no frame, and all of it is left.
pub proof fn law_bytes_without_a_bar_are_left(bytes: Seq<u8>)
    requires
        !bytes.contains('|' as u8),
    ensures
        split_frame(bytes) is None,
        left_over(bytes) == bytes,
{
    bytes.index_of_first_ensures(BAR);
}

/// What is left behind a frame and its bar is what follows them.
pub proof fn law_bytes_behind_a_frame_are_left(frame: Seq<u8>, rest: Seq<u8>)
    requires
        !frame.contains('|' as u8),
    ensures
        split_frame(frame + seq!['|' as u8] + rest) == Some((frame, rest)),
        left_over(frame + seq!['|' as u8] + rest) == rest,
{
    law_written_frame_is_read(frame, rest);
    assert(frame.push(BAR) + rest =~= frame + seq!['|' as u8] + rest);
}

/// As long as no bar has arrived, chunks are put together and nothing is lost: all bytes that waited
/// and all bytes of the chunk wait, and the answer is that the frame is incomplete.
pub proof fn law_chunk_without_a_bar_waits<'a>(
    body: &mut BodyFrames,
    chunk: &'a [u8],
    value: Result<Value, ClientError>,
)
    requires
        call_ensures(
            BodyFrames::next_frame,
            (body, Ok::<&'a [u8], Arc<reqwest::Error>>(chunk)),
            value,
        ),
        !(old(body)@ + chunk@).contains('|' as u8),
    ensures
        final(body)@ == old(body)@ + chunk@,
        value matches Err(ClientError::Incomplete),
{
    law_bytes_without_a_bar_are_left(old(body)@ + chunk@);
}

/// A chunk that closes a frame gives the JSON value of that frame, from the first byte that waited up
/// to the bar, or the reason why it is no JSON text. What follows the bar waits.
pub proof fn law_closed_frame_is_read<'a>(
    body: &mut BodyFrames,
    chunk: &'a [u8],
    value: Result<Value, ClientError>,
    frame: Seq<u8>,
    rest: Seq<u8>,
)
    requires
        call_ensures(
            BodyFrames::next_frame,
            (body, Ok::<&'a [u8], Arc<reqwest::Error>>(chunk)),
            value,
        ),
        !frame.contains('|' as u8),
        old(body)@ + chunk@ == frame + seq!['|' as u8] + rest,
    ensures
        final(body)@ == rest,
        match json::json_value(frame) {
            Ok(read) => value == Ok::<Value, ClientError>(read),
            Err(cause) => value matches Err(ClientError::IOError(e)) && *e
                == DecodeError::InvalidData(cause),
        },
{
    law_bytes_behind_a_frame_are_left(frame, rest);
}

/// A chunk that did not arrive leaves what waits as it is, and the reason is given.
pub proof fn law_failed_chunk_leaves_what_waits(
    body: &mut BodyFrames,
    e: Arc<reqwest::Error>,
    value: Result<Value, ClientError>,
)
    requires
        call_ensures(BodyFrames::next_frame, (body, Err::<&[u8], Arc<reqwest::Error>>(e)), value),
    ensures
        final(body)@ == old(body)@,
        value == Err::<Value, ClientError>(ClientError::RequestError(e)),
{
}

/// In the beginning nothing waits, and as much waits as is said.
pub proof fn law_nothing_waits_in_the_beginning(body: BodyFrames, len: usize, other: BodyFrames)
    requires
        call_ensures(BodyFrames::new, (), body),
        call_ensures(BodyFrames::len, (&other,), len),
    ensures
        body@.len() == 0,
        other@.len() == len,
{
}

/// What comes of a row of chunks, all of which arrive, that are taken in one after the other by a new
/// body: what waits in the end is what is left of all bytes behind the frames, and chunk by chunk
/// either no frame comes out and the answer is that it is incomplete, or the next frame does and is
/// read.
pub proof fn law_frames_come_out_as_chunks_arrive<'a>(
    bodies: Seq<&mut BodyFrames>,
    chunks: Seq<&'a [u8]>,
    values: Seq<Result<Value, ClientError>>,
)
    requires
        bodies.len() == chunks.len() == values.len(),
        bodies.len() > 0,
        (*bodies[0])@.len() == 0,
        forall|i: int|
            0 <= i < bodies.len() ==> #[trigger] call_ensures(
                BodyFrames::next_frame,
                (bodies[i], Ok::<&'a [u8], Arc<reqwest::Error>>(chunks[i])),
                values[i],
            ),
        forall|i: int| 0 < i < bodies.len() ==> *(#[trigger] bodies[i]) == *final(bodies[i - 1]),
    ensures
        ({
            let arrived = chunks.map_values(|chunk: &'a [u8]| chunk@);
            let (frames, left) = frames_of(seq![], arrived);
            &&& (*final(bodies.last()))@ == left
            &&& joined(frames) + left == arrived.flatten()
            &&& forall|i: int|
                0 <= i < frames.len() ==> !(#[trigger] frames[i]).contains('|' as u8)
            &&& forall|i: int|
                0 <= i < chunks.len() ==> {
                    let before = frames_of(seq![], arrived.take(i)).0;
                    let after = frames_of(seq![], arrived.take(i + 1)).0;
                    ||| after == before && #[trigger] values[i] matches Err(ClientError::Incomplete)
                    ||| after.len() == before.len() + 1 && after.drop_last() == before
                        && match json::json_value(after.last()) {
                        Ok(read) => values[i] == Ok::<Value, ClientError>(read),
                        Err(cause) => values[i] matches Err(ClientError::IOError(e)) && *e
                            == DecodeError::InvalidData(cause),
                    }
                }
        }),
{
    let arrived = chunks.map_values(|chunk: &'a [u8]| chunk@);
    let n = chunks.len() as int;
    lemma_waiting(bodies, chunks, values, n - 1);
    assert(arrived.take(n) =~= arrived);
    law_frames_are_the_body(seq![], arrived);
    assert(seq![] + arrived.flatten() =~= arrived.flatten());
    assert forall|i: int| 0 <= i < chunks.len() implies {
        let before = frames_of(seq![], arrived.take(i)).0;
        let after = frames_of(seq![], arrived.take(i + 1)).0;
        ||| after == before && #[trigger] values[i] matches Err(ClientError::Incomplete)
        ||| after.len() == before.len() + 1 && after.drop_last() == before && match json::json_value(
            after.last(),
        ) {
            Ok(read) => values[i] == Ok::<Value, ClientError>(read),
            Err(cause) => values[i] matches Err(ClientError::IOError(e)) && *e
                == DecodeError::InvalidData(cause),
        }
    } by {
        let before = frames_of(seq![], arrived.take(i));
        let after = frames_of(seq![], arrived.take(i + 1));
        lemma_waiting(bodies, chunks, values, i);
        assert(arrived.take(i + 1).drop_last() =~= arrived.take(i));
        assert(call_ensures(
            BodyFrames::next_frame,
            (bodies[i], Ok::<&'a [u8], Arc<reqwest::Error>>(chunks[i])),
            values[i],
        ));
        assert(is_first_frame(before.1 + chunks[i]@, values[i]));
        if after.0 != before.0 {
            assert(after.0.drop_last() =~= before.0);
        }
    }
}

proof fn lemma_waiting<'a>(
    bodies: Seq<&mut BodyFrames>,
    chunks: Seq<&'a [u8]>,
    values: Seq<Result<Value, ClientError>>,
    i: int,
)
    requires
        bodies.len() == chunks.len() == values.len(),
        0 <= i < bodies.len(),
        (*bodies[0])@.len() == 0,
        forall|i: int|
            0 <= i < bodies.len() ==> #[trigger] call_ensures(
                BodyFrames::next_frame,
                (bodies[i], Ok::<&'a [u8], Arc<reqwest::Error>>(chunks[i])),
                values[i],
            ),
        forall|i: int| 0 < i < bodies.len() ==> *(#[trigger] bodies[i]) == *final(bodies[i - 1]),
    ensures
        ({
            let arrived = chunks.map_values(|chunk: &'a [u8]| chunk@);
            &&& (*bodies[i])@ == frames_of(seq![], arrived.take(i)).1
            &&& (*final(bodies[i]))@ == frames_of(seq![], arrived.take(i + 1)).1
        }),
    decreases i,
{
    let arrived = chunks.map_values(|chunk: &'a [u8]| chunk@);
    assert(call_ensures(
        BodyFrames::next_frame,
        (bodies[i], Ok::<&'a [u8], Arc<reqwest::Error>>(chunks[i])),
        values[i],
    ));
    if i > 0 {
        lemma_waiting(bodies, chunks, values, i - 1);
        assert(*bodies[i] == *final(bodies[i - 1]));
    } else {
        assert((*bodies[0])@ =~= seq![]);
    }
    assert(arrived.take(i + 1).drop_last() =~= arrived.take(i));
    assert(arrived.take(i + 1).last() == chunks[i]@);
}

/// The messages of a list are the parts of a poll: as many, and each as it is, status messages as well
/// as user messages. Of what gives no messages, one part that cannot be read is left.
pub proof fn law_messages_are_the_parts<T: Clone>(
    messages: Result<Vec<Data<T>>, ClientError>,
    parts: Vec<Option<Data<T>>>,
)
    requires
        call_ensures(parts_of::<T>, (messages,), parts),
    ensures
        parts@ == parts_for(messages),
        messages matches Ok(list) ==> {
            &&& parts@.len() == list@.len()
            &&& forall|i: int| 0 <= i < list@.len() ==> parts@[i] == Some(#[trigger] list@[i])
        },
        messages is Err ==> parts@.len() == 1 && parts@[0] is None,
{
}

/// A chunk that closes a frame gives its messages: those that the elements of its JSON array are, in
/// order, or the reason why it has none. What follows the bar waits.
pub proof fn law_messages_of_a_closed_frame<'a, T: Clone, F: Fn(&Value) -> Result<T, String>>(
    body: &mut BodyFrames,
    chunk: &'a [u8],
    payload: &F,
    messages: Result<Vec<Data<T>>, ClientError>,
    frame: Seq<u8>,
    rest: Seq<u8>,
)
    requires
        call_ensures(
            BodyFrames::next_messages::<T, F>,
            (body, Ok::<&'a [u8], Arc<reqwest::Error>>(chunk), payload),
            messages,
        ),
        !frame.contains('|' as u8),
        old(body)@ + chunk@ == frame + seq!['|' as u8] + rest,
    ensures
        final(body)@ == rest,
        match json::json_value(frame) {
            Ok(value) => match messages {
                Ok(list) => message::decodes_all(value, *payload, list@),
                Err(ClientError::IOError(e)) => *e matches DecodeError::InvalidMessages(reason)
                    && message::rejects::<T, F>(value, *payload, reason),
                Err(_) => false,
            },
            Err(cause) => messages matches Err(ClientError::IOError(e)) && *e
                == DecodeError::InvalidData(cause),
        },
{
    law_bytes_behind_a_frame_are_left(frame, rest);
}

/// A chunk that closes no frame gives no messages, and neither does one that did not arrive: the
/// answer says which it was. Nothing that waits is lost.
pub proof fn law_no_messages_without_a_frame<'a, T: Clone, F: Fn(&Value) -> Result<T, String>>(
    body: &mut BodyFrames,
    chunk: Result<&'a [u8], Arc<reqwest::Error>>,
    payload: &F,
    messages: Result<Vec<Data<T>>, ClientError>,
)
    requires
        call_ensures(
            BodyFrames::next_messages::<T, F>,
            (body, chunk, payload),
            messages,
        ),
        chunk matches Ok(bytes) ==> !(old(body)@ + bytes@).contains('|' as u8),
    ensures
        match chunk {
            Ok(bytes) => final(body)@ == old(body)@ + bytes@ && messages matches Err(
                ClientError::Incomplete,
            ),
            Err(e) => final(body)@ == old(body)@ && messages == Err::<Vec<Data<T>>, ClientError>(
                ClientError::RequestError(e),
            ),
        },
{
    if let Ok(bytes) = chunk {
        law_bytes_without_a_bar_are_left(old(body)@ + bytes@);
    }
}

/// A codec takes the first frame out of a buffer, with its bar, and reads it. Where there is no bar
/// it takes nothing out, and at the end of the input what is left is dropped.
pub proof fn law_codec_takes_frames_out(
    codec: &mut MessageBusCodec,
    buf: &mut BytesMut,
    value: Result<Option<Value>, DecodeError>,
    last: &mut BytesMut,
    end: Result<Option<Value>, DecodeError>,
    frame: Seq<u8>,
    rest: Seq<u8>,
)
    requires
        call_ensures(MessageBusCodec::decode, (codec, buf), value),
        call_ensures(MessageBusCodec::decode_eof, (codec, last), end),
        !frame.contains('|' as u8),
    ensures
        buffered(*old(buf)) == frame ==> {
            &&& buffered(*final(buf)) == frame
            &&& value == Ok::<Option<Value>, DecodeError>(None)
        },
        buffered(*old(buf)) == frame + seq!['|' as u8] + rest ==> {
            &&& buffered(*final(buf)) == rest
            &&& match json::json_value(frame) {
                Ok(read) => value == Ok::<Option<Value>, DecodeError>(Some(read)),
                Err(cause) => value == Err::<Option<Value>, DecodeError>(
                    DecodeError::InvalidData(cause),
                ),
            }
        },
        buffered(*final(last)).len() == 0,
        end == Ok::<Option<Value>, DecodeError>(None),
{
    law_bytes_behind_a_frame_are_left(frame, rest);
    law_bytes_without_a_bar_are_left(frame);
}

} // verus!
