//! The identifier by which the server tells clients apart.

use rand::Rng;
use vstd::arithmetic::div_mod::*;
use vstd::arithmetic::power::*;
use vstd::prelude::*;
use vstd::utf8::*;

use crate::text;
use crate::text::digit_text;

verus! {

/// A client identifier, written as sixteen hexadecimal digits.
#[derive(Debug, Clone, Copy, PartialEq, Eq, Hash, Structural)]
pub struct ClientId(pub u64);

/// Why a text is no client identifier.
#[derive(Debug, Clone, Copy, PartialEq, Eq, Structural)]
pub enum ClientIdError {
    /// The text is not sixteen bytes long.
    InvalidLength,
    /// The text is sixteen bytes long and is not a hexadecimal number.
    InvalidCharacter,
}

impl ClientIdError {
    /// This error in words.
    pub fn to_string(&self) -> (text: String)
        ensures
            text@ == (match *self {
                ClientIdError::InvalidLength => "invalid lenght"@,
                ClientIdError::InvalidCharacter => "invalid character"@,
            }),
    {
        match self {
            ClientIdError::InvalidLength => "invalid lenght".to_owned(),
            ClientIdError::InvalidCharacter => "invalid character".to_owned(),
        }
    }
}

/// The value of a hexadecimal digit in either case, if the byte is one.
pub open spec fn hex_digit(b: u8) -> Option<int> {
    if '0' as int <= b as int <= '9' as int {
        Some(b - '0' as int)
    } else if 'a' as int <= b as int <= 'f' as int {
        Some(b - 'a' as int + 10)
    } else if 'A' as int <= b as int <= 'F' as int {
        Some(b - 'A' as int + 10)
    } else {
        None
    }
}

/// Whether every byte is a hexadecimal digit.
pub open spec fn all_hex(digits: Seq<u8>) -> bool {
    forall|i: int| 0 <= i < digits.len() ==> hex_digit(#[trigger] digits[i]) is Some
}

/// The number that a row of hexadecimal digits stands for, most significant first.
pub open spec fn hex_value(digits: Seq<u8>) -> int
    decreases digits.len(),
{
    if digits.len() == 0 {
        0
    } else {
        hex_value(digits.drop_last()) * 16 + hex_digit(digits.last())->0
    }
}

/// What is left of a number behind an optional plus sign.
pub open spec fn without_plus(text: Seq<u8>) -> Seq<u8> {
    if text.len() > 0 && text[0] as int == '+' as int {
        text.skip(1)
    } else {
        text
    }
}

/// The client identifier that a text denotes: sixteen bytes, an optional plus sign and
/// hexadecimal digits behind it.
pub open spec fn parsed_id(text: Seq<char>) -> Result<ClientId, ClientIdError> {
    let bytes = encode_utf8(text);
    let digits = without_plus(bytes);
    if bytes.len() != 16 {
        Err(ClientIdError::InvalidLength)
    } else if all_hex(digits) {
        Ok(ClientId(hex_value(digits) as u64))
    } else {
        Err(ClientIdError::InvalidCharacter)
    }
}

/// The `len` lowest hexadecimal digits of `v`, most significant first, zeros included.
pub open spec fn hex_text(v: nat, len: nat) -> Seq<char>
    decreases len,
{
    if len == 0 {
        seq![]
    } else {
        hex_text(v / 16, (len - 1) as nat).push(text::digit_char((v % 16) as int))
    }
}

proof fn lemma_power_step(k: nat)
    ensures
        pow(16, k + 1) == 16 * pow(16, k),
{
    lemma_pow_adds(16, 1, k);
    lemma_pow1(16);
}

proof fn lemma_hex_value_bound(digits: Seq<u8>)
    requires
        all_hex(digits),
    ensures
        0 <= hex_value(digits) < pow(16, digits.len()),
    decreases digits.len(),
{
    reveal_with_fuel(pow, 1);
    if digits.len() > 0 {
        let rest = digits.drop_last();
        assert forall|i: int| 0 <= i < rest.len() implies hex_digit(#[trigger] rest[i]) is Some by {
            assert(rest[i] == digits[i]);
        }
        lemma_hex_value_bound(rest);
        lemma_power_step(rest.len());
        assert(hex_digit(digits[digits.len() - 1]) is Some);
    }
}

proof fn lemma_power_sixteen()
    ensures
        forall|k: nat| k <= 16 ==> #[trigger] pow(16, k)
            <= 0x1_0000_0000_0000_0000,
{
    reveal_with_fuel(pow, 17);
    assert(pow(16, 16) == 0x1_0000_0000_0000_0000);
    assert forall|k: nat| k <= 16 implies #[trigger] pow(16, k)
        <= 0x1_0000_0000_0000_0000 by {
        lemma_pow_increases(16, k, 16);
    }
}

/// The value of a byte as a hexadecimal digit.
fn read_hex_digit(b: u8) -> (digit: Option<u8>)
    ensures
        match digit {
            Some(d) => hex_digit(b) == Some(d as int) && d < 16,
            None => hex_digit(b) is None,
        },
{
    if '0' as u8 <= b && b <= '9' as u8 {
        Some(b - ('0' as u8))
    } else if 'a' as u8 <= b && b <= 'f' as u8 {
        Some(b - ('a' as u8) + 10)
    } else if 'A' as u8 <= b && b <= 'F' as u8 {
        Some(b - ('A' as u8) + 10)
    } else {
        None
    }
}

/// Reads the bytes of `text` from `from` on as one hexadecimal number, if they are one.
fn read_hex(text: &[u8], from: usize) -> (value: Option<u64>)
    requires
        text@.len() == 16,
        from <= 1,
    ensures
        match value {
            Some(v) => all_hex(text@.skip(from as int)) && v == hex_value(text@.skip(from as int)),
            None => !all_hex(text@.skip(from as int)),
        },
{
    let ghost digits = text@.skip(from as int);
    let mut value: u64 = 0;
    let mut i: usize = from;
    while i < text.len()
        invariant
            text@.len() == 16,
            from <= i <= 16,
            from <= 1,
            digits == text@.skip(from as int),
            all_hex(digits.take(i - from)),
            value == hex_value(digits.take(i - from)),
        decreases text.len() - i,
    {
        let ghost done = digits.take(i - from);
        let ghost more = digits.take(i + 1 - from);
        assert(more.drop_last() =~= done);
        assert(more.last() == text@[i as int]);
        assert(digits[i - from] == text@[i as int]);
        match read_hex_digit(text[i]) {
            None => {
                return None;
            },
            Some(d) => {
                proof {
                    assert forall|j: int| 0 <= j < more.len() implies hex_digit(
                        #[trigger] more[j],
                    ) is Some by {
                        if j < done.len() {
                            assert(more[j] == done[j]);
                        }
                    }
                    lemma_hex_value_bound(more);
                    lemma_power_sixteen();
                    assert(pow(16, more.len())
                        <= 0x1_0000_0000_0000_0000);
                }
                value = value * 16 + d as u64;
            },
        }
        i = i + 1;
    }
    assert(digits.take(i - from) =~= digits);
    Some(value)
}

impl<'a> vstd::std_specs::convert::TryFromSpecImpl<&'a str> for ClientId {
    open spec fn obeys_try_from_spec() -> bool {
        true
    }

    open spec fn try_from_spec(s: &'a str) -> Result<ClientId, ClientIdError> {
        parsed_id(s@)
    }
}

impl<'a> TryFrom<&'a str> for ClientId {
    type Error = ClientIdError;

    fn try_from(s: &'a str) -> (id: Result<ClientId, ClientIdError>) {
        let bytes = s.as_bytes();
        if bytes.len() != 16 {
            return Err(ClientIdError::InvalidLength);
        }
        let from: usize = if bytes[0] == '+' as u8 { 1 } else { 0 };
        assert(from == 0 ==> bytes@.skip(0) =~= bytes@);
        match read_hex(bytes, from) {
            Some(value) => Ok(ClientId(value)),
            None => Err(ClientIdError::InvalidCharacter),
        }
    }
}

impl<'a> vstd::std_specs::convert::TryFromSpecImpl<&'a String> for ClientId {
    open spec fn obeys_try_from_spec() -> bool {
        true
    }

    open spec fn try_from_spec(s: &'a String) -> Result<ClientId, ClientIdError> {
        parsed_id(s@)
    }
}

impl<'a> TryFrom<&'a String> for ClientId {
    type Error = ClientIdError;

    fn try_from(s: &'a String) -> (id: Result<ClientId, ClientIdError>) {
        ClientId::try_from(s.as_str())
    }
}

impl vstd::std_specs::convert::TryFromSpecImpl<String> for ClientId {
    open spec fn obeys_try_from_spec() -> bool {
        true
    }

    open spec fn try_from_spec(s: String) -> Result<ClientId, ClientIdError> {
        parsed_id(s@)
    }
}

impl TryFrom<String> for ClientId {
    type Error = ClientIdError;

    fn try_from(s: String) -> (id: Result<ClientId, ClientIdError>) {
        ClientId::try_from(s.as_str())
    }
}

impl vstd::std_specs::convert::FromSpecImpl<u64> for ClientId {
    open spec fn obeys_from_spec() -> bool {
        true
    }

    open spec fn from_spec(v: u64) -> ClientId {
        ClientId(v)
    }
}

impl From<u64> for ClientId {
    fn from(v: u64) -> (id: ClientId) {
        ClientId(v)
    }
}

/// Draws a number with `rand::rng().random::<u64>()`, the thread's generator. Every number can
/// come up, so nothing is claimed of the one that does. The generator fails where the system gives
/// it no seed.
#[verifier::external_body]
fn random_number() -> (value: u64) {
    rand::rng().random::<u64>()
}

impl Default for ClientId {
    /// A fresh identifier, drawn at random.
    fn default() -> (id: ClientId) {
        ClientId(random_number())
    }
}

/// Appends the `len` lowest hexadecimal digits of `v`.
fn push_hex(out: &mut String, v: u64, len: usize)
    ensures
        final(out)@ == old(out)@ + hex_text(v as nat, len as nat),
    decreases len,
{
    if len > 0 {
        push_hex(out, v / 16, len - 1);
        out.append(digit_text((v % 16) as u8));
    }
}

impl ClientId {
    /// The sixteen hexadecimal digits of this identifier, letters in lower case.
    pub open spec fn text(self) -> Seq<char> {
        hex_text(self.0 as nat, 16)
    }

    /// This identifier as sixteen hexadecimal digits, letters in lower case.
    pub fn to_string(&self) -> (text: String)
        ensures
            text@ == self.text(),
    {
        let mut text = String::new();
        push_hex(&mut text, self.0, 16);
        assert(text@ =~= self.text());
        text
    }
}

/// The bytes of a text of ASCII characters.
spec fn ascii_bytes(text: Seq<char>) -> Seq<u8> {
    Seq::new(text.len(), |i: int| text[i] as u8)
}

/// The digit that stands for `c` in a written identifier: letters in lower case, a zero for a
/// plus sign.
pub open spec fn canonical_char(c: char) -> char {
    if c == '+' {
        '0'
    } else if 'A' <= c && c <= 'F' {
        ((c as int) - ('A' as int) + ('a' as int)) as char
    } else {
        c
    }
}

proof fn lemma_digit_char_is_hex(d: int)
    requires
        0 <= d < 16,
    ensures
        hex_digit(text::digit_char(d) as u8) == Some(d),
        (text::digit_char(d) as int) < 128,
{
}

proof fn lemma_hex_text(v: nat, len: nat)
    ensures
        hex_text(v, len).len() == len,
        all_hex(ascii_bytes(hex_text(v, len))),
        forall|i: int| 0 <= i < len ==> ((#[trigger] hex_text(v, len)[i]) as int) < 128,
        forall|i: int| 0 <= i < len ==> (#[trigger] hex_text(v, len)[i]) != '+',
        v < pow(16, len) ==> hex_value(ascii_bytes(hex_text(v, len))) == v,
    decreases len,
{
    let text = hex_text(v, len);
    let bytes = ascii_bytes(text);
    if len == 0 {
        lemma_pow0(16);
    } else {
        let k = (len - 1) as nat;
        lemma_hex_text(v / 16, k);
        lemma_digit_char_is_hex((v % 16) as int);
        lemma_power_step(k);
        assert(bytes.drop_last() =~= ascii_bytes(hex_text(v / 16, k)));
        assert forall|i: int| 0 <= i < bytes.len() implies hex_digit(#[trigger] bytes[i]) is Some by {
            if i < k {
                assert(bytes[i] == ascii_bytes(hex_text(v / 16, k))[i]);
            }
        }
    }
}

proof fn lemma_least_char(c: char)
    ensures
        '\0' <= c,
{
}

proof fn lemma_ascii_encoding(text: Seq<char>)
    requires
        forall|i: int| 0 <= i < text.len() ==> ((#[trigger] text[i]) as int) < 128,
    ensures
        encode_utf8(text) == ascii_bytes(text),
{
    assert(is_ascii_chars(text)) by {
        assert forall|i: int| 0 <= i < text.len() implies '\0' <= #[trigger] text[i] <= '\u{7f}' by {
            lemma_least_char(text[i]);
            assert((text[i] as int) < 128);
        }
    }
    is_ascii_chars_encode_utf8(text);
    assert(encode_utf8(text) =~= ascii_bytes(text));
}

/// An identifier that is written out reads back as itself.
pub proof fn law_written_id_reads_back(id: ClientId)
    ensures
        parsed_id(id.text()) == Ok::<ClientId, ClientIdError>(id),
{
    let text = id.text();
    lemma_hex_text(id.0 as nat, 16);
    lemma_ascii_encoding(text);
    reveal_with_fuel(pow, 17);
    assert(pow(16, 16) == 0x1_0000_0000_0000_0000);
    assert(without_plus(encode_utf8(text)) == encode_utf8(text)) by {
        assert(text[0] != '+');
    }
}

/// Two identifiers that are written alike are one.
pub proof fn law_written_ids_differ(a: ClientId, b: ClientId)
    requires
        a.text() == b.text(),
    ensures
        a == b,
{
    law_written_id_reads_back(a);
    law_written_id_reads_back(b);
}

proof fn lemma_hex_text_of_value(bytes: Seq<u8>)
    requires
        all_hex(bytes),
    ensures
        hex_value(bytes) >= 0,
        forall|i: int|
            0 <= i < bytes.len() ==> #[trigger] hex_text(hex_value(bytes) as nat, bytes.len())[i]
                == text::digit_char(hex_digit(bytes[i])->0),
        hex_text(hex_value(bytes) as nat, bytes.len()).len() == bytes.len(),
    decreases bytes.len(),
{
    lemma_hex_value_bound(bytes);
    lemma_hex_text(hex_value(bytes) as nat, bytes.len());
    if bytes.len() > 0 {
        let rest = bytes.drop_last();
        assert forall|i: int| 0 <= i < rest.len() implies hex_digit(#[trigger] rest[i]) is Some by {
            assert(rest[i] == bytes[i]);
        }
        lemma_hex_text_of_value(rest);
        let d = hex_digit(bytes.last())->0;
        assert(hex_digit(bytes[bytes.len() - 1]) is Some);
        let v = hex_value(bytes) as nat;
        assert(v / 16 == hex_value(rest) && v % 16 == d);
        let text = hex_text(v, bytes.len());
        assert forall|i: int| 0 <= i < bytes.len() implies #[trigger] text[i]
            == text::digit_char(hex_digit(bytes[i])->0) by {
            if i < rest.len() {
                assert(text[i] == hex_text(hex_value(rest) as nat, rest.len())[i]);
            }
        }
    }
}

proof fn lemma_leading_zero(v: nat, len: nat)
    requires
        v < pow(16, len),
    ensures
        hex_text(v, len + 1) == seq!['0'] + hex_text(v, len),
    decreases len,
{
    if len == 0 {
        lemma_pow0(16);
        assert(hex_text(v / 16, 0) =~= seq![]);
        assert(hex_text(v, 1) =~= seq!['0']);
    } else {
        lemma_power_step((len - 1) as nat);
        lemma_leading_zero(v / 16, (len - 1) as nat);
        assert(hex_text(v, len + 1) =~= seq!['0'] + hex_text(v, len));
    }
}

/// A text that is accepted denotes the identifier whose written form it is, up to the case of
/// its letters and a plus sign in the place of a leading zero.
pub proof fn law_accepted_text_is_the_written_id(text: Seq<char>, id: ClientId)
    requires
        parsed_id(text) == Ok::<ClientId, ClientIdError>(id),
    ensures
        id.text() == text.map_values(|c: char| canonical_char(c)),
{
    let bytes = encode_utf8(text);
    let digits = without_plus(bytes);
    assert forall|i: int| 0 <= i < bytes.len() implies (#[trigger] bytes[i]) < 128 by {
        if digits.len() == 16 {
            assert(hex_digit(digits[i]) is Some);
        } else if i > 0 {
            assert(hex_digit(digits[i - 1]) is Some);
        }
    }
    let chars = Seq::new(bytes.len(), |i: int| bytes[i] as char);
    lemma_ascii_encoding(chars);
    assert(ascii_bytes(chars) =~= bytes);
    text::lemma_encoding_is_injective(text, chars);
    lemma_hex_value_bound(digits);
    lemma_power_sixteen();
    assert(pow(16, digits.len()) <= 0x1_0000_0000_0000_0000);
    lemma_hex_text_of_value(digits);
    if digits.len() == 15 {
        lemma_leading_zero(hex_value(digits) as nat, 15);
    }
    assert(id.text() =~= text.map_values(|c: char| canonical_char(c))) by {
        assert forall|i: int| 0 <= i < 16 implies #[trigger] id.text()[i] == canonical_char(
            text[i],
        ) by {
            if digits.len() == 16 {
                assert(hex_digit(digits[i]) is Some);
            } else if i > 0 {
                assert(hex_digit(digits[i - 1]) is Some);
            }
        }
    }
}

/// The digit of `v` at the place of a power of sixteen.
spec fn digit_at(v: int, place: int) -> int {
    (v / pow(16, place as nat)) % 16
}

proof fn lemma_hex_places(v: nat, len: nat)
    ensures
        hex_text(v, len).len() == len,
        forall|i: int|
            0 <= i < len ==> (#[trigger] hex_text(v, len)[i]) == text::digit_char(
                digit_at(v as int, len - 1 - i),
            ),
    decreases len,
{
    if len > 0 {
        let k = (len - 1) as nat;
        let front = hex_text(v / 16, k);
        let digits = hex_text(v, len);
        lemma_hex_places(v / 16, k);
        lemma_pow0(16);
        assert forall|i: int| 0 <= i < len implies (#[trigger] digits[i]) == text::digit_char(
            digit_at(v as int, len - 1 - i),
        ) by {
            if i < k {
                let place = (k - 1 - i) as nat;
                assert(digits[i] == front[i]);
                lemma_pow_positive(16, place);
                lemma_power_step(place);
                lemma_div_denominator(v as int, 16, pow(16, place));
                assert((len - 1 - i) as nat == place + 1);
                assert(digit_at(v as int, len - 1 - i) == digit_at(v as int / 16, place as int));
            } else {
                assert(digit_at(v as int, 0) == v % 16);
            }
        }
    }
}

/// An identifier is written with sixteen digits, each in its place: the digit at a place is how often
/// the power of sixteen of that place goes into the number, but for whole sixteens of it. Ten and
/// above are letters in lower case.
pub proof fn law_written_id_has_its_digits_in_their_places(id: ClientId, written: String, i: int)
    requires
        call_ensures(ClientId::to_string, (&id,), written),
        0 <= i < 16,
    ensures
        written@ == id.text(),
        written@.len() == 16,
        ({
            let digit = (id.0 as int / pow(16, (15 - i) as nat)) % 16;
            written@[i] as int == if digit < 10 {
                '0' as int + digit
            } else {
                'a' as int + digit - 10
            }
        }),
{
    lemma_hex_places(id.0 as nat, 16);
    let c = hex_text(id.0 as nat, 16)[i];
    let digit = digit_at(id.0 as int, 15 - i);
    assert(0 <= digit < 16);
    text::law_digits_are_figures_and_letters(digit);
    assert(c == text::digit_char(digit));
}

/// The written form that addresses hold has sixteen digits, each in its place.
pub proof fn law_id_text_has_its_digits_in_their_places(id: ClientId, i: int)
    requires
        0 <= i < 16,
    ensures
        id.text().len() == 16,
        ({
            let digit = (id.0 as int / pow(16, (15 - i) as nat)) % 16;
            id.text()[i] as int == if digit < 10 {
                '0' as int + digit
            } else {
                'a' as int + digit - 10
            }
        }),
{
    lemma_hex_places(id.0 as nat, 16);
    let c = hex_text(id.0 as nat, 16)[i];
    let digit = digit_at(id.0 as int, 15 - i);
    assert(0 <= digit < 16);
    text::law_digits_are_figures_and_letters(digit);
    assert(c == text::digit_char(digit));
}

/// A text is accepted where it is sixteen characters long and each is a hexadecimal digit in either
/// case, or a plus sign in front. It then denotes the number that has these digits in their places.
/// Any other text is refused: for its length where it does not take up sixteen bytes, and else for
/// one of its characters.
pub proof fn law_accepted_texts_are_sixteen_digits(text: Seq<char>)
    ensures
        match parsed_id(text) {
            Ok(id) => text.len() == 16 && forall|i: int|
                0 <= i < 16 ==> {
                    let c = (#[trigger] text[i]) as int;
                    let digit = (id.0 as int / pow(16, (15 - i) as nat)) % 16;
                    ||| '0' as int <= c <= '9' as int && digit == c - '0' as int
                    ||| 'a' as int <= c <= 'f' as int && digit == c - 'a' as int + 10
                    ||| 'A' as int <= c <= 'F' as int && digit == c - 'A' as int + 10
                    ||| i == 0 && c == '+' as int && digit == 0
                },
            Err(ClientIdError::InvalidLength) => encode_utf8(text).len() != 16,
            Err(ClientIdError::InvalidCharacter) => encode_utf8(text).len() == 16 && exists|i: int|
                0 <= i < text.len() && {
                    let c = (#[trigger] text[i]) as int;
                    &&& !('0' as int <= c <= '9' as int)
                    &&& !('a' as int <= c <= 'f' as int)
                    &&& !('A' as int <= c <= 'F' as int)
                    &&& !(i == 0 && c == '+' as int)
                },
        },
{
    let bytes = encode_utf8(text);
    let digits = without_plus(bytes);
    match parsed_id(text) {
        Ok(id) => {
            law_accepted_text_is_the_written_id(text, id);
            let written = text.map_values(|c: char| canonical_char(c));
            lemma_hex_places(id.0 as nat, 16);
            lemma_accepted_characters(text);
            assert(written.len() == 16);
            assert forall|i: int| 0 <= i < 16 implies {
                let c = (#[trigger] text[i]) as int;
                let digit = (id.0 as int / pow(16, (15 - i) as nat)) % 16;
                ||| '0' as int <= c <= '9' as int && digit == c - '0' as int
                ||| 'a' as int <= c <= 'f' as int && digit == c - 'a' as int + 10
                ||| 'A' as int <= c <= 'F' as int && digit == c - 'A' as int + 10
                ||| i == 0 && c == '+' as int && digit == 0
            } by {
                let digit = digit_at(id.0 as int, 15 - i);
                assert(0 <= digit < 16);
                assert(written[i] == canonical_char(text[i]));
                assert(hex_text(id.0 as nat, 16)[i] == text::digit_char(digit));
                text::law_digits_are_figures_and_letters(digit);
            }
        },
        Err(ClientIdError::InvalidLength) => {},
        Err(ClientIdError::InvalidCharacter) => {
            if forall|i: int| 0 <= i < text.len() ==> is_accepted_character(#[trigger] text[i], i) {
                assert forall|i: int| 0 <= i < text.len() implies ((#[trigger] text[i]) as int)
                    < 128 by {
                    assert(is_accepted_character(text[i], i));
                }
                lemma_ascii_encoding(text);
                assert forall|i: int| 0 <= i < digits.len() implies hex_digit(
                    #[trigger] digits[i],
                ) is Some by {
                    let at = if digits.len() == bytes.len() {
                        i
                    } else {
                        i + 1
                    };
                    assert(is_accepted_character(text[at], at));
                    assert(bytes[at] == text[at] as u8);
                    assert(digits[i] == bytes[at]);
                }
            }
            let i = choose|i: int|
                0 <= i < text.len() && !is_accepted_character(#[trigger] text[i], i);
            assert(!is_accepted_character(text[i], i));
        },
    }
}

/// Whether `c` may stand at index `i` of an accepted text.
spec fn is_accepted_character(c: char, i: int) -> bool {
    ||| '0' as int <= c as int <= '9' as int
    ||| 'a' as int <= c as int <= 'f' as int
    ||| 'A' as int <= c as int <= 'F' as int
    ||| i == 0 && c as int == '+' as int
}

proof fn lemma_accepted_characters(text: Seq<char>)
    requires
        parsed_id(text) is Ok,
    ensures
        text.len() == 16,
        forall|i: int| 0 <= i < 16 ==> is_accepted_character(#[trigger] text[i], i),
{
    let bytes = encode_utf8(text);
    let digits = without_plus(bytes);
    assert forall|i: int| 0 <= i < bytes.len() implies (#[trigger] bytes[i]) < 128 by {
        if digits.len() == 16 {
            assert(hex_digit(digits[i]) is Some);
        } else if i > 0 {
            assert(hex_digit(digits[i - 1]) is Some);
        }
    }
    let chars = Seq::new(bytes.len(), |i: int| bytes[i] as char);
    lemma_ascii_encoding(chars);
    assert(ascii_bytes(chars) =~= bytes);
    text::lemma_encoding_is_injective(text, chars);
    assert forall|i: int| 0 <= i < 16 implies is_accepted_character(#[trigger] text[i], i) by {
        if digits.len() == 16 {
            assert(hex_digit(digits[i]) is Some);
        } else if i > 0 {
            assert(hex_digit(digits[i - 1]) is Some);
        }
    }
}

/// Whatever kind of text an identifier is read from, the outcome is that of its characters.
pub proof fn law_ids_are_read_from_any_text<'a>(
    text: &'a str,
    read: Result<ClientId, ClientIdError>,
    borrowed: &'a String,
    read_borrowed: Result<ClientId, ClientIdError>,
    owned: String,
    read_owned: Result<ClientId, ClientIdError>,
)
    requires
        call_ensures(<ClientId as TryFrom<&'a str>>::try_from, (text,), read),
        call_ensures(
            <ClientId as TryFrom<&'a String>>::try_from,
            (borrowed,),
            read_borrowed,
        ),
        call_ensures(<ClientId as TryFrom<String>>::try_from, (owned,), read_owned),
    ensures
        read == parsed_id(text@),
        read_borrowed == parsed_id(borrowed@),
        read_owned == parsed_id(owned@),
{
}

/// A number is taken for an identifier as it is.
pub proof fn law_id_keeps_its_number(v: u64, id: ClientId)
    requires
        call_ensures(<ClientId as From<u64>>::from, (v,), id),
    ensures
        id.0 == v,
{
}

/// The two reasons to refuse a text are put in different words.
pub proof fn law_refusals_have_words_of_their_own(error: ClientIdError, words: String)
    requires
        call_ensures(ClientIdError::to_string, (&error,), words),
    ensures
        error is InvalidLength <==> words@ == "invalid lenght"@,
        error is InvalidCharacter <==> words@ == "invalid character"@,
{
    reveal_strlit("invalid lenght");
    reveal_strlit("invalid character");
    assert("invalid lenght"@[8] == 'l');
    assert("invalid character"@[8] == 'c');
}

} // verus!
