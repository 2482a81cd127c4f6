//! Bytes as text: ASCII strings, decimal numbers and the search for a
//! pattern in a buffer.

use vstd::prelude::*;

verus! {

/// Holds of the ASCII digits.
pub open spec fn is_digit(byte: u8) -> bool {
    0x30 <= byte <= 0x39
}

/// Holds when every byte is an ASCII character.
pub open spec fn is_ascii_bytes(bytes: Seq<u8>) -> bool {
    forall|i: int| 0 <= i < bytes.len() ==> #[trigger] bytes[i] < 0x80
}

/// The characters ASCII bytes stand for.
pub open spec fn ascii_chars(bytes: Seq<u8>) -> Seq<char> {
    Seq::new(bytes.len(), |i: int| bytes[i] as char)
}

/// Calls `std::str::from_utf8`. ASCII bytes are valid UTF-8 and each of them
/// encodes the character of the same code, so the call succeeds and gives
/// those characters.
#[verifier::external_body]
pub(crate) fn ascii_str(bytes: &[u8]) -> (text: &str)
    requires
        is_ascii_bytes(bytes@),
    ensures
        text@ == ascii_chars(bytes@),
{
    std::str::from_utf8(bytes).unwrap_or_default()
}

/// The string ASCII bytes spell.
pub fn ascii_string(bytes: &[u8]) -> (text: String)
    requires
        is_ascii_bytes(bytes@),
    ensures
        text@ == ascii_chars(bytes@),
{
    ascii_str(bytes).to_owned()
}

/// Holds when `pattern` occurs in `buffer` at position `position`.
pub open spec fn occurs_at(buffer: Seq<u8>, pattern: Seq<u8>, position: int) -> bool {
    &&& 0 <= position
    &&& position + pattern.len() <= buffer.len()
    &&& buffer.subrange(position, position + pattern.len()) == pattern
}

/// Tells whether `pattern` occurs in `buffer` at position `position`.
pub fn occurs_at_position(buffer: &[u8], pattern: &[u8], position: usize) -> (occurs: bool)
    ensures
        occurs == occurs_at(buffer@, pattern@, position as int),
{
    if position > buffer.len() || pattern.len() > buffer.len() - position {
        return false;
    }
    let ghost window = buffer@.subrange(position as int, position + pattern@.len());
    let mut index: usize = 0;
    while index < pattern.len()
        invariant
            index <= pattern@.len(),
            position + pattern@.len() <= buffer@.len(),
            buffer@.len() <= usize::MAX,
            window == buffer@.subrange(position as int, position + pattern@.len()),
            forall|k: int| 0 <= k < index ==> window[k] == pattern@[k],
        decreases pattern@.len() - index,
    {
        if buffer[position + index] != pattern[index] {
            assert(window[index as int] != pattern@[index as int]);
            return false;
        }
        index = index + 1;
    }
    assert(window =~= pattern@);
    true
}

/// Tells whether two byte strings are equal.
pub fn bytes_eq(a: &[u8], b: &[u8]) -> (equal: bool)
    ensures
        equal == (a@ == b@),
{
    if a.len() != b.len() {
        return false;
    }
    let mut index: usize = 0;
    while index < a.len()
        invariant
            index <= a@.len(),
            a@.len() == b@.len(),
            forall|k: int| 0 <= k < index ==> a@[k] == b@[k],
        decreases a@.len() - index,
    {
        if a[index] != b[index] {
            return false;
        }
        index = index + 1;
    }
    assert(a@ =~= b@);
    true
}

/// The texts of a list of strings, in order.
pub open spec fn texts(list: Seq<String>) -> Seq<Seq<char>> {
    list.map_values(|text: String| text@)
}

/// Copies a list of strings.
pub fn clone_strings(list: &Vec<String>) -> (copy: Vec<String>)
    ensures
        copy@ == list@,
{
    let mut copy: Vec<String> = Vec::new();
    let mut index: usize = 0;
    while index < list.len()
        invariant
            index <= list@.len(),
            copy@ == list@.take(index as int),
        decreases list@.len() - index,
    {
        copy.push(list[index].clone());
        index = index + 1;
        assert(copy@ =~= list@.take(index as int));
    }
    assert(list@.take(list@.len() as int) =~= list@);
    copy
}

/// Tells whether a list of strings holds a text.
pub fn contains_text(list: &Vec<String>, text: &String) -> (found: bool)
    ensures
        found == texts(list@).contains(text@),
{
    let mut index: usize = 0;
    while index < list.len()
        invariant
            index <= list@.len(),
            forall|k: int| 0 <= k < index ==> texts(list@)[k] != text@,
        decreases list@.len() - index,
    {
        if list[index] == *text {
            assert(texts(list@)[index as int] == text@);
            return true;
        }
        index = index + 1;
    }
    false
}

/// Holds when `pattern` occurs in `buffer` at some position.
pub open spec fn occurs_within(buffer: Seq<u8>, pattern: Seq<u8>) -> bool {
    exists|position: int| occurs_at(buffer, pattern, position)
}

/// Tells whether `pattern` occurs in `buffer`.
pub fn occurs_in(buffer: &[u8], pattern: &[u8]) -> (occurs: bool)
    ensures
        occurs == occurs_within(buffer@, pattern@),
{
    let mut position: usize = 0;
    while position < buffer.len()
        invariant
            position <= buffer@.len(),
            forall|k: int| 0 <= k < position ==> !occurs_at(buffer@, pattern@, k),
        decreases buffer@.len() - position,
    {
        if occurs_at_position(buffer, pattern, position) {
            return true;
        }
        position = position + 1;
    }
    occurs_at_position(buffer, pattern, position)
}

/// The value of a digit; zero for another byte.
pub open spec fn digit_value(byte: u8) -> nat {
    if is_digit(byte) {
        (byte - 0x30) as nat
    } else {
        0
    }
}

/// Holds of the decimal numerals: one digit or more, and digits only.
pub open spec fn is_decimal(bytes: Seq<u8>) -> bool {
    &&& bytes.len() > 0
    &&& forall|i: int| 0 <= i < bytes.len() ==> is_digit(#[trigger] bytes[i])
}

/// The number a decimal numeral stands for.
pub open spec fn decimal_value(bytes: Seq<u8>) -> nat
    decreases bytes.len(),
{
    if bytes.len() == 0 {
        0
    } else {
        decimal_value(bytes.drop_last()) * 10 + digit_value(bytes.last())
    }
}

/// The value of the start of a numeral is no more than the value of the
/// whole.
pub proof fn lemma_decimal_value_of_prefix(bytes: Seq<u8>, count: int)
    requires
        0 <= count <= bytes.len(),
    ensures
        decimal_value(bytes.take(count)) <= decimal_value(bytes),
    decreases bytes.len() - count,
{
    if count < bytes.len() {
        lemma_decimal_value_of_prefix(bytes, count + 1);
        assert(bytes.take(count + 1).drop_last() =~= bytes.take(count));
    } else {
        assert(bytes.take(count) =~= bytes);
    }
}

/// Reads a decimal numeral. The bytes must be digits, at least one, and the
/// number must fit in 64 bits.
pub fn parse_decimal(bytes: &[u8]) -> (value: Option<u64>)
    ensures
        value == if is_decimal(bytes@) && decimal_value(bytes@) <= u64::MAX {
            Some(decimal_value(bytes@) as u64)
        } else {
            None
        },
{
    if bytes.len() == 0 {
        return None;
    }
    let mut value: u64 = 0;
    let mut index: usize = 0;
    assert(bytes@.take(0) =~= Seq::<u8>::empty());
    while index < bytes.len()
        invariant
            index <= bytes@.len(),
            value == decimal_value(bytes@.take(index as int)),
            forall|i: int| 0 <= i < index ==> is_digit(#[trigger] bytes@[i]),
        decreases bytes@.len() - index,
    {
        let byte: u8 = bytes[index];
        if byte < 0x30 || byte > 0x39 {
            return None;
        }
        proof {
            assert(bytes@.take(index as int + 1).drop_last() =~= bytes@.take(index as int));
            lemma_decimal_value_of_prefix(bytes@, index as int + 1);
        }
        let scaled: u64 = match value.checked_mul(10) {
            Some(scaled) => scaled,
            None => {
                return None;
            },
        };
        value = match scaled.checked_add((byte - 0x30) as u64) {
            Some(sum) => sum,
            None => {
                return None;
            },
        };
        index = index + 1;
    }
    assert(bytes@.take(bytes@.len() as int) =~= bytes@);
    Some(value)
}

/// The decimal numeral of a number, without leading zeros.
pub open spec fn decimal_digits(number: nat) -> Seq<u8>
    decreases number,
{
    if number < 10 {
        seq![(0x30 + number) as u8]
    } else {
        decimal_digits(number / 10).push((0x30 + number % 10) as u8)
    }
}

/// The numeral of a number is a decimal numeral, made of ASCII bytes, and
/// it stands for the number.
pub proof fn lemma_decimal_round_trip(number: nat)
    ensures
        is_decimal(decimal_digits(number)),
        is_ascii_bytes(decimal_digits(number)),
        decimal_value(decimal_digits(number)) == number,
    decreases number,
{
    if number >= 10 {
        lemma_decimal_round_trip(number / 10);
        let head = decimal_digits(number / 10);
        let all = decimal_digits(number);
        assert(all.drop_last() =~= head);
        assert forall|i: int| 0 <= i < all.len() implies is_digit(#[trigger] all[i]) by {
            if i < head.len() {
                assert(all[i] == head[i]);
            }
        }
        assert forall|i: int| 0 <= i < all.len() implies #[trigger] all[i] < 0x80 by {
            if i < head.len() {
                assert(all[i] == head[i]);
            }
        }
    } else {
        let all = decimal_digits(number);
        assert(all.drop_last() =~= Seq::<u8>::empty());
        assert(decimal_value(all.drop_last()) == 0);
    }
}

/// Writes a number as a decimal numeral.
pub fn format_decimal(number: u64) -> (digits: Vec<u8>)
    ensures
        digits@ == decimal_digits(number as nat),
    decreases number,
{
    if number < 10 {
        let mut digits: Vec<u8> = Vec::new();
        digits.push(0x30 + number as u8);
        assert(digits@ =~= decimal_digits(number as nat));
        digits
    } else {
        let mut digits: Vec<u8> = format_decimal(number / 10);
        digits.push(0x30 + (number % 10) as u8);
        digits
    }
}

} // verus!
