//! Characters and text: classification, trimming, UTF-16 and numbers in digits.

use vstd::prelude::*;
use vstd::string::*;
use vstd::utf8::*;

verus! {

/// [`String::push`] appends one character.
pub assume_specification[ String::push ](receiver: &mut String, pushed: char)
    ensures
        final(receiver)@ == old(receiver)@.push(pushed),
;

/// [`String::from_utf8`] takes the bytes exactly when they are UTF-8, and gives the text that
/// they encode.
#[verifier::external_body]
pub(crate) fn text_from_utf8(bytes: &[u8]) -> (text: Option<String>)
    ensures
        text is Some <==> valid_utf8(bytes@),
        text matches Some(text) ==> text@ == decode_utf8(bytes@),
{
    String::from_utf8(bytes.to_vec()).ok()
}

/// Whether a character is a control code: general category Cc of Unicode.
pub open spec fn is_control(character: char) -> bool {
    character as u32 <= 0x1f || 0x7f <= character as u32 <= 0x9f
}

/// Whether a character has the `White_Space` property of Unicode.
pub open spec fn is_whitespace(character: char) -> bool {
    let code = character as u32;
    ||| 0x09 <= code <= 0x0d
    ||| code == 0x20
    ||| code == 0x85
    ||| code == 0xa0
    ||| code == 0x1680
    ||| 0x2000 <= code <= 0x200a
    ||| code == 0x2028
    ||| code == 0x2029
    ||| code == 0x202f
    ||| code == 0x205f
    ||| code == 0x3000
}

/// Whether some character of the text is a control code.
pub open spec fn has_control(text: Seq<char>) -> bool {
    exists|k: int| 0 <= k < text.len() && is_control(#[trigger] text[k])
}

/// The text without the whitespace at its start.
pub open spec fn trim_start(text: Seq<char>) -> Seq<char>
    decreases text.len(),
{
    if text.len() > 0 && is_whitespace(text[0]) {
        trim_start(text.skip(1))
    } else {
        text
    }
}

/// The text without the whitespace at its end.
pub open spec fn trim_end(text: Seq<char>) -> Seq<char>
    decreases text.len(),
{
    if text.len() > 0 && is_whitespace(text.last()) {
        trim_end(text.drop_last())
    } else {
        text
    }
}

/// The text without the whitespace around it.
pub open spec fn trimmed(text: Seq<char>) -> Seq<char> {
    trim_end(trim_start(text))
}

/// How many characters stand before the first occurrence of `wanted`; all of them where there is
/// none.
pub open spec fn position(text: Seq<char>, wanted: char) -> nat
    decreases text.len(),
{
    if text.len() == 0 || text[0] == wanted {
        0
    } else {
        1 + position(text.skip(1), wanted)
    }
}

pub proof fn lemma_position(text: Seq<char>, wanted: char)
    ensures
        position(text, wanted) <= text.len(),
        position(text, wanted) < text.len() ==> text[position(text, wanted) as int] == wanted,
        forall|k: int| 0 <= k < position(text, wanted) ==> #[trigger] text[k] != wanted,
    decreases text.len(),
{
    if text.len() > 0 && text[0] != wanted {
        let rest = text.skip(1);
        lemma_position(rest, wanted);
        assert forall|k: int| 0 <= k < position(text, wanted) implies #[trigger] text[k] != wanted by {
            if k > 0 {
                assert(rest[k - 1] == text[k]);
            }
        }
        if position(text, wanted) < text.len() {
            assert(rest[position(rest, wanted) as int] == text[position(text, wanted) as int]);
        }
    }
}

/// The first occurrence of a character is where none stands before it and it stands itself.
pub proof fn lemma_position_is(text: Seq<char>, wanted: char, at: int)
    requires
        0 <= at <= text.len(),
        at < text.len() ==> text[at] == wanted,
        forall|k: int| 0 <= k < at ==> #[trigger] text[k] != wanted,
    ensures
        position(text, wanted) == at,
{
    lemma_position(text, wanted);
    let found = position(text, wanted) as int;
    if found < at {
        assert(text[found] == wanted);
    } else if at < found {
        assert(text[at] != wanted);
    }
}

/// The UTF-16 code units of one character.
pub open spec fn utf16_of(character: char) -> Seq<u16> {
    let code = character as int;
    if code < 0x1_0000 {
        seq![code as u16]
    } else {
        seq![
            (0xd800 + (code - 0x1_0000) / 0x400) as u16,
            (0xdc00 + (code - 0x1_0000) % 0x400) as u16,
        ]
    }
}

/// The UTF-16 code units of a text.
pub open spec fn utf16(text: Seq<char>) -> Seq<u16>
    decreases text.len(),
{
    if text.len() == 0 {
        Seq::empty()
    } else {
        utf16(text.drop_last()) + utf16_of(text.last())
    }
}

/// The upper-case letter of an ASCII lower-case letter; every other character itself.
pub open spec fn ascii_upper(character: char) -> char {
    if 'a' <= character <= 'z' {
        (character as u32 - 32) as char
    } else {
        character
    }
}

/// The text with every ASCII lower-case letter replaced by its upper-case letter.
pub open spec fn ascii_uppercase(text: Seq<char>) -> Seq<char> {
    text.map_values(|character: char| ascii_upper(character))
}

/// The lower-case letter of an ASCII upper-case letter; every other character itself.
pub open spec fn ascii_lower(character: char) -> char {
    if 'A' <= character <= 'Z' {
        (character as u32 + 32) as char
    } else {
        character
    }
}

/// The text with every ASCII upper-case letter replaced by its lower-case letter.
pub open spec fn ascii_lowercase(text: Seq<char>) -> Seq<char> {
    text.map_values(|character: char| ascii_lower(character))
}

/// The decimal digit of a number below ten.
pub open spec fn decimal_digit(value: nat) -> char {
    (48 + value) as char
}

/// A number in decimal digits, without leading zeros.
pub open spec fn decimal(value: nat) -> Seq<char>
    decreases value,
{
    if value < 10 {
        seq![decimal_digit(value)]
    } else {
        decimal(value / 10).push(decimal_digit(value % 10))
    }
}

/// The hexadecimal digit of a number below sixteen, with letters in upper or lower case.
pub open spec fn hex_digit(value: nat, upper: bool) -> char {
    if value < 10 {
        (48 + value) as char
    } else if upper {
        (55 + value) as char
    } else {
        (87 + value) as char
    }
}

/// The two hexadecimal digits of a byte.
pub open spec fn hex_pair(byte: u8, upper: bool) -> Seq<char> {
    seq![hex_digit(byte as nat / 16, upper), hex_digit(byte as nat % 16, upper)]
}

/// The hexadecimal digits of a byte sequence, two for each byte.
pub open spec fn hex_text(bytes: Seq<u8>, upper: bool) -> Seq<char>
    decreases bytes.len(),
{
    if bytes.len() == 0 {
        Seq::empty()
    } else {
        hex_text(bytes.drop_last(), upper) + hex_pair(bytes.last(), upper)
    }
}

/// The value of a hexadecimal digit of either case.
pub open spec fn hex_value(character: char) -> Option<nat> {
    if '0' <= character <= '9' {
        Some((character as int - 48) as nat)
    } else if 'a' <= character <= 'f' {
        Some((character as int - 87) as nat)
    } else if 'A' <= character <= 'F' {
        Some((character as int - 55) as nat)
    } else {
        None
    }
}

/// Reading a hexadecimal digit gives back its value.
pub proof fn lemma_hex_value_of_digit(value: nat, upper: bool)
    requires
        value < 16,
    ensures
        hex_value(hex_digit(value, upper)) == Some(value),
        hex_digit(value, upper) != ':',
{
}

pub proof fn lemma_hex_text_len(bytes: Seq<u8>, upper: bool)
    ensures
        hex_text(bytes, upper).len() == 2 * bytes.len(),
    decreases bytes.len(),
{
    if bytes.len() > 0 {
        lemma_hex_text_len(bytes.drop_last(), upper);
    }
}

/// The digits of byte `index` stand at twice that place.
pub proof fn lemma_hex_text_at(bytes: Seq<u8>, upper: bool, index: int)
    requires
        0 <= index < bytes.len(),
    ensures
        hex_text(bytes, upper).len() == 2 * bytes.len(),
        hex_text(bytes, upper)[2 * index] == hex_digit(bytes[index] as nat / 16, upper),
        hex_text(bytes, upper)[2 * index + 1] == hex_digit(bytes[index] as nat % 16, upper),
    decreases bytes.len(),
{
    lemma_hex_text_len(bytes, upper);
    lemma_hex_text_len(bytes.drop_last(), upper);
    if index < bytes.len() - 1 {
        lemma_hex_text_at(bytes.drop_last(), upper, index);
    }
}

/// The characters of a text.
pub fn characters(text: &str) -> (characters: Vec<char>)
    ensures
        characters@ == text@,
{
    let mut characters: Vec<char> = Vec::new();
    for character in iter: text.chars()
        invariant
            characters@ == iter.seq().take(iter.index()),
            iter.seq() == text@,
    {
        characters.push(character);
    }
    assert(text@.take(text@.len() as int) =~= text@);
    characters
}

/// The text that characters make up.
pub fn text_of(characters: &[char]) -> (text: String)
    ensures
        text@ == characters@,
{
    let mut text = String::new();
    let mut index: usize = 0;
    while index < characters.len()
        invariant
            index <= characters@.len(),
            text@ == characters@.take(index as int),
        decreases characters@.len() - index,
    {
        text.push(characters[index]);
        index += 1;
        assert(characters@.take(index as int) =~= characters@.take(index - 1).push(
            characters@[index - 1],
        ));
    }
    assert(characters@.take(index as int) =~= characters@);
    text
}

/// Whether two texts hold the same characters.
pub fn same_text(left: &str, right: &str) -> (same: bool)
    ensures
        same == (left@ == right@),
{
    let left_characters = characters(left);
    let right_characters = characters(right);
    same_characters(left_characters.as_slice(), right_characters.as_slice())
}

/// Whether two slices hold the same characters.
pub fn same_characters(left: &[char], right: &[char]) -> (same: bool)
    ensures
        same == (left@ == right@),
{
    if left.len() != right.len() {
        return false;
    }
    let mut index: usize = 0;
    while index < left.len()
        invariant
            left@.len() == right@.len(),
            index <= left@.len(),
            forall|k: int| 0 <= k < index ==> left@[k] == right@[k],
        decreases left@.len() - index,
    {
        if left[index] != right[index] {
            assert(left@[index as int] != right@[index as int]);
            return false;
        }
        index += 1;
    }
    assert(left@ =~= right@);
    true
}

/// How many characters stand before the first occurrence of `wanted`.
pub fn find(characters: &[char], wanted: char) -> (found: usize)
    ensures
        found == position(characters@, wanted),
        found <= characters@.len(),
{
    let mut index: usize = 0;
    while index < characters.len() && characters[index] != wanted
        invariant
            index <= characters@.len(),
            forall|k: int| 0 <= k < index ==> #[trigger] characters@[k] != wanted,
        decreases characters@.len() - index,
    {
        index += 1;
    }
    proof {
        lemma_position_is(characters@, wanted, index as int);
    }
    index
}

/// Whether a character is a control code.
pub fn control(character: char) -> (result: bool)
    ensures
        result == is_control(character),
{
    let code: u32 = character as u32;
    code <= 0x1f || (0x7f <= code && code <= 0x9f)
}

/// Whether a character is whitespace.
pub fn whitespace(character: char) -> (result: bool)
    ensures
        result == is_whitespace(character),
{
    let code: u32 = character as u32;
    (0x09 <= code && code <= 0x0d) || code == 0x20 || code == 0x85 || code == 0xa0 || code == 0x1680
        || (0x2000 <= code && code <= 0x200a) || code == 0x2028 || code == 0x2029 || code == 0x202f
        || code == 0x205f || code == 0x3000
}

/// Whether some character of the text is a control code.
pub fn contains_control(text: &str) -> (result: bool)
    ensures
        result == has_control(text@),
{
    let characters = characters(text);
    let mut index: usize = 0;
    while index < characters.len()
        invariant
            characters@ == text@,
            index <= characters@.len(),
            forall|k: int| 0 <= k < index ==> !is_control(#[trigger] text@[k]),
        decreases characters@.len() - index,
    {
        if control(characters[index]) {
            assert(is_control(text@[index as int]));
            return true;
        }
        index += 1;
    }
    false
}

/// The text without the whitespace around it.
pub fn trim(text: &str) -> (result: String)
    ensures
        result@ == trimmed(text@),
{
    let characters = characters(text);
    let mut start: usize = 0;
    assert(text@.skip(0) =~= text@);
    while start < characters.len() && whitespace(characters[start])
        invariant
            characters@ == text@,
            start <= characters@.len(),
            trim_start(text@) == trim_start(text@.skip(start as int)),
        decreases characters@.len() - start,
    {
        proof {
            assert(text@.skip(start as int).skip(1) =~= text@.skip(start + 1));
        }
        start += 1;
    }
    let mut end: usize = characters.len();
    assert(text@.subrange(start as int, end as int) =~= text@.skip(start as int));
    assert(trim_start(text@) == text@.skip(start as int));
    while start < end && whitespace(characters[end - 1])
        invariant
            characters@ == text@,
            start <= end <= characters@.len(),
            trimmed(text@) == trim_end(text@.subrange(start as int, end as int)),
        decreases end - start,
    {
        proof {
            assert(text@.subrange(start as int, end as int).drop_last() =~= text@.subrange(
                start as int,
                end - 1,
            ));
        }
        end -= 1;
    }
    text_of(&characters.as_slice()[start..end])
}

/// Appends the UTF-16 code units of a character.
fn push_utf16(units: &mut Vec<u16>, character: char)
    ensures
        final(units)@ == old(units)@ + utf16_of(character),
{
    let code: u32 = character as u32;
    if code < 0x1_0000 {
        units.push(code as u16);
    } else {
        units.push((0xd800 + (code - 0x1_0000) / 0x400) as u16);
        units.push((0xdc00 + (code - 0x1_0000) % 0x400) as u16);
    }
    assert(units@ =~= old(units)@ + utf16_of(character));
}

/// The UTF-16 code units of a text.
pub fn encode_utf16(text: &str) -> (units: Vec<u16>)
    ensures
        units@ == utf16(text@),
{
    let characters = characters(text);
    let mut units: Vec<u16> = Vec::new();
    let mut index: usize = 0;
    while index < characters.len()
        invariant
            characters@ == text@,
            index <= characters@.len(),
            units@ == utf16(text@.take(index as int)),
        decreases characters@.len() - index,
    {
        push_utf16(&mut units, characters[index]);
        index += 1;
        assert(text@.take(index as int).drop_last() =~= text@.take(index - 1));
    }
    assert(text@.take(index as int) =~= text@);
    units
}

/// The upper-case letter of an ASCII lower-case letter; every other character itself.
pub fn to_ascii_upper(character: char) -> (result: char)
    ensures
        result == ascii_upper(character),
{
    if 'a' <= character && character <= 'z' {
        (character as u8 - 32) as char
    } else {
        character
    }
}

/// The lower-case letter of an ASCII upper-case letter; every other character itself.
pub fn to_ascii_lower(character: char) -> (result: char)
    ensures
        result == ascii_lower(character),
{
    if 'A' <= character && character <= 'Z' {
        (character as u8 + 32) as char
    } else {
        character
    }
}

/// The text with every ASCII upper-case letter replaced by its lower-case letter.
pub fn to_ascii_lowercase(text: &str) -> (lower: String)
    ensures
        lower@ == ascii_lowercase(text@),
{
    let characters = characters(text);
    let mut lower = String::new();
    let mut index: usize = 0;
    assert(lower@ =~= ascii_lowercase(text@.take(0)));
    while index < characters.len()
        invariant
            index <= characters@.len(),
            characters@ == text@,
            lower@ == ascii_lowercase(text@.take(index as int)),
        decreases characters@.len() - index,
    {
        lower.push(to_ascii_lower(characters[index]));
        index += 1;
        assert(lower@ =~= ascii_lowercase(text@.take(index as int)));
    }
    assert(text@.take(index as int) =~= text@);
    lower
}

/// Appends a number in decimal digits.
pub fn push_decimal(text: &mut String, value: u64)
    ensures
        final(text)@ == old(text)@ + decimal(value as nat),
    decreases value,
{
    if value >= 10 {
        push_decimal(text, value / 10);
    }
    text.push((48 + (value % 10) as u8) as char);
    assert(text@ =~= old(text)@ + decimal(value as nat));
}

/// Appends a text.
pub fn push_text(text: &mut String, more: &str)
    ensures
        final(text)@ == old(text)@ + more@,
{
    text.append(more);
}

/// The hexadecimal digit of a number below sixteen.
pub fn to_hex_digit(value: u8, upper: bool) -> (digit: char)
    requires
        value < 16,
    ensures
        digit == hex_digit(value as nat, upper),
{
    if value < 10 {
        (48 + value) as char
    } else if upper {
        (55 + value) as char
    } else {
        (87 + value) as char
    }
}

/// The value of a hexadecimal digit of either case.
pub fn from_hex_digit(character: char) -> (value: Option<u8>)
    ensures
        match value {
            Some(value) => value < 16 && hex_value(character) == Some(value as nat),
            None => hex_value(character) is None,
        },
{
    if '0' <= character && character <= '9' {
        Some(character as u8 - 48)
    } else if 'a' <= character && character <= 'f' {
        Some(character as u8 - 87)
    } else if 'A' <= character && character <= 'F' {
        Some(character as u8 - 55)
    } else {
        None
    }
}

/// Appends the hexadecimal digits of a byte sequence.
pub fn push_hex(text: &mut String, bytes: &[u8], upper: bool)
    ensures
        final(text)@ == old(text)@ + hex_text(bytes@, upper),
{
    let mut index: usize = 0;
    assert(text@ =~= old(text)@ + hex_text(bytes@.take(0), upper));
    while index < bytes.len()
        invariant
            index <= bytes@.len(),
            text@ == old(text)@ + hex_text(bytes@.take(index as int), upper),
        decreases bytes@.len() - index,
    {
        let byte: u8 = bytes[index];
        text.push(to_hex_digit(byte / 16, upper));
        text.push(to_hex_digit(byte % 16, upper));
        index += 1;
        proof {
            assert(bytes@.take(index as int).drop_last() =~= bytes@.take(index - 1));
            assert(text@ =~= old(text)@ + hex_text(bytes@.take(index as int), upper));
        }
    }
    assert(bytes@.take(index as int) =~= bytes@);
}

/// A text with a backslash before every quote and every backslash.
pub open spec fn escaped(text: Seq<char>) -> Seq<char>
    decreases text.len(),
{
    if text.len() == 0 {
        Seq::empty()
    } else if text.last() == '"' || text.last() == '\\' {
        escaped(text.drop_last()).push('\\').push(text.last())
    } else {
        escaped(text.drop_last()).push(text.last())
    }
}

/// Appends a text with a backslash before every quote and every backslash.
pub fn push_escaped(text: &mut String, more: &str)
    ensures
        final(text)@ == old(text)@ + escaped(more@),
{
    let added = characters(more);
    let mut index: usize = 0;
    assert(text@ =~= old(text)@ + escaped(more@.take(0)));
    while index < added.len()
        invariant
            index <= added@.len(),
            added@ == more@,
            text@ == old(text)@ + escaped(more@.take(index as int)),
        decreases added@.len() - index,
    {
        let character: char = added[index];
        if character == '"' || character == '\\' {
            text.push('\\');
        }
        text.push(character);
        index += 1;
        proof {
            assert(more@.take(index as int).drop_last() =~= more@.take(index - 1));
            assert(text@ =~= old(text)@ + escaped(more@.take(index as int)));
        }
    }
    assert(more@.take(index as int) =~= more@);
}

/// The number of UTF-8 bytes of a character.
pub open spec fn utf8_width(character: char) -> nat {
    let code = character as u32;
    if code < 0x80 {
        1
    } else if code < 0x800 {
        2
    } else if code < 0x1_0000 {
        3
    } else {
        4
    }
}

/// The number of UTF-8 bytes of a character.
pub fn width(character: char) -> (bytes: usize)
    ensures
        bytes == utf8_width(character),
{
    let code: u32 = character as u32;
    if code < 0x80 {
        1
    } else if code < 0x800 {
        2
    } else if code < 0x1_0000 {
        3
    } else {
        4
    }
}

/// The UTF-8 bytes of a text that is one character longer.
pub proof fn lemma_utf8_push(text: Seq<char>, character: char)
    ensures
        encode_utf8(text.push(character)) == encode_utf8(text) + encode_utf8(seq![character]),
        encode_utf8(seq![character]).len() == utf8_width(character),
    decreases text.len(),
{
    let one = seq![character];
    assert(one.drop_first() =~= Seq::<char>::empty());
    reveal_with_fuel(encode_utf8, 2);
    assert(encode_utf8(one) =~= encode_scalar(character as u32));
    if text.len() == 0 {
        assert(text.push(character) =~= one);
        assert(encode_utf8(text) + encode_utf8(one) =~= encode_utf8(one));
    } else {
        lemma_utf8_push(text.drop_first(), character);
        assert(text.push(character).drop_first() =~= text.drop_first().push(character));
        assert(encode_utf8(text.push(character)) =~= encode_utf8(text) + encode_utf8(one));
    }
}

/// The number of a character.
pub fn code_point(character: char) -> (code: u32)
    ensures
        code == character as int,
{
    character as u32
}

/// Whether one text comes before another, character by character.
pub open spec fn text_before(left: Seq<char>, right: Seq<char>) -> bool
    decreases left.len(),
{
    if right.len() == 0 {
        false
    } else if left.len() == 0 {
        true
    } else if left[0] != right[0] {
        (left[0] as int) < (right[0] as int)
    } else {
        text_before(left.skip(1), right.skip(1))
    }
}

/// Whether one text comes before another, character by character.
pub fn comes_before(left: &[char], right: &[char]) -> (before: bool)
    ensures
        before == text_before(left@, right@),
{
    let mut index: usize = 0;
    assert(left@.skip(0) =~= left@);
    assert(right@.skip(0) =~= right@);
    while index < left.len() && index < right.len()
        invariant
            index <= left@.len(),
            index <= right@.len(),
            text_before(left@, right@) == text_before(
                left@.skip(index as int),
                right@.skip(index as int),
            ),
        decreases left@.len() - index,
    {
        if left[index] != right[index] {
            return code_point(left[index]) < code_point(right[index]);
        }
        proof {
            assert(left@.skip(index as int).skip(1) =~= left@.skip(index + 1));
            assert(right@.skip(index as int).skip(1) =~= right@.skip(index + 1));
        }
        index += 1;
    }
    index < right.len()
}

/// The number that decimal digits spell.
pub open spec fn spelled(digits: Seq<char>) -> int
    decreases digits.len(),
{
    if digits.len() == 0 {
        0
    } else {
        10 * spelled(digits.drop_last()) + (digits.last() as int - '0' as int)
    }
}

/// A number in decimal digits spells that number, with nothing but digits and no zero before it.
pub proof fn lemma_decimal_spells(value: nat)
    ensures
        spelled(decimal(value)) == value,
        decimal(value).len() > 0,
        forall|k: int| 0 <= k < decimal(value).len() ==> '0' <= #[trigger] decimal(value)[k] <= '9',
        value > 0 ==> decimal(value)[0] != '0',
        value == 0 ==> decimal(value) == seq!['0'],
    decreases value,
{
    reveal_with_fuel(spelled, 2);
    if value < 10 {
        assert(decimal(value).drop_last() =~= Seq::empty());
        assert(value == 0 ==> decimal(value) =~= seq!['0']);
    } else {
        lemma_decimal_spells(value / 10);
        assert(decimal(value).drop_last() =~= decimal(value / 10));
        assert(decimal(value).last() as int == 48 + value % 10);
    }
}

/// Different numbers have different digits.
pub proof fn lemma_decimal_is_injective(left: nat, right: nat)
    requires
        decimal(left) == decimal(right),
    ensures
        left == right,
{
    lemma_decimal_spells(left);
    lemma_decimal_spells(right);
}

/// A trimmed text is what stands between the whitespace at both ends of a text, and all of it.
pub proof fn lemma_trimmed_is_inside(text: Seq<char>) -> (bounds: (int, int))
    ensures
        0 <= bounds.0 <= bounds.1 <= text.len(),
        trimmed(text) == text.subrange(bounds.0, bounds.1),
        forall|k: int| 0 <= k < bounds.0 ==> is_whitespace(#[trigger] text[k]),
        forall|k: int| bounds.1 <= k < text.len() ==> is_whitespace(#[trigger] text[k]),
        bounds.0 < bounds.1 ==> !is_whitespace(text[bounds.0]) && !is_whitespace(text[bounds.1 - 1]),
{
    let first = lemma_trim_start_skips(text);
    let rest = text.skip(first);
    let kept = lemma_trim_end_takes(rest);
    assert(text.skip(first).take(kept) =~= text.subrange(first, first + kept));
    assert forall|k: int| first + kept <= k < text.len() implies is_whitespace(
        #[trigger] text[k],
    ) by {
        assert(rest[k - first] == text[k]);
    }
    if kept > 0 {
        assert(rest[0] == text[first]);
        assert(rest[kept - 1] == text[first + kept - 1]);
    }
    (first, first + kept)
}

proof fn lemma_trim_start_skips(text: Seq<char>) -> (first: int)
    ensures
        0 <= first <= text.len(),
        trim_start(text) == text.skip(first),
        forall|k: int| 0 <= k < first ==> is_whitespace(#[trigger] text[k]),
        first < text.len() ==> !is_whitespace(text[first]),
    decreases text.len(),
{
    if text.len() > 0 && is_whitespace(text[0]) {
        let rest = text.skip(1);
        let first = lemma_trim_start_skips(rest);
        assert(rest.skip(first) =~= text.skip(first + 1));
        assert forall|k: int| 0 <= k < first + 1 implies is_whitespace(#[trigger] text[k]) by {
            if k > 0 {
                assert(rest[k - 1] == text[k]);
            }
        }
        if first < rest.len() {
            assert(rest[first] == text[first + 1]);
        }
        first + 1
    } else {
        assert(text.skip(0) =~= text);
        0
    }
}

proof fn lemma_trim_end_takes(text: Seq<char>) -> (kept: int)
    ensures
        0 <= kept <= text.len(),
        trim_end(text) == text.take(kept),
        forall|k: int| kept <= k < text.len() ==> is_whitespace(#[trigger] text[k]),
        kept > 0 ==> !is_whitespace(text[kept - 1]),
    decreases text.len(),
{
    if text.len() > 0 && is_whitespace(text.last()) {
        let rest = text.drop_last();
        let kept = lemma_trim_end_takes(rest);
        assert(rest.take(kept) =~= text.take(kept));
        assert forall|k: int| kept <= k < text.len() implies is_whitespace(#[trigger] text[k]) by {
            if k < rest.len() {
                assert(rest[k] == text[k]);
            }
        }
        if kept > 0 {
            assert(rest[kept - 1] == text[kept - 1]);
        }
        kept
    } else {
        assert(text.take(text.len() as int) =~= text);
        text.len() as int
    }
}

/// Whitespace is a space, a tab, the ends of lines and pages, and the spaces of other scripts;
/// letters, digits and signs of ASCII are none. Control codes are all of the first 32 characters,
/// delete, and the 32 characters behind it.
pub proof fn lemma_character_classes(character: char)
    ensures
        is_whitespace(' ') && is_whitespace('\t') && is_whitespace('\n') && is_whitespace('\r'),
        ' ' < character < '\u{7f}' ==> !is_whitespace(character) && !is_control(character),
        is_whitespace(character) && character as u32 > 0xff ==> [
            0x1680u32, 0x2000u32, 0x2001u32, 0x2002u32, 0x2003u32, 0x2004u32, 0x2005u32, 0x2006u32,
            0x2007u32, 0x2008u32, 0x2009u32, 0x200au32, 0x2028u32, 0x2029u32, 0x202fu32, 0x205fu32,
            0x3000u32,
        ]@.contains(character as u32),
        (character as u32) < 32 || character as u32 == 127 ==> is_control(character),
        character as u32 > 127 ==> is_control(character) == ((character as u32) < 160),
{
    if is_whitespace(character) && character as u32 > 0xff {
        let wide = [
            0x1680u32, 0x2000u32, 0x2001u32, 0x2002u32, 0x2003u32, 0x2004u32, 0x2005u32, 0x2006u32,
            0x2007u32, 0x2008u32, 0x2009u32, 0x200au32, 0x2028u32, 0x2029u32, 0x202fu32, 0x205fu32,
            0x3000u32,
        ]@;
        let code = character as u32;
        let at = if code == 0x1680 {
            0int
        } else if code <= 0x200a {
            code - 0x2000 + 1
        } else if code == 0x2028 {
            12int
        } else if code == 0x2029 {
            13int
        } else if code == 0x202f {
            14int
        } else if code == 0x205f {
            15int
        } else {
            16int
        };
        assert(wide[at] == code);
    }
}

/// The code units of a character are the character itself, or a high and a low surrogate that make
/// it up.
pub proof fn lemma_units_make_up_a_character(character: char)
    ensures
        ({
            let units = utf16_of(character);
            let code = character as int;
            &&& code < 0x1_0000 ==> units.len() == 1 && units[0] == code
            &&& code >= 0x1_0000 ==> {
                &&& units.len() == 2
                &&& 0xd800 <= units[0] < 0xdc00
                &&& 0xdc00 <= units[1] < 0xe000
                &&& 0x1_0000 + (units[0] - 0xd800) * 0x400 + (units[1] - 0xdc00) == code
            }
        }),
{
}

/// The code units of a text are those of its parts, one after the other.
pub proof fn lemma_units_join(left: Seq<char>, right: Seq<char>)
    ensures
        utf16(left + right) == utf16(left) + utf16(right),
        left.len() <= utf16(left).len() <= 2 * left.len(),
    decreases right.len(), left.len(),
{
    if left.len() > 0 {
        lemma_units_join(left.drop_last(), Seq::empty());
    }
    if right.len() == 0 {
        assert(left + right =~= left);
        assert(utf16(left) + utf16(right) =~= utf16(left));
    } else {
        let rest = right.drop_last();
        lemma_units_join(left, rest);
        assert((left + right).drop_last() =~= left + rest);
        assert(utf16(left) + utf16(rest) + utf16_of(right.last()) =~= utf16(left) + (utf16(rest)
            + utf16_of(right.last())));
    }
}

/// Hexadecimal digits are `0` to `9` and six letters from `a` or `A` on, in the order of their
/// values.
pub proof fn lemma_hex_digits_spell(byte: u8, upper: bool)
    ensures
        ({
            let pair = hex_pair(byte, upper);
            let first = if upper {
                'A'
            } else {
                'a'
            };
            let worth = |digit: char|
                if '0' <= digit <= '9' {
                    digit as int - '0' as int
                } else {
                    digit as int - first as int + 10
                };
            &&& pair.len() == 2
            &&& forall|k: int|
                0 <= k < 2 ==> '0' <= #[trigger] pair[k] <= '9' || first as int <= pair[k] as int
                    <= first as int + 5
            &&& 16 * worth(pair[0]) + worth(pair[1]) == byte
        }),
{
}

/// One text comes before another where the first character in which they differ has the smaller
/// number, or where it is the start of the other.
pub proof fn lemma_order_of_texts(left: Seq<char>, right: Seq<char>, same: int)
    requires
        0 <= same <= left.len(),
        same <= right.len(),
        left.take(same) == right.take(same),
        same < left.len() && same < right.len() ==> left[same] != right[same],
    ensures
        text_before(left, right) == if same < left.len() && same < right.len() {
            left[same] < right[same]
        } else {
            left.len() < right.len()
        },
    decreases same,
{
    if same > 0 {
        assert(left[0] == left.take(same)[0]);
        assert(right[0] == right.take(same)[0]);
        assert(left.skip(1).take(same - 1) =~= left.take(same).skip(1));
        assert(right.skip(1).take(same - 1) =~= right.take(same).skip(1));
        lemma_order_of_texts(left.skip(1), right.skip(1), same - 1);
    }
}

/// Hexadecimal digits are read in either case, and nothing else is.
pub proof fn lemma_hex_values(character: char)
    ensures
        hex_value(character) is Some <==> '0' <= character <= '9' || 'a' <= character <= 'f' || 'A'
            <= character <= 'F',
        '0' <= character <= '9' ==> hex_value(character) == Some((character as int - '0' as int) as nat),
        'a' <= character <= 'f' ==> hex_value(character) == Some((character as int - 'a' as int + 10) as nat),
        'A' <= character <= 'F' ==> hex_value(character) == Some((character as int - 'A' as int + 10) as nat),
{
}

/// Whether a text starts with another.
pub open spec fn starts(text: Seq<char>, part: Seq<char>) -> bool {
    part.len() <= text.len() && text.take(part.len() as int) == part
}

/// Whether a text ends with another.
pub open spec fn ends(text: Seq<char>, part: Seq<char>) -> bool {
    part.len() <= text.len() && text.skip(text.len() - part.len()) == part
}

/// Whether a text holds another.
pub open spec fn holds(text: Seq<char>, part: Seq<char>) -> bool {
    exists|at: int|
        0 <= at && at + part.len() <= text.len() && #[trigger] text.subrange(at, at + part.len()) == part
}

/// A text holds each of the parts that it is made of, starts with the first and ends with the last.
pub proof fn lemma_holds(before: Seq<char>, part: Seq<char>, after: Seq<char>)
    ensures
        holds(before + part + after, part),
        starts(part + after, part),
        ends(before + part, part),
{
    let whole = before + part + after;
    let at = before.len() as int;
    assert(whole.subrange(at, at + part.len()) =~= part);
    assert((part + after).take(part.len() as int) =~= part);
    assert((before + part).skip((before + part).len() - part.len()) =~= part);
}

/// A text that goes on holds what it held, and what it goes on with.
pub proof fn lemma_goes_on(text: Seq<char>, part: Seq<char>, more: Seq<char>)
    ensures
        holds(text, part) ==> holds(text + more, part),
        holds(text + more, more),
{
    if holds(text, part) {
        let at = choose|at: int|
            0 <= at && at + part.len() <= text.len() && #[trigger] text.subrange(at, at + part.len())
                == part;
        assert((text + more).subrange(at, at + part.len()) =~= part);
    }
    lemma_holds(text, more, Seq::empty());
    assert(text + more + Seq::<char>::empty() =~= text + more);
}

/// A letter of ASCII has its other case 32 further on, and nothing else has another case.
pub proof fn lemma_cases(character: char)
    ensures
        97 <= character as u32 <= 122 ==> ascii_upper(character) as u32 == character as u32 - 32,
        65 <= character as u32 <= 90 ==> ascii_lower(character) as u32 == character as u32 + 32,
        !(97 <= character as u32 <= 122) ==> ascii_upper(character) == character,
        !(65 <= character as u32 <= 90) ==> ascii_lower(character) == character,
{
}

/// Quotes and backslashes are told with a backslash before them, and everything else as it is.
pub proof fn lemma_quotes_are_escaped(before: Seq<char>, next: char)
    ensures
        escaped(Seq::empty()).len() == 0,
        next as u32 == 34 || next as u32 == 92 ==> escaped(before.push(next)) == escaped(before) + seq![
            '\\',
            next,
        ],
        next as u32 != 34 && next as u32 != 92 ==> escaped(before.push(next)) == escaped(before).push(next),
{
    assert(before.push(next).drop_last() =~= before);
    assert(before.push(next).last() == next);
    assert(escaped(before).push('\\').push(next) =~= escaped(before) + seq!['\\', next]);
}

} // verus!
