//! Text as HTTP carries it: ASCII bytes, compared, split and trimmed byte by byte.

use vstd::prelude::*;
use vstd::string::StringExecFns;

verus! {

/// The bytes of a text of ASCII characters.
pub open spec fn ascii(text: Seq<char>) -> Seq<u8> {
    text.map_values(|c: char| c as u8)
}

/// The text holds no upper-case ASCII letter.
pub open spec fn is_lowercase(text: Seq<char>) -> bool {
    forall|i: int| 0 <= i < text.len() ==> !('A' <= #[trigger] text[i] <= 'Z')
}

/// The byte with an upper-case ASCII letter made lower-case.
pub open spec fn lower(byte: u8) -> u8 {
    if 0x41 <= byte <= 0x5a {
        (byte + 0x20) as u8
    } else {
        byte
    }
}

/// The two texts are equal up to the case of ASCII letters.
pub open spec fn same_ignoring_case(left: Seq<u8>, right: Seq<u8>) -> bool {
    &&& left.len() == right.len()
    &&& forall|i: int|
        0 <= i < left.len() ==> lower(#[trigger] left[i]) == lower(#[trigger] right[i])
}

/// Where `byte` first occurs in `text`, or the length of `text` where it does not.
pub open spec fn position(text: Seq<u8>, byte: u8) -> int
    decreases text.len(),
{
    if text.len() == 0 || text[0] == byte {
        0
    } else {
        1 + position(text.drop_first(), byte)
    }
}

/// What stands before the first `byte`: all of `text` where there is none.
pub open spec fn before(text: Seq<u8>, byte: u8) -> Seq<u8> {
    text.take(position(text, byte))
}

/// What stands after the first `byte`.
pub open spec fn after(text: Seq<u8>, byte: u8) -> Seq<u8>
    recommends
        position(text, byte) < text.len(),
{
    text.skip(position(text, byte) + 1)
}

/// The parts of `text` between the occurrences of `byte`; always at least one part.
pub open spec fn split(text: Seq<u8>, byte: u8) -> Seq<Seq<u8>>
    decreases text.len(),
{
    if position(text, byte) >= text.len() {
        seq![text]
    } else {
        proof {
            lemma_position(text, byte);
        }
        seq![before(text, byte)] + split(after(text, byte), byte)
    }
}

/// A space or a tab: the white space that a header text can hold.
pub open spec fn is_blank(byte: u8) -> bool {
    byte == 0x20 || byte == 0x09
}

pub open spec fn trim_start(text: Seq<u8>) -> Seq<u8>
    decreases text.len(),
{
    if text.len() > 0 && is_blank(text[0]) {
        trim_start(text.drop_first())
    } else {
        text
    }
}

pub open spec fn trim_end(text: Seq<u8>) -> Seq<u8>
    decreases text.len(),
{
    if text.len() > 0 && is_blank(text.last()) {
        trim_end(text.drop_last())
    } else {
        text
    }
}

/// `text` without the blanks at both ends.
pub open spec fn trimmed(text: Seq<u8>) -> Seq<u8> {
    trim_end(trim_start(text))
}

/// The decimal digit of a number below ten.
pub open spec fn digit(n: nat) -> char {
    if n == 0 { '0' } else if n == 1 { '1' } else if n == 2 { '2' } else if n == 3 { '3' }
    else if n == 4 { '4' } else if n == 5 { '5' } else if n == 6 { '6' } else if n == 7 { '7' }
    else if n == 8 { '8' } else { '9' }
}

/// A number in decimal, without leading zeros.
pub open spec fn decimal(n: nat) -> Seq<char>
    decreases n,
{
    if n < 10 {
        seq![digit(n)]
    } else {
        decimal(n / 10).push(digit(n % 10))
    }
}

/// The first occurrence is the one position that holds `byte` with none before it.
pub proof fn lemma_position(text: Seq<u8>, byte: u8)
    ensures
        0 <= position(text, byte) <= text.len(),
        position(text, byte) < text.len() ==> text[position(text, byte)] == byte,
        forall|i: int| 0 <= i < position(text, byte) ==> text[i] != byte,
    decreases text.len(),
{
    if text.len() > 0 && text[0] != byte {
        let rest = text.drop_first();
        lemma_position(rest, byte);
        assert forall|i: int| 0 <= i < position(text, byte) implies text[i] != byte by {
            if i > 0 {
                assert(text[i] == rest[i - 1]);
            }
        }
    }
}

/// The texts of a decimal number are ASCII digits.
pub proof fn lemma_decimal_is_ascii(n: nat)
    ensures
        vstd::utf8::is_ascii_chars(decimal(n)),
    decreases n,
{
    if n >= 10 {
        lemma_decimal_is_ascii(n / 10);
    }
}

/// A number can be read back from its decimal text: no two numbers share one.
pub proof fn lemma_decimal_is_injective(m: nat, n: nat)
    requires
        decimal(m) == decimal(n),
    ensures
        m == n,
    decreases m,
{
    lemma_decimal_is_not_empty(m / 10);
    lemma_decimal_is_not_empty(n / 10);
    if m >= 10 && n >= 10 {
        assert(decimal(m).drop_last() =~= decimal(m / 10));
        assert(decimal(n).drop_last() =~= decimal(n / 10));
        lemma_decimal_is_injective(m / 10, n / 10);
    }
    assert(decimal(m).last() == digit(m % 10));
    assert(decimal(n).last() == digit(n % 10));
}

proof fn lemma_decimal_is_not_empty(n: nat)
    ensures
        decimal(n).len() > 0,
{
}

/// The bytes of a text of ASCII characters.
pub fn ascii_bytes(text: &str) -> (bytes: &[u8])
    requires
        text.is_ascii(),
    ensures
        bytes@ == ascii(text@),
{
    broadcast use vstd::string::group_string_axioms;

    let bytes = text.as_bytes();
    assert(bytes@ =~= ascii(text@));
    bytes
}

/// Whether two byte texts are equal.
pub fn equal(left: &[u8], right: &[u8]) -> (same: bool)
    ensures
        same == (left@ == right@),
{
    if left.len() != right.len() {
        return false;
    }
    for i in 0..left.len()
        invariant
            left@.len() == right@.len(),
            forall|j: int| 0 <= j < i ==> left@[j] == right@[j],
    {
        if left[i] != right[i] {
            return false;
        }
    }
    assert(left@ =~= right@);
    true
}

fn to_lower(byte: u8) -> (result: u8)
    ensures
        result == lower(byte),
{
    if 0x41 <= byte && byte <= 0x5a {
        byte + 0x20
    } else {
        byte
    }
}

/// Whether two byte texts are equal up to the case of ASCII letters.
pub fn equal_ignoring_case(left: &[u8], right: &[u8]) -> (same: bool)
    ensures
        same == same_ignoring_case(left@, right@),
{
    if left.len() != right.len() {
        return false;
    }
    for i in 0..left.len()
        invariant
            left@.len() == right@.len(),
            forall|j: int|
                0 <= j < i ==> lower(#[trigger] left@[j]) == lower(#[trigger] right@[j]),
    {
        if to_lower(left[i]) != to_lower(right[i]) {
            return false;
        }
    }
    true
}

/// Where `byte` first occurs in `text`, or the length of `text`.
pub fn find(text: &[u8], byte: u8) -> (index: usize)
    ensures
        index == position(text@, byte),
        index <= text@.len(),
        index < text@.len() ==> text@[index as int] == byte,
{
    let mut index: usize = 0;
    assert(text@.skip(0) =~= text@);
    while index < text.len()
        invariant_except_break
            index <= text@.len(),
            position(text@, byte) == index + position(text@.skip(index as int), byte),
        ensures
            index == position(text@, byte),
            index <= text@.len(),
            index < text@.len() ==> text@[index as int] == byte,
        decreases text@.len() - index,
    {
        let ghost rest = text@.skip(index as int);
        assert(rest[0] == text@[index as int]);
        if text[index] == byte {
            break;
        }
        assert(rest.drop_first() =~= text@.skip(index + 1));
        index = index + 1;
    }
    index
}

/// What stands before the first `byte` of `text`.
pub fn take_before(text: &[u8], byte: u8) -> (part: &[u8])
    ensures
        part@ == before(text@, byte),
{
    let index: usize = find(text, byte);
    let part = &text[0..index];
    assert(part@ =~= before(text@, byte));
    part
}

/// `text` without the blanks at both ends.
pub fn trim(text: &[u8]) -> (part: &[u8])
    ensures
        part@ == trimmed(text@),
{
    let mut start: usize = 0;
    let mut end: usize = text.len();
    assert(text@.skip(0) =~= text@);
    while start < end && (text[start] == 0x20 || text[start] == 0x09)
        invariant
            start <= end == text@.len(),
            trim_start(text@) == trim_start(text@.skip(start as int)),
        decreases end - start,
    {
        assert(text@.skip(start as int)[0] == text@[start as int]);
        assert(text@.skip(start as int).drop_first() =~= text@.skip(start + 1));
        start = start + 1;
    }
    let ghost rest = text@.skip(start as int);
    assert(start < end ==> rest[0] == text@[start as int]);
    assert(trim_start(text@) == rest);
    assert(text@.subrange(start as int, end as int) =~= rest);
    while start < end && (text[end - 1] == 0x20 || text[end - 1] == 0x09)
        invariant
            start <= end <= text@.len(),
            trim_end(trim_start(text@)) == trim_end(text@.subrange(start as int, end as int)),
        decreases end - start,
    {
        let ghost part = text@.subrange(start as int, end as int);
        assert(part.last() == text@[end - 1]);
        assert(part.drop_last() =~= text@.subrange(start as int, end - 1));
        end = end - 1;
    }
    let ghost part = text@.subrange(start as int, end as int);
    assert(start < end ==> part.last() == text@[end - 1]);
    &text[start..end]
}

/// The views of a list of byte texts.
pub open spec fn parts_of(parts: Seq<&[u8]>) -> Seq<Seq<u8>> {
    parts.map_values(|part: &[u8]| part@)
}

/// The parts of `text` between the occurrences of `byte`.
pub fn split_at_each(text: &[u8], byte: u8) -> (parts: Vec<&[u8]>)
    ensures
        parts_of(parts@) == split(text@, byte),
{
    let mut parts: Vec<&[u8]> = Vec::new();
    let mut rest: &[u8] = text;
    assert(parts_of(parts@) + split(rest@, byte) =~= split(text@, byte));
    loop
        invariant_except_break
            parts_of(parts@) + split(rest@, byte) == split(text@, byte),
        ensures
            parts_of(parts@) == split(text@, byte),
        decreases rest@.len(),
    {
        proof {
            lemma_position(rest@, byte);
        }
        let index: usize = find(rest, byte);
        let ghost earlier = parts@;
        if index >= rest.len() {
            parts.push(rest);
            assert(parts_of(parts@) =~= parts_of(earlier) + seq![rest@]);
            break;
        }
        let part = &rest[0..index];
        let next = &rest[index + 1..rest.len()];
        assert(part@ =~= before(rest@, byte));
        assert(next@ =~= after(rest@, byte));
        parts.push(part);
        assert(parts_of(parts@) + split(next@, byte) =~= parts_of(earlier) + (seq![part@] + split(
            next@,
            byte,
        )));
        rest = next;
    }
    parts
}

fn digit_text(n: u16) -> (text: &'static str)
    requires
        n < 10,
    ensures
        text@ == seq![digit(n as nat)],
{
    proof {
        reveal_strlit("0");
        reveal_strlit("1");
        reveal_strlit("2");
        reveal_strlit("3");
        reveal_strlit("4");
        reveal_strlit("5");
        reveal_strlit("6");
        reveal_strlit("7");
        reveal_strlit("8");
        reveal_strlit("9");
    }
    let text = match n {
        0 => "0",
        1 => "1",
        2 => "2",
        3 => "3",
        4 => "4",
        5 => "5",
        6 => "6",
        7 => "7",
        8 => "8",
        _ => "9",
    };
    assert(text@ =~= seq![digit(n as nat)]);
    text
}

/// A number in decimal, without leading zeros.
pub fn decimal_text(n: u16) -> (text: String)
    ensures
        text@ == decimal(n as nat),
    decreases n,
{
    if n < 10 {
        String::from_str(digit_text(n))
    } else {
        let mut text = decimal_text(n / 10);
        text.append(digit_text(n % 10));
        assert(text@ =~= decimal(n as nat));
        text
    }
}

/// The bytes of an ASCII text are its characters, one for one.
pub proof fn law_ascii_keeps_characters(text: Seq<char>)
    ensures
        ascii(text).len() == text.len(),
        forall|i: int| 0 <= i < text.len() ==> #[trigger] ascii(text)[i] == text[i] as u8,
{
}

/// Two texts are taken for equal exactly where each byte is the same, or the same letter in the
/// other case.
pub proof fn law_case_is_all_that_is_ignored(left: Seq<u8>, right: Seq<u8>)
    ensures
        same_ignoring_case(left, right) <==> left.len() == right.len() && forall|i: int|
            0 <= i < left.len() ==> {
                ||| #[trigger] left[i] == right[i]
                ||| 0x41 <= left[i] <= 0x5a && right[i] == left[i] + 0x20
                ||| 0x61 <= left[i] <= 0x7a && left[i] == right[i] + 0x20
            },
{
    if same_ignoring_case(left, right) {
        assert forall|i: int| 0 <= i < left.len() implies {
            ||| #[trigger] left[i] == right[i]
            ||| 0x41 <= left[i] <= 0x5a && right[i] == left[i] + 0x20
            ||| 0x61 <= left[i] <= 0x7a && left[i] == right[i] + 0x20
        } by {
            assert(lower(left[i]) == lower(right[i]));
        }
    }
}

/// What stands before the first `byte` and what stands after it, and the byte between them, make up
/// the text; a text without the byte stands all before it.
pub proof fn law_cut_at_the_first_occurrence(first: Seq<u8>, rest: Seq<u8>, byte: u8)
    requires
        forall|i: int| 0 <= i < first.len() ==> first[i] != byte,
    ensures
        position(first, byte) == first.len(),
        before(first, byte) == first,
        position(first + seq![byte] + rest, byte) == first.len(),
        before(first + seq![byte] + rest, byte) == first,
        after(first + seq![byte] + rest, byte) == rest,
{
    let whole = first + seq![byte] + rest;
    lemma_position(first, byte);
    lemma_position(whole, byte);
    assert(whole[first.len() as int] == byte);
    if position(whole, byte) < first.len() {
        assert(whole[position(whole, byte)] == first[position(whole, byte)]);
    }
    assert(before(first, byte) =~= first);
    assert(before(whole, byte) =~= first);
    assert(after(whole, byte) =~= rest);
}

/// A text is split at every occurrence of the byte: a part without the byte stands first, and what
/// follows the byte is split in turn.
pub proof fn law_split_at_every_occurrence(first: Seq<u8>, rest: Seq<u8>, byte: u8)
    requires
        forall|i: int| 0 <= i < first.len() ==> first[i] != byte,
    ensures
        split(first, byte) == seq![first],
        split(first + seq![byte] + rest, byte) == seq![first] + split(rest, byte),
{
    law_cut_at_the_first_occurrence(first, rest, byte);
}

proof fn lemma_trim_start(blanks: Seq<u8>, rest: Seq<u8>)
    requires
        forall|i: int| 0 <= i < blanks.len() ==> blanks[i] == 0x20 || blanks[i] == 0x09,
        rest.len() > 0 ==> rest[0] != 0x20 && rest[0] != 0x09,
    ensures
        trim_start(blanks + rest) == rest,
    decreases blanks.len(),
{
    if blanks.len() == 0 {
        assert(blanks + rest =~= rest);
    } else {
        assert((blanks + rest)[0] == blanks[0]);
        assert((blanks + rest).drop_first() =~= blanks.drop_first() + rest);
        lemma_trim_start(blanks.drop_first(), rest);
    }
}

proof fn lemma_trim_end(rest: Seq<u8>, blanks: Seq<u8>)
    requires
        forall|i: int| 0 <= i < blanks.len() ==> blanks[i] == 0x20 || blanks[i] == 0x09,
        rest.len() > 0 ==> rest.last() != 0x20 && rest.last() != 0x09,
    ensures
        trim_end(rest + blanks) == rest,
    decreases blanks.len(),
{
    if blanks.len() == 0 {
        assert(rest + blanks =~= rest);
    } else {
        assert((rest + blanks).last() == blanks.last());
        assert((rest + blanks).drop_last() =~= rest + blanks.drop_last());
        lemma_trim_end(rest, blanks.drop_last());
    }
}

/// Spaces and tabs at both ends are trimmed, all of them, and nothing else is.
pub proof fn law_blanks_at_the_ends_are_trimmed(left: Seq<u8>, core: Seq<u8>, right: Seq<u8>)
    requires
        forall|i: int| 0 <= i < left.len() ==> left[i] == 0x20 || left[i] == 0x09,
        forall|i: int| 0 <= i < right.len() ==> right[i] == 0x20 || right[i] == 0x09,
        core.len() > 0 ==> core[0] != 0x20 && core[0] != 0x09,
        core.len() > 0 ==> core.last() != 0x20 && core.last() != 0x09,
    ensures
        trimmed(left + core + right) == core,
{
    if core.len() == 0 {
        let blanks = left + right;
        assert(left + core + right =~= blanks + core);
        lemma_trim_start(blanks, core);
        lemma_trim_end(core, Seq::empty());
        assert(core + Seq::<u8>::empty() =~= core);
    } else {
        assert(left + core + right =~= left + (core + right));
        assert((core + right)[0] == core[0]);
        lemma_trim_start(left, core + right);
        lemma_trim_end(core, right);
    }
}

/// A number below ten is one digit, and every other number is the number of its tens, followed by
/// the digit of its ones.
pub proof fn law_decimal_is_positional(tens: nat, ones: nat)
    requires
        ones < 10,
    ensures
        decimal(ones).len() == 1,
        decimal(ones)[0] as int == '0' as int + ones,
        tens > 0 ==> decimal(10 * tens + ones).len() == decimal(tens).len() + 1,
        tens > 0 ==> decimal(10 * tens + ones).last() as int == '0' as int + ones,
        tens > 0 ==> decimal(10 * tens + ones).drop_last() == decimal(tens),
{
    let n = 10 * tens + ones;
    if tens > 0 {
        assert(n / 10 == tens && n % 10 == ones);
        assert(decimal(n) == decimal(tens).push(digit(ones)));
        assert(decimal(n).drop_last() =~= decimal(tens));
    }
}

/// Nothing of a list of parts is lost in its view.
pub proof fn law_parts_are_shown_as_they_are(parts: Seq<&[u8]>)
    ensures
        parts_of(parts).len() == parts.len(),
        forall|i: int| 0 <= i < parts.len() ==> #[trigger] parts_of(parts)[i] == parts[i]@,
{
}

} // verus!
