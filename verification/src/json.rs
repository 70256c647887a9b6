//! JSON values, which `serde_json` reads and writes.

use serde_json::Value;
use vstd::prelude::*;
use vstd::utf8::encode_utf8;

verus! {

/// `serde_json::Value`, any JSON value; opaque to the verifier.
#[verifier::external_type_specification]
#[verifier::external_body]
pub struct ExValue(serde_json::Value);

/// `serde_json::Error`, why a text is not JSON; opaque to the verifier.
#[verifier::external_type_specification]
#[verifier::external_body]
pub struct ExError(serde_json::Error);

/// What `serde_json::from_slice` makes of a body.
pub uninterp spec fn parsed_json(body: Seq<u8>) -> Result<Value, serde_json::Error>;

/// What a parse error says of itself.
pub uninterp spec fn json_error_text(error: serde_json::Error) -> Seq<char>;

/// The compact text of a JSON value.
pub uninterp spec fn json_text(value: Value) -> Seq<char>;

/// Where a character of a JSON text stands: outside any string, inside one, or inside one after a
/// backslash.
pub enum Place {
    Outside,
    Inside,
    Escaped,
}

/// Where the character that follows `text` stands.
pub open spec fn place_after(text: Seq<char>) -> Place
    decreases text.len(),
{
    if text.len() == 0 {
        Place::Outside
    } else {
        match place_after(text.drop_last()) {
            Place::Outside => if text.last() == '"' {
                Place::Inside
            } else {
                Place::Outside
            },
            Place::Inside => if text.last() == '"' {
                Place::Outside
            } else if text.last() == '\\' {
                Place::Escaped
            } else {
                Place::Inside
            },
            Place::Escaped => Place::Inside,
        }
    }
}

/// How many arrays and objects are open after `text`.
pub open spec fn open_after(text: Seq<char>) -> int
    decreases text.len(),
{
    if text.len() == 0 {
        0
    } else {
        let earlier = open_after(text.drop_last());
        if place_after(text.drop_last()) !is Outside {
            earlier
        } else if text.last() == '[' || text.last() == '{' {
            earlier + 1
        } else if text.last() == ']' || text.last() == '}' {
            earlier - 1
        } else {
            earlier
        }
    }
}

/// The character at `i` belongs to a number with a fraction or an exponent.
pub open spec fn marks_float(text: Seq<char>, i: int) -> bool {
    &&& place_after(text.take(i)) is Outside
    &&& text[i] == '.' || text[i] == 'e' && i > 0 && '0' <= text[i - 1] <= '9'
}

/// An object opens at `i`, and its first key is the one that marks a raw value.
pub open spec fn marks_raw_value(text: Seq<char>, i: int) -> bool {
    &&& place_after(text.take(i)) is Outside
    &&& text[i] == '{'
    &&& "\"$serde_json::private::RawValue\""@.is_prefix_of(text.skip(i + 1))
}

/// The text of a value that is read back without loss: all numbers are integers, no more than 127
/// arrays and objects stand inside one another, and no object has the key that marks a raw value
/// for its first.
pub open spec fn is_plain(text: Seq<char>) -> bool {
    &&& forall|i: int| 0 <= i < text.len() ==> !#[trigger] marks_float(text, i)
    &&& forall|i: int| 0 <= i <= text.len() ==> open_after(#[trigger] text.take(i)) <= 127
    &&& forall|i: int| 0 <= i < text.len() ==> !#[trigger] marks_raw_value(text, i)
}

/// Calls `serde_json::from_slice` for a `Value`.
///
/// Trusted: what comes back, the value or the error, depends on the bytes alone.
#[verifier::external_body]
pub(crate) fn parse_json(body: &[u8]) -> (result: Result<Value, serde_json::Error>)
    ensures
        result == parsed_json(body@),
{
    serde_json::from_slice(body)
}

/// Calls `to_string` on a `serde_json::Error`.
///
/// Trusted: the text depends on the error alone.
#[verifier::external_body]
pub(crate) fn write_json_error(error: &serde_json::Error) -> (text: String)
    ensures
        text@ == json_error_text(*error),
{
    error.to_string()
}

/// Calls `to_string` on a `serde_json::Value`, which writes the compact form.
///
/// Trusted: the text depends on the value alone, and it holds no line break: the compact form puts
/// no white space between tokens and escapes the control characters inside strings. Where the text
/// is plain, `serde_json::from_slice` reads the same value back from it. Of other texts that is not
/// said: a float may come back as its neighbour, deeper nesting is an error, and so may an object
/// be whose first key is the one that marks a raw value.
#[verifier::external_body]
pub(crate) fn write_json(value: &Value) -> (text: String)
    ensures
        text@ == json_text(*value),
        forall|i: int|
            0 <= i < text@.len() ==> #[trigger] text@[i] != '\n' && text@[i] != '\r',
        is_plain(text@) ==> (parsed_json(encode_utf8(text@)) matches Ok(parsed) && parsed
            == *value),
{
    value.to_string()
}

/// The text of a JSON value, as it stands in the body of a response; where that text is plain, the
/// value is read back from it.
pub fn body_text(value: &Value) -> (text: String)
    ensures
        text@ == json_text(*value),
        is_plain(text@) ==> (parsed_json(encode_utf8(text@)) matches Ok(parsed) && parsed
            == *value),
{
    write_json(value)
}

/// `Value::clone`: the copy is the same JSON value.
pub assume_specification[ <serde_json::Value as Clone>::clone ](value: &serde_json::Value) -> (copy:
    serde_json::Value)
    ensures
        copy == *value,
;

proof fn lemma_nothing_opens(text: Seq<char>)
    requires
        forall|i: int| 0 <= i < text.len() ==> text[i] != '[' && text[i] != '{',
    ensures
        open_after(text) <= 0,
    decreases text.len(),
{
    if text.len() > 0 {
        lemma_nothing_opens(text.drop_last());
    }
}

/// A text without points, exponents and brackets is plain: a literal or an integer.
pub proof fn law_bare_text_is_plain(text: Seq<char>)
    requires
        forall|i: int|
            0 <= i < text.len() ==> #[trigger] text[i] != '.' && text[i] != '[' && text[i] != '{',
        forall|i: int|
            0 < i < text.len() && '0' <= text[i - 1] && text[i - 1] <= '9' ==> #[trigger] text[i]
                != 'e',
    ensures
        is_plain(text),
{
    assert forall|i: int| 0 <= i <= text.len() implies open_after(#[trigger] text.take(i)) <= 127 by {
        lemma_nothing_opens(text.take(i));
    }
}

proof fn lemma_string_goes_on(text: Seq<char>)
    requires
        text.len() > 0,
        text[0] == '"',
        forall|i: int| 0 < i < text.len() ==> text[i] != '"' && text[i] != '\\',
    ensures
        place_after(text) is Inside,
        open_after(text) == 0,
    decreases text.len(),
{
    let fewer = text.drop_last();
    if fewer.len() == 0 {
        assert(place_after(fewer) is Outside);
        assert(open_after(fewer) == 0);
        assert(text.last() == '"');
    } else {
        lemma_string_goes_on(fewer);
        assert(text.last() == text[text.len() - 1]);
    }
}

/// The text of a string without quotes and backslashes is plain, whatever else stands in it.
pub proof fn law_string_is_plain(content: Seq<char>)
    requires
        forall|i: int| 0 <= i < content.len() ==> content[i] != '"' && content[i] != '\\',
    ensures
        is_plain(seq!['"'] + content + seq!['"']),
{
    let text = seq!['"'] + content + seq!['"'];
    let open = seq!['"'] + content;
    assert forall|i: int| 0 < i < open.len() implies open[i] != '"' && open[i] != '\\' by {
        assert(open[i] == content[i - 1]);
    }
    assert forall|i: int| 0 < i < text.len() implies place_after(#[trigger] text.take(i)) is Inside
        && open_after(text.take(i)) == 0 by {
        assert(text.take(i) =~= open.take(i));
        lemma_string_goes_on(open.take(i));
    }
    lemma_string_goes_on(open);
    assert(text.take(text.len() as int) =~= text);
    assert(text.drop_last() =~= open);
    assert(open_after(text) == 0);
    assert(text.take(0) =~= Seq::empty());
    assert forall|i: int| 0 <= i <= text.len() implies open_after(#[trigger] text.take(i)) <= 127 by {
        if i > 0 && i < text.len() {
            assert(place_after(text.take(i)) is Inside);
        }
    }
    assert forall|i: int| 0 <= i < text.len() implies !#[trigger] marks_float(text, i)
        && !marks_raw_value(text, i) by {
        if i > 0 {
            assert(place_after(text.take(i)) is Inside);
        }
    }
    assert forall|i: int| 0 <= i < text.len() implies !#[trigger] marks_raw_value(text, i) by {
        assert(!marks_float(text, i));
    }
}

} // verus!
