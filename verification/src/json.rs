//! The text that goes over the wire.
//!
//! Tallies and envelopes travel as compact JSON. Escaping a string is left to
//! `serde_json`; the digits of a count and the punctuation around the parts
//! are written here.

use vstd::prelude::*;
use vstd::string::StringExecFns;

verus! {

/// The JSON string literal for `text`, quotes included, as `serde_json`
/// writes it.
pub uninterp spec fn json_string(text: Seq<char>) -> Seq<char>;

/// The error type of `serde_json`, which is carried from the call to where
/// it is mapped and never looked into.
#[verifier::external_type_specification]
#[verifier::external_body]
pub struct ExJsonError(serde_json::Error);

/// A value could not be turned into JSON text.
#[derive(Clone, Copy, Debug, PartialEq, Eq, Structural)]
pub struct EncodeError;

/// Calls `serde_json::to_string` on a string slice. The call gives the
/// literal named by [`json_string`], and it gives one for every string: it
/// fails only where a value refuses to be serialised, where a map has keys
/// that are not strings, or where the writer refuses a write. A string slice
/// is neither of the first two, and the writer is a byte vector, which takes
/// every write.
#[verifier::external_body]
fn to_json_string(text: &str) -> (quoted: Result<String, serde_json::Error>)
    ensures
        quoted is Ok,
        quoted->Ok_0@ == json_string(text@),
{
    serde_json::to_string(text)
}

/// The JSON string literal for `text`. Every string has one.
pub fn quote(text: &str) -> (quoted: Result<String, EncodeError>)
    ensures
        quoted matches Ok(literal) && literal@ == json_string(text@),
{
    match to_json_string(text) {
        Ok(literal) => Ok(literal),
        Err(_) => Err(EncodeError),
    }
}

/// The character for a single decimal digit.
pub open spec fn digit(d: nat) -> char
    recommends
        d < 10,
{
    if d == 0 {
        '0'
    } else if d == 1 {
        '1'
    } else if d == 2 {
        '2'
    } else if d == 3 {
        '3'
    } else if d == 4 {
        '4'
    } else if d == 5 {
        '5'
    } else if d == 6 {
        '6'
    } else if d == 7 {
        '7'
    } else if d == 8 {
        '8'
    } else {
        '9'
    }
}

/// The decimal digits of `n`, most significant first, without leading zeros.
pub open spec fn decimal(n: nat) -> Seq<char>
    decreases n,
{
    if n < 10 {
        seq![digit(n)]
    } else {
        decimal(n / 10).push(digit(n % 10))
    }
}

fn digit_text(d: u64) -> (text: &'static str)
    requires
        d < 10,
    ensures
        text@ == seq![digit(d as nat)],
{
    proof {
        reveal_strlit("0");
        reveal_strlit("1");
        reveal_strlit("2");
        reveal_strlit("3");
        reveal_strlit("4");
        reveal_strlit("5");
        reveal_strlit("6");
        reveal_strlit("7");
        reveal_strlit("8");
        reveal_strlit("9");
    }
    let text = if d == 0 {
        "0"
    } else if d == 1 {
        "1"
    } else if d == 2 {
        "2"
    } else if d == 3 {
        "3"
    } else if d == 4 {
        "4"
    } else if d == 5 {
        "5"
    } else if d == 6 {
        "6"
    } else if d == 7 {
        "7"
    } else if d == 8 {
        "8"
    } else {
        "9"
    };
    assert(text@ =~= seq![digit(d as nat)]);
    text
}

/// Writes `n` in decimal.
pub fn decimal_text(n: u64) -> (text: String)
    ensures
        text@ == decimal(n as nat),
    decreases n,
{
    if n < 10 {
        String::from_str(digit_text(n))
    } else {
        let mut text = decimal_text(n / 10);
        text.append(digit_text(n % 10));
        assert(text@ =~= decimal(n as nat));
        text
    }
}

/// One tally as a JSON object with the members `category` and `quantity`,
/// given the JSON literal of its label.
pub open spec fn stats_json(vote_literal: Seq<char>, quantity: u64) -> Seq<char> {
    "{\"category\":"@ + vote_literal + ",\"quantity\":"@ + decimal(quantity as nat) + "}"@
}

/// `items` separated by commas.
pub open spec fn comma_separated(items: Seq<Seq<char>>) -> Seq<char>
    decreases items.len(),
{
    if items.len() == 0 {
        Seq::empty()
    } else if items.len() == 1 {
        items[0]
    } else {
        comma_separated(items.drop_last()) + ","@ + items.last()
    }
}

/// A JSON array whose elements are the texts in `items`, in order.
pub open spec fn array_json(items: Seq<Seq<char>>) -> Seq<char> {
    "["@ + comma_separated(items) + "]"@
}

/// An envelope as a JSON object, given the JSON literals of its two fields.
pub open spec fn response_json(action_literal: Seq<char>, data_literal: Seq<char>) -> Seq<char> {
    "{\"action\":"@ + action_literal + ",\"data\":"@ + data_literal + "}"@
}

/// The views of a list of texts.
pub open spec fn texts(items: Seq<String>) -> Seq<Seq<char>> {
    items.map_values(|item: String| item@)
}

/// Writes one tally as a JSON object around the JSON literal of its label.
pub fn frame_stats(vote_literal: &str, quantity: u64) -> (text: String)
    ensures
        text@ == stats_json(vote_literal@, quantity),
{
    let mut text = String::from_str("{\"category\":");
    text.append(vote_literal);
    text.append(",\"quantity\":");
    let digits = decimal_text(quantity);
    text.append(digits.as_str());
    text.append("}");
    text
}

/// Writes a JSON array around elements that are JSON texts already.
pub fn frame_array(items: &Vec<String>) -> (text: String)
    ensures
        text@ == array_json(texts(items@)),
{
    let mut text = String::from_str("[");
    let ghost opening = text@;
    let mut i: usize = 0;
    while i < items.len()
        invariant
            i <= items.len(),
            opening == "["@,
            text@ == opening + comma_separated(texts(items@).take(i as int)),
        decreases items.len() - i,
    {
        let ghost before = texts(items@).take(i as int);
        let ghost after = texts(items@).take(i + 1);
        assert(after.drop_last() =~= before);
        assert(after.last() == items@[i as int]@);
        if i > 0 {
            text.append(",");
        }
        text.append(items[i].as_str());
        assert(text@ =~= opening + comma_separated(after));
        i += 1;
    }
    assert(texts(items@).take(i as int) =~= texts(items@));
    text.append("]");
    text
}

/// Writes an envelope as a JSON object around the JSON literals of its
/// action and its data.
pub fn frame_response(action_literal: &str, data_literal: &str) -> (text: String)
    ensures
        text@ == response_json(action_literal@, data_literal@),
{
    let mut text = String::from_str("{\"action\":");
    text.append(action_literal);
    text.append(",\"data\":");
    text.append(data_literal);
    text.append("}");
    text
}

} // verus!
