//! Looking values up in JSON documents that came over the wire.

use vstd::prelude::*;

verus! {

/// A value in a document, as far as the library reads it.
pub enum JsonNode {
    Null,
    Bool(bool),
    /// A number that fits in 64 bits without a sign.
    Unsigned(u64),
    /// Any other number.
    OtherNumber,
    Text(String),
    /// An array, with the number of its items.
    List(usize),
    Object,
}

/// `JsonNode` over plain text.
pub enum JsonView {
    Null,
    Bool(bool),
    Unsigned(u64),
    OtherNumber,
    Text(Seq<char>),
    List(nat),
    Object,
}

impl View for JsonNode {
    type V = JsonView;

    open spec fn view(&self) -> JsonView {
        match self {
            JsonNode::Null => JsonView::Null,
            JsonNode::Bool(b) => JsonView::Bool(*b),
            JsonNode::Unsigned(n) => JsonView::Unsigned(*n),
            JsonNode::OtherNumber => JsonView::OtherNumber,
            JsonNode::Text(s) => JsonView::Text(s@),
            JsonNode::List(n) => JsonView::List(*n as nat),
            JsonNode::Object => JsonView::Object,
        }
    }
}

/// The value that a JSON pointer leads to in a document: none where the text
/// is not a document or has nothing there.
pub uninterp spec fn json_node(document: Seq<char>, pointer: Seq<char>) -> Option<JsonView>;

/// `serde_json::from_str` and, on the value it reads, `serde_json::Value::pointer`.
/// Claims that what is found depends on the document and the pointer alone.
/// The empty pointer leads to the whole document.
#[verifier::external_body]
pub(crate) fn json_at(document: &str, pointer: &str) -> (r: Option<JsonNode>)
    ensures
        r is Some <==> json_node(document@, pointer@) is Some,
        r is Some ==> json_node(document@, pointer@) == Some(r->0@),
{
    let value: serde_json::Value = serde_json::from_str(document).ok()?;
    value.pointer(pointer).map(|found| match found {
        serde_json::Value::Null => JsonNode::Null,
        serde_json::Value::Bool(b) => JsonNode::Bool(*b),
        serde_json::Value::Number(n) => n.as_u64().map_or(JsonNode::OtherNumber, JsonNode::Unsigned),
        serde_json::Value::String(s) => JsonNode::Text(s.clone()),
        serde_json::Value::Array(items) => JsonNode::List(items.len()),
        serde_json::Value::Object(_) => JsonNode::Object,
    })
}

/// A hexadecimal digit.
pub open spec fn hex_digit(n: int) -> char {
    if n < 10 {
        ('0' as int + n) as char
    } else {
        ('a' as int + n - 10) as char
    }
}

/// A character inside a JSON literal: quotation marks, backslashes and control
/// characters are escaped, by a letter where JSON has one.
pub open spec fn json_char(c: char) -> Seq<char> {
    if c == '"' || c == '\\' {
        seq!['\\', c]
    } else if c == '\n' {
        seq!['\\', 'n']
    } else if c == '\r' {
        seq!['\\', 'r']
    } else if c == '\t' {
        seq!['\\', 't']
    } else if c as u32 == 0x08 {
        seq!['\\', 'b']
    } else if c as u32 == 0x0c {
        seq!['\\', 'f']
    } else if (c as u32) < 0x20 {
        seq!['\\', 'u', '0', '0', hex_digit(c as int / 16), hex_digit(c as int % 16)]
    } else {
        seq![c]
    }
}

/// The characters of a text inside a JSON literal.
pub open spec fn json_chars(s: Seq<char>) -> Seq<char>
    decreases s.len(),
{
    if s.len() == 0 {
        seq![]
    } else {
        json_chars(s.drop_last()) + json_char(s.last())
    }
}

/// The JSON literal of a text, quotation marks included.
pub open spec fn json_literal(s: Seq<char>) -> Seq<char> {
    seq!['"'] + json_chars(s) + seq!['"']
}

/// `serde_json::Value::to_string` on a string value, which writes the text as
/// JSON on one line. Claims what the literal is.
#[verifier::external_body]
pub(crate) fn to_json_literal(s: &str) -> (r: String)
    ensures
        r@ == json_literal(s@),
{
    serde_json::Value::from(s).to_string()
}

/// The text that a pointer leads to, where it leads to text.
pub open spec fn text_at(document: Seq<char>, pointer: Seq<char>) -> Option<Seq<char>> {
    match json_node(document, pointer) {
        Some(JsonView::Text(s)) => Some(s),
        _ => None,
    }
}

pub fn json_text(document: &str, pointer: &str) -> (r: Option<String>)
    ensures
        r is Some <==> text_at(document@, pointer@) is Some,
        r is Some ==> text_at(document@, pointer@) == Some(r->0@),
{
    match json_at(document, pointer) {
        Some(JsonNode::Text(s)) => Some(s),
        _ => None,
    }
}

/// The count that a pointer leads to, or 0 where it leads to none.
pub open spec fn count_at(document: Seq<char>, pointer: Seq<char>) -> u64 {
    match json_node(document, pointer) {
        Some(JsonView::Unsigned(n)) => n,
        _ => 0,
    }
}

pub fn json_count(document: &str, pointer: &str) -> (r: u64)
    ensures
        r == count_at(document@, pointer@),
{
    match json_at(document, pointer) {
        Some(JsonNode::Unsigned(n)) => n,
        _ => 0,
    }
}

/// A literal holds every character of its text in turn, and what needs no
/// escape is written as it is.
pub proof fn literals_hold_every_character(a: Seq<char>, b: Seq<char>)
    ensures
        json_chars(a + b) == json_chars(a) + json_chars(b),
        (forall|i: int|
            0 <= i < a.len() ==> #[trigger] a[i] != '"' && a[i] != '\\' && a[i] as u32 >= 0x20)
            ==> json_chars(a) == a,
    decreases a.len() + b.len(),
{
    if b.len() > 0 {
        literals_hold_every_character(a, b.drop_last());
        assert((a + b).drop_last() =~= a + b.drop_last());
        assert(json_chars(a + b) =~= json_chars(a) + json_chars(b));
    } else {
        assert(a + b =~= a);
        assert(json_chars(a) + json_chars(b) =~= json_chars(a));
        if a.len() > 0 {
            literals_hold_every_character(a.drop_last(), b);
            if forall|i: int|
                0 <= i < a.len() ==> #[trigger] a[i] != '"' && a[i] != '\\' && a[i] as u32 >= 0x20 {
                assert forall|i: int| 0 <= i < a.drop_last().len() implies #[trigger] a.drop_last()[i]
                    != '"' && a.drop_last()[i] != '\\' && a.drop_last()[i] as u32 >= 0x20 by {
                    assert(a.drop_last()[i] == a[i]);
                }
                assert(a[a.len() - 1] as u32 >= 0x20);
                assert(json_chars(a) =~= a);
            }
        }
    }
}

/// Text is read as text and a count as a count, whatever they hold; where there
/// is something else there is no text and the count is zero.
pub proof fn values_are_read_as_they_are(
    document: Seq<char>,
    pointer: Seq<char>,
    s: Seq<char>,
    n: u64,
)
    ensures
        json_node(document, pointer) == Some(JsonView::Text(s)) ==> text_at(document, pointer)
            == Some(s) && count_at(document, pointer) == 0,
        json_node(document, pointer) == Some(JsonView::Unsigned(n)) ==> text_at(document, pointer)
            is None && count_at(document, pointer) == n,
        json_node(document, pointer) is None ==> text_at(document, pointer) is None && count_at(
            document,
            pointer,
        ) == 0,
        text_at(document, pointer) == Some(s) ==> json_node(document, pointer) == Some(
            JsonView::Text(s),
        ),
{
}

} // verus!
