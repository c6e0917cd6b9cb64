//! JSON documents, read with `serde_json`.

use vstd::prelude::*;

use crate::double::Double;
use crate::text;

verus! {

/// A parsed document.
#[verifier::external_type_specification]
#[verifier::external_body]
pub struct ExValue(serde_json::Value);

/// Why a text is no document.
#[verifier::external_type_specification]
#[verifier::external_body]
pub struct ExError(serde_json::Error);

/// What stands in one place of a document.
pub ghost enum Node {
    Null,
    Bool(bool),
    /// A number: as a signed 64-bit integer, where it is one, and as a real number.
    Number { whole: Option<i64>, double: Option<Double> },
    Text(Seq<char>),
    Array,
    Object,
}

/// What a document holds: the node under each path of object keys that leads somewhere. The empty
/// path leads to the document itself.
pub uninterp spec fn json_held(v: serde_json::Value) -> Map<Seq<Seq<char>>, Node>;

/// What the document of a text holds, or nothing where the text is no JSON document.
pub uninterp spec fn json_parsed(text: Seq<char>) -> Option<Map<Seq<Seq<char>>, Node>>;

/// A character inside a JSON string: quotation marks, backslashes and control characters are
/// escaped, all others stand as they are.
pub open spec fn escaped(c: char) -> Seq<char> {
    if c == '"' || c == '\\' {
        seq!['\\', c]
    } else if c == '\u{8}' {
        seq!['\\', 'b']
    } else if c == '\t' {
        seq!['\\', 't']
    } else if c == '\n' {
        seq!['\\', 'n']
    } else if c == '\u{c}' {
        seq!['\\', 'f']
    } else if c == '\r' {
        seq!['\\', 'r']
    } else if 32 > c as int {
        seq!['\\', 'u', '0', '0', text::hex_digit(c as int / 16), text::hex_digit(c as int % 16)]
    } else {
        seq![c]
    }
}

pub open spec fn all_escaped(text: Seq<char>) -> Seq<char>
    decreases text.len(),
{
    if text.len() == 0 {
        Seq::empty()
    } else {
        all_escaped(text.drop_last()) + escaped(text.last())
    }
}

/// A text as a JSON string: in quotes, with escapes.
pub open spec fn quoted(text: Seq<char>) -> Seq<char> {
    seq!['"'] + all_escaped(text) + seq!['"']
}

/// The part of a document below one of its keys.
pub open spec fn below(
    held: Map<Seq<Seq<char>>, Node>,
    key: Seq<char>,
) -> Map<Seq<Seq<char>>, Node> {
    Map::new(
        |p: Seq<Seq<char>>| held.dom().contains(seq![key] + p),
        |p: Seq<Seq<char>>| held[seq![key] + p],
    )
}

/// `serde_json::from_str` for `serde_json::Value`. It fails exactly on the texts that are no JSON
/// document; which those are, and what the others hold, is what `json_parsed` names.
#[verifier::external_body]
fn from_str(text: &str) -> (r: Result<serde_json::Value, serde_json::Error>)
    ensures
        r is Ok <==> json_parsed(text@) is Some,
        r matches Ok(v) ==> json_parsed(text@) == Some(json_held(v)),
{
    serde_json::from_str(text)
}

/// `serde_json::Value::get` with a string: the member under that key, if the value is an object
/// that has it.
#[verifier::external_body]
fn member<'a>(v: &'a serde_json::Value, key: &str) -> (r: Option<&'a serde_json::Value>)
    ensures
        r is Some <==> json_held(*v).dom().contains(seq![key@]),
        r matches Some(m) ==> json_held(*m) == below(json_held(*v), key@),
{
    v.get(key)
}

pub open spec fn node_bool(n: Node) -> Option<bool> {
    match n {
        Node::Bool(b) => Some(b),
        _ => None,
    }
}

pub open spec fn node_whole(n: Node) -> Option<i64> {
    match n {
        Node::Number { whole, double } => whole,
        _ => None,
    }
}

pub open spec fn node_double(n: Node) -> Option<Double> {
    match n {
        Node::Number { whole, double } => double,
        _ => None,
    }
}

pub open spec fn node_text(n: Node) -> Option<Seq<char>> {
    match n {
        Node::Text(s) => Some(s),
        _ => None,
    }
}

/// `serde_json::Value::as_bool`: the value, if it is a Boolean.
#[verifier::external_body]
fn as_bool(v: &serde_json::Value) -> (r: Option<bool>)
    ensures
        r == node_bool(json_held(*v)[Seq::empty()]),
{
    v.as_bool()
}

/// `serde_json::Value::as_i64`: the value, if it is a whole number in range.
#[verifier::external_body]
fn as_i64(v: &serde_json::Value) -> (r: Option<i64>)
    ensures
        r == node_whole(json_held(*v)[Seq::empty()]),
{
    v.as_i64()
}

/// `serde_json::Value::as_f64`: the value as a real number, if it is a number.
#[verifier::external_body]
fn as_double(v: &serde_json::Value) -> (r: Option<Double>)
    ensures
        r == node_double(json_held(*v)[Seq::empty()]),
{
    v.as_f64().map(|x| Double { bits: x.to_bits() })
}

/// `serde_json::Value::as_str`: the value, if it is a string.
#[verifier::external_body]
fn as_text(v: &serde_json::Value) -> (r: Option<String>)
    ensures
        text_view(r) == node_text(json_held(*v)[Seq::empty()]),
{
    v.as_str().map(|s| s.to_string())
}

/// `serde_json::Value` written out, for a string: in quotes, with `"` and `\` behind a backslash,
/// the usual letters for backspace, tab, line feed, form feed and carriage return, four lower-case
/// hexadecimal digits for the other characters below U+0020, and nothing else escaped.
#[verifier::external_body]
pub(crate) fn quote(text: &str) -> (r: String)
    ensures
        r@ == quoted(text@),
{
    serde_json::Value::from(text).to_string()
}

/// The keys of a path.
pub open spec fn keys(path: Seq<&str>) -> Seq<Seq<char>> {
    Seq::new(path.len(), |i: int| path[i]@)
}

/// Every step of the path leads somewhere.
pub open spec fn reaches(held: Map<Seq<Seq<char>>, Node>, path: Seq<Seq<char>>) -> bool {
    forall|i: int| 0 < i <= path.len() ==> #[trigger] held.dom().contains(path.take(i))
}

/// The node at the end of a path, if the path leads there.
pub open spec fn node_at(
    held: Map<Seq<Seq<char>>, Node>,
    path: Seq<Seq<char>>,
) -> Option<Node> {
    if reaches(held, path) {
        Some(held[path])
    } else {
        None
    }
}

/// `part` is the part of the document below a path.
spec fn is_below(
    part: Map<Seq<Seq<char>>, Node>,
    held: Map<Seq<Seq<char>>, Node>,
    path: Seq<Seq<char>>,
) -> bool {
    &&& forall|p: Seq<Seq<char>>| #[trigger] part.dom().contains(p) <==> held.dom().contains(path + p)
    &&& forall|p: Seq<Seq<char>>| part.dom().contains(p) ==> #[trigger] part[p] == held[path + p]
}

/// A document that was read from a text.
pub struct Document {
    value: serde_json::Value,
}

impl View for Document {
    type V = Map<Seq<Seq<char>>, Node>;

    closed spec fn view(&self) -> Map<Seq<Seq<char>>, Node> {
        json_held(self.value)
    }
}

impl Document {
    /// Reads a text, if it is a document.
    pub fn parse(text: &str) -> (r: Option<Document>)
        ensures
            r is Some <==> json_parsed(text@) is Some,
            r matches Some(d) ==> json_parsed(text@) == Some(d@),
    {
        match from_str(text) {
            Ok(value) => Some(Document { value }),
            Err(_) => None,
        }
    }

    /// Follows a path of object keys.
    fn find(&self, path: &[&str]) -> (r: Option<&serde_json::Value>)
        ensures
            r is Some <==> reaches(self@, keys(path@)),
            r matches Some(v) ==> json_held(*v)[Seq::empty()] == self@[keys(path@)],
    {
        let ghost want = keys(path@);
        let mut cur: &serde_json::Value = &self.value;
        let mut i: usize = 0;
        proof {
            assert(want.take(0) =~= Seq::empty());
            assert forall|p: Seq<Seq<char>>| #[trigger] json_held(*cur).dom().contains(
                p,
            ) <==> self@.dom().contains(want.take(0) + p) by {
                assert(want.take(0) + p =~= p);
            }
            assert forall|p: Seq<Seq<char>>| json_held(*cur).dom().contains(p) implies #[trigger]
                json_held(*cur)[p] == self@[want.take(0) + p] by {
                assert(want.take(0) + p =~= p);
            }
        }
        while i < path.len()
            invariant
                i <= path@.len(),
                want == keys(path@),
                is_below(json_held(*cur), self@, want.take(i as int)),
                forall|k: int| 0 < k <= i ==> #[trigger] self@.dom().contains(want.take(k)),
                i == 0 ==> json_held(*cur) == self@,
            decreases path@.len() - i,
        {
            let key: &str = path[i];
            let ghost held = json_held(*cur);
            proof {
                assert(want.take(i as int) + seq![key@] =~= want.take(i + 1));
            }
            match member(cur, key) {
                Some(next) => {
                    proof {
                        let part = json_held(*next);
                        assert(part == below(held, key@));
                        assert forall|p: Seq<Seq<char>>| #[trigger] part.dom().contains(
                            p,
                        ) <==> self@.dom().contains(want.take(i + 1) + p) by {
                            assert(held.dom().contains(seq![key@] + p) <==> self@.dom().contains(
                                want.take(i as int) + (seq![key@] + p),
                            ));
                            assert(want.take(i as int) + (seq![key@] + p) =~= want.take(i + 1) + p);
                        }
                        assert forall|p: Seq<Seq<char>>| part.dom().contains(p) implies #[trigger]
                            part[p] == self@[want.take(i + 1) + p] by {
                            assert(held[seq![key@] + p] == self@[want.take(i as int) + (seq![key@]
                                + p)]);
                            assert(want.take(i as int) + (seq![key@] + p) =~= want.take(i + 1) + p);
                        }
                        assert(held.dom().contains(seq![key@]));
                        assert(self@.dom().contains(want.take(i + 1)));
                    }
                    cur = next;
                },
                None => {
                    proof {
                        assert(!held.dom().contains(seq![key@]));
                        assert(!self@.dom().contains(want.take(i + 1)));
                    }
                    return None;
                },
            }
            i += 1;
        }
        proof {
            assert(want.take(want.len() as int) =~= want);
            if path@.len() > 0 {
                assert(self@.dom().contains(want.take(i as int)));
                let e = Seq::<Seq<char>>::empty();
                assert(want.take(i as int) + e =~= want);
                assert(json_held(*cur).dom().contains(e));
                assert(json_held(*cur)[e] == self@[want.take(i as int) + e]);
            } else {
                assert(want =~= Seq::empty());
            }
        }
        Some(cur)
    }

    /// The Boolean at the end of a path.
    pub fn bool_at(&self, path: &[&str]) -> (r: Option<bool>)
        ensures
            r == match node_at(self@, keys(path@)) {
                Some(n) => node_bool(n),
                None => None,
            },
    {
        match self.find(path) {
            Some(v) => as_bool(v),
            None => None,
        }
    }

    /// The whole number at the end of a path.
    pub fn whole_at(&self, path: &[&str]) -> (r: Option<i64>)
        ensures
            r == match node_at(self@, keys(path@)) {
                Some(n) => node_whole(n),
                None => None,
            },
    {
        match self.find(path) {
            Some(v) => as_i64(v),
            None => None,
        }
    }

    /// The number at the end of a path.
    pub fn double_at(&self, path: &[&str]) -> (r: Option<Double>)
        ensures
            r == match node_at(self@, keys(path@)) {
                Some(n) => node_double(n),
                None => None,
            },
    {
        match self.find(path) {
            Some(v) => as_double(v),
            None => None,
        }
    }

    /// The string at the end of a path.
    pub fn text_at(&self, path: &[&str]) -> (r: Option<String>)
        ensures
            text_view(r) == match node_at(self@, keys(path@)) {
                Some(n) => node_text(n),
                None => None,
            },
    {
        match self.find(path) {
            Some(v) => as_text(v),
            None => None,
        }
    }

    /// Whether a path leads somewhere.
    pub fn has(&self, path: &[&str]) -> (r: bool)
        ensures
            r == reaches(self@, keys(path@)),
    {
        match self.find(path) {
            Some(_) => true,
            None => false,
        }
    }
}

pub open spec fn text_view(s: Option<String>) -> Option<Seq<char>> {
    match s {
        Some(t) => Some(t@),
        None => None,
    }
}

} // verus!
