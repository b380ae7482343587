//! The JSON text that rclone takes and gives: string literals, objects, and
//! the two reply shapes that the library reads (an object of strings, and an
//! object of string lists).

use vstd::prelude::*;
use crate::text::{push_char, string_views};

verus! {

/// The lower-case hexadecimal digit for `n` (below 16).
pub open spec fn hex_digit(n: u32) -> char {
    seq!['0', '1', '2', '3', '4', '5', '6', '7', '8', '9', 'a', 'b', 'c', 'd', 'e', 'f'][n as int]
}

/// How a JSON string literal writes one character: a quote and a backslash
/// are escaped with a backslash, the control characters below U+0020 are
/// written `\b`, `\t`, `\n`, `\f`, `\r`, or `\u00XX`; every other character
/// stands for itself.
pub open spec fn json_escape_char(c: char) -> Seq<char> {
    let u = c as u32;
    if c == '"' {
        seq!['\\', '"']
    } else if c == '\\' {
        seq!['\\', '\\']
    } else if u == 0x08 {
        seq!['\\', 'b']
    } else if u == 0x09 {
        seq!['\\', 't']
    } else if u == 0x0A {
        seq!['\\', 'n']
    } else if u == 0x0C {
        seq!['\\', 'f']
    } else if u == 0x0D {
        seq!['\\', 'r']
    } else if u < 0x20 {
        seq!['\\', 'u', '0', '0', hex_digit(u / 16), hex_digit(u % 16)]
    } else {
        seq![c]
    }
}

/// The escaped characters of `s`.
pub open spec fn json_escape(s: Seq<char>) -> Seq<char>
    decreases s.len(),
{
    if s.len() == 0 {
        seq![]
    } else {
        json_escape(s.drop_last()) + json_escape_char(s.last())
    }
}

/// The JSON string literal for `s`.
pub open spec fn json_string(s: Seq<char>) -> Seq<char> {
    seq!['"'] + json_escape(s) + seq!['"']
}

/// Whether a text needs no escaping in a JSON string: it holds no quote, no
/// backslash and no control character below U+0020.
pub open spec fn json_plain(s: Seq<char>) -> bool {
    forall|i: int|
        0 <= i < s.len() ==> #[trigger] s[i] != '"' && s[i] != '\\' && (s[i] as u32) >= 0x20
}

/// A text that needs no escaping is written between quotes as it is.
pub proof fn lemma_json_string_plain(s: Seq<char>)
    requires
        json_plain(s),
    ensures
        json_string(s) == seq!['"'] + s + seq!['"'],
{
    lemma_json_escape_plain(s);
}

proof fn lemma_json_escape_plain(s: Seq<char>)
    requires
        json_plain(s),
    ensures
        json_escape(s) == s,
    decreases s.len(),
{
    if s.len() > 0 {
        assert(json_plain(s.drop_last()));
        lemma_json_escape_plain(s.drop_last());
        let c = s.last();
        assert(c == s[s.len() - 1]);
        assert(json_escape_char(c) == seq![c]);
        assert(s.drop_last() + seq![c] =~= s);
    }
}

/// The JSON literal for a boolean.
pub open spec fn json_bool(b: bool) -> Seq<char> {
    if b {
        seq!['t', 'r', 'u', 'e']
    } else {
        seq!['f', 'a', 'l', 's', 'e']
    }
}

/// One member of a JSON object: the key as a string literal, a colon, and
/// the value's JSON text.
pub open spec fn json_member(field: (Seq<char>, Seq<char>)) -> Seq<char> {
    json_string(field.0) + seq![':'] + field.1
}

/// The members of a JSON object, separated by commas.
pub open spec fn json_members(fields: Seq<(Seq<char>, Seq<char>)>) -> Seq<char>
    decreases fields.len(),
{
    if fields.len() == 0 {
        seq![]
    } else if fields.len() == 1 {
        json_member(fields[0])
    } else {
        json_members(fields.drop_last()) + seq![','] + json_member(fields.last())
    }
}

/// The compact JSON text of an object with the given keys and value texts, in
/// the given order.
pub open spec fn json_object(fields: Seq<(Seq<char>, Seq<char>)>) -> Seq<char> {
    seq!['{'] + json_members(fields) + seq!['}']
}

/// Whether text `a` comes before text `b` in the order of `String`: compared
/// character by character by code point (which is the order of their UTF-8
/// bytes), a proper prefix first.
pub open spec fn text_before(a: Seq<char>, b: Seq<char>) -> bool
    decreases a.len(),
{
    if a.len() == 0 {
        b.len() > 0
    } else if b.len() == 0 {
        false
    } else if a[0] != b[0] {
        (a[0] as u32) < (b[0] as u32)
    } else {
        text_before(a.drop_first(), b.drop_first())
    }
}

/// Whether the keys of a list of object members are strictly ascending, as
/// serde_json writes the keys of a `json!` object (its maps are ordered by
/// key).
pub open spec fn keys_ascending(fields: Seq<(Seq<char>, Seq<char>)>) -> bool {
    forall|i: int| 0 <= i < fields.len() - 1 ==> text_before(#[trigger] fields[i].0, fields[i + 1].0)
}

/// The keys and value texts of a list of object members.
pub open spec fn field_views(fields: Seq<(&str, String)>) -> Seq<(Seq<char>, Seq<char>)> {
    fields.map_values(|f: (&str, String)| (f.0@, f.1@))
}

/// The compact JSON text of a string: `serde_json::Value::String` written
/// with `Display`, as `json!` values are written. Its contract restates
/// serde_json's escape table (`ser.rs`, `ESCAPE` and `write_char_escape`).
#[verifier::external_body]
pub(crate) fn json_string_text(s: &str) -> (quoted: String)
    ensures
        quoted@ == json_string(s@),
{
    serde_json::Value::String(s.to_owned()).to_string()
}

/// The JSON literal for a boolean.
pub fn json_bool_text(b: bool) -> (t: String)
    ensures
        t@ == json_bool(b),
{
    let mut t = String::new();
    if b {
        push_char(&mut t, 't');
        push_char(&mut t, 'r');
        push_char(&mut t, 'u');
        push_char(&mut t, 'e');
        assert(t@ =~= json_bool(b));
    } else {
        push_char(&mut t, 'f');
        push_char(&mut t, 'a');
        push_char(&mut t, 'l');
        push_char(&mut t, 's');
        push_char(&mut t, 'e');
        assert(t@ =~= json_bool(b));
    }
    t
}

/// The compact JSON text of an object whose members are the given keys and
/// value texts, in the given order.
pub fn json_object_text(fields: &Vec<(&str, String)>) -> (t: String)
    requires
        keys_ascending(field_views(fields@)),
    ensures
        t@ == json_object(field_views(fields@)),
{
    let mut t = String::new();
    push_char(&mut t, '{');
    let mut i: usize = 0;
    while i < fields.len()
        invariant
            i <= fields@.len(),
            t@ == seq!['{'] + json_members(field_views(fields@).take(i as int)),
        decreases fields@.len() - i,
    {
        let ghost fs = field_views(fields@);
        assert(fs.take(i + 1).drop_last() =~= fs.take(i as int));
        assert(fs.take(i + 1).last() == fs[i as int]);
        if i > 0 {
            push_char(&mut t, ',');
        }
        let key = json_string_text(fields[i].0);
        t.append(key.as_str());
        push_char(&mut t, ':');
        t.append(fields[i].1.as_str());
        if i == 0 {
            assert(fs.take(1) =~= seq![fs[0]]);
            assert(t@ =~= seq!['{'] + json_members(fs.take(i + 1)));
        } else {
            assert(t@ =~= seq!['{'] + json_members(fs.take(i + 1)));
        }
        i = i + 1;
    }
    assert(field_views(fields@).take(fields@.len() as int) =~= field_views(fields@));
    push_char(&mut t, '}');
    t
}


/// What `serde_json::from_str::<Option<BTreeMap<String, String>>>` reads from
/// a text: `None` where the text is not JSON of that shape, `Some(None)` for
/// `null`, and `Some(Some(m))` for an object whose values are all strings.
pub uninterp spec fn string_map_json(text: Seq<char>) -> Option<Option<Map<Seq<char>, Seq<char>>>>;

/// What `serde_json::from_str::<BTreeMap<String, Vec<String>>>` reads from a
/// text: `None` where the text is not an object whose values are all lists
/// of strings.
pub uninterp spec fn string_lists_json(text: Seq<char>) -> Option<Map<Seq<char>, Seq<Seq<char>>>>;

/// The map that a list of key and value pairs spells, a later pair winning
/// over an earlier one with the same key.
pub open spec fn pairs_map(ps: Seq<(String, String)>) -> Map<Seq<char>, Seq<char>>
    decreases ps.len(),
{
    if ps.len() == 0 {
        Map::empty()
    } else {
        pairs_map(ps.drop_last()).insert(ps.last().0@, ps.last().1@)
    }
}

/// The map that a list of key and string list pairs spells.
pub open spec fn list_pairs_map(ps: Seq<(String, Vec<String>)>) -> Map<Seq<char>, Seq<Seq<char>>>
    decreases ps.len(),
{
    if ps.len() == 0 {
        Map::empty()
    } else {
        list_pairs_map(ps.drop_last()).insert(
            ps.last().0@,
            string_views(ps.last().1@),
        )
    }
}

/// No two pairs have the same key.
pub open spec fn keys_distinct<V>(ps: Seq<(String, V)>) -> bool {
    forall|i: int, j: int| 0 <= i < j < ps.len() ==> ps[i].0@ != ps[j].0@
}

/// The maps that a parse of an object of strings stands for.
pub open spec fn string_map_view(r: Option<Option<Vec<(String, String)>>>) -> Option<
    Option<Map<Seq<char>, Seq<char>>>,
> {
    match r {
        None => None,
        Some(None) => Some(None),
        Some(Some(v)) => Some(Some(pairs_map(v@))),
    }
}

/// `serde_json::from_str::<Option<BTreeMap<String, String>>>`, the map handed
/// out as its pairs. The contract names what the parse gives and states that
/// the keys of a map are distinct; the order of the pairs is left unsaid.
#[verifier::external_body]
pub(crate) fn parse_string_map(text: &str) -> (r: Option<Option<Vec<(String, String)>>>)
    ensures
        string_map_view(r) == string_map_json(text@),
        r matches Some(Some(v)) ==> keys_distinct(v@),
{
    serde_json::from_str::<Option<std::collections::BTreeMap<String, String>>>(text).ok().map(
        |m| m.map(|m| m.into_iter().collect()),
    )
}

/// `serde_json::from_str::<BTreeMap<String, Vec<String>>>`, the map handed
/// out as its pairs. The contract names what the parse gives and states that
/// the keys of a map are distinct; the order of the pairs is left unsaid.
#[verifier::external_body]
pub(crate) fn parse_string_lists(text: &str) -> (r: Option<Vec<(String, Vec<String>)>>)
    ensures
        r is Some <==> string_lists_json(text@) is Some,
        r matches Some(v) ==> string_lists_json(text@) == Some(list_pairs_map(v@)) && keys_distinct(
            v@,
        ),
{
    serde_json::from_str::<std::collections::BTreeMap<String, Vec<String>>>(text).ok().map(
        |m| m.into_iter().collect(),
    )
}

} // verus!
