//! JSON as the hub writes and reads it. Objects and arrays are put together
//! here; how a string is escaped, and what a text means as JSON, is left to
//! `serde_json`.

use vstd::prelude::*;

verus! {

/// The JSON string literal that `serde_json` writes for `s`, quotes included.
pub uninterp spec fn json_string(s: Seq<char>) -> Seq<char>;

/// `text` as `serde_json` prints it in compact form after parsing it, where
/// it parses.
pub uninterp spec fn json_compact(text: Seq<char>) -> Option<Seq<char>>;

/// The member `key` of the JSON object that `text` parses to, as
/// `serde_json` prints it in compact form.
pub uninterp spec fn json_member(text: Seq<char>, key: Seq<char>) -> Option<Seq<char>>;

/// The member `key` of the JSON object that `text` parses to, where that
/// member is a string.
pub uninterp spec fn json_string_member(text: Seq<char>, key: Seq<char>) -> Option<Seq<char>>;

/// Writes `s` as a JSON string: `serde_json::Value::String` printed through
/// `Display`, which gives the compact literal with its escapes.
#[verifier::external_body]
pub(crate) fn quote(s: &str) -> (r: String)
    ensures
        r@ == json_string(s@),
{
    serde_json::Value::String(s.to_string()).to_string()
}

/// Parses `text` with `serde_json::from_str` and prints the value again
/// through `Display`. Nothing comes back where `text` does not parse.
#[verifier::external_body]
pub(crate) fn reprint(text: &str) -> (r: Option<String>)
    ensures
        r.is_some() == json_compact(text@).is_some(),
        r matches Some(s) ==> s@ == json_compact(text@).unwrap(),
{
    serde_json::from_str::<serde_json::Value>(text).ok().map(|v| v.to_string())
}

/// Parses `text` with `serde_json::from_str`, looks `key` up with
/// `Value::get` and prints what it finds. Nothing comes back where `text`
/// does not parse, is no object, or has no such member.
#[verifier::external_body]
pub(crate) fn lookup(text: &str, key: &str) -> (r: Option<String>)
    ensures
        r.is_some() == json_member(text@, key@).is_some(),
        r matches Some(s) ==> s@ == json_member(text@, key@).unwrap(),
{
    serde_json::from_str::<serde_json::Value>(text).ok().and_then(
        |v| v.get(key).map(|m| m.to_string()),
    )
}

/// As [`lookup`], but takes the member with `Value::as_str`: nothing comes
/// back either where the member is no string.
#[verifier::external_body]
pub(crate) fn lookup_string(text: &str, key: &str) -> (r: Option<String>)
    ensures
        r.is_some() == json_string_member(text@, key@).is_some(),
        r matches Some(s) ==> s@ == json_string_member(text@, key@).unwrap(),
{
    serde_json::from_str::<serde_json::Value>(text).ok().and_then(
        |v| v.get(key).and_then(|m| m.as_str()).map(|m| m.to_string()),
    )
}

/// The parts, separated by commas.
pub open spec fn joined(parts: Seq<Seq<char>>) -> Seq<char>
    decreases parts.len(),
{
    if parts.len() == 0 {
        Seq::empty()
    } else if parts.len() == 1 {
        parts[0]
    } else {
        joined(parts.drop_last()) + seq![','] + parts.last()
    }
}

/// A JSON array of items that are JSON already.
pub open spec fn array_text(items: Seq<Seq<char>>) -> Seq<char> {
    seq!['['] + joined(items) + seq![']']
}

/// One member of an object: the key as a string, a colon, the value, which
/// is JSON already.
pub open spec fn member_text(field: (Seq<char>, Seq<char>)) -> Seq<char> {
    json_string(field.0) + seq![':'] + field.1
}

/// The members of an object, each written out.
pub open spec fn members(fields: Seq<(Seq<char>, Seq<char>)>) -> Seq<Seq<char>> {
    Seq::new(fields.len(), |i: int| member_text(fields[i]))
}

/// A JSON object with the members `fields`, in their order.
pub open spec fn object_text(fields: Seq<(Seq<char>, Seq<char>)>) -> Seq<char> {
    seq!['{'] + joined(members(fields)) + seq!['}']
}

/// `true` or `false`.
pub open spec fn bool_text(b: bool) -> Seq<char> {
    if b {
        "true"@
    } else {
        "false"@
    }
}

/// The JSON strings of `items`.
pub open spec fn strings(items: Seq<Seq<char>>) -> Seq<Seq<char>> {
    Seq::new(items.len(), |i: int| json_string(items[i]))
}

/// The labels as members whose values are JSON strings.
pub open spec fn string_fields(labels: Seq<(Seq<char>, Seq<char>)>) -> Seq<(Seq<char>, Seq<char>)> {
    Seq::new(labels.len(), |i: int| (labels[i].0, json_string(labels[i].1)))
}

/// `b` as JSON.
pub fn boolean(b: bool) -> (r: String)
    ensures
        r@ == bool_text(b),
{
    if b {
        String::from_str("true")
    } else {
        String::from_str("false")
    }
}

/// Appends the parts to `out`, separated by commas.
fn push_joined(out: &mut String, parts: &Vec<String>)
    ensures
        final(out)@ == old(out)@ + joined(parts.deep_view()),
{
    let ghost all = parts.deep_view();
    let ghost start = out@;
    let mut i: usize = 0;
    assert(all.take(0) =~= Seq::<Seq<char>>::empty());
    assert(out@ =~= start + joined(all.take(0)));
    while i < parts.len()
        invariant
            i <= parts.len(),
            all == parts.deep_view(),
            out@ == start + joined(all.take(i as int)),
        decreases parts.len() - i,
    {
        let ghost so_far = all.take(i as int);
        let ghost next = all.take(i + 1);
        proof {
            assert(next.drop_last() =~= so_far);
            assert(next.last() == parts@[i as int]@);
        }
        if i > 0 {
            out.push(',');
        }
        out.append(parts[i].as_str());
        assert(out@ =~= start + joined(next));
        i += 1;
    }
    assert(all.take(parts.len() as int) =~= all);
}

/// A JSON array of `items`, each of which is JSON already.
pub fn array(items: &Vec<String>) -> (r: String)
    ensures
        r@ == array_text(items.deep_view()),
{
    let mut r = String::new();
    r.push('[');
    push_joined(&mut r, items);
    r.push(']');
    assert(r@ =~= array_text(items.deep_view()));
    r
}

/// A JSON object of `fields`: each a key and a value that is JSON already.
pub fn object(fields: &Vec<(String, String)>) -> (r: String)
    ensures
        r@ == object_text(fields.deep_view()),
{
    let mut parts: Vec<String> = Vec::new();
    let mut i: usize = 0;
    while i < fields.len()
        invariant
            i <= fields.len(),
            parts.len() == i,
            forall|j: int| 0 <= j < i ==> (#[trigger] parts@[j])@ == member_text(fields@[j].deep_view()),
        decreases fields.len() - i,
    {
        let mut part = quote(fields[i].0.as_str());
        part.push(':');
        part.append(fields[i].1.as_str());
        parts.push(part);
        i += 1;
    }
    assert(parts.deep_view() =~= members(fields.deep_view()));
    let mut r = String::new();
    r.push('{');
    push_joined(&mut r, &parts);
    r.push('}');
    assert(r@ =~= object_text(fields.deep_view()));
    r
}

/// The JSON strings of `items`.
pub fn string_list(items: &Vec<String>) -> (r: Vec<String>)
    ensures
        r.deep_view() == strings(items.deep_view()),
{
    let mut r: Vec<String> = Vec::new();
    let mut i: usize = 0;
    while i < items.len()
        invariant
            i <= items.len(),
            r.len() == i,
            forall|j: int| 0 <= j < i ==> (#[trigger] r@[j])@ == json_string(items@[j]@),
        decreases items.len() - i,
    {
        r.push(quote(items[i].as_str()));
        i += 1;
    }
    assert(r.deep_view() =~= strings(items.deep_view()));
    r
}

/// The labels as members whose values are JSON strings.
pub fn string_members(labels: &Vec<(String, String)>) -> (r: Vec<(String, String)>)
    ensures
        r.deep_view() == string_fields(labels.deep_view()),
{
    let mut r: Vec<(String, String)> = Vec::new();
    let mut i: usize = 0;
    while i < labels.len()
        invariant
            i <= labels.len(),
            r.len() == i,
            forall|j: int|
                0 <= j < i ==> (#[trigger] r@[j]).deep_view() == (
                    labels@[j].0@,
                    json_string(labels@[j].1@),
                ),
        decreases labels.len() - i,
    {
        r.push((labels[i].0.clone(), quote(labels[i].1.as_str())));
        i += 1;
    }
    assert(r.deep_view() =~= string_fields(labels.deep_view()));
    r
}

} // verus!
