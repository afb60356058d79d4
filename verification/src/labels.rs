//! The labels of a record: a mapping from keys to values, kept as pairs in
//! ascending order of their keys.

use vstd::prelude::*;
use vstd::utf8::encode_utf8;
use crate::text::lemma_bytes_decide_text;
use crate::text::lemma_bytes_le_antisymmetric;
use crate::text::lemma_bytes_le_total;
use crate::text::lemma_bytes_le_transitive;
use crate::text::name_le;
use crate::text::same_text;
use crate::text::text_le;

verus! {

/// The key `a` comes before the key `b`, and is another one.
pub open spec fn key_before(a: Seq<char>, b: Seq<char>) -> bool {
    name_le(a, b) && a != b
}

/// The pairs are a mapping: their keys ascend strictly, so none comes twice.
pub open spec fn is_mapping(labels: Seq<(Seq<char>, Seq<char>)>) -> bool {
    forall|i: int, j: int|
        0 <= i < j < labels.len() ==> key_before((#[trigger] labels[i]).0, (#[trigger] labels[j]).0)
}

/// Some pair has the key `key`.
pub open spec fn has_key(labels: Seq<(Seq<char>, Seq<char>)>, key: Seq<char>) -> bool {
    exists|i: int| 0 <= i < labels.len() && (#[trigger] labels[i]).0 == key
}

/// The mapping `labels` with `key` set to `value`: the pair takes the place
/// of the one with the same key, or its place among the keys where there is
/// none.
pub open spec fn put(labels: Seq<(Seq<char>, Seq<char>)>, key: Seq<char>, value: Seq<char>) -> Seq<
    (Seq<char>, Seq<char>),
>
    decreases labels.len(),
{
    if labels.len() == 0 {
        seq![(key, value)]
    } else if labels[0].0 == key {
        seq![(key, value)] + labels.drop_first()
    } else if name_le(key, labels[0].0) {
        seq![(key, value)] + labels
    } else {
        seq![labels[0]] + put(labels.drop_first(), key, value)
    }
}

/// The mapping that the pairs describe when they are set one after the
/// other, so that of two pairs with the same key the later one counts.
pub open spec fn canonical(pairs: Seq<(Seq<char>, Seq<char>)>) -> Seq<(Seq<char>, Seq<char>)>
    decreases pairs.len(),
{
    if pairs.len() == 0 {
        Seq::empty()
    } else {
        put(canonical(pairs.drop_last()), pairs.last().0, pairs.last().1)
    }
}

/// The key `a` that comes before `b`, which comes before `c`, comes before `c`.
pub proof fn lemma_key_before_transitive(a: Seq<char>, b: Seq<char>, c: Seq<char>)
    requires
        name_le(a, b),
        key_before(b, c),
    ensures
        key_before(a, c),
{
    lemma_bytes_le_transitive(encode_utf8(a), encode_utf8(b), encode_utf8(c));
    if a == c {
        lemma_bytes_le_antisymmetric(encode_utf8(b), encode_utf8(c));
        lemma_bytes_decide_text(b, c);
    }
}

/// Setting a key in a mapping gives a mapping, which holds the new pair and
/// beside it nothing but pairs that were there.
pub proof fn lemma_put_keeps_mapping(
    labels: Seq<(Seq<char>, Seq<char>)>,
    key: Seq<char>,
    value: Seq<char>,
)
    requires
        is_mapping(labels),
    ensures
        is_mapping(put(labels, key, value)),
        put(labels, key, value).contains((key, value)),
        forall|x: (Seq<char>, Seq<char>)|
            put(labels, key, value).contains(x) ==> x == (key, value) || labels.contains(x),
        forall|x: (Seq<char>, Seq<char>)|
            labels.contains(x) && x.0 != key ==> put(labels, key, value).contains(x),
    decreases labels.len(),
{
    let out = put(labels, key, value);
    assert forall|x: (Seq<char>, Seq<char>)| labels.contains(x) && x.0 != key implies out.contains(
        x,
    ) by {
        let k = choose|k: int| 0 <= k < labels.len() && labels[k] == x;
        if labels[0].0 == key {
            assert(out[k] == x);
        } else if name_le(key, labels[0].0) {
            assert(out[k + 1] == x);
        } else if k == 0 {
            assert(out[0] == x);
        } else {
            let rest = labels.drop_first();
            assert forall|i: int, j: int| 0 <= i < j < rest.len() implies key_before(
                (#[trigger] rest[i]).0,
                (#[trigger] rest[j]).0,
            ) by {
                assert(key_before(labels[i + 1].0, labels[j + 1].0));
            }
            lemma_put_keeps_mapping(rest, key, value);
            assert(rest[k - 1] == x);
            assert(rest.contains(x));
            let tail = put(rest, key, value);
            assert(tail.contains(x));
            let m = choose|m: int| 0 <= m < tail.len() && tail[m] == x;
            assert(out[m + 1] == x);
        }
    }
    if labels.len() == 0 {
        assert(out[0] == (key, value));
    } else if labels[0].0 == key {
        let rest = labels.drop_first();
        assert(out[0] == (key, value));
        assert forall|i: int, j: int| 0 <= i < j < out.len() implies key_before(
            (#[trigger] out[i]).0,
            (#[trigger] out[j]).0,
        ) by {
            assert(out[j] == labels[j]);
            assert(out[i].0 == labels[i].0);
        }
        assert forall|x: (Seq<char>, Seq<char>)| out.contains(x) implies x == (key, value)
            || labels.contains(x) by {
            let k = choose|k: int| 0 <= k < out.len() && out[k] == x;
            if k > 0 {
                assert(labels[k] == x);
            }
        }
    } else if name_le(key, labels[0].0) {
        assert(out[0] == (key, value));
        assert forall|i: int, j: int| 0 <= i < j < out.len() implies key_before(
            (#[trigger] out[i]).0,
            (#[trigger] out[j]).0,
        ) by {
            assert(out[j] == labels[j - 1]);
            if i == 0 {
                if j > 1 {
                    assert(key_before(labels[0].0, labels[j - 1].0));
                    lemma_key_before_transitive(key, labels[0].0, labels[j - 1].0);
                }
            } else {
                assert(out[i] == labels[i - 1]);
            }
        }
        assert forall|x: (Seq<char>, Seq<char>)| out.contains(x) implies x == (key, value)
            || labels.contains(x) by {
            let k = choose|k: int| 0 <= k < out.len() && out[k] == x;
            if k > 0 {
                assert(labels[k - 1] == x);
            }
        }
    } else {
        let rest = labels.drop_first();
        let tail = put(rest, key, value);
        assert forall|i: int, j: int| 0 <= i < j < rest.len() implies key_before(
            (#[trigger] rest[i]).0,
            (#[trigger] rest[j]).0,
        ) by {
            assert(key_before(labels[i + 1].0, labels[j + 1].0));
        }
        lemma_put_keeps_mapping(rest, key, value);
        lemma_bytes_le_total(encode_utf8(key), encode_utf8(labels[0].0));
        let k0 = choose|k: int| 0 <= k < tail.len() && tail[k] == (key, value);
        assert(out[k0 + 1] == (key, value));
        assert forall|i: int, j: int| 0 <= i < j < out.len() implies key_before(
            (#[trigger] out[i]).0,
            (#[trigger] out[j]).0,
        ) by {
            assert(out[j] == tail[j - 1]);
            if i == 0 {
                assert(tail.contains(tail[j - 1]));
                assert(tail[j - 1] == (key, value) || rest.contains(tail[j - 1]));
                if tail[j - 1] != (key, value) {
                    let m = choose|m: int| 0 <= m < rest.len() && rest[m] == tail[j - 1];
                    assert(key_before(labels[0].0, labels[m + 1].0));
                }
            } else {
                assert(out[i] == tail[i - 1]);
            }
        }
        assert forall|x: (Seq<char>, Seq<char>)| out.contains(x) implies x == (key, value)
            || labels.contains(x) by {
            let k = choose|k: int| 0 <= k < out.len() && out[k] == x;
            if k == 0 {
                assert(labels[0] == x);
            } else {
                assert(tail[k - 1] == x);
                assert(tail.contains(x));
                assert(x == (key, value) || rest.contains(x));
                if x != (key, value) {
                    let m = choose|m: int| 0 <= m < rest.len() && rest[m] == x;
                    assert(labels[m + 1] == x);
                }
            }
        }
    }
}

/// The pairs in canonical form are a mapping.
pub proof fn lemma_canonical_is_mapping(pairs: Seq<(Seq<char>, Seq<char>)>)
    ensures
        is_mapping(canonical(pairs)),
    decreases pairs.len(),
{
    if pairs.len() > 0 {
        lemma_canonical_is_mapping(pairs.drop_last());
        lemma_put_keeps_mapping(canonical(pairs.drop_last()), pairs.last().0, pairs.last().1);
    }
}

/// The value that the mapping `labels` has for `key`.
pub open spec fn value_of(labels: Seq<(Seq<char>, Seq<char>)>, key: Seq<char>) -> Option<Seq<char>> {
    if has_key(labels, key) {
        Some(labels[choose|i: int| 0 <= i < labels.len() && (#[trigger] labels[i]).0 == key].1)
    } else {
        None
    }
}

/// The value that the last of the pairs with the key `key` gives it.
pub open spec fn last_value(pairs: Seq<(Seq<char>, Seq<char>)>, key: Seq<char>) -> Option<Seq<char>>
    decreases pairs.len(),
{
    if pairs.len() == 0 {
        None
    } else if pairs.last().0 == key {
        Some(pairs.last().1)
    } else {
        last_value(pairs.drop_last(), key)
    }
}

/// In a mapping, a pair that is there gives its key its value.
pub proof fn lemma_value_of(labels: Seq<(Seq<char>, Seq<char>)>, i: int)
    requires
        is_mapping(labels),
        0 <= i < labels.len(),
    ensures
        value_of(labels, labels[i].0) == Some(labels[i].1),
{
    let key = labels[i].0;
    let j = choose|j: int| 0 <= j < labels.len() && (#[trigger] labels[j]).0 == key;
    if j < i {
        assert(key_before(labels[j].0, labels[i].0));
    } else if i < j {
        assert(key_before(labels[i].0, labels[j].0));
    }
}

/// Setting `key` gives `key` the new value and leaves every other key as it was.
pub proof fn lemma_put_sets_one_key(
    labels: Seq<(Seq<char>, Seq<char>)>,
    key: Seq<char>,
    value: Seq<char>,
    other: Seq<char>,
)
    requires
        is_mapping(labels),
    ensures
        value_of(put(labels, key, value), key) == Some(value),
        other != key ==> value_of(put(labels, key, value), other) == value_of(labels, other),
{
    let out = put(labels, key, value);
    lemma_put_keeps_mapping(labels, key, value);
    let k = choose|k: int| 0 <= k < out.len() && out[k] == (key, value);
    lemma_value_of(out, k);
    if other != key {
        if has_key(labels, other) {
            let i = choose|i: int| 0 <= i < labels.len() && (#[trigger] labels[i]).0 == other;
            lemma_value_of(labels, i);
            assert(labels.contains(labels[i]));
            assert(out.contains(labels[i]));
            let m = choose|m: int| 0 <= m < out.len() && out[m] == labels[i];
            lemma_value_of(out, m);
        } else if has_key(out, other) {
            let m = choose|m: int| 0 <= m < out.len() && (#[trigger] out[m]).0 == other;
            assert(out.contains(out[m]));
            assert(labels.contains(out[m]));
            let i = choose|i: int| 0 <= i < labels.len() && labels[i] == out[m];
            assert(labels[i].0 == other);
        }
    }
}

/// Sets `key` to `value` in the mapping `labels`.
pub fn put_label(labels: &mut Vec<(String, String)>, key: String, value: String)
    ensures
        final(labels).deep_view() == put(old(labels).deep_view(), key@, value@),
{
    let ghost all = labels.deep_view();
    let mut i: usize = 0;
    assert(all.skip(0) =~= all);
    assert(all.take(0) + put(all.skip(0), key@, value@) =~= put(all, key@, value@));
    while i < labels.len()
        invariant
            i <= labels.len(),
            labels.deep_view() == all,
            all == old(labels).deep_view(),
            all.take(i as int) + put(all.skip(i as int), key@, value@) == put(all, key@, value@),
        decreases labels.len() - i,
    {
        let ghost rest = all.skip(i as int);
        assert(rest[0] == labels@[i as int].deep_view());
        assert(rest.drop_first() =~= all.skip(i + 1));
        if same_text(labels[i].0.as_str(), key.as_str()) {
            assert(put(rest, key@, value@) == seq![(key@, value@)] + rest.drop_first());
            labels[i] = (key, value);
            assert(labels.deep_view() =~= all.take(i as int) + (seq![(key@, value@)]
                + rest.drop_first()));
            return ;
        }
        if text_le(key.as_str(), labels[i].0.as_str()) {
            assert(put(rest, key@, value@) == seq![(key@, value@)] + rest);
            labels.insert(i, (key, value));
            assert(labels.deep_view() =~= all.take(i as int) + (seq![(key@, value@)] + rest));
            return ;
        }
        assert(put(rest, key@, value@) == seq![rest[0]] + put(rest.drop_first(), key@, value@));
        assert(all.take(i + 1) + put(all.skip(i + 1), key@, value@) =~= all.take(i as int) + (seq![
            rest[0],
        ] + put(rest.drop_first(), key@, value@)));
        i += 1;
    }
    labels.push((key, value));
    assert(all.skip(all.len() as int) =~= Seq::<(Seq<char>, Seq<char>)>::empty());
    assert(labels.deep_view() =~= all.take(all.len() as int) + seq![(key@, value@)]);
}

/// The mapping that `pairs` describe, see [`canonical`].
pub fn normalize(pairs: &Vec<(String, String)>) -> (labels: Vec<(String, String)>)
    ensures
        labels.deep_view() == canonical(pairs.deep_view()),
        is_mapping(labels.deep_view()),
{
    let ghost all = pairs.deep_view();
    let mut labels: Vec<(String, String)> = Vec::new();
    let mut i: usize = 0;
    assert(all.take(0) =~= Seq::<(Seq<char>, Seq<char>)>::empty());
    assert(labels.deep_view() =~= canonical(all.take(0)));
    while i < pairs.len()
        invariant
            i <= pairs.len(),
            all == pairs.deep_view(),
            labels.deep_view() == canonical(all.take(i as int)),
        decreases pairs.len() - i,
    {
        proof {
            assert(all.take(i + 1).drop_last() =~= all.take(i as int));
            assert(all.take(i + 1).last() == pairs@[i as int].deep_view());
        }
        put_label(&mut labels, pairs[i].0.clone(), pairs[i].1.clone());
        i += 1;
    }
    proof {
        assert(all.take(pairs.len() as int) =~= all);
        lemma_canonical_is_mapping(all);
    }
    labels
}

} // verus!
