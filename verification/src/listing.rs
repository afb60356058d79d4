//! Listing the table: the records that pass a filter, in ascending order of
//! their names.

use vstd::prelude::*;
use crate::record::RecordView;
use crate::record::ServiceRecord;
use crate::record::views;
use crate::table::ServiceTable;
use crate::table::distinct_ids;
use crate::table::index_of;
use crate::table::lemma_index_of;
use crate::text::contains;
use crate::text::contains_text;
use crate::text::name_le;
use crate::text::text_le;
use crate::text::lemma_bytes_le_reflexive;
use crate::text::lemma_bytes_le_total;
use crate::text::lemma_bytes_le_transitive;
use vstd::utf8::encode_utf8;

verus! {

/// The filter as plain values.
pub open spec fn filter_view(filter: Option<&str>) -> Option<Seq<char>> {
    match filter {
        Some(f) => Some(f@),
        None => None,
    }
}

/// The row passes the filter: there is none, or its text is part of the
/// row's name or of its version.
pub open spec fn passes(r: RecordView, filter: Option<Seq<char>>) -> bool {
    filter matches Some(f) ==> contains_text(r.name, f) || contains_text(r.version, f)
}

/// `out` lists `rows` under `filter`: it holds the rows that pass, each once,
/// in ascending order of their names, rows of the same name in the order of
/// the table.
pub open spec fn is_listing(rows: Seq<RecordView>, filter: Option<Seq<char>>, out: Seq<RecordView>) -> bool {
    &&& forall|k: int|
        0 <= k < out.len() ==> rows.contains(#[trigger] out[k]) && passes(out[k], filter)
    &&& forall|i: int|
        0 <= i < rows.len() && passes(#[trigger] rows[i], filter) ==> out.contains(rows[i])
    &&& distinct_ids(out)
    &&& forall|k: int, l: int|
        0 <= k < l < out.len() ==> name_le((#[trigger] out[k]).name, (#[trigger] out[l]).name)
    &&& forall|k: int, l: int|
        0 <= k < l < out.len() && (#[trigger] out[k]).name == (#[trigger] out[l]).name
            ==> index_of(rows, out[k].id) < index_of(rows, out[l].id)
}

/// `out` holds the rows `rows[src[k]]`, ordered by name and, among names that
/// do not differ in the order, by their position in the table.
spec fn ranked(rows: Seq<RecordView>, out: Seq<RecordView>, src: Seq<int>) -> bool {
    &&& out.len() == src.len()
    &&& forall|k: int|
        0 <= k < out.len() ==> 0 <= #[trigger] src[k] < rows.len() && out[k] == rows[src[k]]
    &&& forall|k: int, l: int|
        0 <= k < l < out.len() ==> {
            &&& name_le((#[trigger] out[k]).name, (#[trigger] out[l]).name)
            &&& name_le(out[l].name, out[k].name) ==> src[k] < src[l]
        }
}

proof fn lemma_ranked_insert(
    rows: Seq<RecordView>,
    out: Seq<RecordView>,
    src: Seq<int>,
    p: int,
    i: int,
)
    requires
        ranked(rows, out, src),
        0 <= i < rows.len(),
        0 <= p <= out.len(),
        forall|k: int| 0 <= k < out.len() ==> #[trigger] src[k] < i,
        forall|k: int| 0 <= k < p ==> name_le((#[trigger] out[k]).name, rows[i].name),
        p < out.len() ==> !name_le(out[p].name, rows[i].name),
    ensures
        ranked(rows, out.insert(p, rows[i]), src.insert(p, i)),
{
    let r = rows[i];
    let out2 = out.insert(p, r);
    let src2 = src.insert(p, i);
    assert forall|k: int, l: int| 0 <= k < l < out2.len() implies {
        &&& name_le((#[trigger] out2[k]).name, (#[trigger] out2[l]).name)
        &&& name_le(out2[l].name, out2[k].name) ==> src2[k] < src2[l]
    } by {
        if l < p {
            assert(out2[k] == out[k] && out2[l] == out[l]);
        } else if l == p {
            assert(out2[k] == out[k]);
        } else if k == p {
            let l0 = l - 1;
            assert(out2[l] == out[l0]);
            if p < l0 {
                assert(name_le(out[p].name, out[l0].name));
            }
            if name_le(out[l0].name, r.name) {
                if p < l0 {
                    lemma_bytes_le_transitive(
                        encode_utf8(out[p].name),
                        encode_utf8(out[l0].name),
                        encode_utf8(r.name),
                    );
                }
                assert(false);
            }
            lemma_bytes_le_total(encode_utf8(r.name), encode_utf8(out[l0].name));
        } else if k < p {
            assert(out2[k] == out[k] && out2[l] == out[l - 1]);
        } else {
            assert(out2[k] == out[k - 1] && out2[l] == out[l - 1]);
        }
    }
    assert forall|k: int| 0 <= k < out2.len() implies 0 <= #[trigger] src2[k] < rows.len()
        && out2[k] == rows[src2[k]] by {
        if k < p {
            assert(src2[k] == src[k]);
        } else if k > p {
            assert(src2[k] == src[k - 1]);
        }
    }
}

impl ServiceTable {
    /// Copies of the records whose name or version holds `filter` (of all
    /// records where there is no filter), sorted by name.
    pub fn snapshot(&self, filter: Option<&str>) -> (out: Vec<ServiceRecord>)
        requires
            self.wf(),
        ensures
            is_listing(self@, filter_view(filter), views(out@)),
    {
        let ghost rows = self@;
        let ghost want = filter_view(filter);
        let n = self.len();
        let mut out: Vec<ServiceRecord> = Vec::new();
        let ghost mut src: Seq<int> = Seq::empty();
        let mut i: usize = 0;
        while i < n
            invariant
                rows == self@,
                want == filter_view(filter),
                n == rows.len(),
                i <= n,
                ranked(rows, views(out@), src),
                forall|k: int| 0 <= k < src.len() ==> #[trigger] src[k] < i && passes(
                    rows[src[k]],
                    want,
                ),
                forall|j: int|
                    0 <= j < i && passes(#[trigger] rows[j], want) ==> src.contains(j),
            decreases n - i,
        {
            let r = self.record_at(i);
            let wanted = match filter {
                Some(f) => contains(r.name.as_str(), f) || contains(r.version.as_str(), f),
                None => true,
            };
            if wanted {
                let mut p: usize = 0;
                let mut end: usize = out.len();
                while p < end
                    invariant
                        p <= end <= out.len(),
                        r@ == rows[i as int],
                        ranked(rows, views(out@), src),
                        forall|k: int|
                            0 <= k < p ==> name_le(
                                (#[trigger] views(out@)[k]).name,
                                rows[i as int].name,
                            ),
                        forall|k: int|
                            end <= k < out.len() ==> !name_le(
                                (#[trigger] views(out@)[k]).name,
                                rows[i as int].name,
                            ),
                    decreases end - p,
                {
                    let mid = p + (end - p) / 2;
                    let ghost o = views(out@);
                    let ghost name = rows[i as int].name;
                    if text_le(out[mid].name.as_str(), r.name.as_str()) {
                        assert forall|k: int| 0 <= k < mid + 1 implies name_le(
                            (#[trigger] o[k]).name,
                            name,
                        ) by {
                            if k < mid {
                                assert(name_le(o[k].name, o[mid as int].name));
                                lemma_bytes_le_transitive(
                                    encode_utf8(o[k].name),
                                    encode_utf8(o[mid as int].name),
                                    encode_utf8(name),
                                );
                            }
                        }
                        p = mid + 1;
                    } else {
                        assert forall|k: int| mid <= k < o.len() implies !name_le(
                            (#[trigger] o[k]).name,
                            name,
                        ) by {
                            if mid < k && name_le(o[k].name, name) {
                                assert(name_le(o[mid as int].name, o[k].name));
                                lemma_bytes_le_transitive(
                                    encode_utf8(o[mid as int].name),
                                    encode_utf8(o[k].name),
                                    encode_utf8(name),
                                );
                            }
                        }
                        end = mid;
                    }
                }
                let ghost before = views(out@);
                let ghost src_before = src;
                proof {
                    lemma_ranked_insert(rows, before, src, p as int, i as int);
                }
                out.insert(p, r.copy());
                proof {
                    src = src.insert(p as int, i as int);
                    assert(views(out@) =~= before.insert(p as int, rows[i as int]));
                    assert forall|k: int| 0 <= k < src.len() implies #[trigger] src[k] < i + 1
                        && passes(rows[src[k]], want) by {
                        if k < p {
                            assert(src[k] == src_before[k]);
                        } else if k > p {
                            assert(src[k] == src_before[k - 1]);
                        }
                    }
                    assert forall|j: int|
                        0 <= j < i + 1 && passes(#[trigger] rows[j], want) implies src.contains(
                        j,
                    ) by {
                        if j < i {
                            assert(src_before.contains(j));
                            let k0 = choose|k: int| 0 <= k < src_before.len() && src_before[k] == j;
                            if k0 < p {
                                assert(src[k0] == j);
                            } else {
                                assert(src[k0 + 1] == j);
                            }
                        } else {
                            assert(src[p as int] == j);
                        }
                    }
                }
            }
            i += 1;
        }
        proof {
            let o = views(out@);
            assert forall|k: int| 0 <= k < o.len() implies rows.contains(#[trigger] o[k])
                && passes(o[k], want) by {
                assert(o[k] == rows[src[k]]);
            }
            assert forall|j: int| 0 <= j < rows.len() && passes(
                #[trigger] rows[j],
                want,
            ) implies o.contains(rows[j]) by {
                assert(src.contains(j));
                let k0 = choose|k: int| 0 <= k < src.len() && src[k] == j;
                assert(o[k0] == rows[j]);
            }
            assert forall|k: int, l: int| 0 <= k < l < o.len() implies src[k] < src[l] || !(
            name_le((#[trigger] o[l]).name, (#[trigger] o[k]).name)) by {}
            assert forall|k: int, l: int|
                0 <= k < o.len() && 0 <= l < o.len() && k != l implies (#[trigger] o[k]).id != (
            #[trigger] o[l]).id by {
                if o[k].id == o[l].id {
                    lemma_index_of(rows, o[k].id, src[k]);
                    lemma_index_of(rows, o[l].id, src[l]);
                    lemma_bytes_le_reflexive(encode_utf8(o[k].name));
                    if k < l {
                        assert(name_le(o[l].name, o[k].name));
                    } else {
                        assert(name_le(o[k].name, o[l].name));
                    }
                }
            }
            assert forall|k: int, l: int|
                0 <= k < l < o.len() && (#[trigger] o[k]).name == (
                #[trigger] o[l]).name implies index_of(rows, o[k].id) < index_of(
                rows,
                o[l].id,
            ) by {
                lemma_index_of(rows, o[k].id, src[k]);
                lemma_index_of(rows, o[l].id, src[l]);
                lemma_bytes_le_reflexive(encode_utf8(o[k].name));
            }
        }
        out
    }
}

} // verus!
