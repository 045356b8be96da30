//! The sort stage: one bucket file in, its lines sorted by timestamp out.
//!
//! A sort worker loads every line of one bucket, keys each by its embedded
//! timestamp, and sorts. A bucket with any malformed line is aborted: its
//! lines are not written and the input stays in place.

use vstd::prelude::*;

use vstd::multiset::Multiset;
use vstd::string::StringSliceAdditionalSpecFns;

use crate::parsers::{embedded_timestamp, entry_view, extract_timestamp};

verus! {

broadcast use vstd::seq_lib::group_to_multiset_ensures;

/// Keyed entries in timestamp order.
pub open spec fn sorted_by_ts(s: Seq<(i64, String)>) -> bool {
    forall|i: int, j: int| 0 <= i < j < s.len() ==> s[i].0 <= s[j].0
}

/// The views of a sequence of keyed entries.
pub open spec fn entries_view(s: Seq<(i64, String)>) -> Seq<(i64, Seq<char>)> {
    s.map_values(|p: (i64, String)| entry_view(p))
}

/// Stable insertion sort of keyed entries, ascending by timestamp.
pub fn sort_by_timestamp(v: Vec<(i64, String)>) -> (r: Vec<(i64, String)>)
    ensures
        sorted_by_ts(r@),
        entries_view(r@).to_multiset() == entries_view(v@).to_multiset(),
{
    let mut src = v;
    let mut out: Vec<(i64, String)> = Vec::new();
    proof {
        assert(entries_view(out@) =~= Seq::<(i64, Seq<char>)>::empty());
        assert(entries_view(out@).to_multiset().add(entries_view(src@).to_multiset())
            =~= entries_view(v@).to_multiset());
    }
    while src.len() > 0
        invariant
            sorted_by_ts(out@),
            entries_view(out@).to_multiset().add(entries_view(src@).to_multiset())
                == entries_view(v@).to_multiset(),
        decreases src@.len(),
    {
        let ghost pre_src = src@;
        let x = src.remove(0);
        proof {
            assert(entries_view(pre_src.remove(0)) =~= entries_view(pre_src).remove(0));
            assert(entries_view(pre_src)[0] == entry_view(x));
        }
        let mut j: usize = 0;
        while j < out.len() && out[j].0 <= x.0
            invariant
                j <= out@.len(),
                forall|k: int| 0 <= k < j ==> out@[k].0 <= x.0,
            decreases out@.len() - j,
        {
            j = j + 1;
        }
        let ghost pre_out = out@;
        let ghost e = entry_view(x);
        out.insert(j, x);
        proof {
            assert(entries_view(pre_out.insert(j as int, x)) =~= entries_view(pre_out).insert(
                j as int,
                e,
            ));
            assert(entries_view(out@).to_multiset() == entries_view(pre_out).to_multiset().insert(
                e,
            ));
            assert(entries_view(src@).to_multiset() == entries_view(pre_src).to_multiset().remove(
                e,
            ));
            assert(entries_view(pre_src).to_multiset().count(e) > 0);
            assert(entries_view(out@).to_multiset().add(entries_view(src@).to_multiset())
                =~= entries_view(pre_out).to_multiset().add(entries_view(pre_src).to_multiset()));
            assert forall|a: int, b: int| 0 <= a < b < out@.len() implies out@[a].0 <= out@[b].0 by {
                if b == j as int {
                    assert(out@[a] == pre_out[a]);
                } else if a == j as int {
                    assert(out@[b] == pre_out[b - 1]);
                    assert(pre_out[j as int].0 > x.0 || j as int >= pre_out.len());
                } else if a < j as int && b > j as int {
                    assert(out@[a] == pre_out[a] && out@[b] == pre_out[b - 1]);
                } else {
                    assert(out@[a].0 <= out@[b].0);
                }
            }
        }
    }
    proof {
        assert(entries_view(src@) =~= Seq::<(i64, Seq<char>)>::empty());
        assert(entries_view(out@).to_multiset().add(Multiset::<(i64, Seq<char>)>::empty())
            =~= entries_view(out@).to_multiset());
        assert(entries_view(src@).to_multiset() =~= Multiset::<(i64, Seq<char>)>::empty());
    }
    out
}

/// The keyed entries of a bucket's lines: each readable line whose embedded
/// timestamp exists, keyed by it, in file order.
pub open spec fn keyed_entries(lines: Seq<Option<String>>) -> Seq<(i64, Seq<char>)>
    decreases lines.len(),
{
    if lines.len() == 0 {
        Seq::empty()
    } else {
        let rest = keyed_entries(lines.drop_first());
        if lines[0] is Some && embedded_timestamp(lines[0]->0@) is Some {
            seq![(embedded_timestamp(lines[0]->0@)->0, lines[0]->0@)] + rest
        } else {
            rest
        }
    }
}

/// How many of a bucket's lines are errors: unreadable lines and lines
/// without an embedded timestamp.
pub open spec fn error_count(lines: Seq<Option<String>>) -> int
    decreases lines.len(),
{
    if lines.len() == 0 {
        0int
    } else {
        (if lines[0] is None || embedded_timestamp(lines[0]->0@) is None {
            1int
        } else {
            0int
        }) + error_count(lines.drop_first())
    }
}

/// How many of a bucket's lines were readable at all.
pub open spec fn read_count(lines: Seq<Option<String>>) -> int
    decreases lines.len(),
{
    if lines.len() == 0 {
        0int
    } else {
        (if lines[0] is Some {
            1int
        } else {
            0int
        }) + read_count(lines.drop_first())
    }
}

/// Every keyed entry is keyed by the timestamp embedded in its line.
proof fn lemma_keyed_entries_keyed(lines: Seq<Option<String>>)
    ensures
        forall|e: (i64, Seq<char>)|
            keyed_entries(lines).contains(e) ==> embedded_timestamp(e.1) == Some(e.0),
    decreases lines.len(),
{
    if lines.len() == 0 {
    } else {
        lemma_keyed_entries_keyed(lines.drop_first());
        let rest = keyed_entries(lines.drop_first());
        assert forall|e: (i64, Seq<char>)|
            keyed_entries(lines).contains(e) implies embedded_timestamp(e.1) == Some(e.0) by {
            if lines[0] is Some && embedded_timestamp(lines[0]->0@) is Some {
                let i = choose|i: int|
                    0 <= i < keyed_entries(lines).len() && keyed_entries(lines)[i] == e;
                if i > 0 {
                    assert(rest[i - 1] == e);
                    assert(rest.contains(e));
                }
            }
        }
    }
}

/// The bytes a bucket's keyed entries hold in memory: eight per timestamp
/// plus each line's byte length.
pub open spec fn entries_memory(s: Seq<(i64, String)>) -> int
    decreases s.len(),
{
    if s.len() == 0 {
        0int
    } else {
        8 + (vstd::utf8::encode_utf8(s[0].1@).len() as usize) + entries_memory(s.drop_first())
    }
}

/// Measure what a bucket's entries hold in memory, to compare against the
/// reservation estimate. An entry takes tens of bytes at least, so a vector
/// in memory holds far fewer of them than the bound demanded here.
pub fn memory_usage_of(entries: &Vec<(i64, String)>) -> (r: u128)
    requires
        entries@.len() <= 0x0400_0000_0000_0000,
    ensures
        r == entries_memory(entries@),
{
    let n = entries.len();
    let mut acc: u128 = 0;
    let mut i: usize = 0;
    proof {
        assert(entries@.skip(0) =~= entries@);
    }
    while i < n
        invariant
            n == entries@.len(),
            n <= 0x0400_0000_0000_0000,
            i <= n,
            entries_memory(entries@) == acc + entries_memory(entries@.skip(i as int)),
            acc <= i * 0x1_0000_0000_0000_0008,
        decreases n - i,
    {
        let ghost tail = entries@.skip(i as int);
        proof {
            assert(tail[0] == entries@[i as int]);
            assert(tail.drop_first() =~= entries@.skip(i as int + 1));
            assert((i + 1) * 0x1_0000_0000_0000_0008 == i * 0x1_0000_0000_0000_0008
                + 0x1_0000_0000_0000_0008) by (nonlinear_arith);
            assert((i + 1) * 0x1_0000_0000_0000_0008 <= 0x0400_0000_0000_0000
                * 0x1_0000_0000_0000_0008) by (nonlinear_arith)
                requires
                    i + 1 <= 0x0400_0000_0000_0000,
            ;
        }
        let line: &String = &entries[i].1;
        let st: &str = line.as_str();
        let len = st.len();
        proof {
            assert(st@ == entries@[i as int].1@);
            assert(len == (vstd::utf8::encode_utf8(entries@[i as int].1@).len() as usize));
            assert(entries_memory(tail) == 8 + len + entries_memory(tail.drop_first()));
        }
        acc = acc + 8 + (len as u128);
        i = i + 1;
    }
    proof {
        assert(entries@.skip(n as int) =~= Seq::<(i64, String)>::empty());
    }
    acc
}

/// What the sort stage did with one bucket.
pub struct SortOutcome {
    /// Lines that could not be read or carried no timestamp.
    pub error_lines: u64,
    /// Lines read from the bucket.
    pub total_lines: u64,
    /// The bucket's entries sorted by timestamp; `None` when any line was an
    /// error, in which case the bucket is left as it is.
    pub sorted: Option<Vec<(i64, String)>>,
}

/// Key and sort the lines of one bucket.
///
/// `lines` holds each line of the gzip stream in order, `None` standing for
/// a line that could not be read. The bucket's sorted entries come back only
/// when no line was an error; the caller writes their lines in order,
/// deletes the input, and returns its reservation either way.
pub fn sort_bucket_lines(lines: Vec<Option<String>>) -> (r: SortOutcome)
    ensures
        r.total_lines == read_count(lines@),
        r.error_lines == error_count(lines@),
        (r.sorted is Some <==> error_count(lines@) == 0),
        r.sorted is Some ==> sorted_by_ts(r.sorted->0@),
        r.sorted is Some ==> entries_view(r.sorted->0@).to_multiset() == keyed_entries(
            lines@,
        ).to_multiset(),
        r.sorted is Some ==> forall|i: int|
            0 <= i < r.sorted->0@.len() ==> embedded_timestamp(#[trigger] r.sorted->0@[i].1@)
                == Some(r.sorted->0@[i].0),
{
    let n = lines.len();
    let mut entries: Vec<(i64, String)> = Vec::new();
    let mut errors: u64 = 0;
    let mut total: u64 = 0;
    let mut i: usize = 0;
    proof {
        assert(lines@.skip(0) =~= lines@);
        assert(entries_view(entries@) =~= Seq::<(i64, Seq<char>)>::empty());
    }
    while i < n
        invariant
            n == lines@.len(),
            i <= n,
            errors <= i,
            total <= i,
            errors == error_count(lines@) - error_count(lines@.skip(i as int)),
            total == read_count(lines@) - read_count(lines@.skip(i as int)),
            keyed_entries(lines@) == entries_view(entries@) + keyed_entries(lines@.skip(i as int)),
        decreases n - i,
    {
        let ghost tail = lines@.skip(i as int);
        let ghost pre_entries = entries_view(entries@);
        proof {
            assert(tail[0] == lines@[i as int]);
            assert(tail.drop_first() =~= lines@.skip(i as int + 1));
        }
        match &lines[i] {
            None => {
                errors = errors + 1;
            },
            Some(line) => {
                total = total + 1;
                match extract_timestamp(line.as_str()) {
                    None => {
                        errors = errors + 1;
                    },
                    Some(ts) => {
                        entries.push((ts, line.clone()));
                        proof {
                            assert(entries_view(entries@) =~= pre_entries + seq![
                                (ts, line@),
                            ]);
                            assert(pre_entries + (seq![(ts, line@)] + keyed_entries(
                                tail.drop_first(),
                            )) =~= (pre_entries + seq![(ts, line@)]) + keyed_entries(
                                tail.drop_first(),
                            ));
                        }
                    },
                }
            },
        }
        i = i + 1;
    }
    proof {
        assert(lines@.skip(n as int) =~= Seq::<Option<String>>::empty());
        assert(keyed_entries(lines@) =~= entries_view(entries@));
    }
    if errors == 0 {
        let sorted = sort_by_timestamp(entries);
        proof {
            lemma_keyed_entries_keyed(lines@);
            assert forall|k: int|
                0 <= k < sorted@.len() implies embedded_timestamp(#[trigger] sorted@[k].1@)
                == Some(sorted@[k].0) by {
                let e = entry_view(sorted@[k]);
                assert(entries_view(sorted@)[k] == e);
                assert(entries_view(sorted@).contains(e));
                assert(entries_view(sorted@).to_multiset().count(e) > 0);
                assert(keyed_entries(lines@).contains(e));
            }
        }
        SortOutcome { error_lines: errors, total_lines: total, sorted: Some(sorted) }
    } else {
        SortOutcome { error_lines: errors, total_lines: total, sorted: None }
    }
}

} // verus!
