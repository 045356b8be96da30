//! Driver decisions: glob patterns, tallies, the error-ratio gate, and the
//! sort-stage plan.
//!
//! The pipeline runs the split stage to completion, gates on its error
//! ratio, then plans the sort stage: blocked markets lose their parsed
//! buckets, files are ordered smallest first, the largest decile may use the
//! external parallel codec, and each worker reserves five times its input
//! size before it starts. Launching threads, globbing and deleting files
//! happen outside the library, following the plan computed here.

use vstd::prelude::*;

use vstd::multiset::Multiset;
use vstd::string::StringExecFns;

use crate::dates::{civil_next, civil_next_spec, day_str_of_civil, format_day, CivilDay};
use crate::split::LineOutcome;
use crate::strutil::{chars_of, string_from_chars};
use crate::types::{
    is_blocked_market, is_blocked_market_spec, market_token, msg_token, MarketType, MessageType,
};

verus! {

/// Line counts of a stage, summed over its workers.
pub struct Tally {
    pub error_lines: u64,
    pub total_lines: u64,
}

/// Whether a split outcome counts as an error line.
pub open spec fn outcome_is_error(o: LineOutcome) -> bool {
    o is Malformed || o is NoSymbol
}

impl Tally {
    pub fn new() -> (r: Tally)
        ensures
            r.error_lines == 0 && r.total_lines == 0,
    {
        Tally { error_lines: 0, total_lines: 0 }
    }

    /// Count a line that could not be read from the stream: an error that is
    /// not a read line.
    pub fn record_read_error(&mut self)
        requires
            old(self).error_lines < u64::MAX,
        ensures
            final(self).error_lines == old(self).error_lines + 1,
            final(self).total_lines == old(self).total_lines,
    {
        self.error_lines = self.error_lines + 1;
    }

    /// Count one read line and its split outcome.
    pub fn record_outcome(&mut self, o: &LineOutcome)
        requires
            old(self).error_lines < u64::MAX,
            old(self).total_lines < u64::MAX,
        ensures
            final(self).total_lines == old(self).total_lines + 1,
            final(self).error_lines == old(self).error_lines + (if outcome_is_error(*o) {
                1int
            } else {
                0int
            }),
    {
        self.total_lines = self.total_lines + 1;
        match o {
            LineOutcome::Malformed => {
                self.error_lines = self.error_lines + 1;
            },
            LineOutcome::NoSymbol => {
                self.error_lines = self.error_lines + 1;
            },
            _ => {},
        }
    }

    /// Add another worker's counts.
    pub fn add(&mut self, error_lines: u64, total_lines: u64)
        requires
            old(self).error_lines + error_lines <= u64::MAX,
            old(self).total_lines + total_lines <= u64::MAX,
        ensures
            final(self).error_lines == old(self).error_lines + error_lines,
            final(self).total_lines == old(self).total_lines + total_lines,
    {
        self.error_lines = self.error_lines + error_lines;
        self.total_lines = self.total_lines + total_lines;
    }
}

/// Whether the split stage failed its gate: strictly more than one error
/// line per hundred lines read.
pub fn error_ratio_exceeded(error_lines: u64, total_lines: u64) -> (r: bool)
    ensures
        r == (100 * error_lines > total_lines),
{
    (error_lines as u128) * 100 > (total_lines as u128)
}

/// The rank from which a file is in the top decile by size.
pub fn percentile_90_index(len: usize) -> (r: usize)
    ensures
        r == len * 9 / 10,
{
    ((len as u128) * 9 / 10) as usize
}

/// Mode choice for one sort worker: the external parallel codec runs only
/// where it exists and the file's size rank is in the top decile.
pub fn use_parallel_codec(pixz_exists: bool, rank: usize, threshold: usize) -> (r: bool)
    ensures
        r == (pixz_exists && rank >= threshold),
{
    pixz_exists && rank >= threshold
}

/// The bytes a sort worker must reserve for a bucket of `size` bytes on
/// disk: five times the size, for gzip expansion and the in-memory entries.
pub fn estimated_memory_usage(size: u64) -> (r: i64)
    requires
        5 * size <= i64::MAX,
    ensures
        r == 5 * size,
{
    (size * 5) as i64
}

/// One bucket file the sort stage will process.
pub struct BucketFile {
    pub name: String,
    pub size: u64,
}

/// The view of a bucket file: its size and name.
pub open spec fn bucket_view(b: BucketFile) -> (u64, Seq<char>) {
    (b.size, b.name@)
}

pub open spec fn buckets_view(s: Seq<BucketFile>) -> Seq<(u64, Seq<char>)> {
    s.map_values(|b: BucketFile| bucket_view(b))
}

/// Files in ascending size order.
pub open spec fn sorted_by_size(s: Seq<BucketFile>) -> bool {
    forall|i: int, j: int| 0 <= i < j < s.len() ==> s[i].size <= s[j].size
}

/// Files in descending size order.
pub open spec fn sorted_by_size_desc(s: Seq<BucketFile>) -> bool {
    forall|i: int, j: int| 0 <= i < j < s.len() ==> s[i].size >= s[j].size
}

/// Stable insertion sort of bucket files, smallest first.
pub fn sort_files_ascending(v: Vec<BucketFile>) -> (r: Vec<BucketFile>)
    ensures
        sorted_by_size(r@),
        buckets_view(r@).to_multiset() == buckets_view(v@).to_multiset(),
{
    broadcast use vstd::seq_lib::group_to_multiset_ensures;

    let mut src = v;
    let mut out: Vec<BucketFile> = Vec::new();
    proof {
        assert(buckets_view(out@) =~= Seq::<(u64, Seq<char>)>::empty());
        assert(buckets_view(out@).to_multiset().add(buckets_view(src@).to_multiset())
            =~= buckets_view(v@).to_multiset());
    }
    while src.len() > 0
        invariant
            sorted_by_size(out@),
            buckets_view(out@).to_multiset().add(buckets_view(src@).to_multiset())
                == buckets_view(v@).to_multiset(),
        decreases src@.len(),
    {
        let ghost pre_src = src@;
        let x = src.remove(0);
        proof {
            assert(buckets_view(pre_src.remove(0)) =~= buckets_view(pre_src).remove(0));
            assert(buckets_view(pre_src)[0] == bucket_view(x));
        }
        let mut j: usize = 0;
        while j < out.len() && out[j].size <= x.size
            invariant
                j <= out@.len(),
                forall|k: int| 0 <= k < j ==> out@[k].size <= x.size,
            decreases out@.len() - j,
        {
            j = j + 1;
        }
        let ghost pre_out = out@;
        let ghost e = bucket_view(x);
        out.insert(j, x);
        proof {
            assert(buckets_view(pre_out.insert(j as int, x)) =~= buckets_view(pre_out).insert(
                j as int,
                e,
            ));
            vstd::seq_lib::to_multiset_insert(buckets_view(pre_out), j as int, e);
            vstd::seq_lib::to_multiset_remove(buckets_view(pre_src), 0);
            assert(buckets_view(out@).to_multiset() == buckets_view(pre_out).to_multiset().insert(
                e,
            ));
            assert(buckets_view(src@).to_multiset() == buckets_view(pre_src).to_multiset().remove(
                e,
            ));
            assert(buckets_view(pre_src).contains(e));
            vstd::seq_lib::to_multiset_contains(buckets_view(pre_src), e);
            assert(buckets_view(pre_src).to_multiset().count(e) > 0);
            assert(buckets_view(out@).to_multiset().add(buckets_view(src@).to_multiset())
                =~= buckets_view(pre_out).to_multiset().add(buckets_view(pre_src).to_multiset()));
            assert forall|a: int, b: int|
                0 <= a < b < out@.len() implies out@[a].size <= out@[b].size by {
                if b == j as int {
                    assert(out@[a] == pre_out[a]);
                } else if a == j as int {
                    assert(out@[b] == pre_out[b - 1]);
                } else if a < j as int && b > j as int {
                    assert(out@[a] == pre_out[a] && out@[b] == pre_out[b - 1]);
                } else {
                    assert(out@[a].size <= out@[b].size);
                }
            }
        }
    }
    proof {
        assert(buckets_view(src@) =~= Seq::<(u64, Seq<char>)>::empty());
        assert(buckets_view(src@).to_multiset() =~= Multiset::<(u64, Seq<char>)>::empty());
        assert(buckets_view(out@).to_multiset().add(Multiset::<(u64, Seq<char>)>::empty())
            =~= buckets_view(out@).to_multiset());
    }
    out
}

/// Stable insertion sort of bucket files, largest first: the split stage
/// takes the long pole first.
pub fn sort_files_descending(v: Vec<BucketFile>) -> (r: Vec<BucketFile>)
    ensures
        sorted_by_size_desc(r@),
        buckets_view(r@).to_multiset() == buckets_view(v@).to_multiset(),
{
    broadcast use vstd::seq_lib::group_to_multiset_ensures;

    let mut src = v;
    let mut out: Vec<BucketFile> = Vec::new();
    proof {
        assert(buckets_view(out@) =~= Seq::<(u64, Seq<char>)>::empty());
        assert(buckets_view(out@).to_multiset().add(buckets_view(src@).to_multiset())
            =~= buckets_view(v@).to_multiset());
    }
    while src.len() > 0
        invariant
            sorted_by_size_desc(out@),
            buckets_view(out@).to_multiset().add(buckets_view(src@).to_multiset())
                == buckets_view(v@).to_multiset(),
        decreases src@.len(),
    {
        let ghost pre_src = src@;
        let x = src.remove(0);
        proof {
            assert(buckets_view(pre_src.remove(0)) =~= buckets_view(pre_src).remove(0));
            assert(buckets_view(pre_src)[0] == bucket_view(x));
        }
        let mut j: usize = 0;
        while j < out.len() && out[j].size >= x.size
            invariant
                j <= out@.len(),
                forall|k: int| 0 <= k < j ==> out@[k].size >= x.size,
            decreases out@.len() - j,
        {
            j = j + 1;
        }
        let ghost pre_out = out@;
        let ghost e = bucket_view(x);
        out.insert(j, x);
        proof {
            assert(buckets_view(pre_out.insert(j as int, x)) =~= buckets_view(pre_out).insert(
                j as int,
                e,
            ));
            vstd::seq_lib::to_multiset_insert(buckets_view(pre_out), j as int, e);
            vstd::seq_lib::to_multiset_remove(buckets_view(pre_src), 0);
            assert(buckets_view(out@).to_multiset() == buckets_view(pre_out).to_multiset().insert(
                e,
            ));
            assert(buckets_view(src@).to_multiset() == buckets_view(pre_src).to_multiset().remove(
                e,
            ));
            assert(buckets_view(pre_src).contains(e));
            vstd::seq_lib::to_multiset_contains(buckets_view(pre_src), e);
            assert(buckets_view(pre_src).to_multiset().count(e) > 0);
            assert(buckets_view(out@).to_multiset().add(buckets_view(src@).to_multiset())
                =~= buckets_view(pre_out).to_multiset().add(buckets_view(pre_src).to_multiset()));
            assert forall|a: int, b: int|
                0 <= a < b < out@.len() implies out@[a].size >= out@[b].size by {
                if b == j as int {
                    assert(out@[a] == pre_out[a]);
                } else if a == j as int {
                    assert(out@[b] == pre_out[b - 1]);
                } else if a < j as int && b > j as int {
                    assert(out@[a] == pre_out[a] && out@[b] == pre_out[b - 1]);
                } else {
                    assert(out@[a].size >= out@[b].size);
                }
            }
        }
    }
    proof {
        assert(buckets_view(src@) =~= Seq::<(u64, Seq<char>)>::empty());
        assert(buckets_view(src@).to_multiset() =~= Multiset::<(u64, Seq<char>)>::empty());
        assert(buckets_view(out@).to_multiset().add(Multiset::<(u64, Seq<char>)>::empty())
            =~= buckets_view(out@).to_multiset());
    }
    out
}

/// The sort-stage plan for one run.
pub struct Stage2Plan {
    /// The market is blocked: the caller deletes every parsed bucket first.
    pub delete_parsed: bool,
    /// No raw bucket exists: the run fails.
    pub fail_no_raw: bool,
    /// The buckets to sort, smallest first.
    pub files: Vec<BucketFile>,
    /// Files ranked at or above this use the external parallel codec.
    pub threshold: usize,
}

/// Plan the sort stage from the bucket files the split stage left behind.
pub fn plan_stage2(market: MarketType, raw: Vec<BucketFile>, parsed: Vec<BucketFile>) -> (r:
    Stage2Plan)
    requires
        raw@.len() + parsed@.len() <= usize::MAX,
    ensures
        r.delete_parsed == is_blocked_market_spec(market),
        r.fail_no_raw == (raw@.len() == 0),
        sorted_by_size(r.files@),
        is_blocked_market_spec(market) ==> buckets_view(r.files@).to_multiset() == buckets_view(
            raw@,
        ).to_multiset(),
        !is_blocked_market_spec(market) ==> buckets_view(r.files@).to_multiset() == buckets_view(
            raw@ + parsed@,
        ).to_multiset(),
        r.threshold == r.files@.len() * 9 / 10,
{
    broadcast use vstd::seq_lib::group_to_multiset_ensures;

    let blocked = is_blocked_market(market);
    let fail_no_raw = raw.len() == 0;
    let ghost raw_snap = raw@;
    let mut combined = raw;
    if !blocked {
        let ghost parsed_snap = parsed@;
        let mut rest = parsed;
        combined.append(&mut rest);
        proof {
            assert(combined@ =~= raw_snap + parsed_snap);
        }
    }
    proof {
        if is_blocked_market_spec(market) {
            assert(combined@ =~= raw_snap);
        }
    }
    let files = sort_files_ascending(combined);
    let threshold = percentile_90_index(files.len());
    Stage2Plan { delete_parsed: blocked, fail_no_raw, files, threshold }
}

/// `name` with a final `.json.gz` replaced by `.json.xz`; `None` when the
/// name does not end in `.json.gz`.
pub fn final_bucket_name(name: &str) -> (r: Option<String>)
    ensures
        r is Some <==> name@.len() >= 8 && name@.subrange(
            name@.len() - 8,
            name@.len() as int,
        ) == ".json.gz"@,
        r is Some ==> r->0@ == name@.subrange(0, name@.len() - 8) + ".json.xz"@,
{
    let mut cs = chars_of(name);
    let n = cs.len();
    if n < 8 {
        proof {
            reveal_strlit(".json.gz");
        }
        return None;
    }
    let suffix: [char; 8] = ['.', 'j', 's', 'o', 'n', '.', 'g', 'z'];
    let mut k: usize = 0;
    proof {
        reveal_strlit(".json.gz");
        assert(suffix@ =~= ".json.gz"@);
    }
    while k < 8
        invariant
            8 <= n == cs@.len(),
            cs@ == name@,
            k <= 8,
            suffix@ == ".json.gz"@,
            forall|t: int| 0 <= t < k ==> cs@[n - 8 + t] == ".json.gz"@[t],
        decreases 8 - k,
    {
        if cs[n - 8 + k] != suffix[k] {
            proof {
                assert(name@.subrange(name@.len() - 8, name@.len() as int)[k as int] == cs@[n - 8
                    + k as int]);
            }
            return None;
        }
        k = k + 1;
    }
    proof {
        assert(name@.subrange(name@.len() - 8, name@.len() as int) =~= ".json.gz"@);
    }
    cs.truncate(n - 8);
    proof {
        assert(cs@ =~= name@.subrange(0, name@.len() - 8));
    }
    let stem = string_from_chars(&cs);
    let r = stem.concat(".json.xz");
    proof {
        assert(r@ =~= name@.subrange(0, name@.len() - 8) + ".json.xz"@);
    }
    Some(r)
}

/// Glob pattern of the split stage's own-day inputs:
/// `<dir>/**/<E>.<M>.<T>.<day>-??-??.json.gz`.
pub fn stage1_pattern(
    input_dir: &str,
    exchange: &str,
    market: MarketType,
    msg_type: MessageType,
    day: &str,
) -> (r: String)
    ensures
        r@ == input_dir@ + "/**/"@ + exchange@ + "."@ + market_token(market) + "."@ + msg_token(
            msg_type,
        ) + "."@ + day@ + "-??-??.json.gz"@,
{
    let mut s = String::from_str(input_dir);
    s.append("/**/");
    s.append(exchange);
    s.append(".");
    s.append(market.as_str());
    s.append(".");
    s.append(msg_type.as_str());
    s.append(".");
    s.append(day);
    s.append("-??-??.json.gz");
    proof {
        assert(s@ =~= input_dir@ + "/**/"@ + exchange@ + "."@ + market_token(market) + "."@
            + msg_token(msg_type) + "."@ + day@ + "-??-??.json.gz"@);
    }
    s
}

/// Glob pattern of the first hour of the day after `day`, whose captures may
/// still hold the day's messages:
/// `<dir>/**/<E>.<M>.<T>.<next day>-00-??.json.gz`.
pub fn next_day_pattern(
    input_dir: &str,
    exchange: &str,
    market: MarketType,
    msg_type: MessageType,
    day: CivilDay,
) -> (r: String)
    requires
        day.valid(),
        day.year < 9999 || !(day.month == 12 && day.day == 31),
    ensures
        r@ == input_dir@ + "/**/"@ + exchange@ + "."@ + market_token(market) + "."@ + msg_token(
            msg_type,
        ) + "."@ + day_str_of_civil(
            civil_next_spec(day.year as int, day.month as int, day.day as int).0,
            civil_next_spec(day.year as int, day.month as int, day.day as int).1,
            civil_next_spec(day.year as int, day.month as int, day.day as int).2,
        ) + "-00-??.json.gz"@,
{
    let next = civil_next(day);
    let next_chars = format_day(next);
    let next_str = string_from_chars(&next_chars);
    let mut s = String::from_str(input_dir);
    s.append("/**/");
    s.append(exchange);
    s.append(".");
    s.append(market.as_str());
    s.append(".");
    s.append(msg_type.as_str());
    s.append(".");
    s.append(next_str.as_str());
    s.append("-00-??.json.gz");
    proof {
        assert(s@ =~= input_dir@ + "/**/"@ + exchange@ + "."@ + market_token(market) + "."@
            + msg_token(msg_type) + "."@ + day_str_of_civil(
            civil_next_spec(day.year as int, day.month as int, day.day as int).0,
            civil_next_spec(day.year as int, day.month as int, day.day as int).1,
            civil_next_spec(day.year as int, day.month as int, day.day as int).2,
        ) + "-00-??.json.gz"@);
    }
    s
}

/// Glob pattern of the buckets one output tree holds for this run:
/// `<dir>/**/<E>.<M>.<T>.*.<day>.json.gz`.
pub fn stage2_pattern(
    out_dir: &str,
    exchange: &str,
    market: MarketType,
    msg_type: MessageType,
    day: &str,
) -> (r: String)
    ensures
        r@ == out_dir@ + "/**/"@ + exchange@ + "."@ + market_token(market) + "."@ + msg_token(
            msg_type,
        ) + ".*."@ + day@ + ".json.gz"@,
{
    let mut s = String::from_str(out_dir);
    s.append("/**/");
    s.append(exchange);
    s.append(".");
    s.append(market.as_str());
    s.append(".");
    s.append(msg_type.as_str());
    s.append(".*.");
    s.append(day);
    s.append(".json.gz");
    proof {
        assert(s@ =~= out_dir@ + "/**/"@ + exchange@ + "."@ + market_token(market) + "."@
            + msg_token(msg_type) + ".*."@ + day@ + ".json.gz"@);
    }
    s
}

/// The subdirectory one output tree uses for this run: `<T>/<E>/<M>`.
pub fn output_subdir(exchange: &str, market: MarketType, msg_type: MessageType) -> (r: String)
    ensures
        r@ == msg_token(msg_type) + "/"@ + exchange@ + "/"@ + market_token(market),
{
    let mut s = String::from_str(msg_type.as_str());
    s.append("/");
    s.append(exchange);
    s.append("/");
    s.append(market.as_str());
    proof {
        assert(s@ =~= msg_token(msg_type) + "/"@ + exchange@ + "/"@ + market_token(market));
    }
    s
}

} // verus!
