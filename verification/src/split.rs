//! The split stage: one capture line in, bucket emissions out.
//!
//! A split worker reads one hourly capture file and, line by line, decides
//! what to do: drop malformed lines, drop payloads already seen in this run,
//! route the rest to the per-symbol raw and parsed sinks under the day
//! filter. The decisions live here, verified; opening files, reading the
//! gzip stream and writing the sinks stay outside the library.

use vstd::prelude::*;

use vstd::string::StringExecFns;

use crate::dates::{
    day_index_of_parsed, day_index_of_received, days_from_civil_spec, dom_of_str, month_of_str,
    parsed_day_index, recv_day_index, valid_day_str, year_of_str,
};
use crate::dedup::{dedup_contents, registry_contents, DedupIndex, SymbolRegistry};
use crate::hashing::{content_hash, hash_content};
use crate::parsers::{
    entry_view, extract_symbol_checked, normalize_pair_checked, parse_l2_lines, parse_trade_lines,
};
use crate::sanitize::{clean_symbol, sanitize};
use crate::types::{
    is_blocked_market, is_blocked_market_spec, market_token, msg_token, MarketType, Message,
    MessageType,
};

verus! {

/// What one run of the split stage processes: one exchange, market type,
/// message type and day. The day is carried both as its `YYYY-MM-DD` string
/// (used inside file names) and as its day index (used by the day filter).
pub struct SplitTask {
    pub exchange: String,
    pub market_type: MarketType,
    pub msg_type: MessageType,
    pub day_str: String,
    pub day_index: i64,
}

impl SplitTask {
    /// The day string is a real date and the day index is its index.
    pub open spec fn wf(self) -> bool {
        valid_day_str(self.day_str@) && self.day_index == days_from_civil_spec(
            year_of_str(self.day_str@),
            month_of_str(self.day_str@),
            dom_of_str(self.day_str@),
        )
    }
}

/// The file names of the two sinks of one symbol, and the normalized pair
/// the parsed name was built from.
pub struct SinkNames {
    pub raw: String,
    pub parsed: String,
    pub pair: String,
}

/// What a split worker does with one symbol-bearing line.
pub struct Emission {
    /// The symbol the line belongs to, as extracted (not sanitized).
    pub symbol: String,
    /// `Some` when this line saw the symbol first: create both sinks.
    pub create: Option<SinkNames>,
    /// Append the original line to the raw sink.
    pub raw: bool,
    /// Lines to append to the parsed sink.
    pub parsed: Vec<String>,
    /// The line's message type was neither trade nor level-2 event: the run
    /// must stop after the appends above.
    pub unexpected: bool,
    /// The records the payload parser returned, as timestamp and line views;
    /// empty where no parser ran. `parsed` is exactly the day filter of it.
    pub source: Ghost<Seq<(i64, Seq<char>)>>,
}

/// The decision for one capture line.
pub enum LineOutcome {
    /// The line did not parse as a capture record: an error line.
    Malformed,
    /// The payload was already seen in this run: dropped silently.
    Duplicate,
    /// No symbol could be extracted from the payload: an error line.
    NoSymbol,
    /// The symbol's pair could not be normalized while creating its sinks:
    /// the run must stop.
    PairFailure,
    /// Append to the symbol's sinks.
    Emit(Emission),
}

/// Raw bucket file name:
/// `<E>.<M>.<T>.<sanitized symbol>.<day>.json.gz`.
pub open spec fn raw_bucket_name_spec(
    exchange: Seq<char>,
    market: Seq<char>,
    msg_type: Seq<char>,
    symbol: Seq<char>,
    day: Seq<char>,
) -> Seq<char> {
    exchange + "."@ + market + "."@ + msg_type + "."@ + sanitize(symbol) + "."@ + day
        + ".json.gz"@
}

/// Parsed bucket file name:
/// `<E>.<M>.<T>.<sanitized pair>.<sanitized symbol>.<day>.json.gz`.
pub open spec fn parsed_bucket_name_spec(
    exchange: Seq<char>,
    market: Seq<char>,
    msg_type: Seq<char>,
    pair: Seq<char>,
    symbol: Seq<char>,
    day: Seq<char>,
) -> Seq<char> {
    exchange + "."@ + market + "."@ + msg_type + "."@ + sanitize(pair) + "."@ + sanitize(symbol)
        + "."@ + day + ".json.gz"@
}

/// Build the raw bucket file name of a symbol.
pub fn raw_bucket_name(
    exchange: &str,
    market: MarketType,
    msg_type: MessageType,
    symbol: &str,
    day: &str,
) -> (r: String)
    ensures
        r@ == raw_bucket_name_spec(exchange@, market_token(market), msg_token(msg_type), symbol@, day@),
{
    let mut s = String::from_str(exchange);
    s.append(".");
    s.append(market.as_str());
    s.append(".");
    s.append(msg_type.as_str());
    s.append(".");
    let clean = clean_symbol(symbol);
    s.append(clean.as_str());
    s.append(".");
    s.append(day);
    s.append(".json.gz");
    proof {
        assert(s@ =~= raw_bucket_name_spec(
            exchange@,
            market_token(market),
            msg_token(msg_type),
            symbol@,
            day@,
        ));
    }
    s
}

/// Build the parsed bucket file name of a symbol.
pub fn parsed_bucket_name(
    exchange: &str,
    market: MarketType,
    msg_type: MessageType,
    pair: &str,
    symbol: &str,
    day: &str,
) -> (r: String)
    ensures
        r@ == parsed_bucket_name_spec(
            exchange@,
            market_token(market),
            msg_token(msg_type),
            pair@,
            symbol@,
            day@,
        ),
{
    let mut s = String::from_str(exchange);
    s.append(".");
    s.append(market.as_str());
    s.append(".");
    s.append(msg_type.as_str());
    s.append(".");
    let clean_pair = clean_symbol(pair);
    s.append(clean_pair.as_str());
    s.append(".");
    let clean = clean_symbol(symbol);
    s.append(clean.as_str());
    s.append(".");
    s.append(day);
    s.append(".json.gz");
    proof {
        assert(s@ =~= parsed_bucket_name_spec(
            exchange@,
            market_token(market),
            msg_token(msg_type),
            pair@,
            symbol@,
            day@,
        ));
    }
    s
}

/// The lines among `entries` whose timestamp falls on day `day`, in order.
pub open spec fn day_filtered(entries: Seq<(i64, Seq<char>)>, day: int) -> Seq<Seq<char>>
    decreases entries.len(),
{
    if entries.len() == 0 {
        Seq::empty()
    } else {
        let rest = day_filtered(entries.drop_first(), day);
        if parsed_day_index(entries[0].0 as int) == day {
            seq![entries[0].1] + rest
        } else {
            rest
        }
    }
}

/// Whether `l` is the line of an entry whose timestamp falls on `day`.
pub open spec fn from_day_entry(entries: Seq<(i64, Seq<char>)>, day: int, l: Seq<char>) -> bool {
    exists|i: int|
        0 <= i < entries.len() && l == #[trigger] entries[i].1 && parsed_day_index(
            entries[i].0 as int,
        ) == day
}

/// Day filter: every line the filter keeps is the line of an entry whose
/// timestamp falls on the requested day.
pub proof fn lemma_day_filtered_on_day(entries: Seq<(i64, Seq<char>)>, day: int)
    ensures
        forall|k: int|
            0 <= k < day_filtered(entries, day).len() ==> from_day_entry(
                entries,
                day,
                #[trigger] day_filtered(entries, day)[k],
            ),
    decreases entries.len(),
{
    if entries.len() == 0 {
    } else {
        lemma_day_filtered_on_day(entries.drop_first(), day);
        let rest = day_filtered(entries.drop_first(), day);
        assert forall|k: int|
            0 <= k < day_filtered(entries, day).len() implies from_day_entry(
            entries,
            day,
            day_filtered(entries, day)[k],
        ) by {
            if parsed_day_index(entries[0].0 as int) == day && k == 0 {
                assert(day_filtered(entries, day)[0] == entries[0].1);
            } else {
                let kk = if parsed_day_index(entries[0].0 as int) == day {
                    k - 1
                } else {
                    k
                };
                assert(day_filtered(entries, day)[k] == rest[kk]);
                assert(from_day_entry(entries.drop_first(), day, rest[kk]));
                let i = choose|i: int|
                    0 <= i < entries.drop_first().len() && rest[kk]
                        == #[trigger] entries.drop_first()[i].1 && parsed_day_index(
                        entries.drop_first()[i].0 as int,
                    ) == day;
                assert(entries.drop_first()[i] == entries[i + 1]);
                assert(day_filtered(entries, day)[k] == entries[i + 1].1 && parsed_day_index(
                    entries[i + 1].0 as int,
                ) == day);
            }
        }
    }
}

/// Keep the decoded lines whose timestamp falls on the given day.
fn filter_day(entries: Vec<(i64, String)>, day: i64) -> (r: Vec<String>)
    ensures
        r@.map_values(|s: String| s@) == day_filtered(
            entries@.map_values(|p: (i64, String)| entry_view(p)),
            day as int,
        ),
{
    let ghost gs = entries@.map_values(|p: (i64, String)| entry_view(p));
    let n = entries.len();
    let mut out: Vec<String> = Vec::new();
    let mut i: usize = 0;
    proof {
        assert(gs.skip(0) =~= gs);
        assert(out@.map_values(|s: String| s@) =~= Seq::<Seq<char>>::empty());
    }
    while i < n
        invariant
            n == entries@.len(),
            gs == entries@.map_values(|p: (i64, String)| entry_view(p)),
            i <= n,
            day_filtered(gs, day as int) == out@.map_values(|s: String| s@) + day_filtered(
                gs.skip(i as int),
                day as int,
            ),
        decreases n - i,
    {
        let ghost pre_out = out@.map_values(|s: String| s@);
        let ghost tail = gs.skip(i as int);
        let (ts, line) = (entries[i].0, entries[i].1.clone());
        proof {
            assert(tail[0] == entry_view(entries@[i as int]));
            assert(tail.drop_first() =~= gs.skip(i as int + 1));
        }
        if day_index_of_parsed(ts) == day {
            out.push(line);
            proof {
                assert(out@.map_values(|s: String| s@) =~= pre_out + seq![tail[0].1]);
                assert(pre_out + (seq![tail[0].1] + day_filtered(tail.drop_first(), day as int))
                    =~= (pre_out + seq![tail[0].1]) + day_filtered(tail.drop_first(), day as int));
            }
        }
        i = i + 1;
    }
    proof {
        assert(gs.skip(n as int) =~= Seq::<(i64, Seq<char>)>::empty());
        assert(day_filtered(gs, day as int) =~= out@.map_values(|s: String| s@));
    }
    out
}

/// Decide what to do with one capture line.
///
/// `msg` is the line decoded as a capture record, `None` when it did not
/// decode. The dedup index takes the payload hash in every decoded case; the
/// registry takes the symbol once one is extracted. A raw append happens iff
/// `received_at` falls on the task's day; parsed appends are exactly the day
/// filter of what the payload parser returned, except that level-2 events of
/// blocked markets are never parsed, and an unexpected message type stops
/// the run. Which symbol, pair and records the external parsers return is
/// not specified: every clause below holds whatever they hand back.
pub fn split_line(
    msg: &Option<Message>,
    task: &SplitTask,
    dedup: &mut DedupIndex,
    registry: &mut SymbolRegistry,
) -> (r: LineOutcome)
    requires
        task.wf(),
    ensures
        (r is Malformed <==> msg is None),
        msg is None ==> dedup_contents(*final(dedup)) == dedup_contents(*old(dedup)),
        msg is Some ==> dedup_contents(*final(dedup)) == dedup_contents(*old(dedup)).insert(
            content_hash(msg->0.json@),
        ),
        (r is Duplicate <==> msg is Some && dedup_contents(*old(dedup)).contains(
            content_hash(msg->0.json@),
        )),
        r is Malformed || r is Duplicate || r is NoSymbol ==> registry_contents(*final(registry))
            == registry_contents(*old(registry)),
        r is NoSymbol || r is PairFailure || r is Emit ==> msg is Some && !dedup_contents(
            *old(dedup),
        ).contains(content_hash(msg->0.json@)),
        r is PairFailure ==> exists|s: Seq<char>|
            !registry_contents(*old(registry)).contains(s) && registry_contents(*final(registry))
                == registry_contents(*old(registry)).insert(s),
        r is Emit ==> ({
            let m = msg->0;
            let em = r->Emit_0;
            &&& registry_contents(*final(registry)) == registry_contents(*old(registry)).insert(
                em.symbol@,
            )
            &&& (em.create is Some <==> !registry_contents(*old(registry)).contains(em.symbol@))
            &&& em.create is Some ==> em.create->0.raw@ == raw_bucket_name_spec(
                task.exchange@,
                market_token(task.market_type),
                msg_token(task.msg_type),
                em.symbol@,
                task.day_str@,
            )
            &&& em.create is Some ==> em.create->0.parsed@ == parsed_bucket_name_spec(
                task.exchange@,
                market_token(task.market_type),
                msg_token(task.msg_type),
                em.create->0.pair@,
                em.symbol@,
                task.day_str@,
            )
            &&& em.raw == (recv_day_index(m.received_at as int) == task.day_index as int)
            &&& em.unexpected == !(m.msg_type == MessageType::Trade || m.msg_type
                == MessageType::L2Event)
            &&& em.parsed@.map_values(|s: String| s@) == day_filtered(
                em.source@,
                task.day_index as int,
            )
            &&& (m.msg_type == MessageType::L2Event && is_blocked_market_spec(task.market_type))
                ==> em.source@ == Seq::<(i64, Seq<char>)>::empty()
            &&& em.unexpected ==> em.source@ == Seq::<(i64, Seq<char>)>::empty()
        }),
{
    match msg {
        None => LineOutcome::Malformed,
        Some(m) => {
            let h = hash_content(m.json.as_str());
            let is_new = dedup.offer(h);
            if !is_new {
                return LineOutcome::Duplicate;
            }
            let sym_opt = extract_symbol_checked(task.exchange.as_str(), task.market_type, m.json.as_str());
            match sym_opt {
                None => LineOutcome::NoSymbol,
                Some(symbol) => {
                    let first = registry.first_sight(&symbol);
                    let create: Option<SinkNames> = if first {
                        match normalize_pair_checked(symbol.as_str(), task.exchange.as_str()) {
                            None => {
                                return LineOutcome::PairFailure;
                            },
                            Some(pair) => {
                                let raw_name = raw_bucket_name(
                                    task.exchange.as_str(),
                                    task.market_type,
                                    task.msg_type,
                                    symbol.as_str(),
                                    task.day_str.as_str(),
                                );
                                let parsed_name = parsed_bucket_name(
                                    task.exchange.as_str(),
                                    task.market_type,
                                    task.msg_type,
                                    pair.as_str(),
                                    symbol.as_str(),
                                    task.day_str.as_str(),
                                );
                                Some(SinkNames { raw: raw_name, parsed: parsed_name, pair })
                            },
                        }
                    } else {
                        None
                    };
                    let raw = day_index_of_received(m.received_at) == task.day_index;
                    let mut parsed: Vec<String> = Vec::new();
                    let ghost mut source: Seq<(i64, Seq<char>)> = Seq::empty();
                    let mut unexpected = false;
                    match m.msg_type {
                        MessageType::L2Event => {
                            if !is_blocked_market(task.market_type) {
                                match parse_l2_lines(
                                    task.exchange.as_str(),
                                    m.market_type,
                                    m.json.as_str(),
                                    m.received_at,
                                ) {
                                    Some(entries) => {
                                        proof {
                                            source = entries@.map_values(
                                                |p: (i64, String)| entry_view(p),
                                            );
                                        }
                                        parsed = filter_day(entries, task.day_index);
                                    },
                                    None => {},
                                }
                            }
                        },
                        MessageType::Trade => {
                            match parse_trade_lines(
                                m.exchange.as_str(),
                                m.market_type,
                                m.json.as_str(),
                            ) {
                                Some(entries) => {
                                    proof {
                                        source = entries@.map_values(
                                            |p: (i64, String)| entry_view(p),
                                        );
                                    }
                                    parsed = filter_day(entries, task.day_index);
                                },
                                None => {},
                            }
                        },
                        _ => {
                            unexpected = true;
                        },
                    }
                    proof {
                        assert(Seq::<String>::empty().map_values(|s: String| s@)
                            =~= Seq::<Seq<char>>::empty());
                        assert(day_filtered(Seq::<(i64, Seq<char>)>::empty(), task.day_index as int)
                            =~= Seq::<Seq<char>>::empty());
                    }
                    LineOutcome::Emit(
                        Emission { symbol, create, raw, parsed, unexpected, source: Ghost(source) },
                    )
                },
            }
        },
    }
}

} // verus!
