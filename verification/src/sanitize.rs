//! Sanitizing symbols and pairs for use inside file names.
//!
//! The characters `( ) : . \ /` are invalid or ambiguous in the dotted
//! bucket-file names, so every maximal run of them collapses to one `_`.

use vstd::prelude::*;

use crate::strutil::{chars_of, string_from_chars};

verus! {

/// Characters that may not appear in a symbol or pair token of a file name.
pub open spec fn is_forbidden_char(c: char) -> bool {
    c == '(' || c == ')' || c == ':' || c == '.' || c == '\\' || c == '/'
}

/// The sanitized tail of `s` from position `i` on; `in_run` says whether the
/// character before `i` was forbidden (so a current run already emitted `_`).
pub open spec fn sanitize_from(s: Seq<char>, i: int, in_run: bool) -> Seq<char>
    decreases s.len() - i,
{
    if i < 0 || i >= s.len() {
        Seq::empty()
    } else if is_forbidden_char(s[i]) {
        if in_run {
            sanitize_from(s, i + 1, true)
        } else {
            seq!['_'] + sanitize_from(s, i + 1, true)
        }
    } else {
        seq![s[i]] + sanitize_from(s, i + 1, false)
    }
}

/// `s` with every maximal run of forbidden characters collapsed to one `_`.
pub open spec fn sanitize(s: Seq<char>) -> Seq<char> {
    sanitize_from(s, 0, false)
}

/// No forbidden character survives sanitizing.
proof fn lemma_sanitize_from_safe(s: Seq<char>, i: int, in_run: bool)
    ensures
        forall|k: int|
            0 <= k < sanitize_from(s, i, in_run).len() ==> !is_forbidden_char(
                #[trigger] sanitize_from(s, i, in_run)[k],
            ),
    decreases s.len() - i,
{
    if i < 0 || i >= s.len() {
    } else if is_forbidden_char(s[i]) {
        lemma_sanitize_from_safe(s, i + 1, true);
        if !in_run {
            let tail = sanitize_from(s, i + 1, true);
            assert forall|k: int|
                0 <= k < sanitize_from(s, i, in_run).len() implies !is_forbidden_char(
                sanitize_from(s, i, in_run)[k],
            ) by {
                if k == 0 {
                    assert(sanitize_from(s, i, in_run)[k] == '_');
                } else {
                    assert(sanitize_from(s, i, in_run)[k] == tail[k - 1]);
                }
            }
        }
    } else {
        lemma_sanitize_from_safe(s, i + 1, false);
        let tail = sanitize_from(s, i + 1, false);
        assert forall|k: int|
            0 <= k < sanitize_from(s, i, in_run).len() implies !is_forbidden_char(
            sanitize_from(s, i, in_run)[k],
        ) by {
            if k == 0 {
                assert(sanitize_from(s, i, in_run)[k] == s[i]);
            } else {
                assert(sanitize_from(s, i, in_run)[k] == tail[k - 1]);
            }
        }
    }
}

/// Filename safety: a sanitized token never contains `( ) : . \ /`.
pub proof fn lemma_sanitize_safe(s: Seq<char>)
    ensures
        forall|k: int|
            0 <= k < sanitize(s).len() ==> !is_forbidden_char(#[trigger] sanitize(s)[k]),
{
    lemma_sanitize_from_safe(s, 0, false);
}

/// Replace every run of `( ) : . \ /` in `symbol` by a single `_`.
pub fn clean_symbol(symbol: &str) -> (r: String)
    ensures
        r@ == sanitize(symbol@),
{
    let cs = chars_of(symbol);
    let n = cs.len();
    let mut out: Vec<char> = Vec::new();
    let mut in_run: bool = false;
    let mut i: usize = 0;
    while i < n
        invariant
            n == cs@.len(),
            cs@ == symbol@,
            i <= n,
            sanitize(symbol@) == out@ + sanitize_from(symbol@, i as int, in_run),
        decreases n - i,
    {
        let ghost pre_out = out@;
        let ghost pre_run = in_run;
        let c = cs[i];
        if c == '(' || c == ')' || c == ':' || c == '.' || c == '\\' || c == '/' {
            if !in_run {
                out.push('_');
            }
            in_run = true;
        } else {
            out.push(c);
            in_run = false;
        }
        proof {
            assert(symbol@[i as int] == c);
            if is_forbidden_char(c) {
                if pre_run {
                    assert(sanitize_from(symbol@, i as int, true) == sanitize_from(
                        symbol@,
                        i as int + 1,
                        true,
                    ));
                } else {
                    assert(sanitize_from(symbol@, i as int, false) == seq!['_'] + sanitize_from(
                        symbol@,
                        i as int + 1,
                        true,
                    ));
                    assert(out@ =~= pre_out + seq!['_']);
                }
            } else {
                assert(sanitize_from(symbol@, i as int, pre_run) == seq![c] + sanitize_from(
                    symbol@,
                    i as int + 1,
                    false,
                ));
                assert(out@ =~= pre_out + seq![c]);
            }
            assert(out@ + sanitize_from(symbol@, i as int + 1, in_run) =~= pre_out + sanitize_from(
                symbol@,
                i as int,
                pre_run,
            ));
        }
        i = i + 1;
    }
    proof {
        assert(sanitize_from(symbol@, n as int, in_run) =~= Seq::<char>::empty());
        assert(sanitize(symbol@) =~= out@);
    }
    string_from_chars(&out)
}

} // verus!
