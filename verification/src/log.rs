//! The log pane: newest line on top, at most 8 000 bytes kept.
use vstd::prelude::*;
use vstd::string::StringExecFns;

use crate::text::{byte_len, lemma_byte_len_prefix, longest_prefix_within, prefix_within_bytes};

verus! {

broadcast use vstd::string::group_string_axioms;

/// The most bytes the log keeps.
pub const LOG_LIMIT: usize = 8000;

/// The new line on top of the old log text.
pub open spec fn log_joined(line: Seq<char>, current: Seq<char>) -> Seq<char> {
    line + "\n"@ + current
}

/// The log after putting `line` on top of `current`: the two joined by a
/// line break, cut at the last character boundary at or below 8 000 bytes.
pub open spec fn prepended_log(line: Seq<char>, current: Seq<char>) -> Seq<char> {
    longest_prefix_within(log_joined(line, current), LOG_LIMIT as nat)
}

/// The log text after putting `line` on top of `current`.
pub fn prepend_log(current: &str, line: &str) -> (text: String)
    ensures
        text@ == prepended_log(line@, current@),
{
    let mut joined = line.to_owned();
    joined.append("\n");
    joined.append(current);
    prefix_within_bytes(joined.as_str(), LOG_LIMIT)
}

// ─── Laws ───────────────────────────────────────────────────────────────────

/// The longest prefix within `n` bytes takes at most `n` bytes, is a prefix,
/// and is the longest: one more character would not fit.
proof fn lemma_longest_prefix_props(s: Seq<char>, n: nat)
    ensures
        ({
            let r = longest_prefix_within(s, n);
            &&& byte_len(r) <= n
            &&& r.len() <= s.len()
            &&& s.take(r.len() as int) == r
            &&& r.len() < s.len() ==> byte_len(s.take(r.len() + 1int)) > n
        }),
    decreases s.len(),
{
    if byte_len(s) <= n || s.len() == 0 {
        assert(s.take(s.len() as int) =~= s);
        if s.len() == 0 {
            assert(vstd::utf8::encode_utf8(s) =~= Seq::<u8>::empty());
        }
    } else {
        let t = s.drop_last();
        lemma_longest_prefix_props(t, n);
        let r = longest_prefix_within(t, n);
        assert(s.take(r.len() as int) =~= t.take(r.len() as int));
        if r.len() < t.len() {
            assert(s.take(r.len() + 1int) =~= t.take(r.len() + 1int));
        } else {
            assert(s.take(r.len() + 1int) =~= s);
        }
    }
}

/// The log never holds more than 8 000 bytes.
pub proof fn law_log_stays_within_limit(line: Seq<char>, current: Seq<char>)
    ensures
        byte_len(prepended_log(line, current)) <= LOG_LIMIT,
{
    lemma_longest_prefix_props(log_joined(line, current), LOG_LIMIT as nat);
}

/// The new log is the start of the new line, a line break and the old log: the
/// newest entry comes first, and only the oldest text is dropped.
pub proof fn law_log_newest_first(line: Seq<char>, current: Seq<char>)
    ensures
        prepended_log(line, current).len() <= log_joined(line, current).len(),
        log_joined(line, current).take(prepended_log(line, current).len() as int)
            == prepended_log(line, current),
{
    lemma_longest_prefix_props(log_joined(line, current), LOG_LIMIT as nat);
}

/// The log keeps as much as fits: when text was dropped, one more character
/// would have gone past 8 000 bytes.
pub proof fn law_log_keeps_as_much_as_fits(line: Seq<char>, current: Seq<char>)
    ensures
        ({
            let j = log_joined(line, current);
            let r = prepended_log(line, current);
            r.len() < j.len() ==> byte_len(j.take(r.len() + 1int)) > LOG_LIMIT
        }),
{
    lemma_longest_prefix_props(log_joined(line, current), LOG_LIMIT as nat);
}

/// When the new line, the line break and the old log fit in 8 000 bytes,
/// nothing is dropped.
pub proof fn law_log_keeps_all_that_fits(line: Seq<char>, current: Seq<char>)
    requires
        byte_len(log_joined(line, current)) <= LOG_LIMIT,
    ensures
        prepended_log(line, current) == log_joined(line, current),
{
}

/// The new line is kept whole whenever it and its line break fit in 8 000
/// bytes.
pub proof fn law_log_keeps_new_line(line: Seq<char>, current: Seq<char>)
    requires
        byte_len(line + "\n"@) <= LOG_LIMIT,
    ensures
        prepended_log(line, current).len() >= line.len() + 1,
        prepended_log(line, current).take(line.len() as int) == line,
{
    reveal_strlit("\n");
    let j = log_joined(line, current);
    let k = (line + "\n"@).len() as int;
    assert(k == line.len() + 1);
    lemma_longest_prefix_props(j, LOG_LIMIT as nat);
    let r = prepended_log(line, current);
    assert(j.take(k) =~= line + "\n"@);
    if r.len() < k {
        // one more character than r is still within the new line and its break
        assert(j.take(r.len() + 1int) =~= (line + "\n"@).take(r.len() + 1int));
        lemma_byte_len_prefix(line + "\n"@, r.len() + 1int);
        assert(r.len() < j.len());
        assert(false);
    }
    assert(r.take(line.len() as int) =~= j.take(line.len() as int));
    assert(j.take(line.len() as int) =~= line);
}

} // verus!
