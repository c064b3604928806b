//! Whitespace behind a validator log does not matter.
//!
//! A complete log ends in `test result done`, whitespace aside. So its last
//! line is blank or holds that text at its end, and more whitespace makes no
//! such line a report, nor changes what it says.

use crate::text::{
    after_plus, all_digits, begins, halves, is_digit, is_first, is_white, lemma_first_position,
    lines_of, occurs, pieces_of, spelled_u32, stands_at, trimmed_end, trimmed_start, without_cr,
};
use crate::validator_log::{
    has_failure, has_version_1_4, is_complete, reports_failure, reports_version_1_4, summaries,
    summary_in, verdict,
};
use vstd::prelude::*;

verus! {

/// Whether all of `s` is whitespace.
pub open spec fn is_blank(s: Seq<char>) -> bool {
    forall|i: int| 0 <= i < s.len() ==> is_white(#[trigger] s[i])
}

/// Whether `test result done` ends in `s` at `m`, with only whitespace behind.
pub open spec fn done_at(s: Seq<char>, m: int) -> bool {
    &&& 16 <= m <= s.len()
    &&& s.subrange(m - 16, m) == "test result done"@
    &&& forall|i: int| m <= i < s.len() ==> is_white(#[trigger] s[i])
}

/// Whether `s` can be the last line of a complete log.
pub open spec fn is_last_line(s: Seq<char>) -> bool {
    is_blank(s) || exists|m: int| done_at(s, m)
}

/// Whether two last lines say the same: they report the same failures, no
/// version, and the same suite with an unreadable count of failures, if any.
pub open spec fn alike(s: Seq<char>, t: Seq<char>) -> bool {
    &&& reports_failure(s) == reports_failure(t)
    &&& !reports_version_1_4(s) && !reports_version_1_4(t)
    &&& match (summary_in(s), summary_in(t)) {
        (None, None) => true,
        (Some(a), Some(b)) => {
            &&& a.suite_name == b.suite_name
            &&& a.pass_count == b.pass_count
            &&& spelled_u32(a.fail_count) is None
            &&& spelled_u32(b.fail_count) is None
        },
        _ => false,
    }
}

/// Whitespace behind a log never changes the verdict.
pub proof fn law_trailing_whitespace_is_ignored(
    log: Seq<char>,
    white: Seq<char>,
    test_groups: Seq<char>,
)
    requires
        is_blank(white),
    ensures
        verdict(log + white, test_groups) == verdict(log, test_groups),
    decreases white.len(),
{
    if white.len() == 0 {
        assert(log + white =~= log);
    } else {
        let front = white.drop_last();
        law_trailing_whitespace_is_ignored(log, front, test_groups);
        assert(log + white =~= (log + front).push(white.last()));
        lemma_one_more(log + front, white.last(), test_groups);
    }
}

/// The law for one character.
proof fn lemma_one_more(log: Seq<char>, c: char, test_groups: Seq<char>)
    requires
        is_white(c),
    ensures
        verdict(log.push(c), test_groups) == verdict(log, test_groups),
{
    let longer = log.push(c);
    assert(longer.drop_last() =~= log);
    assert(trimmed_end(longer) == trimmed_end(log));
    if is_complete(log) {
        let pieces = pieces_of(log, '\n');
        let last = pieces.last();
        let front = pieces.drop_last().map_values(|p: Seq<char>| without_cr(p));
        lemma_last_piece(log, '\n');
        lemma_complete_log(log);
        let following = if c == '\n' {
            without_cr(last)
        } else {
            last.push(c)
        };
        assert(lines_of(longer) =~= front.push(following));
        if last.len() == 0 {
            assert(is_blank(following));
            lemma_blank_line(following);
            lemma_added_blank(log, longer, following, test_groups);
        } else {
            if c != '\n' {
                lemma_pushed_white(last, c);
            } else if last.last() == '\r' {
                let shorter = last.drop_last();
                lemma_popped_white(last);
                lemma_pushed_white(shorter, '\r');
                assert(shorter.push('\r') =~= last);
            } else {
                lemma_alone(last);
            }
            lemma_alike_last(log, longer, front, last, following, test_groups);
        }
    }
}

/// The last piece of a text is all that follows the last separator.
proof fn lemma_last_piece(s: Seq<char>, separator: char)
    ensures
        pieces_of(s, separator).len() > 0,
        ({
            let last = pieces_of(s, separator).last();
            &&& last.len() <= s.len()
            &&& s.skip(s.len() - last.len()) == last
            &&& last.len() < s.len() ==> s[s.len() - last.len() - 1] == separator
        }),
    decreases s.len(),
{
    if s.len() > 0 {
        lemma_last_piece(s.drop_last(), separator);
    }
}

/// The last piece of a complete log is a last line.
proof fn lemma_complete_log(log: Seq<char>)
    requires
        is_complete(log),
    ensures
        is_last_line(pieces_of(log, '\n').last()),
    decreases log.len(),
{
    reveal_strlit("test result done");
    if log.len() > 0 {
        let front = log.drop_last();
        let c = log.last();
        let last = pieces_of(log, '\n').last();
        lemma_last_piece(log, '\n');
        lemma_last_piece(front, '\n');
        if c == '\n' {
            assert(is_blank(last));
        } else if is_white(c) {
            lemma_complete_log(front);
            let before = pieces_of(front, '\n').last();
            assert(last == before.push(c));
            lemma_still_last(before, c);
        } else {
            let n = log.len() as int;
            assert(log.subrange(n - 16, n) == "test result done"@);
            assert forall|i: int| n - 16 <= i < n implies log[i] != '\n' by {
                assert(log[i] == log.subrange(n - 16, n)[i - (n - 16)]);
            }
            assert(last.len() >= 16);
            let m = last.len() as int;
            assert(last.subrange(m - 16, m) =~= log.subrange(n - 16, n));
            assert(done_at(last, m));
        }
    }
}

/// A last line stays one with more whitespace behind it.
proof fn lemma_still_last(s: Seq<char>, c: char)
    requires
        is_last_line(s),
        is_white(c),
    ensures
        is_last_line(s.push(c)),
{
    if !is_blank(s) {
        let m = choose|m: int| done_at(s, m);
        assert(s.push(c).subrange(m - 16, m) =~= s.subrange(m - 16, m));
        assert(done_at(s.push(c), m));
    }
}

/// A last line stays one with less whitespace behind it.
proof fn lemma_popped_white(s: Seq<char>)
    requires
        is_last_line(s),
        s.len() > 0,
        is_white(s.last()),
    ensures
        is_last_line(s.drop_last()),
{
    if !is_blank(s) {
        reveal_strlit("test result done");
        let m = choose|m: int| done_at(s, m);
        assert(s[m - 1] == s.subrange(m - 16, m)[15]);
        assert(m < s.len());
        assert(s.drop_last().subrange(m - 16, m) =~= s.subrange(m - 16, m));
        assert(done_at(s.drop_last(), m));
    }
}

/// The last character of a line that is done: whitespace or an `e`.
proof fn lemma_done_last(s: Seq<char>, m: int)
    requires
        done_at(s, m),
    ensures
        is_white(s.last()) || s.last() == 'e',
        s[m - 16] == 't',
{
    reveal_strlit("test result done");
    assert(s[m - 1] == s.subrange(m - 16, m)[15]);
    assert(s[m - 16] == s.subrange(m - 16, m)[0]);
}

/// A blank line says nothing.
proof fn lemma_blank_line(s: Seq<char>)
    requires
        is_blank(s),
    ensures
        !reports_failure(s),
        !reports_version_1_4(s),
        summary_in(s) is None,
{
    reveal_strlit("test assertion ");
    reveal_strlit("test assertion 1.1.5 - PASS response version_number_entry - 0x1400");
    reveal_strlit("test suite (");
    lemma_trimmed_blank(s);
    if begins(s, "test suite ("@) {
        assert(s[0] == s.subrange(0, 12)[0]);
    }
}

/// Nothing is left of a blank text.
proof fn lemma_trimmed_blank(s: Seq<char>)
    requires
        is_blank(s),
    ensures
        trimmed_start(s).len() == 0,
    decreases s.len(),
{
    if s.len() > 0 {
        lemma_trimmed_blank(s.drop_first());
    }
}

/// What is left of a line that is done is done, and keeps what is put behind
/// it.
proof fn lemma_trimmed_done(s: Seq<char>, m: int, c: char)
    requires
        done_at(s, m),
    ensures
        exists|k: int| done_at(trimmed_start(s), k),
        trimmed_start(s.push(c)) == trimmed_start(s).push(c),
    decreases s.len(),
{
    lemma_done_last(s, m);
    reveal_strlit("test result done");
    if is_white(s[0]) {
        let rest = s.drop_first();
        assert(rest.subrange(m - 17, m - 1) =~= s.subrange(m - 16, m));
        assert(done_at(rest, m - 1));
        lemma_trimmed_done(rest, m - 1, c);
        let k = choose|k: int| done_at(trimmed_start(rest), k);
        assert(done_at(trimmed_start(s), k));
        assert(s.push(c).drop_first() =~= rest.push(c));
    } else {
        assert(done_at(trimmed_start(s), m));
    }
}

/// A pattern stands in a longer text where it stood before, and nowhere else if
/// not at its end.
proof fn lemma_occurs_pushed(s: Seq<char>, c: char, pattern: Seq<char>)
    requires
        !stands_at(s.push(c), pattern, s.len() + 1 - pattern.len()),
    ensures
        forall|i: int|
            #![trigger stands_at(s.push(c), pattern, i)]
            #![trigger stands_at(s, pattern, i)]
            stands_at(s.push(c), pattern, i) == stands_at(s, pattern, i),
        occurs(s.push(c), pattern) == occurs(s, pattern),
{
    let t = s.push(c);
    assert forall|i: int|
        #![trigger stands_at(t, pattern, i)]
        #![trigger stands_at(s, pattern, i)]
        stands_at(t, pattern, i) == stands_at(s, pattern, i) by {
        if 0 <= i && i + pattern.len() <= s.len() {
            assert(t.subrange(i, i + pattern.len()) =~= s.subrange(i, i + pattern.len()));
        }
    }
    if occurs(t, pattern) {
        let i = choose|i: int| stands_at(t, pattern, i);
        assert(stands_at(s, pattern, i));
    }
}

/// The parts around a pattern, if it does not come to stand at the very end.
proof fn lemma_halves_pushed(s: Seq<char>, c: char, pattern: Seq<char>)
    requires
        !stands_at(s.push(c), pattern, s.len() + 1 - pattern.len()),
    ensures
        match halves(s, pattern) {
            Some((a, b)) => {
                &&& halves(s.push(c), pattern) == Some((a, b.push(c)))
                &&& b.len() > 0 ==> b.last() == s.last()
            },
            None => halves(s.push(c), pattern) is None,
        },
{
    let t = s.push(c);
    lemma_occurs_pushed(s, c, pattern);
    if occurs(s, pattern) {
        let w = choose|w: int| stands_at(s, pattern, w);
        lemma_first_position(s, pattern, w);
        let i = choose|i: int| is_first(s, pattern, i);
        assert(is_first(s, pattern, i));
        assert(is_first(t, pattern, i));
        let j = choose|j: int| is_first(t, pattern, j);
        assert(is_first(t, pattern, j));
        assert(stands_at(s, pattern, j));
        assert(i == j);
        assert(t.take(i) =~= s.take(i));
        assert(t.skip(i + pattern.len()) =~= s.skip(i + pattern.len()).push(c));
    }
}

/// A text that ends in no digit and no plus sign spells no number.
proof fn lemma_spells_nothing(s: Seq<char>)
    requires
        s.len() > 0 ==> !is_digit(s.last()) && s.last() != '+',
    ensures
        spelled_u32(s) is None,
{
    let digits = after_plus(s);
    if digits.len() > 0 && all_digits(digits) {
        assert(digits[digits.len() - 1] == s.last());
    }
}

/// A pattern that ends in a colon and a space does not come to stand at the end
/// of a text by one more character, unless the text ends in a colon.
proof fn lemma_no_new_end(s: Seq<char>, c: char, pattern: Seq<char>)
    requires
        pattern.len() >= 2,
        pattern[pattern.len() - 2] == ':',
        s.len() > 0 ==> s.last() != ':',
    ensures
        !stands_at(s.push(c), pattern, s.len() + 1 - pattern.len()),
{
    let t = s.push(c);
    let at = t.len() - pattern.len();
    if stands_at(t, pattern, at) {
        assert(t.subrange(at, at + pattern.len())[pattern.len() - 2] == t[t.len() - 2]);
    }
}

/// One more whitespace character behind a last line changes nothing.
proof fn lemma_pushed_white(s: Seq<char>, c: char)
    requires
        is_last_line(s),
        is_white(c),
    ensures
        alike(s, s.push(c)),
        alike(s.push(c), s),
{
    let t = s.push(c);
    if is_blank(s) {
        lemma_blank_line(s);
        lemma_blank_line(t);
    } else {
        let m = choose|m: int| done_at(s, m);
        lemma_done_last(s, m);
        lemma_trimmed_done(s, m, c);
        let u = trimmed_start(s);
        let k = choose|k: int| done_at(u, k);
        lemma_done_last(u, k);
        reveal_strlit("test assertion ");
        reveal_strlit(" - FAIL");
        reveal_strlit("test assertion 1.1.5 - PASS response version_number_entry - 0x1400");
        reveal_strlit("test suite (");
        reveal_strlit(") - pass: ");
        reveal_strlit(", fail: ");
        assert(u.push(c).subrange(0, 15) =~= u.subrange(0, 15));
        let fail = " - FAIL"@;
        let at = u.len() + 1 - 7;
        assert(!stands_at(u.push(c), fail, at)) by {
            if stands_at(u.push(c), fail, at) {
                assert(u.push(c).subrange(at, at + 7)[6] == c);
            }
        }
        lemma_occurs_pushed(u, c, fail);
        assert(reports_failure(s) == reports_failure(t));
        let version = "test assertion 1.1.5 - PASS response version_number_entry - 0x1400"@;
        assert(version.last() == '0');
        assert(u.last() != '0' && u.push(c).last() != '0');
        assert(!reports_version_1_4(s) && !reports_version_1_4(t));
        assert(t.subrange(0, 12) =~= s.subrange(0, 12));
        let rest = s.skip(12);
        assert(t.skip(12) =~= rest.push(c));
        lemma_no_new_end(rest, c, ") - pass: "@);
        lemma_halves_pushed(rest, c, ") - pass: "@);
        if let Some((_, counts)) = halves(rest, ") - pass: "@) {
            lemma_no_new_end(counts, c, ", fail: "@);
            lemma_halves_pushed(counts, c, ", fail: "@);
            if let Some((_, fail_count)) = halves(counts, ", fail: "@) {
                lemma_spells_nothing(fail_count);
                lemma_spells_nothing(fail_count.push(c));
            }
        }
    }
}

/// A last line is like itself.
proof fn lemma_alone(s: Seq<char>)
    requires
        is_last_line(s),
    ensures
        alike(s, s),
{
    lemma_pushed_white(s, ' ');
}

/// A blank line more does not change the verdict.
proof fn lemma_added_blank(
    log: Seq<char>,
    longer: Seq<char>,
    blank: Seq<char>,
    test_groups: Seq<char>,
)
    requires
        is_complete(log) == is_complete(longer),
        lines_of(longer) == lines_of(log).push(blank),
        !reports_failure(blank),
        !reports_version_1_4(blank),
        summary_in(blank) is None,
    ensures
        verdict(longer, test_groups) == verdict(log, test_groups),
{
    let lines = lines_of(log);
    assert(lines.push(blank).drop_last() =~= lines);
    lemma_reports_pushed(longer, lines, blank);
    if has_failure(log) {
        let i = choose|i: int| 0 <= i < lines.len() && reports_failure(#[trigger] lines[i]);
        assert(lines_of(longer)[i] == lines[i]);
    }
    if has_version_1_4(log) {
        let i = choose|i: int| 0 <= i < lines.len() && reports_version_1_4(#[trigger] lines[i]);
        assert(lines_of(longer)[i] == lines[i]);
    }
}

/// A report in a longer log is its last line's or an earlier one.
proof fn lemma_reports_pushed(longer: Seq<char>, front: Seq<Seq<char>>, last: Seq<char>)
    requires
        lines_of(longer) == front.push(last),
    ensures
        has_failure(longer) ==> reports_failure(last) || exists|i: int|
            0 <= i < front.len() && reports_failure(#[trigger] front[i]),
        has_version_1_4(longer) ==> reports_version_1_4(last) || exists|i: int|
            0 <= i < front.len() && reports_version_1_4(#[trigger] front[i]),
{
    let lines = lines_of(longer);
    if has_failure(longer) {
        let i = choose|i: int| 0 <= i < lines.len() && reports_failure(#[trigger] lines[i]);
        if i < front.len() {
            assert(front[i] == lines[i]);
        }
    }
    if has_version_1_4(longer) {
        let i = choose|i: int| 0 <= i < lines.len() && reports_version_1_4(#[trigger] lines[i]);
        if i < front.len() {
            assert(front[i] == lines[i]);
        }
    }
}

/// Logs that differ only in last lines that are alike get the same verdict.
proof fn lemma_alike_last(
    log: Seq<char>,
    other: Seq<char>,
    front: Seq<Seq<char>>,
    s: Seq<char>,
    t: Seq<char>,
    test_groups: Seq<char>,
)
    requires
        is_complete(log) == is_complete(other),
        lines_of(log) == front.push(s),
        lines_of(other) == front.push(t),
        alike(s, t),
    ensures
        verdict(other, test_groups) == verdict(log, test_groups),
{
    assert(front.push(s).drop_last() =~= front);
    assert(front.push(t).drop_last() =~= front);
    assert(lines_of(log)[front.len() as int] == s);
    assert(lines_of(other)[front.len() as int] == t);
    lemma_reports_pushed(log, front, s);
    lemma_reports_pushed(other, front, t);
    assert forall|i: int| 0 <= i < front.len() implies lines_of(log)[i] == #[trigger] front[i]
        && lines_of(other)[i] == front[i] by {}
    if summaries(front).len() == 0 && summary_in(s) is Some {
        assert(summaries(front.push(s)) =~= seq![summary_in(s)->0]);
        assert(summaries(front.push(t)) =~= seq![summary_in(t)->0]);
    }
}

} // verus!
