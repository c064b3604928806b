//! Indentation of assertion lines in a validator log does not matter.

use crate::text::{
    begins, ends, is_white, law_pieces_join, law_pieces_of_two, law_single_piece, law_trimming,
    lines_of, pieces_of, trimmed_end, without_cr,
};
use crate::validator_log::{
    has_failure, has_version_1_4, is_complete, law_indentation_is_ignored, reports_failure,
    reports_version_1_4, summaries, summary_in, verdict,
};
use crate::validator_log_end::is_blank;
use vstd::prelude::*;

verus! {

/// Putting whitespace without a line feed in front of an assertion line never
/// changes the verdict. `front` is what comes before the line, and `rest` the
/// line and all that follows it.
pub proof fn law_indented_assertion(
    front: Seq<char>,
    white: Seq<char>,
    rest: Seq<char>,
    test_groups: Seq<char>,
)
    requires
        front.len() == 0 || front.last() == '\n',
        is_blank(white),
        !white.contains('\n'),
        begins(rest, "test assertion "@),
    ensures
        verdict(front + white + rest, test_groups) == verdict(front + rest, test_groups),
{
    let log = front + rest;
    let indented = front + white + rest;
    lemma_completeness(front, white, rest);
    let k = lemma_indented_lines(front, white, rest);
    let lines = lines_of(log);
    let line = lines[k];
    law_indentation_is_ignored(white, line);
    lemma_assertion_is_no_summary(white, line);
    lemma_replaced_line(lines, k, white + line);
    let others = lines_of(indented);
    assert forall|i: int| 0 <= i < lines.len() implies reports_failure(#[trigger] others[i])
        == reports_failure(lines[i]) && reports_version_1_4(others[i]) == reports_version_1_4(
        lines[i],
    ) by {}
    if has_failure(log) {
        let i = choose|i: int| 0 <= i < lines.len() && reports_failure(#[trigger] lines[i]);
        assert(reports_failure(others[i]));
    }
    if has_failure(indented) {
        let i = choose|i: int| 0 <= i < others.len() && reports_failure(#[trigger] others[i]);
        assert(reports_failure(lines[i]));
    }
    if has_version_1_4(log) {
        let i = choose|i: int| 0 <= i < lines.len() && reports_version_1_4(#[trigger] lines[i]);
        assert(reports_version_1_4(others[i]));
    }
    if has_version_1_4(indented) {
        let i = choose|i: int| 0 <= i < others.len() && reports_version_1_4(#[trigger] others[i]);
        assert(reports_version_1_4(lines[i]));
    }
}

/// The lines of the two logs are the same but for the one that is indented.
proof fn lemma_indented_lines(front: Seq<char>, white: Seq<char>, rest: Seq<char>) -> (k: int)
    requires
        front.len() == 0 || front.last() == '\n',
        !white.contains('\n'),
        begins(rest, "test assertion "@),
    ensures
        ({
            let lines = lines_of(front + rest);
            &&& 0 <= k < lines.len()
            &&& begins(lines[k], "test assertion "@)
            &&& lines_of(front + white + rest) == lines.update(k, white + lines[k])
        }),
{
    reveal_strlit("test assertion ");
    let pieces = pieces_of(rest, '\n');
    let others = pieces_of(white + rest, '\n');
    let first = pieces[0];
    lemma_indented_pieces(white, rest);
    lemma_first_piece(rest);
    law_pieces_join(rest, '\n');
    let before = if front.len() == 0 {
        Seq::<Seq<char>>::empty()
    } else {
        pieces_of(front.drop_last(), '\n')
    };
    let all = pieces_of(front + rest, '\n');
    let indented = pieces_of(front + white + rest, '\n');
    if front.len() == 0 {
        assert(front + rest =~= rest);
        assert(front + white + rest =~= white + rest);
        assert(all =~= before + pieces);
        assert(indented =~= before + others);
    } else {
        law_pieces_of_two(front.drop_last(), rest, '\n');
        law_pieces_of_two(front.drop_last(), white + rest, '\n');
        assert(front + rest =~= front.drop_last() + seq!['\n'] + rest);
        assert(front + white + rest =~= front.drop_last() + seq!['\n'] + (white + rest));
    }
    let k = before.len() as int;
    let n = all.len() as int;
    assert(indented =~= all.update(k, white + first));
    assert(all[k] == first);
    assert(first.subrange(0, 15) == "test assertion "@);
    assert(without_cr(white + first) =~= white + without_cr(first));
    assert(first[14] == first.subrange(0, 15)[14]);
    assert(without_cr(first).subrange(0, 15) =~= first.subrange(0, 15));
    let lines = lines_of(front + rest);
    let target = lines.update(k, white + lines[k]);
    if k == n - 1 {
        assert(all.last() == first);
        assert(indented.last() == white + first);
        assert(lines_of(front + white + rest) =~= target);
    } else {
        assert(all.last() == indented.last());
        assert(lines[k] == without_cr(first));
        assert(lines_of(front + white + rest) =~= target);
    }
    k
}

/// The first piece of a text that begins with an assertion does so too.
proof fn lemma_first_piece(s: Seq<char>)
    requires
        begins(s, "test assertion "@),
    ensures
        pieces_of(s, '\n').len() > 0,
        begins(pieces_of(s, '\n')[0], "test assertion "@),
    decreases s.len(),
{
    reveal_strlit("test assertion ");
    law_pieces_join(s, '\n');
    if s.len() == 15 {
        assert(s =~= "test assertion "@);
        assert(!s.contains('\n'));
        law_single_piece(s, '\n');
    } else {
        let shorter = s.drop_last();
        assert(shorter.subrange(0, 15) =~= s.subrange(0, 15));
        lemma_first_piece(shorter);
        let first = pieces_of(shorter, '\n')[0];
        let after = pieces_of(s, '\n')[0];
        assert(after == first || after == first.push(s.last()));
        assert(after.subrange(0, 15) =~= first.subrange(0, 15));
    }
}

/// What is put in front of a text without a separator goes to its first piece.
proof fn lemma_indented_pieces(white: Seq<char>, s: Seq<char>)
    requires
        !white.contains('\n'),
    ensures
        pieces_of(s, '\n').len() > 0,
        pieces_of(white + s, '\n') == pieces_of(s, '\n').update(
            0,
            white + pieces_of(s, '\n')[0],
        ),
    decreases s.len(),
{
    let whole = white + s;
    law_pieces_join(s, '\n');
    if s.len() == 0 {
        assert(whole =~= white);
        law_single_piece(white, '\n');
        assert(pieces_of(whole, '\n') =~= pieces_of(s, '\n').update(
            0,
            white + pieces_of(s, '\n')[0],
        ));
    } else {
        let shorter = s.drop_last();
        law_pieces_join(shorter, '\n');
        lemma_indented_pieces(white, shorter);
        assert(whole.drop_last() =~= white + shorter);
        let front = pieces_of(shorter, '\n');
        if s.last() != '\n' && front.len() == 1 {
            assert((white + front[0]).push(s.last()) =~= white + front[0].push(s.last()));
        }
        assert(pieces_of(whole, '\n') =~= pieces_of(s, '\n').update(
            0,
            white + pieces_of(s, '\n')[0],
        ));
    }
}

/// Both logs are complete or neither is.
proof fn lemma_completeness(front: Seq<char>, white: Seq<char>, rest: Seq<char>)
    requires
        begins(rest, "test assertion "@),
    ensures
        is_complete(front + white + rest) == is_complete(front + rest),
{
    lemma_complete_by_rest(front, rest);
    lemma_complete_by_rest(front + white, rest);
}

/// Whether a log with an assertion line is complete shows from that line on.
proof fn lemma_complete_by_rest(front: Seq<char>, rest: Seq<char>)
    requires
        begins(rest, "test assertion "@),
    ensures
        is_complete(front + rest) == is_complete(rest),
{
    reveal_strlit("test assertion ");
    reveal_strlit("test result done");
    let start = rest.subrange(0, 15);
    assert(rest[0] == start[0] && rest[13] == start[13]);
    law_trimming(rest);
    lemma_trimmed_end_behind(front, rest);
    let t = trimmed_end(rest);
    let whole = front + t;
    assert(t.len() > 13);
    assert(t[0] == 't');
    let done = "test result done"@;
    let n = whole.len() as int;
    let m = t.len() as int;
    if m >= 16 {
        assert(whole.subrange(n - 16, n) =~= t.subrange(m - 16, m));
    } else if ends(whole, done) {
        let at = 16 - m;
        assert(whole.subrange(n - 16, n)[at] == whole[n - m]);
        assert(whole[n - m] == t[0]);
        assert(done[at] == 't');
    }
}

/// Trimming the end of a text does not reach what stands before something else
/// than whitespace.
proof fn lemma_trimmed_end_behind(front: Seq<char>, s: Seq<char>)
    requires
        s.len() > 0,
        !is_white(s[0]),
    ensures
        trimmed_end(front + s) == front + trimmed_end(s),
    decreases s.len(),
{
    if is_white(s.last()) {
        assert((front + s).drop_last() =~= front + s.drop_last());
        lemma_trimmed_end_behind(front, s.drop_last());
    }
}

/// An assertion line is no summary, indented or not.
proof fn lemma_assertion_is_no_summary(white: Seq<char>, line: Seq<char>)
    requires
        is_blank(white),
        begins(line, "test assertion "@),
    ensures
        summary_in(line) is None,
        summary_in(white + line) is None,
{
    reveal_strlit("test assertion ");
    reveal_strlit("test suite (");
    assert(line[5] == line.subrange(0, 15)[5]);
    if begins(line, "test suite ("@) {
        assert(line[5] == line.subrange(0, 12)[5]);
    }
    let whole = white + line;
    if white.len() == 0 {
        assert(whole =~= line);
    } else if begins(whole, "test suite ("@) {
        assert(whole[0] == whole.subrange(0, 12)[0]);
        assert(whole[0] == white[0]);
    }
}

/// One line for another, neither of them a summary, leaves the summaries.
proof fn lemma_replaced_line(lines: Seq<Seq<char>>, k: int, line: Seq<char>)
    requires
        0 <= k < lines.len(),
        summary_in(lines[k]) is None,
        summary_in(line) is None,
    ensures
        summaries(lines.update(k, line)) == summaries(lines),
    decreases lines.len(),
{
    let others = lines.update(k, line);
    if k == lines.len() - 1 {
        assert(others.drop_last() =~= lines.drop_last());
    } else {
        assert(others.drop_last() =~= lines.drop_last().update(k, line));
        lemma_replaced_line(lines.drop_last(), k, line);
    }
}

} // verus!
