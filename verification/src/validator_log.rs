//! Judging the log that a run of the SPDM responder validator leaves behind.
//!
//! A run counts as passed only if the log is complete, holds exactly one suite
//! summary with passing and without failing assertions, and shows no failed
//! assertion. Where the `VERSION` group was selected, the responder must also
//! have advertised SPDM 1.4.

use crate::text::{
    begins, chars_of, contains, decimal, ends, ends_with, halves, is_white, joined,
    law_begins_and_ends, law_halves, law_indentation_is_trimmed, law_joined_pieces, law_occurs,
    law_split_of_joined, law_trimming, lines, lines_of, occurs, parse_u32, pieces_of, push_chars,
    push_decimal, same, spelled_u32, split, split_once, starts_with, strip_prefix, texts, trim,
    trim_end, trim_start, trimmed, trimmed_end, trimmed_start,
};
use vstd::prelude::*;

verus! {

/// The three parts of a suite summary: the suite's name, the number of passed
/// assertions and that of failed ones.
pub struct Summary {
    pub suite_name: Seq<char>,
    pub pass_count: Seq<char>,
    pub fail_count: Seq<char>,
}

/// The summary in `line`, if it is one: `test suite (`, the name,
/// `) - pass: `, a count, `, fail: ` and another count.
pub open spec fn summary_in(line: Seq<char>) -> Option<Summary> {
    if !begins(line, "test suite ("@) {
        None
    } else {
        match halves(line.skip("test suite ("@.len() as int), ") - pass: "@) {
            None => None,
            Some((suite_name, counts)) => match halves(counts, ", fail: "@) {
                None => None,
                Some((pass_count, fail_count)) => Some(
                    Summary { suite_name, pass_count, fail_count },
                ),
            },
        }
    }
}

/// The summaries among `lines`, in their order.
pub open spec fn summaries(lines: Seq<Seq<char>>) -> Seq<Summary>
    decreases lines.len(),
{
    if lines.len() == 0 {
        Seq::empty()
    } else {
        match summary_in(lines.last()) {
            Some(summary) => summaries(lines.drop_last()).push(summary),
            None => summaries(lines.drop_last()),
        }
    }
}

/// Whether the log was written to its end.
pub open spec fn is_complete(log: Seq<char>) -> bool {
    ends(trimmed_end(log), "test result done"@)
}

/// Whether `line` reports a failed assertion.
pub open spec fn reports_failure(line: Seq<char>) -> bool {
    begins(trimmed_start(line), "test assertion "@) && occurs(trimmed_start(line), " - FAIL"@)
}

/// Whether `line` reports that the responder advertised SPDM 1.4.
pub open spec fn reports_version_1_4(line: Seq<char>) -> bool {
    trimmed_start(line) == "test assertion 1.1.5 - PASS response version_number_entry - 0x1400"@
}

/// Whether some line of the log reports a failed assertion.
pub open spec fn has_failure(log: Seq<char>) -> bool {
    exists|i: int|
        0 <= i < lines_of(log).len() && reports_failure(#[trigger] lines_of(log)[i])
}

/// Whether some line of the log reports that the responder advertised SPDM 1.4.
pub open spec fn has_version_1_4(log: Seq<char>) -> bool {
    exists|i: int|
        0 <= i < lines_of(log).len() && reports_version_1_4(#[trigger] lines_of(log)[i])
}

/// Whether the comma-separated list `test_groups` names `group`, whitespace
/// aside.
pub open spec fn selects(test_groups: Seq<char>, group: Seq<char>) -> bool {
    exists|i: int|
        0 <= i < pieces_of(test_groups, ',').len() && trimmed(
            #[trigger] pieces_of(test_groups, ',')[i],
        ) == group
}

/// The report on a passed run.
pub open spec fn report(
    suite_name: Seq<char>,
    pass_count: u32,
    fail_count: u32,
    test_groups: Seq<char>,
) -> Seq<char> {
    "SPDM validator suite "@ + suite_name + ": pass="@ + decimal(pass_count as nat) + ", fail="@
        + decimal(fail_count as nat) + "; selected_groups="@ + if test_groups.len() == 0 {
        "ALL"@
    } else {
        test_groups
    }
}

/// What the log of a run with `test_groups` amounts to: a report, or why the
/// run does not count as passed.
pub open spec fn verdict(log: Seq<char>, test_groups: Seq<char>) -> Result<Seq<char>, Seq<char>> {
    let found = summaries(lines_of(log));
    let pass_count = spelled_u32(found[0].pass_count);
    let fail_count = spelled_u32(found[0].fail_count);
    if !is_complete(log) {
        Err("log does not end with a complete test result"@)
    } else if found.len() == 0 {
        Err("expected one suite summary, found none"@)
    } else if found.len() > 1 {
        Err("expected one suite summary, found multiple"@)
    } else if pass_count is None {
        Err("suite pass count is invalid"@)
    } else if fail_count is None {
        Err("suite fail count is invalid"@)
    } else if pass_count->0 == 0 {
        Err("suite executed zero passing assertions"@)
    } else if fail_count->0 != 0 {
        Err("suite recorded "@ + decimal(fail_count->0 as nat) + " failed assertions"@)
    } else if has_failure(log) {
        Err("log contains a failed assertion"@)
    } else if selects(test_groups, "VERSION"@) && !has_version_1_4(log) {
        Err("VERSION did not advertise a passing 0x1400 entry"@)
    } else {
        Ok(report(found[0].suite_name, pass_count->0, fail_count->0, test_groups))
    }
}

/// Whether `line` reports a failed assertion.
fn is_failure(line: &[char]) -> (r: bool)
    ensures
        r == reports_failure(line@),
{
    let line = trim_start(line);
    starts_with(line, chars_of("test assertion ").as_slice()) && contains(
        line,
        chars_of(" - FAIL").as_slice(),
    )
}

/// Whether `line` reports that the responder advertised SPDM 1.4.
fn is_version_1_4(line: &[char]) -> (r: bool)
    ensures
        r == reports_version_1_4(line@),
{
    same(
        trim_start(line),
        chars_of(
            "test assertion 1.1.5 - PASS response version_number_entry - 0x1400",
        ).as_slice(),
    )
}

/// The name and the two counts of the summary in `line`, if it is one.
fn parse_summary<'a>(line: &'a [char]) -> (r: Option<(&'a [char], &'a [char], &'a [char])>)
    ensures
        match r {
            Some((suite_name, pass_count, fail_count)) => summary_in(line@) == Some(
                Summary {
                    suite_name: suite_name@,
                    pass_count: pass_count@,
                    fail_count: fail_count@,
                },
            ),
            None => summary_in(line@) is None,
        },
{
    match strip_prefix(line, chars_of("test suite (").as_slice()) {
        None => None,
        Some(summary) => match split_once(summary, chars_of(") - pass: ").as_slice()) {
            None => None,
            Some((suite_name, counts)) => match split_once(
                counts,
                chars_of(", fail: ").as_slice(),
            ) {
                None => None,
                Some((pass_count, fail_count)) => Some((suite_name, pass_count, fail_count)),
            },
        },
    }
}

/// Whether the comma-separated list `test_groups` names `VERSION`.
fn selects_version(test_groups: &[char]) -> (r: bool)
    ensures
        r == selects(test_groups@, "VERSION"@),
{
    let groups = split(test_groups, ',');
    let ghost all = pieces_of(test_groups@, ',');
    let wanted = chars_of("VERSION");
    let mut i: usize = 0;
    while i < groups.len()
        invariant
            i <= groups@.len(),
            all == pieces_of(test_groups@, ','),
            texts(groups@) == all,
            groups@.len() == all.len(),
            wanted@ == "VERSION"@,
            forall|j: int| 0 <= j < i ==> trimmed(#[trigger] all[j]) != "VERSION"@,
        decreases groups.len() - i,
    {
        assert(groups@[i as int]@ == all[i as int]);
        if same(trim(groups[i]), wanted.as_slice()) {
            return true;
        }
        i += 1;
    }
    false
}

/// Judges the log of a run of the validator with `test_groups`; an empty list
/// stands for all groups.
pub fn check_spdm_responder_validator_results(log: &str, test_groups: &str) -> (r: Result<
    String,
    String,
>)
    ensures
        match r {
            Ok(message) => verdict(log@, test_groups@) == Ok::<Seq<char>, Seq<char>>(message@),
            Err(message) => verdict(log@, test_groups@) == Err::<Seq<char>, Seq<char>>(message@),
        },
{
    let log_chars = chars_of(log);
    let log_text = log_chars.as_slice();
    if !ends_with(trim_end(log_text), chars_of("test result done").as_slice()) {
        return Err("log does not end with a complete test result".to_owned());
    }
    let all_lines = lines(log_text);
    let ghost all = lines_of(log@);
    let mut first: Option<(&[char], &[char], &[char])> = None;
    let mut failure = false;
    let mut version_1_4 = false;
    let mut i: usize = 0;
    while i < all_lines.len()
        invariant
            i <= all_lines@.len(),
            all == lines_of(log@),
            texts(all_lines@) == all,
            all_lines@.len() == all.len(),
            log_text@ == log@,
            is_complete(log@),
            match first {
                Some((suite_name, pass_count, fail_count)) => summaries(all.take(i as int))
                    == seq![
                    Summary {
                        suite_name: suite_name@,
                        pass_count: pass_count@,
                        fail_count: fail_count@,
                    },
                ],
                None => summaries(all.take(i as int)) == Seq::<Summary>::empty(),
            },
            failure <==> exists|j: int| 0 <= j < i && reports_failure(#[trigger] all[j]),
            version_1_4 <==> exists|j: int| 0 <= j < i && reports_version_1_4(#[trigger] all[j]),
        decreases all_lines.len() - i,
    {
        let line = all_lines[i];
        assert(all.take(i + 1).drop_last() =~= all.take(i as int));
        match parse_summary(line) {
            Some(summary) => {
                if first.is_some() {
                    proof {
                        lemma_summaries_of_prefix(all, i + 1);
                    }
                    return Err("expected one suite summary, found multiple".to_owned());
                }
                first = Some(summary);
            },
            None => {},
        }
        if is_failure(line) {
            failure = true;
        }
        if is_version_1_4(line) {
            version_1_4 = true;
        }
        i += 1;
    }
    assert(all.take(i as int) =~= all);
    let (suite_name, pass_text, fail_text) = match first {
        Some(summary) => summary,
        None => {
            return Err("expected one suite summary, found none".to_owned());
        },
    };
    let pass_count: u32 = match parse_u32(pass_text) {
        Some(n) => n,
        None => {
            return Err("suite pass count is invalid".to_owned());
        },
    };
    let fail_count: u32 = match parse_u32(fail_text) {
        Some(n) => n,
        None => {
            return Err("suite fail count is invalid".to_owned());
        },
    };
    if pass_count == 0 {
        return Err("suite executed zero passing assertions".to_owned());
    }
    if fail_count != 0 {
        let mut message = "suite recorded ".to_owned();
        push_decimal(&mut message, fail_count as u64);
        message.append(" failed assertions");
        return Err(message);
    }
    if failure {
        return Err("log contains a failed assertion".to_owned());
    }
    let groups = chars_of(test_groups);
    if selects_version(groups.as_slice()) && !version_1_4 {
        return Err("VERSION did not advertise a passing 0x1400 entry".to_owned());
    }
    let mut message = "SPDM validator suite ".to_owned();
    push_chars(&mut message, suite_name);
    message.append(": pass=");
    push_decimal(&mut message, pass_count as u64);
    message.append(", fail=");
    push_decimal(&mut message, fail_count as u64);
    message.append("; selected_groups=");
    if groups.len() == 0 {
        message.append("ALL");
    } else {
        message.append(test_groups);
    }
    Ok(message)
}

/// Later lines take no summary away.
proof fn lemma_summaries_of_prefix(lines: Seq<Seq<char>>, i: int)
    requires
        0 <= i <= lines.len(),
    ensures
        summaries(lines.take(i)).len() <= summaries(lines).len(),
    decreases lines.len(),
{
    if i == lines.len() {
        assert(lines.take(i) =~= lines);
    } else {
        lemma_summaries_of_prefix(lines.drop_last(), i);
        assert(lines.drop_last().take(i) =~= lines.take(i));
    }
}

/// A run passes exactly if its log is complete, has one summary with at least
/// one passed and no failed assertion, reports no failed assertion, and, where
/// `VERSION` was selected, reports that SPDM 1.4 was advertised.
pub proof fn law_passed_run(log: Seq<char>, test_groups: Seq<char>)
    ensures
        verdict(log, test_groups) is Ok <==> {
            let found = summaries(lines_of(log));
            &&& is_complete(log)
            &&& found.len() == 1
            &&& spelled_u32(found[0].pass_count) matches Some(passed)
            &&& passed > 0
            &&& spelled_u32(found[0].fail_count) == Some(0u32)
            &&& !has_failure(log)
            &&& selects(test_groups, "VERSION"@) ==> has_version_1_4(log)
        },
{
}

/// Selecting groups never makes a failed run pass: a run that passes with a
/// selection passes without one too.
pub proof fn law_selection_only_demands_more(log: Seq<char>, test_groups: Seq<char>)
    requires
        verdict(log, test_groups) is Ok,
    ensures
        verdict(log, Seq::empty()) is Ok,
{
    reveal_strlit("VERSION");
    assert(!selects(Seq::empty(), "VERSION"@));
}

/// A summary says nothing but what its line says: the line is made of the fixed
/// texts, the name and the two counts.
pub proof fn law_summary_is_the_line(line: Seq<char>)
    ensures
        summary_in(line) matches Some(s) ==> line == "test suite ("@ + s.suite_name
            + ") - pass: "@ + s.pass_count + ", fail: "@ + s.fail_count,
{
    reveal_strlit("test suite (");
    reveal_strlit(") - pass: ");
    reveal_strlit(", fail: ");
    law_begins_and_ends("test suite ("@, line);
    let rest = line.skip("test suite ("@.len() as int);
    law_halves(rest, ") - pass: "@);
    if let Some((_, counts)) = halves(rest, ") - pass: "@) {
        law_halves(counts, ", fail: "@);
    }
    if let Some(s) = summary_in(line) {
        assert(line =~= "test suite ("@ + s.suite_name + ") - pass: "@ + s.pass_count + ", fail: "@
            + s.fail_count);
    }
}

/// A line that is made of the fixed texts, a name and two counts is a summary of
/// them, whatever they are, unless a fixed text occurs earlier already.
pub proof fn law_summary_is_found(name: Seq<char>, pass_count: Seq<char>, fail_count: Seq<char>)
    requires
        !occurs((name + ") - pass: "@).drop_last(), ") - pass: "@),
        !occurs((pass_count + ", fail: "@).drop_last(), ", fail: "@),
    ensures
        summary_in(
            "test suite ("@ + name + ") - pass: "@ + pass_count + ", fail: "@ + fail_count,
        ) == Some(Summary { suite_name: name, pass_count, fail_count }),
{
    reveal_strlit("test suite (");
    reveal_strlit(") - pass: ");
    reveal_strlit(", fail: ");
    let counts = pass_count + ", fail: "@ + fail_count;
    let rest = name + ") - pass: "@ + counts;
    let line = "test suite ("@ + name + ") - pass: "@ + pass_count + ", fail: "@ + fail_count;
    assert(line =~= "test suite ("@ + rest);
    law_begins_and_ends("test suite ("@, rest);
    assert(line.skip("test suite ("@.len() as int) =~= rest);
    law_split_of_joined(name, ") - pass: "@, counts);
    law_split_of_joined(pass_count, ", fail: "@, fail_count);
}

/// Indentation does not matter to what a line reports of assertions: with any
/// whitespace in front it reports a failure, or SPDM 1.4, exactly if it does
/// without.
pub proof fn law_indentation_is_ignored(white: Seq<char>, line: Seq<char>)
    requires
        forall|i: int| 0 <= i < white.len() ==> is_white(#[trigger] white[i]),
    ensures
        reports_failure(white + line) == reports_failure(line),
        reports_version_1_4(white + line) == reports_version_1_4(line),
        reports_version_1_4(
            white + "test assertion 1.1.5 - PASS response version_number_entry - 0x1400"@,
        ),
{
    let entry = "test assertion 1.1.5 - PASS response version_number_entry - 0x1400"@;
    reveal_strlit("test assertion 1.1.5 - PASS response version_number_entry - 0x1400");
    law_indentation_is_trimmed(white, line);
    law_indentation_is_trimmed(white, entry);
    assert(trimmed_start(entry) == entry);
}

/// What lines report: SPDM 1.4 is the one text behind whitespace, and a failure
/// is `test assertion ` behind whitespace with ` - FAIL` anywhere in the line.
pub proof fn law_reporting_lines(line: Seq<char>, before: Seq<char>, behind: Seq<char>)
    ensures
        reports_version_1_4(line) ==> exists|n: int|
            0 <= n <= line.len() && #[trigger] line.skip(n)
                == "test assertion 1.1.5 - PASS response version_number_entry - 0x1400"@ && (
            forall|i: int| 0 <= i < n ==> is_white(#[trigger] line[i])),
        reports_failure("test assertion "@ + before + " - FAIL"@ + behind),
        reports_failure(line) ==> exists|n: int|
            0 <= n <= line.len() && begins(#[trigger] line.skip(n), "test assertion "@) && occurs(
                line.skip(n),
                " - FAIL"@,
            ) && (forall|i: int| 0 <= i < n ==> is_white(#[trigger] line[i])),
        !occurs(trimmed_start(line), " - FAIL"@) ==> !reports_failure(line),
        !begins(trimmed_start(line), "test assertion "@) ==> !reports_failure(line),
{
    law_trimming(line);
    let n = line.len() - trimmed_start(line).len();
    assert(line.skip(n) == trimmed_start(line));
    reveal_strlit("test assertion ");
    let failing = "test assertion "@ + before + " - FAIL"@ + behind;
    assert(failing[0] == 't');
    assert(trimmed_start(failing) == failing);
    assert(failing =~= "test assertion "@ + (before + " - FAIL"@ + behind));
    law_begins_and_ends("test assertion "@, before + " - FAIL"@ + behind);
    law_occurs("test assertion "@ + before, " - FAIL"@, behind, failing);
}

/// The log is complete exactly if its last text, whitespace behind it aside, is
/// `test result done`.
pub proof fn law_complete_logs(front: Seq<char>, white: Seq<char>, log: Seq<char>)
    requires
        forall|i: int| 0 <= i < white.len() ==> is_white(#[trigger] white[i]),
    ensures
        is_complete(front + "test result done"@ + white),
        is_complete(log) ==> exists|n: int|
            16 <= n <= log.len() && #[trigger] log.subrange(n - 16, n) == "test result done"@ && (
            forall|i: int| n <= i < log.len() ==> is_white(#[trigger] log[i])),
{
    reveal_strlit("test result done");
    let text = front + "test result done"@;
    lemma_trimmed_behind(text, white);
    assert(text.last() == 'e');
    assert(trimmed_end(text) == text);
    law_begins_and_ends("test result done"@, front);
    law_trimming(log);
    if is_complete(log) {
        let t = trimmed_end(log);
        let n = t.len() as int;
        assert(log.subrange(n - 16, n) =~= t.subrange(n - 16, n));
    }
}

/// Whitespace behind a text is trimmed away.
proof fn lemma_trimmed_behind(s: Seq<char>, white: Seq<char>)
    requires
        forall|i: int| 0 <= i < white.len() ==> is_white(#[trigger] white[i]),
    ensures
        trimmed_end(s + white) == trimmed_end(s),
    decreases white.len(),
{
    if white.len() == 0 {
        assert(s + white =~= s);
    } else {
        let rest = white.drop_last();
        assert((s + white).last() == white[white.len() - 1]);
        assert((s + white).drop_last() =~= s + rest);
        lemma_trimmed_behind(s, rest);
    }
}

/// A group is selected exactly if one of the comma-separated names is it,
/// whitespace around the name aside.
pub proof fn law_selected_groups(names: Seq<Seq<char>>, group: Seq<char>)
    requires
        names.len() > 0,
        forall|k: int| 0 <= k < names.len() ==> !(#[trigger] names[k]).contains(','),
    ensures
        selects(joined(names, ','), group) <==> exists|k: int|
            0 <= k < names.len() && trimmed(#[trigger] names[k]) == group,
{
    law_joined_pieces(names, ',');
}

/// The summaries of a log are those of its lines, in their order.
pub proof fn law_summaries_of_lines(lines: Seq<Seq<char>>, line: Seq<char>)
    ensures
        summaries(Seq::empty()).len() == 0,
        summary_in(line) is None ==> summaries(lines.push(line)) == summaries(lines),
        summary_in(line) matches Some(s) ==> summaries(lines.push(line)) == summaries(
            lines,
        ).push(s),
{
    assert(lines.push(line).drop_last() =~= lines);
}

/// The first fault of a log decides its message, in this order: it is
/// incomplete, has no summary or several, a count that cannot be read, no passed
/// or some failed assertions, a line that reports a failure, or no line that
/// reports SPDM 1.4 although `VERSION` was selected.
pub proof fn law_first_fault_decides(log: Seq<char>, groups: Seq<char>)
    ensures
        ({
            let v = verdict(log, groups);
            let lines = lines_of(log);
            let found = summaries(lines);
            let one = is_complete(log) && found.len() == 1;
            let pass = spelled_u32(found[0].pass_count);
            let fail = spelled_u32(found[0].fail_count);
            let counted = one && pass is Some && pass->0 > 0 && fail == Some(0u32);
            let failing = exists|i: int|
                0 <= i < lines.len() && reports_failure(#[trigger] lines[i]);
            let advertised = exists|i: int|
                0 <= i < lines.len() && reports_version_1_4(#[trigger] lines[i]);
            let wanted = selects(groups, "VERSION"@);
            &&& !is_complete(log) ==> v
                == Err::<Seq<char>, Seq<char>>("log does not end with a complete test result"@)
            &&& is_complete(log) && found.len() == 0 ==> v
                == Err::<Seq<char>, Seq<char>>("expected one suite summary, found none"@)
            &&& is_complete(log) && found.len() >= 2 ==> v
                == Err::<Seq<char>, Seq<char>>("expected one suite summary, found multiple"@)
            &&& one && pass is None ==> v
                == Err::<Seq<char>, Seq<char>>("suite pass count is invalid"@)
            &&& one && pass is Some && fail is None ==> v
                == Err::<Seq<char>, Seq<char>>("suite fail count is invalid"@)
            &&& one && pass == Some(0u32) && fail is Some ==> v
                == Err::<Seq<char>, Seq<char>>("suite executed zero passing assertions"@)
            &&& one && pass is Some && pass->0 > 0 && fail is Some && fail->0 > 0 ==> v == Err::<
                Seq<char>,
                Seq<char>,
            >("suite recorded "@ + decimal(fail->0 as nat) + " failed assertions"@)
            &&& counted && failing ==> v
                == Err::<Seq<char>, Seq<char>>("log contains a failed assertion"@)
            &&& counted && !failing && wanted && !advertised ==> v == Err::<Seq<char>, Seq<char>>(
                "VERSION did not advertise a passing 0x1400 entry"@,
            )
            &&& counted && !failing && (wanted ==> advertised) ==> v == Ok::<Seq<char>, Seq<char>>(
                "SPDM validator suite "@ + found[0].suite_name + ": pass="@ + decimal(
                    pass->0 as nat,
                ) + ", fail="@ + decimal(0) + "; selected_groups="@ + if groups.len() == 0 {
                    "ALL"@
                } else {
                    groups
                },
            )
        }),
{
    assert(has_failure(log) == exists|i: int|
        0 <= i < lines_of(log).len() && reports_failure(#[trigger] lines_of(log)[i]));
    assert(has_version_1_4(log) == exists|i: int|
        0 <= i < lines_of(log).len() && reports_version_1_4(#[trigger] lines_of(log)[i]));
}

} // verus!
