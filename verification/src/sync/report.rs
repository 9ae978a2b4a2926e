//! What a report says of a branch.

use vstd::prelude::*;

use crate::config::BranchConfig;
use crate::report::{active_report, BranchReport, BranchStatus, ReportView};
use crate::text::number::{count_text, decimal, signed_decimal, signed_text};
use crate::text::pattern::{replace, replaced};
use crate::text::{
    byte_len, concat2, concat4, fitting_prefix, first_chars, take_chars, text_option, texts,
    truncate_to_char_boundary, utf8_len,
};

verus! {

/// A text on one line, cut where it is long.
pub open spec fn on_one_line(text: Seq<char>) -> Seq<char> {
    let line = replaced(replaced(text, "\r"@, ""@), "\n"@, " | "@);
    if utf8_len(line) > 500 {
        fitting_prefix(line, 500) + "..."@
    } else {
        line
    }
}

/// Puts a text on one line.
pub fn one_line(text: &str) -> (r: String)
    ensures
        r@ == on_one_line(text@),
{
    proof {
        reveal_strlit("\r");
        reveal_strlit("\n");
    }
    let line = replace(text, "\r", "");
    let line = replace(line.as_str(), "\n", " | ");
    if byte_len(line.as_str()) > 500 {
        let mut cut = truncate_to_char_boundary(line.as_str(), 500);
        cut.append("...");
        return cut;
    }
    line
}

/// The note on a branch.
pub open spec fn note_line(branch: BranchConfig) -> Seq<char> {
    match branch.note {
        Some(note) => "note: "@ + note@,
        None => "note: none"@,
    }
}

/// The note on a branch.
pub fn branch_note_detail(branch: &BranchConfig) -> (r: String)
    ensures
        r@ == note_line(*branch),
{
    match &branch.note {
        Some(note) => concat2("note: ", note.as_str()),
        None => "note: none".to_owned(),
    }
}

/// The short form of a commit.
pub open spec fn short(head: Seq<char>) -> Seq<char> {
    first_chars(head, 8)
}

/// The short form of a commit.
pub fn short_head(head: &str) -> (r: String)
    ensures
        r@ == short(head@),
{
    take_chars(head, 8)
}

/// A remote commit as it is shown.
pub open spec fn shown_head(head: Option<Seq<char>>) -> Seq<char> {
    match head {
        Some(text) => short(text),
        None => "not found"@,
    }
}

fn display_remote_head(head: &Option<String>) -> (r: String)
    ensures
        r@ == shown_head(text_option(*head)),
{
    match head {
        Some(text) => short_head(text.as_str()),
        None => "not found".to_owned(),
    }
}

/// Items, one line each.
pub open spec fn item_lines(items: Seq<Seq<char>>) -> Seq<Seq<char>> {
    items.map_values(|item: Seq<char>| "  "@ + item)
}

/// A list under a title, with its length.
pub open spec fn listed(title: Seq<char>, items: Seq<Seq<char>>) -> Seq<Seq<char>> {
    if items.len() == 0 {
        seq![title + ": none"@]
    } else {
        seq![title + " ("@ + decimal(items.len()) + "):"@] + item_lines(items)
    }
}

/// Adds items to a report, one line each.
pub fn push_items(entry: &mut BranchReport, items: &Vec<String>)
    ensures
        final(entry)@ == (ReportView {
            details: old(entry)@.details + item_lines(texts(items@)),
            ..old(entry)@
        }),
{
    let ghost start = entry@;
    let ghost all = texts(items@);
    let mut i: usize = 0;
    assert(entry@.details =~= start.details + item_lines(all).take(0));
    while i < items.len()
        invariant
            i <= items@.len(),
            all == texts(items@),
            entry@ == (ReportView {
                details: start.details + item_lines(all).take(i as int),
                ..start
            }),
        decreases items@.len() - i,
    {
        let line = concat2("  ", items[i].as_str());
        let ghost before = entry@.details;
        entry.push_detail(line);
        assert(item_lines(all)[i as int] == line@);
        assert(before.push(line@) =~= start.details + item_lines(all).take(i + 1));
        i = i + 1;
    }
    assert(item_lines(all).take(i as int) =~= item_lines(all));
}

/// Adds a list to a report.
pub fn push_list_details(entry: &mut BranchReport, title: &str, items: &Vec<String>)
    ensures
        final(entry)@ == (ReportView {
            details: old(entry)@.details + listed(title@, texts(items@)),
            ..old(entry)@
        }),
{
    let ghost start = entry@;
    if items.len() == 0 {
        let line = concat2(title, ": none");
        entry.push_detail(line);
        assert(entry@.details =~= start.details + listed(title@, texts(items@)));
        return;
    }
    let count = count_text(items.len());
    let line = concat4(title, " (", count.as_str(), "):");
    entry.push_detail(line);
    push_items(entry, items);
    assert(entry@.details =~= start.details + listed(title@, texts(items@)));
}

/// Adds commits to a report.
pub fn push_commit_details(entry: &mut BranchReport, title: &str, commits: &Vec<String>)
    ensures
        final(entry)@ == (ReportView {
            details: old(entry)@.details + listed(title@, texts(commits@)),
            ..old(entry)@
        }),
{
    push_list_details(entry, title, commits);
}

/// The report of a branch that failed, with one line for each reason.
pub open spec fn failure(branch: BranchConfig, details: Seq<Seq<char>>) -> ReportView {
    active_report(branch.name@, branch.kind@, BranchStatus::Failed, details)
}

/// Starts the report of a branch that failed.
pub fn failed_report(branch: &BranchConfig, reason: String) -> (r: BranchReport)
    ensures
        r@ == failure(*branch, seq![reason@]),
{
    let r = BranchReport::new(
        branch.name.as_str(),
        branch.kind.as_str(),
        BranchStatus::Failed,
    ).active().detail(reason);
    assert(r@.details =~= seq![reason@]);
    r
}

/// The report of a push that failed.
pub open spec fn push_failure(branch: BranchConfig, status: i32, stderr: Seq<char>) -> ReportView {
    failure(
        branch,
        seq![
            note_line(branch),
            "push failed with code "@ + signed_decimal(status as int),
            "stderr: "@ + on_one_line(stderr),
        ],
    )
}

/// Reports a push that failed.
pub fn push_failed_report(branch: &BranchConfig, status: i32, stderr: &str) -> (r: BranchReport)
    ensures
        r@ == push_failure(*branch, status, stderr@),
{
    let code = signed_text(status);
    let line = one_line(stderr);
    let r = failed_report(branch, branch_note_detail(branch)).detail(
        concat2("push failed with code ", code.as_str()),
    ).detail(concat2("stderr: ", line.as_str()));
    assert(r@.details =~= push_failure(*branch, status, stderr@).details);
    r
}

/// The report of a branch whose remote changed again.
pub open spec fn remote_changed(
    branch: BranchConfig,
    remote_branch: Seq<char>,
    expected: Option<Seq<char>>,
    current: Option<Seq<char>>,
) -> ReportView {
    failure(
        branch,
        seq![
            note_line(branch),
            "push blocked: remote branch changed before push"@,
            "remote branch: "@ + remote_branch,
            "expected remote head: "@ + shown_head(expected),
            "current remote head: "@ + shown_head(current),
            "sync retried once from the latest remote branch but remote changed again"@,
        ],
    )
}

/// Reports a branch whose remote changed again.
pub fn remote_changed_report(
    branch: &BranchConfig,
    remote_branch: &str,
    expected_remote_head: &Option<String>,
    current_remote_head: &Option<String>,
) -> (r: BranchReport)
    ensures
        r@ == remote_changed(
            *branch,
            remote_branch@,
            text_option(*expected_remote_head),
            text_option(*current_remote_head),
        ),
{
    let expected = display_remote_head(expected_remote_head);
    let current = display_remote_head(current_remote_head);
    let r = failed_report(branch, branch_note_detail(branch)).detail(
        "push blocked: remote branch changed before push".to_owned(),
    ).detail(concat2("remote branch: ", remote_branch)).detail(
        concat2("expected remote head: ", expected.as_str()),
    ).detail(concat2("current remote head: ", current.as_str())).detail(
        "sync retried once from the latest remote branch but remote changed again".to_owned(),
    );
    assert(r@.details =~= remote_changed(
        *branch,
        remote_branch@,
        text_option(*expected_remote_head),
        text_option(*current_remote_head),
    ).details);
    r
}

} // verus!
