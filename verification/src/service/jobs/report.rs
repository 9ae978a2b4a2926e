//! The report of a job that came through.

use vstd::prelude::*;

use crate::calls::git::{GitCall, GitView};
use crate::calls::{Request, Tree};
use crate::command::{args3, command, commanded, git};
use crate::config::{BranchConfig, Config};
use crate::fault::Fault;
use crate::journal::{asked, follows, Halt, Journal, Reply, Run};
use crate::report::{BranchReport, BranchStatus, ReportView, SyncReport};
use crate::service::types::JobView;
use crate::sync::conflict::{remote_of, remote_ref};
use crate::sync::publish::{tag_lines, tests_detail, tests_line};
use crate::sync::report::{item_lines, push_items, short, short_head};
use crate::text::number::{
    count_complaint, count_text, count_value, decimal, read_count,
};
use crate::text::split::{pieces, split, Separator};
use crate::text::{
    blank, concat2, concat3, concat4, copy_texts, is_blank, text_option, texts, trim, trimmed,
    Lines,
};

verus! {

/// The largest number of commits in the report of a job.
pub const MAX_REPORTED_COMMITS: usize = 30;

/// The largest number of files in the report of a job.
pub const MAX_REPORTED_FILES: usize = 50;

/// Whether the end of a job is told: where something happened, or where that is told always.
pub fn should_notify_completion(had_activity: bool, notify_on_noop: bool) -> (r: bool)
    ensures
        r == (had_activity || notify_on_noop),
{
    had_activity || notify_on_noop
}

/// What a report of a job lists: how many commits and files there are, and the first of them.
pub struct CompletedView {
    pub upstream_commit_count: usize,
    pub upstream_commits: Seq<Seq<char>>,
    pub pushed_commit_count: usize,
    pub pushed_commits: Seq<Seq<char>>,
    pub pushed_file_count: usize,
    pub pushed_files: Seq<Seq<char>>,
}

/// What a report of a job lists.
#[derive(Debug)]
pub struct CompletedSyncReportData {
    pub upstream_commit_count: usize,
    pub upstream_commits: Vec<String>,
    pub pushed_commit_count: usize,
    pub pushed_commits: Vec<String>,
    pub pushed_file_count: usize,
    pub pushed_files: Vec<String>,
}

impl View for CompletedSyncReportData {
    type V = CompletedView;

    open spec fn view(&self) -> CompletedView {
        CompletedView {
            upstream_commit_count: self.upstream_commit_count,
            upstream_commits: texts(self.upstream_commits@),
            pushed_commit_count: self.pushed_commit_count,
            pushed_commits: texts(self.pushed_commits@),
            pushed_file_count: self.pushed_file_count,
            pushed_files: texts(self.pushed_files@),
        }
    }
}

/// A list under a title, with the number of all items; those that are not listed are counted.
pub open spec fn counted(title: Seq<char>, total: usize, items: Seq<Seq<char>>) -> Seq<Seq<char>> {
    if total == 0 {
        seq![title + ": none"@]
    } else {
        seq![title + " ("@ + decimal(total as nat) + "):"@] + item_lines(items) + (if total
            > items.len() {
            seq!["  ... "@ + decimal((total - items.len()) as nat) + " more commit(s) omitted ..."@]
        } else {
            Seq::<Seq<char>>::empty()
        })
    }
}

/// Adds a list to a report, with the number of all items.
pub fn push_report_items(entry: &mut BranchReport, title: &str, total: usize, items: &Vec<String>)
    ensures
        final(entry)@ == (ReportView {
            details: old(entry)@.details + counted(title@, total, texts(items@)),
            ..old(entry)@
        }),
{
    let ghost start = entry@;
    if total == 0 {
        entry.push_detail(concat2(title, ": none"));
        assert(entry@.details =~= start.details + counted(title@, total, texts(items@)));
        return;
    }
    let count = count_text(total);
    entry.push_detail(concat4(title, " (", count.as_str(), "):"));
    push_items(entry, items);
    if total > items.len() {
        let rest = count_text(total - items.len());
        entry.push_detail(concat3("  ... ", rest.as_str(), " more commit(s) omitted ..."));
    }
    assert(entry@.details =~= start.details + counted(title@, total, texts(items@)));
}

/// What a report of a job says of the note on its branch.
pub open spec fn job_note(branch: BranchConfig) -> Seq<Seq<char>> {
    match branch.note {
        Some(note) => seq!["note: "@ + note@],
        None => Seq::empty(),
    }
}

/// What a report of a job says of the remote branch before the push.
pub open spec fn job_remote_line(remote_branch: Seq<char>, head: Seq<char>) -> Seq<char> {
    if head.len() == 0 {
        "remote before push: "@ + remote_branch + " not found"@
    } else {
        "remote before push: "@ + remote_branch + " @ "@ + short(head)
    }
}

/// The report of a job that came through.
pub open spec fn completed(
    config: Config,
    branch: BranchConfig,
    job: JobView,
    after_head: Seq<char>,
    tag: Option<Seq<char>>,
    had_activity: bool,
    data: CompletedView,
) -> ReportView {
    let remote_branch = remote_ref(config.repo, branch);
    ReportView {
        branch: branch.name@,
        kind: branch.kind@,
        status: BranchStatus::Success,
        head: Some(short(after_head)),
        active: had_activity,
        details: job_note(branch) + seq![
            "before sync: "@ + short(job.before_head@),
            "after sync: "@ + short(after_head),
            "target base: "@ + job.base_ref@ + " @ "@ + short(job.base_head@),
            job_remote_line(remote_branch, job.remote_head@),
        ] + counted(
            "upstream commits included"@,
            data.upstream_commit_count,
            data.upstream_commits,
        ) + counted(
            "commits pushed to remote"@,
            data.pushed_commit_count,
            data.pushed_commits,
        ) + counted("files pushed to remote"@, data.pushed_file_count, data.pushed_files) + seq![
            tests_line(branch.tests@.len()),
            "pushed to "@ + remote_branch,
        ] + tag_lines(tag),
    }
}

/// Reports a job that came through.
pub fn render_completed_sync_report(
    config: &Config,
    branch: &BranchConfig,
    job: &JobView,
    after_head: &str,
    release_tag: &Option<String>,
    had_activity: bool,
    data: CompletedSyncReportData,
) -> (r: SyncReport)
    ensures
        r@ == seq![
            completed(
                *config,
                *branch,
                *job,
                after_head@,
                text_option(*release_tag),
                had_activity,
                data@,
            ),
        ],
{
    let mut entry = BranchReport::new(
        branch.name.as_str(),
        branch.kind.as_str(),
        BranchStatus::Success,
    );
    let after = short_head(after_head);
    let before = short_head(job.before_head.as_str());
    let base = short_head(job.base_head.as_str());
    entry.head = Some(after.clone());
    if had_activity {
        entry.mark_active();
    }
    if let Some(note) = &branch.note {
        entry.push_detail(concat2("note: ", note.as_str()));
    }
    entry.push_detail(concat2("before sync: ", before.as_str()));
    entry.push_detail(concat2("after sync: ", after.as_str()));
    entry.push_detail(concat4("target base: ", job.base_ref.as_str(), " @ ", base.as_str()));
    let remote_branch = remote_of(&config.repo, branch);
    if job.remote_head.as_str().is_empty() {
        entry.push_detail(
            concat3("remote before push: ", remote_branch.as_str(), " not found"),
        );
    } else {
        let remote = short_head(job.remote_head.as_str());
        entry.push_detail(
            concat4("remote before push: ", remote_branch.as_str(), " @ ", remote.as_str()),
        );
    }
    push_report_items(
        &mut entry,
        "upstream commits included",
        data.upstream_commit_count,
        &data.upstream_commits,
    );
    push_report_items(
        &mut entry,
        "commits pushed to remote",
        data.pushed_commit_count,
        &data.pushed_commits,
    );
    push_report_items(
        &mut entry,
        "files pushed to remote",
        data.pushed_file_count,
        &data.pushed_files,
    );
    entry.push_detail(tests_detail(branch.tests.len()));
    entry.push_detail(concat2("pushed to ", remote_branch.as_str()));
    if let Some(tag) = release_tag {
        entry.push_detail(concat2("release tag pushed: ", tag.as_str()));
    }
    assert(entry@.details =~= completed(
        *config,
        *branch,
        *job,
        after_head@,
        text_option(*release_tag),
        had_activity,
        data@,
    ).details);
    let mut report = SyncReport::default();
    report.push(entry);
    assert(report@ =~= seq![entry@]);
    report
}

/// The number of commits in a range, and the first of them.
pub open spec fn commits_in(range: Seq<char>, replies: Seq<Reply>, at: nat) -> Run<
    (usize, Seq<Seq<char>>),
> {
    match commanded(
        Tree::Work,
        seq!["rev-list"@, "--count"@, range],
        "读取提交数量失败："@,
        replies,
        at,
    ) {
        Run::Ask(request) => Run::Ask(request),
        Run::Fail(chain, at) => Run::Fail(chain, at),
        Run::On(stdout, at) => match count_value(trimmed(stdout)) {
            None => Run::Fail(seq![count_complaint(trimmed(stdout))], at),
            Some(count) => match asked::<Vec<String>>(
                replies,
                at,
                git(Tree::Work, GitView::Log { range, limit: MAX_REPORTED_COMMITS }),
            ) {
                Run::Ask(request) => Run::Ask(request),
                Run::Fail(chain, at) => Run::Fail(chain, at),
                Run::On(commits, at) => Run::On((count, texts(commits@)), at),
            },
        },
    }
}

/// The number of commits in a range, and the first of them.
pub fn commit_summary<'a>(range: &str, journal: &mut Journal<'a>) -> (r: Result<
    (usize, Lines),
    Halt<'a>,
>)
    ensures
        follows(
            *old(journal),
            *final(journal),
            r,
            commits_in(range@, old(journal).all(), old(journal).at()),
        ),
{
    let args = args3("rev-list", "--count", range);
    let stdout = command(Tree::Work, args, "读取提交数量失败：", journal)?;
    let number = trim(stdout.as_str());
    let count: usize = match read_count(number.as_str()) {
        Ok(count) => count,
        Err(message) => {
            return Err(Halt::Fail(Fault::new(message)));
        },
    };
    let commits: &'a Vec<String> = journal.ask(
        Request::Git(
            Tree::Work,
            GitCall::Log { range: range.to_owned(), limit: MAX_REPORTED_COMMITS },
        ),
    )?;
    Ok((count, Lines { list: copy_texts(commits) }))
}

/// How many of some lines are not blank.
pub open spec fn filled_count(lines: Seq<Seq<char>>) -> nat
    decreases lines.len(),
{
    if lines.len() == 0 {
        0
    } else if is_blank(lines.last()) {
        filled_count(lines.drop_last())
    } else {
        filled_count(lines.drop_last()) + 1
    }
}

fn count_filled(lines: &Vec<String>) -> (r: usize)
    ensures
        r == filled_count(texts(lines@)),
{
    let ghost all = texts(lines@);
    let mut count: usize = 0;
    let mut i: usize = 0;
    assert(all.take(0) =~= Seq::<Seq<char>>::empty());
    while i < lines.len()
        invariant
            i <= lines@.len(),
            all == texts(lines@),
            count <= i,
            count == filled_count(all.take(i as int)),
        decreases lines@.len() - i,
    {
        assert(all.take(i + 1).drop_last() =~= all.take(i as int));
        assert(all.take(i + 1).last() == lines@[i as int]@);
        if !blank(lines[i].as_str()) {
            count = count + 1;
        }
        i = i + 1;
    }
    assert(all.take(i as int) =~= all);
    count
}

/// The number of files that a range changes.
pub open spec fn changed_count(range: Seq<char>, replies: Seq<Reply>, at: nat) -> Run<nat> {
    match commanded(
        Tree::Work,
        seq!["diff"@, "--name-only"@, range],
        "读取变更文件数量失败："@,
        replies,
        at,
    ) {
        Run::Ask(request) => Run::Ask(request),
        Run::Fail(chain, at) => Run::Fail(chain, at),
        Run::On(stdout, at) => Run::On(filled_count(pieces(stdout, Separator::Char('\n'))), at),
    }
}

/// The number of files that a range changes.
pub fn changed_file_count<'a>(range: &str, journal: &mut Journal<'a>) -> (r: Result<
    usize,
    Halt<'a>,
>)
    ensures
        ({
            let run = changed_count(range@, old(journal).all(), old(journal).at());
            &&& final(journal).all() == old(journal).all()
            &&& match run {
                Run::Ask(request) => r matches Err(Halt::Ask(found)) && found@ == request,
                Run::Fail(chain, at) => r matches Err(Halt::Fail(fault)) && fault@ == chain
                    && final(journal).at() == at,
                Run::On(count, at) => r matches Ok(found) && found == count && final(journal).at()
                    == at,
            }
        }),
{
    let args = args3("diff", "--name-only", range);
    let stdout = command(Tree::Work, args, "读取变更文件数量失败：", journal)?;
    let lines = split(stdout.as_str(), Separator::Char('\n'));
    Ok(count_filled(&lines))
}

/// The commits of the base that a job brought in.
pub open spec fn upstream_summary(job: JobView, replies: Seq<Reply>, at: nat) -> Run<
    (usize, Seq<Seq<char>>),
> {
    match asked::<Option<String>>(
        replies,
        at,
        git(Tree::Work, GitView::MergeBase { left: job.before_head@, right: job.base_ref@ }),
    ) {
        Run::Ask(request) => Run::Ask(request),
        Run::Fail(chain, at) => Run::Fail(chain, at),
        Run::On(None, at) => Run::On((0, Seq::empty()), at),
        Run::On(Some(merge_base), at) => commits_in(
            merge_base@ + ".."@ + job.base_ref@,
            replies,
            at,
        ),
    }
}

fn summarize_upstream<'a>(job: &'a JobView, journal: &mut Journal<'a>) -> (r: Result<
    (usize, Lines),
    Halt<'a>,
>)
    ensures
        follows(
            *old(journal),
            *final(journal),
            r,
            upstream_summary(*job, old(journal).all(), old(journal).at()),
        ),
{
    let found: &'a Option<String> = journal.ask(
        Request::Git(
            Tree::Work,
            GitCall::MergeBase { left: job.before_head.clone(), right: job.base_ref.clone() },
        ),
    )?;
    match found {
        Some(merge_base) => {
            let range = concat3(merge_base.as_str(), "..", job.base_ref.as_str());
            commit_summary(range.as_str(), journal)
        },
        None => {
            let lines = Lines { list: Vec::new() };
            assert(lines@ =~= Seq::<Seq<char>>::empty());
            Ok((0, lines))
        },
    }
}

/// The range of what a job pushed.
pub open spec fn job_range(job: JobView, after_head: Seq<char>) -> Seq<char> {
    if job.remote_head@.len() == 0 {
        after_head + "^.."@ + after_head
    } else {
        job.remote_head@ + "..HEAD"@
    }
}

/// Finds out what the report of a job lists.
#[verifier::opaque]
pub open spec fn collected(
    job: JobView,
    after_head: Seq<char>,
    replies: Seq<Reply>,
    at: nat,
) -> Run<CompletedView> {
    match upstream_summary(job, replies, at) {
        Run::Ask(request) => Run::Ask(request),
        Run::Fail(chain, at) => Run::Fail(chain, at),
        Run::On(upstream, at) => match commits_in(job_range(job, after_head), replies, at) {
            Run::Ask(request) => Run::Ask(request),
            Run::Fail(chain, at) => Run::Fail(chain, at),
            Run::On(pushed, at) => match changed_count(
                job_range(job, after_head),
                replies,
                at,
            ) {
                Run::Ask(request) => Run::Ask(request),
                Run::Fail(chain, at) => Run::Fail(chain, at),
                Run::On(file_count, at) => match asked::<Vec<String>>(
                    replies,
                    at,
                    git(
                        Tree::Work,
                        GitView::ChangedFiles {
                            range: job_range(job, after_head),
                            limit: MAX_REPORTED_FILES,
                        },
                    ),
                ) {
                    Run::Ask(request) => Run::Ask(request),
                    Run::Fail(chain, at) => Run::Fail(chain, at),
                    Run::On(files, at) => Run::On(
                        CompletedView {
                            upstream_commit_count: upstream.0,
                            upstream_commits: upstream.1,
                            pushed_commit_count: pushed.0,
                            pushed_commits: pushed.1,
                            pushed_file_count: file_count as usize,
                            pushed_files: texts(files@),
                        },
                        at,
                    ),
                },
            },
        },
    }
}

fn collect<'a>(job: &'a JobView, after_head: &str, journal: &mut Journal<'a>) -> (r: Result<
    CompletedSyncReportData,
    Halt<'a>,
>)
    ensures
        follows(
            *old(journal),
            *final(journal),
            r,
            collected(*job, after_head@, old(journal).all(), old(journal).at()),
        ),
{
    reveal(collected);
    let upstream = summarize_upstream(job, journal)?;
    let range = if job.remote_head.as_str().is_empty() {
        concat3(after_head, "^..", after_head)
    } else {
        concat2(job.remote_head.as_str(), "..HEAD")
    };
    let pushed = commit_summary(range.as_str(), journal)?;
    let file_count = changed_file_count(range.as_str(), journal)?;
    let files: &'a Vec<String> = journal.ask(
        Request::Git(
            Tree::Work,
            GitCall::ChangedFiles { range, limit: MAX_REPORTED_FILES },
        ),
    )?;
    Ok(
        CompletedSyncReportData {
            upstream_commit_count: upstream.0,
            upstream_commits: upstream.1.list,
            pushed_commit_count: pushed.0,
            pushed_commits: pushed.1.list,
            pushed_file_count: file_count,
            pushed_files: copy_texts(files),
        },
    )
}

/// The reports of a job that came through.
pub open spec fn completed_run(
    config: Config,
    branch: BranchConfig,
    job: JobView,
    after_head: Seq<char>,
    tag: Option<Seq<char>>,
    had_activity: bool,
    replies: Seq<Reply>,
    at: nat,
) -> Run<Seq<ReportView>> {
    match collected(job, after_head, replies, at) {
        Run::Ask(request) => Run::Ask(request),
        Run::Fail(chain, at) => Run::Fail(chain, at),
        Run::On(data, at) => Run::On(
            seq![completed(config, branch, job, after_head, tag, had_activity, data)],
            at,
        ),
    }
}

/// Reports a job that came through.
pub fn build_completed_sync_report<'a>(
    config: &Config,
    branch: &BranchConfig,
    job: &'a JobView,
    after_head: &str,
    release_tag: &Option<String>,
    had_activity: bool,
    journal: &mut Journal<'a>,
) -> (r: Result<SyncReport, Halt<'a>>)
    ensures
        follows(
            *old(journal),
            *final(journal),
            r,
            completed_run(
                *config,
                *branch,
                *job,
                after_head@,
                text_option(*release_tag),
                had_activity,
                old(journal).all(),
                old(journal).at(),
            ),
        ),
{
    let data = collect(job, after_head, journal)?;
    Ok(
        render_completed_sync_report(
            config,
            branch,
            job,
            after_head,
            release_tag,
            had_activity,
            data,
        ),
    )
}

} // verus!
