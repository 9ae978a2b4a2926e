//! Pushing a branch that passed its checks, and the report of it.

use vstd::prelude::*;

use crate::calls::git::{GitCall, GitView};
use crate::calls::protect::{ProtectionCall, ProtectionView};
use crate::calls::{Request, RequestView, Tree};
use crate::command::git;
use crate::config::{BranchConfig, PushStrategy, RepoConfig};
use crate::fault::fault_text;
use crate::journal::{asked, caught, follows, Halt, Journal, Reply, Run};
use crate::report::{BranchReport, BranchStatus, ReportView};
use crate::repo::CommandOutput;
use crate::sync::checks::protection;
use crate::sync::conflict::{
    base_of, base_ref, fetch_request, remote_head_request, remote_of, remote_ref, Start, StartView,
    MAX_REPORTED_COMMITS,
};
use crate::sync::report::{
    branch_note_detail, failed_report, failure, listed, note_line, push_commit_details,
    push_failed_report, push_failure, push_list_details, short, short_head,
};
use crate::sync::stage::{ended, BranchView, Stage, StageView, SyncBranchOutcome};
use crate::text::number::{count_text, decimal};
use crate::text::{
    concat2, concat4, copy_texts, same_text, same_text_option, text_option, texts, Lines,
};

verus! {

/// The largest number of files in a report.
pub const MAX_REPORTED_FILES: usize = 30;

/// What a sync brought: the commit at its end, and what is to be pushed.
pub struct SurveyView {
    pub after_head: Seq<char>,
    pub commits: Seq<Seq<char>>,
    pub files: Seq<Seq<char>>,
}

/// What a sync brought.
pub struct Survey<'a> {
    pub after_head: &'a String,
    pub commits: &'a Vec<String>,
    pub files: Lines,
}

impl<'a> View for Survey<'a> {
    type V = SurveyView;

    open spec fn view(&self) -> SurveyView {
        SurveyView {
            after_head: self.after_head@,
            commits: texts(self.commits@),
            files: self.files@,
        }
    }
}

/// The commits that are to be pushed.
pub open spec fn pushed_range(has_remote: bool, remote_branch: Seq<char>) -> Seq<char> {
    if has_remote {
        remote_branch + "..HEAD"@
    } else {
        "HEAD"@
    }
}

/// The files that are to be pushed. Without a remote branch they are those of the last commit, and
/// none where they cannot be read.
pub open spec fn changed_files(
    has_remote: bool,
    remote_branch: Seq<char>,
    after_head: Seq<char>,
    replies: Seq<Reply>,
    at: nat,
) -> Run<Seq<Seq<char>>> {
    let range = if has_remote {
        remote_branch + "..HEAD"@
    } else {
        after_head + "^.."@ + after_head
    };
    match caught(
        asked::<Vec<String>>(
            replies,
            at,
            git(Tree::Main, GitView::ChangedFiles { range, limit: MAX_REPORTED_FILES }),
        ),
    ) {
        Run::Ask(request) => Run::Ask(request),
        Run::Fail(chain, at) => Run::Fail(chain, at),
        Run::On(Ok(files), at) => Run::On(texts(files@), at),
        Run::On(Err(chain), at) => if has_remote {
            Run::Fail(chain, at)
        } else {
            Run::On(Seq::empty(), at)
        },
    }
}

fn find_changed_files<'a>(
    has_remote: bool,
    remote_branch: &str,
    after_head: &str,
    journal: &mut Journal<'a>,
) -> (r: Result<Lines, Halt<'a>>)
    ensures
        follows(
            *old(journal),
            *final(journal),
            r,
            changed_files(
                has_remote,
                remote_branch@,
                after_head@,
                old(journal).all(),
                old(journal).at(),
            ),
        ),
{
    let range = if has_remote {
        concat2(remote_branch, "..HEAD")
    } else {
        crate::text::concat3(after_head, "^..", after_head)
    };
    let request = Request::Git(
        Tree::Main,
        GitCall::ChangedFiles { range, limit: MAX_REPORTED_FILES },
    );
    match journal.ask::<Vec<String>>(request) {
        Ok(files) => Ok(Lines { list: copy_texts(files) }),
        Err(Halt::Fail(fault)) => {
            if has_remote {
                return Err(Halt::Fail(fault));
            }
            let lines = Lines { list: Vec::new() };
            assert(lines@ =~= Seq::<Seq<char>>::empty());
            Ok(lines)
        },
        Err(halt) => Err(halt),
    }
}

/// Finds out what a sync brought.
#[verifier::opaque]
pub open spec fn surveyed(
    repo: RepoConfig,
    branch: BranchConfig,
    has_remote: bool,
    replies: Seq<Reply>,
    at: nat,
) -> Run<SurveyView> {
    match asked::<String>(replies, at, git(Tree::Main, GitView::Head)) {
        Run::Ask(request) => Run::Ask(request),
        Run::Fail(chain, at) => Run::Fail(chain, at),
        Run::On(after_head, at) => match asked::<Vec<String>>(
            replies,
            at,
            git(
                Tree::Main,
                GitView::Log {
                    range: pushed_range(has_remote, remote_ref(repo, branch)),
                    limit: MAX_REPORTED_COMMITS,
                },
            ),
        ) {
            Run::Ask(request) => Run::Ask(request),
            Run::Fail(chain, at) => Run::Fail(chain, at),
            Run::On(commits, at) => match changed_files(
                has_remote,
                remote_ref(repo, branch),
                after_head@,
                replies,
                at,
            ) {
                Run::Ask(request) => Run::Ask(request),
                Run::Fail(chain, at) => Run::Fail(chain, at),
                Run::On(files, at) => Run::On(
                    SurveyView { after_head: after_head@, commits: texts(commits@), files },
                    at,
                ),
            },
        },
    }
}

/// Finds out what a sync brought.
pub fn survey<'a>(
    repo: &'a RepoConfig,
    branch: &'a BranchConfig,
    has_remote: bool,
    journal: &mut Journal<'a>,
) -> (r: Result<Survey<'a>, Halt<'a>>)
    ensures
        follows(
            *old(journal),
            *final(journal),
            r,
            surveyed(*repo, *branch, has_remote, old(journal).all(), old(journal).at()),
        ),
{
    reveal(surveyed);
    let remote_branch = remote_of(repo, branch);
    let after_head: &'a String = journal.ask(Request::Git(Tree::Main, GitCall::Head))?;
    let range = if has_remote {
        concat2(remote_branch.as_str(), "..HEAD")
    } else {
        "HEAD".to_owned()
    };
    let commits: &'a Vec<String> = journal.ask(
        Request::Git(Tree::Main, GitCall::Log { range, limit: MAX_REPORTED_COMMITS }),
    )?;
    let files = find_changed_files(
        has_remote,
        remote_branch.as_str(),
        after_head.as_str(),
        journal,
    )?;
    Ok(Survey { after_head, commits, files })
}

/// Looks whether the remote branch is where it was.
pub open spec fn guarded(
    repo: RepoConfig,
    branch: BranchConfig,
    expected: Option<Seq<char>>,
    replies: Seq<Reply>,
    at: nat,
) -> Run<StageView<()>> {
    match asked::<()>(replies, at, fetch_request(repo, branch)) {
        Run::Ask(request) => Run::Ask(request),
        Run::Fail(chain, at) => Run::Fail(chain, at),
        Run::On(_, at) => match asked::<Option<String>>(
            replies,
            at,
            remote_head_request(repo, branch),
        ) {
            Run::Ask(request) => Run::Ask(request),
            Run::Fail(chain, at) => Run::Fail(chain, at),
            Run::On(current, at) => if text_option(current) == expected {
                Run::On(StageView::Go(()), at)
            } else {
                Run::On(
                    StageView::End(
                        BranchView::RemoteChanged { expected, current: text_option(current) },
                    ),
                    at,
                )
            },
        },
    }
}

/// Looks whether the remote branch is where it was.
pub fn verify_remote_before_push<'a>(
    repo: &'a RepoConfig,
    branch: &'a BranchConfig,
    expected: &Option<String>,
    journal: &mut Journal<'a>,
) -> (r: Result<Stage<()>, Halt<'a>>)
    ensures
        follows(
            *old(journal),
            *final(journal),
            r,
            guarded(
                *repo,
                *branch,
                text_option(*expected),
                old(journal).all(),
                old(journal).at(),
            ),
        ),
{
    let remote = repo.fork_remote.as_str();
    let name = branch.name.as_str();
    let _: &'a () = journal.ask(
        Request::Git(Tree::Main, GitCall::FetchBranch { remote, branch: name }),
    )?;
    let current: &'a Option<String> = journal.ask(
        Request::Git(Tree::Main, GitCall::RemoteHead { remote, branch: name }),
    )?;
    if same_text_option(current, expected) {
        return Ok(Stage::Go(()));
    }
    Ok(
        Stage::End(
            SyncBranchOutcome::RemoteChanged {
                expected: expected.clone(),
                current: current.clone(),
            },
        ),
    )
}

/// The request that pushes a branch. A forced push is bound to the commit at which the remote
/// branch was.
pub open spec fn push_request(
    repo: RepoConfig,
    branch: BranchConfig,
    expected: Option<Seq<char>>,
) -> RequestView {
    match (branch.push, expected) {
        (PushStrategy::ForceWithLease, Some(head)) => git(
            Tree::Main,
            GitView::PushWithLease {
                remote: repo.fork_remote@,
                branch: branch.name@,
                expected: head,
            },
        ),
        _ => git(
            Tree::Main,
            GitView::Push { remote: repo.fork_remote@, branch: branch.name@ },
        ),
    }
}

/// Pushes a branch, where the settings say so and the remote branch is where it was.
#[verifier::opaque]
pub open spec fn pushed(
    repo: RepoConfig,
    branch: BranchConfig,
    expected: Option<Seq<char>>,
    replies: Seq<Reply>,
    at: nat,
) -> Run<StageView<()>> {
    if branch.push == PushStrategy::Skip {
        Run::On(StageView::Go(()), at)
    } else {
        match guarded(repo, branch, expected, replies, at) {
            Run::Ask(request) => Run::Ask(request),
            Run::Fail(chain, at) => Run::Fail(chain, at),
            Run::On(StageView::End(outcome), at) => Run::On(StageView::End(outcome), at),
            Run::On(StageView::Go(_), at) => match asked::<CommandOutput>(
                replies,
                at,
                push_request(repo, branch, expected),
            ) {
                Run::Ask(request) => Run::Ask(request),
                Run::Fail(chain, at) => Run::Fail(chain, at),
                Run::On(output, at) => if output.succeeded() {
                    Run::On(StageView::Go(()), at)
                } else {
                    Run::On(ended(push_failure(branch, output.status, output.stderr@)), at)
                },
            },
        }
    }
}

/// Pushes a branch, where the settings say so and the remote branch is where it was.
pub fn push_branch<'a>(
    repo: &'a RepoConfig,
    branch: &'a BranchConfig,
    expected: &'a Option<String>,
    journal: &mut Journal<'a>,
) -> (r: Result<Stage<()>, Halt<'a>>)
    ensures
        follows(
            *old(journal),
            *final(journal),
            r,
            pushed(
                *repo,
                *branch,
                text_option(*expected),
                old(journal).all(),
                old(journal).at(),
            ),
        ),
{
    reveal(pushed);
    if branch.push == PushStrategy::Skip {
        return Ok(Stage::Go(()));
    }
    if let Stage::End(outcome) = verify_remote_before_push(repo, branch, expected, journal)? {
        return Ok(Stage::End(outcome));
    }
    let remote = repo.fork_remote.as_str();
    let name = branch.name.as_str();
    let call = match expected {
        Some(head) => if branch.push == PushStrategy::ForceWithLease {
            GitCall::PushWithLease { remote, branch: name, expected: head.as_str() }
        } else {
            GitCall::Push { remote, branch: name }
        },
        None => GitCall::Push { remote, branch: name },
    };
    let output: &'a CommandOutput = journal.ask(Request::Git(Tree::Main, call))?;
    if output.success() {
        return Ok(Stage::Go(()));
    }
    let report = push_failed_report(branch, output.status, output.stderr.as_str());
    Ok(Stage::End(SyncBranchOutcome::Report(report)))
}

/// Pushes the tag of a release, where the branch was pushed and a release is due.
#[verifier::opaque]
pub open spec fn tagged(
    repo: RepoConfig,
    branch: BranchConfig,
    after_head: Seq<char>,
    replies: Seq<Reply>,
    at: nat,
) -> Run<StageView<Option<String>>> {
    if branch.push == PushStrategy::Skip {
        Run::On(StageView::Go(None), at)
    } else {
        match caught(
            asked::<Option<String>>(
                replies,
                at,
                protection(
                    ProtectionView::ReleaseTag {
                        remote: repo.fork_remote@,
                        branch: branch.name@,
                    },
                ),
            ),
        ) {
            Run::Ask(request) => Run::Ask(request),
            Run::Fail(chain, at) => Run::Fail(chain, at),
            Run::On(Ok(tag), at) => Run::On(StageView::Go(tag), at),
            Run::On(Err(chain), at) => Run::On(
                ended(
                    ReportView {
                        head: Some(after_head),
                        ..failure(
                            branch,
                            seq![
                                "branch push succeeded, release tag failed"@,
                                "release error: "@ + fault_text(chain),
                            ],
                        )
                    },
                ),
                at,
            ),
        }
    }
}

/// Pushes the tag of a release, where the branch was pushed and a release is due.
pub fn tag_release<'a>(
    repo: &'a RepoConfig,
    branch: &'a BranchConfig,
    after_head: &'a String,
    journal: &mut Journal<'a>,
) -> (r: Result<Stage<Option<String>>, Halt<'a>>)
    ensures
        tagged_by(
            *old(journal),
            *final(journal),
            r,
            tagged(*repo, *branch, after_head@, old(journal).all(), old(journal).at()),
        ),
{
    reveal(tagged);
    if branch.push == PushStrategy::Skip {
        return Ok(Stage::Go(None));
    }
    let request = Request::Protection(
        Tree::Main,
        ProtectionCall::ReleaseTag {
            remote: repo.fork_remote.as_str(),
            branch: branch.name.as_str(),
        },
    );
    match journal.ask::<Option<String>>(request) {
        Ok(tag) => Ok(Stage::Go(tag.clone())),
        Err(Halt::Fail(fault)) => {
            let text = fault.text();
            let mut report = failed_report(
                branch,
                "branch push succeeded, release tag failed".to_owned(),
            ).detail(concat2("release error: ", text.as_str()));
            report.head = Some(after_head.clone());
            assert(report@.details =~= seq![
                "branch push succeeded, release tag failed"@,
                "release error: "@ + fault_text(fault@),
            ]);
            Ok(Stage::End(SyncBranchOutcome::Report(report)))
        },
        Err(halt) => Err(halt),
    }
}

/// Whether the result of pushing a tag is that of a run.
pub open spec fn tagged_by<'a>(
    before: Journal<'a>,
    after: Journal<'a>,
    r: Result<Stage<Option<String>>, Halt<'a>>,
    run: Run<StageView<Option<String>>>,
) -> bool {
    &&& after.all() == before.all()
    &&& match run {
        Run::Ask(request) => r matches Err(Halt::Ask(found)) && found@ == request,
        Run::Fail(chain, at) => r matches Err(Halt::Fail(fault)) && fault@ == chain && after.at()
            == at,
        Run::On(StageView::Go(tag), at) => r matches Ok(Stage::Go(found)) && text_option(found)
            == text_option(tag) && after.at() == at,
        Run::On(StageView::End(outcome), at) => r matches Ok(Stage::End(found)) && found@
            == outcome && after.at() == at,
    }
}

/// What a report says of the remote branch before the push.
pub open spec fn remote_line(remote_branch: Seq<char>, head: Option<Seq<char>>) -> Seq<char> {
    match head {
        Some(text) => "remote before push: "@ + remote_branch + " @ "@ + short(text),
        None => "remote before push: "@ + remote_branch + " not found"@,
    }
}

fn remote_detail(remote_branch: &str, head: &Option<String>) -> (r: String)
    ensures
        r@ == remote_line(remote_branch@, text_option(*head)),
{
    match head {
        Some(text) => {
            let brief = short_head(text.as_str());
            concat4("remote before push: ", remote_branch, " @ ", brief.as_str())
        },
        None => crate::text::concat3("remote before push: ", remote_branch, " not found"),
    }
}

/// What a report says of the tests that passed.
pub open spec fn tests_line(count: nat) -> Seq<char> {
    if count == 0 {
        "no tests configured"@
    } else {
        decimal(count) + " test command(s) passed"@
    }
}

/// What a report says of the tests that passed.
pub fn tests_detail(count: usize) -> (r: String)
    ensures
        r@ == tests_line(count as nat),
{
    if count == 0 {
        "no tests configured".to_owned()
    } else {
        let number = count_text(count);
        concat2(number.as_str(), " test command(s) passed")
    }
}

/// What a report says of a release.
pub open spec fn tag_lines(tag: Option<Seq<char>>) -> Seq<Seq<char>> {
    match tag {
        Some(name) => seq!["release tag pushed: "@ + name],
        None => Seq::empty(),
    }
}

/// What a report says of the push.
pub open spec fn push_line(branch: BranchConfig, remote_branch: Seq<char>) -> Seq<char> {
    if branch.push == PushStrategy::Skip {
        "push skipped by config"@
    } else {
        "pushed to "@ + remote_branch
    }
}

/// Whether something happened on a branch.
pub open spec fn was_active(start: StartView, survey: SurveyView, tag: Option<Seq<char>>) -> bool {
    ||| start.upstream.len() > 0
    ||| survey.commits.len() > 0
    ||| survey.files.len() > 0
    ||| start.before_head != survey.after_head
    ||| tag is Some
}

/// The report of a branch that came through.
pub open spec fn success(
    repo: RepoConfig,
    branch: BranchConfig,
    start: StartView,
    survey: SurveyView,
    tag: Option<Seq<char>>,
    details: Seq<Seq<char>>,
) -> ReportView {
    ReportView {
        branch: branch.name@,
        kind: branch.kind@,
        status: BranchStatus::Success,
        head: Some(survey.after_head),
        active: was_active(start, survey, tag),
        details: seq![
            note_line(branch),
            "before sync: "@ + start.before_head,
            "after sync: "@ + survey.after_head,
            "target base: "@ + base_ref(repo) + " @ "@ + start.base_head,
            remote_line(remote_ref(repo, branch), start.remote_before),
        ] + listed("upstream commits included"@, start.upstream) + listed(
            "commits pushed to remote"@,
            survey.commits,
        ) + listed("files pushed to remote"@, survey.files) + tag_lines(tag) + details + seq![
            tests_line(branch.tests@.len()),
            push_line(branch, remote_ref(repo, branch)),
        ],
    }
}

/// Reports a branch that came through.
pub fn success_report(
    repo: &RepoConfig,
    branch: &BranchConfig,
    start: &Start<'_>,
    survey: &Survey<'_>,
    tag: &Option<String>,
    details: Lines,
) -> (r: BranchReport)
    ensures
        r@ == success(*repo, *branch, start@, survey@, text_option(*tag), details@),
{
    let base = base_of(repo);
    let remote_branch = remote_of(repo, branch);
    let mut entry = BranchReport::new(
        branch.name.as_str(),
        branch.kind.as_str(),
        BranchStatus::Success,
    );
    entry.head = Some(survey.after_head.clone());
    if start.upstream.list.len() > 0 || survey.commits.len() > 0 || survey.files.list.len() > 0
        || !same_text(start.before_head.as_str(), survey.after_head.as_str()) || tag.is_some() {
        entry.mark_active();
    }
    entry.push_detail(branch_note_detail(branch));
    entry.push_detail(concat2("before sync: ", start.before_head.as_str()));
    entry.push_detail(concat2("after sync: ", survey.after_head.as_str()));
    entry.push_detail(concat4("target base: ", base.as_str(), " @ ", start.base_head.as_str()));
    entry.push_detail(remote_detail(remote_branch.as_str(), start.remote_before));
    push_commit_details(&mut entry, "upstream commits included", &start.upstream.list);
    push_commit_details(&mut entry, "commits pushed to remote", survey.commits);
    push_list_details(&mut entry, "files pushed to remote", &survey.files.list);
    if let Some(name) = tag {
        entry.push_detail(concat2("release tag pushed: ", name.as_str()));
    }
    entry.push_details(details.list);
    entry.push_detail(tests_detail(branch.tests.len()));
    if branch.push == PushStrategy::Skip {
        entry.push_detail("push skipped by config".to_owned());
    } else {
        entry.push_detail(concat2("pushed to ", remote_branch.as_str()));
    }
    assert(entry@.details =~= success(
        *repo,
        *branch,
        start@,
        survey@,
        text_option(*tag),
        details@,
    ).details);
    entry
}

} // verus!
