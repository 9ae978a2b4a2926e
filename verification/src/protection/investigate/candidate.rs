//! The candidate for a fix: built, checked and tested in a worktree of its own.
//!
//! A candidate that fails on the way is kept as failed, and never as verified.

use vstd::prelude::*;

use crate::calls::git::{GitCall, GitView};
use crate::calls::protect::{ProtectionCall, ProtectionView};
use crate::calls::signal::{SignalCall, SignalCallView};
use crate::calls::{Request, RequestView, Tree};
use crate::command::{
    add_worktree_args, args2, args3, command, commanded, git, print, printed, resolve_ref,
    resolved_ref, worktree_args,
};
use crate::config::{BranchConfig, Config};
use crate::digest::{digest_of, text_digest};
use crate::fault::Fault;
use crate::journal::{asked, caught, follows, took, Halt, Journal, Reply, Run};
use crate::path::{below, path_below};
use crate::protection::investigate::files::{
    changes_checked_from, signal, validate_candidate_changes, MAX_CANDIDATE_BYTES,
};
use crate::protection::investigate::policy::{configured_project_name, project_name};
use crate::protection::types::{
    change_views, evaluated_views, ArtifactView, BatchView, CandidateArtifact, CandidateChange,
    ChangeView, CommitSecurityReviewBatch, DispositionView, EvaluatedSecurityReview, EvaluatedView,
    InvestigationView, ReviewView, SecurityContractVerificationDecision,
    SecurityDisposition, SecurityReviewDecision, SignalInvestigationDecision, VerificationResult,
    VerificationView,
};
use crate::repo::CommandOutput;
use crate::sync::checks::{add_record, test_record};
use crate::text::{
    append_texts, blank, concat2, concat4, copy_texts, is_blank, push_text, same_text, texts, trim,
    trimmed, Lines,
};

verus! {

/// The first branch with a name.
pub open spec fn branch_named(branches: Seq<BranchConfig>, name: Seq<char>) -> Option<BranchConfig>
    decreases branches.len(),
{
    if branches.len() == 0 {
        None
    } else if branches[0].name@ == name {
        Some(branches[0])
    } else {
        branch_named(branches.skip(1), name)
    }
}

/// The branch whose tests a candidate must pass: the one that is asked for, or the first.
pub open spec fn test_branch(config: Config, requested: Option<Seq<char>>) -> Result<
    BranchConfig,
    Seq<char>,
> {
    match requested {
        Some(name) => match branch_named(config.branches@, name) {
            Some(branch) => Ok(branch),
            None => Err("未配置候选测试分支："@ + name),
        },
        None => if config.branches@.len() > 0 {
            Ok(config.branches@[0])
        } else {
            Err("未配置可用于安全候选的分支测试"@)
        },
    }
}

/// What is asked for, where something is.
pub open spec fn name_option(name: Option<&str>) -> Option<Seq<char>> {
    match name {
        Some(text) => Some(text@),
        None => None,
    }
}

fn find_branch<'a>(branches: &'a Vec<BranchConfig>, name: &str) -> (r: Option<&'a BranchConfig>)
    ensures
        match branch_named(branches@, name@) {
            Some(branch) => r matches Some(found) && *found == branch,
            None => r is None,
        },
{
    let mut i: usize = 0;
    assert(branches@.skip(0) =~= branches@);
    while i < branches.len()
        invariant
            i <= branches@.len(),
            branch_named(branches@, name@) == branch_named(branches@.skip(i as int), name@),
        decreases branches@.len() - i,
    {
        assert(branches@.skip(i as int)[0] == branches@[i as int]);
        assert(branches@.skip(i as int).skip(1) =~= branches@.skip(i + 1));
        if same_text(branches[i].name.as_str(), name) {
            return Some(&branches[i]);
        }
        i = i + 1;
    }
    None
}

/// The branch whose tests a candidate must pass.
pub fn configured_test_branch<'a>(config: &'a Config, requested: Option<&str>) -> (r: Result<
    &'a BranchConfig,
    Fault,
>)
    ensures
        match test_branch(*config, name_option(requested)) {
            Ok(branch) => r matches Ok(found) && *found == branch,
            Err(message) => r matches Err(fault) && fault@ == seq![message],
        },
{
    match requested {
        Some(name) => match find_branch(&config.branches, name) {
            Some(branch) => Ok(branch),
            None => Err(Fault::new(concat2("未配置候选测试分支：", name))),
        },
        None => if config.branches.len() > 0 {
            Ok(&config.branches[0])
        } else {
            Err(Fault::of("未配置可用于安全候选的分支测试"))
        },
    }
}

/// What a candidate lacks, before anything is looked at.
pub open spec fn lacking(decision: InvestigationView) -> Option<Seq<char>> {
    if decision.changes.len() == 0 {
        Some("当前项目需要修复，但 DS 没有给出候选修改"@)
    } else {
        match decision.review.fix_contract {
            None => Some("安全候选缺少 FixContract"@),
            Some(contract) => if contract.regression_cases.len() == 0 {
                Some("安全候选缺少回归用例"@)
            } else {
                None
            },
        }
    }
}

fn find_lacking(decision: &SignalInvestigationDecision) -> (r: Option<&'static str>)
    ensures
        match lacking(decision@) {
            Some(message) => r matches Some(found) && found@ == message,
            None => r is None,
        },
{
    if decision.changes.len() == 0 {
        return Some("当前项目需要修复，但 DS 没有给出候选修改");
    }
    match &decision.review.fix_contract {
        None => Some("安全候选缺少 FixContract"),
        Some(contract) => if contract.regression_cases.len() == 0 {
            Some("安全候选缺少回归用例")
        } else {
            None
        },
    }
}

/// What the tests of a branch lack.
pub open spec fn tests_lacking(branch: BranchConfig) -> Option<Seq<char>> {
    if branch.tests@.len() == 0 {
        Some("安全候选没有配置任何沙箱测试命令"@)
    } else if !branch.behavioral_tests {
        Some("安全候选至少需要一条行为测试命令"@)
    } else {
        None
    }
}

/// Holds a candidate against the rules that come before it is built, and gives the branch whose
/// tests it must pass.
#[verifier::opaque]
pub open spec fn admitted(
    config: Config,
    offered: Seq<Seq<char>>,
    decision: InvestigationView,
    requested: Option<Seq<char>>,
    replies: Seq<Reply>,
    at: nat,
) -> Run<BranchConfig> {
    match lacking(decision) {
        Some(message) => Run::Fail(seq![message], at),
        None => match changes_checked_from(offered, decision.changes, 0, 0, replies, at) {
            Run::Ask(request) => Run::Ask(request),
            Run::Fail(chain, at) => Run::Fail(chain, at),
            Run::On(_, at) => match test_branch(config, requested) {
                Err(message) => Run::Fail(seq![message], at),
                Ok(branch) => match tests_lacking(branch) {
                    Some(message) => Run::Fail(seq![message], at),
                    None => Run::On(branch, at),
                },
            },
        },
    }
}

fn check_admission<'a>(
    config: &'a Config,
    offered: &Lines,
    decision: &SignalInvestigationDecision,
    requested: Option<&str>,
    journal: &mut Journal<'a>,
) -> (r: Result<&'a BranchConfig, Halt<'a>>)
    ensures
        took(
            *old(journal),
            *final(journal),
            r,
            admitted(
                *config,
                offered@,
                decision@,
                name_option(requested),
                old(journal).all(),
                old(journal).at(),
            ),
        ),
{
    reveal(admitted);
    if let Some(message) = find_lacking(decision) {
        return Err(Halt::Fail(Fault::of(message)));
    }
    validate_candidate_changes(offered, &decision.changes, journal)?;
    let branch: &'a BranchConfig = match configured_test_branch(config, requested) {
        Ok(branch) => branch,
        Err(fault) => {
            return Err(Halt::Fail(fault));
        },
    };
    if branch.tests.len() == 0 {
        return Err(Halt::Fail(Fault::of("安全候选没有配置任何沙箱测试命令")));
    }
    if !branch.has_behavioral_tests() {
        return Err(Halt::Fail(Fault::of("安全候选至少需要一条行为测试命令")));
    }
    Ok(branch)
}

/// Where the worktree of a candidate is.
pub open spec fn candidate_worktree(data_dir: Seq<char>, candidate_id: Seq<char>) -> Seq<char> {
    below(below(data_dir, "protection/worktrees"@), candidate_id)
}

/// Where the worktree of a candidate is.
pub fn candidate_worktree_path(data_dir: &str, candidate_id: &str) -> (r: String)
    ensures
        r@ == candidate_worktree(data_dir@, candidate_id@),
{
    let parent = path_below(data_dir, "protection/worktrees");
    path_below(parent.as_str(), candidate_id)
}

/// Adds the worktree of a candidate, at the commit that is checked out, and gives that commit.
pub open spec fn candidate_tree_added(worktree: Seq<char>, replies: Seq<Reply>, at: nat) -> Run<
    Seq<char>,
> {
    match asked::<()>(replies, at, signal(SignalCallView::PrepareWorktree { worktree })) {
        Run::Ask(request) => Run::Ask(request),
        Run::Fail(chain, at) => Run::Fail(chain, at),
        Run::On(_, at) => match resolved_ref(Tree::Main, "HEAD"@, replies, at) {
            Run::Ask(request) => Run::Ask(request),
            Run::Fail(chain, at) => Run::Fail(chain, at),
            Run::On(base, at) => match commanded(
                Tree::Main,
                worktree_args(worktree, base),
                "创建安全候选 worktree 失败："@,
                replies,
                at,
            ) {
                Run::Ask(request) => Run::Ask(request),
                Run::Fail(chain, at) => Run::Fail(chain, at),
                Run::On(_, at) => Run::On(base, at),
            },
        },
    }
}

fn add_candidate_tree<'a>(worktree: &str, journal: &mut Journal<'a>) -> (r: Result<
    String,
    Halt<'a>,
>)
    ensures
        follows(
            *old(journal),
            *final(journal),
            r,
            candidate_tree_added(worktree@, old(journal).all(), old(journal).at()),
        ),
{
    let _: &'a () = journal.ask(
        Request::Signal(SignalCall::PrepareWorktree { worktree: worktree.to_owned() }),
    )?;
    let base = resolve_ref(Tree::Main, "HEAD", journal)?;
    let args = add_worktree_args(worktree, base.as_str());
    command(Tree::Main, args, "创建安全候选 worktree 失败：", journal)?;
    Ok(base)
}

/// Writes the changes of a candidate, from a given one on.
pub open spec fn changes_written_from(
    changes: Seq<ChangeView>,
    next: nat,
    replies: Seq<Reply>,
    at: nat,
) -> Run<()>
    decreases changes.len() - next,
{
    if next >= changes.len() {
        Run::On((), at)
    } else {
        match asked::<()>(
            replies,
            at,
            git(
                Tree::Work,
                GitView::WriteFile {
                    path: changes[next as int].path,
                    content: changes[next as int].content,
                },
            ),
        ) {
            Run::Ask(request) => Run::Ask(request),
            Run::Fail(chain, at) => Run::Fail(chain, at),
            Run::On(_, at) => changes_written_from(changes, next + 1, replies, at),
        }
    }
}

fn write_changes<'a>(changes: &Vec<CandidateChange>, journal: &mut Journal<'a>) -> (r: Result<
    (),
    Halt<'a>,
>)
    ensures
        follows(
            *old(journal),
            *final(journal),
            r,
            changes_written_from(
                change_views(changes@),
                0,
                old(journal).all(),
                old(journal).at(),
            ),
        ),
{
    let ghost views = change_views(changes@);
    let mut i: usize = 0;
    while i < changes.len()
        invariant
            i <= changes@.len(),
            views == change_views(changes@),
            journal.all() == old(journal).all(),
            changes_written_from(views, 0, old(journal).all(), old(journal).at())
                == changes_written_from(views, i as nat, journal.all(), journal.at()),
        decreases changes@.len() - i,
    {
        assert(views[i as int] == changes@[i as int]@);
        let _: &'a () = journal.ask(
            Request::Git(
                Tree::Work,
                GitCall::WriteFile {
                    path: changes[i].path.clone(),
                    content: changes[i].content.clone(),
                },
            ),
        )?;
        i = i + 1;
    }
    Ok(())
}

/// The arguments with which git commits a candidate.
pub open spec fn commit_args() -> Seq<Seq<char>> {
    seq![
        "-c"@,
        "user.name=TermiteRS Candidate"@,
        "-c"@,
        "user.email=termiters@localhost"@,
        "commit"@,
        "-m"@,
        "security candidate"@,
    ]
}

fn candidate_commit_args() -> (r: Vec<String>)
    ensures
        texts(r@) == commit_args(),
{
    let mut args = args3("-c", "user.name=TermiteRS Candidate", "-c");
    push_text(&mut args, "user.email=termiters@localhost".to_owned());
    push_text(&mut args, "commit".to_owned());
    push_text(&mut args, "-m".to_owned());
    push_text(&mut args, "security candidate".to_owned());
    assert(texts(args@) =~= commit_args());
    args
}

/// Commits what was written, once it passes the checks that come before any test is run.
pub open spec fn committed(replies: Seq<Reply>, at: nat) -> Run<()> {
    match commanded(
        Tree::Work,
        seq!["diff"@, "--check"@],
        "安全候选格式检查失败："@,
        replies,
        at,
    ) {
        Run::Ask(request) => Run::Ask(request),
        Run::Fail(chain, at) => Run::Fail(chain, at),
        Run::On(_, at) => match printed(
            Tree::Work,
            seq!["status"@, "--porcelain"@],
            replies,
            at,
        ) {
            Run::Ask(request) => Run::Ask(request),
            Run::Fail(chain, at) => Run::Fail(chain, at),
            Run::On(status, at) => if is_blank(status) {
                Run::Fail(seq!["DS 候选没有产生文件修改"@], at)
            } else {
                match asked::<()>(
                    replies,
                    at,
                    RequestView::Protection(Tree::Work, ProtectionView::Gate),
                ) {
                    Run::Ask(request) => Run::Ask(request),
                    Run::Fail(chain, at) => Run::Fail(chain, at),
                    Run::On(_, at) => match printed(
                        Tree::Work,
                        seq!["add"@, "--all"@],
                        replies,
                        at,
                    ) {
                        Run::Ask(request) => Run::Ask(request),
                        Run::Fail(chain, at) => Run::Fail(chain, at),
                        Run::On(_, at) => match commanded(
                            Tree::Work,
                            commit_args(),
                            "提交隔离候选失败："@,
                            replies,
                            at,
                        ) {
                            Run::Ask(request) => Run::Ask(request),
                            Run::Fail(chain, at) => Run::Fail(chain, at),
                            Run::On(_, at) => Run::On((), at),
                        },
                    },
                }
            },
        },
    }
}

fn commit<'a>(journal: &mut Journal<'a>) -> (r: Result<(), Halt<'a>>)
    ensures
        follows(
            *old(journal),
            *final(journal),
            r,
            committed(old(journal).all(), old(journal).at()),
        ),
{
    let args = args2("diff", "--check");
    command(Tree::Work, args, "安全候选格式检查失败：", journal)?;
    let status = print(Tree::Work, args2("status", "--porcelain"), journal)?;
    if blank(status.as_str()) {
        return Err(Halt::Fail(Fault::of("DS 候选没有产生文件修改")));
    }
    let _: &'a () = journal.ask(Request::Protection(Tree::Work, ProtectionCall::Gate))?;
    print(Tree::Work, args2("add", "--all"), journal)?;
    command(Tree::Work, candidate_commit_args(), "提交隔离候选失败：", journal)?;
    Ok(())
}

/// Builds a candidate in its worktree, and gives the commit it starts at.
#[verifier::opaque]
pub open spec fn built(
    worktree: Seq<char>,
    changes: Seq<ChangeView>,
    replies: Seq<Reply>,
    at: nat,
) -> Run<Seq<char>> {
    match candidate_tree_added(worktree, replies, at) {
        Run::Ask(request) => Run::Ask(request),
        Run::Fail(chain, at) => Run::Fail(chain, at),
        Run::On(base, at) => match changes_written_from(changes, 0, replies, at) {
            Run::Ask(request) => Run::Ask(request),
            Run::Fail(chain, at) => Run::Fail(chain, at),
            Run::On(_, at) => match committed(replies, at) {
                Run::Ask(request) => Run::Ask(request),
                Run::Fail(chain, at) => Run::Fail(chain, at),
                Run::On(_, at) => Run::On(base, at),
            },
        },
    }
}

fn build<'a>(worktree: &str, changes: &Vec<CandidateChange>, journal: &mut Journal<'a>) -> (r: Result<
    String,
    Halt<'a>,
>)
    ensures
        follows(
            *old(journal),
            *final(journal),
            r,
            built(worktree@, change_views(changes@), old(journal).all(), old(journal).at()),
        ),
{
    reveal(built);
    let base = add_candidate_tree(worktree, journal)?;
    write_changes(changes, journal)?;
    commit(journal)?;
    Ok(base)
}

/// Runs the tests of a branch on a candidate, from a given one on, and gives what they printed.
pub open spec fn candidate_tests_from(
    tests: Seq<Seq<char>>,
    next: nat,
    printed: Seq<char>,
    replies: Seq<Reply>,
    at: nat,
) -> Run<Seq<char>>
    decreases tests.len() - next,
{
    if next >= tests.len() {
        Run::On(printed, at)
    } else {
        let command = tests[next as int];
        match asked::<CommandOutput>(
            replies,
            at,
            git(Tree::Work, GitView::Test { command, sandboxed: true }),
        ) {
            Run::Ask(request) => Run::Ask(request),
            Run::Fail(chain, at) => Run::Fail(chain, at),
            Run::On(output, at) => if output.succeeded() {
                candidate_tests_from(
                    tests,
                    next + 1,
                    printed + test_record(command, output),
                    replies,
                    at,
                )
            } else {
                Run::Fail(
                    seq![
                        "安全候选沙箱测试失败："@ + command + "\n"@ + trimmed(output.stderr@),
                    ],
                    at,
                )
            },
        }
    }
}

fn test_candidate<'a>(tests: &'a Vec<String>, journal: &mut Journal<'a>) -> (r: Result<
    String,
    Halt<'a>,
>)
    ensures
        follows(
            *old(journal),
            *final(journal),
            r,
            candidate_tests_from(
                texts(tests@),
                0,
                Seq::empty(),
                old(journal).all(),
                old(journal).at(),
            ),
        ),
{
    let ghost all = texts(tests@);
    let mut printed = String::new();
    assert(printed@ =~= Seq::<char>::empty());
    let mut i: usize = 0;
    while i < tests.len()
        invariant
            i <= tests@.len(),
            all == texts(tests@),
            journal.all() == old(journal).all(),
            candidate_tests_from(all, 0, Seq::empty(), old(journal).all(), old(journal).at())
                == candidate_tests_from(all, i as nat, printed@, journal.all(), journal.at()),
        decreases tests@.len() - i,
    {
        let command: &'a str = tests[i].as_str();
        assert(all[i as int] == command@);
        let output: &'a CommandOutput = journal.ask(
            Request::Git(Tree::Work, GitCall::Test { command, sandboxed: true }),
        )?;
        if !output.success() {
            let stderr = trim(output.stderr.as_str());
            return Err(
                Halt::Fail(
                    Fault::new(
                        concat4("安全候选沙箱测试失败：", command, "\n", stderr.as_str()),
                    ),
                ),
            );
        }
        add_record(&mut printed, command, output);
        i = i + 1;
    }
    Ok(printed)
}

/// Reviews and tests a candidate, verifies the contracts of the reviews, and gives what the tests
/// printed.
#[verifier::opaque]
pub open spec fn examined(
    branch: BranchConfig,
    base: Seq<char>,
    replies: Seq<Reply>,
    at: nat,
) -> Run<Seq<char>> {
    match asked::<Option<CommitSecurityReviewBatch>>(
        replies,
        at,
        RequestView::Protection(
            Tree::Work,
            ProtectionView::Reviews { from: base, to: "HEAD"@ },
        ),
    ) {
        Run::Ask(request) => Run::Ask(request),
        Run::Fail(chain, at) => Run::Fail(chain, at),
        Run::On(None, at) => Run::Fail(seq!["安全候选提交没有可审计差异"@], at),
        Run::On(Some(batch), at) => match asked::<()>(
            replies,
            at,
            RequestView::Protection(Tree::Work, ProtectionView::CanProceed { batch }),
        ) {
            Run::Ask(request) => Run::Ask(request),
            Run::Fail(chain, at) => Run::Fail(chain, at),
            Run::On(_, at) => match candidate_tests_from(
                texts(branch.tests@),
                0,
                Seq::empty(),
                replies,
                at,
            ) {
                Run::Ask(request) => Run::Ask(request),
                Run::Fail(chain, at) => Run::Fail(chain, at),
                Run::On(output, at) => match asked::<Vec<SecurityContractVerificationDecision>>(
                    replies,
                    at,
                    RequestView::Protection(
                        Tree::Work,
                        ProtectionView::VerifyContracts {
                            batch,
                            tests: texts(branch.tests@),
                            output,
                        },
                    ),
                ) {
                    Run::Ask(request) => Run::Ask(request),
                    Run::Fail(chain, at) => Run::Fail(chain, at),
                    Run::On(_, at) => Run::On(output, at),
                },
            },
        },
    }
}

fn examine<'a>(branch: &'a BranchConfig, base: &str, journal: &mut Journal<'a>) -> (r: Result<
    String,
    Halt<'a>,
>)
    ensures
        follows(
            *old(journal),
            *final(journal),
            r,
            examined(*branch, base@, old(journal).all(), old(journal).at()),
        ),
{
    reveal(examined);
    let found: &'a Option<CommitSecurityReviewBatch> = journal.ask(
        Request::Protection(
            Tree::Work,
            ProtectionCall::Reviews { from: base.to_owned(), to: "HEAD".to_owned() },
        ),
    )?;
    let batch: &'a CommitSecurityReviewBatch = match found {
        Some(batch) => batch,
        None => {
            return Err(Halt::Fail(Fault::of("安全候选提交没有可审计差异")));
        },
    };
    let _: &'a () = journal.ask(
        Request::Protection(Tree::Work, ProtectionCall::CanProceed { batch }),
    )?;
    let output = test_candidate(&branch.tests, journal)?;
    let _: &'a Vec<SecurityContractVerificationDecision> = journal.ask(
        Request::Protection(
            Tree::Work,
            ProtectionCall::VerifyContracts {
                batch,
                tests: &branch.tests,
                output: output.clone(),
            },
        ),
    )?;
    Ok(output)
}

/// The judgement on a signal as a review of the candidate's commit: a fix that brings no risk, with
/// the contract that was given.
pub open spec fn as_candidate_review(review: ReviewView) -> ReviewView {
    ReviewView { security_fix_detected: true, introduced_risk: false, ..review }
}

/// The reviews under which the contract of a candidate is verified.
pub open spec fn signal_batch(
    project: Seq<char>,
    base: Seq<char>,
    head: Seq<char>,
    review: ReviewView,
    fingerprint: Seq<char>,
) -> BatchView {
    BatchView {
        project,
        from: base,
        to: "HEAD"@,
        reviews: seq![
            EvaluatedView {
                commit: head,
                decision: as_candidate_review(review),
                disposition: DispositionView::VerifyRequired,
                policy_reasons: seq!["外部安全消息要求独立验证原始 FixContract"@],
                policy_fingerprint: fingerprint,
            },
        ],
        disposition: DispositionView::VerifyRequired,
        cache_hits: 0,
    }
}

fn make_signal_batch(
    project: String,
    base: &str,
    head: String,
    review: &SecurityReviewDecision,
    fingerprint: String,
) -> (r: CommitSecurityReviewBatch)
    ensures
        r@ == signal_batch(project@, base@, head@, review@, fingerprint@),
{
    let mut decision = review.copy();
    decision.security_fix_detected = true;
    decision.introduced_risk = false;
    let mut policy_reasons: Vec<String> = Vec::new();
    policy_reasons.push("外部安全消息要求独立验证原始 FixContract".to_owned());
    assert(texts(policy_reasons@) =~= seq!["外部安全消息要求独立验证原始 FixContract"@]);
    let mut reviews: Vec<EvaluatedSecurityReview> = Vec::new();
    reviews.push(
        EvaluatedSecurityReview {
            commit: head,
            decision,
            disposition: SecurityDisposition::VerifyRequired,
            policy_reasons,
            policy_fingerprint: fingerprint,
        },
    );
    let r = CommitSecurityReviewBatch {
        project,
        from: base.to_owned(),
        to: "HEAD".to_owned(),
        reviews,
        disposition: SecurityDisposition::VerifyRequired,
        cache_hits: 0,
    };
    assert(evaluated_views(reviews@) =~= signal_batch(
        project@,
        base@,
        head@,
        review@,
        fingerprint@,
    ).reviews);
    r
}

/// The evidence of all verifiers, in order.
pub open spec fn all_evidence(results: Seq<SecurityContractVerificationDecision>) -> Seq<Seq<char>>
    decreases results.len(),
{
    if results.len() == 0 {
        Seq::empty()
    } else {
        all_evidence(results.drop_last()) + texts(results.last().evidence@)
    }
}

fn gather_evidence(results: &Vec<SecurityContractVerificationDecision>) -> (r: Vec<String>)
    ensures
        texts(r@) == all_evidence(results@),
{
    let mut evidence: Vec<String> = Vec::new();
    assert(texts(evidence@) =~= all_evidence(results@.take(0)));
    let mut i: usize = 0;
    while i < results.len()
        invariant
            i <= results@.len(),
            texts(evidence@) == all_evidence(results@.take(i as int)),
        decreases results@.len() - i,
    {
        assert(results@.take(i + 1).drop_last() =~= results@.take(i as int));
        append_texts(&mut evidence, copy_texts(&results[i].evidence));
        i = i + 1;
    }
    assert(results@.take(i as int) =~= results@);
    evidence
}

/// Verifies the contract of a candidate, and gives the evidence of the verifiers.
#[verifier::opaque]
pub open spec fn contract_held(
    config: Config,
    branch: BranchConfig,
    base: Seq<char>,
    review: ReviewView,
    output: Seq<char>,
    replies: Seq<Reply>,
    at: nat,
) -> Run<Seq<Seq<char>>> {
    match resolved_ref(Tree::Work, "HEAD"@, replies, at) {
        Run::Ask(request) => Run::Ask(request),
        Run::Fail(chain, at) => Run::Fail(chain, at),
        Run::On(head, at) => match asked::<String>(
            replies,
            at,
            RequestView::Protection(Tree::Work, ProtectionView::PolicyFingerprint),
        ) {
            Run::Ask(request) => Run::Ask(request),
            Run::Fail(chain, at) => Run::Fail(chain, at),
            Run::On(fingerprint, at) => match asked::<Vec<SecurityContractVerificationDecision>>(
                replies,
                at,
                RequestView::Protection(
                    Tree::Work,
                    ProtectionView::VerifySignalContract {
                        evaluated: signal_batch(
                            project_name(config),
                            base,
                            head,
                            review,
                            fingerprint@,
                        ),
                        tests: texts(branch.tests@),
                        output,
                    },
                ),
            ) {
                Run::Ask(request) => Run::Ask(request),
                Run::Fail(chain, at) => Run::Fail(chain, at),
                Run::On(results, at) => Run::On(all_evidence(results@), at),
            },
        },
    }
}

fn hold_contract<'a>(
    config: &'a Config,
    branch: &'a BranchConfig,
    base: &str,
    review: &SecurityReviewDecision,
    output: String,
    journal: &mut Journal<'a>,
) -> (r: Result<Lines, Halt<'a>>)
    ensures
        follows(
            *old(journal),
            *final(journal),
            r,
            contract_held(
                *config,
                *branch,
                base@,
                review@,
                output@,
                old(journal).all(),
                old(journal).at(),
            ),
        ),
{
    reveal(contract_held);
    let head = resolve_ref(Tree::Work, "HEAD", journal)?;
    let fingerprint: &'a String = journal.ask(
        Request::Protection(Tree::Work, ProtectionCall::PolicyFingerprint),
    )?;
    let evaluated = make_signal_batch(
        configured_project_name(config),
        base,
        head,
        review,
        fingerprint.clone(),
    );
    let results: &'a Vec<SecurityContractVerificationDecision> = journal.ask(
        Request::Protection(
            Tree::Work,
            ProtectionCall::VerifySignalContract { evaluated, tests: &branch.tests, output },
        ),
    )?;
    Ok(Lines { list: gather_evidence(results) })
}

/// A candidate that was verified, and the verification.
pub open spec fn verified_artifacts(
    candidate_id: Seq<char>,
    finding_id: Seq<char>,
    worktree: Seq<char>,
    digest: Seq<char>,
    summary: Seq<char>,
    evidence: Seq<Seq<char>>,
    now: Seq<char>,
) -> (ArtifactView, VerificationView) {
    (
        ArtifactView {
            id: candidate_id,
            finding_id,
            worktree_path: worktree,
            content_sha256: digest,
            summary,
            created_at: now,
        },
        VerificationView {
            id: "verification-"@ + candidate_id,
            candidate_id,
            verifier: "static-gate+sandbox-tests+commit-review+fix-contract"@,
            passed: true,
            summary: "候选通过静态门禁、沙箱测试、逐提交审计和独立安全契约验证"@,
            evidence,
            created_at: now,
        },
    )
}

/// What is said where a text is too long for a digest.
pub open spec fn too_long() -> Seq<Seq<char>> {
    seq!["content is too long for a digest"@]
}

/// Prepares a candidate: it is admitted, built, examined, and its contract is verified.
pub open spec fn prepared(
    config: Config,
    offered: Seq<Seq<char>>,
    finding_id: Seq<char>,
    decision: InvestigationView,
    requested: Option<Seq<char>>,
    candidate_id: Seq<char>,
    replies: Seq<Reply>,
    at: nat,
) -> Run<(ArtifactView, VerificationView)> {
    let worktree = candidate_worktree(config.data_dir@, candidate_id);
    match admitted(config, offered, decision, requested, replies, at) {
        Run::Ask(request) => Run::Ask(request),
        Run::Fail(chain, at) => Run::Fail(chain, at),
        Run::On(branch, at) => match built(worktree, decision.changes, replies, at) {
            Run::Ask(request) => Run::Ask(request),
            Run::Fail(chain, at) => Run::Fail(chain, at),
            Run::On(base, at) => match examined(branch, base, replies, at) {
                Run::Ask(request) => Run::Ask(request),
                Run::Fail(chain, at) => Run::Fail(chain, at),
                Run::On(output, at) => match contract_held(
                    config,
                    branch,
                    base,
                    decision.review,
                    output,
                    replies,
                    at,
                ) {
                    Run::Ask(request) => Run::Ask(request),
                    Run::Fail(chain, at) => Run::Fail(chain, at),
                    Run::On(evidence, at) => match asked::<String>(
                        replies,
                        at,
                        git(
                            Tree::Work,
                            GitView::RangePatch {
                                from: base,
                                to: "HEAD"@,
                                limit: MAX_CANDIDATE_BYTES,
                            },
                        ),
                    ) {
                        Run::Ask(request) => Run::Ask(request),
                        Run::Fail(chain, at) => Run::Fail(chain, at),
                        Run::On(patch, at) => match digest_of(patch@) {
                            None => Run::Fail(too_long(), at),
                            Some(digest) => match asked::<String>(
                                replies,
                                at,
                                signal(SignalCallView::Now),
                            ) {
                                Run::Ask(request) => Run::Ask(request),
                                Run::Fail(chain, at) => Run::Fail(chain, at),
                                Run::On(now, at) => Run::On(
                                    verified_artifacts(
                                        candidate_id,
                                        finding_id,
                                        worktree,
                                        digest,
                                        decision.candidate_summary,
                                        evidence,
                                        now@,
                                    ),
                                    at,
                                ),
                            },
                        },
                    },
                },
            },
        },
    }
}

/// Prepares a candidate.
pub fn prepare_candidate<'a>(
    config: &'a Config,
    offered: &Lines,
    finding_id: &str,
    decision: &SignalInvestigationDecision,
    requested: Option<&str>,
    candidate_id: &str,
    journal: &mut Journal<'a>,
) -> (r: Result<(CandidateArtifact, VerificationResult), Halt<'a>>)
    ensures
        follows(
            *old(journal),
            *final(journal),
            r,
            prepared(
                *config,
                offered@,
                finding_id@,
                decision@,
                name_option(requested),
                candidate_id@,
                old(journal).all(),
                old(journal).at(),
            ),
        ),
{
    let branch = check_admission(config, offered, decision, requested, journal)?;
    let worktree = candidate_worktree_path(config.data_dir.as_str(), candidate_id);
    let base = build(worktree.as_str(), &decision.changes, journal)?;
    let output = examine(branch, base.as_str(), journal)?;
    let evidence = hold_contract(
        config,
        branch,
        base.as_str(),
        &decision.review,
        output,
        journal,
    )?;
    let patch: &'a String = journal.ask(
        Request::Git(
            Tree::Work,
            GitCall::RangePatch {
                from: base,
                to: "HEAD".to_owned(),
                limit: MAX_CANDIDATE_BYTES,
            },
        ),
    )?;
    let digest = match text_digest(patch.as_str()) {
        Some(digest) => digest,
        None => {
            return Err(Halt::Fail(Fault::of("content is too long for a digest")));
        },
    };
    let now: &'a String = journal.ask(Request::Signal(SignalCall::Now))?;
    Ok(
        (
            CandidateArtifact {
                id: candidate_id.to_owned(),
                finding_id: finding_id.to_owned(),
                worktree_path: worktree,
                content_sha256: digest,
                summary: decision.candidate_summary.clone(),
                created_at: now.clone(),
            },
            VerificationResult {
                id: concat2("verification-", candidate_id),
                candidate_id: candidate_id.to_owned(),
                verifier: "static-gate+sandbox-tests+commit-review+fix-contract".to_owned(),
                passed: true,
                summary: "候选通过静态门禁、沙箱测试、逐提交审计和独立安全契约验证".to_owned(),
                evidence: evidence.list,
                created_at: now.clone(),
            },
        ),
    )
}

/// What a command printed, or nothing where it could not be run.
pub open spec fn printed_or_empty(
    args: Seq<Seq<char>>,
    replies: Seq<Reply>,
    at: nat,
) -> Run<Option<Seq<char>>> {
    match caught(printed(Tree::Work, args, replies, at)) {
        Run::Ask(request) => Run::Ask(request),
        Run::Fail(chain, at) => Run::Fail(chain, at),
        Run::On(Ok(stdout), at) => Run::On(Some(stdout), at),
        Run::On(Err(_), at) => Run::On(None, at),
    }
}

fn print_or_none<'a>(args: Vec<String>, journal: &mut Journal<'a>) -> (r: Result<
    Option<String>,
    Halt<'a>,
>)
    ensures
        crate::journal::follows_option(
            *old(journal),
            *final(journal),
            r,
            printed_or_empty(texts(args@), old(journal).all(), old(journal).at()),
        ),
{
    match print(Tree::Work, args, journal) {
        Ok(stdout) => Ok(Some(stdout)),
        Err(Halt::Fail(_)) => Ok(None),
        Err(halt) => Err(halt),
    }
}

/// The arguments that show what a failed candidate changed: its commit, where there is one, or what
/// is not committed.
pub open spec fn failed_patch_args(subject: Option<Seq<char>>) -> Seq<Seq<char>> {
    if subject is Some && trimmed(subject->0) == "security candidate"@ {
        seq!["show"@, "--format="@, "--patch"@, "HEAD"@]
    } else {
        seq!["diff"@, "--patch"@, "HEAD"@]
    }
}

/// What a failed candidate changed, as far as that can be read.
pub open spec fn failed_patch(worktree: Seq<char>, replies: Seq<Reply>, at: nat) -> Run<Seq<char>> {
    match asked::<bool>(replies, at, signal(SignalCallView::WorktreeIsDir { worktree })) {
        Run::Ask(request) => Run::Ask(request),
        Run::Fail(chain, at) => Run::Fail(chain, at),
        Run::On(false, at) => Run::On(Seq::empty(), at),
        Run::On(true, at) => match printed_or_empty(
            seq!["log"@, "-1"@, "--pretty=%s"@],
            replies,
            at,
        ) {
            Run::Ask(request) => Run::Ask(request),
            Run::Fail(chain, at) => Run::Fail(chain, at),
            Run::On(subject, at) => match printed_or_empty(
                failed_patch_args(subject),
                replies,
                at,
            ) {
                Run::Ask(request) => Run::Ask(request),
                Run::Fail(chain, at) => Run::Fail(chain, at),
                Run::On(Some(patch), at) => Run::On(patch, at),
                Run::On(None, at) => Run::On(Seq::empty(), at),
            },
        },
    }
}

fn read_failed_patch<'a>(worktree: &str, journal: &mut Journal<'a>) -> (r: Result<
    String,
    Halt<'a>,
>)
    ensures
        follows(
            *old(journal),
            *final(journal),
            r,
            failed_patch(worktree@, old(journal).all(), old(journal).at()),
        ),
{
    let is_dir: &'a bool = journal.ask(
        Request::Signal(SignalCall::WorktreeIsDir { worktree: worktree.to_owned() }),
    )?;
    if !*is_dir {
        let none = String::new();
        assert(none@ =~= Seq::<char>::empty());
        return Ok(none);
    }
    let subject = print_or_none(args3("log", "-1", "--pretty=%s"), journal)?;
    let is_committed: bool = match &subject {
        Some(text) => {
            let line = trim(text.as_str());
            same_text(line.as_str(), "security candidate")
        },
        None => false,
    };
    let args = if is_committed {
        let mut args = args3("show", "--format=", "--patch");
        push_text(&mut args, "HEAD".to_owned());
        assert(texts(args@) =~= seq!["show"@, "--format="@, "--patch"@, "HEAD"@]);
        args
    } else {
        args3("diff", "--patch", "HEAD")
    };
    match print_or_none(args, journal)? {
        Some(patch) => Ok(patch),
        None => {
            let none = String::new();
            assert(none@ =~= Seq::<char>::empty());
            Ok(none)
        },
    }
}

/// A candidate that failed, and its verification.
pub open spec fn failed_artifacts(
    candidate_id: Seq<char>,
    finding_id: Seq<char>,
    worktree: Seq<char>,
    digest: Seq<char>,
    summary: Seq<char>,
    error: Seq<char>,
    now: Seq<char>,
) -> (ArtifactView, VerificationView) {
    (
        ArtifactView {
            id: candidate_id,
            finding_id,
            worktree_path: worktree,
            content_sha256: digest,
            summary: "候选未通过门禁："@ + summary + "；"@ + error,
            created_at: now,
        },
        VerificationView {
            id: "verification-"@ + candidate_id,
            candidate_id,
            verifier: "candidate-pipeline-failed-closed"@,
            passed: false,
            summary: error,
            evidence: seq!["测试、推送、发布和部署均未获得授权"@],
            created_at: now,
        },
    )
}

/// What is kept of a candidate that failed.
pub open spec fn failure_kept(
    config: Config,
    finding_id: Seq<char>,
    summary: Seq<char>,
    candidate_id: Seq<char>,
    error: Seq<char>,
    replies: Seq<Reply>,
    at: nat,
) -> Run<(ArtifactView, VerificationView)> {
    let worktree = candidate_worktree(config.data_dir@, candidate_id);
    match failed_patch(worktree, replies, at) {
        Run::Ask(request) => Run::Ask(request),
        Run::Fail(chain, at) => Run::Fail(chain, at),
        Run::On(patch, at) => match digest_of(patch) {
            None => Run::Fail(too_long(), at),
            Some(digest) => match asked::<String>(replies, at, signal(SignalCallView::Now)) {
                Run::Ask(request) => Run::Ask(request),
                Run::Fail(chain, at) => Run::Fail(chain, at),
                Run::On(now, at) => Run::On(
                    failed_artifacts(
                        candidate_id,
                        finding_id,
                        worktree,
                        digest,
                        summary,
                        error,
                        now@,
                    ),
                    at,
                ),
            },
        },
    }
}

/// What is kept of a candidate that failed.
pub fn failed_candidate_artifacts<'a>(
    config: &'a Config,
    finding_id: &str,
    summary: &str,
    candidate_id: &str,
    error: &str,
    journal: &mut Journal<'a>,
) -> (r: Result<(CandidateArtifact, VerificationResult), Halt<'a>>)
    ensures
        follows(
            *old(journal),
            *final(journal),
            r,
            failure_kept(
                *config,
                finding_id@,
                summary@,
                candidate_id@,
                error@,
                old(journal).all(),
                old(journal).at(),
            ),
        ),
{
    let worktree = candidate_worktree_path(config.data_dir.as_str(), candidate_id);
    let patch = read_failed_patch(worktree.as_str(), journal)?;
    let digest = match text_digest(patch.as_str()) {
        Some(digest) => digest,
        None => {
            return Err(Halt::Fail(Fault::of("content is too long for a digest")));
        },
    };
    let now: &'a String = journal.ask(Request::Signal(SignalCall::Now))?;
    let mut evidence: Vec<String> = Vec::new();
    evidence.push("测试、推送、发布和部署均未获得授权".to_owned());
    assert(texts(evidence@) =~= seq!["测试、推送、发布和部署均未获得授权"@]);
    Ok(
        (
            CandidateArtifact {
                id: candidate_id.to_owned(),
                finding_id: finding_id.to_owned(),
                worktree_path: worktree,
                content_sha256: digest,
                summary: concat4("候选未通过门禁：", summary, "；", error),
                created_at: now.clone(),
            },
            VerificationResult {
                id: concat2("verification-", candidate_id),
                candidate_id: candidate_id.to_owned(),
                verifier: "candidate-pipeline-failed-closed".to_owned(),
                passed: false,
                summary: error.to_owned(),
                evidence,
                created_at: now.clone(),
            },
        ),
    )
}

} // verus!
