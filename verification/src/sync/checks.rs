//! What a branch must pass before it is pushed.

use vstd::prelude::*;

use crate::calls::git::{GitCall, GitView};
use crate::calls::protect::{ProtectionCall, ProtectionView};
use crate::calls::{Request, RequestView, Tree};
use crate::command::git;
use crate::config::{BranchConfig, Config};
use crate::fault::fault_text;
use crate::journal::{asked, caught, follows, Halt, Journal, Reply, Run};
use crate::protection::types::{
    disposition_label, CommitSecurityReviewBatch, EvaluatedSecurityReview,
    SecurityContractVerificationDecision, SecurityDisposition,
};
use crate::repo::CommandOutput;
use crate::report::BranchReport;
use crate::sync::auto_resolve::with_stderr;
use crate::sync::report::{failed_report, failure, one_line};
use crate::sync::stage::{ended, Stage, StageView, SyncBranchOutcome};
use crate::text::number::{signed_decimal, signed_text};
use crate::text::{blank, concat2, concat5, copy_texts, push_text, texts, Lines};

verus! {

/// A check of the protection rules in the repository.
pub open spec fn protection(call: ProtectionView) -> RequestView {
    RequestView::Protection(Tree::Main, call)
}

/// What a report says of a review that does not allow a commit.
pub open spec fn review_line(review: EvaluatedSecurityReview) -> Seq<char> {
    review.commit@ + " "@ + disposition_label(review.disposition@) + ": "@
        + review.decision.summary@
}

/// What a report says of the reviews that do not allow their commits.
pub open spec fn blocked_lines(reviews: Seq<EvaluatedSecurityReview>) -> Seq<Seq<char>>
    decreases reviews.len(),
{
    if reviews.len() == 0 {
        Seq::empty()
    } else {
        let before = blocked_lines(reviews.drop_last());
        if reviews.last().disposition is Allow {
            before
        } else {
            before.push(review_line(reviews.last()))
        }
    }
}

fn list_blocked(reviews: &Vec<EvaluatedSecurityReview>) -> (r: Vec<String>)
    ensures
        texts(r@) == blocked_lines(reviews@),
{
    let mut lines: Vec<String> = Vec::new();
    assert(texts(lines@) =~= blocked_lines(reviews@.take(0)));
    let mut i: usize = 0;
    while i < reviews.len()
        invariant
            i <= reviews@.len(),
            texts(lines@) == blocked_lines(reviews@.take(i as int)),
        decreases reviews@.len() - i,
    {
        assert(reviews@.take(i + 1).drop_last() =~= reviews@.take(i as int));
        let review = &reviews[i];
        match &review.disposition {
            SecurityDisposition::Allow => {},
            _ => {
                let label = review.disposition.label();
                push_text(
                    &mut lines,
                    concat5(
                        review.commit.as_str(),
                        " ",
                        label.as_str(),
                        ": ",
                        review.decision.summary.as_str(),
                    ),
                );
            },
        }
        i = i + 1;
    }
    assert(reviews@.take(i as int) =~= reviews@);
    lines
}

/// Reviews the commits of a sync; there may be none to review.
pub open spec fn reviewed(
    branch: BranchConfig,
    before_head: Seq<char>,
    replies: Seq<Reply>,
    at: nat,
) -> Run<StageView<Option<CommitSecurityReviewBatch>>> {
    match caught(
        asked::<Option<CommitSecurityReviewBatch>>(
            replies,
            at,
            protection(ProtectionView::Reviews { from: before_head, to: "HEAD"@ }),
        ),
    ) {
        Run::Ask(request) => Run::Ask(request),
        Run::Fail(chain, at) => Run::Fail(chain, at),
        Run::On(Err(chain), at) => Run::On(
            ended(
                failure(
                    branch,
                    seq!["project security review failed closed: "@ + fault_text(chain)],
                ),
            ),
            at,
        ),
        Run::On(Ok(None), at) => Run::On(StageView::Go(None), at),
        Run::On(Ok(Some(batch)), at) => match caught(
            asked::<()>(replies, at, protection(ProtectionView::CanProceed { batch })),
        ) {
            Run::Ask(request) => Run::Ask(request),
            Run::Fail(chain, at) => Run::Fail(chain, at),
            Run::On(Ok(_), at) => Run::On(StageView::Go(Some(batch)), at),
            Run::On(Err(chain), at) => Run::On(
                ended(
                    failure(
                        branch,
                        seq!["project security review blocked execution: "@ + fault_text(chain)]
                            + blocked_lines(batch.reviews@),
                    ),
                ),
                at,
            ),
        },
    }
}

fn review_commits<'a>(branch: &'a BranchConfig, before_head: &str, journal: &mut Journal<'a>) -> (r:
    Result<Stage<Option<&'a CommitSecurityReviewBatch>>, Halt<'a>>)
    ensures
        reviewed_by(
            *old(journal),
            *final(journal),
            r,
            reviewed(*branch, before_head@, old(journal).all(), old(journal).at()),
        ),
{
    let request = Request::Protection(
        Tree::Main,
        ProtectionCall::Reviews { from: before_head.to_owned(), to: "HEAD".to_owned() },
    );
    let batch = match journal.ask::<Option<CommitSecurityReviewBatch>>(request) {
        Ok(Some(batch)) => batch,
        Ok(None) => {
            return Ok(Stage::Go(None));
        },
        Err(Halt::Fail(fault)) => {
            let text = fault.text();
            let report = failed_report(
                branch,
                concat2("project security review failed closed: ", text.as_str()),
            );
            return Ok(Stage::End(SyncBranchOutcome::Report(report)));
        },
        Err(halt) => {
            return Err(halt);
        },
    };
    let request = Request::Protection(Tree::Main, ProtectionCall::CanProceed { batch });
    match journal.ask::<()>(request) {
        Ok(_) => Ok(Stage::Go(Some(batch))),
        Err(Halt::Fail(fault)) => {
            let text = fault.text();
            let mut report = failed_report(
                branch,
                concat2("project security review blocked execution: ", text.as_str()),
            );
            report.push_details(list_blocked(&batch.reviews));
            Ok(Stage::End(SyncBranchOutcome::Report(report)))
        },
        Err(halt) => Err(halt),
    }
}

/// Whether the result of a review is that of a run.
pub open spec fn reviewed_by<'a>(
    before: Journal<'a>,
    after: Journal<'a>,
    r: Result<Stage<Option<&'a CommitSecurityReviewBatch>>, Halt<'a>>,
    run: Run<StageView<Option<CommitSecurityReviewBatch>>>,
) -> bool {
    &&& after.all() == before.all()
    &&& match run {
        Run::Ask(request) => r matches Err(Halt::Ask(found)) && found@ == request,
        Run::Fail(chain, at) => r matches Err(Halt::Fail(fault)) && fault@ == chain && after.at()
            == at,
        Run::On(StageView::Go(None), at) => r matches Ok(Stage::Go(found)) && found is None
            && after.at() == at,
        Run::On(StageView::Go(Some(batch)), at) => r matches Ok(Stage::Go(Some(found))) && *found
            == batch && after.at() == at,
        Run::On(StageView::End(outcome), at) => r matches Ok(Stage::End(found)) && found@
            == outcome && after.at() == at,
    }
}

/// Holds a synced tree against the rules that come before any test is run: behaviour must be
/// tested where the branch requires it, the files must be clean, and the commits must be allowed.
#[verifier::opaque]
pub open spec fn screened(
    branch: BranchConfig,
    before_head: Seq<char>,
    details: Seq<Seq<char>>,
    replies: Seq<Reply>,
    at: nat,
) -> Run<StageView<Option<CommitSecurityReviewBatch>>> {
    if branch.require_behavioral_tests && !branch.behavioral_tests {
        Run::On(
            ended(
                failure(
                    branch,
                    seq![
                        "test policy failed: behavioral tests required, but only py_compile/compileall checks are configured"@,
                    ],
                ),
            ),
            at,
        )
    } else {
        match caught(asked::<()>(replies, at, protection(ProtectionView::Gate))) {
            Run::Ask(request) => Run::Ask(request),
            Run::Fail(chain, at) => Run::Fail(chain, at),
            Run::On(Err(chain), at) => Run::On(
                ended(
                    failure(
                        branch,
                        seq!["project protection gate blocked execution: "@ + fault_text(chain)]
                            + details,
                    ),
                ),
                at,
            ),
            Run::On(Ok(_), at) => reviewed(branch, before_head, replies, at),
        }
    }
}

/// Holds a synced tree against the rules that come before any test is run.
pub fn screen<'a>(
    branch: &'a BranchConfig,
    before_head: &str,
    details: &Lines,
    journal: &mut Journal<'a>,
) -> (r: Result<Stage<Option<&'a CommitSecurityReviewBatch>>, Halt<'a>>)
    ensures
        reviewed_by(
            *old(journal),
            *final(journal),
            r,
            screened(*branch, before_head@, details@, old(journal).all(), old(journal).at()),
        ),
{
    reveal(screened);
    if branch.require_behavioral_tests && !branch.has_behavioral_tests() {
        let report = failed_report(
            branch,
            "test policy failed: behavioral tests required, but only py_compile/compileall checks are configured".to_owned(),
        );
        return Ok(Stage::End(SyncBranchOutcome::Report(report)));
    }
    match journal.ask::<()>(Request::Protection(Tree::Main, ProtectionCall::Gate)) {
        Ok(_) => review_commits(branch, before_head, journal),
        Err(Halt::Fail(fault)) => {
            let text = fault.text();
            let mut report = failed_report(
                branch,
                concat2("project protection gate blocked execution: ", text.as_str()),
            );
            report.push_details(copy_texts(&details.list));
            Ok(Stage::End(SyncBranchOutcome::Report(report)))
        },
        Err(halt) => Err(halt),
    }
}

/// What is kept of a test command and what it printed.
pub open spec fn test_record(command: Seq<char>, output: CommandOutput) -> Seq<char> {
    "$ "@ + command + "\n"@ + output.stdout@ + "\n"@ + output.stderr@ + "\n"@
}

/// Adds what is kept of a test command.
pub fn add_record(printed: &mut String, command: &str, output: &CommandOutput)
    ensures
        final(printed)@ == old(printed)@ + test_record(command@, *output),
{
    let mut record = concat5("$ ", command, "\n", output.stdout.as_str(), "\n");
    record.append(output.stderr.as_str());
    record.append("\n");
    printed.append(record.as_str());
}

/// The report of a test that failed.
pub open spec fn test_failure(
    branch: BranchConfig,
    command: Seq<char>,
    output: CommandOutput,
    details: Seq<Seq<char>>,
) -> crate::report::ReportView {
    failure(
        branch,
        with_stderr(
            seq!["test failed: "@ + command, "exit code: "@ + signed_decimal(output.status as int)]
                + details,
            "stderr: "@,
            output.stderr@,
        ),
    )
}

fn test_failed_report(
    branch: &BranchConfig,
    command: &str,
    output: &CommandOutput,
    details: &Lines,
) -> (r: BranchReport)
    ensures
        r@ == test_failure(*branch, command@, *output, details@),
{
    let code = signed_text(output.status);
    let mut report = failed_report(branch, concat2("test failed: ", command));
    report.push_detail(concat2("exit code: ", code.as_str()));
    report.push_details(copy_texts(&details.list));
    assert(report@.details =~= seq![
        "test failed: "@ + command@,
        "exit code: "@ + signed_decimal(output.status as int),
    ] + details@);
    if !blank(output.stderr.as_str()) {
        let line = one_line(output.stderr.as_str());
        report.push_detail(concat2("stderr: ", line.as_str()));
    }
    report
}

/// Runs the tests of a branch, from a given one on, and gives what they printed.
pub open spec fn tests_from(
    sandboxed: bool,
    branch: BranchConfig,
    details: Seq<Seq<char>>,
    next: nat,
    printed: Seq<char>,
    replies: Seq<Reply>,
    at: nat,
) -> Run<StageView<Seq<char>>>
    decreases branch.tests@.len() - next,
{
    if next >= branch.tests@.len() {
        Run::On(StageView::Go(printed), at)
    } else {
        let command = branch.tests@[next as int]@;
        match asked::<CommandOutput>(
            replies,
            at,
            git(Tree::Main, GitView::Test { command, sandboxed }),
        ) {
            Run::Ask(request) => Run::Ask(request),
            Run::Fail(chain, at) => Run::Fail(chain, at),
            Run::On(output, at) => if output.succeeded() {
                tests_from(
                    sandboxed,
                    branch,
                    details,
                    next + 1,
                    printed + test_record(command, output),
                    replies,
                    at,
                )
            } else {
                Run::On(ended(test_failure(branch, command, output, details)), at)
            },
        }
    }
}

fn run_tests<'a>(
    sandboxed: bool,
    branch: &'a BranchConfig,
    details: &Lines,
    journal: &mut Journal<'a>,
) -> (r: Result<Stage<String>, Halt<'a>>)
    ensures
        follows(
            *old(journal),
            *final(journal),
            r,
            tests_from(
                sandboxed,
                *branch,
                details@,
                0,
                Seq::empty(),
                old(journal).all(),
                old(journal).at(),
            ),
        ),
{
    let mut printed = String::new();
    assert(printed@ =~= Seq::<char>::empty());
    let mut i: usize = 0;
    while i < branch.tests.len()
        invariant
            i <= branch.tests@.len(),
            journal.all() == old(journal).all(),
            tests_from(
                sandboxed,
                *branch,
                details@,
                0,
                Seq::empty(),
                old(journal).all(),
                old(journal).at(),
            ) == tests_from(
                sandboxed,
                *branch,
                details@,
                i as nat,
                printed@,
                journal.all(),
                journal.at(),
            ),
        decreases branch.tests@.len() - i,
    {
        let command: &'a str = branch.tests[i].as_str();
        let output: &'a CommandOutput = journal.ask(
            Request::Git(Tree::Main, GitCall::Test { command, sandboxed }),
        )?;
        if !output.success() {
            let report = test_failed_report(branch, command, output, details);
            return Ok(Stage::End(SyncBranchOutcome::Report(report)));
        }
        add_record(&mut printed, command, output);
        i = i + 1;
    }
    Ok(Stage::Go(printed))
}

/// Verifies the contracts of reviews, where there are reviews.
pub open spec fn contracts_verified(
    branch: BranchConfig,
    batch: Option<CommitSecurityReviewBatch>,
    printed: Seq<char>,
    replies: Seq<Reply>,
    at: nat,
) -> Run<StageView<()>> {
    match batch {
        None => Run::On(StageView::Go(()), at),
        Some(batch) => match caught(
            asked::<Vec<SecurityContractVerificationDecision>>(
                replies,
                at,
                protection(
                    ProtectionView::VerifyContracts {
                        batch,
                        tests: texts(branch.tests@),
                        output: printed,
                    },
                ),
            ),
        ) {
            Run::Ask(request) => Run::Ask(request),
            Run::Fail(chain, at) => Run::Fail(chain, at),
            Run::On(Ok(_), at) => Run::On(StageView::Go(()), at),
            Run::On(Err(chain), at) => Run::On(
                ended(
                    failure(
                        branch,
                        seq![
                            "project FixContract verification failed closed: "@ + fault_text(
                                chain,
                            ),
                        ],
                    ),
                ),
                at,
            ),
        },
    }
}

fn verify_contracts<'a>(
    branch: &'a BranchConfig,
    batch: Option<&'a CommitSecurityReviewBatch>,
    printed: String,
    journal: &mut Journal<'a>,
) -> (r: Result<Stage<()>, Halt<'a>>)
    ensures
        follows(
            *old(journal),
            *final(journal),
            r,
            contracts_verified(
                *branch,
                batch_of(batch),
                printed@,
                old(journal).all(),
                old(journal).at(),
            ),
        ),
{
    let batch = match batch {
        Some(batch) => batch,
        None => {
            return Ok(Stage::Go(()));
        },
    };
    let request = Request::Protection(
        Tree::Main,
        ProtectionCall::VerifyContracts { batch, tests: &branch.tests, output: printed },
    );
    match journal.ask::<Vec<SecurityContractVerificationDecision>>(request) {
        Ok(_) => Ok(Stage::Go(())),
        Err(Halt::Fail(fault)) => {
            let text = fault.text();
            let report = failed_report(
                branch,
                concat2("project FixContract verification failed closed: ", text.as_str()),
            );
            Ok(Stage::End(SyncBranchOutcome::Report(report)))
        },
        Err(halt) => Err(halt),
    }
}

/// The reviews, where there are some.
pub open spec fn batch_of(batch: Option<&CommitSecurityReviewBatch>) -> Option<
    CommitSecurityReviewBatch,
> {
    match batch {
        Some(found) => Some(*found),
        None => None,
    }
}

/// Whether a branch whose conflicts were resolved lacks the tests that it requires then.
pub open spec fn lacks_tests(branch: BranchConfig, details: Seq<Seq<char>>) -> bool {
    branch.tests@.len() == 0 && branch.auto_resolve.enabled && branch.auto_resolve.require_tests
        && details.len() > 0
}

/// Tests a branch, and holds what the tests printed against the contracts.
#[verifier::opaque]
pub open spec fn tested(
    config: Config,
    branch: BranchConfig,
    batch: Option<CommitSecurityReviewBatch>,
    details: Seq<Seq<char>>,
    replies: Seq<Reply>,
    at: nat,
) -> Run<StageView<()>> {
    match tests_from(
        config.protection.enabled,
        branch,
        details,
        0,
        Seq::empty(),
        replies,
        at,
    ) {
        Run::Ask(request) => Run::Ask(request),
        Run::Fail(chain, at) => Run::Fail(chain, at),
        Run::On(StageView::End(outcome), at) => Run::On(StageView::End(outcome), at),
        Run::On(StageView::Go(printed), at) => match contracts_verified(
            branch,
            batch,
            printed,
            replies,
            at,
        ) {
            Run::Ask(request) => Run::Ask(request),
            Run::Fail(chain, at) => Run::Fail(chain, at),
            Run::On(StageView::End(outcome), at) => Run::On(StageView::End(outcome), at),
            Run::On(StageView::Go(_), at) => if lacks_tests(branch, details) {
                Run::On(
                    ended(
                        failure(
                            branch,
                            seq![
                                "auto resolve failed: require_tests is true but no tests configured"@,
                            ],
                        ),
                    ),
                    at,
                )
            } else {
                Run::On(StageView::Go(()), at)
            },
        },
    }
}

/// Tests a branch, and holds what the tests printed against the contracts.
pub fn test_branch<'a>(
    config: &'a Config,
    branch: &'a BranchConfig,
    batch: Option<&'a CommitSecurityReviewBatch>,
    details: &Lines,
    journal: &mut Journal<'a>,
) -> (r: Result<Stage<()>, Halt<'a>>)
    ensures
        follows(
            *old(journal),
            *final(journal),
            r,
            tested(
                *config,
                *branch,
                batch_of(batch),
                details@,
                old(journal).all(),
                old(journal).at(),
            ),
        ),
{
    reveal(tested);
    let printed = match run_tests(config.protection.enabled, branch, details, journal)? {
        Stage::Go(printed) => printed,
        Stage::End(outcome) => {
            return Ok(Stage::End(outcome));
        },
    };
    if let Stage::End(outcome) = verify_contracts(branch, batch, printed, journal)? {
        return Ok(Stage::End(outcome));
    }
    if branch.tests.len() == 0 && branch.auto_resolve.enabled
        && branch.auto_resolve.require_tests && details.list.len() > 0 {
        let report = failed_report(
            branch,
            "auto resolve failed: require_tests is true but no tests configured".to_owned(),
        );
        return Ok(Stage::End(SyncBranchOutcome::Report(report)));
    }
    Ok(Stage::Go(()))
}

} // verus!
