//! Resolving the conflicts of a job without a person, where that is safe.

use vstd::prelude::*;

use crate::calls::conflict::{ConflictCall, ConflictView};
use crate::calls::git::{GitCall, GitView};
use crate::calls::{Request, RequestView, Tree};
use crate::command::git;
use crate::config::{AutoResolveConfig, BranchConfig, Config};
use crate::journal::{asked, caught, follows, follows_option, Halt, Journal, Reply, Run};
use crate::llm::types::{AutoResolveConflictRequest, AutoResolveDecision};
use crate::llm::{auto_resolution, blocks_request, LlmService};
use crate::repo::{
    CapturedConflict, CommandOutput, ConflictBlocks, ConflictFileContent, ConflictSnapshot,
    ResolvedFile,
};
use crate::sync::auto_resolve::{
    branch_facts, find_outside, first_outside, is_low, patch_or_default, patch_or_unknown,
    rounds_of, write_files, written_from,
};
use crate::sync::conflict::{base_of, base_ref};
use crate::text::{same_ignoring_case, texts};

verus! {

/// Whether conflicts are few enough and all in allowed paths.
pub open spec fn within_limits(config: AutoResolveConfig, files: Seq<Seq<char>>) -> bool {
    files.len() <= config.max_conflict_files && first_outside(files, texts(config.allowed_paths@))
        is None
}

fn stays_within(config: &AutoResolveConfig, files: &Vec<String>) -> (r: bool)
    ensures
        r == within_limits(*config, texts(files@)),
{
    files.len() <= config.max_conflict_files && find_outside(files, &config.allowed_paths).is_none()
}

/// The request for the conflicts of the worktree.
pub open spec fn capture_request(branch: BranchConfig) -> RequestView {
    RequestView::Conflict(ConflictView::Capture { branch })
}

/// The resolved files, where the decision of the model is of low risk and holds.
pub open spec fn resolved_files(
    decision: AutoResolveDecision,
    snapshot: ConflictSnapshot,
    files: Vec<ConflictFileContent>,
    replies: Seq<Reply>,
    at: nat,
) -> Run<Option<Vec<ResolvedFile>>> {
    if !is_low(decision) {
        Run::On(None, at)
    } else {
        match caught(
            asked::<Vec<ResolvedFile>>(
                replies,
                at,
                RequestView::Conflict(
                    ConflictView::Resolve { files, resolutions: decision.resolutions },
                ),
            ),
        ) {
            Run::Ask(request) => Run::Ask(request),
            Run::Fail(chain, at) => Run::Fail(chain, at),
            Run::On(Err(_), at) => Run::On(None, at),
            Run::On(Ok(resolved), at) => match caught(
                asked::<()>(
                    replies,
                    at,
                    RequestView::Conflict(
                        ConflictView::Validate { resolved, paths: texts(snapshot.files@) },
                    ),
                ),
            ) {
                Run::Ask(request) => Run::Ask(request),
                Run::Fail(chain, at) => Run::Fail(chain, at),
                Run::On(Err(_), at) => Run::On(None, at),
                Run::On(Ok(_), at) => Run::On(Some(resolved), at),
            },
        }
    }
}

fn resolve_files<'a>(
    decision: &'a AutoResolveDecision,
    snapshot: &'a ConflictSnapshot,
    files: &'a Vec<ConflictFileContent>,
    journal: &mut Journal<'a>,
) -> (r: Result<Option<&'a Vec<ResolvedFile>>, Halt<'a>>)
    ensures
        crate::journal::took_option(
            *old(journal),
            *final(journal),
            r,
            resolved_files(*decision, *snapshot, *files, old(journal).all(), old(journal).at()),
        ),
{
    if !same_ignoring_case(decision.risk.as_str(), "low") {
        return Ok(None);
    }
    let request = Request::Conflict(
        ConflictCall::Resolve { files, resolutions: &decision.resolutions },
    );
    let resolved = match journal.ask::<Vec<ResolvedFile>>(request) {
        Ok(resolved) => resolved,
        Err(Halt::Fail(_)) => {
            return Ok(None);
        },
        Err(halt) => {
            return Err(halt);
        },
    };
    let request = Request::Conflict(ConflictCall::Validate { resolved, paths: &snapshot.files });
    match journal.ask::<()>(request) {
        Ok(_) => Ok(Some(resolved)),
        Err(Halt::Fail(_)) => Ok(None),
        Err(halt) => Err(halt),
    }
}

/// What a round came to: an answer, or the conflicts to go on with.
pub enum RoundView {
    Answer(Option<bool>),
    Going(CapturedConflict),
}

enum Round<'a> {
    Answer(Option<bool>),
    Going(&'a CapturedConflict),
}

impl<'a> View for Round<'a> {
    type V = RoundView;

    closed spec fn view(&self) -> RoundView {
        match *self {
            Round::Answer(answer) => RoundView::Answer(answer),
            Round::Going(captured) => RoundView::Going(*captured),
        }
    }
}

/// Writes what a round resolved and goes on with the sync.
pub open spec fn applied(
    branch: BranchConfig,
    resolved: Vec<ResolvedFile>,
    replies: Seq<Reply>,
    at: nat,
) -> Run<RoundView> {
    match written_from(Tree::Work, resolved@, 0, replies, at) {
        Run::Ask(request) => Run::Ask(request),
        Run::Fail(chain, at) => Run::Fail(chain, at),
        Run::On(_, at) => match asked::<CommandOutput>(
            replies,
            at,
            git(Tree::Work, GitView::Continue { strategy: branch.sync }),
        ) {
            Run::Ask(request) => Run::Ask(request),
            Run::Fail(chain, at) => Run::Fail(chain, at),
            Run::On(output, at) => if output.succeeded() {
                Run::On(RoundView::Answer(Some(true)), at)
            } else {
                match asked::<CapturedConflict>(replies, at, capture_request(branch)) {
                    Run::Ask(request) => Run::Ask(request),
                    Run::Fail(chain, at) => Run::Fail(chain, at),
                    Run::On(captured, at) => if captured.snapshot.files@.len() > 0
                        && within_limits(
                        branch.auto_resolve,
                        texts(captured.snapshot.files@),
                    ) {
                        Run::On(RoundView::Going(captured), at)
                    } else {
                        Run::On(RoundView::Answer(Some(false)), at)
                    },
                }
            },
        },
    }
}

fn apply<'a>(
    branch: &'a BranchConfig,
    resolved: &'a Vec<ResolvedFile>,
    journal: &mut Journal<'a>,
) -> (r: Result<Round<'a>, Halt<'a>>)
    ensures
        follows(
            *old(journal),
            *final(journal),
            r,
            applied(*branch, *resolved, old(journal).all(), old(journal).at()),
        ),
{
    write_files(Tree::Work, resolved, journal)?;
    let output: &'a CommandOutput = journal.ask(
        Request::Git(Tree::Work, GitCall::Continue { strategy: branch.sync }),
    )?;
    if output.success() {
        return Ok(Round::Answer(Some(true)));
    }
    let captured: &'a CapturedConflict = journal.ask(
        Request::Conflict(ConflictCall::Capture { branch }),
    )?;
    if captured.snapshot.files.len() > 0 && stays_within(
        &branch.auto_resolve,
        &captured.snapshot.files,
    ) {
        Ok(Round::Going(captured))
    } else {
        Ok(Round::Answer(Some(false)))
    }
}

/// A round: a decision of the model on the conflicts, and its application.
#[verifier::opaque]
pub open spec fn low_risk_round(
    config: Config,
    branch: BranchConfig,
    snapshot: ConflictSnapshot,
    files: Vec<ConflictFileContent>,
    replies: Seq<Reply>,
    at: nat,
) -> Run<RoundView> {
    match asked::<ConflictBlocks>(replies, at, blocks_request(files)) {
        Run::Ask(request) => Run::Ask(request),
        Run::Fail(chain, at) => Run::Fail(chain, at),
        Run::On(blocks, at) => if blocks.payload_bytes > branch.auto_resolve.max_file_bytes {
            Run::On(RoundView::Answer(Some(false)), at)
        } else {
            match patch_or_unknown(Tree::Work, replies, at) {
                Run::Ask(request) => Run::Ask(request),
                Run::Fail(chain, at) => Run::Fail(chain, at),
                Run::On(patch, at) => match auto_resolution(
                    config.llm,
                    branch_facts(branch, base_ref(config.repo), patch, snapshot),
                    files,
                    replies,
                    at,
                ) {
                    Run::Ask(request) => Run::Ask(request),
                    Run::Fail(chain, at) => Run::Fail(chain, at),
                    Run::On(None, at) => Run::On(RoundView::Answer(None), at),
                    Run::On(Some(decision), at) => match resolved_files(
                        decision,
                        snapshot,
                        files,
                        replies,
                        at,
                    ) {
                        Run::Ask(request) => Run::Ask(request),
                        Run::Fail(chain, at) => Run::Fail(chain, at),
                        Run::On(None, at) => Run::On(RoundView::Answer(Some(false)), at),
                        Run::On(Some(resolved), at) => applied(branch, resolved, replies, at),
                    },
                },
            }
        },
    }
}

fn run_round<'a>(
    config: &'a Config,
    branch: &'a BranchConfig,
    snapshot: &'a ConflictSnapshot,
    files: &'a Vec<ConflictFileContent>,
    journal: &mut Journal<'a>,
) -> (r: Result<Round<'a>, Halt<'a>>)
    ensures
        follows(
            *old(journal),
            *final(journal),
            r,
            low_risk_round(
                *config,
                *branch,
                *snapshot,
                *files,
                old(journal).all(),
                old(journal).at(),
            ),
        ),
{
    reveal(low_risk_round);
    let blocks: &'a ConflictBlocks = journal.ask(
        Request::Conflict(ConflictCall::Blocks { files }),
    )?;
    if blocks.payload_bytes > branch.auto_resolve.max_file_bytes {
        return Ok(Round::Answer(Some(false)));
    }
    let patch_context = patch_or_default(Tree::Work, journal)?;
    let request = AutoResolveConflictRequest {
        branch: branch.name.clone(),
        base: base_of(&config.repo),
        branch_note: branch.note.clone(),
        patch_context,
        snapshot,
        files,
    };
    assert(request@ == branch_facts(
        *branch,
        base_ref(config.repo),
        patch_context@,
        *snapshot,
    ));
    let llm = LlmService::new(&config.llm);
    let decision = match llm.auto_resolve_conflict(&request, journal)? {
        Some(decision) => decision,
        None => {
            return Ok(Round::Answer(None));
        },
    };
    match resolve_files(decision, snapshot, files, journal)? {
        Some(resolved) => apply(branch, resolved, journal),
        None => Ok(Round::Answer(Some(false))),
    }
}

/// The rounds that are left.
pub open spec fn low_risk_rounds(
    config: Config,
    branch: BranchConfig,
    left: nat,
    snapshot: ConflictSnapshot,
    files: Vec<ConflictFileContent>,
    replies: Seq<Reply>,
    at: nat,
) -> Run<Option<bool>>
    decreases left,
{
    if left == 0 {
        Run::On(Some(false), at)
    } else {
        match low_risk_round(config, branch, snapshot, files, replies, at) {
            Run::Ask(request) => Run::Ask(request),
            Run::Fail(chain, at) => Run::Fail(chain, at),
            Run::On(RoundView::Answer(answer), at) => Run::On(answer, at),
            Run::On(RoundView::Going(captured), at) => low_risk_rounds(
                config,
                branch,
                (left - 1) as nat,
                captured.snapshot,
                captured.files,
                replies,
                at,
            ),
        }
    }
}

/// Whether conflicts may be resolved without a person.
pub open spec fn may_resolve(branch: BranchConfig, files: Seq<Seq<char>>) -> bool {
    branch.auto_resolve.enabled && branch.auto_resolve.allowed_paths@.len() > 0 && within_limits(
        branch.auto_resolve,
        files,
    )
}

/// Resolves the conflicts of a job: whether the sync came through, or nothing where it was not
/// tried.
pub open spec fn low_risk(
    config: Config,
    branch: BranchConfig,
    captured: CapturedConflict,
    replies: Seq<Reply>,
    at: nat,
) -> Run<Option<bool>> {
    if may_resolve(branch, texts(captured.snapshot.files@)) {
        low_risk_rounds(
            config,
            branch,
            rounds_of(branch.auto_resolve),
            captured.snapshot,
            captured.files,
            replies,
            at,
        )
    } else {
        Run::On(None, at)
    }
}

/// Resolves the conflicts of a job, where they may be resolved without a person.
pub fn try_low_risk_auto_resolve<'a>(
    config: &'a Config,
    branch: &'a BranchConfig,
    captured: &'a CapturedConflict,
    journal: &mut Journal<'a>,
) -> (r: Result<Option<bool>, Halt<'a>>)
    ensures
        follows_option(
            *old(journal),
            *final(journal),
            r,
            low_risk(*config, *branch, *captured, old(journal).all(), old(journal).at()),
        ),
{
    if !branch.auto_resolve.enabled || branch.auto_resolve.allowed_paths.len() == 0
        || !stays_within(&branch.auto_resolve, &captured.snapshot.files) {
        return Ok(None);
    }
    let mut left: usize = if branch.auto_resolve.max_rounds < 1 {
        1
    } else {
        branch.auto_resolve.max_rounds
    };
    let ghost expected = low_risk(*config, *branch, *captured, journal.all(), journal.at());
    let mut snapshot: &'a ConflictSnapshot = &captured.snapshot;
    let mut files: &'a Vec<ConflictFileContent> = &captured.files;
    while left > 0
        invariant
            journal.all() == old(journal).all(),
            expected == low_risk(
                *config,
                *branch,
                *captured,
                old(journal).all(),
                old(journal).at(),
            ),
            expected == low_risk_rounds(
                *config,
                *branch,
                left as nat,
                *snapshot,
                *files,
                journal.all(),
                journal.at(),
            ),
        decreases left,
    {
        match run_round(config, branch, snapshot, files, journal)? {
            Round::Answer(answer) => {
                return Ok(answer);
            },
            Round::Going(next) => {
                snapshot = &next.snapshot;
                files = &next.files;
            },
        }
        left = left - 1;
    }
    Ok(Some(false))
}

} // verus!
