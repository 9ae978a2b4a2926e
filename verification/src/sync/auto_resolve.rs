//! Going on with a sync that stopped on conflicts.
//!
//! Only conflicts in allowed paths are given to the model, and their number and size, and the
//! number of rounds, are limited.

use vstd::prelude::*;

use crate::calls::conflict::{ConflictCall, ConflictView};
use crate::calls::git::{GitCall, GitView};
use crate::calls::{Request, RequestView, Tree};
use crate::command::{args3, git};
use crate::config::{AutoResolveConfig, BranchConfig, LlmConfig, SyncStrategy};
use crate::fault::{fault_text, Fault};
use crate::journal::{asked, caught, follows, follows_option, Halt, Journal, Reply, Run};
use crate::llm::types::{AutoResolveConflictRequest, AutoResolveDecision, ConflictFacts};
use crate::llm::{auto_resolution, blocks_request, LlmService};
use crate::repo::{
    CommandOutput, ConflictBlocks, ConflictFileContent, ConflictSnapshot, PatchView, ResolvedFile,
    SyncPatchContext,
};
use crate::sync::report::{on_one_line, one_line};
use crate::text::number::{count_text, decimal};
use crate::text::pattern::{
    begins_with, replace, replaced, starts_with, trim_end_char, without_trailing,
};
use crate::text::{
    ascii_lower, blank, concat2, concat3, concat4, is_blank, join, joined,
    push_text, same_ignoring_case, same_text, text_option, texts, trim, trimmed,
};

verus! {

/// The largest snapshot of a conflict, in bytes.
pub const SNAPSHOT_BYTES: usize = 81920;

/// The largest context of a patch, in bytes.
pub const PATCH_CONTEXT_BYTES: usize = 24576;

/// How often a sync is gone on with before it is given up.
pub const MAX_CONTINUES: usize = 20;

/// A path with slashes only.
pub open spec fn with_slashes(path: Seq<char>) -> Seq<char> {
    replaced(path, "\\"@, "/"@)
}

/// A path with slashes only.
pub fn to_slashes(path: &str) -> (r: String)
    ensures
        r@ == with_slashes(path@),
{
    proof {
        reveal_strlit("\\");
    }
    replace(path, "\\", "/")
}

/// Whether a path is an allowed one or lies below it.
pub open spec fn lies_in(path: Seq<char>, allowed: Seq<char>) -> bool {
    let root = without_trailing(with_slashes(allowed), '/');
    with_slashes(path) == root || begins_with(with_slashes(path), root + "/"@)
}

/// Whether a path lies in one of the allowed ones.
pub open spec fn is_allowed(path: Seq<char>, allowed: Seq<Seq<char>>) -> bool {
    exists|i: int| 0 <= i < allowed.len() && #[trigger] lies_in(path, allowed[i])
}

/// Whether a path lies in one of the allowed ones.
pub fn path_is_allowed(path: &str, allowed_paths: &Vec<String>) -> (r: bool)
    ensures
        r == is_allowed(path@, texts(allowed_paths@)),
{
    let normalized = to_slashes(path);
    let ghost all = texts(allowed_paths@);
    let mut i: usize = 0;
    while i < allowed_paths.len()
        invariant
            i <= allowed_paths@.len(),
            all == texts(allowed_paths@),
            normalized@ == with_slashes(path@),
            forall|j: int| 0 <= j < i ==> !#[trigger] lies_in(path@, all[j]),
        decreases allowed_paths@.len() - i,
    {
        assert(all[i as int] == allowed_paths@[i as int]@);
        let allowed = to_slashes(allowed_paths[i].as_str());
        let root = trim_end_char(allowed.as_str(), '/');
        let below = concat2(root.as_str(), "/");
        if same_text(normalized.as_str(), root.as_str()) || starts_with(
            normalized.as_str(),
            below.as_str(),
        ) {
            assert(lies_in(path@, all[i as int]));
            return true;
        }
        i = i + 1;
    }
    false
}

/// The first path that lies in none of the allowed ones.
pub open spec fn first_outside(files: Seq<Seq<char>>, allowed: Seq<Seq<char>>) -> Option<Seq<char>>
    decreases files.len(),
{
    if files.len() == 0 {
        None
    } else if !is_allowed(files[0], allowed) {
        Some(files[0])
    } else {
        first_outside(files.skip(1), allowed)
    }
}

/// Finds the first path that lies in none of the allowed ones.
pub fn find_outside<'b>(files: &'b Vec<String>, allowed: &Vec<String>) -> (r: Option<&'b String>)
    ensures
        match first_outside(texts(files@), texts(allowed@)) {
            Some(path) => r matches Some(found) && found@ == path,
            None => r is None,
        },
{
    let ghost all = texts(files@);
    let mut i: usize = 0;
    assert(all.skip(0) =~= all);
    while i < files.len()
        invariant
            i <= files@.len(),
            all == texts(files@),
            first_outside(all, texts(allowed@)) == first_outside(
                all.skip(i as int),
                texts(allowed@),
            ),
        decreases files@.len() - i,
    {
        assert(all.skip(i as int)[0] == files@[i as int]@);
        assert(all.skip(i as int).skip(1) =~= all.skip(i + 1));
        if !path_is_allowed(files[i].as_str(), allowed) {
            return Some(&files[i]);
        }
        i = i + 1;
    }
    None
}

/// Where no path is found outside, every path lies in one of the allowed ones.
pub proof fn lemma_nothing_outside(files: Seq<Seq<char>>, allowed: Seq<Seq<char>>, at: int)
    requires
        first_outside(files, allowed) is None,
        0 <= at < files.len(),
    ensures
        is_allowed(files[at], allowed),
    decreases files.len(),
{
    if at > 0 {
        lemma_nothing_outside(files.skip(1), allowed, at - 1);
        assert(files.skip(1)[at - 1] == files[at]);
    }
}

/// The arguments with which git tells whether something is staged.
pub open spec fn staged_args() -> Seq<Seq<char>> {
    seq!["diff"@, "--cached"@, "--quiet"@]
}

/// A run that tells whether something is staged.
pub open spec fn staged(replies: Seq<Reply>, at: nat) -> Run<bool> {
    match asked::<CommandOutput>(
        replies,
        at,
        git(Tree::Main, GitView::Run { args: staged_args() }),
    ) {
        Run::Ask(request) => Run::Ask(request),
        Run::Fail(chain, at) => Run::Fail(chain, at),
        Run::On(output, at) => if output.status == 0 {
            Run::On(false, at)
        } else if output.status == 1 {
            Run::On(true, at)
        } else {
            Run::Fail(seq!["failed to inspect staged changes: "@ + trimmed(output.stderr@)], at)
        },
    }
}

/// Tells whether something is staged.
pub fn has_staged_changes<'a>(journal: &mut Journal<'a>) -> (r: Result<bool, Halt<'a>>)
    ensures
        follows(
            *old(journal),
            *final(journal),
            r,
            staged(old(journal).all(), old(journal).at()),
        ),
{
    let args = args3("diff", "--cached", "--quiet");
    let output: &'a CommandOutput = journal.ask(Request::Git(Tree::Main, GitCall::Run { args }))?;
    if output.status == 0 {
        Ok(false)
    } else if output.status == 1 {
        Ok(true)
    } else {
        let stderr = trim(output.stderr.as_str());
        Err(
            Halt::Fail(
                Fault::new(concat2("failed to inspect staged changes: ", stderr.as_str())),
            ),
        )
    }
}

/// The commit that is checked out, or nothing where it cannot be read.
pub open spec fn head_or_empty(replies: Seq<Reply>, at: nat) -> Run<Seq<char>> {
    match caught(asked::<String>(replies, at, git(Tree::Main, GitView::Head))) {
        Run::Ask(request) => Run::Ask(request),
        Run::Fail(chain, at) => Run::Fail(chain, at),
        Run::On(Ok(head), at) => Run::On(head@, at),
        Run::On(Err(_), at) => Run::On(Seq::empty(), at),
    }
}

fn head_or_default<'a>(journal: &mut Journal<'a>) -> (r: Result<String, Halt<'a>>)
    ensures
        follows(
            *old(journal),
            *final(journal),
            r,
            head_or_empty(old(journal).all(), old(journal).at()),
        ),
{
    match journal.ask::<String>(Request::Git(Tree::Main, GitCall::Head)) {
        Ok(head) => Ok(head.clone()),
        Err(Halt::Fail(_)) => Ok(String::new()),
        Err(halt) => Err(halt),
    }
}

/// How going on with a sync ended: it came through, or it stopped.
pub enum ContinueView {
    Applied(Seq<Seq<char>>),
    Stopped(ConflictSnapshot, Seq<Seq<char>>),
}

/// How going on with a sync ended.
pub enum AutoContinueOutcome<'a> {
    Applied(Vec<String>),
    Stopped { snapshot: &'a ConflictSnapshot, details: Vec<String> },
}

impl<'a> View for AutoContinueOutcome<'a> {
    type V = ContinueView;

    open spec fn view(&self) -> ContinueView {
        match *self {
            AutoContinueOutcome::Applied(details) => ContinueView::Applied(texts(details@)),
            AutoContinueOutcome::Stopped { snapshot, details } => ContinueView::Stopped(
                *snapshot,
                texts(details@),
            ),
        }
    }
}

/// Details, with what a command printed as an error, where it did.
pub open spec fn with_stderr(
    details: Seq<Seq<char>>,
    title: Seq<char>,
    stderr: Seq<char>,
) -> Seq<Seq<char>> {
    if is_blank(stderr) {
        details
    } else {
        details.push(title + on_one_line(stderr))
    }
}

fn push_stderr(details: &mut Vec<String>, title: &str, stderr: &str)
    ensures
        texts(final(details)@) == with_stderr(texts(old(details)@), title@, stderr@),
{
    if !blank(stderr) {
        let line = one_line(stderr);
        push_text(details, concat2(title, line.as_str()));
    }
}

/// Goes on with a sync, up to so many times more.
pub open spec fn continue_from(
    strategy: SyncStrategy,
    left: nat,
    last_head: Seq<char>,
    details: Seq<Seq<char>>,
    replies: Seq<Reply>,
    at: nat,
) -> Run<ContinueView>
    decreases left,
{
    if left == 0 {
        match asked::<ConflictSnapshot>(
            replies,
            at,
            git(Tree::Main, GitView::Snapshot { limit: SNAPSHOT_BYTES }),
        ) {
            Run::Ask(request) => Run::Ask(request),
            Run::Fail(chain, at) => Run::Fail(chain, at),
            Run::On(snapshot, at) => Run::On(
                ContinueView::Stopped(
                    snapshot,
                    details.push("continue retried more than 20 times; stopped"@),
                ),
                at,
            ),
        }
    } else {
        match asked::<CommandOutput>(
            replies,
            at,
            git(Tree::Main, GitView::Continue { strategy }),
        ) {
            Run::Ask(request) => Run::Ask(request),
            Run::Fail(chain, at) => Run::Fail(chain, at),
            Run::On(output, at) => if output.succeeded() {
                Run::On(
                    ContinueView::Applied(details.push("rerere/autostaged resolution applied"@)),
                    at,
                )
            } else {
                let details = with_stderr(details, "continue stderr: "@, output.stderr@);
                match asked::<ConflictSnapshot>(
                    replies,
                    at,
                    git(Tree::Main, GitView::Snapshot { limit: SNAPSHOT_BYTES }),
                ) {
                    Run::Ask(request) => Run::Ask(request),
                    Run::Fail(chain, at) => Run::Fail(chain, at),
                    Run::On(snapshot, at) => if snapshot.files@.len() > 0 {
                        Run::On(
                            ContinueView::Stopped(
                                snapshot,
                                details.push("continue stopped on another conflict"@),
                            ),
                            at,
                        )
                    } else {
                        match head_or_empty(replies, at) {
                            Run::Ask(request) => Run::Ask(request),
                            Run::Fail(chain, at) => Run::Fail(chain, at),
                            Run::On(head, at) => if head == last_head {
                                Run::On(
                                    ContinueView::Stopped(
                                        snapshot,
                                        details.push(
                                            "continue did not advance HEAD; stopped retrying"@,
                                        ),
                                    ),
                                    at,
                                )
                            } else {
                                match staged(replies, at) {
                                    Run::Ask(request) => Run::Ask(request),
                                    Run::Fail(chain, at) => Run::Fail(chain, at),
                                    Run::On(true, at) => continue_from(
                                        strategy,
                                        (left - 1) as nat,
                                        head,
                                        details,
                                        replies,
                                        at,
                                    ),
                                    Run::On(false, at) => Run::On(
                                        ContinueView::Stopped(
                                            snapshot,
                                            details.push("continue stopped without staged changes"@),
                                        ),
                                        at,
                                    ),
                                }
                            },
                        }
                    },
                }
            },
        }
    }
}

/// Goes on with a sync that stopped without conflicts, as long as a resolution is staged.
pub open spec fn continuation(
    strategy: SyncStrategy,
    first_stderr: Seq<char>,
    replies: Seq<Reply>,
    at: nat,
) -> Run<Option<ContinueView>> {
    match staged(replies, at) {
        Run::Ask(request) => Run::Ask(request),
        Run::Fail(chain, at) => Run::Fail(chain, at),
        Run::On(false, at) => Run::On(None, at),
        Run::On(true, at) => match head_or_empty(replies, at) {
            Run::Ask(request) => Run::Ask(request),
            Run::Fail(chain, at) => Run::Fail(chain, at),
            Run::On(head, at) => match continue_from(
                strategy,
                MAX_CONTINUES as nat,
                head,
                seq![
                    "rerere/autostaged resolution detected: continuing sync"@,
                    "initial continue stderr: "@ + on_one_line(first_stderr),
                ],
                replies,
                at,
            ) {
                Run::Ask(request) => Run::Ask(request),
                Run::Fail(chain, at) => Run::Fail(chain, at),
                Run::On(outcome, at) => Run::On(Some(outcome), at),
            },
        },
    }
}

/// Goes on with a sync that stopped without conflicts, as long as a resolution is staged.
pub fn try_continue_autoresolved_sync<'a>(
    strategy: SyncStrategy,
    first_stderr: &str,
    journal: &mut Journal<'a>,
) -> (r: Result<Option<AutoContinueOutcome<'a>>, Halt<'a>>)
    ensures
        follows_option(
            *old(journal),
            *final(journal),
            r,
            continuation(strategy, first_stderr@, old(journal).all(), old(journal).at()),
        ),
{
    if !has_staged_changes(journal)? {
        return Ok(None);
    }
    let last_head = head_or_default(journal)?;
    let line = one_line(first_stderr);
    let mut details: Vec<String> = Vec::new();
    details.push("rerere/autostaged resolution detected: continuing sync".to_owned());
    details.push(concat2("initial continue stderr: ", line.as_str()));
    assert(texts(details@) =~= seq![
        "rerere/autostaged resolution detected: continuing sync"@,
        "initial continue stderr: "@ + on_one_line(first_stderr@),
    ]);
    let outcome = continue_sync(strategy, last_head, details, journal)?;
    Ok(Some(outcome))
}

fn continue_sync<'a>(
    strategy: SyncStrategy,
    last_head: String,
    details: Vec<String>,
    journal: &mut Journal<'a>,
) -> (r: Result<AutoContinueOutcome<'a>, Halt<'a>>)
    ensures
        follows(
            *old(journal),
            *final(journal),
            r,
            continue_from(
                strategy,
                MAX_CONTINUES as nat,
                last_head@,
                texts(details@),
                old(journal).all(),
                old(journal).at(),
            ),
        ),
{
    let ghost expected = continue_from(
        strategy,
        MAX_CONTINUES as nat,
        last_head@,
        texts(details@),
        journal.all(),
        journal.at(),
    );
    let ghost first = (last_head@, texts(details@));
    let mut before = last_head;
    let mut lines = details;
    let mut left: usize = MAX_CONTINUES;
    while left > 0
        invariant
            first == (last_head@, texts(details@)),
            journal.all() == old(journal).all(),
            expected == continue_from(
                strategy,
                MAX_CONTINUES as nat,
                first.0,
                first.1,
                old(journal).all(),
                old(journal).at(),
            ),
            expected == continue_from(
                strategy,
                left as nat,
                before@,
                texts(lines@),
                journal.all(),
                journal.at(),
            ),
        decreases left,
    {
        let output: &'a CommandOutput = journal.ask(
            Request::Git(Tree::Main, GitCall::Continue { strategy }),
        )?;
        if output.success() {
            push_text(&mut lines, "rerere/autostaged resolution applied".to_owned());
            return Ok(AutoContinueOutcome::Applied(lines));
        }
        push_stderr(&mut lines, "continue stderr: ", output.stderr.as_str());
        let snapshot: &'a ConflictSnapshot = journal.ask(
            Request::Git(Tree::Main, GitCall::Snapshot { limit: SNAPSHOT_BYTES }),
        )?;
        if snapshot.files.len() > 0 {
            push_text(&mut lines, "continue stopped on another conflict".to_owned());
            return Ok(AutoContinueOutcome::Stopped { snapshot, details: lines });
        }
        let head = head_or_default(journal)?;
        if same_text(head.as_str(), before.as_str()) {
            push_text(&mut lines, "continue did not advance HEAD; stopped retrying".to_owned());
            return Ok(AutoContinueOutcome::Stopped { snapshot, details: lines });
        }
        before = head;
        if !has_staged_changes(journal)? {
            push_text(&mut lines, "continue stopped without staged changes".to_owned());
            return Ok(AutoContinueOutcome::Stopped { snapshot, details: lines });
        }
        left = left - 1;
    }
    let snapshot: &'a ConflictSnapshot = journal.ask(
        Request::Git(Tree::Main, GitCall::Snapshot { limit: SNAPSHOT_BYTES }),
    )?;
    push_text(&mut lines, "continue retried more than 20 times; stopped".to_owned());
    Ok(AutoContinueOutcome::Stopped { snapshot, details: lines })
}

/// How an attempt to resolve conflicts ended: whether the sync came through, the conflicts at the
/// end, and what is reported.
pub struct AttemptView {
    pub applied: bool,
    pub snapshot: ConflictSnapshot,
    pub details: Seq<Seq<char>>,
}

/// How an attempt to resolve conflicts ended.
pub struct AutoResolveOutcome<'a> {
    pub applied: bool,
    pub snapshot: &'a ConflictSnapshot,
    pub details: Vec<String>,
}

impl<'a> View for AutoResolveOutcome<'a> {
    type V = AttemptView;

    open spec fn view(&self) -> AttemptView {
        AttemptView {
            applied: self.applied,
            snapshot: *self.snapshot,
            details: texts(self.details@),
        }
    }
}

/// How a part of a round ended: the attempt is over, or it goes on with the conflicts.
pub enum RoundView {
    Over(AttemptView),
    Going(ConflictSnapshot, Seq<Seq<char>>),
}

enum Round<'a> {
    Over(AutoResolveOutcome<'a>),
    Going(&'a ConflictSnapshot, Vec<String>),
}

impl<'a> View for Round<'a> {
    type V = RoundView;

    closed spec fn view(&self) -> RoundView {
        match *self {
            Round::Over(outcome) => RoundView::Over(outcome@),
            Round::Going(snapshot, details) => RoundView::Going(*snapshot, texts(details@)),
        }
    }
}

/// The beginning of a line on a round.
pub open spec fn round_line(round: nat, text: Seq<char>) -> Seq<char> {
    "auto resolve round "@ + decimal(round) + text
}

fn line_of_round(round: usize, text: &str) -> (r: String)
    ensures
        r@ == round_line(round as nat, text@),
{
    let number = count_text(round);
    concat3("auto resolve round ", number.as_str(), text)
}

/// That an attempt came through.
pub open spec fn completed_line(rounds: nat) -> Seq<char> {
    "auto resolve completed after "@ + decimal(rounds) + " round(s)"@
}

/// Goes on with the sync in a round.
pub open spec fn advance(
    strategy: SyncStrategy,
    round: nat,
    rounds_done: nat,
    snapshot: ConflictSnapshot,
    details: Seq<Seq<char>>,
    replies: Seq<Reply>,
    at: nat,
) -> Run<RoundView> {
    match asked::<CommandOutput>(replies, at, git(Tree::Main, GitView::Continue { strategy })) {
        Run::Ask(request) => Run::Ask(request),
        Run::Fail(chain, at) => Run::Fail(chain, at),
        Run::On(output, at) => if output.succeeded() {
            Run::On(
                RoundView::Over(
                    AttemptView {
                        applied: true,
                        snapshot,
                        details: details.push(completed_line(rounds_done)),
                    },
                ),
                at,
            )
        } else {
            let details = with_stderr(
                details,
                round_line(round, " continue stderr: "@),
                output.stderr@,
            );
            match asked::<ConflictSnapshot>(
                replies,
                at,
                git(Tree::Main, GitView::Snapshot { limit: SNAPSHOT_BYTES }),
            ) {
                Run::Ask(request) => Run::Ask(request),
                Run::Fail(chain, at) => Run::Fail(chain, at),
                Run::On(snapshot, at) => if snapshot.files@.len() == 0 {
                    Run::On(
                        RoundView::Over(
                            AttemptView {
                                applied: false,
                                snapshot,
                                details: details.push(
                                    round_line(
                                        round,
                                        " stopped: continue failed without conflict files"@,
                                    ),
                                ),
                            },
                        ),
                        at,
                    )
                } else {
                    Run::On(RoundView::Going(snapshot, details), at)
                },
            }
        },
    }
}

fn advance_round<'a>(
    strategy: SyncStrategy,
    round: usize,
    rounds_done: usize,
    snapshot: &'a ConflictSnapshot,
    details: Vec<String>,
    journal: &mut Journal<'a>,
) -> (r: Result<Round<'a>, Halt<'a>>)
    ensures
        follows(
            *old(journal),
            *final(journal),
            r,
            advance(
                strategy,
                round as nat,
                rounds_done as nat,
                *snapshot,
                texts(details@),
                old(journal).all(),
                old(journal).at(),
            ),
        ),
{
    let mut details = details;
    let output: &'a CommandOutput = journal.ask(
        Request::Git(Tree::Main, GitCall::Continue { strategy }),
    )?;
    if output.success() {
        let number = count_text(rounds_done);
        push_text(
            &mut details,
            concat3("auto resolve completed after ", number.as_str(), " round(s)"),
        );
        return Ok(Round::Over(AutoResolveOutcome { applied: true, snapshot, details }));
    }
    let title = line_of_round(round, " continue stderr: ");
    push_stderr(&mut details, title.as_str(), output.stderr.as_str());
    let snapshot: &'a ConflictSnapshot = journal.ask(
        Request::Git(Tree::Main, GitCall::Snapshot { limit: SNAPSHOT_BYTES }),
    )?;
    if snapshot.files.len() == 0 {
        push_text(
            &mut details,
            line_of_round(round, " stopped: continue failed without conflict files"),
        );
        return Ok(Round::Over(AutoResolveOutcome { applied: false, snapshot, details }));
    }
    Ok(Round::Going(snapshot, details))
}

/// Why conflicts are not given to the model: there are too many, or one lies outside the allowed
/// paths.
pub open spec fn refusal(config: AutoResolveConfig, files: Seq<Seq<char>>) -> Option<Seq<char>> {
    if files.len() > config.max_conflict_files {
        Some(
            "auto resolve skipped: "@ + decimal(files.len()) + " conflict files exceeds limit "@
                + decimal(config.max_conflict_files as nat),
        )
    } else {
        match first_outside(files, texts(config.allowed_paths@)) {
            Some(path) => Some("auto resolve skipped: path not allowed: "@ + path),
            None => None,
        }
    }
}

fn check_conflict(config: &AutoResolveConfig, files: &Vec<String>) -> (r: Option<String>)
    ensures
        text_option(r) == refusal(*config, texts(files@)),
{
    if files.len() > config.max_conflict_files {
        let count = count_text(files.len());
        let limit = count_text(config.max_conflict_files);
        return Some(
            concat4(
                "auto resolve skipped: ",
                count.as_str(),
                " conflict files exceeds limit ",
                limit.as_str(),
            ),
        );
    }
    match find_outside(files, &config.allowed_paths) {
        Some(path) => Some(concat2("auto resolve skipped: path not allowed: ", path.as_str())),
        None => None,
    }
}

/// What the model is told of a conflict on a branch.
pub open spec fn branch_facts(
    branch: BranchConfig,
    base: Seq<char>,
    patch: PatchView,
    snapshot: ConflictSnapshot,
) -> ConflictFacts {
    ConflictFacts {
        branch: branch.name@,
        base,
        branch_note: text_option(branch.note),
        mode: patch.mode,
        current_patch: patch.current_patch,
        snapshot: snapshot@,
    }
}

/// The patch that a sync stopped on, or nothing where it cannot be read.
pub open spec fn patch_or_unknown(tree: Tree, replies: Seq<Reply>, at: nat) -> Run<PatchView> {
    match caught(
        asked::<SyncPatchContext>(
            replies,
            at,
            git(tree, GitView::PatchContext { limit: PATCH_CONTEXT_BYTES }),
        ),
    ) {
        Run::Ask(request) => Run::Ask(request),
        Run::Fail(chain, at) => Run::Fail(chain, at),
        Run::On(Ok(patch), at) => Run::On(patch@, at),
        Run::On(Err(_), at) => Run::On(SyncPatchContext::unknown(), at),
    }
}

/// The patch that a sync stopped on, or nothing where it cannot be read.
pub fn patch_or_default<'a>(tree: Tree, journal: &mut Journal<'a>) -> (r: Result<
    SyncPatchContext,
    Halt<'a>,
>)
    ensures
        follows(
            *old(journal),
            *final(journal),
            r,
            patch_or_unknown(tree, old(journal).all(), old(journal).at()),
        ),
{
    let request = Request::Git(tree, GitCall::PatchContext { limit: PATCH_CONTEXT_BYTES });
    match journal.ask::<SyncPatchContext>(request) {
        Ok(patch) => Ok(patch.copy()),
        Err(Halt::Fail(_)) => Ok(SyncPatchContext::default()),
        Err(halt) => Err(halt),
    }
}

/// Whether a decision is of low risk.
pub open spec fn is_low(decision: AutoResolveDecision) -> bool {
    ascii_lower(decision.risk@) == ascii_lower("low"@)
}

/// What a round has of a resolution: the resolved files, or none; and what is reported.
pub struct SolutionView {
    pub files: Option<Vec<ResolvedFile>>,
    pub details: Seq<Seq<char>>,
}

struct Solution<'a> {
    files: Option<&'a Vec<ResolvedFile>>,
    details: Vec<String>,
}

impl<'a> View for Solution<'a> {
    type V = SolutionView;

    closed spec fn view(&self) -> SolutionView {
        SolutionView {
            files: match self.files {
                Some(files) => Some(*files),
                None => None,
            },
            details: texts(self.details@),
        }
    }
}

/// A round without a resolution.
pub open spec fn unsolved(details: Seq<Seq<char>>) -> SolutionView {
    SolutionView { files: None, details }
}

/// What a decision of the model comes to: only one of low risk is worked out.
pub open spec fn worked_out(
    round: nat,
    decision: AutoResolveDecision,
    files: Vec<ConflictFileContent>,
    details: Seq<Seq<char>>,
    replies: Seq<Reply>,
    at: nat,
) -> Run<SolutionView> {
    let details = details.push(round_line(round, " risk: "@ + decision.risk@)).push(
        round_line(round, " summary: "@ + on_one_line(decision.summary@)),
    );
    if !is_low(decision) {
        Run::On(unsolved(details), at)
    } else {
        match caught(
            asked::<Vec<ResolvedFile>>(
                replies,
                at,
                RequestView::Conflict(
                    ConflictView::Resolve { files, resolutions: decision.resolutions },
                ),
            ),
        ) {
            Run::Ask(request) => Run::Ask(request),
            Run::Fail(chain, at) => Run::Fail(chain, at),
            Run::On(Err(chain), at) => Run::On(
                unsolved(details.push(round_line(round, " rejected: "@ + fault_text(chain)))),
                at,
            ),
            Run::On(Ok(resolved), at) => Run::On(
                SolutionView { files: Some(resolved), details },
                at,
            ),
        }
    }
}

fn work_out<'a>(
    round: usize,
    decision: &'a AutoResolveDecision,
    files: &'a Vec<ConflictFileContent>,
    details: Vec<String>,
    journal: &mut Journal<'a>,
) -> (r: Result<Solution<'a>, Halt<'a>>)
    ensures
        follows(
            *old(journal),
            *final(journal),
            r,
            worked_out(
                round as nat,
                *decision,
                *files,
                texts(details@),
                old(journal).all(),
                old(journal).at(),
            ),
        ),
{
    let mut details = details;
    let risk = concat2(" risk: ", decision.risk.as_str());
    push_text(&mut details, line_of_round(round, risk.as_str()));
    let line = one_line(decision.summary.as_str());
    let summary = concat2(" summary: ", line.as_str());
    push_text(&mut details, line_of_round(round, summary.as_str()));
    if !same_ignoring_case(decision.risk.as_str(), "low") {
        return Ok(Solution { files: None, details });
    }
    let request = Request::Conflict(
        ConflictCall::Resolve { files, resolutions: &decision.resolutions },
    );
    match journal.ask::<Vec<ResolvedFile>>(request) {
        Ok(resolved) => Ok(Solution { files: Some(resolved), details }),
        Err(Halt::Fail(fault)) => {
            let text = fault.text();
            let rejected = concat2(" rejected: ", text.as_str());
            push_text(&mut details, line_of_round(round, rejected.as_str()));
            Ok(Solution { files: None, details })
        },
        Err(halt) => Err(halt),
    }
}

/// Asks the model for a resolution of conflicts that it may be given.
pub open spec fn solved(
    llm: Option<LlmConfig>,
    branch: BranchConfig,
    base: Seq<char>,
    round: nat,
    snapshot: ConflictSnapshot,
    details: Seq<Seq<char>>,
    replies: Seq<Reply>,
    at: nat,
) -> Run<SolutionView> {
    let limit = branch.auto_resolve.max_file_bytes;
    match asked::<Vec<ConflictFileContent>>(
        replies,
        at,
        git(Tree::Main, GitView::ConflictFiles { files: texts(snapshot.files@), limit }),
    ) {
        Run::Ask(request) => Run::Ask(request),
        Run::Fail(chain, at) => Run::Fail(chain, at),
        Run::On(files, at) => match asked::<ConflictBlocks>(replies, at, blocks_request(files)) {
            Run::Ask(request) => Run::Ask(request),
            Run::Fail(chain, at) => Run::Fail(chain, at),
            Run::On(blocks, at) => if blocks.payload_bytes > limit {
                Run::On(
                    unsolved(
                        details.push(
                            "auto resolve skipped: conflict block payload "@ + decimal(
                                blocks.payload_bytes as nat,
                            ) + " bytes exceeds limit "@ + decimal(limit as nat),
                        ),
                    ),
                    at,
                )
            } else {
                match asked::<SyncPatchContext>(
                    replies,
                    at,
                    git(Tree::Main, GitView::PatchContext { limit: PATCH_CONTEXT_BYTES }),
                ) {
                    Run::Ask(request) => Run::Ask(request),
                    Run::Fail(chain, at) => Run::Fail(chain, at),
                    Run::On(patch, at) => match caught(
                        auto_resolution(
                            llm,
                            branch_facts(branch, base, patch@, snapshot),
                            files,
                            replies,
                            at,
                        ),
                    ) {
                        Run::Ask(request) => Run::Ask(request),
                        Run::Fail(chain, at) => Run::Fail(chain, at),
                        Run::On(Err(chain), at) => Run::On(
                            unsolved(
                                details.push("auto resolve failed: "@ + fault_text(chain)),
                            ),
                            at,
                        ),
                        Run::On(Ok(None), at) => Run::On(
                            unsolved(details.push("auto resolve skipped: LLM disabled"@)),
                            at,
                        ),
                        Run::On(Ok(Some(decision)), at) => worked_out(
                            round,
                            decision,
                            files,
                            details,
                            replies,
                            at,
                        ),
                    },
                }
            },
        },
    }
}

fn solve<'a>(
    llm: &LlmService<'a>,
    branch: &'a BranchConfig,
    base: &str,
    round: usize,
    snapshot: &'a ConflictSnapshot,
    details: Vec<String>,
    journal: &mut Journal<'a>,
) -> (r: Result<Solution<'a>, Halt<'a>>)
    ensures
        follows(
            *old(journal),
            *final(journal),
            r,
            solved(
                llm.settings(),
                *branch,
                base@,
                round as nat,
                *snapshot,
                texts(details@),
                old(journal).all(),
                old(journal).at(),
            ),
        ),
{
    let mut details = details;
    let limit: usize = branch.auto_resolve.max_file_bytes;
    let files: &'a Vec<ConflictFileContent> = journal.ask(
        Request::Git(Tree::Main, GitCall::ConflictFiles { files: &snapshot.files, limit }),
    )?;
    let blocks: &'a ConflictBlocks = journal.ask(
        Request::Conflict(ConflictCall::Blocks { files }),
    )?;
    if blocks.payload_bytes > limit {
        let size = count_text(blocks.payload_bytes);
        let limit = count_text(limit);
        push_text(
            &mut details,
            concat4(
                "auto resolve skipped: conflict block payload ",
                size.as_str(),
                " bytes exceeds limit ",
                limit.as_str(),
            ),
        );
        return Ok(Solution { files: None, details });
    }
    let patch: &'a SyncPatchContext = journal.ask(
        Request::Git(Tree::Main, GitCall::PatchContext { limit: PATCH_CONTEXT_BYTES }),
    )?;
    let request = AutoResolveConflictRequest {
        branch: branch.name.clone(),
        base: base.to_owned(),
        branch_note: branch.note.clone(),
        patch_context: patch.copy(),
        snapshot,
        files,
    };
    assert(request@ == branch_facts(*branch, base@, patch@, *snapshot));
    match llm.auto_resolve_conflict(&request, journal) {
        Ok(Some(decision)) => work_out(round, decision, files, details, journal),
        Ok(None) => {
            push_text(&mut details, "auto resolve skipped: LLM disabled".to_owned());
            Ok(Solution { files: None, details })
        },
        Err(Halt::Fail(fault)) => {
            let text = fault.text();
            push_text(&mut details, concat2("auto resolve failed: ", text.as_str()));
            Ok(Solution { files: None, details })
        },
        Err(halt) => Err(halt),
    }
}

/// Writes and stages files, from a given one on.
pub open spec fn written_from(
    tree: Tree,
    files: Seq<ResolvedFile>,
    next: nat,
    replies: Seq<Reply>,
    at: nat,
) -> Run<()>
    decreases files.len() - next,
{
    if next >= files.len() {
        Run::On((), at)
    } else {
        let file = files[next as int];
        match asked::<()>(
            replies,
            at,
            git(tree, GitView::WriteFile { path: file.path@, content: file.content@ }),
        ) {
            Run::Ask(request) => Run::Ask(request),
            Run::Fail(chain, at) => Run::Fail(chain, at),
            Run::On(_, at) => match asked::<()>(
                replies,
                at,
                git(tree, GitView::AddFile { path: file.path@ }),
            ) {
                Run::Ask(request) => Run::Ask(request),
                Run::Fail(chain, at) => Run::Fail(chain, at),
                Run::On(_, at) => written_from(tree, files, next + 1, replies, at),
            },
        }
    }
}

/// Writes and stages files.
pub fn write_files<'a>(tree: Tree, files: &'a Vec<ResolvedFile>, journal: &mut Journal<'a>) -> (r:
    Result<(), Halt<'a>>)
    ensures
        follows(
            *old(journal),
            *final(journal),
            r,
            written_from(tree, files@, 0, old(journal).all(), old(journal).at()),
        ),
{
    let mut i: usize = 0;
    while i < files.len()
        invariant
            i <= files@.len(),
            journal.all() == old(journal).all(),
            written_from(tree, files@, 0, old(journal).all(), old(journal).at()) == written_from(
                tree,
                files@,
                i as nat,
                journal.all(),
                journal.at(),
            ),
        decreases files@.len() - i,
    {
        let file: &'a ResolvedFile = &files[i];
        let _: &'a () = journal.ask(
            Request::Git(
                tree,
                GitCall::WriteFile { path: file.path.clone(), content: file.content.clone() },
            ),
        )?;
        let _: &'a () = journal.ask(
            Request::Git(tree, GitCall::AddFile { path: file.path.clone() }),
        )?;
        i = i + 1;
    }
    Ok(())
}

/// An attempt that is over without having come through.
pub open spec fn given_up(snapshot: ConflictSnapshot, details: Seq<Seq<char>>) -> RoundView {
    RoundView::Over(AttemptView { applied: false, snapshot, details })
}

/// A round, from conflicts that are there.
pub open spec fn round_on(
    llm: Option<LlmConfig>,
    branch: BranchConfig,
    base: Seq<char>,
    round: nat,
    snapshot: ConflictSnapshot,
    details: Seq<Seq<char>>,
    replies: Seq<Reply>,
    at: nat,
) -> Run<RoundView> {
    let details = details.push(
        round_line(round, ": conflict files "@ + joined(texts(snapshot.files@), ", "@)),
    );
    match refusal(branch.auto_resolve, texts(snapshot.files@)) {
        Some(line) => Run::On(given_up(snapshot, details.push(line)), at),
        None => match solved(llm, branch, base, round, snapshot, details, replies, at) {
            Run::Ask(request) => Run::Ask(request),
            Run::Fail(chain, at) => Run::Fail(chain, at),
            Run::On(solution, at) => match solution.files {
                None => Run::On(given_up(snapshot, solution.details), at),
                Some(files) => match written_from(Tree::Main, files@, 0, replies, at) {
                    Run::Ask(request) => Run::Ask(request),
                    Run::Fail(chain, at) => Run::Fail(chain, at),
                    Run::On(_, at) => match advance(
                        branch.sync,
                        round,
                        round,
                        snapshot,
                        solution.details.push(
                            round_line(round, " applied files: "@ + decimal(files@.len())),
                        ),
                        replies,
                        at,
                    ) {
                        Run::Ask(request) => Run::Ask(request),
                        Run::Fail(chain, at) => Run::Fail(chain, at),
                        Run::On(RoundView::Over(attempt), at) => Run::On(
                            RoundView::Over(attempt),
                            at,
                        ),
                        Run::On(RoundView::Going(snapshot, details), at) => Run::On(
                            RoundView::Going(
                                snapshot,
                                details.push(round_line(round, " stopped on another conflict"@)),
                            ),
                            at,
                        ),
                    },
                },
            },
        },
    }
}

/// A round.
#[verifier::opaque]
pub open spec fn round_run(
    llm: Option<LlmConfig>,
    branch: BranchConfig,
    base: Seq<char>,
    round: nat,
    snapshot: ConflictSnapshot,
    details: Seq<Seq<char>>,
    replies: Seq<Reply>,
    at: nat,
) -> Run<RoundView> {
    if snapshot.files@.len() > 0 {
        round_on(llm, branch, base, round, snapshot, details, replies, at)
    } else {
        match advance(
            branch.sync,
            round,
            (round - 1) as nat,
            snapshot,
            details,
            replies,
            at,
        ) {
            Run::Ask(request) => Run::Ask(request),
            Run::Fail(chain, at) => Run::Fail(chain, at),
            Run::On(RoundView::Over(attempt), at) => Run::On(RoundView::Over(attempt), at),
            Run::On(RoundView::Going(snapshot, details), at) => round_on(
                llm,
                branch,
                base,
                round,
                snapshot,
                details,
                replies,
                at,
            ),
        }
    }
}

fn run_round_on<'a>(
    llm: &LlmService<'a>,
    branch: &'a BranchConfig,
    base: &str,
    round: usize,
    snapshot: &'a ConflictSnapshot,
    details: Vec<String>,
    journal: &mut Journal<'a>,
) -> (r: Result<Round<'a>, Halt<'a>>)
    ensures
        follows(
            *old(journal),
            *final(journal),
            r,
            round_on(
                llm.settings(),
                *branch,
                base@,
                round as nat,
                *snapshot,
                texts(details@),
                old(journal).all(),
                old(journal).at(),
            ),
        ),
{
    let mut details = details;
    let list = join(&snapshot.files, ", ");
    let files = concat2(": conflict files ", list.as_str());
    push_text(&mut details, line_of_round(round, files.as_str()));
    if let Some(line) = check_conflict(&branch.auto_resolve, &snapshot.files) {
        push_text(&mut details, line);
        return Ok(Round::Over(AutoResolveOutcome { applied: false, snapshot, details }));
    }
    let solution = solve(llm, branch, base, round, snapshot, details, journal)?;
    let mut details = solution.details;
    let files: &'a Vec<ResolvedFile> = match solution.files {
        Some(files) => files,
        None => {
            return Ok(Round::Over(AutoResolveOutcome { applied: false, snapshot, details }));
        },
    };
    write_files(Tree::Main, files, journal)?;
    let count = count_text(files.len());
    let applied = concat2(" applied files: ", count.as_str());
    push_text(&mut details, line_of_round(round, applied.as_str()));
    match advance_round(branch.sync, round, round, snapshot, details, journal)? {
        Round::Over(outcome) => Ok(Round::Over(outcome)),
        Round::Going(snapshot, details) => {
            let mut details = details;
            push_text(&mut details, line_of_round(round, " stopped on another conflict"));
            Ok(Round::Going(snapshot, details))
        },
    }
}

fn run_round<'a>(
    llm: &LlmService<'a>,
    branch: &'a BranchConfig,
    base: &str,
    round: usize,
    snapshot: &'a ConflictSnapshot,
    details: Vec<String>,
    journal: &mut Journal<'a>,
) -> (r: Result<Round<'a>, Halt<'a>>)
    requires
        round >= 1,
    ensures
        follows(
            *old(journal),
            *final(journal),
            r,
            round_run(
                llm.settings(),
                *branch,
                base@,
                round as nat,
                *snapshot,
                texts(details@),
                old(journal).all(),
                old(journal).at(),
            ),
        ),
{
    reveal(round_run);
    if snapshot.files.len() > 0 {
        return run_round_on(llm, branch, base, round, snapshot, details, journal);
    }
    match advance_round(branch.sync, round, round - 1, snapshot, details, journal)? {
        Round::Over(outcome) => Ok(Round::Over(outcome)),
        Round::Going(snapshot, details) => run_round_on(
            llm,
            branch,
            base,
            round,
            snapshot,
            details,
            journal,
        ),
    }
}

/// The number of rounds: at least one.
pub open spec fn rounds_of(config: AutoResolveConfig) -> nat {
    if config.max_rounds < 1 {
        1
    } else {
        config.max_rounds as nat
    }
}

/// The rounds from a given one on.
pub open spec fn rounds_from(
    llm: Option<LlmConfig>,
    branch: BranchConfig,
    base: Seq<char>,
    round: nat,
    snapshot: ConflictSnapshot,
    details: Seq<Seq<char>>,
    replies: Seq<Reply>,
    at: nat,
) -> Run<AttemptView>
    decreases rounds_of(branch.auto_resolve) + 1 - round,
{
    if round > rounds_of(branch.auto_resolve) {
        Run::On(
            AttemptView {
                applied: false,
                snapshot,
                details: details.push(
                    "auto resolve stopped: exceeded max_rounds "@ + decimal(
                        rounds_of(branch.auto_resolve),
                    ),
                ),
            },
            at,
        )
    } else {
        match round_run(llm, branch, base, round, snapshot, details, replies, at) {
            Run::Ask(request) => Run::Ask(request),
            Run::Fail(chain, at) => Run::Fail(chain, at),
            Run::On(RoundView::Over(attempt), at) => Run::On(attempt, at),
            Run::On(RoundView::Going(snapshot, details), at) => rounds_from(
                llm,
                branch,
                base,
                round + 1,
                snapshot,
                details,
                replies,
                at,
            ),
        }
    }
}

/// An attempt to resolve conflicts, where the branch allows one.
pub open spec fn attempt(
    llm: Option<LlmConfig>,
    branch: BranchConfig,
    base: Seq<char>,
    snapshot: ConflictSnapshot,
    replies: Seq<Reply>,
    at: nat,
) -> Run<Option<AttemptView>> {
    let details = seq!["auto resolve: enabled"@];
    if !branch.auto_resolve.enabled {
        Run::On(None, at)
    } else if branch.auto_resolve.allowed_paths@.len() == 0 {
        Run::On(
            Some(
                AttemptView {
                    applied: false,
                    snapshot,
                    details: details.push("auto resolve skipped: allowed_paths is empty"@),
                },
            ),
            at,
        )
    } else {
        match rounds_from(llm, branch, base, 1, snapshot, details, replies, at) {
            Run::Ask(request) => Run::Ask(request),
            Run::Fail(chain, at) => Run::Fail(chain, at),
            Run::On(outcome, at) => Run::On(Some(outcome), at),
        }
    }
}

/// Tries to resolve conflicts, where the branch allows it.
pub fn try_auto_resolve_conflict<'a>(
    llm: &LlmService<'a>,
    branch: &'a BranchConfig,
    base: &str,
    snapshot: &'a ConflictSnapshot,
    journal: &mut Journal<'a>,
) -> (r: Result<Option<AutoResolveOutcome<'a>>, Halt<'a>>)
    ensures
        follows_option(
            *old(journal),
            *final(journal),
            r,
            attempt(
                llm.settings(),
                *branch,
                base@,
                *snapshot,
                old(journal).all(),
                old(journal).at(),
            ),
        ),
{
    let config = &branch.auto_resolve;
    if !config.enabled {
        return Ok(None);
    }
    let mut details: Vec<String> = Vec::new();
    push_text(&mut details, "auto resolve: enabled".to_owned());
    assert(texts(details@) =~= seq!["auto resolve: enabled"@]);
    if config.allowed_paths.len() == 0 {
        push_text(&mut details, "auto resolve skipped: allowed_paths is empty".to_owned());
        return Ok(Some(AutoResolveOutcome { applied: false, snapshot, details }));
    }
    let outcome = run_rounds(llm, branch, base, snapshot, details, journal)?;
    Ok(Some(outcome))
}

fn run_rounds<'a>(
    llm: &LlmService<'a>,
    branch: &'a BranchConfig,
    base: &str,
    snapshot: &'a ConflictSnapshot,
    details: Vec<String>,
    journal: &mut Journal<'a>,
) -> (r: Result<AutoResolveOutcome<'a>, Halt<'a>>)
    ensures
        follows(
            *old(journal),
            *final(journal),
            r,
            rounds_from(
                llm.settings(),
                *branch,
                base@,
                1,
                *snapshot,
                texts(details@),
                old(journal).all(),
                old(journal).at(),
            ),
        ),
{
    let max_rounds: usize = if branch.auto_resolve.max_rounds < 1 {
        1
    } else {
        branch.auto_resolve.max_rounds
    };
    let ghost expected = rounds_from(
        llm.settings(),
        *branch,
        base@,
        1,
        *snapshot,
        texts(details@),
        journal.all(),
        journal.at(),
    );
    let ghost first = texts(details@);
    let mut current: &'a ConflictSnapshot = snapshot;
    let mut lines = details;
    let mut round: usize = 1;
    loop
        invariant
            first == texts(details@),
            1 <= round <= max_rounds,
            max_rounds == rounds_of(branch.auto_resolve),
            journal.all() == old(journal).all(),
            expected == rounds_from(
                llm.settings(),
                *branch,
                base@,
                1,
                *snapshot,
                first,
                old(journal).all(),
                old(journal).at(),
            ),
            expected == rounds_from(
                llm.settings(),
                *branch,
                base@,
                round as nat,
                *current,
                texts(lines@),
                journal.all(),
                journal.at(),
            ),
        decreases max_rounds - round,
    {
        match run_round(llm, branch, base, round, current, lines, journal)? {
            Round::Over(outcome) => {
                return Ok(outcome);
            },
            Round::Going(next, details) => {
                current = next;
                lines = details;
            },
        }
        assert(expected == rounds_from(
            llm.settings(),
            *branch,
            base@,
            (round + 1) as nat,
            *current,
            texts(lines@),
            journal.all(),
            journal.at(),
        ));
        if round == max_rounds {
            let limit = count_text(max_rounds);
            push_text(
                &mut lines,
                concat2("auto resolve stopped: exceeded max_rounds ", limit.as_str()),
            );
            return Ok(AutoResolveOutcome { applied: false, snapshot: current, details: lines });
        }
        round = round + 1;
    }
}

} // verus!
