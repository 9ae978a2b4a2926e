//! What holds of every run over the branches of a project.

use vstd::prelude::*;

use crate::calls::conflict::ConflictView;
use crate::calls::git::GitView;
use crate::calls::model::DecisionKind;
use crate::calls::notify::NotifyView;
use crate::calls::protect::ProtectionView;
use crate::calls::{pushes, writes, RequestView, Tree};
use crate::command::git;
use crate::config::{BranchConfig, Config, LlmConfig, PushStrategy, RepoConfig, SyncStrategy};
use crate::journal::{asked, Reply, Run};
use crate::llm::laws::{
    decodes, lemma_analysis_asks_the_model, lemma_resolution_asks_the_model,
    lemma_resolution_is_a_reply, lemma_summary_asks_the_model,
};
use crate::llm::types::{AutoResolveDecision, ConflictFacts};
use crate::llm::auto_resolution;
use crate::protection::types::CommitSecurityReviewBatch;
use crate::replay::sync::{
    lemma_advance_is_steady, lemma_branch_done_is_steady, lemma_branch_once_is_steady,
    lemma_continuation_is_steady, lemma_round_run_is_steady, lemma_screened_is_steady,
    lemma_settled_is_steady, lemma_solved_is_steady, lemma_started_is_steady,
    lemma_surveyed_is_steady, lemma_tested_is_steady, lemma_tests_from_is_steady,
    lemma_written_from_is_steady,
};
use crate::replay::{
    answers, hands_on, lemma_asked_is_steady, lemma_beginning, lemma_decided_is_steady,
    lemma_nothing_more, request_of, steady,
};
use crate::repo::{
    CommandOutput, ConflictFileContent, ConflictSnapshot, ResolvedFile, SyncPatchContext,
};
use crate::report::{any_active, ReportView};
use crate::sync::auto_resolve::{
    advance, attempt, branch_facts, continuation, continue_from, head_or_empty, is_allowed, is_low,
    lies_in, patch_or_unknown, refusal, round_line, round_on, round_run, rounds_from, rounds_of,
    solved, staged, with_slashes, with_stderr, written_from, ContinueView, RoundView, MAX_CONTINUES,
    PATCH_CONTEXT_BYTES, SNAPSHOT_BYTES,
};
use crate::sync::checks::{lacks_tests, protection, screened, test_record, tested, tests_from};
use crate::sync::conflict::{
    abandoned, aborted, base_ref, remote_head_request, resolved_from, settled, started,
    sync_request, StartView,
};
use crate::sync::notify::{end_notified, noticed, noticed_from};
use crate::sync::publish::{push_request, pushed, surveyed, tagged, SurveyView};
use crate::sync::report::on_one_line;
use crate::sync::stage::{BranchView, StageView};
use crate::sync::{
    branch_done, branch_once, branch_with_retries, branches_done, is_selected, ready, status_run,
    sync_run, SyncOptions, Task, MAX_REMOTE_CHANGED_RETRIES,
};
use crate::text::pattern::{begins_with, without_trailing};
use crate::text::{ascii_lower, joined, text_option, texts};

verus! {

/// Going on with a sync pushes nothing.
proof fn lemma_continue_pushes_nothing(
    strategy: SyncStrategy,
    left: nat,
    last_head: Seq<char>,
    details: Seq<Seq<char>>,
    replies: Seq<Reply>,
    at: nat,
)
    ensures
        continue_from(strategy, left, last_head, details, replies, at) matches Run::Ask(request)
            ==> !pushes(request) && !writes(request),
    decreases left,
{
    if left > 0 {
        if let Run::On(output, next) = asked::<CommandOutput>(
            replies,
            at,
            git(Tree::Main, GitView::Continue { strategy }),
        ) {
            let lines = with_stderr(details, "continue stderr: "@, output.stderr@);
            if let Run::On(head, after) = head_or_empty(replies, next + 1) {
                lemma_continue_pushes_nothing(
                    strategy,
                    (left - 1) as nat,
                    head,
                    lines,
                    replies,
                    after + 1,
                );
            }
        }
    }
}

/// Writing files pushes nothing.
pub proof fn lemma_written_pushes_nothing(
    tree: Tree,
    files: Seq<ResolvedFile>,
    next: nat,
    replies: Seq<Reply>,
    at: nat,
)
    ensures
        written_from(tree, files, next, replies, at) matches Run::Ask(request) ==> !pushes(
            request,
        ),
    decreases files.len() - next,
{
    if next < files.len() {
        lemma_written_pushes_nothing(tree, files, next + 1, replies, at + 2);
    }
}

/// Asking the model for a resolution neither pushes nor writes anything.
pub proof fn lemma_solving_writes_nothing(
    llm: Option<LlmConfig>,
    branch: BranchConfig,
    base: Seq<char>,
    round: nat,
    snapshot: ConflictSnapshot,
    details: Seq<Seq<char>>,
    replies: Seq<Reply>,
    at: nat,
)
    ensures
        solved(llm, branch, base, round, snapshot, details, replies, at) matches Run::Ask(request)
            ==> !pushes(request) && !writes(request),
{
    if let Run::On(files, a) = asked::<Vec<ConflictFileContent>>(
        replies,
        at,
        git(
            Tree::Main,
            GitView::ConflictFiles {
                files: texts(snapshot.files@),
                limit: branch.auto_resolve.max_file_bytes,
            },
        ),
    ) {
        if let Run::On(patch, b) = asked::<SyncPatchContext>(
            replies,
            a + 1,
            git(Tree::Main, GitView::PatchContext { limit: PATCH_CONTEXT_BYTES }),
        ) {
            lemma_resolution_asks_the_model(
                llm,
                branch_facts(branch, base, patch@, snapshot),
                files,
                replies,
                b,
            );
        }
    }
}

/// Whether a reply is a decision of low risk on a conflict: it answers the request to read one.
pub open spec fn is_low_decision(
    asks: spec_fn(Seq<Reply>) -> Option<RequestView>,
    replies: Seq<Reply>,
    at: int,
) -> bool {
    &&& 0 <= at < replies.len()
    &&& asks(replies.take(at)) matches Some(request) && decodes(request, DecisionKind::AutoResolve)
    &&& replies[at] matches Reply::AutoResolve(decision) && has_low_risk(decision.risk@)
}

/// Whether a risk is low: the word, in capitals or not.
pub open spec fn has_low_risk(risk: Seq<char>) -> bool {
    &&& risk.len() == 3
    &&& risk[0] == 'l' || risk[0] == 'L'
    &&& risk[1] == 'o' || risk[1] == 'O'
    &&& risk[2] == 'w' || risk[2] == 'W'
}

/// A decision counts as one of low risk only where it says just that.
pub proof fn lemma_low_is_the_word(decision: AutoResolveDecision)
    requires
        is_low(decision),
    ensures
        has_low_risk(decision.risk@),
{
    reveal_strlit("low");
    let risk = decision.risk@;
    let lower = ascii_lower(risk);
    assert(lower == ascii_lower("low"@));
    assert(lower.len() == 3);
    assert(lower[0] == ascii_lower("low"@)[0]);
    assert(lower[1] == ascii_lower("low"@)[1]);
    assert(lower[2] == ascii_lower("low"@)[2]);
}

/// The request to write a resolved file into a tree: under its path, with its content.
pub open spec fn write_of(tree: Tree, file: ResolvedFile) -> RequestView {
    RequestView::Git(
        tree,
        GitView::WriteFile { path: file.path@, content: file.content@ },
    )
}

/// The request to stage a resolved file in a tree.
pub open spec fn stage_of(tree: Tree, file: ResolvedFile) -> RequestView {
    RequestView::Git(tree, GitView::AddFile { path: file.path@ })
}

/// Whether a resolved file was written and then staged, as two replies from a position on say.
pub open spec fn is_placed(
    asks: spec_fn(Seq<Reply>) -> Option<RequestView>,
    replies: Seq<Reply>,
    tree: Tree,
    file: ResolvedFile,
    at: int,
) -> bool {
    &&& answers(asks, replies, at, write_of(tree, file))
    &&& replies[at] is Done
    &&& answers(asks, replies, at + 1, stage_of(tree, file))
    &&& replies[at + 1] is Done
}

/// Whether the first of some resolved files were each written and staged, in order.
pub open spec fn are_placed(
    asks: spec_fn(Seq<Reply>) -> Option<RequestView>,
    replies: Seq<Reply>,
    tree: Tree,
    files: Seq<ResolvedFile>,
    first: int,
    count: int,
) -> bool {
    forall|j: int|
        0 <= j < count ==> #[trigger] is_placed(asks, replies, tree, files[j], first + 2 * j)
}

/// How far resolved files have been written: the files in conflict, the resolved ones, the reply to
/// the first write, and how many are done.
pub struct Turn {
    pub tree: Tree,
    pub files: Vec<ConflictFileContent>,
    pub resolved: Vec<ResolvedFile>,
    pub first: int,
    pub done: int,
}

/// Whether resolved files are what a decision of low risk came to: the reply behind the decision
/// answers the request to put just its resolutions in the place of the conflicts. The first write
/// follows, at once or behind one more check.
pub open spec fn comes_of(
    asks: spec_fn(Seq<Reply>) -> Option<RequestView>,
    replies: Seq<Reply>,
    at: int,
    turn: Turn,
) -> bool {
    &&& is_low_decision(asks, replies, at)
    &&& answers(
        asks,
        replies,
        at + 1,
        RequestView::Conflict(
            ConflictView::Resolve {
                files: turn.files,
                resolutions: replies[at]->AutoResolve_0.resolutions,
            },
        ),
    )
    &&& replies[at + 1] == Reply::Resolved(turn.resolved)
    &&& turn.first == at + 2 || turn.first == at + 3
}

/// Whether what is asked for now is to write or to stage the resolved file whose turn it is, all
/// files before it being written and staged.
pub open spec fn is_in_turn(
    asks: spec_fn(Seq<Reply>) -> Option<RequestView>,
    replies: Seq<Reply>,
    turn: Turn,
) -> bool {
    let at = turn.first + 2 * turn.done;
    &&& 0 <= turn.done < turn.resolved@.len()
    &&& are_placed(asks, replies, turn.tree, turn.resolved@, turn.first, turn.done)
    &&& if replies.len() == at {
        asks(replies) == Some(write_of(turn.tree, turn.resolved@[turn.done]))
    } else {
        &&& replies.len() == at + 1
        &&& answers(asks, replies, at, write_of(turn.tree, turn.resolved@[turn.done]))
        &&& replies[at] is Done
        &&& asks(replies) == Some(stage_of(turn.tree, turn.resolved@[turn.done]))
    }
}

/// Whether the reply at a position is a decision of low risk on a conflict, and what is asked for now
/// is to write or to stage, in its turn, a file that the decision came to.
pub open spec fn is_low_risk_answer(
    asks: spec_fn(Seq<Reply>) -> Option<RequestView>,
    replies: Seq<Reply>,
    at: int,
) -> bool {
    exists|turn: Turn|
        #[trigger] comes_of(asks, replies, at, turn) && is_in_turn(asks, replies, turn)
}

/// Whether what is asked for now writes or stages, in its turn, a file that a decision of low risk
/// came to which stands among the replies from some position on.
pub open spec fn is_low_risk(
    asks: spec_fn(Seq<Reply>) -> Option<RequestView>,
    from: nat,
    replies: Seq<Reply>,
) -> bool {
    exists|k: int| from <= k && #[trigger] is_low_risk_answer(asks, replies, k)
}

/// What a part of a run writes on a decision of low risk, the run writes on it.
pub proof fn lemma_low_risk_is_handed_on(
    part: spec_fn(Seq<Reply>) -> Option<RequestView>,
    whole: spec_fn(Seq<Reply>) -> Option<RequestView>,
    from: nat,
    start: nat,
    replies: Seq<Reply>,
)
    requires
        is_low_risk(part, from, replies),
        hands_on(part, whole, from, replies),
        start <= from,
    ensures
        is_low_risk(whole, start, replies),
{
    let k = choose|k: int| from <= k && #[trigger] is_low_risk_answer(part, replies, k);
    let turn = choose|turn: Turn|
        #[trigger] comes_of(part, replies, k, turn) && is_in_turn(part, replies, turn);
    assert forall|p: int, request: RequestView|
        from <= p && #[trigger] answers(part, replies, p, request) implies answers(
        whole,
        replies,
        p,
        request,
    ) by {
        assert(whole(replies.take(p)) == part(replies.take(p)));
    }
    assert(whole(replies.take(k)) == part(replies.take(k)));
    assert(replies.take(replies.len() as int) =~= replies);
    assert(whole(replies) == part(replies)) by {
        assert(part(replies.take(replies.len() as int)) is Some);
    }
    assert forall|j: int| 0 <= j < turn.done implies #[trigger] is_placed(
        whole,
        replies,
        turn.tree,
        turn.resolved@[j],
        turn.first + 2 * j,
    ) by {
        assert(is_placed(part, replies, turn.tree, turn.resolved@[j], turn.first + 2 * j));
    }
    assert(comes_of(whole, replies, k, turn));
    assert(is_in_turn(whole, replies, turn));
    assert(is_low_risk_answer(whole, replies, k));
}

/// What writing resolved files from one on asks for.
pub open spec fn write_asks(tree: Tree, files: Seq<ResolvedFile>, at: nat) -> spec_fn(
    Seq<Reply>,
) -> Option<RequestView> {
    |replies: Seq<Reply>| request_of(written_from(tree, files, 0, replies, at))
}

proof fn lemma_writing_stands(
    tree: Tree,
    files: Seq<ResolvedFile>,
    next: nat,
    replies: Seq<Reply>,
    first: nat,
) -> (done: nat)
    requires
        next <= files.len(),
        first + 2 * next <= replies.len(),
        !(written_from(tree, files, next, replies, first + 2 * next) is Fail),
    ensures
        next <= done <= files.len(),
        forall|j: int|
            next <= j < done ==> (#[trigger] replies[first + 2 * j]) is Done && replies[first + 2
                * j + 1] is Done,
        match written_from(tree, files, next, replies, first + 2 * next) {
            Run::Ask(request) => done < files.len() && (if replies.len() == first + 2 * done {
                request == write_of(tree, files[done as int])
            } else {
                &&& replies.len() == first + 2 * done + 1
                &&& replies[(first + 2 * done) as int] is Done
                &&& request == stage_of(tree, files[done as int])
            }),
            Run::On(_, end) => done == files.len() && end == first + 2 * done && end
                <= replies.len(),
            Run::Fail(_, _) => false,
        },
    decreases files.len() - next,
{
    let at: nat = first + 2 * next;
    if next < files.len() && at + 1 < replies.len() {
        assert(first + 2 * (next + 1) == at + 2);
        let done = lemma_writing_stands(tree, files, next + 1, replies, first);
        assert forall|j: int| next <= j < done implies (#[trigger] replies[first + 2 * j]) is Done
            && replies[first + 2 * j + 1] is Done by {
            if j == next {
                assert(replies[at as int] is Done);
                assert(replies[(at + 1) as int] is Done);
            }
        }
        done
    } else {
        next
    }
}

proof fn lemma_write_is_asked_for(
    tree: Tree,
    files: Seq<ResolvedFile>,
    next: nat,
    replies: Seq<Reply>,
    first: nat,
    j: nat,
)
    requires
        next <= j < files.len(),
        first + 2 * j <= replies.len(),
        forall|i: int|
            next <= i < j ==> (#[trigger] replies[first + 2 * i]) is Done && replies[first + 2 * i
                + 1] is Done,
    ensures
        written_from(
            tree,
            files,
            next,
            replies.take((first + 2 * j) as int),
            first + 2 * next,
        ) == Run::Ask::<()>(write_of(tree, files[j as int])),
        first + 2 * j < replies.len() && replies[(first + 2 * j) as int] is Done ==> written_from(
            tree,
            files,
            next,
            replies.take((first + 2 * j + 1) as int),
            first + 2 * next,
        ) == Run::Ask::<()>(stage_of(tree, files[j as int])),
    decreases j - next,
{
    let at: nat = first + 2 * next;
    let one = replies.take((first + 2 * j) as int);
    let two = replies.take((first + 2 * j + 1) as int);
    if next < j {
        assert(first + 2 * (next + 1) == at + 2);
        lemma_write_is_asked_for(tree, files, next + 1, replies, first, j);
        assert(replies[first + 2 * next as int] is Done);
        assert(one[at as int] == replies[at as int]);
        assert(one[(at + 1) as int] == replies[(at + 1) as int]);
        if first + 2 * j < replies.len() {
            assert(two[at as int] == replies[at as int]);
            assert(two[(at + 1) as int] == replies[(at + 1) as int]);
        }
    } else if first + 2 * j < replies.len() {
        assert(two[at as int] == replies[at as int]);
    }
}

/// Resolved files are written and staged one by one, in order: each under its own path with its own
/// content, and each staged before the next is written.
pub proof fn lemma_files_are_placed_in_order(
    tree: Tree,
    files: Seq<ResolvedFile>,
    replies: Seq<Reply>,
    first: nat,
) -> (done: nat)
    requires
        first <= replies.len(),
        !(written_from(tree, files, 0, replies, first) is Fail),
    ensures
        done <= files.len(),
        are_placed(write_asks(tree, files, first), replies, tree, files, first as int, done as int),
        match written_from(tree, files, 0, replies, first) {
            Run::Ask(request) => {
                &&& done < files.len()
                &&& if replies.len() == first + 2 * done {
                    request == write_of(tree, files[done as int])
                } else {
                    &&& replies.len() == first + 2 * done + 1
                    &&& answers(
                        write_asks(tree, files, first),
                        replies,
                        (first + 2 * done) as int,
                        write_of(tree, files[done as int]),
                    )
                    &&& replies[(first + 2 * done) as int] is Done
                    &&& request == stage_of(tree, files[done as int])
                }
            },
            Run::On(_, end) => done == files.len() && end == first + 2 * done && end
                <= replies.len(),
            Run::Fail(_, _) => false,
        },
{
    let asks = write_asks(tree, files, first);
    assert(first + 2 * 0 == first);
    let done = lemma_writing_stands(tree, files, 0, replies, first);
    assert forall|j: int| 0 <= j < done implies #[trigger] is_placed(
        asks,
        replies,
        tree,
        files[j],
        first + 2 * j,
    ) by {
        assert(replies[first + 2 * j] is Done);
        lemma_write_is_asked_for(tree, files, 0, replies, first, j as nat);
    }
    if done < files.len() {
        lemma_write_is_asked_for(tree, files, 0, replies, first, done);
    }
    done
}

/// What asking the model for a resolution asks for.
pub open spec fn solve_asks(
    llm: Option<LlmConfig>,
    branch: BranchConfig,
    base: Seq<char>,
    round: nat,
    snapshot: ConflictSnapshot,
    details: Seq<Seq<char>>,
    at: nat,
) -> spec_fn(Seq<Reply>) -> Option<RequestView> {
    |replies: Seq<Reply>|
        request_of(solved(llm, branch, base, round, snapshot, details, replies, at))
}

/// A round that has resolved files has them from a decision of low risk: the last reply but one is
/// the decision, and the last one is what its resolutions came to in the files in conflict.
#[verifier::rlimit(60)]
pub proof fn lemma_solution_is_of_low_risk(
    llm: Option<LlmConfig>,
    branch: BranchConfig,
    base: Seq<char>,
    round: nat,
    snapshot: ConflictSnapshot,
    details: Seq<Seq<char>>,
    replies: Seq<Reply>,
    at: nat,
)
    requires
        at <= replies.len(),
    ensures
        solved(llm, branch, base, round, snapshot, details, replies, at) matches Run::On(
            solution,
            end,
        ) ==> (solution.files matches Some(resolved) ==> {
            let asks = solve_asks(llm, branch, base, round, snapshot, details, at);
            &&& at + 2 <= end <= replies.len()
            &&& replies[at as int] is Files
            &&& is_low_decision(asks, replies, end - 2)
            &&& answers(
                asks,
                replies,
                end - 1,
                RequestView::Conflict(
                    ConflictView::Resolve {
                        files: replies[at as int]->Files_0,
                        resolutions: replies[end - 2]->AutoResolve_0.resolutions,
                    },
                ),
            )
            &&& replies[end - 1] == Reply::Resolved(resolved)
        }),
{
    let asks = solve_asks(llm, branch, base, round, snapshot, details, at);
    if let Run::On(files, a) = asked::<Vec<ConflictFileContent>>(
        replies,
        at,
        git(
            Tree::Main,
            GitView::ConflictFiles {
                files: texts(snapshot.files@),
                limit: branch.auto_resolve.max_file_bytes,
            },
        ),
    ) {
        if let Run::On(patch, b) = asked::<SyncPatchContext>(
            replies,
            a + 1,
            git(Tree::Main, GitView::PatchContext { limit: PATCH_CONTEXT_BYTES }),
        ) {
            let facts = branch_facts(branch, base, patch@, snapshot);
            lemma_resolution_is_a_reply(llm, facts, files, replies, b);
            if let Run::On(Some(decision), end) = auto_resolution(
                llm,
                facts,
                files,
                replies,
                b,
            ) {
                let known = replies.take(end - 1);
                assert(known[at as int] == replies[at as int]);
                assert(known[a as int] == replies[a as int]);
                assert(known[(a + 1) as int] == replies[(a + 1) as int]);
                if let Run::On(solution, _) = solved(
                    llm,
                    branch,
                    base,
                    round,
                    snapshot,
                    details,
                    replies,
                    at,
                ) {
                    if solution.files is Some {
                        lemma_low_is_the_word(decision);
                        assert(is_low_decision(asks, replies, end - 1));
                        let later = replies.take(end as int);
                        assert(later[at as int] == replies[at as int]);
                        assert(later[a as int] == replies[a as int]);
                        assert(later[(a + 1) as int] == replies[(a + 1) as int]);
                        lemma_beginning(replies, end as int);
                        lemma_resolution_is_steady(
                            llm,
                            facts,
                            files,
                            later,
                            replies.skip(end as int),
                            b,
                        );
                    }
                }
            }
        }
    }
}

/// A resolution rests on the replies that were read for it alone.
pub proof fn lemma_resolution_is_steady(
    llm: Option<LlmConfig>,
    facts: ConflictFacts,
    files: Vec<ConflictFileContent>,
    replies: Seq<Reply>,
    more: Seq<Reply>,
    at: nat,
)
    ensures
        steady(
            at,
            replies.len(),
            auto_resolution(llm, facts, files, replies, at),
            auto_resolution(llm, facts, files, replies + more, at),
        ),
{
    broadcast use {lemma_asked_is_steady, lemma_decided_is_steady};

}

/// What resolving the conflicts of a round asks for.
pub open spec fn round_asks(
    llm: Option<LlmConfig>,
    branch: BranchConfig,
    base: Seq<char>,
    round: nat,
    snapshot: ConflictSnapshot,
    details: Seq<Seq<char>>,
    at: nat,
) -> spec_fn(Seq<Reply>) -> Option<RequestView> {
    |replies: Seq<Reply>|
        request_of(round_on(llm, branch, base, round, snapshot, details, replies, at))
}

/// A round pushes nothing. It writes and stages files only where no conflict lies outside the
/// allowed paths and there are not too many of them, and only those, in their turn, that a decision
/// of low risk came to.
#[verifier::rlimit(60)]
pub proof fn lemma_round_writes_what_is_allowed(
    llm: Option<LlmConfig>,
    branch: BranchConfig,
    base: Seq<char>,
    round: nat,
    snapshot: ConflictSnapshot,
    details: Seq<Seq<char>>,
    replies: Seq<Reply>,
    at: nat,
)
    requires
        at <= replies.len(),
    ensures
        round_on(llm, branch, base, round, snapshot, details, replies, at) matches Run::Ask(
            request,
        ) ==> !pushes(request) && (writes(request) ==> refusal(
            branch.auto_resolve,
            texts(snapshot.files@),
        ) is None && is_low_risk(
            round_asks(llm, branch, base, round, snapshot, details, at),
            at,
            replies,
        )),
{
    let lines = details.push(
        round_line(round, ": conflict files "@ + joined(texts(snapshot.files@), ", "@)),
    );
    lemma_solving_writes_nothing(llm, branch, base, round, snapshot, lines, replies, at);
    if refusal(branch.auto_resolve, texts(snapshot.files@)) is None {
        if let Run::On(solution, next) = solved(
            llm,
            branch,
            base,
            round,
            snapshot,
            lines,
            replies,
            at,
        ) {
            if let Some(files) = solution.files {
                lemma_written_pushes_nothing(Tree::Main, files@, 0, replies, next);
                lemma_solution_is_of_low_risk(
                    llm,
                    branch,
                    base,
                    round,
                    snapshot,
                    lines,
                    replies,
                    at,
                );
                if written_from(Tree::Main, files@, 0, replies, next) is Ask {
                    let turn = lemma_round_places_files(
                        llm,
                        branch,
                        base,
                        round,
                        snapshot,
                        details,
                        replies,
                        at,
                    );
                    let whole = round_asks(llm, branch, base, round, snapshot, details, at);
                    assert(comes_of(whole, replies, next - 2, turn));
                    assert(is_in_turn(whole, replies, turn));
                    assert(is_low_risk_answer(whole, replies, next - 2));
                }
            }
        }
    }
}

/// Once a round has resolved files, it writes and stages them in order; only when all of them are
/// written and staged, the sync is continued, the way the branch is synced.
pub proof fn lemma_round_places_files(
    llm: Option<LlmConfig>,
    branch: BranchConfig,
    base: Seq<char>,
    round: nat,
    snapshot: ConflictSnapshot,
    details: Seq<Seq<char>>,
    replies: Seq<Reply>,
    at: nat,
) -> (turn: Turn)
    requires
        at <= replies.len(),
        refusal(branch.auto_resolve, texts(snapshot.files@)) is None,
        ({
            let lines = details.push(
                round_line(round, ": conflict files "@ + joined(texts(snapshot.files@), ", "@)),
            );
            let solving = solved(llm, branch, base, round, snapshot, lines, replies, at);
            &&& solving matches Run::On(solution, next) && solution.files is Some && !(written_from(
                Tree::Main,
                solution.files->0@,
                0,
                replies,
                next,
            ) is Fail)
        }),
    ensures
        ({
            let asks = round_asks(llm, branch, base, round, snapshot, details, at);
            &&& at + 2 <= turn.first
            &&& turn.tree == Tree::Main
            &&& comes_of(asks, replies, turn.first - 2, turn)
            &&& replies[at as int] == Reply::Files(turn.files)
            &&& are_placed(
                asks,
                replies,
                Tree::Main,
                turn.resolved@,
                turn.first,
                turn.done,
            )
            &&& if turn.done < turn.resolved@.len() {
                is_in_turn(asks, replies, turn)
            } else {
                &&& turn.done == turn.resolved@.len()
                &&& asks(replies.take(turn.first + 2 * turn.done)) == Some(
                    RequestView::Git(
                        Tree::Main,
                        GitView::Continue { strategy: branch.sync },
                    ),
                )
            }
            &&& written_from(Tree::Main, turn.resolved@, 0, replies, turn.first as nat) is Ask
                ==> turn.done < turn.resolved@.len()
            &&& turn.resolved == solved(
                llm,
                branch,
                base,
                round,
                snapshot,
                details.push(
                    round_line(round, ": conflict files "@ + joined(texts(snapshot.files@), ", "@)),
                ),
                replies,
                at,
            )->On_0.files->0
            &&& turn.first == solved(
                llm,
                branch,
                base,
                round,
                snapshot,
                details.push(
                    round_line(round, ": conflict files "@ + joined(texts(snapshot.files@), ", "@)),
                ),
                replies,
                at,
            )->On_1
        }),
{
    let lines = details.push(
        round_line(round, ": conflict files "@ + joined(texts(snapshot.files@), ", "@)),
    );
    let whole = round_asks(llm, branch, base, round, snapshot, details, at);
    let part = solve_asks(llm, branch, base, round, snapshot, lines, at);
    let solving = solved(llm, branch, base, round, snapshot, lines, replies, at);
    let next = solving->On_1;
    let files = solving->On_0.files->0;
    lemma_solution_is_of_low_risk(llm, branch, base, round, snapshot, lines, replies, at);
    assert(hands_on(part, whole, at, replies));
    assert(whole(replies.take(next - 2)) == part(replies.take(next - 2)));
    assert(whole(replies.take(next - 1)) == part(replies.take(next - 1)));
    let writing = write_asks(Tree::Main, files@, next);
    let done = lemma_files_are_placed_in_order(Tree::Main, files@, replies, next);
    assert forall|k: int|
        next <= k <= replies.len() && writing(#[trigger] replies.take(k)) is Some implies whole(
        replies.take(k),
    ) == writing(replies.take(k)) by {
        lemma_beginning(replies, k);
        lemma_solved_is_steady(
            llm,
            branch,
            base,
            round,
            snapshot,
            lines,
            replies.take(k),
            replies.skip(k),
            at,
        );
    }
    assert forall|j: int| 0 <= j < done implies #[trigger] is_placed(
        whole,
        replies,
        Tree::Main,
        files@[j],
        next + 2 * j,
    ) by {
        assert(is_placed(writing, replies, Tree::Main, files@[j], next + 2 * j));
        assert(whole(replies.take(next + 2 * j)) == writing(replies.take(next + 2 * j)));
        assert(whole(replies.take(next + 2 * j + 1)) == writing(replies.take(next + 2 * j + 1)));
    }
    assert(replies.take(replies.len() as int) =~= replies);
    if done < files@.len() {
        assert(whole(replies.take(replies.len() as int)) == writing(
            replies.take(replies.len() as int),
        ));
        let p = (next + 2 * done) as int;
        if replies.len() != p {
            assert(whole(replies.take(p)) == writing(replies.take(p)));
        }
    } else {
        let p = (next + 2 * done) as int;
        lemma_beginning(replies, p);
        lemma_solved_is_steady(
            llm,
            branch,
            base,
            round,
            snapshot,
            lines,
            replies.take(p),
            replies.skip(p),
            at,
        );
        lemma_written_from_is_steady(
            Tree::Main,
            files@,
            0,
            replies.take(p),
            replies.skip(p),
            next,
        );
    }
    Turn {
        tree: Tree::Main,
        files: replies[at as int]->Files_0,
        resolved: files,
        first: next as int,
        done: done as int,
    }
}

/// What a whole round asks for.
pub open spec fn whole_round_asks(
    llm: Option<LlmConfig>,
    branch: BranchConfig,
    base: Seq<char>,
    round: nat,
    snapshot: ConflictSnapshot,
    details: Seq<Seq<char>>,
    at: nat,
) -> spec_fn(Seq<Reply>) -> Option<RequestView> {
    |replies: Seq<Reply>|
        request_of(round_run(llm, branch, base, round, snapshot, details, replies, at))
}

proof fn lemma_whole_round(
    llm: Option<LlmConfig>,
    branch: BranchConfig,
    base: Seq<char>,
    round: nat,
    snapshot: ConflictSnapshot,
    details: Seq<Seq<char>>,
    replies: Seq<Reply>,
    at: nat,
)
    requires
        at <= replies.len(),
    ensures
        round_run(llm, branch, base, round, snapshot, details, replies, at) matches Run::Ask(
            request,
        ) ==> !pushes(request) && (writes(request) ==> is_low_risk(
            whole_round_asks(llm, branch, base, round, snapshot, details, at),
            at,
            replies,
        )),
{
    reveal(round_run);
    let whole = whole_round_asks(llm, branch, base, round, snapshot, details, at);
    if snapshot.files@.len() > 0 {
        lemma_round_writes_what_is_allowed(
            llm,
            branch,
            base,
            round,
            snapshot,
            details,
            replies,
            at,
        );
        let part = round_asks(llm, branch, base, round, snapshot, details, at);
        assert(hands_on(part, whole, at, replies));
        if is_low_risk(part, at, replies) {
            lemma_low_risk_is_handed_on(part, whole, at, at, replies);
        }
    } else if let Run::On(RoundView::Going(next, lines), after) = advance(
        branch.sync,
        round,
        (round - 1) as nat,
        snapshot,
        details,
        replies,
        at,
    ) {
        lemma_nothing_more(replies);
        lemma_advance_is_steady(
            branch.sync,
            round,
            (round - 1) as nat,
            snapshot,
            details,
            replies,
            Seq::empty(),
            at,
        );
        lemma_round_writes_what_is_allowed(
            llm,
            branch,
            base,
            round,
            next,
            lines,
            replies,
            after,
        );
        let part = round_asks(llm, branch, base, round, next, lines, after);
        assert forall|k: int|
            after <= k <= replies.len() && part(#[trigger] replies.take(k)) is Some implies whole(
            replies.take(k),
        ) == part(replies.take(k)) by {
            lemma_beginning(replies, k);
            lemma_advance_is_steady(
                branch.sync,
                round,
                (round - 1) as nat,
                snapshot,
                details,
                replies.take(k),
                replies.skip(k),
                at,
            );
        }
        if is_low_risk(part, after, replies) {
            lemma_low_risk_is_handed_on(part, whole, after, at, replies);
        }
    }
}

/// What the rounds from one on ask for.
pub open spec fn rounds_ask(
    llm: Option<LlmConfig>,
    branch: BranchConfig,
    base: Seq<char>,
    round: nat,
    snapshot: ConflictSnapshot,
    details: Seq<Seq<char>>,
    at: nat,
) -> spec_fn(Seq<Reply>) -> Option<RequestView> {
    |replies: Seq<Reply>|
        request_of(rounds_from(llm, branch, base, round, snapshot, details, replies, at))
}

proof fn lemma_rounds(
    llm: Option<LlmConfig>,
    branch: BranchConfig,
    base: Seq<char>,
    round: nat,
    snapshot: ConflictSnapshot,
    details: Seq<Seq<char>>,
    replies: Seq<Reply>,
    at: nat,
)
    requires
        at <= replies.len(),
    ensures
        rounds_from(llm, branch, base, round, snapshot, details, replies, at) matches Run::Ask(
            request,
        ) ==> !pushes(request) && (writes(request) ==> is_low_risk(
            rounds_ask(llm, branch, base, round, snapshot, details, at),
            at,
            replies,
        )),
    decreases rounds_of(branch.auto_resolve) + 1 - round,
{
    if round <= rounds_of(branch.auto_resolve) {
        let whole = rounds_ask(llm, branch, base, round, snapshot, details, at);
        lemma_whole_round(llm, branch, base, round, snapshot, details, replies, at);
        let first = whole_round_asks(llm, branch, base, round, snapshot, details, at);
        assert(hands_on(first, whole, at, replies));
        if is_low_risk(first, at, replies) {
            lemma_low_risk_is_handed_on(first, whole, at, at, replies);
        }
        if let Run::On(RoundView::Going(next, lines), after) = round_run(
            llm,
            branch,
            base,
            round,
            snapshot,
            details,
            replies,
            at,
        ) {
            lemma_nothing_more(replies);
            lemma_round_run_is_steady(
                llm,
                branch,
                base,
                round,
                snapshot,
                details,
                replies,
                Seq::empty(),
                at,
            );
            lemma_rounds(llm, branch, base, round + 1, next, lines, replies, after);
            let part = rounds_ask(llm, branch, base, round + 1, next, lines, after);
            assert forall|k: int|
                after <= k <= replies.len() && part(#[trigger] replies.take(k)) is Some implies whole(
                replies.take(k),
            ) == part(replies.take(k)) by {
                lemma_beginning(replies, k);
                lemma_round_run_is_steady(
                    llm,
                    branch,
                    base,
                    round,
                    snapshot,
                    details,
                    replies.take(k),
                    replies.skip(k),
                    at,
                );
            }
            if is_low_risk(part, after, replies) {
                lemma_low_risk_is_handed_on(part, whole, after, at, replies);
            }
        }
    }
}

/// What an attempt to resolve conflicts asks for.
pub open spec fn attempt_asks(
    llm: Option<LlmConfig>,
    branch: BranchConfig,
    base: Seq<char>,
    snapshot: ConflictSnapshot,
    at: nat,
) -> spec_fn(Seq<Reply>) -> Option<RequestView> {
    |replies: Seq<Reply>| request_of(attempt(llm, branch, base, snapshot, replies, at))
}

/// An attempt to resolve conflicts pushes nothing, and it writes a file only where a decision of low
/// risk was asked for and given and the branch allows attempts.
pub proof fn lemma_attempt_writes_at_low_risk(
    llm: Option<LlmConfig>,
    branch: BranchConfig,
    base: Seq<char>,
    snapshot: ConflictSnapshot,
    replies: Seq<Reply>,
    at: nat,
)
    requires
        at <= replies.len(),
    ensures
        attempt(llm, branch, base, snapshot, replies, at) matches Run::Ask(request) ==> !pushes(
            request,
        ) && branch.auto_resolve.enabled && branch.auto_resolve.allowed_paths@.len() > 0 && (
        writes(request) ==> is_low_risk(
            attempt_asks(llm, branch, base, snapshot, at),
            at,
            replies,
        )),
{
    if branch.auto_resolve.enabled && branch.auto_resolve.allowed_paths@.len() > 0 {
        let details = seq!["auto resolve: enabled"@];
        lemma_rounds(llm, branch, base, 1, snapshot, details, replies, at);
        let part = rounds_ask(llm, branch, base, 1, snapshot, details, at);
        let whole = attempt_asks(llm, branch, base, snapshot, at);
        assert(hands_on(part, whole, at, replies));
        if is_low_risk(part, at, replies) {
            lemma_low_risk_is_handed_on(part, whole, at, at, replies);
        }
    }
}

proof fn lemma_abandoned_pushes_nothing(
    config: Config,
    branch: BranchConfig,
    start: StartView,
    status: i32,
    snapshot: ConflictSnapshot,
    details: Seq<Seq<char>>,
    replies: Seq<Reply>,
    at: nat,
)
    ensures
        abandoned(config, branch, start, status, snapshot, details, replies, at) matches Run::Ask(
            request,
        ) ==> !pushes(request) && !writes(request),
{
    if let Run::On(_, a) = aborted(replies, at) {
        if let Run::On(patch, b) = patch_or_unknown(Tree::Main, replies, a) {
            lemma_analysis_asks_the_model(
                config.llm,
                branch_facts(branch, base_ref(config.repo), patch, snapshot),
                replies,
                b,
            );
        }
    }
}

/// What resolving conflicts asks for.
pub open spec fn resolve_asks(
    config: Config,
    branch: BranchConfig,
    start: StartView,
    status: i32,
    snapshot: ConflictSnapshot,
    details: Seq<Seq<char>>,
    at: nat,
) -> spec_fn(Seq<Reply>) -> Option<RequestView> {
    |replies: Seq<Reply>|
        request_of(
            resolved_from(config, branch, start, status, snapshot, details, replies, at),
        )
}

proof fn lemma_resolved_pushes_nothing(
    config: Config,
    branch: BranchConfig,
    start: StartView,
    status: i32,
    snapshot: ConflictSnapshot,
    details: Seq<Seq<char>>,
    replies: Seq<Reply>,
    at: nat,
)
    requires
        at <= replies.len(),
    ensures
        resolved_from(config, branch, start, status, snapshot, details, replies, at) matches Run::Ask(
            request,
        ) ==> !pushes(request) && (writes(request) ==> is_low_risk(
            resolve_asks(config, branch, start, status, snapshot, details, at),
            at,
            replies,
        )),
{
    let base = base_ref(config.repo);
    lemma_abandoned_pushes_nothing(config, branch, start, status, snapshot, details, replies, at);
    lemma_attempt_writes_at_low_risk(config.llm, branch, base, snapshot, replies, at);
    match attempt(config.llm, branch, base, snapshot, replies, at) {
        Run::On(None, a) => lemma_abandoned_pushes_nothing(
            config,
            branch,
            start,
            status,
            snapshot,
            details,
            replies,
            a,
        ),
        Run::On(Some(outcome), a) => lemma_abandoned_pushes_nothing(
            config,
            branch,
            start,
            status,
            outcome.snapshot,
            details + outcome.details,
            replies,
            a,
        ),
        Run::Ask(_) => {
            if snapshot.files@.len() > 0 {
                let part = attempt_asks(config.llm, branch, base, snapshot, at);
                let whole = resolve_asks(config, branch, start, status, snapshot, details, at);
                assert(hands_on(part, whole, at, replies));
                if is_low_risk(part, at, replies) {
                    lemma_low_risk_is_handed_on(part, whole, at, at, replies);
                }
            }
        },
        Run::Fail(_, _) => {},
    }
}

/// What settling conflicts asks for.
pub open spec fn settle_asks(
    config: Config,
    branch: BranchConfig,
    start: StartView,
    output: CommandOutput,
    at: nat,
) -> spec_fn(Seq<Reply>) -> Option<RequestView> {
    |replies: Seq<Reply>| request_of(settled(config, branch, start, output, replies, at))
}

proof fn lemma_settled_pushes_nothing(
    config: Config,
    branch: BranchConfig,
    start: StartView,
    output: CommandOutput,
    replies: Seq<Reply>,
    at: nat,
)
    requires
        at <= replies.len(),
    ensures
        settled(config, branch, start, output, replies, at) matches Run::Ask(request) ==> !pushes(
            request,
        ) && (writes(request) ==> is_low_risk(
            settle_asks(config, branch, start, output, at),
            at,
            replies,
        )),
{
    let none = Seq::<Seq<char>>::empty();
    let whole = settle_asks(config, branch, start, output, at);
    if output.succeeded() {
        reveal(settled);
    } else if let Run::On(snapshot, a) = asked::<ConflictSnapshot>(
        replies,
        at,
        git(Tree::Main, GitView::Snapshot { limit: SNAPSHOT_BYTES }),
    ) {
        if snapshot.files@.len() > 0 {
            lemma_resolved_pushes_nothing(
                config,
                branch,
                start,
                output.status,
                snapshot,
                none,
                replies,
                a,
            );
            let part = resolve_asks(config, branch, start, output.status, snapshot, none, a);
            assert forall|k: int|
                a <= k <= replies.len() && part(#[trigger] replies.take(k)) is Some implies whole(
                replies.take(k),
            ) == part(replies.take(k)) by {
                reveal(settled);
                assert(replies.take(k)[at as int] == replies[at as int]);
            }
            if is_low_risk(part, a, replies) {
                lemma_low_risk_is_handed_on(part, whole, a, at, replies);
            }
            reveal(settled);
        } else {
            lemma_continued_pushes_nothing(config, branch, start, output, snapshot, replies, at);
        }
    } else {
        reveal(settled);
    }
}

proof fn lemma_continued_pushes_nothing(
    config: Config,
    branch: BranchConfig,
    start: StartView,
    output: CommandOutput,
    snapshot: ConflictSnapshot,
    replies: Seq<Reply>,
    at: nat,
)
    requires
        at < replies.len(),
        !output.succeeded(),
        replies[at as int] == Reply::Snapshot(snapshot),
        snapshot.files@.len() == 0,
    ensures
        settled(config, branch, start, output, replies, at) matches Run::Ask(request) ==> !pushes(
            request,
        ) && (writes(request) ==> is_low_risk(
            settle_asks(config, branch, start, output, at),
            at,
            replies,
        )),
{
    let none = Seq::<Seq<char>>::empty();
    let whole = settle_asks(config, branch, start, output, at);
    let a: nat = at + 1;
    let going = continuation(branch.sync, output.stderr@, replies, a);
    assert(going matches Run::Ask(request) ==> !pushes(request) && !writes(request)) by {
        if let Run::On(true, b) = staged(replies, a) {
            if let Run::On(head, c) = head_or_empty(replies, b) {
                lemma_continue_pushes_nothing(
                    branch.sync,
                    MAX_CONTINUES as nat,
                    head,
                    seq![
                        "rerere/autostaged resolution detected: continuing sync"@,
                        "initial continue stderr: "@ + on_one_line(output.stderr@),
                    ],
                    replies,
                    c,
                );
            }
        }
    }
    lemma_nothing_more(replies);
    lemma_continuation_is_steady(
        branch.sync,
        output.stderr@,
        replies,
        Seq::empty(),
        a,
    );
    match going {
        Run::On(None, b) => lemma_abandoned_pushes_nothing(
            config,
            branch,
            start,
            output.status,
            snapshot,
            none,
            replies,
            b,
        ),
        Run::On(Some(ContinueView::Stopped(next, details)), b) => {
            lemma_resolved_pushes_nothing(
                config,
                branch,
                start,
                output.status,
                next,
                details,
                replies,
                b,
            );
            let part = resolve_asks(config, branch, start, output.status, next, details, b);
            assert forall|k: int|
                b <= k <= replies.len() && part(#[trigger] replies.take(k)) is Some implies whole(
                replies.take(k),
            ) == part(replies.take(k)) by {
                reveal(settled);
                lemma_beginning(replies, k);
                lemma_continuation_is_steady(
                    branch.sync,
                    output.stderr@,
                    replies.take(k),
                    replies.skip(k),
                    a,
                );
                assert(replies.take(k)[at as int] == replies[at as int]);
            }
            if is_low_risk(part, b, replies) {
                lemma_low_risk_is_handed_on(part, whole, b, at, replies);
            }
        },
        _ => {},
    }
    reveal(settled);
}

/// Whether a reply is that of a command that ended well.
pub open spec fn is_success(reply: Reply) -> bool {
    reply matches Reply::Output(output) && output.succeeded()
}

/// The request for a test of a branch.
pub open spec fn test_request(config: Config, branch: BranchConfig, i: int) -> RequestView {
    git(
        Tree::Main,
        GitView::Test {
            command: branch.tests@[i]@,
            sandboxed: config.protection.enabled,
        },
    )
}

/// What the first `count` tests of a branch printed, whose replies stand from `first` on.
pub open spec fn printed_by(
    branch: BranchConfig,
    replies: Seq<Reply>,
    first: int,
    count: nat,
) -> Seq<char>
    decreases count,
{
    if count == 0 {
        Seq::empty()
    } else {
        let before = printed_by(branch, replies, first, (count - 1) as nat);
        match replies[first + count - 1] {
            Reply::Output(output) => before + test_record(branch.tests@[count - 1]@, output),
            _ => before,
        }
    }
}

proof fn lemma_tests(
    config: Config,
    branch: BranchConfig,
    details: Seq<Seq<char>>,
    next: nat,
    replies: Seq<Reply>,
    first: nat,
)
    requires
        next <= branch.tests@.len(),
    ensures
        ({
            let sandboxed = config.protection.enabled;
            let so_far = printed_by(branch, replies, first as int, next);
            match tests_from(sandboxed, branch, details, next, so_far, replies, first + next) {
                Run::Ask(request) => !pushes(request) && !writes(request),
                Run::On(StageView::Go(printed), end) => {
                    &&& end == first + branch.tests@.len()
                    &&& next < branch.tests@.len() ==> end <= replies.len()
                    &&& forall|i: int|
                        next <= i < branch.tests@.len() ==> is_success(
                            #[trigger] replies[first + i],
                        )
                    &&& printed == printed_by(
                        branch,
                        replies,
                        first as int,
                        branch.tests@.len(),
                    )
                },
                _ => true,
            }
        }),
    decreases branch.tests@.len() - next,
{
    if next < branch.tests@.len() {
        lemma_tests(config, branch, details, next + 1, replies, first);
        assert((next + 1 - 1) as nat == next);
        let sandboxed = config.protection.enabled;
        let so_far = printed_by(branch, replies, first as int, next);
        if let Run::On(StageView::Go(_), _) = tests_from(
            sandboxed,
            branch,
            details,
            next,
            so_far,
            replies,
            first + next,
        ) {
            assert forall|i: int| next <= i < branch.tests@.len() implies is_success(
                #[trigger] replies[first + i],
            ) by {}
        }
    }
}

/// With the replies to the tests before it, each test of a branch is asked for.
proof fn lemma_test_is_asked_for(
    config: Config,
    branch: BranchConfig,
    details: Seq<Seq<char>>,
    next: nat,
    replies: Seq<Reply>,
    first: nat,
    i: nat,
)
    requires
        next <= i < branch.tests@.len(),
        first + i <= replies.len(),
        forall|j: int| next <= j < i ==> is_success(#[trigger] replies[first + j]),
    ensures
        ({
            let sandboxed = config.protection.enabled;
            let known = replies.take((first + i) as int);
            let so_far = printed_by(branch, replies, first as int, next);
            tests_from(sandboxed, branch, details, next, so_far, known, first + next) == Run::Ask::<
                StageView<Seq<char>>,
            >(test_request(config, branch, i as int))
        }),
    decreases i - next,
{
    let known = replies.take((first + i) as int);
    if next < i {
        lemma_test_is_asked_for(config, branch, details, next + 1, replies, first, i);
        assert((next + 1 - 1) as nat == next);
        assert(is_success(replies[first + next as int]));
        assert(known[first + next as int] == replies[first + next as int]);
    }
}

/// Where the replies stand by which a push is earned.
pub struct Passage {
    /// Where the remote branch was at the start. The reply behind the next one says where the branch
    /// was.
    pub before: int,
    /// How the sync ended.
    pub synced: int,
    /// That the files are clean. What was found of the commits follows, and that they may go on.
    pub gate: int,
    /// How the first test ended. Those of the others follow, and then that the contracts hold.
    pub tests: int,
    /// Where the remote branch was at last.
    pub remote: int,
    /// What was found of the commits.
    pub batch: Option<CommitSecurityReviewBatch>,
}

/// Whether resolved conflicts call for tests that the branch does not have.
pub open spec fn owes_tests(branch: BranchConfig) -> bool {
    branch.tests@.len() == 0 && branch.auto_resolve.enabled && branch.auto_resolve.require_tests
}

/// Where the branch was, as a reply says.
pub open spec fn head_in(reply: Reply) -> Seq<char> {
    match reply {
        Reply::Text(head) => head@,
        _ => Seq::empty(),
    }
}

/// Whether the commits of a branch were found to be in order: there are none to review, or they may
/// go on and their contracts were verified against what the tests printed.
pub open spec fn commits_pass(
    asks: spec_fn(Seq<Reply>) -> Option<RequestView>,
    branch: BranchConfig,
    replies: Seq<Reply>,
    p: Passage,
) -> bool {
    let count = branch.tests@.len();
    &&& answers(
        asks,
        replies,
        p.gate + 1,
        protection(
            ProtectionView::Reviews { from: head_in(replies[p.before + 2]), to: "HEAD"@ },
        ),
    )
    &&& replies[p.gate + 1] == Reply::Reviews(p.batch)
    &&& match p.batch {
        None => p.tests == p.gate + 2,
        Some(batch) => {
            &&& p.tests == p.gate + 3
            &&& answers(
                asks,
                replies,
                p.gate + 2,
                protection(ProtectionView::CanProceed { batch }),
            )
            &&& replies[p.gate + 2] is Done
            &&& answers(
                asks,
                replies,
                p.tests + count,
                protection(
                    ProtectionView::VerifyContracts {
                        batch,
                        tests: texts(branch.tests@),
                        output: printed_by(branch, replies, p.tests, count),
                    },
                ),
            )
            &&& replies[p.tests + count] is Contracts
        },
    }
}

/// Whether a push is earned, each time by the reply to the request for it: the branch is one that is
/// pushed, behaviour is tested where that is required, the sync met no conflict where resolved ones
/// would have to be tested and there are no tests, the files are clean, the commits are in order,
/// every test ended well, and the remote branch is where it was at the start.
pub open spec fn earned(
    asks: spec_fn(Seq<Reply>) -> Option<RequestView>,
    config: Config,
    branch: BranchConfig,
    replies: Seq<Reply>,
    p: Passage,
) -> bool {
    let count = branch.tests@.len();
    &&& branch.push != PushStrategy::Skip
    &&& branch.require_behavioral_tests ==> branch.behavioral_tests
    &&& p.before + 2 < p.synced < p.gate && p.tests + count <= p.remote
    &&& answers(asks, replies, p.before, remote_head_request(config.repo, branch))
    &&& answers(asks, replies, p.before + 2, git(Tree::Main, GitView::Head))
    &&& answers(asks, replies, p.synced, sync_request(config.repo, branch))
    &&& owes_tests(branch) ==> is_success(replies[p.synced])
    &&& answers(asks, replies, p.gate, protection(ProtectionView::Gate))
    &&& replies[p.gate] is Done
    &&& commits_pass(asks, branch, replies, p)
    &&& forall|i: int|
        0 <= i < count ==> #[trigger] answers(
            asks,
            replies,
            p.tests + i,
            test_request(config, branch, i),
        ) && is_success(replies[p.tests + i])
    &&& answers(asks, replies, p.remote, remote_head_request(config.repo, branch))
    &&& replies[p.remote] matches Reply::Maybe(last) && replies[p.before] matches Reply::Maybe(first)
        && text_option(last) == text_option(first)
}

/// What a run asks for that is earned by a part of it is earned.
proof fn lemma_earned_is_handed_on(
    part: spec_fn(Seq<Reply>) -> Option<RequestView>,
    whole: spec_fn(Seq<Reply>) -> Option<RequestView>,
    from: nat,
    config: Config,
    branch: BranchConfig,
    replies: Seq<Reply>,
    p: Passage,
)
    requires
        earned(part, config, branch, replies, p),
        hands_on(part, whole, from, replies),
        from <= p.before,
    ensures
        earned(whole, config, branch, replies, p),
{
    let count = branch.tests@.len();
    assert forall|k: int, request: RequestView|
        from <= k && #[trigger] answers(part, replies, k, request) implies answers(
        whole,
        replies,
        k,
        request,
    ) by {
        assert(whole(replies.take(k)) == part(replies.take(k)));
    }
    assert forall|i: int| 0 <= i < count implies #[trigger] answers(
        whole,
        replies,
        p.tests + i,
        test_request(config, branch, i),
    ) && is_success(replies[p.tests + i]) by {
        assert(answers(part, replies, p.tests + i, test_request(config, branch, i)));
    }
}

proof fn lemma_start_asks(config: Config, branch: BranchConfig, replies: Seq<Reply>, at: nat)
    requires
        started(config, branch, replies, at) is On,
    ensures
        ({
            let start = started(config, branch, replies, at)->On_0;
            let end = started(config, branch, replies, at)->On_1;
            &&& at + 3 < end <= replies.len()
            &&& started(config, branch, replies.take((at + 1) as int), at) == Run::Ask::<StartView>(
                remote_head_request(config.repo, branch),
            )
            &&& started(config, branch, replies.take((at + 3) as int), at) == Run::Ask::<StartView>(
                git(Tree::Main, GitView::Head),
            )
            &&& replies[(at + 1) as int] matches Reply::Maybe(head) && text_option(head)
                == start.remote_before
            &&& start.before_head == head_in(replies[(at + 3) as int])
        }),
{
    reveal(started);
    let first = replies.take((at + 1) as int);
    let second = replies.take((at + 3) as int);
    assert(first[at as int] == replies[at as int]);
    assert(second[at as int] == replies[at as int]);
    assert(second[(at + 1) as int] == replies[(at + 1) as int]);
    assert(second[(at + 2) as int] == replies[(at + 2) as int]);
}

proof fn lemma_screening_asks(
    branch: BranchConfig,
    before_head: Seq<char>,
    details: Seq<Seq<char>>,
    replies: Seq<Reply>,
    gate: nat,
)
    requires
        screened(branch, before_head, details, replies, gate) matches Run::On(StageView::Go(_), _),
    ensures
        ({
            let batch = screened(branch, before_head, details, replies, gate)->On_0->Go_0;
            let tests = screened(branch, before_head, details, replies, gate)->On_1;
            let ask = |k: int| screened(branch, before_head, details, replies.take(k), gate);
            &&& branch.require_behavioral_tests ==> branch.behavioral_tests
            &&& tests <= replies.len()
            &&& ask(gate as int) == Run::Ask::<StageView<Option<CommitSecurityReviewBatch>>>(
                protection(ProtectionView::Gate),
            )
            &&& replies[gate as int] is Done
            &&& ask((gate + 1) as int) == Run::Ask::<StageView<Option<CommitSecurityReviewBatch>>>(
                protection(ProtectionView::Reviews { from: before_head, to: "HEAD"@ }),
            )
            &&& replies[(gate + 1) as int] == Reply::Reviews(batch)
            &&& match batch {
                None => tests == gate + 2,
                Some(found) => {
                    &&& tests == gate + 3
                    &&& ask((gate + 2) as int) == Run::Ask::<StageView<Option<CommitSecurityReviewBatch>>>(
                        protection(ProtectionView::CanProceed { batch: found }),
                    )
                    &&& replies[(gate + 2) as int] is Done
                },
            }
        }),
{
    reveal(screened);
    let second = replies.take((gate + 1) as int);
    let third = replies.take((gate + 2) as int);
    assert(second[gate as int] == replies[gate as int]);
    assert(third[gate as int] == replies[gate as int]);
    assert(third[(gate + 1) as int] == replies[(gate + 1) as int]);
}

proof fn lemma_testing_asks(
    config: Config,
    branch: BranchConfig,
    batch: Option<CommitSecurityReviewBatch>,
    details: Seq<Seq<char>>,
    replies: Seq<Reply>,
    tests: nat,
)
    requires
        tests <= replies.len(),
        tested(config, branch, batch, details, replies, tests) matches Run::On(StageView::Go(_), _),
    ensures
        ({
            let end = tested(config, branch, batch, details, replies, tests)->On_1;
            let count = branch.tests@.len();
            let ask = |k: int| tested(config, branch, batch, details, replies.take(k), tests);
            &&& !lacks_tests(branch, details)
            &&& tests + count <= end <= replies.len()
            &&& forall|i: int|
                0 <= i < count ==> #[trigger] ask(tests + i) == Run::Ask::<StageView<()>>(
                    test_request(config, branch, i),
                )
            &&& forall|i: int| 0 <= i < count ==> is_success(#[trigger] replies[tests + i])
            &&& batch matches Some(found) ==> {
                &&& tests + count < replies.len()
                &&& ask((tests + count) as int) == Run::Ask::<StageView<()>>(
                    protection(
                        ProtectionView::VerifyContracts {
                            batch: found,
                            tests: texts(branch.tests@),
                            output: printed_by(branch, replies, tests as int, count),
                        },
                    ),
                )
                &&& replies[(tests + count) as int] is Contracts
            }
        }),
{
    reveal(tested);
    let count = branch.tests@.len();
    let sandboxed = config.protection.enabled;
    let ask = |k: int| tested(config, branch, batch, details, replies.take(k), tests);
    lemma_tests(config, branch, details, 0, replies, tests);
    assert(printed_by(branch, replies, tests as int, 0) =~= Seq::<char>::empty());
    assert forall|i: int| 0 <= i < count implies #[trigger] ask(tests + i) == Run::Ask::<
        StageView<()>,
    >(test_request(config, branch, i)) by {
        lemma_test_is_asked_for(config, branch, details, 0, replies, tests, i as nat);
    }
    let k = (tests + count) as int;
    lemma_beginning(replies, k);
    lemma_tests_from_is_steady(
        sandboxed,
        branch,
        details,
        0,
        Seq::empty(),
        replies.take(k),
        replies.skip(k),
        tests,
    );
}

proof fn lemma_publishing_asks(
    repo: RepoConfig,
    branch: BranchConfig,
    expected: Option<Seq<char>>,
    replies: Seq<Reply>,
    at: nat,
)
    requires
        branch.push != PushStrategy::Skip,
        match pushed(repo, branch, expected, replies, at) {
            Run::Ask(request) => pushes(request),
            Run::On(StageView::Go(_), _) => true,
            _ => false,
        },
    ensures
        at + 1 < replies.len(),
        pushed(repo, branch, expected, replies.take((at + 1) as int), at) == Run::Ask::<
            StageView<()>,
        >(remote_head_request(repo, branch)),
        replies[(at + 1) as int] matches Reply::Maybe(head) && text_option(head) == expected,
        pushed(repo, branch, expected, replies, at) matches Run::Ask(request) ==> request
            == push_request(repo, branch, expected),
{
    reveal(pushed);
    assert(replies.take((at + 1) as int)[at as int] == replies[at as int]);
}

/// How far a branch has come.
pub struct Course {
    pub start: StartView,
    pub synced: nat,
    pub output: CommandOutput,
    pub details: Seq<Seq<char>>,
    pub gate: nat,
    pub batch: Option<CommitSecurityReviewBatch>,
    pub tests: nat,
    pub survey: SurveyView,
    pub surveyed: nat,
    pub publish: nat,
}

/// Whether the stages before the push of a branch came out as a course has it.
pub open spec fn takes_course(
    config: Config,
    branch: BranchConfig,
    replies: Seq<Reply>,
    at: nat,
    c: Course,
) -> bool {
    let has_remote = c.start.remote_before is Some;
    &&& started(config, branch, replies, at) == Run::On(c.start, c.synced)
    &&& asked::<CommandOutput>(replies, c.synced, sync_request(config.repo, branch)) == Run::On(
        c.output,
        c.synced + 1,
    )
    &&& settled(config, branch, c.start, c.output, replies, c.synced + 1) == Run::On(
        StageView::Go(c.details),
        c.gate,
    )
    &&& screened(branch, c.start.before_head, c.details, replies, c.gate) == Run::On(
        StageView::Go(c.batch),
        c.tests,
    )
    &&& tested(config, branch, c.batch, c.details, replies, c.tests) matches Run::On(
        StageView::Go(_),
        end,
    ) && end == c.surveyed
    &&& surveyed(config.repo, branch, has_remote, replies, c.surveyed) == Run::On(
        c.survey,
        c.publish,
    )
}

/// With the replies before some position, a branch takes the same course up to there, and asks for
/// what the stage asks for in which it stands.
proof fn lemma_once_asks(
    config: Config,
    branch: BranchConfig,
    replies: Seq<Reply>,
    at: nat,
    c: Course,
    k: int,
)
    requires
        takes_course(config, branch, replies, at, c),
        at <= k <= replies.len(),
    ensures
        ({
            let known = replies.take(k);
            let once = branch_once(config, branch, known, at);
            &&& started(config, branch, known, at) matches Run::Ask(request) ==> once
                == Run::Ask::<BranchView>(request)
            &&& k == c.synced ==> once == Run::Ask::<BranchView>(sync_request(config.repo, branch))
            &&& c.gate <= k ==> (screened(branch, c.start.before_head, c.details, known, c.gate)
                matches Run::Ask(request) ==> once == Run::Ask::<BranchView>(request))
            &&& c.tests <= k ==> (tested(config, branch, c.batch, c.details, known, c.tests)
                matches Run::Ask(request) ==> once == Run::Ask::<BranchView>(request))
            &&& c.publish <= k ==> (pushed(
                config.repo,
                branch,
                c.start.remote_before,
                known,
                c.publish,
            ) matches Run::Ask(request) ==> once == Run::Ask::<BranchView>(request))
        }),
        at <= c.synced < c.gate <= c.tests <= c.surveyed <= c.publish,
{
    let known = replies.take(k);
    let more = replies.skip(k);
    let has_remote = c.start.remote_before is Some;
    lemma_beginning(replies, k);
    lemma_started_is_steady(config, branch, known, more, at);
    lemma_settled_is_steady(config, branch, c.start, c.output, known, more, c.synced + 1);
    lemma_screened_is_steady(
        branch,
        c.start.before_head,
        c.details,
        known,
        more,
        c.gate,
    );
    lemma_tested_is_steady(config, branch, c.batch, c.details, known, more, c.tests);
    lemma_surveyed_is_steady(config.repo, branch, has_remote, known, more, c.surveyed);
    if c.synced < k {
        assert(known[c.synced as int] == replies[c.synced as int]);
    }
}

/// Conflicts that were resolved are reported.
proof fn lemma_resolving_is_reported(
    llm: Option<LlmConfig>,
    branch: BranchConfig,
    base: Seq<char>,
    round: nat,
    snapshot: ConflictSnapshot,
    details: Seq<Seq<char>>,
    replies: Seq<Reply>,
    at: nat,
)
    ensures
        rounds_from(llm, branch, base, round, snapshot, details, replies, at) matches Run::On(
            outcome,
            _,
        ) ==> (outcome.applied ==> outcome.details.len() > 0),
    decreases rounds_of(branch.auto_resolve) + 1 - round,
{
    if round <= rounds_of(branch.auto_resolve) {
        reveal(round_run);
        if let Run::On(RoundView::Going(left, said), end) = round_run(
            llm,
            branch,
            base,
            round,
            snapshot,
            details,
            replies,
            at,
        ) {
            lemma_resolving_is_reported(llm, branch, base, round + 1, left, said, replies, end);
        }
    }
}

proof fn lemma_continuing_is_reported(
    strategy: SyncStrategy,
    left: nat,
    last_head: Seq<char>,
    details: Seq<Seq<char>>,
    replies: Seq<Reply>,
    at: nat,
)
    ensures
        continue_from(strategy, left, last_head, details, replies, at) matches Run::On(
            ContinueView::Applied(said),
            _,
        ) ==> said.len() > 0,
    decreases left,
{
    if left > 0 {
        if let Run::On(output, next) = asked::<CommandOutput>(
            replies,
            at,
            git(Tree::Main, GitView::Continue { strategy }),
        ) {
            let lines = with_stderr(details, "continue stderr: "@, output.stderr@);
            if let Run::On(head, after) = head_or_empty(replies, next + 1) {
                lemma_continuing_is_reported(
                    strategy,
                    (left - 1) as nat,
                    head,
                    lines,
                    replies,
                    after + 1,
                );
            }
        }
    }
}

proof fn lemma_attempt_is_reported(
    config: Config,
    branch: BranchConfig,
    start: StartView,
    status: i32,
    snapshot: ConflictSnapshot,
    details: Seq<Seq<char>>,
    replies: Seq<Reply>,
    at: nat,
)
    ensures
        resolved_from(config, branch, start, status, snapshot, details, replies, at) matches Run::On(
            StageView::Go(said),
            _,
        ) ==> said.len() > 0,
{
    lemma_resolving_is_reported(
        config.llm,
        branch,
        base_ref(config.repo),
        1,
        snapshot,
        seq!["auto resolve: enabled"@],
        replies,
        at,
    );
}

/// A sync that met conflicts goes on only with a report on them.
proof fn lemma_settling_is_reported(
    config: Config,
    branch: BranchConfig,
    start: StartView,
    output: CommandOutput,
    replies: Seq<Reply>,
    at: nat,
)
    requires
        !output.succeeded(),
    ensures
        settled(config, branch, start, output, replies, at) matches Run::On(StageView::Go(said), _)
            ==> said.len() > 0,
{
    reveal(settled);
    if let Run::On(snapshot, a) = asked::<ConflictSnapshot>(
        replies,
        at,
        git(Tree::Main, GitView::Snapshot { limit: SNAPSHOT_BYTES }),
    ) {
        lemma_attempt_is_reported(
            config,
            branch,
            start,
            output.status,
            snapshot,
            Seq::empty(),
            replies,
            a,
        );
        if let Run::On(true, b) = staged(replies, a) {
            if let Run::On(head, c) = head_or_empty(replies, b) {
                lemma_continuing_is_reported(
                    branch.sync,
                    MAX_CONTINUES as nat,
                    head,
                    seq![
                        "rerere/autostaged resolution detected: continuing sync"@,
                        "initial continue stderr: "@ + on_one_line(output.stderr@),
                    ],
                    replies,
                    c,
                );
            }
        }
        if let Run::On(Some(ContinueView::Stopped(next, details)), b) = continuation(
            branch.sync,
            output.stderr@,
            replies,
            a,
        ) {
            lemma_attempt_is_reported(
                config,
                branch,
                start,
                output.status,
                next,
                details,
                replies,
                b,
            );
        }
    }
}

/// What syncing a branch once asks for.
pub open spec fn once_asks(config: Config, branch: BranchConfig, at: nat) -> spec_fn(
    Seq<Reply>,
) -> Option<RequestView> {
    |replies: Seq<Reply>| request_of(branch_once(config, branch, replies, at))
}

proof fn lemma_push_takes_its_course(
    config: Config,
    branch: BranchConfig,
    replies: Seq<Reply>,
    at: nat,
    request: RequestView,
) -> (c: Course)
    requires
        branch_once(config, branch, replies, at) == Run::Ask::<BranchView>(request),
        pushes(request),
    ensures
        takes_course(config, branch, replies, at, c),
        branch.push != PushStrategy::Skip,
        match pushed(config.repo, branch, c.start.remote_before, replies, c.publish) {
            Run::Ask(asked) => asked == request,
            Run::On(StageView::Go(_), _) => request is Protection,
            _ => false,
        },
{
    assert(started(config, branch, replies, at) matches Run::Ask(asked) ==> !pushes(asked)) by {
        reveal(started);
    }
    let start = started(config, branch, replies, at)->On_0;
    let synced = started(config, branch, replies, at)->On_1;
    lemma_start_asks(config, branch, replies, at);
    let output = asked::<CommandOutput>(replies, synced, sync_request(config.repo, branch))->On_0;
    lemma_settled_pushes_nothing(config, branch, start, output, replies, synced + 1);
    let settling = settled(config, branch, start, output, replies, synced + 1);
    let details = settling->On_0->Go_0;
    let gate = settling->On_1;
    let screening = screened(branch, start.before_head, details, replies, gate);
    assert(screening matches Run::Ask(asked) ==> !pushes(asked)) by {
        reveal(screened);
    }
    let batch = screening->On_0->Go_0;
    let tests = screening->On_1;
    let testing = tested(config, branch, batch, details, replies, tests);
    assert(testing matches Run::Ask(asked) ==> !pushes(asked)) by {
        reveal(tested);
        lemma_tests(config, branch, details, 0, replies, tests);
        assert(printed_by(branch, replies, tests as int, 0) =~= Seq::<char>::empty());
    }
    let has_remote = start.remote_before is Some;
    let surveying = surveyed(config.repo, branch, has_remote, replies, testing->On_1);
    assert(surveying matches Run::Ask(asked) ==> !pushes(asked)) by {
        reveal(surveyed);
    }
    let publish = surveying->On_1;
    assert(branch.push != PushStrategy::Skip) by {
        reveal(pushed);
        reveal(tagged);
    }
    let publishing = pushed(config.repo, branch, start.remote_before, replies, publish);
    assert(publishing matches Run::On(StageView::Go(_), end) ==> (tagged(
        config.repo,
        branch,
        surveying->On_0.after_head,
        replies,
        end,
    ) matches Run::Ask(asked) ==> asked is Protection)) by {
        reveal(tagged);
    }
    Course {
        start,
        synced,
        output,
        details,
        gate,
        batch,
        tests,
        survey: surveying->On_0,
        surveyed: testing->On_1,
        publish,
    }
}

/// A push, of a branch or of the tag of a release, is asked for only where it is earned. The branch
/// is then pushed with the lease of the commit at which its remote branch was at the start, where
/// the push is forced and there is such a commit.
pub proof fn lemma_push_is_earned(
    config: Config,
    branch: BranchConfig,
    replies: Seq<Reply>,
    at: nat,
    request: RequestView,
) -> (p: Passage)
    requires
        branch_once(config, branch, replies, at) == Run::Ask::<BranchView>(request),
        pushes(request),
    ensures
        at <= p.before,
        earned(once_asks(config, branch, at), config, branch, replies, p),
        request is Git ==> (replies[p.before] matches Reply::Maybe(head) && request == push_request(
            config.repo,
            branch,
            text_option(head),
        )),
{
    let asks = once_asks(config, branch, at);
    let c = lemma_push_takes_its_course(config, branch, replies, at, request);
    let count = branch.tests@.len();
    lemma_start_asks(config, branch, replies, at);
    lemma_once_asks(config, branch, replies, at, c, at as int);
    lemma_once_asks(config, branch, replies, at, c, (at + 1) as int);
    lemma_once_asks(config, branch, replies, at, c, (at + 3) as int);
    lemma_once_asks(config, branch, replies, at, c, c.synced as int);
    lemma_screening_asks(branch, c.start.before_head, c.details, replies, c.gate);
    lemma_once_asks(config, branch, replies, at, c, c.gate as int);
    lemma_once_asks(config, branch, replies, at, c, (c.gate + 1) as int);
    lemma_once_asks(config, branch, replies, at, c, (c.gate + 2) as int);
    lemma_testing_asks(config, branch, c.batch, c.details, replies, c.tests);
    lemma_once_asks(config, branch, replies, at, c, (c.tests + count) as int);
    lemma_publishing_asks(config.repo, branch, c.start.remote_before, replies, c.publish);
    lemma_once_asks(config, branch, replies, at, c, (c.publish + 1) as int);
    if !c.output.succeeded() {
        lemma_settling_is_reported(config, branch, c.start, c.output, replies, c.synced + 1);
    }
    let p = Passage {
        before: (at + 1) as int,
        synced: c.synced as int,
        gate: c.gate as int,
        tests: c.tests as int,
        remote: (c.publish + 1) as int,
        batch: c.batch,
    };
    assert forall|i: int| 0 <= i < count implies #[trigger] answers(
        asks,
        replies,
        p.tests + i,
        test_request(config, branch, i),
    ) && is_success(replies[p.tests + i]) by {
        lemma_once_asks(config, branch, replies, at, c, c.tests + i);
        let ask = |k: int| tested(config, branch, c.batch, c.details, replies.take(k), c.tests);
        assert(ask(c.tests + i) == Run::Ask::<StageView<()>>(test_request(config, branch, i)));
        assert(is_success(replies[c.tests + i]));
    }
    p
}

/// Syncing a branch once writes a file only where a decision of low risk was asked for and given.
proof fn lemma_once_writes_at_low_risk(
    config: Config,
    branch: BranchConfig,
    replies: Seq<Reply>,
    at: nat,
)
    requires
        at <= replies.len(),
    ensures
        branch_once(config, branch, replies, at) matches Run::Ask(request) ==> (writes(request)
            ==> is_low_risk(once_asks(config, branch, at), at, replies)),
{
    let starting = started(config, branch, replies, at);
    assert(starting matches Run::Ask(request) ==> !writes(request)) by {
        reveal(started);
    }
    if let Run::On(start, synced) = starting {
        lemma_start_asks(config, branch, replies, at);
        let synced_reply = asked::<CommandOutput>(
            replies,
            synced,
            sync_request(config.repo, branch),
        );
        if let Run::On(output, next) = synced_reply {
            let part = settle_asks(config, branch, start, output, next);
            let whole = once_asks(config, branch, at);
            lemma_settled_pushes_nothing(config, branch, start, output, replies, next);
            assert forall|k: int|
                next <= k <= replies.len() && part(#[trigger] replies.take(k)) is Some implies whole(
                replies.take(k),
            ) == part(replies.take(k)) by {
                lemma_beginning(replies, k);
                lemma_started_is_steady(config, branch, replies.take(k), replies.skip(k), at);
                assert(replies.take(k)[synced as int] == replies[synced as int]);
            }
            if is_low_risk(part, next, replies) {
                lemma_low_risk_is_handed_on(part, whole, next, at, replies);
            }
            let settling = settled(config, branch, start, output, replies, next);
            if let Run::On(StageView::Go(details), gate) = settling {
                lemma_late_stages_write_nothing(config, branch, start, details, replies, gate);
            }
        }
    }
}

proof fn lemma_late_stages_write_nothing(
    config: Config,
    branch: BranchConfig,
    start: StartView,
    details: Seq<Seq<char>>,
    replies: Seq<Reply>,
    gate: nat,
)
    ensures
        ({
            let screening = screened(branch, start.before_head, details, replies, gate);
            let testing = tested(
                config,
                branch,
                screening->On_0->Go_0,
                details,
                replies,
                screening->On_1,
            );
            let surveying = surveyed(
                config.repo,
                branch,
                start.remote_before is Some,
                replies,
                testing->On_1,
            );
            let publishing = pushed(
                config.repo,
                branch,
                start.remote_before,
                replies,
                surveying->On_1,
            );
            let tagging = tagged(
                config.repo,
                branch,
                surveying->On_0.after_head,
                replies,
                publishing->On_1,
            );
            &&& screening matches Run::Ask(request) ==> !writes(request)
            &&& testing matches Run::Ask(request) ==> !writes(request)
            &&& surveying matches Run::Ask(request) ==> !writes(request)
            &&& publishing matches Run::Ask(request) ==> !writes(request)
            &&& tagging matches Run::Ask(request) ==> !writes(request)
        }),
{
    reveal(screened);
    reveal(tested);
    reveal(surveyed);
    reveal(pushed);
    reveal(tagged);
    let tests = screened(branch, start.before_head, details, replies, gate)->On_1;
    lemma_tests(config, branch, details, 0, replies, tests);
    assert(printed_by(branch, replies, tests as int, 0) =~= Seq::<char>::empty());
}

/// A branch that is not to be pushed is never pushed.
pub proof fn lemma_skipped_is_never_pushed(
    config: Config,
    branch: BranchConfig,
    retries: nat,
    replies: Seq<Reply>,
    at: nat,
)
    requires
        branch.push == PushStrategy::Skip,
    ensures
        branch_with_retries(config, branch, retries, replies, at) matches Run::Ask(request)
            ==> !pushes(request),
    decreases retries,
{
    if let Run::Ask(request) = branch_once(config, branch, replies, at) {
        if pushes(request) {
            let p = lemma_push_is_earned(config, branch, replies, at, request);
        }
    }
    if let Run::On(BranchView::RemoteChanged { .. }, a) = branch_once(
        config,
        branch,
        replies,
        at,
    ) {
        if retries > 0 {
            if let Run::On(_, b) = aborted(replies, a) {
                lemma_skipped_is_never_pushed(config, branch, (retries - 1) as nat, replies, b);
            }
        }
    }
}

/// What syncing a branch asks for.
pub open spec fn retry_asks(config: Config, branch: BranchConfig, retries: nat, at: nat) -> spec_fn(
    Seq<Reply>,
) -> Option<RequestView> {
    |replies: Seq<Reply>| request_of(branch_with_retries(config, branch, retries, replies, at))
}

proof fn lemma_abort_is_known(replies: Seq<Reply>, k: int, at: nat)
    requires
        0 <= k <= replies.len(),
        aborted(replies, at) matches Run::On(_, end) && end <= k,
    ensures
        aborted(replies.take(k), at) == aborted(replies, at),
        at <= aborted(replies, at)->On_1,
{
    broadcast use lemma_asked_is_steady;

    lemma_beginning(replies, k);
    if at < k {
        assert(replies.take(k)[at as int] == replies[at as int]);
    }
}

#[verifier::rlimit(30)]
proof fn lemma_retried_push_is_earned(
    config: Config,
    branch: BranchConfig,
    retries: nat,
    replies: Seq<Reply>,
    at: nat,
    request: RequestView,
) -> (p: Passage)
    requires
        branch_with_retries(config, branch, retries, replies, at) == Run::Ask::<ReportView>(
            request,
        ),
        pushes(request),
        at <= replies.len(),
    ensures
        at <= p.before,
        earned(retry_asks(config, branch, retries, at), config, branch, replies, p),
    decreases retries,
{
    let whole = retry_asks(config, branch, retries, at);
    if branch_once(config, branch, replies, at) is Ask {
        let p = lemma_push_is_earned(config, branch, replies, at, request);
        let part = once_asks(config, branch, at);
        assert(hands_on(part, whole, at, replies));
        lemma_earned_is_handed_on(part, whole, at, config, branch, replies, p);
        p
    } else {
        let a = branch_once(config, branch, replies, at)->On_1;
        let b = aborted(replies, a)->On_1;
        lemma_nothing_more(replies);
        lemma_branch_once_is_steady(config, branch, replies, Seq::empty(), at);
        lemma_abort_is_known(replies, replies.len() as int, a);
        let p = lemma_retried_push_is_earned(
            config,
            branch,
            (retries - 1) as nat,
            replies,
            b,
            request,
        );
        let part = retry_asks(config, branch, (retries - 1) as nat, b);
        assert forall|k: int|
            b <= k <= replies.len() && part(#[trigger] replies.take(k)) is Some implies whole(
            replies.take(k),
        ) == part(replies.take(k)) by {
            lemma_beginning(replies, k);
            lemma_branch_once_is_steady(
                config,
                branch,
                replies.take(k),
                replies.skip(k),
                at,
            );
            lemma_abort_is_known(replies, k, a);
        }
        lemma_earned_is_handed_on(part, whole, b, config, branch, replies, p);
        p
    }
}

/// Syncing a branch writes a file only where a decision of low risk was asked for and given.
#[verifier::rlimit(30)]
proof fn lemma_retried_writes_at_low_risk(
    config: Config,
    branch: BranchConfig,
    retries: nat,
    replies: Seq<Reply>,
    at: nat,
)
    requires
        at <= replies.len(),
    ensures
        branch_with_retries(config, branch, retries, replies, at) matches Run::Ask(request) ==> (
        writes(request) ==> is_low_risk(
            retry_asks(config, branch, retries, at),
            at,
            replies,
        )),
    decreases retries,
{
    let whole = retry_asks(config, branch, retries, at);
    match branch_once(config, branch, replies, at) {
        Run::Ask(_) => {
            lemma_once_writes_at_low_risk(config, branch, replies, at);
            let part = once_asks(config, branch, at);
            assert(hands_on(part, whole, at, replies));
            if is_low_risk(part, at, replies) {
                lemma_low_risk_is_handed_on(part, whole, at, at, replies);
            }
        },
        Run::On(BranchView::RemoteChanged { .. }, a) => {
            if retries > 0 {
                if let Run::On(_, b) = aborted(replies, a) {
                    lemma_nothing_more(replies);
                    lemma_branch_once_is_steady(config, branch, replies, Seq::empty(), at);
                    lemma_abort_is_known(replies, replies.len() as int, a);
                    lemma_retried_writes_at_low_risk(
                        config,
                        branch,
                        (retries - 1) as nat,
                        replies,
                        b,
                    );
                    let part = retry_asks(config, branch, (retries - 1) as nat, b);
                    assert forall|k: int|
                        b <= k <= replies.len() && part(#[trigger] replies.take(k)) is Some implies whole(
                        replies.take(k),
                    ) == part(replies.take(k)) by {
                        lemma_beginning(replies, k);
                        lemma_branch_once_is_steady(
                            config,
                            branch,
                            replies.take(k),
                            replies.skip(k),
                            at,
                        );
                        lemma_abort_is_known(replies, k, a);
                    }
                    if is_low_risk(part, b, replies) {
                        lemma_low_risk_is_handed_on(part, whole, b, at, replies);
                    }
                }
            }
        },
        _ => {},
    }
}

/// Whether the push of a branch is earned by what is asked for and the replies to it.
pub open spec fn is_earned(
    asks: spec_fn(Seq<Reply>) -> Option<RequestView>,
    config: Config,
    branch: BranchConfig,
    replies: Seq<Reply>,
) -> bool {
    exists|p: Passage| earned(asks, config, branch, replies, p)
}

/// Whether a selected branch is one whose push is earned.
pub open spec fn some_branch_earned(
    asks: spec_fn(Seq<Reply>) -> Option<RequestView>,
    config: Config,
    options: SyncOptions,
    replies: Seq<Reply>,
) -> bool {
    exists|i: int|
        0 <= i < config.branches@.len() && is_selected(options, #[trigger] config.branches@[i])
            && is_earned(asks, config, config.branches@[i], replies)
}

/// What working on the branches from one on asks for.
pub open spec fn branches_ask(
    config: Config,
    options: SyncOptions,
    task: Task,
    next: nat,
    entries: Seq<ReportView>,
    at: nat,
) -> spec_fn(Seq<Reply>) -> Option<RequestView> {
    |replies: Seq<Reply>|
        request_of(branches_done(config, options, task, next, entries, replies, at))
}

proof fn lemma_branches_push(
    config: Config,
    options: SyncOptions,
    task: Task,
    next: nat,
    entries: Seq<ReportView>,
    replies: Seq<Reply>,
    at: nat,
    request: RequestView,
) -> (found: (int, Passage))
    requires
        branches_done(config, options, task, next, entries, replies, at) == Run::Ask::<
            Seq<ReportView>,
        >(request),
        pushes(request),
        at <= replies.len(),
    ensures
        task == Task::Sync,
        0 <= found.0 < config.branches@.len(),
        is_selected(options, config.branches@[found.0]),
        at <= found.1.before,
        earned(
            branches_ask(config, options, task, next, entries, at),
            config,
            config.branches@[found.0],
            replies,
            found.1,
        ),
    decreases config.branches@.len() - next,
{
    let whole = branches_ask(config, options, task, next, entries, at);
    let branch = config.branches@[next as int];
    if !is_selected(options, branch) {
        let found = lemma_branches_push(
            config,
            options,
            task,
            next + 1,
            entries,
            replies,
            at,
            request,
        );
        let part = branches_ask(config, options, task, next + 1, entries, at);
        assert forall|k: int|
            at <= k <= replies.len() && part(#[trigger] replies.take(k)) is Some implies whole(
            replies.take(k),
        ) == part(replies.take(k)) by {}
        lemma_earned_is_handed_on(
            part,
            whole,
            at,
            config,
            config.branches@[found.0],
            replies,
            found.1,
        );
        found
    } else if branch_done(config, task, branch, replies, at) is Ask {
        reveal(branch_done);
        let retries = MAX_REMOTE_CHANGED_RETRIES as nat;
        let p = lemma_retried_push_is_earned(config, branch, retries, replies, at, request);
        let part = retry_asks(config, branch, retries, at);
        assert(hands_on(part, whole, at, replies));
        lemma_earned_is_handed_on(part, whole, at, config, branch, replies, p);
        (next as int, p)
    } else {
        let entry = branch_done(config, task, branch, replies, at)->On_0;
        let end = branch_done(config, task, branch, replies, at)->On_1;
        lemma_nothing_more(replies);
        lemma_branch_done_is_steady(config, task, branch, replies, Seq::empty(), at);
        let found = lemma_branches_push(
            config,
            options,
            task,
            next + 1,
            entries.push(entry),
            replies,
            end,
            request,
        );
        let part = branches_ask(config, options, task, next + 1, entries.push(entry), end);
        assert forall|k: int|
            end <= k <= replies.len() && part(#[trigger] replies.take(k)) is Some implies whole(
            replies.take(k),
        ) == part(replies.take(k)) by {
            lemma_beginning(replies, k);
            lemma_branch_done_is_steady(
                config,
                task,
                branch,
                replies.take(k),
                replies.skip(k),
                at,
            );
        }
        lemma_earned_is_handed_on(
            part,
            whole,
            end,
            config,
            config.branches@[found.0],
            replies,
            found.1,
        );
        found
    }
}

proof fn lemma_branches_write_at_low_risk(
    config: Config,
    options: SyncOptions,
    task: Task,
    next: nat,
    entries: Seq<ReportView>,
    replies: Seq<Reply>,
    at: nat,
)
    requires
        at <= replies.len(),
    ensures
        branches_done(config, options, task, next, entries, replies, at) matches Run::Ask(request)
            ==> (writes(request) ==> is_low_risk(
            branches_ask(config, options, task, next, entries, at),
            at,
            replies,
        )),
    decreases config.branches@.len() - next,
{
    if next < config.branches@.len() {
        let whole = branches_ask(config, options, task, next, entries, at);
        let branch = config.branches@[next as int];
        if !is_selected(options, branch) {
            lemma_branches_write_at_low_risk(
                config,
                options,
                task,
                next + 1,
                entries,
                replies,
                at,
            );
            let part = branches_ask(config, options, task, next + 1, entries, at);
            assert forall|k: int|
                at <= k <= replies.len() && part(#[trigger] replies.take(k)) is Some implies whole(
                replies.take(k),
            ) == part(replies.take(k)) by {}
            if is_low_risk(part, at, replies) {
                lemma_low_risk_is_handed_on(part, whole, at, at, replies);
            }
        } else if let Run::On(entry, end) = branch_done(config, task, branch, replies, at) {
            lemma_nothing_more(replies);
            lemma_branch_done_is_steady(config, task, branch, replies, Seq::empty(), at);
            lemma_branches_write_at_low_risk(
                config,
                options,
                task,
                next + 1,
                entries.push(entry),
                replies,
                end,
            );
            let part = branches_ask(config, options, task, next + 1, entries.push(entry), end);
            assert forall|k: int|
                end <= k <= replies.len() && part(#[trigger] replies.take(k)) is Some implies whole(
                replies.take(k),
            ) == part(replies.take(k)) by {
                lemma_beginning(replies, k);
                lemma_branch_done_is_steady(
                    config,
                    task,
                    branch,
                    replies.take(k),
                    replies.skip(k),
                    at,
                );
            }
            if is_low_risk(part, end, replies) {
                lemma_low_risk_is_handed_on(part, whole, end, at, replies);
            }
        } else {
            reveal(branch_done);
            let retries = MAX_REMOTE_CHANGED_RETRIES as nat;
            if task == Task::Sync {
                lemma_retried_writes_at_low_risk(config, branch, retries, replies, at);
                let part = retry_asks(config, branch, retries, at);
                assert(hands_on(part, whole, at, replies));
                if is_low_risk(part, at, replies) {
                    lemma_low_risk_is_handed_on(part, whole, at, at, replies);
                }
            }
        }
    }
}

proof fn lemma_noticed_pushes_nothing(
    entries: Seq<ReportView>,
    next: nat,
    replies: Seq<Reply>,
    at: nat,
)
    ensures
        match noticed_from(entries, next, replies, at) {
            Run::Ask(request) => request is Notify,
            Run::Fail(_, _) => false,
            Run::On(_, _) => true,
        },
    decreases entries.len() - next,
{
    if next < entries.len() {
        if let Run::On(_, after) = noticed(entries[next as int], replies, at) {
            lemma_noticed_pushes_nothing(entries, next + 1, replies, after);
        }
    }
}

/// Whether the text of a report could not be made.
pub open spec fn rendering_fails(
    entries: Seq<ReportView>,
    replies: Seq<Reply>,
    at: nat,
) -> bool {
    asked::<String>(replies, at, RequestView::Notify(NotifyView::Render { entries })) is Fail
}

/// Telling how a run went never fails, unless the text of the report cannot be made: whether
/// messages could be sent, and whether the model summed the report up, changes nothing.
pub proof fn lemma_telling_never_fails(
    config: Config,
    notify_on_noop: bool,
    entries: Seq<ReportView>,
    replies: Seq<Reply>,
    at: nat,
)
    ensures
        match end_notified(config, notify_on_noop, entries, replies, at) {
            Run::Ask(request) => request is Notify || request is Model,
            Run::Fail(_, _) => rendering_fails(entries, replies, at),
            Run::On(_, _) => true,
        },
{
    lemma_noticed_pushes_nothing(entries, 0, replies, at);
    if let Run::On(text, after) = asked::<String>(
        replies,
        at,
        RequestView::Notify(NotifyView::Render { entries }),
    ) {
        lemma_summary_asks_the_model(config.llm, text@, replies, after);
    }
}

/// A run in which nothing happened tells nothing, where the settings ask for summaries and not for
/// those of idle runs.
pub proof fn lemma_idle_run_is_quiet(
    config: Config,
    entries: Seq<ReportView>,
    replies: Seq<Reply>,
    at: nat,
)
    requires
        config.notify.sync_summary,
        !any_active(entries),
    ensures
        end_notified(config, false, entries, replies, at) == Run::On((), at),
{
}

/// What a run asks for.
pub open spec fn run_asks(config: Config, options: SyncOptions) -> spec_fn(Seq<Reply>) -> Option<
    RequestView,
> {
    |replies: Seq<Reply>| request_of(sync_run(config, options, replies, 0))
}

/// A run pushes only for a selected branch whose push is earned by what the run asked for and the
/// replies to it, and a run that is to push nothing pushes nothing.
pub proof fn lemma_run_pushes_what_is_earned(
    config: Config,
    options: SyncOptions,
    replies: Seq<Reply>,
)
    ensures
        sync_run(config, options, replies, 0) matches Run::Ask(request) ==> (pushes(request)
            ==> !options.dry_run && some_branch_earned(
            run_asks(config, options),
            config,
            options,
            replies,
        )),
{
    if let Run::On(_, a) = ready(replies, 0) {
        let none = Seq::<ReportView>::empty();
        let task = if options.dry_run {
            Task::DryRun
        } else {
            Task::Sync
        };
        match branches_done(config, options, task, 0, none, replies, a) {
            Run::Ask(request) => {
                if pushes(request) {
                    let found = lemma_branches_push(
                        config,
                        options,
                        task,
                        0,
                        none,
                        replies,
                        a,
                        request,
                    );
                    let part = branches_ask(config, options, task, 0, none, a);
                    let whole = run_asks(config, options);
                    assert forall|k: int|
                        a <= k <= replies.len() && part(#[trigger] replies.take(k)) is Some implies whole(
                        replies.take(k),
                    ) == part(replies.take(k)) by {
                        assert(replies.take(k)[0] == replies[0]);
                        assert(replies.take(k)[1] == replies[1]);
                        assert(replies.take(k)[2] == replies[2]);
                    }
                    let branch = config.branches@[found.0];
                    lemma_earned_is_handed_on(part, whole, a, config, branch, replies, found.1);
                    assert(is_earned(whole, config, branch, replies));
                }
            },
            Run::On(entries, b) => {
                lemma_telling_never_fails(config, options.notify_on_noop, entries, replies, b);
            },
            _ => {},
        }
    }
}

/// A run writes a file only where it asked for a decision on a conflict and was given one of low
/// risk.
pub proof fn lemma_run_writes_at_low_risk(
    config: Config,
    options: SyncOptions,
    replies: Seq<Reply>,
)
    ensures
        sync_run(config, options, replies, 0) matches Run::Ask(request) ==> (writes(request)
            ==> is_low_risk(run_asks(config, options), 0, replies)),
{
    if let Run::On(_, a) = ready(replies, 0) {
        let none = Seq::<ReportView>::empty();
        let task = if options.dry_run {
            Task::DryRun
        } else {
            Task::Sync
        };
        lemma_branches_write_at_low_risk(config, options, task, 0, none, replies, a);
        match branches_done(config, options, task, 0, none, replies, a) {
            Run::Ask(_) => {
                let part = branches_ask(config, options, task, 0, none, a);
                let whole = run_asks(config, options);
                assert forall|k: int|
                    a <= k <= replies.len() && part(#[trigger] replies.take(k)) is Some implies whole(
                    replies.take(k),
                ) == part(replies.take(k)) by {
                    assert(replies.take(k)[0] == replies[0]);
                    assert(replies.take(k)[1] == replies[1]);
                    assert(replies.take(k)[2] == replies[2]);
                }
                if is_low_risk(part, a, replies) {
                    lemma_low_risk_is_handed_on(part, whole, a, 0, replies);
                }
            },
            Run::On(entries, b) => {
                lemma_telling_never_fails(config, options.notify_on_noop, entries, replies, b);
            },
            _ => {},
        }
    }
}

/// Whether a request makes the repository ready.
pub open spec fn makes_ready(request: RequestView) -> bool {
    ||| request == git(Tree::Main, GitView::EnsureRepo)
    ||| request == git(Tree::Main, GitView::EnsureRemotes)
    ||| request == git(Tree::Main, GitView::FetchAll)
}

/// Whether a request only looks at branches.
pub open spec fn only_looks(request: RequestView) -> bool {
    match request {
        RequestView::Git(Tree::Main, GitView::LocalBranchExists { .. }) => true,
        RequestView::Git(Tree::Main, GitView::ShortRef { .. }) => true,
        RequestView::Git(Tree::Main, GitView::RefExists { .. }) => true,
        RequestView::Git(Tree::Main, GitView::RemoteBranchExists { .. }) => true,
        RequestView::Git(Tree::Main, GitView::AheadBehind { .. }) => true,
        _ => false,
    }
}

proof fn lemma_branches_look(
    config: Config,
    options: SyncOptions,
    task: Task,
    next: nat,
    entries: Seq<ReportView>,
    replies: Seq<Reply>,
    at: nat,
)
    requires
        task != Task::Sync,
    ensures
        branches_done(config, options, task, next, entries, replies, at) matches Run::Ask(request)
            ==> task == Task::Status && only_looks(request),
    decreases config.branches@.len() - next,
{
    if next < config.branches@.len() {
        let branch = config.branches@[next as int];
        if is_selected(options, branch) {
            reveal(branch_done);
            if let Run::On(entry, after) = branch_done(config, task, branch, replies, at) {
                lemma_branches_look(
                    config,
                    options,
                    task,
                    next + 1,
                    entries.push(entry),
                    replies,
                    after,
                );
            }
        } else {
            lemma_branches_look(config, options, task, next + 1, entries, replies, at);
        }
    }
}

/// A dry run fetches, and does nothing else.
pub proof fn lemma_dry_run_only_fetches(
    config: Config,
    options: SyncOptions,
    replies: Seq<Reply>,
    at: nat,
)
    requires
        options.dry_run,
    ensures
        sync_run(config, options, replies, at) matches Run::Ask(request) ==> makes_ready(request),
{
    if let Run::On(_, a) = ready(replies, at) {
        lemma_branches_look(config, options, Task::DryRun, 0, Seq::empty(), replies, a);
    }
}

/// A run that only looks fetches and reads, and changes no branch.
pub proof fn lemma_status_only_looks(
    config: Config,
    options: SyncOptions,
    replies: Seq<Reply>,
    at: nat,
)
    ensures
        status_run(config, options, replies, at) matches Run::Ask(request) ==> makes_ready(request)
            || only_looks(request),
{
    if let Run::On(_, a) = ready(replies, at) {
        lemma_branches_look(config, options, Task::Status, 0, Seq::empty(), replies, a);
    }
}

/// A path beside an allowed one, whose name only starts with the same characters, does not lie in
/// it.
pub proof fn lemma_neighbour_is_outside(path: Seq<char>, allowed: Seq<char>, rest: Seq<char>)
    requires
        with_slashes(path) == without_trailing(with_slashes(allowed), '/') + rest,
        rest.len() > 0,
        rest[0] != '/',
    ensures
        !lies_in(path, allowed),
{
    let root = without_trailing(with_slashes(allowed), '/');
    reveal_strlit("/");
    if begins_with(with_slashes(path), root + "/"@) {
        assert((root + "/"@)[root.len() as int] == '/');
        assert(with_slashes(path)[root.len() as int] == rest[0]);
        assert(with_slashes(path).subrange(0, (root + "/"@).len() as int)[root.len() as int]
            == '/');
    }
}

/// What two lists of paths allow together is what one or the other allows.
pub proof fn lemma_allowed_paths_add_up(
    path: Seq<char>,
    left: Seq<Seq<char>>,
    right: Seq<Seq<char>>,
)
    ensures
        is_allowed(path, left + right) == (is_allowed(path, left) || is_allowed(path, right)),
{
    let both = left + right;
    if is_allowed(path, left) {
        let i = choose|i: int| 0 <= i < left.len() && #[trigger] lies_in(path, left[i]);
        assert(lies_in(path, both[i]));
    }
    if is_allowed(path, right) {
        let i = choose|i: int| 0 <= i < right.len() && #[trigger] lies_in(path, right[i]);
        assert(lies_in(path, both[left.len() + i]));
    }
    if is_allowed(path, both) {
        let i = choose|i: int| 0 <= i < both.len() && #[trigger] lies_in(path, both[i]);
        if i < left.len() {
            assert(lies_in(path, left[i]));
        } else {
            assert(lies_in(path, right[i - left.len()]));
        }
    }
}

} // verus!
