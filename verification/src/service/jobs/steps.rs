//! What a job asks for, request by request.

use vstd::prelude::*;

use crate::calls::conflict::ConflictView;
use crate::calls::git::GitView;
use crate::calls::job::{HeadsView, JobCallView};
use crate::calls::notify::NotifyView;
use crate::calls::{RequestView, Tree};
use crate::command::resolved_ref;
use crate::config::{BranchConfig, Config, SyncStrategy};
use crate::journal::{asked, Reply, Run};
use crate::llm::laws::{
    lemma_resolution_asks_the_model, lemma_summary_asks_the_model, lemma_ways_out_ask_the_model,
};
use crate::llm::{auto_resolution, blocks_request};
use crate::replay::jobs::{lemma_low_risk_round_is_steady, lemma_worktree_added_is_steady};
use crate::replay::{answers, lemma_beginning, lemma_nothing_more};
use crate::repo::{
    AutoResolvedSync, CapturedConflict, CommandOutput, ConflictBlocks, ConflictFileContent,
    ResolvedFile,
};
use crate::report::BranchStatus;
use crate::service::jobs::finish::{closed, finished, had_activity, job};
use crate::service::jobs::laws::job_asks;
use crate::service::jobs::low_risk::{
    capture_request, low_risk, low_risk_round, low_risk_rounds, may_resolve, resolved_files,
    RoundView,
};
use crate::service::jobs::report::{collected, completed, completed_run};
use crate::service::jobs::{
    conflict_handled, handed_over, heads_saved, stop_handled, work_sync_request, worktree_added,
    worktree_of,
};
use crate::service::types::JobView;
use crate::sync::auto_resolve::{branch_facts, patch_or_unknown, rounds_of, written_from};
use crate::sync::conflict::base_ref;
use crate::sync::steps::{upstream_name, was_given};
use crate::text::{text_option, texts, trimmed};

verus! {

/// Whether a text is what a command printed, without white space around it, as a reply says.
pub open spec fn was_printed(replies: Seq<Reply>, text: Seq<char>) -> bool {
    exists|k: int|
        0 <= k < replies.len() && ((#[trigger] replies[k]) matches Reply::Output(output)
            && trimmed(output.stdout@) == text)
}

/// Whether a job is one that was loaded.
pub open spec fn was_loaded(replies: Seq<Reply>, kept: JobView) -> bool {
    exists|k: int| 0 <= k < replies.len() && #[trigger] replies[k] == Reply::Job(kept)
}

/// Whether conflicts with their files stand among the replies.
pub open spec fn was_captured(replies: Seq<Reply>, captured: CapturedConflict) -> bool {
    exists|k: int|
        0 <= k < replies.len() && match #[trigger] replies[k] {
            Reply::Captured(found) => found == captured,
            Reply::Continued(AutoResolvedSync::Conflict(found)) => found == captured,
            _ => false,
        }
}

/// Whether files are those of conflicts that stand among the replies.
pub open spec fn were_captured(replies: Seq<Reply>, files: Vec<ConflictFileContent>) -> bool {
    exists|captured: CapturedConflict|
        #[trigger] was_captured(replies, captured) && captured.files == files
}

/// Whether a range is one that the report of a job is made from: what the upstream got since a commit
/// that was given, what was pushed since the remote branch of the job, or the last commit.
pub open spec fn is_job_range(replies: Seq<Reply>, range: Seq<char>) -> bool {
    exists|kept: JobView|
        #[trigger] was_loaded(replies, kept) && ({
            ||| kept.remote_head@.len() > 0 && range == kept.remote_head@ + "..HEAD"@
            ||| kept.remote_head@.len() == 0 && exists|head: Seq<char>|
                was_printed(replies, head) && range == #[trigger] (head + "^.."@ + head)
            ||| exists|start: Seq<char>|
                was_given(replies, start) && range == #[trigger] (start + ".."@
                    + kept.base_ref@)
        })
}

/// Whether a call of git is one that a job makes in its worktree.
pub open spec fn is_work_step(
    config: Config,
    branch: BranchConfig,
    replies: Seq<Reply>,
    call: GitView,
) -> bool {
    match call {
        GitView::Rebase { base } => branch.sync == SyncStrategy::Rebase && base == upstream_name(
            config.repo,
        ),
        GitView::Merge { base } => branch.sync == SyncStrategy::Merge && base == upstream_name(
            config.repo,
        ),
        GitView::Continue { strategy } => strategy == branch.sync && branch.auto_resolve.enabled,
        GitView::Abort => true,
        GitView::PatchContext { limit } => limit == 24 * 1024,
        GitView::WriteFile { .. } => branch.auto_resolve.enabled,
        GitView::AddFile { .. } => branch.auto_resolve.enabled,
        GitView::MergeBase { left, right } => exists|kept: JobView|
            #[trigger] was_loaded(replies, kept) && left == kept.before_head@ && right
                == kept.base_ref@,
        GitView::Log { range, limit } => limit == 30 && is_job_range(replies, range),
        GitView::ChangedFiles { range, limit } => limit == 50 && is_job_range(replies, range),
        GitView::Run { args } => {
            ||| args == seq!["rev-parse"@, "HEAD"@]
            ||| args == seq!["rev-parse"@, upstream_name(config.repo)]
            ||| args.len() == 3 && args[0] == "rev-list"@ && args[1] == "--count"@ && is_job_range(
                replies,
                args[2],
            )
            ||| args.len() == 3 && args[0] == "diff"@ && args[1] == "--name-only"@ && is_job_range(
                replies,
                args[2],
            )
        },
        _ => false,
    }
}

/// Whether a request is one that a job on a branch makes once the settings are read.
pub open spec fn is_job_step(
    config: Config,
    branch: BranchConfig,
    branch_name: Seq<char>,
    worktree: Seq<char>,
    replies: Seq<Reply>,
    request: RequestView,
) -> bool {
    let fork = config.repo.fork_remote@ + "/"@ + branch_name;
    match request {
        RequestView::Git(Tree::Work, call) => is_work_step(config, branch, replies, call),
        RequestView::Git(Tree::Main, call) => match call {
            GitView::EnsureRepo => true,
            GitView::EnsureRemotes => true,
            GitView::FetchAll => true,
            GitView::RemoteHead { remote, branch: name } => remote == config.repo.fork_remote@
                && name == branch_name,
            GitView::Run { args } => args.len() == 5 && args[0] == "worktree"@ && args[1] == "add"@
                && args[2] == "--detach"@ && args[3] == worktree && (args[4] == fork || args[4]
                == branch_name),
            _ => false,
        },
        RequestView::Model(_) => config.llm is Some,
        RequestView::Conflict(call) => match call {
            ConflictView::Capture { branch: found } => found == branch,
            ConflictView::ContinueStaged { branch: found, .. } => found == branch,
            ConflictView::Blocks { files } => were_captured(replies, files),
            ConflictView::Resolve { files, .. } => were_captured(replies, files)
                && branch.auto_resolve.enabled,
            ConflictView::Validate { resolved, paths } => (exists|k: int|
                0 <= k < replies.len() && #[trigger] replies[k] == Reply::Resolved(resolved))
                && exists|captured: CapturedConflict|
                #[trigger] was_captured(replies, captured) && paths == texts(
                    captured.snapshot.files@,
                ),
        },
        RequestView::Notify(NotifyView::Render { entries }) => entries.len() == 1
            && entries[0].branch == branch.name@ && entries[0].status == BranchStatus::Success,
        RequestView::Notify(NotifyView::NamedSummary { subject, .. }) => subject == branch.name@
            + " 同步完成"@ && config.notify.sync_summary,
        RequestView::Job(call) => match call {
            JobCallView::WorktreeExists { path } => path == worktree,
            JobCallView::OptionalRef { reference } => reference == fork,
            JobCallView::SaveHeads { heads } => {
                &&& heads.worktree_path == worktree
                &&& heads.base_ref == upstream_name(config.repo)
                &&& was_printed(replies, heads.before_head)
                &&& was_printed(replies, heads.base_head)
                &&& heads.remote_head.len() == 0 || was_given(
                    replies,
                    heads.remote_head,
                )
            },
            JobCallView::RunTests { branch: found, before_head } => found == branch && exists|
                kept: JobView,
            |
                #[trigger] was_loaded(replies, kept) && before_head == kept.before_head@,
            JobCallView::SaveTestOutput { output } => was_given(
                replies,
                output,
            ),
            JobCallView::PushJob { branch: found } => found == branch,
            JobCallView::SaveConflict { snapshot, files } => exists|captured: CapturedConflict|
                #[trigger] was_captured(replies, captured) && captured.snapshot == snapshot
                    && captured.files == files,
            JobCallView::SetState { state, .. } => state == "completed"@,
            JobCallView::SaveFailure { state, .. } => state == "failed"@,
            JobCallView::SaveGuidance { state, risk, .. } => state == "waiting_guidance"@ && risk
                == "functional"@,
            JobCallView::NotifyOnce { event, subject, .. } => event == "waiting_guidance"@
                && subject == branch.name@ + " 同步需要处理"@,
            JobCallView::Settings => false,
            JobCallView::Branch { .. } => false,
            JobCallView::Doctor => false,
            JobCallView::CleanupWorktree => false,
            _ => true,
        },
        _ => false,
    }
}

proof fn lemma_worktree_steps_ask(
    config: Config,
    branch: BranchConfig,
    branch_name: Seq<char>,
    worktree: Seq<char>,
    replies: Seq<Reply>,
    at: nat,
)
    ensures
        worktree_added(config, branch_name, worktree, replies, at) matches Run::Ask(request)
            ==> is_job_step(config, branch, branch_name, worktree, replies, request),
{
    reveal(worktree_added);
}

proof fn lemma_heads_steps(
    config: Config,
    branch: BranchConfig,
    branch_name: Seq<char>,
    worktree: Seq<char>,
    replies: Seq<Reply>,
    at: nat,
)
    ensures
        heads_saved(config, branch_name, worktree, replies, at) matches Run::Ask(request)
            ==> is_job_step(config, branch, branch_name, worktree, replies, request),
{
    reveal(heads_saved);
    if at + 2 < replies.len() {
        if let Reply::Output(output) = replies[at as int] {
            assert(was_printed(replies, trimmed(output.stdout@)));
        }
        if let Reply::Output(output) = replies[(at + 1) as int] {
            assert(was_printed(replies, trimmed(output.stdout@)));
        }
        if let Reply::Maybe(Some(head)) = replies[(at + 2) as int] {
            assert(was_given(replies, head@));
        }
    }
}

proof fn lemma_collected_steps(
    config: Config,
    branch: BranchConfig,
    branch_name: Seq<char>,
    worktree: Seq<char>,
    kept: JobView,
    after_head: Seq<char>,
    replies: Seq<Reply>,
    at: nat,
)
    requires
        was_loaded(replies, kept),
        was_printed(replies, after_head),
    ensures
        collected(kept, after_head, replies, at) matches Run::Ask(request) ==> is_job_step(
            config,
            branch,
            branch_name,
            worktree,
            replies,
            request,
        ),
{
    reveal(collected);
    let own = after_head + "^.."@ + after_head;
    if kept.remote_head@.len() == 0 {
        assert(is_job_range(replies, own));
    } else {
        assert(is_job_range(replies, kept.remote_head@ + "..HEAD"@));
    }
    if at < replies.len() {
        if let Reply::Maybe(Some(start)) = replies[at as int] {
            assert(was_given(replies, start@));
            assert(is_job_range(replies, start@ + ".."@ + kept.base_ref@));
        }
    }
}

proof fn lemma_finish_steps(
    config: Config,
    branch: BranchConfig,
    branch_name: Seq<char>,
    worktree: Seq<char>,
    notify_on_noop: bool,
    replies: Seq<Reply>,
    at: nat,
)
    ensures
        finished(config, branch, notify_on_noop, replies, at) matches Run::Ask(request)
            ==> is_job_step(config, branch, branch_name, worktree, replies, request),
{
    reveal(finished);
    if let Run::On(kept, a) = asked::<JobView>(replies, at, job(JobCallView::Load)) {
        assert(was_loaded(replies, kept)) by {
            assert(replies[at as int] == Reply::Job(kept));
        }
        if let Run::On(after_head, b) = resolved_ref(Tree::Work, "HEAD"@, replies, a) {
            assert(was_printed(replies, after_head)) by {
                assert(replies[a as int] is Output);
            }
            if b < replies.len() {
                if let Reply::Text(output) = replies[b as int] {
                    assert(was_given(replies, output@));
                }
            }
            if let Run::On(tag, c) = asked::<Option<String>>(
                replies,
                b + 2,
                job(JobCallView::PushJob { branch }),
            ) {
                lemma_closing_steps(
                    config,
                    branch,
                    branch_name,
                    worktree,
                    kept,
                    after_head,
                    text_option(tag),
                    notify_on_noop,
                    replies,
                    c,
                );
            }
        }
    }
}

proof fn lemma_closing_steps(
    config: Config,
    branch: BranchConfig,
    branch_name: Seq<char>,
    worktree: Seq<char>,
    kept: JobView,
    after_head: Seq<char>,
    tag: Option<Seq<char>>,
    notify_on_noop: bool,
    replies: Seq<Reply>,
    at: nat,
)
    requires
        was_loaded(replies, kept),
        was_printed(replies, after_head),
    ensures
        closed(config, branch, kept, after_head, tag, notify_on_noop, replies, at) matches Run::Ask(
            request,
        ) ==> is_job_step(config, branch, branch_name, worktree, replies, request),
{
    lemma_collected_steps(
        config,
        branch,
        branch_name,
        worktree,
        kept,
        after_head,
        replies,
        at,
    );
    let active = had_activity(kept, after_head, tag);
    if let Run::On(entries, a) = completed_run(
        config,
        branch,
        kept,
        after_head,
        tag,
        active,
        replies,
        at,
    ) {
        if let Run::On(text, after) = asked::<String>(
            replies,
            a + 3,
            RequestView::Notify(NotifyView::Render { entries }),
        ) {
            lemma_summary_asks_the_model(config.llm, text@, replies, after);
        }
    }
}

proof fn lemma_job_written_steps(
    config: Config,
    branch: BranchConfig,
    branch_name: Seq<char>,
    worktree: Seq<char>,
    files: Seq<ResolvedFile>,
    next: nat,
    replies: Seq<Reply>,
    at: nat,
)
    requires
        branch.auto_resolve.enabled,
    ensures
        written_from(Tree::Work, files, next, replies, at) matches Run::Ask(request) ==> is_job_step(
            config,
            branch,
            branch_name,
            worktree,
            replies,
            request,
        ),
    decreases files.len() - next,
{
    if next < files.len() {
        lemma_job_written_steps(
            config,
            branch,
            branch_name,
            worktree,
            files,
            next + 1,
            replies,
            at + 2,
        );
    }
}

proof fn lemma_job_round_steps(
    config: Config,
    branch: BranchConfig,
    branch_name: Seq<char>,
    worktree: Seq<char>,
    captured: CapturedConflict,
    replies: Seq<Reply>,
    at: nat,
)
    requires
        branch.auto_resolve.enabled,
        was_captured(replies, captured),
        at <= replies.len(),
    ensures
        match low_risk_round(config, branch, captured.snapshot, captured.files, replies, at) {
            Run::Ask(request) => is_job_step(
                config,
                branch,
                branch_name,
                worktree,
                replies,
                request,
            ),
            Run::On(RoundView::Going(next), _) => was_captured(replies, next),
            _ => true,
        },
{
    reveal(low_risk_round);
    let files = captured.files;
    if let Run::On(blocks, a) = asked::<ConflictBlocks>(replies, at, blocks_request(files)) {
        if let Run::On(patch, b) = patch_or_unknown(Tree::Work, replies, a) {
            let facts = branch_facts(branch, base_ref(config.repo), patch, captured.snapshot);
            lemma_resolution_asks_the_model(config.llm, facts, files, replies, b);
            if let Run::On(Some(decision), c) = auto_resolution(
                config.llm,
                facts,
                files,
                replies,
                b,
            ) {
                if c < replies.len() {
                    if let Reply::Resolved(resolved) = replies[c as int] {
                        assert(replies[c as int] == Reply::Resolved(resolved));
                    }
                }
                if let Run::On(Some(resolved), d) = resolved_files(
                    decision,
                    captured.snapshot,
                    files,
                    replies,
                    c,
                ) {
                    lemma_job_written_steps(
                        config,
                        branch,
                        branch_name,
                        worktree,
                        resolved@,
                        0,
                        replies,
                        d,
                    );
                    if let Run::On(_, e) = written_from(Tree::Work, resolved@, 0, replies, d) {
                        if e + 1 < replies.len() {
                            if let Reply::Captured(found) = replies[(e + 1) as int] {
                                assert(was_captured(replies, found));
                            }
                        }
                    }
                }
            }
        }
    }
}

proof fn lemma_job_rounds_steps(
    config: Config,
    branch: BranchConfig,
    branch_name: Seq<char>,
    worktree: Seq<char>,
    left: nat,
    captured: CapturedConflict,
    replies: Seq<Reply>,
    at: nat,
)
    requires
        branch.auto_resolve.enabled,
        was_captured(replies, captured),
        at <= replies.len(),
    ensures
        low_risk_rounds(
            config,
            branch,
            left,
            captured.snapshot,
            captured.files,
            replies,
            at,
        ) matches Run::Ask(request) ==> is_job_step(
            config,
            branch,
            branch_name,
            worktree,
            replies,
            request,
        ),
    decreases left,
{
    if left > 0 {
        lemma_job_round_steps(config, branch, branch_name, worktree, captured, replies, at);
        lemma_nothing_more(replies);
        lemma_low_risk_round_is_steady(
            config,
            branch,
            captured.snapshot,
            captured.files,
            replies,
            Seq::empty(),
            at,
        );
        if let Run::On(RoundView::Going(next), after) = low_risk_round(
            config,
            branch,
            captured.snapshot,
            captured.files,
            replies,
            at,
        ) {
            lemma_job_rounds_steps(
                config,
                branch,
                branch_name,
                worktree,
                (left - 1) as nat,
                next,
                replies,
                after,
            );
        }
    }
}

proof fn lemma_hand_over_steps(
    config: Config,
    branch: BranchConfig,
    branch_name: Seq<char>,
    worktree: Seq<char>,
    captured: CapturedConflict,
    replies: Seq<Reply>,
    at: nat,
)
    requires
        was_captured(replies, captured),
    ensures
        handed_over(config, branch, captured, replies, at) matches Run::Ask(request) ==> is_job_step(
            config,
            branch,
            branch_name,
            worktree,
            replies,
            request,
        ),
{
    reveal(handed_over);
    if let Run::On(patch, a) = patch_or_unknown(Tree::Work, replies, at + 1) {
        lemma_ways_out_ask_the_model(
            config.llm,
            branch_facts(branch, base_ref(config.repo), patch, captured.snapshot),
            captured.files,
            "尚无人工补充要求"@,
            replies,
            a,
        );
    }
}

proof fn lemma_conflict_steps(
    config: Config,
    branch: BranchConfig,
    branch_name: Seq<char>,
    worktree: Seq<char>,
    captured: CapturedConflict,
    notify_on_noop: bool,
    replies: Seq<Reply>,
    at: nat,
)
    requires
        was_captured(replies, captured),
        at <= replies.len(),
    ensures
        conflict_handled(config, branch, captured, notify_on_noop, replies, at) matches Run::Ask(
            request,
        ) ==> is_job_step(config, branch, branch_name, worktree, replies, request),
{
    reveal(conflict_handled);
    if may_resolve(branch, texts(captured.snapshot.files@)) {
        lemma_job_rounds_steps(
            config,
            branch,
            branch_name,
            worktree,
            rounds_of(branch.auto_resolve),
            captured,
            replies,
            at,
        );
    }
    match low_risk(config, branch, captured, replies, at) {
        Run::On(Some(true), a) => lemma_finish_steps(
            config,
            branch,
            branch_name,
            worktree,
            notify_on_noop,
            replies,
            a,
        ),
        Run::On(Some(false), a) => {
            if let Run::On(rest, b) = asked::<CapturedConflict>(
                replies,
                a,
                capture_request(branch),
            ) {
                assert(was_captured(replies, rest)) by {
                    assert(replies[a as int] == Reply::Captured(rest));
                }
                lemma_hand_over_steps(config, branch, branch_name, worktree, rest, replies, b);
            }
        },
        Run::On(None, a) => lemma_hand_over_steps(
            config,
            branch,
            branch_name,
            worktree,
            captured,
            replies,
            a,
        ),
        Run::Fail(_, a) => lemma_hand_over_steps(
            config,
            branch,
            branch_name,
            worktree,
            captured,
            replies,
            a,
        ),
        Run::Ask(_) => {},
    }
}

proof fn lemma_stop_steps(
    config: Config,
    branch: BranchConfig,
    branch_name: Seq<char>,
    worktree: Seq<char>,
    output: CommandOutput,
    notify_on_noop: bool,
    replies: Seq<Reply>,
    at: nat,
)
    ensures
        stop_handled(config, branch, output, notify_on_noop, replies, at) matches Run::Ask(request)
            ==> is_job_step(config, branch, branch_name, worktree, replies, request),
{
    reveal(stop_handled);
    if let Run::On(captured, a) = asked::<CapturedConflict>(
        replies,
        at,
        capture_request(branch),
    ) {
        assert(was_captured(replies, captured)) by {
            assert(replies[at as int] == Reply::Captured(captured));
        }
        lemma_conflict_steps(
            config,
            branch,
            branch_name,
            worktree,
            captured,
            notify_on_noop,
            replies,
            a,
        );
        if a < replies.len() {
            if let Reply::Continued(AutoResolvedSync::Conflict(next)) = replies[a as int] {
                assert(was_captured(replies, next));
                lemma_conflict_steps(
                    config,
                    branch,
                    branch_name,
                    worktree,
                    next,
                    notify_on_noop,
                    replies,
                    a + 1,
                );
            }
        }
        lemma_finish_steps(
            config,
            branch,
            branch_name,
            worktree,
            notify_on_noop,
            replies,
            a + 1,
        );
    }
}

/// Whatever a sync job asks for, once it has read its settings and its branch, and as long as nothing
/// went wrong, is about this branch and this worktree: the worktree is added at the branch, the
/// branch is rebased or merged there as its settings say, tested and pushed; what is kept is what was
/// found.
pub proof fn lemma_job_asks_about_its_branch(
    data_dir: Seq<char>,
    job_id: Seq<char>,
    branch_name: Seq<char>,
    notify_on_noop: bool,
    config: Config,
    branch: BranchConfig,
    replies: Seq<Reply>,
)
    requires
        2 < replies.len(),
        replies[0] is Done,
        replies[1] == Reply::Settings(config),
        replies[2] == Reply::Branch(branch),
    ensures
        crate::service::jobs::sync_job_run(
            data_dir,
            job_id,
            branch_name,
            notify_on_noop,
            replies,
            0,
        ) matches Run::Ask(request) ==> is_job_step(
            config,
            branch,
            branch_name,
            data_dir_of(data_dir, job_id),
            replies,
            request,
        ),
{
    let worktree = worktree_of(data_dir, job_id);
    lemma_worktree_steps_ask(config, branch, branch_name, worktree, replies, 3);
    if let Run::On(_, c) = worktree_added(config, branch_name, worktree, replies, 3) {
        lemma_heads_steps(config, branch, branch_name, worktree, replies, c);
        if let Run::On(_, d) = heads_saved(config, branch_name, worktree, replies, c) {
            if let Run::On(output, e) = asked::<CommandOutput>(
                replies,
                d,
                work_sync_request(config, branch),
            ) {
                lemma_finish_steps(
                    config,
                    branch,
                    branch_name,
                    worktree,
                    notify_on_noop,
                    replies,
                    e,
                );
                lemma_stop_steps(
                    config,
                    branch,
                    branch_name,
                    worktree,
                    output,
                    notify_on_noop,
                    replies,
                    e,
                );
            }
        }
    }
}

/// Where the worktree of a job is: under its id, beside those of the other jobs.
pub open spec fn data_dir_of(data_dir: Seq<char>, job_id: Seq<char>) -> Seq<char> {
    crate::path::below(crate::path::below(data_dir, "worktrees"@), job_id)
}

/// The request by which a job brings its branch in step in its worktree: a merge where the branch is
/// merged, and a rebase where it is rebased.
pub open spec fn sync_in_worktree(config: Config, branch: BranchConfig) -> RequestView {
    if branch.sync == SyncStrategy::Merge {
        RequestView::Git(Tree::Work, GitView::Merge { base: upstream_name(config.repo) })
    } else {
        RequestView::Git(Tree::Work, GitView::Rebase { base: upstream_name(config.repo) })
    }
}

/// Once the worktree is there, a job reads where its branch, the base and the remote branch are,
/// keeps just that, says so, and then merges or rebases as the settings of the branch say. What comes
/// next is the end of the job where that went well, and else a look at the conflicts.
pub proof fn lemma_job_syncs_as_its_branch_says(
    data_dir: Seq<char>,
    job_id: Seq<char>,
    branch_name: Seq<char>,
    notify_on_noop: bool,
    config: Config,
    branch: BranchConfig,
    replies: Seq<Reply>,
    added: nat,
)
    requires
        2 < replies.len(),
        replies[0] is Done,
        replies[1] == Reply::Settings(config),
        replies[2] == Reply::Branch(branch),
        worktree_added(config, branch_name, worktree_of(data_dir, job_id), replies, 3) matches Run::On(
            _,
            end,
        ) && end == added,
        added + 4 < replies.len(),
        replies[added as int] is Output,
        replies[(added + 1) as int] is Output,
        replies[(added + 2) as int] is Maybe,
        replies[(added + 3) as int] is Done,
        replies[(added + 4) as int] is Done,
    ensures
        ({
            let asks = job_asks(data_dir, job_id, branch_name, notify_on_noop);
            &&& answers(
                asks,
                replies,
                added as int,
                RequestView::Git(Tree::Work, GitView::Run { args: seq!["rev-parse"@, "HEAD"@] }),
            )
            &&& answers(
                asks,
                replies,
                (added + 1) as int,
                RequestView::Git(
                    Tree::Work,
                    GitView::Run { args: seq!["rev-parse"@, upstream_name(config.repo)] },
                ),
            )
            &&& answers(
                asks,
                replies,
                (added + 2) as int,
                RequestView::Git(
                    Tree::Main,
                    GitView::RemoteHead {
                        remote: config.repo.fork_remote@,
                        branch: branch_name,
                    },
                ),
            )
            &&& answers(
                asks,
                replies,
                (added + 3) as int,
                RequestView::Job(
                    JobCallView::SaveHeads {
                        heads: HeadsView {
                            worktree_path: data_dir_of(data_dir, job_id),
                            base_ref: upstream_name(config.repo),
                            before_head: trimmed(replies[added as int]->Output_0.stdout@),
                            base_head: trimmed(replies[(added + 1) as int]->Output_0.stdout@),
                            remote_head: match replies[(added + 2) as int]->Maybe_0 {
                                Some(head) => head@,
                                None => Seq::empty(),
                            },
                        },
                    },
                ),
            )
            &&& answers(
                asks,
                replies,
                (added + 4) as int,
                RequestView::Job(
                    JobCallView::Emit {
                        kind: "git"@,
                        message: "隔离 worktree 已创建，开始同步"@,
                    },
                ),
            )
            &&& asks(replies.take((added + 5) as int)) == Some(sync_in_worktree(config, branch))
            &&& added + 5 < replies.len() ==> (replies[(added + 5) as int] matches Reply::Output(
                output,
            ) ==> asks(replies.take((added + 6) as int)) == Some(
                if output.status == 0 {
                    RequestView::Job(JobCallView::Load)
                } else {
                    RequestView::Conflict(ConflictView::Capture { branch })
                },
            ))
        }),
{
    let worktree = worktree_of(data_dir, job_id);
    assert forall|k: int| added <= k <= replies.len() implies #[trigger] worktree_added(
        config,
        branch_name,
        worktree,
        replies.take(k),
        3,
    ) == worktree_added(config, branch_name, worktree, replies, 3) && replies.take(k)[0]
        == replies[0] && replies.take(k)[1] == replies[1] && replies.take(k)[2] == replies[2] by {
        lemma_beginning(replies, k);
        lemma_worktree_added_is_steady(
            config,
            branch_name,
            worktree,
            replies.take(k),
            replies.skip(k),
            3,
        );
    }
    lemma_nothing_more(replies);
    lemma_worktree_added_is_steady(config, branch_name, worktree, replies, Seq::empty(), 3);
    lemma_job_start(data_dir, job_id, branch_name, notify_on_noop, config, branch, replies, added, 0);
    lemma_job_start(data_dir, job_id, branch_name, notify_on_noop, config, branch, replies, added, 1);
    lemma_job_start(data_dir, job_id, branch_name, notify_on_noop, config, branch, replies, added, 2);
    lemma_job_start(data_dir, job_id, branch_name, notify_on_noop, config, branch, replies, added, 3);
    lemma_job_start(data_dir, job_id, branch_name, notify_on_noop, config, branch, replies, added, 4);
    lemma_job_start(data_dir, job_id, branch_name, notify_on_noop, config, branch, replies, added, 5);
    if added + 5 < replies.len() {
        lemma_job_start(
            data_dir,
            job_id,
            branch_name,
            notify_on_noop,
            config,
            branch,
            replies,
            added,
            6,
        );
    }
}

proof fn lemma_job_start(
    data_dir: Seq<char>,
    job_id: Seq<char>,
    branch_name: Seq<char>,
    notify_on_noop: bool,
    config: Config,
    branch: BranchConfig,
    replies: Seq<Reply>,
    added: nat,
    done: nat,
)
    requires
        2 < added,
        replies[0] is Done,
        replies[1] == Reply::Settings(config),
        replies[2] == Reply::Branch(branch),
        ({
            let known = replies.take((added + done) as int);
            &&& worktree_added(config, branch_name, worktree_of(data_dir, job_id), known, 3)
                matches Run::On(_, end) && end == added
            &&& known[0] == replies[0] && known[1] == replies[1] && known[2] == replies[2]
        }),
        added + done <= replies.len(),
        done <= 6,
        replies[added as int] is Output,
        replies[(added + 1) as int] is Output,
        replies[(added + 2) as int] is Maybe,
        replies[(added + 3) as int] is Done,
        replies[(added + 4) as int] is Done,
    ensures
        ({
            let asks = job_asks(data_dir, job_id, branch_name, notify_on_noop);
            let next = asks(replies.take((added + done) as int));
            &&& done == 0 ==> next == Some(
                RequestView::Git(Tree::Work, GitView::Run { args: seq!["rev-parse"@, "HEAD"@] }),
            )
            &&& done == 1 ==> next == Some(
                RequestView::Git(
                    Tree::Work,
                    GitView::Run { args: seq!["rev-parse"@, upstream_name(config.repo)] },
                ),
            )
            &&& done == 2 ==> next == Some(
                RequestView::Git(
                    Tree::Main,
                    GitView::RemoteHead {
                        remote: config.repo.fork_remote@,
                        branch: branch_name,
                    },
                ),
            )
            &&& done == 3 ==> next == Some(
                RequestView::Job(
                    JobCallView::SaveHeads {
                        heads: HeadsView {
                            worktree_path: data_dir_of(data_dir, job_id),
                            base_ref: upstream_name(config.repo),
                            before_head: trimmed(replies[added as int]->Output_0.stdout@),
                            base_head: trimmed(replies[(added + 1) as int]->Output_0.stdout@),
                            remote_head: match replies[(added + 2) as int]->Maybe_0 {
                                Some(head) => head@,
                                None => Seq::empty(),
                            },
                        },
                    },
                ),
            )
            &&& done == 4 ==> next == Some(
                RequestView::Job(
                    JobCallView::Emit {
                        kind: "git"@,
                        message: "隔离 worktree 已创建，开始同步"@,
                    },
                ),
            )
            &&& done == 5 ==> next == Some(sync_in_worktree(config, branch))
            &&& done == 6 ==> (replies[(added + 5) as int] matches Reply::Output(output) ==> next
                == Some(
                if output.status == 0 {
                    RequestView::Job(JobCallView::Load)
                } else {
                    RequestView::Conflict(ConflictView::Capture { branch })
                },
            ))
        }),
{
    reveal(heads_saved);
    reveal(finished);
    reveal(stop_handled);
    let known = replies.take((added + done) as int);
    if done > 0 {
        assert(known[added as int] == replies[added as int]);
    }
    if done > 1 {
        assert(known[(added + 1) as int] == replies[(added + 1) as int]);
    }
    if done > 2 {
        assert(known[(added + 2) as int] == replies[(added + 2) as int]);
    }
    if done > 3 {
        assert(known[(added + 3) as int] == replies[(added + 3) as int]);
    }
    if done > 4 {
        assert(known[(added + 4) as int] == replies[(added + 4) as int]);
    }
    if done > 5 {
        assert(known[(added + 5) as int] == replies[(added + 5) as int]);
    }
}

} // verus!
