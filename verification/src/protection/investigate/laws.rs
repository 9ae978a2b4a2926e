//! What holds of every investigation.

use vstd::prelude::*;

use crate::calls::git::GitView;
use crate::calls::protect::ProtectionView;
use crate::calls::signal::SignalCallView;
use crate::calls::{pushes, RequestView, Tree};
use crate::command::git;
use crate::config::{BranchConfig, Config};
use crate::fault::fault_text;
use crate::journal::{asked, Reply, Run};
use crate::llm::laws::{
    lemma_investigation_asks_the_model, lemma_selection_asks_the_model, posts_home,
};
use crate::llm::types::SignalFacts;
use crate::llm::selection;
use crate::protection::dependency::graph::CargoReachabilitySnapshot;
use crate::protection::investigate::candidate::{
    admitted, built, candidate_tests_from, candidate_tree_added, candidate_worktree,
    changes_written_from, contract_held, examined, failure_kept, lacking, prepared, test_branch,
    tests_lacking,
};
use crate::protection::investigate::files::{
    changes_checked_from, file_read, files_read_from, may_be_candidate, safe_file, signal,
};
use crate::protection::investigate::{
    advanced, alerted, attempted, concluded, dedupe_digest, drafted, investigation_run, judged,
    message_facts, project_seen, recorded, JudgementView, OutputView, ReportedView,
};
use crate::protection::investigate::policy::project_name;
use crate::protection::types::{ChangeView, FindingState, InvestigationView};
use crate::replay::investigate::{
    lemma_admitted_is_steady, lemma_built_is_steady, lemma_candidate_tests_from_is_steady,
};
use crate::replay::{answers, hands_on, lemma_beginning, request_of};
use crate::sync::laws::{is_success, printed_by};
use crate::text::{first_chars, texts, utf8_len};

verus! {

/// Whether a command of git works on what is there already, and reaches no other repository.
pub open spec fn is_local_command(args: Seq<Seq<char>>) -> bool {
    &&& args.len() > 0
    &&& {
        ||| args[0] == "ls-files"@
        ||| args[0] == "rev-parse"@
        ||| args[0] == "worktree"@
        ||| args[0] == "diff"@
        ||| args[0] == "status"@
        ||| args[0] == "add"@
        ||| args[0] == "-c"@ && args.contains("commit"@)
        ||| args[0] == "log"@
        ||| args[0] == "show"@
    }
}

/// Whether a request leaves the project as it is and follows no address: it pushes nothing, files
/// are written only in the worktree of a candidate, git does no more than look at a tree, write,
/// test and run local commands, and no archive is fetched.
pub open spec fn is_contained(request: RequestView) -> bool {
    &&& !pushes(request)
    &&& !(request is Archive)
    &&& request matches RequestView::Git(tree, call) ==> match call {
        GitView::EnsureRepo => true,
        GitView::WriteFile { .. } => tree == Tree::Work,
        GitView::Test { .. } => tree == Tree::Work,
        GitView::RangePatch { .. } => true,
        GitView::Run { args } => is_local_command(args),
        _ => false,
    }
}

/// Whether a request is contained and is no step of a conversation with the model.
pub open spec fn is_offline(request: RequestView) -> bool {
    is_contained(request) && !(request is Model)
}

proof fn lemma_files_read(
    offered: Seq<Seq<char>>,
    paths: Seq<Seq<char>>,
    next: nat,
    total: nat,
    files: Seq<(Seq<char>, Seq<char>)>,
    replies: Seq<Reply>,
    at: nat,
)
    requires
        forall|i: int|
            0 <= i < files.len() ==> offered.contains((#[trigger] files[i]).0) && may_be_candidate(
                files[i].0,
            ),
    ensures
        match files_read_from(offered, paths, next, total, files, replies, at) {
            Run::Ask(request) => is_offline(request),
            Run::On(found, _) => found.len() > 0 && (forall|i: int|
                0 <= i < found.len() ==> offered.contains((#[trigger] found[i]).0)
                    && may_be_candidate(found[i].0)),
            Run::Fail(_, _) => true,
        },
    decreases paths.len() - next,
{
    if next < paths.len() {
        if let Run::On(read, after) = file_read(offered, paths[next as int], total, replies, at) {
            lemma_files_read(
                offered,
                paths,
                next + 1,
                read.0,
                files.push((paths[next as int], read.1)),
                replies,
                after,
            );
        }
    }
}

/// The files that are read are files that were offered and may be candidates; at least one is read.
pub proof fn lemma_read_files_were_offered(
    offered: Seq<Seq<char>>,
    paths: Seq<Seq<char>>,
    replies: Seq<Reply>,
    at: nat,
)
    ensures
        match files_read_from(offered, paths, 0, 0, Seq::empty(), replies, at) {
            Run::Ask(request) => is_offline(request),
            Run::On(found, _) => found.len() > 0 && (forall|i: int|
                0 <= i < found.len() ==> offered.contains((#[trigger] found[i]).0)
                    && may_be_candidate(found[i].0)),
            Run::Fail(_, _) => true,
        },
{
    lemma_files_read(offered, paths, 0, 0, Seq::empty(), replies, at);
}

/// Whether a request, if it posts prompts, posts them to the address in the settings.
pub open spec fn posts_to_settings(config: Config, request: RequestView) -> bool {
    request is Model ==> (config.llm matches Some(on) && posts_home(on, request))
}

proof fn lemma_judging_is_contained(
    config: Config,
    facts: SignalFacts,
    offered: Seq<Seq<char>>,
    replies: Seq<Reply>,
    at: nat,
)
    ensures
        judged(config, facts, offered, replies, at) matches Run::Ask(request) ==> is_contained(
            request,
        ) && posts_to_settings(config, request),
{
    reveal(judged);
    lemma_selection_asks_the_model(config.llm, facts, offered, replies, at);
    if let Run::On(Some(chosen), a) = selection(config.llm, facts, offered, replies, at) {
        lemma_read_files_were_offered(offered, texts(chosen.paths@), replies, a);
        if let Run::On(files, b) = files_read_from(
            offered,
            texts(chosen.paths@),
            0,
            0,
            Seq::empty(),
            replies,
            a,
        ) {
            lemma_investigation_asks_the_model(config.llm, facts, files, replies, b);
        }
    }
}

proof fn lemma_checking_changes_is_contained(
    offered: Seq<Seq<char>>,
    changes: Seq<ChangeView>,
    next: nat,
    total: nat,
    replies: Seq<Reply>,
    at: nat,
)
    ensures
        changes_checked_from(offered, changes, next, total, replies, at) matches Run::Ask(request)
            ==> is_offline(request),
    decreases changes.len() - next,
{
    if next < changes.len() {
        let change = changes[next as int];
        if let Run::On(_, after) = safe_file(change.path, replies, at) {
            lemma_checking_changes_is_contained(
                offered,
                changes,
                next + 1,
                total + utf8_len(change.content),
                replies,
                after,
            );
        }
    }
}

proof fn lemma_writing_changes_is_contained(
    changes: Seq<ChangeView>,
    next: nat,
    replies: Seq<Reply>,
    at: nat,
)
    ensures
        changes_written_from(changes, next, replies, at) matches Run::Ask(request) ==> is_offline(
            request,
        ),
    decreases changes.len() - next,
{
    if next < changes.len() {
        lemma_writing_changes_is_contained(changes, next + 1, replies, at + 1);
    }
}

proof fn lemma_candidate_tests(branch: BranchConfig, next: nat, replies: Seq<Reply>, first: nat)
    requires
        next <= branch.tests@.len(),
    ensures
        ({
            let tests = texts(branch.tests@);
            let so_far = printed_by(branch, replies, first as int, next);
            match candidate_tests_from(tests, next, so_far, replies, first + next) {
                Run::Ask(request) => is_offline(request),
                Run::On(printed, end) => {
                    &&& end == first + tests.len()
                    &&& next < tests.len() ==> end <= replies.len()
                    &&& forall|i: int|
                        next <= i < tests.len() ==> is_success(#[trigger] replies[first + i])
                    &&& printed == printed_by(branch, replies, first as int, tests.len())
                },
                Run::Fail(_, _) => true,
            }
        }),
    decreases branch.tests@.len() - next,
{
    let tests = texts(branch.tests@);
    if next < tests.len() {
        lemma_candidate_tests(branch, next + 1, replies, first);
        assert((next + 1 - 1) as nat == next);
        assert(tests[next as int] == branch.tests@[next as int]@);
        let so_far = printed_by(branch, replies, first as int, next);
        if let Run::On(_, _) = candidate_tests_from(tests, next, so_far, replies, first + next) {
            assert forall|i: int| next <= i < tests.len() implies is_success(
                #[trigger] replies[first + i],
            ) by {}
        }
    }
}

/// The request for a test of a candidate.
pub open spec fn candidate_test(branch: BranchConfig, i: int) -> RequestView {
    git(Tree::Work, GitView::Test { command: branch.tests@[i]@, sandboxed: true })
}

proof fn lemma_candidate_test_is_asked_for(
    branch: BranchConfig,
    next: nat,
    replies: Seq<Reply>,
    first: nat,
    i: nat,
)
    requires
        next <= i < branch.tests@.len(),
        first + i <= replies.len(),
        forall|j: int| next <= j < i ==> is_success(#[trigger] replies[first + j]),
    ensures
        candidate_tests_from(
            texts(branch.tests@),
            next,
            printed_by(branch, replies, first as int, next),
            replies.take((first + i) as int),
            first + next,
        ) == Run::Ask::<Seq<char>>(candidate_test(branch, i as int)),
    decreases i - next,
{
    let known = replies.take((first + i) as int);
    if next < i {
        lemma_candidate_test_is_asked_for(branch, next + 1, replies, first, i);
        assert((next + 1 - 1) as nat == next);
        assert(is_success(replies[first + next as int]));
        assert(known[first + next as int] == replies[first + next as int]);
    }
}

/// Whether a candidate passed the tests of a branch: the branch has tests, some of behaviour, its
/// commits may go on, each test was asked for in the sandbox and ended well, and the contracts of
/// the commits were verified against what the tests printed.
pub open spec fn passed_tests(
    asks: spec_fn(Seq<Reply>) -> Option<RequestView>,
    branch: BranchConfig,
    replies: Seq<Reply>,
    at: int,
) -> bool {
    let count = branch.tests@.len();
    &&& tests_lacking(branch) is None
    &&& 2 <= at && at + count < replies.len()
    &&& replies[at - 2] matches Reply::Reviews(Some(batch)) && {
        &&& answers(
            asks,
            replies,
            at - 1,
            RequestView::Protection(Tree::Work, ProtectionView::CanProceed { batch }),
        )
        &&& answers(
            asks,
            replies,
            at + count,
            RequestView::Protection(
                Tree::Work,
                ProtectionView::VerifyContracts {
                    batch,
                    tests: texts(branch.tests@),
                    output: printed_by(branch, replies, at, count),
                },
            ),
        )
    }
    &&& replies[at - 1] is Done
    &&& forall|i: int|
        0 <= i < count ==> #[trigger] answers(asks, replies, at + i, candidate_test(branch, i))
            && is_success(replies[at + i])
    &&& replies[at + count] is Contracts
}

/// What examining a candidate asks for.
pub open spec fn examine_asks(branch: BranchConfig, base: Seq<char>, at: nat) -> spec_fn(
    Seq<Reply>,
) -> Option<RequestView> {
    |replies: Seq<Reply>| request_of(examined(branch, base, replies, at))
}

proof fn lemma_examined_passed(
    branch: BranchConfig,
    base: Seq<char>,
    replies: Seq<Reply>,
    at: nat,
)
    requires
        tests_lacking(branch) is None,
    ensures
        match examined(branch, base, replies, at) {
            Run::Ask(request) => is_offline(request),
            Run::On(_, _) => passed_tests(
                examine_asks(branch, base, at),
                branch,
                replies,
                (at + 2) as int,
            ),
            Run::Fail(_, _) => true,
        },
{
    reveal(examined);
    let first: nat = at + 2;
    let count = branch.tests@.len();
    let tests = texts(branch.tests@);
    let asks = examine_asks(branch, base, at);
    lemma_candidate_tests(branch, 0, replies, first);
    assert(printed_by(branch, replies, first as int, 0) =~= Seq::<char>::empty());
    if let Run::On(_, _) = examined(branch, base, replies, at) {
        let early = replies.take((at + 1) as int);
        assert(early[at as int] == replies[at as int]);
        assert forall|i: int| 0 <= i < count implies #[trigger] answers(
            asks,
            replies,
            first + i,
            candidate_test(branch, i),
        ) && is_success(replies[first + i]) by {
            lemma_candidate_test_is_asked_for(branch, 0, replies, first, i as nat);
            let known = replies.take(first + i);
            assert(known[at as int] == replies[at as int]);
            assert(known[(at + 1) as int] == replies[(at + 1) as int]);
            assert(is_success(replies[first + i]));
        }
        let k = (first + count) as int;
        let known = replies.take(k);
        lemma_beginning(replies, k);
        lemma_candidate_tests_from_is_steady(
            tests,
            0,
            Seq::empty(),
            known,
            replies.skip(k),
            first,
        );
        assert(known[at as int] == replies[at as int]);
        assert(known[(at + 1) as int] == replies[(at + 1) as int]);
    }
}

/// What preparing a candidate asks for.
pub open spec fn prepare_asks(
    config: Config,
    offered: Seq<Seq<char>>,
    finding_id: Seq<char>,
    decision: InvestigationView,
    requested: Option<Seq<char>>,
    candidate_id: Seq<char>,
    at: nat,
) -> spec_fn(Seq<Reply>) -> Option<RequestView> {
    |replies: Seq<Reply>|
        request_of(
            prepared(
                config,
                offered,
                finding_id,
                decision,
                requested,
                candidate_id,
                replies,
                at,
            ),
        )
}

proof fn lemma_tests_are_handed_on(
    part: spec_fn(Seq<Reply>) -> Option<RequestView>,
    whole: spec_fn(Seq<Reply>) -> Option<RequestView>,
    from: nat,
    branch: BranchConfig,
    replies: Seq<Reply>,
    at: int,
)
    requires
        passed_tests(part, branch, replies, at),
        hands_on(part, whole, from, replies),
        from < at,
    ensures
        passed_tests(whole, branch, replies, at),
{
    assert forall|k: int, request: RequestView|
        from <= k && #[trigger] answers(part, replies, k, request) implies answers(
        whole,
        replies,
        k,
        request,
    ) by {
        assert(whole(replies.take(k)) == part(replies.take(k)));
    }
    assert forall|i: int| 0 <= i < branch.tests@.len() implies #[trigger] answers(
        whole,
        replies,
        at + i,
        candidate_test(branch, i),
    ) && is_success(replies[at + i]) by {
        assert(answers(part, replies, at + i, candidate_test(branch, i)));
    }
}

/// Preparing a candidate leaves the project as it is. A candidate that is prepared has changes and a
/// contract with cases of regression, is marked as verified, and passed the tests of the branch that
/// was asked for.
pub proof fn lemma_candidate_passed_its_tests(
    config: Config,
    offered: Seq<Seq<char>>,
    finding_id: Seq<char>,
    decision: InvestigationView,
    requested: Option<Seq<char>>,
    candidate_id: Seq<char>,
    replies: Seq<Reply>,
    at: nat,
) -> (tests: int)
    requires
        at <= replies.len(),
    ensures
        match prepared(
            config,
            offered,
            finding_id,
            decision,
            requested,
            candidate_id,
            replies,
            at,
        ) {
            Run::Ask(request) => is_offline(request),
            Run::On(artifacts, _) => artifacts.1.passed && lacking(decision) is None && (
            test_branch(config, requested) matches Ok(branch) && passed_tests(
                prepare_asks(
                    config,
                    offered,
                    finding_id,
                    decision,
                    requested,
                    candidate_id,
                    at,
                ),
                branch,
                replies,
                tests,
            )),
            Run::Fail(_, _) => true,
        },
{
    let worktree = candidate_worktree(config.data_dir@, candidate_id);
    let admitting = admitted(config, offered, decision, requested, replies, at);
    assert(match admitting {
        Run::Ask(request) => is_offline(request),
        Run::On(branch, _) => lacking(decision) is None && test_branch(config, requested) == Ok::<
            BranchConfig,
            Seq<char>,
        >(branch) && tests_lacking(branch) is None,
        Run::Fail(_, _) => true,
    }) by {
        reveal(admitted);
        lemma_checking_changes_is_contained(offered, decision.changes, 0, 0, replies, at);
    }
    let branch = admitting->On_0;
    let a = admitting->On_1;
    let building = built(worktree, decision.changes, replies, a);
    assert(building matches Run::Ask(request) ==> is_offline(request)) by {
        reveal(built);
        if let Run::On(_, b) = candidate_tree_added(worktree, replies, a) {
            lemma_writing_changes_is_contained(decision.changes, 0, replies, b);
        }
    }
    let base = building->On_0;
    let c = building->On_1;
    let examining = examined(branch, base, replies, c);
    if admitting is On && building is On {
        lemma_examined_passed(branch, base, replies, c);
        assert(examining matches Run::On(output, d) ==> (contract_held(
            config,
            branch,
            base,
            decision.review,
            output,
            replies,
            d,
        ) matches Run::Ask(request) ==> is_offline(request))) by {
            reveal(contract_held);
        }
        if examining is On {
            let part = examine_asks(branch, base, c);
            let whole = prepare_asks(
                config,
                offered,
                finding_id,
                decision,
                requested,
                candidate_id,
                at,
            );
            assert forall|k: int|
                c <= k <= replies.len() && part(#[trigger] replies.take(k)) is Some implies whole(
                replies.take(k),
            ) == part(replies.take(k)) by {
                let known = replies.take(k);
                let more = replies.skip(k);
                lemma_beginning(replies, k);
                lemma_admitted_is_steady(config, offered, decision, requested, known, more, at);
                lemma_built_is_steady(worktree, decision.changes, known, more, a);
            }
            lemma_tests_are_handed_on(part, whole, c, branch, replies, (c + 2) as int);
        }
    }
    (c + 2) as int
}

/// A candidate that fails is never kept as verified, and keeping it leaves the project as it is.
pub proof fn lemma_failed_candidate_is_not_verified(
    config: Config,
    finding_id: Seq<char>,
    summary: Seq<char>,
    candidate_id: Seq<char>,
    error: Seq<char>,
    replies: Seq<Reply>,
    at: nat,
)
    ensures
        match failure_kept(config, finding_id, summary, candidate_id, error, replies, at) {
            Run::Ask(request) => is_offline(request),
            Run::On(artifacts, _) => !artifacts.1.passed,
            Run::Fail(_, _) => true,
        },
{
}

proof fn lemma_attempt_is_contained(
    config: Config,
    offered: Seq<Seq<char>>,
    finding_id: Seq<char>,
    decision: InvestigationView,
    requested: Option<Seq<char>>,
    replies: Seq<Reply>,
    at: nat,
)
    ensures
        match attempted(config, offered, finding_id, decision, requested, replies, at) {
            Run::Ask(request) => is_offline(request),
            Run::On(trial, _) => trial.verification matches Some(verification) ==> (
            verification.passed <==> trial.error is None),
            Run::Fail(_, _) => true,
        },
{
    reveal(attempted);
    if let Run::On(id, a) = asked::<String>(replies, at, signal(SignalCallView::NewId)) {
        let candidate_id = "candidate-"@ + id@;
        let tests = lemma_candidate_passed_its_tests(
            config,
            offered,
            finding_id,
            decision,
            requested,
            candidate_id,
            replies,
            a,
        );
        if let Run::Fail(chain, b) = prepared(
            config,
            offered,
            finding_id,
            decision,
            requested,
            candidate_id,
            replies,
            a,
        ) {
            lemma_failed_candidate_is_not_verified(
                config,
                finding_id,
                decision.candidate_summary,
                candidate_id,
                fault_text(chain),
                replies,
                b,
            );
        }
    }
}

/// What follows from a judgement leaves the project as it is. A finding awaits delivery only where
/// its candidate was verified, and a build is allowed only where the project is unaffected.
pub proof fn lemma_delivery_needs_verification(
    config: Config,
    message: ReportedView,
    requested: Option<Seq<char>>,
    offered: Seq<Seq<char>>,
    reachability: Option<CargoReachabilitySnapshot>,
    judgement: JudgementView,
    replies: Seq<Reply>,
    at: nat,
)
    ensures
        match concluded(
            config,
            message,
            requested,
            offered,
            reachability,
            judgement,
            replies,
            at,
        ) {
            Run::Ask(request) => is_offline(request),
            Run::On(output, _) => {
                &&& output.finding.state == FindingState::AwaitingDelivery <==> (
                output.verification matches Some(verification) && verification.passed)
                &&& output.finding.build_allowed ==> judgement.decision.review.affected == Some(
                    false,
                )
            },
            Run::Fail(_, _) => true,
        },
{
    reveal(recorded);
    reveal(alerted);
    reveal(advanced);
    reveal(drafted);
    let decision = judgement.decision;
    if let Run::On(record, a) = recorded(config, message, decision, reachability, replies, at) {
        if let Run::On(_, b) = alerted(config, message, decision, replies, a) {
            lemma_attempt_is_contained(
                config,
                offered,
                record.finding.id,
                decision,
                requested,
                replies,
                b,
            );
        }
    }
}

/// An investigation leaves the project as it is and follows no address: nothing is pushed, files
/// are written only in the worktree of a candidate, no repository and no archive is fetched, and
/// prompts are posted to the address in the settings alone. So whatever a message refers to is never
/// fetched.
pub proof fn lemma_investigation_is_contained(
    config: Config,
    message: ReportedView,
    requested: Option<Seq<char>>,
    found: Result<Option<CargoReachabilitySnapshot>, Seq<Seq<char>>>,
    replies: Seq<Reply>,
)
    ensures
        investigation_run(config, message, requested, found, replies) matches Run::Ask(request)
            ==> is_contained(request) && posts_to_settings(config, request),
{
    reveal(project_seen);
    if let Run::On(project, a) = project_seen(replies, 0) {
        if let Ok(reachability) = found {
            let facts = message_facts(config, message, reachability);
            lemma_judging_is_contained(config, facts, project.offered, replies, a);
            if let Run::On(judgement, b) = judged(config, facts, project.offered, replies, a) {
                lemma_delivery_needs_verification(
                    config,
                    message,
                    requested,
                    project.offered,
                    reachability,
                    judgement,
                    replies,
                    b,
                );
            }
        }
    }
}

/// Whether signal, finding and plan of an investigation are named after a digest, and belong to each
/// other.
pub open spec fn named_after(output: OutputView, dedupe: Seq<char>) -> bool {
    let suffix = first_chars(dedupe, 32);
    &&& output.signal.id == "signal-user-"@ + suffix
    &&& output.signal.dedupe_key == "user-report:"@ + dedupe
    &&& output.finding.id == "finding-user-"@ + suffix
    &&& output.finding.signal_id == output.signal.id
    &&& output.finding.dedupe_key == "finding-user:"@ + dedupe
    &&& output.plan.id == "plan-user-"@ + suffix
    &&& output.plan.finding_id == output.finding.id
}

/// Whether what an investigation comes to is named after the digest of project and message, and
/// keeps what the message refers to as it was given.
pub open spec fn is_kept_as_given(
    config: Config,
    message: ReportedView,
    output: OutputView,
) -> bool {
    &&& dedupe_digest(project_name(config), message) matches Ok(dedupe) && named_after(
        output,
        dedupe,
    )
    &&& output.signal.reference == message.reference
}

/// What an investigation comes to is named after the digest of project and message, and keeps what
/// the message refers to as it was given.
pub proof fn lemma_investigation_is_named_after_its_message(
    config: Config,
    message: ReportedView,
    requested: Option<Seq<char>>,
    found: Result<Option<CargoReachabilitySnapshot>, Seq<Seq<char>>>,
    replies: Seq<Reply>,
)
    ensures
        investigation_run(config, message, requested, found, replies) matches Run::On(output, _)
            ==> is_kept_as_given(config, message, output),
{
    reveal(recorded);
    reveal(advanced);
}

/// Two investigations of one message on one project, whatever else differs, give the same ids and
/// the same keys by which repeats are told, and both keep what the message refers to as it was
/// given.
pub proof fn lemma_same_message_has_same_ids(
    message: ReportedView,
    first: (
        Config,
        Option<Seq<char>>,
        Result<Option<CargoReachabilitySnapshot>, Seq<Seq<char>>>,
        Seq<Reply>,
    ),
    second: (
        Config,
        Option<Seq<char>>,
        Result<Option<CargoReachabilitySnapshot>, Seq<Seq<char>>>,
        Seq<Reply>,
    ),
)
    requires
        project_name(first.0) == project_name(second.0),
        investigation_run(first.0, message, first.1, first.2, first.3) is On,
        investigation_run(second.0, message, second.1, second.2, second.3) is On,
    ensures
        ({
            let one = investigation_run(first.0, message, first.1, first.2, first.3)->On_0;
            let two = investigation_run(second.0, message, second.1, second.2, second.3)->On_0;
            &&& one.signal.id == two.signal.id
            &&& one.finding.id == two.finding.id
            &&& one.plan.id == two.plan.id
            &&& one.signal.dedupe_key == two.signal.dedupe_key
            &&& one.finding.dedupe_key == two.finding.dedupe_key
            &&& one.signal.reference == message.reference
            &&& two.signal.reference == message.reference
        }),
{
    lemma_investigation_is_named_after_its_message(first.0, message, first.1, first.2, first.3);
    lemma_investigation_is_named_after_its_message(
        second.0,
        message,
        second.1,
        second.2,
        second.3,
    );
}

} // verus!
