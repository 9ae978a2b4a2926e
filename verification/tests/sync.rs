use termiters::calls::conflict::ConflictCall;
use termiters::calls::git::GitCall;
use termiters::calls::model::ModelCall;
use termiters::calls::notify::NotifyCall;
use termiters::calls::protect::ProtectionCall;
use termiters::calls::{Request, Tree};
use termiters::config::{
    AutoResolveConfig, BranchConfig, Config, LlmConfig, LlmProvider, NotifyConfig, PromptConfig,
    ProtectionAutomation, ProtectionConfig, PushStrategy, RepoConfig, SyncStrategy,
};
use termiters::fault::Fault;
use termiters::journal::{Halt, Reply};
use termiters::llm::types::AutoResolveDecision;
use termiters::protection::types::{
    CommitSecurityReviewBatch, EvaluatedSecurityReview, SecurityConfidence, SecurityDisposition,
    SecurityReviewDecision, SecuritySeverity,
};
use termiters::repo::{
    AheadBehind, CommandOutput, ConflictBlock, ConflictBlocks, ConflictFileContent,
    ConflictSnapshot, ResolvedFile, SyncPatchContext,
};
use termiters::report::{BranchStatus, SyncReport};
use termiters::sync::auto_resolve::path_is_allowed;
use termiters::sync::report::{one_line, short_head};
use termiters::sync::{SyncOptions, SyncRunner};

fn branch(name: &str) -> BranchConfig {
    BranchConfig {
        name: name.to_string(),
        kind: "product".to_string(),
        note: Some("mine".to_string()),
        sync: SyncStrategy::Rebase,
        push: PushStrategy::ForceWithLease,
        tests: vec!["cargo test".to_string(), "cargo clippy".to_string()],
        require_behavioral_tests: true,
        behavioral_tests: true,
        auto_resolve: AutoResolveConfig {
            enabled: false,
            allowed_paths: vec!["src".to_string()],
            max_conflict_files: 2,
            max_file_bytes: 1000,
            max_rounds: 2,
            require_tests: true,
        },
    }
}

fn config() -> Config {
    Config {
        repo: RepoConfig {
            path: "/repo".to_string(),
            fork: "git@github.com:me/x.git".to_string(),
            upstream_remote: "upstream".to_string(),
            fork_remote: "origin".to_string(),
            base_branch: "main".to_string(),
        },
        branches: vec![branch("my/one")],
        llm: None,
        notify: NotifyConfig {
            sync_start: false,
            sync_summary: false,
        },
        protection: ProtectionConfig {
            enabled: true,
            project_name: "x".to_string(),
            project_description: String::new(),
            profiles: Vec::new(),
            automation: ProtectionAutomation::Observe,
        },
        data_dir: "/data".to_string(),
    }
}

fn llm() -> LlmConfig {
    LlmConfig {
        enabled: true,
        provider: LlmProvider::DeepSeek,
        base_url: None,
        api_key_env: "KEY".to_string(),
        model: "chat".to_string(),
        timeout_seconds: 5,
        max_retries: 0,
        max_prompt_bytes: 100_000,
        prompts: PromptConfig {
            conflict_system: None,
            conflict_user: None,
            auto_resolve_system: None,
            auto_resolve_user: None,
            sync_summary_system: None,
            sync_summary_user: None,
        },
    }
}

fn options() -> SyncOptions {
    SyncOptions {
        branch: None,
        dry_run: false,
        notify_on_noop: false,
    }
}

fn output(status: i32) -> Reply {
    Reply::Output(CommandOutput {
        status,
        stdout: String::new(),
        stderr: if status == 0 {
            String::new()
        } else {
            "it\r\nbroke".to_string()
        },
    })
}

fn text(value: &str) -> Reply {
    Reply::Text(value.to_string())
}

fn head(value: &str) -> Reply {
    Reply::Maybe(Some(value.to_string()))
}

fn label(request: &Request<'_>) -> String {
    match request {
        Request::Git(Tree::Main, call) => match call {
            GitCall::EnsureRepo => "repo".to_string(),
            GitCall::EnsureRemotes => "remotes".to_string(),
            GitCall::FetchAll => "fetch".to_string(),
            GitCall::FetchBranch { remote, branch } => format!("fetch {} {}", remote, branch),
            GitCall::RemoteHead { remote, branch } => format!("remote {} {}", remote, branch),
            GitCall::CheckoutAt { branch, start } => format!("checkout {} at {}", branch, start),
            GitCall::Checkout { branch } => format!("checkout {}", branch),
            GitCall::Head => "head".to_string(),
            GitCall::ShortRef { name } => format!("short {}", name),
            GitCall::MergeBase { left, right } => format!("base {} {}", left, right),
            GitCall::Log { range, limit } => format!("log {} {}", range, limit),
            GitCall::ChangedFiles { range, limit } => format!("files {} {}", range, limit),
            GitCall::Rebase { base } => format!("rebase {}", base),
            GitCall::Merge { base } => format!("merge {}", base),
            GitCall::Continue { .. } => "continue".to_string(),
            GitCall::Abort => "abort".to_string(),
            GitCall::Snapshot { .. } => "snapshot".to_string(),
            GitCall::ConflictFiles { .. } => "conflict files".to_string(),
            GitCall::PatchContext { .. } => "patch".to_string(),
            GitCall::WriteFile { path, .. } => format!("write {}", path),
            GitCall::AddFile { path } => format!("add {}", path),
            GitCall::Test { command, sandboxed } => format!("test {} {}", command, sandboxed),
            GitCall::Push { remote, branch } => format!("push {} {}", remote, branch),
            GitCall::PushWithLease {
                remote,
                branch,
                expected,
            } => format!("lease {} {} {}", remote, branch, expected),
            GitCall::LocalBranchExists { branch } => format!("local {}", branch),
            GitCall::RefExists { name } => format!("ref {}", name),
            GitCall::RemoteBranchExists { remote, branch } => {
                format!("remote branch {} {}", remote, branch)
            }
            GitCall::AheadBehind { branch, other } => format!("distance {} {}", branch, other),
            GitCall::Run { args } => format!("git {}", args.join(" ")),
            GitCall::RangePatch { .. } => "range".to_string(),
        },
        Request::Protection(_, ProtectionCall::Gate) => "gate".to_string(),
        Request::Protection(_, ProtectionCall::Reviews { from, to }) => {
            format!("reviews {}..{}", from, to)
        }
        Request::Protection(_, ProtectionCall::CanProceed { .. }) => "proceed".to_string(),
        Request::Protection(_, ProtectionCall::VerifyContracts { output, .. }) => {
            format!("contracts {}", output)
        }
        Request::Protection(_, ProtectionCall::ReleaseTag { remote, branch }) => {
            format!("tag {} {}", remote, branch)
        }
        Request::Notify(NotifyCall::Failure { subject, .. }) => format!("failure {}", subject),
        Request::Notify(NotifyCall::SyncStart { branch, base, .. }) => {
            format!("start {} {}", branch, base)
        }
        Request::Notify(NotifyCall::Render { .. }) => "render".to_string(),
        Request::Notify(NotifyCall::Summary { summary, report }) => {
            format!("summary {} {}", summary, report)
        }
        Request::Model(ModelCall::ApiKey { .. }) => "key".to_string(),
        Request::Model(ModelCall::Post { .. }) => "post".to_string(),
        Request::Model(ModelCall::Decode { .. }) => "decode".to_string(),
        Request::Conflict(ConflictCall::Blocks { .. }) => "blocks".to_string(),
        Request::Conflict(ConflictCall::Resolve { .. }) => "resolve".to_string(),
        _ => "other".to_string(),
    }
}

/// Replies to everything a branch without conflicts asks for.
fn calm(request: &Request<'_>) -> Reply {
    match label(request).as_str() {
        "head" => text("aaaa"),
        l if l.starts_with("remote branch") || l.starts_with("local") || l.starts_with("ref") => {
            Reply::Flag(true)
        }
        l if l.starts_with("remote ") => head("1111111111"),
        l if l.starts_with("short") => text("bbbb"),
        l if l.starts_with("base") => head("cccc"),
        l if l.starts_with("log") || l.starts_with("files") => Reply::List(Vec::new()),
        l if l.starts_with("distance") => Reply::Distance(AheadBehind {
            ahead: 3,
            behind: 4,
        }),
        l if l.starts_with("rebase")
            || l.starts_with("merge")
            || l.starts_with("test")
            || l.starts_with("push")
            || l.starts_with("lease") =>
        {
            output(0)
        }
        l if l.starts_with("reviews") => Reply::Reviews(None),
        l if l.starts_with("tag") => Reply::Maybe(None),
        l if l.starts_with("failure") || l.starts_with("start") || l.starts_with("summary") => {
            Reply::Flag(true)
        }
        "render" => text("the report"),
        _ => Reply::Done,
    }
}

fn drive<F>(runner: &SyncRunner, mut reply: F) -> (Result<SyncReport, String>, Vec<String>)
where
    F: FnMut(&Request<'_>, &[String]) -> Reply,
{
    let mut replies = Vec::new();
    let mut log: Vec<String> = Vec::new();
    loop {
        let next = match runner.run(&replies) {
            Ok(report) => return (Ok(report), log),
            Err(Halt::Fail(fault)) => return (Err(fault.text()), log),
            Err(Halt::Ask(request)) => {
                let next = reply(&request, &log);
                log.push(label(&request));
                next
            }
        };
        replies.push(next);
    }
}

fn run<F>(config: Config, reply: F) -> (SyncReport, Vec<String>)
where
    F: FnMut(&Request<'_>, &[String]) -> Reply,
{
    let runner = SyncRunner::new(config, options());
    let (report, log) = drive(&runner, reply);
    (report.unwrap(), log)
}

fn pushed(log: &[String]) -> bool {
    log.iter()
        .any(|l| l.starts_with("push") || l.starts_with("lease") || l.starts_with("tag"))
}

#[test]
fn allowed_path_does_not_match_neighbor_prefix() {
    let allowed = vec!["src".to_string()];

    assert!(path_is_allowed("src/char/Linnai.py", &allowed));
    assert!(!path_is_allowed("src2/char/Linnai.py", &allowed));
}

#[test]
fn allowed_paths_may_use_either_slash() {
    let allowed = vec!["a\\b//".to_string(), "file.py".to_string()];
    assert!(path_is_allowed("a/b/c", &allowed));
    assert!(path_is_allowed("a\\b", &allowed));
    assert!(path_is_allowed("file.py", &allowed));
    assert!(!path_is_allowed("file.pyc", &allowed));
    assert!(!path_is_allowed("x", &Vec::new()));
}

#[test]
fn lines_are_joined_and_cut() {
    assert_eq!(one_line("a\r\nb\nc"), "a | b | c");
    let long = "字".repeat(200);
    let line = one_line(&long);
    assert_eq!(line.len(), 498 + 3);
    assert!(line.ends_with("..."));
    assert_eq!(one_line(&"x".repeat(500)).len(), 500);
    assert_eq!(short_head("0123456789"), "01234567");
    assert_eq!(short_head("abc"), "abc");
}

#[test]
fn a_branch_is_synced_checked_tested_and_pushed_in_this_order() {
    let (report, log) = run(config(), |request, _| calm(request));
    assert_eq!(
        log,
        vec![
            "repo",
            "remotes",
            "fetch",
            "fetch origin my/one",
            "remote origin my/one",
            "checkout my/one at origin/my/one",
            "head",
            "short upstream/main",
            "base HEAD upstream/main",
            "log cccc..upstream/main 12",
            "rebase upstream/main",
            "gate",
            "reviews aaaa..HEAD",
            "test cargo test true",
            "test cargo clippy true",
            "head",
            "log origin/my/one..HEAD 12",
            "files origin/my/one..HEAD 30",
            "fetch origin my/one",
            "remote origin my/one",
            "lease origin my/one 1111111111",
            "tag origin my/one",
        ]
    );
    let entry = &report.entries[0];
    assert_eq!(entry.status, BranchStatus::Success);
    assert!(!entry.active);
    assert_eq!(entry.head, Some("aaaa".to_string()));
    assert_eq!(
        entry.details,
        vec![
            "note: mine",
            "before sync: aaaa",
            "after sync: aaaa",
            "target base: upstream/main @ bbbb",
            "remote before push: origin/my/one @ 11111111",
            "upstream commits included: none",
            "commits pushed to remote: none",
            "files pushed to remote: none",
            "2 test command(s) passed",
            "pushed to origin/my/one",
        ]
    );
}

#[test]
fn a_branch_without_a_remote_is_pushed_plainly() {
    let (report, log) = run(config(), |request, _| {
        if label(request) == "remote origin my/one" {
            Reply::Maybe(None)
        } else if label(request).starts_with("files") {
            Reply::Failed(Fault::of("no parent"))
        } else if label(request).starts_with("log HEAD") {
            Reply::List(vec!["aaaa first".to_string()])
        } else {
            calm(request)
        }
    });
    assert!(log.contains(&"checkout my/one".to_string()));
    assert!(log.contains(&"files aaaa^..aaaa 30".to_string()));
    assert!(log.contains(&"push origin my/one".to_string()));
    let entry = &report.entries[0];
    assert!(entry.active);
    assert!(entry
        .details
        .contains(&"remote before push: origin/my/one not found".to_string()));
    assert!(entry
        .details
        .contains(&"commits pushed to remote (1):".to_string()));
    assert!(entry.details.contains(&"  aaaa first".to_string()));
}

#[test]
fn a_test_that_fails_stops_the_push() {
    let (report, log) = run(config(), |request, _| {
        if label(request) == "test cargo clippy true" {
            output(7)
        } else {
            calm(request)
        }
    });
    assert!(!pushed(&log));
    let entry = &report.entries[0];
    assert_eq!(entry.status, BranchStatus::Failed);
    assert_eq!(
        entry.details,
        vec![
            "test failed: cargo clippy",
            "exit code: 7",
            "stderr: it | broke"
        ]
    );
    assert_eq!(log.last().unwrap(), "failure my/one Failed");
}

#[test]
fn the_protection_rules_stop_the_push() {
    let (report, log) = run(config(), |request, _| {
        if label(request) == "gate" {
            Reply::Failed(Fault::because("blocked".to_string(), "why".to_string()))
        } else {
            calm(request)
        }
    });
    assert!(!pushed(&log));
    assert!(!log.iter().any(|l| l.starts_with("test")));
    assert_eq!(
        report.entries[0].details,
        vec!["project protection gate blocked execution: blocked: why"]
    );
    let (report, log) = run(config(), |request, _| {
        if label(request).starts_with("reviews") {
            Reply::Failed(Fault::of("no answer"))
        } else {
            calm(request)
        }
    });
    assert!(!pushed(&log));
    assert_eq!(
        report.entries[0].details,
        vec!["project security review failed closed: no answer"]
    );
}

fn batch() -> CommitSecurityReviewBatch {
    let review = |commit: &str, disposition| EvaluatedSecurityReview {
        commit: commit.to_string(),
        decision: SecurityReviewDecision {
            security_fix_detected: false,
            introduced_risk: false,
            severity: SecuritySeverity::P3,
            categories: Vec::new(),
            affected: None,
            production_reachable: None,
            confidence: SecurityConfidence::Low,
            summary: "said".to_string(),
            mechanism: "m".to_string(),
            evidence: Vec::new(),
            fix_contract: None,
        },
        disposition,
        policy_reasons: Vec::new(),
        policy_fingerprint: String::new(),
    };
    CommitSecurityReviewBatch {
        project: "x".to_string(),
        from: "a".to_string(),
        to: "b".to_string(),
        reviews: vec![
            review("c1", SecurityDisposition::Allow),
            review("c2", SecurityDisposition::VerifyRequired),
            review("c3", SecurityDisposition::Other("Block".to_string())),
        ],
        disposition: SecurityDisposition::VerifyRequired,
        cache_hits: 0,
    }
}

#[test]
fn reviews_that_do_not_allow_a_commit_are_reported() {
    let (report, log) = run(config(), |request, _| {
        if label(request).starts_with("reviews") {
            Reply::Reviews(Some(batch()))
        } else if label(request) == "proceed" {
            Reply::Failed(Fault::of("stop"))
        } else {
            calm(request)
        }
    });
    assert!(!pushed(&log));
    assert_eq!(
        report.entries[0].details,
        vec![
            "project security review blocked execution: stop",
            "c2 VerifyRequired: said",
            "c3 Block: said"
        ]
    );
}

#[test]
fn contracts_are_verified_with_what_the_tests_printed() {
    let printing = |request: &Request<'_>| {
        if label(request).starts_with("reviews") {
            Reply::Reviews(Some(batch()))
        } else if label(request).starts_with("test") {
            Reply::Output(CommandOutput {
                status: 0,
                stdout: "out".to_string(),
                stderr: "err".to_string(),
            })
        } else {
            calm(request)
        }
    };
    let (_, log) = run(config(), |request, _| {
        if label(request).starts_with("contracts") {
            Reply::Contracts(Vec::new())
        } else {
            printing(request)
        }
    });
    assert!(log.contains(
        &"contracts $ cargo test\nout\nerr\n$ cargo clippy\nout\nerr\n".to_string()
    ));
    assert!(pushed(&log));
    let (report, log) = run(config(), |request, _| {
        if label(request).starts_with("contracts") {
            Reply::Failed(Fault::of("missing"))
        } else {
            printing(request)
        }
    });
    assert!(!pushed(&log));
    assert_eq!(
        report.entries[0].details,
        vec!["project FixContract verification failed closed: missing"]
    );
}

#[test]
fn behaviour_must_be_tested_where_that_is_required() {
    let mut settings = config();
    settings.branches[0].behavioral_tests = false;
    let (report, log) = run(settings, |request, _| calm(request));
    assert!(!pushed(&log));
    assert!(!log.contains(&"gate".to_string()));
    assert!(report.entries[0].details[0].starts_with("test policy failed"));
}

#[test]
fn a_branch_that_is_not_pushed_is_not_pushed() {
    let mut settings = config();
    settings.branches[0].push = PushStrategy::Skip;
    settings.branches[0].tests = Vec::new();
    settings.protection.enabled = false;
    let (report, log) = run(settings, |request, _| calm(request));
    assert!(!pushed(&log));
    assert!(log.contains(&"checkout my/one".to_string()));
    let details = &report.entries[0].details;
    assert_eq!(details[details.len() - 2], "no tests configured");
    assert_eq!(details[details.len() - 1], "push skipped by config");
}

#[test]
fn a_remote_branch_that_moved_is_synced_once_more() {
    let mut seen = 0;
    let (report, log) = run(config(), |request, _| {
        if label(request) == "remote origin my/one" {
            seen += 1;
            head(if seen == 1 { "first" } else { "second" })
        } else {
            calm(request)
        }
    });
    assert_eq!(report.entries[0].status, BranchStatus::Success);
    assert_eq!(log.iter().filter(|l| *l == "abort").count(), 1);
    assert_eq!(
        log.iter().filter(|l| *l == "rebase upstream/main").count(),
        2
    );
    assert!(log.contains(&"lease origin my/one second".to_string()));
}

#[test]
fn a_remote_branch_that_keeps_moving_is_reported() {
    let mut seen = 0;
    let (report, log) = run(config(), |request, _| {
        if label(request) == "remote origin my/one" {
            seen += 1;
            head(&format!("commit-{}-long", seen))
        } else {
            calm(request)
        }
    });
    assert!(!pushed(&log));
    assert_eq!(
        log.iter().filter(|l| *l == "rebase upstream/main").count(),
        2
    );
    assert_eq!(
        report.entries[0].details,
        vec![
            "note: mine",
            "push blocked: remote branch changed before push",
            "remote branch: origin/my/one",
            "expected remote head: commit-3",
            "current remote head: commit-4",
            "sync retried once from the latest remote branch but remote changed again",
        ]
    );
}

#[test]
fn pushes_and_tags_that_fail_are_reported() {
    let (report, log) = run(config(), |request, _| {
        if label(request).starts_with("lease") {
            output(128)
        } else {
            calm(request)
        }
    });
    assert!(!log.iter().any(|l| l.starts_with("tag")));
    assert_eq!(
        report.entries[0].details,
        vec![
            "note: mine",
            "push failed with code 128",
            "stderr: it | broke"
        ]
    );
    let (report, _) = run(config(), |request, _| {
        if label(request).starts_with("tag") {
            Reply::Failed(Fault::of("exists"))
        } else {
            calm(request)
        }
    });
    assert_eq!(report.entries[0].head, Some("aaaa".to_string()));
    assert_eq!(
        report.entries[0].details,
        vec![
            "branch push succeeded, release tag failed",
            "release error: exists"
        ]
    );
    let (report, _) = run(config(), |request, _| {
        if label(request).starts_with("tag") {
            head("v1.2.3")
        } else {
            calm(request)
        }
    });
    assert!(report.entries[0].active);
    assert!(report.entries[0]
        .details
        .contains(&"release tag pushed: v1.2.3".to_string()));
}

fn conflict(files: &[&str]) -> ConflictSnapshot {
    ConflictSnapshot {
        status: "UU a\nUU b".to_string(),
        files: files.iter().map(|f| f.to_string()).collect(),
        combined_diff: "diff".to_string(),
    }
}

fn stuck(request: &Request<'_>) -> Reply {
    match label(request).as_str() {
        "rebase upstream/main" => output(1),
        "snapshot" => Reply::Snapshot(conflict(&["src/a.py"])),
        "patch" => Reply::Patch(SyncPatchContext::default()),
        _ => calm(request),
    }
}

#[test]
fn a_conflict_without_automation_is_given_up_and_reported() {
    let (report, log) = run(config(), |request, _| stuck(request));
    assert!(!pushed(&log));
    assert!(log.contains(&"abort".to_string()));
    let entry = &report.entries[0];
    assert_eq!(entry.status, BranchStatus::Conflict);
    assert_eq!(
        entry.details,
        vec![
            "note: mine",
            "before sync: aaaa",
            "target base: upstream/main @ bbbb",
            "sync failed with code 1 against upstream/main",
            "conflict files: src/a.py",
            "upstream commits planned: none",
            "git status: UU a; UU b",
            "combined diff captured for future LLM analysis",
            "LLM analysis skipped",
        ]
    );
    assert_eq!(log.last().unwrap(), "failure my/one Conflict");
}

fn automatic() -> Config {
    let mut settings = config();
    settings.llm = Some(llm());
    settings.branches[0].auto_resolve.enabled = true;
    settings
}

fn decision(risk: &str) -> Reply {
    Reply::AutoResolve(AutoResolveDecision {
        risk: risk.to_string(),
        summary: "both\nkept".to_string(),
        resolutions: Vec::new(),
    })
}

fn solving(request: &Request<'_>, risk: &str) -> Reply {
    match label(request).as_str() {
        "conflict files" => Reply::Files(vec![ConflictFileContent {
            path: "src/a.py".to_string(),
            content: "<<<<<<<".to_string(),
        }]),
        "blocks" => Reply::Blocks(ConflictBlocks {
            blocks: vec![ConflictBlock {
                path: "src/a.py".to_string(),
                id: "conflict-1".to_string(),
                expected_sha256: "hash".to_string(),
            }],
            rendered: "hash".to_string(),
            payload_bytes: 10,
        }),
        "key" => text("k"),
        "post" => text("{\"choices\":[{\"message\":{\"content\":\"{}\"}}]}"),
        "decode" => decision(risk),
        "resolve" => Reply::Resolved(vec![ResolvedFile {
            path: "src/a.py".to_string(),
            content: "solved".to_string(),
        }]),
        "continue" => output(0),
        _ => stuck(request),
    }
}

#[test]
fn a_conflict_of_low_risk_is_resolved_tested_and_pushed() {
    let (report, log) = run(automatic(), |request, _| solving(request, "LOW"));
    assert!(pushed(&log));
    assert!(log.contains(&"write src/a.py".to_string()));
    assert!(log.contains(&"add src/a.py".to_string()));
    let details = &report.entries[0].details;
    for line in [
        "auto resolve: enabled",
        "auto resolve round 1: conflict files src/a.py",
        "auto resolve round 1 risk: LOW",
        "auto resolve round 1 summary: both | kept",
        "auto resolve round 1 applied files: 1",
        "auto resolve completed after 1 round(s)",
    ] {
        assert!(details.contains(&line.to_string()), "{}", line);
    }
}

#[test]
fn a_conflict_of_higher_risk_is_left_alone() {
    let (report, log) = run(automatic(), |request, _| solving(request, "medium"));
    assert!(!pushed(&log));
    assert!(!log.iter().any(|l| l.starts_with("write")));
    assert_eq!(report.entries[0].status, BranchStatus::Conflict);
}

#[test]
fn conflicts_outside_the_allowed_paths_are_left_alone() {
    for (files, line) in [
        (
            vec!["src/a.py", "docs/b.md"],
            "auto resolve skipped: path not allowed: docs/b.md",
        ),
        (
            vec!["src/a", "src/b", "src/c"],
            "auto resolve skipped: 3 conflict files exceeds limit 2",
        ),
    ] {
        let (report, log) = run(automatic(), |request, _| {
            if label(request) == "snapshot" {
                Reply::Snapshot(conflict(&files))
            } else {
                solving(request, "low")
            }
        });
        assert!(!pushed(&log));
        assert!(!log.contains(&"decode".to_string()));
        assert!(report.entries[0].details.contains(&line.to_string()));
    }
    let mut settings = automatic();
    settings.branches[0].auto_resolve.allowed_paths = Vec::new();
    let (report, _) = run(settings, |request, _| solving(request, "low"));
    assert!(report.entries[0]
        .details
        .contains(&"auto resolve skipped: allowed_paths is empty".to_string()));
}

#[test]
fn rounds_are_limited() {
    let (report, log) = run(automatic(), |request, _| {
        if label(request) == "continue" {
            output(1)
        } else {
            solving(request, "low")
        }
    });
    assert!(!pushed(&log));
    assert_eq!(log.iter().filter(|l| *l == "write src/a.py").count(), 2);
    let details = &report.entries[0].details;
    assert!(details.contains(&"auto resolve round 1 stopped on another conflict".to_string()));
    assert!(details.contains(&"auto resolve stopped: exceeded max_rounds 2".to_string()));
    assert!(details.contains(&"auto resolve round 2 continue stderr: it | broke".to_string()));
}

#[test]
fn attempts_end_where_they_cannot_go_on() {
    let large = |request: &Request<'_>| {
        if label(request) == "blocks" {
            Reply::Blocks(ConflictBlocks {
                blocks: Vec::new(),
                rendered: String::new(),
                payload_bytes: 1001,
            })
        } else {
            solving(request, "low")
        }
    };
    let (report, _) = run(automatic(), |request, _| large(request));
    assert!(report.entries[0].details.contains(
        &"auto resolve skipped: conflict block payload 1001 bytes exceeds limit 1000".to_string()
    ));
    let (report, _) = run(automatic(), |request, _| {
        if label(request) == "resolve" {
            Reply::Failed(Fault::of("hash differs"))
        } else {
            solving(request, "low")
        }
    });
    assert!(report.entries[0]
        .details
        .contains(&"auto resolve round 1 rejected: hash differs".to_string()));
    let (report, _) = run(automatic(), |request, _| {
        if label(request) == "post" {
            Reply::Failed(Fault::of("401"))
        } else {
            solving(request, "low")
        }
    });
    assert!(report.entries[0]
        .details
        .contains(&"auto resolve failed: 401".to_string()));
    assert!(report.entries[0]
        .details
        .contains(&"LLM analysis failed: 401".to_string()));
    let mut settings = automatic();
    settings.llm = None;
    let (report, _) = run(settings, |request, _| solving(request, "low"));
    assert!(report.entries[0]
        .details
        .contains(&"auto resolve skipped: LLM disabled".to_string()));
    let mut settings = automatic();
    settings.branches[0].tests = Vec::new();
    settings.branches[0].require_behavioral_tests = false;
    let (report, log) = run(settings, |request, _| solving(request, "low"));
    assert!(!pushed(&log));
    assert_eq!(
        report.entries[0].details,
        vec!["auto resolve failed: require_tests is true but no tests configured"]
    );
}

#[test]
fn resolutions_that_are_staged_are_continued() {
    let staged = |request: &Request<'_>| match label(request).as_str() {
        "snapshot" => Reply::Snapshot(conflict(&[])),
        "git diff --cached --quiet" => output(1),
        "continue" => output(0),
        _ => stuck(request),
    };
    let (report, log) = run(config(), |request, _| staged(request));
    assert!(pushed(&log));
    let details = &report.entries[0].details;
    assert!(details.contains(&"initial continue stderr: it | broke".to_string()));
    assert!(details.contains(&"rerere/autostaged resolution applied".to_string()));
    let (report, log) = run(config(), |request, _| {
        if label(request) == "continue" {
            output(1)
        } else {
            staged(request)
        }
    });
    assert!(!pushed(&log));
    assert!(report.entries[0]
        .details
        .contains(&"continue did not advance HEAD; stopped retrying".to_string()));
    let mut heads = 0;
    let (report, log) = run(config(), |request, _| match label(request).as_str() {
        "continue" => output(1),
        "head" => {
            heads += 1;
            text(&format!("head{}", heads))
        }
        _ => staged(request),
    });
    assert_eq!(log.iter().filter(|l| *l == "continue").count(), 20);
    assert!(report.entries[0]
        .details
        .contains(&"continue retried more than 20 times; stopped".to_string()));
    let (report, _) = run(config(), |request, _| {
        if label(request) == "git diff --cached --quiet" {
            output(0)
        } else {
            staged(request)
        }
    });
    assert_eq!(report.entries[0].status, BranchStatus::Conflict);
    let runner = SyncRunner::new(config(), options());
    let (failed, _) = drive(&runner, |request, _| {
        if label(request) == "git diff --cached --quiet" {
            output(129)
        } else {
            staged(request)
        }
    });
    assert_eq!(
        failed.unwrap_err(),
        "failed to inspect staged changes: it\r\nbroke"
    );
}

#[test]
fn only_the_selected_branch_is_worked_on() {
    let mut settings = config();
    settings.branches.push(branch("my/two"));
    let runner = SyncRunner::new(
        settings,
        SyncOptions {
            branch: Some("my/two".to_string()),
            dry_run: false,
            notify_on_noop: false,
        },
    );
    let (report, log) = drive(&runner, |request, _| calm(request));
    assert_eq!(report.unwrap().entries.len(), 1);
    assert!(!log.iter().any(|l| l.contains("my/one")));
}

#[test]
fn a_dry_run_only_fetches() {
    let runner = SyncRunner::new(config(), SyncOptions::status_only());
    let (report, log) = drive(&runner, |request, _| calm(request));
    assert_eq!(log, vec!["repo", "remotes", "fetch"]);
    let entry = &report.unwrap().entries[0];
    assert_eq!(entry.status, BranchStatus::Skipped);
    assert_eq!(
        entry.details,
        vec!["dry run: fetch completed, sync/test/push skipped"]
    );
}

#[test]
fn the_status_of_a_branch_is_its_distance() {
    let runner = SyncRunner::new(config(), SyncOptions::status_only());
    let status = |missing: &str| {
        let mut replies = Vec::new();
        loop {
            let next = match runner.status(&replies) {
                Ok(report) => return report,
                Err(Halt::Fail(fault)) => panic!("{}", fault.text()),
                Err(Halt::Ask(request)) => {
                    if !missing.is_empty() && label(&request).starts_with(missing) {
                        Reply::Flag(false)
                    } else {
                        calm(&request)
                    }
                }
            };
            replies.push(next);
        }
    };
    let report = status("");
    assert_eq!(report.entries[0].head, Some("bbbb".to_string()));
    assert_eq!(
        report.entries[0].details,
        vec![
            "status only: fetch completed, sync/test/push skipped",
            "vs upstream/main: ahead 3, behind 4",
            "vs origin/my/one: ahead 3, behind 4",
        ]
    );
    assert_eq!(
        status("ref").entries[0].details[1],
        "base ref not found: upstream/main"
    );
    assert_eq!(
        status("remote branch").entries[0].details[2],
        "remote branch not found: origin/my/one"
    );
    let report = status("local");
    assert_eq!(report.entries[0].status, BranchStatus::Failed);
    assert_eq!(report.entries[0].details, vec!["local branch not found"]);
}

#[test]
fn messages_that_cannot_be_sent_change_nothing() {
    let mut settings = config();
    settings.notify.sync_start = true;
    settings.notify.sync_summary = true;
    let active = |request: &Request<'_>| {
        if label(request).starts_with("log cccc") {
            Reply::List(vec!["c".to_string()])
        } else {
            calm(request)
        }
    };
    let (report, log) = run(settings, |request, _| {
        if label(request).starts_with("start") || label(request).starts_with("summary") {
            Reply::Failed(Fault::of("mail is down"))
        } else {
            active(request)
        }
    });
    assert_eq!(report.entries[0].status, BranchStatus::Success);
    assert!(log.contains(&"start my/one upstream/main".to_string()));
    assert_eq!(log.last().unwrap(), "summary the report the report");
}

#[test]
fn an_idle_run_is_told_only_where_that_is_asked_for() {
    let mut settings = config();
    settings.notify.sync_summary = true;
    let (_, log) = run(settings.clone(), |request, _| calm(request));
    assert!(!log.contains(&"render".to_string()));
    let runner = SyncRunner::new(
        settings,
        SyncOptions {
            branch: None,
            dry_run: false,
            notify_on_noop: true,
        },
    );
    let (_, log) = drive(&runner, |request, _| calm(request));
    assert!(log.contains(&"render".to_string()));
}

#[test]
fn summaries_of_the_model_are_sent_with_the_report() {
    let mut settings = config();
    settings.notify.sync_summary = true;
    settings.llm = Some(llm());
    let runner = SyncRunner::new(
        settings,
        SyncOptions {
            branch: None,
            dry_run: false,
            notify_on_noop: true,
        },
    );
    let (_, log) = drive(&runner, |request, _| match label(request).as_str() {
        "key" => text("k"),
        "post" => text("{\"choices\":[{\"message\":{\"content\":\"all well\"}}]}"),
        _ => calm(request),
    });
    assert_eq!(log.last().unwrap(), "summary all well the report");
}

#[test]
fn a_repository_that_is_not_ready_ends_the_run() {
    let runner = SyncRunner::new(config(), options());
    let (result, log) = drive(&runner, |_, _| Reply::Failed(Fault::of("not a repository")));
    assert_eq!(result.unwrap_err(), "not a repository");
    assert_eq!(log, vec!["repo"]);
}

#[test]
fn a_branch_can_be_merged_and_pushed_without_force() {
    let mut settings = config();
    settings.branches[0].sync = SyncStrategy::Merge;
    settings.branches[0].push = PushStrategy::Normal;
    let (_, log) = run(settings, |request, _| calm(request));
    assert!(log.contains(&"merge upstream/main".to_string()));
    assert!(log.contains(&"push origin my/one".to_string()));
}

#[test]
fn lists_of_allowed_paths_add_up() {
    let left = vec!["src".to_string()];
    let right = vec!["docs/".to_string()];
    let both = vec!["src".to_string(), "docs/".to_string()];
    for path in ["src/a", "docs/b", "docs", "tests/c", "src2/d"] {
        assert_eq!(
            path_is_allowed(path, &both),
            path_is_allowed(path, &left) || path_is_allowed(path, &right),
            "{}",
            path
        );
    }
}
