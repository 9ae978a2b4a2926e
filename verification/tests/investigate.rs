use termiters::calls::git::GitCall;
use termiters::calls::model::{DecisionKind, ModelCall};
use termiters::calls::notify::NotifyCall;
use termiters::calls::protect::ProtectionCall;
use termiters::calls::signal::SignalCall;
use termiters::calls::{Request, Tree};
use termiters::config::{
    AutoResolveConfig, BranchConfig, Config, LlmConfig, LlmProvider, NotifyConfig, PromptConfig,
    ProtectionAutomation, ProtectionConfig, PushStrategy, RepoConfig, SyncStrategy,
};
use termiters::digest::hex_digest;
use termiters::fault::Fault;
use termiters::journal::{Halt, Journal, Reply};
use termiters::protection::dependency::graph::{
    CargoPackageCoordinate, CargoReachabilitySnapshot,
};
use termiters::protection::investigate::candidate::configured_test_branch;
use termiters::protection::investigate::files::{
    candidate_path_allowed, read_selected_files, tracked_regular_files, validate_candidate_changes,
};
use termiters::protection::investigate::investigate_security_signal;
use termiters::protection::investigate::policy::{
    configured_project_name, dependency_evidence, requires_remediation,
};
use termiters::protection::types::{
    CandidateChange, CommitSecurityReviewBatch, DeliveryDraft, FindingState, FixContract,
    RemediationAction, SecurityCategory, SecurityConfidence, SecurityContractVerificationDecision,
    SecurityDisposition, SecurityReviewDecision, SecuritySeverity, SignalFileSelection,
    SignalInvestigationDecision,
};
use termiters::repo::{CommandOutput, FileFacts};
use termiters::text::Lines;

fn branch() -> BranchConfig {
    BranchConfig {
        name: "main".to_string(),
        kind: "product".to_string(),
        note: None,
        sync: SyncStrategy::Rebase,
        push: PushStrategy::Skip,
        tests: vec!["cargo test".to_string()],
        require_behavioral_tests: false,
        behavioral_tests: true,
        auto_resolve: AutoResolveConfig {
            enabled: false,
            allowed_paths: Vec::new(),
            max_conflict_files: 0,
            max_file_bytes: 0,
            max_rounds: 0,
            require_tests: false,
        },
    }
}

fn config() -> Config {
    Config {
        repo: RepoConfig {
            path: "/repo/app".to_string(),
            fork: "git@github.com:me/app.git".to_string(),
            upstream_remote: "upstream".to_string(),
            fork_remote: "origin".to_string(),
            base_branch: "main".to_string(),
        },
        branches: vec![branch()],
        llm: Some(LlmConfig {
            enabled: true,
            provider: LlmProvider::DeepSeek,
            base_url: None,
            api_key_env: "KEY".to_string(),
            model: "chat".to_string(),
            timeout_seconds: 5,
            max_retries: 0,
            max_prompt_bytes: 1_000_000,
            prompts: PromptConfig {
                conflict_system: None,
                conflict_user: None,
                auto_resolve_system: None,
                auto_resolve_user: None,
                sync_summary_system: None,
                sync_summary_user: None,
            },
        }),
        notify: NotifyConfig {
            sync_start: false,
            sync_summary: false,
        },
        protection: ProtectionConfig {
            enabled: true,
            project_name: " ".to_string(),
            project_description: "desc".to_string(),
            profiles: Vec::new(),
            automation: ProtectionAutomation::Candidate,
        },
        data_dir: "/data".to_string(),
    }
}

fn review() -> SecurityReviewDecision {
    SecurityReviewDecision {
        security_fix_detected: true,
        introduced_risk: false,
        severity: SecuritySeverity::P1,
        categories: Vec::new(),
        affected: Some(true),
        production_reachable: None,
        confidence: SecurityConfidence::Medium,
        summary: "bad".to_string(),
        mechanism: "how".to_string(),
        evidence: vec!["src/lib.rs".to_string()],
        fix_contract: Some(FixContract {
            security_property: "p".to_string(),
            vulnerable_behavior: "v".to_string(),
            fixed_behavior: "f".to_string(),
            attack_preconditions: Vec::new(),
            regression_cases: vec!["case".to_string()],
        }),
    }
}

fn decision() -> SignalInvestigationDecision {
    SignalInvestigationDecision {
        review: review(),
        affected_packages: vec!["Used_Pkg".to_string()],
        recommended_action: RemediationAction::LocalSecurityPatch,
        candidate_summary: "patch it".to_string(),
        changes: vec![CandidateChange {
            path: "src/lib.rs".to_string(),
            content: "fixed".to_string(),
            reason: "r".to_string(),
        }],
    }
}

#[test]
fn candidate_paths_reject_credentials_and_automation() {
    assert!(candidate_path_allowed("src/main.rs"));
    assert!(!candidate_path_allowed("../src/main.rs"));
    assert!(!candidate_path_allowed(".github/workflows/release.yml"));
    assert!(!candidate_path_allowed("deploy/credentials.json"));
    assert!(!candidate_path_allowed("termite.yml"));
}

#[test]
fn candidate_paths_stay_in_the_project() {
    for path in [
        "/etc/passwd",
        "a/../../b",
        "a\\..\\b",
        ".git/config",
        ".Git/config",
        ".env",
        "config/.env.local",
        "prod.ENV",
        "conf/termiters.yml",
        "src/Secrets.rs",
    ] {
        assert!(!candidate_path_allowed(path), "{}", path);
    }
    for path in ["./a", "a..b", ".gitignore", "environment.rs"] {
        assert!(candidate_path_allowed(path), "{}", path);
    }
}

#[test]
fn severe_or_universal_weaknesses_call_for_action() {
    let mut settings = config();
    let mut judged = review();
    assert!(requires_remediation(&settings, &judged));
    judged.affected = Some(false);
    assert!(!requires_remediation(&settings, &judged));
    judged.affected = None;
    judged.severity = SecuritySeverity::P2;
    assert!(!requires_remediation(&settings, &judged));
    settings.protection.profiles = vec!["strict".to_string()];
    assert!(requires_remediation(&settings, &judged));
    settings.protection.profiles = Vec::new();
    judged.severity = SecuritySeverity::Informational;
    judged.categories = vec![SecurityCategory::Other, SecurityCategory::ResourceExhaustion];
    assert!(!requires_remediation(&settings, &judged));
    judged.categories.push(SecurityCategory::PathTraversal);
    assert!(requires_remediation(&settings, &judged));
}

#[test]
fn names_of_packages_are_compared_without_case_and_underscores() {
    let package = |name: &str, version: &str| CargoPackageCoordinate {
        name: name.to_string(),
        version: version.to_string(),
        source: "s".to_string(),
    };
    let snapshot = Some(CargoReachabilitySnapshot {
        roots: Vec::new(),
        reachable_packages: vec![package("used-pkg", "1.0.0"), package("Used_pkg", "2.0.0")],
        ambiguous_edges: vec!["x".to_string()],
    });
    let claimed = vec![" USED_PKG ".to_string(), "gone".to_string()];
    assert_eq!(
        dependency_evidence(&claimed, &snapshot),
        vec![
            "程序化依赖证据： USED_PKG  进入 Cargo.lock 根包依赖闭包，版本 1.0.0,2.0.0；这不等同于生产运行时可达",
            "程序化依赖证据：gone 不在 Cargo.lock 根包依赖闭包中",
            "程序化依赖证据：存在 1 条无法唯一解析的锁文件边，按保守结果处理",
        ]
    );
    assert_eq!(
        dependency_evidence(&claimed, &None),
        vec!["程序化依赖证据：项目没有可解析的 Cargo.lock 依赖图"]
    );
    assert!(dependency_evidence(&Vec::new(), &snapshot).is_empty());
}

#[test]
fn the_project_is_named_by_its_settings_or_its_directory() {
    let mut settings = config();
    assert_eq!(configured_project_name(&settings), "app");
    settings.protection.project_name = " Named ".to_string();
    assert_eq!(configured_project_name(&settings), "Named");
    settings.protection.project_name = String::new();
    settings.repo.path = "/".to_string();
    assert_eq!(configured_project_name(&settings), "protected-project");
}

#[test]
fn candidates_are_tested_on_the_branch_that_is_asked_for() {
    let mut settings = config();
    assert_eq!(configured_test_branch(&settings, None).unwrap().name, "main");
    assert_eq!(
        configured_test_branch(&settings, Some("main")).unwrap().name,
        "main"
    );
    assert_eq!(
        configured_test_branch(&settings, Some("x"))
            .unwrap_err()
            .text(),
        "未配置候选测试分支：x"
    );
    settings.branches = Vec::new();
    assert_eq!(
        configured_test_branch(&settings, None).unwrap_err().text(),
        "未配置可用于安全候选的分支测试"
    );
}

fn output(status: i32, stdout: &str) -> Reply {
    Reply::Output(CommandOutput {
        status,
        stdout: stdout.to_string(),
        stderr: if status == 0 { "" } else { " broke \n" }.to_string(),
    })
}

fn fault_of<T>(result: Result<T, Halt<'_>>) -> String {
    match result {
        Err(Halt::Fail(fault)) => fault.text(),
        _ => panic!("expected a fault"),
    }
}

#[test]
fn files_that_git_lists_are_offered() {
    let replies = vec![output(0, "src/lib.rs\0.env\0README.md\0")];
    let mut journal = Journal::new(&replies);
    match tracked_regular_files(&mut journal) {
        Ok(files) => assert_eq!(files.list, vec!["src/lib.rs", "README.md"]),
        Err(_) => panic!("expected files"),
    }
    let replies = vec![output(1, "")];
    let mut journal = Journal::new(&replies);
    assert_eq!(
        fault_of(tracked_regular_files(&mut journal)),
        "无法枚举 Git 跟踪文件"
    );
    let replies = vec![output(0, &"a\0".repeat(10_001))];
    let mut journal = Journal::new(&replies);
    assert_eq!(
        fault_of(tracked_regular_files(&mut journal)),
        "Git 跟踪文件超过取证上限"
    );
}

fn regular() -> Reply {
    Reply::Facts(FileFacts {
        is_file: true,
        is_symlink: false,
    })
}

#[test]
fn chosen_files_are_checked_before_they_are_read() {
    let offered = Lines {
        list: vec!["a.rs".to_string(), "b.rs".to_string(), ".env".to_string()],
    };
    let read = |paths: &[&str], replies: Vec<Reply>| {
        let selection = SignalFileSelection {
            paths: paths.iter().map(|p| p.to_string()).collect(),
            rationale: String::new(),
        };
        let mut journal = Journal::new(&replies);
        match read_selected_files(&offered, &selection, &mut journal) {
            Ok(evidence) => Ok(evidence.files),
            Err(Halt::Fail(fault)) => Err(fault.chain),
            Err(Halt::Ask(_)) => panic!("the run asks"),
        }
    };
    let bytes = |size: usize| Reply::Bytes(vec![b'x'; size]);
    assert_eq!(
        read(&["a.rs"], vec![regular(), Reply::Flag(true), bytes(2)]).unwrap(),
        vec![("a.rs".to_string(), "xx".to_string())]
    );
    assert_eq!(read(&[], vec![]).unwrap_err(), vec!["DS 没有选择任何可审计文件"]);
    assert_eq!(read(&["c.rs"], vec![]).unwrap_err(), vec!["DS 选择了未授权文件：c.rs"]);
    assert_eq!(read(&[".env"], vec![]).unwrap_err(), vec!["受保护路径不能进入候选：.env"]);
    assert_eq!(
        read(&["a.rs"], vec![Reply::Failed(Fault::of("gone"))]).unwrap_err(),
        vec!["无法读取候选文件元数据：a.rs", "gone"]
    );
    assert_eq!(
        read(
            &["a.rs"],
            vec![Reply::Facts(FileFacts {
                is_file: true,
                is_symlink: true
            })]
        )
        .unwrap_err(),
        vec!["候选文件必须是普通文件：a.rs"]
    );
    assert_eq!(
        read(&["a.rs"], vec![regular(), Reply::Flag(false)]).unwrap_err(),
        vec!["候选文件越过仓库边界：a.rs"]
    );
    assert_eq!(
        read(&["a.rs"], vec![regular(), Reply::Flag(true), bytes(49_153)]).unwrap_err(),
        vec!["取证文件超过 48 KiB：a.rs"]
    );
    assert_eq!(
        read(
            &["a.rs", "b.rs"],
            vec![
                regular(),
                Reply::Flag(true),
                bytes(40_000),
                regular(),
                Reply::Flag(true),
                bytes(40_000)
            ]
        )
        .unwrap_err(),
        vec!["取证文件总量超过 64 KiB"]
    );
    let broken = read(
        &["a.rs"],
        vec![regular(), Reply::Flag(true), Reply::Bytes(vec![0xff])],
    )
    .unwrap_err();
    assert_eq!(broken[0], "取证文件不是 UTF-8：a.rs");
    assert_eq!(broken.len(), 2);
}

#[test]
fn changes_are_checked_one_by_one() {
    let offered = Lines {
        list: vec!["a.rs".to_string(), "b.rs".to_string()],
    };
    let change = |path: &str, size: usize| CandidateChange {
        path: path.to_string(),
        content: "x".repeat(size),
        reason: String::new(),
    };
    let safe = || vec![regular(), Reply::Flag(true)];
    let check = |changes: Vec<CandidateChange>, replies: Vec<Reply>| {
        let mut journal = Journal::new(&replies);
        match validate_candidate_changes(&offered, &changes, &mut journal) {
            Ok(()) => String::new(),
            Err(Halt::Fail(fault)) => fault.text(),
            Err(Halt::Ask(_)) => panic!("the run asks"),
        }
    };
    assert_eq!(check(vec![change("a.rs", 1)], safe()), "");
    assert_eq!(
        check(vec![change("c.rs", 1)], vec![]),
        "候选试图修改未授权文件：c.rs"
    );
    assert_eq!(
        check(vec![change("a.rs", 1), change("a.rs", 1)], safe()),
        "候选重复修改文件：a.rs"
    );
    let mut twice = safe();
    twice.extend(safe());
    assert_eq!(
        check(
            vec![change("a.rs", 786_432), change("b.rs", 1)],
            twice
        ),
        "候选文件总量超过 768 KiB"
    );
}

fn label(request: &Request<'_>) -> String {
    match request {
        Request::Git(tree, call) => {
            let place = if *tree == Tree::Main { "main" } else { "work" };
            let what = match call {
                GitCall::EnsureRepo => "repo".to_string(),
                GitCall::Run { args } => args.join(" "),
                GitCall::WriteFile { path, content } => format!("write {} {}", path, content),
                GitCall::Test { command, sandboxed } => format!("test {} {}", command, sandboxed),
                GitCall::RangePatch { from, to, limit } => {
                    format!("range {}..{} {}", from, to, limit)
                }
                _ => "call".to_string(),
            };
            format!("{} {}", place, what)
        }
        Request::Signal(call) => match call {
            SignalCall::ReadLock => "lock".to_string(),
            SignalCall::Inspect { path } => format!("inspect {}", path),
            SignalCall::IsInside { path } => format!("inside {}", path),
            SignalCall::Read { path } => format!("read {}", path),
            SignalCall::OpenStore => "store".to_string(),
            SignalCall::Now => "now".to_string(),
            SignalCall::NewId => "id".to_string(),
            SignalCall::SaveSignal { signal } => format!("signal {}", signal.id),
            SignalCall::SaveFinding { finding } => format!("finding {:?}", finding.state),
            SignalCall::SavePlan { plan } => format!("plan {}", plan.requirements.join(",")),
            SignalCall::SaveCandidate { candidate } => format!("candidate {}", candidate.summary),
            SignalCall::SaveVerification { verification } => {
                format!("verification {}", verification.passed)
            }
            SignalCall::PrepareWorktree { worktree } => format!("prepare {}", worktree),
            SignalCall::WorktreeIsDir { .. } => "is dir".to_string(),
            SignalCall::Draft { remote, .. } => format!("draft {}", remote),
            SignalCall::SaveDraft { .. } => "save draft".to_string(),
        },
        Request::Model(ModelCall::ApiKey { .. }) => "key".to_string(),
        Request::Model(ModelCall::Post { .. }) => "post".to_string(),
        Request::Model(ModelCall::Decode { kind, .. }) => match kind {
            DecisionKind::FileSelection => "select".to_string(),
            _ => "investigate".to_string(),
        },
        Request::Protection(_, call) => match call {
            ProtectionCall::Gate => "gate".to_string(),
            ProtectionCall::Reviews { from, to } => format!("reviews {}..{}", from, to),
            ProtectionCall::CanProceed { .. } => "proceed".to_string(),
            ProtectionCall::VerifyContracts { output, .. } => format!("contracts {}", output),
            ProtectionCall::VerifySignalContract { evaluated, .. } => format!(
                "signal contract {} {} {}",
                evaluated.project, evaluated.reviews[0].commit, evaluated.reviews[0].policy_fingerprint
            ),
            ProtectionCall::PolicyFingerprint => "fingerprint".to_string(),
            ProtectionCall::ReleaseTag { .. } => "tag".to_string(),
        },
        Request::Notify(NotifyCall::Alert { subject, body }) => {
            format!("alert {} {}", subject, body)
        }
        _ => "other".to_string(),
    }
}

fn reply(request: &Request<'_>) -> Reply {
    match label(request).as_str() {
        "main ls-files -z" => output(0, "src/lib.rs\0Cargo.toml\0"),
        "lock" => Reply::Maybe(None),
        "key" => Reply::Text("k".to_string()),
        "post" => Reply::Text("{\"choices\":[{\"message\":{\"content\":\"{}\"}}]}".to_string()),
        "select" => Reply::Selection(SignalFileSelection {
            paths: vec!["src/lib.rs".to_string()],
            rationale: "r".to_string(),
        }),
        "inspect src/lib.rs" => regular(),
        "inside src/lib.rs" => Reply::Flag(true),
        "read src/lib.rs" => Reply::Bytes(b"code".to_vec()),
        "investigate" => Reply::Investigation(decision()),
        "now" => Reply::Text("T".to_string()),
        "id" => Reply::Text("7".to_string()),
        l if l.starts_with("alert") => Reply::Flag(true),
        "main rev-parse HEAD" => output(0, "base\n"),
        l if l.starts_with("main worktree add") => output(0, ""),
        "work status --porcelain" => output(0, " M src/lib.rs\n"),
        "work rev-parse HEAD" => output(0, "head\n"),
        l if l.starts_with("work diff") || l.starts_with("work add") || l.starts_with("work -c") => {
            output(0, "")
        }
        l if l.starts_with("reviews") => Reply::Reviews(Some(CommitSecurityReviewBatch {
            project: "app".to_string(),
            from: "base".to_string(),
            to: "HEAD".to_string(),
            reviews: Vec::new(),
            disposition: SecurityDisposition::Allow,
            cache_hits: 0,
        })),
        l if l.starts_with("work test") => output(0, "ok"),
        l if l.starts_with("contracts") => Reply::Contracts(Vec::new()),
        "fingerprint" => Reply::Text("fp".to_string()),
        l if l.starts_with("signal contract") => {
            Reply::Contracts(vec![SecurityContractVerificationDecision {
                security_property_present: true,
                vulnerable_behavior_removed: true,
                regression_evidence_present: true,
                confidence: SecurityConfidence::High,
                summary: "s".to_string(),
                evidence: vec!["e1".to_string(), "e2".to_string()],
                missing_regressions: Vec::new(),
            }])
        }
        l if l.starts_with("work range") => Reply::Text("patch".to_string()),
        "is dir" => Reply::Flag(true),
        "work log -1 --pretty=%s" => output(0, "security candidate\n"),
        "work show --format= --patch HEAD" => output(0, "shown"),
        l if l.starts_with("draft") => Reply::Draft(Some(DeliveryDraft {
            document: "d".to_string(),
        })),
        _ => Reply::Done,
    }
}

struct Outcome {
    error: Option<String>,
    state: Option<FindingState>,
    build_allowed: bool,
    passed: Option<bool>,
    digest: Option<String>,
    evidence: Vec<String>,
    candidate_error: Option<String>,
    sent: bool,
    notification_error: Option<String>,
    draft: bool,
    log: Vec<String>,
}

fn drive<F>(settings: &Config, mut answer: F) -> Outcome
where
    F: FnMut(&Request<'_>) -> Reply,
{
    let mut replies = Vec::new();
    let mut log: Vec<String> = Vec::new();
    loop {
        let next = match investigate_security_signal(
            settings,
            "heard of it",
            None,
            "text",
            None,
            &replies,
        ) {
            Ok(found) => {
                return Outcome {
                    error: None,
                    state: Some(found.finding.state),
                    build_allowed: found.finding.build_allowed,
                    passed: found.verification.as_ref().map(|v| v.passed),
                    digest: found.candidate.as_ref().map(|c| c.content_sha256.clone()),
                    evidence: found
                        .verification
                        .map(|v| v.evidence)
                        .unwrap_or_default(),
                    candidate_error: found.candidate_error,
                    sent: found.notification_sent,
                    notification_error: found.notification_error,
                    draft: found.issue_draft.is_some(),
                    log,
                }
            }
            Err(Halt::Fail(fault)) => {
                return Outcome {
                    error: Some(fault.text()),
                    state: None,
                    build_allowed: false,
                    passed: None,
                    digest: None,
                    evidence: Vec::new(),
                    candidate_error: None,
                    sent: false,
                    notification_error: None,
                    draft: false,
                    log,
                }
            }
            Err(Halt::Ask(request)) => {
                log.push(label(&request));
                answer(&request)
            }
        };
        replies.push(next);
    }
}

#[test]
fn a_signal_leads_to_a_verified_candidate_and_a_draft() {
    let outcome = drive(&config(), reply);
    let json = "[\"app\",\"heard of it\",null,\"text\"]";
    let dedupe = hex_digest(json.as_bytes());
    assert_eq!(
        outcome.log,
        vec![
            "main repo".to_string(),
            "main ls-files -z".to_string(),
            "lock".to_string(),
            "key".to_string(),
            "post".to_string(),
            "select".to_string(),
            "inspect src/lib.rs".to_string(),
            "inside src/lib.rs".to_string(),
            "read src/lib.rs".to_string(),
            "key".to_string(),
            "post".to_string(),
            "investigate".to_string(),
            "store".to_string(),
            "now".to_string(),
            format!("signal signal-user-{}", &dedupe[..32]),
            "finding Affected".to_string(),
            "plan case".to_string(),
            "alert app 安全消息告警 heard of it\n\n判断：bad\n严重性：p1\n引用：无\n\nTermiteRS 尚未推送、发布或部署任何修改。".to_string(),
            "id".to_string(),
            "inspect src/lib.rs".to_string(),
            "inside src/lib.rs".to_string(),
            "prepare /data/protection/worktrees/candidate-7".to_string(),
            "main rev-parse HEAD".to_string(),
            "main worktree add --detach /data/protection/worktrees/candidate-7 base".to_string(),
            "work write src/lib.rs fixed".to_string(),
            "work diff --check".to_string(),
            "work status --porcelain".to_string(),
            "gate".to_string(),
            "work add --all".to_string(),
            "work -c user.name=TermiteRS Candidate -c user.email=termiters@localhost commit -m security candidate".to_string(),
            "reviews base..HEAD".to_string(),
            "proceed".to_string(),
            "work test cargo test true".to_string(),
            "contracts $ cargo test\nok\n\n".to_string(),
            "work rev-parse HEAD".to_string(),
            "fingerprint".to_string(),
            "signal contract app head fp".to_string(),
            "work range base..HEAD 786432".to_string(),
            "now".to_string(),
            "candidate patch it".to_string(),
            "verification true".to_string(),
            "now".to_string(),
            "finding AwaitingDelivery".to_string(),
            "draft git@github.com:me/app.git".to_string(),
            "save draft".to_string(),
        ]
    );
    assert_eq!(outcome.state, Some(FindingState::AwaitingDelivery));
    assert_eq!(outcome.passed, Some(true));
    assert_eq!(outcome.digest, Some(hex_digest(b"patch")));
    assert_eq!(outcome.evidence, vec!["e1", "e2"]);
    assert!(outcome.sent);
    assert!(outcome.draft);
    assert!(!outcome.build_allowed);
}

#[test]
fn a_candidate_that_fails_is_kept_as_failed() {
    let outcome = drive(&config(), |request| {
        if label(request).starts_with("work test") {
            output(1, "")
        } else {
            reply(request)
        }
    });
    assert_eq!(outcome.state, Some(FindingState::Affected));
    assert_eq!(outcome.passed, Some(false));
    assert_eq!(outcome.digest, Some(hex_digest(b"shown")));
    assert_eq!(
        outcome.candidate_error,
        Some("安全候选沙箱测试失败：cargo test\nbroke".to_string())
    );
    assert!(outcome.log.contains(
        &"candidate 候选未通过门禁：patch it；安全候选沙箱测试失败：cargo test\nbroke".to_string()
    ));
    assert!(outcome.log.contains(&"verification false".to_string()));
}

#[test]
fn every_step_of_a_candidate_can_fail_it() {
    for (step, answer, message) in [
        ("main worktree add", 1, "创建安全候选 worktree 失败：broke"),
        ("work diff --check", 1, "安全候选格式检查失败：broke"),
        ("work status", 0, "DS 候选没有产生文件修改"),
        ("work -c", 1, "提交隔离候选失败：broke"),
    ] {
        let outcome = drive(&config(), |request| {
            if label(request).starts_with(step) {
                output(answer, "")
            } else if label(request) == "is dir" {
                Reply::Flag(false)
            } else {
                reply(request)
            }
        });
        assert_eq!(outcome.candidate_error, Some(message.to_string()));
        assert_eq!(outcome.digest, Some(hex_digest(b"")));
        assert_eq!(outcome.passed, Some(false));
    }
    let outcome = drive(&config(), |request| {
        if label(request).starts_with("reviews") {
            Reply::Reviews(None)
        } else if label(request).starts_with("work log") {
            Reply::Failed(Fault::of("git is gone"))
        } else if label(request) == "work diff --patch HEAD" {
            output(0, "open")
        } else {
            reply(request)
        }
    });
    assert_eq!(
        outcome.candidate_error,
        Some("安全候选提交没有可审计差异".to_string())
    );
    assert_eq!(outcome.digest, Some(hex_digest(b"open")));
}

fn judged(change: fn(&mut SignalInvestigationDecision), settings: &Config) -> Outcome {
    drive(settings, |request| {
        if label(request) == "investigate" {
            let mut found = decision();
            change(&mut found);
            Reply::Investigation(found)
        } else {
            reply(request)
        }
    })
}

#[test]
fn candidates_need_changes_contracts_and_tests() {
    let outcome = judged(|d| d.changes.clear(), &config());
    assert_eq!(
        outcome.candidate_error,
        Some("当前项目需要修复，但 DS 没有给出候选修改".to_string())
    );
    let outcome = judged(|d| d.review.fix_contract = None, &config());
    assert_eq!(
        outcome.candidate_error,
        Some("安全候选缺少 FixContract".to_string())
    );
    let mut settings = config();
    settings.branches[0].tests = Vec::new();
    assert_eq!(
        drive(&settings, reply).candidate_error,
        Some("安全候选没有配置任何沙箱测试命令".to_string())
    );
    let mut settings = config();
    settings.branches[0].behavioral_tests = false;
    assert_eq!(
        drive(&settings, reply).candidate_error,
        Some("安全候选至少需要一条行为测试命令".to_string())
    );
}

#[test]
fn an_unaffected_project_may_be_built() {
    let outcome = judged(|d| d.review.affected = Some(false), &config());
    assert_eq!(outcome.state, Some(FindingState::Unaffected));
    assert!(outcome.build_allowed);
    assert_eq!(outcome.passed, None);
    assert!(!outcome.sent);
    let outcome = judged(
        |d| {
            d.review.affected = None;
            d.review.severity = SecuritySeverity::P3;
        },
        &config(),
    );
    assert_eq!(outcome.state, Some(FindingState::Uncertain));
    assert!(!outcome.build_allowed);
}

#[test]
fn without_automation_no_candidate_is_built() {
    let mut settings = config();
    settings.protection.automation = ProtectionAutomation::Observe;
    let outcome = drive(&settings, |request| {
        if label(request).starts_with("alert") {
            Reply::Failed(Fault::of("mail is down"))
        } else if label(request).starts_with("draft") {
            Reply::Draft(None)
        } else {
            reply(request)
        }
    });
    assert_eq!(outcome.state, Some(FindingState::Affected));
    assert_eq!(outcome.passed, None);
    assert!(!outcome.sent);
    assert_eq!(outcome.notification_error, Some("mail is down".to_string()));
    assert!(!outcome.draft);
    assert!(!outcome.log.contains(&"id".to_string()));
}

#[test]
fn messages_that_cannot_be_investigated_are_refused() {
    let replies = Vec::new();
    let ask = |settings: &Config, summary: &str, content: &str| {
        match investigate_security_signal(settings, summary, None, content, None, &replies) {
            Err(Halt::Fail(fault)) => fault.text(),
            _ => panic!("expected a fault"),
        }
    };
    let mut off = config();
    off.protection.enabled = false;
    assert_eq!(ask(&off, "s", "c"), "安全消息调查要求启用 protection");
    assert_eq!(ask(&config(), " ", "c"), "安全消息摘要不能为空");
    assert_eq!(
        ask(&config(), "s", &"x".repeat(65_537)),
        "安全消息正文超过 64 KiB"
    );
}

#[test]
fn lock_files_and_a_model_are_needed() {
    let outcome = drive(&config(), |request| {
        if label(request) == "lock" {
            Reply::Maybe(Some("version = 4".to_string()))
        } else {
            reply(request)
        }
    });
    assert_eq!(
        outcome.error,
        Some("Cargo.lock 中没有可识别的本地根包".to_string())
    );
    let mut settings = config();
    settings.llm = None;
    assert_eq!(
        drive(&settings, reply).error,
        Some("DS 未返回安全消息取证文件选择".to_string())
    );
    let outcome = drive(&config(), |request| {
        if label(request) == "lock" {
            Reply::Maybe(Some(
                "[[package]]\nname = \"app\"\nversion = \"1.0.0\"\ndependencies = [\"used-pkg\"]\n[[package]]\nname = \"used-pkg\"\nversion = \"3.0.0\"\nsource = \"s\"\n".to_string(),
            ))
        } else {
            reply(request)
        }
    });
    assert_eq!(outcome.error, None);
}

#[test]
fn a_message_that_is_reported_again_has_the_same_ids() {
    let run = |settings: &Config, time: &str, reference: Option<&str>| {
        let mut replies = Vec::new();
        loop {
            let next = match investigate_security_signal(
                settings,
                "heard of it",
                reference,
                "text",
                None,
                &replies,
            ) {
                Ok(found) => {
                    return (
                        vec![
                            found.signal.id,
                            found.finding.id,
                            found.plan.id,
                            found.signal.dedupe_key,
                            found.finding.dedupe_key,
                        ],
                        found.signal.reference,
                    )
                }
                Err(Halt::Fail(fault)) => panic!("{}", fault.text()),
                Err(Halt::Ask(Request::Archive(_))) => panic!("an archive is fetched"),
                Err(Halt::Ask(request)) => match label(&request).as_str() {
                    "now" => Reply::Text(time.to_string()),
                    _ => reply(&request),
                },
            };
            replies.push(next);
        }
    };
    let address = "https://example.invalid/advisory";
    let mut quiet = config();
    quiet.protection.automation = ProtectionAutomation::Observe;
    let first = run(&config(), "T1", Some(address));
    let second = run(&quiet, "T2", Some(address));
    assert_eq!(first, second);
    assert_eq!(first.1, Some(address.to_string()));
    let digest = hex_digest(
        format!("[\"app\",\"heard of it\",\"{}\",\"text\"]", address).as_bytes(),
    );
    assert_eq!(
        first.0,
        vec![
            format!("signal-user-{}", &digest[..32]),
            format!("finding-user-{}", &digest[..32]),
            format!("plan-user-{}", &digest[..32]),
            format!("user-report:{}", digest),
            format!("finding-user:{}", digest),
        ]
    );
    assert_ne!(first.0, run(&config(), "T1", None).0);
}
