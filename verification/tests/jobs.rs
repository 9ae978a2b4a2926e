use termiters::calls::conflict::ConflictCall;
use termiters::calls::git::GitCall;
use termiters::calls::job::JobCall;
use termiters::calls::model::ModelCall;
use termiters::calls::notify::NotifyCall;
use termiters::calls::{Request, Tree};
use termiters::config::{
    AutoResolveConfig, BranchConfig, Config, LlmConfig, LlmProvider, NotifyConfig, PromptConfig,
    ProtectionAutomation, ProtectionConfig, PushStrategy, RepoConfig, SyncStrategy,
};
use termiters::fault::Fault;
use termiters::journal::{Halt, Reply};
use termiters::llm::types::{AutoResolveDecision, ConflictOption, ConflictOptionsDecision};
use termiters::repo::{
    AutoResolvedSync, CapturedConflict, CommandOutput, ConflictBlocks, ConflictFileContent,
    ConflictSnapshot, ResolvedFile,
};
use termiters::report::{BranchReport, BranchStatus};
use termiters::service::jobs::report::{
    push_report_items, render_completed_sync_report, should_notify_completion,
    CompletedSyncReportData,
};
use termiters::service::jobs::{worktree_path, ServiceState};
use termiters::service::types::JobView;

fn branch() -> BranchConfig {
    BranchConfig {
        name: "my/project".to_string(),
        kind: "product".to_string(),
        note: Some("个人自用主分支".to_string()),
        sync: SyncStrategy::Rebase,
        push: PushStrategy::ForceWithLease,
        tests: vec!["cargo test".to_string()],
        require_behavioral_tests: false,
        behavioral_tests: true,
        auto_resolve: AutoResolveConfig {
            enabled: true,
            allowed_paths: vec!["src".to_string()],
            max_conflict_files: 2,
            max_file_bytes: 100,
            max_rounds: 2,
            require_tests: false,
        },
    }
}

fn config() -> Config {
    Config {
        repo: RepoConfig {
            path: ".".to_string(),
            fork: "fork".to_string(),
            upstream_remote: "upstream".to_string(),
            fork_remote: "origin".to_string(),
            base_branch: "master".to_string(),
        },
        branches: Vec::new(),
        llm: Some(LlmConfig {
            enabled: true,
            provider: LlmProvider::DeepSeek,
            base_url: None,
            api_key_env: "KEY".to_string(),
            model: "chat".to_string(),
            timeout_seconds: 5,
            max_retries: 0,
            max_prompt_bytes: 100_000,
            prompts: PromptConfig {
                conflict_system: None,
                conflict_user: None,
                auto_resolve_system: None,
                auto_resolve_user: None,
                sync_summary_system: None,
                sync_summary_user: None,
            },
        }),
        notify: NotifyConfig {
            sync_start: false,
            sync_summary: true,
        },
        protection: ProtectionConfig {
            enabled: true,
            project_name: String::new(),
            project_description: String::new(),
            profiles: Vec::new(),
            automation: ProtectionAutomation::Observe,
        },
        data_dir: "/data".to_string(),
    }
}

fn job() -> JobView {
    JobView {
        base_ref: "upstream/master".to_string(),
        before_head: "1111111111111111".to_string(),
        base_head: "2222222222222222".to_string(),
        remote_head: "3333333333333333".to_string(),
    }
}

fn output(status: i32, stdout: &str) -> Reply {
    Reply::Output(CommandOutput {
        status,
        stdout: stdout.to_string(),
        stderr: if status == 0 { "" } else { " broke \n" }.to_string(),
    })
}

fn text(value: &str) -> Reply {
    Reply::Text(value.to_string())
}

fn label(request: &Request<'_>) -> String {
    match request {
        Request::Job(call) => match call {
            JobCall::SetState { state, summary } => format!("state {} {}", state, summary),
            JobCall::Settings => "settings".to_string(),
            JobCall::Branch { name } => format!("branch {}", name),
            JobCall::Lock => "lock".to_string(),
            JobCall::Unlock => "unlock".to_string(),
            JobCall::Doctor => "doctor".to_string(),
            JobCall::Load => "load".to_string(),
            JobCall::WorktreeExists { path } => format!("exists {}", path),
            JobCall::OptionalRef { reference } => format!("ref {}", reference),
            JobCall::SaveHeads { heads } => format!(
                "heads {} {} {} {} {}",
                heads.worktree_path,
                heads.base_ref,
                heads.before_head,
                heads.base_head,
                heads.remote_head
            ),
            JobCall::SaveTestOutput { output } => format!("output {}", output),
            JobCall::SaveFailure {
                state,
                summary,
                printed,
            } => {
                format!("failure {} {} {:?}", state, summary, printed)
            }
            JobCall::SaveConflict { .. } => "conflict".to_string(),
            JobCall::SaveGuidance {
                state,
                risk,
                summary,
                options,
            } => format!("guidance {} {} {} {}", state, risk, summary, options.is_some()),
            JobCall::Emit { kind, message } => format!("emit {} {}", kind, message),
            JobCall::NotifyOnce {
                event,
                subject,
                body,
            } => format!("notify {} {} {}", event, subject, body),
            JobCall::RemoveWorktree => "remove".to_string(),
            JobCall::CleanupWorktree => "cleanup".to_string(),
            JobCall::RunTests { before_head, .. } => format!("tests {}", before_head),
            JobCall::PushJob { .. } => "push".to_string(),
            JobCall::WasNotified => "notified".to_string(),
            JobCall::RecordNotified => "record".to_string(),
        },
        Request::Git(tree, call) => {
            let place = if *tree == Tree::Main { "main" } else { "work" };
            let what = match call {
                GitCall::Run { args } => args.join(" "),
                GitCall::Rebase { base } => format!("rebase {}", base),
                GitCall::WriteFile { path, .. } => format!("write {}", path),
                GitCall::AddFile { path } => format!("add {}", path),
                GitCall::Continue { .. } => "continue".to_string(),
                GitCall::Abort => "abort".to_string(),
                GitCall::RemoteHead { .. } => "remote head".to_string(),
                GitCall::MergeBase { .. } => "merge base".to_string(),
                GitCall::Log { range, limit } => format!("log {} {}", range, limit),
                GitCall::ChangedFiles { range, limit } => format!("files {} {}", range, limit),
                GitCall::FetchAll => "fetch".to_string(),
                GitCall::PatchContext { .. } => "patch".to_string(),
                _ => "call".to_string(),
            };
            format!("{} {}", place, what)
        }
        Request::Conflict(call) => match call {
            ConflictCall::Blocks { .. } => "blocks".to_string(),
            ConflictCall::Resolve { .. } => "resolve".to_string(),
            ConflictCall::Validate { .. } => "validate".to_string(),
            ConflictCall::Capture { .. } => "capture".to_string(),
            ConflictCall::ContinueStaged { reason, .. } => format!("staged {}", reason),
        },
        Request::Notify(NotifyCall::Render { .. }) => "render".to_string(),
        Request::Notify(NotifyCall::NamedSummary {
            subject, summary, ..
        }) => format!("named {} {}", subject, summary),
        Request::Model(ModelCall::ApiKey { .. }) => "key".to_string(),
        Request::Model(ModelCall::Post { .. }) => "post".to_string(),
        Request::Model(ModelCall::Decode { .. }) => "decode".to_string(),
        _ => "other".to_string(),
    }
}

fn calm(request: &Request<'_>) -> Reply {
    match label(request).as_str() {
        "settings" => Reply::Settings(config()),
        l if l.starts_with("branch") => Reply::Branch(branch()),
        l if l.starts_with("exists") => Reply::Flag(false),
        l if l.starts_with("ref") => Reply::Maybe(Some("aaaa".to_string())),
        l if l.starts_with("main worktree add") => output(0, ""),
        "work rev-parse HEAD" => output(0, "4444444444444444\n"),
        "work rev-parse upstream/master" => output(0, "2222222222222222\n"),
        "main remote head" => Reply::Maybe(Some("3333333333333333".to_string())),
        "work rebase upstream/master" => output(0, ""),
        "load" => Reply::Job(job()),
        l if l.starts_with("tests") => text("ok"),
        "push" => Reply::Maybe(None),
        "work merge base" => Reply::Maybe(Some("0000".to_string())),
        l if l.starts_with("work rev-list") => output(0, " 31\n"),
        l if l.starts_with("work diff") => output(0, "a\n\nb\r\n"),
        l if l.starts_with("work log") => Reply::List(vec!["c1".to_string()]),
        l if l.starts_with("work files") => Reply::List(vec!["M a".to_string()]),
        "notified" => Reply::Flag(false),
        "render" => text("the report"),
        "key" => text("k"),
        "post" => text("{\"choices\":[{\"message\":{\"content\":\"{}\"}}]}"),
        l if l.starts_with("named") => Reply::Flag(true),
        "doctor" => text("healthy"),
        "work patch" => Reply::Failed(Fault::of("no patch")),
        _ => Reply::Done,
    }
}

fn drive<F>(notify_on_noop: bool, mut reply: F) -> Vec<String>
where
    F: FnMut(&Request<'_>) -> Reply,
{
    let state = ServiceState::new("/data".to_string());
    let mut replies = Vec::new();
    let mut log: Vec<String> = Vec::new();
    loop {
        let next = match state.execute_sync("job-1", "my/project", notify_on_noop, &replies) {
            Ok(()) => return log,
            Err(Halt::Fail(fault)) => panic!("{}", fault.text()),
            Err(Halt::Ask(request)) => {
                log.push(label(&request));
                reply(&request)
            }
        };
        replies.push(next);
    }
}

#[test]
fn scheduled_noop_does_not_notify() {
    assert!(!should_notify_completion(false, false));
    assert!(should_notify_completion(true, false));
    assert!(should_notify_completion(false, true));
}

#[test]
fn detailed_report_keeps_update_counts_and_release_tag() {
    let report = render_completed_sync_report(
        &config(),
        &branch(),
        &job(),
        "4444444444444444",
        &Some("v99.0.4".to_string()),
        true,
        CompletedSyncReportData {
            upstream_commit_count: 1,
            upstream_commits: vec!["aaaa 修复上游问题".to_string()],
            pushed_commit_count: 2,
            pushed_commits: vec!["bbbb 个人补丁".to_string(), "aaaa 修复上游问题".to_string()],
            pushed_file_count: 1,
            pushed_files: vec!["M src/task.py".to_string()],
        },
    );
    let text = report.entries[0].details.join("\n");

    assert!(text.contains("upstream commits included (1)"));
    assert!(text.contains("commits pushed to remote (2)"));
    assert!(text.contains("files pushed to remote (1)"));
    assert!(text.contains("release tag pushed: v99.0.4"));
    assert_eq!(report.entries[0].head, Some("44444444".to_string()));
    assert!(report.entries[0].active);
}

#[test]
fn items_that_are_not_listed_are_counted() {
    let mut entry = BranchReport::new("b", "k", BranchStatus::Success);
    push_report_items(&mut entry, "things", 3, &vec!["x".to_string()]);
    push_report_items(&mut entry, "others", 0, &vec!["y".to_string()]);
    assert_eq!(
        entry.details,
        vec![
            "things (3):",
            "  x",
            "  ... 2 more commit(s) omitted ...",
            "others: none"
        ]
    );
}

#[test]
fn a_job_is_synced_tested_pushed_and_told() {
    let log = drive(false, calm);
    assert_eq!(
        log,
        vec![
            "state running 正在获取远端状态",
            "settings",
            "branch my/project",
            "lock",
            "main call",
            "main call",
            "main fetch",
            "exists /data/worktrees/job-1",
            "ref origin/my/project",
            "main worktree add --detach /data/worktrees/job-1 origin/my/project",
            "unlock",
            "work rev-parse HEAD",
            "work rev-parse upstream/master",
            "main remote head",
            "heads /data/worktrees/job-1 upstream/master 4444444444444444 2222222222222222 3333333333333333",
            "emit git 隔离 worktree 已创建，开始同步",
            "work rebase upstream/master",
            "load",
            "work rev-parse HEAD",
            "tests 1111111111111111",
            "output ok",
            "push",
            "work merge base",
            "work rev-list --count 0000..upstream/master",
            "work log 0000..upstream/master 30",
            "work rev-list --count 3333333333333333..HEAD",
            "work log 3333333333333333..HEAD 30",
            "work diff --name-only 3333333333333333..HEAD",
            "work files 3333333333333333..HEAD 50",
            "remove",
            "state completed 同步、测试和推送完成",
            "notified",
            "render",
            "key",
            "post",
            "named my/project 同步完成 {}",
            "record",
        ]
    );
    assert_eq!(worktree_path("/data/", "j"), "/data/worktrees/j");
}

#[test]
fn an_idle_job_is_told_only_where_that_is_asked_for() {
    let idle = |request: &Request<'_>| {
        if label(request) == "load" {
            let mut kept = job();
            kept.before_head = "4444444444444444".to_string();
            kept.remote_head = "4444444444444444".to_string();
            Reply::Job(kept)
        } else {
            calm(request)
        }
    };
    let log = drive(false, idle);
    assert_eq!(log.last().unwrap(), "state completed 检查完成，未发现更新");
    let log = drive(true, idle);
    assert_eq!(log.last().unwrap(), "record");
    let log = drive(false, |request| {
        if label(request) == "push" {
            Reply::Maybe(Some("v2".to_string()))
        } else {
            idle(request)
        }
    });
    assert!(log.contains(&"state completed 同步、测试和推送完成，并发布标签 v2".to_string()));
}

#[test]
fn only_messages_that_were_sent_are_remembered() {
    let log = drive(false, |request| {
        if label(request).starts_with("named") {
            Reply::Flag(false)
        } else {
            calm(request)
        }
    });
    assert!(!log.contains(&"record".to_string()));
    let log = drive(false, |request| {
        if label(request).starts_with("named") {
            Reply::Failed(Fault::of("mail is down"))
        } else {
            calm(request)
        }
    });
    assert!(!log.contains(&"record".to_string()));
    let log = drive(false, |request| {
        if label(request) == "notified" {
            Reply::Flag(true)
        } else {
            calm(request)
        }
    });
    assert_eq!(log.last().unwrap(), "notified");
}

#[test]
fn tests_that_fail_stop_the_push() {
    let log = drive(false, |request| {
        if label(request).starts_with("tests") {
            Reply::Failed(Fault::because(
                "项目保护门禁".to_string(),
                "blocked".to_string(),
            ))
        } else {
            calm(request)
        }
    });
    assert!(!log.contains(&"push".to_string()));
    assert_eq!(
        log[log.len() - 3..],
        [
            "cleanup".to_string(),
            "state failed 项目保护门禁: blocked".to_string(),
            "notify protection_blocked my/project 项目保护门禁告警 项目保护门禁: blocked\n\n测试、构建和推送均未执行。".to_string(),
        ]
    );
    let log = drive(false, |request| {
        if label(request).starts_with("tests") {
            Reply::Failed(Fault::of("red"))
        } else {
            calm(request)
        }
    });
    assert_eq!(log.last().unwrap(), "state failed red");
}

#[test]
fn a_worktree_that_cannot_be_added_fails_the_job() {
    let log = drive(false, |request| {
        if label(request).starts_with("exists") {
            Reply::Flag(true)
        } else {
            calm(request)
        }
    });
    assert_eq!(
        log.last().unwrap(),
        "state failed 任务 worktree 已存在：/data/worktrees/job-1"
    );
    let log = drive(false, |request| match label(request).as_str() {
        l if l.starts_with("ref") => Reply::Maybe(None),
        l if l.starts_with("main worktree add") => output(1, ""),
        _ => calm(request),
    });
    assert!(log
        .contains(&"main worktree add --detach /data/worktrees/job-1 my/project".to_string()));
    assert_eq!(
        log.last().unwrap(),
        "state failed 创建 worktree 失败：broke"
    );
}

#[test]
fn counts_that_cannot_be_read_fail_the_job() {
    for (stdout, message) in [
        ("", "cannot parse integer from empty string"),
        ("x1", "invalid digit found in string"),
        (
            "99999999999999999999999",
            "number too large to fit in target type",
        ),
    ] {
        let log = drive(false, |request| {
            if label(request).starts_with("work rev-list") {
                output(0, stdout)
            } else {
                calm(request)
            }
        });
        assert_eq!(log.last().unwrap(), &format!("state failed {}", message));
    }
    let log = drive(false, |request| {
        if label(request).starts_with("work rev-list") {
            output(128, "")
        } else {
            calm(request)
        }
    });
    assert_eq!(
        log.last().unwrap(),
        "state failed 读取提交数量失败：broke"
    );
    let log = drive(false, |request| {
        if label(request).starts_with("work diff") {
            output(128, "")
        } else {
            calm(request)
        }
    });
    assert_eq!(
        log.last().unwrap(),
        "state failed 读取变更文件数量失败：broke"
    );
}

fn captured(files: &[&str]) -> CapturedConflict {
    CapturedConflict {
        snapshot: ConflictSnapshot {
            status: String::new(),
            files: files.iter().map(|f| f.to_string()).collect(),
            combined_diff: String::new(),
        },
        files: vec![ConflictFileContent {
            path: "src/a".to_string(),
            content: "<<<<<<<".to_string(),
        }],
    }
}

fn stuck(request: &Request<'_>, risk: &str) -> Reply {
    match label(request).as_str() {
        "work rebase upstream/master" => output(1, ""),
        "capture" => Reply::Captured(captured(&["src/a"])),
        "blocks" => Reply::Blocks(ConflictBlocks {
            blocks: Vec::new(),
            rendered: String::new(),
            payload_bytes: 10,
        }),
        "decode" => Reply::AutoResolve(AutoResolveDecision {
            risk: risk.to_string(),
            summary: String::new(),
            resolutions: Vec::new(),
        }),
        "resolve" => Reply::Resolved(vec![ResolvedFile {
            path: "src/a".to_string(),
            content: "solved".to_string(),
        }]),
        "work continue" => output(0, ""),
        _ => calm(request),
    }
}

#[test]
fn conflicts_of_low_risk_are_resolved_in_the_worktree() {
    let log = drive(false, |request| stuck(request, "Low"));
    assert!(log.contains(&"work write src/a".to_string()));
    assert!(log.contains(&"work add src/a".to_string()));
    assert!(log.contains(&"push".to_string()));
}

#[test]
fn other_conflicts_are_handed_over_with_ways_out() {
    let mut decisions = 0;
    let log = drive(false, |request| {
        if label(request) == "decode" {
            decisions += 1;
            if decisions == 2 {
                let option = || ConflictOption {
                    id: String::new(),
                    title: String::new(),
                    description: String::new(),
                    tradeoffs: String::new(),
                };
                return Reply::Options(ConflictOptionsDecision {
                    classification: "functional".to_string(),
                    summary: "two ways".to_string(),
                    options: vec![option(), option()],
                });
            }
        }
        stuck(request, "high")
    });
    assert!(!log.contains(&"push".to_string()));
    assert!(!log.contains(&"work write src/a".to_string()));
    assert_eq!(
        log[log.len() - 3..],
        [
            "guidance waiting_guidance functional two ways true".to_string(),
            "emit conflict 功能性冲突正在等待人工指导".to_string(),
            "notify waiting_guidance my/project 同步需要处理 TermiteRS 检测到功能性冲突，请打开维护看板处理。".to_string(),
        ]
    );
}

#[test]
fn conflicts_are_kept_where_the_model_cannot_be_reached() {
    let log = drive(false, |request| {
        if label(request) == "post" {
            Reply::Failed(Fault::of("401"))
        } else {
            stuck(request, "low")
        }
    });
    assert!(log.contains(&"conflict".to_string()));
    assert!(log.contains(
        &"guidance waiting_guidance functional 功能性冲突已保留，DeepSeek 方案暂时不可用 false".to_string()
    ));
}

#[test]
fn conflicts_outside_the_limits_are_handed_over_untried() {
    for files in [vec!["docs/a"], vec!["src/a", "src/b", "src/c"]] {
        let log = drive(false, |request| {
            if label(request) == "capture" {
                Reply::Captured(captured(&files))
            } else if label(request) == "post" {
                Reply::Failed(Fault::of("401"))
            } else {
                stuck(request, "low")
            }
        });
        assert_eq!(log.iter().filter(|l| *l == "capture").count(), 1);
        assert!(log.contains(&"conflict".to_string()));
        assert!(!log.contains(&"work write src/a".to_string()));
    }
}

#[test]
fn resolutions_that_do_not_hold_are_not_written() {
    for step in ["resolve", "validate"] {
        let log = drive(false, |request| {
            if label(request) == step {
                Reply::Failed(Fault::of("differs"))
            } else {
                stuck(request, "low")
            }
        });
        assert!(!log.contains(&"work write src/a".to_string()));
        assert!(!log.contains(&"push".to_string()));
    }
    let log = drive(false, |request| {
        if label(request) == "blocks" {
            Reply::Blocks(ConflictBlocks {
                blocks: Vec::new(),
                rendered: String::new(),
                payload_bytes: 101,
            })
        } else {
            stuck(request, "low")
        }
    });
    assert!(!log.contains(&"work write src/a".to_string()));
}

#[test]
fn rounds_of_a_job_are_limited() {
    let log = drive(false, |request| {
        if label(request) == "work continue" {
            output(1, "")
        } else {
            stuck(request, "low")
        }
    });
    assert_eq!(log.iter().filter(|l| *l == "work write src/a").count(), 2);
    assert!(!log.contains(&"push".to_string()));
}

#[test]
fn a_job_that_stops_without_conflicts_is_continued_or_failed() {
    let empty = |request: &Request<'_>, continued: fn() -> AutoResolvedSync| {
        match label(request).as_str() {
            "capture" => Reply::Captured(captured(&[])),
            l if l.starts_with("staged") => Reply::Continued(continued()),
            _ => stuck(request, "low"),
        }
    };
    let log = drive(false, |request| {
        empty(request, || AutoResolvedSync::Completed)
    });
    assert!(log.contains(&"staged 同步失败，但没有检测到 Git 未合并冲突文件".to_string()));
    assert!(log.contains(&"push".to_string()));
    let log = drive(false, |request| {
        empty(request, || AutoResolvedSync::Failed("why".to_string()))
    });
    assert_eq!(
        log[log.len() - 4..],
        [
            "work abort".to_string(),
            "remove".to_string(),
            "failure failed 同步失败，未检测到冲突文件 Some(\"why\")".to_string(),
            "emit sync 同步失败，但没有检测到可分析的冲突文件".to_string(),
        ]
    );
    let log = drive(false, |request| {
        empty(request, || {
            AutoResolvedSync::Conflict(captured(&["src/a"]))
        })
    });
    assert!(log.contains(&"work write src/a".to_string()));
    let mut captures = 0;
    let log = drive(false, |request| {
        if label(request) == "capture" {
            captures += 1;
            return Reply::Captured(captured(if captures == 1 { &["src/a"] } else { &[] }));
        }
        stuck(request, "high")
    });
    assert_eq!(
        log.last().unwrap(),
        "emit sync 低风险自动修复后没有剩余冲突文件，任务已停止等待人工检查"
    );
}

#[test]
fn checks_fetch_and_keep_the_report() {
    let state = ServiceState::new("/data".to_string());
    let drive = |failing: &str| {
        let mut replies = Vec::new();
        let mut log: Vec<String> = Vec::new();
        loop {
            let next = match state.execute_check(&replies) {
                Ok(()) => return log,
                Err(Halt::Fail(fault)) => panic!("{}", fault.text()),
                Err(Halt::Ask(request)) => {
                    let l = label(&request);
                    log.push(l.clone());
                    if l == failing {
                        Reply::Failed(Fault::of("repository lock poisoned"))
                    } else {
                        calm(&request)
                    }
                }
            };
            replies.push(next);
        }
    };
    assert_eq!(
        drive(""),
        vec![
            "state running 正在检查仓库",
            "lock",
            "settings",
            "doctor",
            "main fetch",
            "output healthy",
            "state completed 仓库检查完成",
            "unlock",
        ]
    );
    assert_eq!(
        drive("lock"),
        vec![
            "state running 正在检查仓库",
            "lock",
            "state failed repository lock poisoned"
        ]
    );
}

#[test]
fn a_run_started_anew_comes_to_the_same() {
    let state = ServiceState::new("/data".to_string());
    let mut replies = Vec::new();
    let mut log: Vec<String> = Vec::new();
    loop {
        let next = match state.execute_sync("job-1", "my/project", false, &replies) {
            Ok(()) => break,
            Err(Halt::Fail(fault)) => panic!("{}", fault.text()),
            Err(Halt::Ask(request)) => {
                log.push(label(&request));
                calm(&request)
            }
        };
        replies.push(next);
    }
    assert_eq!(replies.len(), log.len());
    replies.push(Reply::Failed(Fault::of("too late")));
    assert!(state
        .execute_sync("job-1", "my/project", false, &replies)
        .is_ok());
    replies.pop();
    while let Some(_) = replies.pop() {
        match state.execute_sync("job-1", "my/project", false, &replies) {
            Err(Halt::Ask(request)) => assert_eq!(label(&request), log[replies.len()]),
            _ => panic!("expected a request"),
        }
    }
}

#[test]
fn the_lock_is_given_back_before_a_failed_job_is_cleaned_up() {
    for step in ["main fetch", "exists /data/worktrees/job-1"] {
        let log = drive(false, |request| {
            if label(request) == step {
                Reply::Failed(Fault::of("offline"))
            } else {
                calm(request)
            }
        });
        assert_eq!(
            log[log.len() - 4..],
            [
                step.to_string(),
                "unlock".to_string(),
                "cleanup".to_string(),
                "state failed offline".to_string()
            ]
        );
    }
}
