use vencord_installer::backup::BackupResult;
use vencord_installer::process::{DiscordClientsState, DiscordProcess};
use vencord_installer::pipeline::{
    FlowDirective, FlowStage, PatchFlow, PatchFlowStep, StepResult, StepStatus,
};

fn quiesced_two() -> DiscordClientsState {
    let procs = vec![
        DiscordProcess {
            pid: 1,
            name: "discord".to_string(),
            exe: Some("/opt/discord/Discord".to_string()),
            cmd: Vec::new(),
        },
        DiscordProcess {
            pid: 2,
            name: "discordptb".to_string(),
            exe: Some("/opt/discordptb/DiscordPTB".to_string()),
            cmd: Vec::new(),
        },
    ];
    DiscordClientsState {
        closed_clients: vec!["Discord".to_string(), "DiscordPTB".to_string()],
        processes: procs,
        closing_skipped: false,
    }
}

fn backup_ok() -> BackupResult {
    BackupResult {
        source_path: "/home/u/Vencord".to_string(),
        backup_path: "/cfg/backups/2024-01-02_03-04-05".to_string(),
        closed_clients: vec!["Discord".to_string()],
        restarted_clients: Vec::new(),
        closing_skipped: false,
    }
}

#[test]
fn backup_failure_compensates_once_and_leaves_later_steps_pending() {
    let mut flow = PatchFlow::new();
    flow.record_close(quiesced_two());
    let d = flow.record_backup(Err("Backup failed: destination unwritable".to_string()));
    // Compensation fires exactly once: the one directive orders it, and
    // the aborted run accepts no further step outcomes.
    assert_eq!(d, FlowDirective::CompensateAndAbort);
    assert!(flow.compensate_ordered);
    assert_eq!(flow.stage, FlowStage::Aborted);
    assert_eq!(flow.quiesced.processes.len(), 2);
    assert_eq!(flow.result.sync_repo.status, StepStatus::Pending);
    assert_eq!(flow.result.build.status, StepStatus::Pending);
    assert_eq!(flow.result.inject.status, StepStatus::Pending);
    assert_eq!(flow.result.download_themes.status, StepStatus::Pending);
    assert_eq!(flow.result.reopen_discord.status, StepStatus::Pending);
    match flow.into_result() {
        Err(err) => assert_eq!(err, "Backup failed: destination unwritable"),
        Ok(_) => panic!("the aborted run must surface the backup error"),
    }
}

#[test]
fn every_step_notifies_the_observer_even_when_the_run_aborts() {
    let mut flow = PatchFlow::new();
    flow.record_close(quiesced_two());
    flow.record_backup(Err("no space".to_string()));
    // The quiesce step notified start and completion; the failing
    // backup step still notified its start before the run aborted.
    let log: Vec<(PatchFlowStep, StepStatus)> =
        flow.events.iter().map(|e| (e.step, e.status)).collect();
    assert_eq!(
        log,
        vec![
            (PatchFlowStep::CloseDiscord, StepStatus::Running),
            (PatchFlowStep::CloseDiscord, StepStatus::Completed),
            (PatchFlowStep::Backup, StepStatus::Running),
        ]
    );
    assert_eq!(
        flow.events[0].message.as_deref(),
        Some("Closing Discord clients")
    );
    assert_eq!(
        flow.events[2].message.as_deref(),
        Some("Backing up Vencord installation")
    );
}

#[test]
fn failure_with_quiesce_skipped_aborts_without_compensation() {
    let mut flow = PatchFlow::new();
    flow.record_close(DiscordClientsState {
        closed_clients: Vec::new(),
        processes: Vec::new(),
        closing_skipped: true,
    });
    let d = flow.record_backup(Err("boom".to_string()));
    assert_eq!(d, FlowDirective::AbortOnly);
    assert!(!flow.compensate_ordered);
}

#[test]
fn a_full_run_completes_every_step() {
    let mut flow = PatchFlow::new();
    flow.record_close(quiesced_two());
    assert_eq!(flow.result.close_discord.status, StepStatus::Completed);
    assert_eq!(
        flow.record_backup(Ok(backup_ok())),
        FlowDirective::Proceed
    );
    assert_eq!(
        flow.record_sync(Ok("/home/u/Vencord".to_string())),
        FlowDirective::Proceed
    );
    assert_eq!(
        flow.record_build(Ok("built".to_string())),
        FlowDirective::Proceed
    );
    assert_eq!(
        flow.record_inject_locations(Ok(vec!["/cfg/discord".to_string()])),
        FlowDirective::Proceed
    );
    assert_eq!(
        flow.record_inject_outcome(Ok("injected".to_string())),
        FlowDirective::Proceed
    );
    assert_eq!(
        flow.record_themes(Some(Ok("Downloaded 1 theme(s): x".to_string()))),
        FlowDirective::Proceed
    );
    assert!(flow.needs_reopen());
    flow.record_reopen(Some(vec!["Discord".to_string(), "DiscordPTB".to_string()]));
    assert_eq!(flow.stage, FlowStage::Done);
    let result = flow.into_result().unwrap();
    assert_eq!(result.backup.status, StepStatus::Completed);
    assert_eq!(result.sync_repo.detail.as_deref(), Some("/home/u/Vencord"));
    assert_eq!(result.reopen_discord.status, StepStatus::Completed);
    assert_eq!(
        result.reopen_discord.detail,
        Some(vec!["Discord".to_string(), "DiscordPTB".to_string()])
    );
}

#[test]
fn empty_selection_skips_injection_and_no_themes_skips_download() {
    let mut flow = PatchFlow::new();
    flow.record_close(quiesced_two());
    flow.record_backup(Ok(backup_ok()));
    flow.record_sync(Ok("p".to_string()));
    flow.record_build(Ok("b".to_string()));
    let d = flow.record_inject_locations(Ok(Vec::new()));
    assert_eq!(d, FlowDirective::Proceed);
    assert_eq!(flow.result.inject.status, StepStatus::Skipped);
    assert_eq!(
        flow.result.inject.message.as_deref(),
        Some("No Discord clients selected for injection")
    );
    flow.record_themes(None);
    assert_eq!(flow.result.download_themes.status, StepStatus::Skipped);
    assert_eq!(
        flow.result.download_themes.message.as_deref(),
        Some("No themes enabled; skipping download")
    );
}

#[test]
fn unknown_selection_aborts_the_inject_step_with_compensation() {
    let mut flow = PatchFlow::new();
    flow.record_close(quiesced_two());
    flow.record_backup(Ok(backup_ok()));
    flow.record_sync(Ok("p".to_string()));
    flow.record_build(Ok("b".to_string()));
    let d = flow.record_inject_locations(Err(
        "The following Discord client selections are not installed: canary".to_string(),
    ));
    assert_eq!(d, FlowDirective::CompensateAndAbort);
    assert_eq!(flow.stage, FlowStage::Aborted);
    assert_eq!(flow.result.inject.status, StepStatus::Pending);
}

#[test]
fn skipped_quiesce_skips_the_reopen_step() {
    let mut flow = PatchFlow::new();
    flow.record_close(DiscordClientsState {
        closed_clients: Vec::new(),
        processes: Vec::new(),
        closing_skipped: true,
    });
    assert_eq!(flow.result.close_discord.status, StepStatus::Skipped);
    flow.record_backup(Ok(backup_ok()));
    flow.record_sync(Ok("p".to_string()));
    flow.record_build(Ok("b".to_string()));
    flow.record_inject_locations(Ok(Vec::new()));
    flow.record_themes(None);
    assert!(!flow.needs_reopen());
    flow.record_reopen(None);
    let result = flow.into_result().unwrap();
    assert_eq!(result.reopen_discord.status, StepStatus::Skipped);
    assert_eq!(
        result.reopen_discord.message.as_deref(),
        Some("Discord was not closed; no restart needed")
    );
}

#[test]
fn step_result_constructors_carry_status_message_and_detail() {
    let done: StepResult<String> = StepResult::completed("x".to_string());
    assert_eq!(done.status, StepStatus::Completed);
    assert!(done.message.is_none());
    assert_eq!(done.detail.as_deref(), Some("x"));

    let run: StepResult<String> = StepResult::running("working");
    assert_eq!(run.status, StepStatus::Running);
    assert_eq!(run.message.as_deref(), Some("working"));
    assert!(run.detail.is_none());

    let skip: StepResult<String> = StepResult::skipped("later");
    assert_eq!(skip.status, StepStatus::Skipped);

    let wait: StepResult<String> = StepResult::pending("queued");
    assert_eq!(wait.status, StepStatus::Pending);
    assert_eq!(wait.message.as_deref(), Some("queued"));
}
