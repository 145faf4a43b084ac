//! The pipeline orchestrator: one run sequences quiesce, backup,
//! source sync, build, injection, theme restore and host relaunch.
//!
//! The slow outside work of each step is performed by the caller; the
//! [`PatchFlow`] state machine here decides everything else: what each
//! step's outcome means, when the run aborts, and when the
//! compensating relaunch of the quiesced host must fire. A failure in
//! any middle step aborts the run at once, so the later steps can
//! never leave their pending state.

use vstd::prelude::*;

use crate::backup::BackupResult;
use crate::process::{clone_string_vec, DiscordClientsState, ProcessView};

verus! {

/// The status a pipeline step can be in.
#[derive(Clone, Copy, Debug, PartialEq, Eq, Structural)]
pub enum StepStatus {
    Running,
    Completed,
    Skipped,
    Pending,
}

/// The outcome of one pipeline step: a status, an optional free-form
/// message and an optional typed payload.
pub struct StepResult<T> {
    pub status: StepStatus,
    pub message: Option<String>,
    pub detail: Option<T>,
}

impl<T> StepResult<T> {
    /// A completed step carrying its payload.
    pub fn completed(detail: T) -> (r: Self)
        ensures
            r.status == StepStatus::Completed,
            r.message is None,
            r.detail == Some(detail),
    {
        Self { status: StepStatus::Completed, message: None, detail: Some(detail) }
    }

    /// A step that has started.
    pub fn running(message: &str) -> (r: Self)
        ensures
            r.status == StepStatus::Running,
            r.message is Some && r.message->0@ == message@,
            r.detail is None,
    {
        Self { status: StepStatus::Running, message: Some(String::from_str(message)), detail: None }
    }

    /// A step that was skipped.
    pub fn skipped(message: &str) -> (r: Self)
        ensures
            r.status == StepStatus::Skipped,
            r.message is Some && r.message->0@ == message@,
            r.detail is None,
    {
        Self { status: StepStatus::Skipped, message: Some(String::from_str(message)), detail: None }
    }

    /// A step that has not run yet.
    pub fn pending(message: &str) -> (r: Self)
        ensures
            r.status == StepStatus::Pending,
            r.message is Some && r.message->0@ == message@,
            r.detail is None,
    {
        Self { status: StepStatus::Pending, message: Some(String::from_str(message)), detail: None }
    }

    /// A pending step with nothing to say yet.
    fn fresh() -> (r: Self)
        ensures
            r.status == StepStatus::Pending,
            r.message is None,
            r.detail is None,
    {
        Self { status: StepStatus::Pending, message: None, detail: None }
    }
}

/// The steps of one pipeline run, in order.
#[derive(Clone, Copy, Debug, PartialEq, Eq, Structural)]
pub enum PatchFlowStep {
    CloseDiscord,
    Backup,
    SyncRepo,
    Build,
    Inject,
    DownloadThemes,
    ReopenDiscord,
}

/// A step a diagnostic invocation may run on its own.
#[derive(Clone, Copy, Debug, PartialEq, Eq, Structural)]
pub enum DevTestStep {
    CloseDiscord,
    Backup,
    SyncRepo,
    Build,
    Inject,
    DownloadThemes,
    ReopenDiscord,
}

/// The outcome of a whole pipeline run, one result per step.
pub struct PatchFlowResult {
    pub close_discord: StepResult<Vec<String>>,
    pub backup: StepResult<BackupResult>,
    pub sync_repo: StepResult<String>,
    pub build: StepResult<String>,
    pub inject: StepResult<String>,
    pub download_themes: StepResult<String>,
    pub reopen_discord: StepResult<Vec<String>>,
}

/// The payload a diagnostic single-step invocation returns.
pub enum DevTestResult {
    CloseDiscord { closed_clients: Vec<String>, closing_skipped: bool },
    Backup { result: BackupResult },
    SyncRepo { path: String },
    Build { message: String, path: Option<String> },
    Inject { message: String },
    DownloadThemes { message: String },
    ReopenDiscord { restarted: Vec<String>, closed_clients: Vec<String>, closing_skipped: bool },
}

/// One progress notification to the observer: a step entered a
/// status, with an optional message. The typed result payloads stay
/// in [`PatchFlowResult`].
pub struct StepEvent {
    pub step: PatchFlowStep,
    pub status: StepStatus,
    pub message: Option<String>,
}

/// The mathematical value of a progress notification.
pub struct StepEventView {
    pub step: PatchFlowStep,
    pub status: StepStatus,
    pub message: Option<Seq<char>>,
}

impl View for StepEvent {
    type V = StepEventView;

    open spec fn view(&self) -> StepEventView {
        StepEventView {
            step: self.step,
            status: self.status,
            message: match self.message {
                Some(m) => Some(m@),
                None => None,
            },
        }
    }
}

impl DeepView for StepEvent {
    type V = StepEventView;

    open spec fn deep_view(&self) -> StepEventView {
        self.view()
    }
}

/// The fixed message each step announces when it starts.
pub open spec fn running_message(step: PatchFlowStep) -> Seq<char> {
    match step {
        PatchFlowStep::CloseDiscord => "Closing Discord clients"@,
        PatchFlowStep::Backup => "Backing up Vencord installation"@,
        PatchFlowStep::SyncRepo => "Syncing Vencord repository"@,
        PatchFlowStep::Build => "Building Vencord artifacts"@,
        PatchFlowStep::Inject => "Injecting patched files"@,
        PatchFlowStep::DownloadThemes => "Downloading themes"@,
        PatchFlowStep::ReopenDiscord => "Restarting Discord clients"@,
    }
}

/// The notification a step emits when it starts.
pub open spec fn running_event(step: PatchFlowStep) -> StepEventView {
    StepEventView { step, status: StepStatus::Running, message: Some(running_message(step)) }
}

/// A notification without a message.
pub open spec fn bare_event(step: PatchFlowStep, status: StepStatus) -> StepEventView {
    StepEventView { step, status, message: None }
}

/// A notification carrying a message.
pub open spec fn message_event(
    step: PatchFlowStep,
    status: StepStatus,
    message: Seq<char>,
) -> StepEventView {
    StepEventView { step, status, message: Some(message) }
}

/// Append one notification to the log.
fn push_event(
    events: &mut Vec<StepEvent>,
    step: PatchFlowStep,
    status: StepStatus,
    message: Option<&str>,
)
    ensures
        final(events).deep_view() == old(events).deep_view().push(
            (StepEventView {
                step,
                status,
                message: match message {
                    Some(m) => Some(m@),
                    None => None,
                },
            }),
        ),
{
    let ghost prev = events.deep_view();
    let owned = match message {
        Some(m) => Some(String::from_str(m)),
        None => None,
    };
    events.push(StepEvent { step, status, message: owned });
    proof {
        assert(events.deep_view() =~= prev.push(
            StepEventView {
                step,
                status,
                message: match message {
                    Some(m) => Some(m@),
                    None => None,
                },
            },
        ));
    }
}

/// Where a run stands: which step's outcome it expects next, or that
/// it has finished or aborted.
#[derive(Clone, Copy, Debug, PartialEq, Eq, Structural)]
pub enum FlowStage {
    AwaitClose,
    AwaitBackup,
    AwaitSync,
    AwaitBuild,
    AwaitInject,
    AwaitInjectRun,
    AwaitThemes,
    AwaitReopen,
    Done,
    Aborted,
}

/// What the caller must do after recording an outcome: go on with the
/// next step, relaunch the quiesced host and stop, or just stop.
#[derive(Clone, Copy, Debug, PartialEq, Eq, Structural)]
pub enum FlowDirective {
    Proceed,
    CompensateAndAbort,
    AbortOnly,
}

/// One pipeline run. The caller performs each step's outside work and
/// records its outcome here; the machine accumulates the per-step
/// results, decides aborts and orders the compensating relaunch.
pub struct PatchFlow {
    pub stage: FlowStage,
    pub quiesced: DiscordClientsState,
    pub result: PatchFlowResult,
    pub events: Vec<StepEvent>,
    pub failure: Option<String>,
    pub compensate_ordered: bool,
}

/// A run that has aborted always carries the error it surfaces.
pub open spec fn flow_wf(f: PatchFlow) -> bool {
    f.stage == FlowStage::Aborted ==> f.failure is Some
}

impl PatchFlow {
    /// A fresh run: every step pending, nothing quiesced, nothing
    /// failed, no compensation ordered.
    pub fn new() -> (r: Self)
        ensures
            r.stage == FlowStage::AwaitClose,
            r.result.close_discord.status == StepStatus::Pending,
            r.result.backup.status == StepStatus::Pending,
            r.result.sync_repo.status == StepStatus::Pending,
            r.result.build.status == StepStatus::Pending,
            r.result.inject.status == StepStatus::Pending,
            r.result.download_themes.status == StepStatus::Pending,
            r.result.reopen_discord.status == StepStatus::Pending,
            r.failure is None,
            !r.compensate_ordered,
            !r.quiesced.closing_skipped,
            r.quiesced.processes.deep_view() == Seq::<ProcessView>::empty(),
            r.events.deep_view() == Seq::<StepEventView>::empty(),
            flow_wf(r),
    {
        let quiesced = DiscordClientsState {
            closed_clients: Vec::new(),
            processes: Vec::new(),
            closing_skipped: false,
        };
        let events: Vec<StepEvent> = Vec::new();
        proof {
            assert(quiesced.processes.deep_view() =~= Seq::<ProcessView>::empty());
            assert(events.deep_view() =~= Seq::<StepEventView>::empty());
        }
        PatchFlow {
            stage: FlowStage::AwaitClose,
            quiesced,
            result: PatchFlowResult {
                close_discord: StepResult::fresh(),
                backup: StepResult::fresh(),
                sync_repo: StepResult::fresh(),
                build: StepResult::fresh(),
                inject: StepResult::fresh(),
                download_themes: StepResult::fresh(),
                reopen_discord: StepResult::fresh(),
            },
            events,
            failure: None,
            compensate_ordered: false,
        }
    }

    /// Record what the quiesce step reported: skipped when closing is
    /// disabled, completed with the closed names otherwise. The
    /// reported state is kept for the compensation and relaunch
    /// decisions of every later step.
    pub fn record_close(&mut self, state: DiscordClientsState)
        requires
            old(self).stage == FlowStage::AwaitClose,
            flow_wf(*old(self)),
        ensures
            final(self).stage == FlowStage::AwaitBackup,
            final(self).quiesced == state,
            state.closing_skipped ==> {
                &&& final(self).result.close_discord.status == StepStatus::Skipped
                &&& final(self).result.close_discord.message is Some
                &&& final(self).result.close_discord.message->0@
                    == "Closing Discord is disabled in settings"@
                &&& final(self).result.close_discord.detail is None
            },
            !state.closing_skipped ==> {
                &&& final(self).result.close_discord.status == StepStatus::Completed
                &&& final(self).result.close_discord.message is None
                &&& final(self).result.close_discord.detail is Some
                &&& final(self).result.close_discord.detail->0.deep_view()
                    == state.closed_clients.deep_view()
            },
            final(self).result.backup == old(self).result.backup,
            final(self).result.sync_repo == old(self).result.sync_repo,
            final(self).result.build == old(self).result.build,
            final(self).result.inject == old(self).result.inject,
            final(self).result.download_themes == old(self).result.download_themes,
            final(self).result.reopen_discord == old(self).result.reopen_discord,
            final(self).failure == old(self).failure,
            final(self).compensate_ordered == old(self).compensate_ordered,
            final(self).events.deep_view() == old(self).events.deep_view() + seq![
                running_event(PatchFlowStep::CloseDiscord),
                (if state.closing_skipped {
                    message_event(
                        PatchFlowStep::CloseDiscord,
                        StepStatus::Skipped,
                        "Closing Discord is disabled in settings"@,
                    )
                } else {
                    bare_event(PatchFlowStep::CloseDiscord, StepStatus::Completed)
                }),
            ],
            flow_wf(*final(self)),
    {
        push_event(
            &mut self.events,
            PatchFlowStep::CloseDiscord,
            StepStatus::Running,
            Some("Closing Discord clients"),
        );
        if state.closing_skipped {
            self.result.close_discord = StepResult::skipped(
                "Closing Discord is disabled in settings",
            );
            push_event(
                &mut self.events,
                PatchFlowStep::CloseDiscord,
                StepStatus::Skipped,
                Some("Closing Discord is disabled in settings"),
            );
        } else {
            self.result.close_discord = StepResult::completed(
                clone_string_vec(&state.closed_clients),
            );
            push_event(
                &mut self.events,
                PatchFlowStep::CloseDiscord,
                StepStatus::Completed,
                None,
            );
        }
        self.quiesced = state;
        self.stage = FlowStage::AwaitBackup;
        proof {
            assert(self.events.deep_view() =~= old(self).events.deep_view() + seq![
                running_event(PatchFlowStep::CloseDiscord),
                (if state.closing_skipped {
                    message_event(
                        PatchFlowStep::CloseDiscord,
                        StepStatus::Skipped,
                        "Closing Discord is disabled in settings"@,
                    )
                } else {
                    bare_event(PatchFlowStep::CloseDiscord, StepStatus::Completed)
                }),
            ]);
        }
    }

    /// Abort the run on a step failure: keep the error, and order the
    /// compensating relaunch exactly when the quiesce step closed
    /// something.
    fn abort(&mut self, error: String) -> (d: FlowDirective)
        ensures
            final(self).stage == FlowStage::Aborted,
            final(self).failure == Some(error),
            final(self).compensate_ordered == !old(self).quiesced.closing_skipped,
            d == (if !old(self).quiesced.closing_skipped {
                FlowDirective::CompensateAndAbort
            } else {
                FlowDirective::AbortOnly
            }),
            final(self).quiesced == old(self).quiesced,
            final(self).result == old(self).result,
            final(self).events == old(self).events,
            flow_wf(*final(self)),
    {
        self.stage = FlowStage::Aborted;
        self.failure = Some(error);
        if !self.quiesced.closing_skipped {
            self.compensate_ordered = true;
            FlowDirective::CompensateAndAbort
        } else {
            self.compensate_ordered = false;
            FlowDirective::AbortOnly
        }
    }

    /// Record the backup step's outcome. On failure the run aborts:
    /// the error is surfaced, compensation is ordered exactly when the
    /// host was quiesced, and every later step stays pending.
    pub fn record_backup(&mut self, outcome: Result<BackupResult, String>) -> (d: FlowDirective)
        requires
            old(self).stage == FlowStage::AwaitBackup,
            flow_wf(*old(self)),
        ensures
            outcome is Ok ==> {
                &&& final(self).stage == FlowStage::AwaitSync
                &&& final(self).result.backup.status == StepStatus::Completed
                &&& final(self).result.backup.detail == Some(outcome->Ok_0)
                &&& final(self).failure == old(self).failure
                &&& final(self).compensate_ordered == old(self).compensate_ordered
                &&& final(self).events.deep_view() == old(self).events.deep_view() + seq![
                    running_event(PatchFlowStep::Backup),
                    bare_event(PatchFlowStep::Backup, StepStatus::Completed),
                ]
                &&& d == FlowDirective::Proceed
            },
            outcome is Err ==> {
                &&& final(self).stage == FlowStage::Aborted
                &&& final(self).failure == Some(outcome->Err_0)
                &&& final(self).compensate_ordered == !old(self).quiesced.closing_skipped
                &&& final(self).result.backup == old(self).result.backup
                &&& final(self).events.deep_view() == old(self).events.deep_view().push(
                    running_event(PatchFlowStep::Backup),
                )
                &&& d == (if !old(self).quiesced.closing_skipped {
                    FlowDirective::CompensateAndAbort
                } else {
                    FlowDirective::AbortOnly
                })
            },
            final(self).quiesced == old(self).quiesced,
            final(self).result.close_discord == old(self).result.close_discord,
            final(self).result.sync_repo == old(self).result.sync_repo,
            final(self).result.build == old(self).result.build,
            final(self).result.inject == old(self).result.inject,
            final(self).result.download_themes == old(self).result.download_themes,
            final(self).result.reopen_discord == old(self).result.reopen_discord,
            flow_wf(*final(self)),
    {
        push_event(
            &mut self.events,
            PatchFlowStep::Backup,
            StepStatus::Running,
            Some("Backing up Vencord installation"),
        );
        match outcome {
            Ok(result) => {
                self.result.backup = StepResult::completed(result);
                self.stage = FlowStage::AwaitSync;
                push_event(&mut self.events, PatchFlowStep::Backup, StepStatus::Completed, None);
                proof {
                    assert(self.events.deep_view() =~= old(self).events.deep_view() + seq![
                        running_event(PatchFlowStep::Backup),
                        bare_event(PatchFlowStep::Backup, StepStatus::Completed),
                    ]);
                }
                FlowDirective::Proceed
            },
            Err(error) => self.abort(error),
        }
    }

    /// Record the source-sync step's outcome, aborting with
    /// compensation on failure.
    pub fn record_sync(&mut self, outcome: Result<String, String>) -> (d: FlowDirective)
        requires
            old(self).stage == FlowStage::AwaitSync,
            flow_wf(*old(self)),
        ensures
            outcome is Ok ==> {
                &&& final(self).stage == FlowStage::AwaitBuild
                &&& final(self).result.sync_repo.status == StepStatus::Completed
                &&& final(self).result.sync_repo.detail == Some(outcome->Ok_0)
                &&& final(self).failure == old(self).failure
                &&& final(self).compensate_ordered == old(self).compensate_ordered
                &&& final(self).events.deep_view() == old(self).events.deep_view() + seq![
                    running_event(PatchFlowStep::SyncRepo),
                    bare_event(PatchFlowStep::SyncRepo, StepStatus::Completed),
                ]
                &&& d == FlowDirective::Proceed
            },
            outcome is Err ==> {
                &&& final(self).stage == FlowStage::Aborted
                &&& final(self).failure == Some(outcome->Err_0)
                &&& final(self).compensate_ordered == !old(self).quiesced.closing_skipped
                &&& final(self).result.sync_repo == old(self).result.sync_repo
                &&& final(self).events.deep_view() == old(self).events.deep_view().push(
                    running_event(PatchFlowStep::SyncRepo),
                )
                &&& d == (if !old(self).quiesced.closing_skipped {
                    FlowDirective::CompensateAndAbort
                } else {
                    FlowDirective::AbortOnly
                })
            },
            final(self).quiesced == old(self).quiesced,
            final(self).result.close_discord == old(self).result.close_discord,
            final(self).result.backup == old(self).result.backup,
            final(self).result.build == old(self).result.build,
            final(self).result.inject == old(self).result.inject,
            final(self).result.download_themes == old(self).result.download_themes,
            final(self).result.reopen_discord == old(self).result.reopen_discord,
            flow_wf(*final(self)),
    {
        push_event(
            &mut self.events,
            PatchFlowStep::SyncRepo,
            StepStatus::Running,
            Some("Syncing Vencord repository"),
        );
        match outcome {
            Ok(path) => {
                self.result.sync_repo = StepResult::completed(path);
                self.stage = FlowStage::AwaitBuild;
                push_event(
                    &mut self.events,
                    PatchFlowStep::SyncRepo,
                    StepStatus::Completed,
                    None,
                );
                proof {
                    assert(self.events.deep_view() =~= old(self).events.deep_view() + seq![
                        running_event(PatchFlowStep::SyncRepo),
                        bare_event(PatchFlowStep::SyncRepo, StepStatus::Completed),
                    ]);
                }
                FlowDirective::Proceed
            },
            Err(error) => self.abort(error),
        }
    }

    /// Record the build step's outcome, aborting with compensation on
    /// failure.
    pub fn record_build(&mut self, outcome: Result<String, String>) -> (d: FlowDirective)
        requires
            old(self).stage == FlowStage::AwaitBuild,
            flow_wf(*old(self)),
        ensures
            outcome is Ok ==> {
                &&& final(self).stage == FlowStage::AwaitInject
                &&& final(self).result.build.status == StepStatus::Completed
                &&& final(self).result.build.detail == Some(outcome->Ok_0)
                &&& final(self).failure == old(self).failure
                &&& final(self).compensate_ordered == old(self).compensate_ordered
                &&& final(self).events.deep_view() == old(self).events.deep_view() + seq![
                    running_event(PatchFlowStep::Build),
                    bare_event(PatchFlowStep::Build, StepStatus::Completed),
                ]
                &&& d == FlowDirective::Proceed
            },
            outcome is Err ==> {
                &&& final(self).stage == FlowStage::Aborted
                &&& final(self).failure == Some(outcome->Err_0)
                &&& final(self).compensate_ordered == !old(self).quiesced.closing_skipped
                &&& final(self).result.build == old(self).result.build
                &&& final(self).events.deep_view() == old(self).events.deep_view().push(
                    running_event(PatchFlowStep::Build),
                )
                &&& d == (if !old(self).quiesced.closing_skipped {
                    FlowDirective::CompensateAndAbort
                } else {
                    FlowDirective::AbortOnly
                })
            },
            final(self).quiesced == old(self).quiesced,
            final(self).result.close_discord == old(self).result.close_discord,
            final(self).result.backup == old(self).result.backup,
            final(self).result.sync_repo == old(self).result.sync_repo,
            final(self).result.inject == old(self).result.inject,
            final(self).result.download_themes == old(self).result.download_themes,
            final(self).result.reopen_discord == old(self).result.reopen_discord,
            flow_wf(*final(self)),
    {
        push_event(
            &mut self.events,
            PatchFlowStep::Build,
            StepStatus::Running,
            Some("Building Vencord artifacts"),
        );
        match outcome {
            Ok(message) => {
                self.result.build = StepResult::completed(message);
                self.stage = FlowStage::AwaitInject;
                push_event(&mut self.events, PatchFlowStep::Build, StepStatus::Completed, None);
                proof {
                    assert(self.events.deep_view() =~= old(self).events.deep_view() + seq![
                        running_event(PatchFlowStep::Build),
                        bare_event(PatchFlowStep::Build, StepStatus::Completed),
                    ]);
                }
                FlowDirective::Proceed
            },
            Err(error) => self.abort(error),
        }
    }

    /// Record what resolving the injection targets yielded: an unknown
    /// selection aborts with compensation, no selection at all skips
    /// the step, and otherwise the run waits for the injection itself.
    pub fn record_inject_locations(&mut self, locations: Result<Vec<String>, String>) -> (d:
        FlowDirective)
        requires
            old(self).stage == FlowStage::AwaitInject,
            flow_wf(*old(self)),
        ensures
            locations is Ok && locations->Ok_0@.len() == 0 ==> {
                &&& final(self).stage == FlowStage::AwaitThemes
                &&& final(self).result.inject.status == StepStatus::Skipped
                &&& final(self).result.inject.message is Some
                &&& final(self).result.inject.message->0@
                    == "No Discord clients selected for injection"@
                &&& final(self).failure == old(self).failure
                &&& final(self).compensate_ordered == old(self).compensate_ordered
                &&& final(self).events.deep_view() == old(self).events.deep_view() + seq![
                    running_event(PatchFlowStep::Inject),
                    message_event(
                        PatchFlowStep::Inject,
                        StepStatus::Skipped,
                        "No Discord clients selected for injection"@,
                    ),
                ]
                &&& d == FlowDirective::Proceed
            },
            locations is Ok && locations->Ok_0@.len() > 0 ==> {
                &&& final(self).stage == FlowStage::AwaitInjectRun
                &&& final(self).result.inject == old(self).result.inject
                &&& final(self).failure == old(self).failure
                &&& final(self).compensate_ordered == old(self).compensate_ordered
                &&& final(self).events.deep_view() == old(self).events.deep_view().push(
                    running_event(PatchFlowStep::Inject),
                )
                &&& d == FlowDirective::Proceed
            },
            locations is Err ==> {
                &&& final(self).stage == FlowStage::Aborted
                &&& final(self).failure == Some(locations->Err_0)
                &&& final(self).compensate_ordered == !old(self).quiesced.closing_skipped
                &&& final(self).result.inject == old(self).result.inject
                &&& final(self).events.deep_view() == old(self).events.deep_view().push(
                    running_event(PatchFlowStep::Inject),
                )
                &&& d == (if !old(self).quiesced.closing_skipped {
                    FlowDirective::CompensateAndAbort
                } else {
                    FlowDirective::AbortOnly
                })
            },
            final(self).quiesced == old(self).quiesced,
            final(self).result.close_discord == old(self).result.close_discord,
            final(self).result.backup == old(self).result.backup,
            final(self).result.sync_repo == old(self).result.sync_repo,
            final(self).result.build == old(self).result.build,
            final(self).result.download_themes == old(self).result.download_themes,
            final(self).result.reopen_discord == old(self).result.reopen_discord,
            flow_wf(*final(self)),
    {
        push_event(
            &mut self.events,
            PatchFlowStep::Inject,
            StepStatus::Running,
            Some("Injecting patched files"),
        );
        match locations {
            Ok(locs) => {
                if locs.len() == 0 {
                    self.result.inject = StepResult::skipped(
                        "No Discord clients selected for injection",
                    );
                    self.stage = FlowStage::AwaitThemes;
                    push_event(
                        &mut self.events,
                        PatchFlowStep::Inject,
                        StepStatus::Skipped,
                        Some("No Discord clients selected for injection"),
                    );
                    proof {
                        assert(self.events.deep_view() =~= old(self).events.deep_view()
                            + seq![
                            running_event(PatchFlowStep::Inject),
                            message_event(
                                PatchFlowStep::Inject,
                                StepStatus::Skipped,
                                "No Discord clients selected for injection"@,
                            ),
                        ]);
                    }
                } else {
                    self.stage = FlowStage::AwaitInjectRun;
                }
                FlowDirective::Proceed
            },
            Err(error) => self.abort(error),
        }
    }

    /// Record the injection step's outcome, aborting with compensation
    /// on failure.
    pub fn record_inject_outcome(&mut self, outcome: Result<String, String>) -> (d:
        FlowDirective)
        requires
            old(self).stage == FlowStage::AwaitInjectRun,
            flow_wf(*old(self)),
        ensures
            outcome is Ok ==> {
                &&& final(self).stage == FlowStage::AwaitThemes
                &&& final(self).result.inject.status == StepStatus::Completed
                &&& final(self).result.inject.detail == Some(outcome->Ok_0)
                &&& final(self).failure == old(self).failure
                &&& final(self).compensate_ordered == old(self).compensate_ordered
                &&& final(self).events.deep_view() == old(self).events.deep_view().push(
                    bare_event(PatchFlowStep::Inject, StepStatus::Completed),
                )
                &&& d == FlowDirective::Proceed
            },
            outcome is Err ==> {
                &&& final(self).stage == FlowStage::Aborted
                &&& final(self).failure == Some(outcome->Err_0)
                &&& final(self).compensate_ordered == !old(self).quiesced.closing_skipped
                &&& final(self).result.inject == old(self).result.inject
                &&& final(self).events == old(self).events
                &&& d == (if !old(self).quiesced.closing_skipped {
                    FlowDirective::CompensateAndAbort
                } else {
                    FlowDirective::AbortOnly
                })
            },
            final(self).quiesced == old(self).quiesced,
            final(self).result.close_discord == old(self).result.close_discord,
            final(self).result.backup == old(self).result.backup,
            final(self).result.sync_repo == old(self).result.sync_repo,
            final(self).result.build == old(self).result.build,
            final(self).result.download_themes == old(self).result.download_themes,
            final(self).result.reopen_discord == old(self).result.reopen_discord,
            flow_wf(*final(self)),
    {
        match outcome {
            Ok(message) => {
                self.result.inject = StepResult::completed(message);
                self.stage = FlowStage::AwaitThemes;
                push_event(&mut self.events, PatchFlowStep::Inject, StepStatus::Completed, None);
                FlowDirective::Proceed
            },
            Err(error) => self.abort(error),
        }
    }

    /// Record the theme step: nothing enabled skips it; otherwise its
    /// outcome counts like any middle step, aborting with compensation
    /// on failure.
    pub fn record_themes(&mut self, outcome: Option<Result<String, String>>) -> (d:
        FlowDirective)
        requires
            old(self).stage == FlowStage::AwaitThemes,
            flow_wf(*old(self)),
        ensures
            outcome is None ==> {
                &&& final(self).stage == FlowStage::AwaitReopen
                &&& final(self).result.download_themes.status == StepStatus::Skipped
                &&& final(self).result.download_themes.message is Some
                &&& final(self).result.download_themes.message->0@
                    == "No themes enabled; skipping download"@
                &&& final(self).failure == old(self).failure
                &&& final(self).compensate_ordered == old(self).compensate_ordered
                &&& final(self).events.deep_view() == old(self).events.deep_view() + seq![
                    running_event(PatchFlowStep::DownloadThemes),
                    message_event(
                        PatchFlowStep::DownloadThemes,
                        StepStatus::Skipped,
                        "No themes enabled; skipping download"@,
                    ),
                ]
                &&& d == FlowDirective::Proceed
            },
            outcome matches Some(Ok(m)) ==> {
                &&& final(self).stage == FlowStage::AwaitReopen
                &&& final(self).result.download_themes.status == StepStatus::Completed
                &&& final(self).result.download_themes.detail == Some(m)
                &&& final(self).failure == old(self).failure
                &&& final(self).compensate_ordered == old(self).compensate_ordered
                &&& final(self).events.deep_view() == old(self).events.deep_view() + seq![
                    running_event(PatchFlowStep::DownloadThemes),
                    bare_event(PatchFlowStep::DownloadThemes, StepStatus::Completed),
                ]
                &&& d == FlowDirective::Proceed
            },
            outcome matches Some(Err(e)) ==> {
                &&& final(self).stage == FlowStage::Aborted
                &&& final(self).failure == Some(e)
                &&& final(self).compensate_ordered == !old(self).quiesced.closing_skipped
                &&& final(self).result.download_themes == old(self).result.download_themes
                &&& final(self).events.deep_view() == old(self).events.deep_view().push(
                    running_event(PatchFlowStep::DownloadThemes),
                )
                &&& d == (if !old(self).quiesced.closing_skipped {
                    FlowDirective::CompensateAndAbort
                } else {
                    FlowDirective::AbortOnly
                })
            },
            final(self).quiesced == old(self).quiesced,
            final(self).result.close_discord == old(self).result.close_discord,
            final(self).result.backup == old(self).result.backup,
            final(self).result.sync_repo == old(self).result.sync_repo,
            final(self).result.build == old(self).result.build,
            final(self).result.inject == old(self).result.inject,
            final(self).result.reopen_discord == old(self).result.reopen_discord,
            flow_wf(*final(self)),
    {
        push_event(
            &mut self.events,
            PatchFlowStep::DownloadThemes,
            StepStatus::Running,
            Some("Downloading themes"),
        );
        match outcome {
            None => {
                self.result.download_themes = StepResult::skipped(
                    "No themes enabled; skipping download",
                );
                self.stage = FlowStage::AwaitReopen;
                push_event(
                    &mut self.events,
                    PatchFlowStep::DownloadThemes,
                    StepStatus::Skipped,
                    Some("No themes enabled; skipping download"),
                );
                proof {
                    assert(self.events.deep_view() =~= old(self).events.deep_view() + seq![
                        running_event(PatchFlowStep::DownloadThemes),
                        message_event(
                            PatchFlowStep::DownloadThemes,
                            StepStatus::Skipped,
                            "No themes enabled; skipping download"@,
                        ),
                    ]);
                }
                FlowDirective::Proceed
            },
            Some(Ok(message)) => {
                self.result.download_themes = StepResult::completed(message);
                self.stage = FlowStage::AwaitReopen;
                push_event(
                    &mut self.events,
                    PatchFlowStep::DownloadThemes,
                    StepStatus::Completed,
                    None,
                );
                proof {
                    assert(self.events.deep_view() =~= old(self).events.deep_view() + seq![
                        running_event(PatchFlowStep::DownloadThemes),
                        bare_event(PatchFlowStep::DownloadThemes, StepStatus::Completed),
                    ]);
                }
                FlowDirective::Proceed
            },
            Some(Err(error)) => self.abort(error),
        }
    }

    /// Whether the final step must relaunch anything: only when the
    /// quiesce step actually closed the host.
    pub fn needs_reopen(&self) -> (r: bool)
        ensures
            r == !self.quiesced.closing_skipped,
    {
        !self.quiesced.closing_skipped
    }

    /// Record the relaunch step. When the quiesce was skipped the step
    /// is skipped too; otherwise it completes with whatever names were
    /// restarted — individual relaunch failures only shorten that
    /// list and never fail the run.
    pub fn record_reopen(&mut self, restarted: Option<Vec<String>>)
        requires
            old(self).stage == FlowStage::AwaitReopen,
            flow_wf(*old(self)),
            (restarted is Some) == !old(self).quiesced.closing_skipped,
        ensures
            final(self).stage == FlowStage::Done,
            old(self).quiesced.closing_skipped ==> {
                &&& final(self).result.reopen_discord.status == StepStatus::Skipped
                &&& final(self).result.reopen_discord.message is Some
                &&& final(self).result.reopen_discord.message->0@
                    == "Discord was not closed; no restart needed"@
            },
            !old(self).quiesced.closing_skipped ==> {
                &&& final(self).result.reopen_discord.status == StepStatus::Completed
                &&& final(self).result.reopen_discord.detail == Some(restarted->0)
            },
            final(self).events.deep_view() == old(self).events.deep_view() + seq![
                running_event(PatchFlowStep::ReopenDiscord),
                (if old(self).quiesced.closing_skipped {
                    message_event(
                        PatchFlowStep::ReopenDiscord,
                        StepStatus::Skipped,
                        "Discord was not closed; no restart needed"@,
                    )
                } else {
                    bare_event(PatchFlowStep::ReopenDiscord, StepStatus::Completed)
                }),
            ],
            final(self).quiesced == old(self).quiesced,
            final(self).failure == old(self).failure,
            final(self).compensate_ordered == old(self).compensate_ordered,
            final(self).result.close_discord == old(self).result.close_discord,
            final(self).result.backup == old(self).result.backup,
            final(self).result.sync_repo == old(self).result.sync_repo,
            final(self).result.build == old(self).result.build,
            final(self).result.inject == old(self).result.inject,
            final(self).result.download_themes == old(self).result.download_themes,
            flow_wf(*final(self)),
    {
        push_event(
            &mut self.events,
            PatchFlowStep::ReopenDiscord,
            StepStatus::Running,
            Some("Restarting Discord clients"),
        );
        match restarted {
            Some(names) => {
                self.result.reopen_discord = StepResult::completed(names);
                push_event(
                    &mut self.events,
                    PatchFlowStep::ReopenDiscord,
                    StepStatus::Completed,
                    None,
                );
            },
            None => {
                self.result.reopen_discord = StepResult::skipped(
                    "Discord was not closed; no restart needed",
                );
                push_event(
                    &mut self.events,
                    PatchFlowStep::ReopenDiscord,
                    StepStatus::Skipped,
                    Some("Discord was not closed; no restart needed"),
                );
            },
        }
        self.stage = FlowStage::Done;
        proof {
            assert(self.events.deep_view() =~= old(self).events.deep_view() + seq![
                running_event(PatchFlowStep::ReopenDiscord),
                (if old(self).quiesced.closing_skipped {
                    message_event(
                        PatchFlowStep::ReopenDiscord,
                        StepStatus::Skipped,
                        "Discord was not closed; no restart needed"@,
                    )
                } else {
                    bare_event(PatchFlowStep::ReopenDiscord, StepStatus::Completed)
                }),
            ]);
        }
    }

    /// What the run hands back to its caller: the per-step results of
    /// a finished run, or the single originating error of an aborted
    /// one.
    pub fn into_result(self) -> (r: Result<PatchFlowResult, String>)
        requires
            self.stage == FlowStage::Done || self.stage == FlowStage::Aborted,
            flow_wf(self),
        ensures
            self.stage == FlowStage::Done ==> r == Ok::<PatchFlowResult, String>(self.result),
            self.stage == FlowStage::Aborted ==> r == Err::<PatchFlowResult, String>(
                self.failure->0,
            ),
    {
        if let FlowStage::Done = self.stage {
            Ok(self.result)
        } else {
            match self.failure {
                Some(error) => Err(error),
                None => {
                    proof {
                        assert(false);
                    }
                    Err(String::new())
                },
            }
        }
    }
}

} // verus!
