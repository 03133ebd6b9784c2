//! Checkpoints: the cycle that takes one, and what is made of the answers of `msb` when
//! one is looked up, removed, exported or imported.

use vstd::prelude::*;
use vstd::string::*;

use crate::classify;
use crate::commands;
use crate::ls_json;
use crate::ls_json::LsEntry;
use crate::message_laws;
use crate::messages;
use crate::model;
use crate::model::{ContainerSpec, ErrorView, ExecResult, RightsizeError};
use crate::refs;
use crate::refs::PathStyle;
use crate::text;

verus! {

/// How long the name of a removed sandbox may stay taken, in seconds.
pub const NAME_RELEASE_BUDGET_SECS: u64 = 3;

/// How long the name of a removed sandbox may stay taken, in milliseconds.
pub const NAME_RELEASE_BUDGET_MS: u64 = 3_000;

/// What a checkpoint is taken of, and where it goes.
#[derive(Clone, Debug)]
pub struct CheckpointPlan {
    /// The sandbox.
    pub name: String,
    /// The name of the snapshot.
    pub basename: String,
    /// The directory under which the snapshot goes.
    pub dest_dir: String,
    /// How the host writes its paths.
    pub style: PathStyle,
    /// Whether to ask the guest for the command line of its workload.
    pub capture: bool,
}

/// How far the cycle that takes a checkpoint has come: the command to run next, and what
/// is known by then.
#[derive(Clone, Debug)]
pub enum CycleStage {
    /// Ask the running guest for the command line of its workload.
    Capture,
    /// Stop the sandbox.
    Stop { captured: Option<Vec<String>> },
    /// Take the snapshot.
    Snapshot { captured: Option<Vec<String>> },
    /// Remove the sandbox.
    Remove { captured: Option<Vec<String>>, reference: String },
    /// List the sandboxes until the name is free.
    Release { captured: Option<Vec<String>>, reference: String },
    /// Boot a sandbox from the snapshot.
    Reboot { captured: Option<Vec<String>>, reference: String },
}

/// The contents of a [`CycleStage`].
pub enum StageView {
    Capture,
    Stop(Option<Seq<Seq<char>>>),
    Snapshot(Option<Seq<Seq<char>>>),
    Remove(Option<Seq<Seq<char>>>, Seq<char>),
    Release(Option<Seq<Seq<char>>>, Seq<char>),
    Reboot(Option<Seq<Seq<char>>>, Seq<char>),
}

impl View for CycleStage {
    type V = StageView;

    open spec fn view(&self) -> StageView {
        match self {
            CycleStage::Capture => StageView::Capture,
            CycleStage::Stop { captured } => StageView::Stop(commands::texts_option(*captured)),
            CycleStage::Snapshot { captured } => StageView::Snapshot(
                commands::texts_option(*captured),
            ),
            CycleStage::Remove { captured, reference } => StageView::Remove(
                commands::texts_option(*captured),
                reference@,
            ),
            CycleStage::Release { captured, reference } => StageView::Release(
                commands::texts_option(*captured),
                reference@,
            ),
            CycleStage::Reboot { captured, reference } => StageView::Reboot(
                commands::texts_option(*captured),
                reference@,
            ),
        }
    }
}

/// What follows the command of a stage.
#[derive(Clone, Debug)]
pub enum CycleStep {
    /// Go on with this stage.
    Go(CycleStage),
    /// Wait, then run the command of this stage again.
    Wait(CycleStage),
    /// The cycle failed.
    Fail(RightsizeError),
}

/// The contents of a [`CycleStep`].
pub enum CycleStepView {
    Go(StageView),
    Wait(StageView),
    Fail(ErrorView),
}

impl View for CycleStep {
    type V = CycleStepView;

    open spec fn view(&self) -> CycleStepView {
        match self {
            CycleStep::Go(stage) => CycleStepView::Go(stage@),
            CycleStep::Wait(stage) => CycleStepView::Wait(stage@),
            CycleStep::Fail(error) => CycleStepView::Fail(error@),
        }
    }
}

/// The stage that a cycle begins with.
pub open spec fn first_stage(capture: bool) -> StageView {
    if capture {
        StageView::Capture
    } else {
        StageView::Stop(None)
    }
}

/// Begins the cycle that takes a checkpoint.
pub fn begin_cycle(plan: &CheckpointPlan) -> (stage: CycleStage)
    ensures
        stage@ == first_stage(plan.capture),
{
    if plan.capture {
        CycleStage::Capture
    } else {
        CycleStage::Stop { captured: None }
    }
}

/// The command of a stage; none where the sandbox is to be booted.
pub open spec fn stage_command(plan: CheckpointPlan, stage: StageView) -> Option<Seq<Seq<char>>> {
    match stage {
        StageView::Capture => Some(commands::capture_argv(plan.name@)),
        StageView::Stop(_) => Some(seq!["stop"@, plan.name@]),
        StageView::Snapshot(_) => Some(
            commands::snapshot_create_in_argv(plan.name@, plan.basename@, plan.dest_dir@),
        ),
        StageView::Remove(_, _) => Some(seq!["rm"@, plan.name@]),
        StageView::Release(_, _) => Some(seq!["ls"@, "--format"@, "json"@]),
        StageView::Reboot(_, _) => None,
    }
}

/// The command of a stage; none where the sandbox is to be booted.
pub fn cycle_command(plan: &CheckpointPlan, stage: &CycleStage) -> (argv: Option<Vec<String>>)
    ensures
        commands::texts_option(argv) == stage_command(*plan, stage@),
{
    match stage {
        CycleStage::Capture => Some(commands::capture_workload_cmdline(plan.name.as_str())),
        CycleStage::Stop { .. } => Some(commands::stop(plan.name.as_str())),
        CycleStage::Snapshot { .. } => Some(
            commands::snapshot_create_in(
                plan.name.as_str(),
                plan.basename.as_str(),
                plan.dest_dir.as_str(),
            ),
        ),
        CycleStage::Remove { .. } => Some(commands::rm(plan.name.as_str())),
        CycleStage::Release { .. } => Some(commands::ls()),
        CycleStage::Reboot { .. } => None,
    }
}

/// What the answer to the capture command gives; nothing where it failed.
pub open spec fn captured_by(result: Result<ExecResult, RightsizeError>) -> Option<Seq<Seq<char>>> {
    match result {
        Ok(result) => if result.exit_code == 0 {
            commands::captured_cmdline(result.stdout@)
        } else {
            None
        },
        Err(_) => None,
    }
}

/// Whether the answer to the listing command shows that a name is free: the command
/// succeeded, the listing could be read, and the name is not in it.
pub open spec fn confirms_absent(
    result: Result<ExecResult, RightsizeError>,
    listing: Option<Vec<LsEntry>>,
    name: Seq<char>,
) -> bool {
    result matches Ok(result) && result.exit_code == 0 && ls_json::try_is_listed_spec(listing, name)
        == Some(false)
}

/// The error of a cycle in which the name of the removed sandbox stayed taken.
pub open spec fn not_released_error(name: Seq<char>, reference: Seq<char>) -> ErrorView {
    ErrorView::Backend(
        messages::state_preserved(
            messages::name_not_released(name, NAME_RELEASE_BUDGET_SECS as nat),
            reference,
        ),
    )
}

/// What follows a snapshot command: its artifact path, or an error that leaves the
/// sandbox stopped.
pub open spec fn snapshot_outcome(
    plan: CheckpointPlan,
    result: Result<ExecResult, RightsizeError>,
) -> Result<Seq<char>, ErrorView> {
    match result {
        Ok(result) => if result.exit_code != 0 {
            Err(
                ErrorView::Backend(
                    messages::snapshot_exited(
                        plan.name@,
                        plan.basename@,
                        plan.dest_dir@,
                        result.exit_code as int,
                        text::trim_spec(result.stderr@),
                    ),
                ),
            )
        } else {
            match refs::path_on_last_line(plan.style, result.stdout@) {
                Some(reference) => Ok(reference),
                None => Err(
                    ErrorView::Backend(
                        messages::snapshot_unreadable(
                            plan.name@,
                            plan.basename@,
                            plan.dest_dir@,
                            result.stdout@,
                        ),
                    ),
                ),
            }
        },
        Err(error) => Err(
            ErrorView::Backend(
                messages::snapshot_not_run(
                    plan.name@,
                    plan.basename@,
                    plan.dest_dir@,
                    model::error_text(error@),
                ),
            ),
        ),
    }
}

/// What follows the command of a stage. `listing` is what a listing command printed, read;
/// `elapsed_ms` is the time since the sandbox was removed.
pub open spec fn cycle_step_spec(
    plan: CheckpointPlan,
    stage: StageView,
    result: Result<ExecResult, RightsizeError>,
    listing: Option<Vec<LsEntry>>,
    elapsed_ms: u64,
) -> CycleStepView {
    match stage {
        StageView::Capture => CycleStepView::Go(StageView::Stop(captured_by(result))),
        StageView::Stop(captured) => match result {
            Err(error) => CycleStepView::Fail(error@),
            Ok(result) => if result.exit_code != 0 {
                CycleStepView::Fail(
                    ErrorView::Backend(
                        messages::stop_failed(
                            plan.name@,
                            result.exit_code as int,
                            text::trim_spec(result.stderr@),
                        ),
                    ),
                )
            } else {
                CycleStepView::Go(StageView::Snapshot(captured))
            },
        },
        StageView::Snapshot(captured) => match snapshot_outcome(plan, result) {
            Ok(reference) => CycleStepView::Go(StageView::Remove(captured, reference)),
            Err(error) => CycleStepView::Fail(error),
        },
        StageView::Remove(captured, reference) => CycleStepView::Go(
            StageView::Release(captured, reference),
        ),
        StageView::Release(captured, reference) => if confirms_absent(
            result,
            listing,
            plan.name@,
        ) {
            CycleStepView::Go(StageView::Reboot(captured, reference))
        } else if elapsed_ms >= NAME_RELEASE_BUDGET_MS {
            CycleStepView::Fail(not_released_error(plan.name@, reference))
        } else {
            CycleStepView::Wait(StageView::Release(captured, reference))
        },
        StageView::Reboot(captured, reference) => CycleStepView::Go(
            StageView::Reboot(captured, reference),
        ),
    }
}

/// Judges a snapshot command.
fn judge_snapshot(plan: &CheckpointPlan, result: Result<ExecResult, RightsizeError>) -> (outcome:
    Result<String, RightsizeError>)
    ensures
        match (outcome, snapshot_outcome(*plan, result)) {
            (Ok(got), Ok(want)) => got@ == want,
            (Err(got), Err(want)) => got@ == want,
            _ => false,
        },
{
    let name = plan.name.as_str();
    let basename = plan.basename.as_str();
    let dest_dir = plan.dest_dir.as_str();
    match result {
        Ok(result) => {
            if result.exit_code != 0 {
                let stderr = text::trim(result.stderr.as_str());
                return Err(
                    RightsizeError::Backend(
                        messages::snapshot_exited_text(
                            name,
                            basename,
                            dest_dir,
                            result.exit_code,
                            stderr.as_str(),
                        ),
                    ),
                );
            }
            match refs::parse_snapshot_create_ref(plan.style, result.stdout.as_str()) {
                Some(reference) => Ok(reference),
                None => Err(
                    RightsizeError::Backend(
                        messages::snapshot_unreadable_text(
                            name,
                            basename,
                            dest_dir,
                            result.stdout.as_str(),
                        ),
                    ),
                ),
            }
        },
        Err(error) => {
            let shown = error.message();
            Err(
                RightsizeError::Backend(
                    messages::snapshot_not_run_text(name, basename, dest_dir, shown.as_str()),
                ),
            )
        },
    }
}

/// Decides what follows the command of a stage.
pub fn cycle_step(
    plan: &CheckpointPlan,
    stage: CycleStage,
    result: Result<ExecResult, RightsizeError>,
    listing: &Option<Vec<LsEntry>>,
    elapsed_ms: u64,
) -> (step: CycleStep)
    ensures
        step@ == cycle_step_spec(*plan, stage@, result, *listing, elapsed_ms),
{
    match stage {
        CycleStage::Capture => {
            let captured = match result {
                Ok(result) => {
                    if result.exit_code == 0 {
                        commands::parse_captured_cmdline(result.stdout.as_str())
                    } else {
                        None
                    }
                },
                Err(_) => None,
            };
            CycleStep::Go(CycleStage::Stop { captured })
        },
        CycleStage::Stop { captured } => match result {
            Err(error) => CycleStep::Fail(error),
            Ok(result) => {
                if result.exit_code != 0 {
                    let stderr = text::trim(result.stderr.as_str());
                    CycleStep::Fail(
                        RightsizeError::Backend(
                            messages::stop_failed_text(
                                plan.name.as_str(),
                                result.exit_code,
                                stderr.as_str(),
                            ),
                        ),
                    )
                } else {
                    CycleStep::Go(CycleStage::Snapshot { captured })
                }
            },
        },
        CycleStage::Snapshot { captured } => match judge_snapshot(plan, result) {
            Ok(reference) => CycleStep::Go(CycleStage::Remove { captured, reference }),
            Err(error) => CycleStep::Fail(error),
        },
        CycleStage::Remove { captured, reference } => CycleStep::Go(
            CycleStage::Release { captured, reference },
        ),
        CycleStage::Release { captured, reference } => {
            let succeeded = match &result {
                Ok(result) => result.exit_code == 0,
                Err(_) => false,
            };
            let absent = match ls_json::try_is_listed(listing, plan.name.as_str()) {
                Some(listed) => !listed,
                None => false,
            };
            if succeeded && absent {
                CycleStep::Go(CycleStage::Reboot { captured, reference })
            } else if elapsed_ms >= NAME_RELEASE_BUDGET_MS {
                let stuck = messages::name_not_released_text(
                    plan.name.as_str(),
                    NAME_RELEASE_BUDGET_SECS,
                );
                CycleStep::Fail(
                    RightsizeError::Backend(
                        messages::state_preserved_text(stuck.as_str(), reference.as_str()),
                    ),
                )
            } else {
                CycleStep::Wait(CycleStage::Release { captured, reference })
            }
        },
        CycleStage::Reboot { captured, reference } => CycleStep::Go(
            CycleStage::Reboot { captured, reference },
        ),
    }
}

/// The place of a stage in the cycle.
pub open spec fn rank(stage: StageView) -> int {
    match stage {
        StageView::Capture => 0,
        StageView::Stop(_) => 1,
        StageView::Snapshot(_) => 2,
        StageView::Remove(_, _) => 3,
        StageView::Release(_, _) => 4,
        StageView::Reboot(_, _) => 5,
    }
}

/// The stages of a cycle follow one another in one order, and none is left out: the
/// command line is captured before the sandbox is stopped, the snapshot is taken before
/// the sandbox is removed, and the removal is over before a sandbox is booted.
pub proof fn law_stages_follow_in_order(
    plan: CheckpointPlan,
    stage: StageView,
    result: Result<ExecResult, RightsizeError>,
    listing: Option<Vec<LsEntry>>,
    elapsed_ms: u64,
)
    requires
        !(stage is Reboot),
    ensures
        match cycle_step_spec(plan, stage, result, listing, elapsed_ms) {
            CycleStepView::Go(next) => rank(next) == rank(stage) + 1,
            CycleStepView::Wait(next) => next == stage && stage is Release,
            CycleStepView::Fail(_) => true,
        },
{
}

/// A snapshot that failed, or whose place was not said, ends the cycle: the sandbox is
/// neither removed nor booted. The sandbox is removed only once the absolute path of its
/// snapshot is known.
pub proof fn law_no_removal_without_a_snapshot(
    plan: CheckpointPlan,
    captured: Option<Seq<Seq<char>>>,
    result: Result<ExecResult, RightsizeError>,
    listing: Option<Vec<LsEntry>>,
    elapsed_ms: u64,
)
    ensures
        match cycle_step_spec(plan, StageView::Snapshot(captured), result, listing, elapsed_ms) {
            CycleStepView::Go(next) => {
                &&& result matches Ok(result) && result.exit_code == 0
                &&& next matches StageView::Remove(kept, reference) && kept == captured
                    && refs::is_absolute_spec(plan.style, reference)
            },
            CycleStepView::Wait(_) => false,
            CycleStepView::Fail(_) => true,
        },
{
}

/// A sandbox is booted only after a listing that could be read showed that the name is
/// free; a listing that failed or was garbled never counts as one.
pub proof fn law_boot_only_once_the_name_is_free(
    plan: CheckpointPlan,
    stage: StageView,
    result: Result<ExecResult, RightsizeError>,
    listing: Option<Vec<LsEntry>>,
    elapsed_ms: u64,
)
    requires
        !(stage is Reboot),
        cycle_step_spec(plan, stage, result, listing, elapsed_ms) matches CycleStepView::Go(next)
            && next is Reboot,
    ensures
        stage is Release,
        result matches Ok(result) && result.exit_code == 0,
        listing matches Some(entries) && !ls_json::names_sandbox(entries@, plan.name@),
{
}

/// The command line that was captured, and the reference of the snapshot, stay what they
/// are until the sandbox is booted.
pub proof fn law_cycle_keeps_what_it_learned(
    plan: CheckpointPlan,
    captured: Option<Seq<Seq<char>>>,
    reference: Seq<char>,
    result: Result<ExecResult, RightsizeError>,
    listing: Option<Vec<LsEntry>>,
    elapsed_ms: u64,
)
    ensures
        cycle_step_spec(plan, StageView::Stop(captured), result, listing, elapsed_ms) matches
            CycleStepView::Go(next) ==> next == StageView::Snapshot(captured),
        cycle_step_spec(
            plan,
            StageView::Remove(captured, reference),
            result,
            listing,
            elapsed_ms,
        ) == CycleStepView::Go(StageView::Release(captured, reference)),
        cycle_step_spec(
            plan,
            StageView::Release(captured, reference),
            result,
            listing,
            elapsed_ms,
        ) matches CycleStepView::Go(next) ==> next == StageView::Reboot(captured, reference),
{
}

/// The answer to the command of one stage: its result, the listing read from it, and the
/// time since the sandbox was removed.
pub struct Answer {
    pub result: Result<ExecResult, RightsizeError>,
    pub listing: Option<Vec<LsEntry>>,
    pub elapsed_ms: u64,
}

/// The stage that a cycle has come to after answers; none where it failed, or where it was
/// over before the last of them.
pub open spec fn stage_after(plan: CheckpointPlan, answers: Seq<Answer>) -> Option<StageView>
    decreases answers.len(),
{
    if answers.len() == 0 {
        Some(first_stage(plan.capture))
    } else {
        match stage_after(plan, answers.drop_last()) {
            None => None,
            Some(stage) => {
                let answer = answers.last();
                match cycle_step_spec(
                    plan,
                    stage,
                    answer.result,
                    answer.listing,
                    answer.elapsed_ms,
                ) {
                    CycleStepView::Fail(_) => None,
                    CycleStepView::Go(next) => if stage is Reboot {
                        None
                    } else {
                        Some(next)
                    },
                    CycleStepView::Wait(next) => Some(next),
                }
            },
        }
    }
}

/// The place among the answers of the one to the stop command.
pub open spec fn stop_at(plan: CheckpointPlan) -> int {
    if plan.capture {
        1
    } else {
        0
    }
}

/// What is true of the answers that brought a cycle to a stage.
pub open spec fn reached_by(plan: CheckpointPlan, stage: StageView, answers: Seq<Answer>) -> bool {
    let at = stop_at(plan);
    let captured = if plan.capture && answers.len() > 0 {
        captured_by(answers[0].result)
    } else {
        None
    };
    let stopped = answers.len() > at && (answers[at].result matches Ok(result) && result.exit_code
        == 0);
    match stage {
        StageView::Capture => plan.capture && answers.len() == 0,
        StageView::Stop(kept) => answers.len() == at && kept == captured,
        StageView::Snapshot(kept) => answers.len() == at + 1 && kept == captured && stopped,
        StageView::Remove(kept, reference) => answers.len() == at + 2 && kept == captured && stopped
            && snapshot_outcome(plan, answers[at + 1].result)
            == Ok::<Seq<char>, ErrorView>(reference),
        StageView::Release(kept, reference) => answers.len() >= at + 3 && kept == captured
            && stopped && snapshot_outcome(plan, answers[at + 1].result)
            == Ok::<Seq<char>, ErrorView>(reference),
        StageView::Reboot(kept, reference) => answers.len() >= at + 4 && kept == captured && stopped
            && snapshot_outcome(plan, answers[at + 1].result)
            == Ok::<Seq<char>, ErrorView>(reference) && confirms_absent(
            answers.last().result,
            answers.last().listing,
            plan.name@,
        ),
    }
}

/// However the commands of a cycle are answered, a cycle that comes to boot a sandbox has
/// stopped the old one, holds the reference that the snapshot command printed and the command
/// line that was captured first of all, has had the sandbox removed, and has last seen a
/// listing that shows the name to be free.
pub proof fn law_boot_is_earned(plan: CheckpointPlan, answers: Seq<Answer>)
    ensures
        stage_after(plan, answers) matches Some(stage) ==> reached_by(plan, stage, answers),
    decreases answers.len(),
{
    if answers.len() > 0 {
        let before = answers.drop_last();
        law_boot_is_earned(plan, before);
        assert forall|i: int| 0 <= i < before.len() implies #[trigger] before[i] == answers[i] by {}
        if let Some(stage) = stage_after(plan, before) {
            let at = stop_at(plan);
            if before.len() > 0 {
                assert(before[0] == answers[0]);
            }
            if before.len() > at {
                assert(before[at] == answers[at]);
            }
            if before.len() > at + 1 {
                assert(before[at + 1] == answers[at + 1]);
            }
        }
    }
}

/// Plans a checkpoint of a container. None may be taken where its root file system lives in
/// memory; the command line of its workload is asked for where the container names no command
/// itself.
pub fn plan_checkpoint(
    spec: &ContainerSpec,
    basename: &str,
    dest_dir: &str,
    style: PathStyle,
) -> (outcome: Result<CheckpointPlan, RightsizeError>)
    ensures
        match outcome {
            Ok(plan) => {
                &&& spec.tmpfs_root_mb is None
                &&& plan.name@ == spec.name@
                &&& plan.basename@ == basename@
                &&& plan.dest_dir@ == dest_dir@
                &&& plan.style == style
                &&& plan.capture == (spec.command is None)
            },
            Err(error) => spec.tmpfs_root_mb is Some && error@ == ErrorView::TmpfsRootCheckpoint,
        },
{
    if spec.tmpfs_root_mb.is_some() {
        return Err(RightsizeError::TmpfsRootCheckpoint);
    }
    Ok(
        CheckpointPlan {
            name: spec.name.clone(),
            basename: basename.to_owned(),
            dest_dir: dest_dir.to_owned(),
            style,
            capture: spec.command.is_none(),
        },
    )
}

/// Whether `msb` gave a definite answer on a snapshot: it did what was asked, or it knows
/// no such snapshot.
pub open spec fn definite_answer(result: ExecResult) -> bool {
    result.exit_code == 0 || classify::names_snapshot_not_found(
        text::lowercased(classify::both_outputs(result.stdout@, result.stderr@)),
    )
}

/// The directory of a path reference.
pub open spec fn artifact_dir(style: PathStyle, checkpoint_ref: Seq<char>) -> Option<Seq<char>> {
    if refs::is_absolute_spec(style, checkpoint_ref) {
        Some(checkpoint_ref)
    } else {
        None
    }
}

/// Judges `msb snapshot rm`: where it left no snapshot behind, the artifact directory of a
/// path reference is to be swept; where it refused, nothing is.
pub fn after_snapshot_rm(style: PathStyle, checkpoint_ref: &str, result: &ExecResult) -> (outcome:
    Result<Option<String>, RightsizeError>)
    ensures
        match outcome {
            Ok(sweep) => definite_answer(*result) && model::text_option(sweep) == artifact_dir(
                style,
                checkpoint_ref@,
            ),
            Err(error) => !definite_answer(*result) && error@ == ErrorView::Backend(
                messages::checkpoint_not_removed(
                    checkpoint_ref@,
                    result.exit_code as int,
                    text::trim_spec(result.stderr@),
                ),
            ),
        },
{
    let combined = classify::combine_outputs(result.stdout.as_str(), result.stderr.as_str());
    if result.exit_code == 0 || classify::is_snapshot_not_found(combined.as_str()) {
        return Ok(refs::path_ref_dir(style, checkpoint_ref));
    }
    let stderr = text::trim(result.stderr.as_str());
    Err(
        RightsizeError::Backend(
            messages::checkpoint_not_removed_text(
                checkpoint_ref,
                result.exit_code,
                stderr.as_str(),
            ),
        ),
    )
}

/// How to find out whether a checkpoint is there.
#[derive(Clone, Debug)]
pub enum CheckpointProbe {
    /// Look at this directory; see [`refs::path_ref_artifact_exists`].
    Look { dir: String },
    /// Run this command; see [`after_snapshot_inspect`].
    Ask { argv: Vec<String> },
}

/// How to find out whether a checkpoint is there: a path reference names the directory of
/// its artifact, and `msb` is asked about any other.
pub fn probe_checkpoint(style: PathStyle, checkpoint_ref: &str) -> (probe: CheckpointProbe)
    ensures
        match probe {
            CheckpointProbe::Look { dir } => artifact_dir(style, checkpoint_ref@) == Some(dir@),
            CheckpointProbe::Ask { argv } => artifact_dir(style, checkpoint_ref@) is None
                && text::texts(argv@) == seq!["snapshot"@, "inspect"@, checkpoint_ref@],
        },
{
    match refs::path_ref_dir(style, checkpoint_ref) {
        Some(dir) => CheckpointProbe::Look { dir },
        None => CheckpointProbe::Ask { argv: commands::snapshot_inspect(checkpoint_ref) },
    }
}

/// Judges `msb snapshot inspect`: there, not there, or nobody can say.
pub fn after_snapshot_inspect(checkpoint_ref: &str, result: &ExecResult) -> (outcome: Result<
    bool,
    RightsizeError,
>)
    ensures
        match outcome {
            Ok(there) => there == (result.exit_code == 0) && definite_answer(*result),
            Err(error) => !definite_answer(*result) && error@ == ErrorView::Backend(
                messages::checkpoint_not_inspected(
                    checkpoint_ref@,
                    result.exit_code as int,
                    text::trim_spec(result.stderr@),
                ),
            ),
        },
{
    if result.exit_code == 0 {
        return Ok(true);
    }
    let combined = classify::combine_outputs(result.stdout.as_str(), result.stderr.as_str());
    if classify::is_snapshot_not_found(combined.as_str()) {
        return Ok(false);
    }
    let stderr = text::trim(result.stderr.as_str());
    Err(
        RightsizeError::Backend(
            messages::checkpoint_not_inspected_text(
                checkpoint_ref,
                result.exit_code,
                stderr.as_str(),
            ),
        ),
    )
}

/// Whether an export failed in the one way that leaves a complete archive under another
/// name.
pub open spec fn export_may_be_salvaged(result: ExecResult) -> bool {
    result.exit_code != 0 && classify::names_archive_fsync_access_denied(result.stderr@)
}

/// Whether an export failed in the one way that leaves a complete archive under another
/// name.
pub fn wants_salvage(result: &ExecResult) -> (yes: bool)
    ensures
        yes == export_may_be_salvaged(*result),
{
    result.exit_code != 0 && classify::is_archive_fsync_access_denied(result.stderr.as_str())
}

/// Judges `msb snapshot save`; `salvaged` is whether the archive that it left under another
/// name was put in place.
pub fn after_export(checkpoint_ref: &str, dest: &str, result: &ExecResult, salvaged: bool) ->
    (outcome: Result<(), RightsizeError>)
    ensures
        match outcome {
            Ok(()) => result.exit_code == 0 || (export_may_be_salvaged(*result) && salvaged),
            Err(error) => {
                &&& result.exit_code != 0 && !(export_may_be_salvaged(*result) && salvaged)
                &&& error@ == ErrorView::Backend(
                    messages::export_failed(
                        checkpoint_ref@,
                        dest@,
                        result.exit_code as int,
                        text::trim_spec(result.stderr@),
                    ),
                )
            },
        },
{
    if result.exit_code == 0 || (wants_salvage(result) && salvaged) {
        return Ok(());
    }
    let stderr = text::trim(result.stderr.as_str());
    Err(
        RightsizeError::Backend(
            messages::export_failed_text(checkpoint_ref, dest, result.exit_code, stderr.as_str()),
        ),
    )
}

/// Whether the archive to load was there already.
pub open spec fn archive_was_there(result: ExecResult) -> bool {
    classify::names_snapshot_already_exists(
        text::lowercased(classify::both_outputs(result.stdout@, result.stderr@)),
    )
}

/// The reference of a loaded archive, or the error. An archive that was there already is
/// as good as one that was loaded: its contents name it. Its path may then stand at the
/// end of the error message only.
pub open spec fn import_outcome(style: PathStyle, result: ExecResult) -> Result<
    Seq<char>,
    ErrorView,
> {
    if result.exit_code != 0 && !archive_was_there(result) {
        Err(
            ErrorView::Backend(
                messages::import_failed(
                    result.exit_code as int,
                    text::trim_spec(result.stderr@),
                ),
            ),
        )
    } else {
        match refs::path_on_last_line(style, result.stdout@) {
            Some(reference) => Ok(reference),
            None => {
                let unreadable = Err(
                    ErrorView::Backend(
                        messages::import_unreadable(result.stdout@, result.stderr@),
                    ),
                );
                if archive_was_there(result) {
                    match refs::path_ending_last_line(style, result.stderr@) {
                        Some(reference) => Ok(reference),
                        None => unreadable,
                    }
                } else {
                    unreadable
                }
            },
        }
    }
}

/// Judges `msb snapshot load`.
pub fn after_import(style: PathStyle, result: &ExecResult) -> (outcome: Result<
    String,
    RightsizeError,
>)
    ensures
        match (outcome, import_outcome(style, *result)) {
            (Ok(got), Ok(want)) => got@ == want,
            (Err(got), Err(want)) => got@ == want,
            _ => false,
        },
{
    let combined = classify::combine_outputs(result.stdout.as_str(), result.stderr.as_str());
    let already = classify::is_snapshot_already_exists(combined.as_str());
    if result.exit_code != 0 && !already {
        let stderr = text::trim(result.stderr.as_str());
        return Err(
            RightsizeError::Backend(
                messages::import_failed_text(result.exit_code, stderr.as_str()),
            ),
        );
    }
    match refs::parse_snapshot_load_ref(style, result.stdout.as_str()) {
        Some(reference) => {
            return Ok(reference);
        },
        None => {},
    }
    if already {
        match refs::parse_already_exists_stderr_ref(style, result.stderr.as_str()) {
            Some(reference) => {
                return Ok(reference);
            },
            None => {},
        }
    }
    Err(
        RightsizeError::Backend(
            messages::import_unreadable_text(result.stdout.as_str(), result.stderr.as_str()),
        ),
    )
}

/// An import that succeeds gives an absolute path, never a guess.
pub proof fn law_imported_ref_is_absolute(style: PathStyle, result: ExecResult)
    ensures
        import_outcome(style, result) matches Ok(reference) ==> refs::is_absolute_spec(
            style,
            reference,
        ),
{
}

/// One entry of a directory: its name, where it is text, and whether it is a regular file.
#[derive(Clone, Debug)]
pub struct DirEntry {
    pub name: Option<String>,
    pub is_file: bool,
}

/// What the name of a staging file for an archive begins with.
pub open spec fn staging_prefix(dest_name: Seq<char>) -> Seq<char> {
    "."@ + dest_name + ".tmp."@
}

/// Whether an entry has the name of a staging file for an archive.
pub open spec fn is_staging(entry: DirEntry, dest_name: Seq<char>) -> bool {
    entry.name matches Some(name) && staging_prefix(dest_name).is_prefix_of(name@)
}

/// Whether an entry is the only one with the name of a staging file, and a regular file.
pub open spec fn is_only_staging(entries: Seq<DirEntry>, dest_name: Seq<char>, at: int) -> bool {
    &&& 0 <= at < entries.len()
    &&& is_staging(entries[at], dest_name)
    &&& entries[at].is_file
    &&& forall|other: int|
        0 <= other < entries.len() && is_staging(#[trigger] entries[other], dest_name) ==> other
            == at
}

/// Whether an entry has the name of a staging file for an archive.
fn entry_is_staging(entry: &DirEntry, prefix: &str, Ghost(dest_name): Ghost<Seq<char>>) -> (yes:
    bool)
    requires
        prefix@ == staging_prefix(dest_name),
    ensures
        yes == is_staging(*entry, dest_name),
{
    match &entry.name {
        Some(name) => text::starts_with(name.as_str(), prefix),
        None => false,
    }
}

/// Picks the staging file that a failed export left beside its destination: the only entry
/// with such a name, where it is a regular file. With two of them nothing is picked.
pub fn pick_staging_file(dest_name: &str, entries: &[DirEntry]) -> (picked: Option<usize>)
    ensures
        match picked {
            Some(at) => is_only_staging(entries@, dest_name@, at as int),
            None => forall|at: int| !is_only_staging(entries@, dest_name@, at),
        },
{
    let mut prefix = ".".to_owned();
    prefix.append(dest_name);
    prefix.append(".tmp.");
    let mut found: Option<usize> = None;
    let mut i: usize = 0;
    while i < entries.len()
        invariant
            i <= entries@.len(),
            prefix@ == staging_prefix(dest_name@),
            match found {
                Some(at) => at < i && is_staging(entries@[at as int], dest_name@)
                    && entries@[at as int].is_file && forall|other: int|
                    0 <= other < i && is_staging(#[trigger] entries@[other], dest_name@) ==> other
                        == at,
                None => forall|other: int|
                    0 <= other < i ==> !is_staging(#[trigger] entries@[other], dest_name@),
            },
        decreases entries.len() - i,
    {
        if entry_is_staging(&entries[i], prefix.as_str(), Ghost(dest_name@)) {
            assert(is_staging(entries@[i as int], dest_name@));
            if !entries[i].is_file || found.is_some() {
                proof {
                    let earlier = found;
                    assert forall|at: int| !is_only_staging(entries@, dest_name@, at) by {
                        if is_only_staging(entries@, dest_name@, at) {
                            assert(at == i);
                            if let Some(first) = earlier {
                                assert(is_staging(entries@[first as int], dest_name@));
                            }
                        }
                    }
                }
                return None;
            }
            found = Some(i);
        }
        i = i + 1;
    }
    found
}

/// A cycle begins with asking for the command line exactly where that is asked for, and with
/// stopping the sandbox otherwise, with no command line known.
pub proof fn law_how_a_cycle_begins()
    ensures
        first_stage(true) == StageView::Capture,
        first_stage(false) == StageView::Stop(None),
{
}

/// Each stage runs one command, on the sandbox of the plan; the last one runs none. What was
/// learned on the way does not change the commands.
pub proof fn law_each_stage_has_its_command(
    plan: CheckpointPlan,
    captured: Option<Seq<Seq<char>>>,
    reference: Seq<char>,
)
    ensures
        stage_command(plan, StageView::Capture) == Some(
            commands::exec_argv(
                plan.name@,
                seq!["sh"@, "-c"@, commands::CAPTURE_CMDLINE_SCRIPT@],
            ),
        ),
        stage_command(plan, StageView::Stop(captured)) == Some(seq!["stop"@, plan.name@]),
        stage_command(plan, StageView::Snapshot(captured)) == Some(
            seq![
                "snapshot"@,
                "create"@,
                "--from-sandbox"@,
                plan.name@,
                plan.basename@,
                "--dest-dir"@,
                plan.dest_dir@,
            ],
        ),
        stage_command(plan, StageView::Remove(captured, reference)) == Some(
            seq!["rm"@, plan.name@],
        ),
        stage_command(plan, StageView::Release(captured, reference)) == Some(
            seq!["ls"@, "--format"@, "json"@],
        ),
        stage_command(plan, StageView::Reboot(captured, reference)) is None,
{
}

/// The arguments that the guest lists for its workload are the ones that are kept, one for one;
/// a guest that cannot be asked, or fails, leaves none, and does not end the cycle.
pub proof fn law_a_command_line_is_captured(
    plan: CheckpointPlan,
    argv: Seq<Seq<char>>,
    result: ExecResult,
    error: RightsizeError,
    listing: Option<Vec<LsEntry>>,
    elapsed_ms: u64,
)
    requires
        argv.len() > 0,
        forall|i: int, j: int|
            0 <= i < argv.len() && 0 <= j < argv[i].len() ==> #[trigger] argv[i][j] != '\0',
    ensures
        result.exit_code == 0 && result.stdout@ == commands::nul_terminated(argv)
            ==> cycle_step_spec(plan, StageView::Capture, Ok(result), listing, elapsed_ms)
            == CycleStepView::Go(StageView::Stop(Some(argv))),
        result.exit_code != 0 ==> cycle_step_spec(
            plan,
            StageView::Capture,
            Ok(result),
            listing,
            elapsed_ms,
        ) == CycleStepView::Go(StageView::Stop(None)),
        cycle_step_spec(plan, StageView::Capture, Err(error), listing, elapsed_ms)
            == CycleStepView::Go(StageView::Stop(None)),
{
    commands::law_captured_cmdline_is_read_back(argv);
}

/// A sandbox that stopped is snapshot, with the command line that was captured. One that did not
/// ends the cycle, with an error that tells it, the exit code and what the command said; an
/// error in running the command is passed on as it is.
pub proof fn law_only_a_stopped_sandbox_is_snapshot(
    plan: CheckpointPlan,
    captured: Option<Seq<Seq<char>>>,
    result: ExecResult,
    error: RightsizeError,
    listing: Option<Vec<LsEntry>>,
    elapsed_ms: u64,
)
    ensures
        cycle_step_spec(plan, StageView::Stop(captured), Err(error), listing, elapsed_ms)
            == CycleStepView::Fail(error@),
        match cycle_step_spec(plan, StageView::Stop(captured), Ok(result), listing, elapsed_ms) {
            CycleStepView::Go(next) => result.exit_code == 0 && next == StageView::Snapshot(
                captured,
            ),
            CycleStepView::Fail(ErrorView::Backend(message)) => result.exit_code != 0
                && text::contains_text(message, "msb stop "@ + plan.name@ + " failed before taking a"@)
                && text::contains_text(
                message,
                "before taking a checkpoint (exit "@ + text::decimal_int(result.exit_code as int)
                    + "): "@,
            ) && text::contains_text(message, "): "@ + text::trim_spec(result.stderr@)),
            _ => false,
        },
{
    message_laws::law_stop_failed_tells_all(
        plan.name@,
        result.exit_code as int,
        text::trim_spec(result.stderr@),
    );
}

/// A snapshot that was taken and printed its absolute path last goes on to the removal with that
/// path, whatever white space stands inside it, and with the command line that was captured.
pub proof fn law_a_snapshot_goes_by_the_path_it_printed(
    plan: CheckpointPlan,
    captured: Option<Seq<Seq<char>>>,
    output: Seq<char>,
    path: Seq<char>,
    result: ExecResult,
    listing: Option<Vec<LsEntry>>,
    elapsed_ms: u64,
)
    requires
        result.exit_code == 0,
        result.stdout@ == path + "\n"@ || result.stdout@ == output + "\n"@ + path + "\n"@,
        refs::is_absolute_spec(plan.style, path),
        !path.contains('\n'),
        !text::is_white_space(path[0]),
        !text::is_white_space(path.last()),
    ensures
        cycle_step_spec(plan, StageView::Snapshot(captured), Ok(result), listing, elapsed_ms)
            == CycleStepView::Go(StageView::Remove(captured, path)),
{
    reveal_strlit("\n");
    text::law_white_space_in_ascii('\n');
    assert("\n"@[0] == '\n');
    refs::law_a_path_on_the_last_line_is_read_whole(
        plan.style,
        output,
        Seq::empty(),
        path,
        "\n"@,
    );
    assert(Seq::<char>::empty() + path + "\n"@ =~= path + "\n"@);
}

/// Whether a message tells the snapshot that was to be taken, and how to bring the sandbox back.
pub open spec fn names_the_snapshot(message: Seq<char>, plan: CheckpointPlan) -> bool {
    &&& text::contains_text(message, "snapshot create --from-sandbox "@ + plan.name@ + " "@)
    &&& text::contains_text(message, " "@ + plan.basename@ + " --dest-dir "@)
    &&& text::contains_text(message, plan.dest_dir@)
    &&& text::contains_text(
        message,
        "is left stopped; run `msb start "@ + plan.name@ + "` by hand to bring it"@,
    )
}

/// A snapshot that failed ends the cycle with an error that tells the sandbox, where the
/// snapshot was to go, and why: the exit code and what the command said, the error in running
/// it, or the output in which no path was found.
pub proof fn law_a_failed_snapshot_tells_why(
    plan: CheckpointPlan,
    captured: Option<Seq<Seq<char>>>,
    result: Result<ExecResult, RightsizeError>,
    listing: Option<Vec<LsEntry>>,
    elapsed_ms: u64,
)
    ensures
        ({
            let step = cycle_step_spec(
                plan,
                StageView::Snapshot(captured),
                result,
                listing,
                elapsed_ms,
            );
            match (step, result) {
                (CycleStepView::Go(_), _) => true,
                (CycleStepView::Fail(ErrorView::Backend(message)), Ok(result)) => {
                    &&& names_the_snapshot(message, plan)
                    &&& result.exit_code != 0 ==> text::contains_text(
                        message,
                        " failed (exit "@ + text::decimal_int(result.exit_code as int) + "): "@,
                    ) && text::contains_text(
                        message,
                        "): "@ + text::trim_spec(result.stderr@) + " — the sandbox is left"@,
                    )
                    &&& result.exit_code == 0 ==> text::contains_text(
                        message,
                        "to bring it back up\nraw stdout:\n"@ + result.stdout@,
                    )
                },
                (CycleStepView::Fail(ErrorView::Backend(message)), Err(error)) => {
                    &&& names_the_snapshot(message, plan)
                    &&& text::contains_text(
                        message,
                        " failed: "@ + model::error_text(error@) + " — the sandbox is left"@,
                    )
                },
                _ => false,
            }
        }),
{
    match result {
        Ok(result) => {
            message_laws::law_snapshot_exited_tells_all(
                plan.name@,
                plan.basename@,
                plan.dest_dir@,
                result.exit_code as int,
                text::trim_spec(result.stderr@),
            );
            message_laws::law_snapshot_unreadable_tells_all(
                plan.name@,
                plan.basename@,
                plan.dest_dir@,
                result.stdout@,
            );
        },
        Err(error) => {
            message_laws::law_snapshot_not_run_tells_all(
                plan.name@,
                plan.basename@,
                plan.dest_dir@,
                model::error_text(error@),
            );
        },
    }
}

/// The name of a removed sandbox has three seconds to become free. A listing that shows it free
/// lets the cycle go on whenever it comes; any other answer is waited out before the three
/// seconds are over and fails from then on, with an error that tells the sandbox, the wait and
/// the snapshot that was kept.
pub proof fn law_a_name_has_three_seconds(
    plan: CheckpointPlan,
    captured: Option<Seq<Seq<char>>>,
    reference: Seq<char>,
    result: Result<ExecResult, RightsizeError>,
    listing: Option<Vec<LsEntry>>,
    elapsed_ms: u64,
)
    ensures
        ({
            let stage = StageView::Release(captured, reference);
            let free = result is Ok && result->Ok_0.exit_code == 0 && listing is Some && forall|
                i: int,
            |
                0 <= i < listing->0@.len() ==> model::text_option(
                    (#[trigger] listing->0@[i]).name,
                ) != Some(plan.name@);
            match cycle_step_spec(plan, stage, result, listing, elapsed_ms) {
                CycleStepView::Go(next) => free && next == StageView::Reboot(captured, reference),
                CycleStepView::Wait(next) => !free && elapsed_ms < 3_000 && next == stage,
                CycleStepView::Fail(ErrorView::Backend(message)) => {
                    &&& !free && elapsed_ms >= 3_000
                    &&& text::contains_text(message, plan.name@)
                    &&& text::contains_text(
                        message,
                        "itself never confirmed it absent) "@ + text::decimal(3)
                            + "s after `msb rm "@,
                    )
                    &&& text::contains_text(
                        message,
                        "state is preserved in checkpoint "@ + reference + ", restorable via"@,
                    )
                },
                _ => false,
            }
        }),
{
    let stuck = messages::name_not_released(plan.name@, 3);
    message_laws::law_name_not_released_tells_all(plan.name@, 3);
    message_laws::law_state_preserved_tells_all(stuck, reference);
    text::law_what_a_part_contains_the_whole_contains(
        messages::state_preserved(stuck, reference),
        stuck,
        plan.name@,
    );
    text::law_what_a_part_contains_the_whole_contains(
        messages::state_preserved(stuck, reference),
        stuck,
        "itself never confirmed it absent) "@ + text::decimal(3) + "s after `msb rm "@,
    );
    if listing is Some {
        let entries = listing->0@;
        if ls_json::names_sandbox(entries, plan.name@) {
            let i = choose|i: int|
                0 <= i < entries.len() && ((#[trigger] entries[i]).name matches Some(n) && n@
                    == plan.name@);
            assert(model::text_option(entries[i].name) == Some(plan.name@));
        } else {
            assert forall|i: int| 0 <= i < entries.len() implies model::text_option(
                (#[trigger] entries[i]).name,
            ) != Some(plan.name@) by {
                if let Some(n) = entries[i].name {
                    assert(n@ != plan.name@);
                }
            }
        }
    }
}

/// `msb` gave a definite answer on a snapshot exactly where it exited with 0 or one of its two
/// outputs, in whatever case, says that there is no such snapshot.
pub proof fn law_what_a_definite_answer_is(result: ExecResult)
    ensures
        definite_answer(result) <==> result.exit_code == 0 || text::contains_text(
            text::lowercased(result.stdout@ + "\n"@ + result.stderr@),
            "snapshot not found"@,
        ),
{
}

/// An absolute reference names the directory of its artifact; any other names none.
pub proof fn law_an_absolute_reference_is_a_directory(style: PathStyle, reference: Seq<char>)
    ensures
        refs::is_absolute_spec(style, reference) ==> artifact_dir(style, reference) == Some(
            reference,
        ),
        !refs::is_absolute_spec(style, reference) ==> artifact_dir(style, reference) is None,
{
}

/// An export may be salvaged exactly where it failed and told of the denied access.
pub proof fn law_when_an_export_may_be_salvaged(result: ExecResult)
    ensures
        export_may_be_salvaged(result) <==> result.exit_code != 0 && text::contains_text(
            result.stderr@,
            "(os error 5)"@,
        ),
{
}

/// An archive that was loaded, or that was there already, goes by the absolute path that the
/// command printed last, whatever stands before it and inside it.
pub proof fn law_an_import_goes_by_the_path_it_printed(
    style: PathStyle,
    output: Seq<char>,
    path: Seq<char>,
    result: ExecResult,
)
    requires
        result.exit_code == 0 || text::contains_text(
            text::lowercased(result.stdout@ + "\n"@ + result.stderr@),
            "snapshot already exists"@,
        ),
        result.stdout@ == path + "\n"@ || result.stdout@ == output + "\n"@ + path + "\n"@,
        refs::is_absolute_spec(style, path),
        !path.contains('\n'),
        !text::is_white_space(path[0]),
        !text::is_white_space(path.last()),
    ensures
        import_outcome(style, result) == Ok::<Seq<char>, ErrorView>(path),
{
    reveal_strlit("\n");
    text::law_white_space_in_ascii('\n');
    assert("\n"@[0] == '\n');
    refs::law_a_path_on_the_last_line_is_read_whole(style, output, Seq::empty(), path, "\n"@);
    assert(Seq::<char>::empty() + path + "\n"@ =~= path + "\n"@);
}

/// An archive that was there already, of which nothing was printed, goes by the absolute path
/// that ends the error message.
pub proof fn law_an_import_falls_back_on_the_error_message(
    style: PathStyle,
    output: Seq<char>,
    message: Seq<char>,
    path: Seq<char>,
    result: ExecResult,
)
    requires
        text::contains_text(
            text::lowercased(result.stdout@ + "\n"@ + result.stderr@),
            "snapshot already exists"@,
        ),
        forall|i: int|
            0 <= i < result.stdout@.len() ==> text::is_white_space(#[trigger] result.stdout@[i]),
        result.stderr@ == message + path + "\n"@ || result.stderr@ == output + "\n"@ + message
            + path + "\n"@,
        refs::is_absolute_spec(style, path),
        forall|i: int| 0 <= i < path.len() ==> !text::is_white_space(#[trigger] path[i]),
        !message.contains('\n'),
        message.len() > 0 ==> text::is_white_space(message.last()),
    ensures
        import_outcome(style, result) == Ok::<Seq<char>, ErrorView>(path),
{
    reveal_strlit("\n");
    text::law_white_space_in_ascii('\n');
    assert("\n"@[0] == '\n');
    refs::lemma_no_path_in_white_space(style, result.stdout@);
    refs::law_a_path_that_ends_the_last_line_is_read(style, output, message, path, "\n"@);
}

/// An import fails only where it exited with an error and the archive was not there, and the
/// error then tells the exit code and what the command said, or where no path could be read,
/// and the error then tells both outputs.
pub proof fn law_a_failed_import_tells_why(style: PathStyle, result: ExecResult)
    ensures
        ({
            let there = text::contains_text(
                text::lowercased(result.stdout@ + "\n"@ + result.stderr@),
                "snapshot already exists"@,
            );
            match import_outcome(style, result) {
                Ok(reference) => (result.exit_code == 0 || there) && (refs::path_on_last_line(
                    style,
                    result.stdout@,
                ) == Some(reference) || (there && refs::path_ending_last_line(style, result.stderr@)
                    == Some(reference))),
                Err(ErrorView::Backend(message)) => if result.exit_code != 0 && !there {
                    text::contains_text(
                        message,
                        "msb snapshot load failed (exit "@ + text::decimal_int(
                            result.exit_code as int,
                        ) + "): "@,
                    ) && text::contains_text(message, "): "@ + text::trim_spec(result.stderr@))
                } else {
                    refs::path_on_last_line(style, result.stdout@) is None && text::contains_text(
                        message,
                        "in stderr either\nraw stdout:\n"@ + result.stdout@ + "\nraw stderr:\n"@,
                    ) && text::contains_text(message, "\nraw stderr:\n"@ + result.stderr@)
                },
                _ => false,
            }
        }),
{
    message_laws::law_import_failed_tells_all(
        result.exit_code as int,
        text::trim_spec(result.stderr@),
    );
    message_laws::law_import_unreadable_tells_all(result.stdout@, result.stderr@);
}

/// A staging file is told by its name: a dot, the name of the archive, `.tmp.` and whatever
/// follows; an entry without a name that is text is none.
pub proof fn law_how_a_staging_file_is_named(entry: DirEntry, dest_name: Seq<char>, rest: Seq<char>)
    ensures
        model::text_option(entry.name) == Some("."@ + dest_name + ".tmp."@ + rest) ==> is_staging(
            entry,
            dest_name,
        ),
        is_staging(entry, dest_name) ==> entry.name is Some && entry.name->0@.take(
            dest_name.len() as int + 6,
        ) == "."@ + dest_name + ".tmp."@,
{
    reveal_strlit(".");
    reveal_strlit(".tmp.");
    let prefix = "."@ + dest_name + ".tmp."@;
    if let Some(name) = entry.name {
        if name@ == prefix + rest {
            assert(prefix.is_prefix_of(name@));
        }
        if is_staging(entry, dest_name) {
            assert(name@.take(dest_name.len() as int + 6) =~= prefix);
        }
    }
}

/// Only a file that stands alone among the staging files of an archive is picked: two of them
/// rule each other out, and what is no regular file is never picked.
pub proof fn law_a_lone_staging_file_is_picked(
    entries: Seq<DirEntry>,
    dest_name: Seq<char>,
    at: int,
    other: int,
)
    requires
        0 <= at < entries.len(),
        0 <= other < entries.len(),
    ensures
        at != other && is_staging(entries[at], dest_name) && is_staging(entries[other], dest_name)
            ==> !is_only_staging(entries, dest_name, at) && !is_only_staging(
            entries,
            dest_name,
            other,
        ),
        !entries[at].is_file || !is_staging(entries[at], dest_name) ==> !is_only_staging(
            entries,
            dest_name,
            at,
        ),
        entries[at].is_file && is_staging(entries[at], dest_name) && (forall|i: int|
            0 <= i < entries.len() && i != at ==> !is_staging(#[trigger] entries[i], dest_name))
            ==> is_only_staging(entries, dest_name, at),
{
}

} // verus!
