//! Restoring under one of several names. A name that was refused is never tried again:
//! the next one is, until one is taken or none is left.

use vstd::prelude::*;
use vstd::string::*;

use crate::classify;
use crate::commands;
use crate::message_laws;
use crate::messages;
use crate::model;
use crate::model::{ContainerSpec, ErrorView, RightsizeError};
use crate::text;

verus! {

/// How long refusals are waited out, in milliseconds.
pub const ALREADY_EXISTS_RETRY_BUDGET_MS: u64 = 30_000;

/// How long to wait between two names, in milliseconds.
pub const ALREADY_EXISTS_RETRY_DELAY_MS: u64 = 2_000;

/// What the names are for.
#[derive(Clone, Copy, Debug, PartialEq, Eq, Structural)]
pub enum WalkPurpose {
    /// Starting a container from a checkpoint.
    Restore,
    /// Booting a container again after its checkpoint was taken.
    Reboot,
}

/// How far a walk over the names has come.
#[derive(Clone, Copy, Debug, PartialEq, Eq, Structural)]
pub struct CandidateWalk {
    /// How many names were tried.
    pub attempted: usize,
    /// Whether an attempt was denied access, so that the ones after it go through the
    /// broker.
    pub escalated: bool,
}

/// The next thing to do on a walk over the names.
#[derive(Clone, Debug)]
pub enum WalkStep {
    /// Remove what a refused attempt left behind, then try this name.
    Attempt { remove_first: Option<String>, name: String, via_broker: bool },
    /// Remove what the last attempt left behind; no name is left.
    Exhausted { remove_first: Option<String>, error: RightsizeError },
}

/// The name whose remains are to be removed before the next attempt.
pub open spec fn leftover(walk: CandidateWalk, candidates: Seq<Seq<char>>) -> Option<Seq<char>> {
    if walk.attempted > 0 {
        Some(candidates[walk.attempted - 1])
    } else {
        None
    }
}

/// One attempt on a walk over the names.
pub struct AttemptView {
    pub name: Seq<char>,
    pub via_broker: bool,
}

/// The next attempt of a walk: the first name not tried yet, through the broker where
/// there is one and an attempt was denied access.
pub open spec fn next_attempt(
    walk: CandidateWalk,
    candidates: Seq<Seq<char>>,
    broker_available: bool,
) -> AttemptView {
    AttemptView {
        name: candidates[walk.attempted as int],
        via_broker: walk.escalated && broker_available,
    }
}

/// A walk with one more name tried.
pub open spec fn advanced(walk: CandidateWalk) -> CandidateWalk {
    CandidateWalk { attempted: (walk.attempted + 1) as usize, escalated: walk.escalated }
}

/// A walk that knows how its last attempt ended.
pub open spec fn recorded(walk: CandidateWalk, outcome: Result<(), RightsizeError>) ->
    CandidateWalk {
    CandidateWalk {
        attempted: walk.attempted,
        escalated: walk.escalated || denies_access(outcome),
    }
}

/// The error of a walk that ran out of names.
pub open spec fn exhausted_error(purpose: WalkPurpose, count: nat) -> ErrorView {
    match purpose {
        WalkPurpose::Restore => ErrorView::Backend(messages::restore_names_exhausted(count)),
        WalkPurpose::Reboot => ErrorView::Backend(messages::reboot_names_exhausted(count)),
    }
}

impl CandidateWalk {
    /// A walk that has not begun: its first attempt will not go through the broker.
    pub fn new() -> (walk: CandidateWalk)
        ensures
            walk == walk_after(Seq::empty()),
    {
        CandidateWalk { attempted: 0, escalated: false }
    }

    /// The next thing to do: try the next name, or give up where none is left.
    pub fn next(
        &mut self,
        purpose: WalkPurpose,
        candidates: &[String],
        broker_available: bool,
    ) -> (step: WalkStep)
        requires
            old(self).attempted <= candidates@.len(),
        ensures
            final(self).attempted <= candidates@.len(),
            match step {
                WalkStep::Attempt { remove_first, name, via_broker } => {
                    &&& old(self).attempted < candidates@.len()
                    &&& *final(self) == advanced(*old(self))
                    &&& (AttemptView { name: name@, via_broker }) == next_attempt(
                        *old(self),
                        text::texts(candidates@),
                        broker_available,
                    )
                    &&& model::text_option(remove_first) == leftover(
                        *old(self),
                        text::texts(candidates@),
                    )
                },
                WalkStep::Exhausted { remove_first, error } => {
                    &&& old(self).attempted == candidates@.len()
                    &&& *final(self) == *old(self)
                    &&& error@ == exhausted_error(purpose, candidates@.len())
                    &&& model::text_option(remove_first) == leftover(
                        *old(self),
                        text::texts(candidates@),
                    )
                },
            },
    {
        let remove_first = if self.attempted > 0 {
            Some(candidates[self.attempted - 1].clone())
        } else {
            None
        };
        if self.attempted < candidates.len() {
            let name = candidates[self.attempted].clone();
            self.attempted = self.attempted + 1;
            WalkStep::Attempt { remove_first, name, via_broker: self.escalated && broker_available }
        } else {
            let count: u64 = candidates.len() as u64;
            let message = match purpose {
                WalkPurpose::Restore => messages::restore_names_exhausted_text(count),
                WalkPurpose::Reboot => messages::reboot_names_exhausted_text(count),
            };
            WalkStep::Exhausted { remove_first, error: RightsizeError::Backend(message) }
        }
    }

    /// Notes how an attempt ended: from the first denied access on, the walk is escalated.
    pub fn record(&mut self, outcome: &Result<(), RightsizeError>)
        ensures
            *final(self) == recorded(*old(self), *outcome),
    {
        match outcome {
            Ok(()) => {},
            Err(error) => {
                if classify::is_restore_access_denied_error(error) {
                    self.escalated = true;
                }
            },
        }
    }
}

/// Whether an attempt ended in a denied access.
pub open spec fn denies_access(outcome: Result<(), RightsizeError>) -> bool {
    match outcome {
        Ok(()) => false,
        Err(error) => classify::is_access_denied_error_spec(error@),
    }
}

/// Aims a container at another name and at a checkpoint.
pub fn retarget(
    spec: &mut ContainerSpec,
    name: &str,
    reference: &str,
    captured: &Option<Vec<String>>,
)
    ensures
        final(spec).name@ == name@,
        model::text_option(final(spec).checkpoint_ref) == Some(reference@),
        commands::texts_option(final(spec).checkpoint_captured_cmdline) == commands::texts_option(
            *captured,
        ),
        final(spec).image == old(spec).image,
        final(spec).env == old(spec).env,
        final(spec).command == old(spec).command,
        final(spec).ports == old(spec).ports,
        final(spec).mounts == old(spec).mounts,
        final(spec).network_id == old(spec).network_id,
        final(spec).aliases == old(spec).aliases,
        final(spec).run_id == old(spec).run_id,
        final(spec).memory_limit_mb == old(spec).memory_limit_mb,
        final(spec).keep_alive == old(spec).keep_alive,
        final(spec).disk_limit_mb == old(spec).disk_limit_mb,
        final(spec).tmpfs_root_mb == old(spec).tmpfs_root_mb,
        final(spec).network_disabled == old(spec).network_disabled,
        final(spec).restore_name_candidates == old(spec).restore_name_candidates,
{
    spec.name = name.to_owned();
    spec.checkpoint_ref = Some(reference.to_owned());
    spec.checkpoint_captured_cmdline = match captured {
        Some(cmdline) => {
            let copy = cmdline.clone();
            assert(text::texts(copy@) =~= text::texts(cmdline@));
            Some(copy)
        },
        None => None,
    };
}

/// The message of an error that another name may get past: the name was taken, or access
/// was denied.
pub open spec fn refusal(error: ErrorView) -> Option<Seq<char>> {
    match error {
        ErrorView::NameConflict(message) => Some(message),
        ErrorView::Backend(message) => if classify::names_restore_access_denied(message) {
            Some(message)
        } else {
            None
        },
        _ => None,
    }
}

/// What is to be done after an attempt under one of several names.
#[derive(Clone, Debug)]
pub enum RetryStep {
    /// The sandbox is up.
    Done,
    /// Wait, then go on with the next name; the refusal is kept.
    RetryAfter { last: String },
    /// There is nothing more to try.
    Fail(RightsizeError),
}

/// The contents of a [`RetryStep`].
pub enum RetryView {
    Done,
    RetryAfter(Seq<char>),
    Fail(ErrorView),
}

impl View for RetryStep {
    type V = RetryView;

    open spec fn view(&self) -> RetryView {
        match self {
            RetryStep::Done => RetryView::Done,
            RetryStep::RetryAfter { last } => RetryView::RetryAfter(last@),
            RetryStep::Fail(error) => RetryView::Fail(error@),
        }
    }
}

/// The name of a refusal in an error message.
pub open spec fn refusal_name(message: Seq<char>) -> Seq<char> {
    if classify::names_restore_access_denied(message) {
        "the Windows job-object access-denied transient"@
    } else {
        "msb's \"already exists\" refusal"@
    }
}

/// What is to be done after an attempt under one of several names. `last` is the refusal
/// before it, if there was one; the times are in milliseconds.
pub open spec fn retry_step_spec(
    name: Seq<char>,
    reference: Seq<char>,
    last: Option<Seq<char>>,
    outcome: Option<ErrorView>,
    elapsed_ms: u64,
    budget_ms: u64,
) -> RetryView {
    match outcome {
        None => RetryView::Done,
        Some(error) => match refusal(error) {
            Some(message) => if elapsed_ms >= budget_ms {
                RetryView::Fail(
                    ErrorView::Backend(
                        messages::reboot_kept_refused(
                            name,
                            reference,
                            refusal_name(message),
                            (budget_ms / 1000) as nat,
                            message,
                        ),
                    ),
                )
            } else {
                RetryView::RetryAfter(message)
            },
            None => RetryView::Fail(
                ErrorView::Backend(
                    match last {
                        Some(last) => messages::reboot_failed_after_refusal(
                            name,
                            reference,
                            model::error_text(error),
                            last,
                        ),
                        None => messages::reboot_failed(name, reference, model::error_text(error)),
                    },
                ),
            ),
        },
    }
}

/// The contents of the error that an attempt ended in, if it ended in one.
pub open spec fn outcome_error(outcome: Result<(), RightsizeError>) -> Option<ErrorView> {
    match outcome {
        Ok(()) => None,
        Err(error) => Some(error@),
    }
}

/// Decides what is to be done after an attempt under one of several names.
pub fn reboot_retry_step(
    name: &str,
    reference: &str,
    last: &Option<String>,
    outcome: &Result<(), RightsizeError>,
    elapsed_ms: u64,
    budget_ms: u64,
) -> (step: RetryStep)
    ensures
        step@ == retry_step_spec(
            name@,
            reference@,
            model::text_option(*last),
            outcome_error(*outcome),
            elapsed_ms,
            budget_ms,
        ),
{
    let error = match outcome {
        Ok(()) => {
            return RetryStep::Done;
        },
        Err(error) => error,
    };
    let refused: Option<String> = match error {
        RightsizeError::NameConflict { message } => Some(message.clone()),
        RightsizeError::Backend(message) => {
            if classify::is_restore_access_denied(message.as_str()) {
                Some(message.clone())
            } else {
                None
            }
        },
        _ => None,
    };
    match refused {
        Some(message) => {
            if elapsed_ms >= budget_ms {
                let kind = if classify::is_restore_access_denied(message.as_str()) {
                    "the Windows job-object access-denied transient"
                } else {
                    "msb's \"already exists\" refusal"
                };
                let secs: u64 = budget_ms / 1000;
                RetryStep::Fail(
                    RightsizeError::Backend(
                        messages::reboot_kept_refused_text(
                            name,
                            reference,
                            kind,
                            secs,
                            message.as_str(),
                        ),
                    ),
                )
            } else {
                RetryStep::RetryAfter { last: message }
            }
        },
        None => {
            let shown = error.message();
            let message = match last {
                Some(last) => messages::reboot_failed_after_refusal_text(
                    name,
                    reference,
                    shown.as_str(),
                    last.as_str(),
                ),
                None => messages::reboot_failed_text(name, reference, shown.as_str()),
            };
            RetryStep::Fail(RightsizeError::Backend(message))
        },
    }
}

/// Whether one of the first `count` attempts was denied access.
pub open spec fn denied_before(outcomes: Seq<Result<(), RightsizeError>>, count: int) -> bool {
    exists|i: int| 0 <= i < count && denies_access(#[trigger] outcomes[i])
}

/// Where a walk stands after attempts with these outcomes.
pub open spec fn walk_after(outcomes: Seq<Result<(), RightsizeError>>) -> CandidateWalk
    decreases outcomes.len(),
{
    if outcomes.len() == 0 {
        CandidateWalk { attempted: 0, escalated: false }
    } else {
        recorded(advanced(walk_after(outcomes.drop_last())), outcomes.last())
    }
}

/// The attempts of a walk take the names in order, each once, so that no name that was
/// refused is ever tried again; an attempt goes through the broker exactly where there is
/// one and an attempt before it was denied access. So the first attempt never does.
pub proof fn law_walk_takes_each_name_once(
    outcomes: Seq<Result<(), RightsizeError>>,
    candidates: Seq<Seq<char>>,
    broker_available: bool,
)
    requires
        outcomes.len() < candidates.len() <= usize::MAX,
    ensures
        next_attempt(walk_after(outcomes), candidates, broker_available).name == candidates[outcomes.len() as int],
        next_attempt(walk_after(outcomes), candidates, broker_available).via_broker == (broker_available
            && denied_before(outcomes, outcomes.len() as int)),
    decreases outcomes.len(),
{
    lemma_walk_after(outcomes);
}

/// What a walk knows of the attempts that it has made.
proof fn lemma_walk_after(outcomes: Seq<Result<(), RightsizeError>>)
    requires
        outcomes.len() < usize::MAX,
    ensures
        walk_after(outcomes).attempted == outcomes.len(),
        walk_after(outcomes).escalated == denied_before(outcomes, outcomes.len() as int),
    decreases outcomes.len(),
{
    if outcomes.len() > 0 {
        let before = outcomes.drop_last();
        lemma_walk_after(before);
        if denied_before(before, before.len() as int) {
            let i = choose|i: int| 0 <= i < before.len() && denies_access(#[trigger] before[i]);
            assert(denies_access(outcomes[i]));
        }
        if denies_access(outcomes.last()) {
            assert(denies_access(outcomes[outcomes.len() - 1]));
        }
        if denied_before(outcomes, outcomes.len() as int) {
            let i = choose|i: int| 0 <= i < outcomes.len() && denies_access(#[trigger] outcomes[i]);
            if i < outcomes.len() - 1 {
                assert(denies_access(before[i]));
            }
        }
    }
}

/// A refusal never fails a walk before its time is up, and never prolongs it after.
pub proof fn law_refusals_are_waited_out(
    name: Seq<char>,
    reference: Seq<char>,
    last: Option<Seq<char>>,
    error: ErrorView,
    elapsed_ms: u64,
    budget_ms: u64,
)
    requires
        refusal(error) is Some,
    ensures
        ({
            let step = retry_step_spec(name, reference, last, Some(error), elapsed_ms, budget_ms);
            if elapsed_ms < budget_ms {
                step is RetryAfter
            } else {
                step is Fail
            }
        }),
{
}

/// A text without a capital `A` does not say that access was denied.
proof fn lemma_no_capital_a_no_denial(message: Seq<char>)
    requires
        forall|i: int| 0 <= i < message.len() ==> #[trigger] message[i] != 'A',
    ensures
        !classify::names_restore_access_denied(message),
{
    reveal_strlit("Access is denied");
    if classify::names_restore_access_denied(message) {
        let at = choose|at: int| text::occurs_at(message, "Access is denied"@, at);
        assert(message.subrange(at, at + "Access is denied"@.len())[0] == message[at]);
    }
}

/// A walk that ran out of names ends, however much time is left: its error is not one that
/// another name may get past.
pub proof fn law_exhausted_walk_ends(
    purpose: WalkPurpose,
    count: nat,
    name: Seq<char>,
    reference: Seq<char>,
    last: Option<Seq<char>>,
    elapsed_ms: u64,
    budget_ms: u64,
)
    ensures
        retry_step_spec(
            name,
            reference,
            last,
            Some(exhausted_error(purpose, count)),
            elapsed_ms,
            budget_ms,
        ) is Fail,
{
    reveal_strlit("every restore name candidate was tried and refused (");
    reveal_strlit("every candidate sandbox name was tried and refused (");
    reveal_strlit(
        " candidates) — by msb's own \"already exists\" check, the Windows job-object access-denied transient, or both",
    );
    let message = exhausted_error(purpose, count)->Backend_0;
    let digits = text::decimal(count);
    assert forall|i: int| 0 <= i < message.len() implies #[trigger] message[i] != 'A' by {
        if 52 <= i < 52 + digits.len() {
            text::lemma_decimal_is_digits(count, i - 52);
        }
    }
    lemma_no_capital_a_no_denial(message);
}

/// Every error that ends a boot from a checkpoint says under which reference the state of
/// the container is preserved.
pub proof fn law_failed_reboot_names_the_checkpoint(
    name: Seq<char>,
    reference: Seq<char>,
    last: Option<Seq<char>>,
    outcome: Option<ErrorView>,
    elapsed_ms: u64,
    budget_ms: u64,
)
    ensures
        retry_step_spec(name, reference, last, outcome, elapsed_ms, budget_ms) matches
            RetryView::Fail(error) ==> (error matches ErrorView::Backend(message)
            && text::contains_text(message, reference)),
{
    let head = "re-booting sandbox "@ + name + " from checkpoint "@;
    if let Some(error) = outcome {
        if let RetryView::Fail(failed) = retry_step_spec(
            name,
            reference,
            last,
            outcome,
            elapsed_ms,
            budget_ms,
        ) {
            let message = failed->Backend_0;
            let at = head.len() as int;
            assert(message.subrange(at, at + reference.len()) =~= reference);
            assert(text::occurs_at(message, reference, at));
        }
    }
}

/// A name that was taken, and an access that was denied, lead to the next name as long as there
/// is time, and the refusal is kept word for word.
pub proof fn law_refused_names_are_passed_over(
    name: Seq<char>,
    reference: Seq<char>,
    last: Option<Seq<char>>,
    message: Seq<char>,
    elapsed_ms: u64,
    budget_ms: u64,
)
    requires
        elapsed_ms < budget_ms,
    ensures
        retry_step_spec(
            name,
            reference,
            last,
            Some(ErrorView::NameConflict(message)),
            elapsed_ms,
            budget_ms,
        ) == RetryView::RetryAfter(message),
        text::contains_text(message, "Access is denied"@) && (text::contains_text(
            message,
            "io error"@,
        ) || text::contains_text(message, "os error 5"@)) ==> retry_step_spec(
            name,
            reference,
            last,
            Some(ErrorView::Backend(message)),
            elapsed_ms,
            budget_ms,
        ) == RetryView::RetryAfter(message),
{
}

/// An attempt that brought the sandbox up ends the walk; an error that no other name could get
/// past fails it at once, however much time is left, and tells the sandbox, the checkpoint, the
/// error and the refusal before it, if there was one.
pub proof fn law_other_errors_end_a_walk(
    name: Seq<char>,
    reference: Seq<char>,
    last: Option<Seq<char>>,
    error: ErrorView,
    elapsed_ms: u64,
    budget_ms: u64,
)
    requires
        !(error is NameConflict),
        error matches ErrorView::Backend(message) ==> !text::contains_text(
            message,
            "Access is denied"@,
        ),
    ensures
        retry_step_spec(name, reference, last, None, elapsed_ms, budget_ms) == RetryView::Done,
        retry_step_spec(name, reference, last, Some(error), elapsed_ms, budget_ms) matches
            RetryView::Fail(ErrorView::Backend(message)) && text::contains_text(
            message,
            "re-booting sandbox "@ + name + " from checkpoint "@,
        ) && text::contains_text(message, " from checkpoint "@ + reference + " failed ("@)
            && text::contains_text(message, model::error_text(error)) && (last is None
            ==> text::contains_text(
            message,
            " failed ("@ + model::error_text(error) + ") — the sandbox was"@,
        )) && (last matches Some(last) ==> text::contains_text(
            message,
            "previously hitting a refusal ("@ + last + ") — the sandbox was"@,
        )) && text::contains_text(
            message,
            "state is preserved in checkpoint "@ + reference + ", restorable via"@,
        ),
{
    message_laws::law_reboot_failed_tells_all(name, reference, model::error_text(error));
    if let Some(last) = last {
        message_laws::law_reboot_failed_after_refusal_tells_all(
            name,
            reference,
            model::error_text(error),
            last,
        );
    }
}

/// Whether a message tells that names were refused for as long as there was time: the sandbox,
/// the checkpoint, what kept refusing, the seconds and the last refusal.
pub open spec fn kept_refused(
    message: Seq<char>,
    name: Seq<char>,
    reference: Seq<char>,
    refused: Seq<char>,
    budget_ms: u64,
) -> bool {
    let denied = text::contains_text(refused, "Access is denied"@) && (text::contains_text(
        refused,
        "io error"@,
    ) || text::contains_text(refused, "os error 5"@));
    &&& text::contains_text(message, "re-booting sandbox "@ + name + " from checkpoint "@)
    &&& text::contains_text(message, " from checkpoint "@ + reference + " kept hitting "@)
    &&& denied ==> text::contains_text(
        message,
        " kept hitting "@ + "the Windows job-object access-denied transient"@ + " for "@,
    )
    &&& !denied ==> text::contains_text(
        message,
        " kept hitting "@ + "msb's \"already exists\" refusal"@ + " for "@,
    )
    &&& text::contains_text(
        message,
        " for "@ + text::decimal((budget_ms / 1000) as nat) + "s after `msb ls` had"@,
    )
    &&& text::contains_text(
        message,
        "already confirmed the name clear ("@ + refused + ") — msb's own on-disk"@,
    )
}

/// A walk whose time is up fails with the refusal, and tells the sandbox, the checkpoint and the
/// seconds that it had.
pub proof fn law_a_walk_out_of_time_tells_the_refusal(
    name: Seq<char>,
    reference: Seq<char>,
    last: Option<Seq<char>>,
    refused: Seq<char>,
    elapsed_ms: u64,
    budget_ms: u64,
)
    requires
        elapsed_ms >= budget_ms,
    ensures
        retry_step_spec(
            name,
            reference,
            last,
            Some(ErrorView::NameConflict(refused)),
            elapsed_ms,
            budget_ms,
        ) matches RetryView::Fail(ErrorView::Backend(message)) && kept_refused(
            message,
            name,
            reference,
            refused,
            budget_ms,
        ),
        text::contains_text(refused, "Access is denied"@) && (text::contains_text(
            refused,
            "io error"@,
        ) || text::contains_text(refused, "os error 5"@)) ==> (retry_step_spec(
            name,
            reference,
            last,
            Some(ErrorView::Backend(refused)),
            elapsed_ms,
            budget_ms,
        ) matches RetryView::Fail(ErrorView::Backend(message)) && kept_refused(
            message,
            name,
            reference,
            refused,
            budget_ms,
        )),
{
    message_laws::law_reboot_kept_refused_tells_all(
        name,
        reference,
        refusal_name(refused),
        (budget_ms / 1000) as nat,
        refused,
    );
}

/// Before each attempt but the first, and before a walk gives up, what the attempt before it
/// left behind is removed: that under the name tried last, and no other.
pub proof fn law_leftovers_are_of_the_name_tried_last(
    outcomes: Seq<Result<(), RightsizeError>>,
    candidates: Seq<Seq<char>>,
)
    requires
        outcomes.len() <= candidates.len(),
        outcomes.len() < usize::MAX,
    ensures
        outcomes.len() == 0 ==> leftover(walk_after(outcomes), candidates) is None,
        outcomes.len() > 0 ==> leftover(walk_after(outcomes), candidates) == Some(
            candidates[outcomes.len() - 1],
        ),
{
    lemma_walk_after(outcomes);
}

/// A walk that ran out of names tells how many there were.
pub proof fn law_an_exhausted_walk_tells_how_many(purpose: WalkPurpose, count: nat)
    ensures
        exhausted_error(purpose, count) matches ErrorView::Backend(message) && text::contains_text(
            message,
            (if purpose == WalkPurpose::Restore {
                "candidate was tried and refused ("@
            } else {
                "name was tried and refused ("@
            }) + text::decimal(count) + " candidates) — by msb's"@,
        ),
{
    message_laws::law_restore_names_exhausted_tells_all(count);
    message_laws::law_reboot_names_exhausted_tells_all(count);
}

/// An attempt was denied access exactly where it failed with an error of the backend that says
/// so; only then does the walk go on through the broker, and it does from then on.
pub proof fn law_a_denied_access_escalates(
    walk: CandidateWalk,
    error: RightsizeError,
    candidates: Seq<Seq<char>>,
)
    ensures
        denies_access(Err(error)) <==> (error@ matches ErrorView::Backend(message)
            && text::contains_text(message, "Access is denied"@) && (text::contains_text(
            message,
            "io error"@,
        ) || text::contains_text(message, "os error 5"@))),
        !denies_access(Ok(())),
        denies_access(Err(error)) ==> next_attempt(
            recorded(walk, Err(error)),
            candidates,
            true,
        ).via_broker,
        walk.escalated ==> next_attempt(recorded(walk, Err(error)), candidates, true).via_broker,
        !walk.escalated && !denies_access(Err(error)) ==> !next_attempt(
            recorded(walk, Err(error)),
            candidates,
            true,
        ).via_broker,
        !next_attempt(walk, candidates, false).via_broker,
{
}

/// An attempt that ended well leaves no error, and one that did not leaves the error it ended in.
pub proof fn law_an_attempt_leaves_its_error(error: RightsizeError)
    ensures
        outcome_error(Ok(())) is None,
        outcome_error(Err(error)) == Some(error@),
{
}

} // verus!
