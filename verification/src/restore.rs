//! Bringing the built-in display back.

use vstd::prelude::*;

use crate::commands;
use crate::commands::{run_command_with_timeout, set_displayplacer_enabled};
use crate::display::CGDirectDisplayID;
use crate::effect;
use crate::effect::{say_if, warn_if, Course, Effect, EffectView, ReplyView, Shown, Tape};
use crate::files;
use crate::files::{
    log_event, read_state_value, remember_contextual_display_id, remembered_internal_display_id,
};
use crate::native;
use crate::native::{
    builtin_display_active, current_builtin_display_id, detect_displays, set_native_display_enabled,
    wait_for_builtin_active,
};
use crate::number;
use crate::number::decimal;
use crate::policy;
use crate::policy::{
    clamshell_state, internal_restore_candidates, maybe_number, number_list, ActionMode,
    ClamshellState,
};
use crate::text;
use crate::text::{cat2, cat3, cat5, list5, owned};

verus! {

/// How often the built-in display is tried.
pub const INTERNAL_RESTORE_ATTEMPTS: u32 = 3;

/// The pause between two attempts, in milliseconds.
pub const INTERNAL_RESTORE_RETRY_DELAY: u64 = 1000;

/// How long the built-in display may take to become active, in milliseconds.
pub const INTERNAL_RESTORE_VERIFY_TIMEOUT: u32 = 2000;

// ---------------------------------------------------------------------------
// One attempt.
// ---------------------------------------------------------------------------
/// What one attempt came to.
#[derive(Debug)]
pub enum Trial {
    /// There is nothing more to try.
    Over(Result<(), String>),
    /// No number worked; why the last one did not, if one was tried.
    Failed(Option<String>),
}

/// What a trial holds, as plain text.
#[verifier::ext_equal]
pub enum TrialView {
    Over(Result<(), Seq<char>>),
    Failed(Option<Seq<char>>),
}

impl Shown for Trial {
    type Plain = TrialView;

    open spec fn shown(&self) -> TrialView {
        match self {
            Trial::Over(r) => TrialView::Over(r.shown()),
            Trial::Failed(error) => TrialView::Failed(error.shown()),
        }
    }
}

/// What is said of a number that was enabled in vain.
pub open spec fn dark_text(id: u32) -> Seq<char> {
    "enable of display id "@ + number::dec(id as nat)
        + " reported ok but built-in did not become active"@
}

/// The numbers are enabled one after the other, until the built-in display is
/// active. The number that did it is remembered.
pub open spec fn numbers_tried(
    ids: Seq<u32>,
    verbose: bool,
    error: Option<Seq<char>>,
    t: Seq<ReplyView>,
) -> Course<TrialView>
    decreases ids.len(),
{
    if ids.len() == 0 {
        Course::Ends(TrialView::Failed(error), t)
    } else {
        let id = ids[0];
        match native::native_switched(id, true, ActionMode::Execute, verbose, t) {
            Course::Asks(e) => Course::Asks(e),
            Course::Ends(r, t) => match r {
                Err(error) => numbers_tried(ids.skip(1), verbose, Some(error), t),
                Ok(_) => match native::activity_waited(INTERNAL_RESTORE_VERIFY_TIMEOUT, t) {
                    Course::Asks(e) => Course::Asks(e),
                    Course::Ends(active, t) => if active {
                        match files::logged(
                            "restore-internal: builtin active after enabling id "@ + number::dec(
                                id as nat,
                            ),
                            t,
                        ) {
                            Course::Asks(e) => Course::Asks(e),
                            Course::Ends(_, t) => match files::number_remembered(id, t) {
                                Course::Asks(e) => Course::Asks(e),
                                Course::Ends(r, t) => Course::Ends(TrialView::Over(r), t),
                            },
                        }
                    } else {
                        match files::logged(
                            "restore-internal: id "@ + number::dec(id as nat)
                                + " enabled ok but builtin not active"@,
                            t,
                        ) {
                            Course::Asks(e) => Course::Asks(e),
                            Course::Ends(_, t) => numbers_tried(
                                ids.skip(1),
                                verbose,
                                Some(dark_text(id)),
                                t,
                            ),
                        }
                    },
                },
            },
        }
    }
}

fn try_numbers(tape: &mut Tape, ids: &Vec<u32>, verbose: bool, error: Option<String>) -> (r: Result<
    Trial,
    Effect,
>)
    ensures
        effect::course(r, final(tape).rest()) == numbers_tried(
            ids@,
            verbose,
            error.shown(),
            old(tape).rest(),
        ),
        final(tape).all() == old(tape).all(),
{
    let mut last = error;
    let mut i: usize = 0;
    let ghost whole = numbers_tried(ids@, verbose, last.shown(), tape.rest());
    assert(ids@.skip(0) =~= ids@);
    while i < ids.len()
        invariant
            tape.all() == old(tape).all(),
            i <= ids.len(),
            whole == numbers_tried(ids@, verbose, error.shown(), old(tape).rest()),
            numbers_tried(ids@.skip(i as int), verbose, last.shown(), tape.rest()) == whole,
        decreases ids.len() - i,
    {
        let id: u32 = ids[i];
        assert(ids@.skip(i as int).skip(1) =~= ids@.skip(i + 1));
        assert(ids@.skip(i as int)[0] == id);
        match set_native_display_enabled(tape, id, true, ActionMode::Execute, verbose) {
            Err(e) => return Err(e),
            Ok(Err(error)) => {
                last = Some(error);
            },
            Ok(Ok(_)) => {
                let active = match wait_for_builtin_active(tape, INTERNAL_RESTORE_VERIFY_TIMEOUT) {
                    Err(e) => return Err(e),
                    Ok(active) => active,
                };
                let digits = decimal(id as u64);
                if active {
                    let line = cat2(
                        "restore-internal: builtin active after enabling id ",
                        digits.as_str(),
                    );
                    match log_event(tape, line.as_str()) {
                        Err(e) => return Err(e),
                        Ok(_) => {},
                    }
                    return match remember_contextual_display_id(tape, id) {
                        Err(e) => Err(e),
                        Ok(outcome) => Ok(Trial::Over(outcome)),
                    };
                }
                let line = cat3(
                    "restore-internal: id ",
                    digits.as_str(),
                    " enabled ok but builtin not active",
                );
                match log_event(tape, line.as_str()) {
                    Err(e) => return Err(e),
                    Ok(_) => {},
                }
                last = Some(
                    cat3(
                        "enable of display id ",
                        digits.as_str(),
                        " reported ok but built-in did not become active",
                    ),
                );
            },
        }
        i = i + 1;
    }
    Ok(Trial::Failed(last))
}

/// The number of an attempt among all.
pub open spec fn attempt_text(attempt: u32, attempts: u32) -> Seq<char> {
    number::dec(attempt as nat) + "/"@ + number::dec(attempts as nat)
}

/// The log's line on an attempt.
pub open spec fn attempt_log(
    attempt: u32,
    attempts: u32,
    ids: Seq<u32>,
    live: Option<u32>,
    remembered: Option<u32>,
) -> Seq<char> {
    "restore-internal: attempt "@ + attempt_text(attempt, attempts) + " candidates "@
        + policy::number_list_text(ids) + " (live="@ + policy::maybe_number_text(live)
        + " remembered="@ + policy::maybe_number_text(remembered) + ")"@
}

fn attempt_note(
    attempt: u32,
    attempts: u32,
    ids: &Vec<u32>,
    live: Option<u32>,
    remembered: Option<u32>,
) -> (r: String)
    ensures
        r@ == attempt_log(attempt, attempts, ids@, live, remembered),
{
    let count = attempt_words(attempt, attempts);
    let list = number_list(ids);
    let live = maybe_number(live);
    let remembered = maybe_number(remembered);
    let mut line = cat5(
        "restore-internal: attempt ",
        count.as_str(),
        " candidates ",
        list.as_str(),
        " (live=",
    );
    line.append(live.as_str());
    line.append(" remembered=");
    line.append(remembered.as_str());
    line.append(")");
    line
}

fn attempt_words(attempt: u32, attempts: u32) -> (r: String)
    ensures
        r@ == attempt_text(attempt, attempts),
{
    let attempt = decimal(attempt as u64);
    let attempts = decimal(attempts as u64);
    cat3(attempt.as_str(), "/", attempts.as_str())
}

/// One attempt: nothing is done where the built-in display is active already;
/// else the numbers that may be its own are tried.
pub open spec fn attempted(
    explicit: Option<u32>,
    attempt: u32,
    attempts: u32,
    verbose: bool,
    error: Option<Seq<char>>,
    t: Seq<ReplyView>,
) -> Course<TrialView> {
    match native::activity_found(t) {
        Course::Asks(e) => Course::Asks(e),
        Course::Ends(active, t) => if active {
            match files::logged(
                "restore-internal: builtin already active (attempt "@ + attempt_text(
                    attempt,
                    attempts,
                ) + ")"@,
                t,
            ) {
                Course::Asks(e) => Course::Asks(e),
                Course::Ends(_, t) => Course::Ends(TrialView::Over(Ok(())), t),
            }
        } else {
            match native::builtin_found(t) {
                Course::Asks(e) => Course::Asks(e),
                Course::Ends(live, t) => match files::panel_number_read(t) {
                    Course::Asks(e) => Course::Asks(e),
                    Course::Ends(r, t) => match r {
                        Err(error) => Course::Ends(TrialView::Over(Err(error)), t),
                        Ok(remembered) => {
                            let ids = policy::candidates(explicit, live, remembered);
                            match files::logged(
                                attempt_log(attempt, attempts, ids, live, remembered),
                                t,
                            ) {
                                Course::Asks(e) => Course::Asks(e),
                                Course::Ends(_, t) => numbers_tried(ids, verbose, error, t),
                            }
                        },
                    },
                },
            }
        },
    }
}

fn attempt_restore(
    tape: &mut Tape,
    explicit: Option<u32>,
    attempt: u32,
    attempts: u32,
    verbose: bool,
    error: Option<String>,
) -> (r: Result<Trial, Effect>)
    ensures
        effect::course(r, final(tape).rest()) == attempted(
            explicit,
            attempt,
            attempts,
            verbose,
            error.shown(),
            old(tape).rest(),
        ),
        final(tape).all() == old(tape).all(),
{
    let active = match builtin_display_active(tape) {
        Err(e) => return Err(e),
        Ok(active) => active,
    };
    if active {
        let count = attempt_words(attempt, attempts);
        let line = cat3(
            "restore-internal: builtin already active (attempt ",
            count.as_str(),
            ")",
        );
        return match log_event(tape, line.as_str()) {
            Err(e) => Err(e),
            Ok(_) => Ok(Trial::Over(Ok(()))),
        };
    }
    let live = match current_builtin_display_id(tape) {
        Err(e) => return Err(e),
        Ok(live) => live,
    };
    let remembered = match remembered_internal_display_id(tape) {
        Err(e) => return Err(e),
        Ok(Err(error)) => return Ok(Trial::Over(Err(error))),
        Ok(Ok(remembered)) => remembered,
    };
    let ids = internal_restore_candidates(explicit, live, remembered);
    let line = attempt_note(attempt, attempts, &ids, live, remembered);
    match log_event(tape, line.as_str()) {
        Err(e) => return Err(e),
        Ok(_) => {},
    }
    try_numbers(tape, &ids, verbose, error)
}

// ---------------------------------------------------------------------------
// All attempts.
// ---------------------------------------------------------------------------
/// Before every attempt but the first, there is a pause, and the displays are
/// detected anew.
pub open spec fn attempt_prepared(attempt: u32, t: Seq<ReplyView>) -> Course<()> {
    if attempt > 1 {
        match effect::asks_any(EffectView::Sleep(INTERNAL_RESTORE_RETRY_DELAY), t) {
            Course::Asks(e) => Course::Asks(e),
            Course::Ends(_, t) => match native::detected(ActionMode::Execute, false, t) {
                Course::Asks(e) => Course::Asks(e),
                Course::Ends(_, t) => Course::Ends((), t),
            },
        }
    } else {
        Course::Ends((), t)
    }
}

fn prepare_attempt(tape: &mut Tape, attempt: u32) -> (r: Result<(), Effect>)
    ensures
        effect::course(r, final(tape).rest()) == attempt_prepared(attempt, old(tape).rest()),
        final(tape).all() == old(tape).all(),
{
    if attempt > 1 {
        match tape.ask_any(Effect::Sleep(INTERNAL_RESTORE_RETRY_DELAY)) {
            Err(e) => return Err(e),
            Ok(_) => {},
        }
        match detect_displays(tape, ActionMode::Execute, false) {
            Err(e) => return Err(e),
            Ok(_) => {},
        }
    }
    Ok(())
}

/// The attempts from `attempt` on, up to `last`.
pub open spec fn attempts_made(
    explicit: Option<u32>,
    attempt: u32,
    last: u32,
    attempts: u32,
    verbose: bool,
    error: Option<Seq<char>>,
    t: Seq<ReplyView>,
) -> Course<Result<(), Seq<char>>>
    decreases last - attempt,
{
    match attempt_prepared(attempt, t) {
        Course::Asks(e) => Course::Asks(e),
        Course::Ends(_, t) => match attempted(explicit, attempt, attempts, verbose, error, t) {
            Course::Asks(e) => Course::Asks(e),
            Course::Ends(trial, t) => match trial {
                TrialView::Over(r) => Course::Ends(r, t),
                TrialView::Failed(error) => if attempt >= last {
                    Course::Ends(
                        Err(
                            text::text_or(
                                error,
                                "internal restore did not enable the built-in display"@,
                            ),
                        ),
                        t,
                    )
                } else {
                    attempts_made(
                        explicit,
                        (attempt + 1) as u32,
                        last,
                        attempts,
                        verbose,
                        error,
                        t,
                    )
                },
            },
        },
    }
}

/// The built-in display is enabled, with as many attempts as it may take. In a
/// dry run only the first number is announced.
pub open spec fn internal_enabled(
    explicit: Option<u32>,
    attempts: u32,
    mode: ActionMode,
    verbose: bool,
    t: Seq<ReplyView>,
) -> Course<Result<(), Seq<char>>> {
    if mode == ActionMode::DryRun {
        match files::panel_number_read(t) {
            Course::Asks(e) => Course::Asks(e),
            Course::Ends(r, t) => match r {
                Err(error) => Course::Ends(Err(error), t),
                Ok(remembered) => native::native_switched(
                    policy::candidates(explicit, None, remembered)[0],
                    true,
                    mode,
                    verbose,
                    t,
                ),
            },
        }
    } else {
        attempts_made(
            explicit,
            1,
            if attempts > 1 {
                attempts
            } else {
                1
            },
            attempts,
            verbose,
            None,
            t,
        )
    }
}

/// Enables the built-in display, and makes sure that it came up.
pub fn enable_internal_with_retry(
    tape: &mut Tape,
    explicit: Option<CGDirectDisplayID>,
    attempts: u32,
    mode: ActionMode,
    verbose: bool,
) -> (r: Result<Result<(), String>, Effect>)
    ensures
        effect::course(r, final(tape).rest()) == internal_enabled(
            explicit,
            attempts,
            mode,
            verbose,
            old(tape).rest(),
        ),
        final(tape).all() == old(tape).all(),
{
    if mode == ActionMode::DryRun {
        let remembered = match remembered_internal_display_id(tape) {
            Err(e) => return Err(e),
            Ok(Err(error)) => return Ok(Err(error)),
            Ok(Ok(remembered)) => remembered,
        };
        let ids = internal_restore_candidates(explicit, None, remembered);
        proof {
            policy::candidates_are_tried_once(explicit, None, remembered);
        }
        return set_native_display_enabled(tape, ids[0], true, mode, verbose);
    }
    let last: u32 = if attempts > 1 {
        attempts
    } else {
        1
    };
    let mut attempt: u32 = 1;
    let mut error: Option<String> = None;
    let ghost whole = attempts_made(explicit, 1, last, attempts, verbose, None, tape.rest());
    loop
        invariant
            tape.all() == old(tape).all(),
            1 <= attempt <= last,
            whole == internal_enabled(explicit, attempts, mode, verbose, old(tape).rest()),
            attempts_made(
                explicit,
                attempt,
                last,
                attempts,
                verbose,
                error.shown(),
                tape.rest(),
            ) == whole,
        decreases last - attempt,
    {
        match prepare_attempt(tape, attempt) {
            Err(e) => return Err(e),
            Ok(_) => {},
        }
        match attempt_restore(tape, explicit, attempt, attempts, verbose, error) {
            Err(e) => return Err(e),
            Ok(Trial::Over(outcome)) => return Ok(outcome),
            Ok(Trial::Failed(reason)) => {
                error = reason;
            },
        }
        if attempt == last {
            return match error {
                Some(error) => Ok(Err(error)),
                None => Ok(Err(owned("internal restore did not enable the built-in display"))),
            };
        }
        attempt = attempt + 1;
    }
}

// ---------------------------------------------------------------------------
// Restoring.
// ---------------------------------------------------------------------------
/// The displays are detected anew, and the built-in one is enabled; on request
/// also by `displayplacer`, under the id that is remembered.
pub open spec fn internal_restored(
    explicit: Option<u32>,
    mode: ActionMode,
    fallback: bool,
    verbose: bool,
    attempts: u32,
    t: Seq<ReplyView>,
) -> Course<Result<(), Seq<char>>> {
    match native::detected(mode, verbose, t) {
        Course::Asks(e) => Course::Asks(e),
        Course::Ends(r, t) => match r {
            Err(error) => Course::Ends(Err(error), t),
            Ok(_) => match internal_enabled(explicit, attempts, mode, verbose, t) {
                Course::Asks(e) => Course::Asks(e),
                Course::Ends(r, t) => match r {
                    Err(error) => Course::Ends(Err(error), t),
                    Ok(_) => if fallback {
                        fallback_tried(mode, verbose, t)
                    } else {
                        Course::Ends(Ok(()), t)
                    },
                },
            },
        },
    }
}

/// The built-in display is enabled by `displayplacer`, where its id is
/// remembered.
pub open spec fn fallback_tried(mode: ActionMode, verbose: bool, t: Seq<ReplyView>) -> Course<
    Result<(), Seq<char>>,
> {
    match files::value_read("internal_id"@, t) {
        Course::Asks(e) => Course::Asks(e),
        Course::Ends(r, t) => match r {
            Err(error) => Course::Ends(Err(error), t),
            Ok(id) => match id {
                Some(id) => commands::settled(
                    commands::placer_switched(id, true, mode, verbose, t),
                ),
                None => match effect::warned_if(
                    verbose,
                    "warning: no remembered internal id in displayed state; skipped displayplacer fallback"@,
                    t,
                ) {
                    Course::Asks(e) => Course::Asks(e),
                    Course::Ends(_, t) => Course::Ends(Ok(()), t),
                },
            },
        },
    }
}

fn try_fallback(tape: &mut Tape, mode: ActionMode, verbose: bool) -> (r: Result<
    Result<(), String>,
    Effect,
>)
    ensures
        effect::course(r, final(tape).rest()) == fallback_tried(mode, verbose, old(tape).rest()),
        final(tape).all() == old(tape).all(),
{
    match read_state_value(tape, "internal_id") {
        Err(e) => Err(e),
        Ok(Err(error)) => Ok(Err(error)),
        Ok(Ok(Some(id))) => match set_displayplacer_enabled(
            tape,
            id.as_str(),
            true,
            mode,
            verbose,
        ) {
            Err(e) => Err(e),
            Ok(Err(error)) => Ok(Err(error)),
            Ok(Ok(_)) => Ok(Ok(())),
        },
        Ok(Ok(None)) => match warn_if(
            tape,
            verbose,
            "warning: no remembered internal id in displayed state; skipped displayplacer fallback",
        ) {
            Err(e) => Err(e),
            Ok(_) => Ok(Ok(())),
        },
    }
}

/// Detects the displays anew, and enables the built-in one.
pub fn restore_internal_once(
    tape: &mut Tape,
    display_id: Option<CGDirectDisplayID>,
    mode: ActionMode,
    displayplacer_fallback: bool,
    verbose: bool,
    attempts: u32,
) -> (r: Result<Result<(), String>, Effect>)
    ensures
        effect::course(r, final(tape).rest()) == internal_restored(
            display_id,
            mode,
            displayplacer_fallback,
            verbose,
            attempts,
            old(tape).rest(),
        ),
        final(tape).all() == old(tape).all(),
{
    match detect_displays(tape, mode, verbose) {
        Err(e) => return Err(e),
        Ok(Err(error)) => return Ok(Err(error)),
        Ok(Ok(_)) => {},
    }
    match enable_internal_with_retry(tape, display_id, attempts, mode, verbose) {
        Err(e) => return Err(e),
        Ok(Err(error)) => return Ok(Err(error)),
        Ok(Ok(_)) => {},
    }
    if displayplacer_fallback {
        return try_fallback(tape, mode, verbose);
    }
    Ok(Ok(()))
}

/// The displays are detected anew, and one is enabled by its number.
pub open spec fn number_restored(
    id: u32,
    mode: ActionMode,
    verbose: bool,
    t: Seq<ReplyView>,
) -> Course<
    Result<(), Seq<char>>,
> {
    match native::detected(mode, verbose, t) {
        Course::Asks(e) => Course::Asks(e),
        Course::Ends(r, t) => match r {
            Err(error) => Course::Ends(Err(error), t),
            Ok(_) => native::native_switched(id, true, mode, verbose, t),
        },
    }
}

/// Detects the displays anew, and enables one by its number.
pub fn restore_display_id(
    tape: &mut Tape,
    display_id: CGDirectDisplayID,
    mode: ActionMode,
    verbose: bool,
) -> (r: Result<Result<(), String>, Effect>)
    ensures
        effect::course(r, final(tape).rest()) == number_restored(
            display_id,
            mode,
            verbose,
            old(tape).rest(),
        ),
        final(tape).all() == old(tape).all(),
{
    match detect_displays(tape, mode, verbose) {
        Err(e) => Err(e),
        Ok(Err(error)) => Ok(Err(error)),
        Ok(Ok(_)) => set_native_display_enabled(tape, display_id, true, mode, verbose),
    }
}

/// The displays are detected anew; where that fails, a warning says so.
pub open spec fn detection_tried(mode: ActionMode, verbose: bool, t: Seq<ReplyView>) -> Course<()> {
    match native::detected(mode, verbose, t) {
        Course::Asks(e) => Course::Asks(e),
        Course::Ends(r, t) => match r {
            Err(error) => effect::warned_if(
                verbose,
                "warning: display redetection failed: "@ + error,
                t,
            ),
            Ok(_) => Course::Ends((), t),
        },
    }
}

/// Detects the displays anew, and warns where that fails.
pub fn try_detection(tape: &mut Tape, mode: ActionMode, verbose: bool) -> (r: Result<(), Effect>)
    ensures
        effect::course(r, final(tape).rest()) == detection_tried(mode, verbose, old(tape).rest()),
        final(tape).all() == old(tape).all(),
{
    match detect_displays(tape, mode, verbose) {
        Err(e) => Err(e),
        Ok(Err(error)) => {
            let line = cat2("warning: display redetection failed: ", error.as_str());
            warn_if(tape, verbose, line.as_str())
        },
        Ok(Ok(_)) => Ok(()),
    }
}

// ---------------------------------------------------------------------------
// The lid.
// ---------------------------------------------------------------------------
/// The position of the lid is read.
pub open spec fn lid_read(verbose: bool, t: Seq<ReplyView>) -> Course<ClamshellState> {
    match commands::timed_run(
        "ioreg"@,
        seq!["-r"@, "-k"@, "AppleClamshellState"@, "-d"@, "4"@],
        1000,
        t,
    ) {
        Course::Asks(e) => Course::Asks(e),
        Course::Ends(r, t) => match r {
            Ok(capture) => Course::Ends(policy::lid_in(capture.stdout), t),
            Err(error) => match effect::warned_if(
                verbose,
                "warning: clamshell state unavailable: "@ + error,
                t,
            ) {
                Course::Asks(e) => Course::Asks(e),
                Course::Ends(_, t) => Course::Ends(ClamshellState::Unknown, t),
            },
        },
    }
}

/// Reads the position of the lid.
pub fn read_clamshell_state(tape: &mut Tape, verbose: bool) -> (r: Result<ClamshellState, Effect>)
    ensures
        effect::course(r, final(tape).rest()) == lid_read(verbose, old(tape).rest()),
        final(tape).all() == old(tape).all(),
{
    let arguments = list5("-r", "-k", "AppleClamshellState", "-d", "4");
    match run_command_with_timeout(tape, "ioreg", &arguments, 1000) {
        Err(e) => Err(e),
        Ok(Ok(capture)) => Ok(clamshell_state(capture.stdout.as_str())),
        Ok(Err(error)) => {
            let line = cat2("warning: clamshell state unavailable: ", error.as_str());
            match warn_if(tape, verbose, line.as_str()) {
                Err(e) => Err(e),
                Ok(_) => Ok(ClamshellState::Unknown),
            }
        },
    }
}

/// The built-in display is restored for safety, unless the lid is closed: with
/// a closed lid it cannot light up.
pub open spec fn safety_restored(mode: ActionMode, verbose: bool, t: Seq<ReplyView>) -> Course<
    Result<(), Seq<char>>,
> {
    match lid_read(verbose, t) {
        Course::Asks(e) => Course::Asks(e),
        Course::Ends(lid, t) => if lid == ClamshellState::Closed {
            match files::logged("internal safety restore: skipped (clamshell closed)"@, t) {
                Course::Asks(e) => Course::Asks(e),
                Course::Ends(_, t) => Course::Ends(Ok(()), t),
            }
        } else {
            match effect::said_if(verbose, "internal safety restore: redetect displays"@, t) {
                Course::Asks(e) => Course::Asks(e),
                Course::Ends(_, t) => match detection_tried(mode, verbose, t) {
                    Course::Asks(e) => Course::Asks(e),
                    Course::Ends(_, t) => internal_enabled(
                        None,
                        INTERNAL_RESTORE_ATTEMPTS,
                        mode,
                        verbose,
                        t,
                    ),
                },
            }
        },
    }
}

/// Restores the built-in display for safety, unless the lid is closed.
pub fn restore_internal_safety(tape: &mut Tape, mode: ActionMode, verbose: bool) -> (r: Result<
    Result<(), String>,
    Effect,
>)
    ensures
        effect::course(r, final(tape).rest()) == safety_restored(mode, verbose, old(tape).rest()),
        final(tape).all() == old(tape).all(),
{
    let lid = match read_clamshell_state(tape, verbose) {
        Err(e) => return Err(e),
        Ok(lid) => lid,
    };
    if lid == ClamshellState::Closed {
        return match log_event(tape, "internal safety restore: skipped (clamshell closed)") {
            Err(e) => Err(e),
            Ok(_) => Ok(Ok(())),
        };
    }
    match say_if(tape, verbose, "internal safety restore: redetect displays") {
        Err(e) => return Err(e),
        Ok(_) => {},
    }
    match try_detection(tape, mode, verbose) {
        Err(e) => return Err(e),
        Ok(_) => {},
    }
    enable_internal_with_retry(tape, None, INTERNAL_RESTORE_ATTEMPTS, mode, verbose)
}

} // verus!
