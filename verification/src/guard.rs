//! Safe reset, and the guard of the built-in display.

use vstd::prelude::*;

use crate::commands;
use crate::commands::{
    load_displayplacer, load_displayplacer_with_timeout, set_displayplacer_enabled,
};
use crate::display;
use crate::display::{has_external_on, has_internal_on, Display, DisplayView};
use crate::effect;
use crate::effect::{say_if, warn_if, Course, Effect, EffectView, ReplyView, Tape};
use crate::files;
use crate::files::{log_event, remember_internal, remembered_display_ids};
use crate::native;
use crate::native::set_native_display_enabled;
use crate::number;
use crate::number::{bool_str, decimal};
use crate::policy;
use crate::policy::{internal_guard_action_for_state, ActionMode, ClamshellState, GuardAction};
use crate::restore;
use crate::restore::{
    read_clamshell_state, restore_internal_once, try_detection, INTERNAL_RESTORE_ATTEMPTS,
};
use crate::text;
use crate::text::{cat2, cat4, cat5};

verus! {

// ---------------------------------------------------------------------------
// Safe reset.
// ---------------------------------------------------------------------------
/// The remembered numbers are enabled, one after the other.
pub open spec fn numbers_enabled(
    ids: Seq<u32>,
    mode: ActionMode,
    verbose: bool,
    t: Seq<ReplyView>,
) -> Course<()>
    decreases ids.len(),
{
    if ids.len() == 0 {
        Course::Ends((), t)
    } else {
        let digits = number::dec(ids[0] as nat);
        match effect::said_if(verbose, "safe reset: enable remembered display id "@ + digits, t) {
            Course::Asks(e) => Course::Asks(e),
            Course::Ends(_, t) => match native::native_switched(ids[0], true, mode, verbose, t) {
                Course::Asks(e) => Course::Asks(e),
                Course::Ends(r, t) => match r {
                    Ok(_) => numbers_enabled(ids.skip(1), mode, verbose, t),
                    Err(error) => match effect::warned_if(
                        verbose,
                        "warning: native restore failed for display id "@ + digits + ": "@ + error,
                        t,
                    ) {
                        Course::Asks(e) => Course::Asks(e),
                        Course::Ends(_, t) => numbers_enabled(ids.skip(1), mode, verbose, t),
                    },
                },
            },
        }
    }
}

fn enable_numbers(tape: &mut Tape, ids: &Vec<u32>, mode: ActionMode, verbose: bool) -> (r: Result<
    (),
    Effect,
>)
    ensures
        effect::course(r, final(tape).rest()) == numbers_enabled(
            ids@,
            mode,
            verbose,
            old(tape).rest(),
        ),
        final(tape).all() == old(tape).all(),
{
    let ghost whole = numbers_enabled(ids@, mode, verbose, tape.rest());
    let mut i: usize = 0;
    assert(ids@.skip(0) =~= ids@);
    while i < ids.len()
        invariant
            tape.all() == old(tape).all(),
            i <= ids.len(),
            whole == numbers_enabled(ids@, mode, verbose, old(tape).rest()),
            numbers_enabled(ids@.skip(i as int), mode, verbose, tape.rest()) == whole,
        decreases ids.len() - i,
    {
        let id: u32 = ids[i];
        assert(ids@.skip(i as int).skip(1) =~= ids@.skip(i + 1));
        assert(ids@.skip(i as int)[0] == id);
        let digits = decimal(id as u64);
        let line = cat2("safe reset: enable remembered display id ", digits.as_str());
        match say_if(tape, verbose, line.as_str()) {
            Err(e) => return Err(e),
            Ok(_) => {},
        }
        match set_native_display_enabled(tape, id, true, mode, verbose) {
            Err(e) => return Err(e),
            Ok(Ok(_)) => {},
            Ok(Err(error)) => {
                let line = cat4(
                    "warning: native restore failed for display id ",
                    digits.as_str(),
                    ": ",
                    error.as_str(),
                );
                match warn_if(tape, verbose, line.as_str()) {
                    Err(e) => return Err(e),
                    Ok(_) => {},
                }
            },
        }
        i = i + 1;
    }
    Ok(())
}

/// All remembered numbers are enabled.
pub open spec fn remembered_enabled(mode: ActionMode, verbose: bool, t: Seq<ReplyView>) -> Course<
    Result<(), Seq<char>>,
> {
    match files::numbers_read(t) {
        Course::Asks(e) => Course::Asks(e),
        Course::Ends(r, t) => match r {
            Err(error) => Course::Ends(Err(error), t),
            Ok(ids) => match if ids.len() == 0 {
                effect::warned_if(
                    verbose,
                    "warning: no remembered display ids; skipped native restore"@,
                    t,
                )
            } else {
                numbers_enabled(ids, mode, verbose, t)
            } {
                Course::Asks(e) => Course::Asks(e),
                Course::Ends(_, t) => Course::Ends(Ok(()), t),
            },
        },
    }
}

fn enable_remembered(tape: &mut Tape, mode: ActionMode, verbose: bool) -> (r: Result<
    Result<(), String>,
    Effect,
>)
    ensures
        effect::course(r, final(tape).rest()) == remembered_enabled(
            mode,
            verbose,
            old(tape).rest(),
        ),
        final(tape).all() == old(tape).all(),
{
    let ids = match remembered_display_ids(tape) {
        Err(e) => return Err(e),
        Ok(Err(error)) => return Ok(Err(error)),
        Ok(Ok(ids)) => ids,
    };
    let done = if ids.len() == 0 {
        warn_if(tape, verbose, "warning: no remembered display ids; skipped native restore")
    } else {
        enable_numbers(tape, &ids, mode, verbose)
    };
    match done {
        Err(e) => Err(e),
        Ok(_) => Ok(Ok(())),
    }
}

/// The displays of a list that are off are enabled, one after the other. The
/// value is whether one was.
pub open spec fn listed_enabled(
    displays: Seq<DisplayView>,
    mode: ActionMode,
    verbose: bool,
    any: bool,
    t: Seq<ReplyView>,
) -> Course<bool>
    decreases displays.len(),
{
    if displays.len() == 0 {
        Course::Ends(any, t)
    } else if displays[0].on() {
        listed_enabled(displays.skip(1), mode, verbose, any, t)
    } else {
        match displays[0].persistent_id {
            None => match effect::warned_if(
                verbose,
                "warning: skipped disabled display without persistent id"@,
                t,
            ) {
                Course::Asks(e) => Course::Asks(e),
                Course::Ends(_, t) => listed_enabled(displays.skip(1), mode, verbose, any, t),
            },
            Some(id) => match effect::said_if(
                verbose,
                "safe reset: enable detected display "@ + id,
                t,
            ) {
                Course::Asks(e) => Course::Asks(e),
                Course::Ends(_, t) => match commands::placer_switched(id, true, mode, verbose, t) {
                    Course::Asks(e) => Course::Asks(e),
                    Course::Ends(r, t) => match r {
                        Ok(_) => listed_enabled(displays.skip(1), mode, verbose, true, t),
                        Err(error) => match effect::warned_if(
                            verbose,
                            "warning: failed to enable display "@ + id + ": "@ + error,
                            t,
                        ) {
                            Course::Asks(e) => Course::Asks(e),
                            Course::Ends(_, t) => listed_enabled(
                                displays.skip(1),
                                mode,
                                verbose,
                                any,
                                t,
                            ),
                        },
                    },
                },
            },
        }
    }
}

fn enable_listed(tape: &mut Tape, displays: &Vec<Display>, mode: ActionMode, verbose: bool) -> (r:
    Result<bool, Effect>)
    ensures
        effect::course(r, final(tape).rest()) == listed_enabled(
            display::display_views(displays@),
            mode,
            verbose,
            false,
            old(tape).rest(),
        ),
        final(tape).all() == old(tape).all(),
{
    let ghost all = display::display_views(displays@);
    let ghost whole = listed_enabled(all, mode, verbose, false, tape.rest());
    let mut any = false;
    let mut i: usize = 0;
    assert(all.skip(0) =~= all);
    while i < displays.len()
        invariant
            tape.all() == old(tape).all(),
            i <= displays.len(),
            all == display::display_views(displays@),
            whole == listed_enabled(all, mode, verbose, false, old(tape).rest()),
            listed_enabled(all.skip(i as int), mode, verbose, any, tape.rest()) == whole,
        decreases displays.len() - i,
    {
        let display = &displays[i];
        assert(all.skip(i as int).skip(1) =~= all.skip(i + 1));
        assert(all.skip(i as int)[0] == display@);
        if !display.is_enabled() {
            match display.stable_id() {
                None => match warn_if(
                    tape,
                    verbose,
                    "warning: skipped disabled display without persistent id",
                ) {
                    Err(e) => return Err(e),
                    Ok(_) => {},
                },
                Some(id) => {
                    let line = cat2("safe reset: enable detected display ", id);
                    match say_if(tape, verbose, line.as_str()) {
                        Err(e) => return Err(e),
                        Ok(_) => {},
                    }
                    match set_displayplacer_enabled(tape, id, true, mode, verbose) {
                        Err(e) => return Err(e),
                        Ok(Ok(_)) => {
                            any = true;
                        },
                        Ok(Err(error)) => {
                            let line = cat4(
                                "warning: failed to enable display ",
                                id,
                                ": ",
                                error.as_str(),
                            );
                            match warn_if(tape, verbose, line.as_str()) {
                                Err(e) => return Err(e),
                                Ok(_) => {},
                            }
                        },
                    }
                },
            }
        }
        i = i + 1;
    }
    Ok(any)
}

/// All displays that are listed and off are enabled.
pub open spec fn detected_enabled(mode: ActionMode, verbose: bool, t: Seq<ReplyView>) -> Course<
    Result<(), Seq<char>>,
> {
    match commands::displays_listed(t) {
        Course::Asks(e) => Course::Asks(e),
        Course::Ends(r, t) => match r {
            Err(error) => match effect::warned_if(
                verbose,
                "warning: could not reload displayplacer list after redetect: "@ + error,
                t,
            ) {
                Course::Asks(e) => Course::Asks(e),
                Course::Ends(_, t) => Course::Ends(Ok(()), t),
            },
            Ok(parsed) => match files::list_remembered(parsed.displays, t) {
                Course::Asks(e) => Course::Asks(e),
                Course::Ends(_, t) => match listed_enabled(
                    parsed.displays,
                    mode,
                    verbose,
                    false,
                    t,
                ) {
                    Course::Asks(e) => Course::Asks(e),
                    Course::Ends(any, t) => match effect::said_if(
                        !any && verbose,
                        "safe reset: no detected disabled displays to enable"@,
                        t,
                    ) {
                        Course::Asks(e) => Course::Asks(e),
                        Course::Ends(_, t) => Course::Ends(Ok(()), t),
                    },
                },
            },
        },
    }
}

fn enable_detected(tape: &mut Tape, mode: ActionMode, verbose: bool) -> (r: Result<
    Result<(), String>,
    Effect,
>)
    ensures
        effect::course(r, final(tape).rest()) == detected_enabled(mode, verbose, old(tape).rest()),
        final(tape).all() == old(tape).all(),
{
    let parsed = match load_displayplacer(tape) {
        Err(e) => return Err(e),
        Ok(Err(error)) => {
            let line = cat2(
                "warning: could not reload displayplacer list after redetect: ",
                error.as_str(),
            );
            return match warn_if(tape, verbose, line.as_str()) {
                Err(e) => Err(e),
                Ok(_) => Ok(Ok(())),
            };
        },
        Ok(Ok(parsed)) => parsed,
    };
    match remember_internal(tape, &parsed) {
        Err(e) => return Err(e),
        Ok(_) => {},
    }
    let any = match enable_listed(tape, &parsed.displays, mode, verbose) {
        Err(e) => return Err(e),
        Ok(any) => any,
    };
    match say_if(
        tape,
        !any && verbose,
        "safe reset: no detected disabled displays to enable",
    ) {
        Err(e) => Err(e),
        Ok(_) => Ok(Ok(())),
    }
}

/// After displays were really switched, there is a pause.
pub open spec fn settling_awaited(mode: ActionMode, t: Seq<ReplyView>) -> Course<()> {
    if mode == ActionMode::Execute {
        effect::asks_any(EffectView::Sleep(500), t)
    } else {
        Course::Ends((), t)
    }
}

/// A safe reset: the displays are detected anew, every number that is
/// remembered is enabled, and then every display that is listed and off.
pub open spec fn reset_done(mode: ActionMode, verbose: bool, t: Seq<ReplyView>) -> Course<
    Result<(), Seq<char>>,
> {
    match effect::said_if(verbose, "safe reset: redetect displays"@, t) {
        Course::Asks(e) => Course::Asks(e),
        Course::Ends(_, t) => match restore::detection_tried(mode, verbose, t) {
            Course::Asks(e) => Course::Asks(e),
            Course::Ends(_, t) => match remembered_enabled(mode, verbose, t) {
                Course::Asks(e) => Course::Asks(e),
                Course::Ends(r, t) => match r {
                    Err(error) => Course::Ends(Err(error), t),
                    Ok(_) => match settling_awaited(mode, t) {
                        Course::Asks(e) => Course::Asks(e),
                        Course::Ends(_, t) => detected_enabled(mode, verbose, t),
                    },
                },
            },
        },
    }
}

/// Does a safe reset.
pub fn safe_reset_once_with_verbosity(tape: &mut Tape, mode: ActionMode, verbose: bool) -> (r:
    Result<Result<(), String>, Effect>)
    ensures
        effect::course(r, final(tape).rest()) == reset_done(mode, verbose, old(tape).rest()),
        final(tape).all() == old(tape).all(),
{
    match say_if(tape, verbose, "safe reset: redetect displays") {
        Err(e) => return Err(e),
        Ok(_) => {},
    }
    match try_detection(tape, mode, verbose) {
        Err(e) => return Err(e),
        Ok(_) => {},
    }
    match enable_remembered(tape, mode, verbose) {
        Err(e) => return Err(e),
        Ok(Err(error)) => return Ok(Err(error)),
        Ok(Ok(_)) => {},
    }
    if mode == ActionMode::Execute {
        match tape.ask_any(Effect::Sleep(500)) {
            Err(e) => return Err(e),
            Ok(_) => {},
        }
    }
    enable_detected(tape, mode, verbose)
}

/// Does a safe reset, and says so.
pub fn safe_reset_once(tape: &mut Tape, mode: ActionMode) -> (r: Result<
    Result<(), String>,
    Effect,
>)
    ensures
        effect::course(r, final(tape).rest()) == reset_done(mode, true, old(tape).rest()),
        final(tape).all() == old(tape).all(),
{
    safe_reset_once_with_verbosity(tape, mode, true)
}

// ---------------------------------------------------------------------------
// Restoring the built-in display, and nothing else.
// ---------------------------------------------------------------------------
/// The id of the first built-in display that is listed and off, and has one.
pub open spec fn off_panel(displays: Seq<DisplayView>) -> Option<Seq<char>>
    decreases displays.len(),
{
    if displays.len() == 0 {
        None
    } else if displays[0].internal() && !displays[0].on() && displays[0].persistent_id is Some {
        displays[0].persistent_id
    } else {
        off_panel(displays.skip(1))
    }
}

fn find_off_panel(displays: &Vec<Display>) -> (r: Option<&str>)
    ensures
        text::opt_str(r) == off_panel(display::display_views(displays@)),
{
    let ghost all = display::display_views(displays@);
    let mut i: usize = 0;
    assert(all.skip(0) =~= all);
    while i < displays.len()
        invariant
            i <= displays.len(),
            all == display::display_views(displays@),
            off_panel(all.skip(i as int)) == off_panel(all),
        decreases displays.len() - i,
    {
        let display = &displays[i];
        assert(all.skip(i as int).skip(1) =~= all.skip(i + 1));
        assert(all.skip(i as int)[0] == display@);
        if display.is_internal() && !display.is_enabled() {
            if let Some(id) = display.stable_id() {
                return Some(id);
            }
        }
        i = i + 1;
    }
    None
}

/// Where displays are really switched, those of the list are remembered.
pub open spec fn noted(
    mode: ActionMode,
    displays: Seq<DisplayView>,
    t: Seq<ReplyView>,
) -> Course<()> {
    if mode == ActionMode::Execute {
        files::list_remembered(displays, t)
    } else {
        Course::Ends((), t)
    }
}

/// The built-in display is enabled by `displayplacer`, where it is listed and
/// off.
pub open spec fn panel_switched(
    displays: Seq<DisplayView>,
    mode: ActionMode,
    verbose: bool,
    t: Seq<ReplyView>,
) -> Course<Result<(), Seq<char>>> {
    if display::internal_on(displays) {
        Course::Ends(Ok(()), t)
    } else {
        match off_panel(displays) {
            None => Course::Ends(Ok(()), t),
            Some(id) => match commands::placer_switched(id, true, mode, verbose, t) {
                Course::Asks(e) => Course::Asks(e),
                Course::Ends(r, t) => match r {
                    Ok(_) => Course::Ends(Ok(()), t),
                    Err(error) => match effect::warned_if(
                        verbose,
                        "warning: displayplacer internal restore failed: "@ + error,
                        t,
                    ) {
                        Course::Asks(e) => Course::Asks(e),
                        Course::Ends(_, t) => Course::Ends(Ok(()), t),
                    },
                },
            },
        }
    }
}

fn switch_panel(tape: &mut Tape, displays: &Vec<Display>, mode: ActionMode, verbose: bool) -> (r:
    Result<Result<(), String>, Effect>)
    ensures
        effect::course(r, final(tape).rest()) == panel_switched(
            display::display_views(displays@),
            mode,
            verbose,
            old(tape).rest(),
        ),
        final(tape).all() == old(tape).all(),
{
    if has_internal_on(displays) {
        return Ok(Ok(()));
    }
    match find_off_panel(displays) {
        None => Ok(Ok(())),
        Some(id) => match set_displayplacer_enabled(tape, id, true, mode, verbose) {
            Err(e) => Err(e),
            Ok(Ok(_)) => Ok(Ok(())),
            Ok(Err(error)) => {
                let line = cat2(
                    "warning: displayplacer internal restore failed: ",
                    error.as_str(),
                );
                match warn_if(tape, verbose, line.as_str()) {
                    Err(e) => Err(e),
                    Ok(_) => Ok(Ok(())),
                }
            },
        },
    }
}

/// The list is read to see whether the restore worked; where the built-in
/// display is off still, `displayplacer` enables it.
pub open spec fn restore_verified(mode: ActionMode, verbose: bool, t: Seq<ReplyView>) -> Course<
    Result<(), Seq<char>>,
> {
    match commands::displays_listed_within(2000, t) {
        Course::Asks(e) => Course::Asks(e),
        Course::Ends(r, t) => match r {
            Err(error) => match effect::warned_if(
                verbose,
                "warning: could not verify internal restore: "@ + error,
                t,
            ) {
                Course::Asks(e) => Course::Asks(e),
                Course::Ends(_, t) => Course::Ends(Ok(()), t),
            },
            Ok(parsed) => match noted(mode, parsed.displays, t) {
                Course::Asks(e) => Course::Asks(e),
                Course::Ends(_, t) => panel_switched(parsed.displays, mode, verbose, t),
            },
        },
    }
}

fn verify_restore(tape: &mut Tape, mode: ActionMode, verbose: bool) -> (r: Result<
    Result<(), String>,
    Effect,
>)
    ensures
        effect::course(r, final(tape).rest()) == restore_verified(mode, verbose, old(tape).rest()),
        final(tape).all() == old(tape).all(),
{
    let parsed = match load_displayplacer_with_timeout(tape, 2000) {
        Err(e) => return Err(e),
        Ok(Err(error)) => {
            let line = cat2("warning: could not verify internal restore: ", error.as_str());
            return match warn_if(tape, verbose, line.as_str()) {
                Err(e) => Err(e),
                Ok(_) => Ok(Ok(())),
            };
        },
        Ok(Ok(parsed)) => parsed,
    };
    if mode == ActionMode::Execute {
        match remember_internal(tape, &parsed) {
            Err(e) => return Err(e),
            Ok(_) => {},
        }
    }
    switch_panel(tape, &parsed.displays, mode, verbose)
}

/// The built-in display is restored by the window server, and where that does
/// not help, by `displayplacer`.
pub open spec fn internal_only_restored(
    mode: ActionMode,
    verbose: bool,
    attempts: u32,
    t: Seq<ReplyView>,
) -> Course<Result<(), Seq<char>>> {
    match restore::internal_restored(None, mode, false, verbose, attempts, t) {
        Course::Asks(e) => Course::Asks(e),
        Course::Ends(r, t) => match r {
            Ok(_) => restore_verified(mode, verbose, t),
            Err(error) => match effect::warned_if(
                verbose,
                "warning: native internal restore failed: "@ + error,
                t,
            ) {
                Course::Asks(e) => Course::Asks(e),
                Course::Ends(_, t) => restore_verified(mode, verbose, t),
            },
        },
    }
}

/// Restores the built-in display, and touches no other.
pub fn restore_internal_only_safety(
    tape: &mut Tape,
    mode: ActionMode,
    verbose: bool,
    attempts: u32,
) -> (r: Result<Result<(), String>, Effect>)
    ensures
        effect::course(r, final(tape).rest()) == internal_only_restored(
            mode,
            verbose,
            attempts,
            old(tape).rest(),
        ),
        final(tape).all() == old(tape).all(),
{
    match restore_internal_once(tape, None, mode, false, verbose, attempts) {
        Err(e) => return Err(e),
        Ok(Ok(_)) => {},
        Ok(Err(error)) => {
            let line = cat2("warning: native internal restore failed: ", error.as_str());
            match warn_if(tape, verbose, line.as_str()) {
                Err(e) => return Err(e),
                Ok(_) => {},
            }
        },
    }
    verify_restore(tape, mode, verbose)
}

// ---------------------------------------------------------------------------
// The guard.
// ---------------------------------------------------------------------------
/// What the guard saw and decided, as the log shows it.
pub open spec fn guard_log(
    reason: Seq<char>,
    lid: ClamshellState,
    displays: Option<Seq<DisplayView>>,
    action: GuardAction,
) -> Seq<char> {
    let internal = displays is Some && display::internal_on(displays->0);
    let external = displays is Some && display::external_on(displays->0);
    "guard: reason="@ + reason + " clamshell="@ + lid.name() + " state="@ + (if displays is Some {
        "ok"@
    } else {
        "unavailable"@
    }) + " internal_enabled="@ + number::bool_text(internal) + " external_enabled="@
        + number::bool_text(external) + " action="@ + action.name()
}

fn guard_note(
    reason: &str,
    lid: ClamshellState,
    known: bool,
    internal: bool,
    external: bool,
    action: GuardAction,
) -> (r: String)
    ensures
        r@ == "guard: reason="@ + reason@ + " clamshell="@ + lid.name() + " state="@ + (if known {
            "ok"@
        } else {
            "unavailable"@
        }) + " internal_enabled="@ + number::bool_text(internal) + " external_enabled="@
            + number::bool_text(external) + " action="@ + action.name(),
{
    let mut line = cat5("guard: reason=", reason, " clamshell=", lid.as_text(), " state=");
    line.append(
        if known {
            "ok"
        } else {
            "unavailable"
        },
    );
    line.append(" internal_enabled=");
    line.append(bool_str(internal));
    line.append(" external_enabled=");
    line.append(bool_str(external));
    line.append(" action=");
    line.append(action.as_text());
    line
}

/// The log has a line on every run of the guard but those in which the built-in
/// display is on.
pub open spec fn guard_logged(
    reason: Seq<char>,
    lid: ClamshellState,
    displays: Option<Seq<DisplayView>>,
    action: GuardAction,
    t: Seq<ReplyView>,
) -> Course<()> {
    if action == GuardAction::RestoreInternal || displays is None || !display::internal_on(
        displays->0,
    ) {
        files::logged(guard_log(reason, lid, displays, action), t)
    } else {
        Course::Ends((), t)
    }
}

/// The guard does what it decided.
pub open spec fn guard_acted(
    action: GuardAction,
    mode: ActionMode,
    verbose: bool,
    t: Seq<ReplyView>,
) -> Course<Result<(), Seq<char>>> {
    match action {
        GuardAction::Idle => match effect::said_if(
            verbose,
            "guard: no internal restore needed"@,
            t,
        ) {
            Course::Asks(e) => Course::Asks(e),
            Course::Ends(_, t) => Course::Ends(Ok(()), t),
        },
        GuardAction::RestoreInternal => match effect::said_if(
            verbose,
            "guard: restoring internal display"@,
            t,
        ) {
            Course::Asks(e) => Course::Asks(e),
            Course::Ends(_, t) => internal_only_restored(
                mode,
                verbose,
                INTERNAL_RESTORE_ATTEMPTS,
                t,
            ),
        },
    }
}

/// The guard decides on what it saw, and acts.
pub open spec fn guard_decided(
    reason: Seq<char>,
    lid: ClamshellState,
    displays: Option<Seq<DisplayView>>,
    mode: ActionMode,
    verbose: bool,
    t: Seq<ReplyView>,
) -> Course<Result<(), Seq<char>>> {
    let action = policy::guard_decision(lid, displays);
    match guard_logged(reason, lid, displays, action, t) {
        Course::Asks(e) => Course::Asks(e),
        Course::Ends(_, t) => guard_acted(action, mode, verbose, t),
    }
}

/// The guard runs once: it looks at the lid and at the displays, and restores
/// the built-in display where the machine would be dark.
pub open spec fn guarded(
    reason: Seq<char>,
    mode: ActionMode,
    verbose: bool,
    t: Seq<ReplyView>,
) -> Course<
    Result<(), Seq<char>>,
> {
    match effect::said_if(verbose, "guard: reason="@ + reason, t) {
        Course::Asks(e) => Course::Asks(e),
        Course::Ends(_, t) => match restore::lid_read(verbose, t) {
            Course::Asks(e) => Course::Asks(e),
            Course::Ends(lid, t) => match commands::displays_listed_within(2000, t) {
                Course::Asks(e) => Course::Asks(e),
                Course::Ends(r, t) => match r {
                    Ok(parsed) => match noted(mode, parsed.displays, t) {
                        Course::Asks(e) => Course::Asks(e),
                        Course::Ends(_, t) => guard_decided(
                            reason,
                            lid,
                            Some(parsed.displays),
                            mode,
                            verbose,
                            t,
                        ),
                    },
                    Err(error) => match effect::warned_if(
                        verbose,
                        "warning: guard display state unavailable: "@ + error,
                        t,
                    ) {
                        Course::Asks(e) => Course::Asks(e),
                        Course::Ends(_, t) => guard_decided(reason, lid, None, mode, verbose, t),
                    },
                },
            },
        },
    }
}

fn act_on_guard(tape: &mut Tape, action: GuardAction, mode: ActionMode, verbose: bool) -> (r:
    Result<Result<(), String>, Effect>)
    ensures
        effect::course(r, final(tape).rest()) == guard_acted(
            action,
            mode,
            verbose,
            old(tape).rest(),
        ),
        final(tape).all() == old(tape).all(),
{
    match action {
        GuardAction::Idle => match say_if(tape, verbose, "guard: no internal restore needed") {
            Err(e) => Err(e),
            Ok(_) => Ok(Ok(())),
        },
        GuardAction::RestoreInternal => match say_if(
            tape,
            verbose,
            "guard: restoring internal display",
        ) {
            Err(e) => Err(e),
            Ok(_) => restore_internal_only_safety(tape, mode, verbose, INTERNAL_RESTORE_ATTEMPTS),
        },
    }
}

/// Runs the guard once.
pub fn run_internal_guard_once(
    tape: &mut Tape,
    reason: &str,
    mode: ActionMode,
    verbose: bool,
) -> (r:
    Result<Result<(), String>, Effect>)
    ensures
        effect::course(r, final(tape).rest()) == guarded(
            reason@,
            mode,
            verbose,
            old(tape).rest(),
        ),
        final(tape).all() == old(tape).all(),
{
    let line = cat2("guard: reason=", reason);
    match say_if(tape, verbose, line.as_str()) {
        Err(e) => return Err(e),
        Ok(_) => {},
    }
    let lid = match read_clamshell_state(tape, verbose) {
        Err(e) => return Err(e),
        Ok(lid) => lid,
    };
    let listed = match load_displayplacer_with_timeout(tape, 2000) {
        Err(e) => return Err(e),
        Ok(listed) => listed,
    };
    match listed {
        Ok(parsed) => {
            if mode == ActionMode::Execute {
                match remember_internal(tape, &parsed) {
                    Err(e) => return Err(e),
                    Ok(_) => {},
                }
            }
            let action = internal_guard_action_for_state(lid, Some(&parsed));
            let internal = has_internal_on(&parsed.displays);
            let external = has_external_on(&parsed.displays);
            if action == GuardAction::RestoreInternal || !internal {
                let line = guard_note(reason, lid, true, internal, external, action);
                match log_event(tape, line.as_str()) {
                    Err(e) => return Err(e),
                    Ok(_) => {},
                }
            }
            act_on_guard(tape, action, mode, verbose)
        },
        Err(error) => {
            let line = cat2("warning: guard display state unavailable: ", error.as_str());
            match warn_if(tape, verbose, line.as_str()) {
                Err(e) => return Err(e),
                Ok(_) => {},
            }
            let action = internal_guard_action_for_state(lid, None);
            let line = guard_note(reason, lid, false, false, false, action);
            match log_event(tape, line.as_str()) {
                Err(e) => return Err(e),
                Ok(_) => {},
            }
            act_on_guard(tape, action, mode, verbose)
        },
    }
}

// ---------------------------------------------------------------------------
// Sleep.
// ---------------------------------------------------------------------------
/// Before the machine sleeps, the built-in display is restored in a single
/// attempt: sleep must not be held up.
pub open spec fn sleep_prepared(mode: ActionMode, t: Seq<ReplyView>) -> Course<
    Result<(), Seq<char>>,
> {
    match files::logged("power: SystemWillSleep — restoring internal before sleep"@, t) {
        Course::Asks(e) => Course::Asks(e),
        Course::Ends(_, t) => internal_only_restored(mode, false, 1, t),
    }
}

/// Restores the built-in display before the machine sleeps.
pub fn prepare_for_sleep(tape: &mut Tape, mode: ActionMode) -> (r: Result<
    Result<(), String>,
    Effect,
>)
    ensures
        effect::course(r, final(tape).rest()) == sleep_prepared(mode, old(tape).rest()),
        final(tape).all() == old(tape).all(),
{
    match log_event(tape, "power: SystemWillSleep — restoring internal before sleep") {
        Err(e) => Err(e),
        Ok(_) => restore_internal_only_safety(tape, mode, false, 1),
    }
}

} // verus!
