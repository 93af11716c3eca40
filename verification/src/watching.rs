//! Watching for targets: while one is there the built-in display is off, while
//! none is there it is on.

use vstd::prelude::*;

use crate::commands;
use crate::commands::load_displayplacer;
use crate::display;
use crate::display::{has_answering_on, DisplayView};
use crate::effect;
use crate::effect::{warn_if, Course, Effect, EffectView, ReplyView, Tape};
use crate::files;
use crate::files::{remember_internal, remembered_internal_display_id};
use crate::placer::{ParsedDisplayplacer, ParsedView};
use crate::policy;
use crate::policy::{
    auto_watch_action_for_state, display_loss_restore_action_for_change,
    no_enabled_display_safety_action_for_state, ActionMode, AutoWatchAction, DisplayChange,
};
use crate::restore;
use crate::restore::restore_internal_safety;
use crate::switching;
use crate::switching::disable_internal_once_with_verbosity;
use crate::target;
use crate::target::{has_target_on, MonitorTarget, TargetView};
use crate::text;
use crate::text::cat2;

verus! {

// ---------------------------------------------------------------------------
// What is done about the displays.
// ---------------------------------------------------------------------------
/// The outcome, with an action for its success.
pub open spec fn acted(c: Course<Result<(), Seq<char>>>, action: AutoWatchAction) -> Course<
    Result<AutoWatchAction, Seq<char>>,
> {
    match c {
        Course::Asks(e) => Course::Asks(e),
        Course::Ends(r, t) => Course::Ends(
            match r {
                Ok(_) => Ok(action),
                Err(error) => Err(error),
            },
            t,
        ),
    }
}

fn act(outcome: Result<Result<(), String>, Effect>, action: AutoWatchAction) -> (r: Result<
    Result<AutoWatchAction, String>,
    Effect,
>)
    ensures
        forall|rest: Seq<ReplyView>| #[trigger]
            effect::course(r, rest) == acted(effect::course(outcome, rest), action),
{
    match outcome {
        Err(e) => Err(e),
        Ok(Err(error)) => Ok(Err(error)),
        Ok(Ok(_)) => Ok(Ok(action)),
    }
}

/// The displays are listed; where that fails, the built-in display is restored
/// for safety, and there is no list.
pub open spec fn listed_or_restored(mode: ActionMode, verbose: bool, t: Seq<ReplyView>) -> Course<
    Result<Option<ParsedView>, Seq<char>>,
> {
    match commands::displays_listed(t) {
        Course::Asks(e) => Course::Asks(e),
        Course::Ends(r, t) => match r {
            Ok(parsed) => Course::Ends(Ok(Some(parsed)), t),
            Err(error) => match effect::warned_if(
                verbose,
                "warning: display state unavailable; requesting internal restore: "@ + error,
                t,
            ) {
                Course::Asks(e) => Course::Asks(e),
                Course::Ends(_, t) => match restore::safety_restored(mode, verbose, t) {
                    Course::Asks(e) => Course::Asks(e),
                    Course::Ends(r, t) => Course::Ends(
                        match r {
                            Ok(_) => Ok(None),
                            Err(error) => Err(error),
                        },
                        t,
                    ),
                },
            },
        },
    }
}

/// Lists the displays, or restores the built-in one for safety.
pub fn load_displayplacer_for_auto_watch(tape: &mut Tape, mode: ActionMode, verbose: bool) -> (r:
    Result<Result<Option<ParsedDisplayplacer>, String>, Effect>)
    ensures
        effect::course(r, final(tape).rest()) == listed_or_restored(
            mode,
            verbose,
            old(tape).rest(),
        ),
        final(tape).all() == old(tape).all(),
{
    match load_displayplacer(tape) {
        Err(e) => Err(e),
        Ok(Ok(parsed)) => Ok(Ok(Some(parsed))),
        Ok(Err(error)) => {
            let line = cat2(
                "warning: display state unavailable; requesting internal restore: ",
                error.as_str(),
            );
            match warn_if(tape, verbose, line.as_str()) {
                Err(e) => return Err(e),
                Ok(_) => {},
            }
            match restore_internal_safety(tape, mode, verbose) {
                Err(e) => Err(e),
                Ok(Err(error)) => Ok(Err(error)),
                Ok(Ok(_)) => Ok(Ok(None)),
            }
        },
    }
}

/// A watcher does what it decided.
pub open spec fn watch_acted(
    displays: Seq<DisplayView>,
    target_present: bool,
    condition: Option<Seq<char>>,
    mode: ActionMode,
    force: bool,
    verbose: bool,
    t: Seq<ReplyView>,
) -> Course<Result<AutoWatchAction, Seq<char>>> {
    let action = policy::watch_decision(displays, target_present);
    match action {
        AutoWatchAction::DisabledInternal => acted(
            switching::internal_disabled(condition, mode, force, false, verbose, t),
            action,
        ),
        AutoWatchAction::RestoredInternal => acted(
            restore::safety_restored(mode, verbose, t),
            action,
        ),
        AutoWatchAction::Idle => Course::Ends(Ok(action), t),
    }
}

/// Does what a watcher decides.
pub fn apply_auto_watch_action(
    tape: &mut Tape,
    parsed: &ParsedDisplayplacer,
    target_present: bool,
    raw_condition: Option<&str>,
    mode: ActionMode,
    force: bool,
    verbose: bool,
) -> (r: Result<Result<AutoWatchAction, String>, Effect>)
    ensures
        effect::course(r, final(tape).rest()) == watch_acted(
            parsed@.displays,
            target_present,
            text::opt_str(raw_condition),
            mode,
            force,
            verbose,
            old(tape).rest(),
        ),
        final(tape).all() == old(tape).all(),
{
    match auto_watch_action_for_state(parsed, target_present) {
        AutoWatchAction::DisabledInternal => {
            let outcome = disable_internal_once_with_verbosity(
                tape,
                raw_condition,
                mode,
                force,
                false,
                verbose,
            );
            act(outcome, AutoWatchAction::DisabledInternal)
        },
        AutoWatchAction::RestoredInternal => {
            let outcome = restore_internal_safety(tape, mode, verbose);
            act(outcome, AutoWatchAction::RestoredInternal)
        },
        AutoWatchAction::Idle => Ok(Ok(AutoWatchAction::Idle)),
    }
}

/// The saved targets are looked for, and the watcher acts.
pub open spec fn targets_watched(
    targets: Seq<TargetView>,
    mode: ActionMode,
    force: bool,
    verbose: bool,
    t: Seq<ReplyView>,
) -> Course<Result<AutoWatchAction, Seq<char>>> {
    if targets.len() == 0 {
        Course::Ends(Ok(AutoWatchAction::Idle), t)
    } else {
        match listed_or_restored(mode, verbose, t) {
            Course::Asks(e) => Course::Asks(e),
            Course::Ends(r, t) => match r {
                Err(error) => Course::Ends(Err(error), t),
                Ok(listed) => match listed {
                    None => Course::Ends(Ok(AutoWatchAction::RestoredInternal), t),
                    Some(parsed) => match files::list_remembered(parsed.displays, t) {
                        Course::Asks(e) => Course::Asks(e),
                        Course::Ends(_, t) => watch_acted(
                            parsed.displays,
                            target::target_connected(targets, parsed.displays),
                            None,
                            mode,
                            force,
                            verbose,
                            t,
                        ),
                    },
                },
            },
        }
    }
}

/// Looks for the saved targets, and acts.
pub fn apply_watch_targets(
    tape: &mut Tape,
    targets: &Vec<MonitorTarget>,
    mode: ActionMode,
    force: bool,
    verbose: bool,
) -> (r: Result<Result<AutoWatchAction, String>, Effect>)
    ensures
        effect::course(r, final(tape).rest()) == targets_watched(
            target::target_views(targets@),
            mode,
            force,
            verbose,
            old(tape).rest(),
        ),
        final(tape).all() == old(tape).all(),
{
    if targets.len() == 0 {
        return Ok(Ok(AutoWatchAction::Idle));
    }
    let parsed = match load_displayplacer_for_auto_watch(tape, mode, verbose) {
        Err(e) => return Err(e),
        Ok(Err(error)) => return Ok(Err(error)),
        Ok(Ok(None)) => return Ok(Ok(AutoWatchAction::RestoredInternal)),
        Ok(Ok(Some(parsed))) => parsed,
    };
    match remember_internal(tape, &parsed) {
        Err(e) => return Err(e),
        Ok(_) => {},
    }
    let present = has_target_on(targets, &parsed.displays);
    apply_auto_watch_action(tape, &parsed, present, None, mode, force, verbose)
}

/// A target that was named is looked for, and the watcher acts.
pub open spec fn raw_watched(
    name: Seq<char>,
    mode: ActionMode,
    force: bool,
    verbose: bool,
    t: Seq<ReplyView>,
) -> Course<Result<AutoWatchAction, Seq<char>>> {
    match listed_or_restored(mode, verbose, t) {
        Course::Asks(e) => Course::Asks(e),
        Course::Ends(r, t) => match r {
            Err(error) => Course::Ends(Err(error), t),
            Ok(listed) => match listed {
                None => Course::Ends(Ok(AutoWatchAction::RestoredInternal), t),
                Some(parsed) => match files::list_remembered(parsed.displays, t) {
                    Course::Asks(e) => Course::Asks(e),
                    Course::Ends(_, t) => watch_acted(
                        parsed.displays,
                        display::answering_on(parsed.displays, name),
                        Some(name),
                        mode,
                        force,
                        verbose,
                        t,
                    ),
                },
            },
        },
    }
}

/// Looks for a target that was named, and acts.
pub fn apply_raw_watch_target(
    tape: &mut Tape,
    target: &str,
    mode: ActionMode,
    force: bool,
    verbose: bool,
) -> (r: Result<Result<AutoWatchAction, String>, Effect>)
    ensures
        effect::course(r, final(tape).rest()) == raw_watched(
            target@,
            mode,
            force,
            verbose,
            old(tape).rest(),
        ),
        final(tape).all() == old(tape).all(),
{
    let parsed = match load_displayplacer_for_auto_watch(tape, mode, verbose) {
        Err(e) => return Err(e),
        Ok(Err(error)) => return Ok(Err(error)),
        Ok(Ok(None)) => return Ok(Ok(AutoWatchAction::RestoredInternal)),
        Ok(Ok(Some(parsed))) => parsed,
    };
    match remember_internal(tape, &parsed) {
        Err(e) => return Err(e),
        Ok(_) => {},
    }
    let present = has_answering_on(&parsed.displays, target);
    apply_auto_watch_action(tape, &parsed, present, Some(target), mode, force, verbose)
}

/// Where no display is on, the built-in one is restored.
pub open spec fn darkness_ended(mode: ActionMode, verbose: bool, t: Seq<ReplyView>) -> Course<
    Result<AutoWatchAction, Seq<char>>,
> {
    match listed_or_restored(mode, verbose, t) {
        Course::Asks(e) => Course::Asks(e),
        Course::Ends(r, t) => match r {
            Err(error) => Course::Ends(Err(error), t),
            Ok(listed) => match listed {
                None => Course::Ends(Ok(AutoWatchAction::RestoredInternal), t),
                Some(parsed) => match files::list_remembered(parsed.displays, t) {
                    Course::Asks(e) => Course::Asks(e),
                    Course::Ends(_, t) => if policy::dark_decision(parsed.displays)
                        == AutoWatchAction::RestoredInternal {
                        acted(
                            restore::safety_restored(mode, verbose, t),
                            AutoWatchAction::RestoredInternal,
                        )
                    } else {
                        Course::Ends(Ok(AutoWatchAction::Idle), t)
                    },
                },
            },
        },
    }
}

/// Restores the built-in display where no display is on.
pub fn apply_no_enabled_display_safety(tape: &mut Tape, mode: ActionMode, verbose: bool) -> (r:
    Result<Result<AutoWatchAction, String>, Effect>)
    ensures
        effect::course(r, final(tape).rest()) == darkness_ended(mode, verbose, old(tape).rest()),
        final(tape).all() == old(tape).all(),
{
    let parsed = match load_displayplacer_for_auto_watch(tape, mode, verbose) {
        Err(e) => return Err(e),
        Ok(Err(error)) => return Ok(Err(error)),
        Ok(Ok(None)) => return Ok(Ok(AutoWatchAction::RestoredInternal)),
        Ok(Ok(Some(parsed))) => parsed,
    };
    match remember_internal(tape, &parsed) {
        Err(e) => return Err(e),
        Ok(_) => {},
    }
    match no_enabled_display_safety_action_for_state(&parsed) {
        AutoWatchAction::RestoredInternal => {
            let outcome = restore_internal_safety(tape, mode, verbose);
            act(outcome, AutoWatchAction::RestoredInternal)
        },
        AutoWatchAction::Idle => Ok(Ok(AutoWatchAction::Idle)),
        AutoWatchAction::DisabledInternal => Ok(Ok(AutoWatchAction::Idle)),
    }
}

/// The saved targets are watched, and where that changes nothing, darkness is
/// ended.
pub open spec fn recovered(
    targets: Seq<TargetView>,
    mode: ActionMode,
    force: bool,
    verbose: bool,
    t: Seq<ReplyView>,
) -> Course<Result<AutoWatchAction, Seq<char>>> {
    match targets_watched(targets, mode, force, verbose, t) {
        Course::Asks(e) => Course::Asks(e),
        Course::Ends(r, t) => match r {
            Err(error) => Course::Ends(Err(error), t),
            Ok(action) => if action == AutoWatchAction::Idle {
                darkness_ended(mode, verbose, t)
            } else {
                Course::Ends(Ok(action), t)
            },
        },
    }
}

/// Watches the saved targets, and where that changes nothing, ends darkness.
pub fn apply_interactive_display_recovery(
    tape: &mut Tape,
    targets: &Vec<MonitorTarget>,
    mode: ActionMode,
    force: bool,
    verbose: bool,
) -> (r: Result<Result<AutoWatchAction, String>, Effect>)
    ensures
        effect::course(r, final(tape).rest()) == recovered(
            target::target_views(targets@),
            mode,
            force,
            verbose,
            old(tape).rest(),
        ),
        final(tape).all() == old(tape).all(),
{
    match apply_watch_targets(tape, targets, mode, force, verbose) {
        Err(e) => return Err(e),
        Ok(Err(error)) => return Ok(Err(error)),
        Ok(Ok(action)) => {
            if action != AutoWatchAction::Idle {
                return Ok(Ok(action));
            }
        },
    }
    apply_no_enabled_display_safety(tape, mode, verbose)
}

/// A change is answered: the loss of another display than the built-in one by a
/// restore, the loss of the built-in one by nothing, and any other change like a
/// reconcile.
pub open spec fn change_answered(
    targets: Seq<TargetView>,
    change: DisplayChange,
    mode: ActionMode,
    force: bool,
    verbose: bool,
    t: Seq<ReplyView>,
) -> Course<Result<AutoWatchAction, Seq<char>>> {
    match files::panel_number_read(t) {
        Course::Asks(e) => Course::Asks(e),
        Course::Ends(r, t) => match r {
            Err(error) => Course::Ends(Err(error), t),
            Ok(internal) => match effect::asks_flag(EffectView::AskBuiltin(change.display), t) {
                Course::Asks(e) => Course::Asks(e),
                Course::Ends(builtin, t) => if policy::loss_decision(change, internal, builtin)
                    == AutoWatchAction::RestoredInternal {
                    acted(
                        restore::safety_restored(mode, verbose, t),
                        AutoWatchAction::RestoredInternal,
                    )
                } else if change.loss() {
                    Course::Ends(Ok(AutoWatchAction::Idle), t)
                } else {
                    recovered(targets, mode, force, verbose, t)
                },
            },
        },
    }
}

/// Answers a change.
pub fn apply_interactive_display_recovery_for_change(
    tape: &mut Tape,
    targets: &Vec<MonitorTarget>,
    change: DisplayChange,
    mode: ActionMode,
    force: bool,
    verbose: bool,
) -> (r: Result<Result<AutoWatchAction, String>, Effect>)
    ensures
        effect::course(r, final(tape).rest()) == change_answered(
            target::target_views(targets@),
            change,
            mode,
            force,
            verbose,
            old(tape).rest(),
        ),
        final(tape).all() == old(tape).all(),
{
    let internal = match remembered_internal_display_id(tape) {
        Err(e) => return Err(e),
        Ok(Err(error)) => return Ok(Err(error)),
        Ok(Ok(internal)) => internal,
    };
    let builtin = match tape.ask_flag(Effect::AskBuiltin(change.display)) {
        Err(e) => return Err(e),
        Ok(builtin) => builtin,
    };
    match display_loss_restore_action_for_change(change, internal, builtin) {
        AutoWatchAction::RestoredInternal => {
            let outcome = restore_internal_safety(tape, mode, verbose);
            return act(outcome, AutoWatchAction::RestoredInternal);
        },
        AutoWatchAction::Idle => {
            if change.is_display_loss() {
                return Ok(Ok(AutoWatchAction::Idle));
            }
        },
        AutoWatchAction::DisabledInternal => {},
    }
    apply_interactive_display_recovery(tape, targets, mode, force, verbose)
}

} // verus!
