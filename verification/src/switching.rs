//! Turning displays off, and toggling them.

use vstd::prelude::*;

use crate::commands;
use crate::commands::{load_displayplacer, set_displayplacer_enabled};
use crate::display;
use crate::display::{enabled_count, has_answering_on, Display, DisplayView};
use crate::effect;
use crate::effect::{say_if, Course, Effect, ReplyView, Tape};
use crate::files;
use crate::files::{remember_contextual_display_id, remember_display_metadata, remember_internal};
use crate::policy::ActionMode;
use crate::restore;
use crate::restore::{restore_display_id, restore_internal_once, INTERNAL_RESTORE_ATTEMPTS};
use crate::state;
use crate::state::find_internal;
use crate::text;
use crate::text::{cat2, cat3, owned};

verus! {

// ---------------------------------------------------------------------------
// Turning the built-in display off.
// ---------------------------------------------------------------------------
/// What is done about a request to turn the built-in display off.
#[derive(Debug)]
pub enum DisablePlan {
    /// Nothing, and why.
    Skip(String),
    /// The request is refused, and why.
    Refuse(String),
    /// The display with this id is turned off.
    Switch(String),
}

/// What a plan holds, as plain text.
#[verifier::ext_equal]
pub enum DisablePlanView {
    Skip(Seq<char>),
    Refuse(Seq<char>),
    Switch(Seq<char>),
}

impl View for DisablePlan {
    type V = DisablePlanView;

    open spec fn view(&self) -> DisablePlanView {
        match self {
            DisablePlan::Skip(s) => DisablePlanView::Skip(s@),
            DisablePlan::Refuse(s) => DisablePlanView::Refuse(s@),
            DisablePlan::Switch(s) => DisablePlanView::Switch(s@),
        }
    }
}

/// The first display that is the built-in panel and on.
pub open spec fn lit_panel(displays: Seq<DisplayView>) -> Option<DisplayView>
    decreases displays.len(),
{
    if displays.len() == 0 {
        None
    } else if displays[0].internal() && displays[0].on() {
        Some(displays[0])
    } else {
        lit_panel(displays.skip(1))
    }
}

fn find_lit_panel(displays: &Vec<Display>) -> (r: Option<&Display>)
    ensures
        match r {
            Some(display) => lit_panel(display::display_views(displays@)) == Some(display@),
            None => lit_panel(display::display_views(displays@)) is None,
        },
{
    let ghost all = display::display_views(displays@);
    let mut i: usize = 0;
    assert(all.skip(0) =~= all);
    while i < displays.len()
        invariant
            i <= displays.len(),
            all == display::display_views(displays@),
            lit_panel(all.skip(i as int)) == lit_panel(all),
        decreases displays.len() - i,
    {
        assert(all.skip(i as int).skip(1) =~= all.skip(i + 1));
        assert(all.skip(i as int)[0] == displays[i as int]@);
        if displays[i].is_internal() && displays[i].is_enabled() {
            return Some(&displays[i]);
        }
        i = i + 1;
    }
    None
}

/// The built-in display is turned off where the target of the condition is
/// there, the built-in display is on, and another display is on too or `force`
/// is set.
pub open spec fn disable_decision(
    displays: Seq<DisplayView>,
    condition: Option<Seq<char>>,
    force: bool,
) -> DisablePlanView {
    if displays.len() == 0 {
        DisablePlanView::Skip("skip: displayplacer reported no online displays"@)
    } else if condition is Some && !display::answering_on(displays, condition->0) {
        DisablePlanView::Skip("skip: target `"@ + condition->0 + "` is not present/enabled"@)
    } else {
        match lit_panel(displays) {
            None => DisablePlanView::Skip("skip: no enabled internal display reported"@),
            Some(panel) => if display::count_on(displays) <= 1 && !force {
                DisablePlanView::Refuse(
                    "refusing to disable the only enabled display; pass --force to override"@,
                )
            } else {
                match panel.persistent_id {
                    None => DisablePlanView::Refuse(
                        "internal display has no persistent id in displayplacer output"@,
                    ),
                    Some(id) => DisablePlanView::Switch(id),
                }
            },
        }
    }
}

/// Decides on a request to turn the built-in display off.
pub fn disable_plan(
    displays: &Vec<Display>,
    condition: Option<&str>,
    force: bool,
) -> (r: DisablePlan)
    ensures
        r@ == disable_decision(
            display::display_views(displays@),
            text::opt_str(condition),
            force,
        ),
{
    if displays.len() == 0 {
        return DisablePlan::Skip(owned("skip: displayplacer reported no online displays"));
    }
    if let Some(target) = condition {
        if !has_answering_on(displays, target) {
            return DisablePlan::Skip(cat3("skip: target `", target, "` is not present/enabled"));
        }
    }
    match find_lit_panel(displays) {
        None => DisablePlan::Skip(owned("skip: no enabled internal display reported")),
        Some(panel) => {
            if enabled_count(displays) <= 1 && !force {
                return DisablePlan::Refuse(
                    owned("refusing to disable the only enabled display; pass --force to override"),
                );
            }
            match panel.stable_id() {
                None => DisablePlan::Refuse(
                    owned("internal display has no persistent id in displayplacer output"),
                ),
                Some(id) => DisablePlan::Switch(owned(id)),
            }
        },
    }
}

/// The built-in display is turned off, where the displays allow it.
pub open spec fn internal_disabled(
    condition: Option<Seq<char>>,
    mode: ActionMode,
    force: bool,
    print_skips: bool,
    verbose: bool,
    t: Seq<ReplyView>,
) -> Course<Result<(), Seq<char>>> {
    match commands::displays_listed(t) {
        Course::Asks(e) => Course::Asks(e),
        Course::Ends(r, t) => match r {
            Err(error) => Course::Ends(Err(error), t),
            Ok(parsed) => match files::list_remembered(parsed.displays, t) {
                Course::Asks(e) => Course::Asks(e),
                Course::Ends(_, t) => match disable_decision(parsed.displays, condition, force) {
                    DisablePlanView::Skip(reason) => match effect::said_if(print_skips, reason, t) {
                        Course::Asks(e) => Course::Asks(e),
                        Course::Ends(_, t) => Course::Ends(Ok(()), t),
                    },
                    DisablePlanView::Refuse(reason) => Course::Ends(Err(reason), t),
                    DisablePlanView::Switch(id) => commands::settled(
                        commands::placer_switched(id, false, mode, verbose, t),
                    ),
                },
            },
        },
    }
}

/// Turns the built-in display off, where the displays allow it.
pub fn disable_internal_once_with_verbosity(
    tape: &mut Tape,
    condition: Option<&str>,
    mode: ActionMode,
    force: bool,
    print_skips: bool,
    verbose: bool,
) -> (r: Result<Result<(), String>, Effect>)
    ensures
        effect::course(r, final(tape).rest()) == internal_disabled(
            text::opt_str(condition),
            mode,
            force,
            print_skips,
            verbose,
            old(tape).rest(),
        ),
        final(tape).all() == old(tape).all(),
{
    let parsed = match load_displayplacer(tape) {
        Err(e) => return Err(e),
        Ok(Err(error)) => return Ok(Err(error)),
        Ok(Ok(parsed)) => parsed,
    };
    match remember_internal(tape, &parsed) {
        Err(e) => return Err(e),
        Ok(_) => {},
    }
    match disable_plan(&parsed.displays, condition, force) {
        DisablePlan::Skip(reason) => match say_if(tape, print_skips, reason.as_str()) {
            Err(e) => Err(e),
            Ok(_) => Ok(Ok(())),
        },
        DisablePlan::Refuse(reason) => Ok(Err(reason)),
        DisablePlan::Switch(id) => match set_displayplacer_enabled(
            tape,
            id.as_str(),
            false,
            mode,
            verbose,
        ) {
            Err(e) => Err(e),
            Ok(Err(error)) => Ok(Err(error)),
            Ok(Ok(_)) => Ok(Ok(())),
        },
    }
}

/// Turns the built-in display off, where the displays allow it, and says so.
pub fn disable_internal_once(
    tape: &mut Tape,
    condition: Option<&str>,
    mode: ActionMode,
    force: bool,
    print_skips: bool,
) -> (r: Result<Result<(), String>, Effect>)
    ensures
        effect::course(r, final(tape).rest()) == internal_disabled(
            text::opt_str(condition),
            mode,
            force,
            print_skips,
            true,
            old(tape).rest(),
        ),
        final(tape).all() == old(tape).all(),
{
    disable_internal_once_with_verbosity(tape, condition, mode, force, print_skips, true)
}

// ---------------------------------------------------------------------------
// Toggling.
// ---------------------------------------------------------------------------
/// The outcome, with a message for its success.
pub open spec fn reported(c: Course<Result<(), Seq<char>>>, message: Seq<char>) -> Course<
    Result<Seq<char>, Seq<char>>,
> {
    match c {
        Course::Asks(e) => Course::Asks(e),
        Course::Ends(r, t) => Course::Ends(
            match r {
                Ok(_) => Ok(message),
                Err(error) => Err(error),
            },
            t,
        ),
    }
}

/// The built-in display is toggled: turned off where it is listed and on,
/// enabled by its id where it is listed and off, and restored where it is
/// missing or has no id.
pub open spec fn internal_toggled(t: Seq<ReplyView>) -> Course<Result<Seq<char>, Seq<char>>> {
    match commands::displays_listed(t) {
        Course::Asks(e) => Course::Asks(e),
        Course::Ends(r, t) => match r {
            Err(error) => Course::Ends(Err(error), t),
            Ok(parsed) => match files::list_remembered(parsed.displays, t) {
                Course::Asks(e) => Course::Asks(e),
                Course::Ends(_, t) => {
                    let panel = state::first_internal(parsed.displays);
                    if panel is Some && panel->0.on() {
                        reported(
                            internal_disabled(None, ActionMode::Execute, false, false, false, t),
                            "internal disabled"@,
                        )
                    } else if panel is Some && panel->0.persistent_id is Some {
                        reported(
                            commands::settled(
                                commands::placer_switched(
                                    panel->0.persistent_id->0,
                                    true,
                                    ActionMode::Execute,
                                    false,
                                    t,
                                ),
                            ),
                            "internal enabled"@,
                        )
                    } else {
                        reported(
                            restore::internal_restored(
                                None,
                                ActionMode::Execute,
                                false,
                                false,
                                INTERNAL_RESTORE_ATTEMPTS,
                                t,
                            ),
                            "internal restore requested"@,
                        )
                    }
                },
            },
        },
    }
}

fn report(outcome: Result<Result<(), String>, Effect>, message: &str) -> (r: Result<
    Result<String, String>,
    Effect,
>)
    ensures
        forall|rest: Seq<ReplyView>| #[trigger]
            effect::course(r, rest) == reported(effect::course(outcome, rest), message@),
{
    match outcome {
        Err(e) => Err(e),
        Ok(Err(error)) => Ok(Err(error)),
        Ok(Ok(_)) => Ok(Ok(owned(message))),
    }
}

/// Toggles the built-in display.
pub fn toggle_internal_for_ui(tape: &mut Tape) -> (r: Result<Result<String, String>, Effect>)
    ensures
        effect::course(r, final(tape).rest()) == internal_toggled(old(tape).rest()),
        final(tape).all() == old(tape).all(),
{
    let parsed = match load_displayplacer(tape) {
        Err(e) => return Err(e),
        Ok(Err(error)) => return Ok(Err(error)),
        Ok(Ok(parsed)) => parsed,
    };
    match remember_internal(tape, &parsed) {
        Err(e) => return Err(e),
        Ok(_) => {},
    }
    if let Some(panel) = find_internal(&parsed.displays) {
        if panel.is_enabled() {
            let outcome = disable_internal_once_with_verbosity(
                tape,
                None,
                ActionMode::Execute,
                false,
                false,
                false,
            );
            return report(outcome, "internal disabled");
        }
        if let Some(id) = panel.stable_id() {
            return match set_displayplacer_enabled(tape, id, true, ActionMode::Execute, false) {
                Err(e) => Err(e),
                Ok(Err(error)) => Ok(Err(error)),
                Ok(Ok(_)) => Ok(Ok(owned("internal enabled"))),
            };
        }
    }
    let outcome = restore_internal_once(
        tape,
        None,
        ActionMode::Execute,
        false,
        false,
        INTERNAL_RESTORE_ATTEMPTS,
    );
    report(outcome, "internal restore requested")
}

/// A display that is off is restored by its number, which is remembered.
pub open spec fn display_restored(d: DisplayView, t: Seq<ReplyView>) -> Course<
    Result<Seq<char>, Seq<char>>,
> {
    match d.number() {
        None => Course::Ends(
            Err("selected display has no remembered contextual display id"@),
            t,
        ),
        Some(id) => match restore::number_restored(id, ActionMode::Execute, false, t) {
            Course::Asks(e) => Course::Asks(e),
            Course::Ends(r, t) => match r {
                Err(error) => Course::Ends(Err(error), t),
                Ok(_) => reported(
                    files::number_remembered(id, t),
                    (if d.internal() {
                        "internal"@
                    } else {
                        "external"@
                    }) + " restore requested"@,
                ),
            },
        },
    }
}

fn restore_selected(tape: &mut Tape, display: &Display) -> (r: Result<
    Result<String, String>,
    Effect,
>)
    ensures
        effect::course(r, final(tape).rest()) == display_restored(display@, old(tape).rest()),
        final(tape).all() == old(tape).all(),
{
    let id: u32 = match display.contextual_display_id() {
        None => return Ok(
            Err(owned("selected display has no remembered contextual display id")),
        ),
        Some(id) => id,
    };
    match restore_display_id(tape, id, ActionMode::Execute, false) {
        Err(e) => return Err(e),
        Ok(Err(error)) => return Ok(Err(error)),
        Ok(Ok(_)) => {},
    }
    let message = cat2(
        if display.is_internal() {
            "internal"
        } else {
            "external"
        },
        " restore requested",
    );
    let outcome = remember_contextual_display_id(tape, id);
    report(outcome, message.as_str())
}

/// What is known of a display is remembered: its number, where it has one, and
/// the display itself.
pub open spec fn display_noted(d: DisplayView, t: Seq<ReplyView>) -> Course<
    Result<(), Seq<char>>,
> {
    match d.number() {
        None => files::remembered(seq![d], t),
        Some(id) => match files::number_remembered(id, t) {
            Course::Asks(e) => Course::Asks(e),
            Course::Ends(r, t) => match r {
                Err(error) => Course::Ends(Err(error), t),
                Ok(_) => files::remembered(seq![d], t),
            },
        },
    }
}

fn note_display(tape: &mut Tape, display: &Display) -> (r: Result<Result<(), String>, Effect>)
    ensures
        effect::course(r, final(tape).rest()) == display_noted(display@, old(tape).rest()),
        final(tape).all() == old(tape).all(),
{
    if let Some(id) = display.contextual_display_id() {
        match remember_contextual_display_id(tape, id) {
            Err(e) => return Err(e),
            Ok(Err(error)) => return Ok(Err(error)),
            Ok(Ok(_)) => {},
        }
    }
    remember_display_metadata(tape, display)
}

/// A display that is on is turned off, unless it is the only one. What is known
/// of it is remembered before.
pub open spec fn display_disabled(d: DisplayView, t: Seq<ReplyView>) -> Course<
    Result<Seq<char>, Seq<char>>,
> {
    match commands::displays_listed(t) {
        Course::Asks(e) => Course::Asks(e),
        Course::Ends(r, t) => match r {
            Err(error) => Course::Ends(Err(error), t),
            Ok(parsed) => if display::count_on(parsed.displays) <= 1 {
                Course::Ends(Err("refusing to disable the only enabled display"@), t)
            } else {
                match display_noted(d, t) {
                    Course::Asks(e) => Course::Asks(e),
                    Course::Ends(r, t) => match r {
                        Err(error) => Course::Ends(Err(error), t),
                        Ok(_) => match d.persistent_id {
                            None => Course::Ends(
                                Err("selected display has no persistent id"@),
                                t,
                            ),
                            Some(id) => reported(
                                commands::settled(
                                    commands::placer_switched(
                                        id,
                                        false,
                                        ActionMode::Execute,
                                        false,
                                        t,
                                    ),
                                ),
                                (if d.internal() {
                                    "internal"@
                                } else {
                                    "display"@
                                }) + " disabled"@,
                            ),
                        },
                    },
                }
            },
        },
    }
}

fn disable_selected(tape: &mut Tape, display: &Display) -> (r: Result<
    Result<String, String>,
    Effect,
>)
    ensures
        effect::course(r, final(tape).rest()) == display_disabled(display@, old(tape).rest()),
        final(tape).all() == old(tape).all(),
{
    let parsed = match load_displayplacer(tape) {
        Err(e) => return Err(e),
        Ok(Err(error)) => return Ok(Err(error)),
        Ok(Ok(parsed)) => parsed,
    };
    if enabled_count(&parsed.displays) <= 1 {
        return Ok(Err(owned("refusing to disable the only enabled display")));
    }
    match note_display(tape, display) {
        Err(e) => return Err(e),
        Ok(Err(error)) => return Ok(Err(error)),
        Ok(Ok(_)) => {},
    }
    let id = match display.stable_id() {
        None => return Ok(Err(owned("selected display has no persistent id"))),
        Some(id) => id,
    };
    match set_displayplacer_enabled(tape, id, false, ActionMode::Execute, false) {
        Err(e) => Err(e),
        Ok(Err(error)) => Ok(Err(error)),
        Ok(Ok(_)) => Ok(
            Ok(
                cat2(
                    if display.is_internal() {
                        "internal"
                    } else {
                        "display"
                    },
                    " disabled",
                ),
            ),
        ),
    }
}

/// A display is toggled: restored where it is off or absent, turned off where
/// it is on.
pub open spec fn display_toggled(d: DisplayView, t: Seq<ReplyView>) -> Course<
    Result<Seq<char>, Seq<char>>,
> {
    match d.enabled {
        None => Course::Ends(Err("selected display has unknown enabled state"@), t),
        Some(enabled) => if !enabled || d.remembered_absent {
            display_restored(d, t)
        } else {
            display_disabled(d, t)
        },
    }
}

/// Toggles a display.
pub fn toggle_display_for_ui(tape: &mut Tape, display: &Display) -> (r: Result<
    Result<String, String>,
    Effect,
>)
    ensures
        effect::course(r, final(tape).rest()) == display_toggled(display@, old(tape).rest()),
        final(tape).all() == old(tape).all(),
{
    let enabled = match display.enabled {
        None => return Ok(Err(owned("selected display has unknown enabled state"))),
        Some(enabled) => enabled,
    };
    if !enabled || display.remembered_absent {
        restore_selected(tape, display)
    } else {
        disable_selected(tape, display)
    }
}

} // verus!
