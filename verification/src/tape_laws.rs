//! How procedures use their tape: they take replies from its front, and leave
//! its end. With that, what a procedure does can be traced to a reply that it
//! got before.

use vstd::prelude::*;

use crate::agent;
use crate::command;
use crate::commands;
use crate::display;
use crate::display::DisplayView;
use crate::effect;
use crate::effect::{Course, EffectView, Input, Key, ReplyView};
use crate::files;
use crate::install;
use crate::interactive;
use crate::interactive::{Stage, UiView};
use crate::native;
use crate::number;
use crate::options;
use crate::options::{DisableOptionsView, WatchOptionsView};
use crate::policy::{ActionMode, DisplayChange};
use crate::restore;
use crate::restore::TrialView;
use crate::safety_laws;
use crate::switching;
use crate::target::TargetView;
use crate::watch;
use crate::watch::WatchView;
use crate::watching;

verus! {

// ---------------------------------------------------------------------------
// Tails.
// ---------------------------------------------------------------------------
/// What is left of a tape is its end.
pub open spec fn is_tail(rest: Seq<ReplyView>, t: Seq<ReplyView>) -> bool {
    rest.len() <= t.len() && rest == t.skip(t.len() - rest.len())
}

/// Where the procedure comes to its end, it leaves the end of its tape.
pub open spec fn leaves_tail<T>(c: Course<T>, t: Seq<ReplyView>) -> bool {
    match c {
        Course::Asks(_) => true,
        Course::Ends(_, rest) => is_tail(rest, t),
    }
}

broadcast proof fn tail_of_tail(a: Seq<ReplyView>, b: Seq<ReplyView>, c: Seq<ReplyView>)
    requires
        #[trigger] is_tail(a, b),
        #[trigger] is_tail(b, c),
    ensures
        is_tail(a, c),
{
    assert(a =~= c.skip(c.len() - a.len()));
}

broadcast proof fn tail_of_itself(t: Seq<ReplyView>)
    ensures
        #[trigger] is_tail(t, t),
{
    assert(t =~= t.skip(0));
}

broadcast proof fn tail_of_one(t: Seq<ReplyView>)
    requires
        t.len() > 0,
    ensures
        is_tail(#[trigger] t.skip(1), t),
{
    assert(t.skip(1) =~= t.skip(t.len() - t.skip(1).len()));
}

broadcast group group_tails {
    tail_of_tail,
    tail_of_itself,
    tail_of_one,
}

broadcast proof fn tail_written(name: Seq<char>, body: Seq<char>, t: Seq<ReplyView>)
    ensures
        leaves_tail(#[trigger] files::file_written(name, body, t), t),
{
    broadcast use group_tails;

}

broadcast proof fn tail_remembered(seen: Seq<DisplayView>, t: Seq<ReplyView>)
    ensures
        leaves_tail(#[trigger] files::remembered(seen, t), t),
{
    broadcast use {group_tails, tail_written};

}

broadcast proof fn tail_list_remembered(seen: Seq<DisplayView>, t: Seq<ReplyView>)
    ensures
        leaves_tail(#[trigger] files::list_remembered(seen, t), t),
{
    broadcast use {group_tails, tail_remembered};

}

broadcast proof fn tail_number_remembered(n: u32, t: Seq<ReplyView>)
    ensures
        leaves_tail(#[trigger] files::number_remembered(n, t), t),
{
    broadcast use {group_tails, tail_written};

}

broadcast proof fn tail_targets_saved(targets: Seq<TargetView>, t: Seq<ReplyView>)
    ensures
        leaves_tail(#[trigger] files::targets_saved(targets, t), t),
{
    broadcast use {group_tails, tail_written};

}

broadcast proof fn tail_target_toggled(d: DisplayView, t: Seq<ReplyView>)
    ensures
        leaves_tail(#[trigger] files::target_toggled(d, t), t),
{
    broadcast use {group_tails, tail_targets_saved, tail_remembered};

}

broadcast proof fn tail_logged(message: Seq<char>, t: Seq<ReplyView>)
    ensures
        leaves_tail(#[trigger] files::logged(message, t), t),
{
    broadcast use group_tails;

}

broadcast proof fn tail_configured(id: u32, enabled: bool, t: Seq<ReplyView>)
    ensures
        leaves_tail(#[trigger] native::configured(id, enabled, t), t),
{
    broadcast use {group_tails, tail_logged};

}

broadcast proof fn tail_native_switched(
    id: u32,
    enabled: bool,
    mode: ActionMode,
    verbose: bool,
    t: Seq<ReplyView>,
)
    ensures
        leaves_tail(#[trigger] native::native_switched(id, enabled, mode, verbose, t), t),
{
    broadcast use {group_tails, tail_configured};

}

broadcast proof fn tail_among(ids: Seq<u32>, t: Seq<ReplyView>)
    ensures
        leaves_tail(#[trigger] native::builtin_among(ids, t), t),
    decreases ids.len(),
{
    broadcast use group_tails;

    if ids.len() > 0 && t.len() > 0 {
        tail_among(ids.skip(1), t.skip(1));
    }
}

broadcast proof fn tail_activity(t: Seq<ReplyView>)
    ensures
        leaves_tail(#[trigger] native::activity_found(t), t),
{
    broadcast use {group_tails, tail_among};

}

broadcast proof fn tail_awaited(start: u64, timeout_ms: u32, t: Seq<ReplyView>)
    ensures
        leaves_tail(#[trigger] native::activity_awaited(start, timeout_ms, t), t),
    decreases t.len(),
{
    broadcast use {group_tails, tail_activity};

    if let Course::Ends(_, t1) = native::activity_found(t) {
        if t1.len() >= 2 {
            tail_awaited(start, timeout_ms, t1.skip(1).skip(1));
        }
    }
}

broadcast proof fn tail_detected(mode: ActionMode, verbose: bool, t: Seq<ReplyView>)
    ensures
        leaves_tail(#[trigger] native::detected(mode, verbose, t), t),
{
    broadcast use group_tails;

}

// ---------------------------------------------------------------------------
// A restore that worked.
// ---------------------------------------------------------------------------
/// Somewhere on the tape, the window server was asked for the built-in display
/// and said that it is active.
pub open spec fn seen_active(t: Seq<ReplyView>) -> bool {
    exists|k: int|
        #![trigger t.skip(k)]
        0 <= k <= t.len() && (native::activity_found(t.skip(k)) matches Course::Ends(active, _)
            && active)
}

proof fn lemma_seen_here(t: Seq<ReplyView>)
    requires
        native::activity_found(t) matches Course::Ends(active, _) && active,
    ensures
        seen_active(t),
{
    assert(t.skip(0) =~= t);
}

broadcast proof fn seen_in_tail(rest: Seq<ReplyView>, t: Seq<ReplyView>)
    requires
        #[trigger] is_tail(rest, t),
        #[trigger] seen_active(rest),
    ensures
        seen_active(t),
{
    let k = choose|k: int|
        #![trigger rest.skip(k)]
        0 <= k <= rest.len() && (native::activity_found(rest.skip(k)) matches Course::Ends(
            active,
            _,
        ) && active);
    let at = t.len() - rest.len() + k;
    assert(rest.skip(k) =~= t.skip(at));
}

proof fn lemma_awaited_seen(start: u64, timeout_ms: u32, t: Seq<ReplyView>)
    ensures
        native::activity_awaited(start, timeout_ms, t) matches Course::Ends(active, _) && active
            ==> seen_active(t),
    decreases t.len(),
{
    broadcast use {group_tails, tail_activity, seen_in_tail};

    if let Course::Ends(active, t1) = native::activity_found(t) {
        if active {
            lemma_seen_here(t);
        } else if t1.len() >= 2 {
            lemma_awaited_seen(start, timeout_ms, t1.skip(1).skip(1));
        }
    }
}

proof fn lemma_waited_seen(timeout_ms: u32, t: Seq<ReplyView>)
    ensures
        native::activity_waited(timeout_ms, t) matches Course::Ends(active, _) && active
            ==> seen_active(t),
{
    broadcast use {group_tails, seen_in_tail};

    if t.len() > 0 {
        lemma_awaited_seen(effect::as_nanos(t[0]), timeout_ms, t.skip(1));
    }
}

/// The attempt brought the built-in display back.
spec fn worked(trial: TrialView) -> bool {
    match trial {
        TrialView::Over(r) => r is Ok,
        TrialView::Failed(_) => false,
    }
}

proof fn lemma_tried_seen(
    ids: Seq<u32>,
    verbose: bool,
    error: Option<Seq<char>>,
    t: Seq<ReplyView>,
)
    ensures
        leaves_tail(restore::numbers_tried(ids, verbose, error, t), t),
        restore::numbers_tried(ids, verbose, error, t) matches Course::Ends(trial, _) && worked(
            trial,
        ) ==> seen_active(t),
    decreases ids.len(),
{
    broadcast use {
        group_tails,
        tail_native_switched,
        tail_awaited,
        tail_logged,
        tail_number_remembered,
        seen_in_tail,
    };

    if ids.len() > 0 {
        let id = ids[0];
        if let Course::Ends(r, t1) = native::native_switched(
            id,
            true,
            ActionMode::Execute,
            verbose,
            t,
        ) {
            match r {
                Err(error) => {
                    lemma_tried_seen(ids.skip(1), verbose, Some(error), t1);
                },
                Ok(_) => {
                    lemma_waited_seen(restore::INTERNAL_RESTORE_VERIFY_TIMEOUT, t1);
                    if let Course::Ends(active, t2) = native::activity_waited(
                        restore::INTERNAL_RESTORE_VERIFY_TIMEOUT,
                        t1,
                    ) {
                        let line = "restore-internal: id "@ + number::dec(id as nat)
                            + " enabled ok but builtin not active"@;
                        if let Course::Ends(_, t3) = files::logged(line, t2) {
                            lemma_tried_seen(
                                ids.skip(1),
                                verbose,
                                Some(restore::dark_text(id)),
                                t3,
                            );
                        }
                    }
                },
            }
        }
    }
}

proof fn lemma_attempted_seen(
    explicit: Option<u32>,
    attempt: u32,
    attempts: u32,
    verbose: bool,
    error: Option<Seq<char>>,
    t: Seq<ReplyView>,
)
    ensures
        leaves_tail(restore::attempted(explicit, attempt, attempts, verbose, error, t), t),
        restore::attempted(explicit, attempt, attempts, verbose, error, t) matches Course::Ends(
            trial,
            _,
        ) && worked(trial) ==> seen_active(t),
{
    broadcast use {group_tails, tail_among, tail_activity, tail_logged, seen_in_tail};

    if let Course::Ends(active, t1) = native::activity_found(t) {
        if active {
            lemma_seen_here(t);
        } else if let Course::Ends(live, t2) = native::builtin_found(t1) {
            if let Course::Ends(r, t3) = files::panel_number_read(t2) {
                if let Ok(remembered) = r {
                    let ids = crate::policy::candidates(explicit, live, remembered);
                    let line = restore::attempt_log(attempt, attempts, ids, live, remembered);
                    if let Course::Ends(_, t4) = files::logged(line, t3) {
                        lemma_tried_seen(ids, verbose, error, t4);
                    }
                }
            }
        }
    }
}

proof fn lemma_prepared_tail(attempt: u32, t: Seq<ReplyView>)
    ensures
        leaves_tail(restore::attempt_prepared(attempt, t), t),
{
    broadcast use {group_tails, tail_detected};

}

proof fn lemma_attempts_seen(
    explicit: Option<u32>,
    attempt: u32,
    last: u32,
    attempts: u32,
    verbose: bool,
    error: Option<Seq<char>>,
    t: Seq<ReplyView>,
)
    ensures
        restore::attempts_made(explicit, attempt, last, attempts, verbose, error, t)
            matches Course::Ends(r, _) && r is Ok ==> seen_active(t),
    decreases last - attempt,
{
    lemma_prepared_tail(attempt, t);
    if let Course::Ends(_, t1) = restore::attempt_prepared(attempt, t) {
        lemma_attempted_seen(explicit, attempt, attempts, verbose, error, t1);
        if let Course::Ends(trial, t2) = restore::attempted(
            explicit,
            attempt,
            attempts,
            verbose,
            error,
            t1,
        ) {
            match trial {
                TrialView::Over(r) => {
                    if r is Ok {
                        seen_in_tail(t1, t);
                    }
                },
                TrialView::Failed(reason) => {
                    if attempt < last {
                        tail_of_tail(t2, t1, t);
                        lemma_attempts_seen(
                            explicit,
                            (attempt + 1) as u32,
                            last,
                            attempts,
                            verbose,
                            reason,
                            t2,
                        );
                        if seen_active(t2) {
                            seen_in_tail(t2, t);
                        }
                    }
                },
            }
        }
    }
}

/// The built-in display counts as enabled only after the window server has said
/// that it is active: that a call succeeded is not enough.
pub proof fn enabled_means_active(
    explicit: Option<u32>,
    attempts: u32,
    verbose: bool,
    t: Seq<ReplyView>,
)
    ensures
        restore::internal_enabled(explicit, attempts, ActionMode::Execute, verbose, t)
            matches Course::Ends(r, _) && r is Ok ==> seen_active(t),
{
    lemma_attempts_seen(
        explicit,
        1,
        if attempts > 1 {
            attempts
        } else {
            1
        },
        attempts,
        verbose,
        None,
        t,
    );
}

// ---------------------------------------------------------------------------
// Turning off.
// ---------------------------------------------------------------------------
/// Somewhere on the tape there is a list of displays of which two are on.
pub open spec fn seen_two_on(t: Seq<ReplyView>) -> bool {
    exists|k: int|
        #![trigger t[k]]
        0 <= k < t.len() && (commands::as_list(effect::as_ran(t[k])) matches Ok(parsed)
            && display::count_on(parsed.displays) >= 2)
}

/// Where the procedure stops at an effect that turns a display off, it has read
/// a list of displays of which two are on.
pub open spec fn careful<T>(c: Course<T>, t: Seq<ReplyView>) -> bool {
    match c {
        Course::Asks(e) => safety_laws::turns_off(e) ==> seen_two_on(t),
        Course::Ends(_, _) => true,
    }
}

broadcast proof fn two_on_in_tail(rest: Seq<ReplyView>, t: Seq<ReplyView>)
    requires
        #[trigger] is_tail(rest, t),
        #[trigger] seen_two_on(rest),
    ensures
        seen_two_on(t),
{
    let k = choose|k: int|
        #![trigger rest[k]]
        0 <= k < rest.len() && (commands::as_list(effect::as_ran(rest[k])) matches Ok(parsed)
            && display::count_on(parsed.displays) >= 2);
    assert(rest[k] == t[t.len() - rest.len() + k]);
}

broadcast proof fn careful_disable(
    condition: Option<Seq<char>>,
    mode: ActionMode,
    print_skips: bool,
    verbose: bool,
    t: Seq<ReplyView>,
)
    ensures
        careful(
            #[trigger] switching::internal_disabled(
                condition,
                mode,
                false,
                print_skips,
                verbose,
                t,
            ),
            t,
        ),
{
    if let Course::Asks(e) = switching::internal_disabled(
        condition,
        mode,
        false,
        print_skips,
        verbose,
        t,
    ) {
        if safety_laws::turns_off(e) {
            safety_laws::turning_off_needs_another_display(
                condition,
                mode,
                false,
                print_skips,
                verbose,
                t,
                e,
            );
            assert(t[0] == t[0]);
        }
    }
}

proof fn lemma_safety_careful(mode: ActionMode, verbose: bool, t: Seq<ReplyView>)
    ensures
        careful(restore::safety_restored(mode, verbose, t), t),
{
    safety_laws::safety_restore_turns_nothing_off(mode, verbose, t);
    safety_laws::lemma_changes();
}

proof fn lemma_listed_careful(mode: ActionMode, verbose: bool, t: Seq<ReplyView>)
    ensures
        careful(watching::listed_or_restored(mode, verbose, t), t),
        watching::listed_or_restored(mode, verbose, t) matches Course::Ends(r, rest) ==> (
        r matches Ok(listed) ==> (listed is Some ==> is_tail(rest, t))),
{
    broadcast use group_tails;

    safety_laws::listing_turns_nothing_off(mode, verbose, t);
    safety_laws::lemma_changes();
}

broadcast proof fn careful_watch_acted(
    displays: Seq<DisplayView>,
    present: bool,
    condition: Option<Seq<char>>,
    mode: ActionMode,
    verbose: bool,
    t: Seq<ReplyView>,
)
    ensures
        careful(
            #[trigger] watching::watch_acted(
                displays,
                present,
                condition,
                mode,
                false,
                verbose,
                t,
            ),
            t,
        ),
{
    broadcast use careful_disable;

    lemma_safety_careful(mode, verbose, t);
}

/// Unless it is forced, a watcher of saved targets turns a display off only
/// after it has read a list of displays of which two are on.
pub proof fn watching_targets_is_careful(
    targets: Seq<TargetView>,
    mode: ActionMode,
    verbose: bool,
    t: Seq<ReplyView>,
)
    ensures
        careful(watching::targets_watched(targets, mode, false, verbose, t), t),
{
    broadcast use {group_tails, tail_list_remembered, careful_watch_acted, two_on_in_tail};

    lemma_listed_careful(mode, verbose, t);
}

/// Unless it is forced, a watcher of a named target turns a display off only
/// after it has read a list of displays of which two are on.
pub proof fn watching_a_name_is_careful(
    name: Seq<char>,
    mode: ActionMode,
    verbose: bool,
    t: Seq<ReplyView>,
)
    ensures
        careful(watching::raw_watched(name, mode, false, verbose, t), t),
{
    broadcast use {group_tails, tail_list_remembered, careful_watch_acted, two_on_in_tail};

    lemma_listed_careful(mode, verbose, t);
}

broadcast proof fn careful_recovered(
    targets: Seq<TargetView>,
    mode: ActionMode,
    verbose: bool,
    t: Seq<ReplyView>,
)
    ensures
        careful(#[trigger] watching::recovered(targets, mode, false, verbose, t), t),
{
    watching_targets_is_careful(targets, mode, verbose, t);
    if let Course::Ends(r, t1) = watching::targets_watched(targets, mode, false, verbose, t) {
        lemma_darkness_spares(mode, verbose, t1);
    }
}

proof fn lemma_darkness_spares(mode: ActionMode, verbose: bool, t: Seq<ReplyView>)
    ensures
        spares(watching::darkness_ended(mode, verbose, t)),
{
    safety_laws::lemma_changes();
    safety_laws::listing_turns_nothing_off(mode, verbose, t);
    if let Course::Ends(r, t1) = watching::listed_or_restored(mode, verbose, t) {
        if let Ok(listed) = r {
            if let Some(parsed) = listed {
                if let Course::Ends(_, t2) = files::list_remembered(parsed.displays, t1) {
                    safety_laws::safety_restore_turns_nothing_off(mode, verbose, t2);
                }
            }
        }
    }
}

/// Where the procedure stops at an effect, the effect turns nothing off.
pub open spec fn spares<T>(c: Course<T>) -> bool {
    match c {
        Course::Asks(e) => !safety_laws::turns_off(e),
        Course::Ends(_, _) => true,
    }
}

broadcast proof fn careful_change(
    targets: Seq<TargetView>,
    change: DisplayChange,
    mode: ActionMode,
    verbose: bool,
    t: Seq<ReplyView>,
)
    ensures
        careful(#[trigger] watching::change_answered(targets, change, mode, false, verbose, t), t),
{
    broadcast use {group_tails, careful_recovered, two_on_in_tail};

    if t.len() >= 2 {
        lemma_safety_careful(mode, verbose, t.skip(1).skip(1));
    }
}

proof fn lemma_internal_careful(t: Seq<ReplyView>)
    ensures
        careful(switching::internal_toggled(t), t),
{
    broadcast use {group_tails, tail_list_remembered, careful_disable, two_on_in_tail};

    safety_laws::lemma_changes();
    safety_laws::lemma_listing_spares(t);
    if let Course::Ends(r, t1) = commands::displays_listed(t) {
        if let Ok(parsed) = r {
            if let Course::Ends(_, t2) = files::list_remembered(parsed.displays, t1) {
                let panel = crate::state::first_internal(parsed.displays);
                if panel is Some && panel->0.persistent_id is Some {
                    safety_laws::switching_on_turns_nothing_off(
                        panel->0.persistent_id->0,
                        ActionMode::Execute,
                        false,
                        t2,
                    );
                }
                safety_laws::restoring_turns_nothing_off(
                    None,
                    ActionMode::Execute,
                    false,
                    false,
                    restore::INTERNAL_RESTORE_ATTEMPTS,
                    t2,
                );
            }
        }
    }
}

proof fn lemma_toggle_careful(d: DisplayView, t: Seq<ReplyView>)
    ensures
        careful(switching::display_toggled(d, t), t),
{
    if let Course::Asks(e) = switching::display_toggled(d, t) {
        if safety_laws::turns_off(e) {
            safety_laws::toggling_never_turns_the_last_display_off(d, t, e);
            assert(t[0] == t[0]);
        }
    }
}

proof fn lemma_target_careful(ui: UiView, t: Seq<ReplyView>)
    ensures
        careful(interactive::target_pressed(ui, t), t),
{
    broadcast use {group_tails, tail_target_toggled, careful_recovered, two_on_in_tail};

}

proof fn lemma_key_careful(ui: UiView, key: Key, t: Seq<ReplyView>)
    ensures
        careful(interactive::key_pressed(ui, key, t), t),
{
    safety_laws::safe_reset_turns_nothing_off(ActionMode::Execute, false, t);
    lemma_internal_careful(t);
    lemma_target_careful(ui, t);
    if let Some(d) = ui.selected_display() {
        lemma_toggle_careful(d, t);
    }
}

proof fn lemma_displays_careful(ui: UiView, t: Seq<ReplyView>)
    ensures
        careful(interactive::display_stage(ui, t), t),
{
    broadcast use {group_tails, tail_logged, careful_change, careful_recovered, two_on_in_tail};

}

proof fn lemma_power_careful(ui: UiView, t: Seq<ReplyView>)
    ensures
        careful(interactive::power_stage(ui, t), t),
{
    if t.len() > 0 {
        if let Some(event) = effect::as_power(t[0]) {
            let line = "power: "@ + event.name() + " — running internal guard"@;
            if let Course::Ends(_, t1) = files::logged(line, t.skip(1)) {
                safety_laws::guard_is_restore_only(event.name(), ActionMode::Execute, false, t1);
            }
        }
    }
}

proof fn lemma_show_careful(ui: UiView, t: Seq<ReplyView>)
    ensures
        careful(interactive::show_stage(ui, t), t),
{
    safety_laws::lemma_listing_spares(t);
}

/// No step of the interactive mode turns a display off unless it has read a list
/// of displays of which two are on.
pub proof fn interactive_mode_is_careful(ui: UiView, t: Seq<ReplyView>)
    ensures
        careful(interactive::stepped(ui, t), t),
{
    broadcast use {group_tails, two_on_in_tail};

    match ui.stage {
        Stage::Input => {
            if t.len() > 0 {
                if let Ok(input) = effect::as_input(t[0]) {
                    if let Some(Input::Key(key, _)) = input {
                        lemma_key_careful(ui.at(Stage::Displays), key, t.skip(1));
                    }
                }
            }
        },
        Stage::Displays => {
            lemma_displays_careful(ui, t);
        },
        Stage::Power => {
            lemma_power_careful(ui, t);
        },
        Stage::Show => {
            lemma_show_careful(ui, t);
        },
    }
}

// ---------------------------------------------------------------------------
// The opening of the interactive mode.
// ---------------------------------------------------------------------------
broadcast proof fn tail_list_refreshed(ui: UiView, t: Seq<ReplyView>)
    ensures
        leaves_tail(#[trigger] interactive::list_refreshed(ui, t), t),
{
    broadcast use {group_tails, tail_list_remembered};

}

proof fn lemma_refreshed_spares(ui: UiView, t: Seq<ReplyView>)
    ensures
        spares(interactive::list_refreshed(ui, t)),
{
    safety_laws::lemma_listing_spares(t);
}

proof fn lemma_start_careful(ui: UiView, t: Seq<ReplyView>)
    ensures
        careful(interactive::start_recovered(ui, t), t),
{
    broadcast use careful_recovered;

    if let Course::Ends(r, t1) = watching::recovered(
        ui.targets,
        ActionMode::Execute,
        false,
        false,
        t,
    ) {
        lemma_refreshed_spares(ui.saying("auto target matched; internal disabled"@), t1);
        lemma_refreshed_spares(ui.saying("internal restore requested"@), t1);
    }
}

proof fn lemma_loaded_careful(ui: UiView, t: Seq<ReplyView>)
    ensures
        careful(interactive::first_loaded(ui, t), t),
{
    lemma_refreshed_spares(ui, t);
    tail_list_refreshed(ui, t);
    if let Course::Ends(ui1, t1) = interactive::list_refreshed(ui, t) {
        if t1.len() > 0 {
            let columns = effect::as_columns(t1[0]);
            let t2 = t1.skip(1);
            lemma_start_careful(UiView { width: interactive::width_of(columns), ..ui1 }, t2);
            tail_of_one(t1);
            tail_of_tail(t2, t1, t);
            if seen_two_on(t2) {
                two_on_in_tail(t2, t);
            }
        }
    }
}

proof fn lemma_drawn_spares(ui: UiView, t: Seq<ReplyView>)
    ensures
        spares(interactive::list_drawn(ui, t)),
{
}

proof fn lemma_first_careful(ui: UiView, t: Seq<ReplyView>)
    ensures
        careful(interactive::first_shown(ui, t), t),
{
    lemma_loaded_careful(ui, t);
    if let Course::Ends(ui1, t1) = interactive::first_loaded(ui, t) {
        lemma_drawn_spares(ui1, t1);
    }
}

/// The opening of the interactive mode does not turn a display off either unless
/// it has read a list of displays of which two are on.
pub proof fn opening_is_careful(t: Seq<ReplyView>)
    ensures
        careful(interactive::mode_opened(t), t),
{
    broadcast use {group_tails, two_on_in_tail};

    if let Course::Ends(r, t1) = effect::asks_done(EffectView::OpenTerminal, t) {
        if let Course::Ends(events, t2) = watch::events_started(
            interactive::DEFAULT_INTERACTIVE_RECONCILE_INTERVAL_SECS,
            t1,
        ) {
            if let Course::Ends(power, t3) = interactive::power_started(t2) {
                if let Course::Ends(Ok(targets), t4) = files::targets_loaded(t3) {
                    lemma_first_careful(
                        interactive::first_state(
                            targets,
                            interactive::first_status(events, power),
                        ),
                        t4,
                    );
                }
            }
        }
    }
}

// ---------------------------------------------------------------------------
// The watcher.
// ---------------------------------------------------------------------------
broadcast proof fn tail_summaries_said(targets: Seq<TargetView>, t: Seq<ReplyView>)
    ensures
        leaves_tail(#[trigger] watch::summaries_said(targets, t), t),
        spares(watch::summaries_said(targets, t)),
    decreases targets.len(),
{
    broadcast use group_tails;

    if targets.len() > 0 && t.len() > 0 {
        tail_summaries_said(targets.skip(1), t.skip(1));
    }
}

broadcast proof fn careful_round(w: WatchView, t: Seq<ReplyView>)
    requires
        !w.force,
    ensures
        careful(#[trigger] watch::round_made(w, t), t),
{
    match w.target {
        Some(name) => {
            watching_a_name_is_careful(name, w.mode, true, t);
        },
        None => {
            watching_targets_is_careful(w.targets, w.mode, true, t);
        },
    }
}

proof fn lemma_begun_careful(w: WatchView, interval: u64, t: Seq<ReplyView>)
    requires
        !w.force,
    ensures
        careful(watch::watch_begun(w, interval, t), t),
{
    broadcast use {group_tails, tail_summaries_said, careful_round, two_on_in_tail};

}

/// Unless it is forced, the command `watch` turns a display off only after it has
/// read a list of displays of which two are on.
pub proof fn watching_is_careful(args: Seq<Seq<char>>, t: Seq<ReplyView>)
    requires
        options::watch_given(args, options::watch_defaults()) matches Ok(o) ==> !o.force,
    ensures
        careful(watch::watch_run(args, t), t),
{
    broadcast use {group_tails, two_on_in_tail};

    if let Ok(o) = options::watch_given(args, options::watch_defaults()) {
        if let Course::Ends(Ok(targets), t1) = watch::watch_targets_read(o.target is Some, t) {
            let w = WatchView { target: o.target, targets, mode: o.mode, force: o.force };
            lemma_begun_careful(w, o.interval, t1);
        }
    }
}

/// So does each further round of a watcher that is not forced.
pub proof fn further_rounds_are_careful(w: WatchView, t: Seq<ReplyView>)
    requires
        !w.force,
    ensures
        careful(watch::watch_continued(w, t), t),
{
    broadcast use {group_tails, careful_round, two_on_in_tail};

}

// ---------------------------------------------------------------------------
// The program.
// ---------------------------------------------------------------------------
proof fn lemma_disable_not_forced(args: Seq<Seq<char>>, o: DisableOptionsView)
    requires
        !args.contains("--force"@),
        !o.force,
    ensures
        options::disable_given(args, o) matches Ok(r) ==> !r.force,
    decreases args.len(),
{
    if args.len() > 0 {
        assert(args.contains(args[0]));
        lemma_disable_not_forced(
            args.skip(1),
            DisableOptionsView { mode: ActionMode::DryRun, ..o },
        );
        if args.len() >= 2 {
            lemma_disable_not_forced(
                args.skip(2),
                DisableOptionsView { condition: Some(args[1]), ..o },
            );
        }
    }
}

proof fn lemma_watch_not_forced(args: Seq<Seq<char>>, o: WatchOptionsView)
    requires
        !args.contains("--force"@),
        !o.force,
    ensures
        options::watch_given(args, o) matches Ok(r) ==> !r.force,
    decreases args.len(),
{
    if args.len() > 0 {
        assert(args.contains(args[0]));
        lemma_watch_not_forced(args.skip(1), WatchOptionsView { mode: ActionMode::DryRun, ..o });
        if args.len() >= 2 {
            lemma_watch_not_forced(
                args.skip(2),
                WatchOptionsView { target: Some(args[1]), ..o },
            );
            if let Ok(n) = number::u64_value(args[1]) {
                let interval = if n < 1 {
                    1
                } else {
                    n
                };
                lemma_watch_not_forced(args.skip(2), WatchOptionsView { interval, ..o });
            }
        }
    }
}

proof fn lemma_domain_spares(t: Seq<ReplyView>)
    ensures
        spares(install::domain_found(t)),
{
    reveal_strlit("displayplacer");
    reveal_strlit("id");
    assert("id"@.len() != "displayplacer"@.len());
    safety_laws::lemma_timed("id"@, seq!["-u"@], 1000, t, ActionMode::Execute);
}

proof fn lemma_launchctl()
    ensures
        "launchctl"@ != "displayplacer"@,
{
    reveal_strlit("displayplacer");
    reveal_strlit("launchctl");
    assert("launchctl"@.len() != "displayplacer"@.len());
}

proof fn lemma_unloaded_spares(label: Seq<char>, mode: ActionMode, t: Seq<ReplyView>)
    ensures
        spares(install::agent_unloaded(label, mode, t)),
{
    lemma_launchctl();
    lemma_domain_spares(t);
}

proof fn lemma_started_spares(
    label: Seq<char>,
    plist: Seq<char>,
    domain: Seq<char>,
    t: Seq<ReplyView>,
)
    ensures
        spares(install::agent_started(label, plist, domain, t)),
{
    lemma_launchctl();
}

proof fn lemma_loaded_spares(
    label: Seq<char>,
    plist: Seq<char>,
    mode: ActionMode,
    t: Seq<ReplyView>,
)
    ensures
        spares(install::agent_loaded(label, plist, mode, t)),
{
    lemma_unloaded_spares(label, mode, t);
    if let Course::Ends(_, t1) = install::agent_unloaded(label, mode, t) {
        lemma_domain_spares(t1);
        if let Course::Ends(Ok(domain), t2) = install::domain_found(t1) {
            lemma_started_spares(label, plist, domain, t2);
        }
    }
}

/// Installing and uninstalling the guard turns nothing off.
pub proof fn installing_turns_nothing_off(args: Seq<Seq<char>>, t: Seq<ReplyView>)
    ensures
        spares(install::install_run(args, t)),
        spares(install::uninstall_run(args, t)),
{
    if let Ok(o) = options::install_given(args, options::install_defaults()) {
        if let Course::Ends(Ok(plist), t1) = install::plist_made(o.interval, t) {
            if let Course::Ends(_, t2) = install::plist_written(plist, o.mode, t1) {
                lemma_loaded_spares(agent::GUARD_LABEL@, plist.shown, o.mode, t2);
            }
        }
    }
    if let Ok(o) = options::uninstall_given(args, options::uninstall_defaults()) {
        if t.len() > 0 {
            lemma_unloaded_spares(agent::GUARD_LABEL@, o.mode, t.skip(1));
        }
    }
}

proof fn lemma_restoring_spares(args: Seq<Seq<char>>, t: Seq<ReplyView>)
    ensures
        spares(command::enable_run(args, t)),
        spares(command::restore_run(args, t)),
        spares(command::restore_display_run(args, t)),
        spares(command::redetect_run(args, t)),
        spares(command::reset_run(args, t)),
        spares(command::guard_run(args, t)),
{
    safety_laws::lemma_changes();
    if let Ok(o) = options::enable_given(args, options::enable_defaults()) {
        if let Course::Ends(Ok(id), t1) = command::enable_id(o.id, t) {
            if let Course::Ends(_, t2) = files::panel_remembered(id, None, None, t1) {
                safety_laws::switching_on_turns_nothing_off(id, o.mode, true, t2);
            }
        }
    }
    if let Ok(o) = options::restore_given(args, options::restore_defaults()) {
        safety_laws::restoring_turns_nothing_off(
            o.display_id,
            o.mode,
            o.fallback,
            true,
            restore::INTERNAL_RESTORE_ATTEMPTS,
            t,
        );
    }
    if let Ok(o) = options::restore_display_given(args, options::restore_display_defaults()) {
        if let Some(id) = o.display_id {
            safety_laws::restoring_a_number_turns_nothing_off(id, o.mode, true, t);
        }
    }
    if let Ok(o) = options::reset_given(args, options::reset_defaults()) {
        safety_laws::safe_reset_turns_nothing_off(o.mode, true, t);
    }
    if let Ok(o) = options::guard_given(args, options::guard_defaults()) {
        safety_laws::guard_is_restore_only(o.reason, o.mode, o.verbose, t);
    }
}

/// Unless it is called with `--force`, the program turns a display off only after
/// it has read a list of displays of which two are on.
#[verifier::spinoff_prover]
#[verifier::rlimit(60)]
pub proof fn program_is_careful(args: Seq<Seq<char>>, t: Seq<ReplyView>)
    requires
        !args.contains("--force"@),
    ensures
        careful(command::program_run(args, t), t),
{
    if args.len() > 0 {
        let rest = args.skip(1);
        lemma_disable_not_forced(rest, options::disable_defaults());
        lemma_watch_not_forced(rest, options::watch_defaults());
        if let Ok(o) = options::disable_given(rest, options::disable_defaults()) {
            careful_disable(o.condition, o.mode, true, true, t);
        }
        watching_is_careful(rest, t);
        lemma_restoring_spares(rest, t);
        installing_turns_nothing_off(rest, t);
        safety_laws::looking_changes_nothing(rest, t);
        safety_laws::lemma_changes();
    }
}

} // verus!
