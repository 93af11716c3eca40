//! What holds of the procedures, whatever replies they get: which effects they
//! never ask for.

use vstd::prelude::*;

use crate::command;
use crate::commands;
use crate::display;
use crate::display::DisplayView;
use crate::effect;
use crate::effect::{Course, EffectView, ReplyView};
use crate::files;
use crate::guard;
use crate::native;
use crate::options;
use crate::placer;
use crate::policy;
use crate::policy::{ActionMode, AutoWatchAction, ClamshellState, DisplayChange, GuardAction};
use crate::restore;
use crate::restore::TrialView;
use crate::snapshot;
use crate::snapshot::ProbeView;
use crate::switching;
use crate::switching::DisablePlanView;
use crate::target;
use crate::target::TargetView;
use crate::watch;
use crate::watch::WatchView;
use crate::watching;

verus! {

// ---------------------------------------------------------------------------
// Effects.
// ---------------------------------------------------------------------------
/// The effect changes which displays are on, or may.
pub open spec fn changes(e: EffectView) -> bool {
    match e {
        EffectView::Detect => true,
        EffectView::BeginConfiguration => true,
        EffectView::ConfigureEnabled { display, enabled } => true,
        EffectView::CancelConfiguration => true,
        EffectView::CompleteConfiguration => true,
        EffectView::Run { program, arguments } => program == "displayplacer"@ && arguments != seq![
            "list"@,
        ],
        EffectView::Spawn { program, arguments } => program == "displayplacer"@ && arguments
            != seq!["list"@],
        _ => false,
    }
}

/// The arguments make `displayplacer` turn a display off.
pub open spec fn off_arguments(arguments: Seq<Seq<char>>) -> bool {
    exists|id: Seq<char>| arguments == seq![#[trigger] placer::switch_argument(id, false)]
}

/// The effect turns a display off.
pub open spec fn turns_off(e: EffectView) -> bool {
    match e {
        EffectView::ConfigureEnabled { display, enabled } => !enabled,
        EffectView::Run { program, arguments } => program == "displayplacer"@ && off_arguments(
            arguments,
        ),
        EffectView::Spawn { program, arguments } => program == "displayplacer"@ && off_arguments(
            arguments,
        ),
        _ => false,
    }
}

/// The arguments make `displayplacer` turn a display on, and nothing else.
pub open spec fn on_arguments(arguments: Seq<Seq<char>>) -> bool {
    exists|id: Seq<char>| arguments == seq![#[trigger] placer::switch_argument(id, true)]
}

/// The effect leaves the displays arranged as they are: where it runs
/// `displayplacer`, it is to list the displays or to turn one on.
pub open spec fn keeps_arrangement(e: EffectView) -> bool {
    match e {
        EffectView::Run { program, arguments } => program == "displayplacer"@ ==> (arguments
            == seq!["list"@] || on_arguments(arguments)),
        EffectView::Spawn { program, arguments } => program == "displayplacer"@ ==> (arguments
            == seq!["list"@] || on_arguments(arguments)),
        _ => true,
    }
}

/// In a dry run an effect may change nothing; else it may turn nothing off and
/// rearrange nothing.
pub open spec fn permitted(e: EffectView, mode: ActionMode) -> bool {
    if mode == ActionMode::DryRun {
        !changes(e)
    } else {
        !turns_off(e) && keeps_arrangement(e)
    }
}

/// Where the procedure stops at an effect, the displays stay arranged as they are.
pub open spec fn rearranges_nothing<T>(c: Course<T>) -> bool {
    match c {
        Course::Asks(e) => keeps_arrangement(e),
        Course::Ends(_, _) => true,
    }
}

/// Where the procedure stops at an effect, the effect is permitted.
pub open spec fn within<T>(c: Course<T>, mode: ActionMode) -> bool {
    match c {
        Course::Asks(e) => permitted(e, mode),
        Course::Ends(_, _) => true,
    }
}

/// What turns a display off changes the displays.
pub proof fn lemma_changes()
    ensures
        forall|e: EffectView| #[trigger] turns_off(e) ==> changes(e),
{
    assert forall|e: EffectView| #[trigger] turns_off(e) implies changes(e) by {
        match e {
            EffectView::Run { program, arguments } => {
                lemma_off_arguments(arguments);
            },
            EffectView::Spawn { program, arguments } => {
                lemma_off_arguments(arguments);
            },
            _ => {},
        }
    }
}

proof fn lemma_off_arguments(arguments: Seq<Seq<char>>)
    ensures
        off_arguments(arguments) ==> arguments != seq!["list"@],
{
    if off_arguments(arguments) {
        let id = choose|id: Seq<char>| arguments == seq![#[trigger] placer::switch_argument(id, false)];
        lemma_off_text(id);
        assert(arguments[0] == placer::switch_argument(id, false));
        assert(seq!["list"@][0] == "list"@);
    }
}

proof fn lemma_off_text(id: Seq<char>)
    ensures
        placer::switch_argument(id, false) != "list"@,
        forall|other: Seq<char>| #[trigger]
            placer::switch_argument(other, true) != placer::switch_argument(id, false),
{
    reveal_strlit("list");
    reveal_strlit("id:");
    reveal_strlit(" enabled:");
    reveal_strlit("true");
    reveal_strlit("false");
    let off = placer::switch_argument(id, false);
    assert(off[0] == 'i');
    assert("list"@[0] == 'l');
    assert(off.len() == id.len() + 17);
    assert(off[off.len() - 3] == 'l');
    assert forall|other: Seq<char>| #[trigger] placer::switch_argument(other, true) != off by {
        let on = placer::switch_argument(other, true);
        assert(on.len() == other.len() + 16);
        assert(on[on.len() - 3] == 'r');
    }
}

proof fn lemma_listing(mode: ActionMode)
    ensures
        permitted(EffectView::Run { program: "displayplacer"@, arguments: seq!["list"@] }, mode),
        permitted(EffectView::Spawn { program: "displayplacer"@, arguments: seq!["list"@] }, mode),
{
    if off_arguments(seq!["list"@]) {
        let id = choose|id: Seq<char>| seq!["list"@] == seq![placer::switch_argument(id, false)];
        lemma_off_text(id);
        assert(seq!["list"@][0] == seq![placer::switch_argument(id, false)][0]);
    }
}

proof fn lemma_switch_on(id: Seq<char>)
    ensures
        permitted(
            EffectView::Run {
                program: "displayplacer"@,
                arguments: seq![placer::switch_argument(id, true)],
            },
            ActionMode::Execute,
        ),
{
    let on = seq![placer::switch_argument(id, true)];
    if off_arguments(on) {
        let other = choose|other: Seq<char>| on == seq![placer::switch_argument(other, false)];
        lemma_off_text(other);
        assert(on[0] == seq![placer::switch_argument(other, false)][0]);
    }
}

proof fn lemma_other_programs()
    ensures
        "ioreg"@ != "displayplacer"@,
{
    reveal_strlit("ioreg");
    reveal_strlit("displayplacer");
    assert("ioreg"@.len() != "displayplacer"@.len());
}

// ---------------------------------------------------------------------------
// The parts.
// ---------------------------------------------------------------------------
proof fn lemma_timed_loop(
    program: Seq<char>,
    arguments: Seq<Seq<char>>,
    timeout_ms: u32,
    start: u64,
    t: Seq<ReplyView>,
    mode: ActionMode,
)
    ensures
        within(commands::end_awaited(program, arguments, timeout_ms, start, t), mode),
    decreases t.len(),
{
    if t.len() >= 3 {
        lemma_timed_loop(program, arguments, timeout_ms, start, t.skip(1).skip(1).skip(1), mode);
    }
}

/// A timed command asks for nothing but itself and what belongs to it.
pub proof fn lemma_timed(
    program: Seq<char>,
    arguments: Seq<Seq<char>>,
    timeout_ms: u32,
    t: Seq<ReplyView>,
    mode: ActionMode,
)
    requires
        permitted(EffectView::Spawn { program, arguments }, mode),
    ensures
        within(commands::timed_run(program, arguments, timeout_ms, t), mode),
{
    if t.len() >= 2 {
        lemma_timed_loop(
            program,
            arguments,
            timeout_ms,
            effect::as_nanos(t.skip(1)[0]),
            t.skip(1).skip(1),
            mode,
        );
    }
}

proof fn lemma_listed(t: Seq<ReplyView>, mode: ActionMode)
    ensures
        within(commands::displays_listed(t), mode),
{
    lemma_listing(mode);
}

/// To list the displays turns nothing off.
pub proof fn lemma_listing_spares(t: Seq<ReplyView>)
    ensures
        commands::displays_listed(t) matches Course::Asks(e) ==> !turns_off(e),
{
    lemma_listed(t, ActionMode::Execute);
}

proof fn lemma_listed_within(timeout_ms: u32, t: Seq<ReplyView>, mode: ActionMode)
    ensures
        within(commands::displays_listed_within(timeout_ms, t), mode),
{
    lemma_listing(mode);
    lemma_timed("displayplacer"@, seq!["list"@], timeout_ms, t, mode);
}

proof fn lemma_lid(verbose: bool, t: Seq<ReplyView>, mode: ActionMode)
    ensures
        within(restore::lid_read(verbose, t), mode),
{
    lemma_other_programs();
    lemma_timed(
        "ioreg"@,
        seq!["-r"@, "-k"@, "AppleClamshellState"@, "-d"@, "4"@],
        1000,
        t,
        mode,
    );
}

/// To switch a display on by `displayplacer` turns nothing off, and in a dry run
/// it changes nothing.
pub proof fn switching_on_turns_nothing_off(
    id: Seq<char>,
    mode: ActionMode,
    verbose: bool,
    t: Seq<ReplyView>,
)
    ensures
        within(commands::placer_switched(id, true, mode, verbose, t), mode),
{
    lemma_switch_on(id);
}

proof fn lemma_placer_dry(id: Seq<char>, enabled: bool, verbose: bool, t: Seq<ReplyView>)
    ensures
        within(
            commands::placer_switched(id, enabled, ActionMode::DryRun, verbose, t),
            ActionMode::DryRun,
        ),
{
}

proof fn lemma_native_on(id: u32, mode: ActionMode, verbose: bool, t: Seq<ReplyView>)
    ensures
        within(native::native_switched(id, true, mode, verbose, t), mode),
{
}

proof fn lemma_among(ids: Seq<u32>, t: Seq<ReplyView>, mode: ActionMode)
    ensures
        within(native::builtin_among(ids, t), mode),
    decreases ids.len(),
{
    if ids.len() > 0 && t.len() > 0 {
        lemma_among(ids.skip(1), t.skip(1), mode);
    }
}

proof fn lemma_found(t: Seq<ReplyView>, mode: ActionMode)
    ensures
        within(native::builtin_found(t), mode),
{
    if t.len() > 0 {
        lemma_among(effect::as_numbers(t[0]), t.skip(1), mode);
    }
}

proof fn lemma_activity(t: Seq<ReplyView>, mode: ActionMode)
    ensures
        within(native::activity_found(t), mode),
{
    lemma_found(t, mode);
}

proof fn lemma_awaited(start: u64, timeout_ms: u32, t: Seq<ReplyView>, mode: ActionMode)
    ensures
        within(native::activity_awaited(start, timeout_ms, t), mode),
    decreases t.len(),
{
    lemma_activity(t, mode);
    native::lemma_activity_shrinks(t);
    if let Course::Ends(_, t1) = native::activity_found(t) {
        if t1.len() >= 2 {
            lemma_awaited(start, timeout_ms, t1.skip(1).skip(1), mode);
        }
    }
}

proof fn lemma_waited(timeout_ms: u32, t: Seq<ReplyView>, mode: ActionMode)
    ensures
        within(native::activity_waited(timeout_ms, t), mode),
{
    if t.len() > 0 {
        lemma_awaited(effect::as_nanos(t[0]), timeout_ms, t.skip(1), mode);
    }
}

// ---------------------------------------------------------------------------
// Restoring.
// ---------------------------------------------------------------------------
proof fn lemma_tried(
    ids: Seq<u32>,
    verbose: bool,
    error: Option<Seq<char>>,
    t: Seq<ReplyView>,
)
    ensures
        within(restore::numbers_tried(ids, verbose, error, t), ActionMode::Execute),
    decreases ids.len(),
{
    if ids.len() > 0 {
        let id = ids[0];
        lemma_native_on(id, ActionMode::Execute, verbose, t);
        if let Course::Ends(r, t1) = native::native_switched(
            id,
            true,
            ActionMode::Execute,
            verbose,
            t,
        ) {
            match r {
                Err(error) => {
                    lemma_tried(ids.skip(1), verbose, Some(error), t1);
                },
                Ok(_) => {
                    lemma_waited(restore::INTERNAL_RESTORE_VERIFY_TIMEOUT, t1, ActionMode::Execute);
                    if let Course::Ends(active, t2) = native::activity_waited(
                        restore::INTERNAL_RESTORE_VERIFY_TIMEOUT,
                        t1,
                    ) {
                        let line = "restore-internal: id "@ + crate::number::dec(id as nat)
                            + " enabled ok but builtin not active"@;
                        if let Course::Ends(_, t3) = files::logged(line, t2) {
                            lemma_tried(
                                ids.skip(1),
                                verbose,
                                Some(restore::dark_text(id)),
                                t3,
                            );
                        }
                    }
                },
            }
        }
    }
}

proof fn lemma_attempted(
    explicit: Option<u32>,
    attempt: u32,
    attempts: u32,
    verbose: bool,
    error: Option<Seq<char>>,
    t: Seq<ReplyView>,
)
    ensures
        within(
            restore::attempted(explicit, attempt, attempts, verbose, error, t),
            ActionMode::Execute,
        ),
{
    let mode = ActionMode::Execute;
    lemma_activity(t, mode);
    if let Course::Ends(active, t1) = native::activity_found(t) {
        lemma_found(t1, mode);
        if let Course::Ends(live, t2) = native::builtin_found(t1) {
            if let Course::Ends(r, t3) = files::panel_number_read(t2) {
                if let Ok(remembered) = r {
                    let ids = policy::candidates(explicit, live, remembered);
                    let line = restore::attempt_log(attempt, attempts, ids, live, remembered);
                    if let Course::Ends(_, t4) = files::logged(line, t3) {
                        lemma_tried(ids, verbose, error, t4);
                    }
                }
            }
        }
    }
}

proof fn lemma_attempts(
    explicit: Option<u32>,
    attempt: u32,
    last: u32,
    attempts: u32,
    verbose: bool,
    error: Option<Seq<char>>,
    t: Seq<ReplyView>,
)
    ensures
        within(
            restore::attempts_made(explicit, attempt, last, attempts, verbose, error, t),
            ActionMode::Execute,
        ),
    decreases last - attempt,
{
    if let Course::Ends(_, t1) = restore::attempt_prepared(attempt, t) {
        lemma_attempted(explicit, attempt, attempts, verbose, error, t1);
        if let Course::Ends(trial, t2) = restore::attempted(
            explicit,
            attempt,
            attempts,
            verbose,
            error,
            t1,
        ) {
            if let TrialView::Failed(reason) = trial {
                if attempt < last {
                    lemma_attempts(
                        explicit,
                        (attempt + 1) as u32,
                        last,
                        attempts,
                        verbose,
                        reason,
                        t2,
                    );
                }
            }
        }
    }
}

proof fn lemma_enabled(
    explicit: Option<u32>,
    attempts: u32,
    mode: ActionMode,
    verbose: bool,
    t: Seq<ReplyView>,
)
    ensures
        within(restore::internal_enabled(explicit, attempts, mode, verbose, t), mode),
{
    if mode == ActionMode::DryRun {
        if let Course::Ends(r, t1) = files::panel_number_read(t) {
            if let Ok(remembered) = r {
                lemma_native_on(
                    policy::candidates(explicit, None, remembered)[0],
                    mode,
                    verbose,
                    t1,
                );
            }
        }
    } else {
        lemma_attempts(
            explicit,
            1,
            if attempts > 1 {
                attempts
            } else {
                1
            },
            attempts,
            verbose,
            None,
            t,
        );
    }
}

/// Restoring the built-in display turns nothing off, and in a dry run it
/// changes nothing.
pub proof fn restoring_turns_nothing_off(
    explicit: Option<u32>,
    mode: ActionMode,
    fallback: bool,
    verbose: bool,
    attempts: u32,
    t: Seq<ReplyView>,
)
    ensures
        within(
            restore::internal_restored(explicit, mode, fallback, verbose, attempts, t),
            mode,
        ),
{
    if let Course::Ends(r, t1) = native::detected(mode, verbose, t) {
        lemma_enabled(explicit, attempts, mode, verbose, t1);
        if let Course::Ends(r, t2) = restore::internal_enabled(
            explicit,
            attempts,
            mode,
            verbose,
            t1,
        ) {
            if let Course::Ends(r, t3) = files::value_read("internal_id"@, t2) {
                if let Ok(id) = r {
                    if let Some(id) = id {
                        switching_on_turns_nothing_off(id, mode, verbose, t3);
                    }
                }
            }
        }
    }
}

/// Restoring one display turns nothing off, and in a dry run it changes
/// nothing.
pub proof fn restoring_a_number_turns_nothing_off(
    id: u32,
    mode: ActionMode,
    verbose: bool,
    t: Seq<ReplyView>,
)
    ensures
        within(restore::number_restored(id, mode, verbose, t), mode),
{
    if let Course::Ends(r, t1) = native::detected(mode, verbose, t) {
        lemma_native_on(id, mode, verbose, t1);
    }
}

/// The restore for safety turns nothing off, and in a dry run it changes
/// nothing.
pub proof fn safety_restore_turns_nothing_off(mode: ActionMode, verbose: bool, t: Seq<ReplyView>)
    ensures
        within(restore::safety_restored(mode, verbose, t), mode),
{
    lemma_lid(verbose, t, mode);
    if let Course::Ends(lid, t1) = restore::lid_read(verbose, t) {
        if let Course::Ends(_, t2) = effect::said_if(
            verbose,
            "internal safety restore: redetect displays"@,
            t1,
        ) {
            if let Course::Ends(_, t3) = restore::detection_tried(mode, verbose, t2) {
                lemma_enabled(None, restore::INTERNAL_RESTORE_ATTEMPTS, mode, verbose, t3);
            }
        }
    }
}

// ---------------------------------------------------------------------------
// Safe reset.
// ---------------------------------------------------------------------------
proof fn lemma_numbers_enabled(ids: Seq<u32>, mode: ActionMode, verbose: bool, t: Seq<ReplyView>)
    ensures
        within(guard::numbers_enabled(ids, mode, verbose, t), mode),
    decreases ids.len(),
{
    if ids.len() > 0 {
        let digits = crate::number::dec(ids[0] as nat);
        if let Course::Ends(_, t1) = effect::said_if(
            verbose,
            "safe reset: enable remembered display id "@ + digits,
            t,
        ) {
            lemma_native_on(ids[0], mode, verbose, t1);
            if let Course::Ends(r, t2) = native::native_switched(ids[0], true, mode, verbose, t1) {
                match r {
                    Ok(_) => {
                        lemma_numbers_enabled(ids.skip(1), mode, verbose, t2);
                    },
                    Err(error) => {
                        if let Course::Ends(_, t3) = effect::warned_if(
                            verbose,
                            "warning: native restore failed for display id "@ + digits + ": "@
                                + error,
                            t2,
                        ) {
                            lemma_numbers_enabled(ids.skip(1), mode, verbose, t3);
                        }
                    },
                }
            }
        }
    }
}

proof fn lemma_listed_enabled(
    displays: Seq<DisplayView>,
    mode: ActionMode,
    verbose: bool,
    any: bool,
    t: Seq<ReplyView>,
)
    ensures
        within(guard::listed_enabled(displays, mode, verbose, any, t), mode),
    decreases displays.len(),
{
    if displays.len() > 0 {
        let rest = displays.skip(1);
        if displays[0].on() {
            lemma_listed_enabled(rest, mode, verbose, any, t);
        } else {
            match displays[0].persistent_id {
                None => {
                    if let Course::Ends(_, t1) = effect::warned_if(
                        verbose,
                        "warning: skipped disabled display without persistent id"@,
                        t,
                    ) {
                        lemma_listed_enabled(rest, mode, verbose, any, t1);
                    }
                },
                Some(id) => {
                    if let Course::Ends(_, t1) = effect::said_if(
                        verbose,
                        "safe reset: enable detected display "@ + id,
                        t,
                    ) {
                        switching_on_turns_nothing_off(id, mode, verbose, t1);
                        if let Course::Ends(r, t2) = commands::placer_switched(
                            id,
                            true,
                            mode,
                            verbose,
                            t1,
                        ) {
                            match r {
                                Ok(_) => {
                                    lemma_listed_enabled(rest, mode, verbose, true, t2);
                                },
                                Err(error) => {
                                    if let Course::Ends(_, t3) = effect::warned_if(
                                        verbose,
                                        "warning: failed to enable display "@ + id + ": "@ + error,
                                        t2,
                                    ) {
                                        lemma_listed_enabled(rest, mode, verbose, any, t3);
                                    }
                                },
                            }
                        }
                    }
                },
            }
        }
    }
}

proof fn lemma_remembered_enabled(mode: ActionMode, verbose: bool, t: Seq<ReplyView>)
    ensures
        within(guard::remembered_enabled(mode, verbose, t), mode),
{
    if let Course::Ends(r, t1) = files::numbers_read(t) {
        if let Ok(ids) = r {
            lemma_numbers_enabled(ids, mode, verbose, t1);
        }
    }
}

proof fn lemma_detected_enabled(mode: ActionMode, verbose: bool, t: Seq<ReplyView>)
    ensures
        within(guard::detected_enabled(mode, verbose, t), mode),
{
    lemma_listed(t, mode);
    if let Course::Ends(r, t1) = commands::displays_listed(t) {
        if let Ok(parsed) = r {
            if let Course::Ends(_, t2) = files::list_remembered(parsed.displays, t1) {
                lemma_listed_enabled(parsed.displays, mode, verbose, false, t2);
            }
        }
    }
}

/// A safe reset turns nothing off and rearranges nothing, and in a dry run it
/// changes nothing.
pub proof fn safe_reset_turns_nothing_off(mode: ActionMode, verbose: bool, t: Seq<ReplyView>)
    ensures
        within(guard::reset_done(mode, verbose, t), mode),
{
    if let Course::Ends(_, t1) = effect::said_if(verbose, "safe reset: redetect displays"@, t) {
        if let Course::Ends(_, t2) = restore::detection_tried(mode, verbose, t1) {
            lemma_remembered_enabled(mode, verbose, t2);
            if let Course::Ends(r, t3) = guard::remembered_enabled(mode, verbose, t2) {
                if let Course::Ends(_, t4) = guard::settling_awaited(mode, t3) {
                    lemma_detected_enabled(mode, verbose, t4);
                }
            }
        }
    }
}

// ---------------------------------------------------------------------------
// The guard.
// ---------------------------------------------------------------------------
proof fn lemma_panel_switched(
    displays: Seq<DisplayView>,
    mode: ActionMode,
    verbose: bool,
    t: Seq<ReplyView>,
)
    ensures
        within(guard::panel_switched(displays, mode, verbose, t), mode),
{
    if let Some(id) = guard::off_panel(displays) {
        switching_on_turns_nothing_off(id, mode, verbose, t);
    }
}

proof fn lemma_verified(mode: ActionMode, verbose: bool, t: Seq<ReplyView>)
    ensures
        within(guard::restore_verified(mode, verbose, t), mode),
{
    lemma_listed_within(2000, t, mode);
    if let Course::Ends(r, t1) = commands::displays_listed_within(2000, t) {
        if let Ok(parsed) = r {
            if let Course::Ends(_, t2) = guard::noted(mode, parsed.displays, t1) {
                lemma_panel_switched(parsed.displays, mode, verbose, t2);
            }
        }
    }
}

/// Restoring the built-in display and nothing else, as before sleep, turns
/// nothing off, and in a dry run it changes nothing.
pub proof fn restoring_only_the_panel_turns_nothing_off(
    mode: ActionMode,
    verbose: bool,
    attempts: u32,
    t: Seq<ReplyView>,
)
    ensures
        within(guard::internal_only_restored(mode, verbose, attempts, t), mode),
{
    restoring_turns_nothing_off(None, mode, false, verbose, attempts, t);
    if let Course::Ends(r, t1) = restore::internal_restored(
        None,
        mode,
        false,
        verbose,
        attempts,
        t,
    ) {
        match r {
            Ok(_) => {
                lemma_verified(mode, verbose, t1);
            },
            Err(error) => {
                if let Course::Ends(_, t2) = effect::warned_if(
                    verbose,
                    "warning: native internal restore failed: "@ + error,
                    t1,
                ) {
                    lemma_verified(mode, verbose, t2);
                }
            },
        }
    }
}

/// What is done before sleep turns nothing off, and in a dry run it changes
/// nothing.
pub proof fn preparing_for_sleep_turns_nothing_off(mode: ActionMode, t: Seq<ReplyView>)
    ensures
        within(guard::sleep_prepared(mode, t), mode),
{
    if let Course::Ends(_, t1) = files::logged(
        "power: SystemWillSleep — restoring internal before sleep"@,
        t,
    ) {
        restoring_only_the_panel_turns_nothing_off(mode, false, 1, t1);
    }
}

proof fn lemma_guard_acted(action: GuardAction, mode: ActionMode, verbose: bool, t: Seq<ReplyView>)
    ensures
        within(guard::guard_acted(action, mode, verbose, t), mode),
{
    if let Course::Ends(_, t1) = effect::said_if(verbose, "guard: restoring internal display"@, t) {
        restoring_only_the_panel_turns_nothing_off(
            mode,
            verbose,
            restore::INTERNAL_RESTORE_ATTEMPTS,
            t1,
        );
    }
}

proof fn lemma_guard_decided(
    reason: Seq<char>,
    lid: ClamshellState,
    displays: Option<Seq<DisplayView>>,
    mode: ActionMode,
    verbose: bool,
    t: Seq<ReplyView>,
)
    ensures
        within(guard::guard_decided(reason, lid, displays, mode, verbose, t), mode),
{
    let action = policy::guard_decision(lid, displays);
    if let Course::Ends(_, t1) = guard::guard_logged(reason, lid, displays, action, t) {
        lemma_guard_acted(action, mode, verbose, t1);
    }
}

/// The guard is restore-only: it never turns a display off and never rearranges
/// the displays, and in a dry run it changes nothing.
pub proof fn guard_is_restore_only(
    reason: Seq<char>,
    mode: ActionMode,
    verbose: bool,
    t: Seq<ReplyView>,
)
    ensures
        within(guard::guarded(reason, mode, verbose, t), mode),
{
    if let Course::Ends(_, t1) = effect::said_if(verbose, "guard: reason="@ + reason, t) {
        lemma_lid(verbose, t1, mode);
        if let Course::Ends(lid, t2) = restore::lid_read(verbose, t1) {
            lemma_listed_within(2000, t2, mode);
            if let Course::Ends(r, t3) = commands::displays_listed_within(2000, t2) {
                match r {
                    Ok(parsed) => {
                        if let Course::Ends(_, t4) = guard::noted(mode, parsed.displays, t3) {
                            lemma_guard_decided(
                                reason,
                                lid,
                                Some(parsed.displays),
                                mode,
                                verbose,
                                t4,
                            );
                        }
                    },
                    Err(error) => {
                        if let Course::Ends(_, t4) = effect::warned_if(
                            verbose,
                            "warning: guard display state unavailable: "@ + error,
                            t3,
                        ) {
                            lemma_guard_decided(reason, lid, None, mode, verbose, t4);
                        }
                    },
                }
            }
        }
    }
}

/// With a closed lid, or with a display that is on, the guard changes nothing.
pub proof fn guard_leaves_displays_alone(
    reason: Seq<char>,
    lid: ClamshellState,
    displays: Seq<DisplayView>,
    mode: ActionMode,
    verbose: bool,
    t: Seq<ReplyView>,
)
    requires
        lid == ClamshellState::Closed || display::any_on(displays),
    ensures
        within(
            guard::guard_decided(reason, lid, Some(displays), mode, verbose, t),
            ActionMode::DryRun,
        ),
{
}

/// With a closed lid the guard changes nothing, though the displays are unknown.
pub proof fn guard_respects_a_closed_lid(
    reason: Seq<char>,
    displays: Option<Seq<DisplayView>>,
    mode: ActionMode,
    verbose: bool,
    t: Seq<ReplyView>,
)
    ensures
        within(
            guard::guard_decided(
                reason,
                ClamshellState::Closed,
                displays,
                mode,
                verbose,
                t,
            ),
            ActionMode::DryRun,
        ),
{
}

// ---------------------------------------------------------------------------
// Turning off.
// ---------------------------------------------------------------------------
proof fn lemma_off_is_switch(
    id: Seq<char>,
    mode: ActionMode,
    verbose: bool,
    t: Seq<ReplyView>,
    e: EffectView,
)
    requires
        commands::placer_switched(id, false, mode, verbose, t) == Course::<
            Result<Seq<char>, Seq<char>>,
        >::Asks(e),
        turns_off(e),
    ensures
        mode == ActionMode::Execute,
        e == (EffectView::Run {
            program: "displayplacer"@,
            arguments: seq![placer::switch_argument(id, false)],
        }),
{
}

/// The built-in display is turned off only where the list that was just read
/// shows it on together with another display, or `force` is set; where there is
/// a condition, its target is on. Nothing else is turned off.
pub proof fn turning_off_needs_another_display(
    condition: Option<Seq<char>>,
    mode: ActionMode,
    force: bool,
    print_skips: bool,
    verbose: bool,
    t: Seq<ReplyView>,
    e: EffectView,
)
    requires
        switching::internal_disabled(condition, mode, force, print_skips, verbose, t)
            == Course::<Result<(), Seq<char>>>::Asks(e),
        turns_off(e),
    ensures
        mode == ActionMode::Execute,
        t.len() > 0,
        ({
            let listed = commands::as_list(effect::as_ran(t[0]));
            &&& listed is Ok
            &&& display::count_on(listed->Ok_0.displays) >= 2 || force
            &&& condition is Some ==> display::answering_on(listed->Ok_0.displays, condition->0)
            &&& switching::lit_panel(listed->Ok_0.displays) is Some
            &&& switching::lit_panel(listed->Ok_0.displays)->0.persistent_id is Some
            &&& e == (EffectView::Run {
                program: "displayplacer"@,
                arguments: seq![
                    placer::switch_argument(
                        switching::lit_panel(listed->Ok_0.displays)->0.persistent_id->0,
                        false,
                    ),
                ],
            })
        }),
{
    lemma_listed(t, ActionMode::Execute);
    if let Course::Ends(r, t1) = commands::displays_listed(t) {
        if let Ok(parsed) = r {
            if let Course::Ends(_, t2) = files::list_remembered(parsed.displays, t1) {
                if let DisablePlanView::Switch(id) = switching::disable_decision(
                    parsed.displays,
                    condition,
                    force,
                ) {
                    lemma_off_is_switch(id, mode, verbose, t2, e);
                }
            }
        }
    }
}

/// A dry run of turning the built-in display off changes nothing.
pub proof fn dry_disable_changes_nothing(
    condition: Option<Seq<char>>,
    force: bool,
    print_skips: bool,
    verbose: bool,
    t: Seq<ReplyView>,
)
    ensures
        within(
            switching::internal_disabled(
                condition,
                ActionMode::DryRun,
                force,
                print_skips,
                verbose,
                t,
            ),
            ActionMode::DryRun,
        ),
{
    lemma_listed(t, ActionMode::DryRun);
    if let Course::Ends(r, t1) = commands::displays_listed(t) {
        if let Ok(parsed) = r {
            if let Course::Ends(_, t2) = files::list_remembered(parsed.displays, t1) {
                if let DisablePlanView::Switch(id) = switching::disable_decision(
                    parsed.displays,
                    condition,
                    force,
                ) {
                    lemma_placer_dry(id, false, verbose, t2);
                }
            }
        }
    }
}

/// The display that is toggled is turned off only where the list that was just
/// read shows two displays on.
pub proof fn toggling_never_turns_the_last_display_off(
    d: DisplayView,
    t: Seq<ReplyView>,
    e: EffectView,
)
    requires
        switching::display_toggled(d, t) == Course::<Result<Seq<char>, Seq<char>>>::Asks(e),
        turns_off(e),
    ensures
        d.on(),
        d.persistent_id is Some,
        t.len() > 0,
        ({
            let listed = commands::as_list(effect::as_ran(t[0]));
            &&& listed is Ok
            &&& display::count_on(listed->Ok_0.displays) >= 2
        }),
        e == (EffectView::Run {
            program: "displayplacer"@,
            arguments: seq![placer::switch_argument(d.persistent_id->0, false)],
        }),
{
    if !d.on() || d.remembered_absent {
        if let Some(id) = d.number() {
            restoring_a_number_turns_nothing_off(id, ActionMode::Execute, false, t);
        }
    } else {
        lemma_listed(t, ActionMode::Execute);
        if let Course::Ends(r, t1) = commands::displays_listed(t) {
            if let Course::Ends(r, t2) = switching::display_noted(d, t1) {
                if let Some(id) = d.persistent_id {
                    lemma_off_is_switch(id, ActionMode::Execute, false, t2, e);
                }
            }
        }
    }
}

// ---------------------------------------------------------------------------
// Watching.
// ---------------------------------------------------------------------------
/// Listing the displays for a watcher turns nothing off, and in a dry run it
/// changes nothing.
pub proof fn listing_turns_nothing_off(mode: ActionMode, verbose: bool, t: Seq<ReplyView>)
    ensures
        within(watching::listed_or_restored(mode, verbose, t), mode),
{
    lemma_listed(t, mode);
    if let Course::Ends(r, t1) = commands::displays_listed(t) {
        if let Err(error) = r {
            if let Course::Ends(_, t2) = effect::warned_if(
                verbose,
                "warning: display state unavailable; requesting internal restore: "@ + error,
                t1,
            ) {
                safety_restore_turns_nothing_off(mode, verbose, t2);
            }
        }
    }
}

proof fn lemma_watch_acted_dry(
    displays: Seq<DisplayView>,
    present: bool,
    condition: Option<Seq<char>>,
    force: bool,
    verbose: bool,
    t: Seq<ReplyView>,
)
    ensures
        within(
            watching::watch_acted(
                displays,
                present,
                condition,
                ActionMode::DryRun,
                force,
                verbose,
                t,
            ),
            ActionMode::DryRun,
        ),
{
    dry_disable_changes_nothing(condition, force, false, verbose, t);
    safety_restore_turns_nothing_off(ActionMode::DryRun, verbose, t);
}

/// A dry run of a watcher changes nothing.
pub proof fn dry_watch_changes_nothing(
    targets: Seq<TargetView>,
    name: Seq<char>,
    force: bool,
    verbose: bool,
    t: Seq<ReplyView>,
)
    ensures
        within(
            watching::targets_watched(targets, ActionMode::DryRun, force, verbose, t),
            ActionMode::DryRun,
        ),
        within(
            watching::raw_watched(name, ActionMode::DryRun, force, verbose, t),
            ActionMode::DryRun,
        ),
{
    let mode = ActionMode::DryRun;
    listing_turns_nothing_off(mode, verbose, t);
    if let Course::Ends(r, t1) = watching::listed_or_restored(mode, verbose, t) {
        if let Ok(listed) = r {
            if let Some(parsed) = listed {
                if let Course::Ends(_, t2) = files::list_remembered(parsed.displays, t1) {
                    lemma_watch_acted_dry(
                        parsed.displays,
                        target::target_connected(targets, parsed.displays),
                        None,
                        force,
                        verbose,
                        t2,
                    );
                    lemma_watch_acted_dry(
                        parsed.displays,
                        display::answering_on(parsed.displays, name),
                        Some(name),
                        force,
                        verbose,
                        t2,
                    );
                }
            }
        }
    }
}

/// While a target is there and the built-in display is off already, a watcher
/// stays quiet.
pub proof fn watcher_stays_quiet(
    displays: Seq<DisplayView>,
    condition: Option<Seq<char>>,
    mode: ActionMode,
    force: bool,
    verbose: bool,
    t: Seq<ReplyView>,
)
    requires
        !display::internal_on(displays),
    ensures
        watching::watch_acted(displays, true, condition, mode, force, verbose, t) == Course::<
            Result<AutoWatchAction, Seq<char>>,
        >::Ends(Ok(AutoWatchAction::Idle), t),
{
}

/// Where no target is there and the built-in display is on, a watcher stays
/// quiet too.
pub proof fn watcher_leaves_a_lit_panel(
    displays: Seq<DisplayView>,
    condition: Option<Seq<char>>,
    mode: ActionMode,
    force: bool,
    verbose: bool,
    t: Seq<ReplyView>,
)
    requires
        display::internal_on(displays),
    ensures
        watching::watch_acted(displays, false, condition, mode, force, verbose, t) == Course::<
            Result<AutoWatchAction, Seq<char>>,
        >::Ends(Ok(AutoWatchAction::Idle), t),
{
}

/// The loss of the built-in display is answered by nothing: after the two
/// questions that tell it is the built-in one, nothing more is asked for.
pub proof fn own_loss_is_ignored(
    targets: Seq<TargetView>,
    change: DisplayChange,
    mode: ActionMode,
    force: bool,
    verbose: bool,
    t: Seq<ReplyView>,
    internal: Option<u32>,
)
    requires
        change.loss(),
        t.len() >= 2,
        files::panel_number_read(t) == Course::<Result<Option<u32>, Seq<char>>>::Ends(
            Ok(internal),
            t.skip(1),
        ),
        effect::as_flag(t[1]) || internal == Some(change.display),
    ensures
        watching::change_answered(targets, change, mode, force, verbose, t) == Course::<
            Result<AutoWatchAction, Seq<char>>,
        >::Ends(Ok(AutoWatchAction::Idle), t.skip(2)),
{
    assert(t.skip(1)[0] == t[1]);
    assert(t.skip(1).skip(1) =~= t.skip(2));
}

// ---------------------------------------------------------------------------
// Commands.
// ---------------------------------------------------------------------------
/// With `--dry-run`, no command changes a display.
pub proof fn dry_commands_change_nothing(args: Seq<Seq<char>>, t: Seq<ReplyView>)
    ensures
        options::disable_given(args, options::disable_defaults()) matches Ok(o) ==> (o.mode
            == ActionMode::DryRun ==> within(command::disable_run(args, t), ActionMode::DryRun)),
        options::enable_given(args, options::enable_defaults()) matches Ok(o) ==> (o.mode
            == ActionMode::DryRun ==> within(command::enable_run(args, t), ActionMode::DryRun)),
        options::restore_given(args, options::restore_defaults()) matches Ok(o) ==> (o.mode
            == ActionMode::DryRun ==> within(command::restore_run(args, t), ActionMode::DryRun)),
        options::restore_display_given(args, options::restore_display_defaults()) matches Ok(o)
            ==> (o.mode == ActionMode::DryRun ==> within(
            command::restore_display_run(args, t),
            ActionMode::DryRun,
        )),
        options::redetect_given(args, options::redetect_defaults()) matches Ok(o) ==> (o.mode
            == ActionMode::DryRun ==> within(command::redetect_run(args, t), ActionMode::DryRun)),
        options::reset_given(args, options::reset_defaults()) matches Ok(o) ==> (o.mode
            == ActionMode::DryRun ==> within(command::reset_run(args, t), ActionMode::DryRun)),
        options::guard_given(args, options::guard_defaults()) matches Ok(o) ==> (o.mode
            == ActionMode::DryRun ==> within(command::guard_run(args, t), ActionMode::DryRun)),
{
    if let Ok(o) = options::disable_given(args, options::disable_defaults()) {
        dry_disable_changes_nothing(o.condition, o.force, true, true, t);
    }
    if let Ok(o) = options::enable_given(args, options::enable_defaults()) {
        if let Course::Ends(r, t1) = command::enable_id(o.id, t) {
            if let Ok(id) = r {
                if let Course::Ends(_, t2) = files::panel_remembered(id, None, None, t1) {
                    lemma_placer_dry(id, true, true, t2);
                }
            }
        }
    }
    if let Ok(o) = options::restore_given(args, options::restore_defaults()) {
        restoring_turns_nothing_off(
            o.display_id,
            o.mode,
            o.fallback,
            true,
            restore::INTERNAL_RESTORE_ATTEMPTS,
            t,
        );
    }
    if let Ok(o) = options::restore_display_given(args, options::restore_display_defaults()) {
        if let Some(id) = o.display_id {
            restoring_a_number_turns_nothing_off(id, o.mode, true, t);
        }
    }
    if let Ok(o) = options::reset_given(args, options::reset_defaults()) {
        safe_reset_turns_nothing_off(o.mode, true, t);
    }
    if let Ok(o) = options::guard_given(args, options::guard_defaults()) {
        guard_is_restore_only(o.reason, o.mode, o.verbose, t);
    }
}

/// A round of a watcher in a dry run changes nothing.
pub proof fn dry_rounds_change_nothing(w: WatchView, t: Seq<ReplyView>)
    requires
        w.mode == ActionMode::DryRun,
    ensures
        within(watch::round_made(w, t), ActionMode::DryRun),
        within(watch::watch_continued(w, t), ActionMode::DryRun),
{
    dry_round(w, t);
    if t.len() > 0 {
        dry_round(w, t.skip(1));
    }
}

proof fn dry_round(w: WatchView, t: Seq<ReplyView>)
    requires
        w.mode == ActionMode::DryRun,
    ensures
        within(watch::round_made(w, t), ActionMode::DryRun),
{
    let name = match w.target {
        Some(name) => name,
        None => Seq::empty(),
    };
    dry_watch_changes_nothing(w.targets, name, w.force, true, t);
}

proof fn lemma_lines_said(lines: Seq<Seq<char>>, t: Seq<ReplyView>)
    ensures
        within(command::lines_said(lines, t), ActionMode::DryRun),
    decreases lines.len(),
{
    if lines.len() > 0 && t.len() > 0 {
        lemma_lines_said(lines.skip(1), t.skip(1));
    }
}

proof fn lemma_probe_programs()
    ensures
        "defaults"@ != "displayplacer"@,
        "plutil"@ != "displayplacer"@,
        "system_profiler"@ != "displayplacer"@,
        "pmset"@ != "displayplacer"@,
        "ioreg"@ != "displayplacer"@,
{
    reveal_strlit("displayplacer");
    reveal_strlit("defaults");
    reveal_strlit("plutil");
    reveal_strlit("system_profiler");
    reveal_strlit("pmset");
    reveal_strlit("ioreg");
    assert("defaults"@.len() != "displayplacer"@.len());
    assert("plutil"@.len() != "displayplacer"@.len());
    assert("system_profiler"@.len() != "displayplacer"@.len());
    assert("pmset"@.len() != "displayplacer"@.len());
    assert("ioreg"@.len() != "displayplacer"@.len());
}

proof fn lemma_probed(probes: Seq<ProbeView>, body: Seq<char>, t: Seq<ReplyView>)
    requires
        forall|i: int| 0 <= i < probes.len() ==> (#[trigger] probes[i]).program != "displayplacer"@,
    ensures
        within(snapshot::probed(probes, body, t), ActionMode::DryRun),
    decreases probes.len(),
{
    if probes.len() > 0 {
        if let Course::Ends(next, t1) = snapshot::captured(
            probes[0].program,
            probes[0].arguments,
            body,
            t,
        ) {
            assert forall|i: int| 0 <= i < probes.skip(1).len() implies (#[trigger] probes.skip(
                1,
            )[i]).program != "displayplacer"@ by {
                assert(probes.skip(1)[i] == probes[i + 1]);
            }
            lemma_probed(probes.skip(1), next, t1);
        }
    }
}

proof fn lemma_gathered(label: Seq<char>, stamp: u64, t: Seq<ReplyView>)
    ensures
        within(snapshot::snapshot_gathered(label, stamp, t), ActionMode::DryRun),
{
    lemma_probe_programs();
    lemma_listed(t, ActionMode::DryRun);
    if let Course::Ends(body, t1) = snapshot::list_added(snapshot::snapshot_head(label, stamp), t) {
        if let Course::Ends(body, t2) = snapshot::preferences_added(body, t1) {
            lemma_probed(snapshot::all_probes(), body, t2);
        }
    }
}

/// The commands that only look at the displays change nothing.
pub proof fn looking_changes_nothing(args: Seq<Seq<char>>, t: Seq<ReplyView>)
    ensures
        within(command::list_run(t), ActionMode::DryRun),
        within(command::targets_run(args, t), ActionMode::DryRun),
        within(snapshot::snapshot_run(args, t), ActionMode::DryRun),
{
    lemma_listed(t, ActionMode::DryRun);
    if let Course::Ends(r, t1) = commands::displays_listed(t) {
        if let Ok(parsed) = r {
            if let Course::Ends(_, t2) = files::list_remembered(parsed.displays, t1) {
                lemma_lines_said(command::listing_lines(parsed), t2);
            }
        }
    }
    if let Course::Ends(r, t1) = files::targets_loaded(t) {
        if let Ok(targets) = r {
            lemma_lines_said(command::targets_lines(targets), t1);
        }
    }
    if let Ok(o) = options::snapshot_given(args, options::snapshot_defaults()) {
        if t.len() >= 2 {
            if let Ok(stamp) = effect::as_stamp(t.skip(1)[0]) {
                lemma_gathered(o.label, stamp, t.skip(1).skip(1));
            }
        }
    }
}

// ---------------------------------------------------------------------------
// The arrangement.
// ---------------------------------------------------------------------------
/// What is permitted rearranges nothing, in a dry run or not.
pub proof fn lemma_permitted_keeps<T>(c: Course<T>, mode: ActionMode)
    requires
        within(c, mode),
    ensures
        rearranges_nothing(c),
{
}

/// The guard never rearranges the displays: where it runs `displayplacer`, it is
/// to list them or to turn one on.
pub proof fn guard_rearranges_nothing(
    reason: Seq<char>,
    mode: ActionMode,
    verbose: bool,
    t: Seq<ReplyView>,
)
    ensures
        rearranges_nothing(guard::guarded(reason, mode, verbose, t)),
{
    guard_is_restore_only(reason, mode, verbose, t);
    lemma_permitted_keeps(guard::guarded(reason, mode, verbose, t), mode);
}

/// A safe reset never rearranges the displays either.
pub proof fn safe_reset_rearranges_nothing(mode: ActionMode, verbose: bool, t: Seq<ReplyView>)
    ensures
        rearranges_nothing(guard::reset_done(mode, verbose, t)),
{
    safe_reset_turns_nothing_off(mode, verbose, t);
    lemma_permitted_keeps(guard::reset_done(mode, verbose, t), mode);
}

} // verus!
