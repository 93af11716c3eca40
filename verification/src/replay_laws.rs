//! A longer tape is read as the shorter one first: what a procedure ended with
//! over some replies, it ends with again over those replies and more, and it
//! leaves the further ones unread.
//!
//! This holds of every procedure, and so of every part of one. When a procedure is
//! run again with one reply more, the parts that had ended end as before, and the
//! new reply goes to the part that asked for it.

use vstd::prelude::*;

use crate::command;
use crate::commands;
use crate::display::DisplayView;
use crate::effect;
use crate::effect::{Course, EffectView, Input, Key, ReplyView};
use crate::files;
use crate::guard;
use crate::install;
use crate::install::GuardPlistView;
use crate::interactive;
use crate::interactive::UiView;
use crate::native;
use crate::options::{InstallOptions, SnapshotOptionsView, UninstallOptions};
use crate::path::FilePathView;
use crate::policy::{
    ActionMode, AutoWatchAction, ClamshellState, DisplayChange, GuardAction, PowerEvent,
};
use crate::restore;
use crate::restore::TrialView;
use crate::screen::SpanView;
use crate::snapshot;
use crate::snapshot::ProbeView;
use crate::switching;
use crate::target::TargetView;
use crate::watch;
use crate::watch::WatchView;
use crate::watching;

verus! {

/// `now` is what a procedure comes to over a tape, `later` what it comes to over
/// that tape with `more` behind it. Where it ended, it ends with the same value
/// again, and leaves what it left, with `more` behind that.
pub open spec fn goes_on<T>(now: Course<T>, later: Course<T>, more: Seq<ReplyView>) -> bool {
    match now {
        Course::Asks(_) => true,
        Course::Ends(value, rest) => later == Course::Ends(value, rest + more),
    }
}

proof fn lemma_front(t: Seq<ReplyView>, more: Seq<ReplyView>)
    requires
        t.len() > 0,
    ensures
        (t + more)[0] == t[0],
        (t + more).skip(1) == t.skip(1) + more,
{
    assert((t + more).skip(1) =~= t.skip(1) + more);
}

// ---------------------------------------------------------------------------
// Effects.
// ---------------------------------------------------------------------------
pub broadcast proof fn asks_any_goes_on(effect: EffectView, t: Seq<ReplyView>, more: Seq<ReplyView>)
    ensures
        goes_on(effect::asks_any(effect, t), #[trigger] effect::asks_any(effect, t + more), more),
{
    if t.len() > 0 {
        lemma_front(t, more);
    }
}

pub broadcast proof fn said_goes_on(line: Seq<char>, t: Seq<ReplyView>, more: Seq<ReplyView>)
    ensures
        goes_on(effect::said(line, t), #[trigger] effect::said(line, t + more), more),
{
    broadcast use asks_any_goes_on;

}

pub broadcast proof fn asks_ran_goes_on(effect: EffectView, t: Seq<ReplyView>, more: Seq<ReplyView>)
    ensures
        goes_on(effect::asks_ran(effect, t), #[trigger] effect::asks_ran(effect, t + more), more),
{
    if t.len() > 0 {
        lemma_front(t, more);
    }
}

pub broadcast proof fn asks_file_goes_on(
    effect: EffectView,
    t: Seq<ReplyView>,
    more: Seq<ReplyView>,
)
    ensures
        goes_on(effect::asks_file(effect, t), #[trigger] effect::asks_file(effect, t + more), more),
{
    if t.len() > 0 {
        lemma_front(t, more);
    }
}

pub broadcast proof fn asks_done_goes_on(
    effect: EffectView,
    t: Seq<ReplyView>,
    more: Seq<ReplyView>,
)
    ensures
        goes_on(effect::asks_done(effect, t), #[trigger] effect::asks_done(effect, t + more), more),
{
    if t.len() > 0 {
        lemma_front(t, more);
    }
}

pub broadcast proof fn warned_goes_on(line: Seq<char>, t: Seq<ReplyView>, more: Seq<ReplyView>)
    ensures
        goes_on(effect::warned(line, t), #[trigger] effect::warned(line, t + more), more),
{
    broadcast use asks_any_goes_on;

}

pub broadcast proof fn asks_removed_goes_on(
    effect: EffectView,
    t: Seq<ReplyView>,
    more: Seq<ReplyView>,
)
    ensures
        goes_on(
            effect::asks_removed(effect, t),
            #[trigger] effect::asks_removed(effect, t + more),
            more,
        ),
{
    if t.len() > 0 {
        lemma_front(t, more);
    }
}

pub broadcast proof fn said_if_goes_on(
    verbose: bool,
    line: Seq<char>,
    t: Seq<ReplyView>,
    more: Seq<ReplyView>,
)
    ensures
        goes_on(
            effect::said_if(verbose, line, t),
            #[trigger] effect::said_if(verbose, line, t + more),
            more,
        ),
{
    broadcast use said_goes_on;

}

pub broadcast proof fn warned_if_goes_on(
    verbose: bool,
    line: Seq<char>,
    t: Seq<ReplyView>,
    more: Seq<ReplyView>,
)
    ensures
        goes_on(
            effect::warned_if(verbose, line, t),
            #[trigger] effect::warned_if(verbose, line, t + more),
            more,
        ),
{
    broadcast use warned_goes_on;

}

pub broadcast proof fn asks_code_goes_on(
    effect: EffectView,
    t: Seq<ReplyView>,
    more: Seq<ReplyView>,
)
    ensures
        goes_on(effect::asks_code(effect, t), #[trigger] effect::asks_code(effect, t + more), more),
{
    if t.len() > 0 {
        lemma_front(t, more);
    }
}

pub broadcast proof fn asks_stamp_goes_on(
    effect: EffectView,
    t: Seq<ReplyView>,
    more: Seq<ReplyView>,
)
    ensures
        goes_on(
            effect::asks_stamp(effect, t),
            #[trigger] effect::asks_stamp(effect, t + more),
            more,
        ),
{
    if t.len() > 0 {
        lemma_front(t, more);
    }
}

pub broadcast proof fn asks_flag_goes_on(
    effect: EffectView,
    t: Seq<ReplyView>,
    more: Seq<ReplyView>,
)
    ensures
        goes_on(effect::asks_flag(effect, t), #[trigger] effect::asks_flag(effect, t + more), more),
{
    if t.len() > 0 {
        lemma_front(t, more);
    }
}

pub broadcast proof fn asks_numbers_goes_on(
    effect: EffectView,
    t: Seq<ReplyView>,
    more: Seq<ReplyView>,
)
    ensures
        goes_on(
            effect::asks_numbers(effect, t),
            #[trigger] effect::asks_numbers(effect, t + more),
            more,
        ),
{
    if t.len() > 0 {
        lemma_front(t, more);
    }
}

pub broadcast proof fn asks_nanos_goes_on(
    effect: EffectView,
    t: Seq<ReplyView>,
    more: Seq<ReplyView>,
)
    ensures
        goes_on(
            effect::asks_nanos(effect, t),
            #[trigger] effect::asks_nanos(effect, t + more),
            more,
        ),
{
    if t.len() > 0 {
        lemma_front(t, more);
    }
}

pub broadcast proof fn asks_ended_goes_on(
    effect: EffectView,
    t: Seq<ReplyView>,
    more: Seq<ReplyView>,
)
    ensures
        goes_on(
            effect::asks_ended(effect, t),
            #[trigger] effect::asks_ended(effect, t + more),
            more,
        ),
{
    if t.len() > 0 {
        lemma_front(t, more);
    }
}

pub broadcast proof fn asks_text_goes_on(
    effect: EffectView,
    t: Seq<ReplyView>,
    more: Seq<ReplyView>,
)
    ensures
        goes_on(effect::asks_text(effect, t), #[trigger] effect::asks_text(effect, t + more), more),
{
    if t.len() > 0 {
        lemma_front(t, more);
    }
}

pub broadcast proof fn asks_variable_goes_on(
    effect: EffectView,
    t: Seq<ReplyView>,
    more: Seq<ReplyView>,
)
    ensures
        goes_on(
            effect::asks_variable(effect, t),
            #[trigger] effect::asks_variable(effect, t + more),
            more,
        ),
{
    if t.len() > 0 {
        lemma_front(t, more);
    }
}

pub broadcast proof fn asks_columns_goes_on(
    effect: EffectView,
    t: Seq<ReplyView>,
    more: Seq<ReplyView>,
)
    ensures
        goes_on(
            effect::asks_columns(effect, t),
            #[trigger] effect::asks_columns(effect, t + more),
            more,
        ),
{
    if t.len() > 0 {
        lemma_front(t, more);
    }
}

pub broadcast proof fn asks_input_goes_on(
    effect: EffectView,
    t: Seq<ReplyView>,
    more: Seq<ReplyView>,
)
    ensures
        goes_on(
            effect::asks_input(effect, t),
            #[trigger] effect::asks_input(effect, t + more),
            more,
        ),
{
    if t.len() > 0 {
        lemma_front(t, more);
    }
}

pub broadcast proof fn asks_watch_goes_on(
    effect: EffectView,
    t: Seq<ReplyView>,
    more: Seq<ReplyView>,
)
    ensures
        goes_on(
            effect::asks_watch(effect, t),
            #[trigger] effect::asks_watch(effect, t + more),
            more,
        ),
{
    if t.len() > 0 {
        lemma_front(t, more);
    }
}

pub broadcast proof fn asks_awaited_goes_on(
    effect: EffectView,
    t: Seq<ReplyView>,
    more: Seq<ReplyView>,
)
    ensures
        goes_on(
            effect::asks_awaited(effect, t),
            #[trigger] effect::asks_awaited(effect, t + more),
            more,
        ),
{
    if t.len() > 0 {
        lemma_front(t, more);
    }
}

pub broadcast proof fn asks_power_goes_on(
    effect: EffectView,
    t: Seq<ReplyView>,
    more: Seq<ReplyView>,
)
    ensures
        goes_on(
            effect::asks_power(effect, t),
            #[trigger] effect::asks_power(effect, t + more),
            more,
        ),
{
    if t.len() > 0 {
        lemma_front(t, more);
    }
}

// ---------------------------------------------------------------------------
// Files.
// ---------------------------------------------------------------------------
pub broadcast proof fn file_read_goes_on(name: Seq<char>, t: Seq<ReplyView>, more: Seq<ReplyView>)
    ensures
        goes_on(files::file_read(name, t), #[trigger] files::file_read(name, t + more), more),
{
    broadcast use asks_file_goes_on;

}

pub broadcast proof fn file_written_goes_on(
    name: Seq<char>,
    body: Seq<char>,
    t: Seq<ReplyView>,
    more: Seq<ReplyView>,
)
    ensures
        goes_on(
            files::file_written(name, body, t),
            #[trigger] files::file_written(name, body, t + more),
            more,
        ),
{
    broadcast use asks_done_goes_on;

}

pub broadcast proof fn remembered_goes_on(
    seen: Seq<DisplayView>,
    t: Seq<ReplyView>,
    more: Seq<ReplyView>,
)
    ensures
        goes_on(files::remembered(seen, t), #[trigger] files::remembered(seen, t + more), more),
{
    broadcast use {file_read_goes_on, file_written_goes_on};

}

pub broadcast proof fn write_warned_goes_on(
    r: Result<(), Seq<char>>,
    t: Seq<ReplyView>,
    more: Seq<ReplyView>,
)
    ensures
        goes_on(files::write_warned(r, t), #[trigger] files::write_warned(r, t + more), more),
{
    broadcast use warned_goes_on;

}

pub broadcast proof fn list_remembered_goes_on(
    seen: Seq<DisplayView>,
    t: Seq<ReplyView>,
    more: Seq<ReplyView>,
)
    ensures
        goes_on(
            files::list_remembered(seen, t),
            #[trigger] files::list_remembered(seen, t + more),
            more,
        ),
{
    broadcast use {remembered_goes_on, write_warned_goes_on};

}

pub broadcast proof fn file_removed_goes_on(
    name: Seq<char>,
    t: Seq<ReplyView>,
    more: Seq<ReplyView>,
)
    ensures
        goes_on(files::file_removed(name, t), #[trigger] files::file_removed(name, t + more), more),
{
    broadcast use asks_removed_goes_on;

}

pub broadcast proof fn targets_saved_goes_on(
    targets: Seq<TargetView>,
    t: Seq<ReplyView>,
    more: Seq<ReplyView>,
)
    ensures
        goes_on(
            files::targets_saved(targets, t),
            #[trigger] files::targets_saved(targets, t + more),
            more,
        ),
{
    broadcast use {file_written_goes_on, file_removed_goes_on};

}

pub broadcast proof fn targets_loaded_goes_on(t: Seq<ReplyView>, more: Seq<ReplyView>)
    ensures
        goes_on(files::targets_loaded(t), #[trigger] files::targets_loaded(t + more), more),
{
    broadcast use file_read_goes_on;

}

pub broadcast proof fn value_read_goes_on(key: Seq<char>, t: Seq<ReplyView>, more: Seq<ReplyView>)
    ensures
        goes_on(files::value_read(key, t), #[trigger] files::value_read(key, t + more), more),
{
    broadcast use file_read_goes_on;

}

pub broadcast proof fn panel_remembered_goes_on(
    id: Seq<char>,
    serial: Option<Seq<char>>,
    number: Option<Seq<char>>,
    t: Seq<ReplyView>,
    more: Seq<ReplyView>,
)
    ensures
        goes_on(
            files::panel_remembered(id, serial, number, t),
            #[trigger] files::panel_remembered(id, serial, number, t + more),
            more,
        ),
{
    broadcast use {file_written_goes_on, write_warned_goes_on};

}

pub broadcast proof fn panel_number_read_goes_on(t: Seq<ReplyView>, more: Seq<ReplyView>)
    ensures
        goes_on(files::panel_number_read(t), #[trigger] files::panel_number_read(t + more), more),
{
    broadcast use file_read_goes_on;

}

pub broadcast proof fn logged_goes_on(message: Seq<char>, t: Seq<ReplyView>, more: Seq<ReplyView>)
    ensures
        goes_on(files::logged(message, t), #[trigger] files::logged(message, t + more), more),
{
    broadcast use {asks_any_goes_on, asks_done_goes_on, asks_stamp_goes_on};

}

pub broadcast proof fn number_remembered_goes_on(n: u32, t: Seq<ReplyView>, more: Seq<ReplyView>)
    ensures
        goes_on(
            files::number_remembered(n, t),
            #[trigger] files::number_remembered(n, t + more),
            more,
        ),
{
    broadcast use {file_read_goes_on, file_written_goes_on};

}

pub broadcast proof fn values_read_goes_on(key: Seq<char>, t: Seq<ReplyView>, more: Seq<ReplyView>)
    ensures
        goes_on(files::values_read(key, t), #[trigger] files::values_read(key, t + more), more),
{
    broadcast use file_read_goes_on;

}

pub broadcast proof fn numbers_read_goes_on(t: Seq<ReplyView>, more: Seq<ReplyView>)
    ensures
        goes_on(files::numbers_read(t), #[trigger] files::numbers_read(t + more), more),
{
    broadcast use {value_read_goes_on, values_read_goes_on};

}

pub broadcast proof fn summary_read_goes_on(t: Seq<ReplyView>, more: Seq<ReplyView>)
    ensures
        goes_on(files::summary_read(t), #[trigger] files::summary_read(t + more), more),
{
    broadcast use value_read_goes_on;

}

pub broadcast proof fn displays_merged_goes_on(
    live: Seq<DisplayView>,
    t: Seq<ReplyView>,
    more: Seq<ReplyView>,
)
    ensures
        goes_on(
            files::displays_merged(live, t),
            #[trigger] files::displays_merged(live, t + more),
            more,
        ),
{
    broadcast use file_read_goes_on;

}

pub broadcast proof fn target_toggled_goes_on(
    d: DisplayView,
    t: Seq<ReplyView>,
    more: Seq<ReplyView>,
)
    ensures
        goes_on(files::target_toggled(d, t), #[trigger] files::target_toggled(d, t + more), more),
{
    broadcast use {remembered_goes_on, targets_saved_goes_on, targets_loaded_goes_on};

}

// ---------------------------------------------------------------------------
// Commands.
// ---------------------------------------------------------------------------
pub broadcast proof fn displays_listed_goes_on(t: Seq<ReplyView>, more: Seq<ReplyView>)
    ensures
        goes_on(commands::displays_listed(t), #[trigger] commands::displays_listed(t + more), more),
{
    broadcast use asks_ran_goes_on;

}

pub broadcast proof fn placer_switched_goes_on(
    id: Seq<char>,
    enabled: bool,
    mode: ActionMode,
    verbose: bool,
    t: Seq<ReplyView>,
    more: Seq<ReplyView>,
)
    ensures
        goes_on(
            commands::placer_switched(id, enabled, mode, verbose, t),
            #[trigger] commands::placer_switched(id, enabled, mode, verbose, t + more),
            more,
        ),
{
    broadcast use {asks_any_goes_on, asks_ran_goes_on, said_if_goes_on};

}

pub broadcast proof fn end_awaited_goes_on(
    program: Seq<char>,
    arguments: Seq<Seq<char>>,
    timeout_ms: u32,
    start: u64,
    t: Seq<ReplyView>,
    more: Seq<ReplyView>,
)
    ensures
        goes_on(
            commands::end_awaited(program, arguments, timeout_ms, start, t),
            #[trigger] commands::end_awaited(program, arguments, timeout_ms, start, t + more),
            more,
        ),
    decreases t.len(),
{
    broadcast use {asks_any_goes_on, asks_ran_goes_on, asks_nanos_goes_on, asks_ended_goes_on};

    assert forall|s: Seq<ReplyView>| s.len() < t.len() implies goes_on(
        commands::end_awaited(program, arguments, timeout_ms, start, s),
        commands::end_awaited(program, arguments, timeout_ms, start, #[trigger] (s + more)),
        more,
    ) by {
        end_awaited_goes_on(program, arguments, timeout_ms, start, s, more);
    }
}

pub broadcast proof fn timed_run_goes_on(
    program: Seq<char>,
    arguments: Seq<Seq<char>>,
    timeout_ms: u32,
    t: Seq<ReplyView>,
    more: Seq<ReplyView>,
)
    ensures
        goes_on(
            commands::timed_run(program, arguments, timeout_ms, t),
            #[trigger] commands::timed_run(program, arguments, timeout_ms, t + more),
            more,
        ),
{
    broadcast use {asks_done_goes_on, asks_nanos_goes_on, end_awaited_goes_on};

}

pub broadcast proof fn displays_listed_within_goes_on(
    timeout_ms: u32,
    t: Seq<ReplyView>,
    more: Seq<ReplyView>,
)
    ensures
        goes_on(
            commands::displays_listed_within(timeout_ms, t),
            #[trigger] commands::displays_listed_within(timeout_ms, t + more),
            more,
        ),
{
    broadcast use timed_run_goes_on;

}

// ---------------------------------------------------------------------------
// The window server.
// ---------------------------------------------------------------------------
pub broadcast proof fn detected_goes_on(
    mode: ActionMode,
    verbose: bool,
    t: Seq<ReplyView>,
    more: Seq<ReplyView>,
)
    ensures
        goes_on(
            native::detected(mode, verbose, t),
            #[trigger] native::detected(mode, verbose, t + more),
            more,
        ),
{
    broadcast use {asks_done_goes_on, said_if_goes_on};

}

pub broadcast proof fn configured_goes_on(
    id: u32,
    enabled: bool,
    t: Seq<ReplyView>,
    more: Seq<ReplyView>,
)
    ensures
        goes_on(
            native::configured(id, enabled, t),
            #[trigger] native::configured(id, enabled, t + more),
            more,
        ),
{
    broadcast use {asks_any_goes_on, asks_code_goes_on, logged_goes_on};

}

pub broadcast proof fn native_switched_goes_on(
    id: u32,
    enabled: bool,
    mode: ActionMode,
    verbose: bool,
    t: Seq<ReplyView>,
    more: Seq<ReplyView>,
)
    ensures
        goes_on(
            native::native_switched(id, enabled, mode, verbose, t),
            #[trigger] native::native_switched(id, enabled, mode, verbose, t + more),
            more,
        ),
{
    broadcast use {said_if_goes_on, asks_code_goes_on, configured_goes_on};

}

pub broadcast proof fn builtin_among_goes_on(ids: Seq<u32>, t: Seq<ReplyView>, more: Seq<ReplyView>)
    ensures
        goes_on(
            native::builtin_among(ids, t),
            #[trigger] native::builtin_among(ids, t + more),
            more,
        ),
    decreases ids.len(),
{
    broadcast use asks_flag_goes_on;

    if ids.len() > 0 {
        assert forall|s: Seq<ReplyView>| goes_on(
            native::builtin_among(ids.skip(1), s),
            native::builtin_among(ids.skip(1), #[trigger] (s + more)),
            more,
        ) by {
            builtin_among_goes_on(ids.skip(1), s, more);
        }
    }
}

pub broadcast proof fn builtin_found_goes_on(t: Seq<ReplyView>, more: Seq<ReplyView>)
    ensures
        goes_on(native::builtin_found(t), #[trigger] native::builtin_found(t + more), more),
{
    broadcast use {asks_numbers_goes_on, builtin_among_goes_on};

}

pub broadcast proof fn activity_found_goes_on(t: Seq<ReplyView>, more: Seq<ReplyView>)
    ensures
        goes_on(native::activity_found(t), #[trigger] native::activity_found(t + more), more),
{
    broadcast use {asks_flag_goes_on, builtin_found_goes_on};

}

pub broadcast proof fn activity_awaited_goes_on(
    start: u64,
    timeout_ms: u32,
    t: Seq<ReplyView>,
    more: Seq<ReplyView>,
)
    ensures
        goes_on(
            native::activity_awaited(start, timeout_ms, t),
            #[trigger] native::activity_awaited(start, timeout_ms, t + more),
            more,
        ),
    decreases t.len(),
{
    broadcast use {asks_any_goes_on, asks_nanos_goes_on, activity_found_goes_on};

    native::lemma_activity_shrinks(t);
    assert forall|s: Seq<ReplyView>| s.len() < t.len() implies goes_on(
        native::activity_awaited(start, timeout_ms, s),
        native::activity_awaited(start, timeout_ms, #[trigger] (s + more)),
        more,
    ) by {
        activity_awaited_goes_on(start, timeout_ms, s, more);
    }
}

pub broadcast proof fn activity_waited_goes_on(
    timeout_ms: u32,
    t: Seq<ReplyView>,
    more: Seq<ReplyView>,
)
    ensures
        goes_on(
            native::activity_waited(timeout_ms, t),
            #[trigger] native::activity_waited(timeout_ms, t + more),
            more,
        ),
{
    broadcast use {asks_nanos_goes_on, activity_awaited_goes_on};

}

// ---------------------------------------------------------------------------
// Restoring.
// ---------------------------------------------------------------------------
pub broadcast proof fn fallback_tried_goes_on(
    mode: ActionMode,
    verbose: bool,
    t: Seq<ReplyView>,
    more: Seq<ReplyView>,
)
    ensures
        goes_on(
            restore::fallback_tried(mode, verbose, t),
            #[trigger] restore::fallback_tried(mode, verbose, t + more),
            more,
        ),
{
    broadcast use {warned_if_goes_on, value_read_goes_on, placer_switched_goes_on};

}

pub broadcast proof fn attempt_prepared_goes_on(
    attempt: u32,
    t: Seq<ReplyView>,
    more: Seq<ReplyView>,
)
    ensures
        goes_on(
            restore::attempt_prepared(attempt, t),
            #[trigger] restore::attempt_prepared(attempt, t + more),
            more,
        ),
{
    broadcast use {asks_any_goes_on, detected_goes_on};

}

pub broadcast proof fn numbers_tried_goes_on(
    ids: Seq<u32>,
    verbose: bool,
    error: Option<Seq<char>>,
    t: Seq<ReplyView>,
    more: Seq<ReplyView>,
)
    ensures
        goes_on(
            restore::numbers_tried(ids, verbose, error, t),
            #[trigger] restore::numbers_tried(ids, verbose, error, t + more),
            more,
        ),
    decreases ids.len(),
{
    broadcast use {
        logged_goes_on,
        number_remembered_goes_on,
        native_switched_goes_on,
        activity_waited_goes_on,
    };

    if ids.len() > 0 {
        assert forall|s: Seq<ReplyView>| goes_on(
            restore::numbers_tried(ids.skip(1), verbose, Some(restore::dark_text(ids[0])), s),
            restore::numbers_tried(ids.skip(1), verbose, Some(restore::dark_text(ids[0])), #[trigger] (s + more)),
            more,
        ) by {
            numbers_tried_goes_on(ids.skip(1), verbose, Some(restore::dark_text(ids[0])), s, more);
        }
        if let Course::Ends(Err(reason), s) = native::native_switched(
            ids[0],
            true,
            ActionMode::Execute,
            verbose,
            t,
        ) {
            numbers_tried_goes_on(ids.skip(1), verbose, Some(reason), s, more);
        }
    }
}

pub broadcast proof fn attempted_goes_on(
    explicit: Option<u32>,
    attempt: u32,
    attempts: u32,
    verbose: bool,
    error: Option<Seq<char>>,
    t: Seq<ReplyView>,
    more: Seq<ReplyView>,
)
    ensures
        goes_on(
            restore::attempted(explicit, attempt, attempts, verbose, error, t),
            #[trigger] restore::attempted(explicit, attempt, attempts, verbose, error, t + more),
            more,
        ),
{
    broadcast use {
        panel_number_read_goes_on,
        logged_goes_on,
        builtin_found_goes_on,
        activity_found_goes_on,
        numbers_tried_goes_on,
    };

}

pub broadcast proof fn attempts_made_goes_on(
    explicit: Option<u32>,
    attempt: u32,
    last: u32,
    attempts: u32,
    verbose: bool,
    error: Option<Seq<char>>,
    t: Seq<ReplyView>,
    more: Seq<ReplyView>,
)
    ensures
        goes_on(
            restore::attempts_made(explicit, attempt, last, attempts, verbose, error, t),
            #[trigger] restore::attempts_made(explicit, attempt, last, attempts, verbose, error, t + more),
            more,
        ),
    decreases last - attempt,
{
    broadcast use {attempt_prepared_goes_on, attempted_goes_on};

    if attempt < last {
        if let Course::Ends(_, s1) = restore::attempt_prepared(attempt, t) {
            if let Course::Ends(TrialView::Failed(reason), s) = restore::attempted(
                explicit,
                attempt,
                attempts,
                verbose,
                error,
                s1,
            ) {
                attempts_made_goes_on(
                    explicit,
                    (attempt + 1) as u32,
                    last,
                    attempts,
                    verbose,
                    reason,
                    s,
                    more,
                );
            }
        }
    }
}

pub broadcast proof fn internal_enabled_goes_on(
    explicit: Option<u32>,
    attempts: u32,
    mode: ActionMode,
    verbose: bool,
    t: Seq<ReplyView>,
    more: Seq<ReplyView>,
)
    ensures
        goes_on(
            restore::internal_enabled(explicit, attempts, mode, verbose, t),
            #[trigger] restore::internal_enabled(explicit, attempts, mode, verbose, t + more),
            more,
        ),
{
    broadcast use {panel_number_read_goes_on, native_switched_goes_on, attempts_made_goes_on};

}

pub broadcast proof fn internal_restored_goes_on(
    explicit: Option<u32>,
    mode: ActionMode,
    fallback: bool,
    verbose: bool,
    attempts: u32,
    t: Seq<ReplyView>,
    more: Seq<ReplyView>,
)
    ensures
        goes_on(
            restore::internal_restored(explicit, mode, fallback, verbose, attempts, t),
            #[trigger] restore::internal_restored(explicit, mode, fallback, verbose, attempts, t + more),
            more,
        ),
{
    broadcast use {detected_goes_on, fallback_tried_goes_on, internal_enabled_goes_on};

}

pub broadcast proof fn number_restored_goes_on(
    id: u32,
    mode: ActionMode,
    verbose: bool,
    t: Seq<ReplyView>,
    more: Seq<ReplyView>,
)
    ensures
        goes_on(
            restore::number_restored(id, mode, verbose, t),
            #[trigger] restore::number_restored(id, mode, verbose, t + more),
            more,
        ),
{
    broadcast use {detected_goes_on, native_switched_goes_on};

}

pub broadcast proof fn detection_tried_goes_on(
    mode: ActionMode,
    verbose: bool,
    t: Seq<ReplyView>,
    more: Seq<ReplyView>,
)
    ensures
        goes_on(
            restore::detection_tried(mode, verbose, t),
            #[trigger] restore::detection_tried(mode, verbose, t + more),
            more,
        ),
{
    broadcast use {warned_if_goes_on, detected_goes_on};

}

pub broadcast proof fn lid_read_goes_on(verbose: bool, t: Seq<ReplyView>, more: Seq<ReplyView>)
    ensures
        goes_on(
            restore::lid_read(verbose, t),
            #[trigger] restore::lid_read(verbose, t + more),
            more,
        ),
{
    broadcast use {warned_if_goes_on, timed_run_goes_on};

}

pub broadcast proof fn safety_restored_goes_on(
    mode: ActionMode,
    verbose: bool,
    t: Seq<ReplyView>,
    more: Seq<ReplyView>,
)
    ensures
        goes_on(
            restore::safety_restored(mode, verbose, t),
            #[trigger] restore::safety_restored(mode, verbose, t + more),
            more,
        ),
{
    broadcast use {
        said_if_goes_on,
        logged_goes_on,
        internal_enabled_goes_on,
        detection_tried_goes_on,
        lid_read_goes_on,
    };

}

// ---------------------------------------------------------------------------
// The guard and the safe reset.
// ---------------------------------------------------------------------------
pub broadcast proof fn listed_enabled_goes_on(
    displays: Seq<DisplayView>,
    mode: ActionMode,
    verbose: bool,
    any: bool,
    t: Seq<ReplyView>,
    more: Seq<ReplyView>,
)
    ensures
        goes_on(
            guard::listed_enabled(displays, mode, verbose, any, t),
            #[trigger] guard::listed_enabled(displays, mode, verbose, any, t + more),
            more,
        ),
    decreases displays.len(),
{
    broadcast use {said_if_goes_on, warned_if_goes_on, placer_switched_goes_on};

    if displays.len() > 0 {
        assert forall|s: Seq<ReplyView>| goes_on(
            guard::listed_enabled(displays.skip(1), mode, verbose, any, s),
            guard::listed_enabled(displays.skip(1), mode, verbose, any, #[trigger] (s + more)),
            more,
        ) by {
            listed_enabled_goes_on(displays.skip(1), mode, verbose, any, s, more);
        }
        assert forall|s: Seq<ReplyView>| goes_on(
            guard::listed_enabled(displays.skip(1), mode, verbose, true, s),
            guard::listed_enabled(displays.skip(1), mode, verbose, true, #[trigger] (s + more)),
            more,
        ) by {
            listed_enabled_goes_on(displays.skip(1), mode, verbose, true, s, more);
        }
    }
}

pub broadcast proof fn detected_enabled_goes_on(
    mode: ActionMode,
    verbose: bool,
    t: Seq<ReplyView>,
    more: Seq<ReplyView>,
)
    ensures
        goes_on(
            guard::detected_enabled(mode, verbose, t),
            #[trigger] guard::detected_enabled(mode, verbose, t + more),
            more,
        ),
{
    broadcast use {
        said_if_goes_on,
        warned_if_goes_on,
        list_remembered_goes_on,
        displays_listed_goes_on,
        listed_enabled_goes_on,
    };

}

pub broadcast proof fn numbers_enabled_goes_on(
    ids: Seq<u32>,
    mode: ActionMode,
    verbose: bool,
    t: Seq<ReplyView>,
    more: Seq<ReplyView>,
)
    ensures
        goes_on(
            guard::numbers_enabled(ids, mode, verbose, t),
            #[trigger] guard::numbers_enabled(ids, mode, verbose, t + more),
            more,
        ),
    decreases ids.len(),
{
    broadcast use {said_if_goes_on, warned_if_goes_on, native_switched_goes_on};

    if ids.len() > 0 {
        assert forall|s: Seq<ReplyView>| goes_on(
            guard::numbers_enabled(ids.skip(1), mode, verbose, s),
            guard::numbers_enabled(ids.skip(1), mode, verbose, #[trigger] (s + more)),
            more,
        ) by {
            numbers_enabled_goes_on(ids.skip(1), mode, verbose, s, more);
        }
    }
}

pub broadcast proof fn remembered_enabled_goes_on(
    mode: ActionMode,
    verbose: bool,
    t: Seq<ReplyView>,
    more: Seq<ReplyView>,
)
    ensures
        goes_on(
            guard::remembered_enabled(mode, verbose, t),
            #[trigger] guard::remembered_enabled(mode, verbose, t + more),
            more,
        ),
{
    broadcast use {warned_if_goes_on, numbers_read_goes_on, numbers_enabled_goes_on};

}

pub broadcast proof fn settling_awaited_goes_on(
    mode: ActionMode,
    t: Seq<ReplyView>,
    more: Seq<ReplyView>,
)
    ensures
        goes_on(
            guard::settling_awaited(mode, t),
            #[trigger] guard::settling_awaited(mode, t + more),
            more,
        ),
{
    broadcast use asks_any_goes_on;

}

pub broadcast proof fn reset_done_goes_on(
    mode: ActionMode,
    verbose: bool,
    t: Seq<ReplyView>,
    more: Seq<ReplyView>,
)
    ensures
        goes_on(
            guard::reset_done(mode, verbose, t),
            #[trigger] guard::reset_done(mode, verbose, t + more),
            more,
        ),
{
    broadcast use {
        said_if_goes_on,
        detection_tried_goes_on,
        detected_enabled_goes_on,
        remembered_enabled_goes_on,
        settling_awaited_goes_on,
    };

}

pub broadcast proof fn noted_goes_on(
    mode: ActionMode,
    displays: Seq<DisplayView>,
    t: Seq<ReplyView>,
    more: Seq<ReplyView>,
)
    ensures
        goes_on(
            guard::noted(mode, displays, t),
            #[trigger] guard::noted(mode, displays, t + more),
            more,
        ),
{
    broadcast use list_remembered_goes_on;

}

pub broadcast proof fn panel_switched_goes_on(
    displays: Seq<DisplayView>,
    mode: ActionMode,
    verbose: bool,
    t: Seq<ReplyView>,
    more: Seq<ReplyView>,
)
    ensures
        goes_on(
            guard::panel_switched(displays, mode, verbose, t),
            #[trigger] guard::panel_switched(displays, mode, verbose, t + more),
            more,
        ),
{
    broadcast use {warned_if_goes_on, placer_switched_goes_on};

}

pub broadcast proof fn restore_verified_goes_on(
    mode: ActionMode,
    verbose: bool,
    t: Seq<ReplyView>,
    more: Seq<ReplyView>,
)
    ensures
        goes_on(
            guard::restore_verified(mode, verbose, t),
            #[trigger] guard::restore_verified(mode, verbose, t + more),
            more,
        ),
{
    broadcast use {
        warned_if_goes_on,
        displays_listed_within_goes_on,
        noted_goes_on,
        panel_switched_goes_on,
    };

}

pub broadcast proof fn internal_only_restored_goes_on(
    mode: ActionMode,
    verbose: bool,
    attempts: u32,
    t: Seq<ReplyView>,
    more: Seq<ReplyView>,
)
    ensures
        goes_on(
            guard::internal_only_restored(mode, verbose, attempts, t),
            #[trigger] guard::internal_only_restored(mode, verbose, attempts, t + more),
            more,
        ),
{
    broadcast use {warned_if_goes_on, internal_restored_goes_on, restore_verified_goes_on};

}

pub broadcast proof fn guard_acted_goes_on(
    action: GuardAction,
    mode: ActionMode,
    verbose: bool,
    t: Seq<ReplyView>,
    more: Seq<ReplyView>,
)
    ensures
        goes_on(
            guard::guard_acted(action, mode, verbose, t),
            #[trigger] guard::guard_acted(action, mode, verbose, t + more),
            more,
        ),
{
    broadcast use {said_if_goes_on, internal_only_restored_goes_on};

}

pub broadcast proof fn guard_logged_goes_on(
    reason: Seq<char>,
    lid: ClamshellState,
    displays: Option<Seq<DisplayView>>,
    action: GuardAction,
    t: Seq<ReplyView>,
    more: Seq<ReplyView>,
)
    ensures
        goes_on(
            guard::guard_logged(reason, lid, displays, action, t),
            #[trigger] guard::guard_logged(reason, lid, displays, action, t + more),
            more,
        ),
{
    broadcast use logged_goes_on;

}

pub broadcast proof fn guard_decided_goes_on(
    reason: Seq<char>,
    lid: ClamshellState,
    displays: Option<Seq<DisplayView>>,
    mode: ActionMode,
    verbose: bool,
    t: Seq<ReplyView>,
    more: Seq<ReplyView>,
)
    ensures
        goes_on(
            guard::guard_decided(reason, lid, displays, mode, verbose, t),
            #[trigger] guard::guard_decided(reason, lid, displays, mode, verbose, t + more),
            more,
        ),
{
    broadcast use {guard_acted_goes_on, guard_logged_goes_on};

}

pub broadcast proof fn guarded_goes_on(
    reason: Seq<char>,
    mode: ActionMode,
    verbose: bool,
    t: Seq<ReplyView>,
    more: Seq<ReplyView>,
)
    ensures
        goes_on(
            guard::guarded(reason, mode, verbose, t),
            #[trigger] guard::guarded(reason, mode, verbose, t + more),
            more,
        ),
{
    broadcast use {
        said_if_goes_on,
        warned_if_goes_on,
        displays_listed_within_goes_on,
        lid_read_goes_on,
        noted_goes_on,
        guard_decided_goes_on,
    };

}

/// What is done before sleep ends as before over more replies.
pub broadcast proof fn sleep_prepared_goes_on(
    mode: ActionMode,
    t: Seq<ReplyView>,
    more: Seq<ReplyView>,
)
    ensures
        goes_on(
            guard::sleep_prepared(mode, t),
            #[trigger] guard::sleep_prepared(mode, t + more),
            more,
        ),
{
    broadcast use {logged_goes_on, internal_only_restored_goes_on};

}

// ---------------------------------------------------------------------------
// Turning off and toggling.
// ---------------------------------------------------------------------------
pub broadcast proof fn internal_disabled_goes_on(
    condition: Option<Seq<char>>,
    mode: ActionMode,
    force: bool,
    print_skips: bool,
    verbose: bool,
    t: Seq<ReplyView>,
    more: Seq<ReplyView>,
)
    ensures
        goes_on(
            switching::internal_disabled(condition, mode, force, print_skips, verbose, t),
            #[trigger] switching::internal_disabled(condition, mode, force, print_skips, verbose, t + more),
            more,
        ),
{
    broadcast use {
        said_if_goes_on,
        list_remembered_goes_on,
        displays_listed_goes_on,
        placer_switched_goes_on,
    };

}

pub broadcast proof fn internal_toggled_goes_on(t: Seq<ReplyView>, more: Seq<ReplyView>)
    ensures
        goes_on(
            switching::internal_toggled(t),
            #[trigger] switching::internal_toggled(t + more),
            more,
        ),
{
    broadcast use {
        list_remembered_goes_on,
        displays_listed_goes_on,
        placer_switched_goes_on,
        internal_restored_goes_on,
        internal_disabled_goes_on,
    };

}

pub broadcast proof fn display_noted_goes_on(
    d: DisplayView,
    t: Seq<ReplyView>,
    more: Seq<ReplyView>,
)
    ensures
        goes_on(
            switching::display_noted(d, t),
            #[trigger] switching::display_noted(d, t + more),
            more,
        ),
{
    broadcast use {remembered_goes_on, number_remembered_goes_on};

}

pub broadcast proof fn display_disabled_goes_on(
    d: DisplayView,
    t: Seq<ReplyView>,
    more: Seq<ReplyView>,
)
    ensures
        goes_on(
            switching::display_disabled(d, t),
            #[trigger] switching::display_disabled(d, t + more),
            more,
        ),
{
    broadcast use {displays_listed_goes_on, placer_switched_goes_on, display_noted_goes_on};

}

pub broadcast proof fn display_restored_goes_on(
    d: DisplayView,
    t: Seq<ReplyView>,
    more: Seq<ReplyView>,
)
    ensures
        goes_on(
            switching::display_restored(d, t),
            #[trigger] switching::display_restored(d, t + more),
            more,
        ),
{
    broadcast use {number_remembered_goes_on, number_restored_goes_on};

}

pub broadcast proof fn display_toggled_goes_on(
    d: DisplayView,
    t: Seq<ReplyView>,
    more: Seq<ReplyView>,
)
    ensures
        goes_on(
            switching::display_toggled(d, t),
            #[trigger] switching::display_toggled(d, t + more),
            more,
        ),
{
    broadcast use {display_disabled_goes_on, display_restored_goes_on};

}

// ---------------------------------------------------------------------------
// Watching.
// ---------------------------------------------------------------------------
pub broadcast proof fn listed_or_restored_goes_on(
    mode: ActionMode,
    verbose: bool,
    t: Seq<ReplyView>,
    more: Seq<ReplyView>,
)
    ensures
        goes_on(
            watching::listed_or_restored(mode, verbose, t),
            #[trigger] watching::listed_or_restored(mode, verbose, t + more),
            more,
        ),
{
    broadcast use {warned_if_goes_on, displays_listed_goes_on, safety_restored_goes_on};

}

pub broadcast proof fn watch_acted_goes_on(
    displays: Seq<DisplayView>,
    target_present: bool,
    condition: Option<Seq<char>>,
    mode: ActionMode,
    force: bool,
    verbose: bool,
    t: Seq<ReplyView>,
    more: Seq<ReplyView>,
)
    ensures
        goes_on(
            watching::watch_acted(displays, target_present, condition, mode, force, verbose, t),
            #[trigger] watching::watch_acted(displays, target_present, condition, mode, force, verbose, t + more),
            more,
        ),
{
    broadcast use {safety_restored_goes_on, internal_disabled_goes_on};

}

pub broadcast proof fn raw_watched_goes_on(
    name: Seq<char>,
    mode: ActionMode,
    force: bool,
    verbose: bool,
    t: Seq<ReplyView>,
    more: Seq<ReplyView>,
)
    ensures
        goes_on(
            watching::raw_watched(name, mode, force, verbose, t),
            #[trigger] watching::raw_watched(name, mode, force, verbose, t + more),
            more,
        ),
{
    broadcast use {list_remembered_goes_on, listed_or_restored_goes_on, watch_acted_goes_on};

}

pub broadcast proof fn targets_watched_goes_on(
    targets: Seq<TargetView>,
    mode: ActionMode,
    force: bool,
    verbose: bool,
    t: Seq<ReplyView>,
    more: Seq<ReplyView>,
)
    ensures
        goes_on(
            watching::targets_watched(targets, mode, force, verbose, t),
            #[trigger] watching::targets_watched(targets, mode, force, verbose, t + more),
            more,
        ),
{
    broadcast use {list_remembered_goes_on, listed_or_restored_goes_on, watch_acted_goes_on};

}

pub broadcast proof fn darkness_ended_goes_on(
    mode: ActionMode,
    verbose: bool,
    t: Seq<ReplyView>,
    more: Seq<ReplyView>,
)
    ensures
        goes_on(
            watching::darkness_ended(mode, verbose, t),
            #[trigger] watching::darkness_ended(mode, verbose, t + more),
            more,
        ),
{
    broadcast use {list_remembered_goes_on, safety_restored_goes_on, listed_or_restored_goes_on};

}

pub broadcast proof fn recovered_goes_on(
    targets: Seq<TargetView>,
    mode: ActionMode,
    force: bool,
    verbose: bool,
    t: Seq<ReplyView>,
    more: Seq<ReplyView>,
)
    ensures
        goes_on(
            watching::recovered(targets, mode, force, verbose, t),
            #[trigger] watching::recovered(targets, mode, force, verbose, t + more),
            more,
        ),
{
    broadcast use {targets_watched_goes_on, darkness_ended_goes_on};

}

pub broadcast proof fn change_answered_goes_on(
    targets: Seq<TargetView>,
    change: DisplayChange,
    mode: ActionMode,
    force: bool,
    verbose: bool,
    t: Seq<ReplyView>,
    more: Seq<ReplyView>,
)
    ensures
        goes_on(
            watching::change_answered(targets, change, mode, force, verbose, t),
            #[trigger] watching::change_answered(targets, change, mode, force, verbose, t + more),
            more,
        ),
{
    broadcast use {
        asks_flag_goes_on,
        panel_number_read_goes_on,
        safety_restored_goes_on,
        recovered_goes_on,
    };

}

// ---------------------------------------------------------------------------
// Snapshots.
// ---------------------------------------------------------------------------
pub broadcast proof fn list_added_goes_on(body: Seq<char>, t: Seq<ReplyView>, more: Seq<ReplyView>)
    ensures
        goes_on(
            snapshot::list_added(body, t),
            #[trigger] snapshot::list_added(body, t + more),
            more,
        ),
{
    broadcast use {list_remembered_goes_on, displays_listed_goes_on};

}

pub broadcast proof fn captured_goes_on(
    program: Seq<char>,
    arguments: Seq<Seq<char>>,
    body: Seq<char>,
    t: Seq<ReplyView>,
    more: Seq<ReplyView>,
)
    ensures
        goes_on(
            snapshot::captured(program, arguments, body, t),
            #[trigger] snapshot::captured(program, arguments, body, t + more),
            more,
        ),
{
    broadcast use asks_ran_goes_on;

}

pub broadcast proof fn preferences_added_goes_on(
    body: Seq<char>,
    t: Seq<ReplyView>,
    more: Seq<ReplyView>,
)
    ensures
        goes_on(
            snapshot::preferences_added(body, t),
            #[trigger] snapshot::preferences_added(body, t + more),
            more,
        ),
{
    broadcast use {asks_flag_goes_on, asks_text_goes_on, captured_goes_on};

}

pub broadcast proof fn probed_goes_on(
    probes: Seq<ProbeView>,
    body: Seq<char>,
    t: Seq<ReplyView>,
    more: Seq<ReplyView>,
)
    ensures
        goes_on(
            snapshot::probed(probes, body, t),
            #[trigger] snapshot::probed(probes, body, t + more),
            more,
        ),
    decreases probes.len(),
{
    broadcast use captured_goes_on;

    if probes.len() > 0 {
        if let Course::Ends(text, s) = snapshot::captured(
            probes[0].program,
            probes[0].arguments,
            body,
            t,
        ) {
            probed_goes_on(probes.skip(1), text, s, more);
        }
    }
}

pub broadcast proof fn snapshot_gathered_goes_on(
    label: Seq<char>,
    stamp: u64,
    t: Seq<ReplyView>,
    more: Seq<ReplyView>,
)
    ensures
        goes_on(
            snapshot::snapshot_gathered(label, stamp, t),
            #[trigger] snapshot::snapshot_gathered(label, stamp, t + more),
            more,
        ),
{
    broadcast use {list_added_goes_on, preferences_added_goes_on, probed_goes_on};

}

pub broadcast proof fn snapshot_written_goes_on(
    file: FilePathView,
    body: Seq<char>,
    t: Seq<ReplyView>,
    more: Seq<ReplyView>,
)
    ensures
        goes_on(
            snapshot::snapshot_written(file, body, t),
            #[trigger] snapshot::snapshot_written(file, body, t + more),
            more,
        ),
{
    broadcast use {said_goes_on, asks_done_goes_on, asks_text_goes_on};

}

pub broadcast proof fn snapshot_taken_goes_on(
    o: SnapshotOptionsView,
    t: Seq<ReplyView>,
    more: Seq<ReplyView>,
)
    ensures
        goes_on(
            snapshot::snapshot_taken(o, t),
            #[trigger] snapshot::snapshot_taken(o, t + more),
            more,
        ),
{
    broadcast use {
        asks_done_goes_on,
        asks_stamp_goes_on,
        snapshot_gathered_goes_on,
        snapshot_written_goes_on,
    };

}

pub broadcast proof fn snapshot_run_goes_on(
    args: Seq<Seq<char>>,
    t: Seq<ReplyView>,
    more: Seq<ReplyView>,
)
    ensures
        goes_on(
            snapshot::snapshot_run(args, t),
            #[trigger] snapshot::snapshot_run(args, t + more),
            more,
        ),
{
    broadcast use snapshot_taken_goes_on;

}

// ---------------------------------------------------------------------------
// The installation of the guard.
// ---------------------------------------------------------------------------
pub broadcast proof fn launchctl_ran_goes_on(
    arguments: Seq<Seq<char>>,
    t: Seq<ReplyView>,
    more: Seq<ReplyView>,
)
    ensures
        goes_on(
            install::launchctl_ran(arguments, t),
            #[trigger] install::launchctl_ran(arguments, t + more),
            more,
        ),
{
    broadcast use asks_ran_goes_on;

}

pub broadcast proof fn agent_started_goes_on(
    label: Seq<char>,
    plist: Seq<char>,
    domain: Seq<char>,
    t: Seq<ReplyView>,
    more: Seq<ReplyView>,
)
    ensures
        goes_on(
            install::agent_started(label, plist, domain, t),
            #[trigger] install::agent_started(label, plist, domain, t + more),
            more,
        ),
{
    broadcast use {said_goes_on, launchctl_ran_goes_on};

}

pub broadcast proof fn domain_found_goes_on(t: Seq<ReplyView>, more: Seq<ReplyView>)
    ensures
        goes_on(install::domain_found(t), #[trigger] install::domain_found(t + more), more),
{
    broadcast use timed_run_goes_on;

}

pub broadcast proof fn agent_unloaded_goes_on(
    label: Seq<char>,
    mode: ActionMode,
    t: Seq<ReplyView>,
    more: Seq<ReplyView>,
)
    ensures
        goes_on(
            install::agent_unloaded(label, mode, t),
            #[trigger] install::agent_unloaded(label, mode, t + more),
            more,
        ),
{
    broadcast use {asks_any_goes_on, said_goes_on, domain_found_goes_on};

}

pub broadcast proof fn load_announced_goes_on(
    label: Seq<char>,
    plist: Seq<char>,
    t: Seq<ReplyView>,
    more: Seq<ReplyView>,
)
    ensures
        goes_on(
            install::load_announced(label, plist, t),
            #[trigger] install::load_announced(label, plist, t + more),
            more,
        ),
{
    broadcast use said_goes_on;

}

pub broadcast proof fn agent_loaded_goes_on(
    label: Seq<char>,
    plist: Seq<char>,
    mode: ActionMode,
    t: Seq<ReplyView>,
    more: Seq<ReplyView>,
)
    ensures
        goes_on(
            install::agent_loaded(label, plist, mode, t),
            #[trigger] install::agent_loaded(label, plist, mode, t + more),
            more,
        ),
{
    broadcast use {
        agent_started_goes_on,
        domain_found_goes_on,
        agent_unloaded_goes_on,
        load_announced_goes_on,
    };

}

pub broadcast proof fn plist_filled_goes_on(
    exe: Seq<char>,
    shown: Seq<char>,
    interval: u64,
    t: Seq<ReplyView>,
    more: Seq<ReplyView>,
)
    ensures
        goes_on(
            install::plist_filled(exe, shown, interval, t),
            #[trigger] install::plist_filled(exe, shown, interval, t + more),
            more,
        ),
{
    broadcast use {asks_text_goes_on, asks_variable_goes_on};

}

pub broadcast proof fn plist_made_goes_on(interval: u64, t: Seq<ReplyView>, more: Seq<ReplyView>)
    ensures
        goes_on(
            install::plist_made(interval, t),
            #[trigger] install::plist_made(interval, t + more),
            more,
        ),
{
    broadcast use {asks_text_goes_on, plist_filled_goes_on};

}

pub broadcast proof fn plist_written_goes_on(
    plist: GuardPlistView,
    mode: ActionMode,
    t: Seq<ReplyView>,
    more: Seq<ReplyView>,
)
    ensures
        goes_on(
            install::plist_written(plist, mode, t),
            #[trigger] install::plist_written(plist, mode, t + more),
            more,
        ),
{
    broadcast use {said_goes_on, asks_done_goes_on};

}

pub broadcast proof fn guard_installed_goes_on(
    o: InstallOptions,
    t: Seq<ReplyView>,
    more: Seq<ReplyView>,
)
    ensures
        goes_on(
            install::guard_installed(o, t),
            #[trigger] install::guard_installed(o, t + more),
            more,
        ),
{
    broadcast use {agent_loaded_goes_on, plist_made_goes_on, plist_written_goes_on};

}

pub broadcast proof fn install_run_goes_on(
    args: Seq<Seq<char>>,
    t: Seq<ReplyView>,
    more: Seq<ReplyView>,
)
    ensures
        goes_on(
            install::install_run(args, t),
            #[trigger] install::install_run(args, t + more),
            more,
        ),
{
    broadcast use guard_installed_goes_on;

}

pub broadcast proof fn plist_removed_goes_on(
    shown: Seq<char>,
    mode: ActionMode,
    t: Seq<ReplyView>,
    more: Seq<ReplyView>,
)
    ensures
        goes_on(
            install::plist_removed(shown, mode, t),
            #[trigger] install::plist_removed(shown, mode, t + more),
            more,
        ),
{
    broadcast use {said_goes_on, asks_done_goes_on, asks_flag_goes_on};

}

pub broadcast proof fn guard_uninstalled_goes_on(
    o: UninstallOptions,
    t: Seq<ReplyView>,
    more: Seq<ReplyView>,
)
    ensures
        goes_on(
            install::guard_uninstalled(o, t),
            #[trigger] install::guard_uninstalled(o, t + more),
            more,
        ),
{
    broadcast use {asks_text_goes_on, agent_unloaded_goes_on, plist_removed_goes_on};

}

pub broadcast proof fn uninstall_run_goes_on(
    args: Seq<Seq<char>>,
    t: Seq<ReplyView>,
    more: Seq<ReplyView>,
)
    ensures
        goes_on(
            install::uninstall_run(args, t),
            #[trigger] install::uninstall_run(args, t + more),
            more,
        ),
{
    broadcast use guard_uninstalled_goes_on;

}

// ---------------------------------------------------------------------------
// The watcher.
// ---------------------------------------------------------------------------
pub broadcast proof fn events_started_goes_on(seconds: u64, t: Seq<ReplyView>, more: Seq<ReplyView>)
    ensures
        goes_on(
            watch::events_started(seconds, t),
            #[trigger] watch::events_started(seconds, t + more),
            more,
        ),
{
    broadcast use asks_flag_goes_on;

}

pub broadcast proof fn round_said_goes_on(
    named: bool,
    r: Result<AutoWatchAction, Seq<char>>,
    t: Seq<ReplyView>,
    more: Seq<ReplyView>,
)
    ensures
        goes_on(
            watch::round_said(named, r, t),
            #[trigger] watch::round_said(named, r, t + more),
            more,
        ),
{
    broadcast use {said_goes_on, warned_goes_on};

}

pub broadcast proof fn round_made_goes_on(w: WatchView, t: Seq<ReplyView>, more: Seq<ReplyView>)
    ensures
        goes_on(watch::round_made(w, t), #[trigger] watch::round_made(w, t + more), more),
{
    broadcast use {raw_watched_goes_on, targets_watched_goes_on, round_said_goes_on};

}

pub broadcast proof fn summaries_said_goes_on(
    targets: Seq<TargetView>,
    t: Seq<ReplyView>,
    more: Seq<ReplyView>,
)
    ensures
        goes_on(
            watch::summaries_said(targets, t),
            #[trigger] watch::summaries_said(targets, t + more),
            more,
        ),
    decreases targets.len(),
{
    broadcast use said_goes_on;

    if targets.len() > 0 {
        assert forall|s: Seq<ReplyView>| goes_on(
            watch::summaries_said(targets.skip(1), s),
            watch::summaries_said(targets.skip(1), #[trigger] (s + more)),
            more,
        ) by {
            summaries_said_goes_on(targets.skip(1), s, more);
        }
    }
}

pub broadcast proof fn watch_announced_goes_on(
    w: WatchView,
    interval: u64,
    t: Seq<ReplyView>,
    more: Seq<ReplyView>,
)
    ensures
        goes_on(
            watch::watch_announced(w, interval, t),
            #[trigger] watch::watch_announced(w, interval, t + more),
            more,
        ),
{
    broadcast use {said_goes_on, summaries_said_goes_on};

}

pub broadcast proof fn watch_begun_goes_on(
    w: WatchView,
    interval: u64,
    t: Seq<ReplyView>,
    more: Seq<ReplyView>,
)
    ensures
        goes_on(
            watch::watch_begun(w, interval, t),
            #[trigger] watch::watch_begun(w, interval, t + more),
            more,
        ),
{
    broadcast use {
        warned_goes_on,
        events_started_goes_on,
        round_made_goes_on,
        watch_announced_goes_on,
    };

}

pub broadcast proof fn watch_targets_read_goes_on(
    named: bool,
    t: Seq<ReplyView>,
    more: Seq<ReplyView>,
)
    ensures
        goes_on(
            watch::watch_targets_read(named, t),
            #[trigger] watch::watch_targets_read(named, t + more),
            more,
        ),
{
    broadcast use targets_loaded_goes_on;

}

pub broadcast proof fn watch_run_goes_on(
    args: Seq<Seq<char>>,
    t: Seq<ReplyView>,
    more: Seq<ReplyView>,
)
    ensures
        goes_on(watch::watch_run(args, t), #[trigger] watch::watch_run(args, t + more), more),
{
    broadcast use {watch_begun_goes_on, watch_targets_read_goes_on};

}

/// A further round of the watcher ends as before over more replies.
pub broadcast proof fn watch_continued_goes_on(
    w: WatchView,
    t: Seq<ReplyView>,
    more: Seq<ReplyView>,
)
    ensures
        goes_on(watch::watch_continued(w, t), #[trigger] watch::watch_continued(w, t + more), more),
{
    broadcast use {asks_awaited_goes_on, round_made_goes_on};

}

// ---------------------------------------------------------------------------
// The program.
// ---------------------------------------------------------------------------
pub broadcast proof fn lines_said_goes_on(
    lines: Seq<Seq<char>>,
    t: Seq<ReplyView>,
    more: Seq<ReplyView>,
)
    ensures
        goes_on(
            command::lines_said(lines, t),
            #[trigger] command::lines_said(lines, t + more),
            more,
        ),
    decreases lines.len(),
{
    broadcast use said_goes_on;

    if lines.len() > 0 {
        assert forall|s: Seq<ReplyView>| goes_on(
            command::lines_said(lines.skip(1), s),
            command::lines_said(lines.skip(1), #[trigger] (s + more)),
            more,
        ) by {
            lines_said_goes_on(lines.skip(1), s, more);
        }
    }
}

pub broadcast proof fn list_run_goes_on(t: Seq<ReplyView>, more: Seq<ReplyView>)
    ensures
        goes_on(command::list_run(t), #[trigger] command::list_run(t + more), more),
{
    broadcast use {list_remembered_goes_on, displays_listed_goes_on, lines_said_goes_on};

}

pub broadcast proof fn targets_cleared_goes_on(t: Seq<ReplyView>, more: Seq<ReplyView>)
    ensures
        goes_on(command::targets_cleared(t), #[trigger] command::targets_cleared(t + more), more),
{
    broadcast use {said_goes_on, targets_saved_goes_on};

}

pub broadcast proof fn targets_run_goes_on(
    args: Seq<Seq<char>>,
    t: Seq<ReplyView>,
    more: Seq<ReplyView>,
)
    ensures
        goes_on(
            command::targets_run(args, t),
            #[trigger] command::targets_run(args, t + more),
            more,
        ),
{
    broadcast use {targets_loaded_goes_on, lines_said_goes_on, targets_cleared_goes_on};

}

pub broadcast proof fn disable_run_goes_on(
    args: Seq<Seq<char>>,
    t: Seq<ReplyView>,
    more: Seq<ReplyView>,
)
    ensures
        goes_on(
            command::disable_run(args, t),
            #[trigger] command::disable_run(args, t + more),
            more,
        ),
{
    broadcast use internal_disabled_goes_on;

}

pub broadcast proof fn enable_id_goes_on(
    given: Option<Seq<char>>,
    t: Seq<ReplyView>,
    more: Seq<ReplyView>,
)
    ensures
        goes_on(command::enable_id(given, t), #[trigger] command::enable_id(given, t + more), more),
{
    broadcast use value_read_goes_on;

}

pub broadcast proof fn enable_run_goes_on(
    args: Seq<Seq<char>>,
    t: Seq<ReplyView>,
    more: Seq<ReplyView>,
)
    ensures
        goes_on(command::enable_run(args, t), #[trigger] command::enable_run(args, t + more), more),
{
    broadcast use {panel_remembered_goes_on, placer_switched_goes_on, enable_id_goes_on};

}

pub broadcast proof fn restore_run_goes_on(
    args: Seq<Seq<char>>,
    t: Seq<ReplyView>,
    more: Seq<ReplyView>,
)
    ensures
        goes_on(
            command::restore_run(args, t),
            #[trigger] command::restore_run(args, t + more),
            more,
        ),
{
    broadcast use internal_restored_goes_on;

}

pub broadcast proof fn display_brought_back_goes_on(
    id: u32,
    mode: ActionMode,
    t: Seq<ReplyView>,
    more: Seq<ReplyView>,
)
    ensures
        goes_on(
            command::display_brought_back(id, mode, t),
            #[trigger] command::display_brought_back(id, mode, t + more),
            more,
        ),
{
    broadcast use {number_remembered_goes_on, number_restored_goes_on};

}

pub broadcast proof fn restore_display_run_goes_on(
    args: Seq<Seq<char>>,
    t: Seq<ReplyView>,
    more: Seq<ReplyView>,
)
    ensures
        goes_on(
            command::restore_display_run(args, t),
            #[trigger] command::restore_display_run(args, t + more),
            more,
        ),
{
    broadcast use display_brought_back_goes_on;

}

pub broadcast proof fn redetect_run_goes_on(
    args: Seq<Seq<char>>,
    t: Seq<ReplyView>,
    more: Seq<ReplyView>,
)
    ensures
        goes_on(
            command::redetect_run(args, t),
            #[trigger] command::redetect_run(args, t + more),
            more,
        ),
{
    broadcast use detected_goes_on;

}

pub broadcast proof fn reset_run_goes_on(
    args: Seq<Seq<char>>,
    t: Seq<ReplyView>,
    more: Seq<ReplyView>,
)
    ensures
        goes_on(command::reset_run(args, t), #[trigger] command::reset_run(args, t + more), more),
{
    broadcast use reset_done_goes_on;

}

pub broadcast proof fn guard_run_goes_on(
    args: Seq<Seq<char>>,
    t: Seq<ReplyView>,
    more: Seq<ReplyView>,
)
    ensures
        goes_on(command::guard_run(args, t), #[trigger] command::guard_run(args, t + more), more),
{
    broadcast use guarded_goes_on;

}

/// What the program ended with over some replies, it ends with over more.
pub broadcast proof fn program_run_goes_on(
    args: Seq<Seq<char>>,
    t: Seq<ReplyView>,
    more: Seq<ReplyView>,
)
    ensures
        goes_on(
            command::program_run(args, t),
            #[trigger] command::program_run(args, t + more),
            more,
        ),
{
    broadcast use {
        said_goes_on,
        snapshot_run_goes_on,
        install_run_goes_on,
        uninstall_run_goes_on,
        watch_run_goes_on,
        list_run_goes_on,
        targets_run_goes_on,
        disable_run_goes_on,
        enable_run_goes_on,
        restore_run_goes_on,
        restore_display_run_goes_on,
        redetect_run_goes_on,
        reset_run_goes_on,
        guard_run_goes_on,
    };

}

// ---------------------------------------------------------------------------
// The interactive mode.
// ---------------------------------------------------------------------------
pub broadcast proof fn list_refreshed_goes_on(ui: UiView, t: Seq<ReplyView>, more: Seq<ReplyView>)
    ensures
        goes_on(
            interactive::list_refreshed(ui, t),
            #[trigger] interactive::list_refreshed(ui, t + more),
            more,
        ),
{
    broadcast use {list_remembered_goes_on, displays_merged_goes_on, displays_listed_goes_on};

}

pub broadcast proof fn panel_looked_up_goes_on(ui: UiView, t: Seq<ReplyView>, more: Seq<ReplyView>)
    ensures
        goes_on(
            interactive::panel_looked_up(ui, t),
            #[trigger] interactive::panel_looked_up(ui, t + more),
            more,
        ),
{
    broadcast use summary_read_goes_on;

}

pub broadcast proof fn spans_sent_goes_on(
    spans: Seq<SpanView>,
    t: Seq<ReplyView>,
    more: Seq<ReplyView>,
)
    ensures
        goes_on(
            interactive::spans_sent(spans, t),
            #[trigger] interactive::spans_sent(spans, t + more),
            more,
        ),
{
    broadcast use asks_done_goes_on;

}

pub broadcast proof fn list_drawn_goes_on(ui: UiView, t: Seq<ReplyView>, more: Seq<ReplyView>)
    ensures
        goes_on(
            interactive::list_drawn(ui, t),
            #[trigger] interactive::list_drawn(ui, t + more),
            more,
        ),
{
    broadcast use {asks_done_goes_on, panel_looked_up_goes_on, spans_sent_goes_on};

}

pub broadcast proof fn screen_drawn_goes_on(ui: UiView, t: Seq<ReplyView>, more: Seq<ReplyView>)
    ensures
        goes_on(
            interactive::screen_drawn(ui, t),
            #[trigger] interactive::screen_drawn(ui, t + more),
            more,
        ),
{
    broadcast use {spans_sent_goes_on, list_drawn_goes_on};

}

pub broadcast proof fn power_started_goes_on(t: Seq<ReplyView>, more: Seq<ReplyView>)
    ensures
        goes_on(
            interactive::power_started(t),
            #[trigger] interactive::power_started(t + more),
            more,
        ),
{
    broadcast use asks_done_goes_on;

}

pub broadcast proof fn start_told_goes_on(
    ui: UiView,
    r: Result<AutoWatchAction, Seq<char>>,
    t: Seq<ReplyView>,
    more: Seq<ReplyView>,
)
    ensures
        goes_on(
            interactive::start_told(ui, r, t),
            #[trigger] interactive::start_told(ui, r, t + more),
            more,
        ),
{
    broadcast use list_refreshed_goes_on;

}

pub broadcast proof fn start_recovered_goes_on(ui: UiView, t: Seq<ReplyView>, more: Seq<ReplyView>)
    ensures
        goes_on(
            interactive::start_recovered(ui, t),
            #[trigger] interactive::start_recovered(ui, t + more),
            more,
        ),
{
    broadcast use {recovered_goes_on, start_told_goes_on};

}

pub broadcast proof fn first_loaded_goes_on(ui: UiView, t: Seq<ReplyView>, more: Seq<ReplyView>)
    ensures
        goes_on(
            interactive::first_loaded(ui, t),
            #[trigger] interactive::first_loaded(ui, t + more),
            more,
        ),
{
    broadcast use {asks_columns_goes_on, list_refreshed_goes_on, start_recovered_goes_on};

}

pub broadcast proof fn first_shown_goes_on(ui: UiView, t: Seq<ReplyView>, more: Seq<ReplyView>)
    ensures
        goes_on(
            interactive::first_shown(ui, t),
            #[trigger] interactive::first_shown(ui, t + more),
            more,
        ),
{
    broadcast use {list_drawn_goes_on, first_loaded_goes_on};

}

/// The opening of the interactive mode ends as before over more replies.
pub broadcast proof fn mode_opened_goes_on(t: Seq<ReplyView>, more: Seq<ReplyView>)
    ensures
        goes_on(interactive::mode_opened(t), #[trigger] interactive::mode_opened(t + more), more),
{
    broadcast use {
        asks_done_goes_on,
        targets_loaded_goes_on,
        events_started_goes_on,
        power_started_goes_on,
        first_shown_goes_on,
    };

}

pub broadcast proof fn reset_pressed_goes_on(ui: UiView, t: Seq<ReplyView>, more: Seq<ReplyView>)
    ensures
        goes_on(
            interactive::reset_pressed(ui, t),
            #[trigger] interactive::reset_pressed(ui, t + more),
            more,
        ),
{
    broadcast use reset_done_goes_on;

}

pub broadcast proof fn internal_pressed_goes_on(ui: UiView, t: Seq<ReplyView>, more: Seq<ReplyView>)
    ensures
        goes_on(
            interactive::internal_pressed(ui, t),
            #[trigger] interactive::internal_pressed(ui, t + more),
            more,
        ),
{
    broadcast use internal_toggled_goes_on;

}

pub broadcast proof fn toggle_pressed_goes_on(ui: UiView, t: Seq<ReplyView>, more: Seq<ReplyView>)
    ensures
        goes_on(
            interactive::toggle_pressed(ui, t),
            #[trigger] interactive::toggle_pressed(ui, t + more),
            more,
        ),
{
    broadcast use display_toggled_goes_on;

}

pub broadcast proof fn selection_targeted_goes_on(
    ui: UiView,
    t: Seq<ReplyView>,
    more: Seq<ReplyView>,
)
    ensures
        goes_on(
            interactive::selection_targeted(ui, t),
            #[trigger] interactive::selection_targeted(ui, t + more),
            more,
        ),
{
    broadcast use target_toggled_goes_on;

}

pub broadcast proof fn target_pressed_goes_on(ui: UiView, t: Seq<ReplyView>, more: Seq<ReplyView>)
    ensures
        goes_on(
            interactive::target_pressed(ui, t),
            #[trigger] interactive::target_pressed(ui, t + more),
            more,
        ),
{
    broadcast use {targets_loaded_goes_on, recovered_goes_on, selection_targeted_goes_on};

}

#[verifier::spinoff_prover]
#[verifier::rlimit(60)]
pub broadcast proof fn key_pressed_goes_on(
    ui: UiView,
    key: Key,
    t: Seq<ReplyView>,
    more: Seq<ReplyView>,
)
    ensures
        goes_on(
            interactive::key_pressed(ui, key, t),
            #[trigger] interactive::key_pressed(ui, key, t + more),
            more,
        ),
{
    broadcast use {
        reset_pressed_goes_on,
        internal_pressed_goes_on,
        toggle_pressed_goes_on,
        target_pressed_goes_on,
    };

}

pub broadcast proof fn input_handled_goes_on(
    ui: UiView,
    input: Input,
    t: Seq<ReplyView>,
    more: Seq<ReplyView>,
)
    ensures
        goes_on(
            interactive::input_handled(ui, input, t),
            #[trigger] interactive::input_handled(ui, input, t + more),
            more,
        ),
{
    broadcast use key_pressed_goes_on;

}

pub broadcast proof fn input_stage_goes_on(ui: UiView, t: Seq<ReplyView>, more: Seq<ReplyView>)
    ensures
        goes_on(
            interactive::input_stage(ui, t),
            #[trigger] interactive::input_stage(ui, t + more),
            more,
        ),
{
    broadcast use {asks_input_goes_on, input_handled_goes_on};

}

pub broadcast proof fn change_handled_goes_on(
    ui: UiView,
    change: DisplayChange,
    t: Seq<ReplyView>,
    more: Seq<ReplyView>,
)
    ensures
        goes_on(
            interactive::change_handled(ui, change, t),
            #[trigger] interactive::change_handled(ui, change, t + more),
            more,
        ),
{
    broadcast use {logged_goes_on, change_answered_goes_on};

}

pub broadcast proof fn reconcile_handled_goes_on(
    ui: UiView,
    t: Seq<ReplyView>,
    more: Seq<ReplyView>,
)
    ensures
        goes_on(
            interactive::reconcile_handled(ui, t),
            #[trigger] interactive::reconcile_handled(ui, t + more),
            more,
        ),
{
    broadcast use recovered_goes_on;

}

pub broadcast proof fn display_stage_goes_on(ui: UiView, t: Seq<ReplyView>, more: Seq<ReplyView>)
    ensures
        goes_on(
            interactive::display_stage(ui, t),
            #[trigger] interactive::display_stage(ui, t + more),
            more,
        ),
{
    broadcast use {asks_watch_goes_on, change_handled_goes_on, reconcile_handled_goes_on};

}

pub broadcast proof fn power_handled_goes_on(
    ui: UiView,
    event: PowerEvent,
    t: Seq<ReplyView>,
    more: Seq<ReplyView>,
)
    ensures
        goes_on(
            interactive::power_handled(ui, event, t),
            #[trigger] interactive::power_handled(ui, event, t + more),
            more,
        ),
{
    broadcast use {logged_goes_on, guarded_goes_on};

}

pub broadcast proof fn power_stage_goes_on(ui: UiView, t: Seq<ReplyView>, more: Seq<ReplyView>)
    ensures
        goes_on(
            interactive::power_stage(ui, t),
            #[trigger] interactive::power_stage(ui, t + more),
            more,
        ),
{
    broadcast use {asks_power_goes_on, power_handled_goes_on};

}

pub broadcast proof fn refreshed_if_due_goes_on(ui: UiView, t: Seq<ReplyView>, more: Seq<ReplyView>)
    ensures
        goes_on(
            interactive::refreshed_if_due(ui, t),
            #[trigger] interactive::refreshed_if_due(ui, t + more),
            more,
        ),
{
    broadcast use list_refreshed_goes_on;

}

pub broadcast proof fn show_stage_goes_on(ui: UiView, t: Seq<ReplyView>, more: Seq<ReplyView>)
    ensures
        goes_on(
            interactive::show_stage(ui, t),
            #[trigger] interactive::show_stage(ui, t + more),
            more,
        ),
{
    broadcast use {screen_drawn_goes_on, refreshed_if_due_goes_on};

}

/// Each step of the interactive mode ends as before over more replies.
pub broadcast proof fn stepped_goes_on(ui: UiView, t: Seq<ReplyView>, more: Seq<ReplyView>)
    ensures
        goes_on(interactive::stepped(ui, t), #[trigger] interactive::stepped(ui, t + more), more),
{
    broadcast use {
        input_stage_goes_on,
        display_stage_goes_on,
        power_stage_goes_on,
        show_stage_goes_on,
    };

}

} // verus!
