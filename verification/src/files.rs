//! The files that the program keeps: what it remembers of displays, the saved
//! targets, and the event log.

use vstd::prelude::*;

use crate::display;
use crate::display::{CGDirectDisplayID, Display, DisplayView};
use crate::effect;
use crate::effect::{warn, Course, Effect, EffectView, ReplyView, Shown, Tape};
use crate::number;
use crate::number::decimal;
use crate::path;
use crate::path::{logs_dir, support_dir, support_file_path};
use crate::placer::ParsedDisplayplacer;
use crate::state;
use crate::target;
use crate::target::{MonitorTarget, TargetView};
use crate::text;
use crate::text::{borrow_opt, cat2, cat4, owned};

verus! {

/// The file of what is remembered.
pub const STATE_FILE_NAME: &'static str = "state";

/// The file of the saved targets.
pub const TARGETS_FILE_NAME: &'static str = "targets";

/// The event log.
pub const EVENT_LOG_FILE_NAME: &'static str = "displayed.log";

// ---------------------------------------------------------------------------
// Files.
// ---------------------------------------------------------------------------
/// A file of the program is read, if there is one.
pub open spec fn file_read(name: Seq<char>, t: Seq<ReplyView>) -> Course<
    Result<Option<Seq<char>>, Seq<char>>,
> {
    effect::asks_file(EffectView::ReadFile(path::support_place().inside(name)), t)
}

/// Reads a file of the program, if there is one.
pub fn read_support_file(tape: &mut Tape, file_name: &str) -> (r: Result<
    Result<Option<String>, String>,
    Effect,
>)
    ensures
        effect::course(r, final(tape).rest()) == file_read(file_name@, old(tape).rest()),
        final(tape).all() == old(tape).all(),
{
    tape.ask_file(Effect::ReadFile(support_file_path(file_name)))
}

/// A file of the program is written, in a directory that is made for it.
pub open spec fn file_written(name: Seq<char>, body: Seq<char>, t: Seq<ReplyView>) -> Course<
    Result<(), Seq<char>>,
> {
    match effect::asks_done(EffectView::CreateDir(path::support_place()), t) {
        Course::Asks(e) => Course::Asks(e),
        Course::Ends(r, t) => match r {
            Err(error) => Course::Ends(Err(error), t),
            Ok(_) => effect::asks_done(
                EffectView::WriteFile(path::support_place().inside(name), body),
                t,
            ),
        },
    }
}

/// Writes a file of the program.
pub fn write_support_file(tape: &mut Tape, file_name: &str, body: &str) -> (r: Result<
    Result<(), String>,
    Effect,
>)
    ensures
        effect::course(r, final(tape).rest()) == file_written(
            file_name@,
            body@,
            old(tape).rest(),
        ),
        final(tape).all() == old(tape).all(),
{
    match tape.ask_done(Effect::CreateDir(support_dir())) {
        Err(e) => Err(e),
        Ok(Err(error)) => Ok(Err(error)),
        Ok(Ok(_)) => tape.ask_done(Effect::WriteFile(support_file_path(file_name), owned(body))),
    }
}

/// A file of the program is removed, if there is one.
pub open spec fn file_removed(name: Seq<char>, t: Seq<ReplyView>) -> Course<
    Result<(), Seq<char>>,
> {
    effect::asks_removed(EffectView::RemoveFile(path::support_place().inside(name)), t)
}

/// Removes a file of the program, if there is one.
pub fn remove_support_file(tape: &mut Tape, file_name: &str) -> (r: Result<
    Result<(), String>,
    Effect,
>)
    ensures
        effect::course(r, final(tape).rest()) == file_removed(file_name@, old(tape).rest()),
        final(tape).all() == old(tape).all(),
{
    tape.ask_removed(Effect::RemoveFile(support_file_path(file_name)))
}

/// The line of the event log for a message.
pub open spec fn log_line(stamp: u64, message: Seq<char>) -> Seq<char> {
    number::dec(stamp as nat) + " "@ + message + "\n"@
}

/// A message goes to the event log, as far as that can be done.
pub open spec fn logged(message: Seq<char>, t: Seq<ReplyView>) -> Course<()> {
    match effect::asks_done(EffectView::CreateDir(path::logs_place()), t) {
        Course::Asks(e) => Course::Asks(e),
        Course::Ends(r, t) => match r {
            Err(_) => Course::Ends((), t),
            Ok(_) => match effect::asks_stamp(EffectView::Timestamp, t) {
                Course::Asks(e) => Course::Asks(e),
                Course::Ends(r, t) => effect::asks_any(
                    EffectView::AppendFile(
                        path::logs_place().inside(EVENT_LOG_FILE_NAME@),
                        log_line(
                            match r {
                                Ok(stamp) => stamp,
                                Err(_) => 0,
                            },
                            message,
                        ),
                    ),
                    t,
                ),
            },
        },
    }
}

/// Adds a message to the event log, as far as that can be done.
pub fn log_event(tape: &mut Tape, message: &str) -> (r: Result<(), Effect>)
    ensures
        effect::course(r, final(tape).rest()) == logged(message@, old(tape).rest()),
        final(tape).all() == old(tape).all(),
{
    match tape.ask_done(Effect::CreateDir(logs_dir())) {
        Err(e) => return Err(e),
        Ok(Err(_)) => return Ok(()),
        Ok(Ok(_)) => {},
    }
    let stamp: u64 = match tape.ask_stamp(Effect::Timestamp) {
        Err(e) => return Err(e),
        Ok(Err(_)) => 0,
        Ok(Ok(stamp)) => stamp,
    };
    let digits = decimal(stamp);
    let line = cat4(digits.as_str(), " ", message, "\n");
    let dir = logs_dir();
    tape.ask_any(Effect::AppendFile(dir.child(EVENT_LOG_FILE_NAME), line))
}

// ---------------------------------------------------------------------------
// Targets.
// ---------------------------------------------------------------------------
/// The saved targets are read.
pub open spec fn targets_loaded(t: Seq<ReplyView>) -> Course<Result<Seq<TargetView>, Seq<char>>> {
    match file_read(TARGETS_FILE_NAME@, t) {
        Course::Asks(e) => Course::Asks(e),
        Course::Ends(r, t) => Course::Ends(
            match r {
                Ok(file) => Ok(target::targets_of_file(file)),
                Err(error) => Err(error),
            },
            t,
        ),
    }
}

/// Reads the saved targets.
pub fn load_targets(tape: &mut Tape) -> (r: Result<Result<Vec<MonitorTarget>, String>, Effect>)
    ensures
        effect::course(r, final(tape).rest()) == targets_loaded(old(tape).rest()),
        final(tape).all() == old(tape).all(),
{
    match read_support_file(tape, TARGETS_FILE_NAME) {
        Err(e) => Err(e),
        Ok(Err(error)) => Ok(Err(error)),
        Ok(Ok(file)) => Ok(Ok(target::load_targets(borrow_opt(&file)))),
    }
}

/// The targets are saved: their file is written, or removed where there are
/// none.
pub open spec fn targets_saved(targets: Seq<TargetView>, t: Seq<ReplyView>) -> Course<
    Result<(), Seq<char>>,
> {
    match target::targets_file(targets) {
        Some(body) => file_written(TARGETS_FILE_NAME@, body, t),
        None => file_removed(TARGETS_FILE_NAME@, t),
    }
}

/// Saves the targets.
pub fn save_targets(tape: &mut Tape, targets: &Vec<MonitorTarget>) -> (r: Result<
    Result<(), String>,
    Effect,
>)
    ensures
        effect::course(r, final(tape).rest()) == targets_saved(
            target::target_views(targets@),
            old(tape).rest(),
        ),
        final(tape).all() == old(tape).all(),
{
    match target::save_targets(targets) {
        Some(body) => write_support_file(tape, TARGETS_FILE_NAME, body.as_str()),
        None => remove_support_file(tape, TARGETS_FILE_NAME),
    }
}

// ---------------------------------------------------------------------------
// What is remembered.
// ---------------------------------------------------------------------------
/// The displays that were seen are remembered.
pub open spec fn remembered(seen: Seq<DisplayView>, t: Seq<ReplyView>) -> Course<
    Result<(), Seq<char>>,
> {
    match file_read(STATE_FILE_NAME@, t) {
        Course::Asks(e) => Course::Asks(e),
        Course::Ends(r, t) => match r {
            Err(error) => Course::Ends(Err(error), t),
            Ok(file) => file_written(STATE_FILE_NAME@, state::state_after(file, seen), t),
        },
    }
}

/// Remembers the displays that were seen.
pub fn remember_displays(tape: &mut Tape, displays: &Vec<Display>) -> (r: Result<
    Result<(), String>,
    Effect,
>)
    ensures
        effect::course(r, final(tape).rest()) == remembered(
            display::display_views(displays@),
            old(tape).rest(),
        ),
        final(tape).all() == old(tape).all(),
{
    match read_support_file(tape, STATE_FILE_NAME) {
        Err(e) => Err(e),
        Ok(Err(error)) => Ok(Err(error)),
        Ok(Ok(file)) => {
            let body = state::remember_displays(borrow_opt(&file), displays);
            write_support_file(tape, STATE_FILE_NAME, body.as_str())
        },
    }
}

/// Remembers one display.
pub fn remember_display_metadata(tape: &mut Tape, display: &Display) -> (r: Result<
    Result<(), String>,
    Effect,
>)
    ensures
        effect::course(r, final(tape).rest()) == remembered(seq![display@], old(tape).rest()),
        final(tape).all() == old(tape).all(),
{
    match read_support_file(tape, STATE_FILE_NAME) {
        Err(e) => Err(e),
        Ok(Err(error)) => Ok(Err(error)),
        Ok(Ok(file)) => {
            let body = state::remember_display_metadata(borrow_opt(&file), display);
            write_support_file(tape, STATE_FILE_NAME, body.as_str())
        },
    }
}

/// Where nothing could be written, a warning says so.
pub open spec fn write_warned(r: Result<(), Seq<char>>, t: Seq<ReplyView>) -> Course<()> {
    match r {
        Ok(_) => Course::Ends((), t),
        Err(error) => effect::warned("warning: failed to write displayed state: "@ + error, t),
    }
}

fn warn_unwritten(tape: &mut Tape, outcome: Result<(), String>) -> (r: Result<(), Effect>)
    ensures
        effect::course(r, final(tape).rest()) == write_warned(outcome.shown(), old(tape).rest()),
        final(tape).all() == old(tape).all(),
{
    match outcome {
        Ok(_) => Ok(()),
        Err(error) => {
            let line = cat2("warning: failed to write displayed state: ", error.as_str());
            warn(tape, line.as_str())
        },
    }
}

/// The displays of a list are remembered; where that fails, a warning says so.
pub open spec fn list_remembered(seen: Seq<DisplayView>, t: Seq<ReplyView>) -> Course<()> {
    match remembered(seen, t) {
        Course::Asks(e) => Course::Asks(e),
        Course::Ends(r, t) => write_warned(r, t),
    }
}

/// Remembers the displays of a list.
pub fn remember_internal(tape: &mut Tape, parsed: &ParsedDisplayplacer) -> (r: Result<(), Effect>)
    ensures
        effect::course(r, final(tape).rest()) == list_remembered(
            parsed@.displays,
            old(tape).rest(),
        ),
        final(tape).all() == old(tape).all(),
{
    match remember_displays(tape, &parsed.displays) {
        Err(e) => Err(e),
        Ok(outcome) => warn_unwritten(tape, outcome),
    }
}

/// The ids of the built-in panel are remembered, and nothing else.
pub open spec fn panel_remembered(
    id: Seq<char>,
    serial: Option<Seq<char>>,
    number: Option<Seq<char>>,
    t: Seq<ReplyView>,
) -> Course<()> {
    match file_written(STATE_FILE_NAME@, state::panel_state(id, serial, number), t) {
        Course::Asks(e) => Course::Asks(e),
        Course::Ends(r, t) => write_warned(r, t),
    }
}

/// Remembers the ids of the built-in panel, and nothing else.
pub fn remember_internal_id(
    tape: &mut Tape,
    id: &str,
    serial: Option<&str>,
    display_id: Option<&str>,
) -> (r: Result<(), Effect>)
    ensures
        effect::course(r, final(tape).rest()) == panel_remembered(
            id@,
            text::opt_str(serial),
            text::opt_str(display_id),
            old(tape).rest(),
        ),
        final(tape).all() == old(tape).all(),
{
    let body = state::remember_internal_id(id, serial, display_id);
    match write_support_file(tape, STATE_FILE_NAME, body.as_str()) {
        Err(e) => Err(e),
        Ok(outcome) => warn_unwritten(tape, outcome),
    }
}

/// A number is remembered, unless it is known.
pub open spec fn number_remembered(n: u32, t: Seq<ReplyView>) -> Course<Result<(), Seq<char>>> {
    match file_read(STATE_FILE_NAME@, t) {
        Course::Asks(e) => Course::Asks(e),
        Course::Ends(r, t) => match r {
            Err(error) => Course::Ends(Err(error), t),
            Ok(file) => match state::state_with_number(state::file_text(file), n) {
                Some(body) => file_written(STATE_FILE_NAME@, body, t),
                None => Course::Ends(Ok(()), t),
            },
        },
    }
}

/// Remembers a number, unless it is known.
pub fn remember_contextual_display_id(tape: &mut Tape, display_id: CGDirectDisplayID) -> (r: Result<
    Result<(), String>,
    Effect,
>)
    ensures
        effect::course(r, final(tape).rest()) == number_remembered(display_id, old(tape).rest()),
        final(tape).all() == old(tape).all(),
{
    match read_support_file(tape, STATE_FILE_NAME) {
        Err(e) => Err(e),
        Ok(Err(error)) => Ok(Err(error)),
        Ok(Ok(file)) => match state::remember_contextual_display_id(borrow_opt(&file), display_id) {
            Some(body) => write_support_file(tape, STATE_FILE_NAME, body.as_str()),
            None => Ok(Ok(())),
        },
    }
}

/// The value of a key is read.
pub open spec fn value_read(key: Seq<char>, t: Seq<ReplyView>) -> Course<
    Result<Option<Seq<char>>, Seq<char>>,
> {
    match file_read(STATE_FILE_NAME@, t) {
        Course::Asks(e) => Course::Asks(e),
        Course::Ends(r, t) => Course::Ends(
            match r {
                Ok(file) => Ok(state::state_value(state::file_text(file), key)),
                Err(error) => Err(error),
            },
            t,
        ),
    }
}

/// Reads the value of a key.
pub fn read_state_value(tape: &mut Tape, key: &str) -> (r: Result<
    Result<Option<String>, String>,
    Effect,
>)
    ensures
        effect::course(r, final(tape).rest()) == value_read(key@, old(tape).rest()),
        final(tape).all() == old(tape).all(),
{
    match read_support_file(tape, STATE_FILE_NAME) {
        Err(e) => Err(e),
        Ok(Err(error)) => Ok(Err(error)),
        Ok(Ok(file)) => Ok(Ok(state::read_state_value(borrow_opt(&file), key))),
    }
}

/// The values of a key are read.
pub open spec fn values_read(key: Seq<char>, t: Seq<ReplyView>) -> Course<
    Result<Seq<Seq<char>>, Seq<char>>,
> {
    match file_read(STATE_FILE_NAME@, t) {
        Course::Asks(e) => Course::Asks(e),
        Course::Ends(r, t) => Course::Ends(
            match r {
                Ok(file) => Ok(state::state_values(state::file_text(file), key)),
                Err(error) => Err(error),
            },
            t,
        ),
    }
}

/// Reads the values of a key.
pub fn read_state_values(tape: &mut Tape, key: &str) -> (r: Result<
    Result<Vec<String>, String>,
    Effect,
>)
    ensures
        effect::course(r, final(tape).rest()) == values_read(key@, old(tape).rest()),
        final(tape).all() == old(tape).all(),
{
    match read_support_file(tape, STATE_FILE_NAME) {
        Err(e) => Err(e),
        Ok(Err(error)) => Ok(Err(error)),
        Ok(Ok(file)) => Ok(Ok(state::read_state_values(borrow_opt(&file), key))),
    }
}

/// The numbers that are remembered are read: first that of the built-in panel,
/// then, from the file as it is by then, those of the known displays.
pub open spec fn numbers_read(t: Seq<ReplyView>) -> Course<Result<Seq<u32>, Seq<char>>> {
    match value_read("internal_display_id"@, t) {
        Course::Asks(e) => Course::Asks(e),
        Course::Ends(r, t) => match r {
            Err(error) => Course::Ends(Err(error), t),
            Ok(panel) => match values_read("known_display_id"@, t) {
                Course::Asks(e) => Course::Asks(e),
                Course::Ends(r, t) => Course::Ends(
                    match r {
                        Ok(known) => Ok(state::numbers_named(panel, known)),
                        Err(error) => Err(error),
                    },
                    t,
                ),
            },
        },
    }
}

/// Reads the numbers that are remembered.
pub fn remembered_display_ids(tape: &mut Tape) -> (r: Result<
    Result<Vec<CGDirectDisplayID>, String>,
    Effect,
>)
    ensures
        effect::course(r, final(tape).rest()) == numbers_read(old(tape).rest()),
        final(tape).all() == old(tape).all(),
{
    let panel = match read_state_value(tape, "internal_display_id") {
        Err(e) => return Err(e),
        Ok(Err(error)) => return Ok(Err(error)),
        Ok(Ok(panel)) => panel,
    };
    match read_state_values(tape, "known_display_id") {
        Err(e) => Err(e),
        Ok(Err(error)) => Ok(Err(error)),
        Ok(Ok(known)) => Ok(Ok(state::remembered_display_ids(borrow_opt(&panel), &known))),
    }
}

/// The number of the built-in panel is read.
pub open spec fn panel_number_read(t: Seq<ReplyView>) -> Course<Result<Option<u32>, Seq<char>>> {
    match file_read(STATE_FILE_NAME@, t) {
        Course::Asks(e) => Course::Asks(e),
        Course::Ends(r, t) => Course::Ends(
            match r {
                Ok(file) => match state::panel_number(state::file_text(file)) {
                    Ok(n) => Ok(n),
                    Err(error) => Err(number::number_error_text(error)),
                },
                Err(error) => Err(error),
            },
            t,
        ),
    }
}

/// Reads the number of the built-in panel.
pub fn remembered_internal_display_id(tape: &mut Tape) -> (r: Result<
    Result<Option<CGDirectDisplayID>, String>,
    Effect,
>)
    ensures
        effect::course(r, final(tape).rest()) == panel_number_read(old(tape).rest()),
        final(tape).all() == old(tape).all(),
{
    match read_support_file(tape, STATE_FILE_NAME) {
        Err(e) => Err(e),
        Ok(Err(error)) => Ok(Err(error)),
        Ok(Ok(file)) => match state::remembered_internal_display_id(borrow_opt(&file)) {
            Ok(n) => Ok(Ok(n)),
            Err(error) => Ok(Err(error.message())),
        },
    }
}

/// The line on the remembered panel is read: its id, its serial number and its
/// number, each from the file as it is by then.
pub open spec fn summary_read(t: Seq<ReplyView>) -> Course<Result<Option<Seq<char>>, Seq<char>>> {
    match value_read("internal_id"@, t) {
        Course::Asks(e) => Course::Asks(e),
        Course::Ends(r, t) => match r {
            Err(error) => Course::Ends(Err(error), t),
            Ok(id) => match value_read("internal_serial"@, t) {
                Course::Asks(e) => Course::Asks(e),
                Course::Ends(r, t) => match r {
                    Err(error) => Course::Ends(Err(error), t),
                    Ok(serial) => match value_read("internal_display_id"@, t) {
                        Course::Asks(e) => Course::Asks(e),
                        Course::Ends(r, t) => Course::Ends(
                            match r {
                                Ok(number) => Ok(state::panel_summary(id, serial, number)),
                                Err(error) => Err(error),
                            },
                            t,
                        ),
                    },
                },
            },
        },
    }
}

/// Reads the line on the remembered panel.
pub fn remembered_internal_summary(tape: &mut Tape) -> (r: Result<
    Result<Option<String>, String>,
    Effect,
>)
    ensures
        effect::course(r, final(tape).rest()) == summary_read(old(tape).rest()),
        final(tape).all() == old(tape).all(),
{
    let id = match read_state_value(tape, "internal_id") {
        Err(e) => return Err(e),
        Ok(Err(error)) => return Ok(Err(error)),
        Ok(Ok(id)) => id,
    };
    let serial = match read_state_value(tape, "internal_serial") {
        Err(e) => return Err(e),
        Ok(Err(error)) => return Ok(Err(error)),
        Ok(Ok(serial)) => serial,
    };
    match read_state_value(tape, "internal_display_id") {
        Err(e) => Err(e),
        Ok(Err(error)) => Ok(Err(error)),
        Ok(Ok(number)) => Ok(Ok(state::remembered_internal_summary(&id, &serial, &number))),
    }
}

/// Live displays are listed with what is remembered and saved.
pub open spec fn displays_merged(live: Seq<DisplayView>, t: Seq<ReplyView>) -> Course<
    Result<Seq<DisplayView>, Seq<char>>,
> {
    match file_read(STATE_FILE_NAME@, t) {
        Course::Asks(e) => Course::Asks(e),
        Course::Ends(r, t) => match r {
            Err(error) => Course::Ends(Err(error), t),
            Ok(known) => match file_read(TARGETS_FILE_NAME@, t) {
                Course::Asks(e) => Course::Asks(e),
                Course::Ends(r, t) => match r {
                    Err(error) => Course::Ends(Err(error), t),
                    Ok(saved) => Course::Ends(
                        Ok(state::merged(state::remembered_and_saved(known, saved), live)),
                        t,
                    ),
                },
            },
        },
    }
}

/// Lists live displays with what is remembered and saved.
pub fn merge_remembered_displays(tape: &mut Tape, live_displays: Vec<Display>) -> (r: Result<
    Result<Vec<Display>, String>,
    Effect,
>)
    ensures
        effect::course(r, final(tape).rest()) == displays_merged(
            display::display_views(live_displays@),
            old(tape).rest(),
        ),
        final(tape).all() == old(tape).all(),
{
    let known = match read_support_file(tape, STATE_FILE_NAME) {
        Err(e) => return Err(e),
        Ok(Err(error)) => return Ok(Err(error)),
        Ok(Ok(known)) => known,
    };
    match read_support_file(tape, TARGETS_FILE_NAME) {
        Err(e) => Err(e),
        Ok(Err(error)) => Ok(Err(error)),
        Ok(Ok(saved)) => Ok(
            Ok(
                state::merge_remembered_displays(
                    live_displays,
                    borrow_opt(&known),
                    borrow_opt(&saved),
                ),
            ),
        ),
    }
}

/// A display is added to the saved targets, and remembered, or removed from
/// them. The value is whether it was added.
pub open spec fn target_toggled(d: DisplayView, t: Seq<ReplyView>) -> Course<
    Result<bool, Seq<char>>,
> {
    match target::target_of(d) {
        None => Course::Ends(Err("selected display cannot be used as an auto target"@), t),
        Some(one) => match targets_loaded(t) {
            Course::Asks(e) => Course::Asks(e),
            Course::Ends(r, t) => match r {
                Err(error) => Course::Ends(Err(error), t),
                Ok(saved) => match targets_saved(target::toggled(saved, one), t) {
                    Course::Asks(e) => Course::Asks(e),
                    Course::Ends(r, t) => match r {
                        Err(error) => Course::Ends(Err(error), t),
                        Ok(_) => if target::saved_at(saved, one) < saved.len() {
                            Course::Ends(Ok(false), t)
                        } else {
                            match remembered(seq![d], t) {
                                Course::Asks(e) => Course::Asks(e),
                                Course::Ends(r, t) => match r {
                                    Err(error) => Course::Ends(Err(error), t),
                                    Ok(_) => Course::Ends(Ok(true), t),
                                },
                            }
                        },
                    },
                },
            },
        },
    }
}

/// Adds a display to the saved targets, or removes it from them.
pub fn toggle_target_for_display(tape: &mut Tape, display: &Display) -> (r: Result<
    Result<bool, String>,
    Effect,
>)
    ensures
        effect::course(r, final(tape).rest()) == target_toggled(display@, old(tape).rest()),
        final(tape).all() == old(tape).all(),
{
    if MonitorTarget::from_display(display).is_none() {
        return Ok(Err(owned("selected display cannot be used as an auto target")));
    }
    let file = match read_support_file(tape, TARGETS_FILE_NAME) {
        Err(e) => return Err(e),
        Ok(Err(error)) => return Ok(Err(error)),
        Ok(Ok(file)) => file,
    };
    proof {
        target::lemma_saved_at(
            target::targets_of_file(text::opt_text(file)),
            target::target_of(display@)->0,
        );
    }
    let (targets, added) = match target::toggle_target_for_display(display, borrow_opt(&file)) {
        Err(error) => return Ok(Err(error)),
        Ok(pair) => pair,
    };
    match save_targets(tape, &targets) {
        Err(e) => return Err(e),
        Ok(Err(error)) => return Ok(Err(error)),
        Ok(Ok(_)) => {},
    }
    if !added {
        return Ok(Ok(false));
    }
    match remember_display_metadata(tape, display) {
        Err(e) => Err(e),
        Ok(Err(error)) => Ok(Err(error)),
        Ok(Ok(_)) => Ok(Ok(true)),
    }
}

} // verus!
