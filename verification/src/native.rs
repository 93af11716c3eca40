//! What the window server is asked to do.

use vstd::prelude::*;

use crate::commands;
use crate::commands::is_over_time;
use crate::display::CGDirectDisplayID;
use crate::effect;
use crate::effect::{say_if, Course, Effect, EffectView, ReplyView, Tape};
use crate::files;
use crate::files::log_event;
use crate::number;
use crate::number::{bool_str, decimal, decimal_signed};
use crate::policy::ActionMode;
use crate::text::{cat2, cat4, cat5};

verus! {

// ---------------------------------------------------------------------------
// Detection.
// ---------------------------------------------------------------------------
/// The displays are detected anew; in a dry run it is only said.
pub open spec fn detected(mode: ActionMode, verbose: bool, t: Seq<ReplyView>) -> Course<
    Result<(), Seq<char>>,
> {
    if mode == ActionMode::DryRun {
        match effect::said_if(verbose, "dry-run: SLSDetectDisplays()"@, t) {
            Course::Asks(e) => Course::Asks(e),
            Course::Ends(_, t) => Course::Ends(Ok(()), t),
        }
    } else {
        match effect::said_if(verbose, "running: SLSDetectDisplays()"@, t) {
            Course::Asks(e) => Course::Asks(e),
            Course::Ends(_, t) => effect::asks_done(EffectView::Detect, t),
        }
    }
}

/// Detects the displays anew.
pub fn detect_displays(tape: &mut Tape, mode: ActionMode, verbose: bool) -> (r: Result<
    Result<(), String>,
    Effect,
>)
    ensures
        effect::course(r, final(tape).rest()) == detected(mode, verbose, old(tape).rest()),
        final(tape).all() == old(tape).all(),
{
    if mode == ActionMode::DryRun {
        return match say_if(tape, verbose, "dry-run: SLSDetectDisplays()") {
            Err(e) => Err(e),
            Ok(_) => Ok(Ok(())),
        };
    }
    match say_if(tape, verbose, "running: SLSDetectDisplays()") {
        Err(e) => Err(e),
        Ok(_) => tape.ask_done(Effect::Detect),
    }
}

/// Detects the displays anew, and says so.
pub fn run_sls_detect_displays(tape: &mut Tape, mode: ActionMode) -> (r: Result<
    Result<(), String>,
    Effect,
>)
    ensures
        effect::course(r, final(tape).rest()) == detected(mode, true, old(tape).rest()),
        final(tape).all() == old(tape).all(),
{
    detect_displays(tape, mode, true)
}

// ---------------------------------------------------------------------------
// Switching.
// ---------------------------------------------------------------------------
/// The call that switches a display, as it is announced.
pub open spec fn configure_text(id: u32, enabled: bool) -> Seq<char> {
    "CGSConfigureDisplayEnabled(display_id:"@ + number::dec(id as nat) + ", enabled:"@
        + number::bool_text(enabled) + ")"@
}

fn configure_call(id: u32, enabled: bool) -> (r: String)
    ensures
        r@ == configure_text(id, enabled),
{
    let digits = decimal(id as u64);
    cat5(
        "CGSConfigureDisplayEnabled(display_id:",
        digits.as_str(),
        ", enabled:",
        bool_str(enabled),
        ")",
    )
}

/// The beginning of the log's line on a switch.
pub open spec fn configure_log(id: u32, enabled: bool) -> Seq<char> {
    "cgs-configure: display_id="@ + number::dec(id as nat) + " enabled="@ + number::bool_text(
        enabled,
    )
}

fn configure_note(id: u32, enabled: bool) -> (r: String)
    ensures
        r@ == configure_log(id, enabled),
{
    let digits = decimal(id as u64);
    cat4("cgs-configure: display_id=", digits.as_str(), " enabled=", bool_str(enabled))
}

/// A display is switched on or off by the window server; in a dry run it is
/// only said. A configuration that fails is dropped.
pub open spec fn native_switched(
    id: u32,
    enabled: bool,
    mode: ActionMode,
    verbose: bool,
    t: Seq<ReplyView>,
) -> Course<Result<(), Seq<char>>> {
    if mode == ActionMode::DryRun {
        match effect::said_if(verbose, "dry-run: "@ + configure_text(id, enabled), t) {
            Course::Asks(e) => Course::Asks(e),
            Course::Ends(_, t) => Course::Ends(Ok(()), t),
        }
    } else {
        match effect::said_if(verbose, "running: "@ + configure_text(id, enabled), t) {
            Course::Asks(e) => Course::Asks(e),
            Course::Ends(_, t) => match effect::asks_code(EffectView::BeginConfiguration, t) {
                Course::Asks(e) => Course::Asks(e),
                Course::Ends(begin, t) => if begin != 0 {
                    Course::Ends(
                        Err(
                            "CGBeginDisplayConfiguration failed: "@ + number::dec_signed(
                                begin as int,
                            ),
                        ),
                        t,
                    )
                } else {
                    configured(id, enabled, t)
                },
            },
        }
    }
}

/// In a configuration that was begun, a display is switched.
pub open spec fn configured(id: u32, enabled: bool, t: Seq<ReplyView>) -> Course<
    Result<(), Seq<char>>,
> {
    match effect::asks_code(EffectView::ConfigureEnabled { display: id, enabled }, t) {
        Course::Asks(e) => Course::Asks(e),
        Course::Ends(code, t) => if code != 0 {
            let digits = number::dec_signed(code as int);
            match effect::asks_any(EffectView::CancelConfiguration, t) {
                Course::Asks(e) => Course::Asks(e),
                Course::Ends(_, t) => match files::logged(
                    configure_log(id, enabled) + " configure_err="@ + digits,
                    t,
                ) {
                    Course::Asks(e) => Course::Asks(e),
                    Course::Ends(_, t) => Course::Ends(
                        Err("CGSConfigureDisplayEnabled failed: "@ + digits),
                        t,
                    ),
                },
            }
        } else {
            match effect::asks_code(EffectView::CompleteConfiguration, t) {
                Course::Asks(e) => Course::Asks(e),
                Course::Ends(code, t) => if code != 0 {
                    let digits = number::dec_signed(code as int);
                    match files::logged(
                        configure_log(id, enabled) + " complete_err="@ + digits,
                        t,
                    ) {
                        Course::Asks(e) => Course::Asks(e),
                        Course::Ends(_, t) => Course::Ends(
                            Err("CGCompleteDisplayConfiguration failed: "@ + digits),
                            t,
                        ),
                    }
                } else {
                    match files::logged(configure_log(id, enabled) + " ok"@, t) {
                        Course::Asks(e) => Course::Asks(e),
                        Course::Ends(_, t) => Course::Ends(Ok(()), t),
                    }
                },
            }
        },
    }
}

fn configure(tape: &mut Tape, id: u32, enabled: bool) -> (r: Result<Result<(), String>, Effect>)
    ensures
        effect::course(r, final(tape).rest()) == configured(id, enabled, old(tape).rest()),
        final(tape).all() == old(tape).all(),
{
    let note = configure_note(id, enabled);
    let code: i32 = match tape.ask_code(Effect::ConfigureEnabled { display: id, enabled }) {
        Err(e) => return Err(e),
        Ok(code) => code,
    };
    if code != 0 {
        let digits = decimal_signed(code);
        match tape.ask_any(Effect::CancelConfiguration) {
            Err(e) => return Err(e),
            Ok(_) => {},
        }
        let mut line = cat2(note.as_str(), " configure_err=");
        line.append(digits.as_str());
        return match log_event(tape, line.as_str()) {
            Err(e) => Err(e),
            Ok(_) => Ok(Err(cat2("CGSConfigureDisplayEnabled failed: ", digits.as_str()))),
        };
    }
    let code: i32 = match tape.ask_code(Effect::CompleteConfiguration) {
        Err(e) => return Err(e),
        Ok(code) => code,
    };
    if code != 0 {
        let digits = decimal_signed(code);
        let mut line = cat2(note.as_str(), " complete_err=");
        line.append(digits.as_str());
        return match log_event(tape, line.as_str()) {
            Err(e) => Err(e),
            Ok(_) => Ok(Err(cat2("CGCompleteDisplayConfiguration failed: ", digits.as_str()))),
        };
    }
    let line = cat2(note.as_str(), " ok");
    match log_event(tape, line.as_str()) {
        Err(e) => Err(e),
        Ok(_) => Ok(Ok(())),
    }
}

/// Switches a display on or off by the window server.
pub fn set_native_display_enabled(
    tape: &mut Tape,
    display_id: CGDirectDisplayID,
    enabled: bool,
    mode: ActionMode,
    verbose: bool,
) -> (r: Result<Result<(), String>, Effect>)
    ensures
        effect::course(r, final(tape).rest()) == native_switched(
            display_id,
            enabled,
            mode,
            verbose,
            old(tape).rest(),
        ),
        final(tape).all() == old(tape).all(),
{
    let call = configure_call(display_id, enabled);
    if mode == ActionMode::DryRun {
        let line = cat2("dry-run: ", call.as_str());
        return match say_if(tape, verbose, line.as_str()) {
            Err(e) => Err(e),
            Ok(_) => Ok(Ok(())),
        };
    }
    let line = cat2("running: ", call.as_str());
    match say_if(tape, verbose, line.as_str()) {
        Err(e) => return Err(e),
        Ok(_) => {},
    }
    let begin: i32 = match tape.ask_code(Effect::BeginConfiguration) {
        Err(e) => return Err(e),
        Ok(begin) => begin,
    };
    if begin != 0 {
        let digits = decimal_signed(begin);
        return Ok(Err(cat2("CGBeginDisplayConfiguration failed: ", digits.as_str())));
    }
    configure(tape, display_id, enabled)
}

// ---------------------------------------------------------------------------
// The built-in display.
// ---------------------------------------------------------------------------
/// The first of the displays that is the built-in one.
pub open spec fn builtin_among(ids: Seq<u32>, t: Seq<ReplyView>) -> Course<Option<u32>>
    decreases ids.len(),
{
    if ids.len() == 0 {
        Course::Ends(None, t)
    } else {
        match effect::asks_flag(EffectView::AskBuiltin(ids[0]), t) {
            Course::Asks(e) => Course::Asks(e),
            Course::Ends(builtin, t) => if builtin {
                Course::Ends(Some(ids[0]), t)
            } else {
                builtin_among(ids.skip(1), t)
            },
        }
    }
}

/// The built-in display is looked for among those that are online.
pub open spec fn builtin_found(t: Seq<ReplyView>) -> Course<Option<u32>> {
    match effect::asks_numbers(EffectView::OnlineDisplays, t) {
        Course::Asks(e) => Course::Asks(e),
        Course::Ends(ids, t) => builtin_among(ids, t),
    }
}

/// Looks for the built-in display among those that are online.
pub fn current_builtin_display_id(tape: &mut Tape) -> (r: Result<Option<CGDirectDisplayID>, Effect>)
    ensures
        effect::course(r, final(tape).rest()) == builtin_found(old(tape).rest()),
        final(tape).all() == old(tape).all(),
{
    let ids = match tape.ask_numbers(Effect::OnlineDisplays) {
        Err(e) => return Err(e),
        Ok(ids) => ids,
    };
    let ghost whole = builtin_among(ids@, tape.rest());
    let mut i: usize = 0;
    assert(ids@.skip(0) =~= ids@);
    while i < ids.len()
        invariant
            tape.all() == old(tape).all(),
            i <= ids.len(),
            whole == builtin_found(old(tape).rest()),
            builtin_among(ids@.skip(i as int), tape.rest()) == whole,
        decreases ids.len() - i,
    {
        assert(ids@.skip(i as int).skip(1) =~= ids@.skip(i + 1));
        assert(ids@.skip(i as int)[0] == ids@[i as int]);
        match tape.ask_flag(Effect::AskBuiltin(ids[i])) {
            Err(e) => return Err(e),
            Ok(builtin) => {
                if builtin {
                    return Ok(Some(ids[i]));
                }
            },
        }
        i = i + 1;
    }
    Ok(None)
}

/// Whether the built-in display is online and active.
pub open spec fn activity_found(t: Seq<ReplyView>) -> Course<bool> {
    match builtin_found(t) {
        Course::Asks(e) => Course::Asks(e),
        Course::Ends(found, t) => match found {
            Some(id) => effect::asks_flag(EffectView::AskActive(id), t),
            None => Course::Ends(false, t),
        },
    }
}

/// Whether the built-in display is online and active.
pub fn builtin_display_active(tape: &mut Tape) -> (r: Result<bool, Effect>)
    ensures
        effect::course(r, final(tape).rest()) == activity_found(old(tape).rest()),
        final(tape).all() == old(tape).all(),
{
    match current_builtin_display_id(tape) {
        Err(e) => Err(e),
        Ok(Some(id)) => tape.ask_flag(Effect::AskActive(id)),
        Ok(None) => Ok(false),
    }
}

proof fn lemma_among_shrinks(ids: Seq<u32>, t: Seq<ReplyView>)
    ensures
        builtin_among(ids, t) matches Course::Ends(_, rest) ==> rest.len() <= t.len(),
    decreases ids.len(),
{
    if ids.len() > 0 && t.len() > 0 {
        lemma_among_shrinks(ids.skip(1), t.skip(1));
    }
}

/// To ask for the built-in display lengthens no tape.
pub proof fn lemma_activity_shrinks(t: Seq<ReplyView>)
    ensures
        activity_found(t) matches Course::Ends(_, rest) ==> rest.len() <= t.len(),
{
    if t.len() > 0 {
        lemma_among_shrinks(effect::as_numbers(t[0]), t.skip(1));
    }
}

/// The built-in display is asked for until it is active, or the time is over.
pub open spec fn activity_awaited(start: u64, timeout_ms: u32, t: Seq<ReplyView>) -> Course<bool>
    decreases t.len(),
{
    proof {
        lemma_activity_shrinks(t);
    }
    match activity_found(t) {
        Course::Asks(e) => Course::Asks(e),
        Course::Ends(active, t1) => if active {
            Course::Ends(true, t1)
        } else {
            match effect::asks_nanos(EffectView::Clock, t1) {
                Course::Asks(e) => Course::Asks(e),
                Course::Ends(now, t2) => if commands::over_time(start, now, timeout_ms) {
                    Course::Ends(false, t2)
                } else {
                    match effect::asks_any(EffectView::Sleep(250), t2) {
                        Course::Asks(e) => Course::Asks(e),
                        Course::Ends(_, t3) => activity_awaited(start, timeout_ms, t3),
                    }
                },
            }
        },
    }
}

/// For some time, the built-in display is waited for.
pub open spec fn activity_waited(timeout_ms: u32, t: Seq<ReplyView>) -> Course<bool> {
    match effect::asks_nanos(EffectView::Clock, t) {
        Course::Asks(e) => Course::Asks(e),
        Course::Ends(start, t) => activity_awaited(start, timeout_ms, t),
    }
}

/// Waits for the built-in display to become active, for some time.
pub fn wait_for_builtin_active(tape: &mut Tape, timeout_ms: u32) -> (r: Result<bool, Effect>)
    ensures
        effect::course(r, final(tape).rest()) == activity_waited(timeout_ms, old(tape).rest()),
        final(tape).all() == old(tape).all(),
{
    let start: u64 = match tape.ask_nanos(Effect::Clock) {
        Err(e) => return Err(e),
        Ok(start) => start,
    };
    let ghost whole = activity_awaited(start, timeout_ms, tape.rest());
    loop
        invariant
            tape.all() == old(tape).all(),
            whole == activity_waited(timeout_ms, old(tape).rest()),
            activity_awaited(start, timeout_ms, tape.rest()) == whole,
        decreases tape.rest().len(),
    {
        proof {
            lemma_activity_shrinks(tape.rest());
        }
        match builtin_display_active(tape) {
            Err(e) => return Err(e),
            Ok(active) => {
                if active {
                    return Ok(true);
                }
            },
        }
        let now: u64 = match tape.ask_nanos(Effect::Clock) {
            Err(e) => return Err(e),
            Ok(now) => now,
        };
        if is_over_time(start, now, timeout_ms) {
            return Ok(false);
        }
        match tape.ask_any(Effect::Sleep(250)) {
            Err(e) => return Err(e),
            Ok(_) => {},
        }
    }
}

} // verus!
