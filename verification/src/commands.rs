//! Commands that are run: `displayplacer`, and those that must not take long.

use vstd::prelude::*;

use crate::effect;
use crate::effect::{say_if, Course, Effect, EffectView, ReplyView, Tape};
use crate::number;
use crate::number::decimal;
use crate::placer;
use crate::placer::{
    displayplacer_argument, parse_displayplacer_output, Capture, CaptureView, ParsedDisplayplacer,
    ParsedView,
};
use crate::policy::ActionMode;
use crate::text;
use crate::text::{cat2, cat3, cat4, cat5, copy_texts, join, list1, owned};

verus! {

// ---------------------------------------------------------------------------
// Commands with a time limit.
// ---------------------------------------------------------------------------
/// The nanoseconds between two times of the clock.
pub open spec fn elapsed(start: u64, now: u64) -> nat {
    if now >= start {
        (now - start) as nat
    } else {
        0
    }
}

/// The time limit is reached.
pub open spec fn over_time(start: u64, now: u64, timeout_ms: u32) -> bool {
    elapsed(start, now) >= timeout_ms * 1_000_000
}

/// Whether the time limit is reached.
pub fn is_over_time(start: u64, now: u64, timeout_ms: u32) -> (r: bool)
    ensures
        r == over_time(start, now, timeout_ms),
{
    let passed: u64 = if now >= start {
        now - start
    } else {
        0
    };
    passed >= timeout_ms as u64 * 1_000_000
}

/// What is said of a command that took too long.
pub open spec fn timeout_text(
    program: Seq<char>,
    arguments: Seq<Seq<char>>,
    timeout_ms: u32,
) -> Seq<char> {
    "`"@ + program + " "@ + text::joined(arguments, " "@) + "` timed out after "@ + number::dec(
        timeout_ms as nat,
    ) + "ms"@
}

fn timeout_message(program: &str, arguments: &Vec<String>, timeout_ms: u32) -> (r: String)
    ensures
        r@ == timeout_text(program@, text::texts(arguments@), timeout_ms),
{
    let words = join(arguments, " ");
    let digits = decimal(timeout_ms as u64);
    let mut message = cat4("`", program, " ", words.as_str());
    message.append("` timed out after ");
    message.append(digits.as_str());
    message.append("ms");
    message
}

/// The end of a started command is awaited, until the time limit.
pub open spec fn end_awaited(
    program: Seq<char>,
    arguments: Seq<Seq<char>>,
    timeout_ms: u32,
    start: u64,
    t: Seq<ReplyView>,
) -> Course<Result<CaptureView, Seq<char>>>
    decreases t.len(),
{
    match effect::asks_ended(EffectView::Poll, t) {
        Course::Asks(e) => Course::Asks(e),
        Course::Ends(r, t1) => match r {
            Err(error) => Course::Ends(Err(error), t1),
            Ok(ended) => if ended {
                effect::asks_ran(EffectView::Collect, t1)
            } else {
                match effect::asks_nanos(EffectView::Clock, t1) {
                    Course::Asks(e) => Course::Asks(e),
                    Course::Ends(now, t2) => if over_time(start, now, timeout_ms) {
                        match effect::asks_any(EffectView::Kill, t2) {
                            Course::Asks(e) => Course::Asks(e),
                            Course::Ends(_, t3) => Course::Ends(
                                Err(timeout_text(program, arguments, timeout_ms)),
                                t3,
                            ),
                        }
                    } else {
                        match effect::asks_any(EffectView::Sleep(20), t2) {
                            Course::Asks(e) => Course::Asks(e),
                            Course::Ends(_, t3) => end_awaited(
                                program,
                                arguments,
                                timeout_ms,
                                start,
                                t3,
                            ),
                        }
                    },
                }
            },
        },
    }
}

/// A command is run, and killed where it reaches the time limit.
pub open spec fn timed_run(
    program: Seq<char>,
    arguments: Seq<Seq<char>>,
    timeout_ms: u32,
    t: Seq<ReplyView>,
) -> Course<Result<CaptureView, Seq<char>>> {
    match effect::asks_done(EffectView::Spawn { program, arguments }, t) {
        Course::Asks(e) => Course::Asks(e),
        Course::Ends(r, t) => match r {
            Err(error) => Course::Ends(Err(error), t),
            Ok(_) => match effect::asks_nanos(EffectView::Clock, t) {
                Course::Asks(e) => Course::Asks(e),
                Course::Ends(start, t) => end_awaited(program, arguments, timeout_ms, start, t),
            },
        },
    }
}

/// Runs a command, and kills it where it reaches the time limit.
pub fn run_command_with_timeout(
    tape: &mut Tape,
    program: &str,
    arguments: &Vec<String>,
    timeout_ms: u32,
) -> (r: Result<Result<Capture, String>, Effect>)
    ensures
        effect::course(r, final(tape).rest()) == timed_run(
            program@,
            text::texts(arguments@),
            timeout_ms,
            old(tape).rest(),
        ),
        final(tape).all() == old(tape).all(),
{
    let ghost words = text::texts(arguments@);
    match tape.ask_done(
        Effect::Spawn { program: owned(program), arguments: copy_texts(arguments) },
    ) {
        Err(e) => return Err(e),
        Ok(Err(error)) => return Ok(Err(error)),
        Ok(Ok(_)) => {},
    }
    let start: u64 = match tape.ask_nanos(Effect::Clock) {
        Err(e) => return Err(e),
        Ok(start) => start,
    };
    let ghost whole = end_awaited(program@, words, timeout_ms, start, tape.rest());
    loop
        invariant
            tape.all() == old(tape).all(),
            words == text::texts(arguments@),
            whole == timed_run(program@, words, timeout_ms, old(tape).rest()),
            end_awaited(program@, words, timeout_ms, start, tape.rest()) == whole,
        decreases tape.rest().len(),
    {
        match tape.ask_ended(Effect::Poll) {
            Err(e) => return Err(e),
            Ok(Err(error)) => return Ok(Err(error)),
            Ok(Ok(ended)) => {
                if ended {
                    return tape.ask_ran(Effect::Collect);
                }
            },
        }
        let now: u64 = match tape.ask_nanos(Effect::Clock) {
            Err(e) => return Err(e),
            Ok(now) => now,
        };
        if is_over_time(start, now, timeout_ms) {
            return match tape.ask_any(Effect::Kill) {
                Err(e) => Err(e),
                Ok(_) => Ok(Err(timeout_message(program, arguments, timeout_ms))),
            };
        }
        match tape.ask_any(Effect::Sleep(20)) {
            Err(e) => return Err(e),
            Ok(_) => {},
        }
    }
}

// ---------------------------------------------------------------------------
// `displayplacer`.
// ---------------------------------------------------------------------------
/// What a run comes to that should list the displays.
pub open spec fn as_list(r: Result<CaptureView, Seq<char>>) -> Result<ParsedView, Seq<char>> {
    match r {
        Ok(capture) => placer::list_outcome(capture),
        Err(error) => Err(error),
    }
}

/// The displays are listed.
pub open spec fn displays_listed(t: Seq<ReplyView>) -> Course<Result<ParsedView, Seq<char>>> {
    match effect::asks_ran(
        EffectView::Run { program: "displayplacer"@, arguments: seq!["list"@] },
        t,
    ) {
        Course::Asks(e) => Course::Asks(e),
        Course::Ends(r, t) => Course::Ends(as_list(r), t),
    }
}

/// Lists the displays.
pub fn load_displayplacer(tape: &mut Tape) -> (r: Result<
    Result<ParsedDisplayplacer, String>,
    Effect,
>)
    ensures
        effect::course(r, final(tape).rest()) == displays_listed(old(tape).rest()),
        final(tape).all() == old(tape).all(),
{
    match tape.ask_ran(Effect::Run { program: owned("displayplacer"), arguments: list1("list") }) {
        Err(e) => Err(e),
        Ok(Err(error)) => Ok(Err(error)),
        Ok(Ok(capture)) => Ok(parse_displayplacer_output(&capture)),
    }
}

/// The displays are listed within a time limit.
pub open spec fn displays_listed_within(timeout_ms: u32, t: Seq<ReplyView>) -> Course<
    Result<ParsedView, Seq<char>>,
> {
    match timed_run("displayplacer"@, seq!["list"@], timeout_ms, t) {
        Course::Asks(e) => Course::Asks(e),
        Course::Ends(r, t) => Course::Ends(as_list(r), t),
    }
}

/// Lists the displays within a time limit.
pub fn load_displayplacer_with_timeout(tape: &mut Tape, timeout_ms: u32) -> (r: Result<
    Result<ParsedDisplayplacer, String>,
    Effect,
>)
    ensures
        effect::course(r, final(tape).rest()) == displays_listed_within(
            timeout_ms,
            old(tape).rest(),
        ),
        final(tape).all() == old(tape).all(),
{
    let arguments = list1("list");
    match run_command_with_timeout(tape, "displayplacer", &arguments, timeout_ms) {
        Err(e) => Err(e),
        Ok(Err(error)) => Ok(Err(error)),
        Ok(Ok(capture)) => Ok(parse_displayplacer_output(&capture)),
    }
}

/// What a finished command printed, on both streams.
pub open spec fn output_text(capture: CaptureView) -> Seq<char> {
    capture.stdout + capture.stderr
}

/// What is said of a `displayplacer` that failed.
pub open spec fn placer_failure(capture: CaptureView) -> Seq<char> {
    "displayplacer failed with status "@ + capture.status + ":\n"@ + capture.stdout
        + capture.stderr
}

/// A display is switched on or off by `displayplacer`; in a dry run it is only
/// said. The value is what was printed.
pub open spec fn placer_switched(
    id: Seq<char>,
    enabled: bool,
    mode: ActionMode,
    verbose: bool,
    t: Seq<ReplyView>,
) -> Course<Result<Seq<char>, Seq<char>>> {
    let argument = placer::switch_argument(id, enabled);
    if mode == ActionMode::DryRun {
        let message = "dry-run: displayplacer \""@ + argument + "\""@;
        match effect::said_if(verbose, message, t) {
            Course::Asks(e) => Course::Asks(e),
            Course::Ends(_, t) => Course::Ends(Ok(message), t),
        }
    } else {
        match effect::said_if(verbose, "running: displayplacer \""@ + argument + "\""@, t) {
            Course::Asks(e) => Course::Asks(e),
            Course::Ends(_, t) => match effect::asks_ran(
                EffectView::Run { program: "displayplacer"@, arguments: seq![argument] },
                t,
            ) {
                Course::Asks(e) => Course::Asks(e),
                Course::Ends(r, t) => match r {
                    Err(error) => Course::Ends(Err(error), t),
                    Ok(capture) => if !capture.success {
                        Course::Ends(Err(placer_failure(capture)), t)
                    } else if !verbose {
                        Course::Ends(Ok(output_text(capture)), t)
                    } else {
                        match effect::asks_any(EffectView::Print(capture.stdout), t) {
                            Course::Asks(e) => Course::Asks(e),
                            Course::Ends(_, t) => match effect::asks_any(
                                EffectView::Complain(capture.stderr),
                                t,
                            ) {
                                Course::Asks(e) => Course::Asks(e),
                                Course::Ends(_, t) => Course::Ends(Ok(output_text(capture)), t),
                            },
                        }
                    },
                },
            },
        }
    }
}

/// Switches a display on or off by `displayplacer`.
pub fn set_displayplacer_enabled(
    tape: &mut Tape,
    id: &str,
    enabled: bool,
    mode: ActionMode,
    verbose: bool,
) -> (r: Result<Result<String, String>, Effect>)
    ensures
        effect::course(r, final(tape).rest()) == placer_switched(
            id@,
            enabled,
            mode,
            verbose,
            old(tape).rest(),
        ),
        final(tape).all() == old(tape).all(),
{
    let argument = displayplacer_argument(id, enabled);
    if mode == ActionMode::DryRun {
        let message = cat3("dry-run: displayplacer \"", argument.as_str(), "\"");
        return match say_if(tape, verbose, message.as_str()) {
            Err(e) => Err(e),
            Ok(_) => Ok(Ok(message)),
        };
    }
    let line = cat3("running: displayplacer \"", argument.as_str(), "\"");
    match say_if(tape, verbose, line.as_str()) {
        Err(e) => return Err(e),
        Ok(_) => {},
    }
    let capture = match tape.ask_ran(
        Effect::Run { program: owned("displayplacer"), arguments: list1(argument.as_str()) },
    ) {
        Err(e) => return Err(e),
        Ok(Err(error)) => return Ok(Err(error)),
        Ok(Ok(capture)) => capture,
    };
    let printed = cat2(capture.stdout.as_str(), capture.stderr.as_str());
    if !capture.success {
        let message = cat5(
            "displayplacer failed with status ",
            capture.status.as_str(),
            ":\n",
            capture.stdout.as_str(),
            capture.stderr.as_str(),
        );
        return Ok(Err(message));
    }
    if verbose {
        match tape.ask_any(Effect::Print(capture.stdout)) {
            Err(e) => return Err(e),
            Ok(_) => {},
        }
        match tape.ask_any(Effect::Complain(capture.stderr)) {
            Err(e) => return Err(e),
            Ok(_) => {},
        }
    }
    Ok(Ok(printed))
}

/// The outcome, without its value.
pub open spec fn settled(c: Course<Result<Seq<char>, Seq<char>>>) -> Course<Result<(), Seq<char>>> {
    match c {
        Course::Asks(e) => Course::Asks(e),
        Course::Ends(r, t) => Course::Ends(
            match r {
                Ok(_) => Ok(()),
                Err(error) => Err(error),
            },
            t,
        ),
    }
}

/// Switches a display on or off by `displayplacer`, and says so.
pub fn run_displayplacer_enabled(tape: &mut Tape, id: &str, enabled: bool, mode: ActionMode) -> (r:
    Result<Result<(), String>, Effect>)
    ensures
        effect::course(r, final(tape).rest()) == settled(
            placer_switched(id@, enabled, mode, true, old(tape).rest()),
        ),
        final(tape).all() == old(tape).all(),
{
    match set_displayplacer_enabled(tape, id, enabled, mode, true) {
        Err(e) => Err(e),
        Ok(Err(error)) => Ok(Err(error)),
        Ok(Ok(_)) => Ok(Ok(())),
    }
}

} // verus!
