//! The commands of the program.

use vstd::prelude::*;

use crate::commands;
use crate::commands::{load_displayplacer, run_displayplacer_enabled};
use crate::display::{Display, DisplayView};
use crate::effect;
use crate::effect::{say, Course, Effect, ReplyView, Shown, Tape};
use crate::files;
use crate::files::{
    load_targets, read_state_value, remember_contextual_display_id, remember_internal,
    remember_internal_id, save_targets,
};
use crate::guard;
use crate::guard::{run_internal_guard_once, safe_reset_once};
use crate::install;
use crate::install::{install_guard, uninstall_guard};
use crate::native;
use crate::native::run_sls_detect_displays;
use crate::number;
use crate::number::decimal;
use crate::options;
use crate::options::{
    disable_options, enable_options, guard_options, redetect_options, reset_options,
    restore_display_options, restore_options, targets_options,
};
use crate::placer::{ParsedDisplayplacer, ParsedView};
use crate::policy::ActionMode;
use crate::restore;
use crate::restore::{restore_display_id, restore_internal_once, INTERNAL_RESTORE_ATTEMPTS};
use crate::snapshot;
use crate::snapshot::snapshot;
use crate::switching;
use crate::switching::disable_internal_once;
use crate::target;
use crate::target::{MonitorTarget, TargetView};
use crate::text;
use crate::text::{borrow_opt, cat2, cat3, cat4, owned, same};
use crate::watch;
use crate::watch::{watch, Watch, WatchView};

verus! {

// ---------------------------------------------------------------------------
// Lines.
// ---------------------------------------------------------------------------
/// The lines are printed.
pub open spec fn lines_said(lines: Seq<Seq<char>>, t: Seq<ReplyView>) -> Course<()>
    decreases lines.len(),
{
    if lines.len() == 0 {
        Course::Ends((), t)
    } else {
        match effect::said(lines[0], t) {
            Course::Asks(e) => Course::Asks(e),
            Course::Ends(_, t) => lines_said(lines.skip(1), t),
        }
    }
}

fn say_lines(tape: &mut Tape, lines: &Vec<String>) -> (r: Result<(), Effect>)
    ensures
        effect::course(r, final(tape).rest()) == lines_said(
            text::texts(lines@),
            old(tape).rest(),
        ),
        final(tape).all() == old(tape).all(),
{
    let ghost all = text::texts(lines@);
    let ghost whole = lines_said(all, tape.rest());
    let mut i: usize = 0;
    assert(all.skip(0) =~= all);
    while i < lines.len()
        invariant
            tape.all() == old(tape).all(),
            i <= lines.len(),
            all == text::texts(lines@),
            whole == lines_said(all, old(tape).rest()),
            lines_said(all.skip(i as int), tape.rest()) == whole,
        decreases lines.len() - i,
    {
        assert(all.skip(i as int).skip(1) =~= all.skip(i + 1));
        assert(all.skip(i as int)[0] == lines[i as int]@);
        match say(tape, lines[i].as_str()) {
            Err(e) => return Err(e),
            Ok(_) => {},
        }
        i = i + 1;
    }
    Ok(())
}

/// A line on something that may be missing.
pub open spec fn detail_line(name: Seq<char>, value: Option<Seq<char>>) -> Seq<Seq<char>> {
    match value {
        Some(value) => seq![name + value],
        None => Seq::empty(),
    }
}

/// The lines on one display.
pub open spec fn display_lines(index: nat, d: DisplayView) -> Seq<Seq<char>> {
    seq!["["@ + number::dec(index) + "] "@ + d.brief_text()] + detail_line(
        "    contextual: "@,
        d.contextual_id,
    ) + detail_line("    resolution: "@, d.resolution) + detail_line("    origin: "@, d.origin)
        + detail_line("    rotation: "@, d.rotation)
}

/// The lines on the displays.
pub open spec fn displays_lines(displays: Seq<DisplayView>) -> Seq<Seq<char>>
    decreases displays.len(),
{
    if displays.len() == 0 {
        Seq::empty()
    } else {
        displays_lines(displays.drop_last()) + display_lines(
            (displays.len() - 1) as nat,
            displays.last(),
        )
    }
}

/// The lines on a list of displays.
pub open spec fn parsed_lines(parsed: ParsedView) -> Seq<Seq<char>> {
    if parsed.displays.len() == 0 {
        seq!["No displays parsed from displayplacer output."@]
    } else {
        displays_lines(parsed.displays)
    }
}

fn push_line(lines: &mut Vec<String>, line: String)
    ensures
        text::texts(final(lines)@) == text::texts(old(lines)@) + seq![line@],
{
    proof {
        text::lemma_texts_push(lines@, line);
    }
    lines.push(line);
    assert(text::texts(lines@) =~= text::texts(old(lines)@) + seq![line@]);
}

fn push_detail(lines: &mut Vec<String>, name: &str, value: Option<&str>)
    ensures
        text::texts(final(lines)@) == text::texts(old(lines)@) + detail_line(
            name@,
            text::opt_str(value),
        ),
{
    match value {
        Some(value) => {
            let line = cat2(name, value);
            push_line(lines, line);
        },
        None => {
            assert(text::texts(lines@) =~= text::texts(lines@) + Seq::<Seq<char>>::empty());
        },
    }
}

fn push_display(lines: &mut Vec<String>, index: usize, display: &Display)
    ensures
        text::texts(final(lines)@) == text::texts(old(lines)@) + display_lines(
            index as nat,
            display@,
        ),
{
    let ghost start = text::texts(lines@);
    let digits = decimal(index as u64);
    let brief = display.brief();
    let line = cat4("[", digits.as_str(), "] ", brief.as_str());
    push_line(lines, line);
    push_detail(lines, "    contextual: ", borrow_opt(&display.contextual_id));
    push_detail(lines, "    resolution: ", borrow_opt(&display.resolution));
    push_detail(lines, "    origin: ", borrow_opt(&display.origin));
    push_detail(lines, "    rotation: ", borrow_opt(&display.rotation));
    assert(text::texts(lines@) =~= start + display_lines(index as nat, display@));
}

/// Writes the lines on a list of displays.
pub fn print_parsed_displays(parsed: &ParsedDisplayplacer) -> (r: Vec<String>)
    ensures
        text::texts(r@) == parsed_lines(parsed@),
{
    if parsed.displays.len() == 0 {
        return text::list1("No displays parsed from displayplacer output.");
    }
    let ghost all = parsed@.displays;
    let mut lines: Vec<String> = Vec::new();
    let mut i: usize = 0;
    assert(text::texts(lines@) =~= displays_lines(all.take(0)));
    while i < parsed.displays.len()
        invariant
            i <= parsed.displays.len(),
            all == parsed@.displays,
            text::texts(lines@) == displays_lines(all.take(i as int)),
        decreases parsed.displays.len() - i,
    {
        proof {
            assert(all.take(i + 1).drop_last() =~= all.take(i as int));
            assert(all.take(i + 1).last() == parsed.displays[i as int]@);
        }
        push_display(&mut lines, i, &parsed.displays[i]);
        i = i + 1;
    }
    assert(all.take(i as int) =~= all);
    lines
}

/// The lines that `list` prints.
pub open spec fn listing_lines(parsed: ParsedView) -> Seq<Seq<char>> {
    parsed_lines(parsed) + (match parsed.restore_command {
        Some(command) => seq![""@, "restore command:"@, command],
        None => Seq::empty(),
    })
}

// ---------------------------------------------------------------------------
// `list` and `targets`.
// ---------------------------------------------------------------------------
/// The outcome of something that cannot fail.
pub open spec fn fine(c: Course<()>) -> Course<Result<(), Seq<char>>> {
    match c {
        Course::Asks(e) => Course::Asks(e),
        Course::Ends(_, t) => Course::Ends(Ok(()), t),
    }
}

/// The command `list`.
pub open spec fn list_run(t: Seq<ReplyView>) -> Course<Result<(), Seq<char>>> {
    match commands::displays_listed(t) {
        Course::Asks(e) => Course::Asks(e),
        Course::Ends(r, t) => match r {
            Err(error) => Course::Ends(Err(error), t),
            Ok(parsed) => match files::list_remembered(parsed.displays, t) {
                Course::Asks(e) => Course::Asks(e),
                Course::Ends(_, t) => fine(lines_said(listing_lines(parsed), t)),
            },
        },
    }
}

/// Lists the displays, and remembers them.
pub fn list_displays(tape: &mut Tape) -> (r: Result<Result<(), String>, Effect>)
    ensures
        effect::course(r, final(tape).rest()) == list_run(old(tape).rest()),
        final(tape).all() == old(tape).all(),
{
    let parsed = match load_displayplacer(tape) {
        Err(e) => return Err(e),
        Ok(Err(error)) => return Ok(Err(error)),
        Ok(Ok(parsed)) => parsed,
    };
    match remember_internal(tape, &parsed) {
        Err(e) => return Err(e),
        Ok(_) => {},
    }
    let mut lines = print_parsed_displays(&parsed);
    if let Some(command) = &parsed.restore_command {
        push_line(&mut lines, owned(""));
        push_line(&mut lines, owned("restore command:"));
        push_line(&mut lines, command.clone());
    }
    assert(text::texts(lines@) =~= listing_lines(parsed@));
    match say_lines(tape, &lines) {
        Err(e) => Err(e),
        Ok(_) => Ok(Ok(())),
    }
}

/// The lines on the saved targets.
pub open spec fn numbered_targets(targets: Seq<TargetView>) -> Seq<Seq<char>>
    decreases targets.len(),
{
    if targets.len() == 0 {
        Seq::empty()
    } else {
        numbered_targets(targets.drop_last()) + seq![
            "["@ + number::dec((targets.len() - 1) as nat) + "] "@ + targets.last().summary_text(),
        ]
    }
}

/// The lines that `targets` prints.
pub open spec fn targets_lines(targets: Seq<TargetView>) -> Seq<Seq<char>> {
    if targets.len() == 0 {
        seq!["no saved auto targets"@]
    } else {
        numbered_targets(targets)
    }
}

fn target_list(targets: &Vec<MonitorTarget>) -> (r: Vec<String>)
    ensures
        text::texts(r@) == targets_lines(target::target_views(targets@)),
{
    if targets.len() == 0 {
        return text::list1("no saved auto targets");
    }
    let ghost all = target::target_views(targets@);
    let mut lines: Vec<String> = Vec::new();
    let mut i: usize = 0;
    assert(text::texts(lines@) =~= numbered_targets(all.take(0)));
    while i < targets.len()
        invariant
            i <= targets.len(),
            all == target::target_views(targets@),
            text::texts(lines@) == numbered_targets(all.take(i as int)),
        decreases targets.len() - i,
    {
        let digits = decimal(i as u64);
        let summary = targets[i].summary();
        let line = cat4("[", digits.as_str(), "] ", summary.as_str());
        proof {
            assert(all.take(i + 1).drop_last() =~= all.take(i as int));
            assert(all.take(i + 1).last() == targets[i as int]@);
        }
        push_line(&mut lines, line);
        i = i + 1;
    }
    assert(all.take(i as int) =~= all);
    lines
}

/// The saved targets are cleared.
pub open spec fn targets_cleared(t: Seq<ReplyView>) -> Course<Result<(), Seq<char>>> {
    match files::targets_saved(Seq::empty(), t) {
        Course::Asks(e) => Course::Asks(e),
        Course::Ends(r, t) => match r {
            Err(error) => Course::Ends(Err(error), t),
            Ok(_) => fine(effect::said("cleared saved auto targets"@, t)),
        },
    }
}

/// The command `targets`.
pub open spec fn targets_run(args: Seq<Seq<char>>, t: Seq<ReplyView>) -> Course<
    Result<(), Seq<char>>,
> {
    match options::targets_given(args, options::targets_defaults()) {
        Err(error) => Course::Ends(Err(error), t),
        Ok(o) => if o.clear {
            targets_cleared(t)
        } else {
            match files::targets_loaded(t) {
                Course::Asks(e) => Course::Asks(e),
                Course::Ends(r, t) => match r {
                    Err(error) => Course::Ends(Err(error), t),
                    Ok(targets) => fine(lines_said(targets_lines(targets), t)),
                },
            }
        },
    }
}

/// Shows the saved targets, or clears them.
pub fn targets_command(tape: &mut Tape, args: &Vec<String>) -> (r: Result<
    Result<(), String>,
    Effect,
>)
    ensures
        effect::course(r, final(tape).rest()) == targets_run(text::texts(args@), old(tape).rest()),
        final(tape).all() == old(tape).all(),
{
    let o = match targets_options(args) {
        Err(error) => return Ok(Err(error)),
        Ok(o) => o,
    };
    if o.clear {
        let none: Vec<MonitorTarget> = Vec::new();
        assert(target::target_views(none@) =~= Seq::empty());
        match save_targets(tape, &none) {
            Err(e) => return Err(e),
            Ok(Err(error)) => return Ok(Err(error)),
            Ok(Ok(_)) => {},
        }
        return match say(tape, "cleared saved auto targets") {
            Err(e) => Err(e),
            Ok(_) => Ok(Ok(())),
        };
    }
    let targets = match load_targets(tape) {
        Err(e) => return Err(e),
        Ok(Err(error)) => return Ok(Err(error)),
        Ok(Ok(targets)) => targets,
    };
    let lines = target_list(&targets);
    match say_lines(tape, &lines) {
        Err(e) => Err(e),
        Ok(_) => Ok(Ok(())),
    }
}

// ---------------------------------------------------------------------------
// Commands that switch displays.
// ---------------------------------------------------------------------------
/// The command `disable-internal`.
pub open spec fn disable_run(args: Seq<Seq<char>>, t: Seq<ReplyView>) -> Course<
    Result<(), Seq<char>>,
> {
    match options::disable_given(args, options::disable_defaults()) {
        Err(error) => Course::Ends(Err(error), t),
        Ok(o) => switching::internal_disabled(o.condition, o.mode, o.force, true, true, t),
    }
}

/// Turns the built-in display off.
pub fn disable_internal(tape: &mut Tape, args: &Vec<String>) -> (r: Result<
    Result<(), String>,
    Effect,
>)
    ensures
        effect::course(r, final(tape).rest()) == disable_run(text::texts(args@), old(tape).rest()),
        final(tape).all() == old(tape).all(),
{
    match disable_options(args) {
        Err(error) => Ok(Err(error)),
        Ok(o) => disable_internal_once(tape, borrow_opt(&o.condition), o.mode, o.force, true),
    }
}

/// The id of the built-in display, as given or as remembered.
pub open spec fn enable_id(given: Option<Seq<char>>, t: Seq<ReplyView>) -> Course<
    Result<Seq<char>, Seq<char>>,
> {
    match given {
        Some(id) => Course::Ends(Ok(id), t),
        None => match files::value_read("internal_id"@, t) {
            Course::Asks(e) => Course::Asks(e),
            Course::Ends(r, t) => Course::Ends(
                match r {
                    Err(error) => Err(error),
                    Ok(id) => match id {
                        Some(id) => Ok(id),
                        None => Err(
                            "no remembered internal id in displayed state; pass --id <built-in-persistent-id>"@,
                        ),
                    },
                },
                t,
            ),
        },
    }
}

fn find_enable_id(tape: &mut Tape, given: Option<String>) -> (r: Result<
    Result<String, String>,
    Effect,
>)
    ensures
        effect::course(r, final(tape).rest()) == enable_id(
            text::opt_text(given),
            old(tape).rest(),
        ),
        final(tape).all() == old(tape).all(),
{
    match given {
        Some(id) => Ok(Ok(id)),
        None => match read_state_value(tape, "internal_id") {
            Err(e) => Err(e),
            Ok(Err(error)) => Ok(Err(error)),
            Ok(Ok(Some(id))) => Ok(Ok(id)),
            Ok(Ok(None)) => Ok(
                Err(
                    owned(
                        "no remembered internal id in displayed state; pass --id <built-in-persistent-id>",
                    ),
                ),
            ),
        },
    }
}

/// The command `enable-internal`.
pub open spec fn enable_run(args: Seq<Seq<char>>, t: Seq<ReplyView>) -> Course<
    Result<(), Seq<char>>,
> {
    match options::enable_given(args, options::enable_defaults()) {
        Err(error) => Course::Ends(Err(error), t),
        Ok(o) => match enable_id(o.id, t) {
            Course::Asks(e) => Course::Asks(e),
            Course::Ends(r, t) => match r {
                Err(error) => Course::Ends(Err(error), t),
                Ok(id) => match files::panel_remembered(id, None, None, t) {
                    Course::Asks(e) => Course::Asks(e),
                    Course::Ends(_, t) => commands::settled(
                        commands::placer_switched(id, true, o.mode, true, t),
                    ),
                },
            },
        },
    }
}

/// Enables the built-in display by `displayplacer`.
pub fn enable_internal(tape: &mut Tape, args: &Vec<String>) -> (r: Result<
    Result<(), String>,
    Effect,
>)
    ensures
        effect::course(r, final(tape).rest()) == enable_run(text::texts(args@), old(tape).rest()),
        final(tape).all() == old(tape).all(),
{
    let o = match enable_options(args) {
        Err(error) => return Ok(Err(error)),
        Ok(o) => o,
    };
    let mode = o.mode;
    let id = match find_enable_id(tape, o.id) {
        Err(e) => return Err(e),
        Ok(Err(error)) => return Ok(Err(error)),
        Ok(Ok(id)) => id,
    };
    match remember_internal_id(tape, id.as_str(), None, None) {
        Err(e) => return Err(e),
        Ok(_) => {},
    }
    run_displayplacer_enabled(tape, id.as_str(), true, mode)
}

/// The command `restore-internal`.
pub open spec fn restore_run(args: Seq<Seq<char>>, t: Seq<ReplyView>) -> Course<
    Result<(), Seq<char>>,
> {
    match options::restore_given(args, options::restore_defaults()) {
        Err(error) => Course::Ends(Err(error), t),
        Ok(o) => restore::internal_restored(
            o.display_id,
            o.mode,
            o.fallback,
            true,
            INTERNAL_RESTORE_ATTEMPTS,
            t,
        ),
    }
}

/// Restores the built-in display.
pub fn restore_internal(tape: &mut Tape, args: &Vec<String>) -> (r: Result<
    Result<(), String>,
    Effect,
>)
    ensures
        effect::course(r, final(tape).rest()) == restore_run(text::texts(args@), old(tape).rest()),
        final(tape).all() == old(tape).all(),
{
    match restore_options(args) {
        Err(error) => Ok(Err(error)),
        Ok(o) => restore_internal_once(
            tape,
            o.display_id,
            o.mode,
            o.fallback,
            true,
            INTERNAL_RESTORE_ATTEMPTS,
        ),
    }
}

/// A display is restored by its number, which is then remembered.
pub open spec fn display_brought_back(id: u32, mode: ActionMode, t: Seq<ReplyView>) -> Course<
    Result<(), Seq<char>>,
> {
    match restore::number_restored(id, mode, true, t) {
        Course::Asks(e) => Course::Asks(e),
        Course::Ends(r, t) => match r {
            Err(error) => Course::Ends(Err(error), t),
            Ok(_) => if mode == ActionMode::Execute {
                files::number_remembered(id, t)
            } else {
                Course::Ends(Ok(()), t)
            },
        },
    }
}

/// The command `restore-display`.
pub open spec fn restore_display_run(args: Seq<Seq<char>>, t: Seq<ReplyView>) -> Course<
    Result<(), Seq<char>>,
> {
    match options::restore_display_given(args, options::restore_display_defaults()) {
        Err(error) => Course::Ends(Err(error), t),
        Ok(o) => match o.display_id {
            None => Course::Ends(
                Err("restore-display requires --display-id <contextual-id>"@),
                t,
            ),
            Some(id) => display_brought_back(id, o.mode, t),
        },
    }
}

/// Restores a display by its number.
pub fn restore_display(tape: &mut Tape, args: &Vec<String>) -> (r: Result<
    Result<(), String>,
    Effect,
>)
    ensures
        effect::course(r, final(tape).rest()) == restore_display_run(
            text::texts(args@),
            old(tape).rest(),
        ),
        final(tape).all() == old(tape).all(),
{
    let o = match restore_display_options(args) {
        Err(error) => return Ok(Err(error)),
        Ok(o) => o,
    };
    let id: u32 = match o.display_id {
        None => return Ok(Err(owned("restore-display requires --display-id <contextual-id>"))),
        Some(id) => id,
    };
    match restore_display_id(tape, id, o.mode, true) {
        Err(e) => return Err(e),
        Ok(Err(error)) => return Ok(Err(error)),
        Ok(Ok(_)) => {},
    }
    if o.mode == ActionMode::Execute {
        return remember_contextual_display_id(tape, id);
    }
    Ok(Ok(()))
}

/// The command `redetect-displays`.
pub open spec fn redetect_run(args: Seq<Seq<char>>, t: Seq<ReplyView>) -> Course<
    Result<(), Seq<char>>,
> {
    match options::redetect_given(args, options::redetect_defaults()) {
        Err(error) => Course::Ends(Err(error), t),
        Ok(o) => native::detected(o.mode, true, t),
    }
}

/// Detects the displays anew.
pub fn redetect_displays(tape: &mut Tape, args: &Vec<String>) -> (r: Result<
    Result<(), String>,
    Effect,
>)
    ensures
        effect::course(r, final(tape).rest()) == redetect_run(
            text::texts(args@),
            old(tape).rest(),
        ),
        final(tape).all() == old(tape).all(),
{
    match redetect_options(args) {
        Err(error) => Ok(Err(error)),
        Ok(o) => run_sls_detect_displays(tape, o.mode),
    }
}

/// The command `safe-reset`.
pub open spec fn reset_run(args: Seq<Seq<char>>, t: Seq<ReplyView>) -> Course<
    Result<(), Seq<char>>,
> {
    match options::reset_given(args, options::reset_defaults()) {
        Err(error) => Course::Ends(Err(error), t),
        Ok(o) => guard::reset_done(o.mode, true, t),
    }
}

/// Does a safe reset.
pub fn safe_reset(tape: &mut Tape, args: &Vec<String>) -> (r: Result<Result<(), String>, Effect>)
    ensures
        effect::course(r, final(tape).rest()) == reset_run(text::texts(args@), old(tape).rest()),
        final(tape).all() == old(tape).all(),
{
    match reset_options(args) {
        Err(error) => Ok(Err(error)),
        Ok(o) => safe_reset_once(tape, o.mode),
    }
}

/// The command `guard`.
pub open spec fn guard_run(args: Seq<Seq<char>>, t: Seq<ReplyView>) -> Course<
    Result<(), Seq<char>>,
> {
    match options::guard_given(args, options::guard_defaults()) {
        Err(error) => Course::Ends(Err(error), t),
        Ok(o) => guard::guarded(o.reason, o.mode, o.verbose, t),
    }
}

/// Runs the guard once.
pub fn guard(tape: &mut Tape, args: &Vec<String>) -> (r: Result<Result<(), String>, Effect>)
    ensures
        effect::course(r, final(tape).rest()) == guard_run(text::texts(args@), old(tape).rest()),
        final(tape).all() == old(tape).all(),
{
    match guard_options(args) {
        Err(error) => Ok(Err(error)),
        Ok(o) => run_internal_guard_once(tape, o.reason.as_str(), o.mode, o.verbose),
    }
}

// ---------------------------------------------------------------------------
// The program.
// ---------------------------------------------------------------------------
/// The help of the program.
pub const USAGE: &'static str =
    "displayed\n\nCommands:\n  displayed\n  displayed list\n  displayed snapshot [--label LABEL] [--out DIR]\n  displayed disable-internal [--when-id ID | --when-serial SERIAL] [--dry-run] [--force]\n  displayed enable-internal [--id ID] [--dry-run]\n  displayed restore-internal [--display-id ID] [--dry-run] [--displayplacer-fallback]\n  displayed restore-display --display-id ID [--dry-run]\n  displayed redetect-displays [--dry-run]\n  displayed safe-reset [--dry-run]\n  displayed targets [--clear]\n  displayed guard [--reason REASON] [--dry-run] [--quiet]\n  displayed install-guard [--interval SECONDS] [--no-load] [--dry-run]\n  displayed uninstall-guard [--no-unload] [--dry-run]\n  displayed watch [--target-id ID | --target-serial SERIAL] [--interval SECONDS] [--dry-run] [--force]\n\nNotes:\n  - Running without arguments opens interactive mode.\n  - `displayed watch` without a target uses monitors saved in interactive mode.\n  - `displayed guard` is restore-only; it never disables the internal display.\n  - `displayed install-guard` installs a one-shot launchd safety guard for crash/stuck recovery.\n  - Display IDs come from the contextual ID shown by `displayed list`.\n  - SERIAL may be either `12345` or `s12345`.\n  - `--force` allows disabling even when only one enabled display is reported.\n";

/// Prints the help of the program.
pub fn print_usage(tape: &mut Tape) -> (r: Result<(), Effect>)
    ensures
        effect::course(r, final(tape).rest()) == effect::said(USAGE@, old(tape).rest()),
        final(tape).all() == old(tape).all(),
{
    say(tape, USAGE)
}

/// How the program goes on after its arguments have been looked at.
#[derive(Debug)]
pub enum Progress {
    /// The command is done.
    Finished,
    /// The watcher goes on, event after event.
    Watching(Watch),
    /// The interactive mode is opened.
    Interactive,
}

/// What a progress holds, as plain text.
#[verifier::ext_equal]
pub enum ProgressView {
    Finished,
    Watching(WatchView),
    Interactive,
}

impl Shown for Progress {
    type Plain = ProgressView;

    open spec fn shown(&self) -> ProgressView {
        match self {
            Progress::Finished => ProgressView::Finished,
            Progress::Watching(w) => ProgressView::Watching(w.shown()),
            Progress::Interactive => ProgressView::Interactive,
        }
    }
}

/// The end of a command.
pub open spec fn ended(c: Course<Result<(), Seq<char>>>) -> Course<
    Result<ProgressView, Seq<char>>,
> {
    match c {
        Course::Asks(e) => Course::Asks(e),
        Course::Ends(r, t) => Course::Ends(
            match r {
                Ok(_) => Ok(ProgressView::Finished),
                Err(error) => Err(error),
            },
            t,
        ),
    }
}

/// The program, up to where it would go on for ever.
pub open spec fn program_run(args: Seq<Seq<char>>, t: Seq<ReplyView>) -> Course<
    Result<ProgressView, Seq<char>>,
> {
    if args.len() == 0 {
        Course::Ends(Ok(ProgressView::Interactive), t)
    } else {
        let command = args[0];
        let rest = args.skip(1);
        if command == "-h"@ || command == "--help"@ || command == "help"@ {
            ended(fine(effect::said(USAGE@, t)))
        } else if command == "list"@ {
            ended(list_run(t))
        } else if command == "snapshot"@ {
            ended(snapshot::snapshot_run(rest, t))
        } else if command == "disable-internal"@ {
            ended(disable_run(rest, t))
        } else if command == "enable-internal"@ {
            ended(enable_run(rest, t))
        } else if command == "restore-internal"@ {
            ended(restore_run(rest, t))
        } else if command == "restore-display"@ {
            ended(restore_display_run(rest, t))
        } else if command == "redetect-displays"@ {
            ended(redetect_run(rest, t))
        } else if command == "safe-reset"@ || command == "reset-safe"@ {
            ended(reset_run(rest, t))
        } else if command == "targets"@ {
            ended(targets_run(rest, t))
        } else if command == "guard"@ {
            ended(guard_run(rest, t))
        } else if command == "install-guard"@ {
            ended(install::install_run(rest, t))
        } else if command == "uninstall-guard"@ {
            ended(install::uninstall_run(rest, t))
        } else if command == "watch"@ {
            match watch::watch_run(rest, t) {
                Course::Asks(e) => Course::Asks(e),
                Course::Ends(r, t) => Course::Ends(
                    match r {
                        Ok(w) => Ok(ProgressView::Watching(w)),
                        Err(error) => Err(error),
                    },
                    t,
                ),
            }
        } else {
            Course::Ends(
                Err("unknown command `"@ + command + "`. Run `displayed --help`."@),
                t,
            )
        }
    }
}

fn end(outcome: Result<Result<(), String>, Effect>) -> (r: Result<Result<Progress, String>, Effect>)
    ensures
        forall|rest: Seq<ReplyView>| #[trigger]
            effect::course(r, rest) == ended(effect::course(outcome, rest)),
{
    match outcome {
        Err(e) => Err(e),
        Ok(Err(error)) => Ok(Err(error)),
        Ok(Ok(_)) => Ok(Ok(Progress::Finished)),
    }
}

fn arguments_behind(args: &Vec<String>) -> (r: Vec<String>)
    requires
        args@.len() > 0,
    ensures
        text::texts(r@) == text::texts(args@).skip(1),
{
    let ghost all = text::texts(args@);
    let mut rest: Vec<String> = Vec::new();
    let mut i: usize = 1;
    assert(text::texts(rest@) =~= all.subrange(1, 1));
    while i < args.len()
        invariant
            1 <= i <= args.len(),
            all == text::texts(args@),
            text::texts(rest@) == all.subrange(1, i as int),
        decreases args.len() - i,
    {
        let arg = args[i].clone();
        proof {
            text::lemma_texts_push(rest@, arg);
            assert(all.subrange(1, i as int).push(arg@) =~= all.subrange(1, i + 1));
        }
        rest.push(arg);
        i = i + 1;
    }
    assert(all.subrange(1, i as int) =~= all.skip(1));
    rest
}

/// Runs the program on its arguments.
pub fn run(tape: &mut Tape, args: &Vec<String>) -> (r: Result<Result<Progress, String>, Effect>)
    ensures
        effect::course(r, final(tape).rest()) == program_run(text::texts(args@), old(tape).rest()),
        final(tape).all() == old(tape).all(),
{
    if args.len() == 0 {
        return Ok(Ok(Progress::Interactive));
    }
    let command = args[0].as_str();
    let rest = arguments_behind(args);
    if same(command, "-h") || same(command, "--help") || same(command, "help") {
        match print_usage(tape) {
            Err(e) => Err(e),
            Ok(_) => Ok(Ok(Progress::Finished)),
        }
    } else if same(command, "list") {
        let outcome = list_displays(tape);
        end(outcome)
    } else if same(command, "snapshot") {
        let outcome = snapshot(tape, &rest);
        end(outcome)
    } else if same(command, "disable-internal") {
        let outcome = disable_internal(tape, &rest);
        end(outcome)
    } else if same(command, "enable-internal") {
        let outcome = enable_internal(tape, &rest);
        end(outcome)
    } else if same(command, "restore-internal") {
        let outcome = restore_internal(tape, &rest);
        end(outcome)
    } else if same(command, "restore-display") {
        let outcome = restore_display(tape, &rest);
        end(outcome)
    } else if same(command, "redetect-displays") {
        let outcome = redetect_displays(tape, &rest);
        end(outcome)
    } else if same(command, "safe-reset") || same(command, "reset-safe") {
        let outcome = safe_reset(tape, &rest);
        end(outcome)
    } else if same(command, "targets") {
        let outcome = targets_command(tape, &rest);
        end(outcome)
    } else if same(command, "guard") {
        let outcome = guard(tape, &rest);
        end(outcome)
    } else if same(command, "install-guard") {
        let outcome = install_guard(tape, &rest);
        end(outcome)
    } else if same(command, "uninstall-guard") {
        let outcome = uninstall_guard(tape, &rest);
        end(outcome)
    } else if same(command, "watch") {
        match watch(tape, &rest) {
            Err(e) => Err(e),
            Ok(Err(error)) => Ok(Err(error)),
            Ok(Ok(w)) => Ok(Ok(Progress::Watching(w))),
        }
    } else {
        Ok(Err(cat3("unknown command `", command, "`. Run `displayed --help`.")))
    }
}

} // verus!
