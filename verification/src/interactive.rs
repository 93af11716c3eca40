//! The interactive mode.
//!
//! It goes in steps. Each step is a procedure of its own, from one state of the
//! mode to the next: first what the terminal reports is handled, then each
//! display event, then each power event, and then the screen is drawn.

use vstd::prelude::*;

use crate::commands;
use crate::commands::load_displayplacer;
use crate::display::{copy_displays, Display, DisplayView};
use crate::effect;
use crate::effect::{Course, Effect, EffectView, Input, Key, ReplyView, Shown, Tape};
use crate::files;
use crate::files::{
    load_targets, log_event, merge_remembered_displays, remember_internal,
    remembered_internal_summary, toggle_target_for_display,
};
use crate::guard;
use crate::guard::{run_internal_guard_once, safe_reset_once_with_verbosity};
use crate::number;
use crate::number::{bool_str, decimal, hexadecimal};
use crate::placer::{ParsedDisplayplacer, ParsedView};
use crate::policy::{ActionMode, AutoWatchAction, DisplayChange, PowerEvent, WatchEvent};
use crate::screen;
use crate::screen::{
    needs_panel_summary, render_help_text, render_lower, render_upper, Span, SpanView,
};
use crate::switching;
use crate::switching::{toggle_display_for_ui, toggle_internal_for_ui};
use crate::target;
use crate::target::{copy_targets, MonitorTarget, TargetView};
use crate::text::{borrow_opt, cat2, cat3, cat5, copy_opt, owned};
use crate::watch;
use crate::watch::start_display_event_source;
use crate::watching;
use crate::watching::{
    apply_interactive_display_recovery, apply_interactive_display_recovery_for_change,
};

verus! {

/// The seconds between two reconciles of the interactive mode.
pub const DEFAULT_INTERACTIVE_RECONCILE_INTERVAL_SECS: u64 = 5;

/// What comes next.
#[derive(Debug, Clone, Copy, PartialEq, Eq, Structural)]
pub enum Stage {
    Input,
    Displays,
    Power,
    Show,
}

/// The state of the interactive mode.
#[derive(Debug)]
pub struct Ui {
    pub targets: Vec<MonitorTarget>,
    pub selected: usize,
    pub show_help: bool,
    pub status: String,
    pub parsed: Option<ParsedDisplayplacer>,
    pub width: usize,
    pub stage: Stage,
    pub refresh: bool,
    pub render: bool,
}

/// What the state holds, as plain text.
#[verifier::ext_equal]
pub struct UiView {
    pub targets: Seq<TargetView>,
    pub selected: nat,
    pub show_help: bool,
    pub status: Seq<char>,
    pub parsed: Option<ParsedView>,
    pub width: nat,
    pub stage: Stage,
    pub refresh: bool,
    pub render: bool,
}

impl Shown for Ui {
    type Plain = UiView;

    open spec fn shown(&self) -> UiView {
        UiView {
            targets: target::target_views(self.targets@),
            selected: self.selected as nat,
            show_help: self.show_help,
            status: self.status@,
            parsed: self.parsed.shown(),
            width: self.width as nat,
            stage: self.stage,
            refresh: self.refresh,
            render: self.render,
        }
    }
}

impl UiView {
    /// The selected display, where there is one.
    pub open spec fn selected_display(self) -> Option<DisplayView> {
        match self.parsed {
            Some(parsed) => if self.selected < parsed.displays.len() {
                Some(parsed.displays[self.selected as int])
            } else {
                None
            },
            None => None,
        }
    }

    /// The state with another status.
    pub open spec fn saying(self, status: Seq<char>) -> UiView {
        UiView { status, ..self }
    }

    /// The list is to be read anew, and the screen to be drawn.
    pub open spec fn stale(self) -> UiView {
        UiView { refresh: true, render: true, ..self }
    }

    /// The state at another stage.
    pub open spec fn at(self, stage: Stage) -> UiView {
        UiView { stage, ..self }
    }
}

fn copy_parsed(parsed: &Option<ParsedDisplayplacer>) -> (r: Option<ParsedDisplayplacer>)
    ensures
        r.shown() == parsed.shown(),
{
    match parsed {
        Some(parsed) => Some(
            ParsedDisplayplacer {
                displays: copy_displays(&parsed.displays),
                restore_command: copy_opt(&parsed.restore_command),
                raw: parsed.raw.clone(),
            },
        ),
        None => None,
    }
}

impl Ui {
    /// The same state again.
    pub fn copy(&self) -> (r: Ui)
        ensures
            r.shown() == self.shown(),
    {
        Ui {
            targets: copy_targets(&self.targets),
            selected: self.selected,
            show_help: self.show_help,
            status: self.status.clone(),
            parsed: copy_parsed(&self.parsed),
            width: self.width,
            stage: self.stage,
            refresh: self.refresh,
            render: self.render,
        }
    }

    fn selected_now(&self) -> (r: Option<Display>)
        ensures
            match r {
                Some(display) => self.shown().selected_display() == Some(display@),
                None => self.shown().selected_display() is None,
            },
    {
        match &self.parsed {
            Some(parsed) => if self.selected < parsed.displays.len() {
                Some(parsed.displays[self.selected].clone())
            } else {
                None
            },
            None => None,
        }
    }
}

// ---------------------------------------------------------------------------
// The list.
// ---------------------------------------------------------------------------
/// A selection, held within the list.
pub open spec fn clamped(selected: nat, len: nat) -> nat {
    if len == 0 {
        0
    } else if selected >= len {
        (len - 1) as nat
    } else {
        selected
    }
}

/// The list is read anew: live displays with what is remembered and saved. The
/// selection is held within it, and a failure is told in the status.
pub open spec fn list_refreshed(ui: UiView, t: Seq<ReplyView>) -> Course<UiView> {
    match commands::displays_listed(t) {
        Course::Asks(e) => Course::Asks(e),
        Course::Ends(r, t) => match r {
            Err(error) => Course::Ends(
                UiView {
                    parsed: None,
                    status: "failed to read display state: "@ + error,
                    ..ui
                },
                t,
            ),
            Ok(parsed) => match files::list_remembered(parsed.displays, t) {
                Course::Asks(e) => Course::Asks(e),
                Course::Ends(_, t) => match files::displays_merged(parsed.displays, t) {
                    Course::Asks(e) => Course::Asks(e),
                    Course::Ends(r, t) => match r {
                        Ok(displays) => Course::Ends(
                            UiView {
                                parsed: Some(ParsedView { displays, ..parsed }),
                                selected: clamped(ui.selected, displays.len()),
                                ..ui
                            },
                            t,
                        ),
                        Err(error) => Course::Ends(
                            UiView {
                                parsed: Some(parsed),
                                selected: clamped(ui.selected, parsed.displays.len()),
                                status: "failed to merge remembered displays: "@ + error,
                                ..ui
                            },
                            t,
                        ),
                    },
                },
            },
        },
    }
}

fn clamp(selected: usize, len: usize) -> (r: usize)
    ensures
        r == clamped(selected as nat, len as nat),
{
    if len == 0 {
        0
    } else if selected >= len {
        len - 1
    } else {
        selected
    }
}

/// Reads the list anew.
pub fn load_display_state_for_ui(tape: &mut Tape, ui: Ui) -> (r: Result<Ui, Effect>)
    ensures
        effect::course(r, final(tape).rest()) == list_refreshed(ui.shown(), old(tape).rest()),
        final(tape).all() == old(tape).all(),
{
    let mut ui = ui;
    let parsed = match load_displayplacer(tape) {
        Err(e) => return Err(e),
        Ok(Err(error)) => {
            ui.parsed = None;
            ui.status = cat2("failed to read display state: ", error.as_str());
            return Ok(ui);
        },
        Ok(Ok(parsed)) => parsed,
    };
    match remember_internal(tape, &parsed) {
        Err(e) => return Err(e),
        Ok(_) => {},
    }
    let live = copy_displays(&parsed.displays);
    match merge_remembered_displays(tape, live) {
        Err(e) => Err(e),
        Ok(Ok(displays)) => {
            ui.selected = clamp(ui.selected, displays.len());
            ui.parsed = Some(
                ParsedDisplayplacer {
                    displays,
                    restore_command: parsed.restore_command,
                    raw: parsed.raw,
                },
            );
            Ok(ui)
        },
        Ok(Err(error)) => {
            ui.status = cat2("failed to merge remembered displays: ", error.as_str());
            ui.selected = clamp(ui.selected, parsed.displays.len());
            ui.parsed = Some(parsed);
            Ok(ui)
        },
    }
}

// ---------------------------------------------------------------------------
// The screen.
// ---------------------------------------------------------------------------
/// What is remembered of the panel is read, where the screen shows it.
pub open spec fn panel_looked_up(ui: UiView, t: Seq<ReplyView>) -> Course<
    Result<Option<Seq<char>>, Seq<char>>,
> {
    if screen::lacks_panel(ui.parsed) {
        files::summary_read(t)
    } else {
        Course::Ends(Ok(None), t)
    }
}

/// The spans are written to the terminal, and sent.
pub open spec fn spans_sent(spans: Seq<SpanView>, t: Seq<ReplyView>) -> Course<
    Result<(), Seq<char>>,
> {
    match effect::asks_done(EffectView::Draw(spans), t) {
        Course::Asks(e) => Course::Asks(e),
        Course::Ends(r, t) => match r {
            Err(error) => Course::Ends(Err(error), t),
            Ok(_) => effect::asks_done(EffectView::Flush, t),
        },
    }
}

/// The screen is drawn: the list or the help.
pub open spec fn screen_drawn(ui: UiView, t: Seq<ReplyView>) -> Course<Result<(), Seq<char>>> {
    if ui.show_help {
        spans_sent(screen::help_spans(), t)
    } else {
        list_drawn(ui, t)
    }
}

/// The list is drawn. Its upper part is written before what is remembered of the
/// panel is read, so it stays on the screen where that cannot be read.
pub open spec fn list_drawn(ui: UiView, t: Seq<ReplyView>) -> Course<Result<(), Seq<char>>> {
    match effect::asks_done(
        EffectView::Draw(screen::upper_spans(ui.parsed, ui.targets, ui.selected, ui.width)),
        t,
    ) {
        Course::Asks(e) => Course::Asks(e),
        Course::Ends(r, t) => match r {
            Err(error) => Course::Ends(Err(error), t),
            Ok(_) => match panel_looked_up(ui, t) {
                Course::Asks(e) => Course::Asks(e),
                Course::Ends(r, t) => match r {
                    Err(error) => Course::Ends(Err(error), t),
                    Ok(panel) => spans_sent(
                        screen::lower_spans(panel, ui.targets, ui.status),
                        t,
                    ),
                },
            },
        },
    }
}

fn parsed_ref(parsed: &Option<ParsedDisplayplacer>) -> (r: Option<&ParsedDisplayplacer>)
    ensures
        screen::opt_parsed(r) == parsed.shown(),
{
    match parsed {
        Some(parsed) => Some(parsed),
        None => None,
    }
}

fn send_spans(tape: &mut Tape, spans: Vec<Span>) -> (r: Result<Result<(), String>, Effect>)
    ensures
        effect::course(r, final(tape).rest()) == spans_sent(
            screen::span_views(spans@),
            old(tape).rest(),
        ),
        final(tape).all() == old(tape).all(),
{
    match tape.ask_done(Effect::Draw(spans)) {
        Err(e) => return Err(e),
        Ok(Err(error)) => return Ok(Err(error)),
        Ok(Ok(_)) => {},
    }
    tape.ask_done(Effect::Flush)
}

/// Draws the list.
pub fn render_interactive(tape: &mut Tape, ui: &Ui) -> (r: Result<Result<(), String>, Effect>)
    ensures
        effect::course(r, final(tape).rest()) == list_drawn(ui.shown(), old(tape).rest()),
        final(tape).all() == old(tape).all(),
{
    let upper = render_upper(parsed_ref(&ui.parsed), &ui.targets, ui.selected, ui.width);
    match tape.ask_done(Effect::Draw(upper)) {
        Err(e) => return Err(e),
        Ok(Err(error)) => return Ok(Err(error)),
        Ok(Ok(_)) => {},
    }
    let panel = if needs_panel_summary(parsed_ref(&ui.parsed)) {
        match remembered_internal_summary(tape) {
            Err(e) => return Err(e),
            Ok(Err(error)) => return Ok(Err(error)),
            Ok(Ok(panel)) => panel,
        }
    } else {
        None
    };
    let lower = render_lower(borrow_opt(&panel), &ui.targets, ui.status.as_str());
    send_spans(tape, lower)
}

/// Draws the help.
pub fn render_help(tape: &mut Tape) -> (r: Result<Result<(), String>, Effect>)
    ensures
        effect::course(r, final(tape).rest()) == spans_sent(screen::help_spans(), old(tape).rest()),
        final(tape).all() == old(tape).all(),
{
    send_spans(tape, render_help_text())
}

fn draw_screen(tape: &mut Tape, ui: &Ui) -> (r: Result<Result<(), String>, Effect>)
    ensures
        effect::course(r, final(tape).rest()) == screen_drawn(ui.shown(), old(tape).rest()),
        final(tape).all() == old(tape).all(),
{
    if ui.show_help {
        render_help(tape)
    } else {
        render_interactive(tape, ui)
    }
}

// ---------------------------------------------------------------------------
// Opening.
// ---------------------------------------------------------------------------
/// Power events are asked for. The value is what there is to say about it.
pub open spec fn power_started(t: Seq<ReplyView>) -> Course<Option<Seq<char>>> {
    match effect::asks_done(EffectView::StartPowerEvents, t) {
        Course::Asks(e) => Course::Asks(e),
        Course::Ends(r, t) => Course::Ends(
            match r {
                Ok(_) => None,
                Err(error) => Some("power event registration failed: "@ + error),
            },
            t,
        ),
    }
}

/// Asks for power events.
pub fn start_power_event_source(tape: &mut Tape) -> (r: Result<Option<String>, Effect>)
    ensures
        effect::course(r, final(tape).rest()) == power_started(old(tape).rest()),
        final(tape).all() == old(tape).all(),
{
    match tape.ask_done(Effect::StartPowerEvents) {
        Err(e) => Err(e),
        Ok(Ok(_)) => Ok(None),
        Ok(Err(error)) => Ok(Some(cat2("power event registration failed: ", error.as_str()))),
    }
}

/// The first status.
pub open spec fn first_status(events: Option<Seq<char>>, power: Option<Seq<char>>) -> Seq<char> {
    match events {
        Some(status) => status,
        None => match power {
            Some(status) => status,
            None => "ready"@,
        },
    }
}

/// The state at the start, before anything was read.
pub open spec fn first_state(targets: Seq<TargetView>, status: Seq<char>) -> UiView {
    UiView {
        targets,
        selected: 0,
        show_help: false,
        status,
        parsed: None,
        width: 100,
        stage: Stage::Input,
        refresh: false,
        render: false,
    }
}

/// What a recovery at the start came to is told, and the list read anew where it
/// did something.
pub open spec fn start_told(
    ui: UiView,
    r: Result<AutoWatchAction, Seq<char>>,
    t: Seq<ReplyView>,
) -> Course<UiView> {
    match r {
        Err(error) => Course::Ends(ui.saying("auto watch failed: "@ + error), t),
        Ok(action) => match action {
            AutoWatchAction::Idle => Course::Ends(ui, t),
            AutoWatchAction::DisabledInternal => list_refreshed(
                ui.saying("auto target matched; internal disabled"@),
                t,
            ),
            AutoWatchAction::RestoredInternal => list_refreshed(
                ui.saying("internal restore requested"@),
                t,
            ),
        },
    }
}

/// At the start, saved targets are acted on.
pub open spec fn start_recovered(ui: UiView, t: Seq<ReplyView>) -> Course<UiView> {
    if ui.targets.len() == 0 {
        Course::Ends(ui, t)
    } else {
        match watching::recovered(ui.targets, ActionMode::Execute, false, false, t) {
            Course::Asks(e) => Course::Asks(e),
            Course::Ends(r, t) => start_told(ui, r, t),
        }
    }
}

fn tell_start(tape: &mut Tape, ui: Ui, outcome: Result<AutoWatchAction, String>) -> (r: Result<
    Ui,
    Effect,
>)
    ensures
        effect::course(r, final(tape).rest()) == start_told(
            ui.shown(),
            outcome.shown(),
            old(tape).rest(),
        ),
        final(tape).all() == old(tape).all(),
{
    let mut ui = ui;
    match outcome {
        Err(error) => {
            ui.status = cat2("auto watch failed: ", error.as_str());
            Ok(ui)
        },
        Ok(AutoWatchAction::Idle) => Ok(ui),
        Ok(AutoWatchAction::DisabledInternal) => {
            ui.status = owned("auto target matched; internal disabled");
            load_display_state_for_ui(tape, ui)
        },
        Ok(AutoWatchAction::RestoredInternal) => {
            ui.status = owned("internal restore requested");
            load_display_state_for_ui(tape, ui)
        },
    }
}

fn recover_at_start(tape: &mut Tape, ui: Ui) -> (r: Result<Ui, Effect>)
    ensures
        effect::course(r, final(tape).rest()) == start_recovered(ui.shown(), old(tape).rest()),
        final(tape).all() == old(tape).all(),
{
    if ui.targets.len() == 0 {
        return Ok(ui);
    }
    match apply_interactive_display_recovery(tape, &ui.targets, ActionMode::Execute, false, false) {
        Err(e) => Err(e),
        Ok(outcome) => tell_start(tape, ui, outcome),
    }
}

/// The width of the terminal, a hundred columns where it is unknown.
pub open spec fn width_of(columns: Option<u16>) -> nat {
    match columns {
        Some(columns) => columns as nat,
        None => 100,
    }
}

/// The list is read, the width asked for, and saved targets are acted on.
pub open spec fn first_loaded(ui: UiView, t: Seq<ReplyView>) -> Course<UiView> {
    match list_refreshed(ui, t) {
        Course::Asks(e) => Course::Asks(e),
        Course::Ends(ui, t) => match effect::asks_columns(EffectView::TerminalSize, t) {
            Course::Asks(e) => Course::Asks(e),
            Course::Ends(columns, t) => start_recovered(
                UiView { width: width_of(columns), ..ui },
                t,
            ),
        },
    }
}

fn load_first(tape: &mut Tape, ui: Ui) -> (r: Result<Ui, Effect>)
    ensures
        effect::course(r, final(tape).rest()) == first_loaded(ui.shown(), old(tape).rest()),
        final(tape).all() == old(tape).all(),
{
    let mut ui = match load_display_state_for_ui(tape, ui) {
        Err(e) => return Err(e),
        Ok(ui) => ui,
    };
    match tape.ask_columns(Effect::TerminalSize) {
        Err(e) => return Err(e),
        Ok(columns) => {
            ui.width = match columns {
                Some(columns) => columns as usize,
                None => 100,
            };
        },
    }
    recover_at_start(tape, ui)
}

/// The interactive mode is opened, up to its first screen.
pub open spec fn mode_opened(t: Seq<ReplyView>) -> Course<Result<UiView, Seq<char>>> {
    match effect::asks_done(EffectView::OpenTerminal, t) {
        Course::Asks(e) => Course::Asks(e),
        Course::Ends(r, t) => match r {
            Err(error) => Course::Ends(Err(error), t),
            Ok(_) => match watch::events_started(DEFAULT_INTERACTIVE_RECONCILE_INTERVAL_SECS, t) {
                Course::Asks(e) => Course::Asks(e),
                Course::Ends(events, t) => match power_started(t) {
                    Course::Asks(e) => Course::Asks(e),
                    Course::Ends(power, t) => match files::targets_loaded(t) {
                        Course::Asks(e) => Course::Asks(e),
                        Course::Ends(r, t) => match r {
                            Err(error) => Course::Ends(Err(error), t),
                            Ok(targets) => first_shown(
                                first_state(targets, first_status(events, power)),
                                t,
                            ),
                        },
                    },
                },
            },
        },
    }
}

/// The first screen is loaded and drawn.
pub open spec fn first_shown(ui: UiView, t: Seq<ReplyView>) -> Course<Result<UiView, Seq<char>>> {
    match first_loaded(ui, t) {
        Course::Asks(e) => Course::Asks(e),
        Course::Ends(ui, t) => match list_drawn(ui, t) {
            Course::Asks(e) => Course::Asks(e),
            Course::Ends(r, t) => Course::Ends(
                match r {
                    Ok(_) => Ok(ui),
                    Err(error) => Err(error),
                },
                t,
            ),
        },
    }
}

/// Opens the interactive mode, up to its first screen.
pub fn interactive_mode(tape: &mut Tape) -> (r: Result<Result<Ui, String>, Effect>)
    ensures
        effect::course(r, final(tape).rest()) == mode_opened(old(tape).rest()),
        final(tape).all() == old(tape).all(),
{
    match tape.ask_done(Effect::OpenTerminal) {
        Err(e) => return Err(e),
        Ok(Err(error)) => return Ok(Err(error)),
        Ok(Ok(_)) => {},
    }
    let events = match start_display_event_source(
        tape,
        DEFAULT_INTERACTIVE_RECONCILE_INTERVAL_SECS,
    ) {
        Err(e) => return Err(e),
        Ok(events) => events,
    };
    let power = match start_power_event_source(tape) {
        Err(e) => return Err(e),
        Ok(power) => power,
    };
    let targets = match load_targets(tape) {
        Err(e) => return Err(e),
        Ok(Err(error)) => return Ok(Err(error)),
        Ok(Ok(targets)) => targets,
    };
    let status = match events {
        Some(status) => status,
        None => match power {
            Some(status) => status,
            None => owned("ready"),
        },
    };
    let ui = Ui {
        targets,
        selected: 0,
        show_help: false,
        status,
        parsed: None,
        width: 100,
        stage: Stage::Input,
        refresh: false,
        render: false,
    };
    let ui = match load_first(tape, ui) {
        Err(e) => return Err(e),
        Ok(ui) => ui,
    };
    match render_interactive(tape, &ui) {
        Err(e) => Err(e),
        Ok(Err(error)) => Ok(Err(error)),
        Ok(Ok(_)) => Ok(Ok(ui)),
    }
}

// ---------------------------------------------------------------------------
// Keys.
// ---------------------------------------------------------------------------
/// The message of a success, or the reason of a failure behind a prefix.
pub open spec fn told(prefix: Seq<char>, r: Result<Seq<char>, Seq<char>>) -> Seq<char> {
    match r {
        Ok(message) => message,
        Err(error) => prefix + error,
    }
}

fn tell(prefix: &str, outcome: Result<String, String>) -> (r: String)
    ensures
        r@ == told(prefix@, outcome.shown()),
{
    match outcome {
        Ok(message) => message,
        Err(error) => cat2(prefix, error.as_str()),
    }
}

/// The key `s`: a safe reset.
pub open spec fn reset_pressed(ui: UiView, t: Seq<ReplyView>) -> Course<UiView> {
    match guard::reset_done(ActionMode::Execute, false, t) {
        Course::Asks(e) => Course::Asks(e),
        Course::Ends(r, t) => Course::Ends(
            ui.saying(
                match r {
                    Ok(_) => "safe reset completed"@,
                    Err(error) => "safe reset failed: "@ + error,
                },
            ).stale(),
            t,
        ),
    }
}

fn press_reset(tape: &mut Tape, ui: Ui) -> (r: Result<Ui, Effect>)
    ensures
        effect::course(r, final(tape).rest()) == reset_pressed(ui.shown(), old(tape).rest()),
        final(tape).all() == old(tape).all(),
{
    let mut ui = ui;
    match safe_reset_once_with_verbosity(tape, ActionMode::Execute, false) {
        Err(e) => return Err(e),
        Ok(Ok(_)) => {
            ui.status = owned("safe reset completed");
        },
        Ok(Err(error)) => {
            ui.status = cat2("safe reset failed: ", error.as_str());
        },
    }
    ui.refresh = true;
    ui.render = true;
    Ok(ui)
}

/// The key `i`: the built-in display is toggled.
pub open spec fn internal_pressed(ui: UiView, t: Seq<ReplyView>) -> Course<UiView> {
    match switching::internal_toggled(t) {
        Course::Asks(e) => Course::Asks(e),
        Course::Ends(r, t) => Course::Ends(
            ui.saying(told("internal toggle failed: "@, r)).stale(),
            t,
        ),
    }
}

fn press_internal(tape: &mut Tape, ui: Ui) -> (r: Result<Ui, Effect>)
    ensures
        effect::course(r, final(tape).rest()) == internal_pressed(ui.shown(), old(tape).rest()),
        final(tape).all() == old(tape).all(),
{
    let mut ui = ui;
    match toggle_internal_for_ui(tape) {
        Err(e) => return Err(e),
        Ok(outcome) => {
            ui.status = tell("internal toggle failed: ", outcome);
        },
    }
    ui.refresh = true;
    ui.render = true;
    Ok(ui)
}

/// Enter or space: the selected display is toggled.
pub open spec fn toggle_pressed(ui: UiView, t: Seq<ReplyView>) -> Course<UiView> {
    match ui.selected_display() {
        None => Course::Ends(ui.saying("no selected display"@).stale(), t),
        Some(d) => match switching::display_toggled(d, t) {
            Course::Asks(e) => Course::Asks(e),
            Course::Ends(r, t) => Course::Ends(
                ui.saying(told("display toggle failed: "@, r)).stale(),
                t,
            ),
        },
    }
}

fn press_toggle(tape: &mut Tape, ui: Ui) -> (r: Result<Ui, Effect>)
    ensures
        effect::course(r, final(tape).rest()) == toggle_pressed(ui.shown(), old(tape).rest()),
        final(tape).all() == old(tape).all(),
{
    let selected = ui.selected_now();
    let mut ui = ui;
    match selected {
        None => {
            ui.status = owned("no selected display");
        },
        Some(display) => match toggle_display_for_ui(tape, &display) {
            Err(e) => return Err(e),
            Ok(outcome) => {
                ui.status = tell("display toggle failed: ", outcome);
            },
        },
    }
    ui.refresh = true;
    ui.render = true;
    Ok(ui)
}

/// What became of the selected display as a target.
pub open spec fn target_status(r: Result<bool, Seq<char>>) -> Seq<char> {
    match r {
        Ok(added) => if added {
            "auto target saved for selected external"@
        } else {
            "auto target removed for selected external"@
        },
        Err(error) => "auto target update failed: "@ + error,
    }
}

/// The selected display is made a target, or no target any more. The value is
/// what is told of it.
pub open spec fn selection_targeted(ui: UiView, t: Seq<ReplyView>) -> Course<Seq<char>> {
    match ui.selected_display() {
        None => Course::Ends("no selected display"@, t),
        Some(d) => match files::target_toggled(d, t) {
            Course::Asks(e) => Course::Asks(e),
            Course::Ends(r, t) => Course::Ends(target_status(r), t),
        },
    }
}

fn target_selection(tape: &mut Tape, ui: &Ui) -> (r: Result<String, Effect>)
    ensures
        effect::course(r, final(tape).rest()) == selection_targeted(ui.shown(), old(tape).rest()),
        final(tape).all() == old(tape).all(),
{
    match ui.selected_now() {
        None => Ok(owned("no selected display")),
        Some(display) => match toggle_target_for_display(tape, &display) {
            Err(e) => Err(e),
            Ok(Ok(true)) => Ok(owned("auto target saved for selected external")),
            Ok(Ok(false)) => Ok(owned("auto target removed for selected external")),
            Ok(Err(error)) => Ok(cat2("auto target update failed: ", error.as_str())),
        },
    }
}

/// The status after saved targets were acted on.
pub open spec fn recovery_status(r: Result<AutoWatchAction, Seq<char>>, status: Seq<char>) -> Seq<
    char,
> {
    match r {
        Err(error) => "auto watch failed: "@ + error,
        Ok(action) => match action {
            AutoWatchAction::Idle => status,
            AutoWatchAction::DisabledInternal => "auto target matched; internal disabled"@,
            AutoWatchAction::RestoredInternal => "internal restore requested"@,
        },
    }
}

/// The key `a`: the selected display is made a target, or no target any more;
/// the targets are read anew and acted on.
pub open spec fn target_pressed(ui: UiView, t: Seq<ReplyView>) -> Course<
    Result<UiView, Seq<char>>,
> {
    match selection_targeted(ui, t) {
        Course::Asks(e) => Course::Asks(e),
        Course::Ends(status, t) => match files::targets_loaded(t) {
            Course::Asks(e) => Course::Asks(e),
            Course::Ends(r, t) => match r {
                Err(error) => Course::Ends(Err(error), t),
                Ok(targets) => match watching::recovered(
                    targets,
                    ActionMode::Execute,
                    false,
                    false,
                    t,
                ) {
                    Course::Asks(e) => Course::Asks(e),
                    Course::Ends(r, t) => Course::Ends(
                        Ok(
                            UiView { targets, ..ui }.saying(recovery_status(r, status)).stale(),
                        ),
                        t,
                    ),
                },
            },
        },
    }
}

fn press_target(tape: &mut Tape, ui: Ui) -> (r: Result<Result<Ui, String>, Effect>)
    ensures
        effect::course(r, final(tape).rest()) == target_pressed(ui.shown(), old(tape).rest()),
        final(tape).all() == old(tape).all(),
{
    let status = match target_selection(tape, &ui) {
        Err(e) => return Err(e),
        Ok(status) => status,
    };
    let mut ui = ui;
    match load_targets(tape) {
        Err(e) => return Err(e),
        Ok(Err(error)) => return Ok(Err(error)),
        Ok(Ok(targets)) => {
            ui.targets = targets;
        },
    }
    match apply_interactive_display_recovery(tape, &ui.targets, ActionMode::Execute, false, false) {
        Err(e) => return Err(e),
        Ok(Err(error)) => {
            ui.status = cat2("auto watch failed: ", error.as_str());
        },
        Ok(Ok(AutoWatchAction::Idle)) => {
            ui.status = status;
        },
        Ok(Ok(AutoWatchAction::DisabledInternal)) => {
            ui.status = owned("auto target matched; internal disabled");
        },
        Ok(Ok(AutoWatchAction::RestoredInternal)) => {
            ui.status = owned("internal restore requested");
        },
    }
    ui.refresh = true;
    ui.render = true;
    Ok(Ok(ui))
}

/// The selection one down, where there is a row.
pub open spec fn moved_down(ui: UiView) -> UiView {
    match ui.parsed {
        Some(parsed) => if ui.selected + 1 < parsed.displays.len() {
            UiView { selected: ui.selected + 1, render: true, ..ui }
        } else {
            ui
        },
        None => ui,
    }
}

/// The selection one up.
pub open spec fn moved_up(ui: UiView) -> UiView {
    UiView {
        selected: if ui.selected > 0 {
            (ui.selected - 1) as nat
        } else {
            0
        },
        render: true,
        ..ui
    }
}

/// A step that cannot fail and goes on.
pub open spec fn kept_open(c: Course<UiView>) -> Course<Result<Option<UiView>, Seq<char>>> {
    match c {
        Course::Asks(e) => Course::Asks(e),
        Course::Ends(ui, t) => Course::Ends(Ok(Some(ui)), t),
    }
}

fn keep_open(outcome: Result<Ui, Effect>) -> (r: Result<Result<Option<Ui>, String>, Effect>)
    ensures
        forall|rest: Seq<ReplyView>| #[trigger]
            effect::course(r, rest) == kept_open(effect::course(outcome, rest)),
{
    match outcome {
        Err(e) => Err(e),
        Ok(ui) => Ok(Ok(Some(ui))),
    }
}

/// A key, where the help is not shown. Nothing is left where it ends the mode.
pub open spec fn key_pressed(ui: UiView, key: Key, t: Seq<ReplyView>) -> Course<
    Result<Option<UiView>, Seq<char>>,
> {
    match key {
        Key::Esc => Course::Ends(Ok(None), t),
        Key::Up => Course::Ends(Ok(Some(moved_up(ui))), t),
        Key::Down => Course::Ends(Ok(Some(moved_down(ui))), t),
        Key::Enter => kept_open(toggle_pressed(ui, t)),
        Key::Other => Course::Ends(Ok(Some(ui)), t),
        Key::Char(c) => if c == 'q' {
            Course::Ends(Ok(None), t)
        } else if c == '?' {
            Course::Ends(Ok(Some(UiView { show_help: true, render: true, ..ui })), t)
        } else if c == 'k' {
            Course::Ends(Ok(Some(moved_up(ui))), t)
        } else if c == 'j' {
            Course::Ends(Ok(Some(moved_down(ui))), t)
        } else if c == 'r' {
            Course::Ends(Ok(Some(ui.saying("refreshed"@).stale())), t)
        } else if c == 's' {
            kept_open(reset_pressed(ui, t))
        } else if c == 'i' {
            kept_open(internal_pressed(ui, t))
        } else if c == ' ' {
            kept_open(toggle_pressed(ui, t))
        } else if c == 'a' {
            match target_pressed(ui, t) {
                Course::Asks(e) => Course::Asks(e),
                Course::Ends(r, t) => Course::Ends(
                    match r {
                        Ok(ui) => Ok(Some(ui)),
                        Err(error) => Err(error),
                    },
                    t,
                ),
            }
        } else {
            Course::Ends(Ok(Some(ui)), t)
        },
    }
}

fn move_up(ui: Ui) -> (r: Ui)
    ensures
        r.shown() == moved_up(ui.shown()),
{
    let mut ui = ui;
    if ui.selected > 0 {
        ui.selected = ui.selected - 1;
    }
    ui.render = true;
    ui
}

fn move_down(ui: Ui) -> (r: Ui)
    ensures
        r.shown() == moved_down(ui.shown()),
{
    let mut ui = ui;
    let rows: usize = match &ui.parsed {
        Some(parsed) => parsed.displays.len(),
        None => 0,
    };
    if ui.selected < rows && rows - ui.selected > 1 {
        ui.selected = ui.selected + 1;
        ui.render = true;
    }
    ui
}

fn press_key(tape: &mut Tape, ui: Ui, key: Key) -> (r: Result<Result<Option<Ui>, String>, Effect>)
    ensures
        effect::course(r, final(tape).rest()) == key_pressed(ui.shown(), key, old(tape).rest()),
        final(tape).all() == old(tape).all(),
{
    match key {
        Key::Esc => Ok(Ok(None)),
        Key::Up => Ok(Ok(Some(move_up(ui)))),
        Key::Down => Ok(Ok(Some(move_down(ui)))),
        Key::Enter => {
            let outcome = press_toggle(tape, ui);
            keep_open(outcome)
        },
        Key::Other => Ok(Ok(Some(ui))),
        Key::Char(c) => {
            if c == 'q' {
                Ok(Ok(None))
            } else if c == '?' {
                let mut ui = ui;
                ui.show_help = true;
                ui.render = true;
                Ok(Ok(Some(ui)))
            } else if c == 'k' {
                Ok(Ok(Some(move_up(ui))))
            } else if c == 'j' {
                Ok(Ok(Some(move_down(ui))))
            } else if c == 'r' {
                let mut ui = ui;
                ui.status = owned("refreshed");
                ui.refresh = true;
                ui.render = true;
                Ok(Ok(Some(ui)))
            } else if c == 's' {
                let outcome = press_reset(tape, ui);
                keep_open(outcome)
            } else if c == 'i' {
                let outcome = press_internal(tape, ui);
                keep_open(outcome)
            } else if c == ' ' {
                let outcome = press_toggle(tape, ui);
                keep_open(outcome)
            } else if c == 'a' {
                match press_target(tape, ui) {
                    Err(e) => Err(e),
                    Ok(Err(error)) => Ok(Err(error)),
                    Ok(Ok(ui)) => Ok(Ok(Some(ui))),
                }
            } else {
                Ok(Ok(Some(ui)))
            }
        },
    }
}

/// What the terminal reports is handled. Nothing is left where it ends the mode.
/// While the help is shown, any key closes it and does nothing else.
pub open spec fn input_handled(ui: UiView, input: Input, t: Seq<ReplyView>) -> Course<
    Result<Option<UiView>, Seq<char>>,
> {
    match input {
        Input::Other => Course::Ends(Ok(Some(ui)), t),
        Input::Resize(columns) => Course::Ends(
            Ok(Some(UiView { width: columns as nat, render: true, ..ui })),
            t,
        ),
        Input::Key(key, control) => if key == Key::Char('c') && control {
            Course::Ends(Ok(None), t)
        } else if ui.show_help {
            Course::Ends(Ok(Some(UiView { show_help: false, render: true, ..ui })), t)
        } else {
            key_pressed(ui, key, t)
        },
    }
}

fn handle_input(tape: &mut Tape, ui: Ui, input: Input) -> (r: Result<
    Result<Option<Ui>, String>,
    Effect,
>)
    ensures
        effect::course(r, final(tape).rest()) == input_handled(
            ui.shown(),
            input,
            old(tape).rest(),
        ),
        final(tape).all() == old(tape).all(),
{
    match input {
        Input::Other => Ok(Ok(Some(ui))),
        Input::Resize(columns) => {
            let mut ui = ui;
            ui.width = columns as usize;
            ui.render = true;
            Ok(Ok(Some(ui)))
        },
        Input::Key(key, control) => {
            let interrupt = match key {
                Key::Char(c) => c == 'c' && control,
                _ => false,
            };
            if interrupt {
                return Ok(Ok(None));
            }
            if ui.show_help {
                let mut ui = ui;
                ui.show_help = false;
                ui.render = true;
                return Ok(Ok(Some(ui)));
            }
            press_key(tape, ui, key)
        },
    }
}

/// The first stage: what the terminal reports within a fifth of a second.
pub open spec fn input_stage(ui: UiView, t: Seq<ReplyView>) -> Course<
    Result<Option<UiView>, Seq<char>>,
> {
    let next = ui.at(Stage::Displays);
    match effect::asks_input(EffectView::ReadInput(200), t) {
        Course::Asks(e) => Course::Asks(e),
        Course::Ends(r, t) => match r {
            Err(error) => Course::Ends(Err(error), t),
            Ok(input) => match input {
                None => Course::Ends(Ok(Some(next)), t),
                Some(input) => input_handled(next, input, t),
            },
        },
    }
}

fn do_input(tape: &mut Tape, ui: Ui) -> (r: Result<Result<Option<Ui>, String>, Effect>)
    ensures
        effect::course(r, final(tape).rest()) == input_stage(ui.shown(), old(tape).rest()),
        final(tape).all() == old(tape).all(),
{
    let mut ui = ui;
    ui.stage = Stage::Displays;
    match tape.ask_input(Effect::ReadInput(200)) {
        Err(e) => Err(e),
        Ok(Err(error)) => Ok(Err(error)),
        Ok(Ok(None)) => Ok(Ok(Some(ui))),
        Ok(Ok(Some(input))) => handle_input(tape, ui, input),
    }
}

// ---------------------------------------------------------------------------
// Events.
// ---------------------------------------------------------------------------
/// The log's line on a display change.
pub open spec fn change_log(change: DisplayChange) -> Seq<char> {
    "display-change: display="@ + number::dec(change.display as nat) + " flags=0x"@
        + number::in_base(change.flags as nat, 16) + " loss="@ + number::bool_text(change.loss())
}

fn change_note(change: DisplayChange) -> (r: String)
    ensures
        r@ == change_log(change),
{
    let display = decimal(change.display as u64);
    let flags = hexadecimal(change.flags as u64);
    let mut line = cat5(
        "display-change: display=",
        display.as_str(),
        " flags=0x",
        flags.as_str(),
        " loss=",
    );
    line.append(bool_str(change.is_display_loss()));
    line
}

/// The status after a recovery.
pub open spec fn event_status(
    r: Result<AutoWatchAction, Seq<char>>,
    disabled: Seq<char>,
    idle: Seq<char>,
) -> Seq<char> {
    match r {
        Err(error) => "display recovery failed: "@ + error,
        Ok(action) => match action {
            AutoWatchAction::Idle => idle,
            AutoWatchAction::DisabledInternal => disabled,
            AutoWatchAction::RestoredInternal => "internal restore requested"@,
        },
    }
}

fn event_words(outcome: Result<AutoWatchAction, String>, disabled: &str, idle: &str) -> (r: String)
    ensures
        r@ == event_status(outcome.shown(), disabled@, idle@),
{
    match outcome {
        Err(error) => cat2("display recovery failed: ", error.as_str()),
        Ok(AutoWatchAction::Idle) => owned(idle),
        Ok(AutoWatchAction::DisabledInternal) => owned(disabled),
        Ok(AutoWatchAction::RestoredInternal) => owned("internal restore requested"),
    }
}

/// A display change is logged and answered.
pub open spec fn change_handled(ui: UiView, change: DisplayChange, t: Seq<ReplyView>) -> Course<
    UiView,
> {
    match files::logged(change_log(change), t) {
        Course::Asks(e) => Course::Asks(e),
        Course::Ends(_, t) => match watching::change_answered(
            ui.targets,
            change,
            ActionMode::Execute,
            false,
            false,
            t,
        ) {
            Course::Asks(e) => Course::Asks(e),
            Course::Ends(r, t) => Course::Ends(
                ui.saying(
                    event_status(
                        r,
                        "auto target matched; internal disabled"@,
                        "display change detected"@,
                    ),
                ).stale(),
                t,
            ),
        },
    }
}

/// A reconcile: saved targets are acted on, and darkness is ended.
pub open spec fn reconcile_handled(ui: UiView, t: Seq<ReplyView>) -> Course<UiView> {
    match watching::recovered(ui.targets, ActionMode::Execute, false, false, t) {
        Course::Asks(e) => Course::Asks(e),
        Course::Ends(r, t) => Course::Ends(
            ui.saying(
                event_status(
                    r,
                    "auto target reconciled; internal disabled"@,
                    "periodic reconcile"@,
                ),
            ).stale(),
            t,
        ),
    }
}

/// The second stage: one display event, or on to the next stage.
pub open spec fn display_stage(ui: UiView, t: Seq<ReplyView>) -> Course<UiView> {
    match effect::asks_watch(EffectView::NextWatchEvent, t) {
        Course::Asks(e) => Course::Asks(e),
        Course::Ends(event, t) => match event {
            None => Course::Ends(ui.at(Stage::Power), t),
            Some(event) => match event {
                WatchEvent::DisplayChanged(change) => change_handled(ui, change, t),
                WatchEvent::Reconcile => reconcile_handled(ui, t),
            },
        },
    }
}

fn do_displays(tape: &mut Tape, ui: Ui) -> (r: Result<Ui, Effect>)
    ensures
        effect::course(r, final(tape).rest()) == display_stage(ui.shown(), old(tape).rest()),
        final(tape).all() == old(tape).all(),
{
    let mut ui = ui;
    match tape.ask_watch(Effect::NextWatchEvent) {
        Err(e) => return Err(e),
        Ok(None) => {
            ui.stage = Stage::Power;
            return Ok(ui);
        },
        Ok(Some(WatchEvent::DisplayChanged(change))) => {
            let line = change_note(change);
            match log_event(tape, line.as_str()) {
                Err(e) => return Err(e),
                Ok(_) => {},
            }
            match apply_interactive_display_recovery_for_change(
                tape,
                &ui.targets,
                change,
                ActionMode::Execute,
                false,
                false,
            ) {
                Err(e) => return Err(e),
                Ok(outcome) => {
                    ui.status = event_words(
                        outcome,
                        "auto target matched; internal disabled",
                        "display change detected",
                    );
                },
            }
        },
        Ok(Some(WatchEvent::Reconcile)) => match apply_interactive_display_recovery(
            tape,
            &ui.targets,
            ActionMode::Execute,
            false,
            false,
        ) {
            Err(e) => return Err(e),
            Ok(outcome) => {
                ui.status = event_words(
                    outcome,
                    "auto target reconciled; internal disabled",
                    "periodic reconcile",
                );
            },
        },
    }
    ui.refresh = true;
    ui.render = true;
    Ok(ui)
}

/// A power event: the guard runs.
pub open spec fn power_handled(ui: UiView, event: PowerEvent, t: Seq<ReplyView>) -> Course<UiView> {
    match files::logged("power: "@ + event.name() + " — running internal guard"@, t) {
        Course::Asks(e) => Course::Asks(e),
        Course::Ends(_, t) => match guard::guarded(event.name(), ActionMode::Execute, false, t) {
            Course::Asks(e) => Course::Asks(e),
            Course::Ends(r, t) => Course::Ends(
                ui.saying(
                    match r {
                        Ok(_) => "power event reconciled: "@ + event.name(),
                        Err(error) => "power event recovery failed: "@ + error,
                    },
                ).stale(),
                t,
            ),
        },
    }
}

/// The third stage: one power event, or on to the next stage.
pub open spec fn power_stage(ui: UiView, t: Seq<ReplyView>) -> Course<UiView> {
    match effect::asks_power(EffectView::NextPowerEvent, t) {
        Course::Asks(e) => Course::Asks(e),
        Course::Ends(event, t) => match event {
            None => Course::Ends(ui.at(Stage::Show), t),
            Some(event) => power_handled(ui, event, t),
        },
    }
}

fn do_power(tape: &mut Tape, ui: Ui) -> (r: Result<Ui, Effect>)
    ensures
        effect::course(r, final(tape).rest()) == power_stage(ui.shown(), old(tape).rest()),
        final(tape).all() == old(tape).all(),
{
    let mut ui = ui;
    let event = match tape.ask_power(Effect::NextPowerEvent) {
        Err(e) => return Err(e),
        Ok(None) => {
            ui.stage = Stage::Show;
            return Ok(ui);
        },
        Ok(Some(event)) => event,
    };
    let reason = event.reason();
    let line = cat3("power: ", reason, " — running internal guard");
    match log_event(tape, line.as_str()) {
        Err(e) => return Err(e),
        Ok(_) => {},
    }
    match run_internal_guard_once(tape, reason, ActionMode::Execute, false) {
        Err(e) => return Err(e),
        Ok(Ok(_)) => {
            ui.status = cat2("power event reconciled: ", reason);
        },
        Ok(Err(error)) => {
            ui.status = cat2("power event recovery failed: ", error.as_str());
        },
    }
    ui.refresh = true;
    ui.render = true;
    Ok(ui)
}

// ---------------------------------------------------------------------------
// Steps.
// ---------------------------------------------------------------------------
/// The list is read anew where that is due.
pub open spec fn refreshed_if_due(ui: UiView, t: Seq<ReplyView>) -> Course<UiView> {
    if ui.refresh {
        list_refreshed(ui, t)
    } else {
        Course::Ends(ui, t)
    }
}

/// The state after the last stage.
pub open spec fn round_ended(ui: UiView) -> UiView {
    UiView { stage: Stage::Input, refresh: false, render: false, ..ui }
}

/// The last stage: the list is read anew and the screen drawn, where that is
/// due.
pub open spec fn show_stage(ui: UiView, t: Seq<ReplyView>) -> Course<Result<UiView, Seq<char>>> {
    match refreshed_if_due(ui, t) {
        Course::Asks(e) => Course::Asks(e),
        Course::Ends(next, t) => if ui.refresh || ui.render {
            match screen_drawn(next, t) {
                Course::Asks(e) => Course::Asks(e),
                Course::Ends(r, t) => Course::Ends(
                    match r {
                        Ok(_) => Ok(round_ended(next)),
                        Err(error) => Err(error),
                    },
                    t,
                ),
            }
        } else {
            Course::Ends(Ok(round_ended(next)), t)
        },
    }
}

fn do_show(tape: &mut Tape, ui: Ui) -> (r: Result<Result<Ui, String>, Effect>)
    ensures
        effect::course(r, final(tape).rest()) == show_stage(ui.shown(), old(tape).rest()),
        final(tape).all() == old(tape).all(),
{
    let due = ui.refresh || ui.render;
    let mut next = if ui.refresh {
        match load_display_state_for_ui(tape, ui) {
            Err(e) => return Err(e),
            Ok(next) => next,
        }
    } else {
        ui
    };
    if due {
        match draw_screen(tape, &next) {
            Err(e) => return Err(e),
            Ok(Err(error)) => return Ok(Err(error)),
            Ok(Ok(_)) => {},
        }
    }
    next.stage = Stage::Input;
    next.refresh = false;
    next.render = false;
    Ok(Ok(next))
}

/// One step of the interactive mode. Nothing is left where it ends the mode.
pub open spec fn stepped(ui: UiView, t: Seq<ReplyView>) -> Course<
    Result<Option<UiView>, Seq<char>>,
> {
    match ui.stage {
        Stage::Input => input_stage(ui, t),
        Stage::Displays => kept_open(display_stage(ui, t)),
        Stage::Power => kept_open(power_stage(ui, t)),
        Stage::Show => match show_stage(ui, t) {
            Course::Asks(e) => Course::Asks(e),
            Course::Ends(r, t) => Course::Ends(
                match r {
                    Ok(ui) => Ok(Some(ui)),
                    Err(error) => Err(error),
                },
                t,
            ),
        },
    }
}

/// Makes one step of the interactive mode.
pub fn interactive_step(tape: &mut Tape, ui: &Ui) -> (r: Result<
    Result<Option<Ui>, String>,
    Effect,
>)
    ensures
        effect::course(r, final(tape).rest()) == stepped(ui.shown(), old(tape).rest()),
        final(tape).all() == old(tape).all(),
{
    let ui = ui.copy();
    match ui.stage {
        Stage::Input => do_input(tape, ui),
        Stage::Displays => {
            let outcome = do_displays(tape, ui);
            keep_open(outcome)
        },
        Stage::Power => {
            let outcome = do_power(tape, ui);
            keep_open(outcome)
        },
        Stage::Show => match do_show(tape, ui) {
            Err(e) => Err(e),
            Ok(Err(error)) => Ok(Err(error)),
            Ok(Ok(ui)) => Ok(Ok(Some(ui))),
        },
    }
}

} // verus!
