//! The command `watch`.

use vstd::prelude::*;

use crate::effect;
use crate::effect::{say, warn, Course, Effect, EffectView, ReplyView, Shown, Tape};
use crate::files;
use crate::files::load_targets;
use crate::number;
use crate::number::decimal;
use crate::options;
use crate::options::watch_options;
use crate::policy::{ActionMode, AutoWatchAction};
use crate::target;
use crate::target::{MonitorTarget, TargetView};
use crate::text;
use crate::text::{borrow_opt, cat2, owned};
use crate::watching;
use crate::watching::{apply_raw_watch_target, apply_watch_targets};

verus! {

/// A watcher: the target that was named, or else the saved ones.
#[derive(Debug)]
pub struct Watch {
    pub target: Option<String>,
    pub targets: Vec<MonitorTarget>,
    pub mode: ActionMode,
    pub force: bool,
}

/// What a watcher holds, as plain text.
#[verifier::ext_equal]
pub struct WatchView {
    pub target: Option<Seq<char>>,
    pub targets: Seq<TargetView>,
    pub mode: ActionMode,
    pub force: bool,
}

impl Shown for Watch {
    type Plain = WatchView;

    open spec fn shown(&self) -> WatchView {
        WatchView {
            target: text::opt_text(self.target),
            targets: target::target_views(self.targets@),
            mode: self.mode,
            force: self.force,
        }
    }
}

// ---------------------------------------------------------------------------
// Events.
// ---------------------------------------------------------------------------
/// The seconds between two reconciles: at least one.
pub open spec fn reconcile_seconds(seconds: u64) -> u64 {
    if seconds < 1 {
        1
    } else {
        seconds
    }
}

/// Display events are asked for. The value is what there is to say about it.
pub open spec fn events_started(seconds: u64, t: Seq<ReplyView>) -> Course<Option<Seq<char>>> {
    match effect::asks_flag(EffectView::StartDisplayEvents(reconcile_seconds(seconds)), t) {
        Course::Asks(e) => Course::Asks(e),
        Course::Ends(registered, t) => Course::Ends(
            if registered {
                None
            } else {
                Some(
                    "CoreGraphics display callback registration failed; using periodic reconcile only"@,
                )
            },
            t,
        ),
    }
}

/// Asks for display events.
pub fn start_display_event_source(tape: &mut Tape, reconcile_interval_secs: u64) -> (r: Result<
    Option<String>,
    Effect,
>)
    ensures
        effect::course(r, final(tape).rest()) == events_started(
            reconcile_interval_secs,
            old(tape).rest(),
        ),
        final(tape).all() == old(tape).all(),
{
    let seconds: u64 = if reconcile_interval_secs < 1 {
        1
    } else {
        reconcile_interval_secs
    };
    match tape.ask_flag(Effect::StartDisplayEvents(seconds)) {
        Err(e) => Err(e),
        Ok(registered) => if registered {
            Ok(None)
        } else {
            Ok(
                Some(
                    owned(
                        "CoreGraphics display callback registration failed; using periodic reconcile only",
                    ),
                ),
            )
        },
    }
}

// ---------------------------------------------------------------------------
// Rounds.
// ---------------------------------------------------------------------------
/// What is printed of a round.
pub open spec fn round_said(
    named: bool,
    r: Result<AutoWatchAction, Seq<char>>,
    t: Seq<ReplyView>,
) -> Course<()> {
    match r {
        Err(error) => effect::warned("watch iteration failed: "@ + error, t),
        Ok(action) => match action {
            AutoWatchAction::Idle => Course::Ends((), t),
            AutoWatchAction::DisabledInternal => effect::said(
                if named {
                    "watch matched target; internal disabled"@
                } else {
                    "watch matched saved target; internal disabled"@
                },
                t,
            ),
            AutoWatchAction::RestoredInternal => effect::said(
                if named {
                    "watch target absent; internal restore requested"@
                } else {
                    "watch saved target absent; internal restore requested"@
                },
                t,
            ),
        },
    }
}

/// One round of a watcher.
pub open spec fn round_made(w: WatchView, t: Seq<ReplyView>) -> Course<()> {
    match match w.target {
        Some(name) => watching::raw_watched(name, w.mode, w.force, true, t),
        None => watching::targets_watched(w.targets, w.mode, w.force, true, t),
    } {
        Course::Asks(e) => Course::Asks(e),
        Course::Ends(r, t) => round_said(w.target is Some, r, t),
    }
}

fn say_round(tape: &mut Tape, named: bool, outcome: Result<AutoWatchAction, String>) -> (r: Result<
    (),
    Effect,
>)
    ensures
        effect::course(r, final(tape).rest()) == round_said(
            named,
            outcome.shown(),
            old(tape).rest(),
        ),
        final(tape).all() == old(tape).all(),
{
    match outcome {
        Err(error) => {
            let line = cat2("watch iteration failed: ", error.as_str());
            warn(tape, line.as_str())
        },
        Ok(AutoWatchAction::Idle) => Ok(()),
        Ok(AutoWatchAction::DisabledInternal) => say(
            tape,
            if named {
                "watch matched target; internal disabled"
            } else {
                "watch matched saved target; internal disabled"
            },
        ),
        Ok(AutoWatchAction::RestoredInternal) => say(
            tape,
            if named {
                "watch target absent; internal restore requested"
            } else {
                "watch saved target absent; internal restore requested"
            },
        ),
    }
}

fn make_round(tape: &mut Tape, w: &Watch) -> (r: Result<(), Effect>)
    ensures
        effect::course(r, final(tape).rest()) == round_made(w.shown(), old(tape).rest()),
        final(tape).all() == old(tape).all(),
{
    match borrow_opt(&w.target) {
        Some(name) => match apply_raw_watch_target(tape, name, w.mode, w.force, true) {
            Err(e) => Err(e),
            Ok(outcome) => say_round(tape, true, outcome),
        },
        None => match apply_watch_targets(tape, &w.targets, w.mode, w.force, true) {
            Err(e) => Err(e),
            Ok(outcome) => say_round(tape, false, outcome),
        },
    }
}

/// After the next event, a watcher makes another round.
pub open spec fn watch_continued(w: WatchView, t: Seq<ReplyView>) -> Course<
    Result<(), Seq<char>>,
> {
    match effect::asks_awaited(EffectView::AwaitWatchEvent, t) {
        Course::Asks(e) => Course::Asks(e),
        Course::Ends(r, t) => match r {
            Err(error) => Course::Ends(Err(error), t),
            Ok(_) => match round_made(w, t) {
                Course::Asks(e) => Course::Asks(e),
                Course::Ends(_, t) => Course::Ends(Ok(()), t),
            },
        },
    }
}

/// Waits for the next event, and makes another round.
pub fn watch_next(tape: &mut Tape, w: &Watch) -> (r: Result<Result<(), String>, Effect>)
    ensures
        effect::course(r, final(tape).rest()) == watch_continued(w.shown(), old(tape).rest()),
        final(tape).all() == old(tape).all(),
{
    match tape.ask_awaited(Effect::AwaitWatchEvent) {
        Err(e) => return Err(e),
        Ok(Err(error)) => return Ok(Err(error)),
        Ok(Ok(_)) => {},
    }
    match make_round(tape, w) {
        Err(e) => Err(e),
        Ok(_) => Ok(Ok(())),
    }
}

// ---------------------------------------------------------------------------
// The start.
// ---------------------------------------------------------------------------
/// What is printed of a reconcile's interval.
pub open spec fn interval_text(interval: u64) -> Seq<char> {
    "display events plus "@ + number::dec(interval as nat) + "s reconcile; press Ctrl-C to stop"@
}

/// The lines of the saved targets are printed.
pub open spec fn summaries_said(targets: Seq<TargetView>, t: Seq<ReplyView>) -> Course<()>
    decreases targets.len(),
{
    if targets.len() == 0 {
        Course::Ends((), t)
    } else {
        match effect::said("  - "@ + targets[0].summary_text(), t) {
            Course::Asks(e) => Course::Asks(e),
            Course::Ends(_, t) => summaries_said(targets.skip(1), t),
        }
    }
}

fn say_summaries(tape: &mut Tape, targets: &Vec<MonitorTarget>) -> (r: Result<(), Effect>)
    ensures
        effect::course(r, final(tape).rest()) == summaries_said(
            target::target_views(targets@),
            old(tape).rest(),
        ),
        final(tape).all() == old(tape).all(),
{
    let ghost all = target::target_views(targets@);
    let ghost whole = summaries_said(all, tape.rest());
    let mut i: usize = 0;
    assert(all.skip(0) =~= all);
    while i < targets.len()
        invariant
            tape.all() == old(tape).all(),
            i <= targets.len(),
            all == target::target_views(targets@),
            whole == summaries_said(all, old(tape).rest()),
            summaries_said(all.skip(i as int), tape.rest()) == whole,
        decreases targets.len() - i,
    {
        assert(all.skip(i as int).skip(1) =~= all.skip(i + 1));
        assert(all.skip(i as int)[0] == targets[i as int]@);
        let summary = targets[i].summary();
        let line = cat2("  - ", summary.as_str());
        match say(tape, line.as_str()) {
            Err(e) => return Err(e),
            Ok(_) => {},
        }
        i = i + 1;
    }
    Ok(())
}

/// What is watched for is printed.
pub open spec fn watch_announced(w: WatchView, interval: u64, t: Seq<ReplyView>) -> Course<()> {
    match w.target {
        Some(name) => effect::said(
            "watching target `"@ + name + "`; "@ + interval_text(interval),
            t,
        ),
        None => match effect::said(
            "watching "@ + number::dec(w.targets.len()) + " saved target(s); "@ + interval_text(
                interval,
            ),
            t,
        ) {
            Course::Asks(e) => Course::Asks(e),
            Course::Ends(_, t) => summaries_said(w.targets, t),
        },
    }
}

fn announce_watch(tape: &mut Tape, w: &Watch, interval: u64) -> (r: Result<(), Effect>)
    ensures
        effect::course(r, final(tape).rest()) == watch_announced(
            w.shown(),
            interval,
            old(tape).rest(),
        ),
        final(tape).all() == old(tape).all(),
{
    let digits = decimal(interval);
    let mut end = cat2("display events plus ", digits.as_str());
    end.append("s reconcile; press Ctrl-C to stop");
    match borrow_opt(&w.target) {
        Some(name) => {
            let mut line = cat2("watching target `", name);
            line.append("`; ");
            line.append(end.as_str());
            say(tape, line.as_str())
        },
        None => {
            let count = decimal(w.targets.len() as u64);
            let mut line = cat2("watching ", count.as_str());
            line.append(" saved target(s); ");
            line.append(end.as_str());
            match say(tape, line.as_str()) {
                Err(e) => Err(e),
                Ok(_) => say_summaries(tape, &w.targets),
            }
        },
    }
}

/// A watcher is started: events are asked for, what is watched for is printed,
/// and the first round is made.
pub open spec fn watch_begun(w: WatchView, interval: u64, t: Seq<ReplyView>) -> Course<()> {
    match events_started(interval, t) {
        Course::Asks(e) => Course::Asks(e),
        Course::Ends(status, t) => match match status {
            Some(status) => effect::warned("warning: "@ + status, t),
            None => Course::Ends((), t),
        } {
            Course::Asks(e) => Course::Asks(e),
            Course::Ends(_, t) => match watch_announced(w, interval, t) {
                Course::Asks(e) => Course::Asks(e),
                Course::Ends(_, t) => round_made(w, t),
            },
        },
    }
}

fn begin_watch(tape: &mut Tape, w: &Watch, interval: u64) -> (r: Result<(), Effect>)
    ensures
        effect::course(r, final(tape).rest()) == watch_begun(
            w.shown(),
            interval,
            old(tape).rest(),
        ),
        final(tape).all() == old(tape).all(),
{
    match start_display_event_source(tape, interval) {
        Err(e) => return Err(e),
        Ok(None) => {},
        Ok(Some(status)) => {
            let line = cat2("warning: ", status.as_str());
            match warn(tape, line.as_str()) {
                Err(e) => return Err(e),
                Ok(_) => {},
            }
        },
    }
    match announce_watch(tape, w, interval) {
        Err(e) => return Err(e),
        Ok(_) => {},
    }
    make_round(tape, w)
}

/// The targets of a watcher: none are read where one was named.
pub open spec fn watch_targets_read(named: bool, t: Seq<ReplyView>) -> Course<
    Result<Seq<TargetView>, Seq<char>>,
> {
    if named {
        Course::Ends(Ok(Seq::empty()), t)
    } else {
        files::targets_loaded(t)
    }
}

fn read_watch_targets(tape: &mut Tape, named: bool) -> (r: Result<
    Result<Vec<MonitorTarget>, String>,
    Effect,
>)
    ensures
        effect::course(r, final(tape).rest()) == watch_targets_read(named, old(tape).rest()),
        final(tape).all() == old(tape).all(),
{
    if named {
        let none: Vec<MonitorTarget> = Vec::new();
        assert(target::target_views(none@) =~= Seq::empty());
        Ok(Ok(none))
    } else {
        load_targets(tape)
    }
}

/// The command `watch`, up to the end of its first round.
pub open spec fn watch_run(args: Seq<Seq<char>>, t: Seq<ReplyView>) -> Course<
    Result<WatchView, Seq<char>>,
> {
    match options::watch_given(args, options::watch_defaults()) {
        Err(error) => Course::Ends(Err(error), t),
        Ok(o) => match watch_targets_read(o.target is Some, t) {
            Course::Asks(e) => Course::Asks(e),
            Course::Ends(r, t) => match r {
                Err(error) => Course::Ends(Err(error), t),
                Ok(targets) => if o.target is None && targets.len() == 0 {
                    Course::Ends(
                        Err(
                            "watch has no target. Run `displayed`, select an external display, press `a`, then run `displayed watch`."@,
                        ),
                        t,
                    )
                } else {
                    let w = WatchView { target: o.target, targets, mode: o.mode, force: o.force };
                    match watch_begun(w, o.interval, t) {
                        Course::Asks(e) => Course::Asks(e),
                        Course::Ends(_, t) => Course::Ends(Ok(w), t),
                    }
                },
            },
        },
    }
}

/// Starts a watcher, and makes its first round.
pub fn watch(tape: &mut Tape, args: &Vec<String>) -> (r: Result<Result<Watch, String>, Effect>)
    ensures
        effect::course(r, final(tape).rest()) == watch_run(text::texts(args@), old(tape).rest()),
        final(tape).all() == old(tape).all(),
{
    let o = match watch_options(args) {
        Err(error) => return Ok(Err(error)),
        Ok(o) => o,
    };
    let targets = match read_watch_targets(tape, o.target.is_some()) {
        Err(e) => return Err(e),
        Ok(Err(error)) => return Ok(Err(error)),
        Ok(Ok(targets)) => targets,
    };
    if o.target.is_none() && targets.len() == 0 {
        return Ok(
            Err(
                owned(
                    "watch has no target. Run `displayed`, select an external display, press `a`, then run `displayed watch`.",
                ),
            ),
        );
    }
    let interval: u64 = o.interval;
    let w = Watch { target: o.target, targets, mode: o.mode, force: o.force };
    match begin_watch(tape, &w, interval) {
        Err(e) => Err(e),
        Ok(_) => Ok(Ok(w)),
    }
}

} // verus!
