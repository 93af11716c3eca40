//! How a procedure meets the outside world.
//!
//! A procedure does nothing by itself. It runs over a tape of replies: each time
//! it needs something done, it takes the next reply from the tape, and where
//! there is none left it stops and names the effect that it waits for. Whoever
//! runs it performs the effect, puts the reply on the tape, and starts it over.

use vstd::prelude::*;

use crate::display;
use crate::display::Display;
use crate::path::{FilePath, FilePathView};
use crate::placer::{Capture, CaptureView, ParsedDisplayplacer, ParsedView};
use crate::policy::{AutoWatchAction, ClamshellState, PowerEvent, WatchEvent};
use crate::screen;
use crate::screen::{Span, SpanView};
use crate::target;
use crate::target::MonitorTarget;
use crate::text;
use crate::text::{cat2, copy_opt, owned};

verus! {

/// Why something could not be done.
#[derive(Debug)]
pub struct Failure {
    /// There is no such file.
    pub missing: bool,
    pub text: String,
}

/// What a failure holds, as plain text.
#[verifier::ext_equal]
pub struct FailureView {
    pub missing: bool,
    pub text: Seq<char>,
}

impl View for Failure {
    type V = FailureView;

    open spec fn view(&self) -> FailureView {
        FailureView { missing: self.missing, text: self.text@ }
    }
}

/// The failure of everything below the home directory where none is known.
pub fn home_not_set() -> (r: Failure)
    ensures
        r@ == (FailureView { missing: false, text: "HOME is not set"@ }),
{
    Failure { missing: false, text: owned("HOME is not set") }
}

/// A key.
#[derive(Debug, Clone, Copy, PartialEq, Eq, Structural)]
pub enum Key {
    Char(char),
    Esc,
    Up,
    Down,
    Enter,
    Other,
}

/// What the terminal reports.
#[derive(Debug, Clone, Copy, PartialEq, Eq, Structural)]
pub enum Input {
    /// A key, and whether control was held.
    Key(Key, bool),
    /// The terminal has this many columns now.
    Resize(u16),
    Other,
}

/// Something to be done outside.
#[derive(Debug)]
pub enum Effect {
    /// Text goes to the standard output.
    Print(String),
    /// Text goes to the standard error.
    Complain(String),
    /// A command is run to its end.
    Run { program: String, arguments: Vec<String> },
    /// A command is started.
    Spawn { program: String, arguments: Vec<String> },
    /// Whether the started command has ended.
    Poll,
    /// What the started command came to.
    Collect,
    /// The started command is killed.
    Kill,
    /// The displays are detected anew.
    Detect,
    /// A display configuration is begun.
    BeginConfiguration,
    /// In the configuration, a display is turned on or off.
    ConfigureEnabled { display: u32, enabled: bool },
    /// The configuration is dropped.
    CancelConfiguration,
    /// The configuration is made permanent.
    CompleteConfiguration,
    /// The numbers of the displays that are online.
    OnlineDisplays,
    /// Whether a display is the built-in one.
    AskBuiltin(u32),
    /// Whether a display is active.
    AskActive(u32),
    ReadFile(FilePath),
    WriteFile(FilePath, String),
    AppendFile(FilePath, String),
    RemoveFile(FilePath),
    /// A directory is made, with those around it.
    CreateDir(FilePath),
    PathExists(FilePath),
    /// The path as text.
    ShowPath(FilePath),
    /// The path of this program.
    ExecutablePath,
    /// The search path for programs.
    SearchPath,
    /// The seconds since 1970.
    Timestamp,
    /// The time of a clock that never goes back, in nanoseconds.
    Clock,
    /// A pause of so many milliseconds.
    Sleep(u64),
    /// The terminal is taken over.
    OpenTerminal,
    /// The number of columns of the terminal.
    TerminalSize,
    /// What the terminal reports within so many milliseconds.
    ReadInput(u64),
    /// The spans are written to the terminal.
    Draw(Vec<Span>),
    /// All that was written to the terminal is sent to it.
    Flush,
    /// Display changes are reported from now on, with a reconcile every so many
    /// seconds.
    StartDisplayEvents(u64),
    /// Power events are reported from now on.
    StartPowerEvents,
    /// The next display event, if there is one.
    NextWatchEvent,
    /// The next display event, when it comes.
    AwaitWatchEvent,
    /// The next power event, if there is one.
    NextPowerEvent,
}

/// What an effect holds, as plain text.
#[verifier::ext_equal]
pub enum EffectView {
    Print(Seq<char>),
    Complain(Seq<char>),
    Run { program: Seq<char>, arguments: Seq<Seq<char>> },
    Spawn { program: Seq<char>, arguments: Seq<Seq<char>> },
    Poll,
    Collect,
    Kill,
    Detect,
    BeginConfiguration,
    ConfigureEnabled { display: u32, enabled: bool },
    CancelConfiguration,
    CompleteConfiguration,
    OnlineDisplays,
    AskBuiltin(u32),
    AskActive(u32),
    ReadFile(FilePathView),
    WriteFile(FilePathView, Seq<char>),
    AppendFile(FilePathView, Seq<char>),
    RemoveFile(FilePathView),
    CreateDir(FilePathView),
    PathExists(FilePathView),
    ShowPath(FilePathView),
    ExecutablePath,
    SearchPath,
    Timestamp,
    Clock,
    Sleep(u64),
    OpenTerminal,
    TerminalSize,
    ReadInput(u64),
    Draw(Seq<SpanView>),
    Flush,
    StartDisplayEvents(u64),
    StartPowerEvents,
    NextWatchEvent,
    AwaitWatchEvent,
    NextPowerEvent,
}

impl View for Effect {
    type V = EffectView;

    open spec fn view(&self) -> EffectView {
        match self {
            Effect::Print(s) => EffectView::Print(s@),
            Effect::Complain(s) => EffectView::Complain(s@),
            Effect::Run { program, arguments } => EffectView::Run {
                program: program@,
                arguments: text::texts(arguments@),
            },
            Effect::Spawn { program, arguments } => EffectView::Spawn {
                program: program@,
                arguments: text::texts(arguments@),
            },
            Effect::Poll => EffectView::Poll,
            Effect::Collect => EffectView::Collect,
            Effect::Kill => EffectView::Kill,
            Effect::Detect => EffectView::Detect,
            Effect::BeginConfiguration => EffectView::BeginConfiguration,
            Effect::ConfigureEnabled { display, enabled } => EffectView::ConfigureEnabled {
                display: *display,
                enabled: *enabled,
            },
            Effect::CancelConfiguration => EffectView::CancelConfiguration,
            Effect::CompleteConfiguration => EffectView::CompleteConfiguration,
            Effect::OnlineDisplays => EffectView::OnlineDisplays,
            Effect::AskBuiltin(id) => EffectView::AskBuiltin(*id),
            Effect::AskActive(id) => EffectView::AskActive(*id),
            Effect::ReadFile(path) => EffectView::ReadFile(path@),
            Effect::WriteFile(path, body) => EffectView::WriteFile(path@, body@),
            Effect::AppendFile(path, body) => EffectView::AppendFile(path@, body@),
            Effect::RemoveFile(path) => EffectView::RemoveFile(path@),
            Effect::CreateDir(path) => EffectView::CreateDir(path@),
            Effect::PathExists(path) => EffectView::PathExists(path@),
            Effect::ShowPath(path) => EffectView::ShowPath(path@),
            Effect::ExecutablePath => EffectView::ExecutablePath,
            Effect::SearchPath => EffectView::SearchPath,
            Effect::Timestamp => EffectView::Timestamp,
            Effect::Clock => EffectView::Clock,
            Effect::Sleep(ms) => EffectView::Sleep(*ms),
            Effect::OpenTerminal => EffectView::OpenTerminal,
            Effect::TerminalSize => EffectView::TerminalSize,
            Effect::ReadInput(ms) => EffectView::ReadInput(*ms),
            Effect::Draw(spans) => EffectView::Draw(screen::span_views(spans@)),
            Effect::Flush => EffectView::Flush,
            Effect::StartDisplayEvents(seconds) => EffectView::StartDisplayEvents(*seconds),
            Effect::StartPowerEvents => EffectView::StartPowerEvents,
            Effect::NextWatchEvent => EffectView::NextWatchEvent,
            Effect::AwaitWatchEvent => EffectView::AwaitWatchEvent,
            Effect::NextPowerEvent => EffectView::NextPowerEvent,
        }
    }
}

/// What came of an effect.
#[derive(Debug)]
pub enum Reply {
    Done(Result<(), Failure>),
    Ran(Result<Capture, Failure>),
    Ended(Result<bool, Failure>),
    Code(i32),
    Numbers(Vec<u32>),
    Flag(bool),
    Text(Result<String, Failure>),
    Variable(Option<String>),
    Stamp(Result<u64, Failure>),
    Nanos(u64),
    Columns(Option<u16>),
    Input(Result<Option<Input>, Failure>),
    Watch(Option<WatchEvent>),
    Awaited(Result<WatchEvent, Failure>),
    Power(Option<PowerEvent>),
}

/// What a reply holds, as plain text.
#[verifier::ext_equal]
pub enum ReplyView {
    Done(Result<(), FailureView>),
    Ran(Result<CaptureView, FailureView>),
    Ended(Result<bool, FailureView>),
    Code(i32),
    Numbers(Seq<u32>),
    Flag(bool),
    Text(Result<Seq<char>, FailureView>),
    Variable(Option<Seq<char>>),
    Stamp(Result<u64, FailureView>),
    Nanos(u64),
    Columns(Option<u16>),
    Input(Result<Option<Input>, FailureView>),
    Watch(Option<WatchEvent>),
    Awaited(Result<WatchEvent, FailureView>),
    Power(Option<PowerEvent>),
}

impl View for Reply {
    type V = ReplyView;

    open spec fn view(&self) -> ReplyView {
        match self {
            Reply::Done(r) => ReplyView::Done(
                match r {
                    Ok(_) => Ok(()),
                    Err(e) => Err(e@),
                },
            ),
            Reply::Ran(r) => ReplyView::Ran(
                match r {
                    Ok(capture) => Ok(capture@),
                    Err(e) => Err(e@),
                },
            ),
            Reply::Ended(r) => ReplyView::Ended(
                match r {
                    Ok(ended) => Ok(*ended),
                    Err(e) => Err(e@),
                },
            ),
            Reply::Code(code) => ReplyView::Code(*code),
            Reply::Numbers(ids) => ReplyView::Numbers(ids@),
            Reply::Flag(flag) => ReplyView::Flag(*flag),
            Reply::Text(r) => ReplyView::Text(
                match r {
                    Ok(s) => Ok(s@),
                    Err(e) => Err(e@),
                },
            ),
            Reply::Variable(value) => ReplyView::Variable(text::opt_text(*value)),
            Reply::Stamp(r) => ReplyView::Stamp(
                match r {
                    Ok(seconds) => Ok(*seconds),
                    Err(e) => Err(e@),
                },
            ),
            Reply::Nanos(time) => ReplyView::Nanos(*time),
            Reply::Columns(columns) => ReplyView::Columns(*columns),
            Reply::Input(r) => ReplyView::Input(
                match r {
                    Ok(input) => Ok(*input),
                    Err(e) => Err(e@),
                },
            ),
            Reply::Watch(event) => ReplyView::Watch(*event),
            Reply::Awaited(r) => ReplyView::Awaited(
                match r {
                    Ok(event) => Ok(*event),
                    Err(e) => Err(e@),
                },
            ),
            Reply::Power(event) => ReplyView::Power(*event),
        }
    }
}

/// What the replies hold.
pub open spec fn reply_views(v: Seq<Reply>) -> Seq<ReplyView> {
    Seq::new(v.len(), |i: int| v[i]@)
}

// ---------------------------------------------------------------------------
// Courses.
// ---------------------------------------------------------------------------
/// How a procedure goes over a tape: it stops at an effect for which there is
/// no reply yet, or it comes to its end with a value, and with what is left of
/// the tape.
#[verifier::ext_equal]
pub enum Course<T> {
    Asks(EffectView),
    Ends(T, Seq<ReplyView>),
}

/// A value that has a plain form.
pub trait Shown {
    type Plain;

    /// The plain form.
    spec fn shown(&self) -> Self::Plain;
}

impl Shown for () {
    type Plain = ();

    open spec fn shown(&self) -> () {
        ()
    }
}

impl Shown for bool {
    type Plain = bool;

    open spec fn shown(&self) -> bool {
        *self
    }
}

impl Shown for i32 {
    type Plain = i32;

    open spec fn shown(&self) -> i32 {
        *self
    }
}

impl Shown for u16 {
    type Plain = u16;

    open spec fn shown(&self) -> u16 {
        *self
    }
}

impl Shown for u32 {
    type Plain = u32;

    open spec fn shown(&self) -> u32 {
        *self
    }
}

impl Shown for u64 {
    type Plain = u64;

    open spec fn shown(&self) -> u64 {
        *self
    }
}

impl Shown for Input {
    type Plain = Input;

    open spec fn shown(&self) -> Input {
        *self
    }
}

impl Shown for WatchEvent {
    type Plain = WatchEvent;

    open spec fn shown(&self) -> WatchEvent {
        *self
    }
}

impl Shown for PowerEvent {
    type Plain = PowerEvent;

    open spec fn shown(&self) -> PowerEvent {
        *self
    }
}

impl Shown for ClamshellState {
    type Plain = ClamshellState;

    open spec fn shown(&self) -> ClamshellState {
        *self
    }
}

impl Shown for AutoWatchAction {
    type Plain = AutoWatchAction;

    open spec fn shown(&self) -> AutoWatchAction {
        *self
    }
}

impl Shown for String {
    type Plain = Seq<char>;

    open spec fn shown(&self) -> Seq<char> {
        self@
    }
}

impl Shown for Capture {
    type Plain = CaptureView;

    open spec fn shown(&self) -> CaptureView {
        self@
    }
}

impl Shown for ParsedDisplayplacer {
    type Plain = ParsedView;

    open spec fn shown(&self) -> ParsedView {
        self@
    }
}

impl Shown for Vec<u32> {
    type Plain = Seq<u32>;

    open spec fn shown(&self) -> Seq<u32> {
        self@
    }
}

impl Shown for Vec<String> {
    type Plain = Seq<Seq<char>>;

    open spec fn shown(&self) -> Seq<Seq<char>> {
        text::texts(self@)
    }
}

impl Shown for Vec<Display> {
    type Plain = Seq<display::DisplayView>;

    open spec fn shown(&self) -> Seq<display::DisplayView> {
        display::display_views(self@)
    }
}

impl Shown for Vec<MonitorTarget> {
    type Plain = Seq<target::TargetView>;

    open spec fn shown(&self) -> Seq<target::TargetView> {
        target::target_views(self@)
    }
}

impl<T: Shown> Shown for Option<T> {
    type Plain = Option<T::Plain>;

    open spec fn shown(&self) -> Option<T::Plain> {
        match self {
            Some(value) => Some(value.shown()),
            None => None,
        }
    }
}

impl<T: Shown> Shown for Result<T, String> {
    type Plain = Result<T::Plain, Seq<char>>;

    open spec fn shown(&self) -> Result<T::Plain, Seq<char>> {
        match self {
            Ok(value) => Ok(value.shown()),
            Err(e) => Err(e@),
        }
    }
}

/// The course that a run of a procedure shows: `Err` is the effect at which it
/// stopped, `rest` what was left of the tape.
pub open spec fn course<T: Shown>(r: Result<T, Effect>, rest: Seq<ReplyView>) -> Course<T::Plain> {
    match r {
        Ok(value) => Course::Ends(value.shown(), rest),
        Err(effect) => Course::Asks(effect@),
    }
}

// ---------------------------------------------------------------------------
// The tape.
// ---------------------------------------------------------------------------
/// The replies to the effects so far.
#[derive(Debug)]
pub struct Tape {
    replies: Vec<Reply>,
    next: usize,
}

impl Tape {
    /// The replies that are still to come.
    pub closed spec fn rest(&self) -> Seq<ReplyView> {
        if self.next <= self.replies.len() {
            reply_views(self.replies@).skip(self.next as int)
        } else {
            Seq::empty()
        }
    }

    /// All the replies.
    pub closed spec fn all(&self) -> Seq<Reply> {
        self.replies@
    }

    /// A tape of replies, at its start.
    pub fn new(replies: Vec<Reply>) -> (r: Tape)
        ensures
            r.rest() == reply_views(replies@),
            r.all() == replies@,
    {
        let tape = Tape { replies, next: 0 };
        assert(tape.rest() =~= reply_views(replies@));
        tape
    }

    /// The replies, for another run.
    pub fn into_replies(self) -> (r: Vec<Reply>)
        ensures
            r@ == self.all(),
    {
        self.replies
    }

    /// Where there is a reply left, takes it and gives its place; else gives the
    /// effect back.
    fn take(&mut self, effect: Effect) -> (r: Result<usize, Effect>)
        ensures
            final(self).all() == old(self).all(),
            match r {
                Ok(i) => {
                    &&& i < final(self).replies.len()
                    &&& old(self).rest().len() > 0
                    &&& final(self).replies[i as int]@ == old(self).rest()[0]
                    &&& final(self).rest() == old(self).rest().skip(1)
                },
                Err(e) => e == effect && old(self).rest().len() == 0 && final(self).rest() == old(
                    self,
                ).rest(),
            },
    {
        if self.next < self.replies.len() {
            let i: usize = self.next;
            self.next = i + 1;
            assert(self.rest() =~= old(self).rest().skip(1));
            Ok(i)
        } else {
            Err(effect)
        }
    }
}

// ---------------------------------------------------------------------------
// Replies of each kind. A reply of another kind counts as a failure.
// ---------------------------------------------------------------------------
/// The reply, as whether it was done.
pub open spec fn as_done(reply: ReplyView) -> Result<(), Seq<char>> {
    match reply {
        ReplyView::Done(r) => match r {
            Ok(_) => Ok(()),
            Err(e) => Err(e.text),
        },
        _ => Err("unexpected reply"@),
    }
}

/// An effect that is answered by whether it was done.
pub open spec fn asks_done(effect: EffectView, t: Seq<ReplyView>) -> Course<Result<(), Seq<char>>> {
    if t.len() == 0 {
        Course::Asks(effect)
    } else {
        Course::Ends(as_done(t[0]), t.skip(1))
    }
}

/// The reply, as whether a file is gone.
pub open spec fn as_removed(reply: ReplyView) -> Result<(), Seq<char>> {
    match reply {
        ReplyView::Done(r) => match r {
            Ok(_) => Ok(()),
            Err(e) => if e.missing {
                Ok(())
            } else {
                Err(e.text)
            },
        },
        _ => Err("unexpected reply"@),
    }
}

/// An effect that is answered by whether a file is gone.
pub open spec fn asks_removed(
    effect: EffectView,
    t: Seq<ReplyView>,
) -> Course<Result<(), Seq<char>>> {
    if t.len() == 0 {
        Course::Asks(effect)
    } else {
        Course::Ends(as_removed(t[0]), t.skip(1))
    }
}

/// The reply, as what a command came to.
pub open spec fn as_ran(reply: ReplyView) -> Result<CaptureView, Seq<char>> {
    match reply {
        ReplyView::Ran(r) => match r {
            Ok(capture) => Ok(capture),
            Err(e) => Err(e.text),
        },
        _ => Err("unexpected reply"@),
    }
}

/// An effect that is answered by what a command came to.
pub open spec fn asks_ran(
    effect: EffectView,
    t: Seq<ReplyView>,
) -> Course<Result<CaptureView, Seq<char>>> {
    if t.len() == 0 {
        Course::Asks(effect)
    } else {
        Course::Ends(as_ran(t[0]), t.skip(1))
    }
}

/// The reply, as whether a command has ended.
pub open spec fn as_ended(reply: ReplyView) -> Result<bool, Seq<char>> {
    match reply {
        ReplyView::Ended(r) => match r {
            Ok(ended) => Ok(ended),
            Err(e) => Err(e.text),
        },
        _ => Err("unexpected reply"@),
    }
}

/// An effect that is answered by whether a command has ended.
pub open spec fn asks_ended(
    effect: EffectView,
    t: Seq<ReplyView>,
) -> Course<Result<bool, Seq<char>>> {
    if t.len() == 0 {
        Course::Asks(effect)
    } else {
        Course::Ends(as_ended(t[0]), t.skip(1))
    }
}

/// The reply, as an error code, where zero is none.
pub open spec fn as_code(reply: ReplyView) -> i32 {
    match reply {
        ReplyView::Code(code) => code,
        _ => i32::MIN,
    }
}

/// An effect that is answered by an error code, where zero is none.
pub open spec fn asks_code(effect: EffectView, t: Seq<ReplyView>) -> Course<i32> {
    if t.len() == 0 {
        Course::Asks(effect)
    } else {
        Course::Ends(as_code(t[0]), t.skip(1))
    }
}

/// The reply, as a list of numbers.
pub open spec fn as_numbers(reply: ReplyView) -> Seq<u32> {
    match reply {
        ReplyView::Numbers(ids) => ids,
        _ => Seq::empty(),
    }
}

/// An effect that is answered by a list of numbers.
pub open spec fn asks_numbers(effect: EffectView, t: Seq<ReplyView>) -> Course<Seq<u32>> {
    if t.len() == 0 {
        Course::Asks(effect)
    } else {
        Course::Ends(as_numbers(t[0]), t.skip(1))
    }
}

/// The reply, as whether something is so.
pub open spec fn as_flag(reply: ReplyView) -> bool {
    match reply {
        ReplyView::Flag(flag) => flag,
        _ => false,
    }
}

/// An effect that is answered by whether something is so.
pub open spec fn asks_flag(effect: EffectView, t: Seq<ReplyView>) -> Course<bool> {
    if t.len() == 0 {
        Course::Asks(effect)
    } else {
        Course::Ends(as_flag(t[0]), t.skip(1))
    }
}

/// The reply, as a text.
pub open spec fn as_text(reply: ReplyView) -> Result<Seq<char>, Seq<char>> {
    match reply {
        ReplyView::Text(r) => match r {
            Ok(s) => Ok(s),
            Err(e) => Err(e.text),
        },
        _ => Err("unexpected reply"@),
    }
}

/// An effect that is answered by a text.
pub open spec fn asks_text(
    effect: EffectView,
    t: Seq<ReplyView>,
) -> Course<Result<Seq<char>, Seq<char>>> {
    if t.len() == 0 {
        Course::Asks(effect)
    } else {
        Course::Ends(as_text(t[0]), t.skip(1))
    }
}

/// The reply, as what a file holds, if there is one.
pub open spec fn as_file(reply: ReplyView) -> Result<Option<Seq<char>>, Seq<char>> {
    match reply {
        ReplyView::Text(r) => match r {
            Ok(s) => Ok(Some(s)),
            Err(e) => if e.missing {
                Ok(None)
            } else {
                Err(e.text)
            },
        },
        _ => Err("unexpected reply"@),
    }
}

/// An effect that is answered by what a file holds, if there is one.
pub open spec fn asks_file(
    effect: EffectView,
    t: Seq<ReplyView>,
) -> Course<Result<Option<Seq<char>>, Seq<char>>> {
    if t.len() == 0 {
        Course::Asks(effect)
    } else {
        Course::Ends(as_file(t[0]), t.skip(1))
    }
}

/// The reply, as the value of a variable.
pub open spec fn as_variable(reply: ReplyView) -> Option<Seq<char>> {
    match reply {
        ReplyView::Variable(value) => value,
        _ => None,
    }
}

/// An effect that is answered by the value of a variable.
pub open spec fn asks_variable(effect: EffectView, t: Seq<ReplyView>) -> Course<Option<Seq<char>>> {
    if t.len() == 0 {
        Course::Asks(effect)
    } else {
        Course::Ends(as_variable(t[0]), t.skip(1))
    }
}

/// The reply, as the time of day.
pub open spec fn as_stamp(reply: ReplyView) -> Result<u64, Seq<char>> {
    match reply {
        ReplyView::Stamp(r) => match r {
            Ok(seconds) => Ok(seconds),
            Err(e) => Err(e.text),
        },
        _ => Err("unexpected reply"@),
    }
}

/// An effect that is answered by the time of day.
pub open spec fn asks_stamp(
    effect: EffectView,
    t: Seq<ReplyView>,
) -> Course<Result<u64, Seq<char>>> {
    if t.len() == 0 {
        Course::Asks(effect)
    } else {
        Course::Ends(as_stamp(t[0]), t.skip(1))
    }
}

/// The reply, as the time of a clock.
pub open spec fn as_nanos(reply: ReplyView) -> u64 {
    match reply {
        ReplyView::Nanos(time) => time,
        _ => u64::MAX,
    }
}

/// An effect that is answered by the time of a clock.
pub open spec fn asks_nanos(effect: EffectView, t: Seq<ReplyView>) -> Course<u64> {
    if t.len() == 0 {
        Course::Asks(effect)
    } else {
        Course::Ends(as_nanos(t[0]), t.skip(1))
    }
}

/// The reply, as the width of the terminal.
pub open spec fn as_columns(reply: ReplyView) -> Option<u16> {
    match reply {
        ReplyView::Columns(columns) => columns,
        _ => None,
    }
}

/// An effect that is answered by the width of the terminal.
pub open spec fn asks_columns(effect: EffectView, t: Seq<ReplyView>) -> Course<Option<u16>> {
    if t.len() == 0 {
        Course::Asks(effect)
    } else {
        Course::Ends(as_columns(t[0]), t.skip(1))
    }
}

/// The reply, as what the terminal reports.
pub open spec fn as_input(reply: ReplyView) -> Result<Option<Input>, Seq<char>> {
    match reply {
        ReplyView::Input(r) => match r {
            Ok(input) => Ok(input),
            Err(e) => Err(e.text),
        },
        _ => Err("unexpected reply"@),
    }
}

/// An effect that is answered by what the terminal reports.
pub open spec fn asks_input(
    effect: EffectView,
    t: Seq<ReplyView>,
) -> Course<Result<Option<Input>, Seq<char>>> {
    if t.len() == 0 {
        Course::Asks(effect)
    } else {
        Course::Ends(as_input(t[0]), t.skip(1))
    }
}

/// The reply, as a display event.
pub open spec fn as_watch(reply: ReplyView) -> Option<WatchEvent> {
    match reply {
        ReplyView::Watch(event) => event,
        _ => None,
    }
}

/// An effect that is answered by a display event.
pub open spec fn asks_watch(effect: EffectView, t: Seq<ReplyView>) -> Course<Option<WatchEvent>> {
    if t.len() == 0 {
        Course::Asks(effect)
    } else {
        Course::Ends(as_watch(t[0]), t.skip(1))
    }
}

/// The reply, as a display event that was waited for.
pub open spec fn as_awaited(reply: ReplyView) -> Result<WatchEvent, Seq<char>> {
    match reply {
        ReplyView::Awaited(r) => match r {
            Ok(event) => Ok(event),
            Err(e) => Err(e.text),
        },
        _ => Err("unexpected reply"@),
    }
}

/// An effect that is answered by a display event that was waited for.
pub open spec fn asks_awaited(
    effect: EffectView,
    t: Seq<ReplyView>,
) -> Course<Result<WatchEvent, Seq<char>>> {
    if t.len() == 0 {
        Course::Asks(effect)
    } else {
        Course::Ends(as_awaited(t[0]), t.skip(1))
    }
}

/// The reply, as a power event.
pub open spec fn as_power(reply: ReplyView) -> Option<PowerEvent> {
    match reply {
        ReplyView::Power(event) => event,
        _ => None,
    }
}

/// An effect that is answered by a power event.
pub open spec fn asks_power(effect: EffectView, t: Seq<ReplyView>) -> Course<Option<PowerEvent>> {
    if t.len() == 0 {
        Course::Asks(effect)
    } else {
        Course::Ends(as_power(t[0]), t.skip(1))
    }
}

fn copy_numbers(v: &Vec<u32>) -> (r: Vec<u32>)
    ensures
        r@ == v@,
{
    let mut r: Vec<u32> = Vec::new();
    let mut i: usize = 0;
    while i < v.len()
        invariant
            i <= v.len(),
            r@ == v@.take(i as int),
        decreases v.len() - i,
    {
        proof {
            assert(v@.take(i + 1) =~= v@.take(i as int).push(v@[i as int]));
        }
        r.push(v[i]);
        i = i + 1;
    }
    assert(v@.take(i as int) =~= v@);
    r
}

impl Tape {
    /// Has an effect performed, and reads whether it was done.
    pub fn ask_done(&mut self, effect: Effect) -> (r: Result<Result<(), String>, Effect>)
        ensures
            course(r, final(self).rest()) == asks_done(effect@, old(self).rest()),
            final(self).all() == old(self).all(),
    {
        let i = match self.take(effect) {
            Err(e) => return Err(e),
            Ok(i) => i,
        };
        let value = match &self.replies[i] {
            Reply::Done(r) => match r {
                Ok(_) => Ok(()),
                Err(e) => Err(e.text.clone()),
            },
            _ => Err(owned("unexpected reply")),
        };
        Ok(value)
    }

    /// Has an effect performed, and reads whether a file is gone.
    pub fn ask_removed(&mut self, effect: Effect) -> (r: Result<Result<(), String>, Effect>)
        ensures
            course(r, final(self).rest()) == asks_removed(effect@, old(self).rest()),
            final(self).all() == old(self).all(),
    {
        let i = match self.take(effect) {
            Err(e) => return Err(e),
            Ok(i) => i,
        };
        let value = match &self.replies[i] {
            Reply::Done(r) => match r {
                Ok(_) => Ok(()),
                Err(e) => if e.missing {
                    Ok(())
                } else {
                    Err(e.text.clone())
                },
            },
            _ => Err(owned("unexpected reply")),
        };
        Ok(value)
    }

    /// Has an effect performed, and reads what a command came to.
    pub fn ask_ran(&mut self, effect: Effect) -> (r: Result<Result<Capture, String>, Effect>)
        ensures
            course(r, final(self).rest()) == asks_ran(effect@, old(self).rest()),
            final(self).all() == old(self).all(),
    {
        let i = match self.take(effect) {
            Err(e) => return Err(e),
            Ok(i) => i,
        };
        let value = match &self.replies[i] {
            Reply::Ran(r) => match r {
                Ok(capture) => Ok(capture.copy()),
                Err(e) => Err(e.text.clone()),
            },
            _ => Err(owned("unexpected reply")),
        };
        Ok(value)
    }

    /// Has an effect performed, and reads whether a command has ended.
    pub fn ask_ended(&mut self, effect: Effect) -> (r: Result<Result<bool, String>, Effect>)
        ensures
            course(r, final(self).rest()) == asks_ended(effect@, old(self).rest()),
            final(self).all() == old(self).all(),
    {
        let i = match self.take(effect) {
            Err(e) => return Err(e),
            Ok(i) => i,
        };
        let value = match &self.replies[i] {
            Reply::Ended(r) => match r {
                Ok(ended) => Ok(*ended),
                Err(e) => Err(e.text.clone()),
            },
            _ => Err(owned("unexpected reply")),
        };
        Ok(value)
    }

    /// Has an effect performed, and reads an error code, where zero is none.
    pub fn ask_code(&mut self, effect: Effect) -> (r: Result<i32, Effect>)
        ensures
            course(r, final(self).rest()) == asks_code(effect@, old(self).rest()),
            final(self).all() == old(self).all(),
    {
        let i = match self.take(effect) {
            Err(e) => return Err(e),
            Ok(i) => i,
        };
        let value = match &self.replies[i] {
            Reply::Code(code) => *code,
            _ => i32::MIN,
        };
        Ok(value)
    }

    /// Has an effect performed, and reads a list of numbers.
    pub fn ask_numbers(&mut self, effect: Effect) -> (r: Result<Vec<u32>, Effect>)
        ensures
            course(r, final(self).rest()) == asks_numbers(effect@, old(self).rest()),
            final(self).all() == old(self).all(),
    {
        let i = match self.take(effect) {
            Err(e) => return Err(e),
            Ok(i) => i,
        };
        let value = match &self.replies[i] {
            Reply::Numbers(ids) => copy_numbers(ids),
            _ => Vec::new(),
        };
        Ok(value)
    }

    /// Has an effect performed, and reads whether something is so.
    pub fn ask_flag(&mut self, effect: Effect) -> (r: Result<bool, Effect>)
        ensures
            course(r, final(self).rest()) == asks_flag(effect@, old(self).rest()),
            final(self).all() == old(self).all(),
    {
        let i = match self.take(effect) {
            Err(e) => return Err(e),
            Ok(i) => i,
        };
        let value = match &self.replies[i] {
            Reply::Flag(flag) => *flag,
            _ => false,
        };
        Ok(value)
    }

    /// Has an effect performed, and reads a text.
    pub fn ask_text(&mut self, effect: Effect) -> (r: Result<Result<String, String>, Effect>)
        ensures
            course(r, final(self).rest()) == asks_text(effect@, old(self).rest()),
            final(self).all() == old(self).all(),
    {
        let i = match self.take(effect) {
            Err(e) => return Err(e),
            Ok(i) => i,
        };
        let value = match &self.replies[i] {
            Reply::Text(r) => match r {
                Ok(s) => Ok(s.clone()),
                Err(e) => Err(e.text.clone()),
            },
            _ => Err(owned("unexpected reply")),
        };
        Ok(value)
    }

    /// Has an effect performed, and reads what a file holds, if there is one.
    pub fn ask_file(
        &mut self,
        effect: Effect,
    ) -> (r: Result<Result<Option<String>, String>, Effect>)
        ensures
            course(r, final(self).rest()) == asks_file(effect@, old(self).rest()),
            final(self).all() == old(self).all(),
    {
        let i = match self.take(effect) {
            Err(e) => return Err(e),
            Ok(i) => i,
        };
        let value = match &self.replies[i] {
            Reply::Text(r) => match r {
                Ok(s) => Ok(Some(s.clone())),
                Err(e) => if e.missing {
                    Ok(None)
                } else {
                    Err(e.text.clone())
                },
            },
            _ => Err(owned("unexpected reply")),
        };
        Ok(value)
    }

    /// Has an effect performed, and reads the value of a variable.
    pub fn ask_variable(&mut self, effect: Effect) -> (r: Result<Option<String>, Effect>)
        ensures
            course(r, final(self).rest()) == asks_variable(effect@, old(self).rest()),
            final(self).all() == old(self).all(),
    {
        let i = match self.take(effect) {
            Err(e) => return Err(e),
            Ok(i) => i,
        };
        let value = match &self.replies[i] {
            Reply::Variable(value) => copy_opt(value),
            _ => None,
        };
        Ok(value)
    }

    /// Has an effect performed, and reads the time of day.
    pub fn ask_stamp(&mut self, effect: Effect) -> (r: Result<Result<u64, String>, Effect>)
        ensures
            course(r, final(self).rest()) == asks_stamp(effect@, old(self).rest()),
            final(self).all() == old(self).all(),
    {
        let i = match self.take(effect) {
            Err(e) => return Err(e),
            Ok(i) => i,
        };
        let value = match &self.replies[i] {
            Reply::Stamp(r) => match r {
                Ok(seconds) => Ok(*seconds),
                Err(e) => Err(e.text.clone()),
            },
            _ => Err(owned("unexpected reply")),
        };
        Ok(value)
    }

    /// Has an effect performed, and reads the time of a clock.
    pub fn ask_nanos(&mut self, effect: Effect) -> (r: Result<u64, Effect>)
        ensures
            course(r, final(self).rest()) == asks_nanos(effect@, old(self).rest()),
            final(self).all() == old(self).all(),
    {
        let i = match self.take(effect) {
            Err(e) => return Err(e),
            Ok(i) => i,
        };
        let value = match &self.replies[i] {
            Reply::Nanos(time) => *time,
            _ => u64::MAX,
        };
        Ok(value)
    }

    /// Has an effect performed, and reads the width of the terminal.
    pub fn ask_columns(&mut self, effect: Effect) -> (r: Result<Option<u16>, Effect>)
        ensures
            course(r, final(self).rest()) == asks_columns(effect@, old(self).rest()),
            final(self).all() == old(self).all(),
    {
        let i = match self.take(effect) {
            Err(e) => return Err(e),
            Ok(i) => i,
        };
        let value = match &self.replies[i] {
            Reply::Columns(columns) => *columns,
            _ => None,
        };
        Ok(value)
    }

    /// Has an effect performed, and reads what the terminal reports.
    pub fn ask_input(
        &mut self,
        effect: Effect,
    ) -> (r: Result<Result<Option<Input>, String>, Effect>)
        ensures
            course(r, final(self).rest()) == asks_input(effect@, old(self).rest()),
            final(self).all() == old(self).all(),
    {
        let i = match self.take(effect) {
            Err(e) => return Err(e),
            Ok(i) => i,
        };
        let value = match &self.replies[i] {
            Reply::Input(r) => match r {
                Ok(input) => Ok(*input),
                Err(e) => Err(e.text.clone()),
            },
            _ => Err(owned("unexpected reply")),
        };
        Ok(value)
    }

    /// Has an effect performed, and reads a display event.
    pub fn ask_watch(&mut self, effect: Effect) -> (r: Result<Option<WatchEvent>, Effect>)
        ensures
            course(r, final(self).rest()) == asks_watch(effect@, old(self).rest()),
            final(self).all() == old(self).all(),
    {
        let i = match self.take(effect) {
            Err(e) => return Err(e),
            Ok(i) => i,
        };
        let value = match &self.replies[i] {
            Reply::Watch(event) => *event,
            _ => None,
        };
        Ok(value)
    }

    /// Has an effect performed, and reads a display event that was waited for.
    pub fn ask_awaited(&mut self, effect: Effect) -> (r: Result<Result<WatchEvent, String>, Effect>)
        ensures
            course(r, final(self).rest()) == asks_awaited(effect@, old(self).rest()),
            final(self).all() == old(self).all(),
    {
        let i = match self.take(effect) {
            Err(e) => return Err(e),
            Ok(i) => i,
        };
        let value = match &self.replies[i] {
            Reply::Awaited(r) => match r {
                Ok(event) => Ok(*event),
                Err(e) => Err(e.text.clone()),
            },
            _ => Err(owned("unexpected reply")),
        };
        Ok(value)
    }

    /// Has an effect performed, and reads a power event.
    pub fn ask_power(&mut self, effect: Effect) -> (r: Result<Option<PowerEvent>, Effect>)
        ensures
            course(r, final(self).rest()) == asks_power(effect@, old(self).rest()),
            final(self).all() == old(self).all(),
    {
        let i = match self.take(effect) {
            Err(e) => return Err(e),
            Ok(i) => i,
        };
        let value = match &self.replies[i] {
            Reply::Power(event) => *event,
            _ => None,
        };
        Ok(value)
    }
}

// ---------------------------------------------------------------------------
// Words.
// ---------------------------------------------------------------------------
/// An effect whose reply does not matter.
pub open spec fn asks_any(effect: EffectView, t: Seq<ReplyView>) -> Course<()> {
    if t.len() == 0 {
        Course::Asks(effect)
    } else {
        Course::Ends((), t.skip(1))
    }
}

impl Tape {
    /// Has an effect performed, whatever comes of it.
    pub fn ask_any(&mut self, effect: Effect) -> (r: Result<(), Effect>)
        ensures
            course(r, final(self).rest()) == asks_any(effect@, old(self).rest()),
            final(self).all() == old(self).all(),
    {
        match self.take(effect) {
            Err(e) => Err(e),
            Ok(_) => Ok(()),
        }
    }
}

/// A line is printed.
pub open spec fn said(line: Seq<char>, t: Seq<ReplyView>) -> Course<()> {
    asks_any(EffectView::Print(line + "\n"@), t)
}

/// Prints a line.
pub fn say(tape: &mut Tape, line: &str) -> (r: Result<(), Effect>)
    ensures
        course(r, final(tape).rest()) == said(line@, old(tape).rest()),
        final(tape).all() == old(tape).all(),
{
    tape.ask_any(Effect::Print(cat2(line, "\n")))
}

/// A line is printed where `verbose` is set.
pub open spec fn said_if(verbose: bool, line: Seq<char>, t: Seq<ReplyView>) -> Course<()> {
    if verbose {
        said(line, t)
    } else {
        Course::Ends((), t)
    }
}

/// Prints a line where `verbose` is set.
pub fn say_if(tape: &mut Tape, verbose: bool, line: &str) -> (r: Result<(), Effect>)
    ensures
        course(r, final(tape).rest()) == said_if(verbose, line@, old(tape).rest()),
        final(tape).all() == old(tape).all(),
{
    if verbose {
        say(tape, line)
    } else {
        Ok(())
    }
}

/// A line goes to the standard error.
pub open spec fn warned(line: Seq<char>, t: Seq<ReplyView>) -> Course<()> {
    asks_any(EffectView::Complain(line + "\n"@), t)
}

/// Writes a line to the standard error.
pub fn warn(tape: &mut Tape, line: &str) -> (r: Result<(), Effect>)
    ensures
        course(r, final(tape).rest()) == warned(line@, old(tape).rest()),
        final(tape).all() == old(tape).all(),
{
    tape.ask_any(Effect::Complain(cat2(line, "\n")))
}

/// A line goes to the standard error where `verbose` is set.
pub open spec fn warned_if(verbose: bool, line: Seq<char>, t: Seq<ReplyView>) -> Course<()> {
    if verbose {
        warned(line, t)
    } else {
        Course::Ends((), t)
    }
}

/// Writes a line to the standard error where `verbose` is set.
pub fn warn_if(tape: &mut Tape, verbose: bool, line: &str) -> (r: Result<(), Effect>)
    ensures
        course(r, final(tape).rest()) == warned_if(verbose, line@, old(tape).rest()),
        final(tape).all() == old(tape).all(),
{
    if verbose {
        warn(tape, line)
    } else {
        Ok(())
    }
}

} // verus!
