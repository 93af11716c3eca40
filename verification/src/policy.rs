//! What to do about a given state of the displays.

use vstd::prelude::*;

use crate::display;
use crate::display::{has_any_on, has_external_on, has_internal_on, CGDirectDisplayID, DisplayView};
use crate::number;
use crate::number::decimal;
use crate::placer::ParsedDisplayplacer;
use crate::text;
use crate::text::{cat3, contains, owned};

verus! {

/// Whether displays are really changed, or the changes only announced.
#[derive(Debug, Clone, Copy, PartialEq, Eq, Structural)]
pub enum ActionMode {
    DryRun,
    Execute,
}

/// The flags that come with a display change.
pub type CGDisplayChangeSummaryFlags = u32;

/// The display was removed.
pub const K_CG_DISPLAY_REMOVE_FLAG: CGDisplayChangeSummaryFlags = 0x20;

/// The display was disabled.
pub const K_CG_DISPLAY_DISABLED_FLAG: CGDisplayChangeSummaryFlags = 0x200;

/// A change that the window server reports.
#[derive(Debug, Clone, Copy, PartialEq, Eq, Structural)]
pub struct DisplayChange {
    pub display: CGDirectDisplayID,
    pub flags: CGDisplayChangeSummaryFlags,
}

impl DisplayChange {
    /// The change takes a display away: it was removed or disabled.
    pub open spec fn loss(self) -> bool {
        self.flags & K_CG_DISPLAY_REMOVE_FLAG != 0 || self.flags & K_CG_DISPLAY_DISABLED_FLAG != 0
    }

    /// The change takes a display away.
    pub fn is_display_loss(self) -> (r: bool)
        ensures
            r == self.loss(),
    {
        let flags: u32 = self.flags;
        assert((flags & (0x20u32 | 0x200u32) != 0) <==> (flags & 0x20 != 0 || flags & 0x200 != 0))
            by (bit_vector);
        flags & (K_CG_DISPLAY_REMOVE_FLAG | K_CG_DISPLAY_DISABLED_FLAG) != 0
    }
}

/// What wakes a watcher.
#[derive(Debug, Clone, Copy, PartialEq, Eq, Structural)]
pub enum WatchEvent {
    DisplayChanged(DisplayChange),
    Reconcile,
}

/// A stage of waking from sleep.
#[derive(Debug, Clone, Copy, PartialEq, Eq, Structural)]
pub enum PowerEvent {
    SystemWillPowerOn,
    SystemHasPoweredOn,
}

impl PowerEvent {
    /// The name of the stage.
    pub open spec fn name(self) -> Seq<char> {
        match self {
            PowerEvent::SystemWillPowerOn => "system-will-power-on"@,
            PowerEvent::SystemHasPoweredOn => "system-has-powered-on"@,
        }
    }

    /// The name under which the guard runs for the stage.
    pub fn reason(self) -> (r: &'static str)
        ensures
            r@ == self.name(),
    {
        match self {
            PowerEvent::SystemWillPowerOn => "system-will-power-on",
            PowerEvent::SystemHasPoweredOn => "system-has-powered-on",
        }
    }
}

/// The position of the lid.
#[derive(Debug, Clone, Copy, PartialEq, Eq, Structural)]
pub enum ClamshellState {
    Open,
    Closed,
    Unknown,
}

impl ClamshellState {
    /// The name of the position.
    pub open spec fn name(self) -> Seq<char> {
        match self {
            ClamshellState::Open => "Open"@,
            ClamshellState::Closed => "Closed"@,
            ClamshellState::Unknown => "Unknown"@,
        }
    }

    /// The name of the position.
    pub fn as_text(self) -> (r: &'static str)
        ensures
            r@ == self.name(),
    {
        match self {
            ClamshellState::Open => "Open",
            ClamshellState::Closed => "Closed",
            ClamshellState::Unknown => "Unknown",
        }
    }
}

/// The position that the output of `ioreg` shows.
pub open spec fn lid_in(body: Seq<char>) -> ClamshellState {
    if text::has_text(body, "\"AppleClamshellState\" = Yes"@) {
        ClamshellState::Closed
    } else if text::has_text(body, "\"AppleClamshellState\" = No"@) {
        ClamshellState::Open
    } else {
        ClamshellState::Unknown
    }
}

/// Reads the position of the lid from the output of `ioreg`.
pub fn clamshell_state(body: &str) -> (r: ClamshellState)
    ensures
        r == lid_in(body@),
{
    if contains(body, "\"AppleClamshellState\" = Yes") {
        ClamshellState::Closed
    } else if contains(body, "\"AppleClamshellState\" = No") {
        ClamshellState::Open
    } else {
        ClamshellState::Unknown
    }
}

/// What the guard does.
#[derive(Debug, Clone, Copy, PartialEq, Eq, Structural)]
pub enum GuardAction {
    Idle,
    RestoreInternal,
}

impl GuardAction {
    /// The name of the action.
    pub open spec fn name(self) -> Seq<char> {
        match self {
            GuardAction::Idle => "None"@,
            GuardAction::RestoreInternal => "RestoreInternal"@,
        }
    }

    /// The name of the action.
    pub fn as_text(self) -> (r: &'static str)
        ensures
            r@ == self.name(),
    {
        match self {
            GuardAction::Idle => "None",
            GuardAction::RestoreInternal => "RestoreInternal",
        }
    }
}

/// The guard restores the built-in display where the lid is not closed and no
/// display is known to be on. Where the state of the displays is unknown it
/// restores too, so that a machine is never left dark.
pub open spec fn guard_decision(
    lid: ClamshellState,
    displays: Option<Seq<DisplayView>>,
) -> GuardAction {
    if lid != ClamshellState::Closed && match displays {
        Some(displays) => !display::any_on(displays),
        None => true,
    } {
        GuardAction::RestoreInternal
    } else {
        GuardAction::Idle
    }
}

/// What the guard does in a state, `None` where the state is unknown.
pub fn internal_guard_action_for_state(
    clamshell: ClamshellState,
    parsed: Option<&ParsedDisplayplacer>,
) -> (r: GuardAction)
    ensures
        r == guard_decision(
            clamshell,
            match parsed {
                Some(parsed) => Some(parsed@.displays),
                None => None,
            },
        ),
{
    if clamshell == ClamshellState::Closed {
        return GuardAction::Idle;
    }
    match parsed {
        None => GuardAction::RestoreInternal,
        Some(parsed) => {
            let ghost displays = parsed@.displays;
            if has_internal_on(&parsed.displays) {
                proof {
                    let i = choose|i: int|
                        0 <= i < displays.len() && (#[trigger] displays[i]).internal()
                            && displays[i].on();
                    assert(displays[i].on());
                }
                GuardAction::Idle
            } else if has_external_on(&parsed.displays) {
                proof {
                    let i = choose|i: int|
                        0 <= i < displays.len() && !(#[trigger] displays[i]).internal()
                            && displays[i].on();
                    assert(displays[i].on());
                }
                GuardAction::Idle
            } else {
                proof {
                    if display::any_on(displays) {
                        let i = choose|i: int|
                            0 <= i < displays.len() && (#[trigger] displays[i]).on();
                        if displays[i].internal() {
                            assert(display::internal_on(displays));
                        } else {
                            assert(display::external_on(displays));
                        }
                    }
                }
                GuardAction::RestoreInternal
            }
        },
    }
}

/// What a watcher does, or has done.
#[derive(Debug, Clone, Copy, PartialEq, Eq, Structural)]
pub enum AutoWatchAction {
    Idle,
    DisabledInternal,
    RestoredInternal,
}

/// While a target is there the built-in display is kept off; while none is
/// there, it is kept on.
pub open spec fn watch_decision(
    displays: Seq<DisplayView>,
    target_present: bool,
) -> AutoWatchAction {
    if target_present && display::internal_on(displays) {
        AutoWatchAction::DisabledInternal
    } else if !target_present && !display::internal_on(displays) {
        AutoWatchAction::RestoredInternal
    } else {
        AutoWatchAction::Idle
    }
}

/// What a watcher does in a state.
pub fn auto_watch_action_for_state(parsed: &ParsedDisplayplacer, target_present: bool) -> (r:
    AutoWatchAction)
    ensures
        r == watch_decision(parsed@.displays, target_present),
{
    let internal_enabled = has_internal_on(&parsed.displays);
    if target_present {
        if internal_enabled {
            AutoWatchAction::DisabledInternal
        } else {
            AutoWatchAction::Idle
        }
    } else if internal_enabled {
        AutoWatchAction::Idle
    } else {
        AutoWatchAction::RestoredInternal
    }
}

/// Where no display is on, the built-in one is restored.
pub open spec fn dark_decision(displays: Seq<DisplayView>) -> AutoWatchAction {
    if display::any_on(displays) {
        AutoWatchAction::Idle
    } else {
        AutoWatchAction::RestoredInternal
    }
}

/// What to do where it may be that no display is on.
pub fn no_enabled_display_safety_action_for_state(parsed: &ParsedDisplayplacer) -> (r:
    AutoWatchAction)
    ensures
        r == dark_decision(parsed@.displays),
{
    if has_any_on(&parsed.displays) {
        AutoWatchAction::Idle
    } else {
        AutoWatchAction::RestoredInternal
    }
}

/// The loss of a display restores the built-in one, unless it is the built-in
/// one that was lost.
pub open spec fn loss_decision(
    change: DisplayChange,
    internal: Option<CGDirectDisplayID>,
    builtin: bool,
) -> AutoWatchAction {
    if change.loss() && !builtin && internal != Some(change.display) {
        AutoWatchAction::RestoredInternal
    } else {
        AutoWatchAction::Idle
    }
}

/// What to do about a change. `change_is_builtin` is what the window server says
/// of the display now; the remembered number of the built-in display may be
/// out of date.
pub fn display_loss_restore_action_for_change(
    change: DisplayChange,
    internal_display_id: Option<CGDirectDisplayID>,
    change_is_builtin: bool,
) -> (r: AutoWatchAction)
    ensures
        r == loss_decision(change, internal_display_id, change_is_builtin),
{
    if !change.is_display_loss() {
        return AutoWatchAction::Idle;
    }
    let remembered = match internal_display_id {
        Some(id) => id == change.display,
        None => false,
    };
    if change_is_builtin || remembered {
        return AutoWatchAction::Idle;
    }
    AutoWatchAction::RestoredInternal
}

/// The number that the built-in display has where nothing else names it.
pub const FALLBACK_BUILTIN_DISPLAY_ID: CGDirectDisplayID = 1;

/// The number, behind those that are there, unless it is one of them.
pub open spec fn with_candidate(
    candidates: Seq<CGDirectDisplayID>,
    candidate: Option<CGDirectDisplayID>,
) -> Seq<CGDirectDisplayID> {
    match candidate {
        Some(id) => if candidates.contains(id) {
            candidates
        } else {
            candidates.push(id)
        },
        None => candidates,
    }
}

/// The numbers to try, the most trusted first: one that was asked for, alone;
/// else the live one, the remembered one and the usual one, each once.
pub open spec fn candidates(
    explicit: Option<CGDirectDisplayID>,
    live: Option<CGDirectDisplayID>,
    remembered: Option<CGDirectDisplayID>,
) -> Seq<CGDirectDisplayID> {
    match explicit {
        Some(id) => seq![id],
        None => with_candidate(
            with_candidate(with_candidate(Seq::empty(), live), remembered),
            Some(FALLBACK_BUILTIN_DISPLAY_ID),
        ),
    }
}

fn push_candidate(candidates: &mut Vec<CGDirectDisplayID>, candidate: Option<CGDirectDisplayID>)
    ensures
        final(candidates)@ == with_candidate(old(candidates)@, candidate),
{
    if let Some(id) = candidate {
        let mut known = false;
        let mut i: usize = 0;
        while i < candidates.len()
            invariant
                i <= candidates.len(),
                candidates@ == old(candidates)@,
                known == candidates@.take(i as int).contains(id),
            decreases candidates.len() - i,
        {
            proof {
                let next = candidates@.take(i + 1);
                assert(next.drop_last() =~= candidates@.take(i as int));
                assert(next.last() == candidates@[i as int]);
                assert forall|x: u32| next.contains(x) <==> (candidates@.take(i as int).contains(x)
                    || x == candidates@[i as int]) by {
                    if candidates@.take(i as int).contains(x) {
                        let k = choose|k: int|
                            0 <= k < i && candidates@.take(i as int)[k] == x;
                        assert(next[k] == x);
                    }
                    if x == candidates@[i as int] {
                        assert(next[i as int] == x);
                    }
                    if next.contains(x) {
                        let k = choose|k: int| 0 <= k < next.len() && next[k] == x;
                        if k < i {
                            assert(candidates@.take(i as int)[k] == x);
                        }
                    }
                }
            }
            if candidates[i] == id {
                known = true;
            }
            i = i + 1;
        }
        assert(candidates@.take(i as int) =~= candidates@);
        if !known {
            candidates.push(id);
        }
    }
}

/// The numbers to try when the built-in display is brought back.
pub fn internal_restore_candidates(
    explicit: Option<CGDirectDisplayID>,
    live_builtin: Option<CGDirectDisplayID>,
    remembered: Option<CGDirectDisplayID>,
) -> (r: Vec<CGDirectDisplayID>)
    ensures
        r@ == candidates(explicit, live_builtin, remembered),
{
    let mut found: Vec<CGDirectDisplayID> = Vec::new();
    if let Some(id) = explicit {
        found.push(id);
        assert(found@ =~= seq![id]);
        return found;
    }
    push_candidate(&mut found, live_builtin);
    push_candidate(&mut found, remembered);
    push_candidate(&mut found, Some(FALLBACK_BUILTIN_DISPLAY_ID));
    found
}

/// There is always a number to try, and none is tried twice. Without a number
/// that was asked for, the live one comes first, and the usual one is tried.
pub proof fn candidates_are_tried_once(
    explicit: Option<CGDirectDisplayID>,
    live: Option<CGDirectDisplayID>,
    remembered: Option<CGDirectDisplayID>,
)
    ensures
        candidates(explicit, live, remembered).len() > 0,
        candidates(explicit, live, remembered).no_duplicates(),
        explicit is None ==> candidates(explicit, live, remembered).contains(
            FALLBACK_BUILTIN_DISPLAY_ID,
        ),
        explicit is None && live is Some ==> candidates(explicit, live, remembered)[0] == live->0,
        explicit is None && live is None && remembered is Some ==> candidates(
            explicit,
            live,
            remembered,
        )[0] == remembered->0,
        explicit is None && remembered is Some ==> candidates(
            explicit,
            live,
            remembered,
        ).contains(remembered->0),
{
    let a = with_candidate(Seq::empty(), live);
    let b = with_candidate(a, remembered);
    let c = with_candidate(b, Some(FALLBACK_BUILTIN_DISPLAY_ID));
    if live is Some {
        assert(a =~= seq![live->0]);
    } else {
        assert(a =~= Seq::empty());
    }
    if remembered is Some {
        if a.contains(remembered->0) {
            assert(b.contains(remembered->0));
        } else {
            assert(b[a.len() as int] == remembered->0);
        }
        assert(b.contains(remembered->0));
        let k = choose|k: int| 0 <= k < b.len() && b[k] == remembered->0;
        assert(c[k] == remembered->0);
    }
    if !b.contains(FALLBACK_BUILTIN_DISPLAY_ID) {
        assert(c[b.len() as int] == FALLBACK_BUILTIN_DISPLAY_ID);
    }
}

/// A number that may be missing, as a log shows it.
pub open spec fn maybe_number_text(n: Option<u32>) -> Seq<char> {
    match n {
        Some(n) => "Some("@ + number::dec(n as nat) + ")"@,
        None => "None"@,
    }
}

/// Writes a number that may be missing.
pub fn maybe_number(n: Option<u32>) -> (r: String)
    ensures
        r@ == maybe_number_text(n),
{
    match n {
        Some(n) => {
            let digits = decimal(n as u64);
            cat3("Some(", digits.as_str(), ")")
        },
        None => owned("None"),
    }
}

/// The numbers in their decimal form.
pub open spec fn decimals(ids: Seq<u32>) -> Seq<Seq<char>> {
    Seq::new(ids.len(), |i: int| number::dec(ids[i] as nat))
}

/// A list of numbers, as a log shows it.
pub open spec fn number_list_text(ids: Seq<u32>) -> Seq<char> {
    "["@ + text::joined(decimals(ids), ", "@) + "]"@
}

/// Writes a list of numbers.
pub fn number_list(ids: &Vec<u32>) -> (r: String)
    ensures
        r@ == number_list_text(ids@),
{
    let mut parts: Vec<String> = Vec::new();
    let mut i: usize = 0;
    while i < ids.len()
        invariant
            i <= ids.len(),
            text::texts(parts@) == decimals(ids@.take(i as int)),
        decreases ids.len() - i,
    {
        let digits = decimal(ids[i] as u64);
        proof {
            text::lemma_texts_push(parts@, digits);
            assert(decimals(ids@.take(i + 1)) =~= decimals(ids@.take(i as int)).push(digits@));
        }
        parts.push(digits);
        i = i + 1;
    }
    assert(ids@.take(i as int) =~= ids@);
    let inner = text::join(&parts, ", ");
    cat3("[", inner.as_str(), "]")
}

/// The system asks whether it may sleep.
pub const K_IO_MESSAGE_CAN_SYSTEM_SLEEP: u32 = 0xe0000270;

/// The system goes to sleep.
pub const K_IO_MESSAGE_SYSTEM_WILL_SLEEP: u32 = 0xe0000280;

/// The system starts to wake.
pub const K_IO_MESSAGE_SYSTEM_WILL_POWER_ON: u32 = 0xe0000320;

/// The system is awake.
pub const K_IO_MESSAGE_SYSTEM_HAS_POWERED_ON: u32 = 0xe0000300;

/// How a power message is answered.
#[derive(Debug, Clone, Copy, PartialEq, Eq, Structural)]
pub enum PowerAnswer {
    /// The power change is allowed.
    Allow,
    /// The built-in display is restored, and then the power change is allowed.
    RestoreAndAllow,
    /// The event is handed to the watcher.
    Tell(PowerEvent),
    /// Nothing is done.
    Ignore,
}

/// The answer to a power message: sleep is always allowed, and the panel is restored
/// before it.
pub open spec fn power_reply(message_type: u32) -> PowerAnswer {
    if message_type == K_IO_MESSAGE_CAN_SYSTEM_SLEEP {
        PowerAnswer::Allow
    } else if message_type == K_IO_MESSAGE_SYSTEM_WILL_SLEEP {
        PowerAnswer::RestoreAndAllow
    } else if message_type == K_IO_MESSAGE_SYSTEM_WILL_POWER_ON {
        PowerAnswer::Tell(PowerEvent::SystemWillPowerOn)
    } else if message_type == K_IO_MESSAGE_SYSTEM_HAS_POWERED_ON {
        PowerAnswer::Tell(PowerEvent::SystemHasPoweredOn)
    } else {
        PowerAnswer::Ignore
    }
}

/// How a power message is answered.
pub fn power_answer(message_type: u32) -> (r: PowerAnswer)
    ensures
        r == power_reply(message_type),
{
    if message_type == K_IO_MESSAGE_CAN_SYSTEM_SLEEP {
        PowerAnswer::Allow
    } else if message_type == K_IO_MESSAGE_SYSTEM_WILL_SLEEP {
        PowerAnswer::RestoreAndAllow
    } else if message_type == K_IO_MESSAGE_SYSTEM_WILL_POWER_ON {
        PowerAnswer::Tell(PowerEvent::SystemWillPowerOn)
    } else if message_type == K_IO_MESSAGE_SYSTEM_HAS_POWERED_ON {
        PowerAnswer::Tell(PowerEvent::SystemHasPoweredOn)
    } else {
        PowerAnswer::Ignore
    }
}

/// Where a display is known to be on, or the lid is closed, the guard does
/// nothing.
pub proof fn guard_leaves_a_lit_machine_alone(lid: ClamshellState, displays: Seq<DisplayView>)
    requires
        lid == ClamshellState::Closed || display::internal_on(displays) || display::external_on(
            displays,
        ),
    ensures
        guard_decision(lid, Some(displays)) == GuardAction::Idle,
{
    if display::internal_on(displays) {
        let i = choose|i: int|
            0 <= i < displays.len() && (#[trigger] displays[i]).internal() && displays[i].on();
        assert(displays[i].on());
    } else if display::external_on(displays) {
        let i = choose|i: int|
            0 <= i < displays.len() && !(#[trigger] displays[i]).internal() && displays[i].on();
        assert(displays[i].on());
    }
}

/// Turning the built-in display off does not make a watcher turn it on again:
/// what it decides next, while the target is there, is nothing.
pub proof fn watching_settles(
    before: Seq<DisplayView>,
    after: Seq<DisplayView>,
    target_present: bool,
)
    requires
        watch_decision(before, target_present) == AutoWatchAction::DisabledInternal,
        !display::internal_on(after),
    ensures
        watch_decision(after, target_present) == AutoWatchAction::Idle,
{
}

/// The built-in display's own loss is never answered with a restore.
pub proof fn own_loss_is_no_trigger(
    change: DisplayChange,
    internal: Option<CGDirectDisplayID>,
    builtin: bool,
)
    requires
        builtin || internal == Some(change.display),
    ensures
        loss_decision(change, internal, builtin) == AutoWatchAction::Idle,
{
}

} // verus!
