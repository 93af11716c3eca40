//! What the decisions are for, told by what the displays report.

use vstd::prelude::*;

use crate::display;
use crate::display::DisplayView;
use crate::policy;
use crate::policy::{AutoWatchAction, ClamshellState, DisplayChange, GuardAction};
use crate::switching;
use crate::switching::DisablePlanView;
use crate::text;

verus! {

// ---------------------------------------------------------------------------
// Displays.
// ---------------------------------------------------------------------------
/// The letter, small or capital.
pub open spec fn is_letter(c: char, small: char, capital: char) -> bool {
    c == small || c == capital
}

/// The words "built in" stand in a text at a position, in small letters or
/// capitals.
pub open spec fn built_in_at(s: Seq<char>, k: int) -> bool {
    &&& 0 <= k
    &&& k + 8 <= s.len()
    &&& is_letter(s[k], 'b', 'B')
    &&& is_letter(s[k + 1], 'u', 'U')
    &&& is_letter(s[k + 2], 'i', 'I')
    &&& is_letter(s[k + 3], 'l', 'L')
    &&& is_letter(s[k + 4], 't', 'T')
    &&& s[k + 5] == ' '
    &&& is_letter(s[k + 6], 'i', 'I')
    &&& is_letter(s[k + 7], 'n', 'N')
}

/// A display is the built-in panel just where its type holds the words "built
/// in", in whatever letters.
pub proof fn panel_is_told_by_its_type(d: DisplayView)
    ensures
        d.internal() <==> (d.display_type is Some && exists|k: int|
            #[trigger] built_in_at(d.display_type->0, k)),
{
    reveal_strlit("built in");
    reveal_strlit("");
    let s = text::text_or(d.display_type, ""@);
    let low = text::lowered(s);
    let words = "built in"@;
    assert forall|k: int| #[trigger] built_in_at(s, k) implies text::occurs_at(low, words, k) by {
        assert(low.subrange(k, k + 8) =~= words);
    }
    assert forall|k: int| #[trigger] text::occurs_at(low, words, k) implies built_in_at(s, k) by {
        let part = low.subrange(k, k + 8);
        assert(part[0] == 'b' && part[1] == 'u' && part[2] == 'i' && part[3] == 'l' && part[4]
            == 't' && part[5] == ' ' && part[6] == 'i' && part[7] == 'n');
        assert(part[0] == low[k] && part[1] == low[k + 1] && part[2] == low[k + 2] && part[3]
            == low[k + 3] && part[4] == low[k + 4] && part[5] == low[k + 5] && part[6] == low[k + 6]
            && part[7] == low[k + 7]);
    }
    if d.internal() {
        let k = choose|k: int| text::occurs_at(low, words, k);
        assert(built_in_at(s, k));
    }
    if d.display_type is Some && exists|k: int| #[trigger] built_in_at(d.display_type->0, k) {
        let k = choose|k: int| #[trigger] built_in_at(d.display_type->0, k);
        assert(text::occurs_at(low, words, k));
    }
}

/// No display is reported as on. An empty list is such a list.
pub open spec fn dark(displays: Seq<DisplayView>) -> bool {
    forall|i: int| 0 <= i < displays.len() ==> (#[trigger] displays[i]).enabled != Some(true)
}

/// No built-in panel is reported as on, whatever else is.
pub open spec fn panel_dark(displays: Seq<DisplayView>) -> bool {
    forall|i: int|
        0 <= i < displays.len() ==> !((#[trigger] displays[i]).internal() && displays[i].enabled
            == Some(true))
}

/// Two displays are reported as on.
pub open spec fn two_on(displays: Seq<DisplayView>, a: int, b: int) -> bool {
    &&& 0 <= a < b < displays.len()
    &&& displays[a].enabled == Some(true)
    &&& displays[b].enabled == Some(true)
}

// ---------------------------------------------------------------------------
// The guard.
// ---------------------------------------------------------------------------
/// The guard restores the panel just where the lid is not closed and the list is
/// unavailable or shows no display on. A list that shows nothing at all counts as
/// one that shows no display on.
pub proof fn guard_restores_a_dark_machine(
    lid: ClamshellState,
    displays: Option<Seq<DisplayView>>,
)
    ensures
        policy::guard_decision(lid, displays) == GuardAction::RestoreInternal <==> (lid
            != ClamshellState::Closed && (displays matches Some(list) ==> dark(list))),
{
    if let Some(list) = displays {
        if dark(list) {
            assert forall|i: int| 0 <= i < list.len() implies !(#[trigger] list[i]).on() by {
                assert(list[i].enabled != Some(true));
            }
        } else {
            let i = choose|i: int| 0 <= i < list.len() && (
                #[trigger] list[i]
            ).enabled == Some(true);
            assert(list[i].on());
        }
    }
}

/// The lid counts as closed where the report says so, as open where it says that
/// instead, and as unknown where it says neither.
pub proof fn lid_is_told_by_the_report(body: Seq<char>)
    ensures
        policy::lid_in(body) == ClamshellState::Closed <==> (exists|a: Seq<char>, b: Seq<char>|
            body == #[trigger] (a + "\"AppleClamshellState\" = Yes"@ + b)),
        policy::lid_in(body) == ClamshellState::Unknown ==> forall|a: Seq<char>, b: Seq<char>|
            body != #[trigger] (a + "\"AppleClamshellState\" = No"@ + b),
        policy::lid_in(body) == ClamshellState::Open ==> exists|a: Seq<char>, b: Seq<char>|
            body == #[trigger] (a + "\"AppleClamshellState\" = No"@ + b),
{
    lemma_has_text(body, "\"AppleClamshellState\" = Yes"@);
    lemma_has_text(body, "\"AppleClamshellState\" = No"@);
}

/// A text stands in another just where the other is something before it, the text,
/// and something behind it.
pub proof fn lemma_has_text(s: Seq<char>, needle: Seq<char>)
    ensures
        text::has_text(s, needle) <==> exists|a: Seq<char>, b: Seq<char>|
            s == #[trigger] (a + needle + b),
{
    if text::has_text(s, needle) {
        let at = choose|at: int| text::occurs_at(s, needle, at);
        let a = s.take(at);
        let b = s.skip(at + needle.len());
        assert(s =~= a + s.subrange(at, at + needle.len()) + b);
        assert(s == a + needle + b);
    }
    if exists|a: Seq<char>, b: Seq<char>| s == #[trigger] (a + needle + b) {
        let (a, b) = choose|a: Seq<char>, b: Seq<char>| s == #[trigger] (a + needle + b);
        assert(s.subrange(a.len() as int, (a.len() + needle.len()) as int) =~= needle);
        assert(text::occurs_at(s, needle, a.len() as int));
    }
}

// ---------------------------------------------------------------------------
// The watcher.
// ---------------------------------------------------------------------------
/// Where no target is there, the watcher restores the panel just where no panel is
/// on, whatever the other displays are. Where a target is there, it turns the
/// panel off just where one is on.
pub proof fn watcher_keeps_the_panel_against_the_target(
    displays: Seq<DisplayView>,
    target_present: bool,
)
    ensures
        policy::watch_decision(displays, target_present) == AutoWatchAction::RestoredInternal <==> (
        !target_present && panel_dark(displays)),
        policy::watch_decision(displays, target_present) == AutoWatchAction::DisabledInternal <==> (
        target_present && !panel_dark(displays)),
{
    if panel_dark(displays) {
        assert forall|i: int| 0 <= i < displays.len() implies !((
        #[trigger] displays[i].internal()) && displays[i].on()) by {
            assert(!(displays[i].internal() && displays[i].enabled == Some(true)));
        }
    } else {
        let i = choose|i: int|
            0 <= i < displays.len() && (#[trigger] displays[i]).internal() && displays[i].enabled
                == Some(true);
        assert(displays[i].internal() && displays[i].on());
    }
}

/// The safety net restores the panel just where no display is on.
pub proof fn darkness_is_answered(displays: Seq<DisplayView>)
    ensures
        policy::dark_decision(displays) == AutoWatchAction::RestoredInternal <==> dark(displays),
        policy::dark_decision(displays) != AutoWatchAction::DisabledInternal,
{
    if dark(displays) {
        assert forall|i: int| 0 <= i < displays.len() implies !(#[trigger] displays[i]).on() by {
            assert(displays[i].enabled != Some(true));
        }
    } else {
        let i = choose|i: int|
            0 <= i < displays.len() && (#[trigger] displays[i]).enabled == Some(true);
        assert(displays[i].on());
    }
}

/// A change is answered with a restore just where it removed or disabled a display
/// that is not the built-in one, by its own account or by the remembered number.
pub proof fn loss_is_answered(change: DisplayChange, internal: Option<u32>, builtin: bool)
    ensures
        policy::loss_decision(change, internal, builtin) == AutoWatchAction::RestoredInternal
            <==> ((
        (change.flags / 32) % 2 == 1 || (change.flags / 512) % 2 == 1) && !builtin && internal
            != Some(change.display)),
        policy::loss_decision(change, internal, builtin) != AutoWatchAction::DisabledInternal,
{
    let flags = change.flags;
    assert((flags & 0x20 != 0) == ((flags / 32) % 2 == 1)) by (bit_vector);
    assert((flags & 0x200 != 0) == ((flags / 512) % 2 == 1)) by (bit_vector);
}

// ---------------------------------------------------------------------------
// Numbers to try.
// ---------------------------------------------------------------------------
/// A number that was asked for is tried alone. Else the live number comes first,
/// the remembered one next, and the number 1 is tried in any case; nothing else is
/// tried, and nothing twice.
pub proof fn candidates_follow_trust(
    explicit: Option<u32>,
    live: Option<u32>,
    remembered: Option<u32>,
)
    ensures
        explicit matches Some(id) ==> policy::candidates(explicit, live, remembered) == seq![id],
        explicit is None ==> {
            let ids = policy::candidates(explicit, live, remembered);
            &&& live matches Some(id) ==> ids.len() > 0 && ids[0] == id
            &&& remembered matches Some(id) ==> (if live is None || live == Some(id) {
                ids[0] == id
            } else {
                ids.len() > 1 && ids[1] == id
            })
            &&& ids.contains(1)
            &&& (live != Some(1u32) && remembered != Some(1u32) ==> ids.last() == 1)
            &&& forall|i: int|
                0 <= i < ids.len() ==> Some(#[trigger] ids[i]) == live || Some(ids[i])
                    == remembered || ids[i] == 1
            &&& forall|i: int, j: int| 0 <= i < j < ids.len() ==> ids[i] != ids[j]
        },
{
    if explicit is None {
        let a = policy::with_candidate(Seq::empty(), live);
        let b = policy::with_candidate(a, remembered);
        let ids = policy::candidates(explicit, live, remembered);
        if let Some(id) = live {
            assert(a =~= seq![id]);
            assert(a.contains(a[0]));
        } else {
            assert(a =~= Seq::empty());
        }
        if let Some(id) = remembered {
            if live == Some(id) {
                assert(b == a);
            } else {
                assert(!a.contains(id));
                assert(b == a.push(id));
            }
        }
        if b.contains(1) {
            assert(ids == b);
        } else {
            assert(ids == b.push(1));
            assert(ids[ids.len() - 1] == 1);
        }
        if live == Some(1u32) {
            assert(b[0] == 1);
            assert(b.contains(1));
        }
        if remembered == Some(1u32) {
            assert(b.contains(1)) by {
                if live == Some(1u32) {
                    assert(b[0] == 1);
                } else {
                    assert(b[b.len() - 1] == 1);
                }
            }
        }
    }
}

// ---------------------------------------------------------------------------
// Turning the panel off.
// ---------------------------------------------------------------------------
proof fn lemma_none_on(displays: Seq<DisplayView>)
    requires
        dark(displays),
    ensures
        display::count_on(displays) == 0,
    decreases displays.len(),
{
    if displays.len() > 0 {
        let init = displays.drop_last();
        assert forall|i: int| 0 <= i < init.len() implies (#[trigger] init[i]).enabled != Some(
            true,
        ) by {
            assert(displays[i].enabled != Some(true));
        }
        lemma_none_on(init);
        assert(displays[displays.len() - 1].enabled != Some(true));
    }
}

/// Two displays are counted as on just where there are two.
pub proof fn counting_finds_two(displays: Seq<DisplayView>)
    ensures
        display::count_on(displays) >= 1 <==> !dark(displays),
        display::count_on(displays) >= 2 <==> exists|a: int, b: int| #[trigger]
            two_on(displays, a, b),
    decreases displays.len(),
{
    if displays.len() > 0 {
        let init = displays.drop_last();
        let last = displays.len() - 1;
        counting_finds_two(init);
        if dark(displays) {
            lemma_none_on(displays);
        } else {
            let i = choose|i: int|
                0 <= i < displays.len() && (#[trigger] displays[i]).enabled == Some(true);
            if i < last {
                assert(init[i].enabled == Some(true));
            }
        }
        if !dark(init) {
            let i = choose|i: int| 0 <= i < init.len() && (
                #[trigger] init[i]
            ).enabled == Some(true);
            assert(displays[i].enabled == Some(true));
            if displays[last].enabled == Some(true) {
                assert(two_on(displays, i, last));
            }
        }
        if exists|a: int, b: int| #[trigger] two_on(init, a, b) {
            let (a, b) = choose|a: int, b: int| #[trigger] two_on(init, a, b);
            assert(two_on(displays, a, b));
        }
        if exists|a: int, b: int| #[trigger] two_on(displays, a, b) {
            let (a, b) = choose|a: int, b: int| #[trigger] two_on(displays, a, b);
            assert(init[a].enabled == Some(true));
            if b < last {
                assert(two_on(init, a, b));
            } else {
                assert(!dark(init));
                assert(displays.last().on());
            }
        }
    }
}

proof fn lemma_lit_panel(displays: Seq<DisplayView>, p: int)
    requires
        0 <= p < displays.len(),
        displays[p].internal(),
        displays[p].enabled == Some(true),
        forall|i: int|
            0 <= i < p ==> !((#[trigger] displays[i]).internal() && displays[i].enabled == Some(
                true,
            )),
    ensures
        switching::lit_panel(displays) == Some(displays[p]),
    decreases displays.len(),
{
    if p > 0 {
        let rest = displays.skip(1);
        assert(!(displays[0].internal() && displays[0].enabled == Some(true)));
        assert forall|i: int| 0 <= i < p - 1 implies !((#[trigger] rest[i]).internal()
            && rest[i].enabled == Some(true)) by {
            assert(!(displays[i + 1].internal() && displays[i + 1].enabled == Some(true)));
        }
        lemma_lit_panel(rest, p - 1);
    }
}

proof fn lemma_no_lit_panel(displays: Seq<DisplayView>)
    requires
        panel_dark(displays),
    ensures
        switching::lit_panel(displays) is None,
    decreases displays.len(),
{
    if displays.len() > 0 {
        let rest = displays.skip(1);
        assert(!(displays[0].internal() && displays[0].enabled == Some(true)));
        assert forall|i: int| 0 <= i < rest.len() implies !((#[trigger] rest[i]).internal()
            && rest[i].enabled == Some(true)) by {
            assert(!(displays[i + 1].internal() && displays[i + 1].enabled == Some(true)));
        }
        lemma_no_lit_panel(rest);
    }
}

/// A display that is on answers to the name.
pub open spec fn named_on(displays: Seq<DisplayView>, name: Seq<char>) -> bool {
    exists|i: int|
        0 <= i < displays.len() && (#[trigger] displays[i]).enabled == Some(true)
            && displays[i].answers_to(name)
}

/// A request to turn the panel off, where the first panel that is on stands at
/// `p`: it is done where the target that was asked for, if any, is on, two displays
/// are on or the request is forced, and the panel has an id. It is refused only
/// where one display is on, or the panel has no id.
pub proof fn panel_is_turned_off_beside_another(
    displays: Seq<DisplayView>,
    condition: Option<Seq<char>>,
    force: bool,
    p: int,
)
    requires
        0 <= p < displays.len(),
        displays[p].internal(),
        displays[p].enabled == Some(true),
        forall|i: int|
            0 <= i < p ==> !((#[trigger] displays[i]).internal() && displays[i].enabled == Some(
                true,
            )),
    ensures
        ({
            let met = condition matches Some(name) ==> named_on(displays, name);
            let allowed = force || exists|a: int, b: int| #[trigger] two_on(displays, a, b);
            let plan = switching::disable_decision(displays, condition, force);
            &&& !met <==> plan is Skip
            &&& met && !allowed ==> plan == DisablePlanView::Refuse(
                "refusing to disable the only enabled display; pass --force to override"@,
            )
            &&& met && allowed ==> match displays[p].persistent_id {
                Some(id) => plan == DisablePlanView::Switch(id),
                None => plan == DisablePlanView::Refuse(
                    "internal display has no persistent id in displayplacer output"@,
                ),
            }
        }),
{
    lemma_lit_panel(displays, p);
    counting_finds_two(displays);
    if let Some(name) = condition {
        if named_on(displays, name) {
            let i = choose|i: int|
                0 <= i < displays.len() && (#[trigger] displays[i]).enabled == Some(true)
                    && displays[i].answers_to(name);
            assert(displays[i].answers_to(name) && displays[i].on());
        }
        if display::answering_on(displays, name) {
            let i = choose|i: int|
                0 <= i < displays.len() && #[trigger] displays[i].answers_to(name)
                    && displays[i].on();
            assert(displays[i].enabled == Some(true));
        }
    }
}

/// Where no panel is on, there is nothing to turn off.
pub proof fn dark_panel_is_not_turned_off(
    displays: Seq<DisplayView>,
    condition: Option<Seq<char>>,
    force: bool,
)
    requires
        panel_dark(displays),
    ensures
        switching::disable_decision(displays, condition, force) is Skip,
{
    lemma_no_lit_panel(displays);
}

/// Where a panel is on, one is the first.
pub proof fn first_lit_panel(displays: Seq<DisplayView>) -> (p: int)
    requires
        !panel_dark(displays),
    ensures
        0 <= p < displays.len(),
        displays[p].internal(),
        displays[p].enabled == Some(true),
        forall|i: int|
            0 <= i < p ==> !((#[trigger] displays[i]).internal() && displays[i].enabled == Some(
                true,
            )),
    decreases displays.len(),
{
    if displays[0].internal() && displays[0].enabled == Some(true) {
        0
    } else {
        let rest = displays.skip(1);
        let i = choose|i: int|
            0 <= i < displays.len() && (#[trigger] displays[i]).internal() && displays[i].enabled
                == Some(true);
        assert(rest[i - 1] == displays[i]);
        let p = first_lit_panel(rest);
        assert forall|i: int| 0 <= i < p + 1 implies !((#[trigger] displays[i]).internal()
            && displays[i].enabled == Some(true)) by {
            if i > 0 {
                assert(rest[i - 1] == displays[i]);
            }
        }
        p + 1
    }
}

} // verus!
