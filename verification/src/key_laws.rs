//! What the keys and the events of the interactive mode do.

use vstd::prelude::*;

use crate::asking;
use crate::commands;
use crate::display::DisplayView;
use crate::effect;
use crate::effect::{Course, EffectView, Input, Key, ReplyView};
use crate::files;
use crate::front_laws;
use crate::guard;
use crate::guard_laws;
use crate::interactive;
use crate::interactive::{Stage, UiView};
use crate::policy::{ActionMode, AutoWatchAction, DisplayChange, PowerEvent, WatchEvent};
use crate::policy_laws;
use crate::recovery_laws;
use crate::restore;
use crate::state;
use crate::switching;
use crate::switching_laws;
use crate::target::TargetView;
use crate::watch_laws;
use crate::watching;

verus! {

// ---------------------------------------------------------------------------
// Leaving.
// ---------------------------------------------------------------------------
/// The mode is left by `q`, by escape and by control and `c`, and by nothing else.
/// While the help is shown, only the last does. Nothing is asked for on the way out.
pub proof fn only_leaving_leaves(ui: UiView, input: Input, t: Seq<ReplyView>)
    ensures
        ({
            let leaves = input matches Input::Key(key, control) && ((key == Key::Char('c')
                && control) || (!ui.show_help && (key == Key::Char('q') || key == Key::Esc)));
            &&& leaves ==> interactive::input_handled(ui, input, t) == Course::Ends(
                Ok::<Option<UiView>, Seq<char>>(None),
                t,
            )
            &&& !leaves ==> !(interactive::input_handled(ui, input, t) matches Course::Ends(r, _)
                && r matches Ok(next) && next is None)
        }),
{
}

// ---------------------------------------------------------------------------
// Keys.
// ---------------------------------------------------------------------------
/// The keys that ask for something.
pub open spec fn acts(key: Key) -> bool {
    key == Key::Enter || key == Key::Char(' ') || key == Key::Char('s') || key == Key::Char('i')
        || key == Key::Char('a')
}

/// The display that is selected.
pub open spec fn chosen(ui: UiView, d: DisplayView) -> bool {
    ui.parsed is Some && ui.selected < ui.parsed->0.displays.len()
        && ui.parsed->0.displays[ui.selected as int] == d
}

/// A key that is none of those asks for nothing, and leaves the list as it is.
pub proof fn other_keys_ask_for_nothing(ui: UiView, key: Key, t: Seq<ReplyView>)
    requires
        !acts(key),
    ensures
        interactive::key_pressed(ui, key, t) matches Course::Ends(r, rest) && rest == t && r is Ok
            && (r->Ok_0 matches Some(next) ==> next.parsed == ui.parsed && next.targets
            == ui.targets && (key == Key::Char('r') ==> next.refresh && next.render) && (key
            == Key::Char('?') ==> next.show_help && next.render)),
{
}

proof fn lemma_key_resets(
    ui: UiView,
    t: Seq<ReplyView>,
)
    ensures
        asking::leads(
            |s: Seq<ReplyView>| interactive::key_pressed(ui, Key::Char('s'), s),
            t,
            |s: Seq<ReplyView>| guard::reset_done(ActionMode::Execute, false, s),
            t,
        ),
        asking::carries(
            |s: Seq<ReplyView>| interactive::key_pressed(ui, Key::Char('s'), s),
            t,
            |s: Seq<ReplyView>| guard::reset_done(ActionMode::Execute, false, s),
            t,
        ),
{
    let p = |s: Seq<ReplyView>| interactive::key_pressed(ui, Key::Char('s'), s);
    let f = |s: Seq<ReplyView>| guard::reset_done(ActionMode::Execute, false, s);
    assert(t =~= t.skip(t.len() - t.len()));
    assert forall|j: int| 0 <= j <= t.len() && f(t.take(j)) is Asks implies asking::wanted(
        p(#[trigger] t.take(t.len() - t.len() + j)),
    ) == asking::wanted(f(t.take(j))) by {}
    asking::lemma_met_later(p, t, f, t);
}

proof fn lemma_key_internal(
    ui: UiView,
    t: Seq<ReplyView>,
)
    ensures
        asking::leads(
            |s: Seq<ReplyView>| interactive::key_pressed(ui, Key::Char('i'), s),
            t,
            |s: Seq<ReplyView>| switching::internal_toggled(s),
            t,
        ),
        asking::carries(
            |s: Seq<ReplyView>| interactive::key_pressed(ui, Key::Char('i'), s),
            t,
            |s: Seq<ReplyView>| switching::internal_toggled(s),
            t,
        ),
{
    let p = |s: Seq<ReplyView>| interactive::key_pressed(ui, Key::Char('i'), s);
    let f = |s: Seq<ReplyView>| switching::internal_toggled(s);
    assert(t =~= t.skip(t.len() - t.len()));
    assert forall|j: int| 0 <= j <= t.len() && f(t.take(j)) is Asks implies asking::wanted(
        p(#[trigger] t.take(t.len() - t.len() + j)),
    ) == asking::wanted(f(t.take(j))) by {}
    asking::lemma_met_later(p, t, f, t);
}

proof fn lemma_key_toggles(
    ui: UiView,
    key: Key,
    d: DisplayView,
    t: Seq<ReplyView>,
)
    requires
        (key == Key::Enter || key == Key::Char(' ')) && chosen(ui, d),
    ensures
        asking::leads(
            |s: Seq<ReplyView>| interactive::key_pressed(ui, key, s),
            t,
            |s: Seq<ReplyView>| switching::display_toggled(d, s),
            t,
        ),
        asking::carries(
            |s: Seq<ReplyView>| interactive::key_pressed(ui, key, s),
            t,
            |s: Seq<ReplyView>| switching::display_toggled(d, s),
            t,
        ),
{
    let p = |s: Seq<ReplyView>| interactive::key_pressed(ui, key, s);
    let f = |s: Seq<ReplyView>| switching::display_toggled(d, s);
    assert(t =~= t.skip(t.len() - t.len()));
    assert forall|j: int| 0 <= j <= t.len() && f(t.take(j)) is Asks implies asking::wanted(
        p(#[trigger] t.take(t.len() - t.len() + j)),
    ) == asking::wanted(f(t.take(j))) by {}
    asking::lemma_met_later(p, t, f, t);
}

proof fn lemma_key_targets(
    ui: UiView,
    d: DisplayView,
    t: Seq<ReplyView>,
)
    requires
        chosen(ui, d),
    ensures
        asking::leads(
            |s: Seq<ReplyView>| interactive::key_pressed(ui, Key::Char('a'), s),
            t,
            |s: Seq<ReplyView>| files::target_toggled(d, s),
            t,
        ),
        asking::carries(
            |s: Seq<ReplyView>| interactive::key_pressed(ui, Key::Char('a'), s),
            t,
            |s: Seq<ReplyView>| files::target_toggled(d, s),
            t,
        ),
{
    let p = |s: Seq<ReplyView>| interactive::key_pressed(ui, Key::Char('a'), s);
    let f = |s: Seq<ReplyView>| files::target_toggled(d, s);
    assert(t =~= t.skip(t.len() - t.len()));
    assert forall|j: int| 0 <= j <= t.len() && f(t.take(j)) is Asks implies asking::wanted(
        p(#[trigger] t.take(t.len() - t.len() + j)),
    ) == asking::wanted(f(t.take(j))) by {}
    asking::lemma_met_later(p, t, f, t);
}

proof fn lemma_key_recovers_step(
    ui: UiView,
    d: DisplayView,
    targets: Seq<TargetView>,
    x: Seq<ReplyView>,
    r1: Seq<ReplyView>,
    r2: Seq<ReplyView>,
)
    requires
        chosen(ui, d),
        files::target_toggled(d, x) matches Course::Ends(v, rest) && rest == r1,
        files::targets_loaded(r1) matches Course::Ends(v, rest)
            && v == Ok::<Seq<TargetView>, Seq<char>>(targets) && rest == r2,
    ensures
        watching::recovered(targets, ActionMode::Execute, false, false, r2) is Asks
            ==> asking::wanted(interactive::key_pressed(ui, Key::Char('a'), x)) == asking::wanted(
                watching::recovered(targets, ActionMode::Execute, false, false, r2),
            ),
{
}

proof fn lemma_key_recovers(
    ui: UiView,
    d: DisplayView,
    targets: Seq<TargetView>,
    t: Seq<ReplyView>,
    t1: Seq<ReplyView>,
    t2: Seq<ReplyView>,
)
    requires
        chosen(ui, d),
        files::target_toggled(d, t) matches Course::Ends(v, rest) && rest == t1,
        files::targets_loaded(t1) matches Course::Ends(v, rest)
            && v == Ok::<Seq<TargetView>, Seq<char>>(targets) && rest == t2,
    ensures
        asking::leads(
            |s: Seq<ReplyView>| interactive::key_pressed(ui, Key::Char('a'), s),
            t,
            |s: Seq<ReplyView>| watching::recovered(targets, ActionMode::Execute, false, false, s),
            t2,
        ),
        asking::carries(
            |s: Seq<ReplyView>| interactive::key_pressed(ui, Key::Char('a'), s),
            t,
            |s: Seq<ReplyView>| watching::recovered(targets, ActionMode::Execute, false, false, s),
            t2,
        ),
{
    let p = |s: Seq<ReplyView>| interactive::key_pressed(ui, Key::Char('a'), s);
    let f = |s: Seq<ReplyView>| watching::recovered(targets, ActionMode::Execute, false, false, s);
    let q1 = |s: Seq<ReplyView>| files::target_toggled(d, s);
    let q2 = |s: Seq<ReplyView>| files::targets_loaded(s);
    assert(asking::cuts(q1, t, t1)) by {
        front_laws::target_toggled_shrinks(d, t);
        front_laws::target_toggled_cut(d, t, 0);
        assert forall|j: int| 0 <= j <= t1.len() implies q1(
            #[trigger] t.take(t.len() - t1.len() + j),
        ) == Course::Ends(q1(t)->Ends_0, t1.take(j)) by {
            front_laws::target_toggled_cut(d, t, j);
        }
    }
    assert(asking::cuts(q2, t1, t2)) by {
        front_laws::targets_loaded_shrinks(t1);
        front_laws::targets_loaded_cut(t1, 0);
        assert forall|j: int| 0 <= j <= t2.len() implies q2(
            #[trigger] t1.take(t1.len() - t2.len() + j),
        ) == Course::Ends(q2(t1)->Ends_0, t2.take(j)) by {
            front_laws::targets_loaded_cut(t1, j);
        }
    }
    assert forall|x: Seq<ReplyView>, r1: Seq<ReplyView>, r2: Seq<ReplyView>| #[trigger]
        asking::step2(p, q1, q2, f, q1(t)->Ends_0, q2(t1)->Ends_0, x, r1, r2) by {
        if q1(x) == Course::Ends(q1(t)->Ends_0, r1) && q2(r1) == Course::Ends(q2(t1)->Ends_0, r2) {
            lemma_key_recovers_step(ui, d, targets, x, r1, r2);
        }
    }
    asking::lemma_behind2(p, q1, q2, f, t, t1, t2);
}

/// A reset is done, and behind it the list is read and drawn anew, whatever came of
/// it.
pub proof fn reset_is_shown(ui: UiView, t: Seq<ReplyView>)
    ensures
        interactive::reset_pressed(ui, t) is Ends
            ==> guard::reset_done(ActionMode::Execute, false, t) is Ends,
        interactive::reset_pressed(ui, t) matches Course::Ends(next, _) ==> next.refresh
            && next.render,
{
    match guard::reset_done(ActionMode::Execute, false, t) {
        Course::Asks(e) => {
            assert(interactive::reset_pressed(ui, t) == Course::<UiView>::Asks(e));
        },
        Course::Ends(r, rest) => {},
    }
}

/// The key `s` is a safe reset.
pub proof fn reset_key_resets(ui: UiView, t: Seq<ReplyView>)
    ensures
        asking::carries(
            |s: Seq<ReplyView>| interactive::key_pressed(ui, Key::Char('s'), s),
            t,
            |s: Seq<ReplyView>| guard::reset_done(ActionMode::Execute, false, s),
            t,
        ),
{
    lemma_key_resets(ui, t);
}

/// The panel is toggled, and behind it the list is read and drawn anew, whatever
/// came of it.
pub proof fn toggled_panel_is_shown(ui: UiView, t: Seq<ReplyView>)
    ensures
        interactive::internal_pressed(ui, t) is Ends ==> switching::internal_toggled(t) is Ends,
        interactive::internal_pressed(ui, t) matches Course::Ends(next, _) ==> next.refresh
            && next.render,
{
    match switching::internal_toggled(t) {
        Course::Asks(e) => {
            assert(interactive::internal_pressed(ui, t) == Course::<UiView>::Asks(e));
        },
        Course::Ends(r, rest) => {},
    }
}

/// The key `i` toggles the panel.
pub proof fn panel_key_toggles_the_panel(ui: UiView, t: Seq<ReplyView>)
    ensures
        asking::carries(
            |s: Seq<ReplyView>| interactive::key_pressed(ui, Key::Char('i'), s),
            t,
            |s: Seq<ReplyView>| switching::internal_toggled(s),
            t,
        ),
{
    lemma_key_internal(ui, t);
}

/// The selected display is toggled, and behind it the list is read and drawn anew,
/// whatever came of it.
pub proof fn toggled_display_is_shown(ui: UiView, d: DisplayView, t: Seq<ReplyView>)
    requires
        chosen(ui, d),
    ensures
        interactive::toggle_pressed(ui, t) is Ends ==> switching::display_toggled(d, t) is Ends,
        interactive::toggle_pressed(ui, t) matches Course::Ends(next, _) ==> next.refresh
            && next.render,
{
    match switching::display_toggled(d, t) {
        Course::Asks(e) => {
            assert(interactive::toggle_pressed(ui, t) == Course::<UiView>::Asks(e));
        },
        Course::Ends(r, rest) => {},
    }
}

/// Space and enter toggle the display that is selected.
pub proof fn space_and_enter_toggle_the_choice(
    ui: UiView,
    key: Key,
    d: DisplayView,
    t: Seq<ReplyView>,
)
    requires
        key == Key::Enter || key == Key::Char(' '),
        chosen(ui, d),
    ensures
        asking::carries(
            |s: Seq<ReplyView>| interactive::key_pressed(ui, key, s),
            t,
            |s: Seq<ReplyView>| switching::display_toggled(d, s),
            t,
        ),
{
    lemma_key_toggles(ui, key, d, t);
}

/// The selected display is toggled as a target, and behind it the list is read and
/// drawn anew, whatever came of it.
pub proof fn toggled_target_is_shown(ui: UiView, d: DisplayView, t: Seq<ReplyView>)
    requires
        chosen(ui, d),
    ensures
        interactive::target_pressed(ui, t) is Ends ==> files::target_toggled(d, t) is Ends,
        interactive::target_pressed(ui, t) matches Course::Ends(r, _) ==> (r matches Ok(next)
            ==> next.refresh && next.render),
{
    match files::target_toggled(d, t) {
        Course::Asks(e) => {
            assert(interactive::selection_targeted(ui, t) == Course::<Seq<char>>::Asks(e));
        },
        Course::Ends(r, t1) => {
            let status = interactive::target_status(r);
            assert(interactive::selection_targeted(ui, t) == Course::Ends(status, t1));
            match files::targets_loaded(t1) {
                Course::Asks(e) => {},
                Course::Ends(loaded, t2) => {
                    if let Ok(targets) = loaded {
                        match watching::recovered(targets, ActionMode::Execute, false, false, t2) {
                            Course::Asks(e) => {
                                assert(interactive::target_pressed(ui, t) == Course::<
                                    Result<UiView, Seq<char>>,
                                >::Asks(e));
                            },
                            Course::Ends(found, t3) => {
                                let next = UiView { targets, ..ui }.saying(
                                    interactive::recovery_status(found, status),
                                ).stale();
                                assert(interactive::target_pressed(ui, t) == Course::Ends(
                                    Ok::<UiView, Seq<char>>(next),
                                    t3,
                                ));
                            },
                        }
                    }
                },
            }
        },
    }
}

/// The key `a` toggles the selected display as a target.
pub proof fn target_key_toggles_the_target(ui: UiView, d: DisplayView, t: Seq<ReplyView>)
    requires
        chosen(ui, d),
    ensures
        asking::carries(
            |s: Seq<ReplyView>| interactive::key_pressed(ui, Key::Char('a'), s),
            t,
            |s: Seq<ReplyView>| files::target_toggled(d, s),
            t,
        ),
{
    lemma_key_targets(ui, d, t);
}

// ---------------------------------------------------------------------------
// The panel's key.
// ---------------------------------------------------------------------------
proof fn lemma_toggle_disables_step(
    displays: Seq<DisplayView>,
    x: Seq<ReplyView>,
    r1: Seq<ReplyView>,
    r2: Seq<ReplyView>,
)
    requires
        state::first_internal(displays) is Some && state::first_internal(displays)->0.on(),
        commands::displays_listed(x) matches Course::Ends(v, rest) && v is Ok
            && v->Ok_0.displays == displays && rest == r1,
        files::list_remembered(displays, r1) matches Course::Ends(v, rest) && rest == r2,
    ensures
        switching::internal_disabled(None, ActionMode::Execute, false, false, false, r2) is Asks
            ==> asking::wanted(switching::internal_toggled(x)) == asking::wanted(
                switching::internal_disabled(None, ActionMode::Execute, false, false, false, r2),
            ),
{
}

proof fn lemma_toggle_disables(
    displays: Seq<DisplayView>,
    t: Seq<ReplyView>,
    t1: Seq<ReplyView>,
    t2: Seq<ReplyView>,
)
    requires
        state::first_internal(displays) is Some && state::first_internal(displays)->0.on(),
        commands::displays_listed(t) matches Course::Ends(v, rest) && v is Ok
            && v->Ok_0.displays == displays && rest == t1,
        files::list_remembered(displays, t1) matches Course::Ends(v, rest) && rest == t2,
    ensures
        asking::leads(
            |s: Seq<ReplyView>| switching::internal_toggled(s),
            t,
            |s: Seq<ReplyView>| switching::internal_disabled(
                None,
                ActionMode::Execute,
                false,
                false,
                false,
                s,
            ),
            t2,
        ),
        asking::carries(
            |s: Seq<ReplyView>| switching::internal_toggled(s),
            t,
            |s: Seq<ReplyView>| switching::internal_disabled(
                None,
                ActionMode::Execute,
                false,
                false,
                false,
                s,
            ),
            t2,
        ),
{
    let p = |s: Seq<ReplyView>| switching::internal_toggled(s);
    let f = |s: Seq<ReplyView>| switching::internal_disabled(
        None,
        ActionMode::Execute,
        false,
        false,
        false,
        s,
    );
    let q1 = |s: Seq<ReplyView>| commands::displays_listed(s);
    let q2 = |s: Seq<ReplyView>| files::list_remembered(displays, s);
    assert(asking::cuts(q1, t, t1)) by {
        front_laws::displays_listed_shrinks(t);
        front_laws::displays_listed_cut(t, 0);
        assert forall|j: int| 0 <= j <= t1.len() implies q1(
            #[trigger] t.take(t.len() - t1.len() + j),
        ) == Course::Ends(q1(t)->Ends_0, t1.take(j)) by {
            front_laws::displays_listed_cut(t, j);
        }
    }
    assert(asking::cuts(q2, t1, t2)) by {
        front_laws::list_remembered_shrinks(displays, t1);
        front_laws::list_remembered_cut(displays, t1, 0);
        assert forall|j: int| 0 <= j <= t2.len() implies q2(
            #[trigger] t1.take(t1.len() - t2.len() + j),
        ) == Course::Ends(q2(t1)->Ends_0, t2.take(j)) by {
            front_laws::list_remembered_cut(displays, t1, j);
        }
    }
    assert forall|x: Seq<ReplyView>, r1: Seq<ReplyView>, r2: Seq<ReplyView>| #[trigger]
        asking::step2(p, q1, q2, f, q1(t)->Ends_0, q2(t1)->Ends_0, x, r1, r2) by {
        if q1(x) == Course::Ends(q1(t)->Ends_0, r1) && q2(r1) == Course::Ends(q2(t1)->Ends_0, r2) {
            lemma_toggle_disables_step(displays, x, r1, r2);
        }
    }
    asking::lemma_behind2(p, q1, q2, f, t, t1, t2);
}

proof fn lemma_toggle_enables_step(
    displays: Seq<DisplayView>,
    id: Seq<char>,
    x: Seq<ReplyView>,
    r1: Seq<ReplyView>,
    r2: Seq<ReplyView>,
)
    requires
        state::first_internal(displays) is Some && !state::first_internal(displays)->0.on()
            && state::first_internal(displays)->0.persistent_id == Some(id),
        commands::displays_listed(x) matches Course::Ends(v, rest) && v is Ok
            && v->Ok_0.displays == displays && rest == r1,
        files::list_remembered(displays, r1) matches Course::Ends(v, rest) && rest == r2,
    ensures
        commands::placer_switched(id, true, ActionMode::Execute, false, r2) is Asks
            ==> asking::wanted(switching::internal_toggled(x)) == asking::wanted(
                commands::placer_switched(id, true, ActionMode::Execute, false, r2),
            ),
{
}

proof fn lemma_toggle_enables(
    displays: Seq<DisplayView>,
    id: Seq<char>,
    t: Seq<ReplyView>,
    t1: Seq<ReplyView>,
    t2: Seq<ReplyView>,
)
    requires
        state::first_internal(displays) is Some && !state::first_internal(displays)->0.on()
            && state::first_internal(displays)->0.persistent_id == Some(id),
        commands::displays_listed(t) matches Course::Ends(v, rest) && v is Ok
            && v->Ok_0.displays == displays && rest == t1,
        files::list_remembered(displays, t1) matches Course::Ends(v, rest) && rest == t2,
    ensures
        asking::leads(
            |s: Seq<ReplyView>| switching::internal_toggled(s),
            t,
            |s: Seq<ReplyView>| commands::placer_switched(id, true, ActionMode::Execute, false, s),
            t2,
        ),
        asking::carries(
            |s: Seq<ReplyView>| switching::internal_toggled(s),
            t,
            |s: Seq<ReplyView>| commands::placer_switched(id, true, ActionMode::Execute, false, s),
            t2,
        ),
{
    let p = |s: Seq<ReplyView>| switching::internal_toggled(s);
    let f = |s: Seq<ReplyView>| commands::placer_switched(id, true, ActionMode::Execute, false, s);
    let q1 = |s: Seq<ReplyView>| commands::displays_listed(s);
    let q2 = |s: Seq<ReplyView>| files::list_remembered(displays, s);
    assert(asking::cuts(q1, t, t1)) by {
        front_laws::displays_listed_shrinks(t);
        front_laws::displays_listed_cut(t, 0);
        assert forall|j: int| 0 <= j <= t1.len() implies q1(
            #[trigger] t.take(t.len() - t1.len() + j),
        ) == Course::Ends(q1(t)->Ends_0, t1.take(j)) by {
            front_laws::displays_listed_cut(t, j);
        }
    }
    assert(asking::cuts(q2, t1, t2)) by {
        front_laws::list_remembered_shrinks(displays, t1);
        front_laws::list_remembered_cut(displays, t1, 0);
        assert forall|j: int| 0 <= j <= t2.len() implies q2(
            #[trigger] t1.take(t1.len() - t2.len() + j),
        ) == Course::Ends(q2(t1)->Ends_0, t2.take(j)) by {
            front_laws::list_remembered_cut(displays, t1, j);
        }
    }
    assert forall|x: Seq<ReplyView>, r1: Seq<ReplyView>, r2: Seq<ReplyView>| #[trigger]
        asking::step2(p, q1, q2, f, q1(t)->Ends_0, q2(t1)->Ends_0, x, r1, r2) by {
        if q1(x) == Course::Ends(q1(t)->Ends_0, r1) && q2(r1) == Course::Ends(q2(t1)->Ends_0, r2) {
            lemma_toggle_enables_step(displays, id, x, r1, r2);
        }
    }
    asking::lemma_behind2(p, q1, q2, f, t, t1, t2);
}

proof fn lemma_toggle_restores_step(
    displays: Seq<DisplayView>,
    x: Seq<ReplyView>,
    r1: Seq<ReplyView>,
    r2: Seq<ReplyView>,
)
    requires
        state::first_internal(displays) is None
            || (
                !state::first_internal(displays)->0.on()
                    && state::first_internal(displays)->0.persistent_id is None
            ),
        commands::displays_listed(x) matches Course::Ends(v, rest) && v is Ok
            && v->Ok_0.displays == displays && rest == r1,
        files::list_remembered(displays, r1) matches Course::Ends(v, rest) && rest == r2,
    ensures
        restore::internal_restored(
            None,
            ActionMode::Execute,
            false,
            false,
            restore::INTERNAL_RESTORE_ATTEMPTS,
            r2,
        ) is Asks
            ==> asking::wanted(switching::internal_toggled(x)) == asking::wanted(
                restore::internal_restored(
                    None,
                    ActionMode::Execute,
                    false,
                    false,
                    restore::INTERNAL_RESTORE_ATTEMPTS,
                    r2,
                ),
            ),
{
}

proof fn lemma_toggle_restores(
    displays: Seq<DisplayView>,
    t: Seq<ReplyView>,
    t1: Seq<ReplyView>,
    t2: Seq<ReplyView>,
)
    requires
        state::first_internal(displays) is None
            || (
                !state::first_internal(displays)->0.on()
                    && state::first_internal(displays)->0.persistent_id is None
            ),
        commands::displays_listed(t) matches Course::Ends(v, rest) && v is Ok
            && v->Ok_0.displays == displays && rest == t1,
        files::list_remembered(displays, t1) matches Course::Ends(v, rest) && rest == t2,
    ensures
        asking::leads(
            |s: Seq<ReplyView>| switching::internal_toggled(s),
            t,
            |s: Seq<ReplyView>| restore::internal_restored(
                None,
                ActionMode::Execute,
                false,
                false,
                restore::INTERNAL_RESTORE_ATTEMPTS,
                s,
            ),
            t2,
        ),
        asking::carries(
            |s: Seq<ReplyView>| switching::internal_toggled(s),
            t,
            |s: Seq<ReplyView>| restore::internal_restored(
                None,
                ActionMode::Execute,
                false,
                false,
                restore::INTERNAL_RESTORE_ATTEMPTS,
                s,
            ),
            t2,
        ),
{
    let p = |s: Seq<ReplyView>| switching::internal_toggled(s);
    let f = |s: Seq<ReplyView>| restore::internal_restored(
        None,
        ActionMode::Execute,
        false,
        false,
        restore::INTERNAL_RESTORE_ATTEMPTS,
        s,
    );
    let q1 = |s: Seq<ReplyView>| commands::displays_listed(s);
    let q2 = |s: Seq<ReplyView>| files::list_remembered(displays, s);
    assert(asking::cuts(q1, t, t1)) by {
        front_laws::displays_listed_shrinks(t);
        front_laws::displays_listed_cut(t, 0);
        assert forall|j: int| 0 <= j <= t1.len() implies q1(
            #[trigger] t.take(t.len() - t1.len() + j),
        ) == Course::Ends(q1(t)->Ends_0, t1.take(j)) by {
            front_laws::displays_listed_cut(t, j);
        }
    }
    assert(asking::cuts(q2, t1, t2)) by {
        front_laws::list_remembered_shrinks(displays, t1);
        front_laws::list_remembered_cut(displays, t1, 0);
        assert forall|j: int| 0 <= j <= t2.len() implies q2(
            #[trigger] t1.take(t1.len() - t2.len() + j),
        ) == Course::Ends(q2(t1)->Ends_0, t2.take(j)) by {
            front_laws::list_remembered_cut(displays, t1, j);
        }
    }
    assert forall|x: Seq<ReplyView>, r1: Seq<ReplyView>, r2: Seq<ReplyView>| #[trigger]
        asking::step2(p, q1, q2, f, q1(t)->Ends_0, q2(t1)->Ends_0, x, r1, r2) by {
        if q1(x) == Course::Ends(q1(t)->Ends_0, r1) && q2(r1) == Course::Ends(q2(t1)->Ends_0, r2) {
            lemma_toggle_restores_step(displays, x, r1, r2);
        }
    }
    asking::lemma_behind2(p, q1, q2, f, t, t1, t2);
}

/// The panel of a list is the first display that is built in.
pub proof fn first_panel_is_the_panel(displays: Seq<DisplayView>, p: int)
    requires
        forall|i: int| 0 <= i < p && i < displays.len() ==> !(#[trigger] displays[i]).internal(),
        0 <= p <= displays.len(),
        p < displays.len() ==> displays[p].internal(),
    ensures
        p < displays.len() ==> state::first_internal(displays) == Some(displays[p]),
        p == displays.len() ==> state::first_internal(displays) is None,
    decreases p,
{
    if p > 0 {
        let rest = displays.skip(1);
        assert(!displays[0].internal());
        assert forall|i: int| 0 <= i < p - 1 && i < rest.len() implies !(
        #[trigger] rest[i]).internal() by {
            assert(rest[i] == displays[i + 1]);
        }
        first_panel_is_the_panel(rest, p - 1);
    }
}

/// A panel that is listed and off is toggled by switching it on by its id; where
/// none is listed, or it has no id, it is called back.
pub proof fn dark_panel_is_toggled_on(displays: Seq<DisplayView>, p: int, t: Seq<ReplyView>)
    requires
        switching::internal_toggled(t) is Ends,
        commands::as_list(effect::as_ran(t[0])) matches Ok(parsed) && parsed.displays == displays,
        forall|i: int| 0 <= i < p && i < displays.len() ==> !(#[trigger] displays[i]).internal(),
        0 <= p <= displays.len(),
        p < displays.len() ==> displays[p].internal() && displays[p].enabled != Some(true),
    ensures
        ({
            let f = |s: Seq<ReplyView>| switching::internal_toggled(s);
            if p < displays.len() && displays[p].persistent_id is Some {
                let id = displays[p].persistent_id->0;
                &&& asking::met(f, t, switching_laws::switched(id, true))
                &&& switching::internal_toggled(t)->Ends_0 is Ok ==> asking::met(
                    f,
                    t,
                    switching_laws::switched_well(id, true),
                )
            } else {
                recovery_laws::called_back(f, t)
            }
        }),
{
    first_panel_is_the_panel(displays, p);
    let t1 = t.skip(1);
    if let Course::Ends(_, t2) = files::list_remembered(displays, t1) {
        if p < displays.len() && displays[p].persistent_id is Some {
            let id = displays[p].persistent_id->0;
            lemma_toggle_enables(displays, id, t, t1, t2);
            switching_laws::switching_runs_the_command(id, true, false, t2);
        } else {
            lemma_toggle_restores(displays, t, t1, t2);
            recovery_laws::restoring_calls_back(
                None,
                false,
                false,
                restore::INTERNAL_RESTORE_ATTEMPTS,
                t2,
            );
        }
    }
}

/// A panel that is listed and on is toggled by an unforced request to turn it off.
pub proof fn lit_panel_is_toggled_off(displays: Seq<DisplayView>, p: int, t: Seq<ReplyView>) -> (s:
    Seq<ReplyView>)
    requires
        switching::internal_toggled(t) is Ends,
        commands::as_list(effect::as_ran(t[0])) matches Ok(parsed) && parsed.displays == displays,
        forall|i: int| 0 <= i < p && i < displays.len() ==> !(#[trigger] displays[i]).internal(),
        0 <= p < displays.len(),
        displays[p].internal(),
        displays[p].enabled == Some(true),
    ensures
        switching::internal_disabled(None, ActionMode::Execute, false, false, false, s) is Ends,
        asking::carries(
            |x: Seq<ReplyView>| switching::internal_toggled(x),
            t,
            |x: Seq<ReplyView>|
                switching::internal_disabled(None, ActionMode::Execute, false, false, false, x),
            s,
        ),
{
    first_panel_is_the_panel(displays, p);
    let t1 = t.skip(1);
    let t2 = files::list_remembered(displays, t1)->Ends_1;
    lemma_toggle_disables(displays, t, t1, t2);
    t2
}

// ---------------------------------------------------------------------------
// Recovery.
// ---------------------------------------------------------------------------
proof fn lemma_recovery_watches(
    targets: Seq<TargetView>,
    t: Seq<ReplyView>,
)
    ensures
        asking::leads(
            |s: Seq<ReplyView>| watching::recovered(targets, ActionMode::Execute, false, false, s),
            t,
            |s: Seq<ReplyView>| watching::targets_watched(
                targets,
                ActionMode::Execute,
                false,
                false,
                s,
            ),
            t,
        ),
        asking::carries(
            |s: Seq<ReplyView>| watching::recovered(targets, ActionMode::Execute, false, false, s),
            t,
            |s: Seq<ReplyView>| watching::targets_watched(
                targets,
                ActionMode::Execute,
                false,
                false,
                s,
            ),
            t,
        ),
{
    let p = |s: Seq<ReplyView>| watching::recovered(targets, ActionMode::Execute, false, false, s);
    let f = |s: Seq<ReplyView>| watching::targets_watched(
        targets,
        ActionMode::Execute,
        false,
        false,
        s,
    );
    assert(t =~= t.skip(t.len() - t.len()));
    assert forall|j: int| 0 <= j <= t.len() && f(t.take(j)) is Asks implies asking::wanted(
        p(#[trigger] t.take(t.len() - t.len() + j)),
    ) == asking::wanted(f(t.take(j))) by {}
    asking::lemma_met_later(p, t, f, t);
}

proof fn lemma_recovery_looks(
    targets: Seq<TargetView>,
    t: Seq<ReplyView>,
)
    requires
        targets.len() == 0,
    ensures
        asking::leads(
            |s: Seq<ReplyView>| watching::recovered(targets, ActionMode::Execute, false, false, s),
            t,
            |s: Seq<ReplyView>| watching::darkness_ended(ActionMode::Execute, false, s),
            t,
        ),
        asking::carries(
            |s: Seq<ReplyView>| watching::recovered(targets, ActionMode::Execute, false, false, s),
            t,
            |s: Seq<ReplyView>| watching::darkness_ended(ActionMode::Execute, false, s),
            t,
        ),
{
    let p = |s: Seq<ReplyView>| watching::recovered(targets, ActionMode::Execute, false, false, s);
    let f = |s: Seq<ReplyView>| watching::darkness_ended(ActionMode::Execute, false, s);
    assert(t =~= t.skip(t.len() - t.len()));
    assert forall|j: int| 0 <= j <= t.len() && f(t.take(j)) is Asks implies asking::wanted(
        p(#[trigger] t.take(t.len() - t.len() + j)),
    ) == asking::wanted(f(t.take(j))) by {}
    asking::lemma_met_later(p, t, f, t);
}

proof fn lemma_recovery_looks_again_step(
    targets: Seq<TargetView>,
    x: Seq<ReplyView>,
    r1: Seq<ReplyView>,
)
    requires
        watching::targets_watched(
            targets,
            ActionMode::Execute,
            false,
            false,
            x,
        ) matches Course::Ends(v, rest)
            && v == Ok::<AutoWatchAction, Seq<char>>(AutoWatchAction::Idle) && rest == r1,
    ensures
        watching::darkness_ended(ActionMode::Execute, false, r1) is Asks
            ==> asking::wanted(
                watching::recovered(targets, ActionMode::Execute, false, false, x),
            ) == asking::wanted(watching::darkness_ended(ActionMode::Execute, false, r1)),
{
}

proof fn lemma_recovery_looks_again(
    targets: Seq<TargetView>,
    t: Seq<ReplyView>,
    t1: Seq<ReplyView>,
)
    requires
        watching::targets_watched(
            targets,
            ActionMode::Execute,
            false,
            false,
            t,
        ) matches Course::Ends(v, rest)
            && v == Ok::<AutoWatchAction, Seq<char>>(AutoWatchAction::Idle) && rest == t1,
    ensures
        asking::leads(
            |s: Seq<ReplyView>| watching::recovered(targets, ActionMode::Execute, false, false, s),
            t,
            |s: Seq<ReplyView>| watching::darkness_ended(ActionMode::Execute, false, s),
            t1,
        ),
        asking::carries(
            |s: Seq<ReplyView>| watching::recovered(targets, ActionMode::Execute, false, false, s),
            t,
            |s: Seq<ReplyView>| watching::darkness_ended(ActionMode::Execute, false, s),
            t1,
        ),
{
    let p = |s: Seq<ReplyView>| watching::recovered(targets, ActionMode::Execute, false, false, s);
    let f = |s: Seq<ReplyView>| watching::darkness_ended(ActionMode::Execute, false, s);
    let q1 = |s: Seq<ReplyView>| watching::targets_watched(
        targets,
        ActionMode::Execute,
        false,
        false,
        s,
    );
    assert(asking::cuts(q1, t, t1)) by {
        front_laws::targets_watched_shrinks(targets, ActionMode::Execute, false, false, t);
        front_laws::targets_watched_cut(targets, ActionMode::Execute, false, false, t, 0);
        assert forall|j: int| 0 <= j <= t1.len() implies q1(
            #[trigger] t.take(t.len() - t1.len() + j),
        ) == Course::Ends(q1(t)->Ends_0, t1.take(j)) by {
            front_laws::targets_watched_cut(targets, ActionMode::Execute, false, false, t, j);
        }
    }
    assert forall|x: Seq<ReplyView>, r1: Seq<ReplyView>| #[trigger]
        asking::step1(p, q1, f, q1(t)->Ends_0, x, r1) by {
        if q1(x) == Course::Ends(q1(t)->Ends_0, r1) {
            lemma_recovery_looks_again_step(targets, x, r1);
        }
    }
    asking::lemma_behind1(p, q1, f, t, t1);
}

/// A recovery keeps the machine safe where the displays cannot be listed, or none
/// of them is on, or targets are saved, none of them is connected and no panel is
/// on.
pub proof fn recovery_keeps_safe(targets: Seq<TargetView>, t: Seq<ReplyView>)
    requires
        watching::recovered(targets, ActionMode::Execute, false, false, t) is Ends,
        commands::as_list(effect::as_ran(t[0])) matches Ok(parsed) ==> policy_laws::dark(
            parsed.displays,
        ) || (targets.len() > 0 && policy_laws::panel_dark(parsed.displays)
            && !crate::target::target_connected(targets, parsed.displays)),
    ensures
        recovery_laws::kept_safe(
            |s: Seq<ReplyView>|
                watching::recovered(targets, ActionMode::Execute, false, false, s),
            t,
        ),
{
    if targets.len() == 0 {
        lemma_recovery_looks(targets, t);
        watch_laws::darkness_is_ended(false, t);
    } else {
        lemma_recovery_watches(targets, t);
        if let Ok(parsed) = commands::as_list(effect::as_ran(t[0])) {
            let displays = parsed.displays;
            if policy_laws::dark(displays) {
                watch_laws::connected_means_on_and_fitting(targets, displays);
                assert forall|i: int| 0 <= i < displays.len() implies !((
                #[trigger] displays[i]).internal() && displays[i].enabled == Some(true)) by {}
            }
        }
        watch_laws::watching_keeps_safe(targets, false, false, t);
    }
}

/// Where nothing was to be done for the targets, a recovery leaves it to the safety
/// net.
pub proof fn net_has_its_turn(targets: Seq<TargetView>, t: Seq<ReplyView>, t1: Seq<ReplyView>)
    requires
        watching::targets_watched(targets, ActionMode::Execute, false, false, t) == Course::Ends(
            Ok::<AutoWatchAction, Seq<char>>(AutoWatchAction::Idle),
            t1,
        ),
    ensures
        asking::carries(
            |s: Seq<ReplyView>|
                watching::recovered(targets, ActionMode::Execute, false, false, s),
            t,
            |s: Seq<ReplyView>| watching::darkness_ended(ActionMode::Execute, false, s),
            t1,
        ),
{
    lemma_recovery_looks_again(targets, t, t1);
}

/// Where something was done for the targets, or that failed, a recovery is over.
pub proof fn done_is_done(
    targets: Seq<TargetView>,
    r: Result<AutoWatchAction, Seq<char>>,
    t: Seq<ReplyView>,
    t1: Seq<ReplyView>,
)
    requires
        watching::targets_watched(targets, ActionMode::Execute, false, false, t) == Course::Ends(
            r,
            t1,
        ),
        r != Ok::<AutoWatchAction, Seq<char>>(AutoWatchAction::Idle),
    ensures
        watching::recovered(targets, ActionMode::Execute, false, false, t) == Course::Ends(r, t1),
{
}

/// Behind a change of the targets there is a recovery for those that are saved now.
pub proof fn target_key_recovers(
    ui: UiView,
    d: DisplayView,
    targets: Seq<TargetView>,
    t: Seq<ReplyView>,
    t1: Seq<ReplyView>,
    t2: Seq<ReplyView>,
)
    requires
        chosen(ui, d),
        files::target_toggled(d, t) matches Course::Ends(_, rest) && rest == t1,
        files::targets_loaded(t1) == Course::Ends(Ok::<Seq<TargetView>, Seq<char>>(targets), t2),
    ensures
        asking::carries(
            |s: Seq<ReplyView>| interactive::key_pressed(ui, Key::Char('a'), s),
            t,
            |s: Seq<ReplyView>|
                watching::recovered(targets, ActionMode::Execute, false, false, s),
            t2,
        ),
{
    lemma_key_recovers(ui, d, targets, t, t1, t2);
}

// ---------------------------------------------------------------------------
// Events.
// ---------------------------------------------------------------------------
proof fn lemma_stage_changes_step(
    ui: UiView,
    change: DisplayChange,
    x: Seq<ReplyView>,
    r1: Seq<ReplyView>,
    r2: Seq<ReplyView>,
)
    requires
        effect::asks_watch(EffectView::NextWatchEvent, x) matches Course::Ends(v, rest)
            && v == Some(WatchEvent::DisplayChanged(change)) && rest == r1,
        files::logged(interactive::change_log(change), r1) matches Course::Ends(v, rest)
            && rest == r2,
    ensures
        watching::change_answered(ui.targets, change, ActionMode::Execute, false, false, r2) is Asks
            ==> asking::wanted(interactive::display_stage(ui, x)) == asking::wanted(
                watching::change_answered(
                    ui.targets,
                    change,
                    ActionMode::Execute,
                    false,
                    false,
                    r2,
                ),
            ),
{
}

proof fn lemma_stage_changes(
    ui: UiView,
    change: DisplayChange,
    t: Seq<ReplyView>,
    t1: Seq<ReplyView>,
    t2: Seq<ReplyView>,
)
    requires
        effect::asks_watch(EffectView::NextWatchEvent, t) matches Course::Ends(v, rest)
            && v == Some(WatchEvent::DisplayChanged(change)) && rest == t1,
        files::logged(interactive::change_log(change), t1) matches Course::Ends(v, rest)
            && rest == t2,
    ensures
        asking::leads(
            |s: Seq<ReplyView>| interactive::display_stage(ui, s),
            t,
            |s: Seq<ReplyView>| watching::change_answered(
                ui.targets,
                change,
                ActionMode::Execute,
                false,
                false,
                s,
            ),
            t2,
        ),
        asking::carries(
            |s: Seq<ReplyView>| interactive::display_stage(ui, s),
            t,
            |s: Seq<ReplyView>| watching::change_answered(
                ui.targets,
                change,
                ActionMode::Execute,
                false,
                false,
                s,
            ),
            t2,
        ),
{
    let p = |s: Seq<ReplyView>| interactive::display_stage(ui, s);
    let f = |s: Seq<ReplyView>| watching::change_answered(
        ui.targets,
        change,
        ActionMode::Execute,
        false,
        false,
        s,
    );
    let q1 = |s: Seq<ReplyView>| effect::asks_watch(EffectView::NextWatchEvent, s);
    let q2 = |s: Seq<ReplyView>| files::logged(interactive::change_log(change), s);
    assert(asking::cuts(q1, t, t1)) by {
        front_laws::asks_watch_shrinks(EffectView::NextWatchEvent, t);
        front_laws::asks_watch_cut(EffectView::NextWatchEvent, t, 0);
        assert forall|j: int| 0 <= j <= t1.len() implies q1(
            #[trigger] t.take(t.len() - t1.len() + j),
        ) == Course::Ends(q1(t)->Ends_0, t1.take(j)) by {
            front_laws::asks_watch_cut(EffectView::NextWatchEvent, t, j);
        }
    }
    assert(asking::cuts(q2, t1, t2)) by {
        front_laws::logged_shrinks(interactive::change_log(change), t1);
        front_laws::logged_cut(interactive::change_log(change), t1, 0);
        assert forall|j: int| 0 <= j <= t2.len() implies q2(
            #[trigger] t1.take(t1.len() - t2.len() + j),
        ) == Course::Ends(q2(t1)->Ends_0, t2.take(j)) by {
            front_laws::logged_cut(interactive::change_log(change), t1, j);
        }
    }
    assert forall|x: Seq<ReplyView>, r1: Seq<ReplyView>, r2: Seq<ReplyView>| #[trigger]
        asking::step2(p, q1, q2, f, q1(t)->Ends_0, q2(t1)->Ends_0, x, r1, r2) by {
        if q1(x) == Course::Ends(q1(t)->Ends_0, r1) && q2(r1) == Course::Ends(q2(t1)->Ends_0, r2) {
            lemma_stage_changes_step(ui, change, x, r1, r2);
        }
    }
    asking::lemma_behind2(p, q1, q2, f, t, t1, t2);
}

proof fn lemma_stage_reconciles_step(
    ui: UiView,
    x: Seq<ReplyView>,
    r1: Seq<ReplyView>,
)
    requires
        effect::asks_watch(EffectView::NextWatchEvent, x) matches Course::Ends(v, rest)
            && v == Some(WatchEvent::Reconcile) && rest == r1,
    ensures
        watching::recovered(ui.targets, ActionMode::Execute, false, false, r1) is Asks
            ==> asking::wanted(interactive::display_stage(ui, x)) == asking::wanted(
                watching::recovered(ui.targets, ActionMode::Execute, false, false, r1),
            ),
{
}

proof fn lemma_stage_reconciles(
    ui: UiView,
    t: Seq<ReplyView>,
    t1: Seq<ReplyView>,
)
    requires
        effect::asks_watch(EffectView::NextWatchEvent, t) matches Course::Ends(v, rest)
            && v == Some(WatchEvent::Reconcile) && rest == t1,
    ensures
        asking::leads(
            |s: Seq<ReplyView>| interactive::display_stage(ui, s),
            t,
            |s: Seq<ReplyView>| watching::recovered(
                ui.targets,
                ActionMode::Execute,
                false,
                false,
                s,
            ),
            t1,
        ),
        asking::carries(
            |s: Seq<ReplyView>| interactive::display_stage(ui, s),
            t,
            |s: Seq<ReplyView>| watching::recovered(
                ui.targets,
                ActionMode::Execute,
                false,
                false,
                s,
            ),
            t1,
        ),
{
    let p = |s: Seq<ReplyView>| interactive::display_stage(ui, s);
    let f = |s: Seq<ReplyView>| watching::recovered(
        ui.targets,
        ActionMode::Execute,
        false,
        false,
        s,
    );
    let q1 = |s: Seq<ReplyView>| effect::asks_watch(EffectView::NextWatchEvent, s);
    assert(asking::cuts(q1, t, t1)) by {
        front_laws::asks_watch_shrinks(EffectView::NextWatchEvent, t);
        front_laws::asks_watch_cut(EffectView::NextWatchEvent, t, 0);
        assert forall|j: int| 0 <= j <= t1.len() implies q1(
            #[trigger] t.take(t.len() - t1.len() + j),
        ) == Course::Ends(q1(t)->Ends_0, t1.take(j)) by {
            front_laws::asks_watch_cut(EffectView::NextWatchEvent, t, j);
        }
    }
    assert forall|x: Seq<ReplyView>, r1: Seq<ReplyView>| #[trigger]
        asking::step1(p, q1, f, q1(t)->Ends_0, x, r1) by {
        if q1(x) == Course::Ends(q1(t)->Ends_0, r1) {
            lemma_stage_reconciles_step(ui, x, r1);
        }
    }
    asking::lemma_behind1(p, q1, f, t, t1);
}

/// What is left of a round behind an event: the same stage once more, so that no
/// event is left waiting, and the list read and drawn anew.
pub open spec fn looks_again(ui: UiView, next: UiView) -> bool {
    next.stage == ui.stage && next.refresh && next.render && next.targets == ui.targets
}

/// Each event of the displays is answered: a change as such, and the others by a
/// recovery. Only where there is none is it the turn of the power events.
pub proof fn display_events_are_answered(ui: UiView, t: Seq<ReplyView>) -> (s: Seq<ReplyView>)
    requires
        interactive::display_stage(ui, t) is Ends,
    ensures
        ({
            let p = |x: Seq<ReplyView>| interactive::display_stage(ui, x);
            let next = interactive::display_stage(ui, t)->Ends_0;
            match effect::as_watch(t[0]) {
                None => next == (UiView { stage: Stage::Power, ..ui })
                    && interactive::display_stage(ui, t)->Ends_1 == t.skip(1),
                Some(WatchEvent::DisplayChanged(change)) => {
                    let f = |x: Seq<ReplyView>|
                        watching::change_answered(
                            ui.targets,
                            change,
                            ActionMode::Execute,
                            false,
                            false,
                            x,
                        );
                    looks_again(ui, next) && f(s) is Ends && asking::carries(p, t, f, s)
                },
                Some(WatchEvent::Reconcile) => {
                    let f = |x: Seq<ReplyView>|
                        watching::recovered(ui.targets, ActionMode::Execute, false, false, x);
                    looks_again(ui, next) && f(s) is Ends && asking::carries(p, t, f, s)
                },
            }
        }),
{
    let t1 = t.skip(1);
    match effect::as_watch(t[0]) {
        None => t1,
        Some(WatchEvent::DisplayChanged(change)) => {
            let t2 = files::logged(interactive::change_log(change), t1)->Ends_1;
            lemma_stage_changes(ui, change, t, t1, t2);
            t2
        },
        Some(WatchEvent::Reconcile) => {
            lemma_stage_reconciles(ui, t, t1);
            t1
        },
    }
}

proof fn lemma_power_guards_step(
    ui: UiView,
    event: PowerEvent,
    x: Seq<ReplyView>,
    r1: Seq<ReplyView>,
    r2: Seq<ReplyView>,
)
    requires
        effect::asks_power(EffectView::NextPowerEvent, x) matches Course::Ends(v, rest)
            && v == Some(event) && rest == r1,
        files::logged(
            "power: "@ + event.name() + " — running internal guard"@,
            r1,
        ) matches Course::Ends(v, rest)
            && rest == r2,
    ensures
        guard::guarded(event.name(), ActionMode::Execute, false, r2) is Asks
            ==> asking::wanted(interactive::power_stage(ui, x)) == asking::wanted(
                guard::guarded(event.name(), ActionMode::Execute, false, r2),
            ),
{
}

proof fn lemma_power_guards(
    ui: UiView,
    event: PowerEvent,
    t: Seq<ReplyView>,
    t1: Seq<ReplyView>,
    t2: Seq<ReplyView>,
)
    requires
        effect::asks_power(EffectView::NextPowerEvent, t) matches Course::Ends(v, rest)
            && v == Some(event) && rest == t1,
        files::logged(
            "power: "@ + event.name() + " — running internal guard"@,
            t1,
        ) matches Course::Ends(v, rest)
            && rest == t2,
    ensures
        asking::leads(
            |s: Seq<ReplyView>| interactive::power_stage(ui, s),
            t,
            |s: Seq<ReplyView>| guard::guarded(event.name(), ActionMode::Execute, false, s),
            t2,
        ),
        asking::carries(
            |s: Seq<ReplyView>| interactive::power_stage(ui, s),
            t,
            |s: Seq<ReplyView>| guard::guarded(event.name(), ActionMode::Execute, false, s),
            t2,
        ),
{
    let p = |s: Seq<ReplyView>| interactive::power_stage(ui, s);
    let f = |s: Seq<ReplyView>| guard::guarded(event.name(), ActionMode::Execute, false, s);
    let q1 = |s: Seq<ReplyView>| effect::asks_power(EffectView::NextPowerEvent, s);
    let q2 = |s: Seq<ReplyView>| files::logged(
        "power: "@ + event.name() + " — running internal guard"@,
        s,
    );
    assert(asking::cuts(q1, t, t1)) by {
        front_laws::asks_power_shrinks(EffectView::NextPowerEvent, t);
        front_laws::asks_power_cut(EffectView::NextPowerEvent, t, 0);
        assert forall|j: int| 0 <= j <= t1.len() implies q1(
            #[trigger] t.take(t.len() - t1.len() + j),
        ) == Course::Ends(q1(t)->Ends_0, t1.take(j)) by {
            front_laws::asks_power_cut(EffectView::NextPowerEvent, t, j);
        }
    }
    assert(asking::cuts(q2, t1, t2)) by {
        front_laws::logged_shrinks("power: "@ + event.name() + " — running internal guard"@, t1);
        front_laws::logged_cut("power: "@ + event.name() + " — running internal guard"@, t1, 0);
        assert forall|j: int| 0 <= j <= t2.len() implies q2(
            #[trigger] t1.take(t1.len() - t2.len() + j),
        ) == Course::Ends(q2(t1)->Ends_0, t2.take(j)) by {
            front_laws::logged_cut("power: "@ + event.name() + " — running internal guard"@, t1, j);
        }
    }
    assert forall|x: Seq<ReplyView>, r1: Seq<ReplyView>, r2: Seq<ReplyView>| #[trigger]
        asking::step2(p, q1, q2, f, q1(t)->Ends_0, q2(t1)->Ends_0, x, r1, r2) by {
        if q1(x) == Course::Ends(q1(t)->Ends_0, r1) && q2(r1) == Course::Ends(q2(t1)->Ends_0, r2) {
            lemma_power_guards_step(ui, event, x, r1, r2);
        }
    }
    asking::lemma_behind2(p, q1, q2, f, t, t1, t2);
}

/// Each power event is answered by the guard: the panel is left alone only where
/// the lid is closed or a display is on. Only where there is none is the list shown.
pub proof fn power_events_are_guarded(ui: UiView, t: Seq<ReplyView>)
    requires
        interactive::power_stage(ui, t) is Ends,
    ensures
        ({
            let p = |s: Seq<ReplyView>| interactive::power_stage(ui, s);
            let next = interactive::power_stage(ui, t)->Ends_0;
            match effect::as_power(t[0]) {
                None => next == (UiView { stage: Stage::Show, ..ui }),
                Some(_) => looks_again(ui, next) && (asking::met(
                    p,
                    t,
                    recovery_laws::lid_closed(),
                ) || asking::met(p, t, guard_laws::display_on()) || recovery_laws::called_back(
                    p,
                    t,
                )),
            }
        }),
{
    let t1 = t.skip(1);
    if let Some(event) = effect::as_power(t[0]) {
        let line = "power: "@ + event.name() + " — running internal guard"@;
        let t2 = files::logged(line, t1)->Ends_1;
        lemma_power_guards(ui, event, t, t1, t2);
        guard_laws::guard_ends_darkness(event.name(), false, t2);
    }
}

// ---------------------------------------------------------------------------
// Showing.
// ---------------------------------------------------------------------------
proof fn lemma_show_refreshes(
    ui: UiView,
    t: Seq<ReplyView>,
)
    requires
        ui.refresh,
    ensures
        asking::leads(
            |s: Seq<ReplyView>| interactive::show_stage(ui, s),
            t,
            |s: Seq<ReplyView>| interactive::list_refreshed(ui, s),
            t,
        ),
        asking::carries(
            |s: Seq<ReplyView>| interactive::show_stage(ui, s),
            t,
            |s: Seq<ReplyView>| interactive::list_refreshed(ui, s),
            t,
        ),
{
    let p = |s: Seq<ReplyView>| interactive::show_stage(ui, s);
    let f = |s: Seq<ReplyView>| interactive::list_refreshed(ui, s);
    assert(t =~= t.skip(t.len() - t.len()));
    assert forall|j: int| 0 <= j <= t.len() && f(t.take(j)) is Asks implies asking::wanted(
        p(#[trigger] t.take(t.len() - t.len() + j)),
    ) == asking::wanted(f(t.take(j))) by {}
    asking::lemma_met_later(p, t, f, t);
}

/// The end of a round reads the list where that is due, and begins the next round
/// with nothing due. Where nothing was due, nothing is asked for.
pub proof fn round_shows_what_is_due(ui: UiView, t: Seq<ReplyView>)
    ensures
        !ui.refresh && !ui.render ==> interactive::show_stage(ui, t) == Course::Ends(
            Ok::<UiView, Seq<char>>(UiView { stage: Stage::Input, ..ui }),
            t,
        ),
        ui.refresh ==> asking::carries(
            |s: Seq<ReplyView>| interactive::show_stage(ui, s),
            t,
            |s: Seq<ReplyView>| interactive::list_refreshed(ui, s),
            t,
        ),
        interactive::show_stage(ui, t) matches Course::Ends(r, _) ==> (r matches Ok(next)
            ==> !next.refresh && !next.render && next.stage == Stage::Input && (!ui.refresh
            ==> next.parsed == ui.parsed && next.selected == ui.selected)),
{
    if ui.refresh {
        lemma_show_refreshes(ui, t);
    }
}

/// What is shown after a refresh is what was listed, with what is remembered; where
/// the displays cannot be listed nothing is shown.
pub proof fn refresh_shows_what_was_listed(ui: UiView, t: Seq<ReplyView>)
    requires
        interactive::list_refreshed(ui, t) is Ends,
    ensures
        ({
            let next = interactive::list_refreshed(ui, t)->Ends_0;
            &&& next.targets == ui.targets
            &&& next.show_help == ui.show_help
            &&& match commands::as_list(effect::as_ran(t[0])) {
                Err(_) => next.parsed is None,
                Ok(parsed) => next.parsed is Some && next.parsed->0.displays.len()
                    >= parsed.displays.len() && (next.parsed->0.displays.len() > 0
                    ==> next.selected < next.parsed->0.displays.len()),
            }
        }),
{
    if let Ok(parsed) = commands::as_list(effect::as_ran(t[0])) {
        let t1 = t.skip(1);
        if let Course::Ends(_, t2) = files::list_remembered(parsed.displays, t1) {
            if let Course::Ends(r, _) = files::displays_merged(parsed.displays, t2) {
                if let Ok(displays) = r {
                    let known = effect::as_file(t2[0])->Ok_0;
                    let saved = effect::as_file(t2.skip(1)[0])->Ok_0;
                    lemma_merged_length(
                        state::remembered_and_saved(known, saved),
                        parsed.displays,
                    );
                }
            }
        }
    }
}

proof fn lemma_merged_length(remembered: Seq<DisplayView>, live: Seq<DisplayView>)
    ensures
        state::merged(remembered, live).len() >= live.len(),
    decreases remembered.len(),
{
    if remembered.len() > 0 {
        let at = state::known_at(live, remembered[0]);
        state::lemma_known_at(live, remembered[0]);
        if at < live.len() {
            lemma_merged_length(remembered.skip(1), live.remove(at));
        } else {
            lemma_merged_length(remembered.skip(1), live);
        }
    }
}

// ---------------------------------------------------------------------------
// Moving about.
// ---------------------------------------------------------------------------
/// The keys move the selection by one display, down to the last one and up to the
/// first one, and nothing else of the list. What moved is drawn anew.
pub proof fn keys_move_by_one(ui: UiView)
    ensures
        ({
            let down = interactive::moved_down(ui);
            let up = interactive::moved_up(ui);
            &&& ui.parsed matches Some(parsed) ==> (if ui.selected + 1 < parsed.displays.len() {
                down.selected == ui.selected + 1 && down.render
            } else {
                down == ui
            })
            &&& ui.parsed is None ==> down == ui
            &&& ui.selected > 0 ==> up.selected == ui.selected - 1
            &&& ui.selected == 0 ==> up.selected == 0
            &&& up.render
            &&& up.parsed == ui.parsed && down.parsed == ui.parsed
            &&& up.targets == ui.targets && down.targets == ui.targets
            &&& up.status == ui.status && down.status == ui.status
        }),
{
}

/// The arrows and the letters that stand for them do the same.
pub proof fn letters_move_as_arrows_do(ui: UiView, t: Seq<ReplyView>)
    ensures
        interactive::key_pressed(ui, Key::Char('j'), t) == interactive::key_pressed(
            ui,
            Key::Down,
            t,
        ),
        interactive::key_pressed(ui, Key::Char('k'), t) == interactive::key_pressed(ui, Key::Up, t),
        interactive::key_pressed(ui, Key::Down, t) == Course::Ends(
            Ok::<Option<UiView>, Seq<char>>(Some(interactive::moved_down(ui))),
            t,
        ),
        interactive::key_pressed(ui, Key::Up, t) == Course::Ends(
            Ok::<Option<UiView>, Seq<char>>(Some(interactive::moved_up(ui))),
            t,
        ),
{
}

/// A new size of the terminal is taken over and drawn for, while the help is shown
/// as well. Nothing is asked for.
pub proof fn resizing_is_drawn_for(ui: UiView, columns: u16, t: Seq<ReplyView>)
    ensures
        interactive::input_handled(ui, Input::Resize(columns), t) == Course::Ends(
            Ok::<Option<UiView>, Seq<char>>(
                Some(UiView { width: columns as nat, render: true, ..ui }),
            ),
            t,
        ),
{
}

/// Without a selected display, the keys that are for one ask for nothing of it.
pub proof fn no_choice_no_toggle(ui: UiView, t: Seq<ReplyView>)
    requires
        ui.parsed matches Some(parsed) ==> ui.selected >= parsed.displays.len(),
    ensures
        interactive::toggle_pressed(ui, t) matches Course::Ends(next, rest) && rest == t
            && next.parsed == ui.parsed && next.targets == ui.targets,
        interactive::selection_targeted(ui, t) matches Course::Ends(_, rest) && rest == t,
{
}

/// A round goes through its stages: the input, the events of the displays, those of
/// the power, and the list.
pub proof fn input_comes_first(ui: UiView, t: Seq<ReplyView>)
    requires
        ui.stage == Stage::Input,
        t.len() > 0,
        effect::as_input(t[0]) matches Ok(input) && input is None,
    ensures
        interactive::stepped(ui, t) == Course::Ends(
            Ok::<Option<UiView>, Seq<char>>(Some(UiView { stage: Stage::Displays, ..ui })),
            t.skip(1),
        ),
{
}

// ---------------------------------------------------------------------------
// The status.
// ---------------------------------------------------------------------------
/// The status tells what was done about the panel, and what failed: a restore and a
/// switch-off are never told as the other, nor either as nothing.
pub proof fn status_tells_what_was_done(
    r: Result<AutoWatchAction, Seq<char>>,
    status: Seq<char>,
    disabled: Seq<char>,
    idle: Seq<char>,
)
    ensures
        match r {
            Ok(AutoWatchAction::RestoredInternal) => {
                &&& interactive::recovery_status(r, status) == "internal restore requested"@
                &&& interactive::event_status(r, disabled, idle) == "internal restore requested"@
            },
            Ok(AutoWatchAction::DisabledInternal) => {
                &&& interactive::recovery_status(r, status)
                    == "auto target matched; internal disabled"@
                &&& interactive::event_status(r, disabled, idle) == disabled
            },
            Ok(AutoWatchAction::Idle) => {
                &&& interactive::recovery_status(r, status) == status
                &&& interactive::event_status(r, disabled, idle) == idle
            },
            Err(error) => {
                &&& interactive::recovery_status(r, status) == "auto watch failed: "@ + error
                &&& interactive::event_status(r, disabled, idle) == "display recovery failed: "@
                    + error
            },
        },
{
}

} // verus!
