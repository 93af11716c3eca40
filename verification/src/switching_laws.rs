//! What switching a display asks for.

use vstd::prelude::*;

use crate::asking;
use crate::commands;
use crate::display::DisplayView;
use crate::effect;
use crate::effect::{Course, EffectView, ReplyView};
use crate::files;
use crate::front_laws;
use crate::native;
use crate::number;
use crate::placer;
use crate::policy::ActionMode;
use crate::policy_laws;
use crate::recovery_laws;
use crate::restore;
use crate::restore_laws;
use crate::switching;

verus! {

// ---------------------------------------------------------------------------
// By id.
// ---------------------------------------------------------------------------
/// The command that switches a display by its id.
pub open spec fn switch_command(id: Seq<char>, enabled: bool) -> EffectView {
    EffectView::Run {
        program: "displayplacer"@,
        arguments: seq![
            if enabled {
                "id:"@ + id + " enabled:true"@
            } else {
                "id:"@ + id + " enabled:false"@
            },
        ],
    }
}

/// The command was run to switch the display.
pub open spec fn switched(id: Seq<char>, enabled: bool) -> spec_fn(EffectView, ReplyView) -> bool {
    |e: EffectView, r: ReplyView| e == switch_command(id, enabled)
}

/// The command was run to switch the display, and it went well.
pub open spec fn switched_well(id: Seq<char>, enabled: bool) -> spec_fn(
    EffectView,
    ReplyView,
) -> bool {
    |e: EffectView, r: ReplyView|
        e == switch_command(id, enabled) && (r matches ReplyView::Ran(Ok(capture))
            && capture.success)
}

proof fn lemma_switch_runs_step(
    id: Seq<char>,
    enabled: bool,
    verbose: bool,
    x: Seq<ReplyView>,
    r1: Seq<ReplyView>,
)
    requires
        effect::said_if(
            verbose,
            "running: displayplacer \""@ + placer::switch_argument(id, enabled) + "\""@,
            x,
        ) matches Course::Ends(v, rest)
            && rest == r1,
    ensures
        effect::asks_ran(
            EffectView::Run { program: "displayplacer"@, arguments: seq![placer::switch_argument(id, enabled)] },
            r1,
        ) is Asks
            ==> asking::wanted(commands::placer_switched(id, enabled, ActionMode::Execute, verbose, x)) == asking::wanted(
                effect::asks_ran(
                    EffectView::Run { program: "displayplacer"@, arguments: seq![placer::switch_argument(id, enabled)] },
                    r1,
                ),
            ),
{
}

proof fn lemma_switch_runs(
    id: Seq<char>,
    enabled: bool,
    verbose: bool,
    t: Seq<ReplyView>,
    t1: Seq<ReplyView>,
)
    requires
        effect::said_if(
            verbose,
            "running: displayplacer \""@ + placer::switch_argument(id, enabled) + "\""@,
            t,
        ) matches Course::Ends(v, rest)
            && rest == t1,
    ensures
        asking::leads(
            |s: Seq<ReplyView>| commands::placer_switched(
                id,
                enabled,
                ActionMode::Execute,
                verbose,
                s,
            ),
            t,
            |s: Seq<ReplyView>| effect::asks_ran(
                EffectView::Run { program: "displayplacer"@, arguments: seq![placer::switch_argument(id, enabled)] },
                s,
            ),
            t1,
        ),
        asking::carries(
            |s: Seq<ReplyView>| commands::placer_switched(
                id,
                enabled,
                ActionMode::Execute,
                verbose,
                s,
            ),
            t,
            |s: Seq<ReplyView>| effect::asks_ran(
                EffectView::Run { program: "displayplacer"@, arguments: seq![placer::switch_argument(id, enabled)] },
                s,
            ),
            t1,
        ),
{
    let p = |s: Seq<ReplyView>| commands::placer_switched(
        id,
        enabled,
        ActionMode::Execute,
        verbose,
        s,
    );
    let f = |s: Seq<ReplyView>| effect::asks_ran(
        EffectView::Run { program: "displayplacer"@, arguments: seq![placer::switch_argument(id, enabled)] },
        s,
    );
    let q1 = |s: Seq<ReplyView>| effect::said_if(
        verbose,
        "running: displayplacer \""@ + placer::switch_argument(id, enabled) + "\""@,
        s,
    );
    assert(asking::cuts(q1, t, t1)) by {
        front_laws::said_if_shrinks(
            verbose,
            "running: displayplacer \""@ + placer::switch_argument(id, enabled) + "\""@,
            t,
        );
        front_laws::said_if_cut(
            verbose,
            "running: displayplacer \""@ + placer::switch_argument(id, enabled) + "\""@,
            t,
            0,
        );
        assert forall|j: int| 0 <= j <= t1.len() implies q1(
            #[trigger] t.take(t.len() - t1.len() + j),
        ) == Course::Ends(q1(t)->Ends_0, t1.take(j)) by {
            front_laws::said_if_cut(
                verbose,
                "running: displayplacer \""@ + placer::switch_argument(id, enabled) + "\""@,
                t,
                j,
            );
        }
    }
    assert forall|x: Seq<ReplyView>, r1: Seq<ReplyView>| #[trigger]
        asking::step1(p, q1, f, q1(t)->Ends_0, x, r1) by {
        if q1(x) == Course::Ends(q1(t)->Ends_0, r1) {
            lemma_switch_runs_step(id, enabled, verbose, x, r1);
        }
    }
    asking::lemma_behind1(p, q1, f, t, t1);
}

proof fn lemma_switch_text(id: Seq<char>, enabled: bool)
    ensures
        switch_command(id, enabled) == (EffectView::Run {
            program: "displayplacer"@,
            arguments: seq![placer::switch_argument(id, enabled)],
        }),
{
    reveal_strlit("id:");
    reveal_strlit(" enabled:");
    reveal_strlit("true");
    reveal_strlit("false");
    reveal_strlit(" enabled:true");
    reveal_strlit(" enabled:false");
    let wanted = if enabled {
        "id:"@ + id + " enabled:true"@
    } else {
        "id:"@ + id + " enabled:false"@
    };
    assert(" enabled:"@ + "true"@ =~= " enabled:true"@);
    assert(" enabled:"@ + "false"@ =~= " enabled:false"@);
    assert(placer::switch_argument(id, enabled) =~= wanted);
}

/// A display is switched by the command that names its id, and this ends well just
/// where the command does.
pub proof fn switching_runs_the_command(
    id: Seq<char>,
    enabled: bool,
    verbose: bool,
    t: Seq<ReplyView>,
)
    requires
        commands::placer_switched(id, enabled, ActionMode::Execute, verbose, t) is Ends,
    ensures
        ({
            let p = |s: Seq<ReplyView>|
                commands::placer_switched(id, enabled, ActionMode::Execute, verbose, s);
            &&& asking::met(p, t, switched(id, enabled))
            &&& commands::placer_switched(id, enabled, ActionMode::Execute, verbose, t)->Ends_0
                is Ok ==> asking::met(p, t, switched_well(id, enabled))
        }),
{
    let argument = placer::switch_argument(id, enabled);
    let line = "running: displayplacer \""@ + argument + "\""@;
    lemma_switch_text(id, enabled);
    if let Course::Ends(_, t1) = effect::said_if(verbose, line, t) {
        lemma_switch_runs(id, enabled, verbose, t, t1);
        let f = |s: Seq<ReplyView>|
            effect::asks_ran(
                EffectView::Run { program: "displayplacer"@, arguments: seq![argument] },
                s,
            );
        assert(t1.take(0).len() == 0);
        assert(asking::meets(f, t1, switched(id, enabled), 0));
        assert(asking::met(f, t1, switched(id, enabled)));
        if commands::placer_switched(id, enabled, ActionMode::Execute, verbose, t)->Ends_0 is Ok {
            assert(asking::meets(f, t1, switched_well(id, enabled), 0));
            assert(asking::met(f, t1, switched_well(id, enabled)));
        }
    }
}

// ---------------------------------------------------------------------------
// The panel.
// ---------------------------------------------------------------------------
proof fn lemma_disabling_switches_step(
    condition: Option<Seq<char>>,
    force: bool,
    print_skips: bool,
    verbose: bool,
    displays: Seq<DisplayView>,
    id: Seq<char>,
    x: Seq<ReplyView>,
    r1: Seq<ReplyView>,
    r2: Seq<ReplyView>,
)
    requires
        switching::disable_decision(
            displays,
            condition,
            force,
        ) == switching::DisablePlanView::Switch(id),
        commands::displays_listed(x) matches Course::Ends(v, rest) && v is Ok
            && v->Ok_0.displays == displays && rest == r1,
        files::list_remembered(displays, r1) matches Course::Ends(v, rest) && rest == r2,
    ensures
        commands::placer_switched(id, false, ActionMode::Execute, verbose, r2) is Asks
            ==> asking::wanted(
                switching::internal_disabled(
                    condition,
                    ActionMode::Execute,
                    force,
                    print_skips,
                    verbose,
                    x,
                ),
            ) == asking::wanted(commands::placer_switched(
                id,
                false,
                ActionMode::Execute,
                verbose,
                r2,
            )),
{
}

proof fn lemma_disabling_switches(
    condition: Option<Seq<char>>,
    force: bool,
    print_skips: bool,
    verbose: bool,
    displays: Seq<DisplayView>,
    id: Seq<char>,
    t: Seq<ReplyView>,
    t1: Seq<ReplyView>,
    t2: Seq<ReplyView>,
)
    requires
        switching::disable_decision(
            displays,
            condition,
            force,
        ) == switching::DisablePlanView::Switch(id),
        commands::displays_listed(t) matches Course::Ends(v, rest) && v is Ok
            && v->Ok_0.displays == displays && rest == t1,
        files::list_remembered(displays, t1) matches Course::Ends(v, rest) && rest == t2,
    ensures
        asking::leads(
            |s: Seq<ReplyView>| switching::internal_disabled(
                condition,
                ActionMode::Execute,
                force,
                print_skips,
                verbose,
                s,
            ),
            t,
            |s: Seq<ReplyView>| commands::placer_switched(
                id,
                false,
                ActionMode::Execute,
                verbose,
                s,
            ),
            t2,
        ),
        asking::carries(
            |s: Seq<ReplyView>| switching::internal_disabled(
                condition,
                ActionMode::Execute,
                force,
                print_skips,
                verbose,
                s,
            ),
            t,
            |s: Seq<ReplyView>| commands::placer_switched(
                id,
                false,
                ActionMode::Execute,
                verbose,
                s,
            ),
            t2,
        ),
{
    let p = |s: Seq<ReplyView>| switching::internal_disabled(
        condition,
        ActionMode::Execute,
        force,
        print_skips,
        verbose,
        s,
    );
    let f = |s: Seq<ReplyView>| commands::placer_switched(
        id,
        false,
        ActionMode::Execute,
        verbose,
        s,
    );
    let q1 = |s: Seq<ReplyView>| commands::displays_listed(s);
    let q2 = |s: Seq<ReplyView>| files::list_remembered(displays, s);
    assert(asking::cuts(q1, t, t1)) by {
        front_laws::displays_listed_shrinks(t);
        front_laws::displays_listed_cut(t, 0);
        assert forall|j: int| 0 <= j <= t1.len() implies q1(
            #[trigger] t.take(t.len() - t1.len() + j),
        ) == Course::Ends(q1(t)->Ends_0, t1.take(j)) by {
            front_laws::displays_listed_cut(t, j);
        }
    }
    assert(asking::cuts(q2, t1, t2)) by {
        front_laws::list_remembered_shrinks(displays, t1);
        front_laws::list_remembered_cut(displays, t1, 0);
        assert forall|j: int| 0 <= j <= t2.len() implies q2(
            #[trigger] t1.take(t1.len() - t2.len() + j),
        ) == Course::Ends(q2(t1)->Ends_0, t2.take(j)) by {
            front_laws::list_remembered_cut(displays, t1, j);
        }
    }
    assert forall|x: Seq<ReplyView>, r1: Seq<ReplyView>, r2: Seq<ReplyView>| #[trigger]
        asking::step2(p, q1, q2, f, q1(t)->Ends_0, q2(t1)->Ends_0, x, r1, r2) by {
        if q1(x) == Course::Ends(q1(t)->Ends_0, r1) && q2(r1) == Course::Ends(q2(t1)->Ends_0, r2) {
            lemma_disabling_switches_step(
                condition,
                force,
                print_skips,
                verbose,
                displays,
                id,
                x,
                r1,
                r2,
            );
        }
    }
    asking::lemma_behind2(p, q1, q2, f, t, t1, t2);
}

/// Where the list shows a panel that is on and has an id, and two displays are on
/// or the request is forced, and the target that was asked for, if any, is on, the
/// panel is switched off by its id. The request ends well only where the command
/// does.
pub proof fn panel_is_switched_off(
    condition: Option<Seq<char>>,
    force: bool,
    print_skips: bool,
    verbose: bool,
    displays: Seq<DisplayView>,
    p: int,
    t: Seq<ReplyView>,
)
    requires
        t.len() > 0,
        commands::as_list(effect::as_ran(t[0])) matches Ok(parsed) && parsed.displays == displays,
        0 <= p < displays.len(),
        displays[p].internal(),
        displays[p].enabled == Some(true),
        displays[p].persistent_id is Some,
        forall|i: int|
            0 <= i < p ==> !((#[trigger] displays[i]).internal() && displays[i].enabled == Some(
                true,
            )),
        condition matches Some(name) ==> policy_laws::named_on(displays, name),
        force || exists|a: int, b: int| #[trigger] policy_laws::two_on(displays, a, b),
        switching::internal_disabled(condition, ActionMode::Execute, force, print_skips, verbose, t)
            is Ends,
    ensures
        ({
            let id = displays[p].persistent_id->0;
            let f = |s: Seq<ReplyView>|
                switching::internal_disabled(
                    condition,
                    ActionMode::Execute,
                    force,
                    print_skips,
                    verbose,
                    s,
                );
            &&& asking::met(f, t, switched(id, false))
            &&& switching::internal_disabled(
                condition,
                ActionMode::Execute,
                force,
                print_skips,
                verbose,
                t,
            )->Ends_0 is Ok ==> asking::met(f, t, switched_well(id, false))
        }),
{
    policy_laws::panel_is_turned_off_beside_another(displays, condition, force, p);
    let id = displays[p].persistent_id->0;
    let t1 = t.skip(1);
    if let Course::Ends(_, t2) = files::list_remembered(displays, t1) {
        lemma_disabling_switches(
            condition,
            force,
            print_skips,
            verbose,
            displays,
            id,
            t,
            t1,
            t2,
        );
        switching_runs_the_command(id, false, verbose, t2);
    }
}

/// Where the only display that is on is the panel, an unforced request to turn it
/// off is refused; where no panel is on, it is passed over; and where the displays
/// cannot be listed, it fails.
pub proof fn last_display_stays_on(
    condition: Option<Seq<char>>,
    mode: ActionMode,
    print_skips: bool,
    verbose: bool,
    t: Seq<ReplyView>,
)
    requires
        t.len() > 0,
        switching::internal_disabled(condition, mode, false, print_skips, verbose, t) is Ends,
    ensures
        ({
            let r = switching::internal_disabled(
                condition,
                mode,
                false,
                print_skips,
                verbose,
                t,
            )->Ends_0;
            match commands::as_list(effect::as_ran(t[0])) {
                Err(error) => r == Err::<(), Seq<char>>(error),
                Ok(parsed) => {
                    &&& policy_laws::panel_dark(parsed.displays) ==> r is Ok
                    &&& !policy_laws::panel_dark(parsed.displays) && condition is None && !(exists|
                        a: int,
                        b: int,
                    | #[trigger]
                        policy_laws::two_on(parsed.displays, a, b)) ==> r is Err
                },
            }
        }),
{
    if let Ok(parsed) = commands::as_list(effect::as_ran(t[0])) {
        let displays = parsed.displays;
        if policy_laws::panel_dark(displays) {
            policy_laws::dark_panel_is_not_turned_off(displays, condition, false);
        } else if condition is None {
            let p = policy_laws::first_lit_panel(displays);
            policy_laws::panel_is_turned_off_beside_another(displays, condition, false, p);
        }
    }
}

// ---------------------------------------------------------------------------
// One display.
// ---------------------------------------------------------------------------
proof fn lemma_one_switches_step(
    d: DisplayView,
    id: Seq<char>,
    x: Seq<ReplyView>,
    r1: Seq<ReplyView>,
    r2: Seq<ReplyView>,
)
    requires
        d.persistent_id == Some(id),
        commands::displays_listed(x) matches Course::Ends(v, rest) && v is Ok
            && crate::display::count_on(v->Ok_0.displays) > 1 && rest == r1,
        switching::display_noted(d, r1) matches Course::Ends(v, rest) && v is Ok && rest == r2,
    ensures
        commands::placer_switched(id, false, ActionMode::Execute, false, r2) is Asks
            ==> asking::wanted(switching::display_disabled(d, x)) == asking::wanted(
                commands::placer_switched(id, false, ActionMode::Execute, false, r2),
            ),
{
}

proof fn lemma_one_switches(
    d: DisplayView,
    id: Seq<char>,
    t: Seq<ReplyView>,
    t1: Seq<ReplyView>,
    t2: Seq<ReplyView>,
)
    requires
        d.persistent_id == Some(id),
        commands::displays_listed(t) matches Course::Ends(v, rest) && v is Ok
            && crate::display::count_on(v->Ok_0.displays) > 1 && rest == t1,
        switching::display_noted(d, t1) matches Course::Ends(v, rest) && v is Ok && rest == t2,
    ensures
        asking::leads(
            |s: Seq<ReplyView>| switching::display_disabled(d, s),
            t,
            |s: Seq<ReplyView>| commands::placer_switched(id, false, ActionMode::Execute, false, s),
            t2,
        ),
        asking::carries(
            |s: Seq<ReplyView>| switching::display_disabled(d, s),
            t,
            |s: Seq<ReplyView>| commands::placer_switched(id, false, ActionMode::Execute, false, s),
            t2,
        ),
{
    let p = |s: Seq<ReplyView>| switching::display_disabled(d, s);
    let f = |s: Seq<ReplyView>| commands::placer_switched(id, false, ActionMode::Execute, false, s);
    let q1 = |s: Seq<ReplyView>| commands::displays_listed(s);
    let q2 = |s: Seq<ReplyView>| switching::display_noted(d, s);
    assert(asking::cuts(q1, t, t1)) by {
        front_laws::displays_listed_shrinks(t);
        front_laws::displays_listed_cut(t, 0);
        assert forall|j: int| 0 <= j <= t1.len() implies q1(
            #[trigger] t.take(t.len() - t1.len() + j),
        ) == Course::Ends(q1(t)->Ends_0, t1.take(j)) by {
            front_laws::displays_listed_cut(t, j);
        }
    }
    assert(asking::cuts(q2, t1, t2)) by {
        front_laws::display_noted_shrinks(d, t1);
        front_laws::display_noted_cut(d, t1, 0);
        assert forall|j: int| 0 <= j <= t2.len() implies q2(
            #[trigger] t1.take(t1.len() - t2.len() + j),
        ) == Course::Ends(q2(t1)->Ends_0, t2.take(j)) by {
            front_laws::display_noted_cut(d, t1, j);
        }
    }
    assert forall|x: Seq<ReplyView>, r1: Seq<ReplyView>, r2: Seq<ReplyView>| #[trigger]
        asking::step2(p, q1, q2, f, q1(t)->Ends_0, q2(t1)->Ends_0, x, r1, r2) by {
        if q1(x) == Course::Ends(q1(t)->Ends_0, r1) && q2(r1) == Course::Ends(q2(t1)->Ends_0, r2) {
            lemma_one_switches_step(d, id, x, r1, r2);
        }
    }
    asking::lemma_behind2(p, q1, q2, f, t, t1, t2);
}

/// A display that is on and present is toggled by switching it off by its id. This
/// ends well only where the list showed two displays on, and the command went well.
pub proof fn lit_display_is_switched_off(d: DisplayView, t: Seq<ReplyView>)
    requires
        d.enabled == Some(true),
        !d.remembered_absent,
        switching::display_toggled(d, t) matches Course::Ends(r, _) && r is Ok,
    ensures
        d.persistent_id is Some,
        commands::as_list(effect::as_ran(t[0])) matches Ok(parsed) && exists|a: int, b: int|
            #[trigger] policy_laws::two_on(parsed.displays, a, b),
        asking::met(
            |s: Seq<ReplyView>| switching::display_toggled(d, s),
            t,
            switched_well(d.persistent_id->0, false),
        ),
{
    let id = d.persistent_id->0;
    if let Course::Ends(r, t1) = commands::displays_listed(t) {
        if let Ok(parsed) = r {
            policy_laws::counting_finds_two(parsed.displays);
            if let Course::Ends(_, t2) = switching::display_noted(d, t1) {
                lemma_one_switches(d, id, t, t1, t2);
                lemma_toggle_disables(d, t);
                switching_runs_the_command(id, false, false, t2);
            }
        }
    }
}

proof fn lemma_toggle_disables(
    d: DisplayView,
    t: Seq<ReplyView>,
)
    requires
        d.enabled == Some(true) && !d.remembered_absent,
    ensures
        asking::leads(
            |s: Seq<ReplyView>| switching::display_toggled(d, s),
            t,
            |s: Seq<ReplyView>| switching::display_disabled(d, s),
            t,
        ),
        asking::carries(
            |s: Seq<ReplyView>| switching::display_toggled(d, s),
            t,
            |s: Seq<ReplyView>| switching::display_disabled(d, s),
            t,
        ),
{
    let p = |s: Seq<ReplyView>| switching::display_toggled(d, s);
    let f = |s: Seq<ReplyView>| switching::display_disabled(d, s);
    assert(t =~= t.skip(t.len() - t.len()));
    assert forall|j: int| 0 <= j <= t.len() && f(t.take(j)) is Asks implies asking::wanted(
        p(#[trigger] t.take(t.len() - t.len() + j)),
    ) == asking::wanted(f(t.take(j))) by {}
    asking::lemma_met_later(p, t, f, t);
}

proof fn lemma_toggle_restores(
    d: DisplayView,
    t: Seq<ReplyView>,
)
    requires
        d.enabled == Some(false) || (d.enabled is Some && d.remembered_absent),
    ensures
        asking::leads(
            |s: Seq<ReplyView>| switching::display_toggled(d, s),
            t,
            |s: Seq<ReplyView>| switching::display_restored(d, s),
            t,
        ),
        asking::carries(
            |s: Seq<ReplyView>| switching::display_toggled(d, s),
            t,
            |s: Seq<ReplyView>| switching::display_restored(d, s),
            t,
        ),
{
    let p = |s: Seq<ReplyView>| switching::display_toggled(d, s);
    let f = |s: Seq<ReplyView>| switching::display_restored(d, s);
    assert(t =~= t.skip(t.len() - t.len()));
    assert forall|j: int| 0 <= j <= t.len() && f(t.take(j)) is Asks implies asking::wanted(
        p(#[trigger] t.take(t.len() - t.len() + j)),
    ) == asking::wanted(f(t.take(j))) by {}
    asking::lemma_met_later(p, t, f, t);
}

proof fn lemma_restoring_one(
    d: DisplayView,
    id: u32,
    t: Seq<ReplyView>,
)
    requires
        d.number() == Some(id),
    ensures
        asking::leads(
            |s: Seq<ReplyView>| switching::display_restored(d, s),
            t,
            |s: Seq<ReplyView>| restore::number_restored(id, ActionMode::Execute, false, s),
            t,
        ),
        asking::carries(
            |s: Seq<ReplyView>| switching::display_restored(d, s),
            t,
            |s: Seq<ReplyView>| restore::number_restored(id, ActionMode::Execute, false, s),
            t,
        ),
{
    let p = |s: Seq<ReplyView>| switching::display_restored(d, s);
    let f = |s: Seq<ReplyView>| restore::number_restored(id, ActionMode::Execute, false, s);
    assert(t =~= t.skip(t.len() - t.len()));
    assert forall|j: int| 0 <= j <= t.len() && f(t.take(j)) is Asks implies asking::wanted(
        p(#[trigger] t.take(t.len() - t.len() + j)),
    ) == asking::wanted(f(t.take(j))) by {}
    asking::lemma_met_later(p, t, f, t);
}

proof fn lemma_one_detects(
    id: u32,
    verbose: bool,
    t: Seq<ReplyView>,
)
    ensures
        asking::leads(
            |s: Seq<ReplyView>| restore::number_restored(id, ActionMode::Execute, verbose, s),
            t,
            |s: Seq<ReplyView>| native::detected(ActionMode::Execute, verbose, s),
            t,
        ),
        asking::carries(
            |s: Seq<ReplyView>| restore::number_restored(id, ActionMode::Execute, verbose, s),
            t,
            |s: Seq<ReplyView>| native::detected(ActionMode::Execute, verbose, s),
            t,
        ),
{
    let p = |s: Seq<ReplyView>| restore::number_restored(id, ActionMode::Execute, verbose, s);
    let f = |s: Seq<ReplyView>| native::detected(ActionMode::Execute, verbose, s);
    assert(t =~= t.skip(t.len() - t.len()));
    assert forall|j: int| 0 <= j <= t.len() && f(t.take(j)) is Asks implies asking::wanted(
        p(#[trigger] t.take(t.len() - t.len() + j)),
    ) == asking::wanted(f(t.take(j))) by {}
    asking::lemma_met_later(p, t, f, t);
}

proof fn lemma_one_lights_step(
    id: u32,
    verbose: bool,
    x: Seq<ReplyView>,
    r1: Seq<ReplyView>,
)
    requires
        native::detected(ActionMode::Execute, verbose, x) matches Course::Ends(v, rest) && v is Ok
            && rest == r1,
    ensures
        native::native_switched(id, true, ActionMode::Execute, verbose, r1) is Asks
            ==> asking::wanted(restore::number_restored(id, ActionMode::Execute, verbose, x)) == asking::wanted(
                native::native_switched(id, true, ActionMode::Execute, verbose, r1),
            ),
{
}

proof fn lemma_one_lights(
    id: u32,
    verbose: bool,
    t: Seq<ReplyView>,
    t1: Seq<ReplyView>,
)
    requires
        native::detected(ActionMode::Execute, verbose, t) matches Course::Ends(v, rest) && v is Ok
            && rest == t1,
    ensures
        asking::leads(
            |s: Seq<ReplyView>| restore::number_restored(id, ActionMode::Execute, verbose, s),
            t,
            |s: Seq<ReplyView>| native::native_switched(id, true, ActionMode::Execute, verbose, s),
            t1,
        ),
        asking::carries(
            |s: Seq<ReplyView>| restore::number_restored(id, ActionMode::Execute, verbose, s),
            t,
            |s: Seq<ReplyView>| native::native_switched(id, true, ActionMode::Execute, verbose, s),
            t1,
        ),
{
    let p = |s: Seq<ReplyView>| restore::number_restored(id, ActionMode::Execute, verbose, s);
    let f = |s: Seq<ReplyView>| native::native_switched(id, true, ActionMode::Execute, verbose, s);
    let q1 = |s: Seq<ReplyView>| native::detected(ActionMode::Execute, verbose, s);
    assert(asking::cuts(q1, t, t1)) by {
        front_laws::detected_shrinks(ActionMode::Execute, verbose, t);
        front_laws::detected_cut(ActionMode::Execute, verbose, t, 0);
        assert forall|j: int| 0 <= j <= t1.len() implies q1(
            #[trigger] t.take(t.len() - t1.len() + j),
        ) == Course::Ends(q1(t)->Ends_0, t1.take(j)) by {
            front_laws::detected_cut(ActionMode::Execute, verbose, t, j);
        }
    }
    assert forall|x: Seq<ReplyView>, r1: Seq<ReplyView>| #[trigger]
        asking::step1(p, q1, f, q1(t)->Ends_0, x, r1) by {
        if q1(x) == Course::Ends(q1(t)->Ends_0, r1) {
            lemma_one_lights_step(id, verbose, x, r1);
        }
    }
    asking::lemma_behind1(p, q1, f, t, t1);
}

proof fn lemma_native_begins_step(
    id: u32,
    verbose: bool,
    x: Seq<ReplyView>,
    r1: Seq<ReplyView>,
)
    requires
        effect::said_if(
            verbose,
            "running: "@ + native::configure_text(id, true),
            x,
        ) matches Course::Ends(v, rest)
            && rest == r1,
    ensures
        effect::asks_code(EffectView::BeginConfiguration, r1) is Asks
            ==> asking::wanted(
                native::native_switched(id, true, ActionMode::Execute, verbose, x),
            ) == asking::wanted(effect::asks_code(EffectView::BeginConfiguration, r1)),
{
}

proof fn lemma_native_begins(
    id: u32,
    verbose: bool,
    t: Seq<ReplyView>,
    t1: Seq<ReplyView>,
)
    requires
        effect::said_if(
            verbose,
            "running: "@ + native::configure_text(id, true),
            t,
        ) matches Course::Ends(v, rest)
            && rest == t1,
    ensures
        asking::leads(
            |s: Seq<ReplyView>| native::native_switched(id, true, ActionMode::Execute, verbose, s),
            t,
            |s: Seq<ReplyView>| effect::asks_code(EffectView::BeginConfiguration, s),
            t1,
        ),
        asking::carries(
            |s: Seq<ReplyView>| native::native_switched(id, true, ActionMode::Execute, verbose, s),
            t,
            |s: Seq<ReplyView>| effect::asks_code(EffectView::BeginConfiguration, s),
            t1,
        ),
{
    let p = |s: Seq<ReplyView>| native::native_switched(id, true, ActionMode::Execute, verbose, s);
    let f = |s: Seq<ReplyView>| effect::asks_code(EffectView::BeginConfiguration, s);
    let q1 = |s: Seq<ReplyView>| effect::said_if(
        verbose,
        "running: "@ + native::configure_text(id, true),
        s,
    );
    assert(asking::cuts(q1, t, t1)) by {
        front_laws::said_if_shrinks(verbose, "running: "@ + native::configure_text(id, true), t);
        front_laws::said_if_cut(verbose, "running: "@ + native::configure_text(id, true), t, 0);
        assert forall|j: int| 0 <= j <= t1.len() implies q1(
            #[trigger] t.take(t.len() - t1.len() + j),
        ) == Course::Ends(q1(t)->Ends_0, t1.take(j)) by {
            front_laws::said_if_cut(verbose, "running: "@ + native::configure_text(id, true), t, j);
        }
    }
    assert forall|x: Seq<ReplyView>, r1: Seq<ReplyView>| #[trigger]
        asking::step1(p, q1, f, q1(t)->Ends_0, x, r1) by {
        if q1(x) == Course::Ends(q1(t)->Ends_0, r1) {
            lemma_native_begins_step(id, verbose, x, r1);
        }
    }
    asking::lemma_behind1(p, q1, f, t, t1);
}

proof fn lemma_native_configures_step(
    id: u32,
    verbose: bool,
    x: Seq<ReplyView>,
    r1: Seq<ReplyView>,
    r2: Seq<ReplyView>,
)
    requires
        effect::said_if(
            verbose,
            "running: "@ + native::configure_text(id, true),
            x,
        ) matches Course::Ends(v, rest)
            && rest == r1,
        effect::asks_code(EffectView::BeginConfiguration, r1) matches Course::Ends(v, rest)
            && v == 0 && rest == r2,
    ensures
        native::configured(id, true, r2) is Asks
            ==> asking::wanted(
                native::native_switched(id, true, ActionMode::Execute, verbose, x),
            ) == asking::wanted(native::configured(id, true, r2)),
{
}

proof fn lemma_native_configures(
    id: u32,
    verbose: bool,
    t: Seq<ReplyView>,
    t1: Seq<ReplyView>,
    t2: Seq<ReplyView>,
)
    requires
        effect::said_if(
            verbose,
            "running: "@ + native::configure_text(id, true),
            t,
        ) matches Course::Ends(v, rest)
            && rest == t1,
        effect::asks_code(EffectView::BeginConfiguration, t1) matches Course::Ends(v, rest)
            && v == 0 && rest == t2,
    ensures
        asking::leads(
            |s: Seq<ReplyView>| native::native_switched(id, true, ActionMode::Execute, verbose, s),
            t,
            |s: Seq<ReplyView>| native::configured(id, true, s),
            t2,
        ),
        asking::carries(
            |s: Seq<ReplyView>| native::native_switched(id, true, ActionMode::Execute, verbose, s),
            t,
            |s: Seq<ReplyView>| native::configured(id, true, s),
            t2,
        ),
{
    let p = |s: Seq<ReplyView>| native::native_switched(id, true, ActionMode::Execute, verbose, s);
    let f = |s: Seq<ReplyView>| native::configured(id, true, s);
    let q1 = |s: Seq<ReplyView>| effect::said_if(
        verbose,
        "running: "@ + native::configure_text(id, true),
        s,
    );
    let q2 = |s: Seq<ReplyView>| effect::asks_code(EffectView::BeginConfiguration, s);
    assert(asking::cuts(q1, t, t1)) by {
        front_laws::said_if_shrinks(verbose, "running: "@ + native::configure_text(id, true), t);
        front_laws::said_if_cut(verbose, "running: "@ + native::configure_text(id, true), t, 0);
        assert forall|j: int| 0 <= j <= t1.len() implies q1(
            #[trigger] t.take(t.len() - t1.len() + j),
        ) == Course::Ends(q1(t)->Ends_0, t1.take(j)) by {
            front_laws::said_if_cut(verbose, "running: "@ + native::configure_text(id, true), t, j);
        }
    }
    assert(asking::cuts(q2, t1, t2)) by {
        front_laws::asks_code_shrinks(EffectView::BeginConfiguration, t1);
        front_laws::asks_code_cut(EffectView::BeginConfiguration, t1, 0);
        assert forall|j: int| 0 <= j <= t2.len() implies q2(
            #[trigger] t1.take(t1.len() - t2.len() + j),
        ) == Course::Ends(q2(t1)->Ends_0, t2.take(j)) by {
            front_laws::asks_code_cut(EffectView::BeginConfiguration, t1, j);
        }
    }
    assert forall|x: Seq<ReplyView>, r1: Seq<ReplyView>, r2: Seq<ReplyView>| #[trigger]
        asking::step2(p, q1, q2, f, q1(t)->Ends_0, q2(t1)->Ends_0, x, r1, r2) by {
        if q1(x) == Course::Ends(q1(t)->Ends_0, r1) && q2(r1) == Course::Ends(q2(t1)->Ends_0, r2) {
            lemma_native_configures_step(id, verbose, x, r1, r2);
        }
    }
    asking::lemma_behind2(p, q1, q2, f, t, t1, t2);
}

/// The display was asked to be switched on, and that was granted.
pub open spec fn configured_well(id: u32) -> spec_fn(EffectView, ReplyView) -> bool {
    |e: EffectView, r: ReplyView|
        e == (EffectView::ConfigureEnabled { display: id, enabled: true })
            && r == ReplyView::Code(0)
}

/// The configuration was completed, and that was granted.
pub open spec fn completed_well() -> spec_fn(EffectView, ReplyView) -> bool {
    |e: EffectView, r: ReplyView|
        e == EffectView::CompleteConfiguration && r == ReplyView::Code(0)
}

/// The configuration was given up.
pub open spec fn given_up() -> spec_fn(EffectView, ReplyView) -> bool {
    |e: EffectView, r: ReplyView| e == EffectView::CancelConfiguration
}

/// Switching a display on by its number asks for just that, unless no configuration
/// is to be had. It ends well only where the request was granted and the
/// configuration completed, and a request that was not granted is given up.
pub proof fn native_switch_configures(id: u32, verbose: bool, t: Seq<ReplyView>)
    requires
        native::native_switched(id, true, ActionMode::Execute, verbose, t) is Ends,
    ensures
        ({
            let p = |s: Seq<ReplyView>|
                native::native_switched(id, true, ActionMode::Execute, verbose, s);
            let r = native::native_switched(id, true, ActionMode::Execute, verbose, t)->Ends_0;
            &&& asking::met(p, t, restore_laws::begun())
            &&& asking::met(p, t, restore_laws::tried(id))
            &&& r is Ok ==> asking::met(p, t, configured_well(id)) && asking::met(
                p,
                t,
                completed_well(),
            )
        }),
{
    let line = "running: "@ + native::configure_text(id, true);
    if let Course::Ends(_, t1) = effect::said_if(verbose, line, t) {
        lemma_native_begins(id, verbose, t, t1);
        let f = |s: Seq<ReplyView>| effect::asks_code(EffectView::BeginConfiguration, s);
        assert(t1.take(0).len() == 0);
        assert(asking::meets(f, t1, restore_laws::begun(), 0));
        assert(asking::met(f, t1, restore_laws::begun()));
        if t1[0] == ReplyView::Code(0) {
            let t2 = t1.skip(1);
            lemma_native_configures(id, verbose, t, t1, t2);
            let g = |s: Seq<ReplyView>| native::configured(id, true, s);
            assert(t2.take(0).len() == 0);
            assert(asking::meets(g, t2, restore_laws::tried(id), 0));
            assert(asking::met(g, t2, restore_laws::tried(id)));
            if native::configured(id, true, t2)->Ends_0 is Ok {
                assert(asking::meets(g, t2, configured_well(id), 0));
                assert(asking::met(g, t2, configured_well(id)));
                assert(t2.skip(1)[0] == t2[1]);
                assert(t2.take(1).skip(1).len() == 0);
                assert(t2.take(1)[0] == t2[0]);
                assert(asking::meets(g, t2, completed_well(), 1));
                assert(asking::met(g, t2, completed_well()));
            }
        } else {
            assert(asking::meets(f, t1, restore_laws::tried(id), 0));
            assert(asking::met(f, t1, restore_laws::tried(id)));
        }
    }
}

/// A request that was not granted is given up, and the switch fails.
pub proof fn refused_configuration_is_given_up(id: u32, enabled: bool, t: Seq<ReplyView>)
    requires
        native::configured(id, enabled, t) is Ends,
        t[0] != ReplyView::Code(0),
    ensures
        native::configured(id, enabled, t)->Ends_0 is Err,
        asking::met(|s: Seq<ReplyView>| native::configured(id, enabled, s), t, given_up()),
{
    let p = |s: Seq<ReplyView>| native::configured(id, enabled, s);
    assert(t.take(1).skip(1).len() == 0);
    assert(t.take(1)[0] == t[0]);
    assert(asking::meets(p, t, given_up(), 1));
}

/// A display that is off, or absent, is toggled by a redetection and a request to
/// switch its number on. This ends well only where the request was granted.
pub proof fn dark_display_is_switched_on(d: DisplayView, id: u32, t: Seq<ReplyView>)
    requires
        d.enabled == Some(false) || (d.enabled is Some && d.remembered_absent),
        d.number() == Some(id),
        switching::display_toggled(d, t) is Ends,
    ensures
        ({
            let p = |s: Seq<ReplyView>| switching::display_toggled(d, s);
            &&& asking::met(p, t, recovery_laws::detection())
            &&& asking::met(p, t, recovery_laws::detection_failed()) || asking::met(
                p,
                t,
                restore_laws::tried(id),
            )
            &&& switching::display_toggled(d, t)->Ends_0 is Ok ==> asking::met(
                p,
                t,
                configured_well(id),
            )
        }),
{
    lemma_toggle_restores(d, t);
    lemma_restoring_one(d, id, t);
    lemma_one_detects(id, false, t);
    recovery_laws::detecting_is_asked_for(false, t);
    if let Course::Ends(r, t1) = native::detected(ActionMode::Execute, false, t) {
        if r is Ok {
            lemma_one_lights(id, false, t, t1);
            native_switch_configures(id, false, t1);
        }
    }
}

/// A display of which it is not known whether it is on is not toggled, and one that
/// is off and has no number is not switched on. Nothing is asked for.
pub proof fn unknown_displays_are_left_alone(d: DisplayView, t: Seq<ReplyView>)
    requires
        d.enabled is None || ((d.enabled == Some(false) || d.remembered_absent) && d.number()
            is None),
    ensures
        switching::display_toggled(d, t) matches Course::Ends(r, rest) && r is Err && rest == t,
{
}

/// The number of a display is its contextual id, where that reads as one.
pub proof fn number_is_the_contextual_id(d: DisplayView, n: u32)
    ensures
        d.number() == Some(n) <==> (d.contextual_id is Some && number::u32_value(
            d.contextual_id->0,
        ) == Ok::<u32, number::NumberError>(n)),
{
}

} // verus!
