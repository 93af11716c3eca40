//! What the watcher is for: without its target, a dark panel is brought back.

use vstd::prelude::*;

use crate::asking;
use crate::commands;
use crate::display::DisplayView;
use crate::effect;
use crate::effect::{Course, EffectView, ReplyView};
use crate::files;
use crate::front_laws;
use crate::placer::ParsedView;
use crate::policy;
use crate::policy::{ActionMode, AutoWatchAction, DisplayChange};
use crate::policy_laws;
use crate::recovery_laws;
use crate::restore;
use crate::switching;
use crate::target;
use crate::target::TargetView;
use crate::watch;
use crate::watch::WatchView;
use crate::watching;

verus! {

proof fn lemma_acting_restores(
    displays: Seq<DisplayView>,
    target_present: bool,
    condition: Option<Seq<char>>,
    force: bool,
    verbose: bool,
    t: Seq<ReplyView>,
)
    requires
        policy::watch_decision(displays, target_present) == AutoWatchAction::RestoredInternal,
    ensures
        asking::leads(
            |s: Seq<ReplyView>| watching::watch_acted(
                displays,
                target_present,
                condition,
                ActionMode::Execute,
                force,
                verbose,
                s,
            ),
            t,
            |s: Seq<ReplyView>| restore::safety_restored(ActionMode::Execute, verbose, s),
            t,
        ),
        asking::carries(
            |s: Seq<ReplyView>| watching::watch_acted(
                displays,
                target_present,
                condition,
                ActionMode::Execute,
                force,
                verbose,
                s,
            ),
            t,
            |s: Seq<ReplyView>| restore::safety_restored(ActionMode::Execute, verbose, s),
            t,
        ),
{
    let p = |s: Seq<ReplyView>| watching::watch_acted(
        displays,
        target_present,
        condition,
        ActionMode::Execute,
        force,
        verbose,
        s,
    );
    let f = |s: Seq<ReplyView>| restore::safety_restored(ActionMode::Execute, verbose, s);
    assert(t =~= t.skip(t.len() - t.len()));
    assert forall|j: int| 0 <= j <= t.len() && f(t.take(j)) is Asks implies asking::wanted(
        p(#[trigger] t.take(t.len() - t.len() + j)),
    ) == asking::wanted(f(t.take(j))) by {}
    asking::lemma_met_later(p, t, f, t);
}

proof fn lemma_acting_disables(
    displays: Seq<DisplayView>,
    target_present: bool,
    condition: Option<Seq<char>>,
    force: bool,
    verbose: bool,
    t: Seq<ReplyView>,
)
    requires
        policy::watch_decision(displays, target_present) == AutoWatchAction::DisabledInternal,
    ensures
        asking::leads(
            |s: Seq<ReplyView>| watching::watch_acted(
                displays,
                target_present,
                condition,
                ActionMode::Execute,
                force,
                verbose,
                s,
            ),
            t,
            |s: Seq<ReplyView>| switching::internal_disabled(
                condition,
                ActionMode::Execute,
                force,
                false,
                verbose,
                s,
            ),
            t,
        ),
        asking::carries(
            |s: Seq<ReplyView>| watching::watch_acted(
                displays,
                target_present,
                condition,
                ActionMode::Execute,
                force,
                verbose,
                s,
            ),
            t,
            |s: Seq<ReplyView>| switching::internal_disabled(
                condition,
                ActionMode::Execute,
                force,
                false,
                verbose,
                s,
            ),
            t,
        ),
{
    let p = |s: Seq<ReplyView>| watching::watch_acted(
        displays,
        target_present,
        condition,
        ActionMode::Execute,
        force,
        verbose,
        s,
    );
    let f = |s: Seq<ReplyView>| switching::internal_disabled(
        condition,
        ActionMode::Execute,
        force,
        false,
        verbose,
        s,
    );
    assert(t =~= t.skip(t.len() - t.len()));
    assert forall|j: int| 0 <= j <= t.len() && f(t.take(j)) is Asks implies asking::wanted(
        p(#[trigger] t.take(t.len() - t.len() + j)),
    ) == asking::wanted(f(t.take(j))) by {}
    asking::lemma_met_later(p, t, f, t);
}

/// Where the target is not there and no panel is on, the watcher keeps the machine
/// safe, whatever the other displays are: the lid is closed, or the displays are
/// detected anew and the panel is lit. It ends well only where the lid is closed or
/// the panel said that it is active.
pub proof fn watcher_brings_the_panel_back(
    displays: Seq<DisplayView>,
    condition: Option<Seq<char>>,
    force: bool,
    verbose: bool,
    t: Seq<ReplyView>,
)
    requires
        policy_laws::panel_dark(displays),
        watching::watch_acted(displays, false, condition, ActionMode::Execute, force, verbose, t)
            is Ends,
    ensures
        ({
            let p = |s: Seq<ReplyView>|
                watching::watch_acted(
                    displays,
                    false,
                    condition,
                    ActionMode::Execute,
                    force,
                    verbose,
                    s,
                );
            let r = watching::watch_acted(
                displays,
                false,
                condition,
                ActionMode::Execute,
                force,
                verbose,
                t,
            )->Ends_0;
            &&& recovery_laws::kept_safe(p, t)
            &&& r matches Ok(action) ==> action == AutoWatchAction::RestoredInternal
                && recovery_laws::panel_safe(p, t)
        }),
{
    policy_laws::watcher_keeps_the_panel_against_the_target(displays, false);
    lemma_acting_restores(displays, false, condition, force, verbose, t);
    recovery_laws::safety_restore_keeps_safe(verbose, t);
}

/// The displays were asked for.
pub open spec fn listed() -> spec_fn(EffectView, ReplyView) -> bool {
    |e: EffectView, r: ReplyView|
        e == (EffectView::Run { program: "displayplacer"@, arguments: seq!["list"@] })
}

/// Where the target is there and a panel is on, the watcher goes about turning it
/// off: it looks at the displays once more. Where the panel is as it should be, it
/// asks for nothing.
pub proof fn watcher_turns_the_panel_off(
    displays: Seq<DisplayView>,
    target_present: bool,
    condition: Option<Seq<char>>,
    force: bool,
    verbose: bool,
    t: Seq<ReplyView>,
)
    ensures
        ({
            let p = |s: Seq<ReplyView>|
                watching::watch_acted(
                    displays,
                    target_present,
                    condition,
                    ActionMode::Execute,
                    force,
                    verbose,
                    s,
                );
            let f = |s: Seq<ReplyView>|
                switching::internal_disabled(
                    condition,
                    ActionMode::Execute,
                    force,
                    false,
                    verbose,
                    s,
                );
            &&& target_present && !policy_laws::panel_dark(displays) ==> asking::leads(
                p,
                t,
                f,
                t,
            ) && asking::carries(p, t, f, t)
            &&& (target_present <==> policy_laws::panel_dark(displays)) ==> p(t) == Course::Ends(
                Ok::<AutoWatchAction, Seq<char>>(AutoWatchAction::Idle),
                t,
            )
        }),
{
    policy_laws::watcher_keeps_the_panel_against_the_target(displays, target_present);
    if target_present && !policy_laws::panel_dark(displays) {
        lemma_acting_disables(displays, target_present, condition, force, verbose, t);
    }
}

// ---------------------------------------------------------------------------
// From the list on.
// ---------------------------------------------------------------------------
proof fn lemma_listing_restores_step(
    verbose: bool,
    error: Seq<char>,
    x: Seq<ReplyView>,
    r1: Seq<ReplyView>,
    r2: Seq<ReplyView>,
)
    requires
        commands::displays_listed(x) matches Course::Ends(v, rest)
            && v == Err::<ParsedView, Seq<char>>(error) && rest == r1,
        effect::warned_if(
            verbose,
            "warning: display state unavailable; requesting internal restore: "@ + error,
            r1,
        ) matches Course::Ends(v, rest)
            && rest == r2,
    ensures
        restore::safety_restored(ActionMode::Execute, verbose, r2) is Asks
            ==> asking::wanted(
                watching::listed_or_restored(ActionMode::Execute, verbose, x),
            ) == asking::wanted(restore::safety_restored(ActionMode::Execute, verbose, r2)),
{
}

proof fn lemma_listing_restores(
    verbose: bool,
    error: Seq<char>,
    t: Seq<ReplyView>,
    t1: Seq<ReplyView>,
    t2: Seq<ReplyView>,
)
    requires
        commands::displays_listed(t) matches Course::Ends(v, rest)
            && v == Err::<ParsedView, Seq<char>>(error) && rest == t1,
        effect::warned_if(
            verbose,
            "warning: display state unavailable; requesting internal restore: "@ + error,
            t1,
        ) matches Course::Ends(v, rest)
            && rest == t2,
    ensures
        asking::leads(
            |s: Seq<ReplyView>| watching::listed_or_restored(ActionMode::Execute, verbose, s),
            t,
            |s: Seq<ReplyView>| restore::safety_restored(ActionMode::Execute, verbose, s),
            t2,
        ),
        asking::carries(
            |s: Seq<ReplyView>| watching::listed_or_restored(ActionMode::Execute, verbose, s),
            t,
            |s: Seq<ReplyView>| restore::safety_restored(ActionMode::Execute, verbose, s),
            t2,
        ),
{
    let p = |s: Seq<ReplyView>| watching::listed_or_restored(ActionMode::Execute, verbose, s);
    let f = |s: Seq<ReplyView>| restore::safety_restored(ActionMode::Execute, verbose, s);
    let q1 = |s: Seq<ReplyView>| commands::displays_listed(s);
    let q2 = |s: Seq<ReplyView>| effect::warned_if(
        verbose,
        "warning: display state unavailable; requesting internal restore: "@ + error,
        s,
    );
    assert(asking::cuts(q1, t, t1)) by {
        front_laws::displays_listed_shrinks(t);
        front_laws::displays_listed_cut(t, 0);
        assert forall|j: int| 0 <= j <= t1.len() implies q1(
            #[trigger] t.take(t.len() - t1.len() + j),
        ) == Course::Ends(q1(t)->Ends_0, t1.take(j)) by {
            front_laws::displays_listed_cut(t, j);
        }
    }
    assert(asking::cuts(q2, t1, t2)) by {
        front_laws::warned_if_shrinks(
            verbose,
            "warning: display state unavailable; requesting internal restore: "@ + error,
            t1,
        );
        front_laws::warned_if_cut(
            verbose,
            "warning: display state unavailable; requesting internal restore: "@ + error,
            t1,
            0,
        );
        assert forall|j: int| 0 <= j <= t2.len() implies q2(
            #[trigger] t1.take(t1.len() - t2.len() + j),
        ) == Course::Ends(q2(t1)->Ends_0, t2.take(j)) by {
            front_laws::warned_if_cut(
                verbose,
                "warning: display state unavailable; requesting internal restore: "@ + error,
                t1,
                j,
            );
        }
    }
    assert forall|x: Seq<ReplyView>, r1: Seq<ReplyView>, r2: Seq<ReplyView>| #[trigger]
        asking::step2(p, q1, q2, f, q1(t)->Ends_0, q2(t1)->Ends_0, x, r1, r2) by {
        if q1(x) == Course::Ends(q1(t)->Ends_0, r1) && q2(r1) == Course::Ends(q2(t1)->Ends_0, r2) {
            lemma_listing_restores_step(verbose, error, x, r1, r2);
        }
    }
    asking::lemma_behind2(p, q1, q2, f, t, t1, t2);
}

proof fn lemma_blind_restores(verbose: bool, t: Seq<ReplyView>)
    requires
        watching::listed_or_restored(ActionMode::Execute, verbose, t) is Ends,
        commands::as_list(effect::as_ran(t[0])) is Err,
    ensures
        ({
            let p = |s: Seq<ReplyView>|
                watching::listed_or_restored(ActionMode::Execute, verbose, s);
            let r = watching::listed_or_restored(ActionMode::Execute, verbose, t)->Ends_0;
            &&& recovery_laws::kept_safe(p, t)
            &&& r is Ok ==> recovery_laws::panel_safe(p, t)
        }),
{
    if let Course::Ends(r, t1) = commands::displays_listed(t) {
        if let Err(error) = r {
            let line = "warning: display state unavailable; requesting internal restore: "@ + error;
            if let Course::Ends(_, t2) = effect::warned_if(verbose, line, t1) {
                lemma_listing_restores(verbose, error, t, t1, t2);
                recovery_laws::safety_restore_keeps_safe(verbose, t2);
            }
        }
    }
}

proof fn lemma_watch_lists(
    targets: Seq<TargetView>,
    force: bool,
    verbose: bool,
    t: Seq<ReplyView>,
)
    requires
        targets.len() > 0,
    ensures
        asking::leads(
            |s: Seq<ReplyView>| watching::targets_watched(
                targets,
                ActionMode::Execute,
                force,
                verbose,
                s,
            ),
            t,
            |s: Seq<ReplyView>| watching::listed_or_restored(ActionMode::Execute, verbose, s),
            t,
        ),
        asking::carries(
            |s: Seq<ReplyView>| watching::targets_watched(
                targets,
                ActionMode::Execute,
                force,
                verbose,
                s,
            ),
            t,
            |s: Seq<ReplyView>| watching::listed_or_restored(ActionMode::Execute, verbose, s),
            t,
        ),
{
    let p = |s: Seq<ReplyView>| watching::targets_watched(
        targets,
        ActionMode::Execute,
        force,
        verbose,
        s,
    );
    let f = |s: Seq<ReplyView>| watching::listed_or_restored(ActionMode::Execute, verbose, s);
    assert(t =~= t.skip(t.len() - t.len()));
    assert forall|j: int| 0 <= j <= t.len() && f(t.take(j)) is Asks implies asking::wanted(
        p(#[trigger] t.take(t.len() - t.len() + j)),
    ) == asking::wanted(f(t.take(j))) by {}
    asking::lemma_met_later(p, t, f, t);
}

proof fn lemma_watch_acts_step(
    targets: Seq<TargetView>,
    force: bool,
    verbose: bool,
    displays: Seq<DisplayView>,
    x: Seq<ReplyView>,
    r1: Seq<ReplyView>,
    r2: Seq<ReplyView>,
)
    requires
        targets.len() > 0,
        watching::listed_or_restored(ActionMode::Execute, verbose, x) matches Course::Ends(v, rest)
            && v is Ok && v->Ok_0 is Some && v->Ok_0->0.displays == displays && rest == r1,
        files::list_remembered(displays, r1) matches Course::Ends(v, rest) && rest == r2,
    ensures
        watching::watch_acted(
            displays,
            target::target_connected(targets, displays),
            None,
            ActionMode::Execute,
            force,
            verbose,
            r2,
        ) is Asks
            ==> asking::wanted(watching::targets_watched(targets, ActionMode::Execute, force, verbose, x)) == asking::wanted(
                watching::watch_acted(
                    displays,
                    target::target_connected(targets, displays),
                    None,
                    ActionMode::Execute,
                    force,
                    verbose,
                    r2,
                ),
            ),
{
}

proof fn lemma_watch_acts(
    targets: Seq<TargetView>,
    force: bool,
    verbose: bool,
    displays: Seq<DisplayView>,
    t: Seq<ReplyView>,
    t1: Seq<ReplyView>,
    t2: Seq<ReplyView>,
)
    requires
        targets.len() > 0,
        watching::listed_or_restored(ActionMode::Execute, verbose, t) matches Course::Ends(v, rest)
            && v is Ok && v->Ok_0 is Some && v->Ok_0->0.displays == displays && rest == t1,
        files::list_remembered(displays, t1) matches Course::Ends(v, rest) && rest == t2,
    ensures
        asking::leads(
            |s: Seq<ReplyView>| watching::targets_watched(
                targets,
                ActionMode::Execute,
                force,
                verbose,
                s,
            ),
            t,
            |s: Seq<ReplyView>| watching::watch_acted(
                displays,
                target::target_connected(targets, displays),
                None,
                ActionMode::Execute,
                force,
                verbose,
                s,
            ),
            t2,
        ),
        asking::carries(
            |s: Seq<ReplyView>| watching::targets_watched(
                targets,
                ActionMode::Execute,
                force,
                verbose,
                s,
            ),
            t,
            |s: Seq<ReplyView>| watching::watch_acted(
                displays,
                target::target_connected(targets, displays),
                None,
                ActionMode::Execute,
                force,
                verbose,
                s,
            ),
            t2,
        ),
{
    let p = |s: Seq<ReplyView>| watching::targets_watched(
        targets,
        ActionMode::Execute,
        force,
        verbose,
        s,
    );
    let f = |s: Seq<ReplyView>| watching::watch_acted(
        displays,
        target::target_connected(targets, displays),
        None,
        ActionMode::Execute,
        force,
        verbose,
        s,
    );
    let q1 = |s: Seq<ReplyView>| watching::listed_or_restored(ActionMode::Execute, verbose, s);
    let q2 = |s: Seq<ReplyView>| files::list_remembered(displays, s);
    assert(asking::cuts(q1, t, t1)) by {
        front_laws::listed_or_restored_shrinks(ActionMode::Execute, verbose, t);
        front_laws::listed_or_restored_cut(ActionMode::Execute, verbose, t, 0);
        assert forall|j: int| 0 <= j <= t1.len() implies q1(
            #[trigger] t.take(t.len() - t1.len() + j),
        ) == Course::Ends(q1(t)->Ends_0, t1.take(j)) by {
            front_laws::listed_or_restored_cut(ActionMode::Execute, verbose, t, j);
        }
    }
    assert(asking::cuts(q2, t1, t2)) by {
        front_laws::list_remembered_shrinks(displays, t1);
        front_laws::list_remembered_cut(displays, t1, 0);
        assert forall|j: int| 0 <= j <= t2.len() implies q2(
            #[trigger] t1.take(t1.len() - t2.len() + j),
        ) == Course::Ends(q2(t1)->Ends_0, t2.take(j)) by {
            front_laws::list_remembered_cut(displays, t1, j);
        }
    }
    assert forall|x: Seq<ReplyView>, r1: Seq<ReplyView>, r2: Seq<ReplyView>| #[trigger]
        asking::step2(p, q1, q2, f, q1(t)->Ends_0, q2(t1)->Ends_0, x, r1, r2) by {
        if q1(x) == Course::Ends(q1(t)->Ends_0, r1) && q2(r1) == Course::Ends(q2(t1)->Ends_0, r2) {
            lemma_watch_acts_step(targets, force, verbose, displays, x, r1, r2);
        }
    }
    asking::lemma_behind2(p, q1, q2, f, t, t1, t2);
}

/// Where there are targets, and the displays cannot be listed, or no target is
/// connected and no panel is on, one pass of the watcher keeps the machine safe,
/// and ends well only where the lid is closed or the panel said that it is active.
pub proof fn watching_keeps_safe(
    targets: Seq<TargetView>,
    force: bool,
    verbose: bool,
    t: Seq<ReplyView>,
)
    requires
        targets.len() > 0,
        watching::targets_watched(targets, ActionMode::Execute, force, verbose, t) is Ends,
        commands::as_list(effect::as_ran(t[0])) matches Ok(parsed) ==> policy_laws::panel_dark(
            parsed.displays,
        ) && !target::target_connected(targets, parsed.displays),
    ensures
        ({
            let p = |s: Seq<ReplyView>|
                watching::targets_watched(targets, ActionMode::Execute, force, verbose, s);
            let r = watching::targets_watched(
                targets,
                ActionMode::Execute,
                force,
                verbose,
                t,
            )->Ends_0;
            &&& recovery_laws::kept_safe(p, t)
            &&& r matches Ok(action) ==> action == AutoWatchAction::RestoredInternal
                && recovery_laws::panel_safe(p, t)
        }),
{
    match commands::as_list(effect::as_ran(t[0])) {
        Err(_) => {
            lemma_watch_lists(targets, force, verbose, t);
            lemma_blind_restores(verbose, t);
        },
        Ok(parsed) => {
            let displays = parsed.displays;
            let t1 = t.skip(1);
            if let Course::Ends(_, t2) = files::list_remembered(displays, t1) {
                lemma_watch_acts(targets, force, verbose, displays, t, t1, t2);
                watcher_brings_the_panel_back(displays, None, force, verbose, t2);
            }
        },
    }
}

proof fn lemma_raw_lists(
    name: Seq<char>,
    force: bool,
    verbose: bool,
    t: Seq<ReplyView>,
)
    ensures
        asking::leads(
            |s: Seq<ReplyView>| watching::raw_watched(name, ActionMode::Execute, force, verbose, s),
            t,
            |s: Seq<ReplyView>| watching::listed_or_restored(ActionMode::Execute, verbose, s),
            t,
        ),
        asking::carries(
            |s: Seq<ReplyView>| watching::raw_watched(name, ActionMode::Execute, force, verbose, s),
            t,
            |s: Seq<ReplyView>| watching::listed_or_restored(ActionMode::Execute, verbose, s),
            t,
        ),
{
    let p = |s: Seq<ReplyView>| watching::raw_watched(name, ActionMode::Execute, force, verbose, s);
    let f = |s: Seq<ReplyView>| watching::listed_or_restored(ActionMode::Execute, verbose, s);
    assert(t =~= t.skip(t.len() - t.len()));
    assert forall|j: int| 0 <= j <= t.len() && f(t.take(j)) is Asks implies asking::wanted(
        p(#[trigger] t.take(t.len() - t.len() + j)),
    ) == asking::wanted(f(t.take(j))) by {}
    asking::lemma_met_later(p, t, f, t);
}

proof fn lemma_raw_acts_step(
    name: Seq<char>,
    force: bool,
    verbose: bool,
    displays: Seq<DisplayView>,
    present: bool,
    x: Seq<ReplyView>,
    r1: Seq<ReplyView>,
    r2: Seq<ReplyView>,
)
    requires
        !policy_laws::named_on(displays, name),
        watching::listed_or_restored(ActionMode::Execute, verbose, x) matches Course::Ends(v, rest)
            && v is Ok && v->Ok_0 is Some && v->Ok_0->0.displays == displays && rest == r1,
        files::list_remembered(displays, r1) matches Course::Ends(v, rest) && rest == r2,
    ensures
        watching::watch_acted(
            displays,
            crate::display::answering_on(displays, name),
            Some(name),
            ActionMode::Execute,
            force,
            verbose,
            r2,
        ) is Asks
            ==> asking::wanted(watching::raw_watched(name, ActionMode::Execute, force, verbose, x)) == asking::wanted(
                watching::watch_acted(
                    displays,
                    crate::display::answering_on(displays, name),
                    Some(name),
                    ActionMode::Execute,
                    force,
                    verbose,
                    r2,
                ),
            ),
{
}

proof fn lemma_raw_acts(
    name: Seq<char>,
    force: bool,
    verbose: bool,
    displays: Seq<DisplayView>,
    present: bool,
    t: Seq<ReplyView>,
    t1: Seq<ReplyView>,
    t2: Seq<ReplyView>,
)
    requires
        !policy_laws::named_on(displays, name),
        watching::listed_or_restored(ActionMode::Execute, verbose, t) matches Course::Ends(v, rest)
            && v is Ok && v->Ok_0 is Some && v->Ok_0->0.displays == displays && rest == t1,
        files::list_remembered(displays, t1) matches Course::Ends(v, rest) && rest == t2,
    ensures
        asking::leads(
            |s: Seq<ReplyView>| watching::raw_watched(name, ActionMode::Execute, force, verbose, s),
            t,
            |s: Seq<ReplyView>| watching::watch_acted(
                displays,
                crate::display::answering_on(displays, name),
                Some(name),
                ActionMode::Execute,
                force,
                verbose,
                s,
            ),
            t2,
        ),
        asking::carries(
            |s: Seq<ReplyView>| watching::raw_watched(name, ActionMode::Execute, force, verbose, s),
            t,
            |s: Seq<ReplyView>| watching::watch_acted(
                displays,
                crate::display::answering_on(displays, name),
                Some(name),
                ActionMode::Execute,
                force,
                verbose,
                s,
            ),
            t2,
        ),
{
    let p = |s: Seq<ReplyView>| watching::raw_watched(name, ActionMode::Execute, force, verbose, s);
    let f = |s: Seq<ReplyView>| watching::watch_acted(
        displays,
        crate::display::answering_on(displays, name),
        Some(name),
        ActionMode::Execute,
        force,
        verbose,
        s,
    );
    let q1 = |s: Seq<ReplyView>| watching::listed_or_restored(ActionMode::Execute, verbose, s);
    let q2 = |s: Seq<ReplyView>| files::list_remembered(displays, s);
    assert(asking::cuts(q1, t, t1)) by {
        front_laws::listed_or_restored_shrinks(ActionMode::Execute, verbose, t);
        front_laws::listed_or_restored_cut(ActionMode::Execute, verbose, t, 0);
        assert forall|j: int| 0 <= j <= t1.len() implies q1(
            #[trigger] t.take(t.len() - t1.len() + j),
        ) == Course::Ends(q1(t)->Ends_0, t1.take(j)) by {
            front_laws::listed_or_restored_cut(ActionMode::Execute, verbose, t, j);
        }
    }
    assert(asking::cuts(q2, t1, t2)) by {
        front_laws::list_remembered_shrinks(displays, t1);
        front_laws::list_remembered_cut(displays, t1, 0);
        assert forall|j: int| 0 <= j <= t2.len() implies q2(
            #[trigger] t1.take(t1.len() - t2.len() + j),
        ) == Course::Ends(q2(t1)->Ends_0, t2.take(j)) by {
            front_laws::list_remembered_cut(displays, t1, j);
        }
    }
    assert forall|x: Seq<ReplyView>, r1: Seq<ReplyView>, r2: Seq<ReplyView>| #[trigger]
        asking::step2(p, q1, q2, f, q1(t)->Ends_0, q2(t1)->Ends_0, x, r1, r2) by {
        if q1(x) == Course::Ends(q1(t)->Ends_0, r1) && q2(r1) == Course::Ends(q2(t1)->Ends_0, r2) {
            lemma_raw_acts_step(name, force, verbose, displays, present, x, r1, r2);
        }
    }
    asking::lemma_behind2(p, q1, q2, f, t, t1, t2);
}

proof fn lemma_answering_off(displays: Seq<DisplayView>, name: Seq<char>)
    requires
        !policy_laws::named_on(displays, name),
    ensures
        !crate::display::answering_on(displays, name),
{
    assert forall|i: int| 0 <= i < displays.len() implies !((
    #[trigger] displays[i].on()) && displays[i].answers_to(name)) by {
        assert(displays[i].enabled != Some(true) || !displays[i].answers_to(name));
    }
}

/// So does one pass of the watcher for a display by its name, where none that is on
/// answers to it.
pub proof fn watching_by_name_keeps_safe(
    name: Seq<char>,
    force: bool,
    verbose: bool,
    t: Seq<ReplyView>,
)
    requires
        watching::raw_watched(name, ActionMode::Execute, force, verbose, t) is Ends,
        commands::as_list(effect::as_ran(t[0])) matches Ok(parsed) ==> policy_laws::panel_dark(
            parsed.displays,
        ) && !policy_laws::named_on(parsed.displays, name),
    ensures
        ({
            let p = |s: Seq<ReplyView>|
                watching::raw_watched(name, ActionMode::Execute, force, verbose, s);
            let r = watching::raw_watched(name, ActionMode::Execute, force, verbose, t)->Ends_0;
            &&& recovery_laws::kept_safe(p, t)
            &&& r matches Ok(action) ==> action == AutoWatchAction::RestoredInternal
                && recovery_laws::panel_safe(p, t)
        }),
{
    match commands::as_list(effect::as_ran(t[0])) {
        Err(_) => {
            lemma_raw_lists(name, force, verbose, t);
            lemma_blind_restores(verbose, t);
        },
        Ok(parsed) => {
            let displays = parsed.displays;
            let t1 = t.skip(1);
            lemma_answering_off(displays, name);
            if let Course::Ends(_, t2) = files::list_remembered(displays, t1) {
                lemma_raw_acts(name, force, verbose, displays, false, t, t1, t2);
                watcher_brings_the_panel_back(displays, Some(name), force, verbose, t2);
            }
        },
    }
}

// ---------------------------------------------------------------------------
// The safety net.
// ---------------------------------------------------------------------------
proof fn lemma_net_lists(
    verbose: bool,
    t: Seq<ReplyView>,
)
    ensures
        asking::leads(
            |s: Seq<ReplyView>| watching::darkness_ended(ActionMode::Execute, verbose, s),
            t,
            |s: Seq<ReplyView>| watching::listed_or_restored(ActionMode::Execute, verbose, s),
            t,
        ),
        asking::carries(
            |s: Seq<ReplyView>| watching::darkness_ended(ActionMode::Execute, verbose, s),
            t,
            |s: Seq<ReplyView>| watching::listed_or_restored(ActionMode::Execute, verbose, s),
            t,
        ),
{
    let p = |s: Seq<ReplyView>| watching::darkness_ended(ActionMode::Execute, verbose, s);
    let f = |s: Seq<ReplyView>| watching::listed_or_restored(ActionMode::Execute, verbose, s);
    assert(t =~= t.skip(t.len() - t.len()));
    assert forall|j: int| 0 <= j <= t.len() && f(t.take(j)) is Asks implies asking::wanted(
        p(#[trigger] t.take(t.len() - t.len() + j)),
    ) == asking::wanted(f(t.take(j))) by {}
    asking::lemma_met_later(p, t, f, t);
}

proof fn lemma_net_restores_step(
    verbose: bool,
    displays: Seq<DisplayView>,
    x: Seq<ReplyView>,
    r1: Seq<ReplyView>,
    r2: Seq<ReplyView>,
)
    requires
        policy::dark_decision(displays) == AutoWatchAction::RestoredInternal,
        watching::listed_or_restored(ActionMode::Execute, verbose, x) matches Course::Ends(v, rest)
            && v is Ok && v->Ok_0 is Some && v->Ok_0->0.displays == displays && rest == r1,
        files::list_remembered(displays, r1) matches Course::Ends(v, rest) && rest == r2,
    ensures
        restore::safety_restored(ActionMode::Execute, verbose, r2) is Asks
            ==> asking::wanted(watching::darkness_ended(ActionMode::Execute, verbose, x)) == asking::wanted(
                restore::safety_restored(ActionMode::Execute, verbose, r2),
            ),
{
}

proof fn lemma_net_restores(
    verbose: bool,
    displays: Seq<DisplayView>,
    t: Seq<ReplyView>,
    t1: Seq<ReplyView>,
    t2: Seq<ReplyView>,
)
    requires
        policy::dark_decision(displays) == AutoWatchAction::RestoredInternal,
        watching::listed_or_restored(ActionMode::Execute, verbose, t) matches Course::Ends(v, rest)
            && v is Ok && v->Ok_0 is Some && v->Ok_0->0.displays == displays && rest == t1,
        files::list_remembered(displays, t1) matches Course::Ends(v, rest) && rest == t2,
    ensures
        asking::leads(
            |s: Seq<ReplyView>| watching::darkness_ended(ActionMode::Execute, verbose, s),
            t,
            |s: Seq<ReplyView>| restore::safety_restored(ActionMode::Execute, verbose, s),
            t2,
        ),
        asking::carries(
            |s: Seq<ReplyView>| watching::darkness_ended(ActionMode::Execute, verbose, s),
            t,
            |s: Seq<ReplyView>| restore::safety_restored(ActionMode::Execute, verbose, s),
            t2,
        ),
{
    let p = |s: Seq<ReplyView>| watching::darkness_ended(ActionMode::Execute, verbose, s);
    let f = |s: Seq<ReplyView>| restore::safety_restored(ActionMode::Execute, verbose, s);
    let q1 = |s: Seq<ReplyView>| watching::listed_or_restored(ActionMode::Execute, verbose, s);
    let q2 = |s: Seq<ReplyView>| files::list_remembered(displays, s);
    assert(asking::cuts(q1, t, t1)) by {
        front_laws::listed_or_restored_shrinks(ActionMode::Execute, verbose, t);
        front_laws::listed_or_restored_cut(ActionMode::Execute, verbose, t, 0);
        assert forall|j: int| 0 <= j <= t1.len() implies q1(
            #[trigger] t.take(t.len() - t1.len() + j),
        ) == Course::Ends(q1(t)->Ends_0, t1.take(j)) by {
            front_laws::listed_or_restored_cut(ActionMode::Execute, verbose, t, j);
        }
    }
    assert(asking::cuts(q2, t1, t2)) by {
        front_laws::list_remembered_shrinks(displays, t1);
        front_laws::list_remembered_cut(displays, t1, 0);
        assert forall|j: int| 0 <= j <= t2.len() implies q2(
            #[trigger] t1.take(t1.len() - t2.len() + j),
        ) == Course::Ends(q2(t1)->Ends_0, t2.take(j)) by {
            front_laws::list_remembered_cut(displays, t1, j);
        }
    }
    assert forall|x: Seq<ReplyView>, r1: Seq<ReplyView>, r2: Seq<ReplyView>| #[trigger]
        asking::step2(p, q1, q2, f, q1(t)->Ends_0, q2(t1)->Ends_0, x, r1, r2) by {
        if q1(x) == Course::Ends(q1(t)->Ends_0, r1) && q2(r1) == Course::Ends(q2(t1)->Ends_0, r2) {
            lemma_net_restores_step(verbose, displays, x, r1, r2);
        }
    }
    asking::lemma_behind2(p, q1, q2, f, t, t1, t2);
}

/// Where the displays cannot be listed, or none of them is on, the safety net keeps
/// the machine safe.
pub proof fn darkness_is_ended(verbose: bool, t: Seq<ReplyView>)
    requires
        watching::darkness_ended(ActionMode::Execute, verbose, t) is Ends,
        commands::as_list(effect::as_ran(t[0])) matches Ok(parsed) ==> policy_laws::dark(
            parsed.displays,
        ),
    ensures
        ({
            let p = |s: Seq<ReplyView>| watching::darkness_ended(ActionMode::Execute, verbose, s);
            let r = watching::darkness_ended(ActionMode::Execute, verbose, t)->Ends_0;
            &&& recovery_laws::kept_safe(p, t)
            &&& r matches Ok(action) ==> action == AutoWatchAction::RestoredInternal
                && recovery_laws::panel_safe(p, t)
        }),
{
    match commands::as_list(effect::as_ran(t[0])) {
        Err(_) => {
            lemma_net_lists(verbose, t);
            lemma_blind_restores(verbose, t);
        },
        Ok(parsed) => {
            let displays = parsed.displays;
            let t1 = t.skip(1);
            policy_laws::darkness_is_answered(displays);
            if let Course::Ends(_, t2) = files::list_remembered(displays, t1) {
                lemma_net_restores(verbose, displays, t, t1, t2);
                recovery_laws::safety_restore_keeps_safe(verbose, t2);
            }
        },
    }
}

proof fn lemma_change_restores_step(
    targets: Seq<TargetView>,
    change: DisplayChange,
    force: bool,
    verbose: bool,
    internal: Option<u32>,
    x: Seq<ReplyView>,
    r1: Seq<ReplyView>,
    r2: Seq<ReplyView>,
)
    requires
        policy::loss_decision(change, internal, false) == AutoWatchAction::RestoredInternal,
        files::panel_number_read(x) matches Course::Ends(v, rest)
            && v == Ok::<Option<u32>, Seq<char>>(internal) && rest == r1,
        effect::asks_flag(EffectView::AskBuiltin(change.display), r1) matches Course::Ends(v, rest)
            && !v && rest == r2,
    ensures
        restore::safety_restored(ActionMode::Execute, verbose, r2) is Asks
            ==> asking::wanted(
                watching::change_answered(targets, change, ActionMode::Execute, force, verbose, x),
            ) == asking::wanted(restore::safety_restored(ActionMode::Execute, verbose, r2)),
{
}

proof fn lemma_change_restores(
    targets: Seq<TargetView>,
    change: DisplayChange,
    force: bool,
    verbose: bool,
    internal: Option<u32>,
    t: Seq<ReplyView>,
    t1: Seq<ReplyView>,
    t2: Seq<ReplyView>,
)
    requires
        policy::loss_decision(change, internal, false) == AutoWatchAction::RestoredInternal,
        files::panel_number_read(t) matches Course::Ends(v, rest)
            && v == Ok::<Option<u32>, Seq<char>>(internal) && rest == t1,
        effect::asks_flag(EffectView::AskBuiltin(change.display), t1) matches Course::Ends(v, rest)
            && !v && rest == t2,
    ensures
        asking::leads(
            |s: Seq<ReplyView>| watching::change_answered(
                targets,
                change,
                ActionMode::Execute,
                force,
                verbose,
                s,
            ),
            t,
            |s: Seq<ReplyView>| restore::safety_restored(ActionMode::Execute, verbose, s),
            t2,
        ),
        asking::carries(
            |s: Seq<ReplyView>| watching::change_answered(
                targets,
                change,
                ActionMode::Execute,
                force,
                verbose,
                s,
            ),
            t,
            |s: Seq<ReplyView>| restore::safety_restored(ActionMode::Execute, verbose, s),
            t2,
        ),
{
    let p = |s: Seq<ReplyView>| watching::change_answered(
        targets,
        change,
        ActionMode::Execute,
        force,
        verbose,
        s,
    );
    let f = |s: Seq<ReplyView>| restore::safety_restored(ActionMode::Execute, verbose, s);
    let q1 = |s: Seq<ReplyView>| files::panel_number_read(s);
    let q2 = |s: Seq<ReplyView>| effect::asks_flag(EffectView::AskBuiltin(change.display), s);
    assert(asking::cuts(q1, t, t1)) by {
        front_laws::panel_number_read_shrinks(t);
        front_laws::panel_number_read_cut(t, 0);
        assert forall|j: int| 0 <= j <= t1.len() implies q1(
            #[trigger] t.take(t.len() - t1.len() + j),
        ) == Course::Ends(q1(t)->Ends_0, t1.take(j)) by {
            front_laws::panel_number_read_cut(t, j);
        }
    }
    assert(asking::cuts(q2, t1, t2)) by {
        front_laws::asks_flag_shrinks(EffectView::AskBuiltin(change.display), t1);
        front_laws::asks_flag_cut(EffectView::AskBuiltin(change.display), t1, 0);
        assert forall|j: int| 0 <= j <= t2.len() implies q2(
            #[trigger] t1.take(t1.len() - t2.len() + j),
        ) == Course::Ends(q2(t1)->Ends_0, t2.take(j)) by {
            front_laws::asks_flag_cut(EffectView::AskBuiltin(change.display), t1, j);
        }
    }
    assert forall|x: Seq<ReplyView>, r1: Seq<ReplyView>, r2: Seq<ReplyView>| #[trigger]
        asking::step2(p, q1, q2, f, q1(t)->Ends_0, q2(t1)->Ends_0, x, r1, r2) by {
        if q1(x) == Course::Ends(q1(t)->Ends_0, r1) && q2(r1) == Course::Ends(q2(t1)->Ends_0, r2) {
            lemma_change_restores_step(targets, change, force, verbose, internal, x, r1, r2);
        }
    }
    asking::lemma_behind2(p, q1, q2, f, t, t1, t2);
}

/// Where a display went away that is neither built in nor known as the panel, the
/// watcher keeps the machine safe before it looks at any list.
pub proof fn loss_keeps_safe(
    targets: Seq<TargetView>,
    change: DisplayChange,
    force: bool,
    verbose: bool,
    internal: Option<u32>,
    t: Seq<ReplyView>,
)
    requires
        (change.flags / 32) % 2 == 1 || (change.flags / 512) % 2 == 1,
        files::panel_number_read(t) == Course::Ends(
            Ok::<Option<u32>, Seq<char>>(internal),
            t.skip(1),
        ),
        t.len() > 1,
        t[1] == ReplyView::Flag(false),
        internal != Some(change.display),
        watching::change_answered(targets, change, ActionMode::Execute, force, verbose, t) is Ends,
    ensures
        ({
            let p = |s: Seq<ReplyView>|
                watching::change_answered(targets, change, ActionMode::Execute, force, verbose, s);
            let r = watching::change_answered(
                targets,
                change,
                ActionMode::Execute,
                force,
                verbose,
                t,
            )->Ends_0;
            &&& recovery_laws::kept_safe(p, t)
            &&& r matches Ok(action) ==> action == AutoWatchAction::RestoredInternal
                && recovery_laws::panel_safe(p, t)
        }),
{
    policy_laws::loss_is_answered(change, internal, false);
    let t1 = t.skip(1);
    let t2 = t1.skip(1);
    assert(t1[0] == t[1]);
    lemma_change_restores(targets, change, force, verbose, internal, t, t1, t2);
    recovery_laws::safety_restore_keeps_safe(verbose, t2);
}

// ---------------------------------------------------------------------------
// Rounds.
// ---------------------------------------------------------------------------
proof fn lemma_round_watches(
    w: WatchView,
    t: Seq<ReplyView>,
)
    requires
        w.mode == ActionMode::Execute && w.target is None,
    ensures
        asking::leads(
            |s: Seq<ReplyView>| watch::round_made(w, s),
            t,
            |s: Seq<ReplyView>| watching::targets_watched(
                w.targets,
                ActionMode::Execute,
                w.force,
                true,
                s,
            ),
            t,
        ),
        asking::carries(
            |s: Seq<ReplyView>| watch::round_made(w, s),
            t,
            |s: Seq<ReplyView>| watching::targets_watched(
                w.targets,
                ActionMode::Execute,
                w.force,
                true,
                s,
            ),
            t,
        ),
{
    let p = |s: Seq<ReplyView>| watch::round_made(w, s);
    let f = |s: Seq<ReplyView>| watching::targets_watched(
        w.targets,
        ActionMode::Execute,
        w.force,
        true,
        s,
    );
    assert(t =~= t.skip(t.len() - t.len()));
    assert forall|j: int| 0 <= j <= t.len() && f(t.take(j)) is Asks implies asking::wanted(
        p(#[trigger] t.take(t.len() - t.len() + j)),
    ) == asking::wanted(f(t.take(j))) by {}
    asking::lemma_met_later(p, t, f, t);
}

proof fn lemma_round_watches_name(
    w: WatchView,
    name: Seq<char>,
    t: Seq<ReplyView>,
)
    requires
        w.mode == ActionMode::Execute && w.target == Some(name),
    ensures
        asking::leads(
            |s: Seq<ReplyView>| watch::round_made(w, s),
            t,
            |s: Seq<ReplyView>| watching::raw_watched(name, ActionMode::Execute, w.force, true, s),
            t,
        ),
        asking::carries(
            |s: Seq<ReplyView>| watch::round_made(w, s),
            t,
            |s: Seq<ReplyView>| watching::raw_watched(name, ActionMode::Execute, w.force, true, s),
            t,
        ),
{
    let p = |s: Seq<ReplyView>| watch::round_made(w, s);
    let f = |s: Seq<ReplyView>| watching::raw_watched(name, ActionMode::Execute, w.force, true, s);
    assert(t =~= t.skip(t.len() - t.len()));
    assert forall|j: int| 0 <= j <= t.len() && f(t.take(j)) is Asks implies asking::wanted(
        p(#[trigger] t.take(t.len() - t.len() + j)),
    ) == asking::wanted(f(t.take(j))) by {}
    asking::lemma_met_later(p, t, f, t);
}

/// What the watch is for is not there: no target is connected, or no display that
/// is on answers to the name.
pub open spec fn target_missing(w: WatchView, displays: Seq<DisplayView>) -> bool {
    match w.target {
        Some(name) => !policy_laws::named_on(displays, name),
        None => !target::target_connected(w.targets, displays),
    }
}

/// A round of the watch keeps the machine safe where the displays cannot be listed,
/// or what it is for is not there and no panel is on.
pub proof fn round_keeps_safe(w: WatchView, t: Seq<ReplyView>)
    requires
        w.mode == ActionMode::Execute,
        w.target is Some || w.targets.len() > 0,
        watch::round_made(w, t) is Ends,
        commands::as_list(effect::as_ran(t[0])) matches Ok(parsed) ==> policy_laws::panel_dark(
            parsed.displays,
        ) && target_missing(w, parsed.displays),
    ensures
        recovery_laws::kept_safe(|s: Seq<ReplyView>| watch::round_made(w, s), t),
{
    match w.target {
        Some(name) => {
            lemma_round_watches_name(w, name, t);
            watching_by_name_keeps_safe(name, w.force, true, t);
        },
        None => {
            lemma_round_watches(w, t);
            watching_keeps_safe(w.targets, w.force, true, t);
        },
    }
}

proof fn lemma_watch_goes_on_step(
    w: WatchView,
    x: Seq<ReplyView>,
    r1: Seq<ReplyView>,
)
    requires
        effect::asks_awaited(EffectView::AwaitWatchEvent, x) matches Course::Ends(v, rest)
            && v is Ok && rest == r1,
    ensures
        watch::round_made(w, r1) is Asks
            ==> asking::wanted(
                watch::watch_continued(w, x),
            ) == asking::wanted(watch::round_made(w, r1)),
{
}

proof fn lemma_watch_goes_on(
    w: WatchView,
    t: Seq<ReplyView>,
    t1: Seq<ReplyView>,
)
    requires
        effect::asks_awaited(EffectView::AwaitWatchEvent, t) matches Course::Ends(v, rest)
            && v is Ok && rest == t1,
    ensures
        asking::leads(
            |s: Seq<ReplyView>| watch::watch_continued(w, s),
            t,
            |s: Seq<ReplyView>| watch::round_made(w, s),
            t1,
        ),
        asking::carries(
            |s: Seq<ReplyView>| watch::watch_continued(w, s),
            t,
            |s: Seq<ReplyView>| watch::round_made(w, s),
            t1,
        ),
{
    let p = |s: Seq<ReplyView>| watch::watch_continued(w, s);
    let f = |s: Seq<ReplyView>| watch::round_made(w, s);
    let q1 = |s: Seq<ReplyView>| effect::asks_awaited(EffectView::AwaitWatchEvent, s);
    assert(asking::cuts(q1, t, t1)) by {
        front_laws::asks_awaited_shrinks(EffectView::AwaitWatchEvent, t);
        front_laws::asks_awaited_cut(EffectView::AwaitWatchEvent, t, 0);
        assert forall|j: int| 0 <= j <= t1.len() implies q1(
            #[trigger] t.take(t.len() - t1.len() + j),
        ) == Course::Ends(q1(t)->Ends_0, t1.take(j)) by {
            front_laws::asks_awaited_cut(EffectView::AwaitWatchEvent, t, j);
        }
    }
    assert forall|x: Seq<ReplyView>, r1: Seq<ReplyView>| #[trigger]
        asking::step1(p, q1, f, q1(t)->Ends_0, x, r1) by {
        if q1(x) == Course::Ends(q1(t)->Ends_0, r1) {
            lemma_watch_goes_on_step(w, x, r1);
        }
    }
    asking::lemma_behind1(p, q1, f, t, t1);
}

/// Each event is answered by a round, whatever the event. The watch ends only where
/// no event is to be had: a round that fails does not end it.
pub proof fn each_event_makes_a_round(w: WatchView, t: Seq<ReplyView>)
    requires
        watch::watch_continued(w, t) is Ends,
    ensures
        watch::watch_continued(w, t)->Ends_0 is Ok <==> (t[0] matches ReplyView::Awaited(event)
            && event is Ok),
        watch::watch_continued(w, t)->Ends_0 is Ok ==> {
            &&& asking::carries(
                |s: Seq<ReplyView>| watch::watch_continued(w, s),
                t,
                |s: Seq<ReplyView>| watch::round_made(w, s),
                t.skip(1),
            )
            &&& watch::round_made(w, t.skip(1)) is Ends
        },
{
    if let Course::Ends(r, t1) = effect::asks_awaited(EffectView::AwaitWatchEvent, t) {
        if r is Ok {
            lemma_watch_goes_on(w, t, t1);
        }
    }
}

/// Events are asked for, at intervals of at least a second.
pub open spec fn events_asked(interval: u64) -> spec_fn(EffectView, ReplyView) -> bool {
    |e: EffectView, r: ReplyView|
        e matches EffectView::StartDisplayEvents(seconds) && seconds >= 1 && (interval >= 1
            ==> seconds == interval)
}

/// A watch starts by asking for events.
pub proof fn watch_asks_for_events(w: WatchView, interval: u64, t: Seq<ReplyView>)
    requires
        watch::watch_begun(w, interval, t) is Ends,
    ensures
        asking::met(
            |s: Seq<ReplyView>| watch::watch_begun(w, interval, s),
            t,
            events_asked(interval),
        ),
{
    let p = |s: Seq<ReplyView>| watch::watch_begun(w, interval, s);
    assert(t.take(0).len() == 0);
    assert(asking::meets(p, t, events_asked(interval), 0));
}

/// A watch by name, and one for saved targets, starts only where there is something
/// to watch for, and it watches for just that.
pub proof fn watch_is_for_something(args: Seq<Seq<char>>, t: Seq<ReplyView>)
    requires
        watch::watch_run(args, t) matches Course::Ends(r, _) && r is Ok,
    ensures
        ({
            let w = watch::watch_run(args, t)->Ends_0->Ok_0;
            &&& w.target is Some || w.targets.len() > 0
            &&& crate::options::watch_given(args, crate::options::watch_defaults()) matches Ok(o)
                && w.target == o.target && w.mode == o.mode && w.force == o.force && (w.target
                is None ==> w.targets == target::targets_of_file(effect::as_file(t[0])->Ok_0))
        }),
{
}

// ---------------------------------------------------------------------------
// A target that is there.
// ---------------------------------------------------------------------------
/// A target is connected just where one of the displays that are on fits one of
/// the targets.
pub proof fn connected_means_on_and_fitting(targets: Seq<TargetView>, displays: Seq<DisplayView>)
    ensures
        target::target_connected(targets, displays) <==> exists|i: int, j: int|
            0 <= i < displays.len() && 0 <= j < targets.len() && displays[i].enabled == Some(true)
                && #[trigger] targets[j].fits(displays[i]),
{
    if target::target_connected(targets, displays) {
        let i = choose|i: int|
            0 <= i < displays.len() && #[trigger] displays[i].on() && target::any_fits(
                targets,
                displays[i],
            );
        let j = choose|j: int| 0 <= j < targets.len() && #[trigger] targets[j].fits(displays[i]);
        assert(targets[j].fits(displays[i]));
    }
    if exists|i: int, j: int|
        0 <= i < displays.len() && 0 <= j < targets.len() && displays[i].enabled == Some(true)
            && #[trigger] targets[j].fits(displays[i]) {
        let (i, j) = choose|i: int, j: int|
            0 <= i < displays.len() && 0 <= j < targets.len() && displays[i].enabled == Some(true)
                && #[trigger] targets[j].fits(displays[i]);
        assert(displays[i].on());
        assert(target::any_fits(targets, displays[i]));
    }
}

/// A round that fails is complained of, and one that did something is told of.
pub proof fn rounds_are_told_of(
    named: bool,
    r: Result<AutoWatchAction, Seq<char>>,
    t: Seq<ReplyView>,
)
    requires
        t.len() == 0,
    ensures
        match r {
            Err(_) => watch::round_said(named, r, t) matches Course::Asks(e) && e is Complain,
            Ok(action) => if action == AutoWatchAction::Idle {
                watch::round_said(named, r, t) is Ends
            } else {
                watch::round_said(named, r, t) matches Course::Asks(e) && e is Print
            },
        },
{
}

} // verus!
