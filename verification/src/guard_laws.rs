//! What the guard is for: a machine without a display gets its panel back.

use vstd::prelude::*;

use crate::asking;
use crate::commands;
use crate::display::DisplayView;
use crate::effect;
use crate::effect::{Course, EffectView, ReplyView};
use crate::files;
use crate::front_laws;
use crate::guard;
use crate::native_laws;
use crate::placer;
use crate::placer::CaptureView;
use crate::policy;
use crate::policy::{ActionMode, ClamshellState, GuardAction};
use crate::policy_laws;
use crate::recovery_laws;
use crate::restore;

verus! {

proof fn lemma_sleep_leads_step(
    x: Seq<ReplyView>,
    r1: Seq<ReplyView>,
)
    requires
        files::logged(
            "power: SystemWillSleep — restoring internal before sleep"@,
            x,
        ) matches Course::Ends(v, rest)
            && rest == r1,
    ensures
        guard::internal_only_restored(ActionMode::Execute, false, 1, r1) is Asks
            ==> asking::wanted(guard::sleep_prepared(ActionMode::Execute, x)) == asking::wanted(
                guard::internal_only_restored(ActionMode::Execute, false, 1, r1),
            ),
{
}

proof fn lemma_sleep_leads(
    t: Seq<ReplyView>,
    t1: Seq<ReplyView>,
)
    requires
        files::logged(
            "power: SystemWillSleep — restoring internal before sleep"@,
            t,
        ) matches Course::Ends(v, rest)
            && rest == t1,
    ensures
        asking::leads(
            |s: Seq<ReplyView>| guard::sleep_prepared(ActionMode::Execute, s),
            t,
            |s: Seq<ReplyView>| guard::internal_only_restored(ActionMode::Execute, false, 1, s),
            t1,
        ),
        asking::carries(
            |s: Seq<ReplyView>| guard::sleep_prepared(ActionMode::Execute, s),
            t,
            |s: Seq<ReplyView>| guard::internal_only_restored(ActionMode::Execute, false, 1, s),
            t1,
        ),
{
    let p = |s: Seq<ReplyView>| guard::sleep_prepared(ActionMode::Execute, s);
    let f = |s: Seq<ReplyView>| guard::internal_only_restored(ActionMode::Execute, false, 1, s);
    let q1 = |s: Seq<ReplyView>| files::logged(
        "power: SystemWillSleep — restoring internal before sleep"@,
        s,
    );
    assert(asking::cuts(q1, t, t1)) by {
        front_laws::logged_shrinks("power: SystemWillSleep — restoring internal before sleep"@, t);
        front_laws::logged_cut("power: SystemWillSleep — restoring internal before sleep"@, t, 0);
        assert forall|j: int| 0 <= j <= t1.len() implies q1(
            #[trigger] t.take(t.len() - t1.len() + j),
        ) == Course::Ends(q1(t)->Ends_0, t1.take(j)) by {
            front_laws::logged_cut(
                "power: SystemWillSleep — restoring internal before sleep"@,
                t,
                j,
            );
        }
    }
    assert forall|x: Seq<ReplyView>, r1: Seq<ReplyView>| #[trigger]
        asking::step1(p, q1, f, q1(t)->Ends_0, x, r1) by {
        if q1(x) == Course::Ends(q1(t)->Ends_0, r1) {
            lemma_sleep_leads_step(x, r1);
        }
    }
    asking::lemma_behind1(p, q1, f, t, t1);
}

// ---------------------------------------------------------------------------
// The guard.
// ---------------------------------------------------------------------------
proof fn lemma_acted_leads_step(
    verbose: bool,
    x: Seq<ReplyView>,
    r1: Seq<ReplyView>,
)
    requires
        effect::said_if(
            verbose,
            "guard: restoring internal display"@,
            x,
        ) matches Course::Ends(v, rest)
            && rest == r1,
    ensures
        guard::internal_only_restored(
            ActionMode::Execute,
            verbose,
            restore::INTERNAL_RESTORE_ATTEMPTS,
            r1,
        ) is Asks
            ==> asking::wanted(guard::guard_acted(GuardAction::RestoreInternal, ActionMode::Execute, verbose, x)) == asking::wanted(
                guard::internal_only_restored(
                    ActionMode::Execute,
                    verbose,
                    restore::INTERNAL_RESTORE_ATTEMPTS,
                    r1,
                ),
            ),
{
}

proof fn lemma_acted_leads(
    verbose: bool,
    t: Seq<ReplyView>,
    t1: Seq<ReplyView>,
)
    requires
        effect::said_if(
            verbose,
            "guard: restoring internal display"@,
            t,
        ) matches Course::Ends(v, rest)
            && rest == t1,
    ensures
        asking::leads(
            |s: Seq<ReplyView>| guard::guard_acted(
                GuardAction::RestoreInternal,
                ActionMode::Execute,
                verbose,
                s,
            ),
            t,
            |s: Seq<ReplyView>| guard::internal_only_restored(
                ActionMode::Execute,
                verbose,
                restore::INTERNAL_RESTORE_ATTEMPTS,
                s,
            ),
            t1,
        ),
        asking::carries(
            |s: Seq<ReplyView>| guard::guard_acted(
                GuardAction::RestoreInternal,
                ActionMode::Execute,
                verbose,
                s,
            ),
            t,
            |s: Seq<ReplyView>| guard::internal_only_restored(
                ActionMode::Execute,
                verbose,
                restore::INTERNAL_RESTORE_ATTEMPTS,
                s,
            ),
            t1,
        ),
{
    let p = |s: Seq<ReplyView>| guard::guard_acted(
        GuardAction::RestoreInternal,
        ActionMode::Execute,
        verbose,
        s,
    );
    let f = |s: Seq<ReplyView>| guard::internal_only_restored(
        ActionMode::Execute,
        verbose,
        restore::INTERNAL_RESTORE_ATTEMPTS,
        s,
    );
    let q1 = |s: Seq<ReplyView>| effect::said_if(verbose, "guard: restoring internal display"@, s);
    assert(asking::cuts(q1, t, t1)) by {
        front_laws::said_if_shrinks(verbose, "guard: restoring internal display"@, t);
        front_laws::said_if_cut(verbose, "guard: restoring internal display"@, t, 0);
        assert forall|j: int| 0 <= j <= t1.len() implies q1(
            #[trigger] t.take(t.len() - t1.len() + j),
        ) == Course::Ends(q1(t)->Ends_0, t1.take(j)) by {
            front_laws::said_if_cut(verbose, "guard: restoring internal display"@, t, j);
        }
    }
    assert forall|x: Seq<ReplyView>, r1: Seq<ReplyView>| #[trigger]
        asking::step1(p, q1, f, q1(t)->Ends_0, x, r1) by {
        if q1(x) == Course::Ends(q1(t)->Ends_0, r1) {
            lemma_acted_leads_step(verbose, x, r1);
        }
    }
    asking::lemma_behind1(p, q1, f, t, t1);
}

proof fn lemma_decided_leads_step(
    reason: Seq<char>,
    lid: ClamshellState,
    displays: Option<Seq<DisplayView>>,
    verbose: bool,
    x: Seq<ReplyView>,
    r1: Seq<ReplyView>,
)
    requires
        policy::guard_decision(lid, displays) == GuardAction::RestoreInternal,
        guard::guard_logged(
            reason,
            lid,
            displays,
            GuardAction::RestoreInternal,
            x,
        ) matches Course::Ends(v, rest)
            && rest == r1,
    ensures
        guard::guard_acted(GuardAction::RestoreInternal, ActionMode::Execute, verbose, r1) is Asks
            ==> asking::wanted(guard::guard_decided(reason, lid, displays, ActionMode::Execute, verbose, x)) == asking::wanted(
                guard::guard_acted(GuardAction::RestoreInternal, ActionMode::Execute, verbose, r1),
            ),
{
}

proof fn lemma_decided_leads(
    reason: Seq<char>,
    lid: ClamshellState,
    displays: Option<Seq<DisplayView>>,
    verbose: bool,
    t: Seq<ReplyView>,
    t1: Seq<ReplyView>,
)
    requires
        policy::guard_decision(lid, displays) == GuardAction::RestoreInternal,
        guard::guard_logged(
            reason,
            lid,
            displays,
            GuardAction::RestoreInternal,
            t,
        ) matches Course::Ends(v, rest)
            && rest == t1,
    ensures
        asking::leads(
            |s: Seq<ReplyView>| guard::guard_decided(
                reason,
                lid,
                displays,
                ActionMode::Execute,
                verbose,
                s,
            ),
            t,
            |s: Seq<ReplyView>| guard::guard_acted(
                GuardAction::RestoreInternal,
                ActionMode::Execute,
                verbose,
                s,
            ),
            t1,
        ),
        asking::carries(
            |s: Seq<ReplyView>| guard::guard_decided(
                reason,
                lid,
                displays,
                ActionMode::Execute,
                verbose,
                s,
            ),
            t,
            |s: Seq<ReplyView>| guard::guard_acted(
                GuardAction::RestoreInternal,
                ActionMode::Execute,
                verbose,
                s,
            ),
            t1,
        ),
{
    let p = |s: Seq<ReplyView>| guard::guard_decided(
        reason,
        lid,
        displays,
        ActionMode::Execute,
        verbose,
        s,
    );
    let f = |s: Seq<ReplyView>| guard::guard_acted(
        GuardAction::RestoreInternal,
        ActionMode::Execute,
        verbose,
        s,
    );
    let q1 = |s: Seq<ReplyView>| guard::guard_logged(
        reason,
        lid,
        displays,
        GuardAction::RestoreInternal,
        s,
    );
    assert(asking::cuts(q1, t, t1)) by {
        front_laws::guard_logged_shrinks(reason, lid, displays, GuardAction::RestoreInternal, t);
        front_laws::guard_logged_cut(reason, lid, displays, GuardAction::RestoreInternal, t, 0);
        assert forall|j: int| 0 <= j <= t1.len() implies q1(
            #[trigger] t.take(t.len() - t1.len() + j),
        ) == Course::Ends(q1(t)->Ends_0, t1.take(j)) by {
            front_laws::guard_logged_cut(reason, lid, displays, GuardAction::RestoreInternal, t, j);
        }
    }
    assert forall|x: Seq<ReplyView>, r1: Seq<ReplyView>| #[trigger]
        asking::step1(p, q1, f, q1(t)->Ends_0, x, r1) by {
        if q1(x) == Course::Ends(q1(t)->Ends_0, r1) {
            lemma_decided_leads_step(reason, lid, displays, verbose, x, r1);
        }
    }
    asking::lemma_behind1(p, q1, f, t, t1);
}

proof fn lemma_panel_restored(
    verbose: bool,
    attempts: u32,
    t: Seq<ReplyView>,
)
    ensures
        asking::leads(
            |s: Seq<ReplyView>| guard::internal_only_restored(
                ActionMode::Execute,
                verbose,
                attempts,
                s,
            ),
            t,
            |s: Seq<ReplyView>| restore::internal_restored(
                None,
                ActionMode::Execute,
                false,
                verbose,
                attempts,
                s,
            ),
            t,
        ),
        asking::carries(
            |s: Seq<ReplyView>| guard::internal_only_restored(
                ActionMode::Execute,
                verbose,
                attempts,
                s,
            ),
            t,
            |s: Seq<ReplyView>| restore::internal_restored(
                None,
                ActionMode::Execute,
                false,
                verbose,
                attempts,
                s,
            ),
            t,
        ),
{
    let p = |s: Seq<ReplyView>| guard::internal_only_restored(
        ActionMode::Execute,
        verbose,
        attempts,
        s,
    );
    let f = |s: Seq<ReplyView>| restore::internal_restored(
        None,
        ActionMode::Execute,
        false,
        verbose,
        attempts,
        s,
    );
    assert(t =~= t.skip(t.len() - t.len()));
    assert forall|j: int| 0 <= j <= t.len() && f(t.take(j)) is Asks implies asking::wanted(
        p(#[trigger] t.take(t.len() - t.len() + j)),
    ) == asking::wanted(f(t.take(j))) by {}
    asking::lemma_met_later(p, t, f, t);
}

proof fn lemma_panel_verified_step(
    verbose: bool,
    attempts: u32,
    x: Seq<ReplyView>,
    r1: Seq<ReplyView>,
)
    requires
        restore::internal_restored(
            None,
            ActionMode::Execute,
            false,
            verbose,
            attempts,
            x,
        ) matches Course::Ends(v, rest)
            && v is Ok && rest == r1,
    ensures
        guard::restore_verified(ActionMode::Execute, verbose, r1) is Asks
            ==> asking::wanted(
                guard::internal_only_restored(ActionMode::Execute, verbose, attempts, x),
            ) == asking::wanted(guard::restore_verified(ActionMode::Execute, verbose, r1)),
{
}

proof fn lemma_panel_verified(
    verbose: bool,
    attempts: u32,
    t: Seq<ReplyView>,
    t1: Seq<ReplyView>,
)
    requires
        restore::internal_restored(
            None,
            ActionMode::Execute,
            false,
            verbose,
            attempts,
            t,
        ) matches Course::Ends(v, rest)
            && v is Ok && rest == t1,
    ensures
        asking::leads(
            |s: Seq<ReplyView>| guard::internal_only_restored(
                ActionMode::Execute,
                verbose,
                attempts,
                s,
            ),
            t,
            |s: Seq<ReplyView>| guard::restore_verified(ActionMode::Execute, verbose, s),
            t1,
        ),
        asking::carries(
            |s: Seq<ReplyView>| guard::internal_only_restored(
                ActionMode::Execute,
                verbose,
                attempts,
                s,
            ),
            t,
            |s: Seq<ReplyView>| guard::restore_verified(ActionMode::Execute, verbose, s),
            t1,
        ),
{
    let p = |s: Seq<ReplyView>| guard::internal_only_restored(
        ActionMode::Execute,
        verbose,
        attempts,
        s,
    );
    let f = |s: Seq<ReplyView>| guard::restore_verified(ActionMode::Execute, verbose, s);
    let q1 = |s: Seq<ReplyView>| restore::internal_restored(
        None,
        ActionMode::Execute,
        false,
        verbose,
        attempts,
        s,
    );
    assert(asking::cuts(q1, t, t1)) by {
        front_laws::internal_restored_shrinks(
            None,
            ActionMode::Execute,
            false,
            verbose,
            attempts,
            t,
        );
        front_laws::internal_restored_cut(
            None,
            ActionMode::Execute,
            false,
            verbose,
            attempts,
            t,
            0,
        );
        assert forall|j: int| 0 <= j <= t1.len() implies q1(
            #[trigger] t.take(t.len() - t1.len() + j),
        ) == Course::Ends(q1(t)->Ends_0, t1.take(j)) by {
            front_laws::internal_restored_cut(
                None,
                ActionMode::Execute,
                false,
                verbose,
                attempts,
                t,
                j,
            );
        }
    }
    assert forall|x: Seq<ReplyView>, r1: Seq<ReplyView>| #[trigger]
        asking::step1(p, q1, f, q1(t)->Ends_0, x, r1) by {
        if q1(x) == Course::Ends(q1(t)->Ends_0, r1) {
            lemma_panel_verified_step(verbose, attempts, x, r1);
        }
    }
    asking::lemma_behind1(p, q1, f, t, t1);
}

proof fn lemma_panel_verified_still_step(
    verbose: bool,
    attempts: u32,
    error: Seq<char>,
    x: Seq<ReplyView>,
    r1: Seq<ReplyView>,
    r2: Seq<ReplyView>,
)
    requires
        restore::internal_restored(
            None,
            ActionMode::Execute,
            false,
            verbose,
            attempts,
            x,
        ) matches Course::Ends(v, rest)
            && v == Err::<(), Seq<char>>(error) && rest == r1,
        effect::warned_if(
            verbose,
            "warning: native internal restore failed: "@ + error,
            r1,
        ) matches Course::Ends(v, rest)
            && rest == r2,
    ensures
        guard::restore_verified(ActionMode::Execute, verbose, r2) is Asks
            ==> asking::wanted(
                guard::internal_only_restored(ActionMode::Execute, verbose, attempts, x),
            ) == asking::wanted(guard::restore_verified(ActionMode::Execute, verbose, r2)),
{
}

proof fn lemma_panel_verified_still(
    verbose: bool,
    attempts: u32,
    error: Seq<char>,
    t: Seq<ReplyView>,
    t1: Seq<ReplyView>,
    t2: Seq<ReplyView>,
)
    requires
        restore::internal_restored(
            None,
            ActionMode::Execute,
            false,
            verbose,
            attempts,
            t,
        ) matches Course::Ends(v, rest)
            && v == Err::<(), Seq<char>>(error) && rest == t1,
        effect::warned_if(
            verbose,
            "warning: native internal restore failed: "@ + error,
            t1,
        ) matches Course::Ends(v, rest)
            && rest == t2,
    ensures
        asking::leads(
            |s: Seq<ReplyView>| guard::internal_only_restored(
                ActionMode::Execute,
                verbose,
                attempts,
                s,
            ),
            t,
            |s: Seq<ReplyView>| guard::restore_verified(ActionMode::Execute, verbose, s),
            t2,
        ),
        asking::carries(
            |s: Seq<ReplyView>| guard::internal_only_restored(
                ActionMode::Execute,
                verbose,
                attempts,
                s,
            ),
            t,
            |s: Seq<ReplyView>| guard::restore_verified(ActionMode::Execute, verbose, s),
            t2,
        ),
{
    let p = |s: Seq<ReplyView>| guard::internal_only_restored(
        ActionMode::Execute,
        verbose,
        attempts,
        s,
    );
    let f = |s: Seq<ReplyView>| guard::restore_verified(ActionMode::Execute, verbose, s);
    let q1 = |s: Seq<ReplyView>| restore::internal_restored(
        None,
        ActionMode::Execute,
        false,
        verbose,
        attempts,
        s,
    );
    let q2 = |s: Seq<ReplyView>| effect::warned_if(
        verbose,
        "warning: native internal restore failed: "@ + error,
        s,
    );
    assert(asking::cuts(q1, t, t1)) by {
        front_laws::internal_restored_shrinks(
            None,
            ActionMode::Execute,
            false,
            verbose,
            attempts,
            t,
        );
        front_laws::internal_restored_cut(
            None,
            ActionMode::Execute,
            false,
            verbose,
            attempts,
            t,
            0,
        );
        assert forall|j: int| 0 <= j <= t1.len() implies q1(
            #[trigger] t.take(t.len() - t1.len() + j),
        ) == Course::Ends(q1(t)->Ends_0, t1.take(j)) by {
            front_laws::internal_restored_cut(
                None,
                ActionMode::Execute,
                false,
                verbose,
                attempts,
                t,
                j,
            );
        }
    }
    assert(asking::cuts(q2, t1, t2)) by {
        front_laws::warned_if_shrinks(
            verbose,
            "warning: native internal restore failed: "@ + error,
            t1,
        );
        front_laws::warned_if_cut(
            verbose,
            "warning: native internal restore failed: "@ + error,
            t1,
            0,
        );
        assert forall|j: int| 0 <= j <= t2.len() implies q2(
            #[trigger] t1.take(t1.len() - t2.len() + j),
        ) == Course::Ends(q2(t1)->Ends_0, t2.take(j)) by {
            front_laws::warned_if_cut(
                verbose,
                "warning: native internal restore failed: "@ + error,
                t1,
                j,
            );
        }
    }
    assert forall|x: Seq<ReplyView>, r1: Seq<ReplyView>, r2: Seq<ReplyView>| #[trigger]
        asking::step2(p, q1, q2, f, q1(t)->Ends_0, q2(t1)->Ends_0, x, r1, r2) by {
        if q1(x) == Course::Ends(q1(t)->Ends_0, r1) && q2(r1) == Course::Ends(q2(t1)->Ends_0, r2) {
            lemma_panel_verified_still_step(verbose, attempts, error, x, r1, r2);
        }
    }
    asking::lemma_behind2(p, q1, q2, f, t, t1, t2);
}

/// The command that tells the displays was started.
pub open spec fn list_started() -> spec_fn(EffectView, ReplyView) -> bool {
    |e: EffectView, r: ReplyView|
        e == (EffectView::Spawn { program: "displayplacer"@, arguments: seq!["list"@] })
}

proof fn lemma_verifying_lists(
    verbose: bool,
    t: Seq<ReplyView>,
)
    ensures
        asking::leads(
            |s: Seq<ReplyView>| guard::restore_verified(ActionMode::Execute, verbose, s),
            t,
            |s: Seq<ReplyView>| effect::asks_done(
                EffectView::Spawn { program: "displayplacer"@, arguments: seq!["list"@] },
                s,
            ),
            t,
        ),
        asking::carries(
            |s: Seq<ReplyView>| guard::restore_verified(ActionMode::Execute, verbose, s),
            t,
            |s: Seq<ReplyView>| effect::asks_done(
                EffectView::Spawn { program: "displayplacer"@, arguments: seq!["list"@] },
                s,
            ),
            t,
        ),
{
    let p = |s: Seq<ReplyView>| guard::restore_verified(ActionMode::Execute, verbose, s);
    let f = |s: Seq<ReplyView>| effect::asks_done(
        EffectView::Spawn { program: "displayplacer"@, arguments: seq!["list"@] },
        s,
    );
    assert(t =~= t.skip(t.len() - t.len()));
    assert forall|j: int| 0 <= j <= t.len() && f(t.take(j)) is Asks implies asking::wanted(
        p(#[trigger] t.take(t.len() - t.len() + j)),
    ) == asking::wanted(f(t.take(j))) by {}
    asking::lemma_met_later(p, t, f, t);
}

proof fn lemma_verifying_starts(verbose: bool, t: Seq<ReplyView>)
    requires
        guard::restore_verified(ActionMode::Execute, verbose, t) is Ends,
    ensures
        asking::met(
            |s: Seq<ReplyView>| guard::restore_verified(ActionMode::Execute, verbose, s),
            t,
            list_started(),
        ),
{
    lemma_verifying_lists(verbose, t);
    let f = |s: Seq<ReplyView>|
        effect::asks_done(
            EffectView::Spawn { program: "displayplacer"@, arguments: seq!["list"@] },
            s,
        );
    assert(t.take(0).len() == 0);
    assert(asking::meets(f, t, list_started(), 0));
    assert(asking::met(f, t, list_started()));
}

/// Bringing the panel back is a redetection and then lighting the panel, and the
/// displays are listed afterwards, whether or not that went well.
pub proof fn panel_is_called_back(verbose: bool, attempts: u32, t: Seq<ReplyView>)
    requires
        guard::internal_only_restored(ActionMode::Execute, verbose, attempts, t) is Ends,
    ensures
        ({
            let p = |s: Seq<ReplyView>|
                guard::internal_only_restored(ActionMode::Execute, verbose, attempts, s);
            recovery_laws::called_back(p, t) && asking::met(p, t, list_started())
        }),
{
    let whole = restore::internal_restored(None, ActionMode::Execute, false, verbose, attempts, t);
    lemma_panel_restored(verbose, attempts, t);
    recovery_laws::restoring_calls_back(None, false, verbose, attempts, t);
    if let Course::Ends(r, t1) = whole {
        match r {
            Ok(_) => {
                lemma_panel_verified(verbose, attempts, t, t1);
                lemma_verifying_starts(verbose, t1);
            },
            Err(error) => {
                let line = "warning: native internal restore failed: "@ + error;
                if let Course::Ends(_, t2) = effect::warned_if(verbose, line, t1) {
                    lemma_panel_verified_still(verbose, attempts, error, t, t1, t2);
                    lemma_verifying_starts(verbose, t2);
                }
            },
        }
    }
}

/// Before sleep the panel is called back.
pub proof fn sleep_calls_back(t: Seq<ReplyView>)
    requires
        guard::sleep_prepared(ActionMode::Execute, t) is Ends,
    ensures
        recovery_laws::called_back(
            |s: Seq<ReplyView>| guard::sleep_prepared(ActionMode::Execute, s),
            t,
        ),
{
    let line = "power: SystemWillSleep — restoring internal before sleep"@;
    let t1 = files::logged(line, t)->Ends_1;
    lemma_sleep_leads(t, t1);
    panel_is_called_back(false, 1, t1);
}

/// Where the lid is not closed, and the list is unavailable or shows no display on,
/// the guard detects the displays anew and then lights the panel.
pub proof fn guard_calls_back(
    reason: Seq<char>,
    lid: ClamshellState,
    displays: Option<Seq<DisplayView>>,
    verbose: bool,
    t: Seq<ReplyView>,
)
    requires
        lid != ClamshellState::Closed,
        displays matches Some(list) ==> policy_laws::dark(list),
        guard::guard_decided(reason, lid, displays, ActionMode::Execute, verbose, t) is Ends,
    ensures
        recovery_laws::called_back(
            |s: Seq<ReplyView>|
                guard::guard_decided(reason, lid, displays, ActionMode::Execute, verbose, s),
            t,
        ),
{
    policy_laws::guard_restores_a_dark_machine(lid, displays);
    let t1 = guard::guard_logged(reason, lid, displays, GuardAction::RestoreInternal, t)->Ends_1;
    lemma_decided_leads(reason, lid, displays, verbose, t, t1);
    let t2 = effect::said_if(verbose, "guard: restoring internal display"@, t1)->Ends_1;
    lemma_acted_leads(verbose, t1, t2);
    panel_is_called_back(verbose, restore::INTERNAL_RESTORE_ATTEMPTS, t2);
}

/// A list of displays was collected, and shows one that is on.
pub open spec fn display_on() -> spec_fn(EffectView, ReplyView) -> bool {
    |e: EffectView, r: ReplyView|
        e == EffectView::Collect && (r matches ReplyView::Ran(Ok(capture)) && shows_one_on(capture))
}

/// The output lists a display that is on.
pub open spec fn shows_one_on(capture: CaptureView) -> bool {
    placer::list_outcome(capture) matches Ok(parsed) && !policy_laws::dark(parsed.displays)
}

proof fn lemma_collected_list<T>(
    p: spec_fn(Seq<ReplyView>) -> Course<T>,
    t: Seq<ReplyView>,
    capture: CaptureView,
)
    requires
        asking::met(p, t, native_laws::collected(capture)),
        shows_one_on(capture),
    ensures
        asking::met(p, t, display_on()),
{
    let k = choose|k: int| asking::meets(p, t, native_laws::collected(capture), k);
    assert(asking::meets(p, t, display_on(), k));
}

proof fn lemma_listing_runs(
    timeout_ms: u32,
    t: Seq<ReplyView>,
)
    ensures
        asking::leads(
            |s: Seq<ReplyView>| commands::displays_listed_within(timeout_ms, s),
            t,
            |s: Seq<ReplyView>| commands::timed_run("displayplacer"@, seq!["list"@], timeout_ms, s),
            t,
        ),
        asking::carries(
            |s: Seq<ReplyView>| commands::displays_listed_within(timeout_ms, s),
            t,
            |s: Seq<ReplyView>| commands::timed_run("displayplacer"@, seq!["list"@], timeout_ms, s),
            t,
        ),
{
    let p = |s: Seq<ReplyView>| commands::displays_listed_within(timeout_ms, s);
    let f = |s: Seq<ReplyView>| commands::timed_run("displayplacer"@, seq!["list"@], timeout_ms, s);
    assert(t =~= t.skip(t.len() - t.len()));
    assert forall|j: int| 0 <= j <= t.len() && f(t.take(j)) is Asks implies asking::wanted(
        p(#[trigger] t.take(t.len() - t.len() + j)),
    ) == asking::wanted(f(t.take(j))) by {}
    asking::lemma_met_later(p, t, f, t);
}

proof fn lemma_listed_on(timeout_ms: u32, t: Seq<ReplyView>)
    requires
        commands::displays_listed_within(timeout_ms, t) matches Course::Ends(r, _) && r is Ok
            && !policy_laws::dark(r->Ok_0.displays),
    ensures
        asking::met(
            |s: Seq<ReplyView>| commands::displays_listed_within(timeout_ms, s),
            t,
            display_on(),
        ),
{
    lemma_listing_runs(timeout_ms, t);
    if let Course::Ends(r, t1) = commands::timed_run(
        "displayplacer"@,
        seq!["list"@],
        timeout_ms,
        t,
    ) {
        let capture = r->Ok_0;
        native_laws::output_is_what_was_collected(
            "displayplacer"@,
            seq!["list"@],
            timeout_ms,
            t,
            capture,
        );
        lemma_collected_list(
            |s: Seq<ReplyView>| commands::displays_listed_within(timeout_ms, s),
            t,
            capture,
        );
    }
}

proof fn lemma_guard_reads_step(
    reason: Seq<char>,
    verbose: bool,
    x: Seq<ReplyView>,
    r1: Seq<ReplyView>,
)
    requires
        effect::said_if(verbose, "guard: reason="@ + reason, x) matches Course::Ends(v, rest)
            && rest == r1,
    ensures
        restore::lid_read(verbose, r1) is Asks
            ==> asking::wanted(
                guard::guarded(reason, ActionMode::Execute, verbose, x),
            ) == asking::wanted(restore::lid_read(verbose, r1)),
{
}

proof fn lemma_guard_reads(
    reason: Seq<char>,
    verbose: bool,
    t: Seq<ReplyView>,
    t1: Seq<ReplyView>,
)
    requires
        effect::said_if(verbose, "guard: reason="@ + reason, t) matches Course::Ends(v, rest)
            && rest == t1,
    ensures
        asking::leads(
            |s: Seq<ReplyView>| guard::guarded(reason, ActionMode::Execute, verbose, s),
            t,
            |s: Seq<ReplyView>| restore::lid_read(verbose, s),
            t1,
        ),
        asking::carries(
            |s: Seq<ReplyView>| guard::guarded(reason, ActionMode::Execute, verbose, s),
            t,
            |s: Seq<ReplyView>| restore::lid_read(verbose, s),
            t1,
        ),
{
    let p = |s: Seq<ReplyView>| guard::guarded(reason, ActionMode::Execute, verbose, s);
    let f = |s: Seq<ReplyView>| restore::lid_read(verbose, s);
    let q1 = |s: Seq<ReplyView>| effect::said_if(verbose, "guard: reason="@ + reason, s);
    assert(asking::cuts(q1, t, t1)) by {
        front_laws::said_if_shrinks(verbose, "guard: reason="@ + reason, t);
        front_laws::said_if_cut(verbose, "guard: reason="@ + reason, t, 0);
        assert forall|j: int| 0 <= j <= t1.len() implies q1(
            #[trigger] t.take(t.len() - t1.len() + j),
        ) == Course::Ends(q1(t)->Ends_0, t1.take(j)) by {
            front_laws::said_if_cut(verbose, "guard: reason="@ + reason, t, j);
        }
    }
    assert forall|x: Seq<ReplyView>, r1: Seq<ReplyView>| #[trigger]
        asking::step1(p, q1, f, q1(t)->Ends_0, x, r1) by {
        if q1(x) == Course::Ends(q1(t)->Ends_0, r1) {
            lemma_guard_reads_step(reason, verbose, x, r1);
        }
    }
    asking::lemma_behind1(p, q1, f, t, t1);
}

proof fn lemma_guard_lists_step(
    reason: Seq<char>,
    verbose: bool,
    x: Seq<ReplyView>,
    r1: Seq<ReplyView>,
    r2: Seq<ReplyView>,
)
    requires
        effect::said_if(verbose, "guard: reason="@ + reason, x) matches Course::Ends(v, rest)
            && rest == r1,
        restore::lid_read(verbose, r1) matches Course::Ends(v, rest) && rest == r2,
    ensures
        commands::displays_listed_within(2000, r2) is Asks
            ==> asking::wanted(
                guard::guarded(reason, ActionMode::Execute, verbose, x),
            ) == asking::wanted(commands::displays_listed_within(2000, r2)),
{
}

proof fn lemma_guard_lists(
    reason: Seq<char>,
    verbose: bool,
    t: Seq<ReplyView>,
    t1: Seq<ReplyView>,
    t2: Seq<ReplyView>,
)
    requires
        effect::said_if(verbose, "guard: reason="@ + reason, t) matches Course::Ends(v, rest)
            && rest == t1,
        restore::lid_read(verbose, t1) matches Course::Ends(v, rest) && rest == t2,
    ensures
        asking::leads(
            |s: Seq<ReplyView>| guard::guarded(reason, ActionMode::Execute, verbose, s),
            t,
            |s: Seq<ReplyView>| commands::displays_listed_within(2000, s),
            t2,
        ),
        asking::carries(
            |s: Seq<ReplyView>| guard::guarded(reason, ActionMode::Execute, verbose, s),
            t,
            |s: Seq<ReplyView>| commands::displays_listed_within(2000, s),
            t2,
        ),
{
    let p = |s: Seq<ReplyView>| guard::guarded(reason, ActionMode::Execute, verbose, s);
    let f = |s: Seq<ReplyView>| commands::displays_listed_within(2000, s);
    let q1 = |s: Seq<ReplyView>| effect::said_if(verbose, "guard: reason="@ + reason, s);
    let q2 = |s: Seq<ReplyView>| restore::lid_read(verbose, s);
    assert(asking::cuts(q1, t, t1)) by {
        front_laws::said_if_shrinks(verbose, "guard: reason="@ + reason, t);
        front_laws::said_if_cut(verbose, "guard: reason="@ + reason, t, 0);
        assert forall|j: int| 0 <= j <= t1.len() implies q1(
            #[trigger] t.take(t.len() - t1.len() + j),
        ) == Course::Ends(q1(t)->Ends_0, t1.take(j)) by {
            front_laws::said_if_cut(verbose, "guard: reason="@ + reason, t, j);
        }
    }
    assert(asking::cuts(q2, t1, t2)) by {
        front_laws::lid_read_shrinks(verbose, t1);
        front_laws::lid_read_cut(verbose, t1, 0);
        assert forall|j: int| 0 <= j <= t2.len() implies q2(
            #[trigger] t1.take(t1.len() - t2.len() + j),
        ) == Course::Ends(q2(t1)->Ends_0, t2.take(j)) by {
            front_laws::lid_read_cut(verbose, t1, j);
        }
    }
    assert forall|x: Seq<ReplyView>, r1: Seq<ReplyView>, r2: Seq<ReplyView>| #[trigger]
        asking::step2(p, q1, q2, f, q1(t)->Ends_0, q2(t1)->Ends_0, x, r1, r2) by {
        if q1(x) == Course::Ends(q1(t)->Ends_0, r1) && q2(r1) == Course::Ends(q2(t1)->Ends_0, r2) {
            lemma_guard_lists_step(reason, verbose, x, r1, r2);
        }
    }
    asking::lemma_behind2(p, q1, q2, f, t, t1, t2);
}

proof fn lemma_guard_decides_step(
    reason: Seq<char>,
    verbose: bool,
    lid: ClamshellState,
    displays: Seq<DisplayView>,
    x: Seq<ReplyView>,
    r1: Seq<ReplyView>,
    r2: Seq<ReplyView>,
    r3: Seq<ReplyView>,
    r4: Seq<ReplyView>,
)
    requires
        effect::said_if(verbose, "guard: reason="@ + reason, x) matches Course::Ends(v, rest)
            && rest == r1,
        restore::lid_read(verbose, r1) matches Course::Ends(v, rest) && v == lid && rest == r2,
        commands::displays_listed_within(2000, r2) matches Course::Ends(v, rest) && v is Ok
            && v->Ok_0.displays == displays && rest == r3,
        guard::noted(ActionMode::Execute, displays, r3) matches Course::Ends(v, rest) && rest == r4,
    ensures
        guard::guard_decided(reason, lid, Some(displays), ActionMode::Execute, verbose, r4) is Asks
            ==> asking::wanted(guard::guarded(reason, ActionMode::Execute, verbose, x)) == asking::wanted(
                guard::guard_decided(reason, lid, Some(displays), ActionMode::Execute, verbose, r4),
            ),
{
}

proof fn lemma_guard_decides(
    reason: Seq<char>,
    verbose: bool,
    lid: ClamshellState,
    displays: Seq<DisplayView>,
    t: Seq<ReplyView>,
    t1: Seq<ReplyView>,
    t2: Seq<ReplyView>,
    t3: Seq<ReplyView>,
    t4: Seq<ReplyView>,
)
    requires
        effect::said_if(verbose, "guard: reason="@ + reason, t) matches Course::Ends(v, rest)
            && rest == t1,
        restore::lid_read(verbose, t1) matches Course::Ends(v, rest) && v == lid && rest == t2,
        commands::displays_listed_within(2000, t2) matches Course::Ends(v, rest) && v is Ok
            && v->Ok_0.displays == displays && rest == t3,
        guard::noted(ActionMode::Execute, displays, t3) matches Course::Ends(v, rest) && rest == t4,
    ensures
        asking::leads(
            |s: Seq<ReplyView>| guard::guarded(reason, ActionMode::Execute, verbose, s),
            t,
            |s: Seq<ReplyView>| guard::guard_decided(
                reason,
                lid,
                Some(displays),
                ActionMode::Execute,
                verbose,
                s,
            ),
            t4,
        ),
        asking::carries(
            |s: Seq<ReplyView>| guard::guarded(reason, ActionMode::Execute, verbose, s),
            t,
            |s: Seq<ReplyView>| guard::guard_decided(
                reason,
                lid,
                Some(displays),
                ActionMode::Execute,
                verbose,
                s,
            ),
            t4,
        ),
{
    let p = |s: Seq<ReplyView>| guard::guarded(reason, ActionMode::Execute, verbose, s);
    let f = |s: Seq<ReplyView>| guard::guard_decided(
        reason,
        lid,
        Some(displays),
        ActionMode::Execute,
        verbose,
        s,
    );
    let q1 = |s: Seq<ReplyView>| effect::said_if(verbose, "guard: reason="@ + reason, s);
    let q2 = |s: Seq<ReplyView>| restore::lid_read(verbose, s);
    let q3 = |s: Seq<ReplyView>| commands::displays_listed_within(2000, s);
    let q4 = |s: Seq<ReplyView>| guard::noted(ActionMode::Execute, displays, s);
    assert(asking::cuts(q1, t, t1)) by {
        front_laws::said_if_shrinks(verbose, "guard: reason="@ + reason, t);
        front_laws::said_if_cut(verbose, "guard: reason="@ + reason, t, 0);
        assert forall|j: int| 0 <= j <= t1.len() implies q1(
            #[trigger] t.take(t.len() - t1.len() + j),
        ) == Course::Ends(q1(t)->Ends_0, t1.take(j)) by {
            front_laws::said_if_cut(verbose, "guard: reason="@ + reason, t, j);
        }
    }
    assert(asking::cuts(q2, t1, t2)) by {
        front_laws::lid_read_shrinks(verbose, t1);
        front_laws::lid_read_cut(verbose, t1, 0);
        assert forall|j: int| 0 <= j <= t2.len() implies q2(
            #[trigger] t1.take(t1.len() - t2.len() + j),
        ) == Course::Ends(q2(t1)->Ends_0, t2.take(j)) by {
            front_laws::lid_read_cut(verbose, t1, j);
        }
    }
    assert(asking::cuts(q3, t2, t3)) by {
        front_laws::displays_listed_within_shrinks(2000, t2);
        front_laws::displays_listed_within_cut(2000, t2, 0);
        assert forall|j: int| 0 <= j <= t3.len() implies q3(
            #[trigger] t2.take(t2.len() - t3.len() + j),
        ) == Course::Ends(q3(t2)->Ends_0, t3.take(j)) by {
            front_laws::displays_listed_within_cut(2000, t2, j);
        }
    }
    assert(asking::cuts(q4, t3, t4)) by {
        front_laws::noted_shrinks(ActionMode::Execute, displays, t3);
        front_laws::noted_cut(ActionMode::Execute, displays, t3, 0);
        assert forall|j: int| 0 <= j <= t4.len() implies q4(
            #[trigger] t3.take(t3.len() - t4.len() + j),
        ) == Course::Ends(q4(t3)->Ends_0, t4.take(j)) by {
            front_laws::noted_cut(ActionMode::Execute, displays, t3, j);
        }
    }
    assert forall|
        x: Seq<ReplyView>,
        r1: Seq<ReplyView>,
        r2: Seq<ReplyView>,
        r3: Seq<ReplyView>,
        r4: Seq<ReplyView>,
    | #[trigger]
        asking::step4(
            p,
            q1,
            q2,
            q3,
            q4,
            f,
            q1(t)->Ends_0,
            q2(t1)->Ends_0,
            q3(t2)->Ends_0,
            q4(t3)->Ends_0,
            x,
            r1,
            r2,
            r3,
            r4,
        ) by {
        if q1(x) == Course::Ends(q1(t)->Ends_0, r1) && q2(r1) == Course::Ends(q2(t1)->Ends_0, r2)
            && q3(r2) == Course::Ends(q3(t2)->Ends_0, r3)
            && q4(r3) == Course::Ends(q4(t3)->Ends_0, r4) {
            lemma_guard_decides_step(reason, verbose, lid, displays, x, r1, r2, r3, r4);
        }
    }
    asking::lemma_behind4(p, q1, q2, q3, q4, f, t, t1, t2, t3, t4);
}

proof fn lemma_guard_decides_blind_step(
    reason: Seq<char>,
    verbose: bool,
    lid: ClamshellState,
    error: Seq<char>,
    x: Seq<ReplyView>,
    r1: Seq<ReplyView>,
    r2: Seq<ReplyView>,
    r3: Seq<ReplyView>,
    r4: Seq<ReplyView>,
)
    requires
        effect::said_if(verbose, "guard: reason="@ + reason, x) matches Course::Ends(v, rest)
            && rest == r1,
        restore::lid_read(verbose, r1) matches Course::Ends(v, rest) && v == lid && rest == r2,
        commands::displays_listed_within(2000, r2) matches Course::Ends(v, rest) && v is Err
            && v->Err_0 == error && rest == r3,
        effect::warned_if(
            verbose,
            "warning: guard display state unavailable: "@ + error,
            r3,
        ) matches Course::Ends(v, rest)
            && rest == r4,
    ensures
        guard::guard_decided(reason, lid, None, ActionMode::Execute, verbose, r4) is Asks
            ==> asking::wanted(guard::guarded(reason, ActionMode::Execute, verbose, x)) == asking::wanted(
                guard::guard_decided(reason, lid, None, ActionMode::Execute, verbose, r4),
            ),
{
}

proof fn lemma_guard_decides_blind(
    reason: Seq<char>,
    verbose: bool,
    lid: ClamshellState,
    error: Seq<char>,
    t: Seq<ReplyView>,
    t1: Seq<ReplyView>,
    t2: Seq<ReplyView>,
    t3: Seq<ReplyView>,
    t4: Seq<ReplyView>,
)
    requires
        effect::said_if(verbose, "guard: reason="@ + reason, t) matches Course::Ends(v, rest)
            && rest == t1,
        restore::lid_read(verbose, t1) matches Course::Ends(v, rest) && v == lid && rest == t2,
        commands::displays_listed_within(2000, t2) matches Course::Ends(v, rest) && v is Err
            && v->Err_0 == error && rest == t3,
        effect::warned_if(
            verbose,
            "warning: guard display state unavailable: "@ + error,
            t3,
        ) matches Course::Ends(v, rest)
            && rest == t4,
    ensures
        asking::leads(
            |s: Seq<ReplyView>| guard::guarded(reason, ActionMode::Execute, verbose, s),
            t,
            |s: Seq<ReplyView>| guard::guard_decided(
                reason,
                lid,
                None,
                ActionMode::Execute,
                verbose,
                s,
            ),
            t4,
        ),
        asking::carries(
            |s: Seq<ReplyView>| guard::guarded(reason, ActionMode::Execute, verbose, s),
            t,
            |s: Seq<ReplyView>| guard::guard_decided(
                reason,
                lid,
                None,
                ActionMode::Execute,
                verbose,
                s,
            ),
            t4,
        ),
{
    let p = |s: Seq<ReplyView>| guard::guarded(reason, ActionMode::Execute, verbose, s);
    let f = |s: Seq<ReplyView>| guard::guard_decided(
        reason,
        lid,
        None,
        ActionMode::Execute,
        verbose,
        s,
    );
    let q1 = |s: Seq<ReplyView>| effect::said_if(verbose, "guard: reason="@ + reason, s);
    let q2 = |s: Seq<ReplyView>| restore::lid_read(verbose, s);
    let q3 = |s: Seq<ReplyView>| commands::displays_listed_within(2000, s);
    let q4 = |s: Seq<ReplyView>| effect::warned_if(
        verbose,
        "warning: guard display state unavailable: "@ + error,
        s,
    );
    assert(asking::cuts(q1, t, t1)) by {
        front_laws::said_if_shrinks(verbose, "guard: reason="@ + reason, t);
        front_laws::said_if_cut(verbose, "guard: reason="@ + reason, t, 0);
        assert forall|j: int| 0 <= j <= t1.len() implies q1(
            #[trigger] t.take(t.len() - t1.len() + j),
        ) == Course::Ends(q1(t)->Ends_0, t1.take(j)) by {
            front_laws::said_if_cut(verbose, "guard: reason="@ + reason, t, j);
        }
    }
    assert(asking::cuts(q2, t1, t2)) by {
        front_laws::lid_read_shrinks(verbose, t1);
        front_laws::lid_read_cut(verbose, t1, 0);
        assert forall|j: int| 0 <= j <= t2.len() implies q2(
            #[trigger] t1.take(t1.len() - t2.len() + j),
        ) == Course::Ends(q2(t1)->Ends_0, t2.take(j)) by {
            front_laws::lid_read_cut(verbose, t1, j);
        }
    }
    assert(asking::cuts(q3, t2, t3)) by {
        front_laws::displays_listed_within_shrinks(2000, t2);
        front_laws::displays_listed_within_cut(2000, t2, 0);
        assert forall|j: int| 0 <= j <= t3.len() implies q3(
            #[trigger] t2.take(t2.len() - t3.len() + j),
        ) == Course::Ends(q3(t2)->Ends_0, t3.take(j)) by {
            front_laws::displays_listed_within_cut(2000, t2, j);
        }
    }
    assert(asking::cuts(q4, t3, t4)) by {
        front_laws::warned_if_shrinks(
            verbose,
            "warning: guard display state unavailable: "@ + error,
            t3,
        );
        front_laws::warned_if_cut(
            verbose,
            "warning: guard display state unavailable: "@ + error,
            t3,
            0,
        );
        assert forall|j: int| 0 <= j <= t4.len() implies q4(
            #[trigger] t3.take(t3.len() - t4.len() + j),
        ) == Course::Ends(q4(t3)->Ends_0, t4.take(j)) by {
            front_laws::warned_if_cut(
                verbose,
                "warning: guard display state unavailable: "@ + error,
                t3,
                j,
            );
        }
    }
    assert forall|
        x: Seq<ReplyView>,
        r1: Seq<ReplyView>,
        r2: Seq<ReplyView>,
        r3: Seq<ReplyView>,
        r4: Seq<ReplyView>,
    | #[trigger]
        asking::step4(
            p,
            q1,
            q2,
            q3,
            q4,
            f,
            q1(t)->Ends_0,
            q2(t1)->Ends_0,
            q3(t2)->Ends_0,
            q4(t3)->Ends_0,
            x,
            r1,
            r2,
            r3,
            r4,
        ) by {
        if q1(x) == Course::Ends(q1(t)->Ends_0, r1) && q2(r1) == Course::Ends(q2(t1)->Ends_0, r2)
            && q3(r2) == Course::Ends(q3(t2)->Ends_0, r3)
            && q4(r3) == Course::Ends(q4(t3)->Ends_0, r4) {
            lemma_guard_decides_blind_step(reason, verbose, lid, error, x, r1, r2, r3, r4);
        }
    }
    asking::lemma_behind4(p, q1, q2, q3, q4, f, t, t1, t2, t3, t4);
}

/// The guard leaves the panel alone only where it was told that the lid is closed,
/// or was shown a display that is on. Else it detects the displays anew and then
/// lights the panel.
pub proof fn guard_ends_darkness(reason: Seq<char>, verbose: bool, t: Seq<ReplyView>)
    requires
        guard::guarded(reason, ActionMode::Execute, verbose, t) is Ends,
    ensures
        ({
            let p = |s: Seq<ReplyView>| guard::guarded(reason, ActionMode::Execute, verbose, s);
            asking::met(p, t, recovery_laws::lid_closed()) || asking::met(p, t, display_on())
                || recovery_laws::called_back(p, t)
        }),
{
    if let Course::Ends(_, t1) = effect::said_if(verbose, "guard: reason="@ + reason, t) {
        if let Course::Ends(lid, t2) = restore::lid_read(verbose, t1) {
            if lid == ClamshellState::Closed {
                lemma_guard_reads(reason, verbose, t, t1);
                recovery_laws::closed_is_what_was_said(verbose, t1);
            } else if let Course::Ends(r, t3) = commands::displays_listed_within(2000, t2) {
                match r {
                    Ok(parsed) => {
                        if policy_laws::dark(parsed.displays) {
                            let noted = guard::noted(ActionMode::Execute, parsed.displays, t3);
                            if let Course::Ends(_, t4) = noted {
                                lemma_guard_decides(
                                    reason,
                                    verbose,
                                    lid,
                                    parsed.displays,
                                    t,
                                    t1,
                                    t2,
                                    t3,
                                    t4,
                                );
                                guard_calls_back(reason, lid, Some(parsed.displays), verbose, t4);
                            }
                        } else {
                            lemma_guard_lists(reason, verbose, t, t1, t2);
                            lemma_listed_on(2000, t2);
                        }
                    },
                    Err(error) => {
                        let line = "warning: guard display state unavailable: "@ + error;
                        if let Course::Ends(_, t4) = effect::warned_if(verbose, line, t3) {
                            lemma_guard_decides_blind(
                                reason,
                                verbose,
                                lid,
                                error,
                                t,
                                t1,
                                t2,
                                t3,
                                t4,
                            );
                            guard_calls_back(reason, lid, None, verbose, t4);
                        }
                    },
                }
            }
        }
    }
}

} // verus!
