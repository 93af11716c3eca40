//! What was seen is remembered, and what is begun is seen through.

use vstd::prelude::*;

use crate::asking;
use crate::command;
use crate::commands;
use crate::display::DisplayView;
use crate::effect;
use crate::effect::{Course, EffectView, ReplyView};
use crate::file_laws;
use crate::files;
use crate::front_laws;
use crate::guard;
use crate::interactive;
use crate::interactive::UiView;
use crate::native;
use crate::native_laws;
use crate::number;
use crate::placer::ParsedView;
use crate::policy::{ActionMode, DisplayChange};
use crate::recovery_laws;
use crate::restore;
use crate::restore::TrialView;
use crate::state;
use crate::switching;
use crate::target::TargetView;
use crate::watch;
use crate::watching;

verus! {

// ---------------------------------------------------------------------------
// What is listed is remembered.
// ---------------------------------------------------------------------------
/// The state file was written, and that went well.
pub open spec fn state_kept() -> spec_fn(EffectView, ReplyView) -> bool {
    |e: EffectView, r: ReplyView|
        e matches EffectView::WriteFile(place, body) && place == file_laws::own_file("state"@) && (
        r matches ReplyView::Done(done) && done is Ok)
}

/// Something was complained of.
pub open spec fn complained() -> spec_fn(EffectView, ReplyView) -> bool {
    |e: EffectView, r: ReplyView| e is Complain
}

proof fn lemma_state_kept<T>(
    p: spec_fn(Seq<ReplyView>) -> Course<T>,
    t: Seq<ReplyView>,
    body: Seq<char>,
)
    requires
        asking::met(p, t, file_laws::kept("state"@, body)),
    ensures
        asking::met(p, t, state_kept()),
{
    let k = choose|k: int| asking::meets(p, t, file_laws::kept("state"@, body), k);
    assert(asking::meets(p, t, state_kept(), k));
}

proof fn lemma_list_is_remembered(
    seen: Seq<DisplayView>,
    t: Seq<ReplyView>,
)
    ensures
        asking::leads(
            |s: Seq<ReplyView>| files::list_remembered(seen, s),
            t,
            |s: Seq<ReplyView>| files::remembered(seen, s),
            t,
        ),
        asking::carries(
            |s: Seq<ReplyView>| files::list_remembered(seen, s),
            t,
            |s: Seq<ReplyView>| files::remembered(seen, s),
            t,
        ),
{
    let p = |s: Seq<ReplyView>| files::list_remembered(seen, s);
    let f = |s: Seq<ReplyView>| files::remembered(seen, s);
    assert(t =~= t.skip(t.len() - t.len()));
    assert forall|j: int| 0 <= j <= t.len() && f(t.take(j)) is Asks implies asking::wanted(
        p(#[trigger] t.take(t.len() - t.len() + j)),
    ) == asking::wanted(f(t.take(j))) by {}
    asking::lemma_met_later(p, t, f, t);
}

proof fn lemma_list_is_complained_of_step(
    seen: Seq<DisplayView>,
    error: Seq<char>,
    x: Seq<ReplyView>,
    r1: Seq<ReplyView>,
)
    requires
        files::remembered(seen, x) matches Course::Ends(v, rest) && v == Err::<(), Seq<char>>(error)
            && rest == r1,
    ensures
        effect::warned("warning: failed to write displayed state: "@ + error, r1) is Asks
            ==> asking::wanted(files::list_remembered(seen, x)) == asking::wanted(
                effect::warned("warning: failed to write displayed state: "@ + error, r1),
            ),
{
}

proof fn lemma_list_is_complained_of(
    seen: Seq<DisplayView>,
    error: Seq<char>,
    t: Seq<ReplyView>,
    t1: Seq<ReplyView>,
)
    requires
        files::remembered(seen, t) matches Course::Ends(v, rest) && v == Err::<(), Seq<char>>(error)
            && rest == t1,
    ensures
        asking::leads(
            |s: Seq<ReplyView>| files::list_remembered(seen, s),
            t,
            |s: Seq<ReplyView>| effect::warned(
                "warning: failed to write displayed state: "@ + error,
                s,
            ),
            t1,
        ),
        asking::carries(
            |s: Seq<ReplyView>| files::list_remembered(seen, s),
            t,
            |s: Seq<ReplyView>| effect::warned(
                "warning: failed to write displayed state: "@ + error,
                s,
            ),
            t1,
        ),
{
    let p = |s: Seq<ReplyView>| files::list_remembered(seen, s);
    let f = |s: Seq<ReplyView>| effect::warned(
        "warning: failed to write displayed state: "@ + error,
        s,
    );
    let q1 = |s: Seq<ReplyView>| files::remembered(seen, s);
    assert(asking::cuts(q1, t, t1)) by {
        front_laws::remembered_shrinks(seen, t);
        front_laws::remembered_cut(seen, t, 0);
        assert forall|j: int| 0 <= j <= t1.len() implies q1(
            #[trigger] t.take(t.len() - t1.len() + j),
        ) == Course::Ends(q1(t)->Ends_0, t1.take(j)) by {
            front_laws::remembered_cut(seen, t, j);
        }
    }
    assert forall|x: Seq<ReplyView>, r1: Seq<ReplyView>| #[trigger]
        asking::step1(p, q1, f, q1(t)->Ends_0, x, r1) by {
        if q1(x) == Course::Ends(q1(t)->Ends_0, r1) {
            lemma_list_is_complained_of_step(seen, error, x, r1);
        }
    }
    asking::lemma_behind1(p, q1, f, t, t1);
}

/// What was listed is written into the state file, or it is complained of.
pub proof fn listed_displays_are_remembered(seen: Seq<DisplayView>, t: Seq<ReplyView>)
    requires
        files::list_remembered(seen, t) is Ends,
    ensures
        ({
            let p = |s: Seq<ReplyView>| files::list_remembered(seen, s);
            asking::met(p, t, state_kept()) || asking::met(p, t, complained())
        }),
{
    let p = |s: Seq<ReplyView>| files::list_remembered(seen, s);
    lemma_list_is_remembered(seen, t);
    if let Course::Ends(r, t1) = files::remembered(seen, t) {
        match r {
            Ok(_) => {
                let known = file_laws::remembering_writes_the_state(seen, t);
                lemma_state_kept(
                    |s: Seq<ReplyView>| files::remembered(seen, s),
                    t,
                    state::state_body(seen, known),
                );
            },
            Err(error) => {
                lemma_list_is_complained_of(seen, error, t, t1);
                let f = |s: Seq<ReplyView>|
                    effect::warned("warning: failed to write displayed state: "@ + error, s);
                assert(t1.take(0).len() == 0);
                assert(asking::meets(f, t1, complained(), 0));
                assert(asking::met(f, t1, complained()));
            },
        }
    }
}

proof fn lemma_disable_remembers_step(
    condition: Option<Seq<char>>,
    mode: ActionMode,
    force: bool,
    print_skips: bool,
    verbose: bool,
    displays: Seq<DisplayView>,
    x: Seq<ReplyView>,
    r1: Seq<ReplyView>,
)
    requires
        commands::displays_listed(x) matches Course::Ends(v, rest) && v is Ok
            && v->Ok_0.displays == displays && rest == r1,
    ensures
        files::list_remembered(displays, r1) is Asks
            ==> asking::wanted(
                switching::internal_disabled(condition, mode, force, print_skips, verbose, x),
            ) == asking::wanted(files::list_remembered(displays, r1)),
{
}

proof fn lemma_disable_remembers(
    condition: Option<Seq<char>>,
    mode: ActionMode,
    force: bool,
    print_skips: bool,
    verbose: bool,
    displays: Seq<DisplayView>,
    t: Seq<ReplyView>,
    t1: Seq<ReplyView>,
)
    requires
        commands::displays_listed(t) matches Course::Ends(v, rest) && v is Ok
            && v->Ok_0.displays == displays && rest == t1,
    ensures
        asking::leads(
            |s: Seq<ReplyView>| switching::internal_disabled(
                condition,
                mode,
                force,
                print_skips,
                verbose,
                s,
            ),
            t,
            |s: Seq<ReplyView>| files::list_remembered(displays, s),
            t1,
        ),
        asking::carries(
            |s: Seq<ReplyView>| switching::internal_disabled(
                condition,
                mode,
                force,
                print_skips,
                verbose,
                s,
            ),
            t,
            |s: Seq<ReplyView>| files::list_remembered(displays, s),
            t1,
        ),
{
    let p = |s: Seq<ReplyView>| switching::internal_disabled(
        condition,
        mode,
        force,
        print_skips,
        verbose,
        s,
    );
    let f = |s: Seq<ReplyView>| files::list_remembered(displays, s);
    let q1 = |s: Seq<ReplyView>| commands::displays_listed(s);
    assert(asking::cuts(q1, t, t1)) by {
        front_laws::displays_listed_shrinks(t);
        front_laws::displays_listed_cut(t, 0);
        assert forall|j: int| 0 <= j <= t1.len() implies q1(
            #[trigger] t.take(t.len() - t1.len() + j),
        ) == Course::Ends(q1(t)->Ends_0, t1.take(j)) by {
            front_laws::displays_listed_cut(t, j);
        }
    }
    assert forall|x: Seq<ReplyView>, r1: Seq<ReplyView>| #[trigger]
        asking::step1(p, q1, f, q1(t)->Ends_0, x, r1) by {
        if q1(x) == Course::Ends(q1(t)->Ends_0, r1) {
            lemma_disable_remembers_step(
                condition,
                mode,
                force,
                print_skips,
                verbose,
                displays,
                x,
                r1,
            );
        }
    }
    asking::lemma_behind1(p, q1, f, t, t1);
}

/// A request to turn the panel off remembers what was listed, or complains that it cannot.
pub proof fn disable_remembers(
    condition: Option<Seq<char>>,
    mode: ActionMode,
    force: bool,
    print_skips: bool,
    verbose: bool,
    t: Seq<ReplyView>,
)
    requires
        switching::internal_disabled(condition, mode, force, print_skips, verbose, t) is Ends,
        commands::as_list(effect::as_ran(t[0])) is Ok,
    ensures
        ({
            let p = |s: Seq<ReplyView>| switching::internal_disabled(
                condition,
                mode,
                force,
                print_skips,
                verbose,
                s,
            );
            asking::met(p, t, state_kept()) || asking::met(p, t, complained())
        }),
{
    let displays = commands::as_list(effect::as_ran(t[0]))->Ok_0.displays;
    let t1 = t.skip(1);
    lemma_disable_remembers(condition, mode, force, print_skips, verbose, displays, t, t1);
    listed_displays_are_remembered(displays, t1);
}

proof fn lemma_toggle_remembers_step(
    displays: Seq<DisplayView>,
    x: Seq<ReplyView>,
    r1: Seq<ReplyView>,
)
    requires
        commands::displays_listed(x) matches Course::Ends(v, rest) && v is Ok
            && v->Ok_0.displays == displays && rest == r1,
    ensures
        files::list_remembered(displays, r1) is Asks
            ==> asking::wanted(switching::internal_toggled(x)) == asking::wanted(
                files::list_remembered(displays, r1),
            ),
{
}

proof fn lemma_toggle_remembers(
    displays: Seq<DisplayView>,
    t: Seq<ReplyView>,
    t1: Seq<ReplyView>,
)
    requires
        commands::displays_listed(t) matches Course::Ends(v, rest) && v is Ok
            && v->Ok_0.displays == displays && rest == t1,
    ensures
        asking::leads(
            |s: Seq<ReplyView>| switching::internal_toggled(s),
            t,
            |s: Seq<ReplyView>| files::list_remembered(displays, s),
            t1,
        ),
        asking::carries(
            |s: Seq<ReplyView>| switching::internal_toggled(s),
            t,
            |s: Seq<ReplyView>| files::list_remembered(displays, s),
            t1,
        ),
{
    let p = |s: Seq<ReplyView>| switching::internal_toggled(s);
    let f = |s: Seq<ReplyView>| files::list_remembered(displays, s);
    let q1 = |s: Seq<ReplyView>| commands::displays_listed(s);
    assert(asking::cuts(q1, t, t1)) by {
        front_laws::displays_listed_shrinks(t);
        front_laws::displays_listed_cut(t, 0);
        assert forall|j: int| 0 <= j <= t1.len() implies q1(
            #[trigger] t.take(t.len() - t1.len() + j),
        ) == Course::Ends(q1(t)->Ends_0, t1.take(j)) by {
            front_laws::displays_listed_cut(t, j);
        }
    }
    assert forall|x: Seq<ReplyView>, r1: Seq<ReplyView>| #[trigger]
        asking::step1(p, q1, f, q1(t)->Ends_0, x, r1) by {
        if q1(x) == Course::Ends(q1(t)->Ends_0, r1) {
            lemma_toggle_remembers_step(displays, x, r1);
        }
    }
    asking::lemma_behind1(p, q1, f, t, t1);
}

/// Toggling the panel remembers what was listed, or complains that it cannot.
pub proof fn toggle_remembers(t: Seq<ReplyView>)
    requires
        switching::internal_toggled(t) is Ends,
        commands::as_list(effect::as_ran(t[0])) is Ok,
    ensures
        ({
            let p = |s: Seq<ReplyView>| switching::internal_toggled(s);
            asking::met(p, t, state_kept()) || asking::met(p, t, complained())
        }),
{
    let displays = commands::as_list(effect::as_ran(t[0]))->Ok_0.displays;
    let t1 = t.skip(1);
    lemma_toggle_remembers(displays, t, t1);
    listed_displays_are_remembered(displays, t1);
}

proof fn lemma_watch_remembers_step(
    targets: Seq<TargetView>,
    mode: ActionMode,
    force: bool,
    verbose: bool,
    displays: Seq<DisplayView>,
    x: Seq<ReplyView>,
    r1: Seq<ReplyView>,
)
    requires
        targets.len() > 0,
        commands::displays_listed(x) matches Course::Ends(v, rest) && v is Ok
            && v->Ok_0.displays == displays && rest == r1,
    ensures
        files::list_remembered(displays, r1) is Asks
            ==> asking::wanted(
                watching::targets_watched(targets, mode, force, verbose, x),
            ) == asking::wanted(files::list_remembered(displays, r1)),
{
}

proof fn lemma_watch_remembers(
    targets: Seq<TargetView>,
    mode: ActionMode,
    force: bool,
    verbose: bool,
    displays: Seq<DisplayView>,
    t: Seq<ReplyView>,
    t1: Seq<ReplyView>,
)
    requires
        targets.len() > 0,
        commands::displays_listed(t) matches Course::Ends(v, rest) && v is Ok
            && v->Ok_0.displays == displays && rest == t1,
    ensures
        asking::leads(
            |s: Seq<ReplyView>| watching::targets_watched(targets, mode, force, verbose, s),
            t,
            |s: Seq<ReplyView>| files::list_remembered(displays, s),
            t1,
        ),
        asking::carries(
            |s: Seq<ReplyView>| watching::targets_watched(targets, mode, force, verbose, s),
            t,
            |s: Seq<ReplyView>| files::list_remembered(displays, s),
            t1,
        ),
{
    let p = |s: Seq<ReplyView>| watching::targets_watched(targets, mode, force, verbose, s);
    let f = |s: Seq<ReplyView>| files::list_remembered(displays, s);
    let q1 = |s: Seq<ReplyView>| commands::displays_listed(s);
    assert(asking::cuts(q1, t, t1)) by {
        front_laws::displays_listed_shrinks(t);
        front_laws::displays_listed_cut(t, 0);
        assert forall|j: int| 0 <= j <= t1.len() implies q1(
            #[trigger] t.take(t.len() - t1.len() + j),
        ) == Course::Ends(q1(t)->Ends_0, t1.take(j)) by {
            front_laws::displays_listed_cut(t, j);
        }
    }
    assert forall|x: Seq<ReplyView>, r1: Seq<ReplyView>| #[trigger]
        asking::step1(p, q1, f, q1(t)->Ends_0, x, r1) by {
        if q1(x) == Course::Ends(q1(t)->Ends_0, r1) {
            lemma_watch_remembers_step(targets, mode, force, verbose, displays, x, r1);
        }
    }
    asking::lemma_behind1(p, q1, f, t, t1);
}

/// A pass of the watcher remembers what was listed, or complains that it cannot.
pub proof fn watch_remembers(
    targets: Seq<TargetView>,
    mode: ActionMode,
    force: bool,
    verbose: bool,
    t: Seq<ReplyView>,
)
    requires
        targets.len() > 0,
        watching::targets_watched(targets, mode, force, verbose, t) is Ends,
        commands::as_list(effect::as_ran(t[0])) is Ok,
    ensures
        ({
            let p = |s: Seq<ReplyView>| watching::targets_watched(targets, mode, force, verbose, s);
            asking::met(p, t, state_kept()) || asking::met(p, t, complained())
        }),
{
    let displays = commands::as_list(effect::as_ran(t[0]))->Ok_0.displays;
    let t1 = t.skip(1);
    lemma_watch_remembers(targets, mode, force, verbose, displays, t, t1);
    listed_displays_are_remembered(displays, t1);
}

proof fn lemma_watch_by_name_remembers_step(
    name: Seq<char>,
    mode: ActionMode,
    force: bool,
    verbose: bool,
    displays: Seq<DisplayView>,
    x: Seq<ReplyView>,
    r1: Seq<ReplyView>,
)
    requires
        commands::displays_listed(x) matches Course::Ends(v, rest) && v is Ok
            && v->Ok_0.displays == displays && rest == r1,
    ensures
        files::list_remembered(displays, r1) is Asks
            ==> asking::wanted(
                watching::raw_watched(name, mode, force, verbose, x),
            ) == asking::wanted(files::list_remembered(displays, r1)),
{
}

proof fn lemma_watch_by_name_remembers(
    name: Seq<char>,
    mode: ActionMode,
    force: bool,
    verbose: bool,
    displays: Seq<DisplayView>,
    t: Seq<ReplyView>,
    t1: Seq<ReplyView>,
)
    requires
        commands::displays_listed(t) matches Course::Ends(v, rest) && v is Ok
            && v->Ok_0.displays == displays && rest == t1,
    ensures
        asking::leads(
            |s: Seq<ReplyView>| watching::raw_watched(name, mode, force, verbose, s),
            t,
            |s: Seq<ReplyView>| files::list_remembered(displays, s),
            t1,
        ),
        asking::carries(
            |s: Seq<ReplyView>| watching::raw_watched(name, mode, force, verbose, s),
            t,
            |s: Seq<ReplyView>| files::list_remembered(displays, s),
            t1,
        ),
{
    let p = |s: Seq<ReplyView>| watching::raw_watched(name, mode, force, verbose, s);
    let f = |s: Seq<ReplyView>| files::list_remembered(displays, s);
    let q1 = |s: Seq<ReplyView>| commands::displays_listed(s);
    assert(asking::cuts(q1, t, t1)) by {
        front_laws::displays_listed_shrinks(t);
        front_laws::displays_listed_cut(t, 0);
        assert forall|j: int| 0 <= j <= t1.len() implies q1(
            #[trigger] t.take(t.len() - t1.len() + j),
        ) == Course::Ends(q1(t)->Ends_0, t1.take(j)) by {
            front_laws::displays_listed_cut(t, j);
        }
    }
    assert forall|x: Seq<ReplyView>, r1: Seq<ReplyView>| #[trigger]
        asking::step1(p, q1, f, q1(t)->Ends_0, x, r1) by {
        if q1(x) == Course::Ends(q1(t)->Ends_0, r1) {
            lemma_watch_by_name_remembers_step(name, mode, force, verbose, displays, x, r1);
        }
    }
    asking::lemma_behind1(p, q1, f, t, t1);
}

/// A pass of the watcher by name remembers what was listed, or complains that it cannot.
pub proof fn watch_by_name_remembers(
    name: Seq<char>,
    mode: ActionMode,
    force: bool,
    verbose: bool,
    t: Seq<ReplyView>,
)
    requires
        watching::raw_watched(name, mode, force, verbose, t) is Ends,
        commands::as_list(effect::as_ran(t[0])) is Ok,
    ensures
        ({
            let p = |s: Seq<ReplyView>| watching::raw_watched(name, mode, force, verbose, s);
            asking::met(p, t, state_kept()) || asking::met(p, t, complained())
        }),
{
    let displays = commands::as_list(effect::as_ran(t[0]))->Ok_0.displays;
    let t1 = t.skip(1);
    lemma_watch_by_name_remembers(name, mode, force, verbose, displays, t, t1);
    listed_displays_are_remembered(displays, t1);
}

proof fn lemma_net_remembers_step(
    mode: ActionMode,
    verbose: bool,
    displays: Seq<DisplayView>,
    x: Seq<ReplyView>,
    r1: Seq<ReplyView>,
)
    requires
        commands::displays_listed(x) matches Course::Ends(v, rest) && v is Ok
            && v->Ok_0.displays == displays && rest == r1,
    ensures
        files::list_remembered(displays, r1) is Asks
            ==> asking::wanted(
                watching::darkness_ended(mode, verbose, x),
            ) == asking::wanted(files::list_remembered(displays, r1)),
{
}

proof fn lemma_net_remembers(
    mode: ActionMode,
    verbose: bool,
    displays: Seq<DisplayView>,
    t: Seq<ReplyView>,
    t1: Seq<ReplyView>,
)
    requires
        commands::displays_listed(t) matches Course::Ends(v, rest) && v is Ok
            && v->Ok_0.displays == displays && rest == t1,
    ensures
        asking::leads(
            |s: Seq<ReplyView>| watching::darkness_ended(mode, verbose, s),
            t,
            |s: Seq<ReplyView>| files::list_remembered(displays, s),
            t1,
        ),
        asking::carries(
            |s: Seq<ReplyView>| watching::darkness_ended(mode, verbose, s),
            t,
            |s: Seq<ReplyView>| files::list_remembered(displays, s),
            t1,
        ),
{
    let p = |s: Seq<ReplyView>| watching::darkness_ended(mode, verbose, s);
    let f = |s: Seq<ReplyView>| files::list_remembered(displays, s);
    let q1 = |s: Seq<ReplyView>| commands::displays_listed(s);
    assert(asking::cuts(q1, t, t1)) by {
        front_laws::displays_listed_shrinks(t);
        front_laws::displays_listed_cut(t, 0);
        assert forall|j: int| 0 <= j <= t1.len() implies q1(
            #[trigger] t.take(t.len() - t1.len() + j),
        ) == Course::Ends(q1(t)->Ends_0, t1.take(j)) by {
            front_laws::displays_listed_cut(t, j);
        }
    }
    assert forall|x: Seq<ReplyView>, r1: Seq<ReplyView>| #[trigger]
        asking::step1(p, q1, f, q1(t)->Ends_0, x, r1) by {
        if q1(x) == Course::Ends(q1(t)->Ends_0, r1) {
            lemma_net_remembers_step(mode, verbose, displays, x, r1);
        }
    }
    asking::lemma_behind1(p, q1, f, t, t1);
}

/// The safety net remembers what was listed, or complains that it cannot.
pub proof fn net_remembers(mode: ActionMode, verbose: bool, t: Seq<ReplyView>)
    requires
        watching::darkness_ended(mode, verbose, t) is Ends,
        commands::as_list(effect::as_ran(t[0])) is Ok,
    ensures
        ({
            let p = |s: Seq<ReplyView>| watching::darkness_ended(mode, verbose, s);
            asking::met(p, t, state_kept()) || asking::met(p, t, complained())
        }),
{
    let displays = commands::as_list(effect::as_ran(t[0]))->Ok_0.displays;
    let t1 = t.skip(1);
    lemma_net_remembers(mode, verbose, displays, t, t1);
    listed_displays_are_remembered(displays, t1);
}

proof fn lemma_reset_remembers_step(
    mode: ActionMode,
    verbose: bool,
    displays: Seq<DisplayView>,
    x: Seq<ReplyView>,
    r1: Seq<ReplyView>,
)
    requires
        commands::displays_listed(x) matches Course::Ends(v, rest) && v is Ok
            && v->Ok_0.displays == displays && rest == r1,
    ensures
        files::list_remembered(displays, r1) is Asks
            ==> asking::wanted(
                guard::detected_enabled(mode, verbose, x),
            ) == asking::wanted(files::list_remembered(displays, r1)),
{
}

proof fn lemma_reset_remembers(
    mode: ActionMode,
    verbose: bool,
    displays: Seq<DisplayView>,
    t: Seq<ReplyView>,
    t1: Seq<ReplyView>,
)
    requires
        commands::displays_listed(t) matches Course::Ends(v, rest) && v is Ok
            && v->Ok_0.displays == displays && rest == t1,
    ensures
        asking::leads(
            |s: Seq<ReplyView>| guard::detected_enabled(mode, verbose, s),
            t,
            |s: Seq<ReplyView>| files::list_remembered(displays, s),
            t1,
        ),
        asking::carries(
            |s: Seq<ReplyView>| guard::detected_enabled(mode, verbose, s),
            t,
            |s: Seq<ReplyView>| files::list_remembered(displays, s),
            t1,
        ),
{
    let p = |s: Seq<ReplyView>| guard::detected_enabled(mode, verbose, s);
    let f = |s: Seq<ReplyView>| files::list_remembered(displays, s);
    let q1 = |s: Seq<ReplyView>| commands::displays_listed(s);
    assert(asking::cuts(q1, t, t1)) by {
        front_laws::displays_listed_shrinks(t);
        front_laws::displays_listed_cut(t, 0);
        assert forall|j: int| 0 <= j <= t1.len() implies q1(
            #[trigger] t.take(t.len() - t1.len() + j),
        ) == Course::Ends(q1(t)->Ends_0, t1.take(j)) by {
            front_laws::displays_listed_cut(t, j);
        }
    }
    assert forall|x: Seq<ReplyView>, r1: Seq<ReplyView>| #[trigger]
        asking::step1(p, q1, f, q1(t)->Ends_0, x, r1) by {
        if q1(x) == Course::Ends(q1(t)->Ends_0, r1) {
            lemma_reset_remembers_step(mode, verbose, displays, x, r1);
        }
    }
    asking::lemma_behind1(p, q1, f, t, t1);
}

/// A safe reset remembers what was listed, or complains that it cannot.
pub proof fn reset_remembers(mode: ActionMode, verbose: bool, t: Seq<ReplyView>)
    requires
        guard::detected_enabled(mode, verbose, t) is Ends,
        commands::as_list(effect::as_ran(t[0])) is Ok,
    ensures
        ({
            let p = |s: Seq<ReplyView>| guard::detected_enabled(mode, verbose, s);
            asking::met(p, t, state_kept()) || asking::met(p, t, complained())
        }),
{
    let displays = commands::as_list(effect::as_ran(t[0]))->Ok_0.displays;
    let t1 = t.skip(1);
    lemma_reset_remembers(mode, verbose, displays, t, t1);
    listed_displays_are_remembered(displays, t1);
}

proof fn lemma_list_remembers_step(
    displays: Seq<DisplayView>,
    x: Seq<ReplyView>,
    r1: Seq<ReplyView>,
)
    requires
        commands::displays_listed(x) matches Course::Ends(v, rest) && v is Ok
            && v->Ok_0.displays == displays && rest == r1,
    ensures
        files::list_remembered(displays, r1) is Asks
            ==> asking::wanted(command::list_run(x)) == asking::wanted(
                files::list_remembered(displays, r1),
            ),
{
}

proof fn lemma_list_remembers(
    displays: Seq<DisplayView>,
    t: Seq<ReplyView>,
    t1: Seq<ReplyView>,
)
    requires
        commands::displays_listed(t) matches Course::Ends(v, rest) && v is Ok
            && v->Ok_0.displays == displays && rest == t1,
    ensures
        asking::leads(
            |s: Seq<ReplyView>| command::list_run(s),
            t,
            |s: Seq<ReplyView>| files::list_remembered(displays, s),
            t1,
        ),
        asking::carries(
            |s: Seq<ReplyView>| command::list_run(s),
            t,
            |s: Seq<ReplyView>| files::list_remembered(displays, s),
            t1,
        ),
{
    let p = |s: Seq<ReplyView>| command::list_run(s);
    let f = |s: Seq<ReplyView>| files::list_remembered(displays, s);
    let q1 = |s: Seq<ReplyView>| commands::displays_listed(s);
    assert(asking::cuts(q1, t, t1)) by {
        front_laws::displays_listed_shrinks(t);
        front_laws::displays_listed_cut(t, 0);
        assert forall|j: int| 0 <= j <= t1.len() implies q1(
            #[trigger] t.take(t.len() - t1.len() + j),
        ) == Course::Ends(q1(t)->Ends_0, t1.take(j)) by {
            front_laws::displays_listed_cut(t, j);
        }
    }
    assert forall|x: Seq<ReplyView>, r1: Seq<ReplyView>| #[trigger]
        asking::step1(p, q1, f, q1(t)->Ends_0, x, r1) by {
        if q1(x) == Course::Ends(q1(t)->Ends_0, r1) {
            lemma_list_remembers_step(displays, x, r1);
        }
    }
    asking::lemma_behind1(p, q1, f, t, t1);
}

/// The command `list` remembers what was listed, or complains that it cannot.
pub proof fn list_remembers(t: Seq<ReplyView>)
    requires
        command::list_run(t) is Ends,
        commands::as_list(effect::as_ran(t[0])) is Ok,
    ensures
        ({
            let p = |s: Seq<ReplyView>| command::list_run(s);
            asking::met(p, t, state_kept()) || asking::met(p, t, complained())
        }),
{
    let displays = commands::as_list(effect::as_ran(t[0]))->Ok_0.displays;
    let t1 = t.skip(1);
    lemma_list_remembers(displays, t, t1);
    listed_displays_are_remembered(displays, t1);
}

proof fn lemma_refresh_remembers_step(
    ui: UiView,
    displays: Seq<DisplayView>,
    x: Seq<ReplyView>,
    r1: Seq<ReplyView>,
)
    requires
        commands::displays_listed(x) matches Course::Ends(v, rest) && v is Ok
            && v->Ok_0.displays == displays && rest == r1,
    ensures
        files::list_remembered(displays, r1) is Asks
            ==> asking::wanted(interactive::list_refreshed(ui, x)) == asking::wanted(
                files::list_remembered(displays, r1),
            ),
{
}

proof fn lemma_refresh_remembers(
    ui: UiView,
    displays: Seq<DisplayView>,
    t: Seq<ReplyView>,
    t1: Seq<ReplyView>,
)
    requires
        commands::displays_listed(t) matches Course::Ends(v, rest) && v is Ok
            && v->Ok_0.displays == displays && rest == t1,
    ensures
        asking::leads(
            |s: Seq<ReplyView>| interactive::list_refreshed(ui, s),
            t,
            |s: Seq<ReplyView>| files::list_remembered(displays, s),
            t1,
        ),
        asking::carries(
            |s: Seq<ReplyView>| interactive::list_refreshed(ui, s),
            t,
            |s: Seq<ReplyView>| files::list_remembered(displays, s),
            t1,
        ),
{
    let p = |s: Seq<ReplyView>| interactive::list_refreshed(ui, s);
    let f = |s: Seq<ReplyView>| files::list_remembered(displays, s);
    let q1 = |s: Seq<ReplyView>| commands::displays_listed(s);
    assert(asking::cuts(q1, t, t1)) by {
        front_laws::displays_listed_shrinks(t);
        front_laws::displays_listed_cut(t, 0);
        assert forall|j: int| 0 <= j <= t1.len() implies q1(
            #[trigger] t.take(t.len() - t1.len() + j),
        ) == Course::Ends(q1(t)->Ends_0, t1.take(j)) by {
            front_laws::displays_listed_cut(t, j);
        }
    }
    assert forall|x: Seq<ReplyView>, r1: Seq<ReplyView>| #[trigger]
        asking::step1(p, q1, f, q1(t)->Ends_0, x, r1) by {
        if q1(x) == Course::Ends(q1(t)->Ends_0, r1) {
            lemma_refresh_remembers_step(ui, displays, x, r1);
        }
    }
    asking::lemma_behind1(p, q1, f, t, t1);
}

/// A refresh of the interactive list remembers what was listed, or complains that it cannot.
pub proof fn refresh_remembers(ui: UiView, t: Seq<ReplyView>)
    requires
        interactive::list_refreshed(ui, t) is Ends,
        commands::as_list(effect::as_ran(t[0])) is Ok,
    ensures
        ({
            let p = |s: Seq<ReplyView>| interactive::list_refreshed(ui, s);
            asking::met(p, t, state_kept()) || asking::met(p, t, complained())
        }),
{
    let displays = commands::as_list(effect::as_ran(t[0]))->Ok_0.displays;
    let t1 = t.skip(1);
    lemma_refresh_remembers(ui, displays, t, t1);
    listed_displays_are_remembered(displays, t1);
}

proof fn lemma_guard_remembers_step(
    reason: Seq<char>,
    verbose: bool,
    displays: Seq<DisplayView>,
    x: Seq<ReplyView>,
    r1: Seq<ReplyView>,
    r2: Seq<ReplyView>,
    r3: Seq<ReplyView>,
)
    requires
        effect::said_if(verbose, "guard: reason="@ + reason, x) matches Course::Ends(v, rest)
            && rest == r1,
        restore::lid_read(verbose, r1) matches Course::Ends(v, rest) && rest == r2,
        commands::displays_listed_within(2000, r2) matches Course::Ends(v, rest) && v is Ok
            && v->Ok_0.displays == displays && rest == r3,
    ensures
        files::list_remembered(displays, r3) is Asks
            ==> asking::wanted(
                guard::guarded(reason, ActionMode::Execute, verbose, x),
            ) == asking::wanted(files::list_remembered(displays, r3)),
{
}

proof fn lemma_guard_remembers(
    reason: Seq<char>,
    verbose: bool,
    displays: Seq<DisplayView>,
    t: Seq<ReplyView>,
    t1: Seq<ReplyView>,
    t2: Seq<ReplyView>,
    t3: Seq<ReplyView>,
)
    requires
        effect::said_if(verbose, "guard: reason="@ + reason, t) matches Course::Ends(v, rest)
            && rest == t1,
        restore::lid_read(verbose, t1) matches Course::Ends(v, rest) && rest == t2,
        commands::displays_listed_within(2000, t2) matches Course::Ends(v, rest) && v is Ok
            && v->Ok_0.displays == displays && rest == t3,
    ensures
        asking::leads(
            |s: Seq<ReplyView>| guard::guarded(reason, ActionMode::Execute, verbose, s),
            t,
            |s: Seq<ReplyView>| files::list_remembered(displays, s),
            t3,
        ),
        asking::carries(
            |s: Seq<ReplyView>| guard::guarded(reason, ActionMode::Execute, verbose, s),
            t,
            |s: Seq<ReplyView>| files::list_remembered(displays, s),
            t3,
        ),
{
    let p = |s: Seq<ReplyView>| guard::guarded(reason, ActionMode::Execute, verbose, s);
    let f = |s: Seq<ReplyView>| files::list_remembered(displays, s);
    let q1 = |s: Seq<ReplyView>| effect::said_if(verbose, "guard: reason="@ + reason, s);
    let q2 = |s: Seq<ReplyView>| restore::lid_read(verbose, s);
    let q3 = |s: Seq<ReplyView>| commands::displays_listed_within(2000, s);
    assert(asking::cuts(q1, t, t1)) by {
        front_laws::said_if_shrinks(verbose, "guard: reason="@ + reason, t);
        front_laws::said_if_cut(verbose, "guard: reason="@ + reason, t, 0);
        assert forall|j: int| 0 <= j <= t1.len() implies q1(
            #[trigger] t.take(t.len() - t1.len() + j),
        ) == Course::Ends(q1(t)->Ends_0, t1.take(j)) by {
            front_laws::said_if_cut(verbose, "guard: reason="@ + reason, t, j);
        }
    }
    assert(asking::cuts(q2, t1, t2)) by {
        front_laws::lid_read_shrinks(verbose, t1);
        front_laws::lid_read_cut(verbose, t1, 0);
        assert forall|j: int| 0 <= j <= t2.len() implies q2(
            #[trigger] t1.take(t1.len() - t2.len() + j),
        ) == Course::Ends(q2(t1)->Ends_0, t2.take(j)) by {
            front_laws::lid_read_cut(verbose, t1, j);
        }
    }
    assert(asking::cuts(q3, t2, t3)) by {
        front_laws::displays_listed_within_shrinks(2000, t2);
        front_laws::displays_listed_within_cut(2000, t2, 0);
        assert forall|j: int| 0 <= j <= t3.len() implies q3(
            #[trigger] t2.take(t2.len() - t3.len() + j),
        ) == Course::Ends(q3(t2)->Ends_0, t3.take(j)) by {
            front_laws::displays_listed_within_cut(2000, t2, j);
        }
    }
    assert forall|
        x: Seq<ReplyView>,
        r1: Seq<ReplyView>,
        r2: Seq<ReplyView>,
        r3: Seq<ReplyView>,
    | #[trigger]
        asking::step3(
            p,
            q1,
            q2,
            q3,
            f,
            q1(t)->Ends_0,
            q2(t1)->Ends_0,
            q3(t2)->Ends_0,
            x,
            r1,
            r2,
            r3,
        ) by {
        if q1(x) == Course::Ends(q1(t)->Ends_0, r1) && q2(r1) == Course::Ends(q2(t1)->Ends_0, r2)
            && q3(r2) == Course::Ends(q3(t2)->Ends_0, r3) {
            lemma_guard_remembers_step(reason, verbose, displays, x, r1, r2, r3);
        }
    }
    asking::lemma_behind3(p, q1, q2, q3, f, t, t1, t2, t3);
}

/// So does the guard.
pub proof fn guard_remembers(
    reason: Seq<char>,
    verbose: bool,
    displays: Seq<DisplayView>,
    t: Seq<ReplyView>,
    t1: Seq<ReplyView>,
    t2: Seq<ReplyView>,
    t3: Seq<ReplyView>,
)
    requires
        guard::guarded(reason, ActionMode::Execute, verbose, t) is Ends,
        effect::said_if(verbose, "guard: reason="@ + reason, t) matches Course::Ends(_, rest)
            && rest == t1,
        restore::lid_read(verbose, t1) matches Course::Ends(_, rest) && rest == t2,
        commands::displays_listed_within(2000, t2) matches Course::Ends(r, rest) && r is Ok
            && r->Ok_0.displays == displays && rest == t3,
    ensures
        ({
            let p = |s: Seq<ReplyView>| guard::guarded(reason, ActionMode::Execute, verbose, s);
            asking::met(p, t, state_kept()) || asking::met(p, t, complained())
        }),
{
    lemma_guard_remembers(reason, verbose, displays, t, t1, t2, t3);
    listed_displays_are_remembered(displays, t3);
}

// ---------------------------------------------------------------------------
// One display.
// ---------------------------------------------------------------------------
proof fn lemma_off_is_noted_step(
    d: DisplayView,
    x: Seq<ReplyView>,
    r1: Seq<ReplyView>,
)
    requires
        commands::displays_listed(x) matches Course::Ends(v, rest) && v is Ok
            && crate::display::count_on(v->Ok_0.displays) > 1 && rest == r1,
    ensures
        switching::display_noted(d, r1) is Asks
            ==> asking::wanted(
                switching::display_disabled(d, x),
            ) == asking::wanted(switching::display_noted(d, r1)),
{
}

proof fn lemma_off_is_noted(
    d: DisplayView,
    t: Seq<ReplyView>,
    t1: Seq<ReplyView>,
)
    requires
        commands::displays_listed(t) matches Course::Ends(v, rest) && v is Ok
            && crate::display::count_on(v->Ok_0.displays) > 1 && rest == t1,
    ensures
        asking::leads(
            |s: Seq<ReplyView>| switching::display_disabled(d, s),
            t,
            |s: Seq<ReplyView>| switching::display_noted(d, s),
            t1,
        ),
        asking::carries(
            |s: Seq<ReplyView>| switching::display_disabled(d, s),
            t,
            |s: Seq<ReplyView>| switching::display_noted(d, s),
            t1,
        ),
{
    let p = |s: Seq<ReplyView>| switching::display_disabled(d, s);
    let f = |s: Seq<ReplyView>| switching::display_noted(d, s);
    let q1 = |s: Seq<ReplyView>| commands::displays_listed(s);
    assert(asking::cuts(q1, t, t1)) by {
        front_laws::displays_listed_shrinks(t);
        front_laws::displays_listed_cut(t, 0);
        assert forall|j: int| 0 <= j <= t1.len() implies q1(
            #[trigger] t.take(t.len() - t1.len() + j),
        ) == Course::Ends(q1(t)->Ends_0, t1.take(j)) by {
            front_laws::displays_listed_cut(t, j);
        }
    }
    assert forall|x: Seq<ReplyView>, r1: Seq<ReplyView>| #[trigger]
        asking::step1(p, q1, f, q1(t)->Ends_0, x, r1) by {
        if q1(x) == Course::Ends(q1(t)->Ends_0, r1) {
            lemma_off_is_noted_step(d, x, r1);
        }
    }
    asking::lemma_behind1(p, q1, f, t, t1);
}

proof fn lemma_noted_display(
    d: DisplayView,
    t: Seq<ReplyView>,
)
    requires
        d.number() is None,
    ensures
        asking::leads(
            |s: Seq<ReplyView>| switching::display_noted(d, s),
            t,
            |s: Seq<ReplyView>| files::remembered(seq![d], s),
            t,
        ),
        asking::carries(
            |s: Seq<ReplyView>| switching::display_noted(d, s),
            t,
            |s: Seq<ReplyView>| files::remembered(seq![d], s),
            t,
        ),
{
    let p = |s: Seq<ReplyView>| switching::display_noted(d, s);
    let f = |s: Seq<ReplyView>| files::remembered(seq![d], s);
    assert(t =~= t.skip(t.len() - t.len()));
    assert forall|j: int| 0 <= j <= t.len() && f(t.take(j)) is Asks implies asking::wanted(
        p(#[trigger] t.take(t.len() - t.len() + j)),
    ) == asking::wanted(f(t.take(j))) by {}
    asking::lemma_met_later(p, t, f, t);
}

proof fn lemma_noted_display_too_step(
    d: DisplayView,
    n: u32,
    x: Seq<ReplyView>,
    r1: Seq<ReplyView>,
)
    requires
        d.number() == Some(n),
        files::number_remembered(n, x) matches Course::Ends(v, rest) && v is Ok && rest == r1,
    ensures
        files::remembered(seq![d], r1) is Asks
            ==> asking::wanted(switching::display_noted(d, x)) == asking::wanted(
                files::remembered(seq![d], r1),
            ),
{
}

proof fn lemma_noted_display_too(
    d: DisplayView,
    n: u32,
    t: Seq<ReplyView>,
    t1: Seq<ReplyView>,
)
    requires
        d.number() == Some(n),
        files::number_remembered(n, t) matches Course::Ends(v, rest) && v is Ok && rest == t1,
    ensures
        asking::leads(
            |s: Seq<ReplyView>| switching::display_noted(d, s),
            t,
            |s: Seq<ReplyView>| files::remembered(seq![d], s),
            t1,
        ),
        asking::carries(
            |s: Seq<ReplyView>| switching::display_noted(d, s),
            t,
            |s: Seq<ReplyView>| files::remembered(seq![d], s),
            t1,
        ),
{
    let p = |s: Seq<ReplyView>| switching::display_noted(d, s);
    let f = |s: Seq<ReplyView>| files::remembered(seq![d], s);
    let q1 = |s: Seq<ReplyView>| files::number_remembered(n, s);
    assert(asking::cuts(q1, t, t1)) by {
        front_laws::number_remembered_shrinks(n, t);
        front_laws::number_remembered_cut(n, t, 0);
        assert forall|j: int| 0 <= j <= t1.len() implies q1(
            #[trigger] t.take(t.len() - t1.len() + j),
        ) == Course::Ends(q1(t)->Ends_0, t1.take(j)) by {
            front_laws::number_remembered_cut(n, t, j);
        }
    }
    assert forall|x: Seq<ReplyView>, r1: Seq<ReplyView>| #[trigger]
        asking::step1(p, q1, f, q1(t)->Ends_0, x, r1) by {
        if q1(x) == Course::Ends(q1(t)->Ends_0, r1) {
            lemma_noted_display_too_step(d, n, x, r1);
        }
    }
    asking::lemma_behind1(p, q1, f, t, t1);
}

/// A display is switched off only after it was remembered, so that it can be found
/// again.
pub proof fn what_goes_off_is_remembered(d: DisplayView, t: Seq<ReplyView>)
    requires
        switching::display_disabled(d, t) matches Course::Ends(r, _) && r is Ok,
    ensures
        asking::met(|s: Seq<ReplyView>| switching::display_disabled(d, s), t, state_kept()),
{
    let t1 = t.skip(1);
    lemma_off_is_noted(d, t, t1);
    match d.number() {
        None => {
            lemma_noted_display(d, t1);
            let known = file_laws::remembering_writes_the_state(seq![d], t1);
            lemma_state_kept(
                |s: Seq<ReplyView>| files::remembered(seq![d], s),
                t1,
                state::state_body(seq![d], known),
            );
        },
        Some(n) => {
            let t2 = files::number_remembered(n, t1)->Ends_1;
            lemma_noted_display_too(d, n, t1, t2);
            let known = file_laws::remembering_writes_the_state(seq![d], t2);
            lemma_state_kept(
                |s: Seq<ReplyView>| files::remembered(seq![d], s),
                t2,
                state::state_body(seq![d], known),
            );
        },
    }
}

proof fn lemma_on_is_noted_step(
    d: DisplayView,
    n: u32,
    x: Seq<ReplyView>,
    r1: Seq<ReplyView>,
)
    requires
        d.number() == Some(n),
        restore::number_restored(n, ActionMode::Execute, false, x) matches Course::Ends(v, rest)
            && v is Ok && rest == r1,
    ensures
        files::number_remembered(n, r1) is Asks
            ==> asking::wanted(
                switching::display_restored(d, x),
            ) == asking::wanted(files::number_remembered(n, r1)),
{
}

proof fn lemma_on_is_noted(
    d: DisplayView,
    n: u32,
    t: Seq<ReplyView>,
    t1: Seq<ReplyView>,
)
    requires
        d.number() == Some(n),
        restore::number_restored(n, ActionMode::Execute, false, t) matches Course::Ends(v, rest)
            && v is Ok && rest == t1,
    ensures
        asking::leads(
            |s: Seq<ReplyView>| switching::display_restored(d, s),
            t,
            |s: Seq<ReplyView>| files::number_remembered(n, s),
            t1,
        ),
        asking::carries(
            |s: Seq<ReplyView>| switching::display_restored(d, s),
            t,
            |s: Seq<ReplyView>| files::number_remembered(n, s),
            t1,
        ),
{
    let p = |s: Seq<ReplyView>| switching::display_restored(d, s);
    let f = |s: Seq<ReplyView>| files::number_remembered(n, s);
    let q1 = |s: Seq<ReplyView>| restore::number_restored(n, ActionMode::Execute, false, s);
    assert(asking::cuts(q1, t, t1)) by {
        front_laws::number_restored_shrinks(n, ActionMode::Execute, false, t);
        front_laws::number_restored_cut(n, ActionMode::Execute, false, t, 0);
        assert forall|j: int| 0 <= j <= t1.len() implies q1(
            #[trigger] t.take(t.len() - t1.len() + j),
        ) == Course::Ends(q1(t)->Ends_0, t1.take(j)) by {
            front_laws::number_restored_cut(n, ActionMode::Execute, false, t, j);
        }
    }
    assert forall|x: Seq<ReplyView>, r1: Seq<ReplyView>| #[trigger]
        asking::step1(p, q1, f, q1(t)->Ends_0, x, r1) by {
        if q1(x) == Course::Ends(q1(t)->Ends_0, r1) {
            lemma_on_is_noted_step(d, n, x, r1);
        }
    }
    asking::lemma_behind1(p, q1, f, t, t1);
}

/// The number of a display that was switched on is remembered.
pub proof fn what_comes_on_is_remembered(d: DisplayView, n: u32, t: Seq<ReplyView>) -> (s: Seq<
    ReplyView,
>)
    requires
        d.number() == Some(n),
        switching::display_restored(d, t) matches Course::Ends(r, _) && r is Ok,
    ensures
        files::number_remembered(n, s) matches Course::Ends(r, _) && r is Ok,
        asking::carries(
            |x: Seq<ReplyView>| switching::display_restored(d, x),
            t,
            |x: Seq<ReplyView>| files::number_remembered(n, x),
            s,
        ),
{
    let t1 = restore::number_restored(n, ActionMode::Execute, false, t)->Ends_1;
    lemma_on_is_noted(d, n, t, t1);
    t1
}

// ---------------------------------------------------------------------------
// Perseverance.
// ---------------------------------------------------------------------------
proof fn lemma_retry_detects_step(
    attempt: u32,
    x: Seq<ReplyView>,
    r1: Seq<ReplyView>,
)
    requires
        attempt > 1,
        effect::asks_any(EffectView::Sleep(1000), x) matches Course::Ends(v, rest) && rest == r1,
    ensures
        native::detected(ActionMode::Execute, false, r1) is Asks
            ==> asking::wanted(restore::attempt_prepared(attempt, x)) == asking::wanted(
                native::detected(ActionMode::Execute, false, r1),
            ),
{
}

proof fn lemma_retry_detects(
    attempt: u32,
    t: Seq<ReplyView>,
    t1: Seq<ReplyView>,
)
    requires
        attempt > 1,
        effect::asks_any(EffectView::Sleep(1000), t) matches Course::Ends(v, rest) && rest == t1,
    ensures
        asking::leads(
            |s: Seq<ReplyView>| restore::attempt_prepared(attempt, s),
            t,
            |s: Seq<ReplyView>| native::detected(ActionMode::Execute, false, s),
            t1,
        ),
        asking::carries(
            |s: Seq<ReplyView>| restore::attempt_prepared(attempt, s),
            t,
            |s: Seq<ReplyView>| native::detected(ActionMode::Execute, false, s),
            t1,
        ),
{
    let p = |s: Seq<ReplyView>| restore::attempt_prepared(attempt, s);
    let f = |s: Seq<ReplyView>| native::detected(ActionMode::Execute, false, s);
    let q1 = |s: Seq<ReplyView>| effect::asks_any(EffectView::Sleep(1000), s);
    assert(asking::cuts(q1, t, t1)) by {
        front_laws::asks_any_shrinks(EffectView::Sleep(1000), t);
        front_laws::asks_any_cut(EffectView::Sleep(1000), t, 0);
        assert forall|j: int| 0 <= j <= t1.len() implies q1(
            #[trigger] t.take(t.len() - t1.len() + j),
        ) == Course::Ends(q1(t)->Ends_0, t1.take(j)) by {
            front_laws::asks_any_cut(EffectView::Sleep(1000), t, j);
        }
    }
    assert forall|x: Seq<ReplyView>, r1: Seq<ReplyView>| #[trigger]
        asking::step1(p, q1, f, q1(t)->Ends_0, x, r1) by {
        if q1(x) == Course::Ends(q1(t)->Ends_0, r1) {
            lemma_retry_detects_step(attempt, x, r1);
        }
    }
    asking::lemma_behind1(p, q1, f, t, t1);
}

/// Before each further attempt the displays are detected anew.
pub proof fn retries_detect_anew(attempt: u32, t: Seq<ReplyView>)
    requires
        attempt > 1,
        restore::attempt_prepared(attempt, t) is Ends,
    ensures
        asking::met(
            |s: Seq<ReplyView>| restore::attempt_prepared(attempt, s),
            t,
            recovery_laws::detection(),
        ),
{
    let t1 = t.skip(1);
    lemma_retry_detects(attempt, t, t1);
    recovery_laws::detecting_is_asked_for(false, t1);
}

/// A first attempt that fails is not the last: a restore that may try more often
/// fails only with what a further attempt came to.
pub proof fn failed_attempt_is_repeated(
    explicit: Option<u32>,
    attempt: u32,
    last: u32,
    attempts: u32,
    verbose: bool,
    error: Option<Seq<char>>,
    next: Option<Seq<char>>,
    t: Seq<ReplyView>,
    t1: Seq<ReplyView>,
    t2: Seq<ReplyView>,
)
    requires
        attempt < last,
        restore::attempt_prepared(attempt, t) matches Course::Ends(_, rest) && rest == t1,
        restore::attempted(explicit, attempt, attempts, verbose, error, t1) == Course::Ends(
            TrialView::Failed(next),
            t2,
        ),
    ensures
        restore::attempts_made(explicit, attempt, last, attempts, verbose, error, t)
            == restore::attempts_made(
            explicit,
            (attempt + 1) as u32,
            last,
            attempts,
            verbose,
            next,
            t2,
        ),
{
}

/// A restore that is not told otherwise makes three attempts.
pub proof fn restore_tries_three_times()
    ensures
        restore::INTERNAL_RESTORE_ATTEMPTS == 3,
{
}

// ---------------------------------------------------------------------------
// Time.
// ---------------------------------------------------------------------------
/// The time is up as soon as the limit is reached, and not before. A clock that
/// runs backwards uses none of it up.
pub proof fn time_is_up_at_the_limit(start: u64, now: u64, timeout_ms: u32)
    ensures
        now >= start ==> (commands::over_time(start, now, timeout_ms) <==> now - start
            >= timeout_ms * 1_000_000),
        now < start ==> (commands::over_time(start, now, timeout_ms) <==> timeout_ms == 0),
{
}

/// The command was stopped.
pub open spec fn stopped() -> spec_fn(EffectView, ReplyView) -> bool {
    |e: EffectView, r: ReplyView| e == EffectView::Kill
}

/// The command could not be waited for, or its output not be had.
pub open spec fn lost() -> spec_fn(EffectView, ReplyView) -> bool {
    |e: EffectView, r: ReplyView|
        (e == EffectView::Poll && !(r matches ReplyView::Ended(ended) && ended is Ok)) || (e
            == EffectView::Collect && !(r matches ReplyView::Ran(ran) && ran is Ok))
}

proof fn lemma_late_is_stopped_step(
    program: Seq<char>,
    arguments: Seq<Seq<char>>,
    timeout_ms: u32,
    start: u64,
    x: Seq<ReplyView>,
    r1: Seq<ReplyView>,
    r2: Seq<ReplyView>,
)
    requires
        effect::asks_ended(EffectView::Poll, x) matches Course::Ends(v, rest)
            && v == Ok::<bool, Seq<char>>(false) && rest == r1,
        effect::asks_nanos(EffectView::Clock, r1) matches Course::Ends(v, rest)
            && commands::over_time(start, v, timeout_ms) && rest == r2,
    ensures
        effect::asks_any(EffectView::Kill, r2) is Asks
            ==> asking::wanted(
                commands::end_awaited(program, arguments, timeout_ms, start, x),
            ) == asking::wanted(effect::asks_any(EffectView::Kill, r2)),
{
}

proof fn lemma_late_is_stopped(
    program: Seq<char>,
    arguments: Seq<Seq<char>>,
    timeout_ms: u32,
    start: u64,
    t: Seq<ReplyView>,
    t1: Seq<ReplyView>,
    t2: Seq<ReplyView>,
)
    requires
        effect::asks_ended(EffectView::Poll, t) matches Course::Ends(v, rest)
            && v == Ok::<bool, Seq<char>>(false) && rest == t1,
        effect::asks_nanos(EffectView::Clock, t1) matches Course::Ends(v, rest)
            && commands::over_time(start, v, timeout_ms) && rest == t2,
    ensures
        asking::leads(
            |s: Seq<ReplyView>| commands::end_awaited(program, arguments, timeout_ms, start, s),
            t,
            |s: Seq<ReplyView>| effect::asks_any(EffectView::Kill, s),
            t2,
        ),
        asking::carries(
            |s: Seq<ReplyView>| commands::end_awaited(program, arguments, timeout_ms, start, s),
            t,
            |s: Seq<ReplyView>| effect::asks_any(EffectView::Kill, s),
            t2,
        ),
{
    let p = |s: Seq<ReplyView>| commands::end_awaited(program, arguments, timeout_ms, start, s);
    let f = |s: Seq<ReplyView>| effect::asks_any(EffectView::Kill, s);
    let q1 = |s: Seq<ReplyView>| effect::asks_ended(EffectView::Poll, s);
    let q2 = |s: Seq<ReplyView>| effect::asks_nanos(EffectView::Clock, s);
    assert(asking::cuts(q1, t, t1)) by {
        front_laws::asks_ended_shrinks(EffectView::Poll, t);
        front_laws::asks_ended_cut(EffectView::Poll, t, 0);
        assert forall|j: int| 0 <= j <= t1.len() implies q1(
            #[trigger] t.take(t.len() - t1.len() + j),
        ) == Course::Ends(q1(t)->Ends_0, t1.take(j)) by {
            front_laws::asks_ended_cut(EffectView::Poll, t, j);
        }
    }
    assert(asking::cuts(q2, t1, t2)) by {
        front_laws::asks_nanos_shrinks(EffectView::Clock, t1);
        front_laws::asks_nanos_cut(EffectView::Clock, t1, 0);
        assert forall|j: int| 0 <= j <= t2.len() implies q2(
            #[trigger] t1.take(t1.len() - t2.len() + j),
        ) == Course::Ends(q2(t1)->Ends_0, t2.take(j)) by {
            front_laws::asks_nanos_cut(EffectView::Clock, t1, j);
        }
    }
    assert forall|x: Seq<ReplyView>, r1: Seq<ReplyView>, r2: Seq<ReplyView>| #[trigger]
        asking::step2(p, q1, q2, f, q1(t)->Ends_0, q2(t1)->Ends_0, x, r1, r2) by {
        if q1(x) == Course::Ends(q1(t)->Ends_0, r1) && q2(r1) == Course::Ends(q2(t1)->Ends_0, r2) {
            lemma_late_is_stopped_step(program, arguments, timeout_ms, start, x, r1, r2);
        }
    }
    asking::lemma_behind2(p, q1, q2, f, t, t1, t2);
}

proof fn lemma_clock_is_read_step(
    program: Seq<char>,
    arguments: Seq<Seq<char>>,
    timeout_ms: u32,
    start: u64,
    x: Seq<ReplyView>,
    r1: Seq<ReplyView>,
)
    requires
        effect::asks_ended(EffectView::Poll, x) matches Course::Ends(v, rest)
            && v == Ok::<bool, Seq<char>>(false) && rest == r1,
    ensures
        effect::asks_nanos(EffectView::Clock, r1) is Asks
            ==> asking::wanted(
                commands::end_awaited(program, arguments, timeout_ms, start, x),
            ) == asking::wanted(effect::asks_nanos(EffectView::Clock, r1)),
{
}

proof fn lemma_clock_is_read(
    program: Seq<char>,
    arguments: Seq<Seq<char>>,
    timeout_ms: u32,
    start: u64,
    t: Seq<ReplyView>,
    t1: Seq<ReplyView>,
)
    requires
        effect::asks_ended(EffectView::Poll, t) matches Course::Ends(v, rest)
            && v == Ok::<bool, Seq<char>>(false) && rest == t1,
    ensures
        asking::leads(
            |s: Seq<ReplyView>| commands::end_awaited(program, arguments, timeout_ms, start, s),
            t,
            |s: Seq<ReplyView>| effect::asks_nanos(EffectView::Clock, s),
            t1,
        ),
        asking::carries(
            |s: Seq<ReplyView>| commands::end_awaited(program, arguments, timeout_ms, start, s),
            t,
            |s: Seq<ReplyView>| effect::asks_nanos(EffectView::Clock, s),
            t1,
        ),
{
    let p = |s: Seq<ReplyView>| commands::end_awaited(program, arguments, timeout_ms, start, s);
    let f = |s: Seq<ReplyView>| effect::asks_nanos(EffectView::Clock, s);
    let q1 = |s: Seq<ReplyView>| effect::asks_ended(EffectView::Poll, s);
    assert(asking::cuts(q1, t, t1)) by {
        front_laws::asks_ended_shrinks(EffectView::Poll, t);
        front_laws::asks_ended_cut(EffectView::Poll, t, 0);
        assert forall|j: int| 0 <= j <= t1.len() implies q1(
            #[trigger] t.take(t.len() - t1.len() + j),
        ) == Course::Ends(q1(t)->Ends_0, t1.take(j)) by {
            front_laws::asks_ended_cut(EffectView::Poll, t, j);
        }
    }
    assert forall|x: Seq<ReplyView>, r1: Seq<ReplyView>| #[trigger]
        asking::step1(p, q1, f, q1(t)->Ends_0, x, r1) by {
        if q1(x) == Course::Ends(q1(t)->Ends_0, r1) {
            lemma_clock_is_read_step(program, arguments, timeout_ms, start, x, r1);
        }
    }
    asking::lemma_behind1(p, q1, f, t, t1);
}

proof fn lemma_end_is_collected_step(
    program: Seq<char>,
    arguments: Seq<Seq<char>>,
    timeout_ms: u32,
    start: u64,
    x: Seq<ReplyView>,
    r1: Seq<ReplyView>,
)
    requires
        effect::asks_ended(EffectView::Poll, x) matches Course::Ends(v, rest)
            && v == Ok::<bool, Seq<char>>(true) && rest == r1,
    ensures
        effect::asks_ran(EffectView::Collect, r1) is Asks
            ==> asking::wanted(
                commands::end_awaited(program, arguments, timeout_ms, start, x),
            ) == asking::wanted(effect::asks_ran(EffectView::Collect, r1)),
{
}

proof fn lemma_end_is_collected(
    program: Seq<char>,
    arguments: Seq<Seq<char>>,
    timeout_ms: u32,
    start: u64,
    t: Seq<ReplyView>,
    t1: Seq<ReplyView>,
)
    requires
        effect::asks_ended(EffectView::Poll, t) matches Course::Ends(v, rest)
            && v == Ok::<bool, Seq<char>>(true) && rest == t1,
    ensures
        asking::leads(
            |s: Seq<ReplyView>| commands::end_awaited(program, arguments, timeout_ms, start, s),
            t,
            |s: Seq<ReplyView>| effect::asks_ran(EffectView::Collect, s),
            t1,
        ),
        asking::carries(
            |s: Seq<ReplyView>| commands::end_awaited(program, arguments, timeout_ms, start, s),
            t,
            |s: Seq<ReplyView>| effect::asks_ran(EffectView::Collect, s),
            t1,
        ),
{
    let p = |s: Seq<ReplyView>| commands::end_awaited(program, arguments, timeout_ms, start, s);
    let f = |s: Seq<ReplyView>| effect::asks_ran(EffectView::Collect, s);
    let q1 = |s: Seq<ReplyView>| effect::asks_ended(EffectView::Poll, s);
    assert(asking::cuts(q1, t, t1)) by {
        front_laws::asks_ended_shrinks(EffectView::Poll, t);
        front_laws::asks_ended_cut(EffectView::Poll, t, 0);
        assert forall|j: int| 0 <= j <= t1.len() implies q1(
            #[trigger] t.take(t.len() - t1.len() + j),
        ) == Course::Ends(q1(t)->Ends_0, t1.take(j)) by {
            front_laws::asks_ended_cut(EffectView::Poll, t, j);
        }
    }
    assert forall|x: Seq<ReplyView>, r1: Seq<ReplyView>| #[trigger]
        asking::step1(p, q1, f, q1(t)->Ends_0, x, r1) by {
        if q1(x) == Course::Ends(q1(t)->Ends_0, r1) {
            lemma_end_is_collected_step(program, arguments, timeout_ms, start, x, r1);
        }
    }
    asking::lemma_behind1(p, q1, f, t, t1);
}

proof fn lemma_waiting_goes_on_step(
    program: Seq<char>,
    arguments: Seq<Seq<char>>,
    timeout_ms: u32,
    start: u64,
    x: Seq<ReplyView>,
    r1: Seq<ReplyView>,
    r2: Seq<ReplyView>,
    r3: Seq<ReplyView>,
)
    requires
        effect::asks_ended(EffectView::Poll, x) matches Course::Ends(v, rest)
            && v == Ok::<bool, Seq<char>>(false) && rest == r1,
        effect::asks_nanos(EffectView::Clock, r1) matches Course::Ends(v, rest)
            && !commands::over_time(start, v, timeout_ms) && rest == r2,
        effect::asks_any(EffectView::Sleep(20), r2) matches Course::Ends(v, rest) && rest == r3,
    ensures
        commands::end_awaited(program, arguments, timeout_ms, start, r3) is Asks
            ==> asking::wanted(commands::end_awaited(program, arguments, timeout_ms, start, x)) == asking::wanted(
                commands::end_awaited(program, arguments, timeout_ms, start, r3),
            ),
{
}

proof fn lemma_waiting_goes_on(
    program: Seq<char>,
    arguments: Seq<Seq<char>>,
    timeout_ms: u32,
    start: u64,
    t: Seq<ReplyView>,
    t1: Seq<ReplyView>,
    t2: Seq<ReplyView>,
    t3: Seq<ReplyView>,
)
    requires
        effect::asks_ended(EffectView::Poll, t) matches Course::Ends(v, rest)
            && v == Ok::<bool, Seq<char>>(false) && rest == t1,
        effect::asks_nanos(EffectView::Clock, t1) matches Course::Ends(v, rest)
            && !commands::over_time(start, v, timeout_ms) && rest == t2,
        effect::asks_any(EffectView::Sleep(20), t2) matches Course::Ends(v, rest) && rest == t3,
    ensures
        asking::leads(
            |s: Seq<ReplyView>| commands::end_awaited(program, arguments, timeout_ms, start, s),
            t,
            |s: Seq<ReplyView>| commands::end_awaited(program, arguments, timeout_ms, start, s),
            t3,
        ),
        asking::carries(
            |s: Seq<ReplyView>| commands::end_awaited(program, arguments, timeout_ms, start, s),
            t,
            |s: Seq<ReplyView>| commands::end_awaited(program, arguments, timeout_ms, start, s),
            t3,
        ),
{
    let p = |s: Seq<ReplyView>| commands::end_awaited(program, arguments, timeout_ms, start, s);
    let f = |s: Seq<ReplyView>| commands::end_awaited(program, arguments, timeout_ms, start, s);
    let q1 = |s: Seq<ReplyView>| effect::asks_ended(EffectView::Poll, s);
    let q2 = |s: Seq<ReplyView>| effect::asks_nanos(EffectView::Clock, s);
    let q3 = |s: Seq<ReplyView>| effect::asks_any(EffectView::Sleep(20), s);
    assert(asking::cuts(q1, t, t1)) by {
        front_laws::asks_ended_shrinks(EffectView::Poll, t);
        front_laws::asks_ended_cut(EffectView::Poll, t, 0);
        assert forall|j: int| 0 <= j <= t1.len() implies q1(
            #[trigger] t.take(t.len() - t1.len() + j),
        ) == Course::Ends(q1(t)->Ends_0, t1.take(j)) by {
            front_laws::asks_ended_cut(EffectView::Poll, t, j);
        }
    }
    assert(asking::cuts(q2, t1, t2)) by {
        front_laws::asks_nanos_shrinks(EffectView::Clock, t1);
        front_laws::asks_nanos_cut(EffectView::Clock, t1, 0);
        assert forall|j: int| 0 <= j <= t2.len() implies q2(
            #[trigger] t1.take(t1.len() - t2.len() + j),
        ) == Course::Ends(q2(t1)->Ends_0, t2.take(j)) by {
            front_laws::asks_nanos_cut(EffectView::Clock, t1, j);
        }
    }
    assert(asking::cuts(q3, t2, t3)) by {
        front_laws::asks_any_shrinks(EffectView::Sleep(20), t2);
        front_laws::asks_any_cut(EffectView::Sleep(20), t2, 0);
        assert forall|j: int| 0 <= j <= t3.len() implies q3(
            #[trigger] t2.take(t2.len() - t3.len() + j),
        ) == Course::Ends(q3(t2)->Ends_0, t3.take(j)) by {
            front_laws::asks_any_cut(EffectView::Sleep(20), t2, j);
        }
    }
    assert forall|
        x: Seq<ReplyView>,
        r1: Seq<ReplyView>,
        r2: Seq<ReplyView>,
        r3: Seq<ReplyView>,
    | #[trigger]
        asking::step3(
            p,
            q1,
            q2,
            q3,
            f,
            q1(t)->Ends_0,
            q2(t1)->Ends_0,
            q3(t2)->Ends_0,
            x,
            r1,
            r2,
            r3,
        ) by {
        if q1(x) == Course::Ends(q1(t)->Ends_0, r1) && q2(r1) == Course::Ends(q2(t1)->Ends_0, r2)
            && q3(r2) == Course::Ends(q3(t2)->Ends_0, r3) {
            lemma_waiting_goes_on_step(program, arguments, timeout_ms, start, x, r1, r2, r3);
        }
    }
    asking::lemma_behind3(p, q1, q2, q3, f, t, t1, t2, t3);
}

/// A command with a limit fails only where it was lost, or where the clock has
/// shown that the time is up; then it was stopped.
pub proof fn late_commands_are_stopped(
    program: Seq<char>,
    arguments: Seq<Seq<char>>,
    timeout_ms: u32,
    start: u64,
    t: Seq<ReplyView>,
)
    requires
        commands::end_awaited(program, arguments, timeout_ms, start, t) matches Course::Ends(r, _)
            && r is Err,
    ensures
        ({
            let p = |s: Seq<ReplyView>|
                commands::end_awaited(program, arguments, timeout_ms, start, s);
            asking::met(p, t, lost()) || (asking::met(p, t, stopped()) && asking::met(
                p,
                t,
                native_laws::time_up(start, timeout_ms),
            ))
        }),
    decreases t.len(),
{
    let p = |s: Seq<ReplyView>| commands::end_awaited(program, arguments, timeout_ms, start, s);
    let t1 = t.skip(1);
    match effect::as_ended(t[0]) {
        Err(_) => {
            assert(t.take(0).len() == 0);
            assert(asking::meets(p, t, lost(), 0));
        },
        Ok(ended) => {
            if ended {
                lemma_end_is_collected(program, arguments, timeout_ms, start, t, t1);
                let f = |s: Seq<ReplyView>| effect::asks_ran(EffectView::Collect, s);
                assert(t1.take(0).len() == 0);
                assert(asking::meets(f, t1, lost(), 0));
                assert(asking::met(f, t1, lost()));
            } else {
                let now = effect::as_nanos(t1[0]);
                let t2 = t1.skip(1);
                if commands::over_time(start, now, timeout_ms) {
                    lemma_late_is_stopped(program, arguments, timeout_ms, start, t, t1, t2);
                    lemma_clock_is_read(program, arguments, timeout_ms, start, t, t1);
                    let f = |s: Seq<ReplyView>| effect::asks_any(EffectView::Kill, s);
                    let g = |s: Seq<ReplyView>| effect::asks_nanos(EffectView::Clock, s);
                    let late = native_laws::time_up(start, timeout_ms);
                    assert(t1.take(0).len() == 0);
                    assert(t2.take(0).len() == 0);
                    assert(asking::meets(f, t2, stopped(), 0));
                    assert(asking::met(f, t2, stopped()));
                    assert(asking::meets(g, t1, late, 0));
                    assert(asking::met(g, t1, late));
                } else {
                    let t3 = t2.skip(1);
                    lemma_waiting_goes_on(program, arguments, timeout_ms, start, t, t1, t2, t3);
                    late_commands_are_stopped(program, arguments, timeout_ms, start, t3);
                }
            }
        },
    }
}

// ---------------------------------------------------------------------------
// Changes.
// ---------------------------------------------------------------------------
proof fn lemma_gain_recovers_step(
    targets: Seq<TargetView>,
    change: DisplayChange,
    force: bool,
    verbose: bool,
    x: Seq<ReplyView>,
    r1: Seq<ReplyView>,
    r2: Seq<ReplyView>,
)
    requires
        !change.loss(),
        files::panel_number_read(x) matches Course::Ends(v, rest) && v is Ok && rest == r1,
        effect::asks_flag(EffectView::AskBuiltin(change.display), r1) matches Course::Ends(v, rest)
            && rest == r2,
    ensures
        watching::recovered(targets, ActionMode::Execute, force, verbose, r2) is Asks
            ==> asking::wanted(
                watching::change_answered(targets, change, ActionMode::Execute, force, verbose, x),
            ) == asking::wanted(watching::recovered(
                targets,
                ActionMode::Execute,
                force,
                verbose,
                r2,
            )),
{
}

proof fn lemma_gain_recovers(
    targets: Seq<TargetView>,
    change: DisplayChange,
    force: bool,
    verbose: bool,
    t: Seq<ReplyView>,
    t1: Seq<ReplyView>,
    t2: Seq<ReplyView>,
)
    requires
        !change.loss(),
        files::panel_number_read(t) matches Course::Ends(v, rest) && v is Ok && rest == t1,
        effect::asks_flag(EffectView::AskBuiltin(change.display), t1) matches Course::Ends(v, rest)
            && rest == t2,
    ensures
        asking::leads(
            |s: Seq<ReplyView>| watching::change_answered(
                targets,
                change,
                ActionMode::Execute,
                force,
                verbose,
                s,
            ),
            t,
            |s: Seq<ReplyView>| watching::recovered(
                targets,
                ActionMode::Execute,
                force,
                verbose,
                s,
            ),
            t2,
        ),
        asking::carries(
            |s: Seq<ReplyView>| watching::change_answered(
                targets,
                change,
                ActionMode::Execute,
                force,
                verbose,
                s,
            ),
            t,
            |s: Seq<ReplyView>| watching::recovered(
                targets,
                ActionMode::Execute,
                force,
                verbose,
                s,
            ),
            t2,
        ),
{
    let p = |s: Seq<ReplyView>| watching::change_answered(
        targets,
        change,
        ActionMode::Execute,
        force,
        verbose,
        s,
    );
    let f = |s: Seq<ReplyView>| watching::recovered(
        targets,
        ActionMode::Execute,
        force,
        verbose,
        s,
    );
    let q1 = |s: Seq<ReplyView>| files::panel_number_read(s);
    let q2 = |s: Seq<ReplyView>| effect::asks_flag(EffectView::AskBuiltin(change.display), s);
    assert(asking::cuts(q1, t, t1)) by {
        front_laws::panel_number_read_shrinks(t);
        front_laws::panel_number_read_cut(t, 0);
        assert forall|j: int| 0 <= j <= t1.len() implies q1(
            #[trigger] t.take(t.len() - t1.len() + j),
        ) == Course::Ends(q1(t)->Ends_0, t1.take(j)) by {
            front_laws::panel_number_read_cut(t, j);
        }
    }
    assert(asking::cuts(q2, t1, t2)) by {
        front_laws::asks_flag_shrinks(EffectView::AskBuiltin(change.display), t1);
        front_laws::asks_flag_cut(EffectView::AskBuiltin(change.display), t1, 0);
        assert forall|j: int| 0 <= j <= t2.len() implies q2(
            #[trigger] t1.take(t1.len() - t2.len() + j),
        ) == Course::Ends(q2(t1)->Ends_0, t2.take(j)) by {
            front_laws::asks_flag_cut(EffectView::AskBuiltin(change.display), t1, j);
        }
    }
    assert forall|x: Seq<ReplyView>, r1: Seq<ReplyView>, r2: Seq<ReplyView>| #[trigger]
        asking::step2(p, q1, q2, f, q1(t)->Ends_0, q2(t1)->Ends_0, x, r1, r2) by {
        if q1(x) == Course::Ends(q1(t)->Ends_0, r1) && q2(r1) == Course::Ends(q2(t1)->Ends_0, r2) {
            lemma_gain_recovers_step(targets, change, force, verbose, x, r1, r2);
        }
    }
    asking::lemma_behind2(p, q1, q2, f, t, t1, t2);
}

/// A change that is no loss is answered by a recovery.
pub proof fn gains_are_recovered_from(
    targets: Seq<TargetView>,
    change: DisplayChange,
    force: bool,
    verbose: bool,
    t: Seq<ReplyView>,
)
    requires
        (change.flags / 32) % 2 == 0,
        (change.flags / 512) % 2 == 0,
        t.len() >= 2,
        files::panel_number_read(t) matches Course::Ends(r, _) && r is Ok,
    ensures
        asking::carries(
            |s: Seq<ReplyView>|
                watching::change_answered(targets, change, ActionMode::Execute, force, verbose, s),
            t,
            |s: Seq<ReplyView>|
                watching::recovered(targets, ActionMode::Execute, force, verbose, s),
            t.skip(1).skip(1),
        ),
{
    let flags = change.flags;
    assert((flags & 0x20 != 0) == ((flags / 32) % 2 == 1)) by (bit_vector);
    assert((flags & 0x200 != 0) == ((flags / 512) % 2 == 1)) by (bit_vector);
    let t1 = t.skip(1);
    let t2 = t1.skip(1);
    lemma_gain_recovers(targets, change, force, verbose, t, t1, t2);
}

// ---------------------------------------------------------------------------
// Lists.
// ---------------------------------------------------------------------------
/// The line was printed.
pub open spec fn printed(line: Seq<char>) -> spec_fn(EffectView, ReplyView) -> bool {
    |e: EffectView, r: ReplyView| e == EffectView::Print(line + "\n"@)
}

proof fn lemma_lines_go_on_step(
    lines: Seq<Seq<char>>,
    x: Seq<ReplyView>,
    r1: Seq<ReplyView>,
)
    requires
        lines.len() > 0,
        effect::said(lines[0], x) matches Course::Ends(v, rest) && rest == r1,
    ensures
        command::lines_said(lines.skip(1), r1) is Asks
            ==> asking::wanted(command::lines_said(lines, x)) == asking::wanted(
                command::lines_said(lines.skip(1), r1),
            ),
{
}

proof fn lemma_lines_go_on(
    lines: Seq<Seq<char>>,
    t: Seq<ReplyView>,
    t1: Seq<ReplyView>,
)
    requires
        lines.len() > 0,
        effect::said(lines[0], t) matches Course::Ends(v, rest) && rest == t1,
    ensures
        asking::leads(
            |s: Seq<ReplyView>| command::lines_said(lines, s),
            t,
            |s: Seq<ReplyView>| command::lines_said(lines.skip(1), s),
            t1,
        ),
        asking::carries(
            |s: Seq<ReplyView>| command::lines_said(lines, s),
            t,
            |s: Seq<ReplyView>| command::lines_said(lines.skip(1), s),
            t1,
        ),
{
    let p = |s: Seq<ReplyView>| command::lines_said(lines, s);
    let f = |s: Seq<ReplyView>| command::lines_said(lines.skip(1), s);
    let q1 = |s: Seq<ReplyView>| effect::said(lines[0], s);
    assert(asking::cuts(q1, t, t1)) by {
        front_laws::said_shrinks(lines[0], t);
        front_laws::said_cut(lines[0], t, 0);
        assert forall|j: int| 0 <= j <= t1.len() implies q1(
            #[trigger] t.take(t.len() - t1.len() + j),
        ) == Course::Ends(q1(t)->Ends_0, t1.take(j)) by {
            front_laws::said_cut(lines[0], t, j);
        }
    }
    assert forall|x: Seq<ReplyView>, r1: Seq<ReplyView>| #[trigger]
        asking::step1(p, q1, f, q1(t)->Ends_0, x, r1) by {
        if q1(x) == Course::Ends(q1(t)->Ends_0, r1) {
            lemma_lines_go_on_step(lines, x, r1);
        }
    }
    asking::lemma_behind1(p, q1, f, t, t1);
}

/// Each of the lines is printed.
pub proof fn each_line_is_printed(lines: Seq<Seq<char>>, i: int, t: Seq<ReplyView>)
    requires
        0 <= i < lines.len(),
        command::lines_said(lines, t) is Ends,
    ensures
        asking::met(|s: Seq<ReplyView>| command::lines_said(lines, s), t, printed(lines[i])),
    decreases lines.len(),
{
    let p = |s: Seq<ReplyView>| command::lines_said(lines, s);
    if i == 0 {
        assert(t.take(0).len() == 0);
        assert(asking::meets(p, t, printed(lines[0]), 0));
    } else {
        let t1 = t.skip(1);
        lemma_lines_go_on(lines, t, t1);
        assert(lines.skip(1)[i - 1] == lines[i]);
        each_line_is_printed(lines.skip(1), i - 1, t1);
    }
}

proof fn lemma_display_is_told(displays: Seq<DisplayView>, i: int) -> (k: int)
    requires
        0 <= i < displays.len(),
    ensures
        0 <= k < command::displays_lines(displays).len(),
        command::displays_lines(displays)[k] == "["@ + number::dec(i as nat) + "] "@
            + displays[i].brief_text(),
    decreases displays.len(),
{
    let early = command::displays_lines(displays.drop_last());
    let last = command::display_lines((displays.len() - 1) as nat, displays.last());
    let all = command::displays_lines(displays);
    if i == displays.len() - 1 {
        assert(last[0] == "["@ + number::dec(i as nat) + "] "@ + displays[i].brief_text());
        assert(all[early.len() as int] == last[0]);
        early.len() as int
    } else {
        let k = lemma_display_is_told(displays.drop_last(), i);
        assert(displays.drop_last()[i] == displays[i]);
        assert(all[k] == early[k]);
        k
    }
}

proof fn lemma_list_says_step(
    parsed: ParsedView,
    x: Seq<ReplyView>,
    r1: Seq<ReplyView>,
    r2: Seq<ReplyView>,
)
    requires
        commands::displays_listed(x) matches Course::Ends(v, rest)
            && v == Ok::<ParsedView, Seq<char>>(parsed) && rest == r1,
        files::list_remembered(parsed.displays, r1) matches Course::Ends(v, rest) && rest == r2,
    ensures
        command::lines_said(command::listing_lines(parsed), r2) is Asks
            ==> asking::wanted(command::list_run(x)) == asking::wanted(
                command::lines_said(command::listing_lines(parsed), r2),
            ),
{
}

proof fn lemma_list_says(
    parsed: ParsedView,
    t: Seq<ReplyView>,
    t1: Seq<ReplyView>,
    t2: Seq<ReplyView>,
)
    requires
        commands::displays_listed(t) matches Course::Ends(v, rest)
            && v == Ok::<ParsedView, Seq<char>>(parsed) && rest == t1,
        files::list_remembered(parsed.displays, t1) matches Course::Ends(v, rest) && rest == t2,
    ensures
        asking::leads(
            |s: Seq<ReplyView>| command::list_run(s),
            t,
            |s: Seq<ReplyView>| command::lines_said(command::listing_lines(parsed), s),
            t2,
        ),
        asking::carries(
            |s: Seq<ReplyView>| command::list_run(s),
            t,
            |s: Seq<ReplyView>| command::lines_said(command::listing_lines(parsed), s),
            t2,
        ),
{
    let p = |s: Seq<ReplyView>| command::list_run(s);
    let f = |s: Seq<ReplyView>| command::lines_said(command::listing_lines(parsed), s);
    let q1 = |s: Seq<ReplyView>| commands::displays_listed(s);
    let q2 = |s: Seq<ReplyView>| files::list_remembered(parsed.displays, s);
    assert(asking::cuts(q1, t, t1)) by {
        front_laws::displays_listed_shrinks(t);
        front_laws::displays_listed_cut(t, 0);
        assert forall|j: int| 0 <= j <= t1.len() implies q1(
            #[trigger] t.take(t.len() - t1.len() + j),
        ) == Course::Ends(q1(t)->Ends_0, t1.take(j)) by {
            front_laws::displays_listed_cut(t, j);
        }
    }
    assert(asking::cuts(q2, t1, t2)) by {
        front_laws::list_remembered_shrinks(parsed.displays, t1);
        front_laws::list_remembered_cut(parsed.displays, t1, 0);
        assert forall|j: int| 0 <= j <= t2.len() implies q2(
            #[trigger] t1.take(t1.len() - t2.len() + j),
        ) == Course::Ends(q2(t1)->Ends_0, t2.take(j)) by {
            front_laws::list_remembered_cut(parsed.displays, t1, j);
        }
    }
    assert forall|x: Seq<ReplyView>, r1: Seq<ReplyView>, r2: Seq<ReplyView>| #[trigger]
        asking::step2(p, q1, q2, f, q1(t)->Ends_0, q2(t1)->Ends_0, x, r1, r2) by {
        if q1(x) == Course::Ends(q1(t)->Ends_0, r1) && q2(r1) == Course::Ends(q2(t1)->Ends_0, r2) {
            lemma_list_says_step(parsed, x, r1, r2);
        }
    }
    asking::lemma_behind2(p, q1, q2, f, t, t1, t2);
}

/// The command `list` prints a line for each display, under its number, and ends
/// well just where the displays could be listed.
pub proof fn list_tells_each_display(t: Seq<ReplyView>, i: int)
    requires
        command::list_run(t) is Ends,
    ensures
        command::list_run(t)->Ends_0 is Ok <==> commands::as_list(effect::as_ran(t[0])) is Ok,
        commands::as_list(effect::as_ran(t[0])) matches Ok(parsed) ==> (0 <= i
            < parsed.displays.len() ==> asking::met(
            |s: Seq<ReplyView>| command::list_run(s),
            t,
            printed("["@ + number::dec(i as nat) + "] "@ + parsed.displays[i].brief_text()),
        )),
{
    if let Ok(parsed) = commands::as_list(effect::as_ran(t[0])) {
        let t1 = t.skip(1);
        let t2 = files::list_remembered(parsed.displays, t1)->Ends_1;
        lemma_list_says(parsed, t, t1, t2);
        if 0 <= i < parsed.displays.len() {
            let k = lemma_display_is_told(parsed.displays, i);
            let lines = command::listing_lines(parsed);
            assert(lines[k] == command::displays_lines(parsed.displays)[k]);
            each_line_is_printed(lines, k, t2);
        }
    }
}

// ---------------------------------------------------------------------------
// Opening the interactive mode.
// ---------------------------------------------------------------------------
proof fn lemma_open_shows_step(
    events: Option<Seq<char>>,
    power: Option<Seq<char>>,
    targets: Seq<TargetView>,
    x: Seq<ReplyView>,
    r1: Seq<ReplyView>,
    r2: Seq<ReplyView>,
    r3: Seq<ReplyView>,
    r4: Seq<ReplyView>,
)
    requires
        effect::asks_done(EffectView::OpenTerminal, x) matches Course::Ends(v, rest) && v is Ok
            && rest == r1,
        watch::events_started(
            interactive::DEFAULT_INTERACTIVE_RECONCILE_INTERVAL_SECS,
            r1,
        ) matches Course::Ends(v, rest)
            && v == events && rest == r2,
        interactive::power_started(r2) matches Course::Ends(v, rest) && v == power && rest == r3,
        files::targets_loaded(r3) matches Course::Ends(v, rest)
            && v == Ok::<Seq<TargetView>, Seq<char>>(targets) && rest == r4,
    ensures
        interactive::first_loaded(
            interactive::first_state(targets, interactive::first_status(events, power)),
            r4,
        ) is Asks
            ==> asking::wanted(interactive::mode_opened(x)) == asking::wanted(
                interactive::first_loaded(
                    interactive::first_state(targets, interactive::first_status(events, power)),
                    r4,
                ),
            ),
{
}

proof fn lemma_open_shows(
    events: Option<Seq<char>>,
    power: Option<Seq<char>>,
    targets: Seq<TargetView>,
    t: Seq<ReplyView>,
    t1: Seq<ReplyView>,
    t2: Seq<ReplyView>,
    t3: Seq<ReplyView>,
    t4: Seq<ReplyView>,
)
    requires
        effect::asks_done(EffectView::OpenTerminal, t) matches Course::Ends(v, rest) && v is Ok
            && rest == t1,
        watch::events_started(
            interactive::DEFAULT_INTERACTIVE_RECONCILE_INTERVAL_SECS,
            t1,
        ) matches Course::Ends(v, rest)
            && v == events && rest == t2,
        interactive::power_started(t2) matches Course::Ends(v, rest) && v == power && rest == t3,
        files::targets_loaded(t3) matches Course::Ends(v, rest)
            && v == Ok::<Seq<TargetView>, Seq<char>>(targets) && rest == t4,
    ensures
        asking::leads(
            |s: Seq<ReplyView>| interactive::mode_opened(s),
            t,
            |s: Seq<ReplyView>| interactive::first_loaded(
                interactive::first_state(targets, interactive::first_status(events, power)),
                s,
            ),
            t4,
        ),
        asking::carries(
            |s: Seq<ReplyView>| interactive::mode_opened(s),
            t,
            |s: Seq<ReplyView>| interactive::first_loaded(
                interactive::first_state(targets, interactive::first_status(events, power)),
                s,
            ),
            t4,
        ),
{
    let p = |s: Seq<ReplyView>| interactive::mode_opened(s);
    let f = |s: Seq<ReplyView>| interactive::first_loaded(
        interactive::first_state(targets, interactive::first_status(events, power)),
        s,
    );
    let q1 = |s: Seq<ReplyView>| effect::asks_done(EffectView::OpenTerminal, s);
    let q2 = |s: Seq<ReplyView>| watch::events_started(
        interactive::DEFAULT_INTERACTIVE_RECONCILE_INTERVAL_SECS,
        s,
    );
    let q3 = |s: Seq<ReplyView>| interactive::power_started(s);
    let q4 = |s: Seq<ReplyView>| files::targets_loaded(s);
    assert(asking::cuts(q1, t, t1)) by {
        front_laws::asks_done_shrinks(EffectView::OpenTerminal, t);
        front_laws::asks_done_cut(EffectView::OpenTerminal, t, 0);
        assert forall|j: int| 0 <= j <= t1.len() implies q1(
            #[trigger] t.take(t.len() - t1.len() + j),
        ) == Course::Ends(q1(t)->Ends_0, t1.take(j)) by {
            front_laws::asks_done_cut(EffectView::OpenTerminal, t, j);
        }
    }
    assert(asking::cuts(q2, t1, t2)) by {
        front_laws::events_started_shrinks(
            interactive::DEFAULT_INTERACTIVE_RECONCILE_INTERVAL_SECS,
            t1,
        );
        front_laws::events_started_cut(
            interactive::DEFAULT_INTERACTIVE_RECONCILE_INTERVAL_SECS,
            t1,
            0,
        );
        assert forall|j: int| 0 <= j <= t2.len() implies q2(
            #[trigger] t1.take(t1.len() - t2.len() + j),
        ) == Course::Ends(q2(t1)->Ends_0, t2.take(j)) by {
            front_laws::events_started_cut(
                interactive::DEFAULT_INTERACTIVE_RECONCILE_INTERVAL_SECS,
                t1,
                j,
            );
        }
    }
    assert(asking::cuts(q3, t2, t3)) by {
        front_laws::power_started_shrinks(t2);
        front_laws::power_started_cut(t2, 0);
        assert forall|j: int| 0 <= j <= t3.len() implies q3(
            #[trigger] t2.take(t2.len() - t3.len() + j),
        ) == Course::Ends(q3(t2)->Ends_0, t3.take(j)) by {
            front_laws::power_started_cut(t2, j);
        }
    }
    assert(asking::cuts(q4, t3, t4)) by {
        front_laws::targets_loaded_shrinks(t3);
        front_laws::targets_loaded_cut(t3, 0);
        assert forall|j: int| 0 <= j <= t4.len() implies q4(
            #[trigger] t3.take(t3.len() - t4.len() + j),
        ) == Course::Ends(q4(t3)->Ends_0, t4.take(j)) by {
            front_laws::targets_loaded_cut(t3, j);
        }
    }
    assert forall|
        x: Seq<ReplyView>,
        r1: Seq<ReplyView>,
        r2: Seq<ReplyView>,
        r3: Seq<ReplyView>,
        r4: Seq<ReplyView>,
    | #[trigger]
        asking::step4(
            p,
            q1,
            q2,
            q3,
            q4,
            f,
            q1(t)->Ends_0,
            q2(t1)->Ends_0,
            q3(t2)->Ends_0,
            q4(t3)->Ends_0,
            x,
            r1,
            r2,
            r3,
            r4,
        ) by {
        if q1(x) == Course::Ends(q1(t)->Ends_0, r1) && q2(r1) == Course::Ends(q2(t1)->Ends_0, r2)
            && q3(r2) == Course::Ends(q3(t2)->Ends_0, r3)
            && q4(r3) == Course::Ends(q4(t3)->Ends_0, r4) {
            lemma_open_shows_step(events, power, targets, x, r1, r2, r3, r4);
        }
    }
    asking::lemma_behind4(p, q1, q2, q3, q4, f, t, t1, t2, t3, t4);
}

proof fn lemma_first_recovers_step(
    ui: UiView,
    listed: UiView,
    columns: Option<u16>,
    x: Seq<ReplyView>,
    r1: Seq<ReplyView>,
    r2: Seq<ReplyView>,
)
    requires
        listed.targets.len() > 0,
        interactive::list_refreshed(ui, x) matches Course::Ends(v, rest) && v == listed
            && rest == r1,
        effect::asks_columns(EffectView::TerminalSize, r1) matches Course::Ends(v, rest)
            && v == columns && rest == r2,
    ensures
        watching::recovered(listed.targets, ActionMode::Execute, false, false, r2) is Asks
            ==> asking::wanted(interactive::first_loaded(ui, x)) == asking::wanted(
                watching::recovered(listed.targets, ActionMode::Execute, false, false, r2),
            ),
{
}

proof fn lemma_first_recovers(
    ui: UiView,
    listed: UiView,
    columns: Option<u16>,
    t: Seq<ReplyView>,
    t1: Seq<ReplyView>,
    t2: Seq<ReplyView>,
)
    requires
        listed.targets.len() > 0,
        interactive::list_refreshed(ui, t) matches Course::Ends(v, rest) && v == listed
            && rest == t1,
        effect::asks_columns(EffectView::TerminalSize, t1) matches Course::Ends(v, rest)
            && v == columns && rest == t2,
    ensures
        asking::leads(
            |s: Seq<ReplyView>| interactive::first_loaded(ui, s),
            t,
            |s: Seq<ReplyView>| watching::recovered(
                listed.targets,
                ActionMode::Execute,
                false,
                false,
                s,
            ),
            t2,
        ),
        asking::carries(
            |s: Seq<ReplyView>| interactive::first_loaded(ui, s),
            t,
            |s: Seq<ReplyView>| watching::recovered(
                listed.targets,
                ActionMode::Execute,
                false,
                false,
                s,
            ),
            t2,
        ),
{
    let p = |s: Seq<ReplyView>| interactive::first_loaded(ui, s);
    let f = |s: Seq<ReplyView>| watching::recovered(
        listed.targets,
        ActionMode::Execute,
        false,
        false,
        s,
    );
    let q1 = |s: Seq<ReplyView>| interactive::list_refreshed(ui, s);
    let q2 = |s: Seq<ReplyView>| effect::asks_columns(EffectView::TerminalSize, s);
    assert(asking::cuts(q1, t, t1)) by {
        front_laws::list_refreshed_shrinks(ui, t);
        front_laws::list_refreshed_cut(ui, t, 0);
        assert forall|j: int| 0 <= j <= t1.len() implies q1(
            #[trigger] t.take(t.len() - t1.len() + j),
        ) == Course::Ends(q1(t)->Ends_0, t1.take(j)) by {
            front_laws::list_refreshed_cut(ui, t, j);
        }
    }
    assert(asking::cuts(q2, t1, t2)) by {
        front_laws::asks_columns_shrinks(EffectView::TerminalSize, t1);
        front_laws::asks_columns_cut(EffectView::TerminalSize, t1, 0);
        assert forall|j: int| 0 <= j <= t2.len() implies q2(
            #[trigger] t1.take(t1.len() - t2.len() + j),
        ) == Course::Ends(q2(t1)->Ends_0, t2.take(j)) by {
            front_laws::asks_columns_cut(EffectView::TerminalSize, t1, j);
        }
    }
    assert forall|x: Seq<ReplyView>, r1: Seq<ReplyView>, r2: Seq<ReplyView>| #[trigger]
        asking::step2(p, q1, q2, f, q1(t)->Ends_0, q2(t1)->Ends_0, x, r1, r2) by {
        if q1(x) == Course::Ends(q1(t)->Ends_0, r1) && q2(r1) == Course::Ends(q2(t1)->Ends_0, r2) {
            lemma_first_recovers_step(ui, listed, columns, x, r1, r2);
        }
    }
    asking::lemma_behind2(p, q1, q2, f, t, t1, t2);
}

proof fn lemma_first_load(ui: UiView, t: Seq<ReplyView>) -> (s: Seq<ReplyView>)
    requires
        ui.targets.len() > 0,
        interactive::first_loaded(ui, t) is Ends,
    ensures
        watching::recovered(ui.targets, ActionMode::Execute, false, false, s) is Ends,
        asking::carries(
            |x: Seq<ReplyView>| interactive::first_loaded(ui, x),
            t,
            |x: Seq<ReplyView>|
                watching::recovered(ui.targets, ActionMode::Execute, false, false, x),
            s,
        ),
{
    let listed = interactive::list_refreshed(ui, t)->Ends_0;
    let t1 = interactive::list_refreshed(ui, t)->Ends_1;
    lemma_targets_stay(ui, t);
    let columns = effect::as_columns(t1[0]);
    let t2 = t1.skip(1);
    lemma_first_recovers(ui, listed, columns, t, t1, t2);
    t2
}

proof fn lemma_targets_stay(ui: UiView, t: Seq<ReplyView>)
    ensures
        interactive::list_refreshed(ui, t) matches Course::Ends(next, _) ==> next.targets
            == ui.targets,
{
}

/// Where targets are saved, opening the interactive mode ends well only after a
/// recovery for them.
pub proof fn opening_recovers(t: Seq<ReplyView>) -> (found: (Seq<TargetView>, Seq<ReplyView>))
    requires
        interactive::mode_opened(t) matches Course::Ends(r, _) && r is Ok,
    ensures
        t.len() > 3,
        effect::as_file(t[3]) matches Ok(file) && found.0 == crate::target::targets_of_file(file),
        found.0.len() > 0 ==> {
            &&& watching::recovered(found.0, ActionMode::Execute, false, false, found.1) is Ends
            &&& asking::carries(
                |x: Seq<ReplyView>| interactive::mode_opened(x),
                t,
                |x: Seq<ReplyView>|
                    watching::recovered(found.0, ActionMode::Execute, false, false, x),
                found.1,
            )
        },
{
    let t1 = t.skip(1);
    let t2 = t1.skip(1);
    let t3 = t2.skip(1);
    let t4 = t3.skip(1);
    assert(t3[0] == t[3]);
    let seconds = interactive::DEFAULT_INTERACTIVE_RECONCILE_INTERVAL_SECS;
    let events = watch::events_started(seconds, t1)->Ends_0;
    let power = interactive::power_started(t2)->Ends_0;
    let targets = files::targets_loaded(t3)->Ends_0->Ok_0;
    let ui = interactive::first_state(targets, interactive::first_status(events, power));
    lemma_open_shows(events, power, targets, t, t1, t2, t3, t4);
    if targets.len() > 0 {
        let s = lemma_first_load(ui, t4);
        (targets, s)
    } else {
        (targets, t4)
    }
}

} // verus!
