//! What installing and uninstalling the guard is for.

use vstd::prelude::*;

use crate::agent;
use crate::asking;
use crate::commands;
use crate::effect;
use crate::effect::{Course, EffectView, ReplyView};
use crate::front_laws;
use crate::install;
use crate::native_laws;
use crate::options::{InstallOptions, UninstallOptions};
use crate::path::FilePathView;
use crate::placer::CaptureView;
use crate::policy::ActionMode;
use crate::text;

verus! {

/// Where `launchd` looks for the guard.
pub open spec fn agent_file() -> FilePathView {
    FilePathView {
        at_home: true,
        parts: seq!["Library"@, "LaunchAgents"@, "com.stargt.displayed.guard.plist"@],
    }
}

/// The guard's property list stands where `launchd` looks for it.
pub proof fn guard_is_where_launchd_looks()
    ensures
        install::guard_plist_place() == agent_file(),
{
    reveal_strlit("com.stargt.displayed.guard");
    reveal_strlit(".plist");
    reveal_strlit("com.stargt.displayed.guard.plist");
    assert("com.stargt.displayed.guard"@ + ".plist"@ =~= "com.stargt.displayed.guard.plist"@);
    assert(install::guard_plist_place().parts =~= agent_file().parts);
}

// ---------------------------------------------------------------------------
// Uninstalling.
// ---------------------------------------------------------------------------
/// The file of the guard is looked for, and where it is there it is removed.
pub open spec fn removed_at<T>(
    p: spec_fn(Seq<ReplyView>) -> Course<T>,
    t: Seq<ReplyView>,
    k: int,
) -> bool {
    &&& asking::asked(p, t, EffectView::PathExists(agent_file()), k)
    &&& t[k] == ReplyView::Flag(true) ==> {
        &&& asking::asked(p, t, EffectView::RemoveFile(agent_file()), k + 1)
        &&& t[k + 1] matches ReplyView::Done(r) && r is Ok
    }
}

proof fn lemma_removed(shown: Seq<char>, t: Seq<ReplyView>)
    requires
        install::plist_removed(shown, ActionMode::Execute, t) matches Course::Ends(r, _) && r is Ok,
    ensures
        removed_at(
            |s: Seq<ReplyView>| install::plist_removed(shown, ActionMode::Execute, s),
            t,
            0,
        ),
{
    guard_is_where_launchd_looks();
    assert(t.take(0) =~= Seq::empty());
    if t.len() > 1 {
        assert(t.take(1).skip(1) =~= Seq::empty());
        assert(t.take(1)[0] == t[0]);
        assert(t.skip(1)[0] == t[1]);
    }
}

proof fn lemma_removal_reached(o: UninstallOptions, t: Seq<ReplyView>) -> (found: (
    Seq<char>,
    Seq<ReplyView>,
))
    requires
        o.mode == ActionMode::Execute,
        install::guard_uninstalled(o, t) matches Course::Ends(r, _) && r is Ok,
    ensures
        asking::leads(
            |s: Seq<ReplyView>| install::guard_uninstalled(o, s),
            t,
            |s: Seq<ReplyView>| install::plist_removed(found.0, ActionMode::Execute, s),
            found.1,
        ),
        install::plist_removed(found.0, ActionMode::Execute, found.1) matches Course::Ends(r, _)
            && r is Ok,
{
    let place = EffectView::ShowPath(install::guard_plist_place());
    front_laws::asks_text_cut(place, t, 0);
    let t1 = t.skip(1);
    let shown = effect::as_text(t[0])->Ok_0;
    let p = |s: Seq<ReplyView>| install::guard_uninstalled(o, s);
    let f = |s: Seq<ReplyView>| install::plist_removed(shown, ActionMode::Execute, s);
    if o.unload {
        front_laws::agent_unloaded_shrinks(agent::GUARD_LABEL@, o.mode, t1);
        front_laws::agent_unloaded_cut(agent::GUARD_LABEL@, o.mode, t1, 0);
        let s = match install::agent_unloaded(agent::GUARD_LABEL@, o.mode, t1) {
            Course::Ends(_, s) => s,
            Course::Asks(_) => t1,
        };
        assert(s =~= t.skip(t.len() - s.len()));
        assert forall|j: int| 0 <= j <= s.len() && f(s.take(j)) is Asks implies asking::wanted(
            p(#[trigger] t.take(t.len() - s.len() + j)),
        ) == asking::wanted(f(s.take(j))) by {
            let i = t1.len() - s.len() + j;
            front_laws::asks_text_cut(place, t, i);
            front_laws::agent_unloaded_cut(agent::GUARD_LABEL@, o.mode, t1, j);
        }
        (shown, s)
    } else {
        assert forall|j: int| 0 <= j <= t1.len() && f(t1.take(j)) is Asks implies asking::wanted(
            p(#[trigger] t.take(t.len() - t1.len() + j)),
        ) == asking::wanted(f(t1.take(j))) by {
            front_laws::asks_text_cut(place, t, j);
        }
        (shown, t1)
    }
}

/// Uninstalling the guard ends well only after the file was looked for, and where
/// it was there, after it was removed, whether or not the guard was unloaded. The
/// result is the place on the tape where that is.
pub proof fn uninstalling_removes_the_file(o: UninstallOptions, t: Seq<ReplyView>) -> (k: int)
    requires
        o.mode == ActionMode::Execute,
        install::guard_uninstalled(o, t) matches Course::Ends(r, _) && r is Ok,
    ensures
        removed_at(|s: Seq<ReplyView>| install::guard_uninstalled(o, s), t, k),
{
    let (shown, s) = lemma_removal_reached(o, t);
    lemma_removed(shown, s);
    let p = |x: Seq<ReplyView>| install::guard_uninstalled(o, x);
    let f = |x: Seq<ReplyView>| install::plist_removed(shown, ActionMode::Execute, x);
    asking::lemma_asked_later(p, t, f, s, EffectView::PathExists(agent_file()), 0);
    if s[0] == ReplyView::Flag(true) {
        asking::lemma_asked_later(p, t, f, s, EffectView::RemoveFile(agent_file()), 1);
    }
    t.len() - s.len()
}

// ---------------------------------------------------------------------------
// Unloading and loading.
// ---------------------------------------------------------------------------
/// The command of `launchd` was run with these arguments.
pub open spec fn launched(arguments: Seq<Seq<char>>) -> spec_fn(EffectView, ReplyView) -> bool {
    |e: EffectView, r: ReplyView|
        e == (EffectView::Run { program: "launchctl"@, arguments })
}

/// The command of `launchd` was run with these arguments, and it went well.
pub open spec fn launched_well(arguments: Seq<Seq<char>>) -> spec_fn(
    EffectView,
    ReplyView,
) -> bool {
    |e: EffectView, r: ReplyView|
        e == (EffectView::Run { program: "launchctl"@, arguments }) && (
        r matches ReplyView::Ran(Ok(capture)) && capture.success)
}

proof fn lemma_unload_runs_step(
    label: Seq<char>,
    domain: Seq<char>,
    x: Seq<ReplyView>,
    r1: Seq<ReplyView>,
)
    requires
        install::domain_found(x) matches Course::Ends(v, rest)
            && v == Ok::<Seq<char>, Seq<char>>(domain) && rest == r1,
    ensures
        effect::asks_any(
            EffectView::Run { program: "launchctl"@, arguments: seq!["bootout"@, domain + "/"@ + label] },
            r1,
        ) is Asks
            ==> asking::wanted(install::agent_unloaded(label, ActionMode::Execute, x)) == asking::wanted(
                effect::asks_any(
                    EffectView::Run { program: "launchctl"@, arguments: seq!["bootout"@, domain + "/"@ + label] },
                    r1,
                ),
            ),
{
}

proof fn lemma_unload_runs(
    label: Seq<char>,
    domain: Seq<char>,
    t: Seq<ReplyView>,
    t1: Seq<ReplyView>,
)
    requires
        install::domain_found(t) matches Course::Ends(v, rest)
            && v == Ok::<Seq<char>, Seq<char>>(domain) && rest == t1,
    ensures
        asking::leads(
            |s: Seq<ReplyView>| install::agent_unloaded(label, ActionMode::Execute, s),
            t,
            |s: Seq<ReplyView>| effect::asks_any(
                EffectView::Run { program: "launchctl"@, arguments: seq!["bootout"@, domain + "/"@ + label] },
                s,
            ),
            t1,
        ),
        asking::carries(
            |s: Seq<ReplyView>| install::agent_unloaded(label, ActionMode::Execute, s),
            t,
            |s: Seq<ReplyView>| effect::asks_any(
                EffectView::Run { program: "launchctl"@, arguments: seq!["bootout"@, domain + "/"@ + label] },
                s,
            ),
            t1,
        ),
{
    let p = |s: Seq<ReplyView>| install::agent_unloaded(label, ActionMode::Execute, s);
    let f = |s: Seq<ReplyView>| effect::asks_any(
        EffectView::Run { program: "launchctl"@, arguments: seq!["bootout"@, domain + "/"@ + label] },
        s,
    );
    let q1 = |s: Seq<ReplyView>| install::domain_found(s);
    assert(asking::cuts(q1, t, t1)) by {
        front_laws::domain_found_shrinks(t);
        front_laws::domain_found_cut(t, 0);
        assert forall|j: int| 0 <= j <= t1.len() implies q1(
            #[trigger] t.take(t.len() - t1.len() + j),
        ) == Course::Ends(q1(t)->Ends_0, t1.take(j)) by {
            front_laws::domain_found_cut(t, j);
        }
    }
    assert forall|x: Seq<ReplyView>, r1: Seq<ReplyView>| #[trigger]
        asking::step1(p, q1, f, q1(t)->Ends_0, x, r1) by {
        if q1(x) == Course::Ends(q1(t)->Ends_0, r1) {
            lemma_unload_runs_step(label, domain, x, r1);
        }
    }
    asking::lemma_behind1(p, q1, f, t, t1);
}

/// Unloading an agent ends well only after it was asked for in the user's domain,
/// whatever the answer.
pub proof fn unloading_is_asked_for(label: Seq<char>, t: Seq<ReplyView>) -> (domain: Seq<char>)
    requires
        install::agent_unloaded(label, ActionMode::Execute, t) matches Course::Ends(r, _) && r
            is Ok,
    ensures
        install::domain_found(t) matches Course::Ends(r, _) && r == Ok::<Seq<char>, Seq<char>>(
            domain,
        ),
        asking::met(
            |s: Seq<ReplyView>| install::agent_unloaded(label, ActionMode::Execute, s),
            t,
            launched(seq!["bootout"@, domain + "/"@ + label]),
        ),
{
    let domain = install::domain_found(t)->Ends_0->Ok_0;
    let t1 = install::domain_found(t)->Ends_1;
    let arguments = seq!["bootout"@, domain + "/"@ + label];
    lemma_unload_runs(label, domain, t, t1);
    let f = |s: Seq<ReplyView>|
        effect::asks_any(EffectView::Run { program: "launchctl"@, arguments }, s);
    assert(t1.take(0).len() == 0);
    assert(asking::meets(f, t1, launched(arguments), 0));
    assert(asking::met(f, t1, launched(arguments)));
    domain
}

proof fn lemma_load_unloads(
    label: Seq<char>,
    plist: Seq<char>,
    t: Seq<ReplyView>,
)
    ensures
        asking::leads(
            |s: Seq<ReplyView>| install::agent_loaded(label, plist, ActionMode::Execute, s),
            t,
            |s: Seq<ReplyView>| install::agent_unloaded(label, ActionMode::Execute, s),
            t,
        ),
        asking::carries(
            |s: Seq<ReplyView>| install::agent_loaded(label, plist, ActionMode::Execute, s),
            t,
            |s: Seq<ReplyView>| install::agent_unloaded(label, ActionMode::Execute, s),
            t,
        ),
{
    let p = |s: Seq<ReplyView>| install::agent_loaded(label, plist, ActionMode::Execute, s);
    let f = |s: Seq<ReplyView>| install::agent_unloaded(label, ActionMode::Execute, s);
    assert(t =~= t.skip(t.len() - t.len()));
    assert forall|j: int| 0 <= j <= t.len() && f(t.take(j)) is Asks implies asking::wanted(
        p(#[trigger] t.take(t.len() - t.len() + j)),
    ) == asking::wanted(f(t.take(j))) by {}
    asking::lemma_met_later(p, t, f, t);
}

proof fn lemma_load_starts_step(
    label: Seq<char>,
    plist: Seq<char>,
    domain: Seq<char>,
    x: Seq<ReplyView>,
    r1: Seq<ReplyView>,
    r2: Seq<ReplyView>,
)
    requires
        install::agent_unloaded(label, ActionMode::Execute, x) matches Course::Ends(v, rest)
            && v is Ok && rest == r1,
        install::domain_found(r1) matches Course::Ends(v, rest)
            && v == Ok::<Seq<char>, Seq<char>>(domain) && rest == r2,
    ensures
        install::agent_started(label, plist, domain, r2) is Asks
            ==> asking::wanted(
                install::agent_loaded(label, plist, ActionMode::Execute, x),
            ) == asking::wanted(install::agent_started(label, plist, domain, r2)),
{
}

proof fn lemma_load_starts(
    label: Seq<char>,
    plist: Seq<char>,
    domain: Seq<char>,
    t: Seq<ReplyView>,
    t1: Seq<ReplyView>,
    t2: Seq<ReplyView>,
)
    requires
        install::agent_unloaded(label, ActionMode::Execute, t) matches Course::Ends(v, rest)
            && v is Ok && rest == t1,
        install::domain_found(t1) matches Course::Ends(v, rest)
            && v == Ok::<Seq<char>, Seq<char>>(domain) && rest == t2,
    ensures
        asking::leads(
            |s: Seq<ReplyView>| install::agent_loaded(label, plist, ActionMode::Execute, s),
            t,
            |s: Seq<ReplyView>| install::agent_started(label, plist, domain, s),
            t2,
        ),
        asking::carries(
            |s: Seq<ReplyView>| install::agent_loaded(label, plist, ActionMode::Execute, s),
            t,
            |s: Seq<ReplyView>| install::agent_started(label, plist, domain, s),
            t2,
        ),
{
    let p = |s: Seq<ReplyView>| install::agent_loaded(label, plist, ActionMode::Execute, s);
    let f = |s: Seq<ReplyView>| install::agent_started(label, plist, domain, s);
    let q1 = |s: Seq<ReplyView>| install::agent_unloaded(label, ActionMode::Execute, s);
    let q2 = |s: Seq<ReplyView>| install::domain_found(s);
    assert(asking::cuts(q1, t, t1)) by {
        front_laws::agent_unloaded_shrinks(label, ActionMode::Execute, t);
        front_laws::agent_unloaded_cut(label, ActionMode::Execute, t, 0);
        assert forall|j: int| 0 <= j <= t1.len() implies q1(
            #[trigger] t.take(t.len() - t1.len() + j),
        ) == Course::Ends(q1(t)->Ends_0, t1.take(j)) by {
            front_laws::agent_unloaded_cut(label, ActionMode::Execute, t, j);
        }
    }
    assert(asking::cuts(q2, t1, t2)) by {
        front_laws::domain_found_shrinks(t1);
        front_laws::domain_found_cut(t1, 0);
        assert forall|j: int| 0 <= j <= t2.len() implies q2(
            #[trigger] t1.take(t1.len() - t2.len() + j),
        ) == Course::Ends(q2(t1)->Ends_0, t2.take(j)) by {
            front_laws::domain_found_cut(t1, j);
        }
    }
    assert forall|x: Seq<ReplyView>, r1: Seq<ReplyView>, r2: Seq<ReplyView>| #[trigger]
        asking::step2(p, q1, q2, f, q1(t)->Ends_0, q2(t1)->Ends_0, x, r1, r2) by {
        if q1(x) == Course::Ends(q1(t)->Ends_0, r1) && q2(r1) == Course::Ends(q2(t1)->Ends_0, r2) {
            lemma_load_starts_step(label, plist, domain, x, r1, r2);
        }
    }
    asking::lemma_behind2(p, q1, q2, f, t, t1, t2);
}

proof fn lemma_start_kicks_step(
    label: Seq<char>,
    plist: Seq<char>,
    domain: Seq<char>,
    x: Seq<ReplyView>,
    r1: Seq<ReplyView>,
)
    requires
        install::launchctl_ran(seq!["bootstrap"@, domain, plist], x) matches Course::Ends(v, rest)
            && v is Ok && rest == r1,
    ensures
        install::launchctl_ran(seq!["kickstart"@, "-k"@, domain + "/"@ + label], r1) is Asks
            ==> asking::wanted(install::agent_started(label, plist, domain, x)) == asking::wanted(
                install::launchctl_ran(seq!["kickstart"@, "-k"@, domain + "/"@ + label], r1),
            ),
{
}

proof fn lemma_start_kicks(
    label: Seq<char>,
    plist: Seq<char>,
    domain: Seq<char>,
    t: Seq<ReplyView>,
    t1: Seq<ReplyView>,
)
    requires
        install::launchctl_ran(seq!["bootstrap"@, domain, plist], t) matches Course::Ends(v, rest)
            && v is Ok && rest == t1,
    ensures
        asking::leads(
            |s: Seq<ReplyView>| install::agent_started(label, plist, domain, s),
            t,
            |s: Seq<ReplyView>| install::launchctl_ran(
                seq!["kickstart"@, "-k"@, domain + "/"@ + label],
                s,
            ),
            t1,
        ),
        asking::carries(
            |s: Seq<ReplyView>| install::agent_started(label, plist, domain, s),
            t,
            |s: Seq<ReplyView>| install::launchctl_ran(
                seq!["kickstart"@, "-k"@, domain + "/"@ + label],
                s,
            ),
            t1,
        ),
{
    let p = |s: Seq<ReplyView>| install::agent_started(label, plist, domain, s);
    let f = |s: Seq<ReplyView>| install::launchctl_ran(
        seq!["kickstart"@, "-k"@, domain + "/"@ + label],
        s,
    );
    let q1 = |s: Seq<ReplyView>| install::launchctl_ran(seq!["bootstrap"@, domain, plist], s);
    assert(asking::cuts(q1, t, t1)) by {
        front_laws::launchctl_ran_shrinks(seq!["bootstrap"@, domain, plist], t);
        front_laws::launchctl_ran_cut(seq!["bootstrap"@, domain, plist], t, 0);
        assert forall|j: int| 0 <= j <= t1.len() implies q1(
            #[trigger] t.take(t.len() - t1.len() + j),
        ) == Course::Ends(q1(t)->Ends_0, t1.take(j)) by {
            front_laws::launchctl_ran_cut(seq!["bootstrap"@, domain, plist], t, j);
        }
    }
    assert forall|x: Seq<ReplyView>, r1: Seq<ReplyView>| #[trigger]
        asking::step1(p, q1, f, q1(t)->Ends_0, x, r1) by {
        if q1(x) == Course::Ends(q1(t)->Ends_0, r1) {
            lemma_start_kicks_step(label, plist, domain, x, r1);
        }
    }
    asking::lemma_behind1(p, q1, f, t, t1);
}

proof fn lemma_start_boots(
    label: Seq<char>,
    plist: Seq<char>,
    domain: Seq<char>,
    t: Seq<ReplyView>,
)
    ensures
        asking::leads(
            |s: Seq<ReplyView>| install::agent_started(label, plist, domain, s),
            t,
            |s: Seq<ReplyView>| install::launchctl_ran(seq!["bootstrap"@, domain, plist], s),
            t,
        ),
        asking::carries(
            |s: Seq<ReplyView>| install::agent_started(label, plist, domain, s),
            t,
            |s: Seq<ReplyView>| install::launchctl_ran(seq!["bootstrap"@, domain, plist], s),
            t,
        ),
{
    let p = |s: Seq<ReplyView>| install::agent_started(label, plist, domain, s);
    let f = |s: Seq<ReplyView>| install::launchctl_ran(seq!["bootstrap"@, domain, plist], s);
    assert(t =~= t.skip(t.len() - t.len()));
    assert forall|j: int| 0 <= j <= t.len() && f(t.take(j)) is Asks implies asking::wanted(
        p(#[trigger] t.take(t.len() - t.len() + j)),
    ) == asking::wanted(f(t.take(j))) by {}
    asking::lemma_met_later(p, t, f, t);
}

proof fn lemma_ran_well(arguments: Seq<Seq<char>>, t: Seq<ReplyView>)
    requires
        install::launchctl_ran(arguments, t) matches Course::Ends(r, _) && r is Ok,
    ensures
        asking::met(
            |s: Seq<ReplyView>| install::launchctl_ran(arguments, s),
            t,
            launched_well(arguments),
        ),
{
    let f = |s: Seq<ReplyView>| install::launchctl_ran(arguments, s);
    assert(t.take(0).len() == 0);
    assert(asking::meets(f, t, launched_well(arguments), 0));
}

/// Loading an agent unloads it first, in the domain of the user. It ends well only
/// where the agent was then bootstrapped from its file and kicked off, and both went
/// well. The result holds that domain, as it was found for each of the two.
pub proof fn loading_starts_the_agent(label: Seq<char>, plist: Seq<char>, t: Seq<ReplyView>) -> (
    domains: (Seq<char>, Seq<char>))
    requires
        install::agent_loaded(label, plist, ActionMode::Execute, t) matches Course::Ends(r, _) && r
            is Ok,
    ensures
        ({
            let p = |s: Seq<ReplyView>|
                install::agent_loaded(label, plist, ActionMode::Execute, s);
            &&& asking::met(p, t, launched(seq!["bootout"@, domains.0 + "/"@ + label]))
            &&& asking::met(p, t, launched_well(seq!["bootstrap"@, domains.1, plist]))
            &&& asking::met(
                p,
                t,
                launched_well(seq!["kickstart"@, "-k"@, domains.1 + "/"@ + label]),
            )
        }),
{
    lemma_load_unloads(label, plist, t);
    let first = unloading_is_asked_for(label, t);
    let t1 = install::agent_unloaded(label, ActionMode::Execute, t)->Ends_1;
    let domain = install::domain_found(t1)->Ends_0->Ok_0;
    let t2 = install::domain_found(t1)->Ends_1;
    lemma_load_starts(label, plist, domain, t, t1, t2);
    let boot = seq!["bootstrap"@, domain, plist];
    let kick = seq!["kickstart"@, "-k"@, domain + "/"@ + label];
    lemma_start_boots(label, plist, domain, t2);
    lemma_ran_well(boot, t2);
    let t3 = install::launchctl_ran(boot, t2)->Ends_1;
    lemma_start_kicks(label, plist, domain, t2, t3);
    lemma_ran_well(kick, t3);
    (first, domain)
}

// ---------------------------------------------------------------------------
// Installing.
// ---------------------------------------------------------------------------
/// The file of the guard was written, and that went well.
pub open spec fn written_well(body: Seq<char>) -> spec_fn(EffectView, ReplyView) -> bool {
    |e: EffectView, r: ReplyView|
        e == EffectView::WriteFile(agent_file(), body) && (r matches ReplyView::Done(done) && done
            is Ok)
}

proof fn lemma_writing_writes_step(
    plist: install::GuardPlistView,
    x: Seq<ReplyView>,
    r1: Seq<ReplyView>,
    r2: Seq<ReplyView>,
)
    requires
        effect::asks_done(
            EffectView::CreateDir(crate::path::agents_place()),
            x,
        ) matches Course::Ends(v, rest)
            && v is Ok && rest == r1,
        effect::asks_done(
            EffectView::CreateDir(crate::path::logs_place()),
            r1,
        ) matches Course::Ends(v, rest)
            && v is Ok && rest == r2,
    ensures
        effect::asks_done(
            EffectView::WriteFile(install::guard_plist_place(), plist.body),
            r2,
        ) is Asks
            ==> asking::wanted(install::plist_written(plist, ActionMode::Execute, x)) == asking::wanted(
                effect::asks_done(
                    EffectView::WriteFile(install::guard_plist_place(), plist.body),
                    r2,
                ),
            ),
{
}

proof fn lemma_writing_writes(
    plist: install::GuardPlistView,
    t: Seq<ReplyView>,
    t1: Seq<ReplyView>,
    t2: Seq<ReplyView>,
)
    requires
        effect::asks_done(
            EffectView::CreateDir(crate::path::agents_place()),
            t,
        ) matches Course::Ends(v, rest)
            && v is Ok && rest == t1,
        effect::asks_done(
            EffectView::CreateDir(crate::path::logs_place()),
            t1,
        ) matches Course::Ends(v, rest)
            && v is Ok && rest == t2,
    ensures
        asking::leads(
            |s: Seq<ReplyView>| install::plist_written(plist, ActionMode::Execute, s),
            t,
            |s: Seq<ReplyView>| effect::asks_done(
                EffectView::WriteFile(install::guard_plist_place(), plist.body),
                s,
            ),
            t2,
        ),
        asking::carries(
            |s: Seq<ReplyView>| install::plist_written(plist, ActionMode::Execute, s),
            t,
            |s: Seq<ReplyView>| effect::asks_done(
                EffectView::WriteFile(install::guard_plist_place(), plist.body),
                s,
            ),
            t2,
        ),
{
    let p = |s: Seq<ReplyView>| install::plist_written(plist, ActionMode::Execute, s);
    let f = |s: Seq<ReplyView>| effect::asks_done(
        EffectView::WriteFile(install::guard_plist_place(), plist.body),
        s,
    );
    let q1 = |s: Seq<ReplyView>| effect::asks_done(
        EffectView::CreateDir(crate::path::agents_place()),
        s,
    );
    let q2 = |s: Seq<ReplyView>| effect::asks_done(
        EffectView::CreateDir(crate::path::logs_place()),
        s,
    );
    assert(asking::cuts(q1, t, t1)) by {
        front_laws::asks_done_shrinks(EffectView::CreateDir(crate::path::agents_place()), t);
        front_laws::asks_done_cut(EffectView::CreateDir(crate::path::agents_place()), t, 0);
        assert forall|j: int| 0 <= j <= t1.len() implies q1(
            #[trigger] t.take(t.len() - t1.len() + j),
        ) == Course::Ends(q1(t)->Ends_0, t1.take(j)) by {
            front_laws::asks_done_cut(EffectView::CreateDir(crate::path::agents_place()), t, j);
        }
    }
    assert(asking::cuts(q2, t1, t2)) by {
        front_laws::asks_done_shrinks(EffectView::CreateDir(crate::path::logs_place()), t1);
        front_laws::asks_done_cut(EffectView::CreateDir(crate::path::logs_place()), t1, 0);
        assert forall|j: int| 0 <= j <= t2.len() implies q2(
            #[trigger] t1.take(t1.len() - t2.len() + j),
        ) == Course::Ends(q2(t1)->Ends_0, t2.take(j)) by {
            front_laws::asks_done_cut(EffectView::CreateDir(crate::path::logs_place()), t1, j);
        }
    }
    assert forall|x: Seq<ReplyView>, r1: Seq<ReplyView>, r2: Seq<ReplyView>| #[trigger]
        asking::step2(p, q1, q2, f, q1(t)->Ends_0, q2(t1)->Ends_0, x, r1, r2) by {
        if q1(x) == Course::Ends(q1(t)->Ends_0, r1) && q2(r1) == Course::Ends(q2(t1)->Ends_0, r2) {
            lemma_writing_writes_step(plist, x, r1, r2);
        }
    }
    asking::lemma_behind2(p, q1, q2, f, t, t1, t2);
}

proof fn lemma_plist_written(plist: install::GuardPlistView, t: Seq<ReplyView>)
    requires
        install::plist_written(plist, ActionMode::Execute, t) matches Course::Ends(r, _) && r
            is Ok,
    ensures
        asking::met(
            |s: Seq<ReplyView>| install::plist_written(plist, ActionMode::Execute, s),
            t,
            written_well(plist.body),
        ),
{
    guard_is_where_launchd_looks();
    let t1 = t.skip(1);
    let t2 = t1.skip(1);
    lemma_writing_writes(plist, t, t1, t2);
    let f = |s: Seq<ReplyView>|
        effect::asks_done(EffectView::WriteFile(install::guard_plist_place(), plist.body), s);
    assert(t2.take(0).len() == 0);
    assert(asking::meets(f, t2, written_well(plist.body), 0));
    assert(asking::met(f, t2, written_well(plist.body)));
}

proof fn lemma_install_writes_step(
    o: InstallOptions,
    plist: install::GuardPlistView,
    x: Seq<ReplyView>,
    r1: Seq<ReplyView>,
)
    requires
        o.mode == ActionMode::Execute,
        install::plist_made(o.interval, x) matches Course::Ends(v, rest)
            && v == Ok::<install::GuardPlistView, Seq<char>>(plist) && rest == r1,
    ensures
        install::plist_written(plist, ActionMode::Execute, r1) is Asks
            ==> asking::wanted(install::guard_installed(o, x)) == asking::wanted(
                install::plist_written(plist, ActionMode::Execute, r1),
            ),
{
}

proof fn lemma_install_writes(
    o: InstallOptions,
    plist: install::GuardPlistView,
    t: Seq<ReplyView>,
    t1: Seq<ReplyView>,
)
    requires
        o.mode == ActionMode::Execute,
        install::plist_made(o.interval, t) matches Course::Ends(v, rest)
            && v == Ok::<install::GuardPlistView, Seq<char>>(plist) && rest == t1,
    ensures
        asking::leads(
            |s: Seq<ReplyView>| install::guard_installed(o, s),
            t,
            |s: Seq<ReplyView>| install::plist_written(plist, ActionMode::Execute, s),
            t1,
        ),
        asking::carries(
            |s: Seq<ReplyView>| install::guard_installed(o, s),
            t,
            |s: Seq<ReplyView>| install::plist_written(plist, ActionMode::Execute, s),
            t1,
        ),
{
    let p = |s: Seq<ReplyView>| install::guard_installed(o, s);
    let f = |s: Seq<ReplyView>| install::plist_written(plist, ActionMode::Execute, s);
    let q1 = |s: Seq<ReplyView>| install::plist_made(o.interval, s);
    assert(asking::cuts(q1, t, t1)) by {
        front_laws::plist_made_shrinks(o.interval, t);
        front_laws::plist_made_cut(o.interval, t, 0);
        assert forall|j: int| 0 <= j <= t1.len() implies q1(
            #[trigger] t.take(t.len() - t1.len() + j),
        ) == Course::Ends(q1(t)->Ends_0, t1.take(j)) by {
            front_laws::plist_made_cut(o.interval, t, j);
        }
    }
    assert forall|x: Seq<ReplyView>, r1: Seq<ReplyView>| #[trigger]
        asking::step1(p, q1, f, q1(t)->Ends_0, x, r1) by {
        if q1(x) == Course::Ends(q1(t)->Ends_0, r1) {
            lemma_install_writes_step(o, plist, x, r1);
        }
    }
    asking::lemma_behind1(p, q1, f, t, t1);
}

proof fn lemma_install_loads_step(
    o: InstallOptions,
    plist: install::GuardPlistView,
    x: Seq<ReplyView>,
    r1: Seq<ReplyView>,
    r2: Seq<ReplyView>,
)
    requires
        o.mode == ActionMode::Execute && o.load,
        install::plist_made(o.interval, x) matches Course::Ends(v, rest)
            && v == Ok::<install::GuardPlistView, Seq<char>>(plist) && rest == r1,
        install::plist_written(plist, ActionMode::Execute, r1) matches Course::Ends(v, rest)
            && v is Ok && rest == r2,
    ensures
        install::agent_loaded(agent::GUARD_LABEL@, plist.shown, ActionMode::Execute, r2) is Asks
            ==> asking::wanted(install::guard_installed(o, x)) == asking::wanted(
                install::agent_loaded(agent::GUARD_LABEL@, plist.shown, ActionMode::Execute, r2),
            ),
{
}

proof fn lemma_install_loads(
    o: InstallOptions,
    plist: install::GuardPlistView,
    t: Seq<ReplyView>,
    t1: Seq<ReplyView>,
    t2: Seq<ReplyView>,
)
    requires
        o.mode == ActionMode::Execute && o.load,
        install::plist_made(o.interval, t) matches Course::Ends(v, rest)
            && v == Ok::<install::GuardPlistView, Seq<char>>(plist) && rest == t1,
        install::plist_written(plist, ActionMode::Execute, t1) matches Course::Ends(v, rest)
            && v is Ok && rest == t2,
    ensures
        asking::leads(
            |s: Seq<ReplyView>| install::guard_installed(o, s),
            t,
            |s: Seq<ReplyView>| install::agent_loaded(
                agent::GUARD_LABEL@,
                plist.shown,
                ActionMode::Execute,
                s,
            ),
            t2,
        ),
        asking::carries(
            |s: Seq<ReplyView>| install::guard_installed(o, s),
            t,
            |s: Seq<ReplyView>| install::agent_loaded(
                agent::GUARD_LABEL@,
                plist.shown,
                ActionMode::Execute,
                s,
            ),
            t2,
        ),
{
    let p = |s: Seq<ReplyView>| install::guard_installed(o, s);
    let f = |s: Seq<ReplyView>| install::agent_loaded(
        agent::GUARD_LABEL@,
        plist.shown,
        ActionMode::Execute,
        s,
    );
    let q1 = |s: Seq<ReplyView>| install::plist_made(o.interval, s);
    let q2 = |s: Seq<ReplyView>| install::plist_written(plist, ActionMode::Execute, s);
    assert(asking::cuts(q1, t, t1)) by {
        front_laws::plist_made_shrinks(o.interval, t);
        front_laws::plist_made_cut(o.interval, t, 0);
        assert forall|j: int| 0 <= j <= t1.len() implies q1(
            #[trigger] t.take(t.len() - t1.len() + j),
        ) == Course::Ends(q1(t)->Ends_0, t1.take(j)) by {
            front_laws::plist_made_cut(o.interval, t, j);
        }
    }
    assert(asking::cuts(q2, t1, t2)) by {
        front_laws::plist_written_shrinks(plist, ActionMode::Execute, t1);
        front_laws::plist_written_cut(plist, ActionMode::Execute, t1, 0);
        assert forall|j: int| 0 <= j <= t2.len() implies q2(
            #[trigger] t1.take(t1.len() - t2.len() + j),
        ) == Course::Ends(q2(t1)->Ends_0, t2.take(j)) by {
            front_laws::plist_written_cut(plist, ActionMode::Execute, t1, j);
        }
    }
    assert forall|x: Seq<ReplyView>, r1: Seq<ReplyView>, r2: Seq<ReplyView>| #[trigger]
        asking::step2(p, q1, q2, f, q1(t)->Ends_0, q2(t1)->Ends_0, x, r1, r2) by {
        if q1(x) == Course::Ends(q1(t)->Ends_0, r1) && q2(r1) == Course::Ends(q2(t1)->Ends_0, r2) {
            lemma_install_loads_step(o, plist, x, r1, r2);
        }
    }
    asking::lemma_behind2(p, q1, q2, f, t, t1, t2);
}

/// What installing the guard has done where it ends well. Its file was written where
/// `launchd` looks for it. Unless loading was declined, the guard was bootstrapped
/// from that file and kicked off, by its label and in the user's domain, and both
/// went well. The result holds what was written, the name of the file as it was
/// shown, and the domain.
pub proof fn installing_writes_and_loads(o: InstallOptions, t: Seq<ReplyView>) -> (found: (
    install::GuardPlistView,
    Seq<char>,
))
    requires
        o.mode == ActionMode::Execute,
        install::guard_installed(o, t) matches Course::Ends(r, _) && r is Ok,
    ensures
        ({
            let p = |s: Seq<ReplyView>| install::guard_installed(o, s);
            let label = "com.stargt.displayed.guard"@;
            &&& install::plist_made(o.interval, t) matches Course::Ends(r, _) && r == Ok::<
                install::GuardPlistView,
                Seq<char>,
            >(found.0)
            &&& asking::met(p, t, written_well(found.0.body))
            &&& o.load ==> {
                &&& asking::met(
                    p,
                    t,
                    launched_well(seq!["bootstrap"@, found.1, found.0.shown]),
                )
                &&& asking::met(
                    p,
                    t,
                    launched_well(seq!["kickstart"@, "-k"@, found.1 + "/"@ + label]),
                )
            }
        }),
{
    let plist = install::plist_made(o.interval, t)->Ends_0->Ok_0;
    let t1 = install::plist_made(o.interval, t)->Ends_1;
    let t2 = install::plist_written(plist, ActionMode::Execute, t1)->Ends_1;
    lemma_install_writes(o, plist, t, t1);
    lemma_plist_written(plist, t1);
    if o.load {
        lemma_install_loads(o, plist, t, t1, t2);
        let domains = loading_starts_the_agent(agent::GUARD_LABEL@, plist.shown, t2);
        (plist, domains.1)
    } else {
        (plist, Seq::empty())
    }
}

/// What is written for the guard is made from what was answered: the running
/// program, the places of the two logs and the search path.
pub proof fn plist_is_made_from_the_answers(interval: u64, t: Seq<ReplyView>)
    requires
        install::plist_made(interval, t) matches Course::Ends(r, _) && r is Ok,
    ensures
        install::plist_made(interval, t) matches Course::Ends(r, rest) && {
            &&& t.len() >= 5
            &&& rest == t.skip(5)
            &&& t[0] matches ReplyView::Text(Ok(exe)) && t[1] matches ReplyView::Text(Ok(shown))
                && t[2] matches ReplyView::Text(Ok(out_log)) && (
            t[3] matches ReplyView::Text(Ok(err_log)) && r->Ok_0.shown == shown && r->Ok_0.body
                == install::guard_plist(exe, interval, out_log, err_log, effect::as_variable(t[4])))
        },
{
    let t1 = t.skip(1);
    let t2 = t1.skip(1);
    let t3 = t2.skip(1);
    let t4 = t3.skip(1);
    assert(t1[0] == t[1]);
    assert(t2[0] == t[2]);
    assert(t3[0] == t[3]);
    assert(t4[0] == t[4]);
    assert(t4.skip(1) =~= t.skip(5));
}

// ---------------------------------------------------------------------------
// Uninstalling with the guard unloaded.
// ---------------------------------------------------------------------------
proof fn lemma_uninstall_unloads_step(
    o: UninstallOptions,
    x: Seq<ReplyView>,
    r1: Seq<ReplyView>,
)
    requires
        o.mode == ActionMode::Execute && o.unload,
        effect::asks_text(
            EffectView::ShowPath(install::guard_plist_place()),
            x,
        ) matches Course::Ends(v, rest)
            && v is Ok && rest == r1,
    ensures
        install::agent_unloaded(agent::GUARD_LABEL@, ActionMode::Execute, r1) is Asks
            ==> asking::wanted(install::guard_uninstalled(o, x)) == asking::wanted(
                install::agent_unloaded(agent::GUARD_LABEL@, ActionMode::Execute, r1),
            ),
{
}

proof fn lemma_uninstall_unloads(
    o: UninstallOptions,
    t: Seq<ReplyView>,
    t1: Seq<ReplyView>,
)
    requires
        o.mode == ActionMode::Execute && o.unload,
        effect::asks_text(
            EffectView::ShowPath(install::guard_plist_place()),
            t,
        ) matches Course::Ends(v, rest)
            && v is Ok && rest == t1,
    ensures
        asking::leads(
            |s: Seq<ReplyView>| install::guard_uninstalled(o, s),
            t,
            |s: Seq<ReplyView>| install::agent_unloaded(
                agent::GUARD_LABEL@,
                ActionMode::Execute,
                s,
            ),
            t1,
        ),
        asking::carries(
            |s: Seq<ReplyView>| install::guard_uninstalled(o, s),
            t,
            |s: Seq<ReplyView>| install::agent_unloaded(
                agent::GUARD_LABEL@,
                ActionMode::Execute,
                s,
            ),
            t1,
        ),
{
    let p = |s: Seq<ReplyView>| install::guard_uninstalled(o, s);
    let f = |s: Seq<ReplyView>| install::agent_unloaded(
        agent::GUARD_LABEL@,
        ActionMode::Execute,
        s,
    );
    let q1 = |s: Seq<ReplyView>| effect::asks_text(
        EffectView::ShowPath(install::guard_plist_place()),
        s,
    );
    assert(asking::cuts(q1, t, t1)) by {
        front_laws::asks_text_shrinks(EffectView::ShowPath(install::guard_plist_place()), t);
        front_laws::asks_text_cut(EffectView::ShowPath(install::guard_plist_place()), t, 0);
        assert forall|j: int| 0 <= j <= t1.len() implies q1(
            #[trigger] t.take(t.len() - t1.len() + j),
        ) == Course::Ends(q1(t)->Ends_0, t1.take(j)) by {
            front_laws::asks_text_cut(EffectView::ShowPath(install::guard_plist_place()), t, j);
        }
    }
    assert forall|x: Seq<ReplyView>, r1: Seq<ReplyView>| #[trigger]
        asking::step1(p, q1, f, q1(t)->Ends_0, x, r1) by {
        if q1(x) == Course::Ends(q1(t)->Ends_0, r1) {
            lemma_uninstall_unloads_step(o, x, r1);
        }
    }
    asking::lemma_behind1(p, q1, f, t, t1);
}

/// Unless unloading was declined, uninstalling the guard ends well only after it was
/// asked to be unloaded, by its label and in the user's domain.
pub proof fn uninstalling_unloads(o: UninstallOptions, t: Seq<ReplyView>) -> (domain: Seq<char>)
    requires
        o.mode == ActionMode::Execute,
        o.unload,
        install::guard_uninstalled(o, t) matches Course::Ends(r, _) && r is Ok,
    ensures
        asking::met(
            |s: Seq<ReplyView>| install::guard_uninstalled(o, s),
            t,
            launched(seq!["bootout"@, domain + "/"@ + "com.stargt.displayed.guard"@]),
        ),
{
    let t1 = t.skip(1);
    lemma_uninstall_unloads(o, t, t1);
    unloading_is_asked_for(agent::GUARD_LABEL@, t1)
}

// ---------------------------------------------------------------------------
// The user's domain.
// ---------------------------------------------------------------------------
proof fn lemma_domain_runs(
    t: Seq<ReplyView>,
)
    ensures
        asking::leads(
            |s: Seq<ReplyView>| install::domain_found(s),
            t,
            |s: Seq<ReplyView>| commands::timed_run("id"@, seq!["-u"@], 1000, s),
            t,
        ),
        asking::carries(
            |s: Seq<ReplyView>| install::domain_found(s),
            t,
            |s: Seq<ReplyView>| commands::timed_run("id"@, seq!["-u"@], 1000, s),
            t,
        ),
{
    let p = |s: Seq<ReplyView>| install::domain_found(s);
    let f = |s: Seq<ReplyView>| commands::timed_run("id"@, seq!["-u"@], 1000, s);
    assert(t =~= t.skip(t.len() - t.len()));
    assert forall|j: int| 0 <= j <= t.len() && f(t.take(j)) is Asks implies asking::wanted(
        p(#[trigger] t.take(t.len() - t.len() + j)),
    ) == asking::wanted(f(t.take(j))) by {}
    asking::lemma_met_later(p, t, f, t);
}

/// The domain of the user is made of the number that the command `id` tells, where
/// it went well.
pub proof fn domain_is_the_users(t: Seq<ReplyView>, domain: Seq<char>) -> (capture: CaptureView)
    requires
        install::domain_found(t) matches Course::Ends(r, _) && r == Ok::<Seq<char>, Seq<char>>(
            domain,
        ),
    ensures
        capture.success,
        domain == "gui/"@ + text::trimmed(capture.stdout),
        asking::met(
            |s: Seq<ReplyView>| install::domain_found(s),
            t,
            native_laws::collected(capture),
        ),
{
    lemma_domain_runs(t);
    let capture = commands::timed_run("id"@, seq!["-u"@], 1000, t)->Ends_0->Ok_0;
    native_laws::output_is_what_was_collected("id"@, seq!["-u"@], 1000, t, capture);
    capture
}

} // verus!
