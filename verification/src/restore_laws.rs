//! What a restore is for: whatever fails on the way, every number is tried until
//! the panel is lit.

use vstd::prelude::*;

use crate::asking;
use crate::effect;
use crate::effect::{Course, EffectView, ReplyView};
use crate::files;
use crate::front_laws;
use crate::native;
use crate::native_laws;
use crate::path;
use crate::policy;
use crate::policy::ActionMode;
use crate::policy_laws;
use crate::restore;
use crate::restore::TrialView;
use crate::state;

verus! {

// ---------------------------------------------------------------------------
// One attempt.
// ---------------------------------------------------------------------------
/// With `k` replies read, the trial of the numbers begins a configuration, and
/// where that is granted it switches the display `id` on next.
pub open spec fn tries_at(
    ids: Seq<u32>,
    verbose: bool,
    error: Option<Seq<char>>,
    t: Seq<ReplyView>,
    k: int,
    id: u32,
) -> bool {
    &&& 0 <= k < t.len()
    &&& restore::numbers_tried(ids, verbose, error, t.take(k)) == Course::<TrialView>::Asks(
        EffectView::BeginConfiguration,
    )
    &&& t[k] == ReplyView::Code(0) ==> k + 1 < t.len() && restore::numbers_tried(
        ids,
        verbose,
        error,
        t.take(k + 1),
    ) == Course::<TrialView>::Asks(EffectView::ConfigureEnabled { display: id, enabled: true })
}

/// Each number is tried, one after the other.
pub open spec fn all_tried(
    ids: Seq<u32>,
    verbose: bool,
    error: Option<Seq<char>>,
    t: Seq<ReplyView>,
    ks: Seq<int>,
) -> bool {
    &&& ks.len() == ids.len()
    &&& forall|i: int, j: int| 0 <= i < j < ks.len() ==> ks[i] < ks[j]
    &&& forall|i: int|
        0 <= i < ks.len() ==> #[trigger] tries_at(ids, verbose, error, t, ks[i], ids[i])
}

/// After the first number, the trial goes on with the others from `s`.
spec fn carries_on(
    ids: Seq<u32>,
    verbose: bool,
    error: Option<Seq<char>>,
    t: Seq<ReplyView>,
    next: Option<Seq<char>>,
    s: Seq<ReplyView>,
) -> bool {
    &&& s.len() <= t.len()
    &&& s == t.skip(t.len() - s.len())
    &&& restore::numbers_tried(ids, verbose, error, t) == restore::numbers_tried(
        ids.skip(1),
        verbose,
        next,
        s,
    )
    &&& forall|j: int|
        0 <= j <= s.len() ==> restore::numbers_tried(
            ids,
            verbose,
            error,
            #[trigger] t.take(t.len() - s.len() + j),
        ) == restore::numbers_tried(ids.skip(1), verbose, next, s.take(j))
}

proof fn lemma_after_error(
    ids: Seq<u32>,
    verbose: bool,
    error: Option<Seq<char>>,
    t: Seq<ReplyView>,
    reason: Seq<char>,
    t1: Seq<ReplyView>,
)
    requires
        ids.len() > 0,
        native::native_switched(ids[0], true, ActionMode::Execute, verbose, t) == Course::Ends(
            Err::<(), Seq<char>>(reason),
            t1,
        ),
    ensures
        carries_on(ids, verbose, error, t, Some(reason), t1),
{
    front_laws::native_switched_shrinks(ids[0], true, ActionMode::Execute, verbose, t);
    front_laws::native_switched_cut(ids[0], true, ActionMode::Execute, verbose, t, 0);
    assert forall|j: int| 0 <= j <= t1.len() implies restore::numbers_tried(
        ids,
        verbose,
        error,
        #[trigger] t.take(t.len() - t1.len() + j),
    ) == restore::numbers_tried(ids.skip(1), verbose, Some(reason), t1.take(j)) by {
        front_laws::native_switched_cut(ids[0], true, ActionMode::Execute, verbose, t, j);
    }
}

#[verifier::spinoff_prover]
#[verifier::rlimit(60)]
proof fn lemma_after_dark(
    ids: Seq<u32>,
    verbose: bool,
    error: Option<Seq<char>>,
    t: Seq<ReplyView>,
    t1: Seq<ReplyView>,
    t2: Seq<ReplyView>,
    t3: Seq<ReplyView>,
)
    requires
        ids.len() > 0,
        native::native_switched(ids[0], true, ActionMode::Execute, verbose, t) matches Course::Ends(
            r,
            rest,
        ) && r is Ok && rest == t1,
        native::activity_waited(restore::INTERNAL_RESTORE_VERIFY_TIMEOUT, t1) == Course::Ends(
            false,
            t2,
        ),
        files::logged(restore_dark_line(ids[0]), t2) matches Course::Ends(_, rest) && rest == t3,
    ensures
        carries_on(ids, verbose, error, t, Some(restore::dark_text(ids[0])), t3),
{
    let id = ids[0];
    let limit = restore::INTERNAL_RESTORE_VERIFY_TIMEOUT;
    let line = restore_dark_line(id);
    let next = Some(restore::dark_text(id));
    front_laws::native_switched_shrinks(id, true, ActionMode::Execute, verbose, t);
    front_laws::native_switched_cut(id, true, ActionMode::Execute, verbose, t, 0);
    front_laws::activity_waited_shrinks(limit, t1);
    front_laws::activity_waited_cut(limit, t1, 0);
    front_laws::logged_shrinks(line, t2);
    front_laws::logged_cut(line, t2, 0);
    assert(t3 =~= t.skip(t.len() - t3.len()));
    assert forall|j: int| 0 <= j <= t3.len() implies restore::numbers_tried(
        ids,
        verbose,
        error,
        #[trigger] t.take(t.len() - t3.len() + j),
    ) == restore::numbers_tried(ids.skip(1), verbose, next, t3.take(j)) by {
        let j2 = t2.len() - t3.len() + j;
        let j1 = t1.len() - t2.len() + j2;
        front_laws::logged_cut(line, t2, j);
        front_laws::activity_waited_cut(limit, t1, j2);
        front_laws::native_switched_cut(id, true, ActionMode::Execute, verbose, t, j1);
    }
}

/// What is logged of a number that was switched on in vain.
pub open spec fn restore_dark_line(id: u32) -> Seq<char> {
    "restore-internal: id "@ + crate::number::dec(id as nat) + " enabled ok but builtin not active"@
}

proof fn lemma_carries_on(
    ids: Seq<u32>,
    verbose: bool,
    error: Option<Seq<char>>,
    t: Seq<ReplyView>,
) -> (found: (Option<Seq<char>>, Seq<ReplyView>))
    requires
        ids.len() > 0,
        restore::numbers_tried(ids, verbose, error, t) matches Course::Ends(
            TrialView::Failed(_),
            _,
        ),
    ensures
        carries_on(ids, verbose, error, t, found.0, found.1),
        ({
            let k = if verbose {
                1int
            } else {
                0int
            };
            &&& found.1.len() + k + 1 <= t.len()
            &&& t[k] == ReplyView::Code(0) ==> found.1.len() + k + 2 <= t.len()
        }),
{
    let id = ids[0];
    let limit = restore::INTERNAL_RESTORE_VERIFY_TIMEOUT;
    lemma_switch_reads(id, verbose, t);
    match native::native_switched(id, true, ActionMode::Execute, verbose, t) {
        Course::Ends(r, t1) => match r {
            Err(reason) => {
                lemma_after_error(ids, verbose, error, t, reason, t1);
                (Some(reason), t1)
            },
            Ok(_) => match native::activity_waited(limit, t1) {
                Course::Ends(active, t2) => match files::logged(restore_dark_line(id), t2) {
                    Course::Ends(_, t3) => {
                        front_laws::activity_waited_shrinks(limit, t1);
                        front_laws::logged_shrinks(restore_dark_line(id), t2);
                        lemma_after_dark(ids, verbose, error, t, t1, t2, t3);
                        (Some(restore::dark_text(id)), t3)
                    },
                    Course::Asks(_) => (None, t),
                },
                Course::Asks(_) => (None, t),
            },
        },
        Course::Asks(_) => (None, t),
    }
}

proof fn lemma_switch_reads(id: u32, verbose: bool, t: Seq<ReplyView>)
    ensures
        native::native_switched(id, true, ActionMode::Execute, verbose, t) matches Course::Ends(
            _,
            rest,
        ) ==> {
            let k = if verbose {
                1int
            } else {
                0int
            };
            &&& rest.len() + k + 1 <= t.len()
            &&& t[k] == ReplyView::Code(0) ==> rest.len() + k + 2 <= t.len()
        },
{
    let k = if verbose {
        1int
    } else {
        0int
    };
    if t.len() > k + 1 {
        let s = t.skip(k).skip(1);
        if verbose {
            assert(t.skip(1).skip(1) =~= s);
            assert(t.skip(1)[0] == t[1]);
        } else {
            assert(t.skip(0) =~= t);
        }
        front_laws::configured_shrinks(id, true, s);
        if s.len() > 0 {
            broadcast use front_laws::logged_shrinks;

        }
    } else if t.len() == 2 && verbose {
        assert(t.skip(1).skip(1).len() == 0);
        assert(t.skip(1)[0] == t[1]);
    }
}

proof fn lemma_first_tried(
    ids: Seq<u32>,
    verbose: bool,
    error: Option<Seq<char>>,
    t: Seq<ReplyView>,
)
    requires
        ids.len() > 0,
        t.len() > (if verbose {
            1int
        } else {
            0int
        }),
        t[if verbose {
            1int
        } else {
            0int
        }] == ReplyView::Code(0) ==> t.len() > (if verbose {
            2int
        } else {
            1int
        }),
    ensures
        tries_at(
            ids,
            verbose,
            error,
            t,
            if verbose {
                1int
            } else {
                0int
            },
            ids[0],
        ),
{
    if verbose {
        assert(t.take(1).skip(1) =~= Seq::empty());
        if t.len() > 2 {
            assert(t.take(2).skip(1).skip(1) =~= Seq::empty());
            assert(t.take(2).skip(1)[0] == t[1]);
        }
    } else {
        assert(t.take(0) =~= Seq::empty());
        if t.len() > 1 {
            assert(t.take(1).skip(1) =~= Seq::empty());
            assert(t.take(1)[0] == t[0]);
        }
    }
}

/// A trial of numbers fails only after each of them was asked to be switched on,
/// in order, whatever became of those before it.
#[verifier::spinoff_prover]
#[verifier::rlimit(60)]
pub proof fn every_number_is_tried(
    ids: Seq<u32>,
    verbose: bool,
    error: Option<Seq<char>>,
    t: Seq<ReplyView>,
)
    requires
        restore::numbers_tried(ids, verbose, error, t) matches Course::Ends(
            TrialView::Failed(_),
            _,
        ),
    ensures
        exists|ks: Seq<int>| all_tried(ids, verbose, error, t, ks),
    decreases ids.len(),
{
    if ids.len() == 0 {
        assert(all_tried(ids, verbose, error, t, Seq::empty()));
    } else {
        let (next, s) = lemma_carries_on(ids, verbose, error, t);
        let rest = ids.skip(1);
        every_number_is_tried(rest, verbose, next, s);
        lemma_first_tried(ids, verbose, error, t);
        let ks1 = choose|ks: Seq<int>| all_tried(rest, verbose, next, s, ks);
        let n = t.len() - s.len();
        let k0 = if verbose {
            1int
        } else {
            0int
        };
        let ks = seq![k0] + Seq::new(ks1.len(), |i: int| ks1[i] + n);
        assert forall|i: int| 0 <= i < ks.len() implies #[trigger] tries_at(
            ids,
            verbose,
            error,
            t,
            ks[i],
            ids[i],
        ) by {
            if i > 0 {
                let k = ks1[i - 1];
                assert(tries_at(rest, verbose, next, s, k, rest[i - 1]));
                assert(t.take(n + k) == t.take(t.len() - s.len() + k));
                assert(t.take(n + (k + 1)) == t.take(t.len() - s.len() + (k + 1)));
                assert(ks[i] == n + k);
                assert(t[n + k] == s[k]);
            }
        }
        assert forall|i: int, j: int| 0 <= i < j < ks.len() implies ks[i] < ks[j] by {
            assert(tries_at(rest, verbose, next, s, ks1[j - 1], rest[j - 1]));
            if i > 0 {
                assert(ks1[i - 1] < ks1[j - 1]);
            }
        }
        assert(all_tried(ids, verbose, error, t, ks));
    }
}

/// A number whose display lights up ends the trial, whatever errors came before:
/// it is never counted as failed, and it is over well as soon as the number could
/// be remembered.
pub proof fn lighting_the_panel_ends_the_trial(
    ids: Seq<u32>,
    verbose: bool,
    error: Option<Seq<char>>,
    t: Seq<ReplyView>,
    t1: Seq<ReplyView>,
    t2: Seq<ReplyView>,
)
    requires
        ids.len() > 0,
        native::native_switched(ids[0], true, ActionMode::Execute, verbose, t) == Course::Ends(
            Ok::<(), Seq<char>>(()),
            t1,
        ),
        native::activity_waited(2000, t1) == Course::Ends(true, t2),
    ensures
        restore::numbers_tried(ids, verbose, error, t) matches Course::Ends(trial, rest) ==> (
        trial matches TrialView::Over(r) && exists|s: Seq<ReplyView>|
            files::number_remembered(ids[0], s) == Course::Ends(r, rest)),
{
    let line = "restore-internal: builtin active after enabling id "@ + crate::number::dec(
        ids[0] as nat,
    );
    if let Course::Ends(_, t3) = files::logged(line, t2) {
        assert(files::number_remembered(ids[0], t3) == files::number_remembered(ids[0], t3));
    }
}

// ---------------------------------------------------------------------------
// What a restore meets.
// ---------------------------------------------------------------------------
/// A configuration was begun.
pub open spec fn begun() -> spec_fn(EffectView, ReplyView) -> bool {
    |e: EffectView, r: ReplyView| e == EffectView::BeginConfiguration
}

/// The display was asked to be switched on, or no configuration was to be had.
pub open spec fn tried(id: u32) -> spec_fn(EffectView, ReplyView) -> bool {
    |e: EffectView, r: ReplyView|
        e == (EffectView::ConfigureEnabled { display: id, enabled: true }) || (e
            == EffectView::BeginConfiguration && r != ReplyView::Code(0))
}

/// The state file was read, and did not yield the panel's number.
pub open spec fn state_unreadable() -> spec_fn(EffectView, ReplyView) -> bool {
    |e: EffectView, r: ReplyView|
        e == EffectView::ReadFile(path::support_place().inside("state"@)) && (match effect::as_file(
            r,
        ) {
            Ok(file) => state::panel_number(state::file_text(file)) is Err,
            Err(_) => true,
        })
}

proof fn lemma_numbers_wait_step(
    ids: Seq<u32>,
    verbose: bool,
    error: Option<Seq<char>>,
    x: Seq<ReplyView>,
    r1: Seq<ReplyView>,
)
    requires
        ids.len() > 0,
        native::native_switched(
            ids[0],
            true,
            ActionMode::Execute,
            verbose,
            x,
        ) matches Course::Ends(v, rest)
            && v is Ok && rest == r1,
    ensures
        native::activity_waited(2000, r1) is Asks
            ==> asking::wanted(
                restore::numbers_tried(ids, verbose, error, x),
            ) == asking::wanted(native::activity_waited(2000, r1)),
{
}

proof fn lemma_numbers_wait(
    ids: Seq<u32>,
    verbose: bool,
    error: Option<Seq<char>>,
    t: Seq<ReplyView>,
    t1: Seq<ReplyView>,
)
    requires
        ids.len() > 0,
        native::native_switched(
            ids[0],
            true,
            ActionMode::Execute,
            verbose,
            t,
        ) matches Course::Ends(v, rest)
            && v is Ok && rest == t1,
    ensures
        asking::leads(
            |s: Seq<ReplyView>| restore::numbers_tried(ids, verbose, error, s),
            t,
            |s: Seq<ReplyView>| native::activity_waited(2000, s),
            t1,
        ),
        asking::carries(
            |s: Seq<ReplyView>| restore::numbers_tried(ids, verbose, error, s),
            t,
            |s: Seq<ReplyView>| native::activity_waited(2000, s),
            t1,
        ),
{
    let p = |s: Seq<ReplyView>| restore::numbers_tried(ids, verbose, error, s);
    let f = |s: Seq<ReplyView>| native::activity_waited(2000, s);
    let q1 = |s: Seq<ReplyView>| native::native_switched(
        ids[0],
        true,
        ActionMode::Execute,
        verbose,
        s,
    );
    assert(asking::cuts(q1, t, t1)) by {
        front_laws::native_switched_shrinks(ids[0], true, ActionMode::Execute, verbose, t);
        front_laws::native_switched_cut(ids[0], true, ActionMode::Execute, verbose, t, 0);
        assert forall|j: int| 0 <= j <= t1.len() implies q1(
            #[trigger] t.take(t.len() - t1.len() + j),
        ) == Course::Ends(q1(t)->Ends_0, t1.take(j)) by {
            front_laws::native_switched_cut(ids[0], true, ActionMode::Execute, verbose, t, j);
        }
    }
    assert forall|x: Seq<ReplyView>, r1: Seq<ReplyView>| #[trigger]
        asking::step1(p, q1, f, q1(t)->Ends_0, x, r1) by {
        if q1(x) == Course::Ends(q1(t)->Ends_0, r1) {
            lemma_numbers_wait_step(ids, verbose, error, x, r1);
        }
    }
    asking::lemma_behind1(p, q1, f, t, t1);
}

proof fn lemma_numbers_begin_step(
    ids: Seq<u32>,
    verbose: bool,
    error: Option<Seq<char>>,
    x: Seq<ReplyView>,
    r1: Seq<ReplyView>,
)
    requires
        ids.len() > 0,
        effect::said_if(
            verbose,
            "running: "@ + native::configure_text(ids[0], true),
            x,
        ) matches Course::Ends(v, rest)
            && rest == r1,
    ensures
        effect::asks_code(EffectView::BeginConfiguration, r1) is Asks
            ==> asking::wanted(restore::numbers_tried(ids, verbose, error, x)) == asking::wanted(
                effect::asks_code(EffectView::BeginConfiguration, r1),
            ),
{
}

proof fn lemma_numbers_begin(
    ids: Seq<u32>,
    verbose: bool,
    error: Option<Seq<char>>,
    t: Seq<ReplyView>,
    t1: Seq<ReplyView>,
)
    requires
        ids.len() > 0,
        effect::said_if(
            verbose,
            "running: "@ + native::configure_text(ids[0], true),
            t,
        ) matches Course::Ends(v, rest)
            && rest == t1,
    ensures
        asking::leads(
            |s: Seq<ReplyView>| restore::numbers_tried(ids, verbose, error, s),
            t,
            |s: Seq<ReplyView>| effect::asks_code(EffectView::BeginConfiguration, s),
            t1,
        ),
        asking::carries(
            |s: Seq<ReplyView>| restore::numbers_tried(ids, verbose, error, s),
            t,
            |s: Seq<ReplyView>| effect::asks_code(EffectView::BeginConfiguration, s),
            t1,
        ),
{
    let p = |s: Seq<ReplyView>| restore::numbers_tried(ids, verbose, error, s);
    let f = |s: Seq<ReplyView>| effect::asks_code(EffectView::BeginConfiguration, s);
    let q1 = |s: Seq<ReplyView>| effect::said_if(
        verbose,
        "running: "@ + native::configure_text(ids[0], true),
        s,
    );
    assert(asking::cuts(q1, t, t1)) by {
        front_laws::said_if_shrinks(
            verbose,
            "running: "@ + native::configure_text(ids[0], true),
            t,
        );
        front_laws::said_if_cut(verbose, "running: "@ + native::configure_text(ids[0], true), t, 0);
        assert forall|j: int| 0 <= j <= t1.len() implies q1(
            #[trigger] t.take(t.len() - t1.len() + j),
        ) == Course::Ends(q1(t)->Ends_0, t1.take(j)) by {
            front_laws::said_if_cut(
                verbose,
                "running: "@ + native::configure_text(ids[0], true),
                t,
                j,
            );
        }
    }
    assert forall|x: Seq<ReplyView>, r1: Seq<ReplyView>| #[trigger]
        asking::step1(p, q1, f, q1(t)->Ends_0, x, r1) by {
        if q1(x) == Course::Ends(q1(t)->Ends_0, r1) {
            lemma_numbers_begin_step(ids, verbose, error, x, r1);
        }
    }
    asking::lemma_behind1(p, q1, f, t, t1);
}

proof fn lemma_on_carries(
    ids: Seq<u32>,
    verbose: bool,
    error: Option<Seq<char>>,
    t: Seq<ReplyView>,
    next: Option<Seq<char>>,
    s: Seq<ReplyView>,
)
    requires
        carries_on(ids, verbose, error, t, next, s),
    ensures
        asking::carries(
            |x: Seq<ReplyView>| restore::numbers_tried(ids, verbose, error, x),
            t,
            |x: Seq<ReplyView>| restore::numbers_tried(ids.skip(1), verbose, next, x),
            s,
        ),
{
    let p = |x: Seq<ReplyView>| restore::numbers_tried(ids, verbose, error, x);
    let f = |x: Seq<ReplyView>| restore::numbers_tried(ids.skip(1), verbose, next, x);
    assert forall|j: int| 0 <= j <= s.len() && f(s.take(j)) is Asks implies asking::wanted(
        p(#[trigger] t.take(t.len() - s.len() + j)),
    ) == asking::wanted(f(s.take(j))) by {}
    asking::lemma_met_later(p, t, f, s);
}

proof fn lemma_trial_over(
    ids: Seq<u32>,
    verbose: bool,
    error: Option<Seq<char>>,
    t: Seq<ReplyView>,
)
    requires
        restore::numbers_tried(ids, verbose, error, t) matches Course::Ends(TrialView::Over(_), _),
    ensures
        asking::met(
            |s: Seq<ReplyView>| restore::numbers_tried(ids, verbose, error, s),
            t,
            native_laws::active(),
        ),
    decreases ids.len(),
{
    if ids.len() > 0 {
        let id = ids[0];
        match native::native_switched(id, true, ActionMode::Execute, verbose, t) {
            Course::Ends(r, t1) => match r {
                Err(reason) => {
                    lemma_after_error(ids, verbose, error, t, reason, t1);
                    lemma_on_carries(ids, verbose, error, t, Some(reason), t1);
                    lemma_trial_over(ids.skip(1), verbose, Some(reason), t1);
                },
                Ok(_) => match native::activity_waited(2000, t1) {
                    Course::Ends(active, t2) => if active {
                        lemma_numbers_wait(ids, verbose, error, t, t1);
                        native_laws::waited_well_means_active(2000, t1);
                    } else if let Course::Ends(_, t3) = files::logged(restore_dark_line(id), t2) {
                        let next = Some(restore::dark_text(id));
                        lemma_after_dark(ids, verbose, error, t, t1, t2, t3);
                        lemma_on_carries(ids, verbose, error, t, next, t3);
                        lemma_trial_over(ids.skip(1), verbose, next, t3);
                    },
                    Course::Asks(_) => {},
                },
            },
            Course::Asks(_) => {},
        }
    }
}

proof fn lemma_trial_begins(
    ids: Seq<u32>,
    verbose: bool,
    error: Option<Seq<char>>,
    t: Seq<ReplyView>,
)
    requires
        ids.len() > 0,
        restore::numbers_tried(ids, verbose, error, t) is Ends,
    ensures
        asking::met(
            |s: Seq<ReplyView>| restore::numbers_tried(ids, verbose, error, s),
            t,
            begun(),
        ),
{
    let line = "running: "@ + native::configure_text(ids[0], true);
    if let Course::Ends(_, t1) = effect::said_if(verbose, line, t) {
        lemma_numbers_begin(ids, verbose, error, t, t1);
        let f = |s: Seq<ReplyView>| effect::asks_code(EffectView::BeginConfiguration, s);
        assert(t1.take(0).len() == 0);
        assert(asking::meets(f, t1, begun(), 0));
        assert(asking::met(f, t1, begun()));
    }
}

proof fn lemma_trial_tries(
    ids: Seq<u32>,
    verbose: bool,
    error: Option<Seq<char>>,
    t: Seq<ReplyView>,
    i: int,
)
    requires
        0 <= i < ids.len(),
        restore::numbers_tried(ids, verbose, error, t) matches Course::Ends(
            TrialView::Failed(_),
            _,
        ),
    ensures
        asking::met(
            |s: Seq<ReplyView>| restore::numbers_tried(ids, verbose, error, s),
            t,
            tried(ids[i]),
        ),
{
    every_number_is_tried(ids, verbose, error, t);
    let ks = choose|ks: Seq<int>| all_tried(ids, verbose, error, t, ks);
    let p = |s: Seq<ReplyView>| restore::numbers_tried(ids, verbose, error, s);
    assert(tries_at(ids, verbose, error, t, ks[i], ids[i]));
    if t[ks[i]] == ReplyView::Code(0) {
        assert(asking::meets(p, t, tried(ids[i]), ks[i] + 1));
    } else {
        assert(asking::meets(p, t, tried(ids[i]), ks[i]));
    }
}

proof fn lemma_attempt_looks(
    explicit: Option<u32>,
    attempt: u32,
    attempts: u32,
    verbose: bool,
    error: Option<Seq<char>>,
    t: Seq<ReplyView>,
)
    ensures
        asking::leads(
            |s: Seq<ReplyView>| restore::attempted(explicit, attempt, attempts, verbose, error, s),
            t,
            |s: Seq<ReplyView>| native::activity_found(s),
            t,
        ),
        asking::carries(
            |s: Seq<ReplyView>| restore::attempted(explicit, attempt, attempts, verbose, error, s),
            t,
            |s: Seq<ReplyView>| native::activity_found(s),
            t,
        ),
{
    let p = |s: Seq<ReplyView>| restore::attempted(explicit, attempt, attempts, verbose, error, s);
    let f = |s: Seq<ReplyView>| native::activity_found(s);
    assert(t =~= t.skip(t.len() - t.len()));
    assert forall|j: int| 0 <= j <= t.len() && f(t.take(j)) is Asks implies asking::wanted(
        p(#[trigger] t.take(t.len() - t.len() + j)),
    ) == asking::wanted(f(t.take(j))) by {}
    asking::lemma_met_later(p, t, f, t);
}

proof fn lemma_attempt_reads_step(
    explicit: Option<u32>,
    attempt: u32,
    attempts: u32,
    verbose: bool,
    error: Option<Seq<char>>,
    x: Seq<ReplyView>,
    r1: Seq<ReplyView>,
    r2: Seq<ReplyView>,
)
    requires
        native::activity_found(x) matches Course::Ends(v, rest) && !v && rest == r1,
        native::builtin_found(r1) matches Course::Ends(v, rest) && rest == r2,
    ensures
        files::panel_number_read(r2) is Asks
            ==> asking::wanted(
                restore::attempted(explicit, attempt, attempts, verbose, error, x),
            ) == asking::wanted(files::panel_number_read(r2)),
{
}

proof fn lemma_attempt_reads(
    explicit: Option<u32>,
    attempt: u32,
    attempts: u32,
    verbose: bool,
    error: Option<Seq<char>>,
    t: Seq<ReplyView>,
    t1: Seq<ReplyView>,
    t2: Seq<ReplyView>,
)
    requires
        native::activity_found(t) matches Course::Ends(v, rest) && !v && rest == t1,
        native::builtin_found(t1) matches Course::Ends(v, rest) && rest == t2,
    ensures
        asking::leads(
            |s: Seq<ReplyView>| restore::attempted(explicit, attempt, attempts, verbose, error, s),
            t,
            |s: Seq<ReplyView>| files::panel_number_read(s),
            t2,
        ),
        asking::carries(
            |s: Seq<ReplyView>| restore::attempted(explicit, attempt, attempts, verbose, error, s),
            t,
            |s: Seq<ReplyView>| files::panel_number_read(s),
            t2,
        ),
{
    let p = |s: Seq<ReplyView>| restore::attempted(explicit, attempt, attempts, verbose, error, s);
    let f = |s: Seq<ReplyView>| files::panel_number_read(s);
    let q1 = |s: Seq<ReplyView>| native::activity_found(s);
    let q2 = |s: Seq<ReplyView>| native::builtin_found(s);
    assert(asking::cuts(q1, t, t1)) by {
        front_laws::activity_found_shrinks(t);
        front_laws::activity_found_cut(t, 0);
        assert forall|j: int| 0 <= j <= t1.len() implies q1(
            #[trigger] t.take(t.len() - t1.len() + j),
        ) == Course::Ends(q1(t)->Ends_0, t1.take(j)) by {
            front_laws::activity_found_cut(t, j);
        }
    }
    assert(asking::cuts(q2, t1, t2)) by {
        front_laws::builtin_found_shrinks(t1);
        front_laws::builtin_found_cut(t1, 0);
        assert forall|j: int| 0 <= j <= t2.len() implies q2(
            #[trigger] t1.take(t1.len() - t2.len() + j),
        ) == Course::Ends(q2(t1)->Ends_0, t2.take(j)) by {
            front_laws::builtin_found_cut(t1, j);
        }
    }
    assert forall|x: Seq<ReplyView>, r1: Seq<ReplyView>, r2: Seq<ReplyView>| #[trigger]
        asking::step2(p, q1, q2, f, q1(t)->Ends_0, q2(t1)->Ends_0, x, r1, r2) by {
        if q1(x) == Course::Ends(q1(t)->Ends_0, r1) && q2(r1) == Course::Ends(q2(t1)->Ends_0, r2) {
            lemma_attempt_reads_step(explicit, attempt, attempts, verbose, error, x, r1, r2);
        }
    }
    asking::lemma_behind2(p, q1, q2, f, t, t1, t2);
}

proof fn lemma_attempt_tries_step(
    explicit: Option<u32>,
    attempt: u32,
    attempts: u32,
    verbose: bool,
    error: Option<Seq<char>>,
    live: Option<u32>,
    remembered: Option<u32>,
    x: Seq<ReplyView>,
    r1: Seq<ReplyView>,
    r2: Seq<ReplyView>,
    r3: Seq<ReplyView>,
    r4: Seq<ReplyView>,
)
    requires
        native::activity_found(x) matches Course::Ends(v, rest) && !v && rest == r1,
        native::builtin_found(r1) matches Course::Ends(v, rest) && v == live && rest == r2,
        files::panel_number_read(r2) matches Course::Ends(v, rest)
            && v == Ok::<Option<u32>, Seq<char>>(remembered) && rest == r3,
        files::logged(
            restore::attempt_log(
                attempt,
                attempts,
                policy::candidates(explicit, live, remembered),
                live,
                remembered,
            ),
            r3,
        ) matches Course::Ends(v, rest)
            && rest == r4,
    ensures
        restore::numbers_tried(
            policy::candidates(explicit, live, remembered),
            verbose,
            error,
            r4,
        ) is Asks
            ==> asking::wanted(restore::attempted(explicit, attempt, attempts, verbose, error, x)) == asking::wanted(
                restore::numbers_tried(
                    policy::candidates(explicit, live, remembered),
                    verbose,
                    error,
                    r4,
                ),
            ),
{
}

proof fn lemma_attempt_tries(
    explicit: Option<u32>,
    attempt: u32,
    attempts: u32,
    verbose: bool,
    error: Option<Seq<char>>,
    live: Option<u32>,
    remembered: Option<u32>,
    t: Seq<ReplyView>,
    t1: Seq<ReplyView>,
    t2: Seq<ReplyView>,
    t3: Seq<ReplyView>,
    t4: Seq<ReplyView>,
)
    requires
        native::activity_found(t) matches Course::Ends(v, rest) && !v && rest == t1,
        native::builtin_found(t1) matches Course::Ends(v, rest) && v == live && rest == t2,
        files::panel_number_read(t2) matches Course::Ends(v, rest)
            && v == Ok::<Option<u32>, Seq<char>>(remembered) && rest == t3,
        files::logged(
            restore::attempt_log(
                attempt,
                attempts,
                policy::candidates(explicit, live, remembered),
                live,
                remembered,
            ),
            t3,
        ) matches Course::Ends(v, rest)
            && rest == t4,
    ensures
        asking::leads(
            |s: Seq<ReplyView>| restore::attempted(explicit, attempt, attempts, verbose, error, s),
            t,
            |s: Seq<ReplyView>| restore::numbers_tried(
                policy::candidates(explicit, live, remembered),
                verbose,
                error,
                s,
            ),
            t4,
        ),
        asking::carries(
            |s: Seq<ReplyView>| restore::attempted(explicit, attempt, attempts, verbose, error, s),
            t,
            |s: Seq<ReplyView>| restore::numbers_tried(
                policy::candidates(explicit, live, remembered),
                verbose,
                error,
                s,
            ),
            t4,
        ),
{
    let p = |s: Seq<ReplyView>| restore::attempted(explicit, attempt, attempts, verbose, error, s);
    let f = |s: Seq<ReplyView>| restore::numbers_tried(
        policy::candidates(explicit, live, remembered),
        verbose,
        error,
        s,
    );
    let q1 = |s: Seq<ReplyView>| native::activity_found(s);
    let q2 = |s: Seq<ReplyView>| native::builtin_found(s);
    let q3 = |s: Seq<ReplyView>| files::panel_number_read(s);
    let q4 = |s: Seq<ReplyView>| files::logged(
        restore::attempt_log(
            attempt,
            attempts,
            policy::candidates(explicit, live, remembered),
            live,
            remembered,
        ),
        s,
    );
    assert(asking::cuts(q1, t, t1)) by {
        front_laws::activity_found_shrinks(t);
        front_laws::activity_found_cut(t, 0);
        assert forall|j: int| 0 <= j <= t1.len() implies q1(
            #[trigger] t.take(t.len() - t1.len() + j),
        ) == Course::Ends(q1(t)->Ends_0, t1.take(j)) by {
            front_laws::activity_found_cut(t, j);
        }
    }
    assert(asking::cuts(q2, t1, t2)) by {
        front_laws::builtin_found_shrinks(t1);
        front_laws::builtin_found_cut(t1, 0);
        assert forall|j: int| 0 <= j <= t2.len() implies q2(
            #[trigger] t1.take(t1.len() - t2.len() + j),
        ) == Course::Ends(q2(t1)->Ends_0, t2.take(j)) by {
            front_laws::builtin_found_cut(t1, j);
        }
    }
    assert(asking::cuts(q3, t2, t3)) by {
        front_laws::panel_number_read_shrinks(t2);
        front_laws::panel_number_read_cut(t2, 0);
        assert forall|j: int| 0 <= j <= t3.len() implies q3(
            #[trigger] t2.take(t2.len() - t3.len() + j),
        ) == Course::Ends(q3(t2)->Ends_0, t3.take(j)) by {
            front_laws::panel_number_read_cut(t2, j);
        }
    }
    assert(asking::cuts(q4, t3, t4)) by {
        front_laws::logged_shrinks(
            restore::attempt_log(
                attempt,
                attempts,
                policy::candidates(explicit, live, remembered),
                live,
                remembered,
            ),
            t3,
        );
        front_laws::logged_cut(
            restore::attempt_log(
                attempt,
                attempts,
                policy::candidates(explicit, live, remembered),
                live,
                remembered,
            ),
            t3,
            0,
        );
        assert forall|j: int| 0 <= j <= t4.len() implies q4(
            #[trigger] t3.take(t3.len() - t4.len() + j),
        ) == Course::Ends(q4(t3)->Ends_0, t4.take(j)) by {
            front_laws::logged_cut(
                restore::attempt_log(
                    attempt,
                    attempts,
                    policy::candidates(explicit, live, remembered),
                    live,
                    remembered,
                ),
                t3,
                j,
            );
        }
    }
    assert forall|
        x: Seq<ReplyView>,
        r1: Seq<ReplyView>,
        r2: Seq<ReplyView>,
        r3: Seq<ReplyView>,
        r4: Seq<ReplyView>,
    | #[trigger]
        asking::step4(
            p,
            q1,
            q2,
            q3,
            q4,
            f,
            q1(t)->Ends_0,
            q2(t1)->Ends_0,
            q3(t2)->Ends_0,
            q4(t3)->Ends_0,
            x,
            r1,
            r2,
            r3,
            r4,
        ) by {
        if q1(x) == Course::Ends(q1(t)->Ends_0, r1) && q2(r1) == Course::Ends(q2(t1)->Ends_0, r2)
            && q3(r2) == Course::Ends(q3(t2)->Ends_0, r3)
            && q4(r3) == Course::Ends(q4(t3)->Ends_0, r4) {
            lemma_attempt_tries_step(
                explicit,
                attempt,
                attempts,
                verbose,
                error,
                live,
                remembered,
                x,
                r1,
                r2,
                r3,
                r4,
            );
        }
    }
    asking::lemma_behind4(p, q1, q2, q3, q4, f, t, t1, t2, t3, t4);
}

/// What an attempt to light the panel has met by its end. It ends well only where
/// the panel said that it is active. However it ends, the panel was active, or a
/// configuration was begun to switch it on, or the state file was of no use. It
/// counts as failed only where each number that is known of the panel was tried:
/// the one given, or the one found online, the one remembered and 1.
pub proof fn attempt_does_what_it_can(
    explicit: Option<u32>,
    attempt: u32,
    attempts: u32,
    verbose: bool,
    error: Option<Seq<char>>,
    t: Seq<ReplyView>,
) -> (known: (Option<u32>, Option<u32>))
    requires
        restore::attempted(explicit, attempt, attempts, verbose, error, t) is Ends,
    ensures
        ({
            let p = |s: Seq<ReplyView>|
                restore::attempted(explicit, attempt, attempts, verbose, error, s);
            &&& asking::met(p, t, native_laws::active()) || asking::met(p, t, begun())
                || asking::met(p, t, state_unreadable())
            &&& match restore::attempted(explicit, attempt, attempts, verbose, error, t)->Ends_0 {
                TrialView::Over(r) => r is Ok ==> asking::met(p, t, native_laws::active()),
                TrialView::Failed(_) => {
                    let t1 = native::activity_found(t)->Ends_1;
                    let t2 = native::builtin_found(t1)->Ends_1;
                    &&& native::builtin_found(t1)->Ends_0 == known.0
                    &&& files::panel_number_read(t2)->Ends_0 == Ok::<Option<u32>, Seq<char>>(
                        known.1,
                    )
                    &&& explicit matches Some(id) ==> asking::met(p, t, tried(id))
                    &&& explicit is None ==> {
                        &&& known.0 matches Some(id) ==> asking::met(p, t, tried(id))
                        &&& known.1 matches Some(id) ==> asking::met(p, t, tried(id))
                        &&& asking::met(p, t, tried(1))
                    }
                },
            }
        }),
{
    let p = |s: Seq<ReplyView>| restore::attempted(explicit, attempt, attempts, verbose, error, s);
    let whole = restore::attempted(explicit, attempt, attempts, verbose, error, t);
    let trial = whole->Ends_0;
    match native::activity_found(t) {
        Course::Ends(active, t1) => if active {
            lemma_attempt_looks(explicit, attempt, attempts, verbose, error, t);
            native_laws::active_is_what_says_so(t);
            (None, None)
        } else {
            match native::builtin_found(t1) {
                Course::Ends(live, t2) => match files::panel_number_read(t2) {
                    Course::Ends(r, t3) => match r {
                        Err(_) => {
                            lemma_attempt_reads(
                                explicit,
                                attempt,
                                attempts,
                                verbose,
                                error,
                                t,
                                t1,
                                t2,
                            );
                            let f = |s: Seq<ReplyView>| files::panel_number_read(s);
                            assert(t2.take(0).len() == 0);
                            assert(asking::meets(f, t2, state_unreadable(), 0));
                            assert(asking::met(f, t2, state_unreadable()));
                            (None, None)
                        },
                        Ok(remembered) => {
                            let ids = policy::candidates(explicit, live, remembered);
                            policy_laws::candidates_follow_trust(explicit, live, remembered);
                            let line = restore::attempt_log(
                                attempt,
                                attempts,
                                ids,
                                live,
                                remembered,
                            );
                            if let Course::Ends(_, t4) = files::logged(line, t3) {
                                lemma_attempt_tries(
                                    explicit,
                                    attempt,
                                    attempts,
                                    verbose,
                                    error,
                                    live,
                                    remembered,
                                    t,
                                    t1,
                                    t2,
                                    t3,
                                    t4,
                                );
                                lemma_trial_begins(ids, verbose, error, t4);
                                match trial {
                                    TrialView::Over(_) => {
                                        lemma_trial_over(ids, verbose, error, t4);
                                    },
                                    TrialView::Failed(_) => {
                                        assert forall|i: int| 0 <= i < ids.len() implies asking::met(
                                            p,
                                            t,
                                            tried(#[trigger] ids[i]),
                                        ) by {
                                            lemma_trial_tries(ids, verbose, error, t4, i);
                                        }
                                        if explicit is None {
                                            let i = choose|i: int|
                                                0 <= i < ids.len() && ids[i] == 1;
                                            assert(asking::met(p, t, tried(ids[i])));
                                        }
                                    },
                                }
                            }
                            (live, remembered)
                        },
                    },
                    Course::Asks(_) => (None, None),
                },
                Course::Asks(_) => (None, None),
            }
        },
        Course::Asks(_) => (None, None),
    }
}

proof fn lemma_attempts_start_step(
    explicit: Option<u32>,
    attempt: u32,
    last: u32,
    attempts: u32,
    verbose: bool,
    error: Option<Seq<char>>,
    x: Seq<ReplyView>,
    r1: Seq<ReplyView>,
)
    requires
        restore::attempt_prepared(attempt, x) matches Course::Ends(v, rest) && rest == r1,
    ensures
        restore::attempted(explicit, attempt, attempts, verbose, error, r1) is Asks
            ==> asking::wanted(
                restore::attempts_made(explicit, attempt, last, attempts, verbose, error, x),
            ) == asking::wanted(restore::attempted(
                explicit,
                attempt,
                attempts,
                verbose,
                error,
                r1,
            )),
{
}

proof fn lemma_attempts_start(
    explicit: Option<u32>,
    attempt: u32,
    last: u32,
    attempts: u32,
    verbose: bool,
    error: Option<Seq<char>>,
    t: Seq<ReplyView>,
    t1: Seq<ReplyView>,
)
    requires
        restore::attempt_prepared(attempt, t) matches Course::Ends(v, rest) && rest == t1,
    ensures
        asking::leads(
            |s: Seq<ReplyView>| restore::attempts_made(
                explicit,
                attempt,
                last,
                attempts,
                verbose,
                error,
                s,
            ),
            t,
            |s: Seq<ReplyView>| restore::attempted(explicit, attempt, attempts, verbose, error, s),
            t1,
        ),
        asking::carries(
            |s: Seq<ReplyView>| restore::attempts_made(
                explicit,
                attempt,
                last,
                attempts,
                verbose,
                error,
                s,
            ),
            t,
            |s: Seq<ReplyView>| restore::attempted(explicit, attempt, attempts, verbose, error, s),
            t1,
        ),
{
    let p = |s: Seq<ReplyView>| restore::attempts_made(
        explicit,
        attempt,
        last,
        attempts,
        verbose,
        error,
        s,
    );
    let f = |s: Seq<ReplyView>| restore::attempted(explicit, attempt, attempts, verbose, error, s);
    let q1 = |s: Seq<ReplyView>| restore::attempt_prepared(attempt, s);
    assert(asking::cuts(q1, t, t1)) by {
        front_laws::attempt_prepared_shrinks(attempt, t);
        front_laws::attempt_prepared_cut(attempt, t, 0);
        assert forall|j: int| 0 <= j <= t1.len() implies q1(
            #[trigger] t.take(t.len() - t1.len() + j),
        ) == Course::Ends(q1(t)->Ends_0, t1.take(j)) by {
            front_laws::attempt_prepared_cut(attempt, t, j);
        }
    }
    assert forall|x: Seq<ReplyView>, r1: Seq<ReplyView>| #[trigger]
        asking::step1(p, q1, f, q1(t)->Ends_0, x, r1) by {
        if q1(x) == Course::Ends(q1(t)->Ends_0, r1) {
            lemma_attempts_start_step(explicit, attempt, last, attempts, verbose, error, x, r1);
        }
    }
    asking::lemma_behind1(p, q1, f, t, t1);
}

proof fn lemma_attempts_again_step(
    explicit: Option<u32>,
    attempt: u32,
    last: u32,
    attempts: u32,
    verbose: bool,
    error: Option<Seq<char>>,
    next: Option<Seq<char>>,
    x: Seq<ReplyView>,
    r1: Seq<ReplyView>,
    r2: Seq<ReplyView>,
)
    requires
        attempt < last,
        restore::attempt_prepared(attempt, x) matches Course::Ends(v, rest) && rest == r1,
        restore::attempted(
            explicit,
            attempt,
            attempts,
            verbose,
            error,
            r1,
        ) matches Course::Ends(v, rest)
            && v == TrialView::Failed(next) && rest == r2,
    ensures
        restore::attempts_made(
            explicit,
            (attempt + 1) as u32,
            last,
            attempts,
            verbose,
            next,
            r2,
        ) is Asks
            ==> asking::wanted(restore::attempts_made(explicit, attempt, last, attempts, verbose, error, x)) == asking::wanted(
                restore::attempts_made(
                    explicit,
                    (attempt + 1) as u32,
                    last,
                    attempts,
                    verbose,
                    next,
                    r2,
                ),
            ),
{
}

proof fn lemma_attempts_again(
    explicit: Option<u32>,
    attempt: u32,
    last: u32,
    attempts: u32,
    verbose: bool,
    error: Option<Seq<char>>,
    next: Option<Seq<char>>,
    t: Seq<ReplyView>,
    t1: Seq<ReplyView>,
    t2: Seq<ReplyView>,
)
    requires
        attempt < last,
        restore::attempt_prepared(attempt, t) matches Course::Ends(v, rest) && rest == t1,
        restore::attempted(
            explicit,
            attempt,
            attempts,
            verbose,
            error,
            t1,
        ) matches Course::Ends(v, rest)
            && v == TrialView::Failed(next) && rest == t2,
    ensures
        asking::leads(
            |s: Seq<ReplyView>| restore::attempts_made(
                explicit,
                attempt,
                last,
                attempts,
                verbose,
                error,
                s,
            ),
            t,
            |s: Seq<ReplyView>| restore::attempts_made(
                explicit,
                (attempt + 1) as u32,
                last,
                attempts,
                verbose,
                next,
                s,
            ),
            t2,
        ),
        asking::carries(
            |s: Seq<ReplyView>| restore::attempts_made(
                explicit,
                attempt,
                last,
                attempts,
                verbose,
                error,
                s,
            ),
            t,
            |s: Seq<ReplyView>| restore::attempts_made(
                explicit,
                (attempt + 1) as u32,
                last,
                attempts,
                verbose,
                next,
                s,
            ),
            t2,
        ),
{
    let p = |s: Seq<ReplyView>| restore::attempts_made(
        explicit,
        attempt,
        last,
        attempts,
        verbose,
        error,
        s,
    );
    let f = |s: Seq<ReplyView>| restore::attempts_made(
        explicit,
        (attempt + 1) as u32,
        last,
        attempts,
        verbose,
        next,
        s,
    );
    let q1 = |s: Seq<ReplyView>| restore::attempt_prepared(attempt, s);
    let q2 = |s: Seq<ReplyView>| restore::attempted(explicit, attempt, attempts, verbose, error, s);
    assert(asking::cuts(q1, t, t1)) by {
        front_laws::attempt_prepared_shrinks(attempt, t);
        front_laws::attempt_prepared_cut(attempt, t, 0);
        assert forall|j: int| 0 <= j <= t1.len() implies q1(
            #[trigger] t.take(t.len() - t1.len() + j),
        ) == Course::Ends(q1(t)->Ends_0, t1.take(j)) by {
            front_laws::attempt_prepared_cut(attempt, t, j);
        }
    }
    assert(asking::cuts(q2, t1, t2)) by {
        front_laws::attempted_shrinks(explicit, attempt, attempts, verbose, error, t1);
        front_laws::attempted_cut(explicit, attempt, attempts, verbose, error, t1, 0);
        assert forall|j: int| 0 <= j <= t2.len() implies q2(
            #[trigger] t1.take(t1.len() - t2.len() + j),
        ) == Course::Ends(q2(t1)->Ends_0, t2.take(j)) by {
            front_laws::attempted_cut(explicit, attempt, attempts, verbose, error, t1, j);
        }
    }
    assert forall|x: Seq<ReplyView>, r1: Seq<ReplyView>, r2: Seq<ReplyView>| #[trigger]
        asking::step2(p, q1, q2, f, q1(t)->Ends_0, q2(t1)->Ends_0, x, r1, r2) by {
        if q1(x) == Course::Ends(q1(t)->Ends_0, r1) && q2(r1) == Course::Ends(q2(t1)->Ends_0, r2) {
            lemma_attempts_again_step(
                explicit,
                attempt,
                last,
                attempts,
                verbose,
                error,
                next,
                x,
                r1,
                r2,
            );
        }
    }
    asking::lemma_behind2(p, q1, q2, f, t, t1, t2);
}

proof fn lemma_attempts_meet(
    explicit: Option<u32>,
    attempt: u32,
    last: u32,
    attempts: u32,
    verbose: bool,
    error: Option<Seq<char>>,
    t: Seq<ReplyView>,
)
    requires
        restore::attempts_made(explicit, attempt, last, attempts, verbose, error, t) is Ends,
    ensures
        ({
            let p = |s: Seq<ReplyView>|
                restore::attempts_made(explicit, attempt, last, attempts, verbose, error, s);
            &&& asking::met(p, t, native_laws::active()) || asking::met(p, t, begun())
                || asking::met(p, t, state_unreadable())
            &&& restore::attempts_made(
                explicit,
                attempt,
                last,
                attempts,
                verbose,
                error,
                t,
            )->Ends_0 is Ok ==> asking::met(p, t, native_laws::active())
        }),
    decreases last - attempt,
{
    if let Course::Ends(_, t1) = restore::attempt_prepared(attempt, t) {
        let one = restore::attempted(explicit, attempt, attempts, verbose, error, t1);
        if let Course::Ends(trial, t2) = one {
            lemma_attempts_start(explicit, attempt, last, attempts, verbose, error, t, t1);
            attempt_does_what_it_can(explicit, attempt, attempts, verbose, error, t1);
            if let TrialView::Failed(next) = trial {
                if attempt < last {
                    lemma_attempts_again(
                        explicit,
                        attempt,
                        last,
                        attempts,
                        verbose,
                        error,
                        next,
                        t,
                        t1,
                        t2,
                    );
                    lemma_attempts_meet(
                        explicit,
                        (attempt + 1) as u32,
                        last,
                        attempts,
                        verbose,
                        next,
                        t2,
                    );
                }
            }
        }
    }
}

proof fn lemma_enabling_attempts(
    explicit: Option<u32>,
    attempts: u32,
    verbose: bool,
    t: Seq<ReplyView>,
)
    ensures
        asking::leads(
            |s: Seq<ReplyView>| restore::internal_enabled(
                explicit,
                attempts,
                ActionMode::Execute,
                verbose,
                s,
            ),
            t,
            |s: Seq<ReplyView>| restore::attempts_made(
                explicit,
                1,
                if attempts > 1 { attempts } else { 1 },
                attempts,
                verbose,
                None,
                s,
            ),
            t,
        ),
        asking::carries(
            |s: Seq<ReplyView>| restore::internal_enabled(
                explicit,
                attempts,
                ActionMode::Execute,
                verbose,
                s,
            ),
            t,
            |s: Seq<ReplyView>| restore::attempts_made(
                explicit,
                1,
                if attempts > 1 { attempts } else { 1 },
                attempts,
                verbose,
                None,
                s,
            ),
            t,
        ),
{
    let p = |s: Seq<ReplyView>| restore::internal_enabled(
        explicit,
        attempts,
        ActionMode::Execute,
        verbose,
        s,
    );
    let f = |s: Seq<ReplyView>| restore::attempts_made(
        explicit,
        1,
        if attempts > 1 { attempts } else { 1 },
        attempts,
        verbose,
        None,
        s,
    );
    assert(t =~= t.skip(t.len() - t.len()));
    assert forall|j: int| 0 <= j <= t.len() && f(t.take(j)) is Asks implies asking::wanted(
        p(#[trigger] t.take(t.len() - t.len() + j)),
    ) == asking::wanted(f(t.take(j))) by {}
    asking::lemma_met_later(p, t, f, t);
}

/// Lighting the panel ends well only after the panel said that it is active.
/// However it ends, the panel was active, or a configuration was begun to switch it
/// on, or the state file was of no use.
pub proof fn lighting_does_what_it_can(
    explicit: Option<u32>,
    attempts: u32,
    verbose: bool,
    t: Seq<ReplyView>,
)
    requires
        restore::internal_enabled(explicit, attempts, ActionMode::Execute, verbose, t) is Ends,
    ensures
        ({
            let p = |s: Seq<ReplyView>|
                restore::internal_enabled(explicit, attempts, ActionMode::Execute, verbose, s);
            &&& asking::met(p, t, native_laws::active()) || asking::met(p, t, begun())
                || asking::met(p, t, state_unreadable())
            &&& restore::internal_enabled(
                explicit,
                attempts,
                ActionMode::Execute,
                verbose,
                t,
            )->Ends_0 is Ok ==> asking::met(p, t, native_laws::active())
        }),
{
    let last = if attempts > 1 {
        attempts
    } else {
        1
    };
    lemma_enabling_attempts(explicit, attempts, verbose, t);
    lemma_attempts_meet(explicit, 1, last, attempts, verbose, None, t);
}

} // verus!
