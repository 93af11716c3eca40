//! What the panel is known by, and what waiting for it comes to.

use vstd::prelude::*;

use crate::asking;
use crate::commands;
use crate::effect;
use crate::effect::{Course, EffectView, ReplyView};
use crate::front_laws;
use crate::native;
use crate::placer::CaptureView;

verus! {

// ---------------------------------------------------------------------------
// The panel among the displays online.
// ---------------------------------------------------------------------------
/// The displays online are asked one after the other whether they are built in.
/// The first that says so is the panel, and there is none only where none does.
pub proof fn panel_is_the_first_that_says_so(ids: Seq<u32>, t: Seq<ReplyView>)
    ensures
        native::builtin_among(ids, t) matches Course::Ends(found, rest) ==> {
            let n = t.len() - rest.len();
            &&& 0 <= n <= ids.len()
            &&& forall|i: int|
                0 <= i < n ==> #[trigger] native::builtin_among(ids, t.take(i))
                    == Course::<Option<u32>>::Asks(EffectView::AskBuiltin(ids[i]))
            &&& match found {
                Some(id) => {
                    &&& n > 0
                    &&& ids[n - 1] == id
                    &&& t[n - 1] == ReplyView::Flag(true)
                    &&& forall|i: int| 0 <= i < n - 1 ==> #[trigger] t[i] != ReplyView::Flag(true)
                },
                None => {
                    &&& n == ids.len()
                    &&& forall|i: int| 0 <= i < n ==> #[trigger] t[i] != ReplyView::Flag(true)
                },
            }
        },
    decreases ids.len(),
{
    if ids.len() > 0 && t.len() > 0 {
        let s = t.skip(1);
        panel_is_the_first_that_says_so(ids.skip(1), s);
        front_laws::builtin_among_shrinks(ids.skip(1), s);
        if let Course::Ends(found, rest) = native::builtin_among(ids, t) {
            let n = t.len() - rest.len();
            let first = t[0] == ReplyView::Flag(true);
            if !first {
                assert(native::builtin_among(ids.skip(1), s) == Course::Ends(found, rest));
                assert(s.len() - rest.len() == n - 1);
                assert forall|i: int| 0 <= i < n - 1 implies #[trigger] t[i] != ReplyView::Flag(
                    true,
                ) || found is None by {
                    if i > 0 && found is Some {
                        assert(s[i - 1] != ReplyView::Flag(true));
                    }
                }
                assert forall|i: int| 0 <= i < n && found is None implies #[trigger] t[i]
                    != ReplyView::Flag(true) by {
                    if i > 0 {
                        assert(s[i - 1] != ReplyView::Flag(true));
                    }
                }
            }
            assert forall|i: int| 0 <= i < n implies #[trigger] native::builtin_among(
                ids,
                t.take(i),
            ) == Course::<Option<u32>>::Asks(EffectView::AskBuiltin(ids[i])) by {
                if i > 0 {
                    assert(t.take(i).skip(1) =~= s.take(i - 1));
                    assert(native::builtin_among(ids.skip(1), s.take(i - 1)) == Course::<
                        Option<u32>,
                    >::Asks(EffectView::AskBuiltin(ids.skip(1)[i - 1])));
                }
            }
        }
    }
}

// ---------------------------------------------------------------------------
// Whether it is active.
// ---------------------------------------------------------------------------
/// A display was asked whether it is active, and said so.
pub open spec fn active() -> spec_fn(EffectView, ReplyView) -> bool {
    |e: EffectView, r: ReplyView| e is AskActive && r == ReplyView::Flag(true)
}

proof fn lemma_found_asks_step(
    id: u32,
    x: Seq<ReplyView>,
    r1: Seq<ReplyView>,
)
    requires
        native::builtin_found(x) matches Course::Ends(v, rest) && v == Some(id) && rest == r1,
    ensures
        effect::asks_flag(EffectView::AskActive(id), r1) is Asks
            ==> asking::wanted(native::activity_found(x)) == asking::wanted(
                effect::asks_flag(EffectView::AskActive(id), r1),
            ),
{
}

proof fn lemma_found_asks(
    id: u32,
    t: Seq<ReplyView>,
    t1: Seq<ReplyView>,
)
    requires
        native::builtin_found(t) matches Course::Ends(v, rest) && v == Some(id) && rest == t1,
    ensures
        asking::leads(
            |s: Seq<ReplyView>| native::activity_found(s),
            t,
            |s: Seq<ReplyView>| effect::asks_flag(EffectView::AskActive(id), s),
            t1,
        ),
        asking::carries(
            |s: Seq<ReplyView>| native::activity_found(s),
            t,
            |s: Seq<ReplyView>| effect::asks_flag(EffectView::AskActive(id), s),
            t1,
        ),
{
    let p = |s: Seq<ReplyView>| native::activity_found(s);
    let f = |s: Seq<ReplyView>| effect::asks_flag(EffectView::AskActive(id), s);
    let q1 = |s: Seq<ReplyView>| native::builtin_found(s);
    assert(asking::cuts(q1, t, t1)) by {
        front_laws::builtin_found_shrinks(t);
        front_laws::builtin_found_cut(t, 0);
        assert forall|j: int| 0 <= j <= t1.len() implies q1(
            #[trigger] t.take(t.len() - t1.len() + j),
        ) == Course::Ends(q1(t)->Ends_0, t1.take(j)) by {
            front_laws::builtin_found_cut(t, j);
        }
    }
    assert forall|x: Seq<ReplyView>, r1: Seq<ReplyView>| #[trigger]
        asking::step1(p, q1, f, q1(t)->Ends_0, x, r1) by {
        if q1(x) == Course::Ends(q1(t)->Ends_0, r1) {
            lemma_found_asks_step(id, x, r1);
        }
    }
    asking::lemma_behind1(p, q1, f, t, t1);
}

/// The panel counts as active only where it said so itself.
pub proof fn active_is_what_says_so(t: Seq<ReplyView>)
    requires
        native::activity_found(t) matches Course::Ends(v, _) && v,
    ensures
        asking::met(|s: Seq<ReplyView>| native::activity_found(s), t, active()),
{
    if let Course::Ends(found, t1) = native::builtin_found(t) {
        let id = found->0;
        lemma_found_asks(id, t, t1);
        let f = |s: Seq<ReplyView>| effect::asks_flag(EffectView::AskActive(id), s);
        assert(t1.take(0).len() == 0);
        assert(asking::meets(f, t1, active(), 0));
        assert(asking::met(f, t1, active()));
    }
}

proof fn lemma_awaited_starts(
    start: u64,
    timeout_ms: u32,
    t: Seq<ReplyView>,
)
    ensures
        asking::leads(
            |s: Seq<ReplyView>| native::activity_awaited(start, timeout_ms, s),
            t,
            |s: Seq<ReplyView>| native::activity_found(s),
            t,
        ),
        asking::carries(
            |s: Seq<ReplyView>| native::activity_awaited(start, timeout_ms, s),
            t,
            |s: Seq<ReplyView>| native::activity_found(s),
            t,
        ),
{
    let p = |s: Seq<ReplyView>| native::activity_awaited(start, timeout_ms, s);
    let f = |s: Seq<ReplyView>| native::activity_found(s);
    assert(t =~= t.skip(t.len() - t.len()));
    assert forall|j: int| 0 <= j <= t.len() && f(t.take(j)) is Asks implies asking::wanted(
        p(#[trigger] t.take(t.len() - t.len() + j)),
    ) == asking::wanted(f(t.take(j))) by {}
    asking::lemma_met_later(p, t, f, t);
}

proof fn lemma_awaited_again_step(
    start: u64,
    timeout_ms: u32,
    x: Seq<ReplyView>,
    r1: Seq<ReplyView>,
    r2: Seq<ReplyView>,
    r3: Seq<ReplyView>,
)
    requires
        native::activity_found(x) matches Course::Ends(v, rest) && !v && rest == r1,
        effect::asks_nanos(EffectView::Clock, r1) matches Course::Ends(v, rest)
            && !commands::over_time(start, v, timeout_ms) && rest == r2,
        effect::asks_any(EffectView::Sleep(250), r2) matches Course::Ends(v, rest) && rest == r3,
    ensures
        native::activity_awaited(start, timeout_ms, r3) is Asks
            ==> asking::wanted(native::activity_awaited(start, timeout_ms, x)) == asking::wanted(
                native::activity_awaited(start, timeout_ms, r3),
            ),
{
}

proof fn lemma_awaited_again(
    start: u64,
    timeout_ms: u32,
    t: Seq<ReplyView>,
    t1: Seq<ReplyView>,
    t2: Seq<ReplyView>,
    t3: Seq<ReplyView>,
)
    requires
        native::activity_found(t) matches Course::Ends(v, rest) && !v && rest == t1,
        effect::asks_nanos(EffectView::Clock, t1) matches Course::Ends(v, rest)
            && !commands::over_time(start, v, timeout_ms) && rest == t2,
        effect::asks_any(EffectView::Sleep(250), t2) matches Course::Ends(v, rest) && rest == t3,
    ensures
        asking::leads(
            |s: Seq<ReplyView>| native::activity_awaited(start, timeout_ms, s),
            t,
            |s: Seq<ReplyView>| native::activity_awaited(start, timeout_ms, s),
            t3,
        ),
        asking::carries(
            |s: Seq<ReplyView>| native::activity_awaited(start, timeout_ms, s),
            t,
            |s: Seq<ReplyView>| native::activity_awaited(start, timeout_ms, s),
            t3,
        ),
{
    let p = |s: Seq<ReplyView>| native::activity_awaited(start, timeout_ms, s);
    let f = |s: Seq<ReplyView>| native::activity_awaited(start, timeout_ms, s);
    let q1 = |s: Seq<ReplyView>| native::activity_found(s);
    let q2 = |s: Seq<ReplyView>| effect::asks_nanos(EffectView::Clock, s);
    let q3 = |s: Seq<ReplyView>| effect::asks_any(EffectView::Sleep(250), s);
    assert(asking::cuts(q1, t, t1)) by {
        front_laws::activity_found_shrinks(t);
        front_laws::activity_found_cut(t, 0);
        assert forall|j: int| 0 <= j <= t1.len() implies q1(
            #[trigger] t.take(t.len() - t1.len() + j),
        ) == Course::Ends(q1(t)->Ends_0, t1.take(j)) by {
            front_laws::activity_found_cut(t, j);
        }
    }
    assert(asking::cuts(q2, t1, t2)) by {
        front_laws::asks_nanos_shrinks(EffectView::Clock, t1);
        front_laws::asks_nanos_cut(EffectView::Clock, t1, 0);
        assert forall|j: int| 0 <= j <= t2.len() implies q2(
            #[trigger] t1.take(t1.len() - t2.len() + j),
        ) == Course::Ends(q2(t1)->Ends_0, t2.take(j)) by {
            front_laws::asks_nanos_cut(EffectView::Clock, t1, j);
        }
    }
    assert(asking::cuts(q3, t2, t3)) by {
        front_laws::asks_any_shrinks(EffectView::Sleep(250), t2);
        front_laws::asks_any_cut(EffectView::Sleep(250), t2, 0);
        assert forall|j: int| 0 <= j <= t3.len() implies q3(
            #[trigger] t2.take(t2.len() - t3.len() + j),
        ) == Course::Ends(q3(t2)->Ends_0, t3.take(j)) by {
            front_laws::asks_any_cut(EffectView::Sleep(250), t2, j);
        }
    }
    assert forall|
        x: Seq<ReplyView>,
        r1: Seq<ReplyView>,
        r2: Seq<ReplyView>,
        r3: Seq<ReplyView>,
    | #[trigger]
        asking::step3(
            p,
            q1,
            q2,
            q3,
            f,
            q1(t)->Ends_0,
            q2(t1)->Ends_0,
            q3(t2)->Ends_0,
            x,
            r1,
            r2,
            r3,
        ) by {
        if q1(x) == Course::Ends(q1(t)->Ends_0, r1) && q2(r1) == Course::Ends(q2(t1)->Ends_0, r2)
            && q3(r2) == Course::Ends(q3(t2)->Ends_0, r3) {
            lemma_awaited_again_step(start, timeout_ms, x, r1, r2, r3);
        }
    }
    asking::lemma_behind3(p, q1, q2, q3, f, t, t1, t2, t3);
}

proof fn lemma_awaited_clock_step(
    start: u64,
    timeout_ms: u32,
    x: Seq<ReplyView>,
    r1: Seq<ReplyView>,
)
    requires
        native::activity_found(x) matches Course::Ends(v, rest) && !v && rest == r1,
    ensures
        effect::asks_nanos(EffectView::Clock, r1) is Asks
            ==> asking::wanted(
                native::activity_awaited(start, timeout_ms, x),
            ) == asking::wanted(effect::asks_nanos(EffectView::Clock, r1)),
{
}

proof fn lemma_awaited_clock(
    start: u64,
    timeout_ms: u32,
    t: Seq<ReplyView>,
    t1: Seq<ReplyView>,
)
    requires
        native::activity_found(t) matches Course::Ends(v, rest) && !v && rest == t1,
    ensures
        asking::leads(
            |s: Seq<ReplyView>| native::activity_awaited(start, timeout_ms, s),
            t,
            |s: Seq<ReplyView>| effect::asks_nanos(EffectView::Clock, s),
            t1,
        ),
        asking::carries(
            |s: Seq<ReplyView>| native::activity_awaited(start, timeout_ms, s),
            t,
            |s: Seq<ReplyView>| effect::asks_nanos(EffectView::Clock, s),
            t1,
        ),
{
    let p = |s: Seq<ReplyView>| native::activity_awaited(start, timeout_ms, s);
    let f = |s: Seq<ReplyView>| effect::asks_nanos(EffectView::Clock, s);
    let q1 = |s: Seq<ReplyView>| native::activity_found(s);
    assert(asking::cuts(q1, t, t1)) by {
        front_laws::activity_found_shrinks(t);
        front_laws::activity_found_cut(t, 0);
        assert forall|j: int| 0 <= j <= t1.len() implies q1(
            #[trigger] t.take(t.len() - t1.len() + j),
        ) == Course::Ends(q1(t)->Ends_0, t1.take(j)) by {
            front_laws::activity_found_cut(t, j);
        }
    }
    assert forall|x: Seq<ReplyView>, r1: Seq<ReplyView>| #[trigger]
        asking::step1(p, q1, f, q1(t)->Ends_0, x, r1) by {
        if q1(x) == Course::Ends(q1(t)->Ends_0, r1) {
            lemma_awaited_clock_step(start, timeout_ms, x, r1);
        }
    }
    asking::lemma_behind1(p, q1, f, t, t1);
}

/// The clock was read, and the time from `start` on was up.
pub open spec fn time_up(start: u64, timeout_ms: u32) -> spec_fn(EffectView, ReplyView) -> bool {
    |e: EffectView, r: ReplyView|
        e == EffectView::Clock && (timeout_ms > 0 ==> match r {
            ReplyView::Nanos(now) => now - start >= timeout_ms * 1_000_000,
            _ => true,
        })
}

proof fn lemma_wait_is_true(start: u64, timeout_ms: u32, t: Seq<ReplyView>)
    ensures
        native::activity_awaited(start, timeout_ms, t) matches Course::Ends(v, _) ==> asking::met(
            |s: Seq<ReplyView>| native::activity_awaited(start, timeout_ms, s),
            t,
            if v {
                active()
            } else {
                time_up(start, timeout_ms)
            },
        ),
    decreases t.len(),
{
    native::lemma_activity_shrinks(t);
    if native::activity_awaited(start, timeout_ms, t) is Ends {
        if let Course::Ends(now_active, t1) = native::activity_found(t) {
            if now_active {
                lemma_awaited_starts(start, timeout_ms, t);
                active_is_what_says_so(t);
            } else if let Course::Ends(now, t2) = effect::asks_nanos(EffectView::Clock, t1) {
                if commands::over_time(start, now, timeout_ms) {
                    lemma_awaited_clock(start, timeout_ms, t, t1);
                    let f = |s: Seq<ReplyView>| effect::asks_nanos(EffectView::Clock, s);
                    let good = time_up(start, timeout_ms);
                    assert(t1.take(0).len() == 0);
                    assert(asking::meets(f, t1, good, 0));
                    assert(asking::met(f, t1, good));
                } else if let Course::Ends(_, t3) = effect::asks_any(EffectView::Sleep(250), t2) {
                    lemma_wait_is_true(start, timeout_ms, t3);
                    lemma_awaited_again(start, timeout_ms, t, t1, t2, t3);
                }
            }
        }
    }
}

proof fn lemma_waited_goes_step(
    start: u64,
    timeout_ms: u32,
    x: Seq<ReplyView>,
    r1: Seq<ReplyView>,
)
    requires
        effect::asks_nanos(EffectView::Clock, x) matches Course::Ends(v, rest) && v == start
            && rest == r1,
    ensures
        native::activity_awaited(start, timeout_ms, r1) is Asks
            ==> asking::wanted(native::activity_waited(timeout_ms, x)) == asking::wanted(
                native::activity_awaited(start, timeout_ms, r1),
            ),
{
}

proof fn lemma_waited_goes(
    start: u64,
    timeout_ms: u32,
    t: Seq<ReplyView>,
    t1: Seq<ReplyView>,
)
    requires
        effect::asks_nanos(EffectView::Clock, t) matches Course::Ends(v, rest) && v == start
            && rest == t1,
    ensures
        asking::leads(
            |s: Seq<ReplyView>| native::activity_waited(timeout_ms, s),
            t,
            |s: Seq<ReplyView>| native::activity_awaited(start, timeout_ms, s),
            t1,
        ),
        asking::carries(
            |s: Seq<ReplyView>| native::activity_waited(timeout_ms, s),
            t,
            |s: Seq<ReplyView>| native::activity_awaited(start, timeout_ms, s),
            t1,
        ),
{
    let p = |s: Seq<ReplyView>| native::activity_waited(timeout_ms, s);
    let f = |s: Seq<ReplyView>| native::activity_awaited(start, timeout_ms, s);
    let q1 = |s: Seq<ReplyView>| effect::asks_nanos(EffectView::Clock, s);
    assert(asking::cuts(q1, t, t1)) by {
        front_laws::asks_nanos_shrinks(EffectView::Clock, t);
        front_laws::asks_nanos_cut(EffectView::Clock, t, 0);
        assert forall|j: int| 0 <= j <= t1.len() implies q1(
            #[trigger] t.take(t.len() - t1.len() + j),
        ) == Course::Ends(q1(t)->Ends_0, t1.take(j)) by {
            front_laws::asks_nanos_cut(EffectView::Clock, t, j);
        }
    }
    assert forall|x: Seq<ReplyView>, r1: Seq<ReplyView>| #[trigger]
        asking::step1(p, q1, f, q1(t)->Ends_0, x, r1) by {
        if q1(x) == Course::Ends(q1(t)->Ends_0, r1) {
            lemma_waited_goes_step(start, timeout_ms, x, r1);
        }
    }
    asking::lemma_behind1(p, q1, f, t, t1);
}

/// A wait for the panel ends well only after the panel said that it is active, and
/// otherwise only after the clock has shown that the time is up, counted from the
/// clock's first reading.
pub proof fn waiting_is_for_the_panel(timeout_ms: u32, t: Seq<ReplyView>)
    requires
        native::activity_waited(timeout_ms, t) is Ends,
        t[0] is Nanos,
    ensures
        native::activity_waited(timeout_ms, t)->Ends_0 ==> asking::met(
            |s: Seq<ReplyView>| native::activity_waited(timeout_ms, s),
            t,
            active(),
        ),
        !native::activity_waited(timeout_ms, t)->Ends_0 ==> asking::met(
            |s: Seq<ReplyView>| native::activity_waited(timeout_ms, s),
            t,
            time_up(t[0]->Nanos_0, timeout_ms),
        ),
{
    let start = t[0]->Nanos_0;
    let t1 = t.skip(1);
    lemma_waited_goes(start, timeout_ms, t, t1);
    lemma_wait_is_true(start, timeout_ms, t1);
}

/// Where the wait is over well, the panel said that it is active.
pub proof fn waited_well_means_active(timeout_ms: u32, t: Seq<ReplyView>)
    requires
        native::activity_waited(timeout_ms, t) matches Course::Ends(v, _) && v,
    ensures
        asking::met(|s: Seq<ReplyView>| native::activity_waited(timeout_ms, s), t, active()),
{
    if let Course::Ends(start, t1) = effect::asks_nanos(EffectView::Clock, t) {
        lemma_waited_goes(start, timeout_ms, t, t1);
        lemma_wait_is_true(start, timeout_ms, t1);
    }
}

// ---------------------------------------------------------------------------
// A command with a limit.
// ---------------------------------------------------------------------------
/// The output of the command was collected.
pub open spec fn collected(capture: CaptureView) -> spec_fn(EffectView, ReplyView) -> bool {
    |e: EffectView, r: ReplyView|
        e == EffectView::Collect && r == ReplyView::Ran(Ok(capture))
}

proof fn lemma_end_collects_step(
    program: Seq<char>,
    arguments: Seq<Seq<char>>,
    timeout_ms: u32,
    start: u64,
    x: Seq<ReplyView>,
    r1: Seq<ReplyView>,
)
    requires
        effect::asks_ended(EffectView::Poll, x) matches Course::Ends(v, rest)
            && v == Ok::<bool, Seq<char>>(true) && rest == r1,
    ensures
        effect::asks_ran(EffectView::Collect, r1) is Asks
            ==> asking::wanted(
                commands::end_awaited(program, arguments, timeout_ms, start, x),
            ) == asking::wanted(effect::asks_ran(EffectView::Collect, r1)),
{
}

proof fn lemma_end_collects(
    program: Seq<char>,
    arguments: Seq<Seq<char>>,
    timeout_ms: u32,
    start: u64,
    t: Seq<ReplyView>,
    t1: Seq<ReplyView>,
)
    requires
        effect::asks_ended(EffectView::Poll, t) matches Course::Ends(v, rest)
            && v == Ok::<bool, Seq<char>>(true) && rest == t1,
    ensures
        asking::leads(
            |s: Seq<ReplyView>| commands::end_awaited(program, arguments, timeout_ms, start, s),
            t,
            |s: Seq<ReplyView>| effect::asks_ran(EffectView::Collect, s),
            t1,
        ),
        asking::carries(
            |s: Seq<ReplyView>| commands::end_awaited(program, arguments, timeout_ms, start, s),
            t,
            |s: Seq<ReplyView>| effect::asks_ran(EffectView::Collect, s),
            t1,
        ),
{
    let p = |s: Seq<ReplyView>| commands::end_awaited(program, arguments, timeout_ms, start, s);
    let f = |s: Seq<ReplyView>| effect::asks_ran(EffectView::Collect, s);
    let q1 = |s: Seq<ReplyView>| effect::asks_ended(EffectView::Poll, s);
    assert(asking::cuts(q1, t, t1)) by {
        front_laws::asks_ended_shrinks(EffectView::Poll, t);
        front_laws::asks_ended_cut(EffectView::Poll, t, 0);
        assert forall|j: int| 0 <= j <= t1.len() implies q1(
            #[trigger] t.take(t.len() - t1.len() + j),
        ) == Course::Ends(q1(t)->Ends_0, t1.take(j)) by {
            front_laws::asks_ended_cut(EffectView::Poll, t, j);
        }
    }
    assert forall|x: Seq<ReplyView>, r1: Seq<ReplyView>| #[trigger]
        asking::step1(p, q1, f, q1(t)->Ends_0, x, r1) by {
        if q1(x) == Course::Ends(q1(t)->Ends_0, r1) {
            lemma_end_collects_step(program, arguments, timeout_ms, start, x, r1);
        }
    }
    asking::lemma_behind1(p, q1, f, t, t1);
}

proof fn lemma_end_again_step(
    program: Seq<char>,
    arguments: Seq<Seq<char>>,
    timeout_ms: u32,
    start: u64,
    x: Seq<ReplyView>,
    r1: Seq<ReplyView>,
    r2: Seq<ReplyView>,
    r3: Seq<ReplyView>,
)
    requires
        effect::asks_ended(EffectView::Poll, x) matches Course::Ends(v, rest)
            && v == Ok::<bool, Seq<char>>(false) && rest == r1,
        effect::asks_nanos(EffectView::Clock, r1) matches Course::Ends(v, rest)
            && !commands::over_time(start, v, timeout_ms) && rest == r2,
        effect::asks_any(EffectView::Sleep(20), r2) matches Course::Ends(v, rest) && rest == r3,
    ensures
        commands::end_awaited(program, arguments, timeout_ms, start, r3) is Asks
            ==> asking::wanted(commands::end_awaited(program, arguments, timeout_ms, start, x)) == asking::wanted(
                commands::end_awaited(program, arguments, timeout_ms, start, r3),
            ),
{
}

proof fn lemma_end_again(
    program: Seq<char>,
    arguments: Seq<Seq<char>>,
    timeout_ms: u32,
    start: u64,
    t: Seq<ReplyView>,
    t1: Seq<ReplyView>,
    t2: Seq<ReplyView>,
    t3: Seq<ReplyView>,
)
    requires
        effect::asks_ended(EffectView::Poll, t) matches Course::Ends(v, rest)
            && v == Ok::<bool, Seq<char>>(false) && rest == t1,
        effect::asks_nanos(EffectView::Clock, t1) matches Course::Ends(v, rest)
            && !commands::over_time(start, v, timeout_ms) && rest == t2,
        effect::asks_any(EffectView::Sleep(20), t2) matches Course::Ends(v, rest) && rest == t3,
    ensures
        asking::leads(
            |s: Seq<ReplyView>| commands::end_awaited(program, arguments, timeout_ms, start, s),
            t,
            |s: Seq<ReplyView>| commands::end_awaited(program, arguments, timeout_ms, start, s),
            t3,
        ),
        asking::carries(
            |s: Seq<ReplyView>| commands::end_awaited(program, arguments, timeout_ms, start, s),
            t,
            |s: Seq<ReplyView>| commands::end_awaited(program, arguments, timeout_ms, start, s),
            t3,
        ),
{
    let p = |s: Seq<ReplyView>| commands::end_awaited(program, arguments, timeout_ms, start, s);
    let f = |s: Seq<ReplyView>| commands::end_awaited(program, arguments, timeout_ms, start, s);
    let q1 = |s: Seq<ReplyView>| effect::asks_ended(EffectView::Poll, s);
    let q2 = |s: Seq<ReplyView>| effect::asks_nanos(EffectView::Clock, s);
    let q3 = |s: Seq<ReplyView>| effect::asks_any(EffectView::Sleep(20), s);
    assert(asking::cuts(q1, t, t1)) by {
        front_laws::asks_ended_shrinks(EffectView::Poll, t);
        front_laws::asks_ended_cut(EffectView::Poll, t, 0);
        assert forall|j: int| 0 <= j <= t1.len() implies q1(
            #[trigger] t.take(t.len() - t1.len() + j),
        ) == Course::Ends(q1(t)->Ends_0, t1.take(j)) by {
            front_laws::asks_ended_cut(EffectView::Poll, t, j);
        }
    }
    assert(asking::cuts(q2, t1, t2)) by {
        front_laws::asks_nanos_shrinks(EffectView::Clock, t1);
        front_laws::asks_nanos_cut(EffectView::Clock, t1, 0);
        assert forall|j: int| 0 <= j <= t2.len() implies q2(
            #[trigger] t1.take(t1.len() - t2.len() + j),
        ) == Course::Ends(q2(t1)->Ends_0, t2.take(j)) by {
            front_laws::asks_nanos_cut(EffectView::Clock, t1, j);
        }
    }
    assert(asking::cuts(q3, t2, t3)) by {
        front_laws::asks_any_shrinks(EffectView::Sleep(20), t2);
        front_laws::asks_any_cut(EffectView::Sleep(20), t2, 0);
        assert forall|j: int| 0 <= j <= t3.len() implies q3(
            #[trigger] t2.take(t2.len() - t3.len() + j),
        ) == Course::Ends(q3(t2)->Ends_0, t3.take(j)) by {
            front_laws::asks_any_cut(EffectView::Sleep(20), t2, j);
        }
    }
    assert forall|
        x: Seq<ReplyView>,
        r1: Seq<ReplyView>,
        r2: Seq<ReplyView>,
        r3: Seq<ReplyView>,
    | #[trigger]
        asking::step3(
            p,
            q1,
            q2,
            q3,
            f,
            q1(t)->Ends_0,
            q2(t1)->Ends_0,
            q3(t2)->Ends_0,
            x,
            r1,
            r2,
            r3,
        ) by {
        if q1(x) == Course::Ends(q1(t)->Ends_0, r1) && q2(r1) == Course::Ends(q2(t1)->Ends_0, r2)
            && q3(r2) == Course::Ends(q3(t2)->Ends_0, r3) {
            lemma_end_again_step(program, arguments, timeout_ms, start, x, r1, r2, r3);
        }
    }
    asking::lemma_behind3(p, q1, q2, q3, f, t, t1, t2, t3);
}

proof fn lemma_run_waits_step(
    program: Seq<char>,
    arguments: Seq<Seq<char>>,
    timeout_ms: u32,
    start: u64,
    x: Seq<ReplyView>,
    r1: Seq<ReplyView>,
    r2: Seq<ReplyView>,
)
    requires
        effect::asks_done(EffectView::Spawn { program, arguments }, x) matches Course::Ends(v, rest)
            && v is Ok && rest == r1,
        effect::asks_nanos(EffectView::Clock, r1) matches Course::Ends(v, rest) && v == start
            && rest == r2,
    ensures
        commands::end_awaited(program, arguments, timeout_ms, start, r2) is Asks
            ==> asking::wanted(commands::timed_run(program, arguments, timeout_ms, x)) == asking::wanted(
                commands::end_awaited(program, arguments, timeout_ms, start, r2),
            ),
{
}

proof fn lemma_run_waits(
    program: Seq<char>,
    arguments: Seq<Seq<char>>,
    timeout_ms: u32,
    start: u64,
    t: Seq<ReplyView>,
    t1: Seq<ReplyView>,
    t2: Seq<ReplyView>,
)
    requires
        effect::asks_done(EffectView::Spawn { program, arguments }, t) matches Course::Ends(v, rest)
            && v is Ok && rest == t1,
        effect::asks_nanos(EffectView::Clock, t1) matches Course::Ends(v, rest) && v == start
            && rest == t2,
    ensures
        asking::leads(
            |s: Seq<ReplyView>| commands::timed_run(program, arguments, timeout_ms, s),
            t,
            |s: Seq<ReplyView>| commands::end_awaited(program, arguments, timeout_ms, start, s),
            t2,
        ),
        asking::carries(
            |s: Seq<ReplyView>| commands::timed_run(program, arguments, timeout_ms, s),
            t,
            |s: Seq<ReplyView>| commands::end_awaited(program, arguments, timeout_ms, start, s),
            t2,
        ),
{
    let p = |s: Seq<ReplyView>| commands::timed_run(program, arguments, timeout_ms, s);
    let f = |s: Seq<ReplyView>| commands::end_awaited(program, arguments, timeout_ms, start, s);
    let q1 = |s: Seq<ReplyView>| effect::asks_done(EffectView::Spawn { program, arguments }, s);
    let q2 = |s: Seq<ReplyView>| effect::asks_nanos(EffectView::Clock, s);
    assert(asking::cuts(q1, t, t1)) by {
        front_laws::asks_done_shrinks(EffectView::Spawn { program, arguments }, t);
        front_laws::asks_done_cut(EffectView::Spawn { program, arguments }, t, 0);
        assert forall|j: int| 0 <= j <= t1.len() implies q1(
            #[trigger] t.take(t.len() - t1.len() + j),
        ) == Course::Ends(q1(t)->Ends_0, t1.take(j)) by {
            front_laws::asks_done_cut(EffectView::Spawn { program, arguments }, t, j);
        }
    }
    assert(asking::cuts(q2, t1, t2)) by {
        front_laws::asks_nanos_shrinks(EffectView::Clock, t1);
        front_laws::asks_nanos_cut(EffectView::Clock, t1, 0);
        assert forall|j: int| 0 <= j <= t2.len() implies q2(
            #[trigger] t1.take(t1.len() - t2.len() + j),
        ) == Course::Ends(q2(t1)->Ends_0, t2.take(j)) by {
            front_laws::asks_nanos_cut(EffectView::Clock, t1, j);
        }
    }
    assert forall|x: Seq<ReplyView>, r1: Seq<ReplyView>, r2: Seq<ReplyView>| #[trigger]
        asking::step2(p, q1, q2, f, q1(t)->Ends_0, q2(t1)->Ends_0, x, r1, r2) by {
        if q1(x) == Course::Ends(q1(t)->Ends_0, r1) && q2(r1) == Course::Ends(q2(t1)->Ends_0, r2) {
            lemma_run_waits_step(program, arguments, timeout_ms, start, x, r1, r2);
        }
    }
    asking::lemma_behind2(p, q1, q2, f, t, t1, t2);
}

proof fn lemma_output_is_collected(
    program: Seq<char>,
    arguments: Seq<Seq<char>>,
    timeout_ms: u32,
    start: u64,
    t: Seq<ReplyView>,
)
    ensures
        commands::end_awaited(program, arguments, timeout_ms, start, t) matches Course::Ends(
            Ok(capture),
            _,
        ) ==> asking::met(
            |s: Seq<ReplyView>| commands::end_awaited(program, arguments, timeout_ms, start, s),
            t,
            collected(capture),
        ),
    decreases t.len(),
{
    if let Course::Ends(Ok(capture), _) = commands::end_awaited(
        program,
        arguments,
        timeout_ms,
        start,
        t,
    ) {
        if let Course::Ends(Ok(ended), t1) = effect::asks_ended(EffectView::Poll, t) {
            if ended {
                lemma_end_collects(program, arguments, timeout_ms, start, t, t1);
                let f = |s: Seq<ReplyView>| effect::asks_ran(EffectView::Collect, s);
                assert(t1.take(0).len() == 0);
                assert(asking::meets(f, t1, collected(capture), 0));
                assert(asking::met(f, t1, collected(capture)));
            } else if let Course::Ends(now, t2) = effect::asks_nanos(EffectView::Clock, t1) {
                if let Course::Ends(_, t3) = effect::asks_any(EffectView::Sleep(20), t2) {
                    assert(t1 == t.skip(1));
                    assert(t2 == t1.skip(1));
                    assert(t3 == t2.skip(1));
                    lemma_output_is_collected(program, arguments, timeout_ms, start, t3);
                    lemma_end_again(program, arguments, timeout_ms, start, t, t1, t2, t3);
                }
            }
        }
    }
}

/// A command with a limit hands back what was collected from it, and nothing else.
pub proof fn output_is_what_was_collected(
    program: Seq<char>,
    arguments: Seq<Seq<char>>,
    timeout_ms: u32,
    t: Seq<ReplyView>,
    capture: CaptureView,
)
    requires
        commands::timed_run(program, arguments, timeout_ms, t) matches Course::Ends(r, _) && r
            == Ok::<CaptureView, Seq<char>>(capture),
    ensures
        asking::met(
            |s: Seq<ReplyView>| commands::timed_run(program, arguments, timeout_ms, s),
            t,
            collected(capture),
        ),
{
    if let Course::Ends(r1, t1) = effect::asks_done(EffectView::Spawn { program, arguments }, t) {
        if let Course::Ends(start, t2) = effect::asks_nanos(EffectView::Clock, t1) {
            lemma_output_is_collected(program, arguments, timeout_ms, start, t2);
            lemma_run_waits(program, arguments, timeout_ms, start, t, t1, t2);
        }
    }
}

// ---------------------------------------------------------------------------
// The displays online.
// ---------------------------------------------------------------------------
/// The panel is one of the displays that are online, the first of them that says
/// that it is built in.
pub proof fn panel_is_online(t: Seq<ReplyView>)
    ensures
        t.len() == 0 ==> native::builtin_found(t) == Course::<Option<u32>>::Asks(
            EffectView::OnlineDisplays,
        ),
        native::builtin_found(t) matches Course::Ends(found, rest) ==> (found matches Some(id) ==> {
            let n = t.len() - rest.len();
            &&& t[0] matches ReplyView::Numbers(ids) && 2 <= n <= ids.len() + 1 && ids[n - 2] == id
            &&& t[n - 1] == ReplyView::Flag(true)
        }),
{
    if t.len() > 0 {
        let ids = effect::as_numbers(t[0]);
        let t1 = t.skip(1);
        panel_is_the_first_that_says_so(ids, t1);
        if let Course::Ends(found, rest) = native::builtin_found(t) {
            if let Some(id) = found {
                let n = t1.len() - rest.len();
                assert(t1[n - 1] == t[n]);
            }
        }
    }
}

} // verus!
