//! What a procedure asks for on its way over a tape.

use vstd::prelude::*;

use crate::effect::{Course, EffectView, ReplyView};

verus! {

/// The effect that a procedure stopped at, if it did.
pub open spec fn wanted<T>(c: Course<T>) -> Option<EffectView> {
    match c {
        Course::Asks(e) => Some(e),
        Course::Ends(_, _) => None,
    }
}

/// The reply `k` of the tape answers the effect `e`: with the replies before it
/// read, the procedure asks for that effect.
pub open spec fn asked<T>(
    p: spec_fn(Seq<ReplyView>) -> Course<T>,
    t: Seq<ReplyView>,
    e: EffectView,
    k: int,
) -> bool {
    0 <= k < t.len() && wanted(p(t.take(k))) == Some(e)
}

/// Having read all but `s` of the tape `t`, the procedure `p` is at `f`: whatever
/// `f` asks for over `s`, `p` asks for there.
pub open spec fn leads<A, B>(
    p: spec_fn(Seq<ReplyView>) -> Course<A>,
    t: Seq<ReplyView>,
    f: spec_fn(Seq<ReplyView>) -> Course<B>,
    s: Seq<ReplyView>,
) -> bool {
    &&& s.len() <= t.len()
    &&& s == t.skip(t.len() - s.len())
    &&& forall|j: int|
        0 <= j <= s.len() && f(s.take(j)) is Asks ==> wanted(
            p(#[trigger] t.take(t.len() - s.len() + j)),
        ) == wanted(f(s.take(j)))
}

/// The reply `k` of the tape answers an effect, and the two are as `good` says.
pub open spec fn meets<T>(
    p: spec_fn(Seq<ReplyView>) -> Course<T>,
    t: Seq<ReplyView>,
    good: spec_fn(EffectView, ReplyView) -> bool,
    k: int,
) -> bool {
    0 <= k < t.len() && p(t.take(k)) is Asks && good(wanted(p(t.take(k)))->0, t[k])
}

/// On its way over the tape the procedure asks for an effect and is answered as
/// `good` says.
pub open spec fn met<T>(
    p: spec_fn(Seq<ReplyView>) -> Course<T>,
    t: Seq<ReplyView>,
    good: spec_fn(EffectView, ReplyView) -> bool,
) -> bool {
    exists|k: int| #[trigger] meets(p, t, good, k)
}

/// What `f` meets over `s`, `p` meets over `t`.
pub open spec fn carries<A, B>(
    p: spec_fn(Seq<ReplyView>) -> Course<A>,
    t: Seq<ReplyView>,
    f: spec_fn(Seq<ReplyView>) -> Course<B>,
    s: Seq<ReplyView>,
) -> bool {
    forall|good: spec_fn(EffectView, ReplyView) -> bool| #[trigger]
        met(f, s, good) ==> met(p, t, good)
}

/// What is met behind a place of the tape is met on the whole tape.
pub proof fn lemma_met_later<A, B>(
    p: spec_fn(Seq<ReplyView>) -> Course<A>,
    t: Seq<ReplyView>,
    f: spec_fn(Seq<ReplyView>) -> Course<B>,
    s: Seq<ReplyView>,
)
    requires
        leads(p, t, f, s),
    ensures
        carries(p, t, f, s),
{
    assert forall|good: spec_fn(EffectView, ReplyView) -> bool| #[trigger]
        met(f, s, good) implies met(p, t, good) by {
        let k = choose|k: int| meets(f, s, good, k);
        let n = t.len() - s.len();
        assert(wanted(p(t.take(t.len() - s.len() + k))) == wanted(f(s.take(k))));
        assert(meets(p, t, good, n + k));
    }
}

/// What is asked for behind a place of the tape is asked for on the whole tape.
pub proof fn lemma_asked_later<A, B>(
    p: spec_fn(Seq<ReplyView>) -> Course<A>,
    t: Seq<ReplyView>,
    f: spec_fn(Seq<ReplyView>) -> Course<B>,
    s: Seq<ReplyView>,
    e: EffectView,
    k: int,
)
    requires
        leads(p, t, f, s),
        asked(f, s, e, k),
    ensures
        asked(p, t, e, t.len() - s.len() + k),
        t[t.len() - s.len() + k] == s[k],
{
    assert(wanted(p(t.take(t.len() - s.len() + k))) == wanted(f(s.take(k))));
}

// ---------------------------------------------------------------------------
// One procedure inside another.
// ---------------------------------------------------------------------------
/// Over `t` the procedure ends before `t1`, and it reads nothing of that.
pub open spec fn cuts<A>(
    q: spec_fn(Seq<ReplyView>) -> Course<A>,
    t: Seq<ReplyView>,
    t1: Seq<ReplyView>,
) -> bool {
    &&& t1.len() <= t.len()
    &&& t1 == t.skip(t.len() - t1.len())
    &&& q(t) is Ends
    &&& forall|j: int|
        0 <= j <= t1.len() ==> q(#[trigger] t.take(t.len() - t1.len() + j)) == Course::Ends(
            q(t)->Ends_0,
            t1.take(j),
        )
}

/// Behind one procedure with this result, `p` is at `f`.
pub open spec fn step1<Q1, P, F>(
    p: spec_fn(Seq<ReplyView>) -> Course<P>,
    q1: spec_fn(Seq<ReplyView>) -> Course<Q1>,
    f: spec_fn(Seq<ReplyView>) -> Course<F>,
    v1: Q1,
    x: Seq<ReplyView>,
    r1: Seq<ReplyView>,
) -> bool {
    q1(x) == Course::Ends(v1, r1) && f(r1) is Asks ==> wanted(p(x)) == wanted(f(r1))
}

/// A procedure that runs one procedure first leads to what comes behind.
pub proof fn lemma_behind1<Q1, P, F>(
    p: spec_fn(Seq<ReplyView>) -> Course<P>,
    q1: spec_fn(Seq<ReplyView>) -> Course<Q1>,
    f: spec_fn(Seq<ReplyView>) -> Course<F>,
    t: Seq<ReplyView>,
    t1: Seq<ReplyView>,
)
    requires
        cuts(q1, t, t1),
        forall|x: Seq<ReplyView>, r1: Seq<ReplyView>| #[trigger]
            step1(p, q1, f, q1(t)->Ends_0, x, r1),
    ensures
        leads(p, t, f, t1),
        carries(p, t, f, t1),
{
    assert(t1 =~= t.skip(t.len() - t1.len()));
    assert forall|j: int| 0 <= j <= t1.len() && f(t1.take(j)) is Asks implies wanted(
        p(#[trigger] t.take(t.len() - t1.len() + j)),
    ) == wanted(f(t1.take(j))) by {
        assert(q1(t.take(t.len() - t1.len() + j)) == Course::Ends(q1(t)->Ends_0, t1.take(j)));
        assert(step1(p, q1, f, q1(t)->Ends_0, t.take(t.len() - t1.len() + j), t1.take(j)));
    }
    lemma_met_later(p, t, f, t1);
}

/// Behind two procedures with these results, `p` is at `f`.
pub open spec fn step2<Q1, Q2, P, F>(
    p: spec_fn(Seq<ReplyView>) -> Course<P>,
    q1: spec_fn(Seq<ReplyView>) -> Course<Q1>,
    q2: spec_fn(Seq<ReplyView>) -> Course<Q2>,
    f: spec_fn(Seq<ReplyView>) -> Course<F>,
    v1: Q1,
    v2: Q2,
    x: Seq<ReplyView>,
    r1: Seq<ReplyView>,
    r2: Seq<ReplyView>,
) -> bool {
    q1(x) == Course::Ends(v1, r1) && q2(r1) == Course::Ends(v2, r2) && f(r2) is Asks
        ==> wanted(p(x)) == wanted(f(r2))
}

/// A procedure that runs two procedures first leads to what comes behind.
pub proof fn lemma_behind2<Q1, Q2, P, F>(
    p: spec_fn(Seq<ReplyView>) -> Course<P>,
    q1: spec_fn(Seq<ReplyView>) -> Course<Q1>,
    q2: spec_fn(Seq<ReplyView>) -> Course<Q2>,
    f: spec_fn(Seq<ReplyView>) -> Course<F>,
    t: Seq<ReplyView>,
    t1: Seq<ReplyView>,
    t2: Seq<ReplyView>,
)
    requires
        cuts(q1, t, t1),
        cuts(q2, t1, t2),
        forall|x: Seq<ReplyView>, r1: Seq<ReplyView>, r2: Seq<ReplyView>| #[trigger]
            step2(p, q1, q2, f, q1(t)->Ends_0, q2(t1)->Ends_0, x, r1, r2),
    ensures
        leads(p, t, f, t2),
        carries(p, t, f, t2),
{
    assert(t2 =~= t.skip(t.len() - t2.len()));
    assert forall|j: int| 0 <= j <= t2.len() && f(t2.take(j)) is Asks implies wanted(
        p(#[trigger] t.take(t.len() - t2.len() + j)),
    ) == wanted(f(t2.take(j))) by {
        let j1 = t1.len() - t2.len() + j;
        assert(q1(t.take(t.len() - t1.len() + j1)) == Course::Ends(q1(t)->Ends_0, t1.take(j1)));
        assert(q2(t1.take(t1.len() - t2.len() + j)) == Course::Ends(q2(t1)->Ends_0, t2.take(j)));
        assert(
            step2(
                p,
                q1,
                q2,
                f,
                q1(t)->Ends_0,
                q2(t1)->Ends_0,
                t.take(t.len() - t2.len() + j),
                t1.take(j1),
                t2.take(j),
            )
        );
    }
    lemma_met_later(p, t, f, t2);
}

/// Behind three procedures with these results, `p` is at `f`.
pub open spec fn step3<Q1, Q2, Q3, P, F>(
    p: spec_fn(Seq<ReplyView>) -> Course<P>,
    q1: spec_fn(Seq<ReplyView>) -> Course<Q1>,
    q2: spec_fn(Seq<ReplyView>) -> Course<Q2>,
    q3: spec_fn(Seq<ReplyView>) -> Course<Q3>,
    f: spec_fn(Seq<ReplyView>) -> Course<F>,
    v1: Q1,
    v2: Q2,
    v3: Q3,
    x: Seq<ReplyView>,
    r1: Seq<ReplyView>,
    r2: Seq<ReplyView>,
    r3: Seq<ReplyView>,
) -> bool {
    q1(x) == Course::Ends(v1, r1) && q2(r1) == Course::Ends(v2, r2)
        && q3(r2) == Course::Ends(v3, r3) && f(r3) is Asks ==> wanted(p(x)) == wanted(f(r3))
}

/// A procedure that runs three procedures first leads to what comes behind.
pub proof fn lemma_behind3<Q1, Q2, Q3, P, F>(
    p: spec_fn(Seq<ReplyView>) -> Course<P>,
    q1: spec_fn(Seq<ReplyView>) -> Course<Q1>,
    q2: spec_fn(Seq<ReplyView>) -> Course<Q2>,
    q3: spec_fn(Seq<ReplyView>) -> Course<Q3>,
    f: spec_fn(Seq<ReplyView>) -> Course<F>,
    t: Seq<ReplyView>,
    t1: Seq<ReplyView>,
    t2: Seq<ReplyView>,
    t3: Seq<ReplyView>,
)
    requires
        cuts(q1, t, t1),
        cuts(q2, t1, t2),
        cuts(q3, t2, t3),
        forall|
            x: Seq<ReplyView>,
            r1: Seq<ReplyView>,
            r2: Seq<ReplyView>,
            r3: Seq<ReplyView>,
        | #[trigger]
            step3(p, q1, q2, q3, f, q1(t)->Ends_0, q2(t1)->Ends_0, q3(t2)->Ends_0, x, r1, r2, r3),
    ensures
        leads(p, t, f, t3),
        carries(p, t, f, t3),
{
    assert(t3 =~= t.skip(t.len() - t3.len()));
    assert forall|j: int| 0 <= j <= t3.len() && f(t3.take(j)) is Asks implies wanted(
        p(#[trigger] t.take(t.len() - t3.len() + j)),
    ) == wanted(f(t3.take(j))) by {
        let j2 = t2.len() - t3.len() + j;
        let j1 = t1.len() - t2.len() + j2;
        assert(q1(t.take(t.len() - t1.len() + j1)) == Course::Ends(q1(t)->Ends_0, t1.take(j1)));
        assert(q2(t1.take(t1.len() - t2.len() + j2)) == Course::Ends(q2(t1)->Ends_0, t2.take(j2)));
        assert(q3(t2.take(t2.len() - t3.len() + j)) == Course::Ends(q3(t2)->Ends_0, t3.take(j)));
        assert(
            step3(
                p,
                q1,
                q2,
                q3,
                f,
                q1(t)->Ends_0,
                q2(t1)->Ends_0,
                q3(t2)->Ends_0,
                t.take(t.len() - t3.len() + j),
                t1.take(j1),
                t2.take(j2),
                t3.take(j),
            )
        );
    }
    lemma_met_later(p, t, f, t3);
}

/// Behind four procedures with these results, `p` is at `f`.
pub open spec fn step4<Q1, Q2, Q3, Q4, P, F>(
    p: spec_fn(Seq<ReplyView>) -> Course<P>,
    q1: spec_fn(Seq<ReplyView>) -> Course<Q1>,
    q2: spec_fn(Seq<ReplyView>) -> Course<Q2>,
    q3: spec_fn(Seq<ReplyView>) -> Course<Q3>,
    q4: spec_fn(Seq<ReplyView>) -> Course<Q4>,
    f: spec_fn(Seq<ReplyView>) -> Course<F>,
    v1: Q1,
    v2: Q2,
    v3: Q3,
    v4: Q4,
    x: Seq<ReplyView>,
    r1: Seq<ReplyView>,
    r2: Seq<ReplyView>,
    r3: Seq<ReplyView>,
    r4: Seq<ReplyView>,
) -> bool {
    q1(x) == Course::Ends(v1, r1) && q2(r1) == Course::Ends(v2, r2)
        && q3(r2) == Course::Ends(v3, r3) && q4(r3) == Course::Ends(v4, r4) && f(r4) is Asks
        ==> wanted(p(x)) == wanted(f(r4))
}

/// A procedure that runs four procedures first leads to what comes behind.
pub proof fn lemma_behind4<Q1, Q2, Q3, Q4, P, F>(
    p: spec_fn(Seq<ReplyView>) -> Course<P>,
    q1: spec_fn(Seq<ReplyView>) -> Course<Q1>,
    q2: spec_fn(Seq<ReplyView>) -> Course<Q2>,
    q3: spec_fn(Seq<ReplyView>) -> Course<Q3>,
    q4: spec_fn(Seq<ReplyView>) -> Course<Q4>,
    f: spec_fn(Seq<ReplyView>) -> Course<F>,
    t: Seq<ReplyView>,
    t1: Seq<ReplyView>,
    t2: Seq<ReplyView>,
    t3: Seq<ReplyView>,
    t4: Seq<ReplyView>,
)
    requires
        cuts(q1, t, t1),
        cuts(q2, t1, t2),
        cuts(q3, t2, t3),
        cuts(q4, t3, t4),
        forall|
            x: Seq<ReplyView>,
            r1: Seq<ReplyView>,
            r2: Seq<ReplyView>,
            r3: Seq<ReplyView>,
            r4: Seq<ReplyView>,
        | #[trigger]
            step4(
                p,
                q1,
                q2,
                q3,
                q4,
                f,
                q1(t)->Ends_0,
                q2(t1)->Ends_0,
                q3(t2)->Ends_0,
                q4(t3)->Ends_0,
                x,
                r1,
                r2,
                r3,
                r4,
            ),
    ensures
        leads(p, t, f, t4),
        carries(p, t, f, t4),
{
    assert(t4 =~= t.skip(t.len() - t4.len()));
    assert forall|j: int| 0 <= j <= t4.len() && f(t4.take(j)) is Asks implies wanted(
        p(#[trigger] t.take(t.len() - t4.len() + j)),
    ) == wanted(f(t4.take(j))) by {
        let j3 = t3.len() - t4.len() + j;
        let j2 = t2.len() - t3.len() + j3;
        let j1 = t1.len() - t2.len() + j2;
        assert(q1(t.take(t.len() - t1.len() + j1)) == Course::Ends(q1(t)->Ends_0, t1.take(j1)));
        assert(q2(t1.take(t1.len() - t2.len() + j2)) == Course::Ends(q2(t1)->Ends_0, t2.take(j2)));
        assert(q3(t2.take(t2.len() - t3.len() + j3)) == Course::Ends(q3(t2)->Ends_0, t3.take(j3)));
        assert(q4(t3.take(t3.len() - t4.len() + j)) == Course::Ends(q4(t3)->Ends_0, t4.take(j)));
        assert(
            step4(
                p,
                q1,
                q2,
                q3,
                q4,
                f,
                q1(t)->Ends_0,
                q2(t1)->Ends_0,
                q3(t2)->Ends_0,
                q4(t3)->Ends_0,
                t.take(t.len() - t4.len() + j),
                t1.take(j1),
                t2.take(j2),
                t3.take(j3),
                t4.take(j),
            )
        );
    }
    lemma_met_later(p, t, f, t4);
}

} // verus!
