//! What a snapshot is for: whatever fails, the rest of it is written.

use vstd::prelude::*;

use crate::agent_laws;
use crate::asking;
use crate::effect;
use crate::effect::{Course, EffectView, ReplyView};
use crate::front_laws;
use crate::number;
use crate::options::SnapshotOptionsView;
use crate::path;
use crate::snapshot;
use crate::snapshot::ProbeView;
use crate::text;
use crate::wording;

verus! {

/// The snapshot was written into a file, and that went well.
pub open spec fn snapshot_kept(
    out: Seq<char>,
    label: Seq<char>,
    stamp: u64,
    body: Seq<char>,
) -> spec_fn(
    EffectView,
    ReplyView,
) -> bool {
    |e: EffectView, r: ReplyView|
        e == EffectView::WriteFile(
            path::given_path(out).inside(
                number::dec(stamp as nat) + "-"@ + wording::slug_text(label) + ".txt"@,
            ),
            body,
        ) && (r matches ReplyView::Done(done) && done is Ok)
}

/// A command was run.
pub open spec fn ran(program: Seq<char>, arguments: Seq<Seq<char>>) -> spec_fn(
    EffectView,
    ReplyView,
) -> bool {
    |e: EffectView, r: ReplyView| e == (EffectView::Run { program, arguments })
}

// ---------------------------------------------------------------------------
// Probes.
// ---------------------------------------------------------------------------
proof fn lemma_probes_go_on_step(
    probes: Seq<ProbeView>,
    body: Seq<char>,
    longer: Seq<char>,
    x: Seq<ReplyView>,
    r1: Seq<ReplyView>,
)
    requires
        probes.len() > 0,
        snapshot::captured(
            probes[0].program,
            probes[0].arguments,
            body,
            x,
        ) matches Course::Ends(v, rest)
            && v == longer && rest == r1,
    ensures
        snapshot::probed(probes.skip(1), longer, r1) is Asks
            ==> asking::wanted(snapshot::probed(probes, body, x)) == asking::wanted(
                snapshot::probed(probes.skip(1), longer, r1),
            ),
{
}

proof fn lemma_probes_go_on(
    probes: Seq<ProbeView>,
    body: Seq<char>,
    longer: Seq<char>,
    t: Seq<ReplyView>,
    t1: Seq<ReplyView>,
)
    requires
        probes.len() > 0,
        snapshot::captured(
            probes[0].program,
            probes[0].arguments,
            body,
            t,
        ) matches Course::Ends(v, rest)
            && v == longer && rest == t1,
    ensures
        asking::leads(
            |s: Seq<ReplyView>| snapshot::probed(probes, body, s),
            t,
            |s: Seq<ReplyView>| snapshot::probed(probes.skip(1), longer, s),
            t1,
        ),
        asking::carries(
            |s: Seq<ReplyView>| snapshot::probed(probes, body, s),
            t,
            |s: Seq<ReplyView>| snapshot::probed(probes.skip(1), longer, s),
            t1,
        ),
{
    let p = |s: Seq<ReplyView>| snapshot::probed(probes, body, s);
    let f = |s: Seq<ReplyView>| snapshot::probed(probes.skip(1), longer, s);
    let q1 = |s: Seq<ReplyView>| snapshot::captured(
        probes[0].program,
        probes[0].arguments,
        body,
        s,
    );
    assert(asking::cuts(q1, t, t1)) by {
        front_laws::captured_shrinks(probes[0].program, probes[0].arguments, body, t);
        front_laws::captured_cut(probes[0].program, probes[0].arguments, body, t, 0);
        assert forall|j: int| 0 <= j <= t1.len() implies q1(
            #[trigger] t.take(t.len() - t1.len() + j),
        ) == Course::Ends(q1(t)->Ends_0, t1.take(j)) by {
            front_laws::captured_cut(probes[0].program, probes[0].arguments, body, t, j);
        }
    }
    assert forall|x: Seq<ReplyView>, r1: Seq<ReplyView>| #[trigger]
        asking::step1(p, q1, f, q1(t)->Ends_0, x, r1) by {
        if q1(x) == Course::Ends(q1(t)->Ends_0, r1) {
            lemma_probes_go_on_step(probes, body, longer, x, r1);
        }
    }
    asking::lemma_behind1(p, q1, f, t, t1);
}

/// Each probe is run, whatever becomes of the others, and what is written only
/// grows.
pub proof fn each_probe_is_run(probes: Seq<ProbeView>, body: Seq<char>, i: int, t: Seq<ReplyView>)
    requires
        0 <= i < probes.len(),
        snapshot::probed(probes, body, t) is Ends,
    ensures
        asking::met(
            |s: Seq<ReplyView>| snapshot::probed(probes, body, s),
            t,
            ran(probes[i].program, probes[i].arguments),
        ),
        agent_laws::within(body, snapshot::probed(probes, body, t)->Ends_0),
    decreases probes.len(),
{
    let p = |s: Seq<ReplyView>| snapshot::probed(probes, body, s);
    let whole = snapshot::probed(probes, body, t)->Ends_0;
    let first = probes[0];
    let longer = body + snapshot::capture_text(
        first.program,
        first.arguments,
        effect::as_ran(t[0]),
    );
    let t1 = t.skip(1);
    assert(snapshot::captured(first.program, first.arguments, body, t) == Course::Ends(longer, t1));
    lemma_probes_go_on(probes, body, longer, t, t1);
    if i == 0 {
        let good = ran(first.program, first.arguments);
        assert(t.take(0).len() == 0);
        assert(asking::meets(p, t, good, 0));
    } else {
        assert(probes.skip(1)[i - 1] == probes[i]);
    }
    lemma_within_longer(body, longer);
    if probes.len() > 1 {
        each_probe_is_run(
            probes.skip(1),
            longer,
            if i == 0 {
                0
            } else {
                i - 1
            },
            t1,
        );
        lemma_within_again(body, longer, whole);
    } else {
        assert(whole == longer);
    }
}

proof fn lemma_within_longer(body: Seq<char>, longer: Seq<char>)
    requires
        body.is_prefix_of(longer),
    ensures
        agent_laws::within(body, longer),
{
    let e = Seq::<char>::empty();
    assert(longer =~= e + body + longer.skip(body.len() as int));
}

proof fn lemma_within_again(part: Seq<char>, middle: Seq<char>, whole: Seq<char>)
    requires
        agent_laws::within(part, middle),
        agent_laws::within(middle, whole),
    ensures
        agent_laws::within(part, whole),
{
    let (a, b) = choose|a: Seq<char>, b: Seq<char>| middle == #[trigger] (a + part + b);
    let (c, d) = choose|a: Seq<char>, b: Seq<char>| whole == #[trigger] (a + middle + b);
    assert(whole =~= (c + a) + part + (b + d));
}

// ---------------------------------------------------------------------------
// The whole.
// ---------------------------------------------------------------------------
proof fn lemma_gathering_probes_step(
    label: Seq<char>,
    stamp: u64,
    b1: Seq<char>,
    b2: Seq<char>,
    x: Seq<ReplyView>,
    r1: Seq<ReplyView>,
    r2: Seq<ReplyView>,
)
    requires
        snapshot::list_added(snapshot::snapshot_head(label, stamp), x) matches Course::Ends(v, rest)
            && v == b1 && rest == r1,
        snapshot::preferences_added(b1, r1) matches Course::Ends(v, rest) && v == b2 && rest == r2,
    ensures
        snapshot::probed(snapshot::all_probes(), b2, r2) is Asks
            ==> asking::wanted(snapshot::snapshot_gathered(label, stamp, x)) == asking::wanted(
                snapshot::probed(snapshot::all_probes(), b2, r2),
            ),
{
}

proof fn lemma_gathering_probes(
    label: Seq<char>,
    stamp: u64,
    b1: Seq<char>,
    b2: Seq<char>,
    t: Seq<ReplyView>,
    t1: Seq<ReplyView>,
    t2: Seq<ReplyView>,
)
    requires
        snapshot::list_added(snapshot::snapshot_head(label, stamp), t) matches Course::Ends(v, rest)
            && v == b1 && rest == t1,
        snapshot::preferences_added(b1, t1) matches Course::Ends(v, rest) && v == b2 && rest == t2,
    ensures
        asking::leads(
            |s: Seq<ReplyView>| snapshot::snapshot_gathered(label, stamp, s),
            t,
            |s: Seq<ReplyView>| snapshot::probed(snapshot::all_probes(), b2, s),
            t2,
        ),
        asking::carries(
            |s: Seq<ReplyView>| snapshot::snapshot_gathered(label, stamp, s),
            t,
            |s: Seq<ReplyView>| snapshot::probed(snapshot::all_probes(), b2, s),
            t2,
        ),
{
    let p = |s: Seq<ReplyView>| snapshot::snapshot_gathered(label, stamp, s);
    let f = |s: Seq<ReplyView>| snapshot::probed(snapshot::all_probes(), b2, s);
    let q1 = |s: Seq<ReplyView>| snapshot::list_added(snapshot::snapshot_head(label, stamp), s);
    let q2 = |s: Seq<ReplyView>| snapshot::preferences_added(b1, s);
    assert(asking::cuts(q1, t, t1)) by {
        front_laws::list_added_shrinks(snapshot::snapshot_head(label, stamp), t);
        front_laws::list_added_cut(snapshot::snapshot_head(label, stamp), t, 0);
        assert forall|j: int| 0 <= j <= t1.len() implies q1(
            #[trigger] t.take(t.len() - t1.len() + j),
        ) == Course::Ends(q1(t)->Ends_0, t1.take(j)) by {
            front_laws::list_added_cut(snapshot::snapshot_head(label, stamp), t, j);
        }
    }
    assert(asking::cuts(q2, t1, t2)) by {
        front_laws::preferences_added_shrinks(b1, t1);
        front_laws::preferences_added_cut(b1, t1, 0);
        assert forall|j: int| 0 <= j <= t2.len() implies q2(
            #[trigger] t1.take(t1.len() - t2.len() + j),
        ) == Course::Ends(q2(t1)->Ends_0, t2.take(j)) by {
            front_laws::preferences_added_cut(b1, t1, j);
        }
    }
    assert forall|x: Seq<ReplyView>, r1: Seq<ReplyView>, r2: Seq<ReplyView>| #[trigger]
        asking::step2(p, q1, q2, f, q1(t)->Ends_0, q2(t1)->Ends_0, x, r1, r2) by {
        if q1(x) == Course::Ends(q1(t)->Ends_0, r1) && q2(r1) == Course::Ends(q2(t1)->Ends_0, r2) {
            lemma_gathering_probes_step(label, stamp, b1, b2, x, r1, r2);
        }
    }
    asking::lemma_behind2(p, q1, q2, f, t, t1, t2);
}

proof fn lemma_taking_gathers_step(
    o: SnapshotOptionsView,
    stamp: u64,
    x: Seq<ReplyView>,
    r1: Seq<ReplyView>,
    r2: Seq<ReplyView>,
)
    requires
        effect::asks_done(
            EffectView::CreateDir(path::given_path(o.out)),
            x,
        ) matches Course::Ends(v, rest)
            && v is Ok && rest == r1,
        effect::asks_stamp(EffectView::Timestamp, r1) matches Course::Ends(v, rest)
            && v == Ok::<u64, Seq<char>>(stamp) && rest == r2,
    ensures
        snapshot::snapshot_gathered(o.label, stamp, r2) is Asks
            ==> asking::wanted(snapshot::snapshot_taken(o, x)) == asking::wanted(
                snapshot::snapshot_gathered(o.label, stamp, r2),
            ),
{
}

proof fn lemma_taking_gathers(
    o: SnapshotOptionsView,
    stamp: u64,
    t: Seq<ReplyView>,
    t1: Seq<ReplyView>,
    t2: Seq<ReplyView>,
)
    requires
        effect::asks_done(
            EffectView::CreateDir(path::given_path(o.out)),
            t,
        ) matches Course::Ends(v, rest)
            && v is Ok && rest == t1,
        effect::asks_stamp(EffectView::Timestamp, t1) matches Course::Ends(v, rest)
            && v == Ok::<u64, Seq<char>>(stamp) && rest == t2,
    ensures
        asking::leads(
            |s: Seq<ReplyView>| snapshot::snapshot_taken(o, s),
            t,
            |s: Seq<ReplyView>| snapshot::snapshot_gathered(o.label, stamp, s),
            t2,
        ),
        asking::carries(
            |s: Seq<ReplyView>| snapshot::snapshot_taken(o, s),
            t,
            |s: Seq<ReplyView>| snapshot::snapshot_gathered(o.label, stamp, s),
            t2,
        ),
{
    let p = |s: Seq<ReplyView>| snapshot::snapshot_taken(o, s);
    let f = |s: Seq<ReplyView>| snapshot::snapshot_gathered(o.label, stamp, s);
    let q1 = |s: Seq<ReplyView>| effect::asks_done(
        EffectView::CreateDir(path::given_path(o.out)),
        s,
    );
    let q2 = |s: Seq<ReplyView>| effect::asks_stamp(EffectView::Timestamp, s);
    assert(asking::cuts(q1, t, t1)) by {
        front_laws::asks_done_shrinks(EffectView::CreateDir(path::given_path(o.out)), t);
        front_laws::asks_done_cut(EffectView::CreateDir(path::given_path(o.out)), t, 0);
        assert forall|j: int| 0 <= j <= t1.len() implies q1(
            #[trigger] t.take(t.len() - t1.len() + j),
        ) == Course::Ends(q1(t)->Ends_0, t1.take(j)) by {
            front_laws::asks_done_cut(EffectView::CreateDir(path::given_path(o.out)), t, j);
        }
    }
    assert(asking::cuts(q2, t1, t2)) by {
        front_laws::asks_stamp_shrinks(EffectView::Timestamp, t1);
        front_laws::asks_stamp_cut(EffectView::Timestamp, t1, 0);
        assert forall|j: int| 0 <= j <= t2.len() implies q2(
            #[trigger] t1.take(t1.len() - t2.len() + j),
        ) == Course::Ends(q2(t1)->Ends_0, t2.take(j)) by {
            front_laws::asks_stamp_cut(EffectView::Timestamp, t1, j);
        }
    }
    assert forall|x: Seq<ReplyView>, r1: Seq<ReplyView>, r2: Seq<ReplyView>| #[trigger]
        asking::step2(p, q1, q2, f, q1(t)->Ends_0, q2(t1)->Ends_0, x, r1, r2) by {
        if q1(x) == Course::Ends(q1(t)->Ends_0, r1) && q2(r1) == Course::Ends(q2(t1)->Ends_0, r2) {
            lemma_taking_gathers_step(o, stamp, x, r1, r2);
        }
    }
    asking::lemma_behind2(p, q1, q2, f, t, t1, t2);
}

proof fn lemma_taking_writes_step(
    o: SnapshotOptionsView,
    stamp: u64,
    body: Seq<char>,
    x: Seq<ReplyView>,
    r1: Seq<ReplyView>,
    r2: Seq<ReplyView>,
    r3: Seq<ReplyView>,
)
    requires
        effect::asks_done(
            EffectView::CreateDir(path::given_path(o.out)),
            x,
        ) matches Course::Ends(v, rest)
            && v is Ok && rest == r1,
        effect::asks_stamp(EffectView::Timestamp, r1) matches Course::Ends(v, rest)
            && v == Ok::<u64, Seq<char>>(stamp) && rest == r2,
        snapshot::snapshot_gathered(o.label, stamp, r2) matches Course::Ends(v, rest) && v == body
            && rest == r3,
    ensures
        effect::asks_done(
            EffectView::WriteFile(
                path::given_path(o.out).inside(snapshot::snapshot_name(o.label, stamp)),
                body,
            ),
            r3,
        ) is Asks
            ==> asking::wanted(snapshot::snapshot_taken(o, x)) == asking::wanted(
                effect::asks_done(
                    EffectView::WriteFile(
                        path::given_path(o.out).inside(snapshot::snapshot_name(o.label, stamp)),
                        body,
                    ),
                    r3,
                ),
            ),
{
}

proof fn lemma_taking_writes(
    o: SnapshotOptionsView,
    stamp: u64,
    body: Seq<char>,
    t: Seq<ReplyView>,
    t1: Seq<ReplyView>,
    t2: Seq<ReplyView>,
    t3: Seq<ReplyView>,
)
    requires
        effect::asks_done(
            EffectView::CreateDir(path::given_path(o.out)),
            t,
        ) matches Course::Ends(v, rest)
            && v is Ok && rest == t1,
        effect::asks_stamp(EffectView::Timestamp, t1) matches Course::Ends(v, rest)
            && v == Ok::<u64, Seq<char>>(stamp) && rest == t2,
        snapshot::snapshot_gathered(o.label, stamp, t2) matches Course::Ends(v, rest) && v == body
            && rest == t3,
    ensures
        asking::leads(
            |s: Seq<ReplyView>| snapshot::snapshot_taken(o, s),
            t,
            |s: Seq<ReplyView>| effect::asks_done(
                EffectView::WriteFile(
                    path::given_path(o.out).inside(snapshot::snapshot_name(o.label, stamp)),
                    body,
                ),
                s,
            ),
            t3,
        ),
        asking::carries(
            |s: Seq<ReplyView>| snapshot::snapshot_taken(o, s),
            t,
            |s: Seq<ReplyView>| effect::asks_done(
                EffectView::WriteFile(
                    path::given_path(o.out).inside(snapshot::snapshot_name(o.label, stamp)),
                    body,
                ),
                s,
            ),
            t3,
        ),
{
    let p = |s: Seq<ReplyView>| snapshot::snapshot_taken(o, s);
    let f = |s: Seq<ReplyView>| effect::asks_done(
        EffectView::WriteFile(
            path::given_path(o.out).inside(snapshot::snapshot_name(o.label, stamp)),
            body,
        ),
        s,
    );
    let q1 = |s: Seq<ReplyView>| effect::asks_done(
        EffectView::CreateDir(path::given_path(o.out)),
        s,
    );
    let q2 = |s: Seq<ReplyView>| effect::asks_stamp(EffectView::Timestamp, s);
    let q3 = |s: Seq<ReplyView>| snapshot::snapshot_gathered(o.label, stamp, s);
    assert(asking::cuts(q1, t, t1)) by {
        front_laws::asks_done_shrinks(EffectView::CreateDir(path::given_path(o.out)), t);
        front_laws::asks_done_cut(EffectView::CreateDir(path::given_path(o.out)), t, 0);
        assert forall|j: int| 0 <= j <= t1.len() implies q1(
            #[trigger] t.take(t.len() - t1.len() + j),
        ) == Course::Ends(q1(t)->Ends_0, t1.take(j)) by {
            front_laws::asks_done_cut(EffectView::CreateDir(path::given_path(o.out)), t, j);
        }
    }
    assert(asking::cuts(q2, t1, t2)) by {
        front_laws::asks_stamp_shrinks(EffectView::Timestamp, t1);
        front_laws::asks_stamp_cut(EffectView::Timestamp, t1, 0);
        assert forall|j: int| 0 <= j <= t2.len() implies q2(
            #[trigger] t1.take(t1.len() - t2.len() + j),
        ) == Course::Ends(q2(t1)->Ends_0, t2.take(j)) by {
            front_laws::asks_stamp_cut(EffectView::Timestamp, t1, j);
        }
    }
    assert(asking::cuts(q3, t2, t3)) by {
        front_laws::snapshot_gathered_shrinks(o.label, stamp, t2);
        front_laws::snapshot_gathered_cut(o.label, stamp, t2, 0);
        assert forall|j: int| 0 <= j <= t3.len() implies q3(
            #[trigger] t2.take(t2.len() - t3.len() + j),
        ) == Course::Ends(q3(t2)->Ends_0, t3.take(j)) by {
            front_laws::snapshot_gathered_cut(o.label, stamp, t2, j);
        }
    }
    assert forall|
        x: Seq<ReplyView>,
        r1: Seq<ReplyView>,
        r2: Seq<ReplyView>,
        r3: Seq<ReplyView>,
    | #[trigger]
        asking::step3(
            p,
            q1,
            q2,
            q3,
            f,
            q1(t)->Ends_0,
            q2(t1)->Ends_0,
            q3(t2)->Ends_0,
            x,
            r1,
            r2,
            r3,
        ) by {
        if q1(x) == Course::Ends(q1(t)->Ends_0, r1) && q2(r1) == Course::Ends(q2(t1)->Ends_0, r2)
            && q3(r2) == Course::Ends(q3(t2)->Ends_0, r3) {
            lemma_taking_writes_step(o, stamp, body, x, r1, r2, r3);
        }
    }
    asking::lemma_behind3(p, q1, q2, q3, f, t, t1, t2, t3);
}

/// A snapshot ends well only where it was written into a file of the directory that
/// was asked for, under a name made of the time and the label. On the way each of
/// the probes was run. The result is what was written.
pub proof fn snapshot_is_written(o: SnapshotOptionsView, t: Seq<ReplyView>) -> (found: (
    u64,
    Seq<char>,
))
    requires
        snapshot::snapshot_taken(o, t) matches Course::Ends(r, _) && r is Ok,
    ensures
        ({
            let p = |s: Seq<ReplyView>| snapshot::snapshot_taken(o, s);
            &&& t[1] == ReplyView::Stamp(Ok(found.0))
            &&& asking::met(p, t, snapshot_kept(o.out, o.label, found.0, found.1))
            &&& forall|i: int|
                0 <= i < 6 ==> asking::met(
                    p,
                    t,
                    ran(
                        (#[trigger] snapshot::all_probes()[i]).program,
                        snapshot::all_probes()[i].arguments,
                    ),
                )
        }),
{
    let p = |s: Seq<ReplyView>| snapshot::snapshot_taken(o, s);
    let dir = path::given_path(o.out);
    let t1 = t.skip(1);
    let t2 = t1.skip(1);
    assert(t1[0] == t[1]);
    let stamp = effect::as_stamp(t1[0])->Ok_0;
    let body = snapshot::snapshot_gathered(o.label, stamp, t2)->Ends_0;
    let t3 = snapshot::snapshot_gathered(o.label, stamp, t2)->Ends_1;
    lemma_taking_writes(o, stamp, body, t, t1, t2, t3);
    let f = |s: Seq<ReplyView>|
        effect::asks_done(
            EffectView::WriteFile(dir.inside(snapshot::snapshot_name(o.label, stamp)), body),
            s,
        );
    let good = snapshot_kept(o.out, o.label, stamp, body);
    assert(t3.take(0).len() == 0);
    assert(asking::meets(f, t3, good, 0));
    assert(asking::met(f, t3, good));
    lemma_taking_gathers(o, stamp, t, t1, t2);
    lemma_gathered(o.label, stamp, t2);
    (stamp, body)
}

/// What a snapshot gathers from the system: the displays and their graphics, what
/// keeps the machine awake, and what the registry holds of displays and their light.
pub proof fn snapshot_asks_the_system(o: SnapshotOptionsView, t: Seq<ReplyView>)
    requires
        snapshot::snapshot_taken(o, t) matches Course::Ends(r, _) && r is Ok,
    ensures
        ({
            let p = |s: Seq<ReplyView>| snapshot::snapshot_taken(o, s);
            &&& asking::met(p, t, ran("system_profiler"@, seq!["SPDisplaysDataType"@]))
            &&& asking::met(p, t, ran("pmset"@, seq!["-g"@, "assertions"@]))
            &&& asking::met(p, t, registry_read("AppleBacklightDisplay"@))
            &&& asking::met(p, t, registry_read("IODisplayConnect"@))
            &&& asking::met(p, t, registry_read("IODisplay"@))
            &&& asking::met(p, t, registry_read("IOFramebuffer"@))
        }),
{
    let found = snapshot_is_written(o, t);
    let p = |s: Seq<ReplyView>| snapshot::snapshot_taken(o, s);
    assert(forall|i: int|
        0 <= i < 6 ==> asking::met(
            p,
            t,
            ran(
                (#[trigger] snapshot::all_probes()[i]).program,
                snapshot::all_probes()[i].arguments,
            ),
        ));
    lemma_each_probe(p, t);
}

proof fn lemma_probes()
    ensures
        ({
            let probes = snapshot::all_probes();
            &&& probes[0] == (ProbeView {
                program: "system_profiler"@,
                arguments: seq!["SPDisplaysDataType"@],
            })
            &&& probes[1] == (ProbeView {
                program: "pmset"@,
                arguments: seq!["-g"@, "assertions"@],
            })
            &&& probes[2] == registry_probe("AppleBacklightDisplay"@)
            &&& probes[3] == registry_probe("IODisplayConnect"@)
            &&& probes[4] == registry_probe("IODisplay"@)
            &&& probes[5] == registry_probe("IOFramebuffer"@)
        }),
{
}

/// The probe of the registry for a class.
pub open spec fn registry_probe(class: Seq<char>) -> ProbeView {
    ProbeView { program: "ioreg"@, arguments: seq!["-lw0"@, "-r"@, "-c"@, class] }
}

proof fn lemma_each_probe<T>(p: spec_fn(Seq<ReplyView>) -> Course<T>, t: Seq<ReplyView>)
    requires
        forall|i: int|
            0 <= i < 6 ==> asking::met(
                p,
                t,
                ran(
                    (#[trigger] snapshot::all_probes()[i]).program,
                    snapshot::all_probes()[i].arguments,
                ),
            ),
    ensures
        asking::met(p, t, ran("system_profiler"@, seq!["SPDisplaysDataType"@])),
        asking::met(p, t, ran("pmset"@, seq!["-g"@, "assertions"@])),
        asking::met(p, t, registry_read("AppleBacklightDisplay"@)),
        asking::met(p, t, registry_read("IODisplayConnect"@)),
        asking::met(p, t, registry_read("IODisplay"@)),
        asking::met(p, t, registry_read("IOFramebuffer"@)),
{
    lemma_probes();
    let probes = snapshot::all_probes();
    assert(probes[0].program == "system_profiler"@);
    assert(probes[1].program == "pmset"@);
    assert(probes[2].program == "ioreg"@);
    assert(probes[3].program == "ioreg"@);
    assert(probes[4].program == "ioreg"@);
    assert(probes[5].program == "ioreg"@);
}

/// The registry of the system was read for a class.
pub open spec fn registry_read(class: Seq<char>) -> spec_fn(EffectView, ReplyView) -> bool {
    ran("ioreg"@, seq!["-lw0"@, "-r"@, "-c"@, class])
}

proof fn lemma_gathered(label: Seq<char>, stamp: u64, t: Seq<ReplyView>)
    requires
        snapshot::snapshot_gathered(label, stamp, t) is Ends,
    ensures
        forall|i: int|
            0 <= i < 6 ==> asking::met(
                |s: Seq<ReplyView>| snapshot::snapshot_gathered(label, stamp, s),
                t,
                ran(
                    (#[trigger] snapshot::all_probes()[i]).program,
                    snapshot::all_probes()[i].arguments,
                ),
            ),
{
    let head = snapshot::snapshot_head(label, stamp);
    let b1 = snapshot::list_added(head, t)->Ends_0;
    let t1 = snapshot::list_added(head, t)->Ends_1;
    let b2 = snapshot::preferences_added(b1, t1)->Ends_0;
    let t2 = snapshot::preferences_added(b1, t1)->Ends_1;
    let probes = snapshot::all_probes();
    lemma_gathering_probes(label, stamp, b1, b2, t, t1, t2);
    assert forall|i: int| 0 <= i < 6 implies asking::met(
        |s: Seq<ReplyView>| snapshot::snapshot_gathered(label, stamp, s),
        t,
        ran((#[trigger] probes[i]).program, probes[i].arguments),
    ) by {
        each_probe_is_run(probes, b2, i, t2);
    }
}

/// A snapshot does not fail because a command does: what failed is noted in it.
pub proof fn failures_are_noted(program: Seq<char>, arguments: Seq<Seq<char>>, body: Seq<char>, t: Seq<
    ReplyView,
>)
    requires
        t.len() > 0,
    ensures
        snapshot::captured(program, arguments, body, t) matches Course::Ends(longer, rest) && rest
            == t.skip(1) && body.is_prefix_of(longer) && (match t[0] {
            ReplyView::Ran(Ok(capture)) => agent_laws::within(capture.stdout, longer)
                && agent_laws::within(capture.stderr, longer),
            ReplyView::Ran(Err(error)) => agent_laws::within(error.text, longer),
            _ => true,
        }),
{
    let r = effect::as_ran(t[0]);
    let longer = body + snapshot::capture_text(program, arguments, r);
    assert(body =~= longer.subrange(0, body.len() as int));
    let head = body + ("\n## command: "@ + program + " "@ + text::joined(arguments, " "@) + "\n"@);
    let e = Seq::<char>::empty();
    match t[0] {
        ReplyView::Ran(Ok(capture)) => {
            let so = snapshot::stream_text("stdout:\n"@, capture.stdout);
            let se = snapshot::stream_text("stderr:\n"@, capture.stderr);
            let first = head + ("status: "@ + capture.status + "\n\n"@);
            assert(longer =~= first + so + se);
            lemma_stream("stdout:\n"@, capture.stdout);
            lemma_stream("stderr:\n"@, capture.stderr);
            assert(longer =~= (first + so) + se + e);
            lemma_within_again(capture.stdout, so, longer);
            lemma_within_again(capture.stderr, se, longer);
        },
        ReplyView::Ran(Err(error)) => {
            assert(longer =~= (head + "failed: "@) + error.text + "\n"@);
        },
        _ => {},
    }
}

proof fn lemma_stream(name: Seq<char>, body: Seq<char>)
    ensures
        agent_laws::within(body, snapshot::stream_text(name, body)),
{
    let e = Seq::<char>::empty();
    let all = snapshot::stream_text(name, body);
    if body.len() == 0 {
        assert(all =~= e + body + e);
    } else if body.last() == '\n' {
        assert(all =~= name + body + e);
    } else {
        assert(all =~= name + body + "\n"@);
    }
}

} // verus!
