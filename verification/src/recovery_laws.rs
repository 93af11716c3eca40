//! What a request to bring the panel back comes to, from the redetection on.

use vstd::prelude::*;

use crate::asking;
use crate::commands;
use crate::effect;
use crate::effect::{Course, EffectView, ReplyView};
use crate::front_laws;
use crate::native;
use crate::native_laws;
use crate::placer::CaptureView;
use crate::policy::{ActionMode, ClamshellState};
use crate::policy_laws;
use crate::restore;
use crate::restore_laws;

verus! {

// ---------------------------------------------------------------------------
// What is met on the way.
// ---------------------------------------------------------------------------
/// The displays were detected anew.
pub open spec fn detection() -> spec_fn(EffectView, ReplyView) -> bool {
    |e: EffectView, r: ReplyView| e == EffectView::Detect
}

/// The displays were to be detected anew, in vain.
pub open spec fn detection_failed() -> spec_fn(EffectView, ReplyView) -> bool {
    |e: EffectView, r: ReplyView|
        e == EffectView::Detect && !(r matches ReplyView::Done(done) && done is Ok)
}

/// A text that says that the lid is closed.
pub open spec fn says_closed(body: Seq<char>) -> bool {
    exists|a: Seq<char>, b: Seq<char>|
        body == #[trigger] (a + "\"AppleClamshellState\" = Yes"@ + b)
}

/// The output of a command was collected, and says that the lid is closed.
pub open spec fn lid_closed() -> spec_fn(EffectView, ReplyView) -> bool {
    |e: EffectView, r: ReplyView|
        e == EffectView::Collect && (r matches ReplyView::Ran(Ok(capture)) && says_closed(
            capture.stdout,
        ))
}

/// The panel was active, or a configuration was begun to switch it on, or the state
/// file was of no use.
pub open spec fn lighting_tried<T>(
    p: spec_fn(Seq<ReplyView>) -> Course<T>,
    t: Seq<ReplyView>,
) -> bool {
    asking::met(p, t, native_laws::active()) || asking::met(p, t, restore_laws::begun())
        || asking::met(p, t, restore_laws::state_unreadable())
}

/// The displays were detected anew, and where that went well the panel was to be
/// lit.
pub open spec fn called_back<T>(
    p: spec_fn(Seq<ReplyView>) -> Course<T>,
    t: Seq<ReplyView>,
) -> bool {
    asking::met(p, t, detection()) && (asking::met(p, t, detection_failed()) || lighting_tried(
        p,
        t,
    ))
}

/// The lid is closed, or the displays were detected anew and the panel was to be
/// lit.
pub open spec fn kept_safe<T>(p: spec_fn(Seq<ReplyView>) -> Course<T>, t: Seq<ReplyView>) -> bool {
    asking::met(p, t, lid_closed()) || (asking::met(p, t, detection()) && lighting_tried(p, t))
}

/// The lid is closed, or the panel said that it is active.
pub open spec fn panel_safe<T>(p: spec_fn(Seq<ReplyView>) -> Course<T>, t: Seq<ReplyView>) -> bool {
    asking::met(p, t, lid_closed()) || asking::met(p, t, native_laws::active())
}

// ---------------------------------------------------------------------------
// A restore.
// ---------------------------------------------------------------------------
proof fn lemma_detected_asks_step(
    verbose: bool,
    x: Seq<ReplyView>,
    r1: Seq<ReplyView>,
)
    requires
        effect::said_if(verbose, "running: SLSDetectDisplays()"@, x) matches Course::Ends(v, rest)
            && rest == r1,
    ensures
        effect::asks_done(EffectView::Detect, r1) is Asks
            ==> asking::wanted(
                native::detected(ActionMode::Execute, verbose, x),
            ) == asking::wanted(effect::asks_done(EffectView::Detect, r1)),
{
}

proof fn lemma_detected_asks(
    verbose: bool,
    t: Seq<ReplyView>,
    t1: Seq<ReplyView>,
)
    requires
        effect::said_if(verbose, "running: SLSDetectDisplays()"@, t) matches Course::Ends(v, rest)
            && rest == t1,
    ensures
        asking::leads(
            |s: Seq<ReplyView>| native::detected(ActionMode::Execute, verbose, s),
            t,
            |s: Seq<ReplyView>| effect::asks_done(EffectView::Detect, s),
            t1,
        ),
        asking::carries(
            |s: Seq<ReplyView>| native::detected(ActionMode::Execute, verbose, s),
            t,
            |s: Seq<ReplyView>| effect::asks_done(EffectView::Detect, s),
            t1,
        ),
{
    let p = |s: Seq<ReplyView>| native::detected(ActionMode::Execute, verbose, s);
    let f = |s: Seq<ReplyView>| effect::asks_done(EffectView::Detect, s);
    let q1 = |s: Seq<ReplyView>| effect::said_if(verbose, "running: SLSDetectDisplays()"@, s);
    assert(asking::cuts(q1, t, t1)) by {
        front_laws::said_if_shrinks(verbose, "running: SLSDetectDisplays()"@, t);
        front_laws::said_if_cut(verbose, "running: SLSDetectDisplays()"@, t, 0);
        assert forall|j: int| 0 <= j <= t1.len() implies q1(
            #[trigger] t.take(t.len() - t1.len() + j),
        ) == Course::Ends(q1(t)->Ends_0, t1.take(j)) by {
            front_laws::said_if_cut(verbose, "running: SLSDetectDisplays()"@, t, j);
        }
    }
    assert forall|x: Seq<ReplyView>, r1: Seq<ReplyView>| #[trigger]
        asking::step1(p, q1, f, q1(t)->Ends_0, x, r1) by {
        if q1(x) == Course::Ends(q1(t)->Ends_0, r1) {
            lemma_detected_asks_step(verbose, x, r1);
        }
    }
    asking::lemma_behind1(p, q1, f, t, t1);
}

/// The displays are detected anew, and a failure is told just where there is one.
pub proof fn detecting_is_asked_for(verbose: bool, t: Seq<ReplyView>)
    requires
        native::detected(ActionMode::Execute, verbose, t) is Ends,
    ensures
        ({
            let p = |s: Seq<ReplyView>| native::detected(ActionMode::Execute, verbose, s);
            &&& asking::met(p, t, detection())
            &&& native::detected(ActionMode::Execute, verbose, t)->Ends_0 is Err ==> asking::met(
                p,
                t,
                detection_failed(),
            )
        }),
{
    if let Course::Ends(_, t1) = effect::said_if(verbose, "running: SLSDetectDisplays()"@, t) {
        lemma_detected_asks(verbose, t, t1);
        let f = |s: Seq<ReplyView>| effect::asks_done(EffectView::Detect, s);
        assert(t1.take(0).len() == 0);
        assert(asking::meets(f, t1, detection(), 0));
        assert(asking::met(f, t1, detection()));
        if effect::as_done(t1[0]) is Err {
            assert(asking::meets(f, t1, detection_failed(), 0));
            assert(asking::met(f, t1, detection_failed()));
        }
    }
}

proof fn lemma_restoring_detects(
    explicit: Option<u32>,
    fallback: bool,
    verbose: bool,
    attempts: u32,
    t: Seq<ReplyView>,
)
    ensures
        asking::leads(
            |s: Seq<ReplyView>| restore::internal_restored(
                explicit,
                ActionMode::Execute,
                fallback,
                verbose,
                attempts,
                s,
            ),
            t,
            |s: Seq<ReplyView>| native::detected(ActionMode::Execute, verbose, s),
            t,
        ),
        asking::carries(
            |s: Seq<ReplyView>| restore::internal_restored(
                explicit,
                ActionMode::Execute,
                fallback,
                verbose,
                attempts,
                s,
            ),
            t,
            |s: Seq<ReplyView>| native::detected(ActionMode::Execute, verbose, s),
            t,
        ),
{
    let p = |s: Seq<ReplyView>| restore::internal_restored(
        explicit,
        ActionMode::Execute,
        fallback,
        verbose,
        attempts,
        s,
    );
    let f = |s: Seq<ReplyView>| native::detected(ActionMode::Execute, verbose, s);
    assert(t =~= t.skip(t.len() - t.len()));
    assert forall|j: int| 0 <= j <= t.len() && f(t.take(j)) is Asks implies asking::wanted(
        p(#[trigger] t.take(t.len() - t.len() + j)),
    ) == asking::wanted(f(t.take(j))) by {}
    asking::lemma_met_later(p, t, f, t);
}

proof fn lemma_restoring_lights_step(
    explicit: Option<u32>,
    fallback: bool,
    verbose: bool,
    attempts: u32,
    x: Seq<ReplyView>,
    r1: Seq<ReplyView>,
)
    requires
        native::detected(ActionMode::Execute, verbose, x) matches Course::Ends(v, rest) && v is Ok
            && rest == r1,
    ensures
        restore::internal_enabled(explicit, attempts, ActionMode::Execute, verbose, r1) is Asks
            ==> asking::wanted(
                restore::internal_restored(
                    explicit,
                    ActionMode::Execute,
                    fallback,
                    verbose,
                    attempts,
                    x,
                ),
            ) == asking::wanted(restore::internal_enabled(
                explicit,
                attempts,
                ActionMode::Execute,
                verbose,
                r1,
            )),
{
}

proof fn lemma_restoring_lights(
    explicit: Option<u32>,
    fallback: bool,
    verbose: bool,
    attempts: u32,
    t: Seq<ReplyView>,
    t1: Seq<ReplyView>,
)
    requires
        native::detected(ActionMode::Execute, verbose, t) matches Course::Ends(v, rest) && v is Ok
            && rest == t1,
    ensures
        asking::leads(
            |s: Seq<ReplyView>| restore::internal_restored(
                explicit,
                ActionMode::Execute,
                fallback,
                verbose,
                attempts,
                s,
            ),
            t,
            |s: Seq<ReplyView>| restore::internal_enabled(
                explicit,
                attempts,
                ActionMode::Execute,
                verbose,
                s,
            ),
            t1,
        ),
        asking::carries(
            |s: Seq<ReplyView>| restore::internal_restored(
                explicit,
                ActionMode::Execute,
                fallback,
                verbose,
                attempts,
                s,
            ),
            t,
            |s: Seq<ReplyView>| restore::internal_enabled(
                explicit,
                attempts,
                ActionMode::Execute,
                verbose,
                s,
            ),
            t1,
        ),
{
    let p = |s: Seq<ReplyView>| restore::internal_restored(
        explicit,
        ActionMode::Execute,
        fallback,
        verbose,
        attempts,
        s,
    );
    let f = |s: Seq<ReplyView>| restore::internal_enabled(
        explicit,
        attempts,
        ActionMode::Execute,
        verbose,
        s,
    );
    let q1 = |s: Seq<ReplyView>| native::detected(ActionMode::Execute, verbose, s);
    assert(asking::cuts(q1, t, t1)) by {
        front_laws::detected_shrinks(ActionMode::Execute, verbose, t);
        front_laws::detected_cut(ActionMode::Execute, verbose, t, 0);
        assert forall|j: int| 0 <= j <= t1.len() implies q1(
            #[trigger] t.take(t.len() - t1.len() + j),
        ) == Course::Ends(q1(t)->Ends_0, t1.take(j)) by {
            front_laws::detected_cut(ActionMode::Execute, verbose, t, j);
        }
    }
    assert forall|x: Seq<ReplyView>, r1: Seq<ReplyView>| #[trigger]
        asking::step1(p, q1, f, q1(t)->Ends_0, x, r1) by {
        if q1(x) == Course::Ends(q1(t)->Ends_0, r1) {
            lemma_restoring_lights_step(explicit, fallback, verbose, attempts, x, r1);
        }
    }
    asking::lemma_behind1(p, q1, f, t, t1);
}

/// A restore detects the displays anew and then lights the panel. It ends well only
/// after the panel said that it is active.
pub proof fn restoring_calls_back(
    explicit: Option<u32>,
    fallback: bool,
    verbose: bool,
    attempts: u32,
    t: Seq<ReplyView>,
)
    requires
        restore::internal_restored(explicit, ActionMode::Execute, fallback, verbose, attempts, t)
            is Ends,
    ensures
        ({
            let p = |s: Seq<ReplyView>|
                restore::internal_restored(
                    explicit,
                    ActionMode::Execute,
                    fallback,
                    verbose,
                    attempts,
                    s,
                );
            &&& called_back(p, t)
            &&& restore::internal_restored(
                explicit,
                ActionMode::Execute,
                fallback,
                verbose,
                attempts,
                t,
            )->Ends_0 is Ok ==> asking::met(p, t, native_laws::active())
        }),
{
    lemma_restoring_detects(explicit, fallback, verbose, attempts, t);
    detecting_is_asked_for(verbose, t);
    if let Course::Ends(r, t1) = native::detected(ActionMode::Execute, verbose, t) {
        if r is Ok {
            lemma_restoring_lights(explicit, fallback, verbose, attempts, t, t1);
            restore_laws::lighting_does_what_it_can(explicit, attempts, verbose, t1);
        }
    }
}

// ---------------------------------------------------------------------------
// The safety restore.
// ---------------------------------------------------------------------------
proof fn lemma_lid_runs(
    verbose: bool,
    t: Seq<ReplyView>,
)
    ensures
        asking::leads(
            |s: Seq<ReplyView>| restore::lid_read(verbose, s),
            t,
            |s: Seq<ReplyView>| commands::timed_run(
                "ioreg"@,
                seq!["-r"@, "-k"@, "AppleClamshellState"@, "-d"@, "4"@],
                1000,
                s,
            ),
            t,
        ),
        asking::carries(
            |s: Seq<ReplyView>| restore::lid_read(verbose, s),
            t,
            |s: Seq<ReplyView>| commands::timed_run(
                "ioreg"@,
                seq!["-r"@, "-k"@, "AppleClamshellState"@, "-d"@, "4"@],
                1000,
                s,
            ),
            t,
        ),
{
    let p = |s: Seq<ReplyView>| restore::lid_read(verbose, s);
    let f = |s: Seq<ReplyView>| commands::timed_run(
        "ioreg"@,
        seq!["-r"@, "-k"@, "AppleClamshellState"@, "-d"@, "4"@],
        1000,
        s,
    );
    assert(t =~= t.skip(t.len() - t.len()));
    assert forall|j: int| 0 <= j <= t.len() && f(t.take(j)) is Asks implies asking::wanted(
        p(#[trigger] t.take(t.len() - t.len() + j)),
    ) == asking::wanted(f(t.take(j))) by {}
    asking::lemma_met_later(p, t, f, t);
}

proof fn lemma_collected_lid<T>(
    p: spec_fn(Seq<ReplyView>) -> Course<T>,
    t: Seq<ReplyView>,
    capture: CaptureView,
)
    requires
        asking::met(p, t, native_laws::collected(capture)),
        says_closed(capture.stdout),
    ensures
        asking::met(p, t, lid_closed()),
{
    let k = choose|k: int| asking::meets(p, t, native_laws::collected(capture), k);
    assert(asking::meets(p, t, lid_closed(), k));
}

/// The lid counts as closed only where a command was run and said so.
pub proof fn closed_is_what_was_said(verbose: bool, t: Seq<ReplyView>)
    requires
        restore::lid_read(verbose, t) matches Course::Ends(lid, _) && lid == ClamshellState::Closed,
    ensures
        asking::met(|s: Seq<ReplyView>| restore::lid_read(verbose, s), t, lid_closed()),
{
    let program = "ioreg"@;
    let arguments = seq!["-r"@, "-k"@, "AppleClamshellState"@, "-d"@, "4"@];
    lemma_lid_runs(verbose, t);
    if let Course::Ends(r, t1) = commands::timed_run(program, arguments, 1000, t) {
        if let Ok(capture) = r {
            native_laws::output_is_what_was_collected(program, arguments, 1000, t, capture);
            policy_laws::lid_is_told_by_the_report(capture.stdout);
            lemma_collected_lid(
                |s: Seq<ReplyView>| restore::lid_read(verbose, s),
                t,
                capture,
            );
        }
    }
}

proof fn lemma_trying_detects(
    verbose: bool,
    t: Seq<ReplyView>,
)
    ensures
        asking::leads(
            |s: Seq<ReplyView>| restore::detection_tried(ActionMode::Execute, verbose, s),
            t,
            |s: Seq<ReplyView>| native::detected(ActionMode::Execute, verbose, s),
            t,
        ),
        asking::carries(
            |s: Seq<ReplyView>| restore::detection_tried(ActionMode::Execute, verbose, s),
            t,
            |s: Seq<ReplyView>| native::detected(ActionMode::Execute, verbose, s),
            t,
        ),
{
    let p = |s: Seq<ReplyView>| restore::detection_tried(ActionMode::Execute, verbose, s);
    let f = |s: Seq<ReplyView>| native::detected(ActionMode::Execute, verbose, s);
    assert(t =~= t.skip(t.len() - t.len()));
    assert forall|j: int| 0 <= j <= t.len() && f(t.take(j)) is Asks implies asking::wanted(
        p(#[trigger] t.take(t.len() - t.len() + j)),
    ) == asking::wanted(f(t.take(j))) by {}
    asking::lemma_met_later(p, t, f, t);
}

proof fn lemma_safety_reads(
    verbose: bool,
    t: Seq<ReplyView>,
)
    ensures
        asking::leads(
            |s: Seq<ReplyView>| restore::safety_restored(ActionMode::Execute, verbose, s),
            t,
            |s: Seq<ReplyView>| restore::lid_read(verbose, s),
            t,
        ),
        asking::carries(
            |s: Seq<ReplyView>| restore::safety_restored(ActionMode::Execute, verbose, s),
            t,
            |s: Seq<ReplyView>| restore::lid_read(verbose, s),
            t,
        ),
{
    let p = |s: Seq<ReplyView>| restore::safety_restored(ActionMode::Execute, verbose, s);
    let f = |s: Seq<ReplyView>| restore::lid_read(verbose, s);
    assert(t =~= t.skip(t.len() - t.len()));
    assert forall|j: int| 0 <= j <= t.len() && f(t.take(j)) is Asks implies asking::wanted(
        p(#[trigger] t.take(t.len() - t.len() + j)),
    ) == asking::wanted(f(t.take(j))) by {}
    asking::lemma_met_later(p, t, f, t);
}

proof fn lemma_safety_detects_step(
    verbose: bool,
    x: Seq<ReplyView>,
    r1: Seq<ReplyView>,
    r2: Seq<ReplyView>,
)
    requires
        restore::lid_read(verbose, x) matches Course::Ends(v, rest) && v != ClamshellState::Closed
            && rest == r1,
        effect::said_if(
            verbose,
            "internal safety restore: redetect displays"@,
            r1,
        ) matches Course::Ends(v, rest)
            && rest == r2,
    ensures
        restore::detection_tried(ActionMode::Execute, verbose, r2) is Asks
            ==> asking::wanted(restore::safety_restored(ActionMode::Execute, verbose, x)) == asking::wanted(
                restore::detection_tried(ActionMode::Execute, verbose, r2),
            ),
{
}

proof fn lemma_safety_detects(
    verbose: bool,
    t: Seq<ReplyView>,
    t1: Seq<ReplyView>,
    t2: Seq<ReplyView>,
)
    requires
        restore::lid_read(verbose, t) matches Course::Ends(v, rest) && v != ClamshellState::Closed
            && rest == t1,
        effect::said_if(
            verbose,
            "internal safety restore: redetect displays"@,
            t1,
        ) matches Course::Ends(v, rest)
            && rest == t2,
    ensures
        asking::leads(
            |s: Seq<ReplyView>| restore::safety_restored(ActionMode::Execute, verbose, s),
            t,
            |s: Seq<ReplyView>| restore::detection_tried(ActionMode::Execute, verbose, s),
            t2,
        ),
        asking::carries(
            |s: Seq<ReplyView>| restore::safety_restored(ActionMode::Execute, verbose, s),
            t,
            |s: Seq<ReplyView>| restore::detection_tried(ActionMode::Execute, verbose, s),
            t2,
        ),
{
    let p = |s: Seq<ReplyView>| restore::safety_restored(ActionMode::Execute, verbose, s);
    let f = |s: Seq<ReplyView>| restore::detection_tried(ActionMode::Execute, verbose, s);
    let q1 = |s: Seq<ReplyView>| restore::lid_read(verbose, s);
    let q2 = |s: Seq<ReplyView>| effect::said_if(
        verbose,
        "internal safety restore: redetect displays"@,
        s,
    );
    assert(asking::cuts(q1, t, t1)) by {
        front_laws::lid_read_shrinks(verbose, t);
        front_laws::lid_read_cut(verbose, t, 0);
        assert forall|j: int| 0 <= j <= t1.len() implies q1(
            #[trigger] t.take(t.len() - t1.len() + j),
        ) == Course::Ends(q1(t)->Ends_0, t1.take(j)) by {
            front_laws::lid_read_cut(verbose, t, j);
        }
    }
    assert(asking::cuts(q2, t1, t2)) by {
        front_laws::said_if_shrinks(verbose, "internal safety restore: redetect displays"@, t1);
        front_laws::said_if_cut(verbose, "internal safety restore: redetect displays"@, t1, 0);
        assert forall|j: int| 0 <= j <= t2.len() implies q2(
            #[trigger] t1.take(t1.len() - t2.len() + j),
        ) == Course::Ends(q2(t1)->Ends_0, t2.take(j)) by {
            front_laws::said_if_cut(verbose, "internal safety restore: redetect displays"@, t1, j);
        }
    }
    assert forall|x: Seq<ReplyView>, r1: Seq<ReplyView>, r2: Seq<ReplyView>| #[trigger]
        asking::step2(p, q1, q2, f, q1(t)->Ends_0, q2(t1)->Ends_0, x, r1, r2) by {
        if q1(x) == Course::Ends(q1(t)->Ends_0, r1) && q2(r1) == Course::Ends(q2(t1)->Ends_0, r2) {
            lemma_safety_detects_step(verbose, x, r1, r2);
        }
    }
    asking::lemma_behind2(p, q1, q2, f, t, t1, t2);
}

proof fn lemma_safety_lights_step(
    verbose: bool,
    x: Seq<ReplyView>,
    r1: Seq<ReplyView>,
    r2: Seq<ReplyView>,
    r3: Seq<ReplyView>,
)
    requires
        restore::lid_read(verbose, x) matches Course::Ends(v, rest) && v != ClamshellState::Closed
            && rest == r1,
        effect::said_if(
            verbose,
            "internal safety restore: redetect displays"@,
            r1,
        ) matches Course::Ends(v, rest)
            && rest == r2,
        restore::detection_tried(ActionMode::Execute, verbose, r2) matches Course::Ends(v, rest)
            && rest == r3,
    ensures
        restore::internal_enabled(
            None,
            restore::INTERNAL_RESTORE_ATTEMPTS,
            ActionMode::Execute,
            verbose,
            r3,
        ) is Asks
            ==> asking::wanted(restore::safety_restored(ActionMode::Execute, verbose, x)) == asking::wanted(
                restore::internal_enabled(
                    None,
                    restore::INTERNAL_RESTORE_ATTEMPTS,
                    ActionMode::Execute,
                    verbose,
                    r3,
                ),
            ),
{
}

proof fn lemma_safety_lights(
    verbose: bool,
    t: Seq<ReplyView>,
    t1: Seq<ReplyView>,
    t2: Seq<ReplyView>,
    t3: Seq<ReplyView>,
)
    requires
        restore::lid_read(verbose, t) matches Course::Ends(v, rest) && v != ClamshellState::Closed
            && rest == t1,
        effect::said_if(
            verbose,
            "internal safety restore: redetect displays"@,
            t1,
        ) matches Course::Ends(v, rest)
            && rest == t2,
        restore::detection_tried(ActionMode::Execute, verbose, t2) matches Course::Ends(v, rest)
            && rest == t3,
    ensures
        asking::leads(
            |s: Seq<ReplyView>| restore::safety_restored(ActionMode::Execute, verbose, s),
            t,
            |s: Seq<ReplyView>| restore::internal_enabled(
                None,
                restore::INTERNAL_RESTORE_ATTEMPTS,
                ActionMode::Execute,
                verbose,
                s,
            ),
            t3,
        ),
        asking::carries(
            |s: Seq<ReplyView>| restore::safety_restored(ActionMode::Execute, verbose, s),
            t,
            |s: Seq<ReplyView>| restore::internal_enabled(
                None,
                restore::INTERNAL_RESTORE_ATTEMPTS,
                ActionMode::Execute,
                verbose,
                s,
            ),
            t3,
        ),
{
    let p = |s: Seq<ReplyView>| restore::safety_restored(ActionMode::Execute, verbose, s);
    let f = |s: Seq<ReplyView>| restore::internal_enabled(
        None,
        restore::INTERNAL_RESTORE_ATTEMPTS,
        ActionMode::Execute,
        verbose,
        s,
    );
    let q1 = |s: Seq<ReplyView>| restore::lid_read(verbose, s);
    let q2 = |s: Seq<ReplyView>| effect::said_if(
        verbose,
        "internal safety restore: redetect displays"@,
        s,
    );
    let q3 = |s: Seq<ReplyView>| restore::detection_tried(ActionMode::Execute, verbose, s);
    assert(asking::cuts(q1, t, t1)) by {
        front_laws::lid_read_shrinks(verbose, t);
        front_laws::lid_read_cut(verbose, t, 0);
        assert forall|j: int| 0 <= j <= t1.len() implies q1(
            #[trigger] t.take(t.len() - t1.len() + j),
        ) == Course::Ends(q1(t)->Ends_0, t1.take(j)) by {
            front_laws::lid_read_cut(verbose, t, j);
        }
    }
    assert(asking::cuts(q2, t1, t2)) by {
        front_laws::said_if_shrinks(verbose, "internal safety restore: redetect displays"@, t1);
        front_laws::said_if_cut(verbose, "internal safety restore: redetect displays"@, t1, 0);
        assert forall|j: int| 0 <= j <= t2.len() implies q2(
            #[trigger] t1.take(t1.len() - t2.len() + j),
        ) == Course::Ends(q2(t1)->Ends_0, t2.take(j)) by {
            front_laws::said_if_cut(verbose, "internal safety restore: redetect displays"@, t1, j);
        }
    }
    assert(asking::cuts(q3, t2, t3)) by {
        front_laws::detection_tried_shrinks(ActionMode::Execute, verbose, t2);
        front_laws::detection_tried_cut(ActionMode::Execute, verbose, t2, 0);
        assert forall|j: int| 0 <= j <= t3.len() implies q3(
            #[trigger] t2.take(t2.len() - t3.len() + j),
        ) == Course::Ends(q3(t2)->Ends_0, t3.take(j)) by {
            front_laws::detection_tried_cut(ActionMode::Execute, verbose, t2, j);
        }
    }
    assert forall|
        x: Seq<ReplyView>,
        r1: Seq<ReplyView>,
        r2: Seq<ReplyView>,
        r3: Seq<ReplyView>,
    | #[trigger]
        asking::step3(
            p,
            q1,
            q2,
            q3,
            f,
            q1(t)->Ends_0,
            q2(t1)->Ends_0,
            q3(t2)->Ends_0,
            x,
            r1,
            r2,
            r3,
        ) by {
        if q1(x) == Course::Ends(q1(t)->Ends_0, r1) && q2(r1) == Course::Ends(q2(t1)->Ends_0, r2)
            && q3(r2) == Course::Ends(q3(t2)->Ends_0, r3) {
            lemma_safety_lights_step(verbose, x, r1, r2, r3);
        }
    }
    asking::lemma_behind3(p, q1, q2, q3, f, t, t1, t2, t3);
}

/// A safety restore leaves the panel alone only where the lid is closed. Else it
/// detects the displays anew and lights the panel, whether or not the detection
/// went well, and it ends well only after the panel said that it is active.
pub proof fn safety_restore_keeps_safe(verbose: bool, t: Seq<ReplyView>)
    requires
        restore::safety_restored(ActionMode::Execute, verbose, t) is Ends,
    ensures
        ({
            let p = |s: Seq<ReplyView>| restore::safety_restored(ActionMode::Execute, verbose, s);
            &&& kept_safe(p, t)
            &&& restore::safety_restored(ActionMode::Execute, verbose, t)->Ends_0 is Ok
                ==> panel_safe(p, t)
        }),
{
    let attempts = restore::INTERNAL_RESTORE_ATTEMPTS;
    if let Course::Ends(lid, t1) = restore::lid_read(verbose, t) {
        if lid == ClamshellState::Closed {
            lemma_safety_reads(verbose, t);
            closed_is_what_was_said(verbose, t);
        } else {
            let line = "internal safety restore: redetect displays"@;
            if let Course::Ends(_, t2) = effect::said_if(verbose, line, t1) {
                if let Course::Ends(_, t3) = restore::detection_tried(
                    ActionMode::Execute,
                    verbose,
                    t2,
                ) {
                    lemma_trying_detects(verbose, t2);
                    detecting_is_asked_for(verbose, t2);
                    lemma_safety_detects(verbose, t, t1, t2);
                    lemma_safety_lights(verbose, t, t1, t2, t3);
                    restore_laws::lighting_does_what_it_can(None, attempts, verbose, t3);
                }
            }
        }
    }
}

/// A command was started.
pub open spec fn started(program: Seq<char>, arguments: Seq<Seq<char>>) -> spec_fn(
    EffectView,
    ReplyView,
) -> bool {
    |e: EffectView, r: ReplyView| e == (EffectView::Spawn { program, arguments })
}

/// The lid is told by the registry of the system: whoever reads it asks there first.
pub proof fn lid_is_asked_for(verbose: bool, t: Seq<ReplyView>)
    requires
        t.len() > 0,
    ensures
        asking::met(
            |s: Seq<ReplyView>| restore::lid_read(verbose, s),
            t,
            started("ioreg"@, seq!["-r"@, "-k"@, "AppleClamshellState"@, "-d"@, "4"@]),
        ),
{
    let p = |s: Seq<ReplyView>| restore::lid_read(verbose, s);
    let good = started("ioreg"@, seq!["-r"@, "-k"@, "AppleClamshellState"@, "-d"@, "4"@]);
    assert(t.take(0).len() == 0);
    assert(asking::meets(p, t, good, 0));
}

} // verus!
