//! What a safe reset is for: whatever was known or is listed is switched on.

use vstd::prelude::*;

use crate::asking;
use crate::commands;
use crate::display::DisplayView;
use crate::effect;
use crate::effect::{Course, ReplyView};
use crate::files;
use crate::front_laws;
use crate::guard;
use crate::native;
use crate::number;
use crate::policy::ActionMode;
use crate::policy_laws;
use crate::recovery_laws;
use crate::restore;
use crate::restore_laws;
use crate::switching_laws;

verus! {

// ---------------------------------------------------------------------------
// Numbers.
// ---------------------------------------------------------------------------
proof fn lemma_numbers_switch_step(
    ids: Seq<u32>,
    verbose: bool,
    x: Seq<ReplyView>,
    r1: Seq<ReplyView>,
)
    requires
        ids.len() > 0,
        effect::said_if(
            verbose,
            "safe reset: enable remembered display id "@ + number::dec(ids[0] as nat),
            x,
        ) matches Course::Ends(v, rest)
            && rest == r1,
    ensures
        native::native_switched(ids[0], true, ActionMode::Execute, verbose, r1) is Asks
            ==> asking::wanted(guard::numbers_enabled(ids, ActionMode::Execute, verbose, x)) == asking::wanted(
                native::native_switched(ids[0], true, ActionMode::Execute, verbose, r1),
            ),
{
}

proof fn lemma_numbers_switch(
    ids: Seq<u32>,
    verbose: bool,
    t: Seq<ReplyView>,
    t1: Seq<ReplyView>,
)
    requires
        ids.len() > 0,
        effect::said_if(
            verbose,
            "safe reset: enable remembered display id "@ + number::dec(ids[0] as nat),
            t,
        ) matches Course::Ends(v, rest)
            && rest == t1,
    ensures
        asking::leads(
            |s: Seq<ReplyView>| guard::numbers_enabled(ids, ActionMode::Execute, verbose, s),
            t,
            |s: Seq<ReplyView>| native::native_switched(
                ids[0],
                true,
                ActionMode::Execute,
                verbose,
                s,
            ),
            t1,
        ),
        asking::carries(
            |s: Seq<ReplyView>| guard::numbers_enabled(ids, ActionMode::Execute, verbose, s),
            t,
            |s: Seq<ReplyView>| native::native_switched(
                ids[0],
                true,
                ActionMode::Execute,
                verbose,
                s,
            ),
            t1,
        ),
{
    let p = |s: Seq<ReplyView>| guard::numbers_enabled(ids, ActionMode::Execute, verbose, s);
    let f = |s: Seq<ReplyView>| native::native_switched(
        ids[0],
        true,
        ActionMode::Execute,
        verbose,
        s,
    );
    let q1 = |s: Seq<ReplyView>| effect::said_if(
        verbose,
        "safe reset: enable remembered display id "@ + number::dec(ids[0] as nat),
        s,
    );
    assert(asking::cuts(q1, t, t1)) by {
        front_laws::said_if_shrinks(
            verbose,
            "safe reset: enable remembered display id "@ + number::dec(ids[0] as nat),
            t,
        );
        front_laws::said_if_cut(
            verbose,
            "safe reset: enable remembered display id "@ + number::dec(ids[0] as nat),
            t,
            0,
        );
        assert forall|j: int| 0 <= j <= t1.len() implies q1(
            #[trigger] t.take(t.len() - t1.len() + j),
        ) == Course::Ends(q1(t)->Ends_0, t1.take(j)) by {
            front_laws::said_if_cut(
                verbose,
                "safe reset: enable remembered display id "@ + number::dec(ids[0] as nat),
                t,
                j,
            );
        }
    }
    assert forall|x: Seq<ReplyView>, r1: Seq<ReplyView>| #[trigger]
        asking::step1(p, q1, f, q1(t)->Ends_0, x, r1) by {
        if q1(x) == Course::Ends(q1(t)->Ends_0, r1) {
            lemma_numbers_switch_step(ids, verbose, x, r1);
        }
    }
    asking::lemma_behind1(p, q1, f, t, t1);
}

proof fn lemma_numbers_on_step(
    ids: Seq<u32>,
    verbose: bool,
    x: Seq<ReplyView>,
    r1: Seq<ReplyView>,
    r2: Seq<ReplyView>,
)
    requires
        ids.len() > 0,
        effect::said_if(
            verbose,
            "safe reset: enable remembered display id "@ + number::dec(ids[0] as nat),
            x,
        ) matches Course::Ends(v, rest)
            && rest == r1,
        native::native_switched(
            ids[0],
            true,
            ActionMode::Execute,
            verbose,
            r1,
        ) matches Course::Ends(v, rest)
            && v is Ok && rest == r2,
    ensures
        guard::numbers_enabled(ids.skip(1), ActionMode::Execute, verbose, r2) is Asks
            ==> asking::wanted(guard::numbers_enabled(ids, ActionMode::Execute, verbose, x)) == asking::wanted(
                guard::numbers_enabled(ids.skip(1), ActionMode::Execute, verbose, r2),
            ),
{
}

proof fn lemma_numbers_on(
    ids: Seq<u32>,
    verbose: bool,
    t: Seq<ReplyView>,
    t1: Seq<ReplyView>,
    t2: Seq<ReplyView>,
)
    requires
        ids.len() > 0,
        effect::said_if(
            verbose,
            "safe reset: enable remembered display id "@ + number::dec(ids[0] as nat),
            t,
        ) matches Course::Ends(v, rest)
            && rest == t1,
        native::native_switched(
            ids[0],
            true,
            ActionMode::Execute,
            verbose,
            t1,
        ) matches Course::Ends(v, rest)
            && v is Ok && rest == t2,
    ensures
        asking::leads(
            |s: Seq<ReplyView>| guard::numbers_enabled(ids, ActionMode::Execute, verbose, s),
            t,
            |s: Seq<ReplyView>| guard::numbers_enabled(
                ids.skip(1),
                ActionMode::Execute,
                verbose,
                s,
            ),
            t2,
        ),
        asking::carries(
            |s: Seq<ReplyView>| guard::numbers_enabled(ids, ActionMode::Execute, verbose, s),
            t,
            |s: Seq<ReplyView>| guard::numbers_enabled(
                ids.skip(1),
                ActionMode::Execute,
                verbose,
                s,
            ),
            t2,
        ),
{
    let p = |s: Seq<ReplyView>| guard::numbers_enabled(ids, ActionMode::Execute, verbose, s);
    let f = |s: Seq<ReplyView>| guard::numbers_enabled(
        ids.skip(1),
        ActionMode::Execute,
        verbose,
        s,
    );
    let q1 = |s: Seq<ReplyView>| effect::said_if(
        verbose,
        "safe reset: enable remembered display id "@ + number::dec(ids[0] as nat),
        s,
    );
    let q2 = |s: Seq<ReplyView>| native::native_switched(
        ids[0],
        true,
        ActionMode::Execute,
        verbose,
        s,
    );
    assert(asking::cuts(q1, t, t1)) by {
        front_laws::said_if_shrinks(
            verbose,
            "safe reset: enable remembered display id "@ + number::dec(ids[0] as nat),
            t,
        );
        front_laws::said_if_cut(
            verbose,
            "safe reset: enable remembered display id "@ + number::dec(ids[0] as nat),
            t,
            0,
        );
        assert forall|j: int| 0 <= j <= t1.len() implies q1(
            #[trigger] t.take(t.len() - t1.len() + j),
        ) == Course::Ends(q1(t)->Ends_0, t1.take(j)) by {
            front_laws::said_if_cut(
                verbose,
                "safe reset: enable remembered display id "@ + number::dec(ids[0] as nat),
                t,
                j,
            );
        }
    }
    assert(asking::cuts(q2, t1, t2)) by {
        front_laws::native_switched_shrinks(ids[0], true, ActionMode::Execute, verbose, t1);
        front_laws::native_switched_cut(ids[0], true, ActionMode::Execute, verbose, t1, 0);
        assert forall|j: int| 0 <= j <= t2.len() implies q2(
            #[trigger] t1.take(t1.len() - t2.len() + j),
        ) == Course::Ends(q2(t1)->Ends_0, t2.take(j)) by {
            front_laws::native_switched_cut(ids[0], true, ActionMode::Execute, verbose, t1, j);
        }
    }
    assert forall|x: Seq<ReplyView>, r1: Seq<ReplyView>, r2: Seq<ReplyView>| #[trigger]
        asking::step2(p, q1, q2, f, q1(t)->Ends_0, q2(t1)->Ends_0, x, r1, r2) by {
        if q1(x) == Course::Ends(q1(t)->Ends_0, r1) && q2(r1) == Course::Ends(q2(t1)->Ends_0, r2) {
            lemma_numbers_on_step(ids, verbose, x, r1, r2);
        }
    }
    asking::lemma_behind2(p, q1, q2, f, t, t1, t2);
}

proof fn lemma_numbers_on_still_step(
    ids: Seq<u32>,
    verbose: bool,
    error: Seq<char>,
    x: Seq<ReplyView>,
    r1: Seq<ReplyView>,
    r2: Seq<ReplyView>,
    r3: Seq<ReplyView>,
)
    requires
        ids.len() > 0,
        effect::said_if(
            verbose,
            "safe reset: enable remembered display id "@ + number::dec(ids[0] as nat),
            x,
        ) matches Course::Ends(v, rest)
            && rest == r1,
        native::native_switched(
            ids[0],
            true,
            ActionMode::Execute,
            verbose,
            r1,
        ) matches Course::Ends(v, rest)
            && v == Err::<(), Seq<char>>(error) && rest == r2,
        effect::warned_if(
            verbose,
            "warning: native restore failed for display id "@ + number::dec(
                ids[0] as nat,
            ) + ": "@ + error,
            r2,
        ) matches Course::Ends(v, rest)
            && rest == r3,
    ensures
        guard::numbers_enabled(ids.skip(1), ActionMode::Execute, verbose, r3) is Asks
            ==> asking::wanted(guard::numbers_enabled(ids, ActionMode::Execute, verbose, x)) == asking::wanted(
                guard::numbers_enabled(ids.skip(1), ActionMode::Execute, verbose, r3),
            ),
{
}

proof fn lemma_numbers_on_still(
    ids: Seq<u32>,
    verbose: bool,
    error: Seq<char>,
    t: Seq<ReplyView>,
    t1: Seq<ReplyView>,
    t2: Seq<ReplyView>,
    t3: Seq<ReplyView>,
)
    requires
        ids.len() > 0,
        effect::said_if(
            verbose,
            "safe reset: enable remembered display id "@ + number::dec(ids[0] as nat),
            t,
        ) matches Course::Ends(v, rest)
            && rest == t1,
        native::native_switched(
            ids[0],
            true,
            ActionMode::Execute,
            verbose,
            t1,
        ) matches Course::Ends(v, rest)
            && v == Err::<(), Seq<char>>(error) && rest == t2,
        effect::warned_if(
            verbose,
            "warning: native restore failed for display id "@ + number::dec(
                ids[0] as nat,
            ) + ": "@ + error,
            t2,
        ) matches Course::Ends(v, rest)
            && rest == t3,
    ensures
        asking::leads(
            |s: Seq<ReplyView>| guard::numbers_enabled(ids, ActionMode::Execute, verbose, s),
            t,
            |s: Seq<ReplyView>| guard::numbers_enabled(
                ids.skip(1),
                ActionMode::Execute,
                verbose,
                s,
            ),
            t3,
        ),
        asking::carries(
            |s: Seq<ReplyView>| guard::numbers_enabled(ids, ActionMode::Execute, verbose, s),
            t,
            |s: Seq<ReplyView>| guard::numbers_enabled(
                ids.skip(1),
                ActionMode::Execute,
                verbose,
                s,
            ),
            t3,
        ),
{
    let p = |s: Seq<ReplyView>| guard::numbers_enabled(ids, ActionMode::Execute, verbose, s);
    let f = |s: Seq<ReplyView>| guard::numbers_enabled(
        ids.skip(1),
        ActionMode::Execute,
        verbose,
        s,
    );
    let q1 = |s: Seq<ReplyView>| effect::said_if(
        verbose,
        "safe reset: enable remembered display id "@ + number::dec(ids[0] as nat),
        s,
    );
    let q2 = |s: Seq<ReplyView>| native::native_switched(
        ids[0],
        true,
        ActionMode::Execute,
        verbose,
        s,
    );
    let q3 = |s: Seq<ReplyView>| effect::warned_if(
        verbose,
        "warning: native restore failed for display id "@ + number::dec(
            ids[0] as nat,
        ) + ": "@ + error,
        s,
    );
    assert(asking::cuts(q1, t, t1)) by {
        front_laws::said_if_shrinks(
            verbose,
            "safe reset: enable remembered display id "@ + number::dec(ids[0] as nat),
            t,
        );
        front_laws::said_if_cut(
            verbose,
            "safe reset: enable remembered display id "@ + number::dec(ids[0] as nat),
            t,
            0,
        );
        assert forall|j: int| 0 <= j <= t1.len() implies q1(
            #[trigger] t.take(t.len() - t1.len() + j),
        ) == Course::Ends(q1(t)->Ends_0, t1.take(j)) by {
            front_laws::said_if_cut(
                verbose,
                "safe reset: enable remembered display id "@ + number::dec(ids[0] as nat),
                t,
                j,
            );
        }
    }
    assert(asking::cuts(q2, t1, t2)) by {
        front_laws::native_switched_shrinks(ids[0], true, ActionMode::Execute, verbose, t1);
        front_laws::native_switched_cut(ids[0], true, ActionMode::Execute, verbose, t1, 0);
        assert forall|j: int| 0 <= j <= t2.len() implies q2(
            #[trigger] t1.take(t1.len() - t2.len() + j),
        ) == Course::Ends(q2(t1)->Ends_0, t2.take(j)) by {
            front_laws::native_switched_cut(ids[0], true, ActionMode::Execute, verbose, t1, j);
        }
    }
    assert(asking::cuts(q3, t2, t3)) by {
        front_laws::warned_if_shrinks(
            verbose,
            "warning: native restore failed for display id "@ + number::dec(
                ids[0] as nat,
            ) + ": "@ + error,
            t2,
        );
        front_laws::warned_if_cut(
            verbose,
            "warning: native restore failed for display id "@ + number::dec(
                ids[0] as nat,
            ) + ": "@ + error,
            t2,
            0,
        );
        assert forall|j: int| 0 <= j <= t3.len() implies q3(
            #[trigger] t2.take(t2.len() - t3.len() + j),
        ) == Course::Ends(q3(t2)->Ends_0, t3.take(j)) by {
            front_laws::warned_if_cut(
                verbose,
                "warning: native restore failed for display id "@ + number::dec(
                    ids[0] as nat,
                ) + ": "@ + error,
                t2,
                j,
            );
        }
    }
    assert forall|
        x: Seq<ReplyView>,
        r1: Seq<ReplyView>,
        r2: Seq<ReplyView>,
        r3: Seq<ReplyView>,
    | #[trigger]
        asking::step3(
            p,
            q1,
            q2,
            q3,
            f,
            q1(t)->Ends_0,
            q2(t1)->Ends_0,
            q3(t2)->Ends_0,
            x,
            r1,
            r2,
            r3,
        ) by {
        if q1(x) == Course::Ends(q1(t)->Ends_0, r1) && q2(r1) == Course::Ends(q2(t1)->Ends_0, r2)
            && q3(r2) == Course::Ends(q3(t2)->Ends_0, r3) {
            lemma_numbers_on_still_step(ids, verbose, error, x, r1, r2, r3);
        }
    }
    asking::lemma_behind3(p, q1, q2, q3, f, t, t1, t2, t3);
}

/// Each of the numbers is tried, whatever became of the others.
pub proof fn each_number_is_switched_on(ids: Seq<u32>, verbose: bool, i: int, t: Seq<ReplyView>)
    requires
        0 <= i < ids.len(),
        guard::numbers_enabled(ids, ActionMode::Execute, verbose, t) is Ends,
    ensures
        asking::met(
            |s: Seq<ReplyView>| guard::numbers_enabled(ids, ActionMode::Execute, verbose, s),
            t,
            restore_laws::tried(ids[i]),
        ),
    decreases ids.len(),
{
    let digits = number::dec(ids[0] as nat);
    let line = "safe reset: enable remembered display id "@ + digits;
    if let Course::Ends(_, t1) = effect::said_if(verbose, line, t) {
        if let Course::Ends(r, t2) = native::native_switched(
            ids[0],
            true,
            ActionMode::Execute,
            verbose,
            t1,
        ) {
            if i == 0 {
                lemma_numbers_switch(ids, verbose, t, t1);
                switching_laws::native_switch_configures(ids[0], verbose, t1);
            } else {
                assert(ids.skip(1)[i - 1] == ids[i]);
                match r {
                    Ok(_) => {
                        lemma_numbers_on(ids, verbose, t, t1, t2);
                        each_number_is_switched_on(ids.skip(1), verbose, i - 1, t2);
                    },
                    Err(error) => {
                        let warning = "warning: native restore failed for display id "@ + digits
                            + ": "@ + error;
                        if let Course::Ends(_, t3) = effect::warned_if(verbose, warning, t2) {
                            lemma_numbers_on_still(ids, verbose, error, t, t1, t2, t3);
                            each_number_is_switched_on(ids.skip(1), verbose, i - 1, t3);
                        }
                    },
                }
            }
        }
    }
}

proof fn lemma_remembered_numbers_step(
    verbose: bool,
    ids: Seq<u32>,
    x: Seq<ReplyView>,
    r1: Seq<ReplyView>,
)
    requires
        ids.len() > 0,
        files::numbers_read(x) matches Course::Ends(v, rest) && v == Ok::<Seq<u32>, Seq<char>>(ids)
            && rest == r1,
    ensures
        guard::numbers_enabled(ids, ActionMode::Execute, verbose, r1) is Asks
            ==> asking::wanted(guard::remembered_enabled(ActionMode::Execute, verbose, x)) == asking::wanted(
                guard::numbers_enabled(ids, ActionMode::Execute, verbose, r1),
            ),
{
}

proof fn lemma_remembered_numbers(
    verbose: bool,
    ids: Seq<u32>,
    t: Seq<ReplyView>,
    t1: Seq<ReplyView>,
)
    requires
        ids.len() > 0,
        files::numbers_read(t) matches Course::Ends(v, rest) && v == Ok::<Seq<u32>, Seq<char>>(ids)
            && rest == t1,
    ensures
        asking::leads(
            |s: Seq<ReplyView>| guard::remembered_enabled(ActionMode::Execute, verbose, s),
            t,
            |s: Seq<ReplyView>| guard::numbers_enabled(ids, ActionMode::Execute, verbose, s),
            t1,
        ),
        asking::carries(
            |s: Seq<ReplyView>| guard::remembered_enabled(ActionMode::Execute, verbose, s),
            t,
            |s: Seq<ReplyView>| guard::numbers_enabled(ids, ActionMode::Execute, verbose, s),
            t1,
        ),
{
    let p = |s: Seq<ReplyView>| guard::remembered_enabled(ActionMode::Execute, verbose, s);
    let f = |s: Seq<ReplyView>| guard::numbers_enabled(ids, ActionMode::Execute, verbose, s);
    let q1 = |s: Seq<ReplyView>| files::numbers_read(s);
    assert(asking::cuts(q1, t, t1)) by {
        front_laws::numbers_read_shrinks(t);
        front_laws::numbers_read_cut(t, 0);
        assert forall|j: int| 0 <= j <= t1.len() implies q1(
            #[trigger] t.take(t.len() - t1.len() + j),
        ) == Course::Ends(q1(t)->Ends_0, t1.take(j)) by {
            front_laws::numbers_read_cut(t, j);
        }
    }
    assert forall|x: Seq<ReplyView>, r1: Seq<ReplyView>| #[trigger]
        asking::step1(p, q1, f, q1(t)->Ends_0, x, r1) by {
        if q1(x) == Course::Ends(q1(t)->Ends_0, r1) {
            lemma_remembered_numbers_step(verbose, ids, x, r1);
        }
    }
    asking::lemma_behind1(p, q1, f, t, t1);
}

// ---------------------------------------------------------------------------
// Listed displays.
// ---------------------------------------------------------------------------
proof fn lemma_listed_past(
    displays: Seq<DisplayView>,
    verbose: bool,
    any: bool,
    t: Seq<ReplyView>,
)
    requires
        displays.len() > 0 && displays[0].on(),
    ensures
        asking::leads(
            |s: Seq<ReplyView>| guard::listed_enabled(
                displays,
                ActionMode::Execute,
                verbose,
                any,
                s,
            ),
            t,
            |s: Seq<ReplyView>| guard::listed_enabled(
                displays.skip(1),
                ActionMode::Execute,
                verbose,
                any,
                s,
            ),
            t,
        ),
        asking::carries(
            |s: Seq<ReplyView>| guard::listed_enabled(
                displays,
                ActionMode::Execute,
                verbose,
                any,
                s,
            ),
            t,
            |s: Seq<ReplyView>| guard::listed_enabled(
                displays.skip(1),
                ActionMode::Execute,
                verbose,
                any,
                s,
            ),
            t,
        ),
{
    let p = |s: Seq<ReplyView>| guard::listed_enabled(
        displays,
        ActionMode::Execute,
        verbose,
        any,
        s,
    );
    let f = |s: Seq<ReplyView>| guard::listed_enabled(
        displays.skip(1),
        ActionMode::Execute,
        verbose,
        any,
        s,
    );
    assert(t =~= t.skip(t.len() - t.len()));
    assert forall|j: int| 0 <= j <= t.len() && f(t.take(j)) is Asks implies asking::wanted(
        p(#[trigger] t.take(t.len() - t.len() + j)),
    ) == asking::wanted(f(t.take(j))) by {}
    asking::lemma_met_later(p, t, f, t);
}

proof fn lemma_listed_nameless_step(
    displays: Seq<DisplayView>,
    verbose: bool,
    any: bool,
    x: Seq<ReplyView>,
    r1: Seq<ReplyView>,
)
    requires
        displays.len() > 0 && !displays[0].on() && displays[0].persistent_id is None,
        effect::warned_if(
            verbose,
            "warning: skipped disabled display without persistent id"@,
            x,
        ) matches Course::Ends(v, rest)
            && rest == r1,
    ensures
        guard::listed_enabled(displays.skip(1), ActionMode::Execute, verbose, any, r1) is Asks
            ==> asking::wanted(guard::listed_enabled(displays, ActionMode::Execute, verbose, any, x)) == asking::wanted(
                guard::listed_enabled(displays.skip(1), ActionMode::Execute, verbose, any, r1),
            ),
{
}

proof fn lemma_listed_nameless(
    displays: Seq<DisplayView>,
    verbose: bool,
    any: bool,
    t: Seq<ReplyView>,
    t1: Seq<ReplyView>,
)
    requires
        displays.len() > 0 && !displays[0].on() && displays[0].persistent_id is None,
        effect::warned_if(
            verbose,
            "warning: skipped disabled display without persistent id"@,
            t,
        ) matches Course::Ends(v, rest)
            && rest == t1,
    ensures
        asking::leads(
            |s: Seq<ReplyView>| guard::listed_enabled(
                displays,
                ActionMode::Execute,
                verbose,
                any,
                s,
            ),
            t,
            |s: Seq<ReplyView>| guard::listed_enabled(
                displays.skip(1),
                ActionMode::Execute,
                verbose,
                any,
                s,
            ),
            t1,
        ),
        asking::carries(
            |s: Seq<ReplyView>| guard::listed_enabled(
                displays,
                ActionMode::Execute,
                verbose,
                any,
                s,
            ),
            t,
            |s: Seq<ReplyView>| guard::listed_enabled(
                displays.skip(1),
                ActionMode::Execute,
                verbose,
                any,
                s,
            ),
            t1,
        ),
{
    let p = |s: Seq<ReplyView>| guard::listed_enabled(
        displays,
        ActionMode::Execute,
        verbose,
        any,
        s,
    );
    let f = |s: Seq<ReplyView>| guard::listed_enabled(
        displays.skip(1),
        ActionMode::Execute,
        verbose,
        any,
        s,
    );
    let q1 = |s: Seq<ReplyView>| effect::warned_if(
        verbose,
        "warning: skipped disabled display without persistent id"@,
        s,
    );
    assert(asking::cuts(q1, t, t1)) by {
        front_laws::warned_if_shrinks(
            verbose,
            "warning: skipped disabled display without persistent id"@,
            t,
        );
        front_laws::warned_if_cut(
            verbose,
            "warning: skipped disabled display without persistent id"@,
            t,
            0,
        );
        assert forall|j: int| 0 <= j <= t1.len() implies q1(
            #[trigger] t.take(t.len() - t1.len() + j),
        ) == Course::Ends(q1(t)->Ends_0, t1.take(j)) by {
            front_laws::warned_if_cut(
                verbose,
                "warning: skipped disabled display without persistent id"@,
                t,
                j,
            );
        }
    }
    assert forall|x: Seq<ReplyView>, r1: Seq<ReplyView>| #[trigger]
        asking::step1(p, q1, f, q1(t)->Ends_0, x, r1) by {
        if q1(x) == Course::Ends(q1(t)->Ends_0, r1) {
            lemma_listed_nameless_step(displays, verbose, any, x, r1);
        }
    }
    asking::lemma_behind1(p, q1, f, t, t1);
}

proof fn lemma_listed_switch_step(
    displays: Seq<DisplayView>,
    verbose: bool,
    any: bool,
    id: Seq<char>,
    x: Seq<ReplyView>,
    r1: Seq<ReplyView>,
)
    requires
        displays.len() > 0 && !displays[0].on() && displays[0].persistent_id == Some(id),
        effect::said_if(
            verbose,
            "safe reset: enable detected display "@ + id,
            x,
        ) matches Course::Ends(v, rest)
            && rest == r1,
    ensures
        commands::placer_switched(id, true, ActionMode::Execute, verbose, r1) is Asks
            ==> asking::wanted(guard::listed_enabled(displays, ActionMode::Execute, verbose, any, x)) == asking::wanted(
                commands::placer_switched(id, true, ActionMode::Execute, verbose, r1),
            ),
{
}

proof fn lemma_listed_switch(
    displays: Seq<DisplayView>,
    verbose: bool,
    any: bool,
    id: Seq<char>,
    t: Seq<ReplyView>,
    t1: Seq<ReplyView>,
)
    requires
        displays.len() > 0 && !displays[0].on() && displays[0].persistent_id == Some(id),
        effect::said_if(
            verbose,
            "safe reset: enable detected display "@ + id,
            t,
        ) matches Course::Ends(v, rest)
            && rest == t1,
    ensures
        asking::leads(
            |s: Seq<ReplyView>| guard::listed_enabled(
                displays,
                ActionMode::Execute,
                verbose,
                any,
                s,
            ),
            t,
            |s: Seq<ReplyView>| commands::placer_switched(
                id,
                true,
                ActionMode::Execute,
                verbose,
                s,
            ),
            t1,
        ),
        asking::carries(
            |s: Seq<ReplyView>| guard::listed_enabled(
                displays,
                ActionMode::Execute,
                verbose,
                any,
                s,
            ),
            t,
            |s: Seq<ReplyView>| commands::placer_switched(
                id,
                true,
                ActionMode::Execute,
                verbose,
                s,
            ),
            t1,
        ),
{
    let p = |s: Seq<ReplyView>| guard::listed_enabled(
        displays,
        ActionMode::Execute,
        verbose,
        any,
        s,
    );
    let f = |s: Seq<ReplyView>| commands::placer_switched(
        id,
        true,
        ActionMode::Execute,
        verbose,
        s,
    );
    let q1 = |s: Seq<ReplyView>| effect::said_if(
        verbose,
        "safe reset: enable detected display "@ + id,
        s,
    );
    assert(asking::cuts(q1, t, t1)) by {
        front_laws::said_if_shrinks(verbose, "safe reset: enable detected display "@ + id, t);
        front_laws::said_if_cut(verbose, "safe reset: enable detected display "@ + id, t, 0);
        assert forall|j: int| 0 <= j <= t1.len() implies q1(
            #[trigger] t.take(t.len() - t1.len() + j),
        ) == Course::Ends(q1(t)->Ends_0, t1.take(j)) by {
            front_laws::said_if_cut(verbose, "safe reset: enable detected display "@ + id, t, j);
        }
    }
    assert forall|x: Seq<ReplyView>, r1: Seq<ReplyView>| #[trigger]
        asking::step1(p, q1, f, q1(t)->Ends_0, x, r1) by {
        if q1(x) == Course::Ends(q1(t)->Ends_0, r1) {
            lemma_listed_switch_step(displays, verbose, any, id, x, r1);
        }
    }
    asking::lemma_behind1(p, q1, f, t, t1);
}

proof fn lemma_listed_on_step(
    displays: Seq<DisplayView>,
    verbose: bool,
    any: bool,
    id: Seq<char>,
    x: Seq<ReplyView>,
    r1: Seq<ReplyView>,
    r2: Seq<ReplyView>,
)
    requires
        displays.len() > 0 && !displays[0].on() && displays[0].persistent_id == Some(id),
        effect::said_if(
            verbose,
            "safe reset: enable detected display "@ + id,
            x,
        ) matches Course::Ends(v, rest)
            && rest == r1,
        commands::placer_switched(
            id,
            true,
            ActionMode::Execute,
            verbose,
            r1,
        ) matches Course::Ends(v, rest)
            && v is Ok && rest == r2,
    ensures
        guard::listed_enabled(displays.skip(1), ActionMode::Execute, verbose, true, r2) is Asks
            ==> asking::wanted(guard::listed_enabled(displays, ActionMode::Execute, verbose, any, x)) == asking::wanted(
                guard::listed_enabled(displays.skip(1), ActionMode::Execute, verbose, true, r2),
            ),
{
}

proof fn lemma_listed_on(
    displays: Seq<DisplayView>,
    verbose: bool,
    any: bool,
    id: Seq<char>,
    t: Seq<ReplyView>,
    t1: Seq<ReplyView>,
    t2: Seq<ReplyView>,
)
    requires
        displays.len() > 0 && !displays[0].on() && displays[0].persistent_id == Some(id),
        effect::said_if(
            verbose,
            "safe reset: enable detected display "@ + id,
            t,
        ) matches Course::Ends(v, rest)
            && rest == t1,
        commands::placer_switched(
            id,
            true,
            ActionMode::Execute,
            verbose,
            t1,
        ) matches Course::Ends(v, rest)
            && v is Ok && rest == t2,
    ensures
        asking::leads(
            |s: Seq<ReplyView>| guard::listed_enabled(
                displays,
                ActionMode::Execute,
                verbose,
                any,
                s,
            ),
            t,
            |s: Seq<ReplyView>| guard::listed_enabled(
                displays.skip(1),
                ActionMode::Execute,
                verbose,
                true,
                s,
            ),
            t2,
        ),
        asking::carries(
            |s: Seq<ReplyView>| guard::listed_enabled(
                displays,
                ActionMode::Execute,
                verbose,
                any,
                s,
            ),
            t,
            |s: Seq<ReplyView>| guard::listed_enabled(
                displays.skip(1),
                ActionMode::Execute,
                verbose,
                true,
                s,
            ),
            t2,
        ),
{
    let p = |s: Seq<ReplyView>| guard::listed_enabled(
        displays,
        ActionMode::Execute,
        verbose,
        any,
        s,
    );
    let f = |s: Seq<ReplyView>| guard::listed_enabled(
        displays.skip(1),
        ActionMode::Execute,
        verbose,
        true,
        s,
    );
    let q1 = |s: Seq<ReplyView>| effect::said_if(
        verbose,
        "safe reset: enable detected display "@ + id,
        s,
    );
    let q2 = |s: Seq<ReplyView>| commands::placer_switched(
        id,
        true,
        ActionMode::Execute,
        verbose,
        s,
    );
    assert(asking::cuts(q1, t, t1)) by {
        front_laws::said_if_shrinks(verbose, "safe reset: enable detected display "@ + id, t);
        front_laws::said_if_cut(verbose, "safe reset: enable detected display "@ + id, t, 0);
        assert forall|j: int| 0 <= j <= t1.len() implies q1(
            #[trigger] t.take(t.len() - t1.len() + j),
        ) == Course::Ends(q1(t)->Ends_0, t1.take(j)) by {
            front_laws::said_if_cut(verbose, "safe reset: enable detected display "@ + id, t, j);
        }
    }
    assert(asking::cuts(q2, t1, t2)) by {
        front_laws::placer_switched_shrinks(id, true, ActionMode::Execute, verbose, t1);
        front_laws::placer_switched_cut(id, true, ActionMode::Execute, verbose, t1, 0);
        assert forall|j: int| 0 <= j <= t2.len() implies q2(
            #[trigger] t1.take(t1.len() - t2.len() + j),
        ) == Course::Ends(q2(t1)->Ends_0, t2.take(j)) by {
            front_laws::placer_switched_cut(id, true, ActionMode::Execute, verbose, t1, j);
        }
    }
    assert forall|x: Seq<ReplyView>, r1: Seq<ReplyView>, r2: Seq<ReplyView>| #[trigger]
        asking::step2(p, q1, q2, f, q1(t)->Ends_0, q2(t1)->Ends_0, x, r1, r2) by {
        if q1(x) == Course::Ends(q1(t)->Ends_0, r1) && q2(r1) == Course::Ends(q2(t1)->Ends_0, r2) {
            lemma_listed_on_step(displays, verbose, any, id, x, r1, r2);
        }
    }
    asking::lemma_behind2(p, q1, q2, f, t, t1, t2);
}

proof fn lemma_listed_on_still_step(
    displays: Seq<DisplayView>,
    verbose: bool,
    any: bool,
    id: Seq<char>,
    error: Seq<char>,
    x: Seq<ReplyView>,
    r1: Seq<ReplyView>,
    r2: Seq<ReplyView>,
    r3: Seq<ReplyView>,
)
    requires
        displays.len() > 0 && !displays[0].on() && displays[0].persistent_id == Some(id),
        effect::said_if(
            verbose,
            "safe reset: enable detected display "@ + id,
            x,
        ) matches Course::Ends(v, rest)
            && rest == r1,
        commands::placer_switched(
            id,
            true,
            ActionMode::Execute,
            verbose,
            r1,
        ) matches Course::Ends(v, rest)
            && v == Err::<Seq<char>, Seq<char>>(error) && rest == r2,
        effect::warned_if(
            verbose,
            "warning: failed to enable display "@ + id + ": "@ + error,
            r2,
        ) matches Course::Ends(v, rest)
            && rest == r3,
    ensures
        guard::listed_enabled(displays.skip(1), ActionMode::Execute, verbose, any, r3) is Asks
            ==> asking::wanted(guard::listed_enabled(displays, ActionMode::Execute, verbose, any, x)) == asking::wanted(
                guard::listed_enabled(displays.skip(1), ActionMode::Execute, verbose, any, r3),
            ),
{
}

proof fn lemma_listed_on_still(
    displays: Seq<DisplayView>,
    verbose: bool,
    any: bool,
    id: Seq<char>,
    error: Seq<char>,
    t: Seq<ReplyView>,
    t1: Seq<ReplyView>,
    t2: Seq<ReplyView>,
    t3: Seq<ReplyView>,
)
    requires
        displays.len() > 0 && !displays[0].on() && displays[0].persistent_id == Some(id),
        effect::said_if(
            verbose,
            "safe reset: enable detected display "@ + id,
            t,
        ) matches Course::Ends(v, rest)
            && rest == t1,
        commands::placer_switched(
            id,
            true,
            ActionMode::Execute,
            verbose,
            t1,
        ) matches Course::Ends(v, rest)
            && v == Err::<Seq<char>, Seq<char>>(error) && rest == t2,
        effect::warned_if(
            verbose,
            "warning: failed to enable display "@ + id + ": "@ + error,
            t2,
        ) matches Course::Ends(v, rest)
            && rest == t3,
    ensures
        asking::leads(
            |s: Seq<ReplyView>| guard::listed_enabled(
                displays,
                ActionMode::Execute,
                verbose,
                any,
                s,
            ),
            t,
            |s: Seq<ReplyView>| guard::listed_enabled(
                displays.skip(1),
                ActionMode::Execute,
                verbose,
                any,
                s,
            ),
            t3,
        ),
        asking::carries(
            |s: Seq<ReplyView>| guard::listed_enabled(
                displays,
                ActionMode::Execute,
                verbose,
                any,
                s,
            ),
            t,
            |s: Seq<ReplyView>| guard::listed_enabled(
                displays.skip(1),
                ActionMode::Execute,
                verbose,
                any,
                s,
            ),
            t3,
        ),
{
    let p = |s: Seq<ReplyView>| guard::listed_enabled(
        displays,
        ActionMode::Execute,
        verbose,
        any,
        s,
    );
    let f = |s: Seq<ReplyView>| guard::listed_enabled(
        displays.skip(1),
        ActionMode::Execute,
        verbose,
        any,
        s,
    );
    let q1 = |s: Seq<ReplyView>| effect::said_if(
        verbose,
        "safe reset: enable detected display "@ + id,
        s,
    );
    let q2 = |s: Seq<ReplyView>| commands::placer_switched(
        id,
        true,
        ActionMode::Execute,
        verbose,
        s,
    );
    let q3 = |s: Seq<ReplyView>| effect::warned_if(
        verbose,
        "warning: failed to enable display "@ + id + ": "@ + error,
        s,
    );
    assert(asking::cuts(q1, t, t1)) by {
        front_laws::said_if_shrinks(verbose, "safe reset: enable detected display "@ + id, t);
        front_laws::said_if_cut(verbose, "safe reset: enable detected display "@ + id, t, 0);
        assert forall|j: int| 0 <= j <= t1.len() implies q1(
            #[trigger] t.take(t.len() - t1.len() + j),
        ) == Course::Ends(q1(t)->Ends_0, t1.take(j)) by {
            front_laws::said_if_cut(verbose, "safe reset: enable detected display "@ + id, t, j);
        }
    }
    assert(asking::cuts(q2, t1, t2)) by {
        front_laws::placer_switched_shrinks(id, true, ActionMode::Execute, verbose, t1);
        front_laws::placer_switched_cut(id, true, ActionMode::Execute, verbose, t1, 0);
        assert forall|j: int| 0 <= j <= t2.len() implies q2(
            #[trigger] t1.take(t1.len() - t2.len() + j),
        ) == Course::Ends(q2(t1)->Ends_0, t2.take(j)) by {
            front_laws::placer_switched_cut(id, true, ActionMode::Execute, verbose, t1, j);
        }
    }
    assert(asking::cuts(q3, t2, t3)) by {
        front_laws::warned_if_shrinks(
            verbose,
            "warning: failed to enable display "@ + id + ": "@ + error,
            t2,
        );
        front_laws::warned_if_cut(
            verbose,
            "warning: failed to enable display "@ + id + ": "@ + error,
            t2,
            0,
        );
        assert forall|j: int| 0 <= j <= t3.len() implies q3(
            #[trigger] t2.take(t2.len() - t3.len() + j),
        ) == Course::Ends(q3(t2)->Ends_0, t3.take(j)) by {
            front_laws::warned_if_cut(
                verbose,
                "warning: failed to enable display "@ + id + ": "@ + error,
                t2,
                j,
            );
        }
    }
    assert forall|
        x: Seq<ReplyView>,
        r1: Seq<ReplyView>,
        r2: Seq<ReplyView>,
        r3: Seq<ReplyView>,
    | #[trigger]
        asking::step3(
            p,
            q1,
            q2,
            q3,
            f,
            q1(t)->Ends_0,
            q2(t1)->Ends_0,
            q3(t2)->Ends_0,
            x,
            r1,
            r2,
            r3,
        ) by {
        if q1(x) == Course::Ends(q1(t)->Ends_0, r1) && q2(r1) == Course::Ends(q2(t1)->Ends_0, r2)
            && q3(r2) == Course::Ends(q3(t2)->Ends_0, r3) {
            lemma_listed_on_still_step(displays, verbose, any, id, error, x, r1, r2, r3);
        }
    }
    asking::lemma_behind3(p, q1, q2, q3, f, t, t1, t2, t3);
}

/// Each listed display that is not on and has an id is switched on, whatever became
/// of the others.
pub proof fn each_dark_display_is_switched_on(
    displays: Seq<DisplayView>,
    verbose: bool,
    any: bool,
    i: int,
    t: Seq<ReplyView>,
)
    requires
        0 <= i < displays.len(),
        displays[i].enabled != Some(true),
        displays[i].persistent_id is Some,
        guard::listed_enabled(displays, ActionMode::Execute, verbose, any, t) is Ends,
    ensures
        asking::met(
            |s: Seq<ReplyView>|
                guard::listed_enabled(displays, ActionMode::Execute, verbose, any, s),
            t,
            switching_laws::switched(displays[i].persistent_id->0, true),
        ),
    decreases displays.len(),
{
    let rest = displays.skip(1);
    let d = displays[0];
    if i > 0 {
        assert(rest[i - 1] == displays[i]);
    }
    if d.on() {
        lemma_listed_past(displays, verbose, any, t);
        each_dark_display_is_switched_on(rest, verbose, any, i - 1, t);
    } else if d.persistent_id is None {
        let line = "warning: skipped disabled display without persistent id"@;
        if let Course::Ends(_, t1) = effect::warned_if(verbose, line, t) {
            lemma_listed_nameless(displays, verbose, any, t, t1);
            each_dark_display_is_switched_on(rest, verbose, any, i - 1, t1);
        }
    } else {
        let id = d.persistent_id->0;
        let line = "safe reset: enable detected display "@ + id;
        if let Course::Ends(_, t1) = effect::said_if(verbose, line, t) {
            if let Course::Ends(r, t2) = commands::placer_switched(
                id,
                true,
                ActionMode::Execute,
                verbose,
                t1,
            ) {
                if i == 0 {
                    lemma_listed_switch(displays, verbose, any, id, t, t1);
                    switching_laws::switching_runs_the_command(id, true, verbose, t1);
                } else {
                    match r {
                        Ok(_) => {
                            lemma_listed_on(displays, verbose, any, id, t, t1, t2);
                            each_dark_display_is_switched_on(rest, verbose, true, i - 1, t2);
                        },
                        Err(error) => {
                            let warning = "warning: failed to enable display "@ + id + ": "@
                                + error;
                            if let Course::Ends(_, t3) = effect::warned_if(verbose, warning, t2) {
                                lemma_listed_on_still(
                                    displays,
                                    verbose,
                                    any,
                                    id,
                                    error,
                                    t,
                                    t1,
                                    t2,
                                    t3,
                                );
                                each_dark_display_is_switched_on(rest, verbose, any, i - 1, t3);
                            }
                        },
                    }
                }
            }
        }
    }
}

proof fn lemma_detected_listed_step(
    verbose: bool,
    displays: Seq<DisplayView>,
    x: Seq<ReplyView>,
    r1: Seq<ReplyView>,
    r2: Seq<ReplyView>,
)
    requires
        commands::displays_listed(x) matches Course::Ends(v, rest) && v is Ok
            && v->Ok_0.displays == displays && rest == r1,
        files::list_remembered(displays, r1) matches Course::Ends(v, rest) && rest == r2,
    ensures
        guard::listed_enabled(displays, ActionMode::Execute, verbose, false, r2) is Asks
            ==> asking::wanted(guard::detected_enabled(ActionMode::Execute, verbose, x)) == asking::wanted(
                guard::listed_enabled(displays, ActionMode::Execute, verbose, false, r2),
            ),
{
}

proof fn lemma_detected_listed(
    verbose: bool,
    displays: Seq<DisplayView>,
    t: Seq<ReplyView>,
    t1: Seq<ReplyView>,
    t2: Seq<ReplyView>,
)
    requires
        commands::displays_listed(t) matches Course::Ends(v, rest) && v is Ok
            && v->Ok_0.displays == displays && rest == t1,
        files::list_remembered(displays, t1) matches Course::Ends(v, rest) && rest == t2,
    ensures
        asking::leads(
            |s: Seq<ReplyView>| guard::detected_enabled(ActionMode::Execute, verbose, s),
            t,
            |s: Seq<ReplyView>| guard::listed_enabled(
                displays,
                ActionMode::Execute,
                verbose,
                false,
                s,
            ),
            t2,
        ),
        asking::carries(
            |s: Seq<ReplyView>| guard::detected_enabled(ActionMode::Execute, verbose, s),
            t,
            |s: Seq<ReplyView>| guard::listed_enabled(
                displays,
                ActionMode::Execute,
                verbose,
                false,
                s,
            ),
            t2,
        ),
{
    let p = |s: Seq<ReplyView>| guard::detected_enabled(ActionMode::Execute, verbose, s);
    let f = |s: Seq<ReplyView>| guard::listed_enabled(
        displays,
        ActionMode::Execute,
        verbose,
        false,
        s,
    );
    let q1 = |s: Seq<ReplyView>| commands::displays_listed(s);
    let q2 = |s: Seq<ReplyView>| files::list_remembered(displays, s);
    assert(asking::cuts(q1, t, t1)) by {
        front_laws::displays_listed_shrinks(t);
        front_laws::displays_listed_cut(t, 0);
        assert forall|j: int| 0 <= j <= t1.len() implies q1(
            #[trigger] t.take(t.len() - t1.len() + j),
        ) == Course::Ends(q1(t)->Ends_0, t1.take(j)) by {
            front_laws::displays_listed_cut(t, j);
        }
    }
    assert(asking::cuts(q2, t1, t2)) by {
        front_laws::list_remembered_shrinks(displays, t1);
        front_laws::list_remembered_cut(displays, t1, 0);
        assert forall|j: int| 0 <= j <= t2.len() implies q2(
            #[trigger] t1.take(t1.len() - t2.len() + j),
        ) == Course::Ends(q2(t1)->Ends_0, t2.take(j)) by {
            front_laws::list_remembered_cut(displays, t1, j);
        }
    }
    assert forall|x: Seq<ReplyView>, r1: Seq<ReplyView>, r2: Seq<ReplyView>| #[trigger]
        asking::step2(p, q1, q2, f, q1(t)->Ends_0, q2(t1)->Ends_0, x, r1, r2) by {
        if q1(x) == Course::Ends(q1(t)->Ends_0, r1) && q2(r1) == Course::Ends(q2(t1)->Ends_0, r2) {
            lemma_detected_listed_step(verbose, displays, x, r1, r2);
        }
    }
    asking::lemma_behind2(p, q1, q2, f, t, t1, t2);
}

// ---------------------------------------------------------------------------
// The whole.
// ---------------------------------------------------------------------------
proof fn lemma_reset_detects_step(
    verbose: bool,
    x: Seq<ReplyView>,
    r1: Seq<ReplyView>,
)
    requires
        effect::said_if(verbose, "safe reset: redetect displays"@, x) matches Course::Ends(v, rest)
            && rest == r1,
    ensures
        restore::detection_tried(ActionMode::Execute, verbose, r1) is Asks
            ==> asking::wanted(guard::reset_done(ActionMode::Execute, verbose, x)) == asking::wanted(
                restore::detection_tried(ActionMode::Execute, verbose, r1),
            ),
{
}

proof fn lemma_reset_detects(
    verbose: bool,
    t: Seq<ReplyView>,
    t1: Seq<ReplyView>,
)
    requires
        effect::said_if(verbose, "safe reset: redetect displays"@, t) matches Course::Ends(v, rest)
            && rest == t1,
    ensures
        asking::leads(
            |s: Seq<ReplyView>| guard::reset_done(ActionMode::Execute, verbose, s),
            t,
            |s: Seq<ReplyView>| restore::detection_tried(ActionMode::Execute, verbose, s),
            t1,
        ),
        asking::carries(
            |s: Seq<ReplyView>| guard::reset_done(ActionMode::Execute, verbose, s),
            t,
            |s: Seq<ReplyView>| restore::detection_tried(ActionMode::Execute, verbose, s),
            t1,
        ),
{
    let p = |s: Seq<ReplyView>| guard::reset_done(ActionMode::Execute, verbose, s);
    let f = |s: Seq<ReplyView>| restore::detection_tried(ActionMode::Execute, verbose, s);
    let q1 = |s: Seq<ReplyView>| effect::said_if(verbose, "safe reset: redetect displays"@, s);
    assert(asking::cuts(q1, t, t1)) by {
        front_laws::said_if_shrinks(verbose, "safe reset: redetect displays"@, t);
        front_laws::said_if_cut(verbose, "safe reset: redetect displays"@, t, 0);
        assert forall|j: int| 0 <= j <= t1.len() implies q1(
            #[trigger] t.take(t.len() - t1.len() + j),
        ) == Course::Ends(q1(t)->Ends_0, t1.take(j)) by {
            front_laws::said_if_cut(verbose, "safe reset: redetect displays"@, t, j);
        }
    }
    assert forall|x: Seq<ReplyView>, r1: Seq<ReplyView>| #[trigger]
        asking::step1(p, q1, f, q1(t)->Ends_0, x, r1) by {
        if q1(x) == Course::Ends(q1(t)->Ends_0, r1) {
            lemma_reset_detects_step(verbose, x, r1);
        }
    }
    asking::lemma_behind1(p, q1, f, t, t1);
}

proof fn lemma_trying_detects(
    verbose: bool,
    t: Seq<ReplyView>,
)
    ensures
        asking::leads(
            |s: Seq<ReplyView>| restore::detection_tried(ActionMode::Execute, verbose, s),
            t,
            |s: Seq<ReplyView>| native::detected(ActionMode::Execute, verbose, s),
            t,
        ),
        asking::carries(
            |s: Seq<ReplyView>| restore::detection_tried(ActionMode::Execute, verbose, s),
            t,
            |s: Seq<ReplyView>| native::detected(ActionMode::Execute, verbose, s),
            t,
        ),
{
    let p = |s: Seq<ReplyView>| restore::detection_tried(ActionMode::Execute, verbose, s);
    let f = |s: Seq<ReplyView>| native::detected(ActionMode::Execute, verbose, s);
    assert(t =~= t.skip(t.len() - t.len()));
    assert forall|j: int| 0 <= j <= t.len() && f(t.take(j)) is Asks implies asking::wanted(
        p(#[trigger] t.take(t.len() - t.len() + j)),
    ) == asking::wanted(f(t.take(j))) by {}
    asking::lemma_met_later(p, t, f, t);
}

proof fn lemma_reset_remembers_step(
    verbose: bool,
    x: Seq<ReplyView>,
    r1: Seq<ReplyView>,
    r2: Seq<ReplyView>,
)
    requires
        effect::said_if(verbose, "safe reset: redetect displays"@, x) matches Course::Ends(v, rest)
            && rest == r1,
        restore::detection_tried(ActionMode::Execute, verbose, r1) matches Course::Ends(v, rest)
            && rest == r2,
    ensures
        guard::remembered_enabled(ActionMode::Execute, verbose, r2) is Asks
            ==> asking::wanted(guard::reset_done(ActionMode::Execute, verbose, x)) == asking::wanted(
                guard::remembered_enabled(ActionMode::Execute, verbose, r2),
            ),
{
}

proof fn lemma_reset_remembers(
    verbose: bool,
    t: Seq<ReplyView>,
    t1: Seq<ReplyView>,
    t2: Seq<ReplyView>,
)
    requires
        effect::said_if(verbose, "safe reset: redetect displays"@, t) matches Course::Ends(v, rest)
            && rest == t1,
        restore::detection_tried(ActionMode::Execute, verbose, t1) matches Course::Ends(v, rest)
            && rest == t2,
    ensures
        asking::leads(
            |s: Seq<ReplyView>| guard::reset_done(ActionMode::Execute, verbose, s),
            t,
            |s: Seq<ReplyView>| guard::remembered_enabled(ActionMode::Execute, verbose, s),
            t2,
        ),
        asking::carries(
            |s: Seq<ReplyView>| guard::reset_done(ActionMode::Execute, verbose, s),
            t,
            |s: Seq<ReplyView>| guard::remembered_enabled(ActionMode::Execute, verbose, s),
            t2,
        ),
{
    let p = |s: Seq<ReplyView>| guard::reset_done(ActionMode::Execute, verbose, s);
    let f = |s: Seq<ReplyView>| guard::remembered_enabled(ActionMode::Execute, verbose, s);
    let q1 = |s: Seq<ReplyView>| effect::said_if(verbose, "safe reset: redetect displays"@, s);
    let q2 = |s: Seq<ReplyView>| restore::detection_tried(ActionMode::Execute, verbose, s);
    assert(asking::cuts(q1, t, t1)) by {
        front_laws::said_if_shrinks(verbose, "safe reset: redetect displays"@, t);
        front_laws::said_if_cut(verbose, "safe reset: redetect displays"@, t, 0);
        assert forall|j: int| 0 <= j <= t1.len() implies q1(
            #[trigger] t.take(t.len() - t1.len() + j),
        ) == Course::Ends(q1(t)->Ends_0, t1.take(j)) by {
            front_laws::said_if_cut(verbose, "safe reset: redetect displays"@, t, j);
        }
    }
    assert(asking::cuts(q2, t1, t2)) by {
        front_laws::detection_tried_shrinks(ActionMode::Execute, verbose, t1);
        front_laws::detection_tried_cut(ActionMode::Execute, verbose, t1, 0);
        assert forall|j: int| 0 <= j <= t2.len() implies q2(
            #[trigger] t1.take(t1.len() - t2.len() + j),
        ) == Course::Ends(q2(t1)->Ends_0, t2.take(j)) by {
            front_laws::detection_tried_cut(ActionMode::Execute, verbose, t1, j);
        }
    }
    assert forall|x: Seq<ReplyView>, r1: Seq<ReplyView>, r2: Seq<ReplyView>| #[trigger]
        asking::step2(p, q1, q2, f, q1(t)->Ends_0, q2(t1)->Ends_0, x, r1, r2) by {
        if q1(x) == Course::Ends(q1(t)->Ends_0, r1) && q2(r1) == Course::Ends(q2(t1)->Ends_0, r2) {
            lemma_reset_remembers_step(verbose, x, r1, r2);
        }
    }
    asking::lemma_behind2(p, q1, q2, f, t, t1, t2);
}

proof fn lemma_reset_lists_step(
    verbose: bool,
    x: Seq<ReplyView>,
    r1: Seq<ReplyView>,
    r2: Seq<ReplyView>,
    r3: Seq<ReplyView>,
    r4: Seq<ReplyView>,
)
    requires
        effect::said_if(verbose, "safe reset: redetect displays"@, x) matches Course::Ends(v, rest)
            && rest == r1,
        restore::detection_tried(ActionMode::Execute, verbose, r1) matches Course::Ends(v, rest)
            && rest == r2,
        guard::remembered_enabled(ActionMode::Execute, verbose, r2) matches Course::Ends(v, rest)
            && v is Ok && rest == r3,
        guard::settling_awaited(ActionMode::Execute, r3) matches Course::Ends(v, rest)
            && rest == r4,
    ensures
        guard::detected_enabled(ActionMode::Execute, verbose, r4) is Asks
            ==> asking::wanted(guard::reset_done(ActionMode::Execute, verbose, x)) == asking::wanted(
                guard::detected_enabled(ActionMode::Execute, verbose, r4),
            ),
{
}

proof fn lemma_reset_lists(
    verbose: bool,
    t: Seq<ReplyView>,
    t1: Seq<ReplyView>,
    t2: Seq<ReplyView>,
    t3: Seq<ReplyView>,
    t4: Seq<ReplyView>,
)
    requires
        effect::said_if(verbose, "safe reset: redetect displays"@, t) matches Course::Ends(v, rest)
            && rest == t1,
        restore::detection_tried(ActionMode::Execute, verbose, t1) matches Course::Ends(v, rest)
            && rest == t2,
        guard::remembered_enabled(ActionMode::Execute, verbose, t2) matches Course::Ends(v, rest)
            && v is Ok && rest == t3,
        guard::settling_awaited(ActionMode::Execute, t3) matches Course::Ends(v, rest)
            && rest == t4,
    ensures
        asking::leads(
            |s: Seq<ReplyView>| guard::reset_done(ActionMode::Execute, verbose, s),
            t,
            |s: Seq<ReplyView>| guard::detected_enabled(ActionMode::Execute, verbose, s),
            t4,
        ),
        asking::carries(
            |s: Seq<ReplyView>| guard::reset_done(ActionMode::Execute, verbose, s),
            t,
            |s: Seq<ReplyView>| guard::detected_enabled(ActionMode::Execute, verbose, s),
            t4,
        ),
{
    let p = |s: Seq<ReplyView>| guard::reset_done(ActionMode::Execute, verbose, s);
    let f = |s: Seq<ReplyView>| guard::detected_enabled(ActionMode::Execute, verbose, s);
    let q1 = |s: Seq<ReplyView>| effect::said_if(verbose, "safe reset: redetect displays"@, s);
    let q2 = |s: Seq<ReplyView>| restore::detection_tried(ActionMode::Execute, verbose, s);
    let q3 = |s: Seq<ReplyView>| guard::remembered_enabled(ActionMode::Execute, verbose, s);
    let q4 = |s: Seq<ReplyView>| guard::settling_awaited(ActionMode::Execute, s);
    assert(asking::cuts(q1, t, t1)) by {
        front_laws::said_if_shrinks(verbose, "safe reset: redetect displays"@, t);
        front_laws::said_if_cut(verbose, "safe reset: redetect displays"@, t, 0);
        assert forall|j: int| 0 <= j <= t1.len() implies q1(
            #[trigger] t.take(t.len() - t1.len() + j),
        ) == Course::Ends(q1(t)->Ends_0, t1.take(j)) by {
            front_laws::said_if_cut(verbose, "safe reset: redetect displays"@, t, j);
        }
    }
    assert(asking::cuts(q2, t1, t2)) by {
        front_laws::detection_tried_shrinks(ActionMode::Execute, verbose, t1);
        front_laws::detection_tried_cut(ActionMode::Execute, verbose, t1, 0);
        assert forall|j: int| 0 <= j <= t2.len() implies q2(
            #[trigger] t1.take(t1.len() - t2.len() + j),
        ) == Course::Ends(q2(t1)->Ends_0, t2.take(j)) by {
            front_laws::detection_tried_cut(ActionMode::Execute, verbose, t1, j);
        }
    }
    assert(asking::cuts(q3, t2, t3)) by {
        front_laws::remembered_enabled_shrinks(ActionMode::Execute, verbose, t2);
        front_laws::remembered_enabled_cut(ActionMode::Execute, verbose, t2, 0);
        assert forall|j: int| 0 <= j <= t3.len() implies q3(
            #[trigger] t2.take(t2.len() - t3.len() + j),
        ) == Course::Ends(q3(t2)->Ends_0, t3.take(j)) by {
            front_laws::remembered_enabled_cut(ActionMode::Execute, verbose, t2, j);
        }
    }
    assert(asking::cuts(q4, t3, t4)) by {
        front_laws::settling_awaited_shrinks(ActionMode::Execute, t3);
        front_laws::settling_awaited_cut(ActionMode::Execute, t3, 0);
        assert forall|j: int| 0 <= j <= t4.len() implies q4(
            #[trigger] t3.take(t3.len() - t4.len() + j),
        ) == Course::Ends(q4(t3)->Ends_0, t4.take(j)) by {
            front_laws::settling_awaited_cut(ActionMode::Execute, t3, j);
        }
    }
    assert forall|
        x: Seq<ReplyView>,
        r1: Seq<ReplyView>,
        r2: Seq<ReplyView>,
        r3: Seq<ReplyView>,
        r4: Seq<ReplyView>,
    | #[trigger]
        asking::step4(
            p,
            q1,
            q2,
            q3,
            q4,
            f,
            q1(t)->Ends_0,
            q2(t1)->Ends_0,
            q3(t2)->Ends_0,
            q4(t3)->Ends_0,
            x,
            r1,
            r2,
            r3,
            r4,
        ) by {
        if q1(x) == Course::Ends(q1(t)->Ends_0, r1) && q2(r1) == Course::Ends(q2(t1)->Ends_0, r2)
            && q3(r2) == Course::Ends(q3(t2)->Ends_0, r3)
            && q4(r3) == Course::Ends(q4(t3)->Ends_0, r4) {
            lemma_reset_lists_step(verbose, x, r1, r2, r3, r4);
        }
    }
    asking::lemma_behind4(p, q1, q2, q3, q4, f, t, t1, t2, t3, t4);
}

/// A safe reset detects the displays anew, whatever else fails. Behind that it reads
/// the numbers that are remembered and tries each of them. Where they could be read,
/// it ends well, and before that it lists the displays and switches each one on that
/// is not and has an id. The result holds the places on the tape from which on the
/// numbers are read and the displays listed.
pub proof fn reset_switches_everything_on(verbose: bool, t: Seq<ReplyView>) -> (way: (
    Seq<ReplyView>,
    Seq<ReplyView>,
))
    requires
        guard::reset_done(ActionMode::Execute, verbose, t) is Ends,
    ensures
        ({
            let p = |s: Seq<ReplyView>| guard::reset_done(ActionMode::Execute, verbose, s);
            &&& asking::met(p, t, recovery_laws::detection())
            &&& files::numbers_read(way.0) matches Course::Ends(read, _) && match read {
                Err(error) => guard::reset_done(ActionMode::Execute, verbose, t)->Ends_0 == Err::<
                    (),
                    Seq<char>,
                >(error),
                Ok(ids) => {
                    &&& guard::reset_done(ActionMode::Execute, verbose, t)->Ends_0 is Ok
                    &&& forall|i: int|
                        0 <= i < ids.len() ==> asking::met(
                            p,
                            t,
                            restore_laws::tried(#[trigger] ids[i]),
                        )
                    &&& way.1.len() > 0
                    &&& commands::as_list(effect::as_ran(way.1[0])) matches Ok(parsed)
                        ==> forall|i: int|
                        0 <= i < parsed.displays.len() && (
                        #[trigger] parsed.displays[i]).enabled != Some(true)
                            && parsed.displays[i].persistent_id is Some ==> asking::met(
                            p,
                            t,
                            switching_laws::switched(parsed.displays[i].persistent_id->0, true),
                        )
                },
            }
        }),
{
    let p = |s: Seq<ReplyView>| guard::reset_done(ActionMode::Execute, verbose, s);
    let line = "safe reset: redetect displays"@;
    let t1 = effect::said_if(verbose, line, t)->Ends_1;
    let t2 = restore::detection_tried(ActionMode::Execute, verbose, t1)->Ends_1;
    lemma_trying_detects(verbose, t1);
    recovery_laws::detecting_is_asked_for(verbose, t1);
    lemma_reset_detects(verbose, t, t1);
    lemma_reset_remembers(verbose, t, t1, t2);
    let r2 = files::numbers_read(t2)->Ends_0;
    let t2a = files::numbers_read(t2)->Ends_1;
    match r2 {
        Err(_) => (t2, t2),
        Ok(ids) => {
            if ids.len() > 0 {
                lemma_remembered_numbers(verbose, ids, t2, t2a);
                assert forall|i: int| 0 <= i < ids.len() implies asking::met(
                    p,
                    t,
                    restore_laws::tried(#[trigger] ids[i]),
                ) by {
                    each_number_is_switched_on(ids, verbose, i, t2a);
                }
            }
            let t3 = guard::remembered_enabled(ActionMode::Execute, verbose, t2)->Ends_1;
            let t4 = guard::settling_awaited(ActionMode::Execute, t3)->Ends_1;
            lemma_reset_lists(verbose, t, t1, t2, t3, t4);
            if let Ok(parsed) = commands::as_list(effect::as_ran(t4[0])) {
                let displays = parsed.displays;
                let t5 = t4.skip(1);
                let t6 = files::list_remembered(displays, t5)->Ends_1;
                lemma_detected_listed(verbose, displays, t4, t5, t6);
                assert forall|i: int|
                    0 <= i < displays.len() && (#[trigger] displays[i]).enabled != Some(true)
                        && displays[i].persistent_id is Some implies asking::met(
                    p,
                    t,
                    switching_laws::switched(displays[i].persistent_id->0, true),
                ) by {
                    each_dark_display_is_switched_on(displays, verbose, false, i, t6);
                }
            }
            (t2, t4)
        },
    }
}

// ---------------------------------------------------------------------------
// The panel after a restore.
// ---------------------------------------------------------------------------
proof fn lemma_panel_switches(
    displays: Seq<DisplayView>,
    verbose: bool,
    id: Seq<char>,
    t: Seq<ReplyView>,
)
    requires
        !crate::display::internal_on(displays) && guard::off_panel(displays) == Some(id),
    ensures
        asking::leads(
            |s: Seq<ReplyView>| guard::panel_switched(displays, ActionMode::Execute, verbose, s),
            t,
            |s: Seq<ReplyView>| commands::placer_switched(
                id,
                true,
                ActionMode::Execute,
                verbose,
                s,
            ),
            t,
        ),
        asking::carries(
            |s: Seq<ReplyView>| guard::panel_switched(displays, ActionMode::Execute, verbose, s),
            t,
            |s: Seq<ReplyView>| commands::placer_switched(
                id,
                true,
                ActionMode::Execute,
                verbose,
                s,
            ),
            t,
        ),
{
    let p = |s: Seq<ReplyView>| guard::panel_switched(displays, ActionMode::Execute, verbose, s);
    let f = |s: Seq<ReplyView>| commands::placer_switched(
        id,
        true,
        ActionMode::Execute,
        verbose,
        s,
    );
    assert(t =~= t.skip(t.len() - t.len()));
    assert forall|j: int| 0 <= j <= t.len() && f(t.take(j)) is Asks implies asking::wanted(
        p(#[trigger] t.take(t.len() - t.len() + j)),
    ) == asking::wanted(f(t.take(j))) by {}
    asking::lemma_met_later(p, t, f, t);
}

proof fn lemma_off_panel(displays: Seq<DisplayView>, p: int)
    requires
        0 <= p < displays.len(),
        displays[p].internal(),
        displays[p].persistent_id is Some,
        policy_laws::panel_dark(displays),
        forall|i: int|
            0 <= i < p ==> !((#[trigger] displays[i]).internal() && displays[i].persistent_id
                is Some),
    ensures
        guard::off_panel(displays) == displays[p].persistent_id,
    decreases p,
{
    assert(!(displays[p].internal() && displays[p].enabled == Some(true)));
    if p > 0 {
        let rest = displays.skip(1);
        assert(!(displays[0].internal() && displays[0].persistent_id is Some));
        assert forall|i: int| 0 <= i < rest.len() implies !((#[trigger] rest[i]).internal()
            && rest[i].enabled == Some(true)) by {
            assert(rest[i] == displays[i + 1]);
        }
        assert forall|i: int| 0 <= i < p - 1 implies !((#[trigger] rest[i]).internal()
            && rest[i].persistent_id is Some) by {
            assert(rest[i] == displays[i + 1]);
        }
        lemma_off_panel(rest, p - 1);
    }
}

/// Where the list shows no panel that is on, the first panel that has an id is
/// switched on by that id, and this ends well even where the command does not.
pub proof fn dark_panel_is_switched_on(
    displays: Seq<DisplayView>,
    verbose: bool,
    p: int,
    t: Seq<ReplyView>,
)
    requires
        0 <= p < displays.len(),
        displays[p].internal(),
        displays[p].persistent_id is Some,
        policy_laws::panel_dark(displays),
        forall|i: int|
            0 <= i < p ==> !((#[trigger] displays[i]).internal() && displays[i].persistent_id
                is Some),
        guard::panel_switched(displays, ActionMode::Execute, verbose, t) is Ends,
    ensures
        guard::panel_switched(displays, ActionMode::Execute, verbose, t)->Ends_0 is Ok,
        asking::met(
            |s: Seq<ReplyView>| guard::panel_switched(displays, ActionMode::Execute, verbose, s),
            t,
            switching_laws::switched(displays[p].persistent_id->0, true),
        ),
{
    let id = displays[p].persistent_id->0;
    lemma_off_panel(displays, p);
    assert forall|i: int| 0 <= i < displays.len() implies !((#[trigger] displays[i].internal())
        && displays[i].on()) by {
        assert(!(displays[i].internal() && displays[i].enabled == Some(true)));
    }
    lemma_panel_switches(displays, verbose, id, t);
    switching_laws::switching_runs_the_command(id, true, verbose, t);
}

/// A panel that is on is left as it is.
pub proof fn lit_panel_is_left_alone(
    displays: Seq<DisplayView>,
    mode: ActionMode,
    verbose: bool,
    t: Seq<ReplyView>,
)
    requires
        !policy_laws::panel_dark(displays),
    ensures
        guard::panel_switched(displays, mode, verbose, t) matches Course::Ends(r, rest) && r is Ok
            && rest == t,
{
    let i = choose|i: int|
        0 <= i < displays.len() && (#[trigger] displays[i]).internal() && displays[i].enabled
            == Some(true);
    assert(displays[i].internal() && displays[i].on());
}

proof fn lemma_verified_switches_step(
    verbose: bool,
    displays: Seq<DisplayView>,
    x: Seq<ReplyView>,
    r1: Seq<ReplyView>,
    r2: Seq<ReplyView>,
)
    requires
        commands::displays_listed_within(2000, x) matches Course::Ends(v, rest) && v is Ok
            && v->Ok_0.displays == displays && rest == r1,
        guard::noted(ActionMode::Execute, displays, r1) matches Course::Ends(v, rest) && rest == r2,
    ensures
        guard::panel_switched(displays, ActionMode::Execute, verbose, r2) is Asks
            ==> asking::wanted(guard::restore_verified(ActionMode::Execute, verbose, x)) == asking::wanted(
                guard::panel_switched(displays, ActionMode::Execute, verbose, r2),
            ),
{
}

proof fn lemma_verified_switches(
    verbose: bool,
    displays: Seq<DisplayView>,
    t: Seq<ReplyView>,
    t1: Seq<ReplyView>,
    t2: Seq<ReplyView>,
)
    requires
        commands::displays_listed_within(2000, t) matches Course::Ends(v, rest) && v is Ok
            && v->Ok_0.displays == displays && rest == t1,
        guard::noted(ActionMode::Execute, displays, t1) matches Course::Ends(v, rest) && rest == t2,
    ensures
        asking::leads(
            |s: Seq<ReplyView>| guard::restore_verified(ActionMode::Execute, verbose, s),
            t,
            |s: Seq<ReplyView>| guard::panel_switched(displays, ActionMode::Execute, verbose, s),
            t2,
        ),
        asking::carries(
            |s: Seq<ReplyView>| guard::restore_verified(ActionMode::Execute, verbose, s),
            t,
            |s: Seq<ReplyView>| guard::panel_switched(displays, ActionMode::Execute, verbose, s),
            t2,
        ),
{
    let p = |s: Seq<ReplyView>| guard::restore_verified(ActionMode::Execute, verbose, s);
    let f = |s: Seq<ReplyView>| guard::panel_switched(displays, ActionMode::Execute, verbose, s);
    let q1 = |s: Seq<ReplyView>| commands::displays_listed_within(2000, s);
    let q2 = |s: Seq<ReplyView>| guard::noted(ActionMode::Execute, displays, s);
    assert(asking::cuts(q1, t, t1)) by {
        front_laws::displays_listed_within_shrinks(2000, t);
        front_laws::displays_listed_within_cut(2000, t, 0);
        assert forall|j: int| 0 <= j <= t1.len() implies q1(
            #[trigger] t.take(t.len() - t1.len() + j),
        ) == Course::Ends(q1(t)->Ends_0, t1.take(j)) by {
            front_laws::displays_listed_within_cut(2000, t, j);
        }
    }
    assert(asking::cuts(q2, t1, t2)) by {
        front_laws::noted_shrinks(ActionMode::Execute, displays, t1);
        front_laws::noted_cut(ActionMode::Execute, displays, t1, 0);
        assert forall|j: int| 0 <= j <= t2.len() implies q2(
            #[trigger] t1.take(t1.len() - t2.len() + j),
        ) == Course::Ends(q2(t1)->Ends_0, t2.take(j)) by {
            front_laws::noted_cut(ActionMode::Execute, displays, t1, j);
        }
    }
    assert forall|x: Seq<ReplyView>, r1: Seq<ReplyView>, r2: Seq<ReplyView>| #[trigger]
        asking::step2(p, q1, q2, f, q1(t)->Ends_0, q2(t1)->Ends_0, x, r1, r2) by {
        if q1(x) == Course::Ends(q1(t)->Ends_0, r1) && q2(r1) == Course::Ends(q2(t1)->Ends_0, r2) {
            lemma_verified_switches_step(verbose, displays, x, r1, r2);
        }
    }
    asking::lemma_behind2(p, q1, q2, f, t, t1, t2);
}

/// So is what follows the native restore, for the displays that are listed there.
pub proof fn listed_dark_panel_is_switched_on(
    displays: Seq<DisplayView>,
    verbose: bool,
    p: int,
    t: Seq<ReplyView>,
)
    requires
        guard::restore_verified(ActionMode::Execute, verbose, t) is Ends,
        commands::displays_listed_within(2000, t) matches Course::Ends(r, _) && r is Ok
            && r->Ok_0.displays == displays,
        0 <= p < displays.len(),
        displays[p].internal(),
        displays[p].persistent_id is Some,
        policy_laws::panel_dark(displays),
        forall|i: int|
            0 <= i < p ==> !((#[trigger] displays[i]).internal() && displays[i].persistent_id
                is Some),
    ensures
        asking::met(
            |s: Seq<ReplyView>| guard::restore_verified(ActionMode::Execute, verbose, s),
            t,
            switching_laws::switched(displays[p].persistent_id->0, true),
        ),
{
    if let Course::Ends(r, t1) = commands::displays_listed_within(2000, t) {
        if let Course::Ends(_, t2) = guard::noted(ActionMode::Execute, displays, t1) {
            lemma_verified_switches(verbose, displays, t, t1, t2);
            dark_panel_is_switched_on(displays, verbose, p, t2);
        }
    }
}

} // verus!
