//! What each command of the program is for.

use vstd::prelude::*;

use crate::asking;
use crate::command;
use crate::command::ProgressView;
use crate::commands;
use crate::effect;
use crate::effect::{Course, EffectView, ReplyView};
use crate::files;
use crate::front_laws;
use crate::guard;
use crate::guard_laws;
use crate::install;
use crate::native;
use crate::native_laws;
use crate::options;
use crate::path;
use crate::policy::ActionMode;
use crate::recovery_laws;
use crate::reset_laws;
use crate::restore;
use crate::restore_laws;
use crate::snapshot;
use crate::state;
use crate::switching;
use crate::switching_laws;

verus! {

// ---------------------------------------------------------------------------
// The first word.
// ---------------------------------------------------------------------------
/// The program does what the command does: it asks for the same, fails with the
/// same words, and is finished where the command ends well.
pub open spec fn does(
    whole: Course<Result<ProgressView, Seq<char>>>,
    part: Course<Result<(), Seq<char>>>,
) -> bool {
    match part {
        Course::Asks(e) => whole == Course::<Result<ProgressView, Seq<char>>>::Asks(e),
        Course::Ends(r, t) => match r {
            Ok(_) => whole == Course::Ends(
                Ok::<ProgressView, Seq<char>>(ProgressView::Finished),
                t,
            ),
            Err(error) => whole == Course::Ends(Err::<ProgressView, Seq<char>>(error), t),
        },
    }
}

/// The words that name a command.
pub open spec fn command_words() -> Seq<Seq<char>> {
    seq![
        "-h"@,
        "--help"@,
        "help"@,
        "list"@,
        "snapshot"@,
        "disable-internal"@,
        "enable-internal"@,
        "restore-internal"@,
        "restore-display"@,
        "redetect-displays"@,
        "safe-reset"@,
        "reset-safe"@,
        "targets"@,
        "guard"@,
        "install-guard"@,
        "uninstall-guard"@,
        "watch"@,
    ]
}

/// The first word names the command and the others are its own. A word that names
/// none is refused before anything is asked for, and without any word the
/// interactive mode is opened.
pub proof fn first_word_names_the_command(word: Seq<char>, words: Seq<Seq<char>>, t: Seq<ReplyView>)
    ensures
        ({
            let whole = command::program_run(seq![word] + words, t);
            &&& word == "list"@ ==> does(whole, command::list_run(t))
            &&& word == "snapshot"@ ==> does(whole, snapshot::snapshot_run(words, t))
            &&& word == "disable-internal"@ ==> does(whole, command::disable_run(words, t))
            &&& word == "enable-internal"@ ==> does(whole, command::enable_run(words, t))
            &&& word == "restore-internal"@ ==> does(whole, command::restore_run(words, t))
            &&& word == "restore-display"@ ==> does(whole, command::restore_display_run(words, t))
            &&& word == "redetect-displays"@ ==> does(whole, command::redetect_run(words, t))
            &&& word == "safe-reset"@ || word == "reset-safe"@ ==> does(
                whole,
                command::reset_run(words, t),
            )
            &&& word == "targets"@ ==> does(whole, command::targets_run(words, t))
            &&& word == "guard"@ ==> does(whole, command::guard_run(words, t))
            &&& word == "install-guard"@ ==> does(whole, install::install_run(words, t))
            &&& word == "uninstall-guard"@ ==> does(whole, install::uninstall_run(words, t))
            &&& !command_words().contains(word) ==> whole == Course::Ends(
                Err::<ProgressView, Seq<char>>(
                    "unknown command `"@ + word + "`. Run `displayed --help`."@,
                ),
                t,
            )
        }),
        command::program_run(Seq::empty(), t) == Course::Ends(
            Ok::<ProgressView, Seq<char>>(ProgressView::Interactive),
            t,
        ),
{
    let args = seq![word] + words;
    assert(args[0] == word);
    assert(args.skip(1) =~= words);
    lemma_words_differ();
    let all = command_words();
    if !all.contains(word) {
        assert forall|i: int| 0 <= i < all.len() implies #[trigger] all[i] != word by {}
        assert(all[0] == "-h"@ && all[1] == "--help"@ && all[2] == "help"@ && all[3] == "list"@
            && all[4] == "snapshot"@ && all[5] == "disable-internal"@ && all[6]
            == "enable-internal"@ && all[7] == "restore-internal"@ && all[8] == "restore-display"@
            && all[9] == "redetect-displays"@ && all[10] == "safe-reset"@ && all[11]
            == "reset-safe"@ && all[12] == "targets"@ && all[13] == "guard"@ && all[14]
            == "install-guard"@ && all[15] == "uninstall-guard"@ && all[16] == "watch"@);
    }
}

proof fn lemma_words_differ()
    ensures
        forall|i: int, j: int|
            0 <= i < j < command_words().len() ==> #[trigger] command_words()[i]
                != #[trigger] command_words()[j],
{
    reveal_strlit("-h");
    reveal_strlit("--help");
    reveal_strlit("help");
    reveal_strlit("list");
    reveal_strlit("snapshot");
    reveal_strlit("disable-internal");
    reveal_strlit("enable-internal");
    reveal_strlit("restore-internal");
    reveal_strlit("restore-display");
    reveal_strlit("redetect-displays");
    reveal_strlit("safe-reset");
    reveal_strlit("reset-safe");
    reveal_strlit("targets");
    reveal_strlit("guard");
    reveal_strlit("install-guard");
    reveal_strlit("uninstall-guard");
    reveal_strlit("watch");
    assert("help"@[0] != "list"@[0]);
    assert("disable-internal"@[0] != "restore-internal"@[0]);
    assert("safe-reset"@[0] != "reset-safe"@[0]);
    assert("guard"@[0] != "watch"@[0]);
    let all = command_words();
    assert("restore-display"@[0] != "enable-internal"@[0]);
    assert("restore-display"@[0] != "uninstall-guard"@[0]);
    assert("enable-internal"@[0] != "uninstall-guard"@[0]);
    assert(all[0] == "-h"@ && all[1] == "--help"@ && all[2] == "help"@ && all[3] == "list"@
        && all[4] == "snapshot"@ && all[5] == "disable-internal"@ && all[6] == "enable-internal"@
        && all[7] == "restore-internal"@ && all[8] == "restore-display"@ && all[9]
        == "redetect-displays"@ && all[10] == "safe-reset"@ && all[11] == "reset-safe"@ && all[12]
        == "targets"@ && all[13] == "guard"@ && all[14] == "install-guard"@ && all[15]
        == "uninstall-guard"@ && all[16] == "watch"@);
}

// ---------------------------------------------------------------------------
// guard.
// ---------------------------------------------------------------------------
proof fn lemma_guard_command(
    words: Seq<Seq<char>>,
    o: options::GuardOptionsView,
    t: Seq<ReplyView>,
)
    requires
        options::guard_given(
            words,
            options::guard_defaults(),
        ) == Ok::<options::GuardOptionsView, Seq<char>>(o)
            && o.mode == ActionMode::Execute,
    ensures
        asking::leads(
            |s: Seq<ReplyView>| command::guard_run(words, s),
            t,
            |s: Seq<ReplyView>| guard::guarded(o.reason, ActionMode::Execute, o.verbose, s),
            t,
        ),
        asking::carries(
            |s: Seq<ReplyView>| command::guard_run(words, s),
            t,
            |s: Seq<ReplyView>| guard::guarded(o.reason, ActionMode::Execute, o.verbose, s),
            t,
        ),
{
    let p = |s: Seq<ReplyView>| command::guard_run(words, s);
    let f = |s: Seq<ReplyView>| guard::guarded(o.reason, ActionMode::Execute, o.verbose, s);
    assert(t =~= t.skip(t.len() - t.len()));
    assert forall|j: int| 0 <= j <= t.len() && f(t.take(j)) is Asks implies asking::wanted(
        p(#[trigger] t.take(t.len() - t.len() + j)),
    ) == asking::wanted(f(t.take(j))) by {}
    asking::lemma_met_later(p, t, f, t);
}

/// The command `guard` leaves the panel alone only where the lid is closed or a
/// display is on.
pub proof fn guard_command_ends_darkness(
    words: Seq<Seq<char>>,
    o: options::GuardOptionsView,
    t: Seq<ReplyView>,
)
    requires
        options::guard_given(words, options::guard_defaults()) == Ok::<
            options::GuardOptionsView,
            Seq<char>,
        >(o),
        o.mode == ActionMode::Execute,
        command::guard_run(words, t) is Ends,
    ensures
        ({
            let p = |s: Seq<ReplyView>| command::guard_run(words, s);
            asking::met(p, t, recovery_laws::lid_closed()) || asking::met(
                p,
                t,
                guard_laws::display_on(),
            ) || recovery_laws::called_back(p, t)
        }),
{
    lemma_guard_command(words, o, t);
    guard_laws::guard_ends_darkness(o.reason, o.verbose, t);
}

// ---------------------------------------------------------------------------
// restore-internal.
// ---------------------------------------------------------------------------
proof fn lemma_restore_command(
    words: Seq<Seq<char>>,
    o: options::RestoreOptions,
    t: Seq<ReplyView>,
)
    requires
        options::restore_given(
            words,
            options::restore_defaults(),
        ) == Ok::<options::RestoreOptions, Seq<char>>(o)
            && o.mode == ActionMode::Execute,
    ensures
        asking::leads(
            |s: Seq<ReplyView>| command::restore_run(words, s),
            t,
            |s: Seq<ReplyView>| restore::internal_restored(
                o.display_id,
                ActionMode::Execute,
                o.fallback,
                true,
                restore::INTERNAL_RESTORE_ATTEMPTS,
                s,
            ),
            t,
        ),
        asking::carries(
            |s: Seq<ReplyView>| command::restore_run(words, s),
            t,
            |s: Seq<ReplyView>| restore::internal_restored(
                o.display_id,
                ActionMode::Execute,
                o.fallback,
                true,
                restore::INTERNAL_RESTORE_ATTEMPTS,
                s,
            ),
            t,
        ),
{
    let p = |s: Seq<ReplyView>| command::restore_run(words, s);
    let f = |s: Seq<ReplyView>| restore::internal_restored(
        o.display_id,
        ActionMode::Execute,
        o.fallback,
        true,
        restore::INTERNAL_RESTORE_ATTEMPTS,
        s,
    );
    assert(t =~= t.skip(t.len() - t.len()));
    assert forall|j: int| 0 <= j <= t.len() && f(t.take(j)) is Asks implies asking::wanted(
        p(#[trigger] t.take(t.len() - t.len() + j)),
    ) == asking::wanted(f(t.take(j))) by {}
    asking::lemma_met_later(p, t, f, t);
}

/// The command `restore-internal` detects the displays anew and then lights the
/// panel, and it ends well only after the panel said that it is active.
pub proof fn restore_command_calls_back(
    words: Seq<Seq<char>>,
    o: options::RestoreOptions,
    t: Seq<ReplyView>,
)
    requires
        options::restore_given(words, options::restore_defaults()) == Ok::<
            options::RestoreOptions,
            Seq<char>,
        >(o),
        o.mode == ActionMode::Execute,
        command::restore_run(words, t) is Ends,
    ensures
        ({
            let p = |s: Seq<ReplyView>| command::restore_run(words, s);
            &&& recovery_laws::called_back(p, t)
            &&& command::restore_run(words, t)->Ends_0 is Ok ==> asking::met(
                p,
                t,
                native_laws::active(),
            )
        }),
{
    lemma_restore_command(words, o, t);
    recovery_laws::restoring_calls_back(
        o.display_id,
        o.fallback,
        true,
        restore::INTERNAL_RESTORE_ATTEMPTS,
        t,
    );
}

proof fn lemma_fallback_follows_step(
    explicit: Option<u32>,
    verbose: bool,
    attempts: u32,
    x: Seq<ReplyView>,
    r1: Seq<ReplyView>,
    r2: Seq<ReplyView>,
)
    requires
        native::detected(ActionMode::Execute, verbose, x) matches Course::Ends(v, rest) && v is Ok
            && rest == r1,
        restore::internal_enabled(
            explicit,
            attempts,
            ActionMode::Execute,
            verbose,
            r1,
        ) matches Course::Ends(v, rest)
            && v is Ok && rest == r2,
    ensures
        restore::fallback_tried(ActionMode::Execute, verbose, r2) is Asks
            ==> asking::wanted(
                restore::internal_restored(
                    explicit,
                    ActionMode::Execute,
                    true,
                    verbose,
                    attempts,
                    x,
                ),
            ) == asking::wanted(restore::fallback_tried(ActionMode::Execute, verbose, r2)),
{
}

proof fn lemma_fallback_follows(
    explicit: Option<u32>,
    verbose: bool,
    attempts: u32,
    t: Seq<ReplyView>,
    t1: Seq<ReplyView>,
    t2: Seq<ReplyView>,
)
    requires
        native::detected(ActionMode::Execute, verbose, t) matches Course::Ends(v, rest) && v is Ok
            && rest == t1,
        restore::internal_enabled(
            explicit,
            attempts,
            ActionMode::Execute,
            verbose,
            t1,
        ) matches Course::Ends(v, rest)
            && v is Ok && rest == t2,
    ensures
        asking::leads(
            |s: Seq<ReplyView>| restore::internal_restored(
                explicit,
                ActionMode::Execute,
                true,
                verbose,
                attempts,
                s,
            ),
            t,
            |s: Seq<ReplyView>| restore::fallback_tried(ActionMode::Execute, verbose, s),
            t2,
        ),
        asking::carries(
            |s: Seq<ReplyView>| restore::internal_restored(
                explicit,
                ActionMode::Execute,
                true,
                verbose,
                attempts,
                s,
            ),
            t,
            |s: Seq<ReplyView>| restore::fallback_tried(ActionMode::Execute, verbose, s),
            t2,
        ),
{
    let p = |s: Seq<ReplyView>| restore::internal_restored(
        explicit,
        ActionMode::Execute,
        true,
        verbose,
        attempts,
        s,
    );
    let f = |s: Seq<ReplyView>| restore::fallback_tried(ActionMode::Execute, verbose, s);
    let q1 = |s: Seq<ReplyView>| native::detected(ActionMode::Execute, verbose, s);
    let q2 = |s: Seq<ReplyView>| restore::internal_enabled(
        explicit,
        attempts,
        ActionMode::Execute,
        verbose,
        s,
    );
    assert(asking::cuts(q1, t, t1)) by {
        front_laws::detected_shrinks(ActionMode::Execute, verbose, t);
        front_laws::detected_cut(ActionMode::Execute, verbose, t, 0);
        assert forall|j: int| 0 <= j <= t1.len() implies q1(
            #[trigger] t.take(t.len() - t1.len() + j),
        ) == Course::Ends(q1(t)->Ends_0, t1.take(j)) by {
            front_laws::detected_cut(ActionMode::Execute, verbose, t, j);
        }
    }
    assert(asking::cuts(q2, t1, t2)) by {
        front_laws::internal_enabled_shrinks(explicit, attempts, ActionMode::Execute, verbose, t1);
        front_laws::internal_enabled_cut(explicit, attempts, ActionMode::Execute, verbose, t1, 0);
        assert forall|j: int| 0 <= j <= t2.len() implies q2(
            #[trigger] t1.take(t1.len() - t2.len() + j),
        ) == Course::Ends(q2(t1)->Ends_0, t2.take(j)) by {
            front_laws::internal_enabled_cut(
                explicit,
                attempts,
                ActionMode::Execute,
                verbose,
                t1,
                j,
            );
        }
    }
    assert forall|x: Seq<ReplyView>, r1: Seq<ReplyView>, r2: Seq<ReplyView>| #[trigger]
        asking::step2(p, q1, q2, f, q1(t)->Ends_0, q2(t1)->Ends_0, x, r1, r2) by {
        if q1(x) == Course::Ends(q1(t)->Ends_0, r1) && q2(r1) == Course::Ends(q2(t1)->Ends_0, r2) {
            lemma_fallback_follows_step(explicit, verbose, attempts, x, r1, r2);
        }
    }
    asking::lemma_behind2(p, q1, q2, f, t, t1, t2);
}

proof fn lemma_fallback_switches_step(
    verbose: bool,
    id: Seq<char>,
    x: Seq<ReplyView>,
    r1: Seq<ReplyView>,
)
    requires
        files::value_read("internal_id"@, x) matches Course::Ends(v, rest)
            && v == Ok::<Option<Seq<char>>, Seq<char>>(Some(id)) && rest == r1,
    ensures
        commands::placer_switched(id, true, ActionMode::Execute, verbose, r1) is Asks
            ==> asking::wanted(restore::fallback_tried(ActionMode::Execute, verbose, x)) == asking::wanted(
                commands::placer_switched(id, true, ActionMode::Execute, verbose, r1),
            ),
{
}

proof fn lemma_fallback_switches(
    verbose: bool,
    id: Seq<char>,
    t: Seq<ReplyView>,
    t1: Seq<ReplyView>,
)
    requires
        files::value_read("internal_id"@, t) matches Course::Ends(v, rest)
            && v == Ok::<Option<Seq<char>>, Seq<char>>(Some(id)) && rest == t1,
    ensures
        asking::leads(
            |s: Seq<ReplyView>| restore::fallback_tried(ActionMode::Execute, verbose, s),
            t,
            |s: Seq<ReplyView>| commands::placer_switched(
                id,
                true,
                ActionMode::Execute,
                verbose,
                s,
            ),
            t1,
        ),
        asking::carries(
            |s: Seq<ReplyView>| restore::fallback_tried(ActionMode::Execute, verbose, s),
            t,
            |s: Seq<ReplyView>| commands::placer_switched(
                id,
                true,
                ActionMode::Execute,
                verbose,
                s,
            ),
            t1,
        ),
{
    let p = |s: Seq<ReplyView>| restore::fallback_tried(ActionMode::Execute, verbose, s);
    let f = |s: Seq<ReplyView>| commands::placer_switched(
        id,
        true,
        ActionMode::Execute,
        verbose,
        s,
    );
    let q1 = |s: Seq<ReplyView>| files::value_read("internal_id"@, s);
    assert(asking::cuts(q1, t, t1)) by {
        front_laws::value_read_shrinks("internal_id"@, t);
        front_laws::value_read_cut("internal_id"@, t, 0);
        assert forall|j: int| 0 <= j <= t1.len() implies q1(
            #[trigger] t.take(t.len() - t1.len() + j),
        ) == Course::Ends(q1(t)->Ends_0, t1.take(j)) by {
            front_laws::value_read_cut("internal_id"@, t, j);
        }
    }
    assert forall|x: Seq<ReplyView>, r1: Seq<ReplyView>| #[trigger]
        asking::step1(p, q1, f, q1(t)->Ends_0, x, r1) by {
        if q1(x) == Course::Ends(q1(t)->Ends_0, r1) {
            lemma_fallback_switches_step(verbose, id, x, r1);
        }
    }
    asking::lemma_behind1(p, q1, f, t, t1);
}

/// Where the fallback is asked for and the state file names the panel's id, the
/// panel is switched on by that id as well.
pub proof fn fallback_switches_the_panel_on(verbose: bool, id: Seq<char>, t: Seq<ReplyView>)
    requires
        restore::fallback_tried(ActionMode::Execute, verbose, t) is Ends,
        files::value_read("internal_id"@, t) matches Course::Ends(r, _) && r == Ok::<
            Option<Seq<char>>,
            Seq<char>,
        >(Some(id)),
    ensures
        ({
            let p = |s: Seq<ReplyView>| restore::fallback_tried(ActionMode::Execute, verbose, s);
            &&& asking::met(p, t, switching_laws::switched(id, true))
            &&& restore::fallback_tried(ActionMode::Execute, verbose, t)->Ends_0 is Ok
                ==> asking::met(p, t, switching_laws::switched_well(id, true))
        }),
{
    let t1 = files::value_read("internal_id"@, t)->Ends_1;
    lemma_fallback_switches(verbose, id, t, t1);
    switching_laws::switching_runs_the_command(id, true, verbose, t1);
}

/// A restore with the fallback that ends well has come to it.
pub proof fn restoring_comes_to_the_fallback(
    explicit: Option<u32>,
    verbose: bool,
    attempts: u32,
    t: Seq<ReplyView>,
) -> (s: Seq<ReplyView>)
    requires
        restore::internal_restored(explicit, ActionMode::Execute, true, verbose, attempts, t)
            matches Course::Ends(r, _) && r is Ok,
    ensures
        restore::fallback_tried(ActionMode::Execute, verbose, s) is Ends,
        asking::carries(
            |x: Seq<ReplyView>|
                restore::internal_restored(
                    explicit,
                    ActionMode::Execute,
                    true,
                    verbose,
                    attempts,
                    x,
                ),
            t,
            |x: Seq<ReplyView>| restore::fallback_tried(ActionMode::Execute, verbose, x),
            s,
        ),
{
    let t1 = native::detected(ActionMode::Execute, verbose, t)->Ends_1;
    let t2 = restore::internal_enabled(
        explicit,
        attempts,
        ActionMode::Execute,
        verbose,
        t1,
    )->Ends_1;
    lemma_fallback_follows(explicit, verbose, attempts, t, t1, t2);
    t2
}

// ---------------------------------------------------------------------------
// restore-display.
// ---------------------------------------------------------------------------
proof fn lemma_display_command(
    words: Seq<Seq<char>>,
    o: options::RestoreDisplayOptions,
    id: u32,
    t: Seq<ReplyView>,
)
    requires
        options::restore_display_given(
            words,
            options::restore_display_defaults(),
        ) == Ok::<options::RestoreDisplayOptions, Seq<char>>(o)
            && o.mode == ActionMode::Execute && o.display_id == Some(id),
    ensures
        asking::leads(
            |s: Seq<ReplyView>| command::restore_display_run(words, s),
            t,
            |s: Seq<ReplyView>| restore::number_restored(id, ActionMode::Execute, true, s),
            t,
        ),
        asking::carries(
            |s: Seq<ReplyView>| command::restore_display_run(words, s),
            t,
            |s: Seq<ReplyView>| restore::number_restored(id, ActionMode::Execute, true, s),
            t,
        ),
{
    let p = |s: Seq<ReplyView>| command::restore_display_run(words, s);
    let f = |s: Seq<ReplyView>| restore::number_restored(id, ActionMode::Execute, true, s);
    assert(t =~= t.skip(t.len() - t.len()));
    assert forall|j: int| 0 <= j <= t.len() && f(t.take(j)) is Asks implies asking::wanted(
        p(#[trigger] t.take(t.len() - t.len() + j)),
    ) == asking::wanted(f(t.take(j))) by {}
    asking::lemma_met_later(p, t, f, t);
}

proof fn lemma_display_detects(
    id: u32,
    t: Seq<ReplyView>,
)
    ensures
        asking::leads(
            |s: Seq<ReplyView>| restore::number_restored(id, ActionMode::Execute, true, s),
            t,
            |s: Seq<ReplyView>| native::detected(ActionMode::Execute, true, s),
            t,
        ),
        asking::carries(
            |s: Seq<ReplyView>| restore::number_restored(id, ActionMode::Execute, true, s),
            t,
            |s: Seq<ReplyView>| native::detected(ActionMode::Execute, true, s),
            t,
        ),
{
    let p = |s: Seq<ReplyView>| restore::number_restored(id, ActionMode::Execute, true, s);
    let f = |s: Seq<ReplyView>| native::detected(ActionMode::Execute, true, s);
    assert(t =~= t.skip(t.len() - t.len()));
    assert forall|j: int| 0 <= j <= t.len() && f(t.take(j)) is Asks implies asking::wanted(
        p(#[trigger] t.take(t.len() - t.len() + j)),
    ) == asking::wanted(f(t.take(j))) by {}
    asking::lemma_met_later(p, t, f, t);
}

proof fn lemma_display_lights_step(
    id: u32,
    x: Seq<ReplyView>,
    r1: Seq<ReplyView>,
)
    requires
        native::detected(ActionMode::Execute, true, x) matches Course::Ends(v, rest) && v is Ok
            && rest == r1,
    ensures
        native::native_switched(id, true, ActionMode::Execute, true, r1) is Asks
            ==> asking::wanted(restore::number_restored(id, ActionMode::Execute, true, x)) == asking::wanted(
                native::native_switched(id, true, ActionMode::Execute, true, r1),
            ),
{
}

proof fn lemma_display_lights(
    id: u32,
    t: Seq<ReplyView>,
    t1: Seq<ReplyView>,
)
    requires
        native::detected(ActionMode::Execute, true, t) matches Course::Ends(v, rest) && v is Ok
            && rest == t1,
    ensures
        asking::leads(
            |s: Seq<ReplyView>| restore::number_restored(id, ActionMode::Execute, true, s),
            t,
            |s: Seq<ReplyView>| native::native_switched(id, true, ActionMode::Execute, true, s),
            t1,
        ),
        asking::carries(
            |s: Seq<ReplyView>| restore::number_restored(id, ActionMode::Execute, true, s),
            t,
            |s: Seq<ReplyView>| native::native_switched(id, true, ActionMode::Execute, true, s),
            t1,
        ),
{
    let p = |s: Seq<ReplyView>| restore::number_restored(id, ActionMode::Execute, true, s);
    let f = |s: Seq<ReplyView>| native::native_switched(id, true, ActionMode::Execute, true, s);
    let q1 = |s: Seq<ReplyView>| native::detected(ActionMode::Execute, true, s);
    assert(asking::cuts(q1, t, t1)) by {
        front_laws::detected_shrinks(ActionMode::Execute, true, t);
        front_laws::detected_cut(ActionMode::Execute, true, t, 0);
        assert forall|j: int| 0 <= j <= t1.len() implies q1(
            #[trigger] t.take(t.len() - t1.len() + j),
        ) == Course::Ends(q1(t)->Ends_0, t1.take(j)) by {
            front_laws::detected_cut(ActionMode::Execute, true, t, j);
        }
    }
    assert forall|x: Seq<ReplyView>, r1: Seq<ReplyView>| #[trigger]
        asking::step1(p, q1, f, q1(t)->Ends_0, x, r1) by {
        if q1(x) == Course::Ends(q1(t)->Ends_0, r1) {
            lemma_display_lights_step(id, x, r1);
        }
    }
    asking::lemma_behind1(p, q1, f, t, t1);
}

/// The command `restore-display` needs a number. It detects the displays anew and
/// switches the display of that number on, and it ends well only where that was
/// granted.
pub proof fn display_command_switches_on(
    words: Seq<Seq<char>>,
    o: options::RestoreDisplayOptions,
    t: Seq<ReplyView>,
)
    requires
        options::restore_display_given(words, options::restore_display_defaults()) == Ok::<
            options::RestoreDisplayOptions,
            Seq<char>,
        >(o),
        o.mode == ActionMode::Execute,
        command::restore_display_run(words, t) is Ends,
    ensures
        ({
            let p = |s: Seq<ReplyView>| command::restore_display_run(words, s);
            let r = command::restore_display_run(words, t)->Ends_0;
            match o.display_id {
                None => r is Err,
                Some(id) => {
                    &&& asking::met(p, t, recovery_laws::detection())
                    &&& asking::met(p, t, recovery_laws::detection_failed()) || asking::met(
                        p,
                        t,
                        restore_laws::tried(id),
                    )
                    &&& r is Ok ==> asking::met(p, t, switching_laws::configured_well(id))
                },
            }
        }),
{
    if let Some(id) = o.display_id {
        lemma_display_command(words, o, id, t);
        lemma_display_detects(id, t);
        recovery_laws::detecting_is_asked_for(true, t);
        if let Course::Ends(r, t1) = native::detected(ActionMode::Execute, true, t) {
            if r is Ok {
                lemma_display_lights(id, t, t1);
                switching_laws::native_switch_configures(id, true, t1);
            }
        }
    }
}

// ---------------------------------------------------------------------------
// redetect-displays, safe-reset.
// ---------------------------------------------------------------------------
proof fn lemma_redetect_command(
    words: Seq<Seq<char>>,
    o: options::RedetectOptions,
    t: Seq<ReplyView>,
)
    requires
        options::redetect_given(
            words,
            options::redetect_defaults(),
        ) == Ok::<options::RedetectOptions, Seq<char>>(o)
            && o.mode == ActionMode::Execute,
    ensures
        asking::leads(
            |s: Seq<ReplyView>| command::redetect_run(words, s),
            t,
            |s: Seq<ReplyView>| native::detected(ActionMode::Execute, true, s),
            t,
        ),
        asking::carries(
            |s: Seq<ReplyView>| command::redetect_run(words, s),
            t,
            |s: Seq<ReplyView>| native::detected(ActionMode::Execute, true, s),
            t,
        ),
{
    let p = |s: Seq<ReplyView>| command::redetect_run(words, s);
    let f = |s: Seq<ReplyView>| native::detected(ActionMode::Execute, true, s);
    assert(t =~= t.skip(t.len() - t.len()));
    assert forall|j: int| 0 <= j <= t.len() && f(t.take(j)) is Asks implies asking::wanted(
        p(#[trigger] t.take(t.len() - t.len() + j)),
    ) == asking::wanted(f(t.take(j))) by {}
    asking::lemma_met_later(p, t, f, t);
}

proof fn lemma_reset_command(
    words: Seq<Seq<char>>,
    o: options::ResetOptions,
    t: Seq<ReplyView>,
)
    requires
        options::reset_given(
            words,
            options::reset_defaults(),
        ) == Ok::<options::ResetOptions, Seq<char>>(o)
            && o.mode == ActionMode::Execute,
    ensures
        asking::leads(
            |s: Seq<ReplyView>| command::reset_run(words, s),
            t,
            |s: Seq<ReplyView>| guard::reset_done(ActionMode::Execute, true, s),
            t,
        ),
        asking::carries(
            |s: Seq<ReplyView>| command::reset_run(words, s),
            t,
            |s: Seq<ReplyView>| guard::reset_done(ActionMode::Execute, true, s),
            t,
        ),
{
    let p = |s: Seq<ReplyView>| command::reset_run(words, s);
    let f = |s: Seq<ReplyView>| guard::reset_done(ActionMode::Execute, true, s);
    assert(t =~= t.skip(t.len() - t.len()));
    assert forall|j: int| 0 <= j <= t.len() && f(t.take(j)) is Asks implies asking::wanted(
        p(#[trigger] t.take(t.len() - t.len() + j)),
    ) == asking::wanted(f(t.take(j))) by {}
    asking::lemma_met_later(p, t, f, t);
}

/// The commands `redetect-displays` and `safe-reset` detect the displays anew; the
/// first fails where that fails.
pub proof fn redetection_is_commanded(
    words: Seq<Seq<char>>,
    o: options::RedetectOptions,
    oo: options::ResetOptions,
    t: Seq<ReplyView>,
)
    requires
        o.mode == ActionMode::Execute,
        oo.mode == ActionMode::Execute,
    ensures
        options::redetect_given(words, options::redetect_defaults()) == Ok::<
            options::RedetectOptions,
            Seq<char>,
        >(o) && command::redetect_run(words, t) is Ends ==> {
            let p = |s: Seq<ReplyView>| command::redetect_run(words, s);
            &&& asking::met(p, t, recovery_laws::detection())
            &&& command::redetect_run(words, t)->Ends_0 is Err ==> asking::met(
                p,
                t,
                recovery_laws::detection_failed(),
            )
        },
        options::reset_given(words, options::reset_defaults()) == Ok::<
            options::ResetOptions,
            Seq<char>,
        >(oo) && command::reset_run(words, t) is Ends ==> asking::met(
            |s: Seq<ReplyView>| command::reset_run(words, s),
            t,
            recovery_laws::detection(),
        ),
{
    if options::redetect_given(words, options::redetect_defaults()) == Ok::<
        options::RedetectOptions,
        Seq<char>,
    >(o) && command::redetect_run(words, t) is Ends {
        lemma_redetect_command(words, o, t);
        recovery_laws::detecting_is_asked_for(true, t);
    }
    if options::reset_given(words, options::reset_defaults()) == Ok::<
        options::ResetOptions,
        Seq<char>,
    >(oo) && command::reset_run(words, t) is Ends {
        lemma_reset_command(words, oo, t);
        reset_laws::reset_switches_everything_on(true, t);
    }
}

// ---------------------------------------------------------------------------
// enable-internal.
// ---------------------------------------------------------------------------
proof fn lemma_enable_command_step(
    words: Seq<Seq<char>>,
    o: options::EnableOptionsView,
    id: Seq<char>,
    x: Seq<ReplyView>,
    r1: Seq<ReplyView>,
)
    requires
        options::enable_given(
            words,
            options::enable_defaults(),
        ) == Ok::<options::EnableOptionsView, Seq<char>>(o)
            && o.mode == ActionMode::Execute && o.id == Some(id),
        files::panel_remembered(id, None, None, x) matches Course::Ends(v, rest) && rest == r1,
    ensures
        commands::placer_switched(id, true, ActionMode::Execute, true, r1) is Asks
            ==> asking::wanted(command::enable_run(words, x)) == asking::wanted(
                commands::placer_switched(id, true, ActionMode::Execute, true, r1),
            ),
{
}

proof fn lemma_enable_command(
    words: Seq<Seq<char>>,
    o: options::EnableOptionsView,
    id: Seq<char>,
    t: Seq<ReplyView>,
    t1: Seq<ReplyView>,
)
    requires
        options::enable_given(
            words,
            options::enable_defaults(),
        ) == Ok::<options::EnableOptionsView, Seq<char>>(o)
            && o.mode == ActionMode::Execute && o.id == Some(id),
        files::panel_remembered(id, None, None, t) matches Course::Ends(v, rest) && rest == t1,
    ensures
        asking::leads(
            |s: Seq<ReplyView>| command::enable_run(words, s),
            t,
            |s: Seq<ReplyView>| commands::placer_switched(id, true, ActionMode::Execute, true, s),
            t1,
        ),
        asking::carries(
            |s: Seq<ReplyView>| command::enable_run(words, s),
            t,
            |s: Seq<ReplyView>| commands::placer_switched(id, true, ActionMode::Execute, true, s),
            t1,
        ),
{
    let p = |s: Seq<ReplyView>| command::enable_run(words, s);
    let f = |s: Seq<ReplyView>| commands::placer_switched(id, true, ActionMode::Execute, true, s);
    let q1 = |s: Seq<ReplyView>| files::panel_remembered(id, None, None, s);
    assert(asking::cuts(q1, t, t1)) by {
        front_laws::panel_remembered_shrinks(id, None, None, t);
        front_laws::panel_remembered_cut(id, None, None, t, 0);
        assert forall|j: int| 0 <= j <= t1.len() implies q1(
            #[trigger] t.take(t.len() - t1.len() + j),
        ) == Course::Ends(q1(t)->Ends_0, t1.take(j)) by {
            front_laws::panel_remembered_cut(id, None, None, t, j);
        }
    }
    assert forall|x: Seq<ReplyView>, r1: Seq<ReplyView>| #[trigger]
        asking::step1(p, q1, f, q1(t)->Ends_0, x, r1) by {
        if q1(x) == Course::Ends(q1(t)->Ends_0, r1) {
            lemma_enable_command_step(words, o, id, x, r1);
        }
    }
    asking::lemma_behind1(p, q1, f, t, t1);
}

proof fn lemma_enable_remembered_step(
    words: Seq<Seq<char>>,
    o: options::EnableOptionsView,
    id: Seq<char>,
    x: Seq<ReplyView>,
    r1: Seq<ReplyView>,
    r2: Seq<ReplyView>,
)
    requires
        options::enable_given(
            words,
            options::enable_defaults(),
        ) == Ok::<options::EnableOptionsView, Seq<char>>(o)
            && o.mode == ActionMode::Execute && o.id is None,
        files::value_read("internal_id"@, x) matches Course::Ends(v, rest)
            && v == Ok::<Option<Seq<char>>, Seq<char>>(Some(id)) && rest == r1,
        files::panel_remembered(id, None, None, r1) matches Course::Ends(v, rest) && rest == r2,
    ensures
        commands::placer_switched(id, true, ActionMode::Execute, true, r2) is Asks
            ==> asking::wanted(command::enable_run(words, x)) == asking::wanted(
                commands::placer_switched(id, true, ActionMode::Execute, true, r2),
            ),
{
}

proof fn lemma_enable_remembered(
    words: Seq<Seq<char>>,
    o: options::EnableOptionsView,
    id: Seq<char>,
    t: Seq<ReplyView>,
    t1: Seq<ReplyView>,
    t2: Seq<ReplyView>,
)
    requires
        options::enable_given(
            words,
            options::enable_defaults(),
        ) == Ok::<options::EnableOptionsView, Seq<char>>(o)
            && o.mode == ActionMode::Execute && o.id is None,
        files::value_read("internal_id"@, t) matches Course::Ends(v, rest)
            && v == Ok::<Option<Seq<char>>, Seq<char>>(Some(id)) && rest == t1,
        files::panel_remembered(id, None, None, t1) matches Course::Ends(v, rest) && rest == t2,
    ensures
        asking::leads(
            |s: Seq<ReplyView>| command::enable_run(words, s),
            t,
            |s: Seq<ReplyView>| commands::placer_switched(id, true, ActionMode::Execute, true, s),
            t2,
        ),
        asking::carries(
            |s: Seq<ReplyView>| command::enable_run(words, s),
            t,
            |s: Seq<ReplyView>| commands::placer_switched(id, true, ActionMode::Execute, true, s),
            t2,
        ),
{
    let p = |s: Seq<ReplyView>| command::enable_run(words, s);
    let f = |s: Seq<ReplyView>| commands::placer_switched(id, true, ActionMode::Execute, true, s);
    let q1 = |s: Seq<ReplyView>| files::value_read("internal_id"@, s);
    let q2 = |s: Seq<ReplyView>| files::panel_remembered(id, None, None, s);
    assert(asking::cuts(q1, t, t1)) by {
        front_laws::value_read_shrinks("internal_id"@, t);
        front_laws::value_read_cut("internal_id"@, t, 0);
        assert forall|j: int| 0 <= j <= t1.len() implies q1(
            #[trigger] t.take(t.len() - t1.len() + j),
        ) == Course::Ends(q1(t)->Ends_0, t1.take(j)) by {
            front_laws::value_read_cut("internal_id"@, t, j);
        }
    }
    assert(asking::cuts(q2, t1, t2)) by {
        front_laws::panel_remembered_shrinks(id, None, None, t1);
        front_laws::panel_remembered_cut(id, None, None, t1, 0);
        assert forall|j: int| 0 <= j <= t2.len() implies q2(
            #[trigger] t1.take(t1.len() - t2.len() + j),
        ) == Course::Ends(q2(t1)->Ends_0, t2.take(j)) by {
            front_laws::panel_remembered_cut(id, None, None, t1, j);
        }
    }
    assert forall|x: Seq<ReplyView>, r1: Seq<ReplyView>, r2: Seq<ReplyView>| #[trigger]
        asking::step2(p, q1, q2, f, q1(t)->Ends_0, q2(t1)->Ends_0, x, r1, r2) by {
        if q1(x) == Course::Ends(q1(t)->Ends_0, r1) && q2(r1) == Course::Ends(q2(t1)->Ends_0, r2) {
            lemma_enable_remembered_step(words, o, id, x, r1, r2);
        }
    }
    asking::lemma_behind2(p, q1, q2, f, t, t1, t2);
}

/// The command `enable-internal` switches the panel on by the id that it was given,
/// or else by the one that the state file names, and fails where there is none. It
/// ends well only where the switch does.
pub proof fn enable_command_switches_on(
    words: Seq<Seq<char>>,
    o: options::EnableOptionsView,
    t: Seq<ReplyView>,
)
    requires
        options::enable_given(words, options::enable_defaults()) == Ok::<
            options::EnableOptionsView,
            Seq<char>,
        >(o),
        o.mode == ActionMode::Execute,
        command::enable_run(words, t) is Ends,
    ensures
        ({
            let p = |s: Seq<ReplyView>| command::enable_run(words, s);
            let r = command::enable_run(words, t)->Ends_0;
            let known = match o.id {
                Some(id) => Some(id),
                None => match effect::as_file(t[0]) {
                    Ok(file) => state::state_value(state::file_text(file), "internal_id"@),
                    Err(_) => None,
                },
            };
            match known {
                None => r is Err,
                Some(id) => {
                    &&& asking::met(p, t, switching_laws::switched(id, true))
                    &&& r is Ok ==> asking::met(p, t, switching_laws::switched_well(id, true))
                },
            }
        }),
{
    match o.id {
        Some(id) => {
            let t1 = files::panel_remembered(id, None, None, t)->Ends_1;
            lemma_enable_command(words, o, id, t, t1);
            switching_laws::switching_runs_the_command(id, true, true, t1);
        },
        None => {
            if let Course::Ends(r, t1) = files::value_read("internal_id"@, t) {
                if let Ok(found) = r {
                    if let Some(id) = found {
                        let t2 = files::panel_remembered(id, None, None, t1)->Ends_1;
                        lemma_enable_remembered(words, o, id, t, t1, t2);
                        switching_laws::switching_runs_the_command(id, true, true, t2);
                    }
                }
            }
        },
    }
}

// ---------------------------------------------------------------------------
// disable-internal.
// ---------------------------------------------------------------------------
proof fn lemma_disable_command(
    words: Seq<Seq<char>>,
    o: options::DisableOptionsView,
    t: Seq<ReplyView>,
)
    requires
        options::disable_given(
            words,
            options::disable_defaults(),
        ) == Ok::<options::DisableOptionsView, Seq<char>>(o)
            && o.mode == ActionMode::Execute,
    ensures
        asking::leads(
            |s: Seq<ReplyView>| command::disable_run(words, s),
            t,
            |s: Seq<ReplyView>| switching::internal_disabled(
                o.condition,
                ActionMode::Execute,
                o.force,
                true,
                true,
                s,
            ),
            t,
        ),
        asking::carries(
            |s: Seq<ReplyView>| command::disable_run(words, s),
            t,
            |s: Seq<ReplyView>| switching::internal_disabled(
                o.condition,
                ActionMode::Execute,
                o.force,
                true,
                true,
                s,
            ),
            t,
        ),
{
    let p = |s: Seq<ReplyView>| command::disable_run(words, s);
    let f = |s: Seq<ReplyView>| switching::internal_disabled(
        o.condition,
        ActionMode::Execute,
        o.force,
        true,
        true,
        s,
    );
    assert(t =~= t.skip(t.len() - t.len()));
    assert forall|j: int| 0 <= j <= t.len() && f(t.take(j)) is Asks implies asking::wanted(
        p(#[trigger] t.take(t.len() - t.len() + j)),
    ) == asking::wanted(f(t.take(j))) by {}
    asking::lemma_met_later(p, t, f, t);
}

/// The command `disable-internal` is a request to turn the panel off, under the
/// condition and with the force that the words give.
pub proof fn disable_command_turns_off(
    words: Seq<Seq<char>>,
    o: options::DisableOptionsView,
    t: Seq<ReplyView>,
)
    requires
        options::disable_given(words, options::disable_defaults()) == Ok::<
            options::DisableOptionsView,
            Seq<char>,
        >(o),
        o.mode == ActionMode::Execute,
    ensures
        asking::carries(
            |s: Seq<ReplyView>| command::disable_run(words, s),
            t,
            |s: Seq<ReplyView>|
                switching::internal_disabled(
                    o.condition,
                    ActionMode::Execute,
                    o.force,
                    true,
                    true,
                    s,
                ),
            t,
        ),
{
    lemma_disable_command(words, o, t);
}

// ---------------------------------------------------------------------------
// targets.
// ---------------------------------------------------------------------------
/// The file of saved targets was removed.
pub open spec fn targets_removed() -> spec_fn(EffectView, ReplyView) -> bool {
    |e: EffectView, r: ReplyView|
        e == EffectView::RemoveFile(path::support_place().inside("targets"@))
}

/// The command `targets --clear` removes the file of saved targets, and ends well
/// just where the file is gone or was not there.
pub proof fn targets_command_clears(
    words: Seq<Seq<char>>,
    o: options::TargetsOptions,
    t: Seq<ReplyView>,
)
    requires
        options::targets_given(words, options::targets_defaults()) == Ok::<
            options::TargetsOptions,
            Seq<char>,
        >(o),
        o.clear,
        command::targets_run(words, t) is Ends,
    ensures
        asking::met(|s: Seq<ReplyView>| command::targets_run(words, s), t, targets_removed()),
        command::targets_run(words, t)->Ends_0 is Ok <==> (t[0] matches ReplyView::Done(done) && (
        done is Ok || done->Err_0.missing)),
{
    let p = |s: Seq<ReplyView>| command::targets_run(words, s);
    assert(t.take(0).len() == 0);
    assert(asking::meets(p, t, targets_removed(), 0));
}

/// What is switched on by its id is remembered as the panel first, where an id was
/// given.
pub proof fn enable_command_remembers(
    words: Seq<Seq<char>>,
    o: options::EnableOptionsView,
    id: Seq<char>,
    t: Seq<ReplyView>,
)
    requires
        options::enable_given(words, options::enable_defaults()) == Ok::<
            options::EnableOptionsView,
            Seq<char>,
        >(o),
        o.id == Some(id),
        files::panel_remembered(id, None, None, t) matches Course::Ends(_, _),
        t[0] matches ReplyView::Done(done) && done is Ok,
    ensures
        asking::met(
            |s: Seq<ReplyView>| command::enable_run(words, s),
            t,
            panel_kept(id),
        ),
{
    let body = state::panel_state(id, None, None);
    crate::file_laws::panel_state_names_the_panel(id);
    let p = |s: Seq<ReplyView>| command::enable_run(words, s);
    assert(t.take(1).skip(1).len() == 0);
    assert(t.take(1)[0] == t[0]);
    assert(path::support_place().inside("state"@).parts =~= crate::file_laws::own_file(
        "state"@,
    ).parts);
    assert(files::panel_remembered(id, None, None, t.take(1)) is Asks);
    assert(asking::meets(p, t, panel_kept(id), 1));
}

/// The state file was written, with the panel's id in it.
pub open spec fn panel_kept(id: Seq<char>) -> spec_fn(EffectView, ReplyView) -> bool {
    |e: EffectView, r: ReplyView|
        e == EffectView::WriteFile(
            crate::file_laws::own_file("state"@),
            "internal_id="@ + id + "\n"@,
        )
}

} // verus!
