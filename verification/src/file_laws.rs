//! What is kept in the program's own files, and where.

use vstd::prelude::*;

use crate::asking;
use crate::display::DisplayView;
use crate::effect;
use crate::effect::{Course, EffectView, ReplyView};
use crate::files;
use crate::front_laws;
use crate::number;
use crate::path;
use crate::path::FilePathView;
use crate::state;
use crate::state_laws;
use crate::target;
use crate::target::TargetView;
use crate::text;

verus! {

/// A file of the program's own.
pub open spec fn own_file(name: Seq<char>) -> FilePathView {
    FilePathView {
        at_home: true,
        parts: seq!["Library"@, "Application Support"@, "displayed"@, name],
    }
}

/// The log.
pub open spec fn log_file() -> FilePathView {
    FilePathView { at_home: true, parts: seq!["Library"@, "Logs"@, "displayed.log"@] }
}

proof fn lemma_own_file(name: Seq<char>)
    ensures
        path::support_place().inside(name) == own_file(name),
        path::logs_place().inside("displayed.log"@) == log_file(),
{
    assert(path::support_place().inside(name).parts =~= own_file(name).parts);
    assert(path::logs_place().inside("displayed.log"@).parts =~= log_file().parts);
}

// ---------------------------------------------------------------------------
// Reading and writing.
// ---------------------------------------------------------------------------
/// The file was written, and that went well.
pub open spec fn kept(name: Seq<char>, body: Seq<char>) -> spec_fn(EffectView, ReplyView) -> bool {
    |e: EffectView, r: ReplyView|
        e == EffectView::WriteFile(own_file(name), body) && (r matches ReplyView::Done(done)
            && done is Ok)
}

/// The file was removed, or was not there.
pub open spec fn dropped(name: Seq<char>) -> spec_fn(EffectView, ReplyView) -> bool {
    |e: EffectView, r: ReplyView|
        e == EffectView::RemoveFile(own_file(name)) && (r matches ReplyView::Done(done) && (done
            is Ok || done->Err_0.missing))
}

proof fn lemma_writing_writes_step(
    name: Seq<char>,
    body: Seq<char>,
    x: Seq<ReplyView>,
    r1: Seq<ReplyView>,
)
    requires
        effect::asks_done(
            EffectView::CreateDir(path::support_place()),
            x,
        ) matches Course::Ends(v, rest)
            && v is Ok && rest == r1,
    ensures
        effect::asks_done(
            EffectView::WriteFile(path::support_place().inside(name), body),
            r1,
        ) is Asks
            ==> asking::wanted(files::file_written(name, body, x)) == asking::wanted(
                effect::asks_done(
                    EffectView::WriteFile(path::support_place().inside(name), body),
                    r1,
                ),
            ),
{
}

proof fn lemma_writing_writes(
    name: Seq<char>,
    body: Seq<char>,
    t: Seq<ReplyView>,
    t1: Seq<ReplyView>,
)
    requires
        effect::asks_done(
            EffectView::CreateDir(path::support_place()),
            t,
        ) matches Course::Ends(v, rest)
            && v is Ok && rest == t1,
    ensures
        asking::leads(
            |s: Seq<ReplyView>| files::file_written(name, body, s),
            t,
            |s: Seq<ReplyView>| effect::asks_done(
                EffectView::WriteFile(path::support_place().inside(name), body),
                s,
            ),
            t1,
        ),
        asking::carries(
            |s: Seq<ReplyView>| files::file_written(name, body, s),
            t,
            |s: Seq<ReplyView>| effect::asks_done(
                EffectView::WriteFile(path::support_place().inside(name), body),
                s,
            ),
            t1,
        ),
{
    let p = |s: Seq<ReplyView>| files::file_written(name, body, s);
    let f = |s: Seq<ReplyView>| effect::asks_done(
        EffectView::WriteFile(path::support_place().inside(name), body),
        s,
    );
    let q1 = |s: Seq<ReplyView>| effect::asks_done(EffectView::CreateDir(path::support_place()), s);
    assert(asking::cuts(q1, t, t1)) by {
        front_laws::asks_done_shrinks(EffectView::CreateDir(path::support_place()), t);
        front_laws::asks_done_cut(EffectView::CreateDir(path::support_place()), t, 0);
        assert forall|j: int| 0 <= j <= t1.len() implies q1(
            #[trigger] t.take(t.len() - t1.len() + j),
        ) == Course::Ends(q1(t)->Ends_0, t1.take(j)) by {
            front_laws::asks_done_cut(EffectView::CreateDir(path::support_place()), t, j);
        }
    }
    assert forall|x: Seq<ReplyView>, r1: Seq<ReplyView>| #[trigger]
        asking::step1(p, q1, f, q1(t)->Ends_0, x, r1) by {
        if q1(x) == Course::Ends(q1(t)->Ends_0, r1) {
            lemma_writing_writes_step(name, body, x, r1);
        }
    }
    asking::lemma_behind1(p, q1, f, t, t1);
}

/// Writing a file of the program's own ends well only where it was written.
pub proof fn writing_is_asked_for(name: Seq<char>, body: Seq<char>, t: Seq<ReplyView>)
    requires
        files::file_written(name, body, t) matches Course::Ends(r, _) && r is Ok,
    ensures
        asking::met(|s: Seq<ReplyView>| files::file_written(name, body, s), t, kept(name, body)),
{
    lemma_own_file(name);
    let t1 = t.skip(1);
    lemma_writing_writes(name, body, t, t1);
    let f = |s: Seq<ReplyView>|
        effect::asks_done(EffectView::WriteFile(path::support_place().inside(name), body), s);
    assert(t1.take(0).len() == 0);
    assert(asking::meets(f, t1, kept(name, body), 0));
    assert(asking::met(f, t1, kept(name, body)));
}

/// A file of the program's own is read from where it is written to. One that is
/// missing is no failure.
pub proof fn reading_is_asked_for(name: Seq<char>, t: Seq<ReplyView>)
    ensures
        t.len() == 0 ==> files::file_read(name, t) == Course::<
            Result<Option<Seq<char>>, Seq<char>>,
        >::Asks(EffectView::ReadFile(own_file(name))),
        t.len() > 0 ==> files::file_read(name, t) is Ends && files::file_read(name, t)->Ends_1
            == t.skip(1) && match t[0] {
            ReplyView::Text(Ok(body)) => files::file_read(name, t)->Ends_0 == Ok::<
                Option<Seq<char>>,
                Seq<char>,
            >(Some(body)),
            ReplyView::Text(Err(error)) => if error.missing {
                files::file_read(name, t)->Ends_0 == Ok::<Option<Seq<char>>, Seq<char>>(None)
            } else {
                files::file_read(name, t)->Ends_0 is Err
            },
            _ => files::file_read(name, t)->Ends_0 is Err,
        },
{
    lemma_own_file(name);
}

// ---------------------------------------------------------------------------
// The log.
// ---------------------------------------------------------------------------
/// The message was put into the log, as a line of its own.
pub open spec fn log_written(message: Seq<char>) -> spec_fn(EffectView, ReplyView) -> bool {
    |e: EffectView, r: ReplyView|
        e matches EffectView::AppendFile(place, line) && place == log_file() && exists|
            head: Seq<char>,
        |
            line == #[trigger] (head + message) + "\n"@
}

proof fn lemma_logging_appends_step(
    message: Seq<char>,
    stamp: Result<u64, Seq<char>>,
    x: Seq<ReplyView>,
    r1: Seq<ReplyView>,
    r2: Seq<ReplyView>,
)
    requires
        effect::asks_done(
            EffectView::CreateDir(path::logs_place()),
            x,
        ) matches Course::Ends(v, rest)
            && v is Ok && rest == r1,
        effect::asks_stamp(EffectView::Timestamp, r1) matches Course::Ends(v, rest) && v == stamp
            && rest == r2,
    ensures
        effect::asks_any(
            EffectView::AppendFile(
                path::logs_place().inside(files::EVENT_LOG_FILE_NAME@),
                files::log_line(match stamp { Ok(stamp) => stamp, Err(_) => 0 }, message),
            ),
            r2,
        ) is Asks
            ==> asking::wanted(files::logged(message, x)) == asking::wanted(
                effect::asks_any(
                    EffectView::AppendFile(
                        path::logs_place().inside(files::EVENT_LOG_FILE_NAME@),
                        files::log_line(match stamp { Ok(stamp) => stamp, Err(_) => 0 }, message),
                    ),
                    r2,
                ),
            ),
{
}

proof fn lemma_logging_appends(
    message: Seq<char>,
    stamp: Result<u64, Seq<char>>,
    t: Seq<ReplyView>,
    t1: Seq<ReplyView>,
    t2: Seq<ReplyView>,
)
    requires
        effect::asks_done(
            EffectView::CreateDir(path::logs_place()),
            t,
        ) matches Course::Ends(v, rest)
            && v is Ok && rest == t1,
        effect::asks_stamp(EffectView::Timestamp, t1) matches Course::Ends(v, rest) && v == stamp
            && rest == t2,
    ensures
        asking::leads(
            |s: Seq<ReplyView>| files::logged(message, s),
            t,
            |s: Seq<ReplyView>| effect::asks_any(
                EffectView::AppendFile(
                    path::logs_place().inside(files::EVENT_LOG_FILE_NAME@),
                    files::log_line(match stamp { Ok(stamp) => stamp, Err(_) => 0 }, message),
                ),
                s,
            ),
            t2,
        ),
        asking::carries(
            |s: Seq<ReplyView>| files::logged(message, s),
            t,
            |s: Seq<ReplyView>| effect::asks_any(
                EffectView::AppendFile(
                    path::logs_place().inside(files::EVENT_LOG_FILE_NAME@),
                    files::log_line(match stamp { Ok(stamp) => stamp, Err(_) => 0 }, message),
                ),
                s,
            ),
            t2,
        ),
{
    let p = |s: Seq<ReplyView>| files::logged(message, s);
    let f = |s: Seq<ReplyView>| effect::asks_any(
        EffectView::AppendFile(
            path::logs_place().inside(files::EVENT_LOG_FILE_NAME@),
            files::log_line(match stamp { Ok(stamp) => stamp, Err(_) => 0 }, message),
        ),
        s,
    );
    let q1 = |s: Seq<ReplyView>| effect::asks_done(EffectView::CreateDir(path::logs_place()), s);
    let q2 = |s: Seq<ReplyView>| effect::asks_stamp(EffectView::Timestamp, s);
    assert(asking::cuts(q1, t, t1)) by {
        front_laws::asks_done_shrinks(EffectView::CreateDir(path::logs_place()), t);
        front_laws::asks_done_cut(EffectView::CreateDir(path::logs_place()), t, 0);
        assert forall|j: int| 0 <= j <= t1.len() implies q1(
            #[trigger] t.take(t.len() - t1.len() + j),
        ) == Course::Ends(q1(t)->Ends_0, t1.take(j)) by {
            front_laws::asks_done_cut(EffectView::CreateDir(path::logs_place()), t, j);
        }
    }
    assert(asking::cuts(q2, t1, t2)) by {
        front_laws::asks_stamp_shrinks(EffectView::Timestamp, t1);
        front_laws::asks_stamp_cut(EffectView::Timestamp, t1, 0);
        assert forall|j: int| 0 <= j <= t2.len() implies q2(
            #[trigger] t1.take(t1.len() - t2.len() + j),
        ) == Course::Ends(q2(t1)->Ends_0, t2.take(j)) by {
            front_laws::asks_stamp_cut(EffectView::Timestamp, t1, j);
        }
    }
    assert forall|x: Seq<ReplyView>, r1: Seq<ReplyView>, r2: Seq<ReplyView>| #[trigger]
        asking::step2(p, q1, q2, f, q1(t)->Ends_0, q2(t1)->Ends_0, x, r1, r2) by {
        if q1(x) == Course::Ends(q1(t)->Ends_0, r1) && q2(r1) == Course::Ends(q2(t1)->Ends_0, r2) {
            lemma_logging_appends_step(message, stamp, x, r1, r2);
        }
    }
    asking::lemma_behind2(p, q1, q2, f, t, t1, t2);
}

/// Unless there is no place for it, a message gets into the log, whatever becomes
/// of the clock.
pub proof fn messages_get_into_the_log(message: Seq<char>, t: Seq<ReplyView>)
    requires
        files::logged(message, t) is Ends,
        t[0] matches ReplyView::Done(done) && done is Ok,
    ensures
        asking::met(|s: Seq<ReplyView>| files::logged(message, s), t, log_written(message)),
{
    lemma_own_file("state"@);
    let t1 = t.skip(1);
    let t2 = t1.skip(1);
    let stamp = effect::as_stamp(t1[0]);
    lemma_logging_appends(message, stamp, t, t1, t2);
    let at = match stamp {
        Ok(stamp) => stamp,
        Err(_) => 0,
    };
    let line = files::log_line(at, message);
    let f = |s: Seq<ReplyView>|
        effect::asks_any(
            EffectView::AppendFile(
                path::logs_place().inside(files::EVENT_LOG_FILE_NAME@),
                files::log_line(
                    match stamp {
                        Ok(stamp) => stamp,
                        Err(_) => 0,
                    },
                    message,
                ),
            ),
            s,
        );
    let head = number::dec(at as nat) + " "@;
    assert(line == (head + message) + "\n"@);
    assert(t2.take(0).len() == 0);
    assert(asking::meets(f, t2, log_written(message), 0));
    assert(asking::met(f, t2, log_written(message)));
}

// ---------------------------------------------------------------------------
// The state.
// ---------------------------------------------------------------------------
proof fn lemma_remembering_writes_step(
    seen: Seq<DisplayView>,
    file: Option<Seq<char>>,
    x: Seq<ReplyView>,
    r1: Seq<ReplyView>,
)
    requires
        files::file_read(files::STATE_FILE_NAME@, x) matches Course::Ends(v, rest)
            && v == Ok::<Option<Seq<char>>, Seq<char>>(file) && rest == r1,
    ensures
        files::file_written(files::STATE_FILE_NAME@, state::state_after(file, seen), r1) is Asks
            ==> asking::wanted(files::remembered(seen, x)) == asking::wanted(
                files::file_written(files::STATE_FILE_NAME@, state::state_after(file, seen), r1),
            ),
{
}

proof fn lemma_remembering_writes(
    seen: Seq<DisplayView>,
    file: Option<Seq<char>>,
    t: Seq<ReplyView>,
    t1: Seq<ReplyView>,
)
    requires
        files::file_read(files::STATE_FILE_NAME@, t) matches Course::Ends(v, rest)
            && v == Ok::<Option<Seq<char>>, Seq<char>>(file) && rest == t1,
    ensures
        asking::leads(
            |s: Seq<ReplyView>| files::remembered(seen, s),
            t,
            |s: Seq<ReplyView>| files::file_written(
                files::STATE_FILE_NAME@,
                state::state_after(file, seen),
                s,
            ),
            t1,
        ),
        asking::carries(
            |s: Seq<ReplyView>| files::remembered(seen, s),
            t,
            |s: Seq<ReplyView>| files::file_written(
                files::STATE_FILE_NAME@,
                state::state_after(file, seen),
                s,
            ),
            t1,
        ),
{
    let p = |s: Seq<ReplyView>| files::remembered(seen, s);
    let f = |s: Seq<ReplyView>| files::file_written(
        files::STATE_FILE_NAME@,
        state::state_after(file, seen),
        s,
    );
    let q1 = |s: Seq<ReplyView>| files::file_read(files::STATE_FILE_NAME@, s);
    assert(asking::cuts(q1, t, t1)) by {
        front_laws::file_read_shrinks(files::STATE_FILE_NAME@, t);
        front_laws::file_read_cut(files::STATE_FILE_NAME@, t, 0);
        assert forall|j: int| 0 <= j <= t1.len() implies q1(
            #[trigger] t.take(t.len() - t1.len() + j),
        ) == Course::Ends(q1(t)->Ends_0, t1.take(j)) by {
            front_laws::file_read_cut(files::STATE_FILE_NAME@, t, j);
        }
    }
    assert forall|x: Seq<ReplyView>, r1: Seq<ReplyView>| #[trigger]
        asking::step1(p, q1, f, q1(t)->Ends_0, x, r1) by {
        if q1(x) == Course::Ends(q1(t)->Ends_0, r1) {
            lemma_remembering_writes_step(seen, file, x, r1);
        }
    }
    asking::lemma_behind1(p, q1, f, t, t1);
}

/// Remembering displays ends well only where the state file was written, with the
/// displays that it named before, each of those that were seen among them.
pub proof fn remembering_writes_the_state(seen: Seq<DisplayView>, t: Seq<ReplyView>) -> (known: Seq<
    DisplayView,
>)
    requires
        files::remembered(seen, t) matches Course::Ends(r, _) && r is Ok,
    ensures
        effect::as_file(t[0]) matches Ok(file) && known == state::all_upserted(
            state::remembered_in(state::file_text(file)),
            seen,
        ),
        asking::met(
            |s: Seq<ReplyView>| files::remembered(seen, s),
            t,
            kept("state"@, state::state_body(seen, known)),
        ),
{
    let file = effect::as_file(t[0])->Ok_0;
    let t1 = t.skip(1);
    lemma_remembering_writes(seen, file, t, t1);
    writing_is_asked_for(files::STATE_FILE_NAME@, state::state_after(file, seen), t1);
    state::all_upserted(state::remembered_in(state::file_text(file)), seen)
}

/// What is remembered of a display that was seen is that display, as away. What
/// fits none of those that were seen stays as it was, where it was.
pub proof fn seen_displays_are_remembered(known: Seq<DisplayView>, seen: Seq<DisplayView>)
    ensures
        state::all_upserted(known, seen).len() >= known.len(),
        state::all_upserted(known, seen).len() <= known.len() + seen.len(),
        seen.len() > 0 ==> state::all_upserted(known, seen).contains(
            (DisplayView {
                remembered_absent: true,
                enabled: Some(false),
                is_main: false,
                ..seen.last()
            }),
        ),
        forall|i: int|
            0 <= i < known.len() && (forall|j: int|
                0 <= j < seen.len() ==> !known[i].same_as(#[trigger] seen[j]))
                ==> #[trigger] state::all_upserted(known, seen)[i] == known[i],
    decreases seen.len(),
{
    if seen.len() > 0 {
        let before = state::all_upserted(known, seen.drop_last());
        let one = seen.last();
        let after = state::all_upserted(known, seen);
        seen_displays_are_remembered(known, seen.drop_last());
        lemma_known_at(before, one);
        let at = state::known_at(before, one);
        let away = DisplayView {
            remembered_absent: true,
            enabled: Some(false),
            is_main: false,
            ..one
        };
        assert(after == state::upserted(before, one));
        if at < before.len() {
            assert(after[at] == away);
        } else {
            assert(after.last() == away);
        }
        assert forall|i: int|
            0 <= i < known.len() && (forall|j: int|
                0 <= j < seen.len() ==> !known[i].same_as(#[trigger] seen[j])) implies #[trigger]
            after[i] == known[i] by {
            assert forall|j: int| 0 <= j < seen.drop_last().len() implies !known[i].same_as(
                #[trigger] seen.drop_last()[j],
            ) by {
                assert(seen.drop_last()[j] == seen[j]);
            }
            assert(before[i] == known[i]);
            assert(!known[i].same_as(seen[seen.len() - 1]));
        }
    }
}

proof fn lemma_known_at(displays: Seq<DisplayView>, one: DisplayView)
    ensures
        0 <= state::known_at(displays, one) <= displays.len(),
        state::known_at(displays, one) < displays.len() ==> displays[state::known_at(
            displays,
            one,
        )].same_as(one),
    decreases displays.len(),
{
    if displays.len() > 0 && !displays[0].same_as(one) {
        lemma_known_at(displays.skip(1), one);
    }
}

proof fn lemma_number_writes_step(
    n: u32,
    file: Option<Seq<char>>,
    body: Seq<char>,
    x: Seq<ReplyView>,
    r1: Seq<ReplyView>,
)
    requires
        state::state_with_number(state::file_text(file), n) == Some(body),
        files::file_read(files::STATE_FILE_NAME@, x) matches Course::Ends(v, rest)
            && v == Ok::<Option<Seq<char>>, Seq<char>>(file) && rest == r1,
    ensures
        files::file_written(files::STATE_FILE_NAME@, body, r1) is Asks
            ==> asking::wanted(files::number_remembered(n, x)) == asking::wanted(
                files::file_written(files::STATE_FILE_NAME@, body, r1),
            ),
{
}

proof fn lemma_number_writes(
    n: u32,
    file: Option<Seq<char>>,
    body: Seq<char>,
    t: Seq<ReplyView>,
    t1: Seq<ReplyView>,
)
    requires
        state::state_with_number(state::file_text(file), n) == Some(body),
        files::file_read(files::STATE_FILE_NAME@, t) matches Course::Ends(v, rest)
            && v == Ok::<Option<Seq<char>>, Seq<char>>(file) && rest == t1,
    ensures
        asking::leads(
            |s: Seq<ReplyView>| files::number_remembered(n, s),
            t,
            |s: Seq<ReplyView>| files::file_written(files::STATE_FILE_NAME@, body, s),
            t1,
        ),
        asking::carries(
            |s: Seq<ReplyView>| files::number_remembered(n, s),
            t,
            |s: Seq<ReplyView>| files::file_written(files::STATE_FILE_NAME@, body, s),
            t1,
        ),
{
    let p = |s: Seq<ReplyView>| files::number_remembered(n, s);
    let f = |s: Seq<ReplyView>| files::file_written(files::STATE_FILE_NAME@, body, s);
    let q1 = |s: Seq<ReplyView>| files::file_read(files::STATE_FILE_NAME@, s);
    assert(asking::cuts(q1, t, t1)) by {
        front_laws::file_read_shrinks(files::STATE_FILE_NAME@, t);
        front_laws::file_read_cut(files::STATE_FILE_NAME@, t, 0);
        assert forall|j: int| 0 <= j <= t1.len() implies q1(
            #[trigger] t.take(t.len() - t1.len() + j),
        ) == Course::Ends(q1(t)->Ends_0, t1.take(j)) by {
            front_laws::file_read_cut(files::STATE_FILE_NAME@, t, j);
        }
    }
    assert forall|x: Seq<ReplyView>, r1: Seq<ReplyView>| #[trigger]
        asking::step1(p, q1, f, q1(t)->Ends_0, x, r1) by {
        if q1(x) == Course::Ends(q1(t)->Ends_0, r1) {
            lemma_number_writes_step(n, file, body, x, r1);
        }
    }
    asking::lemma_behind1(p, q1, f, t, t1);
}

/// Remembering a number ends well only where the state file has a line for it, or
/// was written so that it names the number, on top of what it held.
pub proof fn remembering_a_number_keeps_it(n: u32, t: Seq<ReplyView>) -> (body: Seq<char>)
    requires
        files::number_remembered(n, t) matches Course::Ends(r, _) && r is Ok,
    ensures
        effect::as_file(t[0]) matches Ok(file) && (text::text_lines(
            state::file_text(file),
        ).contains("known_display_id="@ + number::dec(n as nat)) || {
            &&& state::numbers_in(body).contains(n)
            &&& state::file_text(file).is_prefix_of(body)
            &&& asking::met(
                |s: Seq<ReplyView>| files::number_remembered(n, s),
                t,
                kept("state"@, body),
            )
        }),
{
    let file = effect::as_file(t[0])->Ok_0;
    let t1 = t.skip(1);
    match state::state_with_number(state::file_text(file), n) {
        Some(body) => {
            lemma_number_writes(n, file, body, t, t1);
            writing_is_asked_for(files::STATE_FILE_NAME@, body, t1);
            state_laws::remembered_number_is_named(state::file_text(file), n);
            body
        },
        None => Seq::empty(),
    }
}

// ---------------------------------------------------------------------------
// Targets.
// ---------------------------------------------------------------------------
/// Saving targets ends well only where their file was written, or where there are
/// none, was removed.
pub proof fn saving_targets_is_asked_for(targets: Seq<TargetView>, t: Seq<ReplyView>)
    requires
        files::targets_saved(targets, t) matches Course::Ends(r, _) && r is Ok,
    ensures
        ({
            let p = |s: Seq<ReplyView>| files::targets_saved(targets, s);
            if targets.len() == 0 {
                asking::met(p, t, dropped("targets"@))
            } else {
                asking::met(p, t, kept("targets"@, target::targets_body(targets)))
            }
        }),
{
    let p = |s: Seq<ReplyView>| files::targets_saved(targets, s);
    lemma_own_file("targets"@);
    if targets.len() == 0 {
        assert(t.take(0).len() == 0);
        assert(asking::meets(p, t, dropped("targets"@), 0));
    } else {
        writing_is_asked_for("targets"@, target::targets_body(targets), t);
        lemma_saving_writes(targets, t);
    }
}

proof fn lemma_saving_writes(
    targets: Seq<TargetView>,
    t: Seq<ReplyView>,
)
    requires
        targets.len() > 0,
    ensures
        asking::leads(
            |s: Seq<ReplyView>| files::targets_saved(targets, s),
            t,
            |s: Seq<ReplyView>| files::file_written(
                files::TARGETS_FILE_NAME@,
                target::targets_body(targets),
                s,
            ),
            t,
        ),
        asking::carries(
            |s: Seq<ReplyView>| files::targets_saved(targets, s),
            t,
            |s: Seq<ReplyView>| files::file_written(
                files::TARGETS_FILE_NAME@,
                target::targets_body(targets),
                s,
            ),
            t,
        ),
{
    let p = |s: Seq<ReplyView>| files::targets_saved(targets, s);
    let f = |s: Seq<ReplyView>| files::file_written(
        files::TARGETS_FILE_NAME@,
        target::targets_body(targets),
        s,
    );
    assert(t =~= t.skip(t.len() - t.len()));
    assert forall|j: int| 0 <= j <= t.len() && f(t.take(j)) is Asks implies asking::wanted(
        p(#[trigger] t.take(t.len() - t.len() + j)),
    ) == asking::wanted(f(t.take(j))) by {}
    asking::lemma_met_later(p, t, f, t);
}

proof fn lemma_toggling_saves_step(
    d: DisplayView,
    one: TargetView,
    saved: Seq<TargetView>,
    x: Seq<ReplyView>,
    r1: Seq<ReplyView>,
)
    requires
        target::target_of(d) == Some(one),
        files::targets_loaded(x) matches Course::Ends(v, rest)
            && v == Ok::<Seq<TargetView>, Seq<char>>(saved) && rest == r1,
    ensures
        files::targets_saved(target::toggled(saved, one), r1) is Asks
            ==> asking::wanted(files::target_toggled(d, x)) == asking::wanted(
                files::targets_saved(target::toggled(saved, one), r1),
            ),
{
}

proof fn lemma_toggling_saves(
    d: DisplayView,
    one: TargetView,
    saved: Seq<TargetView>,
    t: Seq<ReplyView>,
    t1: Seq<ReplyView>,
)
    requires
        target::target_of(d) == Some(one),
        files::targets_loaded(t) matches Course::Ends(v, rest)
            && v == Ok::<Seq<TargetView>, Seq<char>>(saved) && rest == t1,
    ensures
        asking::leads(
            |s: Seq<ReplyView>| files::target_toggled(d, s),
            t,
            |s: Seq<ReplyView>| files::targets_saved(target::toggled(saved, one), s),
            t1,
        ),
        asking::carries(
            |s: Seq<ReplyView>| files::target_toggled(d, s),
            t,
            |s: Seq<ReplyView>| files::targets_saved(target::toggled(saved, one), s),
            t1,
        ),
{
    let p = |s: Seq<ReplyView>| files::target_toggled(d, s);
    let f = |s: Seq<ReplyView>| files::targets_saved(target::toggled(saved, one), s);
    let q1 = |s: Seq<ReplyView>| files::targets_loaded(s);
    assert(asking::cuts(q1, t, t1)) by {
        front_laws::targets_loaded_shrinks(t);
        front_laws::targets_loaded_cut(t, 0);
        assert forall|j: int| 0 <= j <= t1.len() implies q1(
            #[trigger] t.take(t.len() - t1.len() + j),
        ) == Course::Ends(q1(t)->Ends_0, t1.take(j)) by {
            front_laws::targets_loaded_cut(t, j);
        }
    }
    assert forall|x: Seq<ReplyView>, r1: Seq<ReplyView>| #[trigger]
        asking::step1(p, q1, f, q1(t)->Ends_0, x, r1) by {
        if q1(x) == Course::Ends(q1(t)->Ends_0, r1) {
            lemma_toggling_saves_step(d, one, saved, x, r1);
        }
    }
    asking::lemma_behind1(p, q1, f, t, t1);
}

/// A target is saved.
pub open spec fn is_saved(saved: Seq<TargetView>, one: TargetView) -> bool {
    exists|i: int| 0 <= i < saved.len() && (#[trigger] saved[i]).same_as(one)
}

/// Toggling a display as a target adds it where it is not saved, and takes one
/// entry out where it is; it tells which. It ends well only where what is left was
/// written, or where nothing is left, the file removed. A panel, and a display
/// without a stable id, cannot be a target.
pub proof fn toggling_a_target_saves(d: DisplayView, t: Seq<ReplyView>)
    requires
        files::target_toggled(d, t) is Ends,
    ensures
        files::target_toggled(d, t)->Ends_0 matches Ok(added) ==> {
            let p = |s: Seq<ReplyView>| files::target_toggled(d, s);
            let saved = target::targets_of_file(effect::as_file(t[0])->Ok_0);
            let one = target::target_of(d)->0;
            &&& !d.internal()
            &&& d.stable()
            &&& added <==> !is_saved(saved, one)
            &&& added ==> asking::met(
                p,
                t,
                kept("targets"@, target::targets_body(saved.push(one))),
            )
            &&& !added ==> exists|i: int|
                0 <= i < saved.len() && #[trigger] saved[i].same_as(one) && (if saved.len() == 1 {
                    asking::met(p, t, dropped("targets"@))
                } else {
                    asking::met(p, t, kept("targets"@, target::targets_body(saved.remove(i))))
                })
        },
        d.internal() || !d.stable() ==> files::target_toggled(d, t)->Ends_0 is Err,
{
    if let Ok(added) = files::target_toggled(d, t)->Ends_0 {
        let one = target::target_of(d)->0;
        let t1 = t.skip(1);
        let saved = target::targets_of_file(effect::as_file(t[0])->Ok_0);
        lemma_toggling_saves(d, one, saved, t, t1);
        saving_targets_is_asked_for(target::toggled(saved, one), t1);
        lemma_saved_at(saved, one);
        let at = target::saved_at(saved, one);
        if at < saved.len() {
            assert(saved[at].same_as(one));
            assert(saved.remove(at).len() == saved.len() - 1);
        }
    }
}

proof fn lemma_saved_at(saved: Seq<TargetView>, one: TargetView)
    ensures
        0 <= target::saved_at(saved, one) <= saved.len(),
        target::saved_at(saved, one) < saved.len() ==> saved[target::saved_at(
            saved,
            one,
        )].same_as(one),
        target::saved_at(saved, one) < saved.len() <==> is_saved(saved, one),
    decreases saved.len(),
{
    if saved.len() > 0 {
        if saved[0].same_as(one) {
            assert(is_saved(saved, one));
        } else {
            let rest = saved.skip(1);
            lemma_saved_at(rest, one);
            if is_saved(rest, one) {
                let i = choose|i: int| 0 <= i < rest.len() && (#[trigger] rest[i]).same_as(one);
                assert(saved[i + 1].same_as(one));
            }
            if is_saved(saved, one) {
                let i = choose|i: int| 0 <= i < saved.len() && (#[trigger] saved[i]).same_as(one);
                assert(rest[i - 1].same_as(one));
            }
        }
    }
}

proof fn lemma_toggling_remembers_step(
    d: DisplayView,
    one: TargetView,
    saved: Seq<TargetView>,
    x: Seq<ReplyView>,
    r1: Seq<ReplyView>,
    r2: Seq<ReplyView>,
)
    requires
        target::target_of(d) == Some(one) && !(target::saved_at(saved, one) < saved.len()),
        files::targets_loaded(x) matches Course::Ends(v, rest)
            && v == Ok::<Seq<TargetView>, Seq<char>>(saved) && rest == r1,
        files::targets_saved(target::toggled(saved, one), r1) matches Course::Ends(v, rest)
            && v is Ok && rest == r2,
    ensures
        files::remembered(seq![d], r2) is Asks
            ==> asking::wanted(files::target_toggled(d, x)) == asking::wanted(
                files::remembered(seq![d], r2),
            ),
{
}

proof fn lemma_toggling_remembers(
    d: DisplayView,
    one: TargetView,
    saved: Seq<TargetView>,
    t: Seq<ReplyView>,
    t1: Seq<ReplyView>,
    t2: Seq<ReplyView>,
)
    requires
        target::target_of(d) == Some(one) && !(target::saved_at(saved, one) < saved.len()),
        files::targets_loaded(t) matches Course::Ends(v, rest)
            && v == Ok::<Seq<TargetView>, Seq<char>>(saved) && rest == t1,
        files::targets_saved(target::toggled(saved, one), t1) matches Course::Ends(v, rest)
            && v is Ok && rest == t2,
    ensures
        asking::leads(
            |s: Seq<ReplyView>| files::target_toggled(d, s),
            t,
            |s: Seq<ReplyView>| files::remembered(seq![d], s),
            t2,
        ),
        asking::carries(
            |s: Seq<ReplyView>| files::target_toggled(d, s),
            t,
            |s: Seq<ReplyView>| files::remembered(seq![d], s),
            t2,
        ),
{
    let p = |s: Seq<ReplyView>| files::target_toggled(d, s);
    let f = |s: Seq<ReplyView>| files::remembered(seq![d], s);
    let q1 = |s: Seq<ReplyView>| files::targets_loaded(s);
    let q2 = |s: Seq<ReplyView>| files::targets_saved(target::toggled(saved, one), s);
    assert(asking::cuts(q1, t, t1)) by {
        front_laws::targets_loaded_shrinks(t);
        front_laws::targets_loaded_cut(t, 0);
        assert forall|j: int| 0 <= j <= t1.len() implies q1(
            #[trigger] t.take(t.len() - t1.len() + j),
        ) == Course::Ends(q1(t)->Ends_0, t1.take(j)) by {
            front_laws::targets_loaded_cut(t, j);
        }
    }
    assert(asking::cuts(q2, t1, t2)) by {
        front_laws::targets_saved_shrinks(target::toggled(saved, one), t1);
        front_laws::targets_saved_cut(target::toggled(saved, one), t1, 0);
        assert forall|j: int| 0 <= j <= t2.len() implies q2(
            #[trigger] t1.take(t1.len() - t2.len() + j),
        ) == Course::Ends(q2(t1)->Ends_0, t2.take(j)) by {
            front_laws::targets_saved_cut(target::toggled(saved, one), t1, j);
        }
    }
    assert forall|x: Seq<ReplyView>, r1: Seq<ReplyView>, r2: Seq<ReplyView>| #[trigger]
        asking::step2(p, q1, q2, f, q1(t)->Ends_0, q2(t1)->Ends_0, x, r1, r2) by {
        if q1(x) == Course::Ends(q1(t)->Ends_0, r1) && q2(r1) == Course::Ends(q2(t1)->Ends_0, r2) {
            lemma_toggling_remembers_step(d, one, saved, x, r1, r2);
        }
    }
    asking::lemma_behind2(p, q1, q2, f, t, t1, t2);
}

/// A display that was added as a target is remembered, so that it stays listed while
/// it is away.
pub proof fn added_targets_are_remembered(d: DisplayView, t: Seq<ReplyView>) -> (known: Seq<
    DisplayView,
>)
    requires
        files::target_toggled(d, t) matches Course::Ends(r, _) && r == Ok::<bool, Seq<char>>(true),
    ensures
        asking::met(
            |s: Seq<ReplyView>| files::target_toggled(d, s),
            t,
            kept("state"@, state::state_body(seq![d], known)),
        ),
        known.len() > 0,
{
    let one = target::target_of(d)->0;
    let t1 = t.skip(1);
    let saved = target::targets_of_file(effect::as_file(t[0])->Ok_0);
    let t2 = files::targets_saved(target::toggled(saved, one), t1)->Ends_1;
    lemma_toggling_remembers(d, one, saved, t, t1, t2);
    let known = remembering_writes_the_state(seq![d], t2);
    let before = state::remembered_in(state::file_text(effect::as_file(t2[0])->Ok_0));
    seen_displays_are_remembered(before, seq![d]);
    known
}

// ---------------------------------------------------------------------------
// The panel's id.
// ---------------------------------------------------------------------------
/// What is written for a panel that is known by its id alone names that id, and
/// nothing else.
pub proof fn panel_state_names_the_panel(id: Seq<char>)
    ensures
        state::panel_state(id, None, None) == "internal_id="@ + id + "\n"@,
{
    reveal_strlit("internal_id");
    reveal_strlit("=");
    reveal_strlit("internal_id=");
    assert("internal_id"@ + "="@ =~= "internal_id="@);
    assert(state::panel_state(id, None, None) =~= "internal_id="@ + id + "\n"@);
}

/// The numbers that a file names are the panel's, where it reads as one, and those
/// that are known, and no others.
pub proof fn numbers_come_from_the_file(panel: Option<Seq<char>>, known: Seq<Seq<char>>, n: u32)
    ensures
        crate::ids::increasing(state::numbers_named(panel, known)),
        state::numbers_named(panel, known).contains(n) <==> {
            ||| panel is Some && number::u32_value(panel->0) == Ok::<u32, number::NumberError>(n)
            ||| exists|i: int|
                0 <= i < known.len() && number::u32_value(#[trigger] known[i]) == Ok::<
                    u32,
                    number::NumberError,
                >(n)
        },
    decreases known.len(),
{
    if known.len() == 0 {
        let none = Seq::<u32>::empty();
        if let Some(value) = panel {
            if let Ok(m) = number::u32_value(value) {
                crate::ids::lemma_with_id(none, m);
            }
        }
    } else {
        let early = known.drop_last();
        let before = state::numbers_named(panel, early);
        numbers_come_from_the_file(panel, early, n);
        if let Ok(m) = number::u32_value(known.last()) {
            crate::ids::lemma_with_id(before, m);
        }
        if exists|i: int|
            0 <= i < early.len() && number::u32_value(#[trigger] early[i]) == Ok::<
                u32,
                number::NumberError,
            >(n) {
            let i = choose|i: int|
                0 <= i < early.len() && number::u32_value(#[trigger] early[i]) == Ok::<
                    u32,
                    number::NumberError,
                >(n);
            assert(known[i] == early[i]);
        }
        if exists|i: int|
            0 <= i < known.len() && number::u32_value(#[trigger] known[i]) == Ok::<
                u32,
                number::NumberError,
            >(n) {
            let i = choose|i: int|
                0 <= i < known.len() && number::u32_value(#[trigger] known[i]) == Ok::<
                    u32,
                    number::NumberError,
                >(n);
            if i < early.len() {
                assert(early[i] == known[i]);
            }
        }
        assert(known[known.len() - 1] == known.last());
    }
}

/// A value of the state file is what stands behind its key in the first line that
/// has that key.
pub proof fn first_value_counts(body: Seq<char>, key: Seq<char>, i: int, value: Seq<char>)
    requires
        0 <= i < text::text_lines(body).len(),
        text::parted(text::text_lines(body)[i], '=') == Some((key, value)),
        forall|j: int|
            0 <= j < i ==> !has_key(#[trigger] text::text_lines(body)[j], key),
    ensures
        state::state_value(body, key) == Some(value),
{
    lemma_first_value(text::text_lines(body), key, i, value);
}

/// The line is for the key.
pub open spec fn has_key(line: Seq<char>, key: Seq<char>) -> bool {
    text::parted(line, '=') matches Some(parts) && parts.0 == key
}

/// Without a line that has the key there is no value.
pub proof fn no_line_no_value(body: Seq<char>, key: Seq<char>)
    requires
        forall|j: int|
            0 <= j < text::text_lines(body).len() ==> !has_key(
                #[trigger] text::text_lines(body)[j],
                key,
            ),
    ensures
        state::state_value(body, key) is None,
        state::state_values(body, key).len() == 0,
{
    lemma_no_value(text::text_lines(body), key);
}

proof fn lemma_no_value(lines: Seq<Seq<char>>, key: Seq<char>)
    requires
        forall|j: int| 0 <= j < lines.len() ==> !has_key(#[trigger] lines[j], key),
    ensures
        state::values_of_lines(lines, key).len() == 0,
    decreases lines.len(),
{
    if lines.len() > 0 {
        let early = lines.drop_last();
        assert forall|j: int| 0 <= j < early.len() implies !has_key(#[trigger] early[j], key) by {
            assert(early[j] == lines[j]);
        }
        lemma_no_value(early, key);
        assert(!has_key(lines[lines.len() - 1], key));
    }
}

proof fn lemma_first_value(lines: Seq<Seq<char>>, key: Seq<char>, i: int, value: Seq<char>)
    requires
        0 <= i < lines.len(),
        text::parted(lines[i], '=') == Some((key, value)),
        forall|j: int| 0 <= j < i ==> !has_key(#[trigger] lines[j], key),
    ensures
        state::values_of_lines(lines, key).len() > 0,
        state::values_of_lines(lines, key)[0] == value,
    decreases lines.len(),
{
    let early = lines.drop_last();
    if i == lines.len() - 1 {
        assert forall|j: int| 0 <= j < early.len() implies !has_key(#[trigger] early[j], key) by {
            assert(early[j] == lines[j]);
        }
        lemma_no_value(early, key);
    } else {
        assert(early[i] == lines[i]);
        assert forall|j: int| 0 <= j < i implies !has_key(#[trigger] early[j], key) by {
            assert(early[j] == lines[j]);
        }
        lemma_first_value(early, key, i, value);
    }
}

} // verus!
