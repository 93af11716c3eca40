//! What is told, drawn and kept along the way.

use vstd::prelude::*;

use crate::agent_laws;
use crate::asking;
use crate::command;
use crate::commands;
use crate::display::DisplayView;
use crate::effect;
use crate::effect::{Course, EffectView, ReplyView};
use crate::file_laws;
use crate::files;
use crate::front_laws;
use crate::guard;
use crate::install;
use crate::interactive;
use crate::interactive::{Stage, UiView};
use crate::key_laws;
use crate::memory_laws;
use crate::number;
use crate::options;
use crate::placer;
use crate::placer::{CaptureView, ParsedView};
use crate::policy;
use crate::policy::{ActionMode, PowerAnswer, PowerEvent};
use crate::policy_laws;
use crate::restore;
use crate::screen;
use crate::snapshot;
use crate::state;
use crate::state_laws;
use crate::switching;
use crate::target;
use crate::target::TargetView;
use crate::text;
use crate::watch;

verus! {

proof fn lemma_parts(a: Seq<char>, part: Seq<char>, b: Seq<char>, whole: Seq<char>)
    requires
        whole =~= a + part + b,
    ensures
        agent_laws::within(part, whole),
{
    assert(whole == a + part + b);
}

proof fn lemma_more(part: Seq<char>, whole: Seq<char>, more: Seq<char>)
    requires
        agent_laws::within(part, whole),
    ensures
        agent_laws::within(part, whole + more),
{
    let (a, b) = choose|a: Seq<char>, b: Seq<char>| whole == #[trigger] (a + part + b);
    lemma_parts(a, part, b + more, whole + more);
}

proof fn lemma_at_the_end(a: Seq<char>, part: Seq<char>)
    ensures
        agent_laws::within(part, a + part),
{
    lemma_parts(a, part, Seq::empty(), a + part);
}

// ---------------------------------------------------------------------------
// Power.
// ---------------------------------------------------------------------------
/// A request to sleep is never refused, and just where the machine is about to
/// sleep the panel is restored first. What wakes the machine is passed on, and
/// nothing else is answered.
pub proof fn sleep_is_always_allowed(message: u32)
    ensures
        policy::power_reply(message) == PowerAnswer::RestoreAndAllow <==> message == 0xe000_0280,
        policy::power_reply(message) == PowerAnswer::Allow <==> message == 0xe000_0270,
        policy::power_reply(message) == PowerAnswer::Tell(PowerEvent::SystemWillPowerOn)
            <==> message
            == 0xe000_0320,
        policy::power_reply(message) == PowerAnswer::Tell(PowerEvent::SystemHasPoweredOn)
            <==> message == 0xe000_0300,
        policy::power_reply(message) == PowerAnswer::Ignore <==> message != 0xe000_0280 && message
            != 0xe000_0270 && message != 0xe000_0320 && message != 0xe000_0300,
{
}

// ---------------------------------------------------------------------------
// Texts about displays.
// ---------------------------------------------------------------------------
/// What is told of a display holds its ids and its type, and whether it is on.
pub proof fn brief_text_names_the_display(d: DisplayView)
    ensures
        d.persistent_id matches Some(id) ==> agent_laws::within(id, d.brief_text()),
        d.serial_id matches Some(id) ==> agent_laws::within(id, d.brief_text()),
        d.display_type matches Some(kind) ==> agent_laws::within(kind, d.brief_text()),
        d.enabled == Some(true) ==> agent_laws::within(" enabled:true"@, d.brief_text()),
        d.enabled == Some(false) ==> agent_laws::within(" enabled:false"@, d.brief_text()),
        d.is_main ==> agent_laws::within(" main"@, d.brief_text()),
{
    let e = Seq::<char>::empty();
    let a = text::text_or(d.persistent_id, "<no-persistent-id>"@);
    let b = text::text_or(d.serial_id, "<no-serial-id>"@);
    let c = text::text_or(d.display_type, "<unknown-type>"@);
    let on = crate::display::enabled_text(d.enabled);
    let m = if d.is_main {
        " main"@
    } else {
        ""@
    };
    let all = d.brief_text();
    assert(all == a + " "@ + b + " "@ + c + " enabled:"@ + on + m);
    lemma_parts(e, a, " "@ + b + " "@ + c + " enabled:"@ + on + m, all);
    lemma_parts(a + " "@, b, " "@ + c + " enabled:"@ + on + m, all);
    lemma_parts(a + " "@ + b + " "@, c, " enabled:"@ + on + m, all);
    lemma_parts(a + " "@ + b + " "@ + c, " enabled:"@ + on, m, all);
    lemma_parts(a + " "@ + b + " "@ + c + " enabled:"@ + on, m, e, all);
    reveal_strlit(" enabled:");
    reveal_strlit("true");
    reveal_strlit("false");
    reveal_strlit(" enabled:true");
    reveal_strlit(" enabled:false");
    assert(" enabled:"@ + "true"@ =~= " enabled:true"@);
    assert(" enabled:"@ + "false"@ =~= " enabled:false"@);
}

/// A target keeps what is known of its display: its three ids, its type and its
/// resolution. Only a display that is not the panel and has a stable id makes one.
pub proof fn targets_keep_what_is_known(d: DisplayView)
    ensures
        target::target_of(d) is Some <==> !d.internal() && d.stable(),
        target::target_of(d) matches Some(one) ==> one.persistent_id == d.persistent_id
            && one.serial_id == d.serial_id && one.contextual_id == d.contextual_id
            && one.display_type == d.display_type && one.resolution == d.resolution,
{
}

proof fn lemma_summary(one: TargetView)
    ensures
        agent_laws::within(one.label, one.summary_text()),
        agent_laws::within(text::text_or(one.contextual_id, "-"@), one.summary_text()),
        agent_laws::within(text::text_or(one.serial_id, "-"@), one.summary_text()),
        agent_laws::within(text::text_or(one.persistent_id, "-"@), one.summary_text()),
{
    let l = one.label;
    let c = text::text_or(one.contextual_id, "-"@);
    let s = text::text_or(one.serial_id, "-"@);
    let p = text::text_or(one.persistent_id, "-"@);
    let w1 = l + " ctx:"@;
    let w2 = w1 + c;
    let w3 = w2 + " serial:"@;
    let w4 = w3 + s;
    let w5 = w4 + " id:"@;
    assert(one.summary_text() == w5 + p);
    lemma_parts(Seq::empty(), l, Seq::empty(), l);
    lemma_more(l, l, " ctx:"@);
    lemma_more(l, w1, c);
    lemma_more(l, w2, " serial:"@);
    lemma_more(l, w3, s);
    lemma_more(l, w4, " id:"@);
    lemma_more(l, w5, p);
    lemma_at_the_end(w1, c);
    lemma_more(c, w2, " serial:"@);
    lemma_more(c, w3, s);
    lemma_more(c, w4, " id:"@);
    lemma_more(c, w5, p);
    lemma_at_the_end(w3, s);
    lemma_more(s, w4, " id:"@);
    lemma_more(s, w5, p);
    lemma_at_the_end(w5, p);
}

/// A saved target is listed as a display that is away and off, with the ids that
/// were saved.
pub proof fn saved_targets_are_away(one: TargetView)
    ensures
        ({
            let d = one.absent_display();
            &&& d.remembered_absent
            &&& d.enabled == Some(false)
            &&& !d.is_main
            &&& d.persistent_id == one.persistent_id
            &&& d.serial_id == one.serial_id
            &&& d.contextual_id == one.contextual_id
            &&& d.resolution == one.resolution
            &&& one.display_type is Some ==> d.display_type == one.display_type
        }),
        agent_laws::within(one.label, one.summary_text()),
        one.persistent_id matches Some(id) ==> agent_laws::within(id, one.summary_text()),
        one.serial_id matches Some(id) ==> agent_laws::within(id, one.summary_text()),
        one.contextual_id matches Some(id) ==> agent_laws::within(id, one.summary_text()),
{
    lemma_summary(one);
}

/// What is remembered of the panel is told where anything is, with all of it.
pub proof fn panel_is_told_of(
    id: Option<Seq<char>>,
    serial: Option<Seq<char>>,
    number: Option<Seq<char>>,
)
    ensures
        ({
            let told = state::panel_summary(id, serial, number);
            &&& told is None <==> id is None && serial is None && number is None
            &&& id is Some ==> agent_laws::within(id->0, told->0)
            &&& serial is Some ==> agent_laws::within(serial->0, told->0)
            &&& number is Some ==> agent_laws::within(number->0, told->0)
        }),
{
    if id is Some || serial is Some || number is Some {
        let e = Seq::<char>::empty();
        let i = text::text_or(id, "-"@);
        let s = text::text_or(serial, "-"@);
        let n = text::text_or(number, "-"@);
        let all = state::panel_summary(id, serial, number)->0;
        let h = "remembered internal id:"@;
        lemma_parts(h, i, " display_id:"@ + n + " serial:"@ + s, all);
        lemma_parts(h + i + " display_id:"@, n, " serial:"@ + s, all);
        lemma_parts(h + i + " display_id:"@ + n + " serial:"@, s, e, all);
    }
}

/// What is said of a switch that failed holds all that the command said.
pub proof fn failed_switch_is_explained(capture: CaptureView)
    ensures
        agent_laws::within(capture.status, commands::placer_failure(capture)),
        agent_laws::within(capture.stdout, commands::placer_failure(capture)),
        agent_laws::within(capture.stderr, commands::placer_failure(capture)),
{
    let h = "displayplacer failed with status "@;
    let e = Seq::<char>::empty();
    let all = commands::placer_failure(capture);
    lemma_parts(h, capture.status, ":\n"@ + capture.stdout + capture.stderr, all);
    lemma_parts(h + capture.status + ":\n"@, capture.stdout, capture.stderr, all);
    lemma_parts(h + capture.status + ":\n"@ + capture.stdout, capture.stderr, e, all);
}

// ---------------------------------------------------------------------------
// Lists.
// ---------------------------------------------------------------------------
/// The command that restores the arrangement is listed behind the displays, where
/// there is one.
pub proof fn restore_command_is_listed(parsed: ParsedView)
    ensures
        parsed.restore_command matches Some(restoring) ==> command::listing_lines(parsed).last()
            == restoring,
        parsed.displays.len() == 0 ==> command::listing_lines(parsed)[0]
            == "No displays parsed from displayplacer output."@,
{
    let more = match parsed.restore_command {
        Some(restoring) => seq![""@, "restore command:"@, restoring],
        None => Seq::empty(),
    };
    assert(command::listing_lines(parsed) == command::parsed_lines(parsed) + more);
    if let Some(restoring) = parsed.restore_command {
        assert(more.last() == restoring);
    }
}

proof fn lemma_target_is_told(targets: Seq<TargetView>, i: int)
    requires
        0 <= i < targets.len(),
    ensures
        command::numbered_targets(targets).len() == targets.len(),
        command::numbered_targets(targets)[i] == "["@ + number::dec(i as nat) + "] "@
            + targets[i].summary_text(),
    decreases targets.len(),
{
    let early = targets.drop_last();
    if i < early.len() {
        lemma_target_is_told(early, i);
        assert(early[i] == targets[i]);
        assert(command::numbered_targets(targets)[i] == command::numbered_targets(early)[i]);
    } else if early.len() > 0 {
        lemma_target_is_told(early, 0);
    } else {
        assert(command::numbered_targets(early).len() == 0);
    }
}

proof fn lemma_targets_are_said_step(
    words: Seq<Seq<char>>,
    o: options::TargetsOptions,
    targets: Seq<TargetView>,
    x: Seq<ReplyView>,
    r1: Seq<ReplyView>,
)
    requires
        options::targets_given(
            words,
            options::targets_defaults(),
        ) == Ok::<options::TargetsOptions, Seq<char>>(o)
            && !o.clear,
        files::targets_loaded(x) matches Course::Ends(v, rest)
            && v == Ok::<Seq<TargetView>, Seq<char>>(targets) && rest == r1,
    ensures
        command::lines_said(command::targets_lines(targets), r1) is Asks
            ==> asking::wanted(command::targets_run(words, x)) == asking::wanted(
                command::lines_said(command::targets_lines(targets), r1),
            ),
{
}

proof fn lemma_targets_are_said(
    words: Seq<Seq<char>>,
    o: options::TargetsOptions,
    targets: Seq<TargetView>,
    t: Seq<ReplyView>,
    t1: Seq<ReplyView>,
)
    requires
        options::targets_given(
            words,
            options::targets_defaults(),
        ) == Ok::<options::TargetsOptions, Seq<char>>(o)
            && !o.clear,
        files::targets_loaded(t) matches Course::Ends(v, rest)
            && v == Ok::<Seq<TargetView>, Seq<char>>(targets) && rest == t1,
    ensures
        asking::leads(
            |s: Seq<ReplyView>| command::targets_run(words, s),
            t,
            |s: Seq<ReplyView>| command::lines_said(command::targets_lines(targets), s),
            t1,
        ),
        asking::carries(
            |s: Seq<ReplyView>| command::targets_run(words, s),
            t,
            |s: Seq<ReplyView>| command::lines_said(command::targets_lines(targets), s),
            t1,
        ),
{
    let p = |s: Seq<ReplyView>| command::targets_run(words, s);
    let f = |s: Seq<ReplyView>| command::lines_said(command::targets_lines(targets), s);
    let q1 = |s: Seq<ReplyView>| files::targets_loaded(s);
    assert(asking::cuts(q1, t, t1)) by {
        front_laws::targets_loaded_shrinks(t);
        front_laws::targets_loaded_cut(t, 0);
        assert forall|j: int| 0 <= j <= t1.len() implies q1(
            #[trigger] t.take(t.len() - t1.len() + j),
        ) == Course::Ends(q1(t)->Ends_0, t1.take(j)) by {
            front_laws::targets_loaded_cut(t, j);
        }
    }
    assert forall|x: Seq<ReplyView>, r1: Seq<ReplyView>| #[trigger]
        asking::step1(p, q1, f, q1(t)->Ends_0, x, r1) by {
        if q1(x) == Course::Ends(q1(t)->Ends_0, r1) {
            lemma_targets_are_said_step(words, o, targets, x, r1);
        }
    }
    asking::lemma_behind1(p, q1, f, t, t1);
}

/// The command `targets` prints a line for each saved target, under its number.
pub proof fn each_target_is_printed(
    words: Seq<Seq<char>>,
    o: options::TargetsOptions,
    i: int,
    t: Seq<ReplyView>,
)
    requires
        options::targets_given(words, options::targets_defaults()) == Ok::<
            options::TargetsOptions,
            Seq<char>,
        >(o),
        !o.clear,
        command::targets_run(words, t) is Ends,
    ensures
        command::targets_run(words, t)->Ends_0 is Ok <==> effect::as_file(t[0]) is Ok,
        effect::as_file(t[0]) matches Ok(file) ==> (0 <= i < target::targets_of_file(file).len()
            ==> asking::met(
            |s: Seq<ReplyView>| command::targets_run(words, s),
            t,
            memory_laws::printed(
                "["@ + number::dec(i as nat) + "] "@ + target::targets_of_file(
                    file,
                )[i].summary_text(),
            ),
        )),
{
    if let Ok(file) = effect::as_file(t[0]) {
        let targets = target::targets_of_file(file);
        let t1 = t.skip(1);
        lemma_targets_are_said(words, o, targets, t, t1);
        if 0 <= i < targets.len() {
            lemma_target_is_told(targets, i);
            memory_laws::each_line_is_printed(command::targets_lines(targets), i, t1);
        }
    }
}

proof fn lemma_display_is_kept_step(
    id: u32,
    x: Seq<ReplyView>,
    r1: Seq<ReplyView>,
)
    requires
        restore::number_restored(id, ActionMode::Execute, true, x) matches Course::Ends(v, rest)
            && v is Ok && rest == r1,
    ensures
        files::number_remembered(id, r1) is Asks
            ==> asking::wanted(
                command::display_brought_back(id, ActionMode::Execute, x),
            ) == asking::wanted(files::number_remembered(id, r1)),
{
}

proof fn lemma_display_is_kept(
    id: u32,
    t: Seq<ReplyView>,
    t1: Seq<ReplyView>,
)
    requires
        restore::number_restored(id, ActionMode::Execute, true, t) matches Course::Ends(v, rest)
            && v is Ok && rest == t1,
    ensures
        asking::leads(
            |s: Seq<ReplyView>| command::display_brought_back(id, ActionMode::Execute, s),
            t,
            |s: Seq<ReplyView>| files::number_remembered(id, s),
            t1,
        ),
        asking::carries(
            |s: Seq<ReplyView>| command::display_brought_back(id, ActionMode::Execute, s),
            t,
            |s: Seq<ReplyView>| files::number_remembered(id, s),
            t1,
        ),
{
    let p = |s: Seq<ReplyView>| command::display_brought_back(id, ActionMode::Execute, s);
    let f = |s: Seq<ReplyView>| files::number_remembered(id, s);
    let q1 = |s: Seq<ReplyView>| restore::number_restored(id, ActionMode::Execute, true, s);
    assert(asking::cuts(q1, t, t1)) by {
        front_laws::number_restored_shrinks(id, ActionMode::Execute, true, t);
        front_laws::number_restored_cut(id, ActionMode::Execute, true, t, 0);
        assert forall|j: int| 0 <= j <= t1.len() implies q1(
            #[trigger] t.take(t.len() - t1.len() + j),
        ) == Course::Ends(q1(t)->Ends_0, t1.take(j)) by {
            front_laws::number_restored_cut(id, ActionMode::Execute, true, t, j);
        }
    }
    assert forall|x: Seq<ReplyView>, r1: Seq<ReplyView>| #[trigger]
        asking::step1(p, q1, f, q1(t)->Ends_0, x, r1) by {
        if q1(x) == Course::Ends(q1(t)->Ends_0, r1) {
            lemma_display_is_kept_step(id, x, r1);
        }
    }
    asking::lemma_behind1(p, q1, f, t, t1);
}

/// A display that was brought back by its number is remembered by that number.
pub proof fn brought_back_displays_are_remembered(id: u32, t: Seq<ReplyView>) -> (s: Seq<ReplyView>)
    requires
        command::display_brought_back(id, ActionMode::Execute, t) matches Course::Ends(r, _) && r
            is Ok,
    ensures
        files::number_remembered(id, s) matches Course::Ends(r, _) && r is Ok,
        asking::carries(
            |x: Seq<ReplyView>| command::display_brought_back(id, ActionMode::Execute, x),
            t,
            |x: Seq<ReplyView>| files::number_remembered(id, x),
            s,
        ),
{
    let t1 = restore::number_restored(id, ActionMode::Execute, true, t)->Ends_1;
    lemma_display_is_kept(id, t, t1);
    t1
}

// ---------------------------------------------------------------------------
// Drawing.
// ---------------------------------------------------------------------------
/// The spans were drawn.
pub open spec fn drawn(spans: Seq<screen::SpanView>) -> spec_fn(EffectView, ReplyView) -> bool {
    |e: EffectView, r: ReplyView| e == EffectView::Draw(spans)
}

/// What was drawn was shown.
pub open spec fn flushed() -> spec_fn(EffectView, ReplyView) -> bool {
    |e: EffectView, r: ReplyView| e == EffectView::Flush
}

proof fn lemma_sent_flushes_step(
    spans: Seq<screen::SpanView>,
    x: Seq<ReplyView>,
    r1: Seq<ReplyView>,
)
    requires
        effect::asks_done(EffectView::Draw(spans), x) matches Course::Ends(v, rest) && v is Ok
            && rest == r1,
    ensures
        effect::asks_done(EffectView::Flush, r1) is Asks
            ==> asking::wanted(interactive::spans_sent(spans, x)) == asking::wanted(
                effect::asks_done(EffectView::Flush, r1),
            ),
{
}

proof fn lemma_sent_flushes(
    spans: Seq<screen::SpanView>,
    t: Seq<ReplyView>,
    t1: Seq<ReplyView>,
)
    requires
        effect::asks_done(EffectView::Draw(spans), t) matches Course::Ends(v, rest) && v is Ok
            && rest == t1,
    ensures
        asking::leads(
            |s: Seq<ReplyView>| interactive::spans_sent(spans, s),
            t,
            |s: Seq<ReplyView>| effect::asks_done(EffectView::Flush, s),
            t1,
        ),
        asking::carries(
            |s: Seq<ReplyView>| interactive::spans_sent(spans, s),
            t,
            |s: Seq<ReplyView>| effect::asks_done(EffectView::Flush, s),
            t1,
        ),
{
    let p = |s: Seq<ReplyView>| interactive::spans_sent(spans, s);
    let f = |s: Seq<ReplyView>| effect::asks_done(EffectView::Flush, s);
    let q1 = |s: Seq<ReplyView>| effect::asks_done(EffectView::Draw(spans), s);
    assert(asking::cuts(q1, t, t1)) by {
        front_laws::asks_done_shrinks(EffectView::Draw(spans), t);
        front_laws::asks_done_cut(EffectView::Draw(spans), t, 0);
        assert forall|j: int| 0 <= j <= t1.len() implies q1(
            #[trigger] t.take(t.len() - t1.len() + j),
        ) == Course::Ends(q1(t)->Ends_0, t1.take(j)) by {
            front_laws::asks_done_cut(EffectView::Draw(spans), t, j);
        }
    }
    assert forall|x: Seq<ReplyView>, r1: Seq<ReplyView>| #[trigger]
        asking::step1(p, q1, f, q1(t)->Ends_0, x, r1) by {
        if q1(x) == Course::Ends(q1(t)->Ends_0, r1) {
            lemma_sent_flushes_step(spans, x, r1);
        }
    }
    asking::lemma_behind1(p, q1, f, t, t1);
}

proof fn lemma_sent(spans: Seq<screen::SpanView>, t: Seq<ReplyView>)
    requires
        interactive::spans_sent(spans, t) matches Course::Ends(r, _) && r is Ok,
    ensures
        asking::met(|s: Seq<ReplyView>| interactive::spans_sent(spans, s), t, drawn(spans)),
        asking::met(|s: Seq<ReplyView>| interactive::spans_sent(spans, s), t, flushed()),
{
    let p = |s: Seq<ReplyView>| interactive::spans_sent(spans, s);
    assert(t.take(0).len() == 0);
    assert(asking::meets(p, t, drawn(spans), 0));
    let t1 = t.skip(1);
    lemma_sent_flushes(spans, t, t1);
    let f = |s: Seq<ReplyView>| effect::asks_done(EffectView::Flush, s);
    assert(t1.take(0).len() == 0);
    assert(asking::meets(f, t1, flushed(), 0));
    assert(asking::met(f, t1, flushed()));
}

proof fn lemma_help_is_sent(
    ui: UiView,
    t: Seq<ReplyView>,
)
    requires
        ui.show_help,
    ensures
        asking::leads(
            |s: Seq<ReplyView>| interactive::screen_drawn(ui, s),
            t,
            |s: Seq<ReplyView>| interactive::spans_sent(screen::help_spans(), s),
            t,
        ),
        asking::carries(
            |s: Seq<ReplyView>| interactive::screen_drawn(ui, s),
            t,
            |s: Seq<ReplyView>| interactive::spans_sent(screen::help_spans(), s),
            t,
        ),
{
    let p = |s: Seq<ReplyView>| interactive::screen_drawn(ui, s);
    let f = |s: Seq<ReplyView>| interactive::spans_sent(screen::help_spans(), s);
    assert(t =~= t.skip(t.len() - t.len()));
    assert forall|j: int| 0 <= j <= t.len() && f(t.take(j)) is Asks implies asking::wanted(
        p(#[trigger] t.take(t.len() - t.len() + j)),
    ) == asking::wanted(f(t.take(j))) by {}
    asking::lemma_met_later(p, t, f, t);
}

proof fn lemma_list_is_drawn(
    ui: UiView,
    t: Seq<ReplyView>,
)
    requires
        !ui.show_help,
    ensures
        asking::leads(
            |s: Seq<ReplyView>| interactive::screen_drawn(ui, s),
            t,
            |s: Seq<ReplyView>| interactive::list_drawn(ui, s),
            t,
        ),
        asking::carries(
            |s: Seq<ReplyView>| interactive::screen_drawn(ui, s),
            t,
            |s: Seq<ReplyView>| interactive::list_drawn(ui, s),
            t,
        ),
{
    let p = |s: Seq<ReplyView>| interactive::screen_drawn(ui, s);
    let f = |s: Seq<ReplyView>| interactive::list_drawn(ui, s);
    assert(t =~= t.skip(t.len() - t.len()));
    assert forall|j: int| 0 <= j <= t.len() && f(t.take(j)) is Asks implies asking::wanted(
        p(#[trigger] t.take(t.len() - t.len() + j)),
    ) == asking::wanted(f(t.take(j))) by {}
    asking::lemma_met_later(p, t, f, t);
}

proof fn lemma_list_is_sent_step(
    ui: UiView,
    panel: Option<Seq<char>>,
    x: Seq<ReplyView>,
    r1: Seq<ReplyView>,
    r2: Seq<ReplyView>,
)
    requires
        effect::asks_done(
            EffectView::Draw(screen::upper_spans(ui.parsed, ui.targets, ui.selected, ui.width)),
            x,
        ) matches Course::Ends(v, rest)
            && v is Ok && rest == r1,
        interactive::panel_looked_up(ui, r1) matches Course::Ends(v, rest)
            && v == Ok::<Option<Seq<char>>, Seq<char>>(panel) && rest == r2,
    ensures
        interactive::spans_sent(screen::lower_spans(panel, ui.targets, ui.status), r2) is Asks
            ==> asking::wanted(interactive::list_drawn(ui, x)) == asking::wanted(
                interactive::spans_sent(screen::lower_spans(panel, ui.targets, ui.status), r2),
            ),
{
}

proof fn lemma_list_is_sent(
    ui: UiView,
    panel: Option<Seq<char>>,
    t: Seq<ReplyView>,
    t1: Seq<ReplyView>,
    t2: Seq<ReplyView>,
)
    requires
        effect::asks_done(
            EffectView::Draw(screen::upper_spans(ui.parsed, ui.targets, ui.selected, ui.width)),
            t,
        ) matches Course::Ends(v, rest)
            && v is Ok && rest == t1,
        interactive::panel_looked_up(ui, t1) matches Course::Ends(v, rest)
            && v == Ok::<Option<Seq<char>>, Seq<char>>(panel) && rest == t2,
    ensures
        asking::leads(
            |s: Seq<ReplyView>| interactive::list_drawn(ui, s),
            t,
            |s: Seq<ReplyView>| interactive::spans_sent(
                screen::lower_spans(panel, ui.targets, ui.status),
                s,
            ),
            t2,
        ),
        asking::carries(
            |s: Seq<ReplyView>| interactive::list_drawn(ui, s),
            t,
            |s: Seq<ReplyView>| interactive::spans_sent(
                screen::lower_spans(panel, ui.targets, ui.status),
                s,
            ),
            t2,
        ),
{
    let p = |s: Seq<ReplyView>| interactive::list_drawn(ui, s);
    let f = |s: Seq<ReplyView>| interactive::spans_sent(
        screen::lower_spans(panel, ui.targets, ui.status),
        s,
    );
    let q1 = |s: Seq<ReplyView>| effect::asks_done(
        EffectView::Draw(screen::upper_spans(ui.parsed, ui.targets, ui.selected, ui.width)),
        s,
    );
    let q2 = |s: Seq<ReplyView>| interactive::panel_looked_up(ui, s);
    assert(asking::cuts(q1, t, t1)) by {
        front_laws::asks_done_shrinks(
            EffectView::Draw(screen::upper_spans(ui.parsed, ui.targets, ui.selected, ui.width)),
            t,
        );
        front_laws::asks_done_cut(
            EffectView::Draw(screen::upper_spans(ui.parsed, ui.targets, ui.selected, ui.width)),
            t,
            0,
        );
        assert forall|j: int| 0 <= j <= t1.len() implies q1(
            #[trigger] t.take(t.len() - t1.len() + j),
        ) == Course::Ends(q1(t)->Ends_0, t1.take(j)) by {
            front_laws::asks_done_cut(
                EffectView::Draw(screen::upper_spans(ui.parsed, ui.targets, ui.selected, ui.width)),
                t,
                j,
            );
        }
    }
    assert(asking::cuts(q2, t1, t2)) by {
        front_laws::panel_looked_up_shrinks(ui, t1);
        front_laws::panel_looked_up_cut(ui, t1, 0);
        assert forall|j: int| 0 <= j <= t2.len() implies q2(
            #[trigger] t1.take(t1.len() - t2.len() + j),
        ) == Course::Ends(q2(t1)->Ends_0, t2.take(j)) by {
            front_laws::panel_looked_up_cut(ui, t1, j);
        }
    }
    assert forall|x: Seq<ReplyView>, r1: Seq<ReplyView>, r2: Seq<ReplyView>| #[trigger]
        asking::step2(p, q1, q2, f, q1(t)->Ends_0, q2(t1)->Ends_0, x, r1, r2) by {
        if q1(x) == Course::Ends(q1(t)->Ends_0, r1) && q2(r1) == Course::Ends(q2(t1)->Ends_0, r2) {
            lemma_list_is_sent_step(ui, panel, x, r1, r2);
        }
    }
    asking::lemma_behind2(p, q1, q2, f, t, t1, t2);
}

/// The screen shows the help or the list, never both, and it is drawn well only where
/// all of it was drawn and shown.
pub proof fn screen_shows_help_or_list(ui: UiView, t: Seq<ReplyView>) -> (panel: Option<Seq<char>>)
    requires
        interactive::screen_drawn(ui, t) matches Course::Ends(r, _) && r is Ok,
    ensures
        ({
            let p = |s: Seq<ReplyView>| interactive::screen_drawn(ui, s);
            &&& asking::met(p, t, flushed())
            &&& ui.show_help ==> asking::met(p, t, drawn(screen::help_spans()))
            &&& !ui.show_help ==> asking::met(
                p,
                t,
                drawn(screen::upper_spans(ui.parsed, ui.targets, ui.selected, ui.width)),
            ) && asking::met(p, t, drawn(screen::lower_spans(panel, ui.targets, ui.status)))
            &&& panel is Some ==> screen::lacks_panel(ui.parsed)
        }),
{
    if ui.show_help {
        lemma_help_is_sent(ui, t);
        lemma_sent(screen::help_spans(), t);
        None
    } else {
        lemma_list_is_drawn(ui, t);
        let upper = screen::upper_spans(ui.parsed, ui.targets, ui.selected, ui.width);
        let f = |s: Seq<ReplyView>| interactive::list_drawn(ui, s);
        assert(t.take(0).len() == 0);
        assert(asking::meets(f, t, drawn(upper), 0));
        assert(asking::met(f, t, drawn(upper)));
        let t1 = t.skip(1);
        let panel = interactive::panel_looked_up(ui, t1)->Ends_0->Ok_0;
        let t2 = interactive::panel_looked_up(ui, t1)->Ends_1;
        lemma_list_is_sent(ui, panel, t, t1, t2);
        lemma_sent(screen::lower_spans(panel, ui.targets, ui.status), t2);
        panel
    }
}

/// The list is what the upper part of the screen shows below its head: the displays,
/// or that there are none, or that they are not known.
pub proof fn upper_part_shows_the_list(
    parsed: Option<ParsedView>,
    targets: Seq<TargetView>,
    selected: nat,
    width: nat,
)
    ensures
        ({
            let spans = screen::upper_spans(parsed, targets, selected, width).skip(
                screen::head_spans(targets.len()).len() as int,
            );
            match parsed {
                None => spans == seq![screen::SpanView::Text("Display state unavailable.\r\n"@)],
                Some(list) => if list.displays.len() == 0 {
                    spans == seq![
                        screen::SpanView::Text(
                            "No displays parsed from displayplacer output.\r\n"@,
                        ),
                    ]
                } else {
                    spans == screen::entries_spans(list.displays, targets, selected, width)
                },
            }
        }),
{
    let head = screen::head_spans(targets.len());
    let rest = screen::list_spans(parsed, targets, selected, width);
    assert((head + rest).skip(head.len() as int) =~= rest);
}

proof fn lemma_round_draws_step(
    ui: UiView,
    next: UiView,
    x: Seq<ReplyView>,
    r1: Seq<ReplyView>,
)
    requires
        ui.refresh || ui.render,
        interactive::refreshed_if_due(ui, x) matches Course::Ends(v, rest) && v == next
            && rest == r1,
    ensures
        interactive::screen_drawn(next, r1) is Asks
            ==> asking::wanted(interactive::show_stage(ui, x)) == asking::wanted(
                interactive::screen_drawn(next, r1),
            ),
{
}

proof fn lemma_round_draws(
    ui: UiView,
    next: UiView,
    t: Seq<ReplyView>,
    t1: Seq<ReplyView>,
)
    requires
        ui.refresh || ui.render,
        interactive::refreshed_if_due(ui, t) matches Course::Ends(v, rest) && v == next
            && rest == t1,
    ensures
        asking::leads(
            |s: Seq<ReplyView>| interactive::show_stage(ui, s),
            t,
            |s: Seq<ReplyView>| interactive::screen_drawn(next, s),
            t1,
        ),
        asking::carries(
            |s: Seq<ReplyView>| interactive::show_stage(ui, s),
            t,
            |s: Seq<ReplyView>| interactive::screen_drawn(next, s),
            t1,
        ),
{
    let p = |s: Seq<ReplyView>| interactive::show_stage(ui, s);
    let f = |s: Seq<ReplyView>| interactive::screen_drawn(next, s);
    let q1 = |s: Seq<ReplyView>| interactive::refreshed_if_due(ui, s);
    assert(asking::cuts(q1, t, t1)) by {
        front_laws::refreshed_if_due_shrinks(ui, t);
        front_laws::refreshed_if_due_cut(ui, t, 0);
        assert forall|j: int| 0 <= j <= t1.len() implies q1(
            #[trigger] t.take(t.len() - t1.len() + j),
        ) == Course::Ends(q1(t)->Ends_0, t1.take(j)) by {
            front_laws::refreshed_if_due_cut(ui, t, j);
        }
    }
    assert forall|x: Seq<ReplyView>, r1: Seq<ReplyView>| #[trigger]
        asking::step1(p, q1, f, q1(t)->Ends_0, x, r1) by {
        if q1(x) == Course::Ends(q1(t)->Ends_0, r1) {
            lemma_round_draws_step(ui, next, x, r1);
        }
    }
    asking::lemma_behind1(p, q1, f, t, t1);
}

/// Where something is due to be drawn, the round ends well only after the screen was
/// drawn and shown, from what the round came to.
pub proof fn round_draws_what_is_due(ui: UiView, t: Seq<ReplyView>)
    requires
        ui.refresh || ui.render,
        interactive::show_stage(ui, t) matches Course::Ends(r, _) && r is Ok,
    ensures
        asking::met(|s: Seq<ReplyView>| interactive::show_stage(ui, s), t, flushed()),
{
    let next = interactive::refreshed_if_due(ui, t)->Ends_0;
    let t1 = interactive::refreshed_if_due(ui, t)->Ends_1;
    lemma_round_draws(ui, next, t, t1);
    let panel = screen_shows_help_or_list(next, t1);
}

// ---------------------------------------------------------------------------
// Snapshots.
// ---------------------------------------------------------------------------
/// A snapshot holds the list as it stands, or why there is none.
pub proof fn snapshot_holds_the_list(r: Result<ParsedView, Seq<char>>)
    ensures
        r matches Ok(parsed) ==> agent_laws::within(parsed.raw, snapshot::snapshot_list(r)),
        r matches Err(error) ==> agent_laws::within(error, snapshot::snapshot_list(r)),
{
    let all = snapshot::snapshot_list(r);
    match r {
        Ok(parsed) => {
            let head = "## parsed displayplacer summary\n"@ + (if parsed.displays.len() == 0 {
                "No displays parsed from displayplacer output.\n"@
            } else {
                snapshot::brief_lines(parsed.displays)
            }) + (match parsed.restore_command {
                Some(restoring) => "\nrestore command:\n"@ + restoring + "\n"@,
                None => Seq::empty(),
            }) + "\n## displayplacer raw\n"@;
            lemma_parts(head, parsed.raw, "\n"@, all);
        },
        Err(error) => {
            lemma_parts("## displayplacer raw\nfailed: "@, error, "\n"@, all);
        },
    }
}

proof fn lemma_probing_prefs_step(
    body: Seq<char>,
    longer: Seq<char>,
    file: Seq<char>,
    x: Seq<ReplyView>,
    r1: Seq<ReplyView>,
    r2: Seq<ReplyView>,
    r3: Seq<ReplyView>,
)
    requires
        snapshot::captured(
            "defaults"@,
            seq!["read"@, "pro.betterdisplay.BetterDisplay"@],
            body + snapshot::preferences_title(),
            x,
        ) matches Course::Ends(v, rest)
            && v == longer && rest == r1,
        effect::asks_flag(
            EffectView::PathExists(snapshot::preferences_place()),
            r1,
        ) matches Course::Ends(v, rest)
            && v && rest == r2,
        effect::asks_text(
            EffectView::ShowPath(snapshot::preferences_place()),
            r2,
        ) matches Course::Ends(v, rest)
            && v == Ok::<Seq<char>, Seq<char>>(file) && rest == r3,
    ensures
        snapshot::captured("plutil"@, seq!["-p"@, file], longer, r3) is Asks
            ==> asking::wanted(snapshot::preferences_added(body, x)) == asking::wanted(
                snapshot::captured("plutil"@, seq!["-p"@, file], longer, r3),
            ),
{
}

proof fn lemma_probing_prefs(
    body: Seq<char>,
    longer: Seq<char>,
    file: Seq<char>,
    t: Seq<ReplyView>,
    t1: Seq<ReplyView>,
    t2: Seq<ReplyView>,
    t3: Seq<ReplyView>,
)
    requires
        snapshot::captured(
            "defaults"@,
            seq!["read"@, "pro.betterdisplay.BetterDisplay"@],
            body + snapshot::preferences_title(),
            t,
        ) matches Course::Ends(v, rest)
            && v == longer && rest == t1,
        effect::asks_flag(
            EffectView::PathExists(snapshot::preferences_place()),
            t1,
        ) matches Course::Ends(v, rest)
            && v && rest == t2,
        effect::asks_text(
            EffectView::ShowPath(snapshot::preferences_place()),
            t2,
        ) matches Course::Ends(v, rest)
            && v == Ok::<Seq<char>, Seq<char>>(file) && rest == t3,
    ensures
        asking::leads(
            |s: Seq<ReplyView>| snapshot::preferences_added(body, s),
            t,
            |s: Seq<ReplyView>| snapshot::captured("plutil"@, seq!["-p"@, file], longer, s),
            t3,
        ),
        asking::carries(
            |s: Seq<ReplyView>| snapshot::preferences_added(body, s),
            t,
            |s: Seq<ReplyView>| snapshot::captured("plutil"@, seq!["-p"@, file], longer, s),
            t3,
        ),
{
    let p = |s: Seq<ReplyView>| snapshot::preferences_added(body, s);
    let f = |s: Seq<ReplyView>| snapshot::captured("plutil"@, seq!["-p"@, file], longer, s);
    let q1 = |s: Seq<ReplyView>| snapshot::captured(
        "defaults"@,
        seq!["read"@, "pro.betterdisplay.BetterDisplay"@],
        body + snapshot::preferences_title(),
        s,
    );
    let q2 = |s: Seq<ReplyView>| effect::asks_flag(
        EffectView::PathExists(snapshot::preferences_place()),
        s,
    );
    let q3 = |s: Seq<ReplyView>| effect::asks_text(
        EffectView::ShowPath(snapshot::preferences_place()),
        s,
    );
    assert(asking::cuts(q1, t, t1)) by {
        front_laws::captured_shrinks(
            "defaults"@,
            seq!["read"@, "pro.betterdisplay.BetterDisplay"@],
            body + snapshot::preferences_title(),
            t,
        );
        front_laws::captured_cut(
            "defaults"@,
            seq!["read"@, "pro.betterdisplay.BetterDisplay"@],
            body + snapshot::preferences_title(),
            t,
            0,
        );
        assert forall|j: int| 0 <= j <= t1.len() implies q1(
            #[trigger] t.take(t.len() - t1.len() + j),
        ) == Course::Ends(q1(t)->Ends_0, t1.take(j)) by {
            front_laws::captured_cut(
                "defaults"@,
                seq!["read"@, "pro.betterdisplay.BetterDisplay"@],
                body + snapshot::preferences_title(),
                t,
                j,
            );
        }
    }
    assert(asking::cuts(q2, t1, t2)) by {
        front_laws::asks_flag_shrinks(EffectView::PathExists(snapshot::preferences_place()), t1);
        front_laws::asks_flag_cut(EffectView::PathExists(snapshot::preferences_place()), t1, 0);
        assert forall|j: int| 0 <= j <= t2.len() implies q2(
            #[trigger] t1.take(t1.len() - t2.len() + j),
        ) == Course::Ends(q2(t1)->Ends_0, t2.take(j)) by {
            front_laws::asks_flag_cut(EffectView::PathExists(snapshot::preferences_place()), t1, j);
        }
    }
    assert(asking::cuts(q3, t2, t3)) by {
        front_laws::asks_text_shrinks(EffectView::ShowPath(snapshot::preferences_place()), t2);
        front_laws::asks_text_cut(EffectView::ShowPath(snapshot::preferences_place()), t2, 0);
        assert forall|j: int| 0 <= j <= t3.len() implies q3(
            #[trigger] t2.take(t2.len() - t3.len() + j),
        ) == Course::Ends(q3(t2)->Ends_0, t3.take(j)) by {
            front_laws::asks_text_cut(EffectView::ShowPath(snapshot::preferences_place()), t2, j);
        }
    }
    assert forall|
        x: Seq<ReplyView>,
        r1: Seq<ReplyView>,
        r2: Seq<ReplyView>,
        r3: Seq<ReplyView>,
    | #[trigger]
        asking::step3(
            p,
            q1,
            q2,
            q3,
            f,
            q1(t)->Ends_0,
            q2(t1)->Ends_0,
            q3(t2)->Ends_0,
            x,
            r1,
            r2,
            r3,
        ) by {
        if q1(x) == Course::Ends(q1(t)->Ends_0, r1) && q2(r1) == Course::Ends(q2(t1)->Ends_0, r2)
            && q3(r2) == Course::Ends(q3(t2)->Ends_0, r3) {
            lemma_probing_prefs_step(body, longer, file, x, r1, r2, r3);
        }
    }
    asking::lemma_behind3(p, q1, q2, q3, f, t, t1, t2, t3);
}

/// A command was run.
pub open spec fn command_run(program: Seq<char>, arguments: Seq<Seq<char>>) -> spec_fn(
    EffectView,
    ReplyView,
) -> bool {
    |e: EffectView, r: ReplyView| e == (EffectView::Run { program, arguments })
}

/// The preferences are read for a snapshot, and where their file is there, it is
/// read as well. What was gathered before stays at the front.
pub proof fn preferences_are_read(body: Seq<char>, file: Seq<char>, t: Seq<ReplyView>)
    requires
        snapshot::preferences_added(body, t) is Ends,
    ensures
        ({
            let p = |s: Seq<ReplyView>| snapshot::preferences_added(body, s);
            &&& asking::met(
                p,
                t,
                command_run("defaults"@, seq!["read"@, "pro.betterdisplay.BetterDisplay"@]),
            )
            &&& t.len() > 2 && t[1] == ReplyView::Flag(true) && t[2] == ReplyView::Text(Ok(file))
                ==> asking::met(p, t, command_run("plutil"@, seq!["-p"@, file]))
            &&& body.is_prefix_of(snapshot::preferences_added(body, t)->Ends_0)
        }),
{
    let p = |s: Seq<ReplyView>| snapshot::preferences_added(body, s);
    let words = seq!["read"@, "pro.betterdisplay.BetterDisplay"@];
    assert(t.take(0).len() == 0);
    assert(asking::meets(p, t, command_run("defaults"@, words), 0));
    let t1 = t.skip(1);
    let t2 = t1.skip(1);
    let longer = body + snapshot::preferences_title() + snapshot::capture_text(
        "defaults"@,
        words,
        effect::as_ran(t[0]),
    );
    assert(snapshot::captured("defaults"@, words, body + snapshot::preferences_title(), t)
        == Course::Ends(longer, t1));
    assert(t1[0] == t[1]);
    if t.len() > 2 {
        assert(t2[0] == t[2]);
    }
    let whole = snapshot::preferences_added(body, t)->Ends_0;
    assert(longer.is_prefix_of(whole));
    assert(body =~= whole.subrange(0, body.len() as int)) by {
        assert(whole.subrange(0, longer.len() as int) == longer);
        assert forall|i: int| 0 <= i < body.len() implies whole[i] == body[i] by {
            assert(longer[i] == body[i]);
            assert(whole.subrange(0, longer.len() as int)[i] == whole[i]);
        }
    }
    if t.len() > 2 && t[1] == ReplyView::Flag(true) && t[2] == ReplyView::Text(Ok(file)) {
        let t3 = t2.skip(1);
        lemma_probing_prefs(body, longer, file, t, t1, t2, t3);
        let f = |s: Seq<ReplyView>| snapshot::captured("plutil"@, seq!["-p"@, file], longer, s);
        let good = command_run("plutil"@, seq!["-p"@, file]);
        assert(t3.take(0).len() == 0);
        assert(asking::meets(f, t3, good, 0));
        assert(asking::met(f, t3, good));
    }
}

/// The list is added to what was gathered before, and so is the reason where there
/// is none.
pub proof fn list_is_added(body: Seq<char>, t: Seq<ReplyView>)
    requires
        snapshot::list_added(body, t) is Ends,
    ensures
        ({
            let whole = snapshot::list_added(body, t)->Ends_0;
            match commands::as_list(effect::as_ran(t[0])) {
                Ok(parsed) => agent_laws::within(parsed.raw, whole),
                Err(error) => agent_laws::within(error, whole),
            }
        }),
        body.is_prefix_of(snapshot::list_added(body, t)->Ends_0),
{
    let r = commands::as_list(effect::as_ran(t[0]));
    let part = snapshot::snapshot_list(r);
    let whole = snapshot::list_added(body, t)->Ends_0;
    assert(whole == body + part);
    assert(body =~= whole.subrange(0, body.len() as int));
    snapshot_holds_the_list(r);
    let inner = match r {
        Ok(parsed) => parsed.raw,
        Err(error) => error,
    };
    let (a, b) = choose|a: Seq<char>, b: Seq<char>| part == #[trigger] (a + inner + b);
    lemma_parts(body + a, inner, b, whole);
}

// ---------------------------------------------------------------------------
// The selection.
// ---------------------------------------------------------------------------
/// A selection that is still in the list stays where it is, and one that is not
/// moves to the last display.
pub proof fn selection_is_kept(selected: nat, len: nat)
    ensures
        selected < len ==> interactive::clamped(selected, len) == selected,
        0 < len <= selected ==> interactive::clamped(selected, len) == len - 1,
        len == 0 ==> interactive::clamped(selected, len) == 0,
{
}

/// The list shows what is remembered first, in its order: each as the display that
/// is there, or as one that is away.
pub proof fn remembered_displays_come_first(
    remembered: Seq<DisplayView>,
    live: Seq<DisplayView>,
    i: int,
)
    requires
        0 <= i < remembered.len(),
    ensures
        ({
            let all = state::merged(remembered, live);
            &&& i < all.len()
            &&& all[i] == (DisplayView {
                remembered_absent: true,
                enabled: Some(false),
                is_main: false,
                ..remembered[i]
            }) || (live.contains(all[i]) && all[i].same_as(remembered[i]))
        }),
    decreases remembered.len(),
{
    let at = state::known_at(live, remembered[0]);
    state::lemma_known_at(live, remembered[0]);
    let rest = remembered.skip(1);
    let all = state::merged(remembered, live);
    if at < live.len() {
        let fewer = live.remove(at);
        if i == 0 {
            assert(all[0] == live[at]);
        } else {
            remembered_displays_come_first(rest, fewer, i - 1);
            let d = state::merged(rest, fewer)[i - 1];
            assert(all[i] == d);
            assert(rest[i - 1] == remembered[i]);
            if fewer.contains(d) {
                let j = choose|j: int| 0 <= j < fewer.len() && fewer[j] == d;
                if j < at {
                    assert(live[j] == d);
                } else {
                    assert(live[j + 1] == d);
                }
            }
        }
    } else if i == 0 {
        assert(all[0] == state::put_away(remembered[0]));
    } else {
        remembered_displays_come_first(rest, live, i - 1);
        assert(all[i] == state::merged(rest, live)[i - 1]);
        assert(rest[i - 1] == remembered[i]);
    }
}

// ---------------------------------------------------------------------------
// Reading the state.
// ---------------------------------------------------------------------------
/// The panel's number is the one that the state file names. Without a file, or
/// without the number in it, there is none; a file that cannot be read and a number
/// that is none are failures.
pub proof fn panel_number_is_read(t: Seq<ReplyView>)
    requires
        t.len() > 0,
    ensures
        files::panel_number_read(t) matches Course::Ends(r, rest) && rest == t.skip(1) && (
        match effect::as_file(t[0]) {
            Err(_) => r is Err,
            Ok(file) => match state::state_value(state::file_text(file), "internal_display_id"@) {
                None => r == Ok::<Option<u32>, Seq<char>>(None),
                Some(value) => match number::u32_value(value) {
                    Ok(n) => r == Ok::<Option<u32>, Seq<char>>(Some(n)),
                    Err(_) => r is Err,
                },
            },
        }),
{
}

/// The numbers to reset are those that the state file names: the panel's, and those
/// of the displays that are known.
pub proof fn numbers_are_read(t: Seq<ReplyView>, n: u32)
    requires
        files::numbers_read(t) matches Course::Ends(r, _) && r is Ok,
    ensures
        t.len() >= 2,
        effect::as_file(t[0]) is Ok,
        effect::as_file(t[1]) is Ok,
        files::numbers_read(t)->Ends_0->Ok_0.contains(n) <==> {
            let panel = state::state_value(
                state::file_text(effect::as_file(t[0])->Ok_0),
                "internal_display_id"@,
            );
            let known = state::state_values(
                state::file_text(effect::as_file(t[1])->Ok_0),
                "known_display_id"@,
            );
            ||| panel is Some && number::u32_value(panel->0) == Ok::<u32, number::NumberError>(n)
            ||| exists|i: int|
                0 <= i < known.len() && number::u32_value(#[trigger] known[i]) == Ok::<
                    u32,
                    number::NumberError,
                >(n)
        },
{
    assert(t.skip(1)[0] == t[1]);
    let panel = state::state_value(
        state::file_text(effect::as_file(t[0])->Ok_0),
        "internal_display_id"@,
    );
    let known = state::state_values(
        state::file_text(effect::as_file(t[1])->Ok_0),
        "known_display_id"@,
    );
    file_laws::numbers_come_from_the_file(panel, known, n);
}

// ---------------------------------------------------------------------------
// Dry runs.
// ---------------------------------------------------------------------------
/// A dry switch says what it would run, and that is all.
pub proof fn dry_switch_says_the_command(
    id: Seq<char>,
    enabled: bool,
    verbose: bool,
    t: Seq<ReplyView>,
)
    ensures
        ({
            let line = "dry-run: displayplacer \""@ + (if enabled {
                "id:"@ + id + " enabled:true"@
            } else {
                "id:"@ + id + " enabled:false"@
            }) + "\""@;
            let dry = commands::placer_switched(id, enabled, ActionMode::DryRun, verbose, t);
            if verbose && t.len() == 0 {
                dry == Course::<Result<Seq<char>, Seq<char>>>::Asks(
                    EffectView::Print(line + "\n"@),
                )
            } else {
                dry == Course::Ends(
                    Ok::<Seq<char>, Seq<char>>(line),
                    if verbose {
                        t.skip(1)
                    } else {
                        t
                    },
                )
            }
        }),
{
    reveal_strlit(" enabled:");
    reveal_strlit("true");
    reveal_strlit("false");
    reveal_strlit(" enabled:true");
    reveal_strlit(" enabled:false");
    assert(" enabled:"@ + "true"@ =~= " enabled:true"@);
    assert(" enabled:"@ + "false"@ =~= " enabled:false"@);
    let argument = if enabled {
        "id:"@ + id + " enabled:true"@
    } else {
        "id:"@ + id + " enabled:false"@
    };
    assert(placer::switch_argument(id, enabled) =~= argument);
}

proof fn lemma_dry_disable_step(
    condition: Option<Seq<char>>,
    force: bool,
    print_skips: bool,
    verbose: bool,
    displays: Seq<DisplayView>,
    id: Seq<char>,
    x: Seq<ReplyView>,
    r1: Seq<ReplyView>,
    r2: Seq<ReplyView>,
)
    requires
        switching::disable_decision(
            displays,
            condition,
            force,
        ) == switching::DisablePlanView::Switch(id),
        commands::displays_listed(x) matches Course::Ends(v, rest) && v is Ok
            && v->Ok_0.displays == displays && rest == r1,
        files::list_remembered(displays, r1) matches Course::Ends(v, rest) && rest == r2,
    ensures
        commands::placer_switched(id, false, ActionMode::DryRun, verbose, r2) is Asks
            ==> asking::wanted(
                switching::internal_disabled(
                    condition,
                    ActionMode::DryRun,
                    force,
                    print_skips,
                    verbose,
                    x,
                ),
            ) == asking::wanted(commands::placer_switched(
                id,
                false,
                ActionMode::DryRun,
                verbose,
                r2,
            )),
{
}

proof fn lemma_dry_disable(
    condition: Option<Seq<char>>,
    force: bool,
    print_skips: bool,
    verbose: bool,
    displays: Seq<DisplayView>,
    id: Seq<char>,
    t: Seq<ReplyView>,
    t1: Seq<ReplyView>,
    t2: Seq<ReplyView>,
)
    requires
        switching::disable_decision(
            displays,
            condition,
            force,
        ) == switching::DisablePlanView::Switch(id),
        commands::displays_listed(t) matches Course::Ends(v, rest) && v is Ok
            && v->Ok_0.displays == displays && rest == t1,
        files::list_remembered(displays, t1) matches Course::Ends(v, rest) && rest == t2,
    ensures
        asking::leads(
            |s: Seq<ReplyView>| switching::internal_disabled(
                condition,
                ActionMode::DryRun,
                force,
                print_skips,
                verbose,
                s,
            ),
            t,
            |s: Seq<ReplyView>| commands::placer_switched(
                id,
                false,
                ActionMode::DryRun,
                verbose,
                s,
            ),
            t2,
        ),
        asking::carries(
            |s: Seq<ReplyView>| switching::internal_disabled(
                condition,
                ActionMode::DryRun,
                force,
                print_skips,
                verbose,
                s,
            ),
            t,
            |s: Seq<ReplyView>| commands::placer_switched(
                id,
                false,
                ActionMode::DryRun,
                verbose,
                s,
            ),
            t2,
        ),
{
    let p = |s: Seq<ReplyView>| switching::internal_disabled(
        condition,
        ActionMode::DryRun,
        force,
        print_skips,
        verbose,
        s,
    );
    let f = |s: Seq<ReplyView>| commands::placer_switched(
        id,
        false,
        ActionMode::DryRun,
        verbose,
        s,
    );
    let q1 = |s: Seq<ReplyView>| commands::displays_listed(s);
    let q2 = |s: Seq<ReplyView>| files::list_remembered(displays, s);
    assert(asking::cuts(q1, t, t1)) by {
        front_laws::displays_listed_shrinks(t);
        front_laws::displays_listed_cut(t, 0);
        assert forall|j: int| 0 <= j <= t1.len() implies q1(
            #[trigger] t.take(t.len() - t1.len() + j),
        ) == Course::Ends(q1(t)->Ends_0, t1.take(j)) by {
            front_laws::displays_listed_cut(t, j);
        }
    }
    assert(asking::cuts(q2, t1, t2)) by {
        front_laws::list_remembered_shrinks(displays, t1);
        front_laws::list_remembered_cut(displays, t1, 0);
        assert forall|j: int| 0 <= j <= t2.len() implies q2(
            #[trigger] t1.take(t1.len() - t2.len() + j),
        ) == Course::Ends(q2(t1)->Ends_0, t2.take(j)) by {
            front_laws::list_remembered_cut(displays, t1, j);
        }
    }
    assert forall|x: Seq<ReplyView>, r1: Seq<ReplyView>, r2: Seq<ReplyView>| #[trigger]
        asking::step2(p, q1, q2, f, q1(t)->Ends_0, q2(t1)->Ends_0, x, r1, r2) by {
        if q1(x) == Course::Ends(q1(t)->Ends_0, r1) && q2(r1) == Course::Ends(q2(t1)->Ends_0, r2) {
            lemma_dry_disable_step(condition, force, print_skips, verbose, displays, id, x, r1, r2);
        }
    }
    asking::lemma_behind2(p, q1, q2, f, t, t1, t2);
}

/// A dry request to turn the panel off comes to the same decision, and says it.
pub proof fn dry_disable_says_the_switch(
    condition: Option<Seq<char>>,
    force: bool,
    print_skips: bool,
    displays: Seq<DisplayView>,
    p: int,
    t: Seq<ReplyView>,
)
    requires
        t.len() > 0,
        commands::as_list(effect::as_ran(t[0])) matches Ok(parsed) && parsed.displays == displays,
        0 <= p < displays.len(),
        displays[p].internal(),
        displays[p].enabled == Some(true),
        displays[p].persistent_id is Some,
        forall|i: int|
            0 <= i < p ==> !((#[trigger] displays[i]).internal() && displays[i].enabled == Some(
                true,
            )),
        condition matches Some(name) ==> policy_laws::named_on(displays, name),
        force || exists|a: int, b: int| #[trigger] policy_laws::two_on(displays, a, b),
        switching::internal_disabled(condition, ActionMode::DryRun, force, print_skips, true, t)
            is Ends,
    ensures
        asking::met(
            |s: Seq<ReplyView>|
                switching::internal_disabled(
                    condition,
                    ActionMode::DryRun,
                    force,
                    print_skips,
                    true,
                    s,
                ),
            t,
            memory_laws::printed(
                "dry-run: displayplacer \""@ + ("id:"@ + displays[p].persistent_id->0
                    + " enabled:false"@) + "\""@,
            ),
        ),
{
    policy_laws::panel_is_turned_off_beside_another(displays, condition, force, p);
    let id = displays[p].persistent_id->0;
    let t1 = t.skip(1);
    let t2 = files::list_remembered(displays, t1)->Ends_1;
    lemma_dry_disable(condition, force, print_skips, true, displays, id, t, t1, t2);
    let f = |s: Seq<ReplyView>|
        commands::placer_switched(id, false, ActionMode::DryRun, true, s);
    let line = "dry-run: displayplacer \""@ + ("id:"@ + id + " enabled:false"@) + "\""@;
    dry_switch_says_the_command(id, false, true, t2.take(0));
    dry_switch_says_the_command(id, false, true, t2);
    assert(t2.take(0).len() == 0);
    assert(asking::meets(f, t2, memory_laws::printed(line), 0));
    assert(asking::met(f, t2, memory_laws::printed(line)));
}

proof fn lemma_dry_install_step(
    plist: install::GuardPlistView,
    x: Seq<ReplyView>,
    r1: Seq<ReplyView>,
)
    requires
        effect::said("dry-run: write "@ + plist.shown, x) matches Course::Ends(v, rest)
            && rest == r1,
    ensures
        effect::said(plist.body, r1) is Asks
            ==> asking::wanted(
                install::plist_written(plist, ActionMode::DryRun, x),
            ) == asking::wanted(effect::said(plist.body, r1)),
{
}

proof fn lemma_dry_install(
    plist: install::GuardPlistView,
    t: Seq<ReplyView>,
    t1: Seq<ReplyView>,
)
    requires
        effect::said("dry-run: write "@ + plist.shown, t) matches Course::Ends(v, rest)
            && rest == t1,
    ensures
        asking::leads(
            |s: Seq<ReplyView>| install::plist_written(plist, ActionMode::DryRun, s),
            t,
            |s: Seq<ReplyView>| effect::said(plist.body, s),
            t1,
        ),
        asking::carries(
            |s: Seq<ReplyView>| install::plist_written(plist, ActionMode::DryRun, s),
            t,
            |s: Seq<ReplyView>| effect::said(plist.body, s),
            t1,
        ),
{
    let p = |s: Seq<ReplyView>| install::plist_written(plist, ActionMode::DryRun, s);
    let f = |s: Seq<ReplyView>| effect::said(plist.body, s);
    let q1 = |s: Seq<ReplyView>| effect::said("dry-run: write "@ + plist.shown, s);
    assert(asking::cuts(q1, t, t1)) by {
        front_laws::said_shrinks("dry-run: write "@ + plist.shown, t);
        front_laws::said_cut("dry-run: write "@ + plist.shown, t, 0);
        assert forall|j: int| 0 <= j <= t1.len() implies q1(
            #[trigger] t.take(t.len() - t1.len() + j),
        ) == Course::Ends(q1(t)->Ends_0, t1.take(j)) by {
            front_laws::said_cut("dry-run: write "@ + plist.shown, t, j);
        }
    }
    assert forall|x: Seq<ReplyView>, r1: Seq<ReplyView>| #[trigger]
        asking::step1(p, q1, f, q1(t)->Ends_0, x, r1) by {
        if q1(x) == Course::Ends(q1(t)->Ends_0, r1) {
            lemma_dry_install_step(plist, x, r1);
        }
    }
    asking::lemma_behind1(p, q1, f, t, t1);
}

/// A dry installation prints the property list that it would write.
pub proof fn dry_install_prints_the_plist(plist: install::GuardPlistView, t: Seq<ReplyView>)
    requires
        install::plist_written(plist, ActionMode::DryRun, t) is Ends,
    ensures
        install::plist_written(plist, ActionMode::DryRun, t)->Ends_0 is Ok,
        asking::met(
            |s: Seq<ReplyView>| install::plist_written(plist, ActionMode::DryRun, s),
            t,
            memory_laws::printed(plist.body),
        ),
{
    let t1 = t.skip(1);
    lemma_dry_install(plist, t, t1);
    let f = |s: Seq<ReplyView>| effect::said(plist.body, s);
    assert(t1.take(0).len() == 0);
    assert(asking::meets(f, t1, memory_laws::printed(plist.body), 0));
    assert(asking::met(f, t1, memory_laws::printed(plist.body)));
}

// ---------------------------------------------------------------------------
// The guard's log.
// ---------------------------------------------------------------------------
proof fn lemma_restore_is_logged(
    reason: Seq<char>,
    lid: policy::ClamshellState,
    displays: Option<Seq<DisplayView>>,
    mode: ActionMode,
    verbose: bool,
    t: Seq<ReplyView>,
)
    requires
        policy::guard_decision(lid, displays) == policy::GuardAction::RestoreInternal,
    ensures
        asking::leads(
            |s: Seq<ReplyView>| guard::guard_decided(reason, lid, displays, mode, verbose, s),
            t,
            |s: Seq<ReplyView>| files::logged(
                guard::guard_log(reason, lid, displays, policy::GuardAction::RestoreInternal),
                s,
            ),
            t,
        ),
        asking::carries(
            |s: Seq<ReplyView>| guard::guard_decided(reason, lid, displays, mode, verbose, s),
            t,
            |s: Seq<ReplyView>| files::logged(
                guard::guard_log(reason, lid, displays, policy::GuardAction::RestoreInternal),
                s,
            ),
            t,
        ),
{
    let p = |s: Seq<ReplyView>| guard::guard_decided(reason, lid, displays, mode, verbose, s);
    let f = |s: Seq<ReplyView>| files::logged(
        guard::guard_log(reason, lid, displays, policy::GuardAction::RestoreInternal),
        s,
    );
    assert(t =~= t.skip(t.len() - t.len()));
    assert forall|j: int| 0 <= j <= t.len() && f(t.take(j)) is Asks implies asking::wanted(
        p(#[trigger] t.take(t.len() - t.len() + j)),
    ) == asking::wanted(f(t.take(j))) by {}
    asking::lemma_met_later(p, t, f, t);
}

proof fn lemma_log_names_the_reason(
    reason: Seq<char>,
    lid: policy::ClamshellState,
    displays: Option<Seq<DisplayView>>,
)
    ensures
        agent_laws::within(
            reason,
            guard::guard_log(reason, lid, displays, policy::GuardAction::RestoreInternal),
        ),
{
    let internal = number::bool_text(
        displays is Some && crate::display::internal_on(displays->0),
    );
    let external = number::bool_text(
        displays is Some && crate::display::external_on(displays->0),
    );
    let known = if displays is Some {
        "ok"@
    } else {
        "unavailable"@
    };
    let action = policy::GuardAction::RestoreInternal.name();
    let w0 = "guard: reason="@ + reason;
    let w1 = w0 + " clamshell="@;
    let w2 = w1 + lid.name();
    let w3 = w2 + " state="@;
    let w4 = w3 + known;
    let w5 = w4 + " internal_enabled="@;
    let w6 = w5 + internal;
    let w7 = w6 + " external_enabled="@;
    let w8 = w7 + external;
    let w9 = w8 + " action="@;
    lemma_at_the_end("guard: reason="@, reason);
    lemma_more(reason, w0, " clamshell="@);
    lemma_more(reason, w1, lid.name());
    lemma_more(reason, w2, " state="@);
    lemma_more(reason, w3, known);
    lemma_more(reason, w4, " internal_enabled="@);
    lemma_more(reason, w5, internal);
    lemma_more(reason, w6, " external_enabled="@);
    lemma_more(reason, w7, external);
    lemma_more(reason, w8, " action="@);
    lemma_more(reason, w9, action);
}

/// A restore by the guard is logged, with its reason, before it is done.
pub proof fn guards_restore_is_logged(
    reason: Seq<char>,
    lid: policy::ClamshellState,
    displays: Option<Seq<DisplayView>>,
    mode: ActionMode,
    verbose: bool,
    t: Seq<ReplyView>,
)
    requires
        lid != policy::ClamshellState::Closed,
        displays matches Some(list) ==> policy_laws::dark(list),
        guard::guard_decided(reason, lid, displays, mode, verbose, t) is Ends,
        t[0] matches ReplyView::Done(done) && done is Ok,
    ensures
        ({
            let line = guard::guard_log(
                reason,
                lid,
                displays,
                policy::GuardAction::RestoreInternal,
            );
            &&& agent_laws::within(reason, line)
            &&& asking::met(
                |s: Seq<ReplyView>|
                    guard::guard_decided(reason, lid, displays, mode, verbose, s),
                t,
                file_laws::log_written(line),
            )
        }),
{
    policy_laws::guard_restores_a_dark_machine(lid, displays);
    let line = guard::guard_log(reason, lid, displays, policy::GuardAction::RestoreInternal);
    lemma_restore_is_logged(reason, lid, displays, mode, verbose, t);
    file_laws::messages_get_into_the_log(line, t);
    lemma_log_names_the_reason(reason, lid, displays);
}

// ---------------------------------------------------------------------------
// What does not fail.
// ---------------------------------------------------------------------------
/// What follows the native restore never fails: where the displays cannot be listed,
/// or the switch fails, that is only warned of.
pub proof fn verification_never_fails(mode: ActionMode, verbose: bool, t: Seq<ReplyView>)
    ensures
        guard::restore_verified(mode, verbose, t) matches Course::Ends(r, _) ==> r is Ok,
{
    if let Course::Ends(r, t1) = commands::displays_listed_within(2000, t) {
        if let Ok(parsed) = r {
            if let Course::Ends(_, t2) = guard::noted(mode, parsed.displays, t1) {
                lemma_switch_never_fails(parsed.displays, mode, verbose, t2);
            }
        }
    }
}

proof fn lemma_switch_never_fails(
    displays: Seq<DisplayView>,
    mode: ActionMode,
    verbose: bool,
    t: Seq<ReplyView>,
)
    ensures
        guard::panel_switched(displays, mode, verbose, t) matches Course::Ends(r, _) ==> r is Ok,
{
}

/// Unloading an agent that is not loaded is no failure: it fails only where the
/// user's domain is not to be had.
pub proof fn unloading_fails_without_a_domain(label: Seq<char>, t: Seq<ReplyView>)
    requires
        install::agent_unloaded(label, ActionMode::Execute, t) is Ends,
    ensures
        install::agent_unloaded(label, ActionMode::Execute, t)->Ends_0 is Ok <==> (
        install::domain_found(t) matches Course::Ends(r, _) && r is Ok),
{
}

/// Where no id of the panel is known, the fallback is passed over.
pub proof fn no_id_no_fallback(mode: ActionMode, verbose: bool, t: Seq<ReplyView>)
    requires
        restore::fallback_tried(mode, verbose, t) is Ends,
        files::value_read("internal_id"@, t) matches Course::Ends(r, _) && r == Ok::<
            Option<Seq<char>>,
            Seq<char>,
        >(None),
    ensures
        restore::fallback_tried(mode, verbose, t)->Ends_0 is Ok,
{
}

/// The lid is open only where the report says so; where there is no report it is
/// unknown.
pub proof fn open_is_what_was_said(verbose: bool, t: Seq<ReplyView>)
    requires
        restore::lid_read(verbose, t) is Ends,
    ensures
        ({
            let words = seq!["-r"@, "-k"@, "AppleClamshellState"@, "-d"@, "4"@];
            let lid = restore::lid_read(verbose, t)->Ends_0;
            match commands::timed_run("ioreg"@, words, 1000, t) {
                Course::Ends(Ok(capture), _) => lid == policy::ClamshellState::Open ==> exists|
                    a: Seq<char>,
                    b: Seq<char>,
                |
                    capture.stdout == #[trigger] (a + "\"AppleClamshellState\" = No"@ + b),
                Course::Ends(Err(_), _) => lid == policy::ClamshellState::Unknown,
                Course::Asks(_) => false,
            }
        }),
{
    let words = seq!["-r"@, "-k"@, "AppleClamshellState"@, "-d"@, "4"@];
    if let Course::Ends(Ok(capture), _) = commands::timed_run("ioreg"@, words, 1000, t) {
        policy_laws::lid_is_told_by_the_report(capture.stdout);
    }
}

/// Between the two halves of a reset the displays are given time to settle.
pub proof fn reset_lets_displays_settle(t: Seq<ReplyView>)
    ensures
        t.len() == 0 ==> guard::settling_awaited(ActionMode::Execute, t) == Course::<()>::Asks(
            EffectView::Sleep(500),
        ),
        t.len() > 0 ==> (guard::settling_awaited(ActionMode::Execute, t) matches Course::Ends(
            _,
            rest,
        ) && rest == t.skip(1)),
        guard::settling_awaited(ActionMode::DryRun, t) matches Course::Ends(_, rest) && rest == t,
{
}

proof fn lemma_output_is_passed_on_step(
    id: Seq<char>,
    enabled: bool,
    capture: CaptureView,
    x: Seq<ReplyView>,
    r1: Seq<ReplyView>,
    r2: Seq<ReplyView>,
)
    requires
        capture.success,
        effect::said_if(
            true,
            "running: displayplacer \""@ + placer::switch_argument(id, enabled) + "\""@,
            x,
        ) matches Course::Ends(v, rest)
            && rest == r1,
        effect::asks_ran(
            EffectView::Run { program: "displayplacer"@, arguments: seq![placer::switch_argument(id, enabled)] },
            r1,
        ) matches Course::Ends(v, rest)
            && v == Ok::<CaptureView, Seq<char>>(capture) && rest == r2,
    ensures
        effect::asks_any(EffectView::Print(capture.stdout), r2) is Asks
            ==> asking::wanted(
                commands::placer_switched(id, enabled, ActionMode::Execute, true, x),
            ) == asking::wanted(effect::asks_any(EffectView::Print(capture.stdout), r2)),
{
}

proof fn lemma_output_is_passed_on(
    id: Seq<char>,
    enabled: bool,
    capture: CaptureView,
    t: Seq<ReplyView>,
    t1: Seq<ReplyView>,
    t2: Seq<ReplyView>,
)
    requires
        capture.success,
        effect::said_if(
            true,
            "running: displayplacer \""@ + placer::switch_argument(id, enabled) + "\""@,
            t,
        ) matches Course::Ends(v, rest)
            && rest == t1,
        effect::asks_ran(
            EffectView::Run { program: "displayplacer"@, arguments: seq![placer::switch_argument(id, enabled)] },
            t1,
        ) matches Course::Ends(v, rest)
            && v == Ok::<CaptureView, Seq<char>>(capture) && rest == t2,
    ensures
        asking::leads(
            |s: Seq<ReplyView>| commands::placer_switched(
                id,
                enabled,
                ActionMode::Execute,
                true,
                s,
            ),
            t,
            |s: Seq<ReplyView>| effect::asks_any(EffectView::Print(capture.stdout), s),
            t2,
        ),
        asking::carries(
            |s: Seq<ReplyView>| commands::placer_switched(
                id,
                enabled,
                ActionMode::Execute,
                true,
                s,
            ),
            t,
            |s: Seq<ReplyView>| effect::asks_any(EffectView::Print(capture.stdout), s),
            t2,
        ),
{
    let p = |s: Seq<ReplyView>| commands::placer_switched(
        id,
        enabled,
        ActionMode::Execute,
        true,
        s,
    );
    let f = |s: Seq<ReplyView>| effect::asks_any(EffectView::Print(capture.stdout), s);
    let q1 = |s: Seq<ReplyView>| effect::said_if(
        true,
        "running: displayplacer \""@ + placer::switch_argument(id, enabled) + "\""@,
        s,
    );
    let q2 = |s: Seq<ReplyView>| effect::asks_ran(
        EffectView::Run { program: "displayplacer"@, arguments: seq![placer::switch_argument(id, enabled)] },
        s,
    );
    assert(asking::cuts(q1, t, t1)) by {
        front_laws::said_if_shrinks(
            true,
            "running: displayplacer \""@ + placer::switch_argument(id, enabled) + "\""@,
            t,
        );
        front_laws::said_if_cut(
            true,
            "running: displayplacer \""@ + placer::switch_argument(id, enabled) + "\""@,
            t,
            0,
        );
        assert forall|j: int| 0 <= j <= t1.len() implies q1(
            #[trigger] t.take(t.len() - t1.len() + j),
        ) == Course::Ends(q1(t)->Ends_0, t1.take(j)) by {
            front_laws::said_if_cut(
                true,
                "running: displayplacer \""@ + placer::switch_argument(id, enabled) + "\""@,
                t,
                j,
            );
        }
    }
    assert(asking::cuts(q2, t1, t2)) by {
        front_laws::asks_ran_shrinks(
            EffectView::Run { program: "displayplacer"@, arguments: seq![placer::switch_argument(id, enabled)] },
            t1,
        );
        front_laws::asks_ran_cut(
            EffectView::Run { program: "displayplacer"@, arguments: seq![placer::switch_argument(id, enabled)] },
            t1,
            0,
        );
        assert forall|j: int| 0 <= j <= t2.len() implies q2(
            #[trigger] t1.take(t1.len() - t2.len() + j),
        ) == Course::Ends(q2(t1)->Ends_0, t2.take(j)) by {
            front_laws::asks_ran_cut(
                EffectView::Run { program: "displayplacer"@, arguments: seq![placer::switch_argument(id, enabled)] },
                t1,
                j,
            );
        }
    }
    assert forall|x: Seq<ReplyView>, r1: Seq<ReplyView>, r2: Seq<ReplyView>| #[trigger]
        asking::step2(p, q1, q2, f, q1(t)->Ends_0, q2(t1)->Ends_0, x, r1, r2) by {
        if q1(x) == Course::Ends(q1(t)->Ends_0, r1) && q2(r1) == Course::Ends(q2(t1)->Ends_0, r2) {
            lemma_output_is_passed_on_step(id, enabled, capture, x, r1, r2);
        }
    }
    asking::lemma_behind2(p, q1, q2, f, t, t1, t2);
}

/// What the command said is passed on, where that is asked for.
pub proof fn output_is_passed_on(
    id: Seq<char>,
    enabled: bool,
    capture: CaptureView,
    t: Seq<ReplyView>,
)
    requires
        commands::placer_switched(id, enabled, ActionMode::Execute, true, t) is Ends,
        t.len() > 1,
        t[1] == ReplyView::Ran(Ok(capture)),
        capture.success,
    ensures
        asking::met(
            |s: Seq<ReplyView>|
                commands::placer_switched(id, enabled, ActionMode::Execute, true, s),
            t,
            output_printed(capture.stdout),
        ),
{
    let t1 = t.skip(1);
    let t2 = t1.skip(1);
    assert(t1[0] == t[1]);
    lemma_output_is_passed_on(id, enabled, capture, t, t1, t2);
    let f = |s: Seq<ReplyView>| effect::asks_any(EffectView::Print(capture.stdout), s);
    assert(t2.take(0).len() == 0);
    assert(asking::meets(f, t2, output_printed(capture.stdout), 0));
    assert(asking::met(f, t2, output_printed(capture.stdout)));
}

/// The text was printed as it is.
pub open spec fn output_printed(body: Seq<char>) -> spec_fn(EffectView, ReplyView) -> bool {
    |e: EffectView, r: ReplyView| e == EffectView::Print(body)
}

// ---------------------------------------------------------------------------
// Rounds of the interactive mode.
// ---------------------------------------------------------------------------
/// A round takes its stages in order; an input is handled before the events are
/// looked at, and a stage that fails ends the mode.
pub proof fn stages_are_taken_in_order(ui: UiView, t: Seq<ReplyView>)
    ensures
        ui.stage == Stage::Input && t.len() > 0 ==> match effect::as_input(t[0]) {
            Err(error) => interactive::stepped(ui, t) == Course::Ends(
                Err::<Option<UiView>, Seq<char>>(error),
                t.skip(1),
            ),
            Ok(None) => interactive::stepped(ui, t) == Course::Ends(
                Ok::<Option<UiView>, Seq<char>>(Some(UiView { stage: Stage::Displays, ..ui })),
                t.skip(1),
            ),
            Ok(Some(input)) => interactive::stepped(ui, t) == interactive::input_handled(
                UiView { stage: Stage::Displays, ..ui },
                input,
                t.skip(1),
            ),
        },
{
}

/// The events of the displays and those of the power have a stage each, and neither
/// ends the mode.
pub proof fn events_have_their_stages(ui: UiView, t: Seq<ReplyView>)
    ensures
        ui.stage == Stage::Displays ==> interactive::stepped(ui, t) == interactive::kept_open(
            interactive::display_stage(ui, t),
        ),
        ui.stage == Stage::Power ==> interactive::stepped(ui, t) == interactive::kept_open(
            interactive::power_stage(ui, t),
        ),
{
}

/// The width is what the terminal says, or 100 columns where it says nothing.
pub proof fn width_is_the_terminals(columns: Option<u16>)
    ensures
        columns matches Some(n) ==> interactive::width_of(columns) == n,
        columns is None ==> interactive::width_of(columns) == 100,
{
}

/// What was done at the start is told, and the list read once more where the panel
/// was switched.
pub proof fn start_is_told_of(
    ui: UiView,
    r: Result<policy::AutoWatchAction, Seq<char>>,
    t: Seq<ReplyView>,
)
    requires
        t.len() == 0,
    ensures
        match r {
            Err(error) => interactive::start_told(ui, r, t) == Course::Ends(
                UiView { status: "auto watch failed: "@ + error, ..ui },
                t,
            ),
            Ok(action) => if action == policy::AutoWatchAction::Idle {
                interactive::start_told(ui, r, t) == Course::Ends(ui, t)
            } else {
                interactive::start_told(ui, r, t) == Course::<UiView>::Asks(
                    EffectView::Run { program: "displayplacer"@, arguments: seq!["list"@] },
                )
            },
        },
{
}

/// What is listed besides the displays that are there comes from the state file and
/// from the saved targets.
pub proof fn list_is_merged_from_both_files(live: Seq<DisplayView>, t: Seq<ReplyView>, i: int)
    requires
        files::displays_merged(live, t) matches Course::Ends(r, _) && r is Ok,
        all_saved_differ(effect::as_file(t[1])->Ok_0),
    ensures
        t.len() >= 2,
        ({
            let all = files::displays_merged(live, t)->Ends_0->Ok_0;
            let saved = target::targets_of_file(effect::as_file(t[1])->Ok_0);
            0 <= i < saved.len() ==> state_laws::shows(all, live, saved[i].absent_display())
        }),
{
    assert(t.skip(1)[0] == t[1]);
    let known = effect::as_file(t[0])->Ok_0;
    let saved = effect::as_file(t[1])->Ok_0;
    if 0 <= i < target::targets_of_file(saved).len() {
        state_laws::saved_targets_are_listed(known, saved, live, i);
    }
}

/// No two of the saved targets are one display.
pub open spec fn all_saved_differ(saved: Option<Seq<char>>) -> bool {
    state_laws::all_different(state::absent_displays(target::targets_of_file(saved)))
}

/// What is recorded as the panel is the first panel that was seen, or where none was,
/// the first that is remembered.
pub proof fn seen_panel_is_recorded(
    seen: Seq<DisplayView>,
    remembered: Seq<DisplayView>,
    p: int,
    q: int,
)
    requires
        0 <= p <= seen.len(),
        forall|i: int| 0 <= i < p && i < seen.len() ==> !(#[trigger] seen[i]).internal(),
        p < seen.len() ==> seen[p].internal(),
        0 <= q <= remembered.len(),
        forall|i: int|
            0 <= i < q && i < remembered.len() ==> !(#[trigger] remembered[i]).internal(),
        q < remembered.len() ==> remembered[q].internal(),
    ensures
        state::recorded_panel(seen, remembered) == (if p < seen.len() {
            Some(seen[p])
        } else if q < remembered.len() {
            Some(remembered[q])
        } else {
            None
        }),
{
    key_laws::first_panel_is_the_panel(seen, p);
    key_laws::first_panel_is_the_panel(remembered, q);
}

/// Where events cannot be had, that is told at the start: those of the displays
/// first, and those of the power where the displays are fine.
pub proof fn missing_events_are_told(seconds: u64, t: Seq<ReplyView>, s: Seq<ReplyView>)
    requires
        t.len() > 0,
        s.len() > 0,
    ensures
        watch::events_started(seconds, t) matches Course::Ends(events, _)
            && interactive::power_started(s) matches Course::Ends(power, _) && {
            &&& events is None <==> t[0] == ReplyView::Flag(true)
            &&& power is None <==> (s[0] matches ReplyView::Done(done) && done is Ok)
            &&& interactive::first_status(events, power) == (match events {
                Some(line) => line,
                None => match power {
                    Some(line) => line,
                    None => "ready"@,
                },
            })
        },
{
}

} // verus!
