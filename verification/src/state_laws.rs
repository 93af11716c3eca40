//! What holds of the state file: it reads back as it was written, numbers stay
//! known, and no live display is lost among the remembered ones.

use vstd::prelude::*;

use crate::display;
use crate::display::DisplayView;
use crate::ids;
use crate::number;
use crate::state;
use crate::target;
use crate::target_laws;
use crate::text;

verus! {

// ---------------------------------------------------------------------------
// Numbers.
// ---------------------------------------------------------------------------
/// The numbers recorded of the remembered displays are those that the displays
/// have, each once and in order.
pub proof fn recorded_numbers_are_the_displays_numbers(displays: Seq<DisplayView>)
    ensures
        ids::increasing(state::numbers_of(displays)),
        forall|x: u32| #[trigger]
            state::numbers_of(displays).contains(x) <==> exists|i: int|
                0 <= i < displays.len() && #[trigger] displays[i].number() == Some(x),
    decreases displays.len(),
{
    if displays.len() > 0 {
        let init = displays.drop_last();
        recorded_numbers_are_the_displays_numbers(init);
        let last = displays.last().number();
        if let Some(n) = last {
            ids::lemma_with_id(state::numbers_of(init), n);
        }
        assert forall|x: u32| #[trigger]
            state::numbers_of(displays).contains(x) <==> exists|i: int|
                0 <= i < displays.len() && #[trigger] displays[i].number() == Some(x) by {
            if state::numbers_of(displays).contains(x) {
                if state::numbers_of(init).contains(x) {
                    let i = choose|i: int|
                        0 <= i < init.len() && #[trigger] init[i].number() == Some(x);
                    assert(displays[i].number() == Some(x));
                } else {
                    assert(displays[displays.len() - 1].number() == Some(x));
                }
            }
            if exists|i: int| 0 <= i < displays.len() && #[trigger] displays[i].number() == Some(x) {
                let i = choose|i: int|
                    0 <= i < displays.len() && #[trigger] displays[i].number() == Some(x);
                if i < init.len() {
                    assert(init[i].number() == Some(x));
                    assert(state::numbers_of(init).contains(x));
                }
            }
        }
    }
}

proof fn lemma_with_values(ids: Seq<u32>, values: Seq<Seq<char>>)
    requires
        ids::increasing(ids),
    ensures
        ids::increasing(state::with_values(ids, values)),
    decreases values.len(),
{
    if values.len() > 0 {
        lemma_with_values(ids, values.drop_last());
        if let Some(n) = state::number_of(values.last()) {
            ids::lemma_with_id(state::with_values(ids, values.drop_last()), n);
        }
    }
}

/// The numbers that a file names come out each once and in order.
pub proof fn named_numbers_are_increasing(body: Seq<char>)
    ensures
        ids::increasing(state::numbers_in(body)),
{
    if let Some(value) = state::state_value(body, "internal_display_id"@) {
        if let Some(n) = state::number_of(value) {
            ids::lemma_with_id(Seq::empty(), n);
        }
    }
    let start = match state::state_value(body, "internal_display_id"@) {
        Some(value) => ids::with_id_opt(Seq::empty(), state::number_of(value)),
        None => Seq::empty(),
    };
    lemma_with_values(start, state::state_values(body, "known_display_id"@));
}

proof fn lemma_known_line(n: u32)
    ensures
        target_laws::lacks(state::known_line(n), '\n'),
        state::known_line(n).len() > 0,
        state::known_line(n)[0] == 'k',
        text::without_cr(state::known_line(n)) == state::known_line(n),
        text::parted(state::known_line(n), '=') == Some(("known_display_id"@, number::dec(n as nat))),
        state::known_line(n) + "\n"@ == state::value_line("known_display_id"@, Some(number::dec(n as nat))),
{
    reveal_strlit("known_display_id=");
    reveal_strlit("known_display_id");
    reveal_strlit("=");
    number::decimal_is_digits(n as nat);
    let key = "known_display_id"@;
    assert("known_display_id="@ =~= key + "="@);
    let line = state::known_line(n);
    let digits = number::dec(n as nat);
    assert forall|i: int| 0 <= i < line.len() implies line[i] != '\n' && line[i] != '\r' by {
        if i >= "known_display_id="@.len() {
            assert(line[i] == digits[i - "known_display_id="@.len()]);
            assert(number::is_digit(digits[i - "known_display_id="@.len()]));
        } else {
            assert(line[i] == "known_display_id="@[i]);
        }
    }
    assert(line[key.len() as int] == '=');
    text::lemma_find_is(line, '=', key.len() as int);
    assert(line.take(key.len() as int) =~= key);
    assert(line.skip(key.len() as int + 1) =~= digits);
}

proof fn lemma_line_end(body: Seq<char>)
    requires
        body.len() > 0,
        body.last() != '\n',
        body.last() != '\r',
    ensures
        text::text_lines(body + "\n"@) == text::text_lines(body),
    decreases body.len(),
{
    target_laws::lemma_tab();
    text::lemma_find(body, '\n');
    let at = text::find(body, '\n');
    let s = body + "\n"@;
    assert forall|i: int| 0 <= i < at implies s[i] != '\n' by {
        assert(s[i] == body[i]);
    }
    if at == body.len() {
        assert(s[at] == '\n');
        text::lemma_find_is(s, '\n', at);
        assert(s.take(at) =~= body);
        assert(s.skip(at + 1) =~= Seq::empty());
        assert(text::text_lines(Seq::empty()) =~= Seq::empty());
        assert(text::text_lines(s) =~= seq![body]);
    } else {
        assert(s[at] == body[at]);
        text::lemma_find_is(s, '\n', at);
        let rest = body.skip(at + 1);
        assert(s.take(at) =~= body.take(at));
        assert(s.skip(at + 1) =~= rest + "\n"@);
        assert(rest.len() > 0) by {
            if rest.len() == 0 {
                assert(at == body.len() - 1);
                assert(body[at] == body.last());
            }
        }
        assert(rest.last() == body.last());
        lemma_line_end(rest);
    }
}

proof fn lemma_values_push(lines: Seq<Seq<char>>, line: Seq<char>, key: Seq<char>)
    ensures
        state::values_of_lines(lines.push(line), key) == (match text::parted(line, '=') {
            Some(p) => if p.0 == key {
                state::values_of_lines(lines, key).push(p.1)
            } else {
                state::values_of_lines(lines, key)
            },
            None => state::values_of_lines(lines, key),
        }),
{
    assert(lines.push(line).drop_last() =~= lines);
    assert(lines.push(line).last() == line);
}

proof fn lemma_keys()
    ensures
        "known_display_id"@ != "internal_display_id"@,
        "known_display_id"@[0] == 'k',
        "internal_display_id"@[0] == 'i',
        "internal_display_id"@.len() > 0,
{
    reveal_strlit("known_display_id");
    reveal_strlit("internal_display_id");
    assert("known_display_id"@[0] != "internal_display_id"@[0]);
}

proof fn lemma_new_lines(body: Seq<char>, n: u32)
    requires
        state::state_with_number(body, n) is Some,
    ensures
        ({
            let base = if body.len() > 0 && body.last() != '\n' {
                body + "\n"@
            } else {
                body
            };
            text::text_lines(state::state_with_number(body, n)->0) == text::text_lines(base).push(state::known_line(n))
        }),
{
    target_laws::lemma_tab();
    lemma_known_line(n);
    let base = if body.len() > 0 && body.last() != '\n' {
        body + "\n"@
    } else {
        body
    };
    target_laws::lemma_lines_append(base, state::known_line(n));
}

/// Once a number has been remembered, it is among the numbers that the file
/// names.
pub proof fn remembered_number_is_named(body: Seq<char>, n: u32)
    requires
        state::state_with_number(body, n) is Some,
    ensures
        state::numbers_in(state::state_with_number(body, n)->0).contains(n),
{
    lemma_new_lines(body, n);
    lemma_known_line(n);
    lemma_keys();
    let new = state::state_with_number(body, n)->0;
    let base = if body.len() > 0 && body.last() != '\n' {
        body + "\n"@
    } else {
        body
    };
    let lines = text::text_lines(base);
    lemma_values_push(lines, state::known_line(n), "known_display_id"@);
    number::decimal_reads_back(n);
    let values = state::state_values(new, "known_display_id"@);
    assert(values.last() == number::dec(n as nat));
    let start = match state::state_value(new, "internal_display_id"@) {
        Some(value) => ids::with_id_opt(Seq::empty(), state::number_of(value)),
        None => Seq::empty(),
    };
    if let Some(value) = state::state_value(new, "internal_display_id"@) {
        if let Some(m) = state::number_of(value) {
            ids::lemma_with_id(Seq::empty(), m);
        }
    }
    lemma_with_values(start, values.drop_last());
    ids::lemma_with_id(state::with_values(start, values.drop_last()), n);
}

/// Remembering a number adds that number to those that the file names and
/// changes nothing else about them, where the file does not end in a carriage
/// return.
pub proof fn remembering_adds_one_number(body: Seq<char>, n: u32)
    requires
        state::state_with_number(body, n) is Some,
        body.len() > 0 ==> body.last() != '\r',
    ensures
        state::numbers_in(state::state_with_number(body, n)->0) == ids::with_id(state::numbers_in(body), n),
{
    lemma_new_lines(body, n);
    lemma_known_line(n);
    lemma_keys();
    if body.len() > 0 && body.last() != '\n' {
        lemma_line_end(body);
    }
    let new = state::state_with_number(body, n)->0;
    let lines = text::text_lines(body);
    lemma_values_push(lines, state::known_line(n), "known_display_id"@);
    lemma_values_push(lines, state::known_line(n), "internal_display_id"@);
    number::decimal_reads_back(n);
    let values = state::state_values(new, "known_display_id"@);
    assert(values.drop_last() =~= state::state_values(body, "known_display_id"@));
}

/// A number that has been remembered need not be written again.
pub proof fn remembering_twice_writes_once(body: Seq<char>, n: u32)
    requires
        state::state_with_number(body, n) is Some,
    ensures
        state::state_with_number(state::state_with_number(body, n)->0, n) is None,
{
    lemma_new_lines(body, n);
    let lines = text::text_lines(state::state_with_number(body, n)->0);
    assert(lines.last() == state::known_line(n));
    assert(lines[lines.len() - 1] == state::known_line(n));
}

// ---------------------------------------------------------------------------
// The list of remembered displays.
// ---------------------------------------------------------------------------
/// Remembering a display leaves every other entry as it was; the display itself
/// is in the list afterwards, put away.
pub proof fn remembering_keeps_the_others(displays: Seq<DisplayView>, display: DisplayView)
    ensures
        state::upserted(displays, display).contains(state::put_away(display)),
        displays.len() <= state::upserted(displays, display).len() <= displays.len() + 1,
        forall|i: int|
            0 <= i < displays.len() && i != state::known_at(displays, display) ==> (#[trigger] state::upserted(
                displays,
                display,
            )[i]) == displays[i],
{
    state::lemma_known_at(displays, display);
    let at = state::known_at(displays, display);
    assert(state::upserted(displays, display)[at] == state::put_away(display));
}

/// All entries are put away.
pub open spec fn all_away(displays: Seq<DisplayView>) -> bool {
    forall|i: int| 0 <= i < displays.len() ==> (#[trigger] displays[i]) == state::put_away(displays[i])
}

proof fn lemma_upserted_away(displays: Seq<DisplayView>, display: DisplayView)
    requires
        all_away(displays),
    ensures
        all_away(state::upserted(displays, display)),
{
    state::lemma_known_at(displays, display);
}

proof fn lemma_lines_away(lines: Seq<Seq<char>>)
    ensures
        all_away(state::displays_of_lines(lines)),
    decreases lines.len(),
{
    if lines.len() > 0 {
        lemma_lines_away(lines.drop_last());
        if let Some(raw) = text::stripped(lines.last(), "display\t"@) {
            if let Some(display) = state::display_of_line(raw) {
                lemma_upserted_away(state::displays_of_lines(lines.drop_last()), display);
            }
        }
    }
}

/// Whatever the file holds, the displays read from it count as off and absent,
/// and none as the main one.
pub proof fn remembered_displays_are_away(body: Seq<char>)
    ensures
        all_away(state::remembered_in(body)),
{
    let displays = state::displays_of_lines(text::text_lines(body));
    lemma_lines_away(text::text_lines(body));
    if let Some(number) = state::state_value(body, "internal_display_id"@) {
        lemma_upserted_away(displays, crate::state::panel_of_values(body, number));
    }
}

// ---------------------------------------------------------------------------
// Lines.
// ---------------------------------------------------------------------------
/// What a line keeps of a display.
pub open spec fn recalled(display: DisplayView) -> DisplayView {
    DisplayView {
        persistent_id: target_laws::kept_value(display.persistent_id),
        contextual_id: target_laws::kept_value(display.contextual_id),
        serial_id: target_laws::kept_value(display.serial_id),
        display_type: Some(
            match target_laws::kept_value(display.display_type) {
                Some(t) => t,
                None => if display.internal() {
                    "MacBook built in screen"@
                } else {
                    "remembered external display"@
                },
            },
        ),
        resolution: target_laws::kept_value(display.resolution),
        ..state::put_away(display::blank_display())
    }
}

pub open spec fn is_state_key(key: Seq<char>) -> bool {
    ||| key == "contextual"@
    ||| key == "persistent"@
    ||| key == "serial"@
    ||| key == "type"@
    ||| key == "resolution"@
}

proof fn lemma_state_key_chars(key: Seq<char>)
    requires
        is_state_key(key),
    ensures
        target_laws::lacks(key, '='),
        target_laws::lacks(key, '\t'),
        target_laws::lacks(key, '\n'),
        key.len() > 0,
{
    reveal_strlit("contextual");
    reveal_strlit("serial");
    reveal_strlit("persistent");
    reveal_strlit("type");
    reveal_strlit("resolution");
}

proof fn lemma_state_keys_differ()
    ensures
        "contextual"@ != "persistent"@,
        "contextual"@ != "serial"@,
        "persistent"@ != "serial"@,
        "contextual"@ != "type"@,
        "persistent"@ != "type"@,
        "serial"@ != "type"@,
        "contextual"@ != "resolution"@,
        "persistent"@ != "resolution"@,
        "serial"@ != "resolution"@,
        "type"@ != "resolution"@,
        "contextual"@ != "internal"@,
        "persistent"@ != "internal"@,
        "serial"@ != "internal"@,
        "type"@ != "internal"@,
        "resolution"@ != "internal"@,
{
    reveal_strlit("contextual");
    reveal_strlit("serial");
    reveal_strlit("persistent");
    reveal_strlit("type");
    reveal_strlit("resolution");
    reveal_strlit("internal");
    assert("contextual"@[0] == 'c');
    assert("serial"@[0] == 's');
    assert("persistent"@[0] == 'p');
    assert("type"@[0] == 't');
    assert("resolution"@[0] == 'r');
    assert("internal"@[0] == 'i');
}

proof fn lemma_scan_step(fields: Seq<Seq<char>>, key: Seq<char>, value: Option<Seq<char>>)
    requires
        is_state_key(key),
    ensures
        state::scan_fields(fields + target::field_of(key, value)) == (match value {
            Some(v) => state::scan_value(state::scan_fields(fields), key, v),
            None => state::scan_fields(fields),
        }),
{
    match value {
        Some(v) => {
            let all = fields + target::field_of(key, value);
            assert(all.drop_last() =~= fields);
            assert(all.last() == key + "="@ + target::encoded(v));
            lemma_state_key_chars(key);
            target_laws::lemma_field_parts(key, v);
            target_laws::decoding_undoes_encoding(v);
        },
        None => {
            assert(fields + target::field_of(key, value) =~= fields);
        },
    }
}

proof fn lemma_flag_field(b: bool)
    ensures
        ({
            let field = "internal="@ + number::bool_text(b);
            &&& text::parted(field, '=') == Some(("internal"@, number::bool_text(b)))
            &&& target::decoded(number::bool_text(b)) == number::bool_text(b)
            &&& target_laws::lacks(field, '\t')
            &&& target_laws::lacks(field, '\n')
            &&& field.len() > 0
            &&& field.last() == 'e'
        }),
        "true"@ != "false"@,
{
    reveal_strlit("internal=");
    reveal_strlit("internal");
    reveal_strlit("true");
    reveal_strlit("false");
    reveal_strlit("=");
    let word = number::bool_text(b);
    let field = "internal="@ + word;
    assert("internal="@ =~= "internal"@ + "="@);
    assert(field[8] == '=');
    text::lemma_find_is(field, '=', 8);
    assert(field.take(8) =~= "internal"@);
    assert(field.skip(9) =~= word);
    lemma_plain(word);
    target_laws::decoding_undoes_encoding(word);
    assert("true"@.len() != "false"@.len());
}

proof fn lemma_plain(w: Seq<char>)
    requires
        forall|i: int| 0 <= i < w.len() ==> w[i] != '\\' && w[i] != '\t' && w[i] != '\n',
    ensures
        target::encoded(w) == w,
    decreases w.len(),
{
    if w.len() > 0 {
        let rest = w.skip(1);
        assert forall|i: int| 0 <= i < rest.len() implies rest[i] != '\\' && rest[i] != '\t'
            && rest[i] != '\n' by {
            assert(rest[i] == w[i + 1]);
        }
        lemma_plain(rest);
        assert(seq![w[0]] + rest =~= w);
    } else {
        assert(target::encoded(w) =~= w);
    }
}

proof fn lemma_scan_display(display: DisplayView)
    ensures
        state::typed(state::scan_fields(state::display_fields(display))) == recalled(display),
{
    lemma_state_keys_differ();
    let f0 = Seq::<Seq<char>>::empty();
    let f1 = f0 + target::field_of("contextual"@, display.contextual_id);
    let f2 = f1 + target::field_of("persistent"@, display.persistent_id);
    let f3 = f2 + target::field_of("serial"@, display.serial_id);
    let f4 = f3 + target::field_of("type"@, display.display_type);
    let f5 = f4 + target::field_of("resolution"@, display.resolution);
    let flag = "internal="@ + number::bool_text(display.internal());
    let f6 = f5 + seq![flag];
    assert(f1 =~= target::field_of("contextual"@, display.contextual_id));
    assert(f6 == state::display_fields(display));
    lemma_scan_step(f0, "contextual"@, display.contextual_id);
    lemma_scan_step(f1, "persistent"@, display.persistent_id);
    lemma_scan_step(f2, "serial"@, display.serial_id);
    lemma_scan_step(f3, "type"@, display.display_type);
    lemma_scan_step(f4, "resolution"@, display.resolution);
    lemma_flag_field(display.internal());
    assert(f6.drop_last() =~= f5);
    assert(f6.last() == flag);
    assert(state::scan_fields(f0) == state::empty_line_scan());
    let scan = state::scan_fields(f6);
    assert(scan.hint == display.internal());
}

proof fn lemma_joined_cons(first: Seq<char>, rest: Seq<Seq<char>>, sep: Seq<char>)
    requires
        rest.len() > 0,
    ensures
        text::joined(seq![first] + rest, sep) == first + sep + text::joined(rest, sep),
    decreases rest.len(),
{
    let all = seq![first] + rest;
    assert(all.last() == rest.last());
    assert(all.drop_last() =~= seq![first] + rest.drop_last());
    if rest.len() == 1 {
        assert(all.drop_last() =~= seq![first]);
        assert(text::joined(seq![first], sep) == first);
        assert(text::joined(rest, sep) == rest.last());
    } else {
        lemma_joined_cons(first, rest.drop_last(), sep);
        assert(first + sep + text::joined(rest.drop_last(), sep) + sep + rest.last() =~= first + sep + (
        text::joined(rest.drop_last(), sep) + sep + rest.last()));
    }
}

proof fn lemma_field_lacks(key: Seq<char>, value: Seq<char>)
    requires
        is_state_key(key),
    ensures
        target_laws::lacks(key + "="@ + target::encoded(value), '\t'),
        target_laws::lacks(key + "="@ + target::encoded(value), '\n'),
{
    reveal_strlit("=");
    lemma_state_key_chars(key);
    target_laws::encoding_has_no_breaks(value);
    let field = key + "="@ + target::encoded(value);
    assert forall|i: int| 0 <= i < field.len() implies field[i] != '\t' && field[i] != '\n' by {
        if i < key.len() {
            assert(field[i] == key[i]);
        } else if i == key.len() {
            assert(field[i] == '=');
        } else {
            assert(field[i] == target::encoded(value)[i - key.len() - 1]);
        }
    }
}

pub open spec fn unbroken(fields: Seq<Seq<char>>) -> bool {
    forall|i: int|
        0 <= i < fields.len() ==> target_laws::lacks(#[trigger] fields[i], '\t') && target_laws::lacks(fields[i], '\n')
}

proof fn lemma_unbroken_step(fields: Seq<Seq<char>>, key: Seq<char>, value: Option<Seq<char>>)
    requires
        unbroken(fields),
        is_state_key(key),
    ensures
        unbroken(fields + target::field_of(key, value)),
{
    let all = fields + target::field_of(key, value);
    if let Some(v) = value {
        lemma_field_lacks(key, v);
        let field = key + "="@ + target::encoded(v);
        assert forall|i: int| 0 <= i < all.len() implies target_laws::lacks(#[trigger] all[i], '\t') && target_laws::lacks(
            all[i],
            '\n',
        ) by {
            if i < fields.len() {
                assert(all[i] == fields[i]);
            } else {
                assert(all[i] == field);
            }
        }
    } else {
        assert(all =~= fields);
    }
}

proof fn lemma_display_fields_unbroken(display: DisplayView)
    ensures
        unbroken(state::display_fields(display)),
        state::display_fields(display).len() > 0,
        state::display_fields(display).last() == "internal="@ + number::bool_text(display.internal()),
{
    let f0 = Seq::<Seq<char>>::empty();
    let f1 = f0 + target::field_of("contextual"@, display.contextual_id);
    let f2 = f1 + target::field_of("persistent"@, display.persistent_id);
    let f3 = f2 + target::field_of("serial"@, display.serial_id);
    let f4 = f3 + target::field_of("type"@, display.display_type);
    let f5 = f4 + target::field_of("resolution"@, display.resolution);
    let flag = "internal="@ + number::bool_text(display.internal());
    let f6 = f5 + seq![flag];
    assert(f1 =~= target::field_of("contextual"@, display.contextual_id));
    assert(f6 == state::display_fields(display));
    lemma_unbroken_step(f0, "contextual"@, display.contextual_id);
    lemma_unbroken_step(f1, "persistent"@, display.persistent_id);
    lemma_unbroken_step(f2, "serial"@, display.serial_id);
    lemma_unbroken_step(f3, "type"@, display.display_type);
    lemma_unbroken_step(f4, "resolution"@, display.resolution);
    lemma_flag_field(display.internal());
    assert forall|i: int| 0 <= i < f6.len() implies target_laws::lacks(#[trigger] f6[i], '\t') && target_laws::lacks(
        f6[i],
        '\n',
    ) by {
        if i < f5.len() {
            assert(f6[i] == f5[i]);
        } else {
            assert(f6[i] == flag);
        }
    }
}

proof fn lemma_recalled_stable(display: DisplayView)
    ensures
        recalled(display).stable() == display.stable(),
        recalled(display).persistent_id == target_laws::kept_value(display.persistent_id),
{
    target_laws::lemma_kept_value_identity(display.persistent_id);
    target_laws::lemma_kept_value_identity(display.serial_id);
}

/// The line of a display with a stable id starts with its word, and reads back
/// as the display: off and absent, with its ids, type and resolution.
pub proof fn display_line_reads_back(display: DisplayView)
    requires
        display.stable(),
    ensures
        state::display_line(display) is Some,
        text::stripped(state::display_line(display)->0, "display\t"@) is Some,
        state::display_of_line(text::stripped(state::display_line(display)->0, "display\t"@)->0) == Some(
            recalled(display),
        ),
{
    target_laws::lemma_tab();
    reveal_strlit("display");
    reveal_strlit("display\t");
    let fields = state::display_fields(display);
    lemma_display_fields_unbroken(display);
    let line = state::display_line(display)->0;
    lemma_joined_cons("display"@, fields, "\t"@);
    let tail = text::joined(fields, "\t"@);
    assert("display\t"@ =~= "display"@ + "\t"@);
    assert(line == "display\t"@ + tail);
    assert(line.subrange(0, 8) =~= "display\t"@);
    assert(line.skip(8) =~= tail);
    target_laws::splitting_undoes_joining(fields, '\t');
    lemma_scan_display(display);
    lemma_recalled_stable(display);
}

proof fn lemma_display_line_shape(display: DisplayView)
    requires
        display.stable(),
    ensures
        target_laws::lacks(state::display_line(display)->0, '\n'),
        text::without_cr(state::display_line(display)->0) == state::display_line(display)->0,
        state::display_line(display)->0.len() > 0,
        state::display_line(display)->0[0] == 'd',
{
    target_laws::lemma_tab();
    reveal_strlit("display");
    let fields = state::display_fields(display);
    lemma_display_fields_unbroken(display);
    lemma_flag_field(display.internal());
    let all = seq!["display"@] + fields;
    assert forall|i: int| 0 <= i < all.len() implies target_laws::lacks(#[trigger] all[i], '\n') by {
        if i > 0 {
            assert(all[i] == fields[i - 1]);
        }
    }
    target_laws::lemma_joined_lacks(all, "\t"@, '\n');
    lemma_joined_cons("display"@, fields, "\t"@);
    let line = state::display_line(display)->0;
    assert(line[0] == "display"@[0]);
    let flag = fields.last();
    assert(all.last() == flag);
    assert(all.len() > 1);
    assert(line == text::joined(all.drop_last(), "\t"@) + "\t"@ + flag);
    assert(line.last() == flag.last());
}

// ---------------------------------------------------------------------------
// The file.
// ---------------------------------------------------------------------------
/// The displays of a text's lines.
spec fn shown(body: Seq<char>) -> Seq<DisplayView> {
    state::displays_of_lines(text::text_lines(body))
}

/// The text is empty or ends its last line.
spec fn closed_body(body: Seq<char>) -> bool {
    body.len() == 0 || body.last() == '\n'
}

proof fn lemma_plain_line(body: Seq<char>, line: Seq<char>)
    requires
        closed_body(body),
        target_laws::lacks(line, '\n'),
        line.len() > 0,
        line[0] == 'i' || line[0] == 'k',
    ensures
        shown(body + line + "\n"@) == shown(body),
        closed_body(body + line + "\n"@),
{
    target_laws::lemma_tab();
    reveal_strlit("display\t");
    target_laws::lemma_lines_append(body, line);
    let all = text::text_lines(body + line + "\n"@);
    let last = text::without_cr(line);
    assert(all.drop_last() =~= text::text_lines(body));
    assert(all.last() == last);
    assert(text::stripped(last, "display\t"@) is None) by {
        if text::occurs_at(last, "display\t"@, 0) {
            assert(last.subrange(0, 8)[0] == 'd');
            assert(last[0] == line[0]);
        }
    }
}

proof fn lemma_value_line(body: Seq<char>, key: Seq<char>, value: Option<Seq<char>>)
    requires
        closed_body(body),
        target_laws::lacks(key, '\n'),
        key.len() > 0,
        key[0] == 'i' || key[0] == 'k',
        value is Some ==> target_laws::lacks(value->0, '\n'),
    ensures
        shown(body + state::value_line(key, value)) == shown(body),
        closed_body(body + state::value_line(key, value)),
{
    match value {
        Some(v) => {
            reveal_strlit("=");
            let line = key + "="@ + v;
            assert forall|i: int| 0 <= i < line.len() implies line[i] != '\n' by {
                if i < key.len() {
                    assert(line[i] == key[i]);
                } else if i == key.len() {
                    assert(line[i] == '=');
                } else {
                    assert(line[i] == v[i - key.len() - 1]);
                }
            }
            assert(line[0] == key[0]);
            lemma_plain_line(body, line);
            assert(body + state::value_line(key, value) =~= body + line + "\n"@);
        },
        None => {
            assert(body + state::value_line(key, value) =~= body);
        },
    }
}

/// The ids of a display hold no line feed.
pub open spec fn one_line_ids(display: DisplayView) -> bool {
    &&& display.persistent_id is Some ==> target_laws::lacks(display.persistent_id->0, '\n')
    &&& display.serial_id is Some ==> target_laws::lacks(display.serial_id->0, '\n')
    &&& display.contextual_id is Some ==> target_laws::lacks(display.contextual_id->0, '\n')
}

proof fn lemma_panel_lines(panel: Option<DisplayView>)
    requires
        panel is Some ==> one_line_ids(panel->0),
    ensures
        shown(state::panel_lines(panel)) == Seq::<DisplayView>::empty(),
        closed_body(state::panel_lines(panel)),
{
    reveal_strlit("internal_id");
    reveal_strlit("internal_serial");
    reveal_strlit("internal_display_id");
    let empty = Seq::<char>::empty();
    assert(text::text_lines(empty) =~= Seq::empty());
    assert(shown(empty) =~= Seq::empty());
    if let Some(d) = panel {
        let a = state::value_line("internal_id"@, d.persistent_id);
        let b = state::value_line("internal_serial"@, d.serial_id);
        lemma_value_line(empty, "internal_id"@, d.persistent_id);
        assert(empty + a =~= a);
        lemma_value_line(a, "internal_serial"@, d.serial_id);
        lemma_value_line(a + b, "internal_display_id"@, d.contextual_id);
    } else {
        assert(state::panel_lines(panel) =~= empty);
    }
}

proof fn lemma_number_lines(body: Seq<char>, ids: Seq<u32>)
    requires
        closed_body(body),
    ensures
        shown(body + state::number_lines(ids)) == shown(body),
        closed_body(body + state::number_lines(ids)),
    decreases ids.len(),
{
    if ids.len() == 0 {
        assert(body + state::number_lines(ids) =~= body);
    } else {
        let init = ids.drop_last();
        lemma_number_lines(body, init);
        lemma_known_line(ids.last());
        let earlier = body + state::number_lines(init);
        lemma_plain_line(earlier, state::known_line(ids.last()));
        assert(body + state::number_lines(ids) =~= earlier + state::known_line(ids.last()) + "\n"@);
    }
}

/// No two of the displays are the same.
pub open spec fn all_different(displays: Seq<DisplayView>) -> bool {
    forall|i: int, j: int|
        0 <= i < j < displays.len() ==> !(#[trigger] displays[i].same_as(#[trigger] displays[j]))
}

/// Each of the displays has a stable id.
pub open spec fn all_stable(displays: Seq<DisplayView>) -> bool {
    forall|i: int| 0 <= i < displays.len() ==> (#[trigger] displays[i]).stable()
}

/// What the file keeps of each display.
pub open spec fn all_recalled(displays: Seq<DisplayView>) -> Seq<DisplayView> {
    Seq::new(displays.len(), |i: int| recalled(displays[i]))
}

proof fn lemma_recalled_same(left: DisplayView, right: DisplayView)
    requires
        left.stable(),
    ensures
        recalled(left).same_as(recalled(right)) == left.same_as(right),
{
    target_laws::lemma_kept_value_identity(left.persistent_id);
    target_laws::lemma_kept_value_identity(left.serial_id);
    target_laws::lemma_kept_value_identity(right.persistent_id);
    target_laws::lemma_kept_value_identity(right.serial_id);
}

proof fn lemma_display_lines(body: Seq<char>, displays: Seq<DisplayView>)
    requires
        closed_body(body),
        shown(body) == Seq::<DisplayView>::empty(),
        all_stable(displays),
        all_different(displays),
    ensures
        shown(body + state::display_lines(displays)) == all_recalled(displays),
        closed_body(body + state::display_lines(displays)),
    decreases displays.len(),
{
    target_laws::lemma_tab();
    if displays.len() == 0 {
        assert(body + state::display_lines(displays) =~= body);
        assert(all_recalled(displays) =~= Seq::empty());
    } else {
        let init = displays.drop_last();
        let n = init.len() as int;
        let last = displays.last();
        assert(displays[n] == last);
        assert forall|i: int| 0 <= i < init.len() implies (#[trigger] init[i]).stable() by {
            assert(displays[i].stable());
        }
        assert forall|i: int, j: int| 0 <= i < j < init.len() implies !(
        #[trigger] init[i].same_as(#[trigger] init[j])) by {
            assert(!displays[i].same_as(displays[j]));
        }
        lemma_display_lines(body, init);
        let earlier = body + state::display_lines(init);
        assert(last.stable());
        let line = state::display_line(last)->0;
        display_line_reads_back(last);
        lemma_display_line_shape(last);
        target_laws::lemma_lines_append(earlier, line);
        assert(body + state::display_lines(displays) =~= earlier + line + "\n"@);
        let all = text::text_lines(earlier + line + "\n"@);
        assert(all.drop_last() =~= text::text_lines(earlier));
        assert(all.last() == line);
        let before = all_recalled(init);
        assert forall|i: int| 0 <= i < n implies !(#[trigger] before[i].same_as(recalled(last))) by {
            assert(init[i].stable());
            lemma_recalled_same(init[i], last);
            assert(!displays[i].same_as(displays[n]));
        }
        state::lemma_known_at_is(before, recalled(last), n);
        assert(state::put_away(recalled(last)) =~= recalled(last));
        assert(before.push(recalled(last)) =~= all_recalled(displays));
    }
}

proof fn lemma_no_panel_value(lines: Seq<Seq<char>>)
    requires
        forall|i: int| 0 <= i < lines.len() ==> (#[trigger] lines[i]).len() > 0 && lines[i][0] != 'i',
    ensures
        state::values_of_lines(lines, "internal_display_id"@) == Seq::<Seq<char>>::empty(),
    decreases lines.len(),
{
    lemma_keys();
    if lines.len() > 0 {
        let init = lines.drop_last();
        assert forall|i: int| 0 <= i < init.len() implies (#[trigger] init[i]).len() > 0
            && init[i][0] != 'i' by {
            assert(init[i] == lines[i]);
        }
        lemma_no_panel_value(init);
        let last = lines[lines.len() - 1];
        if let Some(p) = text::parted(last, '=') {
            text::lemma_find(last, '=');
            if p.0 == "internal_display_id"@ {
                assert(p.0.len() > 0);
                assert(p.0[0] == last[0]);
            }
        }
    }
}

/// Each line is not empty, and does not start with an `i`.
spec fn no_i_lines(body: Seq<char>) -> bool {
    forall|i: int|
        0 <= i < text::text_lines(body).len() ==> (#[trigger] text::text_lines(body)[i]).len() > 0
            && text::text_lines(body)[i][0] != 'i'
}

proof fn lemma_no_i_append(body: Seq<char>, line: Seq<char>)
    requires
        closed_body(body),
        no_i_lines(body),
        target_laws::lacks(line, '\n'),
        line.len() > 0,
        line[0] == 'd' || line[0] == 'k',
        text::without_cr(line) == line,
    ensures
        no_i_lines(body + line + "\n"@),
        closed_body(body + line + "\n"@),
{
    target_laws::lemma_tab();
    target_laws::lemma_lines_append(body, line);
}

proof fn lemma_no_i_numbers(ids: Seq<u32>)
    ensures
        no_i_lines(state::number_lines(ids)),
        closed_body(state::number_lines(ids)),
    decreases ids.len(),
{
    if ids.len() == 0 {
        assert(text::text_lines(state::number_lines(ids)) =~= Seq::empty());
    } else {
        lemma_no_i_numbers(ids.drop_last());
        lemma_known_line(ids.last());
        lemma_no_i_append(state::number_lines(ids.drop_last()), state::known_line(ids.last()));
        assert(state::number_lines(ids) =~= state::number_lines(ids.drop_last()) + state::known_line(ids.last())
            + "\n"@);
    }
}

proof fn lemma_no_i_displays(body: Seq<char>, displays: Seq<DisplayView>)
    requires
        closed_body(body),
        no_i_lines(body),
        all_stable(displays),
    ensures
        no_i_lines(body + state::display_lines(displays)),
        closed_body(body + state::display_lines(displays)),
    decreases displays.len(),
{
    if displays.len() == 0 {
        assert(body + state::display_lines(displays) =~= body);
    } else {
        let init = displays.drop_last();
        assert forall|i: int| 0 <= i < init.len() implies (#[trigger] init[i]).stable() by {
            assert(displays[i].stable());
        }
        lemma_no_i_displays(body, init);
        let last = displays[displays.len() - 1];
        assert(last.stable());
        lemma_display_line_shape(last);
        lemma_no_i_append(body + state::display_lines(init), state::display_line(last)->0);
        assert(body + state::display_lines(displays) =~= body + state::display_lines(init) + state::display_line(
            last,
        )->0 + "\n"@);
    }
}

proof fn lemma_first_internal(displays: Seq<DisplayView>)
    ensures
        state::first_internal(displays) is Some <==> display::any_internal(displays),
    decreases displays.len(),
{
    if displays.len() > 0 {
        let rest = displays.skip(1);
        lemma_first_internal(rest);
        if displays[0].internal() {
            assert(display::any_internal(displays));
        } else {
            if display::any_internal(rest) {
                let i = choose|i: int| 0 <= i < rest.len() && #[trigger] rest[i].internal();
                assert(displays[i + 1].internal());
            }
            if display::any_internal(displays) {
                let i = choose|i: int| 0 <= i < displays.len() && #[trigger] displays[i].internal();
                assert(rest[i - 1].internal());
            }
        }
    }
}

proof fn lemma_recalled_internal(display: DisplayView)
    requires
        display.internal(),
    ensures
        recalled(display).internal(),
{
    reveal_strlit("built in");
    reveal_strlit("");
    let t = crate::text::text_or(display.display_type, ""@);
    assert(t.len() > 0) by {
        let at = choose|at: int| text::occurs_at(text::lowered(t), "built in"@, at);
        assert(text::lowered(t).len() >= 8);
    }
}

/// The state file reads back as it was written: the remembered displays come
/// back in their order, each as its line keeps it. This is so where each of
/// them has a stable id, no two are the same, the panel's ids hold no line
/// feed, and a panel that is recorded is among them.
pub proof fn remembered_displays_read_back(seen: Seq<DisplayView>, remembered: Seq<DisplayView>)
    requires
        all_stable(remembered),
        all_different(remembered),
        state::recorded_panel(seen, remembered) is Some ==> {
            &&& one_line_ids(state::recorded_panel(seen, remembered)->0)
            &&& display::any_internal(remembered)
        },
    ensures
        state::remembered_in(state::state_body(seen, remembered)) == all_recalled(remembered),
{
    let panel = state::recorded_panel(seen, remembered);
    let ids = state::numbers_of(remembered);
    let body = state::state_body(seen, remembered);
    let head = state::panel_lines(panel) + state::number_lines(ids);
    lemma_panel_lines(panel);
    lemma_number_lines(state::panel_lines(panel), ids);
    lemma_display_lines(head, remembered);
    assert(shown(body) == all_recalled(remembered));
    lemma_first_internal(remembered);
    if panel is Some {
        let i = choose|i: int| 0 <= i < remembered.len() && #[trigger] remembered[i].internal();
        lemma_recalled_internal(remembered[i]);
        assert(all_recalled(remembered)[i].internal());
        assert(display::any_internal(all_recalled(remembered)));
    } else {
        lemma_no_i_numbers(ids);
        assert(head =~= state::number_lines(ids));
        lemma_no_i_displays(head, remembered);
        lemma_no_panel_value(text::text_lines(body));
    }
}

// ---------------------------------------------------------------------------
// Live and remembered displays together.
// ---------------------------------------------------------------------------
/// The remembered displays of which there is no live report, put away.
pub open spec fn missing(remembered: Seq<DisplayView>, live: Seq<DisplayView>) -> Seq<DisplayView>
    decreases remembered.len(),
{
    if remembered.len() == 0 {
        Seq::empty()
    } else {
        let at = state::known_at(live, remembered[0]);
        if at < live.len() {
            missing(remembered.skip(1), live.remove(at))
        } else {
            seq![state::put_away(remembered[0])] + missing(remembered.skip(1), live)
        }
    }
}

/// The merged list holds every live display just as often as it was reported,
/// the remembered ones without a live report, and nothing else.
pub proof fn merging_loses_no_live_display(remembered: Seq<DisplayView>, live: Seq<DisplayView>)
    ensures
        state::merged(remembered, live).to_multiset() == live.to_multiset().add(
            missing(remembered, live).to_multiset(),
        ),
    decreases remembered.len(),
{
    broadcast use vstd::seq_lib::group_to_multiset_ensures;

    if remembered.len() == 0 {
        assert(state::merged(remembered, live).to_multiset() =~= live.to_multiset().add(
            missing(remembered, live).to_multiset(),
        ));
    } else {
        state::lemma_known_at(live, remembered[0]);
        let at = state::known_at(live, remembered[0]);
        let rest = remembered.skip(1);
        if at < live.len() {
            let fewer = live.remove(at);
            merging_loses_no_live_display(rest, fewer);
            let one = seq![live[at]];
            vstd::seq_lib::lemma_multiset_commutative(one, state::merged(rest, fewer));
            lemma_single(live[at]);
            assert(live.contains(live[at]));
            assert(state::merged(remembered, live).to_multiset() =~= live.to_multiset().add(
                missing(remembered, live).to_multiset(),
            ));
        } else {
            merging_loses_no_live_display(rest, live);
            let one = seq![state::put_away(remembered[0])];
            vstd::seq_lib::lemma_multiset_commutative(one, state::merged(rest, live));
            vstd::seq_lib::lemma_multiset_commutative(one, missing(rest, live));
            assert(state::merged(remembered, live).to_multiset() =~= live.to_multiset().add(
                missing(remembered, live).to_multiset(),
            ));
        }
    }
}

proof fn lemma_single(d: DisplayView)
    ensures
        seq![d].to_multiset() == vstd::multiset::Multiset::<DisplayView>::empty().insert(d),
{
    broadcast use vstd::seq_lib::group_to_multiset_ensures;

    assert(seq![d] =~= Seq::<DisplayView>::empty().push(d));
    assert(Seq::<DisplayView>::empty().to_multiset() =~= vstd::multiset::Multiset::empty());
}

/// What is listed without a live report counts as off and absent, and not as
/// the main display.
pub proof fn missing_displays_are_away(remembered: Seq<DisplayView>, live: Seq<DisplayView>)
    ensures
        all_away(missing(remembered, live)),
    decreases remembered.len(),
{
    if remembered.len() > 0 {
        state::lemma_known_at(live, remembered[0]);
        let at = state::known_at(live, remembered[0]);
        if at < live.len() {
            missing_displays_are_away(remembered.skip(1), live.remove(at));
        } else {
            missing_displays_are_away(remembered.skip(1), live);
        }
    }
}

/// The list shows a display: as live, or put away.
pub open spec fn shows(
    list: Seq<DisplayView>,
    live: Seq<DisplayView>,
    display: DisplayView,
) -> bool {
    exists|k: int|
        0 <= k < list.len() && ((#[trigger] list[k]) == state::put_away(display) || (live.contains(
            list[k],
        ) && list[k].same_as(display)))
}

/// Every remembered display is in the merged list, as live or put away.
pub proof fn merging_loses_no_remembered_display(
    remembered: Seq<DisplayView>,
    live: Seq<DisplayView>,
    i: int,
)
    requires
        0 <= i < remembered.len(),
    ensures
        shows(state::merged(remembered, live), live, remembered[i]),
    decreases remembered.len(),
{
    state::lemma_known_at(live, remembered[0]);
    let at = state::known_at(live, remembered[0]);
    let all = state::merged(remembered, live);
    let fewer = if at < live.len() {
        live.remove(at)
    } else {
        live
    };
    if i == 0 {
        if at < live.len() {
            assert(all[0] == live[at]);
            assert(live.contains(all[0]));
            assert(all[0].same_as(remembered[0]));
        } else {
            assert(all[0] == state::put_away(remembered[0]));
        }
    } else {
        merging_loses_no_remembered_display(remembered.skip(1), fewer, i - 1);
        let rest = state::merged(remembered.skip(1), fewer);
        let k = choose|k: int|
            0 <= k < rest.len() && ((#[trigger] rest[k]) == state::put_away(remembered[i]) || (
            fewer.contains(rest[k]) && rest[k].same_as(remembered[i])));
        assert(remembered.skip(1)[i - 1] == remembered[i]);
        assert(all[k + 1] == rest[k]);
        if fewer.contains(rest[k]) && at < live.len() {
            let j = choose|j: int| 0 <= j < fewer.len() && fewer[j] == rest[k];
            if j < at {
                assert(live[j] == rest[k]);
            } else {
                assert(live[j + 1] == rest[k]);
            }
        }
    }
}

proof fn lemma_all_upserted_has(displays: Seq<DisplayView>, more: Seq<DisplayView>, i: int)
    requires
        0 <= i < more.len(),
        all_different(more),
    ensures
        state::all_upserted(displays, more).contains(state::put_away(more[i])),
    decreases more.len(),
{
    let init = more.drop_last();
    let before = state::all_upserted(displays, init);
    let after = state::all_upserted(displays, more);
    let last = more.last();
    state::lemma_known_at(before, last);
    let at = state::known_at(before, last);
    if i == more.len() - 1 {
        assert(after[at] == state::put_away(last));
    } else {
        assert forall|a: int, b: int| 0 <= a < b < init.len() implies !(
        #[trigger] init[a].same_as(#[trigger] init[b])) by {
            assert(!more[a].same_as(more[b]));
        }
        lemma_all_upserted_has(displays, init, i);
        let one = state::put_away(more[i]);
        assert(init[i] == more[i]);
        let k = choose|k: int| 0 <= k < before.len() && before[k] == one;
        assert(!more[i].same_as(more[more.len() - 1]));
        assert(one.same_as(last) == more[i].same_as(last));
        assert(k != at);
        assert(after[k] == one);
    }
}

/// A saved target is in the interactive list even while it is disconnected, so
/// that it can be selected and removed; this is so where no two saved targets
/// are the same display.
pub proof fn saved_targets_are_listed(
    known: Option<Seq<char>>,
    saved: Option<Seq<char>>,
    live: Seq<DisplayView>,
    i: int,
)
    requires
        0 <= i < target::targets_of_file(saved).len(),
        all_different(state::absent_displays(target::targets_of_file(saved))),
    ensures
        shows(
            state::merged(state::remembered_and_saved(known, saved), live),
            live,
            target::targets_of_file(saved)[i].absent_display(),
        ),
{
    let targets = target::targets_of_file(saved);
    let absent = state::absent_displays(targets);
    let start = state::remembered_in(state::file_text(known));
    let all = state::remembered_and_saved(known, saved);
    lemma_all_upserted_has(start, absent, i);
    let one = targets[i].absent_display();
    assert(absent[i] == one);
    let k = choose|k: int| 0 <= k < all.len() && all[k] == state::put_away(one);
    merging_loses_no_remembered_display(all, live, k);
    let list = state::merged(all, live);
    let j = choose|j: int|
        0 <= j < list.len() && ((#[trigger] list[j]) == state::put_away(all[k]) || (live.contains(
            list[j],
        ) && list[j].same_as(all[k])));
    assert(state::put_away(all[k]) =~= state::put_away(one));
    assert(list[j].same_as(all[k]) == list[j].same_as(one));
}

/// A display that was seen stays in the list after it has left the live one, in
/// the form that the state file keeps; the conditions are those under which the
/// state file reads back.
pub proof fn seen_displays_stay_listed(
    seen: Seq<DisplayView>,
    remembered: Seq<DisplayView>,
    live: Seq<DisplayView>,
    i: int,
)
    requires
        all_stable(remembered),
        all_different(remembered),
        state::recorded_panel(seen, remembered) is Some ==> {
            &&& one_line_ids(state::recorded_panel(seen, remembered)->0)
            &&& display::any_internal(remembered)
        },
        0 <= i < remembered.len(),
    ensures
        shows(
            state::merged(state::remembered_in(state::state_body(seen, remembered)), live),
            live,
            recalled(remembered[i]),
        ),
{
    remembered_displays_read_back(seen, remembered);
    merging_loses_no_remembered_display(all_recalled(remembered), live, i);
}

} // verus!
