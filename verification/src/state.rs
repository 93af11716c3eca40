//! The state file: which displays have been seen, which of them is the
//! built-in panel, and which numbers they had.

use std::collections::BTreeSet;

use vstd::prelude::*;

use crate::display;
use crate::display::{same_display_identity, CGDirectDisplayID, Display, DisplayView};
use crate::ids;
use crate::ids::{in_order, insert_id};
use crate::number;
use crate::number::{bool_str, decimal, parse_u32, NumberError};
use crate::target;
use crate::target::{decode_field, load_targets, non_empty, push_target_field, TargetView};
use crate::text;
use crate::text::{
    borrow_opt, cat2, cat3, ends_with_char, join, lines, owned, same, split, split_once, str_or,
    strip_prefix,
};

verus! {

// ---------------------------------------------------------------------------
// The list of remembered displays.
// ---------------------------------------------------------------------------
/// The display as it is remembered: off, absent, and not the main one.
pub open spec fn put_away(display: DisplayView) -> DisplayView {
    DisplayView { remembered_absent: true, enabled: Some(false), is_main: false, ..display }
}

/// The first of the displays that is the same as `display`, or how many there
/// are.
pub open spec fn known_at(displays: Seq<DisplayView>, display: DisplayView) -> int
    decreases displays.len(),
{
    if displays.len() == 0 || displays[0].same_as(display) {
        0
    } else {
        1 + known_at(displays.skip(1), display)
    }
}

/// The list with `display` remembered: in the place of an earlier report of it,
/// or at the end.
pub open spec fn upserted(displays: Seq<DisplayView>, display: DisplayView) -> Seq<DisplayView> {
    let at = known_at(displays, display);
    if at < displays.len() {
        displays.update(at, put_away(display))
    } else {
        displays.push(put_away(display))
    }
}

/// The list with several displays remembered, one after the other.
pub open spec fn all_upserted(
    displays: Seq<DisplayView>,
    more: Seq<DisplayView>,
) -> Seq<DisplayView>
    decreases more.len(),
{
    if more.len() == 0 {
        displays
    } else {
        upserted(all_upserted(displays, more.drop_last()), more.last())
    }
}

pub proof fn lemma_known_at(displays: Seq<DisplayView>, display: DisplayView)
    ensures
        0 <= known_at(displays, display) <= displays.len(),
        known_at(displays, display) < displays.len() ==> displays[known_at(
            displays,
            display,
        )].same_as(display),
        forall|i: int|
            0 <= i < known_at(displays, display) ==> !(#[trigger] displays[i].same_as(display)),
    decreases displays.len(),
{
    if displays.len() > 0 && !displays[0].same_as(display) {
        let rest = displays.skip(1);
        lemma_known_at(rest, display);
        assert forall|i: int| 0 <= i < known_at(displays, display) implies !(
        #[trigger] displays[i].same_as(display)) by {
            if i > 0 {
                assert(rest[i - 1] == displays[i]);
            }
        }
    }
}

pub proof fn lemma_known_at_is(displays: Seq<DisplayView>, display: DisplayView, at: int)
    requires
        0 <= at <= displays.len(),
        at < displays.len() ==> displays[at].same_as(display),
        forall|i: int| 0 <= i < at ==> !(#[trigger] displays[i].same_as(display)),
    ensures
        known_at(displays, display) == at,
{
    lemma_known_at(displays, display);
    if known_at(displays, display) < at {
        assert(!displays[known_at(displays, display)].same_as(display));
    }
    if at < known_at(displays, display) {
        assert(!displays[at].same_as(display));
    }
}

/// The position of the first display that is the same as `display`, or the
/// length of the list.
fn position_of(displays: &Vec<Display>, display: &Display) -> (at: usize)
    ensures
        at == known_at(display::display_views(displays@), display@),
        at <= displays@.len(),
{
    let ghost views = display::display_views(displays@);
    let mut i: usize = 0;
    while i < displays.len() && !same_display_identity(&displays[i], display)
        invariant
            i <= displays@.len(),
            views == display::display_views(displays@),
            forall|k: int| 0 <= k < i ==> !(#[trigger] views[k].same_as(display@)),
        decreases displays@.len() - i,
    {
        assert(views[i as int] == displays@[i as int]@);
        i = i + 1;
    }
    proof {
        if i < displays@.len() {
            assert(views[i as int] == displays@[i as int]@);
        }
        lemma_known_at_is(views, display@, i as int);
    }
    i
}

/// Remembers a display: in the place of an earlier report of it, or at the end.
pub fn upsert_remembered_display(displays: &mut Vec<Display>, display: Display)
    ensures
        display::display_views(final(displays)@) == upserted(display::display_views(old(displays)@), display@),
{
    let mut display = display;
    let ghost given = display@;
    display.remembered_absent = true;
    display.enabled = Some(false);
    display.is_main = false;
    let ghost start = display::display_views(displays@);
    let at: usize = position_of(displays, &display);
    proof {
        lemma_same_at(start, given, display@);
    }
    if at < displays.len() {
        displays.set(at, display);
        assert(display::display_views(displays@) =~= start.update(at as int, put_away(given)));
    } else {
        displays.push(display);
        assert(display::display_views(displays@) =~= start.push(put_away(given)));
    }
}

proof fn lemma_same_at(displays: Seq<DisplayView>, left: DisplayView, right: DisplayView)
    requires
        left.persistent_id == right.persistent_id,
        left.serial_id == right.serial_id,
        left.contextual_id == right.contextual_id,
    ensures
        known_at(displays, left) == known_at(displays, right),
    decreases displays.len(),
{
    if displays.len() > 0 {
        lemma_same_at(displays.skip(1), left, right);
    }
}

// ---------------------------------------------------------------------------
// Lines of remembered displays.
// ---------------------------------------------------------------------------
/// The fields of a remembered display's line, behind its first word.
pub open spec fn display_fields(display: DisplayView) -> Seq<Seq<char>> {
    target::field_of("contextual"@, display.contextual_id) + target::field_of("persistent"@, display.persistent_id)
        + target::field_of("serial"@, display.serial_id) + target::field_of("type"@, display.display_type)
        + target::field_of("resolution"@, display.resolution) + seq!["internal="@ + number::bool_text(
        display.internal(),
    )]
}

/// The line of a remembered display, if it has a stable id.
pub open spec fn display_line(display: DisplayView) -> Option<Seq<char>> {
    if display.stable() {
        Some(text::joined(seq!["display"@] + display_fields(display), "\t"@))
    } else {
        None
    }
}

/// What the fields of a line have told so far.
#[verifier::ext_equal]
pub struct LineScan {
    pub display: DisplayView,
    /// The line says that this is the built-in panel.
    pub hint: bool,
}

pub open spec fn empty_line_scan() -> LineScan {
    LineScan { display: put_away(display::blank_display()), hint: false }
}

/// The scan with the value of one key.
pub open spec fn scan_value(scan: LineScan, key: Seq<char>, value: Seq<char>) -> LineScan {
    let display = scan.display;
    if key == "contextual"@ {
        LineScan { display: DisplayView { contextual_id: target::filled(value), ..display }, ..scan }
    } else if key == "persistent"@ {
        LineScan { display: DisplayView { persistent_id: target::filled(value), ..display }, ..scan }
    } else if key == "serial"@ {
        LineScan { display: DisplayView { serial_id: target::filled(value), ..display }, ..scan }
    } else if key == "type"@ {
        LineScan { display: DisplayView { display_type: target::filled(value), ..display }, ..scan }
    } else if key == "resolution"@ {
        LineScan { display: DisplayView { resolution: target::filled(value), ..display }, ..scan }
    } else if key == "internal"@ {
        LineScan { hint: value == "true"@, ..scan }
    } else {
        scan
    }
}

/// The scan with one field of the line.
pub open spec fn scan_field(scan: LineScan, field: Seq<char>) -> LineScan {
    match text::parted(field, '=') {
        Some(p) => scan_value(scan, p.0, target::decoded(p.1)),
        None => scan,
    }
}

/// The scan of all the fields; a later field wins.
pub open spec fn scan_fields(fields: Seq<Seq<char>>) -> LineScan
    decreases fields.len(),
{
    if fields.len() == 0 {
        empty_line_scan()
    } else {
        scan_field(scan_fields(fields.drop_last()), fields.last())
    }
}

/// The display with a type, where the line named none.
pub open spec fn typed(scan: LineScan) -> DisplayView {
    match scan.display.display_type {
        Some(_) => scan.display,
        None => DisplayView {
            display_type: Some(
                if scan.hint {
                    "MacBook built in screen"@
                } else {
                    "remembered external display"@
                },
            ),
            ..scan.display
        },
    }
}

/// The display that a line describes behind its first word, if it has a stable
/// id.
pub open spec fn display_of_line(raw: Seq<char>) -> Option<DisplayView> {
    let display = typed(scan_fields(text::pieces(raw, '\t')));
    if display.stable() {
        Some(display)
    } else {
        None
    }
}

proof fn lemma_add_assoc(a: Seq<Seq<char>>, b: Seq<Seq<char>>, c: Seq<Seq<char>>)
    ensures
        a + b + c == a + (b + c),
{
    assert(a + b + c =~= a + (b + c));
}

proof fn lemma_push_is_add(a: Seq<Seq<char>>, b: Seq<char>)
    ensures
        a.push(b) == a + seq![b],
{
    assert(a.push(b) =~= a + seq![b]);
}

/// Writes the line of a remembered display. A display without a stable id has
/// none.
pub fn display_to_state_line(display: &Display) -> (r: Option<String>)
    ensures
        text::opt_text(r) == display_line(display@),
{
    if !display.has_stable_identity() {
        return None;
    }
    let mut fields: Vec<String> = Vec::new();
    fields.push(owned("display"));
    assert(text::texts(fields@) =~= seq!["display"@]);
    push_target_field(&mut fields, "contextual", borrow_opt(&display.contextual_id));
    push_target_field(&mut fields, "persistent", borrow_opt(&display.persistent_id));
    push_target_field(&mut fields, "serial", borrow_opt(&display.serial_id));
    push_target_field(&mut fields, "type", borrow_opt(&display.display_type));
    push_target_field(&mut fields, "resolution", borrow_opt(&display.resolution));
    let flag = cat2("internal=", bool_str(display.is_internal()));
    proof {
        let word = seq!["display"@];
        let f1 = target::field_of("contextual"@, display@.contextual_id);
        let f2 = target::field_of("persistent"@, display@.persistent_id);
        let f3 = target::field_of("serial"@, display@.serial_id);
        let f4 = target::field_of("type"@, display@.display_type);
        let f5 = target::field_of("resolution"@, display@.resolution);
        lemma_add_assoc(word, f1, f2);
        lemma_add_assoc(word, f1 + f2, f3);
        lemma_add_assoc(word, f1 + f2 + f3, f4);
        lemma_add_assoc(word, f1 + f2 + f3 + f4, f5);
        lemma_add_assoc(word, f1 + f2 + f3 + f4 + f5, seq![flag@]);
        text::lemma_texts_push(fields@, flag);
        lemma_push_is_add(text::texts(fields@), flag@);
    }
    fields.push(flag);
    Some(join(&fields, "\t"))
}

/// Reads the line of a remembered display, behind its first word.
pub fn parse_display_state_line(raw: &str) -> (r: Option<Display>)
    ensures
        match r {
            Some(display) => display_of_line(raw@) == Some(display@),
            None => display_of_line(raw@) is None,
        },
{
    let mut display = Display::default();
    display.enabled = Some(false);
    display.remembered_absent = true;
    let mut internal_hint = false;
    let fields = split(raw, '\t');
    let ghost all = text::texts(fields@);
    let mut i: usize = 0;
    assert(all.take(0) =~= Seq::empty());
    while i < fields.len()
        invariant
            i <= fields@.len(),
            all == text::texts(fields@),
            (LineScan { display: display@, hint: internal_hint }) == scan_fields(
                all.take(i as int),
            ),
        decreases fields@.len() - i,
    {
        proof {
            assert(all.take(i + 1).drop_last() =~= all.take(i as int));
            assert(all.take(i + 1).last() == fields@[i as int]@);
        }
        if let Some((key, raw_value)) = split_once(fields[i].as_str(), '=') {
            let value = decode_field(raw_value.as_str());
            if same(key.as_str(), "contextual") {
                display.contextual_id = non_empty(value);
            } else if same(key.as_str(), "persistent") {
                display.persistent_id = non_empty(value);
            } else if same(key.as_str(), "serial") {
                display.serial_id = non_empty(value);
            } else if same(key.as_str(), "type") {
                display.display_type = non_empty(value);
            } else if same(key.as_str(), "resolution") {
                display.resolution = non_empty(value);
            } else if same(key.as_str(), "internal") {
                internal_hint = same(value.as_str(), "true");
            }
        }
        i = i + 1;
    }
    assert(all.take(i as int) =~= all);
    if display.display_type.is_none() {
        display.display_type = Some(
            if internal_hint {
                owned("MacBook built in screen")
            } else {
                owned("remembered external display")
            },
        );
    }
    if !display.has_stable_identity() {
        return None;
    }
    Some(display)
}

// ---------------------------------------------------------------------------
// Values of the file.
// ---------------------------------------------------------------------------
/// The values that the lines give for a key, in their order.
pub open spec fn values_of_lines(lines: Seq<Seq<char>>, key: Seq<char>) -> Seq<Seq<char>>
    decreases lines.len(),
{
    if lines.len() == 0 {
        Seq::empty()
    } else {
        let earlier = values_of_lines(lines.drop_last(), key);
        match text::parted(lines.last(), '=') {
            Some(p) => if p.0 == key {
                earlier.push(p.1)
            } else {
                earlier
            },
            None => earlier,
        }
    }
}

/// The values that a text gives for a key, in their order.
pub open spec fn state_values(body: Seq<char>, key: Seq<char>) -> Seq<Seq<char>> {
    values_of_lines(text::text_lines(body), key)
}

/// The first value that a text gives for a key.
pub open spec fn state_value(body: Seq<char>, key: Seq<char>) -> Option<Seq<char>> {
    let values = state_values(body, key);
    if values.len() == 0 {
        None
    } else {
        Some(values[0])
    }
}

/// The text of a file, empty where there is none.
pub open spec fn file_text(file: Option<Seq<char>>) -> Seq<char> {
    match file {
        Some(body) => body,
        None => Seq::empty(),
    }
}

/// The text of a file, empty where there is none.
fn text_of_file(file: Option<&str>) -> (r: String)
    ensures
        r@ == file_text(text::opt_str(file)),
{
    match file {
        Some(body) => owned(body),
        None => String::new(),
    }
}

/// The values that a text gives for a key, in their order.
pub fn state_values_from_body(body: &str, key: &str) -> (r: Vec<String>)
    ensures
        text::texts(r@) == state_values(body@, key@),
{
    let all = lines(body);
    let ghost all_texts = text::texts(all@);
    let mut values: Vec<String> = Vec::new();
    let mut i: usize = 0;
    assert(all_texts.take(0) =~= Seq::empty());
    assert(text::texts(values@) =~= Seq::empty());
    while i < all.len()
        invariant
            i <= all@.len(),
            all_texts == text::texts(all@),
            text::texts(values@) == values_of_lines(all_texts.take(i as int), key@),
        decreases all@.len() - i,
    {
        proof {
            assert(all_texts.take(i + 1).drop_last() =~= all_texts.take(i as int));
            assert(all_texts.take(i + 1).last() == all@[i as int]@);
        }
        if let Some((candidate, value)) = split_once(all[i].as_str(), '=') {
            if same(candidate.as_str(), key) {
                proof {
                    text::lemma_texts_push(values@, value);
                }
                values.push(value);
            }
        }
        i = i + 1;
    }
    assert(all_texts.take(i as int) =~= all_texts);
    values
}

/// The first value that a text gives for a key.
pub fn state_value_from_body(body: &str, key: &str) -> (r: Option<String>)
    ensures
        text::opt_text(r) == state_value(body@, key@),
{
    let values = state_values_from_body(body, key);
    assert(text::texts(values@).len() == values@.len());
    if values.len() == 0 {
        None
    } else {
        Some(values[0].clone())
    }
}

/// The first value that the state file gives for a key.
pub fn read_state_value(file: Option<&str>, key: &str) -> (r: Option<String>)
    ensures
        text::opt_text(r) == state_value(file_text(text::opt_str(file)), key@),
{
    let body = text_of_file(file);
    state_value_from_body(body.as_str(), key)
}

/// The values that the state file gives for a key, in their order.
pub fn read_state_values(file: Option<&str>, key: &str) -> (r: Vec<String>)
    ensures
        text::texts(r@) == state_values(file_text(text::opt_str(file)), key@),
{
    let body = text_of_file(file);
    state_values_from_body(body.as_str(), key)
}

// ---------------------------------------------------------------------------
// Reading the remembered displays.
// ---------------------------------------------------------------------------
/// The displays that the lines describe.
pub open spec fn displays_of_lines(lines: Seq<Seq<char>>) -> Seq<DisplayView>
    decreases lines.len(),
{
    if lines.len() == 0 {
        Seq::empty()
    } else {
        let earlier = displays_of_lines(lines.drop_last());
        match text::stripped(lines.last(), "display\t"@) {
            Some(raw) => match display_of_line(raw) {
                Some(display) => upserted(earlier, display),
                None => earlier,
            },
            None => earlier,
        }
    }
}

/// The built-in panel as far as the single values of the file describe it.
pub open spec fn panel_of_values(body: Seq<char>, number: Seq<char>) -> DisplayView {
    DisplayView {
        persistent_id: state_value(body, "internal_id"@),
        contextual_id: Some(number),
        serial_id: state_value(body, "internal_serial"@),
        display_type: Some("MacBook built in screen"@),
        enabled: Some(false),
        remembered_absent: true,
        ..display::blank_display()
    }
}

/// The displays that a text remembers: those of its lines and, where none of
/// them is the built-in panel, the panel that its values describe.
pub open spec fn remembered_in(body: Seq<char>) -> Seq<DisplayView> {
    let displays = displays_of_lines(text::text_lines(body));
    match state_value(body, "internal_display_id"@) {
        Some(number) => if crate::display::any_internal(displays) {
            displays
        } else {
            upserted(displays, panel_of_values(body, number))
        },
        None => displays,
    }
}

/// The displays that the state file remembers.
pub fn read_remembered_displays(file: Option<&str>) -> (r: Vec<Display>)
    ensures
        display::display_views(r@) == remembered_in(file_text(text::opt_str(file))),
{
    let body = text_of_file(file);
    let all = lines(body.as_str());
    let ghost all_texts = text::texts(all@);
    let mut displays: Vec<Display> = Vec::new();
    let mut i: usize = 0;
    assert(all_texts.take(0) =~= Seq::empty());
    assert(display::display_views(displays@) =~= Seq::empty());
    while i < all.len()
        invariant
            i <= all@.len(),
            all_texts == text::texts(all@),
            display::display_views(displays@) == displays_of_lines(all_texts.take(i as int)),
        decreases all@.len() - i,
    {
        proof {
            assert(all_texts.take(i + 1).drop_last() =~= all_texts.take(i as int));
            assert(all_texts.take(i + 1).last() == all@[i as int]@);
        }
        if let Some(raw) = strip_prefix(all[i].as_str(), "display\t") {
            if let Some(display) = parse_display_state_line(raw.as_str()) {
                upsert_remembered_display(&mut displays, display);
            }
        }
        i = i + 1;
    }
    assert(all_texts.take(i as int) =~= all_texts);
    if let Some(number) = state_value_from_body(body.as_str(), "internal_display_id") {
        if !crate::display::has_any_internal(&displays) {
            let mut panel = Display::default();
            panel.persistent_id = state_value_from_body(body.as_str(), "internal_id");
            panel.contextual_id = Some(number);
            panel.serial_id = state_value_from_body(body.as_str(), "internal_serial");
            panel.display_type = Some(owned("MacBook built in screen"));
            panel.enabled = Some(false);
            panel.remembered_absent = true;
            upsert_remembered_display(&mut displays, panel);
        }
    }
    displays
}

// ---------------------------------------------------------------------------
// Writing what is remembered.
// ---------------------------------------------------------------------------
/// The numbers of the displays, each once and in order.
pub open spec fn numbers_of(displays: Seq<DisplayView>) -> Seq<u32>
    decreases displays.len(),
{
    if displays.len() == 0 {
        Seq::empty()
    } else {
        ids::with_id_opt(numbers_of(displays.drop_last()), displays.last().number())
    }
}

/// The first display that is the built-in panel.
pub open spec fn first_internal(displays: Seq<DisplayView>) -> Option<DisplayView>
    decreases displays.len(),
{
    if displays.len() == 0 {
        None
    } else if displays[0].internal() {
        Some(displays[0])
    } else {
        first_internal(displays.skip(1))
    }
}

/// The first display that is the built-in panel.
pub fn find_internal(displays: &Vec<Display>) -> (r: Option<&Display>)
    ensures
        match r {
            Some(display) => first_internal(display::display_views(displays@)) == Some(display@),
            None => first_internal(display::display_views(displays@)) is None,
        },
{
    let ghost views = display::display_views(displays@);
    let mut i: usize = 0;
    assert(views.skip(0) =~= views);
    while i < displays.len()
        invariant
            i <= displays@.len(),
            views == display::display_views(displays@),
            first_internal(views) == first_internal(views.skip(i as int)),
        decreases displays@.len() - i,
    {
        assert(views.skip(i as int)[0] == displays@[i as int]@);
        if displays[i].is_internal() {
            return Some(&displays[i]);
        }
        assert(views.skip(i as int).skip(1) =~= views.skip(i + 1));
        i = i + 1;
    }
    None
}

/// One `key=value` line, where there is a value.
pub open spec fn value_line(key: Seq<char>, value: Option<Seq<char>>) -> Seq<char> {
    match value {
        Some(v) => key + "="@ + v + "\n"@,
        None => Seq::empty(),
    }
}

/// Adds one `key=value` line, where there is a value.
fn push_value(body: &mut String, key: &str, value: Option<&str>)
    ensures
        final(body)@ == old(body)@ + value_line(key@, text::opt_str(value)),
{
    let ghost start = body@;
    if let Some(v) = value {
        body.append(key);
        body.append("=");
        body.append(v);
        body.append("\n");
    }
    assert(body@ =~= start + value_line(key@, text::opt_str(value)));
}

/// The lines that name the built-in panel.
pub open spec fn panel_lines(panel: Option<DisplayView>) -> Seq<char> {
    match panel {
        Some(d) => value_line("internal_id"@, d.persistent_id) + value_line(
            "internal_serial"@,
            d.serial_id,
        ) + value_line("internal_display_id"@, d.contextual_id),
        None => Seq::empty(),
    }
}

/// The lines that name the known numbers.
pub open spec fn number_lines(ids: Seq<u32>) -> Seq<char>
    decreases ids.len(),
{
    if ids.len() == 0 {
        Seq::empty()
    } else {
        number_lines(ids.drop_last()) + value_line("known_display_id"@, Some(number::dec(ids.last() as nat)))
    }
}

/// The lines of the remembered displays.
pub open spec fn display_lines(displays: Seq<DisplayView>) -> Seq<char>
    decreases displays.len(),
{
    if displays.len() == 0 {
        Seq::empty()
    } else {
        let earlier = display_lines(displays.drop_last());
        match display_line(displays.last()) {
            Some(line) => earlier + line + "\n"@,
            None => earlier,
        }
    }
}

/// The panel that is recorded: one that has just been seen, or else one that is
/// remembered.
pub open spec fn recorded_panel(
    seen: Seq<DisplayView>,
    remembered: Seq<DisplayView>,
) -> Option<DisplayView> {
    match first_internal(seen) {
        Some(d) => Some(d),
        None => first_internal(remembered),
    }
}

/// The text of the state file.
pub open spec fn state_body(seen: Seq<DisplayView>, remembered: Seq<DisplayView>) -> Seq<char> {
    panel_lines(recorded_panel(seen, remembered)) + number_lines(numbers_of(remembered))
        + display_lines(remembered)
}

/// The state file after some displays have been seen.
pub open spec fn state_after(file: Option<Seq<char>>, seen: Seq<DisplayView>) -> Seq<char> {
    state_body(seen, all_upserted(remembered_in(file_text(file)), seen))
}

/// The text of the state file after some displays have been seen.
pub fn remember_displays(file: Option<&str>, displays: &Vec<Display>) -> (r: String)
    ensures
        r@ == state_after(text::opt_str(file), display::display_views(displays@)),
{
    let mut remembered = read_remembered_displays(file);
    let ghost before = display::display_views(remembered@);
    let ghost seen = display::display_views(displays@);
    let mut i: usize = 0;
    assert(seen.take(0) =~= Seq::empty());
    while i < displays.len()
        invariant
            i <= displays@.len(),
            seen == display::display_views(displays@),
            display::display_views(remembered@) == all_upserted(before, seen.take(i as int)),
        decreases displays@.len() - i,
    {
        proof {
            assert(seen.take(i + 1).drop_last() =~= seen.take(i as int));
            assert(seen.take(i + 1).last() == displays@[i as int]@);
        }
        upsert_remembered_display(&mut remembered, displays[i].clone());
        i = i + 1;
    }
    assert(seen.take(i as int) =~= seen);
    let ghost kept = display::display_views(remembered@);
    let mut known: BTreeSet<u32> = BTreeSet::new();
    let mut j: usize = 0;
    assert(kept.take(0) =~= Seq::empty());
    assert(known@ =~= numbers_of(kept.take(0)).to_set());
    while j < remembered.len()
        invariant
            j <= remembered@.len(),
            kept == display::display_views(remembered@),
            ids::increasing(numbers_of(kept.take(j as int))),
            known@ == numbers_of(kept.take(j as int)).to_set(),
        decreases remembered@.len() - j,
    {
        proof {
            assert(kept.take(j + 1).drop_last() =~= kept.take(j as int));
            assert(kept.take(j + 1).last() == remembered@[j as int]@);
        }
        if let Some(n) = remembered[j].contextual_display_id() {
            proof {
                ids::lemma_with_id(numbers_of(kept.take(j as int)), n);
            }
            insert_id(&mut known, n);
        }
        j = j + 1;
    }
    assert(kept.take(j as int) =~= kept);
    let ids = in_order(&known);
    proof {
        ids::lemma_same_numbers(ids@, numbers_of(kept));
    }
    let mut body = String::new();
    let panel = match find_internal(displays) {
        Some(d) => Some(d),
        None => find_internal(&remembered),
    };
    if let Some(d) = panel {
        push_value(&mut body, "internal_id", d.stable_id());
        push_value(&mut body, "internal_serial", borrow_opt(&d.serial_id));
        push_value(&mut body, "internal_display_id", borrow_opt(&d.contextual_id));
    }
    assert(body@ =~= panel_lines(recorded_panel(seen, kept)));
    let ghost head = body@;
    let mut m: usize = 0;
    assert(ids@.take(0) =~= Seq::empty());
    assert(body@ =~= head + number_lines(ids@.take(0)));
    while m < ids.len()
        invariant
            m <= ids@.len(),
            body@ == head + number_lines(ids@.take(m as int)),
        decreases ids@.len() - m,
    {
        let ghost so_far = number_lines(ids@.take(m as int));
        proof {
            assert(ids@.take(m + 1).drop_last() =~= ids@.take(m as int));
        }
        let number = decimal(ids[m] as u64);
        push_value(&mut body, "known_display_id", Some(number.as_str()));
        assert(body@ =~= head + (so_far + value_line("known_display_id"@, Some(number@))));
        m = m + 1;
    }
    assert(ids@.take(m as int) =~= ids@);
    let ghost head2 = body@;
    let mut k: usize = 0;
    assert(body@ =~= head2 + display_lines(kept.take(0)));
    while k < remembered.len()
        invariant
            k <= remembered@.len(),
            kept == display::display_views(remembered@),
            body@ == head2 + display_lines(kept.take(k as int)),
        decreases remembered@.len() - k,
    {
        let ghost so_far = display_lines(kept.take(k as int));
        proof {
            assert(kept.take(k + 1).drop_last() =~= kept.take(k as int));
            assert(kept.take(k + 1).last() == remembered@[k as int]@);
        }
        if let Some(line) = display_to_state_line(&remembered[k]) {
            body.append(line.as_str());
            body.append("\n");
            assert(body@ =~= head2 + (so_far + line@ + "\n"@));
        }
        k = k + 1;
    }
    assert(kept.take(k as int) =~= kept);
    body
}

/// The text of the state file after one display has been seen.
pub fn remember_display_metadata(file: Option<&str>, display: &Display) -> (r: String)
    ensures
        r@ == state_after(text::opt_str(file), seq![display@]),
{
    let mut one: Vec<Display> = Vec::new();
    one.push(display.clone());
    assert(display::display_views(one@) =~= seq![display@]);
    remember_displays(file, &one)
}

/// The text of a state file that holds only the ids of the built-in panel.
pub open spec fn panel_state(
    id: Seq<char>,
    serial: Option<Seq<char>>,
    number: Option<Seq<char>>,
) -> Seq<char> {
    value_line("internal_id"@, Some(id)) + value_line("internal_serial"@, serial) + value_line(
        "internal_display_id"@,
        number,
    ) + (match number {
        Some(n) => if number::u32_value(n) is Ok {
            value_line("known_display_id"@, Some(n))
        } else {
            Seq::empty()
        },
        None => Seq::empty(),
    })
}

/// The text of a state file that holds only the ids of the built-in panel.
pub fn remember_internal_id(id: &str, serial: Option<&str>, display_id: Option<&str>) -> (r: String)
    ensures
        r@ == panel_state(id@, text::opt_str(serial), text::opt_str(display_id)),
{
    let mut body = String::new();
    push_value(&mut body, "internal_id", Some(id));
    push_value(&mut body, "internal_serial", serial);
    push_value(&mut body, "internal_display_id", display_id);
    if let Some(n) = display_id {
        if parse_u32(n).is_ok() {
            push_value(&mut body, "known_display_id", Some(n));
        }
    }
    assert(body@ =~= panel_state(id@, text::opt_str(serial), text::opt_str(display_id)));
    body
}

/// The line that names a known number.
pub open spec fn known_line(n: u32) -> Seq<char> {
    "known_display_id="@ + number::dec(n as nat)
}

/// The state file with a number added; nothing to write where a line names it
/// already.
pub open spec fn state_with_number(body: Seq<char>, n: u32) -> Option<Seq<char>> {
    if text::text_lines(body).contains(known_line(n)) {
        None
    } else {
        Some(
            (if body.len() > 0 && body.last() != '\n' {
                body + "\n"@
            } else {
                body
            }) + known_line(n) + "\n"@,
        )
    }
}

/// The text to write so that the state file names a number; none where it does
/// already.
pub fn remember_contextual_display_id(file: Option<&str>, display_id: CGDirectDisplayID) -> (r:
    Option<String>)
    ensures
        text::opt_text(r) == state_with_number(file_text(text::opt_str(file)), display_id),
{
    let number = decimal(display_id as u64);
    let line = cat2("known_display_id=", number.as_str());
    let mut body = text_of_file(file);
    let all = lines(body.as_str());
    if crate::text::list_has(&all, line.as_str()) {
        return None;
    }
    if !body.as_str().is_empty() && !ends_with_char(body.as_str(), '\n') {
        body.append("\n");
    }
    body.append(line.as_str());
    body.append("\n");
    Some(body)
}

// ---------------------------------------------------------------------------
// Numbers from the file.
// ---------------------------------------------------------------------------
/// The number that a text stands for, if it does.
pub open spec fn number_of(value: Seq<char>) -> Option<u32> {
    match number::u32_value(value) {
        Ok(n) => Some(n),
        Err(_) => None,
    }
}

/// The numbers that some texts stand for, added to `ids`; a text that is no
/// number is passed over.
pub open spec fn with_values(ids: Seq<u32>, values: Seq<Seq<char>>) -> Seq<u32>
    decreases values.len(),
{
    if values.len() == 0 {
        ids
    } else {
        ids::with_id_opt(with_values(ids, values.drop_last()), number_of(values.last()))
    }
}

/// The numbers that the value of the built-in panel and those of the known
/// displays stand for, each once and in order.
pub open spec fn numbers_named(panel: Option<Seq<char>>, known: Seq<Seq<char>>) -> Seq<u32> {
    let start = match panel {
        Some(value) => ids::with_id_opt(Seq::empty(), number_of(value)),
        None => Seq::empty(),
    };
    with_values(start, known)
}

/// All numbers that a text names: that of the built-in panel and the known ones.
pub open spec fn numbers_in(body: Seq<char>) -> Seq<u32> {
    numbers_named(
        state_value(body, "internal_display_id"@),
        state_values(body, "known_display_id"@),
    )
}

/// All numbers that the state file names, each once and in order: `panel` is the
/// value that it gives for the built-in panel, `known` are those for the known
/// displays.
pub fn remembered_display_ids(panel: Option<&str>, known: &Vec<String>) -> (r: Vec<
    CGDirectDisplayID,
>)
    ensures
        r@ == numbers_named(text::opt_str(panel), text::texts(known@)),
{
    let mut set: BTreeSet<u32> = BTreeSet::new();
    let ghost mut start: Seq<u32> = Seq::empty();
    assert(set@ =~= start.to_set());
    if let Some(value) = panel {
        if let Ok(n) = parse_u32(value) {
            proof {
                ids::lemma_with_id(start, n);
                start = ids::with_id(start, n);
            }
            insert_id(&mut set, n);
        }
    }
    let ghost all = text::texts(known@);
    let mut i: usize = 0;
    assert(all.take(0) =~= Seq::empty());
    while i < known.len()
        invariant
            i <= known@.len(),
            all == text::texts(known@),
            ids::increasing(with_values(start, all.take(i as int))),
            set@ == with_values(start, all.take(i as int)).to_set(),
        decreases known@.len() - i,
    {
        proof {
            assert(all.take(i + 1).drop_last() =~= all.take(i as int));
            assert(all.take(i + 1).last() == known@[i as int]@);
        }
        if let Ok(n) = parse_u32(known[i].as_str()) {
            proof {
                ids::lemma_with_id(with_values(start, all.take(i as int)), n);
            }
            insert_id(&mut set, n);
        }
        i = i + 1;
    }
    assert(all.take(i as int) =~= all);
    let r = in_order(&set);
    proof {
        ids::lemma_same_numbers(r@, with_values(start, all));
    }
    r
}

/// The number of the built-in panel that a text names. One that is no number is
/// an error.
pub open spec fn panel_number(body: Seq<char>) -> Result<Option<u32>, NumberError> {
    match state_value(body, "internal_display_id"@) {
        Some(value) => match number::u32_value(value) {
            Ok(n) => Ok(Some(n)),
            Err(e) => Err(e),
        },
        None => Ok(None),
    }
}

/// The number of the built-in panel that the state file names.
pub fn remembered_internal_display_id(file: Option<&str>) -> (r: Result<
    Option<CGDirectDisplayID>,
    NumberError,
>)
    ensures
        r == panel_number(file_text(text::opt_str(file))),
{
    match read_state_value(file, "internal_display_id") {
        Some(value) => match parse_u32(value.as_str()) {
            Ok(n) => Ok(Some(n)),
            Err(e) => Err(e),
        },
        None => Ok(None),
    }
}

/// One line on the remembered panel, if anything is remembered of it.
pub open spec fn panel_summary(
    id: Option<Seq<char>>,
    serial: Option<Seq<char>>,
    number: Option<Seq<char>>,
) -> Option<Seq<char>> {
    if id is None && serial is None && number is None {
        None
    } else {
        Some(
            "remembered internal id:"@ + text::text_or(id, "-"@) + " display_id:"@ + text::text_or(
                number,
                "-"@,
            ) + " serial:"@ + text::text_or(serial, "-"@),
        )
    }
}

/// One line on the remembered panel, from the values that the state file gives
/// for it, if there are any.
pub fn remembered_internal_summary(
    id: &Option<String>,
    serial: &Option<String>,
    number: &Option<String>,
) -> (r: Option<String>)
    ensures
        text::opt_text(r) == panel_summary(
            text::opt_text(*id),
            text::opt_text(*serial),
            text::opt_text(*number),
        ),
{
    if id.is_none() && serial.is_none() && number.is_none() {
        return None;
    }
    let mut r = cat3("remembered internal id:", str_or(id, "-"), " display_id:");
    r.append(str_or(number, "-"));
    r.append(" serial:");
    r.append(str_or(serial, "-"));
    Some(r)
}

// ---------------------------------------------------------------------------
// Live and remembered displays together.
// ---------------------------------------------------------------------------
/// The displays as they are not connected, of each target.
pub open spec fn absent_displays(targets: Seq<TargetView>) -> Seq<DisplayView> {
    Seq::new(targets.len(), |i: int| targets[i].absent_display())
}

/// The remembered displays, each replaced by the live report of it where there
/// is one, then the live displays that are not remembered.
pub open spec fn merged(
    remembered: Seq<DisplayView>,
    live: Seq<DisplayView>,
) -> Seq<DisplayView>
    decreases remembered.len(),
{
    if remembered.len() == 0 {
        live
    } else {
        let at = known_at(live, remembered[0]);
        if at < live.len() {
            seq![live[at]] + merged(remembered.skip(1), live.remove(at))
        } else {
            seq![put_away(remembered[0])] + merged(remembered.skip(1), live)
        }
    }
}

/// The remembered displays, the saved targets among them.
pub open spec fn remembered_and_saved(
    state: Option<Seq<char>>,
    targets: Option<Seq<char>>,
) -> Seq<DisplayView> {
    all_upserted(
        remembered_in(file_text(state)),
        absent_displays(target::targets_of_file(targets)),
    )
}

/// The list that is shown: live displays with what is remembered and saved.
pub fn merge_remembered_displays(
    live_displays: Vec<Display>,
    state: Option<&str>,
    targets: Option<&str>,
) -> (r: Vec<Display>)
    ensures
        display::display_views(r@) == merged(
            remembered_and_saved(text::opt_str(state), text::opt_str(targets)),
            display::display_views(live_displays@),
        ),
{
    let mut remaining = live_displays;
    let mut remembered = read_remembered_displays(state);
    let ghost before = display::display_views(remembered@);
    let saved = load_targets(targets);
    let ghost absent = absent_displays(target::target_views(saved@));
    let mut i: usize = 0;
    assert(absent.take(0) =~= Seq::empty());
    while i < saved.len()
        invariant
            i <= saved@.len(),
            absent == absent_displays(target::target_views(saved@)),
            display::display_views(remembered@) == all_upserted(before, absent.take(i as int)),
        decreases saved@.len() - i,
    {
        proof {
            assert(absent.take(i + 1).drop_last() =~= absent.take(i as int));
            assert(absent.take(i + 1).last() == saved@[i as int]@.absent_display());
        }
        upsert_remembered_display(&mut remembered, saved[i].to_absent_display());
        i = i + 1;
    }
    assert(absent.take(i as int) =~= absent);
    let ghost kept = display::display_views(remembered@);
    let ghost whole = merged(kept, display::display_views(remaining@));
    let mut displays: Vec<Display> = Vec::new();
    let mut j: usize = 0;
    assert(kept.skip(0) =~= kept);
    assert(whole =~= display::display_views(displays@) + merged(kept.skip(0), display::display_views(remaining@)));
    while j < remembered.len()
        invariant
            j <= remembered@.len(),
            kept == display::display_views(remembered@),
            whole == display::display_views(displays@) + merged(
                kept.skip(j as int),
                display::display_views(remaining@),
            ),
        decreases remembered@.len() - j,
    {
        let ghost live = display::display_views(remaining@);
        let ghost so_far = display::display_views(displays@);
        let ghost rest = kept.skip(j as int);
        proof {
            assert(rest[0] == remembered@[j as int]@);
            assert(rest.skip(1) =~= kept.skip(j + 1));
        }
        let at: usize = position_of(&remaining, &remembered[j]);
        if at < remaining.len() {
            let display = remaining.remove(at);
            assert(display::display_views(remaining@) =~= live.remove(at as int));
            displays.push(display);
            assert(display::display_views(displays@) =~= so_far.push(live[at as int]));
            assert(display::display_views(displays@) + merged(kept.skip(j + 1), display::display_views(remaining@))
                =~= so_far + merged(rest, live));
        } else {
            let mut absent_one = remembered[j].clone();
            absent_one.enabled = Some(false);
            absent_one.remembered_absent = true;
            absent_one.is_main = false;
            displays.push(absent_one);
            assert(display::display_views(displays@) =~= so_far.push(put_away(rest[0])));
            assert(display::display_views(displays@) + merged(kept.skip(j + 1), display::display_views(remaining@))
                =~= so_far + merged(rest, live));
        }
        j = j + 1;
    }
    assert(kept.skip(j as int) =~= Seq::empty());
    let ghost so_far = display::display_views(displays@);
    let ghost live = display::display_views(remaining@);
    displays.append(&mut remaining);
    assert(display::display_views(displays@) =~= so_far + live);
    displays
}

} // verus!
