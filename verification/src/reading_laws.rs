//! What a list of displays is read as, and when two reports are of one display.

use vstd::prelude::*;

use crate::display;
use crate::display::DisplayView;
use crate::placer;
use crate::placer::CaptureView;
use crate::target::TargetView;
use crate::text;

verus! {

// ---------------------------------------------------------------------------
// The list.
// ---------------------------------------------------------------------------
/// The displays that these lines tell of.
pub open spec fn told(lines: Seq<Seq<char>>) -> Seq<DisplayView> {
    placer::all_displays(placer::scan_lines(lines))
}

/// The line begins with a text.
pub open spec fn opens(line: Seq<char>, label: Seq<char>) -> bool {
    exists|rest: Seq<char>| line == #[trigger] (label + rest)
}

/// The lines tell of a display since `h`, and no command has begun since.
pub open spec fn open_since(lines: Seq<Seq<char>>, h: int) -> bool {
    &&& 0 <= h < lines.len()
    &&& opens(lines[h], "Persistent screen id: "@)
    &&& forall|j: int|
        h < j < lines.len() ==> !opens(#[trigger] lines[j], "Persistent screen id: "@) && !opens(
            lines[j],
            "displayplacer"@,
        )
}

proof fn lemma_opens(line: Seq<char>, label: Seq<char>)
    ensures
        opens(line, label) == text::begins(line, label),
        text::begins(line, label) ==> line == label + line.skip(label.len() as int),
{
    if opens(line, label) {
        let rest = choose|rest: Seq<char>| line == #[trigger] (label + rest);
        assert(line.subrange(0, 0int + label.len()) =~= label);
    }
    if text::begins(line, label) {
        assert(line =~= label + line.skip(label.len() as int));
    }
}

proof fn lemma_labelled(label: Seq<char>, value: Seq<char>)
    ensures
        text::begins(label + value, label),
        text::stripped(label + value, label) == Some(value),
{
    assert((label + value).subrange(0, 0int + label.len()) =~= label);
    assert((label + value).skip(label.len() as int) =~= value);
}

proof fn lemma_differs(label: Seq<char>, value: Seq<char>, other: Seq<char>, k: int)
    requires
        0 <= k < label.len(),
        k < other.len(),
        label[k] != other[k],
    ensures
        !text::begins(label + value, other),
        text::stripped(label + value, other) is None,
{
    let line = label + value;
    if text::begins(line, other) {
        assert(line.subrange(0, 0int + other.len())[k] == line[k]);
    }
}

proof fn lemma_open(lines: Seq<Seq<char>>, h: int)
    requires
        open_since(lines, h),
    ensures
        placer::scan_lines(lines).current is Some,
        !placer::scan_lines(lines).in_restore,
    decreases lines.len(),
{
    let last = lines.last();
    lemma_opens(last, "Persistent screen id: "@);
    lemma_opens(last, "displayplacer"@);
    if h < lines.len() - 1 {
        let early = lines.drop_last();
        assert(early[h] == lines[h]);
        assert forall|j: int| h < j < early.len() implies !opens(
            #[trigger] early[j],
            "Persistent screen id: "@,
        ) && !opens(early[j], "displayplacer"@) by {
            assert(early[j] == lines[j]);
        }
        lemma_open(early, h);
    }
}

/// A line with an id begins a new display, of which nothing but the id is known.
/// Those before it stay as they are.
pub proof fn id_line_begins_a_display(lines: Seq<Seq<char>>, value: Seq<char>)
    ensures
        told(lines.push("Persistent screen id: "@ + value)) == told(lines).push(
            DisplayView {
                persistent_id: Some(text::trimmed(value)),
                contextual_id: None,
                serial_id: None,
                display_type: None,
                resolution: None,
                hertz: None,
                color_depth: None,
                scaling: None,
                origin: None,
                rotation: None,
                enabled: None,
                is_main: false,
                remembered_absent: false,
            },
        ),
{
    let all = lines.push("Persistent screen id: "@ + value);
    assert(all.drop_last() =~= lines);
    lemma_labelled("Persistent screen id: "@, value);
}

/// A line of a display changes the last one only.
proof fn lemma_line(lines: Seq<Seq<char>>, h: int, line: Seq<char>)
    requires
        open_since(lines, h),
        !text::begins(line, "Persistent screen id: "@),
        !text::begins(line, "displayplacer"@),
    ensures
        told(lines).len() > 0,
        told(lines.push(line)) == told(lines).update(
            told(lines).len() - 1,
            placer::with_line(told(lines).last(), line),
        ),
{
    let all = lines.push(line);
    assert(all.drop_last() =~= lines);
    lemma_open(lines, h);
    assert(told(all) =~= told(lines).update(
        told(lines).len() - 1,
        placer::with_line(told(lines).last(), line),
    ));
}

/// A line that begins with `Contextual screen id:` sets just that of the last display, to what
/// stands between the blanks.
pub proof fn contextual_line_sets_the_contextual(lines: Seq<Seq<char>>, h: int, value: Seq<char>)
    requires
        open_since(lines, h),
    ensures
        told(lines).len() > 0,
        told(lines.push("Contextual screen id: "@ + value)) == told(lines).update(
            told(lines).len() - 1,
            (DisplayView { contextual_id: Some(text::trimmed(value)), ..told(lines).last() }),
        ),
{
    let label = "Contextual screen id: "@;
    reveal_strlit("Contextual screen id: ");
    reveal_strlit("Persistent screen id: ");
    reveal_strlit("displayplacer");
    lemma_differs(label, value, "Persistent screen id: "@, 0);
    lemma_differs(label, value, "displayplacer"@, 0);
    lemma_labelled(label, value);
    lemma_line(lines, h, label + value);
}

/// A line that begins with `Serial screen id:` sets just that of the last display, to what
/// stands between the blanks.
pub proof fn serial_line_sets_the_serial(lines: Seq<Seq<char>>, h: int, value: Seq<char>)
    requires
        open_since(lines, h),
    ensures
        told(lines).len() > 0,
        told(lines.push("Serial screen id: "@ + value)) == told(lines).update(
            told(lines).len() - 1,
            (DisplayView { serial_id: Some(text::trimmed(value)), ..told(lines).last() }),
        ),
{
    let label = "Serial screen id: "@;
    reveal_strlit("Serial screen id: ");
    reveal_strlit("Persistent screen id: ");
    reveal_strlit("displayplacer");
    reveal_strlit("Contextual screen id: ");
    lemma_differs(label, value, "Persistent screen id: "@, 0);
    lemma_differs(label, value, "displayplacer"@, 0);
    lemma_differs(label, value, "Contextual screen id: "@, 0);
    lemma_labelled(label, value);
    lemma_line(lines, h, label + value);
}

/// A line that begins with `Type:` sets just that of the last display, to what
/// stands between the blanks.
pub proof fn type_line_sets_the_type(lines: Seq<Seq<char>>, h: int, value: Seq<char>)
    requires
        open_since(lines, h),
    ensures
        told(lines).len() > 0,
        told(lines.push("Type: "@ + value)) == told(lines).update(
            told(lines).len() - 1,
            (DisplayView { display_type: Some(text::trimmed(value)), ..told(lines).last() }),
        ),
{
    let label = "Type: "@;
    reveal_strlit("Type: ");
    reveal_strlit("Persistent screen id: ");
    reveal_strlit("displayplacer");
    reveal_strlit("Contextual screen id: ");
    reveal_strlit("Serial screen id: ");
    lemma_differs(label, value, "Persistent screen id: "@, 0);
    lemma_differs(label, value, "displayplacer"@, 0);
    lemma_differs(label, value, "Contextual screen id: "@, 0);
    lemma_differs(label, value, "Serial screen id: "@, 0);
    lemma_labelled(label, value);
    lemma_line(lines, h, label + value);
}

/// A line that begins with `Resolution:` sets just that of the last display, to what
/// stands between the blanks.
pub proof fn resolution_line_sets_the_resolution(lines: Seq<Seq<char>>, h: int, value: Seq<char>)
    requires
        open_since(lines, h),
    ensures
        told(lines).len() > 0,
        told(lines.push("Resolution: "@ + value)) == told(lines).update(
            told(lines).len() - 1,
            (DisplayView { resolution: Some(text::trimmed(value)), ..told(lines).last() }),
        ),
{
    let label = "Resolution: "@;
    reveal_strlit("Resolution: ");
    reveal_strlit("Persistent screen id: ");
    reveal_strlit("displayplacer");
    reveal_strlit("Contextual screen id: ");
    reveal_strlit("Serial screen id: ");
    reveal_strlit("Type: ");
    lemma_differs(label, value, "Persistent screen id: "@, 0);
    lemma_differs(label, value, "displayplacer"@, 0);
    lemma_differs(label, value, "Contextual screen id: "@, 0);
    lemma_differs(label, value, "Serial screen id: "@, 0);
    lemma_differs(label, value, "Type: "@, 0);
    lemma_labelled(label, value);
    lemma_line(lines, h, label + value);
}

/// A line that begins with `Hertz:` sets just that of the last display, to what
/// stands between the blanks.
pub proof fn hertz_line_sets_the_hertz(lines: Seq<Seq<char>>, h: int, value: Seq<char>)
    requires
        open_since(lines, h),
    ensures
        told(lines).len() > 0,
        told(lines.push("Hertz: "@ + value)) == told(lines).update(
            told(lines).len() - 1,
            (DisplayView { hertz: Some(text::trimmed(value)), ..told(lines).last() }),
        ),
{
    let label = "Hertz: "@;
    reveal_strlit("Hertz: ");
    reveal_strlit("Persistent screen id: ");
    reveal_strlit("displayplacer");
    reveal_strlit("Contextual screen id: ");
    reveal_strlit("Serial screen id: ");
    reveal_strlit("Type: ");
    reveal_strlit("Resolution: ");
    lemma_differs(label, value, "Persistent screen id: "@, 0);
    lemma_differs(label, value, "displayplacer"@, 0);
    lemma_differs(label, value, "Contextual screen id: "@, 0);
    lemma_differs(label, value, "Serial screen id: "@, 0);
    lemma_differs(label, value, "Type: "@, 0);
    lemma_differs(label, value, "Resolution: "@, 0);
    lemma_labelled(label, value);
    lemma_line(lines, h, label + value);
}

/// A line that begins with `Color Depth:` sets just that of the last display, to what
/// stands between the blanks.
pub proof fn color_depth_line_sets_the_color_depth(lines: Seq<Seq<char>>, h: int, value: Seq<char>)
    requires
        open_since(lines, h),
    ensures
        told(lines).len() > 0,
        told(lines.push("Color Depth: "@ + value)) == told(lines).update(
            told(lines).len() - 1,
            (DisplayView { color_depth: Some(text::trimmed(value)), ..told(lines).last() }),
        ),
{
    let label = "Color Depth: "@;
    reveal_strlit("Color Depth: ");
    reveal_strlit("Persistent screen id: ");
    reveal_strlit("displayplacer");
    reveal_strlit("Contextual screen id: ");
    reveal_strlit("Serial screen id: ");
    reveal_strlit("Type: ");
    reveal_strlit("Resolution: ");
    reveal_strlit("Hertz: ");
    lemma_differs(label, value, "Persistent screen id: "@, 0);
    lemma_differs(label, value, "displayplacer"@, 0);
    lemma_differs(label, value, "Contextual screen id: "@, 2);
    lemma_differs(label, value, "Serial screen id: "@, 0);
    lemma_differs(label, value, "Type: "@, 0);
    lemma_differs(label, value, "Resolution: "@, 0);
    lemma_differs(label, value, "Hertz: "@, 0);
    lemma_labelled(label, value);
    lemma_line(lines, h, label + value);
}

/// A line that begins with `Scaling:` sets just that of the last display, to what
/// stands between the blanks.
pub proof fn scaling_line_sets_the_scaling(lines: Seq<Seq<char>>, h: int, value: Seq<char>)
    requires
        open_since(lines, h),
    ensures
        told(lines).len() > 0,
        told(lines.push("Scaling: "@ + value)) == told(lines).update(
            told(lines).len() - 1,
            (DisplayView { scaling: Some(text::trimmed(value)), ..told(lines).last() }),
        ),
{
    let label = "Scaling: "@;
    reveal_strlit("Scaling: ");
    reveal_strlit("Persistent screen id: ");
    reveal_strlit("displayplacer");
    reveal_strlit("Contextual screen id: ");
    reveal_strlit("Serial screen id: ");
    reveal_strlit("Type: ");
    reveal_strlit("Resolution: ");
    reveal_strlit("Hertz: ");
    reveal_strlit("Color Depth: ");
    lemma_differs(label, value, "Persistent screen id: "@, 0);
    lemma_differs(label, value, "displayplacer"@, 0);
    lemma_differs(label, value, "Contextual screen id: "@, 0);
    lemma_differs(label, value, "Serial screen id: "@, 1);
    lemma_differs(label, value, "Type: "@, 0);
    lemma_differs(label, value, "Resolution: "@, 0);
    lemma_differs(label, value, "Hertz: "@, 0);
    lemma_differs(label, value, "Color Depth: "@, 0);
    lemma_labelled(label, value);
    lemma_line(lines, h, label + value);
}

/// A line that begins with `Origin:` sets the origin of the last display, up to a
/// dash, and tells whether it is the main one.
pub proof fn origin_line_sets_the_origin(lines: Seq<Seq<char>>, h: int, value: Seq<char>)
    requires
        open_since(lines, h),
    ensures
        told(lines).len() > 0,
        told(lines.push("Origin: "@ + value)) == told(lines).update(
            told(lines).len() - 1,
            (
                DisplayView { is_main: text::has_text(value, " - main display"@), origin: Some(text::trimmed(text::before(value, " - "@))), ..told(lines).last() }
            ),
        ),
{
    let label = "Origin: "@;
    reveal_strlit("Origin: ");
    reveal_strlit("Persistent screen id: ");
    reveal_strlit("displayplacer");
    reveal_strlit("Contextual screen id: ");
    reveal_strlit("Serial screen id: ");
    reveal_strlit("Type: ");
    reveal_strlit("Resolution: ");
    reveal_strlit("Hertz: ");
    reveal_strlit("Color Depth: ");
    reveal_strlit("Scaling: ");
    lemma_differs(label, value, "Persistent screen id: "@, 0);
    lemma_differs(label, value, "displayplacer"@, 0);
    lemma_differs(label, value, "Contextual screen id: "@, 0);
    lemma_differs(label, value, "Serial screen id: "@, 0);
    lemma_differs(label, value, "Type: "@, 0);
    lemma_differs(label, value, "Resolution: "@, 0);
    lemma_differs(label, value, "Hertz: "@, 0);
    lemma_differs(label, value, "Color Depth: "@, 0);
    lemma_differs(label, value, "Scaling: "@, 0);
    lemma_labelled(label, value);
    lemma_line(lines, h, label + value);
}

/// A line that begins with `Rotation:` sets the rotation of the last display, up to
/// a dash.
pub proof fn rotation_line_sets_the_rotation(lines: Seq<Seq<char>>, h: int, value: Seq<char>)
    requires
        open_since(lines, h),
    ensures
        told(lines).len() > 0,
        told(lines.push("Rotation: "@ + value)) == told(lines).update(
            told(lines).len() - 1,
            (
                DisplayView { rotation: Some(text::trimmed(text::before(value, " - "@))), ..told(lines).last() }
            ),
        ),
{
    let label = "Rotation: "@;
    reveal_strlit("Rotation: ");
    reveal_strlit("Persistent screen id: ");
    reveal_strlit("displayplacer");
    reveal_strlit("Contextual screen id: ");
    reveal_strlit("Serial screen id: ");
    reveal_strlit("Type: ");
    reveal_strlit("Resolution: ");
    reveal_strlit("Hertz: ");
    reveal_strlit("Color Depth: ");
    reveal_strlit("Scaling: ");
    reveal_strlit("Origin: ");
    lemma_differs(label, value, "Persistent screen id: "@, 0);
    lemma_differs(label, value, "displayplacer"@, 0);
    lemma_differs(label, value, "Contextual screen id: "@, 0);
    lemma_differs(label, value, "Serial screen id: "@, 0);
    lemma_differs(label, value, "Type: "@, 0);
    lemma_differs(label, value, "Resolution: "@, 1);
    lemma_differs(label, value, "Hertz: "@, 0);
    lemma_differs(label, value, "Color Depth: "@, 0);
    lemma_differs(label, value, "Scaling: "@, 0);
    lemma_differs(label, value, "Origin: "@, 0);
    lemma_labelled(label, value);
    lemma_line(lines, h, label + value);
}

/// A line that begins with `Enabled:` tells whether the last display is on, where it
/// says one or the other.
pub proof fn enabled_line_sets_the_enabled(lines: Seq<Seq<char>>, h: int, value: Seq<char>)
    requires
        open_since(lines, h),
    ensures
        told(lines).len() > 0,
        told(lines.push("Enabled: "@ + value)) == told(lines).update(
            told(lines).len() - 1,
            (
                DisplayView { enabled: if text::trimmed(value) == "true"@ { Some(true) } else if text::trimmed(value) == "false"@ { Some(false) } else { None }, ..told(lines).last() }
            ),
        ),
{
    let label = "Enabled: "@;
    reveal_strlit("Enabled: ");
    reveal_strlit("Persistent screen id: ");
    reveal_strlit("displayplacer");
    reveal_strlit("Contextual screen id: ");
    reveal_strlit("Serial screen id: ");
    reveal_strlit("Type: ");
    reveal_strlit("Resolution: ");
    reveal_strlit("Hertz: ");
    reveal_strlit("Color Depth: ");
    reveal_strlit("Scaling: ");
    reveal_strlit("Origin: ");
    reveal_strlit("Rotation: ");
    lemma_differs(label, value, "Persistent screen id: "@, 0);
    lemma_differs(label, value, "displayplacer"@, 0);
    lemma_differs(label, value, "Contextual screen id: "@, 0);
    lemma_differs(label, value, "Serial screen id: "@, 0);
    lemma_differs(label, value, "Type: "@, 0);
    lemma_differs(label, value, "Resolution: "@, 0);
    lemma_differs(label, value, "Hertz: "@, 0);
    lemma_differs(label, value, "Color Depth: "@, 0);
    lemma_differs(label, value, "Scaling: "@, 0);
    lemma_differs(label, value, "Origin: "@, 0);
    lemma_differs(label, value, "Rotation: "@, 0);
    lemma_labelled(label, value);
    lemma_line(lines, h, label + value);
}

/// A line that begins otherwise tells nothing of the displays.
pub proof fn other_lines_tell_nothing(lines: Seq<Seq<char>>, line: Seq<char>)
    requires
        !opens(line, "Persistent screen id: "@),
        !opens(line, "Contextual screen id: "@),
        !opens(line, "Serial screen id: "@),
        !opens(line, "Type: "@),
        !opens(line, "Resolution: "@),
        !opens(line, "Hertz: "@),
        !opens(line, "Color Depth: "@),
        !opens(line, "Scaling: "@),
        !opens(line, "Origin: "@),
        !opens(line, "Rotation: "@),
        !opens(line, "Enabled: "@),
    ensures
        told(lines.push(line)) == told(lines),
{
    let all = lines.push(line);
    assert(all.drop_last() =~= lines);
    lemma_opens(line, "Persistent screen id: "@);
    lemma_opens(line, "Contextual screen id: "@);
    lemma_opens(line, "Serial screen id: "@);
    lemma_opens(line, "Type: "@);
    lemma_opens(line, "Resolution: "@);
    lemma_opens(line, "Hertz: "@);
    lemma_opens(line, "Color Depth: "@);
    lemma_opens(line, "Scaling: "@);
    lemma_opens(line, "Origin: "@);
    lemma_opens(line, "Rotation: "@);
    lemma_opens(line, "Enabled: "@);
}

/// The command at the end of a list tells nothing of the displays either, whatever
/// its further lines hold, up to the next id.
pub proof fn command_lines_tell_nothing(lines: Seq<Seq<char>>, more: Seq<Seq<char>>)
    requires
        more.len() > 0,
        opens(more[0], "displayplacer"@),
        forall|i: int| 0 <= i < more.len()
            ==> !opens(#[trigger] more[i], "Persistent screen id: "@),
    ensures
        told(lines + more) == told(lines),
        placer::scan_lines(lines + more).restore == placer::scan_lines(lines).restore + Seq::new(
            more.len(),
            |i: int| text::trimmed_end(more[i]),
        ),
        placer::scan_lines(lines + more).in_restore,
    decreases more.len(),
{
    let all = lines + more;
    assert(all.drop_last() =~= lines + more.drop_last());
    assert(all.last() == more.last());
    let last = more[more.len() - 1];
    lemma_opens(last, "Persistent screen id: "@);
    let seen = Seq::new(more.len(), |i: int| text::trimmed_end(more[i]));
    if more.len() == 1 {
        lemma_opens(more[0], "displayplacer"@);
        assert(lines + more.drop_last() =~= lines);
    } else {
        let early = more.drop_last();
        assert forall|i: int| 0 <= i < early.len() implies !opens(
            #[trigger] early[i],
            "Persistent screen id: "@,
        ) by {
            assert(early[i] == more[i]);
        }
        assert(early[0] == more[0]);
        command_lines_tell_nothing(lines, early);
    }
    assert(placer::scan_lines(all).restore =~= placer::scan_lines(lines).restore + seen);
}

/// Where no line begins with the command, there is none.
pub proof fn no_command_without_one(lines: Seq<Seq<char>>)
    requires
        forall|i: int| 0 <= i < lines.len() ==> !opens(#[trigger] lines[i], "displayplacer"@),
    ensures
        placer::scan_lines(lines).restore.len() == 0,
        !placer::scan_lines(lines).in_restore,
    decreases lines.len(),
{
    if lines.len() > 0 {
        let early = lines.drop_last();
        assert forall|i: int| 0 <= i < early.len() implies !opens(
            #[trigger] early[i],
            "displayplacer"@,
        ) by {
            assert(early[i] == lines[i]);
        }
        no_command_without_one(early);
        assert(!opens(lines[lines.len() - 1], "displayplacer"@));
        lemma_opens(lines.last(), "displayplacer"@);
    }
}

/// What is read is the output and what was complained of, as it stands, line by
/// line. A command that failed yields no list.
pub proof fn list_is_read_from_the_output(capture: CaptureView)
    ensures
        placer::list_outcome(capture) is Ok <==> capture.success,
        placer::list_outcome(capture) matches Ok(parsed) ==> {
            &&& parsed.raw == capture.stdout + capture.stderr
            &&& parsed.displays == told(text::text_lines(parsed.raw))
            &&& parsed.restore_command is None <==> placer::scan_lines(
                text::text_lines(parsed.raw),
            ).restore.len() == 0
        },
{
}

// ---------------------------------------------------------------------------
// Identity.
// ---------------------------------------------------------------------------
/// Two reports are of one display in either order, and a display that has a stable
/// id is itself.
pub proof fn sameness_has_no_order(a: DisplayView, b: DisplayView)
    ensures
        a.same_as(b) == b.same_as(a),
        a.stable() ==> a.same_as(a),
{
}

/// The ids agree, whatever the letters and the blanks around them.
pub open spec fn agree(a: Option<Seq<char>>, b: Option<Seq<char>>) -> bool {
    &&& a is Some
    &&& b is Some
    &&& text::lowered(text::trimmed(a->0)) == text::lowered(text::trimmed(b->0))
}

/// The id is there and says something.
pub open spec fn says_something(id: Option<Seq<char>>) -> bool {
    id is Some && text::trimmed(id->0).len() > 0 && text::trimmed(id->0) != "-"@
}

proof fn lemma_dash(s: Seq<char>)
    ensures
        text::lowered(s) == "-"@ <==> s == "-"@,
{
    reveal_strlit("-");
    if text::lowered(s) == "-"@ {
        assert("-"@.len() == 1);
        assert(text::lowered(s).len() == s.len());
        assert(text::lowered(s)[0] == text::lower_char(s[0]));
        crate::text_laws::lowering_is_for_capitals(s, 0);
        assert(s =~= "-"@);
    }
    if s == "-"@ {
        assert(text::lowered(s) =~= "-"@);
    }
}

/// Persistent ids that agree make two reports one display, whatever else they hold.
pub proof fn persistent_ids_decide(a: DisplayView, b: DisplayView)
    requires
        says_something(a.persistent_id),
        agree(a.persistent_id, b.persistent_id),
    ensures
        a.same_as(b),
        a.stable(),
        b.stable(),
{
    lemma_dash(text::trimmed(a.persistent_id->0));
}

/// A stable id that finds no match rules a display out, whatever the contextual
/// numbers say: where one of the two has one, they are one display only by their
/// persistent ids or by their serial numbers.
pub proof fn stable_ids_are_trusted(a: DisplayView, b: DisplayView)
    requires
        says_something(a.persistent_id),
        a.same_as(b),
    ensures
        agree(a.persistent_id, b.persistent_id) || (a.serial_id is Some && b.serial_id is Some
            && display::normal_id(a.serial_id->0) == display::normal_id(b.serial_id->0)),
{
    lemma_dash(text::trimmed(a.persistent_id->0));
}

/// Where neither says anything, the contextual numbers decide.
pub proof fn contextual_ids_decide_last(a: DisplayView, b: DisplayView)
    requires
        a.persistent_id is None,
        a.serial_id is None,
        b.persistent_id is None,
        b.serial_id is None,
    ensures
        !a.stable(),
        !b.stable(),
        a.same_as(b) <==> (a.contextual_id is Some && b.contextual_id is Some
            && display::normal_id(a.contextual_id->0) == display::normal_id(b.contextual_id->0)),
{
}

/// A serial number that is a placeholder names no display.
pub proof fn placeholders_name_nothing(d: DisplayView)
    requires
        !says_something(d.persistent_id),
        d.serial_id matches Some(serial) ==> {
            let normal = display::normal_id(serial);
            normal.len() == 0 || normal == "-"@ || normal == "0"@ || normal == "unknown"@ || normal
                == "no serial"@
        },
    ensures
        !d.stable(),
{
    if let Some(id) = d.persistent_id {
        lemma_dash(text::trimmed(id));
    }
}

/// Serial numbers that agree and are no placeholders make two reports one display.
pub proof fn serial_numbers_decide(a: DisplayView, b: DisplayView)
    requires
        a.serial_id is Some,
        b.serial_id is Some,
        display::normal_id(a.serial_id->0) == display::normal_id(b.serial_id->0),
        ({
            let normal = display::normal_id(a.serial_id->0);
            normal.len() > 0 && normal != "-"@ && normal != "0"@ && normal != "unknown"@ && normal
                != "no serial"@
        }),
    ensures
        a.same_as(b),
        a.stable(),
        b.stable(),
{
}

/// A target fits the display that it was made of, and never the panel.
pub proof fn targets_fit_displays(target: TargetView, d: DisplayView)
    ensures
        target.fits(d) ==> !d.internal(),
        !d.internal() && says_something(target.persistent_id) && agree(
            target.persistent_id,
            d.persistent_id,
        ) ==> target.fits(d),
{
    if says_something(target.persistent_id) {
        lemma_dash(text::trimmed(target.persistent_id->0));
    }
}

/// A display answers to a name just where one of its three ids is that name, up to
/// letters, blanks and a leading `s`.
pub proof fn answering_is_by_id(d: DisplayView, name: Seq<char>)
    ensures
        d.persistent_id == Some(name) || d.contextual_id == Some(name) || d.serial_id == Some(name)
            ==> d.answers_to(name),
        d.answers_to(name) ==> {
            ||| d.persistent_id is Some && display::normal_id(d.persistent_id->0)
                == display::normal_id(name)
            ||| d.contextual_id is Some && display::normal_id(d.contextual_id->0)
                == display::normal_id(name)
            ||| d.serial_id is Some && display::normal_id(d.serial_id->0) == display::normal_id(
                name,
            )
        },
{
}

/// What is compared of an id is what stands between the blanks, without the marks
/// before it, in small letters.
pub proof fn ids_are_compared_plainly(value: Seq<char>) -> (k: int)
    ensures
        0 <= k <= text::trimmed(value).len(),
        display::normal_id(value) == text::lowered(text::trimmed(value).skip(k)),
        forall|i: int|
            0 <= i < k ==> #[trigger] text::trimmed(value)[i] == 's' || text::trimmed(value)[i]
                == 'S',
        k < text::trimmed(value).len() ==> text::trimmed(value)[k] != 'S',
{
    let plain = text::trimmed(value);
    let a = crate::text_laws::leading_characters_are_cut(plain, 's');
    let rest = plain.skip(a);
    let b = crate::text_laws::leading_characters_are_cut(rest, 'S');
    assert(rest.skip(b) =~= plain.skip(a + b));
    assert forall|i: int| 0 <= i < a + b implies #[trigger] plain[i] == 's' || plain[i] == 'S' by {
        if i >= a {
            assert(rest[i - a] == plain[i]);
        }
    }
    a + b
}

} // verus!
