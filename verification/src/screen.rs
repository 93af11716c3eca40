//! What the terminal shows.

use vstd::prelude::*;

use crate::display;
use crate::display::{has_any_internal, Display, DisplayView};
use crate::number;
use crate::number::{decimal, pad_left, pad_right};
use crate::placer::{ParsedDisplayplacer, ParsedView};
use crate::target;
use crate::target::{has_target_for, MonitorTarget, TargetView};
use crate::text;
use crate::text::{cat2, cat4, owned, str_or};
use crate::wording;
use crate::wording::trim_to_width;

verus! {

/// A colour of text.
#[derive(Debug, Clone, Copy, PartialEq, Eq, Structural)]
pub enum Tint {
    DarkGrey,
    Blue,
    Green,
}

/// One thing that is sent to the terminal.
#[derive(Debug)]
pub enum Span {
    /// The screen is cleared, and the cursor goes to its start.
    Clear,
    Text(String),
    Bold,
    Dim,
    Reverse,
    /// Bold, dim and reverse end.
    Reset,
    Tint(Tint),
    /// The colour ends.
    ResetTint,
}

/// What a span holds, as plain text.
#[verifier::ext_equal]
pub enum SpanView {
    Clear,
    Text(Seq<char>),
    Bold,
    Dim,
    Reverse,
    Reset,
    Tint(Tint),
    ResetTint,
}

impl View for Span {
    type V = SpanView;

    open spec fn view(&self) -> SpanView {
        match self {
            Span::Clear => SpanView::Clear,
            Span::Text(s) => SpanView::Text(s@),
            Span::Bold => SpanView::Bold,
            Span::Dim => SpanView::Dim,
            Span::Reverse => SpanView::Reverse,
            Span::Reset => SpanView::Reset,
            Span::Tint(tint) => SpanView::Tint(*tint),
            Span::ResetTint => SpanView::ResetTint,
        }
    }
}

/// What the spans hold.
pub open spec fn span_views(v: Seq<Span>) -> Seq<SpanView> {
    Seq::new(v.len(), |i: int| v[i]@)
}

fn put_text(out: &mut Vec<Span>, s: &str)
    ensures
        span_views(final(out)@) == span_views(old(out)@).push(SpanView::Text(s@)),
{
    out.push(Span::Text(owned(s)));
    assert(span_views(out@) =~= span_views(old(out)@).push(SpanView::Text(s@)));
}

fn put(out: &mut Vec<Span>, span: Span)
    ensures
        span_views(final(out)@) == span_views(old(out)@).push(span@),
{
    let ghost seen = span@;
    out.push(span);
    assert(span_views(out@) =~= span_views(old(out)@).push(seen));
}

// ---------------------------------------------------------------------------
// A row of the list.
// ---------------------------------------------------------------------------
/// Which display it is.
pub open spec fn role_text(d: DisplayView) -> Seq<char> {
    if d.internal() {
        "internal"@
    } else {
        "external"@
    }
}

/// Whether it is on.
pub open spec fn power_text(d: DisplayView) -> Seq<char> {
    if d.remembered_absent {
        "off"@
    } else {
        match d.enabled {
            Some(true) => "on"@,
            Some(false) => "off"@,
            None => "unknown"@,
        }
    }
}

/// Whether it is an auto target.
pub open spec fn auto_text(d: DisplayView, targets: Seq<TargetView>) -> Seq<char> {
    if target::any_fits(targets, d) {
        "auto"@
    } else {
        "-"@
    }
}

/// The colour of its role.
pub open spec fn role_tint(d: DisplayView) -> Tint {
    if d.remembered_absent {
        Tint::DarkGrey
    } else if d.internal() {
        Tint::Blue
    } else if d.on() {
        Tint::Green
    } else {
        Tint::DarkGrey
    }
}

/// What it is called.
pub open spec fn caption(d: DisplayView) -> Seq<char> {
    text::text_or(d.display_type, "<unknown-type>"@) + " "@ + text::text_or(
        d.resolution,
        "<unknown-resolution>"@,
    ) + (if d.is_main {
        " main"@
    } else {
        ""@
    })
}

/// The width that is left for the caption.
pub open spec fn caption_width(width: nat) -> nat {
    if width >= 28 {
        (width - 28) as nat
    } else {
        0
    }
}

/// The row of one display.
pub open spec fn row_spans(
    index: nat,
    d: DisplayView,
    targets: Seq<TargetView>,
    width: nat,
) -> Seq<SpanView> {
    seq![
        SpanView::Text(number::padded_left(number::dec(index), 2) + " "@),
        SpanView::Tint(role_tint(d)),
        SpanView::Text(number::padded_right(role_text(d), 8)),
        SpanView::ResetTint,
        SpanView::Text(" "@),
        SpanView::Text(number::padded_right(power_text(d), 7)),
        SpanView::Text(" "@),
        SpanView::Text(number::padded_right(auto_text(d, targets), 5)),
        SpanView::Text(" "@),
        SpanView::Text(wording::cut_text(caption(d), caption_width(width))),
    ]
}

/// Writes the row of one display.
pub fn render_display_row(
    out: &mut Vec<Span>,
    index: usize,
    display: &Display,
    targets: &Vec<MonitorTarget>,
    width: usize,
)
    ensures
        span_views(final(out)@) == span_views(old(out)@) + row_spans(
            index as nat,
            display@,
            target::target_views(targets@),
            width as nat,
        ),
{
    let ghost start = span_views(out@);
    let role = if display.is_internal() {
        "internal"
    } else {
        "external"
    };
    let state = if display.remembered_absent {
        "off"
    } else {
        match display.enabled {
            Some(enabled) => if enabled {
                "on"
            } else {
                "off"
            },
            None => "unknown",
        }
    };
    let auto = if has_target_for(targets, display) {
        "auto"
    } else {
        "-"
    };
    let main = if display.is_main {
        " main"
    } else {
        ""
    };
    let tint = if display.remembered_absent {
        Tint::DarkGrey
    } else if display.is_internal() {
        Tint::Blue
    } else if display.is_enabled() {
        Tint::Green
    } else {
        Tint::DarkGrey
    };
    let name = cat4(
        str_or(&display.display_type, "<unknown-type>"),
        " ",
        str_or(&display.resolution, "<unknown-resolution>"),
        main,
    );
    let room: usize = if width >= 28 {
        width - 28
    } else {
        0
    };
    let label = trim_to_width(name.as_str(), room);
    let digits = decimal(index as u64);
    let number = pad_left(digits.as_str(), 2);
    let number = cat2(number.as_str(), " ");
    let role = pad_right(role, 8);
    let state = pad_right(state, 7);
    let auto = pad_right(auto, 5);
    put_text(out, number.as_str());
    put(out, Span::Tint(tint));
    put_text(out, role.as_str());
    put(out, Span::ResetTint);
    put_text(out, " ");
    put_text(out, state.as_str());
    put_text(out, " ");
    put_text(out, auto.as_str());
    put_text(out, " ");
    put_text(out, label.as_str());
    assert(span_views(out@) =~= start + row_spans(
        index as nat,
        display@,
        target::target_views(targets@),
        width as nat,
    ));
}

// ---------------------------------------------------------------------------
// The list.
// ---------------------------------------------------------------------------
/// What follows the row of the selected display.
pub open spec fn detail_spans(d: DisplayView) -> Seq<SpanView> {
    seq![
        SpanView::Dim,
        SpanView::Text("     id:"@),
        SpanView::Text(text::text_or(d.persistent_id, "-"@)),
        SpanView::Text("  ctx:"@),
        SpanView::Text(text::text_or(d.contextual_id, "-"@)),
        SpanView::Text("  serial:"@),
        SpanView::Text(text::text_or(d.serial_id, "-"@)),
        SpanView::Text("  origin:"@),
        SpanView::Text(text::text_or(d.origin, "-"@)),
        SpanView::Text(if d.remembered_absent {
            "  remembered"@
        } else {
            ""@
        }),
        SpanView::Text("\r\n"@),
        SpanView::Reset,
    ]
}

/// All that is shown of one display.
pub open spec fn entry_spans(
    index: nat,
    d: DisplayView,
    targets: Seq<TargetView>,
    selected: bool,
    width: nat,
) -> Seq<SpanView> {
    if selected {
        seq![SpanView::Reverse] + row_spans(index, d, targets, width) + seq![
            SpanView::Reset,
            SpanView::Text("\r\n"@),
        ] + detail_spans(d)
    } else {
        row_spans(index, d, targets, width) + seq![SpanView::Text("\r\n"@)]
    }
}

/// All that is shown of the displays.
pub open spec fn entries_spans(
    displays: Seq<DisplayView>,
    targets: Seq<TargetView>,
    selected: nat,
    width: nat,
) -> Seq<SpanView>
    decreases displays.len(),
{
    if displays.len() == 0 {
        Seq::empty()
    } else {
        entries_spans(displays.drop_last(), targets, selected, width) + entry_spans(
            (displays.len() - 1) as nat,
            displays.last(),
            targets,
            displays.len() - 1 == selected,
            width,
        )
    }
}

fn render_detail(out: &mut Vec<Span>, display: &Display)
    ensures
        span_views(final(out)@) == span_views(old(out)@) + detail_spans(display@),
{
    let ghost start = span_views(out@);
    put(out, Span::Dim);
    put_text(out, "     id:");
    put_text(out, str_or(&display.persistent_id, "-"));
    put_text(out, "  ctx:");
    put_text(out, str_or(&display.contextual_id, "-"));
    put_text(out, "  serial:");
    put_text(out, str_or(&display.serial_id, "-"));
    put_text(out, "  origin:");
    put_text(out, str_or(&display.origin, "-"));
    put_text(
        out,
        if display.remembered_absent {
            "  remembered"
        } else {
            ""
        },
    );
    put_text(out, "\r\n");
    put(out, Span::Reset);
    assert(span_views(out@) =~= start + detail_spans(display@));
}

fn render_entry(
    out: &mut Vec<Span>,
    index: usize,
    display: &Display,
    targets: &Vec<MonitorTarget>,
    selected: bool,
    width: usize,
)
    ensures
        span_views(final(out)@) == span_views(old(out)@) + entry_spans(
            index as nat,
            display@,
            target::target_views(targets@),
            selected,
            width as nat,
        ),
{
    let ghost start = span_views(out@);
    let ghost row = row_spans(
        index as nat,
        display@,
        target::target_views(targets@),
        width as nat,
    );
    if selected {
        put(out, Span::Reverse);
    }
    render_display_row(out, index, display, targets, width);
    if selected {
        put(out, Span::Reset);
    }
    put_text(out, "\r\n");
    if selected {
        render_detail(out, display);
        assert(span_views(out@) =~= start + (seq![SpanView::Reverse] + row + seq![
            SpanView::Reset,
            SpanView::Text("\r\n"@),
        ] + detail_spans(display@)));
    } else {
        assert(span_views(out@) =~= start + (row + seq![SpanView::Text("\r\n"@)]));
    }
}

fn render_entries(
    out: &mut Vec<Span>,
    displays: &Vec<Display>,
    targets: &Vec<MonitorTarget>,
    selected: usize,
    width: usize,
)
    ensures
        span_views(final(out)@) == span_views(old(out)@) + entries_spans(
            display::display_views(displays@),
            target::target_views(targets@),
            selected as nat,
            width as nat,
        ),
{
    let ghost start = span_views(out@);
    let ghost all = display::display_views(displays@);
    let ghost seen = target::target_views(targets@);
    let mut i: usize = 0;
    assert(start + entries_spans(all.take(0), seen, selected as nat, width as nat) =~= start);
    while i < displays.len()
        invariant
            i <= displays.len(),
            all == display::display_views(displays@),
            seen == target::target_views(targets@),
            span_views(out@) == start + entries_spans(
                all.take(i as int),
                seen,
                selected as nat,
                width as nat,
            ),
        decreases displays.len() - i,
    {
        proof {
            assert(all.take(i + 1).drop_last() =~= all.take(i as int));
            assert(all.take(i + 1).last() == displays[i as int]@);
        }
        render_entry(out, i, &displays[i], targets, i == selected, width);
        assert(span_views(out@) =~= start + entries_spans(
            all.take(i + 1),
            seen,
            selected as nat,
            width as nat,
        ));
        i = i + 1;
    }
    assert(all.take(i as int) =~= all);
}

// ---------------------------------------------------------------------------
// The screen.
// ---------------------------------------------------------------------------
/// The line above the list.
pub open spec fn head_spans(targets: nat) -> Seq<SpanView> {
    seq![
        SpanView::Clear,
        SpanView::Bold,
        SpanView::Text("displayed"@),
        SpanView::Reset,
        SpanView::Text("  auto:"@),
        SpanView::Text(if targets == 0 {
            "inactive"@
        } else {
            "active"@
        }),
        SpanView::Text("  targets:"@),
        SpanView::Text(number::dec(targets)),
        SpanView::Text("\r\n\r\n"@),
    ]
}

/// The list, or what stands in its place.
pub open spec fn list_spans(
    parsed: Option<ParsedView>,
    targets: Seq<TargetView>,
    selected: nat,
    width: nat,
) -> Seq<SpanView> {
    match parsed {
        Some(parsed) => if parsed.displays.len() > 0 {
            entries_spans(parsed.displays, targets, selected, width)
        } else {
            seq![SpanView::Text("No displays parsed from displayplacer output.\r\n"@)]
        },
        None => seq![SpanView::Text("Display state unavailable.\r\n"@)],
    }
}

/// The built-in panel is not in the list.
pub open spec fn lacks_panel(parsed: Option<ParsedView>) -> bool {
    match parsed {
        Some(parsed) => !display::any_internal(parsed.displays),
        None => true,
    }
}

/// What is remembered of the built-in panel.
pub open spec fn panel_spans(summary: Option<Seq<char>>) -> Seq<SpanView> {
    match summary {
        Some(summary) => seq![
            SpanView::Text("\r\n"@),
            SpanView::Dim,
            SpanView::Text(summary),
            SpanView::Reset,
            SpanView::Text("\r\n"@),
        ],
        None => Seq::empty(),
    }
}

/// The lines of the saved targets.
pub open spec fn target_spans(targets: Seq<TargetView>) -> Seq<SpanView>
    decreases targets.len(),
{
    if targets.len() == 0 {
        Seq::empty()
    } else {
        target_spans(targets.drop_last()) + seq![
            SpanView::Text("  - "@),
            SpanView::Text(targets.last().summary_text()),
            SpanView::Text("\r\n"@),
        ]
    }
}

/// The saved targets.
pub open spec fn targets_spans(targets: Seq<TargetView>) -> Seq<SpanView> {
    if targets.len() == 0 {
        Seq::empty()
    } else {
        seq![SpanView::Text("\r\nSaved auto targets:\r\n"@)] + target_spans(targets)
    }
}

/// The lines at the foot of the screen.
pub open spec fn foot_spans(status: Seq<char>) -> Seq<SpanView> {
    seq![
        SpanView::Text("\r\n"@),
        SpanView::Dim,
        SpanView::Text(
            "[up/down] select  [space] toggle  [i] internal  [a] auto target  [s] safe reset  [r] refresh  [?] help  [q] quit\r\n"@,
        ),
        SpanView::Text("status: "@),
        SpanView::Text(status),
        SpanView::Reset,
    ]
}

/// The upper part of the screen: the head and the list.
pub open spec fn upper_spans(
    parsed: Option<ParsedView>,
    targets: Seq<TargetView>,
    selected: nat,
    width: nat,
) -> Seq<SpanView> {
    head_spans(targets.len()) + list_spans(parsed, targets, selected, width)
}

/// The lower part of the screen: what is remembered of the built-in panel, the
/// saved targets and the foot.
pub open spec fn lower_spans(
    panel: Option<Seq<char>>,
    targets: Seq<TargetView>,
    status: Seq<char>,
) -> Seq<SpanView> {
    panel_spans(panel) + targets_spans(targets) + foot_spans(status)
}

fn render_head(out: &mut Vec<Span>, targets: usize)
    ensures
        span_views(final(out)@) == span_views(old(out)@) + head_spans(targets as nat),
{
    let ghost start = span_views(out@);
    put(out, Span::Clear);
    put(out, Span::Bold);
    put_text(out, "displayed");
    put(out, Span::Reset);
    put_text(out, "  auto:");
    put_text(
        out,
        if targets == 0 {
            "inactive"
        } else {
            "active"
        },
    );
    put_text(out, "  targets:");
    let digits = decimal(targets as u64);
    put_text(out, digits.as_str());
    put_text(out, "\r\n\r\n");
    assert(span_views(out@) =~= start + head_spans(targets as nat));
}

fn render_panel(out: &mut Vec<Span>, summary: Option<&str>)
    ensures
        span_views(final(out)@) == span_views(old(out)@) + panel_spans(text::opt_str(summary)),
{
    let ghost start = span_views(out@);
    if let Some(summary) = summary {
        put_text(out, "\r\n");
        put(out, Span::Dim);
        put_text(out, summary);
        put(out, Span::Reset);
        put_text(out, "\r\n");
    }
    assert(span_views(out@) =~= start + panel_spans(text::opt_str(summary)));
}

fn render_targets(out: &mut Vec<Span>, targets: &Vec<MonitorTarget>)
    ensures
        span_views(final(out)@) == span_views(old(out)@) + targets_spans(
            target::target_views(targets@),
        ),
{
    let ghost start = span_views(out@);
    let ghost all = target::target_views(targets@);
    if targets.len() == 0 {
        assert(span_views(out@) =~= start + targets_spans(all));
        return;
    }
    put_text(out, "\r\nSaved auto targets:\r\n");
    let ghost title = SpanView::Text("\r\nSaved auto targets:\r\n"@);
    let mut i: usize = 0;
    assert(span_views(out@) =~= start.push(title) + target_spans(all.take(0)));
    while i < targets.len()
        invariant
            i <= targets.len(),
            all == target::target_views(targets@),
            span_views(out@) == start.push(title) + target_spans(all.take(i as int)),
        decreases targets.len() - i,
    {
        let summary = targets[i].summary();
        put_text(out, "  - ");
        put_text(out, summary.as_str());
        put_text(out, "\r\n");
        proof {
            assert(all.take(i + 1).drop_last() =~= all.take(i as int));
            assert(all.take(i + 1).last() == targets[i as int]@);
            assert(span_views(out@) =~= start.push(title) + target_spans(all.take(i + 1)));
        }
        i = i + 1;
    }
    assert(all.take(i as int) =~= all);
    assert(span_views(out@) =~= start + targets_spans(all));
}

fn render_foot(out: &mut Vec<Span>, status: &str)
    ensures
        span_views(final(out)@) == span_views(old(out)@) + foot_spans(status@),
{
    let ghost start = span_views(out@);
    put_text(out, "\r\n");
    put(out, Span::Dim);
    put_text(
        out,
        "[up/down] select  [space] toggle  [i] internal  [a] auto target  [s] safe reset  [r] refresh  [?] help  [q] quit\r\n",
    );
    put_text(out, "status: ");
    put_text(out, status);
    put(out, Span::Reset);
    assert(span_views(out@) =~= start + foot_spans(status@));
}

/// What a list that may be missing holds.
pub open spec fn opt_parsed(parsed: Option<&ParsedDisplayplacer>) -> Option<ParsedView> {
    match parsed {
        Some(parsed) => Some(parsed@),
        None => None,
    }
}

/// The built-in panel is not in the list.
pub fn needs_panel_summary(parsed: Option<&ParsedDisplayplacer>) -> (r: bool)
    ensures
        r == lacks_panel(opt_parsed(parsed)),
{
    match parsed {
        Some(parsed) => !has_any_internal(&parsed.displays),
        None => true,
    }
}

/// Writes the upper part of the screen.
pub fn render_upper(
    parsed: Option<&ParsedDisplayplacer>,
    targets: &Vec<MonitorTarget>,
    selected: usize,
    width: usize,
) -> (r: Vec<Span>)
    ensures
        span_views(r@) == upper_spans(
            opt_parsed(parsed),
            target::target_views(targets@),
            selected as nat,
            width as nat,
        ),
{
    let mut out: Vec<Span> = Vec::new();
    let ghost seen = target::target_views(targets@);
    assert(span_views(out@) =~= Seq::empty());
    render_head(&mut out, targets.len());
    assert(span_views(out@) =~= head_spans(seen.len()));
    let ghost before = span_views(out@);
    match parsed {
        Some(parsed) => {
            if parsed.displays.len() > 0 {
                render_entries(&mut out, &parsed.displays, targets, selected, width);
            } else {
                put_text(&mut out, "No displays parsed from displayplacer output.\r\n");
            }
        },
        None => {
            put_text(&mut out, "Display state unavailable.\r\n");
        },
    }
    assert(span_views(out@) =~= before + list_spans(
        opt_parsed(parsed),
        seen,
        selected as nat,
        width as nat,
    ));
    out
}

/// Writes the lower part of the screen.
pub fn render_lower(
    panel: Option<&str>,
    targets: &Vec<MonitorTarget>,
    status: &str,
) -> (r: Vec<Span>)
    ensures
        span_views(r@) == lower_spans(
            text::opt_str(panel),
            target::target_views(targets@),
            status@,
        ),
{
    let mut out: Vec<Span> = Vec::new();
    assert(span_views(out@) =~= Seq::empty());
    render_panel(&mut out, panel);
    assert(span_views(out@) =~= panel_spans(text::opt_str(panel)));
    render_targets(&mut out, targets);
    render_foot(&mut out, status);
    out
}

// ---------------------------------------------------------------------------
// The help.
// ---------------------------------------------------------------------------
/// A line of the help.
pub open spec fn help_line(key: Seq<char>, description: Seq<char>) -> Seq<SpanView> {
    seq![
        SpanView::Bold,
        SpanView::Text("  "@ + number::padded_right(key, 14)),
        SpanView::Reset,
        SpanView::Text(description),
        SpanView::Text("\r\n"@),
    ]
}

/// The help.
pub open spec fn help_spans() -> Seq<SpanView> {
    seq![
        SpanView::Clear,
        SpanView::Bold,
        SpanView::Text("displayed — help"@),
        SpanView::Reset,
        SpanView::Text("\r\n\r\n"@),
    ] + help_line("up/down, k/j"@, "Move the selection between displays."@) + help_line(
        "space, enter"@,
        "Toggle the selected display: disable it if it is on, enable it if it is off."@,
    ) + help_line(
        "i"@,
        "Toggle the built-in (internal) display: disable it when it is on; when it is off or missing, enable it (native restore with redetection if needed)."@,
    ) + help_line(
        "a"@,
        "Save or remove the selected external display as an auto target. While an auto target is connected, the built-in display is kept disabled automatically; when it disconnects, the built-in is restored."@,
    ) + help_line(
        "s"@,
        "Safe reset: redetect displays and re-enable every remembered or detected display. Recovery hammer for when the screen setup looks wrong."@,
    ) + help_line("r"@, "Refresh the display list."@) + help_line("?"@, "Show this help."@)
        + help_line("q, esc"@, "Quit."@) + seq![
        SpanView::Text("\r\n"@),
        SpanView::Dim,
        SpanView::Text("press any key to close this help"@),
        SpanView::Reset,
    ]
}

fn put_help(out: &mut Vec<Span>, key: &str, description: &str)
    ensures
        span_views(final(out)@) == span_views(old(out)@) + help_line(key@, description@),
{
    let ghost start = span_views(out@);
    let padded = pad_right(key, 14);
    let padded = cat2("  ", padded.as_str());
    put(out, Span::Bold);
    put_text(out, padded.as_str());
    put(out, Span::Reset);
    put_text(out, description);
    put_text(out, "\r\n");
    assert(span_views(out@) =~= start + help_line(key@, description@));
}

/// Writes the help.
pub fn render_help_text() -> (r: Vec<Span>)
    ensures
        span_views(r@) == help_spans(),
{
    let mut out: Vec<Span> = Vec::new();
    put(&mut out, Span::Clear);
    put(&mut out, Span::Bold);
    put_text(&mut out, "displayed — help");
    put(&mut out, Span::Reset);
    put_text(&mut out, "\r\n\r\n");
    assert(span_views(out@) =~= seq![
        SpanView::Clear,
        SpanView::Bold,
        SpanView::Text("displayed — help"@),
        SpanView::Reset,
        SpanView::Text("\r\n\r\n"@),
    ]);
    put_help(&mut out, "up/down, k/j", "Move the selection between displays.");
    put_help(
        &mut out,
        "space, enter",
        "Toggle the selected display: disable it if it is on, enable it if it is off.",
    );
    put_help(
        &mut out,
        "i",
        "Toggle the built-in (internal) display: disable it when it is on; when it is off or missing, enable it (native restore with redetection if needed).",
    );
    put_help(
        &mut out,
        "a",
        "Save or remove the selected external display as an auto target. While an auto target is connected, the built-in display is kept disabled automatically; when it disconnects, the built-in is restored.",
    );
    put_help(
        &mut out,
        "s",
        "Safe reset: redetect displays and re-enable every remembered or detected display. Recovery hammer for when the screen setup looks wrong.",
    );
    put_help(&mut out, "r", "Refresh the display list.");
    put_help(&mut out, "?", "Show this help.");
    put_help(&mut out, "q, esc", "Quit.");
    let ghost before = span_views(out@);
    put_text(&mut out, "\r\n");
    put(&mut out, Span::Dim);
    put_text(&mut out, "press any key to close this help");
    put(&mut out, Span::Reset);
    assert(span_views(out@) =~= before + seq![
        SpanView::Text("\r\n"@),
        SpanView::Dim,
        SpanView::Text("press any key to close this help"@),
        SpanView::Reset,
    ]);
    out
}

} // verus!
