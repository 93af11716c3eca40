//! What the screen shows.

use vstd::prelude::*;

use crate::display::DisplayView;
use crate::number;
use crate::placer::ParsedView;
use crate::screen;
use crate::screen::{SpanView, Tint};
use crate::target::TargetView;
use crate::text_laws;
use crate::wording;

verus! {

// ---------------------------------------------------------------------------
// Rows.
// ---------------------------------------------------------------------------
/// What a row says of a display: whether it is the panel, whether it is on, and
/// whether it is a target. One that is away counts as off, whatever was known.
pub proof fn rows_say_what_is_known(d: DisplayView, targets: Seq<TargetView>)
    ensures
        d.internal() ==> screen::role_text(d) == "internal"@,
        !d.internal() ==> screen::role_text(d) == "external"@,
        screen::power_text(d) == "on"@ <==> !d.remembered_absent && d.enabled == Some(true),
        screen::power_text(d) == "off"@ <==> d.remembered_absent || d.enabled == Some(false),
        screen::auto_text(d, targets) == "auto"@ <==> exists|i: int|
            0 <= i < targets.len() && #[trigger] targets[i].fits(d),
        d.remembered_absent ==> screen::role_tint(d) == Tint::DarkGrey,
        !d.remembered_absent && d.internal() ==> screen::role_tint(d) == Tint::Blue,
        !d.remembered_absent && !d.internal()
            ==> (screen::role_tint(d) == Tint::Green <==> d.enabled
            == Some(true)),
{
    reveal_strlit("on");
    reveal_strlit("off");
    reveal_strlit("unknown");
    reveal_strlit("auto");
    reveal_strlit("-");
    assert("on"@.len() == 2 && "off"@.len() == 3 && "unknown"@.len() == 7);
    assert("auto"@.len() == 4 && "-"@.len() == 1);
}

/// The row of a display, from `k` on.
pub open spec fn row_at(
    spans: Seq<SpanView>,
    k: int,
    index: nat,
    d: DisplayView,
    targets: Seq<TargetView>,
) -> bool {
    &&& 0 <= k
    &&& k + 10 < spans.len()
    &&& spans[k] == SpanView::Text(number::padded_left(number::dec(index), 2) + " "@)
    &&& spans[k + 1] == SpanView::Tint(screen::role_tint(d))
    &&& spans[k + 2] == SpanView::Text(number::padded_right(screen::role_text(d), 8))
    &&& spans[k + 5] == SpanView::Text(number::padded_right(screen::power_text(d), 7))
    &&& spans[k + 7] == SpanView::Text(number::padded_right(screen::auto_text(d, targets), 5))
}

/// Something is marked as selected before `k`.
pub open spec fn marked(spans: Seq<SpanView>, k: int) -> bool {
    0 < k && spans[k - 1] == SpanView::Reverse
}

/// Each display has a row of its own, under its number. The row of the selected one
/// is marked, and no other is.
pub proof fn each_display_has_a_row(
    displays: Seq<DisplayView>,
    targets: Seq<TargetView>,
    selected: nat,
    width: nat,
    i: int,
) -> (k: int)
    requires
        0 <= i < displays.len(),
    ensures
        row_at(
            screen::entries_spans(displays, targets, selected, width),
            k,
            i as nat,
            displays[i],
            targets,
        ),
        marked(screen::entries_spans(displays, targets, selected, width), k) <==> i == selected,
    decreases displays.len(),
{
    let all = screen::entries_spans(displays, targets, selected, width);
    let early = screen::entries_spans(displays.drop_last(), targets, selected, width);
    let n = (displays.len() - 1) as nat;
    let last = displays.last();
    let entry = screen::entry_spans(n, last, targets, n == selected, width);
    let row = screen::row_spans(n, last, targets, width);
    assert(all == early + entry);
    if i == n {
        let k = if n == selected {
            early.len() as int + 1
        } else {
            early.len() as int
        };
        let at = k - early.len();
        assert forall|j: int| 0 <= j < 10 implies #[trigger] all[k + j] == row[j] by {
            assert(entry[at + j] == row[j]);
            assert(all[early.len() + (at + j)] == entry[at + j]);
        }
        assert(all[k + 0] == row[0]);
        assert(all[k + 1] == row[1]);
        assert(all[k + 2] == row[2]);
        assert(all[k + 5] == row[5]);
        assert(all[k + 7] == row[7]);
        if n == selected {
            assert(entry[0] == SpanView::Reverse);
            assert(all[k - 1] == entry[0]);
        } else if k > 0 {
            lemma_rows_end_plainly(displays.drop_last(), targets, selected, width);
            assert(all[k - 1] == early.last());
        }
        k
    } else {
        assert(displays.drop_last()[i] == displays[i]);
        let k = each_display_has_a_row(displays.drop_last(), targets, selected, width, i);
        assert forall|j: int| 0 <= j < early.len() implies all[j] == early[j] by {}
        assert(all[k] == early[k] && all[k + 1] == early[k + 1] && all[k + 2] == early[k + 2]
            && all[k + 5] == early[k + 5] && all[k + 7] == early[k + 7]);
        if k > 0 {
            assert(all[k - 1] == early[k - 1]);
        }
        k
    }
}

proof fn lemma_rows_end_plainly(
    displays: Seq<DisplayView>,
    targets: Seq<TargetView>,
    selected: nat,
    width: nat,
)
    ensures
        ({
            let all = screen::entries_spans(displays, targets, selected, width);
            all.len() > 0 ==> all.last() != SpanView::Reverse
        }),
{
    if displays.len() > 0 {
        let n = (displays.len() - 1) as nat;
        let entry = screen::entry_spans(n, displays.last(), targets, n == selected, width);
        let all = screen::entries_spans(displays, targets, selected, width);
        assert(entry.last() != SpanView::Reverse);
        assert(all.last() == entry.last());
    }
}

/// The caption of a row fits into the terminal, beside the 28 columns before it.
pub proof fn captions_fit(index: nat, d: DisplayView, targets: Seq<TargetView>, width: nat)
    ensures
        screen::row_spans(index, d, targets, width).last() matches SpanView::Text(caption)
            && wording::text_width(caption) <= (if width >= 28 {
            width - 28
        } else {
            0
        }) && (wording::text_width(screen::caption(d)) + 28 <= width ==> caption
            == screen::caption(d)),
{
    let room = screen::caption_width(width);
    let k = text_laws::cut_text_fits(screen::caption(d), room);
}

/// The ids of the selected display are shown, each behind what it is.
pub proof fn details_name_the_ids(d: DisplayView)
    ensures
        ({
            let spans = screen::detail_spans(d);
            &&& d.persistent_id matches Some(id) ==> spans[2] == SpanView::Text(id)
            &&& d.contextual_id matches Some(id) ==> spans[4] == SpanView::Text(id)
            &&& d.serial_id matches Some(id) ==> spans[6] == SpanView::Text(id)
            &&& d.origin matches Some(origin) ==> spans[8] == SpanView::Text(origin)
        }),
{
}

// ---------------------------------------------------------------------------
// The rest.
// ---------------------------------------------------------------------------
/// The head tells how many targets are saved, and that they are looked after just
/// where there are any.
pub proof fn head_counts_the_targets(targets: nat)
    ensures
        screen::head_spans(targets).contains(SpanView::Text(number::dec(targets))),
        screen::head_spans(targets)[5] == SpanView::Text(
            if targets > 0 {
                "active"@
            } else {
                "inactive"@
            },
        ),
{
    assert(screen::head_spans(targets)[7] == SpanView::Text(number::dec(targets)));
}

proof fn lemma_targets_shown(targets: Seq<TargetView>, i: int) -> (k: int)
    requires
        0 <= i < targets.len(),
    ensures
        0 <= k < screen::target_spans(targets).len(),
        screen::target_spans(targets)[k] == SpanView::Text(targets[i].summary_text()),
    decreases targets.len(),
{
    let early = screen::target_spans(targets.drop_last());
    let all = screen::target_spans(targets);
    if i == targets.len() - 1 {
        assert(all[early.len() as int + 1] == SpanView::Text(targets.last().summary_text()));
        early.len() as int + 1
    } else {
        let k = lemma_targets_shown(targets.drop_last(), i);
        assert(targets.drop_last()[i] == targets[i]);
        assert(all[k] == early[k]);
        k
    }
}

/// The foot shows the status and each saved target, and what is remembered of the
/// panel where that was looked up.
pub proof fn foot_shows_the_status(
    panel: Option<Seq<char>>,
    targets: Seq<TargetView>,
    status: Seq<char>,
    i: int,
)
    ensures
        screen::lower_spans(panel, targets, status).contains(SpanView::Text(status)),
        0 <= i < targets.len() ==> screen::lower_spans(panel, targets, status).contains(
            SpanView::Text(targets[i].summary_text()),
        ),
        panel matches Some(summary) ==> screen::lower_spans(panel, targets, status).contains(
            SpanView::Text(summary),
        ),
{
    let a = screen::panel_spans(panel);
    let b = screen::targets_spans(targets);
    let c = screen::foot_spans(status);
    let all = screen::lower_spans(panel, targets, status);
    assert(all == a + b + c);
    assert(c[4] == SpanView::Text(status));
    assert(all[a.len() as int + b.len() + 4] == c[4]);
    if 0 <= i < targets.len() {
        let k = lemma_targets_shown(targets, i);
        assert(b[1 + k] == screen::target_spans(targets)[k]);
        assert(all[a.len() + 1 + k] == b[1 + k]);
    }
    if let Some(summary) = panel {
        assert(a[2] == SpanView::Text(summary));
        assert(all[2] == a[2]);
    }
}

/// What is remembered of the panel is looked up just where the list shows none.
pub proof fn panel_is_missed_where_none_is_listed(parsed: Option<ParsedView>)
    ensures
        screen::lacks_panel(parsed) <==> (parsed matches Some(list) ==> forall|i: int|
            0 <= i < list.displays.len() ==> !(#[trigger] list.displays[i]).internal()),
{
}

} // verus!
