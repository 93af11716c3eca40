//! What `displayplacer list` prints, and the arguments it takes.

use vstd::prelude::*;

use crate::display;
use crate::display::{Display, DisplayView};
use crate::number;
use crate::number::bool_str;
use crate::text;
use crate::text::{
    cat2, cat4, contains, join, lines, owned, same, starts_with, strip_prefix, text_before, trim,
    trim_end,
};

verus! {

/// The displays of a `displayplacer list` run, with the command that it prints
/// for restoring the arrangement and the whole text.
#[derive(Debug)]
pub struct ParsedDisplayplacer {
    pub displays: Vec<Display>,
    pub restore_command: Option<String>,
    pub raw: String,
}

/// What a parsed list holds, as plain text.
#[verifier::ext_equal]
pub struct ParsedView {
    pub displays: Seq<DisplayView>,
    pub restore_command: Option<Seq<char>>,
    pub raw: Seq<char>,
}

impl View for ParsedDisplayplacer {
    type V = ParsedView;

    open spec fn view(&self) -> ParsedView {
        ParsedView {
            displays: display::display_views(self.displays@),
            restore_command: text::opt_text(self.restore_command),
            raw: self.raw@,
        }
    }
}

/// What has been gathered from the lines read so far.
#[verifier::ext_equal]
pub struct Scan {
    /// The displays whose blocks are complete.
    pub done: Seq<DisplayView>,
    /// The display whose block is being read.
    pub current: Option<DisplayView>,
    /// The lines of the restore command.
    pub restore: Seq<Seq<char>>,
    /// The restore command has begun, and no further block since.
    pub in_restore: bool,
}

pub open spec fn empty_scan() -> Scan {
    Scan { done: Seq::empty(), current: None, restore: Seq::empty(), in_restore: false }
}

/// The complete displays, the one being read among them.
pub open spec fn all_displays(scan: Scan) -> Seq<DisplayView> {
    match scan.current {
        Some(display) => scan.done.push(display),
        None => scan.done,
    }
}

/// The state that an `Enabled:` line names.
pub open spec fn enabled_value(value: Seq<char>) -> Option<bool> {
    if text::trimmed(value) == "true"@ {
        Some(true)
    } else if text::trimmed(value) == "false"@ {
        Some(false)
    } else {
        None
    }
}

/// The display with the property that a line of its block names.
pub open spec fn with_line(display: DisplayView, line: Seq<char>) -> DisplayView {
    if let Some(value) = text::stripped(line, "Contextual screen id: "@) {
        DisplayView { contextual_id: Some(text::trimmed(value)), ..display }
    } else if let Some(value) = text::stripped(line, "Serial screen id: "@) {
        DisplayView { serial_id: Some(text::trimmed(value)), ..display }
    } else if let Some(value) = text::stripped(line, "Type: "@) {
        DisplayView { display_type: Some(text::trimmed(value)), ..display }
    } else if let Some(value) = text::stripped(line, "Resolution: "@) {
        DisplayView { resolution: Some(text::trimmed(value)), ..display }
    } else if let Some(value) = text::stripped(line, "Hertz: "@) {
        DisplayView { hertz: Some(text::trimmed(value)), ..display }
    } else if let Some(value) = text::stripped(line, "Color Depth: "@) {
        DisplayView { color_depth: Some(text::trimmed(value)), ..display }
    } else if let Some(value) = text::stripped(line, "Scaling: "@) {
        DisplayView { scaling: Some(text::trimmed(value)), ..display }
    } else if let Some(value) = text::stripped(line, "Origin: "@) {
        DisplayView {
            is_main: text::has_text(value, " - main display"@),
            origin: Some(text::trimmed(text::before(value, " - "@))),
            ..display
        }
    } else if let Some(value) = text::stripped(line, "Rotation: "@) {
        DisplayView { rotation: Some(text::trimmed(text::before(value, " - "@))), ..display }
    } else if let Some(value) = text::stripped(line, "Enabled: "@) {
        DisplayView { enabled: enabled_value(value), ..display }
    } else {
        display
    }
}

/// The line that opens a block of properties.
pub open spec fn is_header(line: Seq<char>) -> bool {
    text::begins(line, "Persistent screen id: "@)
}

/// The scan after one more line.
pub open spec fn scan_line(scan: Scan, line: Seq<char>) -> Scan {
    if let Some(value) = text::stripped(line, "Persistent screen id: "@) {
        Scan {
            done: all_displays(scan),
            current: Some(DisplayView { persistent_id: Some(text::trimmed(value)), ..display::blank_display() }),
            restore: scan.restore,
            in_restore: false,
        }
    } else if text::begins(line, "displayplacer"@) || scan.in_restore {
        Scan { restore: scan.restore.push(text::trimmed_end(line)), in_restore: true, ..scan }
    } else if let Some(display) = scan.current {
        Scan { current: Some(with_line(display, line)), ..scan }
    } else {
        scan
    }
}

/// The scan after all the lines.
pub open spec fn scan_lines(lines: Seq<Seq<char>>) -> Scan
    decreases lines.len(),
{
    if lines.len() == 0 {
        empty_scan()
    } else {
        scan_line(scan_lines(lines.drop_last()), lines.last())
    }
}

/// What the text of a `displayplacer list` run says.
pub open spec fn parsed_list(raw: Seq<char>) -> ParsedView {
    let scan = scan_lines(text::text_lines(raw));
    ParsedView {
        displays: all_displays(scan),
        restore_command: if scan.restore.len() == 0 {
            None
        } else {
            Some(text::joined(scan.restore, "\n"@))
        },
        raw,
    }
}

/// Sets the property that a line of a display's block names.
fn read_property(display: &mut Display, line: &str)
    ensures
        final(display)@ == with_line(old(display)@, line@),
{
    if let Some(value) = strip_prefix(line, "Contextual screen id: ") {
        display.contextual_id = Some(trim(value.as_str()));
    } else if let Some(value) = strip_prefix(line, "Serial screen id: ") {
        display.serial_id = Some(trim(value.as_str()));
    } else if let Some(value) = strip_prefix(line, "Type: ") {
        display.display_type = Some(trim(value.as_str()));
    } else if let Some(value) = strip_prefix(line, "Resolution: ") {
        display.resolution = Some(trim(value.as_str()));
    } else if let Some(value) = strip_prefix(line, "Hertz: ") {
        display.hertz = Some(trim(value.as_str()));
    } else if let Some(value) = strip_prefix(line, "Color Depth: ") {
        display.color_depth = Some(trim(value.as_str()));
    } else if let Some(value) = strip_prefix(line, "Scaling: ") {
        display.scaling = Some(trim(value.as_str()));
    } else if let Some(value) = strip_prefix(line, "Origin: ") {
        display.is_main = contains(value.as_str(), " - main display");
        display.origin = Some(trim(text_before(value.as_str(), " - ").as_str()));
    } else if let Some(value) = strip_prefix(line, "Rotation: ") {
        display.rotation = Some(trim(text_before(value.as_str(), " - ").as_str()));
    } else if let Some(value) = strip_prefix(line, "Enabled: ") {
        let word = trim(value.as_str());
        display.enabled = if same(word.as_str(), "true") {
            Some(true)
        } else if same(word.as_str(), "false") {
            Some(false)
        } else {
            None
        };
    }
}

/// Reads the text of a `displayplacer list` run.
pub fn parse_displayplacer(raw: &str) -> (r: ParsedDisplayplacer)
    ensures
        r@ == parsed_list(raw@),
{
    let all = lines(raw);
    let mut displays: Vec<Display> = Vec::new();
    let mut current: Option<Display> = None;
    let mut restore_lines: Vec<String> = Vec::new();
    let mut in_restore_command = false;
    let mut i: usize = 0;
    let ghost texts_all = text::texts(all@);
    assert(texts_all.take(0) =~= Seq::empty());
    assert(display::display_views(displays@) =~= Seq::empty());
    assert(text::texts(restore_lines@) =~= Seq::empty());
    while i < all.len()
        invariant
            i <= all@.len(),
            texts_all == text::texts(all@),
            ({
                let scan = scan_lines(texts_all.take(i as int));
                &&& scan.done == display::display_views(displays@)
                &&& scan.restore == text::texts(restore_lines@)
                &&& scan.in_restore == in_restore_command
                &&& scan.current == (match current {
                    Some(d) => Some(d@),
                    None => None::<DisplayView>,
                })
            }),
        decreases all@.len() - i,
    {
        let line = all[i].as_str();
        let ghost scan = scan_lines(texts_all.take(i as int));
        let ghost next = texts_all.take(i + 1);
        proof {
            assert(next.drop_last() =~= texts_all.take(i as int));
            assert(next.last() == line@);
            assert(scan_lines(next) == scan_line(scan, line@));
        }
        i = i + 1;
        if let Some(value) = strip_prefix(line, "Persistent screen id: ") {
            let ghost before_push = displays@;
            if let Some(display) = current {
                displays.push(display);
                assert(display::display_views(displays@) =~= display::display_views(before_push).push(display@));
            }
            let mut display = Display::default();
            display.persistent_id = Some(trim(value.as_str()));
            current = Some(display);
            in_restore_command = false;
        } else if starts_with(line, "displayplacer") || in_restore_command {
            let command_line = trim_end(line);
            let ghost before_push = restore_lines@;
            restore_lines.push(command_line);
            assert(text::texts(restore_lines@) =~= text::texts(before_push).push(command_line@));
            in_restore_command = true;
        } else if let Some(mut display) = current {
            read_property(&mut display, line);
            current = Some(display);
        }
    }
    assert(texts_all.take(i as int) =~= texts_all);
    if let Some(display) = current {
        let ghost before_push = displays@;
        displays.push(display);
        assert(display::display_views(displays@) =~= display::display_views(before_push).push(display@));
    }
    let restore_command = if restore_lines.len() == 0 {
        None
    } else {
        Some(join(&restore_lines, "\n"))
    };
    ParsedDisplayplacer { displays, restore_command, raw: owned(raw) }
}

// ---------------------------------------------------------------------------
// Runs of the program.
// ---------------------------------------------------------------------------
/// What a program left behind: how it ended, and what it printed.
#[derive(Debug)]
pub struct Capture {
    /// The program reported success.
    pub success: bool,
    /// How it ended, in words.
    pub status: String,
    pub stdout: String,
    pub stderr: String,
}

/// What a capture holds, as plain text.
#[verifier::ext_equal]
pub struct CaptureView {
    pub success: bool,
    pub status: Seq<char>,
    pub stdout: Seq<char>,
    pub stderr: Seq<char>,
}

impl View for Capture {
    type V = CaptureView;

    open spec fn view(&self) -> CaptureView {
        CaptureView {
            success: self.success,
            status: self.status@,
            stdout: self.stdout@,
            stderr: self.stderr@,
        }
    }
}

impl Capture {
    /// The same capture again.
    pub fn copy(&self) -> (r: Capture)
        ensures
            r@ == self@,
    {
        Capture {
            success: self.success,
            status: self.status.clone(),
            stdout: self.stdout.clone(),
            stderr: self.stderr.clone(),
        }
    }
}

/// What a `displayplacer list` run comes to.
pub open spec fn list_outcome(capture: CaptureView) -> Result<ParsedView, Seq<char>> {
    if capture.success {
        Ok(parsed_list(capture.stdout + capture.stderr))
    } else {
        Err("displayplacer list failed with status "@ + capture.status)
    }
}

/// Reads the result of a `displayplacer list` run: what it printed on both
/// streams where it succeeded, an error where it failed.
pub fn parse_displayplacer_output(capture: &Capture) -> (r: Result<ParsedDisplayplacer, String>)
    ensures
        match r {
            Ok(parsed) => list_outcome(capture@) == Ok::<ParsedView, Seq<char>>(parsed@),
            Err(error) => list_outcome(capture@) == Err::<ParsedView, Seq<char>>(error@),
        },
{
    if !capture.success {
        return Err(
            cat2("displayplacer list failed with status ", capture.status.as_str()),
        );
    }
    let raw = cat2(capture.stdout.as_str(), capture.stderr.as_str());
    Ok(parse_displayplacer(raw.as_str()))
}

/// The argument that switches a display on or off.
pub open spec fn switch_argument(id: Seq<char>, enabled: bool) -> Seq<char> {
    "id:"@ + id + " enabled:"@ + number::bool_text(enabled)
}

/// The argument that switches a display on or off.
pub fn displayplacer_argument(id: &str, enabled: bool) -> (r: String)
    ensures
        r@ == switch_argument(id@, enabled),
{
    cat4("id:", id, " enabled:", bool_str(enabled))
}

// ---------------------------------------------------------------------------
// Laws.
// ---------------------------------------------------------------------------
/// How many of the lines open a block.
pub open spec fn header_count(lines: Seq<Seq<char>>) -> nat
    decreases lines.len(),
{
    if lines.len() == 0 {
        0
    } else {
        header_count(lines.drop_last()) + (if is_header(lines.last()) {
            1nat
        } else {
            0nat
        })
    }
}

proof fn lemma_scan_headers(lines: Seq<Seq<char>>)
    ensures
        all_displays(scan_lines(lines)).len() == header_count(lines),
        forall|i: int|
            0 <= i < all_displays(scan_lines(lines)).len() ==> (
            #[trigger] all_displays(scan_lines(lines))[i]).persistent_id is Some,
        forall|i: int|
            0 <= i < all_displays(scan_lines(lines)).len() ==> !(
            #[trigger] all_displays(scan_lines(lines))[i]).remembered_absent,
    decreases lines.len(),
{
    if lines.len() > 0 {
        let earlier = scan_lines(lines.drop_last());
        lemma_scan_headers(lines.drop_last());
        let now = scan_lines(lines);
        assert(now == scan_line(earlier, lines.last()));
        assert forall|i: int| 0 <= i < all_displays(now).len() implies (
        #[trigger] all_displays(now)[i]).persistent_id is Some && !all_displays(
            now,
        )[i].remembered_absent by {
            if i < all_displays(earlier).len() {
                assert(all_displays(earlier)[i].persistent_id is Some);
                assert(!all_displays(earlier)[i].remembered_absent);
            }
        }
    }
}

/// Every block of the text becomes one display and nothing else does; each such
/// display has a persistent id, and none counts as remembered only.
pub proof fn every_block_is_a_display(raw: Seq<char>)
    ensures
        parsed_list(raw).displays.len() == header_count(text::text_lines(raw)),
        forall|i: int|
            0 <= i < parsed_list(raw).displays.len() ==> (
            #[trigger] parsed_list(raw).displays[i]).persistent_id is Some
                && !parsed_list(raw).displays[i].remembered_absent,
{
    lemma_scan_headers(text::text_lines(raw));
}

} // verus!
