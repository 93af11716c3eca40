//! Snapshots of the state of the displays.

use vstd::prelude::*;

use crate::commands;
use crate::commands::load_displayplacer;
use crate::display;
use crate::display::{Display, DisplayView};
use crate::effect;
use crate::effect::{say, Course, Effect, EffectView, ReplyView, Shown, Tape};
use crate::files;
use crate::files::remember_internal;
use crate::number;
use crate::number::decimal;
use crate::options;
use crate::options::{snapshot_options, SnapshotOptions, SnapshotOptionsView};
use crate::path;
use crate::path::{plain_path, FilePath, FilePathView};
use crate::placer::{Capture, CaptureView, ParsedDisplayplacer, ParsedView};
use crate::text;
use crate::text::{
    cat3, cat4, cat5, copy_texts, ends_with_char, join, list1, list2, list3, list4, owned,
};
use crate::wording;
use crate::wording::slug;

verus! {

// ---------------------------------------------------------------------------
// Captured commands.
// ---------------------------------------------------------------------------
/// What a stream held, under its name; nothing where it was empty.
pub open spec fn stream_text(name: Seq<char>, body: Seq<char>) -> Seq<char> {
    if body.len() == 0 {
        Seq::empty()
    } else if body.last() == '\n' {
        name + body
    } else {
        name + body + "\n"@
    }
}

fn push_stream(out: &mut String, name: &str, body: &str)
    ensures
        final(out)@ == old(out)@ + stream_text(name@, body@),
{
    let ghost start = out@;
    if !body.is_empty() {
        out.append(name);
        out.append(body);
        if !ends_with_char(body, '\n') {
            out.append("\n");
        }
    }
    assert(out@ =~= start + stream_text(name@, body@));
}

/// What a command came to, as a snapshot shows it.
pub open spec fn capture_text(
    program: Seq<char>,
    arguments: Seq<Seq<char>>,
    r: Result<CaptureView, Seq<char>>,
) -> Seq<char> {
    "\n## command: "@ + program + " "@ + text::joined(arguments, " "@) + "\n"@ + (match r {
        Ok(capture) => "status: "@ + capture.status + "\n\n"@ + stream_text(
            "stdout:\n"@,
            capture.stdout,
        ) + stream_text("stderr:\n"@, capture.stderr),
        Err(error) => "failed: "@ + error + "\n"@,
    })
}

/// Adds to a snapshot what a command came to.
pub fn append_command_capture(
    body: &mut String,
    program: &str,
    arguments: &Vec<String>,
    outcome: &Result<Capture, String>,
)
    ensures
        final(body)@ == old(body)@ + capture_text(
            program@,
            text::texts(arguments@),
            outcome.shown(),
        ),
{
    let ghost start = body@;
    let words = join(arguments, " ");
    let title = cat5("\n## command: ", program, " ", words.as_str(), "\n");
    let mut rest = owned("");
    proof {
        reveal_strlit("");
    }
    match outcome {
        Ok(capture) => {
            let status = cat3("status: ", capture.status.as_str(), "\n\n");
            rest.append(status.as_str());
            assert(rest@ =~= "status: "@ + capture.status@ + "\n\n"@);
            push_stream(&mut rest, "stdout:\n", capture.stdout.as_str());
            push_stream(&mut rest, "stderr:\n", capture.stderr.as_str());
        },
        Err(error) => {
            let line = cat3("failed: ", error.as_str(), "\n");
            rest.append(line.as_str());
            assert(rest@ =~= "failed: "@ + error@ + "\n"@);
        },
    }
    body.append(title.as_str());
    body.append(rest.as_str());
    assert(body@ =~= start + capture_text(program@, text::texts(arguments@), outcome.shown()));
}

/// A command is run, and what it came to is added to a snapshot.
pub open spec fn captured(
    program: Seq<char>,
    arguments: Seq<Seq<char>>,
    body: Seq<char>,
    t: Seq<ReplyView>,
) -> Course<Seq<char>> {
    match effect::asks_ran(EffectView::Run { program, arguments }, t) {
        Course::Asks(e) => Course::Asks(e),
        Course::Ends(r, t) => Course::Ends(body + capture_text(program, arguments, r), t),
    }
}

fn capture(tape: &mut Tape, program: &str, arguments: &Vec<String>, body: String) -> (r: Result<
    String,
    Effect,
>)
    ensures
        effect::course(r, final(tape).rest()) == captured(
            program@,
            text::texts(arguments@),
            body@,
            old(tape).rest(),
        ),
        final(tape).all() == old(tape).all(),
{
    match tape.ask_ran(
        Effect::Run { program: owned(program), arguments: copy_texts(arguments) },
    ) {
        Err(e) => Err(e),
        Ok(outcome) => {
            let mut body = body;
            append_command_capture(&mut body, program, arguments, &outcome);
            Ok(body)
        },
    }
}

/// A command that a snapshot runs.
pub struct Probe {
    pub program: String,
    pub arguments: Vec<String>,
}

/// What a probe holds, as plain text.
#[verifier::ext_equal]
pub struct ProbeView {
    pub program: Seq<char>,
    pub arguments: Seq<Seq<char>>,
}

impl View for Probe {
    type V = ProbeView;

    open spec fn view(&self) -> ProbeView {
        ProbeView { program: self.program@, arguments: text::texts(self.arguments@) }
    }
}

/// What the probes hold.
pub open spec fn probe_views(v: Seq<Probe>) -> Seq<ProbeView> {
    Seq::new(v.len(), |i: int| v[i]@)
}

/// The commands that a snapshot runs.
pub open spec fn all_probes() -> Seq<ProbeView> {
    seq![
        ProbeView { program: "system_profiler"@, arguments: seq!["SPDisplaysDataType"@] },
        ProbeView { program: "pmset"@, arguments: seq!["-g"@, "assertions"@] },
        ProbeView {
            program: "ioreg"@,
            arguments: seq!["-lw0"@, "-r"@, "-c"@, "AppleBacklightDisplay"@],
        },
        ProbeView {
            program: "ioreg"@,
            arguments: seq!["-lw0"@, "-r"@, "-c"@, "IODisplayConnect"@],
        },
        ProbeView { program: "ioreg"@, arguments: seq!["-lw0"@, "-r"@, "-c"@, "IODisplay"@] },
        ProbeView { program: "ioreg"@, arguments: seq!["-lw0"@, "-r"@, "-c"@, "IOFramebuffer"@] },
    ]
}

fn probes() -> (r: Vec<Probe>)
    ensures
        probe_views(r@) == all_probes(),
{
    let mut v: Vec<Probe> = Vec::new();
    v.push(Probe { program: owned("system_profiler"), arguments: list1("SPDisplaysDataType") });
    v.push(Probe { program: owned("pmset"), arguments: list2("-g", "assertions") });
    v.push(
        Probe {
            program: owned("ioreg"),
            arguments: list4("-lw0", "-r", "-c", "AppleBacklightDisplay"),
        },
    );
    v.push(
        Probe { program: owned("ioreg"), arguments: list4("-lw0", "-r", "-c", "IODisplayConnect") },
    );
    v.push(Probe { program: owned("ioreg"), arguments: list4("-lw0", "-r", "-c", "IODisplay") });
    v.push(
        Probe { program: owned("ioreg"), arguments: list4("-lw0", "-r", "-c", "IOFramebuffer") },
    );
    assert(probe_views(v@) =~= all_probes());
    v
}

/// The commands are run, one after the other.
pub open spec fn probed(probes: Seq<ProbeView>, body: Seq<char>, t: Seq<ReplyView>) -> Course<
    Seq<char>,
>
    decreases probes.len(),
{
    if probes.len() == 0 {
        Course::Ends(body, t)
    } else {
        match captured(probes[0].program, probes[0].arguments, body, t) {
            Course::Asks(e) => Course::Asks(e),
            Course::Ends(body, t) => probed(probes.skip(1), body, t),
        }
    }
}

fn probe(tape: &mut Tape, body: String) -> (r: Result<String, Effect>)
    ensures
        effect::course(r, final(tape).rest()) == probed(all_probes(), body@, old(tape).rest()),
        final(tape).all() == old(tape).all(),
{
    let all = probes();
    let ghost views = probe_views(all@);
    let ghost whole = probed(views, body@, tape.rest());
    let mut text = body;
    let mut i: usize = 0;
    assert(views.skip(0) =~= views);
    while i < all.len()
        invariant
            tape.all() == old(tape).all(),
            i <= all.len(),
            views == probe_views(all@),
            views == all_probes(),
            whole == probed(all_probes(), body@, old(tape).rest()),
            probed(views.skip(i as int), text@, tape.rest()) == whole,
        decreases all.len() - i,
    {
        assert(views.skip(i as int).skip(1) =~= views.skip(i + 1));
        assert(views.skip(i as int)[0] == all[i as int]@);
        match capture(tape, all[i].program.as_str(), &all[i].arguments, text) {
            Err(e) => return Err(e),
            Ok(next) => {
                text = next;
            },
        }
        i = i + 1;
    }
    Ok(text)
}

// ---------------------------------------------------------------------------
// BetterDisplay.
// ---------------------------------------------------------------------------
/// The preferences of BetterDisplay.
pub open spec fn preferences_place() -> FilePathView {
    path::home_path(
        seq!["Library"@, "Preferences"@, "pro.betterdisplay.BetterDisplay.plist"@],
    )
}

fn preferences_path() -> (r: FilePath)
    ensures
        r@ == preferences_place(),
{
    FilePath {
        at_home: true,
        parts: list3("Library", "Preferences", "pro.betterdisplay.BetterDisplay.plist"),
    }
}

/// The title of the preferences.
pub open spec fn preferences_title() -> Seq<char> {
    "\n## BetterDisplay preferences\nwarning: this section can include monitor serials, EDID data, and license metadata.\n"@
}

/// The preferences of BetterDisplay are added to a snapshot: as `defaults` reads
/// them, and where there is a file of them, as `plutil` reads it.
pub open spec fn preferences_added(body: Seq<char>, t: Seq<ReplyView>) -> Course<Seq<char>> {
    match captured(
        "defaults"@,
        seq!["read"@, "pro.betterdisplay.BetterDisplay"@],
        body + preferences_title(),
        t,
    ) {
        Course::Asks(e) => Course::Asks(e),
        Course::Ends(body, t) => match effect::asks_flag(
            EffectView::PathExists(preferences_place()),
            t,
        ) {
            Course::Asks(e) => Course::Asks(e),
            Course::Ends(there, t) => if !there {
                Course::Ends(body, t)
            } else {
                match effect::asks_text(EffectView::ShowPath(preferences_place()), t) {
                    Course::Asks(e) => Course::Asks(e),
                    Course::Ends(r, t) => match r {
                        Err(_) => Course::Ends(body, t),
                        Ok(file) => captured("plutil"@, seq!["-p"@, file], body, t),
                    },
                }
            },
        },
    }
}

/// Adds the preferences of BetterDisplay to a snapshot.
pub fn append_betterdisplay_preferences(tape: &mut Tape, body: String) -> (r: Result<
    String,
    Effect,
>)
    ensures
        effect::course(r, final(tape).rest()) == preferences_added(body@, old(tape).rest()),
        final(tape).all() == old(tape).all(),
{
    let mut body = body;
    body.append(
        "\n## BetterDisplay preferences\nwarning: this section can include monitor serials, EDID data, and license metadata.\n",
    );
    let arguments = list2("read", "pro.betterdisplay.BetterDisplay");
    let body = match capture(tape, "defaults", &arguments, body) {
        Err(e) => return Err(e),
        Ok(body) => body,
    };
    match tape.ask_flag(Effect::PathExists(preferences_path())) {
        Err(e) => return Err(e),
        Ok(there) => {
            if !there {
                return Ok(body);
            }
        },
    }
    match tape.ask_text(Effect::ShowPath(preferences_path())) {
        Err(e) => Err(e),
        Ok(Err(_)) => Ok(body),
        Ok(Ok(file)) => {
            let arguments = list2("-p", file.as_str());
            capture(tape, "plutil", &arguments, body)
        },
    }
}

// ---------------------------------------------------------------------------
// The snapshot.
// ---------------------------------------------------------------------------
/// The lines of the displays.
pub open spec fn brief_lines(displays: Seq<DisplayView>) -> Seq<char>
    decreases displays.len(),
{
    if displays.len() == 0 {
        Seq::empty()
    } else {
        brief_lines(displays.drop_last()) + "- "@ + displays.last().brief_text() + "\n"@
    }
}

fn brief_list(displays: &Vec<Display>) -> (r: String)
    ensures
        r@ == brief_lines(display::display_views(displays@)),
{
    let ghost all = display::display_views(displays@);
    let mut out = owned("");
    let mut i: usize = 0;
    proof {
        reveal_strlit("");
        assert(out@ =~= brief_lines(all.take(0)));
    }
    while i < displays.len()
        invariant
            i <= displays.len(),
            all == display::display_views(displays@),
            out@ == brief_lines(all.take(i as int)),
        decreases displays.len() - i,
    {
        let brief = displays[i].brief();
        proof {
            assert(all.take(i + 1).drop_last() =~= all.take(i as int));
            assert(all.take(i + 1).last() == displays[i as int]@);
        }
        out.append("- ");
        out.append(brief.as_str());
        out.append("\n");
        i = i + 1;
    }
    assert(all.take(i as int) =~= all);
    out
}

/// The beginning of a snapshot.
pub open spec fn snapshot_head(label: Seq<char>, stamp: u64) -> Seq<char> {
    "# displayed snapshot\nlabel: "@ + label + "\nunix_timestamp: "@ + number::dec(stamp as nat)
        + "\n\n"@
}

/// The list of the displays, as a snapshot shows it.
pub open spec fn snapshot_list(r: Result<ParsedView, Seq<char>>) -> Seq<char> {
    match r {
        Ok(parsed) => "## parsed displayplacer summary\n"@ + (if parsed.displays.len() == 0 {
            "No displays parsed from displayplacer output.\n"@
        } else {
            brief_lines(parsed.displays)
        }) + (match parsed.restore_command {
            Some(command) => "\nrestore command:\n"@ + command + "\n"@,
            None => Seq::empty(),
        }) + "\n## displayplacer raw\n"@ + parsed.raw + "\n"@,
        Err(error) => "## displayplacer raw\nfailed: "@ + error + "\n"@,
    }
}

fn list_section(listed: &Result<ParsedDisplayplacer, String>) -> (r: String)
    ensures
        r@ == snapshot_list(listed.shown()),
{
    match listed {
        Ok(parsed) => {
            let mut out = owned("## parsed displayplacer summary\n");
            if parsed.displays.len() == 0 {
                out.append("No displays parsed from displayplacer output.\n");
            } else {
                let lines = brief_list(&parsed.displays);
                out.append(lines.as_str());
            }
            let ghost before = out@;
            if let Some(command) = &parsed.restore_command {
                let part = cat3("\nrestore command:\n", command.as_str(), "\n");
                out.append(part.as_str());
            }
            assert(out@ =~= before + (match parsed@.restore_command {
                Some(command) => "\nrestore command:\n"@ + command + "\n"@,
                None => Seq::empty(),
            }));
            out.append("\n## displayplacer raw\n");
            out.append(parsed.raw.as_str());
            out.append("\n");
            out
        },
        Err(error) => cat3("## displayplacer raw\nfailed: ", error.as_str(), "\n"),
    }
}

/// The displays are listed for a snapshot, and remembered.
pub open spec fn list_added(body: Seq<char>, t: Seq<ReplyView>) -> Course<Seq<char>> {
    match commands::displays_listed(t) {
        Course::Asks(e) => Course::Asks(e),
        Course::Ends(r, t) => match r {
            Err(_) => Course::Ends(body + snapshot_list(r), t),
            Ok(parsed) => match files::list_remembered(parsed.displays, t) {
                Course::Asks(e) => Course::Asks(e),
                Course::Ends(_, t) => Course::Ends(body + snapshot_list(r), t),
            },
        },
    }
}

fn add_list(tape: &mut Tape, body: String) -> (r: Result<String, Effect>)
    ensures
        effect::course(r, final(tape).rest()) == list_added(body@, old(tape).rest()),
        final(tape).all() == old(tape).all(),
{
    let listed = match load_displayplacer(tape) {
        Err(e) => return Err(e),
        Ok(listed) => listed,
    };
    if let Ok(parsed) = &listed {
        match remember_internal(tape, parsed) {
            Err(e) => return Err(e),
            Ok(_) => {},
        }
    }
    let section = list_section(&listed);
    let mut body = body;
    body.append(section.as_str());
    Ok(body)
}

/// The text of a snapshot is gathered.
pub open spec fn snapshot_gathered(label: Seq<char>, stamp: u64, t: Seq<ReplyView>) -> Course<
    Seq<char>,
> {
    match list_added(snapshot_head(label, stamp), t) {
        Course::Asks(e) => Course::Asks(e),
        Course::Ends(body, t) => match preferences_added(body, t) {
            Course::Asks(e) => Course::Asks(e),
            Course::Ends(body, t) => probed(all_probes(), body, t),
        },
    }
}

fn gather_snapshot(tape: &mut Tape, label: &str, stamp: u64) -> (r: Result<String, Effect>)
    ensures
        effect::course(r, final(tape).rest()) == snapshot_gathered(
            label@,
            stamp,
            old(tape).rest(),
        ),
        final(tape).all() == old(tape).all(),
{
    let digits = decimal(stamp);
    let head = cat5(
        "# displayed snapshot\nlabel: ",
        label,
        "\nunix_timestamp: ",
        digits.as_str(),
        "\n\n",
    );
    let body = match add_list(tape, head) {
        Err(e) => return Err(e),
        Ok(body) => body,
    };
    let body = match append_betterdisplay_preferences(tape, body) {
        Err(e) => return Err(e),
        Ok(body) => body,
    };
    probe(tape, body)
}

/// The name of a snapshot's file.
pub open spec fn snapshot_name(label: Seq<char>, stamp: u64) -> Seq<char> {
    number::dec(stamp as nat) + "-"@ + wording::slug_text(label) + ".txt"@
}

/// A snapshot is gathered, and written to a file of its own, whose path is
/// printed.
pub open spec fn snapshot_taken(o: SnapshotOptionsView, t: Seq<ReplyView>) -> Course<
    Result<(), Seq<char>>,
> {
    let dir = path::given_path(o.out);
    match effect::asks_done(EffectView::CreateDir(dir), t) {
        Course::Asks(e) => Course::Asks(e),
        Course::Ends(r, t) => match r {
            Err(error) => Course::Ends(Err(error), t),
            Ok(_) => match effect::asks_stamp(EffectView::Timestamp, t) {
                Course::Asks(e) => Course::Asks(e),
                Course::Ends(r, t) => match r {
                    Err(error) => Course::Ends(Err(error), t),
                    Ok(stamp) => match snapshot_gathered(o.label, stamp, t) {
                        Course::Asks(e) => Course::Asks(e),
                        Course::Ends(body, t) => snapshot_written(
                            dir.inside(snapshot_name(o.label, stamp)),
                            body,
                            t,
                        ),
                    },
                },
            },
        },
    }
}

/// The text of a snapshot is written, and the path of its file printed.
pub open spec fn snapshot_written(file: FilePathView, body: Seq<char>, t: Seq<ReplyView>) -> Course<
    Result<(), Seq<char>>,
> {
    match effect::asks_done(EffectView::WriteFile(file, body), t) {
        Course::Asks(e) => Course::Asks(e),
        Course::Ends(r, t) => match r {
            Err(error) => Course::Ends(Err(error), t),
            Ok(_) => match effect::asks_text(EffectView::ShowPath(file), t) {
                Course::Asks(e) => Course::Asks(e),
                Course::Ends(r, t) => match r {
                    Err(error) => Course::Ends(Err(error), t),
                    Ok(shown) => match effect::said(shown, t) {
                        Course::Asks(e) => Course::Asks(e),
                        Course::Ends(_, t) => Course::Ends(Ok(()), t),
                    },
                },
            },
        },
    }
}

fn write_snapshot(tape: &mut Tape, file: FilePath, body: String) -> (r: Result<
    Result<(), String>,
    Effect,
>)
    ensures
        effect::course(r, final(tape).rest()) == snapshot_written(
            file@,
            body@,
            old(tape).rest(),
        ),
        final(tape).all() == old(tape).all(),
{
    match tape.ask_done(Effect::WriteFile(file.copy(), body)) {
        Err(e) => return Err(e),
        Ok(Err(error)) => return Ok(Err(error)),
        Ok(Ok(_)) => {},
    }
    match tape.ask_text(Effect::ShowPath(file)) {
        Err(e) => Err(e),
        Ok(Err(error)) => Ok(Err(error)),
        Ok(Ok(shown)) => match say(tape, shown.as_str()) {
            Err(e) => Err(e),
            Ok(_) => Ok(Ok(())),
        },
    }
}

fn take_snapshot(tape: &mut Tape, o: &SnapshotOptions) -> (r: Result<Result<(), String>, Effect>)
    ensures
        effect::course(r, final(tape).rest()) == snapshot_taken(o.shown(), old(tape).rest()),
        final(tape).all() == old(tape).all(),
{
    let dir = plain_path(o.out.as_str());
    match tape.ask_done(Effect::CreateDir(dir.copy())) {
        Err(e) => return Err(e),
        Ok(Err(error)) => return Ok(Err(error)),
        Ok(Ok(_)) => {},
    }
    let stamp: u64 = match tape.ask_stamp(Effect::Timestamp) {
        Err(e) => return Err(e),
        Ok(Err(error)) => return Ok(Err(error)),
        Ok(Ok(stamp)) => stamp,
    };
    let body = match gather_snapshot(tape, o.label.as_str(), stamp) {
        Err(e) => return Err(e),
        Ok(body) => body,
    };
    let digits = decimal(stamp);
    let name = slug(o.label.as_str());
    let name = cat4(digits.as_str(), "-", name.as_str(), ".txt");
    write_snapshot(tape, dir.child(name.as_str()), body)
}

/// The command `snapshot`.
pub open spec fn snapshot_run(args: Seq<Seq<char>>, t: Seq<ReplyView>) -> Course<
    Result<(), Seq<char>>,
> {
    match options::snapshot_given(args, options::snapshot_defaults()) {
        Err(error) => Course::Ends(Err(error), t),
        Ok(o) => snapshot_taken(o, t),
    }
}

/// Takes a snapshot.
pub fn snapshot(tape: &mut Tape, args: &Vec<String>) -> (r: Result<Result<(), String>, Effect>)
    ensures
        effect::course(r, final(tape).rest()) == snapshot_run(
            text::texts(args@),
            old(tape).rest(),
        ),
        final(tape).all() == old(tape).all(),
{
    match snapshot_options(args) {
        Err(error) => Ok(Err(error)),
        Ok(o) => take_snapshot(tape, &o),
    }
}

} // verus!
