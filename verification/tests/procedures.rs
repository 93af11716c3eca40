//! The procedures, run against a small model of a machine.

use displayed::command::{run, Progress, USAGE};
use displayed::effect::{Effect, Failure, Input, Key, Reply, Tape};
use displayed::files::{remembered_display_ids, remembered_internal_summary};
use displayed::guard::prepare_for_sleep;
use displayed::interactive::{interactive_mode, interactive_step, Stage, Ui};
use displayed::path::FilePath;
use displayed::placer::{parse_displayplacer, Capture};
use displayed::policy::{
    power_answer, ActionMode, DisplayChange, PowerAnswer, PowerEvent, WatchEvent,
    K_CG_DISPLAY_DISABLED_FLAG, K_CG_DISPLAY_REMOVE_FLAG, K_IO_MESSAGE_CAN_SYSTEM_SLEEP,
    K_IO_MESSAGE_SYSTEM_HAS_POWERED_ON, K_IO_MESSAGE_SYSTEM_WILL_POWER_ON,
    K_IO_MESSAGE_SYSTEM_WILL_SLEEP,
};
use displayed::screen::{Span, Tint};
use displayed::switching::{disable_plan, DisablePlan};
use displayed::watch::watch_next;

const PANEL_ON: &str = "Persistent screen id: PANEL\nContextual screen id: 1\nSerial screen id: s1\nType: MacBook built in screen\nResolution: 1512x982\nOrigin: (0,0) - main display\nRotation: 0\nEnabled: true\n";
const PANEL_OFF: &str = "Persistent screen id: PANEL\nContextual screen id: 1\nSerial screen id: s1\nType: MacBook built in screen\nEnabled: false\n";
const MONITOR_ON: &str = "Persistent screen id: MONITOR\nContextual screen id: 2\nSerial screen id: s456\nType: 27 inch external screen\nResolution: 2560x1440\nOrigin: (1512,0)\nEnabled: true\n";
const MONITOR_OFF: &str = "Persistent screen id: MONITOR\nContextual screen id: 2\nSerial screen id: s456\nType: 27 inch external screen\nEnabled: false\n";

/// A machine as far as the procedures see it.
struct World {
    listing: Result<String, String>,
    lid: &'static str,
    state: Option<String>,
    targets: Option<String>,
    online: Vec<u32>,
    builtin: Vec<u32>,
    active: Vec<u32>,
    /// The number that really lights the built-in display.
    lights: u32,
    begin: i32,
    configure: i32,
    complete: i32,
    switch: Result<bool, String>,
    detect: Option<String>,
    clock: u64,
    hangs: bool,
    input: Vec<Input>,
    watch: Vec<WatchEvent>,
    power: Vec<PowerEvent>,
    registered: bool,
    power_error: Option<String>,
    disk_error: Option<String>,
    done: Vec<String>,
    out: String,
    err: String,
    log: Vec<String>,
    written: Vec<Span>,
    screens: Vec<Vec<Span>>,
}

impl World {
    fn new(listing: &str) -> World {
        World {
            listing: Ok(listing.to_string()),
            lid: "\"AppleClamshellState\" = No",
            state: None,
            targets: None,
            online: vec![1],
            builtin: vec![1],
            active: vec![],
            lights: 1,
            begin: 0,
            configure: 0,
            complete: 0,
            switch: Ok(true),
            detect: None,
            clock: 0,
            hangs: false,
            input: vec![],
            watch: vec![],
            power: vec![],
            registered: true,
            power_error: None,
            disk_error: None,
            done: vec![],
            out: String::new(),
            err: String::new(),
            log: vec![],
            written: vec![],
            screens: vec![],
        }
    }

    fn capture(&mut self, program: &str, arguments: &[String]) -> Result<Capture, Failure> {
        let words = format!("{program} {}", arguments.join(" "));
        let (success, stdout) = match words.as_str() {
            "displayplacer list" => match &self.listing {
                Ok(listing) => (true, listing.clone()),
                Err(text) => return Err(failed(text)),
            },
            "id -u" => (true, "501\n".to_string()),
            _ if program == "ioreg" && arguments.len() == 5 => (true, self.lid.to_string()),
            _ if program == "displayplacer" => {
                self.done.push(words.clone());
                match &self.switch {
                    Ok(success) => (*success, "switched\n".to_string()),
                    Err(text) => return Err(failed(text)),
                }
            }
            _ => {
                self.done.push(words.clone());
                (true, format!("out of {program}"))
            }
        };
        Ok(Capture {
            success,
            status: if success { "exit status: 0" } else { "exit status: 1" }.to_string(),
            stdout,
            stderr: String::new(),
        })
    }

    fn file(&mut self, path: &FilePath) -> Option<&mut Option<String>> {
        match path.parts.last().map(String::as_str) {
            Some("state") => Some(&mut self.state),
            Some("targets") => Some(&mut self.targets),
            _ => None,
        }
    }

    fn perform(&mut self, effect: Effect, spawned: &mut Option<(String, Vec<String>)>) -> Reply {
        match effect {
            Effect::Print(text) => {
                self.out.push_str(&text);
                Reply::Done(Ok(()))
            }
            Effect::Complain(text) => {
                self.err.push_str(&text);
                Reply::Done(Ok(()))
            }
            Effect::Run { program, arguments } => Reply::Ran(self.capture(&program, &arguments)),
            Effect::Spawn { program, arguments } => {
                *spawned = Some((program, arguments));
                Reply::Done(Ok(()))
            }
            Effect::Poll => Reply::Ended(Ok(!self.hangs)),
            Effect::Collect => {
                let (program, arguments) = spawned.take().unwrap();
                Reply::Ran(self.capture(&program, &arguments))
            }
            Effect::Kill => {
                self.done.push("kill".to_string());
                Reply::Done(Ok(()))
            }
            Effect::Detect => {
                self.done.push("detect".to_string());
                Reply::Done(match &self.detect {
                    None => Ok(()),
                    Some(text) => Err(failed(text)),
                })
            }
            Effect::BeginConfiguration => Reply::Code(self.begin),
            Effect::ConfigureEnabled { display, enabled } => {
                self.done.push(format!("configure {display} {enabled}"));
                if self.configure == 0 && enabled && display == self.lights {
                    self.active.push(display);
                }
                Reply::Code(self.configure)
            }
            Effect::CancelConfiguration => {
                self.done.push("cancel".to_string());
                Reply::Code(0)
            }
            Effect::CompleteConfiguration => Reply::Code(self.complete),
            Effect::OnlineDisplays => Reply::Numbers(self.online.clone()),
            Effect::AskBuiltin(id) => Reply::Flag(self.builtin.contains(&id)),
            Effect::AskActive(id) => Reply::Flag(self.active.contains(&id)),
            Effect::ReadFile(path) => {
                let error = self.disk_error.clone();
                Reply::Text(match (error, self.file(&path).unwrap()) {
                    (Some(text), _) => Err(failed(&text)),
                    (None, Some(body)) => Ok(body.clone()),
                    (None, None) => Err(Failure {
                        missing: true,
                        text: "missing".to_string(),
                    }),
                })
            }
            Effect::WriteFile(path, body) => {
                let error = self.disk_error.clone();
                match self.file(&path) {
                    Some(file) => *file = Some(body),
                    None => self.done.push(format!("write {}\n{body}", path.parts.join("/"))),
                }
                Reply::Done(error.map_or(Ok(()), |text| Err(failed(&text))))
            }
            Effect::AppendFile(path, body) => {
                assert_eq!(path.parts.join("/"), "Library/Logs/displayed.log");
                assert!(path.at_home);
                self.log.push(body);
                Reply::Done(Ok(()))
            }
            Effect::RemoveFile(path) => match self.file(&path) {
                Some(file) => Reply::Done(match file.take() {
                    Some(_) => Ok(()),
                    None => Err(Failure {
                        missing: true,
                        text: "missing".to_string(),
                    }),
                }),
                None => {
                    self.done.push(format!("remove {}", path.parts.join("/")));
                    Reply::Done(Ok(()))
                }
            },
            Effect::CreateDir(path) => {
                if !path.at_home {
                    self.done.push(format!("mkdir {}", path.parts.join("/")));
                }
                Reply::Done(Ok(()))
            }
            Effect::PathExists(_) => Reply::Flag(true),
            Effect::ShowPath(path) => Reply::Text(Ok(format!(
                "{}{}",
                if path.at_home { "/home/" } else { "" },
                path.parts.join("/")
            ))),
            Effect::ExecutablePath => Reply::Text(Ok("/bin/displayed".to_string())),
            Effect::SearchPath => Reply::Variable(None),
            Effect::Timestamp => Reply::Stamp(Ok(1700000000)),
            Effect::Clock => Reply::Nanos(self.clock),
            Effect::Sleep(ms) => {
                self.clock += ms * 1_000_000;
                Reply::Done(Ok(()))
            }
            Effect::OpenTerminal => Reply::Done(Ok(())),
            Effect::TerminalSize => Reply::Columns(Some(80)),
            Effect::ReadInput(ms) => {
                assert_eq!(ms, 200);
                Reply::Input(Ok(if self.input.is_empty() {
                    None
                } else {
                    Some(self.input.remove(0))
                }))
            }
            Effect::Draw(spans) => {
                self.written.extend(spans);
                Reply::Done(Ok(()))
            }
            Effect::Flush => {
                self.screens.push(std::mem::take(&mut self.written));
                Reply::Done(Ok(()))
            }
            Effect::StartDisplayEvents(seconds) => {
                self.done.push(format!("events {seconds}"));
                Reply::Flag(self.registered)
            }
            Effect::StartPowerEvents => Reply::Done(match &self.power_error {
                None => Ok(()),
                Some(text) => Err(failed(text)),
            }),
            Effect::NextWatchEvent => Reply::Watch(if self.watch.is_empty() {
                None
            } else {
                Some(self.watch.remove(0))
            }),
            Effect::AwaitWatchEvent => Reply::Awaited(if self.watch.is_empty() {
                Err(failed("receiving on a closed channel"))
            } else {
                Ok(self.watch.remove(0))
            }),
            Effect::NextPowerEvent => Reply::Power(if self.power.is_empty() {
                None
            } else {
                Some(self.power.remove(0))
            }),
        }
    }

    fn drive<T>(
        &mut self,
        mut procedure: impl FnMut(&mut Tape) -> Result<Result<T, String>, Effect>,
    ) -> Result<T, String> {
        let mut replies = Vec::new();
        let mut spawned = None;
        loop {
            let mut tape = Tape::new(replies);
            match procedure(&mut tape) {
                Ok(outcome) => return outcome,
                Err(effect) => {
                    replies = tape.into_replies();
                    replies.push(self.perform(effect, &mut spawned));
                }
            }
        }
    }

    fn command(&mut self, line: &str) -> Result<Progress, String> {
        let args: Vec<String> = line.split_whitespace().map(str::to_string).collect();
        self.drive(|tape| run(tape, &args))
    }

    /// Steps until the next input is due, or the mode ends.
    fn round(&mut self, ui: Ui) -> Option<Ui> {
        let mut ui = ui;
        loop {
            ui = self.drive(|tape| interactive_step(tape, &ui)).unwrap()?;
            if ui.stage == Stage::Input {
                return Some(ui);
            }
        }
    }
}

fn failed(text: &str) -> Failure {
    Failure {
        missing: false,
        text: text.to_string(),
    }
}

fn both_on() -> String {
    format!("{PANEL_ON}\n{MONITOR_ON}")
}

fn saved_monitor() -> Option<String> {
    Some("serial=s456\tlabel=desk\n".to_string())
}

fn text_of(spans: &[Span]) -> String {
    spans
        .iter()
        .map(|span| match span {
            Span::Text(text) => text.as_str(),
            _ => "",
        })
        .collect()
}

// ---------------------------------------------------------------------------
// The program.
// ---------------------------------------------------------------------------
#[test]
fn help_is_printed() {
    for line in ["-h", "--help", "help"] {
        let mut world = World::new("");
        assert!(matches!(world.command(line), Ok(Progress::Finished)));
        assert_eq!(world.out, format!("{USAGE}\n"));
    }
    assert!(USAGE.starts_with("displayed\n\nCommands:\n  displayed\n  displayed list\n"));
    assert!(USAGE.ends_with("reported.\n"));
}

#[test]
fn without_arguments_the_mode_is_interactive() {
    let mut world = World::new("");
    assert!(matches!(world.command(""), Ok(Progress::Interactive)));
    assert_eq!(
        world.command("frobnicate").err().unwrap(),
        "unknown command `frobnicate`. Run `displayed --help`."
    );
}

#[test]
fn options_that_are_wrong_are_refused() {
    for (line, error) in [
        ("snapshot --label", "missing value after --label"),
        ("snapshot --out", "missing value after --out"),
        ("snapshot x", "unknown snapshot option `x`"),
        ("disable-internal --when-id", "missing value after condition option"),
        ("disable-internal x", "unknown disable-internal option `x`"),
        ("enable-internal --id", "missing value after --id"),
        ("enable-internal x", "unknown enable-internal option `x`"),
        ("restore-internal --display-id", "missing value after --display-id"),
        ("restore-internal --display-id x", "invalid digit found in string"),
        ("restore-internal x", "unknown restore-internal option `x`"),
        ("restore-display --display-id 4294967296", "number too large to fit in target type"),
        ("restore-display x", "unknown restore-display option `x`"),
        ("restore-display", "restore-display requires --display-id <contextual-id>"),
        ("redetect-displays x", "unknown redetect-displays option `x`"),
        ("safe-reset x", "unknown safe-reset option `x`"),
        ("reset-safe x", "unknown safe-reset option `x`"),
        ("targets x", "unknown targets option `x`"),
        ("guard --reason", "missing value after --reason"),
        ("guard x", "unknown guard option `x`"),
        ("install-guard --interval", "missing value after --interval"),
        ("install-guard --interval -1", "invalid digit found in string"),
        ("install-guard x", "unknown install-guard option `x`"),
        ("uninstall-guard x", "unknown uninstall-guard option `x`"),
        ("watch --target-id", "missing value after target option"),
        ("watch --interval x", "invalid digit found in string"),
        ("watch x", "unknown watch option `x`"),
    ] {
        let mut world = World::new("");
        assert_eq!(world.command(line).err().unwrap(), error, "{line}");
        assert!(world.done.is_empty());
    }
}

#[test]
fn displays_are_listed() {
    let mut world = World::new(&format!("{PANEL_ON}\n\ndisplayplacer \"id:PANEL\"\n"));
    world.command("list").unwrap();
    assert_eq!(
        world.out,
        "[0] PANEL s1 MacBook built in screen enabled:true main\n    contextual: 1\n    resolution: 1512x982\n    origin: (0,0)\n    rotation: 0\n\nrestore command:\ndisplayplacer \"id:PANEL\"\n"
    );
    assert!(world.state.unwrap().starts_with("internal_id=PANEL\n"));
    let mut empty = World::new("");
    empty.command("list").unwrap();
    assert_eq!(empty.out, "No displays parsed from displayplacer output.\n");
    let mut broken = World::new("");
    broken.listing = Err("No such file or directory (os error 2)".to_string());
    assert_eq!(
        broken.command("list").err().unwrap(),
        "No such file or directory (os error 2)"
    );
}

#[test]
fn a_state_that_cannot_be_written_is_only_a_warning() {
    let mut world = World::new(PANEL_ON);
    world.disk_error = Some("disk full".to_string());
    world.command("list").unwrap();
    assert_eq!(world.err, "warning: failed to write displayed state: disk full\n");
}

#[test]
fn targets_are_shown_and_cleared() {
    let mut world = World::new("");
    world.command("targets").unwrap();
    assert_eq!(world.out, "no saved auto targets\n");
    world.targets = saved_monitor();
    world.out.clear();
    world.command("targets").unwrap();
    assert_eq!(world.out, "[0] desk ctx:- serial:s456 id:-\n");
    world.out.clear();
    world.command("targets --clear").unwrap();
    assert_eq!(world.out, "cleared saved auto targets\n");
    assert_eq!(world.targets, None);
    world.command("targets --clear").unwrap();
}

// ---------------------------------------------------------------------------
// Turning off.
// ---------------------------------------------------------------------------
#[test]
fn the_panel_is_turned_off_beside_another_display() {
    let mut world = World::new(&both_on());
    world.command("disable-internal --when-serial 456").unwrap();
    assert_eq!(world.done, vec!["displayplacer id:PANEL enabled:false"]);
    assert_eq!(
        world.out,
        "running: displayplacer \"id:PANEL enabled:false\"\nswitched\n"
    );
}

#[test]
fn the_last_display_is_not_turned_off() {
    let mut world = World::new(&format!("{PANEL_ON}\n{MONITOR_OFF}"));
    assert_eq!(
        world.command("disable-internal").err().unwrap(),
        "refusing to disable the only enabled display; pass --force to override"
    );
    assert!(world.done.is_empty());
    world.command("disable-internal --force").unwrap();
    assert_eq!(world.done, vec!["displayplacer id:PANEL enabled:false"]);
}

#[test]
fn there_may_be_nothing_to_turn_off() {
    for (listing, line, said) in [
        ("", "disable-internal", "skip: displayplacer reported no online displays\n"),
        (
            MONITOR_OFF,
            "disable-internal --when-id s456",
            "skip: target `s456` is not present/enabled\n",
        ),
        (
            MONITOR_ON,
            "disable-internal",
            "skip: no enabled internal display reported\n",
        ),
    ] {
        let mut world = World::new(listing);
        world.command(line).unwrap();
        assert_eq!(world.out, said);
        assert!(world.done.is_empty());
    }
    let mut nameless = World::new(&both_on());
    nameless.listing = Ok(format!(
        "{MONITOR_ON}\nPersistent screen id: \nType: MacBook built in screen\nEnabled: true\n"
    ));
    nameless.command("disable-internal").unwrap();
    assert_eq!(nameless.done, vec!["displayplacer id: enabled:false"]);
}

#[test]
fn a_failing_switch_is_told() {
    let mut world = World::new(&both_on());
    world.switch = Ok(false);
    assert_eq!(
        world.command("disable-internal").err().unwrap(),
        "displayplacer failed with status exit status: 1:\nswitched\n"
    );
}

#[test]
fn dry_runs_change_nothing() {
    for (line, said) in [
        (
            "disable-internal --dry-run",
            "dry-run: displayplacer \"id:PANEL enabled:false\"\n",
        ),
        (
            "enable-internal --id X --dry-run",
            "dry-run: displayplacer \"id:X enabled:true\"\n",
        ),
        (
            "restore-internal --dry-run",
            "dry-run: SLSDetectDisplays()\ndry-run: CGSConfigureDisplayEnabled(display_id:1, enabled:true)\n",
        ),
        (
            "restore-display --display-id 5 --dry-run",
            "dry-run: SLSDetectDisplays()\ndry-run: CGSConfigureDisplayEnabled(display_id:5, enabled:true)\n",
        ),
        ("redetect-displays --dry-run", "dry-run: SLSDetectDisplays()\n"),
        (
            "guard --dry-run",
            "guard: reason=manual\nguard: no internal restore needed\n",
        ),
    ] {
        let mut world = World::new(&both_on());
        world.command(line).unwrap();
        assert_eq!(world.out, said, "{line}");
        assert!(world.done.is_empty(), "{line}");
    }
    let mut world = World::new(&format!("{PANEL_OFF}\n{MONITOR_ON}"));
    world.state = Some("known_display_id=2\n".to_string());
    world.command("safe-reset --dry-run").unwrap();
    assert_eq!(
        world.out,
        "safe reset: redetect displays\ndry-run: SLSDetectDisplays()\nsafe reset: enable remembered display id 2\ndry-run: CGSConfigureDisplayEnabled(display_id:2, enabled:true)\nsafe reset: enable detected display PANEL\ndry-run: displayplacer \"id:PANEL enabled:true\"\n"
    );
    assert!(world.done.is_empty());
}

// ---------------------------------------------------------------------------
// Restoring.
// ---------------------------------------------------------------------------
#[test]
fn the_panel_is_enabled_by_its_remembered_id() {
    let mut world = World::new("");
    assert_eq!(
        world.command("enable-internal").err().unwrap(),
        "no remembered internal id in displayed state; pass --id <built-in-persistent-id>"
    );
    world.state = Some("internal_id=P\nknown_display_id=4\n".to_string());
    world.command("enable-internal").unwrap();
    assert_eq!(world.done, vec!["displayplacer id:P enabled:true"]);
    assert_eq!(world.state.as_deref(), Some("internal_id=P\n"));
}

#[test]
fn the_panel_is_restored_by_the_live_number() {
    let mut world = World::new("");
    world.online = vec![9, 3];
    world.builtin = vec![3];
    world.lights = 3;
    world.command("restore-internal").unwrap();
    assert_eq!(world.done, vec!["detect", "configure 3 true"]);
    assert_eq!(
        world.log,
        vec![
            "1700000000 restore-internal: attempt 1/3 candidates [3, 1] (live=Some(3) remembered=None)\n",
            "1700000000 cgs-configure: display_id=3 enabled=true ok\n",
            "1700000000 restore-internal: builtin active after enabling id 3\n",
        ]
    );
    assert_eq!(world.state.as_deref(), Some("known_display_id=3\n"));
}

#[test]
fn a_panel_that_is_active_is_left_alone() {
    let mut world = World::new("");
    world.active = vec![1];
    world.command("restore-internal").unwrap();
    assert_eq!(world.done, vec!["detect"]);
    assert_eq!(
        world.log,
        vec!["1700000000 restore-internal: builtin already active (attempt 1/3)\n"]
    );
}

#[test]
fn a_call_that_succeeds_in_vain_does_not_count() {
    let mut world = World::new("");
    world.online = vec![];
    world.lights = 77;
    world.state = Some("internal_display_id=6\n".to_string());
    assert_eq!(
        world.command("restore-internal").err().unwrap(),
        "enable of display id 1 reported ok but built-in did not become active"
    );
    assert_eq!(
        world.done,
        vec![
            "detect",
            "configure 6 true",
            "configure 1 true",
            "detect",
            "configure 6 true",
            "configure 1 true",
            "detect",
            "configure 6 true",
            "configure 1 true",
        ]
    );
    // Six waits of two seconds, and two pauses of one.
    assert_eq!(world.clock, 14_000_000_000);
}

#[test]
fn configuration_errors_are_told() {
    let mut world = World::new("");
    world.begin = 1000;
    assert_eq!(
        world.command("restore-display --display-id 2").err().unwrap(),
        "CGBeginDisplayConfiguration failed: 1000"
    );
    let mut world = World::new("");
    world.configure = -7;
    assert_eq!(
        world.command("restore-display --display-id 2").err().unwrap(),
        "CGSConfigureDisplayEnabled failed: -7"
    );
    assert_eq!(world.done, vec!["detect", "configure 2 true", "cancel"]);
    assert_eq!(
        world.log,
        vec!["1700000000 cgs-configure: display_id=2 enabled=true configure_err=-7\n"]
    );
    let mut world = World::new("");
    world.complete = 1014;
    assert_eq!(
        world.command("restore-display --display-id 2").err().unwrap(),
        "CGCompleteDisplayConfiguration failed: 1014"
    );
    let mut world = World::new("");
    world.detect = Some("dlopen SkyLight failed".to_string());
    assert_eq!(
        world.command("redetect-displays").err().unwrap(),
        "dlopen SkyLight failed"
    );
}

#[test]
fn a_restored_number_is_remembered() {
    let mut world = World::new("");
    world.command("restore-display --display-id 2").unwrap();
    assert_eq!(
        world.out,
        "running: SLSDetectDisplays()\nrunning: CGSConfigureDisplayEnabled(display_id:2, enabled:true)\n"
    );
    assert_eq!(world.state.as_deref(), Some("known_display_id=2\n"));
}

#[test]
fn the_fallback_needs_a_remembered_id() {
    let mut world = World::new("");
    world.active = vec![1];
    world.command("restore-internal --displayplacer-fallback").unwrap();
    assert_eq!(
        world.err,
        "warning: no remembered internal id in displayed state; skipped displayplacer fallback\n"
    );
    world.state = Some("internal_id=P\n".to_string());
    world.command("restore-internal --displayplacer-fallback").unwrap();
    assert!(world.done.contains(&"displayplacer id:P enabled:true".to_string()));
}

#[test]
fn a_safe_reset_enables_everything() {
    let mut world = World::new(&format!("{PANEL_OFF}\n{MONITOR_OFF}"));
    world.state = Some("internal_display_id=4\nknown_display_id=2\n".to_string());
    world.command("safe-reset").unwrap();
    assert_eq!(
        world.done,
        vec![
            "detect",
            "configure 2 true",
            "configure 4 true",
            "displayplacer id:PANEL enabled:true",
            "displayplacer id:MONITOR enabled:true",
        ]
    );
    let mut world = World::new(&both_on());
    world.detect = Some("no".to_string());
    world.command("reset-safe").unwrap();
    assert_eq!(
        world.err,
        "warning: display redetection failed: no\nwarning: no remembered display ids; skipped native restore\n"
    );
    assert!(world.out.ends_with("safe reset: no detected disabled displays to enable\n"));
}

// ---------------------------------------------------------------------------
// The guard.
// ---------------------------------------------------------------------------
#[test]
fn the_guard_restores_a_dark_machine() {
    let mut world = World::new(&format!("{PANEL_OFF}\n{MONITOR_OFF}"));
    world.command("guard --reason test").unwrap();
    assert_eq!(
        world.done,
        vec![
            "detect",
            "configure 1 true",
            "displayplacer id:PANEL enabled:true",
        ]
    );
    assert_eq!(
        world.log[0],
        "1700000000 guard: reason=test clamshell=Open state=ok internal_enabled=false external_enabled=false action=RestoreInternal\n"
    );
}

#[test]
fn the_guard_leaves_a_closed_lid_alone() {
    let mut world = World::new(PANEL_OFF);
    world.lid = "  \"AppleClamshellState\" = Yes";
    world.command("guard --quiet").unwrap();
    assert!(world.done.is_empty());
    assert_eq!(world.out, "");
    assert_eq!(
        world.log,
        vec!["1700000000 guard: reason=manual clamshell=Closed state=ok internal_enabled=false external_enabled=false action=None\n"]
    );
}

#[test]
fn the_guard_is_silent_while_the_panel_is_on() {
    let mut world = World::new(PANEL_ON);
    world.command("guard --quiet").unwrap();
    assert!(world.done.is_empty());
    assert!(world.log.is_empty());
}

#[test]
fn the_guard_fails_open() {
    let mut world = World::new("");
    world.listing = Err("gone".to_string());
    world.lid = "";
    world.command("guard").unwrap();
    assert_eq!(world.done, vec!["detect", "configure 1 true"]);
    assert!(world.err.contains("warning: guard display state unavailable: gone\n"));
    assert!(world.err.contains("warning: could not verify internal restore: gone\n"));
    assert!(world.log[0].contains("clamshell=Unknown state=unavailable"));
}

#[test]
fn slow_commands_are_killed() {
    let mut world = World::new("");
    world.hangs = true;
    world.active = vec![1];
    world.command("guard").unwrap();
    assert!(world.err.starts_with(
        "warning: clamshell state unavailable: `ioreg -r -k AppleClamshellState -d 4` timed out after 1000ms\nwarning: guard display state unavailable: `displayplacer list` timed out after 2000ms\n"
    ));
    assert_eq!(world.done, vec!["kill", "kill", "detect", "kill"]);
    assert_eq!(world.clock, 5_000_000_000);
}

#[test]
fn sleep_is_prepared_in_one_attempt() {
    let mut world = World::new(PANEL_ON);
    world.lights = 77;
    world
        .drive(|tape| prepare_for_sleep(tape, ActionMode::Execute))
        .unwrap();
    assert_eq!(world.done, vec!["detect", "configure 1 true"]);
    assert_eq!(
        world.log[0],
        "1700000000 power: SystemWillSleep — restoring internal before sleep\n"
    );
    assert_eq!(world.out, "");
    assert_eq!(power_answer(K_IO_MESSAGE_CAN_SYSTEM_SLEEP), PowerAnswer::Allow);
    assert_eq!(
        power_answer(K_IO_MESSAGE_SYSTEM_WILL_SLEEP),
        PowerAnswer::RestoreAndAllow
    );
    assert_eq!(
        power_answer(K_IO_MESSAGE_SYSTEM_WILL_POWER_ON),
        PowerAnswer::Tell(PowerEvent::SystemWillPowerOn)
    );
    assert_eq!(
        power_answer(K_IO_MESSAGE_SYSTEM_HAS_POWERED_ON),
        PowerAnswer::Tell(PowerEvent::SystemHasPoweredOn)
    );
    assert_eq!(power_answer(0), PowerAnswer::Ignore);
}

// ---------------------------------------------------------------------------
// Watching.
// ---------------------------------------------------------------------------
#[test]
fn a_watcher_needs_a_target() {
    let mut world = World::new("");
    assert_eq!(
        world.command("watch").err().unwrap(),
        "watch has no target. Run `displayed`, select an external display, press `a`, then run `displayed watch`."
    );
}

#[test]
fn a_watcher_turns_the_panel_off_and_on() {
    let mut world = World::new(&both_on());
    world.targets = saved_monitor();
    world.registered = false;
    let watch = match world.command("watch --interval 0").unwrap() {
        Progress::Watching(watch) => watch,
        other => panic!("{other:?}"),
    };
    assert_eq!(
        world.err,
        "warning: CoreGraphics display callback registration failed; using periodic reconcile only\n"
    );
    assert_eq!(
        world.out,
        "watching 1 saved target(s); display events plus 1s reconcile; press Ctrl-C to stop\n  - desk ctx:- serial:s456 id:-\nrunning: displayplacer \"id:PANEL enabled:false\"\nswitched\nwatch matched saved target; internal disabled\n"
    );
    assert_eq!(
        world.done,
        vec!["events 1", "displayplacer id:PANEL enabled:false"]
    );
    // The panel is off: the watcher stays quiet.
    world.listing = Ok(MONITOR_ON.to_string());
    world.out.clear();
    world.done.clear();
    world.watch = vec![WatchEvent::Reconcile, WatchEvent::Reconcile];
    world.drive(|tape| watch_next(tape, &watch)).unwrap();
    assert_eq!(world.out, "");
    assert!(world.done.is_empty());
    // The target is gone: the panel comes back.
    world.listing = Ok(String::new());
    world.drive(|tape| watch_next(tape, &watch)).unwrap();
    assert_eq!(world.done, vec!["detect", "configure 1 true"]);
    assert!(world
        .out
        .ends_with("watch saved target absent; internal restore requested\n"));
    assert_eq!(
        world.drive(|tape| watch_next(tape, &watch)).err().unwrap(),
        "receiving on a closed channel"
    );
}

#[test]
fn a_named_target_is_watched_for() {
    let mut world = World::new(&both_on());
    world
        .command("watch --target-serial s456 --interval 60 --dry-run")
        .unwrap();
    assert_eq!(
        world.out,
        "watching target `s456`; display events plus 60s reconcile; press Ctrl-C to stop\ndry-run: displayplacer \"id:PANEL enabled:false\"\nwatch matched target; internal disabled\n"
    );
    assert_eq!(world.done, vec!["events 60"]);
    let mut world = World::new(&format!("{PANEL_ON}\n{MONITOR_OFF}"));
    world.command("watch --target-id MONITOR").unwrap();
    assert_eq!(world.done, vec!["events 60"]);
    let mut blind = World::new("");
    blind.listing = Err("gone".to_string());
    blind.active = vec![1];
    blind.command("watch --target-id MONITOR").unwrap();
    assert_eq!(
        blind.err,
        "warning: display state unavailable; requesting internal restore: gone\n"
    );
    assert_eq!(blind.done, vec!["events 60", "detect"]);
}

// ---------------------------------------------------------------------------
// Snapshots and installation.
// ---------------------------------------------------------------------------
#[test]
fn snapshots_are_written() {
    let mut world = World::new(MONITOR_ON);
    world.command("snapshot --label a/b --out shots").unwrap();
    assert_eq!(world.out, "shots/1700000000-ab.txt\n");
    let written = world.done.last().unwrap();
    assert!(written.starts_with("write shots/1700000000-ab.txt\n# displayed snapshot\nlabel: a/b\nunix_timestamp: 1700000000\n\n## parsed displayplacer summary\n- MONITOR s456 27 inch external screen enabled:true\n\n## displayplacer raw\nPersistent screen id: MONITOR\n"));
    assert!(written.contains("\n\n## BetterDisplay preferences\nwarning: this section can include monitor serials, EDID data, and license metadata.\n\n## command: defaults read pro.betterdisplay.BetterDisplay\nstatus: exit status: 0\n\nstdout:\nout of defaults\n\n## command: plutil -p /home/Library/Preferences/pro.betterdisplay.BetterDisplay.plist\n"));
    assert!(written.ends_with("\n## command: ioreg -lw0 -r -c IOFramebuffer\nstatus: exit status: 0\n\nstdout:\nout of ioreg\n"));
    assert_eq!(world.done[0], "mkdir shots");
    let mut broken = World::new("");
    broken.listing = Err("gone".to_string());
    broken.command("snapshot").unwrap();
    assert!(broken
        .done
        .last()
        .unwrap()
        .contains("\n\n## displayplacer raw\nfailed: gone\n\n## BetterDisplay"));
}

#[test]
fn the_guard_is_installed() {
    let mut world = World::new("");
    world.command("install-guard --interval 1").unwrap();
    assert_eq!(
        world.out,
        "installed /home/Library/LaunchAgents/com.stargt.displayed.guard.plist\nloaded gui/501/com.stargt.displayed.guard\n"
    );
    assert!(world.done[0].starts_with("write Library/LaunchAgents/com.stargt.displayed.guard.plist\n<?xml"));
    assert!(world.done[0].contains("<integer>5</integer>"));
    assert!(world.done[0].contains("    <string>/bin/displayed</string>\n    <string>guard</string>\n    <string>--reason</string>\n    <string>launchd</string>\n    <string>--quiet</string>\n"));
    assert!(world.done[0].contains("<string>/home/Library/Logs/displayed-guard.err.log</string>"));
    assert!(!world.done[0].contains("KeepAlive"));
    assert_eq!(
        world.done[1..],
        vec![
            "launchctl bootout gui/501/com.stargt.displayed.guard",
            "launchctl bootstrap gui/501 /home/Library/LaunchAgents/com.stargt.displayed.guard.plist",
            "launchctl kickstart -k gui/501/com.stargt.displayed.guard",
        ]
    );
}

#[test]
fn dry_installations_only_speak() {
    let mut world = World::new("");
    world.command("install-guard --dry-run").unwrap();
    assert!(world.done.is_empty());
    assert!(world
        .out
        .starts_with("dry-run: write /home/Library/LaunchAgents/com.stargt.displayed.guard.plist\n<?xml"));
    assert!(world.out.contains("<integer>30</integer>"));
    assert!(world.out.ends_with("</plist>\n\ndry-run: launchctl bootstrap gui/<uid> /home/Library/LaunchAgents/com.stargt.displayed.guard.plist\ndry-run: launchctl kickstart -k gui/<uid>/com.stargt.displayed.guard\n"));
    world.out.clear();
    world.command("uninstall-guard --dry-run").unwrap();
    assert!(world.done.is_empty());
    assert_eq!(
        world.out,
        "dry-run: launchctl bootout gui/<uid>/com.stargt.displayed.guard\ndry-run: remove /home/Library/LaunchAgents/com.stargt.displayed.guard.plist\n"
    );
}

#[test]
fn the_guard_is_uninstalled() {
    let mut world = World::new("");
    world.command("uninstall-guard --no-unload").unwrap();
    assert_eq!(
        world.done,
        vec!["remove Library/LaunchAgents/com.stargt.displayed.guard.plist"]
    );
    assert_eq!(
        world.out,
        "removed /home/Library/LaunchAgents/com.stargt.displayed.guard.plist\n"
    );
}

// ---------------------------------------------------------------------------
// The interactive mode.
// ---------------------------------------------------------------------------
#[test]
fn the_mode_opens_with_a_screen() {
    let mut world = World::new(&both_on());
    let ui = world.drive(interactive_mode).unwrap();
    assert_eq!(ui.status, "ready");
    assert_eq!(ui.width, 80);
    assert_eq!(world.done, vec!["events 5"]);
    let screen = text_of(&world.screens[0]);
    assert_eq!(
        screen,
        "displayed  auto:inactive  targets:0\r\n\r\n 0 internal on      -     MacBook built in screen 1512x982 main\r\n     id:PANEL  ctx:1  serial:s1  origin:(0,0)\r\n 1 external on      -     27 inch external screen 2560x1440\r\n\r\n[up/down] select  [space] toggle  [i] internal  [a] auto target  [s] safe reset  [r] refresh  [?] help  [q] quit\r\nstatus: ready"
    );
    assert!(matches!(world.screens[0][0], Span::Clear));
    assert!(world.screens[0]
        .iter()
        .any(|span| matches!(span, Span::Tint(Tint::Blue))));
}

#[test]
fn the_mode_opens_with_what_went_wrong() {
    let mut world = World::new("");
    world.power_error = Some("IORegisterForSystemPower failed".to_string());
    world.state = Some("internal_id=P\ninternal_display_id=1\n".to_string());
    let ui = world.drive(interactive_mode).unwrap();
    assert_eq!(
        ui.status,
        "power event registration failed: IORegisterForSystemPower failed"
    );
    world.listing = Err("gone".to_string());
    let ui = world.drive(interactive_mode).unwrap();
    assert_eq!(ui.status, "failed to read display state: gone");
    let screen = text_of(world.screens.last().unwrap());
    assert!(screen.contains("Display state unavailable.\r\n"));
    assert!(screen.contains("\r\nremembered internal id:P display_id:1 serial:-\r\n"));
}

#[test]
fn saved_targets_act_at_the_start() {
    let mut world = World::new(&both_on());
    world.targets = saved_monitor();
    let ui = world.drive(interactive_mode).unwrap();
    assert_eq!(ui.status, "auto target matched; internal disabled");
    assert_eq!(
        world.done,
        vec!["events 5", "displayplacer id:PANEL enabled:false"]
    );
    assert!(text_of(&world.screens[0]).contains("\r\nSaved auto targets:\r\n  - desk ctx:- serial:s456 id:-\r\n"));
}

fn press(world: &mut World, ui: Ui, key: Key) -> Option<Ui> {
    world.input.push(Input::Key(key, false));
    world.round(ui)
}

#[test]
fn the_selection_moves() {
    let mut world = World::new(&both_on());
    let ui = world.drive(interactive_mode).unwrap();
    let ui = press(&mut world, ui, Key::Down).unwrap();
    assert_eq!(ui.selected, 1);
    let ui = press(&mut world, ui, Key::Char('j')).unwrap();
    assert_eq!(ui.selected, 1);
    let ui = press(&mut world, ui, Key::Char('k')).unwrap();
    assert_eq!(ui.selected, 0);
    let ui = press(&mut world, ui, Key::Up).unwrap();
    assert_eq!(ui.selected, 0);
    // The list shrinks below the selection.
    let ui = press(&mut world, ui, Key::Down).unwrap();
    world.listing = Ok(String::new());
    world.state = None;
    let ui = press(&mut world, ui, Key::Char('r')).unwrap();
    assert_eq!(ui.status, "refreshed");
    assert_eq!(ui.selected, 0);
}

#[test]
fn the_mode_ends() {
    for (key, control) in [
        (Key::Char('q'), false),
        (Key::Esc, false),
        (Key::Char('c'), true),
    ] {
        let mut world = World::new(PANEL_ON);
        let ui = world.drive(interactive_mode).unwrap();
        world.input.push(Input::Key(key, control));
        assert!(world.round(ui).is_none());
    }
    let mut world = World::new(PANEL_ON);
    let ui = world.drive(interactive_mode).unwrap();
    world.input.push(Input::Key(Key::Char('c'), false));
    assert!(world.round(ui).is_some());
}

#[test]
fn help_is_closed_by_any_key() {
    let mut world = World::new(PANEL_ON);
    let ui = world.drive(interactive_mode).unwrap();
    let ui = press(&mut world, ui, Key::Char('?')).unwrap();
    assert!(ui.show_help);
    let help = text_of(world.screens.last().unwrap());
    assert!(help.starts_with("displayed — help\r\n\r\n  up/down, k/j  Move the selection between displays.\r\n"));
    assert!(help.ends_with("  q, esc        Quit.\r\n\r\npress any key to close this help"));
    let ui = press(&mut world, ui, Key::Char('q')).unwrap();
    assert!(!ui.show_help);
    assert!(text_of(world.screens.last().unwrap()).starts_with("displayed  auto:"));
}

#[test]
fn quiet_rounds_draw_nothing() {
    let mut world = World::new(PANEL_ON);
    let ui = world.drive(interactive_mode).unwrap();
    let before = world.screens.len();
    let ui = world.round(ui).unwrap();
    assert_eq!(world.screens.len(), before);
    world.input.push(Input::Other);
    let ui = world.round(ui).unwrap();
    assert_eq!(world.screens.len(), before);
    world.input.push(Input::Resize(40));
    let ui = world.round(ui).unwrap();
    assert_eq!(ui.width, 40);
    assert_eq!(world.screens.len(), before + 1);
    assert!(text_of(world.screens.last().unwrap()).contains(" 0 internal on      -     MacBook b...\r\n"));
}

#[test]
fn the_panel_is_toggled() {
    let mut world = World::new(&both_on());
    let ui = world.drive(interactive_mode).unwrap();
    world.done.clear();
    let ui = press(&mut world, ui, Key::Char('i')).unwrap();
    assert_eq!(ui.status, "internal disabled");
    world.listing = Ok(format!("{PANEL_OFF}\n{MONITOR_ON}"));
    let ui = press(&mut world, ui, Key::Char('i')).unwrap();
    assert_eq!(ui.status, "internal enabled");
    world.listing = Ok(MONITOR_ON.to_string());
    let ui = press(&mut world, ui, Key::Char('i')).unwrap();
    assert_eq!(ui.status, "internal restore requested");
    assert_eq!(
        world.done,
        vec![
            "displayplacer id:PANEL enabled:false",
            "displayplacer id:PANEL enabled:true",
            "detect",
            "configure 1 true",
        ]
    );
    world.listing = Ok(PANEL_ON.to_string());
    let ui = press(&mut world, ui, Key::Char('i')).unwrap();
    assert_eq!(
        ui.status,
        "internal toggle failed: refusing to disable the only enabled display; pass --force to override"
    );
}

#[test]
fn the_selected_display_is_toggled() {
    let mut world = World::new(&both_on());
    let ui = world.drive(interactive_mode).unwrap();
    world.done.clear();
    let ui = press(&mut world, ui, Key::Down).unwrap();
    let ui = press(&mut world, ui, Key::Char(' ')).unwrap();
    assert_eq!(ui.status, "display disabled");
    // It has left the live list, and stays as a remembered row that is off.
    world.listing = Ok(PANEL_ON.to_string());
    let ui = press(&mut world, ui, Key::Char('r')).unwrap();
    assert_eq!(ui.selected, 1);
    assert!(text_of(world.screens.last().unwrap()).contains(" 1 external off     -     27 inch external screen 2560x1440\r\n     id:MONITOR  ctx:2  serial:s456  origin:-  remembered\r\n"));
    let ui = press(&mut world, ui, Key::Enter).unwrap();
    assert_eq!(ui.status, "external restore requested");
    assert_eq!(
        world.done,
        vec![
            "displayplacer id:MONITOR enabled:false",
            "detect",
            "configure 2 true",
        ]
    );
    // The panel is the only display that is on.
    let ui = press(&mut world, ui, Key::Up).unwrap();
    let ui = press(&mut world, ui, Key::Enter).unwrap();
    assert_eq!(
        ui.status,
        "display toggle failed: refusing to disable the only enabled display"
    );
}

#[test]
fn nothing_may_be_selected() {
    let mut world = World::new("");
    let ui = world.drive(interactive_mode).unwrap();
    let ui = press(&mut world, ui, Key::Enter).unwrap();
    assert_eq!(ui.status, "no selected display");
    assert!(text_of(world.screens.last().unwrap())
        .contains("No displays parsed from displayplacer output.\r\n"));
    world.listing = Ok("Persistent screen id: A\n".to_string());
    let ui = press(&mut world, ui, Key::Char('r')).unwrap();
    let ui = press(&mut world, ui, Key::Enter).unwrap();
    assert_eq!(
        ui.status,
        "display toggle failed: selected display has unknown enabled state"
    );
    world.listing = Ok("Persistent screen id: A\nEnabled: false\n".to_string());
    let ui = press(&mut world, ui, Key::Char('r')).unwrap();
    let ui = press(&mut world, ui, Key::Enter).unwrap();
    assert_eq!(
        ui.status,
        "display toggle failed: selected display has no remembered contextual display id"
    );
}

#[test]
fn targets_are_saved_and_removed_by_key() {
    let mut world = World::new(MONITOR_ON);
    let ui = world.drive(interactive_mode).unwrap();
    let ui = press(&mut world, ui, Key::Char('a')).unwrap();
    assert_eq!(ui.status, "auto target saved for selected external");
    assert_eq!(ui.targets.len(), 1);
    assert!(text_of(world.screens.last().unwrap()).contains(" 0 external on      auto  "));
    let ui = press(&mut world, ui, Key::Char('a')).unwrap();
    assert_eq!(ui.status, "auto target removed for selected external");
    assert!(ui.targets.is_empty());
    assert_eq!(world.targets, None);
    world.listing = Ok(PANEL_ON.to_string());
    world.state = None;
    let ui = press(&mut world, ui, Key::Char('r')).unwrap();
    let ui = press(&mut world, ui, Key::Char('a')).unwrap();
    assert_eq!(
        ui.status,
        "auto target update failed: selected display cannot be used as an auto target"
    );
}

#[test]
fn a_reset_is_done_by_key() {
    let mut world = World::new(&both_on());
    let ui = world.drive(interactive_mode).unwrap();
    let ui = press(&mut world, ui, Key::Char('s')).unwrap();
    assert_eq!(ui.status, "safe reset completed");
    world.disk_error = Some("no disk".to_string());
    world.input.push(Input::Key(Key::Char('s'), false));
    let ui = world.drive(|tape| interactive_step(tape, &ui)).unwrap().unwrap();
    assert_eq!(ui.status, "safe reset failed: no disk");
}

#[test]
fn the_loss_of_a_monitor_restores_the_panel() {
    let mut world = World::new(MONITOR_ON);
    let ui = world.drive(interactive_mode).unwrap();
    world.done.clear();
    world.watch = vec![WatchEvent::DisplayChanged(DisplayChange {
        display: 2,
        flags: K_CG_DISPLAY_REMOVE_FLAG,
    })];
    let ui = world.round(ui).unwrap();
    assert_eq!(ui.status, "internal restore requested");
    assert_eq!(world.done, vec!["detect", "configure 1 true"]);
    assert_eq!(
        world.log[0],
        "1700000000 display-change: display=2 flags=0x20 loss=true\n"
    );
    // The panel's own loss is no reason to restore it.
    world.done.clear();
    world.watch = vec![WatchEvent::DisplayChanged(DisplayChange {
        display: 1,
        flags: K_CG_DISPLAY_DISABLED_FLAG,
    })];
    let ui = world.round(ui).unwrap();
    assert_eq!(ui.status, "display change detected");
    assert!(world.done.is_empty());
    // Another change is like a reconcile.
    world.watch = vec![
        WatchEvent::DisplayChanged(DisplayChange { display: 2, flags: 0 }),
        WatchEvent::Reconcile,
    ];
    let ui = world.round(ui).unwrap();
    assert_eq!(ui.status, "periodic reconcile");
    assert!(world.done.is_empty());
}

#[test]
fn a_closed_lid_is_not_lit() {
    let mut world = World::new("");
    world.lid = "\"AppleClamshellState\" = Yes";
    let ui = world.drive(interactive_mode).unwrap();
    world.done.clear();
    world.watch = vec![WatchEvent::Reconcile];
    let ui = world.round(ui).unwrap();
    assert_eq!(ui.status, "internal restore requested");
    assert!(world.done.is_empty());
    assert_eq!(
        world.log,
        vec!["1700000000 internal safety restore: skipped (clamshell closed)\n"]
    );
}

#[test]
fn targets_are_reconciled() {
    let mut world = World::new(MONITOR_ON);
    world.targets = saved_monitor();
    let ui = world.drive(interactive_mode).unwrap();
    world.done.clear();
    world.listing = Ok(both_on());
    world.watch = vec![WatchEvent::Reconcile];
    let ui = world.round(ui).unwrap();
    assert_eq!(ui.status, "auto target reconciled; internal disabled");
    assert_eq!(world.done, vec!["displayplacer id:PANEL enabled:false"]);
}

#[test]
fn waking_runs_the_guard() {
    let mut world = World::new(PANEL_OFF);
    world.active = vec![1];
    let ui = world.drive(interactive_mode).unwrap();
    world.power = vec![PowerEvent::SystemWillPowerOn, PowerEvent::SystemHasPoweredOn];
    let ui = world.round(ui).unwrap();
    assert_eq!(ui.status, "power event reconciled: system-has-powered-on");
    assert_eq!(
        world.log[0],
        "1700000000 power: system-will-power-on — running internal guard\n"
    );
    assert!(world.log[1].contains("guard: reason=system-will-power-on"));
}

#[test]
fn a_reply_of_another_kind_is_a_failure() {
    let args = vec!["list".to_string()];
    let mut tape = Tape::new(vec![Reply::Flag(true)]);
    match run(&mut tape, &args) {
        Ok(Err(error)) => assert_eq!(error, "unexpected reply"),
        other => panic!("{other:?}"),
    }
}

#[test]
fn a_saved_target_is_listed_while_it_is_away() {
    let mut world = World::new(PANEL_ON);
    world.targets = saved_monitor();
    let ui = world.drive(interactive_mode).unwrap();
    assert!(text_of(&world.screens[0]).contains(
        " 1 external off     auto  saved external display <unknown-resolution>\r\n"
    ));
    // It can be selected and removed.
    let ui = press(&mut world, ui, Key::Down).unwrap();
    let ui = press(&mut world, ui, Key::Char('a')).unwrap();
    assert_eq!(ui.status, "auto target removed for selected external");
    assert!(ui.targets.is_empty());
}

#[test]
fn a_watcher_does_not_turn_the_last_display_off() {
    let mut world = World::new(PANEL_ON);
    world.command("watch --target-id PANEL").unwrap();
    assert_eq!(
        world.err,
        "watch iteration failed: refusing to disable the only enabled display; pass --force to override\n"
    );
    assert_eq!(world.done, vec!["events 60"]);
    world.command("watch --target-id PANEL --force").unwrap();
    assert_eq!(
        world.done,
        vec!["events 60", "events 60", "displayplacer id:PANEL enabled:false"]
    );
}

#[test]
fn a_panel_without_an_id_is_not_turned_off() {
    let mut displays = parse_displayplacer(&both_on()).displays;
    assert!(matches!(
        disable_plan(&displays, Some("456"), false),
        DisablePlan::Switch(id) if id == "PANEL"
    ));
    displays[0].persistent_id = None;
    assert!(matches!(
        disable_plan(&displays, None, false),
        DisablePlan::Refuse(reason)
            if reason == "internal display has no persistent id in displayplacer output"
    ));
}

#[test]
fn a_display_without_a_number_is_not_restored() {
    let mut world = World::new(&format!("{PANEL_ON}\nPersistent screen id: A\nEnabled: false\n"));
    let ui = world.drive(interactive_mode).unwrap();
    let ui = press(&mut world, ui, Key::Down).unwrap();
    let ui = press(&mut world, ui, Key::Char(' ')).unwrap();
    assert_eq!(
        ui.status,
        "display toggle failed: selected display has no remembered contextual display id"
    );
}

#[test]
fn a_wrong_number_in_the_state_is_told() {
    let mut world = World::new("");
    world.state = Some("internal_display_id=x\n".to_string());
    assert_eq!(
        world.command("restore-internal").err().unwrap(),
        "invalid digit found in string"
    );
    // A safe reset passes over it.
    world.command("safe-reset").unwrap();
    assert!(world
        .err
        .contains("warning: no remembered display ids; skipped native restore\n"));
}

#[test]
fn an_explicit_number_is_tried_alone() {
    let mut world = World::new("");
    world.lights = 8;
    world.online = vec![8];
    world.builtin = vec![8];
    world.command("restore-internal --display-id 8").unwrap();
    assert_eq!(world.done, vec!["detect", "configure 8 true"]);
    let mut stale = World::new("");
    stale.lights = 8;
    assert_eq!(
        stale
            .command("restore-internal --display-id 7")
            .err()
            .unwrap(),
        "enable of display id 7 reported ok but built-in did not become active"
    );
    assert!(!stale.done.contains(&"configure 8 true".to_string()));
}

fn state_file(body: &str) -> Reply {
    Reply::Text(Ok(body.to_string()))
}

#[test]
fn numbers_are_read_in_two_looks_at_the_file() {
    // The file changes between the two.
    let mut tape = Tape::new(vec![
        state_file("internal_display_id=4\nknown_display_id=1\n"),
        state_file("internal_display_id=5\nknown_display_id=2\n"),
    ]);
    assert_eq!(remembered_display_ids(&mut tape).unwrap(), Ok(vec![2, 4]));
    // It cannot be read the second time.
    let mut tape = Tape::new(vec![
        state_file("internal_display_id=4\n"),
        Reply::Text(Err(failed("gone bad"))),
    ]);
    assert_eq!(
        remembered_display_ids(&mut tape).unwrap(),
        Err("gone bad".to_string())
    );
}

#[test]
fn the_panel_is_summed_up_in_three_looks_at_the_file() {
    let mut tape = Tape::new(vec![
        state_file("internal_id=A\ninternal_serial=1\ninternal_display_id=1\n"),
        state_file("internal_id=B\ninternal_serial=2\ninternal_display_id=2\n"),
        state_file("internal_id=C\ninternal_serial=3\ninternal_display_id=3\n"),
    ]);
    assert_eq!(
        remembered_internal_summary(&mut tape).unwrap(),
        Ok(Some(
            "remembered internal id:A display_id:3 serial:2".to_string()
        ))
    );
    let mut tape = Tape::new(vec![state_file(""), state_file("")]);
    assert!(matches!(
        remembered_internal_summary(&mut tape),
        Err(Effect::ReadFile(_))
    ));
}

#[test]
fn a_procedure_that_stops_leaves_the_replies() {
    let args = vec!["safe-reset".to_string()];
    for known in 0..4 {
        let replies: Vec<Reply> = (0..known).map(|_| Reply::Done(Ok(()))).collect();
        let mut tape = Tape::new(replies);
        let _ = run(&mut tape, &args);
        assert_eq!(tape.into_replies().len(), known);
    }
}

#[test]
fn a_longer_tape_is_read_as_the_shorter_one_first() {
    let replies = || {
        vec![
            state_file("internal_display_id=4\n"),
            state_file("known_display_id=2\n"),
        ]
    };
    let short = remembered_display_ids(&mut Tape::new(replies())).unwrap();
    let mut longer = replies();
    longer.push(state_file("known_display_id=9\n"));
    let mut tape = Tape::new(longer);
    assert_eq!(remembered_display_ids(&mut tape).unwrap(), short);
    // The further reply is still there to be read.
    assert_eq!(
        tape.ask_text(Effect::SearchPath).unwrap(),
        Ok("known_display_id=9\n".to_string())
    );
}

#[test]
fn the_upper_part_is_drawn_before_the_panel_is_looked_up() {
    let mut world = World::new("");
    world.drive(interactive_mode).unwrap();
    // The state file can be read no more: the list is written, then the mode ends.
    world.disk_error = Some("no disk".to_string());
    let ui = Ui {
        targets: vec![],
        selected: 0,
        show_help: false,
        status: "ready".to_string(),
        parsed: None,
        width: 80,
        stage: Stage::Show,
        refresh: false,
        render: true,
    };
    assert_eq!(
        world
            .drive(|tape| interactive_step(tape, &ui))
            .err()
            .unwrap(),
        "no disk"
    );
    assert_eq!(world.screens.len(), 1);
    assert_eq!(
        text_of(&world.written),
        "displayed  auto:inactive  targets:0\r\n\r\nDisplay state unavailable.\r\n"
    );
}

#[test]
fn the_opening_does_not_turn_the_last_display_off() {
    // The target is listed as on, and so is nothing else.
    let mut world = World::new(MONITOR_ON);
    world.targets = saved_monitor();
    let ui = world.drive(interactive_mode).unwrap();
    assert_eq!(ui.status, "ready");
    assert_eq!(world.done, vec!["events 5"]);
}

#[test]
fn recovery_never_rearranges() {
    for line in ["guard", "safe-reset", "guard --quiet --reason launchd"] {
        let mut world = World::new(&format!("{PANEL_OFF}\n{MONITOR_OFF}"));
        world.state = Some("known_display_id=2\n".to_string());
        world.command(line).unwrap();
        let switched: Vec<&String> = world
            .done
            .iter()
            .filter(|done| done.starts_with("displayplacer"))
            .collect();
        assert!(!switched.is_empty(), "{line}");
        for done in switched {
            assert!(
                done.starts_with("displayplacer id:") && done.ends_with(" enabled:true"),
                "{done}"
            );
        }
    }
}
