//! Installing the guard, and removing it.

use vstd::prelude::*;

use crate::agent;
use crate::agent::{guard_environment_path, launch_agent_plist, GUARD_LABEL};
use crate::commands;
use crate::commands::run_command_with_timeout;
use crate::effect;
use crate::effect::{say, Course, Effect, EffectView, ReplyView, Shown, Tape};
use crate::options;
use crate::options::{install_options, uninstall_options, InstallOptions, UninstallOptions};
use crate::path;
use crate::path::{launch_agents_dir, logs_dir, FilePath, FilePathView};
use crate::placer::CaptureView;
use crate::policy::ActionMode;
use crate::text;
use crate::text::{
    borrow_opt, cat2, cat3, cat4, cat5, copy_texts, join, list1, list2, list3, list5, owned, trim,
};

verus! {

// ---------------------------------------------------------------------------
// `launchctl`.
// ---------------------------------------------------------------------------
/// What the output of `id -u` says of the domain of the user's agents.
pub open spec fn domain_in(r: Result<CaptureView, Seq<char>>) -> Result<Seq<char>, Seq<char>> {
    match r {
        Err(error) => Err(error),
        Ok(capture) => if !capture.success {
            Err("id -u failed"@)
        } else {
            Ok("gui/"@ + text::trimmed(capture.stdout))
        },
    }
}

/// The domain of the user's agents is asked for.
pub open spec fn domain_found(t: Seq<ReplyView>) -> Course<Result<Seq<char>, Seq<char>>> {
    match commands::timed_run("id"@, seq!["-u"@], 1000, t) {
        Course::Asks(e) => Course::Asks(e),
        Course::Ends(r, t) => Course::Ends(domain_in(r), t),
    }
}

/// Asks for the domain of the user's agents.
pub fn launchd_gui_domain(tape: &mut Tape) -> (r: Result<Result<String, String>, Effect>)
    ensures
        effect::course(r, final(tape).rest()) == domain_found(old(tape).rest()),
        final(tape).all() == old(tape).all(),
{
    let arguments = list1("-u");
    match run_command_with_timeout(tape, "id", &arguments, 1000) {
        Err(e) => Err(e),
        Ok(Err(error)) => Ok(Err(error)),
        Ok(Ok(capture)) => {
            if !capture.success {
                return Ok(Err(owned("id -u failed")));
            }
            let uid = trim(capture.stdout.as_str());
            Ok(Ok(cat2("gui/", uid.as_str())))
        },
    }
}

/// What is said of a `launchctl` that failed.
pub open spec fn launchctl_failure(arguments: Seq<Seq<char>>, capture: CaptureView) -> Seq<char> {
    "launchctl "@ + text::joined(arguments, " "@) + " failed with status "@ + capture.status
        + ":\n"@ + capture.stdout + capture.stderr
}

/// `launchctl` is run, and must succeed.
pub open spec fn launchctl_ran(arguments: Seq<Seq<char>>, t: Seq<ReplyView>) -> Course<
    Result<(), Seq<char>>,
> {
    match effect::asks_ran(EffectView::Run { program: "launchctl"@, arguments }, t) {
        Course::Asks(e) => Course::Asks(e),
        Course::Ends(r, t) => match r {
            Err(error) => Course::Ends(Err(error), t),
            Ok(capture) => if capture.success {
                Course::Ends(Ok(()), t)
            } else {
                Course::Ends(Err(launchctl_failure(arguments, capture)), t)
            },
        },
    }
}

/// Runs `launchctl`, which must succeed.
pub fn run_launchctl(tape: &mut Tape, arguments: &Vec<String>) -> (r: Result<
    Result<(), String>,
    Effect,
>)
    ensures
        effect::course(r, final(tape).rest()) == launchctl_ran(
            text::texts(arguments@),
            old(tape).rest(),
        ),
        final(tape).all() == old(tape).all(),
{
    let capture = match tape.ask_ran(
        Effect::Run { program: owned("launchctl"), arguments: copy_texts(arguments) },
    ) {
        Err(e) => return Err(e),
        Ok(Err(error)) => return Ok(Err(error)),
        Ok(Ok(capture)) => capture,
    };
    if capture.success {
        return Ok(Ok(()));
    }
    let words = join(arguments, " ");
    let mut message = cat5(
        "launchctl ",
        words.as_str(),
        " failed with status ",
        capture.status.as_str(),
        ":\n",
    );
    message.append(capture.stdout.as_str());
    message.append(capture.stderr.as_str());
    Ok(Err(message))
}

/// An agent is unloaded; whether it was loaded does not matter.
pub open spec fn agent_unloaded(label: Seq<char>, mode: ActionMode, t: Seq<ReplyView>) -> Course<
    Result<(), Seq<char>>,
> {
    if mode == ActionMode::DryRun {
        match effect::said("dry-run: launchctl bootout gui/<uid>/"@ + label, t) {
            Course::Asks(e) => Course::Asks(e),
            Course::Ends(_, t) => Course::Ends(Ok(()), t),
        }
    } else {
        match domain_found(t) {
            Course::Asks(e) => Course::Asks(e),
            Course::Ends(r, t) => match r {
                Err(error) => Course::Ends(Err(error), t),
                Ok(domain) => match effect::asks_any(
                    EffectView::Run {
                        program: "launchctl"@,
                        arguments: seq!["bootout"@, domain + "/"@ + label],
                    },
                    t,
                ) {
                    Course::Asks(e) => Course::Asks(e),
                    Course::Ends(_, t) => Course::Ends(Ok(()), t),
                },
            },
        }
    }
}

/// Unloads an agent.
pub fn unload_launch_agent(tape: &mut Tape, label: &str, mode: ActionMode) -> (r: Result<
    Result<(), String>,
    Effect,
>)
    ensures
        effect::course(r, final(tape).rest()) == agent_unloaded(label@, mode, old(tape).rest()),
        final(tape).all() == old(tape).all(),
{
    if mode == ActionMode::DryRun {
        let line = cat2("dry-run: launchctl bootout gui/<uid>/", label);
        return match say(tape, line.as_str()) {
            Err(e) => Err(e),
            Ok(_) => Ok(Ok(())),
        };
    }
    let domain = match launchd_gui_domain(tape) {
        Err(e) => return Err(e),
        Ok(Err(error)) => return Ok(Err(error)),
        Ok(Ok(domain)) => domain,
    };
    let service = cat3(domain.as_str(), "/", label);
    match tape.ask_any(
        Effect::Run {
            program: owned("launchctl"),
            arguments: list2("bootout", service.as_str()),
        },
    ) {
        Err(e) => Err(e),
        Ok(_) => Ok(Ok(())),
    }
}

/// An agent is announced to be loaded.
pub open spec fn load_announced(label: Seq<char>, plist: Seq<char>, t: Seq<ReplyView>) -> Course<
    Result<(), Seq<char>>,
> {
    match effect::said("dry-run: launchctl bootstrap gui/<uid> "@ + plist, t) {
        Course::Asks(e) => Course::Asks(e),
        Course::Ends(_, t) => match effect::said(
            "dry-run: launchctl kickstart -k gui/<uid>/"@ + label,
            t,
        ) {
            Course::Asks(e) => Course::Asks(e),
            Course::Ends(_, t) => Course::Ends(Ok(()), t),
        },
    }
}

/// An agent is loaded anew from its property list, and started.
pub open spec fn agent_loaded(
    label: Seq<char>,
    plist: Seq<char>,
    mode: ActionMode,
    t: Seq<ReplyView>,
) -> Course<Result<(), Seq<char>>> {
    if mode == ActionMode::DryRun {
        load_announced(label, plist, t)
    } else {
        match agent_unloaded(label, mode, t) {
            Course::Asks(e) => Course::Asks(e),
            Course::Ends(r, t) => match r {
                Err(error) => Course::Ends(Err(error), t),
                Ok(_) => match domain_found(t) {
                    Course::Asks(e) => Course::Asks(e),
                    Course::Ends(r, t) => match r {
                        Err(error) => Course::Ends(Err(error), t),
                        Ok(domain) => agent_started(label, plist, domain, t),
                    },
                },
            },
        }
    }
}

/// An agent is loaded into a domain, and started.
pub open spec fn agent_started(
    label: Seq<char>,
    plist: Seq<char>,
    domain: Seq<char>,
    t: Seq<ReplyView>,
) -> Course<Result<(), Seq<char>>> {
    match launchctl_ran(seq!["bootstrap"@, domain, plist], t) {
        Course::Asks(e) => Course::Asks(e),
        Course::Ends(r, t) => match r {
            Err(error) => Course::Ends(Err(error), t),
            Ok(_) => match launchctl_ran(
                seq!["kickstart"@, "-k"@, domain + "/"@ + label],
                t,
            ) {
                Course::Asks(e) => Course::Asks(e),
                Course::Ends(r, t) => match r {
                    Err(error) => Course::Ends(Err(error), t),
                    Ok(_) => match effect::said("loaded "@ + domain + "/"@ + label, t) {
                        Course::Asks(e) => Course::Asks(e),
                        Course::Ends(_, t) => Course::Ends(Ok(()), t),
                    },
                },
            },
        },
    }
}

fn start_agent(tape: &mut Tape, label: &str, plist: &str, domain: &str) -> (r: Result<
    Result<(), String>,
    Effect,
>)
    ensures
        effect::course(r, final(tape).rest()) == agent_started(
            label@,
            plist@,
            domain@,
            old(tape).rest(),
        ),
        final(tape).all() == old(tape).all(),
{
    let arguments = list3("bootstrap", domain, plist);
    match run_launchctl(tape, &arguments) {
        Err(e) => return Err(e),
        Ok(Err(error)) => return Ok(Err(error)),
        Ok(Ok(_)) => {},
    }
    let service = cat3(domain, "/", label);
    let arguments = list3("kickstart", "-k", service.as_str());
    match run_launchctl(tape, &arguments) {
        Err(e) => return Err(e),
        Ok(Err(error)) => return Ok(Err(error)),
        Ok(Ok(_)) => {},
    }
    let line = cat4("loaded ", domain, "/", label);
    match say(tape, line.as_str()) {
        Err(e) => Err(e),
        Ok(_) => Ok(Ok(())),
    }
}

/// Loads an agent anew from its property list, and starts it.
pub fn load_launch_agent(tape: &mut Tape, label: &str, plist: &str, mode: ActionMode) -> (r: Result<
    Result<(), String>,
    Effect,
>)
    ensures
        effect::course(r, final(tape).rest()) == agent_loaded(
            label@,
            plist@,
            mode,
            old(tape).rest(),
        ),
        final(tape).all() == old(tape).all(),
{
    if mode == ActionMode::DryRun {
        let line = cat2("dry-run: launchctl bootstrap gui/<uid> ", plist);
        match say(tape, line.as_str()) {
            Err(e) => return Err(e),
            Ok(_) => {},
        }
        let line = cat2("dry-run: launchctl kickstart -k gui/<uid>/", label);
        return match say(tape, line.as_str()) {
            Err(e) => Err(e),
            Ok(_) => Ok(Ok(())),
        };
    }
    match unload_launch_agent(tape, label, mode) {
        Err(e) => return Err(e),
        Ok(Err(error)) => return Ok(Err(error)),
        Ok(Ok(_)) => {},
    }
    match launchd_gui_domain(tape) {
        Err(e) => Err(e),
        Ok(Err(error)) => Ok(Err(error)),
        Ok(Ok(domain)) => start_agent(tape, label, plist, domain.as_str()),
    }
}

// ---------------------------------------------------------------------------
// Installing.
// ---------------------------------------------------------------------------
/// The property list of the guard.
pub open spec fn guard_plist_place() -> FilePathView {
    path::agents_place().inside(GUARD_LABEL@ + ".plist"@)
}

fn guard_plist_path() -> (r: FilePath)
    ensures
        r@ == guard_plist_place(),
{
    let name = cat2(GUARD_LABEL, ".plist");
    let dir = launch_agents_dir();
    dir.child(name.as_str())
}

/// The property list of the guard, as text: it runs at load and at the
/// interval, and is not kept alive.
pub open spec fn guard_plist(
    exe: Seq<char>,
    interval: u64,
    out_log: Seq<char>,
    err_log: Seq<char>,
    search_path: Option<Seq<char>>,
) -> Seq<char> {
    agent::plist_text(
        GUARD_LABEL@,
        seq![exe, "guard"@, "--reason"@, "launchd"@, "--quiet"@],
        Some(interval),
        false,
        out_log,
        err_log,
        text::joined(agent::guard_dirs(search_path), ":"@),
    )
}

/// What the property list of the guard needs to know: its own path, and its
/// text.
#[derive(Debug)]
pub struct GuardPlist {
    pub shown: String,
    pub body: String,
}

/// What it holds, as plain text.
#[verifier::ext_equal]
pub struct GuardPlistView {
    pub shown: Seq<char>,
    pub body: Seq<char>,
}

impl Shown for GuardPlist {
    type Plain = GuardPlistView;

    open spec fn shown(&self) -> GuardPlistView {
        GuardPlistView { shown: self.shown@, body: self.body@ }
    }
}

/// The property list of the guard is put together.
pub open spec fn plist_made(interval: u64, t: Seq<ReplyView>) -> Course<
    Result<GuardPlistView, Seq<char>>,
> {
    match effect::asks_text(EffectView::ExecutablePath, t) {
        Course::Asks(e) => Course::Asks(e),
        Course::Ends(r, t) => match r {
            Err(error) => Course::Ends(Err(error), t),
            Ok(exe) => match effect::asks_text(EffectView::ShowPath(guard_plist_place()), t) {
                Course::Asks(e) => Course::Asks(e),
                Course::Ends(r, t) => match r {
                    Err(error) => Course::Ends(Err(error), t),
                    Ok(shown) => plist_filled(exe, shown, interval, t),
                },
            },
        },
    }
}

/// The paths of the logs and the search path are asked for.
pub open spec fn plist_filled(
    exe: Seq<char>,
    shown: Seq<char>,
    interval: u64,
    t: Seq<ReplyView>,
) -> Course<Result<GuardPlistView, Seq<char>>> {
    match effect::asks_text(
        EffectView::ShowPath(path::logs_place().inside("displayed-guard.log"@)),
        t,
    ) {
        Course::Asks(e) => Course::Asks(e),
        Course::Ends(r, t) => match r {
            Err(error) => Course::Ends(Err(error), t),
            Ok(out_log) => match effect::asks_text(
                EffectView::ShowPath(path::logs_place().inside("displayed-guard.err.log"@)),
                t,
            ) {
                Course::Asks(e) => Course::Asks(e),
                Course::Ends(r, t) => match r {
                    Err(error) => Course::Ends(Err(error), t),
                    Ok(err_log) => match effect::asks_variable(EffectView::SearchPath, t) {
                        Course::Asks(e) => Course::Asks(e),
                        Course::Ends(search_path, t) => Course::Ends(
                            Ok(
                                GuardPlistView {
                                    shown,
                                    body: guard_plist(
                                        exe,
                                        interval,
                                        out_log,
                                        err_log,
                                        search_path,
                                    ),
                                },
                            ),
                            t,
                        ),
                    },
                },
            },
        },
    }
}

fn fill_plist(tape: &mut Tape, exe: &str, shown: String, interval: u64) -> (r: Result<
    Result<GuardPlist, String>,
    Effect,
>)
    ensures
        effect::course(r, final(tape).rest()) == plist_filled(
            exe@,
            shown@,
            interval,
            old(tape).rest(),
        ),
        final(tape).all() == old(tape).all(),
{
    let logs = logs_dir();
    let out_log = match tape.ask_text(Effect::ShowPath(logs.child("displayed-guard.log"))) {
        Err(e) => return Err(e),
        Ok(Err(error)) => return Ok(Err(error)),
        Ok(Ok(shown)) => shown,
    };
    let err_log = match tape.ask_text(Effect::ShowPath(logs.child("displayed-guard.err.log"))) {
        Err(e) => return Err(e),
        Ok(Err(error)) => return Ok(Err(error)),
        Ok(Ok(shown)) => shown,
    };
    let existing = match tape.ask_variable(Effect::SearchPath) {
        Err(e) => return Err(e),
        Ok(existing) => existing,
    };
    let path_env = guard_environment_path(borrow_opt(&existing));
    let arguments = list5(exe, "guard", "--reason", "launchd", "--quiet");
    let body = launch_agent_plist(
        GUARD_LABEL,
        &arguments,
        Some(interval),
        false,
        out_log.as_str(),
        err_log.as_str(),
        path_env.as_str(),
    );
    Ok(Ok(GuardPlist { shown, body }))
}

fn make_plist(tape: &mut Tape, interval: u64) -> (r: Result<Result<GuardPlist, String>, Effect>)
    ensures
        effect::course(r, final(tape).rest()) == plist_made(interval, old(tape).rest()),
        final(tape).all() == old(tape).all(),
{
    let exe = match tape.ask_text(Effect::ExecutablePath) {
        Err(e) => return Err(e),
        Ok(Err(error)) => return Ok(Err(error)),
        Ok(Ok(exe)) => exe,
    };
    match tape.ask_text(Effect::ShowPath(guard_plist_path())) {
        Err(e) => Err(e),
        Ok(Err(error)) => Ok(Err(error)),
        Ok(Ok(shown)) => fill_plist(tape, exe.as_str(), shown, interval),
    }
}

/// The property list of the guard is written, with the directories around it;
/// in a dry run it is printed.
pub open spec fn plist_written(
    plist: GuardPlistView,
    mode: ActionMode,
    t: Seq<ReplyView>,
) -> Course<
    Result<(), Seq<char>>,
> {
    if mode == ActionMode::DryRun {
        match effect::said("dry-run: write "@ + plist.shown, t) {
            Course::Asks(e) => Course::Asks(e),
            Course::Ends(_, t) => match effect::said(plist.body, t) {
                Course::Asks(e) => Course::Asks(e),
                Course::Ends(_, t) => Course::Ends(Ok(()), t),
            },
        }
    } else {
        match effect::asks_done(EffectView::CreateDir(path::agents_place()), t) {
            Course::Asks(e) => Course::Asks(e),
            Course::Ends(r, t) => match r {
                Err(error) => Course::Ends(Err(error), t),
                Ok(_) => match effect::asks_done(EffectView::CreateDir(path::logs_place()), t) {
                    Course::Asks(e) => Course::Asks(e),
                    Course::Ends(r, t) => match r {
                        Err(error) => Course::Ends(Err(error), t),
                        Ok(_) => match effect::asks_done(
                            EffectView::WriteFile(guard_plist_place(), plist.body),
                            t,
                        ) {
                            Course::Asks(e) => Course::Asks(e),
                            Course::Ends(r, t) => match r {
                                Err(error) => Course::Ends(Err(error), t),
                                Ok(_) => match effect::said("installed "@ + plist.shown, t) {
                                    Course::Asks(e) => Course::Asks(e),
                                    Course::Ends(_, t) => Course::Ends(Ok(()), t),
                                },
                            },
                        },
                    },
                },
            },
        }
    }
}

fn write_plist(tape: &mut Tape, plist: &GuardPlist, mode: ActionMode) -> (r: Result<
    Result<(), String>,
    Effect,
>)
    ensures
        effect::course(r, final(tape).rest()) == plist_written(
            plist.shown(),
            mode,
            old(tape).rest(),
        ),
        final(tape).all() == old(tape).all(),
{
    if mode == ActionMode::DryRun {
        let line = cat2("dry-run: write ", plist.shown.as_str());
        match say(tape, line.as_str()) {
            Err(e) => return Err(e),
            Ok(_) => {},
        }
        return match say(tape, plist.body.as_str()) {
            Err(e) => Err(e),
            Ok(_) => Ok(Ok(())),
        };
    }
    match tape.ask_done(Effect::CreateDir(launch_agents_dir())) {
        Err(e) => return Err(e),
        Ok(Err(error)) => return Ok(Err(error)),
        Ok(Ok(_)) => {},
    }
    match tape.ask_done(Effect::CreateDir(logs_dir())) {
        Err(e) => return Err(e),
        Ok(Err(error)) => return Ok(Err(error)),
        Ok(Ok(_)) => {},
    }
    match tape.ask_done(Effect::WriteFile(guard_plist_path(), plist.body.clone())) {
        Err(e) => return Err(e),
        Ok(Err(error)) => return Ok(Err(error)),
        Ok(Ok(_)) => {},
    }
    let line = cat2("installed ", plist.shown.as_str());
    match say(tape, line.as_str()) {
        Err(e) => Err(e),
        Ok(_) => Ok(Ok(())),
    }
}

/// The guard is installed, and on request loaded.
pub open spec fn guard_installed(o: InstallOptions, t: Seq<ReplyView>) -> Course<
    Result<(), Seq<char>>,
> {
    match plist_made(o.interval, t) {
        Course::Asks(e) => Course::Asks(e),
        Course::Ends(r, t) => match r {
            Err(error) => Course::Ends(Err(error), t),
            Ok(plist) => match plist_written(plist, o.mode, t) {
                Course::Asks(e) => Course::Asks(e),
                Course::Ends(r, t) => match r {
                    Err(error) => Course::Ends(Err(error), t),
                    Ok(_) => if o.load {
                        agent_loaded(GUARD_LABEL@, plist.shown, o.mode, t)
                    } else {
                        Course::Ends(Ok(()), t)
                    },
                },
            },
        },
    }
}

/// The command `install-guard`.
pub open spec fn install_run(args: Seq<Seq<char>>, t: Seq<ReplyView>) -> Course<
    Result<(), Seq<char>>,
> {
    match options::install_given(args, options::install_defaults()) {
        Err(error) => Course::Ends(Err(error), t),
        Ok(o) => guard_installed(o, t),
    }
}

/// Installs the guard.
pub fn install_guard(tape: &mut Tape, args: &Vec<String>) -> (r: Result<Result<(), String>, Effect>)
    ensures
        effect::course(r, final(tape).rest()) == install_run(
            text::texts(args@),
            old(tape).rest(),
        ),
        final(tape).all() == old(tape).all(),
{
    let o = match install_options(args) {
        Err(error) => return Ok(Err(error)),
        Ok(o) => o,
    };
    let plist = match make_plist(tape, o.interval) {
        Err(e) => return Err(e),
        Ok(Err(error)) => return Ok(Err(error)),
        Ok(Ok(plist)) => plist,
    };
    match write_plist(tape, &plist, o.mode) {
        Err(e) => return Err(e),
        Ok(Err(error)) => return Ok(Err(error)),
        Ok(Ok(_)) => {},
    }
    if o.load {
        return load_launch_agent(tape, GUARD_LABEL, plist.shown.as_str(), o.mode);
    }
    Ok(Ok(()))
}

// ---------------------------------------------------------------------------
// Uninstalling.
// ---------------------------------------------------------------------------
/// The property list of the guard is removed, where there is one; in a dry run
/// it is only said.
pub open spec fn plist_removed(shown: Seq<char>, mode: ActionMode, t: Seq<ReplyView>) -> Course<
    Result<(), Seq<char>>,
> {
    if mode == ActionMode::DryRun {
        match effect::said("dry-run: remove "@ + shown, t) {
            Course::Asks(e) => Course::Asks(e),
            Course::Ends(_, t) => Course::Ends(Ok(()), t),
        }
    } else {
        match effect::asks_flag(EffectView::PathExists(guard_plist_place()), t) {
            Course::Asks(e) => Course::Asks(e),
            Course::Ends(there, t) => if !there {
                Course::Ends(Ok(()), t)
            } else {
                match effect::asks_done(EffectView::RemoveFile(guard_plist_place()), t) {
                    Course::Asks(e) => Course::Asks(e),
                    Course::Ends(r, t) => match r {
                        Err(error) => Course::Ends(Err(error), t),
                        Ok(_) => match effect::said("removed "@ + shown, t) {
                            Course::Asks(e) => Course::Asks(e),
                            Course::Ends(_, t) => Course::Ends(Ok(()), t),
                        },
                    },
                }
            },
        }
    }
}

fn remove_plist(tape: &mut Tape, shown: &str, mode: ActionMode) -> (r: Result<
    Result<(), String>,
    Effect,
>)
    ensures
        effect::course(r, final(tape).rest()) == plist_removed(shown@, mode, old(tape).rest()),
        final(tape).all() == old(tape).all(),
{
    if mode == ActionMode::DryRun {
        let line = cat2("dry-run: remove ", shown);
        return match say(tape, line.as_str()) {
            Err(e) => Err(e),
            Ok(_) => Ok(Ok(())),
        };
    }
    match tape.ask_flag(Effect::PathExists(guard_plist_path())) {
        Err(e) => return Err(e),
        Ok(there) => {
            if !there {
                return Ok(Ok(()));
            }
        },
    }
    match tape.ask_done(Effect::RemoveFile(guard_plist_path())) {
        Err(e) => return Err(e),
        Ok(Err(error)) => return Ok(Err(error)),
        Ok(Ok(_)) => {},
    }
    let line = cat2("removed ", shown);
    match say(tape, line.as_str()) {
        Err(e) => Err(e),
        Ok(_) => Ok(Ok(())),
    }
}

/// The guard is unloaded on request, and its property list removed.
pub open spec fn guard_uninstalled(o: UninstallOptions, t: Seq<ReplyView>) -> Course<
    Result<(), Seq<char>>,
> {
    match effect::asks_text(EffectView::ShowPath(guard_plist_place()), t) {
        Course::Asks(e) => Course::Asks(e),
        Course::Ends(r, t) => match r {
            Err(error) => Course::Ends(Err(error), t),
            Ok(shown) => if o.unload {
                match agent_unloaded(GUARD_LABEL@, o.mode, t) {
                    Course::Asks(e) => Course::Asks(e),
                    Course::Ends(r, t) => match r {
                        Err(error) => Course::Ends(Err(error), t),
                        Ok(_) => plist_removed(shown, o.mode, t),
                    },
                }
            } else {
                plist_removed(shown, o.mode, t)
            },
        },
    }
}

/// The command `uninstall-guard`.
pub open spec fn uninstall_run(args: Seq<Seq<char>>, t: Seq<ReplyView>) -> Course<
    Result<(), Seq<char>>,
> {
    match options::uninstall_given(args, options::uninstall_defaults()) {
        Err(error) => Course::Ends(Err(error), t),
        Ok(o) => guard_uninstalled(o, t),
    }
}

/// Uninstalls the guard.
pub fn uninstall_guard(tape: &mut Tape, args: &Vec<String>) -> (r: Result<
    Result<(), String>,
    Effect,
>)
    ensures
        effect::course(r, final(tape).rest()) == uninstall_run(
            text::texts(args@),
            old(tape).rest(),
        ),
        final(tape).all() == old(tape).all(),
{
    let o = match uninstall_options(args) {
        Err(error) => return Ok(Err(error)),
        Ok(o) => o,
    };
    let shown = match tape.ask_text(Effect::ShowPath(guard_plist_path())) {
        Err(e) => return Err(e),
        Ok(Err(error)) => return Ok(Err(error)),
        Ok(Ok(shown)) => shown,
    };
    if o.unload {
        match unload_launch_agent(tape, GUARD_LABEL, o.mode) {
            Err(e) => return Err(e),
            Ok(Err(error)) => return Ok(Err(error)),
            Ok(Ok(_)) => {},
        }
    }
    remove_plist(tape, shown.as_str(), o.mode)
}

} // verus!
