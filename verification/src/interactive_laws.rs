//! What holds of the interactive mode, and of the options of the commands.

use vstd::prelude::*;

use crate::effect;
use crate::effect::{Course, EffectView, Input, Key, ReplyView};
use crate::install;
use crate::interactive;
use crate::interactive::{Stage, UiView};
use crate::options;
use crate::options::{InstallOptions, UninstallOptions, WatchOptionsView};
use crate::policy::ActionMode;
use crate::watching;

verus! {

// ---------------------------------------------------------------------------
// The selection.
// ---------------------------------------------------------------------------
/// The selection is a row of the list, where there are rows.
pub open spec fn in_list(ui: UiView) -> bool {
    match ui.parsed {
        Some(parsed) => parsed.displays.len() > 0 ==> ui.selected < parsed.displays.len(),
        None => true,
    }
}

/// The rows and the selection are as they were.
pub open spec fn same_rows(ui: UiView, next: UiView) -> bool {
    next.parsed == ui.parsed && next.selected == ui.selected
}

proof fn lemma_refreshed(ui: UiView, t: Seq<ReplyView>)
    ensures
        interactive::list_refreshed(ui, t) matches Course::Ends(next, _) ==> in_list(next),
{
}

proof fn lemma_reset(ui: UiView, t: Seq<ReplyView>)
    ensures
        interactive::reset_pressed(ui, t) matches Course::Ends(next, _) ==> same_rows(ui, next),
{
}

proof fn lemma_internal(ui: UiView, t: Seq<ReplyView>)
    ensures
        interactive::internal_pressed(ui, t) matches Course::Ends(next, _) ==> same_rows(ui, next),
{
}

proof fn lemma_toggle(ui: UiView, t: Seq<ReplyView>)
    ensures
        interactive::toggle_pressed(ui, t) matches Course::Ends(next, _) ==> same_rows(ui, next),
{
}

proof fn lemma_target(ui: UiView, t: Seq<ReplyView>)
    ensures
        interactive::target_pressed(ui, t) matches Course::Ends(r, _) ==> (r matches Ok(next)
            ==> same_rows(ui, next)),
{
}

#[verifier::spinoff_prover]
#[verifier::rlimit(60)]
proof fn lemma_key(ui: UiView, key: Key, t: Seq<ReplyView>)
    requires
        in_list(ui),
    ensures
        interactive::key_pressed(ui, key, t) matches Course::Ends(r, _) ==> (r matches Ok(next)
            ==> (next matches Some(next) ==> in_list(next))),
{
    lemma_reset(ui, t);
    lemma_internal(ui, t);
    lemma_toggle(ui, t);
    lemma_target(ui, t);
}

proof fn lemma_displays(ui: UiView, t: Seq<ReplyView>)
    ensures
        interactive::display_stage(ui, t) matches Course::Ends(next, _) ==> same_rows(ui, next),
{
}

proof fn lemma_power(ui: UiView, t: Seq<ReplyView>)
    ensures
        interactive::power_stage(ui, t) matches Course::Ends(next, _) ==> same_rows(ui, next),
{
}

/// No step takes the selection out of the list.
pub proof fn selection_stays_in_the_list(ui: UiView, t: Seq<ReplyView>)
    requires
        in_list(ui),
    ensures
        interactive::stepped(ui, t) matches Course::Ends(r, _) ==> (r matches Ok(next) ==> (
        next matches Some(next) ==> in_list(next))),
{
    match ui.stage {
        Stage::Input => {
            if t.len() > 0 {
                if let Ok(input) = effect::as_input(t[0]) {
                    if let Some(Input::Key(key, _)) = input {
                        lemma_key(ui.at(Stage::Displays), key, t.skip(1));
                    }
                }
            }
        },
        Stage::Displays => {
            lemma_displays(ui, t);
        },
        Stage::Power => {
            lemma_power(ui, t);
        },
        Stage::Show => {
            lemma_refreshed(ui, t);
        },
    }
}

/// The interactive mode opens with the selection in the list.
pub proof fn selection_starts_in_the_list(ui: UiView, t: Seq<ReplyView>)
    ensures
        interactive::first_loaded(ui, t) matches Course::Ends(next, _) ==> in_list(next),
{
    lemma_refreshed(ui, t);
    if let Course::Ends(ui1, t1) = interactive::list_refreshed(ui, t) {
        if let Course::Ends(columns, t2) = effect::asks_columns(EffectView::TerminalSize, t1) {
            let ui2 = UiView { width: interactive::width_of(columns), ..ui1 };
            if let Course::Ends(r, t3) = watching::recovered(
                ui2.targets,
                ActionMode::Execute,
                false,
                false,
                t2,
            ) {
                lemma_refreshed(ui2.saying("auto target matched; internal disabled"@), t3);
                lemma_refreshed(ui2.saying("internal restore requested"@), t3);
            }
        }
    }
}

/// While the help is shown, a key closes it and does nothing else; only an
/// interrupt ends the mode.
pub proof fn any_key_only_closes_the_help(ui: UiView, key: Key, control: bool, t: Seq<ReplyView>)
    requires
        ui.show_help,
        !(key == Key::Char('c') && control),
    ensures
        interactive::input_handled(ui, Input::Key(key, control), t) == Course::<
            Result<Option<UiView>, Seq<char>>,
        >::Ends(Ok(Some(UiView { show_help: false, render: true, ..ui })), t),
{
}

/// Moving down and up again selects the same row.
pub proof fn up_undoes_down(ui: UiView)
    requires
        ui.parsed is Some,
        ui.selected + 1 < ui.parsed->0.displays.len(),
    ensures
        interactive::moved_up(interactive::moved_down(ui)).selected == ui.selected,
{
}

// ---------------------------------------------------------------------------
// Options.
// ---------------------------------------------------------------------------
/// The guard runs every five seconds at most often.
pub proof fn guard_interval_has_a_minimum(args: Seq<Seq<char>>, o: InstallOptions)
    requires
        o.interval >= 5,
    ensures
        options::install_given(args, o) matches Ok(given) ==> given.interval >= 5,
    decreases args.len(),
{
    if args.len() > 0 {
        guard_interval_has_a_minimum(args.skip(1), InstallOptions { load: false, ..o });
        guard_interval_has_a_minimum(
            args.skip(1),
            InstallOptions { mode: ActionMode::DryRun, ..o },
        );
        if args.len() >= 2 {
            if let Ok(n) = crate::number::u64_value(args[1]) {
                guard_interval_has_a_minimum(
                    args.skip(2),
                    InstallOptions {
                        interval: if n < 5 {
                            5
                        } else {
                            n
                        },
                        ..o
                    },
                );
            }
        }
    }
}

/// A watcher reconciles every second at most often.
pub proof fn watch_interval_has_a_minimum(args: Seq<Seq<char>>, o: WatchOptionsView)
    requires
        o.interval >= 1,
    ensures
        options::watch_given(args, o) matches Ok(given) ==> given.interval >= 1,
    decreases args.len(),
{
    if args.len() > 0 {
        watch_interval_has_a_minimum(
            args.skip(1),
            WatchOptionsView { mode: ActionMode::DryRun, ..o },
        );
        watch_interval_has_a_minimum(args.skip(1), WatchOptionsView { force: true, ..o });
        if args.len() >= 2 {
            watch_interval_has_a_minimum(
                args.skip(2),
                WatchOptionsView { target: Some(args[1]), ..o },
            );
            if let Ok(n) = crate::number::u64_value(args[1]) {
                watch_interval_has_a_minimum(
                    args.skip(2),
                    WatchOptionsView {
                        interval: if n < 1 {
                            1
                        } else {
                            n
                        },
                        ..o
                    },
                );
            }
        }
    }
}

// ---------------------------------------------------------------------------
// Dry runs of the installation.
// ---------------------------------------------------------------------------
/// The effect leaves files and agents alone.
pub open spec fn leaves_files_alone(e: EffectView) -> bool {
    match e {
        EffectView::WriteFile(_, _) => false,
        EffectView::AppendFile(_, _) => false,
        EffectView::RemoveFile(_) => false,
        EffectView::CreateDir(_) => false,
        EffectView::Run { program, arguments } => false,
        EffectView::Spawn { program, arguments } => false,
        _ => true,
    }
}

/// A dry run of the installation writes nothing and runs nothing.
pub proof fn dry_install_writes_nothing(o: InstallOptions, t: Seq<ReplyView>)
    requires
        o.mode == ActionMode::DryRun,
    ensures
        install::guard_installed(o, t) matches Course::Asks(e) ==> leaves_files_alone(e),
{
}

/// A dry run of the removal removes nothing and runs nothing.
pub proof fn dry_uninstall_removes_nothing(o: UninstallOptions, t: Seq<ReplyView>)
    requires
        o.mode == ActionMode::DryRun,
    ensures
        install::guard_uninstalled(o, t) matches Course::Asks(e) ==> leaves_files_alone(e),
{
}

} // verus!
