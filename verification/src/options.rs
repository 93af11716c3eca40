//! The options of the commands.

use vstd::prelude::*;

use crate::effect::Shown;
use crate::number;
use crate::number::{parse_u32, parse_u64};
use crate::policy::ActionMode;
use crate::text;
use crate::text::{cat3, owned, same};

verus! {

/// The seconds between two reconciles of a watcher.
pub const DEFAULT_WATCH_INTERVAL_SECS: u64 = 60;

/// The seconds between two runs of the guard.
pub const DEFAULT_GUARD_INTERVAL_SECS: u64 = 30;

/// What a snapshot is asked for.
#[derive(Debug)]
pub struct SnapshotOptions {
    pub label: String,
    pub out: String,
}

/// What the options hold, as plain text.
#[verifier::ext_equal]
pub struct SnapshotOptionsView {
    pub label: Seq<char>,
    pub out: Seq<char>,
}

impl Shown for SnapshotOptions {
    type Plain = SnapshotOptionsView;

    open spec fn shown(&self) -> SnapshotOptionsView {
        SnapshotOptionsView {
            label: self.label@,
            out: self.out@,
        }
    }
}

/// The options of `snapshot` where none is given.
pub open spec fn snapshot_defaults() -> SnapshotOptionsView {
    SnapshotOptionsView {
        label: "state"@,
        out: "snapshots"@,
    }
}

/// The options of `snapshot` from its arguments, over those that are set already.
pub open spec fn snapshot_given(
    args: Seq<Seq<char>>,
    o: SnapshotOptionsView,
) -> Result<SnapshotOptionsView, Seq<char>>
    decreases args.len(),
{
    if args.len() == 0 {
        Ok(o)
    } else if args[0] == "--label"@ {
        if args.len() < 2 {
            Err("missing value after --label"@)
        } else {
            snapshot_given(args.skip(2), SnapshotOptionsView { label: args[1], ..o })
        }
    } else if args[0] == "--out"@ {
        if args.len() < 2 {
            Err("missing value after --out"@)
        } else {
            snapshot_given(args.skip(2), SnapshotOptionsView { out: args[1], ..o })
        }
    } else {
        Err("unknown snapshot option `"@ + args[0] + "`"@)
    }
}

/// Reads the options of `snapshot`.
pub fn snapshot_options(args: &Vec<String>) -> (r: Result<SnapshotOptions, String>)
    ensures
        r.shown() == snapshot_given(text::texts(args@), snapshot_defaults()),
{
    let ghost all = text::texts(args@);
    let mut o = SnapshotOptions {
        label: owned("state"),
        out: owned("snapshots"),
    };
    let mut i: usize = 0;
    assert(all.skip(0) =~= all);
    while i < args.len()
        invariant
            i <= args.len(),
            all == text::texts(args@),
            snapshot_given(all.skip(i as int), o.shown()) == snapshot_given(all, snapshot_defaults()),
        decreases args.len() - i,
    {
        let arg = args[i].as_str();
        assert(all.skip(i as int)[0] == arg@);
        assert(all.skip(i as int).skip(1) =~= all.skip(i + 1));
        if same(arg, "--label") {
            if args.len() - i < 2 {
                return Err(owned("missing value after --label"));
            }
            assert(all.skip(i as int)[1] == args[i + 1]@);
            assert(all.skip(i as int).skip(2) =~= all.skip(i + 2));
            o.label = args[i + 1].clone();
            i = i + 2;
        } else if same(arg, "--out") {
            if args.len() - i < 2 {
                return Err(owned("missing value after --out"));
            }
            assert(all.skip(i as int)[1] == args[i + 1]@);
            assert(all.skip(i as int).skip(2) =~= all.skip(i + 2));
            o.out = args[i + 1].clone();
            i = i + 2;
        } else {
            return Err(cat3("unknown snapshot option `", arg, "`"));
        }
    }
    Ok(o)
}

/// How the built-in display is to be turned off.
#[derive(Debug)]
pub struct DisableOptions {
    pub condition: Option<String>,
    pub mode: ActionMode,
    pub force: bool,
}

/// What the options hold, as plain text.
#[verifier::ext_equal]
pub struct DisableOptionsView {
    pub condition: Option<Seq<char>>,
    pub mode: ActionMode,
    pub force: bool,
}

impl Shown for DisableOptions {
    type Plain = DisableOptionsView;

    open spec fn shown(&self) -> DisableOptionsView {
        DisableOptionsView {
            condition: text::opt_text(self.condition),
            mode: self.mode,
            force: self.force,
        }
    }
}

/// The options of `disable-internal` where none is given.
pub open spec fn disable_defaults() -> DisableOptionsView {
    DisableOptionsView {
        condition: None,
        mode: ActionMode::Execute,
        force: false,
    }
}

/// The options of `disable-internal` from its arguments, over those that are set already.
pub open spec fn disable_given(
    args: Seq<Seq<char>>,
    o: DisableOptionsView,
) -> Result<DisableOptionsView, Seq<char>>
    decreases args.len(),
{
    if args.len() == 0 {
        Ok(o)
    } else if args[0] == "--when-id"@ || args[0] == "--when-serial"@ {
        if args.len() < 2 {
            Err("missing value after condition option"@)
        } else {
            disable_given(args.skip(2), DisableOptionsView { condition: Some(args[1]), ..o })
        }
    } else if args[0] == "--dry-run"@ {
        disable_given(args.skip(1), DisableOptionsView { mode: ActionMode::DryRun, ..o })
    } else if args[0] == "--force"@ {
        disable_given(args.skip(1), DisableOptionsView { force: true, ..o })
    } else {
        Err("unknown disable-internal option `"@ + args[0] + "`"@)
    }
}

/// Reads the options of `disable-internal`.
pub fn disable_options(args: &Vec<String>) -> (r: Result<DisableOptions, String>)
    ensures
        r.shown() == disable_given(text::texts(args@), disable_defaults()),
{
    let ghost all = text::texts(args@);
    let mut o = DisableOptions {
        condition: None,
        mode: ActionMode::Execute,
        force: false,
    };
    let mut i: usize = 0;
    assert(all.skip(0) =~= all);
    while i < args.len()
        invariant
            i <= args.len(),
            all == text::texts(args@),
            disable_given(all.skip(i as int), o.shown()) == disable_given(all, disable_defaults()),
        decreases args.len() - i,
    {
        let arg = args[i].as_str();
        assert(all.skip(i as int)[0] == arg@);
        assert(all.skip(i as int).skip(1) =~= all.skip(i + 1));
        if same(arg, "--when-id") || same(arg, "--when-serial") {
            if args.len() - i < 2 {
                return Err(owned("missing value after condition option"));
            }
            assert(all.skip(i as int)[1] == args[i + 1]@);
            assert(all.skip(i as int).skip(2) =~= all.skip(i + 2));
            o.condition = Some(args[i + 1].clone());
            i = i + 2;
        } else if same(arg, "--dry-run") {
            o.mode = ActionMode::DryRun;
            i = i + 1;
        } else if same(arg, "--force") {
            o.force = true;
            i = i + 1;
        } else {
            return Err(cat3("unknown disable-internal option `", arg, "`"));
        }
    }
    Ok(o)
}

/// How the built-in display is to be enabled.
#[derive(Debug)]
pub struct EnableOptions {
    pub id: Option<String>,
    pub mode: ActionMode,
}

/// What the options hold, as plain text.
#[verifier::ext_equal]
pub struct EnableOptionsView {
    pub id: Option<Seq<char>>,
    pub mode: ActionMode,
}

impl Shown for EnableOptions {
    type Plain = EnableOptionsView;

    open spec fn shown(&self) -> EnableOptionsView {
        EnableOptionsView {
            id: text::opt_text(self.id),
            mode: self.mode,
        }
    }
}

/// The options of `enable-internal` where none is given.
pub open spec fn enable_defaults() -> EnableOptionsView {
    EnableOptionsView {
        id: None,
        mode: ActionMode::Execute,
    }
}

/// The options of `enable-internal` from its arguments, over those that are set already.
pub open spec fn enable_given(
    args: Seq<Seq<char>>,
    o: EnableOptionsView,
) -> Result<EnableOptionsView, Seq<char>>
    decreases args.len(),
{
    if args.len() == 0 {
        Ok(o)
    } else if args[0] == "--id"@ {
        if args.len() < 2 {
            Err("missing value after --id"@)
        } else {
            enable_given(args.skip(2), EnableOptionsView { id: Some(args[1]), ..o })
        }
    } else if args[0] == "--dry-run"@ {
        enable_given(args.skip(1), EnableOptionsView { mode: ActionMode::DryRun, ..o })
    } else {
        Err("unknown enable-internal option `"@ + args[0] + "`"@)
    }
}

/// Reads the options of `enable-internal`.
pub fn enable_options(args: &Vec<String>) -> (r: Result<EnableOptions, String>)
    ensures
        r.shown() == enable_given(text::texts(args@), enable_defaults()),
{
    let ghost all = text::texts(args@);
    let mut o = EnableOptions {
        id: None,
        mode: ActionMode::Execute,
    };
    let mut i: usize = 0;
    assert(all.skip(0) =~= all);
    while i < args.len()
        invariant
            i <= args.len(),
            all == text::texts(args@),
            enable_given(all.skip(i as int), o.shown()) == enable_given(all, enable_defaults()),
        decreases args.len() - i,
    {
        let arg = args[i].as_str();
        assert(all.skip(i as int)[0] == arg@);
        assert(all.skip(i as int).skip(1) =~= all.skip(i + 1));
        if same(arg, "--id") {
            if args.len() - i < 2 {
                return Err(owned("missing value after --id"));
            }
            assert(all.skip(i as int)[1] == args[i + 1]@);
            assert(all.skip(i as int).skip(2) =~= all.skip(i + 2));
            o.id = Some(args[i + 1].clone());
            i = i + 2;
        } else if same(arg, "--dry-run") {
            o.mode = ActionMode::DryRun;
            i = i + 1;
        } else {
            return Err(cat3("unknown enable-internal option `", arg, "`"));
        }
    }
    Ok(o)
}

/// How the built-in display is to be restored.
#[derive(Debug, Clone, Copy, PartialEq, Eq, Structural)]
pub struct RestoreOptions {
    pub display_id: Option<u32>,
    pub mode: ActionMode,
    pub fallback: bool,
}

impl Shown for RestoreOptions {
    type Plain = RestoreOptions;

    open spec fn shown(&self) -> RestoreOptions {
        *self
    }
}

/// The options of `restore-internal` where none is given.
pub open spec fn restore_defaults() -> RestoreOptions {
    RestoreOptions {
        display_id: None,
        mode: ActionMode::Execute,
        fallback: false,
    }
}

/// The options of `restore-internal` from its arguments, over those that are set already.
pub open spec fn restore_given(
    args: Seq<Seq<char>>,
    o: RestoreOptions,
) -> Result<RestoreOptions, Seq<char>>
    decreases args.len(),
{
    if args.len() == 0 {
        Ok(o)
    } else if args[0] == "--display-id"@ {
        if args.len() < 2 {
            Err("missing value after --display-id"@)
        } else {
            match number::u32_value(args[1]) {
                Ok(n) => restore_given(args.skip(2), RestoreOptions { display_id: Some(n), ..o }),
                Err(error) => Err(number::number_error_text(error)),
            }
        }
    } else if args[0] == "--dry-run"@ {
        restore_given(args.skip(1), RestoreOptions { mode: ActionMode::DryRun, ..o })
    } else if args[0] == "--displayplacer-fallback"@ {
        restore_given(args.skip(1), RestoreOptions { fallback: true, ..o })
    } else {
        Err("unknown restore-internal option `"@ + args[0] + "`"@)
    }
}

/// Reads the options of `restore-internal`.
pub fn restore_options(args: &Vec<String>) -> (r: Result<RestoreOptions, String>)
    ensures
        r.shown() == restore_given(text::texts(args@), restore_defaults()),
{
    let ghost all = text::texts(args@);
    let mut o = RestoreOptions {
        display_id: None,
        mode: ActionMode::Execute,
        fallback: false,
    };
    let mut i: usize = 0;
    assert(all.skip(0) =~= all);
    while i < args.len()
        invariant
            i <= args.len(),
            all == text::texts(args@),
            restore_given(all.skip(i as int), o.shown()) == restore_given(all, restore_defaults()),
        decreases args.len() - i,
    {
        let arg = args[i].as_str();
        assert(all.skip(i as int)[0] == arg@);
        assert(all.skip(i as int).skip(1) =~= all.skip(i + 1));
        if same(arg, "--display-id") {
            if args.len() - i < 2 {
                return Err(owned("missing value after --display-id"));
            }
            assert(all.skip(i as int)[1] == args[i + 1]@);
            assert(all.skip(i as int).skip(2) =~= all.skip(i + 2));
            match parse_u32(args[i + 1].as_str()) {
                Ok(n) => {
                    o.display_id = Some(n);
                },
                Err(error) => return Err(error.message()),
            }
            i = i + 2;
        } else if same(arg, "--dry-run") {
            o.mode = ActionMode::DryRun;
            i = i + 1;
        } else if same(arg, "--displayplacer-fallback") {
            o.fallback = true;
            i = i + 1;
        } else {
            return Err(cat3("unknown restore-internal option `", arg, "`"));
        }
    }
    Ok(o)
}

/// Which display is to be restored.
#[derive(Debug, Clone, Copy, PartialEq, Eq, Structural)]
pub struct RestoreDisplayOptions {
    pub display_id: Option<u32>,
    pub mode: ActionMode,
}

impl Shown for RestoreDisplayOptions {
    type Plain = RestoreDisplayOptions;

    open spec fn shown(&self) -> RestoreDisplayOptions {
        *self
    }
}

/// The options of `restore-display` where none is given.
pub open spec fn restore_display_defaults() -> RestoreDisplayOptions {
    RestoreDisplayOptions {
        display_id: None,
        mode: ActionMode::Execute,
    }
}

/// The options of `restore-display` from its arguments, over those that are set already.
pub open spec fn restore_display_given(
    args: Seq<Seq<char>>,
    o: RestoreDisplayOptions,
) -> Result<RestoreDisplayOptions, Seq<char>>
    decreases args.len(),
{
    if args.len() == 0 {
        Ok(o)
    } else if args[0] == "--display-id"@ {
        if args.len() < 2 {
            Err("missing value after --display-id"@)
        } else {
            match number::u32_value(args[1]) {
                Ok(n) => restore_display_given(args.skip(2), RestoreDisplayOptions { display_id: Some(n), ..o }),
                Err(error) => Err(number::number_error_text(error)),
            }
        }
    } else if args[0] == "--dry-run"@ {
        restore_display_given(args.skip(1), RestoreDisplayOptions { mode: ActionMode::DryRun, ..o })
    } else {
        Err("unknown restore-display option `"@ + args[0] + "`"@)
    }
}

/// Reads the options of `restore-display`.
pub fn restore_display_options(args: &Vec<String>) -> (r: Result<RestoreDisplayOptions, String>)
    ensures
        r.shown() == restore_display_given(text::texts(args@), restore_display_defaults()),
{
    let ghost all = text::texts(args@);
    let mut o = RestoreDisplayOptions {
        display_id: None,
        mode: ActionMode::Execute,
    };
    let mut i: usize = 0;
    assert(all.skip(0) =~= all);
    while i < args.len()
        invariant
            i <= args.len(),
            all == text::texts(args@),
            restore_display_given(all.skip(i as int), o.shown()) == restore_display_given(all, restore_display_defaults()),
        decreases args.len() - i,
    {
        let arg = args[i].as_str();
        assert(all.skip(i as int)[0] == arg@);
        assert(all.skip(i as int).skip(1) =~= all.skip(i + 1));
        if same(arg, "--display-id") {
            if args.len() - i < 2 {
                return Err(owned("missing value after --display-id"));
            }
            assert(all.skip(i as int)[1] == args[i + 1]@);
            assert(all.skip(i as int).skip(2) =~= all.skip(i + 2));
            match parse_u32(args[i + 1].as_str()) {
                Ok(n) => {
                    o.display_id = Some(n);
                },
                Err(error) => return Err(error.message()),
            }
            i = i + 2;
        } else if same(arg, "--dry-run") {
            o.mode = ActionMode::DryRun;
            i = i + 1;
        } else {
            return Err(cat3("unknown restore-display option `", arg, "`"));
        }
    }
    Ok(o)
}

/// How the displays are to be detected anew.
#[derive(Debug, Clone, Copy, PartialEq, Eq, Structural)]
pub struct RedetectOptions {
    pub mode: ActionMode,
}

impl Shown for RedetectOptions {
    type Plain = RedetectOptions;

    open spec fn shown(&self) -> RedetectOptions {
        *self
    }
}

/// The options of `redetect-displays` where none is given.
pub open spec fn redetect_defaults() -> RedetectOptions {
    RedetectOptions {
        mode: ActionMode::Execute,
    }
}

/// The options of `redetect-displays` from its arguments, over those that are set already.
pub open spec fn redetect_given(
    args: Seq<Seq<char>>,
    o: RedetectOptions,
) -> Result<RedetectOptions, Seq<char>>
    decreases args.len(),
{
    if args.len() == 0 {
        Ok(o)
    } else if args[0] == "--dry-run"@ {
        redetect_given(args.skip(1), RedetectOptions { mode: ActionMode::DryRun })
    } else {
        Err("unknown redetect-displays option `"@ + args[0] + "`"@)
    }
}

/// Reads the options of `redetect-displays`.
pub fn redetect_options(args: &Vec<String>) -> (r: Result<RedetectOptions, String>)
    ensures
        r.shown() == redetect_given(text::texts(args@), redetect_defaults()),
{
    let ghost all = text::texts(args@);
    let mut o = RedetectOptions {
        mode: ActionMode::Execute,
    };
    let mut i: usize = 0;
    assert(all.skip(0) =~= all);
    while i < args.len()
        invariant
            i <= args.len(),
            all == text::texts(args@),
            redetect_given(all.skip(i as int), o.shown()) == redetect_given(all, redetect_defaults()),
        decreases args.len() - i,
    {
        let arg = args[i].as_str();
        assert(all.skip(i as int)[0] == arg@);
        assert(all.skip(i as int).skip(1) =~= all.skip(i + 1));
        if same(arg, "--dry-run") {
            o.mode = ActionMode::DryRun;
            i = i + 1;
        } else {
            return Err(cat3("unknown redetect-displays option `", arg, "`"));
        }
    }
    Ok(o)
}

/// What is to be done with the saved targets.
#[derive(Debug, Clone, Copy, PartialEq, Eq, Structural)]
pub struct TargetsOptions {
    pub clear: bool,
}

impl Shown for TargetsOptions {
    type Plain = TargetsOptions;

    open spec fn shown(&self) -> TargetsOptions {
        *self
    }
}

/// The options of `targets` where none is given.
pub open spec fn targets_defaults() -> TargetsOptions {
    TargetsOptions {
        clear: false,
    }
}

/// The options of `targets` from its arguments, over those that are set already.
pub open spec fn targets_given(
    args: Seq<Seq<char>>,
    o: TargetsOptions,
) -> Result<TargetsOptions, Seq<char>>
    decreases args.len(),
{
    if args.len() == 0 {
        Ok(o)
    } else if args[0] == "--clear"@ {
        targets_given(args.skip(1), TargetsOptions { clear: true })
    } else {
        Err("unknown targets option `"@ + args[0] + "`"@)
    }
}

/// Reads the options of `targets`.
pub fn targets_options(args: &Vec<String>) -> (r: Result<TargetsOptions, String>)
    ensures
        r.shown() == targets_given(text::texts(args@), targets_defaults()),
{
    let ghost all = text::texts(args@);
    let mut o = TargetsOptions {
        clear: false,
    };
    let mut i: usize = 0;
    assert(all.skip(0) =~= all);
    while i < args.len()
        invariant
            i <= args.len(),
            all == text::texts(args@),
            targets_given(all.skip(i as int), o.shown()) == targets_given(all, targets_defaults()),
        decreases args.len() - i,
    {
        let arg = args[i].as_str();
        assert(all.skip(i as int)[0] == arg@);
        assert(all.skip(i as int).skip(1) =~= all.skip(i + 1));
        if same(arg, "--clear") {
            o.clear = true;
            i = i + 1;
        } else {
            return Err(cat3("unknown targets option `", arg, "`"));
        }
    }
    Ok(o)
}

/// How a safe reset is to be done.
#[derive(Debug, Clone, Copy, PartialEq, Eq, Structural)]
pub struct ResetOptions {
    pub mode: ActionMode,
}

impl Shown for ResetOptions {
    type Plain = ResetOptions;

    open spec fn shown(&self) -> ResetOptions {
        *self
    }
}

/// The options of `safe-reset` where none is given.
pub open spec fn reset_defaults() -> ResetOptions {
    ResetOptions {
        mode: ActionMode::Execute,
    }
}

/// The options of `safe-reset` from its arguments, over those that are set already.
pub open spec fn reset_given(
    args: Seq<Seq<char>>,
    o: ResetOptions,
) -> Result<ResetOptions, Seq<char>>
    decreases args.len(),
{
    if args.len() == 0 {
        Ok(o)
    } else if args[0] == "--dry-run"@ {
        reset_given(args.skip(1), ResetOptions { mode: ActionMode::DryRun })
    } else {
        Err("unknown safe-reset option `"@ + args[0] + "`"@)
    }
}

/// Reads the options of `safe-reset`.
pub fn reset_options(args: &Vec<String>) -> (r: Result<ResetOptions, String>)
    ensures
        r.shown() == reset_given(text::texts(args@), reset_defaults()),
{
    let ghost all = text::texts(args@);
    let mut o = ResetOptions {
        mode: ActionMode::Execute,
    };
    let mut i: usize = 0;
    assert(all.skip(0) =~= all);
    while i < args.len()
        invariant
            i <= args.len(),
            all == text::texts(args@),
            reset_given(all.skip(i as int), o.shown()) == reset_given(all, reset_defaults()),
        decreases args.len() - i,
    {
        let arg = args[i].as_str();
        assert(all.skip(i as int)[0] == arg@);
        assert(all.skip(i as int).skip(1) =~= all.skip(i + 1));
        if same(arg, "--dry-run") {
            o.mode = ActionMode::DryRun;
            i = i + 1;
        } else {
            return Err(cat3("unknown safe-reset option `", arg, "`"));
        }
    }
    Ok(o)
}

/// How the guard is to run.
#[derive(Debug)]
pub struct GuardOptions {
    pub mode: ActionMode,
    pub reason: String,
    pub verbose: bool,
}

/// What the options hold, as plain text.
#[verifier::ext_equal]
pub struct GuardOptionsView {
    pub mode: ActionMode,
    pub reason: Seq<char>,
    pub verbose: bool,
}

impl Shown for GuardOptions {
    type Plain = GuardOptionsView;

    open spec fn shown(&self) -> GuardOptionsView {
        GuardOptionsView {
            mode: self.mode,
            reason: self.reason@,
            verbose: self.verbose,
        }
    }
}

/// The options of `guard` where none is given.
pub open spec fn guard_defaults() -> GuardOptionsView {
    GuardOptionsView {
        mode: ActionMode::Execute,
        reason: "manual"@,
        verbose: true,
    }
}

/// The options of `guard` from its arguments, over those that are set already.
pub open spec fn guard_given(
    args: Seq<Seq<char>>,
    o: GuardOptionsView,
) -> Result<GuardOptionsView, Seq<char>>
    decreases args.len(),
{
    if args.len() == 0 {
        Ok(o)
    } else if args[0] == "--dry-run"@ {
        guard_given(args.skip(1), GuardOptionsView { mode: ActionMode::DryRun, ..o })
    } else if args[0] == "--quiet"@ {
        guard_given(args.skip(1), GuardOptionsView { verbose: false, ..o })
    } else if args[0] == "--reason"@ {
        if args.len() < 2 {
            Err("missing value after --reason"@)
        } else {
            guard_given(args.skip(2), GuardOptionsView { reason: args[1], ..o })
        }
    } else {
        Err("unknown guard option `"@ + args[0] + "`"@)
    }
}

/// Reads the options of `guard`.
pub fn guard_options(args: &Vec<String>) -> (r: Result<GuardOptions, String>)
    ensures
        r.shown() == guard_given(text::texts(args@), guard_defaults()),
{
    let ghost all = text::texts(args@);
    let mut o = GuardOptions {
        mode: ActionMode::Execute,
        reason: owned("manual"),
        verbose: true,
    };
    let mut i: usize = 0;
    assert(all.skip(0) =~= all);
    while i < args.len()
        invariant
            i <= args.len(),
            all == text::texts(args@),
            guard_given(all.skip(i as int), o.shown()) == guard_given(all, guard_defaults()),
        decreases args.len() - i,
    {
        let arg = args[i].as_str();
        assert(all.skip(i as int)[0] == arg@);
        assert(all.skip(i as int).skip(1) =~= all.skip(i + 1));
        if same(arg, "--dry-run") {
            o.mode = ActionMode::DryRun;
            i = i + 1;
        } else if same(arg, "--quiet") {
            o.verbose = false;
            i = i + 1;
        } else if same(arg, "--reason") {
            if args.len() - i < 2 {
                return Err(owned("missing value after --reason"));
            }
            assert(all.skip(i as int)[1] == args[i + 1]@);
            assert(all.skip(i as int).skip(2) =~= all.skip(i + 2));
            o.reason = args[i + 1].clone();
            i = i + 2;
        } else {
            return Err(cat3("unknown guard option `", arg, "`"));
        }
    }
    Ok(o)
}

/// How the guard is to be installed.
#[derive(Debug, Clone, Copy, PartialEq, Eq, Structural)]
pub struct InstallOptions {
    pub interval: u64,
    pub load: bool,
    pub mode: ActionMode,
}

impl Shown for InstallOptions {
    type Plain = InstallOptions;

    open spec fn shown(&self) -> InstallOptions {
        *self
    }
}

/// The options of `install-guard` where none is given.
pub open spec fn install_defaults() -> InstallOptions {
    InstallOptions {
        interval: DEFAULT_GUARD_INTERVAL_SECS,
        load: true,
        mode: ActionMode::Execute,
    }
}

/// The options of `install-guard` from its arguments, over those that are set already.
pub open spec fn install_given(
    args: Seq<Seq<char>>,
    o: InstallOptions,
) -> Result<InstallOptions, Seq<char>>
    decreases args.len(),
{
    if args.len() == 0 {
        Ok(o)
    } else if args[0] == "--interval"@ {
        if args.len() < 2 {
            Err("missing value after --interval"@)
        } else {
            match number::u64_value(args[1]) {
                Ok(n) => install_given(
                    args.skip(2),
                    InstallOptions {
                        interval: if n < 5 {
                            5
                        } else {
                            n
                        },
                        ..o
                    },
                ),
                Err(error) => Err(number::number_error_text(error)),
            }
        }
    } else if args[0] == "--no-load"@ {
        install_given(args.skip(1), InstallOptions { load: false, ..o })
    } else if args[0] == "--dry-run"@ {
        install_given(args.skip(1), InstallOptions { mode: ActionMode::DryRun, ..o })
    } else {
        Err("unknown install-guard option `"@ + args[0] + "`"@)
    }
}

/// Reads the options of `install-guard`.
pub fn install_options(args: &Vec<String>) -> (r: Result<InstallOptions, String>)
    ensures
        r.shown() == install_given(text::texts(args@), install_defaults()),
{
    let ghost all = text::texts(args@);
    let mut o = InstallOptions {
        interval: DEFAULT_GUARD_INTERVAL_SECS,
        load: true,
        mode: ActionMode::Execute,
    };
    let mut i: usize = 0;
    assert(all.skip(0) =~= all);
    while i < args.len()
        invariant
            i <= args.len(),
            all == text::texts(args@),
            install_given(all.skip(i as int), o.shown()) == install_given(all, install_defaults()),
        decreases args.len() - i,
    {
        let arg = args[i].as_str();
        assert(all.skip(i as int)[0] == arg@);
        assert(all.skip(i as int).skip(1) =~= all.skip(i + 1));
        if same(arg, "--interval") {
            if args.len() - i < 2 {
                return Err(owned("missing value after --interval"));
            }
            assert(all.skip(i as int)[1] == args[i + 1]@);
            assert(all.skip(i as int).skip(2) =~= all.skip(i + 2));
            match parse_u64(args[i + 1].as_str()) {
                Ok(n) => {
                    o.interval = if n < 5 {
                        5
                    } else {
                        n
                    };
                },
                Err(error) => return Err(error.message()),
            }
            i = i + 2;
        } else if same(arg, "--no-load") {
            o.load = false;
            i = i + 1;
        } else if same(arg, "--dry-run") {
            o.mode = ActionMode::DryRun;
            i = i + 1;
        } else {
            return Err(cat3("unknown install-guard option `", arg, "`"));
        }
    }
    Ok(o)
}

/// How the guard is to be uninstalled.
#[derive(Debug, Clone, Copy, PartialEq, Eq, Structural)]
pub struct UninstallOptions {
    pub unload: bool,
    pub mode: ActionMode,
}

impl Shown for UninstallOptions {
    type Plain = UninstallOptions;

    open spec fn shown(&self) -> UninstallOptions {
        *self
    }
}

/// The options of `uninstall-guard` where none is given.
pub open spec fn uninstall_defaults() -> UninstallOptions {
    UninstallOptions {
        unload: true,
        mode: ActionMode::Execute,
    }
}

/// The options of `uninstall-guard` from its arguments, over those that are set already.
pub open spec fn uninstall_given(
    args: Seq<Seq<char>>,
    o: UninstallOptions,
) -> Result<UninstallOptions, Seq<char>>
    decreases args.len(),
{
    if args.len() == 0 {
        Ok(o)
    } else if args[0] == "--no-unload"@ {
        uninstall_given(args.skip(1), UninstallOptions { unload: false, ..o })
    } else if args[0] == "--dry-run"@ {
        uninstall_given(args.skip(1), UninstallOptions { mode: ActionMode::DryRun, ..o })
    } else {
        Err("unknown uninstall-guard option `"@ + args[0] + "`"@)
    }
}

/// Reads the options of `uninstall-guard`.
pub fn uninstall_options(args: &Vec<String>) -> (r: Result<UninstallOptions, String>)
    ensures
        r.shown() == uninstall_given(text::texts(args@), uninstall_defaults()),
{
    let ghost all = text::texts(args@);
    let mut o = UninstallOptions {
        unload: true,
        mode: ActionMode::Execute,
    };
    let mut i: usize = 0;
    assert(all.skip(0) =~= all);
    while i < args.len()
        invariant
            i <= args.len(),
            all == text::texts(args@),
            uninstall_given(all.skip(i as int), o.shown()) == uninstall_given(all, uninstall_defaults()),
        decreases args.len() - i,
    {
        let arg = args[i].as_str();
        assert(all.skip(i as int)[0] == arg@);
        assert(all.skip(i as int).skip(1) =~= all.skip(i + 1));
        if same(arg, "--no-unload") {
            o.unload = false;
            i = i + 1;
        } else if same(arg, "--dry-run") {
            o.mode = ActionMode::DryRun;
            i = i + 1;
        } else {
            return Err(cat3("unknown uninstall-guard option `", arg, "`"));
        }
    }
    Ok(o)
}

/// What is to be watched for, and how.
#[derive(Debug)]
pub struct WatchOptions {
    pub target: Option<String>,
    pub interval: u64,
    pub mode: ActionMode,
    pub force: bool,
}

/// What the options hold, as plain text.
#[verifier::ext_equal]
pub struct WatchOptionsView {
    pub target: Option<Seq<char>>,
    pub interval: u64,
    pub mode: ActionMode,
    pub force: bool,
}

impl Shown for WatchOptions {
    type Plain = WatchOptionsView;

    open spec fn shown(&self) -> WatchOptionsView {
        WatchOptionsView {
            target: text::opt_text(self.target),
            interval: self.interval,
            mode: self.mode,
            force: self.force,
        }
    }
}

/// The options of `watch` where none is given.
pub open spec fn watch_defaults() -> WatchOptionsView {
    WatchOptionsView {
        target: None,
        interval: DEFAULT_WATCH_INTERVAL_SECS,
        mode: ActionMode::Execute,
        force: false,
    }
}

/// The options of `watch` from its arguments, over those that are set already.
pub open spec fn watch_given(
    args: Seq<Seq<char>>,
    o: WatchOptionsView,
) -> Result<WatchOptionsView, Seq<char>>
    decreases args.len(),
{
    if args.len() == 0 {
        Ok(o)
    } else if args[0] == "--target-id"@ || args[0] == "--target-serial"@ {
        if args.len() < 2 {
            Err("missing value after target option"@)
        } else {
            watch_given(args.skip(2), WatchOptionsView { target: Some(args[1]), ..o })
        }
    } else if args[0] == "--interval"@ {
        if args.len() < 2 {
            Err("missing value after --interval"@)
        } else {
            match number::u64_value(args[1]) {
                Ok(n) => watch_given(
                    args.skip(2),
                    WatchOptionsView {
                        interval: if n < 1 {
                            1
                        } else {
                            n
                        },
                        ..o
                    },
                ),
                Err(error) => Err(number::number_error_text(error)),
            }
        }
    } else if args[0] == "--dry-run"@ {
        watch_given(args.skip(1), WatchOptionsView { mode: ActionMode::DryRun, ..o })
    } else if args[0] == "--force"@ {
        watch_given(args.skip(1), WatchOptionsView { force: true, ..o })
    } else {
        Err("unknown watch option `"@ + args[0] + "`"@)
    }
}

/// Reads the options of `watch`.
pub fn watch_options(args: &Vec<String>) -> (r: Result<WatchOptions, String>)
    ensures
        r.shown() == watch_given(text::texts(args@), watch_defaults()),
{
    let ghost all = text::texts(args@);
    let mut o = WatchOptions {
        target: None,
        interval: DEFAULT_WATCH_INTERVAL_SECS,
        mode: ActionMode::Execute,
        force: false,
    };
    let mut i: usize = 0;
    assert(all.skip(0) =~= all);
    while i < args.len()
        invariant
            i <= args.len(),
            all == text::texts(args@),
            watch_given(all.skip(i as int), o.shown()) == watch_given(all, watch_defaults()),
        decreases args.len() - i,
    {
        let arg = args[i].as_str();
        assert(all.skip(i as int)[0] == arg@);
        assert(all.skip(i as int).skip(1) =~= all.skip(i + 1));
        if same(arg, "--target-id") || same(arg, "--target-serial") {
            if args.len() - i < 2 {
                return Err(owned("missing value after target option"));
            }
            assert(all.skip(i as int)[1] == args[i + 1]@);
            assert(all.skip(i as int).skip(2) =~= all.skip(i + 2));
            o.target = Some(args[i + 1].clone());
            i = i + 2;
        } else if same(arg, "--interval") {
            if args.len() - i < 2 {
                return Err(owned("missing value after --interval"));
            }
            assert(all.skip(i as int)[1] == args[i + 1]@);
            assert(all.skip(i as int).skip(2) =~= all.skip(i + 2));
            match parse_u64(args[i + 1].as_str()) {
                Ok(n) => {
                    o.interval = if n < 1 {
                        1
                    } else {
                        n
                    };
                },
                Err(error) => return Err(error.message()),
            }
            i = i + 2;
        } else if same(arg, "--dry-run") {
            o.mode = ActionMode::DryRun;
            i = i + 1;
        } else if same(arg, "--force") {
            o.force = true;
            i = i + 1;
        } else {
            return Err(cat3("unknown watch option `", arg, "`"));
        }
    }
    Ok(o)
}

} // verus!
