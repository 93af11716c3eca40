//! What the words of a command line come to.

use vstd::prelude::*;

use crate::number;
use crate::options;
use crate::options::{
    DisableOptionsView, EnableOptionsView, GuardOptionsView, InstallOptions, RedetectOptions,
    ResetOptions, RestoreDisplayOptions, RestoreOptions, SnapshotOptionsView, TargetsOptions,
    UninstallOptions, WatchOptionsView,
};
use crate::policy::ActionMode;

verus! {

/// The number, or the least one allowed.
pub open spec fn at_least(n: u64, least: u64) -> u64 {
    if n < least {
        least
    } else {
        n
    }
}

/// The word is there.
pub open spec fn given(args: Seq<Seq<char>>, word: Seq<char>) -> bool {
    exists|i: int| 0 <= i < args.len() && #[trigger] args[i] == word
}

proof fn lemma_given_later(args: Seq<Seq<char>>, n: int, word: Seq<char>)
    requires
        0 <= n <= args.len(),
        given(args.skip(n), word),
    ensures
        given(args, word),
{
    let i = choose|i: int| 0 <= i < args.skip(n).len() && #[trigger] args.skip(n)[i] == word;
    assert(args[i + n] == word);
}

// ---------------------------------------------------------------------------
// snapshot.
// ---------------------------------------------------------------------------
/// The words of `snapshot` are read one after the other: what stands behind some is
/// read on top of what they gave.
pub proof fn snapshot_words_add_up(a: Seq<Seq<char>>, b: Seq<Seq<char>>, o: SnapshotOptionsView)
    ensures
        options::snapshot_given(a, o) matches Ok(o1)
            ==> options::snapshot_given(a + b, o) == options::snapshot_given(b, o1),
    decreases a.len(),
{
    if a.len() == 0 {
        assert(a + b =~= b);
    } else {
        let all = a + b;
        assert(all[0] == a[0]);
        assert(all.skip(1) =~= a.skip(1) + b);
        if a.len() >= 2 {
            assert(all[1] == a[1]);
            assert(all.skip(2) =~= a.skip(2) + b);
        }
        if a[0] == "--label"@ {
            if a.len() >= 2 {
                snapshot_words_add_up(a.skip(2), b, SnapshotOptionsView { label: a[1], ..o });
            }
        } else if a[0] == "--out"@ {
            if a.len() >= 2 {
                snapshot_words_add_up(a.skip(2), b, SnapshotOptionsView { out: a[1], ..o });
            }
        }
    }
}

/// A further word of `snapshot` sets what it stands for and leaves the rest as it
/// was, and its value is what follows it. Any other word is refused.
pub proof fn snapshot_words_take_effect(
    a: Seq<Seq<char>>,
    o: SnapshotOptionsView,
    word: Seq<char>,
    value: Seq<char>,
)
    ensures
        options::snapshot_given(a, o) matches Ok(o1) ==> {
            &&& options::snapshot_given(a + seq!["--label"@, value], o)
                == Ok::<SnapshotOptionsView, Seq<char>>(SnapshotOptionsView { label: value, ..o1 })
            &&& options::snapshot_given(a + seq!["--label"@], o) is Err
            &&& options::snapshot_given(a + seq!["--out"@, value], o)
                == Ok::<SnapshotOptionsView, Seq<char>>(SnapshotOptionsView { out: value, ..o1 })
            &&& options::snapshot_given(a + seq!["--out"@], o) is Err
            &&& word != "--label"@ && word != "--out"@
                ==> options::snapshot_given(
                    a + seq![word],
                    o,
                ) == Err::<SnapshotOptionsView, Seq<char>>(
                    "unknown snapshot option `"@ + word + "`"@,
                )
        },
{
    reveal_strlit("--label");
    reveal_strlit("--out");
    if let Ok(o1) = options::snapshot_given(a, o) {
        assert(
            options::snapshot_given(a + seq!["--label"@, value], o)
                == Ok::<SnapshotOptionsView, Seq<char>>(SnapshotOptionsView { label: value, ..o1 })
        ) by {
            let b = seq!["--label"@, value];
            snapshot_words_add_up(a, b, o);
            assert(b[0] == "--label"@);
            let next = SnapshotOptionsView { label: value, ..o1 };
            assert(b.skip(2) =~= Seq::empty());
            assert(options::snapshot_given(b, o1) == options::snapshot_given(b.skip(2), next));
            assert(
                options::snapshot_given(
                    b.skip(2),
                    next,
                ) == Ok::<SnapshotOptionsView, Seq<char>>(next)
            );
        }
        assert(options::snapshot_given(a + seq!["--label"@], o) is Err) by {
            let b = seq!["--label"@];
            snapshot_words_add_up(a, b, o);
            assert(b[0] == "--label"@);
        }
        assert(
            options::snapshot_given(a + seq!["--out"@, value], o)
                == Ok::<SnapshotOptionsView, Seq<char>>(SnapshotOptionsView { out: value, ..o1 })
        ) by {
            let b = seq!["--out"@, value];
            snapshot_words_add_up(a, b, o);
            assert(b[0] == "--out"@);
            let next = SnapshotOptionsView { out: value, ..o1 };
            assert(b.skip(2) =~= Seq::empty());
            assert(options::snapshot_given(b, o1) == options::snapshot_given(b.skip(2), next));
            assert(
                options::snapshot_given(
                    b.skip(2),
                    next,
                ) == Ok::<SnapshotOptionsView, Seq<char>>(next)
            );
        }
        assert(options::snapshot_given(a + seq!["--out"@], o) is Err) by {
            let b = seq!["--out"@];
            snapshot_words_add_up(a, b, o);
            assert(b[0] == "--out"@);
        }
        snapshot_words_add_up(a, seq![word], o);
    }
}

/// What no word of `snapshot` sets stays as it was.
pub proof fn snapshot_settings_come_from_words(a: Seq<Seq<char>>, o: SnapshotOptionsView)
    ensures
        options::snapshot_given(a, o) matches Ok(o1) ==> {
            &&& !given(a, "--label"@) ==> o1.label == o.label
            &&& !given(a, "--out"@) ==> o1.out == o.out
        },
    decreases a.len(),
{
    if a.len() > 0 {
        if options::snapshot_given(a, o) is Ok {
            if a[0] == "--label"@ {
                if a.len() >= 2 {
                    snapshot_settings_come_from_words(
                        a.skip(2),
                        SnapshotOptionsView { label: a[1], ..o },
                    );
                }
            } else if a[0] == "--out"@ {
                if a.len() >= 2 {
                    snapshot_settings_come_from_words(
                        a.skip(2),
                        SnapshotOptionsView { out: a[1], ..o },
                    );
                }
            }
            if given(a.skip(1), "--label"@) {
                lemma_given_later(a, 1, "--label"@);
            }
            if a.len() >= 2 && given(a.skip(2), "--label"@) {
                lemma_given_later(a, 2, "--label"@);
            }
            if given(a.skip(1), "--out"@) {
                lemma_given_later(a, 1, "--out"@);
            }
            if a.len() >= 2 && given(a.skip(2), "--out"@) {
                lemma_given_later(a, 2, "--out"@);
            }
        }
    }
}

/// Without a word that says otherwise, `snapshot` goes by what it starts from.
pub proof fn snapshot_starts_from(a: Seq<Seq<char>>)
    ensures
        options::snapshot_given(a, options::snapshot_defaults()) matches Ok(o1) ==> {
            &&& !given(a, "--label"@) ==> o1.label == "state"@
            &&& !given(a, "--out"@) ==> o1.out == "snapshots"@
        },
{
    snapshot_settings_come_from_words(a, options::snapshot_defaults());
}

// ---------------------------------------------------------------------------
// disable-internal.
// ---------------------------------------------------------------------------
/// The words of `disable-internal` are read one after the other: what stands behind some is
/// read on top of what they gave.
pub proof fn disable_words_add_up(a: Seq<Seq<char>>, b: Seq<Seq<char>>, o: DisableOptionsView)
    ensures
        options::disable_given(a, o) matches Ok(o1)
            ==> options::disable_given(a + b, o) == options::disable_given(b, o1),
    decreases a.len(),
{
    if a.len() == 0 {
        assert(a + b =~= b);
    } else {
        let all = a + b;
        assert(all[0] == a[0]);
        assert(all.skip(1) =~= a.skip(1) + b);
        if a.len() >= 2 {
            assert(all[1] == a[1]);
            assert(all.skip(2) =~= a.skip(2) + b);
        }
        if a[0] == "--when-id"@ {
            if a.len() >= 2 {
                disable_words_add_up(a.skip(2), b, DisableOptionsView { condition: Some(a[1]), ..o });
            }
        } else if a[0] == "--when-serial"@ {
            if a.len() >= 2 {
                disable_words_add_up(a.skip(2), b, DisableOptionsView { condition: Some(a[1]), ..o });
            }
        } else if a[0] == "--dry-run"@ {
            disable_words_add_up(
                a.skip(1),
                b,
                DisableOptionsView { mode: ActionMode::DryRun, ..o },
            );
        } else if a[0] == "--force"@ {
            disable_words_add_up(a.skip(1), b, DisableOptionsView { force: true, ..o });
        }
    }
}

/// A further word of `disable-internal` sets what it stands for and leaves the rest
/// as it was, and its value is what follows it. Any other word is refused.
pub proof fn disable_words_take_effect(
    a: Seq<Seq<char>>,
    o: DisableOptionsView,
    word: Seq<char>,
    value: Seq<char>,
)
    ensures
        options::disable_given(a, o) matches Ok(o1) ==> {
            &&& options::disable_given(a + seq!["--when-id"@, value], o)
                == Ok::<DisableOptionsView, Seq<char>>(
                    DisableOptionsView { condition: Some(value), ..o1 },
                )
            &&& options::disable_given(a + seq!["--when-id"@], o) is Err
            &&& options::disable_given(a + seq!["--when-serial"@, value], o)
                == Ok::<DisableOptionsView, Seq<char>>(
                    DisableOptionsView { condition: Some(value), ..o1 },
                )
            &&& options::disable_given(a + seq!["--when-serial"@], o) is Err
            &&& options::disable_given(a + seq!["--dry-run"@], o)
                == Ok::<DisableOptionsView, Seq<char>>(
                    DisableOptionsView { mode: ActionMode::DryRun, ..o1 },
                )
            &&& options::disable_given(a + seq!["--force"@], o)
                == Ok::<DisableOptionsView, Seq<char>>(DisableOptionsView { force: true, ..o1 })
            &&& word != "--when-id"@ && word != "--when-serial"@ && word != "--dry-run"@
                && word != "--force"@
                ==> options::disable_given(
                    a + seq![word],
                    o,
                ) == Err::<DisableOptionsView, Seq<char>>(
                    "unknown disable-internal option `"@ + word + "`"@,
                )
        },
{
    reveal_strlit("--when-id");
    reveal_strlit("--when-serial");
    reveal_strlit("--dry-run");
    reveal_strlit("--force");
    assert("--dry-run"@[2] != "--when-id"@[2]);
    if let Ok(o1) = options::disable_given(a, o) {
        assert(
            options::disable_given(a + seq!["--when-id"@, value], o)
                == Ok::<DisableOptionsView, Seq<char>>(
                    DisableOptionsView { condition: Some(value), ..o1 },
                )
        ) by {
            let b = seq!["--when-id"@, value];
            disable_words_add_up(a, b, o);
            assert(b[0] == "--when-id"@);
            let next = DisableOptionsView { condition: Some(value), ..o1 };
            assert(b.skip(2) =~= Seq::empty());
            assert(options::disable_given(b, o1) == options::disable_given(b.skip(2), next));
            assert(
                options::disable_given(b.skip(2), next) == Ok::<DisableOptionsView, Seq<char>>(next)
            );
        }
        assert(options::disable_given(a + seq!["--when-id"@], o) is Err) by {
            let b = seq!["--when-id"@];
            disable_words_add_up(a, b, o);
            assert(b[0] == "--when-id"@);
        }
        assert(
            options::disable_given(a + seq!["--when-serial"@, value], o)
                == Ok::<DisableOptionsView, Seq<char>>(
                    DisableOptionsView { condition: Some(value), ..o1 },
                )
        ) by {
            let b = seq!["--when-serial"@, value];
            disable_words_add_up(a, b, o);
            assert(b[0] == "--when-serial"@);
            let next = DisableOptionsView { condition: Some(value), ..o1 };
            assert(b.skip(2) =~= Seq::empty());
            assert(options::disable_given(b, o1) == options::disable_given(b.skip(2), next));
            assert(
                options::disable_given(b.skip(2), next) == Ok::<DisableOptionsView, Seq<char>>(next)
            );
        }
        assert(options::disable_given(a + seq!["--when-serial"@], o) is Err) by {
            let b = seq!["--when-serial"@];
            disable_words_add_up(a, b, o);
            assert(b[0] == "--when-serial"@);
        }
        assert(
            options::disable_given(a + seq!["--dry-run"@], o)
                == Ok::<DisableOptionsView, Seq<char>>(
                    DisableOptionsView { mode: ActionMode::DryRun, ..o1 },
                )
        ) by {
            let b = seq!["--dry-run"@];
            disable_words_add_up(a, b, o);
            assert(b[0] == "--dry-run"@);
            let next = DisableOptionsView { mode: ActionMode::DryRun, ..o1 };
            assert(b.skip(1) =~= Seq::empty());
            assert(options::disable_given(b, o1) == options::disable_given(b.skip(1), next));
            assert(
                options::disable_given(b.skip(1), next) == Ok::<DisableOptionsView, Seq<char>>(next)
            );
        }
        assert(
            options::disable_given(a + seq!["--force"@], o) == Ok::<DisableOptionsView, Seq<char>>(
                DisableOptionsView { force: true, ..o1 },
            )
        ) by {
            let b = seq!["--force"@];
            disable_words_add_up(a, b, o);
            assert(b[0] == "--force"@);
            let next = DisableOptionsView { force: true, ..o1 };
            assert(b.skip(1) =~= Seq::empty());
            assert(options::disable_given(b, o1) == options::disable_given(b.skip(1), next));
            assert(
                options::disable_given(b.skip(1), next) == Ok::<DisableOptionsView, Seq<char>>(next)
            );
        }
        disable_words_add_up(a, seq![word], o);
    }
}

/// What no word of `disable-internal` sets stays as it was.
pub proof fn disable_settings_come_from_words(a: Seq<Seq<char>>, o: DisableOptionsView)
    ensures
        options::disable_given(a, o) matches Ok(o1) ==> {
            &&& !given(a, "--when-id"@) && !given(a, "--when-serial"@)
                ==> o1.condition == o.condition
            &&& !given(a, "--dry-run"@) ==> o1.mode == o.mode
            &&& !given(a, "--force"@) ==> o1.force == o.force
        },
    decreases a.len(),
{
    if a.len() > 0 {
        if options::disable_given(a, o) is Ok {
            if a[0] == "--when-id"@ {
                if a.len() >= 2 {
                    disable_settings_come_from_words(
                        a.skip(2),
                        DisableOptionsView { condition: Some(a[1]), ..o },
                    );
                }
            } else if a[0] == "--when-serial"@ {
                if a.len() >= 2 {
                    disable_settings_come_from_words(
                        a.skip(2),
                        DisableOptionsView { condition: Some(a[1]), ..o },
                    );
                }
            } else if a[0] == "--dry-run"@ {
                disable_settings_come_from_words(
                    a.skip(1),
                    DisableOptionsView { mode: ActionMode::DryRun, ..o },
                );
            } else if a[0] == "--force"@ {
                disable_settings_come_from_words(
                    a.skip(1),
                    DisableOptionsView { force: true, ..o },
                );
            }
            if given(a.skip(1), "--when-id"@) {
                lemma_given_later(a, 1, "--when-id"@);
            }
            if a.len() >= 2 && given(a.skip(2), "--when-id"@) {
                lemma_given_later(a, 2, "--when-id"@);
            }
            if given(a.skip(1), "--when-serial"@) {
                lemma_given_later(a, 1, "--when-serial"@);
            }
            if a.len() >= 2 && given(a.skip(2), "--when-serial"@) {
                lemma_given_later(a, 2, "--when-serial"@);
            }
            if given(a.skip(1), "--dry-run"@) {
                lemma_given_later(a, 1, "--dry-run"@);
            }
            if a.len() >= 2 && given(a.skip(2), "--dry-run"@) {
                lemma_given_later(a, 2, "--dry-run"@);
            }
            if given(a.skip(1), "--force"@) {
                lemma_given_later(a, 1, "--force"@);
            }
            if a.len() >= 2 && given(a.skip(2), "--force"@) {
                lemma_given_later(a, 2, "--force"@);
            }
        }
    }
}

/// Without a word that says otherwise, `disable-internal` goes by what it starts from.
pub proof fn disable_starts_from(a: Seq<Seq<char>>)
    ensures
        options::disable_given(a, options::disable_defaults()) matches Ok(o1) ==> {
            &&& !given(a, "--when-id"@) && !given(a, "--when-serial"@)
                ==> o1.condition == None::<Seq<char>>
            &&& !given(a, "--dry-run"@) ==> o1.mode == ActionMode::Execute
            &&& !given(a, "--force"@) ==> o1.force == false
        },
{
    disable_settings_come_from_words(a, options::disable_defaults());
}

// ---------------------------------------------------------------------------
// enable-internal.
// ---------------------------------------------------------------------------
/// The words of `enable-internal` are read one after the other: what stands behind some is
/// read on top of what they gave.
pub proof fn enable_words_add_up(a: Seq<Seq<char>>, b: Seq<Seq<char>>, o: EnableOptionsView)
    ensures
        options::enable_given(a, o) matches Ok(o1)
            ==> options::enable_given(a + b, o) == options::enable_given(b, o1),
    decreases a.len(),
{
    if a.len() == 0 {
        assert(a + b =~= b);
    } else {
        let all = a + b;
        assert(all[0] == a[0]);
        assert(all.skip(1) =~= a.skip(1) + b);
        if a.len() >= 2 {
            assert(all[1] == a[1]);
            assert(all.skip(2) =~= a.skip(2) + b);
        }
        if a[0] == "--id"@ {
            if a.len() >= 2 {
                enable_words_add_up(a.skip(2), b, EnableOptionsView { id: Some(a[1]), ..o });
            }
        } else if a[0] == "--dry-run"@ {
            enable_words_add_up(a.skip(1), b, EnableOptionsView { mode: ActionMode::DryRun, ..o });
        }
    }
}

/// A further word of `enable-internal` sets what it stands for and leaves the rest
/// as it was, and its value is what follows it. Any other word is refused.
pub proof fn enable_words_take_effect(
    a: Seq<Seq<char>>,
    o: EnableOptionsView,
    word: Seq<char>,
    value: Seq<char>,
)
    ensures
        options::enable_given(a, o) matches Ok(o1) ==> {
            &&& options::enable_given(a + seq!["--id"@, value], o)
                == Ok::<EnableOptionsView, Seq<char>>(EnableOptionsView { id: Some(value), ..o1 })
            &&& options::enable_given(a + seq!["--id"@], o) is Err
            &&& options::enable_given(a + seq!["--dry-run"@], o)
                == Ok::<EnableOptionsView, Seq<char>>(
                    EnableOptionsView { mode: ActionMode::DryRun, ..o1 },
                )
            &&& word != "--id"@ && word != "--dry-run"@
                ==> options::enable_given(a + seq![word], o) == Err::<EnableOptionsView, Seq<char>>(
                    "unknown enable-internal option `"@ + word + "`"@,
                )
        },
{
    reveal_strlit("--id");
    reveal_strlit("--dry-run");
    if let Ok(o1) = options::enable_given(a, o) {
        assert(
            options::enable_given(a + seq!["--id"@, value], o)
                == Ok::<EnableOptionsView, Seq<char>>(EnableOptionsView { id: Some(value), ..o1 })
        ) by {
            let b = seq!["--id"@, value];
            enable_words_add_up(a, b, o);
            assert(b[0] == "--id"@);
            let next = EnableOptionsView { id: Some(value), ..o1 };
            assert(b.skip(2) =~= Seq::empty());
            assert(options::enable_given(b, o1) == options::enable_given(b.skip(2), next));
            assert(
                options::enable_given(b.skip(2), next) == Ok::<EnableOptionsView, Seq<char>>(next)
            );
        }
        assert(options::enable_given(a + seq!["--id"@], o) is Err) by {
            let b = seq!["--id"@];
            enable_words_add_up(a, b, o);
            assert(b[0] == "--id"@);
        }
        assert(
            options::enable_given(a + seq!["--dry-run"@], o) == Ok::<EnableOptionsView, Seq<char>>(
                EnableOptionsView { mode: ActionMode::DryRun, ..o1 },
            )
        ) by {
            let b = seq!["--dry-run"@];
            enable_words_add_up(a, b, o);
            assert(b[0] == "--dry-run"@);
            let next = EnableOptionsView { mode: ActionMode::DryRun, ..o1 };
            assert(b.skip(1) =~= Seq::empty());
            assert(options::enable_given(b, o1) == options::enable_given(b.skip(1), next));
            assert(
                options::enable_given(b.skip(1), next) == Ok::<EnableOptionsView, Seq<char>>(next)
            );
        }
        enable_words_add_up(a, seq![word], o);
    }
}

/// What no word of `enable-internal` sets stays as it was.
pub proof fn enable_settings_come_from_words(a: Seq<Seq<char>>, o: EnableOptionsView)
    ensures
        options::enable_given(a, o) matches Ok(o1) ==> {
            &&& !given(a, "--id"@) ==> o1.id == o.id
            &&& !given(a, "--dry-run"@) ==> o1.mode == o.mode
        },
    decreases a.len(),
{
    if a.len() > 0 {
        if options::enable_given(a, o) is Ok {
            if a[0] == "--id"@ {
                if a.len() >= 2 {
                    enable_settings_come_from_words(
                        a.skip(2),
                        EnableOptionsView { id: Some(a[1]), ..o },
                    );
                }
            } else if a[0] == "--dry-run"@ {
                enable_settings_come_from_words(
                    a.skip(1),
                    EnableOptionsView { mode: ActionMode::DryRun, ..o },
                );
            }
            if given(a.skip(1), "--id"@) {
                lemma_given_later(a, 1, "--id"@);
            }
            if a.len() >= 2 && given(a.skip(2), "--id"@) {
                lemma_given_later(a, 2, "--id"@);
            }
            if given(a.skip(1), "--dry-run"@) {
                lemma_given_later(a, 1, "--dry-run"@);
            }
            if a.len() >= 2 && given(a.skip(2), "--dry-run"@) {
                lemma_given_later(a, 2, "--dry-run"@);
            }
        }
    }
}

/// Without a word that says otherwise, `enable-internal` goes by what it starts from.
pub proof fn enable_starts_from(a: Seq<Seq<char>>)
    ensures
        options::enable_given(a, options::enable_defaults()) matches Ok(o1) ==> {
            &&& !given(a, "--id"@) ==> o1.id == None::<Seq<char>>
            &&& !given(a, "--dry-run"@) ==> o1.mode == ActionMode::Execute
        },
{
    enable_settings_come_from_words(a, options::enable_defaults());
}

// ---------------------------------------------------------------------------
// restore-internal.
// ---------------------------------------------------------------------------
/// The words of `restore-internal` are read one after the other: what stands behind some is
/// read on top of what they gave.
pub proof fn restore_words_add_up(a: Seq<Seq<char>>, b: Seq<Seq<char>>, o: RestoreOptions)
    ensures
        options::restore_given(a, o) matches Ok(o1)
            ==> options::restore_given(a + b, o) == options::restore_given(b, o1),
    decreases a.len(),
{
    if a.len() == 0 {
        assert(a + b =~= b);
    } else {
        let all = a + b;
        assert(all[0] == a[0]);
        assert(all.skip(1) =~= a.skip(1) + b);
        if a.len() >= 2 {
            assert(all[1] == a[1]);
            assert(all.skip(2) =~= a.skip(2) + b);
        }
        if a[0] == "--display-id"@ {
            if a.len() >= 2 {
                if let Ok(n) = number::u32_value(a[1]) {
                    restore_words_add_up(a.skip(2), b, RestoreOptions { display_id: Some(n), ..o });
                }
            }
        } else if a[0] == "--dry-run"@ {
            restore_words_add_up(a.skip(1), b, RestoreOptions { mode: ActionMode::DryRun, ..o });
        } else if a[0] == "--displayplacer-fallback"@ {
            restore_words_add_up(a.skip(1), b, RestoreOptions { fallback: true, ..o });
        }
    }
}

/// A further word of `restore-internal` sets what it stands for and leaves the rest
/// as it was, and its value is what follows it. Any other word is refused.
pub proof fn restore_words_take_effect(
    a: Seq<Seq<char>>,
    o: RestoreOptions,
    word: Seq<char>,
    value: Seq<char>,
)
    ensures
        options::restore_given(a, o) matches Ok(o1) ==> {
            &&& match number::u32_value(value) {
                Ok(n) => options::restore_given(a + seq!["--display-id"@, value], o)
                    == Ok::<RestoreOptions, Seq<char>>(
                        RestoreOptions { display_id: Some(n), ..o1 },
                    ),
                Err(_) => options::restore_given(a + seq!["--display-id"@, value], o) is Err,
            }
            &&& options::restore_given(a + seq!["--display-id"@], o) is Err
            &&& options::restore_given(a + seq!["--dry-run"@], o)
                == Ok::<RestoreOptions, Seq<char>>(
                    RestoreOptions { mode: ActionMode::DryRun, ..o1 },
                )
            &&& options::restore_given(
                a + seq!["--displayplacer-fallback"@],
                o,
            ) == Ok::<RestoreOptions, Seq<char>>(RestoreOptions { fallback: true, ..o1 })
            &&& word != "--display-id"@ && word != "--dry-run"@
                && word != "--displayplacer-fallback"@
                ==> options::restore_given(a + seq![word], o) == Err::<RestoreOptions, Seq<char>>(
                    "unknown restore-internal option `"@ + word + "`"@,
                )
        },
{
    reveal_strlit("--display-id");
    reveal_strlit("--dry-run");
    reveal_strlit("--displayplacer-fallback");
    if let Ok(o1) = options::restore_given(a, o) {
        match number::u32_value(value) {
            Ok(n) => {
        assert(
            options::restore_given(a + seq!["--display-id"@, value], o)
                == Ok::<RestoreOptions, Seq<char>>(RestoreOptions { display_id: Some(n), ..o1 })
        ) by {
            let b = seq!["--display-id"@, value];
            restore_words_add_up(a, b, o);
            assert(b[0] == "--display-id"@);
            let next = RestoreOptions { display_id: Some(n), ..o1 };
            assert(b.skip(2) =~= Seq::empty());
            assert(options::restore_given(b, o1) == options::restore_given(b.skip(2), next));
            assert(
                options::restore_given(b.skip(2), next) == Ok::<RestoreOptions, Seq<char>>(next)
            );
        }
            },
            Err(_) => {
        assert(options::restore_given(a + seq!["--display-id"@, value], o) is Err) by {
            let b = seq!["--display-id"@, value];
            restore_words_add_up(a, b, o);
            assert(b[0] == "--display-id"@);
        }
            },
        }
        assert(options::restore_given(a + seq!["--display-id"@], o) is Err) by {
            let b = seq!["--display-id"@];
            restore_words_add_up(a, b, o);
            assert(b[0] == "--display-id"@);
        }
        assert(
            options::restore_given(a + seq!["--dry-run"@], o) == Ok::<RestoreOptions, Seq<char>>(
                RestoreOptions { mode: ActionMode::DryRun, ..o1 },
            )
        ) by {
            let b = seq!["--dry-run"@];
            restore_words_add_up(a, b, o);
            assert(b[0] == "--dry-run"@);
            let next = RestoreOptions { mode: ActionMode::DryRun, ..o1 };
            assert(b.skip(1) =~= Seq::empty());
            assert(options::restore_given(b, o1) == options::restore_given(b.skip(1), next));
            assert(
                options::restore_given(b.skip(1), next) == Ok::<RestoreOptions, Seq<char>>(next)
            );
        }
        assert(
            options::restore_given(
                a + seq!["--displayplacer-fallback"@],
                o,
            ) == Ok::<RestoreOptions, Seq<char>>(RestoreOptions { fallback: true, ..o1 })
        ) by {
            let b = seq!["--displayplacer-fallback"@];
            restore_words_add_up(a, b, o);
            assert(b[0] == "--displayplacer-fallback"@);
            let next = RestoreOptions { fallback: true, ..o1 };
            assert(b.skip(1) =~= Seq::empty());
            assert(options::restore_given(b, o1) == options::restore_given(b.skip(1), next));
            assert(
                options::restore_given(b.skip(1), next) == Ok::<RestoreOptions, Seq<char>>(next)
            );
        }
        restore_words_add_up(a, seq![word], o);
    }
}

/// What no word of `restore-internal` sets stays as it was.
pub proof fn restore_settings_come_from_words(a: Seq<Seq<char>>, o: RestoreOptions)
    ensures
        options::restore_given(a, o) matches Ok(o1) ==> {
            &&& !given(a, "--display-id"@) ==> o1.display_id == o.display_id
            &&& !given(a, "--dry-run"@) ==> o1.mode == o.mode
            &&& !given(a, "--displayplacer-fallback"@) ==> o1.fallback == o.fallback
        },
    decreases a.len(),
{
    if a.len() > 0 {
        if options::restore_given(a, o) is Ok {
            if a[0] == "--display-id"@ {
                if a.len() >= 2 {
                    if let Ok(n) = number::u32_value(a[1]) {
                        restore_settings_come_from_words(
                            a.skip(2),
                            RestoreOptions { display_id: Some(n), ..o },
                        );
                    }
                }
            } else if a[0] == "--dry-run"@ {
                restore_settings_come_from_words(
                    a.skip(1),
                    RestoreOptions { mode: ActionMode::DryRun, ..o },
                );
            } else if a[0] == "--displayplacer-fallback"@ {
                restore_settings_come_from_words(a.skip(1), RestoreOptions { fallback: true, ..o });
            }
            if given(a.skip(1), "--display-id"@) {
                lemma_given_later(a, 1, "--display-id"@);
            }
            if a.len() >= 2 && given(a.skip(2), "--display-id"@) {
                lemma_given_later(a, 2, "--display-id"@);
            }
            if given(a.skip(1), "--dry-run"@) {
                lemma_given_later(a, 1, "--dry-run"@);
            }
            if a.len() >= 2 && given(a.skip(2), "--dry-run"@) {
                lemma_given_later(a, 2, "--dry-run"@);
            }
            if given(a.skip(1), "--displayplacer-fallback"@) {
                lemma_given_later(a, 1, "--displayplacer-fallback"@);
            }
            if a.len() >= 2 && given(a.skip(2), "--displayplacer-fallback"@) {
                lemma_given_later(a, 2, "--displayplacer-fallback"@);
            }
        }
    }
}

/// Without a word that says otherwise, `restore-internal` goes by what it starts from.
pub proof fn restore_starts_from(a: Seq<Seq<char>>)
    ensures
        options::restore_given(a, options::restore_defaults()) matches Ok(o1) ==> {
            &&& !given(a, "--display-id"@) ==> o1.display_id == None::<u32>
            &&& !given(a, "--dry-run"@) ==> o1.mode == ActionMode::Execute
            &&& !given(a, "--displayplacer-fallback"@) ==> o1.fallback == false
        },
{
    restore_settings_come_from_words(a, options::restore_defaults());
}

// ---------------------------------------------------------------------------
// restore-display.
// ---------------------------------------------------------------------------
/// The words of `restore-display` are read one after the other: what stands behind some is
/// read on top of what they gave.
pub proof fn restore_display_words_add_up(
    a: Seq<Seq<char>>,
    b: Seq<Seq<char>>,
    o: RestoreDisplayOptions,
)
    ensures
        options::restore_display_given(a, o) matches Ok(o1)
            ==> options::restore_display_given(a + b, o) == options::restore_display_given(b, o1),
    decreases a.len(),
{
    if a.len() == 0 {
        assert(a + b =~= b);
    } else {
        let all = a + b;
        assert(all[0] == a[0]);
        assert(all.skip(1) =~= a.skip(1) + b);
        if a.len() >= 2 {
            assert(all[1] == a[1]);
            assert(all.skip(2) =~= a.skip(2) + b);
        }
        if a[0] == "--display-id"@ {
            if a.len() >= 2 {
                if let Ok(n) = number::u32_value(a[1]) {
                    restore_display_words_add_up(
                        a.skip(2),
                        b,
                        RestoreDisplayOptions { display_id: Some(n), ..o },
                    );
                }
            }
        } else if a[0] == "--dry-run"@ {
            restore_display_words_add_up(
                a.skip(1),
                b,
                RestoreDisplayOptions { mode: ActionMode::DryRun, ..o },
            );
        }
    }
}

/// A further word of `restore-display` sets what it stands for and leaves the rest
/// as it was, and its value is what follows it. Any other word is refused.
pub proof fn restore_display_words_take_effect(
    a: Seq<Seq<char>>,
    o: RestoreDisplayOptions,
    word: Seq<char>,
    value: Seq<char>,
)
    ensures
        options::restore_display_given(a, o) matches Ok(o1) ==> {
            &&& match number::u32_value(value) {
                Ok(n) => options::restore_display_given(a + seq!["--display-id"@, value], o)
                    == Ok::<RestoreDisplayOptions, Seq<char>>(
                        RestoreDisplayOptions { display_id: Some(n), ..o1 },
                    ),
                Err(_) => options::restore_display_given(
                    a + seq!["--display-id"@, value],
                    o,
                ) is Err,
            }
            &&& options::restore_display_given(a + seq!["--display-id"@], o) is Err
            &&& options::restore_display_given(a + seq!["--dry-run"@], o)
                == Ok::<RestoreDisplayOptions, Seq<char>>(
                    RestoreDisplayOptions { mode: ActionMode::DryRun, ..o1 },
                )
            &&& word != "--display-id"@ && word != "--dry-run"@
                ==> options::restore_display_given(
                    a + seq![word],
                    o,
                ) == Err::<RestoreDisplayOptions, Seq<char>>(
                    "unknown restore-display option `"@ + word + "`"@,
                )
        },
{
    reveal_strlit("--display-id");
    reveal_strlit("--dry-run");
    if let Ok(o1) = options::restore_display_given(a, o) {
        match number::u32_value(value) {
            Ok(n) => {
        assert(
            options::restore_display_given(a + seq!["--display-id"@, value], o)
                == Ok::<RestoreDisplayOptions, Seq<char>>(
                    RestoreDisplayOptions { display_id: Some(n), ..o1 },
                )
        ) by {
            let b = seq!["--display-id"@, value];
            restore_display_words_add_up(a, b, o);
            assert(b[0] == "--display-id"@);
            let next = RestoreDisplayOptions { display_id: Some(n), ..o1 };
            assert(b.skip(2) =~= Seq::empty());
            assert(
                options::restore_display_given(b, o1) == options::restore_display_given(
                    b.skip(2),
                    next,
                )
            );
            assert(
                options::restore_display_given(
                    b.skip(2),
                    next,
                ) == Ok::<RestoreDisplayOptions, Seq<char>>(next)
            );
        }
            },
            Err(_) => {
        assert(options::restore_display_given(a + seq!["--display-id"@, value], o) is Err) by {
            let b = seq!["--display-id"@, value];
            restore_display_words_add_up(a, b, o);
            assert(b[0] == "--display-id"@);
        }
            },
        }
        assert(options::restore_display_given(a + seq!["--display-id"@], o) is Err) by {
            let b = seq!["--display-id"@];
            restore_display_words_add_up(a, b, o);
            assert(b[0] == "--display-id"@);
        }
        assert(
            options::restore_display_given(a + seq!["--dry-run"@], o)
                == Ok::<RestoreDisplayOptions, Seq<char>>(
                    RestoreDisplayOptions { mode: ActionMode::DryRun, ..o1 },
                )
        ) by {
            let b = seq!["--dry-run"@];
            restore_display_words_add_up(a, b, o);
            assert(b[0] == "--dry-run"@);
            let next = RestoreDisplayOptions { mode: ActionMode::DryRun, ..o1 };
            assert(b.skip(1) =~= Seq::empty());
            assert(
                options::restore_display_given(b, o1) == options::restore_display_given(
                    b.skip(1),
                    next,
                )
            );
            assert(
                options::restore_display_given(
                    b.skip(1),
                    next,
                ) == Ok::<RestoreDisplayOptions, Seq<char>>(next)
            );
        }
        restore_display_words_add_up(a, seq![word], o);
    }
}

/// What no word of `restore-display` sets stays as it was.
pub proof fn restore_display_settings_come_from_words(a: Seq<Seq<char>>, o: RestoreDisplayOptions)
    ensures
        options::restore_display_given(a, o) matches Ok(o1) ==> {
            &&& !given(a, "--display-id"@) ==> o1.display_id == o.display_id
            &&& !given(a, "--dry-run"@) ==> o1.mode == o.mode
        },
    decreases a.len(),
{
    if a.len() > 0 {
        if options::restore_display_given(a, o) is Ok {
            if a[0] == "--display-id"@ {
                if a.len() >= 2 {
                    if let Ok(n) = number::u32_value(a[1]) {
                        restore_display_settings_come_from_words(
                            a.skip(2),
                            RestoreDisplayOptions { display_id: Some(n), ..o },
                        );
                    }
                }
            } else if a[0] == "--dry-run"@ {
                restore_display_settings_come_from_words(
                    a.skip(1),
                    RestoreDisplayOptions { mode: ActionMode::DryRun, ..o },
                );
            }
            if given(a.skip(1), "--display-id"@) {
                lemma_given_later(a, 1, "--display-id"@);
            }
            if a.len() >= 2 && given(a.skip(2), "--display-id"@) {
                lemma_given_later(a, 2, "--display-id"@);
            }
            if given(a.skip(1), "--dry-run"@) {
                lemma_given_later(a, 1, "--dry-run"@);
            }
            if a.len() >= 2 && given(a.skip(2), "--dry-run"@) {
                lemma_given_later(a, 2, "--dry-run"@);
            }
        }
    }
}

/// Without a word that says otherwise, `restore-display` goes by what it starts from.
pub proof fn restore_display_starts_from(a: Seq<Seq<char>>)
    ensures
        options::restore_display_given(a, options::restore_display_defaults()) matches Ok(o1) ==> {
            &&& !given(a, "--display-id"@) ==> o1.display_id == None::<u32>
            &&& !given(a, "--dry-run"@) ==> o1.mode == ActionMode::Execute
        },
{
    restore_display_settings_come_from_words(a, options::restore_display_defaults());
}

// ---------------------------------------------------------------------------
// redetect-displays.
// ---------------------------------------------------------------------------
/// The words of `redetect-displays` are read one after the other: what stands behind some is
/// read on top of what they gave.
pub proof fn redetect_words_add_up(a: Seq<Seq<char>>, b: Seq<Seq<char>>, o: RedetectOptions)
    ensures
        options::redetect_given(a, o) matches Ok(o1)
            ==> options::redetect_given(a + b, o) == options::redetect_given(b, o1),
    decreases a.len(),
{
    if a.len() == 0 {
        assert(a + b =~= b);
    } else {
        let all = a + b;
        assert(all[0] == a[0]);
        assert(all.skip(1) =~= a.skip(1) + b);
        if a.len() >= 2 {
            assert(all[1] == a[1]);
            assert(all.skip(2) =~= a.skip(2) + b);
        }
        if a[0] == "--dry-run"@ {
            redetect_words_add_up(a.skip(1), b, RedetectOptions { mode: ActionMode::DryRun });
        }
    }
}

/// A further word of `redetect-displays` sets what it stands for and leaves the
/// rest as it was. Any other word is refused.
pub proof fn redetect_words_take_effect(
    a: Seq<Seq<char>>,
    o: RedetectOptions,
    word: Seq<char>,
)
    ensures
        options::redetect_given(a, o) matches Ok(o1) ==> {
            &&& options::redetect_given(a + seq!["--dry-run"@], o)
                == Ok::<RedetectOptions, Seq<char>>(RedetectOptions { mode: ActionMode::DryRun })
            &&& word != "--dry-run"@
                ==> options::redetect_given(a + seq![word], o) == Err::<RedetectOptions, Seq<char>>(
                    "unknown redetect-displays option `"@ + word + "`"@,
                )
        },
{
    reveal_strlit("--dry-run");
    if let Ok(o1) = options::redetect_given(a, o) {
        assert(
            options::redetect_given(a + seq!["--dry-run"@], o) == Ok::<RedetectOptions, Seq<char>>(
                RedetectOptions { mode: ActionMode::DryRun },
            )
        ) by {
            let b = seq!["--dry-run"@];
            redetect_words_add_up(a, b, o);
            assert(b[0] == "--dry-run"@);
            let next = RedetectOptions { mode: ActionMode::DryRun };
            assert(b.skip(1) =~= Seq::empty());
            assert(options::redetect_given(b, o1) == options::redetect_given(b.skip(1), next));
            assert(
                options::redetect_given(b.skip(1), next) == Ok::<RedetectOptions, Seq<char>>(next)
            );
        }
        redetect_words_add_up(a, seq![word], o);
    }
}

/// What no word of `redetect-displays` sets stays as it was.
pub proof fn redetect_settings_come_from_words(a: Seq<Seq<char>>, o: RedetectOptions)
    ensures
        options::redetect_given(a, o) matches Ok(o1) ==> {
            &&& !given(a, "--dry-run"@) ==> o1.mode == o.mode
        },
    decreases a.len(),
{
    if a.len() > 0 {
        if options::redetect_given(a, o) is Ok {
            if a[0] == "--dry-run"@ {
                redetect_settings_come_from_words(
                    a.skip(1),
                    RedetectOptions { mode: ActionMode::DryRun },
                );
            }
            if given(a.skip(1), "--dry-run"@) {
                lemma_given_later(a, 1, "--dry-run"@);
            }
        }
    }
}

/// Without a word that says otherwise, `redetect-displays` goes by what it starts from.
pub proof fn redetect_starts_from(a: Seq<Seq<char>>)
    ensures
        options::redetect_given(a, options::redetect_defaults()) matches Ok(o1) ==> {
            &&& !given(a, "--dry-run"@) ==> o1.mode == ActionMode::Execute
        },
{
    redetect_settings_come_from_words(a, options::redetect_defaults());
}

// ---------------------------------------------------------------------------
// targets.
// ---------------------------------------------------------------------------
/// The words of `targets` are read one after the other: what stands behind some is
/// read on top of what they gave.
pub proof fn targets_words_add_up(a: Seq<Seq<char>>, b: Seq<Seq<char>>, o: TargetsOptions)
    ensures
        options::targets_given(a, o) matches Ok(o1)
            ==> options::targets_given(a + b, o) == options::targets_given(b, o1),
    decreases a.len(),
{
    if a.len() == 0 {
        assert(a + b =~= b);
    } else {
        let all = a + b;
        assert(all[0] == a[0]);
        assert(all.skip(1) =~= a.skip(1) + b);
        if a.len() >= 2 {
            assert(all[1] == a[1]);
            assert(all.skip(2) =~= a.skip(2) + b);
        }
        if a[0] == "--clear"@ {
            targets_words_add_up(a.skip(1), b, TargetsOptions { clear: true });
        }
    }
}

/// A further word of `targets` sets what it stands for and leaves the rest as it
/// was. Any other word is refused.
pub proof fn targets_words_take_effect(
    a: Seq<Seq<char>>,
    o: TargetsOptions,
    word: Seq<char>,
)
    ensures
        options::targets_given(a, o) matches Ok(o1) ==> {
            &&& options::targets_given(a + seq!["--clear"@], o) == Ok::<TargetsOptions, Seq<char>>(
                TargetsOptions { clear: true },
            )
            &&& word != "--clear"@
                ==> options::targets_given(a + seq![word], o) == Err::<TargetsOptions, Seq<char>>(
                    "unknown targets option `"@ + word + "`"@,
                )
        },
{
    reveal_strlit("--clear");
    if let Ok(o1) = options::targets_given(a, o) {
        assert(
            options::targets_given(a + seq!["--clear"@], o) == Ok::<TargetsOptions, Seq<char>>(
                TargetsOptions { clear: true },
            )
        ) by {
            let b = seq!["--clear"@];
            targets_words_add_up(a, b, o);
            assert(b[0] == "--clear"@);
            let next = TargetsOptions { clear: true };
            assert(b.skip(1) =~= Seq::empty());
            assert(options::targets_given(b, o1) == options::targets_given(b.skip(1), next));
            assert(
                options::targets_given(b.skip(1), next) == Ok::<TargetsOptions, Seq<char>>(next)
            );
        }
        targets_words_add_up(a, seq![word], o);
    }
}

/// What no word of `targets` sets stays as it was.
pub proof fn targets_settings_come_from_words(a: Seq<Seq<char>>, o: TargetsOptions)
    ensures
        options::targets_given(a, o) matches Ok(o1) ==> {
            &&& !given(a, "--clear"@) ==> o1.clear == o.clear
        },
    decreases a.len(),
{
    if a.len() > 0 {
        if options::targets_given(a, o) is Ok {
            if a[0] == "--clear"@ {
                targets_settings_come_from_words(a.skip(1), TargetsOptions { clear: true });
            }
            if given(a.skip(1), "--clear"@) {
                lemma_given_later(a, 1, "--clear"@);
            }
        }
    }
}

/// Without a word that says otherwise, `targets` goes by what it starts from.
pub proof fn targets_starts_from(a: Seq<Seq<char>>)
    ensures
        options::targets_given(a, options::targets_defaults()) matches Ok(o1) ==> {
            &&& !given(a, "--clear"@) ==> o1.clear == false
        },
{
    targets_settings_come_from_words(a, options::targets_defaults());
}

// ---------------------------------------------------------------------------
// safe-reset.
// ---------------------------------------------------------------------------
/// The words of `safe-reset` are read one after the other: what stands behind some is
/// read on top of what they gave.
pub proof fn reset_words_add_up(a: Seq<Seq<char>>, b: Seq<Seq<char>>, o: ResetOptions)
    ensures
        options::reset_given(a, o) matches Ok(o1)
            ==> options::reset_given(a + b, o) == options::reset_given(b, o1),
    decreases a.len(),
{
    if a.len() == 0 {
        assert(a + b =~= b);
    } else {
        let all = a + b;
        assert(all[0] == a[0]);
        assert(all.skip(1) =~= a.skip(1) + b);
        if a.len() >= 2 {
            assert(all[1] == a[1]);
            assert(all.skip(2) =~= a.skip(2) + b);
        }
        if a[0] == "--dry-run"@ {
            reset_words_add_up(a.skip(1), b, ResetOptions { mode: ActionMode::DryRun });
        }
    }
}

/// A further word of `safe-reset` sets what it stands for and leaves the rest as it
/// was. Any other word is refused.
pub proof fn reset_words_take_effect(
    a: Seq<Seq<char>>,
    o: ResetOptions,
    word: Seq<char>,
)
    ensures
        options::reset_given(a, o) matches Ok(o1) ==> {
            &&& options::reset_given(a + seq!["--dry-run"@], o) == Ok::<ResetOptions, Seq<char>>(
                ResetOptions { mode: ActionMode::DryRun },
            )
            &&& word != "--dry-run"@
                ==> options::reset_given(a + seq![word], o) == Err::<ResetOptions, Seq<char>>(
                    "unknown safe-reset option `"@ + word + "`"@,
                )
        },
{
    reveal_strlit("--dry-run");
    if let Ok(o1) = options::reset_given(a, o) {
        assert(
            options::reset_given(a + seq!["--dry-run"@], o) == Ok::<ResetOptions, Seq<char>>(
                ResetOptions { mode: ActionMode::DryRun },
            )
        ) by {
            let b = seq!["--dry-run"@];
            reset_words_add_up(a, b, o);
            assert(b[0] == "--dry-run"@);
            let next = ResetOptions { mode: ActionMode::DryRun };
            assert(b.skip(1) =~= Seq::empty());
            assert(options::reset_given(b, o1) == options::reset_given(b.skip(1), next));
            assert(options::reset_given(b.skip(1), next) == Ok::<ResetOptions, Seq<char>>(next));
        }
        reset_words_add_up(a, seq![word], o);
    }
}

/// What no word of `safe-reset` sets stays as it was.
pub proof fn reset_settings_come_from_words(a: Seq<Seq<char>>, o: ResetOptions)
    ensures
        options::reset_given(a, o) matches Ok(o1) ==> {
            &&& !given(a, "--dry-run"@) ==> o1.mode == o.mode
        },
    decreases a.len(),
{
    if a.len() > 0 {
        if options::reset_given(a, o) is Ok {
            if a[0] == "--dry-run"@ {
                reset_settings_come_from_words(
                    a.skip(1),
                    ResetOptions { mode: ActionMode::DryRun },
                );
            }
            if given(a.skip(1), "--dry-run"@) {
                lemma_given_later(a, 1, "--dry-run"@);
            }
        }
    }
}

/// Without a word that says otherwise, `safe-reset` goes by what it starts from.
pub proof fn reset_starts_from(a: Seq<Seq<char>>)
    ensures
        options::reset_given(a, options::reset_defaults()) matches Ok(o1) ==> {
            &&& !given(a, "--dry-run"@) ==> o1.mode == ActionMode::Execute
        },
{
    reset_settings_come_from_words(a, options::reset_defaults());
}

// ---------------------------------------------------------------------------
// guard.
// ---------------------------------------------------------------------------
/// The words of `guard` are read one after the other: what stands behind some is
/// read on top of what they gave.
pub proof fn guard_words_add_up(a: Seq<Seq<char>>, b: Seq<Seq<char>>, o: GuardOptionsView)
    ensures
        options::guard_given(a, o) matches Ok(o1)
            ==> options::guard_given(a + b, o) == options::guard_given(b, o1),
    decreases a.len(),
{
    if a.len() == 0 {
        assert(a + b =~= b);
    } else {
        let all = a + b;
        assert(all[0] == a[0]);
        assert(all.skip(1) =~= a.skip(1) + b);
        if a.len() >= 2 {
            assert(all[1] == a[1]);
            assert(all.skip(2) =~= a.skip(2) + b);
        }
        if a[0] == "--dry-run"@ {
            guard_words_add_up(a.skip(1), b, GuardOptionsView { mode: ActionMode::DryRun, ..o });
        } else if a[0] == "--quiet"@ {
            guard_words_add_up(a.skip(1), b, GuardOptionsView { verbose: false, ..o });
        } else if a[0] == "--reason"@ {
            if a.len() >= 2 {
                guard_words_add_up(a.skip(2), b, GuardOptionsView { reason: a[1], ..o });
            }
        }
    }
}

/// A further word of `guard` sets what it stands for and leaves the rest as it was,
/// and its value is what follows it. Any other word is refused.
pub proof fn guard_words_take_effect(
    a: Seq<Seq<char>>,
    o: GuardOptionsView,
    word: Seq<char>,
    value: Seq<char>,
)
    ensures
        options::guard_given(a, o) matches Ok(o1) ==> {
            &&& options::guard_given(a + seq!["--dry-run"@], o)
                == Ok::<GuardOptionsView, Seq<char>>(
                    GuardOptionsView { mode: ActionMode::DryRun, ..o1 },
                )
            &&& options::guard_given(a + seq!["--quiet"@], o) == Ok::<GuardOptionsView, Seq<char>>(
                GuardOptionsView { verbose: false, ..o1 },
            )
            &&& options::guard_given(a + seq!["--reason"@, value], o)
                == Ok::<GuardOptionsView, Seq<char>>(GuardOptionsView { reason: value, ..o1 })
            &&& options::guard_given(a + seq!["--reason"@], o) is Err
            &&& word != "--dry-run"@ && word != "--quiet"@ && word != "--reason"@
                ==> options::guard_given(a + seq![word], o) == Err::<GuardOptionsView, Seq<char>>(
                    "unknown guard option `"@ + word + "`"@,
                )
        },
{
    reveal_strlit("--dry-run");
    reveal_strlit("--quiet");
    reveal_strlit("--reason");
    if let Ok(o1) = options::guard_given(a, o) {
        assert(
            options::guard_given(a + seq!["--dry-run"@], o) == Ok::<GuardOptionsView, Seq<char>>(
                GuardOptionsView { mode: ActionMode::DryRun, ..o1 },
            )
        ) by {
            let b = seq!["--dry-run"@];
            guard_words_add_up(a, b, o);
            assert(b[0] == "--dry-run"@);
            let next = GuardOptionsView { mode: ActionMode::DryRun, ..o1 };
            assert(b.skip(1) =~= Seq::empty());
            assert(options::guard_given(b, o1) == options::guard_given(b.skip(1), next));
            assert(
                options::guard_given(b.skip(1), next) == Ok::<GuardOptionsView, Seq<char>>(next)
            );
        }
        assert(
            options::guard_given(a + seq!["--quiet"@], o) == Ok::<GuardOptionsView, Seq<char>>(
                GuardOptionsView { verbose: false, ..o1 },
            )
        ) by {
            let b = seq!["--quiet"@];
            guard_words_add_up(a, b, o);
            assert(b[0] == "--quiet"@);
            let next = GuardOptionsView { verbose: false, ..o1 };
            assert(b.skip(1) =~= Seq::empty());
            assert(options::guard_given(b, o1) == options::guard_given(b.skip(1), next));
            assert(
                options::guard_given(b.skip(1), next) == Ok::<GuardOptionsView, Seq<char>>(next)
            );
        }
        assert(
            options::guard_given(a + seq!["--reason"@, value], o)
                == Ok::<GuardOptionsView, Seq<char>>(GuardOptionsView { reason: value, ..o1 })
        ) by {
            let b = seq!["--reason"@, value];
            guard_words_add_up(a, b, o);
            assert(b[0] == "--reason"@);
            let next = GuardOptionsView { reason: value, ..o1 };
            assert(b.skip(2) =~= Seq::empty());
            assert(options::guard_given(b, o1) == options::guard_given(b.skip(2), next));
            assert(
                options::guard_given(b.skip(2), next) == Ok::<GuardOptionsView, Seq<char>>(next)
            );
        }
        assert(options::guard_given(a + seq!["--reason"@], o) is Err) by {
            let b = seq!["--reason"@];
            guard_words_add_up(a, b, o);
            assert(b[0] == "--reason"@);
        }
        guard_words_add_up(a, seq![word], o);
    }
}

/// What no word of `guard` sets stays as it was.
pub proof fn guard_settings_come_from_words(a: Seq<Seq<char>>, o: GuardOptionsView)
    ensures
        options::guard_given(a, o) matches Ok(o1) ==> {
            &&& !given(a, "--dry-run"@) ==> o1.mode == o.mode
            &&& !given(a, "--reason"@) ==> o1.reason == o.reason
            &&& !given(a, "--quiet"@) ==> o1.verbose == o.verbose
        },
    decreases a.len(),
{
    if a.len() > 0 {
        if options::guard_given(a, o) is Ok {
            if a[0] == "--dry-run"@ {
                guard_settings_come_from_words(
                    a.skip(1),
                    GuardOptionsView { mode: ActionMode::DryRun, ..o },
                );
            } else if a[0] == "--quiet"@ {
                guard_settings_come_from_words(a.skip(1), GuardOptionsView { verbose: false, ..o });
            } else if a[0] == "--reason"@ {
                if a.len() >= 2 {
                    guard_settings_come_from_words(a.skip(2), GuardOptionsView { reason: a[1], ..o });
                }
            }
            if given(a.skip(1), "--dry-run"@) {
                lemma_given_later(a, 1, "--dry-run"@);
            }
            if a.len() >= 2 && given(a.skip(2), "--dry-run"@) {
                lemma_given_later(a, 2, "--dry-run"@);
            }
            if given(a.skip(1), "--quiet"@) {
                lemma_given_later(a, 1, "--quiet"@);
            }
            if a.len() >= 2 && given(a.skip(2), "--quiet"@) {
                lemma_given_later(a, 2, "--quiet"@);
            }
            if given(a.skip(1), "--reason"@) {
                lemma_given_later(a, 1, "--reason"@);
            }
            if a.len() >= 2 && given(a.skip(2), "--reason"@) {
                lemma_given_later(a, 2, "--reason"@);
            }
        }
    }
}

/// Without a word that says otherwise, `guard` goes by what it starts from.
pub proof fn guard_starts_from(a: Seq<Seq<char>>)
    ensures
        options::guard_given(a, options::guard_defaults()) matches Ok(o1) ==> {
            &&& !given(a, "--dry-run"@) ==> o1.mode == ActionMode::Execute
            &&& !given(a, "--reason"@) ==> o1.reason == "manual"@
            &&& !given(a, "--quiet"@) ==> o1.verbose == true
        },
{
    guard_settings_come_from_words(a, options::guard_defaults());
}

// ---------------------------------------------------------------------------
// install-guard.
// ---------------------------------------------------------------------------
/// The words of `install-guard` are read one after the other: what stands behind some is
/// read on top of what they gave.
pub proof fn install_words_add_up(a: Seq<Seq<char>>, b: Seq<Seq<char>>, o: InstallOptions)
    ensures
        options::install_given(a, o) matches Ok(o1)
            ==> options::install_given(a + b, o) == options::install_given(b, o1),
    decreases a.len(),
{
    if a.len() == 0 {
        assert(a + b =~= b);
    } else {
        let all = a + b;
        assert(all[0] == a[0]);
        assert(all.skip(1) =~= a.skip(1) + b);
        if a.len() >= 2 {
            assert(all[1] == a[1]);
            assert(all.skip(2) =~= a.skip(2) + b);
        }
        if a[0] == "--interval"@ {
            if a.len() >= 2 {
                if let Ok(n) = number::u64_value(a[1]) {
                    install_words_add_up(
                        a.skip(2),
                        b,
                        InstallOptions { interval: at_least(n, 5), ..o },
                    );
                }
            }
        } else if a[0] == "--no-load"@ {
            install_words_add_up(a.skip(1), b, InstallOptions { load: false, ..o });
        } else if a[0] == "--dry-run"@ {
            install_words_add_up(a.skip(1), b, InstallOptions { mode: ActionMode::DryRun, ..o });
        }
    }
}

/// A further word of `install-guard` sets what it stands for and leaves the rest as
/// it was, and its value is what follows it. Any other word is refused.
pub proof fn install_words_take_effect(
    a: Seq<Seq<char>>,
    o: InstallOptions,
    word: Seq<char>,
    value: Seq<char>,
)
    ensures
        options::install_given(a, o) matches Ok(o1) ==> {
            &&& match number::u64_value(value) {
                Ok(n) => options::install_given(a + seq!["--interval"@, value], o)
                    == Ok::<InstallOptions, Seq<char>>(
                        InstallOptions { interval: at_least(n, 5), ..o1 },
                    ),
                Err(_) => options::install_given(a + seq!["--interval"@, value], o) is Err,
            }
            &&& options::install_given(a + seq!["--interval"@], o) is Err
            &&& options::install_given(a + seq!["--no-load"@], o)
                == Ok::<InstallOptions, Seq<char>>(InstallOptions { load: false, ..o1 })
            &&& options::install_given(a + seq!["--dry-run"@], o)
                == Ok::<InstallOptions, Seq<char>>(
                    InstallOptions { mode: ActionMode::DryRun, ..o1 },
                )
            &&& word != "--interval"@ && word != "--no-load"@ && word != "--dry-run"@
                ==> options::install_given(a + seq![word], o) == Err::<InstallOptions, Seq<char>>(
                    "unknown install-guard option `"@ + word + "`"@,
                )
        },
{
    reveal_strlit("--interval");
    reveal_strlit("--no-load");
    reveal_strlit("--dry-run");
    assert("--dry-run"@[2] != "--no-load"@[2]);
    if let Ok(o1) = options::install_given(a, o) {
        match number::u64_value(value) {
            Ok(n) => {
        assert(
            options::install_given(a + seq!["--interval"@, value], o)
                == Ok::<InstallOptions, Seq<char>>(
                    InstallOptions { interval: at_least(n, 5), ..o1 },
                )
        ) by {
            let b = seq!["--interval"@, value];
            install_words_add_up(a, b, o);
            assert(b[0] == "--interval"@);
            let next = InstallOptions { interval: at_least(n, 5), ..o1 };
            assert(b.skip(2) =~= Seq::empty());
            assert(options::install_given(b, o1) == options::install_given(b.skip(2), next));
            assert(
                options::install_given(b.skip(2), next) == Ok::<InstallOptions, Seq<char>>(next)
            );
        }
            },
            Err(_) => {
        assert(options::install_given(a + seq!["--interval"@, value], o) is Err) by {
            let b = seq!["--interval"@, value];
            install_words_add_up(a, b, o);
            assert(b[0] == "--interval"@);
        }
            },
        }
        assert(options::install_given(a + seq!["--interval"@], o) is Err) by {
            let b = seq!["--interval"@];
            install_words_add_up(a, b, o);
            assert(b[0] == "--interval"@);
        }
        assert(
            options::install_given(a + seq!["--no-load"@], o) == Ok::<InstallOptions, Seq<char>>(
                InstallOptions { load: false, ..o1 },
            )
        ) by {
            let b = seq!["--no-load"@];
            install_words_add_up(a, b, o);
            assert(b[0] == "--no-load"@);
            let next = InstallOptions { load: false, ..o1 };
            assert(b.skip(1) =~= Seq::empty());
            assert(options::install_given(b, o1) == options::install_given(b.skip(1), next));
            assert(
                options::install_given(b.skip(1), next) == Ok::<InstallOptions, Seq<char>>(next)
            );
        }
        assert(
            options::install_given(a + seq!["--dry-run"@], o) == Ok::<InstallOptions, Seq<char>>(
                InstallOptions { mode: ActionMode::DryRun, ..o1 },
            )
        ) by {
            let b = seq!["--dry-run"@];
            install_words_add_up(a, b, o);
            assert(b[0] == "--dry-run"@);
            let next = InstallOptions { mode: ActionMode::DryRun, ..o1 };
            assert(b.skip(1) =~= Seq::empty());
            assert(options::install_given(b, o1) == options::install_given(b.skip(1), next));
            assert(
                options::install_given(b.skip(1), next) == Ok::<InstallOptions, Seq<char>>(next)
            );
        }
        install_words_add_up(a, seq![word], o);
    }
}

/// What no word of `install-guard` sets stays as it was.
pub proof fn install_settings_come_from_words(a: Seq<Seq<char>>, o: InstallOptions)
    ensures
        options::install_given(a, o) matches Ok(o1) ==> {
            &&& !given(a, "--interval"@) ==> o1.interval == o.interval
            &&& !given(a, "--no-load"@) ==> o1.load == o.load
            &&& !given(a, "--dry-run"@) ==> o1.mode == o.mode
        },
    decreases a.len(),
{
    if a.len() > 0 {
        if options::install_given(a, o) is Ok {
            if a[0] == "--interval"@ {
                if a.len() >= 2 {
                    if let Ok(n) = number::u64_value(a[1]) {
                        install_settings_come_from_words(
                            a.skip(2),
                            InstallOptions { interval: at_least(n, 5), ..o },
                        );
                    }
                }
            } else if a[0] == "--no-load"@ {
                install_settings_come_from_words(a.skip(1), InstallOptions { load: false, ..o });
            } else if a[0] == "--dry-run"@ {
                install_settings_come_from_words(
                    a.skip(1),
                    InstallOptions { mode: ActionMode::DryRun, ..o },
                );
            }
            if given(a.skip(1), "--interval"@) {
                lemma_given_later(a, 1, "--interval"@);
            }
            if a.len() >= 2 && given(a.skip(2), "--interval"@) {
                lemma_given_later(a, 2, "--interval"@);
            }
            if given(a.skip(1), "--no-load"@) {
                lemma_given_later(a, 1, "--no-load"@);
            }
            if a.len() >= 2 && given(a.skip(2), "--no-load"@) {
                lemma_given_later(a, 2, "--no-load"@);
            }
            if given(a.skip(1), "--dry-run"@) {
                lemma_given_later(a, 1, "--dry-run"@);
            }
            if a.len() >= 2 && given(a.skip(2), "--dry-run"@) {
                lemma_given_later(a, 2, "--dry-run"@);
            }
        }
    }
}

/// Without a word that says otherwise, `install-guard` goes by what it starts from.
pub proof fn install_starts_from(a: Seq<Seq<char>>)
    ensures
        options::install_given(a, options::install_defaults()) matches Ok(o1) ==> {
            &&& !given(a, "--interval"@) ==> o1.interval == 30
            &&& !given(a, "--no-load"@) ==> o1.load == true
            &&& !given(a, "--dry-run"@) ==> o1.mode == ActionMode::Execute
        },
{
    install_settings_come_from_words(a, options::install_defaults());
}

// ---------------------------------------------------------------------------
// uninstall-guard.
// ---------------------------------------------------------------------------
/// The words of `uninstall-guard` are read one after the other: what stands behind some is
/// read on top of what they gave.
pub proof fn uninstall_words_add_up(a: Seq<Seq<char>>, b: Seq<Seq<char>>, o: UninstallOptions)
    ensures
        options::uninstall_given(a, o) matches Ok(o1)
            ==> options::uninstall_given(a + b, o) == options::uninstall_given(b, o1),
    decreases a.len(),
{
    if a.len() == 0 {
        assert(a + b =~= b);
    } else {
        let all = a + b;
        assert(all[0] == a[0]);
        assert(all.skip(1) =~= a.skip(1) + b);
        if a.len() >= 2 {
            assert(all[1] == a[1]);
            assert(all.skip(2) =~= a.skip(2) + b);
        }
        if a[0] == "--no-unload"@ {
            uninstall_words_add_up(a.skip(1), b, UninstallOptions { unload: false, ..o });
        } else if a[0] == "--dry-run"@ {
            uninstall_words_add_up(
                a.skip(1),
                b,
                UninstallOptions { mode: ActionMode::DryRun, ..o },
            );
        }
    }
}

/// A further word of `uninstall-guard` sets what it stands for and leaves the rest
/// as it was. Any other word is refused.
pub proof fn uninstall_words_take_effect(
    a: Seq<Seq<char>>,
    o: UninstallOptions,
    word: Seq<char>,
)
    ensures
        options::uninstall_given(a, o) matches Ok(o1) ==> {
            &&& options::uninstall_given(a + seq!["--no-unload"@], o)
                == Ok::<UninstallOptions, Seq<char>>(UninstallOptions { unload: false, ..o1 })
            &&& options::uninstall_given(a + seq!["--dry-run"@], o)
                == Ok::<UninstallOptions, Seq<char>>(
                    UninstallOptions { mode: ActionMode::DryRun, ..o1 },
                )
            &&& word != "--no-unload"@ && word != "--dry-run"@
                ==> options::uninstall_given(
                    a + seq![word],
                    o,
                ) == Err::<UninstallOptions, Seq<char>>(
                    "unknown uninstall-guard option `"@ + word + "`"@,
                )
        },
{
    reveal_strlit("--no-unload");
    reveal_strlit("--dry-run");
    if let Ok(o1) = options::uninstall_given(a, o) {
        assert(
            options::uninstall_given(a + seq!["--no-unload"@], o)
                == Ok::<UninstallOptions, Seq<char>>(UninstallOptions { unload: false, ..o1 })
        ) by {
            let b = seq!["--no-unload"@];
            uninstall_words_add_up(a, b, o);
            assert(b[0] == "--no-unload"@);
            let next = UninstallOptions { unload: false, ..o1 };
            assert(b.skip(1) =~= Seq::empty());
            assert(options::uninstall_given(b, o1) == options::uninstall_given(b.skip(1), next));
            assert(
                options::uninstall_given(b.skip(1), next) == Ok::<UninstallOptions, Seq<char>>(next)
            );
        }
        assert(
            options::uninstall_given(a + seq!["--dry-run"@], o)
                == Ok::<UninstallOptions, Seq<char>>(
                    UninstallOptions { mode: ActionMode::DryRun, ..o1 },
                )
        ) by {
            let b = seq!["--dry-run"@];
            uninstall_words_add_up(a, b, o);
            assert(b[0] == "--dry-run"@);
            let next = UninstallOptions { mode: ActionMode::DryRun, ..o1 };
            assert(b.skip(1) =~= Seq::empty());
            assert(options::uninstall_given(b, o1) == options::uninstall_given(b.skip(1), next));
            assert(
                options::uninstall_given(b.skip(1), next) == Ok::<UninstallOptions, Seq<char>>(next)
            );
        }
        uninstall_words_add_up(a, seq![word], o);
    }
}

/// What no word of `uninstall-guard` sets stays as it was.
pub proof fn uninstall_settings_come_from_words(a: Seq<Seq<char>>, o: UninstallOptions)
    ensures
        options::uninstall_given(a, o) matches Ok(o1) ==> {
            &&& !given(a, "--no-unload"@) ==> o1.unload == o.unload
            &&& !given(a, "--dry-run"@) ==> o1.mode == o.mode
        },
    decreases a.len(),
{
    if a.len() > 0 {
        if options::uninstall_given(a, o) is Ok {
            if a[0] == "--no-unload"@ {
                uninstall_settings_come_from_words(
                    a.skip(1),
                    UninstallOptions { unload: false, ..o },
                );
            } else if a[0] == "--dry-run"@ {
                uninstall_settings_come_from_words(
                    a.skip(1),
                    UninstallOptions { mode: ActionMode::DryRun, ..o },
                );
            }
            if given(a.skip(1), "--no-unload"@) {
                lemma_given_later(a, 1, "--no-unload"@);
            }
            if given(a.skip(1), "--dry-run"@) {
                lemma_given_later(a, 1, "--dry-run"@);
            }
        }
    }
}

/// Without a word that says otherwise, `uninstall-guard` goes by what it starts from.
pub proof fn uninstall_starts_from(a: Seq<Seq<char>>)
    ensures
        options::uninstall_given(a, options::uninstall_defaults()) matches Ok(o1) ==> {
            &&& !given(a, "--no-unload"@) ==> o1.unload == true
            &&& !given(a, "--dry-run"@) ==> o1.mode == ActionMode::Execute
        },
{
    uninstall_settings_come_from_words(a, options::uninstall_defaults());
}

// ---------------------------------------------------------------------------
// watch.
// ---------------------------------------------------------------------------
/// The words of `watch` are read one after the other: what stands behind some is
/// read on top of what they gave.
pub proof fn watch_words_add_up(a: Seq<Seq<char>>, b: Seq<Seq<char>>, o: WatchOptionsView)
    ensures
        options::watch_given(a, o) matches Ok(o1)
            ==> options::watch_given(a + b, o) == options::watch_given(b, o1),
    decreases a.len(),
{
    if a.len() == 0 {
        assert(a + b =~= b);
    } else {
        let all = a + b;
        assert(all[0] == a[0]);
        assert(all.skip(1) =~= a.skip(1) + b);
        if a.len() >= 2 {
            assert(all[1] == a[1]);
            assert(all.skip(2) =~= a.skip(2) + b);
        }
        if a[0] == "--target-id"@ {
            if a.len() >= 2 {
                watch_words_add_up(a.skip(2), b, WatchOptionsView { target: Some(a[1]), ..o });
            }
        } else if a[0] == "--target-serial"@ {
            if a.len() >= 2 {
                watch_words_add_up(a.skip(2), b, WatchOptionsView { target: Some(a[1]), ..o });
            }
        } else if a[0] == "--interval"@ {
            if a.len() >= 2 {
                if let Ok(n) = number::u64_value(a[1]) {
                    watch_words_add_up(
                        a.skip(2),
                        b,
                        WatchOptionsView { interval: at_least(n, 1), ..o },
                    );
                }
            }
        } else if a[0] == "--dry-run"@ {
            watch_words_add_up(a.skip(1), b, WatchOptionsView { mode: ActionMode::DryRun, ..o });
        } else if a[0] == "--force"@ {
            watch_words_add_up(a.skip(1), b, WatchOptionsView { force: true, ..o });
        }
    }
}

/// A further word of `watch` sets what it stands for and leaves the rest as it was,
/// and its value is what follows it. Any other word is refused.
pub proof fn watch_words_take_effect(
    a: Seq<Seq<char>>,
    o: WatchOptionsView,
    word: Seq<char>,
    value: Seq<char>,
)
    ensures
        options::watch_given(a, o) matches Ok(o1) ==> {
            &&& options::watch_given(a + seq!["--target-id"@, value], o)
                == Ok::<WatchOptionsView, Seq<char>>(WatchOptionsView { target: Some(value), ..o1 })
            &&& options::watch_given(a + seq!["--target-id"@], o) is Err
            &&& options::watch_given(a + seq!["--target-serial"@, value], o)
                == Ok::<WatchOptionsView, Seq<char>>(WatchOptionsView { target: Some(value), ..o1 })
            &&& options::watch_given(a + seq!["--target-serial"@], o) is Err
            &&& match number::u64_value(value) {
                Ok(n) => options::watch_given(a + seq!["--interval"@, value], o)
                    == Ok::<WatchOptionsView, Seq<char>>(
                        WatchOptionsView { interval: at_least(n, 1), ..o1 },
                    ),
                Err(_) => options::watch_given(a + seq!["--interval"@, value], o) is Err,
            }
            &&& options::watch_given(a + seq!["--interval"@], o) is Err
            &&& options::watch_given(a + seq!["--dry-run"@], o)
                == Ok::<WatchOptionsView, Seq<char>>(
                    WatchOptionsView { mode: ActionMode::DryRun, ..o1 },
                )
            &&& options::watch_given(a + seq!["--force"@], o) == Ok::<WatchOptionsView, Seq<char>>(
                WatchOptionsView { force: true, ..o1 },
            )
            &&& word != "--target-id"@ && word != "--target-serial"@ && word != "--interval"@
                && word != "--dry-run"@ && word != "--force"@
                ==> options::watch_given(a + seq![word], o) == Err::<WatchOptionsView, Seq<char>>(
                    "unknown watch option `"@ + word + "`"@,
                )
        },
{
    reveal_strlit("--target-id");
    reveal_strlit("--target-serial");
    reveal_strlit("--interval");
    reveal_strlit("--dry-run");
    reveal_strlit("--force");
    if let Ok(o1) = options::watch_given(a, o) {
        assert(
            options::watch_given(a + seq!["--target-id"@, value], o)
                == Ok::<WatchOptionsView, Seq<char>>(WatchOptionsView { target: Some(value), ..o1 })
        ) by {
            let b = seq!["--target-id"@, value];
            watch_words_add_up(a, b, o);
            assert(b[0] == "--target-id"@);
            let next = WatchOptionsView { target: Some(value), ..o1 };
            assert(b.skip(2) =~= Seq::empty());
            assert(options::watch_given(b, o1) == options::watch_given(b.skip(2), next));
            assert(
                options::watch_given(b.skip(2), next) == Ok::<WatchOptionsView, Seq<char>>(next)
            );
        }
        assert(options::watch_given(a + seq!["--target-id"@], o) is Err) by {
            let b = seq!["--target-id"@];
            watch_words_add_up(a, b, o);
            assert(b[0] == "--target-id"@);
        }
        assert(
            options::watch_given(a + seq!["--target-serial"@, value], o)
                == Ok::<WatchOptionsView, Seq<char>>(WatchOptionsView { target: Some(value), ..o1 })
        ) by {
            let b = seq!["--target-serial"@, value];
            watch_words_add_up(a, b, o);
            assert(b[0] == "--target-serial"@);
            let next = WatchOptionsView { target: Some(value), ..o1 };
            assert(b.skip(2) =~= Seq::empty());
            assert(options::watch_given(b, o1) == options::watch_given(b.skip(2), next));
            assert(
                options::watch_given(b.skip(2), next) == Ok::<WatchOptionsView, Seq<char>>(next)
            );
        }
        assert(options::watch_given(a + seq!["--target-serial"@], o) is Err) by {
            let b = seq!["--target-serial"@];
            watch_words_add_up(a, b, o);
            assert(b[0] == "--target-serial"@);
        }
        match number::u64_value(value) {
            Ok(n) => {
        assert(
            options::watch_given(a + seq!["--interval"@, value], o)
                == Ok::<WatchOptionsView, Seq<char>>(
                    WatchOptionsView { interval: at_least(n, 1), ..o1 },
                )
        ) by {
            let b = seq!["--interval"@, value];
            watch_words_add_up(a, b, o);
            assert(b[0] == "--interval"@);
            let next = WatchOptionsView { interval: at_least(n, 1), ..o1 };
            assert(b.skip(2) =~= Seq::empty());
            assert(options::watch_given(b, o1) == options::watch_given(b.skip(2), next));
            assert(
                options::watch_given(b.skip(2), next) == Ok::<WatchOptionsView, Seq<char>>(next)
            );
        }
            },
            Err(_) => {
        assert(options::watch_given(a + seq!["--interval"@, value], o) is Err) by {
            let b = seq!["--interval"@, value];
            watch_words_add_up(a, b, o);
            assert(b[0] == "--interval"@);
        }
            },
        }
        assert(options::watch_given(a + seq!["--interval"@], o) is Err) by {
            let b = seq!["--interval"@];
            watch_words_add_up(a, b, o);
            assert(b[0] == "--interval"@);
        }
        assert(
            options::watch_given(a + seq!["--dry-run"@], o) == Ok::<WatchOptionsView, Seq<char>>(
                WatchOptionsView { mode: ActionMode::DryRun, ..o1 },
            )
        ) by {
            let b = seq!["--dry-run"@];
            watch_words_add_up(a, b, o);
            assert(b[0] == "--dry-run"@);
            let next = WatchOptionsView { mode: ActionMode::DryRun, ..o1 };
            assert(b.skip(1) =~= Seq::empty());
            assert(options::watch_given(b, o1) == options::watch_given(b.skip(1), next));
            assert(
                options::watch_given(b.skip(1), next) == Ok::<WatchOptionsView, Seq<char>>(next)
            );
        }
        assert(
            options::watch_given(a + seq!["--force"@], o) == Ok::<WatchOptionsView, Seq<char>>(
                WatchOptionsView { force: true, ..o1 },
            )
        ) by {
            let b = seq!["--force"@];
            watch_words_add_up(a, b, o);
            assert(b[0] == "--force"@);
            let next = WatchOptionsView { force: true, ..o1 };
            assert(b.skip(1) =~= Seq::empty());
            assert(options::watch_given(b, o1) == options::watch_given(b.skip(1), next));
            assert(
                options::watch_given(b.skip(1), next) == Ok::<WatchOptionsView, Seq<char>>(next)
            );
        }
        watch_words_add_up(a, seq![word], o);
    }
}

/// What no word of `watch` sets stays as it was.
pub proof fn watch_settings_come_from_words(a: Seq<Seq<char>>, o: WatchOptionsView)
    ensures
        options::watch_given(a, o) matches Ok(o1) ==> {
            &&& !given(a, "--target-id"@) && !given(a, "--target-serial"@) ==> o1.target == o.target
            &&& !given(a, "--interval"@) ==> o1.interval == o.interval
            &&& !given(a, "--dry-run"@) ==> o1.mode == o.mode
            &&& !given(a, "--force"@) ==> o1.force == o.force
        },
    decreases a.len(),
{
    if a.len() > 0 {
        if options::watch_given(a, o) is Ok {
            if a[0] == "--target-id"@ {
                if a.len() >= 2 {
                    watch_settings_come_from_words(
                        a.skip(2),
                        WatchOptionsView { target: Some(a[1]), ..o },
                    );
                }
            } else if a[0] == "--target-serial"@ {
                if a.len() >= 2 {
                    watch_settings_come_from_words(
                        a.skip(2),
                        WatchOptionsView { target: Some(a[1]), ..o },
                    );
                }
            } else if a[0] == "--interval"@ {
                if a.len() >= 2 {
                    if let Ok(n) = number::u64_value(a[1]) {
                        watch_settings_come_from_words(
                            a.skip(2),
                            WatchOptionsView { interval: at_least(n, 1), ..o },
                        );
                    }
                }
            } else if a[0] == "--dry-run"@ {
                watch_settings_come_from_words(
                    a.skip(1),
                    WatchOptionsView { mode: ActionMode::DryRun, ..o },
                );
            } else if a[0] == "--force"@ {
                watch_settings_come_from_words(a.skip(1), WatchOptionsView { force: true, ..o });
            }
            if given(a.skip(1), "--target-id"@) {
                lemma_given_later(a, 1, "--target-id"@);
            }
            if a.len() >= 2 && given(a.skip(2), "--target-id"@) {
                lemma_given_later(a, 2, "--target-id"@);
            }
            if given(a.skip(1), "--target-serial"@) {
                lemma_given_later(a, 1, "--target-serial"@);
            }
            if a.len() >= 2 && given(a.skip(2), "--target-serial"@) {
                lemma_given_later(a, 2, "--target-serial"@);
            }
            if given(a.skip(1), "--interval"@) {
                lemma_given_later(a, 1, "--interval"@);
            }
            if a.len() >= 2 && given(a.skip(2), "--interval"@) {
                lemma_given_later(a, 2, "--interval"@);
            }
            if given(a.skip(1), "--dry-run"@) {
                lemma_given_later(a, 1, "--dry-run"@);
            }
            if a.len() >= 2 && given(a.skip(2), "--dry-run"@) {
                lemma_given_later(a, 2, "--dry-run"@);
            }
            if given(a.skip(1), "--force"@) {
                lemma_given_later(a, 1, "--force"@);
            }
            if a.len() >= 2 && given(a.skip(2), "--force"@) {
                lemma_given_later(a, 2, "--force"@);
            }
        }
    }
}

/// Without a word that says otherwise, `watch` goes by what it starts from.
pub proof fn watch_starts_from(a: Seq<Seq<char>>)
    ensures
        options::watch_given(a, options::watch_defaults()) matches Ok(o1) ==> {
            &&& !given(a, "--target-id"@) && !given(a, "--target-serial"@)
                ==> o1.target == None::<Seq<char>>
            &&& !given(a, "--interval"@) ==> o1.interval == 60
            &&& !given(a, "--dry-run"@) ==> o1.mode == ActionMode::Execute
            &&& !given(a, "--force"@) ==> o1.force == false
        },
{
    watch_settings_come_from_words(a, options::watch_defaults());
}

} // verus!
