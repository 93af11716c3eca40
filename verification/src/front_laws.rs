//! A procedure reads its tape from the front, and no further than it needs.
//!
//! So what a procedure asked for on its way can be told from what it asks for over
//! the beginnings of its tape.

use vstd::prelude::*;

use crate::commands;
use crate::display::DisplayView;
use crate::effect;
use crate::effect::{Course, EffectView, ReplyView};
use crate::files;
use crate::guard;
use crate::install;
use crate::install::GuardPlistView;
use crate::interactive;
use crate::interactive::UiView;
use crate::native;
use crate::policy::{ActionMode, ClamshellState, GuardAction};
use crate::replay_laws;
use crate::restore;
use crate::restore::TrialView;
use crate::snapshot;
use crate::snapshot::ProbeView;
use crate::switching;
use crate::target::TargetView;
use crate::watch;
use crate::watching;

verus! {

/// What is left of a tape is no longer than the tape.
pub open spec fn shrinks<T>(now: Course<T>, t: Seq<ReplyView>) -> bool {
    match now {
        Course::Asks(_) => true,
        Course::Ends(_, rest) => rest.len() <= t.len(),
    }
}

/// `now` is what a procedure comes to over a tape, `later` what it comes to over
/// that tape with `more` behind it. Where it asked for an effect, and ends later,
/// it has read some of what was added.
pub open spec fn waits<T>(now: Course<T>, later: Course<T>, more: Seq<ReplyView>) -> bool {
    match now {
        Course::Asks(_) => match later {
            Course::Asks(_) => true,
            Course::Ends(_, rest) => rest.len() < more.len(),
        },
        Course::Ends(_, _) => true,
    }
}

/// A tape is what was read of it, with what is left behind that.
proof fn lemma_parts(t: Seq<ReplyView>, rest: Seq<ReplyView>, j: int)
    ensures
        rest.len() <= t.len() && 0 <= j <= rest.len() ==> {
            let k = t.len() - rest.len() + j;
            &&& t == t.take(k) + t.skip(k)
            &&& forall|s: Seq<ReplyView>| #[trigger]
                (s + t.skip(k)) == rest ==> s == rest.take(j) && (j == 0 ==> t.skip(k) == rest)
        },
{
    if rest.len() <= t.len() && 0 <= j <= rest.len() {
        let k = t.len() - rest.len() + j;
        assert(t =~= t.take(k) + t.skip(k));
        assert forall|s: Seq<ReplyView>| #[trigger] (s + t.skip(k)) == rest implies s == rest.take(
            j,
        ) && (j == 0 ==> t.skip(k) == rest) by {
            assert(s.len() == j);
            assert(s =~= rest.take(j));
            if j == 0 {
                assert(t.skip(k) =~= rest);
            }
        }
    }
}

// ---------------------------------------------------------------------------
// Effects.
// ---------------------------------------------------------------------------
pub broadcast proof fn asks_any_shrinks(effect: EffectView, t: Seq<ReplyView>)
    ensures
        shrinks(#[trigger] effect::asks_any(effect, t), t),
{
}

pub broadcast proof fn asks_any_waits(effect: EffectView, t: Seq<ReplyView>, more: Seq<ReplyView>)
    ensures
        waits(effect::asks_any(effect, t), #[trigger] effect::asks_any(effect, t + more), more),
{
}

pub proof fn asks_any_cut(effect: EffectView, t: Seq<ReplyView>, j: int)
    ensures
        effect::asks_any(effect, t) matches Course::Ends(value, rest) ==> {
            &&& rest == t.skip(t.len() - rest.len())
            &&& 0 <= j <= rest.len() ==> effect::asks_any(
                effect, t.take(t.len() - rest.len() + j),
            ) == Course::Ends(value, rest.take(j))
        },
{
    broadcast use {asks_any_shrinks, asks_any_waits, replay_laws::asks_any_goes_on};

    if let Course::Ends(value, rest) = effect::asks_any(effect, t) {
        lemma_parts(t, rest, 0);
        lemma_parts(t, rest, j);
    }
}

pub broadcast proof fn said_shrinks(line: Seq<char>, t: Seq<ReplyView>)
    ensures
        shrinks(#[trigger] effect::said(line, t), t),
{
    broadcast use asks_any_shrinks;

}

pub broadcast proof fn said_waits(line: Seq<char>, t: Seq<ReplyView>, more: Seq<ReplyView>)
    ensures
        waits(effect::said(line, t), #[trigger] effect::said(line, t + more), more),
{
    broadcast use {asks_any_shrinks, asks_any_waits, replay_laws::asks_any_goes_on};

}

pub proof fn said_cut(line: Seq<char>, t: Seq<ReplyView>, j: int)
    ensures
        effect::said(line, t) matches Course::Ends(value, rest) ==> {
            &&& rest == t.skip(t.len() - rest.len())
            &&& 0 <= j <= rest.len() ==> effect::said(
                line, t.take(t.len() - rest.len() + j),
            ) == Course::Ends(value, rest.take(j))
        },
{
    broadcast use {said_shrinks, said_waits, replay_laws::said_goes_on};

    if let Course::Ends(value, rest) = effect::said(line, t) {
        lemma_parts(t, rest, 0);
        lemma_parts(t, rest, j);
    }
}

pub broadcast proof fn asks_ran_shrinks(effect: EffectView, t: Seq<ReplyView>)
    ensures
        shrinks(#[trigger] effect::asks_ran(effect, t), t),
{
}

pub broadcast proof fn asks_ran_waits(effect: EffectView, t: Seq<ReplyView>, more: Seq<ReplyView>)
    ensures
        waits(effect::asks_ran(effect, t), #[trigger] effect::asks_ran(effect, t + more), more),
{
}

pub proof fn asks_ran_cut(effect: EffectView, t: Seq<ReplyView>, j: int)
    ensures
        effect::asks_ran(effect, t) matches Course::Ends(value, rest) ==> {
            &&& rest == t.skip(t.len() - rest.len())
            &&& 0 <= j <= rest.len() ==> effect::asks_ran(
                effect, t.take(t.len() - rest.len() + j),
            ) == Course::Ends(value, rest.take(j))
        },
{
    broadcast use {asks_ran_shrinks, asks_ran_waits, replay_laws::asks_ran_goes_on};

    if let Course::Ends(value, rest) = effect::asks_ran(effect, t) {
        lemma_parts(t, rest, 0);
        lemma_parts(t, rest, j);
    }
}

pub broadcast proof fn asks_file_shrinks(effect: EffectView, t: Seq<ReplyView>)
    ensures
        shrinks(#[trigger] effect::asks_file(effect, t), t),
{
}

pub broadcast proof fn asks_file_waits(effect: EffectView, t: Seq<ReplyView>, more: Seq<ReplyView>)
    ensures
        waits(effect::asks_file(effect, t), #[trigger] effect::asks_file(effect, t + more), more),
{
}

pub broadcast proof fn asks_done_shrinks(effect: EffectView, t: Seq<ReplyView>)
    ensures
        shrinks(#[trigger] effect::asks_done(effect, t), t),
{
}

pub broadcast proof fn asks_done_waits(effect: EffectView, t: Seq<ReplyView>, more: Seq<ReplyView>)
    ensures
        waits(effect::asks_done(effect, t), #[trigger] effect::asks_done(effect, t + more), more),
{
}

pub proof fn asks_done_cut(effect: EffectView, t: Seq<ReplyView>, j: int)
    ensures
        effect::asks_done(effect, t) matches Course::Ends(value, rest) ==> {
            &&& rest == t.skip(t.len() - rest.len())
            &&& 0 <= j <= rest.len() ==> effect::asks_done(
                effect, t.take(t.len() - rest.len() + j),
            ) == Course::Ends(value, rest.take(j))
        },
{
    broadcast use {asks_done_shrinks, asks_done_waits, replay_laws::asks_done_goes_on};

    if let Course::Ends(value, rest) = effect::asks_done(effect, t) {
        lemma_parts(t, rest, 0);
        lemma_parts(t, rest, j);
    }
}

pub broadcast proof fn warned_shrinks(line: Seq<char>, t: Seq<ReplyView>)
    ensures
        shrinks(#[trigger] effect::warned(line, t), t),
{
    broadcast use asks_any_shrinks;

}

pub broadcast proof fn warned_waits(line: Seq<char>, t: Seq<ReplyView>, more: Seq<ReplyView>)
    ensures
        waits(effect::warned(line, t), #[trigger] effect::warned(line, t + more), more),
{
    broadcast use {asks_any_shrinks, asks_any_waits, replay_laws::asks_any_goes_on};

}

pub broadcast proof fn asks_removed_shrinks(effect: EffectView, t: Seq<ReplyView>)
    ensures
        shrinks(#[trigger] effect::asks_removed(effect, t), t),
{
}

pub broadcast proof fn asks_removed_waits(
    effect: EffectView,
    t: Seq<ReplyView>,
    more: Seq<ReplyView>,
)
    ensures
        waits(
            effect::asks_removed(effect, t),
            #[trigger] effect::asks_removed(effect, t + more),
            more,
        ),
{
}

pub broadcast proof fn said_if_shrinks(verbose: bool, line: Seq<char>, t: Seq<ReplyView>)
    ensures
        shrinks(#[trigger] effect::said_if(verbose, line, t), t),
{
    broadcast use said_shrinks;

}

pub broadcast proof fn said_if_waits(
    verbose: bool,
    line: Seq<char>,
    t: Seq<ReplyView>,
    more: Seq<ReplyView>,
)
    ensures
        waits(
            effect::said_if(verbose, line, t),
            #[trigger] effect::said_if(verbose, line, t + more),
            more,
        ),
{
    broadcast use {said_shrinks, said_waits, replay_laws::said_goes_on};

}

pub proof fn said_if_cut(verbose: bool, line: Seq<char>, t: Seq<ReplyView>, j: int)
    ensures
        effect::said_if(verbose, line, t) matches Course::Ends(value, rest) ==> {
            &&& rest == t.skip(t.len() - rest.len())
            &&& 0 <= j <= rest.len() ==> effect::said_if(
                verbose, line, t.take(t.len() - rest.len() + j),
            ) == Course::Ends(value, rest.take(j))
        },
{
    broadcast use {said_if_shrinks, said_if_waits, replay_laws::said_if_goes_on};

    if let Course::Ends(value, rest) = effect::said_if(verbose, line, t) {
        lemma_parts(t, rest, 0);
        lemma_parts(t, rest, j);
    }
}

pub broadcast proof fn warned_if_shrinks(verbose: bool, line: Seq<char>, t: Seq<ReplyView>)
    ensures
        shrinks(#[trigger] effect::warned_if(verbose, line, t), t),
{
    broadcast use warned_shrinks;

}

pub broadcast proof fn warned_if_waits(
    verbose: bool,
    line: Seq<char>,
    t: Seq<ReplyView>,
    more: Seq<ReplyView>,
)
    ensures
        waits(
            effect::warned_if(verbose, line, t),
            #[trigger] effect::warned_if(verbose, line, t + more),
            more,
        ),
{
    broadcast use {warned_shrinks, warned_waits, replay_laws::warned_goes_on};

}

pub proof fn warned_if_cut(verbose: bool, line: Seq<char>, t: Seq<ReplyView>, j: int)
    ensures
        effect::warned_if(verbose, line, t) matches Course::Ends(value, rest) ==> {
            &&& rest == t.skip(t.len() - rest.len())
            &&& 0 <= j <= rest.len() ==> effect::warned_if(
                verbose, line, t.take(t.len() - rest.len() + j),
            ) == Course::Ends(value, rest.take(j))
        },
{
    broadcast use {warned_if_shrinks, warned_if_waits, replay_laws::warned_if_goes_on};

    if let Course::Ends(value, rest) = effect::warned_if(verbose, line, t) {
        lemma_parts(t, rest, 0);
        lemma_parts(t, rest, j);
    }
}

pub broadcast proof fn asks_code_shrinks(effect: EffectView, t: Seq<ReplyView>)
    ensures
        shrinks(#[trigger] effect::asks_code(effect, t), t),
{
}

pub broadcast proof fn asks_code_waits(effect: EffectView, t: Seq<ReplyView>, more: Seq<ReplyView>)
    ensures
        waits(effect::asks_code(effect, t), #[trigger] effect::asks_code(effect, t + more), more),
{
}

pub proof fn asks_code_cut(effect: EffectView, t: Seq<ReplyView>, j: int)
    ensures
        effect::asks_code(effect, t) matches Course::Ends(value, rest) ==> {
            &&& rest == t.skip(t.len() - rest.len())
            &&& 0 <= j <= rest.len() ==> effect::asks_code(
                effect, t.take(t.len() - rest.len() + j),
            ) == Course::Ends(value, rest.take(j))
        },
{
    broadcast use {asks_code_shrinks, asks_code_waits, replay_laws::asks_code_goes_on};

    if let Course::Ends(value, rest) = effect::asks_code(effect, t) {
        lemma_parts(t, rest, 0);
        lemma_parts(t, rest, j);
    }
}

pub broadcast proof fn asks_stamp_shrinks(effect: EffectView, t: Seq<ReplyView>)
    ensures
        shrinks(#[trigger] effect::asks_stamp(effect, t), t),
{
}

pub broadcast proof fn asks_stamp_waits(effect: EffectView, t: Seq<ReplyView>, more: Seq<ReplyView>)
    ensures
        waits(effect::asks_stamp(effect, t), #[trigger] effect::asks_stamp(effect, t + more), more),
{
}

pub proof fn asks_stamp_cut(effect: EffectView, t: Seq<ReplyView>, j: int)
    ensures
        effect::asks_stamp(effect, t) matches Course::Ends(value, rest) ==> {
            &&& rest == t.skip(t.len() - rest.len())
            &&& 0 <= j <= rest.len() ==> effect::asks_stamp(
                effect, t.take(t.len() - rest.len() + j),
            ) == Course::Ends(value, rest.take(j))
        },
{
    broadcast use {asks_stamp_shrinks, asks_stamp_waits, replay_laws::asks_stamp_goes_on};

    if let Course::Ends(value, rest) = effect::asks_stamp(effect, t) {
        lemma_parts(t, rest, 0);
        lemma_parts(t, rest, j);
    }
}

pub broadcast proof fn asks_flag_shrinks(effect: EffectView, t: Seq<ReplyView>)
    ensures
        shrinks(#[trigger] effect::asks_flag(effect, t), t),
{
}

pub broadcast proof fn asks_flag_waits(effect: EffectView, t: Seq<ReplyView>, more: Seq<ReplyView>)
    ensures
        waits(effect::asks_flag(effect, t), #[trigger] effect::asks_flag(effect, t + more), more),
{
}

pub proof fn asks_flag_cut(effect: EffectView, t: Seq<ReplyView>, j: int)
    ensures
        effect::asks_flag(effect, t) matches Course::Ends(value, rest) ==> {
            &&& rest == t.skip(t.len() - rest.len())
            &&& 0 <= j <= rest.len() ==> effect::asks_flag(
                effect, t.take(t.len() - rest.len() + j),
            ) == Course::Ends(value, rest.take(j))
        },
{
    broadcast use {asks_flag_shrinks, asks_flag_waits, replay_laws::asks_flag_goes_on};

    if let Course::Ends(value, rest) = effect::asks_flag(effect, t) {
        lemma_parts(t, rest, 0);
        lemma_parts(t, rest, j);
    }
}

pub broadcast proof fn asks_numbers_shrinks(effect: EffectView, t: Seq<ReplyView>)
    ensures
        shrinks(#[trigger] effect::asks_numbers(effect, t), t),
{
}

pub broadcast proof fn asks_numbers_waits(
    effect: EffectView,
    t: Seq<ReplyView>,
    more: Seq<ReplyView>,
)
    ensures
        waits(
            effect::asks_numbers(effect, t),
            #[trigger] effect::asks_numbers(effect, t + more),
            more,
        ),
{
}

pub broadcast proof fn asks_nanos_shrinks(effect: EffectView, t: Seq<ReplyView>)
    ensures
        shrinks(#[trigger] effect::asks_nanos(effect, t), t),
{
}

pub broadcast proof fn asks_nanos_waits(effect: EffectView, t: Seq<ReplyView>, more: Seq<ReplyView>)
    ensures
        waits(effect::asks_nanos(effect, t), #[trigger] effect::asks_nanos(effect, t + more), more),
{
}

pub proof fn asks_nanos_cut(effect: EffectView, t: Seq<ReplyView>, j: int)
    ensures
        effect::asks_nanos(effect, t) matches Course::Ends(value, rest) ==> {
            &&& rest == t.skip(t.len() - rest.len())
            &&& 0 <= j <= rest.len() ==> effect::asks_nanos(
                effect, t.take(t.len() - rest.len() + j),
            ) == Course::Ends(value, rest.take(j))
        },
{
    broadcast use {asks_nanos_shrinks, asks_nanos_waits, replay_laws::asks_nanos_goes_on};

    if let Course::Ends(value, rest) = effect::asks_nanos(effect, t) {
        lemma_parts(t, rest, 0);
        lemma_parts(t, rest, j);
    }
}

pub broadcast proof fn asks_ended_shrinks(effect: EffectView, t: Seq<ReplyView>)
    ensures
        shrinks(#[trigger] effect::asks_ended(effect, t), t),
{
}

pub broadcast proof fn asks_ended_waits(effect: EffectView, t: Seq<ReplyView>, more: Seq<ReplyView>)
    ensures
        waits(effect::asks_ended(effect, t), #[trigger] effect::asks_ended(effect, t + more), more),
{
}

pub proof fn asks_ended_cut(effect: EffectView, t: Seq<ReplyView>, j: int)
    ensures
        effect::asks_ended(effect, t) matches Course::Ends(value, rest) ==> {
            &&& rest == t.skip(t.len() - rest.len())
            &&& 0 <= j <= rest.len() ==> effect::asks_ended(
                effect, t.take(t.len() - rest.len() + j),
            ) == Course::Ends(value, rest.take(j))
        },
{
    broadcast use {asks_ended_shrinks, asks_ended_waits, replay_laws::asks_ended_goes_on};

    if let Course::Ends(value, rest) = effect::asks_ended(effect, t) {
        lemma_parts(t, rest, 0);
        lemma_parts(t, rest, j);
    }
}

pub broadcast proof fn asks_text_shrinks(effect: EffectView, t: Seq<ReplyView>)
    ensures
        shrinks(#[trigger] effect::asks_text(effect, t), t),
{
}

pub broadcast proof fn asks_text_waits(effect: EffectView, t: Seq<ReplyView>, more: Seq<ReplyView>)
    ensures
        waits(effect::asks_text(effect, t), #[trigger] effect::asks_text(effect, t + more), more),
{
}

pub proof fn asks_text_cut(effect: EffectView, t: Seq<ReplyView>, j: int)
    ensures
        effect::asks_text(effect, t) matches Course::Ends(value, rest) ==> {
            &&& rest == t.skip(t.len() - rest.len())
            &&& 0 <= j <= rest.len() ==> effect::asks_text(
                effect, t.take(t.len() - rest.len() + j),
            ) == Course::Ends(value, rest.take(j))
        },
{
    broadcast use {asks_text_shrinks, asks_text_waits, replay_laws::asks_text_goes_on};

    if let Course::Ends(value, rest) = effect::asks_text(effect, t) {
        lemma_parts(t, rest, 0);
        lemma_parts(t, rest, j);
    }
}

pub broadcast proof fn asks_variable_shrinks(effect: EffectView, t: Seq<ReplyView>)
    ensures
        shrinks(#[trigger] effect::asks_variable(effect, t), t),
{
}

pub broadcast proof fn asks_variable_waits(
    effect: EffectView,
    t: Seq<ReplyView>,
    more: Seq<ReplyView>,
)
    ensures
        waits(
            effect::asks_variable(effect, t),
            #[trigger] effect::asks_variable(effect, t + more),
            more,
        ),
{
}

pub broadcast proof fn asks_columns_shrinks(effect: EffectView, t: Seq<ReplyView>)
    ensures
        shrinks(#[trigger] effect::asks_columns(effect, t), t),
{
}

pub broadcast proof fn asks_columns_waits(
    effect: EffectView,
    t: Seq<ReplyView>,
    more: Seq<ReplyView>,
)
    ensures
        waits(
            effect::asks_columns(effect, t),
            #[trigger] effect::asks_columns(effect, t + more),
            more,
        ),
{
}

pub proof fn asks_columns_cut(effect: EffectView, t: Seq<ReplyView>, j: int)
    ensures
        effect::asks_columns(effect, t) matches Course::Ends(value, rest) ==> {
            &&& rest == t.skip(t.len() - rest.len())
            &&& 0 <= j <= rest.len() ==> effect::asks_columns(
                effect, t.take(t.len() - rest.len() + j),
            ) == Course::Ends(value, rest.take(j))
        },
{
    broadcast use {asks_columns_shrinks, asks_columns_waits, replay_laws::asks_columns_goes_on};

    if let Course::Ends(value, rest) = effect::asks_columns(effect, t) {
        lemma_parts(t, rest, 0);
        lemma_parts(t, rest, j);
    }
}

pub broadcast proof fn asks_watch_shrinks(effect: EffectView, t: Seq<ReplyView>)
    ensures
        shrinks(#[trigger] effect::asks_watch(effect, t), t),
{
}

pub broadcast proof fn asks_watch_waits(effect: EffectView, t: Seq<ReplyView>, more: Seq<ReplyView>)
    ensures
        waits(effect::asks_watch(effect, t), #[trigger] effect::asks_watch(effect, t + more), more),
{
}

pub proof fn asks_watch_cut(effect: EffectView, t: Seq<ReplyView>, j: int)
    ensures
        effect::asks_watch(effect, t) matches Course::Ends(value, rest) ==> {
            &&& rest == t.skip(t.len() - rest.len())
            &&& 0 <= j <= rest.len() ==> effect::asks_watch(
                effect, t.take(t.len() - rest.len() + j),
            ) == Course::Ends(value, rest.take(j))
        },
{
    broadcast use {asks_watch_shrinks, asks_watch_waits, replay_laws::asks_watch_goes_on};

    if let Course::Ends(value, rest) = effect::asks_watch(effect, t) {
        lemma_parts(t, rest, 0);
        lemma_parts(t, rest, j);
    }
}

pub broadcast proof fn asks_awaited_shrinks(effect: EffectView, t: Seq<ReplyView>)
    ensures
        shrinks(#[trigger] effect::asks_awaited(effect, t), t),
{
}

pub broadcast proof fn asks_awaited_waits(
    effect: EffectView,
    t: Seq<ReplyView>,
    more: Seq<ReplyView>,
)
    ensures
        waits(
            effect::asks_awaited(effect, t),
            #[trigger] effect::asks_awaited(effect, t + more),
            more,
        ),
{
}

pub proof fn asks_awaited_cut(effect: EffectView, t: Seq<ReplyView>, j: int)
    ensures
        effect::asks_awaited(effect, t) matches Course::Ends(value, rest) ==> {
            &&& rest == t.skip(t.len() - rest.len())
            &&& 0 <= j <= rest.len() ==> effect::asks_awaited(
                effect, t.take(t.len() - rest.len() + j),
            ) == Course::Ends(value, rest.take(j))
        },
{
    broadcast use {asks_awaited_shrinks, asks_awaited_waits, replay_laws::asks_awaited_goes_on};

    if let Course::Ends(value, rest) = effect::asks_awaited(effect, t) {
        lemma_parts(t, rest, 0);
        lemma_parts(t, rest, j);
    }
}

pub broadcast proof fn asks_power_shrinks(effect: EffectView, t: Seq<ReplyView>)
    ensures
        shrinks(#[trigger] effect::asks_power(effect, t), t),
{
}

pub broadcast proof fn asks_power_waits(effect: EffectView, t: Seq<ReplyView>, more: Seq<ReplyView>)
    ensures
        waits(effect::asks_power(effect, t), #[trigger] effect::asks_power(effect, t + more), more),
{
}

pub proof fn asks_power_cut(effect: EffectView, t: Seq<ReplyView>, j: int)
    ensures
        effect::asks_power(effect, t) matches Course::Ends(value, rest) ==> {
            &&& rest == t.skip(t.len() - rest.len())
            &&& 0 <= j <= rest.len() ==> effect::asks_power(
                effect, t.take(t.len() - rest.len() + j),
            ) == Course::Ends(value, rest.take(j))
        },
{
    broadcast use {asks_power_shrinks, asks_power_waits, replay_laws::asks_power_goes_on};

    if let Course::Ends(value, rest) = effect::asks_power(effect, t) {
        lemma_parts(t, rest, 0);
        lemma_parts(t, rest, j);
    }
}

// ---------------------------------------------------------------------------
// Files.
// ---------------------------------------------------------------------------
pub broadcast proof fn file_read_shrinks(name: Seq<char>, t: Seq<ReplyView>)
    ensures
        shrinks(#[trigger] files::file_read(name, t), t),
{
    broadcast use asks_file_shrinks;

}

pub broadcast proof fn file_read_waits(name: Seq<char>, t: Seq<ReplyView>, more: Seq<ReplyView>)
    ensures
        waits(files::file_read(name, t), #[trigger] files::file_read(name, t + more), more),
{
    broadcast use {asks_file_shrinks, asks_file_waits, replay_laws::asks_file_goes_on};

}

pub proof fn file_read_cut(name: Seq<char>, t: Seq<ReplyView>, j: int)
    ensures
        files::file_read(name, t) matches Course::Ends(value, rest) ==> {
            &&& rest == t.skip(t.len() - rest.len())
            &&& 0 <= j <= rest.len() ==> files::file_read(
                name, t.take(t.len() - rest.len() + j),
            ) == Course::Ends(value, rest.take(j))
        },
{
    broadcast use {file_read_shrinks, file_read_waits, replay_laws::file_read_goes_on};

    if let Course::Ends(value, rest) = files::file_read(name, t) {
        lemma_parts(t, rest, 0);
        lemma_parts(t, rest, j);
    }
}

pub broadcast proof fn file_written_shrinks(name: Seq<char>, body: Seq<char>, t: Seq<ReplyView>)
    ensures
        shrinks(#[trigger] files::file_written(name, body, t), t),
{
    broadcast use asks_done_shrinks;

}

pub broadcast proof fn file_written_waits(
    name: Seq<char>,
    body: Seq<char>,
    t: Seq<ReplyView>,
    more: Seq<ReplyView>,
)
    ensures
        waits(
            files::file_written(name, body, t),
            #[trigger] files::file_written(name, body, t + more),
            more,
        ),
{
    broadcast use {asks_done_shrinks, asks_done_waits, replay_laws::asks_done_goes_on};

}

pub broadcast proof fn remembered_shrinks(seen: Seq<DisplayView>, t: Seq<ReplyView>)
    ensures
        shrinks(#[trigger] files::remembered(seen, t), t),
{
    broadcast use {file_read_shrinks, file_written_shrinks};

}

pub broadcast proof fn remembered_waits(
    seen: Seq<DisplayView>,
    t: Seq<ReplyView>,
    more: Seq<ReplyView>,
)
    ensures
        waits(files::remembered(seen, t), #[trigger] files::remembered(seen, t + more), more),
{
    broadcast use {
        file_read_shrinks,
        file_read_waits,
        replay_laws::file_read_goes_on,
        file_written_shrinks,
        file_written_waits,
        replay_laws::file_written_goes_on,
    };

}

pub proof fn remembered_cut(seen: Seq<DisplayView>, t: Seq<ReplyView>, j: int)
    ensures
        files::remembered(seen, t) matches Course::Ends(value, rest) ==> {
            &&& rest == t.skip(t.len() - rest.len())
            &&& 0 <= j <= rest.len() ==> files::remembered(
                seen, t.take(t.len() - rest.len() + j),
            ) == Course::Ends(value, rest.take(j))
        },
{
    broadcast use {remembered_shrinks, remembered_waits, replay_laws::remembered_goes_on};

    if let Course::Ends(value, rest) = files::remembered(seen, t) {
        lemma_parts(t, rest, 0);
        lemma_parts(t, rest, j);
    }
}

pub broadcast proof fn write_warned_shrinks(r: Result<(), Seq<char>>, t: Seq<ReplyView>)
    ensures
        shrinks(#[trigger] files::write_warned(r, t), t),
{
    broadcast use warned_shrinks;

}

pub broadcast proof fn write_warned_waits(
    r: Result<(), Seq<char>>,
    t: Seq<ReplyView>,
    more: Seq<ReplyView>,
)
    ensures
        waits(files::write_warned(r, t), #[trigger] files::write_warned(r, t + more), more),
{
    broadcast use {warned_shrinks, warned_waits, replay_laws::warned_goes_on};

}

pub broadcast proof fn list_remembered_shrinks(seen: Seq<DisplayView>, t: Seq<ReplyView>)
    ensures
        shrinks(#[trigger] files::list_remembered(seen, t), t),
{
    broadcast use {remembered_shrinks, write_warned_shrinks};

}

pub broadcast proof fn list_remembered_waits(
    seen: Seq<DisplayView>,
    t: Seq<ReplyView>,
    more: Seq<ReplyView>,
)
    ensures
        waits(
            files::list_remembered(seen, t),
            #[trigger] files::list_remembered(seen, t + more),
            more,
        ),
{
    broadcast use {
        remembered_shrinks,
        remembered_waits,
        replay_laws::remembered_goes_on,
        write_warned_shrinks,
        write_warned_waits,
        replay_laws::write_warned_goes_on,
    };

}

pub proof fn list_remembered_cut(seen: Seq<DisplayView>, t: Seq<ReplyView>, j: int)
    ensures
        files::list_remembered(seen, t) matches Course::Ends(value, rest) ==> {
            &&& rest == t.skip(t.len() - rest.len())
            &&& 0 <= j <= rest.len() ==> files::list_remembered(
                seen, t.take(t.len() - rest.len() + j),
            ) == Course::Ends(value, rest.take(j))
        },
{
    broadcast use {
        list_remembered_shrinks,
        list_remembered_waits,
        replay_laws::list_remembered_goes_on,
    };

    if let Course::Ends(value, rest) = files::list_remembered(seen, t) {
        lemma_parts(t, rest, 0);
        lemma_parts(t, rest, j);
    }
}

pub broadcast proof fn file_removed_shrinks(name: Seq<char>, t: Seq<ReplyView>)
    ensures
        shrinks(#[trigger] files::file_removed(name, t), t),
{
    broadcast use asks_removed_shrinks;

}

pub broadcast proof fn file_removed_waits(name: Seq<char>, t: Seq<ReplyView>, more: Seq<ReplyView>)
    ensures
        waits(files::file_removed(name, t), #[trigger] files::file_removed(name, t + more), more),
{
    broadcast use {asks_removed_shrinks, asks_removed_waits, replay_laws::asks_removed_goes_on};

}

pub broadcast proof fn targets_saved_shrinks(targets: Seq<TargetView>, t: Seq<ReplyView>)
    ensures
        shrinks(#[trigger] files::targets_saved(targets, t), t),
{
    broadcast use {file_written_shrinks, file_removed_shrinks};

}

pub broadcast proof fn targets_saved_waits(
    targets: Seq<TargetView>,
    t: Seq<ReplyView>,
    more: Seq<ReplyView>,
)
    ensures
        waits(
            files::targets_saved(targets, t),
            #[trigger] files::targets_saved(targets, t + more),
            more,
        ),
{
    broadcast use {
        file_written_shrinks,
        file_written_waits,
        replay_laws::file_written_goes_on,
        file_removed_shrinks,
        file_removed_waits,
        replay_laws::file_removed_goes_on,
    };

}

pub proof fn targets_saved_cut(targets: Seq<TargetView>, t: Seq<ReplyView>, j: int)
    ensures
        files::targets_saved(targets, t) matches Course::Ends(value, rest) ==> {
            &&& rest == t.skip(t.len() - rest.len())
            &&& 0 <= j <= rest.len() ==> files::targets_saved(
                targets, t.take(t.len() - rest.len() + j),
            ) == Course::Ends(value, rest.take(j))
        },
{
    broadcast use {targets_saved_shrinks, targets_saved_waits, replay_laws::targets_saved_goes_on};

    if let Course::Ends(value, rest) = files::targets_saved(targets, t) {
        lemma_parts(t, rest, 0);
        lemma_parts(t, rest, j);
    }
}

pub broadcast proof fn targets_loaded_shrinks(t: Seq<ReplyView>)
    ensures
        shrinks(#[trigger] files::targets_loaded(t), t),
{
    broadcast use file_read_shrinks;

}

pub broadcast proof fn targets_loaded_waits(t: Seq<ReplyView>, more: Seq<ReplyView>)
    ensures
        waits(files::targets_loaded(t), #[trigger] files::targets_loaded(t + more), more),
{
    broadcast use {file_read_shrinks, file_read_waits, replay_laws::file_read_goes_on};

}

pub proof fn targets_loaded_cut(t: Seq<ReplyView>, j: int)
    ensures
        files::targets_loaded(t) matches Course::Ends(value, rest) ==> {
            &&& rest == t.skip(t.len() - rest.len())
            &&& 0 <= j <= rest.len() ==> files::targets_loaded(
                t.take(t.len() - rest.len() + j),
            ) == Course::Ends(value, rest.take(j))
        },
{
    broadcast use {
        targets_loaded_shrinks,
        targets_loaded_waits,
        replay_laws::targets_loaded_goes_on,
    };

    if let Course::Ends(value, rest) = files::targets_loaded(t) {
        lemma_parts(t, rest, 0);
        lemma_parts(t, rest, j);
    }
}

pub broadcast proof fn value_read_shrinks(key: Seq<char>, t: Seq<ReplyView>)
    ensures
        shrinks(#[trigger] files::value_read(key, t), t),
{
    broadcast use file_read_shrinks;

}

pub broadcast proof fn value_read_waits(key: Seq<char>, t: Seq<ReplyView>, more: Seq<ReplyView>)
    ensures
        waits(files::value_read(key, t), #[trigger] files::value_read(key, t + more), more),
{
    broadcast use {file_read_shrinks, file_read_waits, replay_laws::file_read_goes_on};

}

pub proof fn value_read_cut(key: Seq<char>, t: Seq<ReplyView>, j: int)
    ensures
        files::value_read(key, t) matches Course::Ends(value, rest) ==> {
            &&& rest == t.skip(t.len() - rest.len())
            &&& 0 <= j <= rest.len() ==> files::value_read(
                key, t.take(t.len() - rest.len() + j),
            ) == Course::Ends(value, rest.take(j))
        },
{
    broadcast use {value_read_shrinks, value_read_waits, replay_laws::value_read_goes_on};

    if let Course::Ends(value, rest) = files::value_read(key, t) {
        lemma_parts(t, rest, 0);
        lemma_parts(t, rest, j);
    }
}

pub broadcast proof fn panel_remembered_shrinks(
    id: Seq<char>,
    serial: Option<Seq<char>>,
    number: Option<Seq<char>>,
    t: Seq<ReplyView>,
)
    ensures
        shrinks(#[trigger] files::panel_remembered(id, serial, number, t), t),
{
    broadcast use {file_written_shrinks, write_warned_shrinks};

}

pub broadcast proof fn panel_remembered_waits(
    id: Seq<char>,
    serial: Option<Seq<char>>,
    number: Option<Seq<char>>,
    t: Seq<ReplyView>,
    more: Seq<ReplyView>,
)
    ensures
        waits(
            files::panel_remembered(id, serial, number, t),
            #[trigger] files::panel_remembered(id, serial, number, t + more),
            more,
        ),
{
    broadcast use {
        file_written_shrinks,
        file_written_waits,
        replay_laws::file_written_goes_on,
        write_warned_shrinks,
        write_warned_waits,
        replay_laws::write_warned_goes_on,
    };

}

pub proof fn panel_remembered_cut(
    id: Seq<char>,
    serial: Option<Seq<char>>,
    number: Option<Seq<char>>,
    t: Seq<ReplyView>,
    j: int,
)
    ensures
        files::panel_remembered(id, serial, number, t) matches Course::Ends(value, rest) ==> {
            &&& rest == t.skip(t.len() - rest.len())
            &&& 0 <= j <= rest.len() ==> files::panel_remembered(
                id, serial, number, t.take(t.len() - rest.len() + j),
            ) == Course::Ends(value, rest.take(j))
        },
{
    broadcast use {
        panel_remembered_shrinks,
        panel_remembered_waits,
        replay_laws::panel_remembered_goes_on,
    };

    if let Course::Ends(value, rest) = files::panel_remembered(id, serial, number, t) {
        lemma_parts(t, rest, 0);
        lemma_parts(t, rest, j);
    }
}

pub broadcast proof fn panel_number_read_shrinks(t: Seq<ReplyView>)
    ensures
        shrinks(#[trigger] files::panel_number_read(t), t),
{
    broadcast use file_read_shrinks;

}

pub broadcast proof fn panel_number_read_waits(t: Seq<ReplyView>, more: Seq<ReplyView>)
    ensures
        waits(files::panel_number_read(t), #[trigger] files::panel_number_read(t + more), more),
{
    broadcast use {file_read_shrinks, file_read_waits, replay_laws::file_read_goes_on};

}

pub proof fn panel_number_read_cut(t: Seq<ReplyView>, j: int)
    ensures
        files::panel_number_read(t) matches Course::Ends(value, rest) ==> {
            &&& rest == t.skip(t.len() - rest.len())
            &&& 0 <= j <= rest.len() ==> files::panel_number_read(
                t.take(t.len() - rest.len() + j),
            ) == Course::Ends(value, rest.take(j))
        },
{
    broadcast use {
        panel_number_read_shrinks,
        panel_number_read_waits,
        replay_laws::panel_number_read_goes_on,
    };

    if let Course::Ends(value, rest) = files::panel_number_read(t) {
        lemma_parts(t, rest, 0);
        lemma_parts(t, rest, j);
    }
}

pub broadcast proof fn logged_shrinks(message: Seq<char>, t: Seq<ReplyView>)
    ensures
        shrinks(#[trigger] files::logged(message, t), t),
{
    broadcast use {asks_any_shrinks, asks_done_shrinks, asks_stamp_shrinks};

}

pub broadcast proof fn logged_waits(message: Seq<char>, t: Seq<ReplyView>, more: Seq<ReplyView>)
    ensures
        waits(files::logged(message, t), #[trigger] files::logged(message, t + more), more),
{
    broadcast use {
        asks_any_shrinks,
        asks_any_waits,
        replay_laws::asks_any_goes_on,
        asks_done_shrinks,
        asks_done_waits,
        replay_laws::asks_done_goes_on,
        asks_stamp_shrinks,
        asks_stamp_waits,
        replay_laws::asks_stamp_goes_on,
    };

}

pub proof fn logged_cut(message: Seq<char>, t: Seq<ReplyView>, j: int)
    ensures
        files::logged(message, t) matches Course::Ends(value, rest) ==> {
            &&& rest == t.skip(t.len() - rest.len())
            &&& 0 <= j <= rest.len() ==> files::logged(
                message, t.take(t.len() - rest.len() + j),
            ) == Course::Ends(value, rest.take(j))
        },
{
    broadcast use {logged_shrinks, logged_waits, replay_laws::logged_goes_on};

    if let Course::Ends(value, rest) = files::logged(message, t) {
        lemma_parts(t, rest, 0);
        lemma_parts(t, rest, j);
    }
}

pub broadcast proof fn number_remembered_shrinks(n: u32, t: Seq<ReplyView>)
    ensures
        shrinks(#[trigger] files::number_remembered(n, t), t),
{
    broadcast use {file_read_shrinks, file_written_shrinks};

}

pub broadcast proof fn number_remembered_waits(n: u32, t: Seq<ReplyView>, more: Seq<ReplyView>)
    ensures
        waits(
            files::number_remembered(n, t),
            #[trigger] files::number_remembered(n, t + more),
            more,
        ),
{
    broadcast use {
        file_read_shrinks,
        file_read_waits,
        replay_laws::file_read_goes_on,
        file_written_shrinks,
        file_written_waits,
        replay_laws::file_written_goes_on,
    };

}

pub proof fn number_remembered_cut(n: u32, t: Seq<ReplyView>, j: int)
    ensures
        files::number_remembered(n, t) matches Course::Ends(value, rest) ==> {
            &&& rest == t.skip(t.len() - rest.len())
            &&& 0 <= j <= rest.len() ==> files::number_remembered(
                n, t.take(t.len() - rest.len() + j),
            ) == Course::Ends(value, rest.take(j))
        },
{
    broadcast use {
        number_remembered_shrinks,
        number_remembered_waits,
        replay_laws::number_remembered_goes_on,
    };

    if let Course::Ends(value, rest) = files::number_remembered(n, t) {
        lemma_parts(t, rest, 0);
        lemma_parts(t, rest, j);
    }
}

pub broadcast proof fn values_read_shrinks(key: Seq<char>, t: Seq<ReplyView>)
    ensures
        shrinks(#[trigger] files::values_read(key, t), t),
{
    broadcast use file_read_shrinks;

}

pub broadcast proof fn values_read_waits(key: Seq<char>, t: Seq<ReplyView>, more: Seq<ReplyView>)
    ensures
        waits(files::values_read(key, t), #[trigger] files::values_read(key, t + more), more),
{
    broadcast use {file_read_shrinks, file_read_waits, replay_laws::file_read_goes_on};

}

pub broadcast proof fn numbers_read_shrinks(t: Seq<ReplyView>)
    ensures
        shrinks(#[trigger] files::numbers_read(t), t),
{
    broadcast use {value_read_shrinks, values_read_shrinks};

}

pub broadcast proof fn numbers_read_waits(t: Seq<ReplyView>, more: Seq<ReplyView>)
    ensures
        waits(files::numbers_read(t), #[trigger] files::numbers_read(t + more), more),
{
    broadcast use {
        value_read_shrinks,
        value_read_waits,
        replay_laws::value_read_goes_on,
        values_read_shrinks,
        values_read_waits,
        replay_laws::values_read_goes_on,
    };

}

pub proof fn numbers_read_cut(t: Seq<ReplyView>, j: int)
    ensures
        files::numbers_read(t) matches Course::Ends(value, rest) ==> {
            &&& rest == t.skip(t.len() - rest.len())
            &&& 0 <= j <= rest.len() ==> files::numbers_read(
                t.take(t.len() - rest.len() + j),
            ) == Course::Ends(value, rest.take(j))
        },
{
    broadcast use {numbers_read_shrinks, numbers_read_waits, replay_laws::numbers_read_goes_on};

    if let Course::Ends(value, rest) = files::numbers_read(t) {
        lemma_parts(t, rest, 0);
        lemma_parts(t, rest, j);
    }
}

pub broadcast proof fn summary_read_shrinks(t: Seq<ReplyView>)
    ensures
        shrinks(#[trigger] files::summary_read(t), t),
{
    broadcast use value_read_shrinks;

}

pub broadcast proof fn summary_read_waits(t: Seq<ReplyView>, more: Seq<ReplyView>)
    ensures
        waits(files::summary_read(t), #[trigger] files::summary_read(t + more), more),
{
    broadcast use {value_read_shrinks, value_read_waits, replay_laws::value_read_goes_on};

}

pub broadcast proof fn displays_merged_shrinks(live: Seq<DisplayView>, t: Seq<ReplyView>)
    ensures
        shrinks(#[trigger] files::displays_merged(live, t), t),
{
    broadcast use file_read_shrinks;

}

pub broadcast proof fn displays_merged_waits(
    live: Seq<DisplayView>,
    t: Seq<ReplyView>,
    more: Seq<ReplyView>,
)
    ensures
        waits(
            files::displays_merged(live, t),
            #[trigger] files::displays_merged(live, t + more),
            more,
        ),
{
    broadcast use {file_read_shrinks, file_read_waits, replay_laws::file_read_goes_on};

}

pub broadcast proof fn target_toggled_shrinks(d: DisplayView, t: Seq<ReplyView>)
    ensures
        shrinks(#[trigger] files::target_toggled(d, t), t),
{
    broadcast use {remembered_shrinks, targets_saved_shrinks, targets_loaded_shrinks};

}

pub broadcast proof fn target_toggled_waits(d: DisplayView, t: Seq<ReplyView>, more: Seq<ReplyView>)
    ensures
        waits(files::target_toggled(d, t), #[trigger] files::target_toggled(d, t + more), more),
{
    broadcast use {
        remembered_shrinks,
        remembered_waits,
        replay_laws::remembered_goes_on,
        targets_saved_shrinks,
        targets_saved_waits,
        replay_laws::targets_saved_goes_on,
        targets_loaded_shrinks,
        targets_loaded_waits,
        replay_laws::targets_loaded_goes_on,
    };

}

pub proof fn target_toggled_cut(d: DisplayView, t: Seq<ReplyView>, j: int)
    ensures
        files::target_toggled(d, t) matches Course::Ends(value, rest) ==> {
            &&& rest == t.skip(t.len() - rest.len())
            &&& 0 <= j <= rest.len() ==> files::target_toggled(
                d, t.take(t.len() - rest.len() + j),
            ) == Course::Ends(value, rest.take(j))
        },
{
    broadcast use {
        target_toggled_shrinks,
        target_toggled_waits,
        replay_laws::target_toggled_goes_on,
    };

    if let Course::Ends(value, rest) = files::target_toggled(d, t) {
        lemma_parts(t, rest, 0);
        lemma_parts(t, rest, j);
    }
}

// ---------------------------------------------------------------------------
// Commands.
// ---------------------------------------------------------------------------
pub broadcast proof fn displays_listed_shrinks(t: Seq<ReplyView>)
    ensures
        shrinks(#[trigger] commands::displays_listed(t), t),
{
    broadcast use asks_ran_shrinks;

}

pub broadcast proof fn displays_listed_waits(t: Seq<ReplyView>, more: Seq<ReplyView>)
    ensures
        waits(commands::displays_listed(t), #[trigger] commands::displays_listed(t + more), more),
{
    broadcast use {asks_ran_shrinks, asks_ran_waits, replay_laws::asks_ran_goes_on};

}

pub proof fn displays_listed_cut(t: Seq<ReplyView>, j: int)
    ensures
        commands::displays_listed(t) matches Course::Ends(value, rest) ==> {
            &&& rest == t.skip(t.len() - rest.len())
            &&& 0 <= j <= rest.len() ==> commands::displays_listed(
                t.take(t.len() - rest.len() + j),
            ) == Course::Ends(value, rest.take(j))
        },
{
    broadcast use {
        displays_listed_shrinks,
        displays_listed_waits,
        replay_laws::displays_listed_goes_on,
    };

    if let Course::Ends(value, rest) = commands::displays_listed(t) {
        lemma_parts(t, rest, 0);
        lemma_parts(t, rest, j);
    }
}

pub broadcast proof fn placer_switched_shrinks(
    id: Seq<char>,
    enabled: bool,
    mode: ActionMode,
    verbose: bool,
    t: Seq<ReplyView>,
)
    ensures
        shrinks(#[trigger] commands::placer_switched(id, enabled, mode, verbose, t), t),
{
    broadcast use {asks_any_shrinks, asks_ran_shrinks, said_if_shrinks};

}

pub broadcast proof fn placer_switched_waits(
    id: Seq<char>,
    enabled: bool,
    mode: ActionMode,
    verbose: bool,
    t: Seq<ReplyView>,
    more: Seq<ReplyView>,
)
    ensures
        waits(
            commands::placer_switched(id, enabled, mode, verbose, t),
            #[trigger] commands::placer_switched(id, enabled, mode, verbose, t + more),
            more,
        ),
{
    broadcast use {
        asks_any_shrinks,
        asks_any_waits,
        replay_laws::asks_any_goes_on,
        asks_ran_shrinks,
        asks_ran_waits,
        replay_laws::asks_ran_goes_on,
        said_if_shrinks,
        said_if_waits,
        replay_laws::said_if_goes_on,
    };

}

pub proof fn placer_switched_cut(
    id: Seq<char>,
    enabled: bool,
    mode: ActionMode,
    verbose: bool,
    t: Seq<ReplyView>,
    j: int,
)
    ensures
        commands::placer_switched(id, enabled, mode, verbose, t) matches Course::Ends(value, rest)
            ==> {
            &&& rest == t.skip(t.len() - rest.len())
            &&& 0 <= j <= rest.len() ==> commands::placer_switched(
                id, enabled, mode, verbose, t.take(t.len() - rest.len() + j),
            ) == Course::Ends(value, rest.take(j))
        },
{
    broadcast use {
        placer_switched_shrinks,
        placer_switched_waits,
        replay_laws::placer_switched_goes_on,
    };

    if let Course::Ends(value, rest) = commands::placer_switched(id, enabled, mode, verbose, t) {
        lemma_parts(t, rest, 0);
        lemma_parts(t, rest, j);
    }
}

pub broadcast proof fn end_awaited_shrinks(
    program: Seq<char>,
    arguments: Seq<Seq<char>>,
    timeout_ms: u32,
    start: u64,
    t: Seq<ReplyView>,
)
    ensures
        shrinks(#[trigger] commands::end_awaited(program, arguments, timeout_ms, start, t), t),
    decreases t.len(),
{
    broadcast use {asks_any_shrinks, asks_ran_shrinks, asks_nanos_shrinks, asks_ended_shrinks};

    assert forall|s: Seq<ReplyView>| #[trigger]
        s.len() >= 0 && s.len() < t.len()
            implies shrinks(commands::end_awaited(program, arguments, timeout_ms, start, s), s) by {
        end_awaited_shrinks(program, arguments, timeout_ms, start, s);
    }
}

#[verifier::spinoff_prover]
#[verifier::rlimit(60)]
pub broadcast proof fn end_awaited_waits(
    program: Seq<char>,
    arguments: Seq<Seq<char>>,
    timeout_ms: u32,
    start: u64,
    t: Seq<ReplyView>,
    more: Seq<ReplyView>,
)
    ensures
        waits(
            commands::end_awaited(program, arguments, timeout_ms, start, t),
            #[trigger] commands::end_awaited(program, arguments, timeout_ms, start, t + more),
            more,
        ),
    decreases t.len(),
{
    let u = t + more;
    if u.len() >= 3 {
        end_awaited_shrinks(program, arguments, timeout_ms, start, u.skip(1).skip(1).skip(1));
    }
    if t.len() >= 3 {
        let s = t.skip(1).skip(1).skip(1);
        assert(u.skip(1) =~= t.skip(1) + more);
        assert(u.skip(1).skip(1) =~= t.skip(1).skip(1) + more);
        assert(u.skip(1).skip(1).skip(1) =~= s + more);
        end_awaited_waits(program, arguments, timeout_ms, start, s, more);
    }
}

pub broadcast proof fn timed_run_shrinks(
    program: Seq<char>,
    arguments: Seq<Seq<char>>,
    timeout_ms: u32,
    t: Seq<ReplyView>,
)
    ensures
        shrinks(#[trigger] commands::timed_run(program, arguments, timeout_ms, t), t),
{
    broadcast use {asks_done_shrinks, asks_nanos_shrinks, end_awaited_shrinks};

}

pub broadcast proof fn timed_run_waits(
    program: Seq<char>,
    arguments: Seq<Seq<char>>,
    timeout_ms: u32,
    t: Seq<ReplyView>,
    more: Seq<ReplyView>,
)
    ensures
        waits(
            commands::timed_run(program, arguments, timeout_ms, t),
            #[trigger] commands::timed_run(program, arguments, timeout_ms, t + more),
            more,
        ),
{
    broadcast use {
        asks_done_shrinks,
        asks_done_waits,
        replay_laws::asks_done_goes_on,
        asks_nanos_shrinks,
        asks_nanos_waits,
        replay_laws::asks_nanos_goes_on,
        end_awaited_shrinks,
        end_awaited_waits,
        replay_laws::end_awaited_goes_on,
    };

}

pub broadcast proof fn displays_listed_within_shrinks(timeout_ms: u32, t: Seq<ReplyView>)
    ensures
        shrinks(#[trigger] commands::displays_listed_within(timeout_ms, t), t),
{
    broadcast use timed_run_shrinks;

}

pub broadcast proof fn displays_listed_within_waits(
    timeout_ms: u32,
    t: Seq<ReplyView>,
    more: Seq<ReplyView>,
)
    ensures
        waits(
            commands::displays_listed_within(timeout_ms, t),
            #[trigger] commands::displays_listed_within(timeout_ms, t + more),
            more,
        ),
{
    broadcast use {timed_run_shrinks, timed_run_waits, replay_laws::timed_run_goes_on};

}

pub proof fn displays_listed_within_cut(timeout_ms: u32, t: Seq<ReplyView>, j: int)
    ensures
        commands::displays_listed_within(timeout_ms, t) matches Course::Ends(value, rest) ==> {
            &&& rest == t.skip(t.len() - rest.len())
            &&& 0 <= j <= rest.len() ==> commands::displays_listed_within(
                timeout_ms, t.take(t.len() - rest.len() + j),
            ) == Course::Ends(value, rest.take(j))
        },
{
    broadcast use {
        displays_listed_within_shrinks,
        displays_listed_within_waits,
        replay_laws::displays_listed_within_goes_on,
    };

    if let Course::Ends(value, rest) = commands::displays_listed_within(timeout_ms, t) {
        lemma_parts(t, rest, 0);
        lemma_parts(t, rest, j);
    }
}

// ---------------------------------------------------------------------------
// The window server.
// ---------------------------------------------------------------------------
pub broadcast proof fn detected_shrinks(mode: ActionMode, verbose: bool, t: Seq<ReplyView>)
    ensures
        shrinks(#[trigger] native::detected(mode, verbose, t), t),
{
    broadcast use {asks_done_shrinks, said_if_shrinks};

}

pub broadcast proof fn detected_waits(
    mode: ActionMode,
    verbose: bool,
    t: Seq<ReplyView>,
    more: Seq<ReplyView>,
)
    ensures
        waits(
            native::detected(mode, verbose, t),
            #[trigger] native::detected(mode, verbose, t + more),
            more,
        ),
{
    broadcast use {
        asks_done_shrinks,
        asks_done_waits,
        replay_laws::asks_done_goes_on,
        said_if_shrinks,
        said_if_waits,
        replay_laws::said_if_goes_on,
    };

}

pub proof fn detected_cut(mode: ActionMode, verbose: bool, t: Seq<ReplyView>, j: int)
    ensures
        native::detected(mode, verbose, t) matches Course::Ends(value, rest) ==> {
            &&& rest == t.skip(t.len() - rest.len())
            &&& 0 <= j <= rest.len() ==> native::detected(
                mode, verbose, t.take(t.len() - rest.len() + j),
            ) == Course::Ends(value, rest.take(j))
        },
{
    broadcast use {detected_shrinks, detected_waits, replay_laws::detected_goes_on};

    if let Course::Ends(value, rest) = native::detected(mode, verbose, t) {
        lemma_parts(t, rest, 0);
        lemma_parts(t, rest, j);
    }
}

pub broadcast proof fn configured_shrinks(id: u32, enabled: bool, t: Seq<ReplyView>)
    ensures
        shrinks(#[trigger] native::configured(id, enabled, t), t),
{
    broadcast use {asks_any_shrinks, asks_code_shrinks, logged_shrinks};

}

pub broadcast proof fn configured_waits(
    id: u32,
    enabled: bool,
    t: Seq<ReplyView>,
    more: Seq<ReplyView>,
)
    ensures
        waits(
            native::configured(id, enabled, t),
            #[trigger] native::configured(id, enabled, t + more),
            more,
        ),
{
    broadcast use {
        asks_any_shrinks,
        asks_any_waits,
        replay_laws::asks_any_goes_on,
        asks_code_shrinks,
        asks_code_waits,
        replay_laws::asks_code_goes_on,
        logged_shrinks,
        logged_waits,
        replay_laws::logged_goes_on,
    };

}

pub proof fn configured_cut(id: u32, enabled: bool, t: Seq<ReplyView>, j: int)
    ensures
        native::configured(id, enabled, t) matches Course::Ends(value, rest) ==> {
            &&& rest == t.skip(t.len() - rest.len())
            &&& 0 <= j <= rest.len() ==> native::configured(
                id, enabled, t.take(t.len() - rest.len() + j),
            ) == Course::Ends(value, rest.take(j))
        },
{
    broadcast use {configured_shrinks, configured_waits, replay_laws::configured_goes_on};

    if let Course::Ends(value, rest) = native::configured(id, enabled, t) {
        lemma_parts(t, rest, 0);
        lemma_parts(t, rest, j);
    }
}

pub broadcast proof fn native_switched_shrinks(
    id: u32,
    enabled: bool,
    mode: ActionMode,
    verbose: bool,
    t: Seq<ReplyView>,
)
    ensures
        shrinks(#[trigger] native::native_switched(id, enabled, mode, verbose, t), t),
{
    broadcast use {said_if_shrinks, asks_code_shrinks, configured_shrinks};

}

pub broadcast proof fn native_switched_waits(
    id: u32,
    enabled: bool,
    mode: ActionMode,
    verbose: bool,
    t: Seq<ReplyView>,
    more: Seq<ReplyView>,
)
    ensures
        waits(
            native::native_switched(id, enabled, mode, verbose, t),
            #[trigger] native::native_switched(id, enabled, mode, verbose, t + more),
            more,
        ),
{
    broadcast use {
        said_if_shrinks,
        said_if_waits,
        replay_laws::said_if_goes_on,
        asks_code_shrinks,
        asks_code_waits,
        replay_laws::asks_code_goes_on,
        configured_shrinks,
        configured_waits,
        replay_laws::configured_goes_on,
    };

}

pub proof fn native_switched_cut(
    id: u32,
    enabled: bool,
    mode: ActionMode,
    verbose: bool,
    t: Seq<ReplyView>,
    j: int,
)
    ensures
        native::native_switched(id, enabled, mode, verbose, t) matches Course::Ends(value, rest)
            ==> {
            &&& rest == t.skip(t.len() - rest.len())
            &&& 0 <= j <= rest.len() ==> native::native_switched(
                id, enabled, mode, verbose, t.take(t.len() - rest.len() + j),
            ) == Course::Ends(value, rest.take(j))
        },
{
    broadcast use {
        native_switched_shrinks,
        native_switched_waits,
        replay_laws::native_switched_goes_on,
    };

    if let Course::Ends(value, rest) = native::native_switched(id, enabled, mode, verbose, t) {
        lemma_parts(t, rest, 0);
        lemma_parts(t, rest, j);
    }
}

pub broadcast proof fn builtin_among_shrinks(ids: Seq<u32>, t: Seq<ReplyView>)
    ensures
        shrinks(#[trigger] native::builtin_among(ids, t), t),
    decreases ids.len(),
{
    broadcast use asks_flag_shrinks;

    if ids.len() > 0 {
        assert forall|s: Seq<ReplyView>| #[trigger]
            s.len() >= 0 implies shrinks(native::builtin_among(ids.skip(1), s), s) by {
            builtin_among_shrinks(ids.skip(1), s);
        }
    }
}

#[verifier::spinoff_prover]
#[verifier::rlimit(60)]
pub broadcast proof fn builtin_among_waits(ids: Seq<u32>, t: Seq<ReplyView>, more: Seq<ReplyView>)
    ensures
        waits(native::builtin_among(ids, t), #[trigger] native::builtin_among(ids, t + more), more),
    decreases ids.len(),
{
    broadcast use {asks_flag_shrinks, asks_flag_waits, replay_laws::asks_flag_goes_on};

    if ids.len() > 0 {
        assert forall|s: Seq<ReplyView>| waits(
            native::builtin_among(ids.skip(1), s),
            native::builtin_among(ids.skip(1), #[trigger] (s + more)),
            more,
        ) by {
            builtin_among_waits(ids.skip(1), s, more);
        }
        assert forall|s: Seq<ReplyView>| #[trigger]
            s.len() >= 0 implies shrinks(native::builtin_among(ids.skip(1), s), s) by {
            builtin_among_shrinks(ids.skip(1), s);
        }
        assert forall|s: Seq<ReplyView>| replay_laws::goes_on(
            native::builtin_among(ids.skip(1), s),
            native::builtin_among(ids.skip(1), #[trigger] (s + more)),
            more,
        ) by {
            replay_laws::builtin_among_goes_on(ids.skip(1), s, more);
        }
    }
}

pub proof fn builtin_among_cut(ids: Seq<u32>, t: Seq<ReplyView>, j: int)
    ensures
        native::builtin_among(ids, t) matches Course::Ends(value, rest) ==> {
            &&& rest == t.skip(t.len() - rest.len())
            &&& 0 <= j <= rest.len() ==> native::builtin_among(
                ids, t.take(t.len() - rest.len() + j),
            ) == Course::Ends(value, rest.take(j))
        },
{
    broadcast use {builtin_among_shrinks, builtin_among_waits, replay_laws::builtin_among_goes_on};

    if let Course::Ends(value, rest) = native::builtin_among(ids, t) {
        lemma_parts(t, rest, 0);
        lemma_parts(t, rest, j);
    }
}

pub broadcast proof fn builtin_found_shrinks(t: Seq<ReplyView>)
    ensures
        shrinks(#[trigger] native::builtin_found(t), t),
{
    broadcast use {asks_numbers_shrinks, builtin_among_shrinks};

}

pub broadcast proof fn builtin_found_waits(t: Seq<ReplyView>, more: Seq<ReplyView>)
    ensures
        waits(native::builtin_found(t), #[trigger] native::builtin_found(t + more), more),
{
    broadcast use {
        asks_numbers_shrinks,
        asks_numbers_waits,
        replay_laws::asks_numbers_goes_on,
        builtin_among_shrinks,
        builtin_among_waits,
        replay_laws::builtin_among_goes_on,
    };

}

pub proof fn builtin_found_cut(t: Seq<ReplyView>, j: int)
    ensures
        native::builtin_found(t) matches Course::Ends(value, rest) ==> {
            &&& rest == t.skip(t.len() - rest.len())
            &&& 0 <= j <= rest.len() ==> native::builtin_found(
                t.take(t.len() - rest.len() + j),
            ) == Course::Ends(value, rest.take(j))
        },
{
    broadcast use {builtin_found_shrinks, builtin_found_waits, replay_laws::builtin_found_goes_on};

    if let Course::Ends(value, rest) = native::builtin_found(t) {
        lemma_parts(t, rest, 0);
        lemma_parts(t, rest, j);
    }
}

pub broadcast proof fn activity_found_shrinks(t: Seq<ReplyView>)
    ensures
        shrinks(#[trigger] native::activity_found(t), t),
{
    broadcast use {asks_flag_shrinks, builtin_found_shrinks};

}

pub broadcast proof fn activity_found_waits(t: Seq<ReplyView>, more: Seq<ReplyView>)
    ensures
        waits(native::activity_found(t), #[trigger] native::activity_found(t + more), more),
{
    broadcast use {
        asks_flag_shrinks,
        asks_flag_waits,
        replay_laws::asks_flag_goes_on,
        builtin_found_shrinks,
        builtin_found_waits,
        replay_laws::builtin_found_goes_on,
    };

}

pub proof fn activity_found_cut(t: Seq<ReplyView>, j: int)
    ensures
        native::activity_found(t) matches Course::Ends(value, rest) ==> {
            &&& rest == t.skip(t.len() - rest.len())
            &&& 0 <= j <= rest.len() ==> native::activity_found(
                t.take(t.len() - rest.len() + j),
            ) == Course::Ends(value, rest.take(j))
        },
{
    broadcast use {
        activity_found_shrinks,
        activity_found_waits,
        replay_laws::activity_found_goes_on,
    };

    if let Course::Ends(value, rest) = native::activity_found(t) {
        lemma_parts(t, rest, 0);
        lemma_parts(t, rest, j);
    }
}

pub broadcast proof fn activity_awaited_shrinks(start: u64, timeout_ms: u32, t: Seq<ReplyView>)
    ensures
        shrinks(#[trigger] native::activity_awaited(start, timeout_ms, t), t),
    decreases t.len(),
{
    broadcast use {asks_any_shrinks, asks_nanos_shrinks, activity_found_shrinks};

    native::lemma_activity_shrinks(t);
    assert forall|s: Seq<ReplyView>| #[trigger]
        s.len() >= 0 && s.len() < t.len()
            implies shrinks(native::activity_awaited(start, timeout_ms, s), s) by {
        activity_awaited_shrinks(start, timeout_ms, s);
    }
}

#[verifier::spinoff_prover]
#[verifier::rlimit(60)]
pub broadcast proof fn activity_awaited_waits(
    start: u64,
    timeout_ms: u32,
    t: Seq<ReplyView>,
    more: Seq<ReplyView>,
)
    ensures
        waits(
            native::activity_awaited(start, timeout_ms, t),
            #[trigger] native::activity_awaited(start, timeout_ms, t + more),
            more,
        ),
    decreases t.len(),
{
    broadcast use {
        asks_any_shrinks,
        asks_any_waits,
        replay_laws::asks_any_goes_on,
        asks_nanos_shrinks,
        asks_nanos_waits,
        replay_laws::asks_nanos_goes_on,
        activity_found_shrinks,
        activity_found_waits,
        replay_laws::activity_found_goes_on,
    };

    native::lemma_activity_shrinks(t);
    assert forall|s: Seq<ReplyView>| s.len() < t.len() implies waits(
        native::activity_awaited(start, timeout_ms, s),
        native::activity_awaited(start, timeout_ms, #[trigger] (s + more)),
        more,
    ) by {
        activity_awaited_waits(start, timeout_ms, s, more);
    }
    assert forall|s: Seq<ReplyView>| #[trigger]
        s.len() >= 0 implies shrinks(native::activity_awaited(start, timeout_ms, s), s) by {
        activity_awaited_shrinks(start, timeout_ms, s);
    }
    assert forall|s: Seq<ReplyView>| s.len() < t.len() implies replay_laws::goes_on(
        native::activity_awaited(start, timeout_ms, s),
        native::activity_awaited(start, timeout_ms, #[trigger] (s + more)),
        more,
    ) by {
        replay_laws::activity_awaited_goes_on(start, timeout_ms, s, more);
    }
}

pub broadcast proof fn activity_waited_shrinks(timeout_ms: u32, t: Seq<ReplyView>)
    ensures
        shrinks(#[trigger] native::activity_waited(timeout_ms, t), t),
{
    broadcast use {asks_nanos_shrinks, activity_awaited_shrinks};

}

pub broadcast proof fn activity_waited_waits(
    timeout_ms: u32,
    t: Seq<ReplyView>,
    more: Seq<ReplyView>,
)
    ensures
        waits(
            native::activity_waited(timeout_ms, t),
            #[trigger] native::activity_waited(timeout_ms, t + more),
            more,
        ),
{
    broadcast use {
        asks_nanos_shrinks,
        asks_nanos_waits,
        replay_laws::asks_nanos_goes_on,
        activity_awaited_shrinks,
        activity_awaited_waits,
        replay_laws::activity_awaited_goes_on,
    };

}

pub proof fn activity_waited_cut(timeout_ms: u32, t: Seq<ReplyView>, j: int)
    ensures
        native::activity_waited(timeout_ms, t) matches Course::Ends(value, rest) ==> {
            &&& rest == t.skip(t.len() - rest.len())
            &&& 0 <= j <= rest.len() ==> native::activity_waited(
                timeout_ms, t.take(t.len() - rest.len() + j),
            ) == Course::Ends(value, rest.take(j))
        },
{
    broadcast use {
        activity_waited_shrinks,
        activity_waited_waits,
        replay_laws::activity_waited_goes_on,
    };

    if let Course::Ends(value, rest) = native::activity_waited(timeout_ms, t) {
        lemma_parts(t, rest, 0);
        lemma_parts(t, rest, j);
    }
}

// ---------------------------------------------------------------------------
// Restoring.
// ---------------------------------------------------------------------------
pub broadcast proof fn fallback_tried_shrinks(mode: ActionMode, verbose: bool, t: Seq<ReplyView>)
    ensures
        shrinks(#[trigger] restore::fallback_tried(mode, verbose, t), t),
{
    broadcast use {warned_if_shrinks, value_read_shrinks, placer_switched_shrinks};

}

pub broadcast proof fn fallback_tried_waits(
    mode: ActionMode,
    verbose: bool,
    t: Seq<ReplyView>,
    more: Seq<ReplyView>,
)
    ensures
        waits(
            restore::fallback_tried(mode, verbose, t),
            #[trigger] restore::fallback_tried(mode, verbose, t + more),
            more,
        ),
{
    broadcast use {
        warned_if_shrinks,
        warned_if_waits,
        replay_laws::warned_if_goes_on,
        value_read_shrinks,
        value_read_waits,
        replay_laws::value_read_goes_on,
        placer_switched_shrinks,
        placer_switched_waits,
        replay_laws::placer_switched_goes_on,
    };

}

pub broadcast proof fn attempt_prepared_shrinks(attempt: u32, t: Seq<ReplyView>)
    ensures
        shrinks(#[trigger] restore::attempt_prepared(attempt, t), t),
{
    broadcast use {asks_any_shrinks, detected_shrinks};

}

pub broadcast proof fn attempt_prepared_waits(attempt: u32, t: Seq<ReplyView>, more: Seq<ReplyView>)
    ensures
        waits(
            restore::attempt_prepared(attempt, t),
            #[trigger] restore::attempt_prepared(attempt, t + more),
            more,
        ),
{
    broadcast use {
        asks_any_shrinks,
        asks_any_waits,
        replay_laws::asks_any_goes_on,
        detected_shrinks,
        detected_waits,
        replay_laws::detected_goes_on,
    };

}

pub proof fn attempt_prepared_cut(attempt: u32, t: Seq<ReplyView>, j: int)
    ensures
        restore::attempt_prepared(attempt, t) matches Course::Ends(value, rest) ==> {
            &&& rest == t.skip(t.len() - rest.len())
            &&& 0 <= j <= rest.len() ==> restore::attempt_prepared(
                attempt, t.take(t.len() - rest.len() + j),
            ) == Course::Ends(value, rest.take(j))
        },
{
    broadcast use {
        attempt_prepared_shrinks,
        attempt_prepared_waits,
        replay_laws::attempt_prepared_goes_on,
    };

    if let Course::Ends(value, rest) = restore::attempt_prepared(attempt, t) {
        lemma_parts(t, rest, 0);
        lemma_parts(t, rest, j);
    }
}

pub broadcast proof fn numbers_tried_shrinks(
    ids: Seq<u32>,
    verbose: bool,
    error: Option<Seq<char>>,
    t: Seq<ReplyView>,
)
    ensures
        shrinks(#[trigger] restore::numbers_tried(ids, verbose, error, t), t),
    decreases ids.len(),
{
    broadcast use {
        logged_shrinks,
        number_remembered_shrinks,
        native_switched_shrinks,
        activity_waited_shrinks,
    };

    if ids.len() > 0 {
        assert forall|s: Seq<ReplyView>| #[trigger]
            s.len() >= 0
                implies shrinks(
                    restore::numbers_tried(
                        ids.skip(1),
                        verbose,
                        Some(restore::dark_text(ids[0])),
                        s,
                    ),
                    s,
                ) by {
            numbers_tried_shrinks(ids.skip(1), verbose, Some(restore::dark_text(ids[0])), s);
        }
        if let Course::Ends(Err(reason), _) = native::native_switched(
            ids[0],
            true,
            ActionMode::Execute,
            verbose,
            t,
        ) {
            assert forall|s: Seq<ReplyView>| #[trigger]
                s.len() >= 0
                    implies shrinks(
                        restore::numbers_tried(ids.skip(1), verbose, Some(reason), s),
                        s,
                    ) by {
                numbers_tried_shrinks(ids.skip(1), verbose, Some(reason), s);
            }
        }
    }
}

#[verifier::spinoff_prover]
#[verifier::rlimit(60)]
pub broadcast proof fn numbers_tried_waits(
    ids: Seq<u32>,
    verbose: bool,
    error: Option<Seq<char>>,
    t: Seq<ReplyView>,
    more: Seq<ReplyView>,
)
    ensures
        waits(
            restore::numbers_tried(ids, verbose, error, t),
            #[trigger] restore::numbers_tried(ids, verbose, error, t + more),
            more,
        ),
    decreases ids.len(),
{
    broadcast use {
        logged_shrinks,
        logged_waits,
        replay_laws::logged_goes_on,
        number_remembered_shrinks,
        number_remembered_waits,
        replay_laws::number_remembered_goes_on,
        native_switched_shrinks,
        native_switched_waits,
        replay_laws::native_switched_goes_on,
        activity_waited_shrinks,
        activity_waited_waits,
        replay_laws::activity_waited_goes_on,
    };

    if ids.len() > 0 {
        assert forall|s: Seq<ReplyView>| waits(
            restore::numbers_tried(ids.skip(1), verbose, Some(restore::dark_text(ids[0])), s),
            restore::numbers_tried(
                ids.skip(1),
                verbose,
                Some(restore::dark_text(ids[0])),
                #[trigger] (s + more),
            ),
            more,
        ) by {
            numbers_tried_waits(ids.skip(1), verbose, Some(restore::dark_text(ids[0])), s, more);
        }
        assert forall|s: Seq<ReplyView>| #[trigger]
            s.len() >= 0
                implies shrinks(
                    restore::numbers_tried(
                        ids.skip(1),
                        verbose,
                        Some(restore::dark_text(ids[0])),
                        s,
                    ),
                    s,
                ) by {
            numbers_tried_shrinks(ids.skip(1), verbose, Some(restore::dark_text(ids[0])), s);
        }
        assert forall|s: Seq<ReplyView>| replay_laws::goes_on(
            restore::numbers_tried(ids.skip(1), verbose, Some(restore::dark_text(ids[0])), s),
            restore::numbers_tried(
                ids.skip(1),
                verbose,
                Some(restore::dark_text(ids[0])),
                #[trigger] (s + more),
            ),
            more,
        ) by {
            replay_laws::numbers_tried_goes_on(
                ids.skip(1),
                verbose,
                Some(restore::dark_text(ids[0])),
                s,
                more,
            );
        }
        if let Course::Ends(Err(reason), _) = native::native_switched(
            ids[0],
            true,
            ActionMode::Execute,
            verbose,
            t,
        ) {
            assert forall|s: Seq<ReplyView>| waits(
                restore::numbers_tried(ids.skip(1), verbose, Some(reason), s),
                restore::numbers_tried(ids.skip(1), verbose, Some(reason), #[trigger] (s + more)),
                more,
            ) by {
                numbers_tried_waits(ids.skip(1), verbose, Some(reason), s, more);
            }
            assert forall|s: Seq<ReplyView>| #[trigger]
                s.len() >= 0
                    implies shrinks(
                        restore::numbers_tried(ids.skip(1), verbose, Some(reason), s),
                        s,
                    ) by {
                numbers_tried_shrinks(ids.skip(1), verbose, Some(reason), s);
            }
            assert forall|s: Seq<ReplyView>| replay_laws::goes_on(
                restore::numbers_tried(ids.skip(1), verbose, Some(reason), s),
                restore::numbers_tried(ids.skip(1), verbose, Some(reason), #[trigger] (s + more)),
                more,
            ) by {
                replay_laws::numbers_tried_goes_on(ids.skip(1), verbose, Some(reason), s, more);
            }
        }
        if let Course::Ends(Err(reason), _) = native::native_switched(
            ids[0],
            true,
            ActionMode::Execute,
            verbose,
            t + more,
        ) {
            assert forall|s: Seq<ReplyView>| waits(
                restore::numbers_tried(ids.skip(1), verbose, Some(reason), s),
                restore::numbers_tried(ids.skip(1), verbose, Some(reason), #[trigger] (s + more)),
                more,
            ) by {
                numbers_tried_waits(ids.skip(1), verbose, Some(reason), s, more);
            }
            assert forall|s: Seq<ReplyView>| #[trigger]
                s.len() >= 0
                    implies shrinks(
                        restore::numbers_tried(ids.skip(1), verbose, Some(reason), s),
                        s,
                    ) by {
                numbers_tried_shrinks(ids.skip(1), verbose, Some(reason), s);
            }
            assert forall|s: Seq<ReplyView>| replay_laws::goes_on(
                restore::numbers_tried(ids.skip(1), verbose, Some(reason), s),
                restore::numbers_tried(ids.skip(1), verbose, Some(reason), #[trigger] (s + more)),
                more,
            ) by {
                replay_laws::numbers_tried_goes_on(ids.skip(1), verbose, Some(reason), s, more);
            }
        }
    }
}

pub broadcast proof fn attempted_shrinks(
    explicit: Option<u32>,
    attempt: u32,
    attempts: u32,
    verbose: bool,
    error: Option<Seq<char>>,
    t: Seq<ReplyView>,
)
    ensures
        shrinks(#[trigger] restore::attempted(explicit, attempt, attempts, verbose, error, t), t),
{
    broadcast use {
        panel_number_read_shrinks,
        logged_shrinks,
        builtin_found_shrinks,
        activity_found_shrinks,
        numbers_tried_shrinks,
    };

}

pub broadcast proof fn attempted_waits(
    explicit: Option<u32>,
    attempt: u32,
    attempts: u32,
    verbose: bool,
    error: Option<Seq<char>>,
    t: Seq<ReplyView>,
    more: Seq<ReplyView>,
)
    ensures
        waits(
            restore::attempted(explicit, attempt, attempts, verbose, error, t),
            #[trigger] restore::attempted(explicit, attempt, attempts, verbose, error, t + more),
            more,
        ),
{
    broadcast use {
        panel_number_read_shrinks,
        panel_number_read_waits,
        replay_laws::panel_number_read_goes_on,
        logged_shrinks,
        logged_waits,
        replay_laws::logged_goes_on,
        builtin_found_shrinks,
        builtin_found_waits,
        replay_laws::builtin_found_goes_on,
        activity_found_shrinks,
        activity_found_waits,
        replay_laws::activity_found_goes_on,
        numbers_tried_shrinks,
        numbers_tried_waits,
        replay_laws::numbers_tried_goes_on,
    };

}

pub proof fn attempted_cut(
    explicit: Option<u32>,
    attempt: u32,
    attempts: u32,
    verbose: bool,
    error: Option<Seq<char>>,
    t: Seq<ReplyView>,
    j: int,
)
    ensures
        restore::attempted(
            explicit,
            attempt,
            attempts,
            verbose,
            error,
            t,
        ) matches Course::Ends(value, rest)
            ==> {
            &&& rest == t.skip(t.len() - rest.len())
            &&& 0 <= j <= rest.len() ==> restore::attempted(
                explicit, attempt, attempts, verbose, error, t.take(t.len() - rest.len() + j),
            ) == Course::Ends(value, rest.take(j))
        },
{
    broadcast use {attempted_shrinks, attempted_waits, replay_laws::attempted_goes_on};

    if let Course::Ends(value, rest) = restore::attempted(
        explicit,
        attempt,
        attempts,
        verbose,
        error,
        t,
    ) {
        lemma_parts(t, rest, 0);
        lemma_parts(t, rest, j);
    }
}

pub broadcast proof fn attempts_made_shrinks(
    explicit: Option<u32>,
    attempt: u32,
    last: u32,
    attempts: u32,
    verbose: bool,
    error: Option<Seq<char>>,
    t: Seq<ReplyView>,
)
    ensures
        shrinks(
            #[trigger] restore::attempts_made(explicit, attempt, last, attempts, verbose, error, t),
            t,
        ),
    decreases last - attempt,
{
    broadcast use {attempt_prepared_shrinks, attempted_shrinks};

    if attempt < last {
        if let Course::Ends(_, s1) = restore::attempt_prepared(attempt, t) {
            if let Course::Ends(TrialView::Failed(reason), _) = restore::attempted(
                explicit,
                attempt,
                attempts,
                verbose,
                error,
                s1,
            ) {
                assert forall|s: Seq<ReplyView>| #[trigger]
                    s.len() >= 0
                        implies shrinks(
                            restore::attempts_made(
                                explicit,
                                (attempt + 1) as u32,
                                last,
                                attempts,
                                verbose,
                                reason,
                                s,
                            ),
                            s,
                        ) by {
                    attempts_made_shrinks(
                        explicit,
                        (attempt + 1) as u32,
                        last,
                        attempts,
                        verbose,
                        reason,
                        s,
                    );
                }
            }
        }
    }
}

#[verifier::spinoff_prover]
#[verifier::rlimit(60)]
pub broadcast proof fn attempts_made_waits(
    explicit: Option<u32>,
    attempt: u32,
    last: u32,
    attempts: u32,
    verbose: bool,
    error: Option<Seq<char>>,
    t: Seq<ReplyView>,
    more: Seq<ReplyView>,
)
    ensures
        waits(
            restore::attempts_made(explicit, attempt, last, attempts, verbose, error, t),
            #[trigger] restore::attempts_made(
                explicit,
                attempt,
                last,
                attempts,
                verbose,
                error,
                t + more,
            ),
            more,
        ),
    decreases last - attempt,
{
    broadcast use {
        attempt_prepared_shrinks,
        attempt_prepared_waits,
        replay_laws::attempt_prepared_goes_on,
        attempted_shrinks,
        attempted_waits,
        replay_laws::attempted_goes_on,
    };

    if attempt < last {
        if let Course::Ends(_, s1) = restore::attempt_prepared(attempt, t) {
            if let Course::Ends(TrialView::Failed(reason), _) = restore::attempted(
                explicit,
                attempt,
                attempts,
                verbose,
                error,
                s1,
            ) {
                assert forall|s: Seq<ReplyView>| waits(
                    restore::attempts_made(
                        explicit,
                        (attempt + 1) as u32,
                        last,
                        attempts,
                        verbose,
                        reason,
                        s,
                    ),
                    restore::attempts_made(
                        explicit,
                        (attempt + 1) as u32,
                        last,
                        attempts,
                        verbose,
                        reason,
                        #[trigger] (s + more),
                    ),
                    more,
                ) by {
                    attempts_made_waits(
                        explicit,
                        (attempt + 1) as u32,
                        last,
                        attempts,
                        verbose,
                        reason,
                        s,
                        more,
                    );
                }
                assert forall|s: Seq<ReplyView>| #[trigger]
                    s.len() >= 0
                        implies shrinks(
                            restore::attempts_made(
                                explicit,
                                (attempt + 1) as u32,
                                last,
                                attempts,
                                verbose,
                                reason,
                                s,
                            ),
                            s,
                        ) by {
                    attempts_made_shrinks(
                        explicit,
                        (attempt + 1) as u32,
                        last,
                        attempts,
                        verbose,
                        reason,
                        s,
                    );
                }
                assert forall|s: Seq<ReplyView>| replay_laws::goes_on(
                    restore::attempts_made(
                        explicit,
                        (attempt + 1) as u32,
                        last,
                        attempts,
                        verbose,
                        reason,
                        s,
                    ),
                    restore::attempts_made(
                        explicit,
                        (attempt + 1) as u32,
                        last,
                        attempts,
                        verbose,
                        reason,
                        #[trigger] (s + more),
                    ),
                    more,
                ) by {
                    replay_laws::attempts_made_goes_on(
                        explicit,
                        (attempt + 1) as u32,
                        last,
                        attempts,
                        verbose,
                        reason,
                        s,
                        more,
                    );
                }
            }
        }
        if let Course::Ends(_, s1) = restore::attempt_prepared(attempt, t + more) {
            if let Course::Ends(TrialView::Failed(reason), _) = restore::attempted(
                explicit,
                attempt,
                attempts,
                verbose,
                error,
                s1,
            ) {
                assert forall|s: Seq<ReplyView>| waits(
                    restore::attempts_made(
                        explicit,
                        (attempt + 1) as u32,
                        last,
                        attempts,
                        verbose,
                        reason,
                        s,
                    ),
                    restore::attempts_made(
                        explicit,
                        (attempt + 1) as u32,
                        last,
                        attempts,
                        verbose,
                        reason,
                        #[trigger] (s + more),
                    ),
                    more,
                ) by {
                    attempts_made_waits(
                        explicit,
                        (attempt + 1) as u32,
                        last,
                        attempts,
                        verbose,
                        reason,
                        s,
                        more,
                    );
                }
                assert forall|s: Seq<ReplyView>| #[trigger]
                    s.len() >= 0
                        implies shrinks(
                            restore::attempts_made(
                                explicit,
                                (attempt + 1) as u32,
                                last,
                                attempts,
                                verbose,
                                reason,
                                s,
                            ),
                            s,
                        ) by {
                    attempts_made_shrinks(
                        explicit,
                        (attempt + 1) as u32,
                        last,
                        attempts,
                        verbose,
                        reason,
                        s,
                    );
                }
                assert forall|s: Seq<ReplyView>| replay_laws::goes_on(
                    restore::attempts_made(
                        explicit,
                        (attempt + 1) as u32,
                        last,
                        attempts,
                        verbose,
                        reason,
                        s,
                    ),
                    restore::attempts_made(
                        explicit,
                        (attempt + 1) as u32,
                        last,
                        attempts,
                        verbose,
                        reason,
                        #[trigger] (s + more),
                    ),
                    more,
                ) by {
                    replay_laws::attempts_made_goes_on(
                        explicit,
                        (attempt + 1) as u32,
                        last,
                        attempts,
                        verbose,
                        reason,
                        s,
                        more,
                    );
                }
            }
        }
    }
}

pub broadcast proof fn internal_enabled_shrinks(
    explicit: Option<u32>,
    attempts: u32,
    mode: ActionMode,
    verbose: bool,
    t: Seq<ReplyView>,
)
    ensures
        shrinks(#[trigger] restore::internal_enabled(explicit, attempts, mode, verbose, t), t),
{
    broadcast use {panel_number_read_shrinks, native_switched_shrinks, attempts_made_shrinks};

}

pub broadcast proof fn internal_enabled_waits(
    explicit: Option<u32>,
    attempts: u32,
    mode: ActionMode,
    verbose: bool,
    t: Seq<ReplyView>,
    more: Seq<ReplyView>,
)
    ensures
        waits(
            restore::internal_enabled(explicit, attempts, mode, verbose, t),
            #[trigger] restore::internal_enabled(explicit, attempts, mode, verbose, t + more),
            more,
        ),
{
    broadcast use {
        panel_number_read_shrinks,
        panel_number_read_waits,
        replay_laws::panel_number_read_goes_on,
        native_switched_shrinks,
        native_switched_waits,
        replay_laws::native_switched_goes_on,
        attempts_made_shrinks,
        attempts_made_waits,
        replay_laws::attempts_made_goes_on,
    };

}

pub proof fn internal_enabled_cut(
    explicit: Option<u32>,
    attempts: u32,
    mode: ActionMode,
    verbose: bool,
    t: Seq<ReplyView>,
    j: int,
)
    ensures
        restore::internal_enabled(
            explicit,
            attempts,
            mode,
            verbose,
            t,
        ) matches Course::Ends(value, rest)
            ==> {
            &&& rest == t.skip(t.len() - rest.len())
            &&& 0 <= j <= rest.len() ==> restore::internal_enabled(
                explicit, attempts, mode, verbose, t.take(t.len() - rest.len() + j),
            ) == Course::Ends(value, rest.take(j))
        },
{
    broadcast use {
        internal_enabled_shrinks,
        internal_enabled_waits,
        replay_laws::internal_enabled_goes_on,
    };

    if let Course::Ends(value, rest) = restore::internal_enabled(
        explicit,
        attempts,
        mode,
        verbose,
        t,
    ) {
        lemma_parts(t, rest, 0);
        lemma_parts(t, rest, j);
    }
}

pub broadcast proof fn internal_restored_shrinks(
    explicit: Option<u32>,
    mode: ActionMode,
    fallback: bool,
    verbose: bool,
    attempts: u32,
    t: Seq<ReplyView>,
)
    ensures
        shrinks(
            #[trigger] restore::internal_restored(explicit, mode, fallback, verbose, attempts, t),
            t,
        ),
{
    broadcast use {detected_shrinks, fallback_tried_shrinks, internal_enabled_shrinks};

}

pub broadcast proof fn internal_restored_waits(
    explicit: Option<u32>,
    mode: ActionMode,
    fallback: bool,
    verbose: bool,
    attempts: u32,
    t: Seq<ReplyView>,
    more: Seq<ReplyView>,
)
    ensures
        waits(
            restore::internal_restored(explicit, mode, fallback, verbose, attempts, t),
            #[trigger] restore::internal_restored(
                explicit,
                mode,
                fallback,
                verbose,
                attempts,
                t + more,
            ),
            more,
        ),
{
    broadcast use {
        detected_shrinks,
        detected_waits,
        replay_laws::detected_goes_on,
        fallback_tried_shrinks,
        fallback_tried_waits,
        replay_laws::fallback_tried_goes_on,
        internal_enabled_shrinks,
        internal_enabled_waits,
        replay_laws::internal_enabled_goes_on,
    };

}

pub proof fn internal_restored_cut(
    explicit: Option<u32>,
    mode: ActionMode,
    fallback: bool,
    verbose: bool,
    attempts: u32,
    t: Seq<ReplyView>,
    j: int,
)
    ensures
        restore::internal_restored(
            explicit,
            mode,
            fallback,
            verbose,
            attempts,
            t,
        ) matches Course::Ends(value, rest)
            ==> {
            &&& rest == t.skip(t.len() - rest.len())
            &&& 0 <= j <= rest.len() ==> restore::internal_restored(
                explicit, mode, fallback, verbose, attempts, t.take(t.len() - rest.len() + j),
            ) == Course::Ends(value, rest.take(j))
        },
{
    broadcast use {
        internal_restored_shrinks,
        internal_restored_waits,
        replay_laws::internal_restored_goes_on,
    };

    if let Course::Ends(value, rest) = restore::internal_restored(
        explicit,
        mode,
        fallback,
        verbose,
        attempts,
        t,
    ) {
        lemma_parts(t, rest, 0);
        lemma_parts(t, rest, j);
    }
}

pub broadcast proof fn number_restored_shrinks(
    id: u32,
    mode: ActionMode,
    verbose: bool,
    t: Seq<ReplyView>,
)
    ensures
        shrinks(#[trigger] restore::number_restored(id, mode, verbose, t), t),
{
    broadcast use {detected_shrinks, native_switched_shrinks};

}

pub broadcast proof fn number_restored_waits(
    id: u32,
    mode: ActionMode,
    verbose: bool,
    t: Seq<ReplyView>,
    more: Seq<ReplyView>,
)
    ensures
        waits(
            restore::number_restored(id, mode, verbose, t),
            #[trigger] restore::number_restored(id, mode, verbose, t + more),
            more,
        ),
{
    broadcast use {
        detected_shrinks,
        detected_waits,
        replay_laws::detected_goes_on,
        native_switched_shrinks,
        native_switched_waits,
        replay_laws::native_switched_goes_on,
    };

}

pub proof fn number_restored_cut(
    id: u32,
    mode: ActionMode,
    verbose: bool,
    t: Seq<ReplyView>,
    j: int,
)
    ensures
        restore::number_restored(id, mode, verbose, t) matches Course::Ends(value, rest) ==> {
            &&& rest == t.skip(t.len() - rest.len())
            &&& 0 <= j <= rest.len() ==> restore::number_restored(
                id, mode, verbose, t.take(t.len() - rest.len() + j),
            ) == Course::Ends(value, rest.take(j))
        },
{
    broadcast use {
        number_restored_shrinks,
        number_restored_waits,
        replay_laws::number_restored_goes_on,
    };

    if let Course::Ends(value, rest) = restore::number_restored(id, mode, verbose, t) {
        lemma_parts(t, rest, 0);
        lemma_parts(t, rest, j);
    }
}

pub broadcast proof fn detection_tried_shrinks(mode: ActionMode, verbose: bool, t: Seq<ReplyView>)
    ensures
        shrinks(#[trigger] restore::detection_tried(mode, verbose, t), t),
{
    broadcast use {warned_if_shrinks, detected_shrinks};

}

pub broadcast proof fn detection_tried_waits(
    mode: ActionMode,
    verbose: bool,
    t: Seq<ReplyView>,
    more: Seq<ReplyView>,
)
    ensures
        waits(
            restore::detection_tried(mode, verbose, t),
            #[trigger] restore::detection_tried(mode, verbose, t + more),
            more,
        ),
{
    broadcast use {
        warned_if_shrinks,
        warned_if_waits,
        replay_laws::warned_if_goes_on,
        detected_shrinks,
        detected_waits,
        replay_laws::detected_goes_on,
    };

}

pub proof fn detection_tried_cut(
    mode: ActionMode,
    verbose: bool,
    t: Seq<ReplyView>,
    j: int,
)
    ensures
        restore::detection_tried(mode, verbose, t) matches Course::Ends(value, rest) ==> {
            &&& rest == t.skip(t.len() - rest.len())
            &&& 0 <= j <= rest.len() ==> restore::detection_tried(
                mode, verbose, t.take(t.len() - rest.len() + j),
            ) == Course::Ends(value, rest.take(j))
        },
{
    broadcast use {
        detection_tried_shrinks,
        detection_tried_waits,
        replay_laws::detection_tried_goes_on,
    };

    if let Course::Ends(value, rest) = restore::detection_tried(mode, verbose, t) {
        lemma_parts(t, rest, 0);
        lemma_parts(t, rest, j);
    }
}

pub broadcast proof fn lid_read_shrinks(verbose: bool, t: Seq<ReplyView>)
    ensures
        shrinks(#[trigger] restore::lid_read(verbose, t), t),
{
    broadcast use {warned_if_shrinks, timed_run_shrinks};

}

pub broadcast proof fn lid_read_waits(verbose: bool, t: Seq<ReplyView>, more: Seq<ReplyView>)
    ensures
        waits(restore::lid_read(verbose, t), #[trigger] restore::lid_read(verbose, t + more), more),
{
    broadcast use {
        warned_if_shrinks,
        warned_if_waits,
        replay_laws::warned_if_goes_on,
        timed_run_shrinks,
        timed_run_waits,
        replay_laws::timed_run_goes_on,
    };

}

pub proof fn lid_read_cut(verbose: bool, t: Seq<ReplyView>, j: int)
    ensures
        restore::lid_read(verbose, t) matches Course::Ends(value, rest) ==> {
            &&& rest == t.skip(t.len() - rest.len())
            &&& 0 <= j <= rest.len() ==> restore::lid_read(
                verbose, t.take(t.len() - rest.len() + j),
            ) == Course::Ends(value, rest.take(j))
        },
{
    broadcast use {lid_read_shrinks, lid_read_waits, replay_laws::lid_read_goes_on};

    if let Course::Ends(value, rest) = restore::lid_read(verbose, t) {
        lemma_parts(t, rest, 0);
        lemma_parts(t, rest, j);
    }
}

pub broadcast proof fn safety_restored_shrinks(mode: ActionMode, verbose: bool, t: Seq<ReplyView>)
    ensures
        shrinks(#[trigger] restore::safety_restored(mode, verbose, t), t),
{
    broadcast use {
        said_if_shrinks,
        logged_shrinks,
        internal_enabled_shrinks,
        detection_tried_shrinks,
        lid_read_shrinks,
    };

}

pub broadcast proof fn safety_restored_waits(
    mode: ActionMode,
    verbose: bool,
    t: Seq<ReplyView>,
    more: Seq<ReplyView>,
)
    ensures
        waits(
            restore::safety_restored(mode, verbose, t),
            #[trigger] restore::safety_restored(mode, verbose, t + more),
            more,
        ),
{
    broadcast use {
        said_if_shrinks,
        said_if_waits,
        replay_laws::said_if_goes_on,
        logged_shrinks,
        logged_waits,
        replay_laws::logged_goes_on,
        internal_enabled_shrinks,
        internal_enabled_waits,
        replay_laws::internal_enabled_goes_on,
        detection_tried_shrinks,
        detection_tried_waits,
        replay_laws::detection_tried_goes_on,
        lid_read_shrinks,
        lid_read_waits,
        replay_laws::lid_read_goes_on,
    };

}

// ---------------------------------------------------------------------------
// The guard and the safe reset.
// ---------------------------------------------------------------------------
pub broadcast proof fn numbers_enabled_shrinks(
    ids: Seq<u32>,
    mode: ActionMode,
    verbose: bool,
    t: Seq<ReplyView>,
)
    ensures
        shrinks(#[trigger] guard::numbers_enabled(ids, mode, verbose, t), t),
    decreases ids.len(),
{
    broadcast use {said_if_shrinks, warned_if_shrinks, native_switched_shrinks};

    if ids.len() > 0 {
        assert forall|s: Seq<ReplyView>| #[trigger]
            s.len() >= 0
                implies shrinks(guard::numbers_enabled(ids.skip(1), mode, verbose, s), s) by {
            numbers_enabled_shrinks(ids.skip(1), mode, verbose, s);
        }
    }
}

#[verifier::spinoff_prover]
#[verifier::rlimit(60)]
pub broadcast proof fn numbers_enabled_waits(
    ids: Seq<u32>,
    mode: ActionMode,
    verbose: bool,
    t: Seq<ReplyView>,
    more: Seq<ReplyView>,
)
    ensures
        waits(
            guard::numbers_enabled(ids, mode, verbose, t),
            #[trigger] guard::numbers_enabled(ids, mode, verbose, t + more),
            more,
        ),
    decreases ids.len(),
{
    broadcast use {
        said_if_shrinks,
        said_if_waits,
        replay_laws::said_if_goes_on,
        warned_if_shrinks,
        warned_if_waits,
        replay_laws::warned_if_goes_on,
        native_switched_shrinks,
        native_switched_waits,
        replay_laws::native_switched_goes_on,
    };

    if ids.len() > 0 {
        assert forall|s: Seq<ReplyView>| waits(
            guard::numbers_enabled(ids.skip(1), mode, verbose, s),
            guard::numbers_enabled(ids.skip(1), mode, verbose, #[trigger] (s + more)),
            more,
        ) by {
            numbers_enabled_waits(ids.skip(1), mode, verbose, s, more);
        }
        assert forall|s: Seq<ReplyView>| #[trigger]
            s.len() >= 0
                implies shrinks(guard::numbers_enabled(ids.skip(1), mode, verbose, s), s) by {
            numbers_enabled_shrinks(ids.skip(1), mode, verbose, s);
        }
        assert forall|s: Seq<ReplyView>| replay_laws::goes_on(
            guard::numbers_enabled(ids.skip(1), mode, verbose, s),
            guard::numbers_enabled(ids.skip(1), mode, verbose, #[trigger] (s + more)),
            more,
        ) by {
            replay_laws::numbers_enabled_goes_on(ids.skip(1), mode, verbose, s, more);
        }
    }
}

pub broadcast proof fn remembered_enabled_shrinks(
    mode: ActionMode,
    verbose: bool,
    t: Seq<ReplyView>,
)
    ensures
        shrinks(#[trigger] guard::remembered_enabled(mode, verbose, t), t),
{
    broadcast use {warned_if_shrinks, numbers_read_shrinks, numbers_enabled_shrinks};

}

pub broadcast proof fn remembered_enabled_waits(
    mode: ActionMode,
    verbose: bool,
    t: Seq<ReplyView>,
    more: Seq<ReplyView>,
)
    ensures
        waits(
            guard::remembered_enabled(mode, verbose, t),
            #[trigger] guard::remembered_enabled(mode, verbose, t + more),
            more,
        ),
{
    broadcast use {
        warned_if_shrinks,
        warned_if_waits,
        replay_laws::warned_if_goes_on,
        numbers_read_shrinks,
        numbers_read_waits,
        replay_laws::numbers_read_goes_on,
        numbers_enabled_shrinks,
        numbers_enabled_waits,
        replay_laws::numbers_enabled_goes_on,
    };

}

pub proof fn remembered_enabled_cut(
    mode: ActionMode,
    verbose: bool,
    t: Seq<ReplyView>,
    j: int,
)
    ensures
        guard::remembered_enabled(mode, verbose, t) matches Course::Ends(value, rest) ==> {
            &&& rest == t.skip(t.len() - rest.len())
            &&& 0 <= j <= rest.len() ==> guard::remembered_enabled(
                mode, verbose, t.take(t.len() - rest.len() + j),
            ) == Course::Ends(value, rest.take(j))
        },
{
    broadcast use {
        remembered_enabled_shrinks,
        remembered_enabled_waits,
        replay_laws::remembered_enabled_goes_on,
    };

    if let Course::Ends(value, rest) = guard::remembered_enabled(mode, verbose, t) {
        lemma_parts(t, rest, 0);
        lemma_parts(t, rest, j);
    }
}

pub broadcast proof fn settling_awaited_shrinks(mode: ActionMode, t: Seq<ReplyView>)
    ensures
        shrinks(#[trigger] guard::settling_awaited(mode, t), t),
{
    broadcast use asks_any_shrinks;

}

pub broadcast proof fn settling_awaited_waits(
    mode: ActionMode,
    t: Seq<ReplyView>,
    more: Seq<ReplyView>,
)
    ensures
        waits(
            guard::settling_awaited(mode, t),
            #[trigger] guard::settling_awaited(mode, t + more),
            more,
        ),
{
    broadcast use {asks_any_shrinks, asks_any_waits, replay_laws::asks_any_goes_on};

}

pub proof fn settling_awaited_cut(mode: ActionMode, t: Seq<ReplyView>, j: int)
    ensures
        guard::settling_awaited(mode, t) matches Course::Ends(value, rest) ==> {
            &&& rest == t.skip(t.len() - rest.len())
            &&& 0 <= j <= rest.len() ==> guard::settling_awaited(
                mode, t.take(t.len() - rest.len() + j),
            ) == Course::Ends(value, rest.take(j))
        },
{
    broadcast use {
        settling_awaited_shrinks,
        settling_awaited_waits,
        replay_laws::settling_awaited_goes_on,
    };

    if let Course::Ends(value, rest) = guard::settling_awaited(mode, t) {
        lemma_parts(t, rest, 0);
        lemma_parts(t, rest, j);
    }
}

pub broadcast proof fn noted_shrinks(
    mode: ActionMode,
    displays: Seq<DisplayView>,
    t: Seq<ReplyView>,
)
    ensures
        shrinks(#[trigger] guard::noted(mode, displays, t), t),
{
    broadcast use list_remembered_shrinks;

}

pub broadcast proof fn noted_waits(
    mode: ActionMode,
    displays: Seq<DisplayView>,
    t: Seq<ReplyView>,
    more: Seq<ReplyView>,
)
    ensures
        waits(
            guard::noted(mode, displays, t),
            #[trigger] guard::noted(mode, displays, t + more),
            more,
        ),
{
    broadcast use {
        list_remembered_shrinks,
        list_remembered_waits,
        replay_laws::list_remembered_goes_on,
    };

}

pub proof fn noted_cut(
    mode: ActionMode,
    displays: Seq<DisplayView>,
    t: Seq<ReplyView>,
    j: int,
)
    ensures
        guard::noted(mode, displays, t) matches Course::Ends(value, rest) ==> {
            &&& rest == t.skip(t.len() - rest.len())
            &&& 0 <= j <= rest.len() ==> guard::noted(
                mode, displays, t.take(t.len() - rest.len() + j),
            ) == Course::Ends(value, rest.take(j))
        },
{
    broadcast use {noted_shrinks, noted_waits, replay_laws::noted_goes_on};

    if let Course::Ends(value, rest) = guard::noted(mode, displays, t) {
        lemma_parts(t, rest, 0);
        lemma_parts(t, rest, j);
    }
}

pub broadcast proof fn guard_logged_shrinks(
    reason: Seq<char>,
    lid: ClamshellState,
    displays: Option<Seq<DisplayView>>,
    action: GuardAction,
    t: Seq<ReplyView>,
)
    ensures
        shrinks(#[trigger] guard::guard_logged(reason, lid, displays, action, t), t),
{
    broadcast use logged_shrinks;

}

pub broadcast proof fn guard_logged_waits(
    reason: Seq<char>,
    lid: ClamshellState,
    displays: Option<Seq<DisplayView>>,
    action: GuardAction,
    t: Seq<ReplyView>,
    more: Seq<ReplyView>,
)
    ensures
        waits(
            guard::guard_logged(reason, lid, displays, action, t),
            #[trigger] guard::guard_logged(reason, lid, displays, action, t + more),
            more,
        ),
{
    broadcast use {logged_shrinks, logged_waits, replay_laws::logged_goes_on};

}

pub proof fn guard_logged_cut(
    reason: Seq<char>,
    lid: ClamshellState,
    displays: Option<Seq<DisplayView>>,
    action: GuardAction,
    t: Seq<ReplyView>,
    j: int,
)
    ensures
        guard::guard_logged(reason, lid, displays, action, t) matches Course::Ends(value, rest)
            ==> {
            &&& rest == t.skip(t.len() - rest.len())
            &&& 0 <= j <= rest.len() ==> guard::guard_logged(
                reason, lid, displays, action, t.take(t.len() - rest.len() + j),
            ) == Course::Ends(value, rest.take(j))
        },
{
    broadcast use {guard_logged_shrinks, guard_logged_waits, replay_laws::guard_logged_goes_on};

    if let Course::Ends(value, rest) = guard::guard_logged(reason, lid, displays, action, t) {
        lemma_parts(t, rest, 0);
        lemma_parts(t, rest, j);
    }
}

// ---------------------------------------------------------------------------
// Turning off and toggling.
// ---------------------------------------------------------------------------
pub broadcast proof fn internal_disabled_shrinks(
    condition: Option<Seq<char>>,
    mode: ActionMode,
    force: bool,
    print_skips: bool,
    verbose: bool,
    t: Seq<ReplyView>,
)
    ensures
        shrinks(
            #[trigger] switching::internal_disabled(
                condition,
                mode,
                force,
                print_skips,
                verbose,
                t,
            ),
            t,
        ),
{
    broadcast use {
        said_if_shrinks,
        list_remembered_shrinks,
        displays_listed_shrinks,
        placer_switched_shrinks,
    };

}

pub broadcast proof fn internal_disabled_waits(
    condition: Option<Seq<char>>,
    mode: ActionMode,
    force: bool,
    print_skips: bool,
    verbose: bool,
    t: Seq<ReplyView>,
    more: Seq<ReplyView>,
)
    ensures
        waits(
            switching::internal_disabled(condition, mode, force, print_skips, verbose, t),
            #[trigger] switching::internal_disabled(
                condition,
                mode,
                force,
                print_skips,
                verbose,
                t + more,
            ),
            more,
        ),
{
    broadcast use {
        said_if_shrinks,
        said_if_waits,
        replay_laws::said_if_goes_on,
        list_remembered_shrinks,
        list_remembered_waits,
        replay_laws::list_remembered_goes_on,
        displays_listed_shrinks,
        displays_listed_waits,
        replay_laws::displays_listed_goes_on,
        placer_switched_shrinks,
        placer_switched_waits,
        replay_laws::placer_switched_goes_on,
    };

}

pub broadcast proof fn display_noted_shrinks(d: DisplayView, t: Seq<ReplyView>)
    ensures
        shrinks(#[trigger] switching::display_noted(d, t), t),
{
    broadcast use {remembered_shrinks, number_remembered_shrinks};

}

pub broadcast proof fn display_noted_waits(d: DisplayView, t: Seq<ReplyView>, more: Seq<ReplyView>)
    ensures
        waits(
            switching::display_noted(d, t),
            #[trigger] switching::display_noted(d, t + more),
            more,
        ),
{
    broadcast use {
        remembered_shrinks,
        remembered_waits,
        replay_laws::remembered_goes_on,
        number_remembered_shrinks,
        number_remembered_waits,
        replay_laws::number_remembered_goes_on,
    };

}

pub proof fn display_noted_cut(d: DisplayView, t: Seq<ReplyView>, j: int)
    ensures
        switching::display_noted(d, t) matches Course::Ends(value, rest) ==> {
            &&& rest == t.skip(t.len() - rest.len())
            &&& 0 <= j <= rest.len() ==> switching::display_noted(
                d, t.take(t.len() - rest.len() + j),
            ) == Course::Ends(value, rest.take(j))
        },
{
    broadcast use {display_noted_shrinks, display_noted_waits, replay_laws::display_noted_goes_on};

    if let Course::Ends(value, rest) = switching::display_noted(d, t) {
        lemma_parts(t, rest, 0);
        lemma_parts(t, rest, j);
    }
}

// ---------------------------------------------------------------------------
// Watching.
// ---------------------------------------------------------------------------
pub broadcast proof fn listed_or_restored_shrinks(
    mode: ActionMode,
    verbose: bool,
    t: Seq<ReplyView>,
)
    ensures
        shrinks(#[trigger] watching::listed_or_restored(mode, verbose, t), t),
{
    broadcast use {warned_if_shrinks, displays_listed_shrinks, safety_restored_shrinks};

}

pub broadcast proof fn listed_or_restored_waits(
    mode: ActionMode,
    verbose: bool,
    t: Seq<ReplyView>,
    more: Seq<ReplyView>,
)
    ensures
        waits(
            watching::listed_or_restored(mode, verbose, t),
            #[trigger] watching::listed_or_restored(mode, verbose, t + more),
            more,
        ),
{
    broadcast use {
        warned_if_shrinks,
        warned_if_waits,
        replay_laws::warned_if_goes_on,
        displays_listed_shrinks,
        displays_listed_waits,
        replay_laws::displays_listed_goes_on,
        safety_restored_shrinks,
        safety_restored_waits,
        replay_laws::safety_restored_goes_on,
    };

}

pub proof fn listed_or_restored_cut(
    mode: ActionMode,
    verbose: bool,
    t: Seq<ReplyView>,
    j: int,
)
    ensures
        watching::listed_or_restored(mode, verbose, t) matches Course::Ends(value, rest) ==> {
            &&& rest == t.skip(t.len() - rest.len())
            &&& 0 <= j <= rest.len() ==> watching::listed_or_restored(
                mode, verbose, t.take(t.len() - rest.len() + j),
            ) == Course::Ends(value, rest.take(j))
        },
{
    broadcast use {
        listed_or_restored_shrinks,
        listed_or_restored_waits,
        replay_laws::listed_or_restored_goes_on,
    };

    if let Course::Ends(value, rest) = watching::listed_or_restored(mode, verbose, t) {
        lemma_parts(t, rest, 0);
        lemma_parts(t, rest, j);
    }
}

pub broadcast proof fn watch_acted_shrinks(
    displays: Seq<DisplayView>,
    target_present: bool,
    condition: Option<Seq<char>>,
    mode: ActionMode,
    force: bool,
    verbose: bool,
    t: Seq<ReplyView>,
)
    ensures
        shrinks(
            #[trigger] watching::watch_acted(
                displays,
                target_present,
                condition,
                mode,
                force,
                verbose,
                t,
            ),
            t,
        ),
{
    broadcast use {safety_restored_shrinks, internal_disabled_shrinks};

}

pub broadcast proof fn watch_acted_waits(
    displays: Seq<DisplayView>,
    target_present: bool,
    condition: Option<Seq<char>>,
    mode: ActionMode,
    force: bool,
    verbose: bool,
    t: Seq<ReplyView>,
    more: Seq<ReplyView>,
)
    ensures
        waits(
            watching::watch_acted(displays, target_present, condition, mode, force, verbose, t),
            #[trigger] watching::watch_acted(
                displays,
                target_present,
                condition,
                mode,
                force,
                verbose,
                t + more,
            ),
            more,
        ),
{
    broadcast use {
        safety_restored_shrinks,
        safety_restored_waits,
        replay_laws::safety_restored_goes_on,
        internal_disabled_shrinks,
        internal_disabled_waits,
        replay_laws::internal_disabled_goes_on,
    };

}

pub broadcast proof fn targets_watched_shrinks(
    targets: Seq<TargetView>,
    mode: ActionMode,
    force: bool,
    verbose: bool,
    t: Seq<ReplyView>,
)
    ensures
        shrinks(#[trigger] watching::targets_watched(targets, mode, force, verbose, t), t),
{
    broadcast use {list_remembered_shrinks, listed_or_restored_shrinks, watch_acted_shrinks};

}

pub broadcast proof fn targets_watched_waits(
    targets: Seq<TargetView>,
    mode: ActionMode,
    force: bool,
    verbose: bool,
    t: Seq<ReplyView>,
    more: Seq<ReplyView>,
)
    ensures
        waits(
            watching::targets_watched(targets, mode, force, verbose, t),
            #[trigger] watching::targets_watched(targets, mode, force, verbose, t + more),
            more,
        ),
{
    broadcast use {
        list_remembered_shrinks,
        list_remembered_waits,
        replay_laws::list_remembered_goes_on,
        listed_or_restored_shrinks,
        listed_or_restored_waits,
        replay_laws::listed_or_restored_goes_on,
        watch_acted_shrinks,
        watch_acted_waits,
        replay_laws::watch_acted_goes_on,
    };

}

pub proof fn targets_watched_cut(
    targets: Seq<TargetView>,
    mode: ActionMode,
    force: bool,
    verbose: bool,
    t: Seq<ReplyView>,
    j: int,
)
    ensures
        watching::targets_watched(
            targets,
            mode,
            force,
            verbose,
            t,
        ) matches Course::Ends(value, rest)
            ==> {
            &&& rest == t.skip(t.len() - rest.len())
            &&& 0 <= j <= rest.len() ==> watching::targets_watched(
                targets, mode, force, verbose, t.take(t.len() - rest.len() + j),
            ) == Course::Ends(value, rest.take(j))
        },
{
    broadcast use {
        targets_watched_shrinks,
        targets_watched_waits,
        replay_laws::targets_watched_goes_on,
    };

    if let Course::Ends(value, rest) = watching::targets_watched(targets, mode, force, verbose, t) {
        lemma_parts(t, rest, 0);
        lemma_parts(t, rest, j);
    }
}

// ---------------------------------------------------------------------------
// The installation of the guard.
// ---------------------------------------------------------------------------
pub broadcast proof fn launchctl_ran_shrinks(arguments: Seq<Seq<char>>, t: Seq<ReplyView>)
    ensures
        shrinks(#[trigger] install::launchctl_ran(arguments, t), t),
{
    broadcast use asks_ran_shrinks;

}

pub broadcast proof fn launchctl_ran_waits(
    arguments: Seq<Seq<char>>,
    t: Seq<ReplyView>,
    more: Seq<ReplyView>,
)
    ensures
        waits(
            install::launchctl_ran(arguments, t),
            #[trigger] install::launchctl_ran(arguments, t + more),
            more,
        ),
{
    broadcast use {asks_ran_shrinks, asks_ran_waits, replay_laws::asks_ran_goes_on};

}

pub proof fn launchctl_ran_cut(arguments: Seq<Seq<char>>, t: Seq<ReplyView>, j: int)
    ensures
        install::launchctl_ran(arguments, t) matches Course::Ends(value, rest) ==> {
            &&& rest == t.skip(t.len() - rest.len())
            &&& 0 <= j <= rest.len() ==> install::launchctl_ran(
                arguments, t.take(t.len() - rest.len() + j),
            ) == Course::Ends(value, rest.take(j))
        },
{
    broadcast use {launchctl_ran_shrinks, launchctl_ran_waits, replay_laws::launchctl_ran_goes_on};

    if let Course::Ends(value, rest) = install::launchctl_ran(arguments, t) {
        lemma_parts(t, rest, 0);
        lemma_parts(t, rest, j);
    }
}

pub broadcast proof fn domain_found_shrinks(t: Seq<ReplyView>)
    ensures
        shrinks(#[trigger] install::domain_found(t), t),
{
    broadcast use timed_run_shrinks;

}

pub broadcast proof fn domain_found_waits(t: Seq<ReplyView>, more: Seq<ReplyView>)
    ensures
        waits(install::domain_found(t), #[trigger] install::domain_found(t + more), more),
{
    broadcast use {timed_run_shrinks, timed_run_waits, replay_laws::timed_run_goes_on};

}

pub proof fn domain_found_cut(t: Seq<ReplyView>, j: int)
    ensures
        install::domain_found(t) matches Course::Ends(value, rest) ==> {
            &&& rest == t.skip(t.len() - rest.len())
            &&& 0 <= j <= rest.len() ==> install::domain_found(
                t.take(t.len() - rest.len() + j),
            ) == Course::Ends(value, rest.take(j))
        },
{
    broadcast use {domain_found_shrinks, domain_found_waits, replay_laws::domain_found_goes_on};

    if let Course::Ends(value, rest) = install::domain_found(t) {
        lemma_parts(t, rest, 0);
        lemma_parts(t, rest, j);
    }
}

pub broadcast proof fn agent_unloaded_shrinks(label: Seq<char>, mode: ActionMode, t: Seq<ReplyView>)
    ensures
        shrinks(#[trigger] install::agent_unloaded(label, mode, t), t),
{
    broadcast use {asks_any_shrinks, said_shrinks, domain_found_shrinks};

}

pub broadcast proof fn agent_unloaded_waits(
    label: Seq<char>,
    mode: ActionMode,
    t: Seq<ReplyView>,
    more: Seq<ReplyView>,
)
    ensures
        waits(
            install::agent_unloaded(label, mode, t),
            #[trigger] install::agent_unloaded(label, mode, t + more),
            more,
        ),
{
    broadcast use {
        asks_any_shrinks,
        asks_any_waits,
        replay_laws::asks_any_goes_on,
        said_shrinks,
        said_waits,
        replay_laws::said_goes_on,
        domain_found_shrinks,
        domain_found_waits,
        replay_laws::domain_found_goes_on,
    };

}

pub proof fn agent_unloaded_cut(
    label: Seq<char>,
    mode: ActionMode,
    t: Seq<ReplyView>,
    j: int,
)
    ensures
        install::agent_unloaded(label, mode, t) matches Course::Ends(value, rest) ==> {
            &&& rest == t.skip(t.len() - rest.len())
            &&& 0 <= j <= rest.len() ==> install::agent_unloaded(
                label, mode, t.take(t.len() - rest.len() + j),
            ) == Course::Ends(value, rest.take(j))
        },
{
    broadcast use {
        agent_unloaded_shrinks,
        agent_unloaded_waits,
        replay_laws::agent_unloaded_goes_on,
    };

    if let Course::Ends(value, rest) = install::agent_unloaded(label, mode, t) {
        lemma_parts(t, rest, 0);
        lemma_parts(t, rest, j);
    }
}

pub broadcast proof fn plist_filled_shrinks(
    exe: Seq<char>,
    shown: Seq<char>,
    interval: u64,
    t: Seq<ReplyView>,
)
    ensures
        shrinks(#[trigger] install::plist_filled(exe, shown, interval, t), t),
{
    broadcast use {asks_text_shrinks, asks_variable_shrinks};

}

pub broadcast proof fn plist_filled_waits(
    exe: Seq<char>,
    shown: Seq<char>,
    interval: u64,
    t: Seq<ReplyView>,
    more: Seq<ReplyView>,
)
    ensures
        waits(
            install::plist_filled(exe, shown, interval, t),
            #[trigger] install::plist_filled(exe, shown, interval, t + more),
            more,
        ),
{
    broadcast use {
        asks_text_shrinks,
        asks_text_waits,
        replay_laws::asks_text_goes_on,
        asks_variable_shrinks,
        asks_variable_waits,
        replay_laws::asks_variable_goes_on,
    };

}

pub broadcast proof fn plist_made_shrinks(interval: u64, t: Seq<ReplyView>)
    ensures
        shrinks(#[trigger] install::plist_made(interval, t), t),
{
    broadcast use {asks_text_shrinks, plist_filled_shrinks};

}

pub broadcast proof fn plist_made_waits(interval: u64, t: Seq<ReplyView>, more: Seq<ReplyView>)
    ensures
        waits(
            install::plist_made(interval, t),
            #[trigger] install::plist_made(interval, t + more),
            more,
        ),
{
    broadcast use {
        asks_text_shrinks,
        asks_text_waits,
        replay_laws::asks_text_goes_on,
        plist_filled_shrinks,
        plist_filled_waits,
        replay_laws::plist_filled_goes_on,
    };

}

pub proof fn plist_made_cut(interval: u64, t: Seq<ReplyView>, j: int)
    ensures
        install::plist_made(interval, t) matches Course::Ends(value, rest) ==> {
            &&& rest == t.skip(t.len() - rest.len())
            &&& 0 <= j <= rest.len() ==> install::plist_made(
                interval, t.take(t.len() - rest.len() + j),
            ) == Course::Ends(value, rest.take(j))
        },
{
    broadcast use {plist_made_shrinks, plist_made_waits, replay_laws::plist_made_goes_on};

    if let Course::Ends(value, rest) = install::plist_made(interval, t) {
        lemma_parts(t, rest, 0);
        lemma_parts(t, rest, j);
    }
}

pub broadcast proof fn plist_written_shrinks(
    plist: GuardPlistView,
    mode: ActionMode,
    t: Seq<ReplyView>,
)
    ensures
        shrinks(#[trigger] install::plist_written(plist, mode, t), t),
{
    broadcast use {said_shrinks, asks_done_shrinks};

}

pub broadcast proof fn plist_written_waits(
    plist: GuardPlistView,
    mode: ActionMode,
    t: Seq<ReplyView>,
    more: Seq<ReplyView>,
)
    ensures
        waits(
            install::plist_written(plist, mode, t),
            #[trigger] install::plist_written(plist, mode, t + more),
            more,
        ),
{
    broadcast use {
        said_shrinks,
        said_waits,
        replay_laws::said_goes_on,
        asks_done_shrinks,
        asks_done_waits,
        replay_laws::asks_done_goes_on,
    };

}

pub proof fn plist_written_cut(
    plist: GuardPlistView,
    mode: ActionMode,
    t: Seq<ReplyView>,
    j: int,
)
    ensures
        install::plist_written(plist, mode, t) matches Course::Ends(value, rest) ==> {
            &&& rest == t.skip(t.len() - rest.len())
            &&& 0 <= j <= rest.len() ==> install::plist_written(
                plist, mode, t.take(t.len() - rest.len() + j),
            ) == Course::Ends(value, rest.take(j))
        },
{
    broadcast use {plist_written_shrinks, plist_written_waits, replay_laws::plist_written_goes_on};

    if let Course::Ends(value, rest) = install::plist_written(plist, mode, t) {
        lemma_parts(t, rest, 0);
        lemma_parts(t, rest, j);
    }
}

// ---------------------------------------------------------------------------
// Snapshots.
// ---------------------------------------------------------------------------
pub broadcast proof fn list_added_shrinks(body: Seq<char>, t: Seq<ReplyView>)
    ensures
        shrinks(#[trigger] snapshot::list_added(body, t), t),
{
    broadcast use {list_remembered_shrinks, displays_listed_shrinks};

}

pub broadcast proof fn list_added_waits(body: Seq<char>, t: Seq<ReplyView>, more: Seq<ReplyView>)
    ensures
        waits(snapshot::list_added(body, t), #[trigger] snapshot::list_added(body, t + more), more),
{
    broadcast use {
        list_remembered_shrinks,
        list_remembered_waits,
        replay_laws::list_remembered_goes_on,
        displays_listed_shrinks,
        displays_listed_waits,
        replay_laws::displays_listed_goes_on,
    };

}

pub proof fn list_added_cut(body: Seq<char>, t: Seq<ReplyView>, j: int)
    ensures
        snapshot::list_added(body, t) matches Course::Ends(value, rest) ==> {
            &&& rest == t.skip(t.len() - rest.len())
            &&& 0 <= j <= rest.len() ==> snapshot::list_added(
                body, t.take(t.len() - rest.len() + j),
            ) == Course::Ends(value, rest.take(j))
        },
{
    broadcast use {list_added_shrinks, list_added_waits, replay_laws::list_added_goes_on};

    if let Course::Ends(value, rest) = snapshot::list_added(body, t) {
        lemma_parts(t, rest, 0);
        lemma_parts(t, rest, j);
    }
}

pub broadcast proof fn captured_shrinks(
    program: Seq<char>,
    arguments: Seq<Seq<char>>,
    body: Seq<char>,
    t: Seq<ReplyView>,
)
    ensures
        shrinks(#[trigger] snapshot::captured(program, arguments, body, t), t),
{
    broadcast use asks_ran_shrinks;

}

pub broadcast proof fn captured_waits(
    program: Seq<char>,
    arguments: Seq<Seq<char>>,
    body: Seq<char>,
    t: Seq<ReplyView>,
    more: Seq<ReplyView>,
)
    ensures
        waits(
            snapshot::captured(program, arguments, body, t),
            #[trigger] snapshot::captured(program, arguments, body, t + more),
            more,
        ),
{
    broadcast use {asks_ran_shrinks, asks_ran_waits, replay_laws::asks_ran_goes_on};

}

pub proof fn captured_cut(
    program: Seq<char>,
    arguments: Seq<Seq<char>>,
    body: Seq<char>,
    t: Seq<ReplyView>,
    j: int,
)
    ensures
        snapshot::captured(program, arguments, body, t) matches Course::Ends(value, rest) ==> {
            &&& rest == t.skip(t.len() - rest.len())
            &&& 0 <= j <= rest.len() ==> snapshot::captured(
                program, arguments, body, t.take(t.len() - rest.len() + j),
            ) == Course::Ends(value, rest.take(j))
        },
{
    broadcast use {captured_shrinks, captured_waits, replay_laws::captured_goes_on};

    if let Course::Ends(value, rest) = snapshot::captured(program, arguments, body, t) {
        lemma_parts(t, rest, 0);
        lemma_parts(t, rest, j);
    }
}

pub broadcast proof fn preferences_added_shrinks(body: Seq<char>, t: Seq<ReplyView>)
    ensures
        shrinks(#[trigger] snapshot::preferences_added(body, t), t),
{
    broadcast use {asks_flag_shrinks, asks_text_shrinks, captured_shrinks};

}

pub broadcast proof fn preferences_added_waits(
    body: Seq<char>,
    t: Seq<ReplyView>,
    more: Seq<ReplyView>,
)
    ensures
        waits(
            snapshot::preferences_added(body, t),
            #[trigger] snapshot::preferences_added(body, t + more),
            more,
        ),
{
    broadcast use {
        asks_flag_shrinks,
        asks_flag_waits,
        replay_laws::asks_flag_goes_on,
        asks_text_shrinks,
        asks_text_waits,
        replay_laws::asks_text_goes_on,
        captured_shrinks,
        captured_waits,
        replay_laws::captured_goes_on,
    };

}

pub proof fn preferences_added_cut(body: Seq<char>, t: Seq<ReplyView>, j: int)
    ensures
        snapshot::preferences_added(body, t) matches Course::Ends(value, rest) ==> {
            &&& rest == t.skip(t.len() - rest.len())
            &&& 0 <= j <= rest.len() ==> snapshot::preferences_added(
                body, t.take(t.len() - rest.len() + j),
            ) == Course::Ends(value, rest.take(j))
        },
{
    broadcast use {
        preferences_added_shrinks,
        preferences_added_waits,
        replay_laws::preferences_added_goes_on,
    };

    if let Course::Ends(value, rest) = snapshot::preferences_added(body, t) {
        lemma_parts(t, rest, 0);
        lemma_parts(t, rest, j);
    }
}

pub broadcast proof fn probed_shrinks(probes: Seq<ProbeView>, body: Seq<char>, t: Seq<ReplyView>)
    ensures
        shrinks(#[trigger] snapshot::probed(probes, body, t), t),
    decreases probes.len(),
{
    broadcast use captured_shrinks;

    if probes.len() > 0 {
        if let Course::Ends(longer, _) = snapshot::captured(
            probes[0].program,
            probes[0].arguments,
            body,
            t,
        ) {
            assert forall|s: Seq<ReplyView>| #[trigger]
                s.len() >= 0 implies shrinks(snapshot::probed(probes.skip(1), longer, s), s) by {
                probed_shrinks(probes.skip(1), longer, s);
            }
        }
    }
}

#[verifier::spinoff_prover]
#[verifier::rlimit(60)]
pub broadcast proof fn probed_waits(
    probes: Seq<ProbeView>,
    body: Seq<char>,
    t: Seq<ReplyView>,
    more: Seq<ReplyView>,
)
    ensures
        waits(
            snapshot::probed(probes, body, t),
            #[trigger] snapshot::probed(probes, body, t + more),
            more,
        ),
    decreases probes.len(),
{
    broadcast use {captured_shrinks, captured_waits, replay_laws::captured_goes_on};

    if probes.len() > 0 {
        if let Course::Ends(longer, _) = snapshot::captured(
            probes[0].program,
            probes[0].arguments,
            body,
            t,
        ) {
            assert forall|s: Seq<ReplyView>| waits(
                snapshot::probed(probes.skip(1), longer, s),
                snapshot::probed(probes.skip(1), longer, #[trigger] (s + more)),
                more,
            ) by {
                probed_waits(probes.skip(1), longer, s, more);
            }
            assert forall|s: Seq<ReplyView>| #[trigger]
                s.len() >= 0 implies shrinks(snapshot::probed(probes.skip(1), longer, s), s) by {
                probed_shrinks(probes.skip(1), longer, s);
            }
            assert forall|s: Seq<ReplyView>| replay_laws::goes_on(
                snapshot::probed(probes.skip(1), longer, s),
                snapshot::probed(probes.skip(1), longer, #[trigger] (s + more)),
                more,
            ) by {
                replay_laws::probed_goes_on(probes.skip(1), longer, s, more);
            }
        }
        if let Course::Ends(longer, _) = snapshot::captured(
            probes[0].program,
            probes[0].arguments,
            body,
            t + more,
        ) {
            assert forall|s: Seq<ReplyView>| waits(
                snapshot::probed(probes.skip(1), longer, s),
                snapshot::probed(probes.skip(1), longer, #[trigger] (s + more)),
                more,
            ) by {
                probed_waits(probes.skip(1), longer, s, more);
            }
            assert forall|s: Seq<ReplyView>| #[trigger]
                s.len() >= 0 implies shrinks(snapshot::probed(probes.skip(1), longer, s), s) by {
                probed_shrinks(probes.skip(1), longer, s);
            }
            assert forall|s: Seq<ReplyView>| replay_laws::goes_on(
                snapshot::probed(probes.skip(1), longer, s),
                snapshot::probed(probes.skip(1), longer, #[trigger] (s + more)),
                more,
            ) by {
                replay_laws::probed_goes_on(probes.skip(1), longer, s, more);
            }
        }
    }
}

pub broadcast proof fn snapshot_gathered_shrinks(label: Seq<char>, stamp: u64, t: Seq<ReplyView>)
    ensures
        shrinks(#[trigger] snapshot::snapshot_gathered(label, stamp, t), t),
{
    broadcast use {list_added_shrinks, preferences_added_shrinks, probed_shrinks};

}

pub broadcast proof fn snapshot_gathered_waits(
    label: Seq<char>,
    stamp: u64,
    t: Seq<ReplyView>,
    more: Seq<ReplyView>,
)
    ensures
        waits(
            snapshot::snapshot_gathered(label, stamp, t),
            #[trigger] snapshot::snapshot_gathered(label, stamp, t + more),
            more,
        ),
{
    broadcast use {
        list_added_shrinks,
        list_added_waits,
        replay_laws::list_added_goes_on,
        preferences_added_shrinks,
        preferences_added_waits,
        replay_laws::preferences_added_goes_on,
        probed_shrinks,
        probed_waits,
        replay_laws::probed_goes_on,
    };

}

pub proof fn snapshot_gathered_cut(
    label: Seq<char>,
    stamp: u64,
    t: Seq<ReplyView>,
    j: int,
)
    ensures
        snapshot::snapshot_gathered(label, stamp, t) matches Course::Ends(value, rest) ==> {
            &&& rest == t.skip(t.len() - rest.len())
            &&& 0 <= j <= rest.len() ==> snapshot::snapshot_gathered(
                label, stamp, t.take(t.len() - rest.len() + j),
            ) == Course::Ends(value, rest.take(j))
        },
{
    broadcast use {
        snapshot_gathered_shrinks,
        snapshot_gathered_waits,
        replay_laws::snapshot_gathered_goes_on,
    };

    if let Course::Ends(value, rest) = snapshot::snapshot_gathered(label, stamp, t) {
        lemma_parts(t, rest, 0);
        lemma_parts(t, rest, j);
    }
}

// ---------------------------------------------------------------------------
// The watch.
// ---------------------------------------------------------------------------
pub broadcast proof fn events_started_shrinks(seconds: u64, t: Seq<ReplyView>)
    ensures
        shrinks(#[trigger] watch::events_started(seconds, t), t),
{
    broadcast use asks_flag_shrinks;

}

pub broadcast proof fn events_started_waits(seconds: u64, t: Seq<ReplyView>, more: Seq<ReplyView>)
    ensures
        waits(
            watch::events_started(seconds, t),
            #[trigger] watch::events_started(seconds, t + more),
            more,
        ),
{
    broadcast use {asks_flag_shrinks, asks_flag_waits, replay_laws::asks_flag_goes_on};

}

pub proof fn events_started_cut(seconds: u64, t: Seq<ReplyView>, j: int)
    ensures
        watch::events_started(seconds, t) matches Course::Ends(value, rest) ==> {
            &&& rest == t.skip(t.len() - rest.len())
            &&& 0 <= j <= rest.len() ==> watch::events_started(
                seconds, t.take(t.len() - rest.len() + j),
            ) == Course::Ends(value, rest.take(j))
        },
{
    broadcast use {
        events_started_shrinks,
        events_started_waits,
        replay_laws::events_started_goes_on,
    };

    if let Course::Ends(value, rest) = watch::events_started(seconds, t) {
        lemma_parts(t, rest, 0);
        lemma_parts(t, rest, j);
    }
}

// ---------------------------------------------------------------------------
// The interactive mode.
// ---------------------------------------------------------------------------
pub broadcast proof fn list_refreshed_shrinks(ui: UiView, t: Seq<ReplyView>)
    ensures
        shrinks(#[trigger] interactive::list_refreshed(ui, t), t),
{
    broadcast use {list_remembered_shrinks, displays_merged_shrinks, displays_listed_shrinks};

}

pub broadcast proof fn list_refreshed_waits(ui: UiView, t: Seq<ReplyView>, more: Seq<ReplyView>)
    ensures
        waits(
            interactive::list_refreshed(ui, t),
            #[trigger] interactive::list_refreshed(ui, t + more),
            more,
        ),
{
    broadcast use {
        list_remembered_shrinks,
        list_remembered_waits,
        replay_laws::list_remembered_goes_on,
        displays_merged_shrinks,
        displays_merged_waits,
        replay_laws::displays_merged_goes_on,
        displays_listed_shrinks,
        displays_listed_waits,
        replay_laws::displays_listed_goes_on,
    };

}

pub proof fn list_refreshed_cut(ui: UiView, t: Seq<ReplyView>, j: int)
    ensures
        interactive::list_refreshed(ui, t) matches Course::Ends(value, rest) ==> {
            &&& rest == t.skip(t.len() - rest.len())
            &&& 0 <= j <= rest.len() ==> interactive::list_refreshed(
                ui, t.take(t.len() - rest.len() + j),
            ) == Course::Ends(value, rest.take(j))
        },
{
    broadcast use {
        list_refreshed_shrinks,
        list_refreshed_waits,
        replay_laws::list_refreshed_goes_on,
    };

    if let Course::Ends(value, rest) = interactive::list_refreshed(ui, t) {
        lemma_parts(t, rest, 0);
        lemma_parts(t, rest, j);
    }
}

pub broadcast proof fn panel_looked_up_shrinks(ui: UiView, t: Seq<ReplyView>)
    ensures
        shrinks(#[trigger] interactive::panel_looked_up(ui, t), t),
{
    broadcast use summary_read_shrinks;

}

pub broadcast proof fn panel_looked_up_waits(ui: UiView, t: Seq<ReplyView>, more: Seq<ReplyView>)
    ensures
        waits(
            interactive::panel_looked_up(ui, t),
            #[trigger] interactive::panel_looked_up(ui, t + more),
            more,
        ),
{
    broadcast use {summary_read_shrinks, summary_read_waits, replay_laws::summary_read_goes_on};

}

pub proof fn panel_looked_up_cut(ui: UiView, t: Seq<ReplyView>, j: int)
    ensures
        interactive::panel_looked_up(ui, t) matches Course::Ends(value, rest) ==> {
            &&& rest == t.skip(t.len() - rest.len())
            &&& 0 <= j <= rest.len() ==> interactive::panel_looked_up(
                ui, t.take(t.len() - rest.len() + j),
            ) == Course::Ends(value, rest.take(j))
        },
{
    broadcast use {
        panel_looked_up_shrinks,
        panel_looked_up_waits,
        replay_laws::panel_looked_up_goes_on,
    };

    if let Course::Ends(value, rest) = interactive::panel_looked_up(ui, t) {
        lemma_parts(t, rest, 0);
        lemma_parts(t, rest, j);
    }
}

pub broadcast proof fn power_started_shrinks(t: Seq<ReplyView>)
    ensures
        shrinks(#[trigger] interactive::power_started(t), t),
{
    broadcast use asks_done_shrinks;

}

pub broadcast proof fn power_started_waits(t: Seq<ReplyView>, more: Seq<ReplyView>)
    ensures
        waits(interactive::power_started(t), #[trigger] interactive::power_started(t + more), more),
{
    broadcast use {asks_done_shrinks, asks_done_waits, replay_laws::asks_done_goes_on};

}

pub proof fn power_started_cut(t: Seq<ReplyView>, j: int)
    ensures
        interactive::power_started(t) matches Course::Ends(value, rest) ==> {
            &&& rest == t.skip(t.len() - rest.len())
            &&& 0 <= j <= rest.len() ==> interactive::power_started(
                t.take(t.len() - rest.len() + j),
            ) == Course::Ends(value, rest.take(j))
        },
{
    broadcast use {power_started_shrinks, power_started_waits, replay_laws::power_started_goes_on};

    if let Course::Ends(value, rest) = interactive::power_started(t) {
        lemma_parts(t, rest, 0);
        lemma_parts(t, rest, j);
    }
}

pub broadcast proof fn refreshed_if_due_shrinks(ui: UiView, t: Seq<ReplyView>)
    ensures
        shrinks(#[trigger] interactive::refreshed_if_due(ui, t), t),
{
    broadcast use list_refreshed_shrinks;

}

pub broadcast proof fn refreshed_if_due_waits(ui: UiView, t: Seq<ReplyView>, more: Seq<ReplyView>)
    ensures
        waits(
            interactive::refreshed_if_due(ui, t),
            #[trigger] interactive::refreshed_if_due(ui, t + more),
            more,
        ),
{
    broadcast use {
        list_refreshed_shrinks,
        list_refreshed_waits,
        replay_laws::list_refreshed_goes_on,
    };

}

pub proof fn refreshed_if_due_cut(ui: UiView, t: Seq<ReplyView>, j: int)
    ensures
        interactive::refreshed_if_due(ui, t) matches Course::Ends(value, rest) ==> {
            &&& rest == t.skip(t.len() - rest.len())
            &&& 0 <= j <= rest.len() ==> interactive::refreshed_if_due(
                ui, t.take(t.len() - rest.len() + j),
            ) == Course::Ends(value, rest.take(j))
        },
{
    broadcast use {
        refreshed_if_due_shrinks,
        refreshed_if_due_waits,
        replay_laws::refreshed_if_due_goes_on,
    };

    if let Course::Ends(value, rest) = interactive::refreshed_if_due(ui, t) {
        lemma_parts(t, rest, 0);
        lemma_parts(t, rest, j);
    }
}

} // verus!
