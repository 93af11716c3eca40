//! What is written for `launchd`.

use vstd::prelude::*;

use crate::agent;
use crate::install;
use crate::number;
use crate::text;

verus! {

// ---------------------------------------------------------------------------
// Escapes.
// ---------------------------------------------------------------------------
proof fn lemma_escapes()
    ensures
        "&amp;"@ == seq!['&', 'a', 'm', 'p', ';'],
        "&lt;"@ == seq!['&', 'l', 't', ';'],
        "&gt;"@ == seq!['&', 'g', 't', ';'],
        "&quot;"@ == seq!['&', 'q', 'u', 'o', 't', ';'],
        "&apos;"@ == seq!['&', 'a', 'p', 'o', 's', ';'],
{
    reveal_strlit("&amp;");
    reveal_strlit("&lt;");
    reveal_strlit("&gt;");
    reveal_strlit("&quot;");
    reveal_strlit("&apos;");
    assert("&amp;"@ =~= seq!['&', 'a', 'm', 'p', ';']);
    assert("&lt;"@ =~= seq!['&', 'l', 't', ';']);
    assert("&gt;"@ =~= seq!['&', 'g', 't', ';']);
    assert("&quot;"@ =~= seq!['&', 'q', 'u', 'o', 't', ';']);
    assert("&apos;"@ =~= seq!['&', 'a', 'p', 'o', 's', ';']);
}

/// A character that has a meaning of its own between tags.
pub open spec fn special(c: char) -> bool {
    c == '&' || c == '<' || c == '>' || c == '"' || c == '\''
}

/// What is escaped holds no tag and no quote. A text without such characters is
/// written as it is, and two texts are escaped one after the other.
pub proof fn escaping_leaves_no_tags(a: Seq<char>, b: Seq<char>)
    ensures
        forall|i: int|
            0 <= i < agent::escaped(a).len() ==> !special(#[trigger] agent::escaped(a)[i])
                || agent::escaped(a)[i] == '&',
        (forall|i: int| 0 <= i < a.len() ==> !special(#[trigger] a[i])) ==> agent::escaped(a) == a,
        agent::escaped(a + b) == agent::escaped(a) + agent::escaped(b),
{
    lemma_no_tags(a);
    lemma_escaped_adds(a, b);
}

proof fn lemma_no_tags(a: Seq<char>)
    ensures
        forall|i: int|
            0 <= i < agent::escaped(a).len() ==> !special(#[trigger] agent::escaped(a)[i])
                || agent::escaped(a)[i] == '&',
        (forall|i: int| 0 <= i < a.len() ==> !special(#[trigger] a[i])) ==> agent::escaped(a) == a,
    decreases a.len(),
{
    lemma_escapes();
    if a.len() > 0 {
        lemma_no_tags(a.drop_last());
        let early = agent::escaped(a.drop_last());
        let end = agent::escaped_char(a.last());
        assert forall|i: int| 0 <= i < agent::escaped(a).len() implies !special(
            #[trigger] agent::escaped(a)[i],
        ) || agent::escaped(a)[i] == '&' by {
            if i < early.len() {
                assert(agent::escaped(a)[i] == early[i]);
            } else {
                assert(agent::escaped(a)[i] == end[i - early.len()]);
            }
        }
        if forall|i: int| 0 <= i < a.len() ==> !special(#[trigger] a[i]) {
            assert forall|i: int| 0 <= i < a.drop_last().len() implies !special(
                #[trigger] a.drop_last()[i],
            ) by {
                assert(a.drop_last()[i] == a[i]);
            }
            assert(!special(a[a.len() - 1]));
            assert(agent::escaped(a) =~= a);
        }
    } else {
        assert(agent::escaped(a) =~= a);
    }
}

proof fn lemma_escaped_adds(a: Seq<char>, b: Seq<char>)
    ensures
        agent::escaped(a + b) == agent::escaped(a) + agent::escaped(b),
    decreases b.len(),
{
    if b.len() == 0 {
        assert(a + b =~= a);
        assert(agent::escaped(a) + agent::escaped(b) =~= agent::escaped(a));
    } else {
        lemma_escaped_adds(a, b.drop_last());
        assert((a + b).drop_last() =~= a + b.drop_last());
        assert(agent::escaped(a + b) =~= agent::escaped(a) + agent::escaped(b));
    }
}

/// No two texts are escaped alike: the text can be had back from what is written.
pub proof fn escaping_loses_nothing(a: Seq<char>, b: Seq<char>)
    requires
        agent::escaped(a) == agent::escaped(b),
    ensures
        a == b,
    decreases a.len() + b.len(),
{
    lemma_escapes();
    if a.len() == 0 || b.len() == 0 {
        if a.len() > 0 {
            assert(agent::escaped(a).len() > 0);
        }
        if b.len() > 0 {
            assert(agent::escaped(b).len() > 0);
        }
        assert(a =~= b);
    } else {
        // The first characters decide.
        let x = a[0];
        let y = b[0];
        let ra = a.skip(1);
        let rb = b.skip(1);
        assert(a =~= seq![x] + ra);
        assert(b =~= seq![y] + rb);
        lemma_escaped_adds(seq![x], ra);
        lemma_escaped_adds(seq![y], rb);
        lemma_escaped_one(x);
        lemma_escaped_one(y);
        let ex = agent::escaped_char(x);
        let ey = agent::escaped_char(y);
        let all = agent::escaped(a);
        assert(all == ex + agent::escaped(ra));
        assert(all == ey + agent::escaped(rb));
        assert(all[0] == ex[0] && all[0] == ey[0]);
        if special(x) || special(y) {
            assert(ex[0] == '&' && ey[0] == '&');
            assert(special(x) && special(y));
            assert(all[1] == ex[1] && all[1] == ey[1]);
            assert(all[2] == ex[2] && all[2] == ey[2]);
        }
        assert(x == y);
        assert(agent::escaped(ra) =~= all.skip(ex.len() as int));
        assert(agent::escaped(rb) =~= all.skip(ey.len() as int));
        escaping_loses_nothing(ra, rb);
    }
}

proof fn lemma_escaped_one(c: char)
    ensures
        agent::escaped(seq![c]) == agent::escaped_char(c),
        agent::escaped_char(c).len() > 0,
{
    lemma_escapes();
    assert(seq![c].drop_last() =~= Seq::empty());
    assert(agent::escaped(Seq::<char>::empty()) =~= Seq::empty());
    assert(agent::escaped(seq![c]) =~= agent::escaped_char(c));
}

// ---------------------------------------------------------------------------
// The search path.
// ---------------------------------------------------------------------------
proof fn lemma_with_dirs(dirs: Seq<Seq<char>>, more: Seq<Seq<char>>)
    requires
        dirs.no_duplicates(),
    ensures
        agent::with_dirs(dirs, more).no_duplicates(),
        dirs.is_prefix_of(agent::with_dirs(dirs, more)),
        forall|d: Seq<char>|
            #![trigger agent::with_dirs(dirs, more).contains(d)]
            agent::with_dirs(dirs, more).contains(d) <==> dirs.contains(d) || (d.len() > 0
                && more.contains(d)),
    decreases more.len(),
{
    let all = agent::with_dirs(dirs, more);
    if more.len() == 0 {
        assert(dirs.is_prefix_of(dirs));
        assert forall|d: Seq<char>| #[trigger] all.contains(d) implies dirs.contains(d) || (d.len()
            > 0 && more.contains(d)) by {}
    } else {
        let early = agent::with_dirs(dirs, more.drop_last());
        let last = more.last();
        lemma_with_dirs(dirs, more.drop_last());
        assert(more[more.len() - 1] == last);
        assert(more =~= more.drop_last().push(last));
        assert forall|d: Seq<char>| more.contains(d) <==> more.drop_last().contains(d) || d
            == last by {
            if more.drop_last().contains(d) {
                let i = choose|i: int| 0 <= i < more.drop_last().len() && more.drop_last()[i] == d;
                assert(more[i] == d);
            }
            if more.contains(d) && d != last {
                let i = choose|i: int| 0 <= i < more.len() && more[i] == d;
                assert(more.drop_last()[i] == d);
            }
        }
        if last.len() > 0 && !early.contains(last) {
            assert(all == early.push(last));
            assert forall|d: Seq<char>| #[trigger] all.contains(d) <==> early.contains(d) || d
                == last by {
                if early.contains(d) {
                    let i = choose|i: int| 0 <= i < early.len() && early[i] == d;
                    assert(all[i] == d);
                }
                if d == last {
                    assert(all[early.len() as int] == d);
                }
            }
            assert(dirs.is_prefix_of(all)) by {
                assert(all.subrange(0, dirs.len() as int) =~= early.subrange(
                    0,
                    dirs.len() as int,
                ));
            }
        } else {
            assert(all == early);
        }
    }
}

/// Where the guard looks for commands: first in the two places of its package
/// manager, and also wherever the path at hand points and in the places of the
/// system. Each place stands once, and there is no other.
pub proof fn guard_looks_everywhere(existing: Option<Seq<char>>)
    ensures
        ({
            let dirs = agent::guard_dirs(existing);
            &&& dirs.no_duplicates()
            &&& dirs.len() >= 2
            &&& dirs[0] == "/opt/homebrew/bin"@
            &&& dirs[0].len() > 0
            &&& dirs[1] == "/usr/local/bin"@
            &&& forall|d: Seq<char>| #[trigger]
                dirs.contains(d) <==> {
                    ||| d == "/opt/homebrew/bin"@
                    ||| d == "/usr/local/bin"@
                    ||| d == "/usr/bin"@
                    ||| d == "/bin"@
                    ||| d == "/usr/sbin"@
                    ||| d == "/sbin"@
                    ||| existing is Some && d.len() > 0 && text::pieces(
                        existing->0,
                        ':',
                    ).contains(d)
                }
        }),
{
    reveal_strlit("/opt/homebrew/bin");
    reveal_strlit("/usr/local/bin");
    assert("/opt/homebrew/bin"@.len() > 0);
    reveal_strlit("/usr/bin");
    reveal_strlit("/bin");
    reveal_strlit("/usr/sbin");
    reveal_strlit("/sbin");
    let brew = agent::homebrew_dirs();
    let system = agent::system_dirs();
    assert(brew[0] == "/opt/homebrew/bin"@ && brew[1] == "/usr/local/bin"@);
    assert("/opt/homebrew/bin"@.len() != "/usr/local/bin"@.len());
    assert(brew.no_duplicates());
    assert(system[0] == "/usr/bin"@ && system[1] == "/bin"@ && system[2] == "/usr/sbin"@
        && system[3] == "/sbin"@);
    let first = match existing {
        Some(path) => agent::with_dirs(brew, text::pieces(path, ':')),
        None => brew,
    };
    if let Some(path) = existing {
        lemma_with_dirs(brew, text::pieces(path, ':'));
    }
    lemma_with_dirs(first, system);
    let dirs = agent::guard_dirs(existing);
    assert(first[0] == brew[0] && first[1] == brew[1]);
    assert(dirs[0] == first[0] && dirs[1] == first[1]);
    assert forall|d: Seq<char>| #[trigger] dirs.contains(d) <==> {
        ||| d == "/opt/homebrew/bin"@
        ||| d == "/usr/local/bin"@
        ||| d == "/usr/bin"@
        ||| d == "/bin"@
        ||| d == "/usr/sbin"@
        ||| d == "/sbin"@
        ||| existing is Some && d.len() > 0 && text::pieces(existing->0, ':').contains(d)
    } by {
        assert(dirs.contains(d) <==> first.contains(d) || (d.len() > 0 && system.contains(d)));
        assert(brew.contains(d) <==> d == "/opt/homebrew/bin"@ || d == "/usr/local/bin"@) by {
            assert(brew.contains(brew[0]) && brew.contains(brew[1]));
        }
        assert(system.contains(d) <==> d == "/usr/bin"@ || d == "/bin"@ || d == "/usr/sbin"@ || d
            == "/sbin"@) by {
            assert(system.contains(system[0]) && system.contains(system[1]) && system.contains(
                system[2],
            ) && system.contains(system[3]));
        }
    }
}

// ---------------------------------------------------------------------------
// The property list.
// ---------------------------------------------------------------------------
/// A text stands somewhere in another.
pub open spec fn within(part: Seq<char>, whole: Seq<char>) -> bool {
    exists|a: Seq<char>, b: Seq<char>| whole == #[trigger] (a + part + b)
}

proof fn lemma_within(part: Seq<char>, whole: Seq<char>, a: Seq<char>, b: Seq<char>)
    requires
        whole =~= a + part + b,
    ensures
        within(part, whole),
{
    assert(whole == a + part + b);
}

proof fn lemma_within_within(part: Seq<char>, middle: Seq<char>, whole: Seq<char>)
    requires
        within(part, middle),
        within(middle, whole),
    ensures
        within(part, whole),
{
    let (a, b) = choose|a: Seq<char>, b: Seq<char>| middle == #[trigger] (a + part + b);
    let (c, d) = choose|a: Seq<char>, b: Seq<char>| whole == #[trigger] (a + middle + b);
    lemma_within(part, whole, c + a, b + d);
}

proof fn lemma_argument_within(arguments: Seq<Seq<char>>, i: int)
    requires
        0 <= i < arguments.len(),
    ensures
        within(
            "<string>"@ + agent::escaped(arguments[i]) + "</string>\n"@,
            agent::argument_lines(arguments),
        ),
    decreases arguments.len(),
{
    let part = "<string>"@ + agent::escaped(arguments[i]) + "</string>\n"@;
    let early = agent::argument_lines(arguments.drop_last());
    let all = agent::argument_lines(arguments);
    if i == arguments.len() - 1 {
        lemma_within(part, all, early + "    "@, Seq::empty());
    } else {
        lemma_argument_within(arguments.drop_last(), i);
        assert(arguments.drop_last()[i] == arguments[i]);
        lemma_within(early, all, Seq::empty(), agent::string_line("    "@, arguments.last()));
        lemma_within_within(part, early, all);
    }
}

proof fn lemma_joined_is_no_shorter(parts: Seq<Seq<char>>, sep: Seq<char>)
    requires
        parts.len() > 0,
    ensures
        text::joined(parts, sep).len() >= parts[0].len(),
    decreases parts.len(),
{
    if parts.len() > 1 {
        lemma_joined_is_no_shorter(parts.drop_last(), sep);
        assert(parts.drop_last()[0] == parts[0]);
    }
}

proof fn lemma_path_within(dirs: Seq<Seq<char>>)
    requires
        dirs.len() > 0,
        dirs[0].len() > 0,
    ensures
        within(
            "    <key>PATH</key>\n    <string>"@ + agent::escaped(text::joined(dirs, ":"@))
                + "</string>\n"@,
            agent::path_lines(text::joined(dirs, ":"@)),
        ),
{
    let path_env = text::joined(dirs, ":"@);
    lemma_joined_is_no_shorter(dirs, ":"@);
    let head = "  <key>EnvironmentVariables</key>\n  <dict>\n"@;
    let key = "    <key>PATH</key>\n"@;
    let both = "  <key>EnvironmentVariables</key>\n  <dict>\n    <key>PATH</key>\n"@;
    let part = "    <key>PATH</key>\n    <string>"@;
    reveal_strlit("  <key>EnvironmentVariables</key>\n  <dict>\n");
    reveal_strlit("    <key>PATH</key>\n");
    reveal_strlit("  <key>EnvironmentVariables</key>\n  <dict>\n    <key>PATH</key>\n");
    reveal_strlit("    <key>PATH</key>\n    <string>");
    reveal_strlit("    ");
    reveal_strlit("<string>");
    assert(head + key =~= both);
    assert(key + "    "@ + "<string>"@ =~= part);
    let whole = agent::path_lines(path_env);
    let mid = part + agent::escaped(path_env) + "</string>\n"@;
    assert(whole == both + agent::string_line("    "@, path_env) + "  </dict>\n"@);
    assert(key + agent::string_line("    "@, path_env) =~= mid);
    lemma_within(mid, whole, head, "  </dict>\n"@);
}

/// What the property list of the guard holds: its label, the program with the words
/// of the guard, the interval, the search path, and the two logs. It is run as soon
/// as it is loaded,
/// and it is not kept alive.
pub proof fn guard_plist_holds(
    exe: Seq<char>,
    interval: u64,
    out_log: Seq<char>,
    err_log: Seq<char>,
    search_path: Option<Seq<char>>,
)
    ensures
        ({
            let body = install::guard_plist(exe, interval, out_log, err_log, search_path);
            &&& within("<string>"@ + agent::escaped(exe) + "</string>\n"@, body)
            &&& within("<string>"@ + agent::escaped("guard"@) + "</string>\n"@, body)
            &&& within(
                "  <key>StartInterval</key>\n  <integer>"@ + number::dec(interval as nat)
                    + "</integer>\n"@,
                body,
            )
            &&& within("  <key>RunAtLoad</key>\n  <true/>\n"@, body)
            &&& within(
                "    <key>PATH</key>\n    <string>"@ + agent::escaped(
                    text::joined(agent::guard_dirs(search_path), ":"@),
                ) + "</string>\n"@,
                body,
            )
            &&& within("  <string>"@ + agent::escaped(out_log) + "</string>\n"@, body)
            &&& within("  <string>"@ + agent::escaped(err_log) + "</string>\n"@, body)
            &&& within(
                "  <string>"@ + agent::escaped("com.stargt.displayed.guard"@) + "</string>\n"@,
                body,
            )
        }),
{
    let body = install::guard_plist(exe, interval, out_log, err_log, search_path);
    let label = "com.stargt.displayed.guard"@;
    let arguments = seq![exe, "guard"@, "--reason"@, "launchd"@, "--quiet"@];
    let path_env = text::joined(agent::guard_dirs(search_path), ":"@);
    let h0 = "<?xml version=\"1.0\" encoding=\"UTF-8\"?>\n<!DOCTYPE plist PUBLIC \"-//Apple//DTD PLIST 1.0//EN\" \"http://www.apple.com/DTDs/PropertyList-1.0.dtd\">\n<plist version=\"1.0\">\n<dict>\n  <key>Label</key>\n"@;
    let h1 = agent::string_line("  "@, label);
    let h2 = "  <key>ProgramArguments</key>\n  <array>\n"@;
    let h3 = agent::argument_lines(arguments);
    let h4 = "  </array>\n"@;
    let h5 = agent::path_lines(path_env);
    let h6 = "  <key>RunAtLoad</key>\n  <true/>\n"@;
    let h7 = agent::alive_lines(false);
    let h8 = agent::interval_lines(Some(interval));
    let h9 = "  <key>LimitLoadToSessionType</key>\n  <string>Aqua</string>\n  <key>StandardOutPath</key>\n"@;
    let h10 = agent::string_line("  "@, out_log);
    let h11 = "  <key>StandardErrorPath</key>\n"@;
    let h12 = agent::string_line("  "@, err_log);
    let h13 = "</dict>\n</plist>\n"@;
    assert(body == h0 + h1 + h2 + h3 + h4 + h5 + h6 + h7 + h8 + h9 + h10 + h11 + h12 + h13);
    reveal_strlit("  ");
    reveal_strlit("<string>");
    reveal_strlit("  <string>");
    assert("  "@ + "<string>"@ =~= "  <string>"@);
    assert(h1 =~= "  <string>"@ + agent::escaped(label) + "</string>\n"@);
    assert(h10 =~= "  <string>"@ + agent::escaped(out_log) + "</string>\n"@);
    assert(h12 =~= "  <string>"@ + agent::escaped(err_log) + "</string>\n"@);
    let e = Seq::<char>::empty();
    lemma_within(h1, body, h0, h2 + h3 + h4 + h5 + h6 + h7 + h8 + h9 + h10 + h11 + h12 + h13);
    lemma_within(h3, body, h0 + h1 + h2, h4 + h5 + h6 + h7 + h8 + h9 + h10 + h11 + h12 + h13);
    lemma_within(h6, body, h0 + h1 + h2 + h3 + h4 + h5, h7 + h8 + h9 + h10 + h11 + h12 + h13);
    lemma_within(h8, body, h0 + h1 + h2 + h3 + h4 + h5 + h6 + h7, h9 + h10 + h11 + h12 + h13);
    lemma_within(
        h10,
        body,
        h0 + h1 + h2 + h3 + h4 + h5 + h6 + h7 + h8 + h9,
        h11 + h12 + h13,
    );
    lemma_within(
        h12,
        body,
        h0 + h1 + h2 + h3 + h4 + h5 + h6 + h7 + h8 + h9 + h10 + h11,
        h13,
    );
    lemma_argument_within(arguments, 0);
    lemma_argument_within(arguments, 1);
    guard_looks_everywhere(search_path);
    lemma_path_within(agent::guard_dirs(search_path));
    lemma_within(h5, body, h0 + h1 + h2 + h3 + h4, h6 + h7 + h8 + h9 + h10 + h11 + h12 + h13);
    lemma_within_within(
        "    <key>PATH</key>\n    <string>"@ + agent::escaped(path_env) + "</string>\n"@,
        h5,
        body,
    );
    assert(arguments[0] == exe && arguments[1] == "guard"@);
    lemma_within_within("<string>"@ + agent::escaped(exe) + "</string>\n"@, h3, body);
    lemma_within_within("<string>"@ + agent::escaped("guard"@) + "</string>\n"@, h3, body);
}

} // verus!
