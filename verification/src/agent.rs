//! The launch agent that runs the guard.

use vstd::prelude::*;

use crate::number;
use crate::number::decimal;
use crate::text;
use crate::text::{cat3, chars_of, join, list2, list_has, owned, split};

verus! {

/// The label of the guard's launch agent.
pub const GUARD_LABEL: &'static str = "com.stargt.displayed.guard";

// ---------------------------------------------------------------------------
// Markup.
// ---------------------------------------------------------------------------
/// A character as it stands in markup.
pub open spec fn escaped_char(c: char) -> Seq<char> {
    if c == '&' {
        "&amp;"@
    } else if c == '<' {
        "&lt;"@
    } else if c == '>' {
        "&gt;"@
    } else if c == '"' {
        "&quot;"@
    } else if c == '\'' {
        "&apos;"@
    } else {
        seq![c]
    }
}

/// A text as it stands in markup.
pub open spec fn escaped(s: Seq<char>) -> Seq<char>
    decreases s.len(),
{
    if s.len() == 0 {
        Seq::empty()
    } else {
        escaped(s.drop_last()) + escaped_char(s.last())
    }
}

/// Writes a text so that it can stand in markup.
pub fn xml_escape(value: &str) -> (r: String)
    ensures
        r@ == escaped(value@),
{
    let chars = chars_of(value);
    let mut result = owned("");
    let mut i: usize = 0;
    proof {
        reveal_strlit("");
        assert(result@ =~= escaped(chars@.take(0)));
    }
    while i < chars.len()
        invariant
            i <= chars.len(),
            result@ == escaped(chars@.take(i as int)),
        decreases chars.len() - i,
    {
        let c = chars[i];
        proof {
            let next = chars@.take(i + 1);
            assert(next.drop_last() =~= chars@.take(i as int));
            assert(next.last() == c);
        }
        if c == '&' {
            result.append("&amp;");
        } else if c == '<' {
            result.append("&lt;");
        } else if c == '>' {
            result.append("&gt;");
        } else if c == '"' {
            result.append("&quot;");
        } else if c == '\'' {
            result.append("&apos;");
        } else {
            proof {
                assert(result@.push(c) =~= result@ + seq![c]);
            }
            result.push(c);
        }
        i = i + 1;
    }
    assert(chars@.take(i as int) =~= value@);
    result
}

/// An escaped text holds none of the characters that mark markup, but for the
/// ampersands of its escapes.
pub proof fn escaped_text_is_no_markup(s: Seq<char>)
    ensures
        forall|i: int|
            0 <= i < escaped(s).len() ==> (#[trigger] escaped(s)[i]) != '<' && escaped(s)[i] != '>'
                && escaped(s)[i] != '"' && escaped(s)[i] != '\'',
    decreases s.len(),
{
    if s.len() > 0 {
        escaped_text_is_no_markup(s.drop_last());
        reveal_strlit("&amp;");
        reveal_strlit("&lt;");
        reveal_strlit("&gt;");
        reveal_strlit("&quot;");
        reveal_strlit("&apos;");
        let before = escaped(s.drop_last());
        let last = escaped_char(s.last());
        assert forall|i: int| 0 <= i < escaped(s).len() implies (#[trigger] escaped(s)[i]) != '<'
            && escaped(s)[i] != '>' && escaped(s)[i] != '"' && escaped(s)[i] != '\'' by {
            if i < before.len() {
                assert(escaped(s)[i] == before[i]);
            } else {
                assert(escaped(s)[i] == last[i - before.len()]);
            }
        }
    }
}

/// A text without any of those characters stands as it is.
pub proof fn plain_text_is_not_changed(s: Seq<char>)
    requires
        forall|i: int|
            0 <= i < s.len() ==> (#[trigger] s[i]) != '&' && s[i] != '<' && s[i] != '>' && s[i]
                != '"' && s[i] != '\'',
    ensures
        escaped(s) == s,
    decreases s.len(),
{
    if s.len() > 0 {
        plain_text_is_not_changed(s.drop_last());
        assert(s.drop_last() + seq![s.last()] =~= s);
    } else {
        assert(escaped(s) =~= s);
    }
}

/// A line of a property list that holds a string.
pub open spec fn string_line(indent: Seq<char>, value: Seq<char>) -> Seq<char> {
    indent + "<string>"@ + escaped(value) + "</string>\n"@
}

fn string_element(indent: &str, value: &str) -> (r: String)
    ensures
        r@ == string_line(indent@, value@),
{
    let value = xml_escape(value);
    text::cat4(indent, "<string>", value.as_str(), "</string>\n")
}

/// The lines of the arguments.
pub open spec fn argument_lines(arguments: Seq<Seq<char>>) -> Seq<char>
    decreases arguments.len(),
{
    if arguments.len() == 0 {
        Seq::empty()
    } else {
        argument_lines(arguments.drop_last()) + string_line("    "@, arguments.last())
    }
}

fn argument_elements(arguments: &Vec<String>) -> (r: String)
    ensures
        r@ == argument_lines(text::texts(arguments@)),
{
    let ghost all = text::texts(arguments@);
    let mut result = owned("");
    let mut i: usize = 0;
    proof {
        reveal_strlit("");
        assert(result@ =~= argument_lines(all.take(0)));
    }
    while i < arguments.len()
        invariant
            i <= arguments.len(),
            all == text::texts(arguments@),
            result@ == argument_lines(all.take(i as int)),
        decreases arguments.len() - i,
    {
        let line = string_element("    ", arguments[i].as_str());
        proof {
            assert(all.take(i + 1).drop_last() =~= all.take(i as int));
            assert(all.take(i + 1).last() == arguments[i as int]@);
        }
        result.append(line.as_str());
        i = i + 1;
    }
    assert(all.take(i as int) =~= all);
    result
}

/// The lines that set the search path.
pub open spec fn path_lines(path_env: Seq<char>) -> Seq<char> {
    if path_env.len() > 0 {
        "  <key>EnvironmentVariables</key>\n  <dict>\n    <key>PATH</key>\n"@ + string_line(
            "    "@,
            path_env,
        ) + "  </dict>\n"@
    } else {
        Seq::empty()
    }
}

/// The lines that set the interval.
pub open spec fn interval_lines(interval: Option<u64>) -> Seq<char> {
    match interval {
        Some(n) => "  <key>StartInterval</key>\n  <integer>"@ + number::dec(n as nat)
            + "</integer>\n"@,
        None => Seq::empty(),
    }
}

/// The lines that keep the agent alive.
pub open spec fn alive_lines(keep_alive: bool) -> Seq<char> {
    if keep_alive {
        "  <key>KeepAlive</key>\n  <true/>\n"@
    } else {
        Seq::empty()
    }
}

/// The property list of a launch agent.
pub open spec fn plist_text(
    label: Seq<char>,
    arguments: Seq<Seq<char>>,
    start_interval: Option<u64>,
    keep_alive: bool,
    stdout_path: Seq<char>,
    stderr_path: Seq<char>,
    path_env: Seq<char>,
) -> Seq<char> {
    "<?xml version=\"1.0\" encoding=\"UTF-8\"?>\n<!DOCTYPE plist PUBLIC \"-//Apple//DTD PLIST 1.0//EN\" \"http://www.apple.com/DTDs/PropertyList-1.0.dtd\">\n<plist version=\"1.0\">\n<dict>\n  <key>Label</key>\n"@
        + string_line("  "@, label) + "  <key>ProgramArguments</key>\n  <array>\n"@
        + argument_lines(arguments) + "  </array>\n"@ + path_lines(path_env)
        + "  <key>RunAtLoad</key>\n  <true/>\n"@ + alive_lines(keep_alive) + interval_lines(
        start_interval,
    )
        + "  <key>LimitLoadToSessionType</key>\n  <string>Aqua</string>\n  <key>StandardOutPath</key>\n"@
        + string_line("  "@, stdout_path) + "  <key>StandardErrorPath</key>\n"@ + string_line(
        "  "@,
        stderr_path,
    ) + "</dict>\n</plist>\n"@
}

/// Writes the property list of a launch agent.
pub fn launch_agent_plist(
    label: &str,
    arguments: &Vec<String>,
    start_interval: Option<u64>,
    keep_alive: bool,
    stdout_path: &str,
    stderr_path: &str,
    path_env: &str,
) -> (r: String)
    ensures
        r@ == plist_text(
            label@,
            text::texts(arguments@),
            start_interval,
            keep_alive,
            stdout_path@,
            stderr_path@,
            path_env@,
        ),
{
    let mut body = owned(
        "<?xml version=\"1.0\" encoding=\"UTF-8\"?>\n<!DOCTYPE plist PUBLIC \"-//Apple//DTD PLIST 1.0//EN\" \"http://www.apple.com/DTDs/PropertyList-1.0.dtd\">\n<plist version=\"1.0\">\n<dict>\n  <key>Label</key>\n",
    );
    let line = string_element("  ", label);
    body.append(line.as_str());
    body.append("  <key>ProgramArguments</key>\n  <array>\n");
    let lines = argument_elements(arguments);
    body.append(lines.as_str());
    body.append("  </array>\n");
    let ghost before_path = body@;
    if !path_env.is_empty() {
        let value = string_element("    ", path_env);
        let part = cat3(
            "  <key>EnvironmentVariables</key>\n  <dict>\n    <key>PATH</key>\n",
            value.as_str(),
            "  </dict>\n",
        );
        body.append(part.as_str());
    }
    assert(body@ =~= before_path + path_lines(path_env@));
    body.append("  <key>RunAtLoad</key>\n  <true/>\n");
    let ghost before_alive = body@;
    if keep_alive {
        body.append("  <key>KeepAlive</key>\n  <true/>\n");
    }
    assert(body@ =~= before_alive + alive_lines(keep_alive));
    let ghost before_interval = body@;
    if let Some(interval) = start_interval {
        let digits = decimal(interval);
        let part = cat3(
            "  <key>StartInterval</key>\n  <integer>",
            digits.as_str(),
            "</integer>\n",
        );
        body.append(part.as_str());
    }
    assert(body@ =~= before_interval + interval_lines(start_interval));
    body.append(
        "  <key>LimitLoadToSessionType</key>\n  <string>Aqua</string>\n  <key>StandardOutPath</key>\n",
    );
    let line = string_element("  ", stdout_path);
    body.append(line.as_str());
    body.append("  <key>StandardErrorPath</key>\n");
    let line = string_element("  ", stderr_path);
    body.append(line.as_str());
    body.append("</dict>\n</plist>\n");
    body
}

// ---------------------------------------------------------------------------
// The search path.
// ---------------------------------------------------------------------------
/// A directory behind those that are there, unless it is one of them.
pub open spec fn with_dir(dirs: Seq<Seq<char>>, dir: Seq<char>) -> Seq<Seq<char>> {
    if dirs.contains(dir) {
        dirs
    } else {
        dirs.push(dir)
    }
}

/// The directories of a search path behind those that are there.
pub open spec fn with_dirs(dirs: Seq<Seq<char>>, more: Seq<Seq<char>>) -> Seq<Seq<char>>
    decreases more.len(),
{
    if more.len() == 0 {
        dirs
    } else if more.last().len() == 0 {
        with_dirs(dirs, more.drop_last())
    } else {
        with_dir(with_dirs(dirs, more.drop_last()), more.last())
    }
}

/// Where Homebrew puts programs.
pub open spec fn homebrew_dirs() -> Seq<Seq<char>> {
    seq!["/opt/homebrew/bin"@, "/usr/local/bin"@]
}

/// Where the system keeps programs.
pub open spec fn system_dirs() -> Seq<Seq<char>> {
    seq!["/usr/bin"@, "/bin"@, "/usr/sbin"@, "/sbin"@]
}

/// The directories in which the guard looks for programs: those of Homebrew,
/// those of the search path at hand, and those of the system, each once.
pub open spec fn guard_dirs(existing: Option<Seq<char>>) -> Seq<Seq<char>> {
    with_dirs(
        match existing {
            Some(path) => with_dirs(homebrew_dirs(), text::pieces(path, ':')),
            None => homebrew_dirs(),
        },
        system_dirs(),
    )
}

fn push_dir(dirs: &mut Vec<String>, dir: &str)
    ensures
        text::texts(final(dirs)@) == with_dir(text::texts(old(dirs)@), dir@),
{
    if !list_has(dirs, dir) {
        let dir = owned(dir);
        proof {
            text::lemma_texts_push(dirs@, dir);
        }
        dirs.push(dir);
    }
}

fn push_dirs(dirs: &mut Vec<String>, more: &Vec<String>)
    ensures
        text::texts(final(dirs)@) == with_dirs(text::texts(old(dirs)@), text::texts(more@)),
{
    let ghost start = text::texts(dirs@);
    let ghost all = text::texts(more@);
    let mut i: usize = 0;
    assert(with_dirs(start, all.take(0)) == start);
    while i < more.len()
        invariant
            i <= more.len(),
            all == text::texts(more@),
            text::texts(dirs@) == with_dirs(start, all.take(i as int)),
        decreases more.len() - i,
    {
        proof {
            assert(all.take(i + 1).drop_last() =~= all.take(i as int));
            assert(all.take(i + 1).last() == more[i as int]@);
        }
        if !more[i].as_str().is_empty() {
            push_dir(dirs, more[i].as_str());
        }
        i = i + 1;
    }
    assert(all.take(i as int) =~= all);
}

/// The search path of the guard, from the one at hand.
pub fn guard_environment_path(existing: Option<&str>) -> (r: String)
    ensures
        r@ == text::joined(guard_dirs(text::opt_str(existing)), ":"@),
{
    let mut dirs = list2("/opt/homebrew/bin", "/usr/local/bin");
    if let Some(path) = existing {
        let parts = split(path, ':');
        push_dirs(&mut dirs, &parts);
    }
    let standard = text::list4("/usr/bin", "/bin", "/usr/sbin", "/sbin");
    push_dirs(&mut dirs, &standard);
    join(&dirs, ":")
}

proof fn lemma_with_dirs(dirs: Seq<Seq<char>>, more: Seq<Seq<char>>)
    requires
        dirs.no_duplicates(),
    ensures
        with_dirs(dirs, more).no_duplicates(),
        with_dirs(dirs, more).len() >= dirs.len(),
        with_dirs(dirs, more).take(dirs.len() as int) == dirs,
        forall|i: int|
            0 <= i < more.len() && (#[trigger] more[i]).len() > 0 ==> with_dirs(
                dirs,
                more,
            ).contains(more[i]),
    decreases more.len(),
{
    if more.len() == 0 {
        assert(with_dirs(dirs, more).take(dirs.len() as int) =~= dirs);
    } else {
        let init = more.drop_last();
        lemma_with_dirs(dirs, init);
        let before = with_dirs(dirs, init);
        let after = with_dirs(dirs, more);
        assert(after.take(dirs.len() as int) =~= before.take(dirs.len() as int));
        assert forall|i: int| 0 <= i < more.len() && (#[trigger] more[i]).len() > 0 implies after.contains(
            more[i],
        ) by {
            if i < init.len() {
                assert(init[i] == more[i]);
                assert(before.contains(init[i]));
                let k = choose|k: int| 0 <= k < before.len() && before[k] == more[i];
                assert(after[k] == more[i]);
            } else if !before.contains(more.last()) {
                assert(after[before.len() as int] == more.last());
            }
        }
    }
}

/// The guard looks into Homebrew's directories first, into every directory of
/// the search path at hand, into those of the system, and nowhere twice.
pub proof fn guard_path_is_complete(existing: Option<Seq<char>>)
    ensures
        guard_dirs(existing).no_duplicates(),
        guard_dirs(existing).len() >= 2,
        guard_dirs(existing).take(2) == homebrew_dirs(),
        forall|i: int|
            0 <= i < 4 ==> guard_dirs(existing).contains(#[trigger] system_dirs()[i]),
        existing is Some ==> forall|i: int|
            0 <= i < text::pieces(existing->0, ':').len() && (#[trigger] text::pieces(
                existing->0,
                ':',
            )[i]).len() > 0 ==> guard_dirs(existing).contains(text::pieces(existing->0, ':')[i]),
{
    reveal_strlit("/opt/homebrew/bin");
    reveal_strlit("/usr/local/bin");
    reveal_strlit("/usr/bin");
    reveal_strlit("/bin");
    reveal_strlit("/usr/sbin");
    reveal_strlit("/sbin");
    let start = homebrew_dirs();
    assert("/opt/homebrew/bin"@.len() != "/usr/local/bin"@.len());
    assert(start.no_duplicates());
    let middle = match existing {
        Some(path) => with_dirs(start, text::pieces(path, ':')),
        None => start,
    };
    if existing is Some {
        lemma_with_dirs(start, text::pieces(existing->0, ':'));
    }
    lemma_with_dirs(middle, system_dirs());
    let all = guard_dirs(existing);
    assert(all.take(middle.len() as int) == middle);
    assert(middle.take(2) =~= start);
    assert(all.take(2) =~= middle.take(2)) by {
        assert(forall|i: int| 0 <= i < 2 ==> all.take(middle.len() as int)[i] == all[i]);
    }
    if existing is Some {
        let parts = text::pieces(existing->0, ':');
        assert forall|i: int| 0 <= i < parts.len() && (#[trigger] parts[i]).len() > 0 implies all.contains(
            parts[i],
        ) by {
            assert(middle.contains(parts[i]));
            let k = choose|k: int| 0 <= k < middle.len() && middle[k] == parts[i];
            assert(all.take(middle.len() as int)[k] == all[k]);
            assert(all[k] == parts[i]);
        }
    }
}

} // verus!
