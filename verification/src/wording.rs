//! Texts cut to size, and names for files.

use vstd::prelude::*;

use crate::text;
use crate::text::{char_is_whitespace, chars_of, owned, text_of};

verus! {

// ---------------------------------------------------------------------------
// Width.
// ---------------------------------------------------------------------------
/// The number of bytes that a character takes in UTF-8.
pub open spec fn char_width(c: char) -> nat {
    if (c as int) < 0x80 {
        1
    } else if (c as int) < 0x800 {
        2
    } else if (c as int) < 0x10000 {
        3
    } else {
        4
    }
}

/// The number of bytes that a text takes in UTF-8.
pub open spec fn text_width(s: Seq<char>) -> nat
    decreases s.len(),
{
    if s.len() == 0 {
        0
    } else {
        text_width(s.drop_last()) + char_width(s.last())
    }
}

/// The longest beginning of a text that is not wider than `max`.
pub open spec fn fitting(s: Seq<char>, max: nat) -> Seq<char>
    decreases s.len(),
{
    if text_width(s) <= max || s.len() == 0 {
        s
    } else {
        fitting(s.drop_last(), max)
    }
}

/// A text, cut to `max` where it is wider. Three dots stand for what is cut
/// off, where they fit.
pub open spec fn cut_text(s: Seq<char>, max: nat) -> Seq<char> {
    if text_width(s) <= max {
        s
    } else if max > 3 {
        fitting(s, (max - 3) as nat) + "..."@
    } else {
        fitting(s, max)
    }
}

proof fn lemma_width_take(s: Seq<char>, n: int)
    requires
        0 <= n <= s.len(),
    ensures
        text_width(s.take(n)) <= text_width(s),
        n < s.len() ==> text_width(s.take(n)) < text_width(s),
    decreases s.len(),
{
    if n < s.len() {
        assert(s.drop_last().take(n) =~= s.take(n));
        lemma_width_take(s.drop_last(), n);
    } else {
        assert(s.take(n) =~= s);
    }
}

proof fn lemma_fitting_is(s: Seq<char>, max: nat, n: int)
    requires
        0 <= n <= s.len(),
        text_width(s.take(n)) <= max,
        n < s.len() ==> text_width(s.take(n + 1)) > max,
    ensures
        fitting(s, max) == s.take(n),
    decreases s.len(),
{
    if n == s.len() {
        assert(s.take(n) =~= s);
    } else {
        assert(s.take(n + 1).take(n + 1) =~= s.take(n + 1));
        lemma_width_take(s, n + 1);
        assert(s.drop_last().take(n) =~= s.take(n));
        if n + 1 < s.len() {
            assert(s.drop_last().take(n + 1) =~= s.take(n + 1));
        }
        lemma_fitting_is(s.drop_last(), max, n);
    }
}

proof fn lemma_fitting(s: Seq<char>, max: nat)
    ensures
        fitting(s, max).len() <= s.len(),
        fitting(s, max) == s.take(fitting(s, max).len() as int),
        text_width(fitting(s, max)) <= max,
    decreases s.len(),
{
    if text_width(s) <= max || s.len() == 0 {
        assert(s.take(s.len() as int) =~= s);
    } else {
        lemma_fitting(s.drop_last(), max);
        let n = fitting(s.drop_last(), max).len() as int;
        assert(s.drop_last().take(n) =~= s.take(n));
    }
}

proof fn lemma_width_dots(s: Seq<char>)
    ensures
        text_width(s + "..."@) == text_width(s) + 3,
{
    reveal_strlit("...");
    let dots = "..."@;
    let a = s + dots;
    assert(a.drop_last().drop_last().drop_last() =~= s);
    assert(a.last() == '.');
    assert(a.drop_last().last() == '.');
    assert(a.drop_last().drop_last().last() == '.');
    assert(text_width(a) == text_width(a.drop_last()) + 1);
    assert(text_width(a.drop_last()) == text_width(a.drop_last().drop_last()) + 1);
    assert(text_width(a.drop_last().drop_last()) == text_width(s) + 1);
}

/// What was cut is no wider than it may be; what fits is left as it is.
pub proof fn cut_text_fits(s: Seq<char>, max: nat)
    ensures
        text_width(cut_text(s, max)) <= max,
        text_width(s) <= max ==> cut_text(s, max) == s,
{
    if text_width(s) > max {
        if max > 3 {
            lemma_fitting(s, (max - 3) as nat);
            lemma_width_dots(fitting(s, (max - 3) as nat));
        } else {
            lemma_fitting(s, max);
        }
    }
}

fn width_of(c: char) -> (r: usize)
    ensures
        r == char_width(c),
{
    let n: u32 = c as u32;
    if n < 0x80 {
        1
    } else if n < 0x800 {
        2
    } else if n < 0x10000 {
        3
    } else {
        4
    }
}

/// Cuts a text to a width.
pub fn trim_to_width(value: &str, max_width: usize) -> (r: String)
    ensures
        r@ == cut_text(value@, max_width as nat),
{
    let chars = chars_of(value);
    let mut count: usize = 0;
    let mut width: usize = 0;
    let mut full = false;
    assert(text_width(chars@.take(0)) == 0);
    while !full && count < chars.len()
        invariant
            count <= chars.len(),
            width == text_width(chars@.take(count as int)),
            width <= max_width,
            full ==> count < chars.len() && text_width(chars@.take(count + 1)) > max_width,
        decreases chars.len() - count, (if full { 0int } else { 1int }),
    {
        let more = width_of(chars[count]);
        proof {
            assert(chars@.take(count + 1).drop_last() =~= chars@.take(count as int));
            assert(chars@.take(count + 1).last() == chars@[count as int]);
        }
        if more > max_width - width {
            full = true;
        } else {
            width = width + more;
            count = count + 1;
        }
    }
    if count == chars.len() {
        assert(chars@.take(count as int) =~= value@);
        return owned(value);
    }
    proof {
        lemma_width_take(value@, count + 1);
        lemma_fitting_is(value@, max_width as nat, count as int);
    }
    if max_width > 3 {
        proof {
            assert(text_width(chars@.take(count + 1)) > max_width - 3);
        }
        while max_width - width < 3
            invariant
                count < chars.len(),
                max_width > 3,
                width == text_width(chars@.take(count as int)),
                width <= max_width,
                text_width(chars@.take(count + 1)) > max_width - 3,
            decreases count,
        {
            proof {
                assert(count > 0) by {
                    if count == 0 {
                        assert(text_width(chars@.take(0)) == 0);
                    }
                }
                assert(chars@.take(count as int).drop_last() =~= chars@.take(count - 1));
                assert(chars@.take(count as int).last() == chars@[count - 1]);
            }
            let last = width_of(chars[count - 1]);
            width = width - last;
            count = count - 1;
        }
        proof {
            lemma_fitting_is(value@, (max_width - 3) as nat, count as int);
        }
        let mut trimmed = text_of(&chars, 0, count);
        assert(trimmed@ =~= value@.take(count as int));
        trimmed.append("...");
        return trimmed;
    }
    let trimmed = text_of(&chars, 0, count);
    assert(trimmed@ =~= value@.take(count as int));
    trimmed
}

// ---------------------------------------------------------------------------
// File names.
// ---------------------------------------------------------------------------
/// The character can stand in a file name as it is.
pub open spec fn plain_name_char(c: char) -> bool {
    ||| 'a' <= c <= 'z'
    ||| 'A' <= c <= 'Z'
    ||| '0' <= c <= '9'
    ||| c == '-'
    ||| c == '_'
}

/// What stands for a character in a file name.
pub open spec fn name_char(c: char) -> Seq<char> {
    if plain_name_char(c) {
        seq![c]
    } else if text::is_whitespace(c) {
        seq!['-']
    } else {
        Seq::empty()
    }
}

/// What stands for a text in a file name.
pub open spec fn name_chars(s: Seq<char>) -> Seq<char>
    decreases s.len(),
{
    if s.len() == 0 {
        Seq::empty()
    } else {
        name_chars(s.drop_last()) + name_char(s.last())
    }
}

/// A name made of a text.
pub open spec fn slug_text(s: Seq<char>) -> Seq<char> {
    if name_chars(s).len() == 0 {
        "state"@
    } else {
        name_chars(s)
    }
}

/// Makes a name of a text.
pub fn slug(value: &str) -> (r: String)
    ensures
        r@ == slug_text(value@),
{
    let chars = chars_of(value);
    let mut name: Vec<char> = Vec::new();
    let mut i: usize = 0;
    assert(name@ =~= name_chars(chars@.take(0)));
    while i < chars.len()
        invariant
            i <= chars.len(),
            name@ == name_chars(chars@.take(i as int)),
        decreases chars.len() - i,
    {
        let c = chars[i];
        proof {
            assert(chars@.take(i + 1).drop_last() =~= chars@.take(i as int));
            assert(chars@.take(i + 1).last() == c);
        }
        let plain = ('a' <= c && c <= 'z') || ('A' <= c && c <= 'Z') || ('0' <= c && c <= '9') || c
            == '-' || c == '_';
        if plain {
            assert(name@.push(c) =~= name@ + seq![c]);
            name.push(c);
        } else if char_is_whitespace(c) {
            assert(name@.push('-') =~= name@ + seq!['-']);
            name.push('-');
        } else {
            assert(name@ =~= name@ + Seq::<char>::empty());
        }
        i = i + 1;
    }
    assert(chars@.take(i as int) =~= value@);
    if name.len() == 0 {
        owned("state")
    } else {
        let r = text_of(&name, 0, name.len());
        assert(r@ =~= name@);
        r
    }
}

proof fn lemma_name_chars(s: Seq<char>)
    ensures
        forall|i: int|
            0 <= i < name_chars(s).len() ==> plain_name_char(#[trigger] name_chars(s)[i]),
    decreases s.len(),
{
    if s.len() > 0 {
        lemma_name_chars(s.drop_last());
        let before = name_chars(s.drop_last());
        let last = name_char(s.last());
        assert forall|i: int| 0 <= i < name_chars(s).len() implies plain_name_char(
            #[trigger] name_chars(s)[i],
        ) by {
            if i < before.len() {
                assert(name_chars(s)[i] == before[i]);
            } else {
                assert(name_chars(s)[i] == last[i - before.len()]);
            }
        }
    }
}

/// A name is never empty, and holds only characters that can stand in a file
/// name as they are.
pub proof fn slug_is_a_name(s: Seq<char>)
    ensures
        slug_text(s).len() > 0,
        forall|i: int| 0 <= i < slug_text(s).len() ==> plain_name_char(#[trigger] slug_text(s)[i]),
{
    reveal_strlit("state");
    lemma_name_chars(s);
}

} // verus!
