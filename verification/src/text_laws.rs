//! What the operations on text come to.

use vstd::prelude::*;

use crate::number;
use crate::number::NumberError;
use crate::text;
use crate::wording;

verus! {

// ---------------------------------------------------------------------------
// Cutting.
// ---------------------------------------------------------------------------
/// What is trimmed is what stands between the blanks at both ends: all that is cut
/// is blank, and no blank is left at an end.
pub proof fn trimming_cuts_blanks(s: Seq<char>) -> (ends: (int, int))
    ensures
        0 <= ends.0 <= ends.1 <= s.len(),
        text::trimmed(s) == s.subrange(ends.0, ends.1),
        forall|i: int| 0 <= i < ends.0 ==> text::is_whitespace(#[trigger] s[i]),
        forall|i: int| ends.1 <= i < s.len() ==> text::is_whitespace(#[trigger] s[i]),
        ends.0 < ends.1 ==> !text::is_whitespace(s[ends.0]) && !text::is_whitespace(
            s[ends.1 - 1],
        ),
{
    let a = lemma_trimmed_start(s);
    let rest = text::trimmed_start(s);
    let b = lemma_trimmed_end(rest);
    assert(text::trimmed(s) =~= s.subrange(a, a + b));
    assert forall|i: int| a + b <= i < s.len() implies text::is_whitespace(#[trigger] s[i]) by {
        assert(rest[i - a] == s[i]);
    }
    if b > 0 {
        assert(rest[0] == s[a]);
        assert(rest[b - 1] == s[a + b - 1]);
    }
    (a, a + b)
}

proof fn lemma_trimmed_start(s: Seq<char>) -> (a: int)
    ensures
        0 <= a <= s.len(),
        text::trimmed_start(s) == s.skip(a),
        forall|i: int| 0 <= i < a ==> text::is_whitespace(#[trigger] s[i]),
        a < s.len() ==> !text::is_whitespace(s[a]),
    decreases s.len(),
{
    if s.len() > 0 && text::is_whitespace(s[0]) {
        let a = lemma_trimmed_start(s.skip(1));
        assert(s.skip(1).skip(a) =~= s.skip(a + 1));
        assert forall|i: int| 0 <= i < a + 1 implies text::is_whitespace(#[trigger] s[i]) by {
            if i > 0 {
                assert(s.skip(1)[i - 1] == s[i]);
            }
        }
        a + 1
    } else {
        assert(s.skip(0) =~= s);
        0
    }
}

proof fn lemma_trimmed_end(s: Seq<char>) -> (b: int)
    ensures
        0 <= b <= s.len(),
        text::trimmed_end(s) == s.take(b),
        forall|i: int| b <= i < s.len() ==> text::is_whitespace(#[trigger] s[i]),
        b > 0 ==> !text::is_whitespace(s[b - 1]),
    decreases s.len(),
{
    if s.len() > 0 && text::is_whitespace(s.last()) {
        let b = lemma_trimmed_end(s.drop_last());
        assert(s.drop_last().take(b) =~= s.take(b));
        assert forall|i: int| b <= i < s.len() implies text::is_whitespace(#[trigger] s[i]) by {
            if i < s.len() - 1 {
                assert(s.drop_last()[i] == s[i]);
            }
        }
        b
    } else {
        assert(s.take(s.len() as int) =~= s);
        s.len() as int
    }
}

/// Among the characters of the plain alphabet, the blanks are the space, the tab
/// and those that end a line or a page.
pub proof fn blanks_are_known(c: char)
    requires
        (c as u32) < 128,
    ensures
        text::is_whitespace(c) <==> (c == ' ' || c == '\t' || c == '\n' || c == '\r' || c as u32
            == 11 || c as u32 == 12),
{
}

/// What stands before a text is all that stands before its first occurrence, or the
/// whole where it does not occur.
pub proof fn before_is_up_to_the_first(s: Seq<char>, needle: Seq<char>) -> (k: int)
    ensures
        text::before(s, needle) == s.take(k),
        0 <= k <= s.len(),
        text::has_text(s, needle) ==> text::occurs_at(s, needle, k),
        forall|j: int| 0 <= j < k ==> !text::occurs_at(s, needle, j),
        !text::has_text(s, needle) ==> k == s.len(),
    decreases s.len(),
{
    if text::occurs_at(s, needle, 0) {
        assert(s.take(0) =~= Seq::empty());
        0
    } else if s.len() == 0 {
        assert(s.take(0) =~= s);
        if text::has_text(s, needle) {
            let at = choose|at: int| text::occurs_at(s, needle, at);
            assert(at == 0);
        }
        0
    } else {
        let rest = s.skip(1);
        let k = before_is_up_to_the_first(rest, needle);
        assert(seq![s[0]] + rest.take(k) =~= s.take(k + 1));
        assert forall|j: int| 0 <= j < s.len() implies text::occurs_at(rest, needle, j)
            == text::occurs_at(s, needle, j + 1) by {
            if j + needle.len() <= rest.len() {
                assert(rest.subrange(j, j + needle.len()) =~= s.subrange(
                    j + 1,
                    j + 1 + needle.len(),
                ));
            }
        }
        assert forall|j: int| 0 <= j < k + 1 implies !text::occurs_at(s, needle, j) by {
            if j > 0 {
                assert(!text::occurs_at(rest, needle, j - 1));
            }
        }
        if text::has_text(s, needle) {
            let at = choose|at: int| text::occurs_at(s, needle, at);
            assert(at > 0);
            if at - 1 < s.len() {
                assert(text::occurs_at(rest, needle, at - 1));
            }
            assert(text::occurs_at(s, needle, k + 1));
        } else {
            if text::has_text(rest, needle) {
                let at = choose|at: int| text::occurs_at(rest, needle, at);
                assert(text::occurs_at(s, needle, at + 1));
            }
        }
        k + 1
    }
}

/// Leading characters are cut as far as they go.
pub proof fn leading_characters_are_cut(s: Seq<char>, c: char) -> (k: int)
    ensures
        0 <= k <= s.len(),
        text::without_leading(s, c) == s.skip(k),
        forall|i: int| 0 <= i < k ==> #[trigger] s[i] == c,
        k < s.len() ==> s[k] != c,
    decreases s.len(),
{
    if s.len() > 0 && s[0] == c {
        let k = leading_characters_are_cut(s.skip(1), c);
        assert(s.skip(1).skip(k) =~= s.skip(k + 1));
        assert forall|i: int| 0 <= i < k + 1 implies #[trigger] s[i] == c by {
            if i > 0 {
                assert(s.skip(1)[i - 1] == s[i]);
            }
        }
        k + 1
    } else {
        assert(s.skip(0) =~= s);
        0
    }
}

/// Small letters are made of capitals, one for one, and nothing else is changed.
pub proof fn lowering_is_for_capitals(s: Seq<char>, i: int)
    requires
        0 <= i < s.len(),
    ensures
        text::lowered(s).len() == s.len(),
        'A' <= s[i] <= 'Z' ==> text::lowered(s)[i] as u32 == s[i] as u32 + 32,
        !('A' <= s[i] <= 'Z') ==> text::lowered(s)[i] == s[i],
        text::lowered(text::lowered(s)) == text::lowered(s),
{
    assert forall|j: int| 0 <= j < s.len() implies text::lower_char(text::lower_char(s[j]))
        == text::lower_char(s[j]) by {
        lemma_lower(s[j]);
    }
    lemma_lower(s[i]);
    assert(text::lowered(text::lowered(s)) =~= text::lowered(s));
}

proof fn lemma_lower(c: char)
    ensures
        'A' <= c <= 'Z' ==> text::lower_char(c) as u32 == c as u32 + 32,
        text::lower_char(text::lower_char(c)) == text::lower_char(c),
{
    if 'A' <= c && c <= 'Z' {
        let n = c as u8;
        assert(n as u32 == c as u32);
        assert((n + 32) as u8 as char as u32 == c as u32 + 32);
    }
}

// ---------------------------------------------------------------------------
// Splitting.
// ---------------------------------------------------------------------------
proof fn lemma_found(a: Seq<char>, c: char, b: Seq<char>)
    requires
        forall|i: int| 0 <= i < a.len() ==> #[trigger] a[i] != c,
    ensures
        text::find(a + seq![c] + b, c) == a.len(),
        text::find(a, c) == a.len(),
    decreases a.len(),
{
    let all = a + seq![c] + b;
    if a.len() == 0 {
        assert(all[0] == c);
    } else {
        let rest = a.skip(1);
        assert(all[0] == a[0]);
        assert(all.skip(1) =~= rest + seq![c] + b);
        assert forall|i: int| 0 <= i < rest.len() implies #[trigger] rest[i] != c by {
            assert(rest[i] == a[i + 1]);
        }
        lemma_found(rest, c, b);
    }
}

/// A text is parted at the first of the marks, and not at all where there is none.
pub proof fn parting_is_at_the_first(a: Seq<char>, c: char, b: Seq<char>)
    requires
        forall|i: int| 0 <= i < a.len() ==> #[trigger] a[i] != c,
    ensures
        text::parted(a + seq![c] + b, c) == Some((a, b)),
        text::parted(a, c) is None,
        text::pieces(a, c) == seq![a],
        text::pieces(a + seq![c] + b, c) == seq![a] + text::pieces(b, c),
{
    let all = a + seq![c] + b;
    lemma_found(a, c, b);
    assert(all.take(a.len() as int) =~= a);
    assert(all.skip(a.len() as int + 1) =~= b);
}

/// The lines of a text are what stands between the line feeds. A carriage return
/// before one belongs to it, and nothing stands behind the last.
pub proof fn lines_are_between_line_feeds(a: Seq<char>, b: Seq<char>)
    requires
        forall|i: int| 0 <= i < a.len() ==> #[trigger] a[i] != '\n',
    ensures
        a.len() > 0 ==> text::text_lines(a) == seq![a],
        text::text_lines(Seq::empty()).len() == 0,
        a.len() == 0 || a.last() != '\r' ==> text::text_lines(a + seq!['\n'] + b) == seq![a]
            + text::text_lines(b),
        text::text_lines(a.push('\r') + seq!['\n'] + b) == seq![a] + text::text_lines(b),
{
    let all = a + seq!['\n'] + b;
    lemma_found(a, '\n', b);
    assert(all.take(a.len() as int) =~= a);
    assert(all.skip(a.len() as int + 1) =~= b);
    let more = a.push('\r');
    let whole = more + seq!['\n'] + b;
    lemma_found(more, '\n', b);
    assert(whole.take(more.len() as int) =~= more);
    assert(whole.skip(more.len() as int + 1) =~= b);
    assert(more.drop_last() =~= a);
}

// ---------------------------------------------------------------------------
// Numbers.
// ---------------------------------------------------------------------------
/// A further digit makes ten of each one so far, and a number that no longer fits
/// is refused.
pub proof fn digits_add_up(s: Seq<char>, c: char, acc: nat, max: nat)
    requires
        acc <= max,
    ensures
        number::digits_value(s, acc, max) matches Ok(n) ==> number::digits_value(
            s.push(c),
            acc,
            max,
        ) == (if !('0' <= c <= '9') {
            Err::<nat, NumberError>(NumberError::InvalidDigit)
        } else if n * 10 + (c as u32 - 48) > max {
            Err(NumberError::TooLarge)
        } else {
            Ok((n * 10 + (c as u32 - 48)) as nat)
        }),
        number::digits_value(s, acc, max) is Err ==> number::digits_value(s.push(c), acc, max)
            == number::digits_value(s, acc, max),
    decreases s.len(),
{
    let all = s.push(c);
    if s.len() == 0 {
        assert(all[0] == c);
        assert(all.skip(1) =~= Seq::empty());
        if '0' <= c && c <= '9' {
            let next = (acc * 10 + (c as u32 - 48)) as nat;
            assert(number::digits_value(all.skip(1), next, max) == Ok::<nat, NumberError>(next));
        }
    } else {
        assert(all[0] == s[0]);
        assert(all.skip(1) =~= s.skip(1).push(c));
        if number::is_digit(s[0]) {
            let next = (acc * 10 + (s[0] as u32 - 48)) as nat;
            if next <= max {
                digits_add_up(s.skip(1), c, next, max);
            }
        }
    }
}

/// A number is read from its digits, with a plus before them or not. Nothing is no
/// number, and neither is a plus alone.
pub proof fn plus_makes_no_difference(s: Seq<char>)
    requires
        s.len() > 0,
        s[0] != '+',
    ensures
        number::u32_value(seq!['+'] + s) == number::u32_value(s),
        number::u64_value(seq!['+'] + s) == number::u64_value(s),
        number::u32_value(Seq::empty()) == Err::<u32, NumberError>(NumberError::Empty),
        number::u64_value(Seq::empty()) == Err::<u64, NumberError>(NumberError::Empty),
        number::u32_value(seq!['+']) == Err::<u32, NumberError>(NumberError::InvalidDigit),
{
    let all = seq!['+'] + s;
    assert(all[0] == '+');
    assert(all.skip(1) =~= s);
    let plus = seq!['+'];
    assert(plus[0] == '+');
    assert(!number::is_digit(plus[0]));
}

// ---------------------------------------------------------------------------
// Names of files.
// ---------------------------------------------------------------------------
/// A character that may stand in the name of a file.
pub open spec fn fit_for_a_name(c: char) -> bool {
    'a' <= c <= 'z' || 'A' <= c <= 'Z' || '0' <= c <= '9' || c == '-' || c == '_'
}

proof fn lemma_name_chars(a: Seq<char>, b: Seq<char>)
    ensures
        wording::name_chars(a + b) == wording::name_chars(a) + wording::name_chars(b),
    decreases b.len(),
{
    if b.len() == 0 {
        assert(a + b =~= a);
        assert(wording::name_chars(a) + wording::name_chars(b) =~= wording::name_chars(a));
    } else {
        lemma_name_chars(a, b.drop_last());
        assert((a + b).drop_last() =~= a + b.drop_last());
        assert((a + b).last() == b.last());
        assert(wording::name_chars(a + b) =~= wording::name_chars(a) + wording::name_chars(b));
    }
}

proof fn lemma_name_is_fit(s: Seq<char>)
    ensures
        forall|i: int|
            0 <= i < wording::name_chars(s).len() ==> fit_for_a_name(
                #[trigger] wording::name_chars(s)[i],
            ),
        (forall|i: int| 0 <= i < s.len() ==> fit_for_a_name(#[trigger] s[i]))
            ==> wording::name_chars(s) == s,
    decreases s.len(),
{
    if s.len() > 0 {
        lemma_name_is_fit(s.drop_last());
        let early = wording::name_chars(s.drop_last());
        assert forall|i: int| 0 <= i < wording::name_chars(s).len() implies fit_for_a_name(
            #[trigger] wording::name_chars(s)[i],
        ) by {
            if i < early.len() {
                assert(wording::name_chars(s)[i] == early[i]);
                assert(fit_for_a_name(early[i]));
            }
        }
        if forall|i: int| 0 <= i < s.len() ==> fit_for_a_name(#[trigger] s[i]) {
            assert forall|i: int| 0 <= i < s.drop_last().len() implies fit_for_a_name(
                #[trigger] s.drop_last()[i],
            ) by {
                assert(s.drop_last()[i] == s[i]);
            }
            assert(fit_for_a_name(s[s.len() - 1]));
            assert(wording::name_chars(s) =~= s);
        }
    } else {
        assert(wording::name_chars(s) =~= s);
    }
}

/// The name that is made of a label is never empty and holds nothing that is not
/// fit for it. A label that is a name already is kept, and a blank is a dash.
pub proof fn names_are_fit(s: Seq<char>, blank: char)
    requires
        text::is_whitespace(blank),
    ensures
        wording::slug_text(s).len() > 0,
        forall|i: int|
            0 <= i < wording::slug_text(s).len() ==> fit_for_a_name(
                #[trigger] wording::slug_text(s)[i],
            ),
        s.len() > 0 && (forall|i: int| 0 <= i < s.len() ==> fit_for_a_name(#[trigger] s[i]))
            ==> wording::slug_text(s) == s,
        s.len() > 0 && (forall|i: int| 0 <= i < s.len() ==> fit_for_a_name(#[trigger] s[i]))
            ==> wording::slug_text(s.push(blank) + s) == s.push('-') + s,
{
    reveal_strlit("state");
    lemma_name_is_fit(s);
    lemma_name_is_fit("state"@);
    lemma_name_chars(s.push(blank), s);
    assert(s.push(blank).drop_last() =~= s);
    assert(!fit_for_a_name(blank));
    if s.len() > 0 && (forall|i: int| 0 <= i < s.len() ==> fit_for_a_name(#[trigger] s[i])) {
        assert(wording::name_chars(s.push(blank)) =~= s.push('-'));
    }
}

// ---------------------------------------------------------------------------
// Columns.
// ---------------------------------------------------------------------------
proof fn lemma_fitting(s: Seq<char>, max: nat) -> (k: int)
    ensures
        0 <= k <= s.len(),
        wording::fitting(s, max) == s.take(k),
        wording::text_width(s.take(k)) <= max,
        k < s.len() ==> wording::text_width(s.take(k + 1)) > max,
    decreases s.len(),
{
    if wording::text_width(s) <= max || s.len() == 0 {
        assert(s.take(s.len() as int) =~= s);
        s.len() as int
    } else {
        let k = lemma_fitting(s.drop_last(), max);
        assert(s.drop_last().take(k) =~= s.take(k));
        if k + 1 <= s.drop_last().len() {
            assert(s.drop_last().take(k + 1) =~= s.take(k + 1));
        } else {
            assert(s.take(k + 1) =~= s);
        }
        k
    }
}

proof fn lemma_dots()
    ensures
        wording::text_width("..."@) == 3,
{
    reveal_strlit("...");
    let dots = "..."@;
    let two = dots.drop_last();
    let one = two.drop_last();
    assert(dots.last() == '.');
    assert(two.last() == '.');
    assert(one.last() == '.');
    assert(one.drop_last().len() == 0);
    assert(wording::text_width(one.drop_last()) == 0);
    assert(wording::text_width(one) == 1);
    assert(wording::text_width(two) == 2);
}

proof fn lemma_width_adds(a: Seq<char>, b: Seq<char>)
    ensures
        wording::text_width(a + b) == wording::text_width(a) + wording::text_width(b),
    decreases b.len(),
{
    if b.len() == 0 {
        assert(a + b =~= a);
    } else {
        lemma_width_adds(a, b.drop_last());
        assert((a + b).drop_last() =~= a + b.drop_last());
    }
}

/// A text that is cut fits the column, and one that fits is not cut. As much of it
/// is kept as fits beside the dots that stand for the rest, where there is room for
/// those.
pub proof fn cut_text_fits(s: Seq<char>, max: nat) -> (k: int)
    ensures
        wording::text_width(wording::cut_text(s, max)) <= max,
        wording::text_width(s) <= max ==> wording::cut_text(s, max) == s,
        wording::text_width(s) > max ==> 0 <= k < s.len() && if max > 3 {
            wording::cut_text(s, max) == s.take(k) + "..."@ && wording::text_width(s.take(k + 1))
                > max - 3
        } else {
            wording::cut_text(s, max) == s.take(k) && wording::text_width(s.take(k + 1)) > max
        },
{
    let room = if max > 3 {
        (max - 3) as nat
    } else {
        max
    };
    let k = lemma_fitting(s, room);
    lemma_dots();
    lemma_width_adds(s.take(k), "..."@);
    if k == s.len() {
        assert(s.take(k) =~= s);
    }
    k
}

/// What is padded is as wide as asked for, or wider where it was, with the text at
/// one end and blanks beside it.
pub proof fn padding_fills_the_column(s: Seq<char>, width: nat)
    ensures
        ({
            let right = number::padded_right(s, width);
            let left = number::padded_left(s, width);
            let all = if s.len() < width {
                width
            } else {
                s.len()
            };
            &&& right.len() == all
            &&& left.len() == all
            &&& right.take(s.len() as int) == s
            &&& left.skip(all - s.len()) == s
            &&& forall|i: int| s.len() <= i < all ==> #[trigger] right[i] == ' '
            &&& forall|i: int| 0 <= i < all - s.len() ==> #[trigger] left[i] == ' '
        }),
{
    let right = number::padded_right(s, width);
    let left = number::padded_left(s, width);
    assert(right.take(s.len() as int) =~= s);
    assert(left.skip(left.len() - s.len()) =~= s);
}

} // verus!
