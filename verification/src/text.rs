//! Text as sequences of characters: trimming, searching, splitting and joining.

use vstd::prelude::*;

verus! {

/// `String::push` appends one character at the end of the string.
pub assume_specification[ String::push ](s: &mut String, ch: char)
    ensures
        final(s)@ == old(s)@.push(ch),
;

// ---------------------------------------------------------------------------
// What the operations mean.
// ---------------------------------------------------------------------------
/// The characters with the Unicode property `White_Space`.
pub open spec fn is_whitespace(c: char) -> bool {
    ||| 0x09 <= c as u32 <= 0x0d
    ||| c as u32 == 0x20
    ||| c as u32 == 0x85
    ||| c as u32 == 0xa0
    ||| c as u32 == 0x1680
    ||| 0x2000 <= c as u32 <= 0x200a
    ||| c as u32 == 0x2028
    ||| c as u32 == 0x2029
    ||| c as u32 == 0x202f
    ||| c as u32 == 0x205f
    ||| c as u32 == 0x3000
}

/// The text without its leading whitespace.
pub open spec fn trimmed_start(s: Seq<char>) -> Seq<char>
    decreases s.len(),
{
    if s.len() > 0 && is_whitespace(s[0]) {
        trimmed_start(s.skip(1))
    } else {
        s
    }
}

/// The text without its trailing whitespace.
pub open spec fn trimmed_end(s: Seq<char>) -> Seq<char>
    decreases s.len(),
{
    if s.len() > 0 && is_whitespace(s.last()) {
        trimmed_end(s.drop_last())
    } else {
        s
    }
}

/// The text without whitespace at either end.
pub open spec fn trimmed(s: Seq<char>) -> Seq<char> {
    trimmed_end(trimmed_start(s))
}

/// The text without the run of `c` that it starts with.
pub open spec fn without_leading(s: Seq<char>, c: char) -> Seq<char>
    decreases s.len(),
{
    if s.len() > 0 && s[0] == c {
        without_leading(s.skip(1), c)
    } else {
        s
    }
}

/// An ASCII capital becomes its small letter; every other character stays.
pub open spec fn lower_char(c: char) -> char {
    if 'A' <= c && c <= 'Z' {
        (c as u8 + 32) as char
    } else {
        c
    }
}

/// The text with its ASCII capitals made small.
pub open spec fn lowered(s: Seq<char>) -> Seq<char> {
    Seq::new(s.len(), |i: int| lower_char(s[i]))
}

/// `needle` stands in `s` at position `at`.
pub open spec fn occurs_at(s: Seq<char>, needle: Seq<char>, at: int) -> bool {
    &&& 0 <= at
    &&& at + needle.len() <= s.len()
    &&& s.subrange(at, at + needle.len()) == needle
}

/// `needle` stands somewhere in `s`.
pub open spec fn has_text(s: Seq<char>, needle: Seq<char>) -> bool {
    exists|at: int| occurs_at(s, needle, at)
}

/// The text before the first occurrence of `needle`, or all of it.
pub open spec fn before(s: Seq<char>, needle: Seq<char>) -> Seq<char>
    decreases s.len(),
{
    if occurs_at(s, needle, 0) {
        Seq::empty()
    } else if s.len() == 0 {
        s
    } else {
        seq![s[0]] + before(s.skip(1), needle)
    }
}

/// `s` starts with `prefix`.
pub open spec fn begins(s: Seq<char>, prefix: Seq<char>) -> bool {
    occurs_at(s, prefix, 0)
}

/// The text behind `prefix`, where the text starts with it.
pub open spec fn stripped(s: Seq<char>, prefix: Seq<char>) -> Option<Seq<char>> {
    if begins(s, prefix) {
        Some(s.skip(prefix.len() as int))
    } else {
        None
    }
}

/// The position of the first `c`, or the length of the text.
pub open spec fn find(s: Seq<char>, c: char) -> int
    decreases s.len(),
{
    if s.len() == 0 || s[0] == c {
        0
    } else {
        1 + find(s.skip(1), c)
    }
}

/// The pieces of a text between the occurrences of `c`.
pub open spec fn pieces(s: Seq<char>, c: char) -> Seq<Seq<char>>
    decreases s.len(),
    via pieces_shrink
{
    let at = find(s, c);
    if at >= s.len() {
        seq![s]
    } else {
        seq![s.take(at)] + pieces(s.skip(at + 1), c)
    }
}

#[via_fn]
proof fn pieces_shrink(s: Seq<char>, c: char) {
    lemma_find(s, c);
}

/// The two sides of the first `c`, where there is one.
pub open spec fn parted(s: Seq<char>, c: char) -> Option<(Seq<char>, Seq<char>)> {
    let at = find(s, c);
    if at >= s.len() {
        None
    } else {
        Some((s.take(at), s.skip(at + 1)))
    }
}

/// The text without the one carriage return that it ends with.
pub open spec fn without_cr(s: Seq<char>) -> Seq<char> {
    if s.len() > 0 && s.last() == '\r' {
        s.drop_last()
    } else {
        s
    }
}

/// The lines of a text. A line ends at a line feed, or at a carriage return
/// and a line feed; the last line needs no ending.
pub open spec fn text_lines(s: Seq<char>) -> Seq<Seq<char>>
    decreases s.len(),
    via text_lines_shrink
{
    let at = find(s, '\n');
    if s.len() == 0 {
        Seq::empty()
    } else if at >= s.len() {
        seq![s]
    } else {
        seq![without_cr(s.take(at))] + text_lines(s.skip(at + 1))
    }
}

#[via_fn]
proof fn text_lines_shrink(s: Seq<char>) {
    lemma_find(s, '\n');
}

/// The parts one after the other, with `sep` between them.
pub open spec fn joined(parts: Seq<Seq<char>>, sep: Seq<char>) -> Seq<char>
    decreases parts.len(),
{
    if parts.len() == 0 {
        Seq::empty()
    } else if parts.len() == 1 {
        parts[0]
    } else {
        joined(parts.drop_last(), sep) + sep + parts.last()
    }
}

/// The text of each string.
pub open spec fn texts(v: Seq<String>) -> Seq<Seq<char>> {
    Seq::new(v.len(), |i: int| v[i]@)
}

/// The text of an optional string.
pub open spec fn opt_text(o: Option<String>) -> Option<Seq<char>> {
    match o {
        Some(s) => Some(s@),
        None => None,
    }
}

/// The text of an optional string slice.
pub open spec fn opt_str(o: Option<&str>) -> Option<Seq<char>> {
    match o {
        Some(s) => Some(s@),
        None => None,
    }
}

/// The text, or `default` where there is none.
pub open spec fn text_or(o: Option<Seq<char>>, default: Seq<char>) -> Seq<char> {
    match o {
        Some(s) => s,
        None => default,
    }
}

// ---------------------------------------------------------------------------
// Facts about them.
// ---------------------------------------------------------------------------
pub proof fn lemma_find(s: Seq<char>, c: char)
    ensures
        0 <= find(s, c) <= s.len(),
        find(s, c) < s.len() ==> s[find(s, c)] == c,
        forall|i: int| 0 <= i < find(s, c) ==> s[i] != c,
    decreases s.len(),
{
    if s.len() == 0 || s[0] == c {
    } else {
        let rest = s.skip(1);
        lemma_find(rest, c);
        assert forall|i: int| 0 <= i < find(s, c) implies s[i] != c by {
            if i > 0 {
                assert(rest[i - 1] == s[i]);
            }
        }
    }
}

pub proof fn lemma_find_is(s: Seq<char>, c: char, at: int)
    requires
        0 <= at <= s.len(),
        at < s.len() ==> s[at] == c,
        forall|i: int| 0 <= i < at ==> s[i] != c,
    ensures
        find(s, c) == at,
{
    lemma_find(s, c);
    if find(s, c) < at {
        assert(s[find(s, c)] == c);
    }
}

pub proof fn lemma_occurs_skip(s: Seq<char>, needle: Seq<char>, at: int)
    requires
        0 <= at <= s.len(),
    ensures
        occurs_at(s, needle, at) == occurs_at(s.skip(at), needle, 0),
{
    if at + needle.len() <= s.len() {
        assert(s.subrange(at, at + needle.len()) =~= s.skip(at).subrange(0, needle.len() as int));
    }
}

pub proof fn lemma_texts_push(v: Seq<String>, s: String)
    ensures
        texts(v.push(s)) == texts(v).push(s@),
{
    assert(texts(v.push(s)) =~= texts(v).push(s@));
}

// ---------------------------------------------------------------------------
// The operations.
// ---------------------------------------------------------------------------
/// The characters of a string.
pub fn chars_of(s: &str) -> (r: Vec<char>)
    ensures
        r@ == s@,
{
    let mut r: Vec<char> = Vec::new();
    for c in it: s.chars()
        invariant
            r@ == s@.take(it.index()),
            it.seq() == s@,
    {
        r.push(c);
    }
    r
}

/// The string made of the characters from `from` up to, not including, `to`.
pub fn text_of(chars: &Vec<char>, from: usize, to: usize) -> (r: String)
    requires
        from <= to <= chars@.len(),
    ensures
        r@ == chars@.subrange(from as int, to as int),
{
    let mut r = String::new();
    let mut i: usize = from;
    while i < to
        invariant
            from <= i <= to <= chars@.len(),
            r@ == chars@.subrange(from as int, i as int),
        decreases to - i,
    {
        r.push(chars[i]);
        i = i + 1;
    }
    r
}

/// An owned copy of a text.
pub fn owned(s: &str) -> (r: String)
    ensures
        r@ == s@,
{
    String::from_str(s)
}

/// An optional string as an optional slice.
pub fn borrow_opt(o: &Option<String>) -> (r: Option<&str>)
    ensures
        opt_str(r) == opt_text(*o),
{
    match o {
        Some(s) => Some(s.as_str()),
        None => None,
    }
}

/// A copy of an optional string.
pub fn copy_opt(o: &Option<String>) -> (r: Option<String>)
    ensures
        opt_text(r) == opt_text(*o),
{
    match o {
        Some(s) => Some(s.clone()),
        None => None,
    }
}

/// The text, or `default` where there is none.
pub fn str_or<'a>(o: &'a Option<String>, default: &'a str) -> (r: &'a str)
    ensures
        r@ == text_or(opt_text(*o), default@),
{
    match o {
        Some(s) => s.as_str(),
        None => default,
    }
}

/// Copies of the strings of a list.
pub fn copy_texts(v: &Vec<String>) -> (r: Vec<String>)
    ensures
        texts(r@) == texts(v@),
{
    let mut r: Vec<String> = Vec::new();
    let mut i: usize = 0;
    while i < v.len()
        invariant
            i <= v@.len(),
            texts(r@) == texts(v@).take(i as int),
        decreases v@.len() - i,
    {
        let s = v[i].clone();
        proof {
            lemma_texts_push(r@, s);
        }
        r.push(s);
        i = i + 1;
        assert(texts(r@) =~= texts(v@).take(i as int));
    }
    assert(texts(r@) =~= texts(v@));
    r
}

/// Whether two texts are equal.
pub fn same(a: &str, b: &str) -> (r: bool)
    ensures
        r == (a@ == b@),
{
    let x = chars_of(a);
    let y = chars_of(b);
    if x.len() != y.len() {
        return false;
    }
    let mut i: usize = 0;
    while i < x.len()
        invariant
            i <= x@.len(),
            x@.len() == y@.len(),
            x@ == a@,
            y@ == b@,
            forall|k: int| 0 <= k < i ==> x@[k] == y@[k],
        decreases x@.len() - i,
    {
        if x[i] != y[i] {
            assert(x@[i as int] != y@[i as int]);
            return false;
        }
        i = i + 1;
    }
    assert(x@ =~= y@);
    true
}

/// Whether a list holds a text.
pub fn list_has(v: &Vec<String>, s: &str) -> (r: bool)
    ensures
        r == texts(v@).contains(s@),
{
    let mut i: usize = 0;
    while i < v.len()
        invariant
            i <= v@.len(),
            forall|k: int| 0 <= k < i ==> texts(v@)[k] != s@,
        decreases v@.len() - i,
    {
        if same(v[i].as_str(), s) {
            assert(texts(v@)[i as int] == s@);
            return true;
        }
        i = i + 1;
    }
    false
}

/// Whether a character is whitespace.
pub fn char_is_whitespace(c: char) -> (r: bool)
    ensures
        r == is_whitespace(c),
{
    let n: u32 = c as u32;
    (0x09 <= n && n <= 0x0d) || n == 0x20 || n == 0x85 || n == 0xa0 || n == 0x1680 || (0x2000 <= n
        && n <= 0x200a) || n == 0x2028 || n == 0x2029 || n == 0x202f || n == 0x205f || n == 0x3000
}

/// The text without leading whitespace: the position where the rest starts.
fn start_of(chars: &Vec<char>) -> (i: usize)
    ensures
        i <= chars@.len(),
        trimmed_start(chars@) == chars@.skip(i as int),
{
    let mut i: usize = 0;
    assert(chars@.skip(0) =~= chars@);
    while i < chars.len() && char_is_whitespace(chars[i])
        invariant
            i <= chars@.len(),
            trimmed_start(chars@) == trimmed_start(chars@.skip(i as int)),
        decreases chars@.len() - i,
    {
        assert(chars@.skip(i as int).skip(1) =~= chars@.skip(i + 1));
        i = i + 1;
    }
    i
}

/// The position where trailing whitespace starts, in what is left from `from` on.
fn end_of(chars: &Vec<char>, from: usize) -> (j: usize)
    requires
        from <= chars@.len(),
    ensures
        from <= j <= chars@.len(),
        trimmed_end(chars@.skip(from as int)) == chars@.subrange(from as int, j as int),
{
    let mut j: usize = chars.len();
    assert(chars@.skip(from as int) =~= chars@.subrange(from as int, j as int));
    while j > from && char_is_whitespace(chars[j - 1])
        invariant
            from <= j <= chars@.len(),
            trimmed_end(chars@.skip(from as int)) == trimmed_end(
                chars@.subrange(from as int, j as int),
            ),
        decreases j,
    {
        assert(chars@.subrange(from as int, j as int).drop_last() =~= chars@.subrange(
            from as int,
            j - 1,
        ));
        j = j - 1;
    }
    j
}

/// The text without whitespace at either end.
pub fn trim(s: &str) -> (r: String)
    ensures
        r@ == trimmed(s@),
{
    let chars = chars_of(s);
    let i: usize = start_of(&chars);
    let j: usize = end_of(&chars, i);
    text_of(&chars, i, j)
}

/// The text without whitespace at its end.
pub fn trim_end(s: &str) -> (r: String)
    ensures
        r@ == trimmed_end(s@),
{
    let chars = chars_of(s);
    let j: usize = end_of(&chars, 0);
    assert(chars@.skip(0) =~= chars@);
    text_of(&chars, 0, j)
}

/// The text without the run of `c` that it starts with.
pub fn trim_start_char(s: &str, c: char) -> (r: String)
    ensures
        r@ == without_leading(s@, c),
{
    let chars = chars_of(s);
    let mut i: usize = 0;
    assert(chars@.skip(0) =~= chars@);
    while i < chars.len() && chars[i] == c
        invariant
            i <= chars@.len(),
            without_leading(chars@, c) == without_leading(chars@.skip(i as int), c),
        decreases chars@.len() - i,
    {
        assert(chars@.skip(i as int).skip(1) =~= chars@.skip(i + 1));
        i = i + 1;
    }
    let r = text_of(&chars, i, chars.len());
    assert(r@ =~= chars@.skip(i as int));
    r
}

/// The text with its ASCII capitals made small.
pub fn to_lower(s: &str) -> (r: String)
    ensures
        r@ == lowered(s@),
{
    let chars = chars_of(s);
    let mut r = String::new();
    let mut i: usize = 0;
    while i < chars.len()
        invariant
            i <= chars@.len(),
            r@ == lowered(chars@).take(i as int),
        decreases chars@.len() - i,
    {
        let c = chars[i];
        if 'A' <= c && c <= 'Z' {
            r.push((c as u8 + 32) as char);
        } else {
            r.push(c);
        }
        i = i + 1;
        assert(r@ =~= lowered(chars@).take(i as int));
    }
    assert(r@ =~= lowered(chars@));
    r
}

/// Whether `needle` stands in `chars` at `at`.
fn stands_at(chars: &Vec<char>, needle: &Vec<char>, at: usize) -> (r: bool)
    requires
        at <= chars@.len(),
    ensures
        r == occurs_at(chars@, needle@, at as int),
{
    let n: usize = chars.len();
    if needle.len() > n - at {
        return false;
    }
    let mut k: usize = 0;
    while k < needle.len()
        invariant
            k <= needle@.len(),
            at + needle@.len() <= chars@.len() <= usize::MAX,
            forall|m: int| 0 <= m < k ==> chars@[at + m] == needle@[m],
        decreases needle@.len() - k,
    {
        if chars[at + k] != needle[k] {
            assert(chars@.subrange(at as int, at + needle@.len())[k as int] != needle@[k as int]);
            return false;
        }
        k = k + 1;
    }
    assert(chars@.subrange(at as int, at + needle@.len()) =~= needle@);
    true
}

/// Whether `needle` stands somewhere in `s`.
pub fn contains(s: &str, needle: &str) -> (r: bool)
    ensures
        r == has_text(s@, needle@),
{
    let chars = chars_of(s);
    let wanted = chars_of(needle);
    let mut at: usize = 0;
    while at < chars.len()
        invariant
            at <= chars@.len(),
            chars@ == s@,
            wanted@ == needle@,
            forall|k: int| 0 <= k < at ==> !occurs_at(chars@, wanted@, k),
        decreases chars@.len() - at,
    {
        if stands_at(&chars, &wanted, at) {
            return true;
        }
        at = at + 1;
    }
    stands_at(&chars, &wanted, at)
}

/// The text before the first occurrence of `needle`, or all of it.
pub fn text_before(s: &str, needle: &str) -> (r: String)
    ensures
        r@ == before(s@, needle@),
{
    let chars = chars_of(s);
    let wanted = chars_of(needle);
    let mut at: usize = 0;
    let ghost whole = before(s@, needle@);
    assert(chars@.skip(0) =~= chars@);
    assert(whole =~= chars@.take(0) + before(chars@.skip(0), wanted@));
    while at < chars.len() && !stands_at(&chars, &wanted, at)
        invariant
            at <= chars@.len(),
            chars@ == s@,
            wanted@ == needle@,
            whole == chars@.take(at as int) + before(chars@.skip(at as int), wanted@),
        decreases chars@.len() - at,
    {
        let ghost rest = chars@.skip(at as int);
        proof {
            lemma_occurs_skip(chars@, wanted@, at as int);
        }
        assert(rest.skip(1) =~= chars@.skip(at + 1));
        assert(chars@.take(at as int) + (seq![rest[0]] + before(rest.skip(1), wanted@))
            =~= chars@.take(at + 1) + before(chars@.skip(at + 1), wanted@));
        at = at + 1;
    }
    proof {
        let rest = chars@.skip(at as int);
        lemma_occurs_skip(chars@, wanted@, at as int);
        assert(before(rest, wanted@) =~= Seq::empty());
        assert(whole =~= chars@.take(at as int));
    }
    let r = text_of(&chars, 0, at);
    assert(r@ =~= chars@.take(at as int));
    r
}

/// The text behind `prefix`, where the text starts with it.
pub fn strip_prefix(s: &str, prefix: &str) -> (r: Option<String>)
    ensures
        opt_text(r) == stripped(s@, prefix@),
{
    let chars = chars_of(s);
    let wanted = chars_of(prefix);
    if stands_at(&chars, &wanted, 0) {
        let r = text_of(&chars, wanted.len(), chars.len());
        assert(r@ =~= s@.skip(prefix@.len() as int));
        Some(r)
    } else {
        None
    }
}

/// Whether the text starts with `prefix`.
pub fn starts_with(s: &str, prefix: &str) -> (r: bool)
    ensures
        r == begins(s@, prefix@),
{
    let chars = chars_of(s);
    let wanted = chars_of(prefix);
    stands_at(&chars, &wanted, 0)
}

/// Whether the last character of the text is `c`.
pub fn ends_with_char(s: &str, c: char) -> (r: bool)
    ensures
        r == (s@.len() > 0 && s@.last() == c),
{
    let chars = chars_of(s);
    chars.len() > 0 && chars[chars.len() - 1] == c
}

/// The position of the next `c` at or after `from`, or the length.
fn next_of(chars: &Vec<char>, c: char, from: usize) -> (at: usize)
    requires
        from <= chars@.len(),
    ensures
        from <= at <= chars@.len(),
        find(chars@.skip(from as int), c) == at - from,
{
    let mut at: usize = from;
    while at < chars.len() && chars[at] != c
        invariant
            from <= at <= chars@.len(),
            forall|k: int| from <= k < at ==> chars@[k] != c,
        decreases chars@.len() - at,
    {
        at = at + 1;
    }
    proof {
        let rest = chars@.skip(from as int);
        assert forall|i: int| 0 <= i < at - from implies rest[i] != c by {
            assert(rest[i] == chars@[from + i]);
        }
        lemma_find_is(rest, c, at - from);
    }
    at
}

/// The pieces of a text between the occurrences of `c`.
pub fn split(s: &str, c: char) -> (r: Vec<String>)
    ensures
        texts(r@) == pieces(s@, c),
        r@.len() > 0,
{
    let chars = chars_of(s);
    let mut r: Vec<String> = Vec::new();
    let mut from: usize = 0;
    assert(chars@.skip(0) =~= chars@);
    assert(texts(r@) + pieces(chars@.skip(0), c) =~= pieces(s@, c));
    loop
        invariant
            from <= chars@.len(),
            chars@ == s@,
            texts(r@) + pieces(chars@.skip(from as int), c) == pieces(s@, c),
        decreases chars@.len() - from,
    {
        let ghost rest = chars@.skip(from as int);
        let at: usize = next_of(&chars, c, from);
        let piece = text_of(&chars, from, at);
        proof {
            lemma_texts_push(r@, piece);
            assert(piece@ =~= rest.take(at - from));
        }
        let ghost old_texts = texts(r@);
        r.push(piece);
        if at == chars.len() {
            assert(piece@ =~= rest);
            assert(texts(r@) =~= old_texts + seq![rest]);
            return r;
        }
        assert(rest.skip(at - from + 1) =~= chars@.skip(at + 1));
        assert(texts(r@) + pieces(chars@.skip(at + 1), c) =~= old_texts + (seq![piece@] + pieces(
            chars@.skip(at + 1),
            c,
        )));
        from = at + 1;
    }
}

/// The two sides of the first `c`, where there is one.
pub fn split_once(s: &str, c: char) -> (r: Option<(String, String)>)
    ensures
        match r {
            Some(p) => parted(s@, c) == Some((p.0@, p.1@)),
            None => parted(s@, c) is None,
        },
{
    let chars = chars_of(s);
    let at: usize = next_of(&chars, c, 0);
    assert(chars@.skip(0) =~= chars@);
    if at == chars.len() {
        return None;
    }
    let left = text_of(&chars, 0, at);
    let right = text_of(&chars, at + 1, chars.len());
    assert(left@ =~= s@.take(at as int));
    assert(right@ =~= s@.skip(at + 1));
    Some((left, right))
}

/// The lines of a text.
pub fn lines(s: &str) -> (r: Vec<String>)
    ensures
        texts(r@) == text_lines(s@),
{
    let chars = chars_of(s);
    let mut r: Vec<String> = Vec::new();
    let mut from: usize = 0;
    assert(chars@.skip(0) =~= chars@);
    assert(texts(r@) + text_lines(chars@.skip(0)) =~= text_lines(s@));
    while from < chars.len()
        invariant
            from <= chars@.len(),
            chars@ == s@,
            texts(r@) + text_lines(chars@.skip(from as int)) == text_lines(s@),
        decreases chars@.len() - from,
    {
        let ghost rest = chars@.skip(from as int);
        let ghost old_texts = texts(r@);
        let at: usize = next_of(&chars, '\n', from);
        if at == chars.len() {
            let line = text_of(&chars, from, at);
            proof {
                lemma_texts_push(r@, line);
                assert(line@ =~= rest);
            }
            r.push(line);
            assert(texts(r@) =~= old_texts + seq![rest]);
            return r;
        }
        let to: usize = if at > from && chars[at - 1] == '\r' {
            at - 1
        } else {
            at
        };
        let line = text_of(&chars, from, to);
        proof {
            lemma_texts_push(r@, line);
            assert(line@ =~= without_cr(rest.take(at - from)));
            assert(rest.skip(at - from + 1) =~= chars@.skip(at + 1));
        }
        r.push(line);
        assert(texts(r@) + text_lines(chars@.skip(at + 1)) =~= old_texts + (seq![line@]
            + text_lines(chars@.skip(at + 1))));
        from = at + 1;
    }
    assert(chars@.skip(from as int) =~= Seq::empty());
    assert(texts(r@) =~= text_lines(s@));
    r
}

/// The parts one after the other, with `sep` between them.
pub fn join(parts: &Vec<String>, sep: &str) -> (r: String)
    ensures
        r@ == joined(texts(parts@), sep@),
{
    let mut r = String::new();
    let mut i: usize = 0;
    let ghost all = texts(parts@);
    assert(all.take(0) =~= Seq::empty());
    while i < parts.len()
        invariant
            i <= parts@.len(),
            all == texts(parts@),
            r@ == joined(all.take(i as int), sep@),
        decreases parts@.len() - i,
    {
        if i > 0 {
            r.append(sep);
        }
        r.append(parts[i].as_str());
        proof {
            let now = all.take(i + 1);
            assert(now.drop_last() =~= all.take(i as int));
            if i == 0 {
                assert(r@ =~= now[0]);
            }
        }
        i = i + 1;
    }
    assert(all.take(i as int) =~= all);
    r
}

/// Two texts, one after the other.
pub fn cat2(a: &str, b: &str) -> (r: String)
    ensures
        r@ == a@ + b@,
{
    let mut r = String::from_str(a);
    r.append(b);
    r
}

/// Three texts, one after the other.
pub fn cat3(a: &str, b: &str, c: &str) -> (r: String)
    ensures
        r@ == a@ + b@ + c@,
{
    let mut r = cat2(a, b);
    r.append(c);
    r
}

/// Four texts, one after the other.
pub fn cat4(a: &str, b: &str, c: &str, d: &str) -> (r: String)
    ensures
        r@ == a@ + b@ + c@ + d@,
{
    let mut r = cat3(a, b, c);
    r.append(d);
    r
}

/// Five texts, one after the other.
pub fn cat5(a: &str, b: &str, c: &str, d: &str, e: &str) -> (r: String)
    ensures
        r@ == a@ + b@ + c@ + d@ + e@,
{
    let mut r = cat4(a, b, c, d);
    r.append(e);
    r
}

/// A list of one text.
pub fn list1(a: &str) -> (r: Vec<String>)
    ensures
        texts(r@) == seq![a@],
{
    let mut v: Vec<String> = Vec::new();
    v.push(owned(a));
    assert(texts(v@) =~= seq![a@]);
    v
}

/// A list of two texts.
pub fn list2(a: &str, b: &str) -> (r: Vec<String>)
    ensures
        texts(r@) == seq![a@, b@],
{
    let mut v: Vec<String> = Vec::new();
    v.push(owned(a));
    v.push(owned(b));
    assert(texts(v@) =~= seq![a@, b@]);
    v
}

/// A list of three texts.
pub fn list3(a: &str, b: &str, c: &str) -> (r: Vec<String>)
    ensures
        texts(r@) == seq![a@, b@, c@],
{
    let mut v: Vec<String> = Vec::new();
    v.push(owned(a));
    v.push(owned(b));
    v.push(owned(c));
    assert(texts(v@) =~= seq![a@, b@, c@]);
    v
}

/// A list of four texts.
pub fn list4(a: &str, b: &str, c: &str, d: &str) -> (r: Vec<String>)
    ensures
        texts(r@) == seq![a@, b@, c@, d@],
{
    let mut v: Vec<String> = Vec::new();
    v.push(owned(a));
    v.push(owned(b));
    v.push(owned(c));
    v.push(owned(d));
    assert(texts(v@) =~= seq![a@, b@, c@, d@]);
    v
}

/// A list of five texts.
pub fn list5(a: &str, b: &str, c: &str, d: &str, e: &str) -> (r: Vec<String>)
    ensures
        texts(r@) == seq![a@, b@, c@, d@, e@],
{
    let mut v: Vec<String> = Vec::new();
    v.push(owned(a));
    v.push(owned(b));
    v.push(owned(c));
    v.push(owned(d));
    v.push(owned(e));
    assert(texts(v@) =~= seq![a@, b@, c@, d@, e@]);
    v
}

} // verus!
