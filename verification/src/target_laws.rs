//! What holds of saved targets: a file reads back as it was written, and
//! saving a target twice undoes it.

use vstd::prelude::*;

use crate::display;
use crate::display::DisplayView;
use crate::target;
use crate::target::TargetView;
use crate::text;

verus! {

// ---------------------------------------------------------------------------
// Values.
// ---------------------------------------------------------------------------
/// Reading a value as it was written gives the value back.
pub proof fn decoding_undoes_encoding(s: Seq<char>)
    ensures
        target::decoded(target::encoded(s)) == s,
    decreases s.len(),
{
    if s.len() > 0 {
        let rest = s.skip(1);
        decoding_undoes_encoding(rest);
        let code = target::encoded_char(s[0]);
        let all = target::encoded(s);
        assert(all == code + target::encoded(rest));
        if code.len() == 2 {
            assert(all.skip(2) =~= target::encoded(rest));
            assert(all[0] == code[0] && all[1] == code[1]);
        } else {
            assert(all.skip(1) =~= target::encoded(rest));
            assert(all[0] == code[0]);
        }
        assert(target::decoded(all) =~= seq![s[0]] + rest);
        assert(s =~= seq![s[0]] + rest);
    } else {
        assert(target::decoded(target::encoded(s)) =~= s);
    }
}

/// A value as it is written holds neither a tab nor a line feed, so it can
/// break neither a field nor a line.
pub proof fn encoding_has_no_breaks(s: Seq<char>)
    ensures
        forall|i: int|
            0 <= i < target::encoded(s).len() ==> #[trigger] target::encoded(s)[i] != '\t' && target::encoded(s)[i] != '\n',
    decreases s.len(),
{
    if s.len() > 0 {
        let rest = s.skip(1);
        encoding_has_no_breaks(rest);
        let code = target::encoded_char(s[0]);
        assert forall|i: int| 0 <= i < target::encoded(s).len() implies #[trigger] target::encoded(s)[i] != '\t'
            && target::encoded(s)[i] != '\n' by {
            if i < code.len() {
                assert(target::encoded(s)[i] == code[i]);
            } else {
                assert(target::encoded(s)[i] == target::encoded(rest)[i - code.len()]);
            }
        }
    }
}

// ---------------------------------------------------------------------------
// Pieces.
// ---------------------------------------------------------------------------
pub open spec fn lacks(s: Seq<char>, c: char) -> bool {
    forall|i: int| 0 <= i < s.len() ==> s[i] != c
}

pub proof fn lemma_pieces_append(a: Seq<char>, b: Seq<char>, c: char)
    requires
        lacks(b, c),
    ensures
        text::pieces(a + seq![c] + b, c) == text::pieces(a, c).push(b),
    decreases a.len(),
{
    let s = a + seq![c] + b;
    text::lemma_find(a, c);
    let at = text::find(a, c);
    assert(s[a.len() as int] == c);
    assert forall|i: int| 0 <= i < at implies s[i] != c by {
        assert(s[i] == a[i]);
    }
    if at == a.len() {
        text::lemma_find_is(s, c, at);
        assert(s.take(at) =~= a);
        assert(s.skip(at + 1) =~= b);
        text::lemma_find_is(b, c, b.len() as int);
        assert(text::pieces(b, c) == seq![b]);
        assert(text::pieces(a, c) == seq![a]);
        assert(text::pieces(s, c) == seq![a] + text::pieces(b, c));
        assert(text::pieces(s, c) =~= seq![a].push(b));
    } else {
        assert(s[at] == a[at]);
        text::lemma_find_is(s, c, at);
        let rest = a.skip(at + 1);
        assert(s.take(at) =~= a.take(at));
        assert(s.skip(at + 1) =~= rest + seq![c] + b);
        lemma_pieces_append(rest, b, c);
        assert(seq![a.take(at)] + text::pieces(rest, c).push(b) =~= (seq![a.take(at)] + text::pieces(
            rest,
            c,
        )).push(b));
    }
}

/// Splitting what was joined gives the parts back, as long as the separator
/// stands in none of them.
pub proof fn splitting_undoes_joining(parts: Seq<Seq<char>>, c: char)
    requires
        parts.len() > 0,
        forall|i: int| 0 <= i < parts.len() ==> lacks(#[trigger] parts[i], c),
    ensures
        text::pieces(text::joined(parts, seq![c]), c) == parts,
    decreases parts.len(),
{
    if parts.len() == 1 {
        assert(lacks(parts[0], c));
        text::lemma_find_is(parts[0], c, parts[0].len() as int);
        assert(text::pieces(parts[0], c) =~= parts);
    } else {
        let init = parts.drop_last();
        assert forall|i: int| 0 <= i < init.len() implies lacks(#[trigger] init[i], c) by {
            assert(init[i] == parts[i]);
        }
        splitting_undoes_joining(init, c);
        assert(lacks(parts[parts.len() - 1], c));
        lemma_pieces_append(text::joined(init, seq![c]), parts.last(), c);
        assert(init.push(parts.last()) =~= parts);
    }
}

// ---------------------------------------------------------------------------
// Lines.
// ---------------------------------------------------------------------------
/// Which of the keys of a line a text is.
pub open spec fn is_key(key: Seq<char>) -> bool {
    ||| key == "contextual"@
    ||| key == "serial"@
    ||| key == "persistent"@
    ||| key == "type"@
    ||| key == "resolution"@
    ||| key == "label"@
}

proof fn lemma_key_chars(key: Seq<char>)
    requires
        is_key(key),
    ensures
        lacks(key, '='),
        lacks(key, '\t'),
        lacks(key, '\n'),
        key.len() > 0,
        !text::is_whitespace(key[0]),
{
    reveal_strlit("contextual");
    reveal_strlit("serial");
    reveal_strlit("persistent");
    reveal_strlit("type");
    reveal_strlit("resolution");
    reveal_strlit("label");
}

proof fn lemma_keys_differ()
    ensures
        "contextual"@ != "serial"@,
        "contextual"@ != "persistent"@,
        "serial"@ != "persistent"@,
        "contextual"@ != "type"@,
        "serial"@ != "type"@,
        "persistent"@ != "type"@,
        "contextual"@ != "resolution"@,
        "serial"@ != "resolution"@,
        "persistent"@ != "resolution"@,
        "type"@ != "resolution"@,
        "contextual"@ != "label"@,
        "serial"@ != "label"@,
        "persistent"@ != "label"@,
        "type"@ != "label"@,
        "resolution"@ != "label"@,
{
    reveal_strlit("contextual");
    reveal_strlit("serial");
    reveal_strlit("persistent");
    reveal_strlit("type");
    reveal_strlit("resolution");
    reveal_strlit("label");
    assert("contextual"@[0] == 'c');
    assert("serial"@[0] == 's');
    assert("persistent"@[0] == 'p');
    assert("type"@[0] == 't');
    assert("resolution"@[0] == 'r');
    assert("label"@[0] == 'l');
}

/// The field of a value parts at its first equals sign into key and value.
pub proof fn lemma_field_parts(key: Seq<char>, value: Seq<char>)
    requires
        lacks(key, '='),
    ensures
        text::parted(key + "="@ + target::encoded(value), '=') == Some((key, target::encoded(value))),
{
    reveal_strlit("=");
    let field = key + "="@ + target::encoded(value);
    assert("="@ =~= seq!['=']);
    assert(field[key.len() as int] == '=');
    assert forall|i: int| 0 <= i < key.len() implies field[i] != '=' by {
        assert(field[i] == key[i]);
    }
    text::lemma_find_is(field, '=', key.len() as int);
    assert(field.take(key.len() as int) =~= key);
    assert(field.skip(key.len() as int + 1) =~= target::encoded(value));
}

proof fn lemma_fields_step(fields: Seq<Seq<char>>, key: Seq<char>, value: Option<Seq<char>>)
    requires
        is_key(key),
    ensures
        target::target_of_fields(fields + target::field_of(key, value)) == (match value {
            Some(v) => target::with_value(target::target_of_fields(fields), key, v),
            None => target::target_of_fields(fields),
        }),
{
    match value {
        Some(v) => {
            let field = key + "="@ + target::encoded(v);
            let all = fields + target::field_of(key, value);
            assert(all.drop_last() =~= fields);
            assert(all.last() == field);
            lemma_key_chars(key);
            lemma_field_parts(key, v);
            decoding_undoes_encoding(v);
        },
        None => {
            assert(fields + target::field_of(key, value) =~= fields);
        },
    }
}

/// What a target's line keeps of it: an empty value counts as none, and an
/// empty label as the default one.
pub open spec fn kept(target: TargetView) -> TargetView {
    TargetView {
        contextual_id: kept_value(target.contextual_id),
        serial_id: kept_value(target.serial_id),
        persistent_id: kept_value(target.persistent_id),
        display_type: kept_value(target.display_type),
        resolution: kept_value(target.resolution),
        label: if target.label.len() == 0 {
            "saved display"@
        } else {
            target.label
        },
    }
}

pub open spec fn kept_value(value: Option<Seq<char>>) -> Option<Seq<char>> {
    match value {
        Some(v) => target::filled(v),
        None => None,
    }
}

pub proof fn lemma_kept_value_identity(value: Option<Seq<char>>)
    ensures
        display::persistent_identity(kept_value(value)) == display::persistent_identity(value),
        display::serial_identity(kept_value(value)) == display::serial_identity(value),
{
    if let Some(v) = value {
        if v.len() == 0 {
            assert(text::trimmed(v).len() == 0);
            assert(text::without_leading(text::trimmed(v), 's').len() == 0);
            assert(display::normal_id(v).len() == 0);
        }
    }
}

proof fn lemma_target_of_fields(target: TargetView)
    ensures
        target::target_of_fields(target::target_fields(target)) == kept(target),
{
    lemma_keys_differ();
    let f0 = Seq::<Seq<char>>::empty();
    let f1 = f0 + target::field_of("contextual"@, target.contextual_id);
    let f2 = f1 + target::field_of("serial"@, target.serial_id);
    let f3 = f2 + target::field_of("persistent"@, target.persistent_id);
    let f4 = f3 + target::field_of("type"@, target.display_type);
    let f5 = f4 + target::field_of("resolution"@, target.resolution);
    let f6 = f5 + target::field_of("label"@, Some(target.label));
    assert(f1 =~= target::field_of("contextual"@, target.contextual_id));
    lemma_fields_step(f0, "contextual"@, target.contextual_id);
    lemma_fields_step(f1, "serial"@, target.serial_id);
    lemma_fields_step(f2, "persistent"@, target.persistent_id);
    lemma_fields_step(f3, "type"@, target.display_type);
    lemma_fields_step(f4, "resolution"@, target.resolution);
    lemma_fields_step(f5, "label"@, Some(target.label));
    assert(f6 == target::target_fields(target));
}

proof fn lemma_field_lacks(key: Seq<char>, value: Seq<char>)
    requires
        is_key(key),
    ensures
        lacks(key + "="@ + target::encoded(value), '\t'),
        lacks(key + "="@ + target::encoded(value), '\n'),
{
    reveal_strlit("=");
    lemma_key_chars(key);
    encoding_has_no_breaks(value);
    let field = key + "="@ + target::encoded(value);
    assert forall|i: int| 0 <= i < field.len() implies field[i] != '\t' && field[i] != '\n' by {
        if i < key.len() {
            assert(field[i] == key[i]);
        } else if i == key.len() {
            assert(field[i] == '=');
        } else {
            assert(field[i] == target::encoded(value)[i - key.len() - 1]);
        }
    }
}

/// A sequence of fields, each with one of the keys.
pub open spec fn well_keyed(fields: Seq<Seq<char>>) -> bool {
    forall|i: int|
        0 <= i < fields.len() ==> {
            &&& lacks(#[trigger] fields[i], '\t')
            &&& lacks(fields[i], '\n')
            &&& fields[i].len() > 0
            &&& !text::is_whitespace(fields[i][0])
        }
}

proof fn lemma_well_keyed_step(fields: Seq<Seq<char>>, key: Seq<char>, value: Option<Seq<char>>)
    requires
        well_keyed(fields),
        is_key(key),
    ensures
        well_keyed(fields + target::field_of(key, value)),
{
    if let Some(v) = value {
        lemma_field_lacks(key, v);
        lemma_key_chars(key);
        let all = fields + target::field_of(key, value);
        let field = key + "="@ + target::encoded(v);
        assert(field[0] == key[0]);
        assert forall|i: int| 0 <= i < all.len() implies ({
            &&& lacks(#[trigger] all[i], '\t')
            &&& lacks(all[i], '\n')
            &&& all[i].len() > 0
            &&& !text::is_whitespace(all[i][0])
        }) by {
            if i < fields.len() {
                assert(all[i] == fields[i]);
            } else {
                assert(all[i] == field);
            }
        }
    } else {
        assert(fields + target::field_of(key, value) =~= fields);
    }
}

proof fn lemma_target_fields_keyed(target: TargetView)
    ensures
        well_keyed(target::target_fields(target)),
        target::target_fields(target).len() > 0,
{
    let f0 = Seq::<Seq<char>>::empty();
    let f1 = f0 + target::field_of("contextual"@, target.contextual_id);
    let f2 = f1 + target::field_of("serial"@, target.serial_id);
    let f3 = f2 + target::field_of("persistent"@, target.persistent_id);
    let f4 = f3 + target::field_of("type"@, target.display_type);
    let f5 = f4 + target::field_of("resolution"@, target.resolution);
    assert(f1 =~= target::field_of("contextual"@, target.contextual_id));
    lemma_well_keyed_step(f0, "contextual"@, target.contextual_id);
    lemma_well_keyed_step(f1, "serial"@, target.serial_id);
    lemma_well_keyed_step(f2, "persistent"@, target.persistent_id);
    lemma_well_keyed_step(f3, "type"@, target.display_type);
    lemma_well_keyed_step(f4, "resolution"@, target.resolution);
    lemma_well_keyed_step(f5, "label"@, Some(target.label));
}

pub proof fn lemma_tab()
    ensures
        "\t"@ == seq!['\t'],
        "\n"@ == seq!['\n'],
{
    reveal_strlit("\t");
    reveal_strlit("\n");
    assert("\t"@ =~= seq!['\t']);
    assert("\n"@ =~= seq!['\n']);
}

/// The line of a target with a stable id reads back as that target; an empty
/// value is read as none, and an empty label as the default one. The line of a
/// target without a stable id is not read.
pub proof fn target_line_reads_back(target: TargetView)
    ensures
        target::target_of_line(target::target_line(target)) == (if target.stable() {
            Some(kept(target))
        } else {
            None
        }),
{
    lemma_tab();
    lemma_target_fields_keyed(target);
    let fields = target::target_fields(target);
    splitting_undoes_joining(fields, '\t');
    lemma_target_of_fields(target);
    lemma_kept_value_identity(target.persistent_id);
    lemma_kept_value_identity(target.serial_id);
}

// ---------------------------------------------------------------------------
// The file.
// ---------------------------------------------------------------------------
pub proof fn lemma_joined_shape(fields: Seq<Seq<char>>, c: char)
    requires
        fields.len() > 0,
    ensures
        fields[0].len() > 0 ==> text::joined(fields, seq![c]).len() > 0 && text::joined(fields, seq![c])[0]
            == fields[0][0],
    decreases fields.len(),
{
    if fields.len() > 1 {
        lemma_joined_shape(fields.drop_last(), c);
        assert(fields.drop_last()[0] == fields[0]);
    }
}

pub proof fn lemma_joined_lacks(fields: Seq<Seq<char>>, sep: Seq<char>, c: char)
    requires
        forall|i: int| 0 <= i < fields.len() ==> lacks(#[trigger] fields[i], c),
        lacks(sep, c),
    ensures
        lacks(text::joined(fields, sep), c),
    decreases fields.len(),
{
    if fields.len() == 1 {
        assert(lacks(fields[0], c));
    } else if fields.len() > 1 {
        let init = fields.drop_last();
        assert forall|i: int| 0 <= i < init.len() implies lacks(#[trigger] init[i], c) by {
            assert(init[i] == fields[i]);
        }
        lemma_joined_lacks(init, sep, c);
        assert(lacks(fields[fields.len() - 1], c));
        let a = text::joined(init, sep);
        let all = a + sep + fields.last();
        assert forall|i: int| 0 <= i < all.len() implies all[i] != c by {
            if i < a.len() {
                assert(all[i] == a[i]);
            } else if i < a.len() + sep.len() {
                assert(all[i] == sep[i - a.len()]);
            } else {
                assert(all[i] == fields.last()[i - a.len() - sep.len()]);
            }
        }
    }
}

pub proof fn lemma_lines_append(body: Seq<char>, line: Seq<char>)
    requires
        lacks(line, '\n'),
        body.len() == 0 || body.last() == '\n',
    ensures
        text::text_lines(body + line + seq!['\n']) == text::text_lines(body).push(text::without_cr(line)),
    decreases body.len(),
{
    let s = body + line + seq!['\n'];
    text::lemma_find(body, '\n');
    let at = text::find(body, '\n');
    if body.len() == 0 {
        assert(s =~= line + seq!['\n']);
        assert(s[line.len() as int] == '\n');
        assert forall|i: int| 0 <= i < line.len() implies s[i] != '\n' by {
            assert(s[i] == line[i]);
        }
        text::lemma_find_is(s, '\n', line.len() as int);
        assert(s.take(line.len() as int) =~= line);
        assert(s.skip(line.len() as int + 1) =~= Seq::empty());
        assert(text::text_lines(Seq::empty()) =~= Seq::empty());
        assert(text::text_lines(s) =~= seq![text::without_cr(line)]);
        assert(text::text_lines(body) =~= Seq::empty());
    } else {
        assert(at < body.len()) by {
            if at == body.len() {
                assert(body[body.len() - 1] != '\n');
            }
        }
        assert forall|i: int| 0 <= i < at implies s[i] != '\n' by {
            assert(s[i] == body[i]);
        }
        assert(s[at] == body[at]);
        text::lemma_find_is(s, '\n', at);
        let rest = body.skip(at + 1);
        assert(s.take(at) =~= body.take(at));
        assert(s.skip(at + 1) =~= rest + line + seq!['\n']);
        assert(rest.len() > 0 ==> rest.last() == body.last());
        lemma_lines_append(rest, line);
        assert(seq![text::without_cr(body.take(at))] + text::text_lines(rest).push(text::without_cr(line)) =~= (
        seq![text::without_cr(body.take(at))] + text::text_lines(rest)).push(text::without_cr(line)));
    }
}

/// The label without the blanks at its end that a line cannot keep: those that
/// are written as themselves.
pub open spec fn kept_label(label: Seq<char>) -> Seq<char>
    decreases label.len(),
{
    if label.len() > 0 && text::is_whitespace(label.last()) && label.last() != '\t' && label.last()
        != '\n' {
        kept_label(label.drop_last())
    } else {
        label
    }
}

/// What the file keeps of a target.
pub open spec fn filed(target: TargetView) -> TargetView {
    kept(TargetView { label: kept_label(target.label), ..target })
}

/// What the file keeps of a list of targets: those with a stable id.
pub open spec fn filed_targets(targets: Seq<TargetView>) -> Seq<TargetView>
    decreases targets.len(),
{
    if targets.len() == 0 {
        Seq::empty()
    } else if targets.last().stable() {
        filed_targets(targets.drop_last()).push(filed(targets.last()))
    } else {
        filed_targets(targets.drop_last())
    }
}

proof fn lemma_encoded_push(s: Seq<char>, c: char)
    ensures
        target::encoded(s.push(c)) == target::encoded(s) + target::encoded_char(c),
    decreases s.len(),
{
    let t = s.push(c);
    if s.len() == 0 {
        assert(t.skip(1) =~= Seq::empty());
        assert(target::encoded(t.skip(1)) =~= Seq::empty());
        assert(target::encoded(t) =~= target::encoded_char(c));
        assert(target::encoded(s) + target::encoded_char(c) =~= target::encoded_char(c));
    } else {
        assert(t.skip(1) =~= s.skip(1).push(c));
        lemma_encoded_push(s.skip(1), c);
        assert(target::encoded_char(s[0]) + (target::encoded(s.skip(1)) + target::encoded_char(c)) =~= (target::encoded_char(s[0])
            + target::encoded(s.skip(1))) + target::encoded_char(c));
    }
}

proof fn lemma_trimmed_end_append(prefix: Seq<char>, s: Seq<char>)
    requires
        prefix.len() > 0,
        !text::is_whitespace(prefix.last()),
    ensures
        text::trimmed_end(prefix + s) == prefix + text::trimmed_end(s),
    decreases s.len(),
{
    let t = prefix + s;
    if s.len() == 0 {
        assert(t =~= prefix);
        assert(prefix + text::trimmed_end(s) =~= prefix);
    } else {
        assert(t.last() == s.last());
        assert(t.drop_last() =~= prefix + s.drop_last());
        if text::is_whitespace(s.last()) {
            lemma_trimmed_end_append(prefix, s.drop_last());
        }
    }
}

proof fn lemma_trimmed_encoded(label: Seq<char>)
    ensures
        text::trimmed_end(target::encoded(label)) == target::encoded(kept_label(label)),
    decreases label.len(),
{
    if label.len() > 0 {
        let init = label.drop_last();
        let c = label.last();
        lemma_encoded_push(init, c);
        assert(init.push(c) =~= label);
        let all = target::encoded(label);
        let code = target::encoded_char(c);
        assert(all == target::encoded(init) + code);
        assert(all.last() == code.last());
        if text::is_whitespace(c) && c != '\t' && c != '\n' {
            assert(code =~= seq![c]);
            assert(all.drop_last() =~= target::encoded(init));
            lemma_trimmed_encoded(init);
        } else {
            assert(!text::is_whitespace(code.last()));
        }
    }
}

/// A target's line: everything up to the label's value, then the value.
proof fn lemma_line_shape(target: TargetView) -> (head: Seq<char>)
    ensures
        target::target_line(target) == head + target::encoded(target.label),
        head.len() > 0,
        head.last() == '=',
        !text::is_whitespace(head[0]),
        lacks(target::target_line(target), '\n'),
        forall|label: Seq<char>| #[trigger]
            target::target_line(TargetView { label, ..target }) == head + target::encoded(label),
{
    lemma_tab();
    reveal_strlit("=");
    assert("="@ =~= seq!['=']);
    lemma_target_fields_keyed(target);
    let fields = target::target_fields(target);
    let init = fields.drop_last();
    let lead = if init.len() == 0 {
        Seq::empty()
    } else {
        text::joined(init, "\t"@) + "\t"@
    };
    let head = lead + ("label"@ + "="@);
    assert(fields.last() == "label"@ + "="@ + target::encoded(target.label));
    assert(head + target::encoded(target.label) =~= lead + fields.last());
    if init.len() == 0 {
        assert(fields.len() == 1);
        assert(fields[0] == fields.last());
        assert(target::target_line(target) =~= lead + fields.last());
    }
    lemma_joined_shape(fields, '\t');
    assert(lacks(fields[0], '\t'));
    assert(head[0] == target::target_line(target)[0]);
    lemma_joined_lacks(fields, "\t"@, '\n');
    assert forall|label: Seq<char>| #[trigger]
        target::target_line(TargetView { label, ..target }) == head + target::encoded(label) by {
        let other = TargetView { label, ..target };
        let others = target::target_fields(other);
        assert(others.drop_last() =~= init);
        assert(others.last() == "label"@ + "="@ + target::encoded(label));
        assert(head + target::encoded(label) =~= lead + others.last());
        if init.len() == 0 {
            assert(others.len() == 1);
            assert(others[0] == others.last());
            assert(target::target_line(other) =~= lead + others.last());
        }
    }
    head
}

proof fn lemma_trimmed_line(target: TargetView)
    ensures
        text::trimmed(text::without_cr(target::target_line(target))) == target::target_line(
            TargetView { label: kept_label(target.label), ..target },
        ),
{
    let head = lemma_line_shape(target);
    let line = target::target_line(target);
    let cut = TargetView { label: kept_label(target.label), ..target };
    lemma_trimmed_end_append(head, target::encoded(target.label));
    lemma_trimmed_encoded(target.label);
    assert(target::target_line(cut) == head + target::encoded(kept_label(target.label)));
    assert(text::trimmed_end(line) == target::target_line(cut));
    let bare = text::without_cr(line);
    assert(line[0] == head[0]);
    assert(bare[0] == line[0]) by {
        if line.last() == '\r' && line.len() == 1 {
            assert(head[0] == '\r');
            assert(text::is_whitespace('\r'));
        }
    }
    assert(text::trimmed_start(bare) == bare);
    if line.last() == '\r' {
        assert(text::is_whitespace('\r'));
        assert(text::trimmed_end(line) == text::trimmed_end(bare));
    }
}

proof fn lemma_body_lines(targets: Seq<TargetView>)
    ensures
        target::targets_of_lines(text::text_lines(target::targets_body(targets))) == filed_targets(targets),
        target::targets_body(targets).len() == 0 || target::targets_body(targets).last() == '\n',
    decreases targets.len(),
{
    lemma_tab();
    if targets.len() == 0 {
        assert(text::text_lines(target::targets_body(targets)) =~= Seq::empty());
    } else {
        let init = targets.drop_last();
        let target = targets.last();
        lemma_body_lines(init);
        let body = target::targets_body(init);
        let line = target::target_line(target);
        let head = lemma_line_shape(target);
        lemma_lines_append(body, line);
        let all = text::text_lines(target::targets_body(targets));
        assert(all == text::text_lines(body).push(text::without_cr(line)));
        assert(all.drop_last() =~= text::text_lines(body));
        assert(all.last() == text::without_cr(line));
        let cut = TargetView { label: kept_label(target.label), ..target };
        lemma_trimmed_line(target);
        assert(target::target_line(cut) == head + target::encoded(cut.label));
        assert(target::target_line(cut).len() > 0);
        target_line_reads_back(cut);
        assert(cut.stable() == target.stable());
    }
}

/// Reading the file of saved targets gives back the targets, in their order:
/// those with a stable id, each as its line keeps it, its label without blanks
/// at the end.
pub proof fn saved_targets_read_back(targets: Seq<TargetView>)
    ensures
        target::targets_of_file(target::targets_file(targets)) == filed_targets(targets),
{
    lemma_body_lines(targets);
}

/// A target of which the file loses nothing: it has a stable id, no value is
/// empty, and the label does not end in a blank.
pub open spec fn fully_kept(target: TargetView) -> bool {
    &&& target.stable()
    &&& target.contextual_id != Some(Seq::<char>::empty())
    &&& target.serial_id != Some(Seq::<char>::empty())
    &&& target.persistent_id != Some(Seq::<char>::empty())
    &&& target.display_type != Some(Seq::<char>::empty())
    &&& target.resolution != Some(Seq::<char>::empty())
    &&& target.label.len() > 0
    &&& !text::is_whitespace(target.label.last())
}

/// Targets of which the file loses nothing come back exactly as they were.
pub proof fn fully_kept_targets_come_back(targets: Seq<TargetView>)
    requires
        forall|i: int| 0 <= i < targets.len() ==> fully_kept(#[trigger] targets[i]),
    ensures
        target::targets_of_file(target::targets_file(targets)) == targets,
{
    saved_targets_read_back(targets);
    lemma_fully_kept(targets);
}

proof fn lemma_kept_value_same(value: Option<Seq<char>>)
    requires
        value != Some(Seq::<char>::empty()),
    ensures
        kept_value(value) == value,
{
    if let Some(v) = value {
        if v.len() == 0 {
            assert(v =~= Seq::<char>::empty());
        }
    }
}

proof fn lemma_fully_kept(targets: Seq<TargetView>)
    requires
        forall|i: int| 0 <= i < targets.len() ==> fully_kept(#[trigger] targets[i]),
    ensures
        filed_targets(targets) == targets,
    decreases targets.len(),
{
    if targets.len() > 0 {
        let init = targets.drop_last();
        assert forall|i: int| 0 <= i < init.len() implies fully_kept(#[trigger] init[i]) by {
            assert(init[i] == targets[i]);
        }
        lemma_fully_kept(init);
        let last = targets[targets.len() - 1];
        assert(fully_kept(last));
        lemma_kept_value_same(last.contextual_id);
        lemma_kept_value_same(last.serial_id);
        lemma_kept_value_same(last.persistent_id);
        lemma_kept_value_same(last.display_type);
        lemma_kept_value_same(last.resolution);
        assert(kept_label(last.label) == last.label);
        assert(filed(last) =~= last);
        assert(init.push(last) =~= targets);
    } else {
        assert(filed_targets(targets) =~= targets);
    }
}

// ---------------------------------------------------------------------------
// Saving and removing.
// ---------------------------------------------------------------------------
/// The target saved of a display has a stable id and stands for that display.
pub proof fn saved_target_fits_its_display(display: DisplayView)
    requires
        target::target_of(display) is Some,
    ensures
        target::target_of(display)->0.stable(),
        target::target_of(display)->0.fits(display),
{
}

/// Once a display has been added, it is one of the targets.
pub proof fn added_display_is_a_target(targets: Seq<TargetView>, display: DisplayView)
    requires
        target::target_of(display) is Some,
        target::saved_at(targets, target::target_of(display)->0) == targets.len(),
    ensures
        target::any_fits(target::toggled(targets, target::target_of(display)->0), display),
{
    let target = target::target_of(display)->0;
    let now = target::toggled(targets, target);
    assert(now[targets.len() as int] == target);
    assert(now[targets.len() as int].fits(display));
}

/// Adding a display and then toggling it again gives the old list back.
pub proof fn toggling_an_added_target_removes_it(targets: Seq<TargetView>, target: TargetView)
    requires
        target.stable(),
        target::saved_at(targets, target) == targets.len(),
    ensures
        target::toggled(target::toggled(targets, target), target) == targets,
{
    let now = target::toggled(targets, target);
    target::lemma_saved_at(targets, target);
    target::lemma_saved_at(now, target);
    assert(now[targets.len() as int] == target);
    assert(target.same_as(target));
    let at = target::saved_at(now, target);
    if at < targets.len() {
        assert(now[at] == targets[at]);
        assert(!targets[at].same_as(target));
    }
    assert(at == targets.len()) by {
        if at > targets.len() {
            assert(!now[targets.len() as int].same_as(target));
        }
    }
    assert(now.remove(at) =~= targets);
}

/// Toggling changes one entry and no other: the list is one longer or one
/// shorter.
pub proof fn toggling_changes_one_entry(targets: Seq<TargetView>, target: TargetView)
    ensures
        target::saved_at(targets, target) == targets.len() ==> target::toggled(targets, target) == targets.push(
            target,
        ),
        target::saved_at(targets, target) < targets.len() ==> target::toggled(targets, target)
            == targets.take(target::saved_at(targets, target)) + targets.skip(
            target::saved_at(targets, target) + 1,
        ),
{
    target::lemma_saved_at(targets, target);
    let at = target::saved_at(targets, target);
    if at < targets.len() {
        assert(targets.remove(at) =~= targets.take(at) + targets.skip(at + 1));
    }
}

} // verus!
