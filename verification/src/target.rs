//! Monitors saved as auto targets, and the file that keeps them.

use vstd::prelude::*;

use crate::display;
use crate::display::{
    has_stable_display_identity, same_contextual_display_identity, same_stable_display_identity,
    Display, DisplayView,
};
use crate::text;
use crate::text::{
    borrow_opt, cat3, cat5, chars_of, copy_opt, join, lines, owned, same, split, split_once, str_or,
    trim,
};

verus! {

/// A monitor by which the built-in panel is switched off.
#[derive(Debug, PartialEq, Eq)]
pub struct MonitorTarget {
    pub contextual_id: Option<String>,
    pub serial_id: Option<String>,
    pub persistent_id: Option<String>,
    pub display_type: Option<String>,
    pub resolution: Option<String>,
    pub label: String,
}

/// What a target holds, as plain text.
#[verifier::ext_equal]
pub struct TargetView {
    pub contextual_id: Option<Seq<char>>,
    pub serial_id: Option<Seq<char>>,
    pub persistent_id: Option<Seq<char>>,
    pub display_type: Option<Seq<char>>,
    pub resolution: Option<Seq<char>>,
    pub label: Seq<char>,
}

impl View for MonitorTarget {
    type V = TargetView;

    open spec fn view(&self) -> TargetView {
        TargetView {
            contextual_id: text::opt_text(self.contextual_id),
            serial_id: text::opt_text(self.serial_id),
            persistent_id: text::opt_text(self.persistent_id),
            display_type: text::opt_text(self.display_type),
            resolution: text::opt_text(self.resolution),
            label: self.label@,
        }
    }
}

/// The contents of each target of a list.
pub open spec fn target_views(v: Seq<MonitorTarget>) -> Seq<TargetView> {
    Seq::new(v.len(), |i: int| v[i]@)
}

impl Clone for MonitorTarget {
    fn clone(&self) -> (r: Self)
        ensures
            r@ == self@,
    {
        MonitorTarget {
            contextual_id: copy_opt(&self.contextual_id),
            serial_id: copy_opt(&self.serial_id),
            persistent_id: copy_opt(&self.persistent_id),
            display_type: copy_opt(&self.display_type),
            resolution: copy_opt(&self.resolution),
            label: self.label.clone(),
        }
    }
}

/// Copies of the targets of a list.
pub fn copy_targets(v: &Vec<MonitorTarget>) -> (r: Vec<MonitorTarget>)
    ensures
        target_views(r@) == target_views(v@),
{
    let mut r: Vec<MonitorTarget> = Vec::new();
    let mut i: usize = 0;
    while i < v.len()
        invariant
            i <= v@.len(),
            r@.len() == i,
            forall|k: int| 0 <= k < i ==> r@[k]@ == v@[k]@,
        decreases v@.len() - i,
    {
        r.push(v[i].clone());
        i = i + 1;
    }
    assert(target_views(r@) =~= target_views(v@));
    r
}

impl TargetView {
    /// There is a persistent id or a serial number to go by.
    pub open spec fn stable(self) -> bool {
        display::has_stable(self.persistent_id, self.serial_id)
    }

    /// The display is external, and the one that was saved.
    pub open spec fn fits(self, display: DisplayView) -> bool {
        !display.internal() && display::same_ids(
            self.persistent_id,
            self.serial_id,
            self.contextual_id,
            display.persistent_id,
            display.serial_id,
            display.contextual_id,
        )
    }

    /// The two were saved for one display.
    pub open spec fn same_as(self, other: TargetView) -> bool {
        display::same_ids(
            self.persistent_id,
            self.serial_id,
            self.contextual_id,
            other.persistent_id,
            other.serial_id,
            other.contextual_id,
        )
    }

    pub open spec fn summary_text(self) -> Seq<char> {
        self.label + " ctx:"@ + text::text_or(self.contextual_id, "-"@) + " serial:"@ + text::text_or(
            self.serial_id,
            "-"@,
        ) + " id:"@ + text::text_or(self.persistent_id, "-"@)
    }

    /// The display as it is listed while it is not connected.
    pub open spec fn absent_display(self) -> DisplayView {
        DisplayView {
            contextual_id: self.contextual_id,
            serial_id: self.serial_id,
            persistent_id: self.persistent_id,
            display_type: Some(text::text_or(self.display_type, "saved external display"@)),
            resolution: self.resolution,
            enabled: Some(false),
            remembered_absent: true,
            ..display::blank_display()
        }
    }
}

/// What is saved of a display: nothing of the built-in panel, nor of a display
/// without a stable id.
pub open spec fn target_of(display: DisplayView) -> Option<TargetView> {
    if display.internal() || !display.stable() {
        None
    } else {
        Some(
            TargetView {
                contextual_id: display.contextual_id,
                serial_id: display.serial_id,
                persistent_id: display.persistent_id,
                display_type: display.display_type,
                resolution: display.resolution,
                label: display.label_text(),
            },
        )
    }
}

impl MonitorTarget {
    /// The target that a display is saved as.
    pub fn from_display(display: &Display) -> (r: Option<MonitorTarget>)
        ensures
            match r {
                Some(target) => target_of(display@) == Some(target@),
                None => target_of(display@) is None,
            },
    {
        if display.is_internal() {
            return None;
        }
        if !display.has_stable_identity() {
            return None;
        }
        Some(
            MonitorTarget {
                contextual_id: copy_opt(&display.contextual_id),
                serial_id: copy_opt(&display.serial_id),
                persistent_id: copy_opt(&display.persistent_id),
                display_type: copy_opt(&display.display_type),
                resolution: copy_opt(&display.resolution),
                label: display.label(),
            },
        )
    }

    /// Whether the display is external and the one that was saved.
    pub fn matches_display(&self, display: &Display) -> (r: bool)
        ensures
            r == self@.fits(display@),
    {
        if display.is_internal() {
            return false;
        }
        if same_stable_display_identity(
            borrow_opt(&self.persistent_id),
            borrow_opt(&self.serial_id),
            borrow_opt(&display.persistent_id),
            borrow_opt(&display.serial_id),
        ) {
            return true;
        }
        if self.has_stable_identity() || display.has_stable_identity() {
            return false;
        }
        same_contextual_display_identity(
            borrow_opt(&self.contextual_id),
            borrow_opt(&display.contextual_id),
        )
    }

    /// Whether the two were saved for one display.
    pub fn same_identity(&self, other: &MonitorTarget) -> (r: bool)
        ensures
            r == self@.same_as(other@),
    {
        if same_stable_display_identity(
            borrow_opt(&self.persistent_id),
            borrow_opt(&self.serial_id),
            borrow_opt(&other.persistent_id),
            borrow_opt(&other.serial_id),
        ) {
            return true;
        }
        if self.has_stable_identity() || other.has_stable_identity() {
            return false;
        }
        same_contextual_display_identity(
            borrow_opt(&self.contextual_id),
            borrow_opt(&other.contextual_id),
        )
    }

    /// One line on the target.
    pub fn summary(&self) -> (r: String)
        ensures
            r@ == self@.summary_text(),
    {
        let mut r = cat5(
            self.label.as_str(),
            " ctx:",
            str_or(&self.contextual_id, "-"),
            " serial:",
            str_or(&self.serial_id, "-"),
        );
        r.append(" id:");
        r.append(str_or(&self.persistent_id, "-"));
        r
    }

    /// The display as it is listed while it is not connected.
    pub fn to_absent_display(&self) -> (r: Display)
        ensures
            r@ == self@.absent_display(),
    {
        let mut r = Display::default();
        r.contextual_id = copy_opt(&self.contextual_id);
        r.serial_id = copy_opt(&self.serial_id);
        r.persistent_id = copy_opt(&self.persistent_id);
        r.display_type = Some(owned(str_or(&self.display_type, "saved external display")));
        r.resolution = copy_opt(&self.resolution);
        r.enabled = Some(false);
        r.remembered_absent = true;
        r
    }

    /// Whether there is a persistent id or a serial number to go by.
    pub fn has_stable_identity(&self) -> (r: bool)
        ensures
            r == self@.stable(),
    {
        has_stable_display_identity(borrow_opt(&self.persistent_id), borrow_opt(&self.serial_id))
    }
}

/// One of the targets is the display.
pub open spec fn any_fits(targets: Seq<TargetView>, display: DisplayView) -> bool {
    exists|i: int| 0 <= i < targets.len() && #[trigger] targets[i].fits(display)
}

/// A display that is on is one of the targets.
pub open spec fn target_connected(targets: Seq<TargetView>, displays: Seq<DisplayView>) -> bool {
    exists|i: int|
        0 <= i < displays.len() && #[trigger] displays[i].on() && any_fits(targets, displays[i])
}

/// Whether one of the targets is the display.
pub fn has_target_for(targets: &Vec<MonitorTarget>, display: &Display) -> (r: bool)
    ensures
        r == any_fits(target_views(targets@), display@),
{
    let mut i: usize = 0;
    let ghost views = target_views(targets@);
    while i < targets.len()
        invariant
            i <= targets@.len(),
            views == target_views(targets@),
            forall|k: int| 0 <= k < i ==> !(#[trigger] views[k].fits(display@)),
        decreases targets@.len() - i,
    {
        assert(views[i as int] == targets@[i as int]@);
        if targets[i].matches_display(display) {
            return true;
        }
        i = i + 1;
    }
    false
}

/// Whether a display that is on is one of the targets.
pub fn has_target_on(targets: &Vec<MonitorTarget>, displays: &Vec<Display>) -> (r: bool)
    ensures
        r == target_connected(
            target_views(targets@),
            crate::display::display_views(displays@),
        ),
{
    let mut i: usize = 0;
    let ghost views = crate::display::display_views(displays@);
    while i < displays.len()
        invariant
            i <= displays@.len(),
            views == crate::display::display_views(displays@),
            forall|k: int|
                0 <= k < i ==> !(#[trigger] views[k].on() && any_fits(
                    target_views(targets@),
                    views[k],
                )),
        decreases displays@.len() - i,
    {
        assert(views[i as int] == displays@[i as int]@);
        if displays[i].is_enabled() && has_target_for(targets, &displays[i]) {
            return true;
        }
        i = i + 1;
    }
    false
}

// ---------------------------------------------------------------------------
// Fields of a line.
// ---------------------------------------------------------------------------
/// How one character of a value is written: a backslash, a tab and a line feed
/// are escaped.
pub open spec fn encoded_char(c: char) -> Seq<char> {
    if c == '\\' {
        seq!['\\', '\\']
    } else if c == '\t' {
        seq!['\\', 't']
    } else if c == '\n' {
        seq!['\\', 'n']
    } else {
        seq![c]
    }
}

/// How a value is written.
pub open spec fn encoded(s: Seq<char>) -> Seq<char>
    decreases s.len(),
{
    if s.len() == 0 {
        Seq::empty()
    } else {
        encoded_char(s[0]) + encoded(s.skip(1))
    }
}

/// The value that a written text stands for. A backslash before any character
/// that needs no escape stands for itself, as does one at the end.
pub open spec fn decoded(s: Seq<char>) -> Seq<char>
    decreases s.len(),
{
    if s.len() == 0 {
        Seq::empty()
    } else if s[0] != '\\' {
        seq![s[0]] + decoded(s.skip(1))
    } else if s.len() == 1 {
        seq!['\\']
    } else if s[1] == 't' {
        seq!['\t'] + decoded(s.skip(2))
    } else if s[1] == 'n' {
        seq!['\n'] + decoded(s.skip(2))
    } else if s[1] == '\\' {
        seq!['\\'] + decoded(s.skip(2))
    } else {
        seq!['\\', s[1]] + decoded(s.skip(2))
    }
}

/// Writes a value so that it holds neither tab nor line feed.
pub fn encode_field(value: &str) -> (r: String)
    ensures
        r@ == encoded(value@),
{
    let chars = chars_of(value);
    let mut r = String::new();
    let mut i: usize = 0;
    assert(chars@.skip(0) =~= chars@);
    assert(encoded(chars@) =~= r@ + encoded(chars@.skip(0)));
    while i < chars.len()
        invariant
            i <= chars@.len(),
            encoded(chars@) == r@ + encoded(chars@.skip(i as int)),
        decreases chars@.len() - i,
    {
        let c = chars[i];
        let ghost start = r@;
        let ghost rest = chars@.skip(i as int);
        assert(rest[0] == c);
        assert(rest.skip(1) =~= chars@.skip(i + 1));
        if c == '\\' {
            r.push('\\');
            r.push('\\');
        } else if c == '\t' {
            r.push('\\');
            r.push('t');
        } else if c == '\n' {
            r.push('\\');
            r.push('n');
        } else {
            r.push(c);
        }
        assert(r@ =~= start + encoded_char(c));
        assert(r@ + encoded(chars@.skip(i + 1)) =~= start + (encoded_char(c) + encoded(
            chars@.skip(i + 1),
        )));
        i = i + 1;
    }
    assert(chars@.skip(i as int) =~= Seq::empty());
    assert(r@ =~= encoded(chars@));
    r
}

/// Reads a written value.
pub fn decode_field(value: &str) -> (r: String)
    ensures
        r@ == decoded(value@),
{
    let chars = chars_of(value);
    let mut r = String::new();
    let mut i: usize = 0;
    assert(chars@.skip(0) =~= chars@);
    assert(decoded(chars@) =~= r@ + decoded(chars@.skip(0)));
    while i < chars.len()
        invariant
            i <= chars@.len(),
            decoded(chars@) == r@ + decoded(chars@.skip(i as int)),
        decreases chars@.len() - i,
    {
        let c = chars[i];
        let ghost start = r@;
        let ghost rest = chars@.skip(i as int);
        assert(rest[0] == c);
        if c != '\\' {
            r.push(c);
            i = i + 1;
            assert(rest.skip(1) =~= chars@.skip(i as int));
            assert(r@ + decoded(chars@.skip(i as int)) =~= start + decoded(rest));
        } else if i + 1 == chars.len() {
            r.push('\\');
            i = i + 1;
            assert(chars@.skip(i as int) =~= Seq::empty());
            assert(r@ + decoded(chars@.skip(i as int)) =~= start + decoded(rest));
        } else {
            let e = chars[i + 1];
            assert(rest[1] == e);
            if e == 't' {
                r.push('\t');
            } else if e == 'n' {
                r.push('\n');
            } else if e == '\\' {
                r.push('\\');
            } else {
                r.push('\\');
                r.push(e);
            }
            i = i + 2;
            assert(rest.skip(2) =~= chars@.skip(i as int));
            assert(r@ + decoded(chars@.skip(i as int)) =~= start + decoded(rest));
        }
    }
    assert(chars@.skip(i as int) =~= Seq::empty());
    assert(r@ =~= decoded(chars@));
    r
}

/// The value, unless it is empty.
pub open spec fn filled(value: Seq<char>) -> Option<Seq<char>> {
    if value.len() == 0 {
        None
    } else {
        Some(value)
    }
}

/// The value, unless it is empty.
pub fn non_empty(value: String) -> (r: Option<String>)
    ensures
        text::opt_text(r) == filled(value@),
{
    if value.as_str().is_empty() {
        None
    } else {
        Some(value)
    }
}

/// The field of a value, where there is one: its key, an equals sign, and the
/// value as it is written.
pub open spec fn field_of(key: Seq<char>, value: Option<Seq<char>>) -> Seq<Seq<char>> {
    match value {
        Some(v) => seq![key + "="@ + encoded(v)],
        None => Seq::empty(),
    }
}

/// Adds the field of a value, where there is one.
pub fn push_target_field(fields: &mut Vec<String>, key: &str, value: Option<&str>)
    ensures
        text::texts(final(fields)@) == text::texts(old(fields)@) + field_of(key@, text::opt_str(value)),
{
    let ghost start = fields@;
    if let Some(v) = value {
        let field = cat3(key, "=", encode_field(v).as_str());
        proof {
            text::lemma_texts_push(fields@, field);
        }
        fields.push(field);
        assert(text::texts(fields@) =~= text::texts(start) + field_of(key@, text::opt_str(value)));
    } else {
        assert(text::texts(fields@) =~= text::texts(start) + field_of(key@, text::opt_str(value)));
    }
}

// ---------------------------------------------------------------------------
// Lines of the file.
// ---------------------------------------------------------------------------
/// A target of which no field has been read.
pub open spec fn blank_target() -> TargetView {
    TargetView {
        contextual_id: None,
        serial_id: None,
        persistent_id: None,
        display_type: None,
        resolution: None,
        label: "saved display"@,
    }
}

/// The target with the value of one key.
pub open spec fn with_value(target: TargetView, key: Seq<char>, value: Seq<char>) -> TargetView {
    if key == "contextual"@ {
        TargetView { contextual_id: filled(value), ..target }
    } else if key == "serial"@ {
        TargetView { serial_id: filled(value), ..target }
    } else if key == "persistent"@ {
        TargetView { persistent_id: filled(value), ..target }
    } else if key == "type"@ {
        TargetView { display_type: filled(value), ..target }
    } else if key == "resolution"@ {
        TargetView { resolution: filled(value), ..target }
    } else if key == "label"@ && value.len() > 0 {
        TargetView { label: value, ..target }
    } else {
        target
    }
}

/// The target with one field of its line. What has no equals sign is passed over.
pub open spec fn with_field(target: TargetView, field: Seq<char>) -> TargetView {
    match text::parted(field, '=') {
        Some(p) => with_value(target, p.0, decoded(p.1)),
        None => target,
    }
}

/// The target that the fields of a line describe; a later field wins.
pub open spec fn target_of_fields(fields: Seq<Seq<char>>) -> TargetView
    decreases fields.len(),
{
    if fields.len() == 0 {
        blank_target()
    } else {
        with_field(target_of_fields(fields.drop_last()), fields.last())
    }
}

/// The target that a line describes, if it has a stable id.
pub open spec fn target_of_line(line: Seq<char>) -> Option<TargetView> {
    let target = target_of_fields(text::pieces(line, '\t'));
    if target.stable() {
        Some(target)
    } else {
        None
    }
}

/// The fields of a target's line.
pub open spec fn target_fields(target: TargetView) -> Seq<Seq<char>> {
    field_of("contextual"@, target.contextual_id) + field_of("serial"@, target.serial_id)
        + field_of("persistent"@, target.persistent_id) + field_of("type"@, target.display_type)
        + field_of("resolution"@, target.resolution) + field_of("label"@, Some(target.label))
}

/// The line of a target.
pub open spec fn target_line(target: TargetView) -> Seq<char> {
    text::joined(target_fields(target), "\t"@)
}

/// Reads the line of a target.
pub fn parse_target_line(line: &str) -> (r: Option<MonitorTarget>)
    ensures
        match r {
            Some(target) => target_of_line(line@) == Some(target@),
            None => target_of_line(line@) is None,
        },
{
    let mut target = MonitorTarget {
        contextual_id: None,
        serial_id: None,
        persistent_id: None,
        display_type: None,
        resolution: None,
        label: owned("saved display"),
    };
    let fields = split(line, '\t');
    let ghost all = text::texts(fields@);
    let mut i: usize = 0;
    assert(all.take(0) =~= Seq::empty());
    while i < fields.len()
        invariant
            i <= fields@.len(),
            all == text::texts(fields@),
            target@ == target_of_fields(all.take(i as int)),
        decreases fields@.len() - i,
    {
        proof {
            assert(all.take(i + 1).drop_last() =~= all.take(i as int));
            assert(all.take(i + 1).last() == fields@[i as int]@);
        }
        if let Some((key, raw_value)) = split_once(fields[i].as_str(), '=') {
            let value = decode_field(raw_value.as_str());
            if same(key.as_str(), "contextual") {
                target.contextual_id = non_empty(value);
            } else if same(key.as_str(), "serial") {
                target.serial_id = non_empty(value);
            } else if same(key.as_str(), "persistent") {
                target.persistent_id = non_empty(value);
            } else if same(key.as_str(), "type") {
                target.display_type = non_empty(value);
            } else if same(key.as_str(), "resolution") {
                target.resolution = non_empty(value);
            } else if same(key.as_str(), "label") {
                if !value.as_str().is_empty() {
                    target.label = value;
                }
            }
        }
        i = i + 1;
    }
    assert(all.take(i as int) =~= all);
    if !target.has_stable_identity() {
        None
    } else {
        Some(target)
    }
}

/// Writes the line of a target.
pub fn target_to_line(target: &MonitorTarget) -> (r: String)
    ensures
        r@ == target_line(target@),
{
    let mut fields: Vec<String> = Vec::new();
    push_target_field(&mut fields, "contextual", borrow_opt(&target.contextual_id));
    push_target_field(&mut fields, "serial", borrow_opt(&target.serial_id));
    push_target_field(&mut fields, "persistent", borrow_opt(&target.persistent_id));
    push_target_field(&mut fields, "type", borrow_opt(&target.display_type));
    push_target_field(&mut fields, "resolution", borrow_opt(&target.resolution));
    push_target_field(&mut fields, "label", Some(target.label.as_str()));
    assert(text::texts(fields@) =~= target_fields(target@));
    join(&fields, "\t")
}

// ---------------------------------------------------------------------------
// The file.
// ---------------------------------------------------------------------------
/// The targets that the lines of the file describe. A line that describes none
/// is passed over.
pub open spec fn targets_of_lines(lines: Seq<Seq<char>>) -> Seq<TargetView>
    decreases lines.len(),
{
    if lines.len() == 0 {
        Seq::empty()
    } else {
        let earlier = targets_of_lines(lines.drop_last());
        let line = text::trimmed(lines.last());
        if line.len() == 0 {
            earlier
        } else {
            match target_of_line(line) {
                Some(target) => earlier.push(target),
                None => earlier,
            }
        }
    }
}

/// The targets that the file holds; none where there is no file.
pub open spec fn targets_of_file(file: Option<Seq<char>>) -> Seq<TargetView> {
    match file {
        Some(raw) => targets_of_lines(text::text_lines(raw)),
        None => Seq::empty(),
    }
}

/// The text of the file for some targets.
pub open spec fn targets_body(targets: Seq<TargetView>) -> Seq<char>
    decreases targets.len(),
{
    if targets.len() == 0 {
        Seq::empty()
    } else {
        targets_body(targets.drop_last()) + target_line(targets.last()) + "\n"@
    }
}

/// The file for some targets; no file for none.
pub open spec fn targets_file(targets: Seq<TargetView>) -> Option<Seq<char>> {
    if targets.len() == 0 {
        None
    } else {
        Some(targets_body(targets))
    }
}

/// Reads the targets from the text of their file, if there is such a file.
pub fn load_targets(file: Option<&str>) -> (r: Vec<MonitorTarget>)
    ensures
        target_views(r@) == targets_of_file(text::opt_str(file)),
{
    let mut targets: Vec<MonitorTarget> = Vec::new();
    let raw = match file {
        Some(raw) => raw,
        None => {
            assert(target_views(targets@) =~= Seq::empty());
            return targets;
        },
    };
    let all = lines(raw);
    let ghost all_texts = text::texts(all@);
    let mut i: usize = 0;
    assert(all_texts.take(0) =~= Seq::empty());
    assert(target_views(targets@) =~= Seq::empty());
    while i < all.len()
        invariant
            i <= all@.len(),
            all_texts == text::texts(all@),
            target_views(targets@) == targets_of_lines(all_texts.take(i as int)),
        decreases all@.len() - i,
    {
        proof {
            assert(all_texts.take(i + 1).drop_last() =~= all_texts.take(i as int));
            assert(all_texts.take(i + 1).last() == all@[i as int]@);
        }
        let line = trim(all[i].as_str());
        if !line.as_str().is_empty() {
            if let Some(target) = parse_target_line(line.as_str()) {
                let ghost start = targets@;
                targets.push(target);
                assert(target_views(targets@) =~= target_views(start).push(target@));
            }
        }
        i = i + 1;
    }
    assert(all_texts.take(i as int) =~= all_texts);
    targets
}

/// The text to keep for some targets: none where the file is to go.
pub fn save_targets(targets: &Vec<MonitorTarget>) -> (r: Option<String>)
    ensures
        text::opt_text(r) == targets_file(target_views(targets@)),
{
    if targets.len() == 0 {
        return None;
    }
    let mut body = String::new();
    let mut i: usize = 0;
    let ghost views = target_views(targets@);
    assert(views.take(0) =~= Seq::empty());
    while i < targets.len()
        invariant
            i <= targets@.len(),
            views == target_views(targets@),
            body@ == targets_body(views.take(i as int)),
        decreases targets@.len() - i,
    {
        proof {
            assert(views.take(i + 1).drop_last() =~= views.take(i as int));
            assert(views.take(i + 1).last() == targets@[i as int]@);
        }
        body.append(target_to_line(&targets[i]).as_str());
        body.append("\n");
        i = i + 1;
    }
    assert(views.take(i as int) =~= views);
    Some(body)
}

// ---------------------------------------------------------------------------
// Saving and removing.
// ---------------------------------------------------------------------------
/// The first of the targets that was saved for the same display, or how many
/// there are.
pub open spec fn saved_at(targets: Seq<TargetView>, target: TargetView) -> int
    decreases targets.len(),
{
    if targets.len() == 0 || targets[0].same_as(target) {
        0
    } else {
        1 + saved_at(targets.skip(1), target)
    }
}

/// The targets with `target` removed where it was saved, and added where not.
pub open spec fn toggled(targets: Seq<TargetView>, target: TargetView) -> Seq<TargetView> {
    let at = saved_at(targets, target);
    if at < targets.len() {
        targets.remove(at)
    } else {
        targets.push(target)
    }
}

pub proof fn lemma_saved_at(targets: Seq<TargetView>, target: TargetView)
    ensures
        0 <= saved_at(targets, target) <= targets.len(),
        saved_at(targets, target) < targets.len() ==> targets[saved_at(targets, target)].same_as(
            target,
        ),
        forall|i: int|
            0 <= i < saved_at(targets, target) ==> !(#[trigger] targets[i].same_as(target)),
    decreases targets.len(),
{
    if targets.len() > 0 && !targets[0].same_as(target) {
        let rest = targets.skip(1);
        lemma_saved_at(rest, target);
        assert forall|i: int| 0 <= i < saved_at(targets, target) implies !(
        #[trigger] targets[i].same_as(target)) by {
            if i > 0 {
                assert(rest[i - 1] == targets[i]);
            }
        }
    }
}

/// Saves the display's target, or removes it where it is saved already: the
/// new list, and whether it was added. A display that cannot be a target is
/// refused.
pub fn toggle_target_for_display(display: &Display, file: Option<&str>) -> (r: Result<
    (Vec<MonitorTarget>, bool),
    String,
>)
    ensures
        match r {
            Ok((targets, added)) => {
                let saved = targets_of_file(text::opt_str(file));
                &&& target_of(display@) is Some
                &&& target_views(targets@) == toggled(saved, target_of(display@)->0)
                &&& added == (saved_at(saved, target_of(display@)->0) == saved.len())
            },
            Err(error) => target_of(display@) is None && error@
                == "selected display cannot be used as an auto target"@,
        },
{
    let target = match MonitorTarget::from_display(display) {
        Some(target) => target,
        None => return Err(owned("selected display cannot be used as an auto target")),
    };
    let mut targets = load_targets(file);
    let ghost saved = target_views(targets@);
    let mut i: usize = 0;
    while i < targets.len() && !targets[i].same_identity(&target)
        invariant
            i <= targets@.len(),
            saved == target_views(targets@),
            forall|k: int| 0 <= k < i ==> !(#[trigger] saved[k].same_as(target@)),
        decreases targets@.len() - i,
    {
        assert(saved[i as int] == targets@[i as int]@);
        i = i + 1;
    }
    proof {
        lemma_saved_at(saved, target@);
        if saved_at(saved, target@) < i {
            assert(!saved[saved_at(saved, target@)].same_as(target@));
        }
        if i < targets@.len() {
            assert(saved[i as int] == targets@[i as int]@);
        }
        assert(saved_at(saved, target@) == i);
    }
    if i < targets.len() {
        let _removed = targets.remove(i);
        assert(target_views(targets@) =~= saved.remove(i as int));
        Ok((targets, false))
    } else {
        targets.push(target);
        assert(target_views(targets@) =~= saved.push(target@));
        Ok((targets, true))
    }
}

} // verus!
