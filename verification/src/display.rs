//! A display as `displayplacer` reports it, and when two reports are of the
//! same display.

use vstd::prelude::*;

use crate::number;
use crate::number::{bool_str, parse_u32};
use crate::text;
use crate::text::{
    borrow_opt, cat2, cat5, contains, copy_opt, same, str_or, to_lower, trim, trim_start_char,
};

verus! {

/// The number by which the window server addresses a display. It is handed out
/// anew when displays come and go.
pub type CGDirectDisplayID = u32;

/// One display.
#[derive(Debug)]
pub struct Display {
    pub persistent_id: Option<String>,
    pub contextual_id: Option<String>,
    pub serial_id: Option<String>,
    pub display_type: Option<String>,
    pub resolution: Option<String>,
    pub hertz: Option<String>,
    pub color_depth: Option<String>,
    pub scaling: Option<String>,
    pub origin: Option<String>,
    pub rotation: Option<String>,
    pub enabled: Option<bool>,
    pub is_main: bool,
    pub remembered_absent: bool,
}

/// What a display holds, as plain text.
#[verifier::ext_equal]
pub struct DisplayView {
    pub persistent_id: Option<Seq<char>>,
    pub contextual_id: Option<Seq<char>>,
    pub serial_id: Option<Seq<char>>,
    pub display_type: Option<Seq<char>>,
    pub resolution: Option<Seq<char>>,
    pub hertz: Option<Seq<char>>,
    pub color_depth: Option<Seq<char>>,
    pub scaling: Option<Seq<char>>,
    pub origin: Option<Seq<char>>,
    pub rotation: Option<Seq<char>>,
    pub enabled: Option<bool>,
    pub is_main: bool,
    pub remembered_absent: bool,
}

impl View for Display {
    type V = DisplayView;

    open spec fn view(&self) -> DisplayView {
        DisplayView {
            persistent_id: text::opt_text(self.persistent_id),
            contextual_id: text::opt_text(self.contextual_id),
            serial_id: text::opt_text(self.serial_id),
            display_type: text::opt_text(self.display_type),
            resolution: text::opt_text(self.resolution),
            hertz: text::opt_text(self.hertz),
            color_depth: text::opt_text(self.color_depth),
            scaling: text::opt_text(self.scaling),
            origin: text::opt_text(self.origin),
            rotation: text::opt_text(self.rotation),
            enabled: self.enabled,
            is_main: self.is_main,
            remembered_absent: self.remembered_absent,
        }
    }
}

/// A display of which nothing is known.
pub open spec fn blank_display() -> DisplayView {
    DisplayView {
        persistent_id: None,
        contextual_id: None,
        serial_id: None,
        display_type: None,
        resolution: None,
        hertz: None,
        color_depth: None,
        scaling: None,
        origin: None,
        rotation: None,
        enabled: None,
        is_main: false,
        remembered_absent: false,
    }
}

/// The contents of each display of a list.
pub open spec fn display_views(v: Seq<Display>) -> Seq<DisplayView> {
    Seq::new(v.len(), |i: int| v[i]@)
}

impl Default for Display {
    fn default() -> (r: Self)
        ensures
            r@ == blank_display(),
    {
        Display {
            persistent_id: None,
            contextual_id: None,
            serial_id: None,
            display_type: None,
            resolution: None,
            hertz: None,
            color_depth: None,
            scaling: None,
            origin: None,
            rotation: None,
            enabled: None,
            is_main: false,
            remembered_absent: false,
        }
    }
}

impl Clone for Display {
    fn clone(&self) -> (r: Self)
        ensures
            r@ == self@,
    {
        Display {
            persistent_id: copy_opt(&self.persistent_id),
            contextual_id: copy_opt(&self.contextual_id),
            serial_id: copy_opt(&self.serial_id),
            display_type: copy_opt(&self.display_type),
            resolution: copy_opt(&self.resolution),
            hertz: copy_opt(&self.hertz),
            color_depth: copy_opt(&self.color_depth),
            scaling: copy_opt(&self.scaling),
            origin: copy_opt(&self.origin),
            rotation: copy_opt(&self.rotation),
            enabled: self.enabled,
            is_main: self.is_main,
            remembered_absent: self.remembered_absent,
        }
    }
}

/// Copies of the displays of a list.
pub fn copy_displays(v: &Vec<Display>) -> (r: Vec<Display>)
    ensures
        display_views(r@) == display_views(v@),
{
    let mut r: Vec<Display> = Vec::new();
    let mut i: usize = 0;
    while i < v.len()
        invariant
            i <= v@.len(),
            r@.len() == i,
            forall|k: int| 0 <= k < i ==> r@[k]@ == v@[k]@,
        decreases v@.len() - i,
    {
        r.push(v[i].clone());
        i = i + 1;
    }
    assert(display_views(r@) =~= display_views(v@));
    r
}

// ---------------------------------------------------------------------------
// Identity.
// ---------------------------------------------------------------------------
/// An id without surrounding blanks, without the `s` (then the `S`) that serial
/// numbers carry in front, and in small letters.
pub open spec fn normal_id(value: Seq<char>) -> Seq<char> {
    text::lowered(text::without_leading(text::without_leading(text::trimmed(value), 's'), 'S'))
}

/// An id in the form in which ids are compared.
pub fn normalize_id(value: &str) -> (r: String)
    ensures
        r@ == normal_id(value@),
{
    let bare = trim(value);
    let no_small = trim_start_char(bare.as_str(), 's');
    let no_big = trim_start_char(no_small.as_str(), 'S');
    to_lower(no_big.as_str())
}

/// The persistent id by which a display is known, if it says anything.
pub open spec fn persistent_identity(value: Option<Seq<char>>) -> Option<Seq<char>> {
    match value {
        Some(v) => {
            let normal = text::lowered(text::trimmed(v));
            if normal.len() == 0 || normal == "-"@ {
                None
            } else {
                Some(normal)
            }
        },
        None => None,
    }
}

/// The serial number by which a display is known, if it says anything.
pub open spec fn serial_identity(value: Option<Seq<char>>) -> Option<Seq<char>> {
    match value {
        Some(v) => {
            let normal = normal_id(v);
            if normal.len() == 0 || normal == "-"@ || normal == "0"@ || normal == "unknown"@
                || normal == "no serial"@ {
                None
            } else {
                Some(normal)
            }
        },
        None => None,
    }
}

/// Both are known, and they are equal.
pub open spec fn both_equal(left: Option<Seq<char>>, right: Option<Seq<char>>) -> bool {
    &&& left is Some
    &&& right is Some
    &&& left->0 == right->0
}

/// There is a persistent id or a serial number to go by.
pub open spec fn has_stable(persistent: Option<Seq<char>>, serial: Option<Seq<char>>) -> bool {
    persistent_identity(persistent) is Some || serial_identity(serial) is Some
}

/// The persistent ids agree, or the serial numbers do.
pub open spec fn same_stable(
    left_persistent: Option<Seq<char>>,
    left_serial: Option<Seq<char>>,
    right_persistent: Option<Seq<char>>,
    right_serial: Option<Seq<char>>,
) -> bool {
    ||| both_equal(persistent_identity(left_persistent), persistent_identity(right_persistent))
    ||| both_equal(serial_identity(left_serial), serial_identity(right_serial))
}

/// Both have a contextual id, and the ids agree.
pub open spec fn same_contextual(left: Option<Seq<char>>, right: Option<Seq<char>>) -> bool {
    &&& left is Some
    &&& right is Some
    &&& normal_id(left->0) == normal_id(right->0)
}

/// One display, seen through its three ids. The contextual id counts only where
/// neither side has a stable one.
pub open spec fn same_ids(
    left_persistent: Option<Seq<char>>,
    left_serial: Option<Seq<char>>,
    left_contextual: Option<Seq<char>>,
    right_persistent: Option<Seq<char>>,
    right_serial: Option<Seq<char>>,
    right_contextual: Option<Seq<char>>,
) -> bool {
    if same_stable(left_persistent, left_serial, right_persistent, right_serial) {
        true
    } else if has_stable(left_persistent, left_serial) || has_stable(
        right_persistent,
        right_serial,
    ) {
        false
    } else {
        same_contextual(left_contextual, right_contextual)
    }
}

impl DisplayView {
    /// The type says that this is the built-in panel.
    pub open spec fn internal(self) -> bool {
        text::has_text(text::lowered(text::text_or(self.display_type, ""@)), "built in"@)
    }

    /// The display is known to be on.
    pub open spec fn on(self) -> bool {
        self.enabled == Some(true)
    }

    /// There is a persistent id or a serial number to go by.
    pub open spec fn stable(self) -> bool {
        has_stable(self.persistent_id, self.serial_id)
    }

    /// `needle` is one of the three ids.
    pub open spec fn answers_to(self, needle: Seq<char>) -> bool {
        ||| self.persistent_id is Some && normal_id(self.persistent_id->0) == normal_id(needle)
        ||| self.contextual_id is Some && normal_id(self.contextual_id->0) == normal_id(needle)
        ||| self.serial_id is Some && normal_id(self.serial_id->0) == normal_id(needle)
    }

    /// The two are reports of one display.
    pub open spec fn same_as(self, other: DisplayView) -> bool {
        same_ids(
            self.persistent_id,
            self.serial_id,
            self.contextual_id,
            other.persistent_id,
            other.serial_id,
            other.contextual_id,
        )
    }

    /// The contextual id as a number.
    pub open spec fn number(self) -> Option<CGDirectDisplayID> {
        match self.contextual_id {
            Some(id) => match number::u32_value(id) {
                Ok(n) => Some(n),
                Err(_) => None,
            },
            None => None,
        }
    }

    pub open spec fn brief_text(self) -> Seq<char> {
        text::text_or(self.persistent_id, "<no-persistent-id>"@) + " "@ + text::text_or(
            self.serial_id,
            "<no-serial-id>"@,
        ) + " "@ + text::text_or(self.display_type, "<unknown-type>"@) + " enabled:"@ + enabled_text(
            self.enabled,
        ) + (if self.is_main {
            " main"@
        } else {
            ""@
        })
    }

    pub open spec fn label_text(self) -> Seq<char> {
        text::text_or(self.display_type, "unknown display"@) + " "@ + text::text_or(
            self.resolution,
            "unknown resolution"@,
        ) + " "@ + text::text_or(self.serial_id, "no serial"@)
    }
}

/// `true`, `false` or `unknown`.
pub open spec fn enabled_text(enabled: Option<bool>) -> Seq<char> {
    match enabled {
        Some(b) => number::bool_text(b),
        None => "unknown"@,
    }
}

/// The persistent id by which a display is known, if it says anything.
pub fn normalized_persistent_identity(value: Option<&str>) -> (r: Option<String>)
    ensures
        text::opt_text(r) == persistent_identity(text::opt_str(value)),
{
    match value {
        Some(v) => {
            let bare = trim(v);
            let normal = to_lower(bare.as_str());
            if normal.as_str().is_empty() || same(normal.as_str(), "-") {
                None
            } else {
                Some(normal)
            }
        },
        None => None,
    }
}

/// The serial number by which a display is known, if it says anything.
pub fn normalized_serial_identity(value: Option<&str>) -> (r: Option<String>)
    ensures
        text::opt_text(r) == serial_identity(text::opt_str(value)),
{
    match value {
        Some(v) => {
            let normal = normalize_id(v);
            if normal.as_str().is_empty() || same(normal.as_str(), "-") || same(
                normal.as_str(),
                "0",
            ) || same(normal.as_str(), "unknown") || same(normal.as_str(), "no serial") {
                None
            } else {
                Some(normal)
            }
        },
        None => None,
    }
}

/// Whether both are known and equal.
fn known_equal(left: &Option<String>, right: &Option<String>) -> (r: bool)
    ensures
        r == both_equal(text::opt_text(*left), text::opt_text(*right)),
{
    match (left, right) {
        (Some(l), Some(r)) => same(l.as_str(), r.as_str()),
        _ => false,
    }
}

/// Whether there is a persistent id or a serial number to go by.
pub fn has_stable_display_identity(
    persistent_id: Option<&str>,
    serial_id: Option<&str>,
) -> (r: bool)
    ensures
        r == has_stable(text::opt_str(persistent_id), text::opt_str(serial_id)),
{
    normalized_persistent_identity(persistent_id).is_some() || normalized_serial_identity(
        serial_id,
    ).is_some()
}

/// Whether the persistent ids agree, or the serial numbers do.
pub fn same_stable_display_identity(
    left_persistent: Option<&str>,
    left_serial: Option<&str>,
    right_persistent: Option<&str>,
    right_serial: Option<&str>,
) -> (r: bool)
    ensures
        r == same_stable(
            text::opt_str(left_persistent),
            text::opt_str(left_serial),
            text::opt_str(right_persistent),
            text::opt_str(right_serial),
        ),
{
    known_equal(
        &normalized_persistent_identity(left_persistent),
        &normalized_persistent_identity(right_persistent),
    ) || known_equal(
        &normalized_serial_identity(left_serial),
        &normalized_serial_identity(right_serial),
    )
}

/// Whether both have a contextual id and the ids agree.
pub fn same_contextual_display_identity(left: Option<&str>, right: Option<&str>) -> (r: bool)
    ensures
        r == same_contextual(text::opt_str(left), text::opt_str(right)),
{
    match (left, right) {
        (Some(l), Some(r)) => same(normalize_id(l).as_str(), normalize_id(r).as_str()),
        _ => false,
    }
}

/// Whether the two are reports of one display.
pub fn same_display_identity(left: &Display, right: &Display) -> (r: bool)
    ensures
        r == left@.same_as(right@),
{
    if same_stable_display_identity(
        borrow_opt(&left.persistent_id),
        borrow_opt(&left.serial_id),
        borrow_opt(&right.persistent_id),
        borrow_opt(&right.serial_id),
    ) {
        return true;
    }
    if left.has_stable_identity() || right.has_stable_identity() {
        return false;
    }
    same_contextual_display_identity(
        borrow_opt(&left.contextual_id),
        borrow_opt(&right.contextual_id),
    )
}

impl Display {
    /// Whether this is the built-in panel.
    pub fn is_internal(&self) -> (r: bool)
        ensures
            r == self@.internal(),
    {
        contains(to_lower(str_or(&self.display_type, "")).as_str(), "built in")
    }

    /// Whether the display is known to be on.
    pub fn is_enabled(&self) -> (r: bool)
        ensures
            r == self@.on(),
    {
        self.enabled.unwrap_or(false)
    }

    /// The id that survives a reconnection.
    pub fn stable_id(&self) -> (r: Option<&str>)
        ensures
            text::opt_str(r) == self@.persistent_id,
    {
        borrow_opt(&self.persistent_id)
    }

    /// Whether `needle` is one of the display's ids.
    pub fn matches(&self, needle: &str) -> (r: bool)
        ensures
            r == self@.answers_to(needle@),
    {
        let normalized = normalize_id(needle);
        id_is(&self.persistent_id, &normalized) || id_is(&self.contextual_id, &normalized) || id_is(
            &self.serial_id,
            &normalized,
        )
    }

    /// One line on the display.
    pub fn brief(&self) -> (r: String)
        ensures
            r@ == self@.brief_text(),
    {
        let ids = cat5(
            str_or(&self.persistent_id, "<no-persistent-id>"),
            " ",
            str_or(&self.serial_id, "<no-serial-id>"),
            " ",
            str_or(&self.display_type, "<unknown-type>"),
        );
        let state = match self.enabled {
            Some(b) => bool_str(b),
            None => "unknown",
        };
        let mut r = cat2(ids.as_str(), " enabled:");
        r.append(state);
        r.append(
            if self.is_main {
                " main"
            } else {
                ""
            },
        );
        r
    }

    /// The display's type, resolution and serial number.
    pub fn label(&self) -> (r: String)
        ensures
            r@ == self@.label_text(),
    {
        cat5(
            str_or(&self.display_type, "unknown display"),
            " ",
            str_or(&self.resolution, "unknown resolution"),
            " ",
            str_or(&self.serial_id, "no serial"),
        )
    }

    /// The contextual id as a number.
    pub fn contextual_display_id(&self) -> (r: Option<CGDirectDisplayID>)
        ensures
            r == self@.number(),
    {
        match &self.contextual_id {
            Some(id) => match parse_u32(id.as_str()) {
                Ok(n) => Some(n),
                Err(_) => None,
            },
            None => None,
        }
    }

    /// Whether there is a persistent id or a serial number to go by.
    pub fn has_stable_identity(&self) -> (r: bool)
        ensures
            r == self@.stable(),
    {
        has_stable_display_identity(borrow_opt(&self.persistent_id), borrow_opt(&self.serial_id))
    }
}

/// Whether an id is known and comes to `normalized`.
fn id_is(id: &Option<String>, normalized: &String) -> (r: bool)
    ensures
        r == (text::opt_text(*id) is Some && normal_id(text::opt_text(*id)->0) == normalized@),
{
    match id {
        Some(value) => same(normalize_id(value.as_str()).as_str(), normalized.as_str()),
        None => false,
    }
}

// ---------------------------------------------------------------------------
// Questions about a list of displays.
// ---------------------------------------------------------------------------
/// The built-in panel is among the displays, and on.
pub open spec fn internal_on(displays: Seq<DisplayView>) -> bool {
    exists|i: int| 0 <= i < displays.len() && #[trigger] displays[i].internal() && displays[i].on()
}

/// A display other than the built-in panel is on.
pub open spec fn external_on(displays: Seq<DisplayView>) -> bool {
    exists|i: int| 0 <= i < displays.len() && !(#[trigger] displays[i].internal()) && displays[i].on()
}

/// Some display is on.
pub open spec fn any_on(displays: Seq<DisplayView>) -> bool {
    exists|i: int| 0 <= i < displays.len() && #[trigger] displays[i].on()
}

/// The built-in panel is among the displays.
pub open spec fn any_internal(displays: Seq<DisplayView>) -> bool {
    exists|i: int| 0 <= i < displays.len() && #[trigger] displays[i].internal()
}

/// A display that is on has `needle` as one of its ids.
pub open spec fn answering_on(displays: Seq<DisplayView>, needle: Seq<char>) -> bool {
    exists|i: int|
        0 <= i < displays.len() && #[trigger] displays[i].answers_to(needle) && displays[i].on()
}

/// How many displays are on.
pub open spec fn count_on(displays: Seq<DisplayView>) -> nat
    decreases displays.len(),
{
    if displays.len() == 0 {
        0
    } else {
        count_on(displays.drop_last()) + (if displays.last().on() {
            1nat
        } else {
            0nat
        })
    }
}

/// Whether the built-in panel is among the displays, and on.
pub fn has_internal_on(displays: &Vec<Display>) -> (r: bool)
    ensures
        r == internal_on(display_views(displays@)),
{
    let mut i: usize = 0;
    let ghost views = display_views(displays@);
    while i < displays.len()
        invariant
            i <= displays@.len(),
            views == display_views(displays@),
            forall|k: int| 0 <= k < i ==> !(#[trigger] views[k].internal() && views[k].on()),
        decreases displays@.len() - i,
    {
        assert(views[i as int] == displays@[i as int]@);
        if displays[i].is_internal() && displays[i].is_enabled() {
            return true;
        }
        i = i + 1;
    }
    false
}

/// Whether a display other than the built-in panel is on.
pub fn has_external_on(displays: &Vec<Display>) -> (r: bool)
    ensures
        r == external_on(display_views(displays@)),
{
    let mut i: usize = 0;
    let ghost views = display_views(displays@);
    while i < displays.len()
        invariant
            i <= displays@.len(),
            views == display_views(displays@),
            forall|k: int| 0 <= k < i ==> !(!(#[trigger] views[k].internal()) && views[k].on()),
        decreases displays@.len() - i,
    {
        assert(views[i as int] == displays@[i as int]@);
        if !displays[i].is_internal() && displays[i].is_enabled() {
            return true;
        }
        i = i + 1;
    }
    false
}

/// Whether some display is on.
pub fn has_any_on(displays: &Vec<Display>) -> (r: bool)
    ensures
        r == any_on(display_views(displays@)),
{
    let mut i: usize = 0;
    let ghost views = display_views(displays@);
    while i < displays.len()
        invariant
            i <= displays@.len(),
            views == display_views(displays@),
            forall|k: int| 0 <= k < i ==> !(#[trigger] views[k].on()),
        decreases displays@.len() - i,
    {
        assert(views[i as int] == displays@[i as int]@);
        if displays[i].is_enabled() {
            return true;
        }
        i = i + 1;
    }
    false
}

/// Whether the built-in panel is among the displays.
pub fn has_any_internal(displays: &Vec<Display>) -> (r: bool)
    ensures
        r == any_internal(display_views(displays@)),
{
    let mut i: usize = 0;
    let ghost views = display_views(displays@);
    while i < displays.len()
        invariant
            i <= displays@.len(),
            views == display_views(displays@),
            forall|k: int| 0 <= k < i ==> !(#[trigger] views[k].internal()),
        decreases displays@.len() - i,
    {
        assert(views[i as int] == displays@[i as int]@);
        if displays[i].is_internal() {
            return true;
        }
        i = i + 1;
    }
    false
}

/// Whether a display that is on has `needle` as one of its ids.
pub fn has_answering_on(displays: &Vec<Display>, needle: &str) -> (r: bool)
    ensures
        r == answering_on(display_views(displays@), needle@),
{
    let mut i: usize = 0;
    let ghost views = display_views(displays@);
    while i < displays.len()
        invariant
            i <= displays@.len(),
            views == display_views(displays@),
            forall|k: int|
                0 <= k < i ==> !(#[trigger] views[k].answers_to(needle@) && views[k].on()),
        decreases displays@.len() - i,
    {
        assert(views[i as int] == displays@[i as int]@);
        if displays[i].matches(needle) && displays[i].is_enabled() {
            return true;
        }
        i = i + 1;
    }
    false
}

/// How many displays are on.
pub fn enabled_count(displays: &Vec<Display>) -> (r: usize)
    ensures
        r == count_on(display_views(displays@)),
        r <= displays@.len(),
{
    let mut i: usize = 0;
    let mut n: usize = 0;
    let ghost views = display_views(displays@);
    assert(views.take(0) =~= Seq::empty());
    while i < displays.len()
        invariant
            i <= displays@.len(),
            n <= i,
            views == display_views(displays@),
            n == count_on(views.take(i as int)),
        decreases displays@.len() - i,
    {
        assert(views.take(i + 1).drop_last() =~= views.take(i as int));
        assert(views.take(i + 1).last() == displays@[i as int]@);
        if displays[i].is_enabled() {
            n = n + 1;
        }
        i = i + 1;
    }
    assert(views.take(i as int) =~= views);
    n
}

// ---------------------------------------------------------------------------
// Laws of identity.
// ---------------------------------------------------------------------------
/// Which of two reports comes first makes no difference to whether they are of
/// one display.
pub proof fn identity_is_symmetric(left: DisplayView, right: DisplayView)
    ensures
        left.same_as(right) == right.same_as(left),
{
}

/// A display with a stable id is the same display as itself.
pub proof fn stable_identity_is_reflexive(display: DisplayView)
    requires
        display.stable(),
    ensures
        display.same_as(display),
{
}

/// Where one of two reports has a stable id, their contextual ids decide
/// nothing: whatever the contextual ids are, the answer is the same.
pub proof fn stable_identity_ignores_contextual_ids(
    left: DisplayView,
    right: DisplayView,
    left_contextual: Option<Seq<char>>,
    right_contextual: Option<Seq<char>>,
)
    requires
        left.stable() || right.stable(),
    ensures
        left.same_as(right) == (DisplayView { contextual_id: left_contextual, ..left }).same_as(
            DisplayView { contextual_id: right_contextual, ..right },
        ),
{
}

proof fn lemma_trimmed_start_prefixed(c: char, s: Seq<char>)
    requires
        !crate::text::is_whitespace(c),
    ensures
        crate::text::trimmed_start(seq![c] + s) == seq![c] + s,
{
}

proof fn lemma_trimmed_end_prefixed(c: char, s: Seq<char>)
    requires
        !crate::text::is_whitespace(c),
    ensures
        crate::text::trimmed_end(seq![c] + s) == seq![c] + crate::text::trimmed_end(s),
    decreases s.len(),
{
    let t = seq![c] + s;
    if s.len() == 0 {
        assert(t =~= seq![c]);
        assert(seq![c] + crate::text::trimmed_end(s) =~= seq![c]);
    } else {
        assert(t.last() == s.last());
        assert(t.drop_last() =~= seq![c] + s.drop_last());
        if crate::text::is_whitespace(s.last()) {
            lemma_trimmed_end_prefixed(c, s.drop_last());
        }
    }
}

/// A serial number may be written with or without a small `s` in front, as long
/// as no blank stands between the two.
pub proof fn serial_prefix_is_optional(serial: Seq<char>)
    requires
        serial.len() > 0 ==> !crate::text::is_whitespace(serial[0]),
    ensures
        normal_id(seq!['s'] + serial) == normal_id(serial),
{
    lemma_trimmed_start_prefixed('s', serial);
    lemma_trimmed_end_prefixed('s', serial);
    let bare = text::trimmed(serial);
    assert(text::trimmed(seq!['s'] + serial) == seq!['s'] + bare);
    assert((seq!['s'] + bare).skip(1) =~= bare);
}

/// The same holds of a capital `S`, unless a small `s` follows it.
pub proof fn capital_serial_prefix_is_optional(serial: Seq<char>)
    requires
        serial.len() > 0 ==> !crate::text::is_whitespace(serial[0]) && serial[0] != 's',
    ensures
        normal_id(seq!['S'] + serial) == normal_id(serial),
{
    lemma_trimmed_start_prefixed('S', serial);
    lemma_trimmed_end_prefixed('S', serial);
    let bare = text::trimmed(serial);
    assert(text::trimmed(seq!['S'] + serial) == seq!['S'] + bare);
    let prefixed = seq!['S'] + bare;
    assert(text::without_leading(prefixed, 's') == prefixed);
    assert(prefixed.skip(1) =~= bare);
    if serial.len() > 0 {
        lemma_trimmed_end_keeps_start(serial);
    }
    assert(text::without_leading(bare, 's') == bare);
}

proof fn lemma_trimmed_end_keeps_start(s: Seq<char>)
    requires
        s.len() > 0,
        !crate::text::is_whitespace(s[0]),
    ensures
        crate::text::trimmed_end(s).len() > 0,
        crate::text::trimmed_end(s)[0] == s[0],
    decreases s.len(),
{
    if crate::text::is_whitespace(s.last()) {
        lemma_trimmed_end_keeps_start(s.drop_last());
    }
}

} // verus!
