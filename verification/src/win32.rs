//! The native Windows bindings: the display and window records they report,
//! what discovery makes of the monitors and windows it enumerates (which are
//! listed, in which order, under which identifiers), how window identifiers,
//! display identifiers and key names are read, and the key and mouse events
//! of the input path. The native calls themselves (enumeration, screen copy,
//! input injection) are not part of this build: the operations that need
//! them check their arguments first and then report that the runtime is
//! unavailable.
use vstd::prelude::*;

use crate::discovery::{chars_lt, lemma_seq_lt_irreflexive, lemma_seq_lt_total, lemma_seq_lt_transitive, seq_lt};
use crate::text::{decimal, hex, lower, owned, starts_with, trim, upper};

verus! {

#[derive(Debug, Clone, Copy, PartialEq, Eq, Structural)]
pub struct Bounds {
    pub x: i32,
    pub y: i32,
    pub width: u32,
    pub height: u32,
}

/// A monitor as the Windows display enumeration reports it.
#[derive(Debug, Clone, PartialEq, Eq)]
pub struct DisplayInfo {
    pub id: String,
    pub name: String,
    pub bounds: Bounds,
}

/// A top-level window as the Windows window enumeration reports it.
#[derive(Debug, Clone, PartialEq, Eq)]
pub struct WindowInfo {
    pub id: String,
    pub title: String,
    pub app_name: Option<String>,
    pub process_id: u32,
    pub bounds: Bounds,
}

#[derive(Debug, Clone, Copy, PartialEq, Eq, Structural)]
pub enum ModifierKey {
    Ctrl,
    Alt,
    Shift,
    Meta,
}

impl ModifierKey {
    /// The lower-case name of the key, as the bindings display it.
    pub fn as_str(&self) -> (r: &'static str)
        ensures
            r@ == match *self {
                ModifierKey::Ctrl => "ctrl"@,
                ModifierKey::Alt => "alt"@,
                ModifierKey::Shift => "shift"@,
                ModifierKey::Meta => "meta"@,
            },
    {
        match self {
            ModifierKey::Ctrl => "ctrl",
            ModifierKey::Alt => "alt",
            ModifierKey::Shift => "shift",
            ModifierKey::Meta => "meta",
        }
    }
}

#[derive(Debug, Clone, Copy, PartialEq, Eq, Structural)]
pub enum MouseButton {
    Left,
    Middle,
    Right,
}

/// The message of an operation that needs the native Windows runtime, which
/// this build does not carry.
pub open spec fn unavailable_message() -> Seq<char> {
    "native Windows runtime bindings are only available when building for Windows"@
}

fn unavailable() -> (m: String)
    ensures
        m@ == unavailable_message(),
{
    owned("native Windows runtime bindings are only available when building for Windows")
}

// ---------------------------------------------------------------------------
// Window identifiers
// ---------------------------------------------------------------------------

/// Why an integer could not be read, as `ParseIntError` tells it.
#[derive(Debug, Clone, Copy, PartialEq, Eq, Structural)]
pub enum IntParseFailure {
    Empty,
    InvalidDigit,
    TooLarge,
}

/// The text `ParseIntError` displays for each failure.
pub open spec fn failure_text(f: IntParseFailure) -> Seq<char> {
    match f {
        IntParseFailure::Empty => "cannot parse integer from empty string"@,
        IntParseFailure::InvalidDigit => "invalid digit found in string"@,
        IntParseFailure::TooLarge => "number too large to fit in target type"@,
    }
}

fn failure_message(f: IntParseFailure) -> (r: &'static str)
    ensures
        r@ == failure_text(f),
{
    match f {
        IntParseFailure::Empty => "cannot parse integer from empty string",
        IntParseFailure::InvalidDigit => "invalid digit found in string",
        IntParseFailure::TooLarge => "number too large to fit in target type",
    }
}

/// The value of `c` as a digit of `radix` (at most 36), as `char::to_digit`.
pub open spec fn digit_in(c: char, radix: int) -> Option<int> {
    let d = if '0' <= c && c <= '9' {
        c as int - '0' as int
    } else if 'a' <= c && c <= 'z' {
        c as int - 'a' as int + 10
    } else if 'A' <= c && c <= 'Z' {
        c as int - 'A' as int + 10
    } else {
        radix
    };
    if d < radix {
        Some(d)
    } else {
        None
    }
}

/// Digits read left to right onto `acc`: the first character that is not a
/// digit, or the first digit that takes the value past `usize::MAX`, ends the
/// reading with its failure.
pub open spec fn scan_radix(s: Seq<char>, radix: int, acc: int) -> Result<int, IntParseFailure>
    decreases s.len(),
{
    if s.len() == 0 {
        Ok(acc)
    } else {
        match digit_in(s[0], radix) {
            None => Err(IntParseFailure::InvalidDigit),
            Some(d) => if acc * radix + d > usize::MAX {
                Err(IntParseFailure::TooLarge)
            } else {
                scan_radix(s.drop_first(), radix, acc * radix + d)
            },
        }
    }
}

/// `usize::from_str_radix`: an optional `+`, then at least one digit.
pub open spec fn usize_from_radix(s: Seq<char>, radix: int) -> Result<int, IntParseFailure> {
    if s.len() == 0 {
        Err(IntParseFailure::Empty)
    } else if (s[0] == '+' || s[0] == '-') && s.len() == 1 {
        Err(IntParseFailure::InvalidDigit)
    } else if s[0] == '+' {
        scan_radix(s.drop_first(), radix, 0)
    } else {
        scan_radix(s, radix, 0)
    }
}

/// The window handle an identifier names: the trimmed identifier read as
/// hexadecimal after a `0x` or `0X` prefix, as decimal otherwise.
pub open spec fn window_handle_spec(id: Seq<char>) -> Result<int, IntParseFailure> {
    let t = trim(id);
    if starts_with(t, "0x"@) || starts_with(t, "0X"@) {
        usize_from_radix(t.skip(2), 16)
    } else {
        usize_from_radix(t, 10)
    }
}

/// The message of an identifier that names no handle.
pub open spec fn unparsed_window_message(id: Seq<char>, f: IntParseFailure) -> Seq<char> {
    "window target id `"@ + id + "` could not be parsed: "@ + failure_text(f)
}

fn digit_of(c: char, radix: u32) -> (r: Option<u32>)
    requires
        2 <= radix <= 36,
    ensures
        match digit_in(c, radix as int) {
            Some(d) => r == Some(d as u32),
            None => r is None,
        },
{
    let d: u32 = if '0' <= c && c <= '9' {
        (c as u32) - 48
    } else if 'a' <= c && c <= 'z' {
        (c as u32) - 97 + 10
    } else if 'A' <= c && c <= 'Z' {
        (c as u32) - 65 + 10
    } else {
        radix
    };
    if d < radix {
        Some(d)
    } else {
        None
    }
}

fn scan_digits(s: &[char], start: usize, radix: u32) -> (r: Result<usize, IntParseFailure>)
    requires
        start <= s.len(),
        2 <= radix <= 36,
    ensures
        match scan_radix(s@.skip(start as int), radix as int, 0) {
            Ok(v) => r matches Ok(h) && h as int == v,
            Err(f) => r == Err::<usize, IntParseFailure>(f),
        },
{
    let mut acc: usize = 0;
    let mut i: usize = start;
    while i < s.len()
        invariant
            start <= i <= s.len(),
            2 <= radix <= 36,
            scan_radix(s@.skip(start as int), radix as int, 0) == scan_radix(s@.skip(i as int), radix as int, acc as int),
        decreases s.len() - i,
    {
        assert(s@.skip(i as int)[0] == s@[i as int]);
        assert(s@.skip(i as int).drop_first() =~= s@.skip(i + 1));
        let d = match digit_of(s[i], radix) {
            Some(d) => d,
            None => {
                return Err(IntParseFailure::InvalidDigit);
            },
        };
        let shifted = match acc.checked_mul(radix as usize) {
            Some(v) => v,
            None => {
                return Err(IntParseFailure::TooLarge);
            },
        };
        let next = match shifted.checked_add(d as usize) {
            Some(v) => v,
            None => {
                return Err(IntParseFailure::TooLarge);
            },
        };
        acc = next;
        i += 1;
    }
    assert(s@.skip(i as int).len() == 0);
    Ok(acc)
}

fn from_radix(s: &[char], start: usize, radix: u32) -> (r: Result<usize, IntParseFailure>)
    requires
        start <= s.len(),
        2 <= radix <= 36,
    ensures
        match usize_from_radix(s@.skip(start as int), radix as int) {
            Ok(v) => r matches Ok(h) && h as int == v,
            Err(f) => r == Err::<usize, IntParseFailure>(f),
        },
{
    if start == s.len() {
        return Err(IntParseFailure::Empty);
    }
    assert(s@.skip(start as int)[0] == s@[start as int]);
    if (s[start] == '+' || s[start] == '-') && start + 1 == s.len() {
        return Err(IntParseFailure::InvalidDigit);
    }
    if s[start] == '+' {
        assert(s@.skip(start as int).drop_first() =~= s@.skip(start + 1));
        scan_digits(s, start + 1, radix)
    } else {
        scan_digits(s, start, radix)
    }
}

/// The handle a window identifier names, or why it names none.
pub fn parse_window_id(window_id: &str) -> (r: Result<usize, String>)
    ensures
        match window_handle_spec(window_id@) {
            Ok(h) => r matches Ok(v) && v as int == h,
            Err(f) => r matches Err(m) && m@ == unparsed_window_message(window_id@, f),
        },
{
    let chars = crate::text::chars_of(window_id);
    let t = crate::text::trimmed(chars.as_slice());
    let t = t.as_slice();
    proof {
        reveal_strlit("0x");
        reveal_strlit("0X");
    }
    let parsed = if crate::text::starts_with_lit(t, "0x") || crate::text::starts_with_lit(t, "0X") {
        from_radix(t, 2, 16)
    } else {
        from_radix(t, 0, 10)
    };
    assert(t@.skip(0) =~= t@);
    match parsed {
        Ok(h) => Ok(h),
        Err(f) => {
            let mut m = owned("window target id `");
            crate::text::push_str(&mut m, window_id);
            crate::text::push_str(&mut m, "` could not be parsed: ");
            crate::text::push_str(&mut m, failure_message(f));
            Err(m)
        },
    }
}

/// A window's screen rectangle, by its edges.
#[derive(Debug, Clone, Copy, PartialEq, Eq, Structural)]
pub struct WindowRect {
    pub left: i32,
    pub top: i32,
    pub right: i32,
    pub bottom: i32,
}

/// The rectangle's width and height fit in an `i32`.
pub open spec fn rect_fits(r: WindowRect) -> bool {
    i32::MIN <= r.right - r.left <= i32::MAX && i32::MIN <= r.bottom - r.top <= i32::MAX
}

/// The rectangle has a positive width and height.
pub open spec fn rect_has_area(r: WindowRect) -> bool {
    r.right - r.left > 0 && r.bottom - r.top > 0
}

/// The bounds of a rectangle with area.
pub open spec fn rect_bounds(r: WindowRect) -> Bounds {
    Bounds { x: r.left, y: r.top, width: (r.right - r.left) as u32, height: (r.bottom - r.top) as u32 }
}

/// The area of the screen a window capture copies: the window's rectangle,
/// or an error naming the window when the rectangle is empty.
pub fn window_capture_area(window_id: &str, rect: WindowRect) -> (r: Result<Bounds, String>)
    requires
        rect_fits(rect),
    ensures
        rect_has_area(rect) ==> r == Ok::<Bounds, String>(rect_bounds(rect)),
        !rect_has_area(rect) ==> (r matches Err(m) && m@ == "window `"@ + window_id@ + "` has invalid bounds"@),
{
    let width: i32 = rect.right - rect.left;
    let height: i32 = rect.bottom - rect.top;
    if width <= 0 || height <= 0 {
        let mut m = owned("window `");
        crate::text::push_str(&mut m, window_id);
        crate::text::push_str(&mut m, "` has invalid bounds");
        return Err(m);
    }
    Ok(Bounds { x: rect.left, y: rect.top, width: width as u32, height: height as u32 })
}

// ---------------------------------------------------------------------------
// Display lookup
// ---------------------------------------------------------------------------

/// The message of a display identifier that no display has.
pub open spec fn display_not_found_message(id: Seq<char>) -> Seq<char> {
    "display target `"@ + id + "` was not found"@
}

/// The first display with the given identifier, or the not-found error.
pub fn find_display(displays: &Vec<DisplayInfo>, display_id: &str) -> (r: Result<usize, String>)
    ensures
        match r {
            Ok(i) => i < displays.len() && displays@[i as int].id@ == display_id@ && forall|j: int|
                0 <= j < i ==> (#[trigger] displays@[j]).id@ != display_id@,
            Err(m) => m@ == display_not_found_message(display_id@) && forall|j: int|
                0 <= j < displays.len() ==> (#[trigger] displays@[j]).id@ != display_id@,
        },
{
    let wanted = crate::text::chars_of(display_id);
    let mut i: usize = 0;
    while i < displays.len()
        invariant
            i <= displays.len(),
            wanted@ == display_id@,
            forall|j: int| 0 <= j < i ==> (#[trigger] displays@[j]).id@ != display_id@,
        decreases displays.len() - i,
    {
        let id = crate::text::chars_of(displays[i].id.as_str());
        if crate::text::same(id.as_slice(), wanted.as_slice()) {
            return Ok(i);
        }
        i += 1;
    }
    let mut m = owned("display target `");
    crate::text::push_str(&mut m, display_id);
    crate::text::push_str(&mut m, "` was not found");
    Err(m)
}

// ---------------------------------------------------------------------------
// Listing order
// ---------------------------------------------------------------------------

/// Where a listed item sits: its top edge, its left edge, its label without
/// ASCII case, and a tie-breaker.
pub type Placement = (int, int, Seq<char>, Seq<char>);

/// The listing order: top to bottom, then left to right, then by label,
/// then by tie-breaker.
pub open spec fn placement_lt(a: Placement, b: Placement) -> bool {
    ||| a.0 < b.0
    ||| a.0 == b.0 && a.1 < b.1
    ||| a.0 == b.0 && a.1 == b.1 && seq_lt(a.2, b.2)
    ||| a.0 == b.0 && a.1 == b.1 && a.2 == b.2 && seq_lt(a.3, b.3)
}

/// An item of a listing, with its place.
pub trait Placed: Sized {
    spec fn placement(&self) -> Placement;

    /// Whether `self` is listed before `other`.
    fn precedes(&self, other: &Self) -> (r: bool)
        ensures
            r == placement_lt(self.placement(), other.placement()),
    ;
}

pub proof fn lemma_placement_lt_irreflexive(a: Placement)
    ensures
        !placement_lt(a, a),
{
    lemma_seq_lt_irreflexive(a.2);
    lemma_seq_lt_irreflexive(a.3);
}

pub proof fn lemma_placement_lt_transitive(a: Placement, b: Placement, c: Placement)
    requires
        placement_lt(a, b),
        placement_lt(b, c),
    ensures
        placement_lt(a, c),
{
    if seq_lt(a.2, b.2) && seq_lt(b.2, c.2) {
        lemma_seq_lt_transitive(a.2, b.2, c.2);
    }
    if seq_lt(a.3, b.3) && seq_lt(b.3, c.3) {
        lemma_seq_lt_transitive(a.3, b.3, c.3);
    }
}

/// Where `x` goes in a listing: after every item it is not listed before,
/// so that items in the same place keep their order.
pub open spec fn place_index<T: Placed>(s: Seq<T>, x: T) -> int
    decreases s.len(),
{
    if s.len() == 0 {
        0
    } else if placement_lt(x.placement(), s[0].placement()) {
        0
    } else {
        1 + place_index(s.drop_first(), x)
    }
}

/// The stable ordering of a listing, as `sort_by` on the placement.
pub open spec fn placed_sorted<T: Placed>(s: Seq<T>) -> Seq<T>
    decreases s.len(),
{
    if s.len() == 0 {
        s
    } else {
        let r = placed_sorted(s.drop_last());
        r.insert(place_index(r, s.last()), s.last())
    }
}

/// No item is listed before one that precedes it.
pub open spec fn placed_in_order<T: Placed>(s: Seq<T>) -> bool {
    forall|i: int, j: int| 0 <= i < j < s.len() ==> !placement_lt((#[trigger] s[j]).placement(), (#[trigger] s[i]).placement())
}

proof fn lemma_place_index<T: Placed>(s: Seq<T>, x: T)
    ensures
        0 <= place_index(s, x) <= s.len(),
        forall|j: int| 0 <= j < place_index(s, x) ==> !placement_lt(x.placement(), (#[trigger] s[j]).placement()),
        place_index(s, x) < s.len() ==> placement_lt(x.placement(), s[place_index(s, x)].placement()),
    decreases s.len(),
{
    if s.len() > 0 && !placement_lt(x.placement(), s[0].placement()) {
        lemma_place_index(s.drop_first(), x);
        assert forall|j: int| 0 <= j < place_index(s, x) implies !placement_lt(x.placement(), (#[trigger] s[j]).placement()) by {
            if j > 0 {
                assert(s[j] == s.drop_first()[j - 1]);
            }
        }
    }
}

proof fn lemma_place_index_skip<T: Placed>(s: Seq<T>, x: T, k: int)
    requires
        0 <= k <= s.len(),
        forall|j: int| 0 <= j < k ==> !placement_lt(x.placement(), (#[trigger] s[j]).placement()),
    ensures
        place_index(s, x) == k + place_index(s.skip(k), x),
    decreases k,
{
    if k > 0 {
        assert(s.drop_first().skip(k - 1) =~= s.skip(k));
        assert forall|j: int| 0 <= j < k - 1 implies !placement_lt(x.placement(), (#[trigger] s.drop_first()[j]).placement()) by {
            assert(s.drop_first()[j] == s[j + 1]);
        }
        lemma_place_index_skip(s.drop_first(), x, k - 1);
    } else {
        assert(s.skip(0) =~= s);
    }
}

proof fn lemma_place_keeps_order<T: Placed>(s: Seq<T>, x: T)
    requires
        placed_in_order(s),
    ensures
        placed_in_order(s.insert(place_index(s, x), x)),
{
    lemma_place_index(s, x);
    let p = place_index(s, x);
    let r = s.insert(p, x);
    assert forall|i: int, j: int| 0 <= i < j < r.len() implies !placement_lt((#[trigger] r[j]).placement(), (#[trigger] r[i]).placement()) by {
        if j < p {
            assert(r[i] == s[i] && r[j] == s[j]);
        } else if j == p {
            assert(r[i] == s[i]);
        } else if i == p {
            assert(r[j] == s[j - 1]);
            if placement_lt(s[j - 1].placement(), x.placement()) {
                if j - 1 == p {
                    lemma_placement_lt_transitive(s[p].placement(), x.placement(), s[p].placement());
                    lemma_placement_lt_irreflexive(s[p].placement());
                } else {
                    lemma_placement_lt_transitive(s[j - 1].placement(), x.placement(), s[p].placement());
                }
            }
        } else if i < p {
            assert(r[i] == s[i] && r[j] == s[j - 1]);
        } else {
            assert(r[i] == s[i - 1] && r[j] == s[j - 1]);
        }
    }
}

/// The ordering puts the listing in order: no item precedes one listed
/// before it.
pub proof fn law_placed_sorted_is_ordered<T: Placed>(s: Seq<T>)
    ensures
        placed_in_order(placed_sorted(s)),
    decreases s.len(),
{
    if s.len() > 0 {
        law_placed_sorted_is_ordered(s.drop_last());
        lemma_place_keeps_order(placed_sorted(s.drop_last()), s.last());
    }
}

/// The ordering neither loses nor adds items.
pub proof fn law_placed_sorted_is_permutation<T: Placed>(s: Seq<T>)
    ensures
        placed_sorted(s).to_multiset() == s.to_multiset(),
    decreases s.len(),
{
    if s.len() > 0 {
        let r = placed_sorted(s.drop_last());
        law_placed_sorted_is_permutation(s.drop_last());
        lemma_place_index(r, s.last());
        vstd::seq_lib::to_multiset_insert(r, place_index(r, s.last()), s.last());
        vstd::seq_lib::to_multiset_build(s.drop_last(), s.last());
        assert(s.drop_last().push(s.last()) =~= s);
    }
}

/// The stable ordering of a listing, by insertion.
pub fn sort_placed<T: Placed>(items: Vec<T>) -> (r: Vec<T>)
    ensures
        r@ == placed_sorted(items@),
{
    let ghost orig = items@;
    let len = items.len();
    let mut rest = items;
    let mut out: Vec<T> = Vec::new();
    let mut n: usize = 0;
    assert(orig.skip(0) =~= orig);
    assert(orig.take(0) =~= Seq::<T>::empty());
    while rest.len() > 0
        invariant
            orig.len() == len,
            n <= orig.len(),
            rest@ == orig.skip(n as int),
            out@ == placed_sorted(orig.take(n as int)),
        decreases rest.len(),
    {
        let x = rest.remove(0);
        assert(x == orig[n as int]);
        let mut k: usize = 0;
        while k < out.len() && !x.precedes(&out[k])
            invariant
                k <= out@.len(),
                forall|j: int| 0 <= j < k ==> !placement_lt(x.placement(), (#[trigger] out@[j]).placement()),
            decreases out.len() - k,
        {
            k += 1;
        }
        proof {
            lemma_place_index_skip(out@, x, k as int);
            if k < out@.len() {
                assert(out@.skip(k as int)[0] == out@[k as int]);
            }
            assert(orig.take(n + 1).drop_last() =~= orig.take(n as int));
            assert(orig.take(n + 1).last() == x);
        }
        out.insert(k, x);
        n += 1;
        assert(rest@ =~= orig.skip(n as int));
    }
    assert(orig.take(n as int) =~= orig);
    out
}

/// Whether the place `(ay, ax, al, at)` comes before `(by, bx, bl, bt)`.
fn place_precedes(ay: i32, ax: i32, al: &[char], at: &[char], by: i32, bx: i32, bl: &[char], bt: &[char]) -> (r: bool)
    ensures
        r == placement_lt((ay as int, ax as int, al@, at@), (by as int, bx as int, bl@, bt@)),
{
    if ay != by {
        return ay < by;
    }
    if ax != bx {
        return ax < bx;
    }
    if chars_lt(al, bl) {
        return true;
    }
    if !crate::text::same(al, bl) {
        proof {
            lemma_seq_lt_total(al@, bl@);
        }
        return false;
    }
    chars_lt(at, bt)
}

impl Placed for DisplayInfo {
    /// Displays are listed by their top-left corner, then by name without
    /// ASCII case.
    open spec fn placement(&self) -> Placement {
        (self.bounds.y as int, self.bounds.x as int, lower(self.name@), Seq::<char>::empty())
    }

    fn precedes(&self, other: &Self) -> (r: bool) {
        let a = crate::text::to_lower(crate::text::chars_of(self.name.as_str()).as_slice());
        let b = crate::text::to_lower(crate::text::chars_of(other.name.as_str()).as_slice());
        let none: Vec<char> = Vec::new();
        assert(none@ =~= Seq::<char>::empty());
        place_precedes(
            self.bounds.y,
            self.bounds.x,
            a.as_slice(),
            none.as_slice(),
            other.bounds.y,
            other.bounds.x,
            b.as_slice(),
            none.as_slice(),
        )
    }
}

impl Placed for WindowInfo {
    /// Windows are listed by their top-left corner, then by title without
    /// ASCII case, then by identifier.
    open spec fn placement(&self) -> Placement {
        (self.bounds.y as int, self.bounds.x as int, lower(self.title@), self.id@)
    }

    fn precedes(&self, other: &Self) -> (r: bool) {
        let a = crate::text::to_lower(crate::text::chars_of(self.title.as_str()).as_slice());
        let b = crate::text::to_lower(crate::text::chars_of(other.title.as_str()).as_slice());
        let ia = crate::text::chars_of(self.id.as_str());
        let ib = crate::text::chars_of(other.id.as_str());
        place_precedes(
            self.bounds.y,
            self.bounds.x,
            a.as_slice(),
            ia.as_slice(),
            other.bounds.y,
            other.bounds.x,
            b.as_slice(),
            ib.as_slice(),
        )
    }
}

/// `out` is the ordered `displays` numbered `1`, `2`, ... in order.
pub open spec fn displays_numbered(sorted: Seq<DisplayInfo>, out: Seq<DisplayInfo>) -> bool {
    &&& out.len() == sorted.len()
    &&& forall|i: int|
        0 <= i < sorted.len() ==> (#[trigger] out[i]).name == sorted[i].name && out[i].bounds == sorted[i].bounds
            && out[i].id@ == decimal((i + 1) as nat)
}

/// Orders displays top to bottom, left to right, then by name without ASCII
/// case (ties keep their order), and numbers them `1`, `2`, ... so that
/// users can write `--display 1`.
pub fn order_displays(displays: Vec<DisplayInfo>) -> (r: Vec<DisplayInfo>)
    ensures
        displays_numbered(placed_sorted(displays@), r@),
{
    let sorted = sort_placed(displays);
    let ghost s = sorted@;
    let len = sorted.len();
    let mut rest = sorted;
    let mut out: Vec<DisplayInfo> = Vec::new();
    let mut n: usize = 0;
    assert(s.skip(0) =~= s);
    while rest.len() > 0
        invariant
            s.len() == len,
            n <= s.len(),
            rest@ == s.skip(n as int),
            out@.len() == n,
            forall|i: int|
                0 <= i < n ==> (#[trigger] out@[i]).name == s[i].name && out@[i].bounds == s[i].bounds && out@[i].id@
                    == decimal((i + 1) as nat),
        decreases rest.len(),
    {
        let mut d = rest.remove(0);
        assert(d == s[n as int]);
        d.id = crate::text::format_u64((n as u64) + 1);
        out.push(d);
        n += 1;
        assert(rest@ =~= s.skip(n as int));
    }
    out
}

/// Ordered and numbered displays run top to bottom, and only on an equal top
/// edge left to right; on an equal corner the name without ASCII case
/// decides.
pub proof fn law_ordered_displays_by_position(displays: Seq<DisplayInfo>, out: Seq<DisplayInfo>)
    requires
        displays_numbered(placed_sorted(displays), out),
    ensures
        forall|i: int, j: int|
            0 <= i < j < out.len() ==> {
                &&& (#[trigger] out[i]).bounds.y <= (#[trigger] out[j]).bounds.y
                &&& out[i].bounds.y == out[j].bounds.y ==> out[i].bounds.x <= out[j].bounds.x
                &&& out[i].bounds.y == out[j].bounds.y && out[i].bounds.x == out[j].bounds.x ==> !seq_lt(
                    lower(out[j].name@),
                    lower(out[i].name@),
                )
            },
{
    let s = placed_sorted(displays);
    law_placed_sorted_is_ordered(displays);
    assert forall|i: int, j: int| 0 <= i < j < out.len() implies {
        &&& (#[trigger] out[i]).bounds.y <= (#[trigger] out[j]).bounds.y
        &&& out[i].bounds.y == out[j].bounds.y ==> out[i].bounds.x <= out[j].bounds.x
        &&& out[i].bounds.y == out[j].bounds.y && out[i].bounds.x == out[j].bounds.x ==> !seq_lt(
            lower(out[j].name@),
            lower(out[i].name@),
        )
    } by {
        assert(!placement_lt(s[j].placement(), s[i].placement()));
    }
}

/// Ordered windows run top to bottom, and only on an equal top edge left to
/// right; on an equal corner the title without ASCII case decides, then the
/// identifier.
pub proof fn law_ordered_windows_by_position(windows: Seq<WindowInfo>, out: Seq<WindowInfo>)
    requires
        out == placed_sorted(windows),
    ensures
        forall|i: int, j: int|
            0 <= i < j < out.len() ==> {
                &&& (#[trigger] out[i]).bounds.y <= (#[trigger] out[j]).bounds.y
                &&& out[i].bounds.y == out[j].bounds.y ==> out[i].bounds.x <= out[j].bounds.x
                &&& out[i].bounds.y == out[j].bounds.y && out[i].bounds.x == out[j].bounds.x ==> !seq_lt(
                    lower(out[j].title@),
                    lower(out[i].title@),
                )
                &&& out[i].bounds.y == out[j].bounds.y && out[i].bounds.x == out[j].bounds.x && lower(out[i].title@)
                    == lower(out[j].title@) ==> !seq_lt(out[j].id@, out[i].id@)
            },
{
    law_placed_sorted_is_ordered(windows);
    assert forall|i: int, j: int| 0 <= i < j < out.len() implies {
        &&& (#[trigger] out[i]).bounds.y <= (#[trigger] out[j]).bounds.y
        &&& out[i].bounds.y == out[j].bounds.y ==> out[i].bounds.x <= out[j].bounds.x
        &&& out[i].bounds.y == out[j].bounds.y && out[i].bounds.x == out[j].bounds.x ==> !seq_lt(
            lower(out[j].title@),
            lower(out[i].title@),
        )
        &&& out[i].bounds.y == out[j].bounds.y && out[i].bounds.x == out[j].bounds.x && lower(out[i].title@)
            == lower(out[j].title@) ==> !seq_lt(out[j].id@, out[i].id@)
    } by {
        assert(!placement_lt(out[j].placement(), out[i].placement()));
    }
}

/// Orders windows top to bottom, left to right, then by title without ASCII
/// case, then by identifier (ties keep their order).
pub fn order_windows(windows: Vec<WindowInfo>) -> (r: Vec<WindowInfo>)
    ensures
        r@ == placed_sorted(windows@),
{
    sort_placed(windows)
}

// ---------------------------------------------------------------------------
// What discovery lists
// ---------------------------------------------------------------------------

/// A monitor as enumeration reports it: its device name and its rectangle.
#[derive(Debug, Clone)]
pub struct MonitorArea {
    pub name: String,
    pub rect: WindowRect,
}

/// The display a monitor is listed as, before numbering.
pub open spec fn lists_monitor(m: MonitorArea, d: DisplayInfo) -> bool {
    &&& d.id@.len() == 0
    &&& d.name == m.name
    &&& d.bounds == rect_bounds(m.rect)
}

/// A monitor is listed when its rectangle has an area.
pub fn monitor_display(monitor: MonitorArea) -> (r: Option<DisplayInfo>)
    requires
        rect_fits(monitor.rect),
    ensures
        rect_has_area(monitor.rect) <==> r is Some,
        r matches Some(d) ==> lists_monitor(monitor, d),
{
    let width: i32 = monitor.rect.right - monitor.rect.left;
    let height: i32 = monitor.rect.bottom - monitor.rect.top;
    if width > 0 && height > 0 {
        Some(
            DisplayInfo {
                id: String::new(),
                name: monitor.name,
                bounds: Bounds { x: monitor.rect.left, y: monitor.rect.top, width: width as u32, height: height as u32 },
            },
        )
    } else {
        None
    }
}

/// `kept` is what the monitors with an area are listed as, in order.
pub open spec fn keeps_monitors(monitors: Seq<MonitorArea>, kept: Seq<DisplayInfo>) -> bool
    decreases monitors.len(),
{
    if monitors.len() == 0 {
        kept.len() == 0
    } else if rect_has_area(monitors.last().rect) {
        kept.len() > 0 && lists_monitor(monitors.last(), kept.last()) && keeps_monitors(
            monitors.drop_last(),
            kept.drop_last(),
        )
    } else {
        keeps_monitors(monitors.drop_last(), kept)
    }
}

/// The displays discovery lists for the monitors enumeration reports: those
/// with an area, ordered and numbered.
pub fn displays_from_monitors(monitors: Vec<MonitorArea>) -> (r: Vec<DisplayInfo>)
    requires
        forall|i: int| 0 <= i < monitors.len() ==> rect_fits(#[trigger] monitors@[i].rect),
    ensures
        exists|kept: Seq<DisplayInfo>| keeps_monitors(monitors@, kept) && displays_numbered(placed_sorted(kept), r@),
{
    let ghost orig = monitors@;
    let len = monitors.len();
    let mut rest = monitors;
    let mut kept: Vec<DisplayInfo> = Vec::new();
    let mut n: usize = 0;
    assert(orig.skip(0) =~= orig);
    assert(orig.take(0) =~= Seq::<MonitorArea>::empty());
    while rest.len() > 0
        invariant
            orig.len() == len,
            n <= orig.len(),
            rest@ == orig.skip(n as int),
            forall|i: int| 0 <= i < orig.len() ==> rect_fits(#[trigger] orig[i].rect),
            keeps_monitors(orig.take(n as int), kept@),
        decreases rest.len(),
    {
        let m = rest.remove(0);
        assert(m == orig[n as int]);
        let ghost before = kept@;
        proof {
            assert(orig.take(n + 1).drop_last() =~= orig.take(n as int));
            assert(orig.take(n + 1).last() == m);
        }
        match monitor_display(m) {
            Some(d) => {
                kept.push(d);
                assert(kept@.drop_last() =~= before);
            },
            None => {},
        }
        n += 1;
        assert(rest@ =~= orig.skip(n as int));
    }
    assert(orig.take(n as int) =~= orig);
    let ghost k = kept@;
    order_displays(kept)
}

/// A top-level window as enumeration reports it: its handle, whether it is
/// visible, its title as read (empty when unreadable), its rectangle (none
/// when unreadable), its process and the process's executable name.
#[derive(Debug, Clone)]
pub struct WindowCandidate {
    pub handle: usize,
    pub visible: bool,
    pub title: String,
    pub rect: Option<WindowRect>,
    pub process_id: u32,
    pub app_name: Option<String>,
}

/// A window is listed when it is visible, has a title that is not blank, a
/// rectangle with an area, and a process.
pub open spec fn window_listed(c: WindowCandidate) -> bool {
    &&& c.visible
    &&& trim(c.title@).len() > 0
    &&& c.rect matches Some(r) && rect_has_area(r)
    &&& c.process_id != 0
}

/// The identifier of a window handle: `0x` and the handle in upper-case
/// hexadecimal.
pub open spec fn handle_id(handle: usize) -> Seq<char> {
    "0x"@ + upper(hex(handle as nat))
}

/// The record a listed window is given.
pub open spec fn lists_window(c: WindowCandidate, w: WindowInfo) -> bool {
    &&& w.id@ == handle_id(c.handle)
    &&& w.title@ == trim(c.title@)
    &&& w.app_name == c.app_name
    &&& w.process_id == c.process_id
    &&& c.rect matches Some(r) && w.bounds == rect_bounds(r)
}

/// The record a window is listed with, if it is listed.
pub fn listed_window(candidate: WindowCandidate) -> (r: Option<WindowInfo>)
    requires
        candidate.rect matches Some(r) ==> rect_fits(r),
    ensures
        window_listed(candidate) <==> r is Some,
        r matches Some(w) ==> lists_window(candidate, w),
{
    if !candidate.visible || candidate.process_id == 0 {
        return None;
    }
    let title = crate::text::trimmed(crate::text::chars_of(candidate.title.as_str()).as_slice());
    if title.len() == 0 {
        return None;
    }
    let rect = match candidate.rect {
        Some(r) => r,
        None => {
            return None;
        },
    };
    let width: i32 = rect.right - rect.left;
    let height: i32 = rect.bottom - rect.top;
    if width <= 0 || height <= 0 {
        return None;
    }
    let digits = crate::text::format_hex(candidate.handle as u64);
    let upper_digits = crate::text::to_upper(crate::text::chars_of(digits.as_str()).as_slice());
    let mut id = owned("0x");
    crate::text::push_chars(&mut id, upper_digits.as_slice());
    proof {
        reveal_strlit("0x");
    }
    Some(
        WindowInfo {
            id,
            title: crate::text::string_of(title.as_slice()),
            app_name: candidate.app_name,
            process_id: candidate.process_id,
            bounds: Bounds { x: rect.left, y: rect.top, width: width as u32, height: height as u32 },
        },
    )
}

/// `kept` is what the listed windows are listed as, in order.
pub open spec fn keeps_windows(candidates: Seq<WindowCandidate>, kept: Seq<WindowInfo>) -> bool
    decreases candidates.len(),
{
    if candidates.len() == 0 {
        kept.len() == 0
    } else if window_listed(candidates.last()) {
        kept.len() > 0 && lists_window(candidates.last(), kept.last()) && keeps_windows(
            candidates.drop_last(),
            kept.drop_last(),
        )
    } else {
        keeps_windows(candidates.drop_last(), kept)
    }
}

/// The windows discovery lists for the windows enumeration reports: the
/// listed ones, ordered.
pub fn windows_from_candidates(candidates: Vec<WindowCandidate>) -> (r: Vec<WindowInfo>)
    requires
        forall|i: int| 0 <= i < candidates.len() ==> ((#[trigger] candidates@[i]).rect matches Some(r) ==> rect_fits(r)),
    ensures
        exists|kept: Seq<WindowInfo>| keeps_windows(candidates@, kept) && r@ == placed_sorted(kept),
{
    let ghost orig = candidates@;
    let len = candidates.len();
    let mut rest = candidates;
    let mut kept: Vec<WindowInfo> = Vec::new();
    let mut n: usize = 0;
    assert(orig.skip(0) =~= orig);
    assert(orig.take(0) =~= Seq::<WindowCandidate>::empty());
    while rest.len() > 0
        invariant
            orig.len() == len,
            n <= orig.len(),
            rest@ == orig.skip(n as int),
            forall|i: int| 0 <= i < orig.len() ==> ((#[trigger] orig[i]).rect matches Some(r) ==> rect_fits(r)),
            keeps_windows(orig.take(n as int), kept@),
        decreases rest.len(),
    {
        let c = rest.remove(0);
        assert(c == orig[n as int]);
        let ghost before = kept@;
        proof {
            assert(orig.take(n + 1).drop_last() =~= orig.take(n as int));
            assert(orig.take(n + 1).last() == c);
        }
        match listed_window(c) {
            Some(w) => {
                kept.push(w);
                assert(kept@.drop_last() =~= before);
            },
            None => {},
        }
        n += 1;
        assert(rest@ =~= orig.skip(n as int));
    }
    assert(orig.take(n as int) =~= orig);
    order_windows(kept)
}

// ---------------------------------------------------------------------------
// Key taps
// ---------------------------------------------------------------------------

/// How one key tap is typed: a named key's virtual key, or a single
/// character.
#[derive(Debug, Clone, Copy, PartialEq, Eq, Structural)]
pub enum KeyTap {
    Virtual(u16),
    Character(char),
}

/// Whether `key_tap` refuses a key: no named key and not one character.
pub open spec fn key_name_refused(key: Seq<char>) -> bool {
    named_key_spec(crate::text::lower(key)) is None && key.len() != 1
}

/// The tap a key name asks for: a named key (any ASCII case), else a single
/// character, else an error naming the key.
pub fn key_tap(key: &str) -> (r: Result<KeyTap, String>)
    ensures
        named_key_spec(crate::text::lower(key@)) matches Some(vk) ==> r == Ok::<KeyTap, String>(KeyTap::Virtual(vk)),
        named_key_spec(crate::text::lower(key@)) is None && key@.len() == 1 ==> r == Ok::<KeyTap, String>(
            KeyTap::Character(key@[0]),
        ),
        key_name_refused(key@) ==> (r matches Err(m) && m@ == "unsupported Windows key `"@ + key@ + "`"@),
{
    if let Some(vk) = named_virtual_key(key) {
        return Ok(KeyTap::Virtual(vk));
    }
    let chars = crate::text::chars_of(key);
    if chars.len() == 1 {
        return Ok(KeyTap::Character(chars[0]));
    }
    let mut m = owned("unsupported Windows key `");
    crate::text::push_str(&mut m, key);
    crate::text::push_str(&mut m, "`");
    Err(m)
}

// ---------------------------------------------------------------------------
// Operations
// ---------------------------------------------------------------------------

/// Enumerates the monitors. Enumeration is a native call that this build
/// does not carry; `displays_from_monitors` is what discovery makes of its
/// result.
pub fn discover_displays() -> (r: Result<Vec<DisplayInfo>, String>)
    ensures
        r matches Err(m) && m@ == unavailable_message(),
{
    Err(unavailable())
}

/// Enumerates the visible top-level windows. Enumeration is a native call
/// that this build does not carry; `windows_from_candidates` is what
/// discovery makes of its result.
pub fn discover_windows() -> (r: Result<Vec<WindowInfo>, String>)
    ensures
        r matches Err(m) && m@ == unavailable_message(),
{
    Err(unavailable())
}

/// Captures a monitor as PNG bytes: the monitors are discovered, the display
/// is looked up by identifier (`find_display`), and its area is copied.
/// Discovery fails in this build, and its error is the answer.
pub fn capture_display_png(display_id: &str) -> (r: Result<Vec<u8>, String>)
    ensures
        r matches Err(m) && m@ == unavailable_message(),
{
    let displays = discover_displays()?;
    let index = find_display(&displays, display_id)?;
    let _area = displays[index].bounds;
    Err(unavailable())
}

/// Captures a window as PNG bytes: the identifier is read first, and an
/// identifier that names no handle is refused; reading the window's
/// rectangle needs the native runtime.
pub fn capture_window_png(window_id: &str) -> (r: Result<Vec<u8>, String>)
    ensures
        window_handle_spec(window_id@) matches Err(f) ==> r matches Err(m) && m@ == unparsed_window_message(
            window_id@,
            f,
        ),
        window_handle_spec(window_id@) is Ok ==> (r matches Err(m) && m@ == unavailable_message()),
{
    let _handle = parse_window_id(window_id)?;
    Err(unavailable())
}

/// Brings a window to the foreground: the identifier is read first, and an
/// identifier that names no handle is refused.
pub fn focus_window(window_id: &str) -> (r: Result<(), String>)
    ensures
        window_handle_spec(window_id@) matches Err(f) ==> r matches Err(m) && m@ == unparsed_window_message(
            window_id@,
            f,
        ),
        window_handle_spec(window_id@) is Ok ==> (r matches Err(m) && m@ == unavailable_message()),
{
    let _handle = parse_window_id(window_id)?;
    Err(unavailable())
}

/// Types text as Unicode key events.
pub fn send_text(text: &str) -> (r: Result<(), String>)
    ensures
        r matches Err(m) && m@ == unavailable_message(),
{
    Err(unavailable())
}

/// Presses and releases one named key or character: a key that is neither
/// is refused (`key_tap`) before any event is sent.
pub fn tap_key(key: &str) -> (r: Result<(), String>)
    ensures
        key_name_refused(key@) ==> (r matches Err(m) && m@ == "unsupported Windows key `"@ + key@ + "`"@),
        !key_name_refused(key@) ==> (r matches Err(m) && m@ == unavailable_message()),
{
    let _tap = key_tap(key)?;
    Err(unavailable())
}

/// Presses a modifier and keeps it down.
pub fn hold_modifier(modifier: ModifierKey) -> (r: Result<(), String>)
    ensures
        r matches Err(m) && m@ == unavailable_message(),
{
    Err(unavailable())
}

/// Releases a held modifier.
pub fn release_modifier(modifier: ModifierKey) -> (r: Result<(), String>)
    ensures
        r matches Err(m) && m@ == unavailable_message(),
{
    Err(unavailable())
}

/// Clicks a mouse button at a screen point.
pub fn click_mouse(button: MouseButton, x: i32, y: i32) -> (r: Result<(), String>)
    ensures
        r matches Err(m) && m@ == unavailable_message(),
{
    Err(unavailable())
}

/// Drags with a mouse button held from one screen point to another.
pub fn drag_mouse(button: MouseButton, start_x: i32, start_y: i32, end_x: i32, end_y: i32) -> (r: Result<(), String>)
    ensures
        r matches Err(m) && m@ == unavailable_message(),
{
    Err(unavailable())
}

// ---------------------------------------------------------------------------
// Keyboard and mouse event codes of the native input path
// ---------------------------------------------------------------------------

/// Win32 virtual-key codes.
pub const VK_BACK: u16 = 0x08;
pub const VK_TAB: u16 = 0x09;
pub const VK_RETURN: u16 = 0x0D;
pub const VK_SHIFT: u16 = 0x10;
pub const VK_CONTROL: u16 = 0x11;
pub const VK_MENU: u16 = 0x12;
pub const VK_ESCAPE: u16 = 0x1B;
pub const VK_SPACE: u16 = 0x20;
pub const VK_PRIOR: u16 = 0x21;
pub const VK_NEXT: u16 = 0x22;
pub const VK_END: u16 = 0x23;
pub const VK_HOME: u16 = 0x24;
pub const VK_LEFT: u16 = 0x25;
pub const VK_UP: u16 = 0x26;
pub const VK_RIGHT: u16 = 0x27;
pub const VK_DOWN: u16 = 0x28;
pub const VK_DELETE: u16 = 0x2E;
pub const VK_LWIN: u16 = 0x5B;

/// Win32 mouse event flags.
pub const MOUSEEVENTF_LEFTDOWN: u32 = 0x0002;
pub const MOUSEEVENTF_LEFTUP: u32 = 0x0004;
pub const MOUSEEVENTF_RIGHTDOWN: u32 = 0x0008;
pub const MOUSEEVENTF_RIGHTUP: u32 = 0x0010;
pub const MOUSEEVENTF_MIDDLEDOWN: u32 = 0x0020;
pub const MOUSEEVENTF_MIDDLEUP: u32 = 0x0040;

/// Win32 keyboard event flags.
pub const KEYEVENTF_EXTENDEDKEY: u32 = 0x0001;
pub const KEYEVENTF_KEYUP: u32 = 0x0002;

/// The virtual key of a named key, by its ASCII-lower-cased name.
pub open spec fn named_key_spec(name: Seq<char>) -> Option<u16> {
    if name == "enter"@ || name == "return"@ {
        Some(VK_RETURN)
    } else if name == "esc"@ || name == "escape"@ {
        Some(VK_ESCAPE)
    } else if name == "tab"@ {
        Some(VK_TAB)
    } else if name == "space"@ {
        Some(VK_SPACE)
    } else if name == "backspace"@ {
        Some(VK_BACK)
    } else if name == "delete"@ || name == "del"@ {
        Some(VK_DELETE)
    } else if name == "left"@ {
        Some(VK_LEFT)
    } else if name == "right"@ {
        Some(VK_RIGHT)
    } else if name == "up"@ {
        Some(VK_UP)
    } else if name == "down"@ {
        Some(VK_DOWN)
    } else if name == "home"@ {
        Some(VK_HOME)
    } else if name == "end"@ {
        Some(VK_END)
    } else if name == "pageup"@ {
        Some(VK_PRIOR)
    } else if name == "pagedown"@ {
        Some(VK_NEXT)
    } else {
        None
    }
}

/// The virtual key of a named key (any ASCII case), if it has one.
pub fn named_virtual_key(key: &str) -> (r: Option<u16>)
    ensures
        r == named_key_spec(crate::text::lower(key@)),
{
    let v = crate::text::chars_of(key);
    let k = crate::text::to_lower(v.as_slice());
    let k = k.as_slice();
    if crate::text::is(k, "enter") || crate::text::is(k, "return") {
        Some(VK_RETURN)
    } else if crate::text::is(k, "esc") || crate::text::is(k, "escape") {
        Some(VK_ESCAPE)
    } else if crate::text::is(k, "tab") {
        Some(VK_TAB)
    } else if crate::text::is(k, "space") {
        Some(VK_SPACE)
    } else if crate::text::is(k, "backspace") {
        Some(VK_BACK)
    } else if crate::text::is(k, "delete") || crate::text::is(k, "del") {
        Some(VK_DELETE)
    } else if crate::text::is(k, "left") {
        Some(VK_LEFT)
    } else if crate::text::is(k, "right") {
        Some(VK_RIGHT)
    } else if crate::text::is(k, "up") {
        Some(VK_UP)
    } else if crate::text::is(k, "down") {
        Some(VK_DOWN)
    } else if crate::text::is(k, "home") {
        Some(VK_HOME)
    } else if crate::text::is(k, "end") {
        Some(VK_END)
    } else if crate::text::is(k, "pageup") {
        Some(VK_PRIOR)
    } else if crate::text::is(k, "pagedown") {
        Some(VK_NEXT)
    } else {
        None
    }
}

/// The virtual key of a modifier (the left Windows key for `meta`).
pub fn modifier_virtual_key(modifier: ModifierKey) -> (r: u16)
    ensures
        r == match modifier {
            ModifierKey::Ctrl => VK_CONTROL,
            ModifierKey::Alt => VK_MENU,
            ModifierKey::Shift => VK_SHIFT,
            ModifierKey::Meta => VK_LWIN,
        },
{
    match modifier {
        ModifierKey::Ctrl => VK_CONTROL,
        ModifierKey::Alt => VK_MENU,
        ModifierKey::Shift => VK_SHIFT,
        ModifierKey::Meta => VK_LWIN,
    }
}

/// The press and release flags of a mouse button.
pub fn mouse_event_flags(button: MouseButton) -> (r: (u32, u32))
    ensures
        r == match button {
            MouseButton::Left => (MOUSEEVENTF_LEFTDOWN, MOUSEEVENTF_LEFTUP),
            MouseButton::Middle => (MOUSEEVENTF_MIDDLEDOWN, MOUSEEVENTF_MIDDLEUP),
            MouseButton::Right => (MOUSEEVENTF_RIGHTDOWN, MOUSEEVENTF_RIGHTUP),
        },
{
    match button {
        MouseButton::Left => (MOUSEEVENTF_LEFTDOWN, MOUSEEVENTF_LEFTUP),
        MouseButton::Middle => (MOUSEEVENTF_MIDDLEDOWN, MOUSEEVENTF_MIDDLEUP),
        MouseButton::Right => (MOUSEEVENTF_RIGHTDOWN, MOUSEEVENTF_RIGHTUP),
    }
}

/// Keys on the extended part of the keyboard (arrows, navigation block,
/// delete, the right-hand modifiers).
pub open spec fn is_extended_key(vk: u16) -> bool {
    vk == VK_LEFT || vk == VK_RIGHT || vk == VK_UP || vk == VK_DOWN || vk == VK_HOME || vk == VK_END || vk == VK_PRIOR
        || vk == VK_NEXT || vk == VK_DELETE || vk == VK_MENU || vk == VK_CONTROL || vk == VK_LWIN
}

/// The extended-key flag a keyboard event for `vk` carries.
pub fn extended_key_flag(vk: u16) -> (r: u32)
    ensures
        r == if is_extended_key(vk) { KEYEVENTF_EXTENDEDKEY } else { 0 },
{
    if vk == VK_LEFT || vk == VK_RIGHT || vk == VK_UP || vk == VK_DOWN || vk == VK_HOME || vk == VK_END || vk == VK_PRIOR
        || vk == VK_NEXT || vk == VK_DELETE || vk == VK_MENU || vk == VK_CONTROL || vk == VK_LWIN {
        KEYEVENTF_EXTENDEDKEY
    } else {
        0
    }
}

/// One keyboard event: the virtual key and whether it is a release.
#[derive(Debug, Clone, Copy, PartialEq, Eq, Structural)]
pub struct KeyEvent {
    pub vk: u16,
    pub key_up: bool,
}

pub open spec fn press(vk: u16) -> KeyEvent {
    KeyEvent { vk, key_up: false }
}

pub open spec fn release(vk: u16) -> KeyEvent {
    KeyEvent { vk, key_up: true }
}

/// The events that type a character whose keyboard-layout translation is
/// `vk` with the shift-state bits `shift_state` (1 shift, 2 ctrl, 4 alt):
/// the needed modifiers pressed in that order, the key tapped, the
/// modifiers released in reverse order.
pub open spec fn chord_events(vk: u16, shift_state: u8) -> Seq<KeyEvent> {
    let shift = shift_state % 2 == 1;
    let ctrl = (shift_state / 2) % 2 == 1;
    let alt = (shift_state / 4) % 2 == 1;
    (if shift { seq![press(VK_SHIFT)] } else { seq![] }) + (if ctrl { seq![press(VK_CONTROL)] } else { seq![] }) + (
    if alt { seq![press(VK_MENU)] } else { seq![] }) + seq![press(vk), release(vk)] + (if alt {
        seq![release(VK_MENU)]
    } else {
        seq![]
    }) + (if ctrl { seq![release(VK_CONTROL)] } else { seq![] }) + (if shift { seq![release(VK_SHIFT)] } else { seq![] })
}

/// The events that type a character, from the layout's translation of it
/// (`VkKeyScanW`: the virtual key in the low byte, the shift state in the
/// high byte, `-1` when the layout has no key for it). `None` when the
/// character must be sent as Unicode text instead.
pub fn character_key_events(translated: i16) -> (r: Option<Vec<KeyEvent>>)
    ensures
        translated == -1 ==> r is None,
        translated != -1 ==> (r matches Some(events) && events@ == chord_events(
            (translated as u16) % 256,
            ((translated as u16) / 256) as u8,
        )),
{
    if translated == -1 {
        return None;
    }
    let bits: u16 = translated as u16;
    let vk: u16 = bits % 256;
    let shift_state: u8 = (bits / 256) as u8;
    let shift = shift_state % 2 == 1;
    let ctrl = (shift_state / 2) % 2 == 1;
    let alt = (shift_state / 4) % 2 == 1;
    let mut events: Vec<KeyEvent> = Vec::new();
    if shift {
        events.push(KeyEvent { vk: VK_SHIFT, key_up: false });
    }
    if ctrl {
        events.push(KeyEvent { vk: VK_CONTROL, key_up: false });
    }
    if alt {
        events.push(KeyEvent { vk: VK_MENU, key_up: false });
    }
    events.push(KeyEvent { vk, key_up: false });
    events.push(KeyEvent { vk, key_up: true });
    if alt {
        events.push(KeyEvent { vk: VK_MENU, key_up: true });
    }
    if ctrl {
        events.push(KeyEvent { vk: VK_CONTROL, key_up: true });
    }
    if shift {
        events.push(KeyEvent { vk: VK_SHIFT, key_up: true });
    }
    assert(events@ =~= chord_events(vk, shift_state));
    Some(events)
}

} // verus!
