//! Target discovery: which backend answers for a platform and session, the
//! parsers and classifiers for compositor output, the mapping of compositor
//! and Windows metadata to targets, and the stable ordering of an inventory.
use vstd::prelude::*;

use crate::elements::{first_sign, is_sign};
use crate::envelope::ErrorCategory;
use crate::error::{Detail, DetailValue, PlatformAdapterError};
use crate::model::{Bounds, ScaleFactor};
use crate::platform::{Capability, CaptureTargetKind, DesktopSession, PlatformKind, TargetCapabilityDiagnostic, TargetDescriptor, TargetInventory};
use crate::win32::{DisplayInfo, WindowInfo};
use crate::text::{self, contains, index_of, lower, opt_view, owned, starts_with, trim, words};

verus! {

// ---------------------------------------------------------------------------
// Classifiers
// ---------------------------------------------------------------------------

/// Application identifiers owned by the desktop session itself (portal
/// dialogs), matched as case-insensitive prefixes.
pub open spec fn is_system_window_name(s: Seq<char>) -> bool {
    let l = lower(s);
    starts_with(l, "xdg-desktop-portal"@) || starts_with(l, "org.freedesktop.impl.portal"@) || starts_with(
        l,
        "org.freedesktop.portal"@,
    )
}

fn system_window_name(s: &str) -> (r: bool)
    ensures
        r == is_system_window_name(s@),
{
    let l = text::to_lower(text::chars_of(s).as_slice());
    text::starts_with_lit(l.as_slice(), "xdg-desktop-portal") || text::starts_with_lit(
        l.as_slice(),
        "org.freedesktop.impl.portal",
    ) || text::starts_with_lit(l.as_slice(), "org.freedesktop.portal")
}

/// Windows that belong to the desktop session (portal authorization dialogs
/// and the like) never appear as capture targets. The application identifier
/// decides; the title is consulted only when there is no identifier at all.
pub fn is_filtered_system_window(app_name: Option<&str>, title: Option<&str>) -> (r: bool)
    ensures
        r == match app_name {
            Some(app) => is_system_window_name(app@),
            None => title matches Some(t) && is_system_window_name(t@),
        },
{
    match app_name {
        Some(app) => system_window_name(app),
        None => match title {
            Some(t) => system_window_name(t),
            None => false,
        },
    }
}

/// Markers in a compositor tool's output that say its compositor is not the
/// running one (rather than that the tool failed).
pub open spec fn backend_unavailable_spec(stdout: Seq<char>, stderr: Seq<char>) -> bool {
    contains(stderr, "unknown socket"@) || contains(stderr, "unable to retrieve socket path"@) || contains(
        stderr,
        "unable to connect"@,
    ) || contains(stderr, "hyprland_instance_signature not set"@) || contains(stderr, "is hyprland running"@)
        || contains(stderr, "ipc"@) || contains(stdout, "unable to connect"@) || contains(
        stdout,
        "no running instance"@,
    ) || contains(stdout, "hyprland_instance_signature not set"@) || contains(stdout, "is hyprland running"@)
}

/// Whether a failed compositor query means "this backend is not running here",
/// given its (lower-cased) standard output and error.
pub fn command_output_means_backend_unavailable(stdout: &str, stderr: &str) -> (r: bool)
    ensures
        r == backend_unavailable_spec(stdout@, stderr@),
{
    let out = text::chars_of(stdout);
    let err = text::chars_of(stderr);
    let o = out.as_slice();
    let e = err.as_slice();
    text::contains_lit(e, "unknown socket") || text::contains_lit(e, "unable to retrieve socket path")
        || text::contains_lit(e, "unable to connect") || text::contains_lit(e, "hyprland_instance_signature not set")
        || text::contains_lit(e, "is hyprland running") || text::contains_lit(e, "ipc") || text::contains_lit(
        o,
        "unable to connect",
    ) || text::contains_lit(o, "no running instance") || text::contains_lit(o, "hyprland_instance_signature not set")
        || text::contains_lit(o, "is hyprland running")
}

/// Phrases by which macOS reports a missing privacy consent.
pub open spec fn macos_permission_spec(message: Seq<char>) -> bool {
    let l = lower(message);
    contains(l, "not authorized"@) || contains(l, "not permitted"@) || contains(l, "assistive access"@) || contains(
        l,
        "screen recording"@,
    ) || contains(l, "screen capture"@) || contains(l, "apple events"@) || contains(l, "-1719"@) || contains(
        l,
        "-1743"@,
    )
}

/// Whether an `osascript` failure message is a permission failure.
pub fn is_macos_permission_error(message: &str) -> (r: bool)
    ensures
        r == macos_permission_spec(message@),
{
    let lv = text::to_lower(text::chars_of(message).as_slice());
    let l = lv.as_slice();
    text::contains_lit(l, "not authorized") || text::contains_lit(l, "not permitted") || text::contains_lit(
        l,
        "assistive access",
    ) || text::contains_lit(l, "screen recording") || text::contains_lit(l, "screen capture") || text::contains_lit(
        l,
        "apple events",
    ) || text::contains_lit(l, "-1719") || text::contains_lit(l, "-1743")
}

// ---------------------------------------------------------------------------
// Geometry
// ---------------------------------------------------------------------------

/// Index of the first sign of `v`, the first character included.
pub open spec fn leading_sign(v: Seq<char>) -> Option<int> {
    if v.len() > 0 && is_sign(v[0]) {
        Some(0)
    } else {
        first_sign(v)
    }
}

/// `WIDTHxHEIGHT±X±Y`, the offsets signed.
pub open spec fn simple_geometry_spec(token: Seq<char>) -> Option<Bounds> {
    match index_of(token, 'x') {
        None => None,
        Some(p) => geometry_after_x(token.take(p), token.skip(p + 1)),
    }
}

/// The size and offsets once the `x` has been found.
pub open spec fn geometry_after_x(width: Seq<char>, rest: Seq<char>) -> Option<Bounds> {
    match leading_sign(rest) {
        None => None,
        Some(i) => {
            let offsets = rest.skip(i);
            match first_sign(offsets) {
                None => None,
                Some(j) => match (
                    text::parse_i32_spec(offsets.take(j)),
                    text::parse_i32_spec(offsets.skip(j)),
                    text::parse_u32_spec(width),
                    text::parse_u32_spec(rest.take(i)),
                ) {
                    (Some(x), Some(y), Some(w), Some(h)) => Some(Bounds { x, y, width: w, height: h }),
                    _ => None,
                },
            }
        },
    }
}

fn parse_geometry_after_x(width: &[char], rest: &[char]) -> (r: Option<Bounds>)
    ensures
        r == geometry_after_x(width@, rest@),
{
    let i = if rest.len() > 0 && (rest[0] == '+' || rest[0] == '-') {
        0
    } else {
        crate::elements::find_sign(rest)?
    };
    let offsets = text::slice_vec(rest, i, rest.len());
    assert(offsets@ =~= rest@.skip(i as int));
    let j = crate::elements::find_sign(offsets.as_slice())?;
    let xs = text::slice_vec(offsets.as_slice(), 0, j);
    let ys = text::slice_vec(offsets.as_slice(), j, offsets.len());
    let hs = text::slice_vec(rest, 0, i);
    assert(xs@ =~= offsets@.take(j as int));
    assert(ys@ =~= offsets@.skip(j as int));
    assert(hs@ =~= rest@.take(i as int));
    let x = text::parse_i32(xs.as_slice())?;
    let y = text::parse_i32(ys.as_slice())?;
    let w = text::parse_u32(width)?;
    let h = text::parse_u32(hs.as_slice())?;
    Some(Bounds { x, y, width: w, height: h })
}

fn parse_simple_geometry_chars(token: &[char]) -> (r: Option<Bounds>)
    ensures
        r == simple_geometry_spec(token@),
{
    let p = text::index_of_char(token, 'x')?;
    let n = token.len();
    assert(p < n);
    let rest = text::slice_vec(token, p + 1, n);
    let ws = text::slice_vec(token, 0, p);
    assert(rest@ =~= token@.skip(p + 1));
    assert(ws@ =~= token@.take(p as int));
    parse_geometry_after_x(ws.as_slice(), rest.as_slice())
}

/// Parses `WIDTHxHEIGHT±X±Y` geometry (negative offsets included).
pub fn parse_simple_geometry(token: &str) -> (r: Option<Bounds>)
    ensures
        r == simple_geometry_spec(token@),
{
    let v = text::chars_of(token);
    parse_simple_geometry_chars(v.as_slice())
}

/// The first word holding both an `x` and a `+`.
pub open spec fn first_geometry_word(ws: Seq<Seq<char>>) -> Option<Seq<char>>
    decreases ws.len(),
{
    if ws.len() == 0 {
        None
    } else if text::has_char(ws[0], 'x') && text::has_char(ws[0], '+') {
        Some(ws[0])
    } else {
        first_geometry_word(ws.drop_first())
    }
}

/// The geometry on a `wlr-randr` mode line: its first geometry-like word.
pub open spec fn wlr_randr_mode_spec(line: Seq<char>) -> Option<Bounds> {
    match first_geometry_word(words(line)) {
        Some(w) => simple_geometry_spec(w),
        None => None,
    }
}

fn parse_wlr_randr_mode_chars(line: &[char]) -> (r: Option<Bounds>)
    ensures
        r == wlr_randr_mode_spec(line@),
{
    let ws = text::split_whitespace(line);
    let ghost all = ws@.map_values(|w: Vec<char>| w@);
    let mut i: usize = 0;
    assert(all.skip(0) =~= all);
    while i < ws.len()
        invariant
            i <= ws@.len(),
            all == ws@.map_values(|w: Vec<char>| w@),
            all == words(line@),
            first_geometry_word(all) == first_geometry_word(all.skip(i as int)),
        decreases ws.len() - i,
    {
        let w = &ws[i];
        assert(all.skip(i as int).drop_first() =~= all.skip(i + 1));
        assert(all.skip(i as int)[0] == w@);
        if text::contains_char(w.as_slice(), 'x') && text::contains_char(w.as_slice(), '+') {
            return parse_simple_geometry_chars(w.as_slice());
        }
        i += 1;
    }
    assert(all.skip(i as int).len() == 0);
    None
}

/// Parses the geometry of a `wlr-randr` `current` mode line.
pub fn parse_wlr_randr_mode(line: &str) -> (r: Option<Bounds>)
    ensures
        r == wlr_randr_mode_spec(line@),
{
    let v = text::chars_of(line);
    parse_wlr_randr_mode_chars(v.as_slice())
}

// ---------------------------------------------------------------------------
// Ordering of an inventory
// ---------------------------------------------------------------------------

/// Lexicographic order of character sequences, as `Ord` for strings.
pub open spec fn seq_lt(a: Seq<char>, b: Seq<char>) -> bool
    decreases a.len(),
{
    if a.len() == 0 {
        b.len() > 0
    } else if b.len() == 0 {
        false
    } else if a[0] != b[0] {
        a[0] < b[0]
    } else {
        seq_lt(a.drop_first(), b.drop_first())
    }
}

pub proof fn lemma_seq_lt_irreflexive(a: Seq<char>)
    ensures
        !seq_lt(a, a),
    decreases a.len(),
{
    if a.len() > 0 {
        lemma_seq_lt_irreflexive(a.drop_first());
    }
}

pub proof fn lemma_seq_lt_transitive(a: Seq<char>, b: Seq<char>, c: Seq<char>)
    requires
        seq_lt(a, b),
        seq_lt(b, c),
    ensures
        seq_lt(a, c),
    decreases a.len(),
{
    if a.len() > 0 && b.len() > 0 && c.len() > 0 && a[0] == b[0] && b[0] == c[0] {
        lemma_seq_lt_transitive(a.drop_first(), b.drop_first(), c.drop_first());
    }
}

/// Displays come before windows.
pub open spec fn kind_rank(kind: CaptureTargetKind) -> int {
    match kind {
        CaptureTargetKind::Display => 0,
        CaptureTargetKind::Window => 1,
    }
}

/// The ordering of targets: kind, then top edge, then left edge, then name and
/// identifier compared without ASCII case.
pub open spec fn target_lt(a: TargetDescriptor, b: TargetDescriptor) -> bool {
    let (na, nb) = (lower(a.name@), lower(b.name@));
    ||| kind_rank(a.kind) < kind_rank(b.kind)
    ||| kind_rank(a.kind) == kind_rank(b.kind) && a.bounds.y < b.bounds.y
    ||| kind_rank(a.kind) == kind_rank(b.kind) && a.bounds.y == b.bounds.y && a.bounds.x < b.bounds.x
    ||| kind_rank(a.kind) == kind_rank(b.kind) && a.bounds.y == b.bounds.y && a.bounds.x == b.bounds.x
        && seq_lt(na, nb)
    ||| kind_rank(a.kind) == kind_rank(b.kind) && a.bounds.y == b.bounds.y && a.bounds.x == b.bounds.x
        && na == nb && seq_lt(lower(a.id@), lower(b.id@))
}

pub proof fn lemma_target_lt_irreflexive(a: TargetDescriptor)
    ensures
        !target_lt(a, a),
{
    lemma_seq_lt_irreflexive(lower(a.name@));
    lemma_seq_lt_irreflexive(lower(a.id@));
}

pub proof fn lemma_target_lt_transitive(a: TargetDescriptor, b: TargetDescriptor, c: TargetDescriptor)
    requires
        target_lt(a, b),
        target_lt(b, c),
    ensures
        target_lt(a, c),
{
    let (na, nb, nc) = (lower(a.name@), lower(b.name@), lower(c.name@));
    let (ia, ib, ic) = (lower(a.id@), lower(b.id@), lower(c.id@));
    if seq_lt(na, nb) && seq_lt(nb, nc) {
        lemma_seq_lt_transitive(na, nb, nc);
    }
    if seq_lt(ia, ib) && seq_lt(ib, ic) {
        lemma_seq_lt_transitive(ia, ib, ic);
    }
}

/// Where `x` goes in an ordered sequence: after every target it does not
/// precede, so that equal targets keep their order.
pub open spec fn insert_position(s: Seq<TargetDescriptor>, x: TargetDescriptor) -> int
    decreases s.len(),
{
    if s.len() == 0 {
        0
    } else if target_lt(x, s[0]) {
        0
    } else {
        1 + insert_position(s.drop_first(), x)
    }
}

/// The stable sort of targets: each target is placed after the ones before
/// it that it does not precede.
pub open spec fn stable_sorted(s: Seq<TargetDescriptor>) -> Seq<TargetDescriptor>
    decreases s.len(),
{
    if s.len() == 0 {
        s
    } else {
        let r = stable_sorted(s.drop_last());
        r.insert(insert_position(r, s.last()), s.last())
    }
}

pub open spec fn is_ordered(s: Seq<TargetDescriptor>) -> bool {
    forall|i: int, j: int| 0 <= i < j < s.len() ==> !target_lt(#[trigger] s[j], #[trigger] s[i])
}

proof fn lemma_insert_position(s: Seq<TargetDescriptor>, x: TargetDescriptor)
    ensures
        0 <= insert_position(s, x) <= s.len(),
        forall|j: int| 0 <= j < insert_position(s, x) ==> !target_lt(x, #[trigger] s[j]),
        insert_position(s, x) < s.len() ==> target_lt(x, s[insert_position(s, x)]),
    decreases s.len(),
{
    if s.len() > 0 && !target_lt(x, s[0]) {
        lemma_insert_position(s.drop_first(), x);
        assert forall|j: int| 0 <= j < insert_position(s, x) implies !target_lt(x, #[trigger] s[j]) by {
            if j > 0 {
                assert(s[j] == s.drop_first()[j - 1]);
            }
        }
    }
}

proof fn lemma_insert_position_skip(s: Seq<TargetDescriptor>, x: TargetDescriptor, k: int)
    requires
        0 <= k <= s.len(),
        forall|j: int| 0 <= j < k ==> !target_lt(x, #[trigger] s[j]),
    ensures
        insert_position(s, x) == k + insert_position(s.skip(k), x),
    decreases k,
{
    if k > 0 {
        assert(s.drop_first().skip(k - 1) =~= s.skip(k));
        assert forall|j: int| 0 <= j < k - 1 implies !target_lt(x, #[trigger] s.drop_first()[j]) by {
            assert(s.drop_first()[j] == s[j + 1]);
        }
        lemma_insert_position_skip(s.drop_first(), x, k - 1);
    } else {
        assert(s.skip(0) =~= s);
    }
}

proof fn lemma_insert_keeps_order(s: Seq<TargetDescriptor>, x: TargetDescriptor)
    requires
        is_ordered(s),
    ensures
        is_ordered(s.insert(insert_position(s, x), x)),
{
    lemma_insert_position(s, x);
    let p = insert_position(s, x);
    let r = s.insert(p, x);
    assert forall|i: int, j: int| 0 <= i < j < r.len() implies !target_lt(#[trigger] r[j], #[trigger] r[i]) by {
        if j < p {
            assert(r[i] == s[i] && r[j] == s[j]);
        } else if j == p {
            assert(r[i] == s[i]);
        } else if i == p {
            assert(r[j] == s[j - 1]);
            if target_lt(s[j - 1], x) {
                lemma_insert_position(s, x);
                if j - 1 == p {
                    lemma_target_lt_transitive(s[p], x, s[p]);
                    lemma_target_lt_irreflexive(s[p]);
                } else {
                    lemma_target_lt_transitive(s[j - 1], x, s[p]);
                }
            }
        } else if i < p {
            assert(r[i] == s[i] && r[j] == s[j - 1]);
        } else {
            assert(r[i] == s[i - 1] && r[j] == s[j - 1]);
        }
    }
}

/// The sort puts the targets in order: no target precedes one before it.
pub proof fn lemma_stable_sorted_is_ordered(s: Seq<TargetDescriptor>)
    ensures
        is_ordered(stable_sorted(s)),
    decreases s.len(),
{
    if s.len() > 0 {
        lemma_stable_sorted_is_ordered(s.drop_last());
        lemma_insert_keeps_order(stable_sorted(s.drop_last()), s.last());
    }
}

/// The sort neither loses nor adds targets.
pub proof fn lemma_stable_sorted_is_permutation(s: Seq<TargetDescriptor>)
    ensures
        stable_sorted(s).to_multiset() == s.to_multiset(),
    decreases s.len(),
{
    if s.len() > 0 {
        let r = stable_sorted(s.drop_last());
        lemma_stable_sorted_is_permutation(s.drop_last());
        lemma_insert_position(r, s.last());
        vstd::seq_lib::to_multiset_insert(r, insert_position(r, s.last()), s.last());
        vstd::seq_lib::to_multiset_build(s.drop_last(), s.last());
        assert(s.drop_last().push(s.last()) =~= s);
    }
}

/// Whether `x` should go before `y`.
fn target_precedes(x: &TargetDescriptor, y: &TargetDescriptor) -> (r: bool)
    ensures
        r == target_lt(*x, *y),
{
    let rx: u8 = match x.kind {
        CaptureTargetKind::Display => 0,
        CaptureTargetKind::Window => 1,
    };
    let ry: u8 = match y.kind {
        CaptureTargetKind::Display => 0,
        CaptureTargetKind::Window => 1,
    };
    if rx != ry {
        return rx < ry;
    }
    if x.bounds.y != y.bounds.y {
        return x.bounds.y < y.bounds.y;
    }
    if x.bounds.x != y.bounds.x {
        return x.bounds.x < y.bounds.x;
    }
    let nx = text::to_lower(text::chars_of(x.name.as_str()).as_slice());
    let ny = text::to_lower(text::chars_of(y.name.as_str()).as_slice());
    if chars_lt(nx.as_slice(), ny.as_slice()) {
        return true;
    }
    if !text::same(nx.as_slice(), ny.as_slice()) {
        proof {
            lemma_seq_lt_total(nx@, ny@);
        }
        return false;
    }
    let ix = text::to_lower(text::chars_of(x.id.as_str()).as_slice());
    let iy = text::to_lower(text::chars_of(y.id.as_str()).as_slice());
    chars_lt(ix.as_slice(), iy.as_slice())
}

pub(crate) proof fn lemma_seq_lt_total(a: Seq<char>, b: Seq<char>)
    requires
        a != b,
        !seq_lt(a, b),
    ensures
        seq_lt(b, a),
    decreases a.len(),
{
    if a.len() == 0 && b.len() == 0 {
        assert(a =~= b);
    } else if a.len() > 0 && b.len() > 0 {
        if a[0] == b[0] {
            if a.drop_first() =~= b.drop_first() {
                assert forall|k: int| 0 <= k < a.len() implies a[k] == b[k] by {
                    if k > 0 {
                        assert(a[k] == a.drop_first()[k - 1]);
                        assert(b[k] == b.drop_first()[k - 1]);
                    }
                }
                assert(a =~= b);
            }
            lemma_seq_lt_total(a.drop_first(), b.drop_first());
        } else {
            assert(b[0] < a[0]);
        }
    }
}

/// Lexicographic comparison of characters.
pub(crate) fn chars_lt(a: &[char], b: &[char]) -> (r: bool)
    ensures
        r == seq_lt(a@, b@),
{
    let mut i: usize = 0;
    assert(a@.skip(0) =~= a@);
    assert(b@.skip(0) =~= b@);
    while i < a.len() && i < b.len()
        invariant
            i <= a@.len(),
            i <= b@.len(),
            seq_lt(a@, b@) == seq_lt(a@.skip(i as int), b@.skip(i as int)),
        decreases a.len() - i,
    {
        if a[i] != b[i] {
            assert(a@.skip(i as int)[0] == a@[i as int]);
            assert(b@.skip(i as int)[0] == b@[i as int]);
            return a[i] < b[i];
        }
        assert(a@.skip(i as int).drop_first() =~= a@.skip(i + 1));
        assert(b@.skip(i as int).drop_first() =~= b@.skip(i + 1));
        i += 1;
    }
    i == a.len() && i < b.len()
}

/// The stable sort of targets, by insertion.
fn sort_targets(targets: Vec<TargetDescriptor>) -> (r: Vec<TargetDescriptor>)
    ensures
        r@ == stable_sorted(targets@),
{
    let ghost orig = targets@;
    let len = targets.len();
    let mut rest = targets;
    let mut out: Vec<TargetDescriptor> = Vec::new();
    let mut n: usize = 0;
    assert(orig.skip(0) =~= orig);
    assert(orig.take(0) =~= Seq::<TargetDescriptor>::empty());
    while rest.len() > 0
        invariant
            orig.len() == len,
            n <= orig.len(),
            rest@ == orig.skip(n as int),
            out@ == stable_sorted(orig.take(n as int)),
        decreases rest.len(),
    {
        let x = rest.remove(0);
        assert(x == orig[n as int]);
        let mut k: usize = 0;
        while k < out.len() && !target_precedes(&x, &out[k])
            invariant
                k <= out@.len(),
                forall|j: int| 0 <= j < k ==> !target_lt(x, #[trigger] out@[j]),
            decreases out.len() - k,
        {
            k += 1;
        }
        proof {
            lemma_insert_position_skip(out@, x, k as int);
            if k < out@.len() {
                assert(out@.skip(k as int)[0] == out@[k as int]);
            }
            assert(orig.take(n + 1).drop_last() =~= orig.take(n as int));
            assert(orig.take(n + 1).last() == x);
        }
        out.insert(k, x);
        n += 1;
        assert(rest@ =~= orig.skip(n as int));
    }
    assert(orig.take(n as int) =~= orig);
    out
}

/// Displays among the first `n` targets.
pub open spec fn displays_before(s: Seq<TargetDescriptor>, n: int) -> nat
    decreases n,
{
    if n <= 0 {
        0
    } else {
        displays_before(s, n - 1) + if s[n - 1].kind == CaptureTargetKind::Display { 1nat } else { 0nat }
    }
}

/// `b` is `a` with at most its identifier changed.
pub open spec fn same_but_id(a: TargetDescriptor, b: TargetDescriptor) -> bool {
    &&& a.kind == b.kind
    &&& a.name == b.name
    &&& a.title == b.title
    &&& a.bounds == b.bounds
    &&& a.scale_factor == b.scale_factor
    &&& a.capture_supported == b.capture_supported
    &&& a.input_supported == b.input_supported
    &&& a.diagnostics == b.diagnostics
    &&& a.app_name == b.app_name
    &&& a.process_id == b.process_id
}

/// `out` is `s` with displays renumbered `1`, `2`, ... in order.
pub open spec fn displays_numbered(s: Seq<TargetDescriptor>, out: Seq<TargetDescriptor>) -> bool {
    &&& out.len() == s.len()
    &&& forall|i: int| 0 <= i < s.len() ==> same_but_id(#[trigger] s[i], out[i])
    &&& forall|i: int|
        0 <= i < s.len() ==> (#[trigger] out[i]).id@ == if s[i].kind == CaptureTargetKind::Display {
            text::decimal(displays_before(s, i + 1))
        } else {
            s[i].id@
        }
}

/// Orders targets (displays first, then top to bottom, left to right, then by
/// name and identifier without ASCII case; ties keep their order) and numbers
/// the displays `1`, `2`, ... so that users can write `--display 1`.
pub fn sort_inventory(inventory: TargetInventory) -> (r: TargetInventory)
    ensures
        displays_numbered(stable_sorted(inventory.targets@), r.targets@),
{
    let sorted = sort_targets(inventory.targets);
    let ghost s = sorted@;
    let len = sorted.len();
    let mut rest = sorted;
    let mut out: Vec<TargetDescriptor> = Vec::new();
    let mut count: u64 = 0;
    let mut n: usize = 0;
    assert(s.skip(0) =~= s);
    while rest.len() > 0
        invariant
            s.len() == len,
            n <= s.len(),
            rest@ == s.skip(n as int),
            out@.len() == n,
            count == displays_before(s, n as int),
            count <= n,
            forall|i: int| 0 <= i < n ==> same_but_id(#[trigger] s[i], out@[i]),
            forall|i: int|
                0 <= i < n ==> (#[trigger] out@[i]).id@ == if s[i].kind == CaptureTargetKind::Display {
                    text::decimal(displays_before(s, i + 1))
                } else {
                    s[i].id@
                },
        decreases rest.len(),
    {
        let mut t = rest.remove(0);
        assert(t == s[n as int]);
        if t.kind == CaptureTargetKind::Display {
            count += 1;
            t.id = text::format_u64(count);
        }
        out.push(t);
        n += 1;
        assert(rest@ =~= s.skip(n as int));
    }
    TargetInventory { targets: out }
}

/// What `sort_inventory` makes of an inventory: the same targets (up to the
/// display identifiers), ordered so that no target is followed by one that
/// sorts before it (displays first, then top edge, left edge, name and
/// identifier without ASCII case); every display precedes every window; the
/// `n`-th display is numbered `n`; windows keep their identifiers.
pub proof fn law_sorted_inventory(targets: Seq<TargetDescriptor>, out: Seq<TargetDescriptor>)
    requires
        displays_numbered(stable_sorted(targets), out),
    ensures
        stable_sorted(targets).to_multiset() == targets.to_multiset(),
        is_ordered(stable_sorted(targets)),
        out.len() == targets.len(),
        forall|i: int| 0 <= i < out.len() ==> same_but_id(stable_sorted(targets)[i], #[trigger] out[i]),
        forall|i: int, j: int|
            0 <= i < j < out.len() && (#[trigger] out[j]).kind == CaptureTargetKind::Display ==> (#[trigger] out[i]).kind
                == CaptureTargetKind::Display,
        forall|i: int|
            0 <= i < out.len() ==> (#[trigger] out[i]).id@ == if out[i].kind == CaptureTargetKind::Display {
                text::decimal(displays_before(stable_sorted(targets), i + 1))
            } else {
                stable_sorted(targets)[i].id@
            },
{
    let s = stable_sorted(targets);
    lemma_stable_sorted_is_ordered(targets);
    lemma_stable_sorted_is_permutation(targets);
    vstd::seq_lib::to_multiset_len(s);
    vstd::seq_lib::to_multiset_len(targets);
    assert forall|i: int, j: int|
        0 <= i < j < out.len() && (#[trigger] out[j]).kind == CaptureTargetKind::Display implies (#[trigger] out[i]).kind
            == CaptureTargetKind::Display by {
        assert(same_but_id(s[i], out[i]) && same_but_id(s[j], out[j]));
        assert(!target_lt(s[j], s[i]));
    }
}

/// Within each kind, a sorted inventory runs top to bottom: of two targets
/// of the same kind, the one listed first has the smaller or equal top edge,
/// and only on an equal top edge does the left edge decide (the one listed
/// first has the smaller or equal left edge); on an equal corner the name
/// without ASCII case decides.
pub proof fn law_sorted_inventory_by_position(targets: Seq<TargetDescriptor>, out: Seq<TargetDescriptor>)
    requires
        displays_numbered(stable_sorted(targets), out),
    ensures
        forall|i: int, j: int|
            0 <= i < j < out.len() && (#[trigger] out[i]).kind == (#[trigger] out[j]).kind ==> {
                &&& out[i].bounds.y <= out[j].bounds.y
                &&& out[i].bounds.y == out[j].bounds.y ==> out[i].bounds.x <= out[j].bounds.x
                &&& out[i].bounds.y == out[j].bounds.y && out[i].bounds.x == out[j].bounds.x ==> !seq_lt(
                    lower(out[j].name@),
                    lower(out[i].name@),
                )
            },
{
    let s = stable_sorted(targets);
    lemma_stable_sorted_is_ordered(targets);
    assert forall|i: int, j: int|
        0 <= i < j < out.len() && (#[trigger] out[i]).kind == (#[trigger] out[j]).kind implies {
            &&& out[i].bounds.y <= out[j].bounds.y
            &&& out[i].bounds.y == out[j].bounds.y ==> out[i].bounds.x <= out[j].bounds.x
            &&& out[i].bounds.y == out[j].bounds.y && out[i].bounds.x == out[j].bounds.x ==> !seq_lt(
                lower(out[j].name@),
                lower(out[i].name@),
            )
        } by {
        assert(same_but_id(s[i], out[i]) && same_but_id(s[j], out[j]));
        assert(!target_lt(s[j], s[i]));
    }
}

/// The display identifiers of a sorted inventory count up from one.
pub proof fn lemma_display_ids_count_up(s: Seq<TargetDescriptor>, out: Seq<TargetDescriptor>, i: int, j: int)
    requires
        displays_numbered(s, out),
        0 <= i < j < s.len(),
        s[i].kind == CaptureTargetKind::Display,
        s[j].kind == CaptureTargetKind::Display,
    ensures
        displays_before(s, i + 1) < displays_before(s, j + 1),
        displays_before(s, i + 1) >= 1,
{
    lemma_displays_before_monotone(s, i + 1, j);
}

proof fn lemma_displays_before_monotone(s: Seq<TargetDescriptor>, a: int, b: int)
    requires
        0 <= a <= b <= s.len(),
    ensures
        displays_before(s, a) <= displays_before(s, b),
    decreases b - a,
{
    if a < b {
        lemma_displays_before_monotone(s, a, b - 1);
    }
}

// ---------------------------------------------------------------------------
// Errors
// ---------------------------------------------------------------------------

/// A target-discovery failure of the platform tooling.
pub open spec fn is_discovery_failure(e: PlatformAdapterError, message: Seq<char>) -> bool {
    &&& e.category == ErrorCategory::PlatformAdapterFailure
    &&& e.code@ == "adapter_failure"@
    &&& e.message@ == message
}

fn discovery_failure(message: String) -> (e: PlatformAdapterError)
    ensures
        is_discovery_failure(e, message@),
{
    PlatformAdapterError::new(ErrorCategory::PlatformAdapterFailure, "adapter_failure", message)
}

/// Target discovery is not offered here: the reason is the code, and the
/// details carry the capability and the suggested action.
pub open spec fn is_discovery_unsupported(e: PlatformAdapterError, code: Seq<char>, message: Seq<char>, action: Seq<char>) -> bool {
    &&& e.category == ErrorCategory::UnsupportedCapability
    &&& e.code@ == code
    &&& e.message@ == message
    &&& e.details@.len() == 2
    &&& e.details@[0].key@ == "capability"@
    &&& e.details@[0].value matches DetailValue::Text(c) && c@ == "target_discovery"@
    &&& e.details@[1].key@ == "suggested_action"@
    &&& e.details@[1].value matches DetailValue::Text(a) && a@ == action
}

fn discovery_unsupported(code: &str, message: String, action: &str) -> (e: PlatformAdapterError)
    ensures
        is_discovery_unsupported(e, code@, message@, action@),
{
    let mut details: Vec<Detail> = Vec::new();
    details.push(Detail { key: owned("capability"), value: DetailValue::Text(owned("target_discovery")) });
    details.push(Detail { key: owned("suggested_action"), value: DetailValue::Text(owned(action)) });
    PlatformAdapterError { category: ErrorCategory::UnsupportedCapability, code: owned(code), message, details }
}

/// The tools that answer Wayland target discovery, in the order they are tried.
pub open spec fn wayland_tools() -> Seq<Seq<char>> {
    seq!["hyprctl"@, "swaymsg"@, "wlr-randr"@]
}

/// The Wayland discovery tools found on `PATH`, in matrix order.
pub fn wayland_discovery_backend_tools_on_path(hyprctl: bool, swaymsg: bool, wlr_randr: bool) -> (r: Vec<&'static str>)
    ensures
        r@.map_values(|t: &str| t@) == (if hyprctl { seq!["hyprctl"@] } else { seq![] }) + (if swaymsg {
            seq!["swaymsg"@]
        } else {
            seq![]
        }) + (if wlr_randr { seq!["wlr-randr"@] } else { seq![] }),
{
    let mut r: Vec<&'static str> = Vec::new();
    if hyprctl {
        r.push("hyprctl");
    }
    if swaymsg {
        r.push("swaymsg");
    }
    if wlr_randr {
        r.push("wlr-randr");
    }
    assert(r@.map_values(|t: &str| t@) =~= (if hyprctl { seq!["hyprctl"@] } else { seq![] }) + (if swaymsg {
        seq!["swaymsg"@]
    } else {
        seq![]
    }) + (if wlr_randr { seq!["wlr-randr"@] } else { seq![] }));
    r
}

/// Names joined with `, `.
pub open spec fn comma_joined(names: Seq<Seq<char>>) -> Seq<char>
    decreases names.len(),
{
    if names.len() == 0 {
        seq![]
    } else if names.len() == 1 {
        names[0]
    } else {
        comma_joined(names.drop_last()) + ", "@ + names.last()
    }
}

pub open spec fn wayland_backend_message(on_path: Seq<Seq<char>>) -> Seq<char> {
    "Wayland discovery requires compositor metadata from one of the supported backends: Hyprland (`hyprctl`), sway (`swaymsg`), or wlroots output enumeration (`wlr-randr`); "@
        + (if on_path.len() == 0 { "none detected on PATH"@ } else { "detected on PATH: "@ + comma_joined(on_path) })
        + "."@
}

pub open spec fn wayland_backend_action() -> Seq<char> {
    "Use the backend that matches the active Wayland session: `hyprctl` for Hyprland, `swaymsg` for sway, or `wlr-randr` for wlroots-based display discovery. Capture no longer requires `grim` when an xdg-desktop-portal screenshot backend is available."@
}

/// The failure when no supported Wayland compositor answered, naming the
/// supported tools and the ones found on `PATH`.
pub fn wayland_discovery_backend_error(on_path: &Vec<&str>) -> (e: PlatformAdapterError)
    ensures
        is_discovery_unsupported(
            e,
            "unsupported_feature"@,
            wayland_backend_message(on_path@.map_values(|t: &str| t@)),
            wayland_backend_action(),
        ),
{
    let ghost names = on_path@.map_values(|t: &str| t@);
    let mut message = owned(
        "Wayland discovery requires compositor metadata from one of the supported backends: Hyprland (`hyprctl`), sway (`swaymsg`), or wlroots output enumeration (`wlr-randr`); ",
    );
    let ghost head = message@;
    let mut detected = String::new();
    if on_path.len() == 0 {
        text::push_str(&mut detected, "none detected on PATH");
    } else {
        text::push_str(&mut detected, "detected on PATH: ");
        let ghost lead = detected@;
        let mut i: usize = 0;
        while i < on_path.len()
            invariant
                i <= on_path@.len(),
                names == on_path@.map_values(|t: &str| t@),
                detected@ == lead + comma_joined(names.take(i as int)),
            decreases on_path.len() - i,
        {
            if i > 0 {
                text::push_str(&mut detected, ", ");
            }
            text::push_str(&mut detected, on_path[i]);
            proof {
                assert(names.take(i + 1).drop_last() =~= names.take(i as int));
                if i == 0 {
                    assert(names.take(0) =~= Seq::<Seq<char>>::empty());
                }
            }
            i += 1;
        }
        assert(names.take(i as int) =~= names);
    }
    text::push_str(&mut message, detected.as_str());
    text::push_str(&mut message, ".");
    discovery_unsupported(
        "unsupported_feature",
        message,
        "Use the backend that matches the active Wayland session: `hyprctl` for Hyprland, `swaymsg` for sway, or `wlr-randr` for wlroots-based display discovery. Capture no longer requires `grim` when an xdg-desktop-portal screenshot backend is available.",
    )
}

// ---------------------------------------------------------------------------
// Routing
// ---------------------------------------------------------------------------

/// The source that answers target discovery.
#[derive(Debug, Clone, Copy, PartialEq, Eq, Structural)]
pub enum DiscoveryBackend {
    /// The X11 window tree.
    X11,
    /// Wayland compositor tools: Hyprland, then sway, then wlroots outputs.
    Wayland,
    /// The native Windows enumeration.
    Windows,
    /// The macOS JXA discovery script.
    MacOs,
}

pub open spec fn android_discovery_message() -> Seq<char> {
    "Use `tendril --android <serial> list` for Android target discovery."@
}

pub open spec fn session_discovery_message() -> Seq<char> {
    "Target discovery requires a detected interactive X11 or Wayland desktop session."@
}

/// Which source answers target discovery on a platform and session, or why
/// none does (a fixture inventory, when configured, is used before this).
pub fn discover_targets(platform: PlatformKind, session: DesktopSession) -> (r: Result<DiscoveryBackend, PlatformAdapterError>)
    ensures
        platform == PlatformKind::Linux && session == DesktopSession::X11 ==> r == Ok::<DiscoveryBackend, PlatformAdapterError>(DiscoveryBackend::X11),
        platform == PlatformKind::Linux && session == DesktopSession::Wayland ==> r == Ok::<DiscoveryBackend, PlatformAdapterError>(DiscoveryBackend::Wayland),
        platform == PlatformKind::Linux && session != DesktopSession::X11 && session != DesktopSession::Wayland ==> (r matches Err(
            e,
        ) && is_discovery_unsupported(
            e,
            "unsupported_session"@,
            session_discovery_message(),
            "Set XDG_SESSION_TYPE or run Tendril from an active graphical login session."@,
        )),
        platform == PlatformKind::Windows11 ==> r == Ok::<DiscoveryBackend, PlatformAdapterError>(DiscoveryBackend::Windows),
        platform == PlatformKind::MacOs ==> r == Ok::<DiscoveryBackend, PlatformAdapterError>(DiscoveryBackend::MacOs),
        platform == PlatformKind::Android ==> (r matches Err(e) && is_discovery_unsupported(
            e,
            "unsupported_platform"@,
            android_discovery_message(),
            "Pass an adb serial, or use `--android auto` when exactly one device is connected."@,
        )),
{
    match platform {
        PlatformKind::Linux => match session {
            DesktopSession::X11 => Ok(DiscoveryBackend::X11),
            DesktopSession::Wayland => Ok(DiscoveryBackend::Wayland),
            _ => Err(
                discovery_unsupported(
                    "unsupported_session",
                    owned("Target discovery requires a detected interactive X11 or Wayland desktop session."),
                    "Set XDG_SESSION_TYPE or run Tendril from an active graphical login session.",
                ),
            ),
        },
        PlatformKind::Windows11 => Ok(DiscoveryBackend::Windows),
        PlatformKind::MacOs => Ok(DiscoveryBackend::MacOs),
        PlatformKind::Android => Err(
            discovery_unsupported(
                "unsupported_platform",
                owned("Use `tendril --android <serial> list` for Android target discovery."),
                "Pass an adb serial, or use `--android auto` when exactly one device is connected.",
            ),
        ),
    }
}

/// The JXA script that lists macOS displays and on-screen windows as a
/// target inventory in JSON.
pub fn macos_discovery_script() -> &'static str {
    r#"
ObjC.import('AppKit');
ObjC.import('Foundation');
ObjC.import('CoreGraphics');

(function () {
    function emit(jsonObject) {
        var text = JSON.stringify(jsonObject);
        $.NSFileHandle.fileHandleWithStandardOutput.writeData(
            $(text + "\n").dataUsingEncoding($.NSUTF8StringEncoding)
        );
    }

    function trimString(value) {
        if (value === null || value === undefined) {
            return null;
        }
        var text = ObjC.unwrap(value);
        if (typeof text !== 'string') {
            text = String(text);
        }
        text = text.trim();
        return text.length > 0 ? text : null;
    }

    function numberOr(value, fallback) {
        if (value === null || value === undefined) {
            return fallback;
        }
        var parsed = Number(value);
        return isNaN(parsed) ? fallback : parsed;
    }

    function rectValue(bounds, lowerKey, upperKey) {
        if (!bounds || typeof bounds !== 'object') {
            return 0;
        }
        if (Object.prototype.hasOwnProperty.call(bounds, upperKey)) {
            return numberOr(bounds[upperKey], 0);
        }
        if (Object.prototype.hasOwnProperty.call(bounds, lowerKey)) {
            return numberOr(bounds[lowerKey], 0);
        }
        return 0;
    }

    function fileExists(path) {
        return $.NSFileManager.defaultManager.fileExistsAtPath($(path));
    }

    var screens = $.NSScreen.screens;
    var targets = [];
    var screenCount = Number(screens.count);
    for (var index = 0; index < screenCount; index += 1) {
        var screen = screens.objectAtIndex(index);
        var frame = screen.frame;
        var scale = Number(screen.backingScaleFactor);
        var localizedName = trimString(screen.localizedName) || ('Display ' + String(index + 1));
        targets.push({
            id: String(index + 1),
            title: null,
            kind: 'display',
            name: localizedName,
            bounds: {
                x: Math.round(numberOr(frame.origin.x, 0)),
                y: Math.round(numberOr(frame.origin.y, 0)),
                width: Math.round(numberOr(frame.size.width, 0)),
                height: Math.round(numberOr(frame.size.height, 0)),
            },
            scale_factor: {
                numerator: Math.round(scale * 1000),
                denominator: 1000,
            },
            capture_supported: true,
            input_supported: true,
            app_name: null,
            process_id: null,
        });
    }

    var options = $.kCGWindowListOptionOnScreenOnly | $.kCGWindowListExcludeDesktopElements;
    // CGWindowListCopyWindowInfo returns a CFArrayRef; JXA needs castRefToObject
    // before deepUnwrap can iterate it, otherwise we silently observe zero windows.
    var windowListRef = $.CGWindowListCopyWindowInfo(options, $.kCGNullWindowID);
    var windowInfo = windowListRef === null || windowListRef === undefined
        ? []
        : (ObjC.deepUnwrap(ObjC.castRefToObject(windowListRef)) || []);
    var environment = $.NSProcessInfo.processInfo.environment;
    var targetIsYabai = environment.objectForKey($('YABAI_SOCKET')) !== null
        || fileExists('/opt/homebrew/bin/yabai')
        || fileExists('/usr/local/bin/yabai');

    for (var i = 0; i < windowInfo.length; i += 1) {
        var entry = windowInfo[i];
        if (numberOr(entry.kCGWindowLayer, -1) !== 0) {
            continue;
        }
        if (entry.kCGWindowIsOnscreen === false) {
            continue;
        }

        var windowNumber = entry.kCGWindowNumber;
        if (windowNumber === null || windowNumber === undefined) {
            continue;
        }

        var bounds = entry.kCGWindowBounds || {};
        var width = Math.round(rectValue(bounds, 'width', 'Width'));
        var height = Math.round(rectValue(bounds, 'height', 'Height'));
        if (width <= 0 || height <= 0) {
            continue;
        }

        var ownerName = trimString(entry.kCGWindowOwnerName);
        var title = trimString(entry.kCGWindowName);
        var windowId = String(windowNumber);
        targets.push({
            id: windowId,
            title: title,
            kind: 'window',
            name: title || ownerName || ('window-' + windowId),
            bounds: {
                x: Math.round(rectValue(bounds, 'x', 'X')),
                y: Math.round(rectValue(bounds, 'y', 'Y')),
                width: width,
                height: height,
            },
            scale_factor: {
                numerator: 1,
                denominator: 1,
            },
            capture_supported: true,
            input_supported: true,
            app_name: ownerName,
            process_id: entry.kCGWindowOwnerPID === null || entry.kCGWindowOwnerPID === undefined
                ? null
                : Math.round(numberOr(entry.kCGWindowOwnerPID, 0)),
            notes: targetIsYabai
                ? ['yabai detected in session; native Quartz discovery remains authoritative.']
                : [],
        });
    }

    emit({ targets: targets });
}());
"#
}

// ---------------------------------------------------------------------------
// Windows
// ---------------------------------------------------------------------------

/// `t` is the display target for a Windows monitor.
pub open spec fn windows_display_target(t: TargetDescriptor, d: DisplayInfo) -> bool {
    &&& t.id == d.id
    &&& t.title is None
    &&& t.kind == CaptureTargetKind::Display
    &&& t.name == d.name
    &&& t.bounds == (Bounds { x: d.bounds.x, y: d.bounds.y, width: d.bounds.width, height: d.bounds.height })
    &&& t.scale_factor == (ScaleFactor { numerator: 1, denominator: 1 })
    &&& t.capture_supported && t.input_supported
    &&& t.app_name is None && t.process_id is None
    &&& t.diagnostics@.len() == 0
}

/// `t` is the window target for a Windows top-level window.
pub open spec fn windows_window_target(t: TargetDescriptor, w: WindowInfo) -> bool {
    &&& t.id == w.id
    &&& t.title == Some(w.title)
    &&& t.kind == CaptureTargetKind::Window
    &&& t.name == match w.app_name {
        Some(a) => a,
        None => w.title,
    }
    &&& t.bounds == (Bounds { x: w.bounds.x, y: w.bounds.y, width: w.bounds.width, height: w.bounds.height })
    &&& t.scale_factor == (ScaleFactor { numerator: 1, denominator: 1 })
    &&& t.capture_supported && t.input_supported
    &&& t.app_name == w.app_name
    &&& t.process_id == Some(w.process_id)
    &&& t.diagnostics@.len() == 0
}

pub open spec fn windows_window_kept(w: WindowInfo) -> bool {
    w.bounds.width > 0 && w.bounds.height > 0
}

/// The windows kept (nonempty bounds), in order.
pub open spec fn kept_windows(ws: Seq<WindowInfo>) -> Seq<WindowInfo>
    decreases ws.len(),
{
    if ws.len() == 0 {
        ws
    } else if windows_window_kept(ws.last()) {
        kept_windows(ws.drop_last()).push(ws.last())
    } else {
        kept_windows(ws.drop_last())
    }
}

/// `out` maps Windows monitors, then the kept windows, to targets.
pub open spec fn windows_targets_spec(displays: Seq<DisplayInfo>, windows: Seq<WindowInfo>, out: Seq<TargetDescriptor>) -> bool {
    let kept = kept_windows(windows);
    &&& out.len() == displays.len() + kept.len()
    &&& forall|i: int| 0 <= i < displays.len() ==> windows_display_target(#[trigger] out[i], displays[i])
    &&& forall|i: int| 0 <= i < kept.len() ==> windows_window_target(#[trigger] out[displays.len() + i], kept[i])
}

/// Maps what the native Windows enumeration reported to an inventory
/// (unsorted): monitors become displays, windows with nonempty bounds become
/// windows. An enumeration error becomes a discovery failure.
pub fn windows_targets_from(
    displays: Result<Vec<DisplayInfo>, String>,
    windows: Result<Vec<WindowInfo>, String>,
) -> (r: Result<Vec<TargetDescriptor>, PlatformAdapterError>)
    ensures
        match displays {
            Err(m) => r matches Err(e) && is_discovery_failure(e, "Windows display discovery failed: "@ + m@),
            Ok(d) => match windows {
                Err(m) => r matches Err(e) && is_discovery_failure(e, "Windows window discovery failed: "@ + m@),
                Ok(w) => r matches Ok(out) && windows_targets_spec(d@, w@, out@),
            },
        },
{
    let displays = match displays {
        Ok(d) => d,
        Err(m) => {
            let mut message = owned("Windows display discovery failed: ");
            text::push_str(&mut message, m.as_str());
            return Err(discovery_failure(message));
        },
    };
    let windows = match windows {
        Ok(w) => w,
        Err(m) => {
            let mut message = owned("Windows window discovery failed: ");
            text::push_str(&mut message, m.as_str());
            return Err(discovery_failure(message));
        },
    };
    let ghost ds = displays@;
    let ghost ws = windows@;
    let mut out: Vec<TargetDescriptor> = Vec::new();
    let mut rest = displays;
    let mut n: usize = 0;
    let dlen = rest.len();
    assert(ds.skip(0) =~= ds);
    while rest.len() > 0
        invariant
            ds.len() == dlen,
            n <= dlen,
            rest@ == ds.skip(n as int),
            out@.len() == n,
            forall|i: int| 0 <= i < n ==> windows_display_target(#[trigger] out@[i], ds[i]),
        decreases rest.len(),
    {
        let d = rest.remove(0);
        assert(d == ds[n as int]);
        out.push(
            TargetDescriptor {
                id: d.id,
                title: None,
                kind: CaptureTargetKind::Display,
                name: d.name,
                bounds: Bounds { x: d.bounds.x, y: d.bounds.y, width: d.bounds.width, height: d.bounds.height },
                scale_factor: ScaleFactor::identity(),
                capture_supported: true,
                input_supported: true,
                app_name: None,
                process_id: None,
                diagnostics: Vec::new(),
            },
        );
        n += 1;
        assert(rest@ =~= ds.skip(n as int));
    }
    let mut rest = windows;
    let mut m: usize = 0;
    let wlen = rest.len();
    assert(ws.skip(0) =~= ws);
    assert(ws.take(0) =~= Seq::<WindowInfo>::empty());
    while rest.len() > 0
        invariant
            ds.len() == dlen,
            ws.len() == wlen,
            m <= wlen,
            rest@ == ws.skip(m as int),
            out@.len() == dlen + kept_windows(ws.take(m as int)).len(),
            forall|i: int| 0 <= i < dlen ==> windows_display_target(#[trigger] out@[i], ds[i]),
            forall|i: int|
                0 <= i < kept_windows(ws.take(m as int)).len() ==> windows_window_target(
                    #[trigger] out@[dlen + i],
                    kept_windows(ws.take(m as int))[i],
                ),
        decreases rest.len(),
    {
        let w = rest.remove(0);
        assert(w == ws[m as int]);
        let ghost before = kept_windows(ws.take(m as int));
        assert(ws.take(m + 1).drop_last() =~= ws.take(m as int));
        assert(ws.take(m + 1).last() == w);
        if w.bounds.width > 0 && w.bounds.height > 0 {
            let name = match &w.app_name {
                Some(a) => a.clone(),
                None => w.title.clone(),
            };
            out.push(
                TargetDescriptor {
                    id: w.id,
                    title: Some(w.title),
                    kind: CaptureTargetKind::Window,
                    name,
                    bounds: Bounds { x: w.bounds.x, y: w.bounds.y, width: w.bounds.width, height: w.bounds.height },
                    scale_factor: ScaleFactor::identity(),
                    capture_supported: true,
                    input_supported: true,
                    app_name: w.app_name,
                    process_id: Some(w.process_id),
                    diagnostics: Vec::new(),
                },
            );
        }
        m += 1;
        assert(rest@ =~= ws.skip(m as int));
    }
    assert(ws.take(m as int) =~= ws);
    Ok(out)
}

// ---------------------------------------------------------------------------
// Wayland compositors
// ---------------------------------------------------------------------------

/// The text of an optional string, or nothing.
pub open spec fn text_or_empty(o: Option<String>) -> Seq<char> {
    match o {
        Some(s) => s@,
        None => seq![],
    }
}

/// A trimmed value that is not blank.
pub open spec fn nonblank_trimmed(o: Option<String>) -> Option<Seq<char>> {
    match o {
        Some(s) => if trim(s@).len() > 0 {
            Some(trim(s@))
        } else {
            None
        },
        None => None,
    }
}

fn nonblank_trimmed_exec(o: &Option<String>) -> (r: Option<String>)
    ensures
        opt_view(r) == nonblank_trimmed(*o),
{
    match o {
        Some(s) => {
            let t = text::trimmed(text::chars_of(s.as_str()).as_slice());
            if t.len() > 0 {
                Some(text::string_of(t.as_slice()))
            } else {
                None
            }
        },
        None => None,
    }
}

/// `is_filtered_system_window` over optional texts.
pub open spec fn filtered_spec(app: Option<Seq<char>>, title: Option<Seq<char>>) -> bool {
    match app {
        Some(a) => is_system_window_name(a),
        None => title matches Some(t) && is_system_window_name(t),
    }
}

fn filtered_opt(app: &Option<String>, title: &Option<String>) -> (r: bool)
    ensures
        r == filtered_spec(opt_view(*app), opt_view(*title)),
{
    let a = match app {
        Some(x) => Some(x.as_str()),
        None => None,
    };
    let t = match title {
        Some(x) => Some(x.as_str()),
        None => None,
    };
    is_filtered_system_window(a, t)
}

fn clone_opt(o: &Option<String>) -> (r: Option<String>)
    ensures
        r == *o,
{
    match o {
        Some(s) => Some(s.clone()),
        None => None,
    }
}

/// A Hyprland monitor from `hyprctl monitors -j`: the fields discovery reads,
/// absent where the JSON lacks them or holds another type, and the monitor
/// scale as a reduced ratio.
#[derive(Debug, Clone, PartialEq, Eq)]
pub struct HyprlandMonitor {
    pub name: Option<String>,
    pub description: Option<String>,
    pub make: Option<String>,
    pub model: Option<String>,
    pub x: Option<i32>,
    pub y: Option<i32>,
    pub width: Option<u32>,
    pub height: Option<u32>,
    pub physical_width: Option<u32>,
    pub physical_height: Option<u32>,
    pub scale_factor: ScaleFactor,
}

/// A Hyprland client (window) from `hyprctl clients -j`.
#[derive(Debug, Clone, PartialEq, Eq)]
pub struct HyprlandClient {
    pub mapped: Option<bool>,
    pub hidden: Option<bool>,
    pub at: Option<(i32, i32)>,
    pub size: Option<(u32, u32)>,
    pub title: Option<String>,
    pub class: Option<String>,
    pub address: Option<String>,
    pub pid: Option<u32>,
}

pub open spec fn mentions_headless(s: Seq<char>) -> bool {
    contains(lower(s), "headless"@) || contains(lower(s), "sunshine"@)
}

fn mentions_headless_exec(s: &str) -> (r: bool)
    ensures
        r == mentions_headless(s@),
{
    let l = text::to_lower(text::chars_of(s).as_slice());
    text::contains_lit(l.as_slice(), "headless") || text::contains_lit(l.as_slice(), "sunshine")
}

pub open spec fn u32_or(o: Option<u32>, d: u32) -> u32 {
    match o {
        Some(v) => v,
        None => d,
    }
}

pub open spec fn i32_or(o: Option<i32>, d: i32) -> i32 {
    match o {
        Some(v) => v,
        None => d,
    }
}

/// A simulated output: its name or description says so, or it reports no
/// physical size and no make or model.
pub open spec fn headless_monitor(m: HyprlandMonitor) -> bool {
    ||| m.name matches Some(n) && mentions_headless(n@)
    ||| m.description matches Some(d) && mentions_headless(d@)
    ||| u32_or(m.physical_width, 1) == 0 && u32_or(m.physical_height, 1) == 0 && trim(text_or_empty(m.make)).len()
        == 0 && trim(text_or_empty(m.model)).len() == 0
}

fn blank_or_absent(o: &Option<String>) -> (r: bool)
    ensures
        r == (trim(text_or_empty(*o)).len() == 0),
{
    match o {
        Some(s) => text::is_blank(text::chars_of(s.as_str()).as_slice()),
        None => {
            assert(trim(Seq::<char>::empty()) =~= Seq::<char>::empty());
            true
        },
    }
}

/// Whether a Wayland output is simulated (a headless or streaming display).
pub fn is_headless_wayland_monitor(monitor: &HyprlandMonitor) -> (r: bool)
    ensures
        r == headless_monitor(*monitor),
{
    let named = match &monitor.name {
        Some(n) => mentions_headless_exec(n.as_str()),
        None => false,
    };
    let described = match &monitor.description {
        Some(d) => mentions_headless_exec(d.as_str()),
        None => false,
    };
    if named || described {
        return true;
    }
    let pw = match monitor.physical_width {
        Some(v) => v,
        None => 1,
    };
    let ph = match monitor.physical_height {
        Some(v) => v,
        None => 1,
    };
    pw == 0 && ph == 0 && blank_or_absent(&monitor.make) && blank_or_absent(&monitor.model)
}

pub open spec fn headless_display_message(name: Seq<char>) -> Seq<char> {
    "Wayland output `"@ + name
        + "` appears to be a simulated/headless display. In this class of session xdg-desktop-portal Screenshot can time out waiting for an access dialog and the grim fallback can hang, so Tendril does not advertise display capture for this target."@
}

pub open spec fn headless_display_action() -> Seq<char> {
    "Use a Wayland session with a working screenshot portal/grim backend, or run automation against the packaged X11/Xvfb headless helper. Incorrect simulated refresh-rate metadata is a known caveat and is not itself treated as the failure."@
}

/// `d` says display capture is unavailable on the simulated output `name`.
pub open spec fn is_headless_display_diagnostic(d: TargetCapabilityDiagnostic, name: Seq<char>) -> bool {
    &&& d.capability == Capability::DisplayCapture
    &&& d.code@ == "wayland_headless_display_capture_unavailable"@
    &&& d.message@ == headless_display_message(name)
    &&& d.suggested_action matches Some(a) && a@ == headless_display_action()
}

/// For a simulated output, the diagnostic that withholds display capture.
pub fn headless_wayland_capture_diagnostic(name: &str, monitor: &HyprlandMonitor) -> (r: Option<TargetCapabilityDiagnostic>)
    ensures
        headless_monitor(*monitor) <==> r is Some,
        r matches Some(d) ==> is_headless_display_diagnostic(d, name@),
{
    if !is_headless_wayland_monitor(monitor) {
        return None;
    }
    let mut message = owned("Wayland output `");
    text::push_str(&mut message, name);
    text::push_str(
        &mut message,
        "` appears to be a simulated/headless display. In this class of session xdg-desktop-portal Screenshot can time out waiting for an access dialog and the grim fallback can hang, so Tendril does not advertise display capture for this target.",
    );
    Some(
        TargetCapabilityDiagnostic::capture_unavailable(
            Capability::DisplayCapture,
            "wayland_headless_display_capture_unavailable",
            message,
            "Use a Wayland session with a working screenshot portal/grim backend, or run automation against the packaged X11/Xvfb headless helper. Incorrect simulated refresh-rate metadata is a known caveat and is not itself treated as the failure.",
        ),
    )
}

pub open spec fn headless_session_message() -> Seq<char> {
    "All discovered Wayland outputs appear to be simulated/headless, so window screenshots would use the same portal/grim paths that time out for display capture."@
}

pub open spec fn headless_session_action() -> Seq<char> {
    "Use a Wayland session with a working screenshot portal/grim backend, or run automation against the packaged X11/Xvfb headless helper."@
}

/// `d` says window capture is unavailable because every output is simulated.
pub open spec fn is_headless_session_diagnostic(d: TargetCapabilityDiagnostic) -> bool {
    &&& d.capability == Capability::WindowCapture
    &&& d.code@ == "wayland_headless_session_capture_unavailable"@
    &&& d.message@ == headless_session_message()
    &&& d.suggested_action matches Some(a) && a@ == headless_session_action()
}

/// The diagnostic on windows when every Wayland output is simulated.
pub fn headless_wayland_session_capture_diagnostic() -> (d: TargetCapabilityDiagnostic)
    ensures
        is_headless_session_diagnostic(d),
{
    TargetCapabilityDiagnostic::capture_unavailable(
        Capability::WindowCapture,
        "wayland_headless_session_capture_unavailable",
        owned(
            "All discovered Wayland outputs appear to be simulated/headless, so window screenshots would use the same portal/grim paths that time out for display capture.",
        ),
        "Use a Wayland session with a working screenshot portal/grim backend, or run automation against the packaged X11/Xvfb headless helper.",
    )
}

pub open spec fn hypr_monitor_kept(m: HyprlandMonitor) -> bool {
    u32_or(m.width, 0) != 0 && u32_or(m.height, 0) != 0
}

/// A monitor's name, or `Display N` for the monitor at `index`.
pub open spec fn hypr_monitor_name(m: HyprlandMonitor, index: int) -> Seq<char> {
    match m.name {
        Some(n) => n@,
        None => "Display "@ + text::decimal((index + 1) as nat),
    }
}

/// `t` is the display target for the Hyprland monitor at `index`.
pub open spec fn hypr_monitor_target(t: TargetDescriptor, index: int, m: HyprlandMonitor) -> bool {
    &&& t.kind == CaptureTargetKind::Display
    &&& t.name@ == hypr_monitor_name(m, index)
    &&& t.id@ == t.name@
    &&& t.title is None
    &&& t.bounds == (Bounds { x: i32_or(m.x, 0), y: i32_or(m.y, 0), width: u32_or(m.width, 0), height: u32_or(m.height, 0) })
    &&& t.scale_factor == m.scale_factor
    &&& t.capture_supported == !headless_monitor(m)
    &&& !t.input_supported
    &&& t.app_name is None && t.process_id is None
    &&& t.diagnostics@.len() == (if headless_monitor(m) { 1int } else { 0int })
    &&& headless_monitor(m) ==> is_headless_display_diagnostic(t.diagnostics@[0], t.name@)
}

/// `out` holds, in order, the display targets of the monitors with a size.
pub open spec fn hypr_monitor_targets(ms: Seq<HyprlandMonitor>, out: Seq<TargetDescriptor>) -> bool
    decreases ms.len(),
{
    if ms.len() == 0 {
        out.len() == 0
    } else if hypr_monitor_kept(ms.last()) {
        out.len() > 0 && hypr_monitor_target(out.last(), ms.len() - 1, ms.last()) && hypr_monitor_targets(
            ms.drop_last(),
            out.drop_last(),
        )
    } else {
        hypr_monitor_targets(ms.drop_last(), out)
    }
}

pub open spec fn hypr_client_title(c: HyprlandClient) -> Option<Seq<char>> {
    nonblank_trimmed(c.title)
}

pub open spec fn hypr_client_app(c: HyprlandClient) -> Option<Seq<char>> {
    nonblank_trimmed(c.class)
}

/// A client is listed when it is mapped, not hidden, has a position and a
/// nonempty size, and is not a desktop-session window.
pub open spec fn hypr_client_kept(c: HyprlandClient) -> bool {
    &&& c.mapped != Some(false)
    &&& c.hidden != Some(true)
    &&& c.at is Some
    &&& c.size matches Some((w, h)) && w != 0 && h != 0
    &&& !filtered_spec(hypr_client_app(c), hypr_client_title(c))
}

/// The title, else the class, else the address, else `window`.
pub open spec fn hypr_client_name(c: HyprlandClient) -> Seq<char> {
    match hypr_client_title(c) {
        Some(t) => t,
        None => match hypr_client_app(c) {
            Some(a) => a,
            None => match c.address {
                Some(a) => a@,
                None => "window"@,
            },
        },
    }
}

/// `t` is the window target for a kept Hyprland client.
pub open spec fn hypr_client_target(t: TargetDescriptor, c: HyprlandClient, all_headless: bool) -> bool {
    &&& t.kind == CaptureTargetKind::Window
    &&& t.name@ == hypr_client_name(c)
    &&& t.id@ == "hypr:"@ + match c.address {
        Some(a) => a@,
        None => hypr_client_name(c),
    }
    &&& opt_view(t.title) == hypr_client_title(c)
    &&& opt_view(t.app_name) == hypr_client_app(c)
    &&& c.at matches Some((x, y)) && c.size matches Some((w, h)) && t.bounds == (Bounds {
        x,
        y,
        width: w,
        height: h,
    })
    &&& t.scale_factor == (ScaleFactor { numerator: 1, denominator: 1 })
    &&& t.capture_supported == !all_headless
    &&& !t.input_supported
    &&& t.process_id == c.pid
    &&& t.diagnostics@.len() == (if all_headless { 1int } else { 0int })
    &&& all_headless ==> is_headless_session_diagnostic(t.diagnostics@[0])
}

/// `out` holds, in order, the window targets of the kept clients.
pub open spec fn hypr_client_targets(cs: Seq<HyprlandClient>, all_headless: bool, out: Seq<TargetDescriptor>) -> bool
    decreases cs.len(),
{
    if cs.len() == 0 {
        out.len() == 0
    } else if hypr_client_kept(cs.last()) {
        out.len() > 0 && hypr_client_target(out.last(), cs.last(), all_headless) && hypr_client_targets(
            cs.drop_last(),
            all_headless,
            out.drop_last(),
        )
    } else {
        hypr_client_targets(cs.drop_last(), all_headless, out)
    }
}

/// How many monitors have a size.
pub open spec fn hypr_display_count(ms: Seq<HyprlandMonitor>) -> nat
    decreases ms.len(),
{
    if ms.len() == 0 {
        0
    } else {
        hypr_display_count(ms.drop_last()) + if hypr_monitor_kept(ms.last()) { 1nat } else { 0nat }
    }
}

proof fn lemma_hypr_monitor_targets_len(ms: Seq<HyprlandMonitor>, out: Seq<TargetDescriptor>)
    requires
        hypr_monitor_targets(ms, out),
    ensures
        out.len() == hypr_display_count(ms),
    decreases ms.len(),
{
    if ms.len() > 0 {
        if hypr_monitor_kept(ms.last()) {
            lemma_hypr_monitor_targets_len(ms.drop_last(), out.drop_last());
        } else {
            lemma_hypr_monitor_targets_len(ms.drop_last(), out);
        }
    }
}

/// Every output is simulated (and there is at least one).
pub open spec fn all_headless(ms: Seq<HyprlandMonitor>) -> bool {
    ms.len() > 0 && forall|i: int| 0 <= i < ms.len() ==> headless_monitor(#[trigger] ms[i])
}

fn hypr_monitor_target_exec(index: usize, m: &HyprlandMonitor) -> (t: TargetDescriptor)
    requires
        index < usize::MAX,
        hypr_monitor_kept(*m),
    ensures
        hypr_monitor_target(t, index as int, *m),
{
    let name = match &m.name {
        Some(n) => n.clone(),
        None => {
            let mut n = owned("Display ");
            let number = text::format_u64((index + 1) as u64);
            text::push_str(&mut n, number.as_str());
            n
        },
    };
    let mut diagnostics: Vec<TargetCapabilityDiagnostic> = Vec::new();
    match headless_wayland_capture_diagnostic(name.as_str(), m) {
        Some(d) => diagnostics.push(d),
        None => {},
    }
    let capture_supported = diagnostics.len() == 0;
    TargetDescriptor {
        id: name.clone(),
        title: None,
        kind: CaptureTargetKind::Display,
        name,
        bounds: Bounds {
            x: match m.x {
                Some(v) => v,
                None => 0,
            },
            y: match m.y {
                Some(v) => v,
                None => 0,
            },
            width: match m.width {
                Some(v) => v,
                None => 0,
            },
            height: match m.height {
                Some(v) => v,
                None => 0,
            },
        },
        scale_factor: m.scale_factor,
        capture_supported,
        input_supported: false,
        app_name: None,
        process_id: None,
        diagnostics,
    }
}

fn hypr_client_target_exec(c: &HyprlandClient, all_headless: bool) -> (r: Option<TargetDescriptor>)
    ensures
        hypr_client_kept(*c) <==> r is Some,
        r matches Some(t) ==> hypr_client_target(t, *c, all_headless),
{
    if c.mapped == Some(false) || c.hidden == Some(true) {
        return None;
    }
    let (x, y) = match c.at {
        Some(p) => p,
        None => return None,
    };
    let (width, height) = match c.size {
        Some(p) => p,
        None => return None,
    };
    if width == 0 || height == 0 {
        return None;
    }
    let title = nonblank_trimmed_exec(&c.title);
    let app_name = nonblank_trimmed_exec(&c.class);
    if filtered_opt(&app_name, &title) {
        return None;
    }
    let name = match &title {
        Some(t) => t.clone(),
        None => match &app_name {
            Some(a) => a.clone(),
            None => match &c.address {
                Some(a) => a.clone(),
                None => owned("window"),
            },
        },
    };
    let mut id = owned("hypr:");
    match &c.address {
        Some(a) => text::push_str(&mut id, a.as_str()),
        None => text::push_str(&mut id, name.as_str()),
    }
    let mut diagnostics: Vec<TargetCapabilityDiagnostic> = Vec::new();
    if all_headless {
        diagnostics.push(headless_wayland_session_capture_diagnostic());
    }
    Some(
        TargetDescriptor {
            id,
            title,
            kind: CaptureTargetKind::Window,
            name,
            bounds: Bounds { x, y, width, height },
            scale_factor: ScaleFactor::identity(),
            capture_supported: !all_headless,
            input_supported: false,
            app_name,
            process_id: c.pid,
            diagnostics,
        },
    )
}

/// Every target a monitor gives is a display with a size, not accepting
/// input, capturable exactly when it carries no diagnostic.
proof fn lemma_hypr_monitor_targets_shape(ms: Seq<HyprlandMonitor>, out: Seq<TargetDescriptor>)
    requires
        hypr_monitor_targets(ms, out),
    ensures
        forall|i: int| 0 <= i < out.len() ==> hypr_display_shape(#[trigger] out[i]),
    decreases ms.len(),
{
    if ms.len() > 0 {
        if hypr_monitor_kept(ms.last()) {
            lemma_hypr_monitor_targets_shape(ms.drop_last(), out.drop_last());
            assert forall|i: int| 0 <= i < out.len() implies hypr_display_shape(#[trigger] out[i]) by {
                if i < out.len() - 1 {
                    assert(out[i] == out.drop_last()[i]);
                }
            }
        } else {
            lemma_hypr_monitor_targets_shape(ms.drop_last(), out);
        }
    }
}

/// Every target a client gives is a window with a size and a `hypr:` id,
/// not accepting input, capturable exactly when it carries no diagnostic.
proof fn lemma_hypr_client_targets_shape(cs: Seq<HyprlandClient>, all_headless: bool, out: Seq<TargetDescriptor>)
    requires
        hypr_client_targets(cs, all_headless, out),
    ensures
        forall|i: int| 0 <= i < out.len() ==> hypr_window_shape(#[trigger] out[i]),
    decreases cs.len(),
{
    if cs.len() > 0 {
        if hypr_client_kept(cs.last()) {
            lemma_hypr_client_targets_shape(cs.drop_last(), all_headless, out.drop_last());
            assert forall|i: int| 0 <= i < out.len() implies hypr_window_shape(#[trigger] out[i]) by {
                if i < out.len() - 1 {
                    assert(out[i] == out.drop_last()[i]);
                } else {
                    let c = cs.last();
                    let rest = match c.address {
                        Some(a) => a@,
                        None => hypr_client_name(c),
                    };
                    reveal_strlit("hypr:");
                    assert(("hypr:"@ + rest).take(5) =~= "hypr:"@);
                }
            }
        } else {
            lemma_hypr_client_targets_shape(cs.drop_last(), all_headless, out);
        }
    }
}

/// A Hyprland display: sized, not accepting input, capturable exactly when
/// it has no diagnostic.
pub open spec fn hypr_display_shape(t: TargetDescriptor) -> bool {
    &&& t.kind == CaptureTargetKind::Display
    &&& t.bounds.width > 0 && t.bounds.height > 0
    &&& !t.input_supported
    &&& t.capture_supported == (t.diagnostics@.len() == 0)
}

/// A Hyprland window: sized, with a `hypr:` identifier, not accepting input,
/// capturable exactly when it has no diagnostic.
pub open spec fn hypr_window_shape(t: TargetDescriptor) -> bool {
    &&& t.kind == CaptureTargetKind::Window
    &&& t.bounds.width > 0 && t.bounds.height > 0
    &&& text::starts_with(t.id@, "hypr:"@)
    &&& !t.input_supported
    &&& t.capture_supported == (t.diagnostics@.len() == 0)
}

/// Hyprland's targets are its displays, then its windows: every display
/// precedes every window, each target has a size, none accepts input, and
/// each is capturable exactly when it carries no diagnostic; every window's
/// identifier starts with `hypr:`.
pub proof fn law_hyprland_targets_shape(monitors: Seq<HyprlandMonitor>, clients: Seq<HyprlandClient>, out: Seq<TargetDescriptor>)
    requires
        ({
            let k = hypr_display_count(monitors) as int;
            &&& k <= out.len()
            &&& hypr_monitor_targets(monitors, out.take(k))
            &&& hypr_client_targets(clients, all_headless(monitors), out.skip(k))
        }),
    ensures
        forall|i: int| 0 <= i < hypr_display_count(monitors) ==> hypr_display_shape(#[trigger] out[i]),
        forall|i: int| hypr_display_count(monitors) <= i < out.len() ==> hypr_window_shape(#[trigger] out[i]),
{
    let k = hypr_display_count(monitors) as int;
    lemma_hypr_monitor_targets_shape(monitors, out.take(k));
    lemma_hypr_client_targets_shape(clients, all_headless(monitors), out.skip(k));
    assert forall|i: int| 0 <= i < k implies hypr_display_shape(#[trigger] out[i]) by {
        assert(out[i] == out.take(k)[i]);
    }
    assert forall|i: int| k <= i < out.len() implies hypr_window_shape(#[trigger] out[i]) by {
        assert(out[i] == out.skip(k)[i - k]);
    }
}

/// Hyprland's targets: the monitors with a size as displays, then the listed
/// clients as windows (each marked uncapturable when every output is
/// simulated); nothing when neither yields a target.
pub fn hyprland_targets(monitors: &Vec<HyprlandMonitor>, clients: &Vec<HyprlandClient>) -> (r: Option<Vec<TargetDescriptor>>)
    ensures
        match r {
            Some(out) => {
                let k = hypr_display_count(monitors@) as int;
                &&& out@.len() > 0
                &&& k <= out@.len()
                &&& hypr_monitor_targets(monitors@, out@.take(k))
                &&& hypr_client_targets(clients@, all_headless(monitors@), out@.skip(k))
            },
            None => hypr_monitor_targets(monitors@, seq![]) && hypr_client_targets(
                clients@,
                all_headless(monitors@),
                seq![],
            ),
        },
{
    let ghost ms = monitors@;
    let ghost cs = clients@;
    let mut every: bool = monitors.len() > 0;
    let mut i: usize = 0;
    while i < monitors.len()
        invariant
            ms == monitors@,
            i <= ms.len(),
            every == (ms.len() > 0 && forall|j: int| 0 <= j < i ==> headless_monitor(#[trigger] ms[j])),
        decreases monitors.len() - i,
    {
        if !is_headless_wayland_monitor(&monitors[i]) {
            every = false;
        }
        i += 1;
    }
    let mut displays: Vec<TargetDescriptor> = Vec::new();
    let mut i: usize = 0;
    assert(ms.take(0) =~= Seq::<HyprlandMonitor>::empty());
    while i < monitors.len()
        invariant
            ms == monitors@,
            i <= ms.len(),
            hypr_monitor_targets(ms.take(i as int), displays@),
        decreases monitors.len() - i,
    {
        let m = &monitors[i];
        assert(ms.take(i + 1).drop_last() =~= ms.take(i as int));
        assert(ms.take(i + 1).last() == *m);
        let ghost before = displays@;
        if m.width.unwrap_or(0) != 0 && m.height.unwrap_or(0) != 0 {
            displays.push(hypr_monitor_target_exec(i, m));
            assert(displays@.drop_last() =~= before);
        }
        i += 1;
    }
    assert(ms.take(ms.len() as int) =~= ms);
    let mut windows: Vec<TargetDescriptor> = Vec::new();
    let mut i: usize = 0;
    assert(cs.take(0) =~= Seq::<HyprlandClient>::empty());
    while i < clients.len()
        invariant
            cs == clients@,
            i <= cs.len(),
            hypr_client_targets(cs.take(i as int), every, windows@),
        decreases clients.len() - i,
    {
        let c = &clients[i];
        assert(cs.take(i + 1).drop_last() =~= cs.take(i as int));
        assert(cs.take(i + 1).last() == *c);
        let ghost before = windows@;
        match hypr_client_target_exec(c, every) {
            Some(t) => {
                windows.push(t);
                assert(windows@.drop_last() =~= before);
            },
            None => {},
        }
        i += 1;
    }
    assert(cs.take(cs.len() as int) =~= cs);
    assert(every == all_headless(ms));
    if displays.len() == 0 && windows.len() == 0 {
        assert(displays@ =~= Seq::<TargetDescriptor>::empty());
        assert(windows@ =~= Seq::<TargetDescriptor>::empty());
        return None;
    }
    let ghost d = displays@;
    let ghost w = windows@;
    displays.append(&mut windows);
    assert(displays@.take(d.len() as int) =~= d);
    assert(displays@.skip(d.len() as int) =~= w);
    proof {
        lemma_hypr_monitor_targets_len(ms, d);
    }
    Some(displays)
}

/// A rectangle from sway's JSON.
#[derive(Debug, Clone, Copy, PartialEq, Eq, Structural)]
pub struct SwayRect {
    pub x: Option<i32>,
    pub y: Option<i32>,
    pub width: Option<u32>,
    pub height: Option<u32>,
}

/// An output from `swaymsg -t get_outputs`.
#[derive(Debug, Clone, PartialEq, Eq)]
pub struct SwayOutput {
    pub active: Option<bool>,
    pub rect: Option<SwayRect>,
    pub name: Option<String>,
    pub scale_factor: ScaleFactor,
}

/// A node of the tree from `swaymsg -t get_tree`, with its tiled and
/// floating children.
#[derive(Debug)]
pub struct SwayNode {
    pub node_type: Option<String>,
    pub visible: Option<bool>,
    pub rect: Option<SwayRect>,
    pub name: Option<String>,
    pub app_id: Option<String>,
    pub window_class: Option<String>,
    pub id: Option<i64>,
    pub pid: Option<u32>,
    pub nodes: Vec<SwayNode>,
    pub floating_nodes: Vec<SwayNode>,
}

pub open spec fn sway_output_kept(o: SwayOutput) -> bool {
    &&& o.active != Some(false)
    &&& o.rect matches Some(r) && u32_or(r.width, 0) != 0 && u32_or(r.height, 0) != 0
    &&& o.name is Some
}

/// `t` is the display target for a kept sway output.
pub open spec fn sway_output_target(t: TargetDescriptor, o: SwayOutput) -> bool {
    &&& t.kind == CaptureTargetKind::Display
    &&& o.name matches Some(n) && t.name == n && t.id == n
    &&& t.title is None
    &&& o.rect matches Some(r) && t.bounds == (Bounds {
        x: i32_or(r.x, 0),
        y: i32_or(r.y, 0),
        width: u32_or(r.width, 0),
        height: u32_or(r.height, 0),
    })
    &&& t.scale_factor == o.scale_factor
    &&& t.capture_supported && !t.input_supported
    &&& t.app_name is None && t.process_id is None
    &&& t.diagnostics@.len() == 0
}

pub open spec fn sway_output_targets(os: Seq<SwayOutput>, out: Seq<TargetDescriptor>) -> bool
    decreases os.len(),
{
    if os.len() == 0 {
        out.len() == 0
    } else if sway_output_kept(os.last()) {
        out.len() > 0 && sway_output_target(out.last(), os.last()) && sway_output_targets(os.drop_last(), out.drop_last())
    } else {
        sway_output_targets(os.drop_last(), out)
    }
}

pub open spec fn sway_title(n: SwayNode) -> Option<Seq<char>> {
    nonblank_trimmed(n.name)
}

/// The application id, else the X11 window class.
pub open spec fn sway_app(n: SwayNode) -> Option<Seq<char>> {
    match nonblank_trimmed(n.app_id) {
        Some(a) => Some(a),
        None => nonblank_trimmed(n.window_class),
    }
}

/// A visible container with a nonempty rectangle that is not a
/// desktop-session window.
pub open spec fn sway_is_window(n: SwayNode) -> bool {
    &&& n.node_type matches Some(t) && (t@ == "con"@ || t@ == "floating_con"@)
    &&& n.visible != Some(false)
    &&& n.rect matches Some(r) && u32_or(r.width, 0) > 0 && u32_or(r.height, 0) > 0
    &&& !filtered_spec(sway_app(n), sway_title(n))
}

/// The title, else the application, else `window-ID`, else `window`.
pub open spec fn sway_name(n: SwayNode) -> Seq<char> {
    match sway_title(n) {
        Some(t) => t,
        None => match sway_app(n) {
            Some(a) => a,
            None => match n.id {
                Some(id) => "window-"@ + text::signed_decimal(id as int),
                None => "window"@,
            },
        },
    }
}

/// `t` is the window target for a sway window node.
pub open spec fn sway_window_target(t: TargetDescriptor, n: SwayNode) -> bool {
    &&& t.kind == CaptureTargetKind::Window
    &&& t.name@ == sway_name(n)
    &&& t.id@ == "sway:"@ + match n.id {
        Some(id) => text::signed_decimal(id as int),
        None => sway_name(n),
    }
    &&& opt_view(t.title) == sway_title(n)
    &&& opt_view(t.app_name) == sway_app(n)
    &&& n.rect matches Some(r) && t.bounds == (Bounds {
        x: i32_or(r.x, 0),
        y: i32_or(r.y, 0),
        width: u32_or(r.width, 0),
        height: u32_or(r.height, 0),
    })
    &&& t.scale_factor == (ScaleFactor { numerator: 1, denominator: 1 })
    &&& t.capture_supported && !t.input_supported
    &&& t.process_id == n.pid
    &&& t.diagnostics@.len() == 0
}

/// The window nodes of a tree in document order: a node, then its tiled
/// children's windows, then its floating children's.
pub open spec fn sway_window_nodes(n: SwayNode) -> Seq<SwayNode>
    decreases n,
{
    (if sway_is_window(n) { seq![n] } else { seq![] }) + sway_children_windows(n.nodes@) + sway_children_windows(
        n.floating_nodes@,
    )
}

pub open spec fn sway_children_windows(cs: Seq<SwayNode>) -> Seq<SwayNode>
    decreases cs,
{
    if cs.len() == 0 {
        seq![]
    } else {
        sway_children_windows(cs.drop_last()) + sway_window_nodes(cs.last())
    }
}

fn is_container(t: &Option<String>) -> (r: bool)
    ensures
        r == (t matches Some(t) && (t@ == "con"@ || t@ == "floating_con"@)),
{
    match t {
        Some(t) => {
            let v = text::chars_of(t.as_str());
            text::is(v.as_slice(), "con") || text::is(v.as_slice(), "floating_con")
        },
        None => false,
    }
}

fn sway_window_target_exec(n: &SwayNode) -> (r: Option<TargetDescriptor>)
    ensures
        sway_is_window(*n) <==> r is Some,
        r matches Some(t) ==> sway_window_target(t, *n),
{
    if !is_container(&n.node_type) || n.visible == Some(false) {
        return None;
    }
    let rect = match n.rect {
        Some(r) => r,
        None => return None,
    };
    let width = match rect.width {
        Some(v) => v,
        None => 0,
    };
    let height = match rect.height {
        Some(v) => v,
        None => 0,
    };
    if width == 0 || height == 0 {
        return None;
    }
    let title = nonblank_trimmed_exec(&n.name);
    let app_name = match nonblank_trimmed_exec(&n.app_id) {
        Some(a) => Some(a),
        None => nonblank_trimmed_exec(&n.window_class),
    };
    if filtered_opt(&app_name, &title) {
        return None;
    }
    let name = match &title {
        Some(t) => t.clone(),
        None => match &app_name {
            Some(a) => a.clone(),
            None => match n.id {
                Some(id) => {
                    let mut w = owned("window-");
                    let digits = text::format_i64(id);
                    text::push_str(&mut w, digits.as_str());
                    w
                },
                None => owned("window"),
            },
        },
    };
    let mut id = owned("sway:");
    match n.id {
        Some(v) => {
            let digits = text::format_i64(v);
            text::push_str(&mut id, digits.as_str());
        },
        None => text::push_str(&mut id, name.as_str()),
    }
    Some(
        TargetDescriptor {
            id,
            title,
            kind: CaptureTargetKind::Window,
            name,
            bounds: Bounds {
                x: match rect.x {
                    Some(v) => v,
                    None => 0,
                },
                y: match rect.y {
                    Some(v) => v,
                    None => 0,
                },
                width,
                height,
            },
            scale_factor: ScaleFactor::identity(),
            capture_supported: true,
            input_supported: false,
            app_name,
            process_id: n.pid,
            diagnostics: Vec::new(),
        },
    )
}

/// `after` is `before` followed by the window targets of `nodes`.
pub open spec fn appended_windows(before: Seq<TargetDescriptor>, after: Seq<TargetDescriptor>, nodes: Seq<SwayNode>) -> bool {
    &&& after.len() == before.len() + nodes.len()
    &&& forall|i: int| 0 <= i < before.len() ==> #[trigger] after[i] == before[i]
    &&& forall|i: int| 0 <= i < nodes.len() ==> sway_window_target(#[trigger] after[before.len() + i], nodes[i])
}

proof fn lemma_appended_windows_trans(
    a: Seq<TargetDescriptor>,
    b: Seq<TargetDescriptor>,
    c: Seq<TargetDescriptor>,
    x: Seq<SwayNode>,
    y: Seq<SwayNode>,
)
    requires
        appended_windows(a, b, x),
        appended_windows(b, c, y),
    ensures
        appended_windows(a, c, x + y),
{
    assert forall|i: int| 0 <= i < (x + y).len() implies sway_window_target(#[trigger] c[a.len() + i], (x + y)[i]) by {
        if i < x.len() {
            assert(c[a.len() + i] == b[a.len() + i]);
        } else {
            assert(c[a.len() + i] == c[b.len() + (i - x.len())]);
        }
    }
    assert forall|i: int| 0 <= i < a.len() implies #[trigger] c[i] == a[i] by {
        assert(c[i] == b[i]);
    }
}

fn collect_children(children: &Vec<SwayNode>, targets: &mut Vec<TargetDescriptor>)
    ensures
        appended_windows(old(targets)@, final(targets)@, sway_children_windows(children@)),
    decreases children@, 1nat,
{
    let ghost start = targets@;
    let mut i: usize = 0;
    assert(children@.take(0) =~= Seq::<SwayNode>::empty());
    assert(sway_children_windows(Seq::<SwayNode>::empty()) =~= Seq::<SwayNode>::empty());
    while i < children.len()
        invariant
            i <= children@.len(),
            appended_windows(start, targets@, sway_children_windows(children@.take(i as int))),
        decreases children.len() - i,
    {
        let ghost before = targets@;
        collect_sway_windows(&children[i], targets);
        proof {
            lemma_appended_windows_trans(
                start,
                before,
                targets@,
                sway_children_windows(children@.take(i as int)),
                sway_window_nodes(children@[i as int]),
            );
            assert(children@.take(i + 1).drop_last() =~= children@.take(i as int));
            assert(children@.take(i + 1).last() == children@[i as int]);
        }
        i += 1;
    }
    assert(children@.take(children@.len() as int) =~= children@);
}

/// Appends the window targets of a sway tree, in document order.
pub fn collect_sway_windows(node: &SwayNode, targets: &mut Vec<TargetDescriptor>)
    ensures
        appended_windows(old(targets)@, final(targets)@, sway_window_nodes(*node)),
    decreases *node, 0nat,
{
    let ghost start = targets@;
    let ghost own: Seq<SwayNode> = if sway_is_window(*node) { seq![*node] } else { seq![] };
    match sway_window_target_exec(node) {
        Some(t) => targets.push(t),
        None => {},
    }
    assert(appended_windows(start, targets@, own));
    let ghost mid = targets@;
    collect_children(&node.nodes, targets);
    proof {
        lemma_appended_windows_trans(start, mid, targets@, own, sway_children_windows(node.nodes@));
    }
    let ghost mid2 = targets@;
    collect_children(&node.floating_nodes, targets);
    proof {
        lemma_appended_windows_trans(
            start,
            mid2,
            targets@,
            own + sway_children_windows(node.nodes@),
            sway_children_windows(node.floating_nodes@),
        );
    }
}

fn sway_output_target_exec(o: &SwayOutput) -> (r: Option<TargetDescriptor>)
    ensures
        sway_output_kept(*o) <==> r is Some,
        r matches Some(t) ==> sway_output_target(t, *o),
{
    if o.active == Some(false) {
        return None;
    }
    let rect = match o.rect {
        Some(r) => r,
        None => return None,
    };
    let width = match rect.width {
        Some(v) => v,
        None => 0,
    };
    let height = match rect.height {
        Some(v) => v,
        None => 0,
    };
    if width == 0 || height == 0 {
        return None;
    }
    let name = match &o.name {
        Some(n) => n.clone(),
        None => return None,
    };
    Some(
        TargetDescriptor {
            id: name.clone(),
            title: None,
            kind: CaptureTargetKind::Display,
            name,
            bounds: Bounds {
                x: match rect.x {
                    Some(v) => v,
                    None => 0,
                },
                y: match rect.y {
                    Some(v) => v,
                    None => 0,
                },
                width,
                height,
            },
            scale_factor: o.scale_factor,
            capture_supported: true,
            input_supported: false,
            app_name: None,
            process_id: None,
            diagnostics: Vec::new(),
        },
    )
}

/// How many outputs are kept.
pub open spec fn sway_display_count(os: Seq<SwayOutput>) -> nat
    decreases os.len(),
{
    if os.len() == 0 {
        0
    } else {
        sway_display_count(os.drop_last()) + if sway_output_kept(os.last()) { 1nat } else { 0nat }
    }
}

proof fn lemma_sway_output_targets_len(os: Seq<SwayOutput>, out: Seq<TargetDescriptor>)
    requires
        sway_output_targets(os, out),
    ensures
        out.len() == sway_display_count(os),
    decreases os.len(),
{
    if os.len() > 0 {
        if sway_output_kept(os.last()) {
            lemma_sway_output_targets_len(os.drop_last(), out.drop_last());
        } else {
            lemma_sway_output_targets_len(os.drop_last(), out);
        }
    }
}

/// sway's targets: the active outputs with a name and size as displays,
/// then the windows of the tree; nothing when there are none.
pub fn sway_targets(outputs: &Vec<SwayOutput>, tree: Option<&SwayNode>) -> (r: Option<Vec<TargetDescriptor>>)
    ensures
        ({
            let k = sway_display_count(outputs@) as int;
            let wn = match tree {
                Some(t) => sway_window_nodes(*t),
                None => seq![],
            };
            match r {
                Some(out) => {
                    &&& out@.len() > 0
                    &&& k <= out@.len()
                    &&& sway_output_targets(outputs@, out@.take(k))
                    &&& appended_windows(out@.take(k), out@, wn)
                },
                None => k == 0 && wn.len() == 0,
            }
        }),
{
    let ghost os = outputs@;
    let mut targets: Vec<TargetDescriptor> = Vec::new();
    let mut i: usize = 0;
    assert(os.take(0) =~= Seq::<SwayOutput>::empty());
    while i < outputs.len()
        invariant
            os == outputs@,
            i <= os.len(),
            sway_output_targets(os.take(i as int), targets@),
        decreases outputs.len() - i,
    {
        let o = &outputs[i];
        assert(os.take(i + 1).drop_last() =~= os.take(i as int));
        assert(os.take(i + 1).last() == *o);
        let ghost before = targets@;
        match sway_output_target_exec(o) {
            Some(t) => {
                targets.push(t);
                assert(targets@.drop_last() =~= before);
            },
            None => {},
        }
        i += 1;
    }
    assert(os.take(os.len() as int) =~= os);
    let ghost displays = targets@;
    proof {
        lemma_sway_output_targets_len(os, displays);
    }
    match tree {
        Some(node) => collect_sway_windows(node, &mut targets),
        None => {
            assert(appended_windows(displays, targets@, seq![]));
        },
    }
    assert(targets@.take(displays.len() as int) =~= displays);
    if targets.len() == 0 {
        return None;
    }
    Some(targets)
}

/// The display a finished `wlr-randr` output block yields: one with a name
/// and a nonempty current mode.
pub open spec fn wlr_flush(name: Option<Seq<char>>, bounds: Option<Bounds>) -> Seq<(Seq<char>, Bounds)> {
    match (name, bounds) {
        (Some(n), Some(b)) => if b.width > 0 && b.height > 0 {
            seq![(n, b)]
        } else {
            seq![]
        },
        _ => seq![],
    }
}

/// The displays of `wlr-randr` output lines: an unindented line names an
/// output, an indented `current` line gives its mode, a blank line ends it.
pub open spec fn wlr_displays(ls: Seq<Seq<char>>, name: Option<Seq<char>>, bounds: Option<Bounds>) -> Seq<(Seq<char>, Bounds)>
    decreases ls.len(),
{
    if ls.len() == 0 {
        wlr_flush(name, bounds)
    } else {
        let line = ls[0];
        let rest = ls.drop_first();
        if trim(line).len() == 0 {
            wlr_flush(name, bounds) + wlr_displays(rest, None, None)
        } else if !starts_with(line, " "@) && !starts_with(line, "\t"@) {
            wlr_displays(rest, Some(trim(line)), bounds)
        } else if starts_with(trim(line), "current "@) {
            wlr_displays(rest, name, wlr_randr_mode_spec(trim(line).skip(8)))
        } else {
            wlr_displays(rest, name, bounds)
        }
    }
}

/// `t` is the display target for a `wlr-randr` output.
pub open spec fn wlr_display_target(t: TargetDescriptor, d: (Seq<char>, Bounds)) -> bool {
    &&& t.kind == CaptureTargetKind::Display
    &&& t.name@ == d.0 && t.id@ == d.0
    &&& t.title is None
    &&& t.bounds == d.1
    &&& t.scale_factor == (ScaleFactor { numerator: 1, denominator: 1 })
    &&& t.capture_supported && !t.input_supported
    &&& t.app_name is None && t.process_id is None
    &&& t.diagnostics@.len() == 0
}

pub open spec fn wlr_display_targets(ds: Seq<(Seq<char>, Bounds)>, out: Seq<TargetDescriptor>) -> bool {
    &&& out.len() == ds.len()
    &&& forall|i: int| 0 <= i < ds.len() ==> wlr_display_target(#[trigger] out[i], ds[i])
}

fn wlr_flush_exec(name: Option<String>, bounds: Option<Bounds>, out: &mut Vec<TargetDescriptor>)
    ensures
        final(out)@.len() == old(out)@.len() + wlr_flush(opt_view(name), bounds).len(),
        forall|i: int| 0 <= i < old(out)@.len() ==> #[trigger] final(out)@[i] == old(out)@[i],
        forall|i: int|
            0 <= i < wlr_flush(opt_view(name), bounds).len() ==> wlr_display_target(
                #[trigger] final(out)@[old(out)@.len() + i],
                wlr_flush(opt_view(name), bounds)[i],
            ),
{
    match (name, bounds) {
        (Some(n), Some(b)) => {
            if b.width > 0 && b.height > 0 {
                out.push(
                    TargetDescriptor {
                        id: n.clone(),
                        title: None,
                        kind: CaptureTargetKind::Display,
                        name: n,
                        bounds: b,
                        scale_factor: ScaleFactor::identity(),
                        capture_supported: true,
                        input_supported: false,
                        app_name: None,
                        process_id: None,
                        diagnostics: Vec::new(),
                    },
                );
            }
        },
        _ => {},
    }
}

/// The displays `wlr-randr` lists; nothing when it lists none.
pub fn wlr_randr_displays(output: &str) -> (r: Option<Vec<TargetDescriptor>>)
    ensures
        ({
            let ds = wlr_displays(text::lines(output@), None, None);
            match r {
                Some(out) => ds.len() > 0 && wlr_display_targets(ds, out@),
                None => ds.len() == 0,
            }
        }),
{
    let ls = text::text_lines(output);
    let ghost lv = text::strings_view(ls@);
    let ghost all = wlr_displays(lv, None, None);
    let mut out: Vec<TargetDescriptor> = Vec::new();
    let mut name: Option<String> = None;
    let mut bounds: Option<Bounds> = None;
    let ghost mut emitted: Seq<(Seq<char>, Bounds)> = seq![];
    let mut i: usize = 0;
    assert(lv.skip(0) =~= lv);
    while i < ls.len()
        invariant
            lv == text::strings_view(ls@),
            lv == text::lines(output@),
            all == wlr_displays(lv, None, None),
            i <= ls@.len(),
            emitted + wlr_displays(lv.skip(i as int), opt_view(name), bounds) == all,
            wlr_display_targets(emitted, out@),
        decreases ls.len() - i,
    {
        let line = text::chars_of(ls[i].as_str());
        let ghost rest = lv.skip(i + 1);
        assert(lv.skip(i as int).drop_first() =~= rest);
        assert(lv.skip(i as int)[0] == line@);
        let ghost before = out@;
        if text::is_blank(line.as_slice()) {
            let ghost flushed = wlr_flush(opt_view(name), bounds);
            let n = name;
            let b = bounds;
            wlr_flush_exec(n, b, &mut out);
            name = None;
            bounds = None;
            proof {
                assert(emitted + (flushed + wlr_displays(rest, None, None)) =~= (emitted + flushed) + wlr_displays(
                    rest,
                    None,
                    None,
                ));
                assert forall|k: int| 0 <= k < (emitted + flushed).len() implies wlr_display_target(
                    #[trigger] out@[k],
                    (emitted + flushed)[k],
                ) by {
                    if k >= emitted.len() {
                        assert(out@[k] == out@[before.len() + (k - emitted.len())]);
                    }
                }
                emitted = emitted + flushed;
            }
        } else if !text::starts_with_lit(line.as_slice(), " ") && !text::starts_with_lit(line.as_slice(), "\t") {
            let t = text::trimmed(line.as_slice());
            name = Some(text::string_of(t.as_slice()));
        } else {
            let t = text::trimmed(line.as_slice());
            if text::starts_with_lit(t.as_slice(), "current ") {
                proof {
                    reveal_strlit("current ");
                }
                let mode = text::slice_vec(t.as_slice(), 8, t.len());
                assert(mode@ =~= t@.skip(8));
                bounds = parse_wlr_randr_mode_chars(mode.as_slice());
            }
        }
        i += 1;
    }
    assert(lv.skip(i as int).len() == 0);
    let ghost flushed = wlr_flush(opt_view(name), bounds);
    let ghost before = out@;
    wlr_flush_exec(name, bounds, &mut out);
    proof {
        assert(emitted + flushed =~= all);
        assert forall|k: int| 0 <= k < all.len() implies wlr_display_target(#[trigger] out@[k], all[k]) by {
            if k >= emitted.len() {
                assert(out@[k] == out@[before.len() + (k - emitted.len())]);
            }
        }
    }
    if out.len() == 0 {
        return None;
    }
    Some(out)
}

/// A compositor's targets as an inventory: ordered and numbered, every
/// target marked as accepting input when a Wayland input backend exists.
pub fn finish_wayland_inventory(targets: Vec<TargetDescriptor>, input_supported: bool) -> (r: TargetInventory)
    ensures
        ({
            let sorted = stable_sorted(targets@);
            &&& r.targets@.len() == sorted.len()
            &&& forall|i: int| 0 <= i < sorted.len() ==> {
                let t = #[trigger] r.targets@[i];
                &&& t.input_supported == (input_supported || sorted[i].input_supported)
                &&& t.id@ == if sorted[i].kind == CaptureTargetKind::Display {
                    text::decimal(displays_before(sorted, i + 1))
                } else {
                    sorted[i].id@
                }
                &&& t == (TargetDescriptor { id: t.id, input_supported: t.input_supported, ..sorted[i] })
            }
        }),
{
    let inventory = sort_inventory(TargetInventory { targets });
    let ghost s = inventory.targets@;
    if !input_supported {
        proof {
            assert forall|i: int| 0 <= i < s.len() implies {
                let t = #[trigger] s[i];
                t == (TargetDescriptor { id: t.id, input_supported: t.input_supported, ..stable_sorted(targets@)[i] })
            } by {
                assert(same_but_id(stable_sorted(targets@)[i], s[i]));
            }
        }
        return inventory;
    }
    let mut rest = inventory.targets;
    let mut out: Vec<TargetDescriptor> = Vec::new();
    let len = rest.len();
    let mut n: usize = 0;
    assert(s.skip(0) =~= s);
    while rest.len() > 0
        invariant
            s.len() == len,
            n <= len,
            rest@ == s.skip(n as int),
            out@.len() == n,
            forall|i: int| 0 <= i < n ==> #[trigger] out@[i] == (TargetDescriptor { input_supported: true, ..s[i] }),
        decreases rest.len(),
    {
        let mut t = rest.remove(0);
        assert(t == s[n as int]);
        t.input_supported = true;
        out.push(t);
        n += 1;
        assert(rest@ =~= s.skip(n as int));
    }
    proof {
        assert forall|i: int| 0 <= i < s.len() implies {
            let t = #[trigger] out@[i];
            t == (TargetDescriptor { id: t.id, input_supported: t.input_supported, ..stable_sorted(targets@)[i] })
        } by {
            assert(same_but_id(stable_sorted(targets@)[i], s[i]));
        }
    }
    TargetInventory { targets: out }
}

/// Target discovery through the native Windows enumeration: monitors and
/// windows mapped to targets, ordered and numbered.
pub fn discover_windows_targets() -> (r: Result<TargetInventory, PlatformAdapterError>)
    ensures
        r matches Err(e) && is_discovery_failure(
            e,
            "Windows display discovery failed: "@ + crate::win32::unavailable_message(),
        ),
{
    let displays = crate::win32::discover_displays();
    let windows = match displays {
        Ok(_) => crate::win32::discover_windows(),
        Err(_) => Ok(Vec::new()),
    };
    match windows_targets_from(displays, windows) {
        Ok(targets) => Ok(sort_inventory(TargetInventory { targets })),
        Err(e) => Err(e),
    }
}

} // verus!
