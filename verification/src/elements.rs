//! UI element listings: the root elements that stand for whole targets,
//! snapshot identifiers, scoping of targets to query, and the parsers for
//! the X11 window tree and accessibility metadata.
use vstd::prelude::*;

use crate::error::TendrilError;
use crate::model::{Bounds, ElementDescriptor, ElementListInput, ElementListOutput, TargetKind, TargetSelector};
use crate::platform::{AdapterInfo, CaptureTargetKind, TargetDescriptor, TargetInventory};
use crate::text::{self, index_of, index_of_char, lower, owned, strings_view, trim, trim_start, words};

verus! {

// ---------------------------------------------------------------------------
// Geometry
// ---------------------------------------------------------------------------

/// Two rectangles share at least one point (touching edges do not count).
pub open spec fn overlap_spec(a: Bounds, b: Bounds) -> bool {
    a.x < b.x + b.width && a.x + a.width > b.x && a.y < b.y + b.height && a.y + a.height > b.y
}

/// Whether two rectangles intersect.
pub fn bounds_overlap(left: &Bounds, right: &Bounds) -> (r: bool)
    ensures
        r == overlap_spec(*left, *right),
{
    let left_right = left.x as i64 + left.width as i64;
    let left_bottom = left.y as i64 + left.height as i64;
    let right_right = right.x as i64 + right.width as i64;
    let right_bottom = right.y as i64 + right.height as i64;
    (left.x as i64) < right_right && left_right > right.x as i64 && (left.y as i64) < right_bottom && left_bottom
        > right.y as i64
}

/// Overlap does not depend on the order of the rectangles.
pub proof fn lemma_overlap_symmetric(a: Bounds, b: Bounds)
    ensures
        overlap_spec(a, b) == overlap_spec(b, a),
{
}

/// An element is in scope when offscreen elements are wanted, or when it has
/// bounds that overlap the target.
pub fn atspi_element_in_scope(bounds: Option<&Bounds>, target_bounds: &Bounds, include_offscreen: bool) -> (r: bool)
    ensures
        r == (include_offscreen || (bounds matches Some(b) && overlap_spec(*b, *target_bounds))),
{
    if include_offscreen {
        return true;
    }
    match bounds {
        Some(b) => bounds_overlap(b, target_bounds),
        None => false,
    }
}

pub open spec fn is_sign(c: char) -> bool {
    c == '+' || c == '-'
}

/// The first sign at index one or later.
pub open spec fn first_sign(v: Seq<char>) -> Option<int> {
    if exists|i: int| 1 <= i < v.len() && is_sign(v[i]) {
        Some(choose|i: int| 1 <= i < v.len() && is_sign(v[i]) && forall|j: int| 1 <= j < i ==> !is_sign(#[trigger] v[j]))
    } else {
        None
    }
}

pub(crate) fn find_sign(v: &[char]) -> (r: Option<usize>)
    ensures
        match r {
            Some(i) => first_sign(v@) == Some(i as int) && 1 <= i < v@.len(),
            None => first_sign(v@) is None,
        },
{
    let mut i: usize = 1;
    while i < v.len()
        invariant
            1 <= i,
            forall|j: int| 1 <= j < i ==> !is_sign(#[trigger] v@[j]),
        decreases v.len() - i,
    {
        if v[i] == '+' || v[i] == '-' {
            proof {
                let k = choose|k: int| 1 <= k < v@.len() && is_sign(v@[k]) && forall|j: int| 1 <= j < k ==> !is_sign(#[trigger] v@[j]);
                if k < i {
                } else if k > i {
                }
            }
            return Some(i);
        }
        i += 1;
    }
    proof {
        if exists|k: int| 1 <= k < v@.len() && is_sign(v@[k]) {
            let k = choose|k: int| 1 <= k < v@.len() && is_sign(v@[k]);
            assert(!is_sign(v@[k]));
        }
    }
    None
}

/// `value` split before its first two signs after the first character.
pub open spec fn split_geometry_spec(v: Seq<char>) -> Option<(Seq<char>, Seq<char>, Seq<char>)> {
    match first_sign(v) {
        None => None,
        Some(s) => {
            let rest = v.skip(s);
            match first_sign(rest) {
                None => None,
                Some(t) => Some((v.take(s), rest.take(t), rest.skip(t))),
            }
        },
    }
}

/// Splits `WIDTH+X+Y`-style geometry into its three parts.
pub fn split_geometry_offsets(v: &[char]) -> (r: Option<(Vec<char>, Vec<char>, Vec<char>)>)
    ensures
        match r {
            Some((a, b, c)) => split_geometry_spec(v@) == Some((a@, b@, c@)),
            None => split_geometry_spec(v@) is None,
        },
{
    let s = find_sign(v)?;
    let rest = text::slice_vec(v, s, v.len());
    assert(rest@ =~= v@.skip(s as int));
    let t = find_sign(rest.as_slice())?;
    let first = text::slice_vec(v, 0, s);
    let second = text::slice_vec(rest.as_slice(), 0, t);
    let third = text::slice_vec(rest.as_slice(), t, rest.len());
    assert(first@ =~= v@.take(s as int));
    assert(second@ =~= rest@.take(t as int));
    assert(third@ =~= rest@.skip(t as int));
    Some((first, second, third))
}

/// `WxH+X+Y`: size and offsets relative to the parent.
pub open spec fn size_offset_spec(token: Seq<char>) -> Option<(u32, u32, i32, i32)> {
    match index_of(token, 'x') {
        None => None,
        Some(p) => match split_geometry_spec(token.skip(p + 1)) {
            None => None,
            Some((h, xs, ys)) => match (
                text::parse_u32_spec(token.take(p)),
                text::parse_u32_spec(h),
                text::parse_i32_spec(xs),
                text::parse_i32_spec(ys),
            ) {
                (Some(w), Some(hh), Some(x), Some(y)) => Some((w, hh, x, y)),
                _ => None,
            },
        },
    }
}

pub fn parse_size_offset(token: &[char]) -> (r: Option<(u32, u32, i32, i32)>)
    ensures
        r == size_offset_spec(token@),
{
    let p = index_of_char(token, 'x')?;
    assert(p < token@.len());
    let head = text::slice_vec(token, 0, p);
    let n = token.len();
    assert(p < n);
    let rest = text::slice_vec(token, p + 1, n);
    assert(head@ =~= token@.take(p as int));
    assert(rest@ =~= token@.skip(p + 1));
    let (h, xs, ys) = split_geometry_offsets(rest.as_slice())?;
    let w = text::parse_u32(head.as_slice())?;
    let hh = text::parse_u32(h.as_slice())?;
    let x = text::parse_i32(xs.as_slice())?;
    let y = text::parse_i32(ys.as_slice())?;
    Some((w, hh, x, y))
}

/// `N+X+Y` without a size: absolute offsets.
pub open spec fn offset_only_spec(token: Seq<char>) -> Option<(i32, i32)> {
    if text::has_char(token, 'x') {
        None
    } else {
        match split_geometry_spec(token) {
            None => None,
            Some((_, xs, ys)) => match (text::parse_i32_spec(xs), text::parse_i32_spec(ys)) {
                (Some(x), Some(y)) => Some((x, y)),
                _ => None,
            },
        }
    }
}

pub fn parse_offset_only(token: &[char]) -> (r: Option<(i32, i32)>)
    ensures
        r == offset_only_spec(token@),
{
    if text::contains_char(token, 'x') {
        return None;
    }
    let (_, xs, ys) = split_geometry_offsets(token)?;
    let x = text::parse_i32(xs.as_slice())?;
    let y = text::parse_i32(ys.as_slice())?;
    Some((x, y))
}

/// The first word with a size-and-offset reading.
pub open spec fn first_size_offset(ws: Seq<Seq<char>>) -> Option<(u32, u32, i32, i32)>
    decreases ws.len(),
{
    if ws.len() == 0 {
        None
    } else {
        match size_offset_spec(ws[0]) {
            Some(g) => Some(g),
            None => first_size_offset(ws.drop_first()),
        }
    }
}

/// The first word with an absolute-offset reading.
pub open spec fn first_offset_only(ws: Seq<Seq<char>>) -> Option<(i32, i32)>
    decreases ws.len(),
{
    if ws.len() == 0 {
        None
    } else {
        match offset_only_spec(ws[0]) {
            Some(g) => Some(g),
            None => first_offset_only(ws.drop_first()),
        }
    }
}

pub open spec fn sat_add(a: i32, b: i32) -> i32 {
    if a + b < i32::MIN {
        i32::MIN
    } else if a + b > i32::MAX {
        i32::MAX
    } else {
        (a + b) as i32
    }
}

/// Bounds read from an `xwininfo -tree` line: the size from the first
/// `WxH+X+Y` word, the position from the first absolute `+X+Y` word if any,
/// otherwise the relative offsets added to the parent's position; the flag
/// says whether the position was absolute.
pub open spec fn x11_geometry_spec(line: Seq<char>, target: Bounds) -> Option<(Bounds, bool)> {
    let ws = words(line);
    match first_size_offset(ws) {
        None => None,
        Some((w, h, rx, ry)) => match first_offset_only(ws) {
            Some((ax, ay)) => Some((Bounds { x: ax, y: ay, width: w, height: h }, true)),
            None => Some((Bounds { x: sat_add(target.x, rx), y: sat_add(target.y, ry), width: w, height: h }, false)),
        },
    }
}

fn sat_add_exec(a: i32, b: i32) -> (r: i32)
    ensures
        r == sat_add(a, b),
{
    let s = a as i64 + b as i64;
    if s < -2147483648 {
        -2147483648
    } else if s > 2147483647 {
        2147483647
    } else {
        s as i32
    }
}

fn find_size_offset(ws: &Vec<Vec<char>>) -> (r: Option<(u32, u32, i32, i32)>)
    ensures
        r == first_size_offset(ws@.map_values(|w: Vec<char>| w@)),
{
    let ghost wv = ws@.map_values(|w: Vec<char>| w@);
    let mut i: usize = 0;
    assert(wv.skip(0) =~= wv);
    while i < ws.len()
        invariant
            i <= ws@.len(),
            wv == ws@.map_values(|w: Vec<char>| w@),
            first_size_offset(wv) == first_size_offset(wv.skip(i as int)),
        decreases ws.len() - i,
    {
        let g = parse_size_offset(ws[i].as_slice());
        proof {
            assert(wv.skip(i as int)[0] == ws@[i as int]@);
            assert(wv.skip(i as int).drop_first() =~= wv.skip(i + 1));
        }
        if g.is_some() {
            return g;
        }
        i += 1;
    }
    assert(wv.skip(i as int) =~= Seq::<Seq<char>>::empty());
    None
}

fn find_offset_only(ws: &Vec<Vec<char>>) -> (r: Option<(i32, i32)>)
    ensures
        r == first_offset_only(ws@.map_values(|w: Vec<char>| w@)),
{
    let ghost wv = ws@.map_values(|w: Vec<char>| w@);
    let mut i: usize = 0;
    assert(wv.skip(0) =~= wv);
    while i < ws.len()
        invariant
            i <= ws@.len(),
            wv == ws@.map_values(|w: Vec<char>| w@),
            first_offset_only(wv) == first_offset_only(wv.skip(i as int)),
        decreases ws.len() - i,
    {
        let g = parse_offset_only(ws[i].as_slice());
        proof {
            assert(wv.skip(i as int)[0] == ws@[i as int]@);
            assert(wv.skip(i as int).drop_first() =~= wv.skip(i + 1));
        }
        if g.is_some() {
            return g;
        }
        i += 1;
    }
    assert(wv.skip(i as int) =~= Seq::<Seq<char>>::empty());
    None
}

pub fn parse_x11_geometry_from_line(line: &[char], target: &Bounds) -> (r: Option<(Bounds, bool)>)
    ensures
        r == x11_geometry_spec(line@, *target),
{
    let ws = text::split_whitespace(line);
    let (w, h, rx, ry) = find_size_offset(&ws)?;
    match find_offset_only(&ws) {
        Some((ax, ay)) => Some((Bounds { x: ax, y: ay, width: w, height: h }, true)),
        None => Some((Bounds { x: sat_add_exec(target.x, rx), y: sat_add_exec(target.y, ry), width: w, height: h }, false)),
    }
}

// ---------------------------------------------------------------------------
// Element descriptors
// ---------------------------------------------------------------------------

/// `sel` selects target `t`: same kind and identifier.
pub open spec fn selects(sel: TargetSelector, t: TargetDescriptor) -> bool {
    match t.kind {
        CaptureTargetKind::Window => sel matches TargetSelector::Window { id } && id@ == t.id@,
        CaptureTargetKind::Display => sel matches TargetSelector::Display { id } && id@ == t.id@,
    }
}

/// A selector kind agrees with a discovered target kind.
pub open spec fn kind_agrees(sel: TargetSelector, kind: CaptureTargetKind) -> bool {
    match sel {
        TargetSelector::Window { .. } => kind == CaptureTargetKind::Window,
        TargetSelector::Display { .. } => kind == CaptureTargetKind::Display,
    }
}

pub fn selector_matches_kind(selector: &TargetSelector, kind: CaptureTargetKind) -> (r: bool)
    ensures
        r == kind_agrees(*selector, kind),
{
    match selector {
        TargetSelector::Window { .. } => kind == CaptureTargetKind::Window,
        TargetSelector::Display { .. } => kind == CaptureTargetKind::Display,
    }
}

/// The selector that addresses a discovered target.
pub fn target_selector_from_platform(target: &TargetDescriptor) -> (r: TargetSelector)
    ensures
        selects(r, *target),
{
    match target.kind {
        CaptureTargetKind::Window => TargetSelector::Window { id: target.id.clone() },
        CaptureTargetKind::Display => TargetSelector::Display { id: target.id.clone() },
    }
}

fn copy_opt(o: &Option<String>) -> (r: Option<String>)
    ensures
        r == *o,
{
    match o {
        Some(s) => Some(s.clone()),
        None => None,
    }
}

/// The path shown for a target's own element: its application, then its name.
pub open spec fn root_path(t: TargetDescriptor) -> Seq<Seq<char>> {
    match t.app_name {
        Some(a) => seq![a@, t.name@],
        None => seq![t.name@],
    }
}

fn root_path_exec(t: &TargetDescriptor) -> (r: Vec<String>)
    ensures
        strings_view(r@) == root_path(*t),
{
    let mut r: Vec<String> = Vec::new();
    match &t.app_name {
        Some(a) => {
            r.push(a.clone());
        },
        None => {},
    }
    r.push(t.name.clone());
    assert(strings_view(r@) =~= root_path(*t));
    r
}

pub open spec fn role_of(kind: CaptureTargetKind) -> Seq<char> {
    match kind {
        CaptureTargetKind::Window => "window"@,
        CaptureTargetKind::Display => "display"@,
    }
}

/// `e` is the element that stands for target `t` as a whole.
pub open spec fn is_root_element(e: ElementDescriptor, t: TargetDescriptor) -> bool {
    e.id@.len() == 0 && root_fields(e, t)
}

/// Every field but the identifier is that of `t`'s root element.
pub open spec fn root_fields(e: ElementDescriptor, t: TargetDescriptor) -> bool {
    &&& e.role@ == role_of(t.kind)
    &&& e.name@ == t.name@
    &&& e.description == t.title
    &&& e.value is None
    &&& e.bounds == Some(t.bounds)
    &&& e.target matches Some(sel) && selects(sel, t)
    &&& strings_view(e.path@) == root_path(t)
    &&& strings_view(e.actions@) == seq!["click"@]
    &&& e.app_name == t.app_name
    &&& e.process_id == t.process_id
}

pub fn root_element_from_target(target: &TargetDescriptor) -> (e: ElementDescriptor)
    ensures
        is_root_element(e, *target),
{
    let mut actions: Vec<String> = Vec::new();
    actions.push(owned("click"));
    assert(strings_view(actions@) =~= seq!["click"@]);
    ElementDescriptor {
        id: String::new(),
        role: match target.kind {
            CaptureTargetKind::Window => owned("window"),
            CaptureTargetKind::Display => owned("display"),
        },
        name: target.name.clone(),
        description: copy_opt(&target.title),
        value: None,
        bounds: Some(target.bounds),
        target: Some(target_selector_from_platform(target)),
        path: root_path_exec(target),
        actions,
        app_name: copy_opt(&target.app_name),
        process_id: target.process_id,
    }
}

/// One root element per target, in order.
pub fn root_elements_from_targets(targets: &[TargetDescriptor]) -> (r: Vec<ElementDescriptor>)
    ensures
        r@.len() == targets@.len(),
        forall|i: int| 0 <= i < r@.len() ==> is_root_element(#[trigger] r@[i], targets@[i]),
{
    let mut r: Vec<ElementDescriptor> = Vec::new();
    let mut i: usize = 0;
    while i < targets.len()
        invariant
            i <= targets@.len(),
            r@.len() == i,
            forall|j: int| 0 <= j < i ==> is_root_element(#[trigger] r@[j], targets@[j]),
        decreases targets.len() - i,
    {
        r.push(root_element_from_target(&targets[i]));
        i += 1;
    }
    r
}

/// An identifier that is replaced by its position: blank or `auto:`-prefixed.
pub open spec fn needs_snapshot_id(id: Seq<char>) -> bool {
    trim(id).len() == 0 || text::starts_with(id, "auto:"@)
}

proof fn lemma_decimal_digits(n: nat)
    ensures
        text::decimal(n).len() >= 1,
        text::is_ascii_digit(text::decimal(n)[0]),
        text::is_ascii_digit(text::decimal(n).last()),
    decreases n,
{
    if n >= 10 {
        lemma_decimal_digits(n / 10);
        assert(text::decimal(n)[0] == text::decimal(n / 10)[0]);
    }
}

/// A position written in decimal is a usable identifier.
proof fn lemma_decimal_is_usable_id(n: nat)
    ensures
        !needs_snapshot_id(text::decimal(n)),
{
    let d = text::decimal(n);
    lemma_decimal_digits(n);
    assert(text::lead_ws(d) == 0);
    assert(text::trail_ws(d) == 0);
    assert(trim(d) =~= d);
    reveal_strlit("auto:");
    if text::starts_with(d, "auto:"@) {
        assert(d.subrange(0, 5)[0] == d[0]);
    }
}

/// Gives every element whose identifier is blank or `auto:` its one-based
/// position as identifier; other fields and identifiers are kept.
pub fn assign_snapshot_ids(elements: &mut Vec<ElementDescriptor>)
    ensures
        final(elements)@.len() == old(elements)@.len(),
        forall|i: int| #![trigger final(elements)@[i]] 0 <= i < old(elements)@.len() ==> {
            let before = old(elements)@[i];
            let after = final(elements)@[i];
            &&& after.id@ == (if needs_snapshot_id(before.id@) { text::decimal((i + 1) as nat) } else { before.id@ })
            &&& after == (ElementDescriptor { id: after.id, ..before })
        },
{
    let ghost original = elements@;
    let mut i: usize = 0;
    while i < elements.len()
        invariant
            i <= elements@.len(),
            elements@.len() == original.len(),
            forall|j: int| #![trigger elements@[j]] 0 <= j < i ==> {
                let before = original[j];
                let after = elements@[j];
                &&& after.id@ == (if needs_snapshot_id(before.id@) { text::decimal((j + 1) as nat) } else { before.id@ })
                &&& after == (ElementDescriptor { id: after.id, ..before })
            },
            forall|j: int| i <= j < elements@.len() ==> elements@[j] == original[j],
        decreases elements.len() - i,
    {
        let id = text::chars_of(elements[i].id.as_str());
        if text::is_blank(id.as_slice()) || text::starts_with_lit(id.as_slice(), "auto:") {
            let mut e = elements.remove(i);
            e.id = text::format_u64(i as u64 + 1);
            elements.insert(i, e);
        }
        i += 1;
    }
}

// ---------------------------------------------------------------------------
// Which targets to query
// ---------------------------------------------------------------------------

/// Inventory indices of the targets an element listing covers: all of them
/// without a selector, else those with the selector's identifier and kind.
pub open spec fn selected_by(input: ElementListInput, t: TargetDescriptor) -> bool {
    match input.target {
        None => true,
        Some(sel) => t.id@ == sel.id_spec() && kind_agrees(sel, t.kind),
    }
}

/// The targets an element listing covers, as inventory indices in order;
/// a selector that matches nothing is an error.
pub fn matching_targets(inventory: &TargetInventory, input: &ElementListInput) -> (r: Result<Vec<usize>, TendrilError>)
    ensures
        match r {
            Ok(ix) => (forall|k: int| 0 <= k < ix@.len() ==> #[trigger] ix@[k] < inventory.targets@.len()
                && selected_by(*input, inventory.targets@[ix@[k] as int]))
                && (forall|k: int, l: int| 0 <= k < l < ix@.len() ==> ix@[k] < ix@[l])
                && (forall|j: int| 0 <= j < inventory.targets@.len() && selected_by(*input, #[trigger] inventory.targets@[j]) ==> ix@.contains(j as usize))
                && (ix@.len() == 0 ==> input.target is None),
            Err(e) => input.target is Some && (forall|j: int| 0 <= j < inventory.targets@.len() ==> !selected_by(*input, #[trigger] inventory.targets@[j]))
                && e.code_spec() == "target_not_found"@,
        },
{
    let mut ix: Vec<usize> = Vec::new();
    let mut i: usize = 0;
    while i < inventory.targets.len()
        invariant
            i <= inventory.targets@.len(),
            forall|k: int| 0 <= k < ix@.len() ==> #[trigger] ix@[k] < i && selected_by(*input, inventory.targets@[ix@[k] as int]),
            forall|k: int, l: int| 0 <= k < l < ix@.len() ==> ix@[k] < ix@[l],
            forall|j: int| 0 <= j < i && selected_by(*input, #[trigger] inventory.targets@[j]) ==> ix@.contains(j as usize),
        decreases inventory.targets.len() - i,
    {
        let t = &inventory.targets[i];
        let keep = match &input.target {
            None => true,
            Some(sel) => selector_matches_kind(sel, t.kind) && text::same(
                text::chars_of(t.id.as_str()).as_slice(),
                text::chars_of(sel.id()).as_slice(),
            ),
        };
        if keep {
            let ghost before = ix@;
            ix.push(i);
            proof {
                assert forall|j: int| 0 <= j < i + 1 && selected_by(*input, #[trigger] inventory.targets@[j]) implies ix@.contains(j as usize) by {
                    if j < i {
                        assert(before.contains(j as usize));
                        let w = choose|w: int| 0 <= w < before.len() && before[w] == j as usize;
                        assert(ix@[w] == j as usize);
                    } else {
                        assert(ix@[ix@.len() - 1] == j as usize);
                    }
                }
            }
        }
        i += 1;
    }
    if ix.len() == 0 {
        match &input.target {
            Some(sel) => {
                proof {
                    assert forall|j: int| 0 <= j < inventory.targets@.len() implies !selected_by(*input, #[trigger] inventory.targets@[j]) by {
                        if selected_by(*input, inventory.targets@[j]) {
                            assert(ix@.contains(j as usize));
                        }
                    }
                }
                let kind = match sel.kind() {
                    TargetKind::Window => "window",
                    TargetKind::Display => "display",
                    TargetKind::AudioSource => "audio_source",
                };
                return Err(TendrilError::target_not_found(kind, sel.id()));
            },
            None => {},
        }
    }
    Ok(ix)
}

/// Two discovered targets with the same kind and identifier.
pub open spec fn same_target(a: TargetDescriptor, b: TargetDescriptor) -> bool {
    a.kind == b.kind && a.id@ == b.id@
}

/// Adds inventory index `j` unless an equal target is already queued.
pub open spec fn push_unique_spec(q: Seq<usize>, inv: Seq<TargetDescriptor>, j: usize) -> Seq<usize> {
    if exists|k: int| 0 <= k < q.len() && same_target(inv[q[k] as int], inv[j as int]) {
        q
    } else {
        q.push(j)
    }
}

/// Queues the windows (among the first `n` inventory entries) that overlap `display`.
pub open spec fn windows_on(q: Seq<usize>, inv: Seq<TargetDescriptor>, display: Bounds, n: int) -> Seq<usize>
    decreases n,
{
    if n <= 0 {
        q
    } else {
        let q1 = windows_on(q, inv, display, n - 1);
        let t = inv[n - 1];
        if t.kind == CaptureTargetKind::Window && overlap_spec(t.bounds, display) {
            push_unique_spec(q1, inv, (n - 1) as usize)
        } else {
            q1
        }
    }
}

fn push_unique(q: &mut Vec<usize>, inv: &Vec<TargetDescriptor>, j: usize)
    requires
        j < inv@.len(),
        forall|k: int| 0 <= k < old(q)@.len() ==> #[trigger] old(q)@[k] < inv@.len(),
    ensures
        final(q)@ == push_unique_spec(old(q)@, inv@, j),
        forall|k: int| 0 <= k < final(q)@.len() ==> #[trigger] final(q)@[k] < inv@.len(),
{
    let t = &inv[j];
    let tid = text::chars_of(t.id.as_str());
    let mut k: usize = 0;
    while k < q.len()
        invariant
            k <= q@.len(),
            q@ == old(q)@,
            j < inv@.len(),
            tid@ == inv@[j as int].id@,
            *t == inv@[j as int],
            forall|m: int| 0 <= m < q@.len() ==> #[trigger] q@[m] < inv@.len(),
            forall|m: int| 0 <= m < k ==> !same_target(inv@[#[trigger] q@[m] as int], inv@[j as int]),
        decreases q.len() - k,
    {
        let qk = q[k];
        let other = &inv[qk];
        let oid = text::chars_of(other.id.as_str());
        let same_id = text::same(oid.as_slice(), tid.as_slice());
        if other.kind == t.kind && same_id {
            proof {
                assert(same_target(inv@[q@[k as int] as int], inv@[j as int]));
            }
            return;
        }
        assert(!same_target(inv@[q@[k as int] as int], inv@[j as int]));
        k += 1;
    }
    q.push(j);
}

fn push_windows_on(q: &mut Vec<usize>, inv: &Vec<TargetDescriptor>, display: &Bounds)
    requires
        forall|k: int| 0 <= k < old(q)@.len() ==> #[trigger] old(q)@[k] < inv@.len(),
    ensures
        final(q)@ == windows_on(old(q)@, inv@, *display, inv@.len() as int),
        forall|k: int| 0 <= k < final(q)@.len() ==> #[trigger] final(q)@[k] < inv@.len(),
{
    let ghost start = q@;
    let mut j: usize = 0;
    while j < inv.len()
        invariant
            j <= inv@.len(),
            q@ == windows_on(start, inv@, *display, j as int),
            forall|k: int| 0 <= k < q@.len() ==> #[trigger] q@[k] < inv@.len(),
        decreases inv.len() - j,
    {
        let t = &inv[j];
        if t.kind == CaptureTargetKind::Window && bounds_overlap(&t.bounds, display) {
            push_unique(q, inv, j);
        }
        j += 1;
    }
}

/// The targets an accessibility listing queries, as inventory indices, and
/// the notes it adds: each selected window once, and for each selected
/// display the windows overlapping it, or the display itself (with a note)
/// when none does.
pub open spec fn query_targets_spec(inv: Seq<TargetDescriptor>, sel: Seq<usize>, n: int) -> (Seq<usize>, Seq<Seq<char>>)
    decreases n,
{
    if n <= 0 {
        (seq![], seq![])
    } else {
        let (q, notes) = query_targets_spec(inv, sel, n - 1);
        let t = inv[sel[n - 1] as int];
        match t.kind {
            CaptureTargetKind::Window => (push_unique_spec(q, inv, sel[n - 1]), notes),
            CaptureTargetKind::Display => {
                let q2 = windows_on(q, inv, t.bounds, inv.len() as int);
                if q2.len() == q.len() {
                    (
                        push_unique_spec(q2, inv, sel[n - 1]),
                        notes.push(
                            "Display `"@ + t.id@
                                + "` did not contain any discovered windows for macOS Accessibility listing; returning its root target instead."@,
                        ),
                    )
                } else {
                    (q2, notes)
                }
            },
        }
    }
}

/// Targets for macOS accessibility listing (inventory indices), with notes
/// appended for displays that hold no windows.
pub fn macos_accessibility_query_targets(inventory: &TargetInventory, selected: &Vec<usize>, notes: &mut Vec<String>) -> (r: Vec<usize>)
    requires
        forall|k: int| 0 <= k < selected@.len() ==> #[trigger] selected@[k] < inventory.targets@.len(),
    ensures
        r@ == query_targets_spec(inventory.targets@, selected@, selected@.len() as int).0,
        strings_view(final(notes)@) == strings_view(old(notes)@) + query_targets_spec(
            inventory.targets@,
            selected@,
            selected@.len() as int,
        ).1,
{
    let inv = &inventory.targets;
    let mut q: Vec<usize> = Vec::new();
    let ghost start_notes = notes@;
    let mut i: usize = 0;
    while i < selected.len()
        invariant
            i <= selected@.len(),
            inv == &inventory.targets,
            forall|k: int| 0 <= k < selected@.len() ==> #[trigger] selected@[k] < inv@.len(),
            forall|k: int| 0 <= k < q@.len() ==> #[trigger] q@[k] < inv@.len(),
            q@ == query_targets_spec(inv@, selected@, i as int).0,
            strings_view(notes@) == strings_view(start_notes) + query_targets_spec(inv@, selected@, i as int).1,
        decreases selected.len() - i,
    {
        let j = selected[i];
        let t = &inv[j];
        let ghost prev_notes = query_targets_spec(inv@, selected@, i as int).1;
        match t.kind {
            CaptureTargetKind::Window => {
                push_unique(&mut q, inv, j);
            },
            CaptureTargetKind::Display => {
                let before = q.len();
                push_windows_on(&mut q, inv, &t.bounds);
                if q.len() == before {
                    let mut m = owned("Display `");
                    text::push_str(&mut m, t.id.as_str());
                    text::push_str(&mut m, "` did not contain any discovered windows for macOS Accessibility listing; returning its root target instead.");
                    let ghost old_notes = notes@;
                    notes.push(m);
                    proof {
                        assert(strings_view(notes@) =~= strings_view(old_notes).push(m@));
                        assert(strings_view(start_notes) + prev_notes.push(m@) =~= (strings_view(start_notes) + prev_notes).push(m@));
                    }
                    push_unique(&mut q, inv, j);
                }
            },
        }
        i += 1;
    }
    q
}

/// The windows a native element backend queries (inventory indices): each
/// selected window once and the windows overlapping each selected display;
/// the selection itself when that yields nothing.
pub open spec fn window_scope_spec(inv: Seq<TargetDescriptor>, sel: Seq<usize>, n: int) -> Seq<usize>
    decreases n,
{
    if n <= 0 {
        seq![]
    } else {
        let q = window_scope_spec(inv, sel, n - 1);
        let t = inv[sel[n - 1] as int];
        match t.kind {
            CaptureTargetKind::Window => push_unique_spec(q, inv, sel[n - 1]),
            CaptureTargetKind::Display => windows_on(q, inv, t.bounds, inv.len() as int),
        }
    }
}

pub fn window_targets_for_scope(inventory: &TargetInventory, selected: &Vec<usize>) -> (r: Vec<usize>)
    requires
        forall|k: int| 0 <= k < selected@.len() ==> #[trigger] selected@[k] < inventory.targets@.len(),
    ensures
        r@ == (if window_scope_spec(inventory.targets@, selected@, selected@.len() as int).len() == 0 {
            selected@
        } else {
            window_scope_spec(inventory.targets@, selected@, selected@.len() as int)
        }),
{
    let inv = &inventory.targets;
    let mut q: Vec<usize> = Vec::new();
    let mut i: usize = 0;
    while i < selected.len()
        invariant
            i <= selected@.len(),
            inv == &inventory.targets,
            forall|k: int| 0 <= k < selected@.len() ==> #[trigger] selected@[k] < inv@.len(),
            forall|k: int| 0 <= k < q@.len() ==> #[trigger] q@[k] < inv@.len(),
            q@ == window_scope_spec(inv@, selected@, i as int),
        decreases selected.len() - i,
    {
        let j = selected[i];
        let t = &inv[j];
        match t.kind {
            CaptureTargetKind::Window => {
                push_unique(&mut q, inv, j);
            },
            CaptureTargetKind::Display => {
                push_windows_on(&mut q, inv, &t.bounds);
            },
        }
        i += 1;
    }
    if q.len() == 0 {
        let mut copy: Vec<usize> = Vec::new();
        let mut k: usize = 0;
        while k < selected.len()
            invariant
                k <= selected@.len(),
                copy@ == selected@.take(k as int),
            decreases selected.len() - k,
        {
            copy.push(selected[k]);
            k += 1;
            assert(copy@ =~= selected@.take(k as int));
        }
        assert(selected@.take(selected@.len() as int) =~= selected@);
        copy
    } else {
        q
    }
}

// ---------------------------------------------------------------------------
// The X11 window tree
// ---------------------------------------------------------------------------

/// The text between the first two double quotes.
pub open spec fn quoted_segment_spec(line: Seq<char>) -> Option<Seq<char>> {
    match index_of(line, '"') {
        None => None,
        Some(a) => match index_of(line.skip(a + 1), '"') {
            None => None,
            Some(b) => Some(line.subrange(a + 1, a + 1 + b)),
        },
    }
}

pub fn quoted_segment(line: &[char]) -> (r: Option<Vec<char>>)
    ensures
        match r {
            Some(v) => quoted_segment_spec(line@) == Some(v@),
            None => quoted_segment_spec(line@) is None,
        },
{
    let a = index_of_char(line, '"')?;
    assert(a < line@.len());
    assert(a < line.len());
    let rest = text::slice_vec(line, a + 1, line.len());
    assert(rest@ =~= line@.skip(a + 1));
    let b = index_of_char(rest.as_slice(), '"')?;
    let v = text::slice_vec(line, a + 1, a + 1 + b);
    Some(v)
}

/// The element for one `xwininfo -tree` line: lines starting (after
/// indentation) with a window id `0x...` that carry geometry; outside the
/// target they are dropped unless offscreen elements are wanted.
pub open spec fn xwininfo_element_ok(line: Seq<char>, target: TargetDescriptor, include_offscreen: bool, e: ElementDescriptor) -> bool {
    let t = trim_start(line);
    let xid = words(t)[0];
    let name = match quoted_segment_spec(t) {
        Some(q) => q,
        None => xid,
    };
    match x11_geometry_spec(t, target.bounds) {
        None => false,
        Some((b, _)) => {
            &&& include_offscreen || overlap_spec(b, target.bounds)
            &&& e.id@.len() == 0
            &&& e.role@ == (if xid == target.id@ { "window"@ } else { "x11_window"@ })
            &&& e.name@ == name
            &&& e.description matches Some(d) && d@ == "X11 window "@ + xid
            &&& e.value is None
            &&& e.bounds == Some(b)
            &&& e.target matches Some(sel) && selects(sel, target)
            &&& strings_view(e.path@) == root_path(target)
            &&& strings_view(e.actions@) == seq!["click"@]
            &&& e.app_name == target.app_name
            &&& e.process_id == target.process_id
        },
    }
}

pub open spec fn xwininfo_line_rejected(line: Seq<char>, target: TargetDescriptor, include_offscreen: bool) -> bool {
    let t = trim_start(line);
    !text::starts_with(t, "0x"@) || match x11_geometry_spec(t, target.bounds) {
        None => true,
        Some((b, _)) => !include_offscreen && !overlap_spec(b, target.bounds),
    }
}

proof fn lemma_first_word(t: Seq<char>)
    requires
        t.len() > 0,
        !text::is_ws(t[0]),
    ensures
        words(t).len() > 0,
        words(t)[0] == t.take(text::word_len(t) as int),
{
    text::lemma_lead_ws(t);
    assert(text::lead_ws(t) == 0);
    assert(trim_start(t) =~= t);
    text::lemma_word_len(t);
}

pub fn parse_xwininfo_line(line: &[char], target: &TargetDescriptor, include_offscreen: bool) -> (r: Option<ElementDescriptor>)
    ensures
        match r {
            Some(e) => !xwininfo_line_rejected(line@, *target, include_offscreen) && xwininfo_element_ok(line@, *target, include_offscreen, e),
            None => xwininfo_line_rejected(line@, *target, include_offscreen),
        },
{
    let t = text::trimmed_start(line);
    if !text::starts_with_lit(t.as_slice(), "0x") {
        return None;
    }
    proof {
        reveal_strlit("0x");
        assert(t@.subrange(0, 2) == "0x"@);
        assert(t@[0] == t@.subrange(0, 2)[0]);
        assert(t@[0] == '0');
        lemma_first_word(t@);
    }
    let ws = text::split_whitespace(t.as_slice());
    assert(ws@.map_values(|w: Vec<char>| w@)[0] == ws@[0]@);
    let xid = text::slice_vec(ws[0].as_slice(), 0, ws[0].len());
    let name = match quoted_segment(t.as_slice()) {
        Some(q) => q,
        None => text::slice_vec(xid.as_slice(), 0, xid.len()),
    };
    assert(xid@ =~= words(t@)[0]);
    let (bounds, _) = parse_x11_geometry_from_line(t.as_slice(), &target.bounds)?;
    if !include_offscreen && !bounds_overlap(&bounds, &target.bounds) {
        return None;
    }
    let is_self = text::same(xid.as_slice(), text::chars_of(target.id.as_str()).as_slice());
    let mut description = owned("X11 window ");
    text::push_chars(&mut description, xid.as_slice());
    let mut actions: Vec<String> = Vec::new();
    actions.push(owned("click"));
    assert(strings_view(actions@) =~= seq!["click"@]);
    Some(ElementDescriptor {
        id: String::new(),
        role: if is_self { owned("window") } else { owned("x11_window") },
        name: text::string_of(name.as_slice()),
        description: Some(description),
        value: None,
        bounds: Some(bounds),
        target: Some(target_selector_from_platform(target)),
        path: root_path_exec(target),
        actions,
        app_name: copy_opt(&target.app_name),
        process_id: target.process_id,
    })
}

// ---------------------------------------------------------------------------
// Accessibility metadata
// ---------------------------------------------------------------------------

/// `s` with every leading copy of `p` removed, as `str::trim_start_matches`.
pub open spec fn strip_all_prefix(s: Seq<char>, p: Seq<char>) -> Seq<char>
    decreases s.len(),
{
    if p.len() > 0 && text::starts_with(s, p) {
        strip_all_prefix(s.skip(p.len() as int), p)
    } else {
        s
    }
}

pub open spec fn role_char(c: char) -> char {
    if c == '-' || c == ' ' {
        '_'
    } else {
        text::lower_char(c)
    }
}

/// AT-SPI role names in the contract's taxonomy: trimmed, `ROLE_` prefixes
/// removed, dashes and spaces as underscores, lower case, and an
/// `atspi_role_` prefix removed.
pub open spec fn normalize_role_spec(role: Seq<char>) -> Seq<char> {
    let n = strip_all_prefix(trim(role), "ROLE_"@).map_values(|c: char| role_char(c));
    if text::starts_with(n, "atspi_role_"@) {
        n.skip(11)
    } else {
        n
    }
}

pub fn normalize_atspi_role(role: &str) -> (r: String)
    ensures
        r@ == normalize_role_spec(role@),
{
    let cs = text::chars_of(role);
    let mut t = text::trimmed(cs.as_slice());
    let p = text::chars_of("ROLE_");
    proof {
        reveal_strlit("ROLE_");
        reveal_strlit("atspi_role_");
    }
    let ghost t0 = t@;
    assert(strip_all_prefix(t0, "ROLE_"@) == strip_all_prefix(t@, "ROLE_"@));
    while text::matches_at(t.as_slice(), p.as_slice(), 0)
        invariant
            p@ == "ROLE_"@,
            p@.len() == 5,
            strip_all_prefix(t0, "ROLE_"@) == strip_all_prefix(t@, "ROLE_"@),
        decreases t@.len(),
    {
        proof {
            assert(text::starts_with(t@, "ROLE_"@));
            assert(t@.len() >= 5);
        }
        let next = text::slice_vec(t.as_slice(), 5, t.len());
        assert(next@ =~= t@.skip(5));
        t = next;
    }
    let mut n: Vec<char> = Vec::new();
    let mut i: usize = 0;
    while i < t.len()
        invariant
            i <= t@.len(),
            n@ == t@.take(i as int).map_values(|c: char| role_char(c)),
        decreases t.len() - i,
    {
        let c = t[i];
        let d = if c == '-' || c == ' ' { '_' } else { text::to_lower_char(c) };
        n.push(d);
        i += 1;
        assert(n@ =~= t@.take(i as int).map_values(|c: char| role_char(c)));
    }
    assert(t@.take(t@.len() as int) =~= t@);
    if text::starts_with_lit(n.as_slice(), "atspi_role_") {
        text::string_of(text::slice_vec(n.as_slice(), 11, n.len()).as_slice())
    } else {
        text::string_of(n.as_slice())
    }
}

/// AT-SPI action names for the element DSL: activation verbs become
/// `press`; other names keep their lower-cased text with spaces and dashes as
/// underscores.
pub open spec fn normalize_action_spec(action: Seq<char>) -> Seq<char> {
    let l = lower(trim(action));
    if l == "click"@ || l == "press"@ || l == "activate"@ || l == "default"@ {
        "press"@
    } else if l == "toggle"@ || l == "expand"@ || l == "collapse"@ {
        l
    } else {
        l.map_values(|c: char| if c == ' ' || c == '-' { '_' } else { c })
    }
}

pub fn normalize_atspi_action(action: &str) -> (r: String)
    ensures
        r@ == normalize_action_spec(action@),
{
    let cs = text::chars_of(action);
    let l = text::to_lower(text::trimmed(cs.as_slice()).as_slice());
    let ls = l.as_slice();
    if text::is(ls, "click") || text::is(ls, "press") || text::is(ls, "activate") || text::is(ls, "default") {
        return owned("press");
    }
    if text::is(ls, "toggle") || text::is(ls, "expand") || text::is(ls, "collapse") {
        return text::string_of(ls);
    }
    let mut n: Vec<char> = Vec::new();
    let mut i: usize = 0;
    while i < l.len()
        invariant
            i <= l@.len(),
            n@ == l@.take(i as int).map_values(|c: char| if c == ' ' || c == '-' { '_' } else { c }),
        decreases l.len() - i,
    {
        let c = l[i];
        n.push(if c == ' ' || c == '-' { '_' } else { c });
        i += 1;
        assert(n@ =~= l@.take(i as int).map_values(|c: char| if c == ' ' || c == '-' { '_' } else { c }));
    }
    assert(l@.take(l@.len() as int) =~= l@);
    text::string_of(n.as_slice())
}

/// A child's path: the parent's, with the child's name appended unless the
/// parent's path already ends with it.
pub open spec fn child_path_spec(parent: Seq<Seq<char>>, name: Seq<char>) -> Seq<Seq<char>> {
    if parent.len() > 0 && parent.last() == name {
        parent
    } else {
        parent.push(name)
    }
}

pub fn parent_path_for_child(parent_path: &Vec<String>, name: &str) -> (r: Vec<String>)
    ensures
        strings_view(r@) == child_path_spec(strings_view(parent_path@), name@),
{
    let mut path: Vec<String> = Vec::new();
    let mut i: usize = 0;
    while i < parent_path.len()
        invariant
            i <= parent_path@.len(),
            path@.len() == i,
            strings_view(path@) == strings_view(parent_path@).take(i as int),
        decreases parent_path.len() - i,
    {
        let item = parent_path[i].clone();
        assert(item@ == parent_path@[i as int]@);
        path.push(item);
        i += 1;
        assert(strings_view(path@) =~= strings_view(parent_path@).take(i as int));
    }
    assert(strings_view(parent_path@).take(parent_path@.len() as int) =~= strings_view(parent_path@));
    let n = path.len();
    let duplicate = n > 0 && text::same(
        text::chars_of(path[n - 1].as_str()).as_slice(),
        text::chars_of(name).as_slice(),
    );
    if !duplicate {
        let ghost before = path@;
        path.push(owned(name));
        assert(strings_view(path@) =~= strings_view(before).push(name@));
    }
    path
}

/// Actions offered for an element: `click` first and `press` last are added
/// when the element has bounds and lacks them.
pub open spec fn completed_actions(has_bounds: bool, actions: Seq<Seq<char>>) -> Seq<Seq<char>> {
    let a1 = if has_bounds && !actions.contains("click"@) { seq!["click"@] + actions } else { actions };
    if has_bounds && !a1.contains("press"@) { a1.push("press"@) } else { a1 }
}

fn contains_string(v: &Vec<String>, lit: &str) -> (r: bool)
    ensures
        r == strings_view(v@).contains(lit@),
{
    let l = text::chars_of(lit);
    let mut i: usize = 0;
    while i < v.len()
        invariant
            i <= v@.len(),
            l@ == lit@,
            forall|j: int| 0 <= j < i ==> strings_view(v@)[j] != lit@,
        decreases v.len() - i,
    {
        if text::same(text::chars_of(v[i].as_str()).as_slice(), l.as_slice()) {
            assert(strings_view(v@)[i as int] == lit@);
            return true;
        }
        i += 1;
    }
    false
}

pub fn complete_element_actions(has_bounds: bool, actions: Vec<String>) -> (r: Vec<String>)
    ensures
        strings_view(r@) == completed_actions(has_bounds, strings_view(actions@)),
{
    let mut a = actions;
    if has_bounds && !contains_string(&a, "click") {
        let ghost before = a@;
        a.insert(0, owned("click"));
        assert(strings_view(a@) =~= seq!["click"@] + strings_view(before));
    }
    if has_bounds && !contains_string(&a, "press") {
        let ghost before = a@;
        a.push(owned("press"));
        assert(strings_view(a@) =~= strings_view(before).push("press"@));
    }
    a
}

/// Normalised action names without empty ones, each kept at its first
/// occurrence.
pub open spec fn action_names_spec(raw: Seq<Seq<char>>, n: int) -> Seq<Seq<char>>
    decreases n,
{
    if n <= 0 {
        seq![]
    } else {
        let acc = action_names_spec(raw, n - 1);
        let name = normalize_action_spec(raw[n - 1]);
        if name.len() == 0 || acc.contains(name) {
            acc
        } else {
            acc.push(name)
        }
    }
}

pub fn atspi_action_names(raw: &Vec<String>) -> (r: Vec<String>)
    ensures
        strings_view(r@) == action_names_spec(strings_view(raw@), raw@.len() as int),
{
    let mut acc: Vec<String> = Vec::new();
    let mut i: usize = 0;
    while i < raw.len()
        invariant
            i <= raw@.len(),
            strings_view(acc@) == action_names_spec(strings_view(raw@), i as int),
        decreases raw.len() - i,
    {
        let name = normalize_atspi_action(raw[i].as_str());
        assert(strings_view(raw@)[i as int] == raw@[i as int]@);
        if text::chars_of(name.as_str()).len() > 0 && !contains_string_owned(&acc, &name) {
            let ghost before = acc@;
            acc.push(name);
            assert(strings_view(acc@) =~= strings_view(before).push(name@));
        }
        i += 1;
    }
    acc
}

fn contains_string_owned(v: &Vec<String>, s: &String) -> (r: bool)
    ensures
        r == strings_view(v@).contains(s@),
{
    contains_string(v, s.as_str())
}

/// The JavaScript-for-Automation program that lists the accessibility tree
/// of process `pid`, keeping elements that intersect `b` unless offscreen
/// elements are wanted, up to 512 elements.
pub open spec fn jxa_spec(pid: u32, b: Bounds, include_offscreen: bool) -> Seq<char> {
    r#"ObjC.import('ApplicationServices');
(function () {
  var pid = "#@ + text::decimal(pid as nat) + r#";
  var target = { x: "#@ + text::signed_decimal(b.x as int) + r#", y: "#@ + text::signed_decimal(b.y as int) + r#", width: "#@ + text::decimal(b.width as nat) + r#", height: "#@ + text::decimal(b.height as nat) + r#" };
  var includeOffscreen = "#@ + (if include_offscreen { "true"@ } else { "false"@ }) + r#";
  var maxElements = 512;
  var app = $.AXUIElementCreateApplication(pid);
  if (!app) throw new Error('AXUIElementCreateApplication failed');
  var out = [];
  function unwrap(value) {
    try { return ObjC.unwrap(value); } catch (e) { return String(value); }
  }
  function attr(element, name) {
    var ref = Ref();
    var err = $.AXUIElementCopyAttributeValue(element, $(name), ref);
    if (err !== 0 || !ref[0]) return null;
    return ObjC.castRefToObject(ref[0]);
  }
  function point(value) {
    if (!value) return null;
    var p = $.CGPointMake(0, 0);
    if (!$.AXValueGetValue(value, 1, Ref(p))) return null;
    return { x: Math.round(p.x), y: Math.round(p.y) };
  }
  function size(value) {
    if (!value) return null;
    var s = $.CGSizeMake(0, 0);
    if (!$.AXValueGetValue(value, 2, Ref(s))) return null;
    return { width: Math.round(s.width), height: Math.round(s.height) };
  }
  function intersects(bounds) {
    if (includeOffscreen || !bounds) return true;
    return bounds.x < target.x + target.width && bounds.x + bounds.width > target.x &&
           bounds.y < target.y + target.height && bounds.y + bounds.height > target.y;
  }
  function textAttr(element, name) {
    var value = attr(element, name);
    if (!value) return null;
    var text = String(unwrap(value));
    return text.length === 0 ? null : text;
  }
  function roleName(role) {
    if (!role) return 'element';
    return String(unwrap(role)).replace(/^AX/, '').toLowerCase();
  }
  function walk(element, depth, path) {
    if (out.length >= maxElements || depth > 8) return;
    var role = roleName(attr(element, 'AXRole'));
    var title = textAttr(element, 'AXTitle');
    var desc = textAttr(element, 'AXDescription');
    var value = textAttr(element, 'AXValue');
    var pos = point(attr(element, 'AXPosition'));
    var sz = size(attr(element, 'AXSize'));
    var bounds = (pos && sz) ? { x: pos.x, y: pos.y, width: sz.width, height: sz.height } : null;
    var name = title || desc || value || role;
    if (intersects(bounds)) {
      out.push({ role: role, name: name, description: desc, value: value, bounds: bounds, path: path.concat([name]) });
    }
    var children = attr(element, 'AXChildren');
    if (!children) return;
    var count = children.count;
    for (var i = 0; i < count && out.length < maxElements; i += 1) {
      walk(children.objectAtIndex(i), depth + 1, path.concat([name]));
    }
  }
  walk(app, 0, []);
  return JSON.stringify(out);
}());
"#@
}

pub fn macos_accessibility_listing_jxa(process_id: u32, target: &TargetDescriptor, include_offscreen: bool) -> (r: String)
    ensures
        r@ == jxa_spec(process_id, target.bounds, include_offscreen),
{
    let mut s = owned(r#"ObjC.import('ApplicationServices');
(function () {
  var pid = "#);
    let part = text::format_u64(process_id as u64);
    text::push_str(&mut s, part.as_str());
    text::push_str(&mut s, r#";
  var target = { x: "#);
    let part = text::format_i64(target.bounds.x as i64);
    text::push_str(&mut s, part.as_str());
    text::push_str(&mut s, r#", y: "#);
    let part = text::format_i64(target.bounds.y as i64);
    text::push_str(&mut s, part.as_str());
    text::push_str(&mut s, r#", width: "#);
    let part = text::format_u64(target.bounds.width as u64);
    text::push_str(&mut s, part.as_str());
    text::push_str(&mut s, r#", height: "#);
    let part = text::format_u64(target.bounds.height as u64);
    text::push_str(&mut s, part.as_str());
    text::push_str(&mut s, r#" };
  var includeOffscreen = "#);
    let part = owned(if include_offscreen { "true" } else { "false" });
    text::push_str(&mut s, part.as_str());
    text::push_str(&mut s, r#";
  var maxElements = 512;
  var app = $.AXUIElementCreateApplication(pid);
  if (!app) throw new Error('AXUIElementCreateApplication failed');
  var out = [];
  function unwrap(value) {
    try { return ObjC.unwrap(value); } catch (e) { return String(value); }
  }
  function attr(element, name) {
    var ref = Ref();
    var err = $.AXUIElementCopyAttributeValue(element, $(name), ref);
    if (err !== 0 || !ref[0]) return null;
    return ObjC.castRefToObject(ref[0]);
  }
  function point(value) {
    if (!value) return null;
    var p = $.CGPointMake(0, 0);
    if (!$.AXValueGetValue(value, 1, Ref(p))) return null;
    return { x: Math.round(p.x), y: Math.round(p.y) };
  }
  function size(value) {
    if (!value) return null;
    var s = $.CGSizeMake(0, 0);
    if (!$.AXValueGetValue(value, 2, Ref(s))) return null;
    return { width: Math.round(s.width), height: Math.round(s.height) };
  }
  function intersects(bounds) {
    if (includeOffscreen || !bounds) return true;
    return bounds.x < target.x + target.width && bounds.x + bounds.width > target.x &&
           bounds.y < target.y + target.height && bounds.y + bounds.height > target.y;
  }
  function textAttr(element, name) {
    var value = attr(element, name);
    if (!value) return null;
    var text = String(unwrap(value));
    return text.length === 0 ? null : text;
  }
  function roleName(role) {
    if (!role) return 'element';
    return String(unwrap(role)).replace(/^AX/, '').toLowerCase();
  }
  function walk(element, depth, path) {
    if (out.length >= maxElements || depth > 8) return;
    var role = roleName(attr(element, 'AXRole'));
    var title = textAttr(element, 'AXTitle');
    var desc = textAttr(element, 'AXDescription');
    var value = textAttr(element, 'AXValue');
    var pos = point(attr(element, 'AXPosition'));
    var sz = size(attr(element, 'AXSize'));
    var bounds = (pos && sz) ? { x: pos.x, y: pos.y, width: sz.width, height: sz.height } : null;
    var name = title || desc || value || role;
    if (intersects(bounds)) {
      out.push({ role: role, name: name, description: desc, value: value, bounds: bounds, path: path.concat([name]) });
    }
    var children = attr(element, 'AXChildren');
    if (!children) return;
    var count = children.count;
    for (var i = 0; i < count && out.length < maxElements; i += 1) {
      walk(children.objectAtIndex(i), depth + 1, path.concat([name]));
    }
  }
  walk(app, 0, []);
  return JSON.stringify(out);
}());
"#);
    s
}

// ---------------------------------------------------------------------------
// Assembling a listing
// ---------------------------------------------------------------------------

/// Which element backend serves a session.
#[derive(Debug, Clone, Copy, PartialEq, Eq, Structural)]
pub enum ElementBackend {
    MacOsAccessibility,
    X11,
    Wayland,
    WindowsNative,
    RootsOnly,
}

pub fn element_backend(adapter: &AdapterInfo) -> (b: ElementBackend)
    ensures
        b == (if adapter.platform == crate::platform::PlatformKind::MacOs && adapter.session == crate::platform::DesktopSession::MacOsWindowServer {
            ElementBackend::MacOsAccessibility
        } else if adapter.platform == crate::platform::PlatformKind::Linux && adapter.session == crate::platform::DesktopSession::X11 {
            ElementBackend::X11
        } else if adapter.platform == crate::platform::PlatformKind::Linux && adapter.session == crate::platform::DesktopSession::Wayland {
            ElementBackend::Wayland
        } else if adapter.platform == crate::platform::PlatformKind::Windows11 && adapter.session == crate::platform::DesktopSession::WindowsDesktop {
            ElementBackend::WindowsNative
        } else {
            ElementBackend::RootsOnly
        }),
{
    if adapter.platform == crate::platform::PlatformKind::MacOs && adapter.session == crate::platform::DesktopSession::MacOsWindowServer {
        ElementBackend::MacOsAccessibility
    } else if adapter.platform == crate::platform::PlatformKind::Linux && adapter.session == crate::platform::DesktopSession::X11 {
        ElementBackend::X11
    } else if adapter.platform == crate::platform::PlatformKind::Linux && adapter.session == crate::platform::DesktopSession::Wayland {
        ElementBackend::Wayland
    } else if adapter.platform == crate::platform::PlatformKind::Windows11 && adapter.session == crate::platform::DesktopSession::WindowsDesktop {
        ElementBackend::WindowsNative
    } else {
        ElementBackend::RootsOnly
    }
}

/// Note added when a session has no element backend.
pub fn no_backend_note() -> (r: String)
    ensures
        r@ == "No platform element backend is available for this session; returning target roots only."@,
{
    owned("No platform element backend is available for this session; returning target roots only.")
}

/// Completes an element listing: with no discovered elements the targets'
/// root elements stand in (with a note), then snapshot identifiers are
/// assigned, so that every element has an identifier that is neither blank
/// nor `auto:`, and a listing of at least one target lists an element.
pub fn finish_element_listing(
    adapter: &AdapterInfo,
    input: &ElementListInput,
    targets: &[TargetDescriptor],
    elements: Vec<ElementDescriptor>,
    notes: Vec<String>,
) -> (r: ElementListOutput)
    ensures
        r.adapter == *adapter,
        r.target == input.target,
        forall|i: int| 0 <= i < r.elements@.len() ==> !needs_snapshot_id(#[trigger] r.elements@[i].id@),
        targets@.len() > 0 ==> r.elements@.len() > 0,
        elements@.len() == 0 ==> {
            &&& strings_view(r.notes@) == strings_view(notes@).push("No child UI elements were reported; returning target roots."@)
            &&& r.elements@.len() == targets@.len()
            &&& forall|i: int| #![trigger r.elements@[i]] 0 <= i < targets@.len() ==> {
                let e = r.elements@[i];
                &&& e.id@ == text::decimal((i + 1) as nat)
                &&& root_fields(e, targets@[i])
            }
        },
        elements@.len() > 0 ==> {
            &&& r.notes == notes
            &&& r.elements@.len() == elements@.len()
            &&& forall|i: int| #![trigger r.elements@[i]] 0 <= i < elements@.len() ==> {
                let e = r.elements@[i];
                &&& e.id@ == (if needs_snapshot_id(elements@[i].id@) { text::decimal((i + 1) as nat) } else { elements@[i].id@ })
                &&& e == (ElementDescriptor { id: e.id, ..elements@[i] })
            }
        },
{
    let mut elements = elements;
    let mut notes = notes;
    if elements.len() == 0 {
        let ghost before = notes@;
        notes.push(owned("No child UI elements were reported; returning target roots."));
        assert(strings_view(notes@) =~= strings_view(before).push("No child UI elements were reported; returning target roots."@));
        elements = root_elements_from_targets(targets);
        let ghost roots = elements@;
        assign_snapshot_ids(&mut elements);
        proof {
            assert forall|i: int| #![trigger elements@[i]] 0 <= i < targets@.len() implies {
                let e = elements@[i];
                &&& e.id@ == text::decimal((i + 1) as nat)
                &&& root_fields(e, targets@[i])
            } by {
                assert(roots[i].id@.len() == 0);
                assert(trim(roots[i].id@) =~= Seq::<char>::empty()) by {
                    assert(text::lead_ws(roots[i].id@) == 0);
                }
                assert(is_root_element(roots[i], targets@[i]));
            }
        }
    } else {
        assign_snapshot_ids(&mut elements);
    }
    proof {
        assert forall|i: int| 0 <= i < elements@.len() implies !needs_snapshot_id(#[trigger] elements@[i].id@) by {
            lemma_decimal_is_usable_id((i + 1) as nat);
        }
    }
    let target = match &input.target {
        Some(t) => Some(t.duplicate()),
        None => None,
    };
    ElementListOutput { adapter: *adapter, target, elements, notes }
}

} // verus!
