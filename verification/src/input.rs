//! The run-input DSL: deciding whether a run payload is plain text or a
//! comma-separated action sequence, parsing the sequence into typed actions,
//! and the checks made on actions before any input reaches a target.
use vstd::prelude::*;

use crate::error::{is_invalid, is_text_detail, DetailValue, TendrilError};
use crate::model::{
    action_error, Bounds, CoordinateTransform, InputAction, ModifierKey, MouseButton,
    RunInputPayload,
};
use crate::text::{
    self, all_digits, digits_value, has_char, is_ascii_alnum, is_ascii_digit, is_ws, lower,
    owned, trim, trim_start,
};

verus! {

// ---------------------------------------------------------------------------
// Lexical structure: strings, escapes and parenthesis depth
// ---------------------------------------------------------------------------

/// The scanner state before a character: inside a string literal, just after
/// a backslash inside one, and the parenthesis depth.
pub struct Lex {
    pub in_string: bool,
    pub escape: bool,
    pub depth: int,
}

/// One step of the scanner. In saturating mode the depth stays within
/// `0..=u32::MAX`; otherwise it is a plain signed count.
pub open spec fn lex_step(s: Lex, c: char, saturating: bool) -> Lex {
    if s.in_string {
        if s.escape {
            Lex { escape: false, ..s }
        } else if c == '\\' {
            Lex { escape: true, ..s }
        } else if c == '"' {
            Lex { in_string: false, ..s }
        } else {
            s
        }
    } else if c == '"' {
        Lex { in_string: true, ..s }
    } else if c == '(' {
        Lex {
            depth: if saturating && s.depth >= u32::MAX { s.depth } else { s.depth + 1 },
            ..s
        }
    } else if c == ')' {
        Lex { depth: if saturating && s.depth <= 0 { 0 } else { s.depth - 1 }, ..s }
    } else {
        s
    }
}

/// Scanner state before character `i`.
pub open spec fn lex_at(cs: Seq<char>, i: int, saturating: bool) -> Lex
    decreases i,
{
    if i <= 0 {
        Lex { in_string: false, escape: false, depth: 0 }
    } else {
        lex_step(lex_at(cs, i - 1, saturating), cs[i - 1], saturating)
    }
}

/// Character `i` is `c`, outside any string literal and parentheses.
pub open spec fn top_level(cs: Seq<char>, i: int, c: char, saturating: bool) -> bool {
    0 <= i < cs.len() && cs[i] == c && !lex_at(cs, i, saturating).in_string && lex_at(
        cs,
        i,
        saturating,
    ).depth == 0
}

proof fn lemma_lex_bounds(cs: Seq<char>, i: int, saturating: bool)
    requires
        0 <= i,
    ensures
        -i <= lex_at(cs, i, saturating).depth <= i,
        saturating ==> 0 <= lex_at(cs, i, saturating).depth <= u32::MAX,
        !lex_at(cs, i, saturating).in_string ==> !lex_at(cs, i, saturating).escape,
    decreases i,
{
    if i > 0 {
        lemma_lex_bounds(cs, i - 1, saturating);
    }
}

/// Executable scanner step, agreeing with `lex_step`.
fn lex_advance(in_string: bool, escape: bool, depth: i128, c: char, saturating: bool) -> (r: (bool, bool, i128))
    requires
        -0x1_0000_0000_0000_0000 <= depth <= 0x1_0000_0000_0000_0000,
        saturating ==> 0 <= depth <= u32::MAX,
    ensures
        ({
            let s = lex_step(Lex { in_string, escape, depth: depth as int }, c, saturating);
            r.0 == s.in_string && r.1 == s.escape && r.2 as int == s.depth
        }),
{
    if in_string {
        if escape {
            (in_string, false, depth)
        } else if c == '\\' {
            (in_string, true, depth)
        } else if c == '"' {
            (false, escape, depth)
        } else {
            (in_string, escape, depth)
        }
    } else if c == '"' {
        (true, escape, depth)
    } else if c == '(' {
        if saturating && depth >= 0xffff_ffff {
            (in_string, escape, depth)
        } else {
            (in_string, escape, depth + 1)
        }
    } else if c == ')' {
        if saturating && depth <= 0 {
            (in_string, escape, 0)
        } else {
            (in_string, escape, depth - 1)
        }
    } else {
        (in_string, escape, depth)
    }
}

/// Width of a character in UTF-8.
pub open spec fn utf8_width(c: char) -> int {
    if (c as u32) < 0x80 {
        1
    } else if (c as u32) < 0x800 {
        2
    } else if (c as u32) < 0x10000 {
        3
    } else {
        4
    }
}

/// Byte offset of character `i` (saturating at `u64::MAX`).
pub open spec fn byte_offset(cs: Seq<char>, i: int) -> int
    decreases i,
{
    if i <= 0 {
        0
    } else {
        let o = byte_offset(cs, i - 1) + utf8_width(cs[i - 1]);
        if o > u64::MAX {
            u64::MAX as int
        } else {
            o
        }
    }
}

fn utf8_width_exec(c: char) -> (w: u64)
    ensures
        w == utf8_width(c),
{
    let code = c as u32;
    if code < 0x80 {
        1
    } else if code < 0x800 {
        2
    } else if code < 0x10000 {
        3
    } else {
        4
    }
}

proof fn lemma_byte_offset_bounds(cs: Seq<char>, i: int)
    ensures
        0 <= byte_offset(cs, i) <= u64::MAX,
    decreases i,
{
    if i > 0 {
        lemma_byte_offset_bounds(cs, i - 1);
    }
}

/// The first top-level `;` (saturating depth), if any.
pub open spec fn first_top_semicolon(cs: Seq<char>, r: Option<usize>) -> bool {
    match r {
        Some(i) => top_level(cs, i as int, ';', true) && forall|j: int|
            0 <= j < i ==> !top_level(cs, j, ';', true),
        None => forall|j: int| 0 <= j < cs.len() ==> !top_level(cs, j, ';', true),
    }
}

/// Index of the first `;` outside strings and parentheses.
fn top_level_semicolon_index(cs: &[char]) -> (r: Option<usize>)
    ensures
        first_top_semicolon(cs@, r),
{
    let mut in_string = false;
    let mut escape = false;
    let mut depth: i128 = 0;
    let mut i: usize = 0;
    while i < cs.len()
        invariant
            i <= cs.len(),
            in_string == lex_at(cs@, i as int, true).in_string,
            escape == lex_at(cs@, i as int, true).escape,
            depth as int == lex_at(cs@, i as int, true).depth,
            forall|j: int| 0 <= j < i ==> !top_level(cs@, j, ';', true),
        decreases cs.len() - i,
    {
        proof {
            lemma_lex_bounds(cs@, i as int, true);
        }
        if !in_string && depth == 0 && cs[i] == ';' {
            return Some(i);
        }
        let (a, b, d) = lex_advance(in_string, escape, depth, cs[i], true);
        in_string = a;
        escape = b;
        depth = d;
        i += 1;
    }
    None
}

/// Byte offset of character `i`, as reported in diagnostics.
fn byte_offset_of(cs: &[char], i: usize) -> (o: u64)
    requires
        i <= cs.len(),
    ensures
        o == byte_offset(cs@, i as int),
{
    let mut o: u64 = 0;
    let mut k: usize = 0;
    while k < i
        invariant
            k <= i <= cs.len(),
            o == byte_offset(cs@, k as int),
        decreases i - k,
    {
        proof {
            lemma_byte_offset_bounds(cs@, k as int);
        }
        let w = utf8_width_exec(cs[k]);
        o = o.saturating_add(w);
        k += 1;
    }
    o
}

/// Whether a `,` occurs outside strings and parentheses (saturating depth).
fn contains_top_level_comma(cs: &[char]) -> (r: bool)
    ensures
        r == exists|j: int| top_level(cs@, j, ',', true),
{
    let mut in_string = false;
    let mut escape = false;
    let mut depth: i128 = 0;
    let mut i: usize = 0;
    while i < cs.len()
        invariant
            i <= cs.len(),
            in_string == lex_at(cs@, i as int, true).in_string,
            escape == lex_at(cs@, i as int, true).escape,
            depth as int == lex_at(cs@, i as int, true).depth,
            forall|j: int| 0 <= j < i ==> !top_level(cs@, j, ',', true),
        decreases cs.len() - i,
    {
        proof {
            lemma_lex_bounds(cs@, i as int, true);
        }
        if !in_string && depth == 0 && cs[i] == ',' {
            assert(top_level(cs@, i as int, ',', true));
            return true;
        }
        let (a, b, d) = lex_advance(in_string, escape, depth, cs[i], true);
        in_string = a;
        escape = b;
        depth = d;
        i += 1;
    }
    proof {
        assert forall|j: int| !top_level(cs@, j, ',', true) by {
            if 0 <= j < cs@.len() {
            }
        }
    }
    false
}

// ---------------------------------------------------------------------------
// Diagnostics
// ---------------------------------------------------------------------------

/// `e` is a DSL diagnostic: an `invalid_run_input` validation failure on the
/// `input_definition` field with the given message, action position,
/// offending action text and stage.
pub open spec fn is_dsl_error(
    e: TendrilError,
    message: Seq<char>,
    index: Option<int>,
    action: Option<Seq<char>>,
    stage: Seq<char>,
) -> bool {
    &&& is_invalid(e, "invalid_run_input"@, "input_definition"@, message)
    &&& match index {
        Some(i) => e.detail_spec("action_index"@) == Some(DetailValue::Number(i as u64))
            && e.detail_spec("action_number"@) == Some(DetailValue::Number((i + 1) as u64)),
        None => e.detail_spec("action_index"@) is None && e.detail_spec("action_number"@) is None,
    }
    &&& match action {
        Some(a) => is_text_detail(e.detail_spec("action"@), a),
        None => e.detail_spec("action"@) is None,
    }
    &&& is_text_detail(e.detail_spec("stage"@), stage)
}

/// The detail keys used by DSL diagnostics are distinct.
proof fn lemma_detail_keys_distinct()
    ensures
        "field"@ != "action_index"@,
        "field"@ != "action_number"@,
        "field"@ != "action"@,
        "field"@ != "stage"@,
        "field"@ != "offset"@,
        "field"@ != "hint"@,
        "field"@ != "ambiguous_token"@,
        "field"@ != "ambiguity"@,
        "field"@ != "verb"@,
        "action_index"@ != "action_number"@,
        "action_index"@ != "action"@,
        "action_index"@ != "stage"@,
        "action_index"@ != "offset"@,
        "action_index"@ != "hint"@,
        "action_index"@ != "ambiguous_token"@,
        "action_index"@ != "ambiguity"@,
        "action_index"@ != "verb"@,
        "action_number"@ != "action"@,
        "action_number"@ != "stage"@,
        "action_number"@ != "offset"@,
        "action_number"@ != "hint"@,
        "action_number"@ != "ambiguous_token"@,
        "action_number"@ != "ambiguity"@,
        "action_number"@ != "verb"@,
        "action"@ != "stage"@,
        "action"@ != "offset"@,
        "action"@ != "hint"@,
        "action"@ != "ambiguous_token"@,
        "action"@ != "ambiguity"@,
        "action"@ != "verb"@,
        "stage"@ != "offset"@,
        "stage"@ != "hint"@,
        "stage"@ != "ambiguous_token"@,
        "stage"@ != "ambiguity"@,
        "stage"@ != "verb"@,
        "offset"@ != "hint"@,
        "offset"@ != "ambiguous_token"@,
        "offset"@ != "ambiguity"@,
        "offset"@ != "verb"@,
        "hint"@ != "ambiguous_token"@,
        "hint"@ != "ambiguity"@,
        "hint"@ != "verb"@,
        "ambiguous_token"@ != "ambiguity"@,
        "ambiguous_token"@ != "verb"@,
        "ambiguity"@ != "verb"@,
{
    reveal_strlit("field");
    reveal_strlit("action_index");
    reveal_strlit("action_number");
    reveal_strlit("action");
    reveal_strlit("stage");
    reveal_strlit("offset");
    reveal_strlit("hint");
    reveal_strlit("ambiguous_token");
    reveal_strlit("ambiguity");
    reveal_strlit("verb");
    assert("field"@[0] != "stage"@[0]);
    assert("action"@[0] != "offset"@[0]);
    assert("hint"@[0] != "verb"@[0]);
    assert("action_index"@.len() != "action_number"@.len());
    assert("ambiguous_token"@.len() != "ambiguity"@.len());
}

/// Builds a DSL diagnostic.
fn dsl_error(message: String, index: Option<usize>, action: Option<&[char]>, stage: &str) -> (e: TendrilError)
    requires
        index matches Some(i) ==> i < usize::MAX,
    ensures
        is_dsl_error(
            e,
            message@,
            match index {
                Some(i) => Some(i as int),
                None => None,
            },
            match action {
                Some(a) => Some(a@),
                None => None,
            },
            stage@,
        ),
        e.detail_spec("offset"@) is None,
        e.detail_spec("hint"@) is None,
        e.detail_spec("ambiguous_token"@) is None,
        e.detail_spec("ambiguity"@) is None,
        e.detail_spec("verb"@) is None,
{
    proof {
        lemma_detail_keys_distinct();
    }
    let mut error = TendrilError::invalid(message, "invalid_run_input", "input_definition");
    match index {
        Some(i) => {
            let n: u64 = i as u64 + 1;
            error = error.with_detail_entry("action_index", DetailValue::Number(i as u64)).with_detail_entry(
                "action_number",
                DetailValue::Number(n),
            );
        },
        None => {},
    }
    match action {
        Some(a) => {
            error = error.with_detail_entry("action", DetailValue::Text(text::string_of(a)));
        },
        None => {},
    }
    error.with_detail_entry("stage", DetailValue::Text(owned(stage)))
}

// ---------------------------------------------------------------------------
// Key tokens
// ---------------------------------------------------------------------------

pub open spec fn key_char(c: char) -> bool {
    is_ascii_alnum(c) || c == '_' || c == '-' || c == '+'
}

/// A bare key token: after trimming, a non-empty run of ASCII letters,
/// digits, `_`, `-` and `+`, lower-cased.
pub open spec fn key_token_spec(s: Seq<char>) -> Option<Seq<char>> {
    let t = trim(s);
    if t.len() > 0 && forall|i: int| 0 <= i < t.len() ==> key_char(#[trigger] t[i]) {
        Some(lower(t))
    } else {
        None
    }
}

fn parse_key_token(s: &[char]) -> (r: Option<Vec<char>>)
    ensures
        match r {
            Some(k) => key_token_spec(s@) == Some(k@),
            None => key_token_spec(s@) is None,
        },
{
    let t = text::trimmed(s);
    if t.len() == 0 {
        return None;
    }
    let mut i: usize = 0;
    while i < t.len()
        invariant
            i <= t@.len(),
            t@ == trim(s@),
            forall|j: int| 0 <= j < i ==> key_char(#[trigger] t@[j]),
        decreases t.len() - i,
    {
        let c = t[i];
        if !(text::is_alnum(c) || c == '_' || c == '-' || c == '+') {
            assert(!key_char(t@[i as int]));
            return None;
        }
        i += 1;
    }
    Some(text::to_lower(t.as_slice()))
}

/// Key names that, typed alone, are taken for a mistaken key tap.
pub open spec fn known_bare_keys() -> Seq<Seq<char>> {
    seq![
        "f1"@, "f2"@, "f3"@, "f4"@, "f5"@, "f6"@, "f7"@, "f8"@, "f9"@, "f10"@, "f11"@, "f12"@,
        "enter"@, "return"@, "tab"@, "esc"@, "escape"@, "space"@, "backspace"@, "insert"@,
        "ins"@, "delete"@, "del"@, "left"@, "right"@, "up"@, "down"@, "home"@, "end"@,
        "pageup"@, "pagedown"@, "page-up"@, "page-down"@, "page_up"@, "page_down"@, "pgup"@,
        "pgdn"@,
    ]
}

fn is_known_bare_key_token(s: &[char]) -> (r: bool)
    ensures
        r == known_bare_keys().contains(lower(trim(s@))),
{
    let t = text::trimmed(s);
    let l = text::to_lower(t.as_slice());
    let words: [&str; 37] = [
        "f1", "f2", "f3", "f4", "f5", "f6", "f7", "f8", "f9", "f10", "f11", "f12", "enter",
        "return", "tab", "esc", "escape", "space", "backspace", "insert", "ins", "delete", "del",
        "left", "right", "up", "down", "home", "end", "pageup", "pagedown", "page-up",
        "page-down", "page_up", "page_down", "pgup", "pgdn",
    ];
    let r = text::among(l.as_slice(), &words);
    proof {
        let k = known_bare_keys();
        assert(words@.len() == 37);
        assert(forall|j: int| 0 <= j < 37 ==> (#[trigger] words@[j])@ == k[j]);
        if r {
            let j = choose|j: int| 0 <= j < words@.len() && (#[trigger] words@[j])@ == l@;
            assert(k[j] == l@);
        }
        if k.contains(l@) {
            let j = choose|j: int| 0 <= j < k.len() && k[j] == l@;
            assert(words@[j]@ == l@);
        }
    }
    r
}

// ---------------------------------------------------------------------------
// Splitting at top-level commas
// ---------------------------------------------------------------------------

/// Index of the last top-level comma (signed depth) before `i`, or -1.
pub open spec fn last_comma_before(cs: Seq<char>, i: int) -> int
    decreases i,
{
    if i <= 0 {
        -1
    } else if top_level(cs, i - 1, ',', false) {
        i - 1
    } else {
        last_comma_before(cs, i - 1)
    }
}

/// Where the piece containing position `i` starts.
pub open spec fn piece_start(cs: Seq<char>, i: int) -> int {
    last_comma_before(cs, i) + 1
}

/// Number of top-level commas before `i`.
pub open spec fn comma_count(cs: Seq<char>, i: int) -> nat
    decreases i,
{
    if i <= 0 {
        0
    } else if top_level(cs, i - 1, ',', false) {
        comma_count(cs, i - 1) + 1
    } else {
        comma_count(cs, i - 1)
    }
}

/// The raw pieces closed by the top-level commas before `i`.
pub open spec fn raw_pieces_before(cs: Seq<char>, i: int) -> Seq<Seq<char>>
    decreases i,
{
    if i <= 0 {
        seq![]
    } else if top_level(cs, i - 1, ',', false) {
        raw_pieces_before(cs, i - 1).push(cs.subrange(piece_start(cs, i - 1), i - 1))
    } else {
        raw_pieces_before(cs, i - 1)
    }
}

/// The text between top-level commas, untrimmed.
pub open spec fn raw_pieces(cs: Seq<char>) -> Seq<Seq<char>> {
    raw_pieces_before(cs, cs.len() as int).push(
        cs.subrange(piece_start(cs, cs.len() as int), cs.len() as int),
    )
}

/// The text between top-level commas, trimmed.
pub open spec fn pieces(cs: Seq<char>) -> Seq<Seq<char>> {
    raw_pieces(cs).map_values(|p: Seq<char>| trim(p))
}

proof fn lemma_piece_start_bounds(cs: Seq<char>, i: int)
    requires
        0 <= i <= cs.len(),
    ensures
        0 <= piece_start(cs, i) <= i,
        comma_count(cs, i) == raw_pieces_before(cs, i).len(),
        comma_count(cs, i) <= i,
    decreases i,
{
    if i > 0 {
        lemma_piece_start_bounds(cs, i - 1);
    }
}

pub open spec fn views(v: Seq<Vec<char>>) -> Seq<Seq<char>> {
    v.map_values(|x: Vec<char>| x@)
}

/// A top-level `)` with nothing open.
pub open spec fn stray_close(cs: Seq<char>, i: int) -> bool {
    top_level(cs, i, ')', false)
}

/// A top-level comma closing an empty action.
pub open spec fn empty_action_at(cs: Seq<char>, i: int) -> bool {
    top_level(cs, i, ',', false) && trim(cs.subrange(piece_start(cs, i), i)).len() == 0
}

/// The first position at which the splitter stops with a diagnostic.
pub open spec fn split_blocked_at(cs: Seq<char>, i: int) -> bool {
    stray_close(cs, i) || top_level(cs, i, ';', false) || empty_action_at(cs, i)
}

/// Why splitting a sequence failed.
pub struct SplitFailure {
    pub message: Seq<char>,
    pub index: Option<int>,
    pub offset: Option<int>,
}

/// The first blocking position, if there is one.
pub open spec fn first_block(cs: Seq<char>) -> Option<int> {
    if exists|i: int| 0 <= i < cs.len() && split_blocked_at(cs, i) {
        Some(choose|i: int| 0 <= i < cs.len() && split_blocked_at(cs, i) && forall|j: int|
            0 <= j < i ==> !#[trigger] split_blocked_at(cs, j))
    } else {
        None
    }
}

proof fn lemma_first_block_is(cs: Seq<char>, i: int)
    requires
        0 <= i < cs.len(),
        split_blocked_at(cs, i),
        forall|j: int| 0 <= j < i ==> !#[trigger] split_blocked_at(cs, j),
    ensures
        first_block(cs) == Some(i),
{
    let k = choose|k: int| 0 <= k < cs.len() && split_blocked_at(cs, k) && forall|j: int|
        0 <= j < k ==> !#[trigger] split_blocked_at(cs, j);
    if k < i {
        assert(!split_blocked_at(cs, k));
    } else if k > i {
        assert(!split_blocked_at(cs, i));
    }
}

/// The outcome of splitting a DSL sequence at its top-level commas.
pub open spec fn split_spec(cs: Seq<char>) -> Result<Seq<Seq<char>>, SplitFailure> {
    let n = cs.len() as int;
    match first_block(cs) {
        Some(i) => if stray_close(cs, i) {
            Err(SplitFailure {
                message: "unexpected `)` in input sequence"@,
                index: None,
                offset: Some(byte_offset(cs, i)),
            })
        } else if top_level(cs, i, ';', false) {
            Err(SplitFailure {
                message: "unexpected `;`; the DSL separator is `,`"@,
                index: Some(comma_count(cs, i) as int),
                offset: Some(byte_offset(cs, i)),
            })
        } else {
            Err(SplitFailure {
                message: "empty action in DSL sequence"@,
                index: Some(comma_count(cs, i) as int),
                offset: Some(byte_offset(cs, i)),
            })
        },
        None => if lex_at(cs, n, false).in_string {
            Err(SplitFailure {
                message: "unterminated string literal in input sequence"@,
                index: None,
                offset: None,
            })
        } else if lex_at(cs, n, false).depth != 0 {
            Err(SplitFailure {
                message: "unbalanced parentheses in input sequence"@,
                index: None,
                offset: None,
            })
        } else if trim(cs.subrange(piece_start(cs, n), n)).len() == 0 {
            Err(SplitFailure {
                message: "empty action in DSL sequence"@,
                index: Some(comma_count(cs, n) as int),
                offset: None,
            })
        } else {
            Ok(pieces(cs))
        },
    }
}

/// `e` reports `f` as a parse-stage DSL diagnostic.
pub open spec fn is_split_error(e: TendrilError, f: SplitFailure) -> bool {
    &&& is_dsl_error(e, f.message, f.index, None, "parse"@)
    &&& match f.offset {
        Some(o) => e.detail_spec("offset"@) == Some(DetailValue::Number(o as u64)),
        None => e.detail_spec("offset"@) is None,
    }
}

fn split_error(cs: &[char], message: &str, index: Option<usize>, at: Option<usize>) -> (e: TendrilError)
    requires
        index matches Some(i) ==> i < usize::MAX,
        at matches Some(a) ==> a <= cs.len(),
    ensures
        is_split_error(
            e,
            SplitFailure {
                message: message@,
                index: match index {
                    Some(i) => Some(i as int),
                    None => None,
                },
                offset: match at {
                    Some(a) => Some(byte_offset(cs@, a as int)),
                    None => None,
                },
            },
        ),
{
    proof {
        lemma_detail_keys_distinct();
    }
    let e = dsl_error(owned(message), index, None, "parse");
    match at {
        Some(a) => {
            let o = byte_offset_of(cs, a);
            proof {
                lemma_byte_offset_bounds(cs@, a as int);
            }
            e.with_detail_entry("offset", DetailValue::Number(o))
        },
        None => e,
    }
}

/// Splits a DSL sequence into trimmed actions at its top-level commas.
fn split_top_level(cs: &[char]) -> (r: Result<Vec<Vec<char>>, TendrilError>)
    ensures
        match r {
            Ok(parts) => split_spec(cs@) == Ok::<Seq<Seq<char>>, SplitFailure>(views(parts@)),
            Err(e) => split_spec(cs@) matches Err(f) && is_split_error(e, f),
        },
{
    let mut parts: Vec<Vec<char>> = Vec::new();
    let mut start: usize = 0;
    let mut in_string = false;
    let mut escape = false;
    let mut depth: i128 = 0;
    let mut i: usize = 0;
    while i < cs.len()
        invariant
            i <= cs.len(),
            in_string == lex_at(cs@, i as int, false).in_string,
            escape == lex_at(cs@, i as int, false).escape,
            depth as int == lex_at(cs@, i as int, false).depth,
            start as int == piece_start(cs@, i as int),
            views(parts@) == raw_pieces_before(cs@, i as int).map_values(|p: Seq<char>| trim(p)),
            parts@.len() == comma_count(cs@, i as int),
            2 * parts@.len() <= start,
            forall|j: int| 0 <= j < i ==> !#[trigger] split_blocked_at(cs@, j),
        decreases cs.len() - i,
    {
        proof {
            lemma_lex_bounds(cs@, i as int, false);
            lemma_piece_start_bounds(cs@, i as int);
        }
        let c = cs[i];
        if !in_string {
            if c == ')' && depth == 0 {
                proof {
                    assert(split_blocked_at(cs@, i as int));
                    lemma_first_block_is(cs@, i as int);
                }
                return Err(split_error(cs, "unexpected `)` in input sequence", None, Some(i)));
            }
            if c == ';' && depth == 0 {
                proof {
                    assert(split_blocked_at(cs@, i as int));
                    lemma_first_block_is(cs@, i as int);
                }
                return Err(split_error(cs, "unexpected `;`; the DSL separator is `,`", Some(parts.len()), Some(i)));
            }
            if c == ',' && depth == 0 {
                let piece = text::slice_vec(cs, start, i);
                let part = text::trimmed(piece.as_slice());
                if part.len() == 0 {
                    proof {
                        assert(empty_action_at(cs@, i as int));
                        lemma_first_block_is(cs@, i as int);
                    }
                    return Err(split_error(cs, "empty action in DSL sequence", Some(parts.len()), Some(i)));
                }
                let ghost before = parts@;
                parts.push(part);
                proof {
                    assert(views(parts@) =~= views(before).push(part@));
                }
                start = i + 1;
            }
        }
        let (a, b, d) = lex_advance(in_string, escape, depth, c, false);
        in_string = a;
        escape = b;
        depth = d;
        proof {
            assert(!split_blocked_at(cs@, i as int));
        }
        i += 1;
    }
    proof {
        lemma_piece_start_bounds(cs@, i as int);
        if exists|k: int| 0 <= k < cs@.len() && split_blocked_at(cs@, k) {
            let k = choose|k: int| 0 <= k < cs@.len() && split_blocked_at(cs@, k);
            assert(!split_blocked_at(cs@, k));
        }
        assert(first_block(cs@) is None);
    }
    if in_string {
        return Err(split_error(cs, "unterminated string literal in input sequence", None, None));
    }
    if depth != 0 {
        return Err(split_error(cs, "unbalanced parentheses in input sequence", None, None));
    }
    let tail = text::slice_vec(cs, start, cs.len());
    let last = text::trimmed(tail.as_slice());
    if last.len() == 0 {
        return Err(split_error(cs, "empty action in DSL sequence", Some(parts.len()), None));
    }
    let ghost before = parts@;
    parts.push(last);
    proof {
        assert(views(parts@) =~= views(before).push(last@));
        assert(pieces(cs@) =~= raw_pieces_before(cs@, cs@.len() as int).map_values(|p: Seq<char>| trim(p)).push(last@));
    }
    Ok(parts)
}

// ---------------------------------------------------------------------------
// Actions
// ---------------------------------------------------------------------------

/// A parsed action with its text as character sequences.
pub enum SAction {
    KeyTap(Seq<char>),
    Hold(ModifierKey),
    Release(ModifierKey),
    Send(Seq<char>),
    Wait(u64),
    Click(MouseButton, i32, i32),
    PointerMove(i32, i32),
    DoubleClick(i32, i32),
    Drag(i32, i32, i32, i32),
    Scroll(i32, i32, i32),
    ElementClick(Seq<char>),
}

pub open spec fn action_view(a: InputAction) -> SAction {
    match a {
        InputAction::KeyTap { key } => SAction::KeyTap(key@),
        InputAction::Hold { modifier } => SAction::Hold(modifier),
        InputAction::Release { modifier } => SAction::Release(modifier),
        InputAction::Send { text } => SAction::Send(text@),
        InputAction::Wait { duration_ms } => SAction::Wait(duration_ms),
        InputAction::Click { button, x, y } => SAction::Click(button, x, y),
        InputAction::PointerMove { x, y } => SAction::PointerMove(x, y),
        InputAction::DoubleClick { x, y } => SAction::DoubleClick(x, y),
        InputAction::Drag { x0, y0, x1, y1 } => SAction::Drag(x0, y0, x1, y1),
        InputAction::Scroll { x, y, dy } => SAction::Scroll(x, y, dy),
        InputAction::ElementClick { id } => SAction::ElementClick(id@),
    }
}

/// Why an action segment was rejected: the message and the stage
/// (`parse` or `validate`).
pub struct Fail {
    pub message: Seq<char>,
    pub stage: Seq<char>,
}

pub open spec fn parse_fail(message: Seq<char>) -> Fail {
    Fail { message, stage: "parse"@ }
}

pub open spec fn validate_fail(message: Seq<char>) -> Fail {
    Fail { message, stage: "validate"@ }
}

/// `e` reports `f` for the action at `index` with text `seg`.
pub open spec fn is_action_error(e: TendrilError, f: Fail, index: int, seg: Seq<char>) -> bool {
    is_dsl_error(e, f.message, Some(index), Some(seg), f.stage)
}

fn action_error_of(message: String, stage: &str, index: usize, seg: &[char]) -> (e: TendrilError)
    requires
        index < usize::MAX,
    ensures
        is_action_error(e, Fail { message: message@, stage: stage@ }, index as int, seg@),
{
    dsl_error(message, Some(index), Some(seg), stage)
}

/// Arguments of an action: the trimmed text between the top-level commas.
pub open spec fn args_spec(cs: Seq<char>) -> Result<Seq<Seq<char>>, Fail> {
    if lex_at(cs, cs.len() as int, false).in_string {
        Err(parse_fail("unterminated string literal in action arguments"@))
    } else if exists|k: int| 0 <= k < pieces(cs).len() && (#[trigger] pieces(cs)[k]).len() == 0 {
        Err(parse_fail("action arguments cannot be empty"@))
    } else {
        Ok(pieces(cs))
    }
}

fn split_arguments(cs: &[char], index: usize, seg: &[char]) -> (r: Result<Vec<Vec<char>>, TendrilError>)
    requires
        index < usize::MAX,
    ensures
        match r {
            Ok(parts) => args_spec(cs@) == Ok::<Seq<Seq<char>>, Fail>(views(parts@)),
            Err(e) => args_spec(cs@) matches Err(f) && is_action_error(e, f, index as int, seg@),
        },
{
    let mut parts: Vec<Vec<char>> = Vec::new();
    let mut start: usize = 0;
    let mut in_string = false;
    let mut escape = false;
    let mut depth: i128 = 0;
    let mut i: usize = 0;
    while i < cs.len()
        invariant
            i <= cs.len(),
            in_string == lex_at(cs@, i as int, false).in_string,
            escape == lex_at(cs@, i as int, false).escape,
            depth as int == lex_at(cs@, i as int, false).depth,
            start as int == piece_start(cs@, i as int),
            views(parts@) == raw_pieces_before(cs@, i as int).map_values(|p: Seq<char>| trim(p)),
        decreases cs.len() - i,
    {
        proof {
            lemma_lex_bounds(cs@, i as int, false);
            lemma_piece_start_bounds(cs@, i as int);
        }
        let c = cs[i];
        if !in_string && c == ',' && depth == 0 {
            let piece = text::slice_vec(cs, start, i);
            let part = text::trimmed(piece.as_slice());
            let ghost before = parts@;
            parts.push(part);
            proof {
                assert(views(parts@) =~= views(before).push(part@));
            }
            start = i + 1;
        }
        let (a, b, d) = lex_advance(in_string, escape, depth, c, false);
        in_string = a;
        escape = b;
        depth = d;
        i += 1;
    }
    proof {
        lemma_piece_start_bounds(cs@, i as int);
    }
    if in_string {
        return Err(action_error_of(owned("unterminated string literal in action arguments"), "parse", index, seg));
    }
    let tail = text::slice_vec(cs, start, cs.len());
    let last = text::trimmed(tail.as_slice());
    let ghost before = parts@;
    parts.push(last);
    proof {
        assert(views(parts@) =~= views(before).push(last@));
        assert(pieces(cs@) =~= views(parts@));
    }
    let mut k: usize = 0;
    while k < parts.len()
        invariant
            k <= parts@.len(),
            views(parts@) == pieces(cs@),
            index < usize::MAX,
            !lex_at(cs@, cs@.len() as int, false).in_string,
            forall|j: int| 0 <= j < k ==> (#[trigger] pieces(cs@)[j]).len() != 0,
        decreases parts.len() - k,
    {
        if parts[k].len() == 0 {
            proof {
                assert(pieces(cs@)[k as int] == parts@[k as int]@);
            }
            return Err(action_error_of(owned("action arguments cannot be empty"), "parse", index, seg));
        }
        proof {
            assert(pieces(cs@)[k as int] == parts@[k as int]@);
        }
        k += 1;
    }
    Ok(parts)
}

/// Modifier names accepted by `hold(...)` and `release(...)`.
pub open spec fn modifier_spec(arg: Seq<char>) -> Result<ModifierKey, Fail> {
    let m = lower(trim(arg));
    if m == "ctrl"@ || m == "control"@ {
        Ok(ModifierKey::Ctrl)
    } else if m == "alt"@ || m == "option"@ {
        Ok(ModifierKey::Alt)
    } else if m == "shift"@ {
        Ok(ModifierKey::Shift)
    } else if m == "meta"@ || m == "cmd"@ || m == "command"@ || m == "super"@ || m == "win"@ || m
        == "windows"@ {
        Ok(ModifierKey::Meta)
    } else {
        Err(parse_fail("unsupported modifier `"@ + m + "`"@))
    }
}

/// Each modifier name (any ASCII case, surrounding whitespace ignored) holds
/// its own key: `ctrl`/`control` the Control key, `alt`/`option` the Alt
/// key, `shift` the Shift key, `meta`/`cmd`/`command`/`super`/`win`/`windows`
/// the Meta key; no other name is accepted.
pub proof fn law_modifier_names(arg: Seq<char>)
    ensures
        ({
            let m = lower(trim(arg));
            &&& (m == "ctrl"@ || m == "control"@) <==> modifier_spec(arg) == Ok::<ModifierKey, Fail>(ModifierKey::Ctrl)
            &&& (m == "alt"@ || m == "option"@) <==> modifier_spec(arg) == Ok::<ModifierKey, Fail>(ModifierKey::Alt)
            &&& m == "shift"@ <==> modifier_spec(arg) == Ok::<ModifierKey, Fail>(ModifierKey::Shift)
            &&& (m == "meta"@ || m == "cmd"@ || m == "command"@ || m == "super"@ || m == "win"@ || m == "windows"@)
                <==> modifier_spec(arg) == Ok::<ModifierKey, Fail>(ModifierKey::Meta)
        }),
{
    reveal_strlit("ctrl");
    reveal_strlit("control");
    reveal_strlit("alt");
    reveal_strlit("option");
    reveal_strlit("shift");
    reveal_strlit("meta");
    reveal_strlit("cmd");
    reveal_strlit("command");
    reveal_strlit("super");
    reveal_strlit("win");
    reveal_strlit("windows");
    assert("ctrl"@.len() == 4);
    assert("control"@.len() == 7);
    assert("alt"@.len() == 3);
    assert("option"@.len() == 6);
    assert("shift"@.len() == 5);
    assert("meta"@.len() == 4);
    assert("cmd"@.len() == 3);
    assert("command"@.len() == 7);
    assert("super"@.len() == 5);
    assert("win"@.len() == 3);
    assert("windows"@.len() == 7);
    assert("ctrl"@[0] != "meta"@[0]);
    assert("alt"@[0] != "cmd"@[0] && "alt"@[0] != "win"@[0] && "cmd"@[0] != "win"@[0]);
    assert("shift"@[1] != "super"@[1]);
    assert("control"@[2] != "command"@[2] && "control"@[0] != "windows"@[0] && "command"@[0] != "windows"@[0]);
}

fn parse_modifier(arg: &[char], index: usize, seg: &[char]) -> (r: Result<ModifierKey, TendrilError>)
    requires
        index < usize::MAX,
    ensures
        match r {
            Ok(m) => modifier_spec(arg@) == Ok::<ModifierKey, Fail>(m),
            Err(e) => modifier_spec(arg@) matches Err(f) && is_action_error(e, f, index as int, seg@),
        },
{
    let t = text::trimmed(arg);
    let m = text::to_lower(t.as_slice());
    let ms = m.as_slice();
    if text::is(ms, "ctrl") || text::is(ms, "control") {
        Ok(ModifierKey::Ctrl)
    } else if text::is(ms, "alt") || text::is(ms, "option") {
        Ok(ModifierKey::Alt)
    } else if text::is(ms, "shift") {
        Ok(ModifierKey::Shift)
    } else if text::is(ms, "meta") || text::is(ms, "cmd") || text::is(ms, "command") || text::is(ms, "super")
        || text::is(ms, "win") || text::is(ms, "windows") {
        Ok(ModifierKey::Meta)
    } else {
        let mut message = owned("unsupported modifier `");
        text::push_chars(&mut message, ms);
        text::push_str(&mut message, "`");
        Err(action_error_of(message, "parse", index, seg))
    }
}

/// State of the string-literal decoder.
pub struct Unescape {
    pub out: Seq<char>,
    pub escape: bool,
    pub bad: Option<char>,
}

/// Decodes the body of a string literal up to position `i`; the first
/// unsupported escape stops decoding.
pub open spec fn unescape_at(b: Seq<char>, i: int) -> Unescape
    decreases i,
{
    if i <= 0 {
        Unescape { out: seq![], escape: false, bad: None }
    } else {
        let u = unescape_at(b, i - 1);
        let c = b[i - 1];
        if u.bad is Some {
            u
        } else if u.escape {
            if c == '"' {
                Unescape { out: u.out.push('"'), escape: false, bad: None }
            } else if c == '\\' {
                Unescape { out: u.out.push('\\'), escape: false, bad: None }
            } else if c == 'n' {
                Unescape { out: u.out.push('\n'), escape: false, bad: None }
            } else if c == 'r' {
                Unescape { out: u.out.push('\r'), escape: false, bad: None }
            } else if c == 't' {
                Unescape { out: u.out.push('\t'), escape: false, bad: None }
            } else {
                Unescape { out: u.out, escape: true, bad: Some(c) }
            }
        } else if c == '\\' {
            Unescape { out: u.out, escape: true, bad: None }
        } else {
            Unescape { out: u.out.push(c), escape: false, bad: None }
        }
    }
}

/// A double-quoted string literal with `\"`, `\\`, `\n`, `\r` and `\t` escapes.
pub open spec fn quoted_spec(arg: Seq<char>) -> Result<Seq<char>, Fail> {
    let t = trim(arg);
    if !(t.len() >= 2 && t[0] == '"' && t.last() == '"') {
        Err(parse_fail("send(...) expects a double-quoted string literal"@))
    } else {
        let b = t.subrange(1, t.len() - 1);
        let u = unescape_at(b, b.len() as int);
        match u.bad {
            Some(c) => Err(parse_fail("unsupported escape `\\"@ + seq![c] + "` in string literal"@)),
            None => if u.escape {
                Err(parse_fail("unterminated escape sequence in string literal"@))
            } else {
                Ok(u.out)
            },
        }
    }
}

fn parse_quoted_string(arg: &[char], index: usize, seg: &[char]) -> (r: Result<Vec<char>, TendrilError>)
    requires
        index < usize::MAX,
    ensures
        match r {
            Ok(v) => quoted_spec(arg@) == Ok::<Seq<char>, Fail>(v@),
            Err(e) => quoted_spec(arg@) matches Err(f) && is_action_error(e, f, index as int, seg@),
        },
{
    let t = text::trimmed(arg);
    if !(t.len() >= 2 && t[0] == '"' && t[t.len() - 1] == '"') {
        return Err(action_error_of(owned("send(...) expects a double-quoted string literal"), "parse", index, seg));
    }
    let b = text::slice_vec(t.as_slice(), 1, t.len() - 1);
    let mut out: Vec<char> = Vec::new();
    let mut escape = false;
    let mut i: usize = 0;
    while i < b.len()
        invariant
            i <= b@.len(),
            index < usize::MAX,
            t@ == trim(arg@),
            t@.len() >= 2 && t@[0] == '"' && t@.last() == '"',
            b@ == t@.subrange(1, t@.len() - 1),
            unescape_at(b@, i as int).bad is None,
            unescape_at(b@, i as int).out == out@,
            unescape_at(b@, i as int).escape == escape,
        decreases b.len() - i,
    {
        let c = b[i];
        if escape {
            if c == '"' {
                out.push('"');
            } else if c == '\\' {
                out.push('\\');
            } else if c == 'n' {
                out.push('\n');
            } else if c == 'r' {
                out.push('\r');
            } else if c == 't' {
                out.push('\t');
            } else {
                proof {
                    assert(unescape_at(b@, i + 1).bad == Some(c));
                    assert(unescape_at(b@, b@.len() as int).bad == Some(c)) by {
                        lemma_unescape_bad_sticks(b@, i + 1, b@.len() as int);
                    }
                }
                let mut message = owned("unsupported escape `\\");
                text::push_char(&mut message, c);
                text::push_str(&mut message, "` in string literal");
                assert(message@ =~= "unsupported escape `\\"@ + seq![c] + "` in string literal"@);
                return Err(action_error_of(message, "parse", index, seg));
            }
            escape = false;
        } else if c == '\\' {
            escape = true;
        } else {
            out.push(c);
        }
        i += 1;
    }
    if escape {
        return Err(action_error_of(owned("unterminated escape sequence in string literal"), "parse", index, seg));
    }
    Ok(out)
}

proof fn lemma_unescape_bad_sticks(b: Seq<char>, i: int, j: int)
    requires
        0 <= i <= j,
        unescape_at(b, i).bad is Some,
    ensures
        unescape_at(b, j) == unescape_at(b, i),
    decreases j - i,
{
    if j > i {
        lemma_unescape_bad_sticks(b, i, j - 1);
    }
}

/// An integer argument; `field` names it in the diagnostic.
pub open spec fn int_spec(arg: Seq<char>, seg: Seq<char>, field: Seq<char>) -> Result<i32, Fail> {
    match text::parse_i32_spec(trim(arg)) {
        Some(v) => Ok(v),
        None => Err(parse_fail(field + " must be an integer in `"@ + seg + "`"@)),
    }
}

fn parse_int(arg: &[char], index: usize, seg: &[char], field: &str) -> (r: Result<i32, TendrilError>)
    requires
        index < usize::MAX,
    ensures
        match r {
            Ok(v) => int_spec(arg@, seg@, field@) == Ok::<i32, Fail>(v),
            Err(e) => int_spec(arg@, seg@, field@) matches Err(f) && is_action_error(e, f, index as int, seg@),
        },
{
    let t = text::trimmed(arg);
    match text::parse_i32(t.as_slice()) {
        Some(v) => Ok(v),
        None => {
            let mut message = owned(field);
            text::push_str(&mut message, " must be an integer in `");
            text::push_chars(&mut message, seg);
            text::push_str(&mut message, "`");
            Err(action_error_of(message, "parse", index, seg))
        },
    }
}

/// A scroll delta: a non-zero integer of at most 120 ticks either way.
pub open spec fn scroll_delta_spec(arg: Seq<char>, seg: Seq<char>) -> Result<i32, Fail> {
    match int_spec(arg, seg, "dy"@) {
        Err(f) => Err(f),
        Ok(dy) => if dy == 0 {
            Err(validate_fail("scroll dy must be non-zero"@))
        } else if dy > 120 || dy < -120 {
            Err(validate_fail("scroll dy must be between -120 and 120 wheel ticks"@))
        } else {
            Ok(dy)
        },
    }
}

fn parse_scroll_delta(arg: &[char], index: usize, seg: &[char]) -> (r: Result<i32, TendrilError>)
    requires
        index < usize::MAX,
    ensures
        match r {
            Ok(v) => scroll_delta_spec(arg@, seg@) == Ok::<i32, Fail>(v),
            Err(e) => scroll_delta_spec(arg@, seg@) matches Err(f) && is_action_error(e, f, index as int, seg@),
        },
{
    let dy = parse_int(arg, index, seg, "dy")?;
    if dy == 0 {
        return Err(action_error_of(owned("scroll dy must be non-zero"), "validate", index, seg));
    }
    if dy > 120 || dy < -120 {
        return Err(action_error_of(
            owned("scroll dy must be between -120 and 120 wheel ticks"),
            "validate",
            index,
            seg,
        ));
    }
    Ok(dy)
}

/// A decimal number of seconds, in whole milliseconds.
pub enum Seconds {
    Invalid,
    NonPositive,
    TooLarge,
    Millis(u64),
}

/// Milliseconds contributed by the fractional digits (later digits are cut off).
pub open spec fn frac_ms(f: Seq<char>) -> int {
    if f.len() >= 3 {
        digits_value(f.take(3))
    } else if f.len() == 2 {
        digits_value(f) * 10
    } else if f.len() == 1 {
        digits_value(f) * 100
    } else {
        0
    }
}

/// Seconds written as an optional sign, integer digits, and an optional
/// fraction after `.`, with at least one digit in all.
pub open spec fn seconds_spec(num: Seq<char>) -> Seconds {
    let negative = num.len() > 0 && num[0] == '-';
    let r = if num.len() > 0 && (num[0] == '-' || num[0] == '+') { num.drop_first() } else { num };
    let (i, f) = if has_char(r, '.') {
        let d = choose|d: int| 0 <= d < r.len() && r[d] == '.' && forall|j: int| 0 <= j < d ==> r[j] != '.';
        (r.take(d), r.skip(d + 1))
    } else {
        (r, seq![])
    };
    if !(all_digits(i) && all_digits(f) && i.len() + f.len() > 0) {
        Seconds::Invalid
    } else if negative || (digits_value(i) == 0 && digits_value(f) == 0) {
        Seconds::NonPositive
    } else if digits_value(i) * 1000 + frac_ms(f) > u64::MAX {
        Seconds::TooLarge
    } else {
        Seconds::Millis((digits_value(i) * 1000 + frac_ms(f)) as u64)
    }
}

proof fn lemma_digits_short(t: Seq<char>)
    requires
        t.len() <= 3,
    ensures
        t.len() == 3 ==> digits_value(t) == 100 * digit_val(t[0]) + 10 * digit_val(t[1]) + digit_val(t[2]),
        t.len() == 2 ==> digits_value(t) == 10 * digit_val(t[0]) + digit_val(t[1]),
        t.len() == 1 ==> digits_value(t) == digit_val(t[0]),
        t.len() == 0 ==> digits_value(t) == 0,
{
    if t.len() >= 1 {
        let a = t.drop_last();
        if a.len() >= 1 {
            let b = a.drop_last();
            if b.len() >= 1 {
                let c = b.drop_last();
                assert(c.len() == 0);
                assert(digits_value(c) == 0);
                assert(digits_value(b) == 10 * digits_value(c) + digit_val(b.last()));
                assert(b.last() == t[0]);
                assert(a.last() == t[1]);
            } else {
                assert(digits_value(b) == 0);
                assert(a.last() == t[0]);
            }
            assert(digits_value(a) == 10 * digits_value(b) + digit_val(a.last()));
        } else {
            assert(digits_value(a) == 0);
        }
        assert(digits_value(t) == 10 * digits_value(a) + digit_val(t.last()));
    }
}

proof fn lemma_frac_ms_bounds(f: Seq<char>)
    requires
        all_digits(f),
    ensures
        0 <= frac_ms(f) <= 999,
{
    if f.len() >= 3 {
        let t = f.take(3);
        lemma_digits_short(t);
        assert(is_ascii_digit(t[0]) && is_ascii_digit(t[1]) && is_ascii_digit(t[2]));
    } else {
        lemma_digits_short(f);
        if f.len() >= 1 {
            assert(is_ascii_digit(f[0]));
        }
        if f.len() == 2 {
            assert(is_ascii_digit(f[1]));
        }
    }
}

pub open spec fn digit_val(c: char) -> int {
    text::digit_value(c)
}

fn parse_seconds(num: &[char]) -> (r: Seconds)
    ensures
        r == seconds_spec(num@),
{
    let negative = num.len() > 0 && num[0] == '-';
    let body = if num.len() > 0 && (num[0] == '-' || num[0] == '+') {
        text::slice_vec(num, 1, num.len())
    } else {
        text::slice_vec(num, 0, num.len())
    };
    assert(num@.len() > 0 && (num@[0] == '-' || num@[0] == '+') ==> body@ =~= num@.drop_first());
    assert(!(num@.len() > 0 && (num@[0] == '-' || num@[0] == '+')) ==> body@ =~= num@);
    let (ip, fp) = match text::find_char(body.as_slice(), '.') {
        Some(d) => {
            proof {
                let k = choose|k: int| 0 <= k < body@.len() && body@[k] == '.' && forall|j: int| 0 <= j < k ==> body@[j] != '.';
                if k < d {
                } else if k > d {
                }
                assert(k == d);
            }
            (text::slice_vec(body.as_slice(), 0, d), text::slice_vec(body.as_slice(), d + 1, body.len()))
        },
        None => (text::slice_vec(body.as_slice(), 0, body.len()), Vec::new()),
    };
    proof {
        if has_char(body@, '.') {
            let d = choose|d: int| 0 <= d < body@.len() && body@[d] == '.' && forall|j: int| 0 <= j < d ==> body@[j] != '.';
            assert(ip@ =~= body@.take(d));
            assert(fp@ =~= body@.skip(d + 1));
        } else {
            assert(ip@ =~= body@);
            assert(fp@ =~= seq![]);
        }
    }
    if !(text::digits_only(ip.as_slice()) && text::digits_only(fp.as_slice()) && ip.len() + fp.len() > 0) {
        return Seconds::Invalid;
    }
    proof {
        text::lemma_digits_value_nonneg(ip@);
        text::lemma_digits_value_nonneg(fp@);
        lemma_frac_ms_bounds(fp@);
    }
    let f3: u64 = frac_millis(fp.as_slice());
    let int_part = text::parse_u64(ip.as_slice());
    let int_zero = match int_part {
        Some(v) => v == 0,
        None => ip.len() == 0,
    };
    proof {
        if ip@.len() == 0 {
            assert(digits_value(ip@) == 0);
        }
    }
    let frac_zero = frac_is_zero(fp.as_slice());
    if negative || (int_zero && frac_zero) {
        return Seconds::NonPositive;
    }
    let iv: u64 = match int_part {
        Some(v) => v,
        None => {
            if ip.len() == 0 {
                0
            } else {
                return Seconds::TooLarge;
            }
        },
    };
    let total: u128 = (iv as u128) * 1000 + (f3 as u128);
    if total > 18446744073709551615u128 {
        return Seconds::TooLarge;
    }
    Seconds::Millis(total as u64)
}

/// Whether all fractional digits are zero.
fn frac_is_zero(f: &[char]) -> (r: bool)
    requires
        all_digits(f@),
    ensures
        r == (digits_value(f@) == 0),
{
    let mut i: usize = 0;
    while i < f.len()
        invariant
            i <= f@.len(),
            all_digits(f@),
            digits_value(f@.take(i as int)) == 0,
        decreases f.len() - i,
    {
        assert(f@.take(i + 1).drop_last() =~= f@.take(i as int));
        if f[i] != '0' {
            proof {
                text::lemma_digits_value_nonneg(f@.take(i as int));
                text::lemma_digits_value_prefix(f@, i + 1);
                assert(digits_value(f@.take(i + 1)) > 0);
            }
            return false;
        }
        i += 1;
    }
    assert(f@.take(f@.len() as int) =~= f@);
    true
}

/// Milliseconds of the fractional digits.
fn frac_millis(f: &[char]) -> (r: u64)
    requires
        all_digits(f@),
    ensures
        r == frac_ms(f@),
{
    proof {
        lemma_frac_ms_bounds(f@);
    }
    let n = f.len();
    if n >= 3 {
        let t = text::slice_vec(f, 0, 3);
        assert(t@ =~= f@.take(3));
        let d0 = (t[0] as u32 - '0' as u32) as u64;
        let d1 = (t[1] as u32 - '0' as u32) as u64;
        let d2 = (t[2] as u32 - '0' as u32) as u64;
        proof {
            lemma_digits_short(t@);
        }
        100 * d0 + 10 * d1 + d2
    } else if n == 2 {
        let d0 = (f[0] as u32 - '0' as u32) as u64;
        let d1 = (f[1] as u32 - '0' as u32) as u64;
        proof {
            lemma_digits_short(f@);
        }
        (10 * d0 + d1) * 10
    } else if n == 1 {
        let d0 = (f[0] as u32 - '0' as u32) as u64;
        proof {
            lemma_digits_short(f@);
        }
        d0 * 100
    } else {
        0
    }
}

/// `wait(...)` durations: `<n>ms`, `<n>` (milliseconds) or `<decimal>s`.
pub open spec fn duration_spec(arg: Seq<char>) -> Result<u64, Fail> {
    let t = trim(arg);
    if t.len() == 0 {
        Err(parse_fail("wait(...) requires a duration"@))
    } else {
        let ms_suffix = t.len() >= 2 && t[t.len() - 2] == 'm' && t[t.len() - 1] == 's';
        let s_suffix = !ms_suffix && t.last() == 's';
        let number = if ms_suffix {
            trim(t.take(t.len() - 2))
        } else if s_suffix {
            trim(t.take(t.len() - 1))
        } else {
            t
        };
        if number.len() == 0 {
            Err(parse_fail("wait(...) requires a numeric duration"@))
        } else if !s_suffix {
            match text::parse_u64_spec(number) {
                None => Err(parse_fail("invalid millisecond duration `"@ + t + "`"@)),
                Some(v) => if v == 0 {
                    Err(validate_fail("duration `"@ + t + "` must be greater than zero"@))
                } else {
                    Ok(v)
                },
            }
        } else {
            match seconds_spec(number) {
                Seconds::Invalid => Err(parse_fail("invalid second duration `"@ + t + "`"@)),
                Seconds::NonPositive => Err(validate_fail("duration `"@ + t + "` must be greater than zero"@)),
                Seconds::TooLarge => Err(validate_fail("duration `"@ + t + "` is too large"@)),
                Seconds::Millis(v) => if v == 0 {
                    Err(validate_fail("duration `"@ + t + "` must be greater than zero"@))
                } else {
                    Ok(v)
                },
            }
        }
    }
}

fn duration_message(prefix: &str, t: &[char], suffix: &str) -> (m: String)
    ensures
        m@ == prefix@ + t@ + suffix@,
{
    let mut m = owned(prefix);
    text::push_chars(&mut m, t);
    text::push_str(&mut m, suffix);
    m
}

fn parse_duration_ms(arg: &[char], index: usize, seg: &[char]) -> (r: Result<u64, TendrilError>)
    requires
        index < usize::MAX,
    ensures
        match r {
            Ok(v) => duration_spec(arg@) == Ok::<u64, Fail>(v),
            Err(e) => duration_spec(arg@) matches Err(f) && is_action_error(e, f, index as int, seg@),
        },
{
    let t = text::trimmed(arg);
    let n = t.len();
    if n == 0 {
        return Err(action_error_of(owned("wait(...) requires a duration"), "parse", index, seg));
    }
    let ms_suffix = n >= 2 && t[n - 2] == 'm' && t[n - 1] == 's';
    let s_suffix = !ms_suffix && t[n - 1] == 's';
    let number = if ms_suffix {
        let head = text::slice_vec(t.as_slice(), 0, n - 2);
        assert(head@ =~= t@.take(n - 2));
        text::trimmed(head.as_slice())
    } else if s_suffix {
        let head = text::slice_vec(t.as_slice(), 0, n - 1);
        assert(head@ =~= t@.take(n - 1));
        text::trimmed(head.as_slice())
    } else {
        t.clone()
    };
    if number.len() == 0 {
        return Err(action_error_of(owned("wait(...) requires a numeric duration"), "parse", index, seg));
    }
    if !s_suffix {
        match text::parse_u64(number.as_slice()) {
            None => Err(action_error_of(duration_message("invalid millisecond duration `", t.as_slice(), "`"), "parse", index, seg)),
            Some(v) => {
                if v == 0 {
                    Err(action_error_of(
                        duration_message("duration `", t.as_slice(), "` must be greater than zero"),
                        "validate",
                        index,
                        seg,
                    ))
                } else {
                    Ok(v)
                }
            },
        }
    } else {
        match parse_seconds(number.as_slice()) {
            Seconds::Invalid => Err(action_error_of(duration_message("invalid second duration `", t.as_slice(), "`"), "parse", index, seg)),
            Seconds::NonPositive => Err(action_error_of(
                duration_message("duration `", t.as_slice(), "` must be greater than zero"),
                "validate",
                index,
                seg,
            )),
            Seconds::TooLarge => Err(action_error_of(
                duration_message("duration `", t.as_slice(), "` is too large"),
                "validate",
                index,
                seg,
            )),
            Seconds::Millis(v) => {
                if v == 0 {
                    Err(action_error_of(
                        duration_message("duration `", t.as_slice(), "` must be greater than zero"),
                        "validate",
                        index,
                        seg,
                    ))
                } else {
                    Ok(v)
                }
            },
        }
    }
}

/// The single argument of an action.
pub open spec fn single_arg_spec(inner: Seq<char>, seg: Seq<char>) -> Result<Seq<char>, Fail> {
    match args_spec(inner) {
        Err(f) => Err(f),
        Ok(a) => if a.len() != 1 {
            Err(parse_fail("`"@ + seg + "` expects exactly one argument"@))
        } else {
            Ok(a[0])
        },
    }
}

fn expect_single_argument(inner: &[char], index: usize, seg: &[char]) -> (r: Result<Vec<char>, TendrilError>)
    requires
        index < usize::MAX,
    ensures
        match r {
            Ok(v) => single_arg_spec(inner@, seg@) == Ok::<Seq<char>, Fail>(v@),
            Err(e) => single_arg_spec(inner@, seg@) matches Err(f) && is_action_error(e, f, index as int, seg@),
        },
{
    let mut args = split_arguments(inner, index, seg)?;
    if args.len() != 1 {
        let mut message = owned("`");
        text::push_chars(&mut message, seg);
        text::push_str(&mut message, "` expects exactly one argument");
        return Err(action_error_of(message, "parse", index, seg));
    }
    let a = args.pop().unwrap();
    proof {
        assert(views(args@.push(a)) == single_arg_spec_args(inner@));
    }
    Ok(a)
}

pub open spec fn single_arg_spec_args(inner: Seq<char>) -> Seq<Seq<char>> {
    match args_spec(inner) {
        Ok(a) => a,
        Err(_) => seq![],
    }
}

/// Parses `n` integer arguments named by `fields`.
pub open spec fn ints_spec(args: Seq<Seq<char>>, seg: Seq<char>, fields: Seq<Seq<char>>) -> Result<Seq<i32>, Fail>
    decreases fields.len(),
{
    if fields.len() == 0 || args.len() == 0 {
        Ok(seq![])
    } else {
        match ints_spec(args.drop_last(), seg, fields.drop_last()) {
            Err(f) => Err(f),
            Ok(vs) => match int_spec(args.last(), seg, fields.last()) {
                Err(f) => Err(f),
                Ok(v) => Ok(vs.push(v)),
            },
        }
    }
}

/// A fixed number of coordinate arguments.
pub open spec fn coords_spec(inner: Seq<char>, seg: Seq<char>, fields: Seq<Seq<char>>, count_message: Seq<char>) -> Result<Seq<i32>, Fail> {
    match args_spec(inner) {
        Err(f) => Err(f),
        Ok(a) => if a.len() != fields.len() {
            Err(parse_fail(count_message))
        } else {
            ints_spec(a, seg, fields)
        },
    }
}

fn parse_coords(inner: &[char], index: usize, seg: &[char], fields: &[&str], count_message: String) -> (r: Result<Vec<i32>, TendrilError>)
    requires
        index < usize::MAX,
    ensures
        match r {
            Ok(v) => coords_spec(inner@, seg@, fields@.map_values(|f: &str| f@), count_message@) == Ok::<Seq<i32>, Fail>(v@)
                && v@.len() == fields@.len(),
            Err(e) => coords_spec(inner@, seg@, fields@.map_values(|f: &str| f@), count_message@) matches Err(f)
                && is_action_error(e, f, index as int, seg@),
        },
{
    let ghost fs = fields@.map_values(|f: &str| f@);
    let args = split_arguments(inner, index, seg)?;
    if args.len() != fields.len() {
        return Err(action_error_of(count_message, "parse", index, seg));
    }
    let mut out: Vec<i32> = Vec::new();
    let mut k: usize = 0;
    while k < args.len()
        invariant
            k <= args@.len() == fields@.len(),
            index < usize::MAX,
            args_spec(inner@) == Ok::<Seq<Seq<char>>, Fail>(views(args@)),
            fs == fields@.map_values(|f: &str| f@),
            ints_spec(views(args@).take(k as int), seg@, fs.take(k as int)) == Ok::<Seq<i32>, Fail>(out@),
            out@.len() == k,
        decreases args.len() - k,
    {
        let ghost a = views(args@).take(k + 1);
        let ghost f = fs.take(k + 1);
        assert(a.drop_last() =~= views(args@).take(k as int));
        assert(f.drop_last() =~= fs.take(k as int));
        assert(a.last() == args@[k as int]@);
        assert(f.last() == fields@[k as int]@);
        match parse_int(args[k].as_slice(), index, seg, fields[k]) {
            Ok(v) => {
                out.push(v);
            },
            Err(e) => {
                proof {
                    assert(int_spec(args@[k as int]@, seg@, fields@[k as int]@) is Err);
                    assert(ints_spec(a, seg@, f) is Err && ints_spec(a, seg@, f)->Err_0 == int_spec(args@[k as int]@, seg@, fields@[k as int]@)->Err_0);
                    let full = views(args@);
                    lemma_ints_err_sticks(full, seg@, fs, k + 1);
                    assert(full.take(full.len() as int) =~= full);
                    assert(fs.take(fs.len() as int) =~= fs);
                    assert(ints_spec(full, seg@, fs) == ints_spec(a, seg@, f));
                    assert(args_spec(inner@) == Ok::<Seq<Seq<char>>, Fail>(full));
                }
                return Err(e);
            },
        }
        k += 1;
    }
    proof {
        assert(views(args@).take(args@.len() as int) =~= views(args@));
        assert(fs.take(fs.len() as int) =~= fs);
    }
    Ok(out)
}

proof fn lemma_ints_err_sticks(args: Seq<Seq<char>>, seg: Seq<char>, fields: Seq<Seq<char>>, k: int)
    requires
        0 < k <= args.len() == fields.len(),
        ints_spec(args.take(k), seg, fields.take(k)) is Err,
    ensures
        ints_spec(args.take(args.len() as int), seg, fields.take(fields.len() as int)) == ints_spec(args.take(k), seg, fields.take(k)),
    decreases args.len() - k,
{
    if k < args.len() {
        assert(args.take(k + 1).drop_last() =~= args.take(k));
        assert(fields.take(k + 1).drop_last() =~= fields.take(k));
        lemma_ints_err_sticks(args, seg, fields, k + 1);
    }
}

/// The first index holding `c` (meaningful when `c` occurs).
pub open spec fn first_index_of(s: Seq<char>, c: char) -> int {
    choose|i: int| 0 <= i < s.len() && s[i] == c && forall|j: int| 0 <= j < i ==> s[j] != c
}

/// The last index holding `c` (meaningful when `c` occurs).
pub open spec fn last_index_of(s: Seq<char>, c: char) -> int {
    choose|i: int| 0 <= i < s.len() && s[i] == c && forall|j: int| i < j < s.len() ==> s[j] != c
}

pub open spec fn field_names(names: Seq<&str>) -> Seq<Seq<char>> {
    names.map_values(|f: &str| f@)
}

pub open spec fn two_coords_message(name: Seq<char>) -> Seq<char> {
    "`"@ + name + "` expects exactly two coordinates"@
}

/// The action named `name` applied to the argument text `inner`.
pub open spec fn named_action_spec(name: Seq<char>, inner: Seq<char>, seg: Seq<char>) -> Result<SAction, Fail> {
    if name == "hold"@ || name == "release"@ {
        match single_arg_spec(inner, seg) {
            Err(f) => Err(f),
            Ok(a) => match modifier_spec(a) {
                Err(f) => Err(f),
                Ok(m) => Ok(if name == "hold"@ { SAction::Hold(m) } else { SAction::Release(m) }),
            },
        }
    } else if name == "send"@ {
        match single_arg_spec(inner, seg) {
            Err(f) => Err(f),
            Ok(a) => match quoted_spec(a) {
                Err(f) => Err(f),
                Ok(t) => if t.len() == 0 {
                    Err(validate_fail("send(\"...\") requires a non-empty string"@))
                } else {
                    Ok(SAction::Send(t))
                },
            },
        }
    } else if name == "wait"@ {
        match single_arg_spec(inner, seg) {
            Err(f) => Err(f),
            Ok(a) => match duration_spec(a) {
                Err(f) => Err(f),
                Ok(ms) => Ok(SAction::Wait(ms)),
            },
        }
    } else if name == "lclick"@ || name == "rclick"@ || name == "mclick"@ {
        match coords_spec(inner, seg, seq!["x"@, "y"@], two_coords_message(name)) {
            Err(f) => Err(f),
            Ok(v) => Ok(SAction::Click(
                if name == "lclick"@ {
                    MouseButton::Left
                } else if name == "rclick"@ {
                    MouseButton::Right
                } else {
                    MouseButton::Middle
                },
                v[0],
                v[1],
            )),
        }
    } else if name == "move"@ || name == "hover"@ {
        match coords_spec(inner, seg, seq!["x"@, "y"@], two_coords_message(name)) {
            Err(f) => Err(f),
            Ok(v) => Ok(SAction::PointerMove(v[0], v[1])),
        }
    } else if name == "dblclick"@ || name == "doubleclick"@ {
        match coords_spec(inner, seg, seq!["x"@, "y"@], two_coords_message(name)) {
            Err(f) => Err(f),
            Ok(v) => Ok(SAction::DoubleClick(v[0], v[1])),
        }
    } else if name == "drag"@ {
        match coords_spec(inner, seg, seq!["x0"@, "y0"@, "x1"@, "y1"@], "`drag` expects exactly four coordinates"@) {
            Err(f) => Err(f),
            Ok(v) => Ok(SAction::Drag(v[0], v[1], v[2], v[3])),
        }
    } else if name == "scroll"@ {
        match args_spec(inner) {
            Err(f) => Err(f),
            Ok(a) => if a.len() != 3 {
                Err(parse_fail("`scroll` expects exactly x, y, and dy arguments"@))
            } else {
                match ints_spec(a.take(2), seg, seq!["x"@, "y"@]) {
                    Err(f) => Err(f),
                    Ok(v) => match scroll_delta_spec(a[2], seg) {
                        Err(f) => Err(f),
                        Ok(dy) => Ok(SAction::Scroll(v[0], v[1], dy)),
                    },
                }
            },
        }
    } else if name == "click"@ || name == "press"@ || name == "element"@ {
        match single_arg_spec(inner, seg) {
            Err(f) => Err(f),
            Ok(a) => Ok(SAction::ElementClick(a)),
        }
    } else {
        Err(parse_fail("unknown DSL action `"@ + name + "`"@))
    }
}

/// One action of a DSL sequence: a bare key token, or `name(arguments)`.
pub open spec fn action_spec(seg: Seq<char>) -> Result<SAction, Fail> {
    if !has_char(seg, '(') {
        match key_token_spec(seg) {
            Some(k) => Ok(SAction::KeyTap(k)),
            None => Err(parse_fail("invalid key tap `"@ + seg + "`"@)),
        }
    } else if !has_char(seg, ')') {
        Err(parse_fail("missing closing `)` in `"@ + seg + "`"@))
    } else {
        let open = first_index_of(seg, '(');
        let close = last_index_of(seg, ')');
        if trim(seg.skip(close + 1)).len() != 0 {
            Err(parse_fail("unexpected trailing input after `"@ + seg + "`"@))
        } else {
            named_action_spec(lower(trim(seg.take(open))), seg.subrange(open + 1, close), seg)
        }
    }
}

fn wrap_message(prefix: &str, t: &[char], suffix: &str) -> (m: String)
    ensures
        m@ == prefix@ + t@ + suffix@,
{
    duration_message(prefix, t, suffix)
}

/// Parses one action of a DSL sequence.
fn parse_action_segment(seg: &[char], index: usize) -> (r: Result<InputAction, TendrilError>)
    requires
        index < usize::MAX,
    ensures
        match r {
            Ok(a) => action_spec(seg@) == Ok::<SAction, Fail>(action_view(a)),
            Err(e) => action_spec(seg@) matches Err(f) && is_action_error(e, f, index as int, seg@),
        },
{
    let open = match text::find_char(seg, '(') {
        Some(o) => o,
        None => {
            proof {
                assert(!has_char(seg@, '('));
            }
            return match parse_key_token(seg) {
                Some(k) => Ok(InputAction::KeyTap { key: text::string_of(k.as_slice()) }),
                None => Err(action_error_of(wrap_message("invalid key tap `", seg, "`"), "parse", index, seg)),
            };
        },
    };
    proof {
        assert(has_char(seg@, '('));
        let k = first_index_of(seg@, '(');
        if k < open {
        } else if k > open {
        }
        assert(k == open);
    }
    let rc = text::rfind_char(seg, ')');
    let close = match rc {
        Some(c) => c,
        None => {
            return Err(action_error_of(wrap_message("missing closing `)` in `", seg, "`"), "parse", index, seg));
        },
    };
    proof {
        assert(has_char(seg@, ')'));
        let k = last_index_of(seg@, ')');
        if k < close {
        } else if k > close {
        }
        assert(k == close);
    }
    assert(close < seg@.len());
    let n = seg.len();
    assert(close < n);
    let rest = text::slice_vec(seg, close + 1, n);
    assert(rest@ =~= seg@.skip(close + 1));
    if !text::is_blank(rest.as_slice()) {
        return Err(action_error_of(wrap_message("unexpected trailing input after `", seg, "`"), "parse", index, seg));
    }
    if close < open {
        proof {
            assert(rest@[open - close - 1] == '(');
            text::lemma_trim_nonempty(rest@, open - close - 1);
        }
        return Err(action_error_of(owned(""), "parse", index, seg));
    }
    let head = text::slice_vec(seg, 0, open);
    assert(head@ =~= seg@.take(open as int));
    let name = text::to_lower(text::trimmed(head.as_slice()).as_slice());
    let inner = text::slice_vec(seg, open + 1, close);
    let r = parse_named_action(name.as_slice(), inner.as_slice(), index, seg);
    r
}

#[verifier::spinoff_prover]
#[verifier::rlimit(40)]
fn parse_named_action(name: &[char], inner: &[char], index: usize, seg: &[char]) -> (r: Result<InputAction, TendrilError>)
    requires
        index < usize::MAX,
    ensures
        match r {
            Ok(a) => named_action_spec(name@, inner@, seg@) == Ok::<SAction, Fail>(action_view(a)),
            Err(e) => named_action_spec(name@, inner@, seg@) matches Err(f) && is_action_error(e, f, index as int, seg@),
        },
{
    if text::is(name, "hold") || text::is(name, "release") {
        let arg = expect_single_argument(inner, index, seg)?;
        let m = parse_modifier(arg.as_slice(), index, seg)?;
        if text::is(name, "hold") {
            Ok(InputAction::Hold { modifier: m })
        } else {
            Ok(InputAction::Release { modifier: m })
        }
    } else if text::is(name, "send") {
        let arg = expect_single_argument(inner, index, seg)?;
        let t = parse_quoted_string(arg.as_slice(), index, seg)?;
        if t.len() == 0 {
            return Err(action_error_of(owned("send(\"...\") requires a non-empty string"), "validate", index, seg));
        }
        Ok(InputAction::Send { text: text::string_of(t.as_slice()) })
    } else if text::is(name, "wait") {
        let arg = expect_single_argument(inner, index, seg)?;
        let ms = parse_duration_ms(arg.as_slice(), index, seg)?;
        Ok(InputAction::Wait { duration_ms: ms })
    } else if text::is(name, "lclick") || text::is(name, "rclick") || text::is(name, "mclick") {
        let fields: [&str; 2] = ["x", "y"];
        assert(field_names(fields@) =~= seq!["x"@, "y"@]);
        let v = parse_coords(inner, index, seg, &fields, wrap_message("`", name, "` expects exactly two coordinates"))?;
        let button = if text::is(name, "lclick") {
            MouseButton::Left
        } else if text::is(name, "rclick") {
            MouseButton::Right
        } else {
            MouseButton::Middle
        };
        Ok(InputAction::Click { button, x: v[0], y: v[1] })
    } else if text::is(name, "move") || text::is(name, "hover") {
        let fields: [&str; 2] = ["x", "y"];
        assert(field_names(fields@) =~= seq!["x"@, "y"@]);
        let v = parse_coords(inner, index, seg, &fields, wrap_message("`", name, "` expects exactly two coordinates"))?;
        Ok(InputAction::PointerMove { x: v[0], y: v[1] })
    } else if text::is(name, "dblclick") || text::is(name, "doubleclick") {
        let fields: [&str; 2] = ["x", "y"];
        assert(field_names(fields@) =~= seq!["x"@, "y"@]);
        let v = parse_coords(inner, index, seg, &fields, wrap_message("`", name, "` expects exactly two coordinates"))?;
        Ok(InputAction::DoubleClick { x: v[0], y: v[1] })
    } else if text::is(name, "drag") {
        let fields: [&str; 4] = ["x0", "y0", "x1", "y1"];
        assert(field_names(fields@) =~= seq!["x0"@, "y0"@, "x1"@, "y1"@]);
        let v = parse_coords(inner, index, seg, &fields, owned("`drag` expects exactly four coordinates"))?;
        Ok(InputAction::Drag { x0: v[0], y0: v[1], x1: v[2], y1: v[3] })
    } else if text::is(name, "scroll") {
        let args = split_arguments(inner, index, seg)?;
        if args.len() != 3 {
            return Err(action_error_of(owned("`scroll` expects exactly x, y, and dy arguments"), "parse", index, seg));
        }
        let x = parse_int(args[0].as_slice(), index, seg, "x");
        let x = match x {
            Ok(x) => x,
            Err(e) => {
                proof {
                    lemma_ints2(views(args@).take(2), seg@);
                }
                return Err(e);
            },
        };
        let y = parse_int(args[1].as_slice(), index, seg, "y");
        let y = match y {
            Ok(y) => y,
            Err(e) => {
                proof {
                    lemma_ints2(views(args@).take(2), seg@);
                }
                return Err(e);
            },
        };
        proof {
            lemma_ints2(views(args@).take(2), seg@);
        }
        let dy = parse_scroll_delta(args[2].as_slice(), index, seg)?;
        Ok(InputAction::Scroll { x, y, dy })
    } else if text::is(name, "click") || text::is(name, "press") || text::is(name, "element") {
        let arg = expect_single_argument(inner, index, seg)?;
        Ok(InputAction::ElementClick { id: text::string_of(arg.as_slice()) })
    } else {
        Err(action_error_of(wrap_message("unknown DSL action `", name, "`"), "parse", index, seg))
    }
}

/// Two integer arguments named `x` and `y`.
proof fn lemma_ints2(a: Seq<Seq<char>>, seg: Seq<char>)
    requires
        a.len() == 2,
    ensures
        ints_spec(a, seg, seq!["x"@, "y"@]) == match int_spec(a[0], seg, "x"@) {
            Err(f) => Err(f),
            Ok(x) => match int_spec(a[1], seg, "y"@) {
                Err(f) => Err(f),
                Ok(y) => Ok::<Seq<i32>, Fail>(seq![x, y]),
            },
        },
{
    let f = seq!["x"@, "y"@];
    let a1 = a.drop_last();
    let f1 = f.drop_last();
    assert(a1.drop_last() =~= seq![]);
    assert(f1.drop_last() =~= seq![]);
    assert(a1.last() == a[0]);
    assert(f1.last() == "x"@);
    assert(f.last() == "y"@);
    assert(ints_spec(a1.drop_last(), seg, f1.drop_last()) == Ok::<Seq<i32>, Fail>(seq![]));
    match int_spec(a[0], seg, "x"@) {
        Err(e) => {
            assert(ints_spec(a1, seg, f1) == Err::<Seq<i32>, Fail>(e));
        },
        Ok(x) => {
            assert(seq![].push(x) =~= seq![x]);
            assert(ints_spec(a1, seg, f1) == Ok::<Seq<i32>, Fail>(seq![x]));
            match int_spec(a[1], seg, "y"@) {
                Err(_) => {},
                Ok(y) => {
                    assert(seq![x].push(y) =~= seq![x, y]);
                },
            }
        },
    }
}

spec fn x_of(a: Seq<Seq<char>>, seg: Seq<char>) -> i32 {
    match int_spec(a[0], seg, "x"@) {
        Ok(x) => x,
        Err(_) => 0,
    }
}

// ---------------------------------------------------------------------------
// Sequences
// ---------------------------------------------------------------------------

/// Why a DSL sequence was rejected.
pub enum DslFailure {
    Empty,
    Split(SplitFailure),
    Action(int, Seq<char>, Fail),
}

/// The first segment whose action is rejected, if any.
pub open spec fn first_bad_segment(segs: Seq<Seq<char>>) -> Option<int> {
    if exists|k: int| 0 <= k < segs.len() && action_spec(segs[k]) is Err {
        Some(choose|k: int| 0 <= k < segs.len() && action_spec(segs[k]) is Err && forall|j: int|
            0 <= j < k ==> action_spec(#[trigger] segs[j]) is Ok)
    } else {
        None
    }
}

/// A DSL sequence: trimmed, split at its top-level commas, each segment an action.
pub open spec fn dsl_spec(s: Seq<char>) -> Result<Seq<SAction>, DslFailure> {
    let t = trim(s);
    if t.len() == 0 {
        Err(DslFailure::Empty)
    } else {
        match split_spec(t) {
            Err(f) => Err(DslFailure::Split(f)),
            Ok(segs) => match first_bad_segment(segs) {
                Some(k) => Err(DslFailure::Action(k, segs[k], action_spec(segs[k])->Err_0)),
                None => Ok(Seq::new(segs.len(), |k: int| action_spec(segs[k])->Ok_0)),
            },
        }
    }
}

pub open spec fn is_dsl_failure(e: TendrilError, f: DslFailure) -> bool {
    match f {
        DslFailure::Empty => is_dsl_error(e, "dsl sequence cannot be empty"@, None, None, "parse"@),
        DslFailure::Split(sf) => is_split_error(e, sf),
        DslFailure::Action(k, seg, af) => is_action_error(e, af, k, seg),
    }
}

pub open spec fn actions_view(v: Seq<InputAction>) -> Seq<SAction> {
    v.map_values(|a: InputAction| action_view(a))
}

/// Parses a DSL sequence into actions.
pub fn parse_dsl_sequence(sequence: &str) -> (r: Result<Vec<InputAction>, TendrilError>)
    ensures
        match r {
            Ok(v) => dsl_spec(sequence@) == Ok::<Seq<SAction>, DslFailure>(actions_view(v@)),
            Err(e) => dsl_spec(sequence@) matches Err(f) && is_dsl_failure(e, f),
        },
{
    let cs = text::chars_of(sequence);
    let t = text::trimmed(cs.as_slice());
    if t.len() == 0 {
        return Err(dsl_error(owned("dsl sequence cannot be empty"), None, None, "parse"));
    }
    let segments = split_top_level(t.as_slice())?;
    let mut actions: Vec<InputAction> = Vec::new();
    let mut k: usize = 0;
    while k < segments.len()
        invariant
            k <= segments@.len(),
            split_spec(t@) == Ok::<Seq<Seq<char>>, SplitFailure>(views(segments@)),
            t@ == trim(sequence@),
            t@.len() > 0,
            actions@.len() == k,
            forall|j: int| 0 <= j < k ==> action_spec(#[trigger] views(segments@)[j]) == Ok::<SAction, Fail>(action_view(actions@[j])),
        decreases segments.len() - k,
    {
        let seg = &segments[k];
        match parse_action_segment(seg.as_slice(), k) {
            Ok(a) => {
                actions.push(a);
            },
            Err(e) => {
                proof {
                    let segs = views(segments@);
                    assert(segs[k as int] == seg@);
                    let b = choose|b: int| 0 <= b < segs.len() && action_spec(segs[b]) is Err && forall|j: int|
                        0 <= j < b ==> action_spec(#[trigger] segs[j]) is Ok;
                    assert(action_spec(segs[k as int]) is Err);
                    if b < k {
                        assert(action_spec(segs[b]) is Ok);
                    } else if b > k {
                        assert(action_spec(segs[k as int]) is Ok);
                    }
                    assert(first_bad_segment(segs) == Some(k as int));
                }
                return Err(e);
            },
        }
        k += 1;
    }
    proof {
        let segs = views(segments@);
        if exists|b: int| 0 <= b < segs.len() && action_spec(segs[b]) is Err {
            let b = choose|b: int| 0 <= b < segs.len() && action_spec(segs[b]) is Err;
            assert(action_spec(segs[b]) == Ok::<SAction, Fail>(action_view(actions@[b])));
        }
        assert(first_bad_segment(segs) is None);
        assert(actions_view(actions@) =~= Seq::new(segs.len(), |j: int| action_spec(segs[j])->Ok_0));
    }
    Ok(actions)
}

// ---------------------------------------------------------------------------
// Bare key sequences and ambiguous single inputs
// ---------------------------------------------------------------------------

/// A raw piece that is already trimmed and is a key token.
pub open spec fn bare_key_piece(p: Seq<char>) -> bool {
    p == trim(p) && key_token_spec(p) is Some
}

/// Every piece between top-level commas is a bare key token.
pub open spec fn bare_key_sequence(cs: Seq<char>) -> bool {
    forall|k: int| 0 <= k < raw_pieces(cs).len() ==> bare_key_piece(#[trigger] raw_pieces(cs)[k])
}

fn is_bare_key_piece(p: &[char]) -> (r: bool)
    ensures
        r == bare_key_piece(p@),
{
    let t = text::trimmed(p);
    if !text::same(t.as_slice(), p) {
        return false;
    }
    parse_key_token(p).is_some()
}

fn looks_like_bare_key_sequence(cs: &[char]) -> (r: bool)
    ensures
        r == bare_key_sequence(cs@),
{
    let mut start: usize = 0;
    let mut in_string = false;
    let mut escape = false;
    let mut depth: i128 = 0;
    let mut i: usize = 0;
    while i < cs.len()
        invariant
            i <= cs.len(),
            in_string == lex_at(cs@, i as int, false).in_string,
            escape == lex_at(cs@, i as int, false).escape,
            depth as int == lex_at(cs@, i as int, false).depth,
            start as int == piece_start(cs@, i as int),
            forall|k: int| 0 <= k < raw_pieces_before(cs@, i as int).len() ==> bare_key_piece(
                #[trigger] raw_pieces_before(cs@, i as int)[k],
            ),
        decreases cs.len() - i,
    {
        proof {
            lemma_lex_bounds(cs@, i as int, false);
            lemma_piece_start_bounds(cs@, i as int);
            lemma_raw_pieces_prefix(cs@, i as int, cs@.len() as int);
        }
        let c = cs[i];
        if !in_string && c == ',' && depth == 0 {
            let piece = text::slice_vec(cs, start, i);
            if !is_bare_key_piece(piece.as_slice()) {
                proof {
                    let n = raw_pieces_before(cs@, i as int).len();
                    assert(raw_pieces_before(cs@, i + 1)[n as int] == piece@);
                    lemma_raw_pieces_prefix(cs@, i + 1, cs@.len() as int);
                    assert(raw_pieces(cs@)[n as int] == piece@);
                }
                return false;
            }
            start = i + 1;
        }
        let (a, b, d) = lex_advance(in_string, escape, depth, c, false);
        in_string = a;
        escape = b;
        depth = d;
        i += 1;
    }
    proof {
        lemma_piece_start_bounds(cs@, i as int);
    }
    let tail = text::slice_vec(cs, start, cs.len());
    let ok = is_bare_key_piece(tail.as_slice());
    proof {
        let rp = raw_pieces(cs@);
        assert(rp.last() == tail@);
        if ok {
            assert forall|k: int| 0 <= k < rp.len() implies bare_key_piece(#[trigger] rp[k]) by {
                if k < rp.len() - 1 {
                    assert(rp[k] == raw_pieces_before(cs@, cs@.len() as int)[k]);
                }
            }
        } else {
            assert(!bare_key_piece(rp[rp.len() - 1]));
        }
    }
    ok
}

/// The pieces closed before `i` are a prefix of those closed before `j`.
proof fn lemma_raw_pieces_prefix(cs: Seq<char>, i: int, j: int)
    requires
        0 <= i <= j,
    ensures
        raw_pieces_before(cs, i).len() <= raw_pieces_before(cs, j).len(),
        forall|k: int| 0 <= k < raw_pieces_before(cs, i).len() ==> #[trigger] raw_pieces_before(cs, j)[k]
            == raw_pieces_before(cs, i)[k],
        j == cs.len() ==> forall|k: int| 0 <= k < raw_pieces_before(cs, i).len() ==> #[trigger] raw_pieces(cs)[k]
            == raw_pieces_before(cs, i)[k],
    decreases j - i,
{
    if i < j {
        lemma_raw_pieces_prefix(cs, i, j - 1);
    }
}

/// The JSON string literal `serde_json` writes for a string: quotes around the
/// text, with `"` and `\\` escaped, the usual short escapes for backspace, tab,
/// newline, form feed and carriage return, and `\u00XX` for other control
/// characters.
pub open spec fn json_escape_char(c: char) -> Seq<char> {
    if c == '"' {
        seq!['\\', '"']
    } else if c == '\\' {
        seq!['\\', '\\']
    } else if c == '\u{8}' {
        seq!['\\', 'b']
    } else if c == '\t' {
        seq!['\\', 't']
    } else if c == '\n' {
        seq!['\\', 'n']
    } else if c == '\u{c}' {
        seq!['\\', 'f']
    } else if c == '\r' {
        seq!['\\', 'r']
    } else if (c as u32) < 0x20 {
        seq!['\\', 'u', '0', '0', hex_digit((c as u32) / 16), hex_digit((c as u32) % 16)]
    } else {
        seq![c]
    }
}

pub open spec fn hex_digit(n: u32) -> char {
    if n < 10 {
        ((n + 48) as u8) as char
    } else {
        ((n + 87) as u8) as char
    }
}

pub open spec fn json_escape(s: Seq<char>) -> Seq<char>
    decreases s.len(),
{
    if s.len() == 0 {
        seq![]
    } else {
        json_escape(s.drop_last()) + json_escape_char(s.last())
    }
}

pub open spec fn json_quoted(s: Seq<char>) -> Seq<char> {
    seq!['"'] + json_escape(s) + seq!['"']
}

/// `serde_json::to_string` on a string slice: it always succeeds (a string
/// slice has no map keys and its serialisation into memory cannot fail), and
/// the result is the JSON string literal described by `json_quoted`.
#[verifier::external_body]
fn json_string(s: &str) -> (r: Option<String>)
    ensures
        r is Some,
        r matches Some(v) ==> v@ == json_quoted(s@),
{
    serde_json::to_string(s).ok()
}

/// A quoted rendering of `text` for a hint: its JSON literal.
fn hint_literal(text: &[char]) -> (lit: String)
    ensures
        lit@ == json_quoted(text@),
{
    let s = text::string_of(text);
    match json_string(s.as_str()) {
        Some(v) => v,
        None => owned("\"...\""),
    }
}

pub open spec fn bare_key_hint(token: Seq<char>, lit: Seq<char>) -> Seq<char> {
    "Use a DSL sequence containing a comma for key taps, for example `wait(1ms),"@ + token
        + "`. If you intended to type the literal text, use `send("@ + lit + ")`."@
}

/// The canonical verb of a DSL action typed without parentheses.
pub open spec fn canonical_verb(verb: Seq<char>) -> Option<Seq<char>> {
    let v = lower(verb);
    if v == "type"@ || v == "send"@ {
        Some("send"@)
    } else if v == "key"@ {
        Some("key"@)
    } else if v == "click"@ {
        Some("click"@)
    } else if v == "scroll"@ {
        Some("scroll"@)
    } else {
        None
    }
}

/// The first whitespace index of `t` (meaningful when there is one).
pub open spec fn first_ws(t: Seq<char>) -> int {
    choose|i: int| 0 <= i < t.len() && is_ws(t[i]) && forall|j: int| 0 <= j < i ==> !is_ws(t[j])
}

pub open spec fn has_ws(t: Seq<char>) -> bool {
    exists|i: int| 0 <= i < t.len() && is_ws(t[i])
}

/// Text after the verb of a reserved-verb input.
pub open spec fn verb_rest(t: Seq<char>) -> Seq<char> {
    trim_start(t.skip(first_ws(t)))
}

/// A DSL verb followed by whitespace and a quoted argument, without parentheses.
pub open spec fn reserved_verb_spec(input: Seq<char>) -> Option<Seq<char>> {
    let t = trim(input);
    if !has_ws(t) {
        None
    } else {
        let rest = verb_rest(t);
        if !(rest.len() > 0 && rest[0] == '"') {
            None
        } else {
            canonical_verb(t.take(first_ws(t)))
        }
    }
}

pub open spec fn verb_hint(verb: Seq<char>, q: Seq<char>) -> Seq<char> {
    if verb == "send"@ {
        "Use Tendril's canonical text action as `send("@ + q + ")`; for example `send("@ + q
            + "),Return` when text should be followed by Return."@
    } else {
        "Tendril DSL actions require parentheses. Use `send("@ + q
            + ")` for text, or rewrite the `"@ + verb + "` action with explicit Tendril DSL syntax."@
    }
}

/// The quoted text shown in a reserved-verb hint: the decoded argument as a
/// JSON literal, or `"..."`.
/// The quoted text a hint repeats: the JSON literal of the quoted argument,
/// or `"..."` when the argument is not a well-formed quoted string.
pub open spec fn verb_quote(rest: Seq<char>) -> Seq<char> {
    match quoted_spec(rest) {
        Ok(text) => json_quoted(text),
        Err(_) => "\"...\""@,
    }
}

fn reserved_verb_without_parens_hint(t: &[char]) -> (r: Option<(&'static str, String)>)
    ensures
        match r {
            None => reserved_verb_spec(t@) is None,
            Some((verb, hint)) => reserved_verb_spec(t@) == Some(verb@) && hint@ == verb_hint(
                verb@,
                verb_quote(verb_rest(trim(t@))),
            ),
        },
{
    let tt = text::trimmed(t);
    let mut w: usize = 0;
    while w < tt.len() && !text::is_whitespace(tt[w])
        invariant
            w <= tt@.len(),
            forall|j: int| 0 <= j < w ==> !is_ws(#[trigger] tt@[j]),
        decreases tt.len() - w,
    {
        w += 1;
    }
    if w == tt.len() {
        proof {
            if has_ws(tt@) {
                let i = choose|i: int| 0 <= i < tt@.len() && is_ws(tt@[i]);
                assert(!is_ws(tt@[i]));
            }
        }
        return None;
    }
    proof {
        let k = first_ws(tt@);
        assert(has_ws(tt@));
        if k < w {
            assert(!is_ws(tt@[k]));
        } else if k > w {
        }
        assert(k == w);
    }
    let after = text::slice_vec(tt.as_slice(), w, tt.len());
    assert(after@ =~= tt@.skip(w as int));
    let rest = text::trimmed_start(after.as_slice());
    if !(rest.len() > 0 && rest[0] == '"') {
        return None;
    }
    let verb = text::slice_vec(tt.as_slice(), 0, w);
    assert(verb@ =~= tt@.take(w as int));
    let v = text::to_lower(verb.as_slice());
    let canonical: &'static str = if text::is(v.as_slice(), "type") || text::is(v.as_slice(), "send") {
        "send"
    } else if text::is(v.as_slice(), "key") {
        "key"
    } else if text::is(v.as_slice(), "click") {
        "click"
    } else if text::is(v.as_slice(), "scroll") {
        "scroll"
    } else {
        return None;
    };
    let q = match parse_quoted_string(rest.as_slice(), 0, t) {
        Ok(text) => hint_literal(text.as_slice()),
        Err(_) => owned("\"...\""),
    };
    let hint = if text::is(text::chars_of(canonical).as_slice(), "send") {
        let mut h = owned("Use Tendril's canonical text action as `send(");
        text::push_str(&mut h, q.as_str());
        text::push_str(&mut h, ")`; for example `send(");
        text::push_str(&mut h, q.as_str());
        text::push_str(&mut h, "),Return` when text should be followed by Return.");
        h
    } else {
        let mut h = owned("Tendril DSL actions require parentheses. Use `send(");
        text::push_str(&mut h, q.as_str());
        text::push_str(&mut h, ")` for text, or rewrite the `");
        text::push_str(&mut h, canonical);
        text::push_str(&mut h, "` action with explicit Tendril DSL syntax.");
        h
    };
    proof {
        assert(rest@ == verb_rest(trim(t@)));
        assert(q@ == verb_quote(verb_rest(trim(t@))));
        if canonical@ == "send"@ {
            assert(hint@ =~= verb_hint(canonical@, q@));
        } else {
            assert(hint@ =~= verb_hint(canonical@, q@));
        }
    }
    Some((canonical, hint))
}

/// How a single run input resembles a DSL action.
pub enum Ambiguity {
    Plain,
    BareKey,
    ReservedVerb(Seq<char>),
}

pub open spec fn ambiguity_spec(input: Seq<char>) -> Ambiguity {
    let t = trim(input);
    if t.len() == 0 || has_char(t, '(') || exists|j: int| top_level(t, j, ',', true) {
        Ambiguity::Plain
    } else if known_bare_keys().contains(lower(trim(t))) {
        Ambiguity::BareKey
    } else {
        match reserved_verb_spec(t) {
            Some(v) => Ambiguity::ReservedVerb(v),
            None => Ambiguity::Plain,
        }
    }
}

/// The diagnostic for an input that looks like a lone key token.
pub open spec fn is_bare_key_error(e: TendrilError, t: Seq<char>) -> bool {
    &&& is_dsl_error(
        e,
        "ambiguous run input `"@ + t + "` looks like a DSL key token; refusing to type it as literal text"@,
        None,
        Some(t),
        "parse"@,
    )
    &&& is_text_detail(e.detail_spec("hint"@), bare_key_hint(t, json_quoted(t)))
    &&& is_text_detail(e.detail_spec("ambiguous_token"@), t)
    &&& is_text_detail(e.detail_spec("ambiguity"@), "bare_key_token"@)
}

/// The diagnostic for a DSL verb written without parentheses.
pub open spec fn is_reserved_verb_error(e: TendrilError, t: Seq<char>, verb: Seq<char>) -> bool {
    &&& is_dsl_error(
        e,
        "ambiguous run input `"@ + t
            + "` looks like a DSL action missing parentheses; refusing to type it as literal text"@,
        None,
        Some(t),
        "parse"@,
    )
    &&& is_text_detail(e.detail_spec("hint"@), verb_hint(verb, verb_quote(verb_rest(trim(t)))))
    &&& is_text_detail(e.detail_spec("verb"@), verb)
    &&& is_text_detail(e.detail_spec("ambiguity"@), "reserved_verb_without_parens"@)
}

fn ambiguous_single_dsl_like_input_error(input: &[char]) -> (r: Option<TendrilError>)
    ensures
        match ambiguity_spec(input@) {
            Ambiguity::Plain => r is None,
            Ambiguity::BareKey => r matches Some(e) && is_bare_key_error(e, trim(input@)),
            Ambiguity::ReservedVerb(v) => r matches Some(e) && is_reserved_verb_error(e, trim(input@), v),
        },
{
    proof {
        lemma_detail_keys_distinct();
    }
    let t = text::trimmed(input);
    if t.len() == 0 || text::contains_char(t.as_slice(), '(') || contains_top_level_comma(t.as_slice()) {
        return None;
    }
    if is_known_bare_key_token(t.as_slice()) {
        let lit = hint_literal(t.as_slice());
        let mut hint = owned("Use a DSL sequence containing a comma for key taps, for example `wait(1ms),");
        text::push_chars(&mut hint, t.as_slice());
        text::push_str(&mut hint, "`. If you intended to type the literal text, use `send(");
        text::push_str(&mut hint, lit.as_str());
        text::push_str(&mut hint, ")`.");
        assert(hint@ =~= bare_key_hint(t@, lit@));
        let message = wrap_message(
            "ambiguous run input `",
            t.as_slice(),
            "` looks like a DSL key token; refusing to type it as literal text",
        );
        let e = dsl_error(message, None, Some(t.as_slice()), "parse")
            .with_detail_entry("hint", DetailValue::Text(hint))
            .with_detail_entry("ambiguous_token", DetailValue::Text(text::string_of(t.as_slice())))
            .with_detail_entry("ambiguity", DetailValue::Text(owned("bare_key_token")));
        proof {
            assert(is_text_detail(e.detail_spec("hint"@), bare_key_hint(t@, lit@)));
        }
        return Some(e);
    }
    match reserved_verb_without_parens_hint(t.as_slice()) {
        Some((verb, hint)) => {
            let message = wrap_message(
                "ambiguous run input `",
                t.as_slice(),
                "` looks like a DSL action missing parentheses; refusing to type it as literal text",
            );
            let e = dsl_error(message, None, Some(t.as_slice()), "parse")
                .with_detail_entry("hint", DetailValue::Text(hint))
                .with_detail_entry("verb", DetailValue::Text(owned(verb)))
                .with_detail_entry("ambiguity", DetailValue::Text(owned("reserved_verb_without_parens")));
            proof {
                assert(is_text_detail(e.detail_spec("hint"@), verb_hint(verb@, verb_quote(verb_rest(trim(t@))))));
            }
            Some(e)
        },
        None => None,
    }
}

// ---------------------------------------------------------------------------
// Run payloads
// ---------------------------------------------------------------------------

/// A run payload with its text as character sequences.
pub enum SPayload {
    Text(Seq<char>),
    Actions(Seq<SAction>),
}

pub open spec fn payload_view(p: RunInputPayload) -> Option<SPayload> {
    match p {
        RunInputPayload::Text { text } => Some(SPayload::Text(text@)),
        RunInputPayload::Actions { actions } => Some(SPayload::Actions(actions_view(actions@))),
        RunInputPayload::Dsl { .. } => None,
    }
}

/// The first top-level `;` (saturating depth), if any.
pub open spec fn first_semicolon(cs: Seq<char>) -> Option<int> {
    if exists|i: int| top_level(cs, i, ';', true) {
        Some(choose|i: int| top_level(cs, i, ';', true) && forall|j: int| 0 <= j < i ==> !#[trigger] top_level(cs, j, ';', true))
    } else {
        None
    }
}

/// The diagnostic for a top-level `;` at byte offset `offset`.
pub open spec fn is_semicolon_error(e: TendrilError, offset: int) -> bool {
    &&& is_dsl_error(e, "unexpected `;`; the DSL separator is `,`"@, None, None, "parse"@)
    &&& e.detail_spec("offset"@) == Some(DetailValue::Number(offset as u64))
}

/// What run input is read as: the payload, or the error that refuses it.
pub open spec fn input_definition_result(input: Seq<char>, r: Result<RunInputPayload, TendrilError>) -> bool {
    match first_semicolon(input) {
        Some(i) => r matches Err(e) && is_semicolon_error(e, byte_offset(input, i)),
        None => if has_char(input, '(') {
            match dsl_spec(input) {
                Ok(a) => r matches Ok(p) && payload_view(p) == Some(SPayload::Actions(a)),
                Err(f) => r matches Err(e) && is_dsl_failure(e, f),
            }
        } else if (exists|j: int| top_level(input, j, ',', true)) && bare_key_sequence(input)
            && dsl_spec(input) is Ok {
            r matches Ok(p) && payload_view(p) == Some(SPayload::Actions(dsl_spec(input)->Ok_0))
        } else {
            match ambiguity_spec(input) {
                Ambiguity::Plain => r matches Ok(p) && payload_view(p) == Some(SPayload::Text(input)),
                Ambiguity::BareKey => r matches Err(e) && is_bare_key_error(e, trim(input)),
                Ambiguity::ReservedVerb(v) => r matches Err(e) && is_reserved_verb_error(e, trim(input), v),
            }
        },
    }
}

/// Decides whether run input is literal text or a DSL action sequence.
///
/// A top-level `;` is rejected outright. Input with a `(` is a DSL sequence.
/// Input made only of bare key tokens separated by top-level commas is a
/// sequence of key taps. Otherwise input that looks like a lone key token or
/// a verb missing its parentheses is rejected, and anything else is text.
pub fn parse_input_definition(input: &str) -> (r: Result<RunInputPayload, TendrilError>)
    ensures
        input_definition_result(input@, r),
{
    proof {
        lemma_detail_keys_distinct();
    }
    let cs = text::chars_of(input);
    match top_level_semicolon_index(cs.as_slice()) {
        Some(i) => {
            proof {
                let k = choose|k: int| top_level(cs@, k, ';', true) && forall|j: int| 0 <= j < k ==> !#[trigger] top_level(cs@, j, ';', true);
                if k < i {
                } else if k > i {
                }
                assert(first_semicolon(cs@) == Some(i as int));
            }
            let o = byte_offset_of(cs.as_slice(), i);
            let e = dsl_error(owned("unexpected `;`; the DSL separator is `,`"), None, None, "parse")
                .with_detail_entry("offset", DetailValue::Number(o));
            return Err(e);
        },
        None => {
            proof {
                if exists|k: int| top_level(cs@, k, ';', true) {
                    let k = choose|k: int| top_level(cs@, k, ';', true);
                    assert(!top_level(cs@, k, ';', true));
                }
            }
        },
    }
    if text::contains_char(cs.as_slice(), '(') {
        let actions = parse_dsl_sequence(input)?;
        return Ok(RunInputPayload::Actions { actions });
    }
    if contains_top_level_comma(cs.as_slice()) && looks_like_bare_key_sequence(cs.as_slice()) {
        match parse_dsl_sequence(input) {
            Ok(actions) => {
                return Ok(RunInputPayload::Actions { actions });
            },
            Err(_) => {},
        }
    }
    match ambiguous_single_dsl_like_input_error(cs.as_slice()) {
        Some(e) => Err(e),
        None => Ok(RunInputPayload::Text { text: owned(input) }),
    }
}

// ---------------------------------------------------------------------------
// Coordinates
// ---------------------------------------------------------------------------

/// Integer division rounding toward zero, as Rust's `/` on integers.
pub open spec fn div_toward_zero(a: int, b: int) -> int {
    if a >= 0 {
        a / b
    } else {
        -((-a) / b)
    }
}

pub open spec fn clamp_i32(v: int) -> i32 {
    if v < i32::MIN {
        i32::MIN
    } else if v > i32::MAX {
        i32::MAX
    } else {
        v as i32
    }
}

/// `value * numerator / denominator` rounded half up (toward zero for the
/// division step), clamped to `i32`; a zero denominator leaves the value.
pub open spec fn scaled_coordinate_spec(value: i32, numerator: u32, denominator: u32) -> i32 {
    if denominator == 0 {
        value
    } else {
        clamp_i32(div_toward_zero(value * numerator + denominator / 2, denominator as int))
    }
}

fn scaled_coordinate(value: i32, numerator: u32, denominator: u32) -> (r: i32)
    ensures
        r == scaled_coordinate_spec(value, numerator, denominator),
{
    if denominator == 0 {
        return value;
    }
    let v = value as i64;
    let n = numerator as i64;
    assert(-0x8000_0000 * 0xffff_ffff <= v * n <= 0x7fff_ffff * 0xffff_ffff) by (nonlinear_arith)
        requires
            -0x8000_0000 <= v <= 0x7fff_ffff,
            0 <= n <= 0xffff_ffff,
    ;
    let numer: i64 = v * n + (denominator / 2) as i64;
    let d = denominator as i64;
    let scaled: i64 = numer / d;
    assert(scaled == div_toward_zero(numer as int, d as int));
    if scaled < -2147483648 {
        -2147483648
    } else if scaled > 2147483647 {
        2147483647
    } else {
        scaled as i32
    }
}

/// Maps a point in capture-output space back to source space.
pub fn remap_output_point_to_source(transform: &CoordinateTransform, x: i32, y: i32) -> (r: (i32, i32))
    ensures
        r.0 == scaled_coordinate_spec(x, transform.x_numerator, transform.x_denominator),
        r.1 == scaled_coordinate_spec(y, transform.y_numerator, transform.y_denominator),
{
    (
        scaled_coordinate(x, transform.x_numerator, transform.x_denominator),
        scaled_coordinate(y, transform.y_numerator, transform.y_denominator),
    )
}

pub open spec fn saturating_add_i32(a: i32, b: i32) -> i32 {
    clamp_i32(a + b)
}

/// Maps a point relative to a target to absolute source coordinates.
pub fn relative_point_to_absolute(bounds: &Bounds, x: i32, y: i32) -> (r: (i32, i32))
    ensures
        r.0 == saturating_add_i32(bounds.x, x),
        r.1 == saturating_add_i32(bounds.y, y),
{
    (sat_add_i32(bounds.x, x), sat_add_i32(bounds.y, y))
}

fn sat_add_i32(a: i32, b: i32) -> (r: i32)
    ensures
        r == saturating_add_i32(a, b),
{
    let s = a as i64 + b as i64;
    if s < -2147483648 {
        -2147483648
    } else if s > 2147483647 {
        2147483647
    } else {
        s as i32
    }
}

proof fn lemma_div_toward_zero_monotone(a: int, b: int, d: int)
    requires
        a <= b,
        d > 0,
    ensures
        div_toward_zero(a, d) <= div_toward_zero(b, d),
{
    if a >= 0 {
        assert(a / d <= b / d) by (nonlinear_arith)
            requires
                0 <= a <= b,
                d > 0,
        ;
    } else if b >= 0 {
        assert((-a) / d >= 0 && b / d >= 0) by (nonlinear_arith)
            requires
                a < 0,
                b >= 0,
                d > 0,
        ;
    } else {
        assert((-b) / d <= (-a) / d) by (nonlinear_arith)
            requires
                0 < -b <= -a,
                d > 0,
        ;
    }
}

/// Remapping is monotone in each axis when the scale is non-negative and the
/// denominator positive: a point further right or down never maps further
/// left or up.
pub proof fn lemma_remap_monotone(x0: i32, x1: i32, numerator: u32, denominator: u32)
    requires
        x0 <= x1,
        denominator > 0,
    ensures
        scaled_coordinate_spec(x0, numerator, denominator) <= scaled_coordinate_spec(x1, numerator, denominator),
{
    assert(x0 * numerator <= x1 * numerator) by (nonlinear_arith)
        requires
            x0 <= x1,
            numerator >= 0,
    ;
    lemma_div_toward_zero_monotone(
        x0 * numerator + denominator / 2,
        x1 * numerator + denominator / 2,
        denominator as int,
    );
}

// ---------------------------------------------------------------------------
// The X11 browser navigation guard
// ---------------------------------------------------------------------------

pub open spec fn is_slash(c: char) -> bool {
    c == '\\' || c == '/'
}

/// `C:\...` or `C:/...`.
pub open spec fn windows_drive_path(t: Seq<char>) -> bool {
    t.len() >= 3 && text::is_ascii_alpha(t[0]) && t[1] == ':' && is_slash(t[2])
}

/// `\\server\share...`: two leading separators, then at least two non-empty
/// components.
pub open spec fn windows_unc_path(t: Seq<char>) -> bool {
    t.len() >= 2 && is_slash(t[0]) && is_slash(t[1]) && exists|a: int, b: int, c: int|
        2 <= a < b < c < t.len() && !is_slash(#[trigger] t[a]) && is_slash(#[trigger] t[b]) && !is_slash(#[trigger] t[c])
}

pub open spec fn absolute_path(t: Seq<char>) -> bool {
    (t.len() > 0 && t[0] == '/') || windows_drive_path(t) || windows_unc_path(t)
}

/// Text a browser address bar would take as a location: a URL with a scheme,
/// one of the special prefixes, or an absolute file-system path.
pub open spec fn navigation_text_spec(text: Seq<char>) -> bool {
    let t = trim(text);
    let l = lower(t);
    text::contains(l, "://"@) || text::starts_with(l, "about:"@) || text::starts_with(l, "chrome:"@)
        || text::starts_with(l, "edge:"@) || text::starts_with(l, "localhost:"@) || text::starts_with(
        l,
        "127.0.0.1:"@,
    ) || absolute_path(t)
}

fn is_windows_unc_path(t: &[char]) -> (r: bool)
    ensures
        r == windows_unc_path(t@),
{
    let n = t.len();
    if n < 2 || !(t[0] == '\\' || t[0] == '/') || !(t[1] == '\\' || t[1] == '/') {
        return false;
    }
    // find the first non-separator, then a separator after it, then a non-separator.
    let mut a: usize = 2;
    while a < n && (t[a] == '\\' || t[a] == '/')
        invariant
            2 <= a <= n == t@.len(),
            forall|j: int| 2 <= j < a ==> is_slash(#[trigger] t@[j]),
        decreases n - a,
    {
        a += 1;
    }
    if a == n {
        proof {
            assert forall|x: int, y: int, z: int| 2 <= x < y < z < t@.len() implies !(!is_slash(#[trigger] t@[x]) && is_slash(#[trigger] t@[y]) && !is_slash(#[trigger] t@[z])) by {
                assert(is_slash(t@[x]));
            }
        }
        return false;
    }
    let mut b: usize = a + 1;
    while b < n && !(t[b] == '\\' || t[b] == '/')
        invariant
            a < b <= n == t@.len(),
            forall|j: int| a <= j < b ==> !is_slash(#[trigger] t@[j]),
        decreases n - b,
    {
        b += 1;
    }
    let mut c: usize = if b < n { b + 1 } else { n };
    while c < n && (t[c] == '\\' || t[c] == '/')
        invariant
            b < n ==> b < c <= n,
            b >= n ==> c == n,
            n == t@.len(),
            forall|j: int| b <= j < c ==> is_slash(#[trigger] t@[j]),
        decreases n - c,
    {
        c += 1;
    }
    if c < n {
        proof {
            assert(!is_slash(t@[a as int]) && is_slash(t@[b as int]) && !is_slash(t@[c as int]));
        }
        return true;
    }
    proof {
        assert forall|x: int, y: int, z: int| 2 <= x < y < z < t@.len() implies !(!is_slash(#[trigger] t@[x]) && is_slash(#[trigger] t@[y]) && !is_slash(#[trigger] t@[z])) by {
            if !is_slash(t@[x]) && is_slash(t@[y]) && !is_slash(t@[z]) {
                assert(x >= a);
                if y < b {
                    assert(!is_slash(t@[y]));
                }
                assert(y >= b);
                assert(z > b);
                assert(is_slash(t@[z]));
            }
        }
    }
    false
}

/// Whether text would navigate a browser when typed into its address bar.
pub fn looks_like_navigation_text(text: &str) -> (r: bool)
    ensures
        r == navigation_text_spec(text@),
{
    let cs = text::chars_of(text);
    let t = text::trimmed(cs.as_slice());
    let l = text::to_lower(t.as_slice());
    let ls = l.as_slice();
    if text::contains_lit(ls, "://") || text::starts_with_lit(ls, "about:") || text::starts_with_lit(ls, "chrome:")
        || text::starts_with_lit(ls, "edge:") || text::starts_with_lit(ls, "localhost:") || text::starts_with_lit(
        ls,
        "127.0.0.1:",
    ) {
        return true;
    }
    let ts = t.as_slice();
    (ts.len() > 0 && ts[0] == '/') || (ts.len() >= 3 && text::is_alpha(ts[0]) && ts[1] == ':' && (ts[2] == '\\'
        || ts[2] == '/')) || is_windows_unc_path(ts)
}

pub open spec fn browser_tokens() -> Seq<Seq<char>> {
    seq!["firefox"@, "mozilla"@, "chromium"@, "chrome"@, "google-chrome"@, "browser"@, "brave"@, "edge"@]
}

pub open spec fn mentions_browser(v: Seq<char>) -> bool {
    exists|k: int| 0 <= k < browser_tokens().len() && text::contains(lower(v), #[trigger] browser_tokens()[k])
}

pub open spec fn opt_text(o: Option<String>) -> Seq<char> {
    match o {
        Some(s) => s@,
        None => seq![],
    }
}

/// A target whose name, title or application names a browser.
pub open spec fn browser_target_spec(t: crate::platform::TargetDescriptor) -> bool {
    mentions_browser(t.name@) || mentions_browser(opt_text(t.title)) || mentions_browser(opt_text(t.app_name))
}

fn names_browser(v: &str) -> (r: bool)
    ensures
        r == mentions_browser(v@),
{
    let l = text::to_lower(text::chars_of(v).as_slice());
    let words: [&str; 8] = ["firefox", "mozilla", "chromium", "chrome", "google-chrome", "browser", "brave", "edge"];
    let ghost toks = browser_tokens();
    let mut i: usize = 0;
    while i < 8
        invariant
            i <= 8,
            toks == browser_tokens(),
            l@ == lower(v@),
            words@.len() == 8,
            forall|j: int| 0 <= j < 8 ==> (#[trigger] words@[j])@ == toks[j],
            forall|j: int| 0 <= j < i ==> !text::contains(l@, #[trigger] toks[j]),
        decreases 8 - i,
    {
        if text::contains_lit(l.as_slice(), words[i]) {
            proof {
                assert(text::contains(lower(v@), toks[i as int]));
            }
            return true;
        }
        i += 1;
    }
    proof {
        if mentions_browser(v@) {
            let k = choose|k: int| 0 <= k < toks.len() && text::contains(lower(v@), #[trigger] toks[k]);
            assert(!text::contains(l@, toks[k]));
        }
    }
    false
}

fn looks_like_browser_target(t: &crate::platform::TargetDescriptor) -> (r: bool)
    ensures
        r == browser_target_spec(*t),
{
    if names_browser(t.name.as_str()) {
        return true;
    }
    proof {
        reveal_strlit("");
        assert(""@ =~= Seq::<char>::empty());
    }
    let title_hit = match &t.title {
        Some(s) => names_browser(s.as_str()),
        None => names_browser(""),
    };
    if title_hit {
        return true;
    }
    match &t.app_name {
        Some(s) => names_browser(s.as_str()),
        None => names_browser(""),
    }
}

/// Indices of the actions other than waits, among the first `n`.
pub open spec fn significant(actions: Seq<InputAction>, n: int) -> Seq<int>
    decreases n,
{
    if n <= 0 {
        seq![]
    } else if actions[n - 1] is Wait {
        significant(actions, n - 1)
    } else {
        significant(actions, n - 1).push(n - 1)
    }
}

pub open spec fn is_ctrl_hold(a: InputAction) -> bool {
    a == (InputAction::Hold { modifier: ModifierKey::Ctrl })
}

pub open spec fn is_ctrl_release(a: InputAction) -> bool {
    a == (InputAction::Release { modifier: ModifierKey::Ctrl })
}

pub open spec fn is_key_l(a: InputAction) -> bool {
    a matches InputAction::KeyTap { key } && lower(key@) == "l"@
}

pub open spec fn is_return_key(a: InputAction) -> bool {
    a matches InputAction::KeyTap { key } && (key@ == "return"@ || key@ == "enter"@)
}

pub open spec fn is_navigation_send(a: InputAction) -> bool {
    a matches InputAction::Send { text } && navigation_text_spec(text@)
}

pub open spec fn is_pointer_break(a: InputAction) -> bool {
    a is Click || a is Drag || a is Scroll
}

/// After a Ctrl+L chord: the send of navigation text that a later Return
/// would submit, looking at significant actions from `k` on, stopping at a
/// click, drag or scroll.
pub open spec fn submitted_send(actions: Seq<InputAction>, sig: Seq<int>, k: int, pending: Option<int>) -> Option<int>
    decreases sig.len() - k,
{
    if k < 0 || k >= sig.len() {
        None
    } else {
        let a = actions[sig[k]];
        if is_pointer_break(a) {
            None
        } else if is_navigation_send(a) {
            submitted_send(actions, sig, k + 1, Some(sig[k]))
        } else if is_return_key(a) && pending is Some {
            pending
        } else {
            submitted_send(actions, sig, k + 1, pending)
        }
    }
}

pub open spec fn ctrl_l_chord_at(actions: Seq<InputAction>, sig: Seq<int>, start: int) -> bool {
    0 <= start && start + 3 <= sig.len() && is_ctrl_hold(actions[sig[start]]) && is_key_l(actions[sig[start + 1]])
        && is_ctrl_release(actions[sig[start + 2]])
}

/// The first Ctrl+L chord (from `start` on) followed by a submitted navigation send.
pub open spec fn vulnerable_from(actions: Seq<InputAction>, sig: Seq<int>, start: int) -> Option<int>
    decreases sig.len() - start,
{
    if start < 0 || start + 3 > sig.len() {
        None
    } else if ctrl_l_chord_at(actions, sig, start) && submitted_send(actions, sig, start + 3, None) is Some {
        submitted_send(actions, sig, start + 3, None)
    } else {
        vulnerable_from(actions, sig, start + 1)
    }
}

/// Index of the send action of a Ctrl+L browser navigation, if the actions contain one.
pub open spec fn vulnerable_navigation(actions: Seq<InputAction>) -> Option<int> {
    vulnerable_from(actions, significant(actions, actions.len() as int), 0)
}

fn is_key_l_exec(a: &InputAction) -> (r: bool)
    ensures
        r == is_key_l(*a),
{
    match a {
        InputAction::KeyTap { key } => text::is_lower(text::chars_of(key.as_str()).as_slice(), "l"),
        _ => false,
    }
}

fn is_return_key_exec(a: &InputAction) -> (r: bool)
    ensures
        r == is_return_key(*a),
{
    match a {
        InputAction::KeyTap { key } => {
            let k = text::chars_of(key.as_str());
            text::is(k.as_slice(), "return") || text::is(k.as_slice(), "enter")
        },
        _ => false,
    }
}

fn significant_indices(actions: &Vec<InputAction>) -> (r: Vec<usize>)
    ensures
        r@.map_values(|i: usize| i as int) == significant(actions@, actions@.len() as int),
        forall|k: int| 0 <= k < r@.len() ==> r@[k] < actions@.len(),
{
    let mut r: Vec<usize> = Vec::new();
    let mut i: usize = 0;
    while i < actions.len()
        invariant
            i <= actions@.len(),
            r@.map_values(|i: usize| i as int) == significant(actions@, i as int),
            forall|k: int| 0 <= k < r@.len() ==> r@[k] < i,
        decreases actions.len() - i,
    {
        let is_wait = match &actions[i] {
            InputAction::Wait { .. } => true,
            _ => false,
        };
        if !is_wait {
            let ghost before = r@;
            r.push(i);
            assert(r@.map_values(|i: usize| i as int) =~= before.map_values(|i: usize| i as int).push(i as int));
        }
        i += 1;
    }
    r
}

fn submitted_send_exec(actions: &Vec<InputAction>, sig: &Vec<usize>, k0: usize) -> (r: Option<usize>)
    requires
        forall|k: int| 0 <= k < sig@.len() ==> sig@[k] < actions@.len(),
    ensures
        match r {
            Some(i) => submitted_send(actions@, sig@.map_values(|i: usize| i as int), k0 as int, None) == Some(i as int),
            None => submitted_send(actions@, sig@.map_values(|i: usize| i as int), k0 as int, None) is None,
        },
{
    let ghost sv = sig@.map_values(|i: usize| i as int);
    let mut pending: Option<usize> = None;
    let mut k: usize = k0;
    while k < sig.len()
        invariant
            k0 <= k,
            sv == sig@.map_values(|i: usize| i as int),
            forall|j: int| 0 <= j < sig@.len() ==> sig@[j] < actions@.len(),
            submitted_send(actions@, sv, k0 as int, None) == submitted_send(
                actions@,
                sv,
                k as int,
                match pending {
                    Some(p) => Some(p as int),
                    None => None,
                },
            ),
        decreases sig.len() - k,
    {
        let a = &actions[sig[k]];
        let brk = match a {
            InputAction::Click { .. } | InputAction::Drag { .. } | InputAction::Scroll { .. } => true,
            _ => false,
        };
        if brk {
            return None;
        }
        let nav = match a {
            InputAction::Send { text } => looks_like_navigation_text(text.as_str()),
            _ => false,
        };
        if nav {
            pending = Some(sig[k]);
        } else if is_return_key_exec(a) && pending.is_some() {
            return pending;
        }
        k += 1;
    }
    None
}

fn vulnerable_ctrl_l_navigation(actions: &Vec<InputAction>) -> (r: Option<usize>)
    ensures
        match r {
            Some(i) => vulnerable_navigation(actions@) == Some(i as int) && i < actions@.len(),
            None => vulnerable_navigation(actions@) is None,
        },
{
    let sig = significant_indices(actions);
    let ghost sv = sig@.map_values(|i: usize| i as int);
    if sig.len() < 3 {
        return None;
    }
    let mut start: usize = 0;
    while start < sig.len() && sig.len() - start >= 3
        invariant
            sv == sig@.map_values(|i: usize| i as int),
            sv == significant(actions@, actions@.len() as int),
            forall|j: int| 0 <= j < sig@.len() ==> sig@[j] < actions@.len(),
            vulnerable_navigation(actions@) == vulnerable_from(actions@, sv, start as int),
        decreases sig.len() - start,
    {
        let chord = match &actions[sig[start]] {
            InputAction::Hold { modifier: ModifierKey::Ctrl } => true,
            _ => false,
        } && is_key_l_exec(&actions[sig[start + 1]]) && match &actions[sig[start + 2]] {
            InputAction::Release { modifier: ModifierKey::Ctrl } => true,
            _ => false,
        };
        if chord {
            match submitted_send_exec(actions, &sig, start + 3) {
                Some(i) => {
                    proof {
                        lemma_vulnerable_is_send(actions@);
                    }
                    return Some(i);
                },
                None => {},
            }
        }
        start += 1;
    }
    None
}

fn summarize_navigation_text(text: &str) -> (r: String)
    ensures
        r@ == (if text@.len() > 96 { text@.take(96).push('\u{2026}') } else { text@ }),
{
    let cs = text::chars_of(text);
    if cs.len() > 96 {
        let head = text::slice_vec(cs.as_slice(), 0, 96);
        let mut r = text::string_of(head.as_slice());
        text::push_char(&mut r, '\u{2026}');
        assert(head@ =~= text@.take(96));
        r
    } else {
        owned(text)
    }
}

/// The detail keys of the browser-navigation diagnostic are distinct.
proof fn lemma_guard_keys_distinct()
    ensures
        "field"@ != "stage"@,
        "field"@ != "pattern"@,
        "field"@ != "target_id"@,
        "field"@ != "target_name"@,
        "field"@ != "target_app_name"@,
        "field"@ != "target_title"@,
        "field"@ != "action_index"@,
        "field"@ != "url_preview"@,
        "field"@ != "navigation_text_preview"@,
        "field"@ != "remediation"@,
        "stage"@ != "pattern"@,
        "stage"@ != "target_id"@,
        "stage"@ != "target_name"@,
        "stage"@ != "target_app_name"@,
        "stage"@ != "target_title"@,
        "stage"@ != "action_index"@,
        "stage"@ != "url_preview"@,
        "stage"@ != "navigation_text_preview"@,
        "stage"@ != "remediation"@,
        "pattern"@ != "target_id"@,
        "pattern"@ != "target_name"@,
        "pattern"@ != "target_app_name"@,
        "pattern"@ != "target_title"@,
        "pattern"@ != "action_index"@,
        "pattern"@ != "url_preview"@,
        "pattern"@ != "navigation_text_preview"@,
        "pattern"@ != "remediation"@,
        "target_id"@ != "target_name"@,
        "target_id"@ != "target_app_name"@,
        "target_id"@ != "target_title"@,
        "target_id"@ != "action_index"@,
        "target_id"@ != "url_preview"@,
        "target_id"@ != "navigation_text_preview"@,
        "target_id"@ != "remediation"@,
        "action_index"@ != "url_preview"@,
        "action_index"@ != "navigation_text_preview"@,
        "action_index"@ != "remediation"@,
        "url_preview"@ != "navigation_text_preview"@,
        "url_preview"@ != "remediation"@,
{
    reveal_strlit("field");
    reveal_strlit("stage");
    reveal_strlit("pattern");
    reveal_strlit("target_id");
    reveal_strlit("target_name");
    reveal_strlit("target_app_name");
    reveal_strlit("target_title");
    reveal_strlit("action_index");
    reveal_strlit("url_preview");
    reveal_strlit("navigation_text_preview");
    reveal_strlit("remediation");
    assert("field"@[0] != "stage"@[0]);
    assert("field"@.len() != "pattern"@.len());
    assert("field"@.len() != "target_id"@.len());
    assert("field"@.len() != "target_name"@.len());
    assert("field"@.len() != "target_app_name"@.len());
    assert("field"@.len() != "target_title"@.len());
    assert("field"@.len() != "action_index"@.len());
    assert("field"@.len() != "url_preview"@.len());
    assert("field"@.len() != "navigation_text_preview"@.len());
    assert("field"@.len() != "remediation"@.len());
    assert("stage"@.len() != "pattern"@.len());
    assert("stage"@.len() != "target_id"@.len());
    assert("stage"@.len() != "target_name"@.len());
    assert("stage"@.len() != "target_app_name"@.len());
    assert("stage"@.len() != "target_title"@.len());
    assert("stage"@.len() != "action_index"@.len());
    assert("stage"@.len() != "url_preview"@.len());
    assert("stage"@.len() != "navigation_text_preview"@.len());
    assert("stage"@.len() != "remediation"@.len());
    assert("pattern"@.len() != "target_id"@.len());
    assert("pattern"@.len() != "target_name"@.len());
    assert("pattern"@.len() != "target_app_name"@.len());
    assert("pattern"@.len() != "target_title"@.len());
    assert("pattern"@.len() != "action_index"@.len());
    assert("pattern"@.len() != "url_preview"@.len());
    assert("pattern"@.len() != "navigation_text_preview"@.len());
    assert("pattern"@.len() != "remediation"@.len());
    assert("target_id"@.len() != "target_name"@.len());
    assert("target_id"@.len() != "target_app_name"@.len());
    assert("target_id"@.len() != "target_title"@.len());
    assert("target_id"@.len() != "action_index"@.len());
    assert("target_id"@.len() != "url_preview"@.len());
    assert("target_id"@.len() != "navigation_text_preview"@.len());
    assert("target_id"@.len() != "remediation"@.len());
    assert("action_index"@.len() != "url_preview"@.len());
    assert("action_index"@.len() != "navigation_text_preview"@.len());
    assert("action_index"@.len() != "remediation"@.len());
    assert("url_preview"@.len() != "navigation_text_preview"@.len());
    assert("url_preview"@[0] != "remediation"@[0]);
}

/// Rejects, on Linux/X11 browser windows, a Ctrl+L chord followed by a
/// navigation send that a Return submits: the synthetic shortcut can leave
/// focus in the page, so the text would go to a page input instead.
pub fn reject_unsafe_browser_navigation_chord(
    info: &crate::platform::AdapterInfo,
    target: &crate::platform::TargetDescriptor,
    actions: &Vec<InputAction>,
) -> (r: Result<(), TendrilError>)
    ensures
        (info.platform != crate::platform::PlatformKind::Linux || info.session != crate::platform::DesktopSession::X11
            || target.kind != crate::platform::CaptureTargetKind::Window || !browser_target_spec(*target)
            || vulnerable_navigation(actions@) is None) <==> r is Ok,
        r matches Err(e) ==> (vulnerable_navigation(actions@) matches Some(i) && (actions@[i] matches InputAction::Send { text }
            && is_invalid(
            e,
            "invalid_run_input"@,
            "input_definition"@,
            "refusing X11 browser navigation through Ctrl+L followed by navigation text `"@ + summary_spec(text@)
                + "` because synthetic browser-chrome shortcuts can stay in the focused page control (observed with Firefox page inputs); use capture -> click the visible address bar -> Ctrl+A -> send URL/path -> Return -> recapture/verify instead"@,
        ) && is_text_detail(e.detail_spec("stage"@), "browser_navigation_preflight"@) && is_text_detail(
            e.detail_spec("pattern"@),
            "x11_browser_ctrl_l_url_send"@,
        ) && is_text_detail(e.detail_spec("target_id"@), target.id@) && e.detail_spec("action_index"@) == Some(
            DetailValue::Number(i as u64),
        ) && is_text_detail(e.detail_spec("url_preview"@), summary_spec(text@)))),
{
    if info.platform != crate::platform::PlatformKind::Linux || info.session != crate::platform::DesktopSession::X11
        || target.kind != crate::platform::CaptureTargetKind::Window || !looks_like_browser_target(target) {
        return Ok(());
    }
    let index = match vulnerable_ctrl_l_navigation(actions) {
        Some(i) => i,
        None => {
            return Ok(());
        },
    };
    proof {
        lemma_guard_keys_distinct();
        lemma_vulnerable_is_send(actions@);
    }
    let text = match &actions[index] {
        InputAction::Send { text } => text,
        _ => {
            proof {
                assert(false);
            }
            return Ok(());
        },
    };
    let summary = summarize_navigation_text(text.as_str());
    let mut message = owned("refusing X11 browser navigation through Ctrl+L followed by navigation text `");
    text::push_str(&mut message, summary.as_str());
    text::push_str(&mut message, "` because synthetic browser-chrome shortcuts can stay in the focused page control (observed with Firefox page inputs); use capture -> click the visible address bar -> Ctrl+A -> send URL/path -> Return -> recapture/verify instead");
    let opt = |o: &Option<String>| -> (d: DetailValue)
        {
            match o {
                Some(s) => DetailValue::Text(s.clone()),
                None => DetailValue::Null,
            }
        };
    let e = TendrilError::validation(message).with_code("invalid_run_input").with_field("input_definition")
        .with_detail_entry("stage", DetailValue::Text(owned("browser_navigation_preflight")))
        .with_detail_entry("pattern", DetailValue::Text(owned("x11_browser_ctrl_l_url_send")))
        .with_detail_entry("target_id", DetailValue::Text(target.id.clone()))
        .with_detail_entry("target_name", DetailValue::Text(target.name.clone()))
        .with_detail_entry("target_app_name", opt(&target.app_name))
        .with_detail_entry("target_title", opt(&target.title))
        .with_detail_entry("action_index", DetailValue::Number(index as u64))
        .with_detail_entry("url_preview", DetailValue::Text(summarize_navigation_text(text.as_str())))
        .with_detail_entry("navigation_text_preview", DetailValue::Text(summarize_navigation_text(text.as_str())))
        .with_detail_entry("remediation", DetailValue::Text(owned(
            "Do not rely on Ctrl+L/Cmd+L for browser navigation on X11 Firefox when a page input may already be focused. Capture the browser, click the visible address bar coordinates, run hold(ctrl),a,release(ctrl),send(\"URL_OR_PATH\"),Return, then recapture and verify the page changed before continuing.",
        )));
    Err(e)
}

pub open spec fn summary_spec(text: Seq<char>) -> Seq<char> {
    if text.len() > 96 {
        text.take(96).push('\u{2026}')
    } else {
        text
    }
}

proof fn lemma_submitted_is_send(actions: Seq<InputAction>, sig: Seq<int>, k: int, pending: Option<int>)
    requires
        forall|j: int| 0 <= j < sig.len() ==> 0 <= #[trigger] sig[j] < actions.len(),
        pending matches Some(p) ==> 0 <= p < actions.len() && is_navigation_send(actions[p]),
    ensures
        submitted_send(actions, sig, k, pending) matches Some(i) ==> 0 <= i < actions.len() && is_navigation_send(actions[i]),
    decreases sig.len() - k,
{
    if 0 <= k < sig.len() {
        let a = actions[sig[k]];
        if !is_pointer_break(a) {
            if is_navigation_send(a) {
                lemma_submitted_is_send(actions, sig, k + 1, Some(sig[k]));
            } else if !(is_return_key(a) && pending is Some) {
                lemma_submitted_is_send(actions, sig, k + 1, pending);
            }
        }
    }
}

proof fn lemma_vulnerable_from_is_send(actions: Seq<InputAction>, sig: Seq<int>, start: int)
    requires
        forall|j: int| 0 <= j < sig.len() ==> 0 <= #[trigger] sig[j] < actions.len(),
    ensures
        vulnerable_from(actions, sig, start) matches Some(i) ==> 0 <= i < actions.len() && is_navigation_send(actions[i]),
    decreases sig.len() - start,
{
    if 0 <= start && start + 3 <= sig.len() {
        lemma_submitted_is_send(actions, sig, start + 3, None);
        lemma_vulnerable_from_is_send(actions, sig, start + 1);
    }
}

proof fn lemma_significant_bounds(actions: Seq<InputAction>, n: int)
    requires
        0 <= n <= actions.len(),
    ensures
        forall|j: int| 0 <= j < significant(actions, n).len() ==> 0 <= #[trigger] significant(actions, n)[j] < n,
    decreases n,
{
    if n > 0 {
        lemma_significant_bounds(actions, n - 1);
        let p = significant(actions, n - 1);
        assert forall|j: int| 0 <= j < significant(actions, n).len() implies 0 <= #[trigger] significant(actions, n)[j] < n by {
            if j < p.len() {
                assert(significant(actions, n)[j] == p[j]);
            }
        }
    }
}

proof fn lemma_vulnerable_is_send(actions: Seq<InputAction>)
    ensures
        vulnerable_navigation(actions) matches Some(i) ==> 0 <= i < actions.len() && is_navigation_send(actions[i]),
{
    lemma_significant_bounds(actions, actions.len() as int);
    lemma_vulnerable_from_is_send(actions, significant(actions, actions.len() as int), 0);
}

// ---------------------------------------------------------------------------
// Checks against the resolved target
// ---------------------------------------------------------------------------

/// The points an action touches, each with the name used in diagnostics.
pub open spec fn action_points(a: InputAction) -> Seq<(i32, i32, Seq<char>)> {
    match a {
        InputAction::Click { x, y, .. } => seq![(x, y, "click"@)],
        InputAction::PointerMove { x, y } => seq![(x, y, "pointer_move"@)],
        InputAction::DoubleClick { x, y } => seq![(x, y, "double_click"@)],
        InputAction::Drag { x0, y0, x1, y1 } => seq![(x0, y0, "drag_start"@), (x1, y1, "drag_end"@)],
        InputAction::Scroll { x, y, .. } => seq![(x, y, "scroll"@)],
        _ => seq![],
    }
}

pub open spec fn clamp_dim(d: u32) -> int {
    if d > i32::MAX {
        i32::MAX as int
    } else {
        d as int
    }
}

/// A relative point outside the target's bounds.
pub open spec fn outside(x: i32, y: i32, b: Bounds) -> bool {
    x < 0 || y < 0 || x >= clamp_dim(b.width) || y >= clamp_dim(b.height)
}

/// The first point of `pts` outside the bounds.
pub open spec fn first_outside_point(pts: Seq<(i32, i32, Seq<char>)>, b: Bounds) -> Option<(i32, i32, Seq<char>)>
    decreases pts.len(),
{
    if pts.len() == 0 {
        None
    } else if outside(pts[0].0, pts[0].1, b) {
        Some(pts[0])
    } else {
        first_outside_point(pts.drop_first(), b)
    }
}

/// The first action (from `i` on) with a point outside the bounds.
pub open spec fn first_outside_action(actions: Seq<InputAction>, b: Bounds, i: int) -> Option<(int, (i32, i32, Seq<char>))>
    decreases actions.len() - i,
{
    if i < 0 || i >= actions.len() {
        None
    } else {
        match first_outside_point(action_points(actions[i]), b) {
            Some(p) => Some((i, p)),
            None => first_outside_action(actions, b, i + 1),
        }
    }
}

/// The diagnostic for a point outside the target.
pub open spec fn is_outside_error(e: TendrilError, index: int, p: (i32, i32, Seq<char>), b: Bounds) -> bool {
    &&& e.is_structured()
    &&& e.category_spec() == crate::envelope::ErrorCategory::Validation
    &&& e.code_spec() == "invalid_run_input"@
    &&& e.message_spec() == p.2 + " coordinates ("@ + text::signed_decimal(p.0 as int) + ", "@
        + text::signed_decimal(p.1 as int) + ") are outside target bounds "@ + text::decimal(b.width as nat)
        + "x"@ + text::decimal(b.height as nat)
    &&& is_text_detail(e.detail_spec("stage"@), "validate"@)
    &&& is_text_detail(e.detail_spec("field"@), p.2)
    &&& e.detail_spec("action_index"@) == Some(DetailValue::Number(index as u64))
    &&& e.detail_spec("action_number"@) == Some(DetailValue::Number((index + 1) as u64))
}

fn validate_relative_point(x: i32, y: i32, bounds: &Bounds, index: usize, field: &str) -> (r: Result<(), TendrilError>)
    requires
        index < usize::MAX,
    ensures
        r is Ok <==> !outside(x, y, *bounds),
        r matches Err(e) ==> is_outside_error(e, index as int, (x, y, field@), *bounds),
{
    let width: i64 = if bounds.width > 2147483647 { 2147483647 } else { bounds.width as i64 };
    let height: i64 = if bounds.height > 2147483647 { 2147483647 } else { bounds.height as i64 };
    if x < 0 || y < 0 || (x as i64) >= width || (y as i64) >= height {
        proof {
            lemma_detail_keys_distinct();
        }
        let mut message = owned(field);
        text::push_str(&mut message, " coordinates (");
        let xs = text::format_i64(x as i64);
        text::push_str(&mut message, xs.as_str());
        text::push_str(&mut message, ", ");
        let ys = text::format_i64(y as i64);
        text::push_str(&mut message, ys.as_str());
        text::push_str(&mut message, ") are outside target bounds ");
        let ws = text::format_u64(bounds.width as u64);
        text::push_str(&mut message, ws.as_str());
        text::push_str(&mut message, "x");
        let hs = text::format_u64(bounds.height as u64);
        text::push_str(&mut message, hs.as_str());
        let e = TendrilError::validation(message).with_code("invalid_run_input")
            .with_detail_entry("stage", DetailValue::Text(owned("validate")))
            .with_detail_entry("field", DetailValue::Text(owned(field)))
            .with_detail_entry("action_index", DetailValue::Number(index as u64))
            .with_detail_entry("action_number", DetailValue::Number(index as u64 + 1));
        return Err(e);
    }
    Ok(())
}

proof fn lemma_one_point(p: (i32, i32, Seq<char>), b: Bounds)
    ensures
        first_outside_point(seq![p], b) == (if outside(p.0, p.1, b) { Some(p) } else { None }),
{
    assert(seq![p].drop_first() =~= Seq::<(i32, i32, Seq<char>)>::empty());
    assert(first_outside_point(Seq::<(i32, i32, Seq<char>)>::empty(), b) is None);
    assert(seq![p][0] == p);
}

proof fn lemma_two_points(p: (i32, i32, Seq<char>), q: (i32, i32, Seq<char>), b: Bounds)
    ensures
        first_outside_point(seq![p, q], b) == (if outside(p.0, p.1, b) {
            Some(p)
        } else if outside(q.0, q.1, b) {
            Some(q)
        } else {
            None
        }),
{
    assert(seq![p, q].drop_first() =~= seq![q]);
    lemma_one_point(q, b);
}

fn check_action_points(a: &InputAction, bounds: &Bounds, i: usize) -> (r: Result<(), TendrilError>)
    requires
        i < usize::MAX,
    ensures
        match first_outside_point(action_points(*a), *bounds) {
            None => r is Ok,
            Some(p) => r matches Err(e) && is_outside_error(e, i as int, p, *bounds),
        },
{
    match a {
        InputAction::Click { x, y, .. } => {
            proof {
                lemma_one_point((*x, *y, "click"@), *bounds);
            }
            validate_relative_point(*x, *y, bounds, i, "click")
        },
        InputAction::PointerMove { x, y } => {
            proof {
                lemma_one_point((*x, *y, "pointer_move"@), *bounds);
            }
            validate_relative_point(*x, *y, bounds, i, "pointer_move")
        },
        InputAction::DoubleClick { x, y } => {
            proof {
                lemma_one_point((*x, *y, "double_click"@), *bounds);
            }
            validate_relative_point(*x, *y, bounds, i, "double_click")
        },
        InputAction::Drag { x0, y0, x1, y1 } => {
            proof {
                lemma_two_points((*x0, *y0, "drag_start"@), (*x1, *y1, "drag_end"@), *bounds);
            }
            match validate_relative_point(*x0, *y0, bounds, i, "drag_start") {
                Err(e) => Err(e),
                Ok(()) => validate_relative_point(*x1, *y1, bounds, i, "drag_end"),
            }
        },
        InputAction::Scroll { x, y, .. } => {
            proof {
                lemma_one_point((*x, *y, "scroll"@), *bounds);
            }
            validate_relative_point(*x, *y, bounds, i, "scroll")
        },
        _ => Ok(()),
    }
}

/// Checks every point of every action against the target's bounds, in order.
fn validate_actions_for_target(bounds: &Bounds, actions: &Vec<InputAction>) -> (r: Result<(), TendrilError>)
    ensures
        match first_outside_action(actions@, *bounds, 0) {
            None => r is Ok,
            Some((i, p)) => r matches Err(e) && is_outside_error(e, i, p, *bounds),
        },
{
    let mut i: usize = 0;
    while i < actions.len()
        invariant
            i <= actions@.len(),
            first_outside_action(actions@, *bounds, 0) == first_outside_action(actions@, *bounds, i as int),
        decreases actions.len() - i,
    {
        match check_action_points(&actions[i], bounds, i) {
            Err(e) => {
                return Err(e);
            },
            Ok(()) => {},
        }
        i += 1;
    }
    Ok(())
}

pub open spec fn kind_matches(sel: crate::model::TargetSelector, k: crate::platform::CaptureTargetKind) -> bool {
    match sel {
        crate::model::TargetSelector::Window { .. } => k == crate::platform::CaptureTargetKind::Window,
        crate::model::TargetSelector::Display { .. } => k == crate::platform::CaptureTargetKind::Display,
    }
}

/// The discovered target a run addresses: the first with the selector's
/// identifier and kind.
fn resolve_target_index(sel: &crate::model::TargetSelector, inventory: &crate::platform::TargetInventory) -> (r: Result<usize, TendrilError>)
    ensures
        match r {
            Ok(i) => i < inventory.targets@.len() && inventory.targets@[i as int].id@ == sel.id_spec() && kind_matches(
                *sel,
                inventory.targets@[i as int].kind,
            ) && forall|j: int| 0 <= j < i ==> !(#[trigger] inventory.targets@[j].id@ == sel.id_spec() && kind_matches(*sel, inventory.targets@[j].kind)),
            Err(e) => (forall|j: int| 0 <= j < inventory.targets@.len() ==> !(#[trigger] inventory.targets@[j].id@ == sel.id_spec() && kind_matches(*sel, inventory.targets@[j].kind)))
                && e.code_spec() == "target_not_found"@ && e.category_spec() == crate::envelope::ErrorCategory::TargetNotFound,
        },
{
    let id = text::chars_of(sel.id());
    let mut i: usize = 0;
    while i < inventory.targets.len()
        invariant
            i <= inventory.targets@.len(),
            id@ == sel.id_spec(),
            forall|j: int| 0 <= j < i ==> !(#[trigger] inventory.targets@[j].id@ == sel.id_spec() && kind_matches(*sel, inventory.targets@[j].kind)),
        decreases inventory.targets.len() - i,
    {
        let t = &inventory.targets[i];
        let kind_ok = match sel {
            crate::model::TargetSelector::Window { .. } => t.kind == crate::platform::CaptureTargetKind::Window,
            crate::model::TargetSelector::Display { .. } => t.kind == crate::platform::CaptureTargetKind::Display,
        };
        if kind_ok && text::same(text::chars_of(t.id.as_str()).as_slice(), id.as_slice()) {
            return Ok(i);
        }
        i += 1;
    }
    let kind = match sel {
        crate::model::TargetSelector::Window { .. } => "window",
        crate::model::TargetSelector::Display { .. } => "display",
    };
    Err(TendrilError::target_not_found(kind, sel.id()))
}

/// Input can only be sent to targets that support it.
fn ensure_input_supported(target: &crate::platform::TargetDescriptor) -> (r: Result<(), TendrilError>)
    ensures
        r is Ok <==> target.input_supported,
        r matches Err(e) ==> e.code_spec() == "input_not_supported_for_target"@ && e.category_spec()
            == crate::envelope::ErrorCategory::UnsupportedCapability && e.message_spec() == "target `"@ + target.id@
            + "` does not support input execution"@,
{
    if target.input_supported {
        Ok(())
    } else {
        let mut message = owned("target `");
        text::push_str(&mut message, target.id.as_str());
        text::push_str(&mut message, "` does not support input execution");
        let kind = match target.kind {
            crate::platform::CaptureTargetKind::Window => "window",
            crate::platform::CaptureTargetKind::Display => "display",
        };
        Err(TendrilError::unsupported_capability("input_not_supported_for_target", message)
            .with_detail_entry("target_id", DetailValue::Text(target.id.clone()))
            .with_detail_entry("target_kind", DetailValue::Text(owned(kind))))
    }
}

/// Splits a run payload into literal text and actions; an unparsable DSL
/// sequence yields no actions.
fn normalize_payload(payload: RunInputPayload) -> (r: (Option<String>, Vec<InputAction>))
    ensures
        match payload {
            RunInputPayload::Text { text } => r.0 == Some(text) && r.1@.len() == 0,
            RunInputPayload::Dsl { sequence } => r.0 is None && match dsl_spec(sequence@) {
                Ok(a) => actions_view(r.1@) == a,
                Err(_) => r.1@.len() == 0,
            },
            RunInputPayload::Actions { actions } => r.0 is None && r.1 == actions,
        },
{
    match payload {
        RunInputPayload::Text { text } => (Some(text), Vec::new()),
        RunInputPayload::Dsl { sequence } => match parse_dsl_sequence(sequence.as_str()) {
            Ok(actions) => (None, actions),
            Err(_) => (None, Vec::new()),
        },
        RunInputPayload::Actions { actions } => (None, actions),
    }
}

// ---------------------------------------------------------------------------
// Bare key sequences round-trip
// ---------------------------------------------------------------------------

/// Keys joined with commas.
pub open spec fn join_keys(keys: Seq<Seq<char>>) -> Seq<char>
    decreases keys.len(),
{
    if keys.len() <= 1 {
        if keys.len() == 1 {
            keys[0]
        } else {
            seq![]
        }
    } else {
        join_keys(keys.drop_last()) + seq![','] + keys.last()
    }
}

pub open spec fn is_key(k: Seq<char>) -> bool {
    k.len() > 0 && forall|i: int| 0 <= i < k.len() ==> key_char(#[trigger] k[i])
}

/// Text without quotes or parentheses: the scanner never leaves its start state.
pub open spec fn plain(cs: Seq<char>) -> bool {
    forall|j: int| 0 <= j < cs.len() ==> (#[trigger] cs[j] != '"' && cs[j] != '(' && cs[j] != ')')
}

proof fn lemma_plain_lex(cs: Seq<char>, i: int, m: bool)
    requires
        plain(cs),
        0 <= i <= cs.len(),
    ensures
        lex_at(cs, i, m) == (Lex { in_string: false, escape: false, depth: 0 }),
    decreases i,
{
    if i > 0 {
        lemma_plain_lex(cs, i - 1, m);
        assert(cs[i - 1] != '"' && cs[i - 1] != '(' && cs[i - 1] != ')');
    }
}

/// Pieces before `i` agree between a text and any extension of it.
proof fn lemma_prefix_pieces(a: Seq<char>, cs: Seq<char>, i: int)
    requires
        plain(cs),
        a.len() <= cs.len(),
        a == cs.take(a.len() as int),
        0 <= i <= a.len(),
    ensures
        raw_pieces_before(cs, i) == raw_pieces_before(a, i),
        last_comma_before(cs, i) == last_comma_before(a, i),
    decreases i,
{
    assert(plain(a)) by {
        assert forall|j: int| 0 <= j < a.len() implies (#[trigger] a[j] != '"' && a[j] != '(' && a[j] != ')') by {
            assert(a[j] == cs[j]);
        }
    }
    if i > 0 {
        lemma_prefix_pieces(a, cs, i - 1);
        lemma_plain_lex(cs, i - 1, false);
        lemma_plain_lex(a, i - 1, false);
        assert(a[i - 1] == cs[i - 1]);
        assert(top_level(cs, i - 1, ',', false) == top_level(a, i - 1, ',', false));
        if top_level(a, i - 1, ',', false) {
            lemma_piece_start_bounds(cs, i - 1);
            lemma_piece_start_bounds(a, i - 1);
            assert(cs.subrange(piece_start(cs, i - 1), i - 1) =~= a.subrange(piece_start(a, i - 1), i - 1));
        }
    }
}

/// Without commas in `[s, e)` nothing new is closed.
proof fn lemma_no_commas(cs: Seq<char>, s: int, e: int)
    requires
        plain(cs),
        0 <= s <= e <= cs.len(),
        forall|j: int| s <= j < e ==> cs[j] != ',',
    ensures
        raw_pieces_before(cs, e) == raw_pieces_before(cs, s),
        last_comma_before(cs, e) == last_comma_before(cs, s),
    decreases e - s,
{
    if e > s {
        lemma_no_commas(cs, s, e - 1);
        lemma_plain_lex(cs, e - 1, false);
        assert(!top_level(cs, e - 1, ',', false));
    }
}

proof fn lemma_join_keys(keys: Seq<Seq<char>>)
    requires
        keys.len() >= 1,
        forall|k: int| 0 <= k < keys.len() ==> is_key(#[trigger] keys[k]),
    ensures
        plain(join_keys(keys)),
        forall|j: int| 0 <= j < join_keys(keys).len() ==> (key_char(#[trigger] join_keys(keys)[j]) || join_keys(keys)[j] == ','),
        raw_pieces(join_keys(keys)) == keys,
        join_keys(keys).len() > 0,
        key_char(join_keys(keys)[0]),
        key_char(join_keys(keys).last()),
    decreases keys.len(),
{
    let cs = join_keys(keys);
    if keys.len() == 1 {
        let k = keys[0];
        assert(cs == k);
        assert(is_key(k));
        assert(plain(cs)) by {
            assert forall|j: int| 0 <= j < cs.len() implies (#[trigger] cs[j] != '"' && cs[j] != '(' && cs[j] != ')') by {
                assert(key_char(k[j]));
            }
        }
        assert forall|j: int| 0 <= j < cs.len() implies (key_char(#[trigger] cs[j]) || cs[j] == ',') by {
            assert(key_char(k[j]));
        }
        assert forall|j: int| 0 <= j < cs.len() implies cs[j] != ',' by {
            assert(key_char(k[j]));
        }
        lemma_no_commas(cs, 0, cs.len() as int);
        assert(raw_pieces_before(cs, 0) == Seq::<Seq<char>>::empty());
        assert(last_comma_before(cs, 0) == -1);
        assert(cs.subrange(0, cs.len() as int) =~= k);
        assert(raw_pieces(cs) =~= keys);
        assert(key_char(k[0]));
        assert(key_char(k[k.len() - 1]));
    } else {
        let init = keys.drop_last();
        let k = keys.last();
        assert forall|m: int| 0 <= m < init.len() implies is_key(#[trigger] init[m]) by {
            assert(init[m] == keys[m]);
        }
        lemma_join_keys(init);
        let a = join_keys(init);
        assert(is_key(keys[keys.len() - 1]));
        assert(cs == a + seq![','] + k);
        let n = cs.len() as int;
        let al = a.len() as int;
        assert forall|j: int| 0 <= j < cs.len() implies (key_char(#[trigger] cs[j]) || cs[j] == ',') by {
            if j < al {
                assert(cs[j] == a[j]);
            } else if j > al {
                assert(cs[j] == k[j - al - 1]);
                assert(key_char(k[j - al - 1]));
            }
        }
        assert(plain(cs)) by {
            assert forall|j: int| 0 <= j < cs.len() implies (#[trigger] cs[j] != '"' && cs[j] != '(' && cs[j] != ')') by {
                assert(key_char(cs[j]) || cs[j] == ',');
            }
        }
        assert(a =~= cs.take(al));
        lemma_prefix_pieces(a, cs, al);
        lemma_plain_lex(cs, al, false);
        assert(cs[al] == ',');
        assert(top_level(cs, al, ',', false));
        lemma_piece_start_bounds(cs, al);
        lemma_piece_start_bounds(a, al);
        assert(cs.subrange(piece_start(cs, al), al) =~= a.subrange(piece_start(a, al), al));
        assert(raw_pieces_before(cs, al + 1) == raw_pieces(a));
        assert(last_comma_before(cs, al + 1) == al);
        assert forall|j: int| al + 1 <= j < n implies cs[j] != ',' by {
            assert(cs[j] == k[j - al - 1]);
            assert(key_char(k[j - al - 1]));
        }
        lemma_no_commas(cs, al + 1, n);
        assert(cs.subrange(al + 1, n) =~= k);
        assert(raw_pieces(cs) == raw_pieces(a).push(k));
        assert(raw_pieces(cs) =~= keys);
        assert(cs[0] == a[0]);
        assert(cs.last() == k.last());
        assert(key_char(k[k.len() - 1]));
    }
}

proof fn lemma_key_trimmed(k: Seq<char>)
    requires
        is_key(k),
    ensures
        trim(k) == k,
        key_token_spec(k) == Some(lower(k)),
        !has_char(k, '('),
{
    assert(key_char(k[0]));
    assert(lead_ws_zero(k));
    text::lemma_lead_ws(k);
    assert(text::lead_ws(k) == 0);
    assert(text::trim_start(k) =~= k);
    assert(key_char(k[k.len() - 1]));
    assert(text::trail_ws(k) == 0);
    assert(trim(k) =~= k);
    if has_char(k, '(') {
        let i = choose|i: int| 0 <= i < k.len() && k[i] == '(';
        assert(key_char(k[i]));
    }
}

spec fn lead_ws_zero(k: Seq<char>) -> bool {
    k.len() > 0 ==> !is_ws(k[0])
}

/// What `parse_input_definition` gives for two or more bare key tokens
/// joined by commas: a payload of key taps of the lower-cased keys, one per
/// key, in order.
pub proof fn law_bare_keys_parse_to_key_taps(keys: Seq<Seq<char>>, r: Result<RunInputPayload, TendrilError>)
    requires
        keys.len() >= 2,
        forall|k: int| 0 <= k < keys.len() ==> is_key(#[trigger] keys[k]),
        input_definition_result(join_keys(keys), r),
    ensures
        r matches Ok(p) && payload_view(p) == Some(
            SPayload::Actions(Seq::new(keys.len(), |k: int| SAction::KeyTap(lower(keys[k])))),
        ),
{
    lemma_bare_key_sequence_round_trip(keys);
}

/// Keys joined by commas with no surrounding whitespace parse, by every step
/// of `parse_input_definition`, into key taps of the lower-cased keys in
/// order: the input has no top-level `;`, no `(`, a top-level comma, every
/// piece is a bare key token, and the DSL reading succeeds with those taps.
pub proof fn lemma_bare_key_sequence_round_trip(keys: Seq<Seq<char>>)
    requires
        keys.len() >= 2,
        forall|k: int| 0 <= k < keys.len() ==> is_key(#[trigger] keys[k]),
    ensures
        ({
            let input = join_keys(keys);
            &&& first_semicolon(input) is None
            &&& !has_char(input, '(')
            &&& exists|j: int| top_level(input, j, ',', true)
            &&& bare_key_sequence(input)
            &&& dsl_spec(input) == Ok::<Seq<SAction>, DslFailure>(
                Seq::new(keys.len(), |k: int| SAction::KeyTap(lower(keys[k]))),
            )
        }),
{
    let input = join_keys(keys);
    lemma_join_keys(keys);
    let n = input.len() as int;
    let rp = raw_pieces(input);
    // No `;` and no `(` anywhere.
    assert forall|j: int| !top_level(input, j, ';', true) by {
        if 0 <= j < n {
            assert(key_char(input[j]) || input[j] == ',');
        }
    }
    assert(first_semicolon(input) is None);
    if has_char(input, '(') {
        let i = choose|i: int| 0 <= i < n && input[i] == '(';
        assert(key_char(input[i]) || input[i] == ',');
    }
    // A comma closes the first key.
    let first_len = keys[0].len() as int;
    lemma_join_prefix_comma(keys);
    lemma_plain_lex(input, first_len, true);
    assert(top_level(input, first_len, ',', true));
    // Every piece is a key.
    assert forall|k: int| 0 <= k < rp.len() implies bare_key_piece(#[trigger] rp[k]) by {
        assert(rp[k] == keys[k]);
        lemma_key_trimmed(keys[k]);
    }
    // The DSL reading.
    assert(key_char(input[0]));
    assert(key_char(input.last()));
    lemma_key_trimmed_text(input);
    assert(trim(input) == input);
    lemma_split_plain_keys(input, keys);
    let segs = pieces(input);
    assert(segs =~= keys) by {
        assert forall|k: int| 0 <= k < keys.len() implies segs[k] == keys[k] by {
            lemma_key_trimmed(keys[k]);
        }
    }
    assert forall|k: int| 0 <= k < segs.len() implies action_spec(#[trigger] segs[k]) == Ok::<SAction, Fail>(
        SAction::KeyTap(lower(keys[k])),
    ) by {
        lemma_key_trimmed(keys[k]);
    }
    if exists|k: int| 0 <= k < segs.len() && action_spec(segs[k]) is Err {
        let k = choose|k: int| 0 <= k < segs.len() && action_spec(segs[k]) is Err;
        assert(action_spec(segs[k]) is Ok);
    }
    assert(first_bad_segment(segs) is None);
    assert(Seq::new(segs.len(), |k: int| action_spec(segs[k])->Ok_0) =~= Seq::new(
        keys.len(),
        |k: int| SAction::KeyTap(lower(keys[k])),
    ));
}

/// The first key of a joined sequence is followed by a comma.
proof fn lemma_join_prefix_comma(keys: Seq<Seq<char>>)
    requires
        keys.len() >= 2,
        forall|k: int| 0 <= k < keys.len() ==> is_key(#[trigger] keys[k]),
    ensures
        keys[0].len() < join_keys(keys).len(),
        join_keys(keys)[keys[0].len() as int] == ',',
    decreases keys.len(),
{
    let init = keys.drop_last();
    assert forall|m: int| 0 <= m < init.len() implies is_key(#[trigger] init[m]) by {
        assert(init[m] == keys[m]);
    }
    if keys.len() == 2 {
        assert(join_keys(init) == keys[0]);
    } else {
        lemma_join_prefix_comma(init);
        assert(init[0] == keys[0]);
    }
    let a = join_keys(init);
    assert(join_keys(keys) == a + seq![','] + keys.last());
    if keys.len() == 2 {
        assert(join_keys(keys)[keys[0].len() as int] == ',');
    } else {
        assert(join_keys(keys)[keys[0].len() as int] == a[keys[0].len() as int]);
    }
}

/// Text that starts and ends with a key character is its own trim.
proof fn lemma_key_trimmed_text(t: Seq<char>)
    requires
        t.len() > 0,
        key_char(t[0]),
        key_char(t.last()),
    ensures
        trim(t) == t,
{
    assert(text::lead_ws(t) == 0);
    assert(text::trim_start(t) =~= t);
    assert(text::trail_ws(t) == 0);
    assert(trim(t) =~= t);
}

/// Splitting a plain comma-joined key sequence yields its pieces.
proof fn lemma_split_plain_keys(input: Seq<char>, keys: Seq<Seq<char>>)
    requires
        plain(input),
        raw_pieces(input) == keys,
        keys.len() >= 1,
        forall|k: int| 0 <= k < keys.len() ==> is_key(#[trigger] keys[k]),
        forall|j: int| 0 <= j < input.len() ==> (key_char(#[trigger] input[j]) || input[j] == ','),
    ensures
        split_spec(input) == Ok::<Seq<Seq<char>>, SplitFailure>(pieces(input)),
{
    let n = input.len() as int;
    assert forall|i: int| 0 <= i < n implies !#[trigger] split_blocked_at(input, i) by {
        lemma_plain_lex(input, i, false);
        assert(key_char(input[i]) || input[i] == ',');
        if empty_action_at(input, i) {
            // the piece closed here is one of the keys
            let m = raw_pieces_before(input, i).len() as int;
            lemma_raw_pieces_prefix(input, i + 1, n);
            lemma_piece_start_bounds(input, i + 1);
            lemma_piece_start_bounds(input, n);
            assert(raw_pieces_before(input, i + 1)[m] == input.subrange(piece_start(input, i), i));
            assert(raw_pieces(input)[m] == input.subrange(piece_start(input, i), i));
            let k = keys[m];
            assert(is_key(k));
            lemma_key_trimmed(k);
            assert(trim(k).len() > 0);
        }
    }
    if exists|i: int| 0 <= i < n && split_blocked_at(input, i) {
        let i = choose|i: int| 0 <= i < n && split_blocked_at(input, i);
        assert(!split_blocked_at(input, i));
    }
    assert(first_block(input) is None);
    lemma_plain_lex(input, n, false);
    lemma_piece_start_bounds(input, n);
    let last = keys[keys.len() - 1];
    assert(raw_pieces(input).last() == input.subrange(piece_start(input, n), n));
    lemma_key_trimmed(last);
}

} // verus!
