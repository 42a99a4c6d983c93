use vstd::prelude::*;

use crate::text::{byte_len, chars_of, char_len_utf16, char_len_utf8, lemma_take_next, utf16_len};

verus! {

/// A place in a text as an editor addresses it: a zero-based line and a
/// zero-based column counted in UTF-16 code units.
#[derive(Clone, Copy, Debug, PartialEq, Eq, Structural)]
pub struct Position {
    pub line: u32,
    pub character: u32,
}

/// A span of text between two positions.
#[derive(Clone, Copy, Debug, PartialEq, Eq, Structural)]
pub struct Range {
    pub start: Position,
    pub end: Position,
}

/// Byte offset of the character at index `k`.
pub open spec fn byte_at(s: Seq<char>, k: int) -> nat {
    byte_len(s.take(k))
}

/// Line of the character at index `k`: the line breaks before it.
pub open spec fn line_of(s: Seq<char>, k: int) -> nat
    decreases k,
{
    if k <= 0 {
        0
    } else if s[k - 1] == '\n' {
        line_of(s, k - 1) + 1
    } else {
        line_of(s, k - 1)
    }
}

/// Column of the character at index `k`: the UTF-16 code units since the
/// start of its line.
pub open spec fn col_of(s: Seq<char>, k: int) -> nat
    decreases k,
{
    if k <= 0 {
        0
    } else if s[k - 1] == '\n' {
        0
    } else {
        col_of(s, k - 1) + utf16_len(s[k - 1])
    }
}

/// The character at index `k` does not come after position `p`.
pub open spec fn at_or_before(s: Seq<char>, k: int, p: Position) -> bool {
    line_of(s, k) < p.line || (line_of(s, k) == p.line && col_of(s, k) <= p.character)
}

/// The last index up to `n` whose byte offset does not pass `o`.
pub open spec fn index_by_offset(s: Seq<char>, o: int, n: int) -> int
    decreases n,
{
    if n <= 0 {
        0
    } else if byte_at(s, n) <= o {
        n
    } else {
        index_by_offset(s, o, n - 1)
    }
}

/// The last index up to `n` that does not come after `p`.
pub open spec fn index_by_position(s: Seq<char>, p: Position, n: int) -> int
    decreases n,
{
    if n <= 0 {
        0
    } else if at_or_before(s, n, p) {
        n
    } else {
        index_by_position(s, p, n - 1)
    }
}

/// The position of the character at index `k`.
pub open spec fn position_of_index(s: Seq<char>, k: int) -> Position {
    Position { line: line_of(s, k) as u32, character: col_of(s, k) as u32 }
}

/// The position of byte offset `o`; an offset inside a character or past the
/// end rounds down to the last character boundary before it.
pub open spec fn position_of_offset(s: Seq<char>, o: int) -> Position {
    position_of_index(s, index_by_offset(s, o, s.len() as int))
}

/// The byte offset of position `p`; a column past the end of its line means
/// the end of the line, a line past the last one the end of the text, and a
/// column inside a surrogate pair the start of that character.
pub open spec fn offset_of_position(s: Seq<char>, p: Position) -> nat {
    byte_at(s, index_by_position(s, p, s.len() as int))
}

/// `o` is a character boundary of `s`.
pub open spec fn is_boundary(s: Seq<char>, o: int) -> bool {
    exists|k: int| 0 <= k <= s.len() && #[trigger] byte_at(s, k) == o
}

/// `p` addresses a character boundary of `s`.
pub open spec fn is_valid_position(s: Seq<char>, p: Position) -> bool {
    exists|k: int| 0 <= k <= s.len() && #[trigger] position_of_index(s, k) == p
}

/// Byte offsets grow strictly with the character index.
pub proof fn lemma_byte_at_strict(s: Seq<char>, j: int, k: int)
    requires
        0 <= j < k <= s.len(),
    ensures
        byte_at(s, j) < byte_at(s, k),
    decreases k - j,
{
    lemma_take_next(s, k - 1);
    if j < k - 1 {
        lemma_byte_at_strict(s, j, k - 1);
    }
}

/// Positions grow strictly, in the order of lines and then columns, with the
/// character index.
pub proof fn lemma_position_strict(s: Seq<char>, j: int, k: int)
    requires
        0 <= j < k <= s.len(),
    ensures
        line_of(s, j) < line_of(s, k) || (line_of(s, j) == line_of(s, k) && col_of(s, j) < col_of(
            s,
            k,
        )),
    decreases k - j,
{
    if j < k - 1 {
        lemma_position_strict(s, j, k - 1);
    }
}

/// Lines, columns and byte offsets of a prefix stay within its byte length.
pub proof fn lemma_index_bounds(s: Seq<char>, k: int)
    requires
        0 <= k <= s.len(),
    ensures
        line_of(s, k) <= k <= byte_at(s, k),
        col_of(s, k) <= byte_at(s, k),
        byte_at(s, k) <= byte_len(s),
    decreases k,
{
    if k > 0 {
        lemma_index_bounds(s, k - 1);
        lemma_take_next(s, k - 1);
    }
    if k < s.len() {
        lemma_byte_at_strict(s, k, s.len() as int);
    }
    assert(s.take(s.len() as int) =~= s);
}

/// Position `position_of_index(s, k)` names exactly the character boundary `k`,
/// from either side of the conversion.
pub proof fn lemma_boundary_conversions(s: Seq<char>, k: int)
    requires
        0 <= k <= s.len(),
        byte_len(s) <= u32::MAX,
    ensures
        index_by_offset(s, byte_at(s, k) as int, s.len() as int) == k,
        index_by_position(s, position_of_index(s, k), s.len() as int) == k,
        position_of_index(s, k).line == line_of(s, k),
        position_of_index(s, k).character == col_of(s, k),
{
    lemma_index_bounds(s, k);
    if k < s.len() {
        lemma_byte_at_strict(s, k, k + 1);
        lemma_position_strict(s, k, k + 1);
    }
    lemma_index_by_offset_is(s, byte_at(s, k) as int, s.len() as int, k);
    lemma_index_by_position_is(s, position_of_index(s, k), s.len() as int, k);
}

/// From a character boundary to a position and back gives the same offset.
pub proof fn lemma_offset_round_trip(s: Seq<char>, o: int)
    requires
        is_boundary(s, o),
        byte_len(s) <= u32::MAX,
    ensures
        offset_of_position(s, position_of_offset(s, o)) == o,
{
    let k = choose|k: int| 0 <= k <= s.len() && #[trigger] byte_at(s, k) == o;
    lemma_boundary_conversions(s, k);
}

/// From a valid position to a byte offset and back gives the same position.
pub proof fn lemma_position_round_trip(s: Seq<char>, p: Position)
    requires
        is_valid_position(s, p),
        byte_len(s) <= u32::MAX,
    ensures
        position_of_offset(s, offset_of_position(s, p) as int) == p,
{
    let k = choose|k: int| 0 <= k <= s.len() && #[trigger] position_of_index(s, k) == p;
    lemma_boundary_conversions(s, k);
}

proof fn lemma_index_by_offset_is(s: Seq<char>, o: int, n: int, i: int)
    requires
        0 <= i <= n <= s.len(),
        byte_at(s, i) <= o,
        i == n || byte_at(s, i + 1) > o,
    ensures
        index_by_offset(s, o, n) == i,
    decreases n,
{
    if n > i {
        if n > i + 1 {
            lemma_byte_at_strict(s, i + 1, n);
        }
        lemma_index_by_offset_is(s, o, n - 1, i);
    }
}

proof fn lemma_index_by_position_is(s: Seq<char>, p: Position, n: int, i: int)
    requires
        0 <= i <= n <= s.len(),
        at_or_before(s, i, p),
        i == n || !at_or_before(s, i + 1, p),
    ensures
        index_by_position(s, p, n) == i,
    decreases n,
{
    if n > i {
        if n > i + 1 {
            lemma_position_strict(s, i + 1, n);
        }
        lemma_index_by_position_is(s, p, n - 1, i);
    }
}

/// Index of the last character boundary at or before byte offset `o`, with
/// the position and byte offset of that boundary.
fn scan_to_offset(s: &Vec<char>, o: usize) -> (r: (usize, usize, usize, usize))
    requires
        byte_len(s@) <= u32::MAX,
    ensures
        r.0 == index_by_offset(s@, o as int, s@.len() as int),
        r.1 == byte_at(s@, r.0 as int),
        r.2 == line_of(s@, r.0 as int),
        r.3 == col_of(s@, r.0 as int),
        r.0 <= s@.len(),
{
    let n = s.len();
    let mut i: usize = 0;
    let mut b: usize = 0;
    let mut line: usize = 0;
    let mut col: usize = 0;
    proof {
        assert(s@.take(0) =~= Seq::<char>::empty());
    }
    while i < n
        invariant
            n == s@.len(),
            byte_len(s@) <= u32::MAX,
            i <= n,
            b == byte_at(s@, i as int),
            line == line_of(s@, i as int),
            col == col_of(s@, i as int),
            b <= o,
        decreases n - i,
    {
        let c = s[i];
        proof {
            lemma_take_next(s@, i as int);
            lemma_index_bounds(s@, i as int + 1);
        }
        let nb = b + char_len_utf8(c);
        if nb > o {
            proof {
                lemma_index_by_offset_is(s@, o as int, n as int, i as int);
            }
            return (i, b, line, col);
        }
        if c == '\n' {
            line = line + 1;
            col = 0;
        } else {
            col = col + char_len_utf16(c);
        }
        b = nb;
        i = i + 1;
    }
    proof {
        lemma_index_by_offset_is(s@, o as int, n as int, i as int);
    }
    (i, b, line, col)
}

/// Index of the last character boundary that does not come after `p`, with
/// its byte offset.
pub(crate) fn scan_index(s: &Vec<char>, p: Position) -> (r: (usize, usize))
    requires
        byte_len(s@) <= usize::MAX,
    ensures
        r.0 == index_by_position(s@, p, s@.len() as int),
        r.1 == byte_at(s@, r.0 as int),
        r.0 <= s@.len(),
{
    let n = s.len();
    let mut i: usize = 0;
    let mut b: usize = 0;
    let mut line: usize = 0;
    let mut col: usize = 0;
    proof {
        assert(s@.take(0) =~= Seq::<char>::empty());
    }
    while i < n
        invariant
            n == s@.len(),
            byte_len(s@) <= usize::MAX,
            i <= n,
            b == byte_at(s@, i as int),
            line == line_of(s@, i as int),
            col == col_of(s@, i as int),
            at_or_before(s@, i as int, p),
        decreases n - i,
    {
        let c = s[i];
        proof {
            lemma_take_next(s@, i as int);
            lemma_index_bounds(s@, i as int + 1);
        }
        let (next_line, next_col) = if c == '\n' {
            (line + 1, 0)
        } else {
            (line, col + char_len_utf16(c))
        };
        if !(next_line < p.line as usize || (next_line == p.line as usize && next_col
            <= p.character as usize)) {
            proof {
                lemma_index_by_position_is(s@, p, n as int, i as int);
            }
            return (i, b);
        }
        b = b + char_len_utf8(c);
        line = next_line;
        col = next_col;
        i = i + 1;
    }
    proof {
        lemma_index_by_position_is(s@, p, n as int, i as int);
    }
    (i, b)
}

/// The position of byte offset `o` in `s`.
pub fn position_in(s: &Vec<char>, o: u32) -> (r: Position)
    requires
        byte_len(s@) <= u32::MAX,
    ensures
        r == position_of_offset(s@, o as int),
{
    let (i, _b, line, col) = scan_to_offset(s, o as usize);
    proof {
        lemma_index_bounds(s@, i as int);
    }
    Position { line: line as u32, character: col as u32 }
}

/// The byte offset of position `p` in `s`.
pub fn offset_in(s: &Vec<char>, p: Position) -> (r: usize)
    requires
        byte_len(s@) <= usize::MAX,
    ensures
        r == offset_of_position(s@, p),
{
    let (_i, b) = scan_index(s, p);
    b
}

} // verus!

verus! {

/// Byte offsets of the line breaks among the first `k` characters.
pub open spec fn line_breaks_before(s: Seq<char>, k: int) -> Seq<nat>
    decreases k,
{
    if k <= 0 {
        Seq::empty()
    } else if s[k - 1] == '\n' {
        line_breaks_before(s, k - 1).push(byte_at(s, k - 1))
    } else {
        line_breaks_before(s, k - 1)
    }
}

/// Byte offsets of the line breaks of `s`, in order.
pub open spec fn line_breaks(s: Seq<char>) -> Seq<nat> {
    line_breaks_before(s, s.len() as int)
}

/// The byte offset of every `\n` of `text`, in order.
pub fn find_line_breaks(text: &str) -> (r: Vec<usize>)
    requires
        byte_len(text@) <= usize::MAX,
    ensures
        r@.len() == line_breaks(text@).len(),
        forall|i: int| 0 <= i < r@.len() ==> r@[i] == line_breaks(text@)[i],
{
    let s = chars_of(text);
    let n = s.len();
    let mut r: Vec<usize> = Vec::new();
    let mut i: usize = 0;
    let mut b: usize = 0;
    proof {
        assert(s@.take(0) =~= Seq::<char>::empty());
    }
    while i < n
        invariant
            s@ == text@,
            n == s@.len(),
            byte_len(s@) <= usize::MAX,
            i <= n,
            b == byte_at(s@, i as int),
            r@.len() == line_breaks_before(s@, i as int).len(),
            forall|j: int| 0 <= j < r@.len() ==> r@[j] == line_breaks_before(s@, i as int)[j],
        decreases n - i,
    {
        let c = s[i];
        proof {
            lemma_take_next(s@, i as int);
            lemma_index_bounds(s@, i as int + 1);
        }
        if c == '\n' {
            r.push(b);
        }
        b = b + char_len_utf8(c);
        i = i + 1;
    }
    r
}

/// The byte offset of `position` in `text`.
pub fn convert_position(text: &str, position: Position) -> (r: usize)
    requires
        byte_len(text@) <= usize::MAX,
    ensures
        r == offset_of_position(text@, position),
{
    let s = chars_of(text);
    offset_in(&s, position)
}

/// Index of the last line break at or before `offset`, if any.
pub fn line_break_index(line_breaks: &Vec<usize>, offset: usize) -> (r: Option<usize>)
    ensures
        match r {
            None => forall|j: int| 0 <= j < line_breaks@.len() ==> line_breaks@[j] > offset,
            Some(i) => {
                &&& i < line_breaks@.len()
                &&& line_breaks@[i as int] <= offset
                &&& forall|j: int| i < j < line_breaks@.len() ==> line_breaks@[j] > offset
            },
        },
{
    let mut i = line_breaks.len();
    while i > 0
        invariant
            i <= line_breaks@.len(),
            forall|j: int| i <= j < line_breaks@.len() ==> line_breaks@[j] > offset,
        decreases i,
    {
        if line_breaks[i - 1] <= offset {
            return Some(i - 1);
        }
        i = i - 1;
    }
    None
}

} // verus!
