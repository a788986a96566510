//! Character scanning, line/column addressing, and range edits over document
//! text.
//!
//! Positions are zero-based `(line, column)` pairs over the current text, and
//! columns count characters (Unicode scalar values), the one counting unit
//! this crate uses throughout.

use vstd::prelude::*;

verus! {

/// Index of the first occurrence of `c` in `s` at or after `from`, or
/// `s.len()` when there is none.
pub open spec fn find_from(s: Seq<char>, from: int, c: char) -> int
    decreases s.len() - from,
{
    if from < 0 || from >= s.len() {
        s.len() as int
    } else if s[from] == c {
        from
    } else {
        find_from(s, from + 1, c)
    }
}

pub proof fn lemma_find_from(s: Seq<char>, from: int, c: char)
    requires
        0 <= from <= s.len(),
    ensures
        from <= find_from(s, from, c) <= s.len(),
        find_from(s, from, c) < s.len() ==> s[find_from(s, from, c)] == c,
        forall|j: int| from <= j < find_from(s, from, c) ==> s[j] != c,
    decreases s.len() - from,
{
    if from < s.len() && s[from] != c {
        lemma_find_from(s, from + 1, c);
    }
}

/// Executable counterpart of [`find_from`].
pub fn find_char(s: &str, from: usize, c: char) -> (r: usize)
    requires
        from <= s@.len(),
    ensures
        r == find_from(s@, from as int, c),
{
    let n = s.unicode_len();
    let mut i: usize = from;
    while i < n
        invariant
            from <= i <= n,
            n == s@.len(),
            find_from(s@, from as int, c) == find_from(s@, i as int, c),
        decreases n - i,
    {
        let ch = s.get_char(i);
        if ch == c {
            assert(find_from(s@, i as int, c) == i as int);
            return i;
        }
        assert(find_from(s@, i as int, c) == find_from(s@, i + 1, c));
        i += 1;
    }
    assert(find_from(s@, i as int, c) == i as int);
    n
}

/// Start offset of the zero-based line `line`, if the text has that many
/// lines. A line is ended by `'\n'`; the final line is ended by the end of
/// the text, so a text always has `(number of newlines) + 1` lines.
pub open spec fn line_start(t: Seq<char>, line: int) -> Option<int>
    decreases line,
{
    if line < 0 {
        None
    } else if line == 0 {
        Some(0)
    } else {
        match line_start(t, line - 1) {
            Some(s) => {
                let p = find_from(t, s, '\n');
                if p < t.len() {
                    Some(p + 1)
                } else {
                    None
                }
            },
            None => None,
        }
    }
}

/// Offset one past the content of the line starting at `s`: the position of
/// its newline, or the end of the text for the final line.
pub open spec fn line_end(t: Seq<char>, s: int) -> int {
    find_from(t, s, '\n')
}

/// The character offset addressed by the zero-based `(line, col)` pair, if
/// the pair is in bounds: the line must exist and the column must not pass
/// the end of that line's content.
pub open spec fn offset_of(t: Seq<char>, line: int, col: int) -> Option<int> {
    match line_start(t, line) {
        Some(s) => if 0 <= col <= line_end(t, s) - s {
            Some(s + col)
        } else {
            None
        },
        None => None,
    }
}

pub proof fn lemma_line_start_bounds(t: Seq<char>, line: int)
    requires
        line_start(t, line) is Some,
    ensures
        0 <= line_start(t, line)->0 <= t.len(),
    decreases line,
{
    if line > 0 {
        lemma_line_start_bounds(t, line - 1);
        lemma_find_from(t, line_start(t, line - 1)->0, '\n');
    }
}

pub proof fn lemma_line_start_none(t: Seq<char>, l1: int, l2: int)
    requires
        0 <= l1 <= l2,
        line_start(t, l1) is None,
    ensures
        line_start(t, l2) is None,
    decreases l2 - l1,
{
    if l2 > l1 {
        lemma_line_start_none(t, l1, l2 - 1);
    }
}

/// Translate a zero-based `(line, col)` pair into a character offset into
/// `text`, or `None` when the pair does not address a position of `text`.
pub fn line_col_to_offset(text: &str, line: usize, col: usize) -> (r: Option<usize>)
    ensures
        r matches Some(o) ==> offset_of(text@, line as int, col as int) == Some(o as int),
        r is None ==> offset_of(text@, line as int, col as int) is None,
{
    let n = text.unicode_len();
    let mut l: usize = 0;
    let mut s: usize = 0;
    while l < line
        invariant
            l <= line,
            s <= n,
            n == text@.len(),
            line_start(text@, l as int) == Some(s as int),
        decreases line - l,
    {
        proof {
            lemma_find_from(text@, s as int, '\n');
        }
        let p = find_char(text, s, '\n');
        if p == n {
            assert(line_start(text@, l + 1) is None);
            proof {
                lemma_line_start_none(text@, l + 1, line as int);
            }
            return None;
        }
        s = p + 1;
        l += 1;
    }
    proof {
        lemma_find_from(text@, s as int, '\n');
    }
    let e = find_char(text, s, '\n');
    if col <= e - s {
        Some(s + col)
    } else {
        None
    }
}

/// The pair of character offsets addressed by a line/column range, if both
/// ends are in bounds and in order.
pub open spec fn edit_offsets(t: Seq<char>, sl: int, sc: int, el: int, ec: int) -> Option<
    (int, int),
> {
    match (offset_of(t, sl, sc), offset_of(t, el, ec)) {
        (Some(b), Some(e)) => if b <= e {
            Some((b, e))
        } else {
            None
        },
        _ => None,
    }
}

pub proof fn lemma_offset_of_bounds(t: Seq<char>, line: int, col: int)
    requires
        offset_of(t, line, col) is Some,
    ensures
        0 <= offset_of(t, line, col)->0 <= t.len(),
{
    lemma_line_start_bounds(t, line);
    lemma_find_from(t, line_start(t, line)->0, '\n');
}

/// The text with the character range `[b, e)` replaced by `ins`.
pub open spec fn splice(t: Seq<char>, b: int, e: int, ins: Seq<char>) -> Seq<char>
    recommends
        0 <= b <= e <= t.len(),
{
    t.subrange(0, b) + ins + t.subrange(e, t.len() as int)
}

/// Executable counterpart of [`splice`].
pub fn replace_range(text: &str, b: usize, e: usize, ins: &str) -> (r: String)
    requires
        b <= e,
        e <= text@.len(),
    ensures
        r@ == splice(text@, b as int, e as int, ins@),
{
    let n = text.unicode_len();
    let mut r = String::from_str(text.substring_char(0, b));
    r.append(ins);
    r.append(text.substring_char(e, n));
    assert(r@ =~= splice(text@, b as int, e as int, ins@));
    r
}

/// Law: applying an edit and then its semantic inverse — putting back, at the
/// same start position, exactly the text the edit replaced — restores the
/// original text.
pub proof fn lemma_edit_round_trip(t: Seq<char>, b: int, e: int, ins: Seq<char>)
    requires
        0 <= b <= e <= t.len(),
    ensures
        splice(splice(t, b, e, ins), b, b + ins.len(), t.subrange(b, e)) == t,
{
    let u = splice(t, b, e, ins);
    assert(u.subrange(0, b) =~= t.subrange(0, b));
    assert(u.subrange(b + ins.len(), u.len() as int) =~= t.subrange(e, t.len() as int));
    assert(splice(u, b, b + ins.len(), t.subrange(b, e)) =~= t);
}

} // verus!
