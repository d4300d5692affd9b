use vstd::prelude::*;

verus! {

// The buffer is a sequence of characters in which newline characters are
// ordinary content. A line is a maximal run of characters not containing
// `'\n'`; the line count is the newline count plus one, so the empty buffer
// has one, empty, line.
//
// Two coordinate systems describe a buffer offset `idx`:
//  - the local one: `line_of` counts the newlines before `idx`, and `col_of`
//    measures the distance from `idx` back to the start of its line;
//  - the cumulative one: `line_start(y)` adds up the lengths of the lines
//    before line `y`, plus one newline each.
// `lemma_index_from_line_col` proves that the two agree.

/// Number of newline characters in `s`.
pub open spec fn count_nl(s: Seq<char>) -> nat
    decreases s.len(),
{
    if s.len() == 0 {
        0
    } else {
        count_nl(s.drop_last()) + if s.last() == '\n' { 1nat } else { 0nat }
    }
}

/// Number of lines of `s`: one more than the number of newlines.
pub open spec fn line_count(s: Seq<char>) -> nat {
    count_nl(s) + 1
}

/// The line that buffer offset `idx` lies on: the count of newlines strictly
/// before `idx`.
pub open spec fn line_of(s: Seq<char>, idx: int) -> nat {
    count_nl(s.take(idx))
}

/// The column of buffer offset `idx`: its distance from the start of its line.
pub open spec fn col_of(s: Seq<char>, idx: int) -> nat
    decreases idx,
{
    if idx <= 0 {
        0
    } else if s[idx - 1] == '\n' {
        0
    } else {
        col_of(s, idx - 1) + 1
    }
}

/// Offset of the first occurrence of `c` at or after `from`, or `s.len()` if
/// there is none.
pub open spec fn find_from(s: Seq<char>, from: int, c: char) -> int
    decreases s.len() - from,
{
    if from < 0 || from >= s.len() {
        s.len() as int
    } else if s[from] == c {
        from
    } else {
        find_from(s, from + 1, c)
    }
}

/// Offset of the first newline at or after `from`: the end of the line that
/// `from` lies on.
pub open spec fn next_newline(s: Seq<char>, from: int) -> int {
    find_from(s, from, '\n')
}

/// Start offset of line `y`, by cumulative line lengths: every line before
/// `y` contributes its length plus one newline.
pub open spec fn line_start(s: Seq<char>, y: nat) -> int
    decreases y,
{
    if y == 0 {
        0
    } else {
        next_newline(s, line_start(s, (y - 1) as nat)) + 1
    }
}

/// Character count of line `y`, its terminating newline (if any) not included.
pub open spec fn line_len(s: Seq<char>, y: nat) -> int {
    next_newline(s, line_start(s, y)) - line_start(s, y)
}

/// The characters of line `y`.
pub open spec fn line_at(s: Seq<char>, y: nat) -> Seq<char> {
    s.subrange(line_start(s, y), line_start(s, y) + line_len(s, y))
}

/// Extending a prefix by one character adds one newline to its count exactly
/// when that character is a newline.
pub proof fn lemma_count_nl_take_step(s: Seq<char>, idx: int)
    requires
        0 <= idx < s.len(),
    ensures
        count_nl(s.take(idx + 1)) == count_nl(s.take(idx)) + if s[idx] == '\n' { 1nat } else { 0nat },
{
    assert(s.take(idx + 1).drop_last() =~= s.take(idx));
    assert(s.take(idx + 1).last() == s[idx]);
}

/// There are no more newlines than characters.
pub proof fn lemma_count_nl_le_len(s: Seq<char>)
    ensures
        count_nl(s) <= s.len(),
    decreases s.len(),
{
    if s.len() > 0 {
        lemma_count_nl_le_len(s.drop_last());
    }
}

/// Stepping one character forward: crossing a newline moves to the next line
/// and column zero, crossing anything else stays on the line one column on.
pub proof fn lemma_line_col_step(s: Seq<char>, idx: int)
    requires
        0 <= idx < s.len(),
    ensures
        line_of(s, idx + 1) == line_of(s, idx) + if s[idx] == '\n' { 1nat } else { 0nat },
        col_of(s, idx + 1) == if s[idx] == '\n' { 0nat } else { col_of(s, idx) + 1 },
{
    lemma_count_nl_take_step(s, idx);
}

/// Crossing a newline-free stretch keeps the line and advances the column by
/// the stretch's length.
pub proof fn lemma_skip_flat(s: Seq<char>, a: int, b: int)
    requires
        0 <= a <= b <= s.len(),
        forall|j: int| a <= j < b ==> s[j] != '\n',
    ensures
        line_of(s, b) == line_of(s, a),
        col_of(s, b) == col_of(s, a) + (b - a),
    decreases b - a,
{
    if a < b {
        lemma_skip_flat(s, a, b - 1);
        lemma_line_col_step(s, b - 1);
    }
}

/// What `find_from` returns: an offset no earlier than `from`, nothing matches
/// before it, and it holds a match unless it is the end of the text.
pub proof fn lemma_find_from_props(s: Seq<char>, from: int, c: char)
    requires
        0 <= from <= s.len(),
    ensures
        from <= find_from(s, from, c) <= s.len(),
        forall|j: int| from <= j < find_from(s, from, c) ==> s[j] != c,
        find_from(s, from, c) < s.len() ==> s[find_from(s, from, c)] == c,
    decreases s.len() - from,
{
    if from < s.len() && s[from] != c {
        lemma_find_from_props(s, from + 1, c);
    }
}

/// `find_from` is pinned: a position with nothing matching before it, that
/// matches or is the end of the text, is the result.
pub proof fn lemma_find_from_exact(s: Seq<char>, from: int, c: char, k: int)
    requires
        0 <= from <= k <= s.len(),
        forall|j: int| from <= j < k ==> s[j] != c,
        k == s.len() || s[k] == c,
    ensures
        find_from(s, from, c) == k,
    decreases k - from,
{
    if from < k {
        lemma_find_from_exact(s, from + 1, c, k);
    }
}

/// Searching may start anywhere inside a match-free stretch.
pub proof fn lemma_find_from_skip(s: Seq<char>, a: int, b: int, c: char)
    requires
        0 <= a <= b <= s.len(),
        forall|j: int| a <= j < b ==> s[j] != c,
    ensures
        find_from(s, a, c) == find_from(s, b, c),
    decreases b - a,
{
    if a < b {
        lemma_find_from_skip(s, a + 1, b, c);
    }
}

/// The stretch from the start of `idx`'s line up to `idx` is newline-free,
/// and the character just before that start, if any, is a newline.
pub proof fn lemma_no_nl_before(s: Seq<char>, idx: int)
    requires
        0 <= idx <= s.len(),
    ensures
        0 <= idx - col_of(s, idx),
        idx - col_of(s, idx) == 0 || s[idx - col_of(s, idx) - 1] == '\n',
        forall|j: int| idx - col_of(s, idx) <= j < idx ==> s[j] != '\n',
    decreases idx,
{
    if idx > 0 && s[idx - 1] != '\n' {
        lemma_no_nl_before(s, idx - 1);
    }
}

/// Prefix counts of newlines grow with the prefix.
pub proof fn lemma_line_of_mono(s: Seq<char>, a: int, b: int)
    requires
        0 <= a <= b <= s.len(),
    ensures
        line_of(s, a) <= line_of(s, b),
    decreases b - a,
{
    if a < b {
        lemma_line_of_mono(s, a, b - 1);
        lemma_line_col_step(s, b - 1);
    }
}

/// The newline count of the whole text is the line number of its end.
pub proof fn lemma_line_of_end(s: Seq<char>)
    ensures
        line_of(s, s.len() as int) == count_nl(s),
{
    assert(s.take(s.len() as int) =~= s);
}

/// The two coordinate systems agree: every offset is the cumulative start of
/// its line plus its column, and its line number is a real line.
pub proof fn lemma_index_from_line_col(s: Seq<char>, idx: int)
    requires
        0 <= idx <= s.len(),
    ensures
        line_of(s, idx) < line_count(s),
        idx == line_start(s, line_of(s, idx)) + col_of(s, idx),
    decreases idx,
{
    if idx == 0 {
        lemma_line_of_mono(s, 0, s.len() as int);
        lemma_line_of_end(s);
    } else {
        lemma_index_from_line_col(s, idx - 1);
        lemma_line_col_step(s, idx - 1);
        if s[idx - 1] == '\n' {
            // The newline at idx - 1 terminates line `line_of(s, idx - 1)`,
            // so the next line starts exactly at idx.
            let l = line_of(s, idx - 1);
            lemma_no_nl_before(s, idx - 1);
            lemma_find_from_exact(s, line_start(s, l), '\n', idx - 1);
            assert(line_start(s, l + 1) == idx);
            lemma_line_of_mono(s, idx, s.len() as int);
            lemma_line_of_end(s);
            lemma_count_nl_le_len(s);
        }
    }
}

/// What line `y` looks like, for any real `y`: where it starts and ends, that
/// it holds no newline, and that a newline terminates it unless it is last.
pub proof fn lemma_line_shape(s: Seq<char>, y: nat)
    requires
        y < line_count(s),
    ensures
        0 <= line_start(s, y),
        0 <= line_len(s, y),
        line_start(s, y) + line_len(s, y) <= s.len(),
        line_of(s, line_start(s, y)) == y,
        col_of(s, line_start(s, y)) == 0,
        forall|j: int| line_start(s, y) <= j < line_start(s, y) + line_len(s, y) ==> s[j] != '\n',
        y + 1 < line_count(s) <==> line_start(s, y) + line_len(s, y) < s.len(),
        y + 1 < line_count(s) ==> s[line_start(s, y) + line_len(s, y)] == '\n',
    decreases y,
{
    lemma_line_of_end(s);
    if y == 0 {
        lemma_find_from_props(s, 0, '\n');
        let e = next_newline(s, 0);
        lemma_skip_flat(s, 0, e);
        if e < s.len() {
            lemma_line_col_step(s, e);
            lemma_line_of_mono(s, e + 1, s.len() as int);
        }
    } else {
        lemma_line_shape(s, (y - 1) as nat);
        let p = line_start(s, (y - 1) as nat);
        let e = p + line_len(s, (y - 1) as nat);
        // y < line_count means line y - 1 is not last, so s[e] == '\n' and
        // line y starts at e + 1.
        assert(line_start(s, y) == e + 1);
        lemma_skip_flat(s, p, e);
        lemma_line_col_step(s, e);
        assert(line_of(s, e + 1) == y);
        assert(col_of(s, e + 1) == 0);
        lemma_find_from_props(s, e + 1, '\n');
        let e2 = next_newline(s, e + 1);
        lemma_skip_flat(s, e + 1, e2);
        if e2 < s.len() {
            lemma_line_col_step(s, e2);
            lemma_line_of_mono(s, e2 + 1, s.len() as int);
        }
    }
}

/// Seen from an offset inside it, the line ends at the next newline: the line
/// length splits into the column so far and the distance to that newline.
pub proof fn lemma_line_len_at(s: Seq<char>, idx: int)
    requires
        0 <= idx <= s.len(),
    ensures
        line_start(s, line_of(s, idx)) == idx - col_of(s, idx),
        line_len(s, line_of(s, idx)) == col_of(s, idx) + (next_newline(s, idx) - idx),
        col_of(s, idx) <= line_len(s, line_of(s, idx)),
        idx <= next_newline(s, idx) <= s.len(),
{
    lemma_index_from_line_col(s, idx);
    lemma_no_nl_before(s, idx);
    lemma_find_from_skip(s, idx - col_of(s, idx), idx, '\n');
    lemma_find_from_props(s, idx, '\n');
}

/// Two texts equal below `idx` agree on the line and column of `idx`.
pub proof fn lemma_coords_prefix(s: Seq<char>, t: Seq<char>, idx: int)
    requires
        0 <= idx,
        idx <= s.len(),
        idx <= t.len(),
        forall|j: int| 0 <= j < idx ==> s[j] == t[j],
    ensures
        line_of(s, idx) == line_of(t, idx),
        col_of(s, idx) == col_of(t, idx),
{
    assert(s.take(idx) =~= t.take(idx));
    lemma_col_of_prefix(s, t, idx);
}

proof fn lemma_col_of_prefix(s: Seq<char>, t: Seq<char>, idx: int)
    requires
        0 <= idx,
        idx <= s.len(),
        idx <= t.len(),
        forall|j: int| 0 <= j < idx ==> s[j] == t[j],
    ensures
        col_of(s, idx) == col_of(t, idx),
    decreases idx,
{
    if idx > 0 {
        lemma_col_of_prefix(s, t, idx - 1);
    }
}

/// Offset zero is column zero of line zero, whatever the text.
pub proof fn lemma_origin(s: Seq<char>)
    ensures
        line_of(s, 0) == 0,
        col_of(s, 0) == 0,
{
    assert(s.take(0) =~= Seq::<char>::empty());
}

/// Finds the offset of the first occurrence of `c` at or after `from`, or the
/// text's length if there is none.
pub fn find_char_from(text: &Vec<char>, from: usize, c: char) -> (r: usize)
    requires
        from <= text@.len(),
    ensures
        r == find_from(text@, from as int, c),
{
    let mut i = from;
    while i < text.len()
        invariant
            from <= i <= text@.len(),
            find_from(text@, from as int, c) == find_from(text@, i as int, c),
        decreases text@.len() - i,
    {
        if text[i] == c {
            return i;
        }
        i = i + 1;
    }
    i
}

/// Computes the column of offset `idx`: the distance back to the nearest
/// newline (or to the start of the text).
pub fn col_at(text: &Vec<char>, idx: usize) -> (r: usize)
    requires
        idx <= text@.len(),
    ensures
        r == col_of(text@, idx as int),
{
    let mut j = idx;
    while j > 0 && text[j - 1] != '\n'
        invariant
            j <= idx <= text@.len(),
            col_of(text@, idx as int) == col_of(text@, j as int) + (idx - j),
        decreases j,
    {
        j = j - 1;
    }
    idx - j
}

/// Returns the character count of line `pos`, or `None` if the text has no
/// such line.
pub fn line_length_of(text: &Vec<char>, pos: usize) -> (r: Option<usize>)
    ensures
        r == (if (pos as nat) < line_count(text@) {
            Some(line_len(text@, pos as nat) as usize)
        } else {
            None::<usize>
        }),
{
    let ghost s = text@;
    let mut y: usize = 0;
    let mut start: usize = 0;
    while y < pos
        invariant
            s == text@,
            y <= pos,
            (y as nat) < line_count(s),
            start as int == line_start(s, y as nat),
            start <= s.len(),
        decreases pos - y,
    {
        proof {
            lemma_line_shape(s, y as nat);
        }
        let e = find_char_from(text, start, '\n');
        if e == text.len() {
            // Line y is the last line, so there is no line `pos`.
            return None;
        }
        start = e + 1;
        y = y + 1;
    }
    proof {
        lemma_line_shape(s, y as nat);
    }
    let e = find_char_from(text, start, '\n');
    Some(e - start)
}

} // verus!
