use vstd::prelude::*;

use crate::file::JimFile;
use crate::text::{
    col_at, col_of, find_char_from, lemma_coords_prefix,
    lemma_count_nl_le_len, lemma_find_from_props, lemma_index_from_line_col, lemma_line_col_step,
    lemma_line_len_at, lemma_line_of_end, lemma_line_of_mono, lemma_line_shape,
    lemma_no_nl_before, lemma_origin, lemma_skip_flat, line_count, line_len, line_length_of,
    line_of, line_start,
};

verus! {

/// A screen position: `x` is the zero-based column, `y` the zero-based line.
#[derive(Clone, Copy, Debug, PartialEq, Eq, Structural)]
pub struct Vec2 {
    pub x: usize,
    pub y: usize,
}

/// The edit position inside one buffer, dual-represented: `index` is the
/// absolute offset into the content, `xy_pos` the (column, line) pair. The
/// two must stay consistent (`wf`) across every movement and edit.
#[derive(Clone, Copy, Debug, PartialEq, Eq, Structural)]
pub struct Cursor {
    pub xy_pos: Vec2,
    pub index: usize,
}

impl Default for Cursor {
    /// The cursor of a freshly opened buffer: offset zero, line zero,
    /// column zero, which is consistent with any content.
    fn default() -> (r: Self)
        ensures
            r.xy_pos.x == 0,
            r.xy_pos.y == 0,
            r.index == 0,
            forall|s: Seq<char>| #[trigger] r.wf(s),
    {
        proof {
            assert forall|s: Seq<char>| #[trigger] (Cursor {
                xy_pos: Vec2 { x: 0, y: 0 },
                index: 0,
            }).wf(s) by {
                lemma_origin(s);
            }
        }
        Cursor { xy_pos: Vec2 { x: 0, y: 0 }, index: 0 }
    }
}

impl Cursor {
    /// Consistency of the dual representation against content `s`: the
    /// stored line and column are exactly the line and column of the stored
    /// offset.
    pub open spec fn wf(self, s: Seq<char>) -> bool {
        &&& self.index <= s.len()
        &&& self.xy_pos.y as nat == line_of(s, self.index as int)
        &&& self.xy_pos.x as nat == col_of(s, self.index as int)
    }

    pub fn new(xy_pos: Vec2, index: usize) -> (r: Self)
        ensures
            r.xy_pos == xy_pos,
            r.index == index,
    {
        Cursor { xy_pos, index }
    }

    /// What `move_left` does: one column left within the line, a no-op at
    /// column zero.
    pub open spec fn move_left_spec(self) -> Cursor {
        if self.xy_pos.x > 0 {
            Cursor {
                xy_pos: Vec2 { x: (self.xy_pos.x - 1) as usize, y: self.xy_pos.y },
                index: (self.index - 1) as usize,
            }
        } else {
            self
        }
    }

    /// What `move_right` does: one column right, refusing to move onto or
    /// past the line's terminating boundary.
    pub open spec fn move_right_spec(self, s: Seq<char>) -> Cursor {
        if self.xy_pos.x + 1 < line_len(s, self.xy_pos.y as nat) {
            Cursor {
                xy_pos: Vec2 { x: (self.xy_pos.x + 1) as usize, y: self.xy_pos.y },
                index: (self.index + 1) as usize,
            }
        } else {
            self
        }
    }

    /// What `force_move_right` does: like `move_right` but permitted to move
    /// one column past the last character (the append position); refuses to
    /// cross the line boundary itself.
    pub open spec fn force_move_right_spec(self, s: Seq<char>) -> Cursor {
        if self.xy_pos.x < line_len(s, self.xy_pos.y as nat) {
            Cursor {
                xy_pos: Vec2 { x: (self.xy_pos.x + 1) as usize, y: self.xy_pos.y },
                index: (self.index + 1) as usize,
            }
        } else {
            self
        }
    }

    /// What `move_full_left` does: column zero of the current line, the
    /// offset moved back by exactly the old column.
    pub open spec fn move_full_left_spec(self) -> Cursor {
        Cursor {
            xy_pos: Vec2 { x: 0, y: self.xy_pos.y },
            index: (self.index - self.xy_pos.x) as usize,
        }
    }

    /// What `move_full_right` does: the end of the current line (the append
    /// position).
    pub open spec fn move_full_right_spec(self, s: Seq<char>) -> Cursor {
        Cursor {
            xy_pos: Vec2 {
                x: line_len(s, self.xy_pos.y as nat) as usize,
                y: self.xy_pos.y,
            },
            index: (self.index + line_len(s, self.xy_pos.y as nat) - self.xy_pos.x) as usize,
        }
    }

    /// What `move_up` does: one line up, the column re-clamped to the target
    /// line's length; a no-op on the first line.
    pub open spec fn move_up_spec(self, s: Seq<char>) -> Cursor {
        if self.xy_pos.y == 0 {
            self
        } else {
            let y2 = (self.xy_pos.y - 1) as nat;
            let x2 = if self.xy_pos.x <= line_len(s, y2) {
                self.xy_pos.x as int
            } else {
                line_len(s, y2)
            };
            Cursor {
                xy_pos: Vec2 { x: x2 as usize, y: (self.xy_pos.y - 1) as usize },
                index: (line_start(s, y2) + x2) as usize,
            }
        }
    }

    /// What `move_down` does: one line down, the column re-clamped to the
    /// target line's length; a no-op on the last line.
    pub open spec fn move_down_spec(self, s: Seq<char>) -> Cursor {
        if self.xy_pos.y + 1 < line_count(s) {
            let y2 = (self.xy_pos.y + 1) as nat;
            let x2 = if self.xy_pos.x <= line_len(s, y2) {
                self.xy_pos.x as int
            } else {
                line_len(s, y2)
            };
            Cursor {
                xy_pos: Vec2 { x: x2 as usize, y: (self.xy_pos.y + 1) as usize },
                index: (line_start(s, y2) + x2) as usize,
            }
        } else {
            self
        }
    }

    /// What `write_char_to` does to the cursor: past a written newline the
    /// cursor starts the next line; past any other character it advances one
    /// column. The offset advances by one either way.
    pub open spec fn write_char_spec(self, c: char) -> Cursor {
        if c == '\n' {
            Cursor {
                xy_pos: Vec2 { x: 0, y: (self.xy_pos.y + 1) as usize },
                index: (self.index + 1) as usize,
            }
        } else {
            Cursor {
                xy_pos: Vec2 { x: (self.xy_pos.x + 1) as usize, y: self.xy_pos.y },
                index: (self.index + 1) as usize,
            }
        }
    }

    /// What `backspace` does to the cursor against content `s` (the content
    /// before the removal): a no-op at offset zero; across a newline the
    /// cursor lands at the end of the previous line, which the removal
    /// merges with the current one; otherwise one column left.
    pub open spec fn backspace_spec(self, s: Seq<char>) -> Cursor {
        if self.index == 0 {
            self
        } else if s[self.index - 1] == '\n' {
            Cursor {
                xy_pos: Vec2 {
                    x: line_len(s, (self.xy_pos.y - 1) as nat) as usize,
                    y: (self.xy_pos.y - 1) as usize,
                },
                index: (self.index - 1) as usize,
            }
        } else {
            Cursor {
                xy_pos: Vec2 { x: (self.xy_pos.x - 1) as usize, y: self.xy_pos.y },
                index: (self.index - 1) as usize,
            }
        }
    }

    /// `move_left` applied `n` times.
    pub open spec fn move_left_n_spec(self, n: nat) -> Cursor
        decreases n,
    {
        if n == 0 {
            self
        } else {
            self.move_left_n_spec((n - 1) as nat).move_left_spec()
        }
    }

    /// `move_right` applied `n` times.
    pub open spec fn move_right_n_spec(self, s: Seq<char>, n: nat) -> Cursor
        decreases n,
    {
        if n == 0 {
            self
        } else {
            self.move_right_n_spec(s, (n - 1) as nat).move_right_spec(s)
        }
    }

    /// `force_move_right` applied `n` times.
    pub open spec fn force_move_right_n_spec(self, s: Seq<char>, n: nat) -> Cursor
        decreases n,
    {
        if n == 0 {
            self
        } else {
            self.force_move_right_n_spec(s, (n - 1) as nat).force_move_right_spec(s)
        }
    }

    /// `move_up` applied `n` times.
    pub open spec fn move_up_n_spec(self, s: Seq<char>, n: nat) -> Cursor
        decreases n,
    {
        if n == 0 {
            self
        } else {
            self.move_up_n_spec(s, (n - 1) as nat).move_up_spec(s)
        }
    }

    /// `move_down` applied `n` times.
    pub open spec fn move_down_n_spec(self, s: Seq<char>, n: nat) -> Cursor
        decreases n,
    {
        if n == 0 {
            self
        } else {
            self.move_down_n_spec(s, (n - 1) as nat).move_down_spec(s)
        }
    }

    /// Moves one column left within the current line; a no-op, not an error,
    /// at column zero. Never crosses a line boundary.
    pub fn move_left(&mut self, file: &JimFile)
        requires
            old(self).wf(file.contents@),
        ensures
            *final(self) == old(self).move_left_spec(),
            final(self).wf(file.contents@),
    {
        proof {
            lemma_no_nl_before(file.contents@, self.index as int);
        }
        if self.xy_pos.x > 0 {
            proof {
                lemma_line_col_step(file.contents@, self.index - 1);
            }
            self.index = self.index - 1;
            self.xy_pos.x = self.xy_pos.x - 1;
        }
    }

    /// Moves one column right within the current line; refuses to move onto
    /// or past the line's terminating boundary (a no-op there).
    pub fn move_right(&mut self, file: &JimFile)
        requires
            old(self).wf(file.contents@),
        ensures
            *final(self) == old(self).move_right_spec(file.contents@),
            final(self).wf(file.contents@),
    {
        let ghost s = file.contents@;
        proof {
            lemma_line_len_at(s, self.index as int);
        }
        let e = find_char_from(&file.contents, self.index, '\n');
        if e - self.index >= 2 {
            proof {
                lemma_no_nl_before(s, self.index as int);
                lemma_find_from_props(s, self.index as int, '\n');
                lemma_line_col_step(s, self.index as int);
            }
            self.index = self.index + 1;
            self.xy_pos.x = self.xy_pos.x + 1;
        }
    }

    /// Like `move_right`, but permits moving one column past the last
    /// character, to the append position; refuses (a no-op) where the move
    /// would cross the line boundary.
    pub fn force_move_right(&mut self, file: &JimFile)
        requires
            old(self).wf(file.contents@),
        ensures
            *final(self) == old(self).force_move_right_spec(file.contents@),
            final(self).wf(file.contents@),
    {
        let ghost s = file.contents@;
        proof {
            lemma_line_len_at(s, self.index as int);
        }
        let e = find_char_from(&file.contents, self.index, '\n');
        if e - self.index >= 1 {
            proof {
                lemma_no_nl_before(s, self.index as int);
                lemma_find_from_props(s, self.index as int, '\n');
                lemma_line_col_step(s, self.index as int);
            }
            self.index = self.index + 1;
            self.xy_pos.x = self.xy_pos.x + 1;
        }
    }

    /// Moves to column zero of the current line, adjusting the offset by
    /// exactly the old column.
    pub fn move_full_left(&mut self)
        requires
            // The column never exceeds the offset; consistency with any
            // content implies this, and without it the offset adjustment
            // would underflow.
            old(self).xy_pos.x <= old(self).index,
        ensures
            *final(self) == old(self).move_full_left_spec(),
            forall|s: Seq<char>| old(self).wf(s) ==> final(self).wf(s),
    {
        proof {
            assert forall|s: Seq<char>| old(self).wf(s) implies old(self).move_full_left_spec().wf(
                s,
            ) by {
                lemma_no_nl_before(s, old(self).index as int);
                lemma_skip_flat(s, old(self).index - old(self).xy_pos.x, old(self).index as int);
            }
        }
        self.index = self.index - self.xy_pos.x;
        self.xy_pos.x = 0;
    }

    /// Moves to the end of the current line: the append position, one column
    /// past its last character.
    pub fn move_full_right(&mut self, file: &JimFile)
        requires
            old(self).wf(file.contents@),
        ensures
            *final(self) == old(self).move_full_right_spec(file.contents@),
            final(self).wf(file.contents@),
    {
        let ghost s = file.contents@;
        proof {
            lemma_no_nl_before(s, self.index as int);
            lemma_line_len_at(s, self.index as int);
            lemma_find_from_props(s, self.index as int, '\n');
        }
        let e = find_char_from(&file.contents, self.index, '\n');
        proof {
            lemma_skip_flat(s, self.index as int, e as int);
        }
        self.xy_pos.x = self.xy_pos.x + (e - self.index);
        self.index = e;
    }

    /// Moves one line up, re-clamping the column to the target line's length
    /// and recomputing the offset; a no-op, not an error, on the first line.
    pub fn move_up(&mut self, file: &JimFile)
        requires
            old(self).wf(file.contents@),
        ensures
            *final(self) == old(self).move_up_spec(file.contents@),
            final(self).wf(file.contents@),
    {
        let ghost s = file.contents@;
        if self.xy_pos.y < 1 {
            return;
        }
        proof {
            lemma_no_nl_before(s, self.index as int);
            lemma_origin(s);
            lemma_skip_flat(s, self.index - self.xy_pos.x, self.index as int);
        }
        // The current line starts at the offset minus the column; since this
        // is not the first line, a newline stands just before that start.
        let start = self.index - self.xy_pos.x;
        let prev_end = start - 1;
        let prev_len = col_at(&file.contents, prev_end);
        proof {
            lemma_no_nl_before(s, prev_end as int);
            lemma_line_len_at(s, prev_end as int);
            lemma_line_col_step(s, prev_end as int);
            lemma_skip_flat(s, prev_end - prev_len, prev_end as int);
            lemma_skip_flat(
                s,
                prev_end - prev_len,
                prev_end - prev_len + if self.xy_pos.x <= prev_len {
                    self.xy_pos.x as int
                } else {
                    prev_len as int
                },
            );
        }
        let x2 = if self.xy_pos.x <= prev_len {
            self.xy_pos.x
        } else {
            prev_len
        };
        self.index = prev_end - prev_len + x2;
        self.xy_pos.y = self.xy_pos.y - 1;
        self.xy_pos.x = x2;
    }

    /// Moves one line down, re-clamping the column to the target line's
    /// length and recomputing the offset; a no-op, not an error, on the last
    /// line.
    pub fn move_down(&mut self, file: &JimFile)
        requires
            old(self).wf(file.contents@),
        ensures
            *final(self) == old(self).move_down_spec(file.contents@),
            final(self).wf(file.contents@),
    {
        let ghost s = file.contents@;
        proof {
            lemma_no_nl_before(s, self.index as int);
            lemma_line_len_at(s, self.index as int);
            lemma_index_from_line_col(s, self.index as int);
            lemma_line_shape(s, self.xy_pos.y as nat);
        }
        let e = find_char_from(&file.contents, self.index, '\n');
        if e == file.contents.len() {
            // No newline at or after the cursor: this is the last line.
            return;
        }
        let next_start = e + 1;
        proof {
            lemma_find_from_props(s, self.index as int, '\n');
            lemma_find_from_props(s, next_start as int, '\n');
        }
        let e2 = find_char_from(&file.contents, next_start, '\n');
        let next_len = e2 - next_start;
        proof {
            lemma_skip_flat(s, self.index as int, e as int);
            lemma_line_col_step(s, e as int);
            lemma_find_from_props(s, next_start as int, '\n');
            lemma_skip_flat(
                s,
                next_start as int,
                next_start + if self.xy_pos.x <= next_len {
                    self.xy_pos.x as int
                } else {
                    next_len as int
                },
            );
            lemma_count_nl_le_len(s);
        }
        let x2 = if self.xy_pos.x <= next_len {
            self.xy_pos.x
        } else {
            next_len
        };
        self.index = next_start + x2;
        self.xy_pos.y = self.xy_pos.y + 1;
        self.xy_pos.x = x2;
    }

    /// Writes every character of `text_to_write` at the cursor in order, as
    /// `write_char_to` does one character.
    pub fn write_to(&mut self, text_to_write: &Vec<char>, file: &mut JimFile)
        requires
            old(self).wf(old(file).contents@),
            old(file).contents@.len() + text_to_write@.len() <= usize::MAX,
        ensures
            final(file).contents@ == old(file).contents@.take(old(self).index as int)
                + text_to_write@ + old(file).contents@.skip(old(self).index as int),
            final(file).path == old(file).path,
            final(self).index == old(self).index + text_to_write@.len(),
            final(self).wf(final(file).contents@),
    {
        let ghost c0 = old(file).contents@;
        let ghost i0 = old(self).index as int;
        let n = text_to_write.len();
        let mut i: usize = 0;
        proof {
            assert(c0 =~= c0.take(i0) + text_to_write@.take(0) + c0.skip(i0));
        }
        while i < n
            invariant
                i <= n,
                n == text_to_write@.len(),
                file.contents@ == c0.take(i0) + text_to_write@.take(i as int) + c0.skip(i0),
                file.path == old(file).path,
                0 <= i0 <= c0.len(),
                c0.len() + n <= usize::MAX,
                self.index == i0 + i,
                self.wf(file.contents@),
            decreases n - i,
        {
            let ghost before = file.contents@;
            self.write_char_to(text_to_write[i], file);
            proof {
                assert(before.insert(i0 + i, text_to_write@[i as int]) =~= c0.take(i0)
                    + text_to_write@.take(i + 1) + c0.skip(i0));
            }
            i = i + 1;
        }
        proof {
            assert(text_to_write@.take(n as int) =~= text_to_write@);
        }
    }

    /// Inserts `c` into the buffer at the cursor's offset and advances the
    /// cursor past it: a written newline splits the current line and starts
    /// the next one at column zero, any other character advances the column.
    pub fn write_char_to(&mut self, c: char, file: &mut JimFile)
        requires
            old(self).wf(old(file).contents@),
            old(file).contents@.len() < usize::MAX,
        ensures
            final(file).contents@ == old(file).contents@.insert(old(self).index as int, c),
            final(file).path == old(file).path,
            *final(self) == old(self).write_char_spec(c),
            final(self).wf(final(file).contents@),
    {
        let ghost s = old(file).contents@;
        let ghost t = s.insert(old(self).index as int, c);
        proof {
            lemma_no_nl_before(s, self.index as int);
            lemma_count_nl_le_len(s);
            lemma_line_of_mono(s, self.index as int, s.len() as int);
            lemma_line_of_end(s);
            lemma_coords_prefix(s, t, self.index as int);
            lemma_line_col_step(t, self.index as int);
        }
        let r = file.insert(self.index, c);
        proof {
            assert(r is Ok);
        }
        if c == '\n' {
            self.xy_pos.y = self.xy_pos.y + 1;
            self.xy_pos.x = 0;
        } else {
            self.xy_pos.x = self.xy_pos.x + 1;
        }
        self.index = self.index + 1;
    }

    /// Removes the character just before the cursor and moves the cursor
    /// back one offset: across a newline the cursor lands at the end of the
    /// previous line, which the removal merges with the current one;
    /// otherwise the column retreats by one. A no-op at offset zero.
    pub fn backspace(&mut self, file: &mut JimFile)
        requires
            old(self).wf(old(file).contents@),
        ensures
            old(self).index == 0 ==> *final(self) == *old(self) && *final(file) == *old(file),
            old(self).index > 0 ==> final(file).contents@ == old(file).contents@.remove(
                old(self).index - 1,
            ) && final(file).path == old(file).path,
            *final(self) == old(self).backspace_spec(old(file).contents@),
            final(self).wf(final(file).contents@),
    {
        let ghost s = old(file).contents@;
        if self.index < 1 {
            return;
        }
        let ghost t = s.remove(self.index - 1);
        proof {
            lemma_no_nl_before(s, self.index as int);
            lemma_coords_prefix(s, t, self.index - 1);
        }
        let prev = file.contents[self.index - 1];
        if prev == '\n' {
            let prev_len = col_at(&file.contents, self.index - 1);
            proof {
                lemma_no_nl_before(s, self.index - 1);
                lemma_line_len_at(s, self.index - 1);
                lemma_line_col_step(s, self.index - 1);
            }
            self.index = self.index - 1;
            self.xy_pos.y = self.xy_pos.y - 1;
            self.xy_pos.x = prev_len;
        } else {
            proof {
                lemma_line_col_step(s, self.index - 1);
            }
            self.index = self.index - 1;
            self.xy_pos.x = self.xy_pos.x - 1;
        }
        let r = file.remove(self.index);
        proof {
            assert(r is Ok);
        }
    }

    /// The character count of line `pos` of `text`, or `None` if there is no
    /// such line.
    pub fn line_length(text: &Vec<char>, pos: usize) -> (r: Option<usize>)
        ensures
            r == (if (pos as nat) < line_count(text@) {
                Some(line_len(text@, pos as nat) as usize)
            } else {
                None::<usize>
            }),
    {
        line_length_of(text, pos)
    }

    /// The character count of the cursor's current line; `Some` whenever the
    /// cursor is consistent with the content.
    pub fn current_line_length(&self, file: &JimFile) -> (r: Option<usize>)
        ensures
            r == (if (self.xy_pos.y as nat) < line_count(file.contents@) {
                Some(line_len(file.contents@, self.xy_pos.y as nat) as usize)
            } else {
                None::<usize>
            }),
            self.wf(file.contents@) ==> r == Some(
                line_len(file.contents@, self.xy_pos.y as nat) as usize,
            ),
    {
        proof {
            if self.wf(file.contents@) {
                lemma_index_from_line_col(file.contents@, self.index as int);
            }
        }
        Self::line_length(&file.contents, self.xy_pos.y)
    }

    /// The (column, line) pair with the column defensively clamped to the
    /// current line's length. Under consistency the clamp changes nothing.
    pub fn get_position(&self, file: &JimFile) -> (r: Vec2)
        requires
            self.wf(file.contents@),
        ensures
            r == self.xy_pos,
    {
        proof {
            lemma_no_nl_before(file.contents@, self.index as int);
            lemma_line_len_at(file.contents@, self.index as int);
        }
        // The buffer length bounds the line length, so the conversion below
        // is exact.
        let total = file.contents.len();
        let length = match self.current_line_length(file) {
            Some(l) => l,
            None => 0,
        };
        assert(length == line_len(file.contents@, self.xy_pos.y as nat));
        assert(self.xy_pos.x <= length);
        Vec2 {
            x: if self.xy_pos.x < length {
                self.xy_pos.x
            } else {
                length
            },
            y: self.xy_pos.y,
        }
    }
}

/// Law: for every consistent cursor state, recomputing the offset from the
/// (line, column) pair via cumulative line lengths — the lengths of all lines
/// before the cursor's line, plus one newline each, plus the column — gives
/// back the stored offset. The line is a real line of the content and the
/// column lies within it.
pub proof fn lemma_cursor_index_consistent(c: Cursor, s: Seq<char>)
    requires
        c.wf(s),
    ensures
        (c.xy_pos.y as nat) < line_count(s),
        c.index == line_start(s, c.xy_pos.y as nat) + c.xy_pos.x,
        c.xy_pos.x <= line_len(s, c.xy_pos.y as nat),
{
    lemma_index_from_line_col(s, c.index as int);
    lemma_line_len_at(s, c.index as int);
}

/// Law: writing one character and immediately backspacing restores both the
/// buffer content and the cursor position, for a newline as for any other
/// character.
pub proof fn lemma_write_backspace_round_trip(c: Cursor, s: Seq<char>, ch: char)
    requires
        c.wf(s),
        s.len() < usize::MAX,
    ensures
        c.write_char_spec(ch).backspace_spec(s.insert(c.index as int, ch)) == c,
        s.insert(c.index as int, ch).remove(c.write_char_spec(ch).index - 1) == s,
{
    let t = s.insert(c.index as int, ch);
    assert(t.remove(c.index as int) =~= s);
    assert(t[c.index as int] == ch);
    lemma_no_nl_before(s, c.index as int);
    lemma_line_of_mono(s, c.index as int, s.len() as int);
    lemma_line_of_end(s);
    lemma_count_nl_le_len(s);
    lemma_coords_prefix(s, t, c.index as int);
    if ch == '\n' {
        lemma_line_len_at(t, c.index as int);
    }
}

/// Law: movement at a boundary is a no-op, not an error: left at column
/// zero, right at the last column of the line, up on the first line, down on
/// the last line.
pub proof fn lemma_boundary_moves_are_noops(c: Cursor, s: Seq<char>)
    requires
        c.wf(s),
    ensures
        c.xy_pos.x == 0 ==> c.move_left_spec() == c,
        c.xy_pos.x + 1 >= line_len(s, c.xy_pos.y as nat) ==> c.move_right_spec(s) == c,
        c.xy_pos.y == 0 ==> c.move_up_spec(s) == c,
        c.xy_pos.y + 1 >= line_count(s) ==> c.move_down_spec(s) == c,
{
}

} // verus!
