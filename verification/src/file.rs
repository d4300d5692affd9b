use vstd::prelude::*;

use crate::text::{line_count, line_len, line_length_of};

verus! {

/// An index-taking buffer operation was handed a position outside the buffer.
/// The buffer never clamps silently: the cursor is responsible for clamping
/// before it calls.
#[derive(Clone, Copy, Debug, PartialEq, Eq, Structural)]
pub enum EditError {
    OutOfBounds,
}

/// One open file: the mutable character content, which is the single source
/// of truth for line boundaries, and the storage path the content came from.
/// Reading the file in and writing it back belong to the caller; the buffer
/// itself only edits in memory.
#[derive(Debug)]
pub struct JimFile {
    pub path: String,
    pub contents: Vec<char>,
}

impl JimFile {
    /// Builds a buffer over content already read from storage.
    pub fn new(path: String, contents: Vec<char>) -> (r: Self)
        ensures
            r.path == path,
            r.contents == contents,
    {
        JimFile { path, contents }
    }

    /// Inserts one character before `index`, shifting everything after it one
    /// position right; rejects an `index` beyond the end.
    pub fn insert(&mut self, index: usize, c: char) -> (r: Result<(), EditError>)
        ensures
            final(self).path == old(self).path,
            index <= old(self).contents@.len() ==> (r == Ok::<(), EditError>(())
                && final(self).contents@ == old(self).contents@.insert(index as int, c)),
            index > old(self).contents@.len() ==> (r == Err::<(), EditError>(EditError::OutOfBounds)
                && final(self).contents == old(self).contents),
    {
        if index > self.contents.len() {
            Err(EditError::OutOfBounds)
        } else {
            self.contents.insert(index, c);
            Ok(())
        }
    }

    /// Removes and returns the character at `index`; rejects an `index` at or
    /// beyond the end.
    pub fn remove(&mut self, index: usize) -> (r: Result<char, EditError>)
        ensures
            final(self).path == old(self).path,
            index < old(self).contents@.len() ==> (r == Ok::<char, EditError>(old(self).contents@[index as int])
                && final(self).contents@ == old(self).contents@.remove(index as int)),
            index >= old(self).contents@.len() ==> (r == Err::<char, EditError>(EditError::OutOfBounds)
                && final(self).contents == old(self).contents),
    {
        if index >= self.contents.len() {
            Err(EditError::OutOfBounds)
        } else {
            Ok(self.contents.remove(index))
        }
    }

    /// The character count of line `line_number`, or `None` if the buffer has
    /// no such line. Asking past the last line is an absent result, not an
    /// error, because boundary navigation must be a no-op.
    pub fn line_length(&self, line_number: usize) -> (r: Option<usize>)
        ensures
            r == (if (line_number as nat) < line_count(self.contents@) {
                Some(line_len(self.contents@, line_number as nat) as usize)
            } else {
                None::<usize>
            }),
    {
        line_length_of(&self.contents, line_number)
    }
}

} // verus!
