use vstd::prelude::*;

use crate::sat::{sat_add_usize, sat_sub_usize};

verus! {

/// Two-axis scroll offsets with the content bounds they are rendered
/// against. Offsets are stored raw, floored at zero by every mutation;
/// clamping against the content length happens only when the indicator
/// is derived for rendering.
pub struct ScrollState {
    pub vertical: usize,
    pub horizontal: usize,
    pub vertical_content_length: usize,
    pub horizontal_content_length: usize,
}

impl ScrollState {
    /// A scroll state at the origin with empty content bounds.
    pub fn new() -> (s: ScrollState)
        ensures
            s.vertical == 0,
            s.horizontal == 0,
            s.vertical_content_length == 0,
            s.horizontal_content_length == 0,
    {
        ScrollState { vertical: 0, horizontal: 0, vertical_content_length: 0, horizontal_content_length: 0 }
    }

    /// Moves down by `count` lines, saturating at `usize::MAX`.
    pub fn scroll_down(&mut self, count: usize)
        ensures
            final(self).vertical == sat_add_usize(old(self).vertical, count),
            final(self).horizontal == old(self).horizontal,
            final(self).vertical_content_length == old(self).vertical_content_length,
            final(self).horizontal_content_length == old(self).horizontal_content_length,
    {
        self.vertical = self.vertical.saturating_add(count);
    }

    /// Moves up by `count` lines, flooring at zero.
    pub fn scroll_up(&mut self, count: usize)
        ensures
            final(self).vertical == sat_sub_usize(old(self).vertical, count),
            final(self).horizontal == old(self).horizontal,
            final(self).vertical_content_length == old(self).vertical_content_length,
            final(self).horizontal_content_length == old(self).horizontal_content_length,
    {
        self.vertical = self.vertical.saturating_sub(count);
    }

    /// Moves left by `count` columns, flooring at zero.
    pub fn scroll_left(&mut self, count: usize)
        ensures
            final(self).horizontal == sat_sub_usize(old(self).horizontal, count),
            final(self).vertical == old(self).vertical,
            final(self).vertical_content_length == old(self).vertical_content_length,
            final(self).horizontal_content_length == old(self).horizontal_content_length,
    {
        self.horizontal = self.horizontal.saturating_sub(count);
    }

    /// Moves right by `count` columns, saturating at `usize::MAX`.
    pub fn scroll_right(&mut self, count: usize)
        ensures
            final(self).horizontal == sat_add_usize(old(self).horizontal, count),
            final(self).vertical == old(self).vertical,
            final(self).vertical_content_length == old(self).vertical_content_length,
            final(self).horizontal_content_length == old(self).horizontal_content_length,
    {
        self.horizontal = self.horizontal.saturating_add(count);
    }

    /// Jumps to the top of the document, whatever the prior offset.
    pub fn jump_top(&mut self)
        ensures
            final(self).vertical == 0,
            final(self).horizontal == old(self).horizontal,
            final(self).vertical_content_length == old(self).vertical_content_length,
            final(self).horizontal_content_length == old(self).horizontal_content_length,
    {
        self.vertical = 0;
    }

    /// Jumps the vertical offset to `line_count`, the bottom of the
    /// document.
    pub fn jump_bottom(&mut self, line_count: usize)
        ensures
            final(self).vertical == line_count,
            final(self).horizontal == old(self).horizontal,
            final(self).vertical_content_length == old(self).vertical_content_length,
            final(self).horizontal_content_length == old(self).horizontal_content_length,
    {
        self.vertical = line_count;
    }

    /// Records the per-frame content bounds: the document's line count
    /// vertically and the viewport height horizontally.
    pub fn set_content_lengths(&mut self, vertical_len: usize, horizontal_len: usize)
        ensures
            final(self).vertical_content_length == vertical_len,
            final(self).horizontal_content_length == horizontal_len,
            final(self).vertical == old(self).vertical,
            final(self).horizontal == old(self).horizontal,
    {
        self.vertical_content_length = vertical_len;
        self.horizontal_content_length = horizontal_len;
    }

    /// The scrollbar indicator for the vertical axis: the offset clamped
    /// to the content length.
    pub fn vertical_indicator(&self) -> (r: usize)
        ensures
            r == if self.vertical <= self.vertical_content_length {
                self.vertical
            } else {
                self.vertical_content_length
            },
    {
        if self.vertical <= self.vertical_content_length {
            self.vertical
        } else {
            self.vertical_content_length
        }
    }

    /// The scrollbar indicator for the horizontal axis: the offset
    /// clamped to the content length.
    pub fn horizontal_indicator(&self) -> (r: usize)
        ensures
            r == if self.horizontal <= self.horizontal_content_length {
                self.horizontal
            } else {
                self.horizontal_content_length
            },
    {
        if self.horizontal <= self.horizontal_content_length {
            self.horizontal
        } else {
            self.horizontal_content_length
        }
    }
}

} // verus!
