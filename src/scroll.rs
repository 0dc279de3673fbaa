//! The vertical-scroll window and its offset arithmetic.
use vstd::prelude::*;

verus! {

/// Scroller must be provided in order to scroll the screen. It can only be obtained
/// by configuring the screen for scrolling.
pub struct Scroller {
    top_offset: u16,
    fixed_bottom_lines: u16,
    fixed_top_lines: u16,
    height: u16,
}

/// The offset after `steps` single-line scrolls from `offset`.
pub open spec fn offset_after_steps(offset: int, steps: nat, fixed_top: int, fixed_bottom: int, height: int) -> int
    decreases steps,
{
    if steps == 0 {
        offset
    } else {
        next_offset(offset_after_steps(offset, (steps - 1) as nat, fixed_top, fixed_bottom, height), 1, fixed_top, fixed_bottom, height)
    }
}

/// Scrolling one line at a time from the fixed top area walks the offset
/// through every line of the scroll area, `fixed_top + 1` up to
/// `height - fixed_bottom`, and the next step wraps it to `fixed_top + 1`.
pub proof fn lemma_single_line_scrolls(fixed_top: int, fixed_bottom: int, height: int, steps: nat)
    requires
        0 <= fixed_top,
        0 <= fixed_bottom,
        fixed_top + fixed_bottom <= height,
        steps <= height - fixed_bottom - fixed_top + 1,
    ensures
        1 <= steps <= height - fixed_bottom - fixed_top ==> offset_after_steps(fixed_top, steps, fixed_top, fixed_bottom, height)
            == fixed_top + steps,
        steps == height - fixed_bottom - fixed_top + 1 ==> offset_after_steps(fixed_top, steps, fixed_top, fixed_bottom, height)
            == fixed_top + 1,
    decreases steps,
{
    if steps > 0 {
        let prev = (steps - 1) as nat;
        lemma_single_line_scrolls(fixed_top, fixed_bottom, height, prev);
        let before = offset_after_steps(fixed_top, prev, fixed_top, fixed_bottom, height);
        assert(before == fixed_top + prev) by {
            if prev == 0 {
                assert(offset_after_steps(fixed_top, 0, fixed_top, fixed_bottom, height) == fixed_top);
            }
        }
        assert(offset_after_steps(fixed_top, steps, fixed_top, fixed_bottom, height) == next_offset(
            before,
            1,
            fixed_top,
            fixed_bottom,
            height,
        ));
    }
}

/// The offset after scrolling `num_lines` from `offset`: it advances, and
/// once past `height - fixed_bottom` it wraps to `fixed_top` plus the excess.
pub open spec fn next_offset(offset: int, num_lines: int, fixed_top: int, fixed_bottom: int, height: int) -> int {
    let t = offset + num_lines;
    if t > height - fixed_bottom {
        fixed_top + (t + fixed_bottom - height)
    } else {
        t
    }
}

impl Scroller {
    /// The current top offset.
    pub closed spec fn offset(&self) -> int {
        self.top_offset as int
    }

    /// Lines fixed at the top of the screen.
    pub closed spec fn fixed_top(&self) -> int {
        self.fixed_top_lines as int
    }

    /// Lines fixed at the bottom of the screen.
    pub closed spec fn fixed_bottom(&self) -> int {
        self.fixed_bottom_lines as int
    }

    /// The screen height the window was configured on.
    pub closed spec fn screen_height(&self) -> int {
        self.height as int
    }

    /// The fixed areas fit on the screen and the offset is never above the
    /// fixed top area.
    pub open spec fn wf(&self) -> bool {
        &&& self.fixed_top() + self.fixed_bottom() <= self.screen_height()
        &&& self.fixed_top() <= self.offset()
    }

    /// Scrolling `num_lines` keeps every intermediate value of the offset
    /// arithmetic within 16 bits.
    pub open spec fn can_scroll(&self, num_lines: u16) -> bool {
        let t = self.offset() + num_lines;
        &&& t <= u16::MAX
        &&& t > self.screen_height() - self.fixed_bottom() ==> t + self.fixed_bottom() <= u16::MAX
            && next_offset(self.offset(), num_lines as int, self.fixed_top(), self.fixed_bottom(), self.screen_height()) <= u16::MAX
    }

    /// The current top offset.
    pub fn top_offset(&self) -> (t: u16)
        ensures
            t == self.offset(),
    {
        self.top_offset
    }

    pub(crate) fn new(fixed_top_lines: u16, fixed_bottom_lines: u16, height: u16) -> (s: Scroller)
        ensures
            s.offset() == fixed_top_lines,
            s.fixed_top() == fixed_top_lines,
            s.fixed_bottom() == fixed_bottom_lines,
            s.screen_height() == height,
            fixed_top_lines + fixed_bottom_lines <= height ==> s.wf(),
    {
        Scroller {
            top_offset: fixed_top_lines,
            fixed_top_lines,
            fixed_bottom_lines,
            height,
        }
    }

    /// Advances the offset by `num_lines`, wrapping as `next_offset` says,
    /// and returns the new offset.
    pub(crate) fn advance(&mut self, num_lines: u16) -> (t: u16)
        requires
            old(self).wf(),
            old(self).can_scroll(num_lines),
        ensures
            t == final(self).offset(),
            final(self).offset() == next_offset(
                old(self).offset(),
                num_lines as int,
                old(self).fixed_top(),
                old(self).fixed_bottom(),
                old(self).screen_height(),
            ),
            final(self).fixed_top() == old(self).fixed_top(),
            final(self).fixed_bottom() == old(self).fixed_bottom(),
            final(self).screen_height() == old(self).screen_height(),
            final(self).wf(),
    {
        self.top_offset = self.top_offset + num_lines;
        if self.top_offset > (self.height - self.fixed_bottom_lines) {
            self.top_offset = self.fixed_top_lines + (self.top_offset + self.fixed_bottom_lines - self.height);
        }
        self.top_offset
    }
}

} // verus!
