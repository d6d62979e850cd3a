use vstd::prelude::*;

verus! {

/// A two-dimensional size or position, `x` columns by `y` rows.
#[derive(Clone, Copy, Debug)]
pub struct Vec2 {
    pub x: usize,
    pub y: usize,
}

impl Vec2 {
    pub fn new(x: usize, y: usize) -> (v: Vec2)
        ensures
            v == (Vec2 { x, y }),
    {
        Vec2 { x, y }
    }
}

/// One axis of a cached layout result: the size that was computed, and whether it was
/// cut down to fit the size that was offered. Follows the rules of `cursive`'s
/// `SizeCache`, whose `accept` and `build` are the few lines stated below.
#[derive(Clone, Copy, Debug)]
pub struct SizeCache {
    pub value: usize,
    pub constrained: bool,
}

impl SizeCache {
    /// The cache still holds for an offered size equal to the cached one, or for a
    /// larger one when the cached size was not constrained.
    pub open spec fn accepts(self, request: usize) -> bool {
        if request < self.value {
            false
        } else if request == self.value {
            true
        } else {
            !self.constrained
        }
    }

    pub fn new(value: usize, constrained: bool) -> (c: SizeCache)
        ensures
            c == (SizeCache { value, constrained }),
    {
        SizeCache { value, constrained }
    }

    /// Whether the cache is still valid for `request`.
    pub fn accept(self, request: usize) -> (b: bool)
        ensures
            b == self.accepts(request),
    {
        if request < self.value {
            false
        } else if request == self.value {
            true
        } else {
            !self.constrained
        }
    }

    /// The cache of both axes after laying out to `size` within the offered `req`.
    pub open spec fn built(size: Vec2, req: Vec2) -> (SizeCache, SizeCache) {
        (
            SizeCache { value: size.x, constrained: size.x >= req.x },
            SizeCache { value: size.y, constrained: size.y >= req.y },
        )
    }

    pub fn build(size: Vec2, req: Vec2) -> (c: (SizeCache, SizeCache))
        ensures
            c == SizeCache::built(size, req),
    {
        (SizeCache::new(size.x, size.x >= req.x), SizeCache::new(size.y, size.y >= req.y))
    }
}

/// Vertical scrolling over `content_height` rows shown `view_height` at a time, the
/// first visible row being `start_line`. Follows the rules of `cursive`'s `ScrollBase`,
/// which draws the window from these three fields.
#[derive(Clone, Copy, Debug)]
pub struct ScrollBase {
    pub start_line: usize,
    pub content_height: usize,
    pub view_height: usize,
}

impl ScrollBase {
    /// The first visible row never lies past the point where the last row reaches the
    /// bottom of the view, and stays at the top when everything fits.
    pub open spec fn wf(self) -> bool {
        if self.view_height < self.content_height {
            self.start_line <= self.content_height - self.view_height
        } else {
            self.start_line == 0
        }
    }

    pub open spec fn is_scrollable(self) -> bool {
        self.view_height < self.content_height
    }

    pub open spec fn at_top(self) -> bool {
        self.start_line == 0
    }

    /// The last row is visible.
    pub open spec fn at_bottom(self) -> bool {
        self.start_line + self.view_height >= self.content_height
    }

    /// The first visible row when the view sticks to the bottom.
    pub open spec fn bottom_line(self) -> usize {
        if self.is_scrollable() {
            (self.content_height - self.view_height) as usize
        } else {
            self.start_line
        }
    }

    /// The scroll position after `set_heights(view_height, content_height)`.
    pub open spec fn with_heights(self, view_height: usize, content_height: usize) -> ScrollBase {
        ScrollBase {
            view_height,
            content_height,
            start_line: if view_height < content_height {
                if self.start_line <= content_height - view_height {
                    self.start_line
                } else {
                    (content_height - view_height) as usize
                }
            } else {
                0
            },
        }
    }

    /// Nothing to show yet.
    pub fn new() -> (s: ScrollBase)
        ensures
            s == (ScrollBase { start_line: 0, content_height: 0, view_height: 0 }),
            s.wf(),
    {
        ScrollBase { start_line: 0, content_height: 0, view_height: 0 }
    }

    /// Takes in new view and content heights, keeping the first visible row where it was
    /// as far as the new heights allow.
    pub fn set_heights(&mut self, view_height: usize, content_height: usize)
        ensures
            *final(self) == old(self).with_heights(view_height, content_height),
            final(self).wf(),
    {
        self.view_height = view_height;
        self.content_height = content_height;
        if self.scrollable() {
            let bottom = self.content_height - self.view_height;
            if bottom < self.start_line {
                self.start_line = bottom;
            }
        } else {
            self.start_line = 0;
        }
    }

    /// More rows than fit in the view.
    pub fn scrollable(&self) -> (b: bool)
        ensures
            b == self.is_scrollable(),
    {
        self.view_height < self.content_height
    }

    pub fn can_scroll_up(&self) -> (b: bool)
        ensures
            b == !self.at_top(),
    {
        self.start_line > 0
    }

    pub fn can_scroll_down(&self) -> (b: bool)
        requires
            self.wf(),
        ensures
            b == !self.at_bottom(),
    {
        self.start_line + self.view_height < self.content_height
    }

    pub fn scroll_top(&mut self)
        requires
            old(self).wf(),
        ensures
            *final(self) == (ScrollBase { start_line: 0, ..*old(self) }),
            final(self).wf(),
    {
        self.start_line = 0;
    }

    pub fn scroll_bottom(&mut self)
        requires
            old(self).wf(),
        ensures
            *final(self) == (ScrollBase { start_line: old(self).bottom_line(), ..*old(self) }),
            final(self).wf(),
    {
        if self.scrollable() {
            self.start_line = self.content_height - self.view_height;
        }
    }

    /// Where `scroll_down(n)` leaves the view: `n` rows further down, never past the bottom.
    pub open spec fn scrolled_down(self, n: usize) -> ScrollBase {
        if self.is_scrollable() {
            if self.start_line + n <= self.bottom_line() {
                ScrollBase { start_line: (self.start_line + n) as usize, ..self }
            } else {
                ScrollBase { start_line: self.bottom_line(), ..self }
            }
        } else {
            self
        }
    }

    /// Where `scroll_up(n)` leaves the view: `n` rows further up, never past the top.
    pub open spec fn scrolled_up(self, n: usize) -> ScrollBase {
        if self.is_scrollable() {
            if n <= self.start_line {
                ScrollBase { start_line: (self.start_line - n) as usize, ..self }
            } else {
                ScrollBase { start_line: 0, ..self }
            }
        } else {
            self
        }
    }

    /// Scrolls `n` rows down, never past the bottom.
    pub fn scroll_down(&mut self, n: usize)
        requires
            old(self).wf(),
        ensures
            *final(self) == old(self).scrolled_down(n),
            final(self).wf(),
    {
        if self.scrollable() {
            let bottom = self.content_height - self.view_height;
            if n <= bottom - self.start_line {
                self.start_line = self.start_line + n;
            } else {
                self.start_line = bottom;
            }
        }
    }

    /// Scrolls `n` rows up, never past the top.
    pub fn scroll_up(&mut self, n: usize)
        requires
            old(self).wf(),
        ensures
            *final(self) == old(self).scrolled_up(n),
            final(self).wf(),
    {
        if self.scrollable() {
            if n <= self.start_line {
                self.start_line = self.start_line - n;
            } else {
                self.start_line = 0;
            }
        }
    }
}

/// Scrolling to the bottom brings the last row into view, and scrolling to the top
/// brings the first one.
pub proof fn lemma_scroll_ends(s: ScrollBase)
    requires
        s.wf(),
    ensures
        (ScrollBase { start_line: s.bottom_line(), ..s }).at_bottom(),
        (ScrollBase { start_line: 0, ..s }).at_top(),
{
}

/// Scrolling down and then up by the same amount returns to the same row when the way
/// down did not reach the bottom.
pub proof fn lemma_scroll_down_up(s: ScrollBase, n: usize)
    requires
        s.wf(),
        s.is_scrollable(),
        s.start_line + n <= s.bottom_line(),
    ensures
        s.scrolled_down(n).scrolled_up(n) == s,
{
}

/// Scrolling up and then down by the same amount returns to the same row when the way
/// up did not reach the top.
pub proof fn lemma_scroll_up_down(s: ScrollBase, n: usize)
    requires
        s.wf(),
        s.is_scrollable(),
        n <= s.start_line,
    ensures
        s.scrolled_up(n).scrolled_down(n) == s,
{
}

/// New heights always leave a consistent scroll position.
pub proof fn lemma_with_heights_wf(s: ScrollBase, view_height: usize, content_height: usize)
    ensures
        s.with_heights(view_height, content_height).wf(),
{
}

} // verus!
