use crate::scroll::{ScrollBase, SizeCache, Vec2};
use cursive::utils::lines::simple::LinesIterator;
use std::collections::VecDeque;
use vstd::prelude::*;

verus! {

/// Rows that `cursive`'s line wrapper cuts `text` into for `width` columns, each given as
/// byte offsets `(start, end)` into the text and the number of columns it takes.
pub uninterp spec fn wrapped_rows(text: Seq<char>, width: usize) -> Seq<(usize, usize, usize)>;

/// `cursive::utils::lines::simple::LinesIterator` run over `text` for `width` columns,
/// each `Row` given as `(start, end, width)`. The iterator asserts that no row it yields
/// is wider than `width`, which the second clause states; nothing else about the rows
/// (where words are broken, how wide characters are) is claimed here.
#[verifier::external_body]
fn wrap_text(text: &str, width: usize) -> (rows: Vec<(usize, usize, usize)>)
    ensures
        rows@ == wrapped_rows(text@, width),
        forall|i: int| 0 <= i < rows@.len() ==> #[trigger] rows@[i].2 <= width,
{
    LinesIterator::new(text, width).map(|row| (row.start, row.end, row.width)).collect()
}

/// `str::ends_with` for one character.
#[verifier::external_body]
fn ends_with_char(s: &String, c: char) -> (b: bool)
    ensures
        b == (s@.len() > 0 && s@.last() == c),
{
    s.ends_with(c)
}

/// `String::pop`: removes and returns the last character, if there is one.
#[verifier::external_body]
fn pop_char(s: &mut String) -> (c: Option<char>)
    ensures
        old(s)@.len() == 0 ==> c is None && final(s)@ == old(s)@,
        old(s)@.len() > 0 ==> c == Some(old(s)@.last()) && final(s)@ == old(s)@.drop_last(),
{
    s.pop()
}

/// `s` without its last character when that character is a newline.
pub open spec fn without_last_newline(s: Seq<char>) -> Seq<char> {
    if s.len() > 0 && s.last() == '\n' {
        s.drop_last()
    } else {
        s
    }
}

/// If the last character of `content` is a newline, strips it.
pub fn strip_last_newline(content: &mut String)
    ensures
        final(content)@ == without_last_newline(old(content)@),
{
    if ends_with_char(content, '\n') {
        pop_char(content);
    }
}


/// One screen row of the chat window: columns `start..end` (byte offsets) of content
/// line `line`, taking `width` columns.
#[derive(Clone, Copy, Debug)]
pub struct ChatRow {
    pub line: usize,
    pub start: usize,
    pub end: usize,
    pub width: usize,
}

/// The rows of content line number `line`, from the wrapper's `(start, end, width)` triples.
pub open spec fn rows_of_line(line: usize, wrapped: Seq<(usize, usize, usize)>) -> Seq<ChatRow> {
    wrapped.map_values(
        |r: (usize, usize, usize)| ChatRow { line, start: r.0, end: r.1, width: r.2 },
    )
}

/// The screen rows of content line number `line` from its wrapped `(start, end, width)`
/// triples, in order.
pub fn rows_for_line(line: usize, wrapped: &Vec<(usize, usize, usize)>) -> (rows: Vec<ChatRow>)
    ensures
        rows@ == rows_of_line(line, wrapped@),
{
    let mut rows: Vec<ChatRow> = Vec::new();
    let mut j: usize = 0;
    while j < wrapped.len()
        invariant
            j <= wrapped@.len(),
            rows@ == rows_of_line(line, wrapped@.take(j as int)),
        decreases wrapped@.len() - j,
    {
        let (start, end, width) = wrapped[j];
        rows.push(ChatRow { line, start, end, width });
        assert(wrapped@.take(j + 1) =~= wrapped@.take(j as int).push(wrapped@[j as int]));
        assert(rows_of_line(line, wrapped@.take(j + 1)) =~= rows_of_line(line, wrapped@.take(j as int)).push(
            ChatRow { line, start, end, width },
        ));
        j = j + 1;
    }
    assert(wrapped@.take(wrapped@.len() as int) =~= wrapped@);
    rows
}

/// All rows of `lines` wrapped to `width` columns, line after line.
pub open spec fn layout_rows(lines: Seq<Seq<char>>, width: usize) -> Seq<ChatRow>
    decreases lines.len(),
{
    if lines.len() == 0 {
        Seq::empty()
    } else {
        layout_rows(lines.drop_last(), width) + rows_of_line(
            (lines.len() - 1) as usize,
            wrapped_rows(lines.last(), width),
        )
    }
}

/// The widest of `rows`, or `None` when there are none.
pub open spec fn max_width(rows: Seq<ChatRow>) -> Option<usize>
    decreases rows.len(),
{
    if rows.len() == 0 {
        None
    } else {
        match max_width(rows.drop_last()) {
            None => Some(rows.last().width),
            Some(w) => Some(
                if w >= rows.last().width {
                    w
                } else {
                    rows.last().width
                },
            ),
        }
    }
}

/// Every row takes at most `width` columns.
pub open spec fn rows_fit(rows: Seq<ChatRow>, width: usize) -> bool {
    forall|i: int| 0 <= i < rows.len() ==> #[trigger] rows[i].width <= width
}

proof fn lemma_max_width_bound(rows: Seq<ChatRow>, width: usize)
    requires
        rows_fit(rows, width),
    ensures
        max_width(rows) matches Some(w) ==> w <= width,
        max_width(rows) is None <==> rows.len() == 0,
    decreases rows.len(),
{
    if rows.len() > 0 {
        assert(rows_fit(rows.drop_last(), width)) by {
            assert forall|i: int| 0 <= i < rows.drop_last().len() implies #[trigger] rows.drop_last()[i].width
                <= width by {
                assert(rows.drop_last()[i] == rows[i]);
            }
        }
        lemma_max_width_bound(rows.drop_last(), width);
        assert(rows[rows.len() - 1].width <= width);
    }
}

/// The width the chat window asks for when showing `rows` next to a scrollbar of
/// `scrollbar` columns: the widest row plus the scrollbar, or `None` without rows.
pub fn desired_width(rows: &Vec<ChatRow>, scrollbar: usize) -> (w: Option<usize>)
    requires
        max_width(rows@) matches Some(m) ==> m + scrollbar <= usize::MAX,
    ensures
        w == (match max_width(rows@) {
            Some(m) => Some((m + scrollbar) as usize),
            None => None,
        }),
{
    let mut widest: Option<usize> = None;
    let mut i: usize = 0;
    while i < rows.len()
        invariant
            i <= rows@.len(),
            widest == max_width(rows@.take(i as int)),
        decreases rows@.len() - i,
    {
        assert(rows@.take(i + 1).drop_last() =~= rows@.take(i as int));
        let w = rows[i].width;
        widest = match widest {
            None => Some(w),
            Some(m) => Some(
                if m >= w {
                    m
                } else {
                    w
                },
            ),
        };
        i = i + 1;
    }
    assert(rows@.take(rows@.len() as int) =~= rows@);
    match widest {
        None => None,
        Some(m) => Some(m + scrollbar),
    }
}

/// What the keyboard can ask of the chat window.
#[derive(Clone, Copy, Debug)]
pub enum ChatKey {
    Home,
    End,
    Up,
    Down,
    PageDown,
    PageUp,
    Other,
}

/// Whether the chat window used an event.
#[derive(Clone, Copy, Debug)]
pub enum EventResult {
    Ignored,
    Consumed,
}

/// Where a key press leaves the scroll position, or `None` when the window ignores it.
pub open spec fn scrolled_by_key(s: ScrollBase, key: ChatKey) -> Option<ScrollBase> {
    if !s.is_scrollable() {
        None
    } else {
        match key {
            ChatKey::Home => Some(ScrollBase { start_line: 0, ..s }),
            ChatKey::End => Some(ScrollBase { start_line: s.bottom_line(), ..s }),
            ChatKey::Up => if !s.at_top() {
                Some(s.scrolled_up(1))
            } else {
                None
            },
            ChatKey::Down => if !s.at_bottom() {
                Some(s.scrolled_down(1))
            } else {
                None
            },
            ChatKey::PageDown => Some(s.scrolled_down(10)),
            ChatKey::PageUp => Some(s.scrolled_up(10)),
            ChatKey::Other => None,
        }
    }
}

/// The lines held after appending `line` (less its trailing newline) to `lines`, the
/// oldest line being dropped once `max_scrollback` lines would be held.
pub open spec fn appended_lines(lines: Seq<Seq<char>>, max_scrollback: usize, line: Seq<char>) -> Seq<
    Seq<char>,
> {
    let pushed = lines.push(without_last_newline(line));
    if pushed.len() >= max_scrollback {
        pushed.drop_first()
    } else {
        pushed
    }
}

/// The state of a chat window as contracts see it.
pub struct ChatViewModel {
    /// The lines of text held, oldest first.
    pub lines: Seq<Seq<char>>,
    /// Lines are dropped from the front once this many would be held.
    pub max_scrollback: usize,
    /// The screen rows computed by the last layout.
    pub rows: Seq<ChatRow>,
    /// Whether the window should stick to the newest line.
    pub at_bottom: bool,
    pub scroll: ScrollBase,
    /// The cached result of the last layout, if still usable.
    pub last_size: Option<(SizeCache, SizeCache)>,
    /// The width the window asked for at the last complete layout.
    pub width: Option<usize>,
}

/// The cache of `last` still holds for the offered `size`.
pub open spec fn cache_valid(last: Option<(SizeCache, SizeCache)>, size: Vec2) -> bool {
    match last {
        None => false,
        Some((cx, cy)) => cx.accepts(size.x) && cy.accepts(size.y),
    }
}

/// The state after settling on `rows`, drawn next to a scrollbar of `scrollbar` columns,
/// within the offered `size`.
pub open spec fn settled(m: ChatViewModel, rows: Seq<ChatRow>, scrollbar: usize, size: Vec2) -> ChatViewModel {
    let width = match max_width(rows) {
        Some(w) => Some((w + scrollbar) as usize),
        None => None,
    };
    let my_size = Vec2 {
        x: match width {
            Some(w) => w,
            None => 0,
        },
        y: if rows.len() > size.y {
            size.y
        } else {
            rows.len() as usize
        },
    };
    ChatViewModel { rows, width, last_size: Some(SizeCache::built(my_size, size)), ..m }
}

/// The state after computing the rows for the offered `size`.
///
/// Nothing changes while the cache holds. Otherwise the cache is dropped and, unless the
/// size has no columns, the lines are wrapped to the full width; if that gives more rows
/// than fit, they are wrapped again two columns narrower to leave room for a scrollbar.
/// The layout is kept (and cached) unless no room is left for the scrollbar, or the
/// narrower wrapping yields no row at all from lines that are there.
pub open spec fn computed(m: ChatViewModel, size: Vec2) -> ChatViewModel {
    if cache_valid(m.last_size, size) {
        m
    } else if size.x == 0 {
        ChatViewModel { last_size: None, ..m }
    } else {
        let wide = layout_rows(m.lines, size.x);
        if wide.len() <= size.y {
            settled(m, wide, 0, size)
        } else if size.x < 2 {
            ChatViewModel { rows: wide, last_size: None, ..m }
        } else {
            let narrow = layout_rows(m.lines, (size.x - 2) as usize);
            if narrow.len() == 0 && m.lines.len() > 0 {
                ChatViewModel { rows: narrow, last_size: None, ..m }
            } else {
                settled(m, narrow, 2, size)
            }
        }
    }
}

/// The size the window asks for, given its state after computing rows for `size`.
pub open spec fn ideal_size(m: ChatViewModel, size: Vec2) -> Vec2 {
    Vec2 {
        x: match m.width {
            Some(w) => w,
            None => 0,
        },
        y: if m.rows.len() > size.y {
            size.y
        } else {
            m.rows.len() as usize
        },
    }
}

/// The state after a layout to `size`: rows computed, the scroll heights taken in, and
/// the view moved to the bottom when it sticks there.
pub open spec fn laid_out(m: ChatViewModel, size: Vec2) -> ChatViewModel {
    let c = computed(m, size);
    let s = c.scroll.with_heights(size.y, c.rows.len() as usize);
    ChatViewModel {
        scroll: if s.is_scrollable() && c.at_bottom {
            ScrollBase { start_line: s.bottom_line(), ..s }
        } else {
            s
        },
        ..c
    }
}

/// A scrolling window of chat lines, newest at the bottom, keeping a bounded scrollback.
pub struct ChatView {
    content: VecDeque<String>,
    max_scrollback: usize,
    rows: Vec<ChatRow>,
    at_bottom: bool,
    scrollbase: ScrollBase,
    last_size: Option<(SizeCache, SizeCache)>,
    width: Option<usize>,
}

impl View for ChatView {
    type V = ChatViewModel;

    closed spec fn view(&self) -> ChatViewModel {
        ChatViewModel {
            lines: self.content@.map_values(|s: String| s@),
            max_scrollback: self.max_scrollback,
            rows: self.rows@,
            at_bottom: self.at_bottom,
            scroll: self.scrollbase,
            last_size: self.last_size,
            width: self.width,
        }
    }
}

impl ChatView {
    /// Fewer lines than the scrollback limit are held (none at all when the limit is
    /// zero), the scroll position is consistent, and a cached layout records the width
    /// the window asked for.
    pub open spec fn wf(&self) -> bool {
        &&& self@.lines.len() < self@.max_scrollback || self@.lines.len() == 0
        &&& self@.scroll.wf()
        &&& self@.last_size matches Some((cx, _)) ==> cx.value == match self@.width {
            Some(w) => w,
            None => 0,
        }
    }

    /// An empty window that will hold fewer than `max_scrollback` lines.
    pub fn new(max_scrollback: usize) -> (v: ChatView)
        ensures
            v@ == (ChatViewModel {
                lines: Seq::empty(),
                max_scrollback,
                rows: Seq::empty(),
                at_bottom: true,
                scroll: ScrollBase { start_line: 0, content_height: 0, view_height: 0 },
                last_size: None,
                width: None,
            }),
            v.wf(),
    {
        let v = ChatView {
            content: VecDeque::with_capacity(max_scrollback),
            max_scrollback: max_scrollback,
            rows: Vec::new(),
            at_bottom: true,
            scrollbase: ScrollBase::new(),
            last_size: None,
            width: None,
        };
        assert(v@.lines =~= Seq::empty());
        v
    }

    /// Drops the cached layout, so that the next layout computes everything again.
    fn invalidate(&mut self)
        ensures
            final(self)@ == (ChatViewModel { last_size: None, ..old(self)@ }),
    {
        self.last_size = None;
    }

    /// Wraps every line to `width` columns, replacing the rows.
    fn rebuild_rows(&mut self, width: usize)
        ensures
            final(self)@ == (ChatViewModel { rows: layout_rows(old(self)@.lines, width), ..old(self)@ }),
            rows_fit(final(self)@.rows, width),
    {
        let ghost lines = self@.lines;
        let mut rows: Vec<ChatRow> = Vec::new();
        let n = self.content.len();
        let mut i: usize = 0;
        while i < n
            invariant
                n == self.content@.len(),
                lines == self@.lines,
                i <= n,
                rows@ == layout_rows(lines.take(i as int), width),
                rows_fit(rows@, width),
            decreases n - i,
        {
            let line: &String = &self.content[i];
            let wrapped = wrap_text(line.as_str(), width);
            let mut line_rows = rows_for_line(i, &wrapped);
            rows.append(&mut line_rows);
            assert(lines[i as int] == line@);
            assert(lines.take(i + 1).drop_last() =~= lines.take(i as int));
            assert(lines.take(i + 1).last() == lines[i as int]);
            i = i + 1;
        }
        assert(lines.take(n as int) =~= lines);
        self.rows = rows;
    }

    /// Computes the rows for the offered `size`, unless the cached layout still holds.
    fn compute_rows(&mut self, size: Vec2)
        requires
            old(self).wf(),
        ensures
            final(self)@ == computed(old(self)@, size),
            final(self)@.last_size is Some ==> cache_valid(final(self)@.last_size, size) && match final(self)@.width {
                Some(w) => w <= size.x,
                None => true,
            },
            old(self)@.last_size is Some && cache_valid(old(self)@.last_size, size)
                ==> final(self)@ == old(self)@,
            final(self).wf(),
    {
        if !self.is_cache_valid(size) {
            self.invalidate();
            if size.x == 0 {
                return;
            }
            self.rebuild_rows(size.x);
            let mut scrollbar: usize = 0;
            if self.rows.len() > size.y {
                scrollbar = 2;
                if size.x < scrollbar {
                    return;
                }
                self.rebuild_rows(size.x - scrollbar);
                if self.rows.len() == 0 && self.content.len() > 0 {
                    return;
                }
            }
            proof {
                lemma_max_width_bound(self.rows@, (size.x - scrollbar) as usize);
            }
            self.width = desired_width(&self.rows, scrollbar);
            let mut my_size = Vec2::new(
                match self.width {
                    Some(w) => w,
                    None => 0,
                },
                self.rows.len(),
            );
            if my_size.y > size.y {
                my_size.y = size.y;
            }
            self.last_size = Some(SizeCache::build(my_size, size));
        }
    }

    fn is_cache_valid(&self, size: Vec2) -> (b: bool)
        ensures
            b == cache_valid(self@.last_size, size),
    {
        match self.last_size {
            None => false,
            Some((cx, cy)) => cx.accept(size.x) && cy.accept(size.y),
        }
    }

    /// Adds a line at the bottom (without its trailing newline, if any), dropping the
    /// oldest line when the scrollback is full. The window then sticks to the bottom if
    /// asked to, or if the bottom was already in view.
    pub fn append_content(&mut self, line: String, scroll_to_bottom: bool)
        requires
            old(self).wf(),
        ensures
            final(self)@ == (ChatViewModel {
                lines: appended_lines(old(self)@.lines, old(self)@.max_scrollback, line@),
                at_bottom: scroll_to_bottom || old(self)@.scroll.at_bottom(),
                last_size: None,
                ..old(self)@
            }),
            final(self).wf(),
    {
        let mut line = line;
        strip_last_newline(&mut line);
        let ghost stripped = line@;
        let ghost before = self.content@;
        self.content.push_back(line);
        assert(self.content@.map_values(|s: String| s@) =~= old(self)@.lines.push(stripped));
        if self.content.len() >= self.max_scrollback {
            let ghost pushed = self.content@;
            self.content.pop_front();
            assert(self.content@ =~= pushed.drop_first());
            assert(self.content@.map_values(|s: String| s@) =~= old(self)@.lines.push(
                stripped,
            ).drop_first());
        }
        self.at_bottom = scroll_to_bottom || !self.scrollbase.can_scroll_down();
        self.invalidate();
    }

    /// Sticks the window to the bottom from the next layout on.
    pub fn scroll_to_bottom(&mut self)
        requires
            old(self).wf(),
        ensures
            final(self)@ == (ChatViewModel { at_bottom: true, last_size: None, ..old(self)@ }),
            final(self).wf(),
    {
        self.at_bottom = true;
        self.invalidate();
    }

    /// Scrolls on a navigation key. A window whose rows all fit ignores every key, and so
    /// do Up at the top, Down at the bottom, and any other key. When the key is used, the
    /// window sticks to the bottom exactly when the bottom is in view afterwards.
    pub fn on_event(&mut self, key: ChatKey) -> (r: EventResult)
        requires
            old(self).wf(),
        ensures
            match scrolled_by_key(old(self)@.scroll, key) {
                None => r is Ignored && final(self)@ == old(self)@,
                Some(s) => r is Consumed && final(self)@ == (ChatViewModel {
                    scroll: s,
                    at_bottom: s.at_bottom(),
                    ..old(self)@
                }),
            },
            final(self).wf(),
    {
        if !self.scrollbase.scrollable() {
            return EventResult::Ignored;
        }
        match key {
            ChatKey::Home => self.scrollbase.scroll_top(),
            ChatKey::End => self.scrollbase.scroll_bottom(),
            ChatKey::Up => {
                if self.scrollbase.can_scroll_up() {
                    self.scrollbase.scroll_up(1)
                } else {
                    return EventResult::Ignored;
                }
            },
            ChatKey::Down => {
                if self.scrollbase.can_scroll_down() {
                    self.scrollbase.scroll_down(1)
                } else {
                    return EventResult::Ignored;
                }
            },
            ChatKey::PageDown => self.scrollbase.scroll_down(10),
            ChatKey::PageUp => self.scrollbase.scroll_up(10),
            ChatKey::Other => {
                return EventResult::Ignored;
            },
        }
        self.at_bottom = !self.scrollbase.can_scroll_down();
        EventResult::Consumed
    }

    /// The window must be laid out again when it holds no usable cached layout.
    pub fn needs_relayout(&self) -> (b: bool)
        ensures
            b == (self@.last_size is None),
    {
        self.last_size.is_none()
    }

    /// Computes the rows for the offered `size` and returns the size the window would
    /// like: its width, and as many rows as it has, but never more than offered.
    pub fn get_min_size(&mut self, size: Vec2) -> (ideal: Vec2)
        requires
            old(self).wf(),
        ensures
            final(self)@ == computed(old(self)@, size),
            ideal == ideal_size(final(self)@, size),
            ideal.y <= size.y,
            final(self)@.last_size is Some ==> ideal.x <= size.x && cache_valid(
                final(self)@.last_size,
                size,
            ),
            final(self).wf(),
    {
        self.compute_rows(size);
        let mut ideal = Vec2::new(
            match self.width {
                Some(w) => w,
                None => 0,
            },
            self.rows.len(),
        );
        if ideal.y > size.y {
            ideal.y = size.y;
        }
        ideal
    }

    /// The window takes the focus only when there is something to scroll.
    pub fn take_focus(&self) -> (b: bool)
        ensures
            b == self@.scroll.is_scrollable(),
    {
        self.scrollbase.scrollable()
    }

    /// Lays the window out in `size`: computes the rows, gives the scroll position the
    /// view and content heights, and moves to the bottom if the window sticks there.
    pub fn layout(&mut self, size: Vec2)
        requires
            old(self).wf(),
        ensures
            final(self)@ == laid_out(old(self)@, size),
            final(self)@.at_bottom ==> final(self)@.scroll.at_bottom(),
            final(self)@.last_size is Some ==> cache_valid(final(self)@.last_size, size),
            final(self).wf(),
    {
        self.compute_rows(size);
        self.scrollbase.set_heights(size.y, self.rows.len());
        if self.scrollbase.scrollable() && self.at_bottom {
            self.scrollbase.scroll_bottom();
        }
    }

    /// The rows of the last layout, top to bottom.
    pub fn rows(&self) -> (r: &Vec<ChatRow>)
        ensures
            r@ == self@.rows,
    {
        &self.rows
    }

    /// How many lines the window holds.
    pub fn line_count(&self) -> (n: usize)
        ensures
            n == self@.lines.len(),
    {
        self.content.len()
    }

    /// The `i`-th line held, oldest first.
    pub fn line(&self, i: usize) -> (s: &String)
        requires
            i < self@.lines.len(),
        ensures
            s@ == self@.lines[i as int],
    {
        &self.content[i]
    }

    /// The current scroll position.
    pub fn scroll_position(&self) -> (s: ScrollBase)
        ensures
            s == self@.scroll,
    {
        self.scrollbase
    }

    /// Whether the window sticks to the newest line.
    pub fn is_at_bottom(&self) -> (b: bool)
        ensures
            b == self@.at_bottom,
    {
        self.at_bottom
    }
}

/// The scrollback bound holds after every append: fewer than `max_scrollback` lines are
/// held, or none at all.
pub proof fn lemma_scrollback_bound(lines: Seq<Seq<char>>, max_scrollback: usize, line: Seq<char>)
    requires
        lines.len() < max_scrollback || lines.len() == 0,
    ensures
        ({
            let after = appended_lines(lines, max_scrollback, line);
            after.len() < max_scrollback || after.len() == 0
        }),
{
}

/// With room for at least two lines, an appended line is the newest line held, and the
/// lines before it are the most recent of the lines held before.
pub proof fn lemma_append_keeps_newest(lines: Seq<Seq<char>>, max_scrollback: usize, line: Seq<char>)
    requires
        lines.len() < max_scrollback,
        max_scrollback >= 2,
    ensures
        ({
            let after = appended_lines(lines, max_scrollback, line);
            &&& after.len() > 0
            &&& after.last() == without_last_newline(line)
            &&& after.drop_last() == lines.subrange(
                lines.len() - (after.len() - 1),
                lines.len() as int,
            )
        }),
{
    let after = appended_lines(lines, max_scrollback, line);
    let pushed = lines.push(without_last_newline(line));
    if pushed.len() >= max_scrollback {
        assert(after.drop_last() =~= lines.subrange(1, lines.len() as int));
    } else {
        assert(after.drop_last() =~= lines.subrange(0, lines.len() as int));
    }
}

/// While the cached layout holds for a size, computing the rows for that size changes
/// nothing.
pub proof fn lemma_cached_layout_stable(m: ChatViewModel, size: Vec2)
    requires
        cache_valid(m.last_size, size),
    ensures
        computed(m, size) == m,
{
}

/// Appending a line or sticking to the bottom always calls for a new layout.
pub proof fn lemma_changes_need_relayout(m: ChatViewModel, line: Seq<char>, scroll_to_bottom: bool)
    ensures
        (ChatViewModel {
            lines: appended_lines(m.lines, m.max_scrollback, line),
            at_bottom: scroll_to_bottom || m.scroll.at_bottom(),
            last_size: None,
            ..m
        }).last_size is None,
        (ChatViewModel { at_bottom: true, last_size: None, ..m }).last_size is None,
{
}

/// A window that sticks to the bottom shows the newest row once laid out.
pub proof fn lemma_layout_shows_newest(m: ChatViewModel, size: Vec2)
    requires
        m.scroll.wf(),
    ensures
        laid_out(m, size).at_bottom ==> laid_out(m, size).scroll.at_bottom(),
        laid_out(m, size).scroll.wf(),
{
}

/// A cached layout is reused for an offered size only when, on each axis, the offered
/// size is at least the cached one, and exactly the cached one when that axis had to be
/// cut down to fit; and it is reused for every such size.
pub proof fn lemma_cache_reuse_rule(cx: SizeCache, cy: SizeCache, size: Vec2)
    ensures
        cache_valid(Some((cx, cy)), size) <==> {
            &&& cx.value <= size.x
            &&& cy.value <= size.y
            &&& cx.constrained ==> size.x == cx.value
            &&& cy.constrained ==> size.y == cy.value
        },
{
}

/// Reusing a cached layout gives the same rows, width and wanted size as laying out again
/// from scratch, for any height the cache accepts at the width it was computed for. This
/// holds when wrapping two columns narrower never gives fewer rows, which is how line
/// wrapping behaves (the rows themselves come from `cursive`).
pub proof fn lemma_cache_transparent(m: ChatViewModel, size: Vec2, offered: Vec2)
    requires
        !cache_valid(m.last_size, size),
        offered.x == size.x,
        cache_valid(computed(m, size).last_size, offered),
        size.x >= 2 ==> layout_rows(m.lines, (size.x - 2) as usize).len() >= layout_rows(
            m.lines,
            size.x,
        ).len(),
    ensures
        ({
            let cached = computed(m, size);
            let fresh = computed(ChatViewModel { last_size: None, ..cached }, offered);
            &&& computed(cached, offered) == cached
            &&& fresh.rows == cached.rows
            &&& fresh.width == cached.width
            &&& ideal_size(fresh, offered) == ideal_size(cached, offered)
        }),
{
    let wide = layout_rows(m.lines, size.x);
    if m.lines.len() == 0 {
        assert(layout_rows(m.lines, size.x) =~= Seq::<ChatRow>::empty());
    }
    if wide.len() > size.y && size.x >= 2 {
        let narrow = layout_rows(m.lines, (size.x - 2) as usize);
        if m.lines.len() == 0 {
            assert(narrow =~= Seq::<ChatRow>::empty());
        }
    }
}

/// Wrapping the lines to `width` columns gives, after the rows of the earlier lines, one
/// row for each row the wrapper cuts the newest line into for that same width: tagged with
/// the line's index, with the wrapper's byte range and width.
pub proof fn lemma_layout_rows_of_new_line(lines: Seq<Seq<char>>, line: Seq<char>, width: usize)
    requires
        lines.len() < usize::MAX,
    ensures
        ({
            let before = layout_rows(lines, width);
            let after = layout_rows(lines.push(line), width);
            let wrapped = wrapped_rows(line, width);
            &&& after.len() == before.len() + wrapped.len()
            &&& after.subrange(0, before.len() as int) == before
            &&& forall|k: int|
                0 <= k < wrapped.len() ==> {
                    let r = #[trigger] after[before.len() + k];
                    &&& r.line == lines.len()
                    &&& r.start == wrapped[k].0
                    &&& r.end == wrapped[k].1
                    &&& r.width == wrapped[k].2
                }
        }),
{
    let after = layout_rows(lines.push(line), width);
    assert(lines.push(line).drop_last() =~= lines);
    assert(lines.push(line).last() == line);
    assert(after.subrange(0, layout_rows(lines, width).len() as int) =~= layout_rows(lines, width));
}

/// Each append drops at most the oldest line: a window holding `n` lines, fewer than its
/// limit, holds `min(n + 1, limit - 1)` lines afterwards, the newest ones in order.
pub proof fn lemma_append_drops_at_most_one(lines: Seq<Seq<char>>, max_scrollback: usize, line: Seq<char>)
    requires
        max_scrollback >= 1,
        lines.len() < max_scrollback,
    ensures
        ({
            let after = appended_lines(lines, max_scrollback, line);
            let all = lines.push(without_last_newline(line));
            &&& after.len() == if lines.len() + 1 <= max_scrollback - 1 {
                lines.len() + 1int
            } else {
                max_scrollback - 1
            }
            &&& after == all.subrange(all.len() - after.len(), all.len() as int)
        }),
{
    let after = appended_lines(lines, max_scrollback, line);
    let all = lines.push(without_last_newline(line));
    if all.len() >= max_scrollback {
        assert(after =~= all.subrange(1, all.len() as int));
    } else {
        assert(after =~= all.subrange(0, all.len() as int));
    }
}

/// How each key moves the first visible row of a window whose rows do not all fit:
/// Home to the first row, End to the last screenful, Up and Down by exactly one row
/// (ignored at the top and at the bottom respectively), PageUp and PageDown by ten rows
/// but never past the top or the bottom; the heights never change.
pub proof fn lemma_key_moves(s: ScrollBase, key: ChatKey)
    requires
        s.wf(),
        s.view_height < s.content_height,
    ensures
        ({
            let r = scrolled_by_key(s, key);
            &&& r is Some ==> r.unwrap().view_height == s.view_height && r.unwrap().content_height
                == s.content_height
            &&& key is Home ==> r == Some(ScrollBase { start_line: 0, ..s })
            &&& key is End ==> r is Some && r.unwrap().start_line + s.view_height == s.content_height
            &&& (key is Down && s.start_line + s.view_height < s.content_height) ==> r is Some
                && r.unwrap().start_line == s.start_line + 1
            &&& (key is Down && s.start_line + s.view_height >= s.content_height) ==> r is None
            &&& (key is Up && s.start_line > 0) ==> r is Some && r.unwrap().start_line
                == s.start_line - 1
            &&& (key is Up && s.start_line == 0) ==> r is None
            &&& key is PageDown ==> r is Some && r.unwrap().start_line == (if s.start_line + 10
                + s.view_height <= s.content_height {
                s.start_line + 10
            } else {
                s.content_height - s.view_height
            })
            &&& key is PageUp ==> r is Some && r.unwrap().start_line == (if s.start_line >= 10 {
                s.start_line - 10
            } else {
                0
            })
            &&& key is Other ==> r is None
        }),
{
}

} // verus!
