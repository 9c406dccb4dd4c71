//! The scrollback model: one logical output line (`BufferLine`) with greedy,
//! Unicode-codepoint-safe word wrapping, and a bounded FIFO buffer of such
//! lines (`LineBuffer`) with a clamped scroll offset and a visible-window
//! query that never splits a logical line.

use vstd::prelude::*;

verus! {

/// Kind of a terminal line, for rendering and management.
#[derive(Clone, Copy, PartialEq, Eq, Structural, Debug)]
pub enum LineType {
    Normal,
    Command,
    Output,
    Boot,
    Typing,
    Prompt,
    Error,
    System,
}

/// How the input line currently reacts to keystrokes.
#[derive(Clone, Copy, PartialEq, Eq, Structural, Debug)]
pub enum InputMode {
    Normal,
    Processing,
    Disabled,
}

/// One logical line of output together with its wrapped form.
pub struct BufferLine {
    pub content: String,
    pub line_type: LineType,
    pub color: Option<String>,
    pub timestamp: u64,
    pub wrapped_lines: Vec<String>,
}

/// The mathematical model of a `BufferLine`: its strings as character
/// sequences.
pub struct BufferLineView {
    pub content: Seq<char>,
    pub line_type: LineType,
    pub color: Option<Seq<char>>,
    pub timestamp: u64,
    pub wrapped: Seq<Seq<char>>,
}

impl View for BufferLine {
    type V = BufferLineView;

    open spec fn view(&self) -> BufferLineView {
        BufferLineView {
            content: self.content@,
            line_type: self.line_type,
            color: match self.color {
                Option::Some(c) => Option::Some(c@),
                Option::None => Option::None,
            },
            timestamp: self.timestamp,
            wrapped: self.wrapped_lines.deep_view(),
        }
    }
}

impl DeepView for BufferLine {
    type V = BufferLineView;

    open spec fn deep_view(&self) -> BufferLineView {
        self.view()
    }
}

/// The models of a sequence of buffer lines.
pub open spec fn lines_view(s: Seq<BufferLine>) -> Seq<BufferLineView> {
    s.map_values(|l: BufferLine| l@)
}

/// Index of the last space strictly before `end` in `s`, or -1 when the
/// prefix `s[..end]` holds no space.
pub open spec fn last_space_in(s: Seq<char>, end: int) -> int
    decreases end,
{
    if end <= 0 {
        -1
    } else if s[end - 1] == ' ' {
        end - 1
    } else {
        last_space_in(s, end - 1)
    }
}

proof fn lemma_last_space_in_bounds(s: Seq<char>, end: int)
    requires
        end >= 0,
    ensures
        -1 <= last_space_in(s, end) < end,
        last_space_in(s, end) >= 0 ==> s[last_space_in(s, end)] == ' ',
    decreases end,
{
    if end > 0 && s[end - 1] != ' ' {
        lemma_last_space_in_bounds(s, end - 1);
    }
}

pub proof fn lemma_last_space_in_at(s: Seq<char>, end: int, b: int)
    requires
        -1 <= b < end,
        b >= 0 ==> s[b] == ' ',
        forall|k: int| b < k < end ==> s[k] != ' ',
    ensures
        last_space_in(s, end) == b,
    decreases end,
{
    if end > 0 && s[end - 1] != ' ' {
        lemma_last_space_in_at(s, end - 1, b);
    }
}

/// The greedy wrapping of `s` at width `w`: a line that fits is kept whole;
/// otherwise the line breaks at the last space within the first `w`
/// characters (the space is consumed), or hard-breaks after `w` characters
/// when that window holds no space.
pub open spec fn wrap_spec(s: Seq<char>, w: int) -> Seq<Seq<char>>
    decreases s.len(),
        when w >= 1
    via wrap_spec_dec
{
    if s.len() <= w {
        seq![s]
    } else {
        let b = last_space_in(s, w);
        if b >= 0 {
            seq![s.take(b)] + wrap_spec(s.skip(b + 1), w)
        } else {
            seq![s.take(w)] + wrap_spec(s.skip(w), w)
        }
    }
}

#[via_fn]
proof fn wrap_spec_dec(s: Seq<char>, w: int) {
    if s.len() > w {
        lemma_last_space_in_bounds(s, w);
    }
}

/// `segs` reassembles to `s` when each segment is laid back in order and a
/// single consumed breaking space is restored at the seams that were broken
/// at a space; every segment fits in `w`.
pub open spec fn rejoins(segs: Seq<Seq<char>>, s: Seq<char>, w: int) -> bool
    decreases segs.len(),
{
    if segs.len() == 0 {
        s.len() == 0
    } else {
        let seg = segs[0];
        &&& seg.len() <= w
        &&& seg == s.take(seg.len() as int)
        &&& {
            ||| rejoins(segs.skip(1), s.skip(seg.len() as int), w)
            ||| (s.len() > seg.len() && s[seg.len() as int] == ' ' && rejoins(
                segs.skip(1),
                s.skip(seg.len() as int + 1),
                w,
            ))
        }
    }
}

/// Wrapping round-trip: the wrapped lines of any content, at any width of at
/// least one column, reassemble to the content with only the consumed
/// breaking spaces restored, and every wrapped segment fits in the width.
pub proof fn lemma_wrap_round_trip(s: Seq<char>, w: int)
    requires
        w >= 1,
    ensures
        rejoins(wrap_spec(s, w), s, w),
    decreases s.len(),
{
    if s.len() <= w {
        let segs = wrap_spec(s, w);
        assert(segs[0] == s);
        assert(s.take(s.len() as int) =~= s);
        assert(s.skip(s.len() as int) =~= Seq::<char>::empty());
        assert(segs.skip(1) =~= Seq::<Seq<char>>::empty());
        assert(rejoins(Seq::<Seq<char>>::empty(), Seq::<char>::empty(), w));
        assert(rejoins(segs.skip(1), s.skip(segs[0].len() as int), w));
    } else {
        lemma_last_space_in_bounds(s, w);
        let b = last_space_in(s, w);
        if b >= 0 {
            lemma_wrap_round_trip(s.skip(b + 1), w);
            let segs = wrap_spec(s, w);
            assert(segs[0] == s.take(b));
            assert(s.take(b).len() == b);
            assert(s.take(b) =~= s.take(s.take(b).len() as int));
            assert(s[b] == ' ');
            assert(segs.skip(1) =~= wrap_spec(s.skip(b + 1), w));
        } else {
            lemma_wrap_round_trip(s.skip(w), w);
            let segs = wrap_spec(s, w);
            assert(segs[0] == s.take(w));
            assert(s.take(w).len() == w);
            assert(s.take(w) =~= s.take(s.take(w).len() as int));
            assert(segs.skip(1) =~= wrap_spec(s.skip(w), w));
        }
    }
}

/// Wrapping always yields at least one segment, so a line occupies at least
/// one visual row.
pub proof fn lemma_wrap_nonempty(s: Seq<char>, w: int)
    requires
        w >= 1,
    ensures
        wrap_spec(s, w).len() >= 1,
{
    if s.len() > w {
        lemma_last_space_in_bounds(s, w);
    }
}

impl BufferLine {
    /// The wrapped form this line must carry at width `w`.
    pub open spec fn wrapping_ok(self, w: int) -> bool {
        self.wrapped_lines.deep_view() == wrap_spec(self.content@, w)
    }

    /// A fresh, not yet wrapped line; the buffer stamps and wraps it.
    pub fn new(content: String, line_type: LineType, color: Option<String>) -> (r: BufferLine)
        ensures
            r.content == content,
            r.line_type == line_type,
            r.color == color,
            r.timestamp == 0,
            r.wrapped_lines@ =~= Seq::<String>::empty(),
    {
        BufferLine { content, line_type, color, timestamp: 0, wrapped_lines: Vec::new() }
    }

    /// Recomputes `wrapped_lines` from `content` at width `max_width`,
    /// counting characters, not bytes.
    pub fn calculate_wrapping(&mut self, max_width: usize)
        requires
            max_width >= 1,
        ensures
            final(self).content == old(self).content,
            final(self).line_type == old(self).line_type,
            final(self).color == old(self).color,
            final(self).timestamp == old(self).timestamp,
            final(self).wrapping_ok(max_width as int),
    {
        self.wrapped_lines = Vec::new();
        let len: usize = self.content.as_str().unicode_len();
        if len <= max_width {
            let whole: String = self.content.clone();
            self.wrapped_lines.push(whole);
            proof {
                assert(self.wrapped_lines.deep_view() =~= wrap_spec(
                    self.content@,
                    max_width as int,
                ));
            }
            return ;
        }
        let s: &str = self.content.as_str();
        let mut start: usize = 0;
        let mut done: bool = false;
        proof {
            assert(self.content@.skip(0) =~= self.content@);
        }
        while !done
            invariant
                max_width >= 1,
                len == s@.len(),
                s@ == self.content@,
                self.content == old(self).content,
                self.line_type == old(self).line_type,
                self.color == old(self).color,
                self.timestamp == old(self).timestamp,
                !done ==> start < len,
                wrap_spec(self.content@, max_width as int) == self.wrapped_lines.deep_view()
                    + if done {
                    Seq::<Seq<char>>::empty()
                } else {
                    wrap_spec(self.content@.skip(start as int), max_width as int)
                },
            decreases len - start, (if done { 0int } else { 1int }),
        {
            let ghost rest = s@.skip(start as int);
            if max_width >= len - start {
                // final chunk: everything left fits
                let chunk: String = s.substring_char(start, len).to_owned();
                proof {
                    assert(rest =~= s@.subrange(start as int, len as int));
                    assert(wrap_spec(rest, max_width as int) =~= seq![rest]);
                }
                let ghost before = self.wrapped_lines.deep_view();
                self.wrapped_lines.push(chunk);
                proof {
                    assert(self.wrapped_lines.deep_view() =~= before + seq![rest]);
                }
                done = true;
            } else {
                let end: usize = start + max_width;
                // scan backward for the last space in the window
                let mut break_point: usize = end;
                let mut i: usize = end;
                while i > start && break_point == end
                    invariant
                        start <= i <= end,
                        start < end <= len,
                        len == s@.len(),
                        break_point == end || (start <= break_point < end && s@[break_point as int]
                            == ' '),
                        break_point == end ==> forall|k: int|
                            i <= k < end ==> s@[k] != ' ',
                        break_point < end ==> forall|k: int|
                            break_point < k < end ==> s@[k] != ' ',
                    decreases i,
                {
                    if s.get_char(i - 1) == ' ' {
                        break_point = i - 1;
                    }
                    i = i - 1;
                }
                let ghost w = max_width as int;
                if break_point < end {
                    // break at the space; the space itself is consumed
                    proof {
                        assert forall|k: int|
                            (break_point as int - start as int) < k < w implies rest[k] != ' ' by {
                            assert(rest[k] == s@[start as int + k]);
                        }
                        assert(rest[break_point as int - start as int] == s@[break_point as int]);
                        lemma_last_space_in_at(rest, w, break_point as int - start as int);
                    }
                    let chunk: String = s.substring_char(start, break_point).to_owned();
                    let ghost before = self.wrapped_lines.deep_view();
                    self.wrapped_lines.push(chunk);
                    proof {
                        let b = break_point as int - start as int;
                        assert(rest.take(b) =~= s@.subrange(start as int, break_point as int));
                        assert(rest.skip(b + 1) =~= s@.skip(break_point as int + 1));
                        assert(self.wrapped_lines.deep_view() =~= before + seq![rest.take(b)]);
                        assert(before + (seq![rest.take(b)] + wrap_spec(rest.skip(b + 1), w))
                            =~= self.wrapped_lines.deep_view() + wrap_spec(rest.skip(b + 1), w));
                    }
                    start = break_point + 1;
                } else {
                    // no space in the window: hard break at the width
                    proof {
                        assert forall|k: int| -1 < k < w implies rest[k] != ' ' by {
                            assert(rest[k] == s@[start as int + k]);
                        }
                        lemma_last_space_in_at(rest, w, -1);
                    }
                    let chunk: String = s.substring_char(start, end).to_owned();
                    let ghost before = self.wrapped_lines.deep_view();
                    self.wrapped_lines.push(chunk);
                    proof {
                        assert(rest.take(w) =~= s@.subrange(start as int, end as int));
                        assert(rest.skip(w) =~= s@.skip(end as int));
                        assert(self.wrapped_lines.deep_view() =~= before + seq![rest.take(w)]);
                        assert(before + (seq![rest.take(w)] + wrap_spec(rest.skip(w), w))
                            =~= self.wrapped_lines.deep_view() + wrap_spec(rest.skip(w), w));
                    }
                    start = end;
                }
            }
        }
        proof {
            assert(self.wrapped_lines.deep_view() + Seq::<Seq<char>>::empty()
                =~= self.wrapped_lines.deep_view());
        }
    }

    /// Number of visual rows this line occupies once wrapped.
    pub open spec fn visual_count_spec(self) -> int {
        if self.wrapped_lines@.len() == 0 {
            1
        } else {
            self.wrapped_lines@.len() as int
        }
    }

    /// The number of visual lines this buffer line occupies.
    pub fn visual_line_count(&self) -> (r: usize)
        ensures
            r as int == self.visual_count_spec(),
    {
        if self.wrapped_lines.len() == 0 {
            1
        } else {
            self.wrapped_lines.len()
        }
    }
}

impl Clone for BufferLine {
    /// A clone has the same model as the value it was made from.
    fn clone(&self) -> (r: Self)
        ensures
            r@ == self@,
    {
        let mut wrapped: Vec<String> = Vec::new();
        let mut i: usize = 0;
        while i < self.wrapped_lines.len()
            invariant
                0 <= i <= self.wrapped_lines@.len(),
                wrapped@.len() == i,
                forall|k: int| 0 <= k < i ==> wrapped@[k] == self.wrapped_lines@[k],
            decreases self.wrapped_lines@.len() - i,
        {
            wrapped.push(self.wrapped_lines[i].clone());
            i = i + 1;
        }
        proof {
            assert(wrapped.deep_view() =~= self.wrapped_lines.deep_view());
        }
        let color: Option<String> = match &self.color {
            Option::Some(c) => Option::Some(c.clone()),
            Option::None => Option::None,
        };
        BufferLine {
            content: self.content.clone(),
            line_type: self.line_type,
            color,
            timestamp: self.timestamp,
            wrapped_lines: wrapped,
        }
    }
}

/// Input and scroll state of the terminal.
pub struct TerminalState {
    pub current_input: String,
    pub cursor_position: usize,
    pub prompt: String,
    pub input_mode: InputMode,
    pub scroll_offset: usize,
}

/// The mathematical model of a `TerminalState`.
pub struct TerminalStateView {
    pub current_input: Seq<char>,
    pub cursor_position: int,
    pub prompt: Seq<char>,
    pub input_mode: InputMode,
    pub scroll_offset: int,
}

impl View for TerminalState {
    type V = TerminalStateView;

    open spec fn view(&self) -> TerminalStateView {
        TerminalStateView {
            current_input: self.current_input@,
            cursor_position: self.cursor_position as int,
            prompt: self.prompt@,
            input_mode: self.input_mode,
            scroll_offset: self.scroll_offset as int,
        }
    }
}

/// The prompt a fresh session shows.
pub open spec fn default_prompt() -> Seq<char> {
    "objz@objz:~$ "@
}

impl TerminalState {
    /// The cursor never passes the end of the input.
    pub open spec fn wf(self) -> bool {
        self.cursor_position <= self.current_input@.len()
    }
}

impl Default for TerminalState {
    /// Empty input at cursor zero, the default prompt, normal mode, pinned to
    /// the bottom.
    fn default() -> (r: Self)
        ensures
            r@.current_input == Seq::<char>::empty(),
            r@.cursor_position == 0,
            r@.prompt == default_prompt(),
            r@.input_mode == InputMode::Normal,
            r@.scroll_offset == 0,
            r.wf(),
    {
        TerminalState {
            current_input: String::new(),
            cursor_position: 0,
            prompt: String::from_str("objz@objz:~$ "),
            input_mode: InputMode::Normal,
            scroll_offset: 0,
        }
    }
}

impl Clone for TerminalState {
    /// A clone has the same model as the value it was made from.
    fn clone(&self) -> (r: Self)
        ensures
            r@ == self@,
    {
        TerminalState {
            current_input: self.current_input.clone(),
            cursor_position: self.cursor_position,
            prompt: self.prompt.clone(),
            input_mode: self.input_mode,
            scroll_offset: self.scroll_offset,
        }
    }
}

/// Visual rows of one modelled line.
pub open spec fn view_visual_count(v: BufferLineView) -> int {
    if v.wrapped.len() == 0 {
        1
    } else {
        v.wrapped.len() as int
    }
}

/// Total visual rows of a modelled buffer.
pub open spec fn total_visual(vs: Seq<BufferLineView>) -> int
    decreases vs.len(),
{
    if vs.len() == 0 {
        0
    } else {
        total_visual(vs.drop_last()) + view_visual_count(vs.last())
    }
}

/// Appending to a bounded FIFO: push at the back, then drop from the front
/// whatever exceeds `max`.
pub open spec fn push_bounded<A>(s: Seq<A>, x: A, max: int) -> Seq<A> {
    let t = s.push(x);
    if t.len() > max {
        t.skip(t.len() - max)
    } else {
        t
    }
}

/// `push_bounded` folded over a whole sequence of insertions.
pub open spec fn push_bounded_all<A>(s: Seq<A>, xs: Seq<A>, max: int) -> Seq<A>
    decreases xs.len(),
{
    if xs.len() == 0 {
        s
    } else {
        push_bounded_all(push_bounded(s, xs[0], max), xs.skip(1), max)
    }
}

/// Buffer bound: a bounded FIFO that starts within its bound always holds at
/// most `max` lines, and holds exactly the most recent insertions — the
/// concatenation of the start and all insertions, minus the oldest overflow.
pub proof fn lemma_buffer_fifo<A>(s: Seq<A>, xs: Seq<A>, max: int)
    requires
        max >= 1,
        s.len() <= max,
    ensures
        push_bounded_all(s, xs, max) == (s + xs).skip(
            if s.len() + xs.len() - max > 0 {
                s.len() + xs.len() - max
            } else {
                0
            },
        ),
        push_bounded_all(s, xs, max).len() <= max,
    decreases xs.len(),
{
    if xs.len() == 0 {
        assert((s + xs) =~= s);
        assert(s.skip(0) =~= s);
    } else {
        let x = xs[0];
        let rest = xs.skip(1);
        let pb = push_bounded(s, x, max);
        let d0: int = if s.len() + 1 - max > 0 {
            s.len() + 1 - max
        } else {
            0
        };
        assert(pb =~= (s.push(x)).skip(d0));
        assert(pb.len() <= max);
        lemma_buffer_fifo(pb, rest, max);
        let d1: int = if pb.len() + rest.len() - max > 0 {
            pb.len() + rest.len() - max
        } else {
            0
        };
        let d: int = if s.len() + xs.len() - max > 0 {
            s.len() + xs.len() - max
        } else {
            0
        };
        assert(pb + rest =~= ((s.push(x)) + rest).skip(d0));
        assert((s.push(x)) + rest =~= s + xs);
        assert((pb + rest).skip(d1) =~= (s + xs).skip(d0 + d1));
        assert(d0 + d1 == d);
    }
}

/// How many lines fit in the visible window, counted from the newest line
/// backward: lines are taken whole while their visual rows fit in `budget`;
/// the first line that would overflow is excluded entirely.
pub open spec fn visible_len(vs: Seq<BufferLineView>, budget: int) -> int
    decreases vs.len(),
{
    if vs.len() == 0 {
        0
    } else {
        let c = view_visual_count(vs.last());
        if c > budget {
            0
        } else {
            1 + visible_len(vs.drop_last(), budget - c)
        }
    }
}

/// The visible window is sound: it is never longer than the buffer, its
/// visual rows fit in the budget, and it is maximal — the next older line
/// would overflow the budget.
pub proof fn lemma_visible_window(vs: Seq<BufferLineView>, budget: int)
    requires
        budget >= 0,
    ensures
        0 <= visible_len(vs, budget) <= vs.len(),
        total_visual(vs.skip(vs.len() - visible_len(vs, budget))) <= budget,
        visible_len(vs, budget) < vs.len() ==> view_visual_count(
            vs[vs.len() - visible_len(vs, budget) - 1],
        ) + total_visual(vs.skip(vs.len() - visible_len(vs, budget))) > budget,
    decreases vs.len(),
{
    if vs.len() == 0 {
        assert(vs.skip(0) =~= vs);
    } else {
        let c = view_visual_count(vs.last());
        if c > budget {
            assert(visible_len(vs, budget) == 0);
            assert(vs.skip(vs.len() as int) =~= Seq::<BufferLineView>::empty());
            assert(vs[vs.len() - 1] == vs.last());
        } else {
            lemma_visible_window(vs.drop_last(), budget - c);
            let front = vs.drop_last();
            let k = visible_len(front, budget - c);
            assert(visible_len(vs, budget) == 1 + k);
            let tail = vs.skip(vs.len() - 1 - k);
            assert(tail.drop_last() =~= front.skip(front.len() - k));
            assert(tail.last() == vs.last());
            assert(total_visual(tail) == total_visual(front.skip(front.len() - k)) + c);
            if 1 + k < vs.len() {
                assert(vs[vs.len() - (1 + k) - 1] == front[front.len() - k - 1]);
            }
        }
    }
}

/// Addition on a timestamp counter that stops at the largest value instead of
/// wrapping.
pub open spec fn sat_add64(t: u64, d: int) -> u64 {
    if t + d <= u64::MAX {
        (t + d) as u64
    } else {
        u64::MAX as u64
    }
}

/// The model of the colour tag.
pub open spec fn view_color(c: Option<String>) -> Option<Seq<char>> {
    match c {
        Option::Some(s) => Option::Some(s@),
        Option::None => Option::None,
    }
}

/// The model of the line `add_line` appends for the given arguments, stamp
/// and width.
pub open spec fn mk_line_view(
    content: Seq<char>,
    line_type: LineType,
    color: Option<Seq<char>>,
    stamp: u64,
    w: int,
) -> BufferLineView {
    BufferLineView { content, line_type, color, timestamp: stamp, wrapped: wrap_spec(content, w) }
}

/// Index of the first newline in `s`, or the length of `s` when it has none.
pub open spec fn line_break_at(s: Seq<char>) -> int
    decreases s.len(),
{
    if s.len() == 0 {
        0
    } else if s[0] == '\n' {
        0
    } else {
        1 + line_break_at(s.skip(1))
    }
}

proof fn lemma_line_break_at_bound(s: Seq<char>)
    ensures
        0 <= line_break_at(s) <= s.len(),
        line_break_at(s) < s.len() ==> s[line_break_at(s)] == '\n',
        forall|k: int| 0 <= k < line_break_at(s) ==> s[k] != '\n',
    decreases s.len(),
{
    if s.len() > 0 && s[0] != '\n' {
        lemma_line_break_at_bound(s.skip(1));
        assert forall|k: int| 0 <= k < line_break_at(s) implies s[k] != '\n' by {
            if k > 0 {
                assert(s.skip(1)[k - 1] == s[k]);
            }
        }
    }
}

proof fn lemma_line_break_at_is(s: Seq<char>, k: int)
    requires
        0 <= k <= s.len(),
        forall|m: int| 0 <= m < k ==> s[m] != '\n',
        k < s.len() ==> s[k] == '\n',
    ensures
        line_break_at(s) == k,
    decreases k,
{
    if k > 0 {
        lemma_line_break_at_is(s.skip(1), k - 1);
    }
}

/// `s` split at newline characters, preserving empty lines; an empty text
/// yields no line, and a final newline closes the last line without opening
/// an empty one, as `str::lines` behaves on texts without carriage returns.
pub open spec fn split_lines_spec(s: Seq<char>) -> Seq<Seq<char>>
    decreases s.len(),
    via split_lines_spec_dec
{
    if s.len() == 0 {
        Seq::empty()
    } else {
        let k = line_break_at(s);
        if k == s.len() {
            seq![s]
        } else {
            seq![s.take(k)] + split_lines_spec(s.skip(k + 1))
        }
    }
}

#[via_fn]
proof fn split_lines_spec_dec(s: Seq<char>) {
    if s.len() > 0 {
        lemma_line_break_at_bound(s);
    }
}

/// Splits text into its lines at newline characters.
pub fn split_lines(s: &str) -> (r: Vec<String>)
    ensures
        r.deep_view() == split_lines_spec(s@),
{
    let len: usize = s.unicode_len();
    let mut out: Vec<String> = Vec::new();
    let mut i: usize = 0;
    proof {
        assert(s@.skip(0) =~= s@);
    }
    while i < len
        invariant
            0 <= i <= len,
            len == s@.len(),
            split_lines_spec(s@) == out.deep_view() + split_lines_spec(s@.skip(i as int)),
        decreases len - i,
    {
        let start: usize = i;
        let mut j: usize = i;
        while j < len && s.get_char(j) != '\n'
            invariant
                i <= j <= len,
                len == s@.len(),
                forall|m: int| i <= m < j ==> s@[m] != '\n',
            decreases len - j,
        {
            j = j + 1;
        }
        let ghost rest = s@.skip(i as int);
        proof {
            assert forall|m: int| 0 <= m < j - i implies rest[m] != '\n' by {
                assert(rest[m] == s@[i + m]);
            }
            if j < len {
                assert(rest[j - i] == s@[j as int]);
            }
            lemma_line_break_at_is(rest, j - i);
        }
        let piece: String = s.substring_char(start, j).to_owned();
        let ghost before = out.deep_view();
        out.push(piece);
        proof {
            assert(rest.take(j - i) =~= s@.subrange(i as int, j as int));
            assert(out.deep_view() =~= before + seq![rest.take(j - i)]);
        }
        if j == len {
            proof {
                assert(split_lines_spec(rest) =~= seq![rest]);
                assert(rest =~= s@.subrange(i as int, j as int));
                assert(out.deep_view() + split_lines_spec(s@.skip(len as int)) =~= out.deep_view()
                    + Seq::<Seq<char>>::empty());
                assert(out.deep_view() + Seq::<Seq<char>>::empty() =~= out.deep_view());
            }
            i = len;
        } else {
            proof {
                assert(split_lines_spec(rest) =~= seq![rest.take(j - i)] + split_lines_spec(
                    rest.skip(j - i + 1),
                ));
                assert(rest.skip(j - i + 1) =~= s@.skip(j + 1));
                assert(out.deep_view() + split_lines_spec(s@.skip(j + 1)) =~= before + (seq![
                    rest.take(j - i),
                ] + split_lines_spec(rest.skip(j - i + 1))));
            }
            i = j + 1;
        }
    }
    proof {
        if len > 0 {
            assert(s@.skip(len as int) =~= Seq::<char>::empty());
        }
        assert(out.deep_view() + Seq::<Seq<char>>::empty() =~= out.deep_view());
        assert(s@.skip(0) =~= s@);
    }
    out
}

/// Largest scroll offset that still shows a full window: the visual rows that
/// do not fit on the screen.
pub open spec fn max_scroll_spec(total: int, height: int) -> int {
    if total - height > 0 {
        total - height
    } else {
        0
    }
}

/// Scrolling up adds and clamps at the top.
pub open spec fn scroll_up_spec(off: int, n: int, maxs: int) -> int {
    if off + n <= maxs {
        off + n
    } else {
        maxs
    }
}

/// Scrolling down subtracts and clamps at the bottom.
pub open spec fn scroll_down_spec(off: int, n: int) -> int {
    if off - n >= 0 {
        off - n
    } else {
        0
    }
}

/// Scroll clamp: scrolling up from any state lands in `[0, maxScroll]` of the
/// true total, even when the clamp was computed against a capped total; and
/// scrolling down never leaves `[0, old offset]`.
pub proof fn lemma_scroll_clamp(off: int, n: int, capped: int, total: int, height: int)
    requires
        0 <= off,
        0 <= n,
        0 <= capped <= total,
    ensures
        0 <= scroll_up_spec(off, n, max_scroll_spec(capped, height)) <= max_scroll_spec(
            total,
            height,
        ),
        0 <= scroll_down_spec(off, n) <= off,
{
}

/// Every line shows at least one visual row, so the total is at least the
/// number of lines.
pub proof fn lemma_total_visual_bounds(vs: Seq<BufferLineView>)
    ensures
        total_visual(vs) >= vs.len(),
    decreases vs.len(),
{
    if vs.len() > 0 {
        lemma_total_visual_bounds(vs.drop_last());
    }
}

/// The models of the lines `add_lines` appends for the given split content,
/// starting at stamp `stamp`.
pub open spec fn made_lines(
    cs: Seq<Seq<char>>,
    line_type: LineType,
    color: Option<Seq<char>>,
    stamp: u64,
    w: int,
) -> Seq<BufferLineView>
    decreases cs.len(),
{
    if cs.len() == 0 {
        Seq::empty()
    } else {
        seq![mk_line_view(cs[0], line_type, color, stamp, w)] + made_lines(
            cs.skip(1),
            line_type,
            color,
            sat_add64(stamp, 1),
            w,
        )
    }
}

/// The bounded scrollback buffer: lines oldest to newest, the input and
/// scroll state, and the wrap dimensions.
pub struct LineBuffer {
    pub buffer: std::collections::VecDeque<BufferLine>,
    pub state: TerminalState,
    pub max_lines: usize,
    pub terminal_width: usize,
    pub terminal_height: usize,
    pub next_stamp: u64,
}

impl LineBuffer {
    /// The models of the buffered lines, oldest first.
    pub open spec fn lines(self) -> Seq<BufferLineView> {
        lines_view(self.buffer@)
    }

    /// Total visual rows of the buffer, capped at the machine limit.
    pub open spec fn capped_total(self) -> int {
        if total_visual(self.lines()) <= usize::MAX {
            total_visual(self.lines())
        } else {
            usize::MAX as int
        }
    }

    /// Well-formedness: the bound and width are positive, the buffer respects
    /// its bound, every line carries the wrapping of its content at the
    /// current width, and the cursor sits within the input.
    pub open spec fn wf(self) -> bool {
        &&& 1 <= self.max_lines
        &&& 1 <= self.terminal_width
        &&& self.buffer@.len() <= self.max_lines
        &&& forall|i: int|
            0 <= i < self.buffer@.len() ==> (#[trigger] self.buffer@[i]@).wrapped == wrap_spec(
                self.buffer@[i]@.content,
                self.terminal_width as int,
            )
        &&& self.state.wf()
    }

    /// An empty buffer bounded at 1000 lines on an 80 by 25 terminal.
    pub fn new() -> (r: LineBuffer)
        ensures
            r.wf(),
            r.lines() == Seq::<BufferLineView>::empty(),
            r.state@.current_input == Seq::<char>::empty(),
            r.state@.cursor_position == 0,
            r.state@.prompt == default_prompt(),
            r.state@.input_mode == InputMode::Normal,
            r.state@.scroll_offset == 0,
            r.max_lines == 1000,
            r.terminal_width == 80,
            r.terminal_height == 25,
            r.next_stamp == 0,
    {
        let r = LineBuffer {
            buffer: std::collections::VecDeque::new(),
            state: TerminalState::default(),
            max_lines: 1000,
            terminal_width: 80,
            terminal_height: 25,
            next_stamp: 0,
        };
        proof {
            assert(r.lines() =~= Seq::<BufferLineView>::empty());
        }
        r
    }

    /// Appends one line: it is stamped, wrapped at the current width and
    /// pushed at the back; the oldest line is evicted when the bound would be
    /// exceeded. Everything else is untouched.
    pub fn add_line(&mut self, content: String, line_type: LineType, color: Option<String>)
        requires
            old(self).wf(),
        ensures
            final(self).wf(),
            final(self).lines() == push_bounded(
                old(self).lines(),
                mk_line_view(
                    content@,
                    line_type,
                    view_color(color),
                    old(self).next_stamp,
                    old(self).terminal_width as int,
                ),
                old(self).max_lines as int,
            ),
            final(self).state == old(self).state,
            final(self).max_lines == old(self).max_lines,
            final(self).terminal_width == old(self).terminal_width,
            final(self).terminal_height == old(self).terminal_height,
            final(self).next_stamp == sat_add64(old(self).next_stamp, 1),
    {
        let ghost lv = mk_line_view(
            content@,
            line_type,
            view_color(color),
            self.next_stamp,
            self.terminal_width as int,
        );
        let mut line = BufferLine::new(content, line_type, color);
        line.timestamp = self.next_stamp;
        line.calculate_wrapping(self.terminal_width);
        proof {
            assert(line@ == lv);
        }
        if self.next_stamp < u64::MAX {
            self.next_stamp = self.next_stamp + 1;
        }
        let ghost before = self.lines();
        self.buffer.push_back(line);
        proof {
            assert(self.lines() =~= before.push(lv));
        }
        if self.buffer.len() > self.max_lines {
            let ghost t = self.lines();
            self.buffer.pop_front();
            proof {
                assert(self.lines() =~= t.skip(1));
                assert(t.skip(1) =~= t.skip(t.len() - self.max_lines as int));
            }
        }
        proof {
            assert(final(self).lines() == push_bounded(before, lv, self.max_lines as int));
        }
    }

    /// Appends one line per newline-separated piece of `content`, in order,
    /// each of the given type and colour.
    pub fn add_lines(&mut self, content: &str, line_type: LineType, color: Option<String>)
        requires
            old(self).wf(),
        ensures
            final(self).wf(),
            final(self).lines() == push_bounded_all(
                old(self).lines(),
                made_lines(
                    split_lines_spec(content@),
                    line_type,
                    view_color(color),
                    old(self).next_stamp,
                    old(self).terminal_width as int,
                ),
                old(self).max_lines as int,
            ),
            final(self).state == old(self).state,
            final(self).max_lines == old(self).max_lines,
            final(self).terminal_width == old(self).terminal_width,
            final(self).terminal_height == old(self).terminal_height,
    {
        let pieces: Vec<String> = split_lines(content);
        let ghost all = pieces.deep_view();
        let ghost target = push_bounded_all(
            old(self).lines(),
            made_lines(
                all,
                line_type,
                view_color(color),
                old(self).next_stamp,
                old(self).terminal_width as int,
            ),
            old(self).max_lines as int,
        );
        let mut i: usize = 0;
        proof {
            assert(all.skip(0) =~= all);
        }
        while i < pieces.len()
            invariant
                0 <= i <= pieces@.len(),
                all == pieces.deep_view(),
                self.wf(),
                self.max_lines == old(self).max_lines,
                self.terminal_width == old(self).terminal_width,
                self.terminal_height == old(self).terminal_height,
                self.state == old(self).state,
                target == push_bounded_all(
                    self.lines(),
                    made_lines(
                        all.skip(i as int),
                        line_type,
                        view_color(color),
                        self.next_stamp,
                        self.terminal_width as int,
                    ),
                    self.max_lines as int,
                ),
            decreases pieces@.len() - i,
        {
            let ghost stamp0 = self.next_stamp;
            let ghost rest = all.skip(i as int);
            let piece: String = pieces[i].clone();
            let c: Option<String> = match &color {
                Option::Some(s) => Option::Some(s.clone()),
                Option::None => Option::None,
            };
            proof {
                assert(view_color(c) == view_color(color));
                assert(rest[0] == all[i as int]);
                assert(piece@ == all[i as int]);
            }
            let ghost prev_lines = self.lines();
            self.add_line(piece, line_type, c);
            proof {
                let w = self.terminal_width as int;
                let vc = view_color(color);
                let head = mk_line_view(all[i as int], line_type, vc, stamp0, w);
                let made_now = made_lines(rest, line_type, vc, stamp0, w);
                let made_tail = made_lines(all.skip(i as int + 1), line_type, vc, sat_add64(stamp0, 1), w);
                assert(rest.skip(1) =~= all.skip(i as int + 1));
                assert(rest[0] == all[i as int]);
                assert(made_now == seq![head] + made_lines(rest.skip(1), line_type, vc, sat_add64(stamp0, 1), w));
                assert(made_now[0] == head);
                assert(made_now.skip(1) =~= made_tail);
                assert(push_bounded_all(prev_lines, made_now, self.max_lines as int)
                    == push_bounded_all(
                    push_bounded(prev_lines, head, self.max_lines as int),
                    made_tail,
                    self.max_lines as int,
                ));
                assert(self.lines() == push_bounded(prev_lines, head, self.max_lines as int));
            }
            i = i + 1;
        }
        proof {
            assert(all.skip(i as int) =~= Seq::<Seq<char>>::empty());
        }
    }

    /// Appends the echoed command line `prompt + input` as a cyan command
    /// line.
    pub fn add_command(&mut self, prompt: &str, input: &str)
        requires
            old(self).wf(),
        ensures
            final(self).wf(),
            final(self).lines() == push_bounded(
                old(self).lines(),
                mk_line_view(
                    prompt@ + input@,
                    LineType::Command,
                    Option::Some("cyan"@),
                    old(self).next_stamp,
                    old(self).terminal_width as int,
                ),
                old(self).max_lines as int,
            ),
            final(self).state == old(self).state,
            final(self).max_lines == old(self).max_lines,
            final(self).terminal_width == old(self).terminal_width,
            final(self).terminal_height == old(self).terminal_height,
    {
        let mut full: String = prompt.to_owned();
        full.append(input);
        self.add_line(full, LineType::Command, Option::Some(String::from_str("cyan")));
    }

    /// Empties the buffer and pins the view back to the bottom; input, prompt
    /// and dimensions stay.
    pub fn clear(&mut self)
        requires
            old(self).wf(),
        ensures
            final(self).wf(),
            final(self).lines() == Seq::<BufferLineView>::empty(),
            final(self).state@.scroll_offset == 0,
            final(self).state@.current_input == old(self).state@.current_input,
            final(self).state@.cursor_position == old(self).state@.cursor_position,
            final(self).state@.prompt == old(self).state@.prompt,
            final(self).state@.input_mode == old(self).state@.input_mode,
            final(self).max_lines == old(self).max_lines,
            final(self).terminal_width == old(self).terminal_width,
            final(self).terminal_height == old(self).terminal_height,
    {
        self.buffer.clear();
        self.state.scroll_offset = 0;
        proof {
            assert(self.lines() =~= Seq::<BufferLineView>::empty());
        }
    }

    /// Re-wraps every line at the new dimensions; contents, kinds, colours
    /// and stamps are untouched, order is kept.
    pub fn set_dimensions(&mut self, width: usize, height: usize)
        requires
            old(self).wf(),
            width >= 1,
        ensures
            final(self).wf(),
            final(self).terminal_width == width,
            final(self).terminal_height == height,
            final(self).max_lines == old(self).max_lines,
            final(self).state == old(self).state,
            final(self).next_stamp == old(self).next_stamp,
            final(self).lines().len() == old(self).lines().len(),
            forall|i: int|
                0 <= i < old(self).lines().len() ==> #[trigger] final(self).lines()[i]
                    == mk_line_view(
                    old(self).lines()[i].content,
                    old(self).lines()[i].line_type,
                    old(self).lines()[i].color,
                    old(self).lines()[i].timestamp,
                    width as int,
                ),
    {
        let len: usize = self.buffer.len();
        let mut rewrapped: std::collections::VecDeque<BufferLine> =
            std::collections::VecDeque::new();
        let mut i: usize = 0;
        while i < len
            invariant
                0 <= i <= len,
                len == self.buffer@.len(),
                width >= 1,
                rewrapped@.len() == i,
                forall|k: int|
                    0 <= k < i ==> (#[trigger] rewrapped@[k]@) == mk_line_view(
                        self.buffer@[k]@.content,
                        self.buffer@[k]@.line_type,
                        self.buffer@[k]@.color,
                        self.buffer@[k]@.timestamp,
                        width as int,
                    ),
            decreases len - i,
        {
            let mut line: BufferLine = self.buffer[i].clone();
            line.calculate_wrapping(width);
            rewrapped.push_back(line);
            i = i + 1;
        }
        self.buffer = rewrapped;
        self.terminal_width = width;
        self.terminal_height = height;
    }

    /// The trailing window of lines whose wrapped rows fit in
    /// `max_visual_lines` plus the scroll offset; a line is never split, so
    /// the first line that would overflow is excluded whole.
    pub fn get_visible_lines(&self, max_visual_lines: usize) -> (r: Vec<BufferLine>)
        requires
            max_visual_lines + self.state@.scroll_offset <= usize::MAX,
        ensures
            lines_view(r@) == self.lines().skip(
                self.lines().len() - visible_len(
                    self.lines(),
                    max_visual_lines + self.state@.scroll_offset,
                ),
            ),
    {
        let ghost vs = self.lines();
        let budget: usize = max_visual_lines + self.state.scroll_offset;
        let ghost vl = visible_len(vs, budget as int);
        let len: usize = self.buffer.len();
        let mut i: usize = len;
        let mut remaining: usize = budget;
        let mut stop: bool = false;
        proof {
            assert(vs.take(len as int) =~= vs);
        }
        while i > 0 && !stop
            invariant
                0 <= i <= len,
                len == self.buffer@.len(),
                vs == self.lines(),
                vl == visible_len(vs, budget as int),
                !stop ==> vl == (len - i) + visible_len(vs.take(i as int), remaining as int),
                stop ==> vl == len - i,
            decreases i, (if stop { 0int } else { 1int }),
        {
            let c: usize = self.buffer[i - 1].visual_line_count();
            proof {
                assert(vs.take(i as int).last() == self.buffer@[i - 1]@);
                assert(view_visual_count(self.buffer@[i - 1]@) == c);
                assert(vs.take(i as int).drop_last() =~= vs.take(i as int - 1));
            }
            if c > remaining {
                stop = true;
            } else {
                remaining = remaining - c;
                i = i - 1;
            }
        }
        proof {
            if !stop {
                assert(vs.take(0) =~= Seq::<BufferLineView>::empty());
            }
            assert(vl == len - i);
        }
        let mut out: Vec<BufferLine> = Vec::new();
        let mut j: usize = i;
        while j < len
            invariant
                i <= j <= len,
                len == self.buffer@.len(),
                vs == self.lines(),
                out@.len() == j - i,
                forall|k: int| 0 <= k < j - i ==> (#[trigger] out@[k]@) == self.buffer@[i + k]@,
            decreases len - j,
        {
            out.push(self.buffer[j].clone());
            j = j + 1;
        }
        proof {
            assert(lines_view(out@) =~= vs.skip(i as int));
        }
        out
    }

    /// Copies of all buffered lines, oldest first.
    pub fn get_all_lines(&self) -> (r: Vec<BufferLine>)
        ensures
            lines_view(r@) == self.lines(),
    {
        let len: usize = self.buffer.len();
        let mut out: Vec<BufferLine> = Vec::new();
        let mut j: usize = 0;
        while j < len
            invariant
                0 <= j <= len,
                len == self.buffer@.len(),
                out@.len() == j,
                forall|k: int| 0 <= k < j ==> (#[trigger] out@[k]@) == self.buffer@[k]@,
            decreases len - j,
        {
            out.push(self.buffer[j].clone());
            j = j + 1;
        }
        proof {
            assert(lines_view(out@) =~= self.lines());
        }
        out
    }

    /// Replaces the in-progress input; the cursor is clamped to the end of
    /// the new input.
    pub fn update_input(&mut self, input: String, cursor_pos: usize)
        requires
            old(self).wf(),
        ensures
            final(self).wf(),
            final(self).state@.current_input == input@,
            final(self).state@.cursor_position == if cursor_pos <= input@.len() {
                cursor_pos as int
            } else {
                input@.len() as int
            },
            final(self).state@.prompt == old(self).state@.prompt,
            final(self).state@.input_mode == old(self).state@.input_mode,
            final(self).state@.scroll_offset == old(self).state@.scroll_offset,
            final(self).buffer == old(self).buffer,
            final(self).max_lines == old(self).max_lines,
            final(self).terminal_width == old(self).terminal_width,
            final(self).terminal_height == old(self).terminal_height,
    {
        let n: usize = input.as_str().unicode_len();
        self.state.current_input = input;
        self.state.cursor_position = if cursor_pos < n {
            cursor_pos
        } else {
            n
        };
    }

    /// Replaces the prompt shown before the input.
    pub fn set_prompt(&mut self, prompt: String)
        requires
            old(self).wf(),
        ensures
            final(self).wf(),
            final(self).state@.prompt == prompt@,
            final(self).state@.current_input == old(self).state@.current_input,
            final(self).state@.cursor_position == old(self).state@.cursor_position,
            final(self).state@.input_mode == old(self).state@.input_mode,
            final(self).state@.scroll_offset == old(self).state@.scroll_offset,
            final(self).buffer == old(self).buffer,
            final(self).max_lines == old(self).max_lines,
            final(self).terminal_width == old(self).terminal_width,
            final(self).terminal_height == old(self).terminal_height,
    {
        self.state.prompt = prompt;
    }

    /// A copy of the current terminal state.
    pub fn get_state(&self) -> (r: TerminalState)
        ensures
            r@ == self.state@,
    {
        self.state.clone()
    }

    /// Switches how the input line reacts to keystrokes.
    pub fn set_input_mode(&mut self, mode: InputMode)
        requires
            old(self).wf(),
        ensures
            final(self).wf(),
            final(self).state@.input_mode == mode,
            final(self).state@.current_input == old(self).state@.current_input,
            final(self).state@.cursor_position == old(self).state@.cursor_position,
            final(self).state@.prompt == old(self).state@.prompt,
            final(self).state@.scroll_offset == old(self).state@.scroll_offset,
            final(self).buffer == old(self).buffer,
            final(self).max_lines == old(self).max_lines,
            final(self).terminal_width == old(self).terminal_width,
            final(self).terminal_height == old(self).terminal_height,
    {
        self.state.input_mode = mode;
    }

    /// The number of buffered logical lines.
    pub fn line_count(&self) -> (r: usize)
        ensures
            r == self.lines().len(),
    {
        self.buffer.len()
    }

    /// Total visual rows over all buffered lines, capped at the machine
    /// limit.
    pub fn visual_line_count(&self) -> (r: usize)
        ensures
            r as int == self.capped_total(),
    {
        let ghost vs = self.lines();
        let len: usize = self.buffer.len();
        let mut acc: usize = 0;
        let mut i: usize = 0;
        proof {
            assert(vs.take(0) =~= Seq::<BufferLineView>::empty());
        }
        while i < len
            invariant
                0 <= i <= len,
                len == self.buffer@.len(),
                vs == self.lines(),
                acc as int == if total_visual(vs.take(i as int)) <= usize::MAX {
                    total_visual(vs.take(i as int))
                } else {
                    usize::MAX as int
                },
            decreases len - i,
        {
            let c: usize = self.buffer[i].visual_line_count();
            proof {
                assert(vs.take(i as int + 1).last() == self.buffer@[i as int]@);
                assert(vs.take(i as int + 1).drop_last() =~= vs.take(i as int));
                assert(view_visual_count(self.buffer@[i as int]@) == c);
                assert(c >= 1);
            }
            if c > usize::MAX - acc {
                acc = usize::MAX;
            } else {
                acc = acc + c;
            }
            i = i + 1;
        }
        proof {
            assert(vs.take(len as int) =~= vs);
        }
        acc
    }

    /// Scrolls toward older lines, clamped so a full window of rows stays
    /// below the offset.
    pub fn scroll_up(&mut self, lines: usize)
        requires
            old(self).wf(),
        ensures
            final(self).wf(),
            final(self).state@.scroll_offset == scroll_up_spec(
                old(self).state@.scroll_offset,
                lines as int,
                max_scroll_spec(old(self).capped_total(), old(self).terminal_height as int),
            ),
            final(self).state@.current_input == old(self).state@.current_input,
            final(self).state@.cursor_position == old(self).state@.cursor_position,
            final(self).state@.prompt == old(self).state@.prompt,
            final(self).state@.input_mode == old(self).state@.input_mode,
            final(self).buffer == old(self).buffer,
            final(self).max_lines == old(self).max_lines,
            final(self).terminal_width == old(self).terminal_width,
            final(self).terminal_height == old(self).terminal_height,
    {
        let total: usize = self.visual_line_count();
        let maxs: usize = total.saturating_sub(self.terminal_height);
        let off: usize = self.state.scroll_offset;
        self.state.scroll_offset = if off >= maxs {
            maxs
        } else if lines <= maxs - off {
            off + lines
        } else {
            maxs
        };
    }

    /// Scrolls toward newer lines, clamped at the bottom.
    pub fn scroll_down(&mut self, lines: usize)
        requires
            old(self).wf(),
        ensures
            final(self).wf(),
            final(self).state@.scroll_offset == scroll_down_spec(
                old(self).state@.scroll_offset,
                lines as int,
            ),
            final(self).state@.current_input == old(self).state@.current_input,
            final(self).state@.cursor_position == old(self).state@.cursor_position,
            final(self).state@.prompt == old(self).state@.prompt,
            final(self).state@.input_mode == old(self).state@.input_mode,
            final(self).buffer == old(self).buffer,
            final(self).max_lines == old(self).max_lines,
            final(self).terminal_width == old(self).terminal_width,
            final(self).terminal_height == old(self).terminal_height,
    {
        let off: usize = self.state.scroll_offset;
        self.state.scroll_offset = if lines <= off {
            off - lines
        } else {
            0
        };
    }

    /// Pins the view back to the newest lines.
    pub fn reset_scroll(&mut self)
        requires
            old(self).wf(),
        ensures
            final(self).wf(),
            final(self).state@.scroll_offset == 0,
            final(self).state@.current_input == old(self).state@.current_input,
            final(self).state@.cursor_position == old(self).state@.cursor_position,
            final(self).state@.prompt == old(self).state@.prompt,
            final(self).state@.input_mode == old(self).state@.input_mode,
            final(self).buffer == old(self).buffer,
            final(self).max_lines == old(self).max_lines,
            final(self).terminal_width == old(self).terminal_width,
            final(self).terminal_height == old(self).terminal_height,
    {
        self.state.scroll_offset = 0;
    }

    /// True exactly when the view is pinned to the bottom.
    pub fn should_auto_scroll(&self) -> (r: bool)
        ensures
            r == (self.state@.scroll_offset == 0),
    {
        self.state.scroll_offset == 0
    }

    /// Resets the scroll only when already pinned to the bottom, so a user
    /// reading older lines is not yanked down; the state never changes.
    pub fn auto_scroll_to_bottom(&mut self)
        requires
            old(self).wf(),
        ensures
            final(self).wf(),
            *final(self) == *old(self),
    {
        if self.should_auto_scroll() {
            self.state.scroll_offset = 0;
        }
    }
}

/// Appends one line to `buf`; see [`LineBuffer::add_line`].
pub fn add_line(buf: &mut LineBuffer, content: String, line_type: LineType, color: Option<String>)
    requires
        old(buf).wf(),
    ensures
        final(buf).wf(),
        final(buf).lines() == push_bounded(
            old(buf).lines(),
            mk_line_view(
                content@,
                line_type,
                view_color(color),
                old(buf).next_stamp,
                old(buf).terminal_width as int,
            ),
            old(buf).max_lines as int,
        ),
        final(buf).state == old(buf).state,
        final(buf).terminal_width == old(buf).terminal_width,
        final(buf).terminal_height == old(buf).terminal_height,
        final(buf).max_lines == old(buf).max_lines,
{
    buf.add_line(content, line_type, color);
}

/// Appends the echoed command line; see [`LineBuffer::add_command`].
pub fn add_command_line(buf: &mut LineBuffer, prompt: &str, input: &str)
    requires
        old(buf).wf(),
    ensures
        final(buf).wf(),
        final(buf).lines() == push_bounded(
            old(buf).lines(),
            mk_line_view(
                prompt@ + input@,
                LineType::Command,
                Option::Some("cyan"@),
                old(buf).next_stamp,
                old(buf).terminal_width as int,
            ),
            old(buf).max_lines as int,
        ),
        final(buf).state == old(buf).state,
        final(buf).terminal_width == old(buf).terminal_width,
        final(buf).terminal_height == old(buf).terminal_height,
        final(buf).max_lines == old(buf).max_lines,
{
    buf.add_command(prompt, input);
}

/// Appends command output line by line; see [`LineBuffer::add_lines`].
pub fn add_output_lines(buf: &mut LineBuffer, output: &str, color: Option<String>)
    requires
        old(buf).wf(),
    ensures
        final(buf).wf(),
        final(buf).lines() == push_bounded_all(
            old(buf).lines(),
            made_lines(
                split_lines_spec(output@),
                LineType::Output,
                view_color(color),
                old(buf).next_stamp,
                old(buf).terminal_width as int,
            ),
            old(buf).max_lines as int,
        ),
        final(buf).state == old(buf).state,
        final(buf).terminal_width == old(buf).terminal_width,
        final(buf).terminal_height == old(buf).terminal_height,
        final(buf).max_lines == old(buf).max_lines,
{
    buf.add_lines(output, LineType::Output, color);
}

/// Empties the buffer; see [`LineBuffer::clear`].
pub fn clear_buffer(buf: &mut LineBuffer)
    requires
        old(buf).wf(),
    ensures
        final(buf).wf(),
        final(buf).lines() == Seq::<BufferLineView>::empty(),
        final(buf).state@.scroll_offset == 0,
        final(buf).state@.current_input == old(buf).state@.current_input,
        final(buf).state@.prompt == old(buf).state@.prompt,
        final(buf).state@.input_mode == old(buf).state@.input_mode,
{
    buf.clear();
}

/// Updates the wrap dimensions; see [`LineBuffer::set_dimensions`].
pub fn set_terminal_dimensions(buf: &mut LineBuffer, width: usize, height: usize)
    requires
        old(buf).wf(),
        width >= 1,
    ensures
        final(buf).wf(),
        final(buf).terminal_width == width,
        final(buf).terminal_height == height,
        final(buf).state == old(buf).state,
        final(buf).lines().len() == old(buf).lines().len(),
        forall|i: int|
            0 <= i < old(buf).lines().len() ==> #[trigger] final(buf).lines()[i] == mk_line_view(
                old(buf).lines()[i].content,
                old(buf).lines()[i].line_type,
                old(buf).lines()[i].color,
                old(buf).lines()[i].timestamp,
                width as int,
            ),
{
    buf.set_dimensions(width, height);
}

/// The visible trailing window; see [`LineBuffer::get_visible_lines`].
pub fn get_visible_lines(buf: &LineBuffer, max_lines: usize) -> (r: Vec<BufferLine>)
    requires
        max_lines + buf.state@.scroll_offset <= usize::MAX,
    ensures
        lines_view(r@) == buf.lines().skip(
            buf.lines().len() - visible_len(buf.lines(), max_lines + buf.state@.scroll_offset),
        ),
{
    buf.get_visible_lines(max_lines)
}

/// Replaces the in-progress input; see [`LineBuffer::update_input`].
pub fn update_input_state(buf: &mut LineBuffer, input: String, cursor_pos: usize)
    requires
        old(buf).wf(),
    ensures
        final(buf).wf(),
        final(buf).state@.current_input == input@,
        final(buf).state@.cursor_position == if cursor_pos <= input@.len() {
            cursor_pos as int
        } else {
            input@.len() as int
        },
        final(buf).state@.prompt == old(buf).state@.prompt,
        final(buf).state@.input_mode == old(buf).state@.input_mode,
        final(buf).state@.scroll_offset == old(buf).state@.scroll_offset,
        final(buf).buffer == old(buf).buffer,
{
    buf.update_input(input, cursor_pos);
}

/// Replaces the prompt; see [`LineBuffer::set_prompt`].
pub fn set_current_prompt(buf: &mut LineBuffer, prompt: String)
    requires
        old(buf).wf(),
    ensures
        final(buf).wf(),
        final(buf).state@.prompt == prompt@,
        final(buf).state@.current_input == old(buf).state@.current_input,
        final(buf).state@.cursor_position == old(buf).state@.cursor_position,
        final(buf).state@.input_mode == old(buf).state@.input_mode,
        final(buf).state@.scroll_offset == old(buf).state@.scroll_offset,
        final(buf).buffer == old(buf).buffer,
{
    buf.set_prompt(prompt);
}

/// A copy of the terminal state; see [`LineBuffer::get_state`].
pub fn get_terminal_state(buf: &LineBuffer) -> (r: TerminalState)
    ensures
        r@ == buf.state@,
{
    buf.get_state()
}

/// Switches the input mode; see [`LineBuffer::set_input_mode`].
pub fn set_input_mode(buf: &mut LineBuffer, mode: InputMode)
    requires
        old(buf).wf(),
    ensures
        final(buf).wf(),
        final(buf).state@.input_mode == mode,
        final(buf).state@.current_input == old(buf).state@.current_input,
        final(buf).state@.cursor_position == old(buf).state@.cursor_position,
        final(buf).state@.prompt == old(buf).state@.prompt,
        final(buf).state@.scroll_offset == old(buf).state@.scroll_offset,
        final(buf).buffer == old(buf).buffer,
{
    buf.set_input_mode(mode);
}

/// Scrolls toward older lines; see [`LineBuffer::scroll_up`].
pub fn scroll_up(buf: &mut LineBuffer, lines: usize)
    requires
        old(buf).wf(),
    ensures
        final(buf).wf(),
        final(buf).state@.scroll_offset == scroll_up_spec(
            old(buf).state@.scroll_offset,
            lines as int,
            max_scroll_spec(old(buf).capped_total(), old(buf).terminal_height as int),
        ),
        final(buf).buffer == old(buf).buffer,
        final(buf).state@.current_input == old(buf).state@.current_input,
        final(buf).state@.prompt == old(buf).state@.prompt,
        final(buf).state@.input_mode == old(buf).state@.input_mode,
{
    buf.scroll_up(lines);
}

/// Scrolls toward newer lines; see [`LineBuffer::scroll_down`].
pub fn scroll_down(buf: &mut LineBuffer, lines: usize)
    requires
        old(buf).wf(),
    ensures
        final(buf).wf(),
        final(buf).state@.scroll_offset == scroll_down_spec(
            old(buf).state@.scroll_offset,
            lines as int,
        ),
        final(buf).buffer == old(buf).buffer,
        final(buf).state@.current_input == old(buf).state@.current_input,
        final(buf).state@.prompt == old(buf).state@.prompt,
        final(buf).state@.input_mode == old(buf).state@.input_mode,
{
    buf.scroll_down(lines);
}

/// Pins the view to the newest lines; see [`LineBuffer::reset_scroll`].
pub fn reset_scroll(buf: &mut LineBuffer)
    requires
        old(buf).wf(),
    ensures
        final(buf).wf(),
        final(buf).state@.scroll_offset == 0,
        final(buf).buffer == old(buf).buffer,
        final(buf).state@.current_input == old(buf).state@.current_input,
        final(buf).state@.prompt == old(buf).state@.prompt,
        final(buf).state@.input_mode == old(buf).state@.input_mode,
{
    buf.reset_scroll();
}

/// Resets the scroll only when already pinned; see
/// [`LineBuffer::auto_scroll_to_bottom`].
pub fn auto_scroll_to_bottom(buf: &mut LineBuffer)
    requires
        old(buf).wf(),
    ensures
        final(buf).wf(),
        *final(buf) == *old(buf),
{
    buf.auto_scroll_to_bottom();
}

} // verus!
