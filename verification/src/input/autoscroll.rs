//! A plain trailing store of rendered lines: the newest lines are kept, the
//! oldest are dropped once the window they must fit in shrinks or fills.

use vstd::prelude::*;

use crate::line_buffer::push_bounded;

verus! {

/// One rendered line with its properties.
pub struct TerminalLine {
    pub text: String,
    pub color: Option<String>,
    pub line_type: LineType,
}

/// Kind of a rendered line.
#[derive(Clone, Copy, PartialEq, Eq, Structural, Debug)]
pub enum LineType {
    Normal,
    Boot,
    Typing,
    Prompt,
    Input,
}

/// The mathematical model of a `TerminalLine`.
pub struct TerminalLineView {
    pub text: Seq<char>,
    pub color: Option<Seq<char>>,
    pub line_type: LineType,
}

impl View for TerminalLine {
    type V = TerminalLineView;

    open spec fn view(&self) -> TerminalLineView {
        TerminalLineView {
            text: self.text@,
            color: match self.color {
                Option::Some(c) => Option::Some(c@),
                Option::None => Option::None,
            },
            line_type: self.line_type,
        }
    }
}

impl Clone for TerminalLine {
    /// A clone has the same model as the value it was made from.
    fn clone(&self) -> (r: Self)
        ensures
            r@ == self@,
    {
        TerminalLine {
            text: self.text.clone(),
            color: match &self.color {
                Option::Some(c) => Option::Some(c.clone()),
                Option::None => Option::None,
            },
            line_type: self.line_type,
        }
    }
}

/// The models of a sequence of rendered lines.
pub open spec fn term_lines_view(s: Seq<TerminalLine>) -> Seq<TerminalLineView> {
    s.map_values(|l: TerminalLine| l@)
}

/// The visible-line bound `trim_output` derives from a canvas of
/// `canvas_height` pixels: rows of 20 pixels after a 40 pixel margin, minus
/// the rows reserved for the input line, but never less than one.
pub open spec fn trim_max_spec(canvas_height: int, reserve: int) -> int {
    let total = if canvas_height >= 40 {
        (canvas_height - 40) / 20
    } else {
        0
    };
    if total > reserve {
        total - reserve
    } else {
        1
    }
}

/// The store of rendered lines together with its bound and the rows reserved
/// for the input line.
pub struct LineStore {
    pub lines: std::collections::VecDeque<TerminalLine>,
    pub max_lines: usize,
    pub reserve_lines: usize,
}

impl LineStore {
    /// The models of the stored lines, oldest first.
    pub open spec fn views(self) -> Seq<TerminalLineView> {
        term_lines_view(self.lines@)
    }

    /// The bound is positive and the store respects it.
    pub open spec fn wf(self) -> bool {
        &&& self.max_lines >= 1
        &&& self.lines@.len() <= self.max_lines
    }

    /// An empty store for a 25-row window with 2 rows reserved for input.
    pub fn new() -> (r: LineStore)
        ensures
            r.wf(),
            r.views() == Seq::<TerminalLineView>::empty(),
            r.max_lines == 25,
            r.reserve_lines == 2,
    {
        let r = LineStore {
            lines: std::collections::VecDeque::new(),
            max_lines: 25,
            reserve_lines: 2,
        };
        proof {
            assert(r.views() =~= Seq::<TerminalLineView>::empty());
        }
        r
    }
}

/// Recomputes the visible-line bound from the canvas height and drops the
/// oldest stored lines until the store fits it.
pub fn trim_output(store: &mut LineStore, canvas_height: i32)
    requires
        old(store).wf(),
    ensures
        final(store).wf(),
        final(store).max_lines == trim_max_spec(
            canvas_height as int,
            old(store).reserve_lines as int,
        ),
        final(store).reserve_lines == old(store).reserve_lines,
        final(store).views() == old(store).views().skip(
            if old(store).views().len() > final(store).max_lines {
                old(store).views().len() - final(store).max_lines as int
            } else {
                0int
            },
        ),
{
    let total: usize = if canvas_height >= 40 {
        ((canvas_height - 40) / 20) as usize
    } else {
        0
    };
    let max_visible: usize = if total > store.reserve_lines {
        total - store.reserve_lines
    } else {
        1
    };
    store.max_lines = max_visible;
    let ghost before = store.views();
    let ghost target = if before.len() > max_visible as int {
        before.len() - max_visible as int
    } else {
        0int
    };
    while store.lines.len() > store.max_lines
        invariant
            store.max_lines == max_visible,
            store.reserve_lines == old(store).reserve_lines,
            store.views().len() <= before.len(),
            store.views() == before.skip(before.len() - store.views().len()),
            store.views().len() >= if before.len() > max_visible as int {
                max_visible as int
            } else {
                before.len() as int
            },
        decreases store.lines@.len(),
    {
        let ghost cur = store.views();
        store.lines.pop_front();
        proof {
            assert(store.views() =~= cur.skip(1));
            assert(cur.skip(1) =~= before.skip(before.len() - cur.len() + 1));
        }
    }
    proof {
        assert(store.views() =~= before.skip(target));
    }
}

/// Appends one line, dropping the oldest line when the store is full.
pub fn add_line_to_buffer(
    store: &mut LineStore,
    text: String,
    color: Option<String>,
    line_type: LineType,
)
    requires
        old(store).wf(),
    ensures
        final(store).wf(),
        final(store).max_lines == old(store).max_lines,
        final(store).reserve_lines == old(store).reserve_lines,
        final(store).views() == push_bounded(
            old(store).views(),
            TerminalLineView {
                text: text@,
                color: crate::line_buffer::view_color(color),
                line_type,
            },
            old(store).max_lines as int,
        ),
{
    let ghost lv = TerminalLineView {
        text: text@,
        color: crate::line_buffer::view_color(color),
        line_type,
    };
    let line = TerminalLine { text, color, line_type };
    proof {
        assert(line@ == lv);
    }
    let ghost before = store.views();
    store.lines.push_back(line);
    proof {
        assert(store.views() =~= before.push(lv));
    }
    if store.lines.len() > store.max_lines {
        let ghost t = store.views();
        store.lines.pop_front();
        proof {
            assert(store.views() =~= t.skip(1));
            assert(t.skip(1) =~= t.skip(t.len() - store.max_lines as int));
        }
    }
}

/// Appends one normal line; a shorthand for [`add_line_to_buffer`].
pub fn add_simple_line(store: &mut LineStore, text: String, color: Option<String>)
    requires
        old(store).wf(),
    ensures
        final(store).wf(),
        final(store).max_lines == old(store).max_lines,
        final(store).reserve_lines == old(store).reserve_lines,
        final(store).views() == push_bounded(
            old(store).views(),
            TerminalLineView {
                text: text@,
                color: crate::line_buffer::view_color(color),
                line_type: LineType::Normal,
            },
            old(store).max_lines as int,
        ),
{
    add_line_to_buffer(store, text, color, LineType::Normal);
}

/// Copies of all stored lines, oldest first.
pub fn get_terminal_lines(store: &LineStore) -> (r: Vec<TerminalLine>)
    ensures
        term_lines_view(r@) == store.views(),
{
    let len: usize = store.lines.len();
    let mut out: Vec<TerminalLine> = Vec::new();
    let mut j: usize = 0;
    while j < len
        invariant
            0 <= j <= len,
            len == store.lines@.len(),
            out@.len() == j,
            forall|k: int| 0 <= k < j ==> (#[trigger] out@[k]@) == store.lines@[k]@,
        decreases len - j,
    {
        out.push(store.lines[j].clone());
        j = j + 1;
    }
    proof {
        assert(term_lines_view(out@) =~= store.views());
    }
    out
}

/// Empties the store; the bound stays.
pub fn clear_terminal_buffer(store: &mut LineStore)
    requires
        old(store).wf(),
    ensures
        final(store).wf(),
        final(store).views() == Seq::<TerminalLineView>::empty(),
        final(store).max_lines == old(store).max_lines,
        final(store).reserve_lines == old(store).reserve_lines,
{
    store.lines.clear();
    proof {
        assert(store.views() =~= Seq::<TerminalLineView>::empty());
    }
}

/// The number of stored lines.
pub fn get_line_count(store: &LineStore) -> (r: usize)
    ensures
        r == store.views().len(),
{
    store.lines.len()
}

/// True when the store has reached its bound, so new lines push old ones out
/// of view and the display should follow the bottom.
pub fn should_autoscroll(store: &LineStore) -> (r: bool)
    ensures
        r == (store.views().len() >= store.max_lines),
{
    store.lines.len() >= store.max_lines
}

/// The rows reserved for the input line below the output.
pub fn get_available_input_lines(store: &LineStore) -> (r: usize)
    ensures
        r == store.reserve_lines,
{
    store.reserve_lines
}

} // verus!
