//! The keystroke state machine of the input line, and the pure decisions
//! behind tab completion.
//!
//! A keystroke either edits the in-progress input, replays a history entry,
//! submits the trimmed input for dispatch, or asks the host for completion
//! candidates. Completion itself is an outside collaborator; this module only
//! decides, from the current input and the candidates handed back, whether
//! the input is replaced, extended to the longest common prefix, or left
//! alone while the candidates are printed.

use vstd::prelude::*;

use crate::input::history::{hist_add_spec, CommandHistory};
use crate::line_buffer::{last_space_in, InputMode, TerminalState};
use crate::text::{lemma_trim_idempotent, push_char, tokens_spec, trim, trim_spec};

verus! {

/// A keystroke the terminal reacts to.
pub enum Key {
    Character(char),
    Backspace,
    Enter,
    ArrowUp,
    ArrowDown,
    Tab,
}

/// What the host must do after a keystroke was handled.
pub enum KeyAction {
    /// Nothing changed.
    NoAction,
    /// The input line changed; repaint it.
    Edited,
    /// The trimmed input must be dispatched as a command.
    Submit(String),
    /// The host must run autocompletion and hand the result to
    /// [`apply_completion`].
    RequestCompletion,
}

/// What the outside completion collaborator hands back.
pub enum CompletionResult {
    NoMatch,
    Single(String),
    Multiple(Vec<String>),
}

/// The decision taken on a completion result.
pub enum TabOutcome {
    /// Nothing to do.
    Unchanged,
    /// Replace the whole input line with this text, cursor at its end.
    Replaced(String),
    /// Keep the input; print this block of candidates.
    ShowCandidates(String),
}

/// Handles one keystroke in `Normal` mode: characters edit at the cursor,
/// arrows replay history, `Enter` records the command and submits it, `Tab`
/// requests completion. In `Processing` and `Disabled` modes every key is
/// ignored.
pub fn handle_key(state: &mut TerminalState, history: &mut CommandHistory, key: Key) -> (r:
    KeyAction)
    requires
        old(state).wf(),
        old(history).wf(),
        old(state)@.current_input.len() < usize::MAX,
    ensures
        final(state).wf(),
        final(history).wf(),
        final(state)@.prompt == old(state)@.prompt,
        final(state)@.scroll_offset == old(state)@.scroll_offset,
        final(history).max_size == old(history).max_size,
        old(state)@.input_mode != InputMode::Normal ==> (*final(state) == *old(state)
            && *final(history) == *old(history) && r is NoAction),
        old(state)@.input_mode == InputMode::Normal ==> match key {
            Key::Character(c) => {
                &&& final(state)@.current_input == old(state)@.current_input.take(
                    old(state)@.cursor_position,
                ).push(c) + old(state)@.current_input.skip(old(state)@.cursor_position)
                &&& final(state)@.cursor_position == old(state)@.cursor_position + 1
                &&& final(state)@.input_mode == InputMode::Normal
                &&& *final(history) == *old(history)
                &&& r is Edited
            },
            Key::Backspace => {
                &&& *final(history) == *old(history)
                &&& final(state)@.input_mode == InputMode::Normal
                &&& if old(state)@.cursor_position > 0 {
                    &&& final(state)@.current_input == old(state)@.current_input.take(
                        old(state)@.cursor_position - 1,
                    ) + old(state)@.current_input.skip(old(state)@.cursor_position)
                    &&& final(state)@.cursor_position == old(state)@.cursor_position - 1
                    &&& r is Edited
                } else {
                    &&& *final(state) == *old(state)
                    &&& r is NoAction
                }
            },
            Key::Enter => {
                &&& final(state)@.current_input == Seq::<char>::empty()
                &&& final(state)@.cursor_position == 0
                &&& final(state)@.input_mode == InputMode::Processing
                &&& final(history).strs() == if trim_spec(old(state)@.current_input).len() == 0 {
                    old(history).strs()
                } else {
                    hist_add_spec(
                        old(history).strs(),
                        trim_spec(old(state)@.current_input),
                        old(history).max_size as int,
                    )
                }
                &&& final(history).current_index == Option::<usize>::None
                &&& r matches KeyAction::Submit(cmd) && cmd@ == trim_spec(
                    old(state)@.current_input,
                )
            },
            Key::ArrowUp => {
                &&& final(state)@.input_mode == InputMode::Normal
                &&& if old(history).strs().len() == 0 {
                    &&& *final(state) == *old(state)
                    &&& final(history).strs() == old(history).strs()
                    &&& final(history).current_index == old(history).current_index
                    &&& r is NoAction
                } else {
                    let idx = match old(history).current_index {
                        Option::None => old(history).strs().len() - 1,
                        Option::Some(i) => if i > 0 {
                            i - 1
                        } else {
                            0int
                        },
                    };
                    &&& final(state)@.current_input == old(history).strs()[idx]
                    &&& final(state)@.cursor_position == old(history).strs()[idx].len()
                    &&& final(history).strs() == old(history).strs()
                    &&& final(history).current_index == Option::Some(idx as usize)
                    &&& r is Edited
                }
            },
            Key::ArrowDown => {
                &&& final(state)@.input_mode == InputMode::Normal
                &&& final(history).strs() == old(history).strs()
                &&& match old(history).current_index {
                    Option::None => {
                        &&& final(state)@.current_input == Seq::<char>::empty()
                        &&& final(state)@.cursor_position == 0
                        &&& final(history).current_index == Option::<usize>::None
                        &&& r is Edited
                    },
                    Option::Some(i) => if i + 1 < old(history).strs().len() {
                        &&& final(state)@.current_input == old(history).strs()[i + 1]
                        &&& final(state)@.cursor_position == old(history).strs()[i + 1].len()
                        &&& final(history).current_index == Option::Some((i + 1) as usize)
                        &&& r is Edited
                    } else {
                        &&& final(state)@.current_input == Seq::<char>::empty()
                        &&& final(state)@.cursor_position == 0
                        &&& final(history).current_index == Option::<usize>::None
                        &&& r is Edited
                    },
                }
            },
            Key::Tab => {
                &&& *final(state) == *old(state)
                &&& *final(history) == *old(history)
                &&& r is RequestCompletion
            },
        },
{
    if !matches!(state.input_mode, InputMode::Normal) {
        return KeyAction::NoAction;
    }
    match key {
        Key::Character(c) => {
            let s: &str = state.current_input.as_str();
            let len: usize = s.unicode_len();
            let cur: usize = state.cursor_position;
            let mut edited: String = s.substring_char(0, cur).to_owned();
            push_char(&mut edited, c);
            edited.append(s.substring_char(cur, len));
            proof {
                assert(s@.subrange(0, cur as int) =~= s@.take(cur as int));
                assert(s@.subrange(cur as int, len as int) =~= s@.skip(cur as int));
            }
            state.current_input = edited;
            state.cursor_position = cur + 1;
            proof {
                assert(state@.current_input.len() == old(state)@.current_input.len() + 1);
            }
            KeyAction::Edited
        },
        Key::Backspace => {
            if state.cursor_position > 0 {
                let s: &str = state.current_input.as_str();
                let len: usize = s.unicode_len();
                let cur: usize = state.cursor_position;
                let mut edited: String = s.substring_char(0, cur - 1).to_owned();
                edited.append(s.substring_char(cur, len));
                proof {
                    assert(s@.subrange(0, cur - 1) =~= s@.take(cur - 1));
                    assert(s@.subrange(cur as int, len as int) =~= s@.skip(cur as int));
                }
                state.current_input = edited;
                state.cursor_position = cur - 1;
                KeyAction::Edited
            } else {
                KeyAction::NoAction
            }
        },
        Key::Enter => {
            let trimmed: String = trim(state.current_input.as_str());
            if trimmed.as_str().unicode_len() > 0 {
                proof {
                    lemma_trim_idempotent(old(state)@.current_input);
                }
                history.add(trimmed.clone());
            } else {
                history.current_index = Option::None;
            }
            state.current_input = String::new();
            state.cursor_position = 0;
            state.input_mode = InputMode::Processing;
            KeyAction::Submit(trimmed)
        },
        Key::ArrowUp => {
            match history.previous() {
                Option::Some(cmd) => {
                    let n: usize = cmd.as_str().unicode_len();
                    state.current_input = cmd;
                    state.cursor_position = n;
                    KeyAction::Edited
                },
                Option::None => KeyAction::NoAction,
            }
        },
        Key::ArrowDown => {
            match history.next() {
                Option::Some(cmd) => {
                    let n: usize = cmd.as_str().unicode_len();
                    state.current_input = cmd;
                    state.cursor_position = n;
                    KeyAction::Edited
                },
                Option::None => {
                    state.current_input = String::new();
                    state.cursor_position = 0;
                    KeyAction::Edited
                },
            }
        },
        Key::Tab => KeyAction::RequestCompletion,
    }
}

/// Puts the input line back into `Normal` mode once a submitted command has
/// settled.
pub fn finish_command(state: &mut TerminalState)
    requires
        old(state).wf(),
    ensures
        final(state).wf(),
        final(state)@.input_mode == InputMode::Normal,
        final(state)@.current_input == old(state)@.current_input,
        final(state)@.cursor_position == old(state)@.cursor_position,
        final(state)@.prompt == old(state)@.prompt,
        final(state)@.scroll_offset == old(state)@.scroll_offset,
    {
    state.input_mode = InputMode::Normal;
}

/// Where the completed tail of the input begins: at the start when the input
/// holds at most one token, otherwise right after the last space.
pub open spec fn tab_split(s: Seq<char>) -> int {
    if tokens_spec(trim_spec(s)).len() <= 1 {
        0
    } else {
        last_space_in(s, s.len() as int) + 1
    }
}

/// Splits the input into the part that is kept and the trailing token that
/// completion replaces.
pub fn split_completion(input: &str) -> (r: (String, String))
    ensures
        0 <= tab_split(input@) <= input@.len(),
        r.0@ == input@.take(tab_split(input@)),
        r.1@ == input@.skip(tab_split(input@)),
{
    let trimmed: String = trim(input);
    let parts: Vec<String> = crate::text::tokenize(trimmed.as_str());
    let len: usize = input.unicode_len();
    if parts.len() <= 1 {
        proof {
            assert(input@.take(0) =~= Seq::<char>::empty());
            assert(input@.skip(0) =~= input@);
        }
        (String::new(), input.to_owned())
    } else {
        let mut i: usize = len;
        let mut split: usize = 0;
        let mut found: bool = false;
        while i > 0 && !found
            invariant
                0 <= i <= len,
                len == input@.len(),
                found ==> i < len && input@[i as int] == ' ' && split == i + 1 && (forall|k: int|
                    split <= k < len ==> input@[k] != ' '),
                !found ==> split == 0 && (forall|k: int| i <= k < len ==> input@[k] != ' '),
            decreases i, (if found { 0int } else { 1int }),
        {
            if input.get_char(i - 1) == ' ' {
                split = i;
                found = true;
                i = i - 1;
            } else {
                i = i - 1;
            }
        }
        proof {
            if found {
                crate::line_buffer::lemma_last_space_in_at(input@, len as int, split - 1);
            } else {
                crate::line_buffer::lemma_last_space_in_at(input@, len as int, -1);
            }
        }
        let prefix: String = input.substring_char(0, split).to_owned();
        let target: String = input.substring_char(split, len).to_owned();
        proof {
            assert(input@.subrange(0, split as int) =~= input@.take(split as int));
            assert(input@.subrange(split as int, len as int) =~= input@.skip(split as int));
        }
        (prefix, target)
    }
}

/// Length of the longest common prefix of two strings.
pub open spec fn common_prefix_len(a: Seq<char>, b: Seq<char>) -> int
    decreases a.len(),
{
    if a.len() == 0 || b.len() == 0 || a[0] != b[0] {
        0
    } else {
        1 + common_prefix_len(a.skip(1), b.skip(1))
    }
}

/// The longest common prefix of two strings.
pub open spec fn lcp2(a: Seq<char>, b: Seq<char>) -> Seq<char> {
    a.take(common_prefix_len(a, b))
}

proof fn lemma_common_prefix_len_bound(a: Seq<char>, b: Seq<char>)
    ensures
        0 <= common_prefix_len(a, b) <= a.len(),
        common_prefix_len(a, b) <= b.len(),
    decreases a.len(),
{
    if a.len() > 0 && b.len() > 0 && a[0] == b[0] {
        lemma_common_prefix_len_bound(a.skip(1), b.skip(1));
    }
}

proof fn lemma_common_prefix_len_at(a: Seq<char>, b: Seq<char>, k: int)
    requires
        0 <= k <= a.len(),
        k <= b.len(),
        forall|m: int| 0 <= m < k ==> a[m] == b[m],
        k < a.len() && k < b.len() ==> a[k] != b[k],
    ensures
        common_prefix_len(a, b) == k,
    decreases k,
{
    if k == 0 {
    } else {
        assert(a[0] == b[0]);
        assert forall|m: int| 0 <= m < k - 1 implies a.skip(1)[m] == b.skip(1)[m] by {
            assert(a.skip(1)[m] == a[m + 1] && b.skip(1)[m] == b[m + 1]);
        }
        if k - 1 < a.skip(1).len() && k - 1 < b.skip(1).len() {
            assert(a.skip(1)[k - 1] == a[k] && b.skip(1)[k - 1] == b[k]);
        }
        lemma_common_prefix_len_at(a.skip(1), b.skip(1), k - 1);
    }
}

/// The longest common prefix of all candidates, folded pairwise from the
/// left; empty for no candidates.
pub open spec fn lcp_all(cs: Seq<Seq<char>>) -> Seq<char>
    decreases cs.len(),
{
    if cs.len() == 0 {
        Seq::empty()
    } else if cs.len() == 1 {
        cs[0]
    } else {
        lcp_all(seq![lcp2(cs[0], cs[1])] + cs.skip(2))
    }
}

fn lcp2_exec(a: &str, b: &str) -> (r: String)
    ensures
        r@ == lcp2(a@, b@),
{
    let alen: usize = a.unicode_len();
    let blen: usize = b.unicode_len();
    let mut k: usize = 0;
    while k < alen && k < blen && a.get_char(k) == b.get_char(k)
        invariant
            0 <= k <= alen,
            k <= blen,
            alen == a@.len(),
            blen == b@.len(),
            forall|m: int| 0 <= m < k ==> a@[m] == b@[m],
        decreases alen - k,
    {
        k = k + 1;
    }
    proof {
        lemma_common_prefix_len_at(a@, b@, k as int);
        assert(a@.subrange(0, k as int) =~= a@.take(k as int));
    }
    a.substring_char(0, k).to_owned()
}

/// The longest common prefix of the candidates, or nothing when there are
/// none.
pub fn find_common_prefix(cands: &Vec<String>) -> (r: Option<String>)
    ensures
        cands@.len() == 0 ==> r == Option::<String>::None,
        cands@.len() > 0 ==> r is Some && r.unwrap()@ == lcp_all(cands.deep_view()),
{
    if cands.len() == 0 {
        return Option::None;
    }
    let mut acc: String = cands[0].clone();
    let mut i: usize = 1;
    proof {
        if cands@.len() == 1 {
            assert(lcp_all(cands.deep_view()) == cands.deep_view()[0]);
        }
        assert(seq![acc@] + cands.deep_view().skip(1) =~= cands.deep_view());
    }
    while i < cands.len()
        invariant
            1 <= i <= cands@.len(),
            lcp_all(cands.deep_view()) == lcp_all(seq![acc@] + cands.deep_view().skip(i as int)),
        decreases cands@.len() - i,
    {
        let ghost cur = seq![acc@] + cands.deep_view().skip(i as int);
        acc = lcp2_exec(acc.as_str(), cands[i].as_str());
        proof {
            assert(cur.len() >= 2);
            assert(cur[1] == cands.deep_view()[i as int]);
            assert(seq![lcp2(cur[0], cur[1])] + cur.skip(2) =~= seq![acc@]
                + cands.deep_view().skip(i as int + 1));
        }
        i = i + 1;
    }
    proof {
        assert(seq![acc@] + cands.deep_view().skip(i as int) =~= seq![acc@]);
        assert(lcp_all(seq![acc@]) == acc@);
    }
    Option::Some(acc)
}

/// The candidates joined with two spaces, as few candidates are printed.
pub open spec fn join_two_spaces(cs: Seq<Seq<char>>) -> Seq<char>
    decreases cs.len(),
{
    if cs.len() == 0 {
        Seq::empty()
    } else if cs.len() == 1 {
        cs[0]
    } else {
        cs[0] + "  "@ + join_two_spaces(cs.skip(1))
    }
}

/// The separator before candidate `i` in the four-column layout: nothing
/// first, a line break at each new row, two spaces otherwise.
pub open spec fn grid_sep(i: int) -> Seq<char> {
    if i == 0 {
        Seq::empty()
    } else if i % 4 == 0 {
        seq!['\n']
    } else {
        "  "@
    }
}

/// The candidates from `i` on, laid out four per row, as many candidates are
/// printed.
pub open spec fn grid_cands(cs: Seq<Seq<char>>, i: int) -> Seq<char>
    decreases cs.len() - i,
        when 0 <= i <= cs.len()
{
    if i >= cs.len() {
        Seq::empty()
    } else {
        grid_sep(i) + cs[i] + grid_cands(cs, i + 1)
    }
}

/// The block of text that prints the candidates: one row for up to ten of
/// them, a four-column layout beyond that.
pub open spec fn candidates_block_spec(cs: Seq<Seq<char>>) -> Seq<char> {
    if cs.len() <= 10 {
        join_two_spaces(cs)
    } else {
        grid_cands(cs, 0)
    }
}

fn join_two_spaces_exec(cands: &Vec<String>, from: usize) -> (r: String)
    requires
        from <= cands@.len(),
    ensures
        r@ == join_two_spaces(cands.deep_view().skip(from as int)),
    decreases cands@.len() - from,
{
    if from == cands.len() {
        proof {
            assert(cands.deep_view().skip(from as int) =~= Seq::<Seq<char>>::empty());
        }
        String::new()
    } else if from + 1 == cands.len() {
        proof {
            assert(cands.deep_view().skip(from as int).len() == 1);
            assert(cands.deep_view().skip(from as int)[0] == cands.deep_view()[from as int]);
        }
        cands[from].clone()
    } else {
        let mut r: String = cands[from].clone();
        r.append("  ");
        let tail: String = join_two_spaces_exec(cands, from + 1);
        r.append(tail.as_str());
        proof {
            let view = cands.deep_view().skip(from as int);
            assert(view[0] == cands.deep_view()[from as int]);
            assert(view.skip(1) =~= cands.deep_view().skip(from as int + 1));
            assert(r@ =~= view[0] + "  "@ + join_two_spaces(view.skip(1)));
        }
        r
    }
}

/// Lays the candidates out as a printable block.
pub fn format_candidates(cands: &Vec<String>) -> (r: String)
    ensures
        r@ == candidates_block_spec(cands.deep_view()),
{
    let len: usize = cands.len();
    if len <= 10 {
        proof {
            assert(cands.deep_view().skip(0) =~= cands.deep_view());
        }
        join_two_spaces_exec(cands, 0)
    } else {
        let ghost dv = cands.deep_view();
        let mut out: String = String::new();
        let mut i: usize = 0;
        proof {
            assert(out@ + grid_cands(dv, 0) =~= grid_cands(dv, 0));
        }
        while i < len
            invariant
                0 <= i <= len,
                len == cands@.len(),
                dv == cands.deep_view(),
                grid_cands(dv, 0) == out@ + grid_cands(dv, i as int),
            decreases len - i,
        {
            let ghost before = out@;
            if i > 0 {
                if i % 4 == 0 {
                    push_char(&mut out, '\n');
                    proof {
                        assert(out@ =~= before + grid_sep(i as int));
                    }
                } else {
                    out.append("  ");
                    proof {
                        assert(out@ =~= before + grid_sep(i as int));
                    }
                }
            } else {
                proof {
                    assert(out@ =~= before + grid_sep(i as int));
                }
            }
            out.append(cands[i].as_str());
            proof {
                assert(out@ =~= before + (grid_sep(i as int) + dv[i as int]));
                assert(before + (grid_sep(i as int) + dv[i as int]) + grid_cands(dv, i + 1)
                    =~= before + (grid_sep(i as int) + dv[i as int] + grid_cands(dv, i + 1)));
            }
            i = i + 1;
        }
        proof {
            assert(grid_cands(dv, len as int) =~= Seq::<char>::empty());
            assert(out@ + Seq::<char>::empty() =~= out@);
        }
        out
    }
}

/// Decides what a completion result does to the input: a single match
/// replaces the trailing token; several matches extend the input to their
/// longest common prefix when that prefix is strictly longer than the
/// trailing token, and are otherwise printed as a block while the input stays
/// as it was.
pub fn apply_completion(input: &str, result: CompletionResult) -> (r: TabOutcome)
    ensures
        match result {
            CompletionResult::NoMatch => r is Unchanged,
            CompletionResult::Single(c) => r matches TabOutcome::Replaced(s) && s@ == input@.take(
                tab_split(input@),
            ) + c@,
            CompletionResult::Multiple(cands) => {
                if cands@.len() > 0 && lcp_all(cands.deep_view()).len() > input@.len() - tab_split(
                    input@,
                ) {
                    r matches TabOutcome::Replaced(s) && s@ == input@.take(tab_split(input@))
                        + lcp_all(cands.deep_view())
                } else {
                    r matches TabOutcome::ShowCandidates(b) && b@ == candidates_block_spec(
                        cands.deep_view(),
                    )
                }
            },
        },
{
    match result {
        CompletionResult::NoMatch => TabOutcome::Unchanged,
        CompletionResult::Single(c) => {
            let (prefix, _target) = split_completion(input);
            let mut s: String = prefix;
            s.append(c.as_str());
            TabOutcome::Replaced(s)
        },
        CompletionResult::Multiple(cands) => {
            let (prefix, target) = split_completion(input);
            proof {
                assert(target@.len() == input@.len() - tab_split(input@));
            }
            match find_common_prefix(&cands) {
                Option::Some(lcp) => {
                    if lcp.as_str().unicode_len() > target.as_str().unicode_len() {
                        let mut s: String = prefix;
                        s.append(lcp.as_str());
                        TabOutcome::Replaced(s)
                    } else {
                        TabOutcome::ShowCandidates(format_candidates(&cands))
                    }
                },
                Option::None => TabOutcome::ShowCandidates(format_candidates(&cands)),
            }
        },
    }
}

} // verus!
