//! Bounded, deduplicated command history with arrow-key navigation.
//!
//! Storage is chronological, most recent last. Adding a command that is
//! already present moves it to the end instead of duplicating it; the oldest
//! entry is evicted beyond the bound. Navigation walks a cursor from the most
//! recent entry toward the oldest, clamping at the oldest; stepping forward
//! past the most recent entry clears the selection and yields the empty
//! string, returning the user to a blank prompt.

use vstd::prelude::*;

use crate::line_buffer::push_bounded;
use crate::text::{str_eq, trim, trim_spec};

verus! {

/// `s` without its first element equal to `c`; `s` itself when `c` does not
/// occur.
pub open spec fn remove_first_eq(s: Seq<Seq<char>>, c: Seq<char>) -> Seq<Seq<char>>
    decreases s.len(),
{
    if s.len() == 0 {
        s
    } else if s[0] == c {
        s.skip(1)
    } else {
        seq![s[0]] + remove_first_eq(s.skip(1), c)
    }
}

/// The model of one `add` call: the duplicate (if any) is removed, the
/// command goes to the back, the oldest entry beyond the bound is evicted.
pub open spec fn hist_add_spec(s: Seq<Seq<char>>, c: Seq<char>, max: int) -> Seq<Seq<char>> {
    push_bounded(remove_first_eq(s, c), c, max)
}

/// No command occurs twice.
pub open spec fn distinct(s: Seq<Seq<char>>) -> bool {
    forall|i: int, j: int| 0 <= i < j < s.len() ==> s[i] != s[j]
}

proof fn lemma_remove_first_at(s: Seq<Seq<char>>, c: Seq<char>, i: int)
    requires
        0 <= i < s.len(),
        s[i] == c,
        forall|k: int| 0 <= k < i ==> s[k] != c,
    ensures
        remove_first_eq(s, c) == s.take(i) + s.skip(i + 1),
    decreases i,
{
    if i == 0 {
        assert(s.take(0) + s.skip(1) =~= s.skip(1));
    } else {
        assert(s.skip(1)[i - 1] == s[i]);
        assert forall|k: int| 0 <= k < i - 1 implies s.skip(1)[k] != c by {
            assert(s.skip(1)[k] == s[k + 1]);
        }
        lemma_remove_first_at(s.skip(1), c, i - 1);
        assert(s.skip(1).take(i - 1) =~= s.take(i).skip(1));
        assert(s.skip(1).skip(i) =~= s.skip(i + 1));
        assert(seq![s[0]] + (s.take(i).skip(1) + s.skip(i + 1)) =~= s.take(i) + s.skip(i + 1));
    }
}

proof fn lemma_remove_first_absent(s: Seq<Seq<char>>, c: Seq<char>)
    requires
        forall|k: int| 0 <= k < s.len() ==> s[k] != c,
    ensures
        remove_first_eq(s, c) == s,
    decreases s.len(),
{
    if s.len() > 0 {
        assert forall|k: int| 0 <= k < s.skip(1).len() implies s.skip(1)[k] != c by {
            assert(s.skip(1)[k] == s[k + 1]);
        }
        lemma_remove_first_absent(s.skip(1), c);
        assert(seq![s[0]] + s.skip(1) =~= s);
    }
}

proof fn lemma_remove_first_props(s: Seq<Seq<char>>, c: Seq<char>)
    requires
        distinct(s),
    ensures
        remove_first_eq(s, c).len() <= s.len(),
        distinct(remove_first_eq(s, c)),
        forall|k: int|
            0 <= k < remove_first_eq(s, c).len() ==> #[trigger] remove_first_eq(s, c)[k] != c,
{
    if exists|i: int| 0 <= i < s.len() && s[i] == c {
        let i = choose|i: int| 0 <= i < s.len() && s[i] == c;
        let first = choose|j: int|
            0 <= j <= i && s[j] == c && forall|k: int| 0 <= k < j ==> s[k] != c;
        assert(exists|j: int|
            0 <= j <= i && s[j] == c && (forall|k: int| 0 <= k < j ==> s[k] != c)) by {
            lemma_first_occurrence(s, c, i);
        }
        lemma_remove_first_at(s, c, first);
        let r = s.take(first) + s.skip(first + 1);
        assert forall|k: int| 0 <= k < r.len() implies #[trigger] r[k] != c by {
            if k < first {
                assert(r[k] == s[k]);
            } else {
                assert(r[k] == s[k + 1]);
                assert(s[first] == c);
            }
        }
        assert forall|a: int, b: int| 0 <= a < b < r.len() implies r[a] != r[b] by {
            let sa = if a < first {
                a
            } else {
                a + 1
            };
            let sb = if b < first {
                b
            } else {
                b + 1
            };
            assert(r[a] == s[sa]);
            assert(r[b] == s[sb]);
        }
    } else {
        lemma_remove_first_absent(s, c);
    }
}

proof fn lemma_first_occurrence(s: Seq<Seq<char>>, c: Seq<char>, i: int)
    requires
        0 <= i < s.len(),
        s[i] == c,
    ensures
        exists|j: int| 0 <= j <= i && s[j] == c && (forall|k: int| 0 <= k < j ==> s[k] != c),
    decreases i,
{
    if forall|k: int| 0 <= k < i ==> s[k] != c {
        assert(0 <= i <= i && s[i] == c && (forall|k: int| 0 <= k < i ==> s[k] != c));
    } else {
        let e = choose|k: int| 0 <= k < i && s[k] == c;
        lemma_first_occurrence(s, c, e);
        let j = choose|j: int|
            0 <= j <= e && s[j] == c && (forall|k: int| 0 <= k < j ==> s[k] != c);
        assert(0 <= j <= i && s[j] == c && (forall|k: int| 0 <= k < j ==> s[k] != c));
    }
}

/// History dedupe and order: adding a command to a duplicate-free history
/// keeps it duplicate-free, puts the command at the back exactly once, and
/// never exceeds the bound — the duplicate is moved, not duplicated.
pub proof fn lemma_history_dedupe(s: Seq<Seq<char>>, c: Seq<char>, max: int)
    requires
        max >= 1,
        s.len() <= max,
        distinct(s),
    ensures
        distinct(hist_add_spec(s, c, max)),
        hist_add_spec(s, c, max).len() <= max,
        hist_add_spec(s, c, max).last() == c,
        forall|k: int|
            0 <= k < hist_add_spec(s, c, max).len() - 1 ==> #[trigger] hist_add_spec(s, c, max)[k]
                != c,
{
    lemma_remove_first_props(s, c);
    let r = remove_first_eq(s, c);
    let t = r.push(c);
    assert forall|a: int, b: int| 0 <= a < b < t.len() implies t[a] != t[b] by {
        if b < t.len() - 1 {
            assert(t[a] == r[a] && t[b] == r[b]);
        } else {
            assert(t[b] == c && t[a] == r[a]);
        }
    }
    let h = hist_add_spec(s, c, max);
    if t.len() > max {
        let d = t.len() - max;
        assert(h =~= t.skip(d));
        assert forall|a: int, b: int| 0 <= a < b < h.len() implies h[a] != h[b] by {
            assert(h[a] == t[a + d] && h[b] == t[b + d]);
        }
        assert(h.last() == t.last());
        assert forall|k: int| 0 <= k < h.len() - 1 implies #[trigger] h[k] != c by {
            assert(h[k] == t[k + d] && t[k + d] == r[k + d]);
        }
    }
}

/// Bounded, deduplicated command history with a navigation cursor.
pub struct CommandHistory {
    pub commands: std::collections::VecDeque<String>,
    pub current_index: Option<usize>,
    pub max_size: usize,
}

impl CommandHistory {
    /// The models of the stored commands, oldest first, most recent last.
    pub open spec fn strs(self) -> Seq<Seq<char>> {
        self.commands@.map_values(|s: String| s@)
    }

    /// The bound is positive, the store respects it, and the cursor points at
    /// a stored command.
    pub open spec fn wf(self) -> bool {
        &&& self.max_size >= 1
        &&& self.commands@.len() <= self.max_size
        &&& match self.current_index {
            Option::Some(i) => i < self.commands@.len(),
            Option::None => true,
        }
    }

    /// An empty history bounded at `max_size` entries.
    pub fn new(max_size: usize) -> (r: CommandHistory)
        requires
            max_size >= 1,
        ensures
            r.wf(),
            r.strs() == Seq::<Seq<char>>::empty(),
            r.current_index == Option::<usize>::None,
            r.max_size == max_size,
    {
        let r = CommandHistory {
            commands: std::collections::VecDeque::new(),
            current_index: Option::None,
            max_size,
        };
        proof {
            assert(r.strs() =~= Seq::<Seq<char>>::empty());
        }
        r
    }

    /// Records a command: a blank command is ignored, any stored duplicate of
    /// the trimmed command is moved to the back rather than copied, the
    /// oldest entry is evicted beyond the bound, and navigation resets.
    pub fn add(&mut self, cmd: String)
        requires
            old(self).wf(),
        ensures
            final(self).wf(),
            final(self).current_index == Option::<usize>::None,
            final(self).max_size == old(self).max_size,
            final(self).strs() == if trim_spec(cmd@).len() == 0 {
                old(self).strs()
            } else {
                hist_add_spec(old(self).strs(), trim_spec(cmd@), old(self).max_size as int)
            },
    {
        let trimmed: String = trim(cmd.as_str());
        if trimmed.as_str().unicode_len() > 0 {
            let ghost t = trim_spec(cmd@);
            let len: usize = self.commands.len();
            let mut i: usize = 0;
            let mut found: bool = false;
            while i < len && !found
                invariant
                    0 <= i <= len,
                    len == self.commands@.len(),
                    trimmed@ == t,
                    found ==> i < len && self.strs()[i as int] == t,
                    forall|k: int| 0 <= k < i ==> self.strs()[k] != t,
                decreases len - i, (if found { 0int } else { 1int }),
            {
                if str_eq(self.commands[i].as_str(), trimmed.as_str()) {
                    found = true;
                } else {
                    i = i + 1;
                }
            }
            let ghost before = self.strs();
            if found {
                proof {
                    lemma_remove_first_at(before, t, i as int);
                }
                self.commands.remove(i);
                proof {
                    assert(self.strs() =~= before.take(i as int) + before.skip(i as int + 1));
                }
            } else {
                proof {
                    lemma_remove_first_absent(before, t);
                }
            }
            let ghost removed = self.strs();
            proof {
                assert(removed == remove_first_eq(before, t));
            }
            self.commands.push_back(trimmed);
            proof {
                assert(self.strs() =~= removed.push(t));
            }
            if self.commands.len() > self.max_size {
                let ghost full = self.strs();
                self.commands.pop_front();
                proof {
                    assert(self.strs() =~= full.skip(1));
                    assert(full.skip(1) =~= full.skip(full.len() - self.max_size as int));
                }
            }
        }
        self.current_index = Option::None;
    }

    /// Steps toward older commands: the first call selects the most recent
    /// entry; later calls step further into the past and clamp at the oldest.
    /// Yields nothing when the history is empty.
    pub fn previous(&mut self) -> (r: Option<String>)
        requires
            old(self).wf(),
        ensures
            final(self).wf(),
            final(self).strs() == old(self).strs(),
            final(self).max_size == old(self).max_size,
            old(self).strs().len() == 0 ==> (r == Option::<String>::None && final(self).current_index == old(self).current_index),
            old(self).strs().len() > 0 ==> {
                let idx = match old(self).current_index {
                    Option::None => old(self).strs().len() - 1,
                    Option::Some(i) => if i > 0 {
                        i - 1
                    } else {
                        0int
                    },
                };
                &&& final(self).current_index == Option::Some(idx as usize)
                &&& r is Some
                &&& r.unwrap()@ == old(self).strs()[idx]
            },
    {
        if self.commands.len() == 0 {
            return Option::None;
        }
        let idx: usize = match self.current_index {
            Option::None => self.commands.len() - 1,
            Option::Some(i) => if i > 0 {
                i - 1
            } else {
                0
            },
        };
        self.current_index = Option::Some(idx);
        Option::Some(self.commands[idx].clone())
    }

    /// Steps back toward the most recent command; stepping past it clears the
    /// selection and yields the empty string, so the prompt goes blank.
    /// Yields nothing when no entry is selected.
    pub fn next(&mut self) -> (r: Option<String>)
        requires
            old(self).wf(),
        ensures
            final(self).wf(),
            final(self).strs() == old(self).strs(),
            final(self).max_size == old(self).max_size,
            match old(self).current_index {
                Option::None => r == Option::<String>::None && final(self).current_index
                    == Option::<usize>::None,
                Option::Some(i) => if i + 1 < old(self).strs().len() {
                    &&& final(self).current_index == Option::Some((i + 1) as usize)
                    &&& r is Some
                    &&& r.unwrap()@ == old(self).strs()[i + 1]
                } else {
                    &&& final(self).current_index == Option::<usize>::None
                    &&& r is Some
                    &&& r.unwrap()@ == Seq::<char>::empty()
                },
            },
    {
        match self.current_index {
            Option::None => Option::None,
            Option::Some(i) => {
                if i + 1 < self.commands.len() {
                    self.current_index = Option::Some(i + 1);
                    Option::Some(self.commands[i + 1].clone())
                } else {
                    self.current_index = Option::None;
                    Option::Some(String::new())
                }
            },
        }
    }
}

} // verus!
