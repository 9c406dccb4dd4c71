//! A text loading bar: twenty cells, one filled per five percent.

use vstd::prelude::*;

use crate::text::{dec_spec, push_char, u64_to_dec};

verus! {

/// `n` copies of `c`.
pub open spec fn repeat_char(c: char, n: int) -> Seq<char>
    decreases n,
{
    if n <= 0 {
        Seq::empty()
    } else {
        repeat_char(c, n - 1).push(c)
    }
}

/// The bar for `progress` percent: a bracketed row of twenty cells, one
/// filled per five percent, followed by the percentage.
pub open spec fn loading_bar_spec(progress: int) -> Seq<char> {
    seq!['['] + repeat_char('\u{2588}', progress / 5) + repeat_char('\u{2591}', 20 - progress / 5)
        + "] "@ + dec_spec(progress) + seq!['%']
}

fn push_repeated(s: &mut String, c: char, n: usize)
    ensures
        final(s)@ == old(s)@ + repeat_char(c, n as int),
{
    let mut i: usize = 0;
    proof {
        assert(old(s)@ + repeat_char(c, 0) =~= old(s)@);
    }
    while i < n
        invariant
            0 <= i <= n,
            s@ == old(s)@ + repeat_char(c, i as int),
        decreases n - i,
    {
        push_char(s, c);
        i = i + 1;
    }
}

/// Renders textual progress animations.
pub struct Animator;

impl Animator {
    pub fn new() -> (r: Animator) {
        Animator
    }

    /// The loading bar for `progress` percent, filled cell by cell.
    pub fn get_loading_bar(&self, progress: u8) -> (r: String)
        requires
            progress <= 100,
        ensures
            r@ == loading_bar_spec(progress as int),
    {
        let filled: u64 = (progress as u64) / 5;
        let empty: u64 = 20 - filled;
        let mut r: String = String::new();
        push_char(&mut r, '[');
        proof {
            assert(r@ =~= seq!['[']);
        }
        push_repeated(&mut r, '\u{2588}', filled as usize);
        push_repeated(&mut r, '\u{2591}', empty as usize);
        r.append("] ");
        let digits: String = u64_to_dec(progress as u64);
        r.append(digits.as_str());
        push_char(&mut r, '%');
        proof {
            assert(r@ =~= loading_bar_spec(progress as int));
        }
        r
    }
}

impl Clone for Animator {
    fn clone(&self) -> (r: Self) {
        Animator
    }
}

} // verus!
