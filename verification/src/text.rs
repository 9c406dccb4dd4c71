//! Small verified string utilities the terminal core is built on: whitespace
//! trimming, whitespace-separated tokenization, joining, equality tests and
//! decimal rendering, all specified over `Seq<char>` views.

use vstd::prelude::*;

verus! {

/// The whitespace characters the shell grammar recognises.
pub open spec fn is_space_char(c: char) -> bool {
    c == ' ' || c == '\t' || c == '\n' || c == '\r'
}

pub fn is_space(c: char) -> (r: bool)
    ensures
        r == is_space_char(c),
{
    c == ' ' || c == '\t' || c == '\n' || c == '\r'
}

/// Relies on String::push: appends exactly one character at the end.
#[verifier::external_body]
pub(crate) fn push_char(s: &mut String, c: char)
    ensures
        final(s)@ == old(s)@.push(c),
{
    s.push(c);
}

/// `s` without its leading whitespace.
pub open spec fn trim_start_spec(s: Seq<char>) -> Seq<char>
    decreases s.len(),
{
    if s.len() == 0 {
        s
    } else if is_space_char(s[0]) {
        trim_start_spec(s.skip(1))
    } else {
        s
    }
}

/// `s` without its trailing whitespace.
pub open spec fn trim_end_spec(s: Seq<char>) -> Seq<char>
    decreases s.len(),
{
    if s.len() == 0 {
        s
    } else if is_space_char(s.last()) {
        trim_end_spec(s.drop_last())
    } else {
        s
    }
}

/// `s` without leading and trailing whitespace.
pub open spec fn trim_spec(s: Seq<char>) -> Seq<char> {
    trim_end_spec(trim_start_spec(s))
}

proof fn lemma_trim_start_no_lead(s: Seq<char>)
    ensures
        trim_start_spec(s).len() > 0 ==> !is_space_char(trim_start_spec(s)[0]),
    decreases s.len(),
{
    if s.len() > 0 && is_space_char(s[0]) {
        lemma_trim_start_no_lead(s.skip(1));
    }
}

proof fn lemma_trim_end_no_trail(s: Seq<char>)
    ensures
        trim_end_spec(s).len() > 0 ==> !is_space_char(trim_end_spec(s).last()),
    decreases s.len(),
{
    if s.len() > 0 && is_space_char(s.last()) {
        lemma_trim_end_no_trail(s.drop_last());
    }
}

proof fn lemma_trim_end_keeps_head(s: Seq<char>)
    ensures
        trim_end_spec(s).len() > 0 ==> s.len() > 0 && trim_end_spec(s)[0] == s[0],
    decreases s.len(),
{
    if s.len() > 0 && is_space_char(s.last()) {
        lemma_trim_end_keeps_head(s.drop_last());
    }
}

/// A non-empty trimmed string starts with something other than whitespace,
/// so it holds at least one token.
pub proof fn lemma_trim_tokens_nonempty(s: Seq<char>)
    ensures
        trim_spec(s).len() > 0 ==> !is_space_char(trim_spec(s)[0]) && tokens_spec(trim_spec(s)).len()
            >= 1,
{
    let t = trim_spec(s);
    if t.len() > 0 {
        lemma_trim_start_no_lead(s);
        lemma_trim_end_keeps_head(trim_start_spec(s));
        assert(!is_space_char(t[0]));
        assert(tokens_spec(t).len() >= 1);
    }
}

/// Trimming an already trimmed string changes nothing.
pub proof fn lemma_trim_idempotent(s: Seq<char>)
    ensures
        trim_spec(trim_spec(s)) == trim_spec(s),
{
    let t0 = trim_start_spec(s);
    let t = trim_end_spec(t0);
    lemma_trim_start_no_lead(s);
    lemma_trim_end_keeps_head(t0);
    lemma_trim_end_no_trail(t0);
    if t.len() > 0 {
        assert(!is_space_char(t[0]));
        assert(trim_start_spec(t) == t);
        assert(!is_space_char(t.last()));
        assert(trim_end_spec(t) == t);
    } else {
        assert(trim_start_spec(t) == t);
        assert(trim_end_spec(t) == t);
    }
}

proof fn lemma_trim_start_at(s: Seq<char>, i: int)
    requires
        0 <= i <= s.len(),
        forall|k: int| 0 <= k < i ==> is_space_char(s[k]),
        i < s.len() ==> !is_space_char(s[i]),
    ensures
        trim_start_spec(s) == s.skip(i),
    decreases i,
{
    if i == 0 {
        if s.len() > 0 && is_space_char(s[0]) {
            assert(false);
        }
        assert(s.skip(0) =~= s);
    } else {
        assert(is_space_char(s[0]));
        lemma_trim_start_at(s.skip(1), i - 1);
        assert(s.skip(1).skip(i - 1) =~= s.skip(i));
    }
}

proof fn lemma_trim_end_at(s: Seq<char>, j: int)
    requires
        0 <= j <= s.len(),
        forall|k: int| j <= k < s.len() ==> is_space_char(s[k]),
        j > 0 ==> !is_space_char(s[j - 1]),
    ensures
        trim_end_spec(s) == s.take(j),
    decreases s.len() - j,
{
    if j == s.len() {
        assert(s.take(j) =~= s);
    } else {
        assert(is_space_char(s.last()));
        lemma_trim_end_at(s.drop_last(), j);
        assert(s.drop_last().take(j) =~= s.take(j));
    }
}

/// `s` with leading and trailing whitespace removed, as `str::trim` does for
/// ASCII whitespace.
pub fn trim(s: &str) -> (r: String)
    ensures
        r@ == trim_spec(s@),
{
    let len: usize = s.unicode_len();
    let mut i: usize = 0;
    while i < len && is_space(s.get_char(i))
        invariant
            0 <= i <= len,
            len == s@.len(),
            forall|k: int| 0 <= k < i ==> is_space_char(s@[k]),
        decreases len - i,
    {
        i = i + 1;
    }
    proof {
        lemma_trim_start_at(s@, i as int);
    }
    if i == len {
        proof {
            assert(s@.skip(len as int) =~= Seq::<char>::empty());
            assert(trim_end_spec(Seq::<char>::empty()) =~= Seq::<char>::empty());
        }
        return String::new();
    }
    let mut j: usize = len;
    while j > i && is_space(s.get_char(j - 1))
        invariant
            i <= j <= len,
            len == s@.len(),
            forall|k: int| j <= k < len ==> is_space_char(s@[k]),
        decreases j,
    {
        j = j - 1;
    }
    proof {
        assert(!is_space_char(s@[i as int]));
        assert(j > i);
        lemma_trim_end_at(s@.skip(i as int), j - i);
        assert(s@.skip(i as int).take(j - i) =~= s@.subrange(i as int, j as int));
    }
    s.substring_char(i, j).to_owned()
}

/// Length of the maximal run of non-whitespace characters at the head of `s`.
pub open spec fn head_token_len(s: Seq<char>) -> int
    decreases s.len(),
{
    if s.len() == 0 || is_space_char(s[0]) {
        0
    } else {
        1 + head_token_len(s.skip(1))
    }
}

proof fn lemma_head_token_len_bound(s: Seq<char>)
    ensures
        0 <= head_token_len(s) <= s.len(),
    decreases s.len(),
{
    if s.len() > 0 && !is_space_char(s[0]) {
        lemma_head_token_len_bound(s.skip(1));
    }
}

proof fn lemma_head_token_len_at(s: Seq<char>, k: int)
    requires
        0 <= k <= s.len(),
        forall|m: int| 0 <= m < k ==> !is_space_char(s[m]),
        k < s.len() ==> is_space_char(s[k]),
    ensures
        head_token_len(s) == k,
    decreases k,
{
    if k == 0 {
    } else {
        assert(!is_space_char(s[0]));
        lemma_head_token_len_at(s.skip(1), k - 1);
    }
}

/// The whitespace-separated tokens of `s`, in order, each non-empty.
pub open spec fn tokens_spec(s: Seq<char>) -> Seq<Seq<char>>
    decreases s.len(),
    via tokens_spec_dec
{
    if s.len() == 0 {
        Seq::empty()
    } else if is_space_char(s[0]) {
        tokens_spec(s.skip(1))
    } else {
        let k = head_token_len(s);
        seq![s.take(k)] + tokens_spec(s.skip(k))
    }
}

#[via_fn]
proof fn tokens_spec_dec(s: Seq<char>) {
    if s.len() > 0 && !is_space_char(s[0]) {
        lemma_head_token_len_bound(s.skip(1));
    }
}

proof fn lemma_tokens_skip_space(s: Seq<char>, i: int)
    requires
        0 <= i < s.len(),
        is_space_char(s[i]),
    ensures
        tokens_spec(s.skip(i)) == tokens_spec(s.skip(i + 1)),
{
    assert(s.skip(i)[0] == s[i]);
    assert(s.skip(i).skip(1) =~= s.skip(i + 1));
}

proof fn lemma_tokens_take_token(s: Seq<char>, i: int, j: int)
    requires
        0 <= i < j <= s.len(),
        forall|m: int| i <= m < j ==> !is_space_char(s[m]),
        j < s.len() ==> is_space_char(s[j]),
    ensures
        tokens_spec(s.skip(i)) == seq![s.subrange(i, j)] + tokens_spec(s.skip(j)),
{
    let rest = s.skip(i);
    assert(rest[0] == s[i]);
    assert(!is_space_char(rest[0]));
    assert forall|m: int| 0 <= m < j - i implies !is_space_char(rest[m]) by {
        assert(rest[m] == s[i + m]);
    }
    if j - i < rest.len() {
        assert(rest[j - i] == s[j]);
    }
    lemma_head_token_len_at(rest, j - i);
    assert(rest.take(j - i) =~= s.subrange(i, j));
    assert(rest.skip(j - i) =~= s.skip(j));
}

/// Splits `s` at runs of whitespace, as `str::split_whitespace` does for
/// ASCII whitespace; the result holds no empty token.
pub fn tokenize(s: &str) -> (r: Vec<String>)
    ensures
        r.deep_view() == tokens_spec(s@),
{
    let len: usize = s.unicode_len();
    let mut out: Vec<String> = Vec::new();
    let mut i: usize = 0;
    proof {
        assert(s@.skip(0) =~= s@);
    }
    while i < len
        invariant
            0 <= i <= len,
            len == s@.len(),
            tokens_spec(s@) == out.deep_view() + tokens_spec(s@.skip(i as int)),
        decreases len - i,
    {
        if is_space(s.get_char(i)) {
            proof {
                lemma_tokens_skip_space(s@, i as int);
            }
            i = i + 1;
        } else {
            let start: usize = i;
            let mut j: usize = i + 1;
            while j < len && !is_space(s.get_char(j))
                invariant
                    i < j <= len,
                    len == s@.len(),
                    forall|m: int| i <= m < j ==> !is_space_char(s@[m]),
                decreases len - j,
            {
                j = j + 1;
            }
            let tok: String = s.substring_char(start, j).to_owned();
            proof {
                lemma_tokens_take_token(s@, i as int, j as int);
            }
            let ghost old_out = out.deep_view();
            out.push(tok);
            proof {
                assert(out.deep_view() =~= old_out + seq![s@.subrange(i as int, j as int)]);
                assert(out.deep_view() + tokens_spec(s@.skip(j as int)) =~= old_out + (seq![
                    s@.subrange(i as int, j as int),
                ] + tokens_spec(s@.skip(j as int))));
            }
            i = j;
        }
    }
    proof {
        assert(s@.skip(len as int) =~= Seq::<char>::empty());
        assert(out.deep_view() + Seq::<Seq<char>>::empty() =~= out.deep_view());
    }
    out
}

/// The elements of `ts` joined with a single space between neighbours.
pub open spec fn join_spaces_spec(ts: Seq<Seq<char>>) -> Seq<char>
    decreases ts.len(),
{
    if ts.len() == 0 {
        Seq::empty()
    } else if ts.len() == 1 {
        ts[0]
    } else {
        ts[0] + seq![' '] + join_spaces_spec(ts.skip(1))
    }
}

/// Joins strings with single spaces, as the `echo` handler prints arguments.
pub fn join_spaces(ts: &Vec<String>, from: usize) -> (r: String)
    requires
        from <= ts@.len(),
    ensures
        r@ == join_spaces_spec(ts.deep_view().skip(from as int)),
    decreases ts@.len() - from,
{
    if from == ts.len() {
        proof {
            assert(ts.deep_view().skip(from as int) =~= Seq::<Seq<char>>::empty());
        }
        String::new()
    } else if from + 1 == ts.len() {
        proof {
            assert(ts.deep_view().skip(from as int).len() == 1);
            assert(ts.deep_view().skip(from as int)[0] == ts.deep_view()[from as int]);
        }
        ts[from].clone()
    } else {
        let mut r: String = ts[from].clone();
        push_char(&mut r, ' ');
        let tail: String = join_spaces(ts, from + 1);
        r.append(tail.as_str());
        proof {
            let view = ts.deep_view().skip(from as int);
            assert(view[0] == ts.deep_view()[from as int]);
            assert(view.skip(1) =~= ts.deep_view().skip(from as int + 1));
            assert(r@ =~= view[0] + seq![' '] + join_spaces_spec(view.skip(1)));
        }
        r
    }
}

/// Character-wise equality of two string slices.
pub fn str_eq(a: &str, b: &str) -> (r: bool)
    ensures
        r == (a@ == b@),
{
    let alen: usize = a.unicode_len();
    let blen: usize = b.unicode_len();
    if alen != blen {
        return false;
    }
    let mut i: usize = 0;
    while i < alen
        invariant
            0 <= i <= alen,
            alen == a@.len(),
            alen == b@.len(),
            forall|k: int| 0 <= k < i ==> a@[k] == b@[k],
        decreases alen - i,
    {
        if a.get_char(i) != b.get_char(i) {
            return false;
        }
        i = i + 1;
    }
    proof {
        assert(a@ =~= b@);
    }
    true
}

/// True when `sub` occurs in `s` as a contiguous subrange.
pub open spec fn contains_seq(s: Seq<char>, sub: Seq<char>) -> bool {
    exists|k: int| 0 <= k <= s.len() - sub.len() && #[trigger] s.subrange(k, k + sub.len()) == sub
}

/// Substring search, as `str::contains` decides it.
pub fn str_contains(s: &str, sub: &str) -> (r: bool)
    ensures
        r == contains_seq(s@, sub@),
{
    let slen: usize = s.unicode_len();
    let sublen: usize = sub.unicode_len();
    if sublen > slen {
        return false;
    }
    if sublen == 0 {
        proof {
            assert(s@.subrange(0, 0 + sub@.len() as int) =~= sub@);
        }
        return true;
    }
    let mut k: usize = 0;
    while k <= slen - sublen
        invariant
            0 <= k <= slen,
            1 <= sublen <= slen,
            slen == s@.len(),
            sublen == sub@.len(),
            forall|m: int| 0 <= m < k ==> #[trigger] s@.subrange(m, m + sub@.len()) != sub@,
        decreases slen - k,
    {
        let piece: &str = s.substring_char(k, k + sublen);
        if str_eq(piece, sub) {
            return true;
        }
        k = k + 1;
    }
    false
}

/// The character for one decimal digit.
pub open spec fn digit_char(d: int) -> char {
    if d == 0 {
        '0'
    } else if d == 1 {
        '1'
    } else if d == 2 {
        '2'
    } else if d == 3 {
        '3'
    } else if d == 4 {
        '4'
    } else if d == 5 {
        '5'
    } else if d == 6 {
        '6'
    } else if d == 7 {
        '7'
    } else if d == 8 {
        '8'
    } else {
        '9'
    }
}

/// Decimal representation of `n`, most significant digit first, no sign and
/// no leading zero (except for `n == 0` itself).
pub open spec fn dec_spec(n: int) -> Seq<char>
    decreases n,
{
    if n < 10 {
        seq![digit_char(n)]
    } else {
        dec_spec(n / 10).push(digit_char(n % 10))
    }
}

fn digit_to_char(d: u64) -> (c: char)
    requires
        d < 10,
    ensures
        c == digit_char(d as int),
{
    if d == 0 {
        '0'
    } else if d == 1 {
        '1'
    } else if d == 2 {
        '2'
    } else if d == 3 {
        '3'
    } else if d == 4 {
        '4'
    } else if d == 5 {
        '5'
    } else if d == 6 {
        '6'
    } else if d == 7 {
        '7'
    } else if d == 8 {
        '8'
    } else {
        '9'
    }
}

/// Renders `n` in decimal.
pub fn u64_to_dec(n: u64) -> (r: String)
    ensures
        r@ == dec_spec(n as int),
    decreases n,
{
    if n < 10 {
        let mut r: String = String::new();
        push_char(&mut r, digit_to_char(n));
        proof {
            assert(r@ =~= seq![digit_char(n as int)]);
        }
        r
    } else {
        let mut r: String = u64_to_dec(n / 10);
        push_char(&mut r, digit_to_char(n % 10));
        r
    }
}

} // verus!
