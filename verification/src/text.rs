//! Character classes and plain text helpers: whitespace skipping, trimming,
//! splitting into lines, and small vector utilities used by the scanner and
//! the verifier.

use vstd::prelude::*;
use vstd::string::StrSliceExecFns;

verus! {

/// A whitespace character, by the Unicode `White_Space` property: the
/// characters that `str::trim` removes and that a `\s` character class
/// accepts.
pub open spec fn is_ws(c: char) -> bool {
    let u = c as u32;
    u == 0x20 || (0x09 <= u && u <= 0x0D) || u == 0x85 || u == 0xA0 || u == 0x1680 || (0x2000
        <= u && u <= 0x200A) || u == 0x2028 || u == 0x2029 || u == 0x202F || u == 0x205F || u
        == 0x3000
}

/// An ASCII decimal digit.
pub open spec fn is_digit(c: char) -> bool {
    0x30 <= c as u32 && c as u32 <= 0x39
}

/// Runtime test for [`is_ws`].
pub fn ws_char(c: char) -> (b: bool)
    ensures
        b == is_ws(c),
{
    let u = c as u32;
    u == 0x20 || (0x09 <= u && u <= 0x0D) || u == 0x85 || u == 0xA0 || u == 0x1680 || (0x2000
        <= u && u <= 0x200A) || u == 0x2028 || u == 0x2029 || u == 0x202F || u == 0x205F || u
        == 0x3000
}

/// Runtime test for [`is_digit`].
pub fn digit_char(c: char) -> (b: bool)
    ensures
        b == is_digit(c),
{
    let u = c as u32;
    0x30 <= u && u <= 0x39
}

/// The first index at or after `i` whose character is not whitespace, or
/// `s.len()` if only whitespace follows.
pub open spec fn skip_ws(s: Seq<char>, i: int) -> int
    decreases s.len() - i,
    when 0 <= i <= s.len()
{
    if i >= s.len() {
        i
    } else if is_ws(s[i]) {
        skip_ws(s, i + 1)
    } else {
        i
    }
}

pub proof fn lemma_skip_ws_range(s: Seq<char>, i: int)
    requires
        0 <= i <= s.len(),
    ensures
        i <= skip_ws(s, i) <= s.len(),
        skip_ws(s, i) < s.len() ==> !is_ws(s[skip_ws(s, i)]),
    decreases s.len() - i,
{
    if i < s.len() && is_ws(s[i]) {
        lemma_skip_ws_range(s, i + 1);
    }
}

/// The last index at or before `i` whose character is not whitespace, or
/// `-1` if only whitespace precedes.
pub open spec fn rskip_ws(s: Seq<char>, i: int) -> int
    decreases i + 1,
    when -1 <= i < s.len()
{
    if i < 0 {
        i
    } else if is_ws(s[i]) {
        rskip_ws(s, i - 1)
    } else {
        i
    }
}

pub proof fn lemma_rskip_ws_range(s: Seq<char>, i: int)
    requires
        -1 <= i < s.len(),
    ensures
        -1 <= rskip_ws(s, i) <= i,
    decreases i + 1,
{
    if i >= 0 && is_ws(s[i]) {
        lemma_rskip_ws_range(s, i - 1);
    }
}

/// The text with leading and trailing whitespace removed.
pub open spec fn spec_trim(s: Seq<char>) -> Seq<char> {
    let a = skip_ws(s, 0);
    let b = rskip_ws(s, s.len() - 1);
    if a <= b {
        s.subrange(a, b + 1)
    } else {
        Seq::empty()
    }
}

/// Advances `i` past whitespace.
pub fn skip_ws_run(s: &Vec<char>, i: usize) -> (j: usize)
    requires
        i <= s.len(),
    ensures
        j == skip_ws(s@, i as int),
        i <= j <= s.len(),
{
    proof {
        lemma_skip_ws_range(s@, i as int);
    }
    let mut j: usize = i;
    while j < s.len() && ws_char(s[j])
        invariant
            i <= j <= s.len(),
            skip_ws(s@, i as int) == skip_ws(s@, j as int),
        decreases s.len() - j,
    {
        j = j + 1;
    }
    j
}

/// Removes leading and trailing whitespace.
pub fn trim_ws(s: &Vec<char>) -> (r: Vec<char>)
    ensures
        r@ == spec_trim(s@),
{
    let a = skip_ws_run(s, 0);
    proof {
        lemma_skip_ws_range(s@, 0);
        lemma_rskip_ws_range(s@, s@.len() - 1);
    }
    if a == s.len() {
        // Only whitespace: the last non-whitespace index lies below `a`.
        Vec::new()
    } else {
        let mut e: usize = s.len();
        while ws_char(s[e - 1])
            invariant
                a < e <= s.len(),
                a < s.len(),
                a as int == skip_ws(s@, 0),
                !is_ws(s@[a as int]),
                rskip_ws(s@, s@.len() - 1) == rskip_ws(s@, e - 1),
            decreases e,
        {
            e = e - 1;
        }
        assert(rskip_ws(s@, e - 1) == e - 1);
        copy_range(s, a, e)
    }
}

/// Copies `s[a..b]` into a fresh vector.
pub fn copy_range(s: &Vec<char>, a: usize, b: usize) -> (r: Vec<char>)
    requires
        a <= b <= s.len(),
    ensures
        r@ == s@.subrange(a as int, b as int),
{
    let mut r: Vec<char> = Vec::new();
    let mut j: usize = a;
    while j < b
        invariant
            a <= j <= b <= s.len(),
            r@ == s@.subrange(a as int, j as int),
        decreases b - j,
    {
        r.push(s[j]);
        j = j + 1;
        proof {
            assert(r@ =~= s@.subrange(a as int, j as int));
        }
    }
    r
}

/// Appends all of `src` to `dst`.
pub fn append_chars(dst: &mut Vec<char>, src: &Vec<char>)
    ensures
        final(dst)@ == old(dst)@ + src@,
{
    let mut j: usize = 0;
    while j < src.len()
        invariant
            j <= src.len(),
            dst@ == old(dst)@ + src@.subrange(0, j as int),
        decreases src.len() - j,
    {
        dst.push(src[j]);
        j = j + 1;
        proof {
            assert(dst@ =~= old(dst)@ + src@.subrange(0, j as int));
        }
    }
    proof {
        assert(dst@ =~= old(dst)@ + src@);
    }
}

/// Whether two character vectors hold the same text.
pub fn eq_chars(a: &Vec<char>, b: &Vec<char>) -> (r: bool)
    ensures
        r == (a@ == b@),
{
    if a.len() != b.len() {
        return false;
    }
    let mut j: usize = 0;
    while j < a.len()
        invariant
            j <= a.len(),
            a.len() == b.len(),
            forall|k: int| 0 <= k < j ==> a@[k] == b@[k],
        decreases a.len() - j,
    {
        if a[j] != b[j] {
            return false;
        }
        j = j + 1;
    }
    proof {
        assert(a@ =~= b@);
    }
    true
}

/// The characters of a string slice, in order.
pub fn str_chars(s: &str) -> (r: Vec<char>)
    ensures
        r@ == s@,
{
    let n = s.unicode_len();
    let mut r: Vec<char> = Vec::new();
    let mut i: usize = 0;
    while i < n
        invariant
            i <= n,
            n == s@.len(),
            r@ == s@.take(i as int),
        decreases n - i,
    {
        r.push(s.get_char(i));
        i = i + 1;
        proof {
            assert(r@ =~= s@.take(i as int));
        }
    }
    proof {
        assert(s@.take(n as int) =~= s@);
    }
    r
}

/// The segments of the text between newline characters: one more segment
/// than there are newlines, in order, each segment free of `'\n'`.
pub open spec fn split_lines(s: Seq<char>) -> Seq<Seq<char>>
    decreases s.len(),
{
    if s.len() == 0 {
        seq![Seq::empty()]
    } else if s.last() == '\n' {
        split_lines(s.drop_last()).push(Seq::empty())
    } else {
        let r = split_lines(s.drop_last());
        r.update(r.len() - 1, r.last().push(s.last()))
    }
}

} // verus!
