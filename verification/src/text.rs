//! Small verified helpers for building and trimming text, shared by the
//! code generator (fresh global names), the transpiler and the REPL.
use vstd::prelude::*;

verus! {

/// The decimal digit character for a value below ten.
pub open spec fn dec_digit(d: nat) -> char
    recommends
        d < 10,
{
    if d == 0 {
        '0'
    } else if d == 1 {
        '1'
    } else if d == 2 {
        '2'
    } else if d == 3 {
        '3'
    } else if d == 4 {
        '4'
    } else if d == 5 {
        '5'
    } else if d == 6 {
        '6'
    } else if d == 7 {
        '7'
    } else if d == 8 {
        '8'
    } else {
        '9'
    }
}

/// The decimal rendering of a natural number, without sign or padding.
pub open spec fn dec_seq(n: nat) -> Seq<char>
    decreases n,
{
    if n < 10 {
        seq![dec_digit(n)]
    } else {
        dec_seq(n / 10).push(dec_digit(n % 10))
    }
}

/// The decimal rendering of an integer: a leading '-' for negative values.
pub open spec fn int_dec_seq(i: int) -> Seq<char> {
    if i < 0 {
        seq!['-'] + dec_seq((-i) as nat)
    } else {
        dec_seq(i as nat)
    }
}

pub proof fn lemma_dec_seq_len(n: nat)
    ensures
        dec_seq(n).len() >= 1,
        n >= 10 ==> dec_seq(n).len() >= 2,
    decreases n,
{
    if n >= 10 {
        lemma_dec_seq_len(n / 10);
    }
}

/// Distinct numbers render to distinct decimal strings.
pub proof fn lemma_dec_seq_injective(a: nat, b: nat)
    requires
        dec_seq(a) == dec_seq(b),
    ensures
        a == b,
    decreases a,
{
    lemma_dec_seq_len(a);
    lemma_dec_seq_len(b);
    if a < 10 && b < 10 {
        assert(dec_seq(a)[0] == dec_digit(a));
        assert(dec_seq(b)[0] == dec_digit(b));
    } else if a < 10 && b >= 10 {
        assert(dec_seq(b).len() >= 2);
    } else if a >= 10 && b < 10 {
        assert(dec_seq(a).len() >= 2);
    } else {
        let pa = dec_seq(a / 10);
        let pb = dec_seq(b / 10);
        assert(pa.push(dec_digit(a % 10)) == pb.push(dec_digit(b % 10)));
        assert(pa.len() == pb.len()) by {
            assert(pa.push(dec_digit(a % 10)).len() == pb.push(dec_digit(b % 10)).len());
        }
        assert(dec_digit(a % 10) == dec_digit(b % 10)) by {
            assert(pa.push(dec_digit(a % 10))[pa.len() as int] == dec_digit(a % 10));
            assert(pb.push(dec_digit(b % 10))[pb.len() as int] == dec_digit(b % 10));
        }
        assert(a % 10 == b % 10);
        assert(pa == pb) by {
            assert forall|i: int| 0 <= i < pa.len() implies pa[i] == pb[i] by {
                assert(pa.push(dec_digit(a % 10))[i] == pa[i]);
                assert(pb.push(dec_digit(b % 10))[i] == pb[i]);
            }
            assert(pa =~= pb);
        }
        lemma_dec_seq_injective(a / 10, b / 10);
        assert(a == 10 * (a / 10) + a % 10);
        assert(b == 10 * (b / 10) + b % 10);
    }
}

/// A single-character string slice for the given digit value.
pub fn digit_str(d: u64) -> (r: &'static str)
    requires
        d < 10,
    ensures
        r@ == seq![dec_digit(d as nat)],
{
    proof {
        reveal_strlit("0");
        reveal_strlit("1");
        reveal_strlit("2");
        reveal_strlit("3");
        reveal_strlit("4");
        reveal_strlit("5");
        reveal_strlit("6");
        reveal_strlit("7");
        reveal_strlit("8");
        reveal_strlit("9");
    }
    let r = if d == 0 {
        "0"
    } else if d == 1 {
        "1"
    } else if d == 2 {
        "2"
    } else if d == 3 {
        "3"
    } else if d == 4 {
        "4"
    } else if d == 5 {
        "5"
    } else if d == 6 {
        "6"
    } else if d == 7 {
        "7"
    } else if d == 8 {
        "8"
    } else {
        "9"
    };
    proof {
        assert(r@ =~= seq![dec_digit(d as nat)]);
    }
    r
}

/// Renders a natural number in decimal.
pub fn u64_to_string(n: u64) -> (s: String)
    ensures
        s@ == dec_seq(n as nat),
    decreases n,
{
    if n < 10 {
        let s = digit_str(n).to_owned();
        s
    } else {
        let mut s = u64_to_string(n / 10);
        s.append(digit_str(n % 10));
        proof {
            assert(s@ =~= dec_seq(n as nat));
        }
        s
    }
}

/// Renders a signed integer in decimal.
pub fn i64_to_string(i: i64) -> (s: String)
    ensures
        s@ == int_dec_seq(i as int),
{
    if i >= 0 {
        u64_to_string(i as u64)
    } else {
        let mag: u64 = ((-(i + 1)) as u64) + 1;
        assert(mag as int == -(i as int));
        let mut s = ("-").to_owned();
        proof {
            reveal_strlit("-");
        }
        s.append(u64_to_string(mag).as_str());
        proof {
            assert(s@ =~= int_dec_seq(i as int));
        }
        s
    }
}

/// Whether a character counts as whitespace here: the ASCII blanks.
pub open spec fn is_space(c: char) -> bool {
    c == ' ' || c == '\n' || c == '\t' || c == '\r'
}

pub open spec fn trim_front(s: Seq<char>) -> Seq<char>
    decreases s.len(),
{
    if s.len() > 0 && is_space(s[0]) {
        trim_front(s.drop_first())
    } else {
        s
    }
}

pub open spec fn trim_back(s: Seq<char>) -> Seq<char>
    decreases s.len(),
{
    if s.len() > 0 && is_space(s[s.len() - 1]) {
        trim_back(s.drop_last())
    } else {
        s
    }
}

/// Both ends trimmed of ASCII blanks.
pub open spec fn trimmed(s: Seq<char>) -> Seq<char> {
    trim_back(trim_front(s))
}

pub fn exec_is_space(c: char) -> (r: bool)
    ensures
        r == is_space(c),
{
    c == ' ' || c == '\n' || c == '\t' || c == '\r'
}

proof fn lemma_trim_front_range(s: Seq<char>) -> (i: int)
    ensures
        0 <= i <= s.len(),
        trim_front(s) == s.subrange(i, s.len() as int),
        forall|j: int| 0 <= j < i ==> is_space(s[j]),
        i < s.len() ==> !is_space(s[i]),
    decreases s.len(),
{
    if s.len() > 0 && is_space(s[0]) {
        let t = s.drop_first();
        let i0 = lemma_trim_front_range(t);
        assert(t.subrange(i0, t.len() as int) =~= s.subrange(i0 + 1, s.len() as int));
        assert forall|j: int| 0 <= j < i0 + 1 implies is_space(s[j]) by {
            if j > 0 {
                assert(t[j - 1] == s[j]);
            }
        }
        if i0 + 1 < s.len() {
            assert(t[i0] == s[i0 + 1]);
        }
        i0 + 1
    } else {
        assert(s.subrange(0, s.len() as int) =~= s);
        0
    }
}

proof fn lemma_trim_back_range(s: Seq<char>) -> (k: int)
    ensures
        0 <= k <= s.len(),
        trim_back(s) == s.subrange(0, k),
        forall|j: int| k <= j < s.len() ==> is_space(s[j]),
        k > 0 ==> !is_space(s[k - 1]),
    decreases s.len(),
{
    if s.len() > 0 && is_space(s[s.len() - 1]) {
        let t = s.drop_last();
        let k0 = lemma_trim_back_range(t);
        assert(t.subrange(0, k0) =~= s.subrange(0, k0));
        assert forall|j: int| k0 <= j < s.len() implies is_space(s[j]) by {
            if j < s.len() - 1 {
                assert(t[j] == s[j]);
            }
        }
        if k0 > 0 {
            assert(t[k0 - 1] == s[k0 - 1]);
        }
        k0
    } else {
        assert(s.subrange(0, s.len() as int) =~= s);
        s.len() as int
    }
}

/// Removes ASCII blanks from both ends of a string.
pub fn trim_string(s: &str) -> (r: String)
    ensures
        r@ == trimmed(s@),
{
    let n = s.unicode_len();
    let mut lo: usize = 0;
    while lo < n && exec_is_space(s.get_char(lo))
        invariant
            0 <= lo <= n,
            n == s@.len(),
            forall|j: int| 0 <= j < lo ==> is_space(s@[j]),
        decreases n - lo,
    {
        lo = lo + 1;
    }
    let mut hi: usize = n;
    while hi > lo && exec_is_space(s.get_char(hi - 1))
        invariant
            lo <= hi <= n,
            n == s@.len(),
            forall|j: int| 0 <= j < lo ==> is_space(s@[j]),
            lo < n ==> !is_space(s@[lo as int]),
            forall|j: int| hi <= j < n ==> is_space(s@[j]),
        decreases hi,
    {
        hi = hi - 1;
    }
    let r = s.substring_char(lo, hi).to_owned();
    proof {
        let i = lemma_trim_front_range(s@);
        assert(i == lo as int) by {
            if i < lo as int {
                assert(is_space(s@[i]));
            }
            if i > lo as int {
                assert(is_space(s@[lo as int]));
            }
        }
        let f = trim_front(s@);
        let k = lemma_trim_back_range(f);
        assert(f == s@.subrange(lo as int, s@.len() as int));
        assert(f.len() == s@.len() - lo);
        assert(k == hi - lo) by {
            if k < hi - lo {
                assert(f[hi - lo - 1] == s@[hi - 1]);
                assert(is_space(f[hi - lo - 1]));
            }
            if k > hi - lo {
                assert(f[k - 1] == s@[lo + k - 1]);
                assert(is_space(s@[lo + k - 1]));
            }
        }
        assert(trimmed(s@) =~= s@.subrange(lo as int, hi as int));
        assert(r@ == s@.subrange(lo as int, hi as int));
    }
    r
}

/// Character-for-character equality of two string slices.
pub fn str_eq(a: &str, b: &str) -> (r: bool)
    ensures
        r == (a@ == b@),
{
    let na = a.unicode_len();
    let nb = b.unicode_len();
    if na != nb {
        proof {
            assert(a@ != b@) by {
                assert(a@.len() != b@.len());
            }
        }
        return false;
    }
    let mut i: usize = 0;
    while i < na
        invariant
            0 <= i <= na,
            na == a@.len(),
            na == b@.len(),
            forall|j: int| 0 <= j < i ==> a@[j] == b@[j],
        decreases na - i,
    {
        if a.get_char(i) != b.get_char(i) {
            return false;
        }
        i = i + 1;
    }
    proof {
        assert(a@ =~= b@);
    }
    true
}

/// Relies on `String::push`: appends the given character to the end of the
/// string.
#[verifier::external_body]
pub(crate) fn push_char(s: &mut String, c: char)
    ensures
        final(s)@ == old(s)@.push(c),
{
    s.push(c);
}

/// A string holding exactly the given character.
pub fn char_to_string(c: char) -> (r: String)
    ensures
        r@ == seq![c],
{
    let mut s = String::new();
    push_char(&mut s, c);
    proof {
        assert(s@ =~= seq![c]);
    }
    s
}

} // verus!
