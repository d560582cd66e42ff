//! Text building blocks: decimal and hexadecimal digits, conversion between
//! `String` and character vectors, and pattern replacement.
use vstd::prelude::*;

verus! {

/// The decimal digit character for `d` (`0 <= d < 10`).
pub open spec fn dec_digit(d: int) -> char {
    (48 + d) as char
}

/// The lower-case hexadecimal digit character for `d` (`0 <= d < 16`).
pub open spec fn hex_digit(d: int) -> char {
    if d < 10 {
        (48 + d) as char
    } else {
        (87 + d) as char
    }
}

/// Decimal representation of a natural number, without leading zeros.
pub open spec fn nat_text(n: nat) -> Seq<char>
    decreases n,
{
    if n < 10 {
        seq![dec_digit(n as int)]
    } else {
        nat_text(n / 10).push(dec_digit((n % 10) as int))
    }
}

/// Decimal representation of an integer, with a leading `-` when negative.
pub open spec fn int_text(n: int) -> Seq<char> {
    if n < 0 {
        seq!['-'] + nat_text((-n) as nat)
    } else {
        nat_text(n as nat)
    }
}

/// Lower-case hexadecimal representation of a natural number, without leading zeros.
pub open spec fn hex_text(n: nat) -> Seq<char>
    decreases n,
{
    if n < 16 {
        seq![hex_digit(n as int)]
    } else {
        hex_text(n / 16).push(hex_digit((n % 16) as int))
    }
}

/// `s` left-padded with `'0'` characters to at least `width` characters.
pub open spec fn zero_padded(s: Seq<char>, width: nat) -> Seq<char> {
    if s.len() >= width {
        s
    } else {
        Seq::new((width - s.len()) as nat, |i: int| '0') + s
    }
}

/// `s` with every non-overlapping occurrence of `pat`, scanned from the left,
/// replaced by `rep`.
pub open spec fn replaced(s: Seq<char>, pat: Seq<char>, rep: Seq<char>) -> Seq<char>
    decreases s.len(),
{
    if pat.len() == 0 || s.len() < pat.len() {
        s
    } else if s.subrange(0, pat.len() as int) == pat {
        rep + replaced(s.subrange(pat.len() as int, s.len() as int), pat, rep)
    } else {
        seq![s[0]] + replaced(s.subrange(1, s.len() as int), pat, rep)
    }
}

/// `str::chars`, collected into a vector: the characters of `s`, in order.
#[verifier::external_body]
pub(crate) fn chars_of(s: &str) -> (v: Vec<char>)
    ensures
        v@ == s@,
{
    s.chars().collect()
}

/// `String::from_iter` over the characters of `v`: a string holding them, in
/// order.
#[verifier::external_body]
pub(crate) fn string_of(v: &Vec<char>) -> (s: String)
    ensures
        s@ == v@,
{
    v.iter().collect()
}

/// Appends the characters of `s` to `v`.
pub fn push_str(v: &mut Vec<char>, s: &str)
    ensures
        final(v)@ == old(v)@ + s@,
{
    let cs = chars_of(s);
    let mut i: usize = 0;
    while i < cs.len()
        invariant
            i <= cs.len(),
            cs@ == s@,
            v@ == old(v)@ + s@.subrange(0, i as int),
        decreases cs.len() - i,
    {
        v.push(cs[i]);
        i = i + 1;
        assert(s@.subrange(0, i as int) == s@.subrange(0, i - 1 as int).push(cs@[i - 1]));
    }
    assert(s@.subrange(0, s@.len() as int) == s@);
}

/// Appends the characters of `s` to `v`.
pub fn push_chars(v: &mut Vec<char>, s: &Vec<char>)
    ensures
        final(v)@ == old(v)@ + s@,
{
    let mut i: usize = 0;
    while i < s.len()
        invariant
            i <= s.len(),
            v@ == old(v)@ + s@.subrange(0, i as int),
        decreases s.len() - i,
    {
        v.push(s[i]);
        i = i + 1;
        assert(s@.subrange(0, i as int) == s@.subrange(0, i - 1 as int).push(s@[i - 1]));
    }
    assert(s@.subrange(0, s@.len() as int) == s@);
}

/// Appends the decimal representation of `n` to `v`.
pub fn push_nat(v: &mut Vec<char>, n: u64)
    ensures
        final(v)@ == old(v)@ + nat_text(n as nat),
    decreases n,
{
    if n >= 10 {
        push_nat(v, n / 10);
    }
    let d: u8 = (n % 10) as u8;
    let c: char = (48u8 + d) as char;
    assert(c == dec_digit((n % 10) as int));
    v.push(c);
}

/// Appends the decimal representation of `n` to `v`, with a leading `-` when negative.
pub fn push_int(v: &mut Vec<char>, n: i64)
    ensures
        final(v)@ == old(v)@ + int_text(n as int),
{
    if n < 0 {
        v.push('-');
        let m: u64 = (0i128 - n as i128) as u64;
        push_nat(v, m);
        assert(old(v)@.push('-') + nat_text(m as nat) == old(v)@ + (seq!['-'] + nat_text(m as nat)));
    } else {
        push_nat(v, n as u64);
    }
}

/// Appends the lower-case hexadecimal representation of `n` to `v`.
pub fn push_hex(v: &mut Vec<char>, n: u64)
    ensures
        final(v)@ == old(v)@ + hex_text(n as nat),
    decreases n,
{
    if n >= 16 {
        push_hex(v, n / 16);
    }
    let d: u8 = (n % 16) as u8;
    let c: char = if d < 10 { (48u8 + d) as char } else { (87u8 + d) as char };
    assert(c == hex_digit((n % 16) as int));
    v.push(c);
}

/// The decimal representation of `n`.
pub fn nat_string(n: u64) -> (s: Vec<char>)
    ensures
        s@ == nat_text(n as nat),
{
    let mut v: Vec<char> = Vec::new();
    push_nat(&mut v, n);
    assert(v@ == Seq::<char>::empty() + nat_text(n as nat));
    v
}

/// `s` left-padded with `'0'` characters to at least `width` characters.
pub fn pad_zeros(s: &Vec<char>, width: usize) -> (r: Vec<char>)
    ensures
        r@ == zero_padded(s@, width as nat),
{
    let mut r: Vec<char> = Vec::new();
    if s.len() < width {
        let n = width - s.len();
        let mut i: usize = 0;
        while i < n
            invariant
                i <= n,
                r@ == Seq::new(i as nat, |k: int| '0'),
            decreases n - i,
        {
            r.push('0');
            i = i + 1;
            assert(r@ == Seq::new(i as nat, |k: int| '0'));
        }
    }
    push_chars(&mut r, s);
    proof {
        if s@.len() >= width {
            assert(r@ == s@);
        }
    }
    r
}


/// Whether `pat` occurs in `s` at position `i`.
pub fn matches_at(s: &Vec<char>, i: usize, pat: &Vec<char>) -> (r: bool)
    requires
        i + pat@.len() <= s@.len(),
    ensures
        r == (s@.subrange(i as int, i + pat@.len()) == pat@),
{
    let n = s.len();
    let mut k: usize = 0;
    while k < pat.len()
        invariant
            k <= pat@.len(),
            i + pat@.len() <= s@.len(),
            forall|j: int| 0 <= j < k ==> s@[i + j] == pat@[j],
            n == s@.len(),
        decreases pat@.len() - k,
    {
        if s[i + k] != pat[k] {
            assert(s@.subrange(i as int, i + pat@.len())[k as int] != pat@[k as int]);
            return false;
        }
        k = k + 1;
    }
    assert(s@.subrange(i as int, i + pat@.len()) =~= pat@);
    true
}

proof fn lemma_replaced_step(s: Seq<char>, i: int, pat: Seq<char>, rep: Seq<char>)
    requires
        pat.len() > 0,
        0 <= i,
        i + pat.len() <= s.len(),
    ensures
        s.subrange(i, i + pat.len()) == pat ==> replaced(s.subrange(i, s.len() as int), pat, rep)
            == rep + replaced(s.subrange(i + pat.len(), s.len() as int), pat, rep),
        s.subrange(i, i + pat.len()) != pat ==> replaced(s.subrange(i, s.len() as int), pat, rep)
            == seq![s[i]] + replaced(s.subrange(i + 1, s.len() as int), pat, rep),
{
    let t = s.subrange(i, s.len() as int);
    assert(t.subrange(0, pat.len() as int) =~= s.subrange(i, i + pat.len()));
    assert(t.subrange(pat.len() as int, t.len() as int) =~= s.subrange(i + pat.len(), s.len() as int));
    assert(t.subrange(1, t.len() as int) =~= s.subrange(i + 1, s.len() as int));
}

/// `s` with every non-overlapping occurrence of `pat`, scanned from the left,
/// replaced by `rep`.
pub fn replace_all(s: &Vec<char>, pat: &Vec<char>, rep: &Vec<char>) -> (r: Vec<char>)
    requires
        pat@.len() > 0,
    ensures
        r@ == replaced(s@, pat@, rep@),
{
    let mut out: Vec<char> = Vec::new();
    let mut i: usize = 0;
    assert(s@.subrange(0, s@.len() as int) =~= s@);
    while pat.len() <= s.len() - i
        invariant
            i <= s@.len(),
            pat@.len() > 0,
            replaced(s@, pat@, rep@) == out@ + replaced(s@.subrange(i as int, s@.len() as int), pat@, rep@),
        decreases s@.len() - i,
    {
        proof {
            lemma_replaced_step(s@, i as int, pat@, rep@);
        }
        if matches_at(s, i, pat) {
            let ghost before = out@;
            push_chars(&mut out, rep);
            assert(before + (rep@ + replaced(s@.subrange(i + pat@.len(), s@.len() as int), pat@, rep@))
                =~= out@ + replaced(s@.subrange(i + pat@.len(), s@.len() as int), pat@, rep@));
            i = i + pat.len();
        } else {
            let ghost before = out@;
            out.push(s[i]);
            assert(before + (seq![s@[i as int]] + replaced(s@.subrange(i + 1, s@.len() as int), pat@, rep@))
                =~= out@ + replaced(s@.subrange(i + 1, s@.len() as int), pat@, rep@));
            i = i + 1;
        }
    }
    let ghost before = out@;
    let ghost rest = s@.subrange(i as int, s@.len() as int);
    assert(replaced(rest, pat@, rep@) == rest);
    while i < s.len()
        invariant
            i <= s@.len(),
            out@ + s@.subrange(i as int, s@.len() as int) == before + rest,
        decreases s@.len() - i,
    {
        let ghost o = out@;
        out.push(s[i]);
        assert(o + s@.subrange(i as int, s@.len() as int) =~= out@ + s@.subrange(i + 1, s@.len() as int));
        i = i + 1;
    }
    assert(out@ =~= before + rest);
    out
}

/// A decimal digit character.
pub open spec fn is_dec_digit(c: char) -> bool {
    48 <= (c as int) <= 57
}

/// The decimal text of a number is made of digits, and has at least two of
/// them from ten on.
pub proof fn lemma_nat_text_digits(n: nat)
    ensures
        nat_text(n).len() >= 1,
        n >= 10 ==> nat_text(n).len() >= 2,
        forall|i: int| 0 <= i < nat_text(n).len() ==> is_dec_digit(#[trigger] nat_text(n)[i]),
    decreases n,
{
    if n >= 10 {
        lemma_nat_text_digits(n / 10);
        let t = nat_text(n / 10);
        assert forall|i: int| 0 <= i < nat_text(n).len() implies is_dec_digit(#[trigger] nat_text(n)[i]) by {
            if i < t.len() {
                assert(nat_text(n)[i] == t[i]);
            }
        }
    }
}

/// Different numbers have different decimal texts.
pub proof fn lemma_nat_text_injective(a: nat, b: nat)
    requires
        nat_text(a) == nat_text(b),
    ensures
        a == b,
    decreases a,
{
    lemma_nat_text_digits(a);
    lemma_nat_text_digits(b);
    if a < 10 && b < 10 {
        assert(nat_text(a) == seq![dec_digit(a as int)]);
        assert(nat_text(b) == seq![dec_digit(b as int)]);
        assert(seq![dec_digit(a as int)][0] == dec_digit(a as int));
        assert(seq![dec_digit(b as int)][0] == dec_digit(b as int));
        assert(nat_text(a)[0] == nat_text(b)[0]);
        assert(dec_digit(a as int) == dec_digit(b as int));
        assert((dec_digit(a as int) as int) == 48 + a);
        assert((dec_digit(b as int) as int) == 48 + b);
        assert(a == b);
    } else if a >= 10 && b >= 10 {
        let ta = nat_text(a);
        assert(ta.last() == nat_text(b).last());
        assert((dec_digit((a % 10) as int) as int) == 48 + a % 10);
        assert((dec_digit((b % 10) as int) as int) == 48 + b % 10);
        assert(ta.drop_last() =~= nat_text(a / 10));
        assert(nat_text(b).drop_last() =~= nat_text(b / 10));
        lemma_nat_text_injective(a / 10, b / 10);
        assert(a == 10 * (a / 10) + a % 10) by (nonlinear_arith);
        assert(b == 10 * (b / 10) + b % 10) by (nonlinear_arith);
        assert(a % 10 == b % 10);
        assert(a == b);
    } else if a < 10 {
        assert(nat_text(a).len() == 1);
    } else {
        assert(nat_text(b).len() == 1);
    }
}

/// Different integers have different decimal texts.
pub proof fn lemma_int_text_injective(a: int, b: int)
    requires
        int_text(a) == int_text(b),
    ensures
        a == b,
{
    lemma_nat_text_digits(a as nat);
    lemma_nat_text_digits(b as nat);
    lemma_nat_text_digits((-a) as nat);
    lemma_nat_text_digits((-b) as nat);
    if a < 0 && b < 0 {
        assert(int_text(a).drop_first() =~= nat_text((-a) as nat));
        assert(int_text(b).drop_first() =~= nat_text((-b) as nat));
        lemma_nat_text_injective((-a) as nat, (-b) as nat);
    } else if a >= 0 && b >= 0 {
        lemma_nat_text_injective(a as nat, b as nat);
    } else if a < 0 {
        assert(int_text(a)[0] == '-');
        assert(is_dec_digit(nat_text(b as nat)[0]));
    } else {
        assert(int_text(b)[0] == '-');
        assert(is_dec_digit(nat_text(a as nat)[0]));
    }
}

/// The decimal text of an integer holds no character other than digits and
/// `-`.
pub proof fn lemma_int_text_lacks(n: int, c: char)
    requires
        !is_dec_digit(c),
        c != '-',
    ensures
        !int_text(n).contains(c),
        !nat_text(n as nat).contains(c),
{
    lemma_nat_text_digits(n as nat);
    lemma_nat_text_digits((-n) as nat);
    if int_text(n).contains(c) {
        let i = choose|i: int| 0 <= i < int_text(n).len() && int_text(n)[i] == c;
        if n < 0 && i > 0 {
            assert(int_text(n)[i] == nat_text((-n) as nat)[i - 1]);
        }
    }
}

/// Two texts that each end with `c` followed by a tail without `c` split
/// there alike: equal heads and equal tails.
pub proof fn lemma_split_at_last(p1: Seq<char>, q1: Seq<char>, p2: Seq<char>, q2: Seq<char>, c: char)
    requires
        p1 + seq![c] + q1 == p2 + seq![c] + q2,
        !q1.contains(c),
        !q2.contains(c),
    ensures
        p1 == p2,
        q1 == q2,
{
    let s1 = p1 + seq![c] + q1;
    let s2 = p2 + seq![c] + q2;
    assert(s1[p1.len() as int] == c);
    assert(s2[p2.len() as int] == c);
    let a2 = p2 + seq![c];
    let a1 = p1 + seq![c];
    assert(s1 == s2);
    assert(s1.len() == p1.len() + 1 + q1.len());
    assert(s2.len() == p2.len() + 1 + q2.len());
    if q1.len() < q2.len() {
        let idx = p1.len() as int;
        let j = idx - a2.len();
        assert(0 <= j < q2.len());
        assert(s2[idx] == q2[j]);
        assert(q2[j] == c);
        assert(q2.contains(c));
    } else if q2.len() < q1.len() {
        let idx = p2.len() as int;
        let j = idx - a1.len();
        assert(0 <= j < q1.len());
        assert(s1[idx] == q1[j]);
        assert(q1[j] == c);
        assert(q1.contains(c));
    }
    assert(p1 =~= s1.subrange(0, p1.len() as int));
    assert(p2 =~= s2.subrange(0, p2.len() as int));
    assert(q1 =~= s1.subrange((p1.len() + 1) as int, s1.len() as int));
    assert(q2 =~= s2.subrange((p2.len() + 1) as int, s2.len() as int));
}

} // verus!
