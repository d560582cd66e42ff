//! File names for stored elements: readable names made safe for a file
//! system, and unique names in a directory.
use vstd::prelude::*;
use crate::foreign::{lowercase_chars, lowercase_of, path_exists};
use crate::laws::law_safe_name_is_safe;
use crate::paths::{path_joined, push_component};
use crate::text::{chars_of, nat_text, push_chars, push_nat, push_str, string_of};

verus! {

/// What a lower-case character becomes in a file name: letters of the
/// English alphabet, digits, `+` and `-` stay; separators become `-`;
/// punctuation is dropped; accented and other Latin letters become their
/// plain counterparts; anything else becomes `_`.
pub open spec fn safe_chars(c: char) -> Seq<char> {
    match c {
        'a'..='z' | '0'..='9' | '+' | '-' => seq![c],
        ' ' | '&' | '/' | '=' | '\u{294}' => seq!['-'],
        '.' | '`' | '\'' | '"' | '~' | '^' | '*' | '?' | '!' | '\u{bf}' => Seq::empty(),
        '\u{e1}' | '\u{e0}' | '\u{e2}' | '\u{e4}' | '\u{1ce}' | '\u{103}' | '\u{101}' | '\u{e3}' | '\u{e5}' | '\u{1fb}' | '\u{105}' | '\u{327}' | '\u{251}' => seq!['a'],
        '\u{253}' => seq!['b'],
        '\u{107}' | '\u{10b}' | '\u{109}' | '\u{10d}' | '\u{e7}' => seq!['c'],
        '\u{10f}' | '\u{1e0d}' | '\u{257}' | '\u{256}' | '\u{f0}' => seq!['d'],
        '\u{e9}' | '\u{e8}' | '\u{117}' | '\u{ea}' | '\u{eb}' | '\u{11b}' | '\u{115}' | '\u{113}' | '\u{1eb9}' | '\u{119}' | '\u{229}' | '\u{259}' | '\u{25b}' | '\u{1dd}' => seq!['e'],
        '\u{192}' => seq!['f'],
        '\u{121}' | '\u{11d}' | '\u{1e7}' | '\u{11f}' | '\u{123}' | '\u{263}' => seq!['g'],
        '\u{125}' | '\u{1e25}' | '\u{127}' | '\u{266}' => seq!['h'],
        '\u{ed}' | '\u{ec}' | '\u{ee}' | '\u{ef}' | '\u{1d0}' | '\u{12d}' | '\u{12b}' | '\u{129}' | '\u{1ecb}' | '\u{12f}' | '\u{268}' | '\u{131}' | '\u{269}' => seq!['i'],
        '\u{133}' => seq!['i', 'j'],
        '\u{135}' => seq!['j'],
        '\u{137}' | '\u{199}' | '\u{138}' => seq!['\u{137}'],
        '\u{13a}' | '\u{13c}' | '\u{13e}' | '\u{140}' | '\u{142}' => seq!['l'],
        '\u{149}' | '\u{144}' | '\u{308}' | '\u{148}' | '\u{f1}' | '\u{146}' | '\u{272}' => seq!['n'],
        '\u{f3}' | '\u{f2}' | '\u{f4}' | '\u{f6}' | '\u{1d2}' | '\u{14f}' | '\u{14d}' | '\u{f5}' | '\u{151}' | '\u{1ecd}' | '\u{1ff}' | '\u{1a1}' | '\u{1eb}' | '\u{f8}' | '\u{254}' | '\u{28a}' => seq!['o'],
        '\u{155}' | '\u{159}' | '\u{157}' | '\u{24d}' => seq!['r'],
        '\u{15b}' | '\u{15d}' | '\u{161}' | '\u{15f}' => seq!['s'],
        '\u{165}' | '\u{21b}' | '\u{1e6d}' | '\u{163}' | '\u{167}' => seq!['t'],
        '\u{fa}' | '\u{f9}' | '\u{fb}' | '\u{fc}' | '\u{1d4}' | '\u{16d}' | '\u{16b}' | '\u{169}' | '\u{171}' | '\u{16f}' | '\u{1ee5}' | '\u{173}' | '\u{1b0}' | '\u{289}' => seq!['u'],
        '\u{28b}' => seq!['v'],
        '\u{1e83}' | '\u{1e81}' | '\u{175}' | '\u{1e85}' | '\u{1bf}' => seq!['w'],
        '\u{fd}' | '\u{1ef3}' | '\u{177}' | '\u{ff}' | '\u{233}' | '\u{1ef9}' | '\u{328}' | '\u{1b4}' | '\u{21d}' => seq!['y'],
        '\u{17a}' | '\u{17c}' | '\u{17e}' | '\u{1e93}' => seq!['z'],
        '\u{17f}' | '\u{df}' => seq!['s', 's'],
        '\u{e6}' | '\u{1fd}' | '\u{1e3}' => seq!['a', 'e'],
        '\u{153}' => seq!['o', 'e'],
        '\u{fe}' => seq!['t', 'h'],
        '\u{14b}' => seq!['n', 'g'],
        _ => seq!['_'],
    }
}

/// Computes `safe_chars(c)`.
pub fn safe_chars_of(c: char) -> (v: Vec<char>)
    ensures
        v@ == safe_chars(c),
{
    match c {
        'a'..='z' | '0'..='9' | '+' | '-' => vec![c],
        ' ' | '&' | '/' | '=' | '\u{294}' => vec!['-'],
        '.' | '`' | '\'' | '"' | '~' | '^' | '*' | '?' | '!' | '\u{bf}' => Vec::new(),
        '\u{e1}' | '\u{e0}' | '\u{e2}' | '\u{e4}' | '\u{1ce}' | '\u{103}' | '\u{101}' | '\u{e3}' | '\u{e5}' | '\u{1fb}' | '\u{105}' | '\u{327}' | '\u{251}' => vec!['a'],
        '\u{253}' => vec!['b'],
        '\u{107}' | '\u{10b}' | '\u{109}' | '\u{10d}' | '\u{e7}' => vec!['c'],
        '\u{10f}' | '\u{1e0d}' | '\u{257}' | '\u{256}' | '\u{f0}' => vec!['d'],
        '\u{e9}' | '\u{e8}' | '\u{117}' | '\u{ea}' | '\u{eb}' | '\u{11b}' | '\u{115}' | '\u{113}' | '\u{1eb9}' | '\u{119}' | '\u{229}' | '\u{259}' | '\u{25b}' | '\u{1dd}' => vec!['e'],
        '\u{192}' => vec!['f'],
        '\u{121}' | '\u{11d}' | '\u{1e7}' | '\u{11f}' | '\u{123}' | '\u{263}' => vec!['g'],
        '\u{125}' | '\u{1e25}' | '\u{127}' | '\u{266}' => vec!['h'],
        '\u{ed}' | '\u{ec}' | '\u{ee}' | '\u{ef}' | '\u{1d0}' | '\u{12d}' | '\u{12b}' | '\u{129}' | '\u{1ecb}' | '\u{12f}' | '\u{268}' | '\u{131}' | '\u{269}' => vec!['i'],
        '\u{133}' => vec!['i', 'j'],
        '\u{135}' => vec!['j'],
        '\u{137}' | '\u{199}' | '\u{138}' => vec!['\u{137}'],
        '\u{13a}' | '\u{13c}' | '\u{13e}' | '\u{140}' | '\u{142}' => vec!['l'],
        '\u{149}' | '\u{144}' | '\u{308}' | '\u{148}' | '\u{f1}' | '\u{146}' | '\u{272}' => vec!['n'],
        '\u{f3}' | '\u{f2}' | '\u{f4}' | '\u{f6}' | '\u{1d2}' | '\u{14f}' | '\u{14d}' | '\u{f5}' | '\u{151}' | '\u{1ecd}' | '\u{1ff}' | '\u{1a1}' | '\u{1eb}' | '\u{f8}' | '\u{254}' | '\u{28a}' => vec!['o'],
        '\u{155}' | '\u{159}' | '\u{157}' | '\u{24d}' => vec!['r'],
        '\u{15b}' | '\u{15d}' | '\u{161}' | '\u{15f}' => vec!['s'],
        '\u{165}' | '\u{21b}' | '\u{1e6d}' | '\u{163}' | '\u{167}' => vec!['t'],
        '\u{fa}' | '\u{f9}' | '\u{fb}' | '\u{fc}' | '\u{1d4}' | '\u{16d}' | '\u{16b}' | '\u{169}' | '\u{171}' | '\u{16f}' | '\u{1ee5}' | '\u{173}' | '\u{1b0}' | '\u{289}' => vec!['u'],
        '\u{28b}' => vec!['v'],
        '\u{1e83}' | '\u{1e81}' | '\u{175}' | '\u{1e85}' | '\u{1bf}' => vec!['w'],
        '\u{fd}' | '\u{1ef3}' | '\u{177}' | '\u{ff}' | '\u{233}' | '\u{1ef9}' | '\u{328}' | '\u{1b4}' | '\u{21d}' => vec!['y'],
        '\u{17a}' | '\u{17c}' | '\u{17e}' | '\u{1e93}' => vec!['z'],
        '\u{17f}' | '\u{df}' => vec!['s', 's'],
        '\u{e6}' | '\u{1fd}' | '\u{1e3}' => vec!['a', 'e'],
        '\u{153}' => vec!['o', 'e'],
        '\u{fe}' => vec!['t', 'h'],
        '\u{14b}' => vec!['n', 'g'],
        _ => vec!['_'],
    }
}

/// The safe characters of a sequence of lower-case characters, in order.
pub open spec fn safe_text(cs: Seq<char>) -> Seq<char>
    decreases cs.len(),
{
    if cs.len() == 0 {
        Seq::empty()
    } else {
        safe_text(cs.drop_last()) + safe_chars(cs.last())
    }
}

/// The file-system-safe form of `name`: each character is taken to lower
/// case and each resulting character mapped by `safe_chars`.
pub open spec fn safe_name(name: Seq<char>) -> Seq<char>
    decreases name.len(),
{
    if name.len() == 0 {
        Seq::empty()
    } else {
        safe_name(name.drop_last()) + safe_text(lowercase_of(name.last()))
    }
}

/// A character that may stand in a safe file name: a lower-case letter of the
/// English alphabet, a digit, `+`, `-`, `_`, or `ķ`.
pub open spec fn safe_file_char(c: char) -> bool {
    ('a' <= c && c <= 'z') || ('0' <= c && c <= '9') || c == '+' || c == '-' || c == '_' || c == '\u{137}'
}

/// Converts the name into a file-system-safe (but still readable) name by
/// mapping its characters to safe ones. A name made only of safe characters
/// stays as it is, so making a safe name twice gives the same as once.
pub fn make_safe_name(name: &str) -> (s: String)
    ensures
        s@ == safe_name(name@),
        forall|i: int| 0 <= i < s@.len() ==> safe_file_char(#[trigger] s@[i]),
        (forall|i: int| 0 <= i < name@.len() ==> safe_file_char(#[trigger] name@[i])) ==> s@ == name@,
{
    proof {
        law_safe_name_is_safe(name@);
    }
    let cs = chars_of(name);
    let mut out: Vec<char> = Vec::new();
    let mut i: usize = 0;
    while i < cs.len()
        invariant
            i <= cs@.len(),
            cs@ == name@,
            out@ == safe_name(cs@.subrange(0, i as int)),
            (forall|k: int| 0 <= k < i ==> safe_file_char(#[trigger] cs@[k])) ==> out@ == cs@.subrange(
                0,
                i as int,
            ),
        decreases cs@.len() - i,
    {
        let lower = lowercase_chars(cs[i]);
        let ghost out_before = out@;
        let mut j: usize = 0;
        let ghost before = out@;
        while j < lower.len()
            invariant
                j <= lower@.len(),
                out@ == before + safe_text(lower@.subrange(0, j as int)),
            decreases lower@.len() - j,
        {
            let mapped = safe_chars_of(lower[j]);
            push_chars(&mut out, &mapped);
            proof {
                let t = lower@.subrange(0, j + 1 as int);
                assert(t.drop_last() =~= lower@.subrange(0, j as int));
            }
            j = j + 1;
        }
        proof {
            assert(lower@.subrange(0, lower@.len() as int) =~= lower@);
            let t = cs@.subrange(0, i + 1 as int);
            assert(t.drop_last() =~= cs@.subrange(0, i as int));
            if forall|k: int| 0 <= k < i + 1 ==> safe_file_char(#[trigger] cs@[k]) {
                assert(safe_file_char(cs@[i as int]));
                assert(lower@ == seq![cs@[i as int]]);
                assert(lower@.drop_last() =~= Seq::<char>::empty());
                assert(safe_text(Seq::<char>::empty()) =~= Seq::<char>::empty());
                assert(lower@.last() == cs@[i as int]);
                assert(safe_text(lower@) == safe_chars(cs@[i as int]));
                assert(out@ == out_before + seq![cs@[i as int]]);
                assert(out@ =~= t);
            }
        }
        i = i + 1;
    }
    assert(cs@.subrange(0, cs@.len() as int) =~= cs@);
    string_of(&out)
}

/// The file name tried the `i`th time for `name` with extension `ext`: the
/// safe name and the extension for the first try, with `-i` before the
/// extension from the second on.
pub open spec fn numbered_name(safe: Seq<char>, ext: Seq<char>, i: nat) -> Seq<char> {
    if i < 2 {
        safe + seq!['.'] + ext
    } else {
        safe + seq!['-'] + nat_text(i) + seq!['.'] + ext
    }
}

/// The path tried the `i`th time for `name` with extension `ext` in `dir`.
pub open spec fn filename_candidate(dir: Seq<char>, name: Seq<char>, ext: Seq<char>, i: nat) -> Seq<char> {
    path_joined(dir, numbered_name(safe_name(name), ext, i))
}

/// The path tried the `i`th time by `make_filename`.
pub fn candidate_filename(dir: &str, name: &str, ext: &str, i: u64) -> (p: String)
    ensures
        p@ == filename_candidate(dir@, name@, ext@, i as nat),
{
    let safe = make_safe_name(name);
    candidate_from_safe(dir, &safe, ext, i)
}

fn candidate_from_safe(dir: &str, safe: &String, ext: &str, i: u64) -> (p: String)
    ensures
        p@ == path_joined(dir@, numbered_name(safe@, ext@, i as nat)),
{
    let mut file = chars_of(safe.as_str());
    if i >= 2 {
        file.push('-');
        push_nat(&mut file, i);
    }
    file.push('.');
    push_str(&mut file, ext);
    proof {
        if i < 2 {
            assert(file@ =~= numbered_name(safe@, ext@, i as nat));
        } else {
            assert(file@ =~= numbered_name(safe@, ext@, i as nat));
        }
    }
    let mut p = chars_of(dir);
    push_component(&mut p, &file);
    string_of(&p)
}

/// The position of the first `false` among the answers `taken`, or `None`
/// when every answer is `true`.
pub fn first_free(taken: &Vec<bool>) -> (r: Option<usize>)
    ensures
        match r {
            Some(i) => i < taken@.len() && !taken@[i as int] && forall|j: int| 0 <= j < i ==> taken@[j],
            None => forall|j: int| 0 <= j < taken@.len() ==> taken@[j],
        },
{
    let mut i: usize = 0;
    while i < taken.len()
        invariant
            i <= taken@.len(),
            forall|j: int| 0 <= j < i ==> taken@[j],
        decreases taken@.len() - i,
    {
        if !taken[i] {
            return Some(i);
        }
        i = i + 1;
    }
    None
}

/// The first answer `k` of `taken` that is `false`: the candidate numbered
/// `k + 1` is the first free one.
pub open spec fn first_free_at(taken: Seq<bool>, k: int) -> bool {
    0 <= k < taken.len() && !taken[k] && forall|j: int| 0 <= j < k ==> taken[j]
}

/// The file name taken for `name` with extension `ext` in `dir`, given the
/// file system's answers `taken` on whether something exists at each
/// candidate, numbered from one: the first candidate answered free, or `None`
/// when every answer is that something exists.
pub fn candidate_for_answers(dir: &str, name: &str, ext: &str, taken: &Vec<bool>) -> (r: Option<String>)
    ensures
        match r {
            Some(p) => exists|k: int|
                #[trigger] first_free_at(taken@, k) && p@ == filename_candidate(dir@, name@, ext@, (k + 1) as nat),
            None => forall|j: int| 0 <= j < taken@.len() ==> taken@[j],
        },
{
    match first_free(taken) {
        Some(k) => {
            assert(k < taken.len() && taken.len() <= usize::MAX);
            let i: u64 = k as u64 + 1;
            let p = candidate_filename(dir, name, ext, i);
            assert(first_free_at(taken@, k as int));
            Some(p)
        },
        None => None,
    }
}

/// Whether something exists at `path`, as the file system answers.
pub fn exists_at(path: &String) -> bool {
    path_exists(path.as_str())
}

/// `probe` was asked about a path with the text `path` and answered `b`.
pub open spec fn answered<F: Fn(&String) -> bool>(probe: F, path: Seq<char>, b: bool) -> bool {
    exists|q: String| q@ == path && #[trigger] call_ensures(probe, (&q,), b)
}

/// Combines `name` and `ext` into a new unique file name in the directory
/// `dir`, possibly adding a number, asking `probe` whether something exists
/// at a path. The candidates, numbered from one, are asked about in turn;
/// the first one at which nothing exists is returned: every candidate
/// numbered below it was answered taken, and it was answered free. `None`
/// when every candidate below `u64::MAX` was answered taken.
pub fn make_filename_with<F: Fn(&String) -> bool>(dir: &str, name: &str, ext: &str, probe: F) -> (r: Option<String>)
    requires
        forall|p: &String| #[trigger] call_requires(probe, (p,)),
    ensures
        match r {
            Some(p) => exists|i: nat| {
                &&& 1 <= i < u64::MAX
                &&& p@ == #[trigger] filename_candidate(dir@, name@, ext@, i)
                &&& call_ensures(probe, (&p,), false)
                &&& forall|j: nat| 1 <= j < i ==> answered(probe, #[trigger] filename_candidate(dir@, name@, ext@, j), true)
            },
            None => forall|j: nat| 1 <= j < u64::MAX ==> answered(probe, #[trigger] filename_candidate(dir@, name@, ext@, j), true),
        },
{
    let safe = make_safe_name(name);
    let mut i: u64 = 1;
    while i < u64::MAX
        invariant
            1 <= i <= u64::MAX,
            safe@ == safe_name(name@),
            forall|p: &String| #[trigger] call_requires(probe, (p,)),
            forall|j: nat| 1 <= j < i ==> answered(probe, #[trigger] filename_candidate(dir@, name@, ext@, j), true),
        decreases u64::MAX - i,
    {
        let p = candidate_from_safe(dir, &safe, ext, i);
        assert(p@ == filename_candidate(dir@, name@, ext@, i as nat));
        let taken = probe(&p);
        if !taken {
            return Some(p);
        }
        proof {
            assert(answered(probe, filename_candidate(dir@, name@, ext@, i as nat), true));
        }
        i = i + 1;
    }
    None
}

/// Combines `name` and `ext` into a new unique file name in the directory
/// `dir`, possibly adding a number: `make_filename_with` asking the file
/// system through `exists_at`. The plain name is taken when nothing exists at
/// it; else the least numbered candidate at which nothing exists.
pub fn make_filename(dir: &str, name: &str, ext: &str) -> (r: Option<String>)
    ensures
        match r {
            Some(p) => exists|i: nat| {
                &&& 1 <= i < u64::MAX
                &&& p@ == #[trigger] filename_candidate(dir@, name@, ext@, i)
                &&& call_ensures(exists_at, (&p,), false)
                &&& forall|j: nat| 1 <= j < i ==> answered(exists_at, #[trigger] filename_candidate(dir@, name@, ext@, j), true)
            },
            None => forall|j: nat| 1 <= j < u64::MAX ==> answered(exists_at, #[trigger] filename_candidate(dir@, name@, ext@, j), true),
        },
        r matches Some(p) ==> exists|i: u64| 1 <= i && p@ == filename_candidate(dir@, name@, ext@, i as nat),
{
    let r = make_filename_with(dir, name, ext, exists_at);
    proof {
        if r is Some {
            let p = r->0;
            let i = choose|i: nat| {
                &&& 1 <= i < u64::MAX
                &&& p@ == #[trigger] filename_candidate(dir@, name@, ext@, i)
                &&& call_ensures(exists_at, (&p,), false)
                &&& forall|j: nat| 1 <= j < i ==> answered(exists_at, #[trigger] filename_candidate(dir@, name@, ext@, j), true)
            };
            assert(p@ == filename_candidate(dir@, name@, ext@, (i as u64) as nat));
        }
    }
    r
}

/// Whether a file holds a stored element: its name ends with `.json`.
pub fn is_element_file(filename: &str) -> (r: bool)
    ensures
        r == (filename@.len() >= 5 && filename@.subrange(filename@.len() - 5, filename@.len() as int)
            == seq!['.', 'j', 's', 'o', 'n']),
{
    let cs = chars_of(filename);
    let n = cs.len();
    if n < 5 {
        return false;
    }
    let r = cs[n - 5] == '.' && cs[n - 4] == 'j' && cs[n - 3] == 's' && cs[n - 2] == 'o' && cs[n - 1] == 'n';
    assert(r == (cs@.subrange(n - 5, n as int) =~= seq!['.', 'j', 's', 'o', 'n']));
    r
}

} // verus!
