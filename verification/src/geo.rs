//! Positions on the map view.
use vstd::prelude::*;
use crate::foreign::{is_word_char, word_char};
use crate::text::{chars_of, int_text, push_int, string_of};

verus! {

/// View position in pixels.
#[derive(Copy, Clone)]
pub struct PixelPos {
    pub x: i32,
    pub y: i32,
}

/// Text of a position: `(x,y)`.
pub open spec fn pixel_pos_text(x: i32, y: i32) -> Seq<char> {
    seq!['('] + int_text(x as int) + seq![','] + int_text(y as int) + seq![')']
}

impl PixelPos {
    /// The position `(x, y)`.
    pub fn new(x: i32, y: i32) -> (p: PixelPos)
        ensures
            p.x == x,
            p.y == y,
    {
        PixelPos { x, y }
    }

    /// The position as text, `(x,y)`.
    pub fn to_text(&self) -> (s: String)
        ensures
            s@ == pixel_pos_text(self.x, self.y),
    {
        let mut v: Vec<char> = Vec::new();
        v.push('(');
        push_int(&mut v, self.x as i64);
        v.push(',');
        push_int(&mut v, self.y as i64);
        v.push(')');
        assert(v@ =~= pixel_pos_text(self.x, self.y));
        string_of(&v)
    }
}

/// A character of a decimal number: a digit or a dot.
pub open spec fn num_char(c: char) -> bool {
    ('0' <= c && c <= '9') || c == '.'
}

/// End of the run of number characters of `s` that starts at `i`.
pub open spec fn run_end(s: Seq<char>, i: int) -> int
    decreases s.len() - i,
{
    if 0 <= i < s.len() && num_char(s[i]) {
        run_end(s, i + 1)
    } else {
        i
    }
}

/// Position of the first digit of `s` at or after `i`, or the length of `s`.
pub open spec fn next_digit(s: Seq<char>, i: int) -> int
    decreases s.len() - i,
{
    if 0 <= i < s.len() && !('0' <= s[i] && s[i] <= '9') {
        next_digit(s, i + 1)
    } else {
        i
    }
}

/// A decimal number as `[0-9]*\.[0-9]+|[0-9]+` takes it: digits with at most
/// one dot, ending in a digit.
pub open spec fn decimal_ok(t: Seq<char>) -> bool {
    &&& t.len() > 0
    &&& '0' <= t.last() && t.last() <= '9'
    &&& forall|i: int| 0 <= i < t.len() ==> num_char(#[trigger] t[i])
    &&& forall|i: int, j: int| 0 <= i < j < t.len() ==> !(#[trigger] t[i] == '.' && #[trigger] t[j] == '.')
}

/// Position of the side letter after a number ending at `a`: after an
/// optional space or degree sign that is followed by one of `x` or `y`.
pub open spec fn side_at(s: Seq<char>, a: int, x: char, y: char) -> int {
    if a + 1 < s.len() && (s[a] == ' ' || s[a] == '\u{b0}') && (s[a + 1] == x || s[a + 1] == y) {
        a + 1
    } else {
        a
    }
}

/// The parts of a location written as latitude, `N` or `S`, separators,
/// longitude, `E` or `W` (such as `48.2N 2.5W` or `48.2°N, 2.5°W`): the
/// latitude text, whether it is north, the longitude text and whether it is
/// east. Separators are characters that are not word characters.
pub open spec fn location_parts(s: Seq<char>) -> Option<(Seq<char>, bool, Seq<char>, bool)> {
    let a = run_end(s, 0);
    let lat = s.subrange(0, a);
    let b = side_at(s, a, 'N', 'S');
    let c = next_digit(s, b + 1);
    let e = run_end(s, c);
    let lon = s.subrange(c, e);
    let f = side_at(s, e, 'E', 'W');
    if decimal_ok(lat) && b < s.len() && (s[b] == 'N' || s[b] == 'S') && b + 1 < c && c < s.len()
        && (forall|k: int| b + 1 <= k < c ==> !word_char(#[trigger] s[k])) && decimal_ok(lon) && f
        == s.len() - 1 && (s[f] == 'E' || s[f] == 'W') {
        Some((lat, s[b] == 'N', lon, s[f] == 'E'))
    } else {
        None
    }
}

/// The parts of a location text: latitude and longitude texts and sides.
pub struct LocationText {
    pub lat: String,
    pub north: bool,
    pub lon: String,
    pub east: bool,
}

/// The end of the run of number characters starting at `i`.
fn number_end(s: &Vec<char>, i: usize) -> (e: usize)
    requires
        i <= s@.len(),
    ensures
        e == run_end(s@, i as int),
        i <= e <= s@.len(),
        forall|k: int| i <= k < e ==> num_char(#[trigger] s@[k]),
{
    let mut j = i;
    while j < s.len() && (('0' <= s[j] && s[j] <= '9') || s[j] == '.')
        invariant
            i <= j <= s@.len(),
            run_end(s@, i as int) == run_end(s@, j as int),
            forall|k: int| i <= k < j ==> num_char(#[trigger] s@[k]),
        decreases s@.len() - j,
    {
        j = j + 1;
    }
    j
}

/// Position of the first digit at or after `i`, or the length.
fn digit_from(s: &Vec<char>, i: usize) -> (d: usize)
    requires
        i <= s@.len(),
    ensures
        d == next_digit(s@, i as int),
        i <= d <= s@.len(),
{
    let mut j = i;
    while j < s.len() && !('0' <= s[j] && s[j] <= '9')
        invariant
            i <= j <= s@.len(),
            next_digit(s@, i as int) == next_digit(s@, j as int),
        decreases s@.len() - j,
    {
        j = j + 1;
    }
    j
}

/// Whether the characters `s[from .. to]` make a decimal number.
fn decimal_at(s: &Vec<char>, from: usize, to: usize) -> (r: bool)
    requires
        from <= to <= s@.len(),
        forall|k: int| from <= k < to ==> num_char(#[trigger] s@[k]),
    ensures
        r == decimal_ok(s@.subrange(from as int, to as int)),
{
    let ghost t = s@.subrange(from as int, to as int);
    if from == to {
        return false;
    }
    if !('0' <= s[to - 1] && s[to - 1] <= '9') {
        assert(t.last() == s@[to - 1]);
        return false;
    }
    let mut dots: usize = 0;
    let mut first_dot: usize = 0;
    let mut k = from;
    while k < to
        invariant
            from <= k <= to <= s@.len(),
            t == s@.subrange(from as int, to as int),
            dots <= 1,
            dots == 0 ==> forall|q: int| from <= q < k ==> s@[q] != '.',
            dots == 1 ==> from <= first_dot < k && s@[first_dot as int] == '.' && forall|q: int| from <= q < k && q != first_dot ==> s@[q] != '.',
        decreases to - k,
    {
        if s[k] == '.' {
            if dots == 1 {
                assert(t[first_dot - from] == '.' && t[k - from] == '.');
                return false;
            }
            dots = 1;
            first_dot = k;
        }
        k = k + 1;
    }
    assert(t.last() == s@[to - 1]);
    assert forall|i: int, j: int| 0 <= i < j < t.len() implies !(#[trigger] t[i] == '.' && #[trigger] t[j] == '.') by {
        assert(t[i] == s@[from + i] && t[j] == s@[from + j]);
    }
    assert forall|i: int| 0 <= i < t.len() implies num_char(#[trigger] t[i]) by {
        assert(t[i] == s@[from + i]);
    }
    true
}

/// Position of the side letter after a number ending at `a`.
fn side_position(s: &Vec<char>, a: usize, x: char, y: char) -> (b: usize)
    requires
        a <= s@.len(),
    ensures
        b == side_at(s@, a as int, x, y),
{
    if a < s.len() && s.len() - a > 1 && (s[a] == ' ' || s[a] == '\u{b0}') && (s[a + 1] == x || s[a + 1] == y) {
        a + 1
    } else {
        a
    }
}

/// The separator characters `s[from .. to]` are none of them word characters.
fn separators_at(s: &Vec<char>, from: usize, to: usize) -> (r: bool)
    requires
        from <= to <= s@.len(),
    ensures
        r == forall|k: int| from <= k < to ==> !word_char(#[trigger] s@[k]),
{
    let mut k = from;
    while k < to
        invariant
            from <= k <= to <= s@.len(),
            forall|q: int| from <= q < k ==> !word_char(#[trigger] s@[q]),
        decreases to - k,
    {
        if is_word_char(s[k]) {
            return false;
        }
        k = k + 1;
    }
    true
}

/// The parts of a location text, as `location_parts` says; `None` when the
/// text is not a location.
pub fn parse_location_text(text: &str) -> (r: Option<LocationText>)
    ensures
        match location_parts(text@) {
            Some((lat, north, lon, east)) => r matches Some(p) && p.lat@ == lat && p.north == north
                && p.lon@ == lon && p.east == east,
            None => r is None,
        },
{
    let s = chars_of(text);
    let ghost v = s@;
    let n = s.len();
    let a = number_end(&s, 0);
    let lat_ok = decimal_at(&s, 0, a);
    let b = side_position(&s, a, 'N', 'S');
    if !(lat_ok && b < n && (s[b] == 'N' || s[b] == 'S')) {
        return None;
    }
    let c = digit_from(&s, b + 1);
    if !(b + 1 < c && c < n) {
        return None;
    }
    let seps_ok = separators_at(&s, b + 1, c);
    let e = number_end(&s, c);
    let lon_ok = decimal_at(&s, c, e);
    let f = side_position(&s, e, 'E', 'W');
    if !(seps_ok && lon_ok && f < n && f == n - 1 && (s[f] == 'E' || s[f] == 'W')) {
        return None;
    }
    let mut lat: Vec<char> = Vec::new();
    let mut k: usize = 0;
    while k < a
        invariant
            k <= a <= s@.len(),
            lat@ == s@.subrange(0, k as int),
        decreases a - k,
    {
        lat.push(s[k]);
        k = k + 1;
        assert(lat@ =~= s@.subrange(0, k as int));
    }
    let mut lon: Vec<char> = Vec::new();
    let mut k: usize = c;
    while k < e
        invariant
            c <= k <= e <= s@.len(),
            lon@ == s@.subrange(c as int, k as int),
        decreases e - k,
    {
        lon.push(s[k]);
        k = k + 1;
        assert(lon@ =~= s@.subrange(c as int, k as int));
    }
    Some(LocationText { lat: string_of(&lat), north: s[b] == 'N', lon: string_of(&lon), east: s[f] == 'E' })
}

} // verus!
