//! Following the host's colour theme: reading its `[base_30]` palette and
//! mapping the viewer's named colours onto it.

use vstd::prelude::*;

use crate::text::{chars_of, find_char, first_index_of, is_ws, trim, trim_bounds, trim_end, trim_start};

verus! {

/// A terminal colour: the sixteen named ones, the terminal's default,
/// an RGB triple or a palette index.
#[derive(Debug, Clone, Copy, PartialEq, Eq)]
pub enum Color {
    Reset,
    Black,
    Red,
    Green,
    Yellow,
    Blue,
    Magenta,
    Cyan,
    Gray,
    DarkGray,
    LightRed,
    LightGreen,
    LightYellow,
    LightBlue,
    LightMagenta,
    LightCyan,
    White,
    Rgb(u8, u8, u8),
    Indexed(u8),
}

/// The host's palette, one colour per role the viewer maps onto.
#[derive(Debug, Clone, Copy, PartialEq, Eq)]
pub struct Palette {
    pub fg: Color,
    pub dim: Color,
    pub bg: Color,
    pub red: Color,
    pub green: Color,
    pub yellow: Color,
    pub blue: Color,
    pub cyan: Color,
    pub purple: Color,
}

/// The colour `c` is drawn in under palette `p`.
pub open spec fn remapped(p: Option<Palette>, c: Color) -> Color {
    match p {
        None => c,
        Some(p) => match c {
            Color::DarkGray => p.dim,
            Color::Gray => p.fg,
            Color::Red => p.red,
            Color::Green => p.green,
            Color::Yellow => p.yellow,
            Color::Blue => p.blue,
            Color::Cyan => p.cyan,
            Color::Magenta => p.purple,
            other => other,
        },
    }
}

/// Maps a named colour onto the host palette when there is one; without a
/// palette every colour is left as it is.
pub fn remap(palette: Option<Palette>, c: Color) -> (r: Color)
    ensures
        r == remapped(palette, c),
{
    let p = match palette {
        Some(p) => p,
        None => return c,
    };
    match c {
        Color::DarkGray => p.dim,
        Color::Gray => p.fg,
        Color::Red => p.red,
        Color::Green => p.green,
        Color::Yellow => p.yellow,
        Color::Blue => p.blue,
        Color::Cyan => p.cyan,
        Color::Magenta => p.purple,
        other => other,
    }
}

/// Bytes taken by `c` in UTF-8.
pub open spec fn utf8_len(c: char) -> nat {
    let u = c as u32;
    if u < 0x80 {
        1
    } else if u < 0x800 {
        2
    } else if u < 0x10000 {
        3
    } else {
        4
    }
}

/// Bytes taken by `s` in UTF-8 (`str::len`).
pub open spec fn byte_len(s: Seq<char>) -> nat
    decreases s.len(),
{
    if s.len() == 0 {
        0
    } else {
        utf8_len(s[0]) + byte_len(s.drop_first())
    }
}

/// How many leading characters of `s` take exactly `k` bytes; `None` when
/// byte `k` falls inside a character or past the end (a byte slice
/// `&s[..k]` would panic there).
pub open spec fn chars_in_bytes(s: Seq<char>, k: nat) -> Option<nat>
    decreases s.len(),
{
    if k == 0 {
        Some(0)
    } else if s.len() == 0 {
        None
    } else if utf8_len(s[0]) > k {
        None
    } else {
        match chars_in_bytes(s.drop_first(), (k - utf8_len(s[0])) as nat) {
            Some(n) => Some(n + 1),
            None => None,
        }
    }
}

/// Fewer bytes never span more characters.
proof fn lemma_chars_in_bytes_monotone(s: Seq<char>, j: nat, k: nat)
    requires
        j <= k,
        chars_in_bytes(s, j) is Some,
        chars_in_bytes(s, k) is Some,
    ensures
        chars_in_bytes(s, j)->0 <= chars_in_bytes(s, k)->0,
    decreases s.len(),
{
    if j > 0 {
        lemma_chars_in_bytes_monotone(
            s.drop_first(),
            (j - utf8_len(s[0])) as nat,
            (k - utf8_len(s[0])) as nat,
        );
    }
}

/// The value of a hexadecimal digit (`char::to_digit(16)`).
pub open spec fn hex_digit(c: char) -> Option<nat> {
    let u = c as u32;
    if 48 <= u <= 57 {
        Some((u - 48) as nat)
    } else if 97 <= u <= 102 {
        Some((u - 87) as nat)
    } else if 65 <= u <= 70 {
        Some((u - 55) as nat)
    } else {
        None
    }
}

/// `u8::from_str_radix(p, 16)` on a piece of at most two characters: an
/// optional `+` and then one or two hex digits.
pub open spec fn hex_piece(p: Seq<char>) -> Option<u8> {
    if p.len() == 1 {
        match hex_digit(p[0]) {
            Some(d) => Some(d as u8),
            None => None,
        }
    } else if p.len() == 2 {
        if p[0] == '+' {
            match hex_digit(p[1]) {
                Some(d) => Some(d as u8),
                None => None,
            }
        } else {
            match (hex_digit(p[0]), hex_digit(p[1])) {
                (Some(h), Some(l)) => Some((16 * h + l) as u8),
                _ => None,
            }
        }
    } else {
        None
    }
}

/// The text after the `#` of a trimmed `#rrggbb` value.
pub open spec fn hex_body(s: Seq<char>) -> Option<Seq<char>> {
    let t = trim(s);
    if t.len() > 0 && t[0] == '#' {
        Some(t.drop_first())
    } else {
        None
    }
}

/// The colour written `#rrggbb` (surrounding whitespace allowed): six
/// bytes after the `#`, read as three two-byte hex numbers.
pub open spec fn hex_color(s: Seq<char>) -> Option<Color> {
    match hex_body(s) {
        None => None,
        Some(b) => if byte_len(b) != 6 {
            None
        } else {
            match chars_in_bytes(b, 2) {
                None => None,
                Some(i1) => match hex_piece(b.take(i1 as int)) {
                    None => None,
                    Some(r) => match chars_in_bytes(b, 4) {
                        None => None,
                        Some(i2) => match (
                            hex_piece(b.subrange(i1 as int, i2 as int)),
                            hex_piece(b.skip(i2 as int)),
                        ) {
                            (Some(g), Some(bl)) => Some(Color::Rgb(r, g, bl)),
                            _ => None,
                        },
                    },
                },
            }
        },
    }
}

/// The inputs on which reading `s` as `#rrggbb` slices a six-byte value
/// inside a character (`&s[0..2]` or `&s[2..4]` off a char boundary).
pub open spec fn hex_panics(s: Seq<char>) -> bool {
    match hex_body(s) {
        None => false,
        Some(b) => byte_len(b) == 6 && match chars_in_bytes(b, 2) {
            None => true,
            Some(i1) => hex_piece(b.take(i1 as int)) is Some && chars_in_bytes(b, 4) is None,
        },
    }
}

/// Bytes taken by `c` in UTF-8 (`char::len_utf8`).
fn utf8_width(c: char) -> (n: usize)
    ensures
        n == utf8_len(c),
{
    let u: u32 = c as u32;
    if u < 0x80 {
        1
    } else if u < 0x800 {
        2
    } else if u < 0x10000 {
        3
    } else {
        4
    }
}

/// Whether `v[lo..hi]` takes exactly six bytes.
fn six_bytes(v: &Vec<char>, lo: usize, hi: usize) -> (r: bool)
    requires
        lo <= hi <= v.len(),
    ensures
        r == (byte_len(v@.subrange(lo as int, hi as int)) == 6),
{
    let mut i: usize = lo;
    let mut total: usize = 0;
    while i < hi && total <= 6
        invariant
            lo <= i <= hi <= v.len(),
            total <= 10,
            byte_len(v@.subrange(lo as int, hi as int)) == total + byte_len(
                v@.subrange(i as int, hi as int),
            ),
        decreases hi - i,
    {
        assert(v@.subrange(i as int, hi as int).drop_first() =~= v@.subrange(i + 1, hi as int));
        total = total + utf8_width(v[i]);
        i = i + 1;
    }
    if i == hi {
        assert(v@.subrange(i as int, hi as int).len() == 0);
    }
    i == hi && total == 6
}

/// How many characters of `v[lo..hi]` take exactly `k` bytes.
fn chars_for_bytes(v: &Vec<char>, lo: usize, hi: usize, k: usize) -> (r: Option<usize>)
    requires
        lo <= hi <= v.len(),
    ensures
        match r {
            Some(n) => n <= hi - lo && chars_in_bytes(v@.subrange(lo as int, hi as int), k as nat)
                == Some(n as nat),
            None => chars_in_bytes(v@.subrange(lo as int, hi as int), k as nat) is None,
        },
{
    let mut i: usize = lo;
    let mut rem: usize = k;
    while rem > 0
        invariant
            lo <= i <= hi <= v.len(),
            rem <= k,
            chars_in_bytes(v@.subrange(lo as int, hi as int), k as nat) == match chars_in_bytes(
                v@.subrange(i as int, hi as int),
                rem as nat,
            ) {
                Some(n) => Some((n + (i - lo)) as nat),
                None => None::<nat>,
            },
        decreases rem,
    {
        if i == hi {
            return None;
        }
        let u: usize = utf8_width(v[i]);
        if u > rem {
            return None;
        }
        assert(v@.subrange(i as int, hi as int).drop_first() =~= v@.subrange(i + 1, hi as int));
        rem = rem - u;
        i = i + 1;
    }
    Some(i - lo)
}

/// The value of hex digit `c`.
fn hex_digit_value(c: char) -> (r: Option<u8>)
    ensures
        match r {
            Some(d) => hex_digit(c) == Some(d as nat),
            None => hex_digit(c) is None,
        },
{
    let u: u32 = c as u32;
    if 48 <= u && u <= 57 {
        Some((u - 48) as u8)
    } else if 97 <= u && u <= 102 {
        Some((u - 87) as u8)
    } else if 65 <= u && u <= 70 {
        Some((u - 55) as u8)
    } else {
        None
    }
}

/// [`hex_piece`] of `v[lo..hi]`.
fn piece_value(v: &Vec<char>, lo: usize, hi: usize) -> (r: Option<u8>)
    requires
        lo <= hi <= v.len(),
    ensures
        r == hex_piece(v@.subrange(lo as int, hi as int)),
{
    if hi - lo == 1 {
        match hex_digit_value(v[lo]) {
            Some(d) => Some(d),
            None => None,
        }
    } else if hi - lo == 2 {
        if v[lo] == '+' {
            match hex_digit_value(v[lo + 1]) {
                Some(d) => Some(d),
                None => None,
            }
        } else {
            match (hex_digit_value(v[lo]), hex_digit_value(v[lo + 1])) {
                (Some(h), Some(l)) => Some(16 * h + l),
                _ => None,
            }
        }
    } else {
        None
    }
}

/// [`hex_color`] and [`hex_panics`] of `v[lo..hi]`.
fn hex_in(v: &Vec<char>, lo: usize, hi: usize) -> (r: (Option<Color>, bool))
    requires
        lo <= hi <= v.len(),
    ensures
        r.0 == hex_color(v@.subrange(lo as int, hi as int)),
        r.1 == hex_panics(v@.subrange(lo as int, hi as int)),
{
    let ghost text = v@.subrange(lo as int, hi as int);
    let (a, b) = trim_bounds(v, lo, hi);
    if a == b || v[a] != '#' {
        return (None, false);
    }
    let s: usize = a + 1;
    let ghost body = v@.subrange(s as int, b as int);
    assert(trim(text).drop_first() =~= body);
    if !six_bytes(v, s, b) {
        return (None, false);
    }
    match chars_for_bytes(v, s, b, 2) {
        None => (None, true),
        Some(i1) => {
            assert(body.take(i1 as int) =~= v@.subrange(s as int, (s + i1) as int));
            match piece_value(v, s, s + i1) {
                None => (None, false),
                Some(r) => match chars_for_bytes(v, s, b, 4) {
                    None => (None, true),
                    Some(i2) => {
                        proof {
                            lemma_chars_in_bytes_monotone(body, 2, 4);
                        }
                        assert(body.subrange(i1 as int, i2 as int) =~= v@.subrange(
                            (s + i1) as int,
                            (s + i2) as int,
                        ));
                        assert(body.skip(i2 as int) =~= v@.subrange((s + i2) as int, b as int));
                        let g = piece_value(v, s + i1, s + i2);
                        let bl = piece_value(v, s + i2, b);
                        match (g, bl) {
                            (Some(g), Some(bl)) => (Some(Color::Rgb(r, g, bl)), false),
                            _ => (None, false),
                        }
                    },
                },
            }
        },
    }
}

/// Reads a `#rrggbb` colour; `None` for anything else.
pub fn parse_hex(s: &str) -> (c: Option<Color>)
    requires
        !hex_panics(s@),
    ensures
        c == hex_color(s@),
{
    let v = chars_of(s);
    proof {
        assert(v@.subrange(0, v@.len() as int) =~= v@);
    }
    hex_in(&v, 0, v.len()).0
}

/// `s` split at each `'\n'` (an empty text is one empty line).
///
/// `str::lines` also drops a trailing `'\r'` and a final empty line; the
/// theme reader trims every line and skips blank ones, so the two splits
/// read the same.
pub open spec fn lines_of(s: Seq<char>) -> Seq<Seq<char>>
    decreases s.len(),
{
    if s.len() == 0 {
        seq![Seq::<char>::empty()]
    } else {
        let init = lines_of(s.drop_last());
        if s.last() == '\n' {
            init.push(Seq::<char>::empty())
        } else {
            init.update(init.len() - 1, init.last().push(s.last()))
        }
    }
}

/// There is always at least one line.
proof fn lemma_lines_nonempty(s: Seq<char>)
    ensures
        lines_of(s).len() >= 1,
    decreases s.len(),
{
    if s.len() > 0 {
        lemma_lines_nonempty(s.drop_last());
    }
}

/// Leading `c`s removed.
pub open spec fn strip_start(s: Seq<char>, c: char) -> Seq<char>
    decreases s.len(),
{
    if s.len() > 0 && s[0] == c {
        strip_start(s.drop_first(), c)
    } else {
        s
    }
}

/// Trailing `c`s removed.
pub open spec fn strip_end(s: Seq<char>, c: char) -> Seq<char>
    decreases s.len(),
{
    if s.len() > 0 && s.last() == c {
        strip_end(s.drop_last(), c)
    } else {
        s
    }
}

/// Leading and trailing double quotes removed (`str::trim_matches('"')`).
pub open spec fn unquote(s: Seq<char>) -> Seq<char> {
    strip_end(strip_start(s, '"'), '"')
}

/// What reading the theme has gathered so far: whether the current
/// section is `[base_30]`, the `(key, colour)` entries in file order, and
/// whether some value would have been sliced inside a character.
pub type ThemeScan = (bool, Seq<(Seq<char>, Color)>, bool);

/// One line of the theme file read into `st`: blank lines and `#`
/// comments are skipped, `[...]` opens a section, and in `[base_30]` a
/// `key = "#rrggbb"` line adds an entry when its value is a colour.
pub open spec fn scan_line(st: ThemeScan, raw: Seq<char>) -> ThemeScan {
    let line = trim(raw);
    if line.len() == 0 || line[0] == '#' {
        st
    } else if line[0] == '[' {
        (line == "[base_30]"@, st.1, st.2)
    } else if !st.0 {
        st
    } else {
        let e = first_index_of(line, '=');
        if e == line.len() {
            st
        } else {
            let key = trim(line.take(e as int));
            let val = unquote(trim(line.skip((e + 1) as int)));
            (
                st.0,
                match hex_color(val) {
                    Some(c) => st.1.push((key, c)),
                    None => st.1,
                },
                st.2 || hex_panics(val),
            )
        }
    }
}

/// The lines read in order, from the start of the file.
pub open spec fn scan(lines: Seq<Seq<char>>) -> ThemeScan
    decreases lines.len(),
{
    if lines.len() == 0 {
        (false, Seq::empty(), false)
    } else {
        scan_line(scan(lines.drop_last()), lines.last())
    }
}

/// The colour of the last entry for `key`, if any (later lines win).
pub open spec fn lookup(es: Seq<(Seq<char>, Color)>, key: Seq<char>) -> Option<Color>
    decreases es.len(),
{
    if es.len() == 0 {
        None
    } else if es.last().0 == key {
        Some(es.last().1)
    } else {
        lookup(es.drop_last(), key)
    }
}

/// The colour the theme text `src` gives `key`, or `d`.
pub open spec fn theme_color(src: Seq<char>, key: Seq<char>, d: Color) -> Color {
    match lookup(scan(lines_of(src)).1, key) {
        Some(c) => c,
        None => d,
    }
}

/// The texts on which reading the theme would slice a colour value inside
/// a character.
pub open spec fn theme_panics(src: Seq<char>) -> bool {
    scan(lines_of(src)).2
}

/// The palette a theme text gives; roles it does not set keep the
/// viewer's own colours.
pub open spec fn projected(src: Seq<char>) -> Palette {
    Palette {
        fg: theme_color(src, "white"@, Color::Gray),
        dim: theme_color(src, "light_grey"@, Color::DarkGray),
        bg: theme_color(src, "one_bg"@, Color::Reset),
        red: theme_color(src, "red"@, Color::Red),
        green: theme_color(src, "green"@, Color::Green),
        yellow: theme_color(src, "yellow"@, Color::Yellow),
        blue: theme_color(src, "blue"@, Color::Blue),
        cyan: theme_color(src, "cyan"@, Color::Cyan),
        purple: theme_color(src, "purple"@, Color::Magenta),
    }
}

/// Entries held as ranges of `text` stand for the entries `spec`.
pub open spec fn entries_match(
    text: Seq<char>,
    es: Seq<(usize, usize, Color)>,
    spec: Seq<(Seq<char>, Color)>,
) -> bool {
    &&& es.len() == spec.len()
    &&& forall|j: int|
        0 <= j < es.len() ==> {
            &&& (#[trigger] es[j]).0 <= es[j].1 <= text.len()
            &&& spec[j] == (text.subrange(es[j].0 as int, es[j].1 as int), es[j].2)
        }
}

/// Whether `v[lo..hi]` is the text `lit`.
fn range_is(v: &Vec<char>, lo: usize, hi: usize, lit: &str) -> (r: bool)
    requires
        lo <= hi <= v.len(),
    ensures
        r == (v@.subrange(lo as int, hi as int) == lit@),
{
    let w = chars_of(lit);
    if hi - lo != w.len() {
        return false;
    }
    let n: usize = w.len();
    for i in 0..n
        invariant
            n == w.len(),
            n == hi - lo,
            lo <= hi <= v.len(),
            w@ == lit@,
            forall|j: int| 0 <= j < i ==> v@[lo + j] == w@[j],
    {
        if v[lo + i] != w[i] {
            assert(v@.subrange(lo as int, hi as int)[i as int] != w@[i as int]);
            return false;
        }
    }
    assert(v@.subrange(lo as int, hi as int) =~= w@);
    true
}

/// The bounds of `v[lo..hi]` with leading and trailing `c`s removed.
fn strip_bounds(v: &Vec<char>, lo: usize, hi: usize, c: char) -> (r: (usize, usize))
    requires
        lo <= hi <= v.len(),
    ensures
        lo <= r.0 <= r.1 <= hi,
        v@.subrange(r.0 as int, r.1 as int) == strip_end(
            strip_start(v@.subrange(lo as int, hi as int), c),
            c,
        ),
{
    let mut a: usize = lo;
    while a < hi && v[a] == c
        invariant
            lo <= a <= hi <= v.len(),
            strip_start(v@.subrange(lo as int, hi as int), c) == strip_start(
                v@.subrange(a as int, hi as int),
                c,
            ),
        decreases hi - a,
    {
        assert(v@.subrange(a as int, hi as int).drop_first() =~= v@.subrange(a + 1, hi as int));
        a = a + 1;
    }
    let mut b: usize = hi;
    while b > a && v[b - 1] == c
        invariant
            lo <= a <= b <= hi <= v.len(),
            strip_start(v@.subrange(lo as int, hi as int), c) == v@.subrange(a as int, hi as int),
            strip_end(strip_start(v@.subrange(lo as int, hi as int), c), c) == strip_end(
                v@.subrange(a as int, b as int),
                c,
            ),
        decreases b - a,
    {
        assert(v@.subrange(a as int, b as int).drop_last() =~= v@.subrange(a as int, b - 1));
        b = b - 1;
    }
    (a, b)
}

/// [`scan_line`] on the line `v[lo..hi]`.
fn step_line(
    v: &Vec<char>,
    lo: usize,
    hi: usize,
    in_base30: bool,
    es: Vec<(usize, usize, Color)>,
    panics: bool,
    Ghost(spec): Ghost<Seq<(Seq<char>, Color)>>,
) -> (r: (bool, Vec<(usize, usize, Color)>, bool))
    requires
        lo <= hi <= v.len(),
        entries_match(v@, es@, spec),
    ensures
        ({
            let st = scan_line((in_base30, spec, panics), v@.subrange(lo as int, hi as int));
            &&& r.0 == st.0
            &&& r.2 == st.2
            &&& entries_match(v@, r.1@, st.1)
        }),
{
    let ghost raw = v@.subrange(lo as int, hi as int);
    let (a, b) = trim_bounds(v, lo, hi);
    let ghost line = v@.subrange(a as int, b as int);
    if a == b || v[a] == '#' {
        return (in_base30, es, panics);
    }
    if v[a] == '[' {
        let is_base30 = range_is(v, a, b, "[base_30]");
        return (is_base30, es, panics);
    }
    if !in_base30 {
        return (in_base30, es, panics);
    }
    let e: usize = find_char(v, a, b, '=');
    if e == b {
        return (in_base30, es, panics);
    }
    assert(line.take((e - a) as int) =~= v@.subrange(a as int, e as int));
    assert(line.skip((e - a) + 1) =~= v@.subrange(e + 1, b as int));
    let (ka, kb) = trim_bounds(v, a, e);
    let (va, vb) = trim_bounds(v, e + 1, b);
    let (qa, qb) = strip_bounds(v, va, vb, '"');
    let (c, p) = hex_in(v, qa, qb);
    let ghost es0 = es@;
    let mut es = es;
    match c {
        Some(c) => {
            es.push((ka, kb, c));
            proof {
                let ns = spec.push((v@.subrange(ka as int, kb as int), c));
                assert forall|j: int| 0 <= j < es@.len() implies {
                    &&& (#[trigger] es@[j]).0 <= es@[j].1 <= v@.len()
                    &&& ns[j] == (v@.subrange(es@[j].0 as int, es@[j].1 as int), es@[j].2)
                } by {
                    if j < spec.len() {
                        assert(es@[j] == es0[j]);
                    }
                }
            }
        },
        None => {},
    }
    (in_base30, es, panics || p)
}

/// Reads every line of `v`: the entries (as ranges of `v`) and the
/// panic flag of [`scan`].
fn scan_theme(v: &Vec<char>) -> (r: (Vec<(usize, usize, Color)>, bool))
    ensures
        entries_match(v@, r.0@, scan(lines_of(v@)).1),
        r.1 == scan(lines_of(v@)).2,
{
    let n: usize = v.len();
    let mut ls: usize = 0;
    let mut in_base30 = false;
    let mut panics = false;
    let mut es: Vec<(usize, usize, Color)> = Vec::new();
    let ghost mut done: Seq<Seq<char>> = Seq::empty();
    assert(v@.take(0) =~= Seq::<char>::empty());
    assert(v@.subrange(0, 0) =~= Seq::<char>::empty());
    for i in 0..n
        invariant
            n == v.len(),
            ls <= i,
            lines_of(v@.take(i as int)) == done.push(v@.subrange(ls as int, i as int)),
            scan(done).0 == in_base30,
            scan(done).2 == panics,
            entries_match(v@, es@, scan(done).1),
    {
        let ghost before = lines_of(v@.take(i as int));
        assert(v@.take(i + 1).drop_last() =~= v@.take(i as int));
        proof {
            lemma_lines_nonempty(v@.take(i as int));
        }
        if v[i] == '\n' {
            let r = step_line(v, ls, i, in_base30, es, panics, Ghost(scan(done).1));
            in_base30 = r.0;
            es = r.1;
            panics = r.2;
            proof {
                let line = v@.subrange(ls as int, i as int);
                assert(done.push(line).drop_last() =~= done);
                done = done.push(line);
                assert(v@.subrange((i + 1) as int, (i + 1) as int) =~= Seq::<char>::empty());
            }
            ls = i + 1;
        } else {
            assert(v@.subrange(ls as int, i as int).push(v@[i as int]) =~= v@.subrange(
                ls as int,
                i + 1,
            ));
        }
    }
    let r = step_line(v, ls, n, in_base30, es, panics, Ghost(scan(done).1));
    proof {
        let line = v@.subrange(ls as int, n as int);
        assert(done.push(line).drop_last() =~= done);
        assert(v@.take(n as int) =~= v@);
    }
    (r.1, r.2)
}

/// The colour of the last entry for `key`, or `d`.
fn pick(
    v: &Vec<char>,
    es: &Vec<(usize, usize, Color)>,
    key: &str,
    d: Color,
    Ghost(spec): Ghost<Seq<(Seq<char>, Color)>>,
) -> (c: Color)
    requires
        entries_match(v@, es@, spec),
    ensures
        c == match lookup(spec, key@) {
            Some(c) => c,
            None => d,
        },
{
    let mut j: usize = es.len();
    assert(spec.take(j as int) =~= spec);
    while j > 0
        invariant
            j <= es.len(),
            entries_match(v@, es@, spec),
            lookup(spec, key@) == lookup(spec.take(j as int), key@),
        decreases j,
    {
        let e = es[j - 1];
        assert(spec.take(j as int).drop_last() =~= spec.take(j - 1));
        if range_is(v, e.0, e.1, key) {
            return e.2;
        }
        j = j - 1;
    }
    d
}

/// Whether reading `src` as a theme would never slice a colour value
/// inside a character.
pub fn theme_is_readable(src: &str) -> (ok: bool)
    ensures
        ok == !theme_panics(src@),
{
    let v = chars_of(src);
    let (_, panics) = scan_theme(&v);
    !panics
}

/// The palette of the `[base_30]` table of the host's theme file.
pub fn project(src: &str) -> (p: Palette)
    requires
        !theme_panics(src@),
    ensures
        p == projected(src@),
{
    let v = chars_of(src);
    let (es, _) = scan_theme(&v);
    let ghost spec = scan(lines_of(v@)).1;
    Palette {
        fg: pick(&v, &es, "white", Color::Gray, Ghost(spec)),
        dim: pick(&v, &es, "light_grey", Color::DarkGray, Ghost(spec)),
        bg: pick(&v, &es, "one_bg", Color::Reset, Ghost(spec)),
        red: pick(&v, &es, "red", Color::Red, Ghost(spec)),
        green: pick(&v, &es, "green", Color::Green, Ghost(spec)),
        yellow: pick(&v, &es, "yellow", Color::Yellow, Ghost(spec)),
        blue: pick(&v, &es, "blue", Color::Blue, Ghost(spec)),
        cyan: pick(&v, &es, "cyan", Color::Cyan, Ghost(spec)),
        purple: pick(&v, &es, "purple", Color::Magenta, Ghost(spec)),
    }
}

/// The viewer's own colours, used for every role a theme leaves unset.
pub open spec fn default_palette() -> Palette {
    Palette {
        fg: Color::Gray,
        dim: Color::DarkGray,
        bg: Color::Reset,
        red: Color::Red,
        green: Color::Green,
        yellow: Color::Yellow,
        blue: Color::Blue,
        cyan: Color::Cyan,
        purple: Color::Magenta,
    }
}

/// Without a host palette, every colour is drawn as it is.
pub proof fn lemma_no_palette_keeps_colours(c: Color)
    ensures
        remapped(None, c) == c,
{
}

/// The default palette maps every colour to itself.
pub proof fn lemma_default_palette_keeps_colours(c: Color)
    ensures
        remapped(Some(default_palette()), c) == c,
{
}

/// Lines none of which opens `[base_30]` add no entry and never panic.
proof fn lemma_scan_without_base30(lines: Seq<Seq<char>>)
    requires
        forall|i: int| 0 <= i < lines.len() ==> trim(#[trigger] lines[i]) != "[base_30]"@,
    ensures
        !scan(lines).0,
        scan(lines).1.len() == 0,
        !scan(lines).2,
    decreases lines.len(),
{
    if lines.len() > 0 {
        let init = lines.drop_last();
        assert forall|i: int| 0 <= i < init.len() implies trim(#[trigger] init[i]) != "[base_30]"@ by {
            assert(init[i] == lines[i]);
        }
        lemma_scan_without_base30(init);
        assert(trim(lines[lines.len() - 1]) != "[base_30]"@);
    }
}

/// A theme text without a `[base_30]` table gives the viewer's own
/// colours, so mapping colours through it changes nothing.
pub proof fn lemma_theme_without_base30(src: Seq<char>)
    requires
        forall|i: int|
            0 <= i < lines_of(src).len() ==> trim(#[trigger] lines_of(src)[i]) != "[base_30]"@,
    ensures
        !theme_panics(src),
        projected(src) == default_palette(),
        forall|c: Color| remapped(Some(projected(src)), c) == c,
{
    lemma_scan_without_base30(lines_of(src));
}

/// The lower-case hex digit for `d < 16`.
pub open spec fn hex_char(d: nat) -> char {
    if d < 10 {
        (48 + d) as char
    } else {
        (87 + d) as char
    }
}

/// `c` written `#rrggbb` in lower-case hex.
pub open spec fn hex_text(r: u8, g: u8, b: u8) -> Seq<char> {
    seq![
        '#',
        hex_char((r / 16) as nat),
        hex_char((r % 16) as nat),
        hex_char((g / 16) as nat),
        hex_char((g % 16) as nat),
        hex_char((b / 16) as nat),
        hex_char((b % 16) as nat),
    ]
}

/// The digit written for `d` reads back as `d`.
proof fn lemma_hex_char(d: nat)
    requires
        d < 16,
    ensures
        hex_digit(hex_char(d)) == Some(d),
        utf8_len(hex_char(d)) == 1,
        !is_ws(hex_char(d)),
        hex_char(d) != '+',
{
}

/// Two digits written for `x` read back as `x`.
proof fn lemma_hex_pair(x: u8)
    ensures
        hex_piece(seq![hex_char((x / 16) as nat), hex_char((x % 16) as nat)]) == Some(x),
{
    lemma_hex_char((x / 16) as nat);
    lemma_hex_char((x % 16) as nat);
    let p = seq![hex_char((x / 16) as nat), hex_char((x % 16) as nat)];
    assert(p[0] != '+');
    assert(16 * (x / 16) + x % 16 == x);
}

/// A colour written `#rrggbb` reads back as the same colour.
pub proof fn lemma_hex_round_trip(r: u8, g: u8, b: u8)
    ensures
        !hex_panics(hex_text(r, g, b)),
        hex_color(hex_text(r, g, b)) == Some(Color::Rgb(r, g, b)),
{
    let t = hex_text(r, g, b);
    lemma_hex_char((r / 16) as nat);
    lemma_hex_char((r % 16) as nat);
    lemma_hex_char((g / 16) as nat);
    lemma_hex_char((g % 16) as nat);
    lemma_hex_char((b / 16) as nat);
    lemma_hex_char((b % 16) as nat);
    assert(trim_start(t) == t);
    assert(trim_end(t) == t);
    let body = t.drop_first();
    assert(body.drop_first().drop_first() =~= body.skip(2));
    assert(body.skip(2).drop_first().drop_first() =~= body.skip(4));
    assert(body.skip(4).drop_first().drop_first() =~= Seq::<char>::empty());
    assert(byte_len(body.skip(4)) == 2) by {
        reveal_with_fuel(byte_len, 3);
    }
    assert(byte_len(body.skip(2)) == 4) by {
        reveal_with_fuel(byte_len, 3);
    }
    assert(byte_len(body) == 6) by {
        reveal_with_fuel(byte_len, 3);
    }
    assert(chars_in_bytes(body, 2) == Some(2nat)) by {
        reveal_with_fuel(chars_in_bytes, 3);
    }
    assert(chars_in_bytes(body.skip(2), 2) == Some(2nat)) by {
        reveal_with_fuel(chars_in_bytes, 3);
    }
    assert(chars_in_bytes(body, 4) == Some(4nat)) by {
        reveal_with_fuel(chars_in_bytes, 3);
    }
    lemma_hex_pair(r);
    lemma_hex_pair(g);
    lemma_hex_pair(b);
    assert(body.take(2) =~= seq![hex_char((r / 16) as nat), hex_char((r % 16) as nat)]);
    assert(body.subrange(2, 4) =~= seq![hex_char((g / 16) as nat), hex_char((g % 16) as nat)]);
    assert(body.skip(4) =~= seq![hex_char((b / 16) as nat), hex_char((b % 16) as nat)]);
}

/// Every entry the theme reader gathers is an RGB colour.
proof fn lemma_scan_entries_rgb(lines: Seq<Seq<char>>)
    ensures
        forall|j: int| 0 <= j < scan(lines).1.len() ==> (#[trigger] scan(lines).1[j]).1 is Rgb,
    decreases lines.len(),
{
    if lines.len() > 0 {
        lemma_scan_entries_rgb(lines.drop_last());
        let st = scan(lines.drop_last());
        let line = trim(lines.last());
        if line.len() > 0 && line[0] != '#' && line[0] != '[' && st.0 {
            let e = first_index_of(line, '=');
            if e != line.len() {
                let val = unquote(trim(line.skip((e + 1) as int)));
                if let Some(c) = hex_color(val) {
                    let ns = st.1.push((trim(line.take(e as int)), c));
                    assert forall|j: int| 0 <= j < ns.len() implies (#[trigger] ns[j]).1 is Rgb by {
                        if j < st.1.len() {
                            assert(ns[j] == st.1[j]);
                        }
                    }
                }
            }
        }
    }
}

/// A lookup among RGB entries finds an RGB colour.
proof fn lemma_lookup_rgb(es: Seq<(Seq<char>, Color)>, key: Seq<char>)
    requires
        forall|j: int| 0 <= j < es.len() ==> (#[trigger] es[j]).1 is Rgb,
    ensures
        lookup(es, key) matches Some(c) ==> c is Rgb,
    decreases es.len(),
{
    if es.len() > 0 {
        let init = es.drop_last();
        assert forall|j: int| 0 <= j < init.len() implies (#[trigger] init[j]).1 is Rgb by {
            assert(init[j] == es[j]);
        }
        lemma_lookup_rgb(init, key);
        assert(es[es.len() - 1].1 is Rgb);
    }
}

/// Each role a theme text gives is an RGB colour or the viewer's own colour
/// for that role.
proof fn lemma_theme_color_shape(src: Seq<char>, key: Seq<char>, d: Color)
    ensures
        theme_color(src, key, d) is Rgb || theme_color(src, key, d) == d,
{
    lemma_scan_entries_rgb(lines_of(src));
    lemma_lookup_rgb(scan(lines_of(src)).1, key);
}

/// The upper-case hex digit for `d < 16`.
pub open spec fn hex_char_upper(d: nat) -> char {
    if d < 10 {
        (48 + d) as char
    } else {
        (55 + d) as char
    }
}

/// `c` written `#RRGGBB` in upper-case hex.
pub open spec fn hex_text_upper(r: u8, g: u8, b: u8) -> Seq<char> {
    seq![
        '#',
        hex_char_upper((r / 16) as nat),
        hex_char_upper((r % 16) as nat),
        hex_char_upper((g / 16) as nat),
        hex_char_upper((g % 16) as nat),
        hex_char_upper((b / 16) as nat),
        hex_char_upper((b % 16) as nat),
    ]
}

/// Hex digits read as `char::to_digit(16)` reads them: `0`-`9` are 0 to 9,
/// and `a`-`f` and `A`-`F` alike are 10 to 15; nothing else is a digit.
pub proof fn lemma_hex_digit_values(c: char)
    ensures
        '0' <= c <= '9' ==> hex_digit(c) == Some((c as int - '0' as int) as nat),
        'a' <= c <= 'f' ==> hex_digit(c) == Some((c as int - 'a' as int + 10) as nat),
        'A' <= c <= 'F' ==> hex_digit(c) == Some((c as int - 'A' as int + 10) as nat),
        !('0' <= c <= '9' || 'a' <= c <= 'f' || 'A' <= c <= 'F') ==> hex_digit(c) is None,
{
    assert('0' as int == 48);
    assert('9' as int == 57);
    assert('a' as int == 97);
    assert('f' as int == 102);
    assert('A' as int == 65);
    assert('F' as int == 70);
}

/// The upper-case digit written for `d` reads back as `d`.
proof fn lemma_hex_char_upper(d: nat)
    requires
        d < 16,
    ensures
        hex_digit(hex_char_upper(d)) == Some(d),
        utf8_len(hex_char_upper(d)) == 1,
        !is_ws(hex_char_upper(d)),
        hex_char_upper(d) != '+',
{
}

/// Two upper-case digits written for `x` read back as `x`.
proof fn lemma_hex_pair_upper(x: u8)
    ensures
        hex_piece(seq![hex_char_upper((x / 16) as nat), hex_char_upper((x % 16) as nat)]) == Some(x),
{
    lemma_hex_char_upper((x / 16) as nat);
    lemma_hex_char_upper((x % 16) as nat);
    let p = seq![hex_char_upper((x / 16) as nat), hex_char_upper((x % 16) as nat)];
    assert(p[0] != '+');
    assert(16 * (x / 16) + x % 16 == x);
}

/// A colour written `#RRGGBB` in upper-case hex reads back as the same colour.
pub proof fn lemma_hex_round_trip_upper(r: u8, g: u8, b: u8)
    ensures
        !hex_panics(hex_text_upper(r, g, b)),
        hex_color(hex_text_upper(r, g, b)) == Some(Color::Rgb(r, g, b)),
{
    let t = hex_text_upper(r, g, b);
    lemma_hex_char_upper((r / 16) as nat);
    lemma_hex_char_upper((r % 16) as nat);
    lemma_hex_char_upper((g / 16) as nat);
    lemma_hex_char_upper((g % 16) as nat);
    lemma_hex_char_upper((b / 16) as nat);
    lemma_hex_char_upper((b % 16) as nat);
    assert(trim_start(t) == t);
    assert(trim_end(t) == t);
    let body = t.drop_first();
    assert(body.drop_first().drop_first() =~= body.skip(2));
    assert(body.skip(2).drop_first().drop_first() =~= body.skip(4));
    assert(body.skip(4).drop_first().drop_first() =~= Seq::<char>::empty());
    assert(byte_len(body.skip(4)) == 2) by {
        reveal_with_fuel(byte_len, 3);
    }
    assert(byte_len(body.skip(2)) == 4) by {
        reveal_with_fuel(byte_len, 3);
    }
    assert(byte_len(body) == 6) by {
        reveal_with_fuel(byte_len, 3);
    }
    assert(chars_in_bytes(body, 2) == Some(2nat)) by {
        reveal_with_fuel(chars_in_bytes, 3);
    }
    assert(chars_in_bytes(body.skip(2), 2) == Some(2nat)) by {
        reveal_with_fuel(chars_in_bytes, 3);
    }
    assert(chars_in_bytes(body, 4) == Some(4nat)) by {
        reveal_with_fuel(chars_in_bytes, 3);
    }
    lemma_hex_pair_upper(r);
    lemma_hex_pair_upper(g);
    lemma_hex_pair_upper(b);
    assert(body.take(2) =~= seq![hex_char_upper((r / 16) as nat), hex_char_upper((r % 16) as nat)]);
    assert(body.subrange(2, 4) =~= seq![hex_char_upper((g / 16) as nat), hex_char_upper((g % 16) as nat)]);
    assert(body.skip(4) =~= seq![hex_char_upper((b / 16) as nat), hex_char_upper((b % 16) as nat)]);
}

/// Each role that `remap` fills is an RGB colour or the named colour that
/// maps to that role.
pub open spec fn palette_settles(p: Palette) -> bool {
    &&& (p.fg is Rgb || p.fg == Color::Gray)
    &&& (p.dim is Rgb || p.dim == Color::DarkGray)
    &&& (p.red is Rgb || p.red == Color::Red)
    &&& (p.green is Rgb || p.green == Color::Green)
    &&& (p.yellow is Rgb || p.yellow == Color::Yellow)
    &&& (p.blue is Rgb || p.blue == Color::Blue)
    &&& (p.cyan is Rgb || p.cyan == Color::Cyan)
    &&& (p.purple is Rgb || p.purple == Color::Magenta)
}

/// Through a settled palette, mapping a colour a second time changes nothing.
pub proof fn lemma_remap_idempotent(p: Palette, c: Color)
    requires
        palette_settles(p),
    ensures
        remapped(Some(p), remapped(Some(p), c)) == remapped(Some(p), c),
{
}

/// Every palette read from a theme text is settled.
pub proof fn lemma_projected_settles(src: Seq<char>)
    ensures
        palette_settles(projected(src)),
{
    lemma_theme_color_shape(src, "white"@, Color::Gray);
    lemma_theme_color_shape(src, "light_grey"@, Color::DarkGray);
    lemma_theme_color_shape(src, "red"@, Color::Red);
    lemma_theme_color_shape(src, "green"@, Color::Green);
    lemma_theme_color_shape(src, "yellow"@, Color::Yellow);
    lemma_theme_color_shape(src, "blue"@, Color::Blue);
    lemma_theme_color_shape(src, "cyan"@, Color::Cyan);
    lemma_theme_color_shape(src, "purple"@, Color::Magenta);
}

/// `std::time::SystemTime`, declared so that a file's modification time can
/// be kept and compared; nothing inside a value is visible here.
#[verifier::external_type_specification]
#[verifier::external_body]
pub struct ExSystemTime(std::time::SystemTime);

/// `SystemTime == SystemTime`: calls the derived `PartialEq`, and claims
/// that it is true exactly for equal times.
#[verifier::external_body]
fn same_time(a: &std::time::SystemTime, b: &std::time::SystemTime) -> (r: bool)
    ensures
        r == (*a == *b),
{
    a == b
}

/// What the viewer knows of the host theme: the palette read from the
/// theme file (`None` while there is no file), and the file's modification
/// time when it was read.
pub struct ThemeState {
    pub palette: Option<Palette>,
    pub mtime: Option<std::time::SystemTime>,
}

/// The palette of an optional theme text.
pub open spec fn palette_of(text: Option<Seq<char>>) -> Option<Palette> {
    match text {
        Some(t) => Some(projected(t)),
        None => None,
    }
}

impl ThemeState {
    /// The palette, if any, is one read from a theme text.
    pub open spec fn wf(self) -> bool {
        self.palette matches Some(p) ==> palette_settles(p)
    }

    /// Nothing read yet.
    pub fn new() -> (st: ThemeState)
        ensures
            st.wf(),
            st.palette is None,
            st.mtime is None,
    {
        ThemeState { palette: None, mtime: None }
    }

    /// Whether the theme file still has the modification time it had when
    /// it was read, so it need not be read again.
    pub fn is_current(&self, mtime: Option<std::time::SystemTime>) -> (same: bool)
        ensures
            same == (self.mtime == mtime),
    {
        match (&self.mtime, &mtime) {
            (Some(a), Some(b)) => same_time(a, b),
            (None, None) => true,
            _ => false,
        }
    }

    /// Takes the palette of the theme file's text (or none, when the file
    /// could not be read) and the file's modification time.
    pub fn reload(&mut self, text: Option<&str>, mtime: Option<std::time::SystemTime>)
        requires
            text matches Some(t) ==> !theme_panics(t@),
        ensures
            final(self).wf(),
            final(self).palette == palette_of(
                match text {
                    Some(t) => Some(t@),
                    None => None,
                },
            ),
            final(self).mtime == mtime,
    {
        self.palette = match text {
            Some(t) => {
                proof {
                    lemma_projected_settles(t@);
                }
                Some(project(t))
            },
            None => None,
        };
        self.mtime = mtime;
    }

    /// The colour `c` is drawn in under this theme.
    pub fn remap(&self, c: Color) -> (r: Color)
        ensures
            r == remapped(self.palette, c),
    {
        remap(self.palette, c)
    }
}

/// Under a well-formed theme state, mapping a colour a second time changes
/// nothing.
pub proof fn lemma_theme_state_remap_idempotent(st: ThemeState, c: Color)
    requires
        st.wf(),
    ensures
        remapped(st.palette, remapped(st.palette, c)) == remapped(st.palette, c),
{
}

/// Mapping a colour through a palette read from a theme a second time
/// changes nothing.
pub proof fn lemma_theme_remap_idempotent(src: Seq<char>, c: Color)
    ensures
        remapped(Some(projected(src)), remapped(Some(projected(src)), c)) == remapped(
            Some(projected(src)),
            c,
        ),
{
    lemma_projected_settles(src);
}

/// Each palette role takes the colour of the last valid entry for its own
/// key in the theme's `[base_30]` table (`white`, `light_grey`, `one_bg`,
/// `red`, `green`, `yellow`, `blue`, `cyan`, `purple`), or the viewer's own
/// colour for that role when the table has no such entry.
pub proof fn lemma_projected_roles(src: Seq<char>)
    ensures
        ({
            let es = scan(lines_of(src)).1;
            let p = projected(src);
            &&& (lookup(es, "white"@) matches Some(c) ==> p.fg == c)
            &&& (lookup(es, "white"@) is None ==> p.fg == Color::Gray)
            &&& (lookup(es, "light_grey"@) matches Some(c) ==> p.dim == c)
            &&& (lookup(es, "light_grey"@) is None ==> p.dim == Color::DarkGray)
            &&& (lookup(es, "one_bg"@) matches Some(c) ==> p.bg == c)
            &&& (lookup(es, "one_bg"@) is None ==> p.bg == Color::Reset)
            &&& (lookup(es, "red"@) matches Some(c) ==> p.red == c)
            &&& (lookup(es, "red"@) is None ==> p.red == Color::Red)
            &&& (lookup(es, "green"@) matches Some(c) ==> p.green == c)
            &&& (lookup(es, "green"@) is None ==> p.green == Color::Green)
            &&& (lookup(es, "yellow"@) matches Some(c) ==> p.yellow == c)
            &&& (lookup(es, "yellow"@) is None ==> p.yellow == Color::Yellow)
            &&& (lookup(es, "blue"@) matches Some(c) ==> p.blue == c)
            &&& (lookup(es, "blue"@) is None ==> p.blue == Color::Blue)
            &&& (lookup(es, "cyan"@) matches Some(c) ==> p.cyan == c)
            &&& (lookup(es, "cyan"@) is None ==> p.cyan == Color::Cyan)
            &&& (lookup(es, "purple"@) matches Some(c) ==> p.purple == c)
            &&& (lookup(es, "purple"@) is None ==> p.purple == Color::Magenta)
        }),
{
}

/// The line `key = "#rrggbb"`.
pub open spec fn entry_line(key: Seq<char>, r: u8, g: u8, b: u8) -> Seq<char> {
    key + seq![' ', '=', ' ', '"'] + hex_text(r, g, b) + seq!['"']
}

/// A key as a theme line can hold it: no surrounding whitespace, no `=`,
/// and not starting like a comment or a section header.
pub open spec fn plain_key(key: Seq<char>) -> bool {
    &&& key.len() > 0
    &&& !is_ws(key[0])
    &&& !is_ws(key.last())
    &&& key[0] != '#'
    &&& key[0] != '['
    &&& !key.contains('=')
    &&& !key.contains('\n')
}

/// The first `c` of `a + b`, when `a` holds none, is the first of `b`.
proof fn lemma_first_index_of_append(a: Seq<char>, b: Seq<char>, c: char)
    requires
        !a.contains(c),
    ensures
        first_index_of(a + b, c) == a.len() + first_index_of(b, c),
    decreases a.len(),
{
    if a.len() > 0 {
        assert(a[0] != c);
        assert((a + b).drop_first() =~= a.drop_first() + b);
        assert(!a.drop_first().contains(c)) by {
            if a.drop_first().contains(c) {
                let k = choose|k: int| 0 <= k < a.drop_first().len() && a.drop_first()[k] == c;
                assert(a[k + 1] == c);
            }
        }
        lemma_first_index_of_append(a.drop_first(), b, c);
    } else {
        assert(a + b =~= b);
    }
}

/// Inside `[base_30]`, the line `key = "#rrggbb"` adds the entry
/// `(key, Rgb(r, g, b))` after those read so far, and changes nothing else.
pub proof fn lemma_entry_line(st: ThemeScan, key: Seq<char>, r: u8, g: u8, b: u8)
    requires
        st.0,
        plain_key(key),
    ensures
        scan_line(st, entry_line(key, r, g, b)) == (true, st.1.push((key, Color::Rgb(r, g, b))), st.2),
{
    let h = hex_text(r, g, b);
    let line = entry_line(key, r, g, b);
    lemma_hex_round_trip(r, g, b);
    lemma_hex_char((b % 16) as nat);
    assert(line[0] == key[0]);
    assert(line.last() == '"');
    assert(trim_start(line) == line);
    assert(trim_end(line) == line);
    let rest = seq![' ', '=', ' ', '"'] + h + seq!['"'];
    assert(line =~= key + rest);
    assert(first_index_of(rest, '=') == 1) by {
        assert(rest[0] == ' ');
        assert(rest.drop_first()[0] == '=');
        assert(first_index_of(rest.drop_first(), '=') == 0);
    }
    lemma_first_index_of_append(key, rest, '=');
    let e = key.len() + 1;
    assert(first_index_of(line, '=') == e);
    assert(line.take(e as int) =~= key.push(' '));
    assert(trim_end(key.push(' ')) == trim_end(key)) by {
        assert(key.push(' ').drop_last() =~= key);
    }
    assert(trim_start(key.push(' ')) == key.push(' '));
    assert(trim(line.take(e as int)) == key);
    let v = line.skip((e + 1) as int);
    assert(v =~= seq![' ', '"'] + h + seq!['"']);
    let q = seq!['"'] + h + seq!['"'];
    assert(v.drop_first() =~= q);
    assert(trim_start(q) == q);
    assert(trim_start(v) == q);
    assert(trim_end(q) == q);
    assert(q.drop_first() =~= h + seq!['"']);
    assert(strip_start(h + seq!['"'], '"') == h + seq!['"']);
    assert(strip_start(q, '"') == h + seq!['"']);
    assert((h + seq!['"']).drop_last() =~= h);
    assert(strip_end(h, '"') == h);
    assert(unquote(trim(v)) == h);
}

/// A text without a line break is one line.
proof fn lemma_lines_single(q: Seq<char>)
    requires
        !q.contains('\n'),
    ensures
        lines_of(q) == seq![q],
    decreases q.len(),
{
    if q.len() > 0 {
        assert(q.last() == q[q.len() - 1]);
        assert(!q.drop_last().contains('\n')) by {
            if q.drop_last().contains('\n') {
                let k = choose|k: int| 0 <= k < q.drop_last().len() && q.drop_last()[k] == '\n';
                assert(q[k] == '\n');
            }
        }
        lemma_lines_single(q.drop_last());
        assert(q.drop_last().push(q.last()) =~= q);
        assert(seq![q.drop_last()].update(0, q) =~= seq![q]);
    } else {
        assert(q =~= Seq::<char>::empty());
    }
}

/// Text without a line break added after a line break is a last line of
/// its own.
proof fn lemma_lines_append(pre: Seq<char>, q: Seq<char>)
    requires
        pre.len() > 0,
        pre.last() == '\n',
        !q.contains('\n'),
    ensures
        lines_of(pre).len() >= 1,
        lines_of(pre).last() == Seq::<char>::empty(),
        lines_of(pre + q) == lines_of(pre).drop_last().push(q),
    decreases q.len(),
{
    lemma_lines_nonempty(pre.drop_last());
    if q.len() == 0 {
        assert(q =~= Seq::<char>::empty());
        assert(pre + q =~= pre);
        assert(lines_of(pre).drop_last().push(Seq::<char>::empty()) =~= lines_of(pre));
    } else {
        assert(q.last() == q[q.len() - 1]);
        assert(!q.drop_last().contains('\n')) by {
            if q.drop_last().contains('\n') {
                let k = choose|k: int| 0 <= k < q.drop_last().len() && q.drop_last()[k] == '\n';
                assert(q[k] == '\n');
            }
        }
        lemma_lines_append(pre, q.drop_last());
        assert((pre + q).drop_last() =~= pre + q.drop_last());
        assert((pre + q).last() == q.last());
        assert(q.last() != '\n');
        let l = lines_of(pre).drop_last().push(q.drop_last());
        assert(lines_of(pre + q) == l.update(l.len() - 1, l.last().push(q.last())));
        assert(l.update(l.len() - 1, l.last().push(q.last())) =~= lines_of(pre).drop_last().push(q))
            by {
            assert(q.drop_last().push(q.last()) =~= q);
        }
    }
}

/// A line added after a line break is read after all the lines before it.
proof fn lemma_scan_append(pre: Seq<char>, q: Seq<char>)
    requires
        pre.len() > 0,
        pre.last() == '\n',
        !q.contains('\n'),
    ensures
        scan(lines_of(pre + q)) == scan_line(scan(lines_of(pre)), q),
{
    lemma_lines_append(pre, q);
    let l = lines_of(pre);
    assert(l.drop_last().push(q).drop_last() =~= l.drop_last());
    assert(trim(Seq::<char>::empty()) =~= Seq::<char>::empty());
}

/// The line `key = "#rrggbb"` holds no line break.
proof fn lemma_entry_line_single(key: Seq<char>, r: u8, g: u8, b: u8)
    requires
        plain_key(key),
    ensures
        !entry_line(key, r, g, b).contains('\n'),
{
    let line = entry_line(key, r, g, b);
    lemma_hex_char((r / 16) as nat);
    lemma_hex_char((r % 16) as nat);
    lemma_hex_char((g / 16) as nat);
    lemma_hex_char((g % 16) as nat);
    lemma_hex_char((b / 16) as nat);
    lemma_hex_char((b % 16) as nat);
    if line.contains('\n') {
        let k = choose|k: int| 0 <= k < line.len() && line[k] == '\n';
        if k < key.len() {
            assert(key[k] == '\n');
        }
    }
}

/// The text `[base_30]` and a line break opens the table of colours.
pub proof fn lemma_base30_header()
    ensures
        scan(lines_of("[base_30]\n"@)).0,
        scan(lines_of("[base_30]\n"@)).1.len() == 0,
        !scan(lines_of("[base_30]\n"@)).2,
{
    reveal_strlit("[base_30]\n");
    reveal_strlit("[base_30]");
    let s = "[base_30]\n"@;
    let h = "[base_30]"@;
    assert(s.drop_last() =~= h);
    assert(!h.contains('\n')) by {
        if h.contains('\n') {
            let k = choose|k: int| 0 <= k < h.len() && h[k] == '\n';
        }
    }
    lemma_lines_single(h);
    assert(trim_start(h) == h);
    assert(trim_end(h) == h);
    assert(seq![h].drop_last() =~= Seq::<Seq<char>>::empty());
    assert(lines_of(s) =~= seq![h, Seq::<char>::empty()]);
    assert(lines_of(s).drop_last() =~= seq![h]);
    assert(trim(Seq::<char>::empty()) =~= Seq::<char>::empty());
    assert(h == "[base_30]"@);
    let st0 = scan(Seq::<Seq<char>>::empty());
    assert(seq![h].drop_last() =~= Seq::<Seq<char>>::empty());
    assert(scan(seq![h]) == scan_line(st0, h));
    assert(scan_line(st0, h) == (true, st0.1, st0.2));
    assert(scan(lines_of(s)) == scan_line(scan(seq![h]), Seq::<char>::empty()));
}

/// In a theme text that has opened `[base_30]`, a last line
/// `key = "#rrggbb"` gives `key` the colour `Rgb(r, g, b)`, whatever came
/// before it, and makes reading the text no more likely to fail.
pub proof fn lemma_last_line_sets_key(pre: Seq<char>, key: Seq<char>, r: u8, g: u8, b: u8, d: Color)
    requires
        pre.len() > 0,
        pre.last() == '\n',
        scan(lines_of(pre)).0,
        plain_key(key),
    ensures
        theme_color(pre + entry_line(key, r, g, b), key, d) == Color::Rgb(r, g, b),
        theme_panics(pre + entry_line(key, r, g, b)) == theme_panics(pre),
{
    lemma_entry_line_single(key, r, g, b);
    lemma_scan_append(pre, entry_line(key, r, g, b));
    lemma_entry_line(scan(lines_of(pre)), key, r, g, b);
}

/// A key of lower-case letters and underscores, such as each role key, is
/// a plain key.
proof fn lemma_role_key_plain(k: Seq<char>)
    requires
        k.len() > 0,
        forall|i: int| 0 <= i < k.len() ==> ('a' <= #[trigger] k[i] <= 'z' || k[i] == '_'),
    ensures
        plain_key(k),
{
    assert(k.last() == k[k.len() - 1]);
    if k.contains('=') {
        let i = choose|i: int| 0 <= i < k.len() && k[i] == '=';
    }
    if k.contains('\n') {
        let i = choose|i: int| 0 <= i < k.len() && k[i] == '\n';
    }
}

/// In a theme text that has opened `[base_30]`, a last line giving a role
/// key a `#rrggbb` colour sets that role of the palette to that colour:
/// `white` the text, `light_grey` the dimmed text, `one_bg` the background,
/// and `red`, `green`, `yellow`, `blue`, `cyan` and `purple` their own
/// roles.
pub proof fn lemma_theme_line_sets_role(pre: Seq<char>, r: u8, g: u8, b: u8)
    requires
        pre.len() > 0,
        pre.last() == '\n',
        scan(lines_of(pre)).0,
    ensures
        projected(pre + entry_line("white"@, r, g, b)).fg == Color::Rgb(r, g, b),
        projected(pre + entry_line("light_grey"@, r, g, b)).dim == Color::Rgb(r, g, b),
        projected(pre + entry_line("one_bg"@, r, g, b)).bg == Color::Rgb(r, g, b),
        projected(pre + entry_line("red"@, r, g, b)).red == Color::Rgb(r, g, b),
        projected(pre + entry_line("green"@, r, g, b)).green == Color::Rgb(r, g, b),
        projected(pre + entry_line("yellow"@, r, g, b)).yellow == Color::Rgb(r, g, b),
        projected(pre + entry_line("blue"@, r, g, b)).blue == Color::Rgb(r, g, b),
        projected(pre + entry_line("cyan"@, r, g, b)).cyan == Color::Rgb(r, g, b),
        projected(pre + entry_line("purple"@, r, g, b)).purple == Color::Rgb(r, g, b),
{
    reveal_strlit("white");
    reveal_strlit("light_grey");
    reveal_strlit("one_bg");
    reveal_strlit("red");
    reveal_strlit("green");
    reveal_strlit("yellow");
    reveal_strlit("blue");
    reveal_strlit("cyan");
    reveal_strlit("purple");
    lemma_role_key_plain("white"@);
    lemma_role_key_plain("light_grey"@);
    lemma_role_key_plain("one_bg"@);
    lemma_role_key_plain("red"@);
    lemma_role_key_plain("green"@);
    lemma_role_key_plain("yellow"@);
    lemma_role_key_plain("blue"@);
    lemma_role_key_plain("cyan"@);
    lemma_role_key_plain("purple"@);
    lemma_last_line_sets_key(pre, "white"@, r, g, b, Color::Red);
    lemma_last_line_sets_key(pre, "light_grey"@, r, g, b, Color::Red);
    lemma_last_line_sets_key(pre, "one_bg"@, r, g, b, Color::Red);
    lemma_last_line_sets_key(pre, "red"@, r, g, b, Color::Red);
    lemma_last_line_sets_key(pre, "green"@, r, g, b, Color::Red);
    lemma_last_line_sets_key(pre, "yellow"@, r, g, b, Color::Red);
    lemma_last_line_sets_key(pre, "blue"@, r, g, b, Color::Red);
    lemma_last_line_sets_key(pre, "cyan"@, r, g, b, Color::Red);
    lemma_last_line_sets_key(pre, "purple"@, r, g, b, Color::Red);
}

/// A theme text of the header `[base_30]` and one line giving a role key a
/// `#rrggbb` colour sets that role of the palette to that colour.
pub proof fn lemma_one_line_theme_sets_role(r: u8, g: u8, b: u8)
    ensures
        projected("[base_30]\n"@ + entry_line("white"@, r, g, b)).fg == Color::Rgb(r, g, b),
        projected("[base_30]\n"@ + entry_line("light_grey"@, r, g, b)).dim == Color::Rgb(r, g, b),
        projected("[base_30]\n"@ + entry_line("one_bg"@, r, g, b)).bg == Color::Rgb(r, g, b),
        projected("[base_30]\n"@ + entry_line("red"@, r, g, b)).red == Color::Rgb(r, g, b),
        projected("[base_30]\n"@ + entry_line("green"@, r, g, b)).green == Color::Rgb(r, g, b),
        projected("[base_30]\n"@ + entry_line("yellow"@, r, g, b)).yellow == Color::Rgb(r, g, b),
        projected("[base_30]\n"@ + entry_line("blue"@, r, g, b)).blue == Color::Rgb(r, g, b),
        projected("[base_30]\n"@ + entry_line("cyan"@, r, g, b)).cyan == Color::Rgb(r, g, b),
        projected("[base_30]\n"@ + entry_line("purple"@, r, g, b)).purple == Color::Rgb(r, g, b),
{
    reveal_strlit("[base_30]\n");
    lemma_base30_header();
    lemma_theme_line_sets_role("[base_30]\n"@, r, g, b);
}

} // verus!
