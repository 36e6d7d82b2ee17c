use vstd::prelude::*;
use vstd::utf8::is_char_boundary;
use vstd::string::StringSliceAdditionalSpecFns;

verus! {

/// An opaque colour with 8-bit channels.
#[derive(Debug, Clone, Copy, PartialEq, Eq, Structural)]
pub struct Rgb {
    pub r: u8,
    pub g: u8,
    pub b: u8,
}

impl Rgb {
    /// Opaque white, the colour of text without a colour of its own.
    pub fn white() -> (c: Rgb)
        ensures
            c == (Rgb { r: 255, g: 255, b: 255 }),
    {
        Rgb { r: 255, g: 255, b: 255 }
    }
}

/// The byte `#`.
pub open spec fn is_hash(c: u8) -> bool {
    c == 35
}

/// The index of the first byte at or after `i` that is not `#`.
pub open spec fn skip_hashes(b: Seq<u8>, i: int) -> int
    decreases b.len() - i,
{
    if 0 <= i < b.len() && is_hash(b[i]) {
        skip_hashes(b, i + 1)
    } else {
        i
    }
}

/// The value of a hexadecimal digit (either case), if the byte is one.
pub open spec fn hex_digit(c: u8) -> Option<nat> {
    if 48 <= c <= 57 {
        Some((c - 48) as nat)
    } else if 97 <= c <= 102 {
        Some((c - 87) as nat)
    } else if 65 <= c <= 70 {
        Some((c - 55) as nat)
    } else {
        None
    }
}

/// The value of a run of hexadecimal digits, read most significant first.
pub open spec fn hex_digits_value(d: Seq<u8>) -> Option<nat>
    decreases d.len(),
{
    if d.len() == 0 {
        Some(0)
    } else {
        match (hex_digits_value(d.drop_last()), hex_digit(d.last())) {
            (Some(v), Some(x)) => Some(v * 16 + x),
            _ => None,
        }
    }
}

/// A `u8` written as one or two hexadecimal digits (either case), nothing else.
pub open spec fn hex_u8(piece: Seq<u8>) -> Option<u8> {
    if piece.len() == 0 || piece.len() > 2 {
        None
    } else {
        match hex_digits_value(piece) {
            Some(v) => Some(v as u8),
            None => None,
        }
    }
}

/// The colour that the UTF-8 text `b` names, if any: leading `#`s are
/// dropped, six bytes are read as `rrggbb` and three as `rgb`, where each
/// short digit `d` stands for `dd` (its value times 17).
pub open spec fn spec_parse_color(b: Seq<u8>) -> Option<Rgb> {
    let n = skip_hashes(b, 0);
    let t = b.subrange(n, b.len() as int);
    if t.len() == 6 {
        match (
            hex_u8(t.subrange(0, 2)),
            hex_u8(t.subrange(2, 4)),
            hex_u8(t.subrange(4, 6)),
        ) {
            (Some(r), Some(g), Some(bl)) => Some(Rgb { r, g, b: bl }),
            _ => None,
        }
    } else if t.len() == 3 {
        match (
            hex_u8(t.subrange(0, 1)),
            hex_u8(t.subrange(1, 2)),
            hex_u8(t.subrange(2, 3)),
        ) {
            (Some(r), Some(g), Some(bl)) => Some(
                Rgb { r: (r * 17) as u8, g: (g * 17) as u8, b: (bl * 17) as u8 },
            ),
            _ => None,
        }
    } else {
        None
    }
}

/// The text can be cut where the reading of a colour cuts it: after the
/// leading `#`s, a six-byte rest is cut at bytes 2 and 4 and a three-byte rest
/// at bytes 1 and 2, and each cut must fall on a character boundary.
pub open spec fn color_cuts_ok(b: Seq<u8>) -> bool {
    let n = skip_hashes(b, 0);
    let len = b.len() - n;
    &&& len == 6 ==> is_char_boundary(b, n + 2) && is_char_boundary(b, n + 4)
    &&& len == 3 ==> is_char_boundary(b, n + 1) && is_char_boundary(b, n + 2)
}

proof fn lemma_skip_hashes_bounds(b: Seq<u8>, i: int)
    requires
        0 <= i <= b.len(),
    ensures
        i <= skip_hashes(b, i) <= b.len(),
        forall|j: int| i <= j < skip_hashes(b, i) ==> is_hash(#[trigger] b[j]),
        skip_hashes(b, i) < b.len() ==> !is_hash(b[skip_hashes(b, i)]),
    decreases b.len() - i,
{
    if i < b.len() && is_hash(b[i]) {
        lemma_skip_hashes_bounds(b, i + 1);
    }
}

/// Reads the bytes `b[start..end]` (one or two of them) as hexadecimal digits.
fn parse_hex_u8(b: &[u8], start: usize, end: usize) -> (res: Option<u8>)
    requires
        start < end <= b@.len(),
        end - start <= 2,
    ensures
        res == hex_u8(b@.subrange(start as int, end as int)),
{
    let ghost digits = b@.subrange(start as int, end as int);
    let mut i = start;
    let mut v: u32 = 0;
    while i < end
        invariant
            start <= i <= end <= b@.len(),
            end - start <= 2,
            digits == b@.subrange(start as int, end as int),
            hex_digits_value(b@.subrange(start as int, i as int)) == Some(v as nat),
            i == start ==> v == 0,
            i == start + 1 ==> v <= 15,
            v <= 255,
        decreases end - i,
    {
        let c = b[i];
        let d: u32;
        if 48 <= c && c <= 57 {
            d = (c - 48) as u32;
        } else if 97 <= c && c <= 102 {
            d = (c - 87) as u32;
        } else if 65 <= c && c <= 70 {
            d = (c - 55) as u32;
        } else {
            assert(b@.subrange(start as int, (i + 1) as int).drop_last() =~= b@.subrange(
                start as int,
                i as int,
            ));
            proof {
                assert(digits.subrange(0, (i - start) as int + 1) =~= b@.subrange(
                    start as int,
                    (i + 1) as int,
                ));
                lemma_prefix_none(digits, (i - start) as int + 1);
            }
            return None;
        }
        assert(b@.subrange(start as int, (i + 1) as int).drop_last() =~= b@.subrange(
            start as int,
            i as int,
        ));
        v = v * 16 + d;
        i = i + 1;
    }
    assert(b@.subrange(start as int, i as int) =~= digits);
    Some(v as u8)
}

/// Once a prefix of a run holds a non-digit, the whole run has no value.
proof fn lemma_prefix_none(d: Seq<u8>, k: int)
    requires
        0 < k <= d.len(),
        hex_digits_value(d.subrange(0, k)) is None,
    ensures
        hex_digits_value(d) is None,
    decreases d.len() - k,
{
    if k < d.len() {
        assert(d.subrange(0, k + 1).drop_last() =~= d.subrange(0, k));
        lemma_prefix_none(d, k + 1);
    } else {
        assert(d.subrange(0, k) =~= d);
    }
}

/// Whether `parse_color` can read `s` without cutting a character in two.
pub fn color_cuts_fit(s: &str) -> (ok: bool)
    ensures
        ok == color_cuts_ok(s.spec_bytes()),
{
    let b = s.as_bytes();
    let n = count_hashes(b);
    let len = b.len() - n;
    if len == 6 {
        s.is_char_boundary(n + 2) && s.is_char_boundary(n + 4)
    } else if len == 3 {
        s.is_char_boundary(n + 1) && s.is_char_boundary(n + 2)
    } else {
        true
    }
}

/// The number of leading `#` bytes.
fn count_hashes(b: &[u8]) -> (n: usize)
    ensures
        n == skip_hashes(b@, 0),
        n <= b@.len(),
{
    let mut i: usize = 0;
    proof {
        lemma_skip_hashes_bounds(b@, 0);
    }
    while i < b.len() && b[i] == 35
        invariant
            i <= b@.len(),
            skip_hashes(b@, i as int) == skip_hashes(b@, 0),
        decreases b@.len() - i,
    {
        i = i + 1;
    }
    i
}

/// Parses a CSS hex colour, `#rrggbb` or `#rgb` (any number of leading `#`,
/// including none, and digits of either case); anything else gives `None`.
pub fn parse_color(s: Option<&str>) -> (res: Option<Rgb>)
    requires
        s matches Some(t) ==> color_cuts_ok(t.spec_bytes()),
    ensures
        res == (match s {
            Some(t) => spec_parse_color(t.spec_bytes()),
            None => None,
        }),
{
    let t = match s {
        Some(t) => t,
        None => return None,
    };
    let b = t.as_bytes();
    let n = count_hashes(b);
    let len = b.len() - n;
    let ghost rest = b@.subrange(n as int, b@.len() as int);
    if len == 6 {
        assert(rest.subrange(0, 2) =~= b@.subrange(n as int, n + 2));
        assert(rest.subrange(2, 4) =~= b@.subrange(n + 2, n + 4));
        assert(rest.subrange(4, 6) =~= b@.subrange(n + 4, n + 6));
        let r = match parse_hex_u8(b, n, n + 2) {
            Some(v) => v,
            None => return None,
        };
        let g = match parse_hex_u8(b, n + 2, n + 4) {
            Some(v) => v,
            None => return None,
        };
        let bl = match parse_hex_u8(b, n + 4, n + 6) {
            Some(v) => v,
            None => return None,
        };
        Some(Rgb { r, g, b: bl })
    } else if len == 3 {
        assert(rest.subrange(0, 1) =~= b@.subrange(n as int, n + 1));
        assert(rest.subrange(1, 2) =~= b@.subrange(n + 1, n + 2));
        assert(rest.subrange(2, 3) =~= b@.subrange(n + 2, n + 3));
        let r = match parse_hex_u8(b, n, n + 1) {
            Some(v) => v,
            None => return None,
        };
        let g = match parse_hex_u8(b, n + 1, n + 2) {
            Some(v) => v,
            None => return None,
        };
        let bl = match parse_hex_u8(b, n + 2, n + 3) {
            Some(v) => v,
            None => return None,
        };
        proof {
            lemma_single_digit_small(b@.subrange(n as int, n + 1));
            lemma_single_digit_small(b@.subrange(n + 1, n + 2));
            lemma_single_digit_small(b@.subrange(n + 2, n + 3));
        }
        Some(Rgb { r: r * 17, g: g * 17, b: bl * 17 })
    } else {
        None
    }
}

/// A single byte reads as at most 15.
proof fn lemma_single_digit_small(p: Seq<u8>)
    requires
        p.len() == 1,
    ensures
        hex_u8(p) matches Some(v) ==> v <= 15,
{
    assert(p.drop_last() =~= Seq::<u8>::empty());
    reveal_with_fuel(hex_digits_value, 2);
}

/// One hexadecimal digit reads as its value; the digit written twice reads as 17 times it.
proof fn lemma_digit_pieces(a: u8)
    requires
        hex_digit(a) is Some,
    ensures
        hex_u8(seq![a]) == Some(hex_digit(a).unwrap() as u8),
        hex_u8(seq![a, a]) == Some((17 * hex_digit(a).unwrap()) as u8),
{
    let one = seq![a];
    let two = seq![a, a];
    assert(one.drop_last() =~= Seq::<u8>::empty());
    assert(two.drop_last() =~= one);
    reveal_with_fuel(hex_digits_value, 3);
}

/// Law: a short colour `#rgb` names the same colour as `#rrggbb`, each digit
/// written twice, and both are read.
pub proof fn lemma_short_color_doubles(a: u8, b: u8, c: u8)
    requires
        hex_digit(a) is Some,
        hex_digit(b) is Some,
        hex_digit(c) is Some,
    ensures
        spec_parse_color(seq![35u8, a, b, c]) is Some,
        spec_parse_color(seq![35u8, a, b, c]) == spec_parse_color(seq![35u8, a, a, b, b, c, c]),
{
    let short = seq![35u8, a, b, c];
    let long = seq![35u8, a, a, b, b, c, c];
    reveal_with_fuel(skip_hashes, 3);
    assert(skip_hashes(short, 0) == 1);
    assert(skip_hashes(long, 0) == 1);
    lemma_digit_pieces(a);
    lemma_digit_pieces(b);
    lemma_digit_pieces(c);
    let ts = short.subrange(1, 4);
    let tl = long.subrange(1, 7);
    assert(ts.subrange(0, 1) =~= seq![a]);
    assert(ts.subrange(1, 2) =~= seq![b]);
    assert(ts.subrange(2, 3) =~= seq![c]);
    assert(tl.subrange(0, 2) =~= seq![a, a]);
    assert(tl.subrange(2, 4) =~= seq![b, b]);
    assert(tl.subrange(4, 6) =~= seq![c, c]);
}

proof fn lemma_skip_hashes_shift(t: Seq<u8>, i: int)
    requires
        0 <= i <= t.len(),
    ensures
        skip_hashes(seq![35u8] + t, i + 1) == skip_hashes(t, i) + 1,
    decreases t.len() - i,
{
    let h = seq![35u8] + t;
    if i < t.len() {
        assert(h[i + 1] == t[i]);
        if is_hash(t[i]) {
            lemma_skip_hashes_shift(t, i + 1);
        }
    }
}

/// Law: a leading `#` changes nothing: `#x` names the colour that `x` names.
pub proof fn lemma_hash_is_optional(t: Seq<u8>)
    ensures
        spec_parse_color(seq![35u8] + t) == spec_parse_color(t),
{
    let h = seq![35u8] + t;
    lemma_skip_hashes_shift(t, 0);
    assert(skip_hashes(h, 0) == skip_hashes(h, 1));
    lemma_skip_hashes_bounds(t, 0);
    let n = skip_hashes(t, 0);
    assert(h.subrange(n + 1, h.len() as int) =~= t.subrange(n, t.len() as int));
}

} // verus!
