//! Colour maps: nine anchors with linear interpolation between them.
use crate::scalar::Scalar;
use vstd::prelude::*;
use vstd::string::*;

verus! {

/// The colour maps of the figures.
#[derive(Debug, Clone, Copy, PartialEq, Eq, Structural)]
pub enum ColorMap {
    Viridis,
    Magma,
}

impl ColorMap {
    /// The nine anchors, as red, green and blue.
    pub open spec fn anchors_of(self) -> Seq<(u8, u8, u8)> {
        match self {
            ColorMap::Viridis => seq![
                (68, 1, 84),
                (72, 40, 120),
                (62, 74, 137),
                (49, 104, 142),
                (38, 130, 142),
                (31, 158, 137),
                (53, 183, 121),
                (110, 206, 88),
                (253, 231, 37),
            ],
            ColorMap::Magma => seq![
                (0, 0, 4),
                (20, 14, 54),
                (59, 15, 112),
                (100, 26, 128),
                (140, 41, 129),
                (183, 55, 121),
                (222, 73, 104),
                (247, 112, 92),
                (252, 253, 191),
            ],
        }
    }

    fn anchors(self) -> (r: Vec<(u8, u8, u8)>)
        ensures
            r@ == self.anchors_of(),
            r@.len() == 9,
    {
        let r = match self {
            ColorMap::Viridis => vec![
                (68, 1, 84),
                (72, 40, 120),
                (62, 74, 137),
                (49, 104, 142),
                (38, 130, 142),
                (31, 158, 137),
                (53, 183, 121),
                (110, 206, 88),
                (253, 231, 37),
            ],
            ColorMap::Magma => vec![
                (0, 0, 4),
                (20, 14, 54),
                (59, 15, 112),
                (100, 26, 128),
                (140, 41, 129),
                (183, 55, 121),
                (222, 73, 104),
                (247, 112, 92),
                (252, 253, 191),
            ],
        };
        assert(r@ =~= self.anchors_of());
        r
    }
}

/// A number brought into the range from 0 to 1.
pub open spec fn unit<S: Scalar>(t: S) -> S {
    if t.spec_less(S::spec_zero()) {
        S::spec_zero()
    } else if S::spec_one().spec_less(t) {
        S::spec_one()
    } else {
        t
    }
}

pub fn clamp_unit<S: Scalar>(t: S) -> (r: S)
    ensures
        r == unit(t),
{
    if t.less(S::zero()) {
        S::zero()
    } else if S::one().less(t) {
        S::one()
    } else {
        t
    }
}

/// One channel between two anchors: `round(a + (b - a) f)`.
pub open spec fn lerp_of<S: Scalar>(a: u8, b: u8, f: S) -> u8 {
    let x = S::spec_from_int(a as int);
    x.spec_plus(S::spec_from_int(b as int).spec_minus(x).spec_times(f)).spec_round().spec_to_byte()
}

fn lerp<S: Scalar>(a: u8, b: u8, f: S) -> (r: u8)
    ensures
        r == lerp_of(a, b, f),
{
    let x = S::from_int(a as i64);
    x.plus(S::from_int(b as i64).minus(x).times(f)).round().to_byte()
}

/// The colour of a map at `t`.
pub open spec fn sample_of<S: Scalar>(map: ColorMap, t: S) -> (u8, u8, u8) {
    let scaled = unit(t).spec_times(S::spec_from_int(8));
    let whole = scaled.spec_floor().spec_to_index();
    let i = if whole < 7 {
        whole as int
    } else {
        7
    };
    let f = scaled.spec_minus(S::spec_from_count(i as nat));
    let (r0, g0, b0) = map.anchors_of()[i];
    let (r1, g1, b1) = map.anchors_of()[i + 1];
    (lerp_of(r0, r1, f), lerp_of(g0, g1, f), lerp_of(b0, b1, f))
}

/// A hexadecimal digit.
pub open spec fn hex_digit(d: int) -> char {
    if d < 10 {
        crate::text::digit(d)
    } else if d == 10 {
        'a'
    } else if d == 11 {
        'b'
    } else if d == 12 {
        'c'
    } else if d == 13 {
        'd'
    } else if d == 14 {
        'e'
    } else {
        'f'
    }
}

/// A byte as two hexadecimal digits.
pub open spec fn hex_byte(b: u8) -> Seq<char> {
    seq![hex_digit(b as int / 16), hex_digit(b as int % 16)]
}

/// A colour as `#rrggbb`.
pub open spec fn hex_color(c: (u8, u8, u8)) -> Seq<char> {
    "#"@ + hex_byte(c.0) + hex_byte(c.1) + hex_byte(c.2)
}

fn hex_text(d: u8) -> (r: &'static str)
    requires
        d < 16,
    ensures
        r@ == seq![hex_digit(d as int)],
{
    proof {
        reveal_strlit("0");
        reveal_strlit("1");
        reveal_strlit("2");
        reveal_strlit("3");
        reveal_strlit("4");
        reveal_strlit("5");
        reveal_strlit("6");
        reveal_strlit("7");
        reveal_strlit("8");
        reveal_strlit("9");
        reveal_strlit("a");
        reveal_strlit("b");
        reveal_strlit("c");
        reveal_strlit("d");
        reveal_strlit("e");
        reveal_strlit("f");
    }
    let r = if d == 0 {
        "0"
    } else if d == 1 {
        "1"
    } else if d == 2 {
        "2"
    } else if d == 3 {
        "3"
    } else if d == 4 {
        "4"
    } else if d == 5 {
        "5"
    } else if d == 6 {
        "6"
    } else if d == 7 {
        "7"
    } else if d == 8 {
        "8"
    } else if d == 9 {
        "9"
    } else if d == 10 {
        "a"
    } else if d == 11 {
        "b"
    } else if d == 12 {
        "c"
    } else if d == 13 {
        "d"
    } else if d == 14 {
        "e"
    } else {
        "f"
    };
    assert(r@ =~= seq![hex_digit(d as int)]);
    r
}

/// Samples a colour map at `t` from 0 to 1; outside, the nearest end is taken.
pub fn colormap<S: Scalar>(map: ColorMap, t: S) -> (r: String)
    ensures
        r@ == hex_color(sample_of(map, t)),
{
    let anchors = map.anchors();
    let scaled = clamp_unit(t).times(S::from_int(8));
    let whole = scaled.floor().to_index();
    let i = if whole < 7 {
        whole
    } else {
        7
    };
    let f = scaled.minus(S::from_count(i));
    let (r0, g0, b0) = anchors[i];
    let (r1, g1, b1) = anchors[i + 1];
    let red = lerp(r0, r1, f);
    let green = lerp(g0, g1, f);
    let blue = lerp(b0, b1, f);
    let mut out = "#".to_owned();
    out.append(hex_text(red / 16));
    out.append(hex_text(red % 16));
    out.append(hex_text(green / 16));
    out.append(hex_text(green % 16));
    out.append(hex_text(blue / 16));
    out.append(hex_text(blue % 16));
    assert(out@ =~= hex_color((red, green, blue)));
    out
}

} // verus!
