//! A composable 2D transform: scale, mirror, rotate, translate.

use crate::gr::Pt;
use crate::strings::str_eq;
use crate::{Error, ErrorKind};
use vstd::prelude::*;

verus! {

/// One full turn, in angle units.
pub const FULL_TURN: i32 = 3600000;

/// A quarter turn, in angle units.
pub const QUARTER_TURN: i32 = 900000;

/// Scale, mirror, rotation and translation, applied to points in that order.
pub struct Transform {
    /// The offset added last.
    pub to: Pt,
    /// The rotation angle.
    pub rotate: i32,
    /// The mirror axis: `x`, `y`, `xy`, or none.
    pub mirror: Option<String>,
    /// The scale factor, in units of 0.0001.
    pub scale: Option<i32>,
}

/// The signs by which the mirror step multiplies x and y. Without an axis the
/// step still flips y: library symbols and placed symbols use opposite
/// vertical directions.
pub open spec fn mirror_signs(axis: Option<Seq<char>>) -> Option<(int, int)> {
    match axis {
        None => Some((1, -1)),
        Some(s) => if s == ""@ {
            Some((1, -1))
        } else if s == "x"@ {
            Some((1, 1))
        } else if s == "y"@ {
            Some((-1, -1))
        } else if s == "xy"@ {
            Some((-1, 1))
        } else {
            None
        },
    }
}

/// Cosine and sine of an angle that is a whole number of quarter turns.
pub open spec fn quarter_cos_sin(angle: int) -> Option<(int, int)> {
    let a = angle % 3600000;
    if a == 0 {
        Some((1, 0))
    } else if a == 900000 {
        Some((0, 1))
    } else if a == 1800000 {
        Some((-1, 0))
    } else if a == 2700000 {
        Some((0, -1))
    } else {
        None
    }
}

/// `n / 10000`, rounded to the nearest integer, halves away from zero.
pub open spec fn round_unit(n: int) -> int {
    if n >= 0 {
        (n + 5000) / 10000
    } else {
        -((5000 - n) / 10000)
    }
}

/// Whether a pair of integers fits a point.
pub open spec fn fits(p: (int, int)) -> bool {
    i32::MIN <= p.0 <= i32::MAX && i32::MIN <= p.1 <= i32::MAX
}

/// The point after the scale step.
pub open spec fn scaled(scale: Option<i32>, p: (int, int)) -> (int, int) {
    match scale {
        None => p,
        Some(s) => (round_unit(p.0 * s), round_unit(-(p.1 * s))),
    }
}

/// The exact image of a point under offset, rotation, mirror axis and scale:
/// scaled, mirrored, rotated, translated. It is meant for a known axis and a
/// rotation by quarter turns.
pub open spec fn image_with(
    to: Pt,
    rotate: int,
    axis: Option<Seq<char>>,
    scale: Option<i32>,
    p: (int, int),
) -> (int, int) {
    let (sx, sy) = scaled(scale, p);
    let (mx, my) = mirror_signs(axis)->0;
    let (x, y) = (sx * mx, sy * my);
    let (c, s) = quarter_cos_sin(rotate)->0;
    (x * c + y * s + to.x, -(x * s) + y * c + to.y)
}

/// What applying a transform to one point gives: the image, or why there is
/// none.
pub open spec fn place(
    to: Pt,
    rotate: int,
    axis: Option<Seq<char>>,
    scale: Option<i32>,
    p: (int, int),
) -> Result<Pt, ErrorKind> {
    let q = image_with(to, rotate, axis, scale, p);
    if mirror_signs(axis) is None {
        Err(ErrorKind::UnsupportedMirror)
    } else if quarter_cos_sin(rotate) is None {
        Err(ErrorKind::UnsupportedAngle)
    } else if !fits(q) {
        Err(ErrorKind::OutOfRange)
    } else {
        Ok(Pt { x: q.0 as i32, y: q.1 as i32 })
    }
}

/// The mirror axis as characters.
pub open spec fn axis_of(mirror: Option<String>) -> Option<Seq<char>> {
    match mirror {
        None => None,
        Some(s) => Some(s@),
    }
}

impl Transform {
    /// The mirror axis as characters.
    pub open spec fn axis(self) -> Option<Seq<char>> {
        axis_of(self.mirror)
    }

    /// Whether the mirror axis and the rotation angle are ones that can be
    /// applied.
    pub open spec fn supported(self) -> bool {
        mirror_signs(self.axis()) is Some && quarter_cos_sin(self.rotate as int) is Some
    }

    /// The exact image of a point: scaled, mirrored, rotated, translated.
    pub open spec fn image(self, p: Pt) -> (int, int)
        recommends
            self.supported(),
    {
        image_with(self.to, self.rotate as int, self.axis(), self.scale, (p.x as int, p.y as int))
    }

    /// What applying the transform to one point gives.
    pub open spec fn outcome(self, p: Pt) -> Result<Pt, ErrorKind> {
        place(self.to, self.rotate as int, self.axis(), self.scale, (p.x as int, p.y as int))
    }

    /// What applying the transform to a point with coordinates of any size
    /// gives.
    pub open spec fn outcome_wide(self, p: (int, int)) -> Result<Pt, ErrorKind> {
        place(self.to, self.rotate as int, self.axis(), self.scale, p)
    }

    /// The transform that only flips y.
    pub fn new() -> (t: Self)
        ensures
            t.to == (Pt { x: 0, y: 0 }),
            t.rotate == 0,
            t.mirror is None,
            t.scale is None,
    {
        Self { to: Pt { x: 0, y: 0 }, rotate: 0, mirror: None, scale: None }
    }

    /// Sets the rotation angle.
    pub fn rotation(self, angle: i32) -> (t: Self)
        ensures
            t.to == self.to,
            t.rotate == angle,
            t.mirror == self.mirror,
            t.scale == self.scale,
    {
        Self { to: self.to, rotate: angle, mirror: self.mirror, scale: self.scale }
    }

    /// Sets the mirror axis.
    pub fn mirror(self, axis: &Option<String>) -> (t: Self)
        ensures
            t.to == self.to,
            t.rotate == self.rotate,
            t.axis() == axis_of(*axis),
            t.scale == self.scale,
    {
        let mirror = match axis {
            None => None,
            Some(s) => Some(s.clone()),
        };
        Self { to: self.to, rotate: self.rotate, mirror, scale: self.scale }
    }

    /// Sets the offset.
    pub fn translation(self, pt: Pt) -> (t: Self)
        ensures
            t.to == pt,
            t.rotate == self.rotate,
            t.mirror == self.mirror,
            t.scale == self.scale,
    {
        Self { to: pt, rotate: self.rotate, mirror: self.mirror, scale: self.scale }
    }

    /// Sets the scale factor.
    pub fn scale(self, scale: i32) -> (t: Self)
        ensures
            t.to == self.to,
            t.rotate == self.rotate,
            t.mirror == self.mirror,
            t.scale == Some(scale),
    {
        Self { to: self.to, rotate: self.rotate, mirror: self.mirror, scale: Some(scale) }
    }

    /// The signs of the mirror step, if the axis is a known one.
    fn signs(&self) -> (r: Option<(i64, i64)>)
        ensures
            match r {
                Some(m) => mirror_signs(self.axis()) == Some((m.0 as int, m.1 as int)),
                None => mirror_signs(self.axis()) is None,
            },
    {
        match &self.mirror {
            None => Some((1, -1)),
            Some(s) => {
                if str_eq(s.as_str(), "") {
                    Some((1, -1))
                } else if str_eq(s.as_str(), "x") {
                    Some((1, 1))
                } else if str_eq(s.as_str(), "y") {
                    Some((-1, -1))
                } else if str_eq(s.as_str(), "xy") {
                    Some((-1, 1))
                } else {
                    None
                }
            },
        }
    }

    /// Cosine and sine of the rotation, if it is a whole number of quarter
    /// turns.
    fn cos_sin(&self) -> (r: Option<(i64, i64)>)
        ensures
            match r {
                Some(m) => quarter_cos_sin(self.rotate as int) == Some((m.0 as int, m.1 as int)),
                None => quarter_cos_sin(self.rotate as int) is None,
            },
    {
        let a = normalize_angle(self.rotate);
        if a == 0 {
            Some((1, 0))
        } else if a == QUARTER_TURN {
            Some((0, 1))
        } else if a == 2 * QUARTER_TURN {
            Some((-1, 0))
        } else if a == 3 * QUARTER_TURN {
            Some((0, -1))
        } else {
            None
        }
    }

    /// Applies the transform to each point, in order.
    ///
    /// Fails with `UnsupportedMirror` on an unknown mirror axis, else with
    /// `UnsupportedAngle` on a rotation that is not a whole number of quarter
    /// turns, else with `OutOfRange` if the image of some point does not fit.
    pub fn transform(&self, points: &Vec<Pt>) -> (r: Result<Vec<Pt>, Error>)
        ensures
            match r {
                Ok(v) => {
                    &&& self.supported()
                    &&& v@.len() == points@.len()
                    &&& forall|i: int|
                        0 <= i < points@.len() ==> (v@[i].x as int, v@[i].y as int)
                            == #[trigger] self.image(points@[i])
                },
                Err(e) => {
                    &&& e.0 == ErrorKind::UnsupportedMirror <==> mirror_signs(self.axis()) is None
                    &&& e.0 == ErrorKind::UnsupportedAngle <==> mirror_signs(self.axis()) is Some
                        && quarter_cos_sin(self.rotate as int) is None
                    &&& e.0 == ErrorKind::OutOfRange <==> self.supported() && exists|i: int|
                        0 <= i < points@.len() && !fits(#[trigger] self.image(points@[i]))
                    &&& e.0 == ErrorKind::UnsupportedMirror || e.0 == ErrorKind::UnsupportedAngle
                        || e.0 == ErrorKind::OutOfRange
                },
            },
    {
        let Some(m) = self.signs() else {
            return Err(Error::new(ErrorKind::UnsupportedMirror, "unknown mirror axis"));
        };
        let Some(cs) = self.cos_sin() else {
            return Err(Error::new(ErrorKind::UnsupportedAngle, "rotation is not a quarter turn"));
        };
        let mut out: Vec<Pt> = Vec::new();
        let mut i: usize = 0;
        while i < points.len()
            invariant
                i <= points@.len(),
                out@.len() == i,
                self.supported(),
                mirror_signs(self.axis()) == Some((m.0 as int, m.1 as int)),
                quarter_cos_sin(self.rotate as int) == Some((cs.0 as int, cs.1 as int)),
                forall|j: int|
                    0 <= j < i ==> (out@[j].x as int, out@[j].y as int) == #[trigger] self.image(
                        points@[j],
                    ),
            decreases points@.len() - i,
        {
            match self.image_of((points[i].x as i64, points[i].y as i64), m, cs) {
                Some(q) => out.push(q),
                None => {
                    assert(!fits(self.image(points@[i as int])));
                    return Err(Error::new(ErrorKind::OutOfRange, "point out of range"));
                },
            }
            assert((out@[i as int].x as int, out@[i as int].y as int) == self.image(
                points@[i as int],
            ));
            i += 1;
        }
        Ok(out)
    }

    /// Applies the transform to one point.
    pub fn apply(&self, p: Pt) -> (r: Result<Pt, Error>)
        ensures
            match r {
                Ok(q) => self.outcome(p) == Ok::<Pt, ErrorKind>(q),
                Err(e) => self.outcome(p) == Err::<Pt, ErrorKind>(e.0),
            },
    {
        let Some(m) = self.signs() else {
            return Err(Error::new(ErrorKind::UnsupportedMirror, "unknown mirror axis"));
        };
        let Some(cs) = self.cos_sin() else {
            return Err(Error::new(ErrorKind::UnsupportedAngle, "rotation is not a quarter turn"));
        };
        match self.image_of((p.x as i64, p.y as i64), m, cs) {
            Some(q) => Ok(q),
            None => Err(Error::new(ErrorKind::OutOfRange, "point out of range")),
        }
    }

    /// Applies the transform to one point whose coordinates are sums or
    /// differences of two 32-bit values.
    pub fn apply_wide(&self, p: (i64, i64)) -> (r: Result<Pt, Error>)
        requires
            -0x1_0000_0000 <= p.0 <= 0x1_0000_0000,
            -0x1_0000_0000 <= p.1 <= 0x1_0000_0000,
        ensures
            match r {
                Ok(q) => self.outcome_wide((p.0 as int, p.1 as int)) == Ok::<Pt, ErrorKind>(q),
                Err(e) => self.outcome_wide((p.0 as int, p.1 as int)) == Err::<Pt, ErrorKind>(e.0),
            },
    {
        let Some(m) = self.signs() else {
            return Err(Error::new(ErrorKind::UnsupportedMirror, "unknown mirror axis"));
        };
        let Some(cs) = self.cos_sin() else {
            return Err(Error::new(ErrorKind::UnsupportedAngle, "rotation is not a quarter turn"));
        };
        match self.image_of(p, m, cs) {
            Some(q) => Ok(q),
            None => Err(Error::new(ErrorKind::OutOfRange, "point out of range")),
        }
    }

    /// The image of one point, if it fits.
    fn image_of(&self, p: (i64, i64), m: (i64, i64), cs: (i64, i64)) -> (r: Option<Pt>)
        requires
            -0x1_0000_0000 <= p.0 <= 0x1_0000_0000,
            -0x1_0000_0000 <= p.1 <= 0x1_0000_0000,
            mirror_signs(self.axis()) == Some((m.0 as int, m.1 as int)),
            quarter_cos_sin(self.rotate as int) == Some((cs.0 as int, cs.1 as int)),
        ensures
            match r {
                Some(q) => (q.x as int, q.y as int) == image_with(
                    self.to,
                    self.rotate as int,
                    self.axis(),
                    self.scale,
                    (p.0 as int, p.1 as int),
                ),
                None => !fits(
                    image_with(
                        self.to,
                        self.rotate as int,
                        self.axis(),
                        self.scale,
                        (p.0 as int, p.1 as int),
                    ),
                ),
            },
    {
        let (sx, sy): (i64, i64) = match self.scale {
            None => p,
            Some(s) => {
                assert(-0x8000_0000_0000_0000 <= (p.0 as int) * (s as int) <= 0x8000_0000_0000_0000
                    && -0x8000_0000_0000_0000 <= (p.1 as int) * (s as int)
                    <= 0x8000_0000_0000_0000) by (nonlinear_arith)
                    requires
                        -0x1_0000_0000 <= p.0 <= 0x1_0000_0000,
                        -0x1_0000_0000 <= p.1 <= 0x1_0000_0000,
                        -0x8000_0000 <= s <= 0x7fff_ffff,
                ;
                (
                    round_unit_wide((p.0 as i128) * (s as i128)),
                    round_unit_wide(-((p.1 as i128) * (s as i128))),
                )
            },
        };
        let x: i64 = times_sign(sx, m.0);
        let y: i64 = times_sign(sy, m.1);
        let rx: i64 = times_sign(x, cs.0) + times_sign(y, cs.1) + (self.to.x as i64);
        let ry: i64 = -times_sign(x, cs.1) + times_sign(y, cs.0) + (self.to.y as i64);
        if rx < (i32::MIN as i64) || rx > (i32::MAX as i64) || ry < (i32::MIN as i64) || ry > (
        i32::MAX as i64) {
            None
        } else {
            Some(Pt { x: rx as i32, y: ry as i32 })
        }
    }
}

/// Without mirror axis, rotation and scale, a transform negates y and adds
/// its offset.
pub proof fn lemma_default_flips_y(t: Transform, p: Pt)
    requires
        t.mirror is None,
        t.scale is None,
        t.rotate == 0,
    ensures
        t.supported(),
        t.image(p) == (p.x + t.to.x, -p.y + t.to.y),
{
    assert(scaled(t.scale, (p.x as int, p.y as int)) == (p.x as int, p.y as int));
    assert(mirror_signs(t.axis()) == Some((1int, -1int)));
    assert(quarter_cos_sin(t.rotate as int) == Some((1int, 0int)));
}

/// Mirrored by `x`, without rotation, scale and offset, every point is its
/// own image.
pub proof fn lemma_mirror_x_is_identity(t: Transform, p: Pt)
    requires
        t.axis() == Some("x"@),
        t.scale is None,
        t.rotate == 0,
        t.to == (Pt { x: 0, y: 0 }),
    ensures
        t.supported(),
        t.image(p) == (p.x as int, p.y as int),
{
    reveal_strlit("x");
    reveal_strlit("");
    assert("x"@.len() == 1);
    assert(""@.len() == 0);
    assert(mirror_signs(t.axis()) == Some((1int, 1int)));
    assert(scaled(t.scale, (p.x as int, p.y as int)) == (p.x as int, p.y as int));
    assert(quarter_cos_sin(t.rotate as int) == Some((1int, 0int)));
}

/// A full turn more or less gives the same image.
pub proof fn lemma_rotation_periodic(t: Transform, u: Transform, p: Pt)
    requires
        t.supported(),
        u.to == t.to,
        u.mirror == t.mirror,
        u.scale == t.scale,
        u.rotate as int == t.rotate + 3600000,
    ensures
        u.supported(),
        u.image(p) == t.image(p),
{
}

/// The angle reduced to the range of one full turn.
pub fn normalize_angle(angle: i32) -> (a: i32)
    ensures
        a == (angle as int) % 3600000,
        0 <= a < 3600000,
{
    if angle >= 0 {
        angle % FULL_TURN
    } else {
        let m: i64 = (-(angle as i64)) % (FULL_TURN as i64);
        if m == 0 {
            0
        } else {
            ((FULL_TURN as i64) - m) as i32
        }
    }
}

/// `v` times a sign: 1, 0 or -1.
fn times_sign(v: i64, sign: i64) -> (r: i64)
    requires
        -1 <= sign <= 1,
        i64::MIN < v,
    ensures
        r == v * sign,
        r == v || r == -v || r == 0,
{
    assert(v * 1 == v && v * (-1) == -v && v * 0 == 0) by (nonlinear_arith);
    if sign == 1 {
        v
    } else if sign == -1 {
        -v
    } else {
        0
    }
}

/// `n / 10000` rounded to the nearest integer, halves away from zero.
fn round_unit_wide(n: i128) -> (r: i64)
    requires
        -0x8000_0000_0000_0000 <= n <= 0x8000_0000_0000_0000,
    ensures
        r == round_unit(n as int),
        -0x2000_0000_0000_0000 <= r <= 0x2000_0000_0000_0000,
{
    if n >= 0 {
        ((n + 5000) / 10000) as i64
    } else {
        (-((5000 - n) / 10000)) as i64
    }
}

} // verus!
