//! Sample points on the circumference of a circle.
use vstd::prelude::*;
use crate::point::Point2D;
use crate::trig::{is_trig_table, TrigTable, UnitVector, UNIT};

verus! {

/// `radius` times the fixed-point number `component`, rounded to the nearest
/// integer (a half rounds up).
pub open spec fn scaled(radius: int, component: int) -> int {
    (radius * component + UNIT / 2) / (UNIT as int)
}

/// How far, in lattice units, a sample may lie from the exact circle: three
/// units for the roundings, and one more for each `UNIT` of the radius, since
/// a table entry may be off by one part in `UNIT`.
pub open spec fn tolerance(radius: int) -> int {
    radius / (UNIT as int) + 3
}

/// The distance from `center` to `p` is `radius`, give or take
/// `tolerance(radius)`.
pub open spec fn near_circle(center: Point2D, radius: int, p: Point2D) -> bool {
    let d = p.dist_sq(center);
    let t = tolerance(radius);
    &&& d <= (radius + t) * (radius + t)
    &&& radius > t ==> (radius - t) * (radius - t) <= d
}

/// `p` is the sample of the circle in the direction `u`: the center, moved by
/// the radius along `u`.
pub open spec fn is_sample(p: Point2D, center: Point2D, radius: int, u: UnitVector) -> bool {
    &&& p.x == center.x + scaled(radius, u.cos as int)
    &&& p.y == center.y + scaled(radius, u.sin as int)
}

/// The number of samples that a step of `step_degrees` gives: one at every
/// multiple of the step from 0 to 360 degrees, both ends included.
pub open spec fn sample_count(step_degrees: int) -> int {
    360int / step_degrees + 1
}

/// `points` are the samples of the circle, in order: the one at index `i` lies
/// in the direction of `i * step_degrees` degrees, which is entry
/// `(i * step_degrees) % 360` of the table.
pub open spec fn is_generated(
    points: Seq<Point2D>,
    center: Point2D,
    radius: int,
    step_degrees: int,
    trig: Seq<UnitVector>,
) -> bool {
    &&& points.len() == sample_count(step_degrees)
    &&& forall|i: int|
        0 <= i < points.len() ==> is_sample(
            #[trigger] points[i],
            center,
            radius,
            trig[(i * step_degrees) % 360],
        )
}

/// What holds of the points of every generated set, whatever table they were
/// made with: their number, that each lies on the circle within the
/// tolerance, and that the loop is closed where the step divides the turn.
pub open spec fn is_circumference(
    points: Seq<Point2D>,
    center: Point2D,
    radius: int,
    step_degrees: int,
) -> bool {
    &&& radius > 0
    &&& step_degrees > 0
    &&& points.len() == sample_count(step_degrees)
    &&& forall|i: int| 0 <= i < points.len() ==> near_circle(center, radius, #[trigger] points[i])
    &&& 360int % step_degrees == 0 ==> points[0] == points[points.len() - 1]
}

/// The circle, with the room its samples may take, lies within the range of
/// the coordinates.
pub open spec fn circle_fits(center: Point2D, radius: int) -> bool {
    let reach = radius + tolerance(radius);
    &&& i32::MIN <= center.x - reach
    &&& center.x + reach <= i32::MAX
    &&& i32::MIN <= center.y - reach
    &&& center.y + reach <= i32::MAX
}

/// The parameters that a generator accepts: a positive radius, a positive
/// step, and a circle within the range of the coordinates.
pub open spec fn valid_parameters(center: Point2D, radius: int, step_degrees: int) -> bool {
    radius > 0 && step_degrees > 0 && circle_fits(center, radius)
}

/// What holds of every set: it is empty where nothing was generated, and holds
/// the circumference of its circle otherwise.
pub open spec fn is_point_set(points: Seq<Point2D>, sampling: Option<CircleSampling>) -> bool {
    match sampling {
        None => points.len() == 0,
        Some(c) => is_circumference(points, c.center, c.radius as int, c.step_degrees as int),
    }
}

/// The reason a generator gives for making no set.
#[derive(Clone, Copy, PartialEq, Eq, Structural, Debug)]
pub enum GeometryError {
    /// The radius or the angular step is zero or negative, or the circle
    /// reaches beyond the range of the coordinates.
    InvalidParameter,
}

/// The circle and the angular step that a set was generated from.
#[derive(Clone, Copy, PartialEq, Eq, Structural, Debug)]
pub struct CircleSampling {
    pub center: Point2D,
    pub radius: i32,
    pub step_degrees: i32,
}

/// The sample points of a circle, in the order of their angles. A set is
/// either empty, because nothing was generated yet, or holds the samples of
/// one circle; it changes only by being replaced as a whole.
#[derive(Debug)]
pub struct CircumferencePointSet {
    sampling: Option<CircleSampling>,
    points: Vec<Point2D>,
}

impl View for CircumferencePointSet {
    type V = Seq<Point2D>;

    closed spec fn view(&self) -> Seq<Point2D> {
        self.points@
    }
}

proof fn lemma_component_bound(c: int, s: int, b: int)
    by (nonlinear_arith)
    requires
        b >= 0,
        c * c + s * s <= b * b,
    ensures
        -b <= c <= b,
        -b <= s <= b,
{
}

proof fn lemma_product_bound(r: int, c: int, b: int)
    by (nonlinear_arith)
    requires
        r >= 0,
        -b <= c <= b,
    ensures
        -(r * b) <= r * c <= r * b,
{
}

proof fn lemma_norm_of_multiple(r: int, c: int, s: int)
    by (nonlinear_arith)
    ensures
        (r * c) * (r * c) + (r * s) * (r * s) == (r * r) * (c * c + s * s),
{
}

proof fn lemma_scale_between(k: int, lo: int, n: int, hi: int)
    by (nonlinear_arith)
    requires
        k >= 0,
        lo <= n <= hi,
    ensures
        k * lo <= k * n <= k * hi,
{
}

/// The square of `a + e`, where `a` is at most `m` and `e` at most `h` in
/// magnitude.
proof fn lemma_square_of_perturbed(a: int, e: int, m: int, h: int)
    by (nonlinear_arith)
    requires
        -m <= a <= m,
        -h <= e <= h,
    ensures
        a * a - 2 * (m * h) <= (a + e) * (a + e) <= a * a + 2 * (m * h) + h * h,
{
}

/// The offset that `scaled` gives along a unit vector has the length of the
/// radius, within the tolerance.
pub proof fn lemma_offset_length(r: int, c: int, s: int)
    requires
        r > 0,
        (UNIT - 1) * (UNIT - 1) <= c * c + s * s <= (UNIT + 1) * (UNIT + 1),
    ensures
        scaled(r, c) * scaled(r, c) + scaled(r, s) * scaled(r, s) <= (r + tolerance(r)) * (r
            + tolerance(r)),
        r > tolerance(r) ==> (r - tolerance(r)) * (r - tolerance(r)) <= scaled(r, c) * scaled(r, c)
            + scaled(r, s) * scaled(r, s),
{
    let u = UNIT as int;
    let h = u / 2;
    let ox = scaled(r, c);
    let oy = scaled(r, s);
    let d = ox * ox + oy * oy;
    let t = tolerance(r);
    // The exact products, and the offsets brought to the same scale: each
    // differs from its product by the rounding, half a unit at most.
    let a = r * c;
    let b = r * s;
    let x = u * ox;
    let y = u * oy;
    let m = r * (u + 1);
    let rr = r * r;
    lemma_component_bound(c, s, u + 1);
    lemma_product_bound(r, c, u + 1);
    lemma_product_bound(r, s, u + 1);
    lemma_square_of_perturbed(a, x - a, m, h);
    lemma_square_of_perturbed(b, y - b, m, h);
    lemma_norm_of_multiple(r, c, s);
    lemma_scale_between(rr, (u - 1) * (u - 1), c * c + s * s, (u + 1) * (u + 1));
    assert(x * x + y * y == u * u * d) by (nonlinear_arith)
        requires
            x == u * ox,
            y == u * oy,
            d == ox * ox + oy * oy,
    ;
    // So the square of the offset's length, at that scale, lies between these.
    let low = rr * ((u - 1) * (u - 1)) - 4 * (m * h);
    let high = rr * ((u + 1) * (u + 1)) + 4 * (m * h) + 2 * (h * h);
    assert(low <= u * u * d <= high);
    assert(u * t >= r + 2 * u + 1);
    let q = r + t;
    assert(u * u * (q * q) >= high) by (nonlinear_arith)
        requires
            u == 0x4000_0000,
            h == 0x2000_0000,
            r > 0,
            rr == r * r,
            m == r * (u + 1),
            q == r + t,
            u * t >= r + 2 * u + 1,
            high == rr * ((u + 1) * (u + 1)) + 4 * (m * h) + 2 * (h * h),
    ;
    assert(d <= q * q) by (nonlinear_arith)
        requires
            u == 0x4000_0000,
            u * u * d <= u * u * (q * q),
    ;
    if r > t {
        let p = r - t;
        assert(u * u * (p * p) <= low) by (nonlinear_arith)
            requires
                u == 0x4000_0000,
                h == 0x2000_0000,
                r > t,
                t >= 3,
                rr == r * r,
                m == r * (u + 1),
                p == r - t,
                u * t >= r + 2 * u + 1,
                low == rr * ((u - 1) * (u - 1)) - 4 * (m * h),
        ;
        assert(p * p <= d) by (nonlinear_arith)
            requires
                u == 0x4000_0000,
                u * u * (p * p) <= u * u * d,
        ;
    }
}

/// A sample of the circle lies on it, within the tolerance.
pub proof fn lemma_sample_near_circle(p: Point2D, center: Point2D, radius: int, u: UnitVector)
    requires
        radius > 0,
        u.is_unit(),
        is_sample(p, center, radius, u),
    ensures
        near_circle(center, radius, p),
{
    lemma_offset_length(radius, u.cos as int, u.sin as int);
}

/// The samples that a table of unit vectors gives for a positive radius and
/// step are a circumference: each lies on the circle within the tolerance,
/// and the first and the last are the same point where the step divides the
/// turn.
pub proof fn lemma_generated_is_circumference(
    points: Seq<Point2D>,
    center: Point2D,
    radius: int,
    step_degrees: int,
    trig: Seq<UnitVector>,
)
    requires
        radius > 0,
        step_degrees > 0,
        is_trig_table(trig),
        is_generated(points, center, radius, step_degrees, trig),
    ensures
        is_circumference(points, center, radius, step_degrees),
{
    let last = 360int / step_degrees;
    assert(0 <= last <= 360 && last * step_degrees <= 360 && (360int % step_degrees == 0 ==> last
        * step_degrees == 360)) by (nonlinear_arith)
        requires
            step_degrees > 0,
            last == 360int / step_degrees,
    ;
    assert forall|i: int| 0 <= i < points.len() implies near_circle(
        center,
        radius,
        #[trigger] points[i],
    ) by {
        assert(0 <= i * step_degrees <= last * step_degrees) by (nonlinear_arith)
            requires
                0 <= i <= last,
                step_degrees > 0,
        ;
        let u = trig[(i * step_degrees) % 360];
        assert(u.is_unit());
        lemma_sample_near_circle(points[i], center, radius, u);
    }
    if 360int % step_degrees == 0 {
        assert(is_sample(points[0], center, radius, trig[(0 * step_degrees) % 360]));
        assert(is_sample(points[last], center, radius, trig[(last * step_degrees) % 360]));
        assert(0 * step_degrees == 0);
    }
}

/// Neither coordinate of a sample is farther from the center's than the radius
/// and the tolerance together.
proof fn lemma_offset_reach(r: int, c: int, s: int)
    requires
        r > 0,
        (UNIT - 1) * (UNIT - 1) <= c * c + s * s <= (UNIT + 1) * (UNIT + 1),
    ensures
        -(r + tolerance(r)) <= scaled(r, c) <= r + tolerance(r),
        -(r + tolerance(r)) <= scaled(r, s) <= r + tolerance(r),
{
    lemma_offset_length(r, c, s);
    lemma_component_bound(scaled(r, c), scaled(r, s), r + tolerance(r));
}

/// Decides `circle_fits` for a positive radius.
fn fits_coordinates(center: &Point2D, radius: i32) -> (fits: bool)
    requires
        radius > 0,
    ensures
        fits == circle_fits(*center, radius as int),
{
    let reach: i64 = radius as i64 + radius as i64 / (UNIT as i64) + 3;
    let x: i64 = center.x as i64;
    let y: i64 = center.y as i64;
    i32::MIN as i64 <= x - reach && x + reach <= i32::MAX as i64 && i32::MIN as i64 <= y - reach
        && y + reach <= i32::MAX as i64
}

/// Computes `scaled(radius, component)`.
fn scale(radius: i32, component: i32) -> (offset: i64)
    requires
        radius > 0,
        -(UNIT + 1) <= component <= UNIT + 1,
    ensures
        offset == scaled(radius as int, component as int),
{
    let r: i64 = radius as i64;
    let c: i64 = component as i64;
    let unit: i64 = UNIT as i64;
    assert(-(0x8000_0000 * 0x4000_0001) <= r * c <= 0x8000_0000 * 0x4000_0001)
        by (nonlinear_arith)
        requires
            0 < r < 0x8000_0000,
            -0x4000_0001 <= c <= 0x4000_0001,
    ;
    let n: i64 = r * c + unit / 2;
    // the quotient rounded down, also where `n` is negative
    if n >= 0 {
        n / unit
    } else {
        -((-n + (unit - 1)) / unit)
    }
}

/// Computes the sample of the circle in the direction `u`.
fn sample(center: &Point2D, radius: i32, u: &UnitVector) -> (p: Point2D)
    requires
        radius > 0,
        u.is_unit(),
        circle_fits(*center, radius as int),
    ensures
        is_sample(p, *center, radius as int, *u),
{
    proof {
        lemma_component_bound(u.cos as int, u.sin as int, UNIT + 1);
        lemma_offset_reach(radius as int, u.cos as int, u.sin as int);
    }
    let x: i64 = center.x as i64 + scale(radius, u.cos);
    let y: i64 = center.y as i64 + scale(radius, u.sin);
    Point2D { x: x as i32, y: y as i32 }
}

impl CircumferencePointSet {
    /// Holds of every set.
    #[verifier::type_invariant]
    pub open spec fn well_formed(&self) -> bool {
        is_point_set(self@, self.spec_sampling())
    }

    /// What the set was generated from; `None` for a set that is empty because
    /// nothing was generated.
    pub closed spec fn spec_sampling(&self) -> Option<CircleSampling> {
        self.sampling
    }

    /// The empty set.
    pub fn new() -> (set: CircumferencePointSet)
        ensures
            set@.len() == 0,
            set.spec_sampling() is None,
    {
        CircumferencePointSet { sampling: None, points: Vec::new() }
    }

    /// Samples the circle round `center` at every multiple of `step_degrees`
    /// from 0 to 360 degrees, both included, so that the samples of a step that
    /// divides 360 begin and end at the same point. The directions come from
    /// `trig`. A radius or a step that is not positive is refused, and so is a
    /// circle that reaches beyond the range of the coordinates.
    pub fn generate(center: Point2D, radius: i32, step_degrees: i32, trig: &TrigTable) -> (made:
        Result<CircumferencePointSet, GeometryError>)
        ensures
            made is Err <==> !valid_parameters(center, radius as int, step_degrees as int),
            made matches Ok(set) ==> {
                &&& is_generated(set@, center, radius as int, step_degrees as int, trig@)
                &&& is_circumference(set@, center, radius as int, step_degrees as int)
                &&& set.spec_sampling() == Some(CircleSampling { center, radius, step_degrees })
            },
    {
        if radius <= 0 || step_degrees <= 0 || !fits_coordinates(&center, radius) {
            return Err(GeometryError::InvalidParameter);
        }
        proof {
            use_type_invariant(trig);
        }
        let last: i32 = 360 / step_degrees;
        let count: usize = last as usize + 1;
        let mut points: Vec<Point2D> = Vec::new();
        let mut i: usize = 0;
        while i < count
            invariant
                radius > 0,
                step_degrees > 0,
                circle_fits(center, radius as int),
                last == 360int / (step_degrees as int),
                0 <= last <= 360,
                count == last + 1,
                i <= count,
                points@.len() == i,
                is_trig_table(trig@),
                forall|j: int|
                    0 <= j < i ==> is_sample(
                        #[trigger] points@[j],
                        center,
                        radius as int,
                        trig@[(j * step_degrees) % 360],
                    ),
            decreases count - i,
        {
            assert(0 <= i * step_degrees <= 360) by (nonlinear_arith)
                requires
                    0 <= i <= last,
                    step_degrees > 0,
                    last == 360int / (step_degrees as int),
            ;
            let angle: i32 = (i as i32) * step_degrees;
            let u = trig.at(angle as usize);
            let p = sample(&center, radius, &u);
            points.push(p);
            i += 1;
        }
        proof {
            lemma_generated_is_circumference(
                points@,
                center,
                radius as int,
                step_degrees as int,
                trig@,
            );
        }
        Ok(
            CircumferencePointSet {
                sampling: Some(CircleSampling { center, radius, step_degrees }),
                points,
            },
        )
    }

    /// Replaces the set by the one that `generate` makes of the same
    /// arguments. Where `generate` refuses them the set stays as it was.
    pub fn regenerate(
        &mut self,
        center: Point2D,
        radius: i32,
        step_degrees: i32,
        trig: &TrigTable,
    ) -> (done: Result<(), GeometryError>)
        ensures
            done is Err <==> !valid_parameters(center, radius as int, step_degrees as int),
            done is Err ==> *final(self) == *old(self),
            done is Ok ==> {
                &&& is_generated(final(self)@, center, radius as int, step_degrees as int, trig@)
                &&& is_circumference(final(self)@, center, radius as int, step_degrees as int)
                &&& final(self).spec_sampling() == Some(
                    CircleSampling { center, radius, step_degrees },
                )
            },
    {
        match CircumferencePointSet::generate(center, radius, step_degrees, trig) {
            Ok(set) => {
                *self = set;
                Ok(())
            },
            Err(e) => Err(e),
        }
    }

    /// The points, in the order of their angles.
    pub fn points(&self) -> (points: &Vec<Point2D>)
        ensures
            points@ == self@,
            is_point_set(self@, self.spec_sampling()),
    {
        proof {
            use_type_invariant(self);
        }
        &self.points
    }

    /// The circle and the step of the last generation, if there was one.
    pub fn sampling(&self) -> (sampling: Option<CircleSampling>)
        ensures
            sampling == self.spec_sampling(),
            is_point_set(self@, sampling),
    {
        proof {
            use_type_invariant(self);
        }
        self.sampling
    }

    pub fn len(&self) -> (n: usize)
        ensures
            n == self@.len(),
    {
        self.points.len()
    }

    pub fn is_empty(&self) -> (empty: bool)
        ensures
            empty <==> self@.len() == 0,
    {
        self.points.len() == 0
    }
}

impl Default for CircumferencePointSet {
    /// The empty set.
    fn default() -> (set: CircumferencePointSet)
        ensures
            set@.len() == 0,
            set.spec_sampling() is None,
    {
        CircumferencePointSet::new()
    }
}

} // verus!
