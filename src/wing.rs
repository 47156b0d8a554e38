//! A tapered wing lofted between two airfoil sections, its foam-core and
//! control-surface cutouts, and the ribs sliced from it.
use vstd::prelude::*;
use crate::num::{OPERAND_LIMIT, q_eq, lemma_mul_bound, lemma_pos_product, q_add, q_div, q_half, q_int, q_le, q_lt, q_mul, q_neg, q_scale, q_sign, q_sub, vec2, vec3, Num, Vec2, Vec3};
use crate::profile::Airfoil;
use crate::shape::{is_polygon, Angle, Axis, Op, Shape};

verus! {

/// Half-extent of the slabs and boxes that stand for "unbounded" in a
/// direction.
pub const FAR: i64 = 1000;

/// Thickness (thousandths) of the flat end caps of a cutoff box.
pub const CAP_THOUSANDTHS: i64 = 1;

/// Returned when parameters would give a part with no extent.
#[derive(Clone, Copy, Debug, PartialEq, Eq)]
pub enum GeometryError {
    Degenerate,
}

/// To which side of the chord plane a cutoff box reaches.
#[derive(Clone, Copy, Debug, PartialEq, Eq)]
pub enum CutoffDirection {
    /// From the chord plane to positive y.
    Up,
    /// From the chord plane to negative y.
    Down,
    /// Symmetric about the chord plane.
    Both,
}

pub open spec fn zero() -> (int, int) {
    (0, 1)
}

pub open spec fn far() -> (int, int) {
    (FAR as int, 1)
}

/// `v` is the vector `(x, y, z)`.
pub open spec fn is_vec3(v: Vec3, x: (int, int), y: (int, int), z: (int, int)) -> bool {
    v.x@ == x && v.y@ == y && v.z@ == z
}

/// `s` translates its one child by `(x, y, z)`.
pub open spec fn is_translate(s: Shape, x: (int, int), y: (int, int), z: (int, int)) -> bool {
    s.op is Translate && is_vec3(s.op->Translate_0, x, y, z) && s.children@.len() == 1
}

/// `s` is a box of size `(x, y, z)` with the given centering and no children.
pub open spec fn is_cube(
    s: Shape,
    x: (int, int),
    y: (int, int),
    z: (int, int),
    cx: bool,
    cy: bool,
    cz: bool,
) -> bool {
    &&& s.op is CenteredCube
    &&& is_vec3(s.op->size, x, y, z)
    &&& s.op->center_x == cx && s.op->center_y == cy && s.op->center_z == cz
    &&& s.children@.len() == 0
}

/// `s` extrudes its one child from z = 0 to `height`.
pub open spec fn is_extrusion(s: Shape, height: Num) -> bool {
    s.op == (Op::LinearExtrude { height, center: false }) && s.children@.len() == 1
}

/// `s` is the profile through `points` scaled by `length` on both axes.
pub open spec fn is_scaled_profile(s: Shape, length: Num, points: Seq<Vec2>) -> bool {
    s.op == Op::Scale2d(Vec2 { x: length, y: length }) && s.children@.len() == 1 && is_polygon(
        s.children@[0],
        points,
    )
}

/// `s` is the profile scaled by `length`, then offset by `delta` when there is
/// one.
pub open spec fn is_section(s: Shape, length: Num, points: Seq<Vec2>, delta: Option<Num>) -> bool {
    match delta {
        None => is_scaled_profile(s, length, points),
        Some(d) => s.op == (Op::Offset { delta: d, chamfer: true }) && s.children@.len() == 1
            && is_scaled_profile(s.children@[0], length, points),
    }
}

/// Extent of a box along y once translated by `ty`: from `.0` to `.1`.
pub open spec fn y_extent(ty: (int, int), width: (int, int), centered: bool) -> ((int, int), (int, int)) {
    if centered {
        (q_sub(ty, q_half(width)), q_add(ty, q_half(width)))
    } else {
        (ty, q_add(ty, width))
    }
}

/// Extent along y of a translated box, as built by a cutoff box.
pub open spec fn block_y_extent(b: Shape) -> ((int, int), (int, int)) {
    let cube = b.children@[0].op;
    y_extent(b.op->Translate_0.y@, cube->size.y@, cube->center_y)
}

pub open spec fn direction_offset(dir: CutoffDirection) -> (int, int) {
    match dir {
        CutoffDirection::Down => q_neg(far()),
        _ => zero(),
    }
}

/// `b` is a flat box of chordwise length `length` starting at `start`,
/// placed at span station `z`.
pub open spec fn is_cutoff_block(
    b: Shape,
    dir: CutoffDirection,
    start: (int, int),
    length: (int, int),
    z: (int, int),
) -> bool {
    &&& is_translate(b, start, direction_offset(dir), z)
    &&& is_cube(
        b.children@[0],
        length,
        far(),
        (CAP_THOUSANDTHS as int, 1000),
        false,
        dir is Both,
        false,
    )
}

/// Inward offset of the foam-core sections.
pub const FOAM_SHRINK: i64 = 2;

/// Chordwise distance from the leading edge at which the foam core starts.
pub const FOAM_FRONT_STOP: i64 = 10;

/// Chordwise distance from the trailing edge at which the upper foam cut ends.
pub const FOAM_UPPER_BACK_STOP: i64 = 40;

/// Chordwise distance from the trailing edge at which the lower foam cut ends.
pub const FOAM_LOWER_BACK_STOP: i64 = 35;

/// Chordwise width of the control surface.
pub const CONTROL_WIDTH: i64 = 30;

/// The control surface spans from half the wingspan ...
pub const CONTROL_START_NUM: i64 = 1;
pub const CONTROL_START_DEN: i64 = 2;

/// ... to nineteen twentieths of it.
pub const CONTROL_END_NUM: i64 = 19;
pub const CONTROL_END_DEN: i64 = 20;

/// Thickness of a control surface.
pub const CONTROL_SURFACE_THICKNESS: i64 = 4;

/// The sign of an angle.
pub open spec fn angle_sign(a: Angle) -> int {
    match a {
        Angle::Degrees(d) => q_sign(d@),
        Angle::Slope { rise, run } => if rise.num != 0 {
            q_sign(rise@)
        } else if run.num < 0 {
            1
        } else {
            0
        },
    }
}

/// Chordwise length of a foam cut that stops `back_stop` short of the
/// trailing edge of a chord of `length`.
pub open spec fn foam_cut_length(length: (int, int), back_stop: i64) -> (int, int) {
    q_sub(q_sub(length, q_int(FOAM_FRONT_STOP as int)), q_int(back_stop as int))
}

pub struct Wing {
    pub inner_length: Num,
    pub airfoil: Airfoil,
    pub outer_length: Num,
    pub wingspan: Num,
    pub extrude_thickness: Num,
    pub spar_radius: Num,
}

impl Wing {
    /// Chords and span are positive; every parameter is small.
    pub open spec fn wf(&self) -> bool {
        &&& self.inner_length.small() && self.inner_length.is_pos()
        &&& self.outer_length.small() && self.outer_length.is_pos()
        &&& self.wingspan.small() && self.wingspan.is_pos()
        &&& self.extrude_thickness.small()
        &&& self.spar_radius.small()
    }

    /// The wing that `new` makes on `airfoil`.
    pub open spec fn spec_default(airfoil: Airfoil) -> Wing {
        Wing {
            inner_length: Num { num: 140, den: 1 },
            airfoil,
            outer_length: Num { num: 100, den: 1 },
            wingspan: Num { num: 500, den: 1 },
            extrude_thickness: Num { num: 1, den: 10 },
            spar_radius: Num { num: 5, den: 1 },
        }
    }

    /// A wing with root chord 140, tip chord 100, span 500, end caps 0.1
    /// thick and spar radius 5.
    pub fn new(airfoil: Airfoil) -> (r: Wing)
        ensures
            r.wf(),
            r.inner_length@ == q_int(140),
            r.outer_length@ == q_int(100),
            r.wingspan@ == q_int(500),
            r.extrude_thickness@ == (1int, 10int),
            r.spar_radius@ == q_int(5),
            r.airfoil == airfoil,
            r == Wing::spec_default(airfoil),
    {
        Wing {
            inner_length: Num::whole(140),
            airfoil,
            outer_length: Num::whole(100),
            wingspan: Num::whole(500),
            extrude_thickness: Num::ratio(1, 10),
            spar_radius: Num::whole(5),
        }
    }

    /// `s` lofts the section at the root chord (at z = 0) to the one at the
    /// tip chord (ending at z = wingspan): the hull of two thin slabs.
    pub open spec fn is_loft(&self, s: Shape, delta: Option<Num>) -> bool {
        let pts = self.airfoil.points@;
        let root = s.children@[0];
        let tip = s.children@[1];
        &&& s.op == Op::Hull && s.children@.len() == 2
        &&& is_extrusion(root, self.extrude_thickness)
        &&& is_section(root.children@[0], self.inner_length, pts, delta)
        &&& is_translate(tip, zero(), zero(), q_sub(self.wingspan@, self.extrude_thickness@))
        &&& is_extrusion(tip.children@[0], self.extrude_thickness)
        &&& is_section(tip.children@[0].children@[0], self.outer_length, pts, delta)
    }

    /// The airfoil scaled to `length`.
    fn scaled_profile(&self, length: Num) -> (r: Shape)
        ensures
            is_scaled_profile(r, length, self.airfoil.points@),
    {
        let points = self.airfoil.points.clone();
        assert(points@ =~= self.airfoil.points@);
        Shape::wrap(Op::Scale2d(vec2(length, length)), Shape::polygon(points))
    }

    fn exterior_inner_shape(&self) -> (r: Shape)
        ensures
            is_scaled_profile(r, self.inner_length, self.airfoil.points@),
    {
        self.scaled_profile(self.inner_length)
    }

    fn exterior_outer_shape(&self) -> (r: Shape)
        ensures
            is_scaled_profile(r, self.outer_length, self.airfoil.points@),
    {
        self.scaled_profile(self.outer_length)
    }

    /// A slab of the end-cap thickness from the 2D `section`.
    fn extrude_cap(&self, section: Shape) -> (r: Shape)
        ensures
            is_extrusion(r, self.extrude_thickness),
            r.children@[0] == section,
    {
        Shape::wrap(Op::LinearExtrude { height: self.extrude_thickness, center: false }, section)
    }

    /// The hull of a root slab from `inner` and a tip slab from `outer`.
    fn loft(&self, inner: Shape, outer: Shape) -> (r: Shape)
        requires
            self.wf(),
        ensures
            r.op == Op::Hull && r.children@.len() == 2,
            is_extrusion(r.children@[0], self.extrude_thickness),
            r.children@[0].children@[0] == inner,
            is_translate(
                r.children@[1],
                zero(),
                zero(),
                q_sub(self.wingspan@, self.extrude_thickness@),
            ),
            is_extrusion(r.children@[1].children@[0], self.extrude_thickness),
            r.children@[1].children@[0].children@[0] == outer,
    {
        let top = self.wingspan.sub(self.extrude_thickness);
        let tip = Shape::wrap(
            Op::Translate(vec3(Num::whole(0), Num::whole(0), top)),
            self.extrude_cap(outer),
        );
        Shape::pair(Op::Hull, self.extrude_cap(inner), tip)
    }

    /// The outer shell of the wing.
    pub fn exterior_model(&self) -> (r: Shape)
        requires
            self.wf(),
        ensures
            self.is_loft(r, None),
    {
        let inner = self.exterior_inner_shape();
        let outer = self.exterior_outer_shape();
        self.loft(inner, outer)
    }

    /// The foam-core cavity: the loft of the sections offset by `offset`.
    fn interior_cutout(&self, offset: Num) -> (r: Shape)
        requires
            self.wf(),
        ensures
            self.is_loft(r, Some(offset)),
    {
        let inner = Shape::wrap(
            Op::Offset { delta: offset, chamfer: true },
            self.exterior_inner_shape(),
        );
        let outer = Shape::wrap(
            Op::Offset { delta: offset, chamfer: true },
            self.exterior_outer_shape(),
        );
        self.loft(inner, outer)
    }

    /// `s` is the hull of a flat box at the root (from `inner_start`, of
    /// length `inner_length`) and one at the tip (from `outer_start`, of
    /// length `outer_length`), reaching to the side `dir`.
    pub open spec fn is_cutoff_box(
        &self,
        s: Shape,
        dir: CutoffDirection,
        inner_start: (int, int),
        inner_length: (int, int),
        outer_start: (int, int),
        outer_length: (int, int),
    ) -> bool {
        &&& s.op == Op::Hull && s.children@.len() == 2
        &&& is_cutoff_block(s.children@[0], dir, inner_start, inner_length, zero())
        &&& is_cutoff_block(s.children@[1], dir, outer_start, outer_length, self.wingspan@)
    }

    fn cutoff_block(dir: CutoffDirection, start: Num, length: Num, z: Num) -> (r: Shape)
        ensures
            is_cutoff_block(r, dir, start@, length@, z@),
    {
        let translation_y = match dir {
            CutoffDirection::Down => Num::whole(-FAR),
            _ => Num::whole(0),
        };
        let center_y = match dir {
            CutoffDirection::Both => true,
            _ => false,
        };
        let cube = Shape::leaf(
            Op::CenteredCube {
                size: vec3(length, Num::whole(FAR), Num::ratio(CAP_THOUSANDTHS, 1000)),
                center_x: false,
                center_y,
                center_z: false,
            },
        );
        Shape::wrap(Op::Translate(vec3(start, translation_y, z)), cube)
    }

    /// A trim volume that follows the taper of the wing.
    pub fn wing_shaped_cutoff_box(
        &self,
        dir: CutoffDirection,
        inner_start: Num,
        inner_length: Num,
        outer_start: Num,
        outer_length: Num,
    ) -> (r: Result<Shape, GeometryError>)
        requires
            self.wf(),
        ensures
            r is Err <==> !(inner_length.is_pos() && outer_length.is_pos()),
            r is Ok ==> self.is_cutoff_box(
                r->Ok_0,
                dir,
                inner_start@,
                inner_length@,
                outer_start@,
                outer_length@,
            ),
    {
        if !inner_length.positive() || !outer_length.positive() {
            return Err(GeometryError::Degenerate);
        }
        let inner_block = Wing::cutoff_block(dir, inner_start, inner_length, Num::whole(0));
        let outer_block = Wing::cutoff_block(dir, outer_start, outer_length, self.wingspan);
        Ok(Shape::pair(Op::Hull, inner_block, outer_block))
    }

    /// `a` is the sweep angle of the trailing edge:
    /// `atan2(inner_length - outer_length, wingspan)`.
    pub open spec fn is_back_angle(&self, a: Angle) -> bool {
        &&& a is Slope
        &&& a->rise@ == q_sub(self.inner_length@, self.outer_length@)
        &&& a->run == self.wingspan
    }

    /// The angle between the trailing edge and the span axis.
    pub fn wing_back_angle(&self) -> (r: Angle)
        requires
            self.wf(),
        ensures
            self.is_back_angle(r),
    {
        Angle::Slope { rise: self.inner_length.sub(self.outer_length), run: self.wingspan }
    }

    /// `s` is the slot of a control surface `width` wide at the trailing
    /// edge, between the span fractions `start` and `end`, with its cut
    /// planes parallel to the trailing edge.
    pub open spec fn is_control_cutout(
        &self,
        s: Shape,
        start: (int, int),
        end: (int, int),
        width: (int, int),
    ) -> bool {
        let z_cutter = s.children@[1];
        let slab = z_cutter.children@[0];
        &&& s.op == Op::Intersection && s.children@.len() == 2
        &&& self.is_cutoff_box(
            s.children@[0],
            CutoffDirection::Both,
            q_sub(self.inner_length@, width),
            width,
            q_sub(self.outer_length@, width),
            width,
        )
        &&& z_cutter.op is Rotate && z_cutter.op->Rotate_1 == Axis::Y
        &&& self.is_back_angle(z_cutter.op->Rotate_0) && z_cutter.children@.len() == 1
        &&& is_translate(slab, zero(), zero(), q_mul(self.wingspan@, start))
        &&& is_cube(
            slab.children@[0],
            far(),
            far(),
            q_mul(q_sub(end, start), self.wingspan@),
            true,
            true,
            false,
        )
    }

    fn control_surface_cutout(&self, start_ratio: Num, end_ratio: Num, x_size: Num) -> (r: Result<
        Shape,
        GeometryError,
    >)
        requires
            self.wf(),
            start_ratio.small(),
            end_ratio.small(),
            x_size.small(),
        ensures
            r is Err <==> !(x_size.is_pos() && q_lt(start_ratio@, end_ratio@)),
            r is Ok ==> self.is_control_cutout(r->Ok_0, start_ratio@, end_ratio@, x_size@),
    {
        let start_z = self.wingspan.mul(start_ratio);
        let full_shape = self.wing_shaped_cutoff_box(
            CutoffDirection::Both,
            self.inner_length.sub(x_size),
            x_size,
            self.outer_length.sub(x_size),
            x_size,
        );
        let full_shape = match full_shape {
            Ok(s) => s,
            Err(e) => return Err(e),
        };
        let span_fraction = end_ratio.sub(start_ratio);
        let length = span_fraction.mul(self.wingspan);
        proof {
            lemma_sign_of_product(span_fraction.num as int, self.wingspan.num as int);
        }
        if !length.positive() {
            return Err(GeometryError::Degenerate);
        }
        let cube = Shape::leaf(
            Op::CenteredCube {
                size: vec3(Num::whole(FAR), Num::whole(FAR), length),
                center_x: true,
                center_y: true,
                center_z: false,
            },
        );
        let translated = Shape::wrap(Op::Translate(vec3(Num::whole(0), Num::whole(0), start_z)), cube);
        let z_cutter = Shape::wrap(Op::Rotate(self.wing_back_angle(), Axis::Y), translated);
        Ok(Shape::pair(Op::Intersection, full_shape, z_cutter))
    }

    /// Both foam cuts have positive length: the root and tip chords are
    /// longer than the front stop and the longer back stop together.
    pub open spec fn foam_fits(&self) -> bool {
        &&& foam_cut_length(self.inner_length@, FOAM_UPPER_BACK_STOP).0 > 0
        &&& foam_cut_length(self.outer_length@, FOAM_UPPER_BACK_STOP).0 > 0
    }

    /// `s` is the shell with the foam cuts taken out at the front and back.
    pub open spec fn is_trimmed_shell(&self, s: Shape) -> bool {
        let front = q_int(FOAM_FRONT_STOP as int);
        &&& s.op == Op::Difference && s.children@.len() == 3
        &&& self.is_loft(s.children@[0], None)
        &&& self.is_cutoff_box(
            s.children@[1],
            CutoffDirection::Up,
            front,
            foam_cut_length(self.inner_length@, FOAM_UPPER_BACK_STOP),
            front,
            foam_cut_length(self.outer_length@, FOAM_UPPER_BACK_STOP),
        )
        &&& self.is_cutoff_box(
            s.children@[2],
            CutoffDirection::Down,
            front,
            foam_cut_length(self.inner_length@, FOAM_LOWER_BACK_STOP),
            front,
            foam_cut_length(self.outer_length@, FOAM_LOWER_BACK_STOP),
        )
    }

    /// `s` is the full rib stock: the foam cavity joined with the trimmed
    /// shell, less the control-surface slot.
    pub open spec fn is_rib_shape(&self, s: Shape) -> bool {
        let joined = s.children@[0];
        &&& s.op == Op::Difference && s.children@.len() == 2
        &&& joined.op == Op::Union && joined.children@.len() == 2
        &&& self.is_loft(joined.children@[0], Some(Num { num: -FOAM_SHRINK as i128, den: 1 }))
        &&& self.is_trimmed_shell(joined.children@[1])
        &&& self.is_control_cutout(
            s.children@[1],
            (CONTROL_START_NUM as int, CONTROL_START_DEN as int),
            (CONTROL_END_NUM as int, CONTROL_END_DEN as int),
            q_int(CONTROL_WIDTH as int),
        )
    }

    fn foam_cutoff(&self, dir: CutoffDirection, back_stop: i64) -> (r: Result<Shape, GeometryError>)
        requires
            self.wf(),
            0 <= back_stop <= 100,
        ensures
            r is Err <==> !(foam_cut_length(self.inner_length@, back_stop).0 > 0
                && foam_cut_length(self.outer_length@, back_stop).0 > 0),
            r is Ok ==> self.is_cutoff_box(
                r->Ok_0,
                dir,
                q_int(FOAM_FRONT_STOP as int),
                foam_cut_length(self.inner_length@, back_stop),
                q_int(FOAM_FRONT_STOP as int),
                foam_cut_length(self.outer_length@, back_stop),
            ),
    {
        let front = Num::whole(FOAM_FRONT_STOP);
        let back = Num::whole(back_stop);
        let inner = self.inner_length.sub(front).sub(back);
        let outer = self.outer_length.sub(front).sub(back);
        self.wing_shaped_cutoff_box(dir, front, inner, front, outer)
    }

    /// The shape from which ribs are cut: shell, foam core and control-surface
    /// slot. Fails when a chord is too short for the foam cuts.
    pub fn extruded_rib_shape(&self) -> (r: Result<Shape, GeometryError>)
        requires
            self.wf(),
        ensures
            r is Err <==> !self.foam_fits(),
            r is Ok ==> self.is_rib_shape(r->Ok_0),
    {
        let upper = match self.foam_cutoff(CutoffDirection::Up, FOAM_UPPER_BACK_STOP) {
            Ok(s) => s,
            Err(e) => return Err(e),
        };
        let lower = match self.foam_cutoff(CutoffDirection::Down, FOAM_LOWER_BACK_STOP) {
            Ok(s) => s,
            Err(e) => return Err(e),
        };
        let mut trims = Vec::new();
        trims.push(self.exterior_model());
        trims.push(upper);
        trims.push(lower);
        let front_and_back = Shape { op: Op::Difference, children: trims };
        let cavity = self.interior_cutout(Num::whole(-FOAM_SHRINK));
        let slot = self.control_surface_cutout(
            Num::ratio(CONTROL_START_NUM, CONTROL_START_DEN),
            Num::ratio(CONTROL_END_NUM, CONTROL_END_DEN),
            Num::whole(CONTROL_WIDTH),
        );
        let slot = match slot {
            Ok(s) => s,
            Err(e) => return Err(e),
        };
        Ok(Shape::pair(Op::Difference, Shape::pair(Op::Union, cavity, front_and_back), slot))
    }

    /// Distance between neighbouring ribs: `(wingspan - thickness) / count`,
    /// so that the last rib ends exactly at the tip.
    pub open spec fn rib_separation(&self, thickness: (int, int), count: int) -> (int, int) {
        q_div(q_sub(self.wingspan@, thickness), count)
    }

    /// Span station at which rib `index` starts.
    pub open spec fn rib_offset(&self, thickness: (int, int), count: int, index: int) -> (int, int) {
        q_scale(self.rib_separation(thickness, count), index)
    }

    /// `(wingspan - thickness) / count`.
    pub fn wing_rib_separation(&self, thickness: Num, count: usize) -> (r: Num)
        requires
            self.wf(),
            thickness.small(),
            count > 0,
        ensures
            r@ == self.rib_separation(thickness@, count as int),
            -OPERAND_LIMIT <= r.num <= OPERAND_LIMIT,
    {
        let span = self.wingspan.sub(thickness);
        proof {
            lemma_mul_bound(span.den as int, count as int, OPERAND_LIMIT as int, 0x1_0000_0000_0000_0000);
        }
        span.div(count as u64)
    }

    /// Rib `index` of `count` can be cut: the count and thickness are
    /// positive, the rib is no thicker than the wingspan, and the foam cuts
    /// fit.
    pub open spec fn rib_ok(&self, thickness: Num, count: int) -> bool {
        &&& count > 0 && thickness.is_pos()
        &&& q_le(thickness@, self.wingspan@)
        &&& self.foam_fits()
    }

    /// `s` is rib `index` of `count`, `thickness` deep: the rib stock cut by a
    /// slab at the rib's station, moved back to start at z = 0.
    pub open spec fn is_rib(&self, s: Shape, index: int, thickness: Num, count: int) -> bool {
        let offset = self.rib_offset(thickness@, count, index);
        let cut = s.children@[0];
        let cutter = cut.children@[1];
        &&& is_translate(s, zero(), zero(), q_neg(offset))
        &&& cut.op == Op::Intersection && cut.children@.len() == 2
        &&& self.is_rib_shape(cut.children@[0])
        &&& is_translate(cutter, zero(), zero(), offset)
        &&& is_cube(cutter.children@[0], far(), far(), thickness@, true, true, false)
    }

    /// Rib `index` of `count` evenly spaced ribs, `thickness` deep, placed to
    /// start at z = 0.
    pub fn get_wing_rib(&self, index: usize, thickness: Num, count: usize) -> (r: Result<
        Shape,
        GeometryError,
    >)
        requires
            self.wf(),
            thickness.small(),
        ensures
            r is Err <==> !self.rib_ok(thickness, count as int),
            r is Ok ==> self.is_rib(r->Ok_0, index as int, thickness, count as int),
    {
        if count == 0 || !thickness.positive() || !thickness.le(self.wingspan) {
            return Err(GeometryError::Degenerate);
        }
        let shape = match self.extruded_rib_shape() {
            Ok(s) => s,
            Err(e) => return Err(e),
        };
        let offset = self.rib_offset_exec(thickness, count, index);
        let slab = Shape::leaf(
            Op::CenteredCube {
                size: vec3(Num::whole(FAR), Num::whole(FAR), thickness),
                center_x: true,
                center_y: true,
                center_z: false,
            },
        );
        let cutter = Shape::wrap(Op::Translate(vec3(Num::whole(0), Num::whole(0), offset)), slab);
        let cut = Shape::pair(Op::Intersection, shape, cutter);
        Ok(Shape::wrap(Op::Translate(vec3(Num::whole(0), Num::whole(0), offset.neg())), cut))
    }

    fn rib_offset_exec(&self, thickness: Num, count: usize, index: usize) -> (r: Num)
        requires
            self.wf(),
            thickness.small(),
            count > 0,
        ensures
            r@ == self.rib_offset(thickness@, count as int, index as int),
            r.num > i128::MIN,
    {
        let separation = self.wing_rib_separation(thickness, count);
        proof {
            lemma_mul_bound(separation.num as int, index as int, OPERAND_LIMIT as int, 0x1_0000_0000_0000_0000);
        }
        separation.scale(index as u64)
    }

    /// All `count` ribs, each at its own span station.
    pub fn all_wing_ribs(&self, thickness: Num, count: usize) -> (r: Result<Shape, GeometryError>)
        requires
            self.wf(),
            thickness.small(),
        ensures
            r is Err <==> count > 0 && !self.rib_ok(thickness, count as int),
            r is Ok ==> {
                let s = r->Ok_0;
                &&& s.op == Op::Union
                &&& s.children@.len() == count
                &&& forall|i: int|
                    0 <= i < count ==> {
                        let placed = #[trigger] s.children@[i];
                        &&& is_translate(
                            placed,
                            zero(),
                            zero(),
                            self.rib_offset(thickness@, count as int, i),
                        )
                        &&& self.is_rib(placed.children@[0], i, thickness, count as int)
                    }
            },
    {
        let mut ribs: Vec<Shape> = Vec::new();
        let mut i: usize = 0;
        while i < count
            invariant
                self.wf(),
                thickness.small(),
                i <= count,
                ribs@.len() == i,
                i > 0 ==> self.rib_ok(thickness, count as int),
                forall|k: int|
                    0 <= k < i ==> {
                        let placed = #[trigger] ribs@[k];
                        &&& is_translate(
                            placed,
                            zero(),
                            zero(),
                            self.rib_offset(thickness@, count as int, k),
                        )
                        &&& self.is_rib(placed.children@[0], k, thickness, count as int)
                    },
            decreases count - i,
        {
            let rib = match self.get_wing_rib(i, thickness, count) {
                Ok(s) => s,
                Err(e) => return Err(e),
            };
            let offset = self.rib_offset_exec(thickness, count, i);
            ribs.push(Shape::wrap(Op::Translate(vec3(Num::whole(0), Num::whole(0), offset)), rib));
            i = i + 1;
        }
        Ok(Shape { op: Op::Union, children: ribs })
    }

    /// `s` is a control surface of chordwise size `x_size` spanning the
    /// fraction `length_ratio` of the wingspan: a thin triangle extruded along
    /// the span.
    pub open spec fn is_control_surface(&self, s: Shape, length_ratio: Num, x_size: Num) -> bool {
        let t = q_int(CONTROL_SURFACE_THICKNESS as int);
        let pts = s.children@[0].op->Polygon_0@;
        &&& s.op is LinearExtrude && s.op->height@ == q_mul(length_ratio@, self.wingspan@)
        &&& !s.op->center && s.children@.len() == 1
        &&& s.children@[0].op is Polygon && s.children@[0].children@.len() == 0
        &&& pts.len() == 3
        &&& pts[0].x@ == zero() && pts[0].y@ == q_half(t)
        &&& pts[1].x@ == q_sub(x_size@, q_half(t)) && pts[1].y@ == zero()
        &&& pts[2].x@ == t && pts[2].y@ == q_neg(q_half(t))
    }

    /// A control surface to fit the slot of the wing. Fails unless
    /// `length_ratio` is positive.
    pub fn control_surface(&self, length_ratio: Num, x_size: Num) -> (r: Result<Shape, GeometryError>)
        requires
            self.wf(),
            length_ratio.small(),
            x_size.small(),
        ensures
            r is Err <==> !length_ratio.is_pos(),
            r is Ok ==> self.is_control_surface(r->Ok_0, length_ratio, x_size),
    {
        let height = length_ratio.mul(self.wingspan);
        proof {
            lemma_sign_of_product(length_ratio.num as int, self.wingspan.num as int);
        }
        if !height.positive() {
            return Err(GeometryError::Degenerate);
        }
        let thickness = Num::whole(CONTROL_SURFACE_THICKNESS);
        let half = thickness.half();
        let mut points = Vec::new();
        points.push(vec2(Num::whole(0), half));
        points.push(vec2(x_size.sub(half), Num::whole(0)));
        points.push(vec2(thickness, half.neg()));
        let profile = Shape::polygon(points);
        Ok(Shape::wrap(Op::LinearExtrude { height, center: false }, profile))
    }
}


/// A product with a positive factor has the sign of the other factor.
pub proof fn lemma_sign_of_product(a: int, b: int)
    requires
        b > 0,
    ensures
        (a * b > 0) == (a > 0),
{
    if a > 0 {
        lemma_pos_product(a, b);
    } else {
        assert(a * b <= 0) by (nonlinear_arith)
            requires
                a <= 0,
                b > 0,
        ;
    }
}

/// The exterior begins at z = 0 with the airfoil scaled by the root chord and
/// ends exactly at z = wingspan with the airfoil scaled by the tip chord; each
/// end is a slab of the end-cap thickness.
pub proof fn lemma_exterior_end_sections(w: Wing, s: Shape)
    requires
        w.wf(),
        w.is_loft(s, None),
    ensures
        is_extrusion(s.children@[0], w.extrude_thickness),
        is_scaled_profile(s.children@[0].children@[0], w.inner_length, w.airfoil.points@),
        is_translate(s.children@[1], zero(), zero(), s.children@[1].op->Translate_0.z@),
        q_eq(q_add(s.children@[1].op->Translate_0.z@, w.extrude_thickness@), w.wingspan@),
        is_extrusion(s.children@[1].children@[0], w.extrude_thickness),
        is_scaled_profile(
            s.children@[1].children@[0].children@[0],
            w.outer_length,
            w.airfoil.points@,
        ),
{
    let sn = w.wingspan.num as int;
    let sd = w.wingspan.den as int;
    let en = w.extrude_thickness.num as int;
    let ed = w.extrude_thickness.den as int;
    assert(((sn * ed - en * sd) * ed + en * (sd * ed)) * sd == sn * ((sd * ed) * ed))
        by (nonlinear_arith);
}

/// With a rib no thicker than the span, the last of `count` ribs starts no
/// further out than `wingspan - thickness`, so it ends within the wing.
pub proof fn lemma_last_rib_within_span(w: Wing, thickness: Num, count: int)
    requires
        w.wf(),
        thickness.small(),
        count >= 1,
        q_le(thickness@, w.wingspan@),
    ensures
        w.rib_separation(thickness@, count) == q_div(q_sub(w.wingspan@, thickness@), count),
        q_le(w.rib_offset(thickness@, count, count - 1), q_sub(w.wingspan@, thickness@)),
{
    let d = q_sub(w.wingspan@, thickness@);
    let a = d.0;
    let b = d.1;
    lemma_pos_product(w.wingspan.den as int, thickness.den as int);
    assert(a >= 0);
    assert((a * (count - 1)) * b <= a * (b * count)) by (nonlinear_arith)
        requires
            a >= 0,
            b > 0,
            count >= 1,
    ;
}

/// A cutoff box reaching to both sides spans y from `-FAR / 2` to `FAR / 2`;
/// one reaching up spans y from 0 to `FAR`, one reaching down from `-FAR`
/// to 0.
pub proof fn lemma_cutoff_box_sides(
    w: Wing,
    s: Shape,
    dir: CutoffDirection,
    inner_start: (int, int),
    inner_length: (int, int),
    outer_start: (int, int),
    outer_length: (int, int),
)
    requires
        w.is_cutoff_box(s, dir, inner_start, inner_length, outer_start, outer_length),
    ensures
        forall|i: int|
            0 <= i < 2 ==> {
                let e = #[trigger] block_y_extent(s.children@[i]);
                &&& dir is Both ==> q_eq(e.0, q_neg(q_half(far()))) && q_eq(e.1, q_half(far()))
                &&& dir is Up ==> q_eq(e.0, zero()) && q_eq(e.1, far()) && q_lt(e.0, e.1)
                &&& dir is Down ==> q_eq(e.0, q_neg(far())) && q_eq(e.1, zero()) && q_lt(e.0, e.1)
            },
{
}

/// The sweep angle is zero exactly when the chords are equal, and its sign
/// is that of `inner_length - outer_length`.
pub proof fn lemma_back_angle_sign(w: Wing, a: Angle)
    requires
        w.wf(),
        w.is_back_angle(a),
    ensures
        angle_sign(a) == q_sign(q_sub(w.inner_length@, w.outer_length@)),
        angle_sign(a) == 0 <==> q_eq(w.inner_length@, w.outer_length@),
        q_lt(w.outer_length@, w.inner_length@) ==> angle_sign(a) > 0,
        q_lt(w.inner_length@, w.outer_length@) ==> angle_sign(a) < 0,
{
}

/// A rib is cut by a slab from its station `offset` to `offset + thickness`
/// and moved back by `offset`, so it spans z from 0 to `thickness`.
pub proof fn lemma_rib_recentered(w: Wing, s: Shape, index: int, thickness: Num, count: int)
    requires
        w.wf(),
        thickness.small(),
        count > 0,
        w.is_rib(s, index, thickness, count),
    ensures
        q_eq(q_add(s.children@[0].children@[1].op->Translate_0.z@, s.op->Translate_0.z@), zero()),
        s.children@[0].children@[1].children@[0].op->size.z@ == thickness@,
        !s.children@[0].children@[1].children@[0].op->center_z,
{
    let o = w.rib_offset(thickness@, count, index);
    assert((o.0 * o.1 + (-o.0) * o.1) * 1 == 0 * (o.1 * o.1)) by (nonlinear_arith);
}

} // verus!
