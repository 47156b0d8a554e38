//! A fuselage formed as the intersection of a plan-view and a side-view
//! extrusion.
use vstd::prelude::*;
use crate::num::{q_half, q_int, q_lt, q_neg, q_sub, vec2, Num, Vec2};
use crate::shape::{Angle, Axis, Op, Shape};

verus! {

/// Radius of the elliptic nose along the fuselage axis.
pub const NOSE_RADIUS: i64 = 100;

/// Length of the prisms that are intersected into the fuselage.
pub const PRISM_LENGTH: i64 = 1000;

/// The six corners of a tapered outline: `back_half` either side of the axis
/// at the tail, `half_width` at `wing_start` and at `front`.
pub open spec fn is_hexagon(
    pts: Seq<Vec2>,
    back_half: (int, int),
    wing_start: (int, int),
    half_width: (int, int),
    front: (int, int),
) -> bool {
    &&& pts.len() == 6
    &&& pts[0].x@ == q_int(0) && pts[0].y@ == back_half
    &&& pts[1].x@ == wing_start && pts[1].y@ == half_width
    &&& pts[2].x@ == front && pts[2].y@ == half_width
    &&& pts[3].x@ == front && pts[3].y@ == q_neg(half_width)
    &&& pts[4].x@ == wing_start && pts[4].y@ == q_neg(half_width)
    &&& pts[5].x@ == q_int(0) && pts[5].y@ == q_neg(back_half)
}

/// `s` extrudes its one child to `PRISM_LENGTH`, centered on z = 0.
pub open spec fn is_prism(s: Shape) -> bool {
    s.op is LinearExtrude && s.op->height@ == q_int(PRISM_LENGTH as int) && s.op->center
        && s.children@.len() == 1
}

pub struct Fuselage {
    pub x_length: Num,
    pub y_width: Num,
    pub z_height: Num,
    pub back_y_width: Num,
    pub wing_start: Num,
}

impl Fuselage {
    /// Every parameter is small and the wing root lies strictly inside the
    /// fuselage.
    pub open spec fn wf(&self) -> bool {
        &&& self.x_length.small() && self.y_width.small() && self.z_height.small()
        &&& self.back_y_width.small() && self.wing_start.small()
        &&& q_lt(q_int(0), self.wing_start@) && q_lt(self.wing_start@, self.x_length@)
    }

    /// The fuselage that `new` makes.
    pub open spec fn spec_default() -> Fuselage {
        Fuselage {
            x_length: Num { num: 400, den: 1 },
            y_width: Num { num: 40, den: 1 },
            z_height: Num { num: 40, den: 1 },
            back_y_width: Num { num: 22, den: 1 },
            wing_start: Num { num: 150, den: 1 },
        }
    }

    /// Length 400, width 40, height 40, tail width 22, wing root at 150.
    pub fn new() -> (r: Fuselage)
        ensures
            r == Fuselage::spec_default(),
            r.wf(),
            r.x_length@ == q_int(400),
            r.y_width@ == q_int(40),
            r.z_height@ == q_int(40),
            r.back_y_width@ == q_int(22),
            r.wing_start@ == q_int(150),
    {
        Fuselage {
            x_length: Num::whole(400),
            y_width: Num::whole(40),
            z_height: Num::whole(40),
            back_y_width: Num::whole(22),
            wing_start: Num::whole(150),
        }
    }

    /// Station where the elliptic nose is centered.
    pub open spec fn front_x(&self) -> (int, int) {
        q_sub(self.x_length@, q_int(NOSE_RADIUS as int))
    }

    fn hexagon(&self, front: Num) -> (r: Vec<Vec2>)
        requires
            self.wf(),
        ensures
            is_hexagon(
                r@,
                q_half(self.back_y_width@),
                self.wing_start@,
                q_half(self.y_width@),
                front@,
            ),
    {
        let back = self.back_y_width.half();
        let side = self.y_width.half();
        let zero = Num::whole(0);
        let mut points = Vec::new();
        points.push(vec2(zero, back));
        points.push(vec2(self.wing_start, side));
        points.push(vec2(front, side));
        points.push(vec2(front, side.neg()));
        points.push(vec2(self.wing_start, side.neg()));
        points.push(vec2(zero, back.neg()));
        points
    }

    /// The plan-view outline: from the tail width to the full width at the
    /// wing root, then full width to the nose.
    pub fn xy_outline(&self) -> (r: Shape)
        requires
            self.wf(),
        ensures
            r.op is Polygon && r.children@.len() == 0,
            is_hexagon(
                r.op->Polygon_0@,
                q_half(self.back_y_width@),
                self.wing_start@,
                q_half(self.y_width@),
                self.x_length@,
            ),
    {
        Shape::polygon(self.hexagon(self.x_length))
    }

    /// `s` is the side-view outline: the tapered outline up to the nose
    /// station, joined with an ellipse of radius `NOSE_RADIUS` along the axis
    /// and half the height across it, centered there.
    pub open spec fn is_side_outline(&self, s: Shape) -> bool {
        let body = s.children@[0];
        let nose = s.children@[1];
        let stretched = nose.children@[0];
        &&& s.op == Op::Union && s.children@.len() == 2
        &&& body.op is Polygon && body.children@.len() == 0
        &&& is_hexagon(
            body.op->Polygon_0@,
            q_half(self.back_y_width@),
            self.wing_start@,
            q_half(self.y_width@),
            self.front_x(),
        )
        &&& nose.op is Translate2d && nose.op->Translate2d_0.x@ == self.front_x()
        &&& nose.op->Translate2d_0.y@ == q_int(0) && nose.children@.len() == 1
        &&& stretched.op is Scale2d && stretched.op->Scale2d_0.x@ == q_int(NOSE_RADIUS as int)
        &&& stretched.op->Scale2d_0.y@ == q_half(self.z_height@) && stretched.children@.len() == 1
        &&& stretched.children@[0].op is Circle && stretched.children@[0].op->Circle_0@ == q_int(1)
        &&& stretched.children@[0].children@.len() == 0
    }

    /// The side-view outline with its elliptic nose.
    pub fn xz_outline(&self) -> (r: Shape)
        requires
            self.wf(),
        ensures
            self.is_side_outline(r),
    {
        let front_x = self.x_length.sub(Num::whole(NOSE_RADIUS));
        let body = Shape::polygon(self.hexagon(front_x));
        let circle = Shape::leaf(Op::Circle(Num::whole(1)));
        let stretched = Shape::wrap(
            Op::Scale2d(vec2(Num::whole(NOSE_RADIUS), self.z_height.half())),
            circle,
        );
        let nose = Shape::wrap(Op::Translate2d(vec2(front_x, Num::whole(0))), stretched);
        Shape::pair(Op::Union, body, nose)
    }

    /// `r` is the fuselage volume: the plan-view prism intersected with the
    /// side-view prism turned upright.
    pub open spec fn is_body(&self, r: Shape) -> bool {
        &&& r.op == Op::Intersection && r.children@.len() == 2
        &&& is_prism(r.children@[0])
        &&& r.children@[0].children@[0].op is Polygon
        &&& r.children@[0].children@[0].children@.len() == 0
        &&& is_hexagon(
            r.children@[0].children@[0].op->Polygon_0@,
            q_half(self.back_y_width@),
            self.wing_start@,
            q_half(self.y_width@),
            self.x_length@,
        )
        &&& r.children@[1].op is Rotate && r.children@[1].op->Rotate_1 == Axis::X
        &&& r.children@[1].op->Rotate_0 is Degrees
        &&& r.children@[1].op->Rotate_0->Degrees_0@ == q_int(90)
        &&& r.children@[1].children@.len() == 1
        &&& is_prism(r.children@[1].children@[0])
        &&& self.is_side_outline(r.children@[1].children@[0].children@[0])
    }

    /// The fuselage volume.
    pub fn get(&self) -> (r: Shape)
        requires
            self.wf(),
        ensures
            self.is_body(r),
    {
        let xy_shape = Shape::wrap(
            Op::LinearExtrude { height: Num::whole(PRISM_LENGTH), center: true },
            self.xy_outline(),
        );
        let xz_shape = Shape::wrap(
            Op::LinearExtrude { height: Num::whole(PRISM_LENGTH), center: true },
            self.xz_outline(),
        );
        let upright = Shape::wrap(Op::Rotate(Angle::Degrees(Num::whole(90)), Axis::X), xz_shape);
        Shape::pair(Op::Intersection, xy_shape, upright)
    }
}

} // verus!
