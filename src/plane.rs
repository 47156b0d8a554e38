//! Whole-aircraft scenes built from the parts.
use vstd::prelude::*;
use crate::fuselage::Fuselage;
use crate::num::{q_int, q_neg, q_scale, vec2, vec3, Num};
use crate::profile::Airfoil;
use crate::shape::{Angle, Axis, Op, Shape};
use crate::wing::{is_extrusion, is_scaled_profile, is_translate, zero, GeometryError, Wing};

verus! {

/// Spacing along y between ribs laid out side by side.
pub const RIB_SPACING: i64 = 15;

/// Thickness of the ribs of a layout.
pub const RIB_THICKNESS: i64 = 5;

/// Number of ribs in the wing.
pub const RIB_COUNT: usize = 8;

/// The airfoil scaled to `length` and extruded to `height`.
pub fn extrude_airfoil(airfoil: &Airfoil, length: Num, height: Num) -> (r: Shape)
    ensures
        is_extrusion(r, height),
        is_scaled_profile(r.children@[0], length, airfoil.points@),
{
    let points = airfoil.points.clone();
    assert(points@ =~= airfoil.points@);
    let profile = Shape::wrap(Op::Scale2d(vec2(length, length)), Shape::polygon(points));
    Shape::wrap(Op::LinearExtrude { height, center: false }, profile)
}

/// `s` is one wing of the plane: the rib stock with its root chord moved to
/// end at the origin, mirrored front to back and turned to lie along y.
pub open spec fn is_placed_wing(w: Wing, s: Shape) -> bool {
    let mirrored = s.children@[0];
    let moved = mirrored.children@[0];
    &&& s.op == Op::Rotate(Angle::Degrees(Num { num: 90, den: 1 }), Axis::X)
    &&& s.children@.len() == 1
    &&& mirrored.op == Op::Mirror(Axis::X) && mirrored.children@.len() == 1
    &&& is_translate(moved, q_neg(w.inner_length@), zero(), zero())
    &&& w.is_rib_shape(moved.children@[0])
}

fn placed_wing(w: &Wing) -> (r: Result<Shape, GeometryError>)
    requires
        w.wf(),
    ensures
        r is Err <==> !w.foam_fits(),
        r is Ok ==> is_placed_wing(*w, r->Ok_0),
{
    let shape = match w.extruded_rib_shape() {
        Ok(s) => s,
        Err(e) => return Err(e),
    };
    let moved = Shape::wrap(Op::Translate(vec3(w.inner_length.neg(), Num::whole(0), Num::whole(0))), shape);
    let mirrored = Shape::wrap(Op::Mirror(Axis::X), moved);
    Ok(Shape::wrap(Op::Rotate(Angle::Degrees(Num::whole(90)), Axis::X), mirrored))
}

/// The default wing on `airfoil`, both halves, joined with the default
/// fuselage.
pub fn assemble_plane(airfoil: Airfoil) -> (r: Shape)
    ensures
        r.op == Op::Union && r.children@.len() == 3,
        is_placed_wing(Wing::spec_default(airfoil), r.children@[0]),
        r.children@[1].op == Op::Mirror(Axis::Y) && r.children@[1].children@.len() == 1,
        is_placed_wing(Wing::spec_default(airfoil), r.children@[1].children@[0]),
        Fuselage::spec_default().is_body(r.children@[2]),
{
    let w = Wing::new(airfoil);
    let left = placed_wing(&w);
    let right = placed_wing(&w);
    match (left, right) {
        (Ok(left), Ok(right)) => {
            let mut parts = Vec::new();
            parts.push(left);
            parts.push(Shape::wrap(Op::Mirror(Axis::Y), right));
            parts.push(Fuselage::new().get());
            Shape { op: Op::Union, children: parts }
        },
        _ => {
            proof {
                assert(false);
            }
            Shape::leaf(Op::Union)
        },
    }
}

/// Ribs `start..end` of the default layout (eight ribs, five thick) of `w`,
/// laid out side by side, `RIB_SPACING` apart along y; none when `end` is not
/// past `start`.
pub fn wing_ribs(w: &Wing, start: usize, end: usize) -> (r: Result<Shape, GeometryError>)
    requires
        w.wf(),
    ensures
        r is Err <==> start < end && !w.rib_ok(
            Num { num: RIB_THICKNESS as i128, den: 1 },
            RIB_COUNT as int,
        ),
        r is Ok ==> {
            let s = r->Ok_0;
            &&& s.op == Op::Union
            &&& s.children@.len() == if start < end { end - start } else { 0 }
            &&& forall|k: int|
                0 <= k < end - start ==> {
                    let placed = #[trigger] s.children@[k];
                    &&& is_translate(placed, zero(), q_scale(q_int(RIB_SPACING as int), start + k), zero())
                    &&& w.is_rib(placed.children@[0], start + k, Num { num: RIB_THICKNESS as i128, den: 1 }, RIB_COUNT as int)
                }
        },
{
    let thickness = Num::whole(RIB_THICKNESS);
    let mut ribs: Vec<Shape> = Vec::new();
    let mut i = start;
    while i < end
        invariant
            w.wf(),
            start <= i,
            i <= end || i == start,
            thickness == (Num { num: RIB_THICKNESS as i128, den: 1 }),
            ribs@.len() == i - start,
            i > start ==> w.rib_ok(thickness, RIB_COUNT as int),
            forall|k: int|
                0 <= k < i - start ==> {
                    let placed = #[trigger] ribs@[k];
                    &&& is_translate(placed, zero(), q_scale(q_int(RIB_SPACING as int), start + k), zero())
                    &&& w.is_rib(placed.children@[0], start + k, thickness, RIB_COUNT as int)
                },
        decreases end - i,
    {
        let rib = match w.get_wing_rib(i, thickness, RIB_COUNT) {
            Ok(s) => s,
            Err(e) => return Err(e),
        };
        let y = Num::whole(RIB_SPACING).scale(i as u64);
        ribs.push(Shape::wrap(Op::Translate(vec3(Num::whole(0), y, Num::whole(0))), rib));
        i = i + 1;
    }
    Ok(Shape { op: Op::Union, children: ribs })
}

} // verus!
