//! A printable two-piece hinge made of interlocking combs of teeth, and a
//! block to test how a tooth fits.
use vstd::prelude::*;
use crate::num::{q_add, q_eq, q_half, q_le, q_lt, q_int, q_neg, q_scale, q_sub, vec2, vec3, Num, Vec2};
use crate::shape::{Axis, Op, Shape};

verus! {

/// Vertex `j` of `amount` teeth of outer half-height `outer` and pitch
/// `separation`, before halving: out along the top at heights `outer` and
/// `outer - 1` in turn, then back along the bottom mirrored.
pub open spec fn tooth_vertex(amount: int, outer: (int, int), separation: (int, int), j: int) -> ((int, int), (int, int)) {
    let inner = q_sub(outer, q_int(1));
    if j < 2 * amount {
        let k = j / 2;
        if j % 2 == 0 {
            (q_scale(separation, k), outer)
        } else {
            (q_scale(separation, k + 1), inner)
        }
    } else {
        let k = (j - 2 * amount) / 2;
        if j % 2 == 0 {
            (q_scale(separation, amount - k), q_neg(inner))
        } else {
            (q_scale(separation, amount - k - 1), q_neg(outer))
        }
    }
}

/// `pts` are the teeth outline, halved about the origin.
pub open spec fn is_teeth_outline(pts: Seq<Vec2>, amount: int, outer: (int, int), separation: (int, int)) -> bool {
    &&& pts.len() == 4 * amount
    &&& forall|j: int|
        0 <= j < 4 * amount ==> {
            let v = tooth_vertex(amount, outer, separation, j);
            &&& (#[trigger] pts[j]).x@ == q_half(v.0)
            &&& pts[j].y@ == q_half(v.1)
        }
}

/// `s` is a polygon through the halved teeth outline.
pub open spec fn is_teeth(s: Shape, amount: int, outer: (int, int), separation: (int, int)) -> bool {
    s.op is Polygon && s.children@.len() == 0 && is_teeth_outline(
        s.op->Polygon_0@,
        amount,
        outer,
        separation,
    )
}

/// `r` is the rectangle `[0, outer] x [-mid, mid]`, halved about the origin.
pub open spec fn is_mid_section(r: Shape, mid: (int, int), outer: (int, int)) -> bool {
    &&& r.op is Polygon && r.children@.len() == 0
    &&& r.op->Polygon_0@.len() == 4
    &&& r.op->Polygon_0@[0].x@ == q_half(q_int(0))
    &&& r.op->Polygon_0@[0].y@ == q_half(mid)
    &&& r.op->Polygon_0@[1].x@ == q_half(outer)
    &&& r.op->Polygon_0@[1].y@ == q_half(mid)
    &&& r.op->Polygon_0@[2].x@ == q_half(outer)
    &&& r.op->Polygon_0@[2].y@ == q_half(q_neg(mid))
    &&& r.op->Polygon_0@[3].x@ == q_half(q_int(0))
    &&& r.op->Polygon_0@[3].y@ == q_half(q_neg(mid))
}

/// The rectangle `[0, outer] x [-mid, mid]`, halved about the origin.
pub fn mid_section(mid_y_size: Num, outer_y_size: Num) -> (r: Shape)
    requires
        mid_y_size.small(),
        outer_y_size.small(),
    ensures
        is_mid_section(r, mid_y_size@, outer_y_size@),
{
    let zero = Num::whole(0).half();
    let top = mid_y_size.half();
    let bottom = mid_y_size.neg().half();
    let right = outer_y_size.half();
    let mut points = Vec::new();
    points.push(vec2(zero, top));
    points.push(vec2(right, top));
    points.push(vec2(right, bottom));
    points.push(vec2(zero, bottom));
    Shape::polygon(points)
}

/// `amount` interlocking prongs of pitch `separation`: a closed zig-zag out
/// along the top and back along the bottom, halved about the origin.
pub fn teeth(amount: usize, outer_y_size: Num, separation: Num) -> (r: Shape)
    requires
        outer_y_size.fits(),
        separation.small(),
        1 <= amount <= usize::MAX / 4,
    ensures
        is_teeth(r, amount as int, outer_y_size@, separation@),
{
    let inner_y_size = outer_y_size.sub(Num::whole(1));
    let mut points: Vec<Vec2> = Vec::new();
    let mut k: usize = 0;
    while k < amount
        invariant
            outer_y_size.fits(),
            separation.small(),
            amount <= usize::MAX / 4,
            inner_y_size@ == q_sub(outer_y_size@, q_int(1)),
            inner_y_size.wf(),
            inner_y_size.den <= 0x4000_0000_0000_0000,
            -0x8000_0000_0000_0000 <= inner_y_size.num <= 0x8000_0000_0000_0000,
            k <= amount,
            points@.len() == 2 * k,
            forall|j: int|
                0 <= j < 2 * k ==> {
                    let v = tooth_vertex(amount as int, outer_y_size@, separation@, j);
                    &&& (#[trigger] points@[j]).x@ == q_half(v.0)
                    &&& points@[j].y@ == q_half(v.1)
                },
        decreases amount - k,
    {
        proof {
            lemma_scale_fits(separation, k as int);
            lemma_scale_fits(separation, k as int + 1);
        }
        points.push(vec2(separation.scale(k as u64).half(), outer_y_size.half()));
        points.push(vec2(separation.scale(k as u64 + 1).half(), inner_y_size.half()));
        proof {
            assert forall|j: int| 0 <= j < 2 * (k + 1) implies {
                let v = tooth_vertex(amount as int, outer_y_size@, separation@, j);
                &&& (#[trigger] points@[j]).x@ == q_half(v.0)
                &&& points@[j].y@ == q_half(v.1)
            } by {
                if j >= 2 * k {
                    assert(j / 2 == k);
                }
            }
        }
        k = k + 1;
    }
    let mut k: usize = 0;
    while k < amount
        invariant
            outer_y_size.fits(),
            separation.small(),
            amount <= usize::MAX / 4,
            inner_y_size@ == q_sub(outer_y_size@, q_int(1)),
            inner_y_size.wf(),
            inner_y_size.den <= 0x4000_0000_0000_0000,
            -0x8000_0000_0000_0000 <= inner_y_size.num <= 0x8000_0000_0000_0000,
            k <= amount,
            points@.len() == 2 * amount + 2 * k,
            forall|j: int|
                0 <= j < 2 * amount + 2 * k ==> {
                    let v = tooth_vertex(amount as int, outer_y_size@, separation@, j);
                    &&& (#[trigger] points@[j]).x@ == q_half(v.0)
                    &&& points@[j].y@ == q_half(v.1)
                },
        decreases amount - k,
    {
        proof {
            lemma_scale_fits(separation, amount - k);
            lemma_scale_fits(separation, amount - k - 1);
        }
        points.push(vec2(separation.scale((amount - k) as u64).half(), inner_y_size.neg().half()));
        points.push(vec2(separation.scale((amount - k - 1) as u64).half(), outer_y_size.neg().half()));
        proof {
            assert forall|j: int| 0 <= j < 2 * amount + 2 * (k + 1) implies {
                let v = tooth_vertex(amount as int, outer_y_size@, separation@, j);
                &&& (#[trigger] points@[j]).x@ == q_half(v.0)
                &&& points@[j].y@ == q_half(v.1)
            } by {
                if j >= 2 * amount + 2 * k {
                    assert((j - 2 * amount) / 2 == k);
                }
            }
        }
        k = k + 1;
    }
    Shape::polygon(points)
}

/// A small multiple of a parameter stays inside `i128` and can be halved.
proof fn lemma_scale_fits(n: Num, k: int)
    requires
        n.small(),
        0 <= k <= usize::MAX,
    ensures
        i128::MIN <= n.num * k <= i128::MAX,
        -0x4000_0000_0000_0000_0000_0000 <= n.num * k <= 0x4000_0000_0000_0000_0000_0000,
{
    crate::num::lemma_mul_bound(n.num as int, k, 0x4000_0000, 0x1_0000_0000_0000_0000);
}

/// Teeth `outer_height + 1/2` high and `outer_height` apart, extruded to
/// `thickness`: the socket for a hinge tooth.
pub fn tooth_cutout(amount: usize, outer_height: Num, thickness: Num) -> (r: Shape)
    requires
        outer_height.small(),
        1 <= amount <= usize::MAX / 4,
    ensures
        r.op == (Op::LinearExtrude { height: thickness, center: false }),
        r.children@.len() == 1,
        r.children@[0].op is Polygon && r.children@[0].children@.len() == 0,
        is_teeth_outline(
            r.children@[0].op->Polygon_0@,
            amount as int,
            q_add(outer_height@, (1, 2)),
            outer_height@,
        ),
{
    let height = outer_height.add(Num::ratio(1, 2));
    Shape::wrap(Op::LinearExtrude { height: thickness, center: false }, teeth(amount, height, outer_height))
}

/// `s` is one comb of the hinge: the mid-section joined with the teeth moved
/// out by half a pitch, extruded to `thickness`.
pub open spec fn is_comb(s: Shape, tooth_amount: int, outer_height: Num, thickness: Num) -> bool {
    let moved = s.children@[1];
    &&& s.op == (Op::LinearExtrude { height: thickness, center: false })
    &&& s.children@.len() == 2
    &&& is_mid_section(s.children@[0], q_int(1), outer_height@)
    &&& moved.op is Translate2d && moved.op->Translate2d_0.x@ == q_half(outer_height@)
    &&& moved.op->Translate2d_0.y@ == q_int(0) && moved.children@.len() == 1
    &&& is_teeth(moved.children@[0], tooth_amount, outer_height@, outer_height@)
}

fn comb(tooth_amount: usize, outer_height: Num, thickness: Num) -> (r: Shape)
    requires
        outer_height.small(),
        1 <= tooth_amount <= usize::MAX / 4,
    ensures
        is_comb(r, tooth_amount as int, outer_height, thickness),
{
    let mid = mid_section(Num::whole(1), outer_height);
    let moved = Shape::wrap(
        Op::Translate2d(vec2(outer_height.half(), Num::whole(0))),
        teeth(tooth_amount, outer_height, outer_height),
    );
    Shape::pair(Op::LinearExtrude { height: thickness, center: false }, mid, moved)
}

/// Two interlocking combs: one comb joined with its mirror image across the
/// plane normal to x.
pub fn hinge(tooth_amount: usize, outer_height: Num, thickness: Num) -> (r: Shape)
    requires
        outer_height.small(),
        1 <= tooth_amount <= usize::MAX / 4,
    ensures
        r.op == Op::Union && r.children@.len() == 2,
        is_comb(r.children@[0], tooth_amount as int, outer_height, thickness),
        r.children@[1].op == Op::Mirror(Axis::X) && r.children@[1].children@.len() == 1,
        is_comb(r.children@[1].children@[0], tooth_amount as int, outer_height, thickness),
{
    let shape = comb(tooth_amount, outer_height, thickness);
    let mirrored = Shape::wrap(Op::Mirror(Axis::X), comb(tooth_amount, outer_height, thickness));
    Shape::pair(Op::Union, shape, mirrored)
}

/// A 12 x 8 x 6 block, centered across y, with a socket for five teeth of
/// height 3 cut 4 deep from z = 2.
pub fn test_mount() -> (r: Shape)
    ensures
        r.op == Op::Difference && r.children@.len() == 2,
        r.children@[0].op is CenteredCube && r.children@[0].children@.len() == 0,
        r.children@[0].op->size.x@ == q_int(12),
        r.children@[0].op->size.y@ == q_int(8),
        r.children@[0].op->size.z@ == q_int(6),
        !r.children@[0].op->center_x && r.children@[0].op->center_y,
        !r.children@[0].op->center_z,
        r.children@[1].op is Translate && r.children@[1].children@.len() == 1,
        r.children@[1].op->Translate_0.x@ == q_int(0),
        r.children@[1].op->Translate_0.y@ == q_int(0),
        r.children@[1].op->Translate_0.z@ == q_int(2),
        r.children@[1].children@[0].op == (Op::LinearExtrude { height: Num { num: 4, den: 1 }, center: false }),
        r.children@[1].children@[0].children@.len() == 1,
        r.children@[1].children@[0].children@[0].op is Polygon,
        is_teeth_outline(
            r.children@[1].children@[0].children@[0].op->Polygon_0@,
            5,
            q_add(q_int(3), (1, 2)),
            q_int(3),
        ),
{
    let block = Shape::leaf(
        Op::CenteredCube {
            size: vec3(Num::whole(12), Num::whole(8), Num::whole(6)),
            center_x: false,
            center_y: true,
            center_z: false,
        },
    );
    let socket = Shape::wrap(
        Op::Translate(vec3(Num::whole(0), Num::whole(0), Num::whole(2))),
        tooth_cutout(5, Num::whole(3), Num::whole(4)),
    );
    Shape::pair(Op::Difference, block, socket)
}

/// The hinge that fits the test mount: five teeth of height 3, 4 thick.
pub fn test_hinge() -> (r: Shape)
    ensures
        r.op == Op::Union && r.children@.len() == 2,
        is_comb(r.children@[0], 5, Num { num: 3, den: 1 }, Num { num: 4, den: 1 }),
        r.children@[1].op == Op::Mirror(Axis::X) && r.children@[1].children@.len() == 1,
        is_comb(r.children@[1].children@[0], 5, Num { num: 3, den: 1 }, Num { num: 4, den: 1 }),
{
    hinge(5, Num::whole(3), Num::whole(4))
}

/// `amount` teeth of outer half-height above 1 and positive pitch give
/// `4 * amount` vertices. The first half runs out along the top, strictly
/// above the axis, with x never decreasing. The second half runs back along
/// the bottom, strictly below the axis, with x never increasing. Both halves
/// span the same stations, from 0 to `amount` pitches. So the outline is a
/// closed polygon that is monotone in x, and it does not cross itself.
pub proof fn lemma_teeth_outline_simple(
    pts: Seq<Vec2>,
    amount: int,
    outer: (int, int),
    separation: (int, int),
)
    requires
        is_teeth_outline(pts, amount, outer, separation),
        amount >= 1,
        outer.1 > 0,
        q_lt(q_int(1), outer),
        separation.0 > 0,
        separation.1 > 0,
    ensures
        pts.len() == 4 * amount,
        forall|j: int| 0 <= j < 2 * amount ==> q_lt(q_int(0), #[trigger] pts[j].y@),
        forall|j: int| 2 * amount <= j < 4 * amount ==> q_lt(#[trigger] pts[j].y@, q_int(0)),
        forall|j: int| 0 <= j < 2 * amount - 1 ==> q_le(#[trigger] pts[j].x@, pts[j + 1].x@),
        forall|j: int| 2 * amount <= j < 4 * amount - 1 ==> q_le(pts[j + 1].x@, #[trigger] pts[j].x@),
        q_eq(pts[0].x@, q_int(0)),
        q_eq(pts[4 * amount - 1].x@, q_int(0)),
        q_eq(pts[2 * amount - 1].x@, pts[2 * amount].x@),
{
    assert forall|j: int| 0 <= j < 2 * amount - 1 implies q_le(#[trigger] pts[j].x@, pts[j + 1].x@) by {
        lemma_out_step(pts, amount, outer, separation, j);
    }
    assert forall|j: int| 2 * amount <= j < 4 * amount - 1 implies q_le(pts[j + 1].x@, #[trigger] pts[j].x@) by {
        lemma_back_step(pts, amount, outer, separation, j);
    }
    assert forall|j: int| 0 <= j < 4 * amount implies (j < 2 * amount ==> q_lt(q_int(0), #[trigger] pts[j].y@))
        && (j >= 2 * amount ==> q_lt(pts[j].y@, q_int(0))) by {
        lemma_vertex_side(pts, amount, outer, separation, j);
    }
    lemma_teeth_ends(pts, amount, outer, separation);
}

proof fn lemma_teeth_ends(pts: Seq<Vec2>, amount: int, outer: (int, int), separation: (int, int))
    requires
        is_teeth_outline(pts, amount, outer, separation),
        amount >= 1,
    ensures
        q_eq(pts[0].x@, q_int(0)),
        q_eq(pts[4 * amount - 1].x@, q_int(0)),
        q_eq(pts[2 * amount - 1].x@, pts[2 * amount].x@),
{
    assert(pts[0].x@ == q_half(q_scale(separation, 0)));
    assert((separation.0 * 0) * 1 == 0 * (separation.1 * 2)) by (nonlinear_arith);
    assert(q_eq(q_half(q_scale(separation, 0)), q_int(0)));
    assert(pts[4 * amount - 1].x@ == q_half(q_scale(separation, 0)));
    assert(pts[2 * amount - 1].x@ == q_half(q_scale(separation, amount)));
    assert(pts[2 * amount].x@ == q_half(q_scale(separation, amount)));
}

proof fn lemma_out_step(pts: Seq<Vec2>, amount: int, outer: (int, int), separation: (int, int), j: int)
    requires
        is_teeth_outline(pts, amount, outer, separation),
        separation.0 > 0,
        separation.1 > 0,
        0 <= j < 2 * amount - 1,
    ensures
        q_le(pts[j].x@, pts[j + 1].x@),
{
    let m = if j % 2 == 0 { j / 2 } else { j / 2 + 1 };
    let m_next = if (j + 1) % 2 == 0 { (j + 1) / 2 } else { (j + 1) / 2 + 1 };
    assert(pts[j].x@ == q_half(tooth_vertex(amount, outer, separation, j).0));
    assert(pts[j + 1].x@ == q_half(tooth_vertex(amount, outer, separation, j + 1).0));
    assert(tooth_vertex(amount, outer, separation, j).0 == q_scale(separation, m));
    assert(tooth_vertex(amount, outer, separation, j + 1).0 == q_scale(separation, m_next));
    lemma_station_order(separation.0, separation.1, m, m_next);
}

proof fn lemma_back_step(pts: Seq<Vec2>, amount: int, outer: (int, int), separation: (int, int), j: int)
    requires
        is_teeth_outline(pts, amount, outer, separation),
        separation.0 > 0,
        separation.1 > 0,
        2 * amount <= j < 4 * amount - 1,
    ensures
        q_le(pts[j + 1].x@, pts[j].x@),
{
    let k = (j - 2 * amount) / 2;
    let k_next = (j + 1 - 2 * amount) / 2;
    let m = if j % 2 == 0 { amount - k } else { amount - k - 1 };
    let m_next = if (j + 1) % 2 == 0 { amount - k_next } else { amount - k_next - 1 };
    assert(pts[j].x@ == q_half(tooth_vertex(amount, outer, separation, j).0));
    assert(pts[j + 1].x@ == q_half(tooth_vertex(amount, outer, separation, j + 1).0));
    assert(tooth_vertex(amount, outer, separation, j).0 == q_scale(separation, m));
    assert(tooth_vertex(amount, outer, separation, j + 1).0 == q_scale(separation, m_next));
    lemma_station_order(separation.0, separation.1, m_next, m);
}

proof fn lemma_vertex_side(pts: Seq<Vec2>, amount: int, outer: (int, int), separation: (int, int), j: int)
    requires
        is_teeth_outline(pts, amount, outer, separation),
        outer.1 > 0,
        q_lt(q_int(1), outer),
        0 <= j < 4 * amount,
    ensures
        j < 2 * amount ==> q_lt(q_int(0), pts[j].y@),
        j >= 2 * amount ==> q_lt(pts[j].y@, q_int(0)),
{
    assert(pts[j].y@ == q_half(tooth_vertex(amount, outer, separation, j).1));
}

/// Halved multiples of a positive pitch are ordered as their factors.
proof fn lemma_station_order(s0: int, s1: int, m: int, n: int)
    requires
        s0 > 0,
        s1 > 0,
        m <= n,
    ensures
        q_le(q_half(q_scale((s0, s1), m)), q_half(q_scale((s0, s1), n))),
{
    assert((s0 * m) * (s1 * 2) <= (s0 * n) * (s1 * 2)) by (nonlinear_arith)
        requires
            s0 > 0,
            s1 > 0,
            m <= n,
    ;
}

} // verus!
