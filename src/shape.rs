//! Immutable trees of geometric operations, handed to a geometry kernel for
//! rendering.
use vstd::prelude::*;
use crate::num::{Num, Vec2, Vec3};

verus! {

/// A coordinate axis, used for mirroring and rotation.
#[derive(Clone, Copy, Debug, PartialEq)]
pub enum Axis {
    X,
    Y,
    Z,
}

/// A rotation angle in degrees.
#[derive(Clone, Copy, Debug, PartialEq)]
pub enum Angle {
    /// Exactly this many degrees.
    Degrees(Num),
    /// `atan2(rise, run)`, converted to degrees: the angle of a line that
    /// rises by `rise` over `run`.
    Slope { rise: Num, run: Num },
}

/// One operation of the tree; it acts on the children of its node.
#[derive(Clone, Debug, PartialEq)]
pub enum Op {
    /// A closed polygon through the points, in order.
    Polygon(Vec<Vec2>),
    /// A circle of this radius about the origin.
    Circle(Num),
    /// A box of this size, centered on each flagged axis and starting at the
    /// origin on the others.
    CenteredCube { size: Vec3, center_x: bool, center_y: bool, center_z: bool },
    /// Extrudes the 2D children along z to `height`, centered on z = 0 when
    /// `center` holds, else starting at z = 0.
    LinearExtrude { height: Num, center: bool },
    Translate(Vec3),
    Translate2d(Vec2),
    Scale2d(Vec2),
    Rotate(Angle, Axis),
    /// Mirrors across the plane through the origin normal to the axis.
    Mirror(Axis),
    /// Moves the outline of the 2D children outward by `delta` (inward when
    /// negative), with chamfered corners when `chamfer` holds.
    Offset { delta: Num, chamfer: bool },
    Union,
    Difference,
    Intersection,
    /// The convex hull of the children.
    Hull,
}

/// A node of the tree: an operation applied to its children.
#[derive(Debug, PartialEq)]
pub struct Shape {
    pub op: Op,
    pub children: Vec<Shape>,
}

/// `s` is a node with operation `op` over exactly the one child `c`.
pub open spec fn one_child(s: Shape, op: Op, c: Shape) -> bool {
    s.op == op && s.children@ == seq![c]
}

/// `s` is a node with operation `op` over exactly the children `a` and `b`.
pub open spec fn two_children(s: Shape, op: Op, a: Shape, b: Shape) -> bool {
    s.op == op && s.children@ == seq![a, b]
}

/// `s` is a polygon through `points` and nothing else.
pub open spec fn is_polygon(s: Shape, points: Seq<Vec2>) -> bool {
    s.op is Polygon && s.op->Polygon_0@ == points && s.children@.len() == 0
}

impl Shape {
    /// A node without children.
    pub fn leaf(op: Op) -> (r: Shape)
        ensures
            r.op == op,
            r.children@.len() == 0,
    {
        Shape { op, children: Vec::new() }
    }

    /// A node over one child.
    pub fn wrap(op: Op, child: Shape) -> (r: Shape)
        ensures
            one_child(r, op, child),
    {
        let mut children = Vec::new();
        children.push(child);
        Shape { op, children }
    }

    /// A node over two children.
    pub fn pair(op: Op, a: Shape, b: Shape) -> (r: Shape)
        ensures
            two_children(r, op, a, b),
    {
        let mut children = Vec::new();
        children.push(a);
        children.push(b);
        assert(children@ =~= seq![a, b]);
        Shape { op, children }
    }

    /// A polygon through the points, in order.
    pub fn polygon(points: Vec<Vec2>) -> (r: Shape)
        ensures
            is_polygon(r, points@),
    {
        Shape::leaf(Op::Polygon(points))
    }
}

} // verus!
