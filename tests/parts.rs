use airframe::fuselage::Fuselage;
use airframe::hinge::{hinge, mid_section, teeth, test_hinge, test_mount, tooth_cutout};
use airframe::num::{Num, Vec2};
use airframe::plane::{assemble_plane, extrude_airfoil, wing_ribs};
use airframe::profile::{Airfoil, ProfileError};
use airframe::shape::{Angle, Axis, Op, Shape};
use airframe::wing::{CutoffDirection, GeometryError, Wing};

fn n(num: i128, den: i128) -> Num {
    Num { num, den }
}

fn same(a: Num, num: i128, den: i128) -> bool {
    a.num * den == num * a.den
}

fn square() -> Airfoil {
    Airfoil {
        points: vec![
            Vec2 { x: n(0, 1), y: n(0, 1) },
            Vec2 { x: n(1, 1), y: n(0, 1) },
            Vec2 { x: n(1, 1), y: n(1, 10) },
        ],
    }
}

fn polygon_points(s: &Shape) -> &Vec<Vec2> {
    match &s.op {
        Op::Polygon(p) => p,
        other => panic!("not a polygon: {:?}", other),
    }
}

fn translation(s: &Shape) -> (Num, Num, Num) {
    match &s.op {
        Op::Translate(v) => (v.x, v.y, v.z),
        other => panic!("not a translation: {:?}", other),
    }
}

fn cube(s: &Shape) -> (Num, Num, Num, bool, bool, bool) {
    match &s.op {
        Op::CenteredCube { size, center_x, center_y, center_z } => {
            (size.x, size.y, size.z, *center_x, *center_y, *center_z)
        }
        other => panic!("not a cube: {:?}", other),
    }
}

#[test]
fn num_arithmetic_is_exact() {
    let a = Num::ratio(1, 3);
    let b = Num::ratio(1, 6);
    assert!(same(a.add(b), 1, 2));
    assert!(same(a.sub(b), 1, 6));
    assert!(same(a.mul(b), 1, 18));
    assert!(same(a.div(4), 1, 12));
    assert!(same(a.scale(6), 2, 1));
    assert!(same(Num::whole(7).half(), 7, 2));
    assert!(a.le(a));
    assert!(!a.le(b));
}

#[test]
fn default_wing_parameters() {
    let w = Wing::new(square());
    assert_eq!(w.inner_length, n(140, 1));
    assert_eq!(w.outer_length, n(100, 1));
    assert_eq!(w.wingspan, n(500, 1));
    assert!(same(w.extrude_thickness, 1, 10));
    assert_eq!(w.airfoil, square());
}

#[test]
fn exterior_lofts_root_and_tip_sections() {
    let w = Wing::new(square());
    let s = w.exterior_model();
    assert_eq!(s.op, Op::Hull);
    assert_eq!(s.children.len(), 2);
    let root = &s.children[0];
    assert_eq!(root.op, Op::LinearExtrude { height: w.extrude_thickness, center: false });
    let scaled = &root.children[0];
    assert_eq!(scaled.op, Op::Scale2d(Vec2 { x: n(140, 1), y: n(140, 1) }));
    assert_eq!(polygon_points(&scaled.children[0]), &square().points);
    let tip = &s.children[1];
    let (x, y, z) = translation(tip);
    assert!(same(x, 0, 1) && same(y, 0, 1));
    assert!(same(z, 4999, 10));
    assert!(same(z.add(w.extrude_thickness), 500, 1));
    let tip_scaled = &tip.children[0].children[0];
    assert_eq!(tip_scaled.op, Op::Scale2d(Vec2 { x: n(100, 1), y: n(100, 1) }));
}

#[test]
fn rib_shape_composition() {
    let w = Wing::new(square());
    let s = w.extruded_rib_shape().unwrap();
    assert_eq!(s.op, Op::Difference);
    let joined = &s.children[0];
    assert_eq!(joined.op, Op::Union);
    let cavity = &joined.children[0];
    assert_eq!(cavity.op, Op::Hull);
    assert_eq!(cavity.children[0].children[0].op, Op::Offset { delta: n(-2, 1), chamfer: true });
    let shell = &joined.children[1];
    assert_eq!(shell.op, Op::Difference);
    assert_eq!(shell.children.len(), 3);
    // upper foam cut: 140 - 10 - 40 at the root, 100 - 10 - 40 at the tip, above the chord
    let upper = &shell.children[1];
    let (ux, uy, uz) = translation(&upper.children[0]);
    assert!(same(ux, 10, 1) && same(uy, 0, 1) && same(uz, 0, 1));
    let (len, width, _, _, cy, _) = cube(&upper.children[0].children[0]);
    assert!(same(len, 90, 1) && same(width, 1000, 1));
    assert!(!cy);
    let (_, _, tz) = translation(&upper.children[1]);
    assert!(same(tz, 500, 1));
    let (tip_len, _, _, _, _, _) = cube(&upper.children[1].children[0]);
    assert!(same(tip_len, 50, 1));
    // lower foam cut: below the chord, 140 - 10 - 35
    let lower = &shell.children[2];
    let (_, ly, _) = translation(&lower.children[0]);
    assert!(same(ly, -1000, 1));
    let (llen, _, _, _, _, _) = cube(&lower.children[0].children[0]);
    assert!(same(llen, 95, 1));
    // control-surface slot
    let slot = &s.children[1];
    assert_eq!(slot.op, Op::Intersection);
    let both = &slot.children[0];
    let (bx, by, _) = translation(&both.children[0]);
    assert!(same(bx, 110, 1) && same(by, 0, 1));
    let (_, _, _, _, bcy, _) = cube(&both.children[0].children[0]);
    assert!(bcy);
    let rotate = &slot.children[1];
    match &rotate.op {
        Op::Rotate(Angle::Slope { rise, run }, Axis::Y) => {
            assert!(same(*rise, 40, 1));
            assert!(same(*run, 500, 1));
        }
        other => panic!("unexpected {:?}", other),
    }
    let (_, _, start_z) = translation(&rotate.children[0]);
    assert!(same(start_z, 250, 1));
    let (_, _, depth, cx, cy2, cz) = cube(&rotate.children[0].children[0]);
    assert!(same(depth, 225, 1));
    assert!(cx && cy2 && !cz);
}

#[test]
fn equal_chords_give_no_sweep() {
    let mut w = Wing::new(square());
    w.outer_length = n(140, 1);
    let s = w.extruded_rib_shape().unwrap();
    match &s.children[1].children[1].op {
        Op::Rotate(Angle::Slope { rise, .. }, _) => assert!(same(*rise, 0, 1)),
        other => panic!("unexpected {:?}", other),
    }
}

#[test]
fn short_chord_is_degenerate() {
    let mut w = Wing::new(square());
    w.outer_length = n(50, 1);
    assert_eq!(w.extruded_rib_shape().err(), Some(GeometryError::Degenerate));
    w.outer_length = n(51, 1);
    assert!(w.extruded_rib_shape().is_ok());
}

#[test]
fn first_rib_spans_zero_to_thickness() {
    let w = Wing::new(square());
    let rib = w.get_wing_rib(0, Num::whole(5), 8).unwrap();
    let (_, _, back) = translation(&rib);
    assert!(same(back, 0, 1));
    let cut = &rib.children[0];
    assert_eq!(cut.op, Op::Intersection);
    let cutter = &cut.children[1];
    let (_, _, offset) = translation(cutter);
    assert!(same(offset, 0, 1));
    let (x, y, z, cx, cy, cz) = cube(&cutter.children[0]);
    assert!(same(x, 1000, 1) && same(y, 1000, 1) && same(z, 5, 1));
    assert!(cx && cy && !cz);
    assert!(same(offset.add(back), 0, 1));
}

#[test]
fn last_rib_ends_at_the_tip() {
    let w = Wing::new(square());
    let rib = w.get_wing_rib(7, Num::whole(5), 8).unwrap();
    let (_, _, offset) = translation(&rib.children[0].children[1]);
    // separation (500 - 5) / 8, seven of them
    assert!(same(offset, 3465, 8));
    assert!(offset.le(Num::whole(495)));
    let (_, _, back) = translation(&rib);
    assert!(same(back, -3465, 8));
}

#[test]
fn rib_errors() {
    let w = Wing::new(square());
    assert_eq!(w.get_wing_rib(0, Num::whole(5), 0).err(), Some(GeometryError::Degenerate));
    assert_eq!(w.get_wing_rib(0, Num::whole(0), 8).err(), Some(GeometryError::Degenerate));
    assert_eq!(w.get_wing_rib(0, Num::whole(-1), 8).err(), Some(GeometryError::Degenerate));
}

#[test]
fn all_ribs_are_placed_at_their_stations() {
    let w = Wing::new(square());
    let ribs = w.all_wing_ribs(Num::whole(5), 4).unwrap();
    assert_eq!(ribs.op, Op::Union);
    assert_eq!(ribs.children.len(), 4);
    let (_, _, z) = translation(&ribs.children[2]);
    assert!(same(z, 2 * 495, 4));
    let empty = w.all_wing_ribs(Num::whole(5), 0).unwrap();
    assert_eq!(empty.children.len(), 0);
    assert!(w.all_wing_ribs(Num::whole(0), 3).is_err());
}

#[test]
fn control_surface_triangle() {
    let w = Wing::new(square());
    let s = w.control_surface(Num::ratio(45, 100), Num::whole(30)).unwrap();
    match &s.op {
        Op::LinearExtrude { height, center } => {
            assert!(same(*height, 225, 1));
            assert!(!center);
        }
        other => panic!("unexpected {:?}", other),
    }
    let pts = polygon_points(&s.children[0]);
    assert_eq!(pts.len(), 3);
    assert!(same(pts[0].x, 0, 1) && same(pts[0].y, 2, 1));
    assert!(same(pts[1].x, 28, 1) && same(pts[1].y, 0, 1));
    assert!(same(pts[2].x, 4, 1) && same(pts[2].y, -2, 1));
    assert_eq!(w.control_surface(Num::whole(0), Num::whole(30)).err(), Some(GeometryError::Degenerate));
}

#[test]
fn fuselage_outlines() {
    let f = Fuselage::new();
    let xy = f.xy_outline();
    let pts = polygon_points(&xy);
    let expect = [(0, 11), (150, 20), (400, 20), (400, -20), (150, -20), (0, -11)];
    assert_eq!(pts.len(), 6);
    for (p, (x, y)) in pts.iter().zip(expect.iter()) {
        assert!(same(p.x, *x, 1) && same(p.y, *y, 1));
    }
    let xz = f.xz_outline();
    assert_eq!(xz.op, Op::Union);
    let body = polygon_points(&xz.children[0]);
    assert!(same(body[2].x, 300, 1) && same(body[3].x, 300, 1));
    let nose = &xz.children[1];
    match &nose.op {
        Op::Translate2d(v) => assert!(same(v.x, 300, 1) && same(v.y, 0, 1)),
        other => panic!("unexpected {:?}", other),
    }
    match &nose.children[0].op {
        Op::Scale2d(v) => assert!(same(v.x, 100, 1) && same(v.y, 20, 1)),
        other => panic!("unexpected {:?}", other),
    }
    assert_eq!(nose.children[0].children[0].op, Op::Circle(n(1, 1)));
}

#[test]
fn fuselage_is_intersection_of_prisms() {
    let f = Fuselage::new();
    let s = f.get();
    assert_eq!(s.op, Op::Intersection);
    assert_eq!(s.children[0].op, Op::LinearExtrude { height: n(1000, 1), center: true });
    assert_eq!(s.children[1].op, Op::Rotate(Angle::Degrees(n(90, 1)), Axis::X));
    assert_eq!(s.children[1].children[0].op, Op::LinearExtrude { height: n(1000, 1), center: true });
}

#[test]
fn teeth_have_four_vertices_per_tooth() {
    for amount in 1..6usize {
        let t = teeth(amount, Num::whole(4), Num::whole(3));
        assert_eq!(polygon_points(&t).len(), 4 * amount);
    }
}

#[test]
fn teeth_vertices() {
    let t = teeth(2, Num::whole(4), Num::whole(3));
    let pts = polygon_points(&t);
    // before halving: (0,4) (3,3) (3,4) (6,3) | (6,-3) (3,-4) (3,-3) (0,-4)
    let expect = [(0, 4), (3, 3), (3, 4), (6, 3), (6, -3), (3, -4), (3, -3), (0, -4)];
    for (p, (x, y)) in pts.iter().zip(expect.iter()) {
        assert!(same(p.x, *x, 2), "{:?}", p);
        assert!(same(p.y, *y, 2), "{:?}", p);
    }
    // the outgoing half lies above the axis, the returning half below
    for (i, p) in pts.iter().enumerate() {
        assert_eq!(p.y.num > 0, i < 4);
    }
}

#[test]
fn mid_section_is_halved_rectangle() {
    let m = mid_section(Num::whole(1), Num::whole(3));
    let pts = polygon_points(&m);
    let expect = [(0, 1), (3, 1), (3, -1), (0, -1)];
    for (p, (x, y)) in pts.iter().zip(expect.iter()) {
        assert!(same(p.x, *x, 2) && same(p.y, *y, 2));
    }
}

#[test]
fn hinge_is_comb_and_mirror() {
    let h = hinge(5, Num::whole(4), Num::whole(4));
    assert_eq!(h.op, Op::Union);
    let comb = &h.children[0];
    assert_eq!(comb.op, Op::LinearExtrude { height: n(4, 1), center: false });
    match &comb.children[1].op {
        Op::Translate2d(v) => assert!(same(v.x, 2, 1)),
        other => panic!("unexpected {:?}", other),
    }
    assert_eq!(polygon_points(&comb.children[1].children[0]).len(), 20);
    assert_eq!(h.children[1].op, Op::Mirror(Axis::X));
    assert_eq!(h.children[1].children[0], *comb);
    assert_eq!(test_hinge(), hinge(5, Num::whole(3), Num::whole(4)));
}

#[test]
fn tooth_cutout_and_test_mount() {
    let c = tooth_cutout(5, Num::whole(3), Num::whole(4));
    let pts = polygon_points(&c.children[0]);
    assert_eq!(pts.len(), 20);
    // the socket is half a unit taller than the tooth: (3 + 1/2) / 2
    assert!(same(pts[0].y, 7, 4));
    assert!(same(pts[1].x, 3, 2));
    let m = test_mount();
    assert_eq!(m.op, Op::Difference);
    let (x, y, z, cx, cy, cz) = cube(&m.children[0]);
    assert!(same(x, 12, 1) && same(y, 8, 1) && same(z, 6, 1));
    assert!(!cx && cy && !cz);
    let (_, _, tz) = translation(&m.children[1]);
    assert!(same(tz, 2, 1));
    assert_eq!(m.children[1].children[0], c);
}

#[test]
fn profile_round_trip() {
    let a = Airfoil::parse(b"TEST\n1.0 0.0\n0.0 0.1").unwrap();
    assert_eq!(a.points.len(), 2);
    assert!(same(a.points[0].x, 1, 1) && same(a.points[0].y, 0, 1));
    assert!(same(a.points[1].x, 0, 1) && same(a.points[1].y, 1, 10));
}

#[test]
fn profile_numbers_and_spacing() {
    let a = Airfoil::parse(b"MH 44\r\n  -0.125\t+2 extra\r\n.5 7.\n").unwrap();
    assert_eq!(a.points.len(), 2);
    assert_eq!(a.points[0].x, n(-125, 1000));
    assert!(same(a.points[0].y, 2, 1));
    assert!(same(a.points[1].x, 1, 2) && same(a.points[1].y, 7, 1));
    let header_only = Airfoil::parse(b"header\n").unwrap();
    assert_eq!(header_only.points.len(), 0);
}

#[test]
fn profile_errors() {
    assert_eq!(Airfoil::parse(b"").err(), Some(ProfileError::MissingHeader));
    assert_eq!(Airfoil::parse(b"h\n1 2\n3\n").err(), Some(ProfileError::Parse { line: 2 }));
    assert_eq!(Airfoil::parse(b"h\n1 x\n").err(), Some(ProfileError::Parse { line: 1 }));
    assert_eq!(Airfoil::parse(b"h\n1 2\n\n3 4\n").err(), Some(ProfileError::Parse { line: 2 }));
    assert_eq!(Airfoil::parse(b"h\n1.2.3 4\n").err(), Some(ProfileError::Parse { line: 1 }));
    assert_eq!(Airfoil::parse(b"h\n- 4\n").err(), Some(ProfileError::Parse { line: 1 }));
}

#[test]
fn scenes() {
    let e = extrude_airfoil(&square(), Num::whole(140), Num::whole(10));
    assert_eq!(e.op, Op::LinearExtrude { height: n(10, 1), center: false });
    assert_eq!(e.children[0].op, Op::Scale2d(Vec2 { x: n(140, 1), y: n(140, 1) }));
    let plane = assemble_plane(square());
    assert_eq!(plane.op, Op::Union);
    assert_eq!(plane.children.len(), 3);
    assert_eq!(plane.children[1].op, Op::Mirror(Axis::Y));
    assert_eq!(plane.children[1].children[0], plane.children[0]);
    let w = Wing::new(square());
    let ribs = wing_ribs(&w, 0, 3).unwrap();
    assert_eq!(ribs.children.len(), 3);
    let (_, y, _) = translation(&ribs.children[2]);
    assert!(same(y, 30, 1));
}

#[test]
fn rib_thicker_than_span_is_degenerate() {
    let w = Wing::new(square());
    assert_eq!(w.get_wing_rib(0, Num::whole(501), 2).err(), Some(GeometryError::Degenerate));
    assert!(w.get_wing_rib(0, Num::whole(500), 2).is_ok());
    assert!(w.all_wing_ribs(Num::whole(600), 2).is_err());
}

#[test]
fn rib_separation_value() {
    let w = Wing::new(square());
    let sep = w.wing_rib_separation(Num::whole(5), 8);
    assert!(same(sep, 495, 8));
    assert!(same(sep.scale(8).add(Num::whole(5)), 500, 1));
}

#[test]
fn sweep_angle_follows_chord_difference() {
    let w = Wing::new(square());
    match w.wing_back_angle() {
        Angle::Slope { rise, run } => {
            assert!(same(rise, 40, 1));
            assert!(same(run, 500, 1));
        }
        other => panic!("unexpected {:?}", other),
    }
    let mut wider_tip = Wing::new(square());
    wider_tip.outer_length = n(150, 1);
    match wider_tip.wing_back_angle() {
        Angle::Slope { rise, .. } => assert!(rise.num < 0),
        other => panic!("unexpected {:?}", other),
    }
}

#[test]
fn cutoff_box_sides() {
    let w = Wing::new(square());
    let up = w.wing_shaped_cutoff_box(CutoffDirection::Up, n(1, 1), n(2, 1), n(3, 1), n(4, 1)).unwrap();
    let (x, y, z) = translation(&up.children[0]);
    assert!(same(x, 1, 1) && same(y, 0, 1) && same(z, 0, 1));
    assert!(!cube(&up.children[0].children[0]).4);
    let (x2, _, z2) = translation(&up.children[1]);
    assert!(same(x2, 3, 1) && same(z2, 500, 1));
    let down = w.wing_shaped_cutoff_box(CutoffDirection::Down, n(1, 1), n(2, 1), n(3, 1), n(4, 1)).unwrap();
    let (_, dy, _) = translation(&down.children[1]);
    assert!(same(dy, -1000, 1));
    let both = w.wing_shaped_cutoff_box(CutoffDirection::Both, n(1, 1), n(2, 1), n(3, 1), n(4, 1)).unwrap();
    assert!(cube(&both.children[0].children[0]).4);
    assert!(w
        .wing_shaped_cutoff_box(CutoffDirection::Both, n(1, 1), n(0, 1), n(3, 1), n(4, 1))
        .is_err());
}

#[test]
fn profile_exponents() {
    let a = Airfoil::parse(b"h\n1e-3 1.5E+00\n2e2 -25E-1\n").unwrap();
    assert_eq!(a.points.len(), 2);
    assert!(same(a.points[0].x, 1, 1000) && same(a.points[0].y, 3, 2));
    assert!(same(a.points[1].x, 200, 1) && same(a.points[1].y, -5, 2));
    assert_eq!(Airfoil::parse(b"h\n1e 2\n").err(), Some(ProfileError::Parse { line: 1 }));
    assert_eq!(Airfoil::parse(b"h\n1e19 2\n").err(), Some(ProfileError::Parse { line: 1 }));
    assert_eq!(Airfoil::parse(b"h\ne5 2\n").err(), Some(ProfileError::Parse { line: 1 }));
}

#[test]
fn reversed_rib_range_is_empty() {
    let w = Wing::new(square());
    let ribs = wing_ribs(&w, 3, 1).unwrap();
    assert_eq!(ribs.op, Op::Union);
    assert_eq!(ribs.children.len(), 0);
}

#[test]
fn plane_holds_default_fuselage() {
    let plane = assemble_plane(square());
    assert_eq!(plane.children[2], Fuselage::new().get());
}

#[test]
fn hinge_mid_section_rectangle() {
    let h = hinge(2, Num::whole(4), Num::whole(1));
    let pts = polygon_points(&h.children[0].children[0]);
    let expect = [(0, 1), (4, 1), (4, -1), (0, -1)];
    for (p, (x, y)) in pts.iter().zip(expect.iter()) {
        assert!(same(p.x, *x, 2) && same(p.y, *y, 2));
    }
}
