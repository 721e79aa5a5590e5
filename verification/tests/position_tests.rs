use map_types::digest::Digestable;
use map_types::position::{Position4, Position6, Position6Axial, Position6Cube, PositionHelper};

#[test]
fn square_neighbours_in_fixed_order() {
    let p = Position4 { x: 0, y: 0 };
    let n = p.neighbours();
    assert_eq!(
        n,
        vec![
            Position4 { x: 1, y: 0 },
            Position4 { x: 0, y: 1 },
            Position4 { x: -1, y: 0 },
            Position4 { x: 0, y: -1 },
        ]
    );
}

#[test]
fn hex_axial_neighbours_in_fixed_order() {
    let p = Position6Axial { x: 2, y: -1 };
    let n = p.neighbours();
    assert_eq!(
        n,
        vec![
            Position6Axial { x: 3, y: -1 },
            Position6Axial { x: 2, y: 0 },
            Position6Axial { x: 1, y: 0 },
            Position6Axial { x: 1, y: -1 },
            Position6Axial { x: 2, y: -2 },
            Position6Axial { x: 3, y: -2 },
        ]
    );
}

#[test]
fn hex_cube_neighbours_in_fixed_order() {
    let p = Position6Cube { x: 0, y: 0, z: 0 };
    let n = p.neighbours();
    assert_eq!(
        n,
        vec![
            Position6Cube { x: 1, y: 0, z: -1 },
            Position6Cube { x: 0, y: 1, z: -1 },
            Position6Cube { x: -1, y: 1, z: 0 },
            Position6Cube { x: -1, y: 0, z: 1 },
            Position6Cube { x: 0, y: -1, z: 1 },
            Position6Cube { x: 1, y: -1, z: 0 },
        ]
    );
}

#[test]
fn square_field_length_mixes_absolute_and_signed_differences() {
    let a = Position4 { x: 0, y: 0 };
    let b = Position4 { x: 3, y: 1 };
    // |0 - 3| + (0 - 1)
    assert_eq!(a.field_length(&b), 2);
    assert_eq!(b.field_length(&a), 4);
}

#[test]
fn cube_field_length_sums_absolute_differences() {
    let a = Position6Cube { x: 0, y: 0, z: 0 };
    let b = Position6Cube { x: 1, y: -1, z: 0 };
    assert_eq!(a.field_length(&b), 2);
    let c = Position6Cube { x: 2, y: -1, z: -1 };
    assert_eq!(a.field_length(&c), 4);
}

#[test]
fn axial_field_length_goes_through_cube_form() {
    let a = Position6Axial { x: 0, y: 0 };
    let b = Position6Axial { x: 1, y: 0 };
    // cube forms (0,0,0) and (1,0,-1)
    assert_eq!(a.field_length(&b), 2);
    assert_eq!(a.field_length_cube(&Position6Cube { x: 1, y: 0, z: -1 }), 2);
    let c = Position6Cube { x: 0, y: 0, z: 0 };
    assert_eq!(c.field_length_axial(&b), 2);
}

#[test]
fn axial_and_cube_forms_convert_both_ways() {
    let a = Position6Axial { x: 2, y: 3 };
    assert_eq!(a.to_cube(), Position6Cube { x: 2, y: 3, z: -5 });
    assert_eq!(a.to_axial(), a);
    let c = Position6Cube { x: 2, y: 3, z: -5 };
    assert_eq!(c.to_axial(), Position6Axial { x: 2, y: 3 });
    assert_eq!(c.to_cube(), c);
    assert_eq!(Position6Axial::from(c), Position6Axial { x: 2, y: 3 });
    assert_eq!(Position6Cube::from(a), Position6Cube { x: 2, y: 3, z: -5 });
}

#[test]
fn arithmetic_on_square_positions() {
    let a = Position4 { x: 1, y: 2 };
    let b = Position4 { x: -3, y: 5 };
    assert_eq!(a.add(b), Position4 { x: -2, y: 7 });
    assert_eq!(a.sub(b), Position4 { x: 4, y: -3 });
    let mut m = a;
    m.add_assign(b);
    assert_eq!(m, Position4 { x: -2, y: 7 });
    m.sub_assign(b);
    assert_eq!(m, a);
    // negation is the bitwise complement of each component
    assert_eq!(a.neg(), Position4 { x: -2, y: -3 });
}

#[test]
fn arithmetic_on_hex_positions() {
    let a = Position6Axial { x: 1, y: 2 };
    let b = Position6Axial { x: 3, y: -1 };
    assert_eq!(a.add(b), Position6Axial { x: 4, y: 1 });
    assert_eq!(a.sub(b), Position6Axial { x: -2, y: 3 });
    assert_eq!(a.neg(), Position6Axial { x: -2, y: -3 });

    let c = Position6Cube { x: 1, y: 0, z: -1 };
    let d = Position6Cube { x: 0, y: 1, z: -1 };
    assert_eq!(c.add(d), Position6Cube { x: 1, y: 1, z: -2 });
    assert_eq!(c.sub(d), Position6Cube { x: 1, y: -1, z: 0 });
    assert_eq!(c.neg(), Position6Cube { x: -2, y: -1, z: 0 });

    // a cube position shifted by an axial offset keeps its component sum
    let shifted = c.add_axial(b);
    assert_eq!(shifted, Position6Cube { x: 4, y: -1, z: -3 });
    assert_eq!(shifted.x + shifted.y + shifted.z, c.x + c.y + c.z);
    assert_eq!(c.sub_axial(b), Position6Cube { x: -2, y: 1, z: 1 });
    let mut mc = c;
    mc.add_assign_axial(b);
    assert_eq!(mc, Position6Cube { x: 4, y: -1, z: -3 });
    mc.sub_assign_axial(b);
    assert_eq!(mc, c);

    let mut ma = a;
    ma.add_assign_cube(c);
    assert_eq!(ma, Position6Axial { x: 2, y: 2 });
    ma.sub_assign_cube(c);
    assert_eq!(ma, a);
    assert_eq!(a.add_cube(c), Position6Axial { x: 2, y: 2 });
    assert_eq!(a.sub_cube(c), Position6Axial { x: 0, y: 2 });
}

#[test]
fn tuple_conversions() {
    assert_eq!(Position4::from((4, -2)), Position4 { x: 4, y: -2 });
    assert_eq!(Position6Axial::from((1, 2)), Position6Axial { x: 1, y: 2 });
    assert_eq!(Position6Cube::from((1, 2, -3)), Position6Cube { x: 1, y: 2, z: -3 });
}

#[test]
fn position_digests_fold_x_then_y() {
    let mut out: Vec<u8> = Vec::new();
    Position4 { x: 0x0102, y: -1 }.update_le(&mut out);
    assert_eq!(out, vec![0x02, 0x01, 0xff, 0xff]);

    let mut out2: Vec<u8> = Vec::new();
    Position6Axial { x: 1, y: 2 }.update_le(&mut out2);
    assert_eq!(out2, vec![1, 0, 2, 0]);

    // all three components contribute for the cube form
    let mut out3: Vec<u8> = Vec::new();
    Position6Cube { x: 1, y: 2, z: -3 }.update_le(&mut out3);
    assert_eq!(out3, vec![1, 0, 2, 0, 0xfd, 0xff]);
}
