//! Grid coordinates: a square-grid position and two equivalent hex-grid
//! positions (axial and cube form), with neighbourhood, distance and
//! conversion operations, and their canonical digest encodings.

use vstd::prelude::*;
use vstd::math::abs;
use vstd::bytes::spec_u16_to_le_bytes;
use crate::digest::Digestable;

verus! {

/// A position on a square grid with four-neighbour adjacency.
#[derive(Clone, Copy, PartialEq, Eq, Structural, Hash, Debug)]
pub struct Position4 {
    pub x: i16,
    pub y: i16,
}

/// A position on a hexagonal grid in axial coordinates.
#[derive(Clone, Copy, PartialEq, Eq, Structural, Hash, Debug)]
pub struct Position6Axial {
    pub x: i16,
    pub y: i16,
}

/// A position on a hexagonal grid in cube coordinates; on a well-formed
/// value the three components sum to zero.
#[derive(Clone, Copy, PartialEq, Eq, Structural, Hash, Debug)]
pub struct Position6Cube {
    pub x: i16,
    pub y: i16,
    pub z: i16,
}

/// A position type that can enumerate the positions adjacent to a value.
pub trait PositionHelper: Sized {
    /// The offsets applied by `neighbours` stay within the coordinate range.
    spec fn neighbours_in_range(&self) -> bool;

    /// The adjacent positions, in a fixed order.
    spec fn spec_neighbours(&self) -> Seq<Self>;

    fn neighbours(&self) -> (r: Vec<Self>)
        requires
            self.neighbours_in_range(),
        ensures
            r@ == self.spec_neighbours(),
    ;
}

/// A hex-grid position convertible between axial and cube form.
pub trait Position6: Sized {
    /// The cube form of this position stays within the coordinate range.
    spec fn cube_in_range(&self) -> bool;

    spec fn spec_to_axial(&self) -> Position6Axial;

    spec fn spec_to_cube(&self) -> Position6Cube;

    fn to_axial(&self) -> (r: Position6Axial)
        ensures
            r == self.spec_to_axial(),
    ;

    fn to_cube(&self) -> (r: Position6Cube)
        requires
            self.cube_in_range(),
        ensures
            r == self.spec_to_cube(),
    ;
}

/// The hex distance between two cube-coordinate positions: the sum of the
/// absolute component differences.
pub open spec fn cube_field_length(a: Position6Cube, b: Position6Cube) -> nat {
    abs(a.x - b.x) + abs(a.y - b.y) + abs(a.z - b.z)
}

impl Position4 {
    /// The grid distance as measured by the store: the absolute difference
    /// in x plus the signed difference in y, which must not be negative.
    pub fn field_length(&self, other: &Position4) -> (r: u32)
        requires
            abs(self.x - other.x) + (self.y - other.y) >= 0,
        ensures
            r == abs(self.x - other.x) + (self.y - other.y),
    {
        let dx: i32 = (self.x as i32) - (other.x as i32);
        let dy: i32 = (self.y as i32) - (other.y as i32);
        let adx: i32 = if dx < 0 { -dx } else { dx };
        (adx + dy) as u32
    }

    pub fn add(self, rhs: Position4) -> (r: Position4)
        requires
            i16::MIN <= self.x + rhs.x <= i16::MAX,
            i16::MIN <= self.y + rhs.y <= i16::MAX,
        ensures
            r.x == self.x + rhs.x,
            r.y == self.y + rhs.y,
    {
        Position4 { x: self.x + rhs.x, y: self.y + rhs.y }
    }

    pub fn add_assign(&mut self, rhs: Position4)
        requires
            i16::MIN <= old(self).x + rhs.x <= i16::MAX,
            i16::MIN <= old(self).y + rhs.y <= i16::MAX,
        ensures
            final(self).x == old(self).x + rhs.x,
            final(self).y == old(self).y + rhs.y,
    {
        self.x = self.x + rhs.x;
        self.y = self.y + rhs.y;
    }

    pub fn sub(self, rhs: Position4) -> (r: Position4)
        requires
            i16::MIN <= self.x - rhs.x <= i16::MAX,
            i16::MIN <= self.y - rhs.y <= i16::MAX,
        ensures
            r.x == self.x - rhs.x,
            r.y == self.y - rhs.y,
    {
        Position4 { x: self.x - rhs.x, y: self.y - rhs.y }
    }

    pub fn sub_assign(&mut self, rhs: Position4)
        requires
            i16::MIN <= old(self).x - rhs.x <= i16::MAX,
            i16::MIN <= old(self).y - rhs.y <= i16::MAX,
        ensures
            final(self).x == old(self).x - rhs.x,
            final(self).y == old(self).y - rhs.y,
    {
        self.x = self.x - rhs.x;
        self.y = self.y - rhs.y;
    }

    /// Negation as bitwise complement of each component.
    pub fn neg(self) -> (r: Position4)
        ensures
            r.x == !self.x,
            r.y == !self.y,
    {
        Position4 { x: !self.x, y: !self.y }
    }
}

impl PositionHelper for Position4 {
    open spec fn neighbours_in_range(&self) -> bool {
        &&& self.x + 1 <= i16::MAX
        &&& self.x - 1 >= i16::MIN
        &&& self.y + 1 <= i16::MAX
        &&& self.y - 1 >= i16::MIN
    }

    open spec fn spec_neighbours(&self) -> Seq<Position4> {
        seq![
            Position4 { x: (self.x + 1) as i16, y: self.y },
            Position4 { x: self.x, y: (self.y + 1) as i16 },
            Position4 { x: (self.x - 1) as i16, y: self.y },
            Position4 { x: self.x, y: (self.y - 1) as i16 },
        ]
    }

    fn neighbours(&self) -> (r: Vec<Position4>) {
        let mut r: Vec<Position4> = Vec::new();
        r.push(self.add(Position4::from((1, 0))));
        r.push(self.add(Position4::from((0, 1))));
        r.push(self.add(Position4::from((-1, 0))));
        r.push(self.add(Position4::from((0, -1))));
        proof {
            assert(r@ =~= self.spec_neighbours());
        }
        r
    }
}

impl From<(i16, i16)> for Position4 {
    fn from(f: (i16, i16)) -> (r: Self) {
        Position4 { x: f.0, y: f.1 }
    }
}

impl vstd::std_specs::convert::FromSpecImpl<(i16, i16)> for Position4 {
    open spec fn obeys_from_spec() -> bool {
        true
    }

    open spec fn from_spec(f: (i16, i16)) -> Self {
        Position4 { x: f.0, y: f.1 }
    }
}

impl Digestable for Position4 {
    open spec fn canon_le(&self) -> Seq<u8> {
        spec_u16_to_le_bytes(self.x as u16) + spec_u16_to_le_bytes(self.y as u16)
    }

    fn update_le(&self, out: &mut Vec<u8>) {
        self.x.update_le(out);
        self.y.update_le(out);
    }
}

impl Position6Axial {
    /// The hex distance, measured by converting both endpoints to cube
    /// coordinates.
    pub fn field_length(&self, other: &Position6Axial) -> (r: u32)
        requires
            self.cube_in_range(),
            other.cube_in_range(),
        ensures
            r == cube_field_length(self.spec_to_cube(), other.spec_to_cube()),
    {
        self.to_cube().field_length(&other.to_cube())
    }

    /// The hex distance to a cube-coordinate position.
    pub fn field_length_cube(&self, other: &Position6Cube) -> (r: u32)
        requires
            self.cube_in_range(),
        ensures
            r == cube_field_length(self.spec_to_cube(), *other),
    {
        self.to_cube().field_length(other)
    }

    pub fn add(self, rhs: Position6Axial) -> (r: Position6Axial)
        requires
            i16::MIN <= self.x + rhs.x <= i16::MAX,
            i16::MIN <= self.y + rhs.y <= i16::MAX,
        ensures
            r.x == self.x + rhs.x,
            r.y == self.y + rhs.y,
    {
        Position6Axial { x: self.x + rhs.x, y: self.y + rhs.y }
    }

    pub fn add_assign(&mut self, rhs: Position6Axial)
        requires
            i16::MIN <= old(self).x + rhs.x <= i16::MAX,
            i16::MIN <= old(self).y + rhs.y <= i16::MAX,
        ensures
            final(self).x == old(self).x + rhs.x,
            final(self).y == old(self).y + rhs.y,
    {
        self.x = self.x + rhs.x;
        self.y = self.y + rhs.y;
    }

    pub fn sub(self, rhs: Position6Axial) -> (r: Position6Axial)
        requires
            i16::MIN <= self.x - rhs.x <= i16::MAX,
            i16::MIN <= self.y - rhs.y <= i16::MAX,
        ensures
            r.x == self.x - rhs.x,
            r.y == self.y - rhs.y,
    {
        Position6Axial { x: self.x - rhs.x, y: self.y - rhs.y }
    }

    pub fn sub_assign(&mut self, rhs: Position6Axial)
        requires
            i16::MIN <= old(self).x - rhs.x <= i16::MAX,
            i16::MIN <= old(self).y - rhs.y <= i16::MAX,
        ensures
            final(self).x == old(self).x - rhs.x,
            final(self).y == old(self).y - rhs.y,
    {
        self.x = self.x - rhs.x;
        self.y = self.y - rhs.y;
    }

    /// Addition of a cube-coordinate offset, which acts on x and y only.
    pub fn add_cube(self, rhs: Position6Cube) -> (r: Position6Axial)
        requires
            i16::MIN <= self.x + rhs.x <= i16::MAX,
            i16::MIN <= self.y + rhs.y <= i16::MAX,
        ensures
            r.x == self.x + rhs.x,
            r.y == self.y + rhs.y,
    {
        Position6Axial { x: self.x + rhs.x, y: self.y + rhs.y }
    }

    pub fn add_assign_cube(&mut self, rhs: Position6Cube)
        requires
            i16::MIN <= old(self).x + rhs.x <= i16::MAX,
            i16::MIN <= old(self).y + rhs.y <= i16::MAX,
        ensures
            final(self).x == old(self).x + rhs.x,
            final(self).y == old(self).y + rhs.y,
    {
        self.x = self.x + rhs.x;
        self.y = self.y + rhs.y;
    }

    pub fn sub_cube(self, rhs: Position6Cube) -> (r: Position6Axial)
        requires
            i16::MIN <= self.x - rhs.x <= i16::MAX,
            i16::MIN <= self.y - rhs.y <= i16::MAX,
        ensures
            r.x == self.x - rhs.x,
            r.y == self.y - rhs.y,
    {
        Position6Axial { x: self.x - rhs.x, y: self.y - rhs.y }
    }

    pub fn sub_assign_cube(&mut self, rhs: Position6Cube)
        requires
            i16::MIN <= old(self).x - rhs.x <= i16::MAX,
            i16::MIN <= old(self).y - rhs.y <= i16::MAX,
        ensures
            final(self).x == old(self).x - rhs.x,
            final(self).y == old(self).y - rhs.y,
    {
        self.x = self.x - rhs.x;
        self.y = self.y - rhs.y;
    }

    /// Negation as bitwise complement of each component.
    pub fn neg(self) -> (r: Position6Axial)
        ensures
            r.x == !self.x,
            r.y == !self.y,
    {
        Position6Axial { x: !self.x, y: !self.y }
    }
}

impl PositionHelper for Position6Axial {
    open spec fn neighbours_in_range(&self) -> bool {
        &&& self.x + 1 <= i16::MAX
        &&& self.x - 1 >= i16::MIN
        &&& self.y + 1 <= i16::MAX
        &&& self.y - 1 >= i16::MIN
    }

    open spec fn spec_neighbours(&self) -> Seq<Position6Axial> {
        seq![
            Position6Axial { x: (self.x + 1) as i16, y: self.y },
            Position6Axial { x: self.x, y: (self.y + 1) as i16 },
            Position6Axial { x: (self.x - 1) as i16, y: (self.y + 1) as i16 },
            Position6Axial { x: (self.x - 1) as i16, y: self.y },
            Position6Axial { x: self.x, y: (self.y - 1) as i16 },
            Position6Axial { x: (self.x + 1) as i16, y: (self.y - 1) as i16 },
        ]
    }

    fn neighbours(&self) -> (r: Vec<Position6Axial>) {
        let mut r: Vec<Position6Axial> = Vec::new();
        r.push(self.add(Position6Axial::from((1, 0))));
        r.push(self.add(Position6Axial::from((0, 1))));
        r.push(self.add(Position6Axial::from((-1, 1))));
        r.push(self.add(Position6Axial::from((-1, 0))));
        r.push(self.add(Position6Axial::from((0, -1))));
        r.push(self.add(Position6Axial::from((1, -1))));
        proof {
            assert(r@ =~= self.spec_neighbours());
        }
        r
    }
}

impl Position6 for Position6Axial {
    open spec fn cube_in_range(&self) -> bool {
        -32767 <= self.x + self.y <= 32767
    }

    open spec fn spec_to_axial(&self) -> Position6Axial {
        *self
    }

    open spec fn spec_to_cube(&self) -> Position6Cube {
        Position6Cube { x: self.x, y: self.y, z: (-(self.x + self.y)) as i16 }
    }

    fn to_axial(&self) -> (r: Position6Axial) {
        *self
    }

    fn to_cube(&self) -> (r: Position6Cube) {
        Position6Cube { x: self.x, y: self.y, z: -(self.x + self.y) }
    }
}

impl From<(i16, i16)> for Position6Axial {
    fn from(f: (i16, i16)) -> (r: Self) {
        Position6Axial { x: f.0, y: f.1 }
    }
}

impl vstd::std_specs::convert::FromSpecImpl<(i16, i16)> for Position6Axial {
    open spec fn obeys_from_spec() -> bool {
        true
    }

    open spec fn from_spec(f: (i16, i16)) -> Self {
        Position6Axial { x: f.0, y: f.1 }
    }
}

impl From<Position6Cube> for Position6Axial {
    fn from(other: Position6Cube) -> (r: Self) {
        Position6Axial { x: other.x, y: other.y }
    }
}

impl vstd::std_specs::convert::FromSpecImpl<Position6Cube> for Position6Axial {
    open spec fn obeys_from_spec() -> bool {
        true
    }

    open spec fn from_spec(other: Position6Cube) -> Self {
        Position6Axial { x: other.x, y: other.y }
    }
}

impl Digestable for Position6Axial {
    open spec fn canon_le(&self) -> Seq<u8> {
        spec_u16_to_le_bytes(self.x as u16) + spec_u16_to_le_bytes(self.y as u16)
    }

    fn update_le(&self, out: &mut Vec<u8>) {
        self.x.update_le(out);
        self.y.update_le(out);
    }
}

impl Position6Cube {
    /// The hex distance: the sum of the absolute component differences.
    pub fn field_length(&self, other: &Position6Cube) -> (r: u32)
        ensures
            r == cube_field_length(*self, *other),
    {
        let dx: i32 = (self.x as i32) - (other.x as i32);
        let dy: i32 = (self.y as i32) - (other.y as i32);
        let dz: i32 = (self.z as i32) - (other.z as i32);
        let adx: i32 = if dx < 0 { -dx } else { dx };
        let ady: i32 = if dy < 0 { -dy } else { dy };
        let adz: i32 = if dz < 0 { -dz } else { dz };
        (adx + ady + adz) as u32
    }

    /// The hex distance to an axial-coordinate position.
    pub fn field_length_axial(&self, other: &Position6Axial) -> (r: u32)
        requires
            other.cube_in_range(),
        ensures
            r == cube_field_length(*self, other.spec_to_cube()),
    {
        self.field_length(&other.to_cube())
    }

    pub fn add(self, rhs: Position6Cube) -> (r: Position6Cube)
        requires
            i16::MIN <= self.x + rhs.x <= i16::MAX,
            i16::MIN <= self.y + rhs.y <= i16::MAX,
            i16::MIN <= self.z + rhs.z <= i16::MAX,
        ensures
            r.x == self.x + rhs.x,
            r.y == self.y + rhs.y,
            r.z == self.z + rhs.z,
    {
        Position6Cube { x: self.x + rhs.x, y: self.y + rhs.y, z: self.z + rhs.z }
    }

    pub fn add_assign(&mut self, rhs: Position6Cube)
        requires
            i16::MIN <= old(self).x + rhs.x <= i16::MAX,
            i16::MIN <= old(self).y + rhs.y <= i16::MAX,
            i16::MIN <= old(self).z + rhs.z <= i16::MAX,
        ensures
            final(self).x == old(self).x + rhs.x,
            final(self).y == old(self).y + rhs.y,
            final(self).z == old(self).z + rhs.z,
    {
        self.x = self.x + rhs.x;
        self.y = self.y + rhs.y;
        self.z = self.z + rhs.z;
    }

    pub fn sub(self, rhs: Position6Cube) -> (r: Position6Cube)
        requires
            i16::MIN <= self.x - rhs.x <= i16::MAX,
            i16::MIN <= self.y - rhs.y <= i16::MAX,
            i16::MIN <= self.z - rhs.z <= i16::MAX,
        ensures
            r.x == self.x - rhs.x,
            r.y == self.y - rhs.y,
            r.z == self.z - rhs.z,
    {
        Position6Cube { x: self.x - rhs.x, y: self.y - rhs.y, z: self.z - rhs.z }
    }

    pub fn sub_assign(&mut self, rhs: Position6Cube)
        requires
            i16::MIN <= old(self).x - rhs.x <= i16::MAX,
            i16::MIN <= old(self).y - rhs.y <= i16::MAX,
            i16::MIN <= old(self).z - rhs.z <= i16::MAX,
        ensures
            final(self).x == old(self).x - rhs.x,
            final(self).y == old(self).y - rhs.y,
            final(self).z == old(self).z - rhs.z,
    {
        self.x = self.x - rhs.x;
        self.y = self.y - rhs.y;
        self.z = self.z - rhs.z;
    }

    /// Addition of an axial-coordinate offset: x and y shift by the offset,
    /// and z absorbs the opposite amount so the components still sum as
    /// before.
    pub fn add_axial(self, rhs: Position6Axial) -> (r: Position6Cube)
        requires
            i16::MIN <= self.x + rhs.x <= i16::MAX,
            i16::MIN <= self.y + rhs.y <= i16::MAX,
            i16::MIN <= rhs.x + rhs.y <= i16::MAX,
            i16::MIN <= self.z - (rhs.x + rhs.y) <= i16::MAX,
        ensures
            r.x == self.x + rhs.x,
            r.y == self.y + rhs.y,
            r.z == self.z - (rhs.x + rhs.y),
    {
        Position6Cube { x: self.x + rhs.x, y: self.y + rhs.y, z: self.z - (rhs.x + rhs.y) }
    }

    pub fn add_assign_axial(&mut self, rhs: Position6Axial)
        requires
            i16::MIN <= old(self).x + rhs.x <= i16::MAX,
            i16::MIN <= old(self).y + rhs.y <= i16::MAX,
            i16::MIN <= rhs.x + rhs.y <= i16::MAX,
            i16::MIN <= old(self).z - (rhs.x + rhs.y) <= i16::MAX,
        ensures
            final(self).x == old(self).x + rhs.x,
            final(self).y == old(self).y + rhs.y,
            final(self).z == old(self).z - (rhs.x + rhs.y),
    {
        self.x = self.x + rhs.x;
        self.y = self.y + rhs.y;
        self.z = self.z - (rhs.x + rhs.y);
    }

    pub fn sub_axial(self, rhs: Position6Axial) -> (r: Position6Cube)
        requires
            i16::MIN <= self.x - rhs.x <= i16::MAX,
            i16::MIN <= self.y - rhs.y <= i16::MAX,
            i16::MIN <= rhs.y + rhs.x <= i16::MAX,
            i16::MIN <= self.z + rhs.y + rhs.x <= i16::MAX,
        ensures
            r.x == self.x - rhs.x,
            r.y == self.y - rhs.y,
            r.z == self.z + rhs.y + rhs.x,
    {
        Position6Cube { x: self.x - rhs.x, y: self.y - rhs.y, z: self.z + (rhs.y + rhs.x) }
    }

    pub fn sub_assign_axial(&mut self, rhs: Position6Axial)
        requires
            i16::MIN <= old(self).x - rhs.x <= i16::MAX,
            i16::MIN <= old(self).y - rhs.y <= i16::MAX,
            i16::MIN <= rhs.x + rhs.y <= i16::MAX,
            i16::MIN <= old(self).z + rhs.x + rhs.y <= i16::MAX,
        ensures
            final(self).x == old(self).x - rhs.x,
            final(self).y == old(self).y - rhs.y,
            final(self).z == old(self).z + rhs.x + rhs.y,
    {
        self.x = self.x - rhs.x;
        self.y = self.y - rhs.y;
        self.z = self.z + (rhs.x + rhs.y);
    }

    /// Negation as bitwise complement of each component.
    pub fn neg(self) -> (r: Position6Cube)
        ensures
            r.x == !self.x,
            r.y == !self.y,
            r.z == !self.z,
    {
        Position6Cube { x: !self.x, y: !self.y, z: !self.z }
    }
}

impl PositionHelper for Position6Cube {
    open spec fn neighbours_in_range(&self) -> bool {
        &&& self.x + 1 <= i16::MAX
        &&& self.x - 1 >= i16::MIN
        &&& self.y + 1 <= i16::MAX
        &&& self.y - 1 >= i16::MIN
        &&& self.z + 1 <= i16::MAX
        &&& self.z - 1 >= i16::MIN
    }

    open spec fn spec_neighbours(&self) -> Seq<Position6Cube> {
        seq![
            Position6Cube { x: (self.x + 1) as i16, y: self.y, z: (self.z - 1) as i16 },
            Position6Cube { x: self.x, y: (self.y + 1) as i16, z: (self.z - 1) as i16 },
            Position6Cube { x: (self.x - 1) as i16, y: (self.y + 1) as i16, z: self.z },
            Position6Cube { x: (self.x - 1) as i16, y: self.y, z: (self.z + 1) as i16 },
            Position6Cube { x: self.x, y: (self.y - 1) as i16, z: (self.z + 1) as i16 },
            Position6Cube { x: (self.x + 1) as i16, y: (self.y - 1) as i16, z: self.z },
        ]
    }

    fn neighbours(&self) -> (r: Vec<Position6Cube>) {
        let mut r: Vec<Position6Cube> = Vec::new();
        r.push(self.add(Position6Cube::from((1, 0, -1))));
        r.push(self.add(Position6Cube::from((0, 1, -1))));
        r.push(self.add(Position6Cube::from((-1, 1, 0))));
        r.push(self.add(Position6Cube::from((-1, 0, 1))));
        r.push(self.add(Position6Cube::from((0, -1, 1))));
        r.push(self.add(Position6Cube::from((1, -1, 0))));
        proof {
            assert(r@ =~= self.spec_neighbours());
        }
        r
    }
}

impl Position6 for Position6Cube {
    open spec fn cube_in_range(&self) -> bool {
        true
    }

    open spec fn spec_to_axial(&self) -> Position6Axial {
        Position6Axial { x: self.x, y: self.y }
    }

    open spec fn spec_to_cube(&self) -> Position6Cube {
        *self
    }

    fn to_axial(&self) -> (r: Position6Axial) {
        Position6Axial { x: self.x, y: self.y }
    }

    fn to_cube(&self) -> (r: Position6Cube) {
        *self
    }
}

impl From<Position6Axial> for Position6Cube {
    /// The third component is the wrapped negation of `x + y`; wherever
    /// `to_cube`'s precondition holds, no wrap occurs and the two agree.
    fn from(other: Position6Axial) -> (r: Self) {
        Position6Cube {
            x: other.x,
            y: other.y,
            z: (0i16).wrapping_sub(other.x.wrapping_add(other.y)),
        }
    }
}

impl vstd::std_specs::convert::FromSpecImpl<Position6Axial> for Position6Cube {
    open spec fn obeys_from_spec() -> bool {
        true
    }

    open spec fn from_spec(other: Position6Axial) -> Self {
        Position6Cube {
            x: other.x,
            y: other.y,
            z: (0i16).wrapping_sub(other.x.wrapping_add(other.y)),
        }
    }
}

impl From<(i16, i16, i16)> for Position6Cube {
    fn from(f: (i16, i16, i16)) -> (r: Self) {
        Position6Cube { x: f.0, y: f.1, z: f.2 }
    }
}

impl vstd::std_specs::convert::FromSpecImpl<(i16, i16, i16)> for Position6Cube {
    open spec fn obeys_from_spec() -> bool {
        true
    }

    open spec fn from_spec(f: (i16, i16, i16)) -> Self {
        Position6Cube { x: f.0, y: f.1, z: f.2 }
    }
}

impl Digestable for Position6Cube {
    /// All three components contribute, so positions that differ in any
    /// field encode differently, whether or not they sum to zero.
    open spec fn canon_le(&self) -> Seq<u8> {
        spec_u16_to_le_bytes(self.x as u16) + spec_u16_to_le_bytes(self.y as u16)
            + spec_u16_to_le_bytes(self.z as u16)
    }

    fn update_le(&self, out: &mut Vec<u8>) {
        self.x.update_le(out);
        self.y.update_le(out);
        self.z.update_le(out);
    }
}

} // verus!
