use vstd::prelude::*;

verus! {

/// One of the four cardinal directions.
#[derive(Clone, Copy, Debug, PartialEq, Eq, Structural)]
pub enum Direction {
    Up,
    Down,
    Left,
    Right,
}

/// A grid position: `.0` is the column, `.1` the row.
#[derive(Clone, Copy, Debug, PartialEq, Eq, Structural)]
pub struct Coord(pub u16, pub u16);

/// A signed displacement: `.0` along columns, `.1` along rows.
#[derive(Clone, Copy, Debug, PartialEq, Eq, Structural)]
pub struct Offset(pub i16, pub i16);

/// Column delta of a direction.
pub open spec fn dir_dx(d: Direction) -> int {
    match d {
        Direction::Left => -1,
        Direction::Right => 1,
        _ => 0,
    }
}

/// Row delta of a direction.
pub open spec fn dir_dy(d: Direction) -> int {
    match d {
        Direction::Up => -1,
        Direction::Down => 1,
        _ => 0,
    }
}

/// Clamps a mathematical integer into the range of `i16`.
pub open spec fn saturate_i16(v: int) -> int {
    if v > i16::MAX {
        i16::MAX as int
    } else if v < i16::MIN {
        i16::MIN as int
    } else {
        v
    }
}

/// The coordinate `c + o`, if both components stay within `u16`.
pub open spec fn shifted(c: Coord, o: Offset) -> Option<Coord> {
    let x = c.0 + o.0;
    let y = c.1 + o.1;
    if 0 <= x <= u16::MAX && 0 <= y <= u16::MAX {
        Some(Coord(x as u16, y as u16))
    } else {
        None
    }
}

/// The coordinate `k` steps from `c` in direction `d`, if it is representable.
pub open spec fn step_spec(c: Coord, d: Direction, k: int) -> Option<Coord> {
    let x = c.0 + k * dir_dx(d);
    let y = c.1 + k * dir_dy(d);
    if 0 <= x <= u16::MAX && 0 <= y <= u16::MAX {
        Some(Coord(x as u16, y as u16))
    } else {
        None
    }
}

fn saturating_mul_i16(a: i16, b: i16) -> (r: i16)
    ensures
        r == saturate_i16(a * b),
{
    proof {
        assert(-1073741824 <= a * b <= 1073741824) by (nonlinear_arith)
            requires
                -32768 <= a <= 32767,
                -32768 <= b <= 32767,
        ;
    }
    let p: i32 = (a as i32) * (b as i32);
    if p > i16::MAX as i32 {
        i16::MAX
    } else if p < i16::MIN as i32 {
        i16::MIN
    } else {
        p as i16
    }
}

impl Offset {
    /// Both components scaled by `k`, saturating at the bounds of `i16`.
    pub fn mul(self, k: i16) -> (r: Offset)
        ensures
            r.0 == saturate_i16(self.0 * k),
            r.1 == saturate_i16(self.1 * k),
    {
        Offset(saturating_mul_i16(self.0, k), saturating_mul_i16(self.1, k))
    }

    /// The opposite displacement, saturating at the bounds of `i16`.
    pub fn neg(self) -> (r: Offset)
        ensures
            r.0 == saturate_i16(-self.0),
            r.1 == saturate_i16(-self.1),
    {
        self.mul(-1)
    }

    /// The unit displacement of a direction.
    pub fn from_direction(d: Direction) -> (r: Offset)
        ensures
            r.0 == dir_dx(d),
            r.1 == dir_dy(d),
    {
        match d {
            Direction::Up => Offset(0, -1),
            Direction::Down => Offset(0, 1),
            Direction::Right => Offset(1, 0),
            Direction::Left => Offset(-1, 0),
        }
    }
}

impl Coord {
    /// `self + o`, or `None` where a component would leave the range of `u16`.
    pub fn add(self, o: Offset) -> (r: Option<Coord>)
        ensures
            r == shifted(self, o),
    {
        let x: i32 = self.0 as i32 + o.0 as i32;
        let y: i32 = self.1 as i32 + o.1 as i32;
        if 0 <= x && x <= u16::MAX as i32 && 0 <= y && y <= u16::MAX as i32 {
            Some(Coord(x as u16, y as u16))
        } else {
            None
        }
    }

    /// `self - o`, or `None` where a component would leave the range of `u16`.
    pub fn sub(self, o: Offset) -> (r: Option<Coord>)
        ensures
            r == shifted(self, Offset(saturate_i16(-o.0) as i16, saturate_i16(-o.1) as i16)),
    {
        self.add(o.neg())
    }

    /// The coordinate `k` steps away in direction `d` (backwards for negative
    /// `k`), where it is representable.
    pub fn step(self, d: Direction, k: i16) -> (r: Option<Coord>)
        requires
            -i16::MAX <= k,
        ensures
            r == step_spec(self, d, k as int),
    {
        let o = Offset::from_direction(d).mul(k);
        proof {
            let (dx, dy) = (dir_dx(d), dir_dy(d));
            assert(-32767 <= dx * k <= 32767 && dx * k == k * dx) by (nonlinear_arith)
                requires
                    -32767 <= k <= 32767,
                    -1 <= dx <= 1,
            ;
            assert(-32767 <= dy * k <= 32767 && dy * k == k * dy) by (nonlinear_arith)
                requires
                    -32767 <= k <= 32767,
                    -1 <= dy <= 1,
            ;
        }
        self.add(o)
    }
}

} // verus!
