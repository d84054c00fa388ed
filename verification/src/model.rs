//! The level data model: geometric primitives, ammunition, shapes, the
//! closed family of entity kinds, and the aggregate level.

use vstd::prelude::*;
use crate::num::Num;

verus! {

/// A 2D position or vertex, held as a pair of decimal values.
#[derive(Debug)]
pub struct Point {
    pub x: Num,
    pub y: Num,
}

impl Point {
    pub fn new(x: Num, y: Num) -> (r: Point)
        ensures
            r.x == x,
            r.y == y,
    {
        Point { x, y }
    }
}

impl PartialEq for Point {
    /// Structural equality, component by component.
    fn eq(&self, other: &Point) -> (r: bool) {
        self.x == other.x && self.y == other.y
    }
}

impl vstd::std_specs::cmp::PartialEqSpecImpl for Point {
    open spec fn obeys_eq_spec() -> bool {
        true
    }

    open spec fn eq_spec(&self, other: &Point) -> bool {
        self.x.neg == other.x.neg && self.x.int_part == other.x.int_part && self.x.frac@
            == other.x.frac@ && self.y.neg == other.y.neg && self.y.int_part == other.y.int_part
            && self.y.frac@ == other.y.frac@
    }
}

impl Default for Point {
    /// The origin.
    fn default() -> (r: Point)
        ensures
            !r.x.neg && r.x.int_part == 0 && r.x.frac@ == Seq::<u8>::empty(),
            !r.y.neg && r.y.int_part == 0 && r.y.frac@ == Seq::<u8>::empty(),
    {
        Point { x: Num::from_i64(0), y: Num::from_i64(0) }
    }
}

/// One round of ammunition.
pub enum AmmoType {
    Empty,
    Bomb,
    Grenade,
}

/// Whether a character names an ammunition round (case-insensitively:
/// `b` for a bomb, `g` for a grenade, `e` for an empty slot).
pub open spec fn is_ammo_char(c: char) -> bool {
    c == 'b' || c == 'B' || c == 'g' || c == 'G' || c == 'e' || c == 'E'
}

/// The round a valid character names.
pub open spec fn ammo_of_char(c: char) -> AmmoType {
    if c == 'b' || c == 'B' {
        AmmoType::Bomb
    } else if c == 'g' || c == 'G' {
        AmmoType::Grenade
    } else {
        AmmoType::Empty
    }
}

/// The magazine built from a firing-order string: the stored sequence is
/// the input read in reverse, so the first character of the input is the
/// round that fires last.
pub open spec fn spec_magazine_of(s: Seq<char>) -> Seq<AmmoType> {
    Seq::new(s.len(), |i: int| ammo_of_char(s[s.len() - 1 - i]))
}

/// A player's ammunition: either an endless supply of one round, or a
/// finite magazine stored in reverse firing order.
pub enum Ammo {
    Infinite(AmmoType),
    Finite(Vec<AmmoType>),
}

impl Ammo {
    /// Builds a finite magazine from a firing-order string.  Succeeds
    /// exactly when every character of the input names a round; the
    /// stored magazine is the input mapped to rounds and reversed, and
    /// any invalid character fails the whole call with no partial result.
    pub fn finite_seq(s: &str) -> (r: Result<Ammo, String>)
        ensures
            match r {
                Ok(a) => (forall|i: int| 0 <= i < s@.len() ==> is_ammo_char(#[trigger] s@[i])) && (
                a matches Ammo::Finite(mag) && mag@ == spec_magazine_of(s@)),
                Err(m) => (exists|i: int| 0 <= i < s@.len() && !is_ammo_char(#[trigger] s@[i]))
                    && m@ == "Ammo Doesn't exist"@,
            },
    {
        let n = s.unicode_len();
        let mut mag: Vec<AmmoType> = Vec::new();
        let mut i: usize = 0;
        while i < n
            invariant
                s@.len() == n,
                0 <= i <= n,
                mag@.len() == i,
                forall|j: int|
                    0 <= j < i ==> is_ammo_char(#[trigger] s@[n - 1 - j]) && mag@[j] == ammo_of_char(
                        s@[n - 1 - j],
                    ),
            decreases n - i,
        {
            let c = s.get_char(n - 1 - i);
            if c == 'b' || c == 'B' {
                mag.push(AmmoType::Bomb);
            } else if c == 'g' || c == 'G' {
                mag.push(AmmoType::Grenade);
            } else if c == 'e' || c == 'E' {
                mag.push(AmmoType::Empty);
            } else {
                proof {
                    assert(!is_ammo_char(s@[n - 1 - i]));
                }
                return Err("Ammo Doesn't exist".to_owned());
            }
            i += 1;
        }
        proof {
            assert(mag@ =~= spec_magazine_of(s@));
            assert forall|k: int| 0 <= k < s@.len() implies is_ammo_char(#[trigger] s@[k]) by {
                assert(is_ammo_char(s@[n - 1 - (n - 1 - k)]));
            }
        }
        Ok(Ammo::Finite(mag))
    }
}

/// The outline of a material surface: a polygon given by its vertices, or
/// a circle given by its centre and radius.  The wire format carries no
/// discriminator; consumers tell the two apart by which fields appear.
pub enum Shape {
    Polygon { vertices: Vec<Point> },
    Circle { x: Num, y: Num, radius: Num },
}

/// Horizontal alignment of a text entity.
pub enum TextAlign {
    Left,
    Center,
    Right,
    Justify,
}

/// One placeable object of a level.
pub enum Entity {
    Player { is_static: bool, angle: i32, x: Num, y: Num, ammo: Ammo },
    Door { is_static: bool, angle: i32, x: Num, y: Num, right_facing: bool },
    Text {
        angle: i32,
        x: Num,
        y: Num,
        text: Vec<(String, String)>,
        anchor: Point,
        align: TextAlign,
        fill_color: i32,
        opacity: Num,
    },
    Paint { fill_color: i32, opacity: Num, vertices: Vec<Point> },
    Normal { is_static: bool, shape: Shape },
    Ice { is_static: bool, shape: Shape },
    Breakable { is_static: bool, shape: Shape },
    Deadly { is_static: bool, shape: Shape },
    Bouncy { is_static: bool, shape: Shape },
}

impl Entity {
    /// A text entity with the documented defaults: no rotation, an `"en"`
    /// localisation carrying the given text, an anchor of `(0.5, 0.5)`,
    /// left alignment, a white fill and full opacity.
    pub fn new_text(pos: Point, text: &str) -> (r: Entity)
        ensures
            r matches Entity::Text {
                angle,
                x,
                y,
                text: copy,
                anchor,
                align,
                fill_color,
                opacity,
            } && angle == 0 && x == pos.x && y == pos.y && copy@.len() == 1 && copy@[0].0@ == "en"@
                && copy@[0].1@ == text@ && anchor.x.neg == false && anchor.x.int_part == 0
                && anchor.x.frac@ == seq![5u8] && anchor.y.neg == false && anchor.y.int_part == 0
                && anchor.y.frac@ == seq![5u8] && align == TextAlign::Left && fill_color == 16777215
                && opacity.neg == false && opacity.int_part == 1 && opacity.frac@ == Seq::<
                u8,
            >::empty(),
    {
        let mut copy: Vec<(String, String)> = Vec::new();
        copy.push(("en".to_owned(), text.to_owned()));
        let mut fx: Vec<u8> = Vec::new();
        fx.push(5);
        let mut fy: Vec<u8> = Vec::new();
        fy.push(5);
        proof {
            assert(fx@ =~= seq![5u8]);
            assert(fy@ =~= seq![5u8]);
        }
        Entity::Text {
            angle: 0,
            x: pos.x,
            y: pos.y,
            text: copy,
            anchor: Point {
                x: Num { neg: false, int_part: 0, frac: fx },
                y: Num { neg: false, int_part: 0, frac: fy },
            },
            align: TextAlign::Left,
            fill_color: 16777215,
            opacity: Num { neg: false, int_part: 1, frac: Vec::new() },
        }
    }
}

/// The aggregate root: a named level with its timing bounds, its entities
/// in the order they were pushed, and a format-version stamp.
pub struct Level {
    pub name: String,
    pub timings: [i32; 2],
    pub entities: Vec<Entity>,
    pub format_version: u8,
}

impl Level {
    /// An empty level with the given name and timings; the version stamp
    /// of the current wire format is zero.
    pub fn new(name: String, timings: [i32; 2]) -> (r: Level)
        ensures
            r.name@ == name@,
            r.timings@ == timings@,
            r.entities@ == Seq::<Entity>::empty(),
            r.format_version == 0,
    {
        Level { name, timings, entities: Vec::new(), format_version: 0 }
    }

    /// Appends an entity; every other part of the level is untouched, so
    /// entities are kept exactly in push order.
    pub fn push(&mut self, entity: Entity)
        ensures
            final(self).name@ == old(self).name@,
            final(self).timings@ == old(self).timings@,
            final(self).format_version == old(self).format_version,
            final(self).entities@ == old(self).entities@.push(entity),
    {
        self.entities.push(entity);
    }

    /// Removes every entity; idempotent, and nothing else changes.
    pub fn clear(&mut self)
        ensures
            final(self).name@ == old(self).name@,
            final(self).timings@ == old(self).timings@,
            final(self).format_version == old(self).format_version,
            final(self).entities@ == Seq::<Entity>::empty(),
    {
        self.entities.clear();
    }
}

} // verus!
