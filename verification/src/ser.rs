//! The JSON wire format.
//!
//! Each `spec_*_json` function defines, character for character, the JSON
//! text a value serializes to; the writers produce exactly that text.  The
//! format follows the level editor's wire contract: camel-case field names,
//! entities as `{"type": tag, "params": {...}}` objects, a player's ammo
//! and a material's shape flattened into the surrounding `params` object,
//! and numbers rendered with at least one fractional digit.

use vstd::prelude::*;
use crate::model::Ammo;
use crate::model::AmmoType;
use crate::model::Entity;
use crate::model::Level;
use crate::model::Point;
use crate::model::Shape;
use crate::model::TextAlign;
use crate::num::Num;
use crate::num::spec_i32_str;
use crate::num::spec_u64_str;
use crate::num::write_i32;
use crate::num::write_num;
use crate::num::write_u64;

verus! {

/// The given renderings joined with commas, in order.
pub open spec fn join_comma<T>(f: spec_fn(T) -> Seq<char>, items: Seq<T>) -> Seq<char>
    decreases items.len(),
{
    if items.len() == 0 {
        Seq::<char>::empty()
    } else if items.len() == 1 {
        f(items[0])
    } else {
        join_comma(f, items.drop_last()) + ","@ + f(items.last())
    }
}

/// How a comma-joined rendering grows by one item.
pub proof fn lemma_join_comma_step<T>(f: spec_fn(T) -> Seq<char>, items: Seq<T>, i: int)
    requires
        0 <= i < items.len(),
    ensures
        join_comma(f, items.take(i + 1)) == (if i == 0 {
            f(items[0])
        } else {
            join_comma(f, items.take(i)) + ","@ + f(items[i])
        }),
{
    let t = items.take(i + 1);
    if i == 0 {
        assert(t.len() == 1);
        assert(t[0] == items[0]);
    } else {
        assert(t.drop_last() =~= items.take(i));
        assert(t.last() == items[i]);
    }
}

/// The JSON spelling of a boolean.
pub open spec fn spec_bool_json(b: bool) -> Seq<char> {
    if b {
        "true"@
    } else {
        "false"@
    }
}

/// The quoted JSON string for an ammunition round; a bomb is spelled
/// `"bullet"` on the wire.
pub open spec fn spec_ammo_type_json(t: AmmoType) -> Seq<char> {
    match t {
        AmmoType::Empty => "\"empty\""@,
        AmmoType::Bomb => "\"bullet\""@,
        AmmoType::Grenade => "\"grenade\""@,
    }
}

pub open spec fn ammo_type_json_fn() -> spec_fn(AmmoType) -> Seq<char> {
    |t: AmmoType| spec_ammo_type_json(t)
}

/// The key-value pair an ammunition value contributes: the variant picks
/// the key itself (`infiniteAmmo` or `magazine`), which is what lets it be
/// flattened into a player's `params` object.
pub open spec fn spec_ammo_json(a: Ammo) -> Seq<char> {
    match a {
        Ammo::Infinite(t) => "\"infiniteAmmo\":"@ + spec_ammo_type_json(t),
        Ammo::Finite(mag) => "\"magazine\":["@ + join_comma(ammo_type_json_fn(), mag@) + "]"@,
    }
}

/// A point as a JSON object.
pub open spec fn spec_point_json(p: Point) -> Seq<char> {
    "{\"x\":"@ + p.x.spec_json() + ",\"y\":"@ + p.y.spec_json() + "}"@
}

pub open spec fn point_json_fn() -> spec_fn(Point) -> Seq<char> {
    |p: Point| spec_point_json(p)
}

/// A vertex list as a JSON array.
pub open spec fn spec_points_json(ps: Seq<Point>) -> Seq<char> {
    "["@ + join_comma(point_json_fn(), ps) + "]"@
}

/// The quoted JSON string for a text alignment.
pub open spec fn spec_align_json(a: TextAlign) -> Seq<char> {
    match a {
        TextAlign::Left => "\"left\""@,
        TextAlign::Center => "\"center\""@,
        TextAlign::Right => "\"right\""@,
        TextAlign::Justify => "\"justify\""@,
    }
}

/// The character for a hexadecimal digit, in lower case; values sixteen
/// and above lie outside every use and map to `'0'`.
pub open spec fn hex_char(d: u8) -> char {
    match d {
        0u8 => '0',
        1u8 => '1',
        2u8 => '2',
        3u8 => '3',
        4u8 => '4',
        5u8 => '5',
        6u8 => '6',
        7u8 => '7',
        8u8 => '8',
        9u8 => '9',
        10u8 => 'a',
        11u8 => 'b',
        12u8 => 'c',
        13u8 => 'd',
        14u8 => 'e',
        15u8 => 'f',
        _ => '0',
    }
}

/// How one character appears inside a JSON string: quotes and backslashes
/// are escaped, the common control characters get their short escapes, any
/// other control character a `\u00XX` escape, and everything else stands
/// as itself.
pub open spec fn spec_escape_char(c: char) -> Seq<char> {
    if c == '"' {
        "\\\""@
    } else if c == '\\' {
        "\\\\"@
    } else if c == '\n' {
        "\\n"@
    } else if c == '\r' {
        "\\r"@
    } else if c == '\t' {
        "\\t"@
    } else if c as int == 8 {
        "\\b"@
    } else if c as int == 12 {
        "\\f"@
    } else if (c as int) < 32 {
        "\\u00"@ + seq![hex_char(((c as int) / 16) as u8), hex_char(((c as int) % 16) as u8)]
    } else {
        seq![c]
    }
}

/// A whole character sequence escaped for a JSON string.
pub open spec fn spec_escape(s: Seq<char>) -> Seq<char>
    decreases s.len(),
{
    if s.len() == 0 {
        Seq::<char>::empty()
    } else {
        spec_escape(s.drop_last()) + spec_escape_char(s.last())
    }
}

/// A quoted and escaped JSON string.
pub open spec fn spec_string_json(s: Seq<char>) -> Seq<char> {
    "\""@ + spec_escape(s) + "\""@
}

/// One entry of a localisation object.
pub open spec fn copy_entry_json_fn() -> spec_fn((String, String)) -> Seq<char> {
    |e: (String, String)| spec_string_json(e.0@) + ":"@ + spec_string_json(e.1@)
}

/// A localisation map as a JSON object, entries in stored order.
pub open spec fn spec_copy_json(entries: Seq<(String, String)>) -> Seq<char> {
    "{"@ + join_comma(copy_entry_json_fn(), entries) + "}"@
}

/// The single-character string for a lower-case hexadecimal digit.
fn hex_str(d: u8) -> (r: &'static str)
    ensures
        r@ == seq![hex_char(d)],
{
    proof {
        reveal_strlit("0");
        reveal_strlit("1");
        reveal_strlit("2");
        reveal_strlit("3");
        reveal_strlit("4");
        reveal_strlit("5");
        reveal_strlit("6");
        reveal_strlit("7");
        reveal_strlit("8");
        reveal_strlit("9");
        reveal_strlit("a");
        reveal_strlit("b");
        reveal_strlit("c");
        reveal_strlit("d");
        reveal_strlit("e");
        reveal_strlit("f");
    }
    match d {
        0u8 => "0",
        1u8 => "1",
        2u8 => "2",
        3u8 => "3",
        4u8 => "4",
        5u8 => "5",
        6u8 => "6",
        7u8 => "7",
        8u8 => "8",
        9u8 => "9",
        10u8 => "a",
        11u8 => "b",
        12u8 => "c",
        13u8 => "d",
        14u8 => "e",
        15u8 => "f",
        _ => "0",
    }
}

/// Appends the escaped form of a string's characters.
fn write_escaped(out: &mut String, s: &str)
    ensures
        final(out)@ == old(out)@ + spec_escape(s@),
{
    let ghost orig: Seq<char> = out@;
    let n = s.unicode_len();
    let mut i: usize = 0;
    while i < n
        invariant
            s@.len() == n,
            0 <= i <= n,
            out@ == orig + spec_escape(s@.take(i as int)),
        decreases n - i,
    {
        let c = s.get_char(i);
        if c == '"' {
            out.append("\\\"");
        } else if c == '\\' {
            out.append("\\\\");
        } else if c == '\n' {
            out.append("\\n");
        } else if c == '\r' {
            out.append("\\r");
        } else if c == '\t' {
            out.append("\\t");
        } else if c as u32 == 8 {
            out.append("\\b");
        } else if c as u32 == 12 {
            out.append("\\f");
        } else if (c as u32) < 32 {
            let u = c as u32;
            out.append("\\u00");
            out.append(hex_str((u / 16) as u8));
            out.append(hex_str((u % 16) as u8));
        } else {
            let piece = s.substring_char(i, i + 1);
            out.append(piece);
            proof {
                assert(piece@ =~= seq![s@[i as int]]);
            }
        }
        proof {
            assert(s@.take(i + 1 as int).drop_last() =~= s@.take(i as int));
            assert(s@.take(i + 1 as int).last() == s@[i as int]);
            assert(out@ =~= orig + spec_escape(s@.take(i + 1 as int)));
        }
        i += 1;
    }
    proof {
        assert(s@.take(n as int) =~= s@);
    }
}

/// Appends a quoted and escaped JSON string.
fn write_string_json(out: &mut String, s: &str)
    ensures
        final(out)@ == old(out)@ + spec_string_json(s@),
{
    let ghost orig: Seq<char> = out@;
    out.append("\"");
    write_escaped(out, s);
    out.append("\"");
    assert(out@ =~= orig + spec_string_json(s@));
}

/// Appends a localisation map as a JSON object.
fn write_copy(out: &mut String, entries: &Vec<(String, String)>)
    ensures
        final(out)@ == old(out)@ + spec_copy_json(entries@),
{
    let ghost orig: Seq<char> = out@;
    out.append("{");
    let mut i: usize = 0;
    while i < entries.len()
        invariant
            0 <= i <= entries@.len(),
            out@ == orig + "{"@ + join_comma(copy_entry_json_fn(), entries@.take(i as int)),
        decreases entries@.len() - i,
    {
        if i > 0 {
            out.append(",");
        }
        write_string_json(out, entries[i].0.as_str());
        out.append(":");
        write_string_json(out, entries[i].1.as_str());
        proof {
            lemma_join_comma_step(copy_entry_json_fn(), entries@, i as int);
            assert(out@ =~= orig + "{"@ + join_comma(
                copy_entry_json_fn(),
                entries@.take(i + 1 as int),
            ));
        }
        i += 1;
    }
    out.append("}");
    proof {
        assert(entries@.take(entries@.len() as int) =~= entries@);
        assert(out@ =~= orig + spec_copy_json(entries@));
    }
}

fn write_bool(out: &mut String, b: bool)
    ensures
        final(out)@ == old(out)@ + spec_bool_json(b),
{
    if b {
        out.append("true");
    } else {
        out.append("false");
    }
}

fn write_ammo_type(out: &mut String, t: &AmmoType)
    ensures
        final(out)@ == old(out)@ + spec_ammo_type_json(*t),
{
    match t {
        AmmoType::Empty => out.append("\"empty\""),
        AmmoType::Bomb => out.append("\"bullet\""),
        AmmoType::Grenade => out.append("\"grenade\""),
    }
}

fn write_ammo(out: &mut String, a: &Ammo)
    ensures
        final(out)@ == old(out)@ + spec_ammo_json(*a),
{
    let ghost orig: Seq<char> = out@;
    match a {
        Ammo::Infinite(t) => {
            out.append("\"infiniteAmmo\":");
            write_ammo_type(out, t);
            assert(out@ =~= orig + spec_ammo_json(*a));
        },
        Ammo::Finite(mag) => {
            out.append("\"magazine\":[");
            let mut i: usize = 0;
            while i < mag.len()
                invariant
                    0 <= i <= mag@.len(),
                    out@ == orig + "\"magazine\":["@ + join_comma(
                        ammo_type_json_fn(),
                        mag@.take(i as int),
                    ),
                decreases mag@.len() - i,
            {
                if i > 0 {
                    out.append(",");
                }
                write_ammo_type(out, &mag[i]);
                proof {
                    lemma_join_comma_step(ammo_type_json_fn(), mag@, i as int);
                    assert(out@ =~= orig + "\"magazine\":["@ + join_comma(
                        ammo_type_json_fn(),
                        mag@.take(i + 1 as int),
                    ));
                }
                i += 1;
            }
            out.append("]");
            proof {
                assert(mag@.take(mag@.len() as int) =~= mag@);
                assert(out@ =~= orig + spec_ammo_json(*a));
            }
        },
    }
}

fn write_point(out: &mut String, p: &Point)
    ensures
        final(out)@ == old(out)@ + spec_point_json(*p),
{
    let ghost orig: Seq<char> = out@;
    out.append("{\"x\":");
    write_num(out, &p.x);
    out.append(",\"y\":");
    write_num(out, &p.y);
    out.append("}");
    assert(out@ =~= orig + spec_point_json(*p));
}

fn write_points(out: &mut String, ps: &Vec<Point>)
    ensures
        final(out)@ == old(out)@ + spec_points_json(ps@),
{
    let ghost orig: Seq<char> = out@;
    out.append("[");
    let mut i: usize = 0;
    while i < ps.len()
        invariant
            0 <= i <= ps@.len(),
            out@ == orig + "["@ + join_comma(point_json_fn(), ps@.take(i as int)),
        decreases ps@.len() - i,
    {
        if i > 0 {
            out.append(",");
        }
        write_point(out, &ps[i]);
        proof {
            lemma_join_comma_step(point_json_fn(), ps@, i as int);
            assert(out@ =~= orig + "["@ + join_comma(point_json_fn(), ps@.take(i + 1 as int)));
        }
        i += 1;
    }
    out.append("]");
    proof {
        assert(ps@.take(ps@.len() as int) =~= ps@);
        assert(out@ =~= orig + spec_points_json(ps@));
    }
}

fn write_align(out: &mut String, a: &TextAlign)
    ensures
        final(out)@ == old(out)@ + spec_align_json(*a),
{
    match a {
        TextAlign::Left => out.append("\"left\""),
        TextAlign::Center => out.append("\"center\""),
        TextAlign::Right => out.append("\"right\""),
        TextAlign::Justify => out.append("\"justify\""),
    }
}

/// The fields a shape contributes, merged straight into the surrounding
/// `params` object: a polygon brings `vertices`, a circle brings `x`, `y`
/// and `radius`, with no discriminator of its own.
pub open spec fn spec_shape_json(s: Shape) -> Seq<char> {
    match s {
        Shape::Polygon { vertices } => "\"vertices\":"@ + spec_points_json(vertices@),
        Shape::Circle { x, y, radius } => "\"x\":"@ + x.spec_json() + ",\"y\":"@ + y.spec_json()
            + ",\"radius\":"@ + radius.spec_json(),
    }
}

/// A material-surface entity: the tag names the material, and the shape's
/// fields sit beside `isStatic` in the same `params` object.
pub open spec fn spec_material_json(tag: Seq<char>, is_static: bool, shape: Shape) -> Seq<char> {
    "{\"type\":\""@ + tag + "\",\"params\":{\"isStatic\":"@ + spec_bool_json(is_static) + ","@
        + spec_shape_json(shape) + "}}"@
}

/// An entity as a tagged JSON object, `{"type": tag, "params": {...}}`.
/// A door is tagged `"endpoint"`; a text entity's strings appear under the
/// key `copy`; a player's ammo key is a sibling of its other fields.
pub open spec fn spec_entity_json(e: Entity) -> Seq<char> {
    match e {
        Entity::Player { is_static, angle, x, y, ammo } => "{\"type\":\"player\",\"params\":{\"isStatic\":"@
            + spec_bool_json(is_static) + ",\"angle\":"@ + spec_i32_str(angle as int) + ",\"x\":"@
            + x.spec_json() + ",\"y\":"@ + y.spec_json() + ","@ + spec_ammo_json(ammo) + "}}"@,
        Entity::Door { is_static, angle, x, y, right_facing } => "{\"type\":\"endpoint\""@
            + ",\"params\":{\"isStatic\":"@ + spec_bool_json(is_static) + ",\"angle\":"@
            + spec_i32_str(angle as int) + ",\"x\":"@ + x.spec_json() + ",\"y\":"@ + y.spec_json()
            + ",\"rightFacing\":"@ + spec_bool_json(right_facing) + "}}"@,
        Entity::Text { angle, x, y, text, anchor, align, fill_color, opacity } => "{\"type\":\"text\",\"params\":{\"angle\":"@
            + spec_i32_str(angle as int) + ",\"x\":"@ + x.spec_json() + ",\"y\":"@ + y.spec_json()
            + ",\"copy\":"@ + spec_copy_json(text@) + ",\"anchor\":"@ + spec_point_json(anchor)
            + ",\"align\":"@ + spec_align_json(align) + ",\"fillColor\":"@ + spec_i32_str(
            fill_color as int,
        ) + ",\"opacity\":"@ + opacity.spec_json() + "}}"@,
        Entity::Paint { fill_color, opacity, vertices } => "{\"type\":\"paint\",\"params\":{\"fillColor\":"@
            + spec_i32_str(fill_color as int) + ",\"opacity\":"@ + opacity.spec_json()
            + ",\"vertices\":"@ + spec_points_json(vertices@) + "}}"@,
        Entity::Normal { is_static, shape } => spec_material_json("normal"@, is_static, shape),
        Entity::Ice { is_static, shape } => spec_material_json("ice"@, is_static, shape),
        Entity::Breakable { is_static, shape } => spec_material_json(
            "breakable"@,
            is_static,
            shape,
        ),
        Entity::Deadly { is_static, shape } => spec_material_json("deadly"@, is_static, shape),
        Entity::Bouncy { is_static, shape } => spec_material_json("bouncy"@, is_static, shape),
    }
}

pub open spec fn entity_json_fn() -> spec_fn(Entity) -> Seq<char> {
    |e: Entity| spec_entity_json(e)
}

/// The entity list as a JSON array, exactly in push order.
pub open spec fn spec_entities_json(es: Seq<Entity>) -> Seq<char> {
    "["@ + join_comma(entity_json_fn(), es) + "]"@
}

/// A whole level as a JSON document.
pub open spec fn spec_level_json(l: Level) -> Seq<char> {
    "{\"name\":"@ + spec_string_json(l.name@) + ",\"timings\":["@ + spec_i32_str(
        l.timings@[0] as int,
    ) + ","@ + spec_i32_str(l.timings@[1] as int) + "],\"entities\":"@ + spec_entities_json(
        l.entities@,
    ) + ",\"formatVersion\":"@ + spec_u64_str(l.format_version as nat) + "}"@
}

fn write_shape(out: &mut String, s: &Shape)
    ensures
        final(out)@ == old(out)@ + spec_shape_json(*s),
{
    let ghost orig: Seq<char> = out@;
    match s {
        Shape::Polygon { vertices } => {
            out.append("\"vertices\":");
            write_points(out, vertices);
            assert(out@ =~= orig + spec_shape_json(*s));
        },
        Shape::Circle { x, y, radius } => {
            out.append("\"x\":");
            write_num(out, x);
            out.append(",\"y\":");
            write_num(out, y);
            out.append(",\"radius\":");
            write_num(out, radius);
            assert(out@ =~= orig + spec_shape_json(*s));
        },
    }
}

fn write_material(out: &mut String, tag: &str, is_static: bool, shape: &Shape)
    ensures
        final(out)@ == old(out)@ + spec_material_json(tag@, is_static, *shape),
{
    let ghost orig: Seq<char> = out@;
    out.append("{\"type\":\"");
    out.append(tag);
    out.append("\",\"params\":{\"isStatic\":");
    write_bool(out, is_static);
    out.append(",");
    write_shape(out, shape);
    out.append("}}");
    assert(out@ =~= orig + spec_material_json(tag@, is_static, *shape));
}

#[verifier::rlimit(30)]
fn write_player(out: &mut String, is_static: bool, angle: i32, x: &Num, y: &Num, ammo: &Ammo)
    ensures
        final(out)@ == old(out)@ + spec_entity_json(
            Entity::Player { is_static, angle, x: *x, y: *y, ammo: *ammo },
        ),
{
    let ghost orig: Seq<char> = out@;
    out.append("{\"type\":\"player\",\"params\":{\"isStatic\":");
    write_bool(out, is_static);
    out.append(",\"angle\":");
    write_i32(out, angle);
    out.append(",\"x\":");
    write_num(out, x);
    out.append(",\"y\":");
    write_num(out, y);
    out.append(",");
    write_ammo(out, ammo);
    out.append("}}");
    assert(out@ =~= orig + spec_entity_json(
        Entity::Player { is_static, angle, x: *x, y: *y, ammo: *ammo },
    ));
}

#[verifier::rlimit(30)]
fn write_door(out: &mut String, is_static: bool, angle: i32, x: &Num, y: &Num, right_facing: bool)
    ensures
        final(out)@ == old(out)@ + spec_entity_json(
            Entity::Door { is_static, angle, x: *x, y: *y, right_facing },
        ),
{
    let ghost orig: Seq<char> = out@;
    out.append("{\"type\":\"endpoint\"");
    out.append(",\"params\":{\"isStatic\":");
    write_bool(out, is_static);
    out.append(",\"angle\":");
    write_i32(out, angle);
    out.append(",\"x\":");
    write_num(out, x);
    out.append(",\"y\":");
    write_num(out, y);
    out.append(",\"rightFacing\":");
    write_bool(out, right_facing);
    out.append("}}");
    assert(out@ =~= orig + spec_entity_json(
        Entity::Door { is_static, angle, x: *x, y: *y, right_facing },
    ));
}

#[verifier::rlimit(30)]
fn write_paint(out: &mut String, fill_color: i32, opacity: &Num, vertices: &Vec<Point>)
    ensures
        final(out)@ == old(out)@ + spec_entity_json(
            Entity::Paint { fill_color, opacity: *opacity, vertices: *vertices },
        ),
{
    let ghost orig: Seq<char> = out@;
    out.append("{\"type\":\"paint\",\"params\":{\"fillColor\":");
    write_i32(out, fill_color);
    out.append(",\"opacity\":");
    write_num(out, opacity);
    out.append(",\"vertices\":");
    write_points(out, vertices);
    out.append("}}");
    assert(out@ =~= orig + spec_entity_json(
        Entity::Paint { fill_color, opacity: *opacity, vertices: *vertices },
    ));
}

#[verifier::rlimit(60)]
fn write_entity(out: &mut String, e: &Entity)
    ensures
        final(out)@ == old(out)@ + spec_entity_json(*e),
{
    let ghost orig: Seq<char> = out@;
    match e {
        Entity::Player { is_static, angle, x, y, ammo } => {
            write_player(out, *is_static, *angle, x, y, ammo);
        },
        Entity::Door { is_static, angle, x, y, right_facing } => {
            write_door(out, *is_static, *angle, x, y, *right_facing);
        },
        Entity::Text { angle, x, y, text, anchor, align, fill_color, opacity } => {
            out.append("{\"type\":\"text\",\"params\":{\"angle\":");
            write_i32(out, *angle);
            out.append(",\"x\":");
            write_num(out, x);
            out.append(",\"y\":");
            write_num(out, y);
            out.append(",\"copy\":");
            write_copy(out, text);
            out.append(",\"anchor\":");
            write_point(out, anchor);
            out.append(",\"align\":");
            write_align(out, align);
            out.append(",\"fillColor\":");
            write_i32(out, *fill_color);
            out.append(",\"opacity\":");
            write_num(out, opacity);
            out.append("}}");
            assert(out@ =~= orig + spec_entity_json(*e));
        },
        Entity::Paint { fill_color, opacity, vertices } => {
            write_paint(out, *fill_color, opacity, vertices);
        },
        Entity::Normal { is_static, shape } => {
            write_material(out, "normal", *is_static, shape);
        },
        Entity::Ice { is_static, shape } => {
            write_material(out, "ice", *is_static, shape);
        },
        Entity::Breakable { is_static, shape } => {
            write_material(out, "breakable", *is_static, shape);
        },
        Entity::Deadly { is_static, shape } => {
            write_material(out, "deadly", *is_static, shape);
        },
        Entity::Bouncy { is_static, shape } => {
            write_material(out, "bouncy", *is_static, shape);
        },
    }
}

fn write_entities(out: &mut String, es: &Vec<Entity>)
    ensures
        final(out)@ == old(out)@ + spec_entities_json(es@),
{
    let ghost orig: Seq<char> = out@;
    out.append("[");
    let mut i: usize = 0;
    while i < es.len()
        invariant
            0 <= i <= es@.len(),
            out@ == orig + "["@ + join_comma(entity_json_fn(), es@.take(i as int)),
        decreases es@.len() - i,
    {
        if i > 0 {
            out.append(",");
        }
        write_entity(out, &es[i]);
        proof {
            lemma_join_comma_step(entity_json_fn(), es@, i as int);
            assert(out@ =~= orig + "["@ + join_comma(entity_json_fn(), es@.take(i + 1 as int)));
        }
        i += 1;
    }
    out.append("]");
    proof {
        assert(es@.take(es@.len() as int) =~= es@);
        assert(out@ =~= orig + spec_entities_json(es@));
    }
}

impl Entity {
    /// The JSON text of this entity alone.
    pub fn to_json(&self) -> (r: String)
        ensures
            r@ == spec_entity_json(*self),
    {
        let mut out = String::new();
        write_entity(&mut out, self);
        out
    }
}

impl Level {
    /// The JSON document for the whole level.
    #[verifier::rlimit(30)]
    pub fn to_json(&self) -> (r: String)
        ensures
            r@ == spec_level_json(*self),
    {
        let mut out = String::new();
        let ghost orig: Seq<char> = out@;
        out.append("{\"name\":");
        write_string_json(&mut out, self.name.as_str());
        out.append(",\"timings\":[");
        write_i32(&mut out, self.timings[0]);
        out.append(",");
        write_i32(&mut out, self.timings[1]);
        out.append("],\"entities\":");
        write_entities(&mut out, &self.entities);
        out.append(",\"formatVersion\":");
        write_u64(&mut out, self.format_version as u64);
        out.append("}");
        proof {
            assert(out@ =~= orig + spec_level_json(*self));
        }
        out
    }
}

} // verus!
