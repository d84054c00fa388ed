use bombhopper::Ammo;
use bombhopper::Entity;
use bombhopper::Level;
use bombhopper::Num;
use bombhopper::Point;
use bombhopper::Shape;
use bombhopper::TextAlign;
use bombhopper::num::from_decimal_str;

fn pt(x: i64, y: i64) -> Point {
    Point::new(Num::from_i64(x), Num::from_i64(y))
}

fn player_with(ammo: Ammo) -> Entity {
    Entity::Player {
        is_static: false,
        angle: 0,
        x: Num::from_i64(0),
        y: Num::from_i64(0),
        ammo,
    }
}

#[test]
fn finite_seq_rejects_invalid_char() {
    let r = Ammo::finite_seq("bx");
    assert_eq!(r.err(), Some(String::from("Ammo Doesn't exist")));
    assert!(Ammo::finite_seq("help").is_err());
}

#[test]
fn finite_seq_is_case_insensitive_and_reversed() {
    assert_eq!(
        r#"{"type":"player","params":{"isStatic":false,"angle":0,"x":0.0,"y":0.0,"magazine":["empty","grenade","bullet"]}}"#,
        player_with(Ammo::finite_seq("BgE").unwrap()).to_json()
    );
}

#[test]
fn finite_seq_empty_string_gives_empty_magazine() {
    assert_eq!(
        r#"{"type":"player","params":{"isStatic":false,"angle":0,"x":0.0,"y":0.0,"magazine":[]}}"#,
        player_with(Ammo::finite_seq("").unwrap()).to_json()
    );
}

#[test]
fn door_tag_is_endpoint_for_any_fields() {
    let a = Entity::Door {
        is_static: true,
        angle: 45,
        x: Num::from_i64(1),
        y: Num::from_i64(2),
        right_facing: false,
    }
    .to_json();
    assert!(a.starts_with(r#"{"type":"endpoint""#));
    assert_eq!(
        r#"{"type":"endpoint","params":{"isStatic":true,"angle":45,"x":1.0,"y":2.0,"rightFacing":false}}"#,
        a
    );
}

#[test]
fn entities_keep_push_order_and_clear_empties() {
    let mut level = Level::new(String::from("ord"), [3, -7]);
    level.push(Entity::Door {
        is_static: true,
        angle: 0,
        x: Num::from_i64(1),
        y: Num::from_i64(1),
        right_facing: true,
    });
    level.push(Entity::Paint {
        fill_color: 5,
        opacity: Num::from_i64(1),
        vertices: vec![pt(0, 0)],
    });
    let two = level.to_json();
    let door_at = two.find(r#""type":"endpoint""#).unwrap();
    let paint_at = two.find(r#""type":"paint""#).unwrap();
    assert!(door_at < paint_at);
    level.clear();
    assert_eq!(
        r#"{"name":"ord","timings":[3,-7],"entities":[],"formatVersion":0}"#,
        level.to_json()
    );
    level.clear();
    assert_eq!(
        r#"{"name":"ord","timings":[3,-7],"entities":[],"formatVersion":0}"#,
        level.to_json()
    );
}

#[test]
fn new_text_uses_documented_defaults() {
    assert_eq!(
        r#"{"type":"text","params":{"angle":0,"x":200.0,"y":520.0,"copy":{"en":"hi"},"anchor":{"x":0.5,"y":0.5},"align":"left","fillColor":16777215,"opacity":1.0}}"#,
        Entity::new_text(pt(200, 520), "hi").to_json()
    );
}

#[test]
fn circle_shape_serializes_untagged() {
    assert_eq!(
        r#"{"type":"bouncy","params":{"isStatic":true,"x":10.0,"y":-20.0,"radius":0.5}}"#,
        Entity::Bouncy {
            is_static: true,
            shape: Shape::Circle {
                x: Num::from_i64(10),
                y: Num::from_i64(-20),
                radius: Num::new(false, 0, vec![5]).unwrap(),
            },
        }
        .to_json()
    );
}

#[test]
fn material_tags_are_lowercase_names() {
    let shape = || Shape::Polygon { vertices: vec![pt(0, 0)] };
    for (tag, e) in [
        ("normal", Entity::Normal { is_static: true, shape: shape() }),
        ("ice", Entity::Ice { is_static: true, shape: shape() }),
        ("breakable", Entity::Breakable { is_static: true, shape: shape() }),
        ("deadly", Entity::Deadly { is_static: true, shape: shape() }),
        ("bouncy", Entity::Bouncy { is_static: true, shape: shape() }),
    ] {
        assert_eq!(
            format!(
                r#"{{"type":"{}","params":{{"isStatic":true,"vertices":[{{"x":0.0,"y":0.0}}]}}}}"#,
                tag
            ),
            e.to_json()
        );
    }
}

#[test]
fn text_align_spellings() {
    let mk = |align: TextAlign| Entity::Text {
        angle: 0,
        x: Num::from_i64(0),
        y: Num::from_i64(0),
        text: vec![(String::from("en"), String::from("t"))],
        anchor: pt(0, 0),
        align,
        fill_color: 0,
        opacity: Num::from_i64(1),
    };
    assert!(mk(TextAlign::Center).to_json().contains(r#""align":"center""#));
    assert!(mk(TextAlign::Right).to_json().contains(r#""align":"right""#));
    assert!(mk(TextAlign::Justify).to_json().contains(r#""align":"justify""#));
}

#[test]
fn strings_are_json_escaped() {
    let level = Level::new(String::from("a\"b\\c\nd\te\u{1}f"), [0, 0]);
    assert_eq!(
        "{\"name\":\"a\\\"b\\\\c\\nd\\te\\u0001f\",\"timings\":[0,0],\"entities\":[],\"formatVersion\":0}",
        level.to_json()
    );
}

#[test]
fn num_constructor_rejects_bad_digits() {
    assert!(Num::new(false, 1, vec![3, 10]).is_none());
    assert!(Num::new(true, 1, vec![9, 0]).is_some());
}

#[test]
fn negative_and_fractional_numbers_render_exactly() {
    let p = Point::new(
        Num::new(true, 0, vec![5]).unwrap(),
        Num::new(true, 20, vec![]).unwrap(),
    );
    assert_eq!(
        r#"{"type":"paint","params":{"fillColor":-1,"opacity":0.25,"vertices":[{"x":-0.5,"y":-20.0}]}}"#,
        Entity::Paint {
            fill_color: -1,
            opacity: Num::new(false, 0, vec![2, 5]).unwrap(),
            vertices: vec![p],
        }
        .to_json()
    );
}

#[test]
fn decimal_parsing_accepts_canonical_literals() {
    let v = from_decimal_str("400").unwrap();
    assert_eq!((v.neg, v.int_part, v.frac.clone()), (false, 400, vec![]));
    let v = from_decimal_str("-0.5").unwrap();
    assert_eq!((v.neg, v.int_part, v.frac.clone()), (true, 0, vec![5]));
    let v = from_decimal_str("3.250").unwrap();
    assert_eq!((v.neg, v.int_part, v.frac.clone()), (false, 3, vec![2, 5, 0]));
    let v = from_decimal_str("18446744073709551615").unwrap();
    assert_eq!(v.int_part, u64::MAX);
}

#[test]
fn decimal_parsing_rejects_everything_else() {
    for s in [
        "", "-", ".", "00.5", "007", "1e5", "12.", ".5", "+3", "4 ", "--1", "1.2.3",
        "18446744073709551616", "NaN", "inf",
    ] {
        assert!(from_decimal_str(s).is_none(), "accepted {:?}", s);
    }
}

#[test]
fn point_equality_is_structural_and_default_is_origin() {
    assert_eq!(pt(3, -4), pt(3, -4));
    assert_ne!(pt(3, -4), pt(3, 4));
    assert_ne!(
        Point::new(Num::new(false, 1, vec![5]).unwrap(), Num::from_i64(0)),
        Point::new(Num::new(false, 1, vec![5, 0]).unwrap(), Num::from_i64(0))
    );
    assert_eq!(Point::default(), pt(0, 0));
}
