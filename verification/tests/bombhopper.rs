use bombhopper::Ammo;
use bombhopper::AmmoType;
use bombhopper::Entity;
use bombhopper::Level;
use bombhopper::Num;
use bombhopper::Point;
use bombhopper::Shape;

fn pt(x: i64, y: i64) -> Point {
    Point::new(Num::from_i64(x), Num::from_i64(y))
}

#[test]
fn ammo() {
    // Tests if infinte bombs goes correctly
    assert_eq!(
        r#"{"type":"player","params":{"isStatic":false,"angle":0,"x":0.0,"y":0.0,"infiniteAmmo":"bullet"}}"#,
        Entity::Player {
            is_static: false,
            angle: 0,
            x: Num::from_i64(0),
            y: Num::from_i64(0),
            ammo: Ammo::Infinite(AmmoType::Bomb)
        }
        .to_json()
    );

    // Tests if finite seq works (and finite)
    assert_eq!(
        r#"{"type":"player","params":{"isStatic":false,"angle":0,"x":0.0,"y":0.0,"magazine":["grenade","empty","bullet","bullet"]}}"#,
        Entity::Player {
            is_static: false,
            angle: 0,
            x: Num::from_i64(0),
            y: Num::from_i64(0),
            ammo: Ammo::finite_seq("bbeg").unwrap()
        }
        .to_json()
    )
}

#[test]
fn default_level() {
    let mut level = Level::new(String::from("My level"), [0, 0]);
    level.push(Entity::new_text(
        pt(200, 520),
        "This is the default level!\nEdit to your liking",
    ));

    level.push(Entity::Normal {
        is_static: true,
        shape: Shape::Polygon {
            vertices: vec![pt(400, 820), pt(400, 880), pt(520, 880), pt(520, 820)],
        },
    });

    level.push(Entity::Ice {
        is_static: true,
        shape: Shape::Polygon {
            vertices: vec![
                pt(-260, 580),
                pt(-260, 820),
                pt(400, 820),
                pt(400, 760),
                pt(160, 760),
                pt(-20, 640),
                pt(-140, 640),
            ],
        },
    });

    level.push(Entity::Door {
        is_static: true,
        angle: 0,
        x: Num::from_i64(550),
        y: Num::from_i64(630),
        right_facing: true,
    });

    level.push(Entity::Player {
        is_static: false,
        angle: 0,
        x: Num::from_i64(-60),
        y: Num::from_i64(620),
        ammo: Ammo::finite_seq("beg").unwrap(),
    });

    level.push(Entity::Normal {
        is_static: false,
        shape: Shape::Polygon {
            vertices: vec![pt(-236, 292), pt(-176, 292), pt(-176, 352), pt(-236, 352)],
        },
    });

    assert_eq!(
        r#"{"name":"My level","timings":[0,0],"entities":[{"type":"text","params":{"angle":0,"x":200.0,"y":520.0,"copy":{"en":"This is the default level!\nEdit to your liking"},"anchor":{"x":0.5,"y":0.5},"align":"left","fillColor":16777215,"opacity":1.0}},{"type":"normal","params":{"isStatic":true,"vertices":[{"x":400.0,"y":820.0},{"x":400.0,"y":880.0},{"x":520.0,"y":880.0},{"x":520.0,"y":820.0}]}},{"type":"ice","params":{"isStatic":true,"vertices":[{"x":-260.0,"y":580.0},{"x":-260.0,"y":820.0},{"x":400.0,"y":820.0},{"x":400.0,"y":760.0},{"x":160.0,"y":760.0},{"x":-20.0,"y":640.0},{"x":-140.0,"y":640.0}]}},{"type":"endpoint","params":{"isStatic":true,"angle":0,"x":550.0,"y":630.0,"rightFacing":true}},{"type":"player","params":{"isStatic":false,"angle":0,"x":-60.0,"y":620.0,"magazine":["grenade","empty","bullet"]}},{"type":"normal","params":{"isStatic":false,"vertices":[{"x":-236.0,"y":292.0},{"x":-176.0,"y":292.0},{"x":-176.0,"y":352.0},{"x":-236.0,"y":352.0}]}}],"formatVersion":0}"#,
        level.to_json()
    );
}
