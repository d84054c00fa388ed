//! Properties of the wire format that hold for every value, stated and
//! proved over the same spec functions the serializer contracts use.

use vstd::prelude::*;
use crate::model::Ammo;
use crate::model::AmmoType;
use crate::model::Entity;
use crate::model::ammo_of_char;
use crate::model::is_ammo_char;
use crate::model::spec_magazine_of;
use crate::num::Num;
use crate::num::spec_i32_str;
use crate::ser::ammo_type_json_fn;
use crate::ser::entity_json_fn;
use crate::ser::join_comma;
use crate::ser::spec_ammo_json;
use crate::ser::spec_ammo_type_json;
use crate::ser::spec_bool_json;
use crate::ser::spec_entities_json;
use crate::ser::spec_entity_json;

verus! {

/// Round trip of the magazine reversal: the magazine built from a string
/// of valid firing-order characters serializes as a JSON array holding the
/// string's rounds in reverse order.
pub proof fn lemma_magazine_reversal(s: Seq<char>, a: Ammo)
    requires
        forall|i: int| 0 <= i < s.len() ==> is_ammo_char(#[trigger] s[i]),
        a matches Ammo::Finite(mag) && mag@ == spec_magazine_of(s),
    ensures
        spec_ammo_json(a) == "\"magazine\":["@ + join_comma(
            ammo_type_json_fn(),
            s.map_values(|c: char| ammo_of_char(c)).reverse(),
        ) + "]"@,
{
    assert(spec_magazine_of(s) =~= s.map_values(|c: char| ammo_of_char(c)).reverse());
}

/// Flattening: a player with an infinite ammo supply serializes with
/// `infiniteAmmo` as a direct sibling of `isStatic`, `angle`, `x` and `y`
/// inside `params`, not nested under a key of its own.
pub proof fn lemma_player_flattening(is_static: bool, angle: i32, x: Num, y: Num, t: AmmoType)
    ensures
        spec_entity_json(Entity::Player { is_static, angle, x, y, ammo: Ammo::Infinite(t) })
            == "{\"type\":\"player\",\"params\":{\"isStatic\":"@ + spec_bool_json(is_static)
            + ",\"angle\":"@ + spec_i32_str(angle as int) + ",\"x\":"@ + x.spec_json() + ",\"y\":"@
            + y.spec_json() + ","@ + "\"infiniteAmmo\":"@ + spec_ammo_type_json(t) + "}}"@,
{
    assert(spec_entity_json(Entity::Player { is_static, angle, x, y, ammo: Ammo::Infinite(t) })
        =~= "{\"type\":\"player\",\"params\":{\"isStatic\":"@ + spec_bool_json(is_static)
        + ",\"angle\":"@ + spec_i32_str(angle as int) + ",\"x\":"@ + x.spec_json() + ",\"y\":"@
        + y.spec_json() + ","@ + "\"infiniteAmmo\":"@ + spec_ammo_type_json(t) + "}}"@);
}

/// Tag correctness: a door serializes under the tag `"endpoint"` whatever
/// its fields hold.
pub proof fn lemma_door_tag(e: Entity)
    requires
        e matches Entity::Door { .. },
    ensures
        "{\"type\":\"endpoint\""@.is_prefix_of(spec_entity_json(e)),
{
    let pre = "{\"type\":\"endpoint\""@;
    let s = spec_entity_json(e);
    assert(pre =~= s.subrange(0, pre.len() as int));
}

/// Order preservation: pushing an entity appends exactly its rendering to
/// the entities array, after a comma when other entities precede it.
pub proof fn lemma_push_preserves_order(es: Seq<Entity>, e: Entity)
    ensures
        spec_entities_json(es.push(e)) == (if es.len() == 0 {
            "["@ + spec_entity_json(e) + "]"@
        } else {
            "["@ + join_comma(entity_json_fn(), es) + ","@ + spec_entity_json(e) + "]"@
        }),
{
    let t = es.push(e);
    assert(t.drop_last() =~= es);
    assert(t.last() == e);
    if es.len() == 0 {
        assert(t.len() == 1);
        assert(t[0] == e);
        assert(spec_entities_json(t) =~= "["@ + spec_entity_json(e) + "]"@);
    } else {
        assert(spec_entities_json(t) =~= "["@ + join_comma(entity_json_fn(), es) + ","@
            + spec_entity_json(e) + "]"@);
    }
}

/// Order preservation, emptied: a level whose entities were cleared
/// serializes its entities array as `[]`.
pub proof fn lemma_cleared_entities(es: Seq<Entity>)
    requires
        es.len() == 0,
    ensures
        spec_entities_json(es) == "[]"@,
{
    reveal_strlit("[");
    reveal_strlit("]");
    reveal_strlit("[]");
    assert(spec_entities_json(es) =~= "[]"@);
}

} // verus!
