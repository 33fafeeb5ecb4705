use vt_client::dev::apply::{merge_config, merge_slot, Reflected};
use vt_client::dev::fields::{field_kind, FieldKind};
use vt_client::dev::{game_has_input, game_has_pointer, DevPanelFocus};

fn leaf(x: f64) -> Reflected<f64> {
    Reflected::Leaf(x)
}

fn node(owner: &str, fields: Vec<(&str, Reflected<f64>)>) -> Reflected<f64> {
    Reflected::Struct {
        owner: owner.to_string(),
        fields: fields
            .into_iter()
            .map(|(name, value)| (name.to_string(), value))
            .collect(),
    }
}

/// The value of the leaf at `path` below `r`.
fn at(r: &Reflected<f64>, path: &[&str]) -> f64 {
    match (r, path.split_first()) {
        (Reflected::Leaf(x), None) => *x,
        (Reflected::Struct { fields, .. }, Some((first, rest))) => {
            let (_, value) = fields
                .iter()
                .find(|(name, _)| name == first)
                .expect("a field of that name");
            at(value, rest)
        }
        _ => panic!("no leaf at that path"),
    }
}

fn bank(timer: f64, charging: f64) -> Reflected<f64> {
    node(
        "BankState",
        vec![("timer", leaf(timer)), ("charging", leaf(charging))],
    )
}

fn broadside(damage: f64, port: Reflected<f64>, starboard: Reflected<f64>) -> Reflected<f64> {
    node(
        "Broadside",
        vec![
            ("cooldown", leaf(10.0)),
            ("damage", leaf(damage)),
            ("port", port),
            ("starboard", starboard),
        ],
    )
}

#[test]
fn live_fields_are_marked_live() {
    for (owner, field) in [
        ("Broadside", "port"),
        ("Broadside", "starboard"),
        ("TorpedoBay", "loaded"),
        ("BoostDrive", "battery"),
        ("AiController", "warp_prime"),
        ("EmpDefense", "damage"),
        ("EmpWeapon", "aim"),
        ("EmpWeapon", "timer"),
        ("MicrowarpDrive", "was_holding"),
        ("MicrowarpDrive", "timer"),
    ] {
        assert_eq!(
            field_kind(owner, field),
            FieldKind::Live,
            "{owner}.{field} is live state and must never be written by a class edit"
        );
    }
}

#[test]
fn the_same_field_name_can_mean_different_things() {
    assert_eq!(field_kind("Broadside", "damage"), FieldKind::Config);
    assert_eq!(field_kind("EmpDefense", "damage"), FieldKind::Live);
    assert_eq!(field_kind("TorpedoBay", "timer"), FieldKind::Config);
}

#[test]
fn an_unknown_field_is_config() {
    assert_eq!(
        field_kind("ShipStats", "some_field_added_next_week"),
        FieldKind::Config
    );
    assert_eq!(field_kind("SomeStruct", "brand_new_field"), FieldKind::Config);
    assert_eq!(field_kind("", ""), FieldKind::Config);
}

#[test]
fn merging_a_broadside_leaves_the_reload_timers_alone() {
    let mut live = broadside(12.0, bank(0.8, 0.3), bank(0.0, 0.0));
    let authored = broadside(40.0, bank(0.0, 0.0), bank(0.0, 0.0));

    merge_config(&mut live, &authored);

    assert_eq!(at(&live, &["damage"]), 40.0, "the authored change must land");
    assert_eq!(at(&live, &["port", "timer"]), 0.8, "a live reload must survive the edit");
    assert_eq!(at(&live, &["port", "charging"]), 0.3, "as must a live telegraph");
}

#[test]
fn merging_a_torpedo_bay_does_not_refill_it() {
    let bay = |loaded: f64, damage: f64| {
        node(
            "TorpedoBay",
            vec![("tubes_max", leaf(6.0)), ("loaded", leaf(loaded)), ("damage", leaf(damage))],
        )
    };
    let mut live = bay(1.0, 22.0);
    merge_config(&mut live, &bay(6.0, 50.0));
    assert_eq!(at(&live, &["damage"]), 50.0);
    assert_eq!(at(&live, &["loaded"]), 1.0, "a spent magazine must stay spent");
}

#[test]
fn merging_emp_defense_keeps_the_soaked_damage() {
    let defense = |damage: f64, resist: f64| {
        node(
            "EmpDefense",
            vec![("damage", leaf(damage)), ("resist", leaf(resist))],
        )
    };
    let mut live = defense(60.0, 100.0);
    merge_config(&mut live, &defense(0.0, 250.0));
    assert_eq!(at(&live, &["resist"]), 250.0);
    assert_eq!(at(&live, &["damage"]), 60.0, "the ship is still EMP'd");
}

#[test]
fn a_field_the_class_lacks_is_left_alone() {
    let mut live = node("ShipStats", vec![("thrust", leaf(1.0)), ("turn_rate", leaf(2.0))]);
    merge_config(&mut live, &node("ShipStats", vec![("thrust", leaf(5.0))]));
    assert_eq!(at(&live, &["thrust"]), 5.0);
    assert_eq!(at(&live, &["turn_rate"]), 2.0);
}

#[test]
fn a_struct_and_a_leaf_do_not_merge() {
    let mut live = node("ShipStats", vec![("thrust", leaf(1.0))]);
    merge_config(&mut live, &leaf(9.0));
    assert_eq!(at(&live, &["thrust"]), 1.0);

    let mut number = leaf(3.0);
    merge_config(&mut number, &node("ShipStats", vec![("thrust", leaf(9.0))]));
    assert_eq!(at(&number, &[]), 3.0);

    merge_config(&mut number, &leaf(4.0));
    assert_eq!(at(&number, &[]), 4.0);
}

#[test]
fn merging_a_value_into_itself_changes_nothing() {
    let authored = broadside(12.0, bank(0.8, 0.3), bank(0.1, 0.0));
    let mut merged = broadside(12.0, bank(0.8, 0.3), bank(0.1, 0.0));
    merge_config(&mut merged, &authored);
    for path in [
        &["cooldown"][..],
        &["damage"],
        &["port", "timer"],
        &["port", "charging"],
        &["starboard", "timer"],
        &["starboard", "charging"],
    ] {
        assert_eq!(at(&merged, path), at(&authored, path));
    }
}

#[test]
fn a_slot_the_class_leaves_empty_does_not_disturb_a_fitted_device() {
    let mut fitted = Some(node("EmpWeapon", vec![("range", leaf(1234.0))]));
    merge_slot(&mut fitted, &None);
    assert_eq!(at(fitted.as_ref().unwrap(), &["range"]), 1234.0);
}

#[test]
fn a_slot_never_bolts_a_device_on() {
    let mut bare: Option<Reflected<f64>> = None;
    merge_slot(&mut bare, &Some(node("EmpWeapon", vec![("range", leaf(900.0))])));
    assert!(bare.is_none());
}

#[test]
fn an_authored_slot_retunes_the_fitted_device() {
    let mut fitted = Some(node(
        "EmpWeapon",
        vec![("range", leaf(500.0)), ("timer", leaf(2.5))],
    ));
    merge_slot(
        &mut fitted,
        &Some(node("EmpWeapon", vec![("range", leaf(900.0)), ("timer", leaf(0.0))])),
    );
    let device = fitted.as_ref().unwrap();
    assert_eq!(at(device, &["range"]), 900.0);
    assert_eq!(at(device, &["timer"]), 2.5, "the device's own timer keeps running");
}

#[test]
fn the_panel_holding_either_device_stops_the_game_reading_input() {
    let idle = DevPanelFocus::default();
    assert!(game_has_input(&idle));
    assert!(game_has_pointer(&idle));
    let typing = DevPanelFocus {
        pointer: false,
        keyboard: true,
    };
    assert!(!game_has_input(&typing));
    assert!(game_has_pointer(&typing), "free-look keeps following while typing");
    let dragging = DevPanelFocus {
        pointer: true,
        keyboard: false,
    };
    assert!(!game_has_input(&dragging));
    assert!(!game_has_pointer(&dragging));
}

use vt_client::dev::fields::field_editable;

#[test]
fn a_live_subtree_is_greyed_out_and_so_is_everything_under_it() {
    assert!(field_editable(true, "Broadside", "damage"));
    assert!(!field_editable(true, "Broadside", "port"));
    assert!(!field_editable(false, "BankState", "timer"));
    assert!(!field_editable(false, "ShipStats", "thrust"));
}

#[test]
fn merging_a_shield_does_not_recharge_a_flattened_bank() {
    // What the merge reaches of a shield is what reflection exposes of it: the
    // authored bank capacities. A bank's live charge is state the fight owns
    // and is not among the fields walked, so it is carried beside the tree.
    let shield = |fore_max: f64| {
        node(
            "Shield",
            vec![("fore_max", leaf(fore_max)), ("aft_max", leaf(60.0))],
        )
    };
    let mut live = shield(60.0);
    merge_config(&mut live, &shield(90.0));
    assert_eq!(at(&live, &["fore_max"]), 90.0, "the authored change must land");
    assert_eq!(at(&live, &["aft_max"]), 60.0);
    assert!(matches!(&live, vt_client::dev::apply::Reflected::Struct { fields, .. } if fields.len() == 2));
}
