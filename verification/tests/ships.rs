use vt_client::models::Faction;
use vt_client::scenario::{director_for, spawn_placed, PlacedShip, ShipFlags};
use vt_client::ships::{ClassId, DirectorSpec, NamedClass, ShipTable};

/// Classes carried as their hull strength, standing in for the whole class.
fn table() -> ShipTable<u32> {
    ShipTable {
        classes: vec![
            NamedClass {
                name: "corsair_sloop".to_string(),
                class: 100,
            },
            NamedClass {
                name: "house_patrol".to_string(),
                class: 80,
            },
            NamedClass {
                name: "house_bastion".to_string(),
                class: 400,
            },
        ],
    }
}

/// The skirmish's director: three waves of house patrols ending on a bastion.
/// The wave-hull scaling is carried as (base, per wave).
fn director() -> DirectorSpec<(u32, u32)> {
    DirectorSpec {
        max_waves: 3,
        base_count: 2,
        faction: Faction::Houses,
        hulls: (100, 25),
        enemy_class: "house_patrol".to_string(),
        finale_class: "house_bastion".to_string(),
        finale_count: 1,
    }
}

#[test]
fn an_unknown_class_resolves_to_nothing() {
    let table = table();
    assert!(table.find("dreadnought").is_none());
    let spec = DirectorSpec {
        enemy_class: "dreadnought".to_string(),
        ..director()
    };
    assert!(spec.resolve(&table).is_none());
}

#[test]
fn a_resolved_director_carries_the_class_it_came_from() {
    let table = table();
    let settings = director().resolve(&table).expect("resolves");
    let (id, class) = table.find("house_patrol").unwrap();
    assert_eq!(settings.class_id, id);
    assert_eq!(settings.class, *class);
    assert_eq!(settings.class_id, ClassId(1));
    assert_eq!(settings.max_waves, 3);
    assert_eq!(settings.base_count, 2);
    assert_eq!(settings.hulls, (100, 25));
    let finale = settings.finale.expect("a finale");
    assert_eq!(finale.class_id, ClassId(2));
    assert_eq!(finale.class, 400);
    assert_eq!(finale.count, 1);
}

#[test]
fn an_unknown_finale_just_means_no_finale() {
    let spec = DirectorSpec {
        finale_class: String::new(),
        ..director()
    };
    let settings = spec.resolve(&table()).expect("the waves still resolve");
    assert!(settings.finale.is_none());
}

#[test]
fn a_finale_sends_at_least_one_ship() {
    let spec = DirectorSpec {
        finale_count: 0,
        ..director()
    };
    assert_eq!(spec.resolve(&table()).unwrap().finale.unwrap().count, 1);
    let spec = DirectorSpec {
        finale_count: 4,
        ..director()
    };
    assert_eq!(spec.resolve(&table()).unwrap().finale.unwrap().count, 4);
}

#[test]
fn the_first_class_of_a_name_wins() {
    let mut table = table();
    table.classes.push(NamedClass {
        name: "house_patrol".to_string(),
        class: 1,
    });
    let (id, class) = table.find("house_patrol").unwrap();
    assert_eq!(id, ClassId(1));
    assert_eq!(*class, 80);
}

#[test]
fn a_class_id_past_the_table_is_nothing() {
    let mut table = table();
    assert_eq!(table.get(ClassId(2)), Some(&400));
    assert_eq!(table.get(ClassId(3)), None);
    *table.get_mut(ClassId(0)).unwrap() = 150;
    assert_eq!(table.get(ClassId(0)), Some(&150));
    assert!(table.get_mut(ClassId(9)).is_none());
}

#[test]
fn the_class_list_is_in_table_order() {
    assert_eq!(
        table().names(),
        vec!["corsair_sloop", "house_patrol", "house_bastion"]
    );
}

#[test]
fn a_scenario_without_a_director_yields_no_waves() {
    let none: Option<DirectorSpec<(u32, u32)>> = None;
    assert!(director_for(&none, &table()).is_none());
    assert!(director_for(&Some(director()), &table()).is_some());
}

#[test]
fn placed_ships_are_ordinary_by_default() {
    let flags = ShipFlags::default();
    assert!(!flags.invulnerable);
    assert!(!flags.inert);
    assert!(!flags.anchored);
}

#[test]
fn the_player_is_never_handed_to_the_ai() {
    let player = PlacedShip {
        class: "corsair_sloop".to_string(),
        faction: Faction::Corsairs,
        pose: (0, -520),
        flags: ShipFlags::default(),
    };
    let plan = spawn_placed(&table(), &player, true).expect("a known class");
    assert!(plan.player);
    assert!(!plan.controller);
    assert_eq!(plan.class_id, ClassId(0));
    assert_eq!(plan.class, 100);
    assert_eq!(plan.pose, (0, -520));
    assert_eq!(plan.faction, Faction::Corsairs);
}

#[test]
fn the_range_target_is_inert_invulnerable_and_anchored() {
    let target = PlacedShip {
        class: "house_patrol".to_string(),
        faction: Faction::Houses,
        pose: (0, 300),
        flags: ShipFlags {
            invulnerable: true,
            inert: true,
            anchored: true,
        },
    };
    let plan = spawn_placed(&table(), &target, false).expect("a known class");
    assert!(!plan.player);
    assert!(!plan.controller, "inert means no controller at all");
    assert!(plan.invulnerable);
    assert!(plan.anchored);
}

#[test]
fn an_ordinary_enemy_is_steered() {
    let enemy = PlacedShip {
        class: "house_patrol".to_string(),
        faction: Faction::Houses,
        pose: (10, 10),
        flags: ShipFlags::default(),
    };
    let plan = spawn_placed(&table(), &enemy, false).unwrap();
    assert!(plan.controller);
    assert!(!plan.invulnerable && !plan.anchored);
}

#[test]
fn a_placed_ship_of_an_unknown_class_is_not_spawned() {
    let ghost = PlacedShip {
        class: "dreadnought".to_string(),
        faction: Faction::Guild,
        pose: (0, 0),
        flags: ShipFlags::default(),
    };
    assert!(spawn_placed(&table(), &ghost, false).is_none());
}

use vt_client::scenario::plan_scenario;

#[test]
fn a_scenario_spawns_the_player_then_every_known_standing_ship() {
    let player = PlacedShip {
        class: "corsair_sloop".to_string(),
        faction: Faction::Corsairs,
        pose: (0, -520),
        flags: ShipFlags::default(),
    };
    let standing = vec![
        PlacedShip {
            class: "house_patrol".to_string(),
            faction: Faction::Houses,
            pose: (0, 300),
            flags: ShipFlags {
                invulnerable: true,
                inert: true,
                anchored: true,
            },
        },
        PlacedShip {
            class: "dreadnought".to_string(),
            faction: Faction::Houses,
            pose: (50, 300),
            flags: ShipFlags::default(),
        },
        PlacedShip {
            class: "house_bastion".to_string(),
            faction: Faction::Houses,
            pose: (-50, 300),
            flags: ShipFlags::default(),
        },
    ];
    let plan = plan_scenario(&table(), &player, &standing);
    let me = plan.player.expect("the player's class is known");
    assert!(me.player && !me.controller);
    assert_eq!(plan.standing.len(), 2);
    assert_eq!(plan.standing[0].class_id, ClassId(1));
    assert!(!plan.standing[0].controller && plan.standing[0].anchored);
    assert_eq!(plan.standing[1].class_id, ClassId(2));
    assert!(plan.standing[1].controller);
    assert!(plan.standing.iter().all(|p| !p.player));
    assert_eq!(plan.skipped, vec![1], "the unknown class is reported, not flown");
}

#[test]
fn an_unknown_player_class_spawns_no_player() {
    let player = PlacedShip {
        class: "nobody".to_string(),
        faction: Faction::Corsairs,
        pose: (0, 0),
        flags: ShipFlags::default(),
    };
    let plan = plan_scenario(&table(), &player, &vec![]);
    assert!(plan.player.is_none());
    assert!(plan.standing.is_empty() && plan.skipped.is_empty());
}
