use vt_client::input::{InputMethod, ThrustState};
use vt_client::progress::Career;
use vt_client::readout::{
    hud_json, push_decimal, push_signed, Cooldown, HudReadout, LoadoutChips, Magazine,
    ShieldReadout, ShipReadout, SlotChips, TorpedoReadout,
};
use vt_client::session::{GameState, Outcome};

fn chips(chosen: usize, ids: &[&str]) -> SlotChips {
    SlotChips {
        chosen,
        options: ids.iter().map(|s| s.to_string()).collect(),
    }
}

fn readout(state: GameState, ship: Option<ShipReadout>) -> HudReadout {
    HudReadout {
        state,
        loadout: LoadoutChips {
            broadside: chips(0, &["loadout.long_nines", "loadout.carronades"]),
            battery: chips(2, &["loadout.disruptor", "loadout.boost", "loadout.point_defense"]),
            special: chips(1, &["loadout.torpedoes"]),
        },
        aim_battery: "0.5000".to_string(),
        wave: 0,
        enemies_remaining: 3,
        plunder: 2,
        career: Career {
            runs: 41,
            victories: 3,
            deepest_wave: 9,
            ships_boarded: 118,
        },
        paused: false,
        ai_pilot: true,
        boarding_active: false,
        boarding_progress: "0.000".to_string(),
        input_method: InputMethod::Gamepad,
        outcome: Outcome::InProgress,
        controls_open: false,
        ring_opacity: "0.850".to_string(),
        ship,
    }
}

const SESSION: &str = ",\"aimBattery\":0.5000,\"wave\":1,\"enemiesRemaining\":3,\"plunder\":2,\
\"career\":{\"runs\":41,\"victories\":3,\"deepestWave\":9,\"plunder\":118},\
\"paused\":false,\"aiPilot\":true,\"boarding\":{\"active\":false,\"progress\":0.000},\
\"inputMethod\":\"gamepad\",\"outcome\":\"in_progress\",\"controlsOpen\":false,\
\"ringOpacity\":0.850";

#[test]
fn the_title_card_gets_the_loadout_chips() {
    let json = hud_json(&readout(GameState::Menu, None));
    let expected = format!(
        "{{\"screen\":\"start\",\"loadout\":{{\
\"broadside\":{{\"chosen\":0,\"options\":[\"loadout.long_nines\",\"loadout.carronades\"]}},\
\"battery\":{{\"chosen\":2,\"options\":[\"loadout.disruptor\",\"loadout.boost\",\"loadout.point_defense\"]}},\
\"special\":{{\"chosen\":1,\"options\":[\"loadout.torpedoes\"]}}}}{SESSION}}}"
    );
    assert_eq!(json, expected);
}

#[test]
fn mid_run_the_chips_stay_home_and_the_outcome_still_goes_out() {
    let json = hud_json(&readout(GameState::Playing, None));
    assert_eq!(json, format!("{{\"screen\":\"playing\"{SESSION}}}"));
    let over = HudReadout {
        outcome: Outcome::PlayerDestroyed,
        ..readout(GameState::GameOver, None)
    };
    let json = hud_json(&over);
    assert!(json.starts_with("{\"screen\":\"gameover\",\"aimBattery\""));
    assert!(json.contains(",\"outcome\":\"destroyed\","));
}

#[test]
fn the_wave_is_never_reported_below_the_first() {
    let json = hud_json(&HudReadout {
        wave: 4,
        ..readout(GameState::Playing, None)
    });
    assert!(json.contains(",\"wave\":4,"));
}

fn ship() -> ShipReadout {
    ShipReadout {
        x: -12,
        y: 340,
        hull: "0.7500".to_string(),
        shield: None,
        helm: ThrustState::Half,
        speed: "0.4000".to_string(),
        agility: "0.9000".to_string(),
        battery: Some("0.2500".to_string()),
        broadside: Some((
            Cooldown {
                remaining: "1.500".to_string(),
                duration: "10.000".to_string(),
            },
            Cooldown {
                remaining: "0.000".to_string(),
                duration: "10.000".to_string(),
            },
        )),
        torpedoes: Some(TorpedoReadout {
            magazine: Magazine { count: 9, max: 12 },
            ready: 2,
            tubes_max: 4,
            progress: "0.250".to_string(),
        }),
        microwarp: None,
        barrels: None,
        torpedo_locks: 1,
    }
}

#[test]
fn the_ship_readouts_follow_the_session() {
    let json = hud_json(&readout(GameState::Playing, Some(ship())));
    let expected = format!(
        "{{\"screen\":\"playing\"{SESSION},\"coords\":{{\"x\":-12,\"y\":340}},\"hull\":0.7500,\
\"shield\":{{\"fitted\":false,\"fore\":0.0000,\"aft\":0.0000}},\
\"sail\":{{\"helm\":\"hud.helm.half\",\"speed\":0.4000,\"agility\":0.9000}},\
\"boostBattery\":0.2500,\
\"portCd\":{{\"remaining\":1.500,\"duration\":10.000}},\
\"starboardCd\":{{\"remaining\":0.000,\"duration\":10.000}},\
\"special\":\"torpedoes\",\"torpedoMagazine\":{{\"count\":9,\"max\":12}},\
\"torpedoes\":[{{\"state\":\"ready\"}},{{\"state\":\"ready\"}},\
{{\"state\":\"loading\",\"progress\":0.250}},{{\"state\":\"empty\"}}],\
\"torpedoLocks\":1}}"
    );
    assert_eq!(json, expected);
}

#[test]
fn the_special_is_named_even_when_it_is_not_torpedoes() {
    let warp = ShipReadout {
        torpedoes: None,
        microwarp: Some(Cooldown {
            remaining: "3.000".to_string(),
            duration: "12.000".to_string(),
        }),
        shield: Some(ShieldReadout {
            fore: "1.0000".to_string(),
            aft: "0.5000".to_string(),
        }),
        battery: None,
        broadside: None,
        ..ship()
    };
    let json = hud_json(&readout(GameState::Playing, Some(warp)));
    assert!(json.contains(
        ",\"shield\":{\"fitted\":true,\"fore\":1.0000,\"aft\":0.5000}"
    ));
    assert!(json.contains(
        ",\"special\":\"microwarp\",\"microwarpCd\":{\"remaining\":3.000,\"duration\":12.000},\"torpedoLocks\":1}"
    ));
    assert!(!json.contains("boostBattery"));
    assert!(!json.contains("portCd"));

    let barrels = ShipReadout {
        torpedoes: None,
        microwarp: None,
        barrels: Some(Magazine { count: 2, max: 3 }),
        ..ship()
    };
    let json = hud_json(&readout(GameState::Playing, Some(barrels)));
    assert!(json.contains(
        ",\"special\":\"barrels\",\"barrelMagazine\":{\"count\":2,\"max\":3},\"torpedoLocks\":1}"
    ));

    let bare = ShipReadout {
        torpedoes: None,
        microwarp: None,
        barrels: None,
        ..ship()
    };
    assert!(hud_json(&readout(GameState::Playing, Some(bare))).contains(",\"special\":\"none\""));
}

#[test]
fn a_full_tube_row_has_no_loading_tube() {
    let full = ShipReadout {
        torpedoes: Some(TorpedoReadout {
            magazine: Magazine { count: 0, max: 12 },
            ready: 3,
            tubes_max: 3,
            progress: "0.000".to_string(),
        }),
        ..ship()
    };
    let json = hud_json(&readout(GameState::Playing, Some(full)));
    assert!(json.contains(
        "\"torpedoes\":[{\"state\":\"ready\"},{\"state\":\"ready\"},{\"state\":\"ready\"}]"
    ));
}

#[test]
fn numbers_are_written_in_plain_decimal() {
    let mut j = String::new();
    push_decimal(&mut j, 0);
    j.push(' ');
    push_decimal(&mut j, 1200);
    j.push(' ');
    push_decimal(&mut j, u64::MAX);
    j.push(' ');
    push_signed(&mut j, -7);
    j.push(' ');
    push_signed(&mut j, i64::MIN);
    j.push(' ');
    push_signed(&mut j, 42);
    assert_eq!(
        j,
        format!("0 1200 {} -7 {} 42", u64::MAX, i64::MIN)
    );
}
