use vt_client::ring::{ring_payload, RingSnapshot};

#[test]
fn the_payload_is_a_json_array_of_the_entries() {
    assert_eq!(ring_payload(&vec![]), "[]");
    assert_eq!(ring_payload(&vec!["{\"id\":1}".to_string()]), "[{\"id\":1}]");
    assert_eq!(
        ring_payload(&vec!["{\"id\":1}".to_string(), "{\"id\":2}".to_string()]),
        "[{\"id\":1},{\"id\":2}]"
    );
}

#[test]
fn a_still_scene_does_not_move_the_ring_sequence() {
    let mut snap = RingSnapshot::default();
    snap.publish("[]".to_string());
    assert_eq!(snap.seq, 1);
    snap.publish("[]".to_string());
    assert_eq!(snap.seq, 1);
    snap.publish("[{}]".to_string());
    assert_eq!(snap.seq, 2);
    assert_eq!(snap.json, "[{}]");
}

use vt_client::readout::ShieldReadout;
use vt_client::ring::{ring_entry, BankBand, RingEntry, ScreenPoint, TubeBand};

fn point(x: &str, y: &str) -> ScreenPoint {
    ScreenPoint {
        x: x.to_string(),
        y: y.to_string(),
    }
}

fn entry(me: bool) -> RingEntry {
    RingEntry {
        id: 7,
        me,
        prize: false,
        o: point("0.50000", "0.60000"),
        x: point("0.04000", "0.00000"),
        y: point("0.00000", "-0.03000"),
        h: "-90.00".to_string(),
        hull: "0.8000".to_string(),
        shield: Some(ShieldReadout {
            fore: "1.0000".to_string(),
            aft: "0.2500".to_string(),
        }),
        banks: Some((
            BankBand {
                ready: true,
                arc: "0.6000".to_string(),
                loaded: "1.000".to_string(),
            },
            BankBand {
                ready: false,
                arc: "0.6000".to_string(),
                loaded: "0.350".to_string(),
            },
        )),
        tubes: Some(TubeBand {
            max: 6,
            ready: 2,
            loading: "0.500".to_string(),
        }),
    }
}

#[test]
fn the_players_ring_carries_its_gun_and_tube_bands() {
    assert_eq!(
        ring_entry(&entry(true)),
        "{\"id\":7,\"me\":true,\"prize\":false,\"o\":[0.50000,0.60000],\"x\":[0.04000,0.00000],\
\"y\":[0.00000,-0.03000],\"h\":-90.00,\"hull\":0.8000,\"shield\":{\"fore\":1.0000,\"aft\":0.2500},\
\"port\":{\"ready\":true,\"arc\":0.6000,\"loaded\":1.000},\
\"stbd\":{\"ready\":false,\"arc\":0.6000,\"loaded\":0.350},\
\"tubes\":{\"max\":6,\"ready\":2,\"loading\":0.500}}"
    );
}

#[test]
fn another_ships_ring_carries_no_bands_and_shields_only_when_fitted() {
    let enemy = RingEntry {
        shield: None,
        prize: true,
        ..entry(false)
    };
    assert_eq!(
        ring_entry(&enemy),
        "{\"id\":7,\"me\":false,\"prize\":true,\"o\":[0.50000,0.60000],\"x\":[0.04000,0.00000],\
\"y\":[0.00000,-0.03000],\"h\":-90.00,\"hull\":0.8000}"
    );
}
