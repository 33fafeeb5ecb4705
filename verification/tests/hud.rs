use vt_client::hud::{
    copy_unpremultiplied, js_string_literal, parse_hud_action, parse_hud_actions, tube_states,
    unpremultiply, HudAction, HudSnapshot, Slot, TubeState,
};
use vt_client::paths;

#[test]
fn the_page_can_ask_for_the_things_the_host_understands() {
    assert_eq!(parse_hud_action("start_run"), Some(HudAction::StartRun));
    assert_eq!(parse_hud_action("restart"), Some(HudAction::Restart));
    assert_eq!(
        parse_hud_action("select_slot|slot=battery|option=2"),
        Some(HudAction::SelectSlot {
            slot: Slot::Battery,
            option: 2,
        })
    );
    assert_eq!(
        parse_hud_action("select_scenario|name=test_range"),
        Some(HudAction::SelectScenario(paths::TEST_RANGE))
    );
}

#[test]
fn a_drained_batch_is_one_action_per_line() {
    let actions = parse_hud_actions("select_slot|slot=special|option=1\n\nstart_run\n");
    assert_eq!(
        actions,
        vec![
            HudAction::SelectSlot {
                slot: Slot::Special,
                option: 1,
            },
            HudAction::StartRun,
        ]
    );
}

#[test]
fn an_unknown_action_is_reported_rather_than_swallowed() {
    assert!(matches!(
        parse_hud_action("undock|bay=3"),
        Some(HudAction::Unknown(_))
    ));
    assert!(matches!(
        parse_hud_action("select_slot|slot=battery"),
        Some(HudAction::Unknown(_))
    ));
    assert!(matches!(
        parse_hud_action("select_scenario|name=../../etc/passwd"),
        Some(HudAction::Unknown(_))
    ));
}

#[test]
fn nothing_at_all_is_not_an_action() {
    assert_eq!(parse_hud_action(""), None);
    assert_eq!(parse_hud_action("   "), None);
    assert!(parse_hud_actions("").is_empty());
}

#[test]
fn the_skirmish_is_selectable_by_name() {
    assert_eq!(
        parse_hud_action("select_scenario|name=skirmish"),
        Some(HudAction::SelectScenario(paths::SKIRMISH))
    );
}

#[test]
fn an_unknown_action_keeps_its_text() {
    assert_eq!(
        parse_hud_action("  undock|bay=3  "),
        Some(HudAction::Unknown("undock|bay=3".to_string()))
    );
}

#[test]
fn pairs_may_come_in_either_order_and_surrounding_space_is_ignored() {
    assert_eq!(
        parse_hud_action("  select_slot|option=0|slot=broadside \r"),
        Some(HudAction::SelectSlot {
            slot: Slot::Broadside,
            option: 0,
        })
    );
}

#[test]
fn an_option_that_is_not_a_number_is_not_acted_on() {
    assert!(matches!(
        parse_hud_action("select_slot|slot=battery|option=two"),
        Some(HudAction::Unknown(_))
    ));
    assert!(matches!(
        parse_hud_action("select_slot|slot=hold|option=1"),
        Some(HudAction::Unknown(_))
    ));
}

#[test]
fn crlf_batches_split_like_lf_batches() {
    let actions = parse_hud_actions("restart\r\nstart_run");
    assert_eq!(actions, vec![HudAction::Restart, HudAction::StartRun]);
}

#[test]
fn slot_names_parse_exactly() {
    assert_eq!(Slot::parse("broadside"), Some(Slot::Broadside));
    assert_eq!(Slot::parse("battery"), Some(Slot::Battery));
    assert_eq!(Slot::parse("special"), Some(Slot::Special));
    assert_eq!(Slot::parse("Special"), None);
    assert_eq!(Slot::parse(""), None);
}

#[test]
fn a_js_literal_escapes_quotes_backslashes_and_line_breaks() {
    assert_eq!(js_string_literal("plain"), "plain");
    assert_eq!(js_string_literal("it's"), "it\\'s");
    assert_eq!(js_string_literal("a\\b"), "a\\\\b");
    assert_eq!(js_string_literal("one\ntwo\r"), "one\\ntwo\\r");
    assert_eq!(js_string_literal(""), "");
}

#[test]
fn a_js_literal_never_holds_a_raw_line_break() {
    let out = js_string_literal("first line\nsecond 'quoted' line\r\n");
    assert!(!out.contains('\n'));
    assert!(!out.contains('\r'));
}

#[test]
fn a_snapshot_moves_its_sequence_only_on_change() {
    let mut snap = HudSnapshot::default();
    assert_eq!(snap.seq, 0);
    snap.publish("{\"a\":1}".to_string());
    assert_eq!(snap.seq, 1);
    assert_eq!(snap.json, "{\"a\":1}");
    snap.publish("{\"a\":1}".to_string());
    assert_eq!(snap.seq, 1);
    snap.publish("{\"a\":2}".to_string());
    assert_eq!(snap.seq, 2);
    assert_eq!(snap.json, "{\"a\":2}");
}

#[test]
fn a_snapshot_sequence_wraps_at_the_top() {
    let mut snap = HudSnapshot {
        json: String::new(),
        seq: u64::MAX,
    };
    snap.publish("x".to_string());
    assert_eq!(snap.seq, 0);
}

#[test]
fn the_tube_row_reads_ready_then_loading_then_empty() {
    assert_eq!(
        tube_states(2, 4),
        vec![
            TubeState::Ready,
            TubeState::Ready,
            TubeState::Loading,
            TubeState::Empty
        ]
    );
    assert_eq!(tube_states(3, 3), vec![TubeState::Ready; 3]);
    assert_eq!(tube_states(0, 2), vec![TubeState::Loading, TubeState::Empty]);
    assert!(tube_states(5, 0).is_empty());
}

#[test]
fn unpremultiplying_restores_straight_alpha() {
    assert_eq!(unpremultiply(10, 20, 30, 0), [0, 0, 0, 0]);
    assert_eq!(unpremultiply(10, 20, 30, 255), [30, 20, 10, 255]);
    // Half alpha: each channel doubles (255 / 128 scaling, truncated).
    assert_eq!(unpremultiply(64, 32, 16, 128), [31, 63, 127, 128]);
    // A channel brighter than its alpha allows is capped.
    assert_eq!(unpremultiply(200, 0, 0, 100), [0, 0, 255, 100]);
}

#[test]
fn a_padded_surface_is_copied_tightly_packed() {
    // Two rows of one pixel, rows eight bytes apart.
    let pixels: Vec<u8> = vec![1, 2, 3, 255, 9, 9, 9, 9, 4, 5, 6, 255];
    let mut dst = vec![7u8; 10];
    copy_unpremultiplied(&pixels, 8, 1, 2, &mut dst);
    assert_eq!(dst, vec![3, 2, 1, 255, 6, 5, 4, 255, 7, 7]);
}

#[test]
fn an_option_reads_as_rust_reads_a_usize() {
    assert_eq!(
        parse_hud_action("select_slot|slot=special|option=+3"),
        Some(HudAction::SelectSlot {
            slot: Slot::Special,
            option: 3,
        })
    );
    assert!(matches!(
        parse_hud_action("select_slot|slot=special|option="),
        Some(HudAction::Unknown(_))
    ));
    assert!(matches!(
        parse_hud_action("select_slot|slot=special|option=99999999999999999999999"),
        Some(HudAction::Unknown(_))
    ));
}

#[test]
fn a_later_pair_overrides_an_earlier_one() {
    assert!(matches!(
        parse_hud_action("select_slot|slot=battery|option=1|slot=nope"),
        Some(HudAction::Unknown(_))
    ));
    assert_eq!(
        parse_hud_action("select_slot|slot=nope|option=1|slot=battery|junk"),
        Some(HudAction::SelectSlot {
            slot: Slot::Battery,
            option: 1,
        })
    );
}

use vt_client::hud::{apply_hud_script, apply_rings_script, hud_document, seq_moved, HudPort};

#[test]
fn a_snapshot_is_pushed_as_an_escaped_literal() {
    assert_eq!(
        apply_hud_script("{\"name\":\"Ship's\"}"),
        "window.__applyHud('{\"name\":\"Ship\\'s\"}')"
    );
    assert_eq!(apply_rings_script("[]"), "window.__applyRings('[]')");
}

#[test]
fn the_page_is_made_self_contained() {
    let html = "<html><head><script src=\"bridge.js\"></script></head><body><p>hi</p></body></html>";
    let doc = hud_document(html, "var b = 1;", "{\"hud.stat.wave\":\"WAVE\",\"x\":\"it's\"}");
    assert_eq!(
        doc,
        "<html><head><script>var b = 1;</script></head><body><p>hi</p>\
<script>window.__applyStrings('{\"hud.stat.wave\":\"WAVE\",\"x\":\"it\\'s\"}');</script></body></html>"
    );
}

#[test]
fn a_page_without_the_tags_is_left_as_it_is() {
    assert_eq!(hud_document("<p>bare</p>", "x", "{}"), "<p>bare</p>");
}

#[test]
fn a_payload_is_pushed_only_when_its_sequence_moves() {
    let mut last = 0;
    assert!(!seq_moved(&mut last, 0));
    assert!(seq_moved(&mut last, 1));
    assert!(!seq_moved(&mut last, 1));
    assert!(seq_moved(&mut last, 0), "a wrapped sequence still counts as moved");
    assert_eq!(last, 0);
}

#[test]
fn a_resize_reshapes_the_view_and_repaints_both_payloads() {
    let mut port = HudPort::new(0, 720);
    assert_eq!((port.width, port.height), (1, 720));
    assert!(port.take_snapshot(5));
    assert!(port.take_rings(3));
    assert!(!port.take_snapshot(5));
    assert!(!port.resize(1, 720), "the same size is no resize");
    assert!(!port.take_rings(3));
    assert!(port.resize(1280, 720));
    assert_eq!(
        port,
        HudPort {
            width: 1280,
            height: 720,
            last_seq: 0,
            last_ring_seq: 0,
        }
    );
    assert!(port.take_snapshot(5), "the reshaped buffer is repainted");
    assert!(port.take_rings(3));
}
