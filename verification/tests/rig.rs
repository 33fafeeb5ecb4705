use vt_client::rig::{ModelRig, ModelRigs};

#[test]
fn a_missing_or_empty_rig_falls_back() {
    let mut rigs: ModelRigs<(i32, i32, i32)> = ModelRigs::new();
    assert!(rigs.trail_anchors("models/none.glb").is_none());
    rigs.insert(
        "models/none.glb",
        ModelRig {
            trail_anchors: vec![],
        },
    );
    assert!(
        rigs.trail_anchors("models/none.glb").is_none(),
        "an empty anchor list means the global pair, not zero trails"
    );
    assert!(rigs.get("models/none.glb").is_some());
}

#[test]
fn a_model_keeps_its_own_anchors_and_a_new_sidecar_replaces_them() {
    let mut rigs = ModelRigs::new();
    rigs.insert(
        "models/challenger.glb",
        ModelRig {
            trail_anchors: vec![(-8, -30, 2), (8, -30, 2)],
        },
    );
    rigs.insert(
        "models/imperial.glb",
        ModelRig {
            trail_anchors: vec![(0, -50, 3)],
        },
    );
    assert_eq!(
        rigs.trail_anchors("models/challenger.glb"),
        Some(&vec![(-8, -30, 2), (8, -30, 2)])
    );
    rigs.insert(
        "models/challenger.glb",
        ModelRig {
            trail_anchors: vec![(0, -28, 2)],
        },
    );
    assert_eq!(
        rigs.trail_anchors("models/challenger.glb"),
        Some(&vec![(0, -28, 2)])
    );
    assert_eq!(
        rigs.trail_anchors("models/imperial.glb"),
        Some(&vec![(0, -50, 3)])
    );
    assert!(rigs.trail_anchors("models/bob.glb").is_none());
}
