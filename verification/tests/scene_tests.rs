use raytracker::scene::{build, unknown_scene_message, SceneKind, SCENE_NAMES};
use raytracker::text::join;

#[test]
fn every_advertised_scene_builds() {
    for name in SCENE_NAMES {
        let scene = build(name).unwrap_or_else(|| panic!("scene {name} failed to build"));
        assert_eq!(scene.name(), name);
    }
}

#[test]
fn unknown_scene_is_rejected() {
    assert!(build("nope").is_none());
}

#[test]
fn names_resolve_to_their_scenes() {
    assert_eq!(build("three"), Some(SceneKind::Three));
    assert_eq!(build("glass"), Some(SceneKind::Glass));
    assert_eq!(build("final"), Some(SceneKind::Final));
    for kind in [SceneKind::Three, SceneKind::Glass, SceneKind::Final] {
        assert_eq!(build(kind.name()), Some(kind));
    }
}

#[test]
fn names_are_matched_exactly() {
    assert!(build("").is_none());
    assert!(build("Three").is_none());
    assert!(build("three ").is_none());
    assert!(build("thre").is_none());
    assert!(build("finale").is_none());
}

#[test]
fn unknown_scene_message_lists_every_scene() {
    assert_eq!(
        unknown_scene_message("nope"),
        "unknown scene 'nope' (expected one of: three, glass, final)"
    );
}

#[test]
fn join_puts_the_separator_between_neighbours_only() {
    assert_eq!(join(&[], ", "), "");
    assert_eq!(join(&["a"], ", "), "a");
    assert_eq!(join(&["a", "bc", ""], "-"), "a-bc-");
}
