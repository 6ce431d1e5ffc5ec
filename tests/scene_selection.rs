use gltf_prefab::render::DrawPbmSeparate;
use gltf_prefab::scene::{select_scene, SceneSelectionError};

#[test]
fn requested_scene_is_loaded() {
    assert_eq!(select_scene(Some(2), Some(0), 3), Ok(2));
}

#[test]
fn requested_scene_out_of_range_fails() {
    assert_eq!(select_scene(Some(3), Some(0), 3), Err(SceneSelectionError::InvalidSceneIndex(3)));
}

#[test]
fn default_scene_is_loaded() {
    assert_eq!(select_scene(None, Some(1), 3), Ok(1));
    assert_eq!(select_scene(None, Some(4), 3), Err(SceneSelectionError::InvalidSceneIndex(4)));
}

#[test]
fn only_scene_is_loaded() {
    assert_eq!(select_scene(None, None, 1), Ok(0));
}

#[test]
fn ambiguous_scene_fails() {
    assert_eq!(select_scene(None, None, 2), Err(SceneSelectionError::AmbiguousScene));
    assert_eq!(select_scene(None, None, 0), Err(SceneSelectionError::AmbiguousScene));
}

#[test]
fn draw_pass_is_default() {
    assert_eq!(DrawPbmSeparate::new(), DrawPbmSeparate::default());
}
