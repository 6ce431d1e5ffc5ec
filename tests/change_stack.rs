use gltf_prefab::ui::ActionChangeStack;

#[test]
fn new_stack_shows_initial_value() {
    let s = ActionChangeStack::new([1u8, 2, 3, 4]);
    assert!(s.is_empty());
    assert_eq!(s.current(), [1, 2, 3, 4]);
}

#[test]
fn newest_change_is_current() {
    let mut s = ActionChangeStack::new(0u32);
    s.add(5);
    s.add(9);
    assert!(!s.is_empty());
    assert_eq!(s.current(), 9);
}

#[test]
fn remove_takes_oldest_equal_change() {
    let mut s = ActionChangeStack::new(0u32);
    s.add(5);
    s.add(9);
    s.add(5);
    assert_eq!(s.remove(&5), Some(5));
    assert_eq!(s.current(), 5);
    assert_eq!(s.remove(&5), Some(5));
    assert_eq!(s.current(), 9);
    assert_eq!(s.remove(&9), Some(9));
    assert!(s.is_empty());
    assert_eq!(s.current(), 0);
}

#[test]
fn remove_of_absent_change_does_nothing() {
    let mut s = ActionChangeStack::new(String::from("idle"));
    s.add(String::from("hover"));
    assert_eq!(s.remove(&String::from("press")), None);
    assert_eq!(s.current(), "hover");
    assert_eq!(s.remove(&String::from("hover")), Some(String::from("hover")));
    assert_eq!(s.current(), "idle");
}

use gltf_prefab::ui::ButtonChanges;

#[test]
fn button_changes_record_first_value_once() {
    let mut c = ButtonChanges::new();
    assert!(!c.contains(3));
    c.set(3, 10u32, 20);
    c.set(3, 20, 30);
    assert!(c.contains(3));
    assert_eq!(c.unset(3, &30), Some(20));
    assert_eq!(c.unset(3, &20), Some(10));
    assert!(!c.contains(3));
}

#[test]
fn button_changes_unset_out_of_order() {
    let mut c = ButtonChanges::new();
    c.set(1, 0u32, 5);
    c.set(1, 5, 6);
    assert_eq!(c.unset(1, &5), Some(6));
    assert!(c.contains(1));
    assert_eq!(c.unset(1, &6), Some(0));
    assert!(!c.contains(1));
}

#[test]
fn button_changes_unset_without_stack_does_nothing() {
    let mut c: ButtonChanges<u32> = ButtonChanges::new();
    assert_eq!(c.unset(4, &1), None);
    c.set(2, 1, 2);
    assert_eq!(c.unset(4, &2), None);
    assert!(c.contains(2));
}

#[test]
fn button_changes_unset_of_unknown_change_keeps_stack() {
    let mut c = ButtonChanges::new();
    c.set(7, String::from("plain"), String::from("bold"));
    assert_eq!(c.unset(7, &String::from("italic")), Some(String::from("bold")));
    assert!(c.contains(7));
}

#[test]
fn button_changes_targets_are_independent() {
    let mut c = ButtonChanges::new();
    c.set(1, 0u32, 5);
    c.set(2, 1u32, 9);
    assert_eq!(c.unset(1, &5), Some(0));
    assert!(!c.contains(1));
    assert!(c.contains(2));
    assert_eq!(c.unset(2, &9), Some(1));
}

use gltf_prefab::ui::UiButtonSystem;

#[test]
fn button_system_starts_without_changes() {
    let mut sys: UiButtonSystem<u64, [u8; 4]> = UiButtonSystem::new();
    assert!(!sys.set_textures.contains(0));
    assert!(!sys.set_text_colors.contains(0));
    sys.set_text_colors.set(0, [0, 0, 0, 255], [255, 0, 0, 255]);
    assert!(sys.set_text_colors.contains(0));
    assert!(!sys.set_textures.contains(0));
    assert_eq!(sys.set_text_colors.unset(0, &[255, 0, 0, 255]), Some([0, 0, 0, 255]));
}
