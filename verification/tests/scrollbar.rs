use paneflow::widgets::scrollbar::{
    scrollbar_move, scrollbar_press, scrollbar_release, thumb_tint, ScrollbarPress, ThumbTint,
};

#[test]
fn a_press_grabs_the_thumb_or_jumps_to_it() {
    let mut dragging = false;
    assert_eq!(scrollbar_press(&mut dragging, None), ScrollbarPress::Ignored);
    assert!(!dragging);
    assert_eq!(scrollbar_press(&mut dragging, Some(true)), ScrollbarPress::Grab);
    assert!(dragging);
    dragging = false;
    assert_eq!(scrollbar_press(&mut dragging, Some(false)), ScrollbarPress::Jump);
    assert!(dragging);
}

#[test]
fn a_drag_ends_with_its_button() {
    let (mut hovered, mut dragging) = (false, true);
    assert!(scrollbar_move(&mut hovered, &mut dragging, false, true));
    assert!(dragging);
    assert!(scrollbar_move(&mut hovered, &mut dragging, false, false));
    assert!(!dragging);
    assert!(!scrollbar_move(&mut hovered, &mut dragging, false, false));
    assert!(scrollbar_move(&mut hovered, &mut dragging, true, true));
    assert!(hovered && !dragging);
    dragging = true;
    assert!(!scrollbar_release(&mut dragging, false));
    assert!(dragging);
    assert!(scrollbar_release(&mut dragging, true));
    assert!(!dragging);
}

#[test]
fn a_drag_shows_over_a_hover() {
    assert_eq!(thumb_tint(true, true), ThumbTint::Dragged);
    assert_eq!(thumb_tint(true, false), ThumbTint::Hovered);
    assert_eq!(thumb_tint(false, false), ThumbTint::Idle);
}
