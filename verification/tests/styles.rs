use media_ingest::styles::{Button, Container, HoveredContainer, TextInput};

#[test]
fn the_hovered_selector_reflects_its_argument() {
    assert!(HoveredContainer::new(true).hovered);
    assert!(!HoveredContainer::new(false).hovered);
}

#[test]
fn selectors_compare_by_variant() {
    assert_eq!(Container::Primary, Container::Primary);
    assert_ne!(Container::Primary, Container::Secondary);
    assert_ne!(Button::Primary, Button::Transparent);
    assert_eq!(TextInput::Primary, TextInput::Primary);
}
