use works_after_reinstall::cli::{all_components, selected, Component};

#[test]
fn skip_wins_when_no_only_given() {
    assert!(selected(&[], &[], Component::Apps));
    assert!(!selected(&[], &[Component::Apps], Component::Apps));
    assert!(selected(&[], &[Component::Apps], Component::Files));
}

#[test]
fn only_takes_precedence_over_skip() {
    assert!(selected(
        &[Component::Files],
        &[Component::Files],
        Component::Files
    ));
    assert!(!selected(&[Component::Files], &[], Component::Apps));
}

#[test]
fn every_component_has_both_names() {
    for component in all_components() {
        assert!(!component.label().is_empty());
        assert!(!component.title().is_empty());
        assert_ne!(component.label(), component.title());
    }
}
