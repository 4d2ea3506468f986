use works_after_reinstall::prompt::{interpret, parse_choice};

#[test]
fn confirm_accepts_the_usual_yes_forms() {
    assert!(interpret("y", false));
    assert!(interpret("YES", false));
    assert!(interpret(" yes \r\n", false));
}

#[test]
fn confirm_falls_back_to_the_default_on_anything_else() {
    assert!(!interpret("", false));
    assert!(interpret("\n", true));
    assert!(!interpret("n", true));
    assert!(!interpret("maybe", true));
}

#[test]
fn choose_maps_a_number_to_an_index() {
    assert_eq!(parse_choice("1", 3), Some(0));
    assert_eq!(parse_choice(" 2 ", 3), Some(1));
    assert_eq!(parse_choice("3", 3), Some(2));
}

#[test]
fn choose_rejects_anything_out_of_range() {
    assert_eq!(parse_choice("0", 3), None);
    assert_eq!(parse_choice("4", 3), None);
    assert_eq!(parse_choice("", 3), None);
    assert_eq!(parse_choice("banana", 3), None);
}

#[test]
fn choose_reads_numbers_as_usize_does() {
    assert_eq!(parse_choice("+2", 3), Some(1));
    assert_eq!(parse_choice("002", 3), Some(1));
    assert_eq!(parse_choice("-1", 3), None);
    assert_eq!(parse_choice("+", 3), None);
    assert_eq!(parse_choice("1 2", 3), None);
    assert_eq!(parse_choice("99999999999999999999999999", usize::MAX), None);
    assert_eq!(parse_choice("1", 0), None);
}

#[test]
fn confirm_ignores_case_but_not_other_words() {
    assert!(interpret("Y", false));
    assert!(interpret("\tYeS", false));
    assert!(!interpret("yess", true));
    assert!(!interpret("no", true));
}
