use qingjian::action::KeyId;
use qingjian::chooser::{fired, items, to_ascii_lower, to_ascii_upper, DEFAULT_CHOICE};

#[test]
fn the_row_shows_upper_case_symbol_and_lower_case() {
    assert_eq!(items('q', '1'), ['Q', '1', 'q']);
    assert_eq!(items('Y', '6'), ['Y', '6', 'y']);
}

#[test]
fn each_choice_types_its_own_key() {
    assert_eq!(fired('q', '1', 0), KeyId::Literal('Q'));
    assert_eq!(fired('q', '1', 1), KeyId::Literal('1'));
    assert_eq!(fired('q', '1', 2), KeyId::Letter('q'));
    assert_eq!(fired('q', '1', DEFAULT_CHOICE), KeyId::Literal('1'));
    assert_eq!(fired('q', '1', 9), KeyId::Literal('1'));
}

#[test]
fn case_changes_touch_ascii_letters_only() {
    assert_eq!(to_ascii_upper('a'), 'A');
    assert_eq!(to_ascii_upper('z'), 'Z');
    assert_eq!(to_ascii_upper('1'), '1');
    assert_eq!(to_ascii_upper('é'), 'é');
    assert_eq!(to_ascii_lower('A'), 'a');
    assert_eq!(to_ascii_lower('@'), '@');
    assert_eq!(to_ascii_lower('['), '[');
}
