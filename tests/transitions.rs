use yap::error::TableError;
use yap::state::LexerStates;
use yap::transition::Transition;

fn setup() -> usize {
    let mut states = LexerStates::new();
    states.add_state(None)
}

#[test]
fn check_constructor() {
    let root = setup();
    let t = Transition::new('a', 'z', None, root).unwrap();
    assert_eq!(t.next_state(), root);
}

#[test]
fn check_single_char_transition() {
    let root = setup();
    let t = Transition::new('=', '=', None, root).unwrap();
    assert!(t.do_transition('='));
    assert!(!t.do_transition('a'));
}

#[test]
fn check_bad_transition() {
    let root = setup();
    let t = Transition::new('=', '=', Some('='), root);
    assert_eq!(t.err(), Some(TableError::InvalidException));
}

#[test]
fn check_range_transition() {
    let root = setup();
    let t = Transition::new('a', 'z', None, root).unwrap();
    assert!(t.do_transition('z'));
    assert!(!t.do_transition('A'));
}

#[test]
fn check_range_transition_with_excep() {
    let root = setup();
    let t = Transition::new('a', 'z', Some('d'), root).unwrap();
    assert!(t.do_transition('b'));
    assert!(!t.do_transition('d'));
}

#[test]
fn check_is_same_excep() {
    let root = setup();
    let t = Transition::new('a', 'z', Some('d'), root).unwrap();
    assert!(t.is_same('a', 'z', Some('d')));
    assert!(!t.is_same('b', 'z', Some('d')));
    assert!(!t.is_same('a', 'A', Some('d')));
    assert!(!t.is_same('a', 'z', Some('e')));
    assert!(!t.is_same('a', 'z', None));
}

#[test]
fn check_is_same() {
    let root = setup();
    let t = Transition::new('=', '=', None, root).unwrap();
    assert!(t.is_same('=', '=', None));
    assert!(!t.is_same('=', '=', Some('d')));
    assert!(!t.is_same('a', 'A', None));
}
