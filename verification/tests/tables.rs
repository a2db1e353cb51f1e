use ansi::parser::action::Action as TableAction;
use ansi::parser::conditions::{is_end_of_csi, is_end_of_ground};
use ansi::parser::table::{State as TableState, Table};
use ansi::parser2::transitions::{Action, State, entry, exit, pack, transition, unpack};

#[test]
fn pack_state_action() {
    assert_eq!(pack(Action::OscTermination, State::Ground), 0xEE);
    assert_eq!(pack(Action::Nop, State::Ground), 0x0E);
    assert_eq!(pack(Action::OscTermination, State::CsiEntry), 0xE0);
}

#[test]
fn unpack_state_action() {
    assert_eq!(unpack(0xEE), (Action::OscTermination, State::Ground));
    assert_eq!(unpack(0x0E), (Action::Nop, State::Ground));
    assert_eq!(unpack(0xE0), (Action::OscTermination, State::CsiEntry));
}

#[test]
fn unpack_undoes_pack() {
    for b in 0..=255u8 {
        let (a, s) = unpack(b);
        assert_eq!(pack(a, s), b);
    }
}

#[test]
fn second_table_transitions() {
    assert_eq!(transition(State::Ground, 0x1b), (Action::Nop, State::Escape));
    assert_eq!(transition(State::Escape, b'['), (Action::Nop, State::CsiEntry));
    assert_eq!(transition(State::CsiEntry, b'1'), (Action::Param, State::CsiParam));
    assert_eq!(transition(State::CsiParam, b'm'), (Action::CsiDispatch, State::Ground));
    assert_eq!(transition(State::Ground, 0x07), (Action::Execute, State::Ground));
    assert_eq!(transition(State::Utf8, 0x85), (Action::Collect, State::Utf8));
    assert_eq!(transition(State::Ground, 0x85), (Action::Execute, State::Ground));
    assert_eq!(transition(State::Ground, 0xFF), (Action::Nop, State::Unset));
    assert_eq!(entry(State::OscString), Action::OscDispatch);
    assert_eq!(exit(State::OscString), Action::OscTermination);
    assert_eq!(entry(State::Ground), Action::Nop);
}

#[test]
fn default_table_matches_dec_parser() {
    let t = Table::default();
    assert_eq!(t.transition(TableState::Ground, b'a'), (TableState::Ground, TableAction::Print));
    assert_eq!(t.transition(TableState::Ground, 0x1b), (TableState::Escape, TableAction::Nop));
    assert_eq!(t.transition(TableState::Escape, b'['), (TableState::CsiEntry, TableAction::Nop));
    assert_eq!(t.transition(TableState::CsiEntry, b'?'), (TableState::CsiParam, TableAction::Collect));
    assert_eq!(t.transition(TableState::CsiParam, b';'), (TableState::CsiParam, TableAction::Param));
    assert_eq!(t.transition(TableState::CsiParam, b'm'), (TableState::Ground, TableAction::Dispatch));
    assert_eq!(t.transition(TableState::Ground, 0xC3), (TableState::Utf8, TableAction::Collect));
    assert_eq!(t.transition(TableState::Utf8, 0x85), (TableState::Utf8, TableAction::Collect));
    assert_eq!(t.transition(TableState::OscData, 0x9C), (TableState::Ground, TableAction::Nop));
    assert_eq!(t.transition(TableState::OscData, 0x7F), (TableState::OscData, TableAction::Collect));
    assert_eq!(t.transition(TableState::DcsIntermediate, b'x'), (TableState::DcsData, TableAction::Collect));
    assert_eq!(t.transition(TableState::Ground, 0xFF), (TableState::Ground, TableAction::Nop));
    assert_eq!(t.on_enter(TableState::CsiEntry), TableAction::Clear);
    assert_eq!(t.on_exit(TableState::DcsData), TableAction::Dispatch);
    assert_eq!(t.on_exit(TableState::Ground), TableAction::Nop);
}

#[test]
fn table_add_skips_the_last_byte() {
    let mut t = Table::empty();
    t.add(0xFE, 0xFF, TableState::Ground, TableAction::Print, TableState::Escape);
    assert_eq!(t.transition(TableState::Ground, 0xFE), (TableState::Escape, TableAction::Print));
    assert_eq!(t.transition(TableState::Ground, 0xFF), (TableState::Ground, TableAction::Nop));
    t.ignore(0x20, 0x20, TableState::CsiIgnore);
    assert_eq!(t.transition(TableState::CsiIgnore, 0x20), (TableState::CsiIgnore, TableAction::Ignore));
    t.next(0x21, 0x21, TableState::CsiIgnore, TableState::Ground);
    assert_eq!(t.transition(TableState::CsiIgnore, 0x21), (TableState::Ground, TableAction::Nop));
    t.action(0x22, 0x22, TableState::CsiIgnore, TableAction::Execute);
    assert_eq!(t.transition(TableState::CsiIgnore, 0x22), (TableState::CsiIgnore, TableAction::Execute));
}

#[test]
fn table_index_and_value() {
    assert_eq!(Table::index(0x41, TableState::Escape), 0x141);
    assert_eq!(Table::value(TableAction::Print, TableState::Utf8), (7 << 5) | 16);
}

#[test]
fn end_conditions() {
    assert!(is_end_of_csi(b'm'));
    assert!(is_end_of_csi(0x1b));
    assert!(!is_end_of_csi(b'1'));
    assert!(is_end_of_ground(0x1b));
    assert!(is_end_of_ground(0x7f));
    assert!(!is_end_of_ground(b'\n'));
    assert!(!is_end_of_ground(b'a'));
}

#[test]
fn single_byte_and_range_entries() {
    let mut t = Table::empty();
    t.add(0xF0, 0xFF, TableState::Ground, TableAction::Print, TableState::Ground);
    assert_eq!(t.transition(TableState::Ground, 0xFE), (TableState::Ground, TableAction::Print));
    assert_eq!(t.transition(TableState::Ground, 0xFF), (TableState::Ground, TableAction::Nop));
    t.add_byte(0xFF, TableState::Ground, TableAction::Execute, TableState::Escape);
    assert_eq!(t.transition(TableState::Ground, 0xFF), (TableState::Escape, TableAction::Execute));
}
