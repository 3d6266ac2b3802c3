use game_of_life::cell::Cell;

#[test]
fn byte_encoding_dead_is_zero_alive_is_one() {
    assert_eq!(Cell::Dead.as_byte(), 0);
    assert_eq!(Cell::Alive.as_byte(), 1);
}

#[test]
fn toggle_flips_between_states() {
    let mut c = Cell::Dead;
    c.toggle();
    assert_eq!(c, Cell::Alive);
    c.toggle();
    assert_eq!(c, Cell::Dead);
}
