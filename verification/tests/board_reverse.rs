use reversi::board_reverse::ReverseTable;

#[test]
fn get_size_n_reverses_8() {
    let actual = reversi::board_reverse::get_size_n_reverses_8();
    // o x - x x o x -
    let index: usize =
        2 * 3usize.pow(6) + 3usize.pow(5) + 2 * 3usize.pow(4) + 2 * 3usize.pow(3) + 2 * 3 + 1;
    let expected = [0, 0, 3, 0, 0, 0, 0, 1];
    assert_eq!(actual[(8 * index)..(8 * index + 8)], expected);
}

#[test]
fn static_n_reverses_8() {
    let table = ReverseTable::create();

    // o x - x x o x -
    let index: usize =
        2 * 3usize.pow(6) + 3usize.pow(5) + 2 * 3usize.pow(4) + 2 * 3usize.pow(3) + 2 * 3 + 1;
    for i in (8 * index)..(8 * index + 8) {
        println!("N_REVERSES_8[{}] = {}", i, table.n8[i]);
    }

    let expected = [0, 0, 3, 0, 0, 0, 0, 1];
    assert_eq!(table.n8[(8 * index)..(8 * index + 8)], expected);
}

#[test]
fn get_size_n_reverses_3() {
    let actual = reversi::board_reverse::get_size_n_reverses_3();
    assert_eq!(actual.len(), 3 * 27);
    // State code for the line `- x o`: 2*3 + 1*9 = 15.  Playing position 0
    // flips the enclosed disc; the other positions flip nothing.
    let index = 2 * 3 + 9;
    assert_eq!(actual[3 * index], 1);
}

#[test]
fn embed_coded_line_places_both_sides() {
    let cells: [u8; 8] = [1, 2, 0, 1, 0, 0, 2, 1];
    let board = reversi::board_reverse::embed_coded_line_to_top_horizontal_line(&cells);
    assert_eq!(board.first(), 0b1000_1001);
    assert_eq!(board.second(), 0b0100_0010);
}
