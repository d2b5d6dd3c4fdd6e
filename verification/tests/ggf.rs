use reversi::bitboard::extract_pattern_instance_indices;
use reversi::board::Board;
use reversi::player::Player;
use reversi::ggf::{
    comsume_until_close_bracket, extract_pattarn_instance_histories, parse_move_content,
    PatternInstanceHistory,
};

#[test]
fn comsume_until_close_bracket_returns_the_bracket_content() {
    let chars: Vec<char> = "GM[Othello]PC[GGS/os]".chars().collect();
    let (end, content) = comsume_until_close_bracket(&chars, 3);
    assert_eq!(end, 10);
    assert_eq!(content, "Othello".to_string());

    let (end2, content2) = comsume_until_close_bracket(&chars, 14);
    assert_eq!(end2, 20);
    assert_eq!(content2, "GGS/os".to_string());
}

#[test]
fn comsume_until_close_bracket_of_empty_content() {
    let chars: Vec<char> = "B[]".chars().collect();
    let (end, content) = comsume_until_close_bracket(&chars, 2);
    assert_eq!(end, 2);
    assert_eq!(content, "".to_string());
}

#[test]
fn parse_move_content_reads_coordinates() {
    let chars: Vec<char> = "B[E6//4.09]".chars().collect();
    let triple = parse_move_content('B', 1, &chars, "E6//4.09");
    assert_eq!(triple, ('B', 'E', '6'));
}

#[test]
fn parse_move_content_reads_a_pass() {
    let chars: Vec<char> = "B[pass//1.67]".chars().collect();
    let triple = parse_move_content('B', 1, &chars, "pass//1.67");
    assert_eq!(triple, ('B', '*', '*'));

    let chars2: Vec<char> = "W[pass]".chars().collect();
    let triple2 = parse_move_content('W', 1, &chars2, "pass");
    assert_eq!(triple2, ('W', '*', '*'));
}

#[test]
fn parse_move_content_does_not_mistake_a_longer_word_for_a_pass() {
    let chars: Vec<char> = "W[passx]".chars().collect();
    let triple = parse_move_content('W', 1, &chars, "passx");
    assert_eq!(triple, ('W', 'p', 'a'));
}

#[test]
fn pattern_instance_indices_to_csv_joins_with_commas() {
    let v = vec![12u64, 0, 305];
    let csv = PatternInstanceHistory::pattern_instance_indices_to_csv(&v);
    assert_eq!(csv, "12,0,305".to_string());
}

#[test]
fn extract_pattarn_instance_histories_numbers_real_moves() {
    let moves = vec![
        ('B', 'E', '6'),
        ('W', 'H', '8'),
        ('B', '*', '*'),
        ('W', 'G', '7'),
        ('B', '*', '*'),
        ('W', 'G', '8'),
    ];
    let histories = extract_pattarn_instance_histories(&moves);
    assert_eq!(histories.len(), 4);
    for (h, history) in histories.iter().enumerate() {
        assert_eq!(history.step, h);
        assert_eq!(history.pattern_instance_indices_0.len(), 44);
        assert_eq!(history.pattern_instance_indices_1, vec![0]);
    }
    assert_eq!(histories[0].score_sign, 1);
    assert_eq!(histories[1].score_sign, -1);
    assert_eq!(histories[3].score_sign, -1);
}

#[test]
fn extract_pattarn_instance_histories_carries_the_replayed_features() {
    // E6 is column 4, row 5: cell 44 of the opening position.
    let moves = vec![('B', 'E', '6')];
    let histories = extract_pattarn_instance_histories(&moves);
    assert_eq!(histories.len(), 1);

    let mut board = Board::create(0x0000_0008_1000_0000, 0x0000_0010_0800_0000);
    board.put_and_reverse(&Player::First, 1 << 44);
    let expected = extract_pattern_instance_indices(&board, &Player::First);
    assert_eq!(histories[0].pattern_instance_indices_0, expected);
}
