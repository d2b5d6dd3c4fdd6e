use reversi::player::Player;

#[test]
fn opponent() {
    let first = Player::First;
    assert_eq!(first.opponent().clone(), Player::Second);

    let second = Player::Second;
    assert_eq!(second.opponent(), Player::First);
}
