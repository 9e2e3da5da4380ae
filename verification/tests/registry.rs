use mujina_miner::registry::{command_target, connected_boards, find_board, RegisteredBoard};

fn board(name: &str, connected: bool, accepts_commands: bool) -> RegisteredBoard {
    RegisteredBoard {
        name: name.to_string(),
        connected,
        accepts_commands,
    }
}

#[test]
fn tracks_pushed_registrations() {
    let boards = vec![board("board-a", true, false), board("board-b", true, false)];
    let kept = connected_boards(&boards);
    assert_eq!(kept, vec![0, 1]);
    assert_eq!(boards[kept[0]].name, "board-a");
    assert_eq!(boards[kept[1]].name, "board-b");
}

#[test]
fn removes_disconnected_boards() {
    let both = vec![board("stays", true, false), board("goes-away", true, false)];
    assert_eq!(connected_boards(&both).len(), 2);

    let one_gone = vec![board("stays", true, false), board("goes-away", false, false)];
    let kept = connected_boards(&one_gone);
    assert_eq!(kept, vec![0]);
    assert_eq!(one_gone[kept[0]].name, "stays");
}

#[test]
fn returns_single_board_by_name() {
    let boards = vec![board("board-a", true, false)];
    assert_eq!(find_board(&boards, "board-a"), Some(0));
    assert_eq!(find_board(&boards, "missing"), None);
}

#[test]
fn returns_command_sender_for_named_board() {
    let mut boards = vec![board("board-a", true, true)];
    assert_eq!(command_target(&boards, "board-a"), Some(0));
    assert_eq!(command_target(&boards, "missing"), None);

    boards.push(board("no-commands", true, false));
    assert_eq!(command_target(&boards, "no-commands"), None);
}

#[test]
fn first_connected_board_of_a_name_wins() {
    let boards = vec![
        board("dup", false, true),
        board("dup", true, false),
        board("dup", true, true),
    ];
    assert_eq!(find_board(&boards, "dup"), Some(1));
    assert_eq!(command_target(&boards, "dup"), None);
}
