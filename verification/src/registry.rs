//! Decisions of the board registry: which registrations survive a prune
//! and which board a name designates.

use vstd::prelude::*;

use crate::text::str_eq;

verus! {

/// What the registry reads of one registration: the board's name as its
/// latest telemetry gives it, whether the board's side is still there, and
/// whether the board takes commands.
#[derive(Debug, Clone)]
pub struct RegisteredBoard {
    pub name: String,
    pub connected: bool,
    pub accepts_commands: bool,
}

/// Positions of the connected registrations among the first `k`, in order.
pub open spec fn connected_positions(boards: Seq<RegisteredBoard>, k: nat) -> Seq<usize>
    decreases k,
{
    if k == 0 {
        Seq::empty()
    } else {
        let prev = connected_positions(boards, (k - 1) as nat);
        if boards[k - 1].connected {
            prev.push((k - 1) as usize)
        } else {
            prev
        }
    }
}

/// Whether the registration at `i` is a connected board called `name`.
pub open spec fn designates(boards: Seq<RegisteredBoard>, i: int, name: Seq<char>) -> bool {
    boards[i].connected && boards[i].name@ == name
}

/// The registrations that a prune keeps: the connected ones, in the order
/// they were registered.
pub fn connected_boards(boards: &[RegisteredBoard]) -> (r: Vec<usize>)
    ensures
        r@ == connected_positions(boards@, boards@.len()),
{
    let mut kept: Vec<usize> = Vec::new();
    let mut i: usize = 0;
    while i < boards.len()
        invariant
            i <= boards@.len(),
            kept@ == connected_positions(boards@, i as nat),
        decreases boards@.len() - i,
    {
        if boards[i].connected {
            kept.push(i);
        }
        i = i + 1;
    }
    kept
}

/// The board a name designates: the first connected registration with that
/// name, or `None` when there is none.
pub fn find_board(boards: &[RegisteredBoard], name: &str) -> (r: Option<usize>)
    ensures
        match r {
            Some(i) => i < boards@.len() && designates(boards@, i as int, name@) && forall|j: int|
                0 <= j < i ==> !#[trigger] designates(boards@, j, name@),
            None => forall|j: int| 0 <= j < boards@.len() ==> !#[trigger] designates(boards@, j, name@),
        },
{
    let mut i: usize = 0;
    while i < boards.len()
        invariant
            i <= boards@.len(),
            forall|j: int| 0 <= j < i ==> !#[trigger] designates(boards@, j, name@),
        decreases boards@.len() - i,
    {
        if boards[i].connected && str_eq(boards[i].name.as_str(), name) {
            return Some(i);
        }
        i = i + 1;
    }
    None
}

/// The board a command for `name` goes to: the designated board when it
/// takes commands; `None` when no connected board has that name or the
/// board takes none.
pub fn command_target(boards: &[RegisteredBoard], name: &str) -> (r: Option<usize>)
    ensures
        match r {
            Some(i) => i < boards@.len() && designates(boards@, i as int, name@)
                && boards@[i as int].accepts_commands && forall|j: int|
                0 <= j < i ==> !#[trigger] designates(boards@, j, name@),
            None => forall|i: int|
                0 <= i < boards@.len() && #[trigger] designates(boards@, i, name@) ==> !boards@[i].accepts_commands
                    || exists|j: int| 0 <= j < i && #[trigger] designates(boards@, j, name@),
        },
{
    match find_board(boards, name) {
        Some(i) => {
            if boards[i].accepts_commands {
                Some(i)
            } else {
                None
            }
        },
        None => None,
    }
}

} // verus!
