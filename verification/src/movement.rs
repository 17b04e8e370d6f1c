//! Walking in the open world.
use vstd::prelude::*;

verus! {

/// The keys that move the character.
#[derive(Debug, Clone, Copy, PartialEq, Eq, Structural)]
pub enum MoveKey {
    W,
    R,
    A,
    S,
}

/// A movement direction.
#[derive(Debug, Clone, Copy, PartialEq, Eq, Structural)]
pub enum Direction {
    Up,
    Down,
    Left,
    Right,
}

/// How the character moves in one frame: whether it moves, where it faces,
/// and the sign of its horizontal and vertical displacement.
#[derive(Debug, Clone, Copy, PartialEq, Eq, Structural)]
pub struct Step {
    pub moving: bool,
    pub direction: Direction,
    pub dx: i32,
    pub dy: i32,
}

/// The step for the first pressed key: W up, R down, A left, S right; any
/// other key, or none, stops the character, facing down.
pub open spec fn step_for(key: Option<MoveKey>) -> Step {
    match key {
        Some(MoveKey::W) => Step { moving: true, direction: Direction::Up, dx: 0, dy: 1 },
        Some(MoveKey::R) => Step { moving: true, direction: Direction::Down, dx: 0, dy: -1i32 },
        Some(MoveKey::A) => Step { moving: true, direction: Direction::Left, dx: -1i32, dy: 0 },
        Some(MoveKey::S) => Step { moving: true, direction: Direction::Right, dx: 1, dy: 0 },
        None => Step { moving: false, direction: Direction::Down, dx: 0, dy: 0 },
    }
}

/// The character walks where it faces: one unit right (`dx` 1) when facing
/// right, left (`dx` -1) when facing left, up (`dy` 1) when facing up and down
/// (`dy` -1) when facing down while moving, and never both ways at once. It
/// moves exactly when a key is pressed, and a stopped character stands still
/// facing down. W faces up, R down, A left and S right.
pub proof fn lemma_step_follows_direction(key: Option<MoveKey>)
    ensures
        ({
            let s = step_for(key);
            &&& s.moving <==> key is Some
            &&& s.direction == Direction::Right ==> s.dx > 0 && s.dy == 0
            &&& s.direction == Direction::Left ==> s.dx < 0 && s.dy == 0
            &&& s.direction == Direction::Up ==> s.dy > 0 && s.dx == 0
            &&& s.direction == Direction::Down && s.moving ==> s.dy < 0 && s.dx == 0
            &&& !s.moving ==> s.dx == 0 && s.dy == 0 && s.direction == Direction::Down
            &&& key == Some(MoveKey::W) ==> s.direction == Direction::Up
            &&& key == Some(MoveKey::R) ==> s.direction == Direction::Down
            &&& key == Some(MoveKey::A) ==> s.direction == Direction::Left
            &&& key == Some(MoveKey::S) ==> s.direction == Direction::Right && s.dx == 1
        }),
{
}

/// The step the character takes for the first pressed key.
pub fn logic_input_movement(key: Option<MoveKey>) -> (r: Step)
    ensures
        r == step_for(key),
        r.moving <==> key is Some,
        r.direction == Direction::Right ==> r.dx == 1 && r.dy == 0,
        r.direction == Direction::Left ==> r.dx == -1 && r.dy == 0,
        r.direction == Direction::Up ==> r.dx == 0 && r.dy == 1,
        r.direction == Direction::Down && r.moving ==> r.dx == 0 && r.dy == -1,
        !r.moving ==> r.dx == 0 && r.dy == 0 && r.direction == Direction::Down,
{
    match key {
        Some(MoveKey::W) => Step { moving: true, direction: Direction::Up, dx: 0, dy: 1 },
        Some(MoveKey::R) => Step { moving: true, direction: Direction::Down, dx: 0, dy: -1 },
        Some(MoveKey::A) => Step { moving: true, direction: Direction::Left, dx: -1, dy: 0 },
        Some(MoveKey::S) => Step { moving: true, direction: Direction::Right, dx: 1, dy: 0 },
        None => Step { moving: false, direction: Direction::Down, dx: 0, dy: 0 },
    }
}

} // verus!
