//! What the gravity loop and the input loop hand to the session, one event at
//! a time, and what each is to do once the session has taken it.

use crate::block::{BlockKind, Turn};
use crate::game::{
    hard_drop_with, soft_drop_or_land_with, try_move, try_rotate, Game, GameState,
};
use vstd::prelude::*;

verus! {

/// A key as the input loop reads it.
#[derive(Clone, Copy, Debug, PartialEq, Eq, Structural)]
pub enum Key {
    Left,
    Right,
    Up,
    Down,
    Char(char),
    Other,
}

/// What the player wants.
#[derive(Clone, Copy, Debug, PartialEq, Eq, Structural)]
pub enum Intent {
    MoveLeft,
    MoveRight,
    SoftDrop,
    HardDrop,
    RotateLeft,
    RotateRight,
    Quit,
}

/// What reaches the session: a tick of gravity or an intent of the player.
#[derive(Clone, Copy, Debug, PartialEq, Eq, Structural)]
pub enum Event {
    Tick,
    Input(Intent),
}

/// What the loop that handed in an event does next.
#[derive(Clone, Copy, Debug, PartialEq, Eq, Structural)]
pub enum Action {
    /// Draw the session and go on.
    Render,
    /// Report the end of the game and stop.
    GameOver,
    /// Stop at the player's wish.
    Quit,
}

/// The intent that a key stands for: the arrows left, right and down move the
/// piece, the arrow up drops it, `a` and `d` turn it left and right, `q`
/// quits. Other keys stand for nothing.
pub open spec fn intent_of(key: Key) -> Option<Intent> {
    match key {
        Key::Left => Some(Intent::MoveLeft),
        Key::Right => Some(Intent::MoveRight),
        Key::Down => Some(Intent::SoftDrop),
        Key::Up => Some(Intent::HardDrop),
        Key::Char(c) => if c == 'a' {
            Some(Intent::RotateLeft)
        } else if c == 'd' {
            Some(Intent::RotateRight)
        } else if c == 'q' {
            Some(Intent::Quit)
        } else {
            None
        },
        Key::Other => None,
    }
}

/// The intent that a key stands for, if any.
pub fn intent_of_key(key: Key) -> (intent: Option<Intent>)
    ensures
        intent == intent_of(key),
{
    match key {
        Key::Left => Some(Intent::MoveLeft),
        Key::Right => Some(Intent::MoveRight),
        Key::Down => Some(Intent::SoftDrop),
        Key::Up => Some(Intent::HardDrop),
        Key::Char(c) => if c == 'a' {
            Some(Intent::RotateLeft)
        } else if c == 'd' {
            Some(Intent::RotateRight)
        } else if c == 'q' {
            Some(Intent::Quit)
        } else {
            None
        },
        Key::Other => None,
    }
}

impl GameState {
    /// The session after an event. A tick is a step of gravity; the player's
    /// soft drop moves the piece down without landing it; a piece that lands
    /// is followed by one of `next`.
    pub open spec fn stepped(self, event: Event, next: BlockKind) -> GameState {
        match event {
            Event::Tick => self.soft_dropped(next),
            Event::Input(Intent::MoveLeft) => self.moved_by(-1, 0),
            Event::Input(Intent::MoveRight) => self.moved_by(1, 0),
            Event::Input(Intent::SoftDrop) => self.moved_by(0, 1),
            Event::Input(Intent::HardDrop) => self.hard_dropped(next),
            Event::Input(Intent::RotateLeft) => self.rotated(Turn::Left),
            Event::Input(Intent::RotateRight) => self.rotated(Turn::Right),
            Event::Input(Intent::Quit) => self,
        }
    }

    /// What follows an event: the player's quit ends the loop, a game that is
    /// over is reported, and every other event is followed by one drawing.
    pub open spec fn action(self, event: Event, next: BlockKind) -> Action {
        if event == Event::Input(Intent::Quit) {
            Action::Quit
        } else if self.stepped(event, next).over {
            Action::GameOver
        } else {
            Action::Render
        }
    }

    /// The session after a run of events, each with the kind that a landing
    /// piece would be followed by.
    pub open spec fn run(self, steps: Seq<(Event, BlockKind)>) -> GameState
        decreases steps.len(),
    {
        if steps.len() == 0 {
            self
        } else {
            self.run(steps.drop_last()).stepped(steps.last().0, steps.last().1)
        }
    }

    /// How many drawings a run of events asks for.
    pub open spec fn renders(self, steps: Seq<(Event, BlockKind)>) -> nat
        decreases steps.len(),
    {
        if steps.len() == 0 {
            0
        } else {
            let before = self.run(steps.drop_last());
            let drawn: nat = if before.action(steps.last().0, steps.last().1) == Action::Render {
                1
            } else {
                0
            };
            self.renders(steps.drop_last()) + drawn
        }
    }

    /// An event keeps a session well formed.
    pub proof fn lemma_stepped_wf(self, event: Event, next: BlockKind)
        requires
            self.wf(),
        ensures
            self.stepped(event, next).wf(),
    {
        match event {
            Event::Tick => self.lemma_soft_dropped_wf(next),
            Event::Input(Intent::MoveLeft) => {
                if 0 <= self.x - 1 {
                    self.lemma_moved_wf(self.x - 1, self.y);
                }
            },
            Event::Input(Intent::MoveRight) => self.lemma_moved_wf(self.x + 1, self.y),
            Event::Input(Intent::SoftDrop) => self.lemma_moved_wf(self.x, self.y + 1),
            Event::Input(Intent::HardDrop) => self.lemma_hard_dropped_wf(next),
            Event::Input(Intent::RotateLeft) => self.lemma_rotated_wf(Turn::Left),
            Event::Input(Intent::RotateRight) => self.lemma_rotated_wf(Turn::Right),
            Event::Input(Intent::Quit) => {},
        }
    }
}

/// Hands one event to the session and says what the loop is to do next.
pub fn apply(game: &mut Game, event: Event, next: BlockKind) -> (action: Action)
    requires
        old(game)@.wf(),
    ensures
        final(game)@ == old(game)@.stepped(event, next),
        action == old(game)@.action(event, next),
        final(game)@.wf(),
{
    proof {
        game@.lemma_stepped_wf(event, next);
    }
    match event {
        Event::Tick => {
            let _ = soft_drop_or_land_with(game, next);
        },
        Event::Input(Intent::MoveLeft) => try_move(game, -1, 0),
        Event::Input(Intent::MoveRight) => try_move(game, 1, 0),
        Event::Input(Intent::SoftDrop) => try_move(game, 0, 1),
        Event::Input(Intent::HardDrop) => {
            let _ = hard_drop_with(game, next);
        },
        Event::Input(Intent::RotateLeft) => try_rotate(game, Turn::Left),
        Event::Input(Intent::RotateRight) => try_rotate(game, Turn::Right),
        Event::Input(Intent::Quit) => {
            return Action::Quit;
        },
    }
    if game.over {
        Action::GameOver
    } else {
        Action::Render
    }
}

} // verus!
