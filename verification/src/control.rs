//! What the keys mean: the commands of a game in play and the choices of
//! the menu.

use crate::chance::draw;
use crate::game::Game;
use crate::laws::{
    lemma_dropped_wf, lemma_lowered_settled, lemma_merged_wf, lemma_rotated_settled,
    lemma_slid_settled, lemma_spawned_settled,
};
use crate::model::GameView;
use crate::text::{decimal, push_decimal};
use vstd::prelude::*;

verus! {

/// What a player can ask of a game in play.
#[derive(Clone, Copy, Debug, PartialEq, Eq, Structural)]
pub enum Command {
    SlideLeft,
    SlideRight,
    SoftDrop,
    HardDrop,
    RotateClockwise,
    RotateAnticlockwise,
    Quit,
}

/// What the caller is to do after a command.
#[derive(Clone, Copy, Debug, PartialEq, Eq, Structural)]
pub enum Reply {
    /// Nothing is to be drawn.
    Nothing,
    /// The game is to be drawn again.
    Redraw,
    /// The game is to be left.
    Quit,
}

/// What the player chose in the menu.
#[derive(Clone, Copy, Debug, PartialEq, Eq, Structural)]
pub enum MenuChoice {
    Quit,
    NewGame,
    Unknown,
}

/// The command that a key stands for during play, if any.
pub open spec fn key_command(key: char) -> Option<Command> {
    if key == 'a' {
        Some(Command::SlideLeft)
    } else if key == 'd' {
        Some(Command::SlideRight)
    } else if key == 's' {
        Some(Command::SoftDrop)
    } else if key == 'w' {
        Some(Command::RotateClockwise)
    } else if key == 'W' {
        Some(Command::RotateAnticlockwise)
    } else if key == ' ' {
        Some(Command::HardDrop)
    } else if key == 'q' {
        Some(Command::Quit)
    } else {
        None
    }
}

/// The choice that a key stands for in the menu.
pub open spec fn key_choice(key: char) -> MenuChoice {
    if key == 'q' {
        MenuChoice::Quit
    } else if key == 'n' {
        MenuChoice::NewGame
    } else {
        MenuChoice::Unknown
    }
}

impl GameView {
    /// The game after `command`, given when the clock reads `now`, where
    /// `draw` decides the piece that follows a locked one. A soft drop that
    /// cannot move the piece locks it; a hard drop always does.
    pub open spec fn after(self, command: Command, now: int, draw: int) -> GameView {
        match command {
            Command::SlideLeft => self.slid(-1),
            Command::SlideRight => self.slid(1),
            Command::SoftDrop => if self.can_fall() {
                self.lowered(now)
            } else {
                self.merged().spawned(draw, now)
            },
            Command::HardDrop => self.dropped(now).merged().spawned(draw, now),
            Command::RotateClockwise => self.rotated_clockwise(),
            Command::RotateAnticlockwise => self.rotated_anticlockwise(),
            Command::Quit => self,
        }
    }

    /// What the caller is to do after `command`: draw the game again after
    /// a hard drop and after any other command that moved or turned the
    /// piece, and leave after a quit.
    pub open spec fn reply_to(self, command: Command) -> Reply {
        let moved = match command {
            Command::SlideLeft => self.can_slide(-1),
            Command::SlideRight => self.can_slide(1),
            Command::SoftDrop => self.can_fall(),
            Command::HardDrop => true,
            Command::RotateClockwise => self.can_rotate_clockwise(),
            Command::RotateAnticlockwise => self.can_rotate_anticlockwise(),
            Command::Quit => false,
        };
        if command == Command::Quit {
            Reply::Quit
        } else if moved {
            Reply::Redraw
        } else {
            Reply::Nothing
        }
    }
}

/// The command that a key stands for during play, if any.
pub fn command_for(key: char) -> (command: Option<Command>)
    ensures
        command == key_command(key),
{
    match key {
        'a' => Some(Command::SlideLeft),
        'd' => Some(Command::SlideRight),
        's' => Some(Command::SoftDrop),
        'w' => Some(Command::RotateClockwise),
        'W' => Some(Command::RotateAnticlockwise),
        ' ' => Some(Command::HardDrop),
        'q' => Some(Command::Quit),
        _ => None,
    }
}

/// The choice that a key stands for in the menu.
pub fn menu_choice(key: char) -> (choice: MenuChoice)
    ensures
        choice == key_choice(key),
{
    match key {
        'q' => MenuChoice::Quit,
        'n' => MenuChoice::NewGame,
        _ => MenuChoice::Unknown,
    }
}

/// What the menu says of a key that it does not know: the key's number in
/// a line of its own.
pub fn unknown_command_message(key: char) -> (message: String)
    ensures
        message@ == "Unknown command "@ + decimal(key as nat) + "\r\n"@,
{
    let mut message: String = "Unknown command ".to_owned();
    let code: u32 = key as u32;
    push_decimal(&mut message, code as usize);
    message.append("\r\n");
    message
}

fn reply_if(moved: bool) -> (reply: Reply)
    ensures
        reply == if moved {
            Reply::Redraw
        } else {
            Reply::Nothing
        },
{
    if moved {
        Reply::Redraw
    } else {
        Reply::Nothing
    }
}

/// Carries out `command` on `game` when the clock reads `now`; `draw`
/// decides the piece that follows a locked one.
pub fn apply_at(game: &mut Game, command: Command, now: u128, draw: usize) -> (reply: Reply)
    requires
        old(game).wf(),
        old(game)@.score + 16 <= isize::MAX,
    ensures
        final(game).wf(),
        final(game)@ == old(game)@.after(command, now as int, draw as int),
        reply == old(game)@.reply_to(command),
        old(game)@.settled() ==> final(game)@.settled(),
{
    match command {
        Command::SlideLeft => reply_if(game.slide(-1)),
        Command::SlideRight => reply_if(game.slide(1)),
        Command::SoftDrop => {
            if game.down_at(now) {
                Reply::Redraw
            } else {
                game.merge();
                game.spawn(draw, now);
                Reply::Nothing
            }
        },
        Command::HardDrop => {
            game.drop_at(now);
            game.merge();
            game.spawn(draw, now);
            Reply::Redraw
        },
        Command::RotateClockwise => reply_if(game.rotate_clockwise()),
        Command::RotateAnticlockwise => reply_if(game.rotate_anticlockwise()),
        Command::Quit => Reply::Quit,
    }
}

/// Carries out `command` on `game` at what the clock reads; a piece that
/// follows a locked one is drawn at random.
pub fn apply(game: &mut Game, command: Command) -> (reply: Reply)
    requires
        old(game).wf(),
        old(game)@.score + 16 <= isize::MAX,
    ensures
        final(game).wf(),
        reply == old(game)@.reply_to(command),
        old(game)@.settled() ==> final(game)@.settled(),
        exists|now: int, draw: int|
            0 <= now && 0 <= draw && final(game)@ == old(game)@.after(command, now, draw),
{
    let now: u128 = game.now();
    let n: usize = draw();
    let reply = apply_at(game, command, now, n);
    assert(game@ == old(game)@.after(command, now as int, n as int));
    reply
}

/// Every command keeps a game settled: in play with the active piece where
/// it can be, or over.
pub proof fn lemma_after_settled(g: GameView, command: Command, now: int, draw: int)
    requires
        g.wf(),
        g.settled(),
        draw >= 0,
    ensures
        g.after(command, now, draw).settled(),
{
    match command {
        Command::SlideLeft => lemma_slid_settled(g, -1),
        Command::SlideRight => lemma_slid_settled(g, 1),
        Command::SoftDrop => {
            if g.can_fall() {
                lemma_lowered_settled(g, now);
            } else {
                lemma_merged_wf(g);
                lemma_spawned_settled(g.merged(), draw, now);
            }
        },
        Command::HardDrop => {
            lemma_dropped_wf(g, now);
            lemma_merged_wf(g.dropped(now));
            lemma_spawned_settled(g.dropped(now).merged(), draw, now);
        },
        Command::RotateClockwise => lemma_rotated_settled(g),
        Command::RotateAnticlockwise => lemma_rotated_settled(g),
        Command::Quit => {},
    }
}

} // verus!
