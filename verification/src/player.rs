use vstd::prelude::*;

use crate::piece::{Color, Piece};

verus! {

/// A participant of a game: a name, the side played, and the opponent's
/// pieces captured so far, in the order they were captured.
pub struct Player {
    name: String,
    color: Color,
    acquired_pieces: Vec<Piece>,
}

/// What a player is, as plain values.
pub struct PlayerView {
    pub name: Seq<char>,
    pub color: Color,
    pub acquired: Seq<Piece>,
}

impl View for Player {
    type V = PlayerView;

    closed spec fn view(&self) -> PlayerView {
        PlayerView { name: self.name@, color: self.color, acquired: self.acquired_pieces@ }
    }
}

impl Player {
    /// A player who has captured nothing yet.
    pub fn new(name: String, color: Color) -> (p: Self)
        ensures
            p@.name == name@,
            p@.color == color,
            p@.acquired == Seq::<Piece>::empty(),
    {
        Player { name, color, acquired_pieces: Vec::new() }
    }

    /// The player's name.
    pub fn get_name(&self) -> (n: &String)
        ensures
            n@ == self@.name,
    {
        &self.name
    }

    /// The side the player plays.
    pub fn get_color(&self) -> (c: &Color)
        ensures
            *c == self@.color,
    {
        &self.color
    }

    /// The pieces captured so far, oldest first.
    pub fn get_acquired_pieces(&self) -> (v: &Vec<Piece>)
        ensures
            v@ == self@.acquired,
    {
        &self.acquired_pieces
    }

    /// Records one more captured piece after those already held.
    pub fn add_acquired_piece(&mut self, piece: Piece)
        ensures
            final(self)@.acquired == old(self)@.acquired.push(piece),
            final(self)@.name == old(self)@.name,
            final(self)@.color == old(self)@.color,
    {
        self.acquired_pieces.push(piece);
    }
}

} // verus!
