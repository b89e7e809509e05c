use vstd::prelude::*;

use crate::piece::{opponent, Color};

verus! {

// ---------------------------------------------------------------------------
// Match-making
// ---------------------------------------------------------------------------

/// What one arrival does to the lobby: with nobody waiting, the newcomer waits;
/// with someone waiting, the newcomer and the one who waited leave as a pair,
/// newcomer first.
pub open spec fn lobby_step<T>(waiting: Option<T>, newcomer: T) -> (Option<T>, Option<(T, T)>) {
    match waiting {
        None => (Some(newcomer), None),
        Some(w) => (None, Some((newcomer, w))),
    }
}

/// The players who asked for a game and wait for an opponent: at most one.
pub struct Lobby<T> {
    waiting: Option<T>,
}

impl<T> View for Lobby<T> {
    type V = Option<T>;

    closed spec fn view(&self) -> Option<T> {
        self.waiting
    }
}

impl<T> Lobby<T> {
    /// A lobby where nobody waits.
    pub fn new() -> (l: Self)
        ensures
            l@ is None,
    {
        Lobby { waiting: None }
    }

    /// Takes in a player who asks for a game; gives back the pair to start a game
    /// with (newcomer first) when someone was waiting.
    pub fn arrive(&mut self, newcomer: T) -> (pair: Option<(T, T)>)
        ensures
            (final(self)@, pair) == lobby_step(old(self)@, newcomer),
    {
        match self.waiting.take() {
            None => {
                self.waiting = Some(newcomer);
                None
            },
            Some(w) => Some((newcomer, w)),
        }
    }
}

/// The lobby and the pairs formed after the arrivals `s`, starting from an empty lobby.
pub open spec fn run_lobby<T>(s: Seq<T>) -> (Option<T>, Seq<(T, T)>)
    decreases s.len(),
{
    if s.len() == 0 {
        (None, Seq::empty())
    } else {
        let (w, pairs) = run_lobby(s.drop_last());
        let (w2, formed) = lobby_step(w, s.last());
        (
            w2,
            match formed {
                Some(p) => pairs.push(p),
                None => pairs,
            },
        )
    }
}

/// Arrivals are paired in the order they come: the second with the first, the
/// fourth with the third, and so on; after an odd number of arrivals the last
/// one waits, after an even number nobody does.
pub proof fn lemma_lobby_pairs_in_order<T>(s: Seq<T>)
    ensures
        run_lobby(s).1.len() == s.len() / 2,
        forall|i: int| 0 <= i < s.len() / 2 ==> #[trigger] run_lobby(s).1[i] == (s[2 * i + 1], s[2 * i]),
        run_lobby(s).0 == (if s.len() % 2 == 1 {
            Some(s.last())
        } else {
            None::<T>
        }),
    decreases s.len(),
{
    if s.len() > 0 {
        let p = s.drop_last();
        lemma_lobby_pairs_in_order(p);
        assert forall|i: int| 0 <= i < p.len() / 2 implies #[trigger] run_lobby(s).1[i] == (s[2 * i + 1], s[2 * i]) by {
            assert(p[2 * i + 1] == s[2 * i + 1]);
            assert(p[2 * i] == s[2 * i]);
        }
        if p.len() % 2 == 1 {
            assert(p.last() == s[s.len() - 2]);
        }
    }
}

// ---------------------------------------------------------------------------
// Turns of a game
// ---------------------------------------------------------------------------

/// The side whose move the game server waits for. White moves first.
pub struct Turn {
    mover: Color,
}

impl View for Turn {
    type V = Color;

    closed spec fn view(&self) -> Color {
        self.mover
    }
}

/// The side to move after a move of `mover` that the game accepted or refused.
pub open spec fn next_mover(mover: Color, accepted: bool) -> Color {
    if accepted {
        opponent(mover)
    } else {
        mover
    }
}

impl Turn {
    /// The turn at the start of a game: white to move.
    pub fn new() -> (t: Self)
        ensures
            t@ == Color::White,
    {
        Turn { mover: Color::White }
    }

    /// The side to move.
    pub fn mover(&self) -> (c: Color)
        ensures
            c == self@,
    {
        self.mover
    }

    /// Records the outcome of the mover's attempt: an accepted move passes the
    /// turn to the other side, a refused one leaves it where it is.
    pub fn record(&mut self, accepted: bool)
        ensures
            final(self)@ == next_mover(old(self)@, accepted),
    {
        if accepted {
            self.mover = self.mover.other();
        }
    }
}

/// The side to move after the outcomes `outcomes`, starting with `first` to move.
pub open spec fn mover_after(first: Color, outcomes: Seq<bool>) -> Color
    decreases outcomes.len(),
{
    if outcomes.len() == 0 {
        first
    } else {
        next_mover(mover_after(first, outcomes.drop_last()), outcomes.last())
    }
}

/// The number of accepted moves among the outcomes.
pub open spec fn accepted_count(outcomes: Seq<bool>) -> nat
    decreases outcomes.len(),
{
    if outcomes.len() == 0 {
        0
    } else {
        accepted_count(outcomes.drop_last()) + if outcomes.last() {
            1nat
        } else {
            0nat
        }
    }
}

/// The sides alternate with every accepted move and only then: after an even
/// number of accepted moves the first side is to move, after an odd number the other.
pub proof fn lemma_turns_alternate(first: Color, outcomes: Seq<bool>)
    ensures
        mover_after(first, outcomes) == (if accepted_count(outcomes) % 2 == 0 {
            first
        } else {
            opponent(first)
        }),
    decreases outcomes.len(),
{
    if outcomes.len() > 0 {
        lemma_turns_alternate(first, outcomes.drop_last());
    }
}

/// The name under which the game server seats a side and announces it to its player.
pub open spec fn side_name(c: Color) -> Seq<char> {
    match c {
        Color::White => "White"@,
        Color::Black => "Black"@,
    }
}

/// The name of a side.
pub fn color_name(c: Color) -> (s: String)
    ensures
        s@ == side_name(c),
{
    match c {
        Color::White => String::from_str("White"),
        Color::Black => String::from_str("Black"),
    }
}

} // verus!
