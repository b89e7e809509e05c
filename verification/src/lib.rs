//! Verified core of a networked chess application: the pieces and players of
//! a game, the text protocol that carries moves between the web front end and
//! the game server, the HTTP framing of the front end's answers, and the
//! decisions of the server's match-making and turn keeping.

pub mod text;

pub mod piece;
pub mod player;
pub mod moves;
pub mod http;
pub mod session;
pub mod cli;
