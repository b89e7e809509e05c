use vstd::prelude::*;

use crate::moves::matches_at;
use crate::text::{all_digits, chars_of, decimal, format_usize, int_of, lemma_digits_parse};

verus! {

/// `pat` stands somewhere in `s`.
pub open spec fn contains(s: Seq<char>, pat: Seq<char>) -> bool {
    exists|i: int| 0 <= i && i + pat.len() <= s.len() && #[trigger] s.subrange(i, i + pat.len()) == pat
}

/// Whether `pat` stands somewhere in `s`.
pub fn contains_text(s: &Vec<char>, pat: &Vec<char>) -> (b: bool)
    ensures
        b == contains(s@, pat@),
{
    if pat.len() > s.len() {
        return false;
    }
    let last = s.len() - pat.len();
    let mut i: usize = 0;
    while i < last
        invariant
            last == s@.len() - pat@.len(),
            i <= last,
            forall|j: int|
                0 <= j < i ==> !(j + pat@.len() <= s@.len() && #[trigger] s@.subrange(
                    j,
                    j + pat@.len(),
                ) == pat@),
        decreases last - i,
    {
        if matches_at(s, pat, i) {
            return true;
        }
        i = i + 1;
    }
    matches_at(s, pat, last)
}

/// What the web front end is asked for.
#[derive(Clone, Copy, Debug, PartialEq, Eq, Structural)]
pub enum Route {
    /// The page of the front end.
    Index,
    /// A new game on the game server.
    StartNewGame,
    /// A move of the local player.
    MakeMove,
    /// The next move of the opponent.
    GetMove,
    /// Nothing that the front end answers.
    Unknown,
}

/// The route of a request: the first of the request markers that the request contains.
pub open spec fn route_of(request: Seq<char>) -> Route {
    if contains(request, "GET / HTTP/1.1"@) {
        Route::Index
    } else if contains(request, "GET /startNewGame HTTP/1.1"@) {
        Route::StartNewGame
    } else if contains(request, "GET /makeMove"@) {
        Route::MakeMove
    } else if contains(request, "GET /getMove"@) {
        Route::GetMove
    } else {
        Route::Unknown
    }
}

/// What a request to the web front end asks for.
pub fn classify_request(request: &str) -> (r: Route)
    ensures
        r == route_of(request@),
{
    let s = chars_of(request);
    if contains_text(&s, &chars_of("GET / HTTP/1.1")) {
        Route::Index
    } else if contains_text(&s, &chars_of("GET /startNewGame HTTP/1.1")) {
        Route::StartNewGame
    } else if contains_text(&s, &chars_of("GET /makeMove")) {
        Route::MakeMove
    } else if contains_text(&s, &chars_of("GET /getMove")) {
        Route::GetMove
    } else {
        Route::Unknown
    }
}

/// A `200 OK` answer that carries `body`, with its length in bytes as `Content-Length`.
pub open spec fn ok_text(body: &str) -> Seq<char> {
    "HTTP/1.1 200 OK\r\nContent-Length: "@ + decimal(body.len() as int)
        + "\r\n\r\n"@ + body@
}

/// A `200 OK` answer is the status line and the `Content-Length` header, whose
/// value is a run of decimal digits that reads back as the length of the body in
/// bytes, then the blank line that ends the header, then exactly the body.
pub proof fn lemma_ok_text_frames_body(body: &str)
    ensures
        exists|length: Seq<char>|
            {
                &&& ok_text(body) == "HTTP/1.1 200 OK\r\nContent-Length: "@ + length + "\r\n\r\n"@
                    + body@
                &&& all_digits(length)
                &&& int_of(length) == Some(body.len() as int)
            },
{
    let length = decimal(body.len() as int);
    lemma_digits_parse(body.len() as nat);
    assert(ok_text(body) == "HTTP/1.1 200 OK\r\nContent-Length: "@ + length + "\r\n\r\n"@
        + body@);
}

/// The `200 OK` answer that carries `body`.
pub fn ok_response(body: &str) -> (r: String)
    ensures
        r@ == ok_text(body),
{
    let mut r = String::from_str("HTTP/1.1 200 OK\r\nContent-Length: ");
    let len = format_usize(body.len());
    r.append(len.as_str());
    r.append("\r\n\r\n");
    r.append(body);
    r
}

/// The answer when no new game could be started.
pub fn not_found_response() -> (r: String)
    ensures
        r@ == "HTTP/1.1 404 Not Found\r\n\r\n\r\n"@,
{
    String::from_str("HTTP/1.1 404 Not Found\r\n\r\n\r\n")
}

/// The answer when a move could not be played or received.
pub fn invalid_move_response() -> (r: String)
    ensures
        r@ == "HTTP/1.1 404 Invalid Move\r\n\r\n"@,
{
    String::from_str("HTTP/1.1 404 Invalid Move\r\n\r\n")
}

} // verus!
