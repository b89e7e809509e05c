use vstd::prelude::*;

use crate::text::{
    chars_of, decimal, digit_char, digit_value, format_isize, is_white, isize_of, lemma_decimal_not_white,
    lemma_decimal_parses, lemma_words_white, lemma_words_word, parse_isize, push_char,
    split_whitespace, words,
};

verus! {

/// A move from one square to another, each square given by row and column.
#[derive(Clone, Copy, Debug, PartialEq, Eq, Structural)]
pub struct Move {
    pub source_row: isize,
    pub source_col: isize,
    pub destination_row: isize,
    pub destination_col: isize,
}

// ---------------------------------------------------------------------------
// The move in a request of the web front end
// ---------------------------------------------------------------------------

/// A row or column digit of a request: `1` to `7`.
pub open spec fn is_square_digit(c: char) -> bool {
    49 <= (c as u32) <= 55
}

/// The text that introduces the source square.
pub open spec fn source_key() -> Seq<char> {
    seq!['s', 'o', 'u', 'r', 'c', 'e', '=']
}

/// The text that introduces the destination square.
pub open spec fn destination_key() -> Seq<char> {
    seq!['&', 'd', 'e', 's', 't', 'i', 'n', 'a', 't', 'i', 'o', 'n', '=']
}

/// `s` holds `source=R-C&destination=R-C` at position `p`, each `R` and `C` a digit `1` to `7`.
pub open spec fn move_text_at(s: Seq<char>, p: int) -> bool {
    &&& 0 <= p
    &&& p + 26 <= s.len()
    &&& s.subrange(p, p + 7) == source_key()
    &&& is_square_digit(s[p + 7])
    &&& s[p + 8] == '-'
    &&& is_square_digit(s[p + 9])
    &&& s.subrange(p + 10, p + 23) == destination_key()
    &&& is_square_digit(s[p + 23])
    &&& s[p + 24] == '-'
    &&& is_square_digit(s[p + 25])
}

/// No line feed comes before position `p`: the request's first line reaches `p`.
pub open spec fn on_first_line(s: Seq<char>, p: int) -> bool {
    forall|i: int| 0 <= i < p ==> s[i] != '\n'
}

/// A move text that the request pattern `^.*source=..&destination=..` can match at `p`
/// (`.` matches any character but a line feed).
pub open spec fn request_match(s: Seq<char>, p: int) -> bool {
    move_text_at(s, p) && on_first_line(s, p)
}

/// The move written at position `p`.
pub open spec fn move_written_at(s: Seq<char>, p: int) -> Move {
    Move {
        source_row: digit_value(s[p + 7]) as isize,
        source_col: digit_value(s[p + 9]) as isize,
        destination_row: digit_value(s[p + 23]) as isize,
        destination_col: digit_value(s[p + 25]) as isize,
    }
}

/// `p` is the match that the greedy `.*` selects: the last one on the first line.
pub open spec fn selected_match(s: Seq<char>, p: int) -> bool {
    request_match(s, p) && forall|q: int| #[trigger] request_match(s, q) ==> q <= p
}

/// The move that the request text `s` asks for: the one written at the selected
/// match, or `None` when the pattern does not match.
pub open spec fn requested_move(s: Seq<char>) -> Option<Move> {
    if exists|p: int| request_match(s, p) {
        Some(move_written_at(s, choose|p: int| selected_match(s, p)))
    } else {
        None
    }
}

/// There is at most one selected match.
pub proof fn lemma_selected_match_unique(s: Seq<char>, p: int, q: int)
    requires
        selected_match(s, p),
        selected_match(s, q),
    ensures
        p == q,
{
}

/// The text `source=R1-C1&destination=R2-C2` for the squares `(a, b)` and `(c, d)`.
pub open spec fn move_request_text(a: int, b: int, c: int, d: int) -> Seq<char> {
    "source="@ + seq![digit_char(a), '-', digit_char(b)] + "&destination="@ + seq![
        digit_char(c),
        '-',
        digit_char(d),
    ]
}

/// Whatever row and column digits from 1 to 7 a request writes in
/// `source=R1-C1&destination=R2-C2` on its first line, with no later match, the
/// move it asks for has exactly those squares.
pub proof fn lemma_request_reads_written_move(
    w: Seq<char>,
    a: int,
    b: int,
    c: int,
    d: int,
    t: Seq<char>,
)
    requires
        1 <= a <= 7,
        1 <= b <= 7,
        1 <= c <= 7,
        1 <= d <= 7,
        forall|i: int| 0 <= i < w.len() ==> w[i] != '\n',
        forall|q: int|
            q > w.len() ==> !request_match(w + move_request_text(a, b, c, d) + t, q),
    ensures
        requested_move(w + move_request_text(a, b, c, d) + t) == Some(
            Move {
                source_row: a as isize,
                source_col: b as isize,
                destination_row: c as isize,
                destination_col: d as isize,
            },
        ),
{
    reveal_strlit("source=");
    reveal_strlit("&destination=");
    let x = move_request_text(a, b, c, d);
    let s = w + x + t;
    let p = w.len() as int;
    assert(x.len() == 26);
    assert(s.subrange(p, p + 7) =~= source_key());
    assert(s.subrange(p + 10, p + 23) =~= destination_key());
    assert(s[p + 7] == digit_char(a));
    assert(s[p + 8] == '-');
    assert(s[p + 9] == digit_char(b));
    assert(s[p + 23] == digit_char(c));
    assert(s[p + 24] == '-');
    assert(s[p + 25] == digit_char(d));
    assert(digit_char(a) as u32 == a + 48);
    assert(digit_char(b) as u32 == b + 48);
    assert(digit_char(c) as u32 == c + 48);
    assert(digit_char(d) as u32 == d + 48);
    assert forall|i: int| 0 <= i < p implies s[i] != '\n' by {
        assert(s[i] == w[i]);
    }
    assert(move_text_at(s, p));
    assert(request_match(s, p));
    assert(selected_match(s, p));
    let q = choose|q: int| selected_match(s, q);
    lemma_selected_match_unique(s, p, q);
}

/// Whether `pat` stands in `s` at position `i`.
pub fn matches_at(s: &Vec<char>, pat: &Vec<char>, i: usize) -> (b: bool)
    ensures
        b == (i + pat@.len() <= s@.len() && s@.subrange(i as int, i + pat@.len()) == pat@),
{
    if i > s.len() || pat.len() > s.len() - i {
        return false;
    }
    let mut k: usize = 0;
    while k < pat.len()
        invariant
            k <= pat@.len(),
            i + pat@.len() <= s@.len(),
            i <= s@.len(),
            s@.len() == s.len(),
            forall|j: int| 0 <= j < k ==> s@[i + j] == pat@[j],
        decreases pat@.len() - k,
    {
        if s[i + k] != pat[k] {
            assert(s@.subrange(i as int, i + pat@.len())[k as int] != pat@[k as int]);
            return false;
        }
        k = k + 1;
    }
    assert(s@.subrange(i as int, i + pat@.len()) =~= pat@);
    true
}

fn square_digit(c: char) -> (b: bool)
    ensures
        b == is_square_digit(c),
{
    let u = c as u32;
    49 <= u && u <= 55
}

fn digit_of(c: char) -> (v: isize)
    requires
        is_square_digit(c),
    ensures
        v == digit_value(c),
{
    let u = c as u32;
    (u - 48) as isize
}

fn move_text_here(s: &Vec<char>, source: &Vec<char>, destination: &Vec<char>, p: usize) -> (b:
    bool)
    requires
        source@ == source_key(),
        destination@ == destination_key(),
    ensures
        b == move_text_at(s@, p as int),
{
    if p > s.len() || s.len() - p < 26 {
        return false;
    }
    matches_at(s, source, p) && square_digit(s[p + 7]) && s[p + 8] == '-' && square_digit(
        s[p + 9],
    ) && matches_at(s, destination, p + 10) && square_digit(s[p + 23]) && s[p + 24] == '-'
        && square_digit(s[p + 25])
}

/// The move that a request of the web front end asks for: the squares that the
/// pattern `^.*source=([1-7])-([1-7])&destination=([1-7])-([1-7])` captures.
/// `None` when the pattern does not match.
pub fn parse_move_request(request: &str) -> (r: Option<Move>)
    ensures
        r is None <==> !exists|p: int| request_match(request@, p),
        r matches Some(m) ==> exists|p: int| selected_match(request@, p) && m == move_written_at(request@, p),
        r == requested_move(request@),
{
    let s = chars_of(request);
    let source: Vec<char> = vec!['s', 'o', 'u', 'r', 'c', 'e', '='];
    let destination: Vec<char> = vec!['&', 'd', 'e', 's', 't', 'i', 'n', 'a', 't', 'i', 'o', 'n', '='];
    assert(source@ =~= source_key());
    assert(destination@ =~= destination_key());
    let n = s.len();
    let mut found: Option<Move> = None;
    let ghost mut last: int = 0;
    let mut p: usize = 0;
    let mut line_end = false;
    while p < n && !line_end
        invariant
            p <= n,
            n == s@.len(),
            s@ == request@,
            source@ == source_key(),
            destination@ == destination_key(),
            on_first_line(s@, p as int),
            line_end ==> p < n && s@[p as int] == '\n',
            found is None ==> forall|q: int| 0 <= q < p ==> !request_match(s@, q),
            found matches Some(m) ==> {
                &&& 0 <= last < p
                &&& request_match(s@, last)
                &&& m == move_written_at(s@, last)
                &&& forall|q: int| last < q < p ==> !request_match(s@, q)
            },
        decreases n - p + (if line_end { 0int } else { 1int }),
    {
        if move_text_here(&s, &source, &destination, p) {
            found = Some(
                Move {
                    source_row: digit_of(s[p + 7]),
                    source_col: digit_of(s[p + 9]),
                    destination_row: digit_of(s[p + 23]),
                    destination_col: digit_of(s[p + 25]),
                },
            );
            proof {
                last = p as int;
            }
        }
        if s[p] == '\n' {
            line_end = true;
        } else {
            p = p + 1;
        }
    }
    proof {
        assert forall|q: int| p < q implies !request_match(s@, q) by {
            if q < n && line_end {
                assert(s@[p as int] == '\n');
            }
        }
        if found is Some {
            assert(selected_match(s@, last));
            let c = choose|c: int| selected_match(s@, c);
            lemma_selected_match_unique(s@, last, c);
        }
    }
    found
}

// ---------------------------------------------------------------------------
// The move line that the front end sends to the game server
// ---------------------------------------------------------------------------

/// The line `"R C R C\n"` that carries a move: the four numbers in decimal,
/// separated by single spaces.
pub open spec fn move_line(m: Move) -> Seq<char> {
    decimal(m.source_row as int) + seq![' '] + decimal(m.source_col as int) + seq![' ']
        + decimal(m.destination_row as int) + seq![' '] + decimal(m.destination_col as int)
        + seq!['\n']
}

/// The move that a line denotes as the game server reads it: the first four
/// white-space separated words, each read as a signed number. `None` when there
/// are fewer than four words or one of the four is not a number that fits.
pub open spec fn move_of_line(line: Seq<char>) -> Option<Move> {
    let w = words(line);
    if w.len() >= 4 && isize_of(w[0]) is Some && isize_of(w[1]) is Some && isize_of(w[2]) is Some
        && isize_of(w[3]) is Some {
        Some(
            Move {
                source_row: isize_of(w[0])->0,
                source_col: isize_of(w[1])->0,
                destination_row: isize_of(w[2])->0,
                destination_col: isize_of(w[3])->0,
            },
        )
    } else {
        None
    }
}

fn append_text(s: &mut String, t: &String)
    ensures
        final(s)@ == old(s)@ + t@,
{
    s.append(t.as_str());
}

/// The line that carries a move to the game server.
pub fn move_message(m: &Move) -> (line: String)
    ensures
        line@ == move_line(*m),
{
    let mut s = format_isize(m.source_row);
    push_char(&mut s, ' ');
    append_text(&mut s, &format_isize(m.source_col));
    push_char(&mut s, ' ');
    append_text(&mut s, &format_isize(m.destination_row));
    push_char(&mut s, ' ');
    append_text(&mut s, &format_isize(m.destination_col));
    push_char(&mut s, '\n');
    s
}

/// The move that a line received by the game server denotes.
pub fn parse_move_line(line: &str) -> (r: Option<Move>)
    ensures
        r == move_of_line(line@),
{
    let cs = chars_of(line);
    let ws = split_whitespace(&cs);
    assert(crate::text::views(ws@) == words(line@));
    if ws.len() < 4 {
        return None;
    }
    assert(ws@[0]@ == words(line@)[0]);
    assert(ws@[1]@ == words(line@)[1]);
    assert(ws@[2]@ == words(line@)[2]);
    assert(ws@[3]@ == words(line@)[3]);
    let a = parse_isize(&ws[0]);
    let b = parse_isize(&ws[1]);
    let c = parse_isize(&ws[2]);
    let d = parse_isize(&ws[3]);
    match (a, b, c, d) {
        (Some(a), Some(b), Some(c), Some(d)) => Some(
            Move { source_row: a, source_col: b, destination_row: c, destination_col: d },
        ),
        _ => None,
    }
}

proof fn lemma_words_lead(w: Seq<char>, c: char, rest: Seq<char>)
    requires
        w.len() >= 1,
        forall|i: int| 0 <= i < w.len() ==> !is_white(#[trigger] w[i]),
        is_white(c),
    ensures
        words(w + seq![c] + rest) == seq![w] + words(rest),
{
    let s = w + seq![c] + rest;
    assert forall|k: int| 0 <= k < w.len() implies !is_white(#[trigger] s[k]) by {
        assert(s[k] == w[k]);
    }
    lemma_words_word(s, 0, w.len() as int);
    assert(s.skip(0) =~= s);
    assert(s.subrange(0, w.len() as int) =~= w);
    lemma_words_white(s, w.len() as int);
    assert(s.skip(w.len() as int + 1) =~= rest);
}

/// What the front end sends for a move, the game server reads back as that move.
pub proof fn lemma_move_line_round_trip(m: Move)
    ensures
        move_of_line(move_line(m)) == Some(m),
{
    let d1 = decimal(m.source_row as int);
    let d2 = decimal(m.source_col as int);
    let d3 = decimal(m.destination_row as int);
    let d4 = decimal(m.destination_col as int);
    lemma_decimal_parses(m.source_row);
    lemma_decimal_parses(m.source_col);
    lemma_decimal_parses(m.destination_row);
    lemma_decimal_parses(m.destination_col);
    lemma_decimal_not_white(m.source_row as int);
    lemma_decimal_not_white(m.source_col as int);
    lemma_decimal_not_white(m.destination_row as int);
    lemma_decimal_not_white(m.destination_col as int);
    let r4 = Seq::<char>::empty();
    let r3 = d4 + seq!['\n'] + r4;
    let r2 = d3 + seq![' '] + r3;
    let r1 = d2 + seq![' '] + r2;
    assert(move_line(m) =~= d1 + seq![' '] + r1);
    assert(is_white(' '));
    assert(is_white('\n'));
    lemma_words_lead(d1, ' ', r1);
    lemma_words_lead(d2, ' ', r2);
    lemma_words_lead(d3, ' ', r3);
    lemma_words_lead(d4, '\n', r4);
    assert(words(r4) == Seq::<Seq<char>>::empty());
    let w = words(move_line(m));
    assert(w =~= seq![d1, d2, d3, d4]);
}

} // verus!
