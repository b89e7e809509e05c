use chess::cli::{role, select_arguments, select_bind_address, Role};
use chess::http::{classify_request, invalid_move_response, not_found_response, ok_response, Route};
use chess::piece::Color;
use chess::session::{color_name, Lobby, Turn};

#[test]
fn routes_of_requests() {
    assert_eq!(classify_request("GET / HTTP/1.1\r\nHost: x\r\n\r\n"), Route::Index);
    assert_eq!(classify_request("GET /startNewGame HTTP/1.1\r\n"), Route::StartNewGame);
    assert_eq!(classify_request("GET /makeMove?source=1-2&destination=3-4 HTTP/1.1\r\n"), Route::MakeMove);
    assert_eq!(classify_request("GET /getMove HTTP/1.1\r\n"), Route::GetMove);
    assert_eq!(classify_request("POST / HTTP/1.1\r\n"), Route::Unknown);
    assert_eq!(classify_request(""), Route::Unknown);
}

#[test]
fn index_route_comes_first() {
    assert_eq!(classify_request("GET /getMove x GET / HTTP/1.1"), Route::Index);
    assert_eq!(classify_request("GET /getMove GET /makeMove"), Route::MakeMove);
}

#[test]
fn ok_response_counts_bytes() {
    assert_eq!(ok_response("{\"color\":\"White\"}"), "HTTP/1.1 200 OK\r\nContent-Length: 17\r\n\r\n{\"color\":\"White\"}");
    assert_eq!(ok_response(""), "HTTP/1.1 200 OK\r\nContent-Length: 0\r\n\r\n");
    assert_eq!(ok_response("\u{2654}"), "HTTP/1.1 200 OK\r\nContent-Length: 3\r\n\r\n\u{2654}");
}

#[test]
fn error_responses() {
    assert_eq!(not_found_response(), "HTTP/1.1 404 Not Found\r\n\r\n\r\n");
    assert_eq!(invalid_move_response(), "HTTP/1.1 404 Invalid Move\r\n\r\n");
}

#[test]
fn lobby_pairs_arrivals_in_order() {
    let mut lobby: Lobby<&str> = Lobby::new();
    assert_eq!(lobby.arrive("a"), None);
    assert_eq!(lobby.arrive("b"), Some(("b", "a")));
    assert_eq!(lobby.arrive("c"), None);
    assert_eq!(lobby.arrive("d"), Some(("d", "c")));
    assert_eq!(lobby.arrive("e"), None);
}

#[test]
fn turns_alternate_on_accepted_moves() {
    let mut turn = Turn::new();
    assert_eq!(turn.mover(), Color::White);
    turn.record(false);
    assert_eq!(turn.mover(), Color::White);
    turn.record(true);
    assert_eq!(turn.mover(), Color::Black);
    turn.record(false);
    turn.record(true);
    assert_eq!(turn.mover(), Color::White);
}

#[test]
fn side_names() {
    assert_eq!(color_name(Color::White), "White");
    assert_eq!(color_name(Color::Black), "Black");
}

#[test]
fn command_line_roles() {
    assert_eq!(role("server"), Role::Server);
    assert_eq!(role("client"), Role::Client);
    assert_eq!(role("Server"), Role::Unknown);
    assert_eq!(role(""), Role::Unknown);
}

#[test]
fn command_line_arguments() {
    let args = vec![String::from("prog"), String::from("server"), String::from("127.0.0.1:7878")];
    assert_eq!(select_arguments(&args), Some((String::from("server"), String::from("127.0.0.1:7878"))));
    assert_eq!(select_arguments(&args[..2].to_vec()), None);
    assert_eq!(select_bind_address(&args[..2].to_vec()), Some(String::from("server")));
    assert_eq!(select_bind_address(&args), None);
}
