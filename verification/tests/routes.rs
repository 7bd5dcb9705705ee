use webserver::routes::match_route;
use webserver::routes::get_target;
use webserver::routes::request_path;
use webserver::routes::save_body;
use webserver::routes::slice_starts_with;
use webserver::routes::GetTarget;
use webserver::routes::Route;

#[test]
fn d20_request_routes_to_d20() {
    assert_eq!(match_route(b"GET /d20 HTTP/1.1\r\nHost: x\r\n\r\n"), Route::D20);
}

#[test]
fn d20_wins_over_the_general_get_prefix() {
    // the d20 line also starts with "GET /": the more specific prefix
    // is checked first
    let buf = b"GET /d20 HTTP/1.1\r\n";
    assert!(slice_starts_with(buf, b"GET /"));
    assert_eq!(match_route(buf), Route::D20);
}

#[test]
fn any_get_routes_to_file_fetch() {
    assert_eq!(match_route(b"GET / HTTP/1.1\r\n"), Route::FileFetch);
    assert_eq!(match_route(b"GET /hello.html HTTP/1.1\r\n"), Route::FileFetch);
    // a d20 line with another protocol version is just a file fetch
    assert_eq!(match_route(b"GET /d20 HTTP/1.0\r\n"), Route::FileFetch);
}

#[test]
fn save_routes_to_save() {
    assert_eq!(match_route(b"POST /save HTTP/1.1\r\nContent-Length: 1\r\n\r\nA"), Route::Save);
}

#[test]
fn anything_else_routes_to_not_found() {
    assert_eq!(match_route(b"PUT /x HTTP/1.1\r\n"), Route::NotFound);
    assert_eq!(match_route(b"POST /other HTTP/1.1\r\n"), Route::NotFound);
    assert_eq!(match_route(b""), Route::NotFound);
}

#[test]
fn slice_starts_with_is_exact() {
    assert!(slice_starts_with(b"abc", b"ab"));
    assert!(slice_starts_with(b"abc", b"abc"));
    assert!(!slice_starts_with(b"abc", b"abcd"));
    assert!(!slice_starts_with(b"abc", b"ac"));
    assert!(slice_starts_with(b"abc", b""));
}

#[test]
fn request_path_is_the_second_token() {
    assert_eq!(request_path(b"GET /abc HTTP/1.1\r\n").unwrap(), b"/abc".to_vec());
    assert_eq!(request_path(b"GET / HTTP/1.1\r\n").unwrap(), b"/".to_vec());
}

#[test]
fn request_path_runs_to_the_end_without_a_second_space() {
    assert_eq!(request_path(b"GET /abc").unwrap(), b"/abc".to_vec());
}

#[test]
fn request_path_is_none_without_any_space() {
    assert!(request_path(b"XYZ").is_none());
    assert!(request_path(b"").is_none());
}

#[test]
fn get_target_splits_index_from_named_file() {
    assert!(matches!(get_target(b"/"), GetTarget::Index));
    match get_target(b"/hello.html") {
        GetTarget::NamedFile(name) => assert_eq!(name, b"hello.html".to_vec()),
        _ => panic!("a longer path names a file"),
    }
}

#[test]
fn save_body_is_exactly_what_follows_the_marker() {
    // the submitted body and nothing of the blank line is stored
    let body = save_body(b"POST /save HTTP/1.1\r\nH: x\r\n\r\nA").unwrap();
    assert_eq!(body, b"A".to_vec());
}

#[test]
fn save_body_uses_the_first_marker() {
    let body = save_body(b"a\r\n\r\nb\r\n\r\nc").unwrap();
    assert_eq!(body, b"b\r\n\r\nc".to_vec());
}

#[test]
fn save_body_may_be_empty() {
    let body = save_body(b"POST /save HTTP/1.1\r\n\r\n").unwrap();
    assert_eq!(body, b"".to_vec());
}

#[test]
fn save_body_is_none_without_a_marker() {
    assert!(save_body(b"POST /save HTTP/1.1\r\n").is_none());
    assert!(save_body(b"").is_none());
    assert!(save_body(b"\r\n\r").is_none());
}
