use webserver::handlers::d20_response;
use webserver::handlers::d20_response_for;
use webserver::handlers::not_found_response;
use webserver::handlers::ok_response;
use webserver::handlers::roll_text;
use webserver::handlers::save_reply;
use webserver::handlers::save_response;
use webserver::handlers::save_status_body;
use webserver::response::build_response;
use webserver::response::status_not_found;
use webserver::response::status_ok;
use webserver::response::status_ok_json;

#[test]
fn build_response_concatenates_status_and_body() {
    assert_eq!(build_response("HTTP/1.1 200 OK\r\n\r\n", "hello"), "HTTP/1.1 200 OK\r\n\r\nhello");
    assert_eq!(build_response("", ""), "");
}

#[test]
fn status_lines_are_exact() {
    assert_eq!(status_ok(), "HTTP/1.1 200 OK\r\n\r\n");
    assert_eq!(status_not_found(), "HTTP/1.1 404 NOT FOUND\r\n\r\n");
    assert_eq!(status_ok_json(), "HTTP/1.1 200 OK\nContent-Type: application/json\r\n\r\n");
}

#[test]
fn roll_text_is_the_decimal_of_the_roll() {
    assert_eq!(roll_text(1), "1");
    assert_eq!(roll_text(7), "7");
    assert_eq!(roll_text(10), "10");
    assert_eq!(roll_text(13), "13");
    assert_eq!(roll_text(20), "20");
}

#[test]
fn d20_response_for_is_status_plus_roll() {
    assert_eq!(d20_response_for(13), "HTTP/1.1 200 OK\r\n\r\n13");
    assert_eq!(d20_response_for(4), "HTTP/1.1 200 OK\r\n\r\n4");
}

#[test]
fn d20_response_always_carries_a_roll_in_range() {
    for _ in 0..200 {
        let r = d20_response();
        let body = r.strip_prefix("HTTP/1.1 200 OK\r\n\r\n").unwrap();
        let n: u32 = body.parse().unwrap();
        assert!((1..=20).contains(&n));
    }
}

#[test]
fn save_response_distinguishes_the_write_outcomes() {
    assert_eq!(save_status_body(true), "{\"status\": \"ok\"}\n");
    assert_eq!(save_status_body(false), "{\"status\": \"fail\"}\n");
    assert_eq!(
        save_response(true),
        "HTTP/1.1 200 OK\nContent-Type: application/json\r\n\r\n{\"status\": \"ok\"}\n"
    );
    assert_eq!(
        save_response(false),
        "HTTP/1.1 200 OK\nContent-Type: application/json\r\n\r\n{\"status\": \"fail\"}\n"
    );
}

#[test]
fn save_reply_reports_the_write_outcome_for_a_found_body() {
    let body = Some(b"A".to_vec());
    assert_eq!(
        save_reply(&body, true, ""),
        "HTTP/1.1 200 OK\nContent-Type: application/json\r\n\r\n{\"status\": \"ok\"}\n"
    );
    assert_eq!(
        save_reply(&body, false, ""),
        "HTTP/1.1 200 OK\nContent-Type: application/json\r\n\r\n{\"status\": \"fail\"}\n"
    );
}

#[test]
fn save_reply_answers_a_malformed_request_with_not_found() {
    assert_eq!(save_reply(&None, false, "gone"), "HTTP/1.1 404 NOT FOUND\r\n\r\ngone");
}

#[test]
fn page_responses_wrap_their_contents() {
    assert_eq!(ok_response("<html></html>"), "HTTP/1.1 200 OK\r\n\r\n<html></html>");
    assert_eq!(not_found_response("gone"), "HTTP/1.1 404 NOT FOUND\r\n\r\ngone");
}
