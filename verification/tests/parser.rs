use request_line::failure::FailKind;
use request_line::fields::Method;
use request_line::request::run_parser;
use request_line::token::{match_float, match_literal, take_until};

#[test]
fn get_request_line_parses() {
    let req = run_parser("GET /home/ HTTP/1.1\r\n").unwrap();
    assert_eq!(req.method, "GET");
    assert_eq!(req.url, "/home/");
    assert_eq!(req.protocol, "HTTP");
    assert_eq!(req.version, "1.1");
}

#[test]
fn post_request_line_parses() {
    let req = run_parser("POST /update/ HTTP/1.1\r\n").unwrap();
    assert_eq!(req.method, "POST");
    assert_eq!(req.url, "/update/");
    assert_eq!(req.protocol, "HTTP");
    assert_eq!(req.version, "1.1");
}

#[test]
fn version_lexeme_is_a_float_literal() {
    let req = run_parser("GET /home/ HTTP/1.1\r\n").unwrap();
    assert_eq!(req.version.parse::<f32>().unwrap(), 1.1f32);
}

#[test]
fn unknown_method_is_rejected() {
    let failure = run_parser("WRONG /wrong/ HTTP/1.1\r\n").unwrap_err();
    assert_eq!(failure.kind, FailKind::UnknownMethod);
    assert_eq!(failure.fragment, "WRONG /wrong/ HTTP/1.1\r\n");
}

#[test]
fn known_method_is_not_matched_as_prefix_of_longer_token() {
    let failure = run_parser("GETX /a/ HTTP/1.1\r\n").unwrap_err();
    assert_eq!(failure.kind, FailKind::MissingSeparator);
    assert_eq!(failure.fragment, "X /a/ HTTP/1.1\r\n");
}

#[test]
fn missing_space_before_target() {
    let failure = run_parser("GET/home/ HTTP/1.1\r\n").unwrap_err();
    assert_eq!(failure.kind, FailKind::MissingSeparator);
    assert_eq!(failure.fragment, "/home/ HTTP/1.1\r\n");
}

#[test]
fn target_without_trailing_space() {
    let failure = run_parser("GET /home/HTTP/1.1").unwrap_err();
    assert_eq!(failure.kind, FailKind::UnterminatedTarget);
    assert_eq!(failure.fragment, "/home/HTTP/1.1");
}

#[test]
fn protocol_without_slash() {
    let failure = run_parser("GET /home/ HTTP 1.1\r\n").unwrap_err();
    assert_eq!(failure.kind, FailKind::UnterminatedProtocol);
    assert_eq!(failure.fragment, "HTTP 1.1\r\n");
}

#[test]
fn non_numeric_version() {
    let failure = run_parser("GET /home/ HTTP/abc").unwrap_err();
    assert_eq!(failure.kind, FailKind::NotANumber);
    assert_eq!(failure.fragment, "abc");
}

#[test]
fn sign_alone_is_not_a_version() {
    let failure = run_parser("GET /h HTTP/+x").unwrap_err();
    assert_eq!(failure.kind, FailKind::NotANumber);
    assert_eq!(failure.fragment, "+x");
}

#[test]
fn parsing_twice_gives_identical_results() {
    for input in [
        "GET /home/ HTTP/1.1\r\n",
        "POST /update/ HTTP/1.1\r\n",
        "WRONG /wrong/ HTTP/1.1\r\n",
        "GET /home/HTTP/1.1",
        "",
    ] {
        assert_eq!(run_parser(input), run_parser(input));
    }
}

#[test]
fn empty_target_is_valid() {
    let req = run_parser("GET  HTTP/1.1").unwrap();
    assert_eq!(req.method, "GET");
    assert_eq!(req.url, "");
    assert_eq!(req.protocol, "HTTP");
    assert_eq!(req.version, "1.1");
}

#[test]
fn trailing_text_after_version_is_ignored() {
    let req = run_parser("POST /u/ HTTP/2.0 anything at all").unwrap();
    assert_eq!(req.version, "2.0");
}

#[test]
fn version_lexeme_is_maximal() {
    let req = run_parser("GET /h HTTP/1.1.1\r\n").unwrap();
    assert_eq!(req.version, "1.1");
    let req = run_parser("GET /h HTTP/1.5e3rest").unwrap();
    assert_eq!(req.version, "1.5e3");
    let req = run_parser("GET /h HTTP/-2.25\r\n").unwrap();
    assert_eq!(req.version, "-2.25");
}

#[test]
fn empty_input_is_an_unknown_method() {
    let failure = run_parser("").unwrap_err();
    assert_eq!(failure.kind, FailKind::UnknownMethod);
    assert_eq!(failure.fragment, "");
}

#[test]
fn failure_message_names_stage_and_fragment() {
    let failure = run_parser("WRONG /wrong/ HTTP/1.1").unwrap_err();
    assert_eq!(failure.message(), "unknown method: WRONG /wrong/ HTTP/1.1");
    let failure = run_parser("GET /h HTTP/abc").unwrap_err();
    assert_eq!(failure.message(), "not a number: abc");
}

#[test]
fn method_literals() {
    assert_eq!(Method::GET.literal(), "GET");
    assert_eq!(Method::POST.literal(), "POST");
}

#[test]
fn match_literal_splits_off_the_prefix() {
    let (consumed, rest) = match_literal("GET", "GET /x").unwrap();
    assert_eq!(consumed, "GET");
    assert_eq!(rest, " /x");
    assert_eq!(match_literal("POST", "GET /x").unwrap_err(), FailKind::LiteralMismatch);
}

#[test]
fn take_until_stops_before_the_delimiter() {
    let (consumed, rest) = take_until('/', "HTTP/1.1").unwrap();
    assert_eq!(consumed, "HTTP");
    assert_eq!(rest, "/1.1");
    assert_eq!(take_until(' ', "nospace").unwrap_err(), FailKind::DelimiterNotFound);
}

#[test]
fn take_until_accepts_a_delimiter_at_the_front() {
    let (consumed, rest) = take_until(' ', " rest").unwrap();
    assert_eq!(consumed, "");
    assert_eq!(rest, " rest");
}

#[test]
fn match_float_scans_the_maximal_numeric_prefix() {
    let (consumed, rest) = match_float("3.14xyz").unwrap();
    assert_eq!(consumed, "3.14");
    assert_eq!(rest, "xyz");
    let (consumed, rest) = match_float("12").unwrap();
    assert_eq!(consumed, "12");
    assert_eq!(rest, "");
    let (consumed, rest) = match_float("-4.5E-2;").unwrap();
    assert_eq!(consumed, "-4.5E-2");
    assert_eq!(rest, ";");
    let (consumed, rest) = match_float("7.rest").unwrap();
    assert_eq!(consumed, "7");
    assert_eq!(rest, ".rest");
    assert_eq!(match_float("abc").unwrap_err(), FailKind::NotANumber);
    assert_eq!(match_float("").unwrap_err(), FailKind::NotANumber);
}
