use llmspec::models::UseCase;
use llmspec::serve::{parse_request_line, percent_decode, Request};

fn parse(line: &str) -> Request {
    parse_request_line(line).unwrap()
}

#[test]
fn parses_a_bare_path() {
    let r = parse("GET /system HTTP/1.1\r\n");
    assert_eq!(r.method, "GET");
    assert_eq!(r.path, "/system");
    assert!(r.query.is_empty());
}

#[test]
fn parses_query_parameters() {
    let r = parse("GET /models?limit=5&use_case=coding HTTP/1.1\r\n");
    assert_eq!(r.path, "/models");
    assert_eq!(r.limit(), Some(5));
    assert_eq!(r.use_case(UseCase::General).unwrap(), UseCase::Coding);
}

#[test]
fn valueless_parameters_are_flags() {
    let r = parse("GET /models?perfect HTTP/1.1\r\n");
    assert!(r.flag("perfect"));
    assert!(!r.flag("include_too_tight"));
    let off = parse("GET /models?perfect=false HTTP/1.1\r\n");
    assert!(!off.flag("perfect"));
}

#[test]
fn trailing_slashes_collapse() {
    assert_eq!(parse("GET / HTTP/1.1\r\n").path, "/");
    assert_eq!(parse("GET /models/ HTTP/1.1\r\n").path, "/models");
}

#[test]
fn percent_escapes_are_decoded() {
    let r = parse("GET /models/Qwen%2FQwen2.5-7B-Instruct HTTP/1.1\r\n");
    assert_eq!(r.path, "/models/Qwen/Qwen2.5-7B-Instruct");
    let q = parse("GET /models?search=llama+8b HTTP/1.1\r\n");
    assert_eq!(q.get("search"), Some("llama 8b"));
}

#[test]
fn malformed_escapes_are_left_alone() {
    assert_eq!(percent_decode("100%"), "100%");
    assert_eq!(percent_decode("%zz"), "%zz");
}

#[test]
fn method_is_normalised_and_missing_target_rejected() {
    assert_eq!(parse("get /health HTTP/1.1\r\n").method, "GET");
    assert!(parse_request_line("GET").is_err());
    assert!(parse_request_line("").is_err());
}

#[test]
fn unknown_use_case_is_rejected() {
    let r = parse("GET /models?use_case=telepathy HTTP/1.1\r\n");
    assert!(r.use_case(UseCase::General).is_err());
}

#[test]
fn empty_values_read_as_absent() {
    let r = parse("GET /models?provider=&limit=3 HTTP/1.1\r\n");
    assert_eq!(r.get("provider"), None);
    assert_eq!(r.limit(), Some(3));
}

#[test]
fn request_line_errors_say_what_is_missing() {
    assert_eq!(parse_request_line("   ").unwrap_err(), "malformed request line");
    assert_eq!(parse_request_line("GET").unwrap_err(), "malformed request line: no target");
}

#[test]
fn a_sign_and_one_hex_digit_also_decode() {
    assert_eq!(percent_decode("%+5x"), "\u{5}x");
    assert_eq!(percent_decode("a%41b"), "aAb");
    assert_eq!(percent_decode("%4"), "%4");
    assert_eq!(percent_decode("50%%"), "50%%");
}

#[test]
fn invalid_utf8_from_escapes_is_replaced() {
    assert_eq!(percent_decode("%ff"), "\u{fffd}");
    assert_eq!(percent_decode("%C3%A9"), "é");
}

#[test]
fn a_repeated_parameter_keeps_its_last_value() {
    let r = parse("GET /models?limit=2&limit=7&&n=1 HTTP/1.1");
    assert_eq!(r.limit(), Some(7));
    assert_eq!(r.get("n"), Some("1"));
}

#[test]
fn limit_falls_back_to_n_and_rejects_non_numbers() {
    assert_eq!(parse("GET /m?n=4 HTTP/1.1").limit(), Some(4));
    assert_eq!(parse("GET /m?limit=abc&n=4 HTTP/1.1").limit(), None);
    assert_eq!(parse("GET /m?limit=+9 HTTP/1.1").limit(), None);
    assert_eq!(parse("GET /m?limit=%2B9 HTTP/1.1").limit(), Some(9));
    assert_eq!(parse("GET /m?max_context=8192 HTTP/1.1").max_context(), Some(8192));
    assert_eq!(parse("GET /m?max_context=99999999999 HTTP/1.1").max_context(), None);
}

#[test]
fn flags_read_no_and_zero_as_off() {
    let r = parse("GET /m?a=no&b=0&c=yes&d= HTTP/1.1");
    assert!(!r.flag("a"));
    assert!(!r.flag("b"));
    assert!(r.flag("c"));
    assert!(r.flag("d"));
}

#[test]
fn unknown_use_case_error_quotes_the_value() {
    let r = parse("GET /models?use_case=telepathy HTTP/1.1");
    assert_eq!(r.use_case(UseCase::General).unwrap_err(), "unknown use case 'telepathy'");
    let none = parse("GET /models HTTP/1.1");
    assert_eq!(none.use_case(UseCase::Chat).unwrap(), UseCase::Chat);
}

#[test]
fn an_escape_that_splits_a_character_is_left_alone() {
    assert_eq!(percent_decode("%aé"), "%aé");
    assert_eq!(percent_decode("%éa"), "%éa");
    assert_eq!(percent_decode("a%2é"), "a%2é");
    let r = parse_request_line("GET /a%2é?x=%é1 HTTP/1.1").unwrap();
    assert_eq!(r.path, "/a%2é");
    assert_eq!(r.query, vec![("x".to_string(), "%é1".to_string())]);
}

use llmspec::fit::{FitLevel, RunMode};
use llmspec::models::Quant;
use llmspec::serve::{no_route, only_get, reason, response_head, Route};

#[test]
fn unknown_route_is_a_404() {
    assert_eq!(parse("GET /nope HTTP/1.1\r\n").route(), Route::Missing);
    assert_eq!(no_route("/nope"), "no route /nope");
    assert_eq!(reason(404), "Not Found");
}

#[test]
fn routes_are_read_from_the_decoded_path() {
    assert_eq!(parse("GET / HTTP/1.1").route(), Route::Health);
    assert_eq!(parse("GET /health HTTP/1.1").route(), Route::Health);
    assert_eq!(parse("GET /system HTTP/1.1").route(), Route::System);
    assert_eq!(parse("GET /runtimes/ HTTP/1.1").route(), Route::Runtimes);
    assert_eq!(parse("GET /catalog HTTP/1.1").route(), Route::Catalog);
    assert_eq!(parse("GET /models?limit=3 HTTP/1.1").route(), Route::Models);
    assert_eq!(parse("GET /models/top HTTP/1.1").route(), Route::Top);
    assert_eq!(
        parse("GET /models/Qwen%2FQwen2.5-7B-Instruct HTTP/1.1\r\n").route(),
        Route::Model("Qwen/Qwen2.5-7B-Instruct".to_string())
    );
    assert_eq!(parse("GET /models//models/x HTTP/1.1").route(), Route::Model("x".to_string()));
    assert_eq!(parse("POST /models HTTP/1.1").route(), Route::WrongMethod);
    assert_eq!(only_get(), "only GET is supported by this API");
}

#[test]
fn bad_filter_values_are_400s() {
    for (line, message) in [
        ("GET /models?quant=q9 HTTP/1.1\r\n", "unknown quantization 'q9'"),
        ("GET /models?mode=quantum HTTP/1.1\r\n", "unknown run mode 'quantum'"),
        ("GET /models?min_fit=flawless HTTP/1.1\r\n", "unknown fit level 'flawless'"),
        ("GET /models?use_case=telepathy&quant=q9 HTTP/1.1\r\n", "unknown use case 'telepathy'"),
    ] {
        assert_eq!(parse(line).model_query(UseCase::General), Err(message.to_string()));
    }
}

#[test]
fn top_route_defaults_to_five_runnable_models() {
    let q = parse("GET /models/top HTTP/1.1\r\n").model_query(UseCase::General).unwrap();
    assert_eq!(q.limit, Some(5));
    assert!(q.runnable_only);
    assert!(!q.admits(Quant::Q4KM, RunMode::Gpu, FitLevel::TooTight));
    assert!(q.admits(Quant::Q4KM, RunMode::Gpu, FitLevel::Marginal));

    let q = parse("GET /models/top?include_too_tight&n=2 HTTP/1.1\r\n").model_query(UseCase::General).unwrap();
    assert_eq!(q.limit, Some(2));
    assert!(q.runnable_only, "the top list never shows what cannot load");
}

#[test]
fn search_and_limit_narrow_the_result_set() {
    let q = parse("GET /models?search=qwen&limit=3 HTTP/1.1\r\n").model_query(UseCase::Coding).unwrap();
    assert_eq!(q.search.as_deref(), Some("qwen"));
    assert_eq!(q.limit, Some(3));
    assert_eq!(q.use_case, UseCase::Coding);
    assert!(q.runnable_only);
    assert_eq!(q.provider, None);
}

#[test]
fn model_filters_compose() {
    let q = parse("GET /models?quant=q8&mode=gpu&min_fit=good&include_too_tight=1&provider=Meta&max_context=4096 HTTP/1.1")
        .model_query(UseCase::General)
        .unwrap();
    assert_eq!(q.quant, Some(Quant::Q8_0));
    assert_eq!(q.mode, Some(RunMode::Gpu));
    assert_eq!(q.min_fit, Some(FitLevel::Good));
    assert_eq!(q.max_context, Some(4096));
    assert!(!q.runnable_only);
    assert!(q.admits(Quant::Q8_0, RunMode::Gpu, FitLevel::Perfect));
    assert!(!q.admits(Quant::Q8_0, RunMode::Gpu, FitLevel::Marginal));
    assert!(!q.admits(Quant::Q4KM, RunMode::Gpu, FitLevel::Perfect));
    assert!(q.admits_provider("meta-llama"));
    assert!(!q.admits_provider("Qwen"));

    let q = parse("GET /models?perfect HTTP/1.1").model_query(UseCase::General).unwrap();
    assert!(q.perfect);
    assert!(!q.admits(Quant::Q4KM, RunMode::Gpu, FitLevel::Good));
    assert_eq!(q.limit, None);
}

#[test]
fn a_response_head_frames_a_json_body() {
    assert_eq!(
        response_head(200, 17),
        "HTTP/1.1 200 OK\r\nContent-Type: application/json\r\nContent-Length: 17\r\nCache-Control: no-store\r\nConnection: close\r\n\r\n"
    );
    assert!(response_head(405, 0).starts_with("HTTP/1.1 405 Method Not Allowed\r\n"));
    assert_eq!(reason(400), "Bad Request");
    assert_eq!(reason(500), "Error");
}

#[test]
fn a_context_floor_keeps_only_models_that_hold_it() {
    let q = parse("GET /models?min_context=32768 HTTP/1.1").model_query(UseCase::General).unwrap();
    assert_eq!(q.min_context, Some(32768));
    assert!(q.admits_context(32768));
    assert!(q.admits_context(65536));
    assert!(!q.admits_context(16384));

    let q = parse("GET /models?min_context=lots HTTP/1.1").model_query(UseCase::General).unwrap();
    assert_eq!(q.min_context, None, "a value that is not a count is ignored");
    assert!(q.admits_context(4096));
}
