use iron_gcd::handler::post_gcd;
use iron_gcd::http::form_page;
use iron_gcd::http::route;
use iron_gcd::http::Route;

#[test]
fn routing_table() {
    assert_eq!(route("GET", "/"), Some(Route::Form));
    assert_eq!(route("POST", "/gcd"), Some(Route::Gcd));
    assert_eq!(route("GET", "/gcd"), None);
    assert_eq!(route("POST", "/"), None);
    assert_eq!(route("PUT", "/gcd"), None);
    assert_eq!(route("GET", "/other"), None);
}

#[test]
fn form_page_serves_the_form() {
    let resp = form_page();
    assert_eq!(resp.status, 200);
    assert!(resp.html);
    assert!(resp.body.contains("<form action=\"/gcd\""));
    assert!(resp.body.contains("name=\"n\""));
}

#[test]
fn two_numbers_yield_their_gcd() {
    let resp = post_gcd("n=12&n=18").unwrap();
    assert_eq!(resp.status, 200);
    assert!(resp.html);
    assert!(resp.body.contains("6"));
    assert_eq!(
        resp.body,
        "The greatest common divisor of the numbers [12, 18] is <b>6</b>\n"
    );
}

#[test]
fn many_numbers_reduce_left_to_right() {
    let resp = post_gcd("n=12&n=18&n=8").unwrap();
    assert_eq!(resp.status, 200);
    assert_eq!(
        resp.body,
        "The greatest common divisor of the numbers [12, 18, 8] is <b>2</b>\n"
    );
}

#[test]
fn missing_n_parameter_is_a_400() {
    let resp = post_gcd("m=1&q=2").unwrap();
    assert_eq!(resp.status, 400);
    assert!(!resp.html);
    assert_eq!(resp.body, "Form data has no 'n' parameter\n");
}

#[test]
fn empty_body_is_a_decoding_error() {
    let resp = post_gcd("").unwrap();
    assert_eq!(resp.status, 400);
    assert_eq!(resp.body, "Error parsing form data: EmptyQuery\n");
}

#[test]
fn non_numeric_value_is_named() {
    let resp = post_gcd("n=abc").unwrap();
    assert_eq!(resp.status, 400);
    assert!(resp.body.contains("abc"));
    assert_eq!(resp.body, "Value for 'n' parameter not a number: \"abc\"\n");
}

#[test]
fn first_bad_value_wins() {
    let resp = post_gcd("n=4&n=x&n=y").unwrap();
    assert_eq!(resp.status, 400);
    assert_eq!(resp.body, "Value for 'n' parameter not a number: \"x\"\n");
}

#[test]
fn empty_value_is_not_a_number() {
    let resp = post_gcd("n=").unwrap();
    assert_eq!(resp.status, 400);
    assert_eq!(resp.body, "Value for 'n' parameter not a number: \"\"\n");
}

#[test]
fn percent_encoded_digits_are_decoded() {
    let resp = post_gcd("n=%31%32&n=4").unwrap();
    assert_eq!(resp.status, 200);
    assert_eq!(
        resp.body,
        "The greatest common divisor of the numbers [12, 4] is <b>4</b>\n"
    );
}

#[test]
fn plus_decodes_to_a_space_and_fails_parsing() {
    let resp = post_gcd("n=+12").unwrap();
    assert_eq!(resp.status, 400);
    assert_eq!(resp.body, "Value for 'n' parameter not a number: \" 12\"\n");
}

#[test]
fn other_parameters_do_not_disturb_n() {
    let resp = post_gcd("a=9&n=6&b=zzz&n=9").unwrap();
    assert_eq!(resp.status, 200);
    assert_eq!(
        resp.body,
        "The greatest common divisor of the numbers [6, 9] is <b>3</b>\n"
    );
}

#[test]
fn a_single_zero_is_reported_as_is() {
    let resp = post_gcd("n=0").unwrap();
    assert_eq!(resp.status, 200);
    assert_eq!(
        resp.body,
        "The greatest common divisor of the numbers [0] is <b>0</b>\n"
    );
}

#[test]
fn a_zero_among_several_numbers_has_no_answer() {
    assert!(post_gcd("n=0&n=5").is_none());
    assert!(post_gcd("n=5&n=0").is_none());
}
