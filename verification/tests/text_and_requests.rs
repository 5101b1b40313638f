use vrc_api::request::{
    friend_request_fields, friend_request_method, friend_request_url, instance_url, is_success,
    matched_token, split_colon, take_fields, two_factor_request, with_token, Data, RequestError,
};
use vrc_api::text::{contains_text, split_pieces, text_less};

#[test]
fn split_pieces_keeps_empty_pieces() {
    assert_eq!(split_pieces("a:b::c", ':'), vec!["a", "b", "", "c"]);
    assert_eq!(split_pieces("", ':'), vec![""]);
    assert_eq!(split_pieces(":", ':'), vec!["", ""]);
    assert_eq!(split_pieces("ニコ:ル", ':'), vec!["ニコ", "ル"]);
}

#[test]
fn text_less_orders_like_string() {
    assert!(text_less("abc", "abd"));
    assert!(text_less("ab", "abc"));
    assert!(!text_less("b", "a"));
    assert!(!text_less("", ""));
    assert!(text_less("", "a"));
    assert!(text_less("usr_1", "usr_2"));
    assert_eq!(text_less("Z", "a"), String::from("Z") < String::from("a"));
    assert_eq!(text_less("é", "z"), String::from("é") < String::from("z"));
}

#[test]
fn contains_text_finds_exact_match() {
    let v = vec![String::from("a"), String::from("bc")];
    assert!(contains_text(&v, "bc"));
    assert!(!contains_text(&v, "b"));
    assert!(!contains_text(&Vec::new(), ""));
}

#[test]
fn status_success_is_2xx() {
    assert!(is_success(200));
    assert!(is_success(204));
    assert!(is_success(299));
    assert!(!is_success(199));
    assert!(!is_success(300));
    assert!(!is_success(404));
}

#[test]
fn take_fields_ignores_extra_fields() {
    let f = take_fields("a:b:c:d", 3).ok().unwrap();
    assert_eq!(f, vec!["a", "b", "c"]);
    assert!(matches!(take_fields("a:b", 3), Err(RequestError::MissingField)));
}

#[test]
fn split_colon_splits_at_first_colon() {
    let (a, b) = split_colon("auth:wrld_1:12345~private").ok().unwrap();
    assert_eq!(a, "auth");
    assert_eq!(b, "wrld_1:12345~private");
    assert!(matches!(split_colon("nocolon"), Err(RequestError::MissingField)));
    let (a, b) = split_colon(":").ok().unwrap();
    assert_eq!((a.as_str(), b.as_str()), ("", ""));
}

#[test]
fn friend_request_reads_three_fields() {
    let f = friend_request_fields("secret:usr_1:POST").ok().unwrap();
    assert_eq!(f.auth, "secret");
    assert_eq!(f.user, "usr_1");
    assert_eq!(f.method, "POST");
    assert!(matches!(friend_request_fields("secret:usr_1"), Err(RequestError::MissingField)));
    assert_eq!(
        friend_request_url("usr_1"),
        "https://api.vrchat.cloud/api/1/user/usr_1/friendRequest"
    );
}

#[test]
fn friend_request_method_checks_token() {
    assert_eq!(friend_request_method("POST").ok().unwrap().into_inner(), reqwest::Method::POST);
    assert_eq!(friend_request_method("DELETE").ok().unwrap().into_inner(), reqwest::Method::DELETE);
    assert_eq!(friend_request_method("FOO").ok().unwrap().into_inner().as_str(), "FOO");
    assert!(matches!(friend_request_method(""), Err(RequestError::InvalidMethod)));
    assert!(matches!(friend_request_method("GE T"), Err(RequestError::InvalidMethod)));
    assert!(matches!(friend_request_method("GET:"), Err(RequestError::InvalidMethod)));
}

#[test]
fn instance_url_appends_instance() {
    assert_eq!(
        instance_url("wrld_1:123"),
        "https://api.vrchat.cloud/api/1/instances/wrld_1:123"
    );
}

#[test]
fn two_factor_request_reads_fields() {
    let t = two_factor_request("auth=tok:totp:123456:me").ok().unwrap();
    assert_eq!(t.token, "auth=tok");
    assert_eq!(t.url, "https://api.vrchat.cloud/api/1/auth/twofactorauth/totp/verify");
    assert_eq!(t.code, "123456");
    assert!(matches!(two_factor_request("auth=tok:totp:123456"), Err(RequestError::MissingField)));
}

#[test]
fn two_factor_request_limits_auth_to_fifty_chars() {
    let fifty = "あ".repeat(50);
    assert!(two_factor_request(&format!("t:totp:1:{}", fifty)).is_ok());
    let fifty_one = "a".repeat(51);
    assert!(matches!(
        two_factor_request(&format!("t:totp:1:{}", fifty_one)),
        Err(RequestError::AuthTooLong)
    ));
}

#[test]
fn request_error_messages() {
    assert_eq!(RequestError::AuthTooLong.message(), "認証IDが長すぎます。");
    assert_eq!(RequestError::MissingField.message(), "The request is missing a field.");
    assert_eq!(RequestError::InvalidMethod.message(), "invalid HTTP method");
}

fn data() -> Data {
    Data {
        listen: String::from("0.0.0.0:8000"),
        cors: String::from("*"),
        auth: String::from("secret"),
        token: String::from("auth=old"),
    }
}

#[test]
fn matched_token_needs_saved_auth() {
    assert_eq!(matched_token(&data(), "secret").ok().unwrap(), "auth=old");
    assert_eq!(matched_token(&data(), "other").err().unwrap(), "failed to auth.");
}

#[test]
fn with_token_replaces_only_the_token() {
    let d = with_token(data(), String::from("auth=new"));
    assert_eq!(d.listen, "0.0.0.0:8000");
    assert_eq!(d.cors, "*");
    assert_eq!(d.auth, "secret");
    assert_eq!(d.token, "auth=new");
}

#[test]
fn joined_fields_read_back() {
    let parts = ["tok", "emailotp", "654321", "me"];
    let req = parts.join(":");
    let t = two_factor_request(&req).ok().unwrap();
    assert_eq!(t.token, parts[0]);
    assert_eq!(t.code, parts[2]);
    assert_eq!(take_fields(&req, 4).ok().unwrap(), parts);
}

#[test]
fn kept_location_reads_back_through_instance_request() {
    let loc = vrc_api::session::location_of(&String::from("wrld_1"), &String::from("123~x"));
    let (auth, instance) = split_colon(&format!("secret:{}", loc)).ok().unwrap();
    assert_eq!(auth, "secret");
    assert_eq!(instance, "wrld_1:123~x");
    let (world, inst) = split_colon(&instance).ok().unwrap();
    assert_eq!((world.as_str(), inst.as_str()), ("wrld_1", "123~x"));
}

#[test]
fn friend_request_delete_goes_out_as_delete() {
    let f = friend_request_fields("id1:usr_abc:DELETE").ok().unwrap();
    assert_eq!(f.auth, "id1");
    let m = friend_request_method(&f.method).ok().unwrap().into_inner();
    assert_eq!(m, reqwest::Method::DELETE);
    assert_eq!(
        friend_request_url(&f.user),
        "https://api.vrchat.cloud/api/1/user/usr_abc/friendRequest"
    );
}
