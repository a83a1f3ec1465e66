use hasty::Config;
use hasty::HttpMethods;
use hasty::ResponseCode;

#[test]
pub fn config_default() {
    let config = Config::new();
    assert_eq!(config.allows_insecure_https(), false);
}

#[test]
pub fn config_insecure_https() {
    let config = Config::new().disable_https_security();
    assert_eq!(config.allows_insecure_https(), true);
}

#[test]
pub fn methods_post() {
    let s = HttpMethods::Post.name();
    assert_eq!(s, "POST".to_owned());
}

#[test]
pub fn methods_get() {
    let s = HttpMethods::Get.name();
    assert_eq!(s, "GET".to_owned());
}

#[test]
pub fn response_code_success() {
    let s = ResponseCode::Continue.name();
    assert_eq!(s, "CONTINUE");
}
