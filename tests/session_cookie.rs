use mirror_blame::{cookie, SameSite, SessionCookie};

#[test]
fn local_session_cookie() {
    let c = cookie("cf_session_token", "abc", true, false);
    assert!(!c.secure);
    assert!(c.domain.is_none());
    assert_eq!(c.to_header_value(), "cf_session_token=abc; HttpOnly; SameSite=Strict; Path=/");
}

#[test]
fn production_cookie_is_secure_and_scoped() {
    let c = cookie("cf_user_info", "x", false, true);
    assert_eq!(c.domain.as_deref(), Some("cuddlefish.app"));
    assert_eq!(
        c.to_header_value(),
        "cf_user_info=x; SameSite=Strict; Secure; Path=/; Domain=cuddlefish.app"
    );
}

#[test]
fn removal_cookie_has_empty_value() {
    let c = cookie("cf_session_token", "", true, false);
    assert_eq!(c.to_header_value(), "cf_session_token=; HttpOnly; SameSite=Strict; Path=/");
}

#[test]
fn other_same_site_policies_render() {
    let lax = SessionCookie {
        name: "n".to_string(),
        value: "v".to_string(),
        secure: false,
        http_only: false,
        same_site: SameSite::Lax,
        path: "/".to_string(),
        domain: None,
    };
    assert_eq!(lax.to_header_value(), "n=v; SameSite=Lax; Path=/");
    let open = SessionCookie { same_site: SameSite::Unrestricted, secure: true, ..lax };
    assert_eq!(open.to_header_value(), "n=v; SameSite=None; Secure; Path=/");
}

#[test]
fn service_cookies_are_strict() {
    assert_eq!(cookie("a", "b", false, true).same_site, SameSite::Strict);
}
