use highlights::dashboard::{
    client_authorization, decode_session_id, encode_session_id, endpoint, new_session_id,
    redirect_url, uses_tls, InvalidSessionId,
};

#[test]
fn tls_from_configuration_or_base_url() {
    assert!(uses_tls(true, None));
    assert!(uses_tls(false, Some("https://example.com/")));
    assert!(!uses_tls(false, Some("http://example.com/")));
    assert!(!uses_tls(false, None));
}

#[test]
fn redirect_urls() {
    assert_eq!(
        redirect_url(false, Some("https://example.com/dash/"), "0.0.0.0:80"),
        Some("https://example.com/dash/callback".to_owned())
    );
    assert_eq!(
        redirect_url(false, None, "localhost:8080"),
        Some("http://localhost:8080/callback".to_owned())
    );
    assert_eq!(
        redirect_url(true, None, "localhost:8443"),
        Some("https://localhost:8443/callback".to_owned())
    );
}

#[test]
fn client_authorization_header() {
    assert_eq!(client_authorization("id", "secret"), "Basic aWQ6c2VjcmV0");
}

#[test]
fn api_endpoints() {
    assert_eq!(endpoint("oauth2/token"), "https://discordapp.com/api/v8/oauth2/token");
}

#[test]
fn session_ids_round_trip() {
    let id = [7u8; 16];
    let cookie = encode_session_id(&id);
    assert_eq!(cookie, "BwcHBwcHBwcHBwcHBwcHBw");
    assert_eq!(cookie.len(), 22);
    assert_eq!(decode_session_id(&cookie).unwrap(), id);
    for id in [[0u8; 16], [255u8; 16], *b"0123456789abcdef"] {
        assert_eq!(decode_session_id(&encode_session_id(&id)).unwrap(), id);
    }
    let (fresh, fresh_cookie) = new_session_id().unwrap();
    assert_eq!(fresh_cookie.len(), 22);
    assert_eq!(fresh[6] & 0xf0, 0x40);
    assert_eq!(fresh[8] & 0xc0, 0x80);
    assert_eq!(decode_session_id(&fresh_cookie).unwrap(), fresh);
}

#[test]
fn bad_session_cookies() {
    assert!(matches!(decode_session_id("!!!"), Err(InvalidSessionId::Base64(_))));
    assert!(matches!(decode_session_id("AAAA"), Err(InvalidSessionId::Length(3))));
}

#[test]
fn client_authorization_agrees_with_base64() {
    for (id, secret) in [("", ""), ("a", ""), ("ab", "c"), ("123456789", "sécret/+?"), ("x", "yz")] {
        let expected = format!("Basic {}", base64::encode(format!("{}:{}", id, secret)));
        assert_eq!(client_authorization(id, secret), expected);
    }
}
