use coax_actor::model::{Complaint, Config, Gap, Leaf, Place, Time, UserId, Var};
use coax_actor::actor::Actor;
use coax_actor::text::{
    endpoint_of, host, is_readable, locate, locate_with_pair, stored_cookie, stored_text, Cookie, Endpoint,
};

fn at(e: Endpoint) -> (String, String) {
    match e {
        Endpoint::At { url, domain } => (url, domain),
        Endpoint::NoDomain => panic!("no domain"),
        Endpoint::Invalid => panic!("invalid"),
    }
}

#[test]
fn stored_text_is_read_back() {
    assert_eq!(stored_text(&"4f\u{e9}\u{1f600}".as_bytes().to_vec()), Some("4f\u{e9}\u{1f600}".to_string()));
    assert_eq!(stored_text(&Vec::new()), Some(String::new()));
}

#[test]
fn bytes_that_are_not_utf8_are_no_text() {
    assert_eq!(stored_text(&vec![0x63, 0xff]), None);
    assert_eq!(stored_text(&vec![0xc3]), None);
    assert!(stored_cookie(&vec![0x61, 0x3d, 0xff]).is_none());
}

#[test]
fn cookie_is_brought_into_header_form() {
    let c = Cookie::parse("zuid=abc ;  path=/access ; SECURE; httponly").unwrap();
    assert_eq!(c.text(), "zuid=abc; HttpOnly; Secure; Path=/access");
}

#[test]
fn cookie_in_header_form_is_parsed_again() {
    let again = |text: &str| Cookie::parse(Cookie::parse(text).unwrap().text()).unwrap().text().to_string();
    assert_eq!(again("  zuid = a b=c "), "zuid=a b=c");
    assert_eq!(again("zuid="), "zuid=");
    assert_eq!(again("zuid=abc; Path=/access; Secure"), "zuid=abc; Secure; Path=/access");
    let full = "zuid=abc; HttpOnly; Secure; SameSite=Lax; Path=/access; Domain=x.org; Max-Age=60";
    assert_eq!(again("zuid=abc;Max-Age=+60; domain=.x.org;path = /access; samesite=LAX;secure;httponly"), full);
    assert_eq!(again(full), full);
    assert_eq!(again("zuid=abc; Max-Age=-5; Path="), "zuid=abc; Path=; Max-Age=0");
    assert_eq!(again("zuid=abc; Domain=..x"), "zuid=abc; Domain=x");
    assert_eq!(again("zuid=abc; Domain=."), "zuid=abc");
}

#[test]
fn text_without_a_pair_is_no_cookie() {
    assert!(Cookie::parse("zuid").is_none());
    assert!(Cookie::parse("").is_none());
    assert!(Cookie::parse("=abc").is_none());
}

#[test]
fn stored_cookie_is_parsed() {
    let c = stored_cookie(&b"a=1; Domain=.example.com".to_vec()).unwrap();
    assert_eq!(c.text(), "a=1; Domain=example.com");
    assert!(stored_cookie(&b"nothing".to_vec()).is_none());
}

#[test]
fn address_yields_url_and_domain() {
    assert_eq!(
        at(locate("HTTPS://Prod-NGINX.example.com")),
        ("https://prod-nginx.example.com/".to_string(), "prod-nginx.example.com".to_string())
    );
}

#[test]
fn address_must_be_a_url() {
    assert!(matches!(locate("prod.example.com"), Endpoint::Invalid));
    assert!(matches!(locate(""), Endpoint::Invalid));
    assert!(matches!(locate_with_pair("nowhere", "client", "x"), Endpoint::Invalid));
}

#[test]
fn address_must_name_a_domain() {
    assert!(matches!(locate("https://127.0.0.1:8080/"), Endpoint::NoDomain));
    assert!(matches!(locate("mailto:someone@example.com"), Endpoint::NoDomain));
    assert!(matches!(locate_with_pair("wss://[::1]/", "client", "x"), Endpoint::NoDomain));
}

#[test]
fn domain_in_unicode_is_converted() {
    assert_eq!(
        at(locate("https://b\u{fc}cher.example/")),
        ("https://xn--bcher-kva.example/".to_string(), "xn--bcher-kva.example".to_string())
    );
}

#[test]
fn overlong_domain_in_unicode_is_not_read() {
    let text = format!("https://{}\u{10fd2e}/", "a".repeat(3857));
    assert!(matches!(locate(&text), Endpoint::Invalid));
    assert!(matches!(locate_with_pair(&text, "client", "x"), Endpoint::Invalid));
    assert_eq!(host(&text), None);
    let hidden = format!("https:\\\t/{}%f4%8f%b4%ae/", "a".repeat(3857));
    assert!(matches!(locate(&hidden), Endpoint::Invalid));
    let encoded = format!("https://{}.XN--{}/", "a".repeat(300), "a".repeat(3700));
    assert!(matches!(locate(&encoded), Endpoint::Invalid));
    let file = format!("file://{}\u{10fd2e}@x/", "a".repeat(3857));
    assert!(matches!(locate(&file), Endpoint::Invalid));
}

#[test]
fn longest_domain_that_is_read_whatever_it_holds() {
    // A letter of two bytes counts as twelve characters.
    let text = format!("https://{}aaaaaaaa/", "\u{e4}".repeat(316));
    assert!(host(&text).unwrap().starts_with("xn--"));
    assert_eq!(host(&format!("https://{}aaaaaaaaa/", "\u{e4}".repeat(316))), None);
    // No domain, but read: the widest character, which stands for eighteen, and one of the largest
    // behind as many letters as can be.
    assert!(matches!(locate(&format!("https://{}/", "\u{fdfa}".repeat(211))), Endpoint::Invalid));
    let largest = format!("https://{}\u{10fd2e}/", "a".repeat(3776));
    assert!(is_readable(&largest) && matches!(locate(&largest), Endpoint::Invalid));
}

#[test]
fn user_before_the_host_may_be_of_any_length() {
    let text = format!("https://user:{}@x.org/", "%20".repeat(3000));
    assert_eq!(host(&text), Some("x.org".to_string()));
    assert_eq!(at(locate(&text)).1, "x.org");
}

#[test]
fn host_of_another_scheme_is_left_as_it_is() {
    let long = "%41".repeat(2000);
    assert_eq!(host(&format!("coax://{}/", long)), Some(long.clone()));
    assert_eq!(host(&format!("coax://b\\{}", long)), None);
    assert_eq!(host(&format!("co\tax:/{}", long)), None);
    assert_eq!(host(&format!("file:///{}", long)), None);
    assert!(matches!(locate(&format!("file:///{}", long)), Endpoint::NoDomain));
    assert!(matches!(locate(&format!(" HTT\nP:\\{}\u{10fd2e}", "a".repeat(3857))), Endpoint::Invalid));
}

#[test]
fn plain_domain_may_be_of_any_length() {
    let domain = "a".repeat(5000);
    assert_eq!(host(&format!("https://{}/", domain)), Some(domain.clone()));
    assert_eq!(at(locate(&format!("https://{}/", domain))).1, domain);
}

#[test]
fn path_and_query_may_hold_anything() {
    let text = format!("https://cdn.example.com/xn--{}?sig=%2f{}", "a".repeat(900), "\u{e4}".repeat(900));
    assert_eq!(host(&text), Some("cdn.example.com".to_string()));
}

#[test]
fn pair_is_appended_before_the_fragment() {
    assert_eq!(
        at(locate_with_pair("wss://push.example.com/?#end", "client", "\u{e4}&*")).0,
        "wss://push.example.com/?client=%C3%A4%26*#end"
    );
    assert_eq!(
        at(locate_with_pair("wss://push.example.com/#a?b", "client", "x")).0,
        "wss://push.example.com/?client=x#a?b"
    );
}

#[test]
fn pair_is_appended_to_the_query() {
    assert_eq!(
        at(locate_with_pair("wss://push.example.com/await", "client", "a b")),
        ("wss://push.example.com/await?client=a+b".to_string(), "push.example.com".to_string())
    );
    assert_eq!(
        at(locate_with_pair("wss://push.example.com/await?x=1", "client", "7f")).0,
        "wss://push.example.com/await?x=1&client=7f"
    );
}

#[test]
fn host_may_be_an_ip_address() {
    assert_eq!(host("https://127.0.0.1/assets/v3"), Some("127.0.0.1".to_string()));
    assert_eq!(host("https://CDN.example.com/k"), Some("cdn.example.com".to_string()));
    assert_eq!(host("data:text/plain,x"), None);
    assert_eq!(host("not a url"), None);
}

#[test]
fn endpoint_needs_both_parts() {
    assert!(matches!(endpoint_of(None, None), Endpoint::Invalid));
    assert!(matches!(endpoint_of(None, Some("d".to_string())), Endpoint::Invalid));
    assert!(matches!(endpoint_of(Some("u".to_string()), None), Endpoint::NoDomain));
    assert_eq!(
        at(endpoint_of(Some("u".to_string()), Some("d".to_string()))),
        ("u".to_string(), "d".to_string())
    );
}

#[test]
fn words_for_what_is_missing() {
    assert_eq!(Gap::User.text(), "user not found");
    assert_eq!(Gap::ClientId.text(), "client id not found");
    assert_eq!(Gap::Client.text(), "client not found");
    assert_eq!(Gap::Cookie.text(), "cookie not found");
    assert_eq!(Gap::AccessToken.text(), "access token not found");
}

#[test]
fn words_for_complaints() {
    assert_eq!(Complaint::ClientNotFound.text(), "client not found");
    assert_eq!(Complaint::NoConversation.text(), "conversation does not exist");
    assert_eq!(Complaint::HostWithoutDomain.text(), "/host/url has no domain");
    assert_eq!(Complaint::WebsocketWithoutDomain.text(), "/host/websocket has no domain");
    assert_eq!(Complaint::AssetWithoutHost.text(), "missing host in asset url");
    assert_eq!(Complaint::RootNotUtf8.text(), "/data/root contains invalid utf-8");
}

#[test]
fn names_of_variables_and_files() {
    assert_eq!(Var::MyClientId.name(), "my-client-id");
    assert_eq!(Var::AccessToken.name(), "access-token");
    assert_eq!(Var::UserCookie.name(), "user-cookie");
    assert_eq!(Leaf::Home.name(), None);
    assert_eq!(Leaf::Assets.name(), Some("assets"));
    assert_eq!(Leaf::CryptoBox.name(), Some("cryptobox"));
    assert_eq!(Leaf::Database.name(), Some("main.db"));
}

#[test]
fn timestamp_is_in_whole_seconds() {
    assert_eq!(Time { secs: 1487_000_000, nanos: 999_999_999 }.timestamp(), 1487_000_000);
    assert_eq!(Time { secs: -1, nanos: 1 }.timestamp(), -1);
}

#[test]
fn place_is_below_the_data_root() {
    let a = Actor::new(Config {
        host_url: "https://example.com".to_string(),
        host_websocket: "wss://example.com".to_string(),
        data_root: "/var/coax".to_string(),
    });
    let p: Place = a.place(UserId { id: 9 }, Leaf::Database);
    assert_eq!(p.root, "/var/coax");
    assert_eq!(p.user, UserId { id: 9 });
    assert_eq!(p.leaf, Leaf::Database);
    assert_eq!(a.config().host_websocket, "wss://example.com");
}
