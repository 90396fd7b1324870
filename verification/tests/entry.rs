use coax_actor::actor::{Actor, Connected, Device, Online, UserData};
use coax_actor::inbox::{Act, Inbox, Outcome, Phase};
use coax_actor::model::{
    ApiClient, ApiUser, AssetKey, Client, ClientId, Config, ConvId, Credentials, Failure, Handle,
    Leaf, Place, Reaction, Rows, User, UserId,
};
use coax_actor::query::Pkg;
use coax_actor::storage::{
    access_token, cookie, my_client_id, set_access_token, set_cookie, set_my_client_id,
};
use coax_actor::tape::{Reply, Stop, Tape};
use coax_actor::text::Cookie;

fn config() -> Config {
    Config {
        host_url: "https://prod.example.com".to_string(),
        host_websocket: "wss://push.example.com/await".to_string(),
        data_root: "/var/coax".to_string(),
    }
}

fn user(id: u128) -> User {
    User { id: UserId { id }, deleted: false, icon: None, record: h(1000 + id as u64) }
}

fn client(id: &str) -> Client {
    Client { id: ClientId::new(id.to_string()), record: h(50) }
}

fn h(n: u64) -> Handle {
    Handle { n }
}

fn me() -> UserData {
    UserData {
        user: user(1),
        dbase: h(20),
        creds: h(40),
        device: Device { fresh: false, client: client("me"), cbox: h(60) },
        assets: Place { root: "/var/coax".to_string(), user: UserId { id: 1 }, leaf: Leaf::Assets },
    }
}

fn online() -> Actor<Online> {
    Actor::new(config()).online(h(30), me(), h(70))
}

fn db(q: &str) -> String {
    format!("Db(Handle {{ n: 20 }}, {})", q)
}

fn api(q: &str) -> String {
    format!("Api(Link {{ client: Handle {{ n: 30 }}, creds: Some(Handle {{ n: 40 }}) }}, {})", q)
}

fn failed(unauthorised: bool, retriable: bool, n: u64) -> Reply {
    Reply::Failed(Failure { unauthorised, retriable, mismatch: None, record: h(n) })
}

fn prefixes(script: fn() -> Vec<Reply>) -> Vec<Vec<Reply>> {
    let mut all = Vec::new();
    for k in 0..script().len() + 1 {
        let mut log = script();
        log.truncate(k);
        all.push(log);
    }
    all
}

/// Runs an operation over longer and longer tapes, as a driver does, and collects the questions.
fn play<'a>(
    logs: &'a Vec<Vec<Reply>>,
    op: impl Fn(&mut Tape<'a>) -> Result<String, Stop<'a>>,
) -> (Vec<String>, String) {
    let mut asked = Vec::new();
    let mut end = String::new();
    for log in logs {
        assert_eq!(end, "", "more answers than questions");
        let mut tape = Tape::new(log);
        end = match op(&mut tape) {
            Err(Stop::Ask(q)) => {
                asked.push(format!("{:?}", q));
                String::new()
            }
            Err(Stop::Fail(e)) => format!("{:?}", e),
            Err(Stop::Stray) => "stray".to_string(),
            Ok(s) => s,
        }
    }
    (asked, end)
}

fn connected() -> Actor<Connected> {
    Actor::new(config()).connected(h(30))
}

fn entry(q: &str) -> String {
    format!("Api(Link {{ client: Handle {{ n: 30 }}, creds: None }}, {})", q)
}

fn db21(q: &str) -> String {
    format!("Db(Handle {{ n: 21 }}, {})", q)
}

fn disk(q: &str, leaf: &str) -> String {
    format!(
        "Disk({}(Place {{ root: \"/var/coax\", user: UserId {{ id: 2 }}, leaf: {} }}))",
        q, leaf
    )
}

fn credentials() -> Credentials {
    Credentials { token: "tok".to_string(), cookie: Cookie::parse("zuid=1").unwrap() }
}

fn api_client(id: &str) -> ApiClient {
    ApiClient { id: ClientId::new(id.to_string()), record: h(5) }
}

fn data(u: UserData) -> String {
    format!(
        "user {} in {} with {} as {} {} {} at {:?}",
        u.user.id.id,
        u.dbase.n,
        u.creds.n,
        u.device.client.id.as_str(),
        u.device.fresh,
        u.device.cbox.n,
        u.assets.leaf
    )
}

// States

#[test]
fn states_keep_what_they_share() {
    let a = Actor::new(config()).offline(me(), h(70)).online(h(30));
    assert_eq!(a.me().id, UserId { id: 1 });
    assert_eq!(a.client().id.as_str(), "me");
    assert!(!a.is_new_client());
    let off = a.offline();
    assert_eq!(off.me().id, UserId { id: 1 });
    assert_eq!(off.client().id.as_str(), "me");
    let on = off.online(h(31));
    assert_eq!((on.state.client, on.state.bcast, on.state.user.dbase), (h(31), h(70), h(20)));
    let c = on.connected();
    assert_eq!(c.state.client, h(31));
    let on = c.online(me(), h(71));
    assert_eq!((on.state.client, on.state.bcast), (h(31), h(71)));
    let off = on.connected().offline(me(), h(72));
    assert_eq!(off.state.bcast, h(72));
    assert_eq!(off.connected(h(33)).state.client, h(33));
    let i = Actor::new(config()).offline(me(), h(70)).init();
    assert_eq!(i.config().data_root, "/var/coax");
    assert_eq!(i.online(h(1), me(), h(2)).init().config().data_root, "/var/coax");
}

// Variables

#[test]
fn variables_are_read_as_text() {
    fn script() -> Vec<Reply> {
        vec![
            Reply::MaybeBytes(Some(b"c-7".to_vec())),
            Reply::MaybeBytes(Some(b"a=1".to_vec())),
            Reply::MaybeBytes(Some(b"token".to_vec())),
        ]
    }
    let logs = prefixes(script);
    let (asked, end) = play(&logs, |t| {
        let id = my_client_id(t, h(20))?.unwrap();
        let c = cookie(t, h(20))?.unwrap();
        let k = access_token(t, h(20))?.unwrap();
        Ok(format!("{} {} {}", id.as_str(), c.text(), k))
    });
    assert_eq!(asked, vec![db("Var(MyClientId)"), db("Var(UserCookie)"), db("Var(AccessToken)")]);
    assert_eq!(end, "c-7 a=1 token");
}

#[test]
fn variables_that_are_no_text_are_not_there() {
    fn script() -> Vec<Reply> {
        vec![
            Reply::MaybeBytes(Some(vec![0xff])),
            Reply::MaybeBytes(Some(b"nothing".to_vec())),
            Reply::MaybeBytes(None),
        ]
    }
    let logs = prefixes(script);
    let (_, end) = play(&logs, |t| {
        let id = my_client_id(t, h(20))?.is_some();
        let c = cookie(t, h(20))?.is_some();
        let k = access_token(t, h(20))?.is_some();
        Ok(format!("{} {} {}", id, c, k))
    });
    assert_eq!(end, "false false false");
}

#[test]
fn variables_are_stored_as_text() {
    fn script() -> Vec<Reply> {
        vec![Reply::Done, Reply::Done, Reply::Done]
    }
    let logs = prefixes(script);
    let (asked, end) = play(&logs, |t| {
        set_my_client_id(t, h(20), &ClientId::new("c-7".to_string()))?;
        set_cookie(t, h(20), &Cookie::parse("a=1;Secure").unwrap())?;
        set_access_token(t, h(20), &"tok".to_string())?;
        Ok("ok".to_string())
    });
    assert_eq!(
        asked,
        vec![
            db("SetVar(MyClientId, \"c-7\")"),
            db("SetVar(UserCookie, \"a=1; Secure\")"),
            db("SetVar(AccessToken, \"tok\")"),
        ]
    );
    assert_eq!(end, "ok");
}

// Profiles

fn profile(script: fn() -> Vec<Reply>) -> (Vec<String>, String) {
    let (a, logs) = (Actor::new(config()), prefixes(script));
    play(&logs, |t| a.profile(t, UserId { id: 2 }).map(|u| data(u)))
}

fn opened() -> Vec<Reply> {
    vec![
        Reply::Flag(false),
        Reply::Done,
        Reply::Flag(true),
        Reply::Flag(true),
        Reply::Handle(h(21)),
        Reply::Done,
    ]
}

#[test]
fn profile_is_loaded() {
    fn script() -> Vec<Reply> {
        let mut log = opened();
        log.push(Reply::MaybeUser(Some(user(2))));
        log.push(Reply::MaybeBytes(Some(b"c-7".to_vec())));
        log.push(Reply::MaybeClient(Some(client("c-7"))));
        log.push(Reply::MaybeBytes(Some(b"a=1; Path=/x".to_vec())));
        log.push(Reply::MaybeBytes(Some(b"tok".to_vec())));
        log.push(Reply::Flag(true));
        log.push(Reply::Handle(h(61)));
        log.push(Reply::Handle(h(41)));
        log
    }
    let (asked, end) = profile(script);
    assert_eq!(
        asked,
        vec![
            disk("Exists", "Assets"),
            disk("CreateDir", "Assets"),
            disk("Exists", "Home"),
            disk("IsText", "Database"),
            disk("OpenDatabase", "Database"),
            "Disk(SetupSchema(Handle { n: 21 }))".to_string(),
            db21("User(UserId { id: 2 })"),
            db21("Var(MyClientId)"),
            db21("Client(UserId { id: 2 }, ClientId { text: \"c-7\" })"),
            db21("Var(UserCookie)"),
            db21("Var(AccessToken)"),
            disk("Exists", "CryptoBox"),
            disk("OpenCryptoBox", "CryptoBox"),
            "HoldStored { token: \"tok\", cookie: \"a=1; Path=/x\", valid_for: 0 }".to_string(),
        ]
    );
    assert_eq!(end, "user 2 in 21 with 41 as c-7 false 61 at Assets");
}

#[test]
fn profile_needs_a_user() {
    fn script() -> Vec<Reply> {
        let mut log = opened();
        log.push(Reply::MaybeUser(None));
        log
    }
    assert_eq!(profile(script).1, "Profile(UserId { id: 2 }, User)");
}

#[test]
fn profile_needs_a_client_id() {
    fn script() -> Vec<Reply> {
        let mut log = opened();
        log.push(Reply::MaybeUser(Some(user(2))));
        log.push(Reply::MaybeBytes(None));
        log
    }
    assert_eq!(profile(script).1, "Profile(UserId { id: 2 }, ClientId)");
}

#[test]
fn profile_needs_a_client() {
    fn script() -> Vec<Reply> {
        let mut log = opened();
        log.push(Reply::MaybeUser(Some(user(2))));
        log.push(Reply::MaybeBytes(Some(b"c-7".to_vec())));
        log.push(Reply::MaybeClient(None));
        log
    }
    assert_eq!(profile(script).1, "Profile(UserId { id: 2 }, Client)");
}

#[test]
fn profile_needs_a_cookie() {
    fn script() -> Vec<Reply> {
        let mut log = opened();
        log.push(Reply::MaybeUser(Some(user(2))));
        log.push(Reply::MaybeBytes(Some(b"c-7".to_vec())));
        log.push(Reply::MaybeClient(Some(client("c-7"))));
        log.push(Reply::MaybeBytes(Some(b"crumbs".to_vec())));
        log
    }
    assert_eq!(profile(script).1, "Profile(UserId { id: 2 }, Cookie)");
}

#[test]
fn profile_needs_an_access_token() {
    fn script() -> Vec<Reply> {
        let mut log = opened();
        log.push(Reply::MaybeUser(Some(user(2))));
        log.push(Reply::MaybeBytes(Some(b"c-7".to_vec())));
        log.push(Reply::MaybeClient(Some(client("c-7"))));
        log.push(Reply::MaybeBytes(Some(b"a=1".to_vec())));
        log.push(Reply::MaybeBytes(Some(vec![0xc3])));
        log
    }
    assert_eq!(profile(script).1, "Profile(UserId { id: 2 }, AccessToken)");
}

#[test]
fn data_root_must_be_utf8() {
    fn script() -> Vec<Reply> {
        vec![Reply::Flag(true), Reply::Flag(true), Reply::Flag(false)]
    }
    assert_eq!(profile(script).1, "Message(RootNotUtf8)");
}

// Logging in

#[test]
fn user_is_registered_on_a_new_connection_if_need_be() {
    fn script() -> Vec<Reply> {
        vec![
            failed(false, true, 5),
            Reply::Reaction(Some(Reaction::Renew)),
            Reply::Done,
            Reply::Done,
        ]
    }
    let (a, logs) = (connected(), prefixes(script));
    let (asked, end) = play(&logs, |t| a.register_user(t, h(3)).map(|_| "ok".to_string()));
    assert_eq!(asked[0], entry("RegisterUser(Handle { n: 3 })"));
    assert_eq!(asked[2], entry("Reconnect"));
    assert_eq!(asked[3], asked[0]);
    assert_eq!(end, "ok");
}

fn logged_in() -> Vec<Reply> {
    vec![
        Reply::Credentials(credentials()),
        Reply::ApiUser(ApiUser { id: UserId { id: 2 }, deleted: None, record: h(4) }),
        Reply::Flag(true),
        Reply::Flag(true),
        Reply::Handle(h(21)),
        Reply::Done,
        Reply::Flag(true),
        Reply::Handle(h(61)),
        Reply::Flag(true),
        Reply::Done,
        Reply::Done,
        Reply::Done,
    ]
}

fn login(script: fn() -> Vec<Reply>) -> (Vec<String>, String) {
    let (a, logs) = (connected(), prefixes(script));
    play(&logs, |t| a.login(t, h(3)).map(|u| data(u)))
}

#[test]
fn login_with_a_stored_device() {
    fn script() -> Vec<Reply> {
        let mut log = logged_in();
        log.push(Reply::MaybeBytes(Some(b"c-7".to_vec())));
        log.push(Reply::MaybeClient(Some(client("c-7"))));
        log.push(Reply::User(user(2)));
        log.push(Reply::Handle(h(41)));
        log
    }
    let (asked, end) = login(script);
    assert_eq!(asked[0], entry("Login(Handle { n: 3 })"));
    assert!(asked[1].contains("SelfUser(Credentials { token: \"tok\""));
    assert_eq!(asked[4], disk("OpenDatabase", "Database"));
    assert_eq!(asked[7], disk("OpenCryptoBox", "CryptoBox"));
    assert_eq!(asked[8], disk("Exists", "Assets"));
    assert_eq!(asked[9], db21("SetVar(AccessToken, \"tok\")"));
    assert_eq!(asked[10], db21("SetVar(UserCookie, \"zuid=1\")"));
    assert!(asked[11].contains("InsertUser"));
    assert_eq!(asked[13], db21("Client(UserId { id: 2 }, ClientId { text: \"c-7\" })"));
    assert!(asked[14].starts_with("Convert(User("));
    assert!(asked[15].starts_with("HoldFresh(Credentials { token: \"tok\""));
    assert_eq!(end, "user 2 in 21 with 41 as c-7 false 61 at Assets");
}

#[test]
fn login_with_a_device_that_only_the_back_end_knows() {
    fn script() -> Vec<Reply> {
        let mut log = logged_in();
        log.push(Reply::MaybeBytes(Some(b"c-7".to_vec())));
        log.push(Reply::MaybeClient(None));
        log.push(Reply::MaybeApiClient(Some(api_client("c-7"))));
        log.push(Reply::Done);
        log.push(Reply::Client(client("c-7")));
        log.push(Reply::User(user(2)));
        log.push(Reply::Handle(h(41)));
        log
    }
    let (asked, end) = login(script);
    assert!(asked[14].contains("SelfClient(ClientId { text: \"c-7\" }, Credentials"));
    assert!(asked[15].contains("InsertClient(UserId { id: 2 }, ApiClient"));
    assert_eq!(end, "user 2 in 21 with 41 as c-7 false 61 at Assets");
}

#[test]
fn login_with_a_device_that_nobody_knows_fails() {
    fn script() -> Vec<Reply> {
        let mut log = logged_in();
        log.push(Reply::MaybeBytes(Some(b"c-7".to_vec())));
        log.push(Reply::MaybeClient(None));
        log.push(Reply::MaybeApiClient(None));
        log.push(Reply::Reaction(Some(Reaction::Retry)));
        log.push(Reply::Done);
        log.push(Reply::MaybeApiClient(None));
        log.push(Reply::Reaction(None));
        log
    }
    let (asked, end) = login(script);
    assert_eq!(asked[15], "Recover { error: Message(ClientNotFound), failed: 0 }");
    assert_eq!(asked[16], entry("Reconnect"));
    assert_eq!(asked[18], "Recover { error: Message(ClientNotFound), failed: 1 }");
    assert_eq!(end, "Message(ClientNotFound)");
}

fn newly_registered() -> Vec<Reply> {
    let mut log = logged_in();
    log.push(Reply::MaybeBytes(None));
    for i in 0..200 {
        log.push(Reply::Handle(h(5000 + i)));
    }
    log.push(Reply::Handle(h(6000)));
    log.push(Reply::Handle(h(6001)));
    log.push(Reply::Text("abc123".to_string()));
    log.push(Reply::ApiClient(api_client("c-9")));
    log.push(Reply::Done);
    log.push(Reply::Done);
    log.push(Reply::Client(client("c-9")));
    log.push(Reply::User(user(2)));
    log.push(Reply::Handle(h(41)));
    log
}

#[test]
fn login_without_a_device_registers_one() {
    let (asked, end) = login(newly_registered);
    assert_eq!(asked[13], "Crypt(Handle { n: 61 }, NewPrekey(0))");
    assert_eq!(asked[212], "Crypt(Handle { n: 61 }, NewPrekey(199))");
    assert_eq!(asked[213], "Crypt(Handle { n: 61 }, NewPrekey(65535))");
    assert_eq!(asked[214], "NewSignalingKeys");
    assert_eq!(asked[215], "Crypt(Handle { n: 61 }, Fingerprint)");
    let r = &asked[216];
    assert!(r.contains("RegisterClient(Enrolment { prekeys: [Handle { n: 5000 }, "));
    assert!(r.contains(
        "Handle { n: 5199 }], last_prekey: Handle { n: 6000 }, \
         sig_keys: Handle { n: 6001 }, ctype: Permanent, class: Desktop, label: None, \
         cookie_label: \"Coax-abc123\", model: \"Coax\", login: Handle { n: 3 } }"
    ));
    assert_eq!(asked[217], db21("SetVar(MyClientId, \"c-9\")"));
    assert!(asked[218].contains("InsertClient"));
    assert_eq!(end, "user 2 in 21 with 41 as c-9 true 61 at Assets");
}

/// A database as a login fills it: the variables, and the devices of user 2.
#[derive(Default)]
struct Shelf {
    vars: Vec<(String, Vec<u8>)>,
    devices: Vec<String>,
}

fn between<'a>(s: &'a str, before: &str, after: &str) -> &'a str {
    let rest = &s[s.find(before).unwrap() + before.len()..];
    &rest[..rest.find(after).unwrap()]
}

impl Shelf {
    fn filled(asked: &Vec<String>) -> Shelf {
        let mut shelf = Shelf::default();
        for q in asked {
            if q.contains("SetVar(") {
                let name = between(q, "SetVar(", ",").to_string();
                shelf.vars.push((name, between(q, ", \"", "\")").as_bytes().to_vec()));
            }
            if q.contains("InsertClient(UserId { id: 2 }") {
                shelf.devices.push(between(q, "ClientId { text: \"", "\"").to_string());
            }
        }
        shelf
    }

    fn var(&self, name: &str) -> Reply {
        Reply::MaybeBytes(self.vars.iter().rev().find(|v| v.0 == name).map(|v| v.1.clone()))
    }

    fn device(&self, id: &str) -> Reply {
        Reply::MaybeClient(if self.devices.iter().any(|d| d == id) { Some(client(id)) } else { None })
    }
}

#[test]
fn profile_after_a_login_is_that_of_the_login() {
    let (asked, end) = login(newly_registered);
    assert_eq!(end, "user 2 in 21 with 41 as c-9 true 61 at Assets");
    let shelf = Shelf::filled(&asked);
    let mut log = opened();
    log.push(Reply::MaybeUser(Some(user(2))));
    log.push(shelf.var("MyClientId"));
    log.push(shelf.device("c-9"));
    log.push(shelf.var("UserCookie"));
    log.push(shelf.var("AccessToken"));
    log.push(Reply::Flag(true));
    log.push(Reply::Handle(h(61)));
    let a = Actor::new(config());
    match a.profile(&mut Tape::new(&log), UserId { id: 2 }) {
        Err(Stop::Ask(q)) => assert_eq!(
            format!("{:?}", q),
            "HoldStored { token: \"tok\", cookie: \"zuid=1\", valid_for: 0 }"
        ),
        _ => panic!("the token and the cookie are read back"),
    }
    log.push(Reply::Handle(h(42)));
    match a.profile(&mut Tape::new(&log), UserId { id: 2 }) {
        Ok(u) => assert_eq!(data(u), "user 2 in 21 with 42 as c-9 false 61 at Assets"),
        _ => panic!("nothing is lacking"),
    };
}

#[test]
fn device_is_new_if_the_login_registered_it() {
    let log = newly_registered();
    let a = connected();
    let me = match a.login(&mut Tape::new(&log), h(3)) {
        Ok(me) => me,
        _ => panic!("the login succeeds"),
    };
    let on = Actor::new(config()).online(h(30), me, h(70));
    assert!(on.is_new_client());
    assert!(on.offline().online(h(31)).is_new_client());
    let mut log = logged_in();
    log.push(Reply::MaybeBytes(Some(b"c-7".to_vec())));
    log.push(Reply::MaybeClient(Some(client("c-7"))));
    log.push(Reply::User(user(2)));
    log.push(Reply::Handle(h(41)));
    let me = match a.login(&mut Tape::new(&log), h(3)) {
        Ok(me) => me,
        _ => panic!("the login succeeds"),
    };
    assert!(!Actor::new(config()).online(h(30), me, h(70)).is_new_client());
}

// Connecting

#[test]
fn connection_has_timeouts() {
    fn script() -> Vec<Reply> {
        vec![Reply::Handle(h(31)), Reply::Done, Reply::Done]
    }
    let (a, logs) = (Actor::new(config()), prefixes(script));
    let (asked, end) = play(&logs, |t| a.connect(t).map(|c| c.n.to_string()));
    assert_eq!(
        asked[0],
        "Connect { url: \"https://prod.example.com/\", domain: \"prod.example.com\" }"
    );
    assert_eq!(asked[1], "Api(Link { client: Handle { n: 31 }, creds: None }, ReadTimeout(10))");
    assert_eq!(asked[2], "Api(Link { client: Handle { n: 31 }, creds: None }, WriteTimeout(10))");
    assert_eq!(end, "31");
}

#[test]
fn host_must_have_a_domain() {
    fn script() -> Vec<Reply> {
        vec![]
    }
    let mut c = config();
    c.host_url = "https://10.0.0.1".to_string();
    let (a, logs) = (Actor::new(c), prefixes(script));
    assert_eq!(play(&logs, |t| a.connect(t).map(|c| c.n.to_string())).1, "Message(HostWithoutDomain)");
    let mut c = config();
    c.host_url = "prod".to_string();
    let a = Actor::new(c);
    assert_eq!(play(&logs, |t| a.connect(t).map(|c| c.n.to_string())).1, "Address");
}

#[test]
fn clone_has_its_own_database_and_connection() {
    fn script() -> Vec<Reply> {
        vec![
            Reply::Flag(true),
            Reply::Flag(true),
            Reply::Handle(h(22)),
            Reply::Done,
            failed(false, true, 5),
            Reply::Reaction(Some(Reaction::Other)),
            Reply::Handle(h(32)),
            Reply::Done,
            Reply::Done,
        ]
    }
    let (a, logs) = (online(), prefixes(script));
    let (asked, end) = play(&logs, |t| {
        a.new_inbox(t).map(|i| {
            let s = &i.actor.state;
            format!(
                "{} {} {} {} {} {} {}",
                s.user.dbase.n,
                s.client.n,
                s.user.creds.n,
                s.bcast.n,
                s.user.user.record.n,
                s.user.device.client.id.as_str(),
                i.actor.config.host_url
            )
        })
    });
    assert!(asked[5].ends_with("failed: 0 }"));
    assert_eq!(end, "22 32 40 70 1001 me https://prod.example.com");
}

#[test]
fn socket_is_opened_for_our_device() {
    fn script() -> Vec<Reply> {
        vec![
            failed(true, false, 5),
            Reply::Reaction(Some(Reaction::Other)),
            Reply::Handle(h(77)),
        ]
    }
    let (i, logs) = (Inbox { actor: online() }, prefixes(script));
    let (asked, end) = play(&logs, |t| i.connect(t).map(|s| s.n.to_string()));
    let q = "OpenSocket { url: \"wss://push.example.com/await?client=me\", \
             domain: \"push.example.com\", creds: Handle { n: 40 } }";
    assert_eq!(asked[0], q);
    assert_eq!(asked[2], q);
    assert_eq!(end, "77");
}

#[test]
fn websocket_must_have_a_domain() {
    fn script() -> Vec<Reply> {
        vec![]
    }
    let logs = prefixes(script);
    let mut c = config();
    c.host_websocket = "wss://10.0.0.1/".to_string();
    let i = Inbox { actor: Actor::new(c).online(h(30), me(), h(70)) };
    let (_, end) = play(&logs, |t| i.connect(t).map(|s| s.n.to_string()));
    assert_eq!(end, "Message(WebsocketWithoutDomain)");
    let mut c = config();
    c.host_websocket = "push".to_string();
    let i = Inbox { actor: Actor::new(c).online(h(30), me(), h(70)) };
    assert_eq!(play(&logs, |t| i.connect(t).map(|s| s.n.to_string())).1, "Address");
}

// Listening

#[test]
fn renewal_tries_both_steps() {
    fn script() -> Vec<Reply> {
        vec![
            failed(false, true, 5),
            Reply::NewAccess(coax_actor::model::NewAccess { token: "t".to_string(), cookie: None }),
            Reply::Done,
        ]
    }
    let (i, logs) = (Inbox { actor: online() }, prefixes(script));
    let (asked, end) = play(&logs, |t| i.renew(t).map(|_| "ok".to_string()));
    assert_eq!(asked[0], api("Reconnect"));
    assert_eq!(asked[1], api("RenewAccess"));
    assert!(end.contains("Handle { n: 5 }"));
}

#[test]
fn renewal_fails_with_its_second_step() {
    fn script() -> Vec<Reply> {
        vec![Reply::Done, failed(false, true, 6)]
    }
    let (i, logs) = (Inbox { actor: online() }, prefixes(script));
    let (_, end) = play(&logs, |t| i.renew(t).map(|_| "ok".to_string()));
    assert!(end.contains("Handle { n: 6 }"));
}

#[test]
fn renewal_succeeds_with_both_steps() {
    fn script() -> Vec<Reply> {
        vec![
            Reply::Done,
            Reply::NewAccess(coax_actor::model::NewAccess { token: "t".to_string(), cookie: None }),
            Reply::Done,
        ]
    }
    let (i, logs) = (Inbox { actor: online() }, prefixes(script));
    assert_eq!(play(&logs, |t| i.renew(t).map(|_| "ok".to_string())).1, "ok");
}

#[test]
fn inbox_listens_and_handles_in_turn() {
    let i = Inbox { actor: online() };
    let p = i.start();
    assert!(matches!(p.act(), Act::Listen));
    let p = p.step(Outcome::Success);
    assert!(matches!(p.act(), Act::Handle));
    assert_eq!(p.step(Outcome::Failure), Phase::Listening);
    assert_eq!(p.step(Outcome::Success), Phase::Listening);
}

#[test]
fn rests_grow_to_thirty_seconds() {
    let mut p = Phase::Listening.step(Outcome::Failure);
    assert!(matches!(p.act(), Act::Broadcast(Pkg::Disconnected)));
    p = p.step(Outcome::Success);
    let mut rests = Vec::new();
    for _ in 0..32 {
        assert!(matches!(p.act(), Act::Reopen));
        p = p.step(Outcome::Failure);
        match p.act() {
            Act::Sleep(s) => rests.push(s),
            _ => panic!("no rest"),
        }
        p = p.step(Outcome::Success);
    }
    assert_eq!(rests[0], 2);
    assert_eq!(rests[1], 3);
    assert_eq!(rests[28], 30);
    assert_eq!(rests[31], 30);
    p = p.step(Outcome::Success);
    assert!(matches!(p.act(), Act::Broadcast(Pkg::Connected)));
    assert_eq!(p.step(Outcome::Success), Phase::Listening);
}

#[test]
fn refused_socket_renews_access() {
    let p = Phase::Reopening { wait: 4 }.step(Outcome::Unauthorised);
    assert!(matches!(p.act(), Act::Renew));
    assert_eq!(p.step(Outcome::Success), Phase::Reopening { wait: 4 });
    assert_eq!(p.step(Outcome::Failure), Phase::Resting { wait: 5 });
    assert_eq!(p.step(Outcome::Unauthorised), Phase::Resting { wait: 5 });
}

// Assets

fn with_icon() -> User {
    User { icon: Some(AssetKey { text: "k-1".to_string() }), ..user(2) }
}

#[test]
fn user_without_icon_has_an_empty_one() {
    fn script() -> Vec<Reply> {
        vec![]
    }
    let (a, logs, u) = (online(), prefixes(script), user(2));
    let (_, end) = play(&logs, |t| a.load_user_icon(t, &u).map(|d| format!("{:?}", d)));
    assert_eq!(end, "[]");
    let off = Actor::new(config()).offline(me(), h(70));
    let (_, end) = play(&logs, |t| off.load_user_icon(t, &u).map(|d| format!("{:?}", d)));
    assert_eq!(end, "[]");
}

#[test]
fn stored_icon_is_read() {
    fn script() -> Vec<Reply> {
        vec![Reply::Flag(true), Reply::Handle(h(88)), Reply::Bytes(vec![7, 8])]
    }
    let (logs, u) = (prefixes(script), with_icon());
    let off = Actor::new(config()).offline(me(), h(70));
    let (asked, end) = play(&logs, |t| off.load_user_icon(t, &u).map(|d| format!("{:?}", d)));
    assert_eq!(
        asked[0],
        "Disk(AssetExists(Place { root: \"/var/coax\", user: UserId { id: 1 }, leaf: Assets }, \
         AssetKey { text: \"k-1\" }))"
    );
    assert_eq!(asked[2], "Disk(ReadAll(Handle { n: 88 }))");
    assert_eq!(end, "[7, 8]");
    let a = online();
    assert_eq!(play(&logs, |t| a.load_user_icon(t, &u).map(|d| format!("{:?}", d))).1, "[7, 8]");
}

#[test]
fn missing_icon_is_not_downloaded_offline() {
    fn script() -> Vec<Reply> {
        vec![Reply::Flag(false)]
    }
    let (logs, u) = (prefixes(script), with_icon());
    let off = Actor::new(config()).offline(me(), h(70));
    assert_eq!(play(&logs, |t| off.load_user_icon(t, &u).map(|d| format!("{:?}", d))).1, "[]");
}

#[test]
fn missing_icon_is_downloaded_online() {
    fn script() -> Vec<Reply> {
        vec![
            Reply::Flag(false),
            Reply::Text("https://CDN.example.com/k-1?sig=2".to_string()),
            Reply::Status(200),
            Reply::Done,
            Reply::Done,
            Reply::Handle(h(88)),
            Reply::Bytes(vec![7]),
        ]
    }
    let (a, logs, u) = (online(), prefixes(script), with_icon());
    let (asked, end) = play(&logs, |t| a.load_user_icon(t, &u).map(|d| format!("{:?}", d)));
    assert_eq!(asked[1], api("AssetUrl(AssetKey { text: \"k-1\" })"));
    assert_eq!(
        asked[2],
        api("Download { url: \"https://CDN.example.com/k-1?sig=2\", host: \"cdn.example.com\" }")
    );
    assert!(asked[3].starts_with("Disk(SaveDownload("));
    assert!(asked[4].starts_with("Disk(PublishDownload("));
    assert!(asked[5].starts_with("Disk(OpenAsset("));
    assert_eq!(end, "[7]");
}

#[test]
fn icon_that_is_not_served_is_empty() {
    fn script() -> Vec<Reply> {
        vec![
            Reply::Flag(false),
            Reply::Text("https://cdn.example.com/k-1".to_string()),
            Reply::Status(404),
        ]
    }
    let (a, logs, u) = (online(), prefixes(script), with_icon());
    assert_eq!(play(&logs, |t| a.load_user_icon(t, &u).map(|d| format!("{:?}", d))).1, "[]");
}

#[test]
fn asset_address_must_have_a_host() {
    fn script() -> Vec<Reply> {
        vec![
            Reply::Flag(false),
            Reply::Text("data:,x".to_string()),
            Reply::Reaction(None),
        ]
    }
    let (a, logs, u) = (online(), prefixes(script), with_icon());
    let (asked, end) = play(&logs, |t| a.load_user_icon(t, &u).map(|d| format!("{:?}", d)));
    assert_eq!(asked[2], "Recover { error: Message(AssetWithoutHost), failed: 0 }");
    assert_eq!(end, "Message(AssetWithoutHost)");
}

// Browsing

#[test]
fn rows_are_read_from_the_database() {
    fn script() -> Vec<Reply> {
        vec![
            Reply::Rows(Rows { record: h(1) }),
            Reply::Rows(Rows { record: h(2) }),
            Reply::Rows(Rows { record: h(3) }),
        ]
    }
    let logs = prefixes(script);
    let (a, off) = (online(), Actor::new(config()).offline(me(), h(70)));
    let (asked, end) = play(&logs, |t| {
        let c = a.load_conversations(t, None, 5)?;
        let m = a.load_messages(t, ConvId { id: 8 }, Some(h(9)), 6)?;
        let k = a.load_contacts(t)?;
        Ok(format!("{} {} {}", c.record.n, m.record.n, k.record.n))
    });
    let expected = vec![
        db("Conversations(None, 5)"),
        db("Messages(ConvId { id: 8 }, Some(Handle { n: 9 }), 6)"),
        db("Connections"),
    ];
    assert_eq!(asked, expected);
    assert_eq!(end, "1 2 3");
    let (asked, end) = play(&logs, |t| {
        let c = off.load_conversations(t, None, 5)?;
        let m = off.load_messages(t, ConvId { id: 8 }, Some(h(9)), 6)?;
        let k = off.load_contacts(t)?;
        Ok(format!("{} {} {}", c.record.n, m.record.n, k.record.n))
    });
    assert_eq!(asked, expected);
    assert_eq!(end, "1 2 3");
}

#[test]
fn user_is_read_from_the_database_as_it_is() {
    fn script() -> Vec<Reply> {
        vec![Reply::MaybeUser(Some(User { deleted: true, ..user(2) }))]
    }
    let (off, logs) = (Actor::new(config()).offline(me(), h(70)), prefixes(script));
    let (asked, end) = play(&logs, |t| {
        off.load_user(t, UserId { id: 2 }).map(|u| u.as_ref().unwrap().deleted.to_string())
    });
    assert_eq!(asked, vec![db("User(UserId { id: 2 })")]);
    assert_eq!(end, "true");
}
