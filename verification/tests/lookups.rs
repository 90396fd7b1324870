use coax_actor::actor::{Actor, Device, Online, UserData};
use coax_actor::model::{
    ApiClient, ApiConversation, ApiUser, Client, ClientId, Config, Connection, ConnectStatus, ConvId,
    ConvType, Conversation, Failure, Handle, Leaf, Member, Page, Place, Reaction, Time, User,
    UserConnection, UserId,
};
use coax_actor::query::Roster;
use coax_actor::tape::{Reply, Stop, Tape};

fn config() -> Config {
    Config {
        host_url: "https://prod.example.com".to_string(),
        host_websocket: "wss://push.example.com/await".to_string(),
        data_root: "/var/coax".to_string(),
    }
}

fn user(id: u128) -> User {
    User { id: UserId { id }, deleted: false, icon: None, record: h(1000 + id as u64) }
}

fn client(id: &str) -> Client {
    Client { id: ClientId::new(id.to_string()), record: h(50) }
}

fn h(n: u64) -> Handle {
    Handle { n }
}

fn me() -> UserData {
    UserData {
        user: user(1),
        dbase: h(20),
        creds: h(40),
        device: Device { fresh: false, client: client("me"), cbox: h(60) },
        assets: Place { root: "/var/coax".to_string(), user: UserId { id: 1 }, leaf: Leaf::Assets },
    }
}

fn online() -> Actor<Online> {
    Actor::new(config()).online(h(30), me(), h(70))
}

fn db(q: &str) -> String {
    format!("Db(Handle {{ n: 20 }}, {})", q)
}

fn api(q: &str) -> String {
    format!("Api(Link {{ client: Handle {{ n: 30 }}, creds: Some(Handle {{ n: 40 }}) }}, {})", q)
}

fn failed(unauthorised: bool, retriable: bool, n: u64) -> Reply {
    Reply::Failed(Failure { unauthorised, retriable, mismatch: None, record: h(n) })
}

fn prefixes(script: fn() -> Vec<Reply>) -> Vec<Vec<Reply>> {
    let mut all = Vec::new();
    for k in 0..script().len() + 1 {
        let mut log = script();
        log.truncate(k);
        all.push(log);
    }
    all
}

/// Runs an operation over longer and longer tapes, as a driver does, and collects the questions.
fn play<'a>(
    logs: &'a Vec<Vec<Reply>>,
    op: impl Fn(&mut Tape<'a>) -> Result<String, Stop<'a>>,
) -> (Vec<String>, String) {
    let mut asked = Vec::new();
    let mut end = String::new();
    for log in logs {
        assert_eq!(end, "", "more answers than questions");
        let mut tape = Tape::new(log);
        end = match op(&mut tape) {
            Err(Stop::Ask(q)) => {
                asked.push(format!("{:?}", q));
                String::new()
            }
            Err(Stop::Fail(e)) => format!("{:?}", e),
            Err(Stop::Stray) => "stray".to_string(),
            Ok(s) => s,
        }
    }
    (asked, end)
}

fn api_user(id: u128, deleted: Option<bool>) -> ApiUser {
    ApiUser { id: UserId { id }, deleted, record: h(2000 + id as u64) }
}

fn conversation() -> Conversation {
    Conversation { id: ConvId { id: 8 }, members: vec![UserId { id: 2 }], record: h(80) }
}

fn api_conversation(typ: ConvType, current: bool) -> ApiConversation {
    ApiConversation {
        id: ConvId { id: 8 },
        creator: UserId { id: 2 },
        typ,
        current,
        others: vec![
            Member { id: UserId { id: 1 }, current: true },
            Member { id: UserId { id: 3 }, current: false },
            Member { id: UserId { id: 4 }, current: true },
        ],
        record: h(81),
    }
}

fn name(u: Option<&User>) -> String {
    match u {
        Some(u) => format!("user {} of {}", u.id.id, u.record.n),
        None => "nobody".to_string(),
    }
}

// Users

#[test]
fn local_user_is_returned_right_away() {
    fn script() -> Vec<Reply> {
        vec![Reply::MaybeUser(Some(user(2)))]
    }
    let (a, logs) = (online(), prefixes(script));
    let (asked, end) =
        play(&logs, |t| a.resolve_user(t, UserId { id: 2 }, true).map(|u| name(u)));
    assert_eq!(asked, vec![db("User(UserId { id: 2 })")]);
    assert_eq!(end, "user 2 of 1002");
}

#[test]
fn deleted_local_user_is_nobody() {
    fn script() -> Vec<Reply> {
        vec![Reply::MaybeUser(Some(User { deleted: true, ..user(2) }))]
    }
    let (a, logs) = (online(), prefixes(script));
    let (asked, end) =
        play(&logs, |t| a.resolve_user(t, UserId { id: 2 }, true).map(|u| name(u)));
    assert_eq!(asked.len(), 1);
    assert_eq!(end, "nobody");
}

#[test]
fn unknown_user_is_fetched_and_stored() {
    fn script() -> Vec<Reply> {
        vec![
            Reply::MaybeUser(None),
            Reply::MaybeApiUser(Some(api_user(2, None))),
            Reply::Done,
            Reply::User(user(2)),
        ]
    }
    let (a, logs) = (online(), prefixes(script));
    let (asked, end) =
        play(&logs, |t| a.resolve_user(t, UserId { id: 2 }, true).map(|u| name(u)));
    let fetched = "ApiUser { id: UserId { id: 2 }, deleted: None, record: Handle { n: 2002 } }";
    assert_eq!(
        asked,
        vec![
            db("User(UserId { id: 2 })"),
            api("User(UserId { id: 2 })"),
            db(&format!("InsertUser({})", fetched)),
            format!("Convert(User({}))", fetched),
        ]
    );
    assert_eq!(end, "user 2 of 1002");
}

#[test]
fn deleted_user_is_stored_but_not_returned() {
    fn script() -> Vec<Reply> {
        vec![Reply::MaybeApiUser(Some(api_user(2, Some(true)))), Reply::Done]
    }
    let (a, logs) = (online(), prefixes(script));
    let (asked, end) =
        play(&logs, |t| a.resolve_user(t, UserId { id: 2 }, false).map(|u| name(u)));
    assert_eq!(asked.len(), 2);
    assert!(asked[1].contains("InsertUser"));
    assert_eq!(end, "nobody");
}

#[test]
fn user_unknown_to_everyone_is_nobody() {
    fn script() -> Vec<Reply> {
        vec![Reply::MaybeApiUser(None)]
    }
    let (a, logs) = (online(), prefixes(script));
    let (asked, end) =
        play(&logs, |t| a.resolve_user(t, UserId { id: 2 }, false).map(|u| name(u)));
    assert_eq!(asked, vec![api("User(UserId { id: 2 })")]);
    assert_eq!(end, "nobody");
}

#[test]
fn answer_of_the_wrong_kind_is_stray() {
    fn script() -> Vec<Reply> {
        vec![Reply::Flag(true)]
    }
    let (a, logs) = (online(), prefixes(script));
    let (_, end) = play(&logs, |t| a.resolve_user(t, UserId { id: 2 }, true).map(|u| name(u)));
    assert_eq!(end, "stray");
}

// Devices

#[test]
fn local_client_is_returned_right_away() {
    fn script() -> Vec<Reply> {
        vec![Reply::MaybeClient(Some(client("c1")))]
    }
    let (a, logs) = (online(), prefixes(script));
    let id = ClientId::new("c1".to_string());
    let (asked, end) = play(&logs, |t| {
        a.resolve_client(t, UserId { id: 2 }, &id).map(|c| c.unwrap().id.as_str().to_string())
    });
    assert_eq!(asked, vec![db("Client(UserId { id: 2 }, ClientId { text: \"c1\" })")]);
    assert_eq!(end, "c1");
}

#[test]
fn unknown_client_is_fetched_and_stored() {
    fn script() -> Vec<Reply> {
        vec![
            Reply::MaybeClient(None),
            Reply::MaybeApiClient(Some(ApiClient {
                id: ClientId::new("c1".to_string()),
                record: h(5),
            })),
            Reply::Done,
            Reply::Client(client("c1")),
        ]
    }
    let (a, logs) = (online(), prefixes(script));
    let id = ClientId::new("c1".to_string());
    let (asked, end) = play(&logs, |t| {
        a.resolve_client(t, UserId { id: 2 }, &id).map(|c| c.unwrap().record.n.to_string())
    });
    let fetched = "ApiClient { id: ClientId { text: \"c1\" }, record: Handle { n: 5 } }";
    assert_eq!(asked[1], api("Client(UserId { id: 2 }, ClientId { text: \"c1\" })"));
    assert_eq!(asked[2], db(&format!("InsertClient(UserId {{ id: 2 }}, {})", fetched)));
    assert_eq!(asked[3], format!("Convert(Client(UserId {{ id: 2 }}, {}))", fetched));
    assert_eq!(end, "50");
}

#[test]
fn client_unknown_to_everyone_is_none() {
    fn script() -> Vec<Reply> {
        vec![Reply::MaybeClient(None), Reply::MaybeApiClient(None)]
    }
    let (a, logs) = (online(), prefixes(script));
    let id = ClientId::new("c1".to_string());
    let (_, end) =
        play(&logs, |t| a.resolve_client(t, UserId { id: 2 }, &id).map(|c| format!("{:?}", c)));
    assert_eq!(end, "None");
}

#[test]
fn local_clients_are_returned_in_order() {
    fn script() -> Vec<Reply> {
        vec![Reply::Clients(vec![client("x"), client("y")])]
    }
    let (a, logs) = (online(), prefixes(script));
    let (asked, end) = play(&logs, |t| {
        a.resolve_clients(t, UserId { id: 2 })
            .map(|cs| cs.iter().map(|c| c.id.as_str().to_string()).collect::<Vec<_>>().join(","))
    });
    assert_eq!(asked, vec![db("Clients(UserId { id: 2 })")]);
    assert_eq!(end, "x,y");
}

#[test]
fn unknown_clients_are_fetched_stored_and_converted() {
    fn script() -> Vec<Reply> {
        vec![
            Reply::Clients(vec![]),
            Reply::ApiClients(vec![
                ApiClient { id: ClientId::new("x".to_string()), record: h(5) },
                ApiClient { id: ClientId::new("y".to_string()), record: h(6) },
            ]),
            Reply::Done,
            Reply::Client(client("x")),
            Reply::Client(client("y")),
        ]
    }
    let (a, logs) = (online(), prefixes(script));
    let (asked, end) = play(&logs, |t| {
        a.resolve_clients(t, UserId { id: 2 })
            .map(|cs| cs.iter().map(|c| c.id.as_str().to_string()).collect::<Vec<_>>().join(","))
    });
    assert_eq!(asked[1], api("Clients(UserId { id: 2 })"));
    assert!(asked[2].contains("InsertClients"));
    assert!(asked[3].contains("\"x\"") && asked[3].starts_with("Convert"));
    assert!(asked[4].contains("\"y\"") && asked[4].starts_with("Convert"));
    assert_eq!(end, "x,y");
}

// Conversations

#[test]
fn local_conversation_is_returned_right_away() {
    fn script() -> Vec<Reply> {
        vec![Reply::MaybeConversation(Some(conversation()))]
    }
    let (a, logs) = (online(), prefixes(script));
    let (asked, end) = play(&logs, |t| {
        a.resolve_conversation(t, ConvId { id: 8 }).map(|c| c.unwrap().record.n.to_string())
    });
    assert_eq!(asked, vec![db("Conversation(ConvId { id: 8 })")]);
    assert_eq!(end, "80");
}

#[test]
fn unknown_conversation_is_taken_in() {
    fn script() -> Vec<Reply> {
        vec![
            Reply::MaybeConversation(None),
            Reply::MaybeApiConversation(Some(api_conversation(ConvType::OneToOne, true))),
            Reply::MaybeUser(Some(user(2))),
            Reply::MaybeUser(Some(user(4))),
            Reply::Time(Time { secs: 77, nanos: 5 }),
            Reply::Done,
            Reply::Conversation(conversation()),
        ]
    }
    let (a, logs) = (online(), prefixes(script));
    let (asked, end) = play(&logs, |t| {
        a.resolve_conversation(t, ConvId { id: 8 }).map(|c| c.unwrap().record.n.to_string())
    });
    assert_eq!(asked[1], api("Conversation(ConvId { id: 8 })"));
    assert_eq!(asked[2], db("User(UserId { id: 2 })"));
    assert_eq!(asked[3], db("User(UserId { id: 4 })"));
    assert_eq!(asked[4], "Now");
    assert!(asked[5].starts_with(
        "Db(Handle { n: 20 }, InsertConversation(Time { secs: 77, nanos: 5 }, Current(ApiConv"
    ));
    assert!(asked[6]
        .starts_with("Convert(Conversation(Time { secs: 77, nanos: 5 }, Current(ApiConv"));
    assert_eq!(end, "80");
}

#[test]
fn conversation_without_its_peer_is_ignored() {
    fn script() -> Vec<Reply> {
        vec![
            Reply::MaybeConversation(None),
            Reply::MaybeApiConversation(Some(api_conversation(ConvType::OneToOne, true))),
            Reply::MaybeUser(Some(user(2))),
            Reply::MaybeUser(None),
            Reply::MaybeApiUser(None),
        ]
    }
    let (a, logs) = (online(), prefixes(script));
    let (_, end) = play(&logs, |t| {
        a.resolve_conversation(t, ConvId { id: 8 }).map(|c| format!("{:?}", c))
    });
    assert_eq!(end, "None");
}

#[test]
fn group_without_other_members_is_kept() {
    fn script() -> Vec<Reply> {
        vec![
            Reply::MaybeConversation(None),
            Reply::MaybeApiConversation(Some(api_conversation(ConvType::Other, true))),
            Reply::MaybeUser(Some(user(2))),
            Reply::MaybeUser(Some(User { deleted: true, ..user(4) })),
            Reply::Time(Time { secs: 77, nanos: 5 }),
            Reply::Done,
            Reply::Conversation(conversation()),
        ]
    }
    let (a, logs) = (online(), prefixes(script));
    let (_, end) = play(&logs, |t| {
        a.resolve_conversation(t, ConvId { id: 8 }).map(|c| c.unwrap().record.n.to_string())
    });
    assert_eq!(end, "80");
}

#[test]
fn conversation_that_we_left_is_ignored() {
    fn script() -> Vec<Reply> {
        vec![
            Reply::MaybeConversation(None),
            Reply::MaybeApiConversation(Some(api_conversation(ConvType::Other, false))),
        ]
    }
    let (a, logs) = (online(), prefixes(script));
    let (_, end) = play(&logs, |t| {
        a.resolve_conversation(t, ConvId { id: 8 }).map(|c| format!("{:?}", c))
    });
    assert_eq!(end, "None");
}

#[test]
fn conversation_unknown_to_everyone_is_none() {
    fn script() -> Vec<Reply> {
        vec![Reply::MaybeConversation(None), Reply::MaybeApiConversation(None)]
    }
    let (a, logs) = (online(), prefixes(script));
    let (_, end) = play(&logs, |t| {
        a.resolve_conversation(t, ConvId { id: 8 }).map(|c| format!("{:?}", c))
    });
    assert_eq!(end, "None");
}

#[test]
fn roster_of_current_members_leaves_out_the_others() {
    let c = api_conversation(ConvType::Other, true);
    assert_eq!(Roster::Current(&c).members(), vec![UserId { id: 1 }, UserId { id: 4 }]);
    assert_eq!(
        Roster::Whole(&c).members(),
        vec![UserId { id: 1 }, UserId { id: 3 }, UserId { id: 4 }]
    );
    let others = vec![UserId { id: 6 }];
    let own = Roster::Own { id: ConvId { id: 1 }, creator: UserId { id: 1 }, name: "n", others: &others };
    assert_eq!(own.members(), vec![UserId { id: 6 }]);
}

// Listings

#[test]
fn pages_of_conversations_follow_one_another() {
    fn script() -> Vec<Reply> {
        vec![
            Reply::ConvIds(Page { value: vec![ConvId { id: 8 }, ConvId { id: 9 }], has_more: true }),
            Reply::MaybeConversation(Some(conversation())),
            Reply::MaybeConversation(Some(conversation())),
            Reply::ConvIds(Page { value: vec![ConvId { id: 10 }], has_more: false }),
            Reply::MaybeConversation(Some(conversation())),
        ]
    }
    let (a, logs) = (online(), prefixes(script));
    let (asked, end) = play(&logs, |t| a.resolve_conversations(t).map(|_| "ok".to_string()));
    assert_eq!(
        asked,
        vec![
            api("Conversations(256, None)"),
            db("Conversation(ConvId { id: 8 })"),
            db("Conversation(ConvId { id: 9 })"),
            api("Conversations(256, Some(ConvId { id: 9 }))"),
            db("Conversation(ConvId { id: 10 })"),
        ]
    );
    assert_eq!(end, "ok");
}

#[test]
fn empty_page_of_conversations_is_the_last() {
    fn script() -> Vec<Reply> {
        vec![Reply::ConvIds(Page { value: vec![], has_more: true })]
    }
    let (a, logs) = (online(), prefixes(script));
    let (asked, end) = play(&logs, |t| a.resolve_conversations(t).map(|_| "ok".to_string()));
    assert_eq!(asked.len(), 1);
    assert_eq!(end, "ok");
}

fn listing(first: u128, n: u128, has_more: bool) -> Reply {
    Reply::ConvIds(Page { value: (first..first + n).map(|id| ConvId { id }).collect(), has_more })
}

fn found(log: &mut Vec<Reply>, n: usize) {
    for _ in 0..n {
        log.push(Reply::MaybeConversation(Some(conversation())));
    }
}

#[test]
fn a_thousand_conversations_are_resolved_and_no_more() {
    let a = online();
    // Four pages; of the last one, 232 conversations are left to resolve.
    let mut log = Vec::new();
    for page in 0..4 {
        log.push(listing(256 * page, 256, true));
        found(&mut log, if page < 3 { 256 } else { 232 });
    }
    assert_eq!(log.len(), 1004);
    assert!(matches!(a.resolve_conversations(&mut Tape::new(&log)), Ok(())));
    log.pop();
    match a.resolve_conversations(&mut Tape::new(&log)) {
        Err(Stop::Ask(q)) => assert_eq!(format!("{:?}", q), db("Conversation(ConvId { id: 999 })")),
        _ => panic!("one more conversation is looked up"),
    }
}

#[test]
fn no_page_is_fetched_after_a_thousand() {
    let a = online();
    for n in [1000, 1001, 1500] {
        let mut log = vec![listing(0, n, true)];
        found(&mut log, 1000);
        assert!(matches!(a.resolve_conversations(&mut Tape::new(&log)), Ok(())));
    }
    let mut log = vec![listing(0, 999, true)];
    found(&mut log, 999);
    match a.resolve_conversations(&mut Tape::new(&log)) {
        Err(Stop::Ask(q)) => assert_eq!(
            format!("{:?}", q),
            api("Conversations(256, Some(ConvId { id: 998 }))")
        ),
        _ => panic!("another page is fetched"),
    }
}

#[test]
fn connections_to_users_who_are_found_are_stored() {
    fn script() -> Vec<Reply> {
        vec![
            Reply::ApiConnections(Page {
                value: vec![
                    UserConnection { to: UserId { id: 2 }, record: h(2) },
                    UserConnection { to: UserId { id: 3 }, record: h(3) },
                ],
                has_more: true,
            }),
            Reply::MaybeApiUser(Some(api_user(2, Some(false)))),
            Reply::Done,
            Reply::User(user(2)),
            Reply::Done,
            Reply::MaybeApiUser(None),
            Reply::ApiConnections(Page { value: vec![], has_more: true }),
        ]
    }
    let (a, logs) = (online(), prefixes(script));
    let (asked, end) = play(&logs, |t| a.resolve_user_connections(t).map(|_| "ok".to_string()));
    assert_eq!(asked[0], api("Connections(256, None)"));
    assert_eq!(asked[1], api("User(UserId { id: 2 })"));
    assert_eq!(
        asked[4],
        db("InsertConnection(UserConnection { to: UserId { id: 2 }, record: Handle { n: 2 } })")
    );
    assert_eq!(asked[5], api("User(UserId { id: 3 })"));
    assert_eq!(asked[6], api("Connections(256, Some(UserId { id: 3 }))"));
    assert_eq!(end, "ok");
}

// Connections

#[test]
fn local_connection_is_returned_right_away() {
    fn script() -> Vec<Reply> {
        vec![Reply::MaybeConnection(Some(Connection { record: h(9) }))]
    }
    let (a, logs) = (online(), prefixes(script));
    let (asked, end) = play(&logs, |t| {
        a.resolve_connection(t, UserId { id: 2 }).map(|c| c.unwrap().record.n.to_string())
    });
    assert_eq!(asked, vec![db("Connection(UserId { id: 2 })")]);
    assert_eq!(end, "9");
}

#[test]
fn unknown_connection_is_fetched_and_stored() {
    fn script() -> Vec<Reply> {
        vec![
            Reply::MaybeConnection(None),
            Reply::MaybeApiConnection(Some(UserConnection { to: UserId { id: 2 }, record: h(2) })),
            Reply::Done,
            Reply::Connection(Connection { record: h(9) }),
        ]
    }
    let (a, logs) = (online(), prefixes(script));
    let (asked, end) = play(&logs, |t| {
        a.resolve_connection(t, UserId { id: 2 }).map(|c| c.unwrap().record.n.to_string())
    });
    assert_eq!(asked[1], api("Connection(UserId { id: 2 })"));
    assert!(asked[2].contains("InsertConnection"));
    assert!(asked[3].starts_with("Convert(Connection("));
    assert_eq!(end, "9");
}

#[test]
fn connection_unknown_to_everyone_is_none() {
    fn script() -> Vec<Reply> {
        vec![Reply::MaybeConnection(None), Reply::MaybeApiConnection(None)]
    }
    let (a, logs) = (online(), prefixes(script));
    let (_, end) =
        play(&logs, |t| a.resolve_connection(t, UserId { id: 2 }).map(|c| format!("{:?}", c)));
    assert_eq!(end, "None");
}

#[test]
fn new_connection_is_stored_and_read_back() {
    fn script() -> Vec<Reply> {
        vec![
            Reply::ApiConnection(UserConnection { to: UserId { id: 2 }, record: h(2) }),
            Reply::Done,
            Reply::MaybeConnection(Some(Connection { record: h(9) })),
        ]
    }
    let (a, logs) = (online(), prefixes(script));
    let to = user(2);
    let (asked, end) = play(&logs, |t| {
        a.new_connection(t, &to, "Me", "hello").map(|c| c.record.n.to_string())
    });
    assert_eq!(
        asked[0],
        api("Connect { to: UserId { id: 2 }, name: \"Me\", message: \"hello\" }")
    );
    assert!(asked[1].contains("InsertConnection"));
    assert_eq!(asked[2], db("Connection(UserId { id: 2 })"));
    assert_eq!(end, "9");
}

#[test]
fn new_connection_must_be_there_once_stored() {
    fn script() -> Vec<Reply> {
        vec![
            Reply::ApiConnection(UserConnection { to: UserId { id: 2 }, record: h(2) }),
            Reply::Done,
            Reply::MaybeConnection(None),
        ]
    }
    let (a, logs) = (online(), prefixes(script));
    let to = user(2);
    let (_, end) = play(&logs, |t| {
        a.new_connection(t, &to, "Me", "hello").map(|c| c.record.n.to_string())
    });
    assert_eq!(end, "stray");
}

#[test]
fn updated_connection_is_updated_locally() {
    fn script() -> Vec<Reply> {
        vec![Reply::Flag(true), Reply::Done]
    }
    let (a, logs) = (online(), prefixes(script));
    let (asked, end) = play(&logs, |t| {
        a.update_connection(t, UserId { id: 2 }, ConnectStatus { code: 3 }).map(|b| b.to_string())
    });
    assert_eq!(asked[0], api("SetConnectStatus(UserId { id: 2 }, ConnectStatus { code: 3 })"));
    assert_eq!(asked[1], db("UpdateConnection(UserId { id: 2 }, ConnectStatus { code: 3 })"));
    assert_eq!(end, "true");
}

#[test]
fn connection_that_did_not_change_is_left_alone() {
    fn script() -> Vec<Reply> {
        vec![Reply::Flag(false)]
    }
    let (a, logs) = (online(), prefixes(script));
    let (asked, end) = play(&logs, |t| {
        a.update_connection(t, UserId { id: 2 }, ConnectStatus { code: 3 }).map(|b| b.to_string())
    });
    assert_eq!(asked.len(), 1);
    assert_eq!(end, "false");
}

#[test]
fn new_conversation_is_stored_with_us_as_creator() {
    fn script() -> Vec<Reply> {
        vec![
            Reply::ConvId(ConvId { id: 8 }),
            Reply::Time(Time { secs: 77, nanos: 5 }),
            Reply::Done,
            Reply::Conversation(conversation()),
        ]
    }
    let (a, logs) = (online(), prefixes(script));
    let others = vec![UserId { id: 2 }, UserId { id: 3 }];
    let (asked, end) = play(&logs, |t| {
        a.new_conversation(t, "lunch", &others).map(|c| c.record.n.to_string())
    });
    let list = "[UserId { id: 2 }, UserId { id: 3 }]";
    let roster = format!(
        "Own {{ id: ConvId {{ id: 8 }}, creator: UserId {{ id: 1 }}, name: \"lunch\", others: {} }}",
        list
    );
    assert_eq!(
        asked,
        vec![
            api(&format!("CreateConversation {{ name: \"lunch\", others: {} }}", list)),
            "Now".to_string(),
            db(&format!("InsertConversation(Time {{ secs: 77, nanos: 5 }}, {})", roster)),
            format!("Convert(Conversation(Time {{ secs: 77, nanos: 5 }}, {}))", roster),
        ]
    );
    assert_eq!(end, "80");
}

// Attempts

#[test]
fn call_given_up_fails_with_the_last_failure() {
    fn script() -> Vec<Reply> {
        vec![failed(false, true, 5), Reply::Reaction(None)]
    }
    let (a, logs) = (online(), prefixes(script));
    let (asked, end) = play(&logs, |t| {
        a.conversation_ids(t, 3, None).map(|p| p.value.len().to_string())
    });
    let f = "Failed(Failure { unauthorised: false, retriable: true, mismatch: None, \
             record: Handle { n: 5 } })";
    assert_eq!(asked[0], api("Conversations(3, None)"));
    assert_eq!(asked[1], format!("Recover {{ error: {}, failed: 0 }}", f));
    assert_eq!(end, f);
}

#[test]
fn call_taken_up_again_renews_access_first() {
    fn script() -> Vec<Reply> {
        vec![
            failed(true, false, 5),
            Reply::Reaction(Some(Reaction::Renew)),
            Reply::NewAccess(coax_actor::model::NewAccess {
                token: "t2".to_string(),
                cookie: coax_actor::text::Cookie::parse("zuid=2"),
            }),
            Reply::Done,
            Reply::Done,
            Reply::ConvIds(Page { value: vec![], has_more: false }),
        ]
    }
    let (a, logs) = (online(), prefixes(script));
    let (asked, end) = play(&logs, |t| {
        a.conversation_ids(t, 3, Some(ConvId { id: 4 })).map(|p| p.value.len().to_string())
    });
    assert_eq!(asked[0], api("Conversations(3, Some(ConvId { id: 4 }))"));
    assert_eq!(asked[2], api("RenewAccess"));
    assert_eq!(asked[3], db("SetVar(UserCookie, \"zuid=2\")"));
    assert!(asked[4].starts_with("Cred(Handle { n: 40 }, Replace(NewAccess { token: \"t2\""));
    assert_eq!(asked[5], asked[0]);
    assert_eq!(end, "0");
}

#[test]
fn retry_reconnects_and_keeps_a_valid_token() {
    fn script() -> Vec<Reply> {
        vec![
            failed(false, true, 5),
            Reply::Reaction(Some(Reaction::Retry)),
            Reply::Done,
            Reply::Flag(false),
            failed(false, true, 6),
            Reply::Reaction(Some(Reaction::Other)),
            Reply::ApiConnections(Page { value: vec![], has_more: false }),
        ]
    }
    let (a, logs) = (online(), prefixes(script));
    let (asked, end) = play(&logs, |t| {
        a.user_connections(t, 3, None).map(|p| p.has_more.to_string())
    });
    assert_eq!(asked[2], api("Reconnect"));
    assert_eq!(asked[3], "Cred(Handle { n: 40 }, Expired)");
    assert_eq!(asked[4], api("Connections(3, None)"));
    assert!(asked[5].ends_with("failed: 1 }"));
    assert_eq!(asked[6], api("Connections(3, None)"));
    assert_eq!(end, "false");
}

#[test]
fn retry_renews_an_expired_token() {
    fn script() -> Vec<Reply> {
        vec![
            Reply::Done,
            Reply::Flag(true),
            Reply::NewAccess(coax_actor::model::NewAccess { token: "t2".to_string(), cookie: None }),
            Reply::Done,
        ]
    }
    let (a, logs) = (online(), prefixes(script));
    let (asked, end) = play(&logs, |t| a.react(t, Some(Reaction::Retry)).map(|_| "ok".to_string()));
    assert_eq!(asked[2], api("RenewAccess"));
    assert!(asked[3].starts_with("Cred(Handle { n: 40 }, Replace("));
    assert_eq!(end, "ok");
}

#[test]
fn failed_renewal_is_a_failed_attempt() {
    fn script() -> Vec<Reply> {
        vec![
            failed(true, false, 5),
            Reply::Reaction(Some(Reaction::Renew)),
            failed(false, false, 7),
            Reply::Reaction(None),
        ]
    }
    let (a, logs) = (online(), prefixes(script));
    let (asked, end) = play(&logs, |t| {
        a.conversation_ids(t, 3, None).map(|p| p.value.len().to_string())
    });
    assert_eq!(asked.len(), 4);
    assert!(end.contains("Handle { n: 7 }"));
}
