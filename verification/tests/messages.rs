use coax_actor::actor::{Actor, Device, Online, UserData};
use coax_actor::model::{
    ApiClient, ApiConversation, ApiUser, Client, ClientId, ClientMismatch, ClientPrekey, Config,
    Connection, ConvEvent, ConvEventData, ConvId, ConvType, Conversation, Envelope, Error, Event,
    EventType, Failure, Handle, Leaf, Member, MissingClients, NotifId, Notification, OtrMessage,
    OutMessage, Place, Plaintext, QueueItem, QueuePage, Reaction, StreamItem, Time, User,
    UserConnection, UserEvent, UserId, UserPrekeys,
};
use coax_actor::outbox::{on_error, Remedy};
use coax_actor::tape::{Reply, Stop, Tape};

fn config() -> Config {
    Config {
        host_url: "https://prod.example.com".to_string(),
        host_websocket: "wss://push.example.com/await".to_string(),
        data_root: "/var/coax".to_string(),
    }
}

fn user(id: u128) -> User {
    User { id: UserId { id }, deleted: false, icon: None, record: h(1000 + id as u64) }
}

fn client(id: &str) -> Client {
    Client { id: ClientId::new(id.to_string()), record: h(50) }
}

fn h(n: u64) -> Handle {
    Handle { n }
}

fn me() -> UserData {
    UserData {
        user: user(1),
        dbase: h(20),
        creds: h(40),
        device: Device { fresh: false, client: client("me"), cbox: h(60) },
        assets: Place { root: "/var/coax".to_string(), user: UserId { id: 1 }, leaf: Leaf::Assets },
    }
}

fn online() -> Actor<Online> {
    Actor::new(config()).online(h(30), me(), h(70))
}

fn db(q: &str) -> String {
    format!("Db(Handle {{ n: 20 }}, {})", q)
}

fn api(q: &str) -> String {
    format!("Api(Link {{ client: Handle {{ n: 30 }}, creds: Some(Handle {{ n: 40 }}) }}, {})", q)
}

fn failed(unauthorised: bool, retriable: bool, n: u64) -> Reply {
    Reply::Failed(Failure { unauthorised, retriable, mismatch: None, record: h(n) })
}

fn prefixes(script: fn() -> Vec<Reply>) -> Vec<Vec<Reply>> {
    let mut all = Vec::new();
    for k in 0..script().len() + 1 {
        let mut log = script();
        log.truncate(k);
        all.push(log);
    }
    all
}

/// Runs an operation over longer and longer tapes, as a driver does, and collects the questions.
fn play<'a>(
    logs: &'a Vec<Vec<Reply>>,
    op: impl Fn(&mut Tape<'a>) -> Result<String, Stop<'a>>,
) -> (Vec<String>, String) {
    let mut asked = Vec::new();
    let mut end = String::new();
    for log in logs {
        assert_eq!(end, "", "more answers than questions");
        let mut tape = Tape::new(log);
        end = match op(&mut tape) {
            Err(Stop::Ask(q)) => {
                asked.push(format!("{:?}", q));
                String::new()
            }
            Err(Stop::Fail(e)) => format!("{:?}", e),
            Err(Stop::Stray) => "stray".to_string(),
            Ok(s) => s,
        }
    }
    (asked, end)
}

fn crypt(q: &str) -> String {
    format!("Crypt(Handle {{ n: 60 }}, {})", q)
}

fn publish(p: &str) -> String {
    format!("Publish(Handle {{ n: 70 }}, {})", p)
}

fn cid(id: &str) -> ClientId {
    ClientId::new(id.to_string())
}

fn conversation() -> Conversation {
    Conversation {
        id: ConvId { id: 8 },
        members: vec![UserId { id: 2 }, UserId { id: 3 }],
        record: h(80),
    }
}

fn message() -> OutMessage {
    OutMessage { id: "m-1".to_string(), text: "hi".to_string(), record: h(90) }
}

fn envelope() -> Envelope {
    Envelope { conv: ConvId { id: 8 }, record: h(91) }
}

const TIME: Time = Time { secs: 77, nanos: 5 };

fn mismatch() -> Reply {
    Reply::Failed(Failure {
        unauthorised: false,
        retriable: false,
        mismatch: Some(ClientMismatch {
            missing: vec![MissingClients { user: UserId { id: 2 }, clients: vec![cid("c1")] }],
        }),
        record: h(92),
    })
}

// Encrypting

#[test]
fn message_is_encrypted_for_every_session() {
    fn script() -> Vec<Reply> {
        vec![
            Reply::MaybeConversation(Some(conversation())),
            Reply::Handle(h(91)),
            Reply::Bytes(vec![1, 2]),
            Reply::Clients(vec![client("c1"), client("c2")]),
            Reply::MaybeHandle(Some(h(61))),
            Reply::Done,
            Reply::MaybeHandle(None),
            Reply::Clients(vec![]),
        ]
    }
    let (a, logs, m) = (online(), prefixes(script), message());
    let (asked, end) = play(&logs, |t| {
        a.prepare_message(t, ConvId { id: 8 }, &m).map(|e| format!("{:?}", e))
    });
    assert_eq!(asked[1], "NewEnvelope(ConvId { id: 8 }, ClientId { text: \"me\" })");
    assert!(asked[2].starts_with("Code(EncodeMessage(OutMessage { id: \"m-1\""));
    assert_eq!(asked[3], db("Clients(UserId { id: 2 })"));
    assert_eq!(asked[4], crypt("Session(UserId { id: 2 }, ClientId { text: \"c1\" })"));
    assert_eq!(
        asked[5],
        crypt(
            "Encrypt { session: Handle { n: 61 }, user: UserId { id: 2 }, \
             client: ClientId { text: \"c1\" }, plain: [1, 2], \
             envelope: Envelope { conv: ConvId { id: 8 }, record: Handle { n: 91 } } }"
        )
    );
    assert_eq!(asked[6], crypt("Session(UserId { id: 2 }, ClientId { text: \"c2\" })"));
    assert_eq!(asked[7], db("Clients(UserId { id: 3 })"));
    assert_eq!(end, "Envelope { conv: ConvId { id: 8 }, record: Handle { n: 91 } }");
}

#[test]
fn message_to_no_conversation_is_refused() {
    fn script() -> Vec<Reply> {
        vec![Reply::MaybeConversation(None), Reply::MaybeApiConversation(None)]
    }
    let (a, logs, m) = (online(), prefixes(script), message());
    let (_, end) = play(&logs, |t| {
        a.prepare_message(t, ConvId { id: 8 }, &m).map(|e| format!("{:?}", e))
    });
    assert_eq!(end, "Message(NoConversation)");
}

// Keeping

#[test]
fn own_message_is_stored_as_of_now() {
    fn script() -> Vec<Reply> {
        vec![Reply::Time(TIME), Reply::Done]
    }
    let (a, logs, m) = (online(), prefixes(script), message());
    let (asked, end) = play(&logs, |t| {
        a.store_message(t, ConvId { id: 8 }, &m).map(|_| "ok".to_string())
    });
    assert_eq!(
        asked[1],
        db("InsertText(NewText { id: \"m-1\", conv: ConvId { id: 8 }, \
            time: Time { secs: 77, nanos: 5 }, from: UserId { id: 1 }, \
            client: ClientId { text: \"me\" }, text: \"hi\", received: false })")
    );
    assert_eq!(end, "ok");
}

#[test]
fn message_is_enqueued_with_its_envelope() {
    fn script() -> Vec<Reply> {
        vec![Reply::Bytes(vec![1]), Reply::Bytes(vec![2]), Reply::Done]
    }
    let (a, logs, m) = (online(), prefixes(script), message());
    let id = b"m-1".to_vec();
    let (asked, end) =
        play(&logs, |t| a.enqueue(t, &id, envelope(), &m).map(|_| "ok".to_string()));
    assert_eq!(
        asked[2],
        db("Enqueue { id: [109, 45, 49], conv: ConvId { id: 8 }, data: [2], mesg: [1] }")
    );
    assert_eq!(end, "ok");
}

#[test]
fn message_is_dequeued() {
    fn script() -> Vec<Reply> {
        vec![Reply::Done]
    }
    let (a, logs) = (online(), prefixes(script));
    let id = b"m-1".to_vec();
    let (asked, end) =
        play(&logs, |t| a.dequeue(t, &id, ConvId { id: 8 }).map(|_| "ok".to_string()));
    assert_eq!(asked, vec![db("Dequeue([109, 45, 49], ConvId { id: 8 })")]);
    assert_eq!(end, "ok");
}

// Sending

#[test]
fn sent_message_is_recorded() {
    fn script() -> Vec<Reply> {
        vec![
            Reply::Bytes(vec![1]),
            Reply::Time(TIME),
            Reply::Done,
            Reply::Done,
            Reply::Done,
        ]
    }
    let (a, logs, m) = (online(), prefixes(script), message());
    let (asked, end) =
        play(&logs, |t| a.send_message(t, envelope(), &m).map(|t| format!("{:?}", t)));
    assert_eq!(
        asked[1],
        api("Send(Envelope { conv: ConvId { id: 8 }, record: Handle { n: 91 } })")
    );
    assert_eq!(asked[2], db("MessageSent(ConvId { id: 8 }, \"m-1\")"));
    assert_eq!(
        asked[3],
        db("MessageTime(ConvId { id: 8 }, \"m-1\", Time { secs: 77, nanos: 5 })")
    );
    assert_eq!(asked[4], db("ConvTime(ConvId { id: 8 }, 77)"));
    assert_eq!(end, "Time { secs: 77, nanos: 5 }");
}

#[test]
fn devices_that_were_left_out_are_included() {
    fn script() -> Vec<Reply> {
        vec![
            Reply::Bytes(vec![1]),
            mismatch(),
            Reply::Flag(true),
            Reply::Prekeys(vec![UserPrekeys {
                user: UserId { id: 2 },
                clients: vec![
                    ClientPrekey { client: cid("c1"), key: Some(h(62)) },
                    ClientPrekey { client: cid("c2"), key: None },
                ],
            }]),
            Reply::MaybeClient(Some(client("c1"))),
            Reply::Handle(h(63)),
            Reply::MaybeClient(Some(client("c2"))),
            Reply::Done,
            Reply::Time(TIME),
            Reply::Done,
            Reply::Done,
            Reply::Done,
        ]
    }
    let (a, logs, m) = (online(), prefixes(script), message());
    let (asked, end) =
        play(&logs, |t| a.send_message(t, envelope(), &m).map(|t| t.secs.to_string()));
    assert!(asked[2].starts_with("TryAgain {") && asked[2].ends_with("failed: 0, limit: 3, pause: 3 }"));
    assert!(asked[3].contains("Prekeys(ClientMismatch { missing: [MissingClients {"));
    assert_eq!(asked[4], db("Client(UserId { id: 2 }, ClientId { text: \"c1\" })"));
    assert_eq!(
        asked[5],
        crypt("SessionFromPrekey(UserId { id: 2 }, ClientId { text: \"c1\" }, Handle { n: 62 })")
    );
    assert_eq!(asked[6], db("Client(UserId { id: 2 }, ClientId { text: \"c2\" })"));
    assert!(asked[7].contains("Encrypt { session: Handle { n: 63 }, user: UserId { id: 2 }"));
    assert_eq!(asked[8], asked[1]);
    assert_eq!(end, "77");
}

#[test]
fn every_user_who_was_left_out_has_an_entry() {
    fn script() -> Vec<Reply> {
        vec![
            Reply::Prekeys(vec![
                UserPrekeys { user: UserId { id: 4 }, clients: vec![] },
                UserPrekeys {
                    user: UserId { id: 2 },
                    clients: vec![ClientPrekey { client: cid("c1"), key: None }],
                },
                UserPrekeys {
                    user: UserId { id: 3 },
                    clients: vec![
                        ClientPrekey { client: cid("c2"), key: Some(h(62)) },
                        ClientPrekey { client: cid("c3"), key: None },
                        ClientPrekey { client: cid("c4"), key: Some(h(64)) },
                    ],
                },
            ]),
            Reply::MaybeClient(Some(client("c1"))),
            Reply::MaybeClient(Some(client("c2"))),
            Reply::Handle(h(63)),
            Reply::MaybeClient(Some(client("c3"))),
            Reply::MaybeClient(Some(client("c4"))),
            Reply::Handle(h(65)),
        ]
    }
    let (a, logs, m) = (online(), prefixes(script), ClientMismatch { missing: vec![] });
    let (asked, end) = play(&logs, |t| a.on_mismatch(t, &m).map(|us| format!("{:?}", us)));
    assert_eq!(asked.len(), 7);
    assert_eq!(
        end,
        "[UserSessions { user: UserId { id: 4 }, sessions: [] }, \
         UserSessions { user: UserId { id: 2 }, sessions: [] }, \
         UserSessions { user: UserId { id: 3 }, sessions: [\
         NewSession { client: ClientId { text: \"c2\" }, session: Handle { n: 63 } }, \
         NewSession { client: ClientId { text: \"c4\" }, session: Handle { n: 65 } }] }]"
    );
}

#[test]
fn sending_renews_access_and_gives_up() {
    fn script() -> Vec<Reply> {
        vec![
            Reply::Bytes(vec![1]),
            failed(true, true, 5),
            Reply::Flag(true),
            Reply::NewAccess(coax_actor::model::NewAccess { token: "t2".to_string(), cookie: None }),
            Reply::Done,
            failed(false, true, 6),
            Reply::Flag(false),
        ]
    }
    let (a, logs, m) = (online(), prefixes(script), message());
    let (asked, end) =
        play(&logs, |t| a.send_message(t, envelope(), &m).map(|t| t.secs.to_string()));
    assert_eq!(asked[3], api("RenewAccess"));
    assert!(asked[6].contains("failed: 1, limit: 3"));
    assert!(end.contains("Handle { n: 6 }"));
}

#[test]
fn hopeless_failure_is_not_tried_again() {
    fn script() -> Vec<Reply> {
        vec![Reply::Bytes(vec![1]), failed(false, false, 5)]
    }
    let (a, logs, m) = (online(), prefixes(script), message());
    let (asked, end) =
        play(&logs, |t| a.send_message(t, envelope(), &m).map(|t| t.secs.to_string()));
    assert_eq!(asked.len(), 2);
    assert!(end.contains("Handle { n: 5 }"));
}

#[test]
fn remedies_have_an_order() {
    let mut f = Failure {
        unauthorised: true,
        retriable: true,
        mismatch: Some(ClientMismatch { missing: vec![] }),
        record: h(1),
    };
    assert!(matches!(on_error(Error::Failed(&f)), Some(Remedy::React(Reaction::Renew))));
    f.unauthorised = false;
    assert!(matches!(on_error(Error::Failed(&f)), Some(Remedy::React(Reaction::Retry))));
    f.retriable = false;
    assert!(matches!(on_error(Error::Failed(&f)), Some(Remedy::Include(_))));
    f.mismatch = None;
    assert!(on_error(Error::Failed(&f)).is_none());
    assert!(on_error(Error::Address).is_none());
}

// The queue

fn item(id: &[u8]) -> QueueItem {
    QueueItem { id: id.to_vec(), conv: ConvId { id: 8 }, data: vec![2], mesg: vec![1] }
}

#[test]
fn queued_messages_are_sent_and_taken_out() {
    fn script() -> Vec<Reply> {
        vec![
            Reply::QueuePage(QueuePage {
                items: vec![item(b"bad"), item(b"torn"), item(b"m-1"), item(&[0xff])],
                next: h(99),
            }),
            Reply::MaybeMessage(None),
            Reply::MaybeMessage(Some(message())),
            Reply::MaybeHandle(None),
            Reply::MaybeMessage(Some(message())),
            Reply::MaybeHandle(Some(h(91))),
            Reply::Bytes(vec![1]),
            Reply::Time(TIME),
            Reply::Done,
            Reply::Done,
            Reply::Done,
            Reply::Done,
            Reply::Done,
            Reply::MaybeMessage(Some(message())),
            Reply::MaybeHandle(Some(h(91))),
            Reply::Bytes(vec![1]),
            Reply::Time(TIME),
            Reply::Done,
            Reply::Done,
            Reply::Done,
            Reply::Done,
        ]
    }
    let (a, logs) = (online(), prefixes(script));
    let (asked, end) = play(&logs, |t| a.resend(t).map(|_| "ok".to_string()));
    assert_eq!(asked[0], db("QueueItems(None, 10)"));
    assert_eq!(asked[1], "Code(ParseMessage([1]))");
    assert_eq!(asked[2], "Code(ParseMessage([1]))");
    assert_eq!(asked[3], "Code(ParseEnvelope([2]))");
    assert_eq!(asked[11], db("Dequeue([109, 45, 49], ConvId { id: 8 })"));
    assert_eq!(
        asked[12],
        publish("MessageUpdate(ConvId { id: 8 }, \"m-1\", Time { secs: 77, nanos: 5 })")
    );
    assert_eq!(asked[20], db("Dequeue([255], ConvId { id: 8 })"));
    assert_eq!(end, "ok");
}

#[test]
fn full_page_of_the_queue_is_followed_by_another() {
    fn script() -> Vec<Reply> {
        let mut log = vec![Reply::QueuePage(QueuePage {
            items: (0..10).map(|_| item(b"bad")).collect(),
            next: h(99),
        })];
        for _ in 0..10 {
            log.push(Reply::MaybeMessage(None));
        }
        log.push(Reply::QueuePage(QueuePage { items: vec![], next: h(98) }));
        log
    }
    let (a, logs) = (online(), prefixes(script));
    let (asked, end) = play(&logs, |t| a.resend(t).map(|_| "ok".to_string()));
    assert_eq!(asked[11], db("QueueItems(Some(Handle { n: 99 }), 10)"));
    assert_eq!(end, "ok");
}

#[test]
fn item_that_cannot_be_sent_ends_the_round() {
    fn script() -> Vec<Reply> {
        vec![
            Reply::QueuePage(QueuePage { items: vec![item(b"a"), item(b"b")], next: h(99) }),
            Reply::MaybeMessage(Some(message())),
            Reply::MaybeHandle(Some(h(91))),
            Reply::Bytes(vec![1]),
            failed(false, false, 5),
        ]
    }
    let (a, logs) = (online(), prefixes(script));
    let (_, end) = play(&logs, |t| a.resend(t).map(|_| "ok".to_string()));
    assert!(end.contains("Handle { n: 5 }"));
}

// Events

fn notification(e: Event) -> Notification {
    Notification { id: NotifId { id: 6 }, events: vec![e] }
}

fn conv_event(data: ConvEventData) -> ConvEvent {
    ConvEvent { id: ConvId { id: 8 }, time: TIME, from: UserId { id: 2 }, data }
}

fn take_in(n: &Notification, script: fn() -> Vec<Reply>) -> (Vec<String>, String) {
    let (a, logs) = (online(), prefixes(script));
    play(&logs, |t| a.on_notification(t, n).map(|_| "ok".to_string()))
}

#[test]
fn seen_notification_is_passed_over() {
    fn script() -> Vec<Reply> {
        vec![Reply::Flag(true)]
    }
    let (asked, end) = take_in(&notification(Event::Unknown), script);
    assert_eq!(asked, vec![db("HasNotification(NotifId { id: 6 })")]);
    assert_eq!(end, "ok");
}

#[test]
fn unknown_event_is_recorded() {
    fn script() -> Vec<Reply> {
        vec![Reply::Flag(false), Reply::Done]
    }
    let (asked, end) = take_in(&notification(Event::Unknown), script);
    assert_eq!(asked[1], db("InsertNotification(NotifId { id: 6 })"));
    assert_eq!(end, "ok");
}

#[test]
fn event_whose_content_does_not_fit_is_passed_over() {
    fn script() -> Vec<Reply> {
        vec![Reply::Flag(false), Reply::Done]
    }
    for e in [
        Event::User(EventType::UserClientAdd, UserEvent::Other),
        Event::User(EventType::UserConnection, UserEvent::Other),
        Event::User(EventType::Other, UserEvent::Other),
        Event::Conv(EventType::ConvCreate, conv_event(ConvEventData::Other)),
        Event::Conv(EventType::ConvMemberJoin, conv_event(ConvEventData::Other)),
        Event::Conv(EventType::ConvMessageAdd, conv_event(ConvEventData::Join(vec![]))),
        Event::Conv(EventType::UserConnection, conv_event(ConvEventData::Other)),
    ] {
        let (asked, end) = take_in(&notification(e), script);
        assert_eq!(asked.len(), 2);
        assert_eq!(end, "ok");
    }
}

fn client_added(id: &str) -> Event {
    Event::User(
        EventType::UserClientAdd,
        UserEvent::AddClient(ApiClient { id: cid(id), record: h(5) }),
    )
}

#[test]
fn another_device_of_ours_is_stored() {
    fn script() -> Vec<Reply> {
        vec![Reply::Flag(false), Reply::Done, Reply::Done]
    }
    let (asked, end) = take_in(&notification(client_added("other")), script);
    assert_eq!(
        asked[1],
        db("InsertClient(UserId { id: 1 }, ApiClient { id: ClientId { text: \"other\" }, \
            record: Handle { n: 5 } })")
    );
    assert_eq!(end, "ok");
}

#[test]
fn our_own_device_is_not_stored_again() {
    fn script() -> Vec<Reply> {
        vec![Reply::Flag(false), Reply::Done]
    }
    let (asked, _) = take_in(&notification(client_added("me")), script);
    assert_eq!(asked[1], db("InsertNotification(NotifId { id: 6 })"));
}

fn connected() -> Event {
    Event::User(
        EventType::UserConnection,
        UserEvent::Connect(UserConnection { to: UserId { id: 2 }, record: h(7) }),
    )
}

#[test]
fn new_contact_is_stored_and_broadcast() {
    fn script() -> Vec<Reply> {
        vec![
            Reply::Flag(false),
            Reply::MaybeUser(Some(user(2))),
            Reply::Done,
            Reply::Connection(Connection { record: h(9) }),
            Reply::Done,
            Reply::Done,
        ]
    }
    let (asked, end) = take_in(&notification(connected()), script);
    assert!(asked[2].contains("InsertConnection"));
    assert!(asked[4].starts_with("Publish(Handle { n: 70 }, Contact(User { id: UserId { id: 2 }"));
    assert!(asked[4].ends_with("Connection { record: Handle { n: 9 } }))"));
    assert_eq!(end, "ok");
}

#[test]
fn contact_who_is_not_found_is_passed_over() {
    fn script() -> Vec<Reply> {
        vec![
            Reply::Flag(false),
            Reply::MaybeUser(None),
            Reply::MaybeApiUser(None),
            Reply::Done,
        ]
    }
    let (asked, _) = take_in(&notification(connected()), script);
    assert_eq!(asked[3], db("InsertNotification(NotifId { id: 6 })"));
}

fn created(creator: u128) -> Event {
    Event::Conv(
        EventType::ConvCreate,
        conv_event(ConvEventData::Create(ApiConversation {
            id: ConvId { id: 8 },
            creator: UserId { id: creator },
            typ: ConvType::Other,
            current: true,
            others: vec![Member { id: UserId { id: 3 }, current: false }],
            record: h(81),
        })),
    )
}

#[test]
fn conversation_of_ours_needs_no_creator() {
    fn script() -> Vec<Reply> {
        vec![
            Reply::Flag(false),
            Reply::MaybeUser(Some(user(3))),
            Reply::Done,
            Reply::Conversation(conversation()),
            Reply::Done,
            Reply::Done,
        ]
    }
    let (asked, end) = take_in(&notification(created(1)), script);
    assert_eq!(asked[1], db("User(UserId { id: 3 })"));
    assert!(asked[2].contains("InsertConversation(Time { secs: 77, nanos: 5 }, Whole("));
    assert!(asked[4].starts_with("Publish(Handle { n: 70 }, Conversation("));
    assert_eq!(end, "ok");
}

#[test]
fn conversation_of_a_stranger_is_passed_over() {
    fn script() -> Vec<Reply> {
        vec![
            Reply::Flag(false),
            Reply::MaybeUser(None),
            Reply::MaybeApiUser(None),
            Reply::Done,
        ]
    }
    let (asked, _) = take_in(&notification(created(2)), script);
    assert_eq!(asked[1], db("User(UserId { id: 2 })"));
    assert_eq!(asked[3], db("InsertNotification(NotifId { id: 6 })"));
}

fn joined() -> Event {
    Event::Conv(
        EventType::ConvMemberJoin,
        conv_event(ConvEventData::Join(vec![
            UserId { id: 1 },
            UserId { id: 2 },
            UserId { id: 3 },
        ])),
    )
}

#[test]
fn members_who_join_are_taken_in() {
    fn script() -> Vec<Reply> {
        vec![
            Reply::Flag(false),
            Reply::MaybeConversation(Some(conversation())),
            Reply::MaybeUser(Some(user(2))),
            Reply::Done,
            Reply::Done,
            Reply::Clients(vec![client("c1")]),
            Reply::MaybeUser(None),
            Reply::MaybeApiUser(None),
            Reply::Done,
            Reply::Done,
        ]
    }
    let (asked, end) = take_in(&notification(joined()), script);
    assert_eq!(asked[3], db("InsertMember(ConvId { id: 8 }, UserId { id: 2 })"));
    assert_eq!(
        asked[4],
        db("InsertJoined { conv: ConvId { id: 8 }, time: Time { secs: 77, nanos: 5 }, \
            user: UserId { id: 2 } }")
    );
    assert_eq!(asked[5], db("Clients(UserId { id: 2 })"));
    assert!(asked[8].starts_with(
        "Publish(Handle { n: 70 }, MembersAdd(Time { secs: 77, nanos: 5 }, ConvId { id: 8 }, [User {"
    ));
    assert_eq!(asked[8].matches("User {").count(), 2);
    assert_eq!(end, "ok");
}

#[test]
fn members_of_an_unknown_conversation_are_passed_over() {
    fn script() -> Vec<Reply> {
        vec![
            Reply::Flag(false),
            Reply::MaybeConversation(None),
            Reply::MaybeApiConversation(None),
            Reply::Done,
        ]
    }
    let (asked, _) = take_in(&notification(joined()), script);
    assert_eq!(asked[3], db("InsertNotification(NotifId { id: 6 })"));
}

fn encrypted() -> Event {
    Event::Conv(
        EventType::ConvMessageAdd,
        conv_event(ConvEventData::Encrypted(OtrMessage { sender: cid("c1"), record: h(66) })),
    )
}

#[test]
fn incoming_text_is_stored_and_broadcast() {
    fn script() -> Vec<Reply> {
        vec![
            Reply::Flag(false),
            Reply::MaybeUser(Some(user(2))),
            Reply::MaybeClient(Some(client("c1"))),
            Reply::MaybeConversation(Some(conversation())),
            Reply::Plaintext(Plaintext {
                id: "m-2".to_string(),
                text: Some("hello".to_string()),
                session: h(67),
            }),
            Reply::Done,
            Reply::Done,
            Reply::Done,
            Reply::Done,
            Reply::Done,
        ]
    }
    let (asked, end) = take_in(&notification(encrypted()), script);
    assert!(asked[4].starts_with("Crypt(Handle { n: 60 }, Decrypt(UserId { id: 2 }, OtrMessage"));
    assert_eq!(
        asked[5],
        db("InsertText(NewText { id: \"m-2\", conv: ConvId { id: 8 }, \
            time: Time { secs: 77, nanos: 5 }, from: UserId { id: 2 }, \
            client: ClientId { text: \"c1\" }, text: \"hello\", received: true })")
    );
    assert_eq!(asked[6], crypt("SaveSession(Handle { n: 67 })"));
    assert_eq!(asked[7], db("ConvTime(ConvId { id: 8 }, 77)"));
    assert!(asked[8].starts_with("Publish(Handle { n: 70 }, Message(Incoming { id: \"m-2\""));
    assert_eq!(asked[9], db("InsertNotification(NotifId { id: 6 })"));
    assert_eq!(end, "ok");
}

#[test]
fn incoming_message_without_text_saves_its_session() {
    fn script() -> Vec<Reply> {
        vec![
            Reply::Flag(false),
            Reply::MaybeUser(Some(user(2))),
            Reply::MaybeClient(None),
            Reply::MaybeApiClient(None),
            Reply::MaybeConversation(Some(conversation())),
            Reply::Plaintext(Plaintext { id: "m-2".to_string(), text: None, session: h(67) }),
            Reply::Done,
            Reply::Done,
        ]
    }
    let (asked, end) = take_in(&notification(encrypted()), script);
    assert_eq!(asked[6], crypt("SaveSession(Handle { n: 67 })"));
    assert_eq!(asked[7], db("InsertNotification(NotifId { id: 6 })"));
    assert_eq!(end, "ok");
}

#[test]
fn message_that_cannot_be_decrypted_is_passed_over() {
    fn script() -> Vec<Reply> {
        vec![
            Reply::Flag(false),
            Reply::MaybeUser(Some(user(2))),
            Reply::MaybeClient(Some(client("c1"))),
            Reply::MaybeConversation(Some(conversation())),
            failed(false, false, 5),
            Reply::Done,
        ]
    }
    let (asked, end) = take_in(&notification(encrypted()), script);
    assert_eq!(asked[5], db("InsertNotification(NotifId { id: 6 })"));
    assert_eq!(end, "ok");
}

#[test]
fn message_from_a_stranger_is_passed_over() {
    fn script() -> Vec<Reply> {
        vec![
            Reply::Flag(false),
            Reply::MaybeUser(Some(User { deleted: true, ..user(2) })),
            Reply::Done,
        ]
    }
    let (asked, _) = take_in(&notification(encrypted()), script);
    assert_eq!(asked[2], db("InsertNotification(NotifId { id: 6 })"));
}

#[test]
fn failing_event_leaves_the_notification_unrecorded() {
    fn script() -> Vec<Reply> {
        vec![Reply::Flag(false), failed(false, false, 5)]
    }
    let (asked, end) = take_in(&notification(client_added("other")), script);
    assert_eq!(asked.len(), 2);
    assert!(end.contains("Handle { n: 5 }"));
}

// The feed

fn fresh() -> Actor<Online> {
    let mut u = me();
    u.device.fresh = true;
    Actor::new(config()).online(h(30), u, h(70))
}

const CONNECT: &str = "Connect { url: \"https://prod.example.com/\", domain: \"prod.example.com\" }";

fn stream(q: &str) -> String {
    format!("Api(Link {{ client: Handle {{ n: 31 }}, creds: Some(Handle {{ n: 40 }}) }}, {})", q)
}

#[test]
fn fresh_device_skips_ahead() {
    fn script() -> Vec<Reply> {
        vec![
            Reply::MaybeNotifId(None),
            Reply::Handle(h(31)),
            Reply::Done,
            Reply::Done,
            Reply::MaybeNotifId(Some(NotifId { id: 12 })),
            Reply::Done,
        ]
    }
    let (a, logs) = (fresh(), prefixes(script));
    let (asked, end) = play(&logs, |t| a.notifications(t, false).map(|b| b.to_string()));
    assert_eq!(
        asked,
        vec![
            db("LastNotification"),
            CONNECT.to_string(),
            "Api(Link { client: Handle { n: 31 }, creds: None }, ReadTimeout(10))".to_string(),
            "Api(Link { client: Handle { n: 31 }, creds: None }, WriteTimeout(10))".to_string(),
            api("LastNotification"),
            db("SetLastNotification(NotifId { id: 12 })"),
        ]
    );
    assert_eq!(end, "false");
}

#[test]
fn notifications_are_read_to_the_end() {
    fn script() -> Vec<Reply> {
        vec![
            Reply::MaybeNotifId(Some(NotifId { id: 3 })),
            Reply::Handle(h(31)),
            Reply::Done,
            Reply::Done,
            Reply::Done,
            Reply::StreamItem(StreamItem::Next(notification(Event::Unknown))),
            Reply::Flag(true),
            failed(false, false, 5),
            Reply::StreamItem(StreamItem::End),
            Reply::Flag(true),
            Reply::Done,
            Reply::Done,
        ]
    }
    let (a, logs) = (fresh(), prefixes(script));
    let (asked, end) = play(&logs, |t| a.notifications(t, true).map(|b| b.to_string()));
    assert_eq!(
        asked[4],
        stream("OpenStream(ClientId { text: \"me\" }, Some(NotifId { id: 3 }))")
    );
    assert_eq!(asked[5], stream("NextItem"));
    assert_eq!(asked[7], stream("NextItem"));
    assert_eq!(asked[8], stream("NextItem"));
    assert_eq!(asked[9], stream("HasMore"));
    assert_eq!(asked[10], stream("CloseStream"));
    assert_eq!(asked[11], db("SetLastNotification(NotifId { id: 6 })"));
    assert_eq!(end, "true");
}

#[test]
fn broken_stream_is_taken_up_after_the_last_notification() {
    fn script() -> Vec<Reply> {
        vec![
            Reply::MaybeNotifId(None),
            Reply::Handle(h(31)),
            Reply::Done,
            Reply::Done,
            Reply::Done,
            Reply::StreamItem(StreamItem::Next(notification(Event::Unknown))),
            failed(false, true, 5),
            Reply::Reaction(Some(Reaction::Other)),
            Reply::Done,
            Reply::StreamItem(StreamItem::End),
            failed(false, true, 6),
            Reply::Reaction(None),
        ]
    }
    let (a, logs) = (online(), prefixes(script));
    let (asked, end) = play(&logs, |t| a.notifications(t, false).map(|b| b.to_string()));
    assert_eq!(asked[4], stream("OpenStream(ClientId { text: \"me\" }, None)"));
    assert!(asked[7].ends_with("failed: 0 }"));
    assert_eq!(
        asked[8],
        stream("OpenStream(ClientId { text: \"me\" }, Some(NotifId { id: 6 }))")
    );
    assert!(asked[11].ends_with("failed: 1 }"));
    assert!(end.contains("Handle { n: 6 }"));
}

#[test]
fn api_user_with_deletion_flag_false_is_found() {
    fn script() -> Vec<Reply> {
        vec![
            Reply::MaybeApiUser(Some(ApiUser {
                id: UserId { id: 2 },
                deleted: Some(false),
                record: h(4),
            })),
            Reply::Done,
            Reply::User(user(2)),
        ]
    }
    let (a, logs) = (online(), prefixes(script));
    let (_, end) = play(&logs, |t| {
        a.resolve_user(t, UserId { id: 2 }, false).map(|u| u.is_some().to_string())
    });
    assert_eq!(end, "true");
}
