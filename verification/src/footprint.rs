//! What an operation touches: the parts of the world that its questions concern.
use crate::access::{
    attempt_is_steady, attempt_run, call_from_is_steady, call_from_run, call_is_steady, call_run,
    connect_again_run, connect_attempt_is_steady, connect_attempt_run, connect_from_is_steady,
    connect_from_run, connect_is_steady, connect_run, react_is_steady, react_run, weigh,
    weigh_is_steady,
};
use crate::actor::{Actor, Online};
use crate::directory::{
    adopt_conversation_is_steady, adopt_conversation_run, convert_clients_is_steady,
    convert_clients_run, fetch_client_is_steady, fetch_client_run, fetch_clients_is_steady,
    fetch_clients_run, fetch_conversation_is_steady, fetch_conversation_run, fetch_user_is_steady,
    fetch_user_run, keep_conversation_is_steady, keep_conversation_run, resolve_client_run,
    resolve_clients_run, resolve_conversation_run, resolve_members_is_steady, resolve_members_run,
    resolve_user_run,
};
use crate::model::{
    ApiClient, ApiConversation, ApiUser, Client, Config, ConvId, ConvType, Conversation, Member,
    Reaction, Rows, User, UserId, Var,
};
use crate::query::{ApiView, Convert, DbView, QueryView, Roster};
use crate::tape::{ask, begins_with, Payload, Run, StopView, TapeView};
use vstd::prelude::*;

verus! {

/// A part of the world.
pub enum Topic {
    /// Connections to the back-end, the credentials for them, and whether to try again.
    Access,
    /// Users and their devices.
    People,
    /// Connections to other users.
    Links,
    /// Conversations.
    Talks,
    /// Looking a conversation up in the database.
    Lookup,
    /// Storing a conversation.
    NewTalk,
    /// The time.
    Clock,
    /// The messages in a conversation.
    Texts,
    /// That and when a message was sent.
    Sent,
    /// The queue of messages that were not sent yet.
    Queue,
    /// The last notification.
    Mark,
    /// Which notifications were taken in.
    Seen,
    /// The stream of notifications.
    Stream,
    /// Sending.
    Post,
    /// Keys and sessions.
    Crypto,
    /// Messages and envelopes in other forms.
    Codec,
    /// What is broadcast.
    News,
    /// Files and directories.
    Files,
    /// Downloads.
    Download,
    /// Stored variables other than the cookie.
    Vars,
    /// Logging in.
    Entry,
    /// Pages of rows for display.
    Rows,
}

/// The part of the world that a question to the database concerns.
pub open spec fn db_topic(q: DbView) -> Topic {
    match q {
        DbView::User(_) => Topic::People,
        DbView::InsertUser(_) => Topic::People,
        DbView::Client(_, _) => Topic::People,
        DbView::Clients(_) => Topic::People,
        DbView::InsertClient(_, _) => Topic::People,
        DbView::InsertClients(_, _) => Topic::People,
        DbView::Conversation(_) => Topic::Lookup,
        DbView::InsertConversation(_, _) => Topic::NewTalk,
        DbView::InsertMember(_, _) => Topic::Talks,
        DbView::Connection(_) => Topic::Links,
        DbView::InsertConnection(_) => Topic::Links,
        DbView::UpdateConnection(_, _) => Topic::Links,
        DbView::InsertText(_) => Topic::Texts,
        DbView::InsertJoined { .. } => Topic::Texts,
        DbView::MessageSent(_, _) => Topic::Sent,
        DbView::MessageTime(_, _, _) => Topic::Sent,
        DbView::ConvTime(_, _) => Topic::Texts,
        DbView::Enqueue { .. } => Topic::Queue,
        DbView::Dequeue(_, _) => Topic::Queue,
        DbView::QueueItems(_, _) => Topic::Queue,
        DbView::Conversations(_, _) => Topic::Rows,
        DbView::Messages(_, _, _) => Topic::Rows,
        DbView::Connections => Topic::Rows,
        DbView::LastNotification => Topic::Mark,
        DbView::SetLastNotification(_) => Topic::Mark,
        DbView::HasNotification(_) => Topic::Seen,
        DbView::InsertNotification(_) => Topic::Seen,
        DbView::Var(_) => Topic::Vars,
        DbView::SetVar(v, _) => if v == Var::UserCookie {
            Topic::Access
        } else {
            Topic::Vars
        },
    }
}

/// The part of the world that a question to the back-end concerns.
pub open spec fn api_topic(q: ApiView) -> Topic {
    match q {
        ApiView::Reconnect => Topic::Access,
        ApiView::ReadTimeout(_) => Topic::Access,
        ApiView::WriteTimeout(_) => Topic::Access,
        ApiView::RegisterUser(_) => Topic::Entry,
        ApiView::Login(_) => Topic::Entry,
        ApiView::SelfUser(_) => Topic::Entry,
        ApiView::SelfClient(_, _) => Topic::Entry,
        ApiView::RegisterClient(_, _) => Topic::Entry,
        ApiView::RenewAccess => Topic::Access,
        ApiView::User(_) => Topic::People,
        ApiView::Client(_, _) => Topic::People,
        ApiView::Clients(_) => Topic::People,
        ApiView::Conversation(_) => Topic::Talks,
        ApiView::Conversations(_, _) => Topic::Talks,
        ApiView::CreateConversation { .. } => Topic::Talks,
        ApiView::Connection(_) => Topic::Links,
        ApiView::Connections(_, _) => Topic::Links,
        ApiView::Connect { .. } => Topic::Links,
        ApiView::SetConnectStatus(_, _) => Topic::Links,
        ApiView::Send(_) => Topic::Post,
        ApiView::Prekeys(_) => Topic::Post,
        ApiView::LastNotification => Topic::Mark,
        ApiView::OpenStream(_, _) => Topic::Stream,
        ApiView::NextItem => Topic::Stream,
        ApiView::HasMore => Topic::Stream,
        ApiView::CloseStream => Topic::Stream,
        ApiView::AssetUrl(_) => Topic::Download,
        ApiView::Download { .. } => Topic::Download,
    }
}

/// The part of the world that a question concerns.
pub open spec fn topic(q: QueryView) -> Topic {
    match q {
        QueryView::Db(_, q) => db_topic(q),
        QueryView::Api(_, q) => api_topic(q),
        QueryView::Crypt(_, _) => Topic::Crypto,
        QueryView::Disk(_) => Topic::Files,
        QueryView::Cred(_, _) => Topic::Access,
        QueryView::Code(_) => Topic::Codec,
        QueryView::Convert(Convert::User(_)) => Topic::People,
        QueryView::Convert(Convert::Client(_, _)) => Topic::People,
        QueryView::Convert(Convert::Conversation(_, _)) => Topic::Talks,
        QueryView::Convert(Convert::Connection(_)) => Topic::Links,
        QueryView::Connect { .. } => Topic::Access,
        QueryView::OpenSocket { .. } => Topic::Access,
        QueryView::HoldFresh(_) => Topic::Entry,
        QueryView::HoldStored { .. } => Topic::Entry,
        QueryView::NewSignalingKeys => Topic::Crypto,
        QueryView::NewEnvelope(_, _) => Topic::Codec,
        QueryView::Now => Topic::Clock,
        QueryView::Recover { .. } => Topic::Access,
        QueryView::TryAgain { .. } => Topic::Access,
        QueryView::Publish(_, _) => Topic::News,
    }
}

/// Do all the questions that a run over `t` asks concern parts of the world in `s`?
pub open spec fn touches<'a, T>(t: TapeView<'a>, r: Run<'a, T>, s: Set<Topic>) -> bool {
    forall|i: int|
        t.asked.len() <= i < r.tape.asked.len() ==> s.contains(
            topic(#[trigger] r.tape.asked[i]),
        )
}

/// What a run touches is what its first part touches and what the rest touches.
pub proof fn parts_touch<'a, T, U>(t: TapeView<'a>, x: Run<'a, T>, r: Run<'a, U>, s: Set<Topic>)
    requires
        touches(t, x, s),
        begins_with(r.tape.asked, x.tape.asked),
        touches(x.tape, r, s),
    ensures
        touches(t, r, s),
{
    assert forall|i: int| t.asked.len() <= i < r.tape.asked.len() implies s.contains(
        topic(#[trigger] r.tape.asked[i]),
    ) by {
        if i < x.tape.asked.len() {
            assert(r.tape.asked[i] == x.tape.asked[i]);
        }
    }
}

// ---- Access ---------------------------------------------------------------------------------

/// Beginning an attempt touches nothing but access.
pub proof fn react_touches<'a>(
    a: &'a Actor<Online>,
    t: TapeView<'a>,
    r: Option<Reaction>,
    s: Set<Topic>,
)
    requires
        s.contains(Topic::Access),
    ensures
        touches(t, react_run(a, t, r), s),
{
}

proof fn weigh_touches<'a, T>(t: TapeView<'a>, x: Run<'a, T>, n: nat, s: Set<Topic>)
    requires
        s.contains(Topic::Access),
        touches(t, x, s),
    ensures
        touches(t, weigh(x, n), s),
{
}

proof fn attempt_touches<'a, T: Payload>(
    a: &'a Actor<Online>,
    t: TapeView<'a>,
    r: Option<Reaction>,
    q: ApiView<'a>,
    s: Set<Topic>,
)
    requires
        s.contains(Topic::Access),
        s.contains(api_topic(q)),
    ensures
        touches(t, attempt_run::<T>(a, t, r, q), s),
{
    react_touches(a, t, r, s);
    react_is_steady(a, t, t, r);
}

proof fn call_from_touches<'a, T: Payload>(
    a: &'a Actor<Online>,
    t: TapeView<'a>,
    r: Option<Reaction>,
    n: nat,
    q: ApiView<'a>,
    s: Set<Topic>,
)
    requires
        s.contains(Topic::Access),
        s.contains(api_topic(q)),
    ensures
        touches(t, call_from_run::<T>(a, t, r, n, q), s),
    decreases t.log.len() - t.at,
{
    attempt_touches::<T>(a, t, r, q, s);
    attempt_is_steady::<T>(a, t, t, r, q);
    let y = attempt_run::<T>(a, t, r, q);
    weigh_touches(t, y, n, s);
    weigh_is_steady(t, t, y, y, n);
    let x = weigh(y, n);
    if let Ok(Err(r)) = x.out {
        call_from_touches::<T>(a, x.tape, Some(r), n + 1, q, s);
        call_from_is_steady::<T>(a, x.tape, x.tape, Some(r), n + 1, q);
        parts_touch(t, x, call_from_run::<T>(a, x.tape, Some(r), n + 1, q), s);
    }
}

/// A call touches access and what it asks for.
pub proof fn call_touches<'a, T: Payload>(
    a: &'a Actor<Online>,
    t: TapeView<'a>,
    q: ApiView<'a>,
    s: Set<Topic>,
)
    requires
        s.contains(Topic::Access),
        s.contains(api_topic(q)),
    ensures
        touches(t, call_run::<T>(a, t, q), s),
{
    call_from_touches::<T>(a, t, None, 0, q, s);
}

proof fn connect_touches<'a>(c: Config, t: TapeView<'a>, s: Set<Topic>)
    requires
        s.contains(Topic::Access),
    ensures
        touches(t, connect_run(c, t), s),
{
}

proof fn connect_from_touches<'a>(
    a: &'a Actor<Online>,
    t: TapeView<'a>,
    r: Option<Reaction>,
    n: nat,
    s: Set<Topic>,
)
    requires
        s.contains(Topic::Access),
    ensures
        touches(t, connect_from_run(a, t, r, n), s),
    decreases t.log.len() - t.at,
{
    react_touches(a, t, r, s);
    react_is_steady(a, t, t, r);
    let z = react_run(a, t, r);
    if z.out is Ok {
        connect_touches(a.config, z.tape, s);
        connect_is_steady(a.config, z.tape, z.tape);
        parts_touch(t, z, connect_run(a.config, z.tape), s);
    }
    let y = connect_attempt_run(a, t, r);
    connect_attempt_is_steady(a, t, t, r);
    weigh_touches(t, y, n, s);
    weigh_is_steady(t, t, y, y, n);
    let x = weigh(y, n);
    if let Ok(Err(r)) = x.out {
        connect_from_touches(a, x.tape, Some(r), n + 1, s);
        connect_from_is_steady(a, x.tape, x.tape, Some(r), n + 1);
        parts_touch(t, x, connect_from_run(a, x.tape, Some(r), n + 1), s);
    }
}

/// Making another connection touches nothing but access.
pub proof fn connect_again_touches<'a>(a: &'a Actor<Online>, t: TapeView<'a>, s: Set<Topic>)
    requires
        s.contains(Topic::Access),
    ensures
        touches(t, connect_again_run(a, t), s),
{
    connect_from_touches(a, t, None, 0, s);
}

// ---- Lookups --------------------------------------------------------------------------------

proof fn fetch_user_touches<'a>(a: &'a Actor<Online>, t: TapeView<'a>, id: UserId, s: Set<Topic>)
    requires
        s.contains(Topic::Access),
        s.contains(Topic::People),
    ensures
        touches(t, fetch_user_run(a, t, id), s),
{
    let q = ApiView::User(id);
    call_touches::<Option<ApiUser>>(a, t, q, s);
    call_is_steady::<Option<ApiUser>>(a, t, t, q);
}

/// Resolving a user touches nothing but access and people.
pub proof fn resolve_user_touches<'a>(
    a: &'a Actor<Online>,
    t: TapeView<'a>,
    id: UserId,
    allow_local: bool,
    s: Set<Topic>,
)
    requires
        s.contains(Topic::Access),
        s.contains(Topic::People),
    ensures
        touches(t, resolve_user_run(a, t, id, allow_local), s),
{
    fetch_user_touches(a, t, id, s);
    let x = ask::<Option<User>>(t, QueryView::Db(a.db(), DbView::User(id)));
    if x.out is Ok {
        fetch_user_touches(a, x.tape, id, s);
        fetch_user_is_steady(a, x.tape, x.tape, id);
        parts_touch(t, x, fetch_user_run(a, x.tape, id), s);
    }
}

proof fn fetch_client_touches<'a>(
    a: &'a Actor<Online>,
    t: TapeView<'a>,
    user: UserId,
    id: Seq<char>,
    s: Set<Topic>,
)
    requires
        s.contains(Topic::Access),
        s.contains(Topic::People),
    ensures
        touches(t, fetch_client_run(a, t, user, id), s),
{
    let q = ApiView::Client(user, id);
    call_touches::<Option<ApiClient>>(a, t, q, s);
    call_is_steady::<Option<ApiClient>>(a, t, t, q);
}

/// Resolving a device touches nothing but access and people.
pub proof fn resolve_client_touches<'a>(
    a: &'a Actor<Online>,
    t: TapeView<'a>,
    user: UserId,
    id: Seq<char>,
    s: Set<Topic>,
)
    requires
        s.contains(Topic::Access),
        s.contains(Topic::People),
    ensures
        touches(t, resolve_client_run(a, t, user, id), s),
{
    let x = ask::<Option<Client>>(t, QueryView::Db(a.db(), DbView::Client(user, id)));
    if x.out is Ok {
        fetch_client_touches(a, x.tape, user, id, s);
        fetch_client_is_steady(a, x.tape, x.tape, user, id);
        parts_touch(t, x, fetch_client_run(a, x.tape, user, id), s);
    }
}

proof fn convert_clients_touches<'a>(
    t: TapeView<'a>,
    user: UserId,
    cs: Seq<ApiClient>,
    before: Seq<&'a Client>,
    s: Set<Topic>,
)
    requires
        s.contains(Topic::People),
    ensures
        touches(t, convert_clients_run(t, user, cs, before), s),
    decreases cs.len(),
{
    if cs.len() > 0 {
        let x = ask::<Client>(t, QueryView::Convert(Convert::Client(user, &cs[0])));
        if let Ok(c) = x.out {
            let rest = cs.drop_first();
            convert_clients_touches(x.tape, user, rest, before.push(&c), s);
            convert_clients_is_steady(x.tape, x.tape, user, rest, before.push(&c));
            parts_touch(t, x, convert_clients_run(x.tape, user, rest, before.push(&c)), s);
        }
    }
}

proof fn fetch_clients_touches<'a>(
    a: &'a Actor<Online>,
    t: TapeView<'a>,
    user: UserId,
    s: Set<Topic>,
)
    requires
        s.contains(Topic::Access),
        s.contains(Topic::People),
    ensures
        touches(t, fetch_clients_run(a, t, user), s),
{
    let q = ApiView::Clients(user);
    call_touches::<Vec<ApiClient>>(a, t, q, s);
    call_is_steady::<Vec<ApiClient>>(a, t, t, q);
    let x = call_run::<Vec<ApiClient>>(a, t, q);
    if let Ok(cs) = x.out {
        let y = ask::<()>(x.tape, QueryView::Db(a.db(), DbView::InsertClients(user, &cs)));
        parts_touch(t, x, y, s);
        if y.out is Ok {
            convert_clients_touches(y.tape, user, cs@, Seq::empty(), s);
            convert_clients_is_steady(y.tape, y.tape, user, cs@, Seq::empty());
            parts_touch(t, y, convert_clients_run(y.tape, user, cs@, Seq::empty()), s);
        }
    }
}

/// Resolving a user's devices touches nothing but access and people.
pub proof fn resolve_clients_touches<'a>(
    a: &'a Actor<Online>,
    t: TapeView<'a>,
    user: UserId,
    s: Set<Topic>,
)
    requires
        s.contains(Topic::Access),
        s.contains(Topic::People),
    ensures
        touches(t, resolve_clients_run(a, t, user), s),
{
    let x = ask::<Vec<Client>>(t, QueryView::Db(a.db(), DbView::Clients(user)));
    if x.out is Ok {
        fetch_clients_touches(a, x.tape, user, s);
        fetch_clients_is_steady(a, x.tape, x.tape, user);
        parts_touch(t, x, fetch_clients_run(a, x.tape, user), s);
    }
}

proof fn resolve_members_touches<'a>(
    a: &'a Actor<Online>,
    t: TapeView<'a>,
    members: Seq<Member>,
    nobody: bool,
    s: Set<Topic>,
)
    requires
        s.contains(Topic::Access),
        s.contains(Topic::People),
    ensures
        touches(t, resolve_members_run(a, t, members, nobody), s),
    decreases members.len(),
{
    if members.len() > 0 {
        let rest = members.drop_first();
        if !members[0].current || members[0].id == a.me_id() {
            resolve_members_touches(a, t, rest, nobody, s);
        } else {
            resolve_user_touches(a, t, members[0].id, true, s);
            let x = resolve_user_run(a, t, members[0].id, true);
            if let Ok(found) = x.out {
                let nobody = nobody && found is None;
                resolve_members_touches(a, x.tape, rest, nobody, s);
                resolve_members_is_steady(a, x.tape, x.tape, rest, nobody);
                parts_touch(t, x, resolve_members_run(a, x.tape, rest, nobody), s);
            }
        }
    }
}

proof fn keep_conversation_touches<'a>(
    a: &'a Actor<Online>,
    t: TapeView<'a>,
    roster: Roster<'a>,
    s: Set<Topic>,
)
    requires
        s.contains(Topic::Clock),
        s.contains(Topic::Talks),
        s.contains(Topic::NewTalk),
    ensures
        touches(t, keep_conversation_run(a, t, roster), s),
{
}

/// What is asked before it is clear whether a conversation is taken in.
proof fn gather_touches<'a>(
    a: &'a Actor<Online>,
    t: TapeView<'a>,
    c: &'a ApiConversation,
    s: Set<Topic>,
)
    requires
        s.contains(Topic::Access),
        s.contains(Topic::People),
        s.contains(Topic::Talks),
        s.contains(Topic::Clock) && s.contains(Topic::NewTalk) || adopt_conversation_run(
            a,
            t,
            c,
        ).out == Ok::<Option<&'a Conversation>, StopView<'a>>(None),
    ensures
        touches(t, adopt_conversation_run(a, t, c), s),
{
    resolve_user_touches(a, t, c.creator, true, s);
    let x = resolve_user_run(a, t, c.creator, true);
    if x.out is Ok {
        resolve_members_touches(a, x.tape, c.others@, true, s);
        resolve_members_is_steady(a, x.tape, x.tape, c.others@, true);
        let y = resolve_members_run(a, x.tape, c.others@, true);
        parts_touch(t, x, y, s);
        if let Ok(nobody) = y.out {
            if c.typ != ConvType::OneToOne || !nobody {
                let z = keep_conversation_run(a, y.tape, Roster::Current(c));
                if s.contains(Topic::Clock) && s.contains(Topic::NewTalk) {
                    keep_conversation_touches(a, y.tape, Roster::Current(c), s);
                    keep_conversation_is_steady(a, y.tape, y.tape, Roster::Current(c));
                    parts_touch(t, y, z, s);
                }
            }
        }
    }
}

/// Fetching a conversation looks none up in the database.
pub proof fn fetch_conversation_touches<'a>(
    a: &'a Actor<Online>,
    t: TapeView<'a>,
    id: ConvId,
    s: Set<Topic>,
)
    requires
        s.contains(Topic::Access),
        s.contains(Topic::People),
        s.contains(Topic::Talks),
        s.contains(Topic::Clock) && s.contains(Topic::NewTalk) || fetch_conversation_run(
            a,
            t,
            id,
        ).out == Ok::<Option<&'a Conversation>, StopView<'a>>(None),
    ensures
        touches(t, fetch_conversation_run(a, t, id), s),
{
    let q = ApiView::Conversation(id);
    call_touches::<Option<ApiConversation>>(a, t, q, s);
    call_is_steady::<Option<ApiConversation>>(a, t, t, q);
    let x = call_run::<Option<ApiConversation>>(a, t, q);
    if let Ok(Some(c)) = x.out {
        if c.current {
            gather_touches(a, x.tape, &c, s);
            adopt_conversation_is_steady(a, x.tape, x.tape, &c);
            parts_touch(t, x, adopt_conversation_run(a, x.tape, &c), s);
        }
    }
}

/// Resolving a conversation touches nothing but access, people, conversations and the clock. If none
/// is found, neither the clock is touched nor is any conversation stored: one that we have left, and
/// one with a single peer who is not there, stay out of the database.
pub proof fn resolve_conversation_touches<'a>(
    a: &'a Actor<Online>,
    t: TapeView<'a>,
    id: ConvId,
    s: Set<Topic>,
)
    requires
        s.contains(Topic::Access),
        s.contains(Topic::People),
        s.contains(Topic::Talks),
        s.contains(Topic::Lookup),
        s.contains(Topic::Clock) && s.contains(Topic::NewTalk) || resolve_conversation_run(
            a,
            t,
            id,
        ).out == Ok::<Option<&'a Conversation>, StopView<'a>>(None),
    ensures
        touches(t, resolve_conversation_run(a, t, id), s),
{
    let x = ask::<Option<Conversation>>(t, QueryView::Db(a.db(), DbView::Conversation(id)));
    if let Ok(None) = x.out {
        fetch_conversation_touches(a, x.tape, id, s);
        fetch_conversation_is_steady(a, x.tape, x.tape, id);
        parts_touch(t, x, fetch_conversation_run(a, x.tape, id), s);
    }
}

} // verus!
