//! What holds of messages and notifications, whatever the services answer.
use crate::access::{
    call_is_steady, call_run, connect_again_is_steady, connect_again_run, react_is_steady,
};
use crate::actor::{Actor, Online};
use crate::directory::{
    resolve_client_is_steady, resolve_client_run, resolve_clients_is_steady, resolve_clients_run,
    resolve_conversation_is_steady, resolve_conversation_run, resolve_user_run,
};
use crate::events::{
    announce_is_steady, announce_run, enter_is_steady, enter_run, greet_is_steady, greet_run,
    join_all_is_steady, join_all_run, join_and_tell_is_steady, join_and_tell_run, join_is_steady,
    join_run, keep_plain_is_steady, keep_plain_run, on_conv_create_run, on_event_is_steady,
    on_event_run, on_events_is_steady, on_events_run, on_member_join_run, on_message_add_run,
    on_notification_is_steady, on_notification_run, on_user_connection_run, open_message_is_steady,
    open_message_run, receive_is_steady, receive_run, resolve_everyone_is_steady,
    resolve_everyone_run, welcome_is_steady, welcome_run,
};
use crate::feed::{
    catch_up_run, fetch_attempt_is_steady, fetch_attempt_run, fetch_from_is_steady, fetch_from_run,
    fetch_round_is_steady, fetch_round_run, finish_stream_is_steady, finish_stream_run,
    notifications_run, open_stream_is_steady, open_stream_run, read_stream_is_steady,
    read_stream_run, skip_ahead_is_steady, skip_ahead_run,
};
use crate::footprint::{
    call_touches, connect_again_touches, parts_touch, react_touches, resolve_client_touches,
    resolve_clients_touches, resolve_conversation_touches, resolve_user_touches, topic, touches,
    Topic,
};
use crate::laws_lookups::{just, next_is};
use crate::model::{
    ApiConversation, Client, ClientId, ClientMismatch, ClientPrekey, ConvEvent, ConvEventData,
    ConvId, Envelope, Event, EventType, Failure, Handle, Member, NewSession, NotifId, Notification,
    OtrMessage, OutMessage, Plaintext, QueueItem, Reaction, StreamItem, Time, User, UserEvent,
    UserId, UserPrekeys, UserSessionsView,
};
use crate::outbox::{
    begin_send_is_steady, begin_send_run, deliver_from_is_steady, deliver_from_run,
    fill_envelope_run, include_clients_is_steady, include_clients_run, include_is_steady,
    include_run, include_users_is_steady, include_users_run, judge, judge_is_steady,
    on_mismatch_run, record_sent_run, seal_clients_is_steady, seal_clients_run, seal_for_is_steady,
    seal_for_run, seal_is_steady, seal_members_is_steady, seal_members_run, seal_run,
    seal_sessions_is_steady, seal_sessions_run, send_attempt_is_steady, send_attempt_run,
    send_message_is_steady, send_message_run, Remedy,
};
use crate::query::{ApiView, Code, CryptView, DbView, Incoming, Link, PkgView, QueryView};
use crate::resend::{resend_item_run, settle_item_run};
use crate::tape::{ask, begins_with, done, Reply, Run, StopView, TapeView};
use vstd::prelude::*;

verus! {

// ---- What events touch ----------------------------------------------------------------------

/// Everything that taking in an event may touch.
pub open spec fn event_topics() -> Set<Topic> {
    set![
        Topic::Access,
        Topic::People,
        Topic::Links,
        Topic::Talks,
        Topic::Lookup,
        Topic::NewTalk,
        Topic::Clock,
        Topic::Texts,
        Topic::Crypto,
        Topic::News,
    ]
}

proof fn on_user_connection_touches<'a>(a: &'a Actor<Online>, t: TapeView<'a>, e: &'a UserEvent)
    ensures
        touches(t, on_user_connection_run(a, t, e), event_topics()),
{
    if let UserEvent::Connect(c) = e {
        resolve_user_touches(a, t, c.to, true, event_topics());
        let x = resolve_user_run(a, t, c.to, true);
        if let Ok(Some(user)) = x.out {
            greet_is_steady(a, x.tape, x.tape, c, user);
            parts_touch(t, x, greet_run(a, x.tape, c, user), event_topics());
        }
    }
}

proof fn resolve_everyone_touches<'a>(a: &'a Actor<Online>, t: TapeView<'a>, members: Seq<Member>)
    ensures
        touches(t, resolve_everyone_run(a, t, members), event_topics()),
    decreases members.len(),
{
    if members.len() > 0 {
        resolve_user_touches(a, t, members[0].id, true, event_topics());
        let x = resolve_user_run(a, t, members[0].id, true);
        if x.out is Ok {
            let rest = members.drop_first();
            resolve_everyone_touches(a, x.tape, rest);
            resolve_everyone_is_steady(a, x.tape, x.tape, rest);
            parts_touch(t, x, resolve_everyone_run(a, x.tape, rest), event_topics());
        }
    }
}

proof fn welcome_touches<'a>(
    a: &'a Actor<Online>,
    t: TapeView<'a>,
    e: &'a ConvEvent,
    c: &'a ApiConversation,
)
    ensures
        touches(t, welcome_run(a, t, e, c), event_topics()),
{
    resolve_everyone_touches(a, t, c.others@);
    let x = resolve_everyone_run(a, t, c.others@);
    if x.out is Ok {
        announce_is_steady(a, x.tape, x.tape, e, c);
        parts_touch(t, x, announce_run(a, x.tape, e, c), event_topics());
    }
}

proof fn on_conv_create_touches<'a>(a: &'a Actor<Online>, t: TapeView<'a>, e: &'a ConvEvent)
    ensures
        touches(t, on_conv_create_run(a, t, e), event_topics()),
{
    if let ConvEventData::Create(c) = &e.data {
        welcome_touches(a, t, e, c);
        resolve_user_touches(a, t, c.creator, true, event_topics());
        let x = resolve_user_run(a, t, c.creator, true);
        if x.out is Ok {
            welcome_touches(a, x.tape, e, c);
            welcome_is_steady(a, x.tape, x.tape, e, c);
            parts_touch(t, x, welcome_run(a, x.tape, e, c), event_topics());
        }
    }
}

proof fn enter_touches<'a>(
    a: &'a Actor<Online>,
    t: TapeView<'a>,
    e: &'a ConvEvent,
    id: UserId,
    user: &'a User,
)
    ensures
        touches(t, enter_run(a, t, e, id, user), event_topics()),
{
    let x = ask::<()>(t, QueryView::Db(a.db(), DbView::InsertMember(e.id, id)));
    let y = ask::<()>(
        x.tape,
        QueryView::Db(a.db(), DbView::InsertJoined { conv: e.id, time: e.time, user: user.id }),
    );
    parts_touch(t, x, y, event_topics());
    if x.out is Ok && y.out is Ok {
        resolve_clients_touches(a, y.tape, id, event_topics());
        resolve_clients_is_steady(a, y.tape, y.tape, id);
        parts_touch(t, y, resolve_clients_run(a, y.tape, id), event_topics());
    }
}

proof fn join_all_touches<'a>(
    a: &'a Actor<Online>,
    t: TapeView<'a>,
    e: &'a ConvEvent,
    ids: Seq<UserId>,
    joined: Seq<&'a User>,
)
    ensures
        touches(t, join_all_run(a, t, e, ids, joined), event_topics()),
    decreases ids.len(),
{
    if ids.len() > 0 {
        let z = join_run(a, t, e, ids[0], joined);
        join_is_steady(a, t, t, e, ids[0], joined);
        if ids[0] != a.me_id() {
            resolve_user_touches(a, t, ids[0], true, event_topics());
            let x = resolve_user_run(a, t, ids[0], true);
            if let Ok(Some(user)) = x.out {
                enter_touches(a, x.tape, e, ids[0], user);
                enter_is_steady(a, x.tape, x.tape, e, ids[0], user);
                parts_touch(t, x, enter_run(a, x.tape, e, ids[0], user), event_topics());
            }
        }
        assert(touches(t, z, event_topics()));
        if let Ok(joined) = z.out {
            let rest = ids.drop_first();
            join_all_touches(a, z.tape, e, rest, joined);
            join_all_is_steady(a, z.tape, z.tape, e, rest, joined);
            parts_touch(t, z, join_all_run(a, z.tape, e, rest, joined), event_topics());
        }
    }
}

proof fn on_member_join_touches<'a>(a: &'a Actor<Online>, t: TapeView<'a>, e: &'a ConvEvent)
    ensures
        touches(t, on_member_join_run(a, t, e), event_topics()),
{
    if let ConvEventData::Join(ids) = &e.data {
        resolve_conversation_touches(a, t, e.id, event_topics());
        let x = resolve_conversation_run(a, t, e.id);
        if x.out is Ok {
            join_all_touches(a, x.tape, e, ids@, Seq::empty());
            join_and_tell_is_steady(a, x.tape, x.tape, e, ids@);
            parts_touch(t, x, join_and_tell_run(a, x.tape, e, ids@), event_topics());
        }
    }
}

proof fn receive_touches<'a>(
    a: &'a Actor<Online>,
    t: TapeView<'a>,
    e: &'a ConvEvent,
    msg: &'a OtrMessage,
    user: &'a User,
)
    ensures
        touches(t, receive_run(a, t, e, msg, user), event_topics()),
{
    resolve_client_touches(a, t, user.id, msg.sender@, event_topics());
    let x = resolve_client_run(a, t, user.id, msg.sender@);
    if x.out is Ok {
        resolve_conversation_touches(a, x.tape, e.id, event_topics());
        resolve_conversation_is_steady(a, x.tape, x.tape, e.id);
        let y = resolve_conversation_run(a, x.tape, e.id);
        parts_touch(t, x, y, event_topics());
        if y.out is Ok {
            open_message_is_steady(a, y.tape, y.tape, e, msg, user);
            open_message_touches(a, y.tape, e, msg, user);
            parts_touch(t, y, open_message_run(a, y.tape, e, msg, user), event_topics());
        }
    }
}

proof fn open_message_touches<'a>(
    a: &'a Actor<Online>,
    t: TapeView<'a>,
    e: &'a ConvEvent,
    msg: &'a OtrMessage,
    user: &'a User,
)
    ensures
        touches(t, open_message_run(a, t, e, msg, user), event_topics()),
{
    let q = QueryView::Crypt(a.state.user.device.cbox, CryptView::Decrypt(e.from, msg));
    let x = ask::<Plaintext>(t, q);
    if let Ok(plain) = x.out {
        keep_plain_is_steady(a, x.tape, x.tape, e, msg, user, &plain);
        parts_touch(t, x, keep_plain_run(a, x.tape, e, msg, user, &plain), event_topics());
    }
}

proof fn on_message_add_touches<'a>(a: &'a Actor<Online>, t: TapeView<'a>, e: &'a ConvEvent)
    ensures
        touches(t, on_message_add_run(a, t, e), event_topics()),
{
    if let ConvEventData::Encrypted(msg) = &e.data {
        resolve_user_touches(a, t, e.from, true, event_topics());
        let x = resolve_user_run(a, t, e.from, true);
        if let Ok(Some(user)) = x.out {
            receive_touches(a, x.tape, e, msg, user);
            receive_is_steady(a, x.tape, x.tape, e, msg, user);
            parts_touch(t, x, receive_run(a, x.tape, e, msg, user), event_topics());
        }
    }
}

/// Taking in events touches neither the queue, nor what was sent, nor what is recorded of
/// notifications.
pub proof fn events_touch<'a>(a: &'a Actor<Online>, t: TapeView<'a>, es: Seq<Event>)
    ensures
        touches(t, on_events_run(a, t, es), event_topics()),
    decreases es.len(),
{
    if es.len() > 0 {
        match &es[0] {
            Event::User(EventType::UserConnection, e) => on_user_connection_touches(a, t, e),
            Event::Conv(EventType::ConvCreate, e) => on_conv_create_touches(a, t, e),
            Event::Conv(EventType::ConvMemberJoin, e) => on_member_join_touches(a, t, e),
            Event::Conv(EventType::ConvMessageAdd, e) => on_message_add_touches(a, t, e),
            _ => {},
        }
        on_event_is_steady(a, t, t, &es[0]);
        let x = on_event_run(a, t, &es[0]);
        if x.out is Ok {
            events_touch(a, x.tape, es.drop_first());
            on_events_is_steady(a, x.tape, x.tape, es.drop_first());
            parts_touch(t, x, on_events_run(a, x.tape, es.drop_first()), event_topics());
        }
    }
}

// ---- What sending touches -------------------------------------------------------------------

/// Everything that delivering an envelope may touch.
pub open spec fn delivery_topics() -> Set<Topic> {
    set![Topic::Access, Topic::People, Topic::Post, Topic::Crypto]
}

proof fn include_clients_touches<'a>(
    a: &'a Actor<Online>,
    t: TapeView<'a>,
    user: UserId,
    cs: Seq<ClientPrekey>,
    made: Seq<NewSession<'a>>,
)
    ensures
        touches(t, include_clients_run(a, t, user, cs, made), delivery_topics()),
    decreases cs.len(),
{
    if cs.len() > 0 {
        let c = &cs[0];
        resolve_client_touches(a, t, user, c.client@, delivery_topics());
        resolve_client_is_steady(a, t, t, user, c.client@);
        include_is_steady(a, t, t, user, c, made);
        let x = include_run(a, t, user, c, made);
        assert(touches(t, x, delivery_topics()));
        if let Ok(made) = x.out {
            let rest = cs.drop_first();
            include_clients_touches(a, x.tape, user, rest, made);
            include_clients_is_steady(a, x.tape, x.tape, user, rest, made);
            parts_touch(
                t,
                x,
                include_clients_run(a, x.tape, user, rest, made),
                delivery_topics(),
            );
        }
    }
}

proof fn include_users_touches<'a>(
    a: &'a Actor<Online>,
    t: TapeView<'a>,
    users: Seq<UserPrekeys>,
    made: Seq<UserSessionsView<'a>>,
)
    ensures
        touches(t, include_users_run(a, t, users, made), delivery_topics()),
    decreases users.len(),
{
    if users.len() > 0 {
        let (user, cs) = (users[0].user, users[0].clients@);
        include_clients_touches(a, t, user, cs, Seq::empty());
        let x = include_clients_run(a, t, user, cs, Seq::empty());
        if let Ok(sessions) = x.out {
            let rest = users.drop_first();
            let made = made.push(UserSessionsView { user, sessions });
            include_users_touches(a, x.tape, rest, made);
            include_users_is_steady(a, x.tape, x.tape, rest, made);
            parts_touch(t, x, include_users_run(a, x.tape, rest, made), delivery_topics());
        }
    }
}

proof fn seal_sessions_touches<'a>(
    a: &'a Actor<Online>,
    t: TapeView<'a>,
    user: UserId,
    ss: Seq<NewSession<'a>>,
    plain: &'a Vec<u8>,
    envelope: Envelope,
)
    ensures
        touches(t, seal_sessions_run(a, t, user, ss, plain, envelope), delivery_topics()),
    decreases ss.len(),
{
    if ss.len() > 0 {
        let x = ask::<()>(
            t,
            QueryView::Crypt(
                a.state.user.device.cbox,
                CryptView::Encrypt {
                    session: ss[0].session,
                    user,
                    client: ss[0].client@,
                    plain,
                    envelope,
                },
            ),
        );
        if x.out is Ok {
            let rest = ss.drop_first();
            seal_sessions_touches(a, x.tape, user, rest, plain, envelope);
            seal_sessions_is_steady(a, x.tape, x.tape, user, rest, plain, envelope);
            let r = seal_sessions_run(a, x.tape, user, rest, plain, envelope);
            parts_touch(t, x, r, delivery_topics());
        }
    }
}

proof fn seal_for_touches<'a>(
    a: &'a Actor<Online>,
    t: TapeView<'a>,
    us: Seq<UserSessionsView<'a>>,
    plain: &'a Vec<u8>,
    envelope: Envelope,
)
    ensures
        touches(t, seal_for_run(a, t, us, plain, envelope), delivery_topics()),
    decreases us.len(),
{
    if us.len() > 0 {
        let (user, ss) = (us[0].user, us[0].sessions);
        seal_sessions_touches(a, t, user, ss, plain, envelope);
        let x = seal_sessions_run(a, t, user, ss, plain, envelope);
        if x.out is Ok {
            let rest = us.drop_first();
            seal_for_touches(a, x.tape, rest, plain, envelope);
            seal_for_is_steady(a, x.tape, x.tape, rest, plain, envelope);
            parts_touch(t, x, seal_for_run(a, x.tape, rest, plain, envelope), delivery_topics());
        }
    }
}

proof fn begin_send_touches<'a>(
    a: &'a Actor<Online>,
    t: TapeView<'a>,
    how: Option<Remedy<'a>>,
    plain: &'a Vec<u8>,
    envelope: Envelope,
)
    ensures
        touches(t, begin_send_run(a, t, how, plain, envelope), delivery_topics()),
{
    match how {
        Some(Remedy::Include(m)) => {
            let q = ApiView::Prekeys(m);
            call_touches::<Vec<UserPrekeys>>(a, t, q, delivery_topics());
            call_is_steady::<Vec<UserPrekeys>>(a, t, t, q);
            let x = call_run::<Vec<UserPrekeys>>(a, t, q);
            if let Ok(users) = x.out {
                include_users_touches(a, x.tape, users@, Seq::empty());
                include_users_is_steady(a, x.tape, x.tape, users@, Seq::empty());
                let y = include_users_run(a, x.tape, users@, Seq::empty());
                parts_touch(t, x, y, delivery_topics());
                if let Ok(us) = y.out {
                    seal_for_touches(a, y.tape, us, plain, envelope);
                    seal_for_is_steady(a, y.tape, y.tape, us, plain, envelope);
                    parts_touch(
                        t,
                        y,
                        seal_for_run(a, y.tape, us, plain, envelope),
                        delivery_topics(),
                    );
                }
            }
        },
        Some(Remedy::React(r)) => {
            react_touches(a, t, Some(r), delivery_topics());
        },
        None => {},
    }
}

/// Delivering an envelope records nothing: it touches neither the queue nor what was sent.
pub proof fn delivery_touches<'a>(
    a: &'a Actor<Online>,
    t: TapeView<'a>,
    how: Option<Remedy<'a>>,
    n: nat,
    plain: &'a Vec<u8>,
    envelope: Envelope,
)
    ensures
        touches(t, deliver_from_run(a, t, how, n, plain, envelope), delivery_topics()),
    decreases t.log.len() - t.at,
{
    begin_send_touches(a, t, how, plain, envelope);
    begin_send_is_steady(a, t, t, how, plain, envelope);
    send_attempt_is_steady(a, t, t, how, plain, envelope);
    let y = send_attempt_run(a, t, how, plain, envelope);
    assert(touches(t, y, delivery_topics()));
    judge_is_steady(t, t, y, y, n);
    let x = judge(y, n);
    assert(touches(t, x, delivery_topics()));
    if let Ok(Err(next)) = x.out {
        delivery_touches(a, x.tape, Some(next), n + 1, plain, envelope);
        deliver_from_is_steady(a, x.tape, x.tape, Some(next), n + 1, plain, envelope);
        parts_touch(
            t,
            x,
            deliver_from_run(a, x.tape, Some(next), n + 1, plain, envelope),
            delivery_topics(),
        );
    }
}

// ---- Encrypting -----------------------------------------------------------------------------

/// Is every ciphertext that a run over `t` asks for meant for a device of one of these users, with
/// which a session was found just before?
pub open spec fn addressed<'a, T>(
    a: &'a Actor<Online>,
    t: TapeView<'a>,
    r: Run<'a, T>,
    users: Seq<UserId>,
) -> bool {
    forall|i: int|
        t.asked.len() <= i < r.tape.asked.len() ==> (#[trigger] r.tape.asked[i] matches
            QueryView::Crypt(_, CryptView::Encrypt { user, client, .. }) ==> {
            &&& users.contains(user)
            &&& i > t.asked.len()
            &&& r.tape.asked[i - 1] == QueryView::Crypt(
                a.state.user.device.cbox,
                CryptView::Session(user, client),
            )
        })
}

proof fn parts_are_addressed<'a, T, U>(
    a: &'a Actor<Online>,
    t: TapeView<'a>,
    x: Run<'a, T>,
    r: Run<'a, U>,
    users: Seq<UserId>,
)
    requires
        addressed(a, t, x, users),
        begins_with(r.tape.asked, x.tape.asked),
        begins_with(x.tape.asked, t.asked),
        addressed(a, x.tape, r, users),
    ensures
        addressed(a, t, r, users),
{
    assert forall|i: int| t.asked.len() <= i < r.tape.asked.len() implies (
    #[trigger] r.tape.asked[i] matches QueryView::Crypt(
        _,
        CryptView::Encrypt { user, client, .. },
    ) ==> {
        &&& users.contains(user)
        &&& i > t.asked.len()
        &&& r.tape.asked[i - 1] == QueryView::Crypt(
            a.state.user.device.cbox,
            CryptView::Session(user, client),
        )
    }) by {
        if i < x.tape.asked.len() {
            assert(r.tape.asked[i] == x.tape.asked[i]);
            if i > t.asked.len() {
                assert(r.tape.asked[i - 1] == x.tape.asked[i - 1]);
            }
        }
    }
}

proof fn seal_clients_addresses<'a>(
    a: &'a Actor<Online>,
    t: TapeView<'a>,
    user: UserId,
    clients: Seq<Client>,
    plain: &'a Vec<u8>,
    envelope: Envelope,
    users: Seq<UserId>,
)
    requires
        users.contains(user),
    ensures
        addressed(a, t, seal_clients_run(a, t, user, clients, plain, envelope), users),
    decreases clients.len(),
{
    if clients.len() > 0 {
        let id = clients[0].id@;
        let rest = clients.drop_first();
        let x = seal_run(a, t, user, id, plain, envelope);
        seal_is_steady(a, t, t, user, id, plain, envelope);
        assert(addressed(a, t, x, users));
        if x.out is Ok {
            seal_clients_addresses(a, x.tape, user, rest, plain, envelope, users);
            seal_clients_is_steady(a, x.tape, x.tape, user, rest, plain, envelope);
            parts_are_addressed(
                a,
                t,
                x,
                seal_clients_run(a, x.tape, user, rest, plain, envelope),
                users,
            );
        }
    }
}

proof fn seal_members_addresses<'a>(
    a: &'a Actor<Online>,
    t: TapeView<'a>,
    members: Seq<UserId>,
    plain: &'a Vec<u8>,
    envelope: Envelope,
    users: Seq<UserId>,
)
    requires
        forall|i: int| 0 <= i < members.len() ==> users.contains(#[trigger] members[i]),
    ensures
        addressed(a, t, seal_members_run(a, t, members, plain, envelope), users),
    decreases members.len(),
{
    if members.len() > 0 {
        let m = members[0];
        let rest = members.drop_first();
        let x = ask::<Vec<Client>>(t, QueryView::Db(a.db(), DbView::Clients(m)));
        if let Ok(clients) = x.out {
            seal_clients_addresses(a, x.tape, m, clients@, plain, envelope, users);
            seal_clients_is_steady(a, x.tape, x.tape, m, clients@, plain, envelope);
            let y = seal_clients_run(a, x.tape, m, clients@, plain, envelope);
            parts_are_addressed(a, t, x, y, users);
            if y.out is Ok {
                assert forall|i: int| 0 <= i < rest.len() implies users.contains(
                    #[trigger] rest[i],
                ) by {
                    assert(rest[i] == members[i + 1]);
                }
                seal_members_addresses(a, y.tape, rest, plain, envelope, users);
                seal_members_is_steady(a, y.tape, y.tape, rest, plain, envelope);
                parts_are_addressed(
                    a,
                    t,
                    y,
                    seal_members_run(a, y.tape, rest, plain, envelope),
                    users,
                );
            }
        }
    }
}

/// A message is encrypted for nobody but the members of its conversation, and only for devices with
/// which there is a session.
pub proof fn only_members_are_addressed<'a>(
    a: &'a Actor<Online>,
    t: TapeView<'a>,
    conv: ConvId,
    members: Seq<UserId>,
    msg: &'a OutMessage,
)
    ensures
        addressed(a, t, fill_envelope_run(a, t, conv, members, msg), members),
{
    let x = ask::<Handle>(t, QueryView::NewEnvelope(conv, a.state.user.device.client.id@));
    if let Ok(record) = x.out {
        let y = ask::<Vec<u8>>(x.tape, QueryView::Code(Code::EncodeMessage(msg)));
        parts_are_addressed(a, t, x, y, members);
        if let Ok(plain) = y.out {
            let envelope = Envelope { conv, record };
            seal_members_addresses(a, y.tape, members, &plain, envelope, members);
            seal_members_is_steady(a, y.tape, y.tape, members, &plain, envelope);
            parts_are_addressed(
                a,
                t,
                y,
                seal_members_run(a, y.tape, members, &plain, envelope),
                members,
            );
        }
    }
}

// ---- Sending --------------------------------------------------------------------------------

/// How a message fares before anything is recorded of it: it is encoded and delivered.
pub open spec fn encode_and_deliver_run<'a>(
    a: &'a Actor<Online>,
    t: TapeView<'a>,
    envelope: Envelope,
    msg: &'a OutMessage,
) -> Run<'a, Time> {
    ask::<Vec<u8>>(t, QueryView::Code(Code::EncodeMessage(msg))).and_then(
        |t: TapeView<'a>, plain: Vec<u8>| deliver_from_run(a, t, None, 0, &plain, envelope),
    )
}

/// Everything that this may touch.
pub open spec fn dispatch_topics() -> Set<Topic> {
    delivery_topics().insert(Topic::Codec)
}

proof fn encode_and_deliver_touches<'a>(
    a: &'a Actor<Online>,
    t: TapeView<'a>,
    envelope: Envelope,
    msg: &'a OutMessage,
)
    ensures
        touches(t, encode_and_deliver_run(a, t, envelope, msg), dispatch_topics()),
        begins_with(encode_and_deliver_run(a, t, envelope, msg).tape.asked, t.asked),
{
    let x = ask::<Vec<u8>>(t, QueryView::Code(Code::EncodeMessage(msg)));
    if let Ok(plain) = x.out {
        delivery_touches(a, x.tape, None, 0, &plain, envelope);
        deliver_from_is_steady(a, x.tape, x.tape, None, 0, &plain, envelope);
        parts_touch(
            t,
            x,
            deliver_from_run(a, x.tape, None, 0, &plain, envelope),
            dispatch_topics(),
        );
    }
}

/// A message that was not delivered is not recorded as sent.
pub proof fn undelivered_is_not_recorded<'a>(
    a: &'a Actor<Online>,
    t: TapeView<'a>,
    envelope: Envelope,
    msg: &'a OutMessage,
)
    requires
        encode_and_deliver_run(a, t, envelope, msg).out is Err,
    ensures
        send_message_run(a, t, envelope, msg) == encode_and_deliver_run(a, t, envelope, msg),
        touches(t, send_message_run(a, t, envelope, msg), dispatch_topics()),
        !dispatch_topics().contains(Topic::Sent),
{
    encode_and_deliver_touches(a, t, envelope, msg);
}

/// A message that was sent was recorded as sent, with its time, in its conversation too; and that
/// came last.
pub proof fn sent_is_recorded<'a>(
    a: &'a Actor<Online>,
    t: TapeView<'a>,
    envelope: Envelope,
    msg: &'a OutMessage,
)
    ensures
        send_message_run(a, t, envelope, msg).out matches Ok(time) ==> {
            let x = encode_and_deliver_run(a, t, envelope, msg);
            &&& x.out == Ok::<Time, StopView<'a>>(time)
            &&& send_message_run(a, t, envelope, msg).tape.asked == x.tape.asked.push(
                QueryView::Db(a.db(), DbView::MessageSent(envelope.conv, &msg.id)),
            ).push(
                QueryView::Db(a.db(), DbView::MessageTime(envelope.conv, &msg.id, time)),
            ).push(QueryView::Db(a.db(), DbView::ConvTime(envelope.conv, time.secs)))
        },
{
}

proof fn send_message_touches<'a>(
    a: &'a Actor<Online>,
    t: TapeView<'a>,
    envelope: Envelope,
    msg: &'a OutMessage,
    s: Set<Topic>,
)
    requires
        dispatch_topics().subset_of(s),
        s.contains(Topic::Sent),
        s.contains(Topic::Texts),
    ensures
        touches(t, send_message_run(a, t, envelope, msg), s),
{
    encode_and_deliver_touches(a, t, envelope, msg);
    let x = encode_and_deliver_run(a, t, envelope, msg);
    assert(touches(t, x, s)) by {
        assert forall|i: int| t.asked.len() <= i < x.tape.asked.len() implies s.contains(
            topic(#[trigger] x.tape.asked[i]),
        ) by {
            assert(dispatch_topics().contains(topic(x.tape.asked[i])));
        }
    }
    if let Ok(time) = x.out {
        parts_touch(t, x, record_sent_run(a, x.tape, envelope.conv, &msg.id, time), s);
    }
}

/// Everything but the queue that resending an item may touch.
pub open spec fn resend_topics() -> Set<Topic> {
    dispatch_topics().insert(Topic::Sent).insert(Topic::Texts)
}

/// How a queue item fares before it is taken out: its message is parsed and sent.
pub open spec fn parse_and_send_run<'a>(a: &'a Actor<Online>, t: TapeView<'a>, q: &'a QueueItem) -> Run<
    'a,
    Option<Time>,
> {
    ask::<Option<OutMessage>>(t, QueryView::Code(Code::ParseMessage(&q.mesg))).and_then(
        |t: TapeView<'a>, msg: Option<OutMessage>|
            match msg {
                Some(msg) => ask::<Option<Handle>>(
                    t,
                    QueryView::Code(Code::ParseEnvelope(&q.data)),
                ).and_then(
                    |t: TapeView<'a>, record: Option<Handle>|
                        match record {
                            Some(record) => send_message_run(
                                a,
                                t,
                                Envelope { conv: q.conv, record },
                                &msg,
                            ).and_then(|t: TapeView<'a>, time: Time| done(t, Some(time))),
                            None => done(t, None),
                        },
                ),
                None => done(t, None),
            },
    )
}

/// An item stays in the queue unless its message was sent: one that cannot be parsed, and one whose
/// message cannot be sent, are left untouched.
pub proof fn unsent_item_stays_in_queue<'a>(a: &'a Actor<Online>, t: TapeView<'a>, q: &'a QueueItem)
    requires
        !(parse_and_send_run(a, t, q).out matches Ok(Some(_))),
    ensures
        touches(t, resend_item_run(a, t, q), resend_topics()),
        !resend_topics().contains(Topic::Queue),
{
    let x = ask::<Option<OutMessage>>(t, QueryView::Code(Code::ParseMessage(&q.mesg)));
    if let Ok(Some(msg)) = x.out {
        let y = ask::<Option<Handle>>(x.tape, QueryView::Code(Code::ParseEnvelope(&q.data)));
        parts_touch(t, x, y, resend_topics());
        if let Ok(Some(record)) = y.out {
            let envelope = Envelope { conv: q.conv, record };
            send_message_touches(a, y.tape, envelope, &msg, resend_topics());
            send_message_is_steady(a, y.tape, y.tape, envelope, &msg);
            parts_touch(t, y, send_message_run(a, y.tape, envelope, &msg), resend_topics());
        }
    }
}

/// An item whose message was sent is taken out of the queue next.
pub proof fn sent_item_is_taken_out<'a>(a: &'a Actor<Online>, t: TapeView<'a>, q: &'a QueueItem)
    ensures
        parse_and_send_run(a, t, q).out matches Ok(Some(time)) ==> resend_item_run(a, t, q)
            == settle_item_run(a, parse_and_send_run(a, t, q).tape, q, time),
{
}

// ---- Joining --------------------------------------------------------------------------------

/// Does a run over `t` add nobody to a conversation but users among these who are not us, and them
/// to the conversation of the event?
pub open spec fn lets_in<'a, T>(
    a: &'a Actor<Online>,
    t: TapeView<'a>,
    r: Run<'a, T>,
    e: &'a ConvEvent,
    ids: Seq<UserId>,
) -> bool {
    forall|i: int|
        t.asked.len() <= i < r.tape.asked.len() ==> (#[trigger] r.tape.asked[i] matches
            QueryView::Db(_, DbView::InsertMember(conv, user)) ==> conv == e.id && ids.contains(user)
            && user != a.me_id())
}

proof fn parts_let_in<'a, T, U>(
    a: &'a Actor<Online>,
    t: TapeView<'a>,
    x: Run<'a, T>,
    r: Run<'a, U>,
    e: &'a ConvEvent,
    ids: Seq<UserId>,
)
    requires
        lets_in(a, t, x, e, ids),
        begins_with(r.tape.asked, x.tape.asked),
        lets_in(a, x.tape, r, e, ids),
    ensures
        lets_in(a, t, r, e, ids),
{
    assert forall|i: int| t.asked.len() <= i < r.tape.asked.len() implies (
    #[trigger] r.tape.asked[i] matches QueryView::Db(_, DbView::InsertMember(conv, user)) ==> conv
        == e.id && ids.contains(user) && user != a.me_id()) by {
        if i < x.tape.asked.len() {
            assert(r.tape.asked[i] == x.tape.asked[i]);
        }
    }
}

proof fn lookups_let_nobody_in<'a, T>(
    a: &'a Actor<Online>,
    t: TapeView<'a>,
    r: Run<'a, T>,
    e: &'a ConvEvent,
    ids: Seq<UserId>,
)
    requires
        touches(t, r, set![Topic::Access, Topic::People]),
    ensures
        lets_in(a, t, r, e, ids),
{
    let s = set![Topic::Access, Topic::People];
    assert forall|i: int| t.asked.len() <= i < r.tape.asked.len() implies (
    #[trigger] r.tape.asked[i] matches QueryView::Db(_, DbView::InsertMember(conv, user)) ==> conv
        == e.id && ids.contains(user) && user != a.me_id()) by {
        assert(s.contains(topic(r.tape.asked[i])));
    }
}

proof fn enter_lets_in<'a>(
    a: &'a Actor<Online>,
    t: TapeView<'a>,
    e: &'a ConvEvent,
    id: UserId,
    user: &'a User,
    ids: Seq<UserId>,
)
    requires
        ids.contains(id),
        id != a.me_id(),
    ensures
        lets_in(a, t, enter_run(a, t, e, id, user), e, ids),
{
    let x = ask::<()>(t, QueryView::Db(a.db(), DbView::InsertMember(e.id, id)));
    let y = ask::<()>(
        x.tape,
        QueryView::Db(a.db(), DbView::InsertJoined { conv: e.id, time: e.time, user: user.id }),
    );
    parts_let_in(a, t, x, y, e, ids);
    if x.out is Ok && y.out is Ok {
        let z = resolve_clients_run(a, y.tape, id);
        resolve_clients_touches(a, y.tape, id, set![Topic::Access, Topic::People]);
        resolve_clients_is_steady(a, y.tape, y.tape, id);
        lookups_let_nobody_in(a, y.tape, z, e, ids);
        parts_let_in(a, t, y, z, e, ids);
    }
}

/// Nobody is added to a conversation but users who are said to have joined it, and never we
/// ourselves.
pub proof fn only_others_are_let_in<'a>(
    a: &'a Actor<Online>,
    t: TapeView<'a>,
    e: &'a ConvEvent,
    all: Seq<UserId>,
    ids: Seq<UserId>,
    joined: Seq<&'a User>,
)
    requires
        forall|i: int| 0 <= i < ids.len() ==> all.contains(#[trigger] ids[i]),
    ensures
        lets_in(a, t, join_all_run(a, t, e, ids, joined), e, all),
    decreases ids.len(),
{
    if ids.len() > 0 {
        let id = ids[0];
        let z = join_run(a, t, e, id, joined);
        join_is_steady(a, t, t, e, id, joined);
        if id != a.me_id() {
            let x = resolve_user_run(a, t, id, true);
            resolve_user_touches(a, t, id, true, set![Topic::Access, Topic::People]);
            lookups_let_nobody_in(a, t, x, e, all);
            if let Ok(Some(user)) = x.out {
                enter_lets_in(a, x.tape, e, id, user, all);
                enter_is_steady(a, x.tape, x.tape, e, id, user);
                parts_let_in(a, t, x, enter_run(a, x.tape, e, id, user), e, all);
            }
        }
        assert(lets_in(a, t, z, e, all));
        if let Ok(joined) = z.out {
            let rest = ids.drop_first();
            assert forall|i: int| 0 <= i < rest.len() implies all.contains(#[trigger] rest[i]) by {
                assert(rest[i] == ids[i + 1]);
            }
            only_others_are_let_in(a, z.tape, e, all, rest, joined);
            join_all_is_steady(a, z.tape, z.tape, e, rest, joined);
            parts_let_in(a, t, z, join_all_run(a, z.tape, e, rest, joined), e, all);
        }
    }
}

// ---- Receiving ------------------------------------------------------------------------------

/// A message that cannot be decrypted is passed over, and nothing is stored or broadcast of it.
pub proof fn undecipherable_message_is_passed_over<'a>(
    a: &'a Actor<Online>,
    t: TapeView<'a>,
    e: &'a ConvEvent,
    msg: &'a OtrMessage,
    user: &'a User,
    f: Failure,
)
    requires
        next_is(t, Reply::Failed(f)),
    ensures
        just(
            t,
            open_message_run(a, t, e, msg, user),
            QueryView::Crypt(a.state.user.device.cbox, CryptView::Decrypt(e.from, msg)),
            (),
        ),
{
}

/// A text that is broadcast was stored before, and the session that it came through was saved.
pub proof fn broadcast_text_is_stored<'a>(
    a: &'a Actor<Online>,
    t: TapeView<'a>,
    e: &'a ConvEvent,
    msg: &'a OtrMessage,
    user: &'a User,
)
    ensures
        ({
            let asked = open_message_run(a, t, e, msg, user).tape.asked;
            forall|i: int|
                t.asked.len() <= i < asked.len() ==> (#[trigger] asked[i] matches QueryView::Publish(
                    _,
                    p,
                ) ==> {
                    &&& i == asked.len() - 1
                    &&& i >= t.asked.len() + 4
                    &&& p matches PkgView::Message(m) && m.conv == e.id && m.user == user
                    &&& asked[i - 3] matches QueryView::Db(_, DbView::InsertText(n)) && n.received
                        && p == PkgView::Message(
                        Incoming {
                            id: n.id,
                            conv: n.conv,
                            time: n.time,
                            user,
                            client: n.client,
                            text: n.text,
                        },
                    )
                    &&& asked[i - 2] matches QueryView::Crypt(_, CryptView::SaveSession(_))
                })
        }),
{
}

// ---- Notifications --------------------------------------------------------------------------

/// A notification that is recorded already is not taken in again.
pub proof fn seen_notification_is_passed_over<'a>(
    a: &'a Actor<Online>,
    t: TapeView<'a>,
    n: &'a Notification,
)
    requires
        t.at < t.log.len(),
        t.log[t.at as int] == Reply::Flag(true),
    ensures
        on_notification_run(a, t, n).out is Ok,
        on_notification_run(a, t, n).tape.asked == t.asked.push(
            QueryView::Db(a.db(), DbView::HasNotification(n.id)),
        ),
{
}

/// A notification is recorded only once all its events were taken in, and that comes last.
pub proof fn notification_is_recorded_last<'a>(
    a: &'a Actor<Online>,
    t: TapeView<'a>,
    n: &'a Notification,
)
    ensures
        ({
            let first = ask::<bool>(t, QueryView::Db(a.db(), DbView::HasNotification(n.id)));
            let events = on_events_run(a, first.tape, n.events@);
            let r = on_notification_run(a, t, n);
            let recorded = QueryView::Db(a.db(), DbView::InsertNotification(n.id));
            &&& forall|i: int|
                t.asked.len() <= i < r.tape.asked.len() && #[trigger] r.tape.asked[i] == recorded
                    ==> i == r.tape.asked.len() - 1 && first.out == Ok::<bool, StopView<'a>>(false)
                    && events.out is Ok
            &&& r.out is Ok && first.out == Ok::<bool, StopView<'a>>(false)
                ==> r.tape.asked.last() == recorded
        }),
{
    let first = ask::<bool>(t, QueryView::Db(a.db(), DbView::HasNotification(n.id)));
    let events = on_events_run(a, first.tape, n.events@);
    let r = on_notification_run(a, t, n);
    let recorded = QueryView::Db(a.db(), DbView::InsertNotification(n.id));
    events_touch(a, first.tape, n.events@);
    on_events_is_steady(a, first.tape, first.tape, n.events@);
    assert(!event_topics().contains(Topic::Seen));
    assert forall|i: int|
        t.asked.len() <= i < r.tape.asked.len() && #[trigger] r.tape.asked[i] == recorded implies i
        == r.tape.asked.len() - 1 && first.out == Ok::<bool, StopView<'a>>(false)
        && events.out is Ok by {
        assert(first.tape.asked[t.asked.len() as int] == QueryView::Db(
            a.db(),
            DbView::HasNotification(n.id),
        ));
        if first.out == Ok::<bool, StopView<'a>>(false) {
            if first.tape.asked.len() <= i < events.tape.asked.len() {
                assert(events.tape.asked[i] == r.tape.asked[i]);
                assert(event_topics().contains(topic(events.tape.asked[i])));
            }
            if i < first.tape.asked.len() {
                assert(events.tape.asked[i] == first.tape.asked[i]);
            }
        }
    }
}

/// Everything that fetching notifications may touch.
pub open spec fn fetch_topics() -> Set<Topic> {
    event_topics().insert(Topic::Seen).insert(Topic::Stream)
}

proof fn on_notification_touches<'a>(a: &'a Actor<Online>, t: TapeView<'a>, n: &'a Notification)
    ensures
        touches(t, on_notification_run(a, t, n), fetch_topics()),
{
    let x = ask::<bool>(t, QueryView::Db(a.db(), DbView::HasNotification(n.id)));
    let y = on_events_run(a, x.tape, n.events@);
    events_touch(a, x.tape, n.events@);
    on_events_is_steady(a, x.tape, x.tape, n.events@);
    assert forall|i: int| x.tape.asked.len() <= i < y.tape.asked.len() implies fetch_topics().contains(
        topic(#[trigger] y.tape.asked[i]),
    ) by {
        assert(event_topics().contains(topic(y.tape.asked[i])));
    }
    assert(touches(x.tape, y, fetch_topics()));
    parts_touch(t, x, y, fetch_topics());
}

proof fn read_stream_touches<'a>(
    a: &'a Actor<Online>,
    t: TapeView<'a>,
    link: Link,
    last: Option<NotifId>,
)
    ensures
        touches(t, read_stream_run(a, t, link, last), fetch_topics()),
    decreases t.log.len() - t.at,
{
    let x = ask::<StreamItem>(t, QueryView::Api(link, ApiView::NextItem));
    match x.out {
        Ok(StreamItem::Next(n)) => {
            on_notification_touches(a, x.tape, &n);
            on_notification_is_steady(a, x.tape, x.tape, &n);
            let y = on_notification_run(a, x.tape, &n);
            parts_touch(t, x, y, fetch_topics());
            if y.out is Ok {
                read_stream_touches(a, y.tape, link, Some(n.id));
                read_stream_is_steady(a, y.tape, y.tape, link, Some(n.id));
                parts_touch(
                    t,
                    y,
                    read_stream_run(a, y.tape, link, Some(n.id)),
                    fetch_topics(),
                );
            }
        },
        Err(StopView::Fail(_)) => {
            read_stream_touches(a, x.tape, link, last);
            read_stream_is_steady(a, x.tape, x.tape, link, last);
            parts_touch(t, x, read_stream_run(a, x.tape, link, last), fetch_topics());
        },
        _ => {},
    }
}

proof fn fetch_attempt_touches<'a>(
    a: &'a Actor<Online>,
    t: TapeView<'a>,
    link: Link,
    r: Option<Reaction>,
    last: Option<NotifId>,
)
    ensures
        touches(t, fetch_attempt_run(a, t, link, r, last), fetch_topics()),
{
    react_touches(a, t, r, fetch_topics());
    react_is_steady(a, t, t, r);
    open_stream_is_steady(a, t, t, link, r, last);
    let x = open_stream_run(a, t, link, r, last);
    assert(touches(t, x, fetch_topics()));
    if x.out is Ok {
        read_stream_touches(a, x.tape, link, last);
        read_stream_is_steady(a, x.tape, x.tape, link, last);
        let y = read_stream_run(a, x.tape, link, last);
        parts_touch(t, x, y, fetch_topics());
        if let Ok(p) = y.out {
            finish_stream_is_steady(y.tape, y.tape, link, p);
            assert(touches(y.tape, finish_stream_run(y.tape, link, p), fetch_topics()));
            parts_touch(t, y, finish_stream_run(y.tape, link, p), fetch_topics());
        }
    }
}

/// Fetching notifications does not touch the mark of the last one.
pub proof fn fetching_touches<'a>(
    a: &'a Actor<Online>,
    t: TapeView<'a>,
    link: Link,
    r: Option<Reaction>,
    n: nat,
    last: Option<NotifId>,
)
    ensures
        touches(t, fetch_from_run(a, t, link, r, n, last), fetch_topics()),
        !fetch_topics().contains(Topic::Mark),
    decreases t.log.len() - t.at,
{
    fetch_attempt_touches(a, t, link, r, last);
    fetch_attempt_is_steady(a, t, t, link, r, last);
    fetch_round_is_steady(a, t, t, link, r, n, last);
    let y = fetch_attempt_run(a, t, link, r, last);
    let x = fetch_round_run(a, t, link, r, n, last);
    assert(touches(t, x, fetch_topics()));
    if let Ok((Err(next), reached)) = x.out {
        fetching_touches(a, x.tape, link, Some(next), n + 1, reached);
        fetch_from_is_steady(a, x.tape, x.tape, link, Some(next), n + 1, reached);
        parts_touch(
            t,
            x,
            fetch_from_run(a, x.tape, link, Some(next), n + 1, reached),
            fetch_topics(),
        );
    }
}

/// The mark of the last notification moves only once the notifications were fetched.
pub proof fn mark_moves_after_success<'a>(
    a: &'a Actor<Online>,
    t: TapeView<'a>,
    link: Link,
    last: Option<NotifId>,
)
    ensures
        ({
            let x = fetch_from_run(a, t, link, None, 0, last);
            let r = catch_up_run(a, t, link, last);
            match x.out {
                Ok((more, Some(id))) => r.tape.asked == x.tape.asked.push(
                    QueryView::Db(a.db(), DbView::SetLastNotification(id)),
                ),
                Ok((more, None)) => r.tape == x.tape,
                Err(_) => r.tape == x.tape && r.out is Err && touches(t, r, fetch_topics()),
            }
        }),
{
    fetching_touches(a, t, link, None, 0, last);
}

/// Is this the id of a notification on the tape?
pub open spec fn on_tape<'a>(t: TapeView<'a>, id: NotifId) -> bool {
    exists|i: int|
        t.at <= i < t.log.len() && (#[trigger] t.log[i] matches Reply::StreamItem(
            StreamItem::Next(n),
        ) && n.id == id)
}

/// The last notification that an attempt has read is one that came in it, if any came.
pub proof fn progress_is_real<'a>(
    a: &'a Actor<Online>,
    t: TapeView<'a>,
    link: Link,
    last: Option<NotifId>,
)
    ensures
        read_stream_run(a, t, link, last).out matches Ok(p) ==> p.last == last || (
        p.last matches Some(id) && on_tape(t, id)),
    decreases t.log.len() - t.at,
{
    let x = ask::<StreamItem>(t, QueryView::Api(link, ApiView::NextItem));
    match x.out {
        Ok(StreamItem::Next(n)) => {
            on_notification_is_steady(a, x.tape, x.tape, &n);
            let y = on_notification_run(a, x.tape, &n);
            assert(t.log[t.at as int] matches Reply::StreamItem(StreamItem::Next(m)) && m.id
                == n.id);
            assert(on_tape(t, n.id));
            if y.out is Ok {
                progress_is_real(a, y.tape, link, Some(n.id));
                let p = read_stream_run(a, y.tape, link, Some(n.id)).out;
                if let Ok(p) = p {
                    if let Some(id) = p.last {
                        if on_tape(y.tape, id) {
                            assert(on_tape(t, id));
                        }
                    }
                }
            }
        },
        Err(StopView::Fail(_)) => {
            progress_is_real(a, x.tape, link, last);
            if let Ok(p) = read_stream_run(a, x.tape, link, last).out {
                if let Some(id) = p.last {
                    if on_tape(x.tape, id) {
                        assert(on_tape(t, id));
                    }
                }
            }
        },
        _ => {},
    }
}

/// A fresh device that checks for notifications takes in none, says that there are no more, and
/// touches nothing but access and the mark of the last notification.
pub proof fn fresh_device_takes_in_nothing<'a>(a: &'a Actor<Online>, t: TapeView<'a>)
    requires
        a.state.user.device.fresh,
    ensures
        touches(t, notifications_run(a, t, false), set![Topic::Access, Topic::Mark]),
        notifications_run(a, t, false).out matches Ok(more) ==> !more,
{
    let s = set![Topic::Access, Topic::Mark];
    let x = ask::<Option<NotifId>>(t, QueryView::Db(a.db(), DbView::LastNotification));
    if x.out is Ok {
        connect_again_touches(a, x.tape, s);
        connect_again_is_steady(a, x.tape, x.tape);
        let y = connect_again_run(a, x.tape);
        parts_touch(t, x, y, s);
        if y.out is Ok {
            call_touches::<Option<NotifId>>(a, y.tape, ApiView::LastNotification, s);
            call_is_steady::<Option<NotifId>>(a, y.tape, y.tape, ApiView::LastNotification);
            skip_ahead_is_steady(a, y.tape, y.tape);
            let z = call_run::<Option<NotifId>>(a, y.tape, ApiView::LastNotification);
            assert(touches(y.tape, skip_ahead_run(a, y.tape), s));
            parts_touch(t, y, skip_ahead_run(a, y.tape), s);
        }
    }
}

// ---- Devices that were left out -------------------------------------------------------------

/// The devices that have a prekey left, in order.
pub open spec fn with_prekey<'a>(cs: Seq<ClientPrekey>) -> Seq<&'a ClientId>
    decreases cs.len(),
{
    if cs.len() == 0 {
        Seq::empty()
    } else {
        let rest = with_prekey(cs.drop_first());
        if cs[0].key is Some {
            seq![&cs[0].client] + rest
        } else {
            rest
        }
    }
}

/// The devices with which sessions were started, in order.
pub open spec fn devices<'a>(ss: Seq<NewSession<'a>>) -> Seq<&'a ClientId> {
    ss.map_values(|s: NewSession<'a>| s.client)
}

proof fn devices_with_a_prekey_are_included<'a>(
    a: &'a Actor<Online>,
    t: TapeView<'a>,
    user: UserId,
    cs: Seq<ClientPrekey>,
    made: Seq<NewSession<'a>>,
)
    ensures
        include_clients_run(a, t, user, cs, made).out matches Ok(ss) ==> devices(ss) == devices(made)
            + with_prekey(cs),
    decreases cs.len(),
{
    if cs.len() == 0 {
        assert(devices(made) + with_prekey(cs) =~= devices(made));
    } else {
        let x = include_run(a, t, user, &cs[0], made);
        if let Ok(next) = x.out {
            devices_with_a_prekey_are_included(a, x.tape, user, cs.drop_first(), next);
            if cs[0].key is Some {
                assert(devices(next) =~= devices(made).push(&cs[0].client));
            }
            assert(devices(next) + with_prekey(cs.drop_first()) =~= devices(made) + with_prekey(cs));
        }
    }
}

proof fn users_are_included<'a>(
    a: &'a Actor<Online>,
    t: TapeView<'a>,
    users: Seq<UserPrekeys>,
    made: Seq<UserSessionsView<'a>>,
)
    ensures
        include_users_run(a, t, users, made).out matches Ok(us) ==> {
            &&& us.len() == made.len() + users.len()
            &&& forall|i: int| 0 <= i < made.len() ==> #[trigger] us[i] == made[i]
            &&& forall|i: int|
                made.len() <= i < us.len() ==> {
                    &&& (#[trigger] us[i]).user == users[i - made.len()].user
                    &&& devices(us[i].sessions) == with_prekey(users[i - made.len()].clients@)
                }
        },
    decreases users.len(),
{
    if users.len() > 0 {
        let (user, cs) = (users[0].user, users[0].clients@);
        devices_with_a_prekey_are_included(a, t, user, cs, Seq::empty());
        let x = include_clients_run(a, t, user, cs, Seq::empty());
        if let Ok(sessions) = x.out {
            let first = UserSessionsView { user, sessions };
            let more = made.push(first);
            users_are_included(a, x.tape, users.drop_first(), more);
            assert(devices(Seq::<NewSession<'a>>::empty()) + with_prekey(cs) =~= with_prekey(cs));
            if let Ok(us) = include_users_run(a, x.tape, users.drop_first(), more).out {
                assert(us[made.len() as int] == more[made.len() as int]);
                assert forall|i: int| made.len() <= i < us.len() implies {
                    &&& (#[trigger] us[i]).user == users[i - made.len()].user
                    &&& devices(us[i].sessions) == with_prekey(users[i - made.len()].clients@)
                } by {
                    if i > made.len() {
                        assert(users.drop_first()[i - more.len()] == users[i - made.len()]);
                    }
                }
            }
        }
    }
}

/// After a mismatch, every user for whom the back-end lists prekeys has an entry, in the order of the
/// list and even if it is empty; it holds the devices that have a prekey left, in order, and no
/// others.
pub proof fn sessions_follow_the_prekeys<'a>(
    a: &'a Actor<Online>,
    t: TapeView<'a>,
    m: &'a ClientMismatch,
)
    ensures
        on_mismatch_run(a, t, m).out matches Ok(us) ==> {
            let users = call_run::<Vec<UserPrekeys>>(a, t, ApiView::Prekeys(m)).out->Ok_0@;
            &&& us.len() == users.len()
            &&& forall|i: int|
                0 <= i < us.len() ==> {
                    &&& (#[trigger] us[i]).user == users[i].user
                    &&& devices(us[i].sessions) == with_prekey(users[i].clients@)
                }
        },
{
    let x = call_run::<Vec<UserPrekeys>>(a, t, ApiView::Prekeys(m));
    if let Ok(users) = x.out {
        users_are_included(a, x.tape, users@, Seq::empty());
    }
}

} // verus!
