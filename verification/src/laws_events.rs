//! How notifications and their events are taken in.
use crate::actor::{Actor, Online};
use crate::directory::{
    resolve_client_run, resolve_clients_run, resolve_conversation_run, resolve_user_run,
};
use crate::events::{
    join_all_run, join_run, keep_plain_run, on_client_add_run, on_conv_create_run, on_event_run,
    on_events_is_steady, on_events_run, on_member_join_run, on_message_add_run, on_notification_run,
    on_user_connection_run, resolve_everyone_run,
};
use crate::laws_lists::{events_in_parts, events_one_by_one};
use crate::laws_login::follows;
use crate::model::{
    Connection, ConvEvent, ConvEventData, Conversation, Event, EventType, Notification, OtrMessage,
    Plaintext, User, UserEvent, UserId,
};
use crate::query::{Convert, CryptView, DbView, PkgView, QueryView, Roster};
use crate::tape::{ask, Reply, Run, StopView, TapeView};
use crate::trace::{answers, ends_as, hears, look_ahead, qa, said, said_in_parts};
use vstd::prelude::*;

verus! {

/// If taking in a notification that was not seen before succeeds, its events were taken in, one
/// after the other, between the question whether it was seen and its being recorded as seen. If
/// taking in one of them fails, that is how it ends, and the notification is not recorded.
pub proof fn all_events_are_taken_in_before_it_is_recorded<'a>(
    a: &'a Actor<Online>,
    t: TapeView<'a>,
    n: &'a Notification,
)
    ensures
        ({
            let x = ask::<bool>(t, QueryView::Db(a.db(), DbView::HasNotification(n.id)));
            let y = on_events_run(a, x.tape, n.events@);
            let r = on_notification_run(a, t, n);
            match (x.out, y.out) {
                (Err(_), _) => ends_as(r, x),
                (Ok(true), _) => r.tape == x.tape && r.out is Ok,
                (Ok(false), Err(_)) => ends_as(r, y),
                (Ok(false), Ok(_)) => {
                    &&& r.out is Ok ==> hears(
                        t,
                        r.tape,
                        seq![
                            qa(
                                QueryView::Db(a.db(), DbView::HasNotification(n.id)),
                                Reply::Flag(false),
                            ),
                        ] + said(x.tape, y.tape) + seq![
                            qa(
                                QueryView::Db(a.db(), DbView::InsertNotification(n.id)),
                                Reply::Done,
                            ),
                        ],
                    )
                    &&& answers(y.tape, seq![Reply::Done]) ==> r.out is Ok
                },
            }
        }),
{
    let x = ask::<bool>(t, QueryView::Db(a.db(), DbView::HasNotification(n.id)));
    let y = on_events_run(a, x.tape, n.events@);
    let r = on_notification_run(a, t, n);
    if let (Ok(false), Ok(_)) = (x.out, y.out) {
        if r.out is Ok {
            on_events_is_steady(a, x.tape, x.tape, n.events@);
            let first = qa(
                QueryView::Db(a.db(), DbView::HasNotification(n.id)),
                Reply::Flag(false),
            );
            let last = qa(QueryView::Db(a.db(), DbView::InsertNotification(n.id)), Reply::Done);
            assert(follows(t, x.tape));
            assert(follows(x.tape, y.tape));
            assert(follows(y.tape, r.tape));
            said_in_parts(t, x.tape, y.tape);
            said_in_parts(t, y.tape, r.tape);
            assert(said(t, x.tape) =~= seq![first]);
            assert(said(y.tape, r.tape) =~= seq![last]);
        }
        look_ahead(y.tape, seq![Reply::Done]);
    }
}

/// The run of the first events of a list.
pub open spec fn run_of_first<'a>(
    a: &'a Actor<Online>,
    t: TapeView<'a>,
    es: Seq<Event>,
    k: int,
) -> Run<'a, ()> {
    on_events_run(a, t, es.take(k))
}

/// Every event of a list is taken in exactly once, in order: each begins where the ones before it
/// ended, the first at the beginning, and the list ends where the last one ends.
pub proof fn each_event_begins_where_the_last_one_ended<'a>(
    a: &'a Actor<Online>,
    t: TapeView<'a>,
    es: Seq<Event>,
    k: int,
)
    requires
        0 <= k < es.len(),
        on_events_run(a, t, es).out is Ok,
    ensures
        run_of_first(a, t, es, 0).tape == t,
        run_of_first(a, t, es, k).out is Ok,
        on_event_run(a, run_of_first(a, t, es, k).tape, &es[k]).out is Ok,
        on_event_run(a, run_of_first(a, t, es, k).tape, &es[k]).tape == run_of_first(
            a,
            t,
            es,
            k + 1,
        ).tape,
        run_of_first(a, t, es, es.len() as int).tape == on_events_run(a, t, es).tape,
{
    assert(es.take(0) =~= Seq::empty());
    assert(es.take(es.len() as int) =~= es);
    assert(es =~= es.take(k + 1) + es.skip(k + 1));
    events_in_parts(a, t, es.take(k + 1), es.skip(k + 1));
    assert(es.take(k + 1) =~= es.take(k) + seq![es[k]]);
    events_in_parts(a, t, es.take(k), seq![es[k]]);
    let x = on_events_run(a, t, es.take(k));
    events_one_by_one(a, x.tape, es[k]);
}

/// Which events are taken in, and as what. All others are passed over.
pub proof fn events_are_told_apart<'a>(a: &'a Actor<Online>, t: TapeView<'a>, e: &'a Event)
    ensures
        ({
            let r = on_event_run(a, t, e);
            match e {
                Event::User(kind, u) => match (kind, u) {
                    (EventType::UserClientAdd, UserEvent::AddClient(_)) => r == on_client_add_run(
                        a,
                        t,
                        u,
                    ),
                    (EventType::UserConnection, UserEvent::Connect(_)) => r
                        == on_user_connection_run(a, t, u),
                    _ => r.tape == t && r.out is Ok,
                },
                Event::Conv(kind, c) => match (kind, &c.data) {
                    (EventType::ConvCreate, ConvEventData::Create(_)) => r == on_conv_create_run(
                        a,
                        t,
                        c,
                    ),
                    (EventType::ConvMemberJoin, ConvEventData::Join(_)) => r
                        == on_member_join_run(a, t, c),
                    (EventType::ConvMessageAdd, ConvEventData::Encrypted(_)) => r
                        == on_message_add_run(a, t, c),
                    _ => r.tape == t && r.out is Ok,
                },
                _ => r.tape == t && r.out is Ok,
            }
        }),
{
}

// ---- Users ------------------------------------------------------------------------------------

/// A device that was added is stored as one of ours, unless it is this one.
pub proof fn other_device_of_ours_is_stored<'a>(
    a: &'a Actor<Online>,
    t: TapeView<'a>,
    e: &'a UserEvent,
)
    ensures
        e matches UserEvent::AddClient(c) ==> {
            let r = on_client_add_run(a, t, e);
            if c.id@ == a.state.user.device.client.id@ {
                r.tape == t && r.out is Ok
            } else {
                let q = QueryView::Db(a.db(), DbView::InsertClient(a.state.user.user.id, &c));
                &&& r.out is Ok ==> hears(t, r.tape, seq![qa(q, Reply::Done)])
                &&& answers(t, seq![Reply::Done]) ==> r.out is Ok
            }
        },
{
    if let UserEvent::AddClient(c) = e {
        let r = on_client_add_run(a, t, e);
        if c.id@ != a.state.user.device.client.id@ {
            let q = QueryView::Db(a.db(), DbView::InsertClient(a.state.user.user.id, &c));
            if r.out is Ok {
                assert(said(t, r.tape) =~= seq![qa(q, Reply::Done)]);
            }
            look_ahead(t, seq![Reply::Done]);
        }
    }
}

/// A connection is stored, converted and broadcast, with the user whom it leads to, if that user is
/// found. Otherwise it is passed over.
pub proof fn connection_with_known_user_is_broadcast<'a>(
    a: &'a Actor<Online>,
    t: TapeView<'a>,
    e: &'a UserEvent,
    kept: Connection,
)
    ensures
        e matches UserEvent::Connect(c) ==> {
            let x = resolve_user_run(a, t, c.to, true);
            let r = on_user_connection_run(a, t, e);
            match x.out {
                Err(_) => ends_as(r, x),
                Ok(None) => r.tape == x.tape && r.out is Ok,
                Ok(Some(user)) => {
                    &&& r.out is Ok ==> (x.tape.log[x.tape.at + 1int] matches Reply::Connection(k)
                        && hears(
                        x.tape,
                        r.tape,
                        seq![
                            qa(QueryView::Db(a.db(), DbView::InsertConnection(&c)), Reply::Done),
                            qa(QueryView::Convert(Convert::Connection(&c)), Reply::Connection(k)),
                            qa(
                                QueryView::Publish(a.state.bcast, PkgView::Contact(user, &k)),
                                Reply::Done,
                            ),
                        ],
                    ))
                    &&& answers(x.tape, seq![Reply::Done, Reply::Connection(kept), Reply::Done])
                        ==> r.out is Ok
                },
            }
        },
{
    if let UserEvent::Connect(c) = e {
        let x = resolve_user_run(a, t, c.to, true);
        let r = on_user_connection_run(a, t, e);
        if let Ok(Some(user)) = x.out {
            if r.out is Ok {
                let y = ask::<()>(
                    x.tape,
                    QueryView::Db(a.db(), DbView::InsertConnection(&c)),
                );
                let z = ask::<Connection>(y.tape, QueryView::Convert(Convert::Connection(&c)));
                let k = z.out->Ok_0;
                assert(said(x.tape, r.tape) =~= seq![
                    qa(QueryView::Db(a.db(), DbView::InsertConnection(&c)), Reply::Done),
                    qa(QueryView::Convert(Convert::Connection(&c)), Reply::Connection(k)),
                    qa(
                        QueryView::Publish(a.state.bcast, PkgView::Contact(user, &k)),
                        Reply::Done,
                    ),
                ]);
            }
            look_ahead(x.tape, seq![Reply::Done, Reply::Connection(kept), Reply::Done]);
        }
    }
}

// ---- Conversations ----------------------------------------------------------------------------

/// A new conversation that we created, or whose creator is found, is taken in: first all its
/// members are resolved; then it is stored as a whole, under the time of the event, converted and
/// broadcast. One whose creator is not found is passed over.
pub proof fn new_conversation_is_broadcast<'a>(
    a: &'a Actor<Online>,
    t: TapeView<'a>,
    e: &'a ConvEvent,
    kept: Conversation,
)
    ensures
        e.data matches ConvEventData::Create(c) ==> {
            let ours = c.creator == a.state.user.user.id;
            let x = resolve_user_run(a, t, c.creator, true);
            let start = if ours {
                t
            } else {
                x.tape
            };
            let y = resolve_everyone_run(a, start, c.others@);
            let r = on_conv_create_run(a, t, e);
            match (x.out, y.out) {
                (Err(_), _) if !ours => ends_as(r, x),
                (Ok(None), _) if !ours => r.tape == x.tape && r.out is Ok,
                (_, Err(_)) => ends_as(r, y),
                (_, Ok(_)) => {
                    let roster = Roster::Whole(&c);
                    &&& r.out is Ok ==> (y.tape.log[y.tape.at + 1int] matches Reply::Conversation(k)
                        && hears(
                        y.tape,
                        r.tape,
                        seq![
                            qa(
                                QueryView::Db(a.db(), DbView::InsertConversation(e.time, roster)),
                                Reply::Done,
                            ),
                            qa(
                                QueryView::Convert(Convert::Conversation(e.time, roster)),
                                Reply::Conversation(k),
                            ),
                            qa(
                                QueryView::Publish(a.state.bcast, PkgView::Conversation(&k)),
                                Reply::Done,
                            ),
                        ],
                    ))
                    &&& answers(y.tape, seq![Reply::Done, Reply::Conversation(kept), Reply::Done])
                        ==> r.out is Ok
                },
            }
        },
{
    if let ConvEventData::Create(c) = e.data {
        let ours = c.creator == a.state.user.user.id;
        let x = resolve_user_run(a, t, c.creator, true);
        let start = if ours {
            t
        } else {
            x.tape
        };
        let y = resolve_everyone_run(a, start, c.others@);
        let r = on_conv_create_run(a, t, e);
        if (ours || x.out matches Ok(Some(_))) && y.out is Ok {
            let roster = Roster::Whole(&c);
            let q1 = QueryView::Db(a.db(), DbView::InsertConversation(e.time, roster));
            let q2 = QueryView::Convert(Convert::Conversation(e.time, roster));
            if r.out is Ok {
                let z = ask::<()>(y.tape, q1);
                let w = ask::<Conversation>(z.tape, q2);
                let k = w.out->Ok_0;
                assert(said(y.tape, r.tape) =~= seq![
                    qa(q1, Reply::Done),
                    qa(q2, Reply::Conversation(k)),
                    qa(
                        QueryView::Publish(a.state.bcast, PkgView::Conversation(&k)),
                        Reply::Done,
                    ),
                ]);
            }
            look_ahead(y.tape, seq![Reply::Done, Reply::Conversation(kept), Reply::Done]);
        }
    }
}

/// How a user joins a conversation. We ourselves are only counted in. Another user who is found
/// becomes a member, is recorded to have joined at the time of the event, and has their devices
/// resolved; one who is not found is passed over.
pub proof fn user_who_is_found_joins<'a>(
    a: &'a Actor<Online>,
    t: TapeView<'a>,
    e: &'a ConvEvent,
    id: UserId,
    joined: Seq<&'a User>,
)
    ensures
        ({
            let x = resolve_user_run(a, t, id, true);
            let r = join_run(a, t, e, id, joined);
            if id == a.state.user.user.id {
                r.tape == t && (r.out matches Ok(all) && all == joined + seq![&a.state.user.user])
            } else {
                match x.out {
                    Err(_) => ends_as(r, x),
                    Ok(None) => r.tape == x.tape && (r.out matches Ok(all) && all == joined),
                    Ok(Some(user)) => {
                        let y = ask::<()>(
                            x.tape,
                            QueryView::Db(a.db(), DbView::InsertMember(e.id, id)),
                        );
                        let z = ask::<()>(
                            y.tape,
                            QueryView::Db(
                                a.db(),
                                DbView::InsertJoined { conv: e.id, time: e.time, user: user.id },
                            ),
                        );
                        let w = resolve_clients_run(a, z.tape, id);
                        match (y.out, z.out, w.out) {
                            (Err(_), _, _) => ends_as(r, y),
                            (Ok(_), Err(_), _) => ends_as(r, z),
                            (Ok(_), Ok(_), Err(_)) => ends_as(r, w),
                            (Ok(_), Ok(_), Ok(_)) => r.tape == w.tape && (r.out matches Ok(all)
                                && all == joined + seq![user]),
                        }
                    },
                }
            }
        }),
{
    let x = resolve_user_run(a, t, id, true);
    assert(joined.push(&a.state.user.user) =~= joined + seq![&a.state.user.user]);
    if let Ok(Some(user)) = x.out {
        assert(joined.push(user) =~= joined + seq![user]);
    }
}

/// Users who join a conversation that is found join one after the other, and those who did are then
/// broadcast with the time of the event. Nobody joins one that is not found.
pub proof fn those_who_joined_are_broadcast<'a>(
    a: &'a Actor<Online>,
    t: TapeView<'a>,
    e: &'a ConvEvent,
)
    ensures
        e.data matches ConvEventData::Join(ids) ==> {
            let x = resolve_conversation_run(a, t, e.id);
            let y = join_all_run(a, x.tape, e, ids@, Seq::empty());
            let r = on_member_join_run(a, t, e);
            match (x.out, y.out) {
                (Err(_), _) => ends_as(r, x),
                (Ok(None), _) => r.tape == x.tape && r.out is Ok,
                (Ok(Some(_)), Err(_)) => ends_as(r, y),
                (Ok(Some(_)), Ok(joined)) => {
                    let q = QueryView::Publish(
                        a.state.bcast,
                        PkgView::MembersAdd(e.time, e.id, joined),
                    );
                    &&& r.out is Ok ==> hears(y.tape, r.tape, seq![qa(q, Reply::Done)])
                    &&& answers(y.tape, seq![Reply::Done]) ==> r.out is Ok
                },
            }
        },
{
    if let ConvEventData::Join(ids) = e.data {
        let x = resolve_conversation_run(a, t, e.id);
        let y = join_all_run(a, x.tape, e, ids@, Seq::empty());
        let r = on_member_join_run(a, t, e);
        if let (Ok(Some(_)), Ok(joined)) = (x.out, y.out) {
            let q = QueryView::Publish(a.state.bcast, PkgView::MembersAdd(e.time, e.id, joined));
            if r.out is Ok {
                assert(said(y.tape, r.tape) =~= seq![qa(q, Reply::Done)]);
            }
            look_ahead(y.tape, seq![Reply::Done]);
        }
    }
}

// ---- Messages ---------------------------------------------------------------------------------

/// How a message comes in. Its sender, the sender's device and the conversation are resolved, in
/// this order. If sender and conversation are found, the message is decrypted. If there is no
/// sender or no conversation, or if it cannot be decrypted, it is passed over.
pub proof fn message_is_decrypted_if_placed<'a>(
    a: &'a Actor<Online>,
    t: TapeView<'a>,
    e: &'a ConvEvent,
)
    ensures
        e.data matches ConvEventData::Encrypted(msg) ==> {
            let x = resolve_user_run(a, t, e.from, true);
            let r = on_message_add_run(a, t, e);
            match x.out {
                Err(_) => ends_as(r, x),
                Ok(None) => r.tape == x.tape && r.out is Ok,
                Ok(Some(user)) => {
                    let y = resolve_client_run(a, x.tape, user.id, msg.sender@);
                    let z = resolve_conversation_run(a, y.tape, e.id);
                    match (y.out, z.out) {
                        (Err(_), _) => ends_as(r, y),
                        (Ok(_), Err(_)) => ends_as(r, z),
                        (Ok(_), Ok(None)) => r.tape == z.tape && r.out is Ok,
                        (Ok(_), Ok(Some(_))) => {
                            let w = ask::<Plaintext>(
                                z.tape,
                                QueryView::Crypt(
                                    a.state.user.device.cbox,
                                    CryptView::Decrypt(e.from, &msg),
                                ),
                            );
                            match w.out {
                                Ok(plain) => r == keep_plain_run(a, w.tape, e, &msg, user, &plain),
                                Err(StopView::Fail(_)) => r.tape == w.tape && r.out is Ok,
                                Err(_) => ends_as(r, w),
                            }
                        },
                    }
                },
            }
        },
{
}

/// What is done with a message that was decrypted. A text is stored as received, under the sender,
/// the time and the conversation of the event; then the session is saved, the time of the
/// conversation is set, and the message is broadcast with its sender. Of any other message only the
/// session is saved.
pub proof fn text_is_stored_and_broadcast<'a>(
    a: &'a Actor<Online>,
    t: TapeView<'a>,
    e: &'a ConvEvent,
    msg: &'a OtrMessage,
    user: &'a User,
    plain: &'a Plaintext,
)
    ensures
        ({
            let r = keep_plain_run(a, t, e, msg, user, plain);
            let saved = qa(
                QueryView::Crypt(
                    a.state.user.device.cbox,
                    CryptView::SaveSession(plain.session),
                ),
                Reply::Done,
            );
            match plain.text {
                None => {
                    &&& r.out is Ok ==> hears(t, r.tape, seq![saved])
                    &&& answers(t, seq![Reply::Done]) ==> r.out is Ok
                },
                Some(text) => {
                    &&& r.out is Ok ==> follows(t, r.tape) && said(t, r.tape).len() == 4 && {
                        let ss = said(t, r.tape);
                        &&& forall|k: int| 0 <= k < 4 ==> (#[trigger] ss[k]).r == Reply::Done
                        &&& ss[0].q matches QueryView::Db(db, DbView::InsertText(new)) && db
                            == a.db() && *new.id == plain.id && new.conv == e.id && new.time
                            == e.time && new.from == e.from && *new.client == msg.sender
                            && *new.text == text && new.received
                        &&& ss[1] == saved
                        &&& ss[2].q == QueryView::Db(
                            a.db(),
                            DbView::ConvTime(e.id, e.time.secs),
                        )
                        &&& ss[3].q matches QueryView::Publish(to, PkgView::Message(m)) && to
                            == a.state.bcast && *m.id == plain.id && m.conv == e.id && m.time
                            == e.time && m.user == user && *m.client == msg.sender && *m.text
                            == text
                    }
                    &&& answers(t, seq![Reply::Done, Reply::Done, Reply::Done, Reply::Done])
                        ==> r.out is Ok
                },
            }
        }),
{
    let r = keep_plain_run(a, t, e, msg, user, plain);
    look_ahead(t, seq![Reply::Done, Reply::Done, Reply::Done, Reply::Done]);
    look_ahead(t, seq![Reply::Done]);
    if r.out is Ok && plain.text is None {
        let saved = qa(
            QueryView::Crypt(a.state.user.device.cbox, CryptView::SaveSession(plain.session)),
            Reply::Done,
        );
        assert(said(t, r.tape) =~= seq![saved]);
    }
}

} // verus!
