//! How users, devices, connections and conversations are resolved.
use crate::access::call_run;
use crate::actor::{Actor, Online};
use crate::contacts::{
    new_connection_run, new_conversation_run, resolve_connection_run, update_connection_run,
};
use crate::directory::{
    adopt_conversation_run, convert_clients_run, fetch_user_run, keep_conversation_run,
    resolve_client_run, resolve_clients_run, resolve_conversation_run, resolve_members_run,
    resolve_user_run,
};
use crate::model::{
    ApiClient, ApiConversation, ApiUser, Client, ConnectStatus, Connection, ConvId, Conversation,
    Member, Time, User, UserConnection, UserId,
};
use crate::query::{ApiView, Convert, DbView, QueryView, Roster};
use crate::tape::{ask, Reply, StopView, TapeView};
use crate::trace::{answers, ends_as, hears, look_ahead, qa, said};
use vstd::prelude::*;

verus! {

// ---- Users ------------------------------------------------------------------------------------

/// How a user is fetched. What the back-end returns is stored. A user whom it does not have is
/// none; nor is one who is deleted. Otherwise the user is what was returned, converted.
pub proof fn fetched_user_is_stored_first<'a>(
    a: &'a Actor<Online>,
    t: TapeView<'a>,
    id: UserId,
    user: User,
)
    ensures
        ({
            let x = call_run::<Option<ApiUser>>(a, t, ApiView::User(id));
            let r = fetch_user_run(a, t, id);
            match x.out {
                Err(_) => ends_as(r, x),
                Ok(None) => r.tape == x.tape && r.out == Ok::<Option<&'a User>, StopView<'a>>(None),
                Ok(Some(u)) => {
                    let stored = qa(QueryView::Db(a.db(), DbView::InsertUser(&u)), Reply::Done);
                    if u.deleted == Some(true) {
                        &&& r.out matches Ok(got) ==> got is None && hears(
                            x.tape,
                            r.tape,
                            seq![stored],
                        )
                        &&& answers(x.tape, seq![Reply::Done]) ==> r.out is Ok
                    } else {
                        &&& r.out matches Ok(got) ==> (got matches Some(k) && hears(
                            x.tape,
                            r.tape,
                            seq![stored, qa(QueryView::Convert(Convert::User(&u)), Reply::User(*k))],
                        ))
                        &&& answers(x.tape, seq![Reply::Done, Reply::User(user)]) ==> r.out is Ok
                    }
                },
            }
        }),
{
    let x = call_run::<Option<ApiUser>>(a, t, ApiView::User(id));
    let r = fetch_user_run(a, t, id);
    if let (Ok(Some(u)), Ok(got)) = (x.out, r.out) {
        let stored = qa(QueryView::Db(a.db(), DbView::InsertUser(&u)), Reply::Done);
        if u.deleted == Some(true) {
            assert(said(x.tape, r.tape) =~= seq![stored]);
        } else {
            assert(said(x.tape, r.tape) =~= seq![
                stored,
                qa(QueryView::Convert(Convert::User(&u)), Reply::User(*got->Some_0)),
            ]);
        }
    }
    if x.out is Ok {
        look_ahead(x.tape, seq![Reply::Done, Reply::User(user)]);
        look_ahead(x.tape, seq![Reply::Done]);
    }
}

/// How a user is resolved: as the database has it if that is allowed and if the database has it,
/// where one who is deleted is none, and as fetched otherwise.
pub proof fn user_is_local_or_fetched<'a>(
    a: &'a Actor<Online>,
    t: TapeView<'a>,
    id: UserId,
    allow_local: bool,
)
    ensures
        ({
            let x = ask::<Option<User>>(t, QueryView::Db(a.db(), DbView::User(id)));
            let r = resolve_user_run(a, t, id, allow_local);
            match x.out {
                _ if !allow_local => r == fetch_user_run(a, t, id),
                Err(_) => ends_as(r, x),
                Ok(None) => r == fetch_user_run(a, x.tape, id),
                Ok(Some(u)) => r.tape == x.tape && (r.out matches Ok(got) && if u.deleted {
                    got is None
                } else {
                    got == Some(&u)
                }),
            }
        }),
{
}

// ---- Devices ----------------------------------------------------------------------------------

/// How a device is resolved: as the database has it, or else as the back-end returns it, stored and
/// converted. One that neither has is none.
pub proof fn device_is_local_or_fetched_and_stored<'a>(
    a: &'a Actor<Online>,
    t: TapeView<'a>,
    user: UserId,
    id: Seq<char>,
    client: Client,
)
    ensures
        ({
            let x = ask::<Option<Client>>(t, QueryView::Db(a.db(), DbView::Client(user, id)));
            let y = call_run::<Option<ApiClient>>(a, x.tape, ApiView::Client(user, id));
            let r = resolve_client_run(a, t, user, id);
            match (x.out, y.out) {
                (Err(_), _) => ends_as(r, x),
                (Ok(Some(c)), _) => r.tape == x.tape && r.out == Ok::<
                    Option<&'a Client>,
                    StopView<'a>,
                >(Some(&c)),
                (Ok(None), Err(_)) => ends_as(r, y),
                (Ok(None), Ok(None)) => r.tape == y.tape && r.out == Ok::<
                    Option<&'a Client>,
                    StopView<'a>,
                >(None),
                (Ok(None), Ok(Some(c))) => {
                    &&& r.out matches Ok(got) ==> (got matches Some(k) && hears(
                        y.tape,
                        r.tape,
                        seq![
                            qa(QueryView::Db(a.db(), DbView::InsertClient(user, &c)), Reply::Done),
                            qa(
                                QueryView::Convert(Convert::Client(user, &c)),
                                Reply::Client(*k),
                            ),
                        ],
                    ))
                    &&& answers(y.tape, seq![Reply::Done, Reply::Client(client)]) ==> r.out is Ok
                },
            }
        }),
{
    let x = ask::<Option<Client>>(t, QueryView::Db(a.db(), DbView::Client(user, id)));
    let y = call_run::<Option<ApiClient>>(a, x.tape, ApiView::Client(user, id));
    let r = resolve_client_run(a, t, user, id);
    if let (Ok(None), Ok(Some(c))) = (x.out, y.out) {
        if let Ok(got) = r.out {
            assert(said(y.tape, r.tape) =~= seq![
                qa(QueryView::Db(a.db(), DbView::InsertClient(user, &c)), Reply::Done),
                qa(QueryView::Convert(Convert::Client(user, &c)), Reply::Client(*got->Some_0)),
            ]);
        }
        look_ahead(y.tape, seq![Reply::Done, Reply::Client(client)]);
    }
}

/// How the devices of a user are resolved: those that the database has, if it has any. Otherwise
/// those that the back-end returns: they are stored, and all of them are converted.
pub proof fn devices_are_local_or_fetched_and_stored<'a>(
    a: &'a Actor<Online>,
    t: TapeView<'a>,
    user: UserId,
)
    ensures
        ({
            let x = ask::<Vec<Client>>(t, QueryView::Db(a.db(), DbView::Clients(user)));
            let y = call_run::<Vec<ApiClient>>(a, x.tape, ApiView::Clients(user));
            let r = resolve_clients_run(a, t, user);
            match (x.out, y.out) {
                (Err(_), _) => ends_as(r, x),
                (Ok(found), _) if found@.len() > 0 => r.tape == x.tape && (r.out matches Ok(got)
                    && got.len() == found@.len() && forall|k: int|
                    0 <= k < got.len() ==> #[trigger] got[k] == &found@[k]),
                (Ok(_), Err(_)) => ends_as(r, y),
                (Ok(_), Ok(cs)) => {
                    let z = ask::<()>(
                        y.tape,
                        QueryView::Db(a.db(), DbView::InsertClients(user, &cs)),
                    );
                    match z.out {
                        Err(_) => ends_as(r, z),
                        Ok(_) => r == convert_clients_run(z.tape, user, cs@, Seq::empty()),
                    }
                },
            }
        }),
{
}

// ---- Members ----------------------------------------------------------------------------------

/// Does a member have to be resolved? Those who left need not be, nor need we ourselves.
pub open spec fn counts(a: &Actor<Online>, m: Member) -> bool {
    m.current && m.id != a.state.user.user.id
}

/// The members of a conversation are resolved part by part.
pub proof fn members_in_parts<'a>(
    a: &'a Actor<Online>,
    t: TapeView<'a>,
    ms: Seq<Member>,
    more: Seq<Member>,
    nobody: bool,
)
    ensures
        ({
            let x = resolve_members_run(a, t, ms, nobody);
            let r = resolve_members_run(a, t, ms + more, nobody);
            match x.out {
                Ok(still) => r == resolve_members_run(a, x.tape, more, still),
                Err(_) => r == x,
            }
        }),
    decreases ms.len(),
{
    if ms.len() == 0 {
        assert(ms + more =~= more);
    } else {
        assert((ms + more).drop_first() =~= ms.drop_first() + more);
        if counts(a, ms[0]) {
            let x = resolve_user_run(a, t, ms[0].id, true);
            if let Ok(u) = x.out {
                members_in_parts(a, x.tape, ms.drop_first(), more, nobody && u is None);
            }
        } else {
            members_in_parts(a, t, ms.drop_first(), more, nobody);
        }
    }
}

/// The members of a conversation are resolved one by one. Somebody was found if one of them was.
pub proof fn members_one_by_one<'a>(
    a: &'a Actor<Online>,
    t: TapeView<'a>,
    m: Member,
    nobody: bool,
)
    ensures
        ({
            let x = resolve_user_run(a, t, m.id, true);
            let r = resolve_members_run(a, t, seq![m], nobody);
            if !counts(a, m) {
                r.tape == t && r.out == Ok::<bool, StopView<'a>>(nobody)
            } else {
                match x.out {
                    Err(_) => ends_as(r, x),
                    Ok(u) => r.tape == x.tape && r.out == Ok::<bool, StopView<'a>>(
                        nobody && u is None,
                    ),
                }
            }
        }),
        resolve_members_run(a, t, Seq::empty(), nobody).tape == t,
        resolve_members_run(a, t, Seq::empty(), nobody).out == Ok::<bool, StopView<'a>>(nobody),
{
    assert(seq![m].drop_first() =~= Seq::empty());
    let x = resolve_user_run(a, t, m.id, true);
    assert(resolve_members_run(a, t, Seq::empty(), nobody).tape == t);
    if let Ok(u) = x.out {
        assert(resolve_members_run(a, x.tape, Seq::empty(), nobody && u is None).tape == x.tape);
    }
}

/// Is this member of a conversation found, where the ones before are resolved first?
pub open spec fn is_found<'a>(
    a: &'a Actor<Online>,
    t: TapeView<'a>,
    ms: Seq<Member>,
    k: int,
) -> bool {
    counts(a, ms[k]) && (resolve_user_run(
        a,
        resolve_members_run(a, t, ms.take(k), true).tape,
        ms[k].id,
        true,
    ).out matches Ok(Some(_)))
}

/// Nobody is left of a conversation if and only if no current member other than us is found.
pub proof fn nobody_is_left_if_nobody_is_found<'a>(
    a: &'a Actor<Online>,
    t: TapeView<'a>,
    ms: Seq<Member>,
)
    ensures
        resolve_members_run(a, t, ms, true).out matches Ok(nobody) ==> (nobody <==> forall|k: int|
            0 <= k < ms.len() ==> !#[trigger] is_found(a, t, ms, k)),
    decreases ms.len(),
{
    if ms.len() > 0 {
        let before = ms.drop_last();
        let m = ms.last();
        assert(ms =~= before + seq![m]);
        let x = resolve_members_run(a, t, before, true);
        members_in_parts(a, t, before, seq![m], true);
        nobody_is_left_if_nobody_is_found(a, t, before);
        if let Ok(still) = x.out {
            members_one_by_one(a, x.tape, m, still);
            assert forall|k: int| 0 <= k < before.len() implies is_found(a, t, ms, k) == is_found(
                a,
                t,
                before,
                k,
            ) by {
                assert(ms.take(k) =~= before.take(k));
            }
            assert(ms.take(before.len() as int) =~= before);
            let last = ms.len() - 1;
            assert(is_found(a, t, ms, last) <==> counts(a, m) && resolve_user_run(
                a,
                x.tape,
                m.id,
                true,
            ).out matches Ok(Some(_)));
            if let Ok(nobody) = resolve_members_run(a, t, ms, true).out {
                if nobody {
                    assert forall|k: int| 0 <= k < ms.len() implies !#[trigger] is_found(
                        a,
                        t,
                        ms,
                        k,
                    ) by {
                        if k < last {
                            assert(!is_found(a, t, before, k));
                        }
                    }
                } else if still {
                    assert(is_found(a, t, ms, last));
                } else {
                    let k = choose|k: int|
                        0 <= k < before.len() && #[trigger] is_found(a, t, before, k);
                    assert(is_found(a, t, ms, k));
                }
            }
        }
    }
}

// ---- Conversations ----------------------------------------------------------------------------

/// How a conversation is kept: under the time that it is now, and as it was stored so it is
/// returned.
pub proof fn kept_conversation_is_stored_first<'a>(
    a: &'a Actor<Online>,
    t: TapeView<'a>,
    roster: Roster<'a>,
    now: Time,
    c: Conversation,
)
    ensures
        ({
            let r = keep_conversation_run(a, t, roster);
            &&& r.out matches Ok(k) ==> (t.log[t.at as int] matches Reply::Time(time) && hears(
                t,
                r.tape,
                seq![
                    qa(QueryView::Now, Reply::Time(time)),
                    qa(
                        QueryView::Db(a.db(), DbView::InsertConversation(time, roster)),
                        Reply::Done,
                    ),
                    qa(
                        QueryView::Convert(Convert::Conversation(time, roster)),
                        Reply::Conversation(*k),
                    ),
                ],
            ))
            &&& answers(t, seq![Reply::Time(now), Reply::Done, Reply::Conversation(c)])
                ==> r.out is Ok
        }),
{
    let r = keep_conversation_run(a, t, roster);
    if let Ok(k) = r.out {
        let x = ask::<Time>(t, QueryView::Now);
        let time = x.out->Ok_0;
        assert(said(t, r.tape) =~= seq![
            qa(QueryView::Now, Reply::Time(time)),
            qa(QueryView::Db(a.db(), DbView::InsertConversation(time, roster)), Reply::Done),
            qa(
                QueryView::Convert(Convert::Conversation(time, roster)),
                Reply::Conversation(*k),
            ),
        ]);
    }
    look_ahead(t, seq![Reply::Time(now), Reply::Done, Reply::Conversation(c)]);
}

/// How a conversation that the back-end has returned is taken in, if we are a member of it: its
/// creator is resolved, and then its members. Unless it is a 1:1 conversation of which nobody else
/// is found, it is kept with its current members.
pub proof fn conversation_is_kept_unless_nobody_is_left<'a>(
    a: &'a Actor<Online>,
    t: TapeView<'a>,
    c: &'a ApiConversation,
)
    ensures
        ({
            let x = resolve_user_run(a, t, c.creator, true);
            let y = resolve_members_run(a, x.tape, c.others@, true);
            let z = keep_conversation_run(a, y.tape, Roster::Current(c));
            let r = adopt_conversation_run(a, t, c);
            match (x.out, y.out) {
                (Err(_), _) => ends_as(r, x),
                (Ok(_), Err(_)) => ends_as(r, y),
                (Ok(_), Ok(nobody)) => if nobody && c.typ is OneToOne {
                    r.tape == y.tape && r.out == Ok::<Option<&'a Conversation>, StopView<'a>>(None)
                } else {
                    match z.out {
                        Err(_) => ends_as(r, z),
                        Ok(k) => r.tape == z.tape && r.out == Ok::<
                            Option<&'a Conversation>,
                            StopView<'a>,
                        >(Some(k)),
                    }
                },
            }
        }),
{
}

/// How a conversation is resolved: as the database has it, or else as the back-end returns it. One
/// that the back-end does not have is none, nor is one of which we are no current member.
pub proof fn conversation_is_local_or_fetched<'a>(
    a: &'a Actor<Online>,
    t: TapeView<'a>,
    id: ConvId,
)
    ensures
        ({
            let x = ask::<Option<Conversation>>(
                t,
                QueryView::Db(a.db(), DbView::Conversation(id)),
            );
            let y = call_run::<Option<ApiConversation>>(a, x.tape, ApiView::Conversation(id));
            let r = resolve_conversation_run(a, t, id);
            match (x.out, y.out) {
                (Err(_), _) => ends_as(r, x),
                (Ok(Some(c)), _) => r.tape == x.tape && r.out == Ok::<
                    Option<&'a Conversation>,
                    StopView<'a>,
                >(Some(&c)),
                (Ok(None), Err(_)) => ends_as(r, y),
                (Ok(None), Ok(Some(c))) if c.current => r == adopt_conversation_run(a, y.tape, &c),
                (Ok(None), Ok(_)) => r.tape == y.tape && r.out == Ok::<
                    Option<&'a Conversation>,
                    StopView<'a>,
                >(None),
            }
        }),
{
}

/// A conversation that the database does not have is none if and only if the back-end does not have
/// it either, or we are no current member of it, or it is a 1:1 conversation and none of its
/// current members but us is found. Otherwise it is stored with its current members, and returned,
/// and that comes last.
pub proof fn conversation_is_none_only_if_nobody_is_found<'a>(
    a: &'a Actor<Online>,
    t: TapeView<'a>,
    id: ConvId,
)
    ensures
        ({
            let x = ask::<Option<Conversation>>(
                t,
                QueryView::Db(a.db(), DbView::Conversation(id)),
            );
            let y = call_run::<Option<ApiConversation>>(a, x.tape, ApiView::Conversation(id));
            let r = resolve_conversation_run(a, t, id);
            x.out == Ok::<Option<Conversation>, StopView<'a>>(None) ==> (r.out matches Ok(got)
                ==> (y.out matches Ok(returned) && match returned {
                None => got is None,
                Some(c) => {
                    let z = resolve_user_run(a, y.tape, c.creator, true);
                    let w = resolve_members_run(a, z.tape, c.others@, true);
                    &&& got is None <==> {
                        ||| !c.current
                        ||| c.typ is OneToOne && forall|k: int|
                            0 <= k < c.others@.len() ==> !#[trigger] is_found(
                                a,
                                z.tape,
                                c.others@,
                                k,
                            )
                    }
                    &&& got matches Some(k) ==> (w.tape.log[w.tape.at as int] matches Reply::Time(
                        time,
                    ) && hears(
                        w.tape,
                        r.tape,
                        seq![
                            qa(QueryView::Now, Reply::Time(time)),
                            qa(
                                QueryView::Db(
                                    a.db(),
                                    DbView::InsertConversation(time, Roster::Current(&c)),
                                ),
                                Reply::Done,
                            ),
                            qa(
                                QueryView::Convert(
                                    Convert::Conversation(time, Roster::Current(&c)),
                                ),
                                Reply::Conversation(*k),
                            ),
                        ],
                    ))
                },
            }))
        }),
{
    let x = ask::<Option<Conversation>>(t, QueryView::Db(a.db(), DbView::Conversation(id)));
    let y = call_run::<Option<ApiConversation>>(a, x.tape, ApiView::Conversation(id));
    let r = resolve_conversation_run(a, t, id);
    conversation_is_local_or_fetched(a, t, id);
    if let (Ok(None), Ok(Some(c))) = (x.out, y.out) {
        if c.current && r.out is Ok {
            conversation_is_kept_unless_nobody_is_left(a, y.tape, &c);
            let z = resolve_user_run(a, y.tape, c.creator, true);
            let w = resolve_members_run(a, z.tape, c.others@, true);
            nobody_is_left_if_nobody_is_found(a, z.tape, c.others@);
            if let Ok(Some(k)) = r.out {
                let now = ask::<Time>(w.tape, QueryView::Now).out->Ok_0;
                kept_conversation_is_stored_first(a, w.tape, Roster::Current(&c), now, *k);
            }
        }
    }
}

// ---- Connections ------------------------------------------------------------------------------

/// How a connection is resolved: as the database has it, or else as the back-end returns it, stored
/// and converted. One that neither has is none.
pub proof fn connection_is_local_or_fetched_and_stored<'a>(
    a: &'a Actor<Online>,
    t: TapeView<'a>,
    to: UserId,
    kept: Connection,
)
    ensures
        ({
            let x = ask::<Option<Connection>>(t, QueryView::Db(a.db(), DbView::Connection(to)));
            let y = call_run::<Option<UserConnection>>(a, x.tape, ApiView::Connection(to));
            let r = resolve_connection_run(a, t, to);
            match (x.out, y.out) {
                (Err(_), _) => ends_as(r, x),
                (Ok(Some(c)), _) => r.tape == x.tape && r.out == Ok::<
                    Option<Connection>,
                    StopView<'a>,
                >(Some(c)),
                (Ok(None), Err(_)) => ends_as(r, y),
                (Ok(None), Ok(None)) => r.tape == y.tape && r.out == Ok::<
                    Option<Connection>,
                    StopView<'a>,
                >(None),
                (Ok(None), Ok(Some(c))) => {
                    &&& r.out matches Ok(got) ==> (got matches Some(k) && hears(
                        y.tape,
                        r.tape,
                        seq![
                            qa(QueryView::Db(a.db(), DbView::InsertConnection(&c)), Reply::Done),
                            qa(
                                QueryView::Convert(Convert::Connection(&c)),
                                Reply::Connection(k),
                            ),
                        ],
                    ))
                    &&& answers(y.tape, seq![Reply::Done, Reply::Connection(kept)]) ==> r.out is Ok
                },
            }
        }),
{
    let x = ask::<Option<Connection>>(t, QueryView::Db(a.db(), DbView::Connection(to)));
    let y = call_run::<Option<UserConnection>>(a, x.tape, ApiView::Connection(to));
    let r = resolve_connection_run(a, t, to);
    if let (Ok(None), Ok(Some(c))) = (x.out, y.out) {
        if let Ok(got) = r.out {
            assert(said(y.tape, r.tape) =~= seq![
                qa(QueryView::Db(a.db(), DbView::InsertConnection(&c)), Reply::Done),
                qa(QueryView::Convert(Convert::Connection(&c)), Reply::Connection(got->Some_0)),
            ]);
        }
        look_ahead(y.tape, seq![Reply::Done, Reply::Connection(kept)]);
    }
}

/// A new connection is stored as the back-end returns it, and is then what the database has under
/// the user whom it leads to.
pub proof fn new_connection_is_stored_first<'a>(
    a: &'a Actor<Online>,
    t: TapeView<'a>,
    to: UserId,
    name: &'a str,
    message: &'a str,
    kept: Connection,
)
    ensures
        ({
            let x = call_run::<UserConnection>(a, t, ApiView::Connect { to, name, message });
            let r = new_connection_run(a, t, to, name, message);
            match x.out {
                Err(_) => ends_as(r, x),
                Ok(c) => {
                    &&& r.out matches Ok(k) ==> hears(
                        x.tape,
                        r.tape,
                        seq![
                            qa(QueryView::Db(a.db(), DbView::InsertConnection(&c)), Reply::Done),
                            qa(
                                QueryView::Db(a.db(), DbView::Connection(c.to)),
                                Reply::MaybeConnection(Some(k)),
                            ),
                        ],
                    )
                    &&& answers(x.tape, seq![Reply::Done, Reply::MaybeConnection(Some(kept))])
                        ==> r.out is Ok
                },
            }
        }),
{
    let x = call_run::<UserConnection>(a, t, ApiView::Connect { to, name, message });
    let r = new_connection_run(a, t, to, name, message);
    if let Ok(c) = x.out {
        if let Ok(k) = r.out {
            assert(said(x.tape, r.tape) =~= seq![
                qa(QueryView::Db(a.db(), DbView::InsertConnection(&c)), Reply::Done),
                qa(
                    QueryView::Db(a.db(), DbView::Connection(c.to)),
                    Reply::MaybeConnection(Some(k)),
                ),
            ]);
        }
        look_ahead(x.tape, seq![Reply::Done, Reply::MaybeConnection(Some(kept))]);
    }
}

/// The status of a connection is stored if and only if the back-end has updated it.
pub proof fn status_is_stored_if_updated<'a>(
    a: &'a Actor<Online>,
    t: TapeView<'a>,
    to: UserId,
    status: ConnectStatus,
)
    ensures
        ({
            let x = call_run::<bool>(a, t, ApiView::SetConnectStatus(to, status));
            let r = update_connection_run(a, t, to, status);
            match x.out {
                Err(_) => ends_as(r, x),
                Ok(false) => r.tape == x.tape && r.out == Ok::<bool, StopView<'a>>(false),
                Ok(true) => {
                    &&& r.out matches Ok(updated) ==> updated && hears(
                        x.tape,
                        r.tape,
                        seq![
                            qa(
                                QueryView::Db(a.db(), DbView::UpdateConnection(to, status)),
                                Reply::Done,
                            ),
                        ],
                    )
                    &&& answers(x.tape, seq![Reply::Done]) ==> r.out is Ok
                },
            }
        }),
{
    let x = call_run::<bool>(a, t, ApiView::SetConnectStatus(to, status));
    let r = update_connection_run(a, t, to, status);
    if let Ok(true) = x.out {
        if r.out is Ok {
            assert(said(x.tape, r.tape) =~= seq![
                qa(QueryView::Db(a.db(), DbView::UpdateConnection(to, status)), Reply::Done),
            ]);
        }
        look_ahead(x.tape, seq![Reply::Done]);
    }
}

/// A new conversation is kept as one of our own, under the id that the back-end gave it, with the
/// name and the members that were asked for.
pub proof fn new_conversation_is_kept<'a>(
    a: &'a Actor<Online>,
    t: TapeView<'a>,
    name: &'a str,
    others: &'a Vec<UserId>,
)
    ensures
        ({
            let x = call_run::<ConvId>(a, t, ApiView::CreateConversation { name, others });
            let r = new_conversation_run(a, t, name, others);
            match x.out {
                Err(_) => ends_as(r, x),
                Ok(id) => r == keep_conversation_run(
                    a,
                    x.tape,
                    Roster::Own { id, creator: a.state.user.user.id, name, others },
                ),
            }
        }),
{
}

} // verus!
