//! What is done to the items of a list is done to each of them, once and in order.
//!
//! For each operation on a list there are two laws. One says what is done to a single item. The other
//! says that a list in two parts is gone through by going through the first part and then, unless
//! that stopped, through the second.
use crate::actor::{Actor, Online};
use crate::directory::{convert_clients_run, resolve_conversation_run, resolve_user_run};
use crate::events::{join_all_run, join_run, on_event_run, on_events_run, resolve_everyone_run};
use crate::laws_login::follows;
use crate::login::prekeys_run;
use crate::model::{
    ApiClient, Client, ClientPrekey, ConvEvent, ConvId, Envelope, Event, Handle, Member, NewSession,
    QueueItem, User, UserConnection, UserId, UserPrekeys, UserSessionsView,
};
use crate::outbox::{
    include_clients_run, include_run, include_users_run, seal_clients_run, seal_for_run,
    seal_members_run, seal_run, seal_sessions_run,
};
use crate::query::{Convert, CryptView, DbView, QueryView};
use crate::resend::{resend_item_run, resend_items_run};
use crate::sync::{keep_connection_run, keep_connections_run, resolve_listed_run};
use crate::tape::{ask, done, Reply, Run, StopView, TapeView};
use crate::trace::{is_answer, qa, said, said_in_parts};
use vstd::prelude::*;

verus! {

/// Is `whole` the run `first`, and then the run `second` where the first came to a result?
pub open spec fn one_after_the_other<'a, T, U>(
    first: Run<'a, T>,
    second: Run<'a, U>,
    whole: Run<'a, U>,
) -> bool {
    match first.out {
        Ok(_) => whole == second,
        Err(s) => whole.tape == first.tape && whole.out == Err::<U, StopView<'a>>(s),
    }
}

// ---- Events ------------------------------------------------------------------------------------

/// The events of a notification are taken in part by part.
pub proof fn events_in_parts<'a>(
    a: &'a Actor<Online>,
    t: TapeView<'a>,
    es: Seq<Event>,
    more: Seq<Event>,
)
    ensures
        one_after_the_other(
            on_events_run(a, t, es),
            on_events_run(a, on_events_run(a, t, es).tape, more),
            on_events_run(a, t, es + more),
        ),
    decreases es.len(),
{
    if es.len() == 0 {
        assert(es + more =~= more);
    } else {
        assert((es + more).drop_first() =~= es.drop_first() + more);
        let x = on_event_run(a, t, &es[0]);
        if x.out is Ok {
            events_in_parts(a, x.tape, es.drop_first(), more);
        }
    }
}

/// The events of a notification are taken in one by one.
pub proof fn events_one_by_one<'a>(
    a: &'a Actor<Online>,
    t: TapeView<'a>,
    x: Event,
)
    ensures
        on_events_run(a, t, Seq::empty()) == done(t, ()),
        one_after_the_other(
            on_event_run(a, t, &x),
            done(on_event_run(a, t, &x).tape, ()),
            on_events_run(a, t, seq![x]),
        ),
{
    assert(seq![x].drop_first() =~= Seq::empty());
    let r = on_event_run(a, t, &x);
    if r.out is Ok {
        assert(on_events_run(a, r.tape, Seq::empty()) == done(r.tape, ()));
    }
}

// ---- Newcomers ---------------------------------------------------------------------------------

/// The members of a new conversation are resolved part by part.
pub proof fn newcomers_in_parts<'a>(
    a: &'a Actor<Online>,
    t: TapeView<'a>,
    members: Seq<Member>,
    more: Seq<Member>,
)
    ensures
        one_after_the_other(
            resolve_everyone_run(a, t, members),
            resolve_everyone_run(a, resolve_everyone_run(a, t, members).tape, more),
            resolve_everyone_run(a, t, members + more),
        ),
    decreases members.len(),
{
    if members.len() == 0 {
        assert(members + more =~= more);
    } else {
        assert((members + more).drop_first() =~= members.drop_first() + more);
        let x = resolve_user_run(a, t, members[0].id, true);
        if x.out is Ok {
            newcomers_in_parts(a, x.tape, members.drop_first(), more);
        }
    }
}

/// The members of a new conversation are resolved one by one.
pub proof fn newcomers_one_by_one<'a>(
    a: &'a Actor<Online>,
    t: TapeView<'a>,
    x: Member,
)
    ensures
        resolve_everyone_run(a, t, Seq::empty()) == done(t, ()),
        one_after_the_other(
            resolve_user_run(a, t, x.id, true),
            done(resolve_user_run(a, t, x.id, true).tape, ()),
            resolve_everyone_run(a, t, seq![x]),
        ),
{
    assert(seq![x].drop_first() =~= Seq::empty());
    let r = resolve_user_run(a, t, x.id, true);
    if r.out is Ok {
        assert(resolve_everyone_run(a, r.tape, Seq::empty()) == done(r.tape, ()));
    }
}

// ---- Connections -------------------------------------------------------------------------------

/// The connections of a page are taken in part by part.
pub proof fn connections_in_parts<'a>(
    a: &'a Actor<Online>,
    t: TapeView<'a>,
    cs: Seq<UserConnection>,
    more: Seq<UserConnection>,
)
    ensures
        one_after_the_other(
            keep_connections_run(a, t, cs),
            keep_connections_run(a, keep_connections_run(a, t, cs).tape, more),
            keep_connections_run(a, t, cs + more),
        ),
    decreases cs.len(),
{
    if cs.len() == 0 {
        assert(cs + more =~= more);
    } else {
        assert((cs + more).drop_first() =~= cs.drop_first() + more);
        let x = keep_connection_run(a, t, &cs[0]);
        if x.out is Ok {
            connections_in_parts(a, x.tape, cs.drop_first(), more);
        }
    }
}

/// The connections of a page are taken in one by one.
pub proof fn connections_one_by_one<'a>(
    a: &'a Actor<Online>,
    t: TapeView<'a>,
    x: UserConnection,
)
    ensures
        keep_connections_run(a, t, Seq::empty()) == done(t, ()),
        one_after_the_other(
            keep_connection_run(a, t, &x),
            done(keep_connection_run(a, t, &x).tape, ()),
            keep_connections_run(a, t, seq![x]),
        ),
{
    assert(seq![x].drop_first() =~= Seq::empty());
    let r = keep_connection_run(a, t, &x);
    if r.out is Ok {
        assert(keep_connections_run(a, r.tape, Seq::empty()) == done(r.tape, ()));
    }
}

// ---- Listed conversations ----------------------------------------------------------------------

/// The conversations of a list are resolved part by part.
pub proof fn listed_conversations_in_parts<'a>(
    a: &'a Actor<Online>,
    t: TapeView<'a>,
    ids: Seq<ConvId>,
    more: Seq<ConvId>,
)
    ensures
        one_after_the_other(
            resolve_listed_run(a, t, ids),
            resolve_listed_run(a, resolve_listed_run(a, t, ids).tape, more),
            resolve_listed_run(a, t, ids + more),
        ),
    decreases ids.len(),
{
    if ids.len() == 0 {
        assert(ids + more =~= more);
    } else {
        assert((ids + more).drop_first() =~= ids.drop_first() + more);
        let x = resolve_conversation_run(a, t, ids[0]);
        if x.out is Ok {
            listed_conversations_in_parts(a, x.tape, ids.drop_first(), more);
        }
    }
}

/// The conversations of a list are resolved one by one.
pub proof fn listed_conversations_one_by_one<'a>(
    a: &'a Actor<Online>,
    t: TapeView<'a>,
    x: ConvId,
)
    ensures
        resolve_listed_run(a, t, Seq::empty()) == done(t, ()),
        one_after_the_other(
            resolve_conversation_run(a, t, x),
            done(resolve_conversation_run(a, t, x).tape, ()),
            resolve_listed_run(a, t, seq![x]),
        ),
{
    assert(seq![x].drop_first() =~= Seq::empty());
    let r = resolve_conversation_run(a, t, x);
    if r.out is Ok {
        assert(resolve_listed_run(a, r.tape, Seq::empty()) == done(r.tape, ()));
    }
}

// ---- Queue items -------------------------------------------------------------------------------

/// The items of a page of the queue are sent part by part.
pub proof fn queue_items_in_parts<'a>(
    a: &'a Actor<Online>,
    t: TapeView<'a>,
    items: Seq<QueueItem>,
    more: Seq<QueueItem>,
)
    ensures
        one_after_the_other(
            resend_items_run(a, t, items),
            resend_items_run(a, resend_items_run(a, t, items).tape, more),
            resend_items_run(a, t, items + more),
        ),
    decreases items.len(),
{
    if items.len() == 0 {
        assert(items + more =~= more);
    } else {
        assert((items + more).drop_first() =~= items.drop_first() + more);
        let x = resend_item_run(a, t, &items[0]);
        if x.out is Ok {
            queue_items_in_parts(a, x.tape, items.drop_first(), more);
        }
    }
}

/// The items of a page of the queue are sent one by one.
pub proof fn queue_items_one_by_one<'a>(
    a: &'a Actor<Online>,
    t: TapeView<'a>,
    x: QueueItem,
)
    ensures
        resend_items_run(a, t, Seq::empty()) == done(t, ()),
        one_after_the_other(
            resend_item_run(a, t, &x),
            done(resend_item_run(a, t, &x).tape, ()),
            resend_items_run(a, t, seq![x]),
        ),
{
    assert(seq![x].drop_first() =~= Seq::empty());
    let r = resend_item_run(a, t, &x);
    if r.out is Ok {
        assert(resend_items_run(a, r.tape, Seq::empty()) == done(r.tape, ()));
    }
}

// ---- Devices -----------------------------------------------------------------------------------

/// The devices of a member are encrypted for part by part.
pub proof fn devices_in_parts<'a>(
    a: &'a Actor<Online>,
    t: TapeView<'a>,
    user: UserId,
    clients: Seq<Client>,
    more: Seq<Client>,
    plain: &'a Vec<u8>,
    envelope: Envelope,
)
    ensures
        one_after_the_other(
            seal_clients_run(a, t, user, clients, plain, envelope),
            seal_clients_run(
                a,
                seal_clients_run(a, t, user, clients, plain, envelope).tape,
                user,
                more,
                plain,
                envelope,
            ),
            seal_clients_run(a, t, user, clients + more, plain, envelope),
        ),
    decreases clients.len(),
{
    if clients.len() == 0 {
        assert(clients + more =~= more);
    } else {
        assert((clients + more).drop_first() =~= clients.drop_first() + more);
        let x = seal_run(a, t, user, clients[0].id@, plain, envelope);
        if x.out is Ok {
            devices_in_parts(a, x.tape, user, clients.drop_first(), more, plain, envelope);
        }
    }
}

/// The devices of a member are encrypted for one by one.
pub proof fn devices_one_by_one<'a>(
    a: &'a Actor<Online>,
    t: TapeView<'a>,
    user: UserId,
    x: Client,
    plain: &'a Vec<u8>,
    envelope: Envelope,
)
    ensures
        seal_clients_run(a, t, user, Seq::empty(), plain, envelope) == done(t, ()),
        one_after_the_other(
            seal_run(a, t, user, x.id@, plain, envelope),
            done(seal_run(a, t, user, x.id@, plain, envelope).tape, ()),
            seal_clients_run(a, t, user, seq![x], plain, envelope),
        ),
{
    assert(seq![x].drop_first() =~= Seq::empty());
    let r = seal_run(a, t, user, x.id@, plain, envelope);
    if r.out is Ok {
        assert(seal_clients_run(a, r.tape, user, Seq::empty(), plain, envelope) == done(r.tape, ()));
    }
}

// ---- Users left out ----------------------------------------------------------------------------

/// The users whose devices were left out are encrypted for part by part.
pub proof fn users_left_out_in_parts<'a>(
    a: &'a Actor<Online>,
    t: TapeView<'a>,
    us: Seq<UserSessionsView<'a>>,
    more: Seq<UserSessionsView<'a>>,
    plain: &'a Vec<u8>,
    envelope: Envelope,
)
    ensures
        one_after_the_other(
            seal_for_run(a, t, us, plain, envelope),
            seal_for_run(a, seal_for_run(a, t, us, plain, envelope).tape, more, plain, envelope),
            seal_for_run(a, t, us + more, plain, envelope),
        ),
    decreases us.len(),
{
    if us.len() == 0 {
        assert(us + more =~= more);
    } else {
        assert((us + more).drop_first() =~= us.drop_first() + more);
        let x = seal_sessions_run(a, t, us[0].user, us[0].sessions, plain, envelope);
        if x.out is Ok {
            users_left_out_in_parts(a, x.tape, us.drop_first(), more, plain, envelope);
        }
    }
}

/// The users whose devices were left out are encrypted for one by one.
pub proof fn users_left_out_one_by_one<'a>(
    a: &'a Actor<Online>,
    t: TapeView<'a>,
    x: UserSessionsView<'a>,
    plain: &'a Vec<u8>,
    envelope: Envelope,
)
    ensures
        seal_for_run(a, t, Seq::empty(), plain, envelope) == done(t, ()),
        one_after_the_other(
            seal_sessions_run(a, t, x.user, x.sessions, plain, envelope),
            done(seal_sessions_run(a, t, x.user, x.sessions, plain, envelope).tape, ()),
            seal_for_run(a, t, seq![x], plain, envelope),
        ),
{
    assert(seq![x].drop_first() =~= Seq::empty());
    let r = seal_sessions_run(a, t, x.user, x.sessions, plain, envelope);
    if r.out is Ok {
        assert(seal_for_run(a, r.tape, Seq::empty(), plain, envelope) == done(r.tape, ()));
    }
}

// ---- Members --------------------------------------------------------------------------------

/// The members of a conversation are encrypted for part by part.
pub proof fn members_in_parts<'a>(
    a: &'a Actor<Online>,
    t: TapeView<'a>,
    members: Seq<UserId>,
    more: Seq<UserId>,
    plain: &'a Vec<u8>,
    envelope: Envelope,
)
    ensures
        one_after_the_other(
            seal_members_run(a, t, members, plain, envelope),
            seal_members_run(
                a,
                seal_members_run(a, t, members, plain, envelope).tape,
                more,
                plain,
                envelope,
            ),
            seal_members_run(a, t, members + more, plain, envelope),
        ),
    decreases members.len(),
{
    if members.len() == 0 {
        assert(members + more =~= more);
    } else {
        assert((members + more).drop_first() =~= members.drop_first() + more);
        let x = ask::<Vec<Client>>(t, QueryView::Db(a.db(), DbView::Clients(members[0])));
        if let Ok(cs) = x.out {
            let y = seal_clients_run(a, x.tape, members[0], cs@, plain, envelope);
            members_in_parts(a, y.tape, members.drop_first(), more, plain, envelope);
        }
    }
}

/// The members of a conversation are encrypted for one by one: each on all the devices that are
/// stored.
pub proof fn members_one_by_one<'a>(
    a: &'a Actor<Online>,
    t: TapeView<'a>,
    user: UserId,
    plain: &'a Vec<u8>,
    envelope: Envelope,
)
    ensures
        seal_members_run(a, t, Seq::empty(), plain, envelope) == done(t, ()),
        ({
            let x = ask::<Vec<Client>>(t, QueryView::Db(a.db(), DbView::Clients(user)));
            let all = x.out->Ok_0@;
            one_after_the_other(
                x,
                seal_clients_run(a, x.tape, user, all, plain, envelope),
                seal_members_run(a, t, seq![user], plain, envelope),
            )
        }),
{
    assert(seq![user].drop_first() =~= Seq::empty());
    let x = ask::<Vec<Client>>(t, QueryView::Db(a.db(), DbView::Clients(user)));
    if let Ok(cs) = x.out {
        let y = seal_clients_run(a, x.tape, user, cs@, plain, envelope);
        assert(seal_members_run(a, y.tape, Seq::empty(), plain, envelope) == done(y.tape, ()));
        if let Ok(unit) = y.out {
            assert(unit == ());
        }
    }
}

// ---- Sessions -------------------------------------------------------------------------------

/// The sessions with the devices of a user are encrypted for part by part.
pub proof fn sessions_in_parts<'a>(
    a: &'a Actor<Online>,
    t: TapeView<'a>,
    user: UserId,
    ss: Seq<NewSession<'a>>,
    more: Seq<NewSession<'a>>,
    plain: &'a Vec<u8>,
    envelope: Envelope,
)
    ensures
        one_after_the_other(
            seal_sessions_run(a, t, user, ss, plain, envelope),
            seal_sessions_run(
                a,
                seal_sessions_run(a, t, user, ss, plain, envelope).tape,
                user,
                more,
                plain,
                envelope,
            ),
            seal_sessions_run(a, t, user, ss + more, plain, envelope),
        ),
    decreases ss.len(),
{
    if ss.len() == 0 {
        assert(ss + more =~= more);
    } else {
        assert((ss + more).drop_first() =~= ss.drop_first() + more);
        let x = ask::<()>(
            t,
            QueryView::Crypt(
                a.state.user.device.cbox,
                CryptView::Encrypt {
                    session: ss[0].session,
                    user,
                    client: ss[0].client@,
                    plain,
                    envelope,
                },
            ),
        );
        if x.out is Ok {
            sessions_in_parts(a, x.tape, user, ss.drop_first(), more, plain, envelope);
        }
    }
}

// ---- Devices that joined, were fetched or were left out -------------------------------------

/// The devices that were fetched are converted one by one: each gives the answer to one question,
/// and the result holds these answers in the order of the devices.
pub proof fn fetched_devices_are_converted<'a>(
    t: TapeView<'a>,
    user: UserId,
    cs: Seq<ApiClient>,
    before: Seq<&'a Client>,
)
    ensures
        convert_clients_run(t, user, cs, before).out matches Ok(found) ==> {
            let r = convert_clients_run(t, user, cs, before);
            &&& follows(t, r.tape)
            &&& found.len() == before.len() + cs.len()
            &&& said(t, r.tape).len() == cs.len()
            &&& forall|i: int| 0 <= i < before.len() ==> #[trigger] found[i] == before[i]
            &&& forall|i: int|
                0 <= i < cs.len() ==> #[trigger] said(t, r.tape)[i] == qa(
                    QueryView::Convert(Convert::Client(user, &cs[i])),
                    Reply::Client(*found[before.len() + i]),
                )
        },
    decreases cs.len(),
{
    if cs.len() > 0 {
        let x = ask::<Client>(t, QueryView::Convert(Convert::Client(user, &cs[0])));
        if let Ok(c) = x.out {
            let rest = cs.drop_first();
            let more = before.push(&c);
            fetched_devices_are_converted(x.tape, user, rest, more);
            let r = convert_clients_run(x.tape, user, rest, more);
            if let Ok(found) = r.out {
                said_in_parts(t, x.tape, r.tape);
                assert(found[before.len() as int] == more[before.len() as int]);
                assert forall|i: int| 0 <= i < before.len() implies #[trigger] found[i]
                    == before[i] by {
                    assert(found[i] == more[i]);
                }
                assert forall|i: int| 0 <= i < cs.len() implies #[trigger] said(t, r.tape)[i]
                    == qa(
                    QueryView::Convert(Convert::Client(user, &cs[i])),
                    Reply::Client(*found[before.len() + i]),
                ) by {
                    if i > 0 {
                        assert(said(t, r.tape)[i] == said(x.tape, r.tape)[i - 1]);
                        assert(rest[i - 1] == cs[i]);
                    }
                }
            }
        }
    }
}

/// The devices that were fetched are converted part by part.
pub proof fn fetched_devices_in_parts<'a>(
    t: TapeView<'a>,
    user: UserId,
    cs: Seq<ApiClient>,
    more: Seq<ApiClient>,
    before: Seq<&'a Client>,
)
    ensures
        ({
            let first = convert_clients_run(t, user, cs, before);
            one_after_the_other(
                first,
                convert_clients_run(first.tape, user, more, first.out->Ok_0),
                convert_clients_run(t, user, cs + more, before),
            )
        }),
    decreases cs.len(),
{
    if cs.len() == 0 {
        assert(cs + more =~= more);
    } else {
        assert((cs + more).drop_first() =~= cs.drop_first() + more);
        let x = ask::<Client>(t, QueryView::Convert(Convert::Client(user, &cs[0])));
        if let Ok(c) = x.out {
            fetched_devices_in_parts(x.tape, user, cs.drop_first(), more, before.push(&c));
        }
    }
}

/// A single device that was fetched is converted by a single question, and an empty list by none.
pub proof fn fetched_devices_one_by_one<'a>(
    t: TapeView<'a>,
    user: UserId,
    c: ApiClient,
    before: Seq<&'a Client>,
    k: Client,
)
    ensures
        convert_clients_run(t, user, Seq::empty(), before) == done(t, before),
        is_answer(
            t,
            convert_clients_run(t, user, seq![c], before),
            QueryView::Convert(Convert::Client(user, &c)),
            Reply::Client(k),
            before.push(&k),
        ),
{
    assert(seq![c].drop_first() =~= Seq::empty());
    let x = ask::<Client>(t, QueryView::Convert(Convert::Client(user, &c)));
    if let Ok(got) = x.out {
        let all = before.push(&got);
        assert(convert_clients_run(x.tape, user, Seq::empty(), all) == done(x.tape, all));
    }
}

/// Each prekey of a new device is made by a question of its own, and the rest follow it.
pub proof fn prekeys_follow_each_other<'a>(t: TapeView<'a>, cbox: Handle, i: int, made: Seq<Handle>)
    requires
        0 <= i <= 200,
    ensures
        ({
            let x = ask::<Handle>(t, QueryView::Crypt(cbox, CryptView::NewPrekey(i as u16)));
            let r = prekeys_run(t, cbox, i, made);
            if i == 200 {
                r == done(t, made)
            } else {
                one_after_the_other(
                    x,
                    prekeys_run(x.tape, cbox, i + 1, made.push(x.out->Ok_0)),
                    r,
                )
            }
        }),
{
}

/// The prekeys of a new device are made one by one, with the ids from zero on.
pub proof fn prekeys_are_made_in_order<'a>(t: TapeView<'a>, cbox: Handle, i: int, made: Seq<Handle>)
    requires
        0 <= i <= 200,
    ensures
        prekeys_run(t, cbox, i, made).out matches Ok(keys) ==> {
            let r = prekeys_run(t, cbox, i, made);
            &&& follows(t, r.tape)
            &&& keys.len() == made.len() + (200 - i)
            &&& said(t, r.tape).len() == 200 - i
            &&& forall|k: int| 0 <= k < made.len() ==> #[trigger] keys[k] == made[k]
            &&& forall|k: int|
                0 <= k < 200 - i ==> #[trigger] said(t, r.tape)[k] == qa(
                    QueryView::Crypt(cbox, CryptView::NewPrekey((i + k) as u16)),
                    Reply::Handle(keys[made.len() + k]),
                )
        },
    decreases 200 - i,
{
    if i < 200 {
        let x = ask::<Handle>(t, QueryView::Crypt(cbox, CryptView::NewPrekey(i as u16)));
        if let Ok(key) = x.out {
            let more = made.push(key);
            prekeys_are_made_in_order(x.tape, cbox, i + 1, more);
            let r = prekeys_run(x.tape, cbox, i + 1, more);
            if let Ok(keys) = r.out {
                said_in_parts(t, x.tape, r.tape);
                assert(keys[made.len() as int] == more[made.len() as int]);
                assert forall|k: int| 0 <= k < made.len() implies #[trigger] keys[k] == made[k] by {
                    assert(keys[k] == more[k]);
                }
                assert forall|k: int| 0 <= k < 200 - i implies #[trigger] said(t, r.tape)[k] == qa(
                    QueryView::Crypt(cbox, CryptView::NewPrekey((i + k) as u16)),
                    Reply::Handle(keys[made.len() + k]),
                ) by {
                    if k > 0 {
                        assert(said(t, r.tape)[k] == said(x.tape, r.tape)[k - 1]);
                    }
                }
            }
        }
    }
}

/// The devices of a user that were left out are taken in part by part.
pub proof fn devices_left_out_in_parts<'a>(
    a: &'a Actor<Online>,
    t: TapeView<'a>,
    user: UserId,
    cs: Seq<ClientPrekey>,
    more: Seq<ClientPrekey>,
    made: Seq<NewSession<'a>>,
)
    ensures
        ({
            let first = include_clients_run(a, t, user, cs, made);
            one_after_the_other(
                first,
                include_clients_run(a, first.tape, user, more, first.out->Ok_0),
                include_clients_run(a, t, user, cs + more, made),
            )
        }),
    decreases cs.len(),
{
    if cs.len() == 0 {
        assert(cs + more =~= more);
    } else {
        assert((cs + more).drop_first() =~= cs.drop_first() + more);
        let x = include_run(a, t, user, &cs[0], made);
        if let Ok(next) = x.out {
            devices_left_out_in_parts(a, x.tape, user, cs.drop_first(), more, next);
        }
    }
}

/// The users whose devices were left out are taken in part by part.
pub proof fn mismatched_users_in_parts<'a>(
    a: &'a Actor<Online>,
    t: TapeView<'a>,
    users: Seq<UserPrekeys>,
    more: Seq<UserPrekeys>,
    made: Seq<UserSessionsView<'a>>,
)
    ensures
        ({
            let first = include_users_run(a, t, users, made);
            one_after_the_other(
                first,
                include_users_run(a, first.tape, more, first.out->Ok_0),
                include_users_run(a, t, users + more, made),
            )
        }),
    decreases users.len(),
{
    if users.len() == 0 {
        assert(users + more =~= more);
    } else {
        assert((users + more).drop_first() =~= users.drop_first() + more);
        let x = include_clients_run(a, t, users[0].user, users[0].clients@, Seq::empty());
        if let Ok(sessions) = x.out {
            let next = made.push(UserSessionsView { user: users[0].user, sessions });
            mismatched_users_in_parts(a, x.tape, users.drop_first(), more, next);
        }
    }
}

/// The users who have joined a conversation are taken in part by part.
pub proof fn joining_users_in_parts<'a>(
    a: &'a Actor<Online>,
    t: TapeView<'a>,
    e: &'a ConvEvent,
    ids: Seq<UserId>,
    more: Seq<UserId>,
    joined: Seq<&'a User>,
)
    ensures
        ({
            let first = join_all_run(a, t, e, ids, joined);
            one_after_the_other(
                first,
                join_all_run(a, first.tape, e, more, first.out->Ok_0),
                join_all_run(a, t, e, ids + more, joined),
            )
        }),
    decreases ids.len(),
{
    if ids.len() == 0 {
        assert(ids + more =~= more);
    } else {
        assert((ids + more).drop_first() =~= ids.drop_first() + more);
        let x = join_run(a, t, e, ids[0], joined);
        if let Ok(next) = x.out {
            joining_users_in_parts(a, x.tape, e, ids.drop_first(), more, next);
        }
    }
}

/// A single device that was left out, a single user with such devices, and a single user who has
/// joined are taken in as such; an empty list changes nothing.
pub proof fn single_ones_are_taken_in<'a>(
    a: &'a Actor<Online>,
    t: TapeView<'a>,
    e: &'a ConvEvent,
    user: UserId,
    c: ClientPrekey,
    p: UserPrekeys,
    sessions: Seq<NewSession<'a>>,
    made: Seq<UserSessionsView<'a>>,
    joined: Seq<&'a User>,
)
    ensures
        include_clients_run(a, t, user, Seq::empty(), sessions) == done(t, sessions),
        include_clients_run(a, t, user, seq![c], sessions) == include_run(a, t, user, &c, sessions),
        include_users_run(a, t, Seq::empty(), made) == done(t, made),
        ({
            let x = include_clients_run(a, t, p.user, p.clients@, Seq::empty());
            one_after_the_other(
                x,
                done(
                    x.tape,
                    made.push(UserSessionsView { user: p.user, sessions: x.out->Ok_0 }),
                ),
                include_users_run(a, t, seq![p], made),
            )
        }),
        join_all_run(a, t, e, Seq::empty(), joined) == done(t, joined),
        join_all_run(a, t, e, seq![user], joined) == join_run(a, t, e, user, joined),
{
    assert(seq![c].drop_first() =~= Seq::empty());
    assert(seq![p].drop_first() =~= Seq::empty());
    assert(seq![user].drop_first() =~= Seq::empty());
    let x = include_run(a, t, user, &c, sessions);
    if let Ok(all) = x.out {
        assert(include_clients_run(a, x.tape, user, Seq::empty(), all) == done(x.tape, all));
    }
    let y = include_clients_run(a, t, p.user, p.clients@, Seq::empty());
    if let Ok(got) = y.out {
        let all = made.push(UserSessionsView { user: p.user, sessions: got });
        assert(include_users_run(a, y.tape, Seq::empty(), all) == done(y.tape, all));
    }
    let z = join_run(a, t, e, user, joined);
    if let Ok(all) = z.out {
        assert(join_all_run(a, z.tape, e, Seq::empty(), all) == done(z.tape, all));
    }
}

} // verus!
