//! What holds of lookups, whatever the services answer.
use crate::access::{
    attempt_run, call_from_is_steady, call_is_steady, call_reads_on, call_run, weigh,
};
use crate::actor::{Actor, Online};
use crate::contacts::resolve_connection_run;
use crate::directory::{
    each, fetch_conversation_is_steady, fetch_conversation_run, resolve_client_run,
    resolve_clients_run, resolve_conversation_run, resolve_members_is_steady, resolve_members_run,
    resolve_user_is_steady, resolve_user_run,
};
use crate::footprint::{call_touches, fetch_conversation_touches, topic, Topic};
use crate::model::{
    ApiClient, ApiConversation, ApiUser, Client, Connection, ConvId, Conversation, Page, Time, User,
    UserConnection, UserId,
};
use crate::query::{ApiView, Convert, DbView, QueryView, Roster};
use crate::sync::{
    conversation_ids_run, is_last_page, resolve_conversations_run, resolve_listed_is_steady,
    resolve_listed_run, resolve_pages_run, share, LIMIT, PAGE,
};
use crate::tape::{ask, begins_with, Reply, Run, StopView, TapeView};
use vstd::prelude::*;

verus! {

/// Is the next answer on the tape this one?
pub open spec fn next_is<'a>(t: TapeView<'a>, r: Reply) -> bool {
    t.at < t.log.len() && t.log[t.at as int] == r
}

/// Is the answer after that this one?
pub open spec fn second_is<'a>(t: TapeView<'a>, r: Reply) -> bool {
    t.at + 1 < t.log.len() && t.log[t.at as int + 1] == r
}

/// Did a run ask one question only, and get this result?
pub open spec fn just<'a, T>(t: TapeView<'a>, r: Run<'a, T>, q: QueryView<'a>, v: T) -> bool {
    r.tape.asked == t.asked.push(q) && r.out == Ok::<T, StopView<'a>>(v)
}

/// Were these the last two questions of a run over `t`?
pub open spec fn ends_with<'a, T>(
    t: TapeView<'a>,
    r: Run<'a, T>,
    q1: QueryView<'a>,
    q2: QueryView<'a>,
) -> bool {
    let n = r.tape.asked.len();
    n >= t.asked.len() + 2 && r.tape.asked[n - 2] == q1 && r.tape.asked[n - 1] == q2
}

// ---- What is found locally is not fetched ---------------------------------------------------

/// A user who is found locally is returned right away, unless the user is deleted.
pub proof fn local_user_is_returned<'a>(a: &'a Actor<Online>, t: TapeView<'a>, id: UserId, u: User)
    requires
        next_is(t, Reply::MaybeUser(Some(u))),
    ensures
        just(
            t,
            resolve_user_run(a, t, id, true),
            QueryView::Db(a.db(), DbView::User(id)),
            if u.deleted {
                None
            } else {
                Some(&u)
            },
        ),
{
}

/// Without leave to look locally, the back-end is asked first.
pub proof fn back_end_is_asked_first<'a>(a: &'a Actor<Online>, t: TapeView<'a>, id: UserId)
    ensures
        ({
            let r = resolve_user_run(a, t, id, false);
            &&& r.tape.asked.len() > t.asked.len()
            &&& r.tape.asked[t.asked.len() as int] == QueryView::Api(a.link(), ApiView::User(id))
        }),
{
    let q = ApiView::User(id);
    let first = weigh(attempt_run::<Option<ApiUser>>(a, t, None, q), 0);
    assert(first.tape.asked[t.asked.len() as int] == QueryView::Api(a.link(), q));
    if let Ok(Err(r)) = first.out {
        call_from_is_steady::<Option<ApiUser>>(a, first.tape, first.tape, Some(r), 1, q);
    }
}

/// A device that is found locally is returned right away.
pub proof fn local_client_is_returned<'a>(
    a: &'a Actor<Online>,
    t: TapeView<'a>,
    user: UserId,
    id: Seq<char>,
    c: Client,
)
    requires
        next_is(t, Reply::MaybeClient(Some(c))),
    ensures
        just(
            t,
            resolve_client_run(a, t, user, id),
            QueryView::Db(a.db(), DbView::Client(user, id)),
            Some(&c),
        ),
{
}

/// Devices that are found locally are returned right away, all of them and in order.
pub proof fn local_clients_are_returned<'a>(
    a: &'a Actor<Online>,
    t: TapeView<'a>,
    user: UserId,
    cs: Vec<Client>,
)
    requires
        next_is(t, Reply::Clients(cs)),
        cs@.len() > 0,
    ensures
        just(
            t,
            resolve_clients_run(a, t, user),
            QueryView::Db(a.db(), DbView::Clients(user)),
            each(cs@),
        ),
{
}

/// A conversation that is found locally is returned right away.
pub proof fn local_conversation_is_returned<'a>(
    a: &'a Actor<Online>,
    t: TapeView<'a>,
    id: ConvId,
    c: Conversation,
)
    requires
        next_is(t, Reply::MaybeConversation(Some(c))),
    ensures
        just(
            t,
            resolve_conversation_run(a, t, id),
            QueryView::Db(a.db(), DbView::Conversation(id)),
            Some(&c),
        ),
{
}

/// A connection that is found locally is returned right away.
pub proof fn local_connection_is_returned<'a>(
    a: &'a Actor<Online>,
    t: TapeView<'a>,
    to: UserId,
    c: Connection,
)
    requires
        next_is(t, Reply::MaybeConnection(Some(c))),
    ensures
        just(
            t,
            resolve_connection_run(a, t, to),
            QueryView::Db(a.db(), DbView::Connection(to)),
            Some(c),
        ),
{
}

// ---- What is fetched is stored --------------------------------------------------------------

/// A user who is returned was found locally, or was fetched and stored just before. Either way the
/// user is not deleted.
pub proof fn returned_user_is_stored<'a>(
    a: &'a Actor<Online>,
    t: TapeView<'a>,
    id: UserId,
    allow_local: bool,
)
    ensures
        resolve_user_run(a, t, id, allow_local).out matches Ok(Some(u)) ==> {
            ||| allow_local && !u.deleted && next_is(t, Reply::MaybeUser(Some(*u)))
            ||| exists|f: &'a ApiUser|
                f.deleted != Some(true) && #[trigger] ends_with(
                    t,
                    resolve_user_run(a, t, id, allow_local),
                    QueryView::Db(a.db(), DbView::InsertUser(f)),
                    QueryView::Convert(Convert::User(f)),
                )
        },
{
    let r = resolve_user_run(a, t, id, allow_local);
    if let Ok(Some(u)) = r.out {
        let x = ask::<Option<User>>(t, QueryView::Db(a.db(), DbView::User(id)));
        let t1 = if allow_local {
            x.tape
        } else {
            t
        };
        if !(allow_local && x.out matches Ok(Some(_))) {
            let y = call_run::<Option<ApiUser>>(a, t1, ApiView::User(id));
            call_is_steady::<Option<ApiUser>>(a, t1, t1, ApiView::User(id));
            let f = &y.out->Ok_0->Some_0;
            assert(ends_with(
                t,
                r,
                QueryView::Db(a.db(), DbView::InsertUser(f)),
                QueryView::Convert(Convert::User(f)),
            ));
        }
    }
}

/// A device that is returned was found locally, or was fetched and stored just before.
pub proof fn returned_client_is_stored<'a>(
    a: &'a Actor<Online>,
    t: TapeView<'a>,
    user: UserId,
    id: Seq<char>,
)
    ensures
        resolve_client_run(a, t, user, id).out matches Ok(Some(c)) ==> {
            ||| next_is(t, Reply::MaybeClient(Some(*c)))
            ||| exists|f: &'a ApiClient| #[trigger]
                ends_with(
                    t,
                    resolve_client_run(a, t, user, id),
                    QueryView::Db(a.db(), DbView::InsertClient(user, f)),
                    QueryView::Convert(Convert::Client(user, f)),
                )
        },
{
    let r = resolve_client_run(a, t, user, id);
    if let Ok(Some(c)) = r.out {
        let x = ask::<Option<Client>>(t, QueryView::Db(a.db(), DbView::Client(user, id)));
        if !(x.out matches Ok(Some(_))) {
            let q = ApiView::Client(user, id);
            let y = call_run::<Option<ApiClient>>(a, x.tape, q);
            call_is_steady::<Option<ApiClient>>(a, x.tape, x.tape, q);
            let f = &y.out->Ok_0->Some_0;
            assert(ends_with(
                t,
                r,
                QueryView::Db(a.db(), DbView::InsertClient(user, f)),
                QueryView::Convert(Convert::Client(user, f)),
            ));
        }
    }
}

/// A connection that is returned was found locally, or was fetched and stored just before.
pub proof fn returned_connection_is_stored<'a>(a: &'a Actor<Online>, t: TapeView<'a>, to: UserId)
    ensures
        resolve_connection_run(a, t, to).out matches Ok(Some(c)) ==> {
            ||| next_is(t, Reply::MaybeConnection(Some(c)))
            ||| exists|f: &'a UserConnection| #[trigger]
                ends_with(
                    t,
                    resolve_connection_run(a, t, to),
                    QueryView::Db(a.db(), DbView::InsertConnection(f)),
                    QueryView::Convert(Convert::Connection(f)),
                )
        },
{
    let r = resolve_connection_run(a, t, to);
    if let Ok(Some(c)) = r.out {
        let x = ask::<Option<Connection>>(t, QueryView::Db(a.db(), DbView::Connection(to)));
        if !(x.out matches Ok(Some(_))) {
            let q = ApiView::Connection(to);
            let y = call_run::<Option<UserConnection>>(a, x.tape, q);
            call_is_steady::<Option<UserConnection>>(a, x.tape, x.tape, q);
            let f = &y.out->Ok_0->Some_0;
            assert(ends_with(
                t,
                r,
                QueryView::Db(a.db(), DbView::InsertConnection(f)),
                QueryView::Convert(Convert::Connection(f)),
            ));
        }
    }
}

/// A conversation that is returned was found locally, or was fetched and stored just before, with
/// its current members. Then we are a member of it ourselves.
pub proof fn returned_conversation_is_stored<'a>(a: &'a Actor<Online>, t: TapeView<'a>, id: ConvId)
    ensures
        resolve_conversation_run(a, t, id).out matches Ok(Some(c)) ==> {
            ||| next_is(t, Reply::MaybeConversation(Some(*c)))
            ||| exists|f: &'a ApiConversation, time: Time|
                f.current && #[trigger] ends_with(
                    t,
                    resolve_conversation_run(a, t, id),
                    QueryView::Db(a.db(), DbView::InsertConversation(time, Roster::Current(f))),
                    QueryView::Convert(Convert::Conversation(time, Roster::Current(f))),
                )
        },
{
    let r = resolve_conversation_run(a, t, id);
    if let Ok(Some(c)) = r.out {
        let x = ask::<Option<Conversation>>(t, QueryView::Db(a.db(), DbView::Conversation(id)));
        if !(x.out matches Ok(Some(_))) {
            let q = ApiView::Conversation(id);
            let y = call_run::<Option<ApiConversation>>(a, x.tape, q);
            call_is_steady::<Option<ApiConversation>>(a, x.tape, x.tape, q);
            let f = &y.out->Ok_0->Some_0;
            resolve_user_is_steady(a, y.tape, y.tape, f.creator, true);
            let z = resolve_user_run(a, y.tape, f.creator, true);
            resolve_members_is_steady(a, z.tape, z.tape, f.others@, true);
            let w = resolve_members_run(a, z.tape, f.others@, true);
            let v = ask::<Time>(w.tape, QueryView::Now);
            let time = v.out->Ok_0;
            assert(ends_with(
                t,
                r,
                QueryView::Db(a.db(), DbView::InsertConversation(time, Roster::Current(f))),
                QueryView::Convert(Convert::Conversation(time, Roster::Current(f))),
            ));
        }
    }
}

// ---- Listings -------------------------------------------------------------------------------

/// No further page is fetched once a thousand conversations were resolved; nor after a page that says
/// it is the last one, or that is empty.
pub proof fn enough_is_enough<'a>(
    a: &'a Actor<Online>,
    t: TapeView<'a>,
    page: Page<ConvId>,
    resolved: int,
)
    requires
        0 <= resolved <= 1000,
        resolved + page.value@.len() >= 1000 || !page.has_more || page.value@.len() == 0,
    ensures
        resolve_pages_run(a, t, page, resolved) == resolve_listed_run(
            a,
            t,
            share(page.value@, resolved),
        ),
{
    if let Ok(unit) = resolve_listed_run(a, t, share(page.value@, resolved)).out {
        assert(unit == ());
    }
}

/// The conversations that were looked up, in order.
pub open spec fn looked_up<'a>(asked: Seq<QueryView<'a>>) -> Seq<ConvId>
    decreases asked.len(),
{
    if asked.len() == 0 {
        Seq::empty()
    } else {
        let before = looked_up(asked.drop_last());
        match asked.last() {
            QueryView::Db(_, DbView::Conversation(id)) => before.push(id),
            _ => before,
        }
    }
}

/// The conversations on a page and on those that are fetched after it, in order. `resolved` is the
/// number of conversations resolved before the page.
pub open spec fn listed<'a>(
    a: &'a Actor<Online>,
    t: TapeView<'a>,
    page: Page<ConvId>,
    resolved: int,
) -> Seq<ConvId>
    decreases t.log.len() - t.at,
{
    let ids = share(page.value@, resolved);
    let x = resolve_listed_run(a, t, ids);
    if x.out is Err || is_last_page(page, resolved + ids.len()) {
        page.value@
    } else {
        let y = conversation_ids_run(a, x.tape, PAGE, Some(page.value@.last()));
        match y.out {
            Ok(next) => {
                proof {
                    resolve_listed_is_steady(a, t, t, ids);
                    let q = ApiView::Conversations(PAGE, Some(page.value@.last()));
                    call_is_steady::<Page<ConvId>>(a, x.tape, x.tape, q);
                    call_reads_on::<Page<ConvId>>(a, x.tape, q);
                }
                page.value@ + listed(a, y.tape, next, resolved + ids.len())
            },
            Err(_) => page.value@,
        }
    }
}

/// Questions that look nothing up add nothing.
proof fn nothing_looked_up<'a>(asked: Seq<QueryView<'a>>, all: Seq<QueryView<'a>>)
    requires
        begins_with(all, asked),
        forall|i: int|
            asked.len() <= i < all.len() ==> topic(#[trigger] all[i]) != Topic::Lookup,
    ensures
        looked_up(all) == looked_up(asked),
    decreases all.len(),
{
    if all.len() == asked.len() {
        assert(all =~= asked);
    } else {
        assert(topic(all[all.len() - 1]) != Topic::Lookup);
        nothing_looked_up(asked, all.drop_last());
    }
}

/// A conversation is looked up once when it is resolved.
proof fn resolving_looks_up<'a>(a: &'a Actor<Online>, t: TapeView<'a>, id: ConvId)
    ensures
        looked_up(resolve_conversation_run(a, t, id).tape.asked) == looked_up(t.asked).push(id),
{
    let x = ask::<Option<Conversation>>(t, QueryView::Db(a.db(), DbView::Conversation(id)));
    assert(x.tape.asked.drop_last() =~= t.asked);
    if let Ok(None) = x.out {
        let s = Set::new(|p: Topic| p != Topic::Lookup);
        fetch_conversation_touches(a, x.tape, id, s);
        fetch_conversation_is_steady(a, x.tape, x.tape, id);
        nothing_looked_up(x.tape.asked, fetch_conversation_run(a, x.tape, id).tape.asked);
    }
}

proof fn resolving_a_list_looks_up<'a>(a: &'a Actor<Online>, t: TapeView<'a>, ids: Seq<ConvId>)
    ensures
        resolve_listed_run(a, t, ids).out is Ok ==> looked_up(
            resolve_listed_run(a, t, ids).tape.asked,
        ) == looked_up(t.asked) + ids,
    decreases ids.len(),
{
    if ids.len() > 0 {
        let x = resolve_conversation_run(a, t, ids[0]);
        resolving_looks_up(a, t, ids[0]);
        resolving_a_list_looks_up(a, x.tape, ids.drop_first());
        assert(looked_up(t.asked).push(ids[0]) + ids.drop_first() =~= looked_up(t.asked) + ids);
    } else {
        assert(looked_up(t.asked) + ids =~= looked_up(t.asked));
    }
}

proof fn pages_look_up<'a>(
    a: &'a Actor<Online>,
    t: TapeView<'a>,
    page: Page<ConvId>,
    resolved: int,
)
    requires
        0 <= resolved <= LIMIT,
    ensures
        ({
            let r = resolve_pages_run(a, t, page, resolved);
            r.out is Ok ==> looked_up(r.tape.asked) == looked_up(t.asked) + share(
                listed(a, t, page, resolved),
                resolved,
            )
        }),
    decreases t.log.len() - t.at,
{
    let ids = share(page.value@, resolved);
    let total = resolved + ids.len();
    let x = resolve_listed_run(a, t, ids);
    resolve_listed_is_steady(a, t, t, ids);
    resolving_a_list_looks_up(a, t, ids);
    if x.out is Ok && !is_last_page(page, total) {
        let q = ApiView::Conversations(PAGE, Some(page.value@.last()));
        let y = call_run::<Page<ConvId>>(a, x.tape, q);
        call_is_steady::<Page<ConvId>>(a, x.tape, x.tape, q);
        call_reads_on::<Page<ConvId>>(a, x.tape, q);
        call_touches::<Page<ConvId>>(a, x.tape, q, set![Topic::Access, Topic::Talks]);
        nothing_looked_up(x.tape.asked, y.tape.asked);
        if let Ok(next) = y.out {
            pages_look_up(a, y.tape, next, total);
            let rest = listed(a, y.tape, next, total);
            assert(looked_up(t.asked) + ids + share(rest, total) =~= looked_up(t.asked) + share(
                page.value@ + rest,
                resolved,
            ));
        }
    }
}

/// Resolving all conversations looks up exactly the first thousand of those that are listed, or all
/// of them if there are no more, each once and in order.
pub proof fn first_thousand_are_resolved<'a>(a: &'a Actor<Online>, t: TapeView<'a>)
    ensures
        ({
            let x = conversation_ids_run(a, t, PAGE, None);
            let all = listed(a, x.tape, x.out->Ok_0, 0);
            let r = resolve_conversations_run(a, t);
            r.out is Ok ==> looked_up(r.tape.asked) == looked_up(t.asked) + (if all.len() <= 1000 {
                all
            } else {
                all.take(1000)
            })
        }),
{
    let q = ApiView::Conversations(PAGE, None);
    let x = call_run::<Page<ConvId>>(a, t, q);
    call_is_steady::<Page<ConvId>>(a, t, t, q);
    call_touches::<Page<ConvId>>(a, t, q, set![Topic::Access, Topic::Talks]);
    nothing_looked_up(t.asked, x.tape.asked);
    if let Ok(page) = x.out {
        pages_look_up(a, x.tape, page, 0);
    }
}

} // verus!
