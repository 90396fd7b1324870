//! What is read for display, what is a member, what goes with a call, and how an inbox goes on.
use crate::access::call_run;
use crate::actor::{
    connected_actor, offline_actor, online_actor, Actor, Connected, Online, UserData,
};
use crate::browse::{load_contacts_run, load_conversations_run, load_messages_run, load_user_run};
use crate::directory::each;
use crate::inbox::{Act, Outcome, Phase};
use crate::model::{
    ApiConversation, Client, ClientId, Config, ConvId, Error, Handle, Member, Page, Rows, User,
    UserConnection, UserId, UserSessions, Var,
};
use crate::outbox::by_user;
use crate::query::{current_ids, ApiView, DbView, Pkg, QueryView, Roster};
use crate::storage::{
    access_token_run, cookie_run, header_text, id_text, my_client_id_run, set_var_run, string_text,
};
use crate::sync::{conversation_ids_run, user_connections_run};
use crate::tape::{ask, caught, told, Payload, Reply, Run, Stop, StopView, TapeView};
use crate::text::{
    address_endpoint, address_host, blob_cookie, blob_text, pair_fits, paired_endpoint, readable,
    url_domain, url_host, url_text, url_with_pair, Cookie, EndpointView,
};
use crate::trace::is_answer;
use vstd::prelude::*;

verus! {

// ---- What is read for display -----------------------------------------------------------------

/// What is read for display is what the database has of it: conversations and messages from where
/// they are wanted, as many as are wanted, all contacts, and any user.
pub proof fn rows_are_read_as_wanted<'a>(
    t: TapeView<'a>,
    db: Handle,
    conv: ConvId,
    user: UserId,
    from: Option<Handle>,
    num: usize,
    rows: Rows,
    found: Option<User>,
)
    ensures
        is_answer(
            t,
            load_conversations_run(t, db, from, num),
            QueryView::Db(db, DbView::Conversations(from, num)),
            Reply::Rows(rows),
            rows,
        ),
        is_answer(
            t,
            load_messages_run(t, db, conv, from, num),
            QueryView::Db(db, DbView::Messages(conv, from, num)),
            Reply::Rows(rows),
            rows,
        ),
        is_answer(
            t,
            load_contacts_run(t, db),
            QueryView::Db(db, DbView::Connections),
            Reply::Rows(rows),
            rows,
        ),
        is_answer(
            t,
            load_user_run(t, db, user),
            QueryView::Db(db, DbView::User(user)),
            Reply::MaybeUser(found),
            found,
        ),
{
}

/// A variable is stored under its own name, and one that is read is what is stored there, as text;
/// the cookie must be one as well.
pub proof fn variables_are_kept_apart<'a>(
    t: TapeView<'a>,
    db: Handle,
    v: Var,
    text: Seq<char>,
    blob: Option<Vec<u8>>,
)
    ensures
        is_answer(
            t,
            set_var_run(t, db, v, text),
            QueryView::Db(db, DbView::SetVar(v, text)),
            Reply::Done,
            (),
        ),
        is_answer(
            t,
            my_client_id_run(t, db),
            QueryView::Db(db, DbView::Var(Var::MyClientId)),
            Reply::MaybeBytes(blob),
            match blob {
                Some(b) => blob_text(b@),
                None => None,
            },
        ),
        is_answer(
            t,
            access_token_run(t, db),
            QueryView::Db(db, DbView::Var(Var::AccessToken)),
            Reply::MaybeBytes(blob),
            match blob {
                Some(b) => blob_text(b@),
                None => None,
            },
        ),
        is_answer(
            t,
            cookie_run(t, db),
            QueryView::Db(db, DbView::Var(Var::UserCookie)),
            Reply::MaybeBytes(blob),
            match blob {
                Some(b) => blob_cookie(b@),
                None => None,
            },
        ),
{
}

/// Lists of conversations and of connections are asked for as wanted.
pub proof fn lists_are_asked_for_as_wanted<'a>(
    a: &'a Actor<Online>,
    t: TapeView<'a>,
    n: usize,
    conv: Option<ConvId>,
    user: Option<UserId>,
)
    ensures
        conversation_ids_run(a, t, n, conv) == call_run::<Page<ConvId>>(
            a,
            t,
            ApiView::Conversations(n, conv),
        ),
        user_connections_run(a, t, n, user) == call_run::<Page<UserConnection>>(
            a,
            t,
            ApiView::Connections(n, user),
        ),
{
}

// ---- Members ----------------------------------------------------------------------------------

/// The current members of two lists are those of the first and then those of the second; a single
/// member is one unless they left.
pub proof fn current_members_in_parts(ms: Seq<Member>, more: Seq<Member>, m: Member)
    ensures
        current_ids(ms + more) == current_ids(ms) + current_ids(more),
        current_ids(Seq::empty()) == Seq::<UserId>::empty(),
        current_ids(seq![m]) == if m.current {
            seq![m.id]
        } else {
            Seq::empty()
        },
    decreases more.len(),
{
    reveal_with_fuel(current_ids, 2);
    assert(seq![m].drop_last() =~= Seq::empty());
    assert(seq![m].last() == m);
    assert(Seq::<UserId>::empty().push(m.id) =~= seq![m.id]);
    if more.len() == 0 {
        assert(ms + more =~= ms);
        assert(current_ids(ms) + current_ids(more) =~= current_ids(ms));
    } else {
        current_members_in_parts(ms, more.drop_last(), m);
        assert((ms + more).drop_last() =~= ms + more.drop_last());
        assert((ms + more).last() == more.last());
        assert(current_ids(ms + more) =~= current_ids(ms) + current_ids(more));
    }
}

/// Whom a conversation goes into the database with: all its members where it is a whole one, its
/// current members where those are wanted, and those whom it was created with where it is our own.
pub proof fn roster_has_its_members<'a>(
    c: &'a ApiConversation,
    id: ConvId,
    creator: UserId,
    name: &'a str,
    others: &'a Vec<UserId>,
    k: int,
)
    ensures
        Roster::Whole(c).member_ids().len() == c.others@.len(),
        0 <= k < c.others@.len() ==> Roster::Whole(c).member_ids()[k] == c.others@[k].id,
        Roster::Current(c).member_ids() == current_ids(c.others@),
        (Roster::Own { id, creator, name, others }).member_ids() == others@,
{
}

// ---- Forms of results -------------------------------------------------------------------------

/// The form in which a result is spoken of holds all of it: a text or none, each device of a list,
/// and each user of a list with all their sessions.
pub proof fn forms_hold_the_whole_result<'a>(
    id: ClientId,
    text: String,
    cookie: Cookie,
    cs: Seq<Client>,
    us: Seq<UserSessions<'a>>,
    k: int,
)
    ensures
        id_text(Some(id)) == Some(id@) && id_text(None) is None,
        string_text(Some(text)) == Some(text@) && string_text(None) is None,
        header_text(Some(cookie)) == Some(cookie@) && header_text(None) is None,
        each(cs).len() == cs.len(),
        0 <= k < cs.len() ==> each(cs)[k] == &cs[k],
        by_user(us).len() == us.len(),
        0 <= k < us.len() ==> by_user(us)[k].user == us[k].user && by_user(us)[k].sessions
            == us[k].sessions@,
{
}

/// What an operation returns is its result, and where it stops is where its run stops.
pub proof fn result_is_told<'a, T>(t: TapeView<'a>, v: T, s: Stop<'a>)
    ensures
        told(t, Ok(v)).tape == t,
        told(t, Ok(v)).out == Ok::<T, StopView<'a>>(v),
        told(t, Err::<T, Stop<'a>>(s)).tape == t,
        told(t, Err::<T, Stop<'a>>(s)).out == Err::<T, StopView<'a>>(s@),
{
}

/// A question is asked once, and its answer is taken from the tape if it is there. An answer that
/// carries the value is the value; a failure is passed on; and where there is none, the operation
/// stops with the question.
pub proof fn question_is_answered<'a, T: Payload>(
    t: TapeView<'a>,
    q: QueryView<'a>,
    reply: Reply,
    v: T,
)
    requires
        T::of(reply) == Some(v),
        !(reply is Failed),
    ensures
        is_answer(t, ask::<T>(t, q), q, reply, v),
{
}

/// A failure that is caught is a result, and so is any result; nothing else is caught.
pub proof fn only_failures_are_caught<'a, T>(x: Run<'a, T>)
    ensures
        caught(x).tape == x.tape,
        match x.out {
            Ok(v) => caught(x).out == Ok::<Result<T, Error<'a>>, StopView<'a>>(Ok(v)),
            Err(StopView::Fail(e)) => caught(x).out == Ok::<
                Result<T, Error<'a>>,
                StopView<'a>,
            >(Err(e)),
            Err(s) => caught(x).out == Err::<Result<T, Error<'a>>, StopView<'a>>(s),
        },
{
}

// ---- What goes with a call --------------------------------------------------------------------

/// Calls go over the actor's own connection; with its credentials once there is a user, and without
/// any before. Its database is the user's, and it is the user itself.
pub proof fn calls_carry_our_credentials(a: Actor<Online>, b: Actor<Connected>)
    ensures
        a.link().client == a.state.client,
        a.link().creds == Some(a.state.user.creds),
        a.db() == a.state.user.dbase,
        a.me_id() == a.state.user.user.id,
        a.has_new_client() == a.state.user.device.fresh,
        b.link().client == b.state.client,
        b.link().creds is None,
{
}

/// An actor holds what it was given, and nothing else of it changes.
pub proof fn actor_holds_what_it_was_given(
    config: Config,
    client: Handle,
    user: UserData,
    bcast: Handle,
)
    ensures
        connected_actor(config, client).config == config,
        connected_actor(config, client).state.client == client,
        offline_actor(config, user, bcast).config == config,
        offline_actor(config, user, bcast).state.user == user,
        offline_actor(config, user, bcast).state.bcast == bcast,
        online_actor(config, client, user, bcast).config == config,
        online_actor(config, client, user, bcast).state.client == client,
        online_actor(config, client, user, bcast).state.user == user,
        online_actor(config, client, user, bcast).state.bcast == bcast,
{
}

// ---- Inboxes ----------------------------------------------------------------------------------

/// What an inbox does next. It takes in what it hears; when it can hear no more, it says so, and
/// then reopens its websocket, after one second at first. If that is refused it renews access and
/// tries again at once. After any other failure, it rests for a second longer than before, up to
/// thirty, and then tries again. Once the websocket is open it says so, and listens.
pub proof fn inbox_goes_on(o: Outcome, wait: u64)
    ensures
        ({
            let rest = Phase::Resting {
                wait: if wait < 30 {
                    (wait + 1) as u64
                } else {
                    wait
                },
            };
            &&& Phase::Listening.after(o) == if o is Success {
                Phase::Handling
            } else {
                Phase::Lost
            }
            &&& Phase::Handling.after(o) == Phase::Listening
            &&& Phase::Lost.after(o) == (Phase::Reopening { wait: 1 })
            &&& (Phase::Reopening { wait }).after(Outcome::Success) == Phase::Found
            &&& (Phase::Reopening { wait }).after(Outcome::Unauthorised) == (Phase::Renewing {
                wait,
            })
            &&& (Phase::Reopening { wait }).after(Outcome::Failure) == rest
            &&& (Phase::Renewing { wait }).after(o) == if o is Success {
                Phase::Reopening { wait }
            } else {
                rest
            }
            &&& (Phase::Resting { wait }).after(o) == (Phase::Reopening { wait })
            &&& Phase::Found.after(o) == Phase::Listening
        }),
{
}

/// What the driver is to do follows from what the inbox is doing.
pub proof fn driver_does_what_the_inbox_wants(wait: u64)
    ensures
        Phase::Listening.task() is Listen,
        Phase::Handling.task() is Handle,
        Phase::Lost.task() == Act::Broadcast(Pkg::Disconnected),
        (Phase::Reopening { wait }).task() is Reopen,
        (Phase::Renewing { wait }).task() is Renew,
        (Phase::Resting { wait }).task() == Act::Sleep(wait),
        Phase::Found.task() == Act::Broadcast(Pkg::Connected),
{
}

// ---- Addresses --------------------------------------------------------------------------------

/// An address that can be read and is a URL with a domain is where we connect to, at that domain.
/// One without a domain, and one that is no URL, are told apart; what cannot be read is none.
pub proof fn addresses_are_told_apart(text: Seq<char>)
    ensures
        match address_endpoint(text) {
            EndpointView::At { url, domain } => readable(text) && url_text(text) == Some(url)
                && url_domain(text) == Some(domain),
            EndpointView::NoDomain => readable(text) && url_text(text) is Some && url_domain(
                text,
            ) is None,
            EndpointView::Invalid => !readable(text) || url_text(text) is None,
        },
        address_host(text) == if readable(text) {
            url_host(text)
        } else {
            None
        },
{
}

/// An address to which a pair is added keeps its domain, and is the URL with that pair. One to
/// which the pair cannot be added is none.
pub proof fn pair_is_added_to_the_address(text: Seq<char>, name: Seq<char>, value: Seq<char>)
    ensures
        match paired_endpoint(text, name, value) {
            EndpointView::At { url, domain } => readable(text) && url == url_with_pair(
                text,
                name,
                value,
            ) && url_domain(text) == Some(domain) && (url_text(text) matches Some(u) && pair_fits(
                u,
                name,
                value,
            )),
            EndpointView::NoDomain => readable(text) && url_domain(text) is None && (url_text(
                text,
            ) matches Some(u) && pair_fits(u, name, value)),
            EndpointView::Invalid => !readable(text) || !(url_text(text) matches Some(u)
                && pair_fits(u, name, value)),
        },
{
}

} // verus!
