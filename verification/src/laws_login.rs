//! What holds of logging in and of the profile that it leaves behind.
use crate::access::{weigh, weigh_is_steady};
use crate::actor::{offline_actor, online_actor, Actor, Connected, Device, UserData};
use crate::login::{
    enrolment_is_steady, enrolment_run, entry_attempt_is_steady, entry_attempt_run,
    entry_call_is_steady, entry_call_run, entry_from_is_steady, entry_from_run, equip_is_steady,
    establish_is_steady, establish_run, hold_login_is_steady, hold_login_run, keep_client_run,
    keep_login_is_steady, keep_login_run, known_device_is_steady, known_device_run,
    loaded_profile_was_stored, login_run, new_device_is_steady, new_device_run, open_all_is_steady,
    open_all_run, own_device_is_steady, own_device_run, prekeys_is_steady, prekeys_run, profile_run,
    read_profile_is_steady, read_profile_run, register_client_is_steady, register_client_run,
    self_client_attempt_is_steady, self_client_attempt_run, self_client_from_is_steady,
    self_client_from_run, self_client_is_steady, self_client_run, settle_is_steady,
    stored_access_is_steady, stored_access_run, stored_client_run, stored_user_run, LAST_PREKEY,
    PREKEYS,
};
use crate::model::{
    ApiClient, ApiUser, Client, Config, Credentials, Error, Handle, Leaf, Place, User, UserId, Var,
};
use crate::query::{ApiView, Convert, CryptView, DbView, Link, QueryView};
use crate::storage::{
    cookie_run, mk_assets_dir_is_steady, mk_assets_dir_run, my_client_id_run,
    open_cryptobox_is_steady, open_cryptobox_run, open_database_is_steady, open_database_run,
    place_of, set_var_run,
};
use crate::tape::{ask, begins_with, in_step, Payload, Reply, Run, StopView, TapeView};
use crate::text::{blob_text, cookie_text, stored_text_reads_back};
use vstd::prelude::*;
use vstd::utf8::encode_utf8;

verus! {

// ---- What a database keeps ------------------------------------------------------------------

/// What a user's database holds of the things that a profile is made of: the variables, and which
/// users and devices there are.
pub struct Shelf {
    pub vars: Map<Var, Seq<u8>>,
    pub users: Set<UserId>,
    pub clients: Set<(UserId, Seq<char>)>,
}

/// What the database holds once a question has this answer.
pub open spec fn kept<'a>(s: Shelf, q: QueryView<'a>, r: Reply) -> Shelf {
    match (q, r) {
        (QueryView::Db(_, DbView::SetVar(v, text)), Reply::Done) => Shelf {
            vars: s.vars.insert(v, encode_utf8(text)),
            ..s
        },
        (QueryView::Db(_, DbView::InsertUser(u)), Reply::Done) => Shelf {
            users: s.users.insert(u.id),
            ..s
        },
        (QueryView::Db(_, DbView::InsertClient(user, c)), Reply::Done) => Shelf {
            clients: s.clients.insert((user, c.id@)),
            ..s
        },
        _ => s,
    }
}

/// Does an answer fit the question? The database tells what it holds, the back-end finds the device
/// that was asked for, and users and devices keep their ids in another form.
pub open spec fn fits<'a>(s: Shelf, q: QueryView<'a>, r: Reply) -> bool {
    match (q, r) {
        (QueryView::Db(_, DbView::Var(v)), Reply::MaybeBytes(Some(b))) => {
            s.vars.contains_key(v) && s.vars[v] == b@
        },
        (QueryView::Db(_, DbView::Var(v)), Reply::MaybeBytes(None)) => !s.vars.contains_key(v),
        (QueryView::Db(_, DbView::User(id)), Reply::MaybeUser(Some(u))) => {
            s.users.contains(id) && u.id == id
        },
        (QueryView::Db(_, DbView::User(id)), Reply::MaybeUser(None)) => !s.users.contains(id),
        (QueryView::Db(_, DbView::Client(user, id)), Reply::MaybeClient(Some(c))) => {
            s.clients.contains((user, id)) && c.id@ == id
        },
        (QueryView::Db(_, DbView::Client(user, id)), Reply::MaybeClient(None)) => {
            !s.clients.contains((user, id))
        },
        (QueryView::Api(_, ApiView::SelfClient(id, _)), Reply::MaybeApiClient(Some(c))) => {
            c.id@ == id
        },
        (QueryView::Convert(Convert::Client(_, c)), Reply::Client(k)) => k.id@ == c.id@,
        (QueryView::Convert(Convert::User(u)), Reply::User(k)) => k.id == u.id,
        _ => true,
    }
}

/// What the database holds after the first `k` of the questions that were asked from `t` on.
pub open spec fn shelf_after<'a>(
    s: Shelf,
    t: TapeView<'a>,
    asked: Seq<QueryView<'a>>,
    k: int,
) -> Shelf
    decreases k,
{
    if k <= 0 {
        s
    } else {
        kept(
            shelf_after(s, t, asked, k - 1),
            asked[t.asked.len() + k - 1],
            t.log[t.at + k - 1],
        )
    }
}

/// What the database holds in the end, if it held `s` at first.
pub open spec fn shelf_at<'a>(s: Shelf, t: TapeView<'a>, u: TapeView<'a>) -> Shelf {
    shelf_after(s, t, u.asked, u.at - t.at)
}

/// Do all the answers that were read between `t` and `u` fit, if the database held `s` at first?
pub open spec fn all_fit<'a>(s: Shelf, t: TapeView<'a>, u: TapeView<'a>) -> bool {
    forall|k: int|
        0 <= k < u.at - t.at ==> fits(
            #[trigger] shelf_after(s, t, u.asked, k),
            u.asked[t.asked.len() + k],
            t.log[t.at + k],
        )
}

/// Do all the answers that were read between `t` and `u` fit, if the database held `s` all the time?
pub open spec fn all_fit_still<'a>(s: Shelf, t: TapeView<'a>, u: TapeView<'a>) -> bool {
    forall|i: int|
        t.asked.len() <= i < t.asked.len() + (u.at - t.at) ==> fits(
            s,
            #[trigger] u.asked[i],
            t.log[t.at + (i - t.asked.len())],
        )
}

/// Does `u` come after `t`, with one answer read for each question?
pub open spec fn follows<'a>(t: TapeView<'a>, u: TapeView<'a>) -> bool {
    &&& u.log == t.log
    &&& t.at <= u.at
    &&& begins_with(u.asked, t.asked)
    &&& u.asked.len() - t.asked.len() == u.at - t.at
}

proof fn shelf_before<'a>(s: Shelf, t: TapeView<'a>, x: TapeView<'a>, u: TapeView<'a>, k: int)
    requires
        follows(t, x),
        follows(x, u),
        k <= x.at - t.at,
    ensures
        shelf_after(s, t, x.asked, k) == shelf_after(s, t, u.asked, k),
    decreases k,
{
    if k > 0 {
        shelf_before(s, t, x, u, k - 1);
        assert(x.asked[t.asked.len() + k - 1] == u.asked[t.asked.len() + k - 1]);
    }
}

proof fn shelf_beyond<'a>(s: Shelf, t: TapeView<'a>, x: TapeView<'a>, u: TapeView<'a>, k: int)
    requires
        follows(t, x),
        follows(x, u),
        0 <= k <= u.at - x.at,
    ensures
        shelf_after(s, t, u.asked, x.at - t.at + k) == shelf_after(
            shelf_at(s, t, x),
            x,
            u.asked,
            k,
        ),
    decreases k,
{
    if k == 0 {
        shelf_before(s, t, x, u, x.at - t.at);
    } else {
        shelf_beyond(s, t, x, u, k - 1);
    }
}

/// What the database holds after two parts of a run, and whether all answers fit, is settled part by
/// part.
proof fn parts_fit<'a>(s: Shelf, t: TapeView<'a>, x: TapeView<'a>, u: TapeView<'a>)
    requires
        follows(t, x),
        follows(x, u),
        all_fit(s, t, u),
    ensures
        follows(t, u),
        all_fit(s, t, x),
        all_fit(shelf_at(s, t, x), x, u),
        shelf_at(s, t, u) == shelf_at(shelf_at(s, t, x), x, u),
{
    assert forall|i: int| 0 <= i < t.asked.len() implies #[trigger] u.asked[i] == t.asked[i] by {
        assert(x.asked[i] == t.asked[i]);
    }
    shelf_beyond(s, t, x, u, u.at - x.at);
    assert forall|k: int| 0 <= k < x.at - t.at implies fits(
        #[trigger] shelf_after(s, t, x.asked, k),
        x.asked[t.asked.len() + k],
        t.log[t.at + k],
    ) by {
        shelf_before(s, t, x, u, k);
        assert(x.asked[t.asked.len() + k] == u.asked[t.asked.len() + k]);
    }
    let after = shelf_at(s, t, x);
    assert forall|k: int| 0 <= k < u.at - x.at implies fits(
        #[trigger] shelf_after(after, x, u.asked, k),
        u.asked[x.asked.len() + k],
        x.log[x.at + k],
    ) by {
        shelf_beyond(s, t, x, u, k);
    }
}

/// One question that is answered.
proof fn one_fits<'a>(s: Shelf, t: TapeView<'a>, u: TapeView<'a>)
    requires
        follows(t, u),
        u.at == t.at + 1,
        all_fit(s, t, u),
    ensures
        fits(s, u.asked.last(), t.log[t.at as int]),
        shelf_at(s, t, u) == kept(s, u.asked.last(), t.log[t.at as int]),
{
    reveal_with_fuel(shelf_after, 2);
    assert(shelf_after(s, t, u.asked, 0) == s);
}

/// Questions that are not put to the database leave it as it is.
proof fn idle_keeps<'a>(s: Shelf, t: TapeView<'a>, u: TapeView<'a>, k: int)
    requires
        follows(t, u),
        0 <= k <= u.at - t.at,
        forall|i: int| t.asked.len() <= i < u.asked.len() ==> !(#[trigger] u.asked[i] is Db),
    ensures
        shelf_after(s, t, u.asked, k) == s,
    decreases k,
{
    if k > 0 {
        idle_keeps(s, t, u, k - 1);
        assert(!(u.asked[t.asked.len() + k - 1] is Db));
    }
}

// ---- Logging in -----------------------------------------------------------------------------

/// Is the question part of a call?
pub open spec fn is_part_of<'a>(link: Link, call: ApiView<'a>, q: QueryView<'a>) -> bool {
    ||| q == QueryView::Api(link, call)
    ||| q == QueryView::Api(link, ApiView::Reconnect)
    ||| q is Recover
}

/// Are all the questions that were asked between `t` and `u` part of a call?
pub open spec fn only_calls<'a>(
    t: TapeView<'a>,
    u: TapeView<'a>,
    link: Link,
    call: ApiView<'a>,
) -> bool {
    forall|i: int|
        t.asked.len() <= i < u.asked.len() ==> is_part_of(link, call, #[trigger] u.asked[i])
}

proof fn entry_from_calls<'a, T: Payload>(
    a: &'a Actor<Connected>,
    t: TapeView<'a>,
    n: nat,
    q: ApiView<'a>,
)
    ensures
        only_calls(t, entry_from_run::<T>(a, t, n, q).tape, a.link(), q),
    decreases t.log.len() - t.at,
{
    entry_attempt_is_steady::<T>(a, t, t, n > 0, q);
    let y = entry_attempt_run::<T>(a, t, n > 0, q);
    weigh_is_steady(t, t, y, y, n);
    let x = weigh(y, n);
    assert(only_calls(t, x.tape, a.link(), q));
    if let Ok(Err(_)) = x.out {
        entry_from_calls::<T>(a, x.tape, n + 1, q);
        entry_from_is_steady::<T>(a, x.tape, x.tape, n + 1, q);
        let r = entry_from_run::<T>(a, x.tape, n + 1, q);
        assert forall|i: int| t.asked.len() <= i < r.tape.asked.len() implies is_part_of(
            a.link(),
            q,
            #[trigger] r.tape.asked[i],
        ) by {
            if i < x.tape.asked.len() {
                assert(r.tape.asked[i] == x.tape.asked[i]);
            }
        }
    }
}

/// A call asks nothing but what belongs to it, and does ask it.
proof fn entry_call_calls<'a, T: Payload>(a: &'a Actor<Connected>, t: TapeView<'a>, q: ApiView<'a>)
    ensures
        in_step(t, entry_call_run::<T>(a, t, q)),
        only_calls(t, entry_call_run::<T>(a, t, q).tape, a.link(), q),
        ({
            let asked = entry_call_run::<T>(a, t, q).tape.asked;
            asked.len() > t.asked.len() && asked[t.asked.len() as int] == QueryView::Api(
                a.link(),
                q,
            )
        }),
{
    entry_from_calls::<T>(a, t, 0, q);
    entry_call_is_steady::<T>(a, t, t, q);
    entry_attempt_is_steady::<T>(a, t, t, false, q);
    let y = entry_attempt_run::<T>(a, t, false, q);
    weigh_is_steady(t, t, y, y, 0);
    let x = weigh(y, 0);
    assert(x.tape.asked[t.asked.len() as int] == QueryView::Api(a.link(), q));
    if let Ok(Err(_)) = x.out {
        entry_from_is_steady::<T>(a, x.tape, x.tape, 1, q);
    }
}

proof fn self_client_from_calls<'a>(
    a: &'a Actor<Connected>,
    t: TapeView<'a>,
    n: nat,
    q: ApiView<'a>,
)
    ensures
        ({
            let r = self_client_from_run(a, t, n, q);
            &&& only_calls(t, r.tape, a.link(), q)
            &&& r.out matches Ok(c) ==> {
                &&& r.tape.at > t.at
                &&& r.tape.asked.last() == QueryView::Api(a.link(), q)
                &&& t.log[r.tape.at - 1] == Reply::MaybeApiClient(Some(c))
            }
        }),
    decreases t.log.len() - t.at,
{
    self_client_attempt_is_steady(a, t, t, n > 0, q);
    let y = self_client_attempt_run(a, t, n > 0, q);
    weigh_is_steady(t, t, y, y, n);
    let x = weigh(y, n);
    assert(only_calls(t, x.tape, a.link(), q));
    if let Ok(Err(_)) = x.out {
        self_client_from_calls(a, x.tape, n + 1, q);
        self_client_from_is_steady(a, x.tape, x.tape, n + 1, q);
        let r = self_client_from_run(a, x.tape, n + 1, q);
        assert forall|i: int| t.asked.len() <= i < r.tape.asked.len() implies is_part_of(
            a.link(),
            q,
            #[trigger] r.tape.asked[i],
        ) by {
            if i < x.tape.asked.len() {
                assert(r.tape.asked[i] == x.tape.asked[i]);
            }
        }
    }
}

/// Finding our own device at the back-end leaves the database as it is, and finds the one that was
/// asked for.
proof fn self_client_fits<'a>(
    s: Shelf,
    a: &'a Actor<Connected>,
    t: TapeView<'a>,
    id: Seq<char>,
    creds: &'a Credentials,
)
    requires
        all_fit(s, t, self_client_run(a, t, id, creds).tape),
    ensures
        self_client_run(a, t, id, creds).out matches Ok(c) ==> {
            let r = self_client_run(a, t, id, creds);
            &&& follows(t, r.tape)
            &&& shelf_at(s, t, r.tape) == s
            &&& c.id@ == id
        },
{
    let r = self_client_run(a, t, id, creds);
    self_client_from_calls(a, t, 0, ApiView::SelfClient(id, creds));
    self_client_is_steady(a, t, t, id, creds);
    if r.out is Ok {
        idle_keeps(s, t, r.tape, r.tape.at - t.at);
        let k = r.tape.at - t.at - 1;
        assert(fits(
            shelf_after(s, t, r.tape.asked, k),
            r.tape.asked[t.asked.len() + k],
            t.log[t.at + k],
        ));
    }
}

/// A call leaves the database as it is.
proof fn entry_call_fits<'a, T: Payload>(
    s: Shelf,
    a: &'a Actor<Connected>,
    t: TapeView<'a>,
    q: ApiView<'a>,
)
    ensures
        entry_call_run::<T>(a, t, q).out is Ok ==> {
            let r = entry_call_run::<T>(a, t, q);
            follows(t, r.tape) && shelf_at(s, t, r.tape) == s
        },
{
    let r = entry_call_run::<T>(a, t, q);
    entry_call_calls::<T>(a, t, q);
    if r.out is Ok {
        idle_keeps(s, t, r.tape, r.tape.at - t.at);
    }
}

proof fn prekeys_are_crypto<'a>(t: TapeView<'a>, cbox: Handle, i: int, made: Seq<Handle>)
    ensures
        ({
            let r = prekeys_run(t, cbox, i, made);
            forall|k: int|
                t.asked.len() <= k < r.tape.asked.len() ==> #[trigger] r.tape.asked[k] is Crypt
        }),
    decreases PREKEYS - i,
{
    if i < PREKEYS {
        let x = ask::<Handle>(t, QueryView::Crypt(cbox, CryptView::NewPrekey(i as u16)));
        if let Ok(key) = x.out {
            prekeys_are_crypto(x.tape, cbox, i + 1, made.push(key));
            prekeys_is_steady(x.tape, x.tape, cbox, i + 1, made.push(key));
            let r = prekeys_run(x.tape, cbox, i + 1, made.push(key));
            assert forall|k: int| t.asked.len() <= k < r.tape.asked.len() implies
                #[trigger] r.tape.asked[k] is Crypt by {
                if k < x.tape.asked.len() {
                    assert(r.tape.asked[k] == x.tape.asked[k]);
                }
            }
        }
    }
}

/// Does the question ask for keys?
pub open spec fn is_for_keys<'a>(q: QueryView<'a>) -> bool {
    q is Crypt || q is NewSignalingKeys
}

/// Putting together what a device is registered with asks for keys only.
proof fn enrolment_is_crypto<'a>(t: TapeView<'a>, cbox: Handle, login: Handle)
    ensures
        ({
            let r = enrolment_run(t, cbox, login);
            &&& in_step(t, r)
            &&& forall|k: int|
                t.asked.len() <= k < r.tape.asked.len() ==> is_for_keys(#[trigger] r.tape.asked[k])
        }),
{
    prekeys_are_crypto(t, cbox, 0, Seq::empty());
    prekeys_is_steady(t, t, cbox, 0, Seq::empty());
    enrolment_is_steady(t, t, cbox, login);
    let x = prekeys_run(t, cbox, 0, Seq::empty());
    let r = enrolment_run(t, cbox, login);
    if x.out is Ok {
        let last = QueryView::Crypt(cbox, CryptView::NewPrekey(LAST_PREKEY));
        let y = ask::<Handle>(x.tape, last);
        let z = ask::<Handle>(y.tape, QueryView::NewSignalingKeys);
        let w = ask::<String>(z.tape, QueryView::Crypt(cbox, CryptView::Fingerprint));
        assert forall|k: int| t.asked.len() <= k < r.tape.asked.len() implies is_for_keys(
            #[trigger] r.tape.asked[k],
        ) by {
            if k < x.tape.asked.len() {
                assert(y.tape.asked[k] == x.tape.asked[k]);
                assert(z.tape.asked[k] == x.tape.asked[k]);
                assert(w.tape.asked[k] == x.tape.asked[k]);
            }
        }
    }
}

/// Registering a device leaves the database as it is.
proof fn register_client_fits<'a>(
    s: Shelf,
    a: &'a Actor<Connected>,
    t: TapeView<'a>,
    cbox: Handle,
    creds: &'a Credentials,
    login: Handle,
)
    requires
        all_fit(s, t, register_client_run(a, t, cbox, creds, login).tape),
    ensures
        register_client_run(a, t, cbox, creds, login).out is Ok ==> {
            let r = register_client_run(a, t, cbox, creds, login);
            follows(t, r.tape) && shelf_at(s, t, r.tape) == s
        },
{
    let x = enrolment_run(t, cbox, login);
    let r = register_client_run(a, t, cbox, creds, login);
    enrolment_is_crypto(t, cbox, login);
    register_client_is_steady(a, t, t, cbox, creds, login);
    if r.out is Ok {
        idle_keeps(s, t, x.tape, x.tape.at - t.at);
        let q = ApiView::RegisterClient(x.out->Ok_0, creds);
        entry_call_fits::<ApiClient>(s, a, x.tape, q);
        parts_fit(s, t, x.tape, r.tape);
    }
}

/// Storing a device of ours adds it to the database, and nothing else.
proof fn keep_client_fits<'a>(
    s: Shelf,
    t: TapeView<'a>,
    db: Handle,
    user: UserId,
    c: &'a ApiClient,
)
    requires
        all_fit(s, t, keep_client_run(t, db, user, c).tape),
    ensures
        keep_client_run(t, db, user, c).out matches Ok(k) ==> {
            let r = keep_client_run(t, db, user, c);
            let after = shelf_at(s, t, r.tape);
            &&& follows(t, r.tape)
            &&& after.vars == s.vars
            &&& after.users == s.users
            &&& after.clients == s.clients.insert((user, c.id@))
            &&& k.id@ == c.id@
        },
{
    let x = ask::<()>(t, QueryView::Db(db, DbView::InsertClient(user, c)));
    let r = keep_client_run(t, db, user, c);
    if r.out is Ok {
        parts_fit(s, t, x.tape, r.tape);
        one_fits(s, t, x.tape);
        one_fits(shelf_at(s, t, x.tape), x.tape, r.tape);
    }
}

/// Is our device in the database, under the id that it remembers?
pub open spec fn device_is_kept(s: Shelf, user: UserId, id: Seq<char>) -> bool {
    &&& s.vars.contains_key(Var::MyClientId)
    &&& blob_text(s.vars[Var::MyClientId]) == Some(id)
    &&& s.clients.contains((user, id))
}

/// Are the users of two databases, their tokens and their cookies the same?
pub open spec fn same_but_for_device(s: Shelf, after: Shelf) -> bool {
    &&& after.users == s.users
    &&& forall|v: Var|
        v != Var::MyClientId ==> (#[trigger] after.vars.contains_key(v) <==> s.vars.contains_key(v))
            && after.vars[v] == s.vars[v]
}

proof fn known_device_fits<'a>(
    s: Shelf,
    a: &'a Actor<Connected>,
    t: TapeView<'a>,
    db: Handle,
    user: UserId,
    id: Seq<char>,
    creds: &'a Credentials,
)
    requires
        s.vars.contains_key(Var::MyClientId),
        blob_text(s.vars[Var::MyClientId]) == Some(id),
        all_fit(s, t, known_device_run(a, t, db, user, id, creds).tape),
    ensures
        known_device_run(a, t, db, user, id, creds).out matches Ok(c) ==> {
            let r = known_device_run(a, t, db, user, id, creds);
            let after = shelf_at(s, t, r.tape);
            &&& follows(t, r.tape)
            &&& same_but_for_device(s, after)
            &&& device_is_kept(after, user, c.id@)
        },
{
    let x = ask::<Option<Client>>(t, QueryView::Db(db, DbView::Client(user, id)));
    let r = known_device_run(a, t, db, user, id, creds);
    known_device_is_steady(a, t, t, db, user, id, creds);
    if r.out is Ok {
        if let Ok(Some(_)) = x.out {
            one_fits(s, t, r.tape);
        } else {
            let y = self_client_run(a, x.tape, id, creds);
            self_client_is_steady(a, x.tape, x.tape, id, creds);
            let c = y.out->Ok_0;
            assert(r == keep_client_run(y.tape, db, user, &c));
            assert(follows(x.tape, y.tape));
            assert(follows(y.tape, r.tape));
            parts_fit(s, t, x.tape, r.tape);
            one_fits(s, t, x.tape);
            parts_fit(s, x.tape, y.tape, r.tape);
            self_client_fits(s, a, x.tape, id, creds);
            keep_client_fits(s, y.tape, db, user, &c);
        }
    }
}

proof fn new_device_fits<'a>(
    s: Shelf,
    a: &'a Actor<Connected>,
    t: TapeView<'a>,
    db: Handle,
    cbox: Handle,
    user: UserId,
    creds: &'a Credentials,
    login: Handle,
)
    requires
        all_fit(s, t, new_device_run(a, t, db, cbox, user, creds, login).tape),
    ensures
        new_device_run(a, t, db, cbox, user, creds, login).out matches Ok(c) ==> {
            let r = new_device_run(a, t, db, cbox, user, creds, login);
            let after = shelf_at(s, t, r.tape);
            &&& follows(t, r.tape)
            &&& same_but_for_device(s, after)
            &&& device_is_kept(after, user, c.id@)
        },
{
    let x = register_client_run(a, t, cbox, creds, login);
    let r = new_device_run(a, t, db, cbox, user, creds, login);
    register_client_is_steady(a, t, t, cbox, creds, login);
    new_device_is_steady(a, t, t, db, cbox, user, creds, login);
    if r.out is Ok {
        let c = x.out->Ok_0;
        let y = set_var_run(x.tape, db, Var::MyClientId, c.id@);
        assert(r == keep_client_run(y.tape, db, user, &c));
        assert(follows(t, x.tape));
        assert(follows(x.tape, y.tape));
        assert(follows(y.tape, r.tape));
        parts_fit(s, t, x.tape, r.tape);
        register_client_fits(s, a, t, cbox, creds, login);
        parts_fit(s, x.tape, y.tape, r.tape);
        one_fits(s, x.tape, y.tape);
        let with_id = shelf_at(s, x.tape, y.tape);
        stored_text_reads_back(c.id@);
        keep_client_fits(with_id, y.tape, db, user, &c);
    }
}

/// Finding the device that we act as leaves it in the database.
proof fn own_device_fits<'a>(
    s: Shelf,
    a: &'a Actor<Connected>,
    t: TapeView<'a>,
    db: Handle,
    cbox: Handle,
    user: UserId,
    creds: &'a Credentials,
    login: Handle,
)
    requires
        all_fit(s, t, own_device_run(a, t, db, cbox, user, creds, login).tape),
    ensures
        own_device_run(a, t, db, cbox, user, creds, login).out matches Ok(d) ==> {
            let r = own_device_run(a, t, db, cbox, user, creds, login);
            let after = shelf_at(s, t, r.tape);
            &&& follows(t, r.tape)
            &&& same_but_for_device(s, after)
            &&& device_is_kept(after, user, d.client.id@)
        },
{
    let x = my_client_id_run(t, db);
    let r = own_device_run(a, t, db, cbox, user, creds, login);
    own_device_is_steady(a, t, t, db, cbox, user, creds, login);
    if r.out is Ok {
        assert(follows(t, x.tape));
        match x.out->Ok_0 {
            Some(id) => {
                let y = known_device_run(a, x.tape, db, user, id, creds);
                known_device_is_steady(a, x.tape, x.tape, db, user, id, creds);
                assert(r.tape == y.tape);
                parts_fit(s, t, x.tape, r.tape);
                one_fits(s, t, x.tape);
                known_device_fits(s, a, x.tape, db, user, id, creds);
            },
            None => {
                let y = new_device_run(a, x.tape, db, cbox, user, creds, login);
                new_device_is_steady(a, x.tape, x.tape, db, cbox, user, creds, login);
                assert(r.tape == y.tape);
                parts_fit(s, t, x.tape, r.tape);
                one_fits(s, t, x.tape);
                new_device_fits(s, a, x.tape, db, cbox, user, creds, login);
            },
        }
    }
}

proof fn open_database_is_disk<'a>(c: Config, t: TapeView<'a>, user: UserId)
    ensures
        ({
            let r = open_database_run(c, t, user);
            forall|k: int|
                t.asked.len() <= k < r.tape.asked.len() ==> #[trigger] r.tape.asked[k] is Disk
        }),
{
}

/// Opening what a user has on disk asks for files only.
proof fn open_all_is_disk<'a>(c: Config, t: TapeView<'a>, user: UserId)
    ensures
        ({
            let r = open_all_run(c, t, user);
            &&& in_step(t, r)
            &&& forall|k: int|
                t.asked.len() <= k < r.tape.asked.len() ==> #[trigger] r.tape.asked[k] is Disk
            &&& r.out matches Ok(opened) ==> opened.2 == place_of(c, user, Leaf::Assets)
        }),
{
    open_all_is_steady(c, t, t, user);
    open_database_is_disk(c, t, user);
    open_database_is_steady(c, t, t, user);
    let r = open_all_run(c, t, user);
    let x = open_database_run(c, t, user);
    if x.out is Ok {
        open_cryptobox_is_steady(c, x.tape, x.tape, user);
        let y = open_cryptobox_run(c, x.tape, user);
        let z = mk_assets_dir_run(c, y.tape, user);
        mk_assets_dir_is_steady(c, y.tape, y.tape, user);
        assert forall|k: int| t.asked.len() <= k < r.tape.asked.len() implies
            #[trigger] r.tape.asked[k] is Disk by {
            if k < x.tape.asked.len() {
                assert(y.tape.asked[k] == x.tape.asked[k]);
                assert(z.tape.asked[k] == y.tape.asked[k]);
            } else if k < y.tape.asked.len() {
                assert(y.tape.asked[k] is Disk);
                assert(z.tape.asked[k] == y.tape.asked[k]);
            }
        }
    }
}

/// Does the database hold a profile: the user, our device, the token and the cookie?
pub open spec fn profile_is_kept(
    s: Shelf,
    user: UserId,
    client: Seq<char>,
    token: Seq<char>,
    cookie: Seq<char>,
) -> bool {
    &&& s.users.contains(user)
    &&& device_is_kept(s, user, client)
    &&& s.vars.contains_key(Var::AccessToken)
    &&& s.vars[Var::AccessToken] == encode_utf8(token)
    &&& s.vars.contains_key(Var::UserCookie)
    &&& s.vars[Var::UserCookie] == encode_utf8(cookie)
}

proof fn keep_login_fits<'a>(
    s: Shelf,
    t: TapeView<'a>,
    db: Handle,
    creds: &'a Credentials,
    user: &'a ApiUser,
)
    requires
        all_fit(s, t, keep_login_run(t, db, creds, user).tape),
    ensures
        keep_login_run(t, db, creds, user).out is Ok ==> {
            let r = keep_login_run(t, db, creds, user);
            let after = shelf_at(s, t, r.tape);
            &&& follows(t, r.tape)
            &&& after.users.contains(user.id)
            &&& after.vars.contains_key(Var::AccessToken)
            &&& after.vars[Var::AccessToken] == encode_utf8(creds.token@)
            &&& after.vars.contains_key(Var::UserCookie)
            &&& after.vars[Var::UserCookie] == encode_utf8(creds.cookie@)
        },
{
    let x = set_var_run(t, db, Var::AccessToken, creds.token@);
    let y = set_var_run(x.tape, db, Var::UserCookie, creds.cookie@);
    let r = keep_login_run(t, db, creds, user);
    if r.out is Ok {
        parts_fit(s, t, x.tape, r.tape);
        one_fits(s, t, x.tape);
        let s1 = shelf_at(s, t, x.tape);
        parts_fit(s1, x.tape, y.tape, r.tape);
        one_fits(s1, x.tape, y.tape);
        one_fits(shelf_at(s1, x.tape, y.tape), y.tape, r.tape);
    }
}

proof fn hold_login_fits<'a>(
    s: Shelf,
    t: TapeView<'a>,
    creds: &'a Credentials,
    user: &'a ApiUser,
    dbase: Handle,
    device: Device,
    assets: Place,
)
    requires
        all_fit(s, t, hold_login_run(t, creds, user, dbase, device, assets).tape),
    ensures
        hold_login_run(t, creds, user, dbase, device, assets).out matches Ok(u) ==> {
            let r = hold_login_run(t, creds, user, dbase, device, assets);
            &&& follows(t, r.tape)
            &&& shelf_at(s, t, r.tape) == s
            &&& u.user.id == user.id
            &&& u.device == device
            &&& u.assets == assets
        },
{
    let x = ask::<User>(t, QueryView::Convert(Convert::User(user)));
    let r = hold_login_run(t, creds, user, dbase, device, assets);
    if r.out is Ok {
        parts_fit(s, t, x.tape, r.tape);
        one_fits(s, t, x.tape);
        one_fits(s, x.tape, r.tape);
    }
}

proof fn establish_fits<'a>(
    s: Shelf,
    a: &'a Actor<Connected>,
    t: TapeView<'a>,
    creds: &'a Credentials,
    user: &'a ApiUser,
    login: Handle,
    opened: (Handle, Handle, Place),
)
    requires
        all_fit(s, t, establish_run(a, t, creds, user, login, opened).tape),
    ensures
        establish_run(a, t, creds, user, login, opened).out matches Ok(u) ==> {
            let r = establish_run(a, t, creds, user, login, opened);
            &&& follows(t, r.tape)
            &&& profile_is_kept(
                shelf_at(s, t, r.tape),
                user.id,
                u.device.client.id@,
                creds.token@,
                creds.cookie@,
            )
            &&& u.user.id == user.id
            &&& u.assets == opened.2
        },
{
    let x = keep_login_run(t, opened.0, creds, user);
    let r = establish_run(a, t, creds, user, login, opened);
    keep_login_is_steady(t, t, opened.0, creds, user);
    if r.out is Ok {
        equip_is_steady(a, x.tape, x.tape, creds, user, login, opened);
        let y = own_device_run(a, x.tape, opened.0, opened.1, user.id, creds, login);
        own_device_is_steady(a, x.tape, x.tape, opened.0, opened.1, user.id, creds, login);
        let device = y.out->Ok_0;
        assert(r == hold_login_run(y.tape, creds, user, opened.0, device, opened.2));
        hold_login_is_steady(y.tape, y.tape, creds, user, opened.0, device, opened.2);
        assert(follows(t, x.tape));
        assert(follows(x.tape, y.tape));
        assert(follows(y.tape, r.tape));
        parts_fit(s, t, x.tape, r.tape);
        keep_login_fits(s, t, opened.0, creds, user);
        let s1 = shelf_at(s, t, x.tape);
        parts_fit(s1, x.tape, y.tape, r.tape);
        own_device_fits(s1, a, x.tape, opened.0, opened.1, user.id, creds, login);
        let s2 = shelf_at(s1, x.tape, y.tape);
        assert(s2.vars.contains_key(Var::AccessToken) && s2.vars.contains_key(Var::UserCookie));
        hold_login_fits(s2, y.tape, creds, user, opened.0, device, opened.2);
    }
}

/// The credentials that a login obtains from the back-end.
pub open spec fn login_credentials<'a>(
    a: &'a Actor<Connected>,
    t: TapeView<'a>,
    login: Handle,
) -> Credentials {
    entry_call_run::<Credentials>(a, t, ApiView::Login(login)).out->Ok_0
}

/// A login leaves a profile in the database, whatever it held before.
pub proof fn login_leaves_a_profile<'a>(
    s: Shelf,
    a: &'a Actor<Connected>,
    t: TapeView<'a>,
    login: Handle,
)
    requires
        all_fit(s, t, login_run(a, t, login).tape),
    ensures
        login_run(a, t, login).out matches Ok(u) ==> {
            let creds = login_credentials(a, t, login);
            &&& profile_is_kept(
                shelf_at(s, t, login_run(a, t, login).tape),
                u.user.id,
                u.device.client.id@,
                creds.token@,
                creds.cookie@,
            )
            &&& u.assets == place_of(a.config, u.user.id, Leaf::Assets)
        },
{
    let r = login_run(a, t, login);
    let q = ApiView::Login(login);
    let x = entry_call_run::<Credentials>(a, t, q);
    if r.out is Ok {
        let creds = x.out->Ok_0;
        let p = ApiView::SelfUser(&creds);
        let y = entry_call_run::<ApiUser>(a, x.tape, p);
        let user = y.out->Ok_0;
        let z = open_all_run(a.config, y.tape, user.id);
        let opened = z.out->Ok_0;
        assert(r == establish_run(a, z.tape, &creds, &user, login, opened));
        entry_call_fits::<Credentials>(s, a, t, q);
        entry_call_fits::<ApiUser>(s, a, x.tape, p);
        open_all_is_disk(a.config, y.tape, user.id);
        establish_is_steady(a, z.tape, z.tape, &creds, &user, login, opened);
        assert(follows(y.tape, z.tape));
        assert(follows(z.tape, r.tape));
        settle_is_steady(a, y.tape, y.tape, &creds, &user, login);
        assert(follows(y.tape, r.tape));
        login_rest_follows(a, t, login);
        parts_fit(s, t, x.tape, r.tape);
        parts_fit(s, x.tape, y.tape, r.tape);
        parts_fit(s, y.tape, z.tape, r.tape);
        idle_keeps(s, y.tape, z.tape, z.tape.at - y.tape.at);
        establish_fits(s, a, z.tape, &creds, &user, login, opened);
    }
}

proof fn login_rest_follows<'a>(a: &'a Actor<Connected>, t: TapeView<'a>, login: Handle)
    ensures
        login_run(a, t, login).out is Ok ==> {
            let x = entry_call_run::<Credentials>(a, t, ApiView::Login(login));
            follows(x.tape, login_run(a, t, login).tape)
        },
{
    let r = login_run(a, t, login);
    let x = entry_call_run::<Credentials>(a, t, ApiView::Login(login));
    if r.out is Ok {
        let creds = x.out->Ok_0;
        let p = ApiView::SelfUser(&creds);
        let y = entry_call_run::<ApiUser>(a, x.tape, p);
        entry_call_is_steady::<ApiUser>(a, x.tape, x.tape, p);
        let user = y.out->Ok_0;
        settle_is_steady(a, y.tape, y.tape, &creds, &user, login);
        assert(follows(x.tape, y.tape));
        assert(follows(y.tape, r.tape));
        assert forall|i: int| 0 <= i < x.tape.asked.len() implies #[trigger] r.tape.asked[i]
            == x.tape.asked[i] by {
            assert(y.tape.asked[i] == x.tape.asked[i]);
        }
    }
}

// ---- The profile that is loaded afterwards --------------------------------------------------

proof fn parts_fit_still<'a>(s: Shelf, t: TapeView<'a>, x: TapeView<'a>, u: TapeView<'a>)
    requires
        follows(t, x),
        follows(x, u),
        all_fit_still(s, t, u),
    ensures
        all_fit_still(s, t, x),
        all_fit_still(s, x, u),
{
    assert forall|i: int| t.asked.len() <= i < t.asked.len() + (x.at - t.at) implies fits(
        s,
        #[trigger] x.asked[i],
        t.log[t.at + (i - t.asked.len())],
    ) by {
        assert(u.asked[i] == x.asked[i]);
    }
    assert forall|i: int| x.asked.len() <= i < x.asked.len() + (u.at - x.at) implies fits(
        s,
        #[trigger] u.asked[i],
        x.log[x.at + (i - x.asked.len())],
    ) by {
        assert(fits(s, u.asked[i], t.log[t.at + (i - t.asked.len())]));
    }
}

/// Does a run end because a profile lacks something?
pub open spec fn has_gap<'a, T>(r: Run<'a, T>) -> bool {
    r.out matches Err(StopView::Fail(Error::Profile(_, _)))
}

proof fn stored_user_fits<'a>(s: Shelf, t: TapeView<'a>, db: Handle, id: UserId)
    requires
        s.users.contains(id),
        all_fit_still(s, t, stored_user_run(t, db, id).tape),
    ensures
        !has_gap(stored_user_run(t, db, id)),
        stored_user_run(t, db, id).out matches Ok(u) ==> u.id == id,
{
    let r = stored_user_run(t, db, id);
    assert(r.tape.asked[t.asked.len() as int] == QueryView::Db(db, DbView::User(id)));
}

proof fn stored_client_fits<'a>(
    s: Shelf,
    t: TapeView<'a>,
    db: Handle,
    id: UserId,
    client: Seq<char>,
)
    requires
        device_is_kept(s, id, client),
        all_fit_still(s, t, stored_client_run(t, db, id).tape),
    ensures
        !has_gap(stored_client_run(t, db, id)),
        stored_client_run(t, db, id).out matches Ok(c) ==> c.id@ == client,
{
    let r = stored_client_run(t, db, id);
    let x = my_client_id_run(t, db);
    let first = QueryView::Db(db, DbView::Var(Var::MyClientId));
    assert(r.tape.asked[t.asked.len() as int] == first);
    if let Ok(Some(found)) = x.out {
        assert(found == client);
        let second = QueryView::Db(db, DbView::Client(id, found));
        assert(r.tape.asked[t.asked.len() + 1int] == second);
    }
}

proof fn stored_access_fits<'a>(
    s: Shelf,
    t: TapeView<'a>,
    db: Handle,
    id: UserId,
    token: Seq<char>,
    cookie: Seq<char>,
)
    requires
        s.vars.contains_key(Var::AccessToken),
        s.vars[Var::AccessToken] == encode_utf8(token),
        s.vars.contains_key(Var::UserCookie),
        s.vars[Var::UserCookie] == encode_utf8(cookie),
        all_fit_still(s, t, stored_access_run(t, db, id).tape),
    ensures
        cookie_text(cookie) is Some ==> !has_gap(stored_access_run(t, db, id)),
        stored_access_run(t, db, id).out matches Ok(access) ==> {
            &&& cookie_text(cookie) == Some(access.0)
            &&& access.1 == token
        },
{
    stored_text_reads_back(token);
    stored_text_reads_back(cookie);
    let r = stored_access_run(t, db, id);
    let x = cookie_run(t, db);
    let first = QueryView::Db(db, DbView::Var(Var::UserCookie));
    assert(r.tape.asked[t.asked.len() as int] == first);
    if let Ok(Some(_)) = x.out {
        let second = QueryView::Db(db, DbView::Var(Var::AccessToken));
        assert(r.tape.asked[t.asked.len() + 1int] == second);
    }
}

/// What is said of a profile that is read: that nothing is lacking, and what it consists of.
pub open spec fn profile_is_read<'a>(
    r: Run<'a, UserData>,
    user: UserId,
    client: Seq<char>,
    token: Seq<char>,
    cookie: Seq<char>,
) -> bool {
    &&& cookie_text(cookie) is Some ==> !has_gap(r)
    &&& r.out matches Ok(v) ==> {
        &&& v.user.id == user
        &&& v.device.client.id@ == client
        &&& !v.device.fresh
        &&& cookie_text(cookie) is Some
        &&& r.tape.asked.last() == (QueryView::HoldStored {
            token,
            cookie: cookie_text(cookie)->Some_0,
            valid_for: 0,
        })
    }
}

proof fn read_profile_fits<'a>(
    s: Shelf,
    c: Config,
    t: TapeView<'a>,
    id: UserId,
    dbase: Handle,
    assets: Place,
    client: Seq<char>,
    token: Seq<char>,
    cookie: Seq<char>,
)
    requires
        profile_is_kept(s, id, client, token, cookie),
        all_fit_still(s, t, read_profile_run(c, t, id, dbase, assets).tape),
    ensures
        profile_is_read(read_profile_run(c, t, id, dbase, assets), id, client, token, cookie),
{
    let r = read_profile_run(c, t, id, dbase, assets);
    read_profile_is_steady(c, t, t, id, dbase, assets);
    if r.out is Ok || has_gap(r) {
        let x = stored_user_run(t, dbase, id);
        let y = stored_client_run(x.tape, dbase, id);
        let z = stored_access_run(y.tape, dbase, id);
        let w = open_cryptobox_run(c, z.tape, id);
        stored_access_is_steady(y.tape, y.tape, dbase, id);
        open_cryptobox_is_steady(c, z.tape, z.tape, id);
        if x.out is Err {
            stored_user_fits(s, t, dbase, id);
        } else if y.out is Err {
            parts_fit_still(s, t, x.tape, r.tape);
            stored_client_fits(s, x.tape, dbase, id, client);
        } else {
            assert(follows(t, x.tape));
            assert(follows(x.tape, y.tape));
            assert(follows(y.tape, r.tape));
            parts_fit_still(s, t, x.tape, r.tape);
            stored_user_fits(s, t, dbase, id);
            parts_fit_still(s, x.tape, y.tape, r.tape);
            stored_client_fits(s, x.tape, dbase, id, client);
            if z.out is Ok {
                assert(follows(y.tape, z.tape));
                assert(follows(z.tape, r.tape));
                parts_fit_still(s, y.tape, z.tape, r.tape);
            }
            stored_access_fits(s, y.tape, dbase, id, token, cookie);
        }
    }
}

/// A profile that the database holds is loaded: nothing is lacking, unless the cookie cannot be
/// parsed any more. The user and the device are those that are held, with the token and the cookie
/// that are held, and the token counts as expired.
pub proof fn kept_profile_is_read<'a>(
    s: Shelf,
    c: Config,
    t: TapeView<'a>,
    id: UserId,
    client: Seq<char>,
    token: Seq<char>,
    cookie: Seq<char>,
)
    requires
        profile_is_kept(s, id, client, token, cookie),
        all_fit_still(s, t, profile_run(c, t, id).tape),
    ensures
        profile_is_read(profile_run(c, t, id), id, client, token, cookie),
        profile_run(c, t, id).out matches Ok(v) ==> v.assets == place_of(c, id, Leaf::Assets),
{
    let r = profile_run(c, t, id);
    if r.out is Ok || has_gap(r) {
        let x = mk_assets_dir_run(c, t, id);
        mk_assets_dir_is_steady(c, t, t, id);
        let y = open_database_run(c, x.tape, id);
        open_database_is_steady(c, x.tape, x.tape, id);
        let (assets, dbase) = (x.out->Ok_0, y.out->Ok_0);
        read_profile_is_steady(c, y.tape, y.tape, id, dbase, assets);
        assert(r == read_profile_run(c, y.tape, id, dbase, assets));
        assert(follows(t, x.tape));
        assert(follows(x.tape, y.tape));
        assert(follows(y.tape, r.tape));
        assert(begins_with(r.tape.asked, x.tape.asked)) by {
            assert forall|i: int| 0 <= i < x.tape.asked.len() implies #[trigger] r.tape.asked[i]
                == x.tape.asked[i] by {
                assert(y.tape.asked[i] == x.tape.asked[i]);
            }
        }
        parts_fit_still(s, t, x.tape, r.tape);
        parts_fit_still(s, x.tape, y.tape, r.tape);
        read_profile_fits(s, c, y.tape, id, dbase, assets, client, token, cookie);
    }
}

/// A profile that is loaded after a login, from a database that nobody has changed since, gives back
/// what the login left: the same user, the same device, the same token, the cookie as it is parsed
/// again, and the same directory of assets. The device is no longer fresh, and the token counts as
/// expired. Nothing is lacking, and the cookie is the same, for a cookie that parsing brings into the
/// same form again: see [`crate::text::Cookie::parse`] for which do.
pub proof fn profile_after_login<'a>(
    s: Shelf,
    a: &'a Actor<Connected>,
    t: TapeView<'a>,
    login: Handle,
    u: TapeView<'a>,
)
    requires
        login_run(a, t, login).out is Ok,
        all_fit(s, t, login_run(a, t, login).tape),
        all_fit_still(
            shelf_at(s, t, login_run(a, t, login).tape),
            u,
            profile_run(a.config, u, login_run(a, t, login).out->Ok_0.user.id).tape,
        ),
    ensures
        ({
            let before = login_run(a, t, login).out->Ok_0;
            let creds = login_credentials(a, t, login);
            let r = profile_run(a.config, u, before.user.id);
            &&& cookie_text(creds.cookie@) is Some ==> !has_gap(r)
            &&& r.out matches Ok(v) ==> {
                &&& v.user.id == before.user.id
                &&& v.device.client.id@ == before.device.client.id@
                &&& !v.device.fresh
                &&& v.assets == before.assets
                &&& cookie_text(creds.cookie@) matches Some(cookie) && r.tape.asked.last() == (
                QueryView::HoldStored { token: creds.token@, cookie, valid_for: 0 })
            }
            &&& cookie_text(creds.cookie@) == Some(creds.cookie@) && r.out is Ok
                ==> r.tape.asked.last() == (QueryView::HoldStored {
                token: creds.token@,
                cookie: creds.cookie@,
                valid_for: 0,
            })
        }),
{
    let before = login_run(a, t, login).out->Ok_0;
    let creds = login_credentials(a, t, login);
    login_leaves_a_profile(s, a, t, login);
    kept_profile_is_read(
        shelf_at(s, t, login_run(a, t, login).tape),
        a.config,
        u,
        before.user.id,
        before.device.client.id@,
        creds.token@,
        creds.cookie@,
    );
}

// ---- New devices ----------------------------------------------------------------------------

/// Is the question the registration of a device?
pub open spec fn is_registration<'a>(q: QueryView<'a>) -> bool {
    q matches QueryView::Api(_, ApiView::RegisterClient(_, _))
}

/// Was a device registered between `t` and `u`?
pub open spec fn registered<'a>(t: TapeView<'a>, u: TapeView<'a>) -> bool {
    exists|i: int| t.asked.len() <= i < u.asked.len() && is_registration(#[trigger] u.asked[i])
}

proof fn parts_register<'a>(t: TapeView<'a>, x: TapeView<'a>, u: TapeView<'a>)
    requires
        follows(t, x),
        follows(x, u),
    ensures
        follows(t, u),
        registered(t, u) <==> registered(t, x) || registered(x, u),
{
    assert forall|i: int| 0 <= i < t.asked.len() implies #[trigger] u.asked[i] == t.asked[i] by {
        assert(x.asked[i] == t.asked[i]);
    }
    if registered(t, x) {
        let i = choose|i: int|
            t.asked.len() <= i < x.asked.len() && is_registration(#[trigger] x.asked[i]);
        assert(is_registration(u.asked[i]));
    }
    if registered(t, u) {
        let i = choose|i: int|
            t.asked.len() <= i < u.asked.len() && is_registration(#[trigger] u.asked[i]);
        if i < x.asked.len() {
            assert(is_registration(x.asked[i]));
        }
    }
}

/// A device is found or registered, and is fresh in the latter case.
proof fn own_device_registers<'a>(
    a: &'a Actor<Connected>,
    t: TapeView<'a>,
    db: Handle,
    cbox: Handle,
    user: UserId,
    creds: &'a Credentials,
    login: Handle,
)
    ensures
        own_device_run(a, t, db, cbox, user, creds, login).out matches Ok(d) ==> {
            let r = own_device_run(a, t, db, cbox, user, creds, login);
            follows(t, r.tape) && (d.fresh <==> registered(t, r.tape))
        },
{
    let x = my_client_id_run(t, db);
    let r = own_device_run(a, t, db, cbox, user, creds, login);
    own_device_is_steady(a, t, t, db, cbox, user, creds, login);
    if r.out is Ok {
        assert(follows(t, x.tape) && !registered(t, x.tape));
        match x.out->Ok_0 {
            Some(id) => {
                let y = ask::<Option<Client>>(x.tape, QueryView::Db(db, DbView::Client(user, id)));
                assert(follows(x.tape, y.tape) && !registered(x.tape, y.tape));
                parts_register(t, x.tape, y.tape);
                if let Ok(None) = y.out {
                    let z = self_client_run(a, y.tape, id, creds);
                    self_client_is_steady(a, y.tape, y.tape, id, creds);
                    self_client_from_calls(a, y.tape, 0, ApiView::SelfClient(id, creds));
                    assert(follows(y.tape, z.tape) && !registered(y.tape, z.tape));
                    parts_register(t, y.tape, z.tape);
                    assert(follows(z.tape, r.tape) && !registered(z.tape, r.tape));
                    parts_register(t, z.tape, r.tape);
                }
            },
            None => {
                let y = enrolment_run(x.tape, cbox, login);
                enrolment_is_crypto(x.tape, cbox, login);
                let q = ApiView::RegisterClient(y.out->Ok_0, creds);
                let z = entry_call_run::<ApiClient>(a, y.tape, q);
                entry_call_calls::<ApiClient>(a, y.tape, q);
                assert(is_registration(z.tape.asked[y.tape.asked.len() as int]));
                assert(registered(y.tape, z.tape));
                parts_register(x.tape, y.tape, z.tape);
                parts_register(t, x.tape, z.tape);
                assert(follows(z.tape, r.tape));
                parts_register(t, z.tape, r.tape);
            },
        }
    }
}

proof fn establish_registers<'a>(
    a: &'a Actor<Connected>,
    t: TapeView<'a>,
    creds: &'a Credentials,
    user: &'a ApiUser,
    login: Handle,
    opened: (Handle, Handle, Place),
)
    ensures
        establish_run(a, t, creds, user, login, opened).out matches Ok(u) ==> {
            let r = establish_run(a, t, creds, user, login, opened);
            follows(t, r.tape) && (u.device.fresh <==> registered(t, r.tape))
        },
{
    let x = keep_login_run(t, opened.0, creds, user);
    let r = establish_run(a, t, creds, user, login, opened);
    if r.out is Ok {
        let y = own_device_run(a, x.tape, opened.0, opened.1, user.id, creds, login);
        own_device_registers(a, x.tape, opened.0, opened.1, user.id, creds, login);
        assert(follows(t, x.tape) && !registered(t, x.tape));
        parts_register(t, x.tape, y.tape);
        assert(follows(y.tape, r.tape) && !registered(y.tape, r.tape));
        parts_register(t, y.tape, r.tape);
    }
}

/// A login yields a fresh device if and only if it has registered one.
pub proof fn login_is_fresh_if_it_registers<'a>(
    a: &'a Actor<Connected>,
    t: TapeView<'a>,
    login: Handle,
)
    ensures
        login_run(a, t, login).out matches Ok(u) ==> (u.device.fresh <==> registered(
            t,
            login_run(a, t, login).tape,
        )),
{
    let r = login_run(a, t, login);
    let q = ApiView::Login(login);
    let x = entry_call_run::<Credentials>(a, t, q);
    if r.out is Ok {
        let creds = x.out->Ok_0;
        let p = ApiView::SelfUser(&creds);
        let y = entry_call_run::<ApiUser>(a, x.tape, p);
        let user = y.out->Ok_0;
        let z = open_all_run(a.config, y.tape, user.id);
        let opened = z.out->Ok_0;
        assert(r == establish_run(a, z.tape, &creds, &user, login, opened));
        entry_call_calls::<Credentials>(a, t, q);
        assert(follows(t, x.tape) && !registered(t, x.tape));
        entry_call_calls::<ApiUser>(a, x.tape, p);
        assert(follows(x.tape, y.tape) && !registered(x.tape, y.tape));
        open_all_is_disk(a.config, y.tape, user.id);
        assert(follows(y.tape, z.tape) && !registered(y.tape, z.tape));
        establish_registers(a, z.tape, &creds, &user, login, opened);
        parts_register(t, x.tape, y.tape);
        parts_register(t, y.tape, z.tape);
        parts_register(t, z.tape, r.tape);
    }
}

/// The device of an actor is new if and only if the actor's user comes from a login that has
/// registered a device. It is not new if the user comes from a stored profile; and that stays as it
/// is when the actor goes offline and online again.
pub proof fn client_is_new_if_registered<'a>(
    a: &'a Actor<Connected>,
    t: TapeView<'a>,
    login: Handle,
    c: Config,
    u: TapeView<'a>,
    id: UserId,
    client: Handle,
    again: Handle,
    bcast: Handle,
)
    ensures
        login_run(a, t, login).out matches Ok(user) ==> {
            let on = online_actor(a.config, client, user, bcast);
            let off = offline_actor(on.config, on.state.user, on.state.bcast);
            let back = online_actor(off.config, again, off.state.user, off.state.bcast);
            &&& on.has_new_client() <==> registered(t, login_run(a, t, login).tape)
            &&& back.has_new_client() == on.has_new_client()
        },
        profile_run(c, u, id).out matches Ok(user) ==> {
            let off = offline_actor(c, user, bcast);
            let on = online_actor(off.config, client, off.state.user, off.state.bcast);
            !on.has_new_client()
        },
{
    login_is_fresh_if_it_registers(a, t, login);
    loaded_profile_was_stored(c, u, id);
}

} // verus!
