//! Users, devices and conversations: found locally, or fetched and then kept.
use crate::access::{call_is_steady, call_run};
use crate::actor::{Actor, Online};
use crate::model::{
    ApiClient, ApiConversation, ApiUser, Client, ClientId, ConvId, ConvType, Conversation, Member,
    Time, User, UserId,
};
use crate::query::{Api, ApiView, Convert, Db, DbView, Query, QueryView, Roster};
use crate::tape::{ask, done, grown, steady, told, told_as, Run, Stop, Tape, TapeView};
use vstd::prelude::*;

verus! {

// ---- Users ----------------------------------------------------------------------------------

/// Fetches a user from the back-end and stores it. A deleted user is stored, but not returned.
pub open spec fn fetch_user_run<'a>(a: &'a Actor<Online>, t: TapeView<'a>, id: UserId) -> Run<
    'a,
    Option<&'a User>,
> {
    call_run::<Option<ApiUser>>(a, t, ApiView::User(id)).and_then(
        |t: TapeView<'a>, found: Option<ApiUser>|
            match found {
                Some(u) => ask::<()>(
                    t,
                    QueryView::Db(a.db(), DbView::InsertUser(&u)),
                ).and_then(
                    |t: TapeView<'a>, _x: ()|
                        if u.deleted == Some(true) {
                            done(t, None)
                        } else {
                            ask::<User>(t, QueryView::Convert(Convert::User(&u))).and_then(
                                |t: TapeView<'a>, user: User| done(t, Some(&user)),
                            )
                        },
                ),
                None => done(t, None),
            },
    )
}

/// Finds a user: the stored one if that is allowed and there is one, else the back-end's.
pub open spec fn resolve_user_run<'a>(
    a: &'a Actor<Online>,
    t: TapeView<'a>,
    id: UserId,
    allow_local: bool,
) -> Run<'a, Option<&'a User>> {
    if allow_local {
        ask::<Option<User>>(t, QueryView::Db(a.db(), DbView::User(id))).and_then(
            |t: TapeView<'a>, found: Option<User>|
                match found {
                    Some(u) => done(
                        t,
                        if u.deleted {
                            None
                        } else {
                            Some(&u)
                        },
                    ),
                    None => fetch_user_run(a, t, id),
                },
        )
    } else {
        fetch_user_run(a, t, id)
    }
}

/// [`fetch_user_run`] is steady.
pub proof fn fetch_user_is_steady<'a>(
    a: &'a Actor<Online>,
    t: TapeView<'a>,
    u: TapeView<'a>,
    id: UserId,
)
    requires
        grown(t, u),
    ensures
        steady(t, u, fetch_user_run(a, t, id), fetch_user_run(a, u, id)),
{
    call_is_steady::<Option<ApiUser>>(a, t, u, ApiView::User(id));
}

/// [`resolve_user_run`] is steady.
pub proof fn resolve_user_is_steady<'a>(
    a: &'a Actor<Online>,
    t: TapeView<'a>,
    u: TapeView<'a>,
    id: UserId,
    allow_local: bool,
)
    requires
        grown(t, u),
    ensures
        steady(t, u, resolve_user_run(a, t, id, allow_local), resolve_user_run(a, u, id, allow_local)),
{
    fetch_user_is_steady(a, t, u, id);
    let q = QueryView::Db(a.db(), DbView::User(id));
    let x = ask::<Option<User>>(t, q);
    let y = ask::<Option<User>>(u, q);
    fetch_user_is_steady(a, y.tape, y.tape, id);
    if x.out is Ok {
        fetch_user_is_steady(a, x.tape, y.tape, id);
    }
}

impl Actor<Online> {
    fn fetch_user<'a>(&'a self, tape: &mut Tape<'a>, id: UserId) -> (r: Result<
        Option<&'a User>,
        Stop<'a>,
    >)
        ensures
            told(final(tape)@, r) == fetch_user_run(self, old(tape)@, id),
    {
        let found: &'a Option<ApiUser> = self.call(tape, Api::User(id))?;
        match found {
            Some(u) => {
                tape.ask::<()>(Query::Db(self.state.user.dbase, Db::InsertUser(u)))?;
                match u.deleted {
                    Some(true) => Ok(None),
                    _ => {
                        let user: &'a User = tape.ask(Query::Convert(Convert::User(u)))?;
                        Ok(Some(user))
                    },
                }
            },
            None => Ok(None),
        }
    }

    /// Finds a user by id.
    ///
    /// If the user is found in local storage and `allow_local` is true it is returned right away,
    /// otherwise the information comes from the back-end and is saved locally.
    pub fn resolve_user<'a>(&'a self, tape: &mut Tape<'a>, id: UserId, allow_local: bool) -> (r:
        Result<Option<&'a User>, Stop<'a>>)
        ensures
            told(final(tape)@, r) == resolve_user_run(self, old(tape)@, id, allow_local),
    {
        if allow_local {
            let found: &'a Option<User> = tape.ask(
                Query::Db(self.state.user.dbase, Db::User(id)),
            )?;
            if let Some(u) = found {
                if u.deleted {
                    return Ok(None);
                } else {
                    return Ok(Some(u));
                }
            }
        }
        self.fetch_user(tape, id)
    }
}

// ---- Devices --------------------------------------------------------------------------------

/// Fetches a device from the back-end and stores it.
pub open spec fn fetch_client_run<'a>(
    a: &'a Actor<Online>,
    t: TapeView<'a>,
    user: UserId,
    id: Seq<char>,
) -> Run<'a, Option<&'a Client>> {
    call_run::<Option<ApiClient>>(a, t, ApiView::Client(user, id)).and_then(
        |t: TapeView<'a>, found: Option<ApiClient>|
            match found {
                Some(c) => ask::<()>(
                    t,
                    QueryView::Db(a.db(), DbView::InsertClient(user, &c)),
                ).and_then(
                    |t: TapeView<'a>, _x: ()|
                        ask::<Client>(t, QueryView::Convert(Convert::Client(user, &c))).and_then(
                            |t: TapeView<'a>, client: Client| done(t, Some(&client)),
                        ),
                ),
                None => done(t, None),
            },
    )
}

/// Finds a device: the stored one if there is one, else the back-end's.
pub open spec fn resolve_client_run<'a>(
    a: &'a Actor<Online>,
    t: TapeView<'a>,
    user: UserId,
    id: Seq<char>,
) -> Run<'a, Option<&'a Client>> {
    ask::<Option<Client>>(t, QueryView::Db(a.db(), DbView::Client(user, id))).and_then(
        |t: TapeView<'a>, found: Option<Client>|
            match found {
                Some(c) => done(t, Some(&c)),
                None => fetch_client_run(a, t, user, id),
            },
    )
}

/// The devices of a list.
pub open spec fn each<'a>(cs: Seq<Client>) -> Seq<&'a Client> {
    cs.map_values(|c: Client| &c)
}

/// Turns the fetched devices of a user into stored ones, after those that were turned already.
pub open spec fn convert_clients_run<'a>(
    t: TapeView<'a>,
    user: UserId,
    cs: Seq<ApiClient>,
    before: Seq<&'a Client>,
) -> Run<'a, Seq<&'a Client>>
    decreases cs.len(),
{
    if cs.len() == 0 {
        done(t, before)
    } else {
        ask::<Client>(t, QueryView::Convert(Convert::Client(user, &cs[0]))).and_then(
            |t: TapeView<'a>, c: Client|
                convert_clients_run(t, user, cs.drop_first(), before.push(&c)),
        )
    }
}

/// Fetches the devices of a user from the back-end and stores them.
pub open spec fn fetch_clients_run<'a>(a: &'a Actor<Online>, t: TapeView<'a>, user: UserId) -> Run<
    'a,
    Seq<&'a Client>,
> {
    call_run::<Vec<ApiClient>>(a, t, ApiView::Clients(user)).and_then(
        |t: TapeView<'a>, cs: Vec<ApiClient>|
            ask::<()>(t, QueryView::Db(a.db(), DbView::InsertClients(user, &cs))).and_then(
                |t: TapeView<'a>, _x: ()| convert_clients_run(t, user, cs@, Seq::empty()),
            ),
    )
}

/// Finds the devices of a user: the stored ones if there are any, else the back-end's.
pub open spec fn resolve_clients_run<'a>(a: &'a Actor<Online>, t: TapeView<'a>, user: UserId) -> Run<
    'a,
    Seq<&'a Client>,
> {
    ask::<Vec<Client>>(t, QueryView::Db(a.db(), DbView::Clients(user))).and_then(
        |t: TapeView<'a>, found: Vec<Client>|
            if found@.len() > 0 {
                done(t, each(found@))
            } else {
                fetch_clients_run(a, t, user)
            },
    )
}

/// [`fetch_client_run`] is steady.
pub proof fn fetch_client_is_steady<'a>(
    a: &'a Actor<Online>,
    t: TapeView<'a>,
    u: TapeView<'a>,
    user: UserId,
    id: Seq<char>,
)
    requires
        grown(t, u),
    ensures
        steady(t, u, fetch_client_run(a, t, user, id), fetch_client_run(a, u, user, id)),
{
    call_is_steady::<Option<ApiClient>>(a, t, u, ApiView::Client(user, id));
}

/// [`resolve_client_run`] is steady.
pub proof fn resolve_client_is_steady<'a>(
    a: &'a Actor<Online>,
    t: TapeView<'a>,
    u: TapeView<'a>,
    user: UserId,
    id: Seq<char>,
)
    requires
        grown(t, u),
    ensures
        steady(t, u, resolve_client_run(a, t, user, id), resolve_client_run(a, u, user, id)),
{
    let q = QueryView::Db(a.db(), DbView::Client(user, id));
    let x = ask::<Option<Client>>(t, q);
    let y = ask::<Option<Client>>(u, q);
    fetch_client_is_steady(a, y.tape, y.tape, user, id);
    if x.out is Ok {
        fetch_client_is_steady(a, x.tape, y.tape, user, id);
    }
}

/// [`convert_clients_run`] is steady.
pub proof fn convert_clients_is_steady<'a>(
    t: TapeView<'a>,
    u: TapeView<'a>,
    user: UserId,
    cs: Seq<ApiClient>,
    before: Seq<&'a Client>,
)
    requires
        grown(t, u),
    ensures
        steady(
            t,
            u,
            convert_clients_run(t, user, cs, before),
            convert_clients_run(u, user, cs, before),
        ),
    decreases cs.len(),
{
    if cs.len() > 0 {
        let q = QueryView::Convert(Convert::Client(user, &cs[0]));
        let x = ask::<Client>(t, q);
        let y = ask::<Client>(u, q);
        if let Ok(c) = y.out {
            convert_clients_is_steady(y.tape, y.tape, user, cs.drop_first(), before.push(&c));
            if x.out is Ok {
                convert_clients_is_steady(x.tape, y.tape, user, cs.drop_first(), before.push(&c));
            }
        }
    }
}

/// [`fetch_clients_run`] is steady.
pub proof fn fetch_clients_is_steady<'a>(
    a: &'a Actor<Online>,
    t: TapeView<'a>,
    u: TapeView<'a>,
    user: UserId,
)
    requires
        grown(t, u),
    ensures
        steady(t, u, fetch_clients_run(a, t, user), fetch_clients_run(a, u, user)),
{
    call_is_steady::<Vec<ApiClient>>(a, t, u, ApiView::Clients(user));
    let x = call_run::<Vec<ApiClient>>(a, t, ApiView::Clients(user));
    let y = call_run::<Vec<ApiClient>>(a, u, ApiView::Clients(user));
    if let Ok(cs) = y.out {
        let q = QueryView::Db(a.db(), DbView::InsertClients(user, &cs));
        let z = ask::<()>(y.tape, q);
        convert_clients_is_steady(z.tape, z.tape, user, cs@, Seq::empty());
        if x.out is Ok {
            let w = ask::<()>(x.tape, q);
            if w.out is Ok {
                convert_clients_is_steady(w.tape, z.tape, user, cs@, Seq::empty());
            }
        }
    }
}

/// [`resolve_clients_run`] is steady.
pub proof fn resolve_clients_is_steady<'a>(
    a: &'a Actor<Online>,
    t: TapeView<'a>,
    u: TapeView<'a>,
    user: UserId,
)
    requires
        grown(t, u),
    ensures
        steady(t, u, resolve_clients_run(a, t, user), resolve_clients_run(a, u, user)),
{
    let q = QueryView::Db(a.db(), DbView::Clients(user));
    let x = ask::<Vec<Client>>(t, q);
    let y = ask::<Vec<Client>>(u, q);
    fetch_clients_is_steady(a, y.tape, y.tape, user);
    if x.out is Ok {
        fetch_clients_is_steady(a, x.tape, y.tape, user);
    }
}

impl Actor<Online> {
    /// Finds a device of a user by id.
    ///
    /// If the device is found in local storage it is returned right away, otherwise the information
    /// comes from the back-end and is saved locally.
    pub fn resolve_client<'a>(&'a self, tape: &mut Tape<'a>, user: UserId, id: &ClientId) -> (r:
        Result<Option<&'a Client>, Stop<'a>>)
        ensures
            told(final(tape)@, r) == resolve_client_run(self, old(tape)@, user, id@),
    {
        let found: &'a Option<Client> = tape.ask(
            Query::Db(self.state.user.dbase, Db::Client(user, id.clone())),
        )?;
        if let Some(c) = found {
            return Ok(Some(c));
        }
        let found: &'a Option<ApiClient> = self.call(tape, Api::Client(user, id.clone()))?;
        match found {
            Some(c) => {
                tape.ask::<()>(Query::Db(self.state.user.dbase, Db::InsertClient(user, c)))?;
                let client: &'a Client = tape.ask(Query::Convert(Convert::Client(user, c)))?;
                Ok(Some(client))
            },
            None => Ok(None),
        }
    }

    /// Finds the devices of a user.
    ///
    /// If devices are found in local storage they are returned right away, otherwise the information
    /// comes from the back-end and is saved locally.
    pub fn resolve_clients<'a>(&'a self, tape: &mut Tape<'a>, user: UserId) -> (r: Result<
        Vec<&'a Client>,
        Stop<'a>,
    >)
        ensures
            told_as(final(tape)@, r, |x: Vec<&'a Client>| x@) == resolve_clients_run(
                self,
                old(tape)@,
                user,
            ),
    {
        let mut clients: Vec<&'a Client> = Vec::new();
        let found: &'a Vec<Client> = tape.ask(Query::Db(self.state.user.dbase, Db::Clients(user)))?;
        if found.len() > 0 {
            let mut i: usize = 0;
            while i < found.len()
                invariant
                    i <= found.len(),
                    clients@ =~= each(found@.take(i as int)),
                decreases found.len() - i,
            {
                clients.push(&found[i]);
                i = i + 1;
            }
            assert(found@.take(i as int) =~= found@);
            return Ok(clients);
        }
        let cs: &'a Vec<ApiClient> = self.call(tape, Api::Clients(user))?;
        tape.ask::<()>(Query::Db(self.state.user.dbase, Db::InsertClients(user, cs)))?;
        let ghost begun = tape@;
        let mut i: usize = 0;
        assert(cs@.skip(0) =~= cs@);
        while i < cs.len()
            invariant
                i <= cs.len(),
                convert_clients_run(tape@, user, cs@.skip(i as int), clients@)
                    == convert_clients_run(begun, user, cs@, Seq::empty()),
                convert_clients_run(begun, user, cs@, Seq::empty()) == resolve_clients_run(
                    self,
                    old(tape)@,
                    user,
                ),
            decreases cs.len() - i,
        {
            assert(cs@.skip(i as int).drop_first() =~= cs@.skip(i + 1));
            let c: &'a Client = tape.ask(Query::Convert(Convert::Client(user, &cs[i])))?;
            clients.push(c);
            i = i + 1;
        }
        Ok(clients)
    }
}

// ---- Conversations --------------------------------------------------------------------------

/// Resolves those of the members who have not left and are not us. The result says whether nobody
/// was found, `nobody` whether nobody had been before.
pub open spec fn resolve_members_run<'a>(
    a: &'a Actor<Online>,
    t: TapeView<'a>,
    members: Seq<Member>,
    nobody: bool,
) -> Run<'a, bool>
    decreases members.len(),
{
    if members.len() == 0 {
        done(t, nobody)
    } else if !members[0].current || members[0].id == a.me_id() {
        resolve_members_run(a, t, members.drop_first(), nobody)
    } else {
        resolve_user_run(a, t, members[0].id, true).and_then(
            |t: TapeView<'a>, u: Option<&'a User>|
                resolve_members_run(a, t, members.drop_first(), nobody && u is None),
        )
    }
}

/// Stores a conversation as of now.
pub open spec fn keep_conversation_run<'a>(
    a: &'a Actor<Online>,
    t: TapeView<'a>,
    roster: Roster<'a>,
) -> Run<'a, &'a Conversation> {
    ask::<Time>(t, QueryView::Now).and_then(
        |t: TapeView<'a>, time: Time|
            ask::<()>(
                t,
                QueryView::Db(a.db(), DbView::InsertConversation(time, roster)),
            ).and_then(
                |t: TapeView<'a>, _x: ()|
                    ask::<Conversation>(
                        t,
                        QueryView::Convert(Convert::Conversation(time, roster)),
                    ).and_then(|t: TapeView<'a>, c: Conversation| done(t, &c)),
            ),
    )
}

/// Stores a conversation whose members were resolved, unless it is a conversation with a single peer
/// who is not there.
pub open spec fn decide_conversation_run<'a>(
    a: &'a Actor<Online>,
    t: TapeView<'a>,
    c: &'a ApiConversation,
    nobody: bool,
) -> Run<'a, Option<&'a Conversation>> {
    if c.typ == ConvType::OneToOne && nobody {
        done(t, None)
    } else {
        keep_conversation_run(a, t, Roster::Current(c)).and_then(
            |t: TapeView<'a>, kept: &'a Conversation| done(t, Some(kept)),
        )
    }
}

/// Resolves the members of a conversation, and stores it.
pub open spec fn gather_conversation_run<'a>(
    a: &'a Actor<Online>,
    t: TapeView<'a>,
    c: &'a ApiConversation,
) -> Run<'a, Option<&'a Conversation>> {
    resolve_members_run(a, t, c.others@, true).and_then(
        |t: TapeView<'a>, nobody: bool| decide_conversation_run(a, t, c, nobody),
    )
}

/// Takes in a conversation of which we are a member: resolves its creator and its members, and
/// stores it.
pub open spec fn adopt_conversation_run<'a>(
    a: &'a Actor<Online>,
    t: TapeView<'a>,
    c: &'a ApiConversation,
) -> Run<'a, Option<&'a Conversation>> {
    resolve_user_run(a, t, c.creator, true).and_then(
        |t: TapeView<'a>, _u: Option<&'a User>| gather_conversation_run(a, t, c),
    )
}

/// Fetches a conversation from the back-end and takes it in. One that we have left is ignored.
pub open spec fn fetch_conversation_run<'a>(
    a: &'a Actor<Online>,
    t: TapeView<'a>,
    id: ConvId,
) -> Run<'a, Option<&'a Conversation>> {
    call_run::<Option<ApiConversation>>(a, t, ApiView::Conversation(id)).and_then(
        |t: TapeView<'a>, found: Option<ApiConversation>|
            match found {
                Some(c) => if c.current {
                    adopt_conversation_run(a, t, &c)
                } else {
                    done(t, None)
                },
                None => done(t, None),
            },
    )
}

/// Finds a conversation: the stored one if there is one, else the back-end's.
pub open spec fn resolve_conversation_run<'a>(
    a: &'a Actor<Online>,
    t: TapeView<'a>,
    id: ConvId,
) -> Run<'a, Option<&'a Conversation>> {
    ask::<Option<Conversation>>(t, QueryView::Db(a.db(), DbView::Conversation(id))).and_then(
        |t: TapeView<'a>, found: Option<Conversation>|
            match found {
                Some(c) => done(t, Some(&c)),
                None => fetch_conversation_run(a, t, id),
            },
    )
}

/// [`resolve_members_run`] is steady.
pub proof fn resolve_members_is_steady<'a>(
    a: &'a Actor<Online>,
    t: TapeView<'a>,
    u: TapeView<'a>,
    members: Seq<Member>,
    nobody: bool,
)
    requires
        grown(t, u),
    ensures
        steady(
            t,
            u,
            resolve_members_run(a, t, members, nobody),
            resolve_members_run(a, u, members, nobody),
        ),
    decreases members.len(),
{
    if members.len() > 0 {
        let rest = members.drop_first();
        if !members[0].current || members[0].id == a.me_id() {
            resolve_members_is_steady(a, t, u, rest, nobody);
        } else {
            resolve_user_is_steady(a, t, u, members[0].id, true);
            let x = resolve_user_run(a, t, members[0].id, true);
            let y = resolve_user_run(a, u, members[0].id, true);
            if let Ok(found) = y.out {
                resolve_members_is_steady(a, y.tape, y.tape, rest, nobody && found is None);
                if x.out is Ok {
                    resolve_members_is_steady(a, x.tape, y.tape, rest, nobody && found is None);
                }
            }
        }
    }
}

/// [`keep_conversation_run`] is steady.
pub proof fn keep_conversation_is_steady<'a>(
    a: &'a Actor<Online>,
    t: TapeView<'a>,
    u: TapeView<'a>,
    roster: Roster<'a>,
)
    requires
        grown(t, u),
    ensures
        steady(t, u, keep_conversation_run(a, t, roster), keep_conversation_run(a, u, roster)),
{
}

/// [`decide_conversation_run`] is steady.
pub proof fn decide_conversation_is_steady<'a>(
    a: &'a Actor<Online>,
    t: TapeView<'a>,
    u: TapeView<'a>,
    c: &'a ApiConversation,
    nobody: bool,
)
    requires
        grown(t, u),
    ensures
        steady(
            t,
            u,
            decide_conversation_run(a, t, c, nobody),
            decide_conversation_run(a, u, c, nobody),
        ),
{
    keep_conversation_is_steady(a, t, u, Roster::Current(c));
}

/// [`gather_conversation_run`] is steady.
pub proof fn gather_conversation_is_steady<'a>(
    a: &'a Actor<Online>,
    t: TapeView<'a>,
    u: TapeView<'a>,
    c: &'a ApiConversation,
)
    requires
        grown(t, u),
    ensures
        steady(t, u, gather_conversation_run(a, t, c), gather_conversation_run(a, u, c)),
{
    resolve_members_is_steady(a, t, u, c.others@, true);
    let x = resolve_members_run(a, t, c.others@, true);
    let y = resolve_members_run(a, u, c.others@, true);
    if let Ok(nobody) = y.out {
        decide_conversation_is_steady(a, y.tape, y.tape, c, nobody);
        if x.out is Ok {
            decide_conversation_is_steady(a, x.tape, y.tape, c, nobody);
        }
    }
}

/// [`adopt_conversation_run`] is steady.
pub proof fn adopt_conversation_is_steady<'a>(
    a: &'a Actor<Online>,
    t: TapeView<'a>,
    u: TapeView<'a>,
    c: &'a ApiConversation,
)
    requires
        grown(t, u),
    ensures
        steady(t, u, adopt_conversation_run(a, t, c), adopt_conversation_run(a, u, c)),
{
    resolve_user_is_steady(a, t, u, c.creator, true);
    let x = resolve_user_run(a, t, c.creator, true);
    let y = resolve_user_run(a, u, c.creator, true);
    gather_conversation_is_steady(a, y.tape, y.tape, c);
    if x.out is Ok {
        gather_conversation_is_steady(a, x.tape, y.tape, c);
    }
}

/// [`fetch_conversation_run`] is steady.
pub proof fn fetch_conversation_is_steady<'a>(
    a: &'a Actor<Online>,
    t: TapeView<'a>,
    u: TapeView<'a>,
    id: ConvId,
)
    requires
        grown(t, u),
    ensures
        steady(t, u, fetch_conversation_run(a, t, id), fetch_conversation_run(a, u, id)),
{
    call_is_steady::<Option<ApiConversation>>(a, t, u, ApiView::Conversation(id));
    let x = call_run::<Option<ApiConversation>>(a, t, ApiView::Conversation(id));
    let y = call_run::<Option<ApiConversation>>(a, u, ApiView::Conversation(id));
    if let Ok(Some(c)) = y.out {
        adopt_conversation_is_steady(a, y.tape, y.tape, &c);
        if x.out is Ok {
            adopt_conversation_is_steady(a, x.tape, y.tape, &c);
        }
    }
}

/// [`resolve_conversation_run`] is steady.
pub proof fn resolve_conversation_is_steady<'a>(
    a: &'a Actor<Online>,
    t: TapeView<'a>,
    u: TapeView<'a>,
    id: ConvId,
)
    requires
        grown(t, u),
    ensures
        steady(t, u, resolve_conversation_run(a, t, id), resolve_conversation_run(a, u, id)),
{
    let q = QueryView::Db(a.db(), DbView::Conversation(id));
    let x = ask::<Option<Conversation>>(t, q);
    let y = ask::<Option<Conversation>>(u, q);
    fetch_conversation_is_steady(a, y.tape, y.tape, id);
    if x.out is Ok {
        fetch_conversation_is_steady(a, x.tape, y.tape, id);
    }
}

impl Actor<Online> {
    fn resolve_members<'a>(&'a self, tape: &mut Tape<'a>, members: &'a Vec<Member>) -> (r: Result<
        bool,
        Stop<'a>,
    >)
        ensures
            told(final(tape)@, r) == resolve_members_run(self, old(tape)@, members@, true),
    {
        let mut nobody = true;
        let mut i: usize = 0;
        assert(members@.skip(0) =~= members@);
        while i < members.len()
            invariant
                i <= members.len(),
                resolve_members_run(self, tape@, members@.skip(i as int), nobody)
                    == resolve_members_run(self, old(tape)@, members@, true),
            decreases members.len() - i,
        {
            assert(members@.skip(i as int).drop_first() =~= members@.skip(i + 1));
            let m = members[i];
            if m.current && m.id != self.me().id {
                let found = self.resolve_user(tape, m.id, true)?;
                nobody = nobody && found.is_none();
            }
            i = i + 1;
        }
        Ok(nobody)
    }

    pub(crate) fn keep_conversation<'a>(&'a self, tape: &mut Tape<'a>, roster: Roster<'a>) -> (r: Result<
        &'a Conversation,
        Stop<'a>,
    >)
        ensures
            told(final(tape)@, r) == keep_conversation_run(self, old(tape)@, roster),
    {
        let time: &'a Time = tape.ask(Query::Now)?;
        tape.ask::<()>(
            Query::Db(self.state.user.dbase, Db::InsertConversation(*time, roster)),
        )?;
        tape.ask(Query::Convert(Convert::Conversation(*time, roster)))
    }

    fn adopt_conversation<'a>(&'a self, tape: &mut Tape<'a>, c: &'a ApiConversation) -> (r: Result<
        Option<&'a Conversation>,
        Stop<'a>,
    >)
        ensures
            told(final(tape)@, r) == adopt_conversation_run(self, old(tape)@, c),
    {
        self.resolve_user(tape, c.creator, true)?;
        let nobody = self.resolve_members(tape, &c.others)?;
        if c.typ == ConvType::OneToOne && nobody {
            return Ok(None);
        }
        let kept = self.keep_conversation(tape, Roster::Current(c))?;
        Ok(Some(kept))
    }

    /// Finds a conversation by id.
    ///
    /// If the conversation is found in local storage it is returned right away, otherwise the
    /// information comes from the back-end and is saved locally.
    pub fn resolve_conversation<'a>(&'a self, tape: &mut Tape<'a>, id: ConvId) -> (r: Result<
        Option<&'a Conversation>,
        Stop<'a>,
    >)
        ensures
            told(final(tape)@, r) == resolve_conversation_run(self, old(tape)@, id),
    {
        let found: &'a Option<Conversation> = tape.ask(
            Query::Db(self.state.user.dbase, Db::Conversation(id)),
        )?;
        if let Some(c) = found {
            return Ok(Some(c));
        }
        let found: &'a Option<ApiConversation> = self.call(tape, Api::Conversation(id))?;
        match found {
            Some(c) => {
                if c.current {
                    self.adopt_conversation(tape, c)
                } else {
                    Ok(None)
                }
            },
            None => Ok(None),
        }
    }
}

} // verus!
