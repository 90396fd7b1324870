//! Notifications, and what the events in them bring about.
use crate::actor::{Actor, Online};
use crate::directory::{
    resolve_client_is_steady, resolve_client_run, resolve_clients_is_steady, resolve_clients_run,
    resolve_conversation_is_steady, resolve_conversation_run, resolve_user_is_steady,
    resolve_user_run,
};
use crate::model::{
    ApiConversation, Client, Connection, ConvEvent, ConvEventData, Conversation, Error, Event,
    EventType, Member, Notification, OtrMessage, Plaintext, User, UserConnection, UserEvent, UserId,
};
use crate::query::{
    Convert, Crypt, CryptView, Db, DbView, Incoming, NewText, Pkg, PkgView, Query, QueryView,
    Roster,
};
use crate::tape::{ask, caught, done, grown, steady, told, told_as, Run, Stop, Tape, TapeView};
use vstd::prelude::*;

verus! {

// ---- Events about users ---------------------------------------------------------------------

/// One of our devices was added: stores it, unless it is the one that we act as.
pub open spec fn on_client_add_run<'a>(
    a: &'a Actor<Online>,
    t: TapeView<'a>,
    e: &'a UserEvent,
) -> Run<'a, ()> {
    match e {
        UserEvent::AddClient(c) => if c.id@ != a.state.user.device.client.id@ {
            ask::<()>(t, QueryView::Db(a.db(), DbView::InsertClient(a.me_id(), c)))
        } else {
            done(t, ())
        },
        _ => done(t, ()),
    }
}

/// Stores a connection and broadcasts it.
pub open spec fn greet_run<'a>(
    a: &'a Actor<Online>,
    t: TapeView<'a>,
    c: &'a UserConnection,
    user: &'a User,
) -> Run<'a, ()> {
    ask::<()>(t, QueryView::Db(a.db(), DbView::InsertConnection(c))).and_then(
        |t: TapeView<'a>, _x: ()|
            ask::<Connection>(t, QueryView::Convert(Convert::Connection(c))).and_then(
                |t: TapeView<'a>, kept: Connection|
                    ask::<()>(
                        t,
                        QueryView::Publish(a.state.bcast, PkgView::Contact(user, &kept)),
                    ),
            ),
    )
}

/// A connection changed: stores it and broadcasts it, if the user at its other end is found.
pub open spec fn on_user_connection_run<'a>(
    a: &'a Actor<Online>,
    t: TapeView<'a>,
    e: &'a UserEvent,
) -> Run<'a, ()> {
    match e {
        UserEvent::Connect(c) => resolve_user_run(a, t, c.to, true).and_then(
            |t: TapeView<'a>, user: Option<&'a User>|
                match user {
                    Some(user) => greet_run(a, t, c, user),
                    None => done(t, ()),
                },
        ),
        _ => done(t, ()),
    }
}

/// [`on_client_add_run`] is steady.
pub proof fn on_client_add_is_steady<'a>(
    a: &'a Actor<Online>,
    t: TapeView<'a>,
    u: TapeView<'a>,
    e: &'a UserEvent,
)
    requires
        grown(t, u),
    ensures
        steady(t, u, on_client_add_run(a, t, e), on_client_add_run(a, u, e)),
{
}

/// [`greet_run`] is steady.
pub proof fn greet_is_steady<'a>(
    a: &'a Actor<Online>,
    t: TapeView<'a>,
    u: TapeView<'a>,
    c: &'a UserConnection,
    user: &'a User,
)
    requires
        grown(t, u),
    ensures
        steady(t, u, greet_run(a, t, c, user), greet_run(a, u, c, user)),
{
}

/// [`on_user_connection_run`] is steady.
pub proof fn on_user_connection_is_steady<'a>(
    a: &'a Actor<Online>,
    t: TapeView<'a>,
    u: TapeView<'a>,
    e: &'a UserEvent,
)
    requires
        grown(t, u),
    ensures
        steady(t, u, on_user_connection_run(a, t, e), on_user_connection_run(a, u, e)),
{
    if let UserEvent::Connect(c) = e {
        resolve_user_is_steady(a, t, u, c.to, true);
        let x = resolve_user_run(a, t, c.to, true);
        let y = resolve_user_run(a, u, c.to, true);
        if let Ok(Some(user)) = y.out {
            greet_is_steady(a, y.tape, y.tape, c, user);
            if x.out is Ok {
                greet_is_steady(a, x.tape, y.tape, c, user);
            }
        }
    }
}

impl Actor<Online> {
    fn on_client_add<'a>(&'a self, tape: &mut Tape<'a>, e: &'a UserEvent) -> (r: Result<
        (),
        Stop<'a>,
    >)
        ensures
            told(final(tape)@, r) == on_client_add_run(self, old(tape)@, e),
    {
        if let UserEvent::AddClient(c) = e {
            if !c.id.same(&self.state.user.device.client.id) {
                tape.ask::<()>(
                    Query::Db(self.state.user.dbase, Db::InsertClient(self.me().id, c)),
                )?;
            }
        }
        Ok(())
    }

    fn on_user_connection<'a>(&'a self, tape: &mut Tape<'a>, e: &'a UserEvent) -> (r: Result<
        (),
        Stop<'a>,
    >)
        ensures
            told(final(tape)@, r) == on_user_connection_run(self, old(tape)@, e),
    {
        if let UserEvent::Connect(c) = e {
            if let Some(user) = self.resolve_user(tape, c.to, true)? {
                tape.ask::<()>(Query::Db(self.state.user.dbase, Db::InsertConnection(c)))?;
                let kept: &'a Connection = tape.ask(Query::Convert(Convert::Connection(c)))?;
                tape.ask::<()>(Query::Publish(self.state.bcast, Pkg::Contact(user, kept)))?;
            }
        }
        Ok(())
    }
}

// ---- New conversations ----------------------------------------------------------------------

/// Resolves the members of a list, in order.
pub open spec fn resolve_everyone_run<'a>(
    a: &'a Actor<Online>,
    t: TapeView<'a>,
    members: Seq<Member>,
) -> Run<'a, ()>
    decreases members.len(),
{
    if members.len() == 0 {
        done(t, ())
    } else {
        resolve_user_run(a, t, members[0].id, true).and_then(
            |t: TapeView<'a>, _u: Option<&'a User>|
                resolve_everyone_run(a, t, members.drop_first()),
        )
    }
}

/// Stores a conversation as of an event, with all its members, and broadcasts it.
pub open spec fn announce_run<'a>(
    a: &'a Actor<Online>,
    t: TapeView<'a>,
    e: &'a ConvEvent,
    c: &'a ApiConversation,
) -> Run<'a, ()> {
    ask::<()>(
        t,
        QueryView::Db(a.db(), DbView::InsertConversation(e.time, Roster::Whole(c))),
    ).and_then(
        |t: TapeView<'a>, _x: ()|
            ask::<Conversation>(
                t,
                QueryView::Convert(Convert::Conversation(e.time, Roster::Whole(c))),
            ).and_then(
                |t: TapeView<'a>, kept: Conversation|
                    ask::<()>(
                        t,
                        QueryView::Publish(a.state.bcast, PkgView::Conversation(&kept)),
                    ),
            ),
    )
}

/// Takes in a new conversation.
pub open spec fn welcome_run<'a>(
    a: &'a Actor<Online>,
    t: TapeView<'a>,
    e: &'a ConvEvent,
    c: &'a ApiConversation,
) -> Run<'a, ()> {
    resolve_everyone_run(a, t, c.others@).and_then(
        |t: TapeView<'a>, _x: ()| announce_run(a, t, e, c),
    )
}

/// A conversation was created: takes it in, if its creator is us or is found.
pub open spec fn on_conv_create_run<'a>(
    a: &'a Actor<Online>,
    t: TapeView<'a>,
    e: &'a ConvEvent,
) -> Run<'a, ()> {
    match &e.data {
        ConvEventData::Create(c) => if c.creator == a.me_id() {
            welcome_run(a, t, e, c)
        } else {
            resolve_user_run(a, t, c.creator, true).and_then(
                |t: TapeView<'a>, user: Option<&'a User>|
                    match user {
                        Some(_) => welcome_run(a, t, e, c),
                        None => done(t, ()),
                    },
            )
        },
        _ => done(t, ()),
    }
}

/// [`resolve_everyone_run`] is steady.
pub proof fn resolve_everyone_is_steady<'a>(
    a: &'a Actor<Online>,
    t: TapeView<'a>,
    u: TapeView<'a>,
    members: Seq<Member>,
)
    requires
        grown(t, u),
    ensures
        steady(t, u, resolve_everyone_run(a, t, members), resolve_everyone_run(a, u, members)),
    decreases members.len(),
{
    if members.len() > 0 {
        resolve_user_is_steady(a, t, u, members[0].id, true);
        let x = resolve_user_run(a, t, members[0].id, true);
        let y = resolve_user_run(a, u, members[0].id, true);
        resolve_everyone_is_steady(a, y.tape, y.tape, members.drop_first());
        if x.out is Ok {
            resolve_everyone_is_steady(a, x.tape, y.tape, members.drop_first());
        }
    }
}

/// [`announce_run`] is steady.
pub proof fn announce_is_steady<'a>(
    a: &'a Actor<Online>,
    t: TapeView<'a>,
    u: TapeView<'a>,
    e: &'a ConvEvent,
    c: &'a ApiConversation,
)
    requires
        grown(t, u),
    ensures
        steady(t, u, announce_run(a, t, e, c), announce_run(a, u, e, c)),
{
}

/// [`welcome_run`] is steady.
pub proof fn welcome_is_steady<'a>(
    a: &'a Actor<Online>,
    t: TapeView<'a>,
    u: TapeView<'a>,
    e: &'a ConvEvent,
    c: &'a ApiConversation,
)
    requires
        grown(t, u),
    ensures
        steady(t, u, welcome_run(a, t, e, c), welcome_run(a, u, e, c)),
{
    resolve_everyone_is_steady(a, t, u, c.others@);
    let x = resolve_everyone_run(a, t, c.others@);
    let y = resolve_everyone_run(a, u, c.others@);
    announce_is_steady(a, y.tape, y.tape, e, c);
    if x.out is Ok {
        announce_is_steady(a, x.tape, y.tape, e, c);
    }
}

/// [`on_conv_create_run`] is steady.
pub proof fn on_conv_create_is_steady<'a>(
    a: &'a Actor<Online>,
    t: TapeView<'a>,
    u: TapeView<'a>,
    e: &'a ConvEvent,
)
    requires
        grown(t, u),
    ensures
        steady(t, u, on_conv_create_run(a, t, e), on_conv_create_run(a, u, e)),
{
    if let ConvEventData::Create(c) = &e.data {
        welcome_is_steady(a, t, u, e, c);
        if c.creator != a.me_id() {
            resolve_user_is_steady(a, t, u, c.creator, true);
            let x = resolve_user_run(a, t, c.creator, true);
            let y = resolve_user_run(a, u, c.creator, true);
            welcome_is_steady(a, y.tape, y.tape, e, c);
            if x.out is Ok {
                welcome_is_steady(a, x.tape, y.tape, e, c);
            }
        }
    }
}

impl Actor<Online> {
    fn resolve_everyone<'a>(&'a self, tape: &mut Tape<'a>, members: &'a Vec<Member>) -> (r: Result<
        (),
        Stop<'a>,
    >)
        ensures
            told(final(tape)@, r) == resolve_everyone_run(self, old(tape)@, members@),
    {
        let mut i: usize = 0;
        assert(members@.skip(0) =~= members@);
        while i < members.len()
            invariant
                i <= members.len(),
                resolve_everyone_run(self, tape@, members@.skip(i as int)) == resolve_everyone_run(
                    self,
                    old(tape)@,
                    members@,
                ),
            decreases members.len() - i,
        {
            assert(members@.skip(i as int).drop_first() =~= members@.skip(i + 1));
            self.resolve_user(tape, members[i].id, true)?;
            i = i + 1;
        }
        Ok(())
    }

    fn on_conv_create<'a>(&'a self, tape: &mut Tape<'a>, e: &'a ConvEvent) -> (r: Result<
        (),
        Stop<'a>,
    >)
        ensures
            told(final(tape)@, r) == on_conv_create_run(self, old(tape)@, e),
    {
        let c: &'a ApiConversation = match &e.data {
            ConvEventData::Create(c) => c,
            _ => {
                return Ok(());
            },
        };
        if c.creator != self.me().id {
            if self.resolve_user(tape, c.creator, true)?.is_none() {
                return Ok(());
            }
        }
        self.resolve_everyone(tape, &c.others)?;
        let roster = Roster::Whole(c);
        tape.ask::<()>(
            Query::Db(self.state.user.dbase, Db::InsertConversation(e.time, roster)),
        )?;
        let kept: &'a Conversation = tape.ask(
            Query::Convert(Convert::Conversation(e.time, roster)),
        )?;
        tape.ask::<()>(Query::Publish(self.state.bcast, Pkg::Conversation(kept)))?;
        Ok(())
    }
}

// ---- New members ----------------------------------------------------------------------------

/// Stores that a user has joined a conversation, and resolves the user's devices.
pub open spec fn enter_run<'a>(
    a: &'a Actor<Online>,
    t: TapeView<'a>,
    e: &'a ConvEvent,
    id: UserId,
    user: &'a User,
) -> Run<'a, ()> {
    ask::<()>(t, QueryView::Db(a.db(), DbView::InsertMember(e.id, id))).and_then(
        |t: TapeView<'a>, _x: ()|
            ask::<()>(
                t,
                QueryView::Db(
                    a.db(),
                    DbView::InsertJoined { conv: e.id, time: e.time, user: user.id },
                ),
            ).and_then(
                |t: TapeView<'a>, _x: ()|
                    resolve_clients_run(a, t, id).and_then(
                        |t: TapeView<'a>, _cs: Seq<&'a Client>| done(t, ()),
                    ),
            ),
    )
}

/// A user has joined: adds the user to those who joined before, if that is us or is found.
pub open spec fn join_run<'a>(
    a: &'a Actor<Online>,
    t: TapeView<'a>,
    e: &'a ConvEvent,
    id: UserId,
    joined: Seq<&'a User>,
) -> Run<'a, Seq<&'a User>> {
    if id == a.me_id() {
        done(t, joined.push(&a.state.user.user))
    } else {
        resolve_user_run(a, t, id, true).and_then(
            |t: TapeView<'a>, user: Option<&'a User>|
                match user {
                    Some(user) => enter_run(a, t, e, id, user).and_then(
                        |t: TapeView<'a>, _x: ()| done(t, joined.push(user)),
                    ),
                    None => done(t, joined),
                },
        )
    }
}

/// The same for the users of a list, in order.
pub open spec fn join_all_run<'a>(
    a: &'a Actor<Online>,
    t: TapeView<'a>,
    e: &'a ConvEvent,
    ids: Seq<UserId>,
    joined: Seq<&'a User>,
) -> Run<'a, Seq<&'a User>>
    decreases ids.len(),
{
    if ids.len() == 0 {
        done(t, joined)
    } else {
        join_run(a, t, e, ids[0], joined).and_then(
            |t: TapeView<'a>, joined: Seq<&'a User>|
                join_all_run(a, t, e, ids.drop_first(), joined),
        )
    }
}

/// Takes in users who have joined a conversation, and broadcasts them.
pub open spec fn join_and_tell_run<'a>(
    a: &'a Actor<Online>,
    t: TapeView<'a>,
    e: &'a ConvEvent,
    ids: Seq<UserId>,
) -> Run<'a, ()> {
    join_all_run(a, t, e, ids, Seq::empty()).and_then(
        |t: TapeView<'a>, joined: Seq<&'a User>|
            ask::<()>(
                t,
                QueryView::Publish(a.state.bcast, PkgView::MembersAdd(e.time, e.id, joined)),
            ),
    )
}

/// Users have joined a conversation: takes them in, if the conversation is found.
pub open spec fn on_member_join_run<'a>(
    a: &'a Actor<Online>,
    t: TapeView<'a>,
    e: &'a ConvEvent,
) -> Run<'a, ()> {
    match &e.data {
        ConvEventData::Join(ids) => resolve_conversation_run(a, t, e.id).and_then(
            |t: TapeView<'a>, found: Option<&'a Conversation>|
                match found {
                    Some(_) => join_and_tell_run(a, t, e, ids@),
                    None => done(t, ()),
                },
        ),
        _ => done(t, ()),
    }
}

/// [`enter_run`] is steady.
pub proof fn enter_is_steady<'a>(
    a: &'a Actor<Online>,
    t: TapeView<'a>,
    u: TapeView<'a>,
    e: &'a ConvEvent,
    id: UserId,
    user: &'a User,
)
    requires
        grown(t, u),
    ensures
        steady(t, u, enter_run(a, t, e, id, user), enter_run(a, u, e, id, user)),
{
    let q1 = QueryView::Db(a.db(), DbView::InsertMember(e.id, id));
    let q2 = QueryView::Db(
        a.db(),
        DbView::InsertJoined { conv: e.id, time: e.time, user: user.id },
    );
    let x = ask::<()>(t, q1);
    let y = ask::<()>(u, q1);
    let x2 = ask::<()>(x.tape, q2);
    let y2 = ask::<()>(y.tape, q2);
    resolve_clients_is_steady(a, y2.tape, y2.tape, id);
    if x.out is Ok && x2.out is Ok {
        resolve_clients_is_steady(a, x2.tape, y2.tape, id);
    }
}

/// [`join_run`] is steady.
pub proof fn join_is_steady<'a>(
    a: &'a Actor<Online>,
    t: TapeView<'a>,
    u: TapeView<'a>,
    e: &'a ConvEvent,
    id: UserId,
    joined: Seq<&'a User>,
)
    requires
        grown(t, u),
    ensures
        steady(t, u, join_run(a, t, e, id, joined), join_run(a, u, e, id, joined)),
{
    if id != a.me_id() {
        resolve_user_is_steady(a, t, u, id, true);
        let x = resolve_user_run(a, t, id, true);
        let y = resolve_user_run(a, u, id, true);
        if let Ok(Some(user)) = y.out {
            enter_is_steady(a, y.tape, y.tape, e, id, user);
            if x.out is Ok {
                enter_is_steady(a, x.tape, y.tape, e, id, user);
            }
        }
    }
}

/// [`join_all_run`] is steady.
pub proof fn join_all_is_steady<'a>(
    a: &'a Actor<Online>,
    t: TapeView<'a>,
    u: TapeView<'a>,
    e: &'a ConvEvent,
    ids: Seq<UserId>,
    joined: Seq<&'a User>,
)
    requires
        grown(t, u),
    ensures
        steady(t, u, join_all_run(a, t, e, ids, joined), join_all_run(a, u, e, ids, joined)),
    decreases ids.len(),
{
    if ids.len() > 0 {
        join_is_steady(a, t, u, e, ids[0], joined);
        let x = join_run(a, t, e, ids[0], joined);
        let y = join_run(a, u, e, ids[0], joined);
        if let Ok(joined) = y.out {
            join_all_is_steady(a, y.tape, y.tape, e, ids.drop_first(), joined);
            if x.out is Ok {
                join_all_is_steady(a, x.tape, y.tape, e, ids.drop_first(), joined);
            }
        }
    }
}

/// [`join_and_tell_run`] is steady.
pub proof fn join_and_tell_is_steady<'a>(
    a: &'a Actor<Online>,
    t: TapeView<'a>,
    u: TapeView<'a>,
    e: &'a ConvEvent,
    ids: Seq<UserId>,
)
    requires
        grown(t, u),
    ensures
        steady(t, u, join_and_tell_run(a, t, e, ids), join_and_tell_run(a, u, e, ids)),
{
    join_all_is_steady(a, t, u, e, ids, Seq::empty());
}

/// [`on_member_join_run`] is steady.
pub proof fn on_member_join_is_steady<'a>(
    a: &'a Actor<Online>,
    t: TapeView<'a>,
    u: TapeView<'a>,
    e: &'a ConvEvent,
)
    requires
        grown(t, u),
    ensures
        steady(t, u, on_member_join_run(a, t, e), on_member_join_run(a, u, e)),
{
    if let ConvEventData::Join(ids) = &e.data {
        resolve_conversation_is_steady(a, t, u, e.id);
        let x = resolve_conversation_run(a, t, e.id);
        let y = resolve_conversation_run(a, u, e.id);
        join_and_tell_is_steady(a, y.tape, y.tape, e, ids@);
        if x.out is Ok {
            join_and_tell_is_steady(a, x.tape, y.tape, e, ids@);
        }
    }
}

impl Actor<Online> {
    fn enter<'a>(
        &'a self,
        tape: &mut Tape<'a>,
        e: &'a ConvEvent,
        id: UserId,
        user: &'a User,
    ) -> (r: Result<(), Stop<'a>>)
        ensures
            told(final(tape)@, r) == enter_run(self, old(tape)@, e, id, user),
    {
        let db = self.state.user.dbase;
        tape.ask::<()>(Query::Db(db, Db::InsertMember(e.id, id)))?;
        tape.ask::<()>(
            Query::Db(db, Db::InsertJoined { conv: e.id, time: e.time, user: user.id }),
        )?;
        self.resolve_clients(tape, id)?;
        Ok(())
    }

    fn join_all<'a>(&'a self, tape: &mut Tape<'a>, e: &'a ConvEvent, ids: &'a Vec<UserId>) -> (r:
        Result<Vec<&'a User>, Stop<'a>>)
        ensures
            told_as(final(tape)@, r, |x: Vec<&'a User>| x@) == join_all_run(
                self,
                old(tape)@,
                e,
                ids@,
                Seq::empty(),
            ),
    {
        let mut joined: Vec<&'a User> = Vec::new();
        let mut i: usize = 0;
        assert(ids@.skip(0) =~= ids@);
        while i < ids.len()
            invariant
                i <= ids.len(),
                join_all_run(self, tape@, e, ids@.skip(i as int), joined@) == join_all_run(
                    self,
                    old(tape)@,
                    e,
                    ids@,
                    Seq::empty(),
                ),
            decreases ids.len() - i,
        {
            assert(ids@.skip(i as int).drop_first() =~= ids@.skip(i + 1));
            let id: UserId = ids[i];
            if id == self.me().id {
                joined.push(self.me());
            } else if let Some(user) = self.resolve_user(tape, id, true)? {
                self.enter(tape, e, id, user)?;
                joined.push(user);
            }
            i = i + 1;
        }
        Ok(joined)
    }

    fn on_member_join<'a>(&'a self, tape: &mut Tape<'a>, e: &'a ConvEvent) -> (r: Result<
        (),
        Stop<'a>,
    >)
        ensures
            told(final(tape)@, r) == on_member_join_run(self, old(tape)@, e),
    {
        let ids: &'a Vec<UserId> = match &e.data {
            ConvEventData::Join(ids) => ids,
            _ => {
                return Ok(());
            },
        };
        if self.resolve_conversation(tape, e.id)?.is_none() {
            return Ok(());
        }
        let joined = self.join_all(tape, e, ids)?;
        tape.ask::<()>(
            Query::Publish(self.state.bcast, Pkg::MembersAdd(e.time, e.id, joined)),
        )?;
        Ok(())
    }
}

// ---- New messages ---------------------------------------------------------------------------

/// Stores a text message that came in, saves the session that it came through, and broadcasts it.
pub open spec fn keep_text_run<'a>(
    a: &'a Actor<Online>,
    t: TapeView<'a>,
    e: &'a ConvEvent,
    msg: &'a OtrMessage,
    user: &'a User,
    plain: &'a Plaintext,
    text: &'a String,
) -> Run<'a, ()> {
    let new = NewText {
        id: &plain.id,
        conv: e.id,
        time: e.time,
        from: e.from,
        client: &msg.sender,
        text,
        received: true,
    };
    let pkg = Incoming {
        id: &plain.id,
        conv: e.id,
        time: e.time,
        user,
        client: &msg.sender,
        text,
    };
    let cbox = a.state.user.device.cbox;
    ask::<()>(t, QueryView::Db(a.db(), DbView::InsertText(new))).and_then(
        |t: TapeView<'a>, _x: ()|
            ask::<()>(t, QueryView::Crypt(cbox, CryptView::SaveSession(plain.session))).and_then(
                |t: TapeView<'a>, _x: ()|
                    ask::<()>(
                        t,
                        QueryView::Db(a.db(), DbView::ConvTime(e.id, e.time.secs)),
                    ).and_then(
                        |t: TapeView<'a>, _x: ()|
                            ask::<()>(t, QueryView::Publish(a.state.bcast, PkgView::Message(pkg))),
                    ),
            ),
    )
}

/// Takes in a message that was decrypted. Of one that holds no text only the session is saved.
pub open spec fn keep_plain_run<'a>(
    a: &'a Actor<Online>,
    t: TapeView<'a>,
    e: &'a ConvEvent,
    msg: &'a OtrMessage,
    user: &'a User,
    plain: &'a Plaintext,
) -> Run<'a, ()> {
    match &plain.text {
        Some(text) => keep_text_run(a, t, e, msg, user, plain, text),
        None => ask::<()>(
            t,
            QueryView::Crypt(a.state.user.device.cbox, CryptView::SaveSession(plain.session)),
        ),
    }
}

/// Decrypts a message and takes it in. One that cannot be decrypted is passed over.
pub open spec fn open_message_run<'a>(
    a: &'a Actor<Online>,
    t: TapeView<'a>,
    e: &'a ConvEvent,
    msg: &'a OtrMessage,
    user: &'a User,
) -> Run<'a, ()> {
    let q = QueryView::Crypt(a.state.user.device.cbox, CryptView::Decrypt(e.from, msg));
    caught(ask::<Plaintext>(t, q)).and_then(
        |t: TapeView<'a>, x: Result<Plaintext, Error<'a>>|
            match x {
                Ok(plain) => keep_plain_run(a, t, e, msg, user, &plain),
                Err(_) => done(t, ()),
            },
    )
}

/// Takes in a message, if the conversation that it belongs to is found.
pub open spec fn place_message_run<'a>(
    a: &'a Actor<Online>,
    t: TapeView<'a>,
    e: &'a ConvEvent,
    msg: &'a OtrMessage,
    user: &'a User,
) -> Run<'a, ()> {
    resolve_conversation_run(a, t, e.id).and_then(
        |t: TapeView<'a>, found: Option<&'a Conversation>|
            match found {
                Some(_) => open_message_run(a, t, e, msg, user),
                None => done(t, ()),
            },
    )
}

/// Resolves the device that a message came from, and takes it in.
pub open spec fn receive_run<'a>(
    a: &'a Actor<Online>,
    t: TapeView<'a>,
    e: &'a ConvEvent,
    msg: &'a OtrMessage,
    user: &'a User,
) -> Run<'a, ()> {
    resolve_client_run(a, t, user.id, msg.sender@).and_then(
        |t: TapeView<'a>, _c: Option<&'a Client>| place_message_run(a, t, e, msg, user),
    )
}

/// A message was sent to us: takes it in, if the sender is found.
pub open spec fn on_message_add_run<'a>(
    a: &'a Actor<Online>,
    t: TapeView<'a>,
    e: &'a ConvEvent,
) -> Run<'a, ()> {
    match &e.data {
        ConvEventData::Encrypted(msg) => resolve_user_run(a, t, e.from, true).and_then(
            |t: TapeView<'a>, user: Option<&'a User>|
                match user {
                    Some(user) => receive_run(a, t, e, msg, user),
                    None => done(t, ()),
                },
        ),
        _ => done(t, ()),
    }
}

/// [`keep_plain_run`] is steady.
pub proof fn keep_plain_is_steady<'a>(
    a: &'a Actor<Online>,
    t: TapeView<'a>,
    u: TapeView<'a>,
    e: &'a ConvEvent,
    msg: &'a OtrMessage,
    user: &'a User,
    plain: &'a Plaintext,
)
    requires
        grown(t, u),
    ensures
        steady(
            t,
            u,
            keep_plain_run(a, t, e, msg, user, plain),
            keep_plain_run(a, u, e, msg, user, plain),
        ),
{
}

/// [`open_message_run`] is steady.
pub proof fn open_message_is_steady<'a>(
    a: &'a Actor<Online>,
    t: TapeView<'a>,
    u: TapeView<'a>,
    e: &'a ConvEvent,
    msg: &'a OtrMessage,
    user: &'a User,
)
    requires
        grown(t, u),
    ensures
        steady(t, u, open_message_run(a, t, e, msg, user), open_message_run(a, u, e, msg, user)),
{
    let q = QueryView::Crypt(a.state.user.device.cbox, CryptView::Decrypt(e.from, msg));
    let x = ask::<Plaintext>(t, q);
    let y = ask::<Plaintext>(u, q);
    if let Ok(plain) = y.out {
        keep_plain_is_steady(a, y.tape, y.tape, e, msg, user, &plain);
        if x.out is Ok {
            keep_plain_is_steady(a, x.tape, y.tape, e, msg, user, &plain);
        }
    }
}

/// [`place_message_run`] is steady.
pub proof fn place_message_is_steady<'a>(
    a: &'a Actor<Online>,
    t: TapeView<'a>,
    u: TapeView<'a>,
    e: &'a ConvEvent,
    msg: &'a OtrMessage,
    user: &'a User,
)
    requires
        grown(t, u),
    ensures
        steady(t, u, place_message_run(a, t, e, msg, user), place_message_run(a, u, e, msg, user)),
{
    resolve_conversation_is_steady(a, t, u, e.id);
    let x = resolve_conversation_run(a, t, e.id);
    let y = resolve_conversation_run(a, u, e.id);
    open_message_is_steady(a, y.tape, y.tape, e, msg, user);
    if x.out is Ok {
        open_message_is_steady(a, x.tape, y.tape, e, msg, user);
    }
}

/// [`receive_run`] is steady.
pub proof fn receive_is_steady<'a>(
    a: &'a Actor<Online>,
    t: TapeView<'a>,
    u: TapeView<'a>,
    e: &'a ConvEvent,
    msg: &'a OtrMessage,
    user: &'a User,
)
    requires
        grown(t, u),
    ensures
        steady(t, u, receive_run(a, t, e, msg, user), receive_run(a, u, e, msg, user)),
{
    resolve_client_is_steady(a, t, u, user.id, msg.sender@);
    let x = resolve_client_run(a, t, user.id, msg.sender@);
    let y = resolve_client_run(a, u, user.id, msg.sender@);
    place_message_is_steady(a, y.tape, y.tape, e, msg, user);
    if x.out is Ok {
        place_message_is_steady(a, x.tape, y.tape, e, msg, user);
    }
}

/// [`on_message_add_run`] is steady.
pub proof fn on_message_add_is_steady<'a>(
    a: &'a Actor<Online>,
    t: TapeView<'a>,
    u: TapeView<'a>,
    e: &'a ConvEvent,
)
    requires
        grown(t, u),
    ensures
        steady(t, u, on_message_add_run(a, t, e), on_message_add_run(a, u, e)),
{
    if let ConvEventData::Encrypted(msg) = &e.data {
        resolve_user_is_steady(a, t, u, e.from, true);
        let x = resolve_user_run(a, t, e.from, true);
        let y = resolve_user_run(a, u, e.from, true);
        if let Ok(Some(user)) = y.out {
            receive_is_steady(a, y.tape, y.tape, e, msg, user);
            if x.out is Ok {
                receive_is_steady(a, x.tape, y.tape, e, msg, user);
            }
        }
    }
}

impl Actor<Online> {
    fn keep_plain<'a>(
        &'a self,
        tape: &mut Tape<'a>,
        e: &'a ConvEvent,
        msg: &'a OtrMessage,
        user: &'a User,
        plain: &'a Plaintext,
    ) -> (r: Result<(), Stop<'a>>)
        ensures
            told(final(tape)@, r) == keep_plain_run(self, old(tape)@, e, msg, user, plain),
    {
        let db = self.state.user.dbase;
        let cbox = self.state.user.device.cbox;
        if let Some(text) = &plain.text {
            let new = NewText {
                id: &plain.id,
                conv: e.id,
                time: e.time,
                from: e.from,
                client: &msg.sender,
                text,
                received: true,
            };
            tape.ask::<()>(Query::Db(db, Db::InsertText(new)))?;
        }
        tape.ask::<()>(Query::Crypt(cbox, Crypt::SaveSession(plain.session)))?;
        if let Some(text) = &plain.text {
            tape.ask::<()>(Query::Db(db, Db::ConvTime(e.id, e.time.timestamp())))?;
            let pkg = Incoming {
                id: &plain.id,
                conv: e.id,
                time: e.time,
                user,
                client: &msg.sender,
                text,
            };
            tape.ask::<()>(Query::Publish(self.state.bcast, Pkg::Message(pkg)))?;
        }
        Ok(())
    }

    fn on_message_add<'a>(&'a self, tape: &mut Tape<'a>, e: &'a ConvEvent) -> (r: Result<
        (),
        Stop<'a>,
    >)
        ensures
            told(final(tape)@, r) == on_message_add_run(self, old(tape)@, e),
    {
        let msg: &'a OtrMessage = match &e.data {
            ConvEventData::Encrypted(msg) => msg,
            _ => {
                return Ok(());
            },
        };
        let user: &'a User = match self.resolve_user(tape, e.from, true)? {
            Some(user) => user,
            None => {
                return Ok(());
            },
        };
        self.resolve_client(tape, user.id, &msg.sender)?;
        if self.resolve_conversation(tape, e.id)?.is_none() {
            return Ok(());
        }
        let opened: Result<&'a Plaintext, Stop<'a>> = tape.ask(
            Query::Crypt(self.state.user.device.cbox, Crypt::Decrypt(e.from, msg)),
        );
        match opened {
            Ok(plain) => self.keep_plain(tape, e, msg, user, plain),
            Err(Stop::Fail(_)) => Ok(()),
            Err(s) => Err(s),
        }
    }
}

// ---- Notifications --------------------------------------------------------------------------

/// Does what an event calls for. An event whose content does not fit its type calls for nothing.
pub open spec fn on_event_run<'a>(a: &'a Actor<Online>, t: TapeView<'a>, e: &'a Event) -> Run<
    'a,
    (),
> {
    match e {
        Event::User(EventType::UserClientAdd, e) => on_client_add_run(a, t, e),
        Event::User(EventType::UserConnection, e) => on_user_connection_run(a, t, e),
        Event::Conv(EventType::ConvCreate, e) => on_conv_create_run(a, t, e),
        Event::Conv(EventType::ConvMemberJoin, e) => on_member_join_run(a, t, e),
        Event::Conv(EventType::ConvMessageAdd, e) => on_message_add_run(a, t, e),
        _ => done(t, ()),
    }
}

/// Does what the events of a list call for, in order.
pub open spec fn on_events_run<'a>(a: &'a Actor<Online>, t: TapeView<'a>, es: Seq<Event>) -> Run<
    'a,
    (),
>
    decreases es.len(),
{
    if es.len() == 0 {
        done(t, ())
    } else {
        on_event_run(a, t, &es[0]).and_then(
            |t: TapeView<'a>, _x: ()| on_events_run(a, t, es.drop_first()),
        )
    }
}

/// Does what the events of a notification call for, and records it, unless it was recorded before.
pub open spec fn on_notification_run<'a>(
    a: &'a Actor<Online>,
    t: TapeView<'a>,
    n: &'a Notification,
) -> Run<'a, ()> {
    ask::<bool>(t, QueryView::Db(a.db(), DbView::HasNotification(n.id))).and_then(
        |t: TapeView<'a>, seen: bool|
            if seen {
                done(t, ())
            } else {
                on_events_run(a, t, n.events@).and_then(
                    |t: TapeView<'a>, _x: ()|
                        ask::<()>(t, QueryView::Db(a.db(), DbView::InsertNotification(n.id))),
                )
            },
    )
}

/// [`on_event_run`] is steady.
pub proof fn on_event_is_steady<'a>(
    a: &'a Actor<Online>,
    t: TapeView<'a>,
    u: TapeView<'a>,
    e: &'a Event,
)
    requires
        grown(t, u),
    ensures
        steady(t, u, on_event_run(a, t, e), on_event_run(a, u, e)),
{
    match e {
        Event::User(EventType::UserClientAdd, e) => on_client_add_is_steady(a, t, u, e),
        Event::User(EventType::UserConnection, e) => on_user_connection_is_steady(a, t, u, e),
        Event::Conv(EventType::ConvCreate, e) => on_conv_create_is_steady(a, t, u, e),
        Event::Conv(EventType::ConvMemberJoin, e) => on_member_join_is_steady(a, t, u, e),
        Event::Conv(EventType::ConvMessageAdd, e) => on_message_add_is_steady(a, t, u, e),
        _ => {},
    }
}

/// [`on_events_run`] is steady.
pub proof fn on_events_is_steady<'a>(
    a: &'a Actor<Online>,
    t: TapeView<'a>,
    u: TapeView<'a>,
    es: Seq<Event>,
)
    requires
        grown(t, u),
    ensures
        steady(t, u, on_events_run(a, t, es), on_events_run(a, u, es)),
    decreases es.len(),
{
    if es.len() > 0 {
        on_event_is_steady(a, t, u, &es[0]);
        let x = on_event_run(a, t, &es[0]);
        let y = on_event_run(a, u, &es[0]);
        on_events_is_steady(a, y.tape, y.tape, es.drop_first());
        if x.out is Ok {
            on_events_is_steady(a, x.tape, y.tape, es.drop_first());
        }
    }
}

/// [`on_notification_run`] is steady.
pub proof fn on_notification_is_steady<'a>(
    a: &'a Actor<Online>,
    t: TapeView<'a>,
    u: TapeView<'a>,
    n: &'a Notification,
)
    requires
        grown(t, u),
    ensures
        steady(t, u, on_notification_run(a, t, n), on_notification_run(a, u, n)),
{
    let q = QueryView::Db(a.db(), DbView::HasNotification(n.id));
    let x = ask::<bool>(t, q);
    let y = ask::<bool>(u, q);
    on_events_is_steady(a, y.tape, y.tape, n.events@);
    if x.out is Ok {
        on_events_is_steady(a, x.tape, y.tape, n.events@);
    }
}

impl Actor<Online> {
    fn on_event<'a>(&'a self, tape: &mut Tape<'a>, e: &'a Event) -> (r: Result<(), Stop<'a>>)
        ensures
            told(final(tape)@, r) == on_event_run(self, old(tape)@, e),
    {
        match e {
            Event::User(EventType::UserClientAdd, e) => self.on_client_add(tape, e),
            Event::User(EventType::UserConnection, e) => self.on_user_connection(tape, e),
            Event::Conv(EventType::ConvCreate, e) => self.on_conv_create(tape, e),
            Event::Conv(EventType::ConvMemberJoin, e) => self.on_member_join(tape, e),
            Event::Conv(EventType::ConvMessageAdd, e) => self.on_message_add(tape, e),
            _ => Ok(()),
        }
    }

    /// Does what the events of a notification call for, unless it was seen before.
    pub fn on_notification<'a>(&'a self, tape: &mut Tape<'a>, n: &'a Notification) -> (r: Result<
        (),
        Stop<'a>,
    >)
        ensures
            told(final(tape)@, r) == on_notification_run(self, old(tape)@, n),
    {
        let seen: &'a bool = tape.ask(
            Query::Db(self.state.user.dbase, Db::HasNotification(n.id)),
        )?;
        if *seen {
            return Ok(());
        }
        let ghost begun = tape@;
        let mut i: usize = 0;
        assert(n.events@.skip(0) =~= n.events@);
        while i < n.events.len()
            invariant
                i <= n.events.len(),
                on_events_run(self, tape@, n.events@.skip(i as int)) == on_events_run(
                    self,
                    begun,
                    n.events@,
                ),
                on_notification_run(self, old(tape)@, n) == on_events_run(
                    self,
                    begun,
                    n.events@,
                ).and_then(
                    |t: TapeView<'a>, _x: ()|
                        ask::<()>(t, QueryView::Db(self.db(), DbView::InsertNotification(n.id))),
                ),
            decreases n.events.len() - i,
        {
            assert(n.events@.skip(i as int).drop_first() =~= n.events@.skip(i + 1));
            self.on_event(tape, &n.events[i])?;
            i = i + 1;
        }
        tape.ask::<()>(Query::Db(self.state.user.dbase, Db::InsertNotification(n.id)))?;
        Ok(())
    }
}

} // verus!
