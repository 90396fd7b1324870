//! Outgoing messages: encrypting, queueing and sending them.
use crate::access::{call_is_steady, call_run, react_is_steady, react_run};
use crate::actor::{Actor, Online};
use crate::directory::{
    resolve_client_is_steady, resolve_client_run, resolve_conversation_is_steady,
    resolve_conversation_run,
};
use crate::model::{
    Client, ClientId, ClientMismatch, ClientPrekey, Complaint, ConvId, Conversation, Envelope,
    Error, Handle, NewSession, OutMessage, QueuePage, Reaction, Time, UserId, UserPrekeys,
    UserSessions, UserSessionsView,
};
use crate::query::{Api, ApiView, Code, Crypt, CryptView, Db, DbView, NewText, Query, QueryView};
use crate::tape::{
    ask, done, fail, grown, halt, steady, told, told_as, Run, Stop, StopView, Tape, TapeView,
};
use vstd::prelude::*;

verus! {

/// The number of times that sending a message is tried.
pub const SEND_ATTEMPTS: u64 = 3;

/// The seconds between those attempts.
pub const SEND_PAUSE: u64 = 3;

/// The number of items on a page of the queue.
pub const QUEUE_PAGE: usize = 10;

// ---- Encrypting -----------------------------------------------------------------------------

/// Encrypts for one device of a user, if there is a session with it.
pub open spec fn seal_run<'a>(
    a: &'a Actor<Online>,
    t: TapeView<'a>,
    user: UserId,
    client: Seq<char>,
    plain: &'a Vec<u8>,
    envelope: Envelope,
) -> Run<'a, ()> {
    let cbox = a.state.user.device.cbox;
    ask::<Option<Handle>>(t, QueryView::Crypt(cbox, CryptView::Session(user, client))).and_then(
        |t: TapeView<'a>, session: Option<Handle>|
            match session {
                Some(session) => ask::<()>(
                    t,
                    QueryView::Crypt(
                        cbox,
                        CryptView::Encrypt { session, user, client, plain, envelope },
                    ),
                ),
                None => done(t, ()),
            },
    )
}

/// Encrypts for the devices of a list, in order.
pub open spec fn seal_clients_run<'a>(
    a: &'a Actor<Online>,
    t: TapeView<'a>,
    user: UserId,
    clients: Seq<Client>,
    plain: &'a Vec<u8>,
    envelope: Envelope,
) -> Run<'a, ()>
    decreases clients.len(),
{
    if clients.len() == 0 {
        done(t, ())
    } else {
        seal_run(a, t, user, clients[0].id@, plain, envelope).and_then(
            |t: TapeView<'a>, _x: ()|
                seal_clients_run(a, t, user, clients.drop_first(), plain, envelope),
        )
    }
}

/// Encrypts for the stored devices of the users of a list, in order.
pub open spec fn seal_members_run<'a>(
    a: &'a Actor<Online>,
    t: TapeView<'a>,
    members: Seq<UserId>,
    plain: &'a Vec<u8>,
    envelope: Envelope,
) -> Run<'a, ()>
    decreases members.len(),
{
    if members.len() == 0 {
        done(t, ())
    } else {
        ask::<Vec<Client>>(t, QueryView::Db(a.db(), DbView::Clients(members[0]))).and_then(
            |t: TapeView<'a>, clients: Vec<Client>|
                seal_clients_run(a, t, members[0], clients@, plain, envelope).and_then(
                    |t: TapeView<'a>, _x: ()|
                        seal_members_run(a, t, members.drop_first(), plain, envelope),
                ),
        )
    }
}

/// Encrypts a message for the members of a conversation that was found.
pub open spec fn fill_envelope_run<'a>(
    a: &'a Actor<Online>,
    t: TapeView<'a>,
    conv: ConvId,
    members: Seq<UserId>,
    msg: &'a OutMessage,
) -> Run<'a, Envelope> {
    ask::<Handle>(t, QueryView::NewEnvelope(conv, a.state.user.device.client.id@)).and_then(
        |t: TapeView<'a>, record: Handle|
            ask::<Vec<u8>>(t, QueryView::Code(Code::EncodeMessage(msg))).and_then(
                |t: TapeView<'a>, plain: Vec<u8>|
                    seal_members_run(a, t, members, &plain, Envelope { conv, record }).and_then(
                        |t: TapeView<'a>, _x: ()| done(t, Envelope { conv, record }),
                    ),
            ),
    )
}

/// Encrypts a message for the members of a conversation.
pub open spec fn prepare_message_run<'a>(
    a: &'a Actor<Online>,
    t: TapeView<'a>,
    conv: ConvId,
    msg: &'a OutMessage,
) -> Run<'a, Envelope> {
    resolve_conversation_run(a, t, conv).and_then(
        |t: TapeView<'a>, found: Option<&'a Conversation>|
            match found {
                Some(c) => fill_envelope_run(a, t, conv, c.members@, msg),
                None => fail(t, Error::Message(Complaint::NoConversation)),
            },
    )
}

/// [`seal_run`] is steady.
pub proof fn seal_is_steady<'a>(
    a: &'a Actor<Online>,
    t: TapeView<'a>,
    u: TapeView<'a>,
    user: UserId,
    client: Seq<char>,
    plain: &'a Vec<u8>,
    envelope: Envelope,
)
    requires
        grown(t, u),
    ensures
        steady(
            t,
            u,
            seal_run(a, t, user, client, plain, envelope),
            seal_run(a, u, user, client, plain, envelope),
        ),
{
}

/// [`seal_clients_run`] is steady.
pub proof fn seal_clients_is_steady<'a>(
    a: &'a Actor<Online>,
    t: TapeView<'a>,
    u: TapeView<'a>,
    user: UserId,
    clients: Seq<Client>,
    plain: &'a Vec<u8>,
    envelope: Envelope,
)
    requires
        grown(t, u),
    ensures
        steady(
            t,
            u,
            seal_clients_run(a, t, user, clients, plain, envelope),
            seal_clients_run(a, u, user, clients, plain, envelope),
        ),
    decreases clients.len(),
{
    if clients.len() > 0 {
        let id = clients[0].id@;
        seal_is_steady(a, t, u, user, id, plain, envelope);
        let x = seal_run(a, t, user, id, plain, envelope);
        let y = seal_run(a, u, user, id, plain, envelope);
        let rest = clients.drop_first();
        seal_clients_is_steady(a, y.tape, y.tape, user, rest, plain, envelope);
        if x.out is Ok {
            seal_clients_is_steady(a, x.tape, y.tape, user, rest, plain, envelope);
        }
    }
}

/// [`seal_members_run`] is steady.
pub proof fn seal_members_is_steady<'a>(
    a: &'a Actor<Online>,
    t: TapeView<'a>,
    u: TapeView<'a>,
    members: Seq<UserId>,
    plain: &'a Vec<u8>,
    envelope: Envelope,
)
    requires
        grown(t, u),
    ensures
        steady(
            t,
            u,
            seal_members_run(a, t, members, plain, envelope),
            seal_members_run(a, u, members, plain, envelope),
        ),
    decreases members.len(),
{
    if members.len() > 0 {
        let q = QueryView::Db(a.db(), DbView::Clients(members[0]));
        let rest = members.drop_first();
        let x = ask::<Vec<Client>>(t, q);
        let y = ask::<Vec<Client>>(u, q);
        if let Ok(clients) = y.out {
            let y2 = seal_clients_run(a, y.tape, members[0], clients@, plain, envelope);
            seal_clients_is_steady(a, y.tape, y.tape, members[0], clients@, plain, envelope);
            seal_members_is_steady(a, y2.tape, y2.tape, rest, plain, envelope);
            if x.out is Ok {
                let x2 = seal_clients_run(a, x.tape, members[0], clients@, plain, envelope);
                seal_clients_is_steady(a, x.tape, y.tape, members[0], clients@, plain, envelope);
                if x2.out is Ok {
                    seal_members_is_steady(a, x2.tape, y2.tape, rest, plain, envelope);
                }
            }
        }
    }
}

/// [`fill_envelope_run`] is steady.
pub proof fn fill_envelope_is_steady<'a>(
    a: &'a Actor<Online>,
    t: TapeView<'a>,
    u: TapeView<'a>,
    conv: ConvId,
    members: Seq<UserId>,
    msg: &'a OutMessage,
)
    requires
        grown(t, u),
    ensures
        steady(
            t,
            u,
            fill_envelope_run(a, t, conv, members, msg),
            fill_envelope_run(a, u, conv, members, msg),
        ),
{
    let q = QueryView::NewEnvelope(conv, a.state.user.device.client.id@);
    let p = QueryView::Code(Code::EncodeMessage(msg));
    let x = ask::<Handle>(t, q);
    let y = ask::<Handle>(u, q);
    if let Ok(record) = y.out {
        let envelope = Envelope { conv, record };
        let y2 = ask::<Vec<u8>>(y.tape, p);
        if let Ok(plain) = y2.out {
            seal_members_is_steady(a, y2.tape, y2.tape, members, &plain, envelope);
            if x.out is Ok {
                let x2 = ask::<Vec<u8>>(x.tape, p);
                if x2.out is Ok {
                    seal_members_is_steady(a, x2.tape, y2.tape, members, &plain, envelope);
                }
            }
        }
    }
}

/// [`prepare_message_run`] is steady.
pub proof fn prepare_message_is_steady<'a>(
    a: &'a Actor<Online>,
    t: TapeView<'a>,
    u: TapeView<'a>,
    conv: ConvId,
    msg: &'a OutMessage,
)
    requires
        grown(t, u),
    ensures
        steady(t, u, prepare_message_run(a, t, conv, msg), prepare_message_run(a, u, conv, msg)),
{
    resolve_conversation_is_steady(a, t, u, conv);
    let x = resolve_conversation_run(a, t, conv);
    let y = resolve_conversation_run(a, u, conv);
    if let Ok(Some(c)) = y.out {
        fill_envelope_is_steady(a, y.tape, y.tape, conv, c.members@, msg);
        if x.out is Ok {
            fill_envelope_is_steady(a, x.tape, y.tape, conv, c.members@, msg);
        }
    }
}

impl Actor<Online> {
    fn seal_clients<'a>(
        &'a self,
        tape: &mut Tape<'a>,
        user: UserId,
        clients: &'a Vec<Client>,
        plain: &'a Vec<u8>,
        envelope: Envelope,
    ) -> (r: Result<(), Stop<'a>>)
        ensures
            told(final(tape)@, r) == seal_clients_run(
                self,
                old(tape)@,
                user,
                clients@,
                plain,
                envelope,
            ),
    {
        let cbox = self.state.user.device.cbox;
        let mut i: usize = 0;
        assert(clients@.skip(0) =~= clients@);
        while i < clients.len()
            invariant
                i <= clients.len(),
                cbox == self.state.user.device.cbox,
                seal_clients_run(self, tape@, user, clients@.skip(i as int), plain, envelope)
                    == seal_clients_run(self, old(tape)@, user, clients@, plain, envelope),
            decreases clients.len() - i,
        {
            assert(clients@.skip(i as int).drop_first() =~= clients@.skip(i + 1));
            let id: &'a ClientId = &clients[i].id;
            let session: &'a Option<Handle> = tape.ask(
                Query::Crypt(cbox, Crypt::Session(user, id.clone())),
            )?;
            if let Some(session) = session {
                tape.ask::<()>(
                    Query::Crypt(
                        cbox,
                        Crypt::Encrypt {
                            session: *session,
                            user,
                            client: id.clone(),
                            plain,
                            envelope,
                        },
                    ),
                )?;
            }
            i = i + 1;
        }
        Ok(())
    }

    fn seal_members<'a>(
        &'a self,
        tape: &mut Tape<'a>,
        members: &'a Vec<UserId>,
        plain: &'a Vec<u8>,
        envelope: Envelope,
    ) -> (r: Result<(), Stop<'a>>)
        ensures
            told(final(tape)@, r) == seal_members_run(self, old(tape)@, members@, plain, envelope),
    {
        let mut i: usize = 0;
        assert(members@.skip(0) =~= members@);
        while i < members.len()
            invariant
                i <= members.len(),
                seal_members_run(self, tape@, members@.skip(i as int), plain, envelope)
                    == seal_members_run(self, old(tape)@, members@, plain, envelope),
            decreases members.len() - i,
        {
            assert(members@.skip(i as int).drop_first() =~= members@.skip(i + 1));
            let m: UserId = members[i];
            let clients: &'a Vec<Client> = tape.ask(
                Query::Db(self.state.user.dbase, Db::Clients(m)),
            )?;
            self.seal_clients(tape, m, clients, plain, envelope)?;
            i = i + 1;
        }
        Ok(())
    }

    /// Encrypts a message for the members of a conversation.
    pub fn prepare_message<'a>(
        &'a self,
        tape: &mut Tape<'a>,
        conv: ConvId,
        msg: &'a OutMessage,
    ) -> (r: Result<Envelope, Stop<'a>>)
        ensures
            told(final(tape)@, r) == prepare_message_run(self, old(tape)@, conv, msg),
    {
        let found = self.resolve_conversation(tape, conv)?;
        match found {
            Some(c) => {
                let record: &'a Handle = tape.ask(
                    Query::NewEnvelope(conv, self.client().id.clone()),
                )?;
                let plain: &'a Vec<u8> = tape.ask(Query::Code(Code::EncodeMessage(msg)))?;
                let envelope = Envelope { conv, record: *record };
                self.seal_members(tape, &c.members, plain, envelope)?;
                Ok(envelope)
            },
            None => Err(Stop::Fail(Error::Message(Complaint::NoConversation))),
        }
    }
}

// ---- Keeping --------------------------------------------------------------------------------

/// Stores one of our own messages, as of now.
pub open spec fn store_message_run<'a>(
    a: &'a Actor<Online>,
    t: TapeView<'a>,
    conv: ConvId,
    msg: &'a OutMessage,
) -> Run<'a, ()> {
    ask::<Time>(t, QueryView::Now).and_then(
        |t: TapeView<'a>, time: Time|
            ask::<()>(
                t,
                QueryView::Db(
                    a.db(),
                    DbView::InsertText(
                        NewText {
                            id: &msg.id,
                            conv,
                            time,
                            from: a.me_id(),
                            client: &a.state.user.device.client.id,
                            text: &msg.text,
                            received: false,
                        },
                    ),
                ),
            ),
    )
}

/// Puts a message and its envelope into the queue.
pub open spec fn enqueue_run<'a>(
    a: &'a Actor<Online>,
    t: TapeView<'a>,
    id: &'a Vec<u8>,
    envelope: Envelope,
    msg: &'a OutMessage,
) -> Run<'a, ()> {
    ask::<Vec<u8>>(t, QueryView::Code(Code::EncodeMessage(msg))).and_then(
        |t: TapeView<'a>, mesg: Vec<u8>|
            ask::<Vec<u8>>(t, QueryView::Code(Code::EncodeEnvelope(envelope))).and_then(
                |t: TapeView<'a>, data: Vec<u8>|
                    ask::<()>(
                        t,
                        QueryView::Db(
                            a.db(),
                            DbView::Enqueue { id, conv: envelope.conv, data: &data, mesg: &mesg },
                        ),
                    ),
            ),
    )
}

/// Takes a message out of the queue.
pub open spec fn dequeue_run<'a>(
    a: &'a Actor<Online>,
    t: TapeView<'a>,
    id: &'a Vec<u8>,
    conv: ConvId,
) -> Run<'a, ()> {
    ask::<()>(t, QueryView::Db(a.db(), DbView::Dequeue(id, conv)))
}

/// Reads a page of the queue.
pub open spec fn queue_run<'a>(
    a: &'a Actor<Online>,
    t: TapeView<'a>,
    from: Option<Handle>,
    num: usize,
) -> Run<'a, QueuePage> {
    ask::<QueuePage>(t, QueryView::Db(a.db(), DbView::QueueItems(from, num)))
}

/// [`store_message_run`] is steady.
pub proof fn store_message_is_steady<'a>(
    a: &'a Actor<Online>,
    t: TapeView<'a>,
    u: TapeView<'a>,
    conv: ConvId,
    msg: &'a OutMessage,
)
    requires
        grown(t, u),
    ensures
        steady(t, u, store_message_run(a, t, conv, msg), store_message_run(a, u, conv, msg)),
{
}

/// [`enqueue_run`] is steady.
pub proof fn enqueue_is_steady<'a>(
    a: &'a Actor<Online>,
    t: TapeView<'a>,
    u: TapeView<'a>,
    id: &'a Vec<u8>,
    envelope: Envelope,
    msg: &'a OutMessage,
)
    requires
        grown(t, u),
    ensures
        steady(t, u, enqueue_run(a, t, id, envelope, msg), enqueue_run(a, u, id, envelope, msg)),
{
}

impl Actor<Online> {
    /// Stores a message of ours in the database.
    pub fn store_message<'a>(
        &'a self,
        tape: &mut Tape<'a>,
        conv: ConvId,
        msg: &'a OutMessage,
    ) -> (r: Result<(), Stop<'a>>)
        ensures
            told(final(tape)@, r) == store_message_run(self, old(tape)@, conv, msg),
    {
        let time: &'a Time = tape.ask(Query::Now)?;
        let new = NewText {
            id: &msg.id,
            conv,
            time: *time,
            from: self.me().id,
            client: &self.state.user.device.client.id,
            text: &msg.text,
            received: false,
        };
        tape.ask::<()>(Query::Db(self.state.user.dbase, Db::InsertText(new)))?;
        Ok(())
    }

    /// Puts a message and its envelope into the queue.
    pub fn enqueue<'a>(
        &'a self,
        tape: &mut Tape<'a>,
        id: &'a Vec<u8>,
        envelope: Envelope,
        msg: &'a OutMessage,
    ) -> (r: Result<(), Stop<'a>>)
        ensures
            told(final(tape)@, r) == enqueue_run(self, old(tape)@, id, envelope, msg),
    {
        let mesg: &'a Vec<u8> = tape.ask(Query::Code(Code::EncodeMessage(msg)))?;
        let data: &'a Vec<u8> = tape.ask(Query::Code(Code::EncodeEnvelope(envelope)))?;
        tape.ask::<()>(
            Query::Db(
                self.state.user.dbase,
                Db::Enqueue { id, conv: envelope.conv, data, mesg },
            ),
        )?;
        Ok(())
    }

    /// Takes a message out of the queue.
    pub fn dequeue<'a>(&'a self, tape: &mut Tape<'a>, id: &'a Vec<u8>, conv: ConvId) -> (r: Result<
        (),
        Stop<'a>,
    >)
        ensures
            told(final(tape)@, r) == dequeue_run(self, old(tape)@, id, conv),
    {
        tape.ask::<()>(Query::Db(self.state.user.dbase, Db::Dequeue(id, conv)))?;
        Ok(())
    }

    /// Reads a page of the queue.
    pub fn queue<'a>(&'a self, tape: &mut Tape<'a>, from: Option<Handle>, num: usize) -> (r: Result<
        &'a QueuePage,
        Stop<'a>,
    >)
        ensures
            told_as(final(tape)@, r, |x: &'a QueuePage| *x) == queue_run(
                self,
                old(tape)@,
                from,
                num,
            ),
    {
        tape.ask(Query::Db(self.state.user.dbase, Db::QueueItems(from, num)))
    }
}

// ---- Sending --------------------------------------------------------------------------------

/// What the next attempt at sending begins with.
#[derive(Clone, Copy)]
pub enum Remedy<'a> {
    React(Reaction),
    /// Encrypt for the devices that were left out.
    Include(&'a ClientMismatch),
}

/// What a failed attempt at sending calls for; `None` if there is no point in another one.
pub open spec fn remedy<'a>(e: Error<'a>) -> Option<Remedy<'a>> {
    match e {
        Error::Failed(f) => if f.unauthorised {
            Some(Remedy::React(Reaction::Renew))
        } else if f.retriable {
            Some(Remedy::React(Reaction::Retry))
        } else {
            match f.mismatch {
                Some(m) => Some(Remedy::Include(&m)),
                None => None,
            }
        },
        _ => None,
    }
}

/// Finds out what a failed attempt at sending calls for.
pub fn on_error<'a>(e: Error<'a>) -> (r: Option<Remedy<'a>>)
    ensures
        r == remedy(e),
{
    match e {
        Error::Failed(f) => {
            if f.unauthorised {
                Some(Remedy::React(Reaction::Renew))
            } else if f.retriable {
                Some(Remedy::React(Reaction::Retry))
            } else {
                match &f.mismatch {
                    Some(m) => Some(Remedy::Include(m)),
                    None => None,
                }
            }
        },
        _ => None,
    }
}

/// Takes in a device that was left out: resolves it, and starts a session if it has a prekey left.
/// `made` are the sessions that were started already.
pub open spec fn include_run<'a>(
    a: &'a Actor<Online>,
    t: TapeView<'a>,
    user: UserId,
    c: &'a ClientPrekey,
    made: Seq<NewSession<'a>>,
) -> Run<'a, Seq<NewSession<'a>>> {
    resolve_client_run(a, t, user, c.client@).and_then(
        |t: TapeView<'a>, _c: Option<&'a Client>|
            match c.key {
                Some(key) => ask::<Handle>(
                    t,
                    QueryView::Crypt(
                        a.state.user.device.cbox,
                        CryptView::SessionFromPrekey(user, c.client@, key),
                    ),
                ).and_then(
                    |t: TapeView<'a>, session: Handle|
                        done(t, made.push(NewSession { client: &c.client, session })),
                ),
                None => done(t, made),
            },
    )
}

/// Takes in devices of one user, in order.
pub open spec fn include_clients_run<'a>(
    a: &'a Actor<Online>,
    t: TapeView<'a>,
    user: UserId,
    cs: Seq<ClientPrekey>,
    made: Seq<NewSession<'a>>,
) -> Run<'a, Seq<NewSession<'a>>>
    decreases cs.len(),
{
    if cs.len() == 0 {
        done(t, made)
    } else {
        include_run(a, t, user, &cs[0], made).and_then(
            |t: TapeView<'a>, made: Seq<NewSession<'a>>|
                include_clients_run(a, t, user, cs.drop_first(), made),
        )
    }
}

/// Takes in devices of several users, in order. `made` are the sessions that were started already,
/// user by user.
pub open spec fn include_users_run<'a>(
    a: &'a Actor<Online>,
    t: TapeView<'a>,
    users: Seq<UserPrekeys>,
    made: Seq<UserSessionsView<'a>>,
) -> Run<'a, Seq<UserSessionsView<'a>>>
    decreases users.len(),
{
    if users.len() == 0 {
        done(t, made)
    } else {
        include_clients_run(a, t, users[0].user, users[0].clients@, Seq::empty()).and_then(
            |t: TapeView<'a>, sessions: Seq<NewSession<'a>>|
                include_users_run(
                    a,
                    t,
                    users.drop_first(),
                    made.push(UserSessionsView { user: users[0].user, sessions }),
                ),
        )
    }
}

/// Fetches prekeys for the devices that were left out, and starts sessions with them.
pub open spec fn on_mismatch_run<'a>(
    a: &'a Actor<Online>,
    t: TapeView<'a>,
    m: &'a ClientMismatch,
) -> Run<'a, Seq<UserSessionsView<'a>>> {
    call_run::<Vec<UserPrekeys>>(a, t, ApiView::Prekeys(m)).and_then(
        |t: TapeView<'a>, users: Vec<UserPrekeys>|
            include_users_run(a, t, users@, Seq::empty()),
    )
}

/// Sessions, user by user.
pub open spec fn by_user<'a>(us: Seq<UserSessions<'a>>) -> Seq<UserSessionsView<'a>> {
    us.map_values(|u: UserSessions<'a>| u@)
}

/// Encrypts for devices of one user, in order.
pub open spec fn seal_sessions_run<'a>(
    a: &'a Actor<Online>,
    t: TapeView<'a>,
    user: UserId,
    ss: Seq<NewSession<'a>>,
    plain: &'a Vec<u8>,
    envelope: Envelope,
) -> Run<'a, ()>
    decreases ss.len(),
{
    if ss.len() == 0 {
        done(t, ())
    } else {
        ask::<()>(
            t,
            QueryView::Crypt(
                a.state.user.device.cbox,
                CryptView::Encrypt {
                    session: ss[0].session,
                    user,
                    client: ss[0].client@,
                    plain,
                    envelope,
                },
            ),
        ).and_then(
            |t: TapeView<'a>, _x: ()|
                seal_sessions_run(a, t, user, ss.drop_first(), plain, envelope),
        )
    }
}

/// Encrypts for devices of several users, in order.
pub open spec fn seal_for_run<'a>(
    a: &'a Actor<Online>,
    t: TapeView<'a>,
    us: Seq<UserSessionsView<'a>>,
    plain: &'a Vec<u8>,
    envelope: Envelope,
) -> Run<'a, ()>
    decreases us.len(),
{
    if us.len() == 0 {
        done(t, ())
    } else {
        seal_sessions_run(a, t, us[0].user, us[0].sessions, plain, envelope).and_then(
            |t: TapeView<'a>, _x: ()| seal_for_run(a, t, us.drop_first(), plain, envelope),
        )
    }
}

/// Begins an attempt at sending.
pub open spec fn begin_send_run<'a>(
    a: &'a Actor<Online>,
    t: TapeView<'a>,
    how: Option<Remedy<'a>>,
    plain: &'a Vec<u8>,
    envelope: Envelope,
) -> Run<'a, ()> {
    match how {
        Some(Remedy::Include(m)) => on_mismatch_run(a, t, m).and_then(
            |t: TapeView<'a>, us: Seq<UserSessionsView<'a>>|
                seal_for_run(a, t, us, plain, envelope),
        ),
        Some(Remedy::React(r)) => react_run(a, t, Some(r)),
        None => done(t, ()),
    }
}

/// One attempt at sending.
pub open spec fn send_attempt_run<'a>(
    a: &'a Actor<Online>,
    t: TapeView<'a>,
    how: Option<Remedy<'a>>,
    plain: &'a Vec<u8>,
    envelope: Envelope,
) -> Run<'a, Time> {
    begin_send_run(a, t, how, plain, envelope).and_then(
        |t: TapeView<'a>, _x: ()| ask::<Time>(t, QueryView::Api(a.link(), ApiView::Send(envelope))),
    )
}

/// What becomes of an attempt at sending, after `n` that failed: the result, or what the next
/// attempt begins with.
pub open spec fn judge<'a>(x: Run<'a, Time>, n: nat) -> Run<'a, Result<Time, Remedy<'a>>> {
    match x.out {
        Ok(time) => done(x.tape, Ok(time)),
        Err(StopView::Fail(e)) => match remedy(e) {
            Some(how) => ask::<bool>(
                x.tape,
                QueryView::TryAgain {
                    error: e,
                    failed: n,
                    limit: SEND_ATTEMPTS,
                    pause: SEND_PAUSE,
                },
            ).and_then(
                |t: TapeView<'a>, again: bool|
                    if again {
                        done(t, Err(how))
                    } else {
                        fail(t, e)
                    },
            ),
            None => fail(x.tape, e),
        },
        Err(s) => halt(x.tape, s),
    }
}

/// Sends an envelope, after `n` attempts that failed.
pub open spec fn deliver_from_run<'a>(
    a: &'a Actor<Online>,
    t: TapeView<'a>,
    how: Option<Remedy<'a>>,
    n: nat,
    plain: &'a Vec<u8>,
    envelope: Envelope,
) -> Run<'a, Time>
    decreases t.log.len() - t.at,
{
    let x = judge(send_attempt_run(a, t, how, plain, envelope), n);
    match x.out {
        Ok(Ok(time)) => done(x.tape, time),
        Ok(Err(next)) => {
            proof {
                send_attempt_is_steady(a, t, t, how, plain, envelope);
                let y = send_attempt_run(a, t, how, plain, envelope);
                judge_is_steady(t, t, y, y, n);
            }
            deliver_from_run(a, x.tape, Some(next), n + 1, plain, envelope)
        },
        Err(s) => halt(x.tape, s),
    }
}

/// Records that a message was sent.
pub open spec fn record_sent_run<'a>(
    a: &'a Actor<Online>,
    t: TapeView<'a>,
    conv: ConvId,
    id: &'a String,
    time: Time,
) -> Run<'a, Time> {
    ask::<()>(t, QueryView::Db(a.db(), DbView::MessageSent(conv, id))).and_then(
        |t: TapeView<'a>, _x: ()|
            ask::<()>(t, QueryView::Db(a.db(), DbView::MessageTime(conv, id, time))).and_then(
                |t: TapeView<'a>, _x: ()|
                    ask::<()>(t, QueryView::Db(a.db(), DbView::ConvTime(conv, time.secs))).and_then(
                        |t: TapeView<'a>, _x: ()| done(t, time),
                    ),
            ),
    )
}

/// Sends an envelope, and records that and when its message was sent.
pub open spec fn deliver_and_record_run<'a>(
    a: &'a Actor<Online>,
    t: TapeView<'a>,
    plain: &'a Vec<u8>,
    envelope: Envelope,
    msg: &'a OutMessage,
) -> Run<'a, Time> {
    deliver_from_run(a, t, None, 0, plain, envelope).and_then(
        |t: TapeView<'a>, time: Time| record_sent_run(a, t, envelope.conv, &msg.id, time),
    )
}

/// Sends a message, and records that and when it was sent.
pub open spec fn send_message_run<'a>(
    a: &'a Actor<Online>,
    t: TapeView<'a>,
    envelope: Envelope,
    msg: &'a OutMessage,
) -> Run<'a, Time> {
    ask::<Vec<u8>>(t, QueryView::Code(Code::EncodeMessage(msg))).and_then(
        |t: TapeView<'a>, plain: Vec<u8>| deliver_and_record_run(a, t, &plain, envelope, msg),
    )
}

/// [`include_run`] is steady.
pub proof fn include_is_steady<'a>(
    a: &'a Actor<Online>,
    t: TapeView<'a>,
    u: TapeView<'a>,
    user: UserId,
    c: &'a ClientPrekey,
    made: Seq<NewSession<'a>>,
)
    requires
        grown(t, u),
    ensures
        steady(t, u, include_run(a, t, user, c, made), include_run(a, u, user, c, made)),
{
    resolve_client_is_steady(a, t, u, user, c.client@);
}

/// [`include_clients_run`] is steady.
pub proof fn include_clients_is_steady<'a>(
    a: &'a Actor<Online>,
    t: TapeView<'a>,
    u: TapeView<'a>,
    user: UserId,
    cs: Seq<ClientPrekey>,
    made: Seq<NewSession<'a>>,
)
    requires
        grown(t, u),
    ensures
        steady(
            t,
            u,
            include_clients_run(a, t, user, cs, made),
            include_clients_run(a, u, user, cs, made),
        ),
    decreases cs.len(),
{
    if cs.len() > 0 {
        include_is_steady(a, t, u, user, &cs[0], made);
        let x = include_run(a, t, user, &cs[0], made);
        let y = include_run(a, u, user, &cs[0], made);
        if let Ok(made) = y.out {
            include_clients_is_steady(a, y.tape, y.tape, user, cs.drop_first(), made);
            if x.out is Ok {
                include_clients_is_steady(a, x.tape, y.tape, user, cs.drop_first(), made);
            }
        }
    }
}

/// [`include_users_run`] is steady.
pub proof fn include_users_is_steady<'a>(
    a: &'a Actor<Online>,
    t: TapeView<'a>,
    u: TapeView<'a>,
    users: Seq<UserPrekeys>,
    made: Seq<UserSessionsView<'a>>,
)
    requires
        grown(t, u),
    ensures
        steady(t, u, include_users_run(a, t, users, made), include_users_run(a, u, users, made)),
    decreases users.len(),
{
    if users.len() > 0 {
        let user = users[0].user;
        let cs = users[0].clients@;
        include_clients_is_steady(a, t, u, user, cs, Seq::empty());
        let x = include_clients_run(a, t, user, cs, Seq::empty());
        let y = include_clients_run(a, u, user, cs, Seq::empty());
        if let Ok(sessions) = y.out {
            let made = made.push(UserSessionsView { user, sessions });
            include_users_is_steady(a, y.tape, y.tape, users.drop_first(), made);
            if x.out is Ok {
                include_users_is_steady(a, x.tape, y.tape, users.drop_first(), made);
            }
        }
    }
}

/// [`on_mismatch_run`] is steady.
pub proof fn on_mismatch_is_steady<'a>(
    a: &'a Actor<Online>,
    t: TapeView<'a>,
    u: TapeView<'a>,
    m: &'a ClientMismatch,
)
    requires
        grown(t, u),
    ensures
        steady(t, u, on_mismatch_run(a, t, m), on_mismatch_run(a, u, m)),
{
    call_is_steady::<Vec<UserPrekeys>>(a, t, u, ApiView::Prekeys(m));
    let x = call_run::<Vec<UserPrekeys>>(a, t, ApiView::Prekeys(m));
    let y = call_run::<Vec<UserPrekeys>>(a, u, ApiView::Prekeys(m));
    if let Ok(users) = y.out {
        include_users_is_steady(a, y.tape, y.tape, users@, Seq::empty());
        if x.out is Ok {
            include_users_is_steady(a, x.tape, y.tape, users@, Seq::empty());
        }
    }
}

/// [`seal_sessions_run`] is steady.
pub proof fn seal_sessions_is_steady<'a>(
    a: &'a Actor<Online>,
    t: TapeView<'a>,
    u: TapeView<'a>,
    user: UserId,
    ss: Seq<NewSession<'a>>,
    plain: &'a Vec<u8>,
    envelope: Envelope,
)
    requires
        grown(t, u),
    ensures
        steady(
            t,
            u,
            seal_sessions_run(a, t, user, ss, plain, envelope),
            seal_sessions_run(a, u, user, ss, plain, envelope),
        ),
    decreases ss.len(),
{
    if ss.len() > 0 {
        let q = QueryView::Crypt(
            a.state.user.device.cbox,
            CryptView::Encrypt {
                session: ss[0].session,
                user,
                client: ss[0].client@,
                plain,
                envelope,
            },
        );
        let x = ask::<()>(t, q);
        let y = ask::<()>(u, q);
        seal_sessions_is_steady(a, y.tape, y.tape, user, ss.drop_first(), plain, envelope);
        if x.out is Ok {
            seal_sessions_is_steady(a, x.tape, y.tape, user, ss.drop_first(), plain, envelope);
        }
    }
}

/// [`seal_for_run`] is steady.
pub proof fn seal_for_is_steady<'a>(
    a: &'a Actor<Online>,
    t: TapeView<'a>,
    u: TapeView<'a>,
    us: Seq<UserSessionsView<'a>>,
    plain: &'a Vec<u8>,
    envelope: Envelope,
)
    requires
        grown(t, u),
    ensures
        steady(
            t,
            u,
            seal_for_run(a, t, us, plain, envelope),
            seal_for_run(a, u, us, plain, envelope),
        ),
    decreases us.len(),
{
    if us.len() > 0 {
        let (user, ss) = (us[0].user, us[0].sessions);
        seal_sessions_is_steady(a, t, u, user, ss, plain, envelope);
        let x = seal_sessions_run(a, t, user, ss, plain, envelope);
        let y = seal_sessions_run(a, u, user, ss, plain, envelope);
        seal_for_is_steady(a, y.tape, y.tape, us.drop_first(), plain, envelope);
        if x.out is Ok {
            seal_for_is_steady(a, x.tape, y.tape, us.drop_first(), plain, envelope);
        }
    }
}

/// [`begin_send_run`] is steady.
pub proof fn begin_send_is_steady<'a>(
    a: &'a Actor<Online>,
    t: TapeView<'a>,
    u: TapeView<'a>,
    how: Option<Remedy<'a>>,
    plain: &'a Vec<u8>,
    envelope: Envelope,
)
    requires
        grown(t, u),
    ensures
        steady(
            t,
            u,
            begin_send_run(a, t, how, plain, envelope),
            begin_send_run(a, u, how, plain, envelope),
        ),
{
    match how {
        Some(Remedy::Include(m)) => {
            on_mismatch_is_steady(a, t, u, m);
            let x = on_mismatch_run(a, t, m);
            let y = on_mismatch_run(a, u, m);
            if let Ok(us) = y.out {
                seal_for_is_steady(a, y.tape, y.tape, us, plain, envelope);
                if x.out is Ok {
                    seal_for_is_steady(a, x.tape, y.tape, us, plain, envelope);
                }
            }
        },
        Some(Remedy::React(r)) => {
            react_is_steady(a, t, u, Some(r));
        },
        None => {},
    }
}

/// [`send_attempt_run`] is steady.
pub proof fn send_attempt_is_steady<'a>(
    a: &'a Actor<Online>,
    t: TapeView<'a>,
    u: TapeView<'a>,
    how: Option<Remedy<'a>>,
    plain: &'a Vec<u8>,
    envelope: Envelope,
)
    requires
        grown(t, u),
    ensures
        steady(
            t,
            u,
            send_attempt_run(a, t, how, plain, envelope),
            send_attempt_run(a, u, how, plain, envelope),
        ),
{
    begin_send_is_steady(a, t, u, how, plain, envelope);
}

/// What becomes of a steady attempt at sending is steady; and where there is to be another attempt,
/// an answer was read.
pub proof fn judge_is_steady<'a>(
    t: TapeView<'a>,
    u: TapeView<'a>,
    x: Run<'a, Time>,
    y: Run<'a, Time>,
    n: nat,
)
    requires
        steady(t, u, x, y),
    ensures
        steady(t, u, judge(x, n), judge(y, n)),
        judge(x, n).out matches Ok(Err(_)) ==> t.at < judge(x, n).tape.at <= t.log.len(),
{
}

/// [`deliver_from_run`] is steady.
pub proof fn deliver_from_is_steady<'a>(
    a: &'a Actor<Online>,
    t: TapeView<'a>,
    u: TapeView<'a>,
    how: Option<Remedy<'a>>,
    n: nat,
    plain: &'a Vec<u8>,
    envelope: Envelope,
)
    requires
        grown(t, u),
    ensures
        steady(
            t,
            u,
            deliver_from_run(a, t, how, n, plain, envelope),
            deliver_from_run(a, u, how, n, plain, envelope),
        ),
    decreases u.log.len() - u.at,
{
    send_attempt_is_steady(a, t, u, how, plain, envelope);
    let x0 = send_attempt_run(a, t, how, plain, envelope);
    let y0 = send_attempt_run(a, u, how, plain, envelope);
    judge_is_steady(t, u, x0, y0, n);
    judge_is_steady(u, u, y0, y0, n);
    let x = judge(x0, n);
    let y = judge(y0, n);
    if let Ok(Err(how)) = y.out {
        if x.out is Ok {
            deliver_from_is_steady(a, x.tape, y.tape, Some(how), n + 1, plain, envelope);
        } else {
            deliver_from_is_steady(a, y.tape, y.tape, Some(how), n + 1, plain, envelope);
        }
    }
}

/// [`record_sent_run`] is steady.
pub proof fn record_sent_is_steady<'a>(
    a: &'a Actor<Online>,
    t: TapeView<'a>,
    u: TapeView<'a>,
    conv: ConvId,
    id: &'a String,
    time: Time,
)
    requires
        grown(t, u),
    ensures
        steady(t, u, record_sent_run(a, t, conv, id, time), record_sent_run(a, u, conv, id, time)),
{
}

/// [`deliver_and_record_run`] is steady.
pub proof fn deliver_and_record_is_steady<'a>(
    a: &'a Actor<Online>,
    t: TapeView<'a>,
    u: TapeView<'a>,
    plain: &'a Vec<u8>,
    envelope: Envelope,
    msg: &'a OutMessage,
)
    requires
        grown(t, u),
    ensures
        steady(
            t,
            u,
            deliver_and_record_run(a, t, plain, envelope, msg),
            deliver_and_record_run(a, u, plain, envelope, msg),
        ),
{
    deliver_from_is_steady(a, t, u, None, 0, plain, envelope);
    let x = deliver_from_run(a, t, None, 0, plain, envelope);
    let y = deliver_from_run(a, u, None, 0, plain, envelope);
    if let Ok(time) = y.out {
        record_sent_is_steady(a, y.tape, y.tape, envelope.conv, &msg.id, time);
        if x.out is Ok {
            record_sent_is_steady(a, x.tape, y.tape, envelope.conv, &msg.id, time);
        }
    }
}

/// [`send_message_run`] is steady.
pub proof fn send_message_is_steady<'a>(
    a: &'a Actor<Online>,
    t: TapeView<'a>,
    u: TapeView<'a>,
    envelope: Envelope,
    msg: &'a OutMessage,
)
    requires
        grown(t, u),
    ensures
        steady(t, u, send_message_run(a, t, envelope, msg), send_message_run(a, u, envelope, msg)),
{
    let q = QueryView::Code(Code::EncodeMessage(msg));
    let x = ask::<Vec<u8>>(t, q);
    let y = ask::<Vec<u8>>(u, q);
    if let Ok(plain) = y.out {
        deliver_and_record_is_steady(a, y.tape, y.tape, &plain, envelope, msg);
        if x.out is Ok {
            deliver_and_record_is_steady(a, x.tape, y.tape, &plain, envelope, msg);
        }
    }
}

impl Actor<Online> {
    fn include_clients<'a>(
        &'a self,
        tape: &mut Tape<'a>,
        user: UserId,
        cs: &'a Vec<ClientPrekey>,
    ) -> (r: Result<Vec<NewSession<'a>>, Stop<'a>>)
        ensures
            told_as(final(tape)@, r, |x: Vec<NewSession<'a>>| x@) == include_clients_run(
                self,
                old(tape)@,
                user,
                cs@,
                Seq::empty(),
            ),
    {
        let mut made: Vec<NewSession<'a>> = Vec::new();
        let mut i: usize = 0;
        assert(cs@.skip(0) =~= cs@);
        while i < cs.len()
            invariant
                i <= cs.len(),
                include_clients_run(self, tape@, user, cs@.skip(i as int), made@)
                    == include_clients_run(self, old(tape)@, user, cs@, Seq::empty()),
            decreases cs.len() - i,
        {
            assert(cs@.skip(i as int).drop_first() =~= cs@.skip(i + 1));
            let c: &'a ClientPrekey = &cs[i];
            self.resolve_client(tape, user, &c.client)?;
            if let Some(key) = c.key {
                let session: &'a Handle = tape.ask(
                    Query::Crypt(
                        self.state.user.device.cbox,
                        Crypt::SessionFromPrekey(user, c.client.clone(), key),
                    ),
                )?;
                made.push(NewSession { client: &c.client, session: *session });
            }
            i = i + 1;
        }
        Ok(made)
    }

    /// Starts sessions with the devices that were left out: one entry for each user, in order.
    pub fn on_mismatch<'a>(&'a self, tape: &mut Tape<'a>, m: &'a ClientMismatch) -> (r: Result<
        Vec<UserSessions<'a>>,
        Stop<'a>,
    >)
        ensures
            told_as(final(tape)@, r, |x: Vec<UserSessions<'a>>| by_user(x@)) == on_mismatch_run(
                self,
                old(tape)@,
                m,
            ),
    {
        let users: &'a Vec<UserPrekeys> = self.call(tape, Api::Prekeys(m))?;
        let mut made: Vec<UserSessions<'a>> = Vec::new();
        let mut i: usize = 0;
        assert(users@.skip(0) =~= users@);
        assert(by_user(made@) =~= Seq::empty());
        while i < users.len()
            invariant
                i <= users.len(),
                include_users_run(self, tape@, users@.skip(i as int), by_user(made@))
                    == on_mismatch_run(self, old(tape)@, m),
            decreases users.len() - i,
        {
            assert(users@.skip(i as int).drop_first() =~= users@.skip(i + 1));
            let user: UserId = users[i].user;
            let sessions = self.include_clients(tape, user, &users[i].clients)?;
            let next = UserSessions { user, sessions };
            assert(by_user(made@.push(next)) =~= by_user(made@).push(next@));
            made.push(next);
            i = i + 1;
        }
        Ok(made)
    }

    fn seal_sessions<'a>(
        &'a self,
        tape: &mut Tape<'a>,
        user: UserId,
        ss: &Vec<NewSession<'a>>,
        plain: &'a Vec<u8>,
        envelope: Envelope,
    ) -> (r: Result<(), Stop<'a>>)
        ensures
            told(final(tape)@, r) == seal_sessions_run(
                self,
                old(tape)@,
                user,
                ss@,
                plain,
                envelope,
            ),
    {
        let mut i: usize = 0;
        assert(ss@.skip(0) =~= ss@);
        while i < ss.len()
            invariant
                i <= ss.len(),
                seal_sessions_run(self, tape@, user, ss@.skip(i as int), plain, envelope)
                    == seal_sessions_run(self, old(tape)@, user, ss@, plain, envelope),
            decreases ss.len() - i,
        {
            assert(ss@.skip(i as int).drop_first() =~= ss@.skip(i + 1));
            tape.ask::<()>(
                Query::Crypt(
                    self.state.user.device.cbox,
                    Crypt::Encrypt {
                        session: ss[i].session,
                        user,
                        client: ss[i].client.clone(),
                        plain,
                        envelope,
                    },
                ),
            )?;
            i = i + 1;
        }
        Ok(())
    }

    fn seal_for<'a>(
        &'a self,
        tape: &mut Tape<'a>,
        us: &Vec<UserSessions<'a>>,
        plain: &'a Vec<u8>,
        envelope: Envelope,
    ) -> (r: Result<(), Stop<'a>>)
        ensures
            told(final(tape)@, r) == seal_for_run(self, old(tape)@, by_user(us@), plain, envelope),
    {
        let ghost all = by_user(us@);
        let mut i: usize = 0;
        assert(all.skip(0) =~= all);
        while i < us.len()
            invariant
                i <= us.len(),
                all == by_user(us@),
                seal_for_run(self, tape@, all.skip(i as int), plain, envelope) == seal_for_run(
                    self,
                    old(tape)@,
                    all,
                    plain,
                    envelope,
                ),
            decreases us.len() - i,
        {
            assert(all.skip(i as int).drop_first() =~= all.skip(i + 1));
            assert(all.skip(i as int)[0] == us@[i as int]@);
            self.seal_sessions(tape, us[i].user, &us[i].sessions, plain, envelope)?;
            i = i + 1;
        }
        Ok(())
    }

    fn send_attempt<'a>(
        &'a self,
        tape: &mut Tape<'a>,
        how: Option<Remedy<'a>>,
        plain: &'a Vec<u8>,
        envelope: Envelope,
    ) -> (r: Result<Time, Stop<'a>>)
        ensures
            told(final(tape)@, r) == send_attempt_run(self, old(tape)@, how, plain, envelope),
    {
        match how {
            Some(Remedy::Include(m)) => {
                let us = self.on_mismatch(tape, m)?;
                self.seal_for(tape, &us, plain, envelope)?;
            },
            Some(Remedy::React(r)) => {
                self.react(tape, Some(r))?;
            },
            None => {},
        }
        let time: &'a Time = tape.ask(Query::Api(self.get_link(), Api::Send(envelope)))?;
        Ok(*time)
    }

    fn deliver<'a>(&'a self, tape: &mut Tape<'a>, plain: &'a Vec<u8>, envelope: Envelope) -> (res:
        Result<Time, Stop<'a>>)
        ensures
            told(final(tape)@, res) == deliver_from_run(self, old(tape)@, None, 0, plain, envelope),
    {
        let mut how: Option<Remedy<'a>> = None;
        let mut n: u64 = 0;
        loop
            invariant
                n <= tape@.at,
                deliver_from_run(self, tape@, how, n as nat, plain, envelope) == deliver_from_run(
                    self,
                    old(tape)@,
                    None,
                    0,
                    plain,
                    envelope,
                ),
            decreases tape@.log.len() - tape@.at,
        {
            proof {
                send_attempt_is_steady(self, tape@, tape@, how, plain, envelope);
                let x = send_attempt_run(self, tape@, how, plain, envelope);
                judge_is_steady(tape@, tape@, x, x, n as nat);
            }
            let x = self.send_attempt(tape, how, plain, envelope);
            match judged(tape, x, n)? {
                Ok(time) => {
                    return Ok(time);
                },
                Err(next) => {
                    proof {
                        tape.is_short();
                    }
                    how = Some(next);
                    n = n + 1;
                },
            }
        }
    }

    /// Sends a message to some conversation, and records that and when it was sent.
    pub fn send_message<'a>(
        &'a self,
        tape: &mut Tape<'a>,
        envelope: Envelope,
        msg: &'a OutMessage,
    ) -> (r: Result<Time, Stop<'a>>)
        ensures
            told(final(tape)@, r) == send_message_run(self, old(tape)@, envelope, msg),
    {
        let plain: &'a Vec<u8> = tape.ask(Query::Code(Code::EncodeMessage(msg)))?;
        let time = self.deliver(tape, plain, envelope)?;
        let db = self.state.user.dbase;
        tape.ask::<()>(Query::Db(db, Db::MessageSent(envelope.conv, &msg.id)))?;
        tape.ask::<()>(Query::Db(db, Db::MessageTime(envelope.conv, &msg.id, time)))?;
        tape.ask::<()>(Query::Db(db, Db::ConvTime(envelope.conv, time.timestamp())))?;
        Ok(time)
    }
}

/// Finds out what becomes of an attempt at sending, after `n` that failed.
fn judged<'a>(tape: &mut Tape<'a>, x: Result<Time, Stop<'a>>, n: u64) -> (res: Result<
    Result<Time, Remedy<'a>>,
    Stop<'a>,
>)
    ensures
        told(final(tape)@, res) == judge(told(old(tape)@, x), n as nat),
{
    match x {
        Ok(time) => Ok(Ok(time)),
        Err(Stop::Fail(e)) => match on_error(e) {
            Some(how) => {
                let again: &'a bool = tape.ask(
                    Query::TryAgain { error: e, failed: n, limit: SEND_ATTEMPTS, pause: SEND_PAUSE },
                )?;
                if *again {
                    Ok(Err(how))
                } else {
                    Err(Stop::Fail(e))
                }
            },
            None => Err(Stop::Fail(e)),
        },
        Err(s) => Err(s),
    }
}

} // verus!
