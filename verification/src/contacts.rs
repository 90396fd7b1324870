//! Connections to other users, and conversations that we start.
use crate::access::{call_is_steady, call_run};
use crate::actor::{Actor, Online};
use crate::directory::{keep_conversation_is_steady, keep_conversation_run};
use crate::model::{ConnectStatus, Connection, ConvId, Conversation, User, UserConnection, UserId};
use crate::query::{Api, ApiView, Convert, Db, DbView, Query, QueryView, Roster};
use crate::tape::{ask, done, grown, halt, steady, told, Run, Stop, StopView, Tape, TapeView};
use vstd::prelude::*;

verus! {

/// Fetches a connection from the back-end and stores it.
pub open spec fn fetch_connection_run<'a>(a: &'a Actor<Online>, t: TapeView<'a>, to: UserId) -> Run<
    'a,
    Option<Connection>,
> {
    call_run::<Option<UserConnection>>(a, t, ApiView::Connection(to)).and_then(
        |t: TapeView<'a>, found: Option<UserConnection>|
            match found {
                Some(c) => ask::<()>(
                    t,
                    QueryView::Db(a.db(), DbView::InsertConnection(&c)),
                ).and_then(
                    |t: TapeView<'a>, _x: ()|
                        ask::<Connection>(t, QueryView::Convert(Convert::Connection(&c))).and_then(
                            |t: TapeView<'a>, kept: Connection| done(t, Some(kept)),
                        ),
                ),
                None => done(t, None),
            },
    )
}

/// Finds the connection to a user: the stored one if there is one, else the back-end's.
pub open spec fn resolve_connection_run<'a>(
    a: &'a Actor<Online>,
    t: TapeView<'a>,
    to: UserId,
) -> Run<'a, Option<Connection>> {
    ask::<Option<Connection>>(t, QueryView::Db(a.db(), DbView::Connection(to))).and_then(
        |t: TapeView<'a>, found: Option<Connection>|
            match found {
                Some(c) => done(t, Some(c)),
                None => fetch_connection_run(a, t, to),
            },
    )
}

/// Connects to a user: at the back-end first, then in the database, whose record is the result.
pub open spec fn new_connection_run<'a>(
    a: &'a Actor<Online>,
    t: TapeView<'a>,
    to: UserId,
    name: &'a str,
    message: &'a str,
) -> Run<'a, Connection> {
    call_run::<UserConnection>(a, t, ApiView::Connect { to, name, message }).and_then(
        |t: TapeView<'a>, c: UserConnection|
            ask::<()>(t, QueryView::Db(a.db(), DbView::InsertConnection(&c))).and_then(
                |t: TapeView<'a>, _x: ()|
                    ask::<Option<Connection>>(
                        t,
                        QueryView::Db(a.db(), DbView::Connection(c.to)),
                    ).and_then(
                        |t: TapeView<'a>, kept: Option<Connection>|
                            match kept {
                                Some(kept) => done(t, kept),
                                None => halt(t, StopView::Stray),
                            },
                    ),
            ),
    )
}

/// Updates the status of a connection: at the back-end first, and in the database if that changed
/// anything.
pub open spec fn update_connection_run<'a>(
    a: &'a Actor<Online>,
    t: TapeView<'a>,
    to: UserId,
    status: ConnectStatus,
) -> Run<'a, bool> {
    call_run::<bool>(a, t, ApiView::SetConnectStatus(to, status)).and_then(
        |t: TapeView<'a>, updated: bool|
            if updated {
                ask::<()>(
                    t,
                    QueryView::Db(a.db(), DbView::UpdateConnection(to, status)),
                ).and_then(|t: TapeView<'a>, _x: ()| done(t, true))
            } else {
                done(t, false)
            },
    )
}

/// Creates a conversation: at the back-end first, then in the database, with us as its creator.
pub open spec fn new_conversation_run<'a>(
    a: &'a Actor<Online>,
    t: TapeView<'a>,
    name: &'a str,
    others: &'a Vec<UserId>,
) -> Run<'a, &'a Conversation> {
    call_run::<ConvId>(a, t, ApiView::CreateConversation { name, others }).and_then(
        |t: TapeView<'a>, id: ConvId|
            keep_conversation_run(a, t, Roster::Own { id, creator: a.me_id(), name, others }),
    )
}

/// [`fetch_connection_run`] is steady.
pub proof fn fetch_connection_is_steady<'a>(
    a: &'a Actor<Online>,
    t: TapeView<'a>,
    u: TapeView<'a>,
    to: UserId,
)
    requires
        grown(t, u),
    ensures
        steady(t, u, fetch_connection_run(a, t, to), fetch_connection_run(a, u, to)),
{
    call_is_steady::<Option<UserConnection>>(a, t, u, ApiView::Connection(to));
}

/// [`resolve_connection_run`] is steady.
pub proof fn resolve_connection_is_steady<'a>(
    a: &'a Actor<Online>,
    t: TapeView<'a>,
    u: TapeView<'a>,
    to: UserId,
)
    requires
        grown(t, u),
    ensures
        steady(t, u, resolve_connection_run(a, t, to), resolve_connection_run(a, u, to)),
{
    let q = QueryView::Db(a.db(), DbView::Connection(to));
    let x = ask::<Option<Connection>>(t, q);
    let y = ask::<Option<Connection>>(u, q);
    fetch_connection_is_steady(a, y.tape, y.tape, to);
    if x.out is Ok {
        fetch_connection_is_steady(a, x.tape, y.tape, to);
    }
}

/// [`new_connection_run`] is steady.
pub proof fn new_connection_is_steady<'a>(
    a: &'a Actor<Online>,
    t: TapeView<'a>,
    u: TapeView<'a>,
    to: UserId,
    name: &'a str,
    message: &'a str,
)
    requires
        grown(t, u),
    ensures
        steady(
            t,
            u,
            new_connection_run(a, t, to, name, message),
            new_connection_run(a, u, to, name, message),
        ),
{
    call_is_steady::<UserConnection>(a, t, u, ApiView::Connect { to, name, message });
}

/// [`update_connection_run`] is steady.
pub proof fn update_connection_is_steady<'a>(
    a: &'a Actor<Online>,
    t: TapeView<'a>,
    u: TapeView<'a>,
    to: UserId,
    status: ConnectStatus,
)
    requires
        grown(t, u),
    ensures
        steady(
            t,
            u,
            update_connection_run(a, t, to, status),
            update_connection_run(a, u, to, status),
        ),
{
    call_is_steady::<bool>(a, t, u, ApiView::SetConnectStatus(to, status));
}

/// [`new_conversation_run`] is steady.
pub proof fn new_conversation_is_steady<'a>(
    a: &'a Actor<Online>,
    t: TapeView<'a>,
    u: TapeView<'a>,
    name: &'a str,
    others: &'a Vec<UserId>,
)
    requires
        grown(t, u),
    ensures
        steady(
            t,
            u,
            new_conversation_run(a, t, name, others),
            new_conversation_run(a, u, name, others),
        ),
{
    let q = ApiView::CreateConversation { name, others };
    call_is_steady::<ConvId>(a, t, u, q);
    let x = call_run::<ConvId>(a, t, q);
    let y = call_run::<ConvId>(a, u, q);
    if let Ok(id) = y.out {
        let roster = Roster::Own { id, creator: a.me_id(), name, others };
        keep_conversation_is_steady(a, y.tape, y.tape, roster);
        if x.out is Ok {
            keep_conversation_is_steady(a, x.tape, y.tape, roster);
        }
    }
}

impl Actor<Online> {
    /// Finds the connection to a user.
    ///
    /// If the connection is found in local storage it is returned right away, otherwise the
    /// information comes from the back-end and is saved locally.
    pub fn resolve_connection<'a>(&'a self, tape: &mut Tape<'a>, to: UserId) -> (r: Result<
        Option<Connection>,
        Stop<'a>,
    >)
        ensures
            told(final(tape)@, r) == resolve_connection_run(self, old(tape)@, to),
    {
        let found: &'a Option<Connection> = tape.ask(
            Query::Db(self.state.user.dbase, Db::Connection(to)),
        )?;
        if let Some(c) = found {
            return Ok(Some(*c));
        }
        let found: &'a Option<UserConnection> = self.call(tape, Api::Connection(to))?;
        match found {
            Some(c) => {
                tape.ask::<()>(Query::Db(self.state.user.dbase, Db::InsertConnection(c)))?;
                let kept: &'a Connection = tape.ask(Query::Convert(Convert::Connection(c)))?;
                Ok(Some(*kept))
            },
            None => Ok(None),
        }
    }

    /// Creates a new connection to the given user.
    pub fn new_connection<'a>(
        &'a self,
        tape: &mut Tape<'a>,
        to: &User,
        name: &'a str,
        message: &'a str,
    ) -> (r: Result<Connection, Stop<'a>>)
        ensures
            told(final(tape)@, r) == new_connection_run(self, old(tape)@, to.id, name, message),
    {
        let c: &'a UserConnection = self.call(tape, Api::Connect { to: to.id, name, message })?;
        tape.ask::<()>(Query::Db(self.state.user.dbase, Db::InsertConnection(c)))?;
        let kept: &'a Option<Connection> = tape.ask(
            Query::Db(self.state.user.dbase, Db::Connection(c.to)),
        )?;
        match kept {
            Some(kept) => Ok(*kept),
            None => Err(Stop::Stray),
        }
    }

    /// Updates the status of the connection to the given user. The result says whether that changed
    /// anything.
    pub fn update_connection<'a>(
        &'a self,
        tape: &mut Tape<'a>,
        to: UserId,
        status: ConnectStatus,
    ) -> (r: Result<bool, Stop<'a>>)
        ensures
            told(final(tape)@, r) == update_connection_run(self, old(tape)@, to, status),
    {
        let updated: &'a bool = self.call(tape, Api::SetConnectStatus(to, status))?;
        if *updated {
            tape.ask::<()>(Query::Db(self.state.user.dbase, Db::UpdateConnection(to, status)))?;
        }
        Ok(*updated)
    }

    /// Creates a new conversation with some users.
    pub fn new_conversation<'a>(
        &'a self,
        tape: &mut Tape<'a>,
        name: &'a str,
        others: &'a Vec<UserId>,
    ) -> (r: Result<&'a Conversation, Stop<'a>>)
        ensures
            told(final(tape)@, r) == new_conversation_run(self, old(tape)@, name, others),
    {
        let id: &'a ConvId = self.call(tape, Api::CreateConversation { name, others })?;
        self.keep_conversation(tape, Roster::Own { id: *id, creator: self.me().id, name, others })
    }
}

} // verus!
