//! Reading what the database holds, for whoever displays it.
use crate::actor::{Actor, Offline, Online};
use crate::model::{ConvId, Handle, Rows, User, UserId};
use crate::query::{Db, DbView, Query, QueryView};
use crate::tape::{ask, told, told_as, Run, Stop, Tape, TapeView};
use vstd::prelude::*;

verus! {

/// Reads a page of conversations.
pub open spec fn load_conversations_run<'a>(
    t: TapeView<'a>,
    db: Handle,
    from: Option<Handle>,
    num: usize,
) -> Run<'a, Rows> {
    ask::<Rows>(t, QueryView::Db(db, DbView::Conversations(from, num)))
}

/// Reads a page of a conversation's messages.
pub open spec fn load_messages_run<'a>(
    t: TapeView<'a>,
    db: Handle,
    conv: ConvId,
    from: Option<Handle>,
    num: usize,
) -> Run<'a, Rows> {
    ask::<Rows>(t, QueryView::Db(db, DbView::Messages(conv, from, num)))
}

/// Reads the connections, each with the user to whom it leads.
pub open spec fn load_contacts_run<'a>(t: TapeView<'a>, db: Handle) -> Run<'a, Rows> {
    ask::<Rows>(t, QueryView::Db(db, DbView::Connections))
}

/// Reads a user.
pub open spec fn load_user_run<'a>(t: TapeView<'a>, db: Handle, id: UserId) -> Run<
    'a,
    Option<User>,
> {
    ask::<Option<User>>(t, QueryView::Db(db, DbView::User(id)))
}

fn load_conversations_of<'a>(
    tape: &mut Tape<'a>,
    db: Handle,
    from: Option<Handle>,
    num: usize,
) -> (r: Result<Rows, Stop<'a>>)
    ensures
        told(final(tape)@, r) == load_conversations_run(old(tape)@, db, from, num),
{
    let rows: &'a Rows = tape.ask(Query::Db(db, Db::Conversations(from, num)))?;
    Ok(*rows)
}

fn load_messages_of<'a>(
    tape: &mut Tape<'a>,
    db: Handle,
    conv: ConvId,
    from: Option<Handle>,
    num: usize,
) -> (r: Result<Rows, Stop<'a>>)
    ensures
        told(final(tape)@, r) == load_messages_run(old(tape)@, db, conv, from, num),
{
    let rows: &'a Rows = tape.ask(Query::Db(db, Db::Messages(conv, from, num)))?;
    Ok(*rows)
}

fn load_contacts_of<'a>(tape: &mut Tape<'a>, db: Handle) -> (r: Result<Rows, Stop<'a>>)
    ensures
        told(final(tape)@, r) == load_contacts_run(old(tape)@, db),
{
    let rows: &'a Rows = tape.ask(Query::Db(db, Db::Connections))?;
    Ok(*rows)
}

impl Actor<Offline> {
    /// Reads at most `num` conversations, from the beginning or from where an earlier page ended.
    pub fn load_conversations<'a>(
        &self,
        tape: &mut Tape<'a>,
        from: Option<Handle>,
        num: usize,
    ) -> (r: Result<Rows, Stop<'a>>)
        ensures
            told(final(tape)@, r) == load_conversations_run(
                old(tape)@,
                self.state.user.dbase,
                from,
                num,
            ),
    {
        load_conversations_of(tape, self.state.user.dbase, from, num)
    }

    /// Reads at most `num` messages of a conversation, from the beginning or from where an earlier
    /// page ended.
    pub fn load_messages<'a>(
        &self,
        tape: &mut Tape<'a>,
        conv: ConvId,
        from: Option<Handle>,
        num: usize,
    ) -> (r: Result<Rows, Stop<'a>>)
        ensures
            told(final(tape)@, r) == load_messages_run(
                old(tape)@,
                self.state.user.dbase,
                conv,
                from,
                num,
            ),
    {
        load_messages_of(tape, self.state.user.dbase, conv, from, num)
    }

    /// Reads the connections, each with the user to whom it leads.
    pub fn load_contacts<'a>(&self, tape: &mut Tape<'a>) -> (r: Result<Rows, Stop<'a>>)
        ensures
            told(final(tape)@, r) == load_contacts_run(old(tape)@, self.state.user.dbase),
    {
        load_contacts_of(tape, self.state.user.dbase)
    }

    /// Reads a user.
    pub fn load_user<'a>(&self, tape: &mut Tape<'a>, id: UserId) -> (r: Result<
        &'a Option<User>,
        Stop<'a>,
    >)
        ensures
            told_as(final(tape)@, r, |x: &'a Option<User>| *x) == load_user_run(
                old(tape)@,
                self.state.user.dbase,
                id,
            ),
    {
        tape.ask(Query::Db(self.state.user.dbase, Db::User(id)))
    }
}

impl Actor<Online> {
    /// Reads at most `num` conversations, from the beginning or from where an earlier page ended.
    pub fn load_conversations<'a>(
        &self,
        tape: &mut Tape<'a>,
        from: Option<Handle>,
        num: usize,
    ) -> (r: Result<Rows, Stop<'a>>)
        ensures
            told(final(tape)@, r) == load_conversations_run(
                old(tape)@,
                self.state.user.dbase,
                from,
                num,
            ),
    {
        load_conversations_of(tape, self.state.user.dbase, from, num)
    }

    /// Reads at most `num` messages of a conversation, from the beginning or from where an earlier
    /// page ended.
    pub fn load_messages<'a>(
        &self,
        tape: &mut Tape<'a>,
        conv: ConvId,
        from: Option<Handle>,
        num: usize,
    ) -> (r: Result<Rows, Stop<'a>>)
        ensures
            told(final(tape)@, r) == load_messages_run(
                old(tape)@,
                self.state.user.dbase,
                conv,
                from,
                num,
            ),
    {
        load_messages_of(tape, self.state.user.dbase, conv, from, num)
    }

    /// Reads the connections, each with the user to whom it leads.
    pub fn load_contacts<'a>(&self, tape: &mut Tape<'a>) -> (r: Result<Rows, Stop<'a>>)
        ensures
            told(final(tape)@, r) == load_contacts_run(old(tape)@, self.state.user.dbase),
    {
        load_contacts_of(tape, self.state.user.dbase)
    }
}

} // verus!
