//! Listings at the back-end, and going through them page by page.
use crate::access::{call_is_steady, call_reads_on, call_run};
use crate::actor::{Actor, Online};
use crate::directory::{
    resolve_conversation_is_steady, resolve_conversation_run, resolve_user_is_steady,
    resolve_user_run,
};
use crate::model::{ConvId, Conversation, Page, User, UserConnection, UserId};
use crate::query::{Api, ApiView, Db, DbView, Query, QueryView};
use crate::tape::{ask, done, grown, halt, steady, told, told_as, Run, Stop, Tape, TapeView};
use vstd::prelude::*;

verus! {

/// The number of entries on a page.
pub const PAGE: usize = 256;

/// The number of conversations that are resolved at most.
pub const LIMIT: usize = 1000;

// ---- Conversations --------------------------------------------------------------------------

/// Lists conversations.
pub open spec fn conversation_ids_run<'a>(
    a: &'a Actor<Online>,
    t: TapeView<'a>,
    n: usize,
    after: Option<ConvId>,
) -> Run<'a, Page<ConvId>> {
    call_run::<Page<ConvId>>(a, t, ApiView::Conversations(n, after))
}

/// Resolves the conversations of a list, in order.
pub open spec fn resolve_listed_run<'a>(
    a: &'a Actor<Online>,
    t: TapeView<'a>,
    ids: Seq<ConvId>,
) -> Run<'a, ()>
    decreases ids.len(),
{
    if ids.len() == 0 {
        done(t, ())
    } else {
        resolve_conversation_run(a, t, ids[0]).and_then(
            |t: TapeView<'a>, _c: Option<&'a Conversation>|
                resolve_listed_run(a, t, ids.drop_first()),
        )
    }
}

/// The part of a list that is resolved once `resolved` conversations were: all of it, or as much as
/// the limit leaves.
pub open spec fn share(ids: Seq<ConvId>, resolved: int) -> Seq<ConvId> {
    if ids.len() <= LIMIT - resolved {
        ids
    } else {
        ids.take(LIMIT - resolved)
    }
}

/// Is this the last page of conversations to go through, if `resolved` conversations are resolved
/// after it?
pub open spec fn is_last_page(page: Page<ConvId>, resolved: int) -> bool {
    !page.has_more || page.value@.len() == 0 || resolved >= LIMIT
}

/// Resolves the conversations of a page and of those after it. `resolved` is the number of
/// conversations resolved before the page.
pub open spec fn resolve_pages_run<'a>(
    a: &'a Actor<Online>,
    t: TapeView<'a>,
    page: Page<ConvId>,
    resolved: int,
) -> Run<'a, ()>
    decreases t.log.len() - t.at,
{
    let ids = share(page.value@, resolved);
    let x = resolve_listed_run(a, t, ids);
    match x.out {
        Ok(_) => if is_last_page(page, resolved + ids.len()) {
            done(x.tape, ())
        } else {
            let y = conversation_ids_run(a, x.tape, PAGE, Some(page.value@.last()));
            match y.out {
                Ok(next) => {
                    proof {
                        resolve_listed_is_steady(a, t, t, ids);
                        let q = ApiView::Conversations(PAGE, Some(page.value@.last()));
                        call_is_steady::<Page<ConvId>>(a, x.tape, x.tape, q);
                        call_reads_on::<Page<ConvId>>(a, x.tape, q);
                    }
                    resolve_pages_run(a, y.tape, next, resolved + ids.len())
                },
                Err(s) => halt(y.tape, s),
            }
        },
        Err(s) => halt(x.tape, s),
    }
}

/// Resolves all conversations, or the first ones if there are more than the limit.
pub open spec fn resolve_conversations_run<'a>(a: &'a Actor<Online>, t: TapeView<'a>) -> Run<
    'a,
    (),
> {
    conversation_ids_run(a, t, PAGE, None).and_then(
        |t: TapeView<'a>, page: Page<ConvId>| resolve_pages_run(a, t, page, 0),
    )
}

/// [`resolve_listed_run`] is steady.
pub proof fn resolve_listed_is_steady<'a>(
    a: &'a Actor<Online>,
    t: TapeView<'a>,
    u: TapeView<'a>,
    ids: Seq<ConvId>,
)
    requires
        grown(t, u),
    ensures
        steady(t, u, resolve_listed_run(a, t, ids), resolve_listed_run(a, u, ids)),
    decreases ids.len(),
{
    if ids.len() > 0 {
        resolve_conversation_is_steady(a, t, u, ids[0]);
        let x = resolve_conversation_run(a, t, ids[0]);
        let y = resolve_conversation_run(a, u, ids[0]);
        resolve_listed_is_steady(a, y.tape, y.tape, ids.drop_first());
        if x.out is Ok {
            resolve_listed_is_steady(a, x.tape, y.tape, ids.drop_first());
        }
    }
}

/// [`resolve_pages_run`] is steady.
pub proof fn resolve_pages_is_steady<'a>(
    a: &'a Actor<Online>,
    t: TapeView<'a>,
    u: TapeView<'a>,
    page: Page<ConvId>,
    resolved: int,
)
    requires
        grown(t, u),
    ensures
        steady(
            t,
            u,
            resolve_pages_run(a, t, page, resolved),
            resolve_pages_run(a, u, page, resolved),
        ),
    decreases u.log.len() - u.at,
{
    let q = ApiView::Conversations(PAGE, Some(page.value@.last()));
    let ids = share(page.value@, resolved);
    let total = resolved + ids.len();
    resolve_listed_is_steady(a, t, u, ids);
    let x = resolve_listed_run(a, t, ids);
    let y = resolve_listed_run(a, u, ids);
    if y.out is Ok && !is_last_page(page, total) {
        let v = call_run::<Page<ConvId>>(a, y.tape, q);
        call_is_steady::<Page<ConvId>>(a, y.tape, y.tape, q);
        call_reads_on::<Page<ConvId>>(a, y.tape, q);
        if let Ok(next) = v.out {
            resolve_pages_is_steady(a, v.tape, v.tape, next, total);
        }
        if x.out is Ok {
            let w = call_run::<Page<ConvId>>(a, x.tape, q);
            call_is_steady::<Page<ConvId>>(a, x.tape, y.tape, q);
            if let Ok(next) = w.out {
                resolve_pages_is_steady(a, w.tape, v.tape, next, total);
            }
        }
    }
}

/// [`resolve_conversations_run`] is steady.
pub proof fn resolve_conversations_is_steady<'a>(
    a: &'a Actor<Online>,
    t: TapeView<'a>,
    u: TapeView<'a>,
)
    requires
        grown(t, u),
    ensures
        steady(t, u, resolve_conversations_run(a, t), resolve_conversations_run(a, u)),
{
    let q = ApiView::Conversations(PAGE, None);
    call_is_steady::<Page<ConvId>>(a, t, u, q);
    let x = call_run::<Page<ConvId>>(a, t, q);
    let y = call_run::<Page<ConvId>>(a, u, q);
    if let Ok(page) = y.out {
        resolve_pages_is_steady(a, y.tape, y.tape, page, 0);
        if x.out is Ok {
            resolve_pages_is_steady(a, x.tape, y.tape, page, 0);
        }
    }
}

impl Actor<Online> {
    /// Lists at most `n` conversations, those that come after the given one.
    pub fn conversation_ids<'a>(
        &'a self,
        tape: &mut Tape<'a>,
        n: usize,
        after: Option<ConvId>,
    ) -> (r: Result<&'a Page<ConvId>, Stop<'a>>)
        ensures
            told_as(final(tape)@, r, |x: &'a Page<ConvId>| *x) == conversation_ids_run(
                self,
                old(tape)@,
                n,
                after,
            ),
    {
        self.call(tape, Api::Conversations(n, after))
    }

    /// Resolves the first `n` conversations of a list.
    fn resolve_listed<'a>(
        &'a self,
        tape: &mut Tape<'a>,
        ids: &'a Vec<ConvId>,
        n: usize,
    ) -> (r: Result<(), Stop<'a>>)
        requires
            n <= ids.len(),
        ensures
            told(final(tape)@, r) == resolve_listed_run(self, old(tape)@, ids@.take(n as int)),
    {
        let mut i: usize = 0;
        let ghost first = ids@.take(n as int);
        assert(first.skip(0) =~= first);
        while i < n
            invariant
                i <= n <= ids.len(),
                first == ids@.take(n as int),
                resolve_listed_run(self, tape@, first.skip(i as int)) == resolve_listed_run(
                    self,
                    old(tape)@,
                    first,
                ),
            decreases n - i,
        {
            assert(first.skip(i as int).drop_first() =~= first.skip(i + 1));
            self.resolve_conversation(tape, ids[i])?;
            i = i + 1;
        }
        Ok(())
    }

    /// Resolves all conversations (up to 1000).
    pub fn resolve_conversations<'a>(&'a self, tape: &mut Tape<'a>) -> (r: Result<(), Stop<'a>>)
        ensures
            told(final(tape)@, r) == resolve_conversations_run(self, old(tape)@),
    {
        let mut page: &'a Page<ConvId> = self.conversation_ids(tape, PAGE, None)?;
        let mut resolved: usize = 0;
        loop
            invariant
                resolved <= LIMIT,
                resolve_pages_run(self, tape@, *page, resolved as int)
                    == resolve_conversations_run(self, old(tape)@),
            decreases tape@.log.len() - tape@.at,
        {
            let room: usize = LIMIT - resolved;
            let n: usize = if page.value.len() <= room {
                page.value.len()
            } else {
                room
            };
            proof {
                assert(page.value@.take(page.value@.len() as int) =~= page.value@);
                resolve_listed_is_steady(self, tape@, tape@, share(page.value@, resolved as int));
            }
            self.resolve_listed(tape, &page.value, n)?;
            resolved = resolved + n;
            if !page.has_more || page.value.len() == 0 || resolved >= LIMIT {
                return Ok(());
            }
            let last: ConvId = page.value[page.value.len() - 1];
            proof {
                let q = ApiView::Conversations(PAGE, Some(last));
                call_is_steady::<Page<ConvId>>(self, tape@, tape@, q);
                call_reads_on::<Page<ConvId>>(self, tape@, q);
            }
            page = self.conversation_ids(tape, PAGE, Some(last))?;
        }
    }
}

// ---- Connections ----------------------------------------------------------------------------

/// Lists connections.
pub open spec fn user_connections_run<'a>(
    a: &'a Actor<Online>,
    t: TapeView<'a>,
    n: usize,
    after: Option<UserId>,
) -> Run<'a, Page<UserConnection>> {
    call_run::<Page<UserConnection>>(a, t, ApiView::Connections(n, after))
}

/// Fetches the user whom a connection leads to, and stores the connection if there is one.
pub open spec fn keep_connection_run<'a>(
    a: &'a Actor<Online>,
    t: TapeView<'a>,
    c: &'a UserConnection,
) -> Run<'a, ()> {
    resolve_user_run(a, t, c.to, false).and_then(
        |t: TapeView<'a>, u: Option<&'a User>|
            match u {
                Some(_) => ask::<()>(t, QueryView::Db(a.db(), DbView::InsertConnection(c))),
                None => done(t, ()),
            },
    )
}

/// The same for each connection of a list, in order.
pub open spec fn keep_connections_run<'a>(
    a: &'a Actor<Online>,
    t: TapeView<'a>,
    cs: Seq<UserConnection>,
) -> Run<'a, ()>
    decreases cs.len(),
{
    if cs.len() == 0 {
        done(t, ())
    } else {
        keep_connection_run(a, t, &cs[0]).and_then(
            |t: TapeView<'a>, _x: ()| keep_connections_run(a, t, cs.drop_first()),
        )
    }
}

/// Takes in the connections of a page and of those after it.
pub open spec fn connection_pages_run<'a>(
    a: &'a Actor<Online>,
    t: TapeView<'a>,
    page: Page<UserConnection>,
) -> Run<'a, ()>
    decreases t.log.len() - t.at,
{
    let x = keep_connections_run(a, t, page.value@);
    match x.out {
        Ok(_) => if !page.has_more || page.value@.len() == 0 {
            done(x.tape, ())
        } else {
            let y = user_connections_run(a, x.tape, PAGE, Some(page.value@.last().to));
            match y.out {
                Ok(next) => {
                    proof {
                        keep_connections_is_steady(a, t, t, page.value@);
                        let q = ApiView::Connections(PAGE, Some(page.value@.last().to));
                        call_is_steady::<Page<UserConnection>>(a, x.tape, x.tape, q);
                        call_reads_on::<Page<UserConnection>>(a, x.tape, q);
                    }
                    connection_pages_run(a, y.tape, next)
                },
                Err(s) => halt(y.tape, s),
            }
        },
        Err(s) => halt(x.tape, s),
    }
}

/// Takes in all connections.
pub open spec fn resolve_user_connections_run<'a>(a: &'a Actor<Online>, t: TapeView<'a>) -> Run<
    'a,
    (),
> {
    user_connections_run(a, t, PAGE, None).and_then(
        |t: TapeView<'a>, page: Page<UserConnection>| connection_pages_run(a, t, page),
    )
}

/// [`keep_connection_run`] is steady.
pub proof fn keep_connection_is_steady<'a>(
    a: &'a Actor<Online>,
    t: TapeView<'a>,
    u: TapeView<'a>,
    c: &'a UserConnection,
)
    requires
        grown(t, u),
    ensures
        steady(t, u, keep_connection_run(a, t, c), keep_connection_run(a, u, c)),
{
    resolve_user_is_steady(a, t, u, c.to, false);
}

/// [`keep_connections_run`] is steady.
pub proof fn keep_connections_is_steady<'a>(
    a: &'a Actor<Online>,
    t: TapeView<'a>,
    u: TapeView<'a>,
    cs: Seq<UserConnection>,
)
    requires
        grown(t, u),
    ensures
        steady(t, u, keep_connections_run(a, t, cs), keep_connections_run(a, u, cs)),
    decreases cs.len(),
{
    if cs.len() > 0 {
        keep_connection_is_steady(a, t, u, &cs[0]);
        let x = keep_connection_run(a, t, &cs[0]);
        let y = keep_connection_run(a, u, &cs[0]);
        keep_connections_is_steady(a, y.tape, y.tape, cs.drop_first());
        if x.out is Ok {
            keep_connections_is_steady(a, x.tape, y.tape, cs.drop_first());
        }
    }
}

/// [`connection_pages_run`] is steady.
pub proof fn connection_pages_is_steady<'a>(
    a: &'a Actor<Online>,
    t: TapeView<'a>,
    u: TapeView<'a>,
    page: Page<UserConnection>,
)
    requires
        grown(t, u),
    ensures
        steady(t, u, connection_pages_run(a, t, page), connection_pages_run(a, u, page)),
    decreases u.log.len() - u.at,
{
    let q = ApiView::Connections(PAGE, Some(page.value@.last().to));
    keep_connections_is_steady(a, t, u, page.value@);
    let x = keep_connections_run(a, t, page.value@);
    let y = keep_connections_run(a, u, page.value@);
    if y.out is Ok && page.has_more && page.value@.len() > 0 {
        let v = call_run::<Page<UserConnection>>(a, y.tape, q);
        call_is_steady::<Page<UserConnection>>(a, y.tape, y.tape, q);
        call_reads_on::<Page<UserConnection>>(a, y.tape, q);
        if let Ok(next) = v.out {
            connection_pages_is_steady(a, v.tape, v.tape, next);
        }
        if x.out is Ok {
            let w = call_run::<Page<UserConnection>>(a, x.tape, q);
            call_is_steady::<Page<UserConnection>>(a, x.tape, y.tape, q);
            if let Ok(next) = w.out {
                connection_pages_is_steady(a, w.tape, v.tape, next);
            }
        }
    }
}

/// [`resolve_user_connections_run`] is steady.
pub proof fn resolve_user_connections_is_steady<'a>(
    a: &'a Actor<Online>,
    t: TapeView<'a>,
    u: TapeView<'a>,
)
    requires
        grown(t, u),
    ensures
        steady(t, u, resolve_user_connections_run(a, t), resolve_user_connections_run(a, u)),
{
    let q = ApiView::Connections(PAGE, None);
    call_is_steady::<Page<UserConnection>>(a, t, u, q);
    let x = call_run::<Page<UserConnection>>(a, t, q);
    let y = call_run::<Page<UserConnection>>(a, u, q);
    if let Ok(page) = y.out {
        connection_pages_is_steady(a, y.tape, y.tape, page);
        if x.out is Ok {
            connection_pages_is_steady(a, x.tape, y.tape, page);
        }
    }
}

impl Actor<Online> {
    /// Lists at most `n` connections, those that come after the one to the given user.
    pub fn user_connections<'a>(
        &'a self,
        tape: &mut Tape<'a>,
        n: usize,
        after: Option<UserId>,
    ) -> (r: Result<&'a Page<UserConnection>, Stop<'a>>)
        ensures
            told_as(final(tape)@, r, |x: &'a Page<UserConnection>| *x) == user_connections_run(
                self,
                old(tape)@,
                n,
                after,
            ),
    {
        self.call(tape, Api::Connections(n, after))
    }

    fn keep_connections<'a>(&'a self, tape: &mut Tape<'a>, cs: &'a Vec<UserConnection>) -> (r:
        Result<(), Stop<'a>>)
        ensures
            told(final(tape)@, r) == keep_connections_run(self, old(tape)@, cs@),
    {
        let mut i: usize = 0;
        assert(cs@.skip(0) =~= cs@);
        while i < cs.len()
            invariant
                i <= cs.len(),
                keep_connections_run(self, tape@, cs@.skip(i as int)) == keep_connections_run(
                    self,
                    old(tape)@,
                    cs@,
                ),
            decreases cs.len() - i,
        {
            assert(cs@.skip(i as int).drop_first() =~= cs@.skip(i + 1));
            let c: &'a UserConnection = &cs[i];
            let found = self.resolve_user(tape, c.to, false)?;
            if found.is_some() {
                tape.ask::<()>(Query::Db(self.state.user.dbase, Db::InsertConnection(c)))?;
            }
            i = i + 1;
        }
        Ok(())
    }

    /// Resolves all user connections.
    pub fn resolve_user_connections<'a>(&'a self, tape: &mut Tape<'a>) -> (r: Result<(), Stop<'a>>)
        ensures
            told(final(tape)@, r) == resolve_user_connections_run(self, old(tape)@),
    {
        let mut page: &'a Page<UserConnection> = self.user_connections(tape, PAGE, None)?;
        loop
            invariant
                connection_pages_run(self, tape@, *page) == resolve_user_connections_run(
                    self,
                    old(tape)@,
                ),
            decreases tape@.log.len() - tape@.at,
        {
            proof {
                keep_connections_is_steady(self, tape@, tape@, page.value@);
            }
            self.keep_connections(tape, &page.value)?;
            if !page.has_more || page.value.len() == 0 {
                return Ok(());
            }
            let last: UserId = page.value[page.value.len() - 1].to;
            proof {
                let q = ApiView::Connections(PAGE, Some(last));
                call_is_steady::<Page<UserConnection>>(self, tape@, tape@, q);
                call_reads_on::<Page<UserConnection>>(self, tape@, q);
            }
            page = self.user_connections(tape, PAGE, Some(last))?;
        }
    }
}

} // verus!
