//! Fetching the notifications that came while we were not listening.
use crate::access::{
    call_is_steady, call_run, connect_again_is_steady, connect_again_run, react_is_steady,
    react_run, weigh, weigh_is_steady, weighed,
};
use crate::actor::{Actor, Online};
use crate::events::{on_notification_is_steady, on_notification_run};
use crate::model::{Error, Handle, NotifId, Reaction, StreamItem};
use crate::query::{Api, ApiView, Db, DbView, Link, Query, QueryView};
use crate::tape::{
    ask, caught, done, grown, halt, settled, steady, told, was_told, Run, Stop, StopView, Tape,
    TapeView,
};
use vstd::prelude::*;

verus! {

/// How far an attempt came: its result, and the last notification that was read.
pub struct Progress<'a, T> {
    pub result: Result<T, Error<'a>>,
    pub last: Option<NotifId>,
}

/// Reads a stream to its end, and takes in each notification. `last` is the last notification that
/// was read before. What cannot be read is passed over; a notification that cannot be taken in ends
/// the attempt, and counts as read.
pub open spec fn read_stream_run<'a>(
    a: &'a Actor<Online>,
    t: TapeView<'a>,
    link: Link,
    last: Option<NotifId>,
) -> Run<'a, Progress<'a, ()>>
    decreases t.log.len() - t.at,
{
    let x = ask::<StreamItem>(t, QueryView::Api(link, ApiView::NextItem));
    match x.out {
        Ok(StreamItem::Next(n)) => {
            let y = on_notification_run(a, x.tape, &n);
            match y.out {
                Ok(_) => {
                    proof {
                        on_notification_is_steady(a, x.tape, x.tape, &n);
                    }
                    read_stream_run(a, y.tape, link, Some(n.id))
                },
                Err(StopView::Fail(e)) => done(
                    y.tape,
                    Progress { result: Err(e), last: Some(n.id) },
                ),
                Err(s) => halt(y.tape, s),
            }
        },
        Ok(StreamItem::End) => done(x.tape, Progress { result: Ok(()), last }),
        Err(StopView::Fail(_)) => read_stream_run(a, x.tape, link, last),
        Err(s) => halt(x.tape, s),
    }
}

/// Closes a stream that was read, after asking whether there is more than it yielded.
pub open spec fn close_stream_run<'a>(t: TapeView<'a>, link: Link) -> Run<'a, bool> {
    ask::<bool>(t, QueryView::Api(link, ApiView::HasMore)).and_then(
        |t: TapeView<'a>, more: bool|
            ask::<()>(t, QueryView::Api(link, ApiView::CloseStream)).and_then(
                |t: TapeView<'a>, _x: ()| done(t, more),
            ),
    )
}

/// Begins an attempt, and opens the stream of notifications after the last one.
pub open spec fn open_stream_run<'a>(
    a: &'a Actor<Online>,
    t: TapeView<'a>,
    link: Link,
    r: Option<Reaction>,
    last: Option<NotifId>,
) -> Run<'a, ()> {
    react_run(a, t, r).and_then(
        |t: TapeView<'a>, _x: ()|
            ask::<()>(
                t,
                QueryView::Api(
                    link,
                    ApiView::OpenStream(a.state.user.device.client.id@, last),
                ),
            ),
    )
}

/// Finishes an attempt whose stream was read.
pub open spec fn finish_stream_run<'a>(t: TapeView<'a>, link: Link, p: Progress<'a, ()>) -> Run<
    'a,
    Progress<'a, bool>,
> {
    match p.result {
        Ok(_) => caught(close_stream_run(t, link)).and_then(
            |t: TapeView<'a>, result: Result<bool, Error<'a>>|
                done(t, Progress { result, last: p.last }),
        ),
        Err(e) => done(t, Progress { result: Err(e), last: p.last }),
    }
}

/// One attempt at fetching the notifications after the last one.
pub open spec fn fetch_attempt_run<'a>(
    a: &'a Actor<Online>,
    t: TapeView<'a>,
    link: Link,
    r: Option<Reaction>,
    last: Option<NotifId>,
) -> Run<'a, Progress<'a, bool>> {
    caught(open_stream_run(a, t, link, r, last)).and_then(
        |t: TapeView<'a>, opened: Result<(), Error<'a>>|
            match opened {
                Ok(_) => read_stream_run(a, t, link, last).and_then(
                    |t: TapeView<'a>, p: Progress<'a, ()>| finish_stream_run(t, link, p),
                ),
                Err(e) => done(t, Progress { result: Err(e), last }),
            },
    )
}

/// One attempt, after `n` that failed, and what the retry policy makes of it.
pub open spec fn fetch_round_run<'a>(
    a: &'a Actor<Online>,
    t: TapeView<'a>,
    link: Link,
    r: Option<Reaction>,
    n: nat,
    last: Option<NotifId>,
) -> Run<'a, (Result<bool, Reaction>, Option<NotifId>)> {
    fetch_attempt_run(a, t, link, r, last).and_then(
        |t: TapeView<'a>, p: Progress<'a, bool>|
            weigh(settled(t, p.result), n).and_then(
                |t: TapeView<'a>, x: Result<bool, Reaction>| done(t, (x, p.last)),
            ),
    )
}

/// Fetches notifications, after `n` attempts that failed. Each attempt begins where the one before
/// it ended. The result says whether there is more, and which notification was read last.
pub open spec fn fetch_from_run<'a>(
    a: &'a Actor<Online>,
    t: TapeView<'a>,
    link: Link,
    r: Option<Reaction>,
    n: nat,
    last: Option<NotifId>,
) -> Run<'a, (bool, Option<NotifId>)>
    decreases t.log.len() - t.at,
{
    let x = fetch_round_run(a, t, link, r, n, last);
    match x.out {
        Ok((Ok(more), last)) => done(x.tape, (more, last)),
        Ok((Err(next), reached)) => {
            proof {
                fetch_round_is_steady(a, t, t, link, r, n, last);
            }
            fetch_from_run(a, x.tape, link, Some(next), n + 1, reached)
        },
        Err(s) => halt(x.tape, s),
    }
}

/// Records the last notification, if there is one.
pub open spec fn mark_run<'a>(a: &'a Actor<Online>, t: TapeView<'a>, last: Option<NotifId>) -> Run<
    'a,
    (),
> {
    match last {
        Some(id) => ask::<()>(t, QueryView::Db(a.db(), DbView::SetLastNotification(id))),
        None => done(t, ()),
    }
}

/// Fetches notifications over a connection, and records the last one.
pub open spec fn catch_up_run<'a>(
    a: &'a Actor<Online>,
    t: TapeView<'a>,
    link: Link,
    last: Option<NotifId>,
) -> Run<'a, bool> {
    fetch_from_run(a, t, link, None, 0, last).and_then(
        |t: TapeView<'a>, x: (bool, Option<NotifId>)|
            mark_run(a, t, x.1).and_then(|t: TapeView<'a>, _x: ()| done(t, x.0)),
    )
}

/// Records the back-end's last notification without taking in any.
pub open spec fn skip_ahead_run<'a>(a: &'a Actor<Online>, t: TapeView<'a>) -> Run<'a, bool> {
    call_run::<Option<NotifId>>(a, t, ApiView::LastNotification).and_then(
        |t: TapeView<'a>, last: Option<NotifId>|
            mark_run(a, t, last).and_then(|t: TapeView<'a>, _x: ()| done(t, false)),
    )
}

/// Checks for new notifications. A fresh device could not decrypt what came before it, so it skips
/// ahead, unless `always`.
pub open spec fn notifications_run<'a>(a: &'a Actor<Online>, t: TapeView<'a>, always: bool) -> Run<
    'a,
    bool,
> {
    ask::<Option<NotifId>>(t, QueryView::Db(a.db(), DbView::LastNotification)).and_then(
        |t: TapeView<'a>, last: Option<NotifId>|
            connect_again_run(a, t).and_then(
                |t: TapeView<'a>, client: Handle|
                    if a.state.user.device.fresh && !always {
                        skip_ahead_run(a, t)
                    } else {
                        catch_up_run(a, t, Link { client, creds: Some(a.state.user.creds) }, last)
                    },
            ),
    )
}

/// [`read_stream_run`] is steady.
pub proof fn read_stream_is_steady<'a>(
    a: &'a Actor<Online>,
    t: TapeView<'a>,
    u: TapeView<'a>,
    link: Link,
    last: Option<NotifId>,
)
    requires
        grown(t, u),
    ensures
        steady(t, u, read_stream_run(a, t, link, last), read_stream_run(a, u, link, last)),
    decreases u.log.len() - u.at,
{
    let q = QueryView::Api(link, ApiView::NextItem);
    let x = ask::<StreamItem>(t, q);
    let y = ask::<StreamItem>(u, q);
    match y.out {
        Ok(StreamItem::Next(n)) => {
            let y2 = on_notification_run(a, y.tape, &n);
            on_notification_is_steady(a, y.tape, y.tape, &n);
            if y2.out is Ok {
                read_stream_is_steady(a, y2.tape, y2.tape, link, Some(n.id));
            }
            if x.out is Ok {
                let x2 = on_notification_run(a, x.tape, &n);
                on_notification_is_steady(a, x.tape, y.tape, &n);
                if x2.out is Ok {
                    read_stream_is_steady(a, x2.tape, y2.tape, link, Some(n.id));
                }
            }
        },
        Err(StopView::Fail(_)) => {
            read_stream_is_steady(a, y.tape, y.tape, link, last);
            if x.out == y.out {
                read_stream_is_steady(a, x.tape, y.tape, link, last);
            }
        },
        _ => {},
    }
}

/// [`open_stream_run`] is steady.
pub proof fn open_stream_is_steady<'a>(
    a: &'a Actor<Online>,
    t: TapeView<'a>,
    u: TapeView<'a>,
    link: Link,
    r: Option<Reaction>,
    last: Option<NotifId>,
)
    requires
        grown(t, u),
    ensures
        steady(t, u, open_stream_run(a, t, link, r, last), open_stream_run(a, u, link, r, last)),
{
    react_is_steady(a, t, u, r);
}

/// [`finish_stream_run`] is steady.
pub proof fn finish_stream_is_steady<'a>(
    t: TapeView<'a>,
    u: TapeView<'a>,
    link: Link,
    p: Progress<'a, ()>,
)
    requires
        grown(t, u),
    ensures
        steady(t, u, finish_stream_run(t, link, p), finish_stream_run(u, link, p)),
{
}

/// [`fetch_attempt_run`] is steady.
pub proof fn fetch_attempt_is_steady<'a>(
    a: &'a Actor<Online>,
    t: TapeView<'a>,
    u: TapeView<'a>,
    link: Link,
    r: Option<Reaction>,
    last: Option<NotifId>,
)
    requires
        grown(t, u),
    ensures
        steady(t, u, fetch_attempt_run(a, t, link, r, last), fetch_attempt_run(a, u, link, r, last)),
{
    open_stream_is_steady(a, t, u, link, r, last);
    let x = open_stream_run(a, t, link, r, last);
    let y = open_stream_run(a, u, link, r, last);
    if y.out is Ok {
        let y2 = read_stream_run(a, y.tape, link, last);
        read_stream_is_steady(a, y.tape, y.tape, link, last);
        if let Ok(p) = y2.out {
            finish_stream_is_steady(y2.tape, y2.tape, link, p);
        }
        if x.out is Ok {
            let x2 = read_stream_run(a, x.tape, link, last);
            read_stream_is_steady(a, x.tape, y.tape, link, last);
            if let Ok(p) = x2.out {
                finish_stream_is_steady(x2.tape, y2.tape, link, p);
            }
        }
    }
}

proof fn read_stream_was_told<'a>(
    a: &'a Actor<Online>,
    t: TapeView<'a>,
    link: Link,
    last: Option<NotifId>,
)
    ensures
        read_stream_run(a, t, link, last).out matches Ok(p) ==> (p.result matches Err(Error::Failed(f))
            ==> was_told(t, read_stream_run(a, t, link, last).tape, *f)),
    decreases t.log.len() - t.at,
{
    let x = ask::<StreamItem>(t, QueryView::Api(link, ApiView::NextItem));
    match x.out {
        Ok(StreamItem::Next(n)) => {
            let y = on_notification_run(a, x.tape, &n);
            on_notification_is_steady(a, x.tape, x.tape, &n);
            if y.out is Ok {
                read_stream_was_told(a, y.tape, link, Some(n.id));
            }
        },
        Err(StopView::Fail(_)) => {
            read_stream_was_told(a, x.tape, link, last);
        },
        _ => {},
    }
}

/// An attempt that failed because of a service was told so.
proof fn fetch_attempt_was_told<'a>(
    a: &'a Actor<Online>,
    t: TapeView<'a>,
    link: Link,
    r: Option<Reaction>,
    last: Option<NotifId>,
)
    ensures
        fetch_attempt_run(a, t, link, r, last).out matches Ok(p) ==> (p.result matches Err(
            Error::Failed(f),
        ) ==> was_told(t, fetch_attempt_run(a, t, link, r, last).tape, *f)),
{
    open_stream_is_steady(a, t, t, link, r, last);
    let x = open_stream_run(a, t, link, r, last);
    if x.out is Ok {
        read_stream_was_told(a, x.tape, link, last);
        read_stream_is_steady(a, x.tape, x.tape, link, last);
        let y = read_stream_run(a, x.tape, link, last);
        if let Ok(p) = y.out {
            finish_stream_is_steady(y.tape, y.tape, link, p);
        }
    }
}

/// [`fetch_round_run`] is steady.
pub proof fn fetch_round_is_steady<'a>(
    a: &'a Actor<Online>,
    t: TapeView<'a>,
    u: TapeView<'a>,
    link: Link,
    r: Option<Reaction>,
    n: nat,
    last: Option<NotifId>,
)
    requires
        grown(t, u),
    ensures
        steady(
            t,
            u,
            fetch_round_run(a, t, link, r, n, last),
            fetch_round_run(a, u, link, r, n, last),
        ),
        fetch_round_run(a, u, link, r, n, last).out matches Ok((Err(_), _)) ==> u.at
            < fetch_round_run(a, u, link, r, n, last).tape.at <= u.log.len(),
{
    fetch_attempt_is_steady(a, t, u, link, r, last);
    fetch_attempt_was_told(a, t, link, r, last);
    fetch_attempt_was_told(a, u, link, r, last);
    let x = fetch_attempt_run(a, t, link, r, last);
    let y = fetch_attempt_run(a, u, link, r, last);
    if let Ok(p) = y.out {
        let y2 = settled(y.tape, p.result);
        weigh_is_steady(u, u, y2, y2, n);
        if x.out is Ok {
            weigh_is_steady(t, u, settled(x.tape, p.result), y2, n);
        }
    }
}

/// [`fetch_from_run`] is steady.
pub proof fn fetch_from_is_steady<'a>(
    a: &'a Actor<Online>,
    t: TapeView<'a>,
    u: TapeView<'a>,
    link: Link,
    r: Option<Reaction>,
    n: nat,
    last: Option<NotifId>,
)
    requires
        grown(t, u),
    ensures
        steady(
            t,
            u,
            fetch_from_run(a, t, link, r, n, last),
            fetch_from_run(a, u, link, r, n, last),
        ),
    decreases u.log.len() - u.at,
{
    fetch_round_is_steady(a, t, u, link, r, n, last);
    let x = fetch_round_run(a, t, link, r, n, last);
    let y = fetch_round_run(a, u, link, r, n, last);
    if let Ok((Err(next), reached)) = y.out {
        fetch_from_is_steady(a, y.tape, y.tape, link, Some(next), n + 1, reached);
        if x.out is Ok {
            fetch_from_is_steady(a, x.tape, y.tape, link, Some(next), n + 1, reached);
        }
    }
}

/// [`mark_run`] is steady.
pub proof fn mark_is_steady<'a>(
    a: &'a Actor<Online>,
    t: TapeView<'a>,
    u: TapeView<'a>,
    last: Option<NotifId>,
)
    requires
        grown(t, u),
    ensures
        steady(t, u, mark_run(a, t, last), mark_run(a, u, last)),
{
}

/// [`catch_up_run`] is steady.
pub proof fn catch_up_is_steady<'a>(
    a: &'a Actor<Online>,
    t: TapeView<'a>,
    u: TapeView<'a>,
    link: Link,
    last: Option<NotifId>,
)
    requires
        grown(t, u),
    ensures
        steady(t, u, catch_up_run(a, t, link, last), catch_up_run(a, u, link, last)),
{
    fetch_from_is_steady(a, t, u, link, None, 0, last);
    let x = fetch_from_run(a, t, link, None, 0, last);
    let y = fetch_from_run(a, u, link, None, 0, last);
    if let Ok((more, reached)) = y.out {
        mark_is_steady(a, y.tape, y.tape, reached);
        if x.out is Ok {
            mark_is_steady(a, x.tape, y.tape, reached);
        }
    }
}

/// [`skip_ahead_run`] is steady.
pub proof fn skip_ahead_is_steady<'a>(a: &'a Actor<Online>, t: TapeView<'a>, u: TapeView<'a>)
    requires
        grown(t, u),
    ensures
        steady(t, u, skip_ahead_run(a, t), skip_ahead_run(a, u)),
{
    call_is_steady::<Option<NotifId>>(a, t, u, ApiView::LastNotification);
}

/// [`notifications_run`] is steady.
pub proof fn notifications_is_steady<'a>(
    a: &'a Actor<Online>,
    t: TapeView<'a>,
    u: TapeView<'a>,
    always: bool,
)
    requires
        grown(t, u),
    ensures
        steady(t, u, notifications_run(a, t, always), notifications_run(a, u, always)),
{
    let q = QueryView::Db(a.db(), DbView::LastNotification);
    let x = ask::<Option<NotifId>>(t, q);
    let y = ask::<Option<NotifId>>(u, q);
    if let Ok(last) = y.out {
        let y2 = connect_again_run(a, y.tape);
        connect_again_is_steady(a, y.tape, y.tape);
        if let Ok(client) = y2.out {
            let link = Link { client, creds: Some(a.state.user.creds) };
            skip_ahead_is_steady(a, y2.tape, y2.tape);
            catch_up_is_steady(a, y2.tape, y2.tape, link, last);
        }
        if x.out is Ok {
            let x2 = connect_again_run(a, x.tape);
            connect_again_is_steady(a, x.tape, y.tape);
            if let Ok(client) = x2.out {
                let link = Link { client, creds: Some(a.state.user.creds) };
                skip_ahead_is_steady(a, x2.tape, y2.tape);
                catch_up_is_steady(a, x2.tape, y2.tape, link, last);
            }
        }
    }
}

impl Actor<Online> {
    fn read_stream<'a>(&'a self, tape: &mut Tape<'a>, link: Link, last: Option<NotifId>) -> (r:
        Result<Progress<'a, ()>, Stop<'a>>)
        ensures
            told(final(tape)@, r) == read_stream_run(self, old(tape)@, link, last),
    {
        let mut reached: Option<NotifId> = last;
        loop
            invariant
                read_stream_run(self, tape@, link, reached) == read_stream_run(
                    self,
                    old(tape)@,
                    link,
                    last,
                ),
            decreases tape@.log.len() - tape@.at,
        {
            let item: Result<&'a StreamItem, Stop<'a>> = tape.ask(Query::Api(link, Api::NextItem));
            match item {
                Ok(StreamItem::Next(n)) => {
                    proof {
                        on_notification_is_steady(self, tape@, tape@, n);
                    }
                    match self.on_notification(tape, n) {
                        Ok(()) => {
                            reached = Some(n.id);
                        },
                        Err(Stop::Fail(e)) => {
                            return Ok(Progress { result: Err(e), last: Some(n.id) });
                        },
                        Err(s) => {
                            return Err(s);
                        },
                    }
                },
                Ok(StreamItem::End) => {
                    return Ok(Progress { result: Ok(()), last: reached });
                },
                Err(Stop::Fail(_)) => {},
                Err(s) => {
                    return Err(s);
                },
            }
        }
    }

    fn close_stream<'a>(&'a self, tape: &mut Tape<'a>, link: Link) -> (r: Result<bool, Stop<'a>>)
        ensures
            told(final(tape)@, r) == close_stream_run(old(tape)@, link),
    {
        let more: &'a bool = tape.ask(Query::Api(link, Api::HasMore))?;
        tape.ask::<()>(Query::Api(link, Api::CloseStream))?;
        Ok(*more)
    }

    fn open_stream<'a>(
        &'a self,
        tape: &mut Tape<'a>,
        link: Link,
        r: Option<Reaction>,
        last: Option<NotifId>,
    ) -> (res: Result<(), Stop<'a>>)
        ensures
            told(final(tape)@, res) == open_stream_run(self, old(tape)@, link, r, last),
    {
        self.react(tape, r)?;
        tape.ask::<()>(
            Query::Api(link, Api::OpenStream(self.state.user.device.client.id.clone(), last)),
        )?;
        Ok(())
    }

    fn fetch_attempt<'a>(
        &'a self,
        tape: &mut Tape<'a>,
        link: Link,
        r: Option<Reaction>,
        last: Option<NotifId>,
    ) -> (res: Result<Progress<'a, bool>, Stop<'a>>)
        ensures
            told(final(tape)@, res) == fetch_attempt_run(self, old(tape)@, link, r, last),
    {
        match self.open_stream(tape, link, r, last) {
            Ok(()) => {},
            Err(Stop::Fail(e)) => {
                return Ok(Progress { result: Err(e), last });
            },
            Err(s) => {
                return Err(s);
            },
        }
        let p = self.read_stream(tape, link, last)?;
        match p.result {
            Ok(()) => match self.close_stream(tape, link) {
                Ok(more) => Ok(Progress { result: Ok(more), last: p.last }),
                Err(Stop::Fail(e)) => Ok(Progress { result: Err(e), last: p.last }),
                Err(s) => Err(s),
            },
            Err(e) => Ok(Progress { result: Err(e), last: p.last }),
        }
    }

    fn fetch<'a>(&'a self, tape: &mut Tape<'a>, link: Link, last: Option<NotifId>) -> (res: Result<
        (bool, Option<NotifId>),
        Stop<'a>,
    >)
        ensures
            told(final(tape)@, res) == fetch_from_run(self, old(tape)@, link, None, 0, last),
    {
        let mut r: Option<Reaction> = None;
        let mut n: u64 = 0;
        let mut reached: Option<NotifId> = last;
        loop
            invariant
                n <= tape@.at,
                fetch_from_run(self, tape@, link, r, n as nat, reached) == fetch_from_run(
                    self,
                    old(tape)@,
                    link,
                    None,
                    0,
                    last,
                ),
            decreases tape@.log.len() - tape@.at,
        {
            let ghost before = tape@;
            proof {
                fetch_round_is_steady(self, tape@, tape@, link, r, n as nat, reached);
            }
            let p = self.fetch_attempt(tape, link, r, reached)?;
            let x: Result<bool, Stop<'a>> = match p.result {
                Ok(more) => Ok(more),
                Err(e) => Err(Stop::Fail(e)),
            };
            assert(told(tape@, x) == settled(tape@, p.result));
            match weighed(tape, x, n)? {
                Ok(more) => {
                    return Ok((more, p.last));
                },
                Err(next) => {
                    assert(tape@ == fetch_round_run(
                        self,
                        before,
                        link,
                        r,
                        n as nat,
                        reached,
                    ).tape);
                    proof {
                        tape.is_short();
                    }
                    r = Some(next);
                    n = n + 1;
                    reached = p.last;
                },
            }
        }
    }

    fn mark<'a>(&'a self, tape: &mut Tape<'a>, last: Option<NotifId>) -> (r: Result<(), Stop<'a>>)
        ensures
            told(final(tape)@, r) == mark_run(self, old(tape)@, last),
    {
        if let Some(id) = last {
            tape.ask::<()>(Query::Db(self.state.user.dbase, Db::SetLastNotification(id)))?;
        }
        Ok(())
    }

    /// Checks for new notifications at the back-end. The result says whether there are more.
    pub fn notifications<'a>(&'a self, tape: &mut Tape<'a>, always: bool) -> (r: Result<
        bool,
        Stop<'a>,
    >)
        ensures
            told(final(tape)@, r) == notifications_run(self, old(tape)@, always),
    {
        let last: &'a Option<NotifId> = tape.ask(
            Query::Db(self.state.user.dbase, Db::LastNotification),
        )?;
        let client = self.connect_again(tape)?;
        if self.is_new_client() && !always {
            let last: &'a Option<NotifId> = self.call(tape, Api::LastNotification)?;
            self.mark(tape, *last)?;
            return Ok(false);
        }
        let link = Link { client, creds: Some(self.state.user.creds) };
        let (more, last) = self.fetch(tape, link, *last)?;
        self.mark(tape, last)?;
        Ok(more)
    }
}

} // verus!
