//! How notifications are fetched, and how connections and conversations are listed.
use crate::access::{call_run, connect_again_run, react_run};
use crate::actor::{Actor, Online};
use crate::directory::resolve_user_run;
use crate::events::{
    on_events_is_steady, on_events_run, on_notification_is_steady, on_notification_run,
};
use crate::feed::{
    fetch_attempt_run, fetch_from_run, finish_stream_run, mark_run, notifications_run,
    open_stream_run, read_stream_run, Progress,
};
use crate::footprint::topic;
use crate::laws_login::follows;
use crate::laws_messages::{event_topics, events_touch};
use crate::laws_retries::begins_with_run;
use crate::model::{
    ConvId, Error, NotifId, Notification, Page, Reaction, StreamItem, UserConnection,
};
use crate::query::{ApiView, DbView, Link, QueryView};
use crate::sync::{
    connection_pages_run, keep_connection_run, keep_connections_run, resolve_conversations_run,
    resolve_listed_run, resolve_pages_run, resolve_user_connections_run,
};
use crate::tape::{ask, done, Reply, Run, StopView, TapeView};
use crate::trace::{
    answers, ends_as, hears, look_ahead, nothing_is_picked_between, picked, picked_from_one,
    picked_in_parts, qa, said, said_in_parts, Said,
};
use vstd::prelude::*;

verus! {

// ---- Streams ----------------------------------------------------------------------------------

/// How a stream of notifications is read. Each notification is taken in, and reading goes on after
/// it; one that cannot be taken in ends the stream, and counts as reached. What cannot be read is
/// passed over.
pub proof fn stream_is_read_item_by_item<'a>(
    a: &'a Actor<Online>,
    t: TapeView<'a>,
    link: Link,
    last: Option<NotifId>,
)
    ensures
        ({
            let x = ask::<StreamItem>(t, QueryView::Api(link, ApiView::NextItem));
            let r = read_stream_run(a, t, link, last);
            match x.out {
                Ok(StreamItem::Next(n)) => {
                    let y = on_notification_run(a, x.tape, &n);
                    match y.out {
                        Ok(_) => r == read_stream_run(a, y.tape, link, Some(n.id)),
                        Err(StopView::Fail(e)) => r.tape == y.tape && (r.out matches Ok(p)
                            && p.result == Err::<(), Error<'a>>(e) && p.last == Some(n.id)),
                        Err(_) => ends_as(r, y),
                    }
                },
                Ok(StreamItem::End) => r.tape == x.tape && (r.out matches Ok(p) && p.result is Ok
                    && p.last == last),
                Err(StopView::Fail(_)) => r == read_stream_run(a, x.tape, link, last),
                Err(_) => ends_as(r, x),
            }
        }),
{
}

/// The notification that a stream holds next.
pub open spec fn item_told<'a>() -> spec_fn(Said<'a>) -> Option<NotifId> {
    |x: Said<'a>|
        match (x.q, x.r) {
            (QueryView::Api(_, ApiView::NextItem), Reply::StreamItem(StreamItem::Next(n))) => Some(
                n.id,
            ),
            _ => None,
        }
}

/// The notification of which it is asked whether it was seen.
pub open spec fn item_sought<'a>() -> spec_fn(Said<'a>) -> Option<NotifId> {
    |x: Said<'a>|
        match x.q {
            QueryView::Db(_, DbView::HasNotification(id)) => Some(id),
            _ => None,
        }
}

/// Is this neither about the next item of a stream, nor about whether a notification was seen?
spec fn is_aside<'a>(q: QueryView<'a>) -> bool {
    &&& !(q matches QueryView::Api(_, ApiView::NextItem))
    &&& !(q matches QueryView::Db(_, DbView::HasNotification(_)))
}

proof fn asides_are_not_picked<'a>(t: TapeView<'a>, u: TapeView<'a>)
    requires
        follows(t, u),
        forall|i: int| t.asked.len() <= i < u.asked.len() ==> is_aside(#[trigger] u.asked[i]),
    ensures
        picked(said(t, u), item_told()) == Seq::<NotifId>::empty(),
        picked(said(t, u), item_sought()) == Seq::<NotifId>::empty(),
{
    nothing_is_picked_between(t, u, item_told());
    nothing_is_picked_between(t, u, item_sought());
}

proof fn notification_is_looked_for_once<'a>(
    a: &'a Actor<Online>,
    t: TapeView<'a>,
    n: &'a Notification,
)
    ensures
        ({
            let r = on_notification_run(a, t, n);
            let over = match r.out {
                Ok(_) => true,
                Err(StopView::Fail(_)) => true,
                _ => false,
            };
            over ==> {
                &&& follows(t, r.tape)
                &&& picked(said(t, r.tape), item_told()) == Seq::<NotifId>::empty()
                &&& picked(said(t, r.tape), item_sought()) == seq![n.id]
            }
        }),
{
    let r = on_notification_run(a, t, n);
    let over = match r.out {
        Ok(_) => true,
        Err(StopView::Fail(_)) => true,
        _ => false,
    };
    if over {
        on_notification_is_steady(a, t, t, n);
        let q = QueryView::Db(a.db(), DbView::HasNotification(n.id));
        let x = ask::<bool>(t, q);
        assert(follows(t, x.tape));
        rest_of_notification_is_aside(a, t, n);
        let (s1, s2) = (said(t, x.tape), said(x.tape, r.tape));
        asides_are_not_picked(x.tape, r.tape);
        said_in_parts(t, x.tape, r.tape);
        assert(s1 =~= seq![qa(q, t.log[t.at as int])]);
        picked_from_one(s1[0], item_told());
        picked_from_one(s1[0], item_sought());
        picked_in_parts(s1, s2, item_told());
        picked_in_parts(s1, s2, item_sought());
        assert(picked(s1 + s2, item_told()) =~= Seq::empty());
        assert(picked(s1 + s2, item_sought()) =~= seq![n.id]);
    }
}

proof fn rest_of_notification_is_aside<'a>(
    a: &'a Actor<Online>,
    t: TapeView<'a>,
    n: &'a Notification,
)
    requires
        match on_notification_run(a, t, n).out {
            Ok(_) => true,
            Err(StopView::Fail(_)) => true,
            _ => false,
        },
    ensures
        ({
            let x = ask::<bool>(t, QueryView::Db(a.db(), DbView::HasNotification(n.id)));
            let u = on_notification_run(a, t, n).tape;
            &&& follows(x.tape, u)
            &&& forall|i: int|
                x.tape.asked.len() <= i < u.asked.len() ==> is_aside(#[trigger] u.asked[i])
        }),
{
    let r = on_notification_run(a, t, n);
    let x = ask::<bool>(t, QueryView::Db(a.db(), DbView::HasNotification(n.id)));
    if let Ok(false) = x.out {
        let y = on_events_run(a, x.tape, n.events@);
        events_touch(a, x.tape, n.events@);
        on_events_is_steady(a, x.tape, x.tape, n.events@);
        assert forall|i: int| x.tape.asked.len() <= i < r.tape.asked.len() implies is_aside(
            #[trigger] r.tape.asked[i],
        ) by {
            if i < y.tape.asked.len() {
                assert(r.tape.asked[i] == y.tape.asked[i]);
                assert(event_topics().contains(topic(y.tape.asked[i])));
            }
        }
        assert(follows(x.tape, y.tape));
        if y.out is Ok {
            assert(follows(y.tape, r.tape));
            said_in_parts(x.tape, y.tape, r.tape);
        }
    }
}

/// Every notification that a stream holds is looked for among those that were seen, in order: none
/// is passed over, and none comes twice.
pub proof fn every_notification_of_a_stream_is_taken_up<'a>(
    a: &'a Actor<Online>,
    t: TapeView<'a>,
    link: Link,
    last: Option<NotifId>,
)
    ensures
        read_stream_run(a, t, link, last).out is Ok ==> {
            let ss = said(t, read_stream_run(a, t, link, last).tape);
            &&& follows(t, read_stream_run(a, t, link, last).tape)
            &&& picked(ss, item_sought()) == picked(ss, item_told())
        },
    decreases t.log.len() - t.at,
{
    let r = read_stream_run(a, t, link, last);
    if r.out is Ok {
        let q = QueryView::Api(link, ApiView::NextItem);
        let x = ask::<StreamItem>(t, q);
        let s1 = said(t, x.tape);
        assert(follows(t, x.tape));
        assert(s1 =~= seq![qa(q, t.log[t.at as int])]);
        picked_from_one(s1[0], item_told());
        picked_from_one(s1[0], item_sought());
        match x.out {
            Ok(StreamItem::Next(n)) => {
                let y = on_notification_run(a, x.tape, &n);
                notification_is_looked_for_once(a, x.tape, &n);
                let s2 = said(x.tape, y.tape);
                said_in_parts(t, x.tape, y.tape);
                picked_in_parts(s1, s2, item_told());
                picked_in_parts(s1, s2, item_sought());
                assert(picked(s1 + s2, item_told()) =~= seq![n.id]);
                assert(picked(s1 + s2, item_sought()) =~= seq![n.id]);
                if y.out is Ok {
                    every_notification_of_a_stream_is_taken_up(a, y.tape, link, Some(n.id));
                    let s3 = said(y.tape, r.tape);
                    said_in_parts(t, y.tape, r.tape);
                    picked_in_parts(s1 + s2, s3, item_told());
                    picked_in_parts(s1 + s2, s3, item_sought());
                }
            },
            Ok(StreamItem::End) => {},
            Err(_) => {
                every_notification_of_a_stream_is_taken_up(a, x.tape, link, last);
                let s2 = said(x.tape, r.tape);
                said_in_parts(t, x.tape, r.tape);
                picked_in_parts(s1, s2, item_told());
                picked_in_parts(s1, s2, item_sought());
                assert(picked(s1 + s2, item_told()) =~= picked(s2, item_told()));
                assert(picked(s1 + s2, item_sought()) =~= picked(s2, item_sought()));
            },
        }
    }
}

/// How a stream is opened: for our device, after the last notification that was reached, once the
/// attempt has begun as wanted.
pub proof fn stream_is_opened_where_it_was_left<'a>(
    a: &'a Actor<Online>,
    t: TapeView<'a>,
    link: Link,
    r: Option<Reaction>,
    last: Option<NotifId>,
)
    ensures
        begins_with_run(
            react_run(a, t, r),
            open_stream_run(a, t, link, r, last),
            |u: TapeView<'a>|
                ask::<()>(
                    u,
                    QueryView::Api(
                        link,
                        ApiView::OpenStream(a.state.user.device.client.id@, last),
                    ),
                ),
        ),
{
}

/// How an attempt to fetch ends. Unless it failed, it is asked whether there is more, and the
/// stream is closed. Whatever comes of that, how far we got stays.
pub proof fn finished_stream_is_closed<'a>(
    t: TapeView<'a>,
    link: Link,
    p: Progress<'a, ()>,
)
    ensures
        ({
            let r = finish_stream_run(t, link, p);
            let x = ask::<bool>(t, QueryView::Api(link, ApiView::HasMore));
            let y = ask::<()>(x.tape, QueryView::Api(link, ApiView::CloseStream));
            match (p.result, x.out, y.out) {
                (Err(e), _, _) => r.tape == t && (r.out matches Ok(q) && q.result == Err::<
                    bool,
                    Error<'a>,
                >(e) && q.last == p.last),
                (Ok(_), Err(StopView::Fail(e)), _) => r.tape == x.tape && (r.out matches Ok(q)
                    && q.result == Err::<bool, Error<'a>>(e) && q.last == p.last),
                (Ok(_), Err(_), _) => ends_as(r, x),
                (Ok(_), Ok(_), Err(StopView::Fail(e))) => r.tape == y.tape && (r.out matches Ok(q)
                    && q.result == Err::<bool, Error<'a>>(e) && q.last == p.last),
                (Ok(_), Ok(_), Err(_)) => ends_as(r, y),
                (Ok(_), Ok(more), Ok(_)) => r.tape == y.tape && (r.out matches Ok(q) && q.result
                    == Ok::<bool, Error<'a>>(more) && q.last == p.last),
            }
        }),
{
}

/// How an attempt to fetch goes: the stream is opened, read, and finished. If it cannot be opened,
/// we got no further.
pub proof fn attempt_reads_the_stream<'a>(
    a: &'a Actor<Online>,
    t: TapeView<'a>,
    link: Link,
    how: Option<Reaction>,
    last: Option<NotifId>,
)
    ensures
        ({
            let x = open_stream_run(a, t, link, how, last);
            let y = read_stream_run(a, x.tape, link, last);
            let r = fetch_attempt_run(a, t, link, how, last);
            match (x.out, y.out) {
                (Err(StopView::Fail(e)), _) => r.tape == x.tape && (r.out matches Ok(p)
                    && p.result == Err::<bool, Error<'a>>(e) && p.last == last),
                (Err(_), _) => ends_as(r, x),
                (Ok(_), Err(_)) => ends_as(r, y),
                (Ok(_), Ok(p)) => r == finish_stream_run(y.tape, link, p),
            }
        }),
{
}

/// What follows an attempt to fetch. One that failed is followed by another if the retry policy
/// wants that, and it goes on from where the last one got to.
pub proof fn next_attempt_goes_on_from_there<'a>(
    a: &'a Actor<Online>,
    t: TapeView<'a>,
    link: Link,
    how: Option<Reaction>,
    n: nat,
    last: Option<NotifId>,
)
    ensures
        ({
            let x = fetch_attempt_run(a, t, link, how, last);
            let r = fetch_from_run(a, t, link, how, n, last);
            match x.out {
                Err(_) => ends_as(r, x),
                Ok(p) => match p.result {
                    Ok(more) => r.tape == x.tape && r.out == Ok::<
                        (bool, Option<NotifId>),
                        StopView<'a>,
                    >((more, p.last)),
                    Err(e) => {
                        let y = ask::<Option<Reaction>>(
                            x.tape,
                            QueryView::Recover { error: e, failed: n },
                        );
                        match y.out {
                            Ok(Some(next)) => r == fetch_from_run(
                                a,
                                y.tape,
                                link,
                                Some(next),
                                n + 1,
                                p.last,
                            ),
                            Ok(None) => r.tape == y.tape && r.out == Err::<
                                (bool, Option<NotifId>),
                                StopView<'a>,
                            >(StopView::Fail(e)),
                            Err(_) => ends_as(r, y),
                        }
                    },
                },
            }
        }),
{
}

/// Is the last notification that was reached stored, if there is one, and is that all?
pub open spec fn is_marked<'a, T>(
    a: &'a Actor<Online>,
    t: TapeView<'a>,
    last: Option<NotifId>,
    r: Run<'a, T>,
    v: T,
) -> bool {
    match last {
        None => r.tape == t && r.out == Ok::<T, StopView<'a>>(v),
        Some(id) => {
            &&& r.out matches Ok(got) ==> got == v && hears(
                t,
                r.tape,
                seq![qa(QueryView::Db(a.db(), DbView::SetLastNotification(id)), Reply::Done)],
            )
            &&& answers(t, seq![Reply::Done]) ==> r.out is Ok
        },
    }
}

proof fn last_is_marked<'a>(a: &'a Actor<Online>, t: TapeView<'a>, last: Option<NotifId>, more: bool)
    ensures
        is_marked(
            a,
            t,
            last,
            mark_run(a, t, last).and_then(|t: TapeView<'a>, _x: ()| done(t, more)),
            more,
        ),
{
    if let Some(id) = last {
        let q = QueryView::Db(a.db(), DbView::SetLastNotification(id));
        let x = ask::<()>(t, q);
        if x.out is Ok {
            assert(said(t, x.tape) =~= seq![qa(q, Reply::Done)]);
        }
        look_ahead(t, seq![Reply::Done]);
    }
}

/// How notifications are fetched. We connect first. On a new device, unless they are wanted in any
/// case, we only note which notification is the last, and there are no more. Otherwise they are
/// fetched from the last one on that was reached, over the new connection with our credentials; the
/// one that was reached then is stored, and there are more if the back-end says so.
pub proof fn notifications_are_fetched_from_the_last_one<'a>(
    a: &'a Actor<Online>,
    t: TapeView<'a>,
    always: bool,
)
    ensures
        ({
            let x = ask::<Option<NotifId>>(t, QueryView::Db(a.db(), DbView::LastNotification));
            let y = connect_again_run(a, x.tape);
            let r = notifications_run(a, t, always);
            match (x.out, y.out) {
                (Err(_), _) => ends_as(r, x),
                (Ok(_), Err(_)) => ends_as(r, y),
                (Ok(last), Ok(client)) => if a.state.user.device.fresh && !always {
                    let z = call_run::<Option<NotifId>>(a, y.tape, ApiView::LastNotification);
                    match z.out {
                        Err(_) => ends_as(r, z),
                        Ok(newest) => is_marked(a, z.tape, newest, r, false),
                    }
                } else {
                    let link = Link { client, creds: Some(a.state.user.creds) };
                    let z = fetch_from_run(a, y.tape, link, None, 0, last);
                    match z.out {
                        Err(_) => ends_as(r, z),
                        Ok((more, reached)) => is_marked(a, z.tape, reached, r, more),
                    }
                },
            }
        }),
{
    let x = ask::<Option<NotifId>>(t, QueryView::Db(a.db(), DbView::LastNotification));
    let y = connect_again_run(a, x.tape);
    if let (Ok(last), Ok(client)) = (x.out, y.out) {
        if a.state.user.device.fresh && !always {
            let z = call_run::<Option<NotifId>>(a, y.tape, ApiView::LastNotification);
            if let Ok(newest) = z.out {
                last_is_marked(a, z.tape, newest, false);
            }
        } else {
            let link = Link { client, creds: Some(a.state.user.creds) };
            let z = fetch_from_run(a, y.tape, link, None, 0, last);
            if let Ok((more, reached)) = z.out {
                last_is_marked(a, z.tape, reached, more);
            }
        }
    }
}

// ---- Listings ---------------------------------------------------------------------------------

/// A connection that is listed is stored if and only if the user whom it leads to is found; the
/// user is fetched in any case.
pub proof fn listed_connection_is_stored_if_user_is_found<'a>(
    a: &'a Actor<Online>,
    t: TapeView<'a>,
    c: &'a UserConnection,
)
    ensures
        ({
            let x = resolve_user_run(a, t, c.to, false);
            let r = keep_connection_run(a, t, c);
            match x.out {
                Err(_) => ends_as(r, x),
                Ok(None) => r.tape == x.tape && r.out is Ok,
                Ok(Some(_)) => {
                    let q = QueryView::Db(a.db(), DbView::InsertConnection(c));
                    &&& r.out is Ok ==> hears(x.tape, r.tape, seq![qa(q, Reply::Done)])
                    &&& answers(x.tape, seq![Reply::Done]) ==> r.out is Ok
                },
            }
        }),
{
    let x = resolve_user_run(a, t, c.to, false);
    let r = keep_connection_run(a, t, c);
    if let Ok(Some(_)) = x.out {
        let q = QueryView::Db(a.db(), DbView::InsertConnection(c));
        if r.out is Ok {
            assert(said(x.tape, r.tape) =~= seq![qa(q, Reply::Done)]);
        }
        look_ahead(x.tape, seq![Reply::Done]);
    }
}

/// How connections are listed: page by page, each of up to 256. All of a page are gone through
/// before the next one is asked for, which begins after the last of them. A page that says it is
/// the last one, or that is empty, is the last.
pub proof fn connections_are_listed_page_by_page<'a>(
    a: &'a Actor<Online>,
    t: TapeView<'a>,
    page: Page<UserConnection>,
)
    ensures
        ({
            let x = keep_connections_run(a, t, page.value@);
            let y = call_run::<Page<UserConnection>>(
                a,
                x.tape,
                ApiView::Connections(256, Some(page.value@[page.value@.len() - 1].to)),
            );
            let r = connection_pages_run(a, t, page);
            match (x.out, y.out) {
                (Err(_), _) => ends_as(r, x),
                (Ok(_), _) if !page.has_more || page.value@.len() == 0 => r.tape == x.tape
                    && r.out is Ok,
                (Ok(_), Err(_)) => ends_as(r, y),
                (Ok(_), Ok(next)) => r == connection_pages_run(a, y.tape, next),
            }
        }),
        ({
            let x = call_run::<Page<UserConnection>>(a, t, ApiView::Connections(256, None));
            let r = resolve_user_connections_run(a, t);
            match x.out {
                Err(_) => ends_as(r, x),
                Ok(first) => r == connection_pages_run(a, x.tape, first),
            }
        }),
{
}

/// How conversations are listed: page by page, each of up to 256, a thousand in all. All of a page
/// are resolved, or as many as are left to a thousand, before the next one is asked for, which
/// begins after the last of them. A page that says it is the last one, or that is empty, or with
/// which a thousand is reached, is the last.
pub proof fn conversations_are_listed_page_by_page<'a>(
    a: &'a Actor<Online>,
    t: TapeView<'a>,
    page: Page<ConvId>,
    resolved: int,
)
    requires
        0 <= resolved <= 1000,
    ensures
        ({
            let all = page.value@;
            let ids = if resolved + all.len() <= 1000 {
                all
            } else {
                all.take(1000 - resolved)
            };
            let x = resolve_listed_run(a, t, ids);
            let y = call_run::<Page<ConvId>>(
                a,
                x.tape,
                ApiView::Conversations(256, Some(all[all.len() - 1])),
            );
            let r = resolve_pages_run(a, t, page, resolved);
            match (x.out, y.out) {
                (Err(_), _) => ends_as(r, x),
                (Ok(_), _) if !page.has_more || all.len() == 0 || resolved + all.len() >= 1000
                    => r.tape == x.tape && r.out is Ok,
                (Ok(_), Err(_)) => ends_as(r, y),
                (Ok(_), Ok(next)) => r == resolve_pages_run(
                    a,
                    y.tape,
                    next,
                    resolved + all.len(),
                ),
            }
        }),
        ({
            let x = call_run::<Page<ConvId>>(a, t, ApiView::Conversations(256, None));
            let r = resolve_conversations_run(a, t);
            match x.out {
                Err(_) => ends_as(r, x),
                Ok(first) => r == resolve_pages_run(a, x.tape, first, 0),
            }
        }),
{
}

} // verus!
