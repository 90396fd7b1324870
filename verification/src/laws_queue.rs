//! How the queue of unsent messages is gone through.
use crate::actor::{Actor, Online};
use crate::footprint::topic;
use crate::laws_login::follows;
use crate::laws_messages::{delivery_topics, delivery_touches};
use crate::model::{Envelope, Handle, OutMessage, QueueItem, QueuePage};
use crate::outbox::{
    deliver_from_is_steady, deliver_from_run, send_message_is_steady, send_message_run,
};
use crate::query::{Code, DbView, PkgView, QueryView};
use crate::resend::{
    resend_item_is_steady, resend_item_run, resend_items_is_steady, resend_items_run,
    resend_pages_run, resend_run, settle_item_is_steady,
};
use crate::tape::{ask, done, Reply, StopView, TapeView};
use crate::text::blob_text;
use crate::trace::{
    answers, ends_as, hears, look_ahead, nothing_is_picked_between, picked, picked_from_one,
    picked_in_parts, qa, said, said_in_parts, Said,
};
use vstd::prelude::*;

verus! {

/// The encoded message that is to be parsed.
pub open spec fn to_parse<'a>() -> spec_fn(Said<'a>) -> Option<Vec<u8>> {
    |x: Said<'a>|
        match x.q {
            QueryView::Code(Code::ParseMessage(m)) => Some(*m),
            _ => None,
        }
}

/// The page of the queue that is asked for.
pub open spec fn page_sought<'a>() -> spec_fn(Said<'a>) -> Option<(Option<Handle>, usize)> {
    |x: Said<'a>|
        match x.q {
            QueryView::Db(_, DbView::QueueItems(from, num)) => Some((from, num)),
            _ => None,
        }
}

/// The page of the queue that is read.
pub open spec fn page_told<'a>() -> spec_fn(Said<'a>) -> Option<QueuePage> {
    |x: Said<'a>|
        match (x.q, x.r) {
            (QueryView::Db(_, DbView::QueueItems(_, _)), Reply::QueuePage(p)) => Some(p),
            _ => None,
        }
}

/// The encoded messages of items.
pub open spec fn encoded(items: Seq<QueueItem>) -> Seq<Vec<u8>> {
    items.map_values(|q: QueueItem| q.mesg)
}

/// The encoded messages of all the items of pages, in order.
pub open spec fn all_encoded(ps: Seq<QueuePage>) -> Seq<Vec<u8>>
    decreases ps.len(),
{
    if ps.len() == 0 {
        Seq::empty()
    } else {
        encoded(ps[0].items@) + all_encoded(ps.drop_first())
    }
}

/// Where each page ends.
pub open spec fn ends_of(ps: Seq<QueuePage>) -> Seq<(Option<Handle>, usize)> {
    ps.map_values(|p: QueuePage| (Some(p.next), 10usize))
}

/// Are these the pages of a queue, of which all but the last are full?
pub open spec fn all_but_the_last_are_full(ps: Seq<QueuePage>) -> bool {
    &&& ps.len() > 0
    &&& forall|k: int| 0 <= k < ps.len() - 1 ==> (#[trigger] ps[k]).items@.len() == 10
    &&& ps.last().items@.len() != 10
}

/// How an item of the queue is gone through. One whose message or envelope cannot be parsed is
/// passed over. Otherwise the message is sent; if that succeeds, the item is taken out of the
/// queue, and the time is broadcast if the id is a text.
pub proof fn item_is_sent_and_taken_out<'a>(
    a: &'a Actor<Online>,
    t: TapeView<'a>,
    q: &'a QueueItem,
)
    ensures
        ({
            let x = ask::<Option<OutMessage>>(t, QueryView::Code(Code::ParseMessage(&q.mesg)));
            let y = ask::<Option<Handle>>(x.tape, QueryView::Code(Code::ParseEnvelope(&q.data)));
            let r = resend_item_run(a, t, q);
            match (x.out, y.out) {
                (Err(s), _) => r.tape == x.tape && r.out == Err::<(), StopView<'a>>(s),
                (Ok(None), _) => r == done(x.tape, ()),
                (Ok(Some(_)), Err(s)) => r.tape == y.tape && r.out == Err::<(), StopView<'a>>(s),
                (Ok(Some(_)), Ok(None)) => r == done(y.tape, ()),
                (Ok(Some(msg)), Ok(Some(record))) => {
                    let z = send_message_run(a, y.tape, Envelope { conv: q.conv, record }, &msg);
                    match z.out {
                        Err(s) => r.tape == z.tape && r.out == Err::<(), StopView<'a>>(s),
                        Ok(time) => {
                            let taken = qa(
                                QueryView::Db(a.db(), DbView::Dequeue(&q.id, q.conv)),
                                Reply::Done,
                            );
                            &&& r.out is Ok ==> hears(
                                z.tape,
                                r.tape,
                                match blob_text(q.id@) {
                                    Some(id) => seq![
                                        taken,
                                        qa(
                                            QueryView::Publish(
                                                a.state.bcast,
                                                PkgView::MessageUpdate(q.conv, id, time),
                                            ),
                                            Reply::Done,
                                        ),
                                    ],
                                    None => seq![taken],
                                },
                            )
                            &&& answers(z.tape, seq![Reply::Done, Reply::Done]) ==> r.out is Ok
                        },
                    }
                },
            }
        }),
{
    let r = resend_item_run(a, t, q);
    let x = ask::<Option<OutMessage>>(t, QueryView::Code(Code::ParseMessage(&q.mesg)));
    let y = ask::<Option<Handle>>(x.tape, QueryView::Code(Code::ParseEnvelope(&q.data)));
    if let (Ok(Some(msg)), Ok(Some(record))) = (x.out, y.out) {
        let z = send_message_run(a, y.tape, Envelope { conv: q.conv, record }, &msg);
        if let Ok(time) = z.out {
            look_ahead(z.tape, seq![Reply::Done, Reply::Done]);
            if r.out is Ok {
                let taken = qa(
                    QueryView::Db(a.db(), DbView::Dequeue(&q.id, q.conv)),
                    Reply::Done,
                );
                assert(follows(z.tape, r.tape));
                match blob_text(q.id@) {
                    Some(id) => {
                        let told = qa(
                            QueryView::Publish(
                                a.state.bcast,
                                PkgView::MessageUpdate(q.conv, id, time),
                            ),
                            Reply::Done,
                        );
                        assert(said(z.tape, r.tape) =~= seq![taken, told]);
                    },
                    None => {
                        assert(said(z.tape, r.tape) =~= seq![taken]);
                    },
                }
            }
        }
    }
}

/// Does this concern neither the parsing of messages nor pages of the queue?
spec fn is_quiet<'a>(q: QueryView<'a>) -> bool {
    &&& !(q matches QueryView::Code(Code::ParseMessage(_)))
    &&& !(q matches QueryView::Db(_, DbView::QueueItems(_, _)))
}

proof fn quiet_is_not_picked<'a>(t: TapeView<'a>, u: TapeView<'a>)
    requires
        follows(t, u),
        forall|i: int| t.asked.len() <= i < u.asked.len() ==> is_quiet(#[trigger] u.asked[i]),
    ensures
        picked(said(t, u), to_parse()) == Seq::<Vec<u8>>::empty(),
        picked(said(t, u), page_sought()) == Seq::<(Option<Handle>, usize)>::empty(),
        picked(said(t, u), page_told()) == Seq::<QueuePage>::empty(),
{
    nothing_is_picked_between(t, u, to_parse());
    nothing_is_picked_between(t, u, page_sought());
    nothing_is_picked_between(t, u, page_told());
}

proof fn sending_is_quiet<'a>(
    a: &'a Actor<Online>,
    t: TapeView<'a>,
    envelope: Envelope,
    msg: &'a OutMessage,
)
    ensures
        send_message_run(a, t, envelope, msg).out is Ok ==> {
            let u = send_message_run(a, t, envelope, msg).tape;
            &&& follows(t, u)
            &&& forall|i: int|
                t.asked.len() <= i < u.asked.len() ==> is_quiet(#[trigger] u.asked[i])
        },
{
    let r = send_message_run(a, t, envelope, msg);
    if r.out is Ok {
        send_message_is_steady(a, t, t, envelope, msg);
        let x = ask::<Vec<u8>>(t, QueryView::Code(Code::EncodeMessage(msg)));
        let plain = x.out->Ok_0;
        let y = deliver_from_run(a, x.tape, None, 0, &plain, envelope);
        delivery_touches(a, x.tape, None, 0, &plain, envelope);
        deliver_from_is_steady(a, x.tape, x.tape, None, 0, &plain, envelope);
        let time = y.out->Ok_0;
        assert(r.tape.asked =~= y.tape.asked.push(
            QueryView::Db(a.db(), DbView::MessageSent(envelope.conv, &msg.id)),
        ).push(QueryView::Db(a.db(), DbView::MessageTime(envelope.conv, &msg.id, time))).push(
            QueryView::Db(a.db(), DbView::ConvTime(envelope.conv, time.secs)),
        ));
        assert forall|i: int| t.asked.len() <= i < r.tape.asked.len() implies is_quiet(
            #[trigger] r.tape.asked[i],
        ) by {
            if i < x.tape.asked.len() {
                assert(y.tape.asked[i] == x.tape.asked[i]);
            } else if i < y.tape.asked.len() {
                assert(delivery_topics().contains(topic(y.tape.asked[i])));
            }
        }
    }
}

proof fn item_is_parsed<'a>(a: &'a Actor<Online>, t: TapeView<'a>, q: &'a QueueItem)
    ensures
        resend_item_run(a, t, q).out is Ok ==> {
            let u = resend_item_run(a, t, q).tape;
            &&& follows(t, u)
            &&& picked(said(t, u), to_parse()) == seq![q.mesg]
            &&& picked(said(t, u), page_sought()) == Seq::<(Option<Handle>, usize)>::empty()
            &&& picked(said(t, u), page_told()) == Seq::<QueuePage>::empty()
        },
{
    let r = resend_item_run(a, t, q);
    if r.out is Ok {
        let x = ask::<Option<OutMessage>>(t, QueryView::Code(Code::ParseMessage(&q.mesg)));
        let (s1, s2) = (said(t, x.tape), said(x.tape, r.tape));
        resend_item_is_steady(a, t, t, q);
        assert(follows(x.tape, r.tape)) by {
            rest_of_item_is_quiet(a, t, q);
        }
        rest_of_item_is_quiet(a, t, q);
        quiet_is_not_picked(x.tape, r.tape);
        said_in_parts(t, x.tape, r.tape);
        assert(s1 =~= seq![
            qa(QueryView::Code(Code::ParseMessage(&q.mesg)), Reply::MaybeMessage(x.out->Ok_0)),
        ]);
        picked_from_one(s1[0], to_parse());
        picked_from_one(s1[0], page_sought());
        picked_from_one(s1[0], page_told());
        picked_in_parts(s1, s2, to_parse());
        picked_in_parts(s1, s2, page_sought());
        picked_in_parts(s1, s2, page_told());
        assert(picked(s1 + s2, to_parse()) =~= seq![q.mesg]);
        assert(picked(s1 + s2, page_sought()) =~= Seq::empty());
        assert(picked(s1 + s2, page_told()) =~= Seq::empty());
    }
}

proof fn rest_of_item_is_quiet<'a>(a: &'a Actor<Online>, t: TapeView<'a>, q: &'a QueueItem)
    requires
        resend_item_run(a, t, q).out is Ok,
    ensures
        ({
            let x = ask::<Option<OutMessage>>(t, QueryView::Code(Code::ParseMessage(&q.mesg)));
            let u = resend_item_run(a, t, q).tape;
            &&& follows(x.tape, u)
            &&& forall|i: int|
                x.tape.asked.len() <= i < u.asked.len() ==> is_quiet(#[trigger] u.asked[i])
        }),
{
    let r = resend_item_run(a, t, q);
    let x = ask::<Option<OutMessage>>(t, QueryView::Code(Code::ParseMessage(&q.mesg)));
    if let Ok(Some(msg)) = x.out {
        let y = ask::<Option<Handle>>(x.tape, QueryView::Code(Code::ParseEnvelope(&q.data)));
        if let Ok(Some(record)) = y.out {
            let envelope = Envelope { conv: q.conv, record };
            let z = send_message_run(a, y.tape, envelope, &msg);
            sending_is_quiet(a, y.tape, envelope, &msg);
            settle_item_is_steady(a, z.tape, z.tape, q, z.out->Ok_0);
            said_in_parts(y.tape, z.tape, r.tape);
            said_in_parts(x.tape, y.tape, r.tape);
            assert forall|i: int| x.tape.asked.len() <= i < r.tape.asked.len() implies is_quiet(
                #[trigger] r.tape.asked[i],
            ) by {
                if i < y.tape.asked.len() {
                    assert(r.tape.asked[i] == y.tape.asked[i]);
                } else if i < z.tape.asked.len() {
                    assert(r.tape.asked[i] == z.tape.asked[i]);
                }
            }
        }
    }
}

/// Every item of a list is gone through, in order.
pub proof fn every_item_is_parsed<'a>(a: &'a Actor<Online>, t: TapeView<'a>, items: Seq<QueueItem>)
    ensures
        resend_items_run(a, t, items).out is Ok ==> {
            let u = resend_items_run(a, t, items).tape;
            &&& follows(t, u)
            &&& picked(said(t, u), to_parse()) == encoded(items)
            &&& picked(said(t, u), page_sought()) == Seq::<(Option<Handle>, usize)>::empty()
            &&& picked(said(t, u), page_told()) == Seq::<QueuePage>::empty()
        },
    decreases items.len(),
{
    let r = resend_items_run(a, t, items);
    if r.out is Ok {
        if items.len() == 0 {
            assert(said(t, t) =~= Seq::empty());
            assert(encoded(items) =~= Seq::empty());
        } else {
            let x = resend_item_run(a, t, &items[0]);
            let rest = items.drop_first();
            item_is_parsed(a, t, &items[0]);
            every_item_is_parsed(a, x.tape, rest);
            let (s1, s2) = (said(t, x.tape), said(x.tape, r.tape));
            said_in_parts(t, x.tape, r.tape);
            picked_in_parts(s1, s2, to_parse());
            picked_in_parts(s1, s2, page_sought());
            picked_in_parts(s1, s2, page_told());
            assert(encoded(items) =~= seq![items[0].mesg] + encoded(rest));
            assert(picked(s1 + s2, page_sought()) =~= Seq::empty());
            assert(picked(s1 + s2, page_told()) =~= Seq::empty());
        }
    }
}

/// If an item of a page cannot be gone through, that is how going through the queue ends.
pub proof fn failed_item_ends_it<'a>(a: &'a Actor<Online>, t: TapeView<'a>, page: QueuePage)
    ensures
        resend_items_run(a, t, page.items@).out is Err ==> resend_pages_run(a, t, page)
            == resend_items_run(a, t, page.items@),
{
}

/// How the queue is read: page by page, ten items each. All of a page are gone through before the
/// next one is asked for, from where the last one ended. A page that is not full is the last.
pub proof fn queue_is_read_page_by_page<'a>(a: &'a Actor<Online>, t: TapeView<'a>, page: QueuePage)
    ensures
        ({
            let x = resend_items_run(a, t, page.items@);
            let y = ask::<QueuePage>(
                x.tape,
                QueryView::Db(a.db(), DbView::QueueItems(Some(page.next), 10)),
            );
            let r = resend_pages_run(a, t, page);
            match (x.out, y.out) {
                (Err(_), _) => ends_as(r, x),
                (Ok(_), _) if page.items@.len() != 10 => r.tape == x.tape && r.out is Ok,
                (Ok(_), Err(_)) => ends_as(r, y),
                (Ok(_), Ok(next)) => r == resend_pages_run(a, y.tape, next),
            }
        }),
        ({
            let x = ask::<QueuePage>(t, QueryView::Db(a.db(), DbView::QueueItems(None, 10)));
            let r = resend_run(a, t);
            match x.out {
                Err(_) => ends_as(r, x),
                Ok(first) => r == resend_pages_run(a, x.tape, first),
            }
        }),
{
}

/// From a page on, every item of every page that is read is gone through, in order. A further page
/// is read, from where the last one ended, after each full page and only then.
pub proof fn every_page_is_gone_through<'a>(a: &'a Actor<Online>, t: TapeView<'a>, page: QueuePage)
    ensures
        resend_pages_run(a, t, page).out is Ok ==> {
            let ss = said(t, resend_pages_run(a, t, page).tape);
            let ps = seq![page] + picked(ss, page_told());
            &&& follows(t, resend_pages_run(a, t, page).tape)
            &&& picked(ss, to_parse()) == all_encoded(ps)
            &&& picked(ss, page_sought()) == ends_of(ps.drop_last())
            &&& all_but_the_last_are_full(ps)
        },
    decreases t.log.len() - t.at,
{
    let r = resend_pages_run(a, t, page);
    if r.out is Ok {
        let x = resend_items_run(a, t, page.items@);
        every_item_is_parsed(a, t, page.items@);
        resend_items_is_steady(a, t, t, page.items@);
        let s1 = said(t, x.tape);
        reveal_with_fuel(all_encoded, 2);
        if page.items@.len() != 10 {
            let ps = seq![page] + picked(s1, page_told());
            assert(ps =~= seq![page]);
            assert(ps.drop_first() =~= Seq::empty());
            assert(all_encoded(ps) =~= encoded(page.items@));
            assert(ends_of(ps.drop_last()) =~= Seq::empty());
        } else {
            let q = QueryView::Db(a.db(), DbView::QueueItems(Some(page.next), 10));
            let y = ask::<QueuePage>(x.tape, q);
            let next = y.out->Ok_0;
            every_page_is_gone_through(a, y.tape, next);
            assert(follows(x.tape, y.tape));
            let (s2, s3) = (said(x.tape, y.tape), said(y.tape, r.tape));
            assert(s2 =~= seq![qa(q, Reply::QueuePage(next))]);
            said_in_parts(x.tape, y.tape, r.tape);
            said_in_parts(t, x.tape, r.tape);
            next_page_follows(page, next, q, s1, s3);
            assert(said(t, r.tape) =~= s1 + (seq![qa(q, Reply::QueuePage(next))] + s3));
        }
    }
}

proof fn next_page_follows<'a>(
    page: QueuePage,
    next: QueuePage,
    q: QueryView<'a>,
    s1: Seq<Said<'a>>,
    s3: Seq<Said<'a>>,
)
    requires
        page.items@.len() == 10,
        q matches QueryView::Db(_, DbView::QueueItems(from, num)) && from == Some(page.next) && num
            == 10,
        picked(s1, to_parse()) == encoded(page.items@),
        picked(s1, page_sought()) == Seq::<(Option<Handle>, usize)>::empty(),
        picked(s1, page_told()) == Seq::<QueuePage>::empty(),
        ({
            let ps = seq![next] + picked(s3, page_told());
            &&& picked(s3, to_parse()) == all_encoded(ps)
            &&& picked(s3, page_sought()) == ends_of(ps.drop_last())
            &&& all_but_the_last_are_full(ps)
        }),
    ensures
        ({
            let ss = s1 + (seq![qa(q, Reply::QueuePage(next))] + s3);
            let ps = seq![page] + picked(ss, page_told());
            &&& picked(ss, to_parse()) == all_encoded(ps)
            &&& picked(ss, page_sought()) == ends_of(ps.drop_last())
            &&& all_but_the_last_are_full(ps)
        }),
{
    let s2 = seq![qa(q, Reply::QueuePage(next))];
    let ss = s1 + (s2 + s3);
    let later = seq![next] + picked(s3, page_told());
    picked_from_one(s2[0], to_parse());
    picked_from_one(s2[0], page_sought());
    picked_from_one(s2[0], page_told());
    picked_in_parts(s2, s3, to_parse());
    picked_in_parts(s2, s3, page_sought());
    picked_in_parts(s2, s3, page_told());
    picked_in_parts(s1, s2 + s3, to_parse());
    picked_in_parts(s1, s2 + s3, page_sought());
    picked_in_parts(s1, s2 + s3, page_told());
    assert(picked(ss, page_told()) =~= later);
    let ps = seq![page] + later;
    assert(ps.drop_first() =~= later);
    assert(all_encoded(ps) =~= encoded(page.items@) + all_encoded(later));
    assert(picked(ss, to_parse()) =~= all_encoded(ps));
    assert(ps.drop_last() =~= seq![page] + later.drop_last());
    assert(ends_of(ps.drop_last()) =~= seq![(Some(page.next), 10usize)] + ends_of(
        later.drop_last(),
    ));
    assert(picked(ss, page_sought()) =~= ends_of(ps.drop_last()));
    assert(ps.last() == later.last());
    assert forall|k: int| 0 <= k < ps.len() - 1 implies (#[trigger] ps[k]).items@.len() == 10 by {
        if k > 0 {
            assert(ps[k] == later[k - 1]);
        }
    }
}

/// If resending succeeds, every item of every page of the queue that was read was gone through, in
/// order. The queue is read from its beginning, ten items at a time, a further page from where the
/// last one ended; a page that is not full is gone through as well, and no further one is read
/// after it.
pub proof fn whole_queue_is_gone_through<'a>(a: &'a Actor<Online>, t: TapeView<'a>)
    ensures
        resend_run(a, t).out is Ok ==> {
            let ss = said(t, resend_run(a, t).tape);
            let ps = picked(ss, page_told());
            &&& follows(t, resend_run(a, t).tape)
            &&& picked(ss, to_parse()) == all_encoded(ps)
            &&& picked(ss, page_sought()) == seq![(None::<Handle>, 10usize)] + ends_of(
                ps.drop_last(),
            )
            &&& all_but_the_last_are_full(ps)
        },
{
    let r = resend_run(a, t);
    if r.out is Ok {
        let q = QueryView::Db(a.db(), DbView::QueueItems(None, 10));
        let x = ask::<QueuePage>(t, q);
        let page = x.out->Ok_0;
        every_page_is_gone_through(a, x.tape, page);
        let (s1, s2) = (said(t, x.tape), said(x.tape, r.tape));
        assert(follows(t, x.tape));
        assert(s1 =~= seq![qa(q, Reply::QueuePage(page))]);
        said_in_parts(t, x.tape, r.tape);
        picked_from_one(s1[0], to_parse());
        picked_from_one(s1[0], page_sought());
        picked_from_one(s1[0], page_told());
        picked_in_parts(s1, s2, to_parse());
        picked_in_parts(s1, s2, page_sought());
        picked_in_parts(s1, s2, page_told());
        let ps = seq![page] + picked(s2, page_told());
        assert(picked(s1 + s2, page_told()) =~= ps);
        assert(picked(s1 + s2, to_parse()) =~= all_encoded(ps));
    }
}

} // verus!
