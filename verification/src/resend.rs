//! Going through the queue of messages that were not sent yet.
use crate::actor::{Actor, Online};
use crate::model::{Envelope, Handle, OutMessage, QueueItem, QueuePage, Time};
use crate::outbox::{dequeue_run, queue_run, send_message_is_steady, send_message_run, QUEUE_PAGE};
use crate::query::{Code, Pkg, PkgView, Query, QueryView};
use crate::tape::{ask, done, grown, halt, steady, told, Run, Stop, Tape, TapeView};
use crate::text::{blob_text, stored_text};
use vstd::prelude::*;

verus! {

/// Takes a message that was sent out of the queue, and broadcasts when it was sent. An item whose id
/// is not text is taken out without a word.
pub open spec fn settle_item_run<'a>(
    a: &'a Actor<Online>,
    t: TapeView<'a>,
    q: &'a QueueItem,
    time: Time,
) -> Run<'a, ()> {
    dequeue_run(a, t, &q.id, q.conv).and_then(
        |t: TapeView<'a>, _x: ()|
            match blob_text(q.id@) {
                Some(id) => ask::<()>(
                    t,
                    QueryView::Publish(a.state.bcast, PkgView::MessageUpdate(q.conv, id, time)),
                ),
                None => done(t, ()),
            },
    )
}

/// Sends a message of the queue and takes it out.
pub open spec fn send_item_run<'a>(
    a: &'a Actor<Online>,
    t: TapeView<'a>,
    q: &'a QueueItem,
    msg: &'a OutMessage,
    record: Handle,
) -> Run<'a, ()> {
    send_message_run(a, t, Envelope { conv: q.conv, record }, msg).and_then(
        |t: TapeView<'a>, time: Time| settle_item_run(a, t, q, time),
    )
}

/// Sends the message of a queue item. An item that cannot be parsed stays where it is.
pub open spec fn resend_item_run<'a>(
    a: &'a Actor<Online>,
    t: TapeView<'a>,
    q: &'a QueueItem,
) -> Run<'a, ()> {
    ask::<Option<OutMessage>>(t, QueryView::Code(Code::ParseMessage(&q.mesg))).and_then(
        |t: TapeView<'a>, msg: Option<OutMessage>|
            match msg {
                Some(msg) => ask::<Option<Handle>>(
                    t,
                    QueryView::Code(Code::ParseEnvelope(&q.data)),
                ).and_then(
                    |t: TapeView<'a>, record: Option<Handle>|
                        match record {
                            Some(record) => send_item_run(a, t, q, &msg, record),
                            None => done(t, ()),
                        },
                ),
                None => done(t, ()),
            },
    )
}

/// Sends the messages of the items of a list, in order.
pub open spec fn resend_items_run<'a>(
    a: &'a Actor<Online>,
    t: TapeView<'a>,
    items: Seq<QueueItem>,
) -> Run<'a, ()>
    decreases items.len(),
{
    if items.len() == 0 {
        done(t, ())
    } else {
        resend_item_run(a, t, &items[0]).and_then(
            |t: TapeView<'a>, _x: ()| resend_items_run(a, t, items.drop_first()),
        )
    }
}

/// Sends the messages of a page, and of those after it unless the page is not full.
pub open spec fn resend_pages_run<'a>(
    a: &'a Actor<Online>,
    t: TapeView<'a>,
    page: QueuePage,
) -> Run<'a, ()>
    decreases t.log.len() - t.at,
{
    let x = resend_items_run(a, t, page.items@);
    match x.out {
        Ok(_) => if page.items@.len() != QUEUE_PAGE {
            done(x.tape, ())
        } else {
            let y = queue_run(a, x.tape, Some(page.next), QUEUE_PAGE);
            match y.out {
                Ok(next) => {
                    proof {
                        resend_items_is_steady(a, t, t, page.items@);
                    }
                    resend_pages_run(a, y.tape, next)
                },
                Err(s) => halt(y.tape, s),
            }
        },
        Err(s) => halt(x.tape, s),
    }
}

/// Sends the messages in the queue.
pub open spec fn resend_run<'a>(a: &'a Actor<Online>, t: TapeView<'a>) -> Run<'a, ()> {
    queue_run(a, t, None, QUEUE_PAGE).and_then(
        |t: TapeView<'a>, page: QueuePage| resend_pages_run(a, t, page),
    )
}

/// [`settle_item_run`] is steady.
pub proof fn settle_item_is_steady<'a>(
    a: &'a Actor<Online>,
    t: TapeView<'a>,
    u: TapeView<'a>,
    q: &'a QueueItem,
    time: Time,
)
    requires
        grown(t, u),
    ensures
        steady(t, u, settle_item_run(a, t, q, time), settle_item_run(a, u, q, time)),
{
}

/// [`send_item_run`] is steady.
pub proof fn send_item_is_steady<'a>(
    a: &'a Actor<Online>,
    t: TapeView<'a>,
    u: TapeView<'a>,
    q: &'a QueueItem,
    msg: &'a OutMessage,
    record: Handle,
)
    requires
        grown(t, u),
    ensures
        steady(t, u, send_item_run(a, t, q, msg, record), send_item_run(a, u, q, msg, record)),
{
    let envelope = Envelope { conv: q.conv, record };
    send_message_is_steady(a, t, u, envelope, msg);
    let x = send_message_run(a, t, envelope, msg);
    let y = send_message_run(a, u, envelope, msg);
    if let Ok(time) = y.out {
        settle_item_is_steady(a, y.tape, y.tape, q, time);
        if x.out is Ok {
            settle_item_is_steady(a, x.tape, y.tape, q, time);
        }
    }
}

/// [`resend_item_run`] is steady.
pub proof fn resend_item_is_steady<'a>(
    a: &'a Actor<Online>,
    t: TapeView<'a>,
    u: TapeView<'a>,
    q: &'a QueueItem,
)
    requires
        grown(t, u),
    ensures
        steady(t, u, resend_item_run(a, t, q), resend_item_run(a, u, q)),
{
    let p1 = QueryView::Code(Code::ParseMessage(&q.mesg));
    let p2 = QueryView::Code(Code::ParseEnvelope(&q.data));
    let x = ask::<Option<OutMessage>>(t, p1);
    let y = ask::<Option<OutMessage>>(u, p1);
    let x2 = ask::<Option<Handle>>(x.tape, p2);
    let y2 = ask::<Option<Handle>>(y.tape, p2);
    if let Ok(Some(msg)) = y.out {
        if let Ok(Some(record)) = y2.out {
            send_item_is_steady(a, y2.tape, y2.tape, q, &msg, record);
            if x.out is Ok && x2.out is Ok {
                send_item_is_steady(a, x2.tape, y2.tape, q, &msg, record);
            }
        }
    }
}

/// [`resend_items_run`] is steady.
pub proof fn resend_items_is_steady<'a>(
    a: &'a Actor<Online>,
    t: TapeView<'a>,
    u: TapeView<'a>,
    items: Seq<QueueItem>,
)
    requires
        grown(t, u),
    ensures
        steady(t, u, resend_items_run(a, t, items), resend_items_run(a, u, items)),
    decreases items.len(),
{
    if items.len() > 0 {
        resend_item_is_steady(a, t, u, &items[0]);
        let x = resend_item_run(a, t, &items[0]);
        let y = resend_item_run(a, u, &items[0]);
        resend_items_is_steady(a, y.tape, y.tape, items.drop_first());
        if x.out is Ok {
            resend_items_is_steady(a, x.tape, y.tape, items.drop_first());
        }
    }
}

/// [`resend_pages_run`] is steady.
pub proof fn resend_pages_is_steady<'a>(
    a: &'a Actor<Online>,
    t: TapeView<'a>,
    u: TapeView<'a>,
    page: QueuePage,
)
    requires
        grown(t, u),
    ensures
        steady(t, u, resend_pages_run(a, t, page), resend_pages_run(a, u, page)),
    decreases u.log.len() - u.at,
{
    resend_items_is_steady(a, t, u, page.items@);
    let x = resend_items_run(a, t, page.items@);
    let y = resend_items_run(a, u, page.items@);
    if y.out is Ok && page.items@.len() == QUEUE_PAGE {
        let v = queue_run(a, y.tape, Some(page.next), QUEUE_PAGE);
        if let Ok(next) = v.out {
            resend_pages_is_steady(a, v.tape, v.tape, next);
            if x.out is Ok {
                let w = queue_run(a, x.tape, Some(page.next), QUEUE_PAGE);
                if w.out is Ok {
                    resend_pages_is_steady(a, w.tape, v.tape, next);
                }
            }
        }
    }
}

/// [`resend_run`] is steady.
pub proof fn resend_is_steady<'a>(a: &'a Actor<Online>, t: TapeView<'a>, u: TapeView<'a>)
    requires
        grown(t, u),
    ensures
        steady(t, u, resend_run(a, t), resend_run(a, u)),
{
    let x = queue_run(a, t, None, QUEUE_PAGE);
    let y = queue_run(a, u, None, QUEUE_PAGE);
    if let Ok(page) = y.out {
        resend_pages_is_steady(a, y.tape, y.tape, page);
        if x.out is Ok {
            resend_pages_is_steady(a, x.tape, y.tape, page);
        }
    }
}

impl Actor<Online> {
    fn resend_item<'a>(&'a self, tape: &mut Tape<'a>, q: &'a QueueItem) -> (r: Result<(), Stop<'a>>)
        ensures
            told(final(tape)@, r) == resend_item_run(self, old(tape)@, q),
    {
        let msg: &'a Option<OutMessage> = tape.ask(Query::Code(Code::ParseMessage(&q.mesg)))?;
        if let Some(msg) = msg {
            let record: &'a Option<Handle> = tape.ask(Query::Code(Code::ParseEnvelope(&q.data)))?;
            if let Some(record) = record {
                let envelope = Envelope { conv: q.conv, record: *record };
                let time = self.send_message(tape, envelope, msg)?;
                self.dequeue(tape, &q.id, q.conv)?;
                if let Some(id) = stored_text(&q.id) {
                    let pkg = Pkg::MessageUpdate(q.conv, id, time);
                    tape.ask::<()>(Query::Publish(self.state.bcast, pkg))?;
                }
            }
        }
        Ok(())
    }

    fn resend_items<'a>(&'a self, tape: &mut Tape<'a>, items: &'a Vec<QueueItem>) -> (r: Result<
        (),
        Stop<'a>,
    >)
        ensures
            told(final(tape)@, r) == resend_items_run(self, old(tape)@, items@),
    {
        let mut i: usize = 0;
        assert(items@.skip(0) =~= items@);
        while i < items.len()
            invariant
                i <= items.len(),
                resend_items_run(self, tape@, items@.skip(i as int)) == resend_items_run(
                    self,
                    old(tape)@,
                    items@,
                ),
            decreases items.len() - i,
        {
            assert(items@.skip(i as int).drop_first() =~= items@.skip(i + 1));
            self.resend_item(tape, &items[i])?;
            i = i + 1;
        }
        Ok(())
    }

    /// Sends the messages in the queue.
    pub fn resend<'a>(&'a self, tape: &mut Tape<'a>) -> (r: Result<(), Stop<'a>>)
        ensures
            told(final(tape)@, r) == resend_run(self, old(tape)@),
    {
        let mut page: &'a QueuePage = self.queue(tape, None, QUEUE_PAGE)?;
        loop
            invariant
                resend_pages_run(self, tape@, *page) == resend_run(self, old(tape)@),
            decreases tape@.log.len() - tape@.at,
        {
            proof {
                resend_items_is_steady(self, tape@, tape@, page.items@);
            }
            self.resend_items(tape, &page.items)?;
            if page.items.len() != QUEUE_PAGE {
                return Ok(());
            }
            page = self.queue(tape, Some(page.next), QUEUE_PAGE)?;
        }
    }
}

} // verus!
