//! What holds of calls to the back-end, whatever it answers.
use crate::access::{call_from_run, call_run, react_run, renew_access_run};
use crate::actor::{Actor, Online};
use crate::laws_lookups::{just, next_is, second_is};
use crate::model::{Error, Failure, Reaction, Var};
use crate::query::{ApiView, Cred, DbView, QueryView};
use crate::tape::{Payload, Reply, StopView, TapeView};
use vstd::prelude::*;

verus! {

/// A call that is answered at once asks one question.
pub proof fn answered_call_asks_once<'a, T: Payload>(
    a: &'a Actor<Online>,
    t: TapeView<'a>,
    q: ApiView<'a>,
    reply: Reply,
    v: T,
)
    requires
        next_is(t, reply),
        !(reply is Failed),
        T::of(reply) == Some(v),
    ensures
        just(t, call_run::<T>(a, t, q), QueryView::Api(a.link(), q), v),
{
}

/// A call that fails, and that the retry policy gives up, fails with the failure of the last
/// attempt.
pub proof fn call_given_up_fails<'a, T: Payload>(
    a: &'a Actor<Online>,
    t: TapeView<'a>,
    q: ApiView<'a>,
    f: Failure,
)
    requires
        next_is(t, Reply::Failed(f)),
        second_is(t, Reply::Reaction(None)),
    ensures
        call_run::<T>(a, t, q).out == Err::<T, StopView<'a>>(StopView::Fail(Error::Failed(&f))),
        call_run::<T>(a, t, q).tape.asked == t.asked.push(QueryView::Api(a.link(), q)).push(
            QueryView::Recover { error: Error::Failed(&f), failed: 0 },
        ),
{
}

/// A call that fails, and that the retry policy takes up again, goes on with another attempt that
/// begins as the policy asks.
pub proof fn call_taken_up_again_goes_on<'a, T: Payload>(
    a: &'a Actor<Online>,
    t: TapeView<'a>,
    q: ApiView<'a>,
    f: Failure,
    r: Reaction,
)
    requires
        next_is(t, Reply::Failed(f)),
        second_is(t, Reply::Reaction(Some(r))),
    ensures
        call_run::<T>(a, t, q) == call_from_run::<T>(
            a,
            TapeView {
                log: t.log,
                at: t.at + 2,
                asked: t.asked.push(QueryView::Api(a.link(), q)).push(
                    QueryView::Recover { error: Error::Failed(&f), failed: 0 },
                ),
            },
            Some(r),
            1,
            q,
        ),
{
}

/// The first attempt begins with nothing.
pub proof fn first_attempt_begins_at_once<'a>(a: &'a Actor<Online>, t: TapeView<'a>)
    ensures
        react_run(a, t, None).tape == t,
        react_run(a, t, None).out is Ok,
{
}

/// After a reconnect, access is renewed only if the token has expired.
pub proof fn valid_token_is_kept<'a>(a: &'a Actor<Online>, t: TapeView<'a>)
    requires
        next_is(t, Reply::Done),
        second_is(t, Reply::Flag(false)),
    ensures
        react_run(a, t, Some(Reaction::Retry)).out is Ok,
        react_run(a, t, Some(Reaction::Retry)).tape.asked == t.asked.push(
            QueryView::Api(a.link(), ApiView::Reconnect),
        ).push(QueryView::Cred(a.state.user.creds, Cred::Expired)),
{
}

/// New credentials are taken over last, and a new cookie only after it was stored.
pub proof fn new_cookie_is_stored_first<'a>(a: &'a Actor<Online>, t: TapeView<'a>)
    ensures
        ({
            let r = renew_access_run(a, t);
            let k = r.tape.asked.len() - 1;
            forall|i: int|
                t.asked.len() <= i <= k ==> (#[trigger] r.tape.asked[i] matches QueryView::Cred(
                    _,
                    Cred::Replace(n),
                ) ==> {
                    &&& i == k
                    &&& n.cookie matches Some(c) ==> i > t.asked.len() && r.tape.asked[i - 1]
                        == QueryView::Db(a.db(), DbView::SetVar(Var::UserCookie, c@))
                })
        }),
        renew_access_run(a, t).out is Ok ==> renew_access_run(a, t).tape.asked.last() is Cred,
{
}

} // verus!
