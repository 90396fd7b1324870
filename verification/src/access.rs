//! Access to the back-end: renewing credentials, and calling until a call succeeds or is given up.
use crate::actor::{Actor, Online};
use crate::model::{Complaint, Config, Error, Handle, NewAccess, Reaction, Var};
use crate::query::{Api, ApiView, Cred, Link, Query, QueryView};
use crate::storage::{set_cookie, set_var_run};
use crate::tape::{
    ask, done, fail, grown, halt, steady, told, told_as, Payload, Run, Stop, StopView, Tape,
    TapeView,
};
use crate::text::{address_endpoint, locate, Endpoint, EndpointView};
use vstd::prelude::*;

verus! {

/// The timeout of a connection's reads and writes, in seconds.
pub const TIMEOUT: u64 = 10;

/// Renews access: asks for a new token, stores the new cookie if one came with it, and only then
/// takes both over.
pub open spec fn renew_access_run<'a>(a: &'a Actor<Online>, t: TapeView<'a>) -> Run<'a, ()> {
    ask::<NewAccess>(t, QueryView::Api(a.link(), ApiView::RenewAccess)).and_then(
        |t: TapeView<'a>, n: NewAccess|
            match n.cookie {
                Some(c) => set_var_run(t, a.db(), Var::UserCookie, c@).and_then(
                    |t: TapeView<'a>, _x: ()| replace_access_run(a, t, &n),
                ),
                None => replace_access_run(a, t, &n),
            },
    )
}

/// Takes over new credentials.
pub open spec fn replace_access_run<'a>(
    a: &'a Actor<Online>,
    t: TapeView<'a>,
    n: &'a NewAccess,
) -> Run<'a, ()> {
    ask::<()>(t, QueryView::Cred(a.state.user.creds, Cred::Replace(n)))
}

/// Begins an attempt as a retry policy asks: renews access, or reconnects and then renews access if
/// the token has expired.
pub open spec fn react_run<'a>(
    a: &'a Actor<Online>,
    t: TapeView<'a>,
    r: Option<Reaction>,
) -> Run<'a, ()> {
    match r {
        Some(Reaction::Renew) => renew_access_run(a, t),
        Some(Reaction::Retry) => ask::<()>(
            t,
            QueryView::Api(a.link(), ApiView::Reconnect),
        ).and_then(
            |t: TapeView<'a>, _x: ()|
                ask::<bool>(t, QueryView::Cred(a.state.user.creds, Cred::Expired)).and_then(
                    |t: TapeView<'a>, expired: bool|
                        if expired {
                            renew_access_run(a, t)
                        } else {
                            done(t, ())
                        },
                ),
        ),
        _ => done(t, ()),
    }
}

/// One attempt at a call.
pub open spec fn attempt_run<'a, T: Payload>(
    a: &'a Actor<Online>,
    t: TapeView<'a>,
    r: Option<Reaction>,
    q: ApiView<'a>,
) -> Run<'a, T> {
    react_run(a, t, r).and_then(|t: TapeView<'a>, _x: ()| ask::<T>(t, QueryView::Api(a.link(), q)))
}

/// What the retry policy makes of an attempt, after `n` that failed: the result, or how the next
/// attempt is to begin.
pub open spec fn weigh<'a, T>(x: Run<'a, T>, n: nat) -> Run<'a, Result<T, Reaction>> {
    match x.out {
        Ok(v) => done(x.tape, Ok(v)),
        Err(StopView::Fail(e)) => ask::<Option<Reaction>>(
            x.tape,
            QueryView::Recover { error: e, failed: n },
        ).and_then(
            |t: TapeView<'a>, r: Option<Reaction>|
                match r {
                    Some(r) => done(t, Err(r)),
                    None => fail(t, e),
                },
        ),
        Err(s) => halt(x.tape, s),
    }
}

/// Calls the back-end, after `n` attempts that failed, again and again as long as the retry policy
/// asks for another attempt. `r` is how the next one begins.
pub open spec fn call_from_run<'a, T: Payload>(
    a: &'a Actor<Online>,
    t: TapeView<'a>,
    r: Option<Reaction>,
    n: nat,
    q: ApiView<'a>,
) -> Run<'a, T>
    decreases t.log.len() - t.at,
{
    let x = weigh(attempt_run::<T>(a, t, r, q), n);
    match x.out {
        Ok(Ok(v)) => done(x.tape, v),
        Ok(Err(r)) => call_from_run(a, x.tape, Some(r), n + 1, q),
        Err(s) => halt(x.tape, s),
    }
}

/// Calls the back-end until a call succeeds or the retry policy gives up.
pub open spec fn call_run<'a, T: Payload>(
    a: &'a Actor<Online>,
    t: TapeView<'a>,
    q: ApiView<'a>,
) -> Run<'a, T> {
    call_from_run(a, t, None, 0, q)
}

/// Connects to the configured host, and sets the connection's timeouts.
pub open spec fn connect_run<'a>(c: Config, t: TapeView<'a>) -> Run<'a, Handle> {
    match address_endpoint(c.host_url@) {
        EndpointView::Invalid => fail(t, Error::Address),
        EndpointView::NoDomain => fail(t, Error::Message(Complaint::HostWithoutDomain)),
        EndpointView::At { url, domain } => ask::<Handle>(
            t,
            QueryView::Connect { url, domain },
        ).and_then(
            |t: TapeView<'a>, client: Handle|
                ask::<()>(
                    t,
                    QueryView::Api(Link { client, creds: None }, ApiView::ReadTimeout(TIMEOUT)),
                ).and_then(
                    |t: TapeView<'a>, _x: ()|
                        ask::<()>(
                            t,
                            QueryView::Api(
                                Link { client, creds: None },
                                ApiView::WriteTimeout(TIMEOUT),
                            ),
                        ).and_then(|t: TapeView<'a>, _x: ()| done(t, client)),
                ),
        ),
    }
}

/// One attempt at another connection.
pub open spec fn connect_attempt_run<'a>(
    a: &'a Actor<Online>,
    t: TapeView<'a>,
    r: Option<Reaction>,
) -> Run<'a, Handle> {
    react_run(a, t, r).and_then(|t: TapeView<'a>, _x: ()| connect_run(a.config, t))
}

/// Makes another connection, after `n` attempts that failed.
pub open spec fn connect_from_run<'a>(
    a: &'a Actor<Online>,
    t: TapeView<'a>,
    r: Option<Reaction>,
    n: nat,
) -> Run<'a, Handle>
    decreases t.log.len() - t.at,
{
    let x = weigh(connect_attempt_run(a, t, r), n);
    match x.out {
        Ok(Ok(v)) => done(x.tape, v),
        Ok(Err(r)) => connect_from_run(a, x.tape, Some(r), n + 1),
        Err(s) => halt(x.tape, s),
    }
}

/// Makes another connection, trying until that succeeds or the retry policy gives up.
pub open spec fn connect_again_run<'a>(a: &'a Actor<Online>, t: TapeView<'a>) -> Run<'a, Handle> {
    connect_from_run(a, t, None, 0)
}

/// [`renew_access_run`] is steady.
pub proof fn renew_access_is_steady<'a>(a: &'a Actor<Online>, t: TapeView<'a>, u: TapeView<'a>)
    requires
        grown(t, u),
    ensures
        steady(t, u, renew_access_run(a, t), renew_access_run(a, u)),
{
}

/// [`react_run`] is steady.
pub proof fn react_is_steady<'a>(
    a: &'a Actor<Online>,
    t: TapeView<'a>,
    u: TapeView<'a>,
    r: Option<Reaction>,
)
    requires
        grown(t, u),
    ensures
        steady(t, u, react_run(a, t, r), react_run(a, u, r)),
{
    renew_access_is_steady(a, t, u);
    let q1 = QueryView::Api(a.link(), ApiView::Reconnect);
    let q2 = QueryView::Cred(a.state.user.creds, Cred::Expired);
    let x = ask::<()>(t, q1);
    let y = ask::<()>(u, q1);
    let x2 = ask::<bool>(x.tape, q2);
    let y2 = ask::<bool>(y.tape, q2);
    renew_access_is_steady(a, y2.tape, y2.tape);
    if x.out is Ok && x2.out is Ok {
        renew_access_is_steady(a, x2.tape, y2.tape);
    }
}

/// [`attempt_run`] is steady.
pub proof fn attempt_is_steady<'a, T: Payload>(
    a: &'a Actor<Online>,
    t: TapeView<'a>,
    u: TapeView<'a>,
    r: Option<Reaction>,
    q: ApiView<'a>,
)
    requires
        grown(t, u),
    ensures
        steady(t, u, attempt_run::<T>(a, t, r, q), attempt_run::<T>(a, u, r, q)),
{
    react_is_steady(a, t, u, r);
}

/// What the retry policy makes of a steady attempt is steady; and where it asks for another attempt,
/// an answer was read.
pub proof fn weigh_is_steady<'a, T>(
    t: TapeView<'a>,
    u: TapeView<'a>,
    x: Run<'a, T>,
    y: Run<'a, T>,
    n: nat,
)
    requires
        steady(t, u, x, y),
    ensures
        steady(t, u, weigh(x, n), weigh(y, n)),
        weigh(x, n).out matches Ok(Err(_)) ==> t.at < weigh(x, n).tape.at <= t.log.len(),
{
}

/// [`call_from_run`] is steady.
pub proof fn call_from_is_steady<'a, T: Payload>(
    a: &'a Actor<Online>,
    t: TapeView<'a>,
    u: TapeView<'a>,
    r: Option<Reaction>,
    n: nat,
    q: ApiView<'a>,
)
    requires
        grown(t, u),
    ensures
        steady(t, u, call_from_run::<T>(a, t, r, n, q), call_from_run::<T>(a, u, r, n, q)),
    decreases u.log.len() - u.at,
{
    attempt_is_steady::<T>(a, t, u, r, q);
    weigh_is_steady(t, u, attempt_run::<T>(a, t, r, q), attempt_run::<T>(a, u, r, q), n);
    let x = weigh(attempt_run::<T>(a, t, r, q), n);
    let y = weigh(attempt_run::<T>(a, u, r, q), n);
    if let Ok(Err(r)) = y.out {
        if x.out is Ok {
            call_from_is_steady::<T>(a, x.tape, y.tape, Some(r), n + 1, q);
        } else {
            call_from_is_steady::<T>(a, y.tape, y.tape, Some(r), n + 1, q);
        }
    }
}

/// [`call_run`] is steady.
pub proof fn call_is_steady<'a, T: Payload>(
    a: &'a Actor<Online>,
    t: TapeView<'a>,
    u: TapeView<'a>,
    q: ApiView<'a>,
)
    requires
        grown(t, u),
    ensures
        steady(t, u, call_run::<T>(a, t, q), call_run::<T>(a, u, q)),
{
    call_from_is_steady::<T>(a, t, u, None, 0, q);
}

proof fn call_from_reads_on<'a, T: Payload>(
    a: &'a Actor<Online>,
    t: TapeView<'a>,
    r: Option<Reaction>,
    n: nat,
    q: ApiView<'a>,
)
    ensures
        call_from_run::<T>(a, t, r, n, q).out is Ok ==> t.at < call_from_run::<T>(
            a,
            t,
            r,
            n,
            q,
        ).tape.at <= t.log.len(),
    decreases t.log.len() - t.at,
{
    attempt_is_steady::<T>(a, t, t, r, q);
    let y = attempt_run::<T>(a, t, r, q);
    weigh_is_steady(t, t, y, y, n);
    let x = weigh(y, n);
    if let Ok(Err(r)) = x.out {
        call_from_reads_on::<T>(a, x.tape, Some(r), n + 1, q);
    }
}

/// A call that succeeds has read an answer.
pub proof fn call_reads_on<'a, T: Payload>(a: &'a Actor<Online>, t: TapeView<'a>, q: ApiView<'a>)
    ensures
        call_run::<T>(a, t, q).out is Ok ==> t.at < call_run::<T>(a, t, q).tape.at <= t.log.len(),
{
    call_from_reads_on::<T>(a, t, None, 0, q);
}

/// [`connect_run`] is steady.
pub proof fn connect_is_steady<'a>(c: Config, t: TapeView<'a>, u: TapeView<'a>)
    requires
        grown(t, u),
    ensures
        steady(t, u, connect_run(c, t), connect_run(c, u)),
{
}

/// [`connect_attempt_run`] is steady.
pub proof fn connect_attempt_is_steady<'a>(
    a: &'a Actor<Online>,
    t: TapeView<'a>,
    u: TapeView<'a>,
    r: Option<Reaction>,
)
    requires
        grown(t, u),
    ensures
        steady(t, u, connect_attempt_run(a, t, r), connect_attempt_run(a, u, r)),
{
    react_is_steady(a, t, u, r);
    let x = react_run(a, t, r);
    let y = react_run(a, u, r);
    connect_is_steady(a.config, y.tape, y.tape);
    if x.out is Ok {
        connect_is_steady(a.config, x.tape, y.tape);
    }
}

/// [`connect_from_run`] is steady.
pub proof fn connect_from_is_steady<'a>(
    a: &'a Actor<Online>,
    t: TapeView<'a>,
    u: TapeView<'a>,
    r: Option<Reaction>,
    n: nat,
)
    requires
        grown(t, u),
    ensures
        steady(t, u, connect_from_run(a, t, r, n), connect_from_run(a, u, r, n)),
    decreases u.log.len() - u.at,
{
    connect_attempt_is_steady(a, t, u, r);
    weigh_is_steady(t, u, connect_attempt_run(a, t, r), connect_attempt_run(a, u, r), n);
    let x = weigh(connect_attempt_run(a, t, r), n);
    let y = weigh(connect_attempt_run(a, u, r), n);
    if let Ok(Err(r)) = y.out {
        if x.out is Ok {
            connect_from_is_steady(a, x.tape, y.tape, Some(r), n + 1);
        } else {
            connect_from_is_steady(a, y.tape, y.tape, Some(r), n + 1);
        }
    }
}

/// [`connect_again_run`] is steady.
pub proof fn connect_again_is_steady<'a>(a: &'a Actor<Online>, t: TapeView<'a>, u: TapeView<'a>)
    requires
        grown(t, u),
    ensures
        steady(t, u, connect_again_run(a, t), connect_again_run(a, u)),
{
    connect_from_is_steady(a, t, u, None, 0);
}

impl<S> Actor<S> {
    /// Connects to the configured host.
    pub fn connect<'a>(&self, tape: &mut Tape<'a>) -> (r: Result<Handle, Stop<'a>>)
        ensures
            told(final(tape)@, r) == connect_run(self.config, old(tape)@),
    {
        match locate(self.config.host_url.as_str()) {
            Endpoint::Invalid => Err(Stop::Fail(Error::Address)),
            Endpoint::NoDomain => Err(Stop::Fail(Error::Message(Complaint::HostWithoutDomain))),
            Endpoint::At { url, domain } => {
                let client: &'a Handle = tape.ask(Query::Connect { url, domain })?;
                let link = Link { client: *client, creds: None };
                tape.ask::<()>(Query::Api(link, Api::ReadTimeout(TIMEOUT)))?;
                tape.ask::<()>(Query::Api(link, Api::WriteTimeout(TIMEOUT)))?;
                Ok(*client)
            },
        }
    }
}

impl Actor<Online> {
    /// Makes another connection.
    pub fn connect_again<'a>(&'a self, tape: &mut Tape<'a>) -> (res: Result<Handle, Stop<'a>>)
        ensures
            told(final(tape)@, res) == connect_again_run(self, old(tape)@),
    {
        let mut r: Option<Reaction> = None;
        let mut n: u64 = 0;
        loop
            invariant
                n <= tape@.at,
                connect_from_run(self, tape@, r, n as nat) == connect_again_run(self, old(tape)@),
            decreases tape@.log.len() - tape@.at,
        {
            proof {
                connect_attempt_is_steady(self, tape@, tape@, r);
                let x = connect_attempt_run(self, tape@, r);
                weigh_is_steady(tape@, tape@, x, x, n as nat);
            }
            let ghost before = tape@;
            let x: Result<Handle, Stop<'a>> = match self.react(tape, r) {
                Ok(()) => self.connect(tape),
                Err(s) => Err(s),
            };
            assert(told(tape@, x) == connect_attempt_run(self, before, r));
            match weighed(tape, x, n)? {
                Ok(v) => {
                    return Ok(v);
                },
                Err(next) => {
                    proof {
                        tape.is_short();
                    }
                    r = Some(next);
                    n = n + 1;
                },
            }
        }
    }

    /// Renews access.
    pub fn renew_access<'a>(&'a self, tape: &mut Tape<'a>) -> (r: Result<(), Stop<'a>>)
        ensures
            told(final(tape)@, r) == renew_access_run(self, old(tape)@),
    {
        let n: &'a NewAccess = tape.ask(Query::Api(self.get_link(), Api::RenewAccess))?;
        if let Some(c) = &n.cookie {
            set_cookie(tape, self.state.user.dbase, c)?;
        }
        tape.ask::<()>(Query::Cred(self.state.user.creds, Cred::Replace(n)))?;
        Ok(())
    }

    /// Begins an attempt as a retry policy asks.
    pub fn react<'a>(&'a self, tape: &mut Tape<'a>, r: Option<Reaction>) -> (res: Result<
        (),
        Stop<'a>,
    >)
        ensures
            told(final(tape)@, res) == react_run(self, old(tape)@, r),
    {
        match r {
            Some(Reaction::Renew) => self.renew_access(tape),
            Some(Reaction::Retry) => {
                tape.ask::<()>(Query::Api(self.get_link(), Api::Reconnect))?;
                let expired: &'a bool = tape.ask(
                    Query::Cred(self.state.user.creds, Cred::Expired),
                )?;
                if *expired {
                    self.renew_access(tape)?;
                }
                Ok(())
            },
            _ => Ok(()),
        }
    }

    /// Calls the back-end until a call succeeds or the retry policy gives up.
    pub fn call<'a, T: Payload>(&'a self, tape: &mut Tape<'a>, q: Api<'a>) -> (res: Result<
        &'a T,
        Stop<'a>,
    >)
        ensures
            told_as(final(tape)@, res, |x: &'a T| *x) == call_run::<T>(self, old(tape)@, q@),
    {
        let mut r: Option<Reaction> = None;
        let mut n: u64 = 0;
        loop
            invariant
                n <= tape@.at,
                call_from_run::<T>(self, tape@, r, n as nat, q@) == call_run::<T>(
                    self,
                    old(tape)@,
                    q@,
                ),
            decreases tape@.log.len() - tape@.at,
        {
            proof {
                attempt_is_steady::<T>(self, tape@, tape@, r, q@);
                let x = attempt_run::<T>(self, tape@, r, q@);
                weigh_is_steady(tape@, tape@, x, x, n as nat);
            }
            let ghost before = tape@;
            let x: Result<&'a T, Stop<'a>> = match self.react(tape, r) {
                Ok(()) => tape.ask(Query::Api(self.get_link(), q.clone())),
                Err(s) => Err(s),
            };
            assert(told_as(tape@, x, |x: &'a T| *x) == attempt_run::<T>(self, before, r, q@));
            match weighed(tape, x, n)? {
                Ok(v) => {
                    return Ok(v);
                },
                Err(next) => {
                    proof {
                        tape.is_short();
                    }
                    r = Some(next);
                    n = n + 1;
                },
            }
        }
    }
}

/// Asks the retry policy what to make of an attempt, after `n` that failed.
pub fn weighed<'a, T>(tape: &mut Tape<'a>, x: Result<T, Stop<'a>>, n: u64) -> (res: Result<
    Result<T, Reaction>,
    Stop<'a>,
>)
    ensures
        told(final(tape)@, res) == weigh(told(old(tape)@, x), n as nat),
{
    match x {
        Ok(v) => Ok(Ok(v)),
        Err(Stop::Fail(e)) => {
            let r: &'a Option<Reaction> = tape.ask(Query::Recover { error: e, failed: n })?;
            match r {
                Some(r) => Ok(Err(*r)),
                None => Err(Stop::Fail(e)),
            }
        },
        Err(s) => Err(s),
    }
}

} // verus!
