//! The inbox: a second actor that awaits notifications on a websocket.
use crate::access::{
    react_is_steady, react_run, renew_access_is_steady, renew_access_run, weigh, weigh_is_steady,
    weighed,
};
use crate::actor::{Actor, Online};
use crate::login::{clone_is_steady, clone_run};
use crate::model::{Complaint, Error, Failure, Handle, Reaction};
use crate::query::{Api, ApiView, Pkg, Query, QueryView};
use crate::tape::{
    ask, caught, done, fail, grown, halt, settled, steady, told, Run, Stop, Tape, TapeView,
};
use crate::text::{locate_with_pair, paired_endpoint, Endpoint, EndpointView};
use vstd::prelude::*;

verus! {

/// An inbox awaits new notifications from the back-end.
#[derive(Debug)]
pub struct Inbox {
    pub actor: Actor<Online>,
}

// ---- Connecting -----------------------------------------------------------------------------

/// Makes an inbox, with an actor of its own.
pub open spec fn new_inbox_run<'a>(a: &'a Actor<Online>, t: TapeView<'a>) -> Run<'a, Inbox> {
    clone_run(a, t).and_then(|t: TapeView<'a>, actor: Actor<Online>| done(t, Inbox { actor }))
}

/// One attempt at opening a websocket.
pub open spec fn socket_attempt_run<'a>(
    a: &'a Actor<Online>,
    t: TapeView<'a>,
    r: Option<Reaction>,
    url: Seq<char>,
    domain: Seq<char>,
) -> Run<'a, Handle> {
    react_run(a, t, r).and_then(
        |t: TapeView<'a>, _x: ()|
            ask::<Handle>(t, QueryView::OpenSocket { url, domain, creds: a.state.user.creds }),
    )
}

/// Opens a websocket, after `n` attempts that failed.
pub open spec fn socket_from_run<'a>(
    a: &'a Actor<Online>,
    t: TapeView<'a>,
    r: Option<Reaction>,
    n: nat,
    url: Seq<char>,
    domain: Seq<char>,
) -> Run<'a, Handle>
    decreases t.log.len() - t.at,
{
    let x = weigh(socket_attempt_run(a, t, r, url, domain), n);
    match x.out {
        Ok(Ok(socket)) => done(x.tape, socket),
        Ok(Err(next)) => socket_from_run(a, x.tape, Some(next), n + 1, url, domain),
        Err(s) => halt(x.tape, s),
    }
}

/// Opens the websocket for our device.
pub open spec fn socket_run<'a>(a: &'a Actor<Online>, t: TapeView<'a>) -> Run<'a, Handle> {
    match paired_endpoint(a.config.host_websocket@, "client"@, a.state.user.device.client.id@) {
        EndpointView::Invalid => fail(t, Error::Address),
        EndpointView::NoDomain => fail(t, Error::Message(Complaint::WebsocketWithoutDomain)),
        EndpointView::At { url, domain } => socket_from_run(a, t, None, 0, url, domain),
    }
}

/// [`new_inbox_run`] is steady.
pub proof fn new_inbox_is_steady<'a>(a: &'a Actor<Online>, t: TapeView<'a>, u: TapeView<'a>)
    requires
        grown(t, u),
    ensures
        steady(t, u, new_inbox_run(a, t), new_inbox_run(a, u)),
{
    clone_is_steady(a, t, u);
}

/// [`socket_attempt_run`] is steady.
pub proof fn socket_attempt_is_steady<'a>(
    a: &'a Actor<Online>,
    t: TapeView<'a>,
    u: TapeView<'a>,
    r: Option<Reaction>,
    url: Seq<char>,
    domain: Seq<char>,
)
    requires
        grown(t, u),
    ensures
        steady(
            t,
            u,
            socket_attempt_run(a, t, r, url, domain),
            socket_attempt_run(a, u, r, url, domain),
        ),
{
    react_is_steady(a, t, u, r);
}

/// [`socket_from_run`] is steady.
pub proof fn socket_from_is_steady<'a>(
    a: &'a Actor<Online>,
    t: TapeView<'a>,
    u: TapeView<'a>,
    r: Option<Reaction>,
    n: nat,
    url: Seq<char>,
    domain: Seq<char>,
)
    requires
        grown(t, u),
    ensures
        steady(
            t,
            u,
            socket_from_run(a, t, r, n, url, domain),
            socket_from_run(a, u, r, n, url, domain),
        ),
    decreases u.log.len() - u.at,
{
    socket_attempt_is_steady(a, t, u, r, url, domain);
    let x0 = socket_attempt_run(a, t, r, url, domain);
    let y0 = socket_attempt_run(a, u, r, url, domain);
    weigh_is_steady(t, u, x0, y0, n);
    weigh_is_steady(u, u, y0, y0, n);
    let x = weigh(x0, n);
    let y = weigh(y0, n);
    if let Ok(Err(next)) = y.out {
        if x.out is Ok {
            socket_from_is_steady(a, x.tape, y.tape, Some(next), n + 1, url, domain);
        } else {
            socket_from_is_steady(a, y.tape, y.tape, Some(next), n + 1, url, domain);
        }
    }
}

/// [`socket_run`] is steady.
pub proof fn socket_is_steady<'a>(a: &'a Actor<Online>, t: TapeView<'a>, u: TapeView<'a>)
    requires
        grown(t, u),
    ensures
        steady(t, u, socket_run(a, t), socket_run(a, u)),
{
    match paired_endpoint(a.config.host_websocket@, "client"@, a.state.user.device.client.id@) {
        EndpointView::At { url, domain } => {
            socket_from_is_steady(a, t, u, None, 0, url, domain);
        },
        _ => {},
    }
}

impl Actor<Online> {
    /// Creates a new inbox, that is a websocket which (when established) listens for new
    /// notifications from the back-end.
    pub fn new_inbox<'a>(&'a self, tape: &mut Tape<'a>) -> (r: Result<Inbox, Stop<'a>>)
        ensures
            told(final(tape)@, r) == new_inbox_run(self, old(tape)@),
    {
        let actor = self.clone(tape)?;
        Ok(Inbox { actor })
    }

    fn open_socket<'a>(&'a self, tape: &mut Tape<'a>, url: &String, domain: &String) -> (res: Result<
        Handle,
        Stop<'a>,
    >)
        ensures
            told(final(tape)@, res) == socket_from_run(self, old(tape)@, None, 0, url@, domain@),
    {
        let mut r: Option<Reaction> = None;
        let mut n: u64 = 0;
        loop
            invariant
                n <= tape@.at,
                socket_from_run(self, tape@, r, n as nat, url@, domain@) == socket_from_run(
                    self,
                    old(tape)@,
                    None,
                    0,
                    url@,
                    domain@,
                ),
            decreases tape@.log.len() - tape@.at,
        {
            let ghost before = tape@;
            proof {
                socket_attempt_is_steady(self, tape@, tape@, r, url@, domain@);
                let x = socket_attempt_run(self, tape@, r, url@, domain@);
                weigh_is_steady(tape@, tape@, x, x, n as nat);
            }
            let x: Result<&'a Handle, Stop<'a>> = match self.react(tape, r) {
                Ok(()) => tape.ask(
                    Query::OpenSocket {
                        url: url.clone(),
                        domain: domain.clone(),
                        creds: self.state.user.creds,
                    },
                ),
                Err(s) => Err(s),
            };
            let x: Result<Handle, Stop<'a>> = match x {
                Ok(socket) => Ok(*socket),
                Err(s) => Err(s),
            };
            assert(told(tape@, x) == socket_attempt_run(self, before, r, url@, domain@));
            match weighed(tape, x, n)? {
                Ok(socket) => {
                    return Ok(socket);
                },
                Err(next) => {
                    proof {
                        tape.is_short();
                    }
                    r = Some(next);
                    n = n + 1;
                },
            }
        }
    }
}

impl Inbox {
    /// Establishes the websocket connection.
    pub fn connect<'a>(&'a self, tape: &mut Tape<'a>) -> (r: Result<Handle, Stop<'a>>)
        ensures
            told(final(tape)@, r) == socket_run(&self.actor, old(tape)@),
    {
        let a: &'a Actor<Online> = &self.actor;
        match locate_with_pair(
            a.config.host_websocket.as_str(),
            "client",
            a.state.user.device.client.id.as_str(),
        ) {
            Endpoint::Invalid => Err(Stop::Fail(Error::Address)),
            Endpoint::NoDomain => Err(
                Stop::Fail(Error::Message(Complaint::WebsocketWithoutDomain)),
            ),
            Endpoint::At { url, domain } => a.open_socket(tape, &url, &domain),
        }
    }
}

// ---- Renewing access ------------------------------------------------------------------------

/// Reconnects to the back-end and renews access. Both are tried, whatever comes of the first; the
/// result is the first failure, if there is one.
pub open spec fn renewal_run<'a>(a: &'a Actor<Online>, t: TapeView<'a>) -> Run<'a, ()> {
    caught(ask::<()>(t, QueryView::Api(a.link(), ApiView::Reconnect))).and_then(
        |t: TapeView<'a>, first: Result<(), Error<'a>>|
            caught(renew_access_run(a, t)).and_then(
                |t: TapeView<'a>, second: Result<(), Error<'a>>|
                    match first {
                        Ok(_) => settled(t, second),
                        Err(e) => fail(t, e),
                    },
            ),
    )
}

/// [`renewal_run`] is steady.
pub proof fn renewal_is_steady<'a>(a: &'a Actor<Online>, t: TapeView<'a>, u: TapeView<'a>)
    requires
        grown(t, u),
    ensures
        steady(t, u, renewal_run(a, t), renewal_run(a, u)),
{
    let q = QueryView::Api(a.link(), ApiView::Reconnect);
    let x = ask::<()>(t, q);
    let y = ask::<()>(u, q);
    renew_access_is_steady(a, y.tape, y.tape);
    if caught(x).out is Ok {
        renew_access_is_steady(a, x.tape, y.tape);
    }
}

impl Inbox {
    /// Reconnects to the back-end and renews access, after the websocket was refused.
    pub fn renew<'a>(&'a self, tape: &mut Tape<'a>) -> (r: Result<(), Stop<'a>>)
        ensures
            told(final(tape)@, r) == renewal_run(&self.actor, old(tape)@),
    {
        let a: &'a Actor<Online> = &self.actor;
        let first: Result<&'a (), Stop<'a>> = tape.ask(Query::Api(a.get_link(), Api::Reconnect));
        let failed: Option<Error<'a>> = match first {
            Ok(_) => None,
            Err(Stop::Fail(e)) => Some(e),
            Err(s) => {
                return Err(s);
            },
        };
        match a.renew_access(tape) {
            Ok(()) => match failed {
                None => Ok(()),
                Some(e) => Err(Stop::Fail(e)),
            },
            Err(Stop::Fail(second)) => match failed {
                None => Err(Stop::Fail(second)),
                Some(e) => Err(Stop::Fail(e)),
            },
            Err(s) => Err(s),
        }
    }
}

// ---- Listening ------------------------------------------------------------------------------

/// The longest rest between two attempts at reopening the websocket, in seconds.
pub const LONGEST_REST: u64 = 30;

/// What an inbox is doing. `wait` is the length of the last rest since the websocket was lost, in
/// seconds, or one.
#[derive(Clone, Copy, PartialEq, Eq, Structural, Debug)]
pub enum Phase {
    /// Awaits a notification on the websocket.
    Listening,
    /// Takes in a notification.
    Handling,
    /// Broadcasts that the websocket is lost.
    Lost,
    /// Reopens the websocket.
    Reopening { wait: u64 },
    /// Renews access, after the websocket was refused.
    Renewing { wait: u64 },
    /// Rests.
    Resting { wait: u64 },
    /// Broadcasts that the websocket is open again.
    Found,
}

/// How that went.
#[derive(Clone, Copy, PartialEq, Eq, Structural, Debug)]
pub enum Outcome {
    Success,
    /// The back-end does not accept our credentials.
    Unauthorised,
    Failure,
}

/// What the driver is to do.
#[derive(Debug)]
pub enum Act {
    /// Wait for a notification on the websocket.
    Listen,
    /// Take in the notification that came.
    Handle,
    /// Broadcast.
    Broadcast(Pkg<'static>),
    /// Reopen the websocket with the current credentials.
    Reopen,
    /// Renew access.
    Renew,
    /// Sleep so many seconds.
    Sleep(u64),
}

/// The rest that follows on the last one.
pub open spec fn next_wait(wait: u64) -> u64 {
    if wait < LONGEST_REST {
        (wait + 1) as u64
    } else {
        wait
    }
}

impl Phase {
    /// What an inbox does next.
    pub open spec fn after(self, o: Outcome) -> Phase {
        match self {
            Phase::Listening => if o == Outcome::Success {
                Phase::Handling
            } else {
                Phase::Lost
            },
            Phase::Handling => Phase::Listening,
            Phase::Lost => Phase::Reopening { wait: 1 },
            Phase::Reopening { wait } => match o {
                Outcome::Success => Phase::Found,
                Outcome::Unauthorised => Phase::Renewing { wait },
                Outcome::Failure => Phase::Resting { wait: next_wait(wait) },
            },
            Phase::Renewing { wait } => if o == Outcome::Success {
                Phase::Reopening { wait }
            } else {
                Phase::Resting { wait: next_wait(wait) }
            },
            Phase::Resting { wait } => Phase::Reopening { wait },
            Phase::Found => Phase::Listening,
        }
    }

    /// What the driver is to do in a phase.
    pub open spec fn task(self) -> Act {
        match self {
            Phase::Listening => Act::Listen,
            Phase::Handling => Act::Handle,
            Phase::Lost => Act::Broadcast(Pkg::Disconnected),
            Phase::Reopening { .. } => Act::Reopen,
            Phase::Renewing { .. } => Act::Renew,
            Phase::Resting { wait } => Act::Sleep(wait),
            Phase::Found => Act::Broadcast(Pkg::Connected),
        }
    }

    /// Goes on to the next phase.
    pub fn step(self, o: Outcome) -> (r: Phase)
        ensures
            r == self.after(o),
    {
        match self {
            Phase::Listening => {
                if o == Outcome::Success {
                    Phase::Handling
                } else {
                    Phase::Lost
                }
            },
            Phase::Handling => Phase::Listening,
            Phase::Lost => Phase::Reopening { wait: 1 },
            Phase::Reopening { wait } => match o {
                Outcome::Success => Phase::Found,
                Outcome::Unauthorised => Phase::Renewing { wait },
                Outcome::Failure => Phase::rest(wait),
            },
            Phase::Renewing { wait } => {
                if o == Outcome::Success {
                    Phase::Reopening { wait }
                } else {
                    Phase::rest(wait)
                }
            },
            Phase::Resting { wait } => Phase::Reopening { wait },
            Phase::Found => Phase::Listening,
        }
    }

    fn rest(wait: u64) -> (r: Phase)
        ensures
            r == (Phase::Resting { wait: next_wait(wait) }),
    {
        if wait < LONGEST_REST {
            Phase::Resting { wait: wait + 1 }
        } else {
            Phase::Resting { wait }
        }
    }

    /// What the driver is to do now.
    pub fn act(&self) -> (r: Act)
        ensures
            r == self.task(),
    {
        match *self {
            Phase::Listening => Act::Listen,
            Phase::Handling => Act::Handle,
            Phase::Lost => Act::Broadcast(Pkg::Disconnected),
            Phase::Reopening { .. } => Act::Reopen,
            Phase::Renewing { .. } => Act::Renew,
            Phase::Resting { wait } => Act::Sleep(wait),
            Phase::Found => Act::Broadcast(Pkg::Connected),
        }
    }
}

impl Inbox {
    /// Where an inbox starts. There is no phase in which it ends.
    pub fn start(&self) -> (r: Phase)
        ensures
            r == Phase::Listening,
    {
        Phase::Listening
    }
}

/// Is the last rest one second at least, and not too long?
pub open spec fn patient(p: Phase) -> bool {
    match p {
        Phase::Reopening { wait } => 1 <= wait <= LONGEST_REST,
        Phase::Renewing { wait } => 1 <= wait <= LONGEST_REST,
        Phase::Resting { wait } => 2 <= wait <= LONGEST_REST,
        _ => true,
    }
}

/// An inbox rests two seconds at least and thirty at most, from its start on and whatever happens.
pub proof fn rests_stay_in_bounds(p: Phase, o: Outcome)
    requires
        patient(p),
    ensures
        patient(Phase::Listening),
        patient(p.after(o)),
        p.after(o) matches Phase::Resting { wait } ==> 2 <= wait <= LONGEST_REST,
{
}

/// The phase after so many attempts at reopening the websocket that failed, and the rests between
/// them.
pub open spec fn after_failures(k: nat) -> Phase
    decreases k,
{
    if k == 0 {
        Phase::Lost.after(Outcome::Success)
    } else {
        after_failures((k - 1) as nat).after(Outcome::Failure).after(Outcome::Success)
    }
}

/// Each rest is a second longer than the one before it, until the longest is reached.
pub proof fn rests_grow_by_a_second(k: nat)
    ensures
        after_failures(k) == (Phase::Reopening {
            wait: if 1 + k < LONGEST_REST {
                (1 + k) as u64
            } else {
                LONGEST_REST
            },
        }),
    decreases k,
{
    if k > 0 {
        rests_grow_by_a_second((k - 1) as nat);
    }
}

/// A websocket that was refused is reopened without a rest once access was renewed.
pub proof fn renewed_access_needs_no_rest(wait: u64)
    ensures
        (Phase::Reopening { wait }).after(Outcome::Unauthorised).after(Outcome::Success)
            == (Phase::Reopening { wait }),
{
}

/// An inbox that has lost its websocket says so first, and does not listen again before it has said
/// that it is open again.
pub proof fn listeners_are_told(p: Phase, o: Outcome)
    ensures
        Phase::Listening.after(Outcome::Failure).task() == Act::Broadcast(Pkg::Disconnected),
        p.after(o) == Phase::Listening ==> p == Phase::Handling || p == Phase::Found,
        p.after(o) == Phase::Found ==> p is Reopening && o == Outcome::Success,
        Phase::Found.task() == Act::Broadcast(Pkg::Connected),
{
}

/// A notification that could not be taken in does not keep an inbox from listening.
pub proof fn every_notification_is_survived(o: Outcome)
    ensures
        Phase::Handling.after(o) == Phase::Listening,
{
}

/// After the websocket was refused, access is renewed even if reconnecting to the back-end failed.
pub proof fn renewal_goes_on_after_a_failure<'a>(a: &'a Actor<Online>, t: TapeView<'a>)
    ensures
        ({
            let first = ask::<()>(t, QueryView::Api(a.link(), ApiView::Reconnect));
            caught(first).out is Ok ==> renewal_run(a, t).tape == renew_access_run(
                a,
                first.tape,
            ).tape
        }),
{
}

} // verus!
