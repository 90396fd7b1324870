//! Operations as functions of the answers received so far.
//!
//! An operation does no input or output. It runs over a [`Tape`] of the answers that the driver has
//! given so far, and asks its questions one after the other: as long as the tape holds an answer,
//! the operation reads it and goes on; where the tape ends, it stops with the question it would ask
//! next. The driver answers that question, puts the answer at the end of the tape, and runs the
//! operation again. So an operation is a mathematical function from a tape to a [`Run`], and each of
//! its questions is put to the driver exactly once.
use crate::model::{
    ApiClient, ApiConversation, ApiUser, Client, Connection, ConvId, Conversation, Credentials,
    Error, Failure, Handle, NewAccess, NotifId, OutMessage, Page, Plaintext, QueuePage, Reaction,
    Rows, StreamItem, Time, User, UserConnection, UserPrekeys,
};
use crate::query::{Query, QueryView};
use vstd::prelude::*;

verus! {

/// An answer of the driver.
#[derive(Debug)]
pub enum Reply {
    Failed(Failure),
    Done,
    Flag(bool),
    Handle(Handle),
    MaybeHandle(Option<Handle>),
    Bytes(Vec<u8>),
    MaybeBytes(Option<Vec<u8>>),
    Text(String),
    Status(u16),
    Time(Time),
    User(User),
    MaybeUser(Option<User>),
    ApiUser(ApiUser),
    MaybeApiUser(Option<ApiUser>),
    Client(Client),
    MaybeClient(Option<Client>),
    Clients(Vec<Client>),
    ApiClient(ApiClient),
    MaybeApiClient(Option<ApiClient>),
    ApiClients(Vec<ApiClient>),
    Conversation(Conversation),
    MaybeConversation(Option<Conversation>),
    MaybeApiConversation(Option<ApiConversation>),
    ConvId(ConvId),
    ConvIds(Page<ConvId>),
    Connection(Connection),
    MaybeConnection(Option<Connection>),
    ApiConnection(UserConnection),
    MaybeApiConnection(Option<UserConnection>),
    ApiConnections(Page<UserConnection>),
    Rows(Rows),
    Credentials(Credentials),
    NewAccess(NewAccess),
    Reaction(Option<Reaction>),
    Prekeys(Vec<UserPrekeys>),
    Plaintext(Plaintext),
    MaybeMessage(Option<OutMessage>),
    QueuePage(QueuePage),
    MaybeNotifId(Option<NotifId>),
    StreamItem(StreamItem),
}

/// A value that one kind of answer carries.
pub trait Payload: Sized {
    /// The value that the answer carries, if it is of that kind.
    spec fn of(r: Reply) -> Option<Self>;

    fn read<'a>(r: &'a Reply) -> (o: Option<&'a Self>)
        ensures
            (match o { Some(x) => Some(*x), None => None }) == Self::of(*r),
    ;
}

impl Payload for () {
    open spec fn of(r: Reply) -> Option<Self> {
        match r {
            Reply::Done => Some(()),
            _ => None,
        }
    }

    fn read<'a>(r: &'a Reply) -> (o: Option<&'a Self>) {
        match r {
            Reply::Done => Some(&()),
            _ => None,
        }
    }
}

impl Payload for bool {
    open spec fn of(r: Reply) -> Option<Self> {
        match r {
            Reply::Flag(x) => Some(x),
            _ => None,
        }
    }

    fn read<'a>(r: &'a Reply) -> (o: Option<&'a Self>) {
        match r {
            Reply::Flag(x) => Some(x),
            _ => None,
        }
    }
}

impl Payload for Handle {
    open spec fn of(r: Reply) -> Option<Self> {
        match r {
            Reply::Handle(x) => Some(x),
            _ => None,
        }
    }

    fn read<'a>(r: &'a Reply) -> (o: Option<&'a Self>) {
        match r {
            Reply::Handle(x) => Some(x),
            _ => None,
        }
    }
}

impl Payload for Option<Handle> {
    open spec fn of(r: Reply) -> Option<Self> {
        match r {
            Reply::MaybeHandle(x) => Some(x),
            _ => None,
        }
    }

    fn read<'a>(r: &'a Reply) -> (o: Option<&'a Self>) {
        match r {
            Reply::MaybeHandle(x) => Some(x),
            _ => None,
        }
    }
}

impl Payload for Vec<u8> {
    open spec fn of(r: Reply) -> Option<Self> {
        match r {
            Reply::Bytes(x) => Some(x),
            _ => None,
        }
    }

    fn read<'a>(r: &'a Reply) -> (o: Option<&'a Self>) {
        match r {
            Reply::Bytes(x) => Some(x),
            _ => None,
        }
    }
}

impl Payload for Option<Vec<u8>> {
    open spec fn of(r: Reply) -> Option<Self> {
        match r {
            Reply::MaybeBytes(x) => Some(x),
            _ => None,
        }
    }

    fn read<'a>(r: &'a Reply) -> (o: Option<&'a Self>) {
        match r {
            Reply::MaybeBytes(x) => Some(x),
            _ => None,
        }
    }
}

impl Payload for String {
    open spec fn of(r: Reply) -> Option<Self> {
        match r {
            Reply::Text(x) => Some(x),
            _ => None,
        }
    }

    fn read<'a>(r: &'a Reply) -> (o: Option<&'a Self>) {
        match r {
            Reply::Text(x) => Some(x),
            _ => None,
        }
    }
}

impl Payload for u16 {
    open spec fn of(r: Reply) -> Option<Self> {
        match r {
            Reply::Status(x) => Some(x),
            _ => None,
        }
    }

    fn read<'a>(r: &'a Reply) -> (o: Option<&'a Self>) {
        match r {
            Reply::Status(x) => Some(x),
            _ => None,
        }
    }
}

impl Payload for Time {
    open spec fn of(r: Reply) -> Option<Self> {
        match r {
            Reply::Time(x) => Some(x),
            _ => None,
        }
    }

    fn read<'a>(r: &'a Reply) -> (o: Option<&'a Self>) {
        match r {
            Reply::Time(x) => Some(x),
            _ => None,
        }
    }
}

impl Payload for User {
    open spec fn of(r: Reply) -> Option<Self> {
        match r {
            Reply::User(x) => Some(x),
            _ => None,
        }
    }

    fn read<'a>(r: &'a Reply) -> (o: Option<&'a Self>) {
        match r {
            Reply::User(x) => Some(x),
            _ => None,
        }
    }
}

impl Payload for Option<User> {
    open spec fn of(r: Reply) -> Option<Self> {
        match r {
            Reply::MaybeUser(x) => Some(x),
            _ => None,
        }
    }

    fn read<'a>(r: &'a Reply) -> (o: Option<&'a Self>) {
        match r {
            Reply::MaybeUser(x) => Some(x),
            _ => None,
        }
    }
}

impl Payload for ApiUser {
    open spec fn of(r: Reply) -> Option<Self> {
        match r {
            Reply::ApiUser(x) => Some(x),
            _ => None,
        }
    }

    fn read<'a>(r: &'a Reply) -> (o: Option<&'a Self>) {
        match r {
            Reply::ApiUser(x) => Some(x),
            _ => None,
        }
    }
}

impl Payload for Option<ApiUser> {
    open spec fn of(r: Reply) -> Option<Self> {
        match r {
            Reply::MaybeApiUser(x) => Some(x),
            _ => None,
        }
    }

    fn read<'a>(r: &'a Reply) -> (o: Option<&'a Self>) {
        match r {
            Reply::MaybeApiUser(x) => Some(x),
            _ => None,
        }
    }
}

impl Payload for Client {
    open spec fn of(r: Reply) -> Option<Self> {
        match r {
            Reply::Client(x) => Some(x),
            _ => None,
        }
    }

    fn read<'a>(r: &'a Reply) -> (o: Option<&'a Self>) {
        match r {
            Reply::Client(x) => Some(x),
            _ => None,
        }
    }
}

impl Payload for Option<Client> {
    open spec fn of(r: Reply) -> Option<Self> {
        match r {
            Reply::MaybeClient(x) => Some(x),
            _ => None,
        }
    }

    fn read<'a>(r: &'a Reply) -> (o: Option<&'a Self>) {
        match r {
            Reply::MaybeClient(x) => Some(x),
            _ => None,
        }
    }
}

impl Payload for Vec<Client> {
    open spec fn of(r: Reply) -> Option<Self> {
        match r {
            Reply::Clients(x) => Some(x),
            _ => None,
        }
    }

    fn read<'a>(r: &'a Reply) -> (o: Option<&'a Self>) {
        match r {
            Reply::Clients(x) => Some(x),
            _ => None,
        }
    }
}

impl Payload for ApiClient {
    open spec fn of(r: Reply) -> Option<Self> {
        match r {
            Reply::ApiClient(x) => Some(x),
            _ => None,
        }
    }

    fn read<'a>(r: &'a Reply) -> (o: Option<&'a Self>) {
        match r {
            Reply::ApiClient(x) => Some(x),
            _ => None,
        }
    }
}

impl Payload for Option<ApiClient> {
    open spec fn of(r: Reply) -> Option<Self> {
        match r {
            Reply::MaybeApiClient(x) => Some(x),
            _ => None,
        }
    }

    fn read<'a>(r: &'a Reply) -> (o: Option<&'a Self>) {
        match r {
            Reply::MaybeApiClient(x) => Some(x),
            _ => None,
        }
    }
}

impl Payload for Vec<ApiClient> {
    open spec fn of(r: Reply) -> Option<Self> {
        match r {
            Reply::ApiClients(x) => Some(x),
            _ => None,
        }
    }

    fn read<'a>(r: &'a Reply) -> (o: Option<&'a Self>) {
        match r {
            Reply::ApiClients(x) => Some(x),
            _ => None,
        }
    }
}

impl Payload for Conversation {
    open spec fn of(r: Reply) -> Option<Self> {
        match r {
            Reply::Conversation(x) => Some(x),
            _ => None,
        }
    }

    fn read<'a>(r: &'a Reply) -> (o: Option<&'a Self>) {
        match r {
            Reply::Conversation(x) => Some(x),
            _ => None,
        }
    }
}

impl Payload for Option<Conversation> {
    open spec fn of(r: Reply) -> Option<Self> {
        match r {
            Reply::MaybeConversation(x) => Some(x),
            _ => None,
        }
    }

    fn read<'a>(r: &'a Reply) -> (o: Option<&'a Self>) {
        match r {
            Reply::MaybeConversation(x) => Some(x),
            _ => None,
        }
    }
}

impl Payload for Option<ApiConversation> {
    open spec fn of(r: Reply) -> Option<Self> {
        match r {
            Reply::MaybeApiConversation(x) => Some(x),
            _ => None,
        }
    }

    fn read<'a>(r: &'a Reply) -> (o: Option<&'a Self>) {
        match r {
            Reply::MaybeApiConversation(x) => Some(x),
            _ => None,
        }
    }
}

impl Payload for ConvId {
    open spec fn of(r: Reply) -> Option<Self> {
        match r {
            Reply::ConvId(x) => Some(x),
            _ => None,
        }
    }

    fn read<'a>(r: &'a Reply) -> (o: Option<&'a Self>) {
        match r {
            Reply::ConvId(x) => Some(x),
            _ => None,
        }
    }
}

impl Payload for Page<ConvId> {
    open spec fn of(r: Reply) -> Option<Self> {
        match r {
            Reply::ConvIds(x) => Some(x),
            _ => None,
        }
    }

    fn read<'a>(r: &'a Reply) -> (o: Option<&'a Self>) {
        match r {
            Reply::ConvIds(x) => Some(x),
            _ => None,
        }
    }
}

impl Payload for Connection {
    open spec fn of(r: Reply) -> Option<Self> {
        match r {
            Reply::Connection(x) => Some(x),
            _ => None,
        }
    }

    fn read<'a>(r: &'a Reply) -> (o: Option<&'a Self>) {
        match r {
            Reply::Connection(x) => Some(x),
            _ => None,
        }
    }
}

impl Payload for Option<Connection> {
    open spec fn of(r: Reply) -> Option<Self> {
        match r {
            Reply::MaybeConnection(x) => Some(x),
            _ => None,
        }
    }

    fn read<'a>(r: &'a Reply) -> (o: Option<&'a Self>) {
        match r {
            Reply::MaybeConnection(x) => Some(x),
            _ => None,
        }
    }
}

impl Payload for UserConnection {
    open spec fn of(r: Reply) -> Option<Self> {
        match r {
            Reply::ApiConnection(x) => Some(x),
            _ => None,
        }
    }

    fn read<'a>(r: &'a Reply) -> (o: Option<&'a Self>) {
        match r {
            Reply::ApiConnection(x) => Some(x),
            _ => None,
        }
    }
}

impl Payload for Option<UserConnection> {
    open spec fn of(r: Reply) -> Option<Self> {
        match r {
            Reply::MaybeApiConnection(x) => Some(x),
            _ => None,
        }
    }

    fn read<'a>(r: &'a Reply) -> (o: Option<&'a Self>) {
        match r {
            Reply::MaybeApiConnection(x) => Some(x),
            _ => None,
        }
    }
}

impl Payload for Page<UserConnection> {
    open spec fn of(r: Reply) -> Option<Self> {
        match r {
            Reply::ApiConnections(x) => Some(x),
            _ => None,
        }
    }

    fn read<'a>(r: &'a Reply) -> (o: Option<&'a Self>) {
        match r {
            Reply::ApiConnections(x) => Some(x),
            _ => None,
        }
    }
}

impl Payload for Rows {
    open spec fn of(r: Reply) -> Option<Self> {
        match r {
            Reply::Rows(x) => Some(x),
            _ => None,
        }
    }

    fn read<'a>(r: &'a Reply) -> (o: Option<&'a Self>) {
        match r {
            Reply::Rows(x) => Some(x),
            _ => None,
        }
    }
}

impl Payload for Credentials {
    open spec fn of(r: Reply) -> Option<Self> {
        match r {
            Reply::Credentials(x) => Some(x),
            _ => None,
        }
    }

    fn read<'a>(r: &'a Reply) -> (o: Option<&'a Self>) {
        match r {
            Reply::Credentials(x) => Some(x),
            _ => None,
        }
    }
}

impl Payload for NewAccess {
    open spec fn of(r: Reply) -> Option<Self> {
        match r {
            Reply::NewAccess(x) => Some(x),
            _ => None,
        }
    }

    fn read<'a>(r: &'a Reply) -> (o: Option<&'a Self>) {
        match r {
            Reply::NewAccess(x) => Some(x),
            _ => None,
        }
    }
}

impl Payload for Option<Reaction> {
    open spec fn of(r: Reply) -> Option<Self> {
        match r {
            Reply::Reaction(x) => Some(x),
            _ => None,
        }
    }

    fn read<'a>(r: &'a Reply) -> (o: Option<&'a Self>) {
        match r {
            Reply::Reaction(x) => Some(x),
            _ => None,
        }
    }
}

impl Payload for Vec<UserPrekeys> {
    open spec fn of(r: Reply) -> Option<Self> {
        match r {
            Reply::Prekeys(x) => Some(x),
            _ => None,
        }
    }

    fn read<'a>(r: &'a Reply) -> (o: Option<&'a Self>) {
        match r {
            Reply::Prekeys(x) => Some(x),
            _ => None,
        }
    }
}

impl Payload for Plaintext {
    open spec fn of(r: Reply) -> Option<Self> {
        match r {
            Reply::Plaintext(x) => Some(x),
            _ => None,
        }
    }

    fn read<'a>(r: &'a Reply) -> (o: Option<&'a Self>) {
        match r {
            Reply::Plaintext(x) => Some(x),
            _ => None,
        }
    }
}

impl Payload for Option<OutMessage> {
    open spec fn of(r: Reply) -> Option<Self> {
        match r {
            Reply::MaybeMessage(x) => Some(x),
            _ => None,
        }
    }

    fn read<'a>(r: &'a Reply) -> (o: Option<&'a Self>) {
        match r {
            Reply::MaybeMessage(x) => Some(x),
            _ => None,
        }
    }
}

impl Payload for QueuePage {
    open spec fn of(r: Reply) -> Option<Self> {
        match r {
            Reply::QueuePage(x) => Some(x),
            _ => None,
        }
    }

    fn read<'a>(r: &'a Reply) -> (o: Option<&'a Self>) {
        match r {
            Reply::QueuePage(x) => Some(x),
            _ => None,
        }
    }
}

impl Payload for Option<NotifId> {
    open spec fn of(r: Reply) -> Option<Self> {
        match r {
            Reply::MaybeNotifId(x) => Some(x),
            _ => None,
        }
    }

    fn read<'a>(r: &'a Reply) -> (o: Option<&'a Self>) {
        match r {
            Reply::MaybeNotifId(x) => Some(x),
            _ => None,
        }
    }
}

impl Payload for StreamItem {
    open spec fn of(r: Reply) -> Option<Self> {
        match r {
            Reply::StreamItem(x) => Some(x),
            _ => None,
        }
    }

    fn read<'a>(r: &'a Reply) -> (o: Option<&'a Self>) {
        match r {
            Reply::StreamItem(x) => Some(x),
            _ => None,
        }
    }
}

/// Why an operation stopped before it had a result.
#[derive(Debug)]
pub enum Stop<'a> {
    /// It awaits the answer to a question.
    Ask(Query<'a>),
    /// It failed.
    Fail(Error<'a>),
    /// An answer is not of the kind that the question asks for, or denies what the question before
    /// it has just brought about.
    Stray,
}

/// The mathematical form of [`Stop`].
pub enum StopView<'a> {
    Ask(QueryView<'a>),
    Fail(Error<'a>),
    Stray,
}

impl<'a> View for Stop<'a> {
    type V = StopView<'a>;

    open spec fn view(&self) -> StopView<'a> {
        match *self {
            Stop::Ask(q) => StopView::Ask(q@),
            Stop::Fail(e) => StopView::Fail(e),
            Stop::Stray => StopView::Stray,
        }
    }
}

/// The answers given so far, and how far an operation has read them.
pub struct Tape<'a> {
    log: &'a Vec<Reply>,
    at: usize,
    asked: Ghost<Seq<QueryView<'a>>>,
}

/// The mathematical form of [`Tape`]: the answers, the number of them that were read, and the
/// questions that were asked.
#[verifier::ext_equal]
pub struct TapeView<'a> {
    pub log: Seq<Reply>,
    pub at: nat,
    pub asked: Seq<QueryView<'a>>,
}

impl<'a> View for Tape<'a> {
    type V = TapeView<'a>;

    closed spec fn view(&self) -> TapeView<'a> {
        TapeView { log: self.log@, at: self.at as nat, asked: self.asked@ }
    }
}

/// What an operation comes to: the tape as it leaves it, and its result.
pub struct Run<'a, T> {
    pub tape: TapeView<'a>,
    pub out: Result<T, StopView<'a>>,
}

impl<'a, T> Run<'a, T> {
    /// Goes on with the result, if there is one.
    pub open spec fn and_then<U>(self, f: spec_fn(TapeView<'a>, T) -> Run<'a, U>) -> Run<'a, U> {
        match self.out {
            Ok(x) => f(self.tape, x),
            Err(s) => Run { tape: self.tape, out: Err(s) },
        }
    }
}

/// Succeeds.
pub open spec fn done<'a, T>(t: TapeView<'a>, x: T) -> Run<'a, T> {
    Run { tape: t, out: Ok(x) }
}

/// Stops.
pub open spec fn halt<'a, T>(t: TapeView<'a>, s: StopView<'a>) -> Run<'a, T> {
    Run { tape: t, out: Err(s) }
}

/// Fails.
pub open spec fn fail<'a, T>(t: TapeView<'a>, e: Error<'a>) -> Run<'a, T> {
    halt(t, StopView::Fail(e))
}

/// Goes on after a failure, with the failure as the result.
pub open spec fn caught<'a, T>(x: Run<'a, T>) -> Run<'a, Result<T, Error<'a>>> {
    match x.out {
        Ok(v) => done(x.tape, Ok(v)),
        Err(StopView::Fail(e)) => done(x.tape, Err(e)),
        Err(s) => halt(x.tape, s),
    }
}

/// Succeeds with a result or fails with a failure.
pub open spec fn settled<'a, T>(t: TapeView<'a>, x: Result<T, Error<'a>>) -> Run<'a, T> {
    match x {
        Ok(v) => done(t, v),
        Err(e) => fail(t, e),
    }
}

/// Asks a question.
pub open spec fn ask<'a, T: Payload>(t: TapeView<'a>, q: QueryView<'a>) -> Run<'a, T> {
    let asked = TapeView { asked: t.asked.push(q), ..t };
    if t.at < t.log.len() {
        let read = TapeView { at: t.at + 1nat, ..asked };
        match t.log[t.at as int] {
            Reply::Failed(f) => fail(read, Error::Failed(&f)),
            r => match T::of(r) {
                Some(x) => done(read, x),
                None => halt(read, StopView::Stray),
            },
        }
    } else {
        halt(asked, StopView::Ask(q))
    }
}

/// The run that a result and the tape it leaves amount to.
pub open spec fn told<'a, T>(t: TapeView<'a>, r: Result<T, Stop<'a>>) -> Run<'a, T> {
    told_as(t, r, |x: T| x)
}

/// The same, with the result in another form.
pub open spec fn told_as<'a, T, U>(
    t: TapeView<'a>,
    r: Result<T, Stop<'a>>,
    f: spec_fn(T) -> U,
) -> Run<'a, U> {
    match r {
        Ok(x) => done(t, f(x)),
        Err(s) => halt(t, s@),
    }
}

/// Is `u` the tape `t` with more answers at its end?
pub open spec fn grown<'a>(t: TapeView<'a>, u: TapeView<'a>) -> bool {
    &&& u.at == t.at
    &&& u.asked == t.asked
    &&& t.log.len() <= u.log.len()
    &&& forall|i: int| 0 <= i < t.log.len() ==> #[trigger] u.log[i] == t.log[i]
}

/// Does one list of questions begin with the other?
pub open spec fn begins_with<'a>(all: Seq<QueryView<'a>>, first: Seq<QueryView<'a>>) -> bool {
    &&& first.len() <= all.len()
    &&& forall|i: int| 0 <= i < first.len() ==> #[trigger] all[i] == first[i]
}

/// Is the failure one of the answers that were read between `t` and `u`?
pub open spec fn was_told<'a>(t: TapeView<'a>, u: TapeView<'a>, f: Failure) -> bool {
    exists|k: int| t.at <= k < u.at && #[trigger] t.log[k] == Reply::Failed(f)
}

/// Does a run over `t` keep to the tape? It changes no answer and forgets no question, it reads one
/// answer for each question, and where it awaits one it has read all that there are. It fails with the
/// failure of a service only if it was told of that failure.
pub open spec fn in_step<'a, T>(t: TapeView<'a>, r: Run<'a, T>) -> bool {
    &&& r.tape.log == t.log
    &&& t.at <= r.tape.at
    &&& t.at <= t.log.len() ==> r.tape.at <= t.log.len()
    &&& begins_with(r.tape.asked, t.asked)
    &&& match r.out {
        Err(StopView::Ask(q)) => {
            &&& r.tape.at >= t.log.len()
            &&& r.tape.asked.len() - t.asked.len() == r.tape.at - t.at + 1
            &&& r.tape.asked.last() == q
        },
        Err(StopView::Fail(Error::Failed(f))) => {
            &&& r.tape.asked.len() - t.asked.len() == r.tape.at - t.at
            &&& was_told(t, r.tape, *f)
        },
        _ => r.tape.asked.len() - t.asked.len() == r.tape.at - t.at,
    }
}

/// Does a run over a longer tape do what the run over the shorter one did? It asks the same
/// questions first; and if the shorter run had ended, it ends the same way.
pub open spec fn continues<'a, T>(r: Run<'a, T>, longer: Run<'a, T>) -> bool {
    match r.out {
        Err(StopView::Ask(_)) => begins_with(longer.tape.asked, r.tape.asked),
        _ => longer.out == r.out && grown(r.tape, longer.tape),
    }
}

/// Both, of the runs of one operation over a tape and over a longer one.
pub open spec fn steady<'a, T>(
    t: TapeView<'a>,
    u: TapeView<'a>,
    r: Run<'a, T>,
    longer: Run<'a, T>,
) -> bool {
    in_step(t, r) && in_step(u, longer) && continues(r, longer)
}

/// A question is steady.
pub proof fn ask_is_steady<'a, T: Payload>(t: TapeView<'a>, u: TapeView<'a>, q: QueryView<'a>)
    requires
        grown(t, u),
    ensures
        steady(t, u, ask::<T>(t, q), ask::<T>(u, q)),
{
}

/// Two steady runs after one another are steady.
pub proof fn chain_is_steady<'a, T, U>(
    t: TapeView<'a>,
    u: TapeView<'a>,
    r: Run<'a, T>,
    longer: Run<'a, T>,
    f: spec_fn(TapeView<'a>, T) -> Run<'a, U>,
)
    requires
        steady(t, u, r, longer),
        r.out matches Ok(x) ==> steady(r.tape, longer.tape, f(r.tape, x), f(longer.tape, x)),
        longer.out matches Ok(x) ==> in_step(longer.tape, f(longer.tape, x)),
    ensures
        steady(t, u, r.and_then(f), longer.and_then(f)),
{
}

impl<'a> Tape<'a> {
    /// A tape of which nothing was read yet.
    pub fn new(log: &'a Vec<Reply>) -> (r: Tape<'a>)
        ensures
            r@ == (TapeView { log: log@, at: 0, asked: Seq::empty() }),
    {
        Tape { log, at: 0, asked: Ghost(Seq::empty()) }
    }

    /// No more answers can be read than a machine word counts.
    pub proof fn is_short(&self)
        ensures
            self@.at <= usize::MAX,
    {
    }

    /// Asks a question.
    pub fn ask<T: Payload>(&mut self, q: Query<'a>) -> (r: Result<&'a T, Stop<'a>>)
        ensures
            told_as(final(self)@, r, |x: &'a T| *x) == ask::<T>(old(self)@, q@),
    {
        proof {
            self.asked@ = self.asked@.push(q@);
        }
        if self.at < self.log.len() {
            let log: &'a Vec<Reply> = self.log;
            let reply: &'a Reply = &log[self.at];
            self.at = self.at + 1;
            if let Reply::Failed(f) = reply {
                return Err(Stop::Fail(Error::Failed(f)));
            }
            match T::read(reply) {
                Some(x) => Ok(x),
                None => Err(Stop::Stray),
            }
        } else {
            Err(Stop::Ask(q))
        }
    }
}

} // verus!
