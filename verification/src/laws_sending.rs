//! Whom a message is encrypted for, and how it is sent.
use crate::access::{call_is_steady, call_run, react_run};
use crate::actor::{Actor, Online};
use crate::directory::{
    resolve_client_is_steady, resolve_client_run, resolve_conversation_is_steady,
    resolve_conversation_run,
};
use crate::footprint::{call_touches, resolve_client_touches, topic, touches, Topic};
use crate::laws_login::follows;
use crate::model::{
    Client, ClientMismatch, ClientPrekey, Complaint, ConvId, Envelope, Error, Handle, NewSession,
    OutMessage, QueuePage, Reaction, Time, UserId, UserPrekeys, UserSessionsView,
};
use crate::outbox::{
    begin_send_run, deliver_from_run, dequeue_run, enqueue_run, include_clients_run, include_run,
    include_users_run, on_mismatch_run, prepare_message_run, queue_run, remedy, seal_clients_run,
    seal_for_run, seal_members_run, seal_run, seal_sessions_run, send_attempt_run, send_message_run,
    store_message_run, Remedy,
};
use crate::query::{ApiView, Code, CryptView, DbView, QueryView};
use crate::tape::{ask, done, Reply, Run, StopView, TapeView};
use crate::trace::{
    answers, ends_as, hears, is_answer, look_ahead, nothing_is_picked_between, picked,
    picked_from_one, picked_in_parts, qa, said, said_in_parts, Said,
};
use vstd::prelude::*;

verus! {

/// Everything but one part of the world.
pub open spec fn all_but(p: Topic) -> Set<Topic> {
    Set::new(|x: Topic| x != p)
}

/// A run that does not touch a part of the world says nothing that concerns it.
pub proof fn untouched_is_not_picked<'a, T, U>(
    t: TapeView<'a>,
    r: Run<'a, U>,
    p: Topic,
    f: spec_fn(Said<'a>) -> Option<T>,
)
    requires
        follows(t, r.tape),
        touches(t, r, all_but(p)),
        forall|x: Said<'a>| #[trigger] f(x) is Some ==> topic(x.q) == p,
    ensures
        picked(said(t, r.tape), f) == Seq::<T>::empty(),
{
    assert forall|i: int, a: Reply| t.asked.len() <= i < r.tape.asked.len() implies f(
        #[trigger] qa(r.tape.asked[i], a),
    ) is None by {
        assert(all_but(p).contains(topic(r.tape.asked[i])));
        let x = qa(r.tape.asked[i], a);
        if f(x) is Some {
            assert(topic(x.q) == p);
        }
    }
    nothing_is_picked_between(t, r.tape, f);
}

// ---- Preparing a message --------------------------------------------------------------------

/// The device with which a session is looked for.
pub open spec fn session_sought<'a>() -> spec_fn(Said<'a>) -> Option<(UserId, Seq<char>)> {
    |x: Said<'a>|
        match x.q {
            QueryView::Crypt(_, CryptView::Session(user, client)) => Some((user, client)),
            _ => None,
        }
}

/// The user whose stored devices are asked for.
pub open spec fn devices_sought<'a>() -> spec_fn(Said<'a>) -> Option<UserId> {
    |x: Said<'a>|
        match x.q {
            QueryView::Db(_, DbView::Clients(user)) => Some(user),
            _ => None,
        }
}

/// The devices of a user.
pub open spec fn devices_of(user: UserId, cs: Seq<Client>) -> Seq<(UserId, Seq<char>)> {
    cs.map_values(|c: Client| (user, c.id@))
}

/// All the stored devices that the database told of, in order.
pub open spec fn devices_told<'a>(ss: Seq<Said<'a>>) -> Seq<(UserId, Seq<char>)>
    decreases ss.len(),
{
    if ss.len() == 0 {
        Seq::empty()
    } else {
        let before = devices_told(ss.drop_last());
        match (ss.last().q, ss.last().r) {
            (QueryView::Db(_, DbView::Clients(user)), Reply::Clients(cs)) => before + devices_of(
                user,
                cs@,
            ),
            _ => before,
        }
    }
}

proof fn devices_told_in_parts<'a>(ss: Seq<Said<'a>>, more: Seq<Said<'a>>)
    ensures
        devices_told(ss + more) == devices_told(ss) + devices_told(more),
    decreases more.len(),
{
    if more.len() == 0 {
        assert(ss + more =~= ss);
        assert(devices_told(ss) + devices_told(more) =~= devices_told(ss));
    } else {
        devices_told_in_parts(ss, more.drop_last());
        assert((ss + more).drop_last() =~= ss + more.drop_last());
        assert((ss + more).last() == more.last());
        assert(devices_told(ss + more) =~= devices_told(ss) + devices_told(more));
    }
}

/// Wherever a session was found, was the message encrypted with it next, for the same device? And
/// was it encrypted nowhere else?
#[verifier::opaque]
pub open spec fn sealed_where_found<'a>(
    a: &'a Actor<Online>,
    ss: Seq<Said<'a>>,
    plain: &'a Vec<u8>,
    envelope: Envelope,
) -> bool {
    let cbox = a.state.user.device.cbox;
    &&& forall|k: int|
        0 <= k < ss.len() ==> ((#[trigger] ss[k]).q matches QueryView::Crypt(
            c,
            CryptView::Session(user, client),
        ) ==> {
            &&& c == cbox
            &&& ss[k].r matches Reply::MaybeHandle(found) && (found matches Some(session) ==> k + 1
                < ss.len() && ss[k + 1] == qa(
                QueryView::Crypt(
                    cbox,
                    CryptView::Encrypt { session, user, client, plain, envelope },
                ),
                Reply::Done,
            ))
        })
    &&& forall|k: int|
        0 <= k < ss.len() ==> ((#[trigger] ss[k]).q matches QueryView::Crypt(
            _,
            CryptView::Encrypt { session, user, client, .. },
        ) ==> k > 0 && ss[k - 1] == qa(
            QueryView::Crypt(cbox, CryptView::Session(user, client)),
            Reply::MaybeHandle(Some(session)),
        ))
}

proof fn sealed_in_parts<'a>(
    a: &'a Actor<Online>,
    ss: Seq<Said<'a>>,
    more: Seq<Said<'a>>,
    plain: &'a Vec<u8>,
    envelope: Envelope,
)
    requires
        sealed_where_found(a, ss, plain, envelope),
        sealed_where_found(a, more, plain, envelope),
    ensures
        sealed_where_found(a, ss + more, plain, envelope),
{
    reveal(sealed_where_found);
    let all = ss + more;
    assert forall|k: int| 0 <= k < all.len() implies {
        let x = #[trigger] all[k];
        if k < ss.len() {
            x == ss[k] && (k + 1 < ss.len() ==> all[k + 1] == ss[k + 1]) && (k > 0 ==> all[k - 1]
                == ss[k - 1])
        } else {
            x == more[k - ss.len()] && (k + 1 < all.len() ==> all[k + 1] == more[k + 1 - ss.len()])
                && (k > ss.len() ==> all[k - 1] == more[k - 1 - ss.len()])
        }
    } by {}
}

/// One device is encrypted for if and only if there is a session with it.
pub proof fn device_is_sealed_if_there_is_a_session<'a>(
    a: &'a Actor<Online>,
    t: TapeView<'a>,
    user: UserId,
    client: Seq<char>,
    plain: &'a Vec<u8>,
    envelope: Envelope,
)
    ensures
        seal_run(a, t, user, client, plain, envelope).out is Ok ==> {
            let r = seal_run(a, t, user, client, plain, envelope);
            let cbox = a.state.user.device.cbox;
            let sought = QueryView::Crypt(cbox, CryptView::Session(user, client));
            &&& follows(t, r.tape)
            &&& t.log[t.at as int] matches Reply::MaybeHandle(found) && said(t, r.tape) == (
            match found {
                Some(session) => seq![
                    qa(sought, Reply::MaybeHandle(found)),
                    qa(
                        QueryView::Crypt(
                            cbox,
                            CryptView::Encrypt { session, user, client, plain, envelope },
                        ),
                        Reply::Done,
                    ),
                ],
                None => seq![qa(sought, Reply::MaybeHandle(found))],
            })
        },
{
    let r = seal_run(a, t, user, client, plain, envelope);
    if r.out is Ok {
        let cbox = a.state.user.device.cbox;
        let x = ask::<Option<Handle>>(t, QueryView::Crypt(cbox, CryptView::Session(user, client)));
        assert(x.out is Ok);
    }
}

/// Encrypting for one device succeeds if both answers come.
pub proof fn device_is_sealed_if_answered<'a>(
    a: &'a Actor<Online>,
    t: TapeView<'a>,
    user: UserId,
    client: Seq<char>,
    plain: &'a Vec<u8>,
    envelope: Envelope,
    session: Handle,
)
    ensures
        answers(t, seq![Reply::MaybeHandle(None)]) ==> seal_run(
            a,
            t,
            user,
            client,
            plain,
            envelope,
        ).out is Ok,
        answers(t, seq![Reply::MaybeHandle(Some(session)), Reply::Done]) ==> seal_run(
            a,
            t,
            user,
            client,
            plain,
            envelope,
        ).out is Ok,
{
    look_ahead(t, seq![Reply::MaybeHandle(None)]);
    look_ahead(t, seq![Reply::MaybeHandle(Some(session)), Reply::Done]);
}

proof fn picked_from_seal<'a>(
    a: &'a Actor<Online>,
    t: TapeView<'a>,
    user: UserId,
    client: Seq<char>,
    plain: &'a Vec<u8>,
    envelope: Envelope,
)
    ensures
        seal_run(a, t, user, client, plain, envelope).out is Ok ==> {
            let ss = said(t, seal_run(a, t, user, client, plain, envelope).tape);
            &&& picked(ss, session_sought()) == seq![(user, client)]
            &&& picked(ss, devices_sought()) == Seq::<UserId>::empty()
            &&& devices_told(ss) == Seq::<(UserId, Seq<char>)>::empty()
            &&& sealed_where_found(a, ss, plain, envelope)
        },
{
    device_is_sealed_if_there_is_a_session(a, t, user, client, plain, envelope);
    let r = seal_run(a, t, user, client, plain, envelope);
    if r.out is Ok {
        let ss = said(t, r.tape);
        reveal_with_fuel(picked, 3);
        reveal(sealed_where_found);
        reveal_with_fuel(devices_told, 3);
        assert(ss.drop_last().len() <= 1);
        assert(picked(ss, session_sought()) =~= seq![(user, client)]);
    }
}

/// All the devices of a list are looked at, in order, and encrypted for where there is a session.
pub proof fn every_device_is_looked_at<'a>(
    a: &'a Actor<Online>,
    t: TapeView<'a>,
    user: UserId,
    clients: Seq<Client>,
    plain: &'a Vec<u8>,
    envelope: Envelope,
)
    ensures
        seal_clients_run(a, t, user, clients, plain, envelope).out is Ok ==> {
            let r = seal_clients_run(a, t, user, clients, plain, envelope);
            let ss = said(t, r.tape);
            &&& follows(t, r.tape)
            &&& picked(ss, session_sought()) == devices_of(user, clients)
            &&& picked(ss, devices_sought()) == Seq::<UserId>::empty()
            &&& devices_told(ss) == Seq::<(UserId, Seq<char>)>::empty()
            &&& sealed_where_found(a, ss, plain, envelope)
        },
    decreases clients.len(),
{
    let r = seal_clients_run(a, t, user, clients, plain, envelope);
    if r.out is Ok {
        if clients.len() == 0 {
            reveal(sealed_where_found);
            assert(said(t, t) =~= Seq::empty());
            assert(devices_of(user, clients) =~= Seq::empty());
        } else {
            let id = clients[0].id@;
            let x = seal_run(a, t, user, id, plain, envelope);
            device_is_sealed_if_there_is_a_session(a, t, user, id, plain, envelope);
            picked_from_seal(a, t, user, id, plain, envelope);
            let rest = clients.drop_first();
            every_device_is_looked_at(a, x.tape, user, rest, plain, envelope);
            let (s1, s2) = (said(t, x.tape), said(x.tape, r.tape));
            said_in_parts(t, x.tape, r.tape);
            picked_in_parts(s1, s2, session_sought());
            picked_in_parts(s1, s2, devices_sought());
            devices_told_in_parts(s1, s2);
            sealed_in_parts(a, s1, s2, plain, envelope);
            assert(devices_of(user, clients) =~= seq![(user, id)] + devices_of(user, rest));
            assert(picked(s1 + s2, devices_sought()) =~= Seq::empty());
            assert(devices_told(s1 + s2) =~= Seq::empty());
        }
    }
}

proof fn one_member_more<'a>(
    a: &'a Actor<Online>,
    cs: Vec<Client>,
    members: Seq<UserId>,
    s2: Seq<Said<'a>>,
    s3: Seq<Said<'a>>,
    plain: &'a Vec<u8>,
    envelope: Envelope,
)
    requires
        members.len() > 0,
        picked(s2, session_sought()) == devices_of(members[0], cs@),
        picked(s2, devices_sought()) == Seq::<UserId>::empty(),
        devices_told(s2) == Seq::<(UserId, Seq<char>)>::empty(),
        sealed_where_found(a, s2, plain, envelope),
        picked(s3, devices_sought()) == members.drop_first(),
        picked(s3, session_sought()) == devices_told(s3),
        sealed_where_found(a, s3, plain, envelope),
    ensures
        ({
            let first = qa(
                QueryView::Db(a.db(), DbView::Clients(members[0])),
                Reply::Clients(cs),
            );
            let ss = seq![first] + (s2 + s3);
            &&& picked(ss, devices_sought()) == members
            &&& picked(ss, session_sought()) == devices_told(ss)
            &&& sealed_where_found(a, ss, plain, envelope)
        }),
{
    let user = members[0];
    let s1 = seq![qa(QueryView::Db(a.db(), DbView::Clients(user)), Reply::Clients(cs))];
    let ss = s1 + (s2 + s3);
    assert(sealed_where_found(a, s1, plain, envelope)) by {
        reveal(sealed_where_found);
    }
    assert(sealed_where_found(a, ss, plain, envelope)) by {
        sealed_in_parts(a, s2, s3, plain, envelope);
        sealed_in_parts(a, s1, s2 + s3, plain, envelope);
    }
    assert(s1.drop_last() =~= Seq::empty());
    assert(picked(ss, devices_sought()) == members) by {
        picked_from_one(s1[0], devices_sought());
        picked_in_parts(s1, s2 + s3, devices_sought());
        picked_in_parts(s2, s3, devices_sought());
        assert(picked(ss, devices_sought()) =~= members);
    }
    assert(picked(ss, session_sought()) == devices_told(ss)) by {
        picked_from_one(s1[0], session_sought());
        reveal_with_fuel(devices_told, 2);
        assert(devices_told(s1) =~= devices_of(user, cs@));
        picked_in_parts(s1, s2 + s3, session_sought());
        picked_in_parts(s2, s3, session_sought());
        devices_told_in_parts(s1, s2 + s3);
        devices_told_in_parts(s2, s3);
        assert(picked(ss, session_sought()) =~= devices_told(ss));
    }
}

/// A message is encrypted for the members of a list: the stored devices of each of them are asked
/// for, in order, and every device that the database tells of is looked at and encrypted for where
/// there is a session.
pub proof fn every_member_is_encrypted_for<'a>(
    a: &'a Actor<Online>,
    t: TapeView<'a>,
    members: Seq<UserId>,
    plain: &'a Vec<u8>,
    envelope: Envelope,
)
    ensures
        seal_members_run(a, t, members, plain, envelope).out is Ok ==> {
            let r = seal_members_run(a, t, members, plain, envelope);
            let ss = said(t, r.tape);
            &&& follows(t, r.tape)
            &&& picked(ss, devices_sought()) == members
            &&& picked(ss, session_sought()) == devices_told(ss)
            &&& sealed_where_found(a, ss, plain, envelope)
        },
    decreases members.len(),
{
    let r = seal_members_run(a, t, members, plain, envelope);
    if r.out is Ok {
        if members.len() == 0 {
            reveal(sealed_where_found);
            assert(said(t, t) =~= Seq::empty());
        } else {
            let user = members[0];
            let x = ask::<Vec<Client>>(t, QueryView::Db(a.db(), DbView::Clients(user)));
            let cs = x.out->Ok_0@;
            let y = seal_clients_run(a, x.tape, user, cs, plain, envelope);
            every_device_is_looked_at(a, x.tape, user, cs, plain, envelope);
            let rest = members.drop_first();
            every_member_is_encrypted_for(a, y.tape, rest, plain, envelope);
            said_in_parts(x.tape, y.tape, r.tape);
            said_in_parts(t, x.tape, r.tape);
            assert(said(t, x.tape) =~= seq![
                qa(QueryView::Db(a.db(), DbView::Clients(user)), Reply::Clients(x.out->Ok_0)),
            ]);
            one_member_more(
                a,
                x.out->Ok_0,
                members,
                said(x.tape, y.tape),
                said(y.tape, r.tape),
                plain,
                envelope,
            );
            assert(said(t, r.tape) =~= said(t, x.tape) + (said(x.tape, y.tape) + said(y.tape, r.tape)));
        }
    }
}

proof fn seal_clients_has_no_complaint<'a>(
    a: &'a Actor<Online>,
    t: TapeView<'a>,
    user: UserId,
    clients: Seq<Client>,
    plain: &'a Vec<u8>,
    envelope: Envelope,
)
    ensures
        seal_clients_run(a, t, user, clients, plain, envelope).out matches Err(StopView::Fail(e))
            ==> e is Failed,
    decreases clients.len(),
{
    if clients.len() > 0 {
        let x = seal_run(a, t, user, clients[0].id@, plain, envelope);
        seal_clients_has_no_complaint(a, x.tape, user, clients.drop_first(), plain, envelope);
    }
}

proof fn seal_members_has_no_complaint<'a>(
    a: &'a Actor<Online>,
    t: TapeView<'a>,
    members: Seq<UserId>,
    plain: &'a Vec<u8>,
    envelope: Envelope,
)
    ensures
        seal_members_run(a, t, members, plain, envelope).out matches Err(StopView::Fail(e))
            ==> e is Failed,
    decreases members.len(),
{
    if members.len() > 0 {
        let user = members[0];
        let x = ask::<Vec<Client>>(t, QueryView::Db(a.db(), DbView::Clients(user)));
        let cs = x.out->Ok_0@;
        let y = seal_clients_run(a, x.tape, user, cs, plain, envelope);
        seal_clients_has_no_complaint(a, x.tape, user, cs, plain, envelope);
        seal_members_has_no_complaint(a, y.tape, members.drop_first(), plain, envelope);
    }
}

/// A message that is prepared is one for a conversation that was found. Its envelope is a new one
/// for that conversation, and all members of the conversation are encrypted for, on every stored
/// device with which there is a session, with the bytes of this message.
pub proof fn prepared_message_is_for_all_members<'a>(
    a: &'a Actor<Online>,
    t: TapeView<'a>,
    conv: ConvId,
    msg: &'a OutMessage,
)
    ensures
        prepare_message_run(a, t, conv, msg).out matches Ok(envelope) ==> {
            let x = resolve_conversation_run(a, t, conv);
            let u = prepare_message_run(a, t, conv, msg).tape;
            let ss = said(x.tape, u);
            &&& x.out matches Ok(Some(c)) && follows(x.tape, u) && ss.len() >= 2 && ss[0] == qa(
                QueryView::NewEnvelope(conv, a.state.user.device.client.id@),
                Reply::Handle(envelope.record),
            ) && ss[1].q == QueryView::Code(Code::EncodeMessage(msg)) && (
            ss[1].r matches Reply::Bytes(plain) && sealed_where_found(a, ss, &plain, envelope))
                && picked(ss, devices_sought()) == c.members@ && picked(ss, session_sought())
                == devices_told(ss)
            &&& envelope.conv == conv
        },
        resolve_conversation_run(a, t, conv).out matches Ok(found) ==> (found is None
            <==> prepare_message_run(a, t, conv, msg).out == Err::<Envelope, StopView<'a>>(
            StopView::Fail(Error::Message(Complaint::NoConversation)),
        )),
{
    let x = resolve_conversation_run(a, t, conv);
    let r = prepare_message_run(a, t, conv, msg);
    resolve_conversation_is_steady(a, t, t, conv);
    if let Ok(Some(c)) = x.out {
        let q = QueryView::NewEnvelope(conv, a.state.user.device.client.id@);
        let y = ask::<Handle>(x.tape, q);
        let z = ask::<Vec<u8>>(y.tape, QueryView::Code(Code::EncodeMessage(msg)));
        if let (Ok(record), Ok(plain)) = (y.out, z.out) {
            let envelope = Envelope { conv, record };
            let w = seal_members_run(a, z.tape, c.members@, &plain, envelope);
            every_member_is_encrypted_for(a, z.tape, c.members@, &plain, envelope);
            seal_members_has_no_complaint(a, z.tape, c.members@, &plain, envelope);
            if r.out is Ok {
                let (s1, s2) = (said(x.tape, z.tape), said(z.tape, r.tape));
                assert(follows(x.tape, z.tape));
                said_in_parts(x.tape, z.tape, r.tape);
                assert(s1 =~= seq![
                    qa(q, Reply::Handle(record)),
                    qa(QueryView::Code(Code::EncodeMessage(msg)), Reply::Bytes(plain)),
                ]);
                reveal_with_fuel(picked, 3);
                reveal_with_fuel(devices_told, 3);
                assert(picked(s1, devices_sought()) =~= Seq::empty());
                assert(picked(s1, session_sought()) =~= Seq::empty());
                assert(devices_told(s1) =~= Seq::empty());
                picked_in_parts(s1, s2, devices_sought());
                picked_in_parts(s1, s2, session_sought());
                devices_told_in_parts(s1, s2);
                assert(sealed_where_found(a, s1, &plain, envelope)) by {
                    reveal(sealed_where_found);
                }
                sealed_in_parts(a, s1, s2, &plain, envelope);
                assert(picked(s1 + s2, devices_sought()) =~= c.members@);
                assert(picked(s1 + s2, session_sought()) =~= devices_told(s1 + s2));
            }
        }
    }
}

/// How a message is prepared. Where there is no such conversation, that is the complaint. Otherwise
/// an envelope is made, the message is encoded, and its members are encrypted for; and whatever
/// goes wrong with one of these is how it ends.
pub proof fn message_is_prepared_in_order<'a>(
    a: &'a Actor<Online>,
    t: TapeView<'a>,
    conv: ConvId,
    msg: &'a OutMessage,
)
    ensures
        ({
            let x = resolve_conversation_run(a, t, conv);
            let y = ask::<Handle>(
                x.tape,
                QueryView::NewEnvelope(conv, a.state.user.device.client.id@),
            );
            let z = ask::<Vec<u8>>(y.tape, QueryView::Code(Code::EncodeMessage(msg)));
            let r = prepare_message_run(a, t, conv, msg);
            match (x.out, y.out, z.out) {
                (Err(_), _, _) => ends_as(r, x),
                (Ok(None), _, _) => r.tape == x.tape && r.out == Err::<Envelope, StopView<'a>>(
                    StopView::Fail(Error::Message(Complaint::NoConversation)),
                ),
                (Ok(Some(_)), Err(_), _) => ends_as(r, y),
                (Ok(Some(_)), Ok(_), Err(_)) => ends_as(r, z),
                (Ok(Some(c)), Ok(record), Ok(plain)) => {
                    let w = seal_members_run(
                        a,
                        z.tape,
                        c.members@,
                        &plain,
                        Envelope { conv, record },
                    );
                    match w.out {
                        Err(_) => ends_as(r, w),
                        Ok(_) => r.tape == w.tape && (r.out matches Ok(e) && e.conv == conv
                            && e.record == record),
                    }
                },
            }
        }),
{
}

// ---- Devices that were left out -------------------------------------------------------------

/// The session that is started, and the device that it is started with.
pub open spec fn started<'a>() -> spec_fn(Said<'a>) -> Option<(Handle, UserId, Seq<char>)> {
    |x: Said<'a>|
        match (x.q, x.r) {
            (
                QueryView::Crypt(_, CryptView::SessionFromPrekey(user, client, _)),
                Reply::Handle(session),
            ) => Some((session, user, client)),
            _ => None,
        }
}

/// The session that a message is encrypted with, and the device that it is encrypted for.
pub open spec fn ciphered<'a>() -> spec_fn(Said<'a>) -> Option<(Handle, UserId, Seq<char>)> {
    |x: Said<'a>|
        match x.q {
            QueryView::Crypt(_, CryptView::Encrypt { session, user, client, .. }) => Some(
                (session, user, client),
            ),
            _ => None,
        }
}

/// Sessions with devices of a user.
pub open spec fn with_devices<'a>(user: UserId, ss: Seq<NewSession<'a>>) -> Seq<
    (Handle, UserId, Seq<char>),
> {
    ss.map_values(|s: NewSession<'a>| (s.session, user, s.client@))
}

/// Sessions with devices of several users, in order.
pub open spec fn with_all_devices<'a>(us: Seq<UserSessionsView<'a>>) -> Seq<
    (Handle, UserId, Seq<char>),
>
    decreases us.len(),
{
    if us.len() == 0 {
        Seq::empty()
    } else {
        with_all_devices(us.drop_last()) + with_devices(us.last().user, us.last().sessions)
    }
}

proof fn with_all_devices_in_parts<'a>(
    us: Seq<UserSessionsView<'a>>,
    more: Seq<UserSessionsView<'a>>,
)
    ensures
        with_all_devices(us + more) == with_all_devices(us) + with_all_devices(more),
    decreases more.len(),
{
    if more.len() == 0 {
        assert(us + more =~= us);
        assert(with_all_devices(us) + with_all_devices(more) =~= with_all_devices(us));
    } else {
        with_all_devices_in_parts(us, more.drop_last());
        assert((us + more).drop_last() =~= us + more.drop_last());
        assert(with_all_devices(us + more) =~= with_all_devices(us) + with_all_devices(more));
    }
}

/// A message is encrypted for a device with the session that there is.
pub open spec fn cipher<'a>(
    a: &'a Actor<Online>,
    plain: &'a Vec<u8>,
    envelope: Envelope,
) -> spec_fn((Handle, UserId, Seq<char>)) -> Said<'a> {
    |p: (Handle, UserId, Seq<char>)|
        qa(
            QueryView::Crypt(
                a.state.user.device.cbox,
                CryptView::Encrypt { session: p.0, user: p.1, client: p.2, plain, envelope },
            ),
            Reply::Done,
        )
}

/// A device that was left out is resolved. If and only if it came with a prekey, a session is then
/// started from that, and this session is the one that is returned for it.
pub proof fn left_out_device_gets_a_session<'a>(
    a: &'a Actor<Online>,
    t: TapeView<'a>,
    user: UserId,
    c: &'a ClientPrekey,
    made: Seq<NewSession<'a>>,
    given: Handle,
)
    ensures
        ({
            let x = resolve_client_run(a, t, user, c.client@);
            let r = include_run(a, t, user, c, made);
            match (x.out, c.key) {
                (Ok(_), Some(key)) => {
                    &&& r.out matches Ok(all) ==> follows(x.tape, r.tape) && all.len()
                        == made.len() + 1 && all.drop_last() == made && all.last().client@
                        == c.client@ && said(x.tape, r.tape) == seq![
                        qa(
                            QueryView::Crypt(
                                a.state.user.device.cbox,
                                CryptView::SessionFromPrekey(user, c.client@, key),
                            ),
                            Reply::Handle(all.last().session),
                        ),
                    ]
                    &&& answers(x.tape, seq![Reply::Handle(given)]) ==> r.out is Ok
                },
                (Ok(_), None) => r.tape == x.tape && r.out == Ok::<
                    Seq<NewSession<'a>>,
                    StopView<'a>,
                >(made),
                (Err(s), _) => r.tape == x.tape && r.out == Err::<
                    Seq<NewSession<'a>>,
                    StopView<'a>,
                >(s),
            }
        }),
{
    let x = resolve_client_run(a, t, user, c.client@);
    let r = include_run(a, t, user, c, made);
    if x.out is Ok && c.key is Some && r.out is Ok {
        let h = NewSession { client: &c.client, session: r.out->Ok_0.last().session };
        assert(made.push(h).drop_last() =~= made);
    }
    look_ahead(x.tape, seq![Reply::Handle(given)]);
}

proof fn started_by_include<'a>(
    a: &'a Actor<Online>,
    t: TapeView<'a>,
    user: UserId,
    c: &'a ClientPrekey,
    made: Seq<NewSession<'a>>,
)
    ensures
        include_run(a, t, user, c, made).out matches Ok(all) ==> {
            let ss = said(t, include_run(a, t, user, c, made).tape);
            &&& follows(t, include_run(a, t, user, c, made).tape)
            &&& with_devices(user, all) == with_devices(user, made) + picked(ss, started())
            &&& picked(ss, ciphered()) == Seq::<(Handle, UserId, Seq<char>)>::empty()
        },
{
    let x = resolve_client_run(a, t, user, c.client@);
    let r = include_run(a, t, user, c, made);
    resolve_client_is_steady(a, t, t, user, c.client@);
    if let Ok(all) = r.out {
        left_out_device_gets_a_session(a, t, user, c, made, all.last().session);
        assert(follows(t, x.tape));
        resolve_client_touches(a, t, user, c.client@, all_but(Topic::Crypto));
        untouched_is_not_picked(t, x, Topic::Crypto, started());
        untouched_is_not_picked(t, x, Topic::Crypto, ciphered());
        let (s1, s2) = (said(t, x.tape), said(x.tape, r.tape));
        if let Some(key) = c.key {
            said_in_parts(t, x.tape, r.tape);
            picked_in_parts(s1, s2, started());
            picked_in_parts(s1, s2, ciphered());
            picked_from_one(s2[0], started());
            picked_from_one(s2[0], ciphered());
            assert(made =~= all.drop_last());
            assert(with_devices(user, all) =~= with_devices(user, made) + picked(s2, started()));
            assert(picked(s1 + s2, started()) =~= picked(s2, started()));
            assert(picked(s1 + s2, ciphered()) =~= Seq::empty());
        } else {
            assert(with_devices(user, made) + picked(s1, started()) =~= with_devices(user, made));
        }
    }
}

proof fn started_by_include_clients<'a>(
    a: &'a Actor<Online>,
    t: TapeView<'a>,
    user: UserId,
    cs: Seq<ClientPrekey>,
    made: Seq<NewSession<'a>>,
)
    ensures
        include_clients_run(a, t, user, cs, made).out matches Ok(all) ==> {
            let ss = said(t, include_clients_run(a, t, user, cs, made).tape);
            &&& follows(t, include_clients_run(a, t, user, cs, made).tape)
            &&& with_devices(user, all) == with_devices(user, made) + picked(ss, started())
            &&& picked(ss, ciphered()) == Seq::<(Handle, UserId, Seq<char>)>::empty()
        },
    decreases cs.len(),
{
    let r = include_clients_run(a, t, user, cs, made);
    if r.out is Ok {
        if cs.len() == 0 {
            assert(said(t, t) =~= Seq::empty());
            assert(with_devices(user, made) + Seq::empty() =~= with_devices(user, made));
        } else {
            let x = include_run(a, t, user, &cs[0], made);
            started_by_include(a, t, user, &cs[0], made);
            started_by_include_clients(a, x.tape, user, cs.drop_first(), x.out->Ok_0);
            let (s1, s2) = (said(t, x.tape), said(x.tape, r.tape));
            said_in_parts(t, x.tape, r.tape);
            picked_in_parts(s1, s2, started());
            picked_in_parts(s1, s2, ciphered());
            assert(with_devices(user, r.out->Ok_0) =~= with_devices(user, made) + picked(
                s1 + s2,
                started(),
            ));
            assert(picked(s1 + s2, ciphered()) =~= Seq::empty());
        }
    }
}

proof fn started_by_include_users<'a>(
    a: &'a Actor<Online>,
    t: TapeView<'a>,
    users: Seq<UserPrekeys>,
    made: Seq<UserSessionsView<'a>>,
)
    ensures
        include_users_run(a, t, users, made).out matches Ok(all) ==> {
            let ss = said(t, include_users_run(a, t, users, made).tape);
            &&& follows(t, include_users_run(a, t, users, made).tape)
            &&& with_all_devices(all) == with_all_devices(made) + picked(ss, started())
            &&& picked(ss, ciphered()) == Seq::<(Handle, UserId, Seq<char>)>::empty()
        },
    decreases users.len(),
{
    let r = include_users_run(a, t, users, made);
    if r.out is Ok {
        if users.len() == 0 {
            assert(said(t, t) =~= Seq::empty());
            assert(with_all_devices(made) + Seq::empty() =~= with_all_devices(made));
        } else {
            let user = users[0].user;
            let x = include_clients_run(a, t, user, users[0].clients@, Seq::empty());
            started_by_include_clients(a, t, user, users[0].clients@, Seq::empty());
            let next = UserSessionsView { user, sessions: x.out->Ok_0 };
            let all = made.push(next);
            started_by_include_users(a, x.tape, users.drop_first(), all);
            let (s1, s2) = (said(t, x.tape), said(x.tape, r.tape));
            said_in_parts(t, x.tape, r.tape);
            picked_in_parts(s1, s2, started());
            picked_in_parts(s1, s2, ciphered());
            assert(all.drop_last() =~= made);
            assert(with_devices(user, Seq::empty()) =~= Seq::empty());
            assert(with_devices(user, next.sessions) =~= picked(s1, started()));
            assert(with_all_devices(r.out->Ok_0) =~= with_all_devices(made) + picked(
                s1 + s2,
                started(),
            ));
            assert(picked(s1 + s2, ciphered()) =~= Seq::empty());
        }
    }
}

/// After a mismatch the prekeys of the devices that were left out are asked for, and all who have
/// some are taken in.
pub proof fn prekeys_are_asked_for_after_a_mismatch<'a>(
    a: &'a Actor<Online>,
    t: TapeView<'a>,
    m: &'a ClientMismatch,
)
    ensures
        ({
            let x = call_run::<Vec<UserPrekeys>>(a, t, ApiView::Prekeys(m));
            let r = on_mismatch_run(a, t, m);
            match x.out {
                Err(_) => ends_as(r, x),
                Ok(users) => r == include_users_run(a, x.tape, users@, Seq::empty()),
            }
        }),
{
}

/// The sessions that are returned for the devices that were left out are all those that were
/// started, in order. Nothing is encrypted meanwhile.
pub proof fn started_sessions_are_returned<'a>(
    a: &'a Actor<Online>,
    t: TapeView<'a>,
    m: &'a ClientMismatch,
)
    ensures
        on_mismatch_run(a, t, m).out matches Ok(us) ==> {
            let ss = said(t, on_mismatch_run(a, t, m).tape);
            &&& follows(t, on_mismatch_run(a, t, m).tape)
            &&& with_all_devices(us) == picked(ss, started())
            &&& picked(ss, ciphered()) == Seq::<(Handle, UserId, Seq<char>)>::empty()
        },
{
    let r = on_mismatch_run(a, t, m);
    if let Ok(us) = r.out {
        let x = call_run::<Vec<UserPrekeys>>(a, t, ApiView::Prekeys(m));
        call_is_steady::<Vec<UserPrekeys>>(a, t, t, ApiView::Prekeys(m));
        assert(follows(t, x.tape));
        call_touches::<Vec<UserPrekeys>>(a, t, ApiView::Prekeys(m), all_but(Topic::Crypto));
        untouched_is_not_picked(t, x, Topic::Crypto, started());
        untouched_is_not_picked(t, x, Topic::Crypto, ciphered());
        started_by_include_users(a, x.tape, x.out->Ok_0@, Seq::empty());
        let (s1, s2) = (said(t, x.tape), said(x.tape, r.tape));
        said_in_parts(t, x.tape, r.tape);
        picked_in_parts(s1, s2, started());
        picked_in_parts(s1, s2, ciphered());
        assert(with_all_devices(us) =~= picked(s1 + s2, started()));
        assert(picked(s1 + s2, ciphered()) =~= Seq::empty());
    }
}

/// A message is encrypted once for each session with a device of a user, in order, and nothing else
/// is done.
pub proof fn each_session_is_encrypted_with<'a>(
    a: &'a Actor<Online>,
    t: TapeView<'a>,
    user: UserId,
    ss: Seq<NewSession<'a>>,
    plain: &'a Vec<u8>,
    envelope: Envelope,
)
    ensures
        seal_sessions_run(a, t, user, ss, plain, envelope).out is Ok ==> hears(
            t,
            seal_sessions_run(a, t, user, ss, plain, envelope).tape,
            with_devices(user, ss).map_values(cipher(a, plain, envelope)),
        ),
    decreases ss.len(),
{
    let r = seal_sessions_run(a, t, user, ss, plain, envelope);
    let f = cipher(a, plain, envelope);
    if r.out is Ok {
        if ss.len() == 0 {
            assert(said(t, t) =~= with_devices(user, ss).map_values(f));
        } else {
            let p = (ss[0].session, user, ss[0].client@);
            let x = ask::<()>(t, f(p).q);
            let rest = ss.drop_first();
            each_session_is_encrypted_with(a, x.tape, user, rest, plain, envelope);
            said_in_parts(t, x.tape, r.tape);
            assert(said(t, x.tape) =~= seq![f(p)]);
            assert(with_devices(user, ss).map_values(f) =~= seq![f(p)] + with_devices(
                user,
                rest,
            ).map_values(f));
        }
    }
}

/// With a single session there is a single question.
pub proof fn single_session_is_encrypted_with<'a>(
    a: &'a Actor<Online>,
    t: TapeView<'a>,
    user: UserId,
    s: NewSession<'a>,
    plain: &'a Vec<u8>,
    envelope: Envelope,
)
    ensures
        is_answer(
            t,
            seal_sessions_run(a, t, user, seq![s], plain, envelope),
            QueryView::Crypt(
                a.state.user.device.cbox,
                CryptView::Encrypt {
                    session: s.session,
                    user,
                    client: s.client@,
                    plain,
                    envelope,
                },
            ),
            Reply::Done,
            (),
        ),
        seal_sessions_run(a, t, user, Seq::empty(), plain, envelope) == done(t, ()),
{
    assert(seq![s].drop_first() =~= Seq::empty());
    let q = QueryView::Crypt(
        a.state.user.device.cbox,
        CryptView::Encrypt { session: s.session, user, client: s.client@, plain, envelope },
    );
    let x = ask::<()>(t, q);
    assert(seal_sessions_run(a, x.tape, user, Seq::empty(), plain, envelope) == done(x.tape, ()));
}

/// A message is encrypted once for each of the sessions with devices of several users, in order,
/// and nothing else is done.
pub proof fn all_sessions_are_encrypted_with<'a>(
    a: &'a Actor<Online>,
    t: TapeView<'a>,
    us: Seq<UserSessionsView<'a>>,
    plain: &'a Vec<u8>,
    envelope: Envelope,
)
    ensures
        seal_for_run(a, t, us, plain, envelope).out is Ok ==> hears(
            t,
            seal_for_run(a, t, us, plain, envelope).tape,
            with_all_devices(us).map_values(cipher(a, plain, envelope)),
        ),
    decreases us.len(),
{
    let r = seal_for_run(a, t, us, plain, envelope);
    let f = cipher(a, plain, envelope);
    if r.out is Ok {
        if us.len() == 0 {
            assert(said(t, t) =~= with_all_devices(us).map_values(f));
        } else {
            let (user, ss) = (us[0].user, us[0].sessions);
            let x = seal_sessions_run(a, t, user, ss, plain, envelope);
            each_session_is_encrypted_with(a, t, user, ss, plain, envelope);
            let rest = us.drop_first();
            all_sessions_are_encrypted_with(a, x.tape, rest, plain, envelope);
            said_in_parts(t, x.tape, r.tape);
            assert(us =~= seq![us[0]] + rest);
            with_all_devices_in_parts(seq![us[0]], rest);
            assert(seq![us[0]].drop_last() =~= Seq::empty());
            reveal_with_fuel(with_all_devices, 2);
            assert(with_all_devices(seq![us[0]]) =~= with_devices(user, ss));
            assert(with_all_devices(us).map_values(f) =~= with_devices(user, ss).map_values(f)
                + with_all_devices(rest).map_values(f));
        }
    }
}

/// After a mismatch, before the envelope is sent again, the message is encrypted for the devices
/// that were left out: once with each session that was started with one of them, in order, for the
/// same device, with the bytes and the envelope that are being sent.
pub proof fn left_out_devices_are_encrypted_for<'a>(
    a: &'a Actor<Online>,
    t: TapeView<'a>,
    m: &'a ClientMismatch,
    plain: &'a Vec<u8>,
    envelope: Envelope,
)
    ensures
        ({
            let x = on_mismatch_run(a, t, m);
            let r = begin_send_run(a, t, Some(Remedy::Include(m)), plain, envelope);
            let before = said(t, x.tape);
            &&& r.out is Ok ==> follows(t, x.tape) && picked(before, ciphered()) == Seq::<
                (Handle, UserId, Seq<char>),
            >::empty() && hears(
                x.tape,
                r.tape,
                picked(before, started()).map_values(cipher(a, plain, envelope)),
            )
            &&& x.out matches Err(s) ==> r.tape == x.tape && r.out == Err::<(), StopView<'a>>(s)
        }),
{
    let x = on_mismatch_run(a, t, m);
    started_sessions_are_returned(a, t, m);
    if let Ok(us) = x.out {
        all_sessions_are_encrypted_with(a, x.tape, us, plain, envelope);
    }
}

// ---- Attempts to send -----------------------------------------------------------------------

/// An attempt to send an envelope is, once it has begun, the envelope being sent.
pub proof fn attempt_sends_the_envelope<'a>(
    a: &'a Actor<Online>,
    t: TapeView<'a>,
    how: Option<Remedy<'a>>,
    plain: &'a Vec<u8>,
    envelope: Envelope,
    time: Time,
)
    ensures
        ({
            let x = begin_send_run(a, t, how, plain, envelope);
            let r = send_attempt_run(a, t, how, plain, envelope);
            &&& how is None ==> x.tape == t && x.out is Ok
            &&& how matches Some(Remedy::React(reaction)) ==> x == react_run(a, t, Some(reaction))
            &&& x.out matches Err(s) ==> r.tape == x.tape && r.out == Err::<Time, StopView<'a>>(s)
            &&& x.out is Ok ==> is_answer(
                x.tape,
                r,
                QueryView::Api(a.link(), ApiView::Send(envelope)),
                Reply::Time(time),
                time,
            )
            &&& x.out is Ok ==> (r.out matches Ok(sent) ==> hears(
                x.tape,
                r.tape,
                seq![qa(QueryView::Api(a.link(), ApiView::Send(envelope)), Reply::Time(sent))],
            ))
        }),
{
    let x = begin_send_run(a, t, how, plain, envelope);
    let r = send_attempt_run(a, t, how, plain, envelope);
    if let (Ok(_), Ok(sent)) = (x.out, r.out) {
        let q = QueryView::Api(a.link(), ApiView::Send(envelope));
        assert(said(x.tape, r.tape) =~= seq![qa(q, Reply::Time(sent))]);
    }
}

/// What is done about a failed attempt to send: access is renewed where it was denied; where not,
/// the attempt is made again if the failure is a passing one; and where it is none, devices that
/// were left out are let in. Nothing is done about any other failure.
pub proof fn remedy_suits_the_failure<'a>(e: Error<'a>)
    ensures
        remedy(e) is None <==> !(e matches Error::Failed(f) && (f.unauthorised || f.retriable
            || f.mismatch is Some)),
        remedy(e) matches Some(Remedy::React(Reaction::Renew)) <==> (
        e matches Error::Failed(f) && f.unauthorised),
        remedy(e) matches Some(Remedy::React(Reaction::Retry)) <==> (
        e matches Error::Failed(f) && !f.unauthorised && f.retriable),
        remedy(e) matches Some(Remedy::Include(m)) ==> e matches Error::Failed(f) && f.mismatch
            == Some(*m),
        remedy(e) matches Some(Remedy::Include(_)) <==> (
        e matches Error::Failed(f) && !f.unauthorised && !f.retriable && f.mismatch is Some),
{
}

/// What follows an attempt to send, whichever it is: a result is returned. A failure about which
/// nothing can be done, or after which no further attempt is to be made, is returned as well.
/// Otherwise the next attempt begins with what is done about the failure. Whether one is to be made
/// is asked with the number of attempts that have failed.
pub proof fn failed_attempt_is_followed_by_another<'a>(
    a: &'a Actor<Online>,
    t: TapeView<'a>,
    how: Option<Remedy<'a>>,
    n: nat,
    plain: &'a Vec<u8>,
    envelope: Envelope,
)
    ensures
        ({
            let x = send_attempt_run(a, t, how, plain, envelope);
            let r = deliver_from_run(a, t, how, n, plain, envelope);
            match x.out {
                Err(StopView::Fail(e)) if remedy(e) is Some => {
                    let y = ask::<bool>(
                        x.tape,
                        QueryView::TryAgain { error: e, failed: n, limit: 3, pause: 3 },
                    );
                    match y.out {
                        Ok(true) => r == deliver_from_run(
                            a,
                            y.tape,
                            remedy(e),
                            n + 1,
                            plain,
                            envelope,
                        ),
                        Ok(false) => r.tape == y.tape && r.out == x.out,
                        Err(s) => r.tape == y.tape && r.out == Err::<Time, StopView<'a>>(s),
                    }
                },
                _ => r == x,
            }
        }),
{
}

/// What is recorded of a message that was delivered: that it was sent, when it was sent, and that
/// its conversation was active then. The time is what is returned.
pub proof fn delivered_message_is_recorded<'a>(
    a: &'a Actor<Online>,
    t: TapeView<'a>,
    envelope: Envelope,
    msg: &'a OutMessage,
)
    ensures
        ({
            let x = ask::<Vec<u8>>(t, QueryView::Code(Code::EncodeMessage(msg)));
            let r = send_message_run(a, t, envelope, msg);
            match x.out {
                Err(_) => ends_as(r, x),
                Ok(plain) => {
                    let y = deliver_from_run(a, x.tape, None, 0, &plain, envelope);
                    match y.out {
                        Err(_) => ends_as(r, y),
                        Ok(time) => {
                            &&& r.out matches Ok(got) ==> got == time && hears(
                                y.tape,
                                r.tape,
                                seq![
                                    qa(
                                        QueryView::Db(
                                            a.db(),
                                            DbView::MessageSent(envelope.conv, &msg.id),
                                        ),
                                        Reply::Done,
                                    ),
                                    qa(
                                        QueryView::Db(
                                            a.db(),
                                            DbView::MessageTime(envelope.conv, &msg.id, time),
                                        ),
                                        Reply::Done,
                                    ),
                                    qa(
                                        QueryView::Db(
                                            a.db(),
                                            DbView::ConvTime(envelope.conv, time.secs),
                                        ),
                                        Reply::Done,
                                    ),
                                ],
                            )
                            &&& answers(y.tape, seq![Reply::Done, Reply::Done, Reply::Done])
                                ==> r.out is Ok
                        },
                    }
                },
            }
        }),
{
    let x = ask::<Vec<u8>>(t, QueryView::Code(Code::EncodeMessage(msg)));
    let r = send_message_run(a, t, envelope, msg);
    if let Ok(plain) = x.out {
        let y = deliver_from_run(a, x.tape, None, 0, &plain, envelope);
        if let Ok(time) = y.out {
            if r.out is Ok {
                assert(said(y.tape, r.tape) =~= seq![
                    qa(
                        QueryView::Db(a.db(), DbView::MessageSent(envelope.conv, &msg.id)),
                        Reply::Done,
                    ),
                    qa(
                        QueryView::Db(a.db(), DbView::MessageTime(envelope.conv, &msg.id, time)),
                        Reply::Done,
                    ),
                    qa(
                        QueryView::Db(a.db(), DbView::ConvTime(envelope.conv, time.secs)),
                        Reply::Done,
                    ),
                ]);
            }
            look_ahead(y.tape, seq![Reply::Done, Reply::Done, Reply::Done]);
        }
    }
}

// ---- Keeping messages -------------------------------------------------------------------------

/// A message of ours is stored under the time that it is now, as one from us and from this device
/// that was not received.
pub proof fn own_message_is_stored_as_ours<'a>(
    a: &'a Actor<Online>,
    t: TapeView<'a>,
    conv: ConvId,
    msg: &'a OutMessage,
    now: Time,
)
    ensures
        ({
            let r = store_message_run(a, t, conv, msg);
            &&& r.out is Ok ==> (t.log[t.at as int] matches Reply::Time(time) && follows(t, r.tape)
                && said(t, r.tape).len() == 2 && said(t, r.tape)[0] == qa(
                QueryView::Now,
                Reply::Time(time),
            ) && said(t, r.tape)[1].r == Reply::Done && (
            said(t, r.tape)[1].q matches QueryView::Db(db, DbView::InsertText(new)) && db == a.db()
                && *new.id == msg.id && new.conv == conv && new.time == time && new.from
                == a.state.user.user.id && *new.client == a.state.user.device.client.id && *new.text
                == msg.text && !new.received))
            &&& answers(t, seq![Reply::Time(now), Reply::Done]) ==> r.out is Ok
        }),
{
    look_ahead(t, seq![Reply::Time(now), Reply::Done]);
}

/// A message is queued with its bytes and those of its envelope, under the conversation of the
/// envelope.
pub proof fn message_is_queued_with_its_envelope<'a>(
    a: &'a Actor<Online>,
    t: TapeView<'a>,
    id: &'a Vec<u8>,
    envelope: Envelope,
    msg: &'a OutMessage,
    given: (Vec<u8>, Vec<u8>),
)
    ensures
        ({
            let r = enqueue_run(a, t, id, envelope, msg);
            &&& r.out is Ok ==> (t.log[t.at as int] matches Reply::Bytes(mesg) && (
            t.log[t.at + 1int] matches Reply::Bytes(data) && hears(
                t,
                r.tape,
                seq![
                    qa(QueryView::Code(Code::EncodeMessage(msg)), Reply::Bytes(mesg)),
                    qa(QueryView::Code(Code::EncodeEnvelope(envelope)), Reply::Bytes(data)),
                    qa(
                        QueryView::Db(
                            a.db(),
                            DbView::Enqueue { id, conv: envelope.conv, data: &data, mesg: &mesg },
                        ),
                        Reply::Done,
                    ),
                ],
            )))
            &&& answers(t, seq![Reply::Bytes(given.0), Reply::Bytes(given.1), Reply::Done])
                ==> r.out is Ok
        }),
{
    let r = enqueue_run(a, t, id, envelope, msg);
    if r.out is Ok {
        let x = ask::<Vec<u8>>(t, QueryView::Code(Code::EncodeMessage(msg)));
        let y = ask::<Vec<u8>>(x.tape, QueryView::Code(Code::EncodeEnvelope(envelope)));
        let (mesg, data) = (x.out->Ok_0, y.out->Ok_0);
        assert(said(t, r.tape) =~= seq![
            qa(QueryView::Code(Code::EncodeMessage(msg)), Reply::Bytes(mesg)),
            qa(QueryView::Code(Code::EncodeEnvelope(envelope)), Reply::Bytes(data)),
            qa(
                QueryView::Db(
                    a.db(),
                    DbView::Enqueue { id, conv: envelope.conv, data: &data, mesg: &mesg },
                ),
                Reply::Done,
            ),
        ]);
    }
    look_ahead(t, seq![Reply::Bytes(given.0), Reply::Bytes(given.1), Reply::Done]);
}

/// An item is taken out of the queue by its id and conversation, and a page of the queue is read
/// from where it is wanted, with as many items as are wanted.
pub proof fn queue_is_asked_as_told<'a>(
    a: &'a Actor<Online>,
    t: TapeView<'a>,
    id: &'a Vec<u8>,
    conv: ConvId,
    from: Option<Handle>,
    num: usize,
    page: QueuePage,
)
    ensures
        is_answer(
            t,
            dequeue_run(a, t, id, conv),
            QueryView::Db(a.db(), DbView::Dequeue(id, conv)),
            Reply::Done,
            (),
        ),
        is_answer(
            t,
            queue_run(a, t, from, num),
            QueryView::Db(a.db(), DbView::QueueItems(from, num)),
            Reply::QueuePage(page),
            page,
        ),
{
}

} // verus!
