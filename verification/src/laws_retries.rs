//! How attempts are made, and made again.
use crate::access::{
    attempt_run, call_from_run, call_run, connect_again_run, connect_attempt_run, connect_from_run,
    connect_run, react_run, renew_access_run,
};
use crate::actor::{Actor, Connected, Offline, Online};
use crate::assets::{
    asset_attempt_run, asset_from_run, contents_run, icon_run, load_asset_run, stored_icon_run,
};
use crate::inbox::{renewal_run, socket_attempt_run, socket_from_run, socket_run};
use crate::login::{
    entry_attempt_run, entry_call_run, entry_from_run, self_client_attempt_run,
    self_client_from_run, self_client_run,
};
use crate::model::{
    ApiClient, AssetKey, Complaint, Config, Credentials, Error, Handle, NewAccess, Place, Reaction,
    User, Var,
};
use crate::query::{ApiView, Cred, DbView, Disk, Link, QueryView};
use crate::tape::{ask, Payload, Reply, Run, StopView, TapeView};
use crate::text::{address_endpoint, address_host, paired_endpoint, EndpointView};
use crate::trace::{answers, ends_as, hears, look_ahead, qa, said};
use vstd::prelude::*;

verus! {

/// What follows an attempt. One that came to a result is the last. About one that failed the retry
/// policy is asked, with the number of attempts that had failed before: if it wants another
/// attempt, that is what follows, and otherwise the failure is the result.
pub open spec fn is_followed_up<'a, T>(
    x: Run<'a, T>,
    n: nat,
    r: Run<'a, T>,
    again: spec_fn(TapeView<'a>, Reaction) -> Run<'a, T>,
) -> bool {
    match x.out {
        Err(StopView::Fail(e)) => {
            let y = ask::<Option<Reaction>>(
                x.tape,
                QueryView::Recover { error: e, failed: n },
            );
            match y.out {
                Ok(Some(how)) => r == again(y.tape, how),
                Ok(None) => r.tape == y.tape && r.out == x.out,
                Err(_) => ends_as(r, y),
            }
        },
        _ => r == x,
    }
}

/// A call that follows on what an attempt begins with.
pub open spec fn begins_with_run<'a, T, U>(
    x: Run<'a, U>,
    r: Run<'a, T>,
    rest: spec_fn(TapeView<'a>) -> Run<'a, T>,
) -> bool {
    match x.out {
        Ok(_) => r == rest(x.tape),
        Err(_) => ends_as(r, x),
    }
}

// ---- Access -----------------------------------------------------------------------------------

/// How access is renewed: the new access is asked for; a new cookie that came with it is stored;
/// and then it is taken over.
pub proof fn new_access_is_taken_over<'a>(a: &'a Actor<Online>, t: TapeView<'a>, given: NewAccess)
    ensures
        ({
            let r = renew_access_run(a, t);
            &&& r.out is Ok ==> (t.log[t.at as int] matches Reply::NewAccess(n) && hears(
                t,
                r.tape,
                match n.cookie {
                    Some(c) => seq![
                        qa(QueryView::Api(a.link(), ApiView::RenewAccess), Reply::NewAccess(n)),
                        qa(
                            QueryView::Db(a.db(), DbView::SetVar(Var::UserCookie, c@)),
                            Reply::Done,
                        ),
                        qa(
                            QueryView::Cred(a.state.user.creds, Cred::Replace(&n)),
                            Reply::Done,
                        ),
                    ],
                    None => seq![
                        qa(QueryView::Api(a.link(), ApiView::RenewAccess), Reply::NewAccess(n)),
                        qa(
                            QueryView::Cred(a.state.user.creds, Cred::Replace(&n)),
                            Reply::Done,
                        ),
                    ],
                },
            ))
            &&& answers(
                t,
                match given.cookie {
                    Some(_) => seq![Reply::NewAccess(given), Reply::Done, Reply::Done],
                    None => seq![Reply::NewAccess(given), Reply::Done],
                },
            ) ==> r.out is Ok
        }),
{
    let r = renew_access_run(a, t);
    if r.out is Ok {
        let q = QueryView::Api(a.link(), ApiView::RenewAccess);
        let x = ask::<NewAccess>(t, q);
        let n = x.out->Ok_0;
        let last = qa(QueryView::Cred(a.state.user.creds, Cred::Replace(&n)), Reply::Done);
        match n.cookie {
            Some(c) => {
                assert(said(t, r.tape) =~= seq![
                    qa(q, Reply::NewAccess(n)),
                    qa(QueryView::Db(a.db(), DbView::SetVar(Var::UserCookie, c@)), Reply::Done),
                    last,
                ]);
            },
            None => {
                assert(said(t, r.tape) =~= seq![qa(q, Reply::NewAccess(n)), last]);
            },
        }
    }
    look_ahead(t, seq![Reply::NewAccess(given), Reply::Done, Reply::Done]);
    look_ahead(t, seq![Reply::NewAccess(given), Reply::Done]);
}

/// What an attempt begins with: access is renewed if that is what is wanted. If another connection
/// is wanted, access is renewed after that only if it has expired. Nothing is done otherwise.
pub proof fn attempt_begins_as_wanted<'a>(a: &'a Actor<Online>, t: TapeView<'a>)
    ensures
        react_run(a, t, Some(Reaction::Renew)) == renew_access_run(a, t),
        ({
            let x = ask::<()>(t, QueryView::Api(a.link(), ApiView::Reconnect));
            let y = ask::<bool>(x.tape, QueryView::Cred(a.state.user.creds, Cred::Expired));
            let r = react_run(a, t, Some(Reaction::Retry));
            match (x.out, y.out) {
                (Err(_), _) => ends_as(r, x),
                (Ok(_), Err(_)) => ends_as(r, y),
                (Ok(_), Ok(true)) => r == renew_access_run(a, y.tape),
                (Ok(_), Ok(false)) => r.tape == y.tape && r.out is Ok,
            }
        }),
        react_run(a, t, Some(Reaction::Other)).tape == t,
        react_run(a, t, Some(Reaction::Other)).out is Ok,
        react_run(a, t, None).tape == t,
        react_run(a, t, None).out is Ok,
{
}

// ---- Calls ------------------------------------------------------------------------------------

/// How the back-end is called. Each attempt begins as the retry policy wanted, the first with
/// nothing; then the question is put; and what follows is up to the policy.
pub proof fn calls_are_followed_up<'a, T: Payload>(
    a: &'a Actor<Online>,
    t: TapeView<'a>,
    r: Option<Reaction>,
    n: nat,
    q: ApiView<'a>,
)
    ensures
        begins_with_run(
            react_run(a, t, r),
            attempt_run::<T>(a, t, r, q),
            |u: TapeView<'a>| ask::<T>(u, QueryView::Api(a.link(), q)),
        ),
        is_followed_up(
            attempt_run::<T>(a, t, r, q),
            n,
            call_from_run::<T>(a, t, r, n, q),
            |u: TapeView<'a>, how: Reaction| call_from_run::<T>(a, u, Some(how), n + 1, q),
        ),
        call_run::<T>(a, t, q) == call_from_run::<T>(a, t, None, 0, q),
{
}

/// How we connect to the configured host. An address that is none, or that has no domain, is told
/// apart. Otherwise we connect to its domain, and then set both timeouts of the connection to ten
/// seconds.
pub proof fn connection_has_timeouts<'a>(c: Config, t: TapeView<'a>, given: Handle)
    ensures
        ({
            let r = connect_run(c, t);
            match address_endpoint(c.host_url@) {
                EndpointView::Invalid => r.tape == t && r.out == Err::<Handle, StopView<'a>>(
                    StopView::Fail(Error::Address),
                ),
                EndpointView::NoDomain => r.tape == t && r.out == Err::<Handle, StopView<'a>>(
                    StopView::Fail(Error::Message(Complaint::HostWithoutDomain)),
                ),
                EndpointView::At { url, domain } => {
                    &&& r.out matches Ok(client) ==> hears(
                        t,
                        r.tape,
                        seq![
                            qa(QueryView::Connect { url, domain }, Reply::Handle(client)),
                            qa(
                                QueryView::Api(
                                    Link { client, creds: None },
                                    ApiView::ReadTimeout(10),
                                ),
                                Reply::Done,
                            ),
                            qa(
                                QueryView::Api(
                                    Link { client, creds: None },
                                    ApiView::WriteTimeout(10),
                                ),
                                Reply::Done,
                            ),
                        ],
                    )
                    &&& answers(t, seq![Reply::Handle(given), Reply::Done, Reply::Done])
                        ==> r.out is Ok
                },
            }
        }),
{
    let r = connect_run(c, t);
    if let EndpointView::At { url, domain } = address_endpoint(c.host_url@) {
        if let Ok(client) = r.out {
            let link = Link { client, creds: None };
            assert(said(t, r.tape) =~= seq![
                qa(QueryView::Connect { url, domain }, Reply::Handle(client)),
                qa(QueryView::Api(link, ApiView::ReadTimeout(10)), Reply::Done),
                qa(QueryView::Api(link, ApiView::WriteTimeout(10)), Reply::Done),
            ]);
        }
        look_ahead(t, seq![Reply::Handle(given), Reply::Done, Reply::Done]);
    }
}

/// How we connect again. Each attempt begins as the retry policy wanted, the first with nothing;
/// then we connect; and what follows is up to the policy.
pub proof fn connecting_is_followed_up<'a>(
    a: &'a Actor<Online>,
    t: TapeView<'a>,
    r: Option<Reaction>,
    n: nat,
)
    ensures
        begins_with_run(
            react_run(a, t, r),
            connect_attempt_run(a, t, r),
            |u: TapeView<'a>| connect_run(a.config, u),
        ),
        is_followed_up(
            connect_attempt_run(a, t, r),
            n,
            connect_from_run(a, t, r, n),
            |u: TapeView<'a>, how: Reaction| connect_from_run(a, u, Some(how), n + 1),
        ),
        connect_again_run(a, t) == connect_from_run(a, t, None, 0),
{
}

// ---- Websockets -------------------------------------------------------------------------------

/// How a websocket is opened: at the configured address with our device's id in its query, with our
/// credentials. An address that is none, or that has no domain, is told apart. Each attempt begins
/// as the retry policy wanted, the first with nothing, and what follows is up to the policy.
pub proof fn websockets_are_followed_up<'a>(
    a: &'a Actor<Online>,
    t: TapeView<'a>,
    r: Option<Reaction>,
    n: nat,
    url: Seq<char>,
    domain: Seq<char>,
)
    ensures
        begins_with_run(
            react_run(a, t, r),
            socket_attempt_run(a, t, r, url, domain),
            |u: TapeView<'a>|
                ask::<Handle>(u, QueryView::OpenSocket { url, domain, creds: a.state.user.creds }),
        ),
        is_followed_up(
            socket_attempt_run(a, t, r, url, domain),
            n,
            socket_from_run(a, t, r, n, url, domain),
            |u: TapeView<'a>, how: Reaction| socket_from_run(a, u, Some(how), n + 1, url, domain),
        ),
        match paired_endpoint(
            a.config.host_websocket@,
            "client"@,
            a.state.user.device.client.id@,
        ) {
            EndpointView::Invalid => socket_run(a, t).tape == t && socket_run(a, t).out == Err::<
                Handle,
                StopView<'a>,
            >(StopView::Fail(Error::Address)),
            EndpointView::NoDomain => socket_run(a, t).tape == t && socket_run(a, t).out == Err::<
                Handle,
                StopView<'a>,
            >(StopView::Fail(Error::Message(Complaint::WebsocketWithoutDomain))),
            EndpointView::At { url, domain } => socket_run(a, t) == socket_from_run(
                a,
                t,
                None,
                0,
                url,
                domain,
            ),
        },
{
}

/// Before a websocket is opened again, the connection and then access are renewed, whatever comes
/// of the connection. What failed first is what is reported.
pub proof fn renewal_reports_what_failed_first<'a>(a: &'a Actor<Online>, t: TapeView<'a>)
    ensures
        ({
            let x = ask::<()>(t, QueryView::Api(a.link(), ApiView::Reconnect));
            let y = renew_access_run(a, x.tape);
            let r = renewal_run(a, t);
            match (x.out, y.out) {
                (Ok(_), _) => r.tape == y.tape && (r.out is Ok <==> y.out is Ok) && (
                y.out matches Err(_) ==> r.out == y.out),
                (Err(StopView::Fail(_)), Ok(_)) => r.tape == y.tape && r.out == x.out,
                (Err(StopView::Fail(_)), Err(StopView::Fail(_))) => r.tape == y.tape && r.out
                    == x.out,
                (Err(StopView::Fail(_)), Err(_)) => ends_as(r, y),
                (Err(_), _) => ends_as(r, x),
            }
        }),
{
}

// ---- Before there is a user -------------------------------------------------------------------

/// How the back-end is called before there is a user. Each attempt but the first begins with
/// another connection; then the question is put; and what follows is up to the retry policy, where
/// it does not matter what else the policy wants.
pub proof fn first_calls_are_followed_up<'a, T: Payload>(
    a: &'a Actor<Connected>,
    t: TapeView<'a>,
    n: nat,
    q: ApiView<'a>,
)
    ensures
        entry_attempt_run::<T>(a, t, false, q) == ask::<T>(t, QueryView::Api(a.link(), q)),
        begins_with_run(
            ask::<()>(t, QueryView::Api(a.link(), ApiView::Reconnect)),
            entry_attempt_run::<T>(a, t, true, q),
            |u: TapeView<'a>| ask::<T>(u, QueryView::Api(a.link(), q)),
        ),
        is_followed_up(
            entry_attempt_run::<T>(a, t, n > 0, q),
            n,
            entry_from_run::<T>(a, t, n, q),
            |u: TapeView<'a>, _how: Reaction| entry_from_run::<T>(a, u, n + 1, q),
        ),
        entry_call_run::<T>(a, t, q) == entry_from_run::<T>(a, t, 0, q),
{
}

/// How our own device is fetched: as in any call before there is a user, where an attempt that
/// finds no device has failed as well.
pub proof fn missing_device_is_a_failure<'a>(
    a: &'a Actor<Connected>,
    t: TapeView<'a>,
    n: nat,
    id: Seq<char>,
    creds: &'a Credentials,
)
    ensures
        ({
            let q = ApiView::SelfClient(id, creds);
            let x = entry_attempt_run::<Option<ApiClient>>(a, t, n > 0, q);
            let y = self_client_attempt_run(a, t, n > 0, q);
            &&& match x.out {
                Err(_) => ends_as(y, x),
                Ok(None) => y.tape == x.tape && y.out == Err::<ApiClient, StopView<'a>>(
                    StopView::Fail(Error::Message(Complaint::ClientNotFound)),
                ),
                Ok(Some(c)) => y.tape == x.tape && y.out == Ok::<ApiClient, StopView<'a>>(c),
            }
            &&& is_followed_up(
                y,
                n,
                self_client_from_run(a, t, n, q),
                |u: TapeView<'a>, _how: Reaction| self_client_from_run(a, u, n + 1, q),
            )
            &&& self_client_run(a, t, id, creds) == self_client_from_run(a, t, 0, q)
        }),
{
}

// ---- Assets -----------------------------------------------------------------------------------

/// How an asset is loaded. A file that exists is opened. Otherwise its address is asked for, which
/// must have a host, and it is downloaded; if that is successful, the download is saved, moved into
/// place and opened, and there is none if not.
pub proof fn asset_is_local_or_downloaded<'a>(
    t: TapeView<'a>,
    link: Link,
    place: Place,
    key: &'a AssetKey,
    file: Handle,
)
    ensures
        ({
            let x = ask::<bool>(t, QueryView::Disk(Disk::AssetExists(place, key)));
            let y = ask::<String>(x.tape, QueryView::Api(link, ApiView::AssetUrl(key)));
            let r = load_asset_run(t, link, place, key);
            let opened = QueryView::Disk(Disk::OpenAsset(place, key));
            match (x.out, y.out) {
                (Err(_), _) => ends_as(r, x),
                (Ok(true), _) => {
                    &&& r.out matches Ok(got) ==> (got matches Some(h) && hears(
                        x.tape,
                        r.tape,
                        seq![qa(opened, Reply::Handle(h))],
                    ))
                    &&& answers(x.tape, seq![Reply::Handle(file)]) ==> r.out is Ok
                },
                (Ok(false), Err(_)) => ends_as(r, y),
                (Ok(false), Ok(url)) => match address_host(url@) {
                    None => r.tape == y.tape && r.out == Err::<Option<Handle>, StopView<'a>>(
                        StopView::Fail(Error::Message(Complaint::AssetWithoutHost)),
                    ),
                    Some(host) => {
                        let z = ask::<u16>(
                            y.tape,
                            QueryView::Api(link, ApiView::Download { url: &url, host }),
                        );
                        match z.out {
                            Err(_) => ends_as(r, z),
                            Ok(200u16) => {
                                &&& r.out matches Ok(got) ==> (got matches Some(h) && hears(
                                    z.tape,
                                    r.tape,
                                    seq![
                                        qa(
                                            QueryView::Disk(Disk::SaveDownload(place, key)),
                                            Reply::Done,
                                        ),
                                        qa(
                                            QueryView::Disk(Disk::PublishDownload(place, key)),
                                            Reply::Done,
                                        ),
                                        qa(opened, Reply::Handle(h)),
                                    ],
                                ))
                                &&& answers(
                                    z.tape,
                                    seq![Reply::Done, Reply::Done, Reply::Handle(file)],
                                ) ==> r.out is Ok
                            },
                            Ok(_) => r.tape == z.tape && r.out == Ok::<
                                Option<Handle>,
                                StopView<'a>,
                            >(None),
                        }
                    },
                },
            }
        }),
{
    let x = ask::<bool>(t, QueryView::Disk(Disk::AssetExists(place, key)));
    let y = ask::<String>(x.tape, QueryView::Api(link, ApiView::AssetUrl(key)));
    let r = load_asset_run(t, link, place, key);
    let opened = QueryView::Disk(Disk::OpenAsset(place, key));
    if let Ok(true) = x.out {
        if let Ok(Some(h)) = r.out {
            assert(said(x.tape, r.tape) =~= seq![qa(opened, Reply::Handle(h))]);
        }
        look_ahead(x.tape, seq![Reply::Handle(file)]);
    }
    if let (Ok(false), Ok(url)) = (x.out, y.out) {
        if let Some(host) = address_host(url@) {
            let z = ask::<u16>(
                y.tape,
                QueryView::Api(link, ApiView::Download { url: &url, host }),
            );
            if let Ok(Some(h)) = r.out {
                assert(said(z.tape, r.tape) =~= seq![
                    qa(QueryView::Disk(Disk::SaveDownload(place, key)), Reply::Done),
                    qa(QueryView::Disk(Disk::PublishDownload(place, key)), Reply::Done),
                    qa(opened, Reply::Handle(h)),
                ]);
            }
            look_ahead(z.tape, seq![Reply::Done, Reply::Done, Reply::Handle(file)]);
        }
    }
}

/// Each attempt to load an asset begins as the retry policy wanted, the first with nothing, and
/// what follows is up to the policy.
pub proof fn assets_are_followed_up<'a>(
    a: &'a Actor<Online>,
    t: TapeView<'a>,
    r: Option<Reaction>,
    n: nat,
    key: &'a AssetKey,
)
    ensures
        begins_with_run(
            react_run(a, t, r),
            asset_attempt_run(a, t, r, key),
            |u: TapeView<'a>| load_asset_run(u, a.link(), a.state.user.assets, key),
        ),
        is_followed_up(
            asset_attempt_run(a, t, r, key),
            n,
            asset_from_run(a, t, r, n, key),
            |u: TapeView<'a>, how: Reaction| asset_from_run(a, u, Some(how), n + 1, key),
        ),
{
}

/// An icon is what its file holds, and is empty where there is none: where the user has none, or
/// where there is no such asset.
pub proof fn icon_is_what_its_file_holds<'a>(
    a: &'a Actor<Online>,
    t: TapeView<'a>,
    user: &'a User,
    data: Vec<u8>,
)
    ensures
        ({
            let r = icon_run(a, t, user);
            match user.icon {
                None => r.tape == t && r.out == Ok::<Seq<u8>, StopView<'a>>(Seq::empty()),
                Some(key) => {
                    let x = asset_from_run(a, t, None, 0, &key);
                    match x.out {
                        Err(_) => ends_as(r, x),
                        Ok(None) => r.tape == x.tape && r.out == Ok::<Seq<u8>, StopView<'a>>(
                            Seq::empty(),
                        ),
                        Ok(Some(file)) => is_read(x.tape, file, r, data),
                    }
                },
            }
        }),
{
    if let Some(key) = user.icon {
        let x = asset_from_run(a, t, None, 0, &key);
        if let Ok(Some(file)) = x.out {
            file_is_read(x.tape, file, data);
        }
    }
}

/// While we are offline, an icon is what its file holds, and is empty where there is none: where
/// the user has none, or where the file does not exist.
pub proof fn stored_icon_is_what_its_file_holds<'a>(
    a: &'a Actor<Offline>,
    t: TapeView<'a>,
    user: &'a User,
    data: Vec<u8>,
)
    ensures
        ({
            let r = stored_icon_run(a, t, user);
            match user.icon {
                None => r.tape == t && r.out == Ok::<Seq<u8>, StopView<'a>>(Seq::empty()),
                Some(key) => {
                    let place = a.state.user.assets;
                    let x = ask::<bool>(t, QueryView::Disk(Disk::AssetExists(place, &key)));
                    let y = ask::<Handle>(x.tape, QueryView::Disk(Disk::OpenAsset(place, &key)));
                    match (x.out, y.out) {
                        (Err(_), _) => ends_as(r, x),
                        (Ok(false), _) => r.tape == x.tape && r.out == Ok::<
                            Seq<u8>,
                            StopView<'a>,
                        >(Seq::empty()),
                        (Ok(true), Err(_)) => ends_as(r, y),
                        (Ok(true), Ok(file)) => is_read(y.tape, file, r, data),
                    }
                },
            }
        }),
{
    if let Some(key) = user.icon {
        let place = a.state.user.assets;
        let x = ask::<bool>(t, QueryView::Disk(Disk::AssetExists(place, &key)));
        let y = ask::<Handle>(x.tape, QueryView::Disk(Disk::OpenAsset(place, &key)));
        if let (Ok(true), Ok(file)) = (x.out, y.out) {
            file_is_read(y.tape, file, data);
        }
    }
}

/// Does a run end with a file being read, and with what it holds?
pub open spec fn is_read<'a>(
    t: TapeView<'a>,
    file: Handle,
    r: Run<'a, Seq<u8>>,
    data: Vec<u8>,
) -> bool {
    &&& r.out matches Ok(got) ==> (t.log[t.at as int] matches Reply::Bytes(b) && got == b@
        && hears(t, r.tape, seq![qa(QueryView::Disk(Disk::ReadAll(file)), Reply::Bytes(b))]))
    &&& answers(t, seq![Reply::Bytes(data)]) ==> r.out is Ok
}

proof fn file_is_read<'a>(t: TapeView<'a>, file: Handle, data: Vec<u8>)
    ensures
        is_read(t, file, contents_run(t, Some(file)), data),
{
    let r = contents_run(t, Some(file));
    if r.out is Ok {
        let q = QueryView::Disk(Disk::ReadAll(file));
        let x = ask::<Vec<u8>>(t, q);
        assert(said(t, r.tape) =~= seq![qa(q, Reply::Bytes(x.out->Ok_0))]);
    }
    look_ahead(t, seq![Reply::Bytes(data)]);
}

} // verus!
