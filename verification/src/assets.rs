//! Assets, such as users' icons: kept in a directory, and downloaded where they are missing.
use crate::access::{react_is_steady, react_run, weigh, weigh_is_steady, weighed};
use crate::actor::{Actor, Offline, Online};
use crate::model::{AssetKey, Complaint, Error, Handle, Place, Reaction, User};
use crate::query::{Api, ApiView, Disk, Link, Query, QueryView};
use crate::tape::{ask, done, fail, grown, halt, steady, told, told_as, Run, Stop, Tape, TapeView};
use crate::text::{address_host, host};
use vstd::prelude::*;

verus! {

/// The status of a response that carries what was asked for.
pub const OK_STATUS: u16 = 200;

/// Opens an asset, if it is there.
pub open spec fn read_asset_run<'a>(t: TapeView<'a>, place: Place, key: &'a AssetKey) -> Run<
    'a,
    Option<Handle>,
> {
    ask::<bool>(t, QueryView::Disk(Disk::AssetExists(place, key))).and_then(
        |t: TapeView<'a>, exists: bool|
            if exists {
                open_asset_run(t, place, key)
            } else {
                done(t, None)
            },
    )
}

/// Opens an asset that is there.
pub open spec fn open_asset_run<'a>(t: TapeView<'a>, place: Place, key: &'a AssetKey) -> Run<
    'a,
    Option<Handle>,
> {
    ask::<Handle>(t, QueryView::Disk(Disk::OpenAsset(place, key))).and_then(
        |t: TapeView<'a>, file: Handle| done(t, Some(file)),
    )
}

/// Saves what is being downloaded, under another name until it is complete, and opens it.
pub open spec fn save_asset_run<'a>(t: TapeView<'a>, place: Place, key: &'a AssetKey) -> Run<
    'a,
    Option<Handle>,
> {
    ask::<()>(t, QueryView::Disk(Disk::SaveDownload(place, key))).and_then(
        |t: TapeView<'a>, _x: ()|
            ask::<()>(t, QueryView::Disk(Disk::PublishDownload(place, key))).and_then(
                |t: TapeView<'a>, _x: ()| open_asset_run(t, place, key),
            ),
    )
}

/// Downloads an asset from the host that its address names, if there is anything to download.
pub open spec fn fetch_asset_run<'a>(
    t: TapeView<'a>,
    link: Link,
    place: Place,
    key: &'a AssetKey,
    url: &'a String,
) -> Run<'a, Option<Handle>> {
    match address_host(url@) {
        Some(host) => ask::<u16>(
            t,
            QueryView::Api(link, ApiView::Download { url, host }),
        ).and_then(
            |t: TapeView<'a>, status: u16|
                if status == OK_STATUS {
                    save_asset_run(t, place, key)
                } else {
                    done(t, None)
                },
        ),
        None => fail(t, Error::Message(Complaint::AssetWithoutHost)),
    }
}

/// Opens an asset, which is downloaded if it is not there.
pub open spec fn load_asset_run<'a>(
    t: TapeView<'a>,
    link: Link,
    place: Place,
    key: &'a AssetKey,
) -> Run<'a, Option<Handle>> {
    ask::<bool>(t, QueryView::Disk(Disk::AssetExists(place, key))).and_then(
        |t: TapeView<'a>, exists: bool|
            if exists {
                open_asset_run(t, place, key)
            } else {
                ask::<String>(t, QueryView::Api(link, ApiView::AssetUrl(key))).and_then(
                    |t: TapeView<'a>, url: String| fetch_asset_run(t, link, place, key, &url),
                )
            },
    )
}

/// One attempt at that.
pub open spec fn asset_attempt_run<'a>(
    a: &'a Actor<Online>,
    t: TapeView<'a>,
    r: Option<Reaction>,
    key: &'a AssetKey,
) -> Run<'a, Option<Handle>> {
    react_run(a, t, r).and_then(
        |t: TapeView<'a>, _x: ()| load_asset_run(t, a.link(), a.state.user.assets, key),
    )
}

/// Opens an asset, after `n` attempts that failed.
pub open spec fn asset_from_run<'a>(
    a: &'a Actor<Online>,
    t: TapeView<'a>,
    r: Option<Reaction>,
    n: nat,
    key: &'a AssetKey,
) -> Run<'a, Option<Handle>>
    decreases t.log.len() - t.at,
{
    let x = weigh(asset_attempt_run(a, t, r, key), n);
    match x.out {
        Ok(Ok(file)) => done(x.tape, file),
        Ok(Err(next)) => {
            proof {
                asset_attempt_is_steady(a, t, t, r, key);
                let y = asset_attempt_run(a, t, r, key);
                weigh_is_steady(t, t, y, y, n);
            }
            asset_from_run(a, x.tape, Some(next), n + 1, key)
        },
        Err(s) => halt(x.tape, s),
    }
}

/// Reads a file, if there is one.
pub open spec fn contents_run<'a>(t: TapeView<'a>, file: Option<Handle>) -> Run<'a, Seq<u8>> {
    match file {
        Some(file) => ask::<Vec<u8>>(t, QueryView::Disk(Disk::ReadAll(file))).and_then(
            |t: TapeView<'a>, data: Vec<u8>| done(t, data@),
        ),
        None => done(t, Seq::empty()),
    }
}

/// Reads a user's icon, if there is one and it is there.
pub open spec fn stored_icon_run<'a>(a: &'a Actor<Offline>, t: TapeView<'a>, user: &'a User) -> Run<
    'a,
    Seq<u8>,
> {
    match &user.icon {
        Some(key) => read_asset_run(t, a.state.user.assets, key).and_then(
            |t: TapeView<'a>, file: Option<Handle>| contents_run(t, file),
        ),
        None => done(t, Seq::empty()),
    }
}

/// Reads a user's icon, if there is one, which is downloaded if it is not there.
pub open spec fn icon_run<'a>(a: &'a Actor<Online>, t: TapeView<'a>, user: &'a User) -> Run<
    'a,
    Seq<u8>,
> {
    match &user.icon {
        Some(key) => asset_from_run(a, t, None, 0, key).and_then(
            |t: TapeView<'a>, file: Option<Handle>| contents_run(t, file),
        ),
        None => done(t, Seq::empty()),
    }
}

/// [`stored_icon_run`] is steady.
pub proof fn stored_icon_is_steady<'a>(
    a: &'a Actor<Offline>,
    t: TapeView<'a>,
    u: TapeView<'a>,
    user: &'a User,
)
    requires
        grown(t, u),
    ensures
        steady(t, u, stored_icon_run(a, t, user), stored_icon_run(a, u, user)),
{
}

/// [`fetch_asset_run`] is steady.
pub proof fn fetch_asset_is_steady<'a>(
    t: TapeView<'a>,
    u: TapeView<'a>,
    link: Link,
    place: Place,
    key: &'a AssetKey,
    url: &'a String,
)
    requires
        grown(t, u),
    ensures
        steady(t, u, fetch_asset_run(t, link, place, key, url), fetch_asset_run(
            u,
            link,
            place,
            key,
            url,
        )),
{
}

/// [`load_asset_run`] is steady.
pub proof fn load_asset_is_steady<'a>(
    t: TapeView<'a>,
    u: TapeView<'a>,
    link: Link,
    place: Place,
    key: &'a AssetKey,
)
    requires
        grown(t, u),
    ensures
        steady(t, u, load_asset_run(t, link, place, key), load_asset_run(u, link, place, key)),
{
    let q1 = QueryView::Disk(Disk::AssetExists(place, key));
    let q2 = QueryView::Api(link, ApiView::AssetUrl(key));
    let x = ask::<bool>(t, q1);
    let y = ask::<bool>(u, q1);
    let x2 = ask::<String>(x.tape, q2);
    let y2 = ask::<String>(y.tape, q2);
    if let Ok(url) = y2.out {
        fetch_asset_is_steady(y2.tape, y2.tape, link, place, key, &url);
        if x.out is Ok && x2.out is Ok {
            fetch_asset_is_steady(x2.tape, y2.tape, link, place, key, &url);
        }
    }
}

/// [`asset_attempt_run`] is steady.
pub proof fn asset_attempt_is_steady<'a>(
    a: &'a Actor<Online>,
    t: TapeView<'a>,
    u: TapeView<'a>,
    r: Option<Reaction>,
    key: &'a AssetKey,
)
    requires
        grown(t, u),
    ensures
        steady(t, u, asset_attempt_run(a, t, r, key), asset_attempt_run(a, u, r, key)),
{
    react_is_steady(a, t, u, r);
    let x = react_run(a, t, r);
    let y = react_run(a, u, r);
    load_asset_is_steady(y.tape, y.tape, a.link(), a.state.user.assets, key);
    if x.out is Ok {
        load_asset_is_steady(x.tape, y.tape, a.link(), a.state.user.assets, key);
    }
}

/// [`asset_from_run`] is steady.
pub proof fn asset_from_is_steady<'a>(
    a: &'a Actor<Online>,
    t: TapeView<'a>,
    u: TapeView<'a>,
    r: Option<Reaction>,
    n: nat,
    key: &'a AssetKey,
)
    requires
        grown(t, u),
    ensures
        steady(t, u, asset_from_run(a, t, r, n, key), asset_from_run(a, u, r, n, key)),
    decreases u.log.len() - u.at,
{
    asset_attempt_is_steady(a, t, u, r, key);
    let x0 = asset_attempt_run(a, t, r, key);
    let y0 = asset_attempt_run(a, u, r, key);
    weigh_is_steady(t, u, x0, y0, n);
    weigh_is_steady(u, u, y0, y0, n);
    let x = weigh(x0, n);
    let y = weigh(y0, n);
    if let Ok(Err(next)) = y.out {
        if x.out is Ok {
            asset_from_is_steady(a, x.tape, y.tape, Some(next), n + 1, key);
        } else {
            asset_from_is_steady(a, y.tape, y.tape, Some(next), n + 1, key);
        }
    }
}

/// [`icon_run`] is steady.
pub proof fn icon_is_steady<'a>(
    a: &'a Actor<Online>,
    t: TapeView<'a>,
    u: TapeView<'a>,
    user: &'a User,
)
    requires
        grown(t, u),
    ensures
        steady(t, u, icon_run(a, t, user), icon_run(a, u, user)),
{
    if let Some(key) = &user.icon {
        asset_from_is_steady(a, t, u, None, 0, key);
    }
}

fn read_asset<'a>(tape: &mut Tape<'a>, place: &Place, key: &'a AssetKey) -> (r: Result<
    Option<Handle>,
    Stop<'a>,
>)
    ensures
        told(final(tape)@, r) == read_asset_run(old(tape)@, *place, key),
{
    let exists: &'a bool = tape.ask(Query::Disk(Disk::AssetExists(place.clone(), key)))?;
    if *exists {
        let file: &'a Handle = tape.ask(Query::Disk(Disk::OpenAsset(place.clone(), key)))?;
        Ok(Some(*file))
    } else {
        Ok(None)
    }
}

fn load_asset<'a>(tape: &mut Tape<'a>, link: Link, place: &Place, key: &'a AssetKey) -> (r: Result<
    Option<Handle>,
    Stop<'a>,
>)
    ensures
        told(final(tape)@, r) == load_asset_run(old(tape)@, link, *place, key),
{
    let exists: &'a bool = tape.ask(Query::Disk(Disk::AssetExists(place.clone(), key)))?;
    if *exists {
        let file: &'a Handle = tape.ask(Query::Disk(Disk::OpenAsset(place.clone(), key)))?;
        return Ok(Some(*file));
    }
    let url: &'a String = tape.ask(Query::Api(link, Api::AssetUrl(key)))?;
    match host(url.as_str()) {
        Some(host) => {
            let status: &'a u16 = tape.ask(Query::Api(link, Api::Download { url, host }))?;
            if *status != OK_STATUS {
                return Ok(None);
            }
            tape.ask::<()>(Query::Disk(Disk::SaveDownload(place.clone(), key)))?;
            tape.ask::<()>(Query::Disk(Disk::PublishDownload(place.clone(), key)))?;
            let file: &'a Handle = tape.ask(Query::Disk(Disk::OpenAsset(place.clone(), key)))?;
            Ok(Some(*file))
        },
        None => Err(Stop::Fail(Error::Message(Complaint::AssetWithoutHost))),
    }
}

fn contents<'a>(tape: &mut Tape<'a>, file: Option<Handle>) -> (r: Result<Vec<u8>, Stop<'a>>)
    ensures
        told_as(final(tape)@, r, |x: Vec<u8>| x@) == contents_run(old(tape)@, file),
{
    match file {
        Some(file) => {
            let data: &'a Vec<u8> = tape.ask(Query::Disk(Disk::ReadAll(file)))?;
            let copy = data.clone();
            assert(copy@ =~= data@);
            Ok(copy)
        },
        None => Ok(Vec::new()),
    }
}

impl Actor<Offline> {
    /// Reads a user's icon from the directory of assets. It is empty if there is none.
    pub fn load_user_icon<'a>(&'a self, tape: &mut Tape<'a>, user: &'a User) -> (r: Result<
        Vec<u8>,
        Stop<'a>,
    >)
        ensures
            told_as(final(tape)@, r, |x: Vec<u8>| x@) == stored_icon_run(self, old(tape)@, user),
    {
        match &user.icon {
            Some(key) => {
                let file = read_asset(tape, &self.state.user.assets, key)?;
                contents(tape, file)
            },
            None => Ok(Vec::new()),
        }
    }
}

impl Actor<Online> {
    fn asset<'a>(&'a self, tape: &mut Tape<'a>, key: &'a AssetKey) -> (res: Result<
        Option<Handle>,
        Stop<'a>,
    >)
        ensures
            told(final(tape)@, res) == asset_from_run(self, old(tape)@, None, 0, key),
    {
        let mut r: Option<Reaction> = None;
        let mut n: u64 = 0;
        loop
            invariant
                n <= tape@.at,
                asset_from_run(self, tape@, r, n as nat, key) == asset_from_run(
                    self,
                    old(tape)@,
                    None,
                    0,
                    key,
                ),
            decreases tape@.log.len() - tape@.at,
        {
            let ghost before = tape@;
            proof {
                asset_attempt_is_steady(self, tape@, tape@, r, key);
                let x = asset_attempt_run(self, tape@, r, key);
                weigh_is_steady(tape@, tape@, x, x, n as nat);
            }
            let x: Result<Option<Handle>, Stop<'a>> = match self.react(tape, r) {
                Ok(()) => load_asset(tape, self.get_link(), &self.state.user.assets, key),
                Err(s) => Err(s),
            };
            assert(told(tape@, x) == asset_attempt_run(self, before, r, key));
            match weighed(tape, x, n)? {
                Ok(file) => {
                    return Ok(file);
                },
                Err(next) => {
                    proof {
                        tape.is_short();
                    }
                    r = Some(next);
                    n = n + 1;
                },
            }
        }
    }

    /// Reads a user's icon, which is downloaded if it is not in the directory of assets. It is empty
    /// if there is none.
    pub fn load_user_icon<'a>(&'a self, tape: &mut Tape<'a>, user: &'a User) -> (r: Result<
        Vec<u8>,
        Stop<'a>,
    >)
        ensures
            told_as(final(tape)@, r, |x: Vec<u8>| x@) == icon_run(self, old(tape)@, user),
    {
        match &user.icon {
            Some(key) => {
                let file = self.asset(tape, key)?;
                contents(tape, file)
            },
            None => Ok(Vec::new()),
        }
    }
}

} // verus!
