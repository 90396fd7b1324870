//! Becoming a user: registering, logging in, and loading a stored profile.
use crate::access::{connect_again_is_steady, connect_again_run, weigh, weigh_is_steady, weighed};
use crate::actor::{Actor, Connected, Device, Init, Online, UserData};
use crate::model::{
    ApiClient, ApiUser, Client, ClientId, Complaint, Config, Credentials, Error, Gap, Handle, Leaf,
    Place, User, UserId, Var,
};
use crate::query::{
    Api, ApiView, ClientClass, ClientType, Convert, Crypt, CryptView, Db, DbView, Enrolment,
    EnrolmentView, Query, QueryView,
};
use crate::storage;
use crate::storage::{
    access_token, access_token_run, cookie_run, mk_assets_dir_is_steady, mk_assets_dir_run,
    my_client_id, my_client_id_run, open_cryptobox_is_steady, open_cryptobox_run,
    open_database_is_steady, open_database_run, place_of, set_access_token, set_cookie,
    set_my_client_id, set_var_run,
};
use crate::tape::{
    ask, begins_with, done, fail, grown, halt, steady, told, told_as, Payload, Reply, Run, Stop,
    StopView, Tape, TapeView,
};
use crate::text::Cookie;
use vstd::prelude::*;

verus! {

/// The number of prekeys that a new device is registered with.
pub const PREKEYS: u16 = 200;

/// The id of the prekey of last resort.
pub const LAST_PREKEY: u16 = 65535;

// ---- Calls without shared credentials -------------------------------------------------------

/// One attempt at a call. Any attempt but the first begins with a new connection.
pub open spec fn entry_attempt_run<'a, T: Payload>(
    a: &'a Actor<Connected>,
    t: TapeView<'a>,
    again: bool,
    q: ApiView<'a>,
) -> Run<'a, T> {
    if again {
        ask::<()>(t, QueryView::Api(a.link(), ApiView::Reconnect)).and_then(
            |t: TapeView<'a>, _x: ()| ask::<T>(t, QueryView::Api(a.link(), q)),
        )
    } else {
        ask::<T>(t, QueryView::Api(a.link(), q))
    }
}

/// Calls the back-end, after `n` attempts that failed, again and again as long as the retry policy
/// asks for another attempt.
pub open spec fn entry_from_run<'a, T: Payload>(
    a: &'a Actor<Connected>,
    t: TapeView<'a>,
    n: nat,
    q: ApiView<'a>,
) -> Run<'a, T>
    decreases t.log.len() - t.at,
{
    let x = weigh(entry_attempt_run::<T>(a, t, n > 0, q), n);
    match x.out {
        Ok(Ok(v)) => done(x.tape, v),
        Ok(Err(_)) => entry_from_run(a, x.tape, n + 1, q),
        Err(s) => halt(x.tape, s),
    }
}

/// Calls the back-end until a call succeeds or the retry policy gives up.
pub open spec fn entry_call_run<'a, T: Payload>(
    a: &'a Actor<Connected>,
    t: TapeView<'a>,
    q: ApiView<'a>,
) -> Run<'a, T> {
    entry_from_run(a, t, 0, q)
}

/// One attempt at finding our own device at the back-end.
pub open spec fn self_client_attempt_run<'a>(
    a: &'a Actor<Connected>,
    t: TapeView<'a>,
    again: bool,
    q: ApiView<'a>,
) -> Run<'a, ApiClient> {
    entry_attempt_run::<Option<ApiClient>>(a, t, again, q).and_then(
        |t: TapeView<'a>, found: Option<ApiClient>|
            match found {
                Some(c) => done(t, c),
                None => fail(t, Error::Message(Complaint::ClientNotFound)),
            },
    )
}

/// Finds our own device at the back-end, after `n` attempts that failed. That there is none counts
/// as a failed attempt.
pub open spec fn self_client_from_run<'a>(
    a: &'a Actor<Connected>,
    t: TapeView<'a>,
    n: nat,
    q: ApiView<'a>,
) -> Run<'a, ApiClient>
    decreases t.log.len() - t.at,
{
    let x = weigh(self_client_attempt_run(a, t, n > 0, q), n);
    match x.out {
        Ok(Ok(v)) => done(x.tape, v),
        Ok(Err(_)) => self_client_from_run(a, x.tape, n + 1, q),
        Err(s) => halt(x.tape, s),
    }
}

/// Finds our own device at the back-end.
pub open spec fn self_client_run<'a>(
    a: &'a Actor<Connected>,
    t: TapeView<'a>,
    id: Seq<char>,
    creds: &'a Credentials,
) -> Run<'a, ApiClient> {
    self_client_from_run(a, t, 0, ApiView::SelfClient(id, creds))
}

/// [`entry_attempt_run`] is steady.
pub proof fn entry_attempt_is_steady<'a, T: Payload>(
    a: &'a Actor<Connected>,
    t: TapeView<'a>,
    u: TapeView<'a>,
    again: bool,
    q: ApiView<'a>,
)
    requires
        grown(t, u),
    ensures
        steady(t, u, entry_attempt_run::<T>(a, t, again, q), entry_attempt_run::<T>(a, u, again, q)),
{
}

/// [`entry_from_run`] is steady.
pub proof fn entry_from_is_steady<'a, T: Payload>(
    a: &'a Actor<Connected>,
    t: TapeView<'a>,
    u: TapeView<'a>,
    n: nat,
    q: ApiView<'a>,
)
    requires
        grown(t, u),
    ensures
        steady(t, u, entry_from_run::<T>(a, t, n, q), entry_from_run::<T>(a, u, n, q)),
    decreases u.log.len() - u.at,
{
    entry_attempt_is_steady::<T>(a, t, u, n > 0, q);
    let x0 = entry_attempt_run::<T>(a, t, n > 0, q);
    let y0 = entry_attempt_run::<T>(a, u, n > 0, q);
    weigh_is_steady(t, u, x0, y0, n);
    let x = weigh(x0, n);
    let y = weigh(y0, n);
    if let Ok(Err(_)) = y.out {
        if x.out is Ok {
            entry_from_is_steady::<T>(a, x.tape, y.tape, n + 1, q);
        } else {
            entry_from_is_steady::<T>(a, y.tape, y.tape, n + 1, q);
        }
    }
}

/// [`entry_call_run`] is steady.
pub proof fn entry_call_is_steady<'a, T: Payload>(
    a: &'a Actor<Connected>,
    t: TapeView<'a>,
    u: TapeView<'a>,
    q: ApiView<'a>,
)
    requires
        grown(t, u),
    ensures
        steady(t, u, entry_call_run::<T>(a, t, q), entry_call_run::<T>(a, u, q)),
{
    entry_from_is_steady::<T>(a, t, u, 0, q);
}

/// [`self_client_attempt_run`] is steady.
pub proof fn self_client_attempt_is_steady<'a>(
    a: &'a Actor<Connected>,
    t: TapeView<'a>,
    u: TapeView<'a>,
    again: bool,
    q: ApiView<'a>,
)
    requires
        grown(t, u),
    ensures
        steady(
            t,
            u,
            self_client_attempt_run(a, t, again, q),
            self_client_attempt_run(a, u, again, q),
        ),
{
    entry_attempt_is_steady::<Option<ApiClient>>(a, t, u, again, q);
}

/// [`self_client_from_run`] is steady.
pub proof fn self_client_from_is_steady<'a>(
    a: &'a Actor<Connected>,
    t: TapeView<'a>,
    u: TapeView<'a>,
    n: nat,
    q: ApiView<'a>,
)
    requires
        grown(t, u),
    ensures
        steady(t, u, self_client_from_run(a, t, n, q), self_client_from_run(a, u, n, q)),
    decreases u.log.len() - u.at,
{
    self_client_attempt_is_steady(a, t, u, n > 0, q);
    let x0 = self_client_attempt_run(a, t, n > 0, q);
    let y0 = self_client_attempt_run(a, u, n > 0, q);
    weigh_is_steady(t, u, x0, y0, n);
    let x = weigh(x0, n);
    let y = weigh(y0, n);
    if let Ok(Err(_)) = y.out {
        if x.out is Ok {
            self_client_from_is_steady(a, x.tape, y.tape, n + 1, q);
        } else {
            self_client_from_is_steady(a, y.tape, y.tape, n + 1, q);
        }
    }
}

/// [`self_client_run`] is steady.
pub proof fn self_client_is_steady<'a>(
    a: &'a Actor<Connected>,
    t: TapeView<'a>,
    u: TapeView<'a>,
    id: Seq<char>,
    creds: &'a Credentials,
)
    requires
        grown(t, u),
    ensures
        steady(t, u, self_client_run(a, t, id, creds), self_client_run(a, u, id, creds)),
{
    self_client_from_is_steady(a, t, u, 0, ApiView::SelfClient(id, creds));
}

impl Actor<Connected> {
    fn entry_attempt<'a, T: Payload>(
        &'a self,
        tape: &mut Tape<'a>,
        again: bool,
        q: Api<'a>,
    ) -> (r: Result<&'a T, Stop<'a>>)
        ensures
            told_as(final(tape)@, r, |x: &'a T| *x) == entry_attempt_run::<T>(
                self,
                old(tape)@,
                again,
                q@,
            ),
    {
        if again {
            tape.ask::<()>(Query::Api(self.get_link(), Api::Reconnect))?;
        }
        tape.ask(Query::Api(self.get_link(), q))
    }

    fn entry_call<'a, T: Payload>(&'a self, tape: &mut Tape<'a>, q: Api<'a>) -> (r: Result<
        &'a T,
        Stop<'a>,
    >)
        ensures
            told_as(final(tape)@, r, |x: &'a T| *x) == entry_call_run::<T>(self, old(tape)@, q@),
    {
        let mut n: u64 = 0;
        loop
            invariant
                n <= tape@.at,
                entry_from_run::<T>(self, tape@, n as nat, q@) == entry_call_run::<T>(
                    self,
                    old(tape)@,
                    q@,
                ),
            decreases tape@.log.len() - tape@.at,
        {
            proof {
                entry_attempt_is_steady::<T>(self, tape@, tape@, n > 0, q@);
                let x = entry_attempt_run::<T>(self, tape@, n > 0, q@);
                weigh_is_steady(tape@, tape@, x, x, n as nat);
            }
            let x: Result<&'a T, Stop<'a>> = self.entry_attempt(tape, n > 0, q.clone());
            match weighed(tape, x, n)? {
                Ok(v) => {
                    return Ok(v);
                },
                Err(_) => {
                    proof {
                        tape.is_short();
                    }
                    n = n + 1;
                },
            }
        }
    }

    // Finds our own user at the back-end.
    fn lookup_self<'a>(&'a self, tape: &mut Tape<'a>, creds: &'a Credentials) -> (r: Result<
        &'a ApiUser,
        Stop<'a>,
    >)
        ensures
            told_as(final(tape)@, r, |x: &'a ApiUser| *x) == entry_call_run::<ApiUser>(
                self,
                old(tape)@,
                ApiView::SelfUser(creds),
            ),
    {
        self.entry_call(tape, Api::SelfUser(creds))
    }

    // Finds our own device at the back-end.
    fn lookup_self_client<'a>(
        &'a self,
        tape: &mut Tape<'a>,
        id: &ClientId,
        creds: &'a Credentials,
    ) -> (r: Result<&'a ApiClient, Stop<'a>>)
        ensures
            told_as(final(tape)@, r, |x: &'a ApiClient| *x) == self_client_run(
                self,
                old(tape)@,
                id@,
                creds,
            ),
    {
        let ghost q = ApiView::SelfClient(id@, creds);
        let mut n: u64 = 0;
        loop
            invariant
                n <= tape@.at,
                q == ApiView::SelfClient(id@, creds),
                self_client_from_run(self, tape@, n as nat, q) == self_client_run(
                    self,
                    old(tape)@,
                    id@,
                    creds,
                ),
            decreases tape@.log.len() - tape@.at,
        {
            proof {
                self_client_attempt_is_steady(self, tape@, tape@, n > 0, q);
                let x = self_client_attempt_run(self, tape@, n > 0, q);
                weigh_is_steady(tape@, tape@, x, x, n as nat);
            }
            let ghost before = tape@;
            let x: Result<&'a Option<ApiClient>, Stop<'a>> = self.entry_attempt(
                tape,
                n > 0,
                Api::SelfClient(id.clone(), creds),
            );
            let x: Result<&'a ApiClient, Stop<'a>> = match x {
                Ok(Some(c)) => Ok(c),
                Ok(None) => Err(Stop::Fail(Error::Message(Complaint::ClientNotFound))),
                Err(s) => Err(s),
            };
            assert(told_as(tape@, x, |x: &'a ApiClient| *x) == self_client_attempt_run(
                self,
                before,
                n > 0,
                q,
            ));
            match weighed(tape, x, n)? {
                Ok(v) => {
                    return Ok(v);
                },
                Err(_) => {
                    proof {
                        tape.is_short();
                    }
                    n = n + 1;
                },
            }
        }
    }

    /// Registers a new user with the back-end.
    pub fn register_user<'a>(&'a self, tape: &mut Tape<'a>, params: Handle) -> (r: Result<
        (),
        Stop<'a>,
    >)
        ensures
            told(final(tape)@, r) == entry_call_run::<()>(
                self,
                old(tape)@,
                ApiView::RegisterUser(params),
            ),
    {
        self.entry_call::<()>(tape, Api::RegisterUser(params))?;
        Ok(())
    }
}

// ---- Registering a device -------------------------------------------------------------------

/// Makes prekeys with the ids from `i` on, after those that were made already.
pub open spec fn prekeys_run<'a>(t: TapeView<'a>, cbox: Handle, i: int, made: Seq<Handle>) -> Run<
    'a,
    Seq<Handle>,
>
    decreases PREKEYS - i,
{
    if i >= PREKEYS {
        done(t, made)
    } else {
        ask::<Handle>(t, QueryView::Crypt(cbox, CryptView::NewPrekey(i as u16))).and_then(
            |t: TapeView<'a>, key: Handle| prekeys_run(t, cbox, i + 1, made.push(key)),
        )
    }
}

/// What a device is registered with: as a permanent desktop device without a label.
pub open spec fn enrolment(
    prekeys: Seq<Handle>,
    last_prekey: Handle,
    sig_keys: Handle,
    fingerprint: Seq<char>,
    login: Handle,
) -> EnrolmentView {
    EnrolmentView {
        prekeys,
        last_prekey,
        sig_keys,
        ctype: ClientType::Permanent,
        class: ClientClass::Desktop,
        label: None,
        cookie_label: "Coax-"@ + fingerprint,
        model: "Coax"@,
        login,
    }
}

/// Puts together what a device is registered with.
pub open spec fn enrolment_run<'a>(t: TapeView<'a>, cbox: Handle, login: Handle) -> Run<
    'a,
    EnrolmentView,
> {
    prekeys_run(t, cbox, 0, Seq::empty()).and_then(
        |t: TapeView<'a>, prekeys: Seq<Handle>|
            ask::<Handle>(t, QueryView::Crypt(cbox, CryptView::NewPrekey(LAST_PREKEY))).and_then(
                |t: TapeView<'a>, last: Handle|
                    ask::<Handle>(t, QueryView::NewSignalingKeys).and_then(
                        |t: TapeView<'a>, sig: Handle|
                            ask::<String>(t, QueryView::Crypt(cbox, CryptView::Fingerprint)).and_then(
                                |t: TapeView<'a>, fingerprint: String|
                                    done(t, enrolment(prekeys, last, sig, fingerprint@, login)),
                            ),
                    ),
            ),
    )
}

/// Registers a new device.
pub open spec fn register_client_run<'a>(
    a: &'a Actor<Connected>,
    t: TapeView<'a>,
    cbox: Handle,
    creds: &'a Credentials,
    login: Handle,
) -> Run<'a, ApiClient> {
    enrolment_run(t, cbox, login).and_then(
        |t: TapeView<'a>, e: EnrolmentView|
            entry_call_run::<ApiClient>(a, t, ApiView::RegisterClient(e, creds)),
    )
}

/// [`prekeys_run`] is steady.
pub proof fn prekeys_is_steady<'a>(
    t: TapeView<'a>,
    u: TapeView<'a>,
    cbox: Handle,
    i: int,
    made: Seq<Handle>,
)
    requires
        grown(t, u),
    ensures
        steady(t, u, prekeys_run(t, cbox, i, made), prekeys_run(u, cbox, i, made)),
    decreases PREKEYS - i,
{
    if i < PREKEYS {
        let q = QueryView::Crypt(cbox, CryptView::NewPrekey(i as u16));
        let x = ask::<Handle>(t, q);
        let y = ask::<Handle>(u, q);
        if let Ok(key) = y.out {
            prekeys_is_steady(y.tape, y.tape, cbox, i + 1, made.push(key));
            if x.out is Ok {
                prekeys_is_steady(x.tape, y.tape, cbox, i + 1, made.push(key));
            }
        }
    }
}

/// [`enrolment_run`] is steady.
pub proof fn enrolment_is_steady<'a>(
    t: TapeView<'a>,
    u: TapeView<'a>,
    cbox: Handle,
    login: Handle,
)
    requires
        grown(t, u),
    ensures
        steady(t, u, enrolment_run(t, cbox, login), enrolment_run(u, cbox, login)),
{
    prekeys_is_steady(t, u, cbox, 0, Seq::empty());
}

/// [`register_client_run`] is steady.
pub proof fn register_client_is_steady<'a>(
    a: &'a Actor<Connected>,
    t: TapeView<'a>,
    u: TapeView<'a>,
    cbox: Handle,
    creds: &'a Credentials,
    login: Handle,
)
    requires
        grown(t, u),
    ensures
        steady(
            t,
            u,
            register_client_run(a, t, cbox, creds, login),
            register_client_run(a, u, cbox, creds, login),
        ),
{
    enrolment_is_steady(t, u, cbox, login);
    let x = enrolment_run(t, cbox, login);
    let y = enrolment_run(u, cbox, login);
    if let Ok(e) = y.out {
        let q = ApiView::RegisterClient(e, creds);
        entry_call_is_steady::<ApiClient>(a, y.tape, y.tape, q);
        if x.out is Ok {
            entry_call_is_steady::<ApiClient>(a, x.tape, y.tape, q);
        }
    }
}

/// Puts together what a device is registered with.
fn enrol<'a>(tape: &mut Tape<'a>, cbox: Handle, login: Handle) -> (r: Result<Enrolment, Stop<'a>>)
    ensures
        told_as(final(tape)@, r, |x: Enrolment| x@) == enrolment_run(old(tape)@, cbox, login),
{
    let mut prekeys: Vec<Handle> = Vec::new();
    let mut i: u16 = 0;
    while i < PREKEYS
        invariant
            i <= PREKEYS,
            prekeys_run(tape@, cbox, i as int, prekeys@) == prekeys_run(
                old(tape)@,
                cbox,
                0,
                Seq::empty(),
            ),
        decreases PREKEYS - i,
    {
        let key: &'a Handle = tape.ask(Query::Crypt(cbox, Crypt::NewPrekey(i)))?;
        prekeys.push(*key);
        i = i + 1;
    }
    let last: &'a Handle = tape.ask(Query::Crypt(cbox, Crypt::NewPrekey(LAST_PREKEY)))?;
    let sig_keys: &'a Handle = tape.ask(Query::NewSignalingKeys)?;
    let fingerprint: &'a String = tape.ask(Query::Crypt(cbox, Crypt::Fingerprint))?;
    Ok(
        Enrolment {
            prekeys,
            last_prekey: *last,
            sig_keys: *sig_keys,
            ctype: ClientType::Permanent,
            class: ClientClass::Desktop,
            label: None,
            cookie_label: "Coax-".to_owned().concat(fingerprint.as_str()),
            model: "Coax".to_owned(),
            login,
        },
    )
}

impl Actor<Connected> {
    // Registers a new device with the back-end.
    fn register_client<'a>(
        &'a self,
        tape: &mut Tape<'a>,
        cbox: Handle,
        creds: &'a Credentials,
        login: Handle,
    ) -> (r: Result<&'a ApiClient, Stop<'a>>)
        ensures
            told_as(final(tape)@, r, |x: &'a ApiClient| *x) == register_client_run(
                self,
                old(tape)@,
                cbox,
                creds,
                login,
            ),
    {
        let e = enrol(tape, cbox, login)?;
        self.entry_call(tape, Api::RegisterClient(e, creds))
    }
}

// ---- Logging in -----------------------------------------------------------------------------

/// Stores what a login yielded.
pub open spec fn keep_login_run<'a>(
    t: TapeView<'a>,
    db: Handle,
    creds: &'a Credentials,
    user: &'a ApiUser,
) -> Run<'a, ()> {
    set_var_run(t, db, Var::AccessToken, creds.token@).and_then(
        |t: TapeView<'a>, _x: ()|
            set_var_run(t, db, Var::UserCookie, creds.cookie@).and_then(
                |t: TapeView<'a>, _x: ()|
                    ask::<()>(t, QueryView::Db(db, DbView::InsertUser(user))),
            ),
    )
}

/// Stores a device of ours.
pub open spec fn keep_client_run<'a>(
    t: TapeView<'a>,
    db: Handle,
    user: UserId,
    c: &'a ApiClient,
) -> Run<'a, Client> {
    ask::<()>(t, QueryView::Db(db, DbView::InsertClient(user, c))).and_then(
        |t: TapeView<'a>, _x: ()| ask::<Client>(t, QueryView::Convert(Convert::Client(user, c))),
    )
}

/// Finds our device by its id: the stored one if there is one, else the back-end's.
pub open spec fn known_device_run<'a>(
    a: &'a Actor<Connected>,
    t: TapeView<'a>,
    db: Handle,
    user: UserId,
    id: Seq<char>,
    creds: &'a Credentials,
) -> Run<'a, Client> {
    ask::<Option<Client>>(t, QueryView::Db(db, DbView::Client(user, id))).and_then(
        |t: TapeView<'a>, found: Option<Client>|
            match found {
                Some(c) => done(t, c),
                None => self_client_run(a, t, id, creds).and_then(
                    |t: TapeView<'a>, c: ApiClient| keep_client_run(t, db, user, &c),
                ),
            },
    )
}

/// Registers a new device, whose id is stored first.
pub open spec fn new_device_run<'a>(
    a: &'a Actor<Connected>,
    t: TapeView<'a>,
    db: Handle,
    cbox: Handle,
    user: UserId,
    creds: &'a Credentials,
    login: Handle,
) -> Run<'a, Client> {
    register_client_run(a, t, cbox, creds, login).and_then(
        |t: TapeView<'a>, c: ApiClient|
            set_var_run(t, db, Var::MyClientId, c.id@).and_then(
                |t: TapeView<'a>, _x: ()| keep_client_run(t, db, user, &c),
            ),
    )
}

/// The device that we act as: the one whose id is stored, or a fresh one if none is.
pub open spec fn own_device_run<'a>(
    a: &'a Actor<Connected>,
    t: TapeView<'a>,
    db: Handle,
    cbox: Handle,
    user: UserId,
    creds: &'a Credentials,
    login: Handle,
) -> Run<'a, Device> {
    my_client_id_run(t, db).and_then(
        |t: TapeView<'a>, id: Option<Seq<char>>|
            match id {
                Some(id) => known_device_run(a, t, db, user, id, creds).and_then(
                    |t: TapeView<'a>, client: Client|
                        done(t, Device { fresh: false, client, cbox }),
                ),
                None => new_device_run(a, t, db, cbox, user, creds, login).and_then(
                    |t: TapeView<'a>, client: Client| done(t, Device { fresh: true, client, cbox }),
                ),
            },
    )
}

/// Opens what a user has on disk.
pub open spec fn open_all_run<'a>(c: Config, t: TapeView<'a>, user: UserId) -> Run<
    'a,
    (Handle, Handle, Place),
> {
    open_database_run(c, t, user).and_then(
        |t: TapeView<'a>, dbase: Handle|
            open_cryptobox_run(c, t, user).and_then(
                |t: TapeView<'a>, cbox: Handle|
                    mk_assets_dir_run(c, t, user).and_then(
                        |t: TapeView<'a>, assets: Place| done(t, (dbase, cbox, assets)),
                    ),
            ),
    )
}

/// Finds the device that we act as, and puts together the user's data.
pub open spec fn equip_run<'a>(
    a: &'a Actor<Connected>,
    t: TapeView<'a>,
    creds: &'a Credentials,
    user: &'a ApiUser,
    login: Handle,
    opened: (Handle, Handle, Place),
) -> Run<'a, UserData> {
    own_device_run(a, t, opened.0, opened.1, user.id, creds, login).and_then(
        |t: TapeView<'a>, device: Device|
            hold_login_run(t, creds, user, opened.0, device, opened.2),
    )
}

/// Stores what a login yielded, and goes on with the device.
pub open spec fn establish_run<'a>(
    a: &'a Actor<Connected>,
    t: TapeView<'a>,
    creds: &'a Credentials,
    user: &'a ApiUser,
    login: Handle,
    opened: (Handle, Handle, Place),
) -> Run<'a, UserData> {
    keep_login_run(t, opened.0, creds, user).and_then(
        |t: TapeView<'a>, _x: ()| equip_run(a, t, creds, user, login, opened),
    )
}

/// Takes in a user who has logged in.
pub open spec fn settle_run<'a>(
    a: &'a Actor<Connected>,
    t: TapeView<'a>,
    creds: &'a Credentials,
    user: &'a ApiUser,
    login: Handle,
) -> Run<'a, UserData> {
    open_all_run(a.config, t, user.id).and_then(
        |t: TapeView<'a>, opened: (Handle, Handle, Place)|
            establish_run(a, t, creds, user, login, opened),
    )
}

/// Puts together the data of a user who has logged in.
pub open spec fn hold_login_run<'a>(
    t: TapeView<'a>,
    creds: &'a Credentials,
    user: &'a ApiUser,
    dbase: Handle,
    device: Device,
    assets: Place,
) -> Run<'a, UserData> {
    ask::<User>(t, QueryView::Convert(Convert::User(user))).and_then(
        |t: TapeView<'a>, user: User|
            ask::<Handle>(t, QueryView::HoldFresh(creds)).and_then(
                |t: TapeView<'a>, creds: Handle|
                    done(t, UserData { user, dbase, creds, device, assets }),
            ),
    )
}

/// Logs in an existing user.
pub open spec fn login_run<'a>(a: &'a Actor<Connected>, t: TapeView<'a>, login: Handle) -> Run<
    'a,
    UserData,
> {
    entry_call_run::<Credentials>(a, t, ApiView::Login(login)).and_then(
        |t: TapeView<'a>, creds: Credentials|
            entry_call_run::<ApiUser>(a, t, ApiView::SelfUser(&creds)).and_then(
                |t: TapeView<'a>, user: ApiUser| settle_run(a, t, &creds, &user, login),
            ),
    )
}

/// [`known_device_run`] is steady.
pub proof fn known_device_is_steady<'a>(
    a: &'a Actor<Connected>,
    t: TapeView<'a>,
    u: TapeView<'a>,
    db: Handle,
    user: UserId,
    id: Seq<char>,
    creds: &'a Credentials,
)
    requires
        grown(t, u),
    ensures
        steady(
            t,
            u,
            known_device_run(a, t, db, user, id, creds),
            known_device_run(a, u, db, user, id, creds),
        ),
{
    let q = QueryView::Db(db, DbView::Client(user, id));
    let x = ask::<Option<Client>>(t, q);
    let y = ask::<Option<Client>>(u, q);
    self_client_is_steady(a, y.tape, y.tape, id, creds);
    if x.out is Ok {
        self_client_is_steady(a, x.tape, y.tape, id, creds);
    }
}

/// [`new_device_run`] is steady.
#[verifier::rlimit(30)]
pub proof fn new_device_is_steady<'a>(
    a: &'a Actor<Connected>,
    t: TapeView<'a>,
    u: TapeView<'a>,
    db: Handle,
    cbox: Handle,
    user: UserId,
    creds: &'a Credentials,
    login: Handle,
)
    requires
        grown(t, u),
    ensures
        steady(
            t,
            u,
            new_device_run(a, t, db, cbox, user, creds, login),
            new_device_run(a, u, db, cbox, user, creds, login),
        ),
{
    register_client_is_steady(a, t, u, cbox, creds, login);
}

/// [`own_device_run`] is steady.
pub proof fn own_device_is_steady<'a>(
    a: &'a Actor<Connected>,
    t: TapeView<'a>,
    u: TapeView<'a>,
    db: Handle,
    cbox: Handle,
    user: UserId,
    creds: &'a Credentials,
    login: Handle,
)
    requires
        grown(t, u),
    ensures
        steady(
            t,
            u,
            own_device_run(a, t, db, cbox, user, creds, login),
            own_device_run(a, u, db, cbox, user, creds, login),
        ),
{
    let x = my_client_id_run(t, db);
    let y = my_client_id_run(u, db);
    match y.out {
        Ok(Some(id)) => {
            known_device_is_steady(a, y.tape, y.tape, db, user, id, creds);
            if x.out is Ok {
                known_device_is_steady(a, x.tape, y.tape, db, user, id, creds);
            }
        },
        Ok(None) => {
            new_device_is_steady(a, y.tape, y.tape, db, cbox, user, creds, login);
            if x.out is Ok {
                new_device_is_steady(a, x.tape, y.tape, db, cbox, user, creds, login);
            }
        },
        Err(_) => {},
    }
}

/// [`open_all_run`] is steady.
#[verifier::rlimit(50)]
pub proof fn open_all_is_steady<'a>(c: Config, t: TapeView<'a>, u: TapeView<'a>, user: UserId)
    requires
        grown(t, u),
    ensures
        steady(t, u, open_all_run(c, t, user), open_all_run(c, u, user)),
{
    open_database_is_steady(c, t, u, user);
    let x = open_database_run(c, t, user);
    let y = open_database_run(c, u, user);
    if y.out is Ok {
        let y2 = open_cryptobox_run(c, y.tape, user);
        open_cryptobox_is_steady(c, y.tape, y.tape, user);
        mk_assets_dir_is_steady(c, y2.tape, y2.tape, user);
        if x.out is Ok {
            let x2 = open_cryptobox_run(c, x.tape, user);
            open_cryptobox_is_steady(c, x.tape, y.tape, user);
            if x2.out is Ok {
                mk_assets_dir_is_steady(c, x2.tape, y2.tape, user);
            }
        }
    }
}

/// [`keep_login_run`] is steady.
pub proof fn keep_login_is_steady<'a>(
    t: TapeView<'a>,
    u: TapeView<'a>,
    db: Handle,
    creds: &'a Credentials,
    user: &'a ApiUser,
)
    requires
        grown(t, u),
    ensures
        steady(t, u, keep_login_run(t, db, creds, user), keep_login_run(u, db, creds, user)),
{
}

/// [`hold_login_run`] is steady.
pub proof fn hold_login_is_steady<'a>(
    t: TapeView<'a>,
    u: TapeView<'a>,
    creds: &'a Credentials,
    user: &'a ApiUser,
    dbase: Handle,
    device: Device,
    assets: Place,
)
    requires
        grown(t, u),
    ensures
        steady(
            t,
            u,
            hold_login_run(t, creds, user, dbase, device, assets),
            hold_login_run(u, creds, user, dbase, device, assets),
        ),
{
}

/// [`equip_run`] is steady.
pub proof fn equip_is_steady<'a>(
    a: &'a Actor<Connected>,
    t: TapeView<'a>,
    u: TapeView<'a>,
    creds: &'a Credentials,
    user: &'a ApiUser,
    login: Handle,
    opened: (Handle, Handle, Place),
)
    requires
        grown(t, u),
    ensures
        steady(
            t,
            u,
            equip_run(a, t, creds, user, login, opened),
            equip_run(a, u, creds, user, login, opened),
        ),
{
    let (dbase, cbox, assets) = opened;
    own_device_is_steady(a, t, u, dbase, cbox, user.id, creds, login);
    let x = own_device_run(a, t, dbase, cbox, user.id, creds, login);
    let y = own_device_run(a, u, dbase, cbox, user.id, creds, login);
    if let Ok(device) = y.out {
        hold_login_is_steady(y.tape, y.tape, creds, user, dbase, device, assets);
        if x.out is Ok {
            hold_login_is_steady(x.tape, y.tape, creds, user, dbase, device, assets);
        }
    }
}

/// [`establish_run`] is steady.
pub proof fn establish_is_steady<'a>(
    a: &'a Actor<Connected>,
    t: TapeView<'a>,
    u: TapeView<'a>,
    creds: &'a Credentials,
    user: &'a ApiUser,
    login: Handle,
    opened: (Handle, Handle, Place),
)
    requires
        grown(t, u),
    ensures
        steady(
            t,
            u,
            establish_run(a, t, creds, user, login, opened),
            establish_run(a, u, creds, user, login, opened),
        ),
{
    keep_login_is_steady(t, u, opened.0, creds, user);
    let x = keep_login_run(t, opened.0, creds, user);
    let y = keep_login_run(u, opened.0, creds, user);
    equip_is_steady(a, y.tape, y.tape, creds, user, login, opened);
    if x.out is Ok {
        equip_is_steady(a, x.tape, y.tape, creds, user, login, opened);
    }
}

/// [`settle_run`] is steady.
pub proof fn settle_is_steady<'a>(
    a: &'a Actor<Connected>,
    t: TapeView<'a>,
    u: TapeView<'a>,
    creds: &'a Credentials,
    user: &'a ApiUser,
    login: Handle,
)
    requires
        grown(t, u),
    ensures
        steady(t, u, settle_run(a, t, creds, user, login), settle_run(a, u, creds, user, login)),
{
    open_all_is_steady(a.config, t, u, user.id);
    let x = open_all_run(a.config, t, user.id);
    let y = open_all_run(a.config, u, user.id);
    if let Ok(opened) = y.out {
        establish_is_steady(a, y.tape, y.tape, creds, user, login, opened);
        if x.out is Ok {
            establish_is_steady(a, x.tape, y.tape, creds, user, login, opened);
        }
    }
}

/// [`login_run`] is steady.
pub proof fn login_is_steady<'a>(
    a: &'a Actor<Connected>,
    t: TapeView<'a>,
    u: TapeView<'a>,
    login: Handle,
)
    requires
        grown(t, u),
    ensures
        steady(t, u, login_run(a, t, login), login_run(a, u, login)),
{
    let q = ApiView::Login(login);
    entry_call_is_steady::<Credentials>(a, t, u, q);
    let x = entry_call_run::<Credentials>(a, t, q);
    let y = entry_call_run::<Credentials>(a, u, q);
    if let Ok(creds) = y.out {
        let p = ApiView::SelfUser(&creds);
        let y2 = entry_call_run::<ApiUser>(a, y.tape, p);
        entry_call_is_steady::<ApiUser>(a, y.tape, y.tape, p);
        if let Ok(user) = y2.out {
            settle_is_steady(a, y2.tape, y2.tape, &creds, &user, login);
        }
        if x.out is Ok {
            let x2 = entry_call_run::<ApiUser>(a, x.tape, p);
            entry_call_is_steady::<ApiUser>(a, x.tape, y.tape, p);
            if let Ok(user) = x2.out {
                settle_is_steady(a, x2.tape, y2.tape, &creds, &user, login);
            }
        }
    }
}

impl Actor<Connected> {
    fn keep_client<'a>(
        &'a self,
        tape: &mut Tape<'a>,
        db: Handle,
        user: UserId,
        c: &'a ApiClient,
    ) -> (r: Result<Client, Stop<'a>>)
        ensures
            told(final(tape)@, r) == keep_client_run(old(tape)@, db, user, c),
    {
        tape.ask::<()>(Query::Db(db, Db::InsertClient(user, c)))?;
        let client: &'a Client = tape.ask(Query::Convert(Convert::Client(user, c)))?;
        Ok(client.clone())
    }

    fn own_device<'a>(
        &'a self,
        tape: &mut Tape<'a>,
        db: Handle,
        cbox: Handle,
        user: UserId,
        creds: &'a Credentials,
        login: Handle,
    ) -> (r: Result<Device, Stop<'a>>)
        ensures
            told(final(tape)@, r) == own_device_run(
                self,
                old(tape)@,
                db,
                cbox,
                user,
                creds,
                login,
            ),
    {
        match my_client_id(tape, db)? {
            Some(id) => {
                let found: &'a Option<Client> = tape.ask(
                    Query::Db(db, Db::Client(user, id.clone())),
                )?;
                if let Some(client) = found {
                    return Ok(Device { fresh: false, client: client.clone(), cbox });
                }
                let c = self.lookup_self_client(tape, &id, creds)?;
                let client = self.keep_client(tape, db, user, c)?;
                Ok(Device { fresh: false, client, cbox })
            },
            None => {
                let c = self.register_client(tape, cbox, creds, login)?;
                set_my_client_id(tape, db, &c.id)?;
                let client = self.keep_client(tape, db, user, c)?;
                Ok(Device { fresh: true, client, cbox })
            },
        }
    }

    /// Logs in an existing user, and stores the access credentials in the local database.
    pub fn login<'a>(&'a self, tape: &mut Tape<'a>, login: Handle) -> (r: Result<
        UserData,
        Stop<'a>,
    >)
        ensures
            told(final(tape)@, r) == login_run(self, old(tape)@, login),
    {
        let creds: &'a Credentials = self.entry_call(tape, Api::Login(login))?;
        let user = self.lookup_self(tape, creds)?;
        let dbase = self.open_database(tape, user.id)?;
        let cbox = self.open_cryptobox(tape, user.id)?;
        let assets = self.mk_assets_dir(tape, user.id)?;
        set_access_token(tape, dbase, &creds.token)?;
        set_cookie(tape, dbase, &creds.cookie)?;
        tape.ask::<()>(Query::Db(dbase, Db::InsertUser(user)))?;
        let device = self.own_device(tape, dbase, cbox, user.id, creds, login)?;
        let me: &'a User = tape.ask(Query::Convert(Convert::User(user)))?;
        let held: &'a Handle = tape.ask(Query::HoldFresh(creds))?;
        Ok(UserData { user: me.clone(), dbase, creds: *held, device, assets })
    }
}

// ---- Stored profiles ------------------------------------------------------------------------

/// Reads the user of a stored profile.
pub open spec fn stored_user_run<'a>(t: TapeView<'a>, db: Handle, id: UserId) -> Run<'a, User> {
    ask::<Option<User>>(t, QueryView::Db(db, DbView::User(id))).and_then(
        |t: TapeView<'a>, found: Option<User>|
            match found {
                Some(user) => done(t, user),
                None => fail(t, Error::Profile(id, Gap::User)),
            },
    )
}

/// Reads the device of a stored profile.
pub open spec fn stored_client_run<'a>(t: TapeView<'a>, db: Handle, id: UserId) -> Run<'a, Client> {
    my_client_id_run(t, db).and_then(
        |t: TapeView<'a>, client: Option<Seq<char>>|
            match client {
                Some(client) => ask::<Option<Client>>(
                    t,
                    QueryView::Db(db, DbView::Client(id, client)),
                ).and_then(
                    |t: TapeView<'a>, found: Option<Client>|
                        match found {
                            Some(c) => done(t, c),
                            None => fail(t, Error::Profile(id, Gap::Client)),
                        },
                ),
                None => fail(t, Error::Profile(id, Gap::ClientId)),
            },
    )
}

/// Reads the cookie and the access token of a stored profile.
pub open spec fn stored_access_run<'a>(t: TapeView<'a>, db: Handle, id: UserId) -> Run<
    'a,
    (Seq<char>, Seq<char>),
> {
    cookie_run(t, db).and_then(
        |t: TapeView<'a>, cookie: Option<Seq<char>>|
            match cookie {
                Some(cookie) => access_token_run(t, db).and_then(
                    |t: TapeView<'a>, token: Option<Seq<char>>|
                        match token {
                            Some(token) => done(t, (cookie, token)),
                            None => fail(t, Error::Profile(id, Gap::AccessToken)),
                        },
                ),
                None => fail(t, Error::Profile(id, Gap::Cookie)),
            },
    )
}

/// Reads a stored profile from its database.
pub open spec fn read_profile_run<'a>(
    c: Config,
    t: TapeView<'a>,
    id: UserId,
    dbase: Handle,
    assets: Place,
) -> Run<'a, UserData> {
    stored_user_run(t, dbase, id).and_then(
        |t: TapeView<'a>, user: User|
            stored_client_run(t, dbase, id).and_then(
                |t: TapeView<'a>, client: Client|
                    stored_access_run(t, dbase, id).and_then(
                        |t: TapeView<'a>, access: (Seq<char>, Seq<char>)|
                            open_cryptobox_run(c, t, id).and_then(
                                |t: TapeView<'a>, cbox: Handle|
                                    ask::<Handle>(
                                        t,
                                        QueryView::HoldStored {
                                            token: access.1,
                                            cookie: access.0,
                                            valid_for: 0,
                                        },
                                    ).and_then(
                                        |t: TapeView<'a>, creds: Handle|
                                            done(
                                                t,
                                                UserData {
                                                    user,
                                                    dbase,
                                                    creds,
                                                    device: Device { fresh: false, client, cbox },
                                                    assets,
                                                },
                                            ),
                                    ),
                            ),
                    ),
            ),
    )
}

/// Loads a stored profile.
pub open spec fn profile_run<'a>(c: Config, t: TapeView<'a>, id: UserId) -> Run<'a, UserData> {
    mk_assets_dir_run(c, t, id).and_then(
        |t: TapeView<'a>, assets: Place|
            open_database_run(c, t, id).and_then(
                |t: TapeView<'a>, dbase: Handle| read_profile_run(c, t, id, dbase, assets),
            ),
    )
}

/// [`stored_access_run`] is steady.
pub proof fn stored_access_is_steady<'a>(t: TapeView<'a>, u: TapeView<'a>, db: Handle, id: UserId)
    requires
        grown(t, u),
    ensures
        steady(t, u, stored_access_run(t, db, id), stored_access_run(u, db, id)),
{
}

/// [`read_profile_run`] is steady.
#[verifier::rlimit(30)]
pub proof fn read_profile_is_steady<'a>(
    c: Config,
    t: TapeView<'a>,
    u: TapeView<'a>,
    id: UserId,
    dbase: Handle,
    assets: Place,
)
    requires
        grown(t, u),
    ensures
        steady(
            t,
            u,
            read_profile_run(c, t, id, dbase, assets),
            read_profile_run(c, u, id, dbase, assets),
        ),
{
    let x = stored_user_run(t, dbase, id);
    let y = stored_user_run(u, dbase, id);
    let x2 = stored_client_run(x.tape, dbase, id);
    let y2 = stored_client_run(y.tape, dbase, id);
    if y.out is Ok && y2.out is Ok {
        let y3 = stored_access_run(y2.tape, dbase, id);
        stored_access_is_steady(y2.tape, y2.tape, dbase, id);
        open_cryptobox_is_steady(c, y3.tape, y3.tape, id);
        if x.out is Ok && x2.out is Ok {
            let x3 = stored_access_run(x2.tape, dbase, id);
            stored_access_is_steady(x2.tape, y2.tape, dbase, id);
            if x3.out is Ok {
                open_cryptobox_is_steady(c, x3.tape, y3.tape, id);
            }
        }
    }
}

/// [`profile_run`] is steady.
pub proof fn profile_is_steady<'a>(c: Config, t: TapeView<'a>, u: TapeView<'a>, id: UserId)
    requires
        grown(t, u),
    ensures
        steady(t, u, profile_run(c, t, id), profile_run(c, u, id)),
{
    mk_assets_dir_is_steady(c, t, u, id);
    let x = mk_assets_dir_run(c, t, id);
    let y = mk_assets_dir_run(c, u, id);
    if let Ok(assets) = y.out {
        let y2 = open_database_run(c, y.tape, id);
        open_database_is_steady(c, y.tape, y.tape, id);
        if let Ok(dbase) = y2.out {
            read_profile_is_steady(c, y2.tape, y2.tape, id, dbase, assets);
        }
        if x.out is Ok {
            let x2 = open_database_run(c, x.tape, id);
            open_database_is_steady(c, x.tape, y.tape, id);
            if let Ok(dbase) = x2.out {
                read_profile_is_steady(c, x2.tape, y2.tape, id, dbase, assets);
            }
        }
    }
}

impl Actor<Init> {
    /// Loads an existing user profile from local storage.
    pub fn profile<'a>(&self, tape: &mut Tape<'a>, id: UserId) -> (r: Result<UserData, Stop<'a>>)
        ensures
            told(final(tape)@, r) == profile_run(self.config, old(tape)@, id),
    {
        let assets = self.mk_assets_dir(tape, id)?;
        let dbase = self.open_database(tape, id)?;
        let found: &'a Option<User> = tape.ask(Query::Db(dbase, Db::User(id)))?;
        let user: User = match found {
            Some(user) => user.clone(),
            None => {
                return Err(Stop::Fail(Error::Profile(id, Gap::User)));
            },
        };
        let client_id: ClientId = match my_client_id(tape, dbase)? {
            Some(client_id) => client_id,
            None => {
                return Err(Stop::Fail(Error::Profile(id, Gap::ClientId)));
            },
        };
        let found: &'a Option<Client> = tape.ask(Query::Db(dbase, Db::Client(id, client_id)))?;
        let client: Client = match found {
            Some(client) => client.clone(),
            None => {
                return Err(Stop::Fail(Error::Profile(id, Gap::Client)));
            },
        };
        let header: Cookie = match storage::cookie(tape, dbase)? {
            Some(header) => header,
            None => {
                return Err(Stop::Fail(Error::Profile(id, Gap::Cookie)));
            },
        };
        let token: String = match access_token(tape, dbase)? {
            Some(token) => token,
            None => {
                return Err(Stop::Fail(Error::Profile(id, Gap::AccessToken)));
            },
        };
        let cbox = self.open_cryptobox(tape, id)?;
        let creds: &'a Handle = tape.ask(
            Query::HoldStored { token, cookie: header.text().to_owned(), valid_for: 0 },
        )?;
        Ok(
            UserData {
                user,
                dbase,
                creds: *creds,
                device: Device { fresh: false, client, cbox },
                assets,
            },
        )
    }
}

/// A stored profile that is loaded is not fresh. Its user and its device were stored, and its assets
/// are in that user's part of the data directory.
pub proof fn loaded_profile_was_stored<'a>(c: Config, t: TapeView<'a>, id: UserId)
    ensures
        profile_run(c, t, id).out matches Ok(u) ==> {
            &&& !u.device.fresh
            &&& u.assets == place_of(c, id, Leaf::Assets)
            &&& t.log.contains(Reply::MaybeUser(Some(u.user)))
            &&& t.log.contains(Reply::MaybeClient(Some(u.device.client)))
        },
{
    let r = profile_run(c, t, id);
    if let Ok(u) = r.out {
        mk_assets_dir_is_steady(c, t, t, id);
        let x = mk_assets_dir_run(c, t, id);
        open_database_is_steady(c, x.tape, x.tape, id);
        let y = open_database_run(c, x.tape, id);
        let dbase = y.out->Ok_0;
        let z = stored_user_run(y.tape, dbase, id);
        assert(z.tape.log == t.log);
        assert(t.log[y.tape.at as int] == Reply::MaybeUser(Some(u.user)));
        let v = my_client_id_run(z.tape, dbase);
        assert(v.tape.log == t.log);
        assert(t.log[v.tape.at as int] == Reply::MaybeClient(Some(u.device.client)));
    }
}

/// Storing what a login yielded stores the token and the cookie, and then the user.
pub proof fn login_is_stored<'a>(
    a: &'a Actor<Connected>,
    t: TapeView<'a>,
    creds: &'a Credentials,
    user: &'a ApiUser,
    login: Handle,
    opened: (Handle, Handle, Place),
)
    ensures
        establish_run(a, t, creds, user, login, opened).out matches Ok(u) ==> {
            let r = establish_run(a, t, creds, user, login, opened);
            &&& u.dbase == opened.0
            &&& u.assets == opened.2
            &&& begins_with(
                r.tape.asked,
                t.asked.push(
                    QueryView::Db(opened.0, DbView::SetVar(Var::AccessToken, creds.token@)),
                ).push(
                    QueryView::Db(opened.0, DbView::SetVar(Var::UserCookie, creds.cookie@)),
                ).push(QueryView::Db(opened.0, DbView::InsertUser(user))),
            )
        },
{
    let x = keep_login_run(t, opened.0, creds, user);
    equip_is_steady(a, x.tape, x.tape, creds, user, login, opened);
}

/// The device that we log in with is fresh if and only if no device id was stored before.
pub proof fn fresh_if_no_device_was_known<'a>(
    a: &'a Actor<Connected>,
    t: TapeView<'a>,
    db: Handle,
    cbox: Handle,
    user: UserId,
    creds: &'a Credentials,
    login: Handle,
)
    ensures
        own_device_run(a, t, db, cbox, user, creds, login).out matches Ok(d) ==> {
            &&& d.cbox == cbox
            &&& d.fresh <==> my_client_id_run(t, db).out == Ok::<Option<Seq<char>>, StopView<'a>>(
                None,
            )
        },
{
}

/// The id of a device that was registered is stored before the device itself.
pub proof fn new_device_is_remembered<'a>(
    a: &'a Actor<Connected>,
    t: TapeView<'a>,
    db: Handle,
    cbox: Handle,
    user: UserId,
    creds: &'a Credentials,
    login: Handle,
)
    ensures
        new_device_run(a, t, db, cbox, user, creds, login).out is Ok ==> {
            let x = register_client_run(a, t, cbox, creds, login);
            x.out matches Ok(c) && new_device_run(a, t, db, cbox, user, creds, login).tape.asked
                == x.tape.asked.push(
                QueryView::Db(db, DbView::SetVar(Var::MyClientId, c.id@)),
            ).push(QueryView::Db(db, DbView::InsertClient(user, &c))).push(
                QueryView::Convert(Convert::Client(user, &c)),
            )
        },
{
}

/// A device is registered with two hundred prekeys, beside the one of last resort.
pub proof fn device_has_all_prekeys<'a>(t: TapeView<'a>, cbox: Handle, i: int, made: Seq<Handle>)
    requires
        0 <= i <= PREKEYS,
    ensures
        prekeys_run(t, cbox, i, made).out matches Ok(keys) ==> keys.len() == made.len() + PREKEYS
            - i,
    decreases PREKEYS - i,
{
    if i < PREKEYS {
        let x = ask::<Handle>(t, QueryView::Crypt(cbox, CryptView::NewPrekey(i as u16)));
        if let Ok(key) = x.out {
            device_has_all_prekeys(x.tape, cbox, i + 1, made.push(key));
        }
    }
}

// ---- Cloning --------------------------------------------------------------------------------

/// A second actor for the same user, with its own database and connection.
pub open spec fn twin(a: Actor<Online>, dbase: Handle, client: Handle) -> Actor<Online> {
    Actor {
        config: a.config,
        state: Online { user: UserData { dbase, ..a.state.user }, client, bcast: a.state.bcast },
    }
}

/// Makes a second actor.
pub open spec fn clone_run<'a>(a: &'a Actor<Online>, t: TapeView<'a>) -> Run<'a, Actor<Online>> {
    open_database_run(a.config, t, a.me_id()).and_then(
        |t: TapeView<'a>, dbase: Handle|
            connect_again_run(a, t).and_then(
                |t: TapeView<'a>, client: Handle| done(t, twin(*a, dbase, client)),
            ),
    )
}

/// A second actor shares everything with the first but its database and its connection.
pub proof fn clone_shares_the_rest<'a>(a: &'a Actor<Online>, t: TapeView<'a>)
    ensures
        clone_run(a, t).out matches Ok(b) ==> {
            &&& b.config == a.config
            &&& b.state.bcast == a.state.bcast
            &&& b.state.user.user == a.state.user.user
            &&& b.state.user.creds == a.state.user.creds
            &&& b.state.user.device == a.state.user.device
            &&& b.state.user.assets == a.state.user.assets
        },
{
}

/// [`clone_run`] is steady.
pub proof fn clone_is_steady<'a>(a: &'a Actor<Online>, t: TapeView<'a>, u: TapeView<'a>)
    requires
        grown(t, u),
    ensures
        steady(t, u, clone_run(a, t), clone_run(a, u)),
{
    open_database_is_steady(a.config, t, u, a.me_id());
    let x = open_database_run(a.config, t, a.me_id());
    let y = open_database_run(a.config, u, a.me_id());
    connect_again_is_steady(a, y.tape, y.tape);
    if x.out is Ok {
        connect_again_is_steady(a, x.tape, y.tape);
    }
}

impl Actor<Online> {
    /// A cloned actor has its own database and its own connection to the back-end, but shares
    /// everything else with the one that it was cloned from.
    pub fn clone<'a>(&'a self, tape: &mut Tape<'a>) -> (r: Result<Actor<Online>, Stop<'a>>)
        ensures
            told(final(tape)@, r) == clone_run(self, old(tape)@),
    {
        let dbase = self.open_database(tape, self.me().id)?;
        let client = self.connect_again(tape)?;
        Ok(
            Actor {
                config: self.config.clone(),
                state: Online {
                    user: UserData {
                        user: self.state.user.user.clone(),
                        dbase,
                        creds: self.state.user.creds,
                        device: self.state.user.device.clone(),
                        assets: self.state.user.assets.clone(),
                    },
                    client,
                    bcast: self.state.bcast,
                },
            },
        )
    }
}

} // verus!
