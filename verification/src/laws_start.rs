//! How storage is opened, and how an actor comes by its user.
use crate::access::connect_again_run;
use crate::actor::{Actor, Connected, Online};
use crate::inbox::new_inbox_run;
use crate::laws_retries::begins_with_run;
use crate::login::{
    clone_run, enrolment_run, entry_call_run, establish_run, hold_login_run, keep_client_run,
    known_device_run, login_run, new_device_run, own_device_run, prekeys_run, profile_run,
    read_profile_run, self_client_run, stored_access_run, stored_client_run, stored_user_run,
};
use crate::model::{
    ApiClient, ApiUser, Client, Complaint, Config, Credentials, Error, Gap, Handle, Leaf, Place,
    User, UserId, Var,
};
use crate::query::{ApiView, Convert, CryptView, DbView, Disk, QueryView};
use crate::storage::{ensure_dir_run, mk_assets_dir_run, open_cryptobox_run, open_database_run};
use crate::tape::{ask, done, Reply, Run, StopView, TapeView};
use crate::text::{blob_cookie, blob_text};
use crate::trace::{answers, ends_as, hears, look_ahead, qa, said};
use vstd::prelude::*;

verus! {

// ---- Storage ----------------------------------------------------------------------------------

/// A place of a user below the root of all data.
pub open spec fn place(c: Config, user: UserId, leaf: Leaf) -> Place {
    Place { root: c.data_root, user, leaf }
}

/// A directory is created if and only if it does not exist.
pub proof fn missing_directory_is_created<'a>(t: TapeView<'a>, p: Place)
    ensures
        ({
            let x = ask::<bool>(t, QueryView::Disk(Disk::Exists(p)));
            let r = ensure_dir_run(t, p);
            match x.out {
                Err(_) => ends_as(r, x),
                Ok(true) => r.tape == x.tape && r.out is Ok,
                Ok(false) => r == ask::<()>(x.tape, QueryView::Disk(Disk::CreateDir(p))),
            }
        }),
{
}

/// The box of keys is opened in its own directory, which is made first; and so is the directory for
/// assets.
pub proof fn box_of_keys_is_opened_in_its_directory<'a>(c: Config, t: TapeView<'a>, user: UserId)
    ensures
        begins_with_run(
            ensure_dir_run(t, place(c, user, Leaf::CryptoBox)),
            open_cryptobox_run(c, t, user),
            |u: TapeView<'a>|
                ask::<Handle>(
                    u,
                    QueryView::Disk(Disk::OpenCryptoBox(place(c, user, Leaf::CryptoBox))),
                ),
        ),
        begins_with_run(
            ensure_dir_run(t, place(c, user, Leaf::Assets)),
            mk_assets_dir_run(c, t, user),
            |u: TapeView<'a>| done(u, place(c, user, Leaf::Assets)),
        ),
{
}

/// The database is opened in the user's directory, which is made first, and its schema is set up.
/// Its path must be text.
pub proof fn database_is_opened_and_set_up<'a>(
    c: Config,
    t: TapeView<'a>,
    user: UserId,
    given: Handle,
)
    ensures
        ({
            let p = place(c, user, Leaf::Database);
            let x = ensure_dir_run(t, place(c, user, Leaf::Home));
            let y = ask::<bool>(x.tape, QueryView::Disk(Disk::IsText(p)));
            let r = open_database_run(c, t, user);
            match (x.out, y.out) {
                (Err(_), _) => ends_as(r, x),
                (Ok(_), Err(_)) => ends_as(r, y),
                (Ok(_), Ok(false)) => r.tape == y.tape && r.out == Err::<Handle, StopView<'a>>(
                    StopView::Fail(Error::Message(Complaint::RootNotUtf8)),
                ),
                (Ok(_), Ok(true)) => {
                    &&& r.out matches Ok(db) ==> hears(
                        y.tape,
                        r.tape,
                        seq![
                            qa(QueryView::Disk(Disk::OpenDatabase(p)), Reply::Handle(db)),
                            qa(QueryView::Disk(Disk::SetupSchema(db)), Reply::Done),
                        ],
                    )
                    &&& answers(y.tape, seq![Reply::Handle(given), Reply::Done]) ==> r.out is Ok
                },
            }
        }),
{
    let p = place(c, user, Leaf::Database);
    let x = ensure_dir_run(t, place(c, user, Leaf::Home));
    let y = ask::<bool>(x.tape, QueryView::Disk(Disk::IsText(p)));
    let r = open_database_run(c, t, user);
    if let (Ok(_), Ok(true)) = (x.out, y.out) {
        if let Ok(db) = r.out {
            assert(said(y.tape, r.tape) =~= seq![
                qa(QueryView::Disk(Disk::OpenDatabase(p)), Reply::Handle(db)),
                qa(QueryView::Disk(Disk::SetupSchema(db)), Reply::Done),
            ]);
        }
        look_ahead(y.tape, seq![Reply::Handle(given), Reply::Done]);
    }
}

// ---- Devices ----------------------------------------------------------------------------------

/// What a new device is enrolled with: its prekeys, the last prekey, signaling keys and the
/// fingerprint of its box of keys, which are asked for in this order.
pub proof fn enrolment_has_all_keys<'a>(
    t: TapeView<'a>,
    cbox: Handle,
    login: Handle,
    given: (Handle, Handle, String),
)
    ensures
        ({
            let x = prekeys_run(t, cbox, 0, Seq::empty());
            let r = enrolment_run(t, cbox, login);
            match x.out {
                Err(_) => ends_as(r, x),
                Ok(prekeys) => {
                    &&& r.out matches Ok(e) ==> (x.tape.log[x.tape.at + 2int] matches Reply::Text(
                        print,
                    ) && hears(
                        x.tape,
                        r.tape,
                        seq![
                            qa(
                                QueryView::Crypt(cbox, CryptView::NewPrekey(65535)),
                                Reply::Handle(e.last_prekey),
                            ),
                            qa(QueryView::NewSignalingKeys, Reply::Handle(e.sig_keys)),
                            qa(QueryView::Crypt(cbox, CryptView::Fingerprint), Reply::Text(print)),
                        ],
                    ) && e.prekeys == prekeys && e.ctype is Permanent && e.class is Desktop
                        && e.label is None && e.cookie_label == "Coax-"@ + print@ && e.model
                        == "Coax"@ && e.login == login)
                    &&& answers(
                        x.tape,
                        seq![
                            Reply::Handle(given.0),
                            Reply::Handle(given.1),
                            Reply::Text(given.2),
                        ],
                    ) ==> r.out is Ok
                },
            }
        }),
{
    let x = prekeys_run(t, cbox, 0, Seq::empty());
    let r = enrolment_run(t, cbox, login);
    if let Ok(prekeys) = x.out {
        if let Ok(e) = r.out {
            let q1 = QueryView::Crypt(cbox, CryptView::NewPrekey(65535));
            let q3 = QueryView::Crypt(cbox, CryptView::Fingerprint);
            let y = ask::<Handle>(x.tape, q1);
            let z = ask::<Handle>(y.tape, QueryView::NewSignalingKeys);
            let w = ask::<String>(z.tape, q3);
            assert(said(x.tape, r.tape) =~= seq![
                qa(q1, Reply::Handle(e.last_prekey)),
                qa(QueryView::NewSignalingKeys, Reply::Handle(e.sig_keys)),
                qa(q3, Reply::Text(w.out->Ok_0)),
            ]);
        }
        look_ahead(
            x.tape,
            seq![Reply::Handle(given.0), Reply::Handle(given.1), Reply::Text(given.2)],
        );
    }
}

/// Does a run end with a device being stored for a user, converted, and returned?
pub open spec fn device_is_stored<'a>(
    t: TapeView<'a>,
    db: Handle,
    user: UserId,
    c: ApiClient,
    r: Run<'a, Client>,
    given: Client,
) -> bool {
    &&& r.out matches Ok(k) ==> hears(
        t,
        r.tape,
        seq![
            qa(QueryView::Db(db, DbView::InsertClient(user, &c)), Reply::Done),
            qa(QueryView::Convert(Convert::Client(user, &c)), Reply::Client(k)),
        ],
    )
    &&& answers(t, seq![Reply::Done, Reply::Client(given)]) ==> r.out is Ok
}

proof fn kept_device_is_stored<'a>(
    t: TapeView<'a>,
    db: Handle,
    user: UserId,
    c: &'a ApiClient,
    given: Client,
)
    ensures
        device_is_stored(t, db, user, *c, keep_client_run(t, db, user, c), given),
{
    let r = keep_client_run(t, db, user, c);
    if let Ok(k) = r.out {
        assert(said(t, r.tape) =~= seq![
            qa(QueryView::Db(db, DbView::InsertClient(user, c)), Reply::Done),
            qa(QueryView::Convert(Convert::Client(user, c)), Reply::Client(k)),
        ]);
    }
    look_ahead(t, seq![Reply::Done, Reply::Client(given)]);
}

/// A device that is known by its id is what the database has, or else what the back-end has, which
/// is then stored.
pub proof fn known_device_is_local_or_fetched<'a>(
    a: &'a Actor<Connected>,
    t: TapeView<'a>,
    db: Handle,
    user: UserId,
    id: Seq<char>,
    creds: &'a Credentials,
    given: Client,
)
    ensures
        ({
            let x = ask::<Option<Client>>(t, QueryView::Db(db, DbView::Client(user, id)));
            let y = self_client_run(a, x.tape, id, creds);
            let r = known_device_run(a, t, db, user, id, creds);
            match (x.out, y.out) {
                (Err(_), _) => ends_as(r, x),
                (Ok(Some(c)), _) => r.tape == x.tape && r.out == Ok::<Client, StopView<'a>>(c),
                (Ok(None), Err(_)) => ends_as(r, y),
                (Ok(None), Ok(c)) => device_is_stored(y.tape, db, user, c, r, given),
            }
        }),
{
    let x = ask::<Option<Client>>(t, QueryView::Db(db, DbView::Client(user, id)));
    let y = self_client_run(a, x.tape, id, creds);
    if let (Ok(None), Ok(c)) = (x.out, y.out) {
        kept_device_is_stored(y.tape, db, user, &c, given);
    }
}

/// A new device is enrolled and registered. Its id is then remembered, and it is stored.
pub proof fn new_device_is_registered_and_stored<'a>(
    a: &'a Actor<Connected>,
    t: TapeView<'a>,
    db: Handle,
    cbox: Handle,
    user: UserId,
    creds: &'a Credentials,
    login: Handle,
    given: Client,
)
    ensures
        ({
            let x = enrolment_run(t, cbox, login);
            let r = new_device_run(a, t, db, cbox, user, creds, login);
            match x.out {
                Err(_) => ends_as(r, x),
                Ok(e) => {
                    let y = entry_call_run::<ApiClient>(
                        a,
                        x.tape,
                        ApiView::RegisterClient(e, creds),
                    );
                    match y.out {
                        Err(_) => ends_as(r, y),
                        Ok(c) => {
                            let z = ask::<()>(
                                y.tape,
                                QueryView::Db(db, DbView::SetVar(Var::MyClientId, c.id@)),
                            );
                            match z.out {
                                Err(_) => ends_as(r, z),
                                Ok(_) => device_is_stored(z.tape, db, user, c, r, given),
                            }
                        },
                    }
                },
            }
        }),
{
    let x = enrolment_run(t, cbox, login);
    if let Ok(e) = x.out {
        let y = entry_call_run::<ApiClient>(a, x.tape, ApiView::RegisterClient(e, creds));
        if let Ok(c) = y.out {
            let z = ask::<()>(y.tape, QueryView::Db(db, DbView::SetVar(Var::MyClientId, c.id@)));
            kept_device_is_stored(z.tape, db, user, &c, given);
        }
    }
}

/// This device is the one whose id is remembered as text, and is then not fresh. If there is none,
/// it is a new one, and fresh.
pub proof fn device_is_fresh_if_none_is_remembered<'a>(
    a: &'a Actor<Connected>,
    t: TapeView<'a>,
    db: Handle,
    cbox: Handle,
    user: UserId,
    creds: &'a Credentials,
    login: Handle,
)
    ensures
        ({
            let x = ask::<Option<Vec<u8>>>(t, QueryView::Db(db, DbView::Var(Var::MyClientId)));
            let r = own_device_run(a, t, db, cbox, user, creds, login);
            match x.out {
                Err(_) => ends_as(r, x),
                Ok(blob) => {
                    let id = match blob {
                        Some(b) => blob_text(b@),
                        None => None,
                    };
                    let y = match id {
                        Some(id) => known_device_run(a, x.tape, db, user, id, creds),
                        None => new_device_run(a, x.tape, db, cbox, user, creds, login),
                    };
                    match y.out {
                        Err(_) => ends_as(r, y),
                        Ok(client) => r.tape == y.tape && (r.out matches Ok(d) && d.fresh
                            == id is None && d.client == client && d.cbox == cbox),
                    }
                },
            }
        }),
{
}

// ---- Logging in -------------------------------------------------------------------------------

/// How a user logs in. Credentials come first, then the user; then storage is opened: the database,
/// the box of keys, and the directory for assets.
pub proof fn login_opens_storage<'a>(a: &'a Actor<Connected>, t: TapeView<'a>, login: Handle)
    ensures
        ({
            let x = entry_call_run::<Credentials>(a, t, ApiView::Login(login));
            let r = login_run(a, t, login);
            match x.out {
                Err(_) => ends_as(r, x),
                Ok(creds) => {
                    let y = entry_call_run::<ApiUser>(a, x.tape, ApiView::SelfUser(&creds));
                    match y.out {
                        Err(_) => ends_as(r, y),
                        Ok(user) => {
                            let z = open_database_run(a.config, y.tape, user.id);
                            let w = open_cryptobox_run(a.config, z.tape, user.id);
                            let v = mk_assets_dir_run(a.config, w.tape, user.id);
                            match (z.out, w.out, v.out) {
                                (Err(_), _, _) => ends_as(r, z),
                                (Ok(_), Err(_), _) => ends_as(r, w),
                                (Ok(_), Ok(_), Err(_)) => ends_as(r, v),
                                (Ok(db), Ok(cbox), Ok(assets)) => r == establish_run(
                                    a,
                                    v.tape,
                                    &creds,
                                    &user,
                                    login,
                                    (db, cbox, assets),
                                ),
                            }
                        },
                    }
                },
            }
        }),
{
}

/// How a login is established. The access token, the cookie and the user are stored; then this
/// device is found; and the credentials are taken up last. What comes of it is the user with what
/// was opened, and that device.
pub proof fn login_is_stored_before_it_is_taken_up<'a>(
    a: &'a Actor<Connected>,
    t: TapeView<'a>,
    creds: &'a Credentials,
    user: &'a ApiUser,
    login: Handle,
    opened: (Handle, Handle, Place),
    given: (User, Handle),
)
    ensures
        ({
            let db = opened.0;
            let x = ask::<()>(
                t,
                QueryView::Db(db, DbView::SetVar(Var::AccessToken, creds.token@)),
            );
            let y = ask::<()>(
                x.tape,
                QueryView::Db(db, DbView::SetVar(Var::UserCookie, creds.cookie@)),
            );
            let z = ask::<()>(y.tape, QueryView::Db(db, DbView::InsertUser(user)));
            let w = own_device_run(a, z.tape, db, opened.1, user.id, creds, login);
            let r = establish_run(a, t, creds, user, login, opened);
            match (x.out, y.out, z.out, w.out) {
                (Err(_), _, _, _) => ends_as(r, x),
                (Ok(_), Err(_), _, _) => ends_as(r, y),
                (Ok(_), Ok(_), Err(_), _) => ends_as(r, z),
                (Ok(_), Ok(_), Ok(_), Err(_)) => ends_as(r, w),
                (Ok(_), Ok(_), Ok(_), Ok(device)) => {
                    &&& r.out matches Ok(data) ==> hears(
                        w.tape,
                        r.tape,
                        seq![
                            qa(QueryView::Convert(Convert::User(user)), Reply::User(data.user)),
                            qa(QueryView::HoldFresh(creds), Reply::Handle(data.creds)),
                        ],
                    ) && data.dbase == db && data.device == device && data.assets == opened.2
                    &&& answers(
                        w.tape,
                        seq![Reply::User(given.0), Reply::Handle(given.1)],
                    ) ==> r.out is Ok
                },
            }
        }),
{
    let db = opened.0;
    let x = ask::<()>(t, QueryView::Db(db, DbView::SetVar(Var::AccessToken, creds.token@)));
    let y = ask::<()>(x.tape, QueryView::Db(db, DbView::SetVar(Var::UserCookie, creds.cookie@)));
    let z = ask::<()>(y.tape, QueryView::Db(db, DbView::InsertUser(user)));
    if x.out is Ok && y.out is Ok && z.out is Ok {
        let w = own_device_run(a, z.tape, db, opened.1, user.id, creds, login);
        let r = establish_run(a, t, creds, user, login, opened);
        if let Ok(device) = w.out {
            assert(r == hold_login_run(w.tape, creds, user, db, device, opened.2));
            if let Ok(data) = r.out {
                assert(said(w.tape, r.tape) =~= seq![
                    qa(QueryView::Convert(Convert::User(user)), Reply::User(data.user)),
                    qa(QueryView::HoldFresh(creds), Reply::Handle(data.creds)),
                ]);
            }
            look_ahead(w.tape, seq![Reply::User(given.0), Reply::Handle(given.1)]);
        }
    }
}

// ---- Stored profiles --------------------------------------------------------------------------

/// Does a run end with a gap in a profile?
pub open spec fn has_this_gap<'a, T>(r: Run<'a, T>, t: TapeView<'a>, id: UserId, gap: Gap) -> bool {
    r.tape == t && r.out == Err::<T, StopView<'a>>(StopView::Fail(Error::Profile(id, gap)))
}

/// The user of a profile is the one who is stored; if there is none, that is the gap.
pub proof fn missing_user_is_a_gap<'a>(t: TapeView<'a>, db: Handle, id: UserId)
    ensures
        ({
            let x = ask::<Option<User>>(t, QueryView::Db(db, DbView::User(id)));
            let r = stored_user_run(t, db, id);
            match x.out {
                Err(_) => ends_as(r, x),
                Ok(None) => has_this_gap(r, x.tape, id, Gap::User),
                Ok(Some(user)) => r.tape == x.tape && r.out == Ok::<User, StopView<'a>>(user),
            }
        }),
{
}

/// The device of a profile is the one that is stored under the id that is remembered. If no id is
/// remembered, or if there is no such device, that is the gap.
pub proof fn missing_device_is_a_gap<'a>(t: TapeView<'a>, db: Handle, id: UserId)
    ensures
        ({
            let x = ask::<Option<Vec<u8>>>(t, QueryView::Db(db, DbView::Var(Var::MyClientId)));
            let r = stored_client_run(t, db, id);
            match x.out {
                Err(_) => ends_as(r, x),
                Ok(None) => has_this_gap(r, x.tape, id, Gap::ClientId),
                Ok(Some(b)) => match blob_text(b@) {
                    None => has_this_gap(r, x.tape, id, Gap::ClientId),
                    Some(client) => {
                        let y = ask::<Option<Client>>(
                            x.tape,
                            QueryView::Db(db, DbView::Client(id, client)),
                        );
                        match y.out {
                            Err(_) => ends_as(r, y),
                            Ok(None) => has_this_gap(r, y.tape, id, Gap::Client),
                            Ok(Some(c)) => r.tape == y.tape && r.out == Ok::<
                                Client,
                                StopView<'a>,
                            >(c),
                        }
                    },
                },
            }
        }),
{
}

/// The access of a profile is the stored cookie and the stored token. If one of them is missing or
/// cannot be read, that is the gap, where the cookie is looked for first.
pub proof fn missing_access_is_a_gap<'a>(t: TapeView<'a>, db: Handle, id: UserId)
    ensures
        ({
            let x = ask::<Option<Vec<u8>>>(t, QueryView::Db(db, DbView::Var(Var::UserCookie)));
            let y = ask::<Option<Vec<u8>>>(
                x.tape,
                QueryView::Db(db, DbView::Var(Var::AccessToken)),
            );
            let r = stored_access_run(t, db, id);
            let cookie = match x.out {
                Ok(Some(b)) => blob_cookie(b@),
                _ => None,
            };
            let token = match y.out {
                Ok(Some(b)) => blob_text(b@),
                _ => None,
            };
            match (x.out, cookie, y.out, token) {
                (Err(_), _, _, _) => ends_as(r, x),
                (Ok(_), None, _, _) => has_this_gap(r, x.tape, id, Gap::Cookie),
                (Ok(_), Some(_), Err(_), _) => ends_as(r, y),
                (Ok(_), Some(_), Ok(_), None) => has_this_gap(r, y.tape, id, Gap::AccessToken),
                (Ok(_), Some(cookie), Ok(_), Some(token)) => r.tape == y.tape && r.out == Ok::<
                    (Seq<char>, Seq<char>),
                    StopView<'a>,
                >((cookie, token)),
            }
        }),
{
}

/// How a profile is read. The directory for assets is made and the database is opened; then the
/// user, the device and the access are read; then the box of keys is opened; and the stored
/// credentials are taken up last, as ones that have expired. The device is not fresh.
pub proof fn profile_is_read_in_order<'a>(c: Config, t: TapeView<'a>, id: UserId, given: Handle)
    ensures
        ({
            let x1 = mk_assets_dir_run(c, t, id);
            let x2 = open_database_run(c, x1.tape, id);
            let r = profile_run(c, t, id);
            match (x1.out, x2.out) {
                (Err(_), _) => ends_as(r, x1),
                (Ok(_), Err(_)) => ends_as(r, x2),
                (Ok(assets), Ok(db)) => {
                    let x3 = stored_user_run(x2.tape, db, id);
                    let x4 = stored_client_run(x3.tape, db, id);
                    let x5 = stored_access_run(x4.tape, db, id);
                    let x6 = open_cryptobox_run(c, x5.tape, id);
                    match (x3.out, x4.out, x5.out, x6.out) {
                        (Err(_), _, _, _) => ends_as(r, x3),
                        (Ok(_), Err(_), _, _) => ends_as(r, x4),
                        (Ok(_), Ok(_), Err(_), _) => ends_as(r, x5),
                        (Ok(_), Ok(_), Ok(_), Err(_)) => ends_as(r, x6),
                        (Ok(user), Ok(client), Ok((cookie, token)), Ok(cbox)) => {
                            &&& r.out matches Ok(data) ==> hears(
                                x6.tape,
                                r.tape,
                                seq![
                                    qa(
                                        QueryView::HoldStored { token, cookie, valid_for: 0 },
                                        Reply::Handle(data.creds),
                                    ),
                                ],
                            ) && data.user == user && data.dbase == db && data.assets == assets
                                && !data.device.fresh && data.device.client == client
                                && data.device.cbox == cbox
                            &&& answers(x6.tape, seq![Reply::Handle(given)]) ==> r.out is Ok
                        },
                    }
                },
            }
        }),
{
    let x1 = mk_assets_dir_run(c, t, id);
    let x2 = open_database_run(c, x1.tape, id);
    if let (Ok(assets), Ok(db)) = (x1.out, x2.out) {
        credentials_are_taken_up_last(c, x2.tape, id, db, assets, given);
    }
}

proof fn credentials_are_taken_up_last<'a>(
    c: Config,
    t: TapeView<'a>,
    id: UserId,
    db: Handle,
    assets: Place,
    given: Handle,
)
    ensures
        ({
            let r = read_profile_run(c, t, id, db, assets);
            let x3 = stored_user_run(t, db, id);
            let x4 = stored_client_run(x3.tape, db, id);
            let x5 = stored_access_run(x4.tape, db, id);
            let x6 = open_cryptobox_run(c, x5.tape, id);
            match (x3.out, x4.out, x5.out, x6.out) {
                (Err(_), _, _, _) => ends_as(r, x3),
                (Ok(_), Err(_), _, _) => ends_as(r, x4),
                (Ok(_), Ok(_), Err(_), _) => ends_as(r, x5),
                (Ok(_), Ok(_), Ok(_), Err(_)) => ends_as(r, x6),
                (Ok(user), Ok(client), Ok((cookie, token)), Ok(cbox)) => {
                    &&& r.out matches Ok(data) ==> hears(
                        x6.tape,
                        r.tape,
                        seq![
                            qa(
                                QueryView::HoldStored { token, cookie, valid_for: 0 },
                                Reply::Handle(data.creds),
                            ),
                        ],
                    ) && data.user == user && data.dbase == db && data.assets == assets
                        && !data.device.fresh && data.device.client == client && data.device.cbox
                        == cbox
                    &&& answers(x6.tape, seq![Reply::Handle(given)]) ==> r.out is Ok
                },
            }
        }),
{
    let r = read_profile_run(c, t, id, db, assets);
    let x3 = stored_user_run(t, db, id);
    let x4 = stored_client_run(x3.tape, db, id);
    let x5 = stored_access_run(x4.tape, db, id);
    let x6 = open_cryptobox_run(c, x5.tape, id);
    if let (Ok(user), Ok(client), Ok((cookie, token)), Ok(cbox)) = (
        x3.out,
        x4.out,
        x5.out,
        x6.out,
    ) {
        if let Ok(data) = r.out {
            assert(said(x6.tape, r.tape) =~= seq![
                qa(
                    QueryView::HoldStored { token, cookie, valid_for: 0 },
                    Reply::Handle(data.creds),
                ),
            ]);
        }
        look_ahead(x6.tape, seq![Reply::Handle(given)]);
    }
}

/// A second actor for the same user has a database and a connection of its own, and shares all the
/// rest.
pub proof fn second_actor_has_its_own_connection<'a>(a: &'a Actor<Online>, t: TapeView<'a>)
    ensures
        ({
            let x = open_database_run(a.config, t, a.state.user.user.id);
            let y = connect_again_run(a, x.tape);
            let r = clone_run(a, t);
            match (x.out, y.out) {
                (Err(_), _) => ends_as(r, x),
                (Ok(_), Err(_)) => ends_as(r, y),
                (Ok(db), Ok(client)) => r.tape == y.tape && (r.out matches Ok(b) && b.config
                    == a.config && b.state.user.dbase == db && b.state.client == client
                    && b.state.bcast == a.state.bcast && b.state.user.user == a.state.user.user
                    && b.state.user.creds == a.state.user.creds && b.state.user.device
                    == a.state.user.device && b.state.user.assets == a.state.user.assets),
            }
        }),
        match clone_run(a, t).out {
            Ok(b) => new_inbox_run(a, t).tape == clone_run(a, t).tape && (new_inbox_run(
                a,
                t,
            ).out matches Ok(i) && i.actor == b),
            Err(_) => ends_as(new_inbox_run(a, t), clone_run(a, t)),
        },
{
}

} // verus!
