//! What is kept on disk: directories, databases, and the variables in them.
use crate::actor::Actor;
use crate::model::{ClientId, Complaint, Config, Error, Handle, Leaf, Place, UserId, Var};
use crate::query::{Db, DbView, Disk, Query, QueryView};
use crate::tape::{ask, done, fail, grown, steady, told, told_as, Run, Stop, Tape, TapeView};
use crate::text::{
    blob_cookie, blob_text, cookie_text, stored_cookie, stored_text, stored_text_reads_back, Cookie,
};
use vstd::prelude::*;
use vstd::utf8::encode_utf8;

verus! {

// ---- Variables ------------------------------------------------------------------------------

/// The text of an id that may be there.
pub open spec fn id_text(x: Option<ClientId>) -> Option<Seq<char>> {
    match x {
        Some(x) => Some(x@),
        None => None,
    }
}

/// The text of a string that may be there.
pub open spec fn string_text(x: Option<String>) -> Option<Seq<char>> {
    match x {
        Some(x) => Some(x@),
        None => None,
    }
}

/// The text of a cookie that may be there.
pub open spec fn header_text(x: Option<Cookie>) -> Option<Seq<char>> {
    match x {
        Some(x) => Some(x@),
        None => None,
    }
}

/// What a variable holds, read as text; one that is not text counts as not there.
pub open spec fn as_text(blob: Option<Vec<u8>>) -> Option<Seq<char>> {
    match blob {
        Some(b) => blob_text(b@),
        None => None,
    }
}

/// What a variable holds, read as a cookie; one that cannot be parsed counts as not there.
pub open spec fn as_cookie(blob: Option<Vec<u8>>) -> Option<Seq<char>> {
    match blob {
        Some(b) => blob_cookie(b@),
        None => None,
    }
}

/// Reads our own device's id.
pub open spec fn my_client_id_run<'a>(t: TapeView<'a>, db: Handle) -> Run<'a, Option<Seq<char>>> {
    ask::<Option<Vec<u8>>>(t, QueryView::Db(db, DbView::Var(Var::MyClientId))).and_then(
        |t: TapeView<'a>, blob: Option<Vec<u8>>| done(t, as_text(blob)),
    )
}

/// Reads the access token.
pub open spec fn access_token_run<'a>(t: TapeView<'a>, db: Handle) -> Run<'a, Option<Seq<char>>> {
    ask::<Option<Vec<u8>>>(t, QueryView::Db(db, DbView::Var(Var::AccessToken))).and_then(
        |t: TapeView<'a>, blob: Option<Vec<u8>>| done(t, as_text(blob)),
    )
}

/// Reads the cookie.
pub open spec fn cookie_run<'a>(t: TapeView<'a>, db: Handle) -> Run<'a, Option<Seq<char>>> {
    ask::<Option<Vec<u8>>>(t, QueryView::Db(db, DbView::Var(Var::UserCookie))).and_then(
        |t: TapeView<'a>, blob: Option<Vec<u8>>| done(t, as_cookie(blob)),
    )
}

/// Stores a variable.
pub open spec fn set_var_run<'a>(t: TapeView<'a>, db: Handle, v: Var, text: Seq<char>) -> Run<
    'a,
    (),
> {
    ask::<()>(t, QueryView::Db(db, DbView::SetVar(v, text)))
}

/// Reads our own device's id.
pub fn my_client_id<'a>(tape: &mut Tape<'a>, db: Handle) -> (r: Result<Option<ClientId>, Stop<'a>>)
    ensures
        told_as(final(tape)@, r, |x: Option<ClientId>| id_text(x)) == my_client_id_run(
            old(tape)@,
            db,
        ),
{
    let blob: &'a Option<Vec<u8>> = tape.ask(Query::Db(db, Db::Var(Var::MyClientId)))?;
    match blob {
        Some(b) => match stored_text(b) {
            Some(s) => Ok(Some(ClientId::new(s))),
            None => Ok(None),
        },
        None => Ok(None),
    }
}

/// Stores our own device's id.
pub fn set_my_client_id<'a>(tape: &mut Tape<'a>, db: Handle, id: &ClientId) -> (r: Result<
    (),
    Stop<'a>,
>)
    ensures
        told(final(tape)@, r) == set_var_run(old(tape)@, db, Var::MyClientId, id@),
{
    tape.ask::<()>(Query::Db(db, Db::SetVar(Var::MyClientId, id.as_str().to_owned())))?;
    Ok(())
}

/// Reads the cookie.
pub fn cookie<'a>(tape: &mut Tape<'a>, db: Handle) -> (r: Result<Option<Cookie>, Stop<'a>>)
    ensures
        told_as(final(tape)@, r, |x: Option<Cookie>| header_text(x)) == cookie_run(old(tape)@, db),
{
    let blob: &'a Option<Vec<u8>> = tape.ask(Query::Db(db, Db::Var(Var::UserCookie)))?;
    match blob {
        Some(b) => Ok(stored_cookie(b)),
        None => Ok(None),
    }
}

/// Stores the cookie, in a form that can be parsed again.
pub fn set_cookie<'a>(tape: &mut Tape<'a>, db: Handle, c: &Cookie) -> (r: Result<(), Stop<'a>>)
    ensures
        told(final(tape)@, r) == set_var_run(old(tape)@, db, Var::UserCookie, c@),
        cookie_text(c@) is Some,
{
    tape.ask::<()>(Query::Db(db, Db::SetVar(Var::UserCookie, c.text().to_owned())))?;
    Ok(())
}

/// Reads the access token.
pub fn access_token<'a>(tape: &mut Tape<'a>, db: Handle) -> (r: Result<Option<String>, Stop<'a>>)
    ensures
        told_as(final(tape)@, r, |x: Option<String>| string_text(x)) == access_token_run(
            old(tape)@,
            db,
        ),
{
    let blob: &'a Option<Vec<u8>> = tape.ask(Query::Db(db, Db::Var(Var::AccessToken)))?;
    match blob {
        Some(b) => Ok(stored_text(b)),
        None => Ok(None),
    }
}

/// Stores the access token.
pub fn set_access_token<'a>(tape: &mut Tape<'a>, db: Handle, token: &String) -> (r: Result<
    (),
    Stop<'a>,
>)
    ensures
        told(final(tape)@, r) == set_var_run(old(tape)@, db, Var::AccessToken, token@),
{
    tape.ask::<()>(Query::Db(db, Db::SetVar(Var::AccessToken, token.clone())))?;
    Ok(())
}

/// A variable that was stored as text is read back unchanged; one that is not there is read as not
/// there.
pub proof fn stored_variable_reads_back(text: Seq<char>, blob: Vec<u8>)
    requires
        blob@ == encode_utf8(text),
    ensures
        as_text(Some(blob)) == Some(text),
        as_text(None) is None,
        as_cookie(Some(blob)) == cookie_text(text),
        as_cookie(None) is None,
{
    stored_text_reads_back(text);
}

// ---- Places ---------------------------------------------------------------------------------

/// A user's part of the data directory.
pub open spec fn place_of(c: Config, user: UserId, leaf: Leaf) -> Place {
    Place { root: c.data_root, user, leaf }
}

/// Creates a directory if it does not exist.
pub open spec fn ensure_dir_run<'a>(t: TapeView<'a>, p: Place) -> Run<'a, ()> {
    ask::<bool>(t, QueryView::Disk(Disk::Exists(p))).and_then(
        |t: TapeView<'a>, exists: bool|
            if exists {
                done(t, ())
            } else {
                ask::<()>(t, QueryView::Disk(Disk::CreateDir(p)))
            },
    )
}

/// Opens a user's box of keys and sessions, in a directory that is created if need be.
pub open spec fn open_cryptobox_run<'a>(c: Config, t: TapeView<'a>, user: UserId) -> Run<
    'a,
    Handle,
> {
    let p = place_of(c, user, Leaf::CryptoBox);
    ensure_dir_run(t, p).and_then(
        |t: TapeView<'a>, _x: ()| ask::<Handle>(t, QueryView::Disk(Disk::OpenCryptoBox(p))),
    )
}

/// Opens a user's database, in a directory that is created if need be, and sets up its schema.
pub open spec fn open_database_run<'a>(c: Config, t: TapeView<'a>, user: UserId) -> Run<
    'a,
    Handle,
> {
    let p = place_of(c, user, Leaf::Database);
    ensure_dir_run(t, place_of(c, user, Leaf::Home)).and_then(
        |t: TapeView<'a>, _x: ()|
            ask::<bool>(t, QueryView::Disk(Disk::IsText(p))).and_then(
                |t: TapeView<'a>, text: bool|
                    if text {
                        ask::<Handle>(t, QueryView::Disk(Disk::OpenDatabase(p))).and_then(
                            |t: TapeView<'a>, db: Handle|
                                ask::<()>(t, QueryView::Disk(Disk::SetupSchema(db))).and_then(
                                    |t: TapeView<'a>, _x: ()| done(t, db),
                                ),
                        )
                    } else {
                        fail(t, Error::Message(Complaint::RootNotUtf8))
                    },
            ),
    )
}

/// Finds a user's directory of assets, which is created if need be.
pub open spec fn mk_assets_dir_run<'a>(c: Config, t: TapeView<'a>, user: UserId) -> Run<'a, Place> {
    let p = place_of(c, user, Leaf::Assets);
    ensure_dir_run(t, p).and_then(|t: TapeView<'a>, _x: ()| done(t, p))
}

/// [`open_cryptobox_run`] is steady.
pub proof fn open_cryptobox_is_steady<'a>(
    c: Config,
    t: TapeView<'a>,
    u: TapeView<'a>,
    user: UserId,
)
    requires
        grown(t, u),
    ensures
        steady(t, u, open_cryptobox_run(c, t, user), open_cryptobox_run(c, u, user)),
{
}

/// [`open_database_run`] is steady.
#[verifier::rlimit(50)]
pub proof fn open_database_is_steady<'a>(
    c: Config,
    t: TapeView<'a>,
    u: TapeView<'a>,
    user: UserId,
)
    requires
        grown(t, u),
    ensures
        steady(t, u, open_database_run(c, t, user), open_database_run(c, u, user)),
{
}

/// [`mk_assets_dir_run`] is steady.
pub proof fn mk_assets_dir_is_steady<'a>(
    c: Config,
    t: TapeView<'a>,
    u: TapeView<'a>,
    user: UserId,
)
    requires
        grown(t, u),
    ensures
        steady(t, u, mk_assets_dir_run(c, t, user), mk_assets_dir_run(c, u, user)),
{
}

/// Creates a directory if it does not exist.
fn ensure_dir<'a>(tape: &mut Tape<'a>, p: &Place) -> (r: Result<(), Stop<'a>>)
    ensures
        told(final(tape)@, r) == ensure_dir_run(old(tape)@, *p),
{
    let exists: &'a bool = tape.ask(Query::Disk(Disk::Exists(p.clone())))?;
    if !*exists {
        tape.ask::<()>(Query::Disk(Disk::CreateDir(p.clone())))?;
    }
    Ok(())
}

impl<S> Actor<S> {
    /// A user's part of the data directory.
    pub fn place(&self, user: UserId, leaf: Leaf) -> (r: Place)
        ensures
            r == place_of(self.config, user, leaf),
    {
        Place { root: self.config.data_root.clone(), user, leaf }
    }

    /// Opens a user's box of keys and sessions.
    pub fn open_cryptobox<'a>(&self, tape: &mut Tape<'a>, user: UserId) -> (r: Result<
        Handle,
        Stop<'a>,
    >)
        ensures
            told(final(tape)@, r) == open_cryptobox_run(self.config, old(tape)@, user),
    {
        let p = self.place(user, Leaf::CryptoBox);
        ensure_dir(tape, &p)?;
        let cbox: &'a Handle = tape.ask(Query::Disk(Disk::OpenCryptoBox(p)))?;
        Ok(*cbox)
    }

    /// Opens a user's database.
    pub fn open_database<'a>(&self, tape: &mut Tape<'a>, user: UserId) -> (r: Result<
        Handle,
        Stop<'a>,
    >)
        ensures
            told(final(tape)@, r) == open_database_run(self.config, old(tape)@, user),
    {
        let home = self.place(user, Leaf::Home);
        ensure_dir(tape, &home)?;
        let p = self.place(user, Leaf::Database);
        let text: &'a bool = tape.ask(Query::Disk(Disk::IsText(p.clone())))?;
        if !*text {
            return Err(Stop::Fail(Error::Message(Complaint::RootNotUtf8)));
        }
        let db: &'a Handle = tape.ask(Query::Disk(Disk::OpenDatabase(p)))?;
        tape.ask::<()>(Query::Disk(Disk::SetupSchema(*db)))?;
        Ok(*db)
    }

    /// Finds a user's directory of assets.
    pub fn mk_assets_dir<'a>(&self, tape: &mut Tape<'a>, user: UserId) -> (r: Result<
        Place,
        Stop<'a>,
    >)
        ensures
            told(final(tape)@, r) == mk_assets_dir_run(self.config, old(tape)@, user),
    {
        let p = self.place(user, Leaf::Assets);
        ensure_dir(tape, &p)?;
        Ok(p)
    }
}

} // verus!
