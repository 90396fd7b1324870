//! What an operation can ask of the driver.
//!
//! Each question stands beside its mathematical form, in which text that an operation put together
//! is a sequence of characters and a list is a sequence.
use crate::model::{
    ApiClient, ApiConversation, ApiUser, AssetKey, ClientId, ClientMismatch, ConnectStatus,
    Connection, ConvId, Conversation, Credentials, Envelope, Error, Handle, Member, NewAccess,
    NotifId, OtrMessage, OutMessage, Place, Time, User, UserConnection, UserId, Var,
};
use vstd::prelude::*;

verus! {

/// A conversation as it goes into the database.
#[derive(Clone, Copy, Debug)]
pub enum Roster<'a> {
    /// With everyone who ever joined it.
    Whole(&'a ApiConversation),
    /// With its current members only.
    Current(&'a ApiConversation),
    /// One that we have just created.
    Own { id: ConvId, creator: UserId, name: &'a str, others: &'a Vec<UserId> },
}

/// The users among the members who have not left.
pub open spec fn current_ids(members: Seq<Member>) -> Seq<UserId>
    decreases members.len(),
{
    if members.len() == 0 {
        Seq::empty()
    } else {
        let before = current_ids(members.drop_last());
        if members.last().current {
            before.push(members.last().id)
        } else {
            before
        }
    }
}

/// The users among the members.
pub open spec fn all_ids(members: Seq<Member>) -> Seq<UserId> {
    members.map_values(|m: Member| m.id)
}

/// Of the members, those who have not left stay, and nobody else.
pub proof fn current_ids_are_those_who_stayed(members: Seq<Member>, id: UserId)
    ensures
        current_ids(members).contains(id) <==> exists|i: int|
            0 <= i < members.len() && (#[trigger] members[i]).current && members[i].id == id,
    decreases members.len(),
{
    if members.len() > 0 {
        let before = members.drop_last();
        let last = members.last();
        current_ids_are_those_who_stayed(before, id);
        let ids = current_ids(before);
        if current_ids(members).contains(id) {
            if ids.contains(id) {
                let i = choose|i: int|
                    0 <= i < before.len() && (#[trigger] before[i]).current && before[i].id == id;
                assert(members[i] == before[i]);
            } else {
                let k = choose|k: int|
                    0 <= k < current_ids(members).len() && current_ids(members)[k] == id;
                assert(last.current);
                if k < ids.len() {
                    assert(ids[k] == id);
                }
                assert(members[members.len() - 1] == last);
            }
        }
        if exists|i: int|
            0 <= i < members.len() && (#[trigger] members[i]).current && members[i].id == id {
            let i = choose|i: int|
                0 <= i < members.len() && (#[trigger] members[i]).current && members[i].id == id;
            if i < before.len() {
                assert(before[i] == members[i]);
                let k = choose|k: int| 0 <= k < ids.len() && ids[k] == id;
                assert(current_ids(members)[k] == id);
            } else {
                assert(current_ids(members).last() == id);
            }
        }
    }
}

impl<'a> Roster<'a> {
    pub open spec fn member_ids(self) -> Seq<UserId> {
        match self {
            Roster::Whole(c) => all_ids(c.others@),
            Roster::Current(c) => current_ids(c.others@),
            Roster::Own { others, .. } => others@,
        }
    }

    /// The members besides us.
    pub fn members(&self) -> (r: Vec<UserId>)
        ensures
            r@ == self.member_ids(),
    {
        let mut r: Vec<UserId> = Vec::new();
        match self {
            Roster::Whole(c) => {
                let mut i: usize = 0;
                while i < c.others.len()
                    invariant
                        i <= c.others.len(),
                        r@ == all_ids(c.others@.take(i as int)),
                    decreases c.others.len() - i,
                {
                    r.push(c.others[i].id);
                    i = i + 1;
                    assert(c.others@.take(i as int).drop_last() =~= c.others@.take(i - 1));
                    assert(r@ =~= all_ids(c.others@.take(i as int)));
                }
                assert(c.others@.take(i as int) =~= c.others@);
            },
            Roster::Current(c) => {
                let mut i: usize = 0;
                while i < c.others.len()
                    invariant
                        i <= c.others.len(),
                        r@ == current_ids(c.others@.take(i as int)),
                    decreases c.others.len() - i,
                {
                    if c.others[i].current {
                        r.push(c.others[i].id);
                    }
                    i = i + 1;
                    assert(c.others@.take(i as int).drop_last() =~= c.others@.take(i - 1));
                }
                assert(c.others@.take(i as int) =~= c.others@);
            },
            Roster::Own { others, .. } => {
                let mut i: usize = 0;
                while i < others.len()
                    invariant
                        i <= others.len(),
                        r@ =~= others@.take(i as int),
                    decreases others.len() - i,
                {
                    r.push(others[i]);
                    i = i + 1;
                }
                assert(others@.take(i as int) =~= others@);
            },
        }
        r
    }
}

/// A text message for the database.
#[derive(Clone, Copy, Debug)]
pub struct NewText<'a> {
    pub id: &'a String,
    pub conv: ConvId,
    pub time: Time,
    pub from: UserId,
    pub client: &'a ClientId,
    pub text: &'a String,
    /// Came from somebody else; else it is one of ours.
    pub received: bool,
}

/// Asks the database.
#[derive(Debug)]
pub enum Db<'a> {
    User(UserId),
    InsertUser(&'a ApiUser),
    Client(UserId, ClientId),
    Clients(UserId),
    InsertClient(UserId, &'a ApiClient),
    InsertClients(UserId, &'a Vec<ApiClient>),
    Conversation(ConvId),
    InsertConversation(Time, Roster<'a>),
    InsertMember(ConvId, UserId),
    Connection(UserId),
    InsertConnection(&'a UserConnection),
    UpdateConnection(UserId, ConnectStatus),
    InsertText(NewText<'a>),
    /// A message, under a random id, that says that a user has joined.
    InsertJoined { conv: ConvId, time: Time, user: UserId },
    /// Marks a message as sent.
    MessageSent(ConvId, &'a String),
    MessageTime(ConvId, &'a String, Time),
    ConvTime(ConvId, i64),
    Enqueue { id: &'a Vec<u8>, conv: ConvId, data: &'a Vec<u8>, mesg: &'a Vec<u8> },
    Dequeue(&'a Vec<u8>, ConvId),
    QueueItems(Option<Handle>, usize),
    Conversations(Option<Handle>, usize),
    Messages(ConvId, Option<Handle>, usize),
    Connections,
    LastNotification,
    SetLastNotification(NotifId),
    HasNotification(NotifId),
    InsertNotification(NotifId),
    Var(Var),
    /// Stores a variable: the text's UTF-8 bytes.
    SetVar(Var, String),
}

/// The mathematical form of [`Db`].
pub enum DbView<'a> {
    User(UserId),
    InsertUser(&'a ApiUser),
    Client(UserId, Seq<char>),
    Clients(UserId),
    InsertClient(UserId, &'a ApiClient),
    InsertClients(UserId, &'a Vec<ApiClient>),
    Conversation(ConvId),
    InsertConversation(Time, Roster<'a>),
    InsertMember(ConvId, UserId),
    Connection(UserId),
    InsertConnection(&'a UserConnection),
    UpdateConnection(UserId, ConnectStatus),
    InsertText(NewText<'a>),
    InsertJoined { conv: ConvId, time: Time, user: UserId },
    MessageSent(ConvId, &'a String),
    MessageTime(ConvId, &'a String, Time),
    ConvTime(ConvId, i64),
    Enqueue { id: &'a Vec<u8>, conv: ConvId, data: &'a Vec<u8>, mesg: &'a Vec<u8> },
    Dequeue(&'a Vec<u8>, ConvId),
    QueueItems(Option<Handle>, usize),
    Conversations(Option<Handle>, usize),
    Messages(ConvId, Option<Handle>, usize),
    Connections,
    LastNotification,
    SetLastNotification(NotifId),
    HasNotification(NotifId),
    InsertNotification(NotifId),
    Var(Var),
    SetVar(Var, Seq<char>),
}

impl<'a> View for Db<'a> {
    type V = DbView<'a>;

    open spec fn view(&self) -> DbView<'a> {
        match *self {
            Db::User(x) => DbView::User(x),
            Db::InsertUser(x) => DbView::InsertUser(x),
            Db::Client(x, y) => DbView::Client(x, y@),
            Db::Clients(x) => DbView::Clients(x),
            Db::InsertClient(x, y) => DbView::InsertClient(x, y),
            Db::InsertClients(x, y) => DbView::InsertClients(x, y),
            Db::Conversation(x) => DbView::Conversation(x),
            Db::InsertConversation(x, y) => DbView::InsertConversation(x, y),
            Db::InsertMember(x, y) => DbView::InsertMember(x, y),
            Db::Connection(x) => DbView::Connection(x),
            Db::InsertConnection(x) => DbView::InsertConnection(x),
            Db::UpdateConnection(x, y) => DbView::UpdateConnection(x, y),
            Db::InsertText(x) => DbView::InsertText(x),
            Db::InsertJoined { conv, time, user } => DbView::InsertJoined { conv, time, user },
            Db::MessageSent(x, y) => DbView::MessageSent(x, y),
            Db::MessageTime(x, y, z) => DbView::MessageTime(x, y, z),
            Db::ConvTime(x, y) => DbView::ConvTime(x, y),
            Db::Enqueue { id, conv, data, mesg } => DbView::Enqueue { id, conv, data, mesg },
            Db::Dequeue(x, y) => DbView::Dequeue(x, y),
            Db::QueueItems(x, y) => DbView::QueueItems(x, y),
            Db::Conversations(x, y) => DbView::Conversations(x, y),
            Db::Messages(x, y, z) => DbView::Messages(x, y, z),
            Db::Connections => DbView::Connections,
            Db::LastNotification => DbView::LastNotification,
            Db::SetLastNotification(x) => DbView::SetLastNotification(x),
            Db::HasNotification(x) => DbView::HasNotification(x),
            Db::InsertNotification(x) => DbView::InsertNotification(x),
            Db::Var(x) => DbView::Var(x),
            Db::SetVar(x, y) => DbView::SetVar(x, y@),
        }
    }
}

/// How long a device is meant to be used.
#[derive(Clone, Copy, Debug, PartialEq, Eq, Structural)]
pub enum ClientType {
    Permanent,
    Temporary,
}

/// What sort of device it is.
#[derive(Clone, Copy, Debug, PartialEq, Eq, Structural)]
pub enum ClientClass {
    Phone,
    Tablet,
    Desktop,
}

/// What a new device is registered with.
#[derive(Debug)]
pub struct Enrolment {
    pub prekeys: Vec<Handle>,
    pub last_prekey: Handle,
    pub sig_keys: Handle,
    pub ctype: ClientType,
    pub class: ClientClass,
    pub label: Option<String>,
    pub cookie_label: String,
    pub model: String,
    /// The login parameters, whose password authorises the registration.
    pub login: Handle,
}

/// The mathematical form of [`Enrolment`].
pub struct EnrolmentView {
    pub prekeys: Seq<Handle>,
    pub last_prekey: Handle,
    pub sig_keys: Handle,
    pub ctype: ClientType,
    pub class: ClientClass,
    pub label: Option<Seq<char>>,
    pub cookie_label: Seq<char>,
    pub model: Seq<char>,
    pub login: Handle,
}

impl View for Enrolment {
    type V = EnrolmentView;

    open spec fn view(&self) -> EnrolmentView {
        EnrolmentView {
            prekeys: self.prekeys@,
            last_prekey: self.last_prekey,
            sig_keys: self.sig_keys,
            ctype: self.ctype,
            class: self.class,
            label: match self.label {
                Some(label) => Some(label@),
                None => None,
            },
            cookie_label: self.cookie_label@,
            model: self.model@,
            login: self.login,
        }
    }
}

impl Clone for Enrolment {
    fn clone(&self) -> (r: Self)
        ensures
            r@ == self@,
    {
        let mut prekeys: Vec<Handle> = Vec::new();
        let mut i: usize = 0;
        while i < self.prekeys.len()
            invariant
                i <= self.prekeys.len(),
                prekeys@ =~= self.prekeys@.take(i as int),
            decreases self.prekeys.len() - i,
        {
            prekeys.push(self.prekeys[i]);
            i = i + 1;
        }
        assert(self.prekeys@.take(i as int) =~= self.prekeys@);
        Enrolment {
            prekeys,
            last_prekey: self.last_prekey,
            sig_keys: self.sig_keys,
            ctype: self.ctype,
            class: self.class,
            label: match &self.label {
                Some(label) => Some(label.clone()),
                None => None,
            },
            cookie_label: self.cookie_label.clone(),
            model: self.model.clone(),
            login: self.login,
        }
    }
}

/// Asks the back-end.
#[derive(Debug)]
pub enum Api<'a> {
    Reconnect,
    /// Seconds.
    ReadTimeout(u64),
    /// Seconds.
    WriteTimeout(u64),
    RegisterUser(Handle),
    Login(Handle),
    SelfUser(&'a Credentials),
    SelfClient(ClientId, &'a Credentials),
    RegisterClient(Enrolment, &'a Credentials),
    RenewAccess,
    User(UserId),
    Client(UserId, ClientId),
    Clients(UserId),
    Conversation(ConvId),
    /// A page of at most so many ids that come after the given one.
    Conversations(usize, Option<ConvId>),
    CreateConversation { name: &'a str, others: &'a Vec<UserId> },
    Connection(UserId),
    /// A page of at most so many connections that come after the one to the given user.
    Connections(usize, Option<UserId>),
    Connect { to: UserId, name: &'a str, message: &'a str },
    SetConnectStatus(UserId, ConnectStatus),
    Send(Envelope),
    /// The prekeys of the devices that a mismatch reports missing.
    Prekeys(&'a ClientMismatch),
    LastNotification,
    /// Starts reading notifications for a device, after the given one.
    OpenStream(ClientId, Option<NotifId>),
    NextItem,
    HasMore,
    CloseStream,
    AssetUrl(&'a AssetKey),
    /// Sends the request for an asset, and yields the response status.
    Download { url: &'a String, host: String },
}

/// The mathematical form of [`Api`].
pub enum ApiView<'a> {
    Reconnect,
    ReadTimeout(u64),
    WriteTimeout(u64),
    RegisterUser(Handle),
    Login(Handle),
    SelfUser(&'a Credentials),
    SelfClient(Seq<char>, &'a Credentials),
    RegisterClient(EnrolmentView, &'a Credentials),
    RenewAccess,
    User(UserId),
    Client(UserId, Seq<char>),
    Clients(UserId),
    Conversation(ConvId),
    Conversations(usize, Option<ConvId>),
    CreateConversation { name: &'a str, others: &'a Vec<UserId> },
    Connection(UserId),
    Connections(usize, Option<UserId>),
    Connect { to: UserId, name: &'a str, message: &'a str },
    SetConnectStatus(UserId, ConnectStatus),
    Send(Envelope),
    Prekeys(&'a ClientMismatch),
    LastNotification,
    OpenStream(Seq<char>, Option<NotifId>),
    NextItem,
    HasMore,
    CloseStream,
    AssetUrl(&'a AssetKey),
    Download { url: &'a String, host: Seq<char> },
}

impl<'a> View for Api<'a> {
    type V = ApiView<'a>;

    open spec fn view(&self) -> ApiView<'a> {
        match *self {
            Api::Reconnect => ApiView::Reconnect,
            Api::ReadTimeout(x) => ApiView::ReadTimeout(x),
            Api::WriteTimeout(x) => ApiView::WriteTimeout(x),
            Api::RegisterUser(x) => ApiView::RegisterUser(x),
            Api::Login(x) => ApiView::Login(x),
            Api::SelfUser(x) => ApiView::SelfUser(x),
            Api::SelfClient(x, y) => ApiView::SelfClient(x@, y),
            Api::RegisterClient(x, y) => ApiView::RegisterClient(x@, y),
            Api::RenewAccess => ApiView::RenewAccess,
            Api::User(x) => ApiView::User(x),
            Api::Client(x, y) => ApiView::Client(x, y@),
            Api::Clients(x) => ApiView::Clients(x),
            Api::Conversation(x) => ApiView::Conversation(x),
            Api::Conversations(x, y) => ApiView::Conversations(x, y),
            Api::CreateConversation { name, others } => ApiView::CreateConversation {
                name,
                others,
            },
            Api::Connection(x) => ApiView::Connection(x),
            Api::Connections(x, y) => ApiView::Connections(x, y),
            Api::Connect { to, name, message } => ApiView::Connect { to, name, message },
            Api::SetConnectStatus(x, y) => ApiView::SetConnectStatus(x, y),
            Api::Send(x) => ApiView::Send(x),
            Api::Prekeys(x) => ApiView::Prekeys(x),
            Api::LastNotification => ApiView::LastNotification,
            Api::OpenStream(x, y) => ApiView::OpenStream(x@, y),
            Api::NextItem => ApiView::NextItem,
            Api::HasMore => ApiView::HasMore,
            Api::CloseStream => ApiView::CloseStream,
            Api::AssetUrl(x) => ApiView::AssetUrl(x),
            Api::Download { url, host } => ApiView::Download { url, host: host@ },
        }
    }
}

impl<'a> Clone for Api<'a> {
    fn clone(&self) -> (r: Self)
        ensures
            r@ == self@,
    {
        match self {
            Api::Reconnect => Api::Reconnect,
            Api::ReadTimeout(x) => Api::ReadTimeout(*x),
            Api::WriteTimeout(x) => Api::WriteTimeout(*x),
            Api::RegisterUser(x) => Api::RegisterUser(*x),
            Api::Login(x) => Api::Login(*x),
            Api::SelfUser(x) => Api::SelfUser(x),
            Api::SelfClient(x, y) => Api::SelfClient(x.clone(), y),
            Api::RegisterClient(x, y) => Api::RegisterClient(x.clone(), y),
            Api::RenewAccess => Api::RenewAccess,
            Api::User(x) => Api::User(*x),
            Api::Client(x, y) => Api::Client(*x, y.clone()),
            Api::Clients(x) => Api::Clients(*x),
            Api::Conversation(x) => Api::Conversation(*x),
            Api::Conversations(x, y) => Api::Conversations(*x, *y),
            Api::CreateConversation { name, others } => Api::CreateConversation { name, others },
            Api::Connection(x) => Api::Connection(*x),
            Api::Connections(x, y) => Api::Connections(*x, *y),
            Api::Connect { to, name, message } => Api::Connect { to: *to, name, message },
            Api::SetConnectStatus(x, y) => Api::SetConnectStatus(*x, *y),
            Api::Send(x) => Api::Send(*x),
            Api::Prekeys(x) => Api::Prekeys(x),
            Api::LastNotification => Api::LastNotification,
            Api::OpenStream(x, y) => Api::OpenStream(x.clone(), *y),
            Api::NextItem => Api::NextItem,
            Api::HasMore => Api::HasMore,
            Api::CloseStream => Api::CloseStream,
            Api::AssetUrl(x) => Api::AssetUrl(x),
            Api::Download { url, host } => Api::Download { url, host: host.clone() },
        }
    }
}

/// Asks the box that keeps our keys and sessions.
#[derive(Debug)]
pub enum Crypt<'a> {
    NewPrekey(u16),
    Fingerprint,
    Session(UserId, ClientId),
    SessionFromPrekey(UserId, ClientId, Handle),
    SaveSession(Handle),
    /// Encrypts for a device and adds the ciphertext to the envelope.
    Encrypt {
        session: Handle,
        user: UserId,
        client: ClientId,
        plain: &'a Vec<u8>,
        envelope: Envelope,
    },
    Decrypt(UserId, &'a OtrMessage),
}

/// The mathematical form of [`Crypt`].
pub enum CryptView<'a> {
    NewPrekey(u16),
    Fingerprint,
    Session(UserId, Seq<char>),
    SessionFromPrekey(UserId, Seq<char>, Handle),
    SaveSession(Handle),
    Encrypt {
        session: Handle,
        user: UserId,
        client: Seq<char>,
        plain: &'a Vec<u8>,
        envelope: Envelope,
    },
    Decrypt(UserId, &'a OtrMessage),
}

impl<'a> View for Crypt<'a> {
    type V = CryptView<'a>;

    open spec fn view(&self) -> CryptView<'a> {
        match *self {
            Crypt::NewPrekey(x) => CryptView::NewPrekey(x),
            Crypt::Fingerprint => CryptView::Fingerprint,
            Crypt::Session(x, y) => CryptView::Session(x, y@),
            Crypt::SessionFromPrekey(x, y, z) => CryptView::SessionFromPrekey(x, y@, z),
            Crypt::SaveSession(x) => CryptView::SaveSession(x),
            Crypt::Encrypt { session, user, client, plain, envelope } => CryptView::Encrypt {
                session,
                user,
                client: client@,
                plain,
                envelope,
            },
            Crypt::Decrypt(x, y) => CryptView::Decrypt(x, y),
        }
    }
}

/// Asks the file system.
#[derive(Debug)]
pub enum Disk<'a> {
    Exists(Place),
    CreateDir(Place),
    /// Is the path valid UTF-8?
    IsText(Place),
    OpenDatabase(Place),
    SetupSchema(Handle),
    OpenCryptoBox(Place),
    AssetExists(Place, &'a AssetKey),
    OpenAsset(Place, &'a AssetKey),
    /// Writes what is being downloaded beside the asset's own path, with the extension `tmp`.
    SaveDownload(Place, &'a AssetKey),
    /// Moves what was saved there to the asset's own path.
    PublishDownload(Place, &'a AssetKey),
    ReadAll(Handle),
}

/// Asks what the shared credentials are, or replaces them.
#[derive(Debug)]
pub enum Cred<'a> {
    /// Has the access token expired?
    Expired,
    /// Takes over the token, and the cookie where there is one.
    Replace(&'a NewAccess),
}

/// Asks for a message or an envelope in another form.
#[derive(Debug)]
pub enum Code<'a> {
    EncodeMessage(&'a OutMessage),
    EncodeEnvelope(Envelope),
    ParseMessage(&'a Vec<u8>),
    ParseEnvelope(&'a Vec<u8>),
}

/// Asks for a record in the form in which the database holds it.
#[derive(Debug)]
pub enum Convert<'a> {
    User(&'a ApiUser),
    Client(UserId, &'a ApiClient),
    Conversation(Time, Roster<'a>),
    Connection(&'a UserConnection),
}

/// A text message that has just come in.
#[derive(Clone, Copy, Debug)]
pub struct Incoming<'a> {
    pub id: &'a String,
    pub conv: ConvId,
    pub time: Time,
    pub user: &'a User,
    pub client: &'a ClientId,
    pub text: &'a String,
}

/// What is broadcast to whoever listens.
#[derive(Debug)]
pub enum Pkg<'a> {
    /// The message was sent at that time.
    MessageUpdate(ConvId, String, Time),
    Contact(&'a User, &'a Connection),
    Conversation(&'a Conversation),
    MembersAdd(Time, ConvId, Vec<&'a User>),
    Message(Incoming<'a>),
    Connected,
    Disconnected,
}

/// The mathematical form of [`Pkg`].
pub enum PkgView<'a> {
    MessageUpdate(ConvId, Seq<char>, Time),
    Contact(&'a User, &'a Connection),
    Conversation(&'a Conversation),
    MembersAdd(Time, ConvId, Seq<&'a User>),
    Message(Incoming<'a>),
    Connected,
    Disconnected,
}

impl<'a> View for Pkg<'a> {
    type V = PkgView<'a>;

    open spec fn view(&self) -> PkgView<'a> {
        match *self {
            Pkg::MessageUpdate(x, y, z) => PkgView::MessageUpdate(x, y@, z),
            Pkg::Contact(x, y) => PkgView::Contact(x, y),
            Pkg::Conversation(x) => PkgView::Conversation(x),
            Pkg::MembersAdd(x, y, z) => PkgView::MembersAdd(x, y, z@),
            Pkg::Message(x) => PkgView::Message(x),
            Pkg::Connected => PkgView::Connected,
            Pkg::Disconnected => PkgView::Disconnected,
        }
    }
}

/// A connection to the back-end, and the shared credentials whose token goes with each call.
#[derive(Clone, Copy, PartialEq, Eq, Structural, Debug)]
pub struct Link {
    pub client: Handle,
    pub creds: Option<Handle>,
}

/// A question to the driver.
#[derive(Debug)]
pub enum Query<'a> {
    Db(Handle, Db<'a>),
    Api(Link, Api<'a>),
    Crypt(Handle, Crypt<'a>),
    Disk(Disk<'a>),
    Cred(Handle, Cred<'a>),
    Code(Code<'a>),
    Convert(Convert<'a>),
    /// Connects to the back-end.
    Connect { url: String, domain: String },
    /// Opens the websocket that notifications come through.
    OpenSocket { url: String, domain: String, creds: Handle },
    /// Keeps what a login yielded as shared credentials.
    HoldFresh(&'a Credentials),
    /// Keeps a stored token and cookie as shared credentials, and for how many milliseconds the token
    /// counts as valid.
    HoldStored { token: String, cookie: String, valid_for: u64 },
    /// New signaling keys for a device.
    NewSignalingKeys,
    /// An empty envelope for a conversation, from one of our devices.
    NewEnvelope(ConvId, ClientId),
    Now,
    /// An attempt failed, after so many that had failed before: how is the next one to begin, if
    /// there is to be one?
    Recover { error: Error<'a>, failed: u64 },
    /// An attempt failed, after so many that had failed before: is there to be another, if `limit`
    /// attempts are allowed, `pause` seconds apart?
    TryAgain { error: Error<'a>, failed: u64, limit: u64, pause: u64 },
    /// Broadcasts on a channel.
    Publish(Handle, Pkg<'a>),
}

/// The mathematical form of [`Query`].
pub enum QueryView<'a> {
    Db(Handle, DbView<'a>),
    Api(Link, ApiView<'a>),
    Crypt(Handle, CryptView<'a>),
    Disk(Disk<'a>),
    Cred(Handle, Cred<'a>),
    Code(Code<'a>),
    Convert(Convert<'a>),
    Connect { url: Seq<char>, domain: Seq<char> },
    OpenSocket { url: Seq<char>, domain: Seq<char>, creds: Handle },
    HoldFresh(&'a Credentials),
    HoldStored { token: Seq<char>, cookie: Seq<char>, valid_for: u64 },
    NewSignalingKeys,
    NewEnvelope(ConvId, Seq<char>),
    Now,
    Recover { error: Error<'a>, failed: nat },
    TryAgain { error: Error<'a>, failed: nat, limit: u64, pause: u64 },
    Publish(Handle, PkgView<'a>),
}

impl<'a> View for Query<'a> {
    type V = QueryView<'a>;

    open spec fn view(&self) -> QueryView<'a> {
        match *self {
            Query::Db(x, y) => QueryView::Db(x, y@),
            Query::Api(x, y) => QueryView::Api(x, y@),
            Query::Crypt(x, y) => QueryView::Crypt(x, y@),
            Query::Disk(x) => QueryView::Disk(x),
            Query::Cred(x, y) => QueryView::Cred(x, y),
            Query::Code(x) => QueryView::Code(x),
            Query::Convert(x) => QueryView::Convert(x),
            Query::Connect { url, domain } => QueryView::Connect { url: url@, domain: domain@ },
            Query::OpenSocket { url, domain, creds } => QueryView::OpenSocket {
                url: url@,
                domain: domain@,
                creds,
            },
            Query::HoldFresh(x) => QueryView::HoldFresh(x),
            Query::HoldStored { token, cookie, valid_for } => QueryView::HoldStored {
                token: token@,
                cookie: cookie@,
                valid_for,
            },
            Query::NewSignalingKeys => QueryView::NewSignalingKeys,
            Query::NewEnvelope(x, y) => QueryView::NewEnvelope(x, y@),
            Query::Now => QueryView::Now,
            Query::Recover { error, failed } => QueryView::Recover {
                error,
                failed: failed as nat,
            },
            Query::TryAgain { error, failed, limit, pause } => QueryView::TryAgain {
                error,
                failed: failed as nat,
                limit,
                pause,
            },
            Query::Publish(x, y) => QueryView::Publish(x, y@),
        }
    }
}

} // verus!
