//! The records that the operations read and hand on.
//!
//! A record holds what a decision reads. Everything else that belongs to it stays with the driver,
//! under the record's [`Handle`].
use crate::text::Cookie;
use vstd::prelude::*;

verus! {

/// Names a value that the driver keeps: a connection, a database, a full record.
#[derive(Clone, Copy, PartialEq, Eq, Structural, Debug)]
pub struct Handle {
    pub n: u64,
}

/// The UUID of a user.
#[derive(Clone, Copy, PartialEq, Eq, Structural, Debug)]
pub struct UserId {
    pub id: u128,
}

/// The UUID of a conversation.
#[derive(Clone, Copy, PartialEq, Eq, Structural, Debug)]
pub struct ConvId {
    pub id: u128,
}

/// The UUID of a notification.
#[derive(Clone, Copy, PartialEq, Eq, Structural, Debug)]
pub struct NotifId {
    pub id: u128,
}

/// A point in time: seconds since 1970-01-01T00:00:00Z, and nanoseconds within that second.
#[derive(Clone, Copy, PartialEq, Eq, Structural, Debug)]
pub struct Time {
    pub secs: i64,
    pub nanos: u32,
}

impl Time {
    /// Whole seconds since the epoch.
    pub fn timestamp(&self) -> (secs: i64)
        ensures
            secs == self.secs,
    {
        self.secs
    }
}

/// The id of one of a user's devices.
#[derive(Debug)]
pub struct ClientId {
    pub text: String,
}

impl View for ClientId {
    type V = Seq<char>;

    open spec fn view(&self) -> Seq<char> {
        self.text@
    }
}

impl Clone for ClientId {
    fn clone(&self) -> (r: Self)
        ensures
            r == *self,
    {
        ClientId { text: self.text.clone() }
    }
}

impl ClientId {
    pub fn new(text: String) -> (r: ClientId)
        ensures
            r@ == text@,
    {
        ClientId { text }
    }

    pub fn as_str(&self) -> (r: &str)
        ensures
            r@ == self@,
    {
        self.text.as_str()
    }

    /// Do both name the same device?
    pub fn same(&self, other: &ClientId) -> (r: bool)
        ensures
            r == (self@ == other@),
    {
        self.text == other.text
    }
}

/// The key of an asset, such as a user's icon.
#[derive(Debug)]
pub struct AssetKey {
    pub text: String,
}

impl Clone for AssetKey {
    fn clone(&self) -> (r: Self)
        ensures
            r == *self,
    {
        AssetKey { text: self.text.clone() }
    }
}

/// A user as the database holds it.
#[derive(Debug)]
pub struct User {
    pub id: UserId,
    pub deleted: bool,
    pub icon: Option<AssetKey>,
    pub record: Handle,
}

impl Clone for User {
    fn clone(&self) -> (r: Self)
        ensures
            r == *self,
    {
        let icon = match &self.icon {
            Some(key) => Some(key.clone()),
            None => None,
        };
        User { id: self.id, deleted: self.deleted, icon, record: self.record }
    }
}

/// A user as the back-end reports it.
#[derive(Debug)]
pub struct ApiUser {
    pub id: UserId,
    pub deleted: Option<bool>,
    pub record: Handle,
}

/// A device as the database holds it.
#[derive(Debug)]
pub struct Client {
    pub id: ClientId,
    pub record: Handle,
}

impl Clone for Client {
    fn clone(&self) -> (r: Self)
        ensures
            r == *self,
    {
        Client { id: self.id.clone(), record: self.record }
    }
}

/// A device as the back-end reports it.
#[derive(Debug)]
pub struct ApiClient {
    pub id: ClientId,
    pub record: Handle,
}

/// A member of a conversation; `current` is false for one who has left.
#[derive(Clone, Copy, PartialEq, Eq, Structural, Debug)]
pub struct Member {
    pub id: UserId,
    pub current: bool,
}

/// The kind of a conversation.
#[derive(Clone, Copy, PartialEq, Eq, Structural, Debug)]
pub enum ConvType {
    OneToOne,
    Other,
}

/// A conversation as the back-end reports it. `current` says whether we are still a member.
#[derive(Debug)]
pub struct ApiConversation {
    pub id: ConvId,
    pub creator: UserId,
    pub typ: ConvType,
    pub current: bool,
    pub others: Vec<Member>,
    pub record: Handle,
}

/// A conversation as the database holds it.
#[derive(Debug)]
pub struct Conversation {
    pub id: ConvId,
    pub members: Vec<UserId>,
    pub record: Handle,
}

/// A connection to another user as the database holds it.
#[derive(Clone, Copy, PartialEq, Eq, Structural, Debug)]
pub struct Connection {
    pub record: Handle,
}

/// A connection to another user as the back-end reports it.
#[derive(Clone, Copy, PartialEq, Eq, Structural, Debug)]
pub struct UserConnection {
    pub to: UserId,
    pub record: Handle,
}

/// The status of a connection, by its code.
#[derive(Clone, Copy, PartialEq, Eq, Structural, Debug)]
pub struct ConnectStatus {
    pub code: u8,
}

/// One page of a listing at the back-end.
#[derive(Debug)]
pub struct Page<T> {
    pub value: Vec<T>,
    pub has_more: bool,
}

/// A page of database rows, which the driver keeps.
#[derive(Clone, Copy, PartialEq, Eq, Structural, Debug)]
pub struct Rows {
    pub record: Handle,
}

/// What a login yields: the access token and the cookie that renews it.
#[derive(Debug)]
pub struct Credentials {
    pub token: String,
    pub cookie: Cookie,
}

/// What a renewal yields: a token, and sometimes a new cookie.
#[derive(Debug)]
pub struct NewAccess {
    pub token: String,
    pub cookie: Option<Cookie>,
}

/// The devices of one user that an envelope left out.
#[derive(Debug)]
pub struct MissingClients {
    pub user: UserId,
    pub clients: Vec<ClientId>,
}

/// The back-end's report that an envelope was not addressed to the right devices.
#[derive(Debug)]
pub struct ClientMismatch {
    pub missing: Vec<MissingClients>,
}

/// A prekey of one device, if it has one left.
#[derive(Debug)]
pub struct ClientPrekey {
    pub client: ClientId,
    pub key: Option<Handle>,
}

/// The prekeys of the devices of one user.
#[derive(Debug)]
pub struct UserPrekeys {
    pub user: UserId,
    pub clients: Vec<ClientPrekey>,
}

/// A device with which a session was started.
#[derive(Debug)]
pub struct NewSession<'a> {
    pub client: &'a ClientId,
    pub session: Handle,
}

/// The sessions that were started with the devices of one user.
#[derive(Debug)]
pub struct UserSessions<'a> {
    pub user: UserId,
    pub sessions: Vec<NewSession<'a>>,
}

/// The mathematical form of [`UserSessions`].
pub struct UserSessionsView<'a> {
    pub user: UserId,
    pub sessions: Seq<NewSession<'a>>,
}

impl<'a> View for UserSessions<'a> {
    type V = UserSessionsView<'a>;

    open spec fn view(&self) -> UserSessionsView<'a> {
        UserSessionsView { user: self.user, sessions: self.sessions@ }
    }
}

/// An outgoing message: its id, its text (empty where it holds none), and the full message.
#[derive(Debug)]
pub struct OutMessage {
    pub id: String,
    pub text: String,
    pub record: Handle,
}

/// What is sent to a conversation: the ciphertexts for its members' devices.
#[derive(Clone, Copy, PartialEq, Eq, Structural, Debug)]
pub struct Envelope {
    pub conv: ConvId,
    pub record: Handle,
}

/// An envelope and its message, waiting in the outbound queue.
#[derive(Debug)]
pub struct QueueItem {
    pub id: Vec<u8>,
    pub conv: ConvId,
    pub data: Vec<u8>,
    pub mesg: Vec<u8>,
}

/// One page of the outbound queue; `next` continues it.
#[derive(Debug)]
pub struct QueuePage {
    pub items: Vec<QueueItem>,
    pub next: Handle,
}

/// An encrypted message from a device.
#[derive(Debug)]
pub struct OtrMessage {
    pub sender: ClientId,
    pub record: Handle,
}

/// A decrypted message: its id, its text if it is a text message, and the session it came through.
#[derive(Debug)]
pub struct Plaintext {
    pub id: String,
    pub text: Option<String>,
    pub session: Handle,
}

/// The type that an event announces.
#[derive(Clone, Copy, PartialEq, Eq, Structural, Debug)]
pub enum EventType {
    UserClientAdd,
    UserConnection,
    ConvCreate,
    ConvMemberJoin,
    ConvMessageAdd,
    Other,
}

/// The content of an event about users.
#[derive(Debug)]
pub enum UserEvent {
    AddClient(ApiClient),
    Connect(UserConnection),
    Other,
}

/// The content of an event about a conversation.
#[derive(Debug)]
pub enum ConvEventData {
    Create(ApiConversation),
    Join(Vec<UserId>),
    Encrypted(OtrMessage),
    Other,
}

/// An event about a conversation.
#[derive(Debug)]
pub struct ConvEvent {
    pub id: ConvId,
    pub time: Time,
    pub from: UserId,
    pub data: ConvEventData,
}

/// Something that happened, as the back-end reports it.
#[derive(Debug)]
pub enum Event {
    User(EventType, UserEvent),
    Conv(EventType, ConvEvent),
    Unknown,
}

/// A batch of events.
#[derive(Debug)]
pub struct Notification {
    pub id: NotifId,
    pub events: Vec<Event>,
}

/// What a notification stream yields: a notification, or its end.
#[derive(Debug)]
pub enum StreamItem {
    Next(Notification),
    End,
}

/// How a retry policy asks the next attempt to begin.
#[derive(Clone, Copy, PartialEq, Eq, Structural, Debug)]
pub enum Reaction {
    /// Renew the access token.
    Renew,
    /// Reconnect.
    Retry,
    /// Nothing.
    Other,
}

/// Why a service failed.
#[derive(Debug)]
pub struct Failure {
    pub unauthorised: bool,
    pub retriable: bool,
    pub mismatch: Option<ClientMismatch>,
    pub record: Handle,
}

/// What is missing from a stored profile.
#[derive(Clone, Copy, PartialEq, Eq, Structural, Debug)]
pub enum Gap {
    User,
    ClientId,
    Client,
    Cookie,
    AccessToken,
}

impl Gap {
    pub open spec fn words(self) -> Seq<char> {
        match self {
            Gap::User => "user not found"@,
            Gap::ClientId => "client id not found"@,
            Gap::Client => "client not found"@,
            Gap::Cookie => "cookie not found"@,
            Gap::AccessToken => "access token not found"@,
        }
    }

    /// The gap in words.
    pub fn text(&self) -> (r: &'static str)
        ensures
            r@ == self.words(),
    {
        match self {
            Gap::User => "user not found",
            Gap::ClientId => "client id not found",
            Gap::Client => "client not found",
            Gap::Cookie => "cookie not found",
            Gap::AccessToken => "access token not found",
        }
    }
}

/// What an operation itself finds wrong.
#[derive(Clone, Copy, PartialEq, Eq, Structural, Debug)]
pub enum Complaint {
    ClientNotFound,
    NoConversation,
    HostWithoutDomain,
    WebsocketWithoutDomain,
    AssetWithoutHost,
    RootNotUtf8,
}

impl Complaint {
    pub open spec fn words(self) -> Seq<char> {
        match self {
            Complaint::ClientNotFound => "client not found"@,
            Complaint::NoConversation => "conversation does not exist"@,
            Complaint::HostWithoutDomain => "/host/url has no domain"@,
            Complaint::WebsocketWithoutDomain => "/host/websocket has no domain"@,
            Complaint::AssetWithoutHost => "missing host in asset url"@,
            Complaint::RootNotUtf8 => "/data/root contains invalid utf-8"@,
        }
    }

    /// The complaint in words.
    pub fn text(&self) -> (r: &'static str)
        ensures
            r@ == self.words(),
    {
        match self {
            Complaint::ClientNotFound => "client not found",
            Complaint::NoConversation => "conversation does not exist",
            Complaint::HostWithoutDomain => "/host/url has no domain",
            Complaint::WebsocketWithoutDomain => "/host/websocket has no domain",
            Complaint::AssetWithoutHost => "missing host in asset url",
            Complaint::RootNotUtf8 => "/data/root contains invalid utf-8",
        }
    }
}

/// Why an operation did not succeed.
#[derive(Clone, Copy, Debug)]
pub enum Error<'a> {
    /// A service failed.
    Failed(&'a Failure),
    /// An address is no URL, one whose host is too long to be read, or one that is too long to be
    /// added to.
    Address,
    /// The operation found something wrong.
    Message(Complaint),
    /// A stored profile is incomplete.
    Profile(UserId, Gap),
}

/// The settings that the operations read.
#[derive(Debug)]
pub struct Config {
    /// The back-end's address.
    pub host_url: String,
    /// The address that notifications come from.
    pub host_websocket: String,
    /// The directory that holds a subdirectory for each user.
    pub data_root: String,
}

impl Clone for Config {
    fn clone(&self) -> (r: Self)
        ensures
            r == *self,
    {
        Config {
            host_url: self.host_url.clone(),
            host_websocket: self.host_websocket.clone(),
            data_root: self.data_root.clone(),
        }
    }
}

/// Something in a user's part of the data directory.
#[derive(Clone, Copy, PartialEq, Eq, Structural, Debug)]
pub enum Leaf {
    /// The user's directory itself.
    Home,
    Assets,
    CryptoBox,
    Database,
}

impl Leaf {
    pub open spec fn words(self) -> Option<Seq<char>> {
        match self {
            Leaf::Home => None,
            Leaf::Assets => Some("assets"@),
            Leaf::CryptoBox => Some("cryptobox"@),
            Leaf::Database => Some("main.db"@),
        }
    }

    /// The file or directory name below the user's directory.
    pub fn name(&self) -> (r: Option<&'static str>)
        ensures
            (match r { Some(s) => Some(s@), None => None }) == self.words(),
    {
        match self {
            Leaf::Home => None,
            Leaf::Assets => Some("assets"),
            Leaf::CryptoBox => Some("cryptobox"),
            Leaf::Database => Some("main.db"),
        }
    }
}

/// A path: the data root, below it the user's directory, below that the leaf.
#[derive(Debug)]
pub struct Place {
    pub root: String,
    pub user: UserId,
    pub leaf: Leaf,
}

impl Clone for Place {
    fn clone(&self) -> (r: Self)
        ensures
            r == *self,
    {
        Place { root: self.root.clone(), user: self.user, leaf: self.leaf }
    }
}

/// A database variable.
#[derive(Clone, Copy, PartialEq, Eq, Structural, Debug)]
pub enum Var {
    MyClientId,
    AccessToken,
    UserCookie,
}

impl Var {
    pub open spec fn words(self) -> Seq<char> {
        match self {
            Var::MyClientId => "my-client-id"@,
            Var::AccessToken => "access-token"@,
            Var::UserCookie => "user-cookie"@,
        }
    }

    /// The name under which the database stores the variable.
    pub fn name(&self) -> (r: &'static str)
        ensures
            r@ == self.words(),
    {
        match self {
            Var::MyClientId => "my-client-id",
            Var::AccessToken => "access-token",
            Var::UserCookie => "user-cookie",
        }
    }
}

} // verus!
