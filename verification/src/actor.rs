//! The actor: whom we act for, and in which state.
//!
//! An actor starts out in [`Init`]. It is [`Connected`] once it has a connection to the back-end,
//! [`Offline`] once it has a user's data, and [`Online`] once it has both.
use crate::model::{Client, Config, Handle, Place, User, UserId};
use crate::query::Link;
use vstd::prelude::*;

verus! {

/// An actor in state `S`.
#[derive(Debug)]
pub struct Actor<S> {
    pub config: Config,
    pub state: S,
}

/// Nothing yet.
#[derive(Debug)]
pub struct Init(());

/// Connected to the back-end.
#[derive(Debug)]
pub struct Connected {
    pub client: Handle,
}

/// With a user's data, but not connected.
#[derive(Debug)]
pub struct Offline {
    pub user: UserData,
    pub bcast: Handle,
}

/// With a user's data, and connected.
#[derive(Debug)]
pub struct Online {
    pub user: UserData,
    pub bcast: Handle,
    pub client: Handle,
}

/// What we have of the user whom we act for.
#[derive(Debug)]
pub struct UserData {
    pub user: User,
    pub dbase: Handle,
    pub creds: Handle,
    pub device: Device,
    /// The directory that holds the user's assets.
    pub assets: Place,
}

/// The device that we act as; `fresh` if it was registered just now.
#[derive(Debug)]
pub struct Device {
    pub fresh: bool,
    pub client: Client,
    pub cbox: Handle,
}

impl Clone for Device {
    fn clone(&self) -> (r: Self)
        ensures
            r == *self,
    {
        Device { fresh: self.fresh, client: self.client.clone(), cbox: self.cbox }
    }
}

/// An actor once it is connected.
pub open spec fn connected_actor(config: Config, client: Handle) -> Actor<Connected> {
    Actor { config, state: Connected { client } }
}

/// An actor once it has a user's data.
pub open spec fn offline_actor(config: Config, user: UserData, bcast: Handle) -> Actor<Offline> {
    Actor { config, state: Offline { user, bcast } }
}

/// An actor once it has both.
pub open spec fn online_actor(
    config: Config,
    client: Handle,
    user: UserData,
    bcast: Handle,
) -> Actor<Online> {
    Actor { config, state: Online { user, bcast, client } }
}

impl Actor<Init> {
    /// Creates a new actor.
    pub fn new(config: Config) -> (r: Actor<Init>)
        ensures
            r.config == config,
    {
        Actor { config, state: Init(()) }
    }

    /// Goes to [`Connected`].
    pub fn connected(self, client: Handle) -> (r: Actor<Connected>)
        ensures
            r == connected_actor(self.config, client),
    {
        Actor { config: self.config, state: Connected { client } }
    }

    /// Goes to [`Offline`].
    pub fn offline(self, user: UserData, bcast: Handle) -> (r: Actor<Offline>)
        ensures
            r == offline_actor(self.config, user, bcast),
    {
        Actor { config: self.config, state: Offline { user, bcast } }
    }

    /// Goes to [`Online`].
    pub fn online(self, client: Handle, user: UserData, bcast: Handle) -> (r: Actor<Online>)
        ensures
            r == online_actor(self.config, client, user, bcast),
    {
        Actor { config: self.config, state: Online { user, bcast, client } }
    }
}

impl Actor<Connected> {
    /// Goes to [`Online`], on the same connection.
    pub fn online(self, user: UserData, bcast: Handle) -> (r: Actor<Online>)
        ensures
            r == online_actor(self.config, self.state.client, user, bcast),
    {
        Actor { config: self.config, state: Online { user, bcast, client: self.state.client } }
    }

    /// Goes to [`Offline`], and drops the connection.
    pub fn offline(self, user: UserData, bcast: Handle) -> (r: Actor<Offline>)
        ensures
            r == offline_actor(self.config, user, bcast),
    {
        Actor { config: self.config, state: Offline { user, bcast } }
    }

    pub open spec fn link(self) -> Link {
        Link { client: self.state.client, creds: None }
    }

    /// The connection, over which credentials are passed with each call.
    pub fn get_link(&self) -> (r: Link)
        ensures
            r == self.link(),
    {
        Link { client: self.state.client, creds: None }
    }
}

impl Actor<Offline> {
    /// Goes to [`Init`], and drops the user's data.
    pub fn init(self) -> (r: Actor<Init>)
        ensures
            r.config == self.config,
    {
        Actor { config: self.config, state: Init(()) }
    }

    /// Goes to [`Online`], with the same user's data.
    pub fn online(self, client: Handle) -> (r: Actor<Online>)
        ensures
            r == online_actor(self.config, client, self.state.user, self.state.bcast),
    {
        Actor {
            config: self.config,
            state: Online { user: self.state.user, bcast: self.state.bcast, client },
        }
    }

    /// Goes to [`Connected`], and drops the user's data.
    pub fn connected(self, client: Handle) -> (r: Actor<Connected>)
        ensures
            r == connected_actor(self.config, client),
    {
        Actor { config: self.config, state: Connected { client } }
    }

    /// Our own user information.
    pub fn me(&self) -> (r: &User)
        ensures
            *r == self.state.user.user,
    {
        &self.state.user.user
    }

    /// Our own device.
    pub fn client(&self) -> (r: &Client)
        ensures
            *r == self.state.user.device.client,
    {
        &self.state.user.device.client
    }
}

impl Actor<Online> {
    /// Goes to [`Init`], and drops both.
    pub fn init(self) -> (r: Actor<Init>)
        ensures
            r.config == self.config,
    {
        Actor { config: self.config, state: Init(()) }
    }

    /// Goes to [`Connected`], on the same connection.
    pub fn connected(self) -> (r: Actor<Connected>)
        ensures
            r == connected_actor(self.config, self.state.client),
    {
        Actor { config: self.config, state: Connected { client: self.state.client } }
    }

    /// Goes to [`Offline`], with the same user's data.
    pub fn offline(self) -> (r: Actor<Offline>)
        ensures
            r == offline_actor(self.config, self.state.user, self.state.bcast),
    {
        Actor {
            config: self.config,
            state: Offline { user: self.state.user, bcast: self.state.bcast },
        }
    }

    /// Our own user information.
    pub fn me(&self) -> (r: &User)
        ensures
            *r == self.state.user.user,
    {
        &self.state.user.user
    }

    /// Our own device.
    pub fn client(&self) -> (r: &Client)
        ensures
            *r == self.state.user.device.client,
    {
        &self.state.user.device.client
    }

    /// Is the device newly registered?
    pub open spec fn has_new_client(self) -> bool {
        self.state.user.device.fresh
    }

    /// Is the device newly registered?
    pub fn is_new_client(&self) -> (r: bool)
        ensures
            r == self.has_new_client(),
    {
        self.state.user.device.fresh
    }

    pub open spec fn me_id(self) -> UserId {
        self.state.user.user.id
    }

    pub open spec fn db(self) -> Handle {
        self.state.user.dbase
    }

    pub open spec fn link(self) -> Link {
        Link { client: self.state.client, creds: Some(self.state.user.creds) }
    }

    /// The connection, with the shared credentials.
    pub fn get_link(&self) -> (r: Link)
        ensures
            r == self.link(),
    {
        Link { client: self.state.client, creds: Some(self.state.user.creds) }
    }
}

impl<S> Actor<S> {
    /// The configuration.
    pub fn config(&self) -> (r: &Config)
        ensures
            *r == self.config,
    {
        &self.config
    }
}

/// An actor that goes offline and online again keeps its configuration, the user's data and the
/// channel; on the same connection it is what it was.
pub proof fn going_online_again_keeps_the_user(a: Actor<Online>, client: Handle)
    ensures
        ({
            let off = offline_actor(a.config, a.state.user, a.state.bcast);
            let on = online_actor(off.config, client, off.state.user, off.state.bcast);
            &&& on.config == a.config
            &&& on.state.user == a.state.user
            &&& on.state.bcast == a.state.bcast
            &&& on.state.client == client
            &&& client == a.state.client ==> on == a
        }),
{
}

/// An actor that drops the user's data and takes them up again keeps its connection, and is what it
/// was.
pub proof fn taking_up_the_user_again_keeps_the_connection(a: Actor<Online>)
    ensures
        ({
            let c = connected_actor(a.config, a.state.client);
            online_actor(c.config, c.state.client, a.state.user, a.state.bcast) == a
        }),
{
}

} // verus!
