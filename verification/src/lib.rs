//! The actor at the centre of a chat client: it looks after one user's conversations, contacts,
//! messages and notifications, between a local database and the back-end.
//!
//! The operations of an [`actor::Actor`] do no input or output themselves. Each is a function of the
//! answers that it has received so far (see [`tape`]); a driver puts its questions (see [`query`])
//! to the database, the back-end, the file system and the box of keys. What an operation asks, in
//! which order, and what it returns for which answers is stated in its contract, as the run that the
//! specification function with the suffix `_run` describes.
//!
//! - [`actor`], [`model`], [`text`]: states, records, and text in foreign formats
//! - [`tape`], [`query`]: answers and questions
//! - [`access`], [`storage`], [`login`]: credentials and retries, what is on disk, becoming a user
//! - [`directory`], [`contacts`], [`sync`], [`browse`], [`assets`]: finding things and listing them
//! - [`outbox`], [`resend`]: messages that go out
//! - [`events`], [`feed`], [`inbox`]: notifications that come in
//! - [`trace`], [`footprint`]: what was said, and which parts of the world it concerns
//! - [`laws_access`], [`laws_retries`], [`laws_start`], [`laws_login`]: what holds of attempts, of
//!   storage, and of becoming a user
//! - [`laws_directory`], [`laws_lookups`], [`laws_lists`], [`laws_states`]: what holds of finding things
//!   and of going through them
//! - [`laws_sending`], [`laws_queue`], [`laws_events`], [`laws_feed`], [`laws_messages`]: what holds of
//!   messages and notifications
pub mod access;
pub mod actor;
pub mod assets;
pub mod browse;
pub mod contacts;
pub mod directory;
pub mod events;
pub mod feed;
pub mod footprint;
pub mod inbox;
pub mod laws_access;
pub mod laws_directory;
pub mod laws_events;
pub mod laws_feed;
pub mod laws_lists;
pub mod laws_login;
pub mod laws_lookups;
pub mod laws_messages;
pub mod laws_queue;
pub mod laws_retries;
pub mod laws_sending;
pub mod laws_start;
pub mod laws_states;
pub mod login;
pub mod model;
pub mod outbox;
pub mod query;
pub mod resend;
pub mod storage;
pub mod sync;
pub mod tape;
pub mod text;
pub mod trace;
