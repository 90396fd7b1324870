# coax-actor

The actor at the centre of a chat client. It looks after one user's conversations, contacts,
messages and notifications, between a local database and the back-end.

`src/` is the library, verified with Verus. Its operations do no input or output: each is a function
of the answers received so far. An operation either ends, or stops with the next question for the
driver, which answers it and runs the operation again over the longer list of answers. The contract
of an operation says which questions it asks, in which order, and what it returns for which answers.
Laws that span operations are public proof functions: replaying an operation over more answers never
changes what it asked before, a notification is recorded only after all its events were taken in, an
item leaves the queue only after its message was sent, a profile that is loaded after a login gives
back what the login left, and so on.

`app/` is the driver in ordinary Rust: files, the clock, shared credentials, threads. The database,
the back-end, the box of keys and the wire formats are left to an implementation of its `Services`.

`tests/` plays operations against scripted answers.
