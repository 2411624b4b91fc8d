use std::collections::HashMap;
use vstd::prelude::*;

verus! {

broadcast use vstd::std_specs::hash::group_hash_axioms;

/// The first token handed to a registration.
pub const TOKEN_START: usize = 1;

/// The token of the poller's own waker; no registration gets it.
pub const WAKER_TOKEN: usize = 0;

/// A request to the poller's event loop.
#[derive(Debug, PartialEq, Eq, Structural)]
pub enum Command {
    /// Watch file descriptor `fd` once.
    Register { fd: i32 },
    /// Stop watching the registration with this token.
    Unregister { token: usize },
    /// End the event loop.
    Shutdown,
}

/// What the event loop did with a command.
#[derive(Debug, PartialEq, Eq, Structural)]
pub enum CommandOutcome {
    /// `fd` is registered under `token`: register it with the operating system's poller.
    Registered { token: usize, fd: i32 },
    /// The registration was removed; deregister its descriptor, if there was one.
    Unregistered(Option<i32>),
    /// The loop ends.
    Stop,
}

/// The abstract state of the poller: the pending registrations (token to descriptor), the next
/// token, whether the event loop runs, and whether it was ever started.
#[verifier::ext_equal]
pub struct NetpollerView {
    pub pending: Map<usize, i32>,
    pub next_token: nat,
    pub running: bool,
    pub started: bool,
}

impl NetpollerView {
    /// `start`: the event loop runs from now on; the flag says whether a loop is to be spawned,
    /// which is so unless one runs already.
    pub open spec fn start_result(self) -> (Self, bool) {
        (NetpollerView { running: true, started: true, ..self }, !self.running)
    }

    /// Tokens are handed out from `TOKEN_START` on, so every pending token lies below the next
    /// one and none is the waker's.
    pub open spec fn valid(self) -> bool {
        &&& self.next_token >= TOKEN_START
        &&& forall|t: usize| #[trigger] self.pending.contains_key(t) ==> TOKEN_START <= t < self.next_token
    }

    /// An event for `token`: the waker's token and unknown tokens do nothing; a pending
    /// registration fires once and is removed.
    pub open spec fn event_result(self, token: usize) -> (Self, Option<i32>) {
        if token != WAKER_TOKEN && self.pending.contains_key(token) {
            (NetpollerView { pending: self.pending.remove(token), ..self }, Some(self.pending[token]))
        } else {
            (self, None)
        }
    }
}

/// The poller's bookkeeping.
pub struct Netpoller {
    pending: HashMap<usize, i32>,
    next_token: usize,
    running: bool,
    started: bool,
}

impl Netpoller {
    pub closed spec fn model(&self) -> NetpollerView {
        NetpollerView {
            pending: self.pending@,
            next_token: self.next_token as nat,
            running: self.running,
            started: self.started,
        }
    }
}

impl View for Netpoller {
    type V = NetpollerView;

    open spec fn view(&self) -> NetpollerView {
        self.model()
    }
}

impl Netpoller {
    /// A poller with nothing registered, not started.
    pub fn new() -> (np: Netpoller)
        ensures
            np@.valid(),
            np@ == (NetpollerView { pending: Map::empty(), next_token: TOKEN_START as nat, running: false, started: false }),
    {
        let np = Netpoller { pending: HashMap::new(), next_token: TOKEN_START, running: false, started: false };
        assert(np@ =~= NetpollerView {
            pending: Map::empty(),
            next_token: TOKEN_START as nat,
            running: false,
            started: false,
        });
        np
    }

    /// Starts the event loop; the result says whether its thread is to be spawned now (not when
    /// it runs already). A loop that was stopped cannot be started again.
    pub fn start(&mut self) -> (spawn: bool)
        requires
            old(self)@.running || !old(self)@.started,
        ensures
            (final(self)@, spawn) == old(self)@.start_result(),
    {
        if self.running {
            self.started = true;
            assert(self@ =~= NetpollerView { running: true, started: true, ..old(self)@ });
            return false;
        }
        self.running = true;
        self.started = true;
        assert(self@ =~= NetpollerView { running: true, started: true, ..old(self)@ });
        true
    }

    /// Registers `fd` under the next token and returns the token.
    pub fn register(&mut self, fd: i32) -> (token: usize)
        requires
            old(self)@.valid(),
            old(self)@.next_token < usize::MAX,
        ensures
            final(self)@.valid(),
            token == old(self)@.next_token,
            !old(self)@.pending.contains_key(token),
            final(self)@ == (NetpollerView {
                pending: old(self)@.pending.insert(token, fd),
                next_token: old(self)@.next_token + 1,
                ..old(self)@
            }),
    {
        let token = self.next_token;
        self.next_token = token + 1;
        self.pending.insert(token, fd);
        assert(self@ =~= NetpollerView {
            pending: old(self)@.pending.insert(token, fd),
            next_token: old(self)@.next_token + 1,
            ..old(self)@
        });
        token
    }

    /// Removes the registration with this token; the result is its descriptor, if it existed.
    pub fn unregister(&mut self, token: usize) -> (fd: Option<i32>)
        requires
            old(self)@.valid(),
        ensures
            final(self)@.valid(),
            fd == (if old(self)@.pending.contains_key(token) { Some(old(self)@.pending[token]) } else { None }),
            final(self)@ == (NetpollerView { pending: old(self)@.pending.remove(token), ..old(self)@ }),
    {
        let fd = self.pending.remove(&token);
        assert(self@ =~= NetpollerView { pending: old(self)@.pending.remove(token), ..old(self)@ });
        fd
    }

    /// Handles a readiness event for `token`: a pending registration fires once (its descriptor
    /// is returned, to be deregistered) and is removed.
    pub fn on_event(&mut self, token: usize) -> (fd: Option<i32>)
        requires
            old(self)@.valid(),
        ensures
            final(self)@.valid(),
            (final(self)@, fd) == old(self)@.event_result(token),
    {
        if token == WAKER_TOKEN {
            return None;
        }
        let fd = self.pending.remove(&token);
        assert(self@ =~= old(self)@.event_result(token).0);
        fd
    }

    /// Handles one command of the event loop.
    pub fn process_command(&mut self, cmd: Command) -> (out: CommandOutcome)
        requires
            old(self)@.valid(),
            old(self)@.next_token < usize::MAX,
        ensures
            final(self)@.valid(),
            cmd is Shutdown ==> out == CommandOutcome::Stop && final(self)@ == old(self)@,
            cmd is Register ==> out == (CommandOutcome::Registered { token: old(self)@.next_token as usize, fd: cmd->fd })
                && final(self)@ == (NetpollerView {
                pending: old(self)@.pending.insert(old(self)@.next_token as usize, cmd->fd),
                next_token: old(self)@.next_token + 1,
                ..old(self)@
            }),
            cmd is Unregister ==> out == CommandOutcome::Unregistered(
                if old(self)@.pending.contains_key(cmd->token) {
                    Some(old(self)@.pending[cmd->token])
                } else {
                    None
                },
            ) && final(self)@ == (NetpollerView { pending: old(self)@.pending.remove(cmd->token), ..old(self)@ }),
    {
        match cmd {
            Command::Register { fd } => {
                let token = self.register(fd);
                CommandOutcome::Registered { token, fd }
            },
            Command::Unregister { token } => CommandOutcome::Unregistered(self.unregister(token)),
            Command::Shutdown => CommandOutcome::Stop,
        }
    }

    /// Stops the event loop; the result says whether it was running, in which case a
    /// `Shutdown` command is to be sent and the poller woken.
    pub fn stop(&mut self) -> (was_running: bool)
        ensures
            was_running == old(self)@.running,
            final(self)@ == (NetpollerView { running: false, ..old(self)@ }),
    {
        let was_running = self.running;
        self.running = false;
        assert(self@ =~= NetpollerView { running: false, ..old(self)@ });
        was_running
    }

    /// The token the next registration gets.
    pub fn next_token(&self) -> (t: usize)
        ensures
            t == self@.next_token,
    {
        self.next_token
    }

    pub fn is_running(&self) -> (b: bool)
        ensures
            b == self@.running,
    {
        self.running
    }
}

/// A poller whose event loop does not run (one never started) spawns it on `start`; a running
/// one spawns no second loop and stays as it is, so starting twice spawns one loop. (Starting a
/// poller that was stopped is refused by `start`'s precondition: it cannot run again.)
pub proof fn law_start_spawns_one_loop(v: NetpollerView)
    ensures
        !v.running ==> v.start_result().1 && v.start_result().0.running,
        v.running ==> !v.start_result().1 && v.start_result().0 == (NetpollerView { started: true, ..v }),
        !v.start_result().0.start_result().1,
        v.start_result().0.start_result().0 == v.start_result().0,
{
}

/// A registration fires at most once: the first event for its token returns its descriptor,
/// and a second event for the same token does nothing.
pub proof fn law_registration_fires_once(v: NetpollerView, fd: i32)
    requires
        v.valid(),
        v.next_token < usize::MAX,
    ensures
        ({
            let t = v.next_token as usize;
            let registered = NetpollerView {
                pending: v.pending.insert(t, fd),
                next_token: v.next_token + 1,
                ..v
            };
            &&& registered.valid()
            &&& registered.event_result(t).1 == Some(fd)
            &&& registered.event_result(t).0.event_result(t) == (registered.event_result(t).0, None::<i32>)
            &&& registered.event_result(t).0.pending == v.pending
        }),
{
    let t = v.next_token as usize;
    let registered = NetpollerView { pending: v.pending.insert(t, fd), next_token: v.next_token + 1, ..v };
    assert(!v.pending.contains_key(t));
    assert(registered.event_result(t).0.pending =~= v.pending);
}

/// Starts the poller's event loop (see `Netpoller::start`).
pub fn start(np: &mut Netpoller) -> (spawn: bool)
    requires
        old(np)@.running || !old(np)@.started,
    ensures
        (final(np)@, spawn) == old(np)@.start_result(),
{
    np.start()
}

/// Stops the poller's event loop (see `Netpoller::stop`).
pub fn stop(np: &mut Netpoller) -> (was_running: bool)
    ensures
        was_running == old(np)@.running,
        final(np)@ == (NetpollerView { running: false, ..old(np)@ }),
{
    np.stop()
}

} // verus!
