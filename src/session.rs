use vstd::prelude::*;
use crate::interval::{ActivityInterval, Timestamp};
use crate::registry::{ActivityRegistry, deregistered, recorded, registered};

verus! {

/// What one read on a client connection produced.
#[derive(Clone, Copy, Debug, PartialEq, Eq, Structural)]
pub enum ReadOutcome {
    /// The read returned this many bytes; zero means the peer closed the stream.
    Bytes(usize),
    /// The read failed (reset, timeout or another I/O error).
    Failed,
}

/// What the connection's task does after a read has been handled.
#[derive(Clone, Copy, Debug, PartialEq, Eq, Structural)]
pub enum SessionStep {
    /// Activity was recorded: announce it on the bus and read again.
    Recorded,
    /// The session is over and its identity is deregistered: stop.
    Closed,
}

impl ReadOutcome {
    /// The read carried a non-empty payload, which counts as activity.
    pub open spec fn is_activity(self) -> bool {
        self matches ReadOutcome::Bytes(n) && n > 0
    }
}

/// The lifecycle of one accepted connection in the registry: registered
/// when opened, one window per non-empty read, deregistered on end of
/// stream or error. A closed session never reopens.
pub struct Session {
    id: String,
    open: bool,
}

impl Session {
    /// The identity this session registered under.
    pub closed spec fn client(&self) -> Seq<char> {
        self.id@
    }

    /// Whether the session is between registration and deregistration.
    pub closed spec fn is_live(&self) -> bool {
        self.open
    }

    /// Opens the session of a newly accepted connection and registers `id`
    /// with an empty record, replacing any record left under that identity.
    pub fn start(reg: &mut ActivityRegistry, id: String) -> (r: Session)
        requires
            old(reg).wf(),
        ensures
            final(reg).wf(),
            final(reg)@ == registered(old(reg)@, id@),
            r.client() == id@,
            r.is_live(),
    {
        let key = id.clone();
        let _ = reg.register(key);
        Session { id, open: true }
    }

    /// Handles the outcome of one read observed at time `now`. A non-empty
    /// payload appends the window `[now, now + ASSUMED_PING_INTERVAL_SECS]`
    /// to the session's record; end of stream or an error deregisters the
    /// identity and closes the session. A closed session ignores reads.
    pub fn on_read(&mut self, reg: &mut ActivityRegistry, outcome: ReadOutcome, now: Timestamp) -> (r: SessionStep)
        requires
            old(reg).wf(),
            ActivityInterval::fits(now),
        ensures
            final(reg).wf(),
            final(self).client() == old(self).client(),
            old(self).is_live() && outcome.is_activity() ==> r == SessionStep::Recorded
                && final(self).is_live() && final(reg)@ == recorded(
                old(reg)@,
                old(self).client(),
                ActivityInterval::expected_from(now),
            ),
            old(self).is_live() && !outcome.is_activity() ==> r == SessionStep::Closed
                && !final(self).is_live() && final(reg)@ == deregistered(
                old(reg)@,
                old(self).client(),
            ),
            !old(self).is_live() ==> r == SessionStep::Closed && !final(self).is_live()
                && final(reg)@ == old(reg)@,
    {
        if !self.open {
            return SessionStep::Closed;
        }
        match outcome {
            ReadOutcome::Bytes(n) if n > 0 => {
                let iv = ActivityInterval::after_activity_at(now);
                reg.record_activity(&self.id, iv);
                SessionStep::Recorded
            },
            _ => {
                reg.deregister(&self.id);
                self.open = false;
                SessionStep::Closed
            },
        }
    }

    /// The identity this session registered under.
    pub fn id(&self) -> (r: &String)
        ensures
            r@ == self.client(),
    {
        &self.id
    }

    /// Whether the session is still registered.
    pub fn is_open(&self) -> (r: bool)
        ensures
            r == self.is_live(),
    {
        self.open
    }
}

} // verus!
