//! A bounded pool of daemon connections: idle connections are checked before
//! they are lent, broken ones are replaced, and no more than `max` exist.
use vstd::prelude::*;

use crate::daemon::{Daemon, JukeError};

verus! {

/// How many connections a pool of at most `max` opens at once: a quarter of
/// `max`, and at least one.
pub open spec fn warm_target(max: usize) -> usize {
    if max / 4 > 1 {
        max / 4
    } else {
        1
    }
}

/// The counts of a pool: idle connections, lent connections, and the cap.
#[derive(Clone, Copy, Debug, PartialEq, Eq, Structural)]
pub struct PoolStats {
    pub available: usize,
    pub in_use: usize,
    pub total: usize,
    pub max: usize,
}

/// Connections to one daemon: those idle, and a count of those lent out.
pub struct MpdConnectionPool<D> {
    connections: Vec<D>,
    host: String,
    port: u16,
    max_connections: usize,
    in_use: usize,
}

impl<D: Daemon> MpdConnectionPool<D> {
    /// Idle connections.
    pub closed spec fn idle(&self) -> nat {
        self.connections@.len()
    }

    /// Connections lent out.
    pub closed spec fn lent(&self) -> nat {
        self.in_use as nat
    }

    /// The cap on connections.
    pub closed spec fn cap(&self) -> nat {
        self.max_connections as nat
    }

    /// The host new connections are opened to.
    pub closed spec fn host(&self) -> Seq<char> {
        self.host@
    }

    /// The port new connections are opened to.
    pub closed spec fn port(&self) -> u16 {
        self.port
    }

    /// The pool's invariant: idle and lent connections together stay within the cap.
    pub open spec fn wf(&self) -> bool {
        self.idle() + self.lent() <= self.cap()
    }

    /// A pool of at most `max_connections` connections to `host`:`port`,
    /// with `warm_target(max_connections)` of them opened at once. It fails
    /// when the first of them cannot be opened, and with `Exhausted` when the
    /// cap is zero.
    pub fn new(host: &str, port: u16, max_connections: usize) -> (r: Result<Self, JukeError>)
        ensures
            max_connections == 0 ==> r == Err::<Self, JukeError>(JukeError::Exhausted),
            r matches Ok(p) ==> p.wf() && p.lent() == 0 && p.cap() == max_connections && 1
                <= p.idle() <= warm_target(max_connections) && p.host() == host@ && p.port() == port,
    {
        if max_connections == 0 {
            return Err(JukeError::Exhausted);
        }
        let mut pool = MpdConnectionPool {
            connections: Vec::new(),
            host: String::from_str(host),
            port,
            max_connections,
            in_use: 0,
        };
        let initial_size: usize = if max_connections / 4 > 1 {
            max_connections / 4
        } else {
            1
        };
        match pool.warm_pool(initial_size) {
            Ok(()) => Ok(pool),
            Err(e) => Err(e),
        }
    }

    /// Opens up to `count` idle connections; fails only if the first fails.
    fn warm_pool(&mut self, count: usize) -> (r: Result<(), JukeError>)
        requires
            old(self).idle() == 0,
            old(self).lent() == 0,
            1 <= count <= old(self).cap(),
        ensures
            r is Ok ==> 1 <= final(self).idle() <= count,
            final(self).lent() == 0,
            final(self).host() == old(self).host(),
            final(self).port() == old(self).port(),
            final(self).cap() == old(self).cap(),
            final(self).wf(),
    {
        let mut i: usize = 0;
        while i < count
            invariant
                i <= count <= self.max_connections,
                self.connections@.len() <= i,
                i > 0 ==> self.connections@.len() >= 1,
                self.in_use == 0,
                self.max_connections == old(self).max_connections,
                self.host == old(self).host,
                self.port == old(self).port,
            decreases count - i,
        {
            match D::connect(self.host.as_str(), self.port) {
                Ok(conn) => {
                    self.connections.push(conn);
                },
                Err(e) => {
                    if i == 0 {
                        return Err(e);
                    }
                },
            }
            i = i + 1;
        }
        Ok(())
    }

    /// Whether a connection is usable, reopening it if a ping fails.
    fn validate_connection(conn: &mut D) -> (r: bool) {
        match conn.reconnect() {
            Ok(()) => true,
            Err(_) => false,
        }
    }

    /// Lends a connection: the last idle one if it still answers, else a new
    /// one to the pool's host and port. An idle connection taken out leaves
    /// the idle list whether it is lent or, being broken, dropped. Fails with
    /// `Exhausted` when `max` connections are lent already, and with the
    /// daemon's error when no connection can be opened.
    pub fn get_connection(&mut self) -> (r: Result<D, JukeError>)
        requires
            old(self).wf(),
        ensures
            final(self).wf(),
            final(self).cap() == old(self).cap(),
            old(self).lent() >= old(self).cap() ==> r == Err::<D, JukeError>(JukeError::Exhausted)
                && final(self).idle() == old(self).idle() && final(self).lent() == old(self).lent(),
            final(self).host() == old(self).host(),
            final(self).port() == old(self).port(),
            r is Ok ==> final(self).lent() == old(self).lent() + 1,
            r is Err ==> final(self).lent() == old(self).lent(),
            old(self).lent() < old(self).cap() ==> if old(self).idle() > 0 {
                final(self).idle() == old(self).idle() - 1
            } else {
                final(self).idle() == 0
            },
    {
        if self.in_use >= self.max_connections {
            return Err(JukeError::Exhausted);
        }
        match self.connections.pop() {
            Some(conn) => {
                let mut conn = conn;
                let healthy = Self::validate_connection(&mut conn);
                self.lend_checked(conn, healthy)
            },
            None => self.create_new_connection(),
        }
    }

    /// Lends `conn`, just taken from the idle list (so it still counts
    /// against the cap), if its check found it `healthy`; else drops it and
    /// lends a newly opened connection instead.
    pub fn lend_checked(&mut self, conn: D, healthy: bool) -> (r: Result<D, JukeError>)
        requires
            old(self).idle() + old(self).lent() < old(self).cap(),
        ensures
            final(self).wf(),
            final(self).cap() == old(self).cap(),
            final(self).idle() == old(self).idle(),
            final(self).host() == old(self).host(),
            final(self).port() == old(self).port(),
            healthy ==> r == Ok::<D, JukeError>(conn),
            r is Ok ==> final(self).lent() == old(self).lent() + 1,
            r is Err ==> final(self).lent() == old(self).lent(),
    {
        if healthy {
            self.in_use = self.in_use + 1;
            Ok(conn)
        } else {
            self.create_new_connection()
        }
    }

    /// Opens a new connection and lends it.
    fn create_new_connection(&mut self) -> (r: Result<D, JukeError>)
        requires
            old(self).wf(),
            old(self).lent() < old(self).cap(),
        ensures
            final(self).wf(),
            final(self).cap() == old(self).cap(),
            final(self).idle() == old(self).idle(),
            final(self).host() == old(self).host(),
            final(self).port() == old(self).port(),
            r is Ok ==> final(self).lent() == old(self).lent() + 1,
            r is Err ==> final(self).lent() == old(self).lent(),
    {
        if self.connections.len() + self.in_use >= self.max_connections {
            return Err(JukeError::Exhausted);
        }
        match D::connect(self.host.as_str(), self.port) {
            Ok(conn) => {
                self.in_use = self.in_use + 1;
                Ok(conn)
            },
            Err(e) => Err(e),
        }
    }

    /// Takes back a lent connection: kept idle if it still answers, dropped
    /// if not.
    pub fn return_connection(&mut self, conn: D)
        requires
            old(self).wf(),
            old(self).lent() > 0,
        ensures
            final(self).wf(),
            final(self).cap() == old(self).cap(),
            final(self).lent() == old(self).lent() - 1,
            final(self).idle() == old(self).idle() || final(self).idle() == old(self).idle() + 1,
            final(self).host() == old(self).host(),
            final(self).port() == old(self).port(),
    {
        let mut conn = conn;
        if Self::validate_connection(&mut conn) {
            self.connections.push(conn);
        }
        self.in_use = self.in_use - 1;
    }

    /// The pool's counts; idle and lent connections make up the total, which
    /// stays within the cap.
    pub fn stats(&self) -> (r: PoolStats)
        requires
            self.wf(),
        ensures
            r.available == self.idle(),
            r.in_use == self.lent(),
            r.max == self.cap(),
            r.available + r.in_use == r.total <= r.max,
    {
        let available: usize = self.connections.len();
        PoolStats {
            available,
            in_use: self.in_use,
            total: available + self.in_use,
            max: self.max_connections,
        }
    }

    /// Idle connections and the cap.
    pub fn stats_simple(&self) -> (r: (usize, usize))
        requires
            self.wf(),
        ensures
            r.0 == self.idle(),
            r.1 == self.cap(),
    {
        let s = self.stats();
        (s.available, s.max)
    }
}

} // verus!
