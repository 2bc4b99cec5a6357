//! The connection pool: its settings and its idle connections, which are
//! handed out first in, first out.

use std::collections::VecDeque;
use vstd::prelude::*;

verus! {

/// How many connections the pool keeps and how long a caller waits for one.
#[derive(Debug, Clone)]
pub struct PoolConfig {
    pub min_connections: usize,
    pub max_connections: usize,
    pub connection_timeout_secs: u64,
}

impl Default for PoolConfig {
    /// Two connections at least, ten at most, and a thirty-second wait.
    fn default() -> (c: PoolConfig)
        ensures
            c.min_connections == 2,
            c.max_connections == 10,
            c.connection_timeout_secs == 30,
    {
        PoolConfig { min_connections: 2, max_connections: 10, connection_timeout_secs: 30 }
    }
}

/// The idle connections of a pool, oldest first.
pub struct IdlePool<C> {
    idle: VecDeque<C>,
    config: PoolConfig,
}

impl<C> IdlePool<C> {
    /// The idle connections, oldest first.
    pub closed spec fn contents(&self) -> Seq<C> {
        self.idle@
    }

    /// The pool's settings.
    pub closed spec fn settings(&self) -> PoolConfig {
        self.config
    }

    /// The pool's settings.
    pub fn config(&self) -> (r: &PoolConfig)
        ensures
            *r == self.settings(),
    {
        &self.config
    }

    /// A pool that opens `config.min_connections` connections with
    /// `factory`, in order.
    pub fn new<F: Fn() -> C>(config: PoolConfig, factory: &F) -> (r: Self)
        requires
            forall|args: ()| #[trigger] factory.requires(args),
        ensures
            r.contents().len() == config.min_connections,
            forall|i: int|
                0 <= i < config.min_connections ==> factory.ensures((), #[trigger] r.contents()[i]),
            r.settings() == config,
    {
        let mut idle: VecDeque<C> = VecDeque::new();
        let n = config.min_connections;
        let mut i: usize = 0;
        while i < n
            invariant
                i <= n,
                idle@.len() == i,
                forall|args: ()| #[trigger] factory.requires(args),
                forall|j: int| 0 <= j < i ==> factory.ensures((), #[trigger] idle@[j]),
            decreases n - i,
        {
            let c = factory();
            idle.push_back(c);
            i += 1;
        }
        IdlePool { idle, config }
    }

    /// Takes the oldest idle connection, if any.
    pub fn take(&mut self) -> (r: Option<C>)
        ensures
            old(self).contents().len() == 0 ==> r is None
                && final(self).contents() == old(self).contents(),
            old(self).contents().len() > 0 ==> r == Some(old(self).contents()[0])
                && final(self).contents() == old(self).contents().drop_first(),
            final(self).settings() == old(self).settings(),
    {
        self.idle.pop_front()
    }

    /// Returns a connection to the pool, after the other idle ones.
    pub fn give_back(&mut self, conn: C)
        ensures
            final(self).contents() == old(self).contents().push(conn),
            final(self).settings() == old(self).settings(),
    {
        self.idle.push_back(conn);
    }

    /// The number of idle connections.
    pub fn idle_count(&self) -> (r: usize)
        ensures
            r == self.contents().len(),
    {
        self.idle.len()
    }
}

/// Connections come back out of the pool in the order in which they went
/// in: after giving back `c` to a pool whose idle connections are `s`, the
/// connections taken are those of `s` and then `c`.
pub proof fn law_pool_first_in_first_out<C>(s: Seq<C>, c: C)
    ensures
        s.len() > 0 ==> s.push(c)[0] == s[0] && s.push(c).drop_first() == s.drop_first().push(c),
        s.len() == 0 ==> s.push(c)[0] == c,
{
    if s.len() > 0 {
        assert(s.push(c).drop_first() =~= s.drop_first().push(c));
    }
}

} // verus!
