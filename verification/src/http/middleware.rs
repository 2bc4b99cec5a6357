//! Middleware chains: the order in which a request passes the middlewares
//! and reaches its handler, and the CORS headers that the framework adds.
//!
//! The middlewares themselves are the caller's functions; the chain here
//! decides which one runs next, one step at a time.

use vstd::prelude::*;
use crate::http::response::Response;

verus! {

/// Where a request goes next.
#[derive(Debug, Clone, Copy, PartialEq, Eq)]
pub enum Step {
    /// To the middleware at this position.
    Middleware(usize),
    /// To the route's handler.
    Handler,
}

/// The position of a request along a chain of `count` middlewares.
#[derive(Debug, Clone, Copy)]
pub struct Next {
    pub index: usize,
    pub count: usize,
}

/// Where the request at position `index` of a chain of `count`
/// middlewares goes next.
pub open spec fn next_step(index: usize, count: usize) -> Step {
    if index < count {
        Step::Middleware(index)
    } else {
        Step::Handler
    }
}

impl Next {
    /// The start of a chain of `count` middlewares.
    pub fn new(count: usize) -> (r: Next)
        ensures
            r.index == 0,
            r.count == count,
    {
        Next { index: 0, count }
    }

    /// Passes the request on: to the middleware at this position, with the
    /// position after it, or to the handler once every middleware ran.
    pub fn run(self) -> (r: (Step, Next))
        ensures
            r.0 == next_step(self.index, self.count),
            r.1.count == self.count,
            r.1.index == (if self.index < self.count {
                self.index + 1
            } else {
                self.index as int
            }),
    {
        if self.index < self.count {
            (Step::Middleware(self.index), Next { index: self.index + 1, count: self.count })
        } else {
            (Step::Handler, self)
        }
    }
}

/// The step that a request takes after `k` earlier steps from the start of
/// a chain of `count` middlewares.
pub open spec fn step_after(count: usize, k: nat) -> Step {
    if k < count {
        Step::Middleware(k as usize)
    } else {
        Step::Handler
    }
}

/// A request passes the middlewares in the order in which they were added,
/// each once, and then reaches the handler: after `k` steps from the start
/// it stands at position `min(k, count)`.
pub proof fn law_chain_runs_in_order(count: usize, k: nat)
    ensures
        next_step((if k < count { k } else { count as nat }) as usize, count) == step_after(count, k),
{
}

/// The middlewares of a chain, in the order in which they run.
pub struct MiddlewareChain<M> {
    pub middlewares: Vec<M>,
}

impl<M> MiddlewareChain<M> {
    /// A chain of the given middlewares.
    pub fn new(middlewares: Vec<M>) -> (r: Self)
        ensures
            r.middlewares@ == middlewares@,
    {
        MiddlewareChain { middlewares }
    }

    /// Starts a request along the chain: its first step, and its position
    /// after that step.
    pub fn execute(&self) -> (r: (Step, Next))
        ensures
            r.0 == next_step(0, self.middlewares@.len() as usize),
            r.1.count == self.middlewares@.len(),
            r.1.index == (if self.middlewares@.len() > 0 {
                1int
            } else {
                0int
            }),
    {
        Next::new(self.middlewares.len()).run()
    }
}

/// The headers that allow any origin, the usual methods and the
/// `content-type` and `authorization` request headers.
pub open spec fn cors_headers() -> Map<Seq<char>, Seq<char>> {
    map![
        "access-control-allow-origin"@ => "*"@,
        "access-control-allow-methods"@ => "GET,POST,PUT,PATCH,DELETE,OPTIONS"@,
        "access-control-allow-headers"@ => "content-type,authorization"@,
    ]
}

/// Adds the CORS headers to a response (what the CORS middleware does to
/// the response of the rest of the chain).
pub fn add_cors_headers(resp: &mut Response)
    ensures
        final(resp).headers@ == old(resp).headers@.union_prefer_right(cors_headers()),
        final(resp).status == old(resp).status,
        final(resp).body@ == old(resp).body@,
{
    resp.headers.insert("access-control-allow-origin".to_string(), "*".to_string());
    resp.headers.insert(
        "access-control-allow-methods".to_string(),
        "GET,POST,PUT,PATCH,DELETE,OPTIONS".to_string(),
    );
    resp.headers.insert(
        "access-control-allow-headers".to_string(),
        "content-type,authorization".to_string(),
    );
    proof {
        reveal_strlit("access-control-allow-origin");
        reveal_strlit("access-control-allow-methods");
        reveal_strlit("access-control-allow-headers");
        assert("access-control-allow-origin"@[21] != "access-control-allow-methods"@[21]);
        assert("access-control-allow-origin"@[21] != "access-control-allow-headers"@[21]);
        assert("access-control-allow-methods"@[21] != "access-control-allow-headers"@[21]);
    }
    assert(resp.headers@ =~= old(resp).headers@.union_prefer_right(cors_headers()));
}

} // verus!
