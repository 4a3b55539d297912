//! A round-robin picker over a fixed list of servers.

use vstd::prelude::*;

verus! {

/// The cursor after one pick among `count` servers: one further, and from
/// the last position back to the first.
pub open spec fn next_cursor(cursor: nat, count: nat) -> nat {
    (cursor + 1) % count
}

/// The cursor after `picks` picks among `count` servers.
pub open spec fn cursor_after(cursor: nat, count: nat, picks: nat) -> nat
    decreases picks,
{
    if picks == 0 {
        cursor
    } else {
        next_cursor(cursor_after(cursor, count, (picks - 1) as nat), count)
    }
}

/// Hands out the servers of a list in turn, starting over at the end.
pub struct LoadBalancer {
    servers: Vec<String>,
    index: usize,
}

impl LoadBalancer {
    /// The servers' names, in the order in which they are handed out.
    pub closed spec fn names(&self) -> Seq<Seq<char>> {
        self.servers@.map_values(|s: String| s@)
    }

    /// The position of the server that is handed out next.
    pub closed spec fn cursor(&self) -> nat {
        self.index as nat
    }

    /// The cursor points at a server, or at zero while there is none. Every
    /// balancer keeps this at all times.
    #[verifier::type_invariant]
    pub open spec fn wf(&self) -> bool {
        self.cursor() == 0 || self.cursor() < self.names().len()
    }

    /// A balancer over `servers` that starts with the first of them.
    pub fn new(servers: Vec<String>) -> (balancer: LoadBalancer)
        ensures
            balancer.names() == servers@.map_values(|s: String| s@),
            balancer.cursor() == 0,
            balancer.wf(),
    {
        LoadBalancer { servers, index: 0 }
    }

    /// How many servers there are.
    pub fn server_count(&self) -> (count: usize)
        ensures
            count == self.names().len(),
    {
        self.servers.len()
    }

    /// The server whose turn it is; the turn then passes to the next one,
    /// and from the last back to the first.
    pub fn get_server(&mut self) -> (server: String)
        requires
            old(self).names().len() > 0,
        ensures
            server@ == old(self).names()[old(self).cursor() as int],
            final(self).names() == old(self).names(),
            final(self).cursor() == next_cursor(old(self).cursor(), old(self).names().len()),
            final(self).wf(),
    {
        proof {
            use_type_invariant(&*self);
        }
        let count: usize = self.servers.len();
        let server = self.servers[self.index].clone();
        self.index = (self.index + 1) % count;
        server
    }
}

} // verus!
