//! What a client counts.

use vstd::prelude::*;

verus! {

/// The time between two reports, in milliseconds.
pub const STATS_INTERVAL_MS: u64 = 3_000;

#[derive(Clone, Copy, Debug, PartialEq, Eq, Structural)]
pub struct Stats {
    pub total_bytes_up: i64,
    pub total_bytes_down: i64,
    pub active_connections: i32,
}

impl Default for Stats {
    fn default() -> (r: Stats)
        ensures
            r == (Stats { total_bytes_up: 0, total_bytes_down: 0, active_connections: 0 }),
    {
        Stats { total_bytes_up: 0, total_bytes_down: 0, active_connections: 0 }
    }
}

impl Stats {
    /// A path works.
    pub fn connected(&mut self)
        requires
            old(self).active_connections < i32::MAX,
        ensures
            *final(self) == (Stats {
                active_connections: (old(self).active_connections + 1) as i32,
                ..*old(self)
            }),
    {
        self.active_connections = self.active_connections + 1;
    }

    /// A path works no more; whether it was the last.
    pub fn disconnected(&mut self) -> (r: bool)
        requires
            old(self).active_connections > i32::MIN,
        ensures
            r == (old(self).active_connections == 1),
            *final(self) == (Stats {
                active_connections: (old(self).active_connections - 1) as i32,
                ..*old(self)
            }),
    {
        let last = self.active_connections == 1;
        self.active_connections = self.active_connections - 1;
        last
    }
}

} // verus!
