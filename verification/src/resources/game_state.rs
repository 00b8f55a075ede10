use vstd::prelude::*;

verus! {

/// The game state's network resources: the connection to the server and
/// the number of network ticks sent so far.
pub struct Net<Conn> {
    pub connection: Conn,
    pub network_tick_count: u32,
}

impl<Conn> Net<Conn> {
    /// Decides whether a network tick is due at `now_ms` milliseconds after
    /// launch, for ticks of `tick_duration_ms` milliseconds: it is due when
    /// the time is past the start of the next tick, `network_tick_count *
    /// tick_duration_ms`. A due tick is counted; the connection is left alone.
    pub fn poll_network_tick(&mut self, now_ms: u32, tick_duration_ms: u32) -> (due: bool)
        requires
            old(self).network_tick_count * tick_duration_ms <= u32::MAX,
            now_ms > old(self).network_tick_count * tick_duration_ms ==> old(
                self,
            ).network_tick_count < u32::MAX,
        ensures
            due == (now_ms > old(self).network_tick_count * tick_duration_ms),
            final(self).network_tick_count == if due {
                old(self).network_tick_count + 1
            } else {
                old(self).network_tick_count as int
            },
            final(self).connection == old(self).connection,
    {
        if now_ms > self.network_tick_count * tick_duration_ms {
            self.network_tick_count = self.network_tick_count + 1;
            true
        } else {
            false
        }
    }
}

} // verus!
