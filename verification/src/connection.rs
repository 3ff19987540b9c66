//! The connection loop that the dispatcher and every job manager run around
//! their subscription: when to connect again, and after how long.
//!
//! A subscription is never resumed. After any failure, and after the end of
//! a stream, the loop connects and subscribes from scratch.

use vstd::prelude::*;
use vstd::string::*;
use crate::text::{replace, replaced};

verus! {

/// The longest pause between two attempts to connect, in seconds.
pub const MAX_BACKOFF_SECS: u64 = 128;

/// What the connection loop meets.
#[derive(Clone, Copy, Debug, PartialEq, Eq, Structural)]
pub enum LinkEvent {
    /// The attempt to connect failed.
    ConnectFailed,
    /// The connection stands.
    Connected,
    /// The connection stands, but the subscription was refused.
    SubscribeFailed,
    /// The stream of the subscription ended.
    StreamEnded,
}

/// What the connection loop does next.
#[derive(Clone, Copy, Debug, PartialEq, Eq, Structural)]
pub enum LinkAction {
    /// Subscribe on the connection that stands.
    Subscribe,
    /// Sleep for so many seconds, then connect from scratch.
    Reconnect { after: u64 },
}

/// The pause that follows a pause of `delay` seconds: twice as long, and at
/// most 128 seconds.
pub open spec fn next_delay(delay: nat) -> nat {
    if 2 * delay > 128 {
        128
    } else {
        2 * delay
    }
}

/// The pause and the action after an event, from the pause before it. A
/// failed connect sleeps for the pause and doubles it; a connection resets
/// the pause to one second; a refused subscription sleeps for one second;
/// the end of a stream connects again at once.
pub open spec fn on_link(delay: nat, event: LinkEvent) -> (nat, LinkAction) {
    match event {
        LinkEvent::ConnectFailed => (next_delay(delay), LinkAction::Reconnect { after: delay as u64 }),
        LinkEvent::Connected => (1, LinkAction::Subscribe),
        LinkEvent::SubscribeFailed => (delay, LinkAction::Reconnect { after: 1 }),
        LinkEvent::StreamEnded => (delay, LinkAction::Reconnect { after: 0 }),
    }
}

/// The pause after `failures` failed connects in a row, starting from a
/// pause of one second.
pub open spec fn delay_after(failures: nat) -> nat
    decreases failures,
{
    if failures == 0 {
        1
    } else {
        next_delay(delay_after((failures - 1) as nat))
    }
}

/// The pauses of failed connects in a row are 1, 2, 4, 8, 16, 32, 64 and from
/// then on 128 seconds.
pub proof fn lemma_backoff_schedule(failures: nat)
    ensures
        delay_after(failures) == if failures == 0 {
            1nat
        } else if failures == 1 {
            2nat
        } else if failures == 2 {
            4nat
        } else if failures == 3 {
            8nat
        } else if failures == 4 {
            16nat
        } else if failures == 5 {
            32nat
        } else if failures == 6 {
            64nat
        } else {
            128nat
        },
    decreases failures,
{
    if failures > 0 {
        lemma_backoff_schedule((failures - 1) as nat);
    }
}

/// The exponential backoff of a connection loop.
#[derive(Debug)]
pub struct Backoff {
    delay: u64,
}

impl Backoff {
    #[verifier::type_invariant]
    spec fn in_range(&self) -> bool {
        1 <= self.delay <= 128
    }

    /// The pause, in seconds, that the next failed connect sleeps for.
    pub closed spec fn delay(&self) -> nat {
        self.delay as nat
    }

    /// A backoff with a pause of one second.
    pub fn new() -> (r: Backoff)
        ensures
            r.delay() == 1,
    {
        Backoff { delay: 1 }
    }

    /// The pause, in seconds, that the next failed connect sleeps for; it
    /// lies between 1 and 128.
    pub fn current(&self) -> (r: u64)
        ensures
            r == self.delay(),
            1 <= r <= 128,
    {
        proof {
            use_type_invariant(self);
        }
        self.delay
    }

    /// Takes an event of the connection loop and says what the loop does
    /// next.
    pub fn on(&mut self, event: LinkEvent) -> (action: LinkAction)
        ensures
            (final(self).delay(), action) == on_link(old(self).delay(), event),
    {
        proof {
            use_type_invariant(&*self);
        }
        match event {
            LinkEvent::ConnectFailed => {
                let after: u64 = self.delay;
                let doubled: u64 = after * 2;
                self.delay = if doubled > MAX_BACKOFF_SECS {
                    MAX_BACKOFF_SECS
                } else {
                    doubled
                };
                LinkAction::Reconnect { after }
            },
            LinkEvent::Connected => {
                self.delay = 1;
                LinkAction::Subscribe
            },
            LinkEvent::SubscribeFailed => LinkAction::Reconnect { after: 1 },
            LinkEvent::StreamEnded => LinkAction::Reconnect { after: 0 },
        }
    }
}

/// The HTTP address of a node from its websocket address: every `wss://`
/// becomes `https://`.
pub fn http_endpoint(rpc: &str) -> (r: String)
    ensures
        r@ == replaced(rpc@, "wss://"@, "https://"@),
{
    proof {
        reveal_strlit("wss://");
    }
    replace(rpc, "wss://", "https://")
}

} // verus!
