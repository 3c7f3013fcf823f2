//! Per-provider rate-limit state: a capacity window that depletes on
//! consumption and resets on a fixed schedule.

use vstd::prelude::*;

use crate::clock;
use crate::clock::MAX_TS;
use crate::provider::Provider;

verus! {

/// Default yellow threshold used by `consume`, in thousandths of capacity.
pub const DEFAULT_YELLOW: u32 = 500;

/// Default red threshold used by `consume`, in thousandths of capacity.
pub const DEFAULT_RED: u32 = 200;

/// Qualitative capacity level, derived from the ratio of remaining
/// capacity: Green above the yellow threshold, Yellow between the two
/// thresholds (both boundaries included), Red below the red threshold,
/// Empty at zero.
#[derive(Clone, Copy, Debug, PartialEq, Eq, Structural)]
pub enum TankHealth {
    Green,
    Yellow,
    Red,
    Empty,
}

/// Health as a function of remaining capacity and the two thresholds,
/// which are ratios in thousandths.
pub open spec fn health_of(remaining: u64, capacity: u64, yellow: u32, red: u32) -> TankHealth {
    if capacity == 0 || remaining == 0 {
        TankHealth::Empty
    } else if (remaining as int) * 1000 < (red as int) * (capacity as int) {
        TankHealth::Red
    } else if (remaining as int) * 1000 <= (yellow as int) * (capacity as int) {
        TankHealth::Yellow
    } else {
        TankHealth::Green
    }
}

impl TankHealth {
    /// Calculate health from remaining capacity and the two thresholds
    /// (ratios in thousandths of capacity).
    pub fn from_ratio(remaining: u64, capacity: u64, yellow: u32, red: u32) -> (r: TankHealth)
        ensures
            r == health_of(remaining, capacity, yellow, red),
    {
        proof {
            assert((red as int) * (capacity as int) <= 0xFFFF_FFFF * 0xFFFF_FFFF_FFFF_FFFF)
                by (nonlinear_arith)
                requires
                    0 <= red <= 0xFFFF_FFFFu32,
                    0 <= capacity <= 0xFFFF_FFFF_FFFF_FFFFu64,
            ;
            assert((yellow as int) * (capacity as int) <= 0xFFFF_FFFF * 0xFFFF_FFFF_FFFF_FFFF)
                by (nonlinear_arith)
                requires
                    0 <= yellow <= 0xFFFF_FFFFu32,
                    0 <= capacity <= 0xFFFF_FFFF_FFFF_FFFFu64,
            ;
        }
        if capacity == 0 || remaining == 0 {
            TankHealth::Empty
        } else if (remaining as u128) * 1000 < (red as u128) * (capacity as u128) {
            TankHealth::Red
        } else if (remaining as u128) * 1000 <= (yellow as u128) * (capacity as u128) {
            TankHealth::Yellow
        } else {
            TankHealth::Green
        }
    }

    /// ANSI color code for terminal display.
    pub fn color_code(&self) -> (r: &'static str)
        ensures
            r@ == match *self {
                TankHealth::Green => "\x1b[32m"@,
                TankHealth::Yellow => "\x1b[33m"@,
                TankHealth::Red => "\x1b[31m"@,
                TankHealth::Empty => "\x1b[90m"@,
            },
    {
        match self {
            TankHealth::Green => "\x1b[32m",
            TankHealth::Yellow => "\x1b[33m",
            TankHealth::Red => "\x1b[31m",
            TankHealth::Empty => "\x1b[90m",
        }
    }

    /// Emoji for display.
    pub fn emoji(&self) -> (r: &'static str)
        ensures
            r@ == match *self {
                TankHealth::Green => "🟢"@,
                TankHealth::Yellow => "🟡"@,
                TankHealth::Red => "🔴"@,
                TankHealth::Empty => "⚫"@,
            },
    {
        match self {
            TankHealth::Green => "🟢",
            TankHealth::Yellow => "🟡",
            TankHealth::Red => "🔴",
            TankHealth::Empty => "⚫",
        }
    }
}

/// Error when trying to consume more tokens than available.
#[derive(Clone, Copy, Debug, PartialEq, Eq, Structural)]
pub struct InsufficientCapacity {
    pub requested: u64,
    pub available: u64,
    pub provider: Provider,
}

/// Rate-limit state for one provider.
#[derive(Clone, Copy, Debug)]
pub struct Tank {
    /// Provider this tank belongs to.
    pub provider: Provider,
    /// Maximum tokens in a window.
    pub capacity: u64,
    /// Remaining tokens in the current window.
    pub remaining: u64,
    /// When the current window started (milliseconds since the epoch).
    pub window_start: i64,
    /// When the current window ends (reset time).
    pub window_end: i64,
    /// Current health level.
    pub health: TankHealth,
    /// Last request time, if any request was made.
    pub last_request: Option<i64>,
    /// Requests made in the current window.
    pub requests_this_window: u32,
    /// Tokens consumed in the current window.
    pub tokens_this_window: u64,
    /// When this state was last updated.
    pub updated_at: i64,
}

/// The state of a tank after consuming `tokens` at time `now`, as
/// `consume_at` leaves it on success.
pub open spec fn spec_after_consume(t: Tank, tokens: u64, now: i64) -> Tank {
    Tank {
        remaining: (t.remaining - tokens) as u64,
        tokens_this_window: if t.tokens_this_window + tokens <= u64::MAX {
            (t.tokens_this_window + tokens) as u64
        } else {
            u64::MAX
        },
        requests_this_window: if t.requests_this_window + 1 <= u32::MAX {
            (t.requests_this_window + 1) as u32
        } else {
            u32::MAX
        },
        last_request: Some(now),
        updated_at: now,
        health: health_of((t.remaining - tokens) as u64, t.capacity, DEFAULT_YELLOW, DEFAULT_RED),
        ..t
    }
}

impl Tank {
    /// The tank invariant: remaining capacity never exceeds total
    /// capacity, and the window is well-ordered in time.
    pub open spec fn inv(self) -> bool {
        &&& self.remaining <= self.capacity
        &&& 0 <= self.window_start <= self.window_end
    }

    /// Create a tank with full capacity, with the window starting at
    /// `now`. Health is derived from the full ratio, as everywhere else:
    /// green for any positive capacity, empty for a zero-capacity tank.
    pub fn new_at(provider: Provider, capacity: u64, window_hours: u32, now: i64) -> (r: Tank)
        requires
            0 <= now <= MAX_TS,
        ensures
            r.provider == provider,
            r.capacity == capacity,
            r.remaining == capacity,
            r.window_start == now,
            r.window_end == now + (window_hours as int) * 3600000,
            r.health == health_of(capacity, capacity, DEFAULT_YELLOW, DEFAULT_RED),
            r.last_request is None,
            r.requests_this_window == 0,
            r.tokens_this_window == 0,
            r.updated_at == now,
            r.inv(),
    {
        let window_ms: i64 = (window_hours as i64) * 3600000;
        Tank {
            provider,
            capacity,
            remaining: capacity,
            window_start: now,
            window_end: now + window_ms,
            health: TankHealth::from_ratio(capacity, capacity, DEFAULT_YELLOW, DEFAULT_RED),
            last_request: None,
            requests_this_window: 0,
            tokens_this_window: 0,
            updated_at: now,
        }
    }

    /// Create a tank with full capacity, with the window starting now.
    pub fn new(provider: Provider, capacity: u64, window_hours: u32) -> (r: Tank)
        ensures
            r.provider == provider,
            r.capacity == capacity,
            r.remaining == capacity,
            0 <= r.window_start <= MAX_TS,
            r.window_end == r.window_start + (window_hours as int) * 3600000,
            r.health == health_of(capacity, capacity, DEFAULT_YELLOW, DEFAULT_RED),
            r.last_request is None,
            r.requests_this_window == 0,
            r.tokens_this_window == 0,
            r.updated_at == r.window_start,
            r.inv(),
    {
        let now = clock::clamp_ts(clock::now_millis());
        Tank::new_at(provider, capacity, window_hours, now)
    }

    /// Whether the window has passed its end and needs a reset.
    pub fn needs_refresh(&self, now: i64) -> (r: bool)
        ensures
            r == (now >= self.window_end),
    {
        now >= self.window_end
    }

    /// Time until the window resets; zero if the reset time has passed.
    pub fn time_until_reset(&self, now: i64) -> (r: i64)
        requires
            0 <= now,
        ensures
            r == if now >= self.window_end { 0int } else { self.window_end - now },
    {
        if now >= self.window_end {
            0
        } else {
            self.window_end - now
        }
    }

    /// Whether `tokens` can be consumed: enough remaining, and the tank
    /// is not locked out.
    pub fn can_consume(&self, tokens: u64) -> (r: bool)
        ensures
            r == (self.remaining >= tokens && self.health != TankHealth::Empty),
    {
        self.remaining >= tokens && !matches!(self.health, TankHealth::Empty)
    }

    /// Consume tokens, recording `now` as the request time. Fails with
    /// the requested and available amounts when capacity is insufficient,
    /// leaving the tank unchanged; never silently caps consumption.
    pub fn consume_at(&mut self, tokens: u64, now: i64) -> (r: Result<(), InsufficientCapacity>)
        ensures
            r is Ok <==> (old(self).remaining >= tokens && old(self).health != TankHealth::Empty),
            r is Ok ==> {
                &&& final(self).remaining == old(self).remaining - tokens
                &&& final(self).tokens_this_window == if old(self).tokens_this_window + tokens
                    <= u64::MAX { old(self).tokens_this_window + tokens } else { u64::MAX as int }
                &&& final(self).requests_this_window == if old(self).requests_this_window + 1
                    <= u32::MAX { old(self).requests_this_window + 1 } else { u32::MAX as int }
                &&& final(self).last_request == Some(now)
                &&& final(self).updated_at == now
                &&& final(self).health == health_of(
                    (old(self).remaining - tokens) as u64,
                    old(self).capacity,
                    DEFAULT_YELLOW,
                    DEFAULT_RED,
                )
                &&& final(self).provider == old(self).provider
                &&& final(self).capacity == old(self).capacity
                &&& final(self).window_start == old(self).window_start
                &&& final(self).window_end == old(self).window_end
            },
            r matches Err(e) ==> {
                &&& *final(self) == *old(self)
                &&& e.requested == tokens
                &&& e.available == old(self).remaining
                &&& e.provider == old(self).provider
            },
            old(self).inv() ==> final(self).inv(),
    {
        if !self.can_consume(tokens) {
            return Err(InsufficientCapacity {
                requested: tokens,
                available: self.remaining,
                provider: self.provider,
            });
        }
        self.remaining = self.remaining - tokens;
        self.tokens_this_window = if self.tokens_this_window <= u64::MAX - tokens {
            self.tokens_this_window + tokens
        } else {
            u64::MAX
        };
        self.requests_this_window = if self.requests_this_window < u32::MAX {
            self.requests_this_window + 1
        } else {
            u32::MAX
        };
        self.last_request = Some(now);
        self.health = TankHealth::from_ratio(
            self.remaining,
            self.capacity,
            DEFAULT_YELLOW,
            DEFAULT_RED,
        );
        self.updated_at = now;
        Ok(())
    }

    /// Consume tokens, taking the request time from the clock.
    pub fn consume(&mut self, tokens: u64) -> (r: Result<(), InsufficientCapacity>)
        ensures
            r is Ok <==> (old(self).remaining >= tokens && old(self).health != TankHealth::Empty),
            r is Ok ==> {
                &&& final(self).remaining == old(self).remaining - tokens
                &&& final(self).tokens_this_window == if old(self).tokens_this_window + tokens
                    <= u64::MAX { old(self).tokens_this_window + tokens } else { u64::MAX as int }
                &&& final(self).requests_this_window == if old(self).requests_this_window + 1
                    <= u32::MAX { old(self).requests_this_window + 1 } else { u32::MAX as int }
                &&& final(self).last_request == Some(final(self).updated_at)
                &&& final(self).health == health_of(
                    (old(self).remaining - tokens) as u64,
                    old(self).capacity,
                    DEFAULT_YELLOW,
                    DEFAULT_RED,
                )
                &&& final(self).provider == old(self).provider
                &&& final(self).capacity == old(self).capacity
                &&& final(self).window_start == old(self).window_start
                &&& final(self).window_end == old(self).window_end
            },
            r matches Err(e) ==> {
                &&& *final(self) == *old(self)
                &&& e.requested == tokens
                &&& e.available == old(self).remaining
                &&& e.provider == old(self).provider
            },
            old(self).inv() ==> final(self).inv(),
    {
        let now = clock::now_millis();
        self.consume_at(tokens, now)
    }

    /// Reset the window at time `now`: restore full capacity, clear the
    /// window counters, and recompute window bounds and health.
    pub fn reset_window_at(&mut self, window_hours: u32, now: i64)
        requires
            0 <= now <= MAX_TS,
        ensures
            final(self).remaining == old(self).capacity,
            final(self).window_start == now,
            final(self).window_end == now + (window_hours as int) * 3600000,
            final(self).requests_this_window == 0,
            final(self).tokens_this_window == 0,
            final(self).health == health_of(
                old(self).capacity,
                old(self).capacity,
                DEFAULT_YELLOW,
                DEFAULT_RED,
            ),
            final(self).updated_at == now,
            final(self).provider == old(self).provider,
            final(self).capacity == old(self).capacity,
            final(self).last_request == old(self).last_request,
            final(self).inv(),
    {
        let window_ms: i64 = (window_hours as i64) * 3600000;
        self.window_start = now;
        self.window_end = now + window_ms;
        self.remaining = self.capacity;
        self.requests_this_window = 0;
        self.tokens_this_window = 0;
        self.health = TankHealth::from_ratio(
            self.remaining,
            self.capacity,
            DEFAULT_YELLOW,
            DEFAULT_RED,
        );
        self.updated_at = now;
    }

    /// Reset the window, taking the reset time from the clock.
    pub fn reset_window(&mut self, window_hours: u32)
        ensures
            final(self).remaining == old(self).capacity,
            0 <= final(self).window_start <= MAX_TS,
            final(self).window_end == final(self).window_start + (window_hours as int) * 3600000,
            final(self).requests_this_window == 0,
            final(self).tokens_this_window == 0,
            final(self).health == health_of(
                old(self).capacity,
                old(self).capacity,
                DEFAULT_YELLOW,
                DEFAULT_RED,
            ),
            final(self).updated_at == final(self).window_start,
            final(self).provider == old(self).provider,
            final(self).capacity == old(self).capacity,
            final(self).last_request == old(self).last_request,
            final(self).inv(),
    {
        let now = clock::clamp_ts(clock::now_millis());
        self.reset_window_at(window_hours, now)
    }

    /// Override the remaining capacity from an externally reported quota,
    /// clamped to capacity, and recompute health with the given
    /// thresholds (ratios in thousandths).
    pub fn update_remaining(&mut self, remaining: u64, yellow: u32, red: u32)
        ensures
            final(self).remaining == if remaining <= old(self).capacity {
                remaining as int
            } else {
                old(self).capacity as int
            },
            final(self).health == health_of(
                final(self).remaining as u64,
                old(self).capacity,
                yellow,
                red,
            ),
            final(self).provider == old(self).provider,
            final(self).capacity == old(self).capacity,
            final(self).window_start == old(self).window_start,
            final(self).window_end == old(self).window_end,
            final(self).last_request == old(self).last_request,
            final(self).requests_this_window == old(self).requests_this_window,
            final(self).tokens_this_window == old(self).tokens_this_window,
            old(self).inv() ==> final(self).inv(),
    {
        self.remaining = if remaining <= self.capacity {
            remaining
        } else {
            self.capacity
        };
        self.health = TankHealth::from_ratio(self.remaining, self.capacity, yellow, red);
        self.updated_at = clock::now_millis();
    }
}

} // verus!
