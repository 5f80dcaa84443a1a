//! The cooldown configuration model, the tracker, and the query/record algorithm.
//!
//! Durations and timestamps are `u64` ticks on a caller-supplied monotonic
//! clock; any fixed unit (for instance milliseconds) works, as long as the
//! same clock feeds every call on one tracker.

use vstd::prelude::*;
use crate::store::BucketKey;
use crate::store::StampMap;

verus! {

/// Identifies one invocation: the user and channel it came from, and the
/// guild, when it did not come from a direct (guild-less) context.
#[derive(Clone, Copy, PartialEq, Eq, Debug, Hash)]
pub struct CooldownContext {
    /// The user associated with this request.
    pub user_id: u64,
    /// The guild this request originated from, absent for direct invocations.
    pub guild_id: Option<u64>,
    /// The channel associated with this request.
    pub channel_id: u64,
}

impl Default for CooldownContext {
    /// A context with zero user and channel ids and no guild.
    fn default() -> (r: Self)
        ensures
            r.user_id == 0,
            r.guild_id is None,
            r.channel_id == 0,
    {
        CooldownContext { user_id: 0, guild_id: None, channel_id: 0 }
    }
}

/// Configuration for [`Cooldowns`]: one optional duration per bucket.
/// An absent duration means "no limit for that bucket".
#[derive(Clone, Copy, PartialEq, Eq, Debug, Hash)]
pub struct CooldownConfig {
    /// This cooldown operates on a global basis.
    pub global: Option<u64>,
    /// This cooldown operates on a per-user basis.
    pub user: Option<u64>,
    /// This cooldown operates on a per-guild basis.
    pub guild: Option<u64>,
    /// This cooldown operates on a per-channel basis.
    pub channel: Option<u64>,
    /// This cooldown operates on a per-member (user and guild) basis.
    pub member: Option<u64>,
}

/// Every duration of `cfg` is absent: no bucket ever blocks.
pub open spec fn all_absent(cfg: CooldownConfig) -> bool {
    &&& cfg.global is None
    &&& cfg.user is None
    &&& cfg.guild is None
    &&& cfg.channel is None
    &&& cfg.member is None
}

impl Default for CooldownConfig {
    /// The documented default: every duration absent.
    fn default() -> (r: Self)
        ensures
            all_absent(r),
    {
        CooldownConfig { global: None, user: None, guild: None, channel: None, member: None }
    }
}

/// The recorded timestamp for key `k`, absent when never recorded.
pub open spec fn stamp_of(stamps: Map<BucketKey, u64>, k: BucketKey) -> Option<u64> {
    if stamps.contains_key(k) {
        Some(stamps[k])
    } else {
        None
    }
}

/// Ticks elapsed from `last` to `now`, clamped at zero when the clock
/// appears to have moved backward.
pub open spec fn spec_elapsed(now: u64, last: u64) -> int {
    if now >= last {
        now - last
    } else {
        0
    }
}

/// The remaining wait of a single bucket: present exactly when the bucket
/// has a configured duration, a recorded timestamp, and less than the
/// duration has elapsed; the wait is then duration minus elapsed time,
/// which is strictly positive.
pub open spec fn spec_bucket_remaining(duration: Option<u64>, last: Option<u64>, now: u64) -> Option<u64> {
    match (duration, last) {
        (Some(d), Some(t)) => if spec_elapsed(now, t) < d {
            Some((d - spec_elapsed(now, t)) as u64)
        } else {
            None
        },
        _ => None,
    }
}

/// The larger of two optional waits; absent only when both are absent.
pub open spec fn opt_max(a: Option<u64>, b: Option<u64>) -> Option<u64> {
    match (a, b) {
        (Some(x), Some(y)) => if x >= y { Some(x) } else { Some(y) },
        (Some(x), None) => Some(x),
        (None, y) => y,
    }
}

/// Remaining wait of the global bucket.
pub open spec fn rem_global(cfg: CooldownConfig, stamps: Map<BucketKey, u64>, now: u64) -> Option<u64> {
    spec_bucket_remaining(cfg.global, stamp_of(stamps, BucketKey::Global), now)
}

/// Remaining wait of the bucket for user `u`.
pub open spec fn rem_user(cfg: CooldownConfig, stamps: Map<BucketKey, u64>, u: u64, now: u64) -> Option<u64> {
    spec_bucket_remaining(cfg.user, stamp_of(stamps, BucketKey::User(u)), now)
}

/// Remaining wait of the bucket for channel `c`.
pub open spec fn rem_channel(cfg: CooldownConfig, stamps: Map<BucketKey, u64>, c: u64, now: u64) -> Option<u64> {
    spec_bucket_remaining(cfg.channel, stamp_of(stamps, BucketKey::Channel(c)), now)
}

/// Remaining wait of the bucket for guild `g`.
pub open spec fn rem_guild(cfg: CooldownConfig, stamps: Map<BucketKey, u64>, g: u64, now: u64) -> Option<u64> {
    spec_bucket_remaining(cfg.guild, stamp_of(stamps, BucketKey::Guild(g)), now)
}

/// Remaining wait of the bucket for the member (user `u`, guild `g`).
pub open spec fn rem_member(cfg: CooldownConfig, stamps: Map<BucketKey, u64>, u: u64, g: u64, now: u64) -> Option<u64> {
    spec_bucket_remaining(cfg.member, stamp_of(stamps, BucketKey::Member(u, g)), now)
}

/// The overall remaining wait for `ctx` at time `now`: the maximum of the
/// remaining waits of all applicable buckets, absent when every applicable
/// bucket is inactive or expired. The guild and member buckets apply only
/// when the context carries a guild id.
pub open spec fn spec_remaining(cfg: CooldownConfig, stamps: Map<BucketKey, u64>, ctx: CooldownContext, now: u64) -> Option<u64> {
    let base = opt_max(
        opt_max(rem_global(cfg, stamps, now), rem_user(cfg, stamps, ctx.user_id, now)),
        rem_channel(cfg, stamps, ctx.channel_id, now),
    );
    match ctx.guild_id {
        Some(g) => opt_max(
            opt_max(base, rem_guild(cfg, stamps, g, now)),
            rem_member(cfg, stamps, ctx.user_id, g, now),
        ),
        None => base,
    }
}

/// The stamps after recording `now` for every bucket applicable to `ctx`:
/// global, user and channel always; guild and member only when the context
/// carries a guild id. All other keys keep their timestamps.
pub open spec fn spec_record(stamps: Map<BucketKey, u64>, ctx: CooldownContext, now: u64) -> Map<BucketKey, u64> {
    let base = stamps
        .insert(BucketKey::Global, now)
        .insert(BucketKey::User(ctx.user_id), now)
        .insert(BucketKey::Channel(ctx.channel_id), now);
    match ctx.guild_id {
        Some(g) => base
            .insert(BucketKey::Guild(g), now)
            .insert(BucketKey::Member(ctx.user_id, g), now),
        None => base,
    }
}

/// The remaining wait of a single bucket, as [`spec_bucket_remaining`] states it.
fn bucket_remaining(duration: Option<u64>, last: Option<u64>, now: u64) -> (r: Option<u64>)
    ensures
        r == spec_bucket_remaining(duration, last, now),
{
    match (duration, last) {
        (Some(d), Some(t)) => {
            let elapsed: u64 = if now >= t { now - t } else { 0 };
            if elapsed < d {
                Some(d - elapsed)
            } else {
                None
            }
        }
        _ => None,
    }
}

/// The larger of two optional waits, as [`opt_max`] states it.
fn max_wait(a: Option<u64>, b: Option<u64>) -> (r: Option<u64>)
    ensures
        r == opt_max(a, b),
{
    match (a, b) {
        (Some(x), Some(y)) => if x >= y { Some(x) } else { Some(y) },
        (Some(x), None) => Some(x),
        (None, y) => y,
    }
}

/// Handles cooldowns for a single command: the active configuration plus the
/// recorded last-invocation timestamp of every bucket.
#[derive(Clone, Debug)]
pub struct Cooldowns {
    /// The cooldown durations in use.
    cooldown: CooldownConfig,
    /// The last-invocation timestamps, one per bucket key.
    invocations: StampMap,
}

impl Cooldowns {
    /// The active configuration.
    pub closed spec fn config(self) -> CooldownConfig {
        self.cooldown
    }

    /// The recorded timestamps, one per bucket key.
    pub closed spec fn stamps(self) -> Map<BucketKey, u64> {
        self.invocations@
    }

    /// Well-formed: the timestamp store holds each key at most once.
    pub closed spec fn wf(self) -> bool {
        self.invocations.wf()
    }

    /// A tracker with the given cooldown durations and no recorded timestamps.
    pub fn new(config: CooldownConfig) -> (r: Self)
        ensures
            r.wf(),
            r.config() == config,
            r.stamps() == Map::<BucketKey, u64>::empty(),
    {
        Cooldowns { cooldown: config, invocations: StampMap::new() }
    }

    /// Queries the buckets applicable to `ctx` at time `now`. Returns absent
    /// when every applicable cooldown has expired (or never started) and
    /// execution may proceed; otherwise returns the longest remaining wait
    /// across the active buckets, which is strictly positive.
    pub fn remaining_cooldown(&self, ctx: &CooldownContext, now: u64) -> (r: Option<u64>)
        requires
            self.wf(),
        ensures
            r == spec_remaining(self.config(), self.stamps(), *ctx, now),
    {
        let mut best = bucket_remaining(self.cooldown.global, self.invocations.get(BucketKey::Global), now);
        best = max_wait(
            best,
            bucket_remaining(self.cooldown.user, self.invocations.get(BucketKey::User(ctx.user_id)), now),
        );
        best = max_wait(
            best,
            bucket_remaining(self.cooldown.channel, self.invocations.get(BucketKey::Channel(ctx.channel_id)), now),
        );
        if let Some(guild_id) = ctx.guild_id {
            best = max_wait(
                best,
                bucket_remaining(self.cooldown.guild, self.invocations.get(BucketKey::Guild(guild_id)), now),
            );
            best = max_wait(
                best,
                bucket_remaining(
                    self.cooldown.member,
                    self.invocations.get(BucketKey::Member(ctx.user_id, guild_id)),
                    now,
                ),
            );
        }
        best
    }

    /// Records `now` as the last-invocation timestamp in every bucket
    /// applicable to `ctx`, in one exclusive step: no reader sees some
    /// buckets updated and others not. Timestamps of all other keys and the
    /// configuration are unchanged.
    pub fn start_cooldown(&mut self, ctx: &CooldownContext, now: u64)
        requires
            old(self).wf(),
        ensures
            final(self).wf(),
            final(self).config() == old(self).config(),
            final(self).stamps() == spec_record(old(self).stamps(), *ctx, now),
    {
        self.invocations.insert(BucketKey::Global, now);
        self.invocations.insert(BucketKey::User(ctx.user_id), now);
        self.invocations.insert(BucketKey::Channel(ctx.channel_id), now);
        if let Some(guild_id) = ctx.guild_id {
            self.invocations.insert(BucketKey::Guild(guild_id), now);
            self.invocations.insert(BucketKey::Member(ctx.user_id, guild_id), now);
        }
    }

    /// Replaces the active configuration. No recorded timestamp is cleared
    /// or reset: a bucket whose duration becomes present starts comparing
    /// against whatever timestamp already exists for its key.
    pub fn set_config(&mut self, config: CooldownConfig)
        requires
            old(self).wf(),
        ensures
            final(self).wf(),
            final(self).config() == config,
            final(self).stamps() == old(self).stamps(),
    {
        self.cooldown = config;
    }
}

impl Default for Cooldowns {
    /// A tracker that never blocks: every duration absent, nothing recorded.
    fn default() -> (r: Self)
        ensures
            r.wf(),
            all_absent(r.config()),
            r.stamps() == Map::<BucketKey, u64>::empty(),
    {
        Cooldowns::new(CooldownConfig::default())
    }
}

} // verus!
