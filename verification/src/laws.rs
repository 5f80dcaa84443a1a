//! Laws of the cooldown algorithm, stated over the same spec functions the
//! tracker's contracts use.

use vstd::prelude::*;
use crate::cooldown::CooldownConfig;
use crate::cooldown::CooldownContext;
use crate::cooldown::all_absent;
use crate::cooldown::rem_channel;
use crate::cooldown::rem_global;
use crate::cooldown::rem_guild;
use crate::cooldown::rem_member;
use crate::cooldown::rem_user;
use crate::cooldown::spec_elapsed;
use crate::cooldown::spec_record;
use crate::cooldown::spec_remaining;
use crate::store::BucketKey;

verus! {

/// With no recorded timestamps, a query never blocks, whatever the
/// configured durations.
pub proof fn lemma_no_stamps_never_blocks(cfg: CooldownConfig, ctx: CooldownContext, now: u64)
    ensures
        spec_remaining(cfg, Map::empty(), ctx, now) is None,
{
}

/// With every duration absent, a query never blocks, whatever timestamps
/// were recorded.
pub proof fn lemma_all_absent_never_blocks(
    cfg: CooldownConfig,
    stamps: Map<BucketKey, u64>,
    ctx: CooldownContext,
    now: u64,
)
    requires
        all_absent(cfg),
    ensures
        spec_remaining(cfg, stamps, ctx, now) is None,
{
}

/// With only a global duration `dg` configured, recording at `t0` blocks a
/// query at `now` for a strictly positive wait of at most `dg` while less
/// than `dg` ticks have elapsed, and not at all once `dg` ticks have elapsed
/// — whatever was recorded before.
pub proof fn lemma_global_window(
    cfg: CooldownConfig,
    stamps: Map<BucketKey, u64>,
    ctx: CooldownContext,
    dg: u64,
    t0: u64,
    now: u64,
)
    requires
        cfg.global == Some(dg),
        cfg.user is None,
        cfg.guild is None,
        cfg.channel is None,
        cfg.member is None,
    ensures
        spec_elapsed(now, t0) < dg ==> (spec_remaining(cfg, spec_record(stamps, ctx, t0), ctx, now)
            matches Some(d) && 0 < d <= dg),
        spec_elapsed(now, t0) >= dg ==> spec_remaining(cfg, spec_record(stamps, ctx, t0), ctx, now) is None,
{
}

/// Bucket independence per channel: with only a channel duration configured
/// and nothing recorded before, an invocation from one channel never blocks
/// a query from another channel, while a query from the same channel is
/// still blocked before the duration has elapsed.
pub proof fn lemma_channel_independence(
    cfg: CooldownConfig,
    ctx_a: CooldownContext,
    ctx_b: CooldownContext,
    dc: u64,
    t0: u64,
    now: u64,
)
    requires
        cfg.channel == Some(dc),
        cfg.global is None,
        cfg.user is None,
        cfg.guild is None,
        cfg.member is None,
        ctx_a.guild_id is None,
        ctx_b.guild_id is None,
        ctx_a.user_id == ctx_b.user_id,
        ctx_a.channel_id != ctx_b.channel_id,
    ensures
        spec_remaining(cfg, spec_record(Map::empty(), ctx_a, t0), ctx_b, now) is None,
        spec_elapsed(now, t0) < dc ==> spec_remaining(cfg, spec_record(Map::empty(), ctx_a, t0), ctx_a, now) is Some,
{
}

/// The member bucket fires only when a guild id is present: with only a
/// member duration configured and nothing recorded before, two contexts with
/// the same user id, one carrying a guild id and one not, never block each
/// other.
pub proof fn lemma_member_requires_guild(
    cfg: CooldownConfig,
    ctx_g: CooldownContext,
    ctx_n: CooldownContext,
    dm: u64,
    t0: u64,
    now: u64,
)
    requires
        cfg.member == Some(dm),
        cfg.global is None,
        cfg.user is None,
        cfg.guild is None,
        cfg.channel is None,
        ctx_g.guild_id is Some,
        ctx_n.guild_id is None,
        ctx_g.user_id == ctx_n.user_id,
    ensures
        spec_remaining(cfg, spec_record(Map::empty(), ctx_g, t0), ctx_n, now) is None,
        spec_remaining(cfg, spec_record(Map::empty(), ctx_n, t0), ctx_g, now) is None,
{
}

/// The overall remaining wait is the maximum of the individually-remaining
/// bucket waits: it is at least each applicable bucket's wait, it equals one
/// of them, and it is absent exactly when every applicable bucket's wait is.
pub proof fn lemma_remaining_is_max(
    cfg: CooldownConfig,
    stamps: Map<BucketKey, u64>,
    ctx: CooldownContext,
    now: u64,
)
    ensures
        rem_global(cfg, stamps, now) matches Some(x)
            ==> (spec_remaining(cfg, stamps, ctx, now) matches Some(d) && d >= x),
        rem_user(cfg, stamps, ctx.user_id, now) matches Some(x)
            ==> (spec_remaining(cfg, stamps, ctx, now) matches Some(d) && d >= x),
        rem_channel(cfg, stamps, ctx.channel_id, now) matches Some(x)
            ==> (spec_remaining(cfg, stamps, ctx, now) matches Some(d) && d >= x),
        ctx.guild_id matches Some(g)
            ==> (rem_guild(cfg, stamps, g, now) matches Some(x)
                ==> (spec_remaining(cfg, stamps, ctx, now) matches Some(d) && d >= x)),
        ctx.guild_id matches Some(g)
            ==> (rem_member(cfg, stamps, ctx.user_id, g, now) matches Some(x)
                ==> (spec_remaining(cfg, stamps, ctx, now) matches Some(d) && d >= x)),
        spec_remaining(cfg, stamps, ctx, now) matches Some(d) ==> {
            ||| Some(d) == rem_global(cfg, stamps, now)
            ||| Some(d) == rem_user(cfg, stamps, ctx.user_id, now)
            ||| Some(d) == rem_channel(cfg, stamps, ctx.channel_id, now)
            ||| (ctx.guild_id matches Some(g) && {
                ||| Some(d) == rem_guild(cfg, stamps, g, now)
                ||| Some(d) == rem_member(cfg, stamps, ctx.user_id, g, now)
            })
        },
        spec_remaining(cfg, stamps, ctx, now) is None <==> {
            &&& rem_global(cfg, stamps, now) is None
            &&& rem_user(cfg, stamps, ctx.user_id, now) is None
            &&& rem_channel(cfg, stamps, ctx.channel_id, now) is None
            &&& (ctx.guild_id matches Some(g) ==> rem_guild(cfg, stamps, g, now) is None
                && rem_member(cfg, stamps, ctx.user_id, g, now) is None)
        },
{
}

} // verus!
