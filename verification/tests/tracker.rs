use cooldowns::cooldown::{CooldownConfig, CooldownContext, Cooldowns};

fn ctx(user_id: u64, guild_id: Option<u64>, channel_id: u64) -> CooldownContext {
    CooldownContext { user_id, guild_id, channel_id }
}

#[test]
fn fresh_tracker_never_blocks() {
    let tracker = Cooldowns::new(CooldownConfig {
        global: Some(10),
        user: Some(20),
        guild: Some(30),
        channel: Some(40),
        member: Some(50),
    });
    assert_eq!(tracker.remaining_cooldown(&ctx(1, Some(2), 3), 0), None);
    assert_eq!(tracker.remaining_cooldown(&ctx(1, None, 3), 1000), None);
    assert_eq!(tracker.remaining_cooldown(&ctx(7, Some(8), 9), u64::MAX), None);
}

#[test]
fn all_absent_config_never_blocks() {
    let c = ctx(1, Some(2), 3);
    let mut tracker = Cooldowns::new(CooldownConfig::default());
    tracker.start_cooldown(&c, 100);
    assert_eq!(tracker.remaining_cooldown(&c, 100), None);
    assert_eq!(tracker.remaining_cooldown(&c, 101), None);
}

#[test]
fn default_tracker_never_blocks() {
    let c = ctx(4, None, 5);
    let mut tracker = Cooldowns::default();
    tracker.start_cooldown(&c, 0);
    assert_eq!(tracker.remaining_cooldown(&c, 0), None);
}

#[test]
fn global_window_counts_down_and_expires() {
    let c = ctx(1, None, 2);
    let mut tracker = Cooldowns::new(CooldownConfig {
        global: Some(50),
        ..CooldownConfig::default()
    });
    tracker.start_cooldown(&c, 100);
    assert_eq!(tracker.remaining_cooldown(&c, 100), Some(50));
    assert_eq!(tracker.remaining_cooldown(&c, 120), Some(30));
    assert_eq!(tracker.remaining_cooldown(&c, 149), Some(1));
    assert_eq!(tracker.remaining_cooldown(&c, 150), None);
    assert_eq!(tracker.remaining_cooldown(&c, 200), None);
}

#[test]
fn global_bucket_blocks_every_context() {
    let mut tracker = Cooldowns::new(CooldownConfig {
        global: Some(10),
        ..CooldownConfig::default()
    });
    tracker.start_cooldown(&ctx(1, Some(2), 3), 0);
    assert_eq!(tracker.remaining_cooldown(&ctx(4, None, 5), 4), Some(6));
}

#[test]
fn channel_buckets_are_independent() {
    let channel_a = ctx(7, None, 1);
    let channel_b = ctx(7, None, 2);
    let mut tracker = Cooldowns::new(CooldownConfig {
        channel: Some(10),
        ..CooldownConfig::default()
    });
    tracker.start_cooldown(&channel_a, 0);
    assert_eq!(tracker.remaining_cooldown(&channel_b, 0), None);
    assert_eq!(tracker.remaining_cooldown(&channel_a, 5), Some(5));
    assert_eq!(tracker.remaining_cooldown(&channel_a, 10), None);
}

#[test]
fn user_bucket_follows_the_user_across_channels() {
    let mut tracker = Cooldowns::new(CooldownConfig {
        user: Some(10),
        ..CooldownConfig::default()
    });
    tracker.start_cooldown(&ctx(7, None, 1), 0);
    assert_eq!(tracker.remaining_cooldown(&ctx(7, None, 2), 4), Some(6));
    assert_eq!(tracker.remaining_cooldown(&ctx(8, None, 1), 4), None);
}

#[test]
fn guild_buckets_are_independent() {
    let mut tracker = Cooldowns::new(CooldownConfig {
        guild: Some(20),
        ..CooldownConfig::default()
    });
    tracker.start_cooldown(&ctx(1, Some(10), 3), 0);
    assert_eq!(tracker.remaining_cooldown(&ctx(2, Some(10), 4), 5), Some(15));
    assert_eq!(tracker.remaining_cooldown(&ctx(1, Some(11), 3), 5), None);
}

#[test]
fn member_bucket_needs_a_guild_id() {
    let with_guild = ctx(1, Some(9), 3);
    let without_guild = ctx(1, None, 3);

    let mut tracker = Cooldowns::new(CooldownConfig {
        member: Some(10),
        ..CooldownConfig::default()
    });
    tracker.start_cooldown(&with_guild, 0);
    assert_eq!(tracker.remaining_cooldown(&without_guild, 0), None);
    assert_eq!(tracker.remaining_cooldown(&with_guild, 0), Some(10));

    let mut tracker = Cooldowns::new(CooldownConfig {
        member: Some(10),
        ..CooldownConfig::default()
    });
    tracker.start_cooldown(&without_guild, 0);
    assert_eq!(tracker.remaining_cooldown(&with_guild, 0), None);
}

#[test]
fn member_bucket_is_per_user_and_guild_pair() {
    let mut tracker = Cooldowns::new(CooldownConfig {
        member: Some(10),
        ..CooldownConfig::default()
    });
    tracker.start_cooldown(&ctx(1, Some(9), 3), 0);
    assert_eq!(tracker.remaining_cooldown(&ctx(1, Some(9), 4), 2), Some(8));
    assert_eq!(tracker.remaining_cooldown(&ctx(2, Some(9), 3), 2), None);
    assert_eq!(tracker.remaining_cooldown(&ctx(1, Some(8), 3), 2), None);
}

#[test]
fn result_is_the_maximum_not_sum_or_minimum() {
    let c = ctx(1, None, 2);
    let mut tracker = Cooldowns::new(CooldownConfig {
        global: Some(2),
        user: Some(5),
        ..CooldownConfig::default()
    });
    tracker.start_cooldown(&c, 0);
    assert_eq!(tracker.remaining_cooldown(&c, 0), Some(5));
    assert_eq!(tracker.remaining_cooldown(&c, 1), Some(4));
    // once the longer bucket expires, the shorter one has expired too
    assert_eq!(tracker.remaining_cooldown(&c, 5), None);
    // in between, only the longer bucket is still active
    assert_eq!(tracker.remaining_cooldown(&c, 3), Some(2));
}

#[test]
fn set_config_keeps_recorded_timestamps() {
    let c = ctx(1, None, 2);
    let mut tracker = Cooldowns::new(CooldownConfig::default());
    tracker.start_cooldown(&c, 0);
    assert_eq!(tracker.remaining_cooldown(&c, 50), None);
    tracker.set_config(CooldownConfig {
        global: Some(100),
        ..CooldownConfig::default()
    });
    // the stale timestamp is still there and blocks under the new window
    assert_eq!(tracker.remaining_cooldown(&c, 50), Some(50));
    assert_eq!(tracker.remaining_cooldown(&c, 100), None);
}

#[test]
fn set_config_can_lift_a_limit() {
    let c = ctx(1, None, 2);
    let mut tracker = Cooldowns::new(CooldownConfig {
        global: Some(100),
        ..CooldownConfig::default()
    });
    tracker.start_cooldown(&c, 0);
    assert_eq!(tracker.remaining_cooldown(&c, 10), Some(90));
    tracker.set_config(CooldownConfig::default());
    assert_eq!(tracker.remaining_cooldown(&c, 10), None);
}

#[test]
fn backward_clock_saturates_to_zero_elapsed() {
    let c = ctx(1, None, 2);
    let mut tracker = Cooldowns::new(CooldownConfig {
        global: Some(10),
        ..CooldownConfig::default()
    });
    tracker.start_cooldown(&c, 100);
    // "now" before the recorded timestamp counts as zero elapsed
    assert_eq!(tracker.remaining_cooldown(&c, 50), Some(10));
}

#[test]
fn exact_expiry_does_not_block() {
    let c = ctx(1, None, 2);
    let mut tracker = Cooldowns::new(CooldownConfig {
        user: Some(7),
        ..CooldownConfig::default()
    });
    tracker.start_cooldown(&c, 3);
    assert_eq!(tracker.remaining_cooldown(&c, 10), None);
    assert_eq!(tracker.remaining_cooldown(&c, 9), Some(1));
}

#[test]
fn zero_duration_never_blocks() {
    let c = ctx(1, Some(2), 3);
    let mut tracker = Cooldowns::new(CooldownConfig {
        global: Some(0),
        user: Some(0),
        guild: Some(0),
        channel: Some(0),
        member: Some(0),
    });
    tracker.start_cooldown(&c, 0);
    assert_eq!(tracker.remaining_cooldown(&c, 0), None);
}

#[test]
fn restart_overwrites_the_timestamp() {
    let c = ctx(1, None, 2);
    let mut tracker = Cooldowns::new(CooldownConfig {
        global: Some(15),
        ..CooldownConfig::default()
    });
    tracker.start_cooldown(&c, 0);
    tracker.start_cooldown(&c, 10);
    assert_eq!(tracker.remaining_cooldown(&c, 20), Some(5));
    assert_eq!(tracker.remaining_cooldown(&c, 25), None);
}

#[test]
fn largest_duration_is_handled() {
    let c = ctx(1, None, 2);
    let mut tracker = Cooldowns::new(CooldownConfig {
        global: Some(u64::MAX),
        ..CooldownConfig::default()
    });
    tracker.start_cooldown(&c, 0);
    assert_eq!(tracker.remaining_cooldown(&c, 0), Some(u64::MAX));
    assert_eq!(tracker.remaining_cooldown(&c, u64::MAX - 1), Some(1));
    assert_eq!(tracker.remaining_cooldown(&c, u64::MAX), None);
}
