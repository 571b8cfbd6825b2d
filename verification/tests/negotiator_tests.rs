use rawrec::negotiator::{
    negotiate, BufferCapability, BufferPolicy, CapabilityEnvelope, BUFFER_FRAME_CAP,
    TARGET_SAMPLE_RATE,
};

fn envelope(channels: u16, buffer: BufferCapability) -> CapabilityEnvelope {
    CapabilityEnvelope { channels, buffer }
}

#[test]
fn candidate_reaching_max_defers_to_host() {
    let env = envelope(2, BufferCapability::Range { min: 512, max: 2_000_000 });
    let config = negotiate(&env, TARGET_SAMPLE_RATE);
    assert_eq!(config.buffer_size, BufferPolicy::HostDefault);
}

#[test]
fn candidate_within_range_is_fixed() {
    let env = envelope(2, BufferCapability::Range { min: 512, max: 8_000_000 });
    let config = negotiate(&env, TARGET_SAMPLE_RATE);
    assert_eq!(config.buffer_size, BufferPolicy::Fixed(4_194_304));
    assert_eq!(BUFFER_FRAME_CAP, 4_194_304);
}

#[test]
fn candidate_below_min_is_clamped_up() {
    let env = envelope(2, BufferCapability::Range { min: 5_000_000, max: 6_000_000 });
    let config = negotiate(&env, TARGET_SAMPLE_RATE);
    assert_eq!(config.buffer_size, BufferPolicy::Fixed(5_000_000));
}

#[test]
fn unspecified_support_defers_to_host() {
    let env = envelope(1, BufferCapability::Unspecified);
    let config = negotiate(&env, TARGET_SAMPLE_RATE);
    assert_eq!(config.buffer_size, BufferPolicy::HostDefault);
}

#[test]
fn channels_taken_verbatim_and_rate_pinned() {
    let env = envelope(6, BufferCapability::Unspecified);
    let config = negotiate(&env, TARGET_SAMPLE_RATE);
    assert_eq!(config.channels, 6);
    assert_eq!(config.sample_rate, 48_000);
}
