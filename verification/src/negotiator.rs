use vstd::prelude::*;

verus! {

/// The sample rate every capture is pinned to, regardless of device defaults.
pub const TARGET_SAMPLE_RATE: u32 = 48000;

/// The largest buffer size (in frames) the negotiator will ever request.
pub const BUFFER_FRAME_CAP: u32 = 4 * 1024 * 1024;

/// Buffer-size support as a device reports it: either a continuous
/// `[min, max]` range of frame counts, or no information at all.
#[derive(Clone, Copy, Debug, PartialEq, Eq, Structural)]
pub enum BufferCapability {
    Range { min: u32, max: u32 },
    Unspecified,
}

/// The chosen buffer-size policy: a fixed frame count, or leaving the choice
/// to the host.
#[derive(Clone, Copy, Debug, PartialEq, Eq, Structural)]
pub enum BufferPolicy {
    Fixed(u32),
    HostDefault,
}

/// What a device reports about itself, as far as negotiation reads it:
/// the channel count of its default configuration and its buffer-size
/// support.
#[derive(Clone, Copy, Debug, PartialEq, Eq, Structural)]
pub struct CapabilityEnvelope {
    pub channels: u16,
    pub buffer: BufferCapability,
}

/// The chosen stream configuration, constructed once by negotiation and
/// immutable thereafter.
#[derive(Clone, Copy, Debug, PartialEq, Eq, Structural)]
pub struct StreamConfig {
    pub channels: u16,
    pub sample_rate: u32,
    pub buffer_size: BufferPolicy,
}

/// The buffer-size policy, applied to a reported capability: inside a
/// `[min, max]` range the candidate is `min(max, BUFFER_FRAME_CAP)`, clamped
/// up to `min` when below it and deferred to the host when it reaches `max`;
/// an unspecified capability always defers to the host.
pub open spec fn negotiate_buffer_spec(cap: BufferCapability) -> BufferPolicy {
    match cap {
        BufferCapability::Range { min, max } => {
            let candidate = if max < BUFFER_FRAME_CAP { max } else { BUFFER_FRAME_CAP };
            if candidate < min {
                BufferPolicy::Fixed(min)
            } else if candidate >= max {
                BufferPolicy::HostDefault
            } else {
                BufferPolicy::Fixed(candidate)
            }
        },
        BufferCapability::Unspecified => BufferPolicy::HostDefault,
    }
}

/// The full negotiation outcome: channels taken verbatim from the envelope,
/// the sample rate pinned to the target, and the buffer policy of
/// `negotiate_buffer_spec`.
pub open spec fn negotiate_spec(env: CapabilityEnvelope, target_rate: u32) -> StreamConfig {
    StreamConfig {
        channels: env.channels,
        sample_rate: target_rate,
        buffer_size: negotiate_buffer_spec(env.buffer),
    }
}

/// Derives the concrete stream configuration from a device's reported
/// capability envelope and the desired target rate. Total: every envelope
/// yields a structurally valid configuration.
pub fn negotiate(env: &CapabilityEnvelope, target_rate: u32) -> (r: StreamConfig)
    ensures
        r == negotiate_spec(*env, target_rate),
{
    let buffer_size = match env.buffer {
        BufferCapability::Range { min, max } => {
            let candidate = if max < BUFFER_FRAME_CAP { max } else { BUFFER_FRAME_CAP };
            if candidate < min {
                BufferPolicy::Fixed(min)
            } else if candidate >= max {
                BufferPolicy::HostDefault
            } else {
                BufferPolicy::Fixed(candidate)
            }
        },
        BufferCapability::Unspecified => BufferPolicy::HostDefault,
    };
    StreamConfig { channels: env.channels, sample_rate: target_rate, buffer_size }
}

} // verus!
