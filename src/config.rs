use vstd::prelude::*;
use crate::BUFSIZE;

verus! {

/// Why a configuration is refused.
#[derive(PartialEq, Eq, Structural, Debug, Clone, Copy)]
pub enum ConfigError {
    /// The bit rate is under one chunk per second.
    RateTooLow,
    /// The window is not longer than one second.
    WindowTooShort,
    /// The window in bytes, rounded up to whole chunks, does not fit in `usize`.
    WindowTooLarge,
}

/// The recorder's settings, with the ring size derived from them.
#[derive(PartialEq, Eq, Structural, Debug, Clone, Copy)]
pub struct Config {
    /// Bytes of input per second.
    pub byte_rate: usize,
    /// Length of the pre-buffer window in seconds.
    pub seconds: usize,
    /// Number of chunks in the ring.
    pub capacity: usize,
    /// Bytes of slack between the ring's whole chunks and the exact window.
    pub offset: usize,
}

/// The exact pre-buffer window in bytes.
pub open spec fn window_bytes(byte_rate: nat, seconds: nat) -> nat {
    byte_rate * seconds
}

/// The number of whole chunks that cover `window` bytes.
pub open spec fn chunks_for(window: nat) -> nat {
    ((window + BUFSIZE - 1) / BUFSIZE as int) as nat
}

/// The slack between `chunks_for(window)` whole chunks and `window` bytes.
pub open spec fn trim_for(window: nat) -> int {
    chunks_for(window) * BUFSIZE - window
}

impl Config {
    /// Settings that the recorder can run with.
    pub open spec fn valid(&self) -> bool {
        &&& self.byte_rate >= BUFSIZE
        &&& self.seconds > 1
        &&& self.capacity == chunks_for(window_bytes(self.byte_rate as nat, self.seconds as nat))
        &&& self.offset == trim_for(window_bytes(self.byte_rate as nat, self.seconds as nat))
        &&& self.capacity * BUFSIZE <= usize::MAX
    }

    pub open spec fn window(&self) -> nat {
        window_bytes(self.byte_rate as nat, self.seconds as nat)
    }
}

/// Checks the settings `bitrate` (bits per second) and `seconds`, and derives
/// the byte rate, the ring's capacity and the trim offset from them.
pub fn validate_config(bitrate: usize, seconds: usize) -> (r: Result<Config, ConfigError>)
    ensures
        bitrate < BUFSIZE * 8 ==> r == Err::<Config, ConfigError>(ConfigError::RateTooLow),
        bitrate >= BUFSIZE * 8 && seconds <= 1 ==> r == Err::<Config, ConfigError>(
            ConfigError::WindowTooShort,
        ),
        bitrate >= BUFSIZE * 8 && seconds > 1 && chunks_for(
            window_bytes((bitrate / 8) as nat, seconds as nat),
        ) * BUFSIZE > usize::MAX ==> r == Err::<Config, ConfigError>(ConfigError::WindowTooLarge),
        r is Ok <==> (bitrate >= BUFSIZE * 8 && seconds > 1 && chunks_for(
            window_bytes((bitrate / 8) as nat, seconds as nat),
        ) * BUFSIZE <= usize::MAX),
        r is Ok ==> r->Ok_0.valid() && r->Ok_0.byte_rate == bitrate / 8 && r->Ok_0.seconds
            == seconds,
{
    if bitrate < BUFSIZE * 8 {
        return Err(ConfigError::RateTooLow);
    }
    if seconds <= 1 {
        return Err(ConfigError::WindowTooShort);
    }
    let byte_rate = bitrate / 8;
    let ghost w = window_bytes(byte_rate as nat, seconds as nat);
    // the window fits when byte_rate * seconds <= usize::MAX, which is checked by division
    if byte_rate > usize::MAX / seconds {
        proof {
            assert(byte_rate * seconds > usize::MAX) by (nonlinear_arith)
                requires
                    byte_rate > usize::MAX / seconds,
                    seconds > 1,
            ;
            assert(chunks_for(w) * BUFSIZE >= w) by (nonlinear_arith)
                requires
                    w == byte_rate * seconds,
            {
                assert(chunks_for(w) == (w + 1023) / 1024);
            }
        }
        return Err(ConfigError::WindowTooLarge);
    }
    proof {
        assert(byte_rate * seconds <= usize::MAX) by (nonlinear_arith)
            requires
                byte_rate <= usize::MAX / seconds,
                seconds > 1,
        ;
    }
    let window: usize = byte_rate * seconds;
    let full: usize = window / BUFSIZE;
    let capacity: usize = if window % BUFSIZE == 0 {
        full
    } else {
        full + 1
    };
    assert(capacity == chunks_for(w));
    if capacity > usize::MAX / BUFSIZE {
        return Err(ConfigError::WindowTooLarge);
    }
    let offset: usize = capacity * BUFSIZE - window;
    Ok(Config { byte_rate, seconds, capacity, offset })
}

} // verus!
