//! Why a configuration is turned down.

use vstd::prelude::*;

verus! {

/// A configuration that no estimator can be built from.
#[derive(Clone, Copy, Debug, PartialEq, Eq, Structural)]
pub enum ConfigError {
    /// The batch size is zero: every observation would trigger a commit.
    ZeroBatchSize,
    /// The rolling window has no bucket.
    ZeroBucketCount,
    /// The buckets of the rolling window last no time at all.
    ZeroBucketDuration,
    /// The buckets of the rolling window, taken together, last longer than a
    /// span of time can express.
    WindowTooLong,
}

impl ConfigError {
    /// A sentence that says what is wrong with the configuration.
    pub fn describe(&self) -> (text: &'static str)
        ensures
            text@ == self.description(),
    {
        match self {
            ConfigError::ZeroBatchSize => "the batch size must be at least one",
            ConfigError::ZeroBucketCount => "the rolling window needs at least one bucket",
            ConfigError::ZeroBucketDuration => "the bucket duration must be longer than zero",
            ConfigError::WindowTooLong => "the bucket duration times the bucket count is too long",
        }
    }

    /// The text of `describe`.
    pub open spec fn description(&self) -> Seq<char> {
        match self {
            ConfigError::ZeroBatchSize => "the batch size must be at least one"@,
            ConfigError::ZeroBucketCount => "the rolling window needs at least one bucket"@,
            ConfigError::ZeroBucketDuration => "the bucket duration must be longer than zero"@,
            ConfigError::WindowTooLong => "the bucket duration times the bucket count is too long"@,
        }
    }
}

} // verus!
