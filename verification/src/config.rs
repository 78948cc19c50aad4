//! The race's configuration: its values, their defaults, and which of them
//! are refused.

use vstd::prelude::*;

verus! {

/// How settled a slot must be before the upstream service tells of it.
#[derive(Clone, Copy, Debug, PartialEq, Eq, Structural)]
pub enum CommitmentLevel {
    Processed,
    Confirmed,
    Finalized,
}

/// Why a configuration is refused.
#[derive(Clone, Copy, Debug, PartialEq, Eq, Structural)]
pub enum ConfigError {
    /// No stream is configured.
    NoStreams,
    /// The commitment is none of `processed`, `confirmed`, `finalized`.
    InvalidCommitment,
}

/// One stream to race: its name, where to reach it, and the token to
/// present there, if one is needed.
#[derive(Clone, Debug)]
pub struct StreamConfig {
    pub name: String,
    pub endpoint: String,
    pub access_token: Option<String>,
}

/// The race's configuration.
#[derive(Clone, Debug)]
pub struct Config {
    pub max_slots: usize,
    pub stop_at_max: bool,
    pub commitment: String,
    pub warmup_slots: usize,
    pub streams: Vec<StreamConfig>,
}

/// The ledger's limit where none is configured.
pub fn default_max_slots() -> (n: usize)
    ensures
        n == 360,
{
    360
}

/// Whether the ledger stops at its limit where that is not configured.
pub fn default_stop_at_max() -> (b: bool)
    ensures
        !b,
{
    false
}

/// The commitment where none is configured.
pub fn default_commitment() -> (s: String)
    ensures
        s@ == "processed"@,
        commitment_named(s@) == Some(CommitmentLevel::Processed),
{
    "processed".to_owned()
}

/// The number of warm-up slots where none is configured.
pub fn default_warmup_slots() -> (n: usize)
    ensures
        n == 10,
{
    10
}

/// What `str::to_lowercase` makes of a string.
pub uninterp spec fn lowercase(s: Seq<char>) -> Seq<char>;

/// `str::to_lowercase`: the string's lowercase equivalent, which depends on
/// the string alone.
#[verifier::external_body]
fn to_lowercase(s: &str) -> (lowered: String)
    ensures
        lowered@ == lowercase(s@),
{
    s.to_lowercase()
}

/// The commitment level that a name in lower case stands for.
pub open spec fn commitment_named(name: Seq<char>) -> Option<CommitmentLevel> {
    if name == "processed"@ {
        Some(CommitmentLevel::Processed)
    } else if name == "confirmed"@ {
        Some(CommitmentLevel::Confirmed)
    } else if name == "finalized"@ {
        Some(CommitmentLevel::Finalized)
    } else {
        None
    }
}

/// The commitment level that a name in lower case stands for, if any.
pub fn parse_commitment(name: &String) -> (level: Option<CommitmentLevel>)
    ensures
        level == commitment_named(name@),
{
    if *name == "processed".to_owned() {
        Some(CommitmentLevel::Processed)
    } else if *name == "confirmed".to_owned() {
        Some(CommitmentLevel::Confirmed)
    } else if *name == "finalized".to_owned() {
        Some(CommitmentLevel::Finalized)
    } else {
        None
    }
}

impl Config {
    /// What the configuration is refused for, if it is: for having no stream
    /// first, then for its commitment.
    pub open spec fn defect(self) -> Option<ConfigError> {
        if self.streams@.len() == 0 {
            Some(ConfigError::NoStreams)
        } else if commitment_named(lowercase(self.commitment@)) is None {
            Some(ConfigError::InvalidCommitment)
        } else {
            None
        }
    }

    /// The configured commitment level, whatever the case of its letters.
    pub fn commitment_level(&self) -> (level: Result<CommitmentLevel, ConfigError>)
        ensures
            level == match commitment_named(lowercase(self.commitment@)) {
                Some(l) => Ok::<CommitmentLevel, ConfigError>(l),
                None => Err(ConfigError::InvalidCommitment),
            },
    {
        let lowered = to_lowercase(self.commitment.as_str());
        match parse_commitment(&lowered) {
            Some(l) => Ok(l),
            None => Err(ConfigError::InvalidCommitment),
        }
    }

    /// Accepts the configuration or says why not.
    pub fn validate(&self) -> (checked: Result<(), ConfigError>)
        ensures
            checked == match self.defect() {
                Some(e) => Err::<(), ConfigError>(e),
                None => Ok(()),
            },
    {
        if self.streams.len() == 0 {
            return Err(ConfigError::NoStreams);
        }
        match self.commitment_level() {
            Ok(_) => Ok(()),
            Err(e) => Err(e),
        }
    }
}

} // verus!
