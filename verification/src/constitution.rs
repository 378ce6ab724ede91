//! The constitution: a validated policy and the denylist derived from it.

use crate::ratio::{lemma_three_quarters, Ratio};
use vstd::arithmetic::power2::pow2;
use vstd::prelude::*;
use vstd::string::StringExecFns;

verus! {

/// Why a constitution could not be loaded.
#[derive(Debug)]
pub enum ConstitutionError {
    /// The source could not be read; `source` describes the cause.
    Io { path: String, source: String },
    /// The source is not a well-formed constitution; the text describes the cause.
    Parse(String),
    /// `max_branches` is below 1.
    InvalidMaxBranches,
    /// `min_consensus_ratio` is not a number from 0.0 to 1.0.
    InvalidConsensusRatio,
}

impl ConstitutionError {
    /// The text of the message that describes the error.
    pub open spec fn message_text(self) -> Seq<char> {
        match self {
            ConstitutionError::Io { path, source } => "failed to read constitution from "@ + path@
                + ": "@ + source@,
            ConstitutionError::Parse(cause) => "invalid constitution.toml: "@ + cause@,
            ConstitutionError::InvalidMaxBranches =>
                "invalid supervisor limits: max_branches must be >= 1"@,
            ConstitutionError::InvalidConsensusRatio =>
                "invalid supervisor limits: min_consensus_ratio must be in [0.0, 1.0]"@,
        }
    }

    /// A message that describes the error.
    pub fn message(&self) -> (text: String)
        ensures
            text@ == self.message_text(),
    {
        match self {
            ConstitutionError::Io { path, source } => {
                let mut text = "failed to read constitution from ".to_owned();
                text.append(path.as_str());
                text.append(": ");
                text.append(source.as_str());
                text
            },
            ConstitutionError::Parse(cause) => {
                let mut text = "invalid constitution.toml: ".to_owned();
                text.append(cause.as_str());
                text
            },
            ConstitutionError::InvalidMaxBranches => {
                "invalid supervisor limits: max_branches must be >= 1".to_owned()
            },
            ConstitutionError::InvalidConsensusRatio => {
                "invalid supervisor limits: min_consensus_ratio must be in [0.0, 1.0]".to_owned()
            },
        }
    }
}

/// Name and version of a constitution.
#[derive(Debug, Clone)]
pub struct Meta {
    pub name: String,
    pub version: u32,
}

impl Default for Meta {
    fn default() -> (meta: Self)
        ensures
            meta.name@ == Seq::<char>::empty(),
            meta.version == 0,
    {
        Meta { name: String::new(), version: 0 }
    }
}

/// Content-category toggles. Both are restrictive unless switched on.
#[derive(Debug, Clone)]
pub struct Policy {
    pub allow_harmful_content: bool,
    pub allow_pii_leakage: bool,
}

impl Default for Policy {
    fn default() -> (policy: Self)
        ensures
            !policy.allow_harmful_content,
            !policy.allow_pii_leakage,
    {
        Policy { allow_harmful_content: false, allow_pii_leakage: false }
    }
}

/// Limits for the supervisor.
#[derive(Debug, Clone)]
pub struct SupervisorCfg {
    /// Upper bound on candidate generations; at least 1 in a valid constitution.
    pub max_branches: u32,
    /// Agreement threshold; from 0.0 to 1.0 in a valid constitution.
    pub min_consensus_ratio: Ratio,
}

/// The number of branches when the source names none.
pub fn default_max_branches() -> (branches: u32)
    ensures
        branches == 4,
{
    4
}

/// The consensus ratio when the source names none: three quarters.
pub fn default_min_consensus_ratio() -> (ratio: Ratio)
    ensures
        ratio.bits == 0x3F40_0000,
        4 * ratio.scaled_value() == 3 * pow2(149),
        ratio.in_unit_interval(),
{
    proof {
        lemma_three_quarters();
    }
    Ratio::from_bits(0x3F40_0000)
}

impl Default for SupervisorCfg {
    fn default() -> (cfg: Self)
        ensures
            cfg.max_branches == 4,
            cfg.min_consensus_ratio.bits == 0x3F40_0000,
    {
        SupervisorCfg {
            max_branches: default_max_branches(),
            min_consensus_ratio: default_min_consensus_ratio(),
        }
    }
}

/// A constitution as configured: identification, policy and supervisor limits.
#[derive(Debug, Clone)]
pub struct Constitution {
    pub meta: Meta,
    pub policy: Policy,
    pub supervisor: SupervisorCfg,
}

impl Default for Constitution {
    fn default() -> (constitution: Self)
        ensures
            constitution.meta.name@ == Seq::<char>::empty(),
            constitution.meta.version == 0,
            !constitution.policy.allow_harmful_content,
            !constitution.policy.allow_pii_leakage,
            constitution.supervisor.max_branches == 4,
            constitution.supervisor.min_consensus_ratio.bits == 0x3F40_0000,
    {
        Constitution {
            meta: Meta::default(),
            policy: Policy::default(),
            supervisor: SupervisorCfg::default(),
        }
    }
}

/// The `[policy]` table as a source spells it: a key left out is `None`.
#[derive(Debug, Clone)]
pub struct PolicySource {
    pub allow_harmful_content: Option<bool>,
    pub allow_pii_leakage: Option<bool>,
}

/// The `[supervisor]` table as a source spells it: a key left out is `None`.
#[derive(Debug, Clone)]
pub struct SupervisorSource {
    pub max_branches: Option<u32>,
    pub min_consensus_ratio: Option<Ratio>,
}

/// A constitution as a source spells it: a table left out is `None`.
#[derive(Debug, Clone)]
pub struct ConstitutionSource {
    pub meta: Option<Meta>,
    pub policy: Option<PolicySource>,
    pub supervisor: Option<SupervisorSource>,
}

impl ConstitutionSource {
    /// The name: empty when the source has no `[meta]` table.
    pub open spec fn name(self) -> Seq<char> {
        match self.meta {
            Some(meta) => meta.name@,
            None => Seq::empty(),
        }
    }

    /// The version: 0 when the source has no `[meta]` table.
    pub open spec fn version(self) -> u32 {
        match self.meta {
            Some(meta) => meta.version,
            None => 0,
        }
    }

    /// Whether harmful content is allowed: not unless the source says so.
    pub open spec fn allow_harmful_content(self) -> bool {
        self.policy matches Some(policy) && policy.allow_harmful_content == Some(true)
    }

    /// Whether leaking personal data is allowed: not unless the source says so.
    pub open spec fn allow_pii_leakage(self) -> bool {
        self.policy matches Some(policy) && policy.allow_pii_leakage == Some(true)
    }

    /// The branch limit: 4 unless the source names one.
    pub open spec fn max_branches(self) -> u32 {
        match self.supervisor {
            Some(SupervisorSource { max_branches: Some(branches), .. }) => branches,
            _ => 4,
        }
    }

    /// The consensus ratio: 0.75 unless the source names one.
    pub open spec fn min_consensus_ratio(self) -> Ratio {
        match self.supervisor {
            Some(SupervisorSource { min_consensus_ratio: Some(ratio), .. }) => ratio,
            _ => Ratio { bits: 0x3F40_0000 },
        }
    }

    /// Whether `constitution` is this source with every gap filled by its default.
    pub open spec fn completed_by(self, constitution: Constitution) -> bool {
        &&& constitution.meta.name@ == self.name()
        &&& constitution.meta.version == self.version()
        &&& constitution.policy.allow_harmful_content == self.allow_harmful_content()
        &&& constitution.policy.allow_pii_leakage == self.allow_pii_leakage()
        &&& constitution.supervisor.max_branches == self.max_branches()
        &&& constitution.supervisor.min_consensus_ratio == self.min_consensus_ratio()
    }

    /// Fills every gap of the source with its default.
    pub fn complete(self) -> (constitution: Constitution)
        ensures
            self.completed_by(constitution),
            self.meta matches Some(meta) ==> constitution.meta == meta,
    {
        let meta = match self.meta {
            Some(meta) => meta,
            None => Meta::default(),
        };
        let policy = match self.policy {
            Some(policy) => Policy {
                allow_harmful_content: match policy.allow_harmful_content {
                    Some(allow) => allow,
                    None => false,
                },
                allow_pii_leakage: match policy.allow_pii_leakage {
                    Some(allow) => allow,
                    None => false,
                },
            },
            None => Policy::default(),
        };
        let supervisor = match self.supervisor {
            Some(supervisor) => SupervisorCfg {
                max_branches: match supervisor.max_branches {
                    Some(branches) => branches,
                    None => default_max_branches(),
                },
                min_consensus_ratio: match supervisor.min_consensus_ratio {
                    Some(ratio) => ratio,
                    None => default_min_consensus_ratio(),
                },
            },
            None => SupervisorCfg::default(),
        };
        Constitution { meta, policy, supervisor }
    }
}

/// The tokens denied while harmful content is not allowed.
pub open spec fn harmful_tokens() -> Seq<Seq<char>> {
    seq!["kill"@, "attack"@]
}

/// The tokens denied while leaking personal data is not allowed.
pub open spec fn pii_tokens() -> Seq<Seq<char>> {
    seq!["ssn"@, "email"@, "phone"@]
}

/// The denylist of a policy: the harmful tokens unless harmful content is
/// allowed, then the personal-data tokens unless leaking them is allowed.
pub open spec fn denied_by(policy: Policy) -> Seq<Seq<char>> {
    let harmful = if policy.allow_harmful_content {
        Seq::empty()
    } else {
        harmful_tokens()
    };
    let pii = if policy.allow_pii_leakage {
        Seq::empty()
    } else {
        pii_tokens()
    };
    harmful + pii
}

/// The texts of a list of words.
pub open spec fn word_texts(words: Seq<&'static str>) -> Seq<Seq<char>> {
    words.map_values(|w: &'static str| w@)
}

impl Constitution {
    /// The supervisor limits are in range.
    pub open spec fn is_valid(self) -> bool {
        self.supervisor.max_branches >= 1 && self.supervisor.min_consensus_ratio.in_unit_interval()
    }

    /// The outcome of validation: the branch limit is checked first, then the ratio.
    pub open spec fn validated(self) -> Result<Constitution, ConstitutionError> {
        if self.supervisor.max_branches < 1 {
            Err(ConstitutionError::InvalidMaxBranches)
        } else if !self.supervisor.min_consensus_ratio.in_unit_interval() {
            Err(ConstitutionError::InvalidConsensusRatio)
        } else {
            Ok(self)
        }
    }

    /// Loads a constitution from what a source spells: gaps take their
    /// defaults, then the supervisor limits are validated.
    pub fn load(source: ConstitutionSource) -> (result: Result<Self, ConstitutionError>)
        ensures
            (match result {
                Ok(constitution) => source.completed_by(constitution) && constitution.is_valid(),
                Err(ConstitutionError::InvalidMaxBranches) => source.max_branches() < 1,
                Err(ConstitutionError::InvalidConsensusRatio) => source.max_branches() >= 1
                    && !source.min_consensus_ratio().in_unit_interval(),
                Err(_) => false,
            }),
    {
        source.complete().validate()
    }

    /// Hands the constitution back if its supervisor limits are in range.
    pub fn validate(self) -> (result: Result<Self, ConstitutionError>)
        ensures
            result == self.validated(),
            result is Ok <==> self.is_valid(),
    {
        if self.supervisor.max_branches < 1 {
            return Err(ConstitutionError::InvalidMaxBranches);
        }
        if !self.supervisor.min_consensus_ratio.is_in_unit_interval() {
            return Err(ConstitutionError::InvalidConsensusRatio);
        }
        Ok(self)
    }

    /// Derive the disallowed token list from the policy.
    pub fn disallowed_tokens(&self) -> (tokens: Vec<&'static str>)
        ensures
            word_texts(tokens@) == denied_by(self.policy),
    {
        let mut tokens: Vec<&'static str> = Vec::new();
        if !self.policy.allow_harmful_content {
            tokens.push("kill");
            tokens.push("attack");
        }
        if !self.policy.allow_pii_leakage {
            tokens.push("ssn");
            tokens.push("email");
            tokens.push("phone");
        }
        tokens
    }
}

} // verus!
