use axiom_hive_core::constitution::{
    default_max_branches, default_min_consensus_ratio, Constitution, ConstitutionError,
    ConstitutionSource, Meta, Policy, PolicySource, SupervisorCfg, SupervisorSource,
};
use axiom_hive_core::ratio::Ratio;

fn with_limits(max_branches: u32, ratio: f32) -> Constitution {
    Constitution {
        meta: Meta { name: "test".to_string(), version: 1 },
        policy: Policy { allow_harmful_content: false, allow_pii_leakage: false },
        supervisor: SupervisorCfg {
            max_branches,
            min_consensus_ratio: Ratio::from_bits(ratio.to_bits()),
        },
    }
}

fn with_policy(allow_harmful_content: bool, allow_pii_leakage: bool) -> Constitution {
    let mut constitution = Constitution::default();
    constitution.policy = Policy { allow_harmful_content, allow_pii_leakage };
    constitution
}

#[test]
fn zero_branches_fail_validation() {
    let result = with_limits(0, 0.75).validate();
    assert!(matches!(result, Err(ConstitutionError::InvalidMaxBranches)));
}

#[test]
fn branch_limit_is_checked_before_the_ratio() {
    let result = with_limits(0, 1.5).validate();
    assert!(matches!(result, Err(ConstitutionError::InvalidMaxBranches)));
}

#[test]
fn ratio_just_outside_the_bounds_fails_validation() {
    assert!(matches!(
        with_limits(4, 1.01).validate(),
        Err(ConstitutionError::InvalidConsensusRatio)
    ));
    assert!(matches!(
        with_limits(4, -0.01).validate(),
        Err(ConstitutionError::InvalidConsensusRatio)
    ));
}

#[test]
fn ratio_bounds_are_inclusive() {
    assert!(with_limits(4, 0.0).validate().is_ok());
    assert!(with_limits(4, 1.0).validate().is_ok());
    assert!(with_limits(1, 0.5).validate().is_ok());
    assert!(with_limits(u32::MAX, 1.0).validate().is_ok());
}

#[test]
fn ratio_that_is_no_number_fails_validation() {
    assert!(matches!(
        with_limits(4, f32::NAN).validate(),
        Err(ConstitutionError::InvalidConsensusRatio)
    ));
    assert!(matches!(
        with_limits(4, f32::INFINITY).validate(),
        Err(ConstitutionError::InvalidConsensusRatio)
    ));
    assert!(matches!(
        with_limits(4, f32::NEG_INFINITY).validate(),
        Err(ConstitutionError::InvalidConsensusRatio)
    ));
}

#[test]
fn validation_hands_the_constitution_back_unchanged() {
    let mut constitution = with_limits(7, 0.25);
    constitution.policy.allow_pii_leakage = true;
    let validated = constitution.validate().unwrap();
    assert_eq!(validated.meta.name, "test");
    assert_eq!(validated.meta.version, 1);
    assert!(!validated.policy.allow_harmful_content);
    assert!(validated.policy.allow_pii_leakage);
    assert_eq!(validated.supervisor.max_branches, 7);
    assert_eq!(validated.supervisor.min_consensus_ratio.to_bits(), 0.25f32.to_bits());
}

#[test]
fn unit_interval_test_agrees_with_float_comparison() {
    let samples: Vec<f32> = vec![
        0.0,
        -0.0,
        1.0,
        0.75,
        0.5,
        1.01,
        -0.01,
        f32::MIN_POSITIVE,
        -f32::MIN_POSITIVE,
        f32::from_bits(1),
        f32::from_bits(0x8000_0001),
        f32::from_bits(0x007f_ffff),
        f32::from_bits(0x3f7f_ffff),
        f32::from_bits(0x3f80_0001),
        f32::from_bits(0x3f00_0000),
        f32::from_bits(0x4000_0000),
        f32::from_bits(0xbf80_0000),
        f32::EPSILON,
        f32::MAX,
        f32::MIN,
        f32::INFINITY,
        f32::NEG_INFINITY,
        f32::NAN,
        f32::from_bits(0x7f80_0001),
        f32::from_bits(0xffc0_0000),
        f32::from_bits(0xffff_ffff),
    ];
    for x in samples {
        let ratio = Ratio::from_bits(x.to_bits());
        assert_eq!(ratio.to_bits(), x.to_bits());
        assert_eq!(ratio.is_in_unit_interval(), (0.0..=1.0).contains(&x), "{:?}", x);
    }
}

#[test]
fn unit_interval_ends_exactly_at_one() {
    assert!(Ratio::from_bits(0x3f80_0000).is_in_unit_interval());
    assert!(!Ratio::from_bits(0x3f80_0001).is_in_unit_interval());
    assert!(Ratio::from_bits(0).is_in_unit_interval());
    assert!(Ratio::from_bits(0x8000_0000).is_in_unit_interval());
    assert!(!Ratio::from_bits(0x8000_0001).is_in_unit_interval());
}

#[test]
fn defaults_are_four_branches_and_three_quarters() {
    assert_eq!(default_max_branches(), 4);
    assert_eq!(f32::from_bits(default_min_consensus_ratio().to_bits()), 0.75);
    let cfg = SupervisorCfg::default();
    assert_eq!(cfg.max_branches, 4);
    assert_eq!(f32::from_bits(cfg.min_consensus_ratio.to_bits()), 0.75);
}

#[test]
fn default_constitution_is_restrictive_and_valid() {
    let constitution = Constitution::default();
    assert_eq!(constitution.meta.name, "");
    assert_eq!(constitution.meta.version, 0);
    assert!(!constitution.policy.allow_harmful_content);
    assert!(!constitution.policy.allow_pii_leakage);
    assert_eq!(constitution.supervisor.max_branches, 4);
    assert_eq!(f32::from_bits(constitution.supervisor.min_consensus_ratio.to_bits()), 0.75);
    assert!(constitution.validate().is_ok());
    let policy = Policy::default();
    assert!(!policy.allow_harmful_content && !policy.allow_pii_leakage);
    let meta = Meta::default();
    assert_eq!(meta.name, "");
    assert_eq!(meta.version, 0);
}

#[test]
fn restrictive_policy_denies_all_five_tokens() {
    assert_eq!(
        with_policy(false, false).disallowed_tokens(),
        vec!["kill", "attack", "ssn", "email", "phone"]
    );
}

#[test]
fn allowing_harmful_content_leaves_the_pii_tokens() {
    assert_eq!(with_policy(true, false).disallowed_tokens(), vec!["ssn", "email", "phone"]);
}

#[test]
fn allowing_pii_leakage_leaves_the_harmful_tokens() {
    assert_eq!(with_policy(false, true).disallowed_tokens(), vec!["kill", "attack"]);
}

#[test]
fn permissive_policy_denies_nothing() {
    assert!(with_policy(true, true).disallowed_tokens().is_empty());
}

#[test]
fn denylist_depends_on_the_policy_alone() {
    let mut a = with_limits(1, 0.0);
    let mut b = with_limits(9, 1.0);
    a.meta.name = "a".to_string();
    b.meta.version = 42;
    assert_eq!(a.disallowed_tokens(), b.disallowed_tokens());
    assert_eq!(a.disallowed_tokens(), a.disallowed_tokens());
}

#[test]
fn constitution_errors_describe_themselves() {
    assert_eq!(
        ConstitutionError::InvalidMaxBranches.message(),
        "invalid supervisor limits: max_branches must be >= 1"
    );
    assert_eq!(
        ConstitutionError::InvalidConsensusRatio.message(),
        "invalid supervisor limits: min_consensus_ratio must be in [0.0, 1.0]"
    );
    assert_eq!(
        ConstitutionError::Parse("expected a table".to_string()).message(),
        "invalid constitution.toml: expected a table"
    );
    let io = ConstitutionError::Io {
        path: "config/constitution.toml".to_string(),
        source: "not found".to_string(),
    };
    assert_eq!(
        io.message(),
        "failed to read constitution from config/constitution.toml: not found"
    );
}

fn source(max_branches: Option<u32>, ratio: Option<f32>) -> ConstitutionSource {
    ConstitutionSource {
        meta: Some(Meta { name: "hive".to_string(), version: 3 }),
        policy: Some(PolicySource { allow_harmful_content: Some(true), allow_pii_leakage: None }),
        supervisor: Some(SupervisorSource {
            max_branches,
            min_consensus_ratio: ratio.map(|r| Ratio::from_bits(r.to_bits())),
        }),
    }
}

#[test]
fn empty_source_loads_as_the_defaults() {
    let empty = ConstitutionSource { meta: None, policy: None, supervisor: None };
    let constitution = Constitution::load(empty).unwrap();
    assert_eq!(constitution.meta.name, "");
    assert_eq!(constitution.meta.version, 0);
    assert!(!constitution.policy.allow_harmful_content);
    assert!(!constitution.policy.allow_pii_leakage);
    assert_eq!(constitution.supervisor.max_branches, 4);
    assert_eq!(f32::from_bits(constitution.supervisor.min_consensus_ratio.to_bits()), 0.75);
}

#[test]
fn empty_tables_load_as_the_defaults() {
    let tables = ConstitutionSource {
        meta: None,
        policy: Some(PolicySource { allow_harmful_content: None, allow_pii_leakage: None }),
        supervisor: Some(SupervisorSource { max_branches: None, min_consensus_ratio: None }),
    };
    let constitution = tables.complete();
    assert!(!constitution.policy.allow_harmful_content);
    assert!(!constitution.policy.allow_pii_leakage);
    assert_eq!(constitution.supervisor.max_branches, 4);
    assert_eq!(f32::from_bits(constitution.supervisor.min_consensus_ratio.to_bits()), 0.75);
}

#[test]
fn named_values_are_loaded_as_given() {
    let constitution = Constitution::load(source(Some(9), Some(0.5))).unwrap();
    assert_eq!(constitution.meta.name, "hive");
    assert_eq!(constitution.meta.version, 3);
    assert!(constitution.policy.allow_harmful_content);
    assert!(!constitution.policy.allow_pii_leakage);
    assert_eq!(constitution.supervisor.max_branches, 9);
    assert_eq!(f32::from_bits(constitution.supervisor.min_consensus_ratio.to_bits()), 0.5);
    assert_eq!(constitution.disallowed_tokens(), vec!["ssn", "email", "phone"]);
}

#[test]
fn each_limit_has_its_own_default() {
    let constitution = Constitution::load(source(None, Some(1.0))).unwrap();
    assert_eq!(constitution.supervisor.max_branches, 4);
    assert_eq!(f32::from_bits(constitution.supervisor.min_consensus_ratio.to_bits()), 1.0);
    let constitution = Constitution::load(source(Some(1), None)).unwrap();
    assert_eq!(constitution.supervisor.max_branches, 1);
    assert_eq!(f32::from_bits(constitution.supervisor.min_consensus_ratio.to_bits()), 0.75);
}

#[test]
fn loading_validates_the_limits() {
    assert!(matches!(
        Constitution::load(source(Some(0), Some(0.5))),
        Err(ConstitutionError::InvalidMaxBranches)
    ));
    assert!(matches!(
        Constitution::load(source(Some(0), Some(2.0))),
        Err(ConstitutionError::InvalidMaxBranches)
    ));
    assert!(matches!(
        Constitution::load(source(None, Some(1.01))),
        Err(ConstitutionError::InvalidConsensusRatio)
    ));
    assert!(matches!(
        Constitution::load(source(Some(2), Some(-0.01))),
        Err(ConstitutionError::InvalidConsensusRatio)
    ));
    assert!(Constitution::load(source(Some(2), Some(0.0))).is_ok());
    assert!(Constitution::load(source(Some(2), Some(1.0))).is_ok());
}

#[test]
fn completing_a_source_does_not_validate_it() {
    let constitution = source(Some(0), Some(7.0)).complete();
    assert_eq!(constitution.supervisor.max_branches, 0);
    assert_eq!(f32::from_bits(constitution.supervisor.min_consensus_ratio.to_bits()), 7.0);
}
