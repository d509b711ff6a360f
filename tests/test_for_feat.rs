use nimbus::client::NimbusClient;
use nimbus::error::Error;
use nimbus::schema::{Branch, BucketConfig, FeatureConfig, NimbusExperiment, RandomizationUnit};
use nimbus::targeting::AppContext;

fn test_context() -> AppContext {
    AppContext {
        app_name: "fenix".to_string(),
        app_version: "76.0".to_string(),
        app_build: "2015745427".to_string(),
        architecture: "arm64-v8a".to_string(),
        device_manufacturer: "Google".to_string(),
        device_model: "Pixel 4".to_string(),
        locale: "en-US".to_string(),
        os: "Android".to_string(),
        os_version: "11".to_string(),
        channel: "release".to_string(),
        randomization_id: "c4b8a9f0-1234-4abc-9def-0123456789ab".to_string(),
        // 2020-06-01T00:00:00Z
        now_ms: 1590969600000,
        active_experiments: vec!["earlier-study".to_string()],
        preferences: vec![],
    }
}

fn new_test_client(id: &str) -> NimbusClient {
    NimbusClient::new(test_context(), id.to_string(), None, None)
}

fn branch(slug: &str, feature: &str) -> Branch {
    Branch {
        slug: slug.to_string(),
        ratio: 1,
        feature: Some(FeatureConfig { feature_id: feature.to_string(), enabled: true }),
    }
}

fn experiment(slug: &str, feature: &str, start: u32, count: u32, targeting: Option<&str>) -> NimbusExperiment {
    NimbusExperiment {
        slug: slug.to_string(),
        enabled: true,
        user_facing_name: slug.to_string(),
        is_enrollment_paused: false,
        bucket_config: BucketConfig {
            randomization_unit: RandomizationUnit::NimbusId,
            namespace: slug.to_string(),
            start,
            count,
            total: 10000,
        },
        branches: vec![branch("control", feature), branch("treatment", feature)],
        targeting: targeting.map(|t| t.to_string()),
        reference_branch: Some("control".to_string()),
    }
}

fn initial_test_experiments() -> Vec<NimbusExperiment> {
    vec![
        experiment("secure-gold", "aboutwelcome", 0, 10000, None),
        experiment("secure-silver", "onboarding", 0, 0, None),
    ]
}

#[test]
fn test_before_open() {
    let mut client = new_test_client("test_before_open");
    assert!(matches!(
        client.get_branch_slug_for_feature("foo".to_string()),
        Err(Error::DatabaseNotReady)
    ));
    client.initialize().unwrap();
    assert_eq!(client.get_branch_slug_for_feature("foo".to_string()).unwrap(), None);
}

#[test]
fn test_enrolled() {
    let mut client = new_test_client("test_before_open");
    client.initialize().unwrap();
    client.set_experiments_locally(initial_test_experiments()).unwrap();

    assert_eq!(
        client.get_branch_slug_for_feature("aboutwelcome".to_string()).unwrap(),
        None,
        "shouldn't return anything before pending experiments applied"
    );

    client.apply_pending_experiments().unwrap();

    assert!(
        client
            .get_branch_slug_for_feature("aboutwelcome".to_string())
            .unwrap()
            .is_some(),
        "should return a branch for an exp that enrolls everyone"
    );

    client.opt_out("secure-gold".to_string()).unwrap();
    assert_eq!(
        client.get_branch_slug_for_feature("aboutwelcome".to_string()).unwrap(),
        None,
        "should not return a branch we've just opted out of"
    );

    client.opt_in_with_branch("secure-gold".to_string(), "treatment".to_string()).unwrap();
    assert_eq!(
        client.get_branch_slug_for_feature("aboutwelcome".to_string()).unwrap(),
        Some("treatment".to_string()),
        "should return a treatment branch we've just opted into"
    );

    client.opt_in_with_branch("secure-gold".to_string(), "control".to_string()).unwrap();
    assert_eq!(
        client.get_branch_slug_for_feature("aboutwelcome".to_string()).unwrap(),
        Some("control".to_string()),
        "should return a second branch we've just opted into"
    );

    // A manual enrollment outlasts the global switch; automatic ones do not.
    client.set_global_user_participation(false).unwrap();
    assert_eq!(
        client.get_branch_slug_for_feature("aboutwelcome".to_string()).unwrap(),
        Some("control".to_string()),
        "a branch opted into by hand stays visible when globally opted out"
    );
}

#[test]
fn global_pause_hides_automatic_enrollment() {
    let mut client = new_test_client("pause");
    client.initialize().unwrap();
    client.set_experiments_locally(initial_test_experiments()).unwrap();
    client.apply_pending_experiments().unwrap();
    assert!(client.get_branch_slug_for_feature("aboutwelcome".to_string()).unwrap().is_some());
    client.set_global_user_participation(false).unwrap();
    assert_eq!(client.get_global_user_participation(), Ok(false));
    assert_eq!(client.get_branch_slug_for_feature("aboutwelcome".to_string()).unwrap(), None);
    client.apply_pending_experiments().unwrap();
    assert_eq!(client.get_branch_slug_for_feature("aboutwelcome".to_string()).unwrap(), None);
    client.set_global_user_participation(true).unwrap();
    client.apply_pending_experiments().unwrap();
    assert!(client.get_branch_slug_for_feature("aboutwelcome".to_string()).unwrap().is_some());
}

#[test]
fn opt_out_survives_reapply() {
    let mut client = new_test_client("sticky");
    client.initialize().unwrap();
    client.set_experiments_locally(initial_test_experiments()).unwrap();
    client.apply_pending_experiments().unwrap();
    client.opt_out("secure-gold".to_string()).unwrap();
    client.apply_pending_experiments().unwrap();
    assert_eq!(client.get_branch_slug_for_feature("aboutwelcome".to_string()).unwrap(), None);
    client.set_experiments_locally(initial_test_experiments()).unwrap();
    client.apply_pending_experiments().unwrap();
    assert_eq!(client.get_branch_slug_for_feature("aboutwelcome".to_string()).unwrap(), None);
}

#[test]
fn opt_in_survives_reapply() {
    let mut client = new_test_client("opt-in");
    client.initialize().unwrap();
    client.set_experiments_locally(initial_test_experiments()).unwrap();
    client.apply_pending_experiments().unwrap();
    // Nobody is sampled into secure-silver, but opting in enrolls anyway.
    assert_eq!(client.get_branch_slug_for_feature("onboarding".to_string()).unwrap(), None);
    client.opt_in_with_branch("secure-silver".to_string(), "treatment".to_string()).unwrap();
    client.apply_pending_experiments().unwrap();
    assert_eq!(
        client.get_branch_slug_for_feature("onboarding".to_string()).unwrap(),
        Some("treatment".to_string())
    );
}

#[test]
fn reapply_is_stable() {
    let mut client = new_test_client("stable");
    client.initialize().unwrap();
    client.set_experiments_locally(initial_test_experiments()).unwrap();
    client.apply_pending_experiments().unwrap();
    let first = client.get_branch_slug_for_feature("aboutwelcome".to_string()).unwrap();
    client.apply_pending_experiments().unwrap();
    client.apply_pending_experiments().unwrap();
    assert_eq!(client.get_branch_slug_for_feature("aboutwelcome".to_string()).unwrap(), first);
}

#[test]
fn same_identifier_gets_same_branch() {
    let mut a = new_test_client("device-a");
    let mut b = new_test_client("device-a");
    for c in [&mut a, &mut b] {
        c.initialize().unwrap();
        c.set_experiments_locally(initial_test_experiments()).unwrap();
        c.apply_pending_experiments().unwrap();
    }
    assert_eq!(
        a.get_branch_slug_for_feature("aboutwelcome".to_string()).unwrap(),
        b.get_branch_slug_for_feature("aboutwelcome".to_string()).unwrap()
    );
}

#[test]
fn validation_errors() {
    let mut client = new_test_client("errors");
    assert_eq!(client.opt_out("secure-gold".to_string()), Err(Error::DatabaseNotReady));
    assert_eq!(client.set_experiments_locally(vec![]), Err(Error::DatabaseNotReady));
    assert_eq!(client.apply_pending_experiments(), Err(Error::DatabaseNotReady));
    assert_eq!(client.set_global_user_participation(false), Err(Error::DatabaseNotReady));
    client.initialize().unwrap();
    client.initialize().unwrap();
    assert_eq!(client.opt_out("secure-gold".to_string()), Err(Error::NoSuchExperiment));
    let dup = vec![
        experiment("same", "f", 0, 10000, None),
        experiment("same", "g", 0, 10000, None),
    ];
    assert_eq!(client.set_experiments_locally(dup), Err(Error::DuplicateExperiment));
    client.set_experiments_locally(initial_test_experiments()).unwrap();
    // Only applied experiments are known.
    assert_eq!(client.opt_out("secure-gold".to_string()), Err(Error::NoSuchExperiment));
    client.apply_pending_experiments().unwrap();
    assert_eq!(
        client.opt_in_with_branch("secure-gold".to_string(), "nope".to_string()),
        Err(Error::NoSuchBranch)
    );
    assert_eq!(
        client.opt_in_with_branch("missing".to_string(), "control".to_string()),
        Err(Error::NoSuchExperiment)
    );
}

#[test]
fn targeting_gates_enrollment() {
    let mut client = new_test_client("targeting");
    client.initialize().unwrap();
    client
        .set_experiments_locally(vec![
            experiment("a", "fa", 0, 10000, Some("true")),
            experiment("b", "fb", 0, 10000, Some("")),
            experiment("c", "fc", 0, 10000, Some("locale == 'de-DE'")),
            experiment("d", "fd", 0, 10000, Some("locale == 'en-US' && channel == 'release'")),
            experiment("e", "fe", 0, 10000, Some("locale == 'en-US' && unknownField == 'x'")),
        ])
        .unwrap();
    client.apply_pending_experiments().unwrap();
    assert!(client.get_branch_slug_for_feature("fa".to_string()).unwrap().is_some());
    assert!(client.get_branch_slug_for_feature("fb".to_string()).unwrap().is_some());
    assert_eq!(client.get_branch_slug_for_feature("fc".to_string()).unwrap(), None);
    assert!(client.get_branch_slug_for_feature("fd".to_string()).unwrap().is_some());
    assert_eq!(client.get_branch_slug_for_feature("fe".to_string()).unwrap(), None);
}

#[test]
fn paused_experiment_enrolls_no_one_new() {
    let mut client = new_test_client("paused");
    client.initialize().unwrap();
    let mut e = experiment("p", "fp", 0, 10000, None);
    e.is_enrollment_paused = true;
    client.set_experiments_locally(vec![e]).unwrap();
    client.apply_pending_experiments().unwrap();
    assert_eq!(client.get_branch_slug_for_feature("fp".to_string()).unwrap(), None);
}

#[test]
fn paused_experiment_keeps_enrolled_users() {
    let mut client = new_test_client("paused-later");
    client.initialize().unwrap();
    client.set_experiments_locally(vec![experiment("p", "fp", 0, 10000, None)]).unwrap();
    client.apply_pending_experiments().unwrap();
    let before = client.get_branch_slug_for_feature("fp".to_string()).unwrap();
    assert!(before.is_some());
    let mut e = experiment("p", "fp", 0, 10000, None);
    e.is_enrollment_paused = true;
    client.set_experiments_locally(vec![e]).unwrap();
    client.apply_pending_experiments().unwrap();
    assert_eq!(client.get_branch_slug_for_feature("fp".to_string()).unwrap(), before);
}

#[test]
fn disqualified_after_targeting_change() {
    let mut client = new_test_client("disq");
    client.initialize().unwrap();
    client.set_experiments_locally(vec![experiment("d", "fd", 0, 10000, None)]).unwrap();
    client.apply_pending_experiments().unwrap();
    assert!(client.get_branch_slug_for_feature("fd".to_string()).unwrap().is_some());
    client
        .set_experiments_locally(vec![experiment("d", "fd", 0, 10000, Some("false"))])
        .unwrap();
    client.apply_pending_experiments().unwrap();
    assert_eq!(client.get_branch_slug_for_feature("fd".to_string()).unwrap(), None);
}

#[test]
fn disabled_experiment_enrolls_no_one() {
    let mut client = new_test_client("disabled");
    client.initialize().unwrap();
    let mut e = experiment("off", "foff", 0, 10000, None);
    e.enabled = false;
    client.set_experiments_locally(vec![e]).unwrap();
    client.apply_pending_experiments().unwrap();
    assert_eq!(client.get_branch_slug_for_feature("foff".to_string()).unwrap(), None);
}

#[test]
fn user_unit_needs_a_user_id() {
    let mut e = experiment("by-user", "fu", 0, 10000, None);
    e.bucket_config.randomization_unit = RandomizationUnit::UserId;
    let mut without = new_test_client("no-user");
    without.initialize().unwrap();
    without.set_experiments_locally(vec![e]).unwrap();
    without.apply_pending_experiments().unwrap();
    assert_eq!(without.get_branch_slug_for_feature("fu".to_string()).unwrap(), None);

    let mut e = experiment("by-user", "fu", 0, 10000, None);
    e.bucket_config.randomization_unit = RandomizationUnit::UserId;
    let mut with = NimbusClient::new(test_context(), "dev".to_string(), None, Some("account-7".to_string()));
    with.initialize().unwrap();
    with.set_experiments_locally(vec![e]).unwrap();
    with.apply_pending_experiments().unwrap();
    assert!(with.get_branch_slug_for_feature("fu".to_string()).unwrap().is_some());
}

#[test]
fn committed_list_follows_apply() {
    let mut client = new_test_client("list");
    client.initialize().unwrap();
    assert!(client.get_experiments().is_empty());
    client.set_experiments_locally(initial_test_experiments()).unwrap();
    assert!(client.get_experiments().is_empty());
    client.apply_pending_experiments().unwrap();
    let slugs: Vec<&str> = client.get_experiments().iter().map(|e| e.slug.as_str()).collect();
    assert_eq!(slugs, vec!["secure-gold", "secure-silver"]);
}

#[test]
fn disqualified_user_is_enrolled_again() {
    let mut client = new_test_client("requalify");
    client.initialize().unwrap();
    client.set_experiments_locally(vec![experiment("d", "fd", 0, 10000, None)]).unwrap();
    client.apply_pending_experiments().unwrap();
    client
        .set_experiments_locally(vec![experiment("d", "fd", 0, 10000, Some("false"))])
        .unwrap();
    client.apply_pending_experiments().unwrap();
    client.apply_pending_experiments().unwrap();
    assert_eq!(client.get_branch_slug_for_feature("fd".to_string()).unwrap(), None);
    client.set_experiments_locally(vec![experiment("d", "fd", 0, 10000, None)]).unwrap();
    client.apply_pending_experiments().unwrap();
    assert!(client.get_branch_slug_for_feature("fd".to_string()).unwrap().is_some());
}
