//! Experiment descriptors as fetched from the remote configuration service.
use vstd::prelude::*;

verus! {

/// Number of buckets a bucket configuration divides users into when the
/// descriptor does not say.
pub const DEFAULT_TOTAL_BUCKETS: u32 = 10000;

/// Which identifier an experiment hashes to place a user in a bucket.
#[derive(Clone, Copy, Debug, PartialEq, Eq, Structural)]
pub enum RandomizationUnit {
    /// The installation's stable randomization identifier.
    NimbusId,
    /// Same as `NimbusId`; kept for descriptors of the older schema.
    NormandyId,
    /// A host-supplied client identifier, falling back to the installation's.
    ClientId,
    /// A host-supplied user identifier, falling back to the installation's.
    UserId,
}

/// Bucketing configuration of an experiment.
#[derive(Debug)]
pub struct BucketConfig {
    /// A unique, stable identifier for the user used as an input to bucket hashing.
    pub randomization_unit: RandomizationUnit,
    /// Additional input to the hashing function.
    pub namespace: String,
    /// Index of the first bucket of the range.
    pub start: u32,
    /// Number of buckets in the range.
    pub count: u32,
    /// Total number of buckets.
    pub total: u32,
}

/// A feature that a branch configures.
#[derive(Debug)]
pub struct FeatureConfig {
    /// The identifier of the feature, e.g. "aboutwelcome".
    pub feature_id: String,
    /// Whether the instrumented code should be on.
    pub enabled: bool,
}

/// One branch of an experiment.
#[derive(Debug)]
pub struct Branch {
    /// Identifier of the branch, unique within its experiment.
    pub slug: String,
    /// Relative share of the population.
    pub ratio: u32,
    /// The feature this branch configures, if any.
    pub feature: Option<FeatureConfig>,
}

/// An experiment descriptor.
#[derive(Debug)]
pub struct NimbusExperiment {
    /// Unique identifier of the experiment.
    pub slug: String,
    /// Whether the experiment takes part in enrollment at all.
    pub enabled: bool,
    /// Public name of the experiment.
    pub user_facing_name: String,
    /// When true, no user who is not enrolled yet is enrolled.
    pub is_enrollment_paused: bool,
    /// Bucketing configuration.
    pub bucket_config: BucketConfig,
    /// The branches of the experiment.
    pub branches: Vec<Branch>,
    /// Targeting expression; absent or empty means everyone is eligible.
    pub targeting: Option<String>,
    /// The slug of the reference branch.
    pub reference_branch: Option<String>,
}

/// What an experiment holds, with its branches as a sequence.
pub struct ExperimentModel {
    pub slug: String,
    pub enabled: bool,
    pub user_facing_name: String,
    pub is_enrollment_paused: bool,
    pub bucket_config: BucketConfig,
    pub branches: Seq<Branch>,
    pub targeting: Option<String>,
    pub reference_branch: Option<String>,
}

impl View for NimbusExperiment {
    type V = ExperimentModel;

    open spec fn view(&self) -> ExperimentModel {
        ExperimentModel {
            slug: self.slug,
            enabled: self.enabled,
            user_facing_name: self.user_facing_name,
            is_enrollment_paused: self.is_enrollment_paused,
            bucket_config: self.bucket_config,
            branches: self.branches@,
            targeting: self.targeting,
            reference_branch: self.reference_branch,
        }
    }
}

/// The models of a list of experiments.
pub open spec fn models_of(exps: Seq<NimbusExperiment>) -> Seq<ExperimentModel> {
    exps.map_values(|e: NimbusExperiment| e@)
}

/// Whether branch `b` configures the feature `feature_id`.
pub open spec fn branch_has_feature(b: Branch, feature_id: Seq<char>) -> bool {
    match b.feature {
        Some(f) => f.feature_id@ == feature_id,
        None => false,
    }
}

/// Whether some branch of `e` configures the feature `feature_id`.
pub open spec fn experiment_has_feature(e: ExperimentModel, feature_id: Seq<char>) -> bool {
    exists|j: int| 0 <= j < e.branches.len() && #[trigger] branch_has_feature(e.branches[j], feature_id)
}

/// Whether `e` has a branch with slug `branch`.
pub open spec fn experiment_has_branch(e: ExperimentModel, branch: Seq<char>) -> bool {
    exists|j: int| 0 <= j < e.branches.len() && #[trigger] e.branches[j].slug@ == branch
}

/// Whether some experiment of `exps` has slug `slug`.
pub open spec fn slug_listed(exps: Seq<ExperimentModel>, slug: Seq<char>) -> bool {
    exists|i: int| 0 <= i < exps.len() && #[trigger] exps[i].slug@ == slug
}

/// No two experiments of `exps` share a slug.
pub open spec fn slugs_unique(exps: Seq<ExperimentModel>) -> bool {
    forall|i: int, j: int|
        0 <= i < exps.len() && 0 <= j < exps.len() && i != j ==> #[trigger] exps[i].slug@
            != #[trigger] exps[j].slug@
}

impl BucketConfig {
    /// A bucket configuration over the default number of buckets.
    pub fn new(randomization_unit: RandomizationUnit, namespace: String, start: u32, count: u32) -> (r: Self)
        ensures
            r.randomization_unit == randomization_unit,
            r.namespace == namespace,
            r.start == start,
            r.count == count,
            r.total == DEFAULT_TOTAL_BUCKETS,
    {
        BucketConfig { randomization_unit, namespace, start, count, total: DEFAULT_TOTAL_BUCKETS }
    }
}

impl FeatureConfig {
    /// A copy of this feature configuration.
    pub fn duplicate(&self) -> (r: Self)
        ensures
            r == *self,
    {
        FeatureConfig { feature_id: self.feature_id.clone(), enabled: self.enabled }
    }
}

/// A copy of an optional string.
pub fn copy_text(t: &Option<String>) -> (r: Option<String>)
    ensures
        r == *t,
{
    match t {
        Some(s) => Some(s.clone()),
        None => None,
    }
}

impl Branch {
    /// A copy of this branch.
    pub fn duplicate(&self) -> (r: Self)
        ensures
            r == *self,
    {
        let feature = match &self.feature {
            Some(f) => Some(f.duplicate()),
            None => None,
        };
        Branch { slug: self.slug.clone(), ratio: self.ratio, feature }
    }

    /// Whether this branch configures the feature `feature_id`.
    pub fn has_feature(&self, feature_id: &String) -> (r: bool)
        ensures
            r == branch_has_feature(*self, feature_id@),
    {
        match &self.feature {
            Some(f) => f.feature_id == *feature_id,
            None => false,
        }
    }
}

impl NimbusExperiment {
    /// A copy of this experiment.
    pub fn duplicate(&self) -> (r: Self)
        ensures
            r@ == self@,
    {
        let mut branches: Vec<Branch> = Vec::new();
        let mut j: usize = 0;
        while j < self.branches.len()
            invariant
                j <= self.branches@.len(),
                branches@ == self.branches@.subrange(0, j as int),
            decreases self.branches@.len() - j,
        {
            branches.push(self.branches[j].duplicate());
            j = j + 1;
            assert(branches@ =~= self.branches@.subrange(0, j as int));
        }
        assert(branches@ =~= self.branches@);
        let cfg = &self.bucket_config;
        NimbusExperiment {
            slug: self.slug.clone(),
            enabled: self.enabled,
            user_facing_name: self.user_facing_name.clone(),
            is_enrollment_paused: self.is_enrollment_paused,
            bucket_config: BucketConfig {
                randomization_unit: cfg.randomization_unit,
                namespace: cfg.namespace.clone(),
                start: cfg.start,
                count: cfg.count,
                total: cfg.total,
            },
            branches,
            targeting: copy_text(&self.targeting),
            reference_branch: copy_text(&self.reference_branch),
        }
    }

    /// Whether some branch of this experiment configures `feature_id`.
    pub fn has_feature(&self, feature_id: &String) -> (r: bool)
        ensures
            r == experiment_has_feature(self@, feature_id@),
    {
        let mut j: usize = 0;
        while j < self.branches.len()
            invariant
                j <= self.branches@.len(),
                forall|k: int| 0 <= k < j ==> !branch_has_feature(#[trigger] self.branches@[k], feature_id@),
            decreases self.branches@.len() - j,
        {
            if self.branches[j].has_feature(feature_id) {
                assert(branch_has_feature(self@.branches[j as int], feature_id@));
                return true;
            }
            j = j + 1;
        }
        false
    }

    /// Whether this experiment has a branch with slug `branch`.
    pub fn has_branch(&self, branch: &String) -> (r: bool)
        ensures
            r == experiment_has_branch(self@, branch@),
    {
        let mut j: usize = 0;
        while j < self.branches.len()
            invariant
                j <= self.branches@.len(),
                forall|k: int| 0 <= k < j ==> #[trigger] self.branches@[k].slug@ != branch@,
            decreases self.branches@.len() - j,
        {
            if self.branches[j].slug == *branch {
                return true;
            }
            j = j + 1;
        }
        false
    }
}

/// A copy of a list of experiments.
pub fn copy_experiments(exps: &Vec<NimbusExperiment>) -> (r: Vec<NimbusExperiment>)
    ensures
        models_of(r@) == models_of(exps@),
{
    let mut out: Vec<NimbusExperiment> = Vec::new();
    let mut i: usize = 0;
    while i < exps.len()
        invariant
            i <= exps@.len(),
            out@.len() == i,
            forall|k: int| 0 <= k < i ==> (#[trigger] out@[k])@ == exps@[k]@,
        decreases exps@.len() - i,
    {
        out.push(exps[i].duplicate());
        i = i + 1;
    }
    assert(models_of(out@) =~= models_of(exps@));
    out
}

/// Whether two experiments of `exps` share a slug.
pub fn has_duplicate_slugs(exps: &Vec<NimbusExperiment>) -> (r: bool)
    ensures
        r == !slugs_unique(models_of(exps@)),
{
    let mut i: usize = 0;
    while i < exps.len()
        invariant
            i <= exps@.len(),
            forall|a: int, b: int|
                0 <= a < i && 0 <= b < exps@.len() && a != b ==> #[trigger] exps@[a].slug@
                    != #[trigger] exps@[b].slug@,
        decreases exps@.len() - i,
    {
        let mut j: usize = 0;
        while j < exps.len()
            invariant
                i < exps@.len(),
                j <= exps@.len(),
                forall|a: int, b: int|
                    0 <= a < i && 0 <= b < exps@.len() && a != b ==> #[trigger] exps@[a].slug@
                        != #[trigger] exps@[b].slug@,
                forall|b: int| 0 <= b < j && b != i ==> exps@[i as int].slug@ != #[trigger] exps@[b].slug@,
            decreases exps@.len() - j,
        {
            if j != i && exps[i].slug == exps[j].slug {
                assert(models_of(exps@)[i as int].slug@ == models_of(exps@)[j as int].slug@);
                return true;
            }
            j = j + 1;
        }
        i = i + 1;
    }
    false
}

/// Whether some experiment of `exps` has slug `slug`.
pub fn find_experiment(exps: &Vec<NimbusExperiment>, slug: &String) -> (r: Option<usize>)
    ensures
        match r {
            Some(i) => i < exps@.len() && exps@[i as int].slug@ == slug@ && slug_listed(
                models_of(exps@),
                slug@,
            ),
            None => !slug_listed(models_of(exps@), slug@),
        },
{
    let mut i: usize = 0;
    while i < exps.len()
        invariant
            i <= exps@.len(),
            forall|k: int| 0 <= k < i ==> #[trigger] exps@[k].slug@ != slug@,
        decreases exps@.len() - i,
    {
        if exps[i].slug == *slug {
            assert(models_of(exps@)[i as int].slug@ == slug@);
            return Some(i);
        }
        i = i + 1;
    }
    None
}

} // verus!
