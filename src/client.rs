//! The enrollment engine: staged and committed experiments, enrollment
//! records, manual overrides and the global participation switch.
use vstd::prelude::*;
use crate::enrollment::{
    EnrolledReason, EnrollmentRecord, EnrollmentStatus, evaluate_status, find_record, is_override,
    next_status, put_record, record_of, records_unique,
};
use crate::error::Error;
use crate::sampling::{bucket_decision, bucket_hash, hash_in_namespace, in_bucket};
use crate::schema::{
    ExperimentModel, NimbusExperiment, RandomizationUnit, copy_experiments, experiment_has_branch,
    experiment_has_feature, find_experiment, has_duplicate_slugs, models_of, slug_listed,
    slugs_unique,
};
use crate::targeting::{AppContext, ContextModel, is_eligible, targeting_allows};

verus! {

/// What a client holds.
pub struct ClientModel {
    /// Whether the store has been opened.
    pub ready: bool,
    /// Whether the user takes part in experiments at all.
    pub global_participation: bool,
    /// The installation's stable randomization identifier.
    pub nimbus_id: Seq<char>,
    /// The host's client identifier, if it gave one.
    pub client_id: Option<Seq<char>>,
    /// The host's user identifier, if it gave one.
    pub user_id: Option<Seq<char>>,
    /// The application context that targeting reads.
    pub context: ContextModel,
    /// The staged experiment list, if one was set.
    pub pending: Option<Seq<ExperimentModel>>,
    /// The committed experiment list.
    pub experiments: Seq<ExperimentModel>,
    /// The enrollment records.
    pub records: Seq<EnrollmentRecord>,
}

/// Records kept from before an apply: overrides of experiments that the new
/// list no longer holds.
pub open spec fn kept_override(pending: Seq<ExperimentModel>) -> spec_fn(EnrollmentRecord) -> bool {
    |r: EnrollmentRecord| is_override(r.status) && !slug_listed(pending, r.slug@)
}

impl ClientModel {
    /// The identifier that `unit` stands for: the installation's for the
    /// installation units, the host's client identifier (or else the
    /// installation's) for the client unit, and the host's user identifier,
    /// if it gave one, for the user unit.
    pub open spec fn unit_value(self, unit: RandomizationUnit) -> Option<Seq<char>> {
        match unit {
            RandomizationUnit::ClientId => match self.client_id {
                Some(c) => Some(c),
                None => Some(self.nimbus_id),
            },
            RandomizationUnit::UserId => self.user_id,
            _ => Some(self.nimbus_id),
        }
    }

    /// Whether `e` has a branch, its identifier is available and the user's
    /// bucket lies in its range.
    pub open spec fn selected(self, e: ExperimentModel) -> bool {
        e.branches.len() > 0 && match self.unit_value(e.bucket_config.randomization_unit) {
            Some(v) => bucket_decision(
                v,
                e.bucket_config.namespace@,
                e.bucket_config.start,
                e.bucket_config.count,
                e.bucket_config.total,
            ),
            None => false,
        }
    }

    /// The branch of `e` that the user's hash points to.
    pub open spec fn chosen_branch(self, e: ExperimentModel) -> String {
        e.branches[bucket_hash(
            self.unit_value(e.bucket_config.randomization_unit)->0,
            e.bucket_config.namespace@,
        ) as int % e.branches.len() as int].slug
    }

    /// The record an automatic evaluation writes for `e`.
    pub open spec fn fresh_record(self, e: ExperimentModel) -> EnrollmentRecord {
        EnrollmentRecord {
            slug: e.slug,
            status: next_status(
                record_of(self.records, e.slug@),
                self.global_participation,
                e.enabled,
                e.is_enrollment_paused,
                targeting_allows(e.targeting, self.context),
                self.selected(e),
                self.chosen_branch(e),
            ),
        }
    }

    /// The state after the staged list is applied: the list becomes the
    /// committed one, each of its experiments gets a freshly evaluated
    /// record, and of the old records only the overrides of experiments
    /// that left the list stay.
    pub open spec fn applied(self) -> ClientModel {
        match self.pending {
            None => self,
            Some(p) => ClientModel {
                experiments: p,
                records: Seq::new(p.len(), |i: int| self.fresh_record(p[i])) + self.records.filter(
                    kept_override(p),
                ),
                ..self
            },
        }
    }

    /// The branch that lookups report for the experiment `slug`: that of a
    /// manual enrollment, or of an automatic one while the user takes part.
    pub open spec fn visible_branch(self, slug: Seq<char>) -> Option<Seq<char>> {
        match record_of(self.records, slug) {
            Some(EnrollmentStatus::Enrolled { reason, branch }) => if reason == EnrolledReason::OptIn
                || self.global_participation {
                Some(branch@)
            } else {
                None
            },
            _ => None,
        }
    }

    /// The branch reported for `feature_id`, searching the committed
    /// experiments from index `i` on.
    pub open spec fn feature_branch_from(self, feature_id: Seq<char>, i: int) -> Option<Seq<char>>
        decreases self.experiments.len() - i,
    {
        if i < 0 || i >= self.experiments.len() {
            None
        } else if experiment_has_feature(self.experiments[i], feature_id) && self.visible_branch(
            self.experiments[i].slug@,
        ) is Some {
            self.visible_branch(self.experiments[i].slug@)
        } else {
            self.feature_branch_from(feature_id, i + 1)
        }
    }

    /// The branch reported for `feature_id`: that of the first committed
    /// experiment that configures the feature and shows a branch.
    pub open spec fn feature_branch(self, feature_id: Seq<char>) -> Option<Seq<char>> {
        self.feature_branch_from(feature_id, 0)
    }

    /// The client's invariant: experiment slugs are unique in each list and
    /// there is at most one record per slug.
    pub open spec fn wf(self) -> bool {
        slugs_unique(self.experiments) && records_unique(self.records) && match self.pending {
            Some(p) => slugs_unique(p),
            None => true,
        }
    }
}

/// The records differ only in that `slug` now has `status`.
pub open spec fn records_updated(
    before: Seq<EnrollmentRecord>,
    after: Seq<EnrollmentRecord>,
    slug: Seq<char>,
    status: EnrollmentStatus,
) -> bool {
    record_of(after, slug) == Some(status) && forall|s: Seq<char>|
        s != slug ==> #[trigger] record_of(after, s) == record_of(before, s)
}

/// The client: enrollment state of one installation.
pub struct NimbusClient {
    ready: bool,
    global_participation: bool,
    nimbus_id: String,
    client_id: Option<String>,
    user_id: Option<String>,
    app_context: AppContext,
    pending: Option<Vec<NimbusExperiment>>,
    experiments: Vec<NimbusExperiment>,
    records: Vec<EnrollmentRecord>,
}

impl View for NimbusClient {
    type V = ClientModel;

    closed spec fn view(&self) -> ClientModel {
        ClientModel {
            ready: self.ready,
            global_participation: self.global_participation,
            nimbus_id: self.nimbus_id@,
            client_id: match self.client_id {
                Some(c) => Some(c@),
                None => None,
            },
            user_id: match self.user_id {
                Some(u) => Some(u@),
                None => None,
            },
            context: self.app_context@,
            pending: match self.pending {
                Some(p) => Some(models_of(p@)),
                None => None,
            },
            experiments: models_of(self.experiments@),
            records: self.records@,
        }
    }
}

impl NimbusClient {
    /// The client's invariant.
    pub open spec fn wf(&self) -> bool {
        self@.wf()
    }

    /// A client for the installation identified by `nimbus_id`, with the
    /// host's optional client and user identifiers and its application
    /// context. Its store is not open yet; the user takes part in
    /// experiments.
    pub fn new(
        app_context: AppContext,
        nimbus_id: String,
        client_id: Option<String>,
        user_id: Option<String>,
    ) -> (r: Self)
        ensures
            r.wf(),
            !r@.ready,
            r@.global_participation,
            r@.nimbus_id == nimbus_id@,
            r@.client_id == (match client_id {
                Some(c) => Some(c@),
                None => None::<Seq<char>>,
            }),
            r@.user_id == (match user_id {
                Some(u) => Some(u@),
                None => None::<Seq<char>>,
            }),
            r@.context == app_context@,
            r@.pending is None,
            r@.experiments.len() == 0,
            r@.records.len() == 0,
    {
        let r = NimbusClient {
            ready: false,
            global_participation: true,
            nimbus_id,
            client_id,
            user_id,
            app_context,
            pending: None,
            experiments: Vec::new(),
            records: Vec::new(),
        };
        assert(r@.experiments =~= Seq::<ExperimentModel>::empty());
        r
    }

    /// Opens the store. Calling it again changes nothing.
    pub fn initialize(&mut self) -> (r: Result<(), Error>)
        requires
            old(self).wf(),
        ensures
            final(self).wf(),
            r is Ok,
            final(self)@ == (ClientModel { ready: true, ..old(self)@ }),
    {
        self.ready = true;
        Ok(())
    }

    fn unit_value(&self, unit: RandomizationUnit) -> (r: Option<&String>)
        ensures
            match r {
                Some(v) => self@.unit_value(unit) == Some(v@),
                None => self@.unit_value(unit) is None,
            },
    {
        match unit {
            RandomizationUnit::ClientId => match &self.client_id {
                Some(c) => Some(c),
                None => Some(&self.nimbus_id),
            },
            RandomizationUnit::UserId => match &self.user_id {
                Some(u) => Some(u),
                None => None,
            },
            _ => Some(&self.nimbus_id),
        }
    }

    fn fresh_record(&self, e: &NimbusExperiment) -> (r: EnrollmentRecord)
        ensures
            r == self@.fresh_record(e@),
    {
        let cfg = &e.bucket_config;
        let n = e.branches.len();
        let (selected, h) = match self.unit_value(cfg.randomization_unit) {
            Some(value) => (
                n > 0 && in_bucket(value.as_str(), cfg.namespace.as_str(), cfg.start, cfg.count, cfg.total),
                hash_in_namespace(value.as_str(), cfg.namespace.as_str()),
            ),
            None => (false, 0u32),
        };
        let prior = match find_record(&self.records, &e.slug) {
            Some(i) => Some(&self.records[i].status),
            None => None,
        };
        let eligible = is_eligible(&e.targeting, &self.app_context);
        let status = if selected {
            let idx: usize = (h as usize) % n;
            evaluate_status(prior, self.global_participation, e.enabled, e.is_enrollment_paused, eligible, selected, &e.branches[idx].slug)
        } else {
            let none = String::new();
            evaluate_status(prior, self.global_participation, e.enabled, e.is_enrollment_paused, eligible, selected, &none)
        };
        EnrollmentRecord { slug: e.slug.clone(), status }
    }
    /// Stages `experiments` as the pending list. Nothing is evaluated and
    /// the committed state is left alone. A list in which two experiments
    /// share a slug is refused.
    pub fn set_experiments_locally(&mut self, experiments: Vec<NimbusExperiment>) -> (r: Result<(), Error>)
        requires
            old(self).wf(),
        ensures
            final(self).wf(),
            !old(self)@.ready ==> r == Err::<(), Error>(Error::DatabaseNotReady) && final(self)@ == old(self)@,
            old(self)@.ready && !slugs_unique(models_of(experiments@)) ==> r == Err::<(), Error>(
                Error::DuplicateExperiment,
            ) && final(self)@ == old(self)@,
            old(self)@.ready && slugs_unique(models_of(experiments@)) ==> r is Ok && final(self)@ == (
            ClientModel { pending: Some(models_of(experiments@)), ..old(self)@ }),
    {
        if !self.ready {
            return Err(Error::DatabaseNotReady);
        }
        if has_duplicate_slugs(&experiments) {
            return Err(Error::DuplicateExperiment);
        }
        self.pending = Some(experiments);
        Ok(())
    }

    /// Applies the pending list: it becomes the committed list and each of
    /// its experiments is evaluated afresh, keeping manual overrides as they
    /// are (see [`ClientModel::applied`]). Without a pending list nothing
    /// changes.
    pub fn apply_pending_experiments(&mut self) -> (r: Result<(), Error>)
        requires
            old(self).wf(),
        ensures
            final(self).wf(),
            !old(self)@.ready ==> r == Err::<(), Error>(Error::DatabaseNotReady) && final(self)@ == old(self)@,
            old(self)@.ready ==> r is Ok && final(self)@ == old(self)@.applied(),
    {
        if !self.ready {
            return Err(Error::DatabaseNotReady);
        }
        let pending = match &self.pending {
            None => return Ok(()),
            Some(p) => p,
        };
        let ghost m = self@;
        let ghost p = models_of(pending@);
        let mut recs: Vec<EnrollmentRecord> = Vec::new();
        let mut i: usize = 0;
        while i < pending.len()
            invariant
                i <= pending@.len(),
                m == self@,
                p == models_of(pending@),
                recs@ =~= Seq::new(i as nat, |k: int| m.fresh_record(p[k])),
            decreases pending@.len() - i,
        {
            recs.push(self.fresh_record(&pending[i]));
            i = i + 1;
        }
        let ghost first = recs@;
        let mut j: usize = 0;
        while j < self.records.len()
            invariant
                j <= self.records@.len(),
                m == self@,
                p == models_of(pending@),
                first == Seq::new(p.len(), |k: int| m.fresh_record(p[k])),
                recs@ == first + self.records@.subrange(0, j as int).filter(kept_override(p)),
            decreases self.records@.len() - j,
        {
            let rec = &self.records[j];
            let keep = rec.status.is_override() && find_experiment(pending, &rec.slug).is_none();
            proof {
                reveal(Seq::filter);
                let sub = self.records@.subrange(0, j as int + 1);
                assert(sub.drop_last() =~= self.records@.subrange(0, j as int));
                assert(sub.last() == self.records@[j as int]);
                assert(keep == kept_override(p)(self.records@[j as int]));
            }
            if keep {
                recs.push(rec.duplicate());
                assert(recs@ =~= first + self.records@.subrange(0, j as int + 1).filter(kept_override(p)));
            }
            j = j + 1;
        }
        proof {
            assert(self.records@.subrange(0, j as int) =~= self.records@);
            lemma_applied_unique(m);
        }
        let exps = copy_experiments(pending);
        self.experiments = exps;
        self.records = recs;
        Ok(())
    }

    fn visible_branch(&self, slug: &String) -> (r: Option<String>)
        ensures
            match r {
                Some(b) => self@.visible_branch(slug@) == Some(b@),
                None => self@.visible_branch(slug@) is None,
            },
    {
        match find_record(&self.records, slug) {
            Some(i) => match &self.records[i].status {
                EnrollmentStatus::Enrolled { reason, branch } => {
                    if *reason == EnrolledReason::OptIn || self.global_participation {
                        Some(branch.clone())
                    } else {
                        None
                    }
                },
                _ => None,
            },
            None => None,
        }
    }

    /// The branch of the first committed experiment that configures
    /// `feature_id` and on which the user is enrolled (see
    /// [`ClientModel::feature_branch`]).
    pub fn get_branch_slug_for_feature(&self, feature_id: String) -> (r: Result<Option<String>, Error>)
        requires
            self.wf(),
        ensures
            !self@.ready ==> r == Err::<Option<String>, Error>(Error::DatabaseNotReady),
            self@.ready ==> r is Ok,
            r matches Ok(Some(b)) ==> self@.feature_branch(feature_id@) == Some(b@),
            r matches Ok(None) ==> self@.feature_branch(feature_id@) is None,
    {
        if !self.ready {
            return Err(Error::DatabaseNotReady);
        }
        let mut i: usize = 0;
        while i < self.experiments.len()
            invariant
                i <= self.experiments@.len(),
                self.ready,
                self@.feature_branch(feature_id@) == self@.feature_branch_from(feature_id@, i as int),
            decreases self.experiments@.len() - i,
        {
            let e = &self.experiments[i];
            assert(self@.experiments[i as int] == e@);
            if e.has_feature(&feature_id) {
                let b = self.visible_branch(&e.slug);
                if b.is_some() {
                    return Ok(b);
                }
            }
            i = i + 1;
        }
        Ok(None)
    }

    /// Opts the user out of the committed experiment `slug`. The opt-out
    /// survives later applies.
    pub fn opt_out(&mut self, slug: String) -> (r: Result<(), Error>)
        requires
            old(self).wf(),
        ensures
            final(self).wf(),
            !old(self)@.ready ==> r == Err::<(), Error>(Error::DatabaseNotReady) && final(self)@ == old(self)@,
            old(self)@.ready && !slug_listed(old(self)@.experiments, slug@) ==> r == Err::<(), Error>(
                Error::NoSuchExperiment,
            ) && final(self)@ == old(self)@,
            old(self)@.ready && slug_listed(old(self)@.experiments, slug@) ==> r is Ok && final(self)@
                == (ClientModel { records: final(self)@.records, ..old(self)@ }) && records_updated(
                old(self)@.records,
                final(self)@.records,
                slug@,
                EnrollmentStatus::OptedOut,
            ),
    {
        if !self.ready {
            return Err(Error::DatabaseNotReady);
        }
        if find_experiment(&self.experiments, &slug).is_none() {
            return Err(Error::NoSuchExperiment);
        }
        put_record(&mut self.records, &slug, EnrollmentStatus::OptedOut);
        Ok(())
    }

    /// Enrolls the user by hand on `branch` of the committed experiment
    /// `slug`, replacing any earlier status. The choice survives later
    /// applies and the global participation switch.
    pub fn opt_in_with_branch(&mut self, slug: String, branch: String) -> (r: Result<(), Error>)
        requires
            old(self).wf(),
        ensures
            final(self).wf(),
            !old(self)@.ready ==> r == Err::<(), Error>(Error::DatabaseNotReady) && final(self)@ == old(self)@,
            old(self)@.ready && !slug_listed(old(self)@.experiments, slug@) ==> r == Err::<(), Error>(
                Error::NoSuchExperiment,
            ) && final(self)@ == old(self)@,
            old(self)@.ready && slug_listed(old(self)@.experiments, slug@) && !(exists|i: int|
                0 <= i < old(self)@.experiments.len() && old(self)@.experiments[i].slug@ == slug@
                    && #[trigger] experiment_has_branch(old(self)@.experiments[i], branch@)) ==> r
                == Err::<(), Error>(Error::NoSuchBranch) && final(self)@ == old(self)@,
            old(self)@.ready && (exists|i: int|
                0 <= i < old(self)@.experiments.len() && old(self)@.experiments[i].slug@ == slug@
                    && #[trigger] experiment_has_branch(old(self)@.experiments[i], branch@)) ==> r is Ok
                && final(self)@ == (ClientModel { records: final(self)@.records, ..old(self)@ })
                && records_updated(
                old(self)@.records,
                final(self)@.records,
                slug@,
                EnrollmentStatus::Enrolled { reason: EnrolledReason::OptIn, branch },
            ),
    {
        if !self.ready {
            return Err(Error::DatabaseNotReady);
        }
        let i = match find_experiment(&self.experiments, &slug) {
            None => return Err(Error::NoSuchExperiment),
            Some(i) => i,
        };
        assert(self@.experiments[i as int] == self.experiments@[i as int]@);
        if !self.experiments[i].has_branch(&branch) {
            proof {
                assert forall|k: int|
                    0 <= k < self@.experiments.len() && self@.experiments[k].slug@ == slug@ implies
                    !#[trigger] experiment_has_branch(self@.experiments[k], branch@) by {
                    if k != i as int {
                        assert(self@.experiments[k].slug@ != self@.experiments[i as int].slug@);
                    }
                }
            }
            return Err(Error::NoSuchBranch);
        }
        put_record(&mut self.records, &slug, EnrollmentStatus::Enrolled { reason: EnrolledReason::OptIn, branch });
        Ok(())
    }

    /// Sets whether the user takes part in experiments. Records are kept:
    /// while the switch is off, lookups report only manual enrollments and
    /// the next apply evaluates every other experiment as not enrolled.
    pub fn set_global_user_participation(&mut self, participate: bool) -> (r: Result<(), Error>)
        requires
            old(self).wf(),
        ensures
            final(self).wf(),
            !old(self)@.ready ==> r == Err::<(), Error>(Error::DatabaseNotReady) && final(self)@ == old(self)@,
            old(self)@.ready ==> r is Ok && final(self)@ == (ClientModel {
                global_participation: participate,
                ..old(self)@
            }),
    {
        if !self.ready {
            return Err(Error::DatabaseNotReady);
        }
        self.global_participation = participate;
        Ok(())
    }

    /// The committed experiment list.
    pub fn get_experiments(&self) -> (r: &Vec<NimbusExperiment>)
        ensures
            models_of(r@) == self@.experiments,
    {
        &self.experiments
    }

    /// Whether the user takes part in experiments.
    pub fn get_global_user_participation(&self) -> (r: Result<bool, Error>)
        ensures
            !self@.ready ==> r == Err::<bool, Error>(Error::DatabaseNotReady),
            self@.ready ==> r == Ok::<bool, Error>(self@.global_participation),
    {
        if !self.ready {
            return Err(Error::DatabaseNotReady);
        }
        Ok(self.global_participation)
    }
}

/// Applying keeps the client's invariant.
pub proof fn lemma_applied_unique(m: ClientModel)
    requires
        m.wf(),
    ensures
        m.applied().wf(),
{
    if let Some(p) = m.pending {
        let first = Seq::new(p.len(), |i: int| m.fresh_record(p[i]));
        let extras = m.records.filter(kept_override(p));
        lemma_filter_unique(m.records, kept_override(p));
        let all = first + extras;
        assert(m.applied().records == all);
        assert forall|i: int, j: int|
            0 <= i < all.len() && 0 <= j < all.len() && i != j implies #[trigger] all[i].slug@
            != #[trigger] all[j].slug@ by {
            if i < first.len() && j >= first.len() {
                m.records.lemma_filter_pred(kept_override(p), j - first.len());
                assert(p[i].slug@ == all[i].slug@);
            } else if j < first.len() && i >= first.len() {
                m.records.lemma_filter_pred(kept_override(p), i - first.len());
                assert(p[j].slug@ == all[j].slug@);
            } else if i >= first.len() && j >= first.len() {
                assert(extras[i - first.len()] == all[i]);
                assert(extras[j - first.len()] == all[j]);
            } else {
                assert(p[i].slug@ != p[j].slug@);
            }
        }
    }
}

/// Filtering keeps records unique, and keeps only records that were there.
proof fn lemma_filter_unique(recs: Seq<EnrollmentRecord>, pred: spec_fn(EnrollmentRecord) -> bool)
    requires
        records_unique(recs),
    ensures
        records_unique(recs.filter(pred)),
        forall|k: int| 0 <= k < recs.filter(pred).len() ==> recs.contains(#[trigger] recs.filter(pred)[k]),
    decreases recs.len(),
{
    reveal(Seq::filter);
    if recs.len() > 0 {
        let d = recs.drop_last();
        assert forall|i: int, j: int| 0 <= i < d.len() && 0 <= j < d.len() && i != j implies #[trigger] d[i].slug@
            != #[trigger] d[j].slug@ by {
            assert(d[i] == recs[i] && d[j] == recs[j]);
        }
        lemma_filter_unique(d, pred);
        let fd = d.filter(pred);
        assert forall|k: int| 0 <= k < fd.len() implies #[trigger] fd[k].slug@ != recs.last().slug@ by {
            assert(d.contains(fd[k]));
            let a = choose|a: int| 0 <= a < d.len() && d[a] == fd[k];
            assert(recs[a] == fd[k]);
        }
        assert forall|k: int| 0 <= k < recs.filter(pred).len() implies recs.contains(#[trigger] recs.filter(pred)[k]) by {
            if k < fd.len() {
                assert(recs.filter(pred)[k] == fd[k]);
                assert(d.contains(fd[k]));
                let a = choose|a: int| 0 <= a < d.len() && d[a] == fd[k];
                assert(recs[a] == fd[k]);
            } else {
                assert(recs.filter(pred)[k] == recs.last());
                assert(recs[recs.len() - 1] == recs.last());
            }
        }
        if pred(recs.last()) {
            let f = recs.filter(pred);
            assert forall|i: int, j: int| 0 <= i < f.len() && 0 <= j < f.len() && i != j implies #[trigger] f[i].slug@
                != #[trigger] f[j].slug@ by {
                if i < fd.len() && j < fd.len() {
                    assert(f[i] == fd[i] && f[j] == fd[j]);
                } else if i < fd.len() {
                    assert(f[i] == fd[i]);
                } else {
                    assert(f[j] == fd[j]);
                }
            }
        }
    }
}

} // verus!
