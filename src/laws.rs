//! Properties of the enrollment engine that relate several operations.
use vstd::prelude::*;
use crate::client::{ClientModel, kept_override, records_updated};
use crate::enrollment::{
    EnrolledReason, EnrollmentRecord, EnrollmentStatus, is_override, lemma_next_status_idempotent,
    lemma_record_absent, lemma_record_at, lemma_record_concat, record_of,
};
use crate::schema::{ExperimentModel, experiment_has_feature, slug_listed};
use crate::targeting::targeting_allows;

verus! {

proof fn lemma_filter_none(s: Seq<EnrollmentRecord>, pred: spec_fn(EnrollmentRecord) -> bool)
    requires
        forall|i: int| 0 <= i < s.len() ==> !pred(#[trigger] s[i]),
    ensures
        s.filter(pred) == Seq::<EnrollmentRecord>::empty(),
    decreases s.len(),
{
    reveal(Seq::filter);
    if s.len() > 0 {
        assert(!pred(s[s.len() - 1]));
        lemma_filter_none(s.drop_last(), pred);
    }
    assert(s.filter(pred) =~= Seq::<EnrollmentRecord>::empty());
}

proof fn lemma_filter_all(s: Seq<EnrollmentRecord>, pred: spec_fn(EnrollmentRecord) -> bool)
    requires
        forall|i: int| 0 <= i < s.len() ==> pred(#[trigger] s[i]),
    ensures
        s.filter(pred) == s,
    decreases s.len(),
{
    reveal(Seq::filter);
    if s.len() > 0 {
        assert(pred(s[s.len() - 1]));
        lemma_filter_all(s.drop_last(), pred);
        assert(s.drop_last().push(s.last()) =~= s);
    } else {
        assert(s =~= Seq::<EnrollmentRecord>::empty());
    }
}

/// Filtering finds the same record for `slug` when every record with that
/// slug passes the filter.
proof fn lemma_filter_record(recs: Seq<EnrollmentRecord>, pred: spec_fn(EnrollmentRecord) -> bool, slug: Seq<char>)
    requires
        forall|i: int| 0 <= i < recs.len() && (#[trigger] recs[i]).slug@ == slug ==> pred(recs[i]),
    ensures
        record_of(recs.filter(pred), slug) == record_of(recs, slug),
    decreases recs.len(),
{
    reveal(Seq::filter);
    if recs.len() > 0 {
        let d = recs.drop_last();
        let last = seq![recs.last()];
        assert(d + last =~= recs);
        assert(last.drop_first() =~= Seq::<EnrollmentRecord>::empty());
        assert(record_of(Seq::<EnrollmentRecord>::empty(), slug) is None);
        assert(record_of(last, slug) == if recs.last().slug@ == slug {
            Some(recs.last().status)
        } else {
            record_of(last.drop_first(), slug)
        });
        lemma_filter_record(d, pred, slug);
        lemma_record_concat(d, last, slug);
        if pred(recs.last()) {
            assert(recs.filter(pred) =~= d.filter(pred) + last);
            lemma_record_concat(d.filter(pred), last, slug);
        } else {
            assert(recs[recs.len() - 1].slug@ != slug);
            assert(recs.filter(pred) == d.filter(pred));
        }
    }
}

/// A record found for `slug` is one that the sequence holds.
proof fn lemma_record_found(recs: Seq<EnrollmentRecord>, slug: Seq<char>)
    requires
        record_of(recs, slug) is Some,
    ensures
        exists|i: int|
            0 <= i < recs.len() && (#[trigger] recs[i]).slug@ == slug && record_of(recs, slug) == Some(
                recs[i].status,
            ),
    decreases recs.len(),
{
    if recs[0].slug@ != slug {
        lemma_record_found(recs.drop_first(), slug);
        let i = choose|i: int|
            0 <= i < recs.drop_first().len() && (#[trigger] recs.drop_first()[i]).slug@ == slug
                && record_of(recs.drop_first(), slug) == Some(recs.drop_first()[i].status);
        assert(recs[i + 1] == recs.drop_first()[i]);
    } else {
        assert(recs[0].slug@ == slug);
    }
}

/// In the applied state, the experiment at index `i` of the pending list
/// has the record that a fresh evaluation gave it.
proof fn lemma_applied_record(m: ClientModel, i: int)
    requires
        m.wf(),
        m.pending is Some,
        0 <= i < m.pending->0.len(),
    ensures
        record_of(m.applied().records, m.pending->0[i].slug@) == Some(m.fresh_record(m.pending->0[i]).status),
{
    let p = m.pending->0;
    let first = Seq::new(p.len(), |k: int| m.fresh_record(p[k]));
    let all = first + m.records.filter(kept_override(p));
    assert(m.applied().records == all);
    assert forall|k: int| 0 <= k < i implies #[trigger] all[k].slug@ != p[i].slug@ by {
        assert(all[k].slug@ == p[k].slug@);
    }
    lemma_record_at(all, i, p[i].slug@);
}

/// A manual status (an opt-out, or an opt-in on a branch) is kept as it is
/// by an apply, whether or not the experiment is still in the list.
pub proof fn lemma_override_survives_apply(m: ClientModel, slug: Seq<char>, status: EnrollmentStatus)
    requires
        m.wf(),
        is_override(status),
        record_of(m.records, slug) == Some(status),
    ensures
        record_of(m.applied().records, slug) == Some(status),
{
    if let Some(p) = m.pending {
        if slug_listed(p, slug) {
            let i = choose|i: int| 0 <= i < p.len() && #[trigger] p[i].slug@ == slug;
            lemma_applied_record(m, i);
        } else {
            let first = Seq::new(p.len(), |k: int| m.fresh_record(p[k]));
            assert forall|k: int| 0 <= k < first.len() implies #[trigger] first[k].slug@ != slug by {
                assert(first[k].slug@ == p[k].slug@);
            }
            lemma_record_absent(first, slug);
            lemma_record_concat(first, m.records.filter(kept_override(p)), slug);
            lemma_record_found(m.records, slug);
            let j = choose|j: int|
                0 <= j < m.records.len() && (#[trigger] m.records[j]).slug@ == slug && record_of(m.records, slug)
                    == Some(m.records[j].status);
            assert forall|k: int| 0 <= k < m.records.len() && (#[trigger] m.records[k]).slug@ == slug implies kept_override(
                p,
            )(m.records[k]) by {
                if k != j {
                    assert(m.records[k].slug@ != m.records[j].slug@);
                }
            }
            lemma_filter_record(m.records, kept_override(p), slug);
        }
    }
}

/// After opting out of an experiment, an apply does not enroll the user in
/// it again, whether or not the experiment is still in the pending list:
/// lookups report no branch for it.
pub proof fn lemma_opt_out_sticky(before: ClientModel, after: ClientModel, slug: Seq<char>)
    requires
        after.wf(),
        records_updated(before.records, after.records, slug, EnrollmentStatus::OptedOut),
    ensures
        record_of(after.applied().records, slug) == Some(EnrollmentStatus::OptedOut),
        after.applied().visible_branch(slug) is None,
{
    lemma_override_survives_apply(after, slug, EnrollmentStatus::OptedOut);
}

/// Opting in on a branch makes lookups for the experiment report that
/// branch, whatever targeting, sampling, an earlier opt-in or the global
/// switch would say, and an apply keeps it so.
pub proof fn lemma_opt_in_overrides(before: ClientModel, after: ClientModel, slug: Seq<char>, branch: String)
    requires
        after.wf(),
        records_updated(
            before.records,
            after.records,
            slug,
            EnrollmentStatus::Enrolled { reason: EnrolledReason::OptIn, branch },
        ),
    ensures
        after.visible_branch(slug) == Some(branch@),
        after.applied().visible_branch(slug) == Some(branch@),
{
    lemma_override_survives_apply(after, slug, EnrollmentStatus::Enrolled { reason: EnrolledReason::OptIn, branch });
}

/// With the global switch off, lookups report the branch of a manual
/// enrollment as before and no branch for any other experiment.
pub proof fn lemma_global_pause(m: ClientModel, slug: Seq<char>)
    ensures
        (ClientModel { global_participation: false, ..m }).visible_branch(slug) == (match record_of(m.records, slug) {
            Some(EnrollmentStatus::Enrolled { reason: EnrolledReason::OptIn, branch }) => Some(branch@),
            _ => None,
        }),
{
}

proof fn lemma_pending_isolated_from(m: ClientModel, list: Seq<ExperimentModel>, feature_id: Seq<char>, i: int)
    ensures
        (ClientModel { pending: Some(list), ..m }).feature_branch_from(feature_id, i) == m.feature_branch_from(feature_id, i),
    decreases m.experiments.len() - i,
{
    if 0 <= i < m.experiments.len() {
        lemma_pending_isolated_from(m, list, feature_id, i + 1);
    }
}

/// Staging a list changes no lookup: until it is applied, lookups answer
/// from the committed state, and a client with no committed experiment
/// reports no branch for any feature.
pub proof fn lemma_pending_isolated(m: ClientModel, list: Seq<ExperimentModel>, feature_id: Seq<char>)
    ensures
        (ClientModel { pending: Some(list), ..m }).feature_branch(feature_id) == m.feature_branch(feature_id),
        m.experiments.len() == 0 ==> (ClientModel { pending: Some(list), ..m }).feature_branch(feature_id) is None,
{
    lemma_pending_isolated_from(m, list, feature_id, 0);
}

proof fn lemma_feature_found(m: ClientModel, feature_id: Seq<char>, i: int, j: int)
    requires
        0 <= j <= i < m.experiments.len(),
        experiment_has_feature(m.experiments[i], feature_id),
        m.visible_branch(m.experiments[i].slug@) is Some,
    ensures
        m.feature_branch_from(feature_id, j) is Some,
    decreases i - j,
{
    if j < i {
        lemma_feature_found(m, feature_id, i, j + 1);
    }
}

/// An enabled experiment whose bucket range covers every bucket, with
/// targeting that admits the user, not paused and with a branch, enrolls the
/// user on apply when they take part, the identifier it hashes is
/// available, and they have not opted out of it: lookups for it and for
/// each of its features then report a branch.
pub proof fn lemma_universal_enrollment(m: ClientModel, i: int)
    requires
        m.wf(),
        m.global_participation,
        m.pending is Some,
        0 <= i < m.pending->0.len(),
        m.pending->0[i].enabled,
        m.pending->0[i].bucket_config.count >= m.pending->0[i].bucket_config.total,
        m.pending->0[i].bucket_config.total > 0,
        targeting_allows(m.pending->0[i].targeting, m.context),
        !m.pending->0[i].is_enrollment_paused,
        m.pending->0[i].branches.len() > 0,
        m.unit_value(m.pending->0[i].bucket_config.randomization_unit) is Some,
        !(record_of(m.records, m.pending->0[i].slug@) matches Some(EnrollmentStatus::OptedOut)),
    ensures
        m.applied().visible_branch(m.pending->0[i].slug@) is Some,
        forall|f: Seq<char>|
            #[trigger] experiment_has_feature(m.pending->0[i], f) ==> m.applied().feature_branch(f) is Some,
{
    let p = m.pending->0;
    let e = p[i];
    let total = e.bucket_config.total as int;
    let b = crate::sampling::bucket_of(
        m.unit_value(e.bucket_config.randomization_unit)->0,
        e.bucket_config.namespace@,
        e.bucket_config.total,
    );
    assert(0 <= (b - e.bucket_config.start as int) % total < total) by {
        vstd::arithmetic::div_mod::lemma_mod_bound(b - e.bucket_config.start as int, total);
    }
    assert(m.selected(e));
    lemma_applied_record(m, i);
    assert forall|f: Seq<char>| #[trigger] experiment_has_feature(p[i], f) implies m.applied().feature_branch(f) is Some by {
        assert(m.applied().experiments[i] == p[i]);
        lemma_feature_found(m.applied(), f, i, 0);
    }
}

/// A branch reported for a feature is the visible branch of some committed
/// experiment, at or after `j`, that configures the feature.
pub proof fn lemma_feature_branch_source(m: ClientModel, feature_id: Seq<char>, j: int)
    requires
        j >= 0,
    ensures
        m.feature_branch_from(feature_id, j) is Some ==> exists|i: int|
            j <= i < m.experiments.len() && #[trigger] experiment_has_feature(m.experiments[i], feature_id)
                && m.visible_branch(m.experiments[i].slug@) == m.feature_branch_from(feature_id, j),
    decreases m.experiments.len() - j,
{
    if j < m.experiments.len() {
        lemma_feature_branch_source(m, feature_id, j + 1);
    }
}

/// While the global switch is off, a lookup by feature reports only a
/// branch the user opted into by hand: every experiment without such an
/// override resolves to no branch.
pub proof fn lemma_global_pause_features(m: ClientModel, feature_id: Seq<char>)
    requires
        !m.global_participation,
    ensures
        m.feature_branch(feature_id) is Some ==> exists|i: int|
            0 <= i < m.experiments.len() && #[trigger] experiment_has_feature(m.experiments[i], feature_id)
                && (match record_of(m.records, m.experiments[i].slug@) {
                Some(EnrollmentStatus::Enrolled { reason: EnrolledReason::OptIn, branch }) => Some(branch@)
                    == m.feature_branch(feature_id),
                _ => false,
            }),
{
    lemma_feature_branch_source(m, feature_id, 0);
}

/// After an opt-out and an apply, a lookup by feature reports a branch only
/// if some other committed experiment configures the feature and shows one.
pub proof fn lemma_opt_out_sticky_features(before: ClientModel, after: ClientModel, slug: Seq<char>, feature_id: Seq<char>)
    requires
        after.wf(),
        records_updated(before.records, after.records, slug, EnrollmentStatus::OptedOut),
    ensures
        after.applied().feature_branch(feature_id) is Some ==> exists|i: int|
            0 <= i < after.applied().experiments.len() && #[trigger] experiment_has_feature(
                after.applied().experiments[i],
                feature_id,
            ) && after.applied().experiments[i].slug@ != slug && after.applied().visible_branch(
                after.applied().experiments[i].slug@,
            ) is Some,
{
    lemma_opt_out_sticky(before, after, slug);
    lemma_feature_branch_source(after.applied(), feature_id, 0);
}

/// Applying the same pending list twice gives the same state as applying
/// it once.
pub proof fn lemma_apply_idempotent(m: ClientModel)
    requires
        m.wf(),
    ensures
        m.applied().applied() == m.applied(),
{
    if let Some(p) = m.pending {
        let m1 = m.applied();
        crate::client::lemma_applied_unique(m);
        let first = Seq::new(p.len(), |k: int| m.fresh_record(p[k]));
        let extras = m.records.filter(kept_override(p));
        assert(m1.records == first + extras);
        let first2 = Seq::new(p.len(), |k: int| m1.fresh_record(p[k]));
        assert forall|k: int| 0 <= k < p.len() implies #[trigger] first2[k] == first[k] by {
            lemma_applied_record(m, k);
            assert(m1.unit_value(p[k].bucket_config.randomization_unit) == m.unit_value(p[k].bucket_config.randomization_unit));
            lemma_next_status_idempotent(
                record_of(m.records, p[k].slug@),
                m.global_participation,
                p[k].enabled,
                p[k].is_enrollment_paused,
                targeting_allows(p[k].targeting, m.context),
                m.selected(p[k]),
                m.chosen_branch(p[k]),
            );
        }
        assert(first2 =~= first);
        Seq::filter_distributes_over_add(first, extras, kept_override(p));
        assert forall|k: int| 0 <= k < first.len() implies !kept_override(p)(#[trigger] first[k]) by {
            assert(first[k].slug@ == p[k].slug@);
        }
        lemma_filter_none(first, kept_override(p));
        assert forall|k: int| 0 <= k < extras.len() implies kept_override(p)(#[trigger] extras[k]) by {
            m.records.lemma_filter_pred(kept_override(p), k);
        }
        lemma_filter_all(extras, kept_override(p));
        assert(Seq::<EnrollmentRecord>::empty() + extras =~= extras);
        assert(m1.applied().records =~= m1.records);
    }
}

} // verus!
