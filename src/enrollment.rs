//! Enrollment records and the per-experiment enrollment decision.
use vstd::prelude::*;

verus! {

/// Why a user is enrolled.
#[derive(Clone, Copy, Debug, PartialEq, Eq, Structural)]
pub enum EnrolledReason {
    /// Targeting and bucket sampling admitted the user.
    Qualified,
    /// The user chose the branch by hand.
    OptIn,
}

/// Why a user is not enrolled.
#[derive(Clone, Copy, Debug, PartialEq, Eq, Structural)]
pub enum NotEnrolledReason {
    /// The user's bucket lies outside the experiment's range, or the
    /// identifier the experiment hashes is not available.
    NotSelected,
    /// The experiment is not enabled.
    NotEnabled,
    /// The targeting expression does not admit the user.
    NotTargeted,
    /// The experiment takes no new enrollments.
    EnrollmentsPaused,
    /// The user takes part in no experiment.
    GlobalOptOut,
}

/// The current state of one experiment for this user.
#[derive(Debug)]
#[allow(inconsistent_fields)]
pub enum EnrollmentStatus {
    /// Enrolled on `branch`.
    Enrolled { reason: EnrolledReason, branch: String },
    /// Not enrolled.
    NotEnrolled { reason: NotEnrolledReason },
    /// Was enrolled on `branch`, no longer passes targeting; enrolled again
    /// once a fresh evaluation would enroll the user.
    Disqualified { branch: String },
    /// The user opted out by hand.
    OptedOut,
}

/// The record kept for one experiment slug.
#[derive(Debug)]
pub struct EnrollmentRecord {
    /// The experiment's slug.
    pub slug: String,
    /// Its current status.
    pub status: EnrollmentStatus,
}

/// Whether `s` was set by hand and so survives automatic re-evaluation.
pub open spec fn is_override(s: EnrollmentStatus) -> bool {
    match s {
        EnrollmentStatus::OptedOut => true,
        EnrollmentStatus::Enrolled { reason, .. } => reason == EnrolledReason::OptIn,
        _ => false,
    }
}

/// The status an experiment moves to on an automatic evaluation, from its
/// `prior` status, the global participation flag, whether the experiment is
/// enabled, whether it is paused, whether targeting admits the user, whether
/// the user's bucket is in range, and the branch the user's bucket points to.
pub open spec fn next_status(
    prior: Option<EnrollmentStatus>,
    global: bool,
    enabled: bool,
    paused: bool,
    eligible: bool,
    selected: bool,
    branch: String,
) -> EnrollmentStatus {
    match prior {
        Some(p) if is_override(p) => p,
        _ if !global => EnrollmentStatus::NotEnrolled { reason: NotEnrolledReason::GlobalOptOut },
        Some(EnrollmentStatus::Enrolled { branch: b, .. }) => if enabled && eligible {
            EnrollmentStatus::Enrolled { reason: EnrolledReason::Qualified, branch: b }
        } else {
            EnrollmentStatus::Disqualified { branch: b }
        },
        Some(EnrollmentStatus::Disqualified { branch: b }) => if enabled && !paused && eligible && selected {
            EnrollmentStatus::Enrolled { reason: EnrolledReason::Qualified, branch }
        } else {
            EnrollmentStatus::Disqualified { branch: b }
        },
        _ => if !enabled {
            EnrollmentStatus::NotEnrolled { reason: NotEnrolledReason::NotEnabled }
        } else if paused {
            EnrollmentStatus::NotEnrolled { reason: NotEnrolledReason::EnrollmentsPaused }
        } else if !eligible {
            EnrollmentStatus::NotEnrolled { reason: NotEnrolledReason::NotTargeted }
        } else if !selected {
            EnrollmentStatus::NotEnrolled { reason: NotEnrolledReason::NotSelected }
        } else {
            EnrollmentStatus::Enrolled { reason: EnrolledReason::Qualified, branch }
        },
    }
}

/// The status recorded for `slug`: that of the first record with that slug.
pub open spec fn record_of(recs: Seq<EnrollmentRecord>, slug: Seq<char>) -> Option<EnrollmentStatus>
    decreases recs.len(),
{
    if recs.len() == 0 {
        None
    } else if recs[0].slug@ == slug {
        Some(recs[0].status)
    } else {
        record_of(recs.drop_first(), slug)
    }
}

/// No two records share a slug.
pub open spec fn records_unique(recs: Seq<EnrollmentRecord>) -> bool {
    forall|i: int, j: int|
        0 <= i < recs.len() && 0 <= j < recs.len() && i != j ==> #[trigger] recs[i].slug@
            != #[trigger] recs[j].slug@
}

/// Re-evaluating a status with the same inputs leaves it as it is.
pub proof fn lemma_next_status_idempotent(
    prior: Option<EnrollmentStatus>,
    global: bool,
    enabled: bool,
    paused: bool,
    eligible: bool,
    selected: bool,
    branch: String,
)
    ensures
        next_status(Some(next_status(prior, global, enabled, paused, eligible, selected, branch)), global, enabled, paused, eligible, selected, branch)
            == next_status(prior, global, enabled, paused, eligible, selected, branch),
{
}

/// The record at index `i` is the one found for its slug when no earlier
/// record has that slug.
pub proof fn lemma_record_at(recs: Seq<EnrollmentRecord>, i: int, slug: Seq<char>)
    requires
        0 <= i < recs.len(),
        recs[i].slug@ == slug,
        forall|k: int| 0 <= k < i ==> #[trigger] recs[k].slug@ != slug,
    ensures
        record_of(recs, slug) == Some(recs[i].status),
    decreases i,
{
    if i > 0 {
        assert forall|k: int| 0 <= k < i - 1 implies #[trigger] recs.drop_first()[k].slug@ != slug by {
            assert(recs[k + 1].slug@ != slug);
        }
        lemma_record_at(recs.drop_first(), i - 1, slug);
    }
}

/// No record is found for a slug that no record has.
pub proof fn lemma_record_absent(recs: Seq<EnrollmentRecord>, slug: Seq<char>)
    requires
        forall|k: int| 0 <= k < recs.len() ==> #[trigger] recs[k].slug@ != slug,
    ensures
        record_of(recs, slug) is None,
    decreases recs.len(),
{
    if recs.len() > 0 {
        assert(recs[0].slug@ != slug);
        assert forall|k: int| 0 <= k < recs.len() - 1 implies #[trigger] recs.drop_first()[k].slug@ != slug by {
            assert(recs[k + 1].slug@ != slug);
        }
        lemma_record_absent(recs.drop_first(), slug);
    }
}

/// In a concatenation a slug is found in the first part if it is there, and
/// in the second part otherwise.
pub proof fn lemma_record_concat(a: Seq<EnrollmentRecord>, b: Seq<EnrollmentRecord>, slug: Seq<char>)
    ensures
        record_of(a + b, slug) == if record_of(a, slug) is Some {
            record_of(a, slug)
        } else {
            record_of(b, slug)
        },
    decreases a.len(),
{
    if a.len() == 0 {
        assert(a + b =~= b);
    } else {
        assert((a + b).drop_first() =~= a.drop_first() + b);
        lemma_record_concat(a.drop_first(), b, slug);
    }
}

impl EnrollmentStatus {
    /// A copy of this status.
    pub fn duplicate(&self) -> (r: Self)
        ensures
            r == *self,
    {
        match self {
            EnrollmentStatus::Enrolled { reason, branch } => EnrollmentStatus::Enrolled {
                reason: *reason,
                branch: branch.clone(),
            },
            EnrollmentStatus::NotEnrolled { reason } => EnrollmentStatus::NotEnrolled { reason: *reason },
            EnrollmentStatus::Disqualified { branch } => EnrollmentStatus::Disqualified { branch: branch.clone() },
            EnrollmentStatus::OptedOut => EnrollmentStatus::OptedOut,
        }
    }

    /// Whether this status was set by hand.
    pub fn is_override(&self) -> (r: bool)
        ensures
            r == is_override(*self),
    {
        match self {
            EnrollmentStatus::OptedOut => true,
            EnrollmentStatus::Enrolled { reason, .. } => *reason == EnrolledReason::OptIn,
            _ => false,
        }
    }
}

impl EnrollmentRecord {
    /// A copy of this record.
    pub fn duplicate(&self) -> (r: Self)
        ensures
            r == *self,
    {
        EnrollmentRecord { slug: self.slug.clone(), status: self.status.duplicate() }
    }
}

/// The status an automatic evaluation gives, from the prior status and the
/// facts of the evaluation.
pub fn evaluate_status(
    prior: Option<&EnrollmentStatus>,
    global: bool,
    enabled: bool,
    paused: bool,
    eligible: bool,
    selected: bool,
    branch: &String,
) -> (r: EnrollmentStatus)
    ensures
        r == next_status(
            match prior {
                Some(p) => Some(*p),
                None => None,
            },
            global,
            enabled,
            paused,
            eligible,
            selected,
            *branch,
        ),
{
    if let Some(p) = prior {
        if p.is_override() {
            return p.duplicate();
        }
    }
    if !global {
        return EnrollmentStatus::NotEnrolled { reason: NotEnrolledReason::GlobalOptOut };
    }
    match prior {
        Some(EnrollmentStatus::Enrolled { branch: b, .. }) => {
            if enabled && eligible {
                EnrollmentStatus::Enrolled { reason: EnrolledReason::Qualified, branch: b.clone() }
            } else {
                EnrollmentStatus::Disqualified { branch: b.clone() }
            }
        },
        Some(EnrollmentStatus::Disqualified { branch: b }) => {
            if enabled && !paused && eligible && selected {
                EnrollmentStatus::Enrolled { reason: EnrolledReason::Qualified, branch: branch.clone() }
            } else {
                EnrollmentStatus::Disqualified { branch: b.clone() }
            }
        },
        _ => {
            if !enabled {
                EnrollmentStatus::NotEnrolled { reason: NotEnrolledReason::NotEnabled }
            } else if paused {
                EnrollmentStatus::NotEnrolled { reason: NotEnrolledReason::EnrollmentsPaused }
            } else if !eligible {
                EnrollmentStatus::NotEnrolled { reason: NotEnrolledReason::NotTargeted }
            } else if !selected {
                EnrollmentStatus::NotEnrolled { reason: NotEnrolledReason::NotSelected }
            } else {
                EnrollmentStatus::Enrolled { reason: EnrolledReason::Qualified, branch: branch.clone() }
            }
        },
    }
}

/// The index of the first record with slug `slug`, if any.
pub fn find_record(recs: &Vec<EnrollmentRecord>, slug: &String) -> (r: Option<usize>)
    ensures
        match r {
            Some(i) => i < recs@.len() && recs@[i as int].slug@ == slug@ && record_of(recs@, slug@)
                == Some(recs@[i as int].status) && forall|k: int|
                0 <= k < i ==> #[trigger] recs@[k].slug@ != slug@,
            None => record_of(recs@, slug@) is None,
        },
{
    let mut i: usize = 0;
    while i < recs.len()
        invariant
            i <= recs@.len(),
            forall|k: int| 0 <= k < i ==> #[trigger] recs@[k].slug@ != slug@,
        decreases recs@.len() - i,
    {
        if recs[i].slug == *slug {
            proof {
                lemma_record_at(recs@, i as int, slug@);
            }
            return Some(i);
        }
        i = i + 1;
    }
    proof {
        lemma_record_absent(recs@, slug@);
    }
    None
}

/// Sets the status recorded for `slug`, replacing the record that holds it
/// or adding one; every other slug keeps its status.
pub fn put_record(recs: &mut Vec<EnrollmentRecord>, slug: &String, status: EnrollmentStatus)
    ensures
        record_of(final(recs)@, slug@) == Some(status),
        forall|s: Seq<char>| s != slug@ ==> #[trigger] record_of(final(recs)@, s) == record_of(old(recs)@, s),
        records_unique(old(recs)@) ==> records_unique(final(recs)@),
{
    match find_record(recs, slug) {
        Some(i) => {
            let ghost before = recs@;
            let rec = EnrollmentRecord { slug: slug.clone(), status };
            recs.set(i, rec);
            proof {
                assert forall|s: Seq<char>| s != slug@ implies record_of(#[trigger] recs@, s) == record_of(before, s) by {
                    lemma_record_same_slugs(before, recs@, i as int, s);
                }
                lemma_record_at(recs@, i as int, slug@);
            }
        },
        None => {
            let ghost before = recs@;
            recs.push(EnrollmentRecord { slug: slug.clone(), status });
            proof {
                assert(recs@ =~= before + seq![recs@.last()]);
                let tail = seq![recs@.last()];
                assert(tail.drop_first() =~= Seq::<EnrollmentRecord>::empty());
                assert forall|s: Seq<char>| s != slug@ implies record_of(#[trigger] recs@, s) == record_of(before, s) by {
                    lemma_record_concat(before, tail, s);
                    assert(record_of(tail, s) == record_of(tail.drop_first(), s));
                }
                lemma_record_concat(before, seq![recs@.last()], slug@);
                lemma_record_absent_all(before, slug@);
            }
        },
    }
}

/// When no record is found for a slug, no record has it.
proof fn lemma_record_absent_all(recs: Seq<EnrollmentRecord>, slug: Seq<char>)
    requires
        record_of(recs, slug) is None,
    ensures
        forall|k: int| 0 <= k < recs.len() ==> #[trigger] recs[k].slug@ != slug,
    decreases recs.len(),
{
    if recs.len() > 0 {
        lemma_record_absent_all(recs.drop_first(), slug);
        assert forall|k: int| 0 <= k < recs.len() implies #[trigger] recs[k].slug@ != slug by {
            if k > 0 {
                assert(recs.drop_first()[k - 1] == recs[k]);
            }
        }
    }
}

/// Replacing a record by one with the same slug leaves other slugs' lookups alone.
proof fn lemma_record_same_slugs(a: Seq<EnrollmentRecord>, b: Seq<EnrollmentRecord>, i: int, s: Seq<char>)
    requires
        a.len() == b.len(),
        0 <= i < a.len(),
        a[i].slug@ == b[i].slug@,
        a[i].slug@ != s,
        forall|k: int| 0 <= k < a.len() && k != i ==> #[trigger] a[k] == #[trigger] b[k],
    ensures
        record_of(b, s) == record_of(a, s),
    decreases a.len(),
{
    if a.len() > 0 && i > 0 {
        assert(a[0] == b[0]);
        assert forall|k: int| 0 <= k < a.len() - 1 && k != i - 1 implies #[trigger] a.drop_first()[k] == #[trigger] b.drop_first()[k] by {
            assert(a[k + 1] == b[k + 1]);
        }
        lemma_record_same_slugs(a.drop_first(), b.drop_first(), i - 1, s);
    } else if a.len() > 0 {
        assert(a.drop_first() =~= b.drop_first());
    }
}

} // verus!
