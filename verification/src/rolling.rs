//! The rolling policy: a pure predicate over writer statistics that
//! decides when the current file is closed in favour of a new one.

use vstd::prelude::*;
use crate::table::{FileSettings, DEFAULT_MAX_PARTS, DEFAULT_ROLLOVER_SECONDS};

verus! {

/// Statistics of one in-flight multipart writer.
///
/// Times are milliseconds on the driver's monotonic clock.
#[derive(Debug, Clone)]
pub struct MultiPartWriterStats {
    pub bytes_written: usize,
    pub parts_written: usize,
    pub last_write_at: u64,
    pub first_write_at: u64,
}

/// Milliseconds elapsed between `t` and `now`, zero when the clock ran
/// backwards.
pub open spec fn spec_elapsed(t: u64, now: u64) -> int {
    if now >= t {
        now - t
    } else {
        0
    }
}

/// A compound predicate over writer statistics.
pub enum RollingPolicy {
    PartLimit(usize),
    SizeLimit(usize),
    InactivityDuration(u64),
    RolloverDuration(u64),
    AnyPolicy(Vec<RollingPolicy>),
}

/// Whether any policy in the list asks to close the file.
pub open spec fn spec_any_rolls(ps: Seq<RollingPolicy>, stats: MultiPartWriterStats, now_millis: u64) -> bool
    decreases ps,
{
    if ps.len() == 0 {
        false
    } else {
        ps[0].spec_should_roll(stats, now_millis) || spec_any_rolls(ps.drop_first(), stats, now_millis)
    }
}

impl RollingPolicy {
    /// Whether this policy asks to close the file, given the writer's
    /// statistics and the current time in milliseconds.
    pub open spec fn spec_should_roll(self, stats: MultiPartWriterStats, now_millis: u64) -> bool
        decreases self,
    {
        match self {
            RollingPolicy::PartLimit(limit) => stats.parts_written >= limit,
            RollingPolicy::SizeLimit(limit) => stats.bytes_written >= limit,
            RollingPolicy::InactivityDuration(d) => spec_elapsed(stats.last_write_at, now_millis) >= d,
            RollingPolicy::RolloverDuration(d) => spec_elapsed(stats.first_write_at, now_millis) >= d,
            RollingPolicy::AnyPolicy(policies) => spec_any_rolls(policies@, stats, now_millis),
        }
    }

    /// Evaluates the policy.
    pub fn should_roll(&self, stats: &MultiPartWriterStats, now_millis: u64) -> (r: bool)
        ensures
            r == self.spec_should_roll(*stats, now_millis),
        decreases self,
    {
        match self {
            RollingPolicy::PartLimit(limit) => stats.parts_written >= *limit,
            RollingPolicy::SizeLimit(limit) => stats.bytes_written >= *limit,
            RollingPolicy::InactivityDuration(d) => {
                let elapsed: u64 = if now_millis >= stats.last_write_at {
                    now_millis - stats.last_write_at
                } else {
                    0
                };
                elapsed >= *d
            },
            RollingPolicy::RolloverDuration(d) => {
                let elapsed: u64 = if now_millis >= stats.first_write_at {
                    now_millis - stats.first_write_at
                } else {
                    0
                };
                elapsed >= *d
            },
            RollingPolicy::AnyPolicy(policies) => {
                let mut i: usize = 0;
                proof {
                    assert(policies@.skip(0) =~= policies@);
                }
                #[verifier::loop_isolation(false)]
                while i < policies.len()
                    invariant
                        0 <= i <= policies@.len(),
                        self.spec_should_roll(*stats, now_millis) == spec_any_rolls(
                            policies@.skip(i as int),
                            *stats,
                            now_millis,
                        ),
                    decreases policies@.len() - i,
                {
                    proof {
                        assert(decreases_to!(*self => self->AnyPolicy_0));
                        assert(decreases_to!(self->AnyPolicy_0 => policies@));
                        assert(decreases_to!(policies@ => policies@[i as int]));
                    }
                    let rolls = policies[i].should_roll(stats, now_millis);
                    proof {
                        assert(policies@.skip(i as int)[0] == policies@[i as int]);
                        assert(policies@.skip(i as int).drop_first() =~= policies@.skip(i as int + 1));
                    }
                    if rolls {
                        return true;
                    }
                    i = i + 1;
                }
                proof {
                    assert(policies@.skip(policies@.len() as int) =~= Seq::<RollingPolicy>::empty());
                }
                false
            },
        }
    }

    /// The part-count ceiling a configuration asks for: the configured
    /// `max_parts`, or the default when none is set.
    pub open spec fn spec_part_limit(fs: FileSettings) -> int {
        match fs.max_parts {
            Some(n) => n as int,
            None => DEFAULT_MAX_PARTS as int,
        }
    }

    /// The rollover bound, in milliseconds, a configuration asks for.
    pub open spec fn spec_rollover_millis(fs: FileSettings) -> int {
        match fs.rollover_seconds {
            Some(s) => spec_saturating_mul_1000(s),
            None => DEFAULT_ROLLOVER_SECONDS as int * 1000,
        }
    }

    /// The exact list of primitive policies that `from_file_settings`
    /// builds: the part-count ceiling first, the size and inactivity
    /// policies when configured, the rollover bound last.
    pub open spec fn spec_policies_for(fs: FileSettings) -> Seq<RollingPolicy> {
        seq![RollingPolicy::PartLimit(Self::spec_part_limit(fs) as usize)]
            + (match fs.target_file_size {
                Some(n) => seq![RollingPolicy::SizeLimit(n)],
                None => Seq::<RollingPolicy>::empty(),
            })
            + (match fs.inactivity_rollover_seconds {
                Some(s) => seq![RollingPolicy::InactivityDuration(spec_saturating_mul_1000(s) as u64)],
                None => Seq::<RollingPolicy>::empty(),
            })
            + seq![RollingPolicy::RolloverDuration(Self::spec_rollover_millis(fs) as u64)]
    }

    /// Builds the compound policy from the file settings.
    pub fn from_file_settings(file_settings: &FileSettings) -> (r: RollingPolicy)
        ensures
            r matches RollingPolicy::AnyPolicy(ps) && ps@ == Self::spec_policies_for(*file_settings),
    {
        let mut policies: Vec<RollingPolicy> = Vec::new();
        let part_size_limit: usize = match file_settings.max_parts {
            Some(n) => n,
            None => DEFAULT_MAX_PARTS,
        };
        // this is a hard ceiling, so it is always present
        policies.push(RollingPolicy::PartLimit(part_size_limit));
        if let Some(file_size_target) = file_settings.target_file_size {
            policies.push(RollingPolicy::SizeLimit(file_size_target));
        }
        if let Some(seconds) = file_settings.inactivity_rollover_seconds {
            policies.push(RollingPolicy::InactivityDuration(saturating_mul_1000(seconds)));
        }
        let rollover_millis: u64 = match file_settings.rollover_seconds {
            Some(s) => saturating_mul_1000(s),
            None => DEFAULT_ROLLOVER_SECONDS * 1000,
        };
        policies.push(RollingPolicy::RolloverDuration(rollover_millis));
        proof {
            assert(policies@ =~= Self::spec_policies_for(*file_settings));
        }
        RollingPolicy::AnyPolicy(policies)
    }
}

/// `s * 1000`, capped at `u64::MAX`.
pub open spec fn spec_saturating_mul_1000(s: u64) -> int {
    if s * 1000 <= u64::MAX {
        s * 1000
    } else {
        u64::MAX as int
    }
}

/// Converts seconds to milliseconds, saturating at `u64::MAX`.
pub fn saturating_mul_1000(s: u64) -> (r: u64)
    ensures
        r as int == spec_saturating_mul_1000(s),
{
    if s <= u64::MAX / 1000 {
        proof {
            assert(s * 1000 <= (u64::MAX / 1000) * 1000 <= u64::MAX) by (nonlinear_arith)
                requires
                    s <= u64::MAX / 1000,
                    u64::MAX / 1000 == 18446744073709551int,
                    u64::MAX == 18446744073709551615u64,
            ;
        }
        s * 1000
    } else {
        proof {
            assert(s * 1000 > u64::MAX) by (nonlinear_arith)
                requires
                    s > u64::MAX / 1000,
                    u64::MAX / 1000 == 18446744073709551int,
                    u64::MAX == 18446744073709551615u64,
            ;
        }
        u64::MAX
    }
}

/// If any member of the list asks to roll, the list does.
pub proof fn lemma_any_rolls_member(
    ps: Seq<RollingPolicy>,
    i: int,
    stats: MultiPartWriterStats,
    now_millis: u64,
)
    requires
        0 <= i < ps.len(),
        ps[i].spec_should_roll(stats, now_millis),
    ensures
        spec_any_rolls(ps, stats, now_millis),
    decreases i,
{
    if i == 0 {
    } else {
        assert(ps.drop_first()[i - 1] == ps[i]);
        lemma_any_rolls_member(ps.drop_first(), i - 1, stats, now_millis);
    }
}

/// The part-count ceiling always forces a roll: a writer whose
/// `parts_written` has reached the configured `max_parts` (or its
/// default) is rolled by the policy built from those settings, whatever
/// the clock says.
pub proof fn lemma_part_limit_forces_roll(
    policy: RollingPolicy,
    file_settings: FileSettings,
    stats: MultiPartWriterStats,
    now_millis: u64,
)
    requires
        policy matches RollingPolicy::AnyPolicy(ps)
            && ps@ == RollingPolicy::spec_policies_for(file_settings),
        stats.parts_written >= RollingPolicy::spec_part_limit(file_settings),
    ensures
        policy.spec_should_roll(stats, now_millis),
{
    let ps = policy->AnyPolicy_0;
    assert(ps@[0] == RollingPolicy::PartLimit(RollingPolicy::spec_part_limit(file_settings) as usize));
    assert(ps@[0].spec_should_roll(stats, now_millis));
    lemma_any_rolls_member(ps@, 0, stats, now_millis);
}

/// The size target always forces a roll: once a writer's
/// `bytes_written` has reached the configured `target_file_size`, the
/// policy built from those settings rolls it, whatever the clock says
/// — so no file outgrows its target by more than what arrives between
/// two policy checks.
pub proof fn lemma_size_limit_forces_roll(
    policy: RollingPolicy,
    file_settings: FileSettings,
    stats: MultiPartWriterStats,
    now_millis: u64,
)
    requires
        policy matches RollingPolicy::AnyPolicy(ps)
            && ps@ == RollingPolicy::spec_policies_for(file_settings),
        file_settings.target_file_size matches Some(target) && stats.bytes_written >= target,
    ensures
        policy.spec_should_roll(stats, now_millis),
{
    let ps = policy->AnyPolicy_0;
    let target = file_settings.target_file_size->0;
    assert(ps@[1] == RollingPolicy::SizeLimit(target));
    assert(ps@[1].spec_should_roll(stats, now_millis));
    lemma_any_rolls_member(ps@, 1, stats, now_millis);
}

/// The inactivity bound always forces a roll: once longer than the
/// configured quiet period has passed since the last write, the policy
/// built from those settings rolls the file.
pub proof fn lemma_inactivity_forces_roll(
    policy: RollingPolicy,
    file_settings: FileSettings,
    stats: MultiPartWriterStats,
    now_millis: u64,
)
    requires
        policy matches RollingPolicy::AnyPolicy(ps)
            && ps@ == RollingPolicy::spec_policies_for(file_settings),
        file_settings.inactivity_rollover_seconds matches Some(secs) && spec_elapsed(
            stats.last_write_at,
            now_millis,
        ) >= spec_saturating_mul_1000(secs),
    ensures
        policy.spec_should_roll(stats, now_millis),
{
    let ps = policy->AnyPolicy_0;
    let secs = file_settings.inactivity_rollover_seconds->0;
    let i: int = if file_settings.target_file_size is Some {
        2
    } else {
        1
    };
    assert(ps@[i] == RollingPolicy::InactivityDuration(spec_saturating_mul_1000(secs) as u64));
    assert(ps@[i].spec_should_roll(stats, now_millis));
    lemma_any_rolls_member(ps@, i, stats, now_millis);
}

} // verus!
