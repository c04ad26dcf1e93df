use crate::common::config::CheckConfig;
use crate::entities::Fief;
use crate::repos::domains::FiefId;
use vstd::prelude::*;

verus! {

/// A time that lies before every check: 4 November 1919, 05:01:04 UTC, in seconds since the
/// Unix epoch. A fief that is never to be passed over is passed over until then.
pub const FAR_PAST: i64 = -1_582_916_336;

/// A time that no check will see: 1 January 2077, 00:00:00 UTC, in seconds since the Unix
/// epoch. A fief that is switched off is passed over until then.
pub const FAR_FUTURE: i64 = 3_376_684_800;

/// A fief is due at the time `now` where a check of it has been asked for, or where its
/// interval has gone by since its last check and it is not passed over any longer.
pub open spec fn spec_is_due(fief: Fief, now: int) -> bool {
    fief.should_check_now || (now - fief.last_check >= fief.check_interval_min * 60 && now
        >= fief.skip_check_until)
}

/// The fiefs of `fiefs` that are due at `now`, in their order.
pub open spec fn spec_fiefs_to_check(fiefs: Seq<Fief>, now: int) -> Seq<FiefId> {
    fiefs.filter_map(
        |f: Fief|
            if spec_is_due(f, now) {
                Some(FiefId(f.id))
            } else {
                None
            },
    )
}

/// The interval of a fief, in minutes: the one asked for, or the usual one where none is
/// asked for, but never less than the least one.
pub open spec fn spec_interval(requested: Option<i64>, cfg: CheckConfig) -> int {
    let wanted = match requested {
        Some(minutes) => minutes as int,
        None => cfg.default_interval_min as int,
    };
    if wanted < cfg.minimum_interval_min {
        cfg.minimum_interval_min as int
    } else {
        wanted
    }
}

/// The interval that a fief gets where `requested` is asked for.
pub fn interval_minutes(requested: Option<i64>, cfg: &CheckConfig) -> (minutes: i64)
    requires
        cfg.valid(),
    ensures
        minutes == spec_interval(requested, *cfg),
{
    let wanted: i64 = match requested {
        Some(minutes) => minutes,
        None => cfg.default_interval_min as i64,
    };
    let least: i64 = cfg.minimum_interval_min as i64;
    if wanted < least {
        least
    } else {
        wanted
    }
}

impl Fief {
    /// The row of a fief that has just been made: never checked, never passed over, and
    /// with the interval asked for, as far as the settings allow it.
    pub fn created(id: i64, name: String, interval_min: Option<i64>, cfg: &CheckConfig) -> (fief:
        Self)
        requires
            cfg.valid(),
        ensures
            fief.id == id,
            fief.name == name,
            fief.check_interval_min == spec_interval(interval_min, *cfg),
            fief.last_check == FAR_PAST,
            fief.skip_check_until == FAR_PAST,
            !fief.should_check_now,
    {
        Fief {
            id,
            name,
            check_interval_min: interval_minutes(interval_min, cfg),
            last_check: FAR_PAST,
            skip_check_until: FAR_PAST,
            should_check_now: false,
        }
    }

    /// Whether the fief is to be checked by a sweep at the time `now`.
    pub fn is_due(&self, now: i64) -> (due: bool)
        ensures
            due == spec_is_due(*self, now as int),
    {
        if self.should_check_now {
            return true;
        }
        let elapsed: i128 = now as i128 - self.last_check as i128;
        let interval: i128 = self.check_interval_min as i128 * 60;
        elapsed >= interval && now >= self.skip_check_until
    }

    /// A check has been carried out at `date`: whatever asked for it is done with.
    pub fn update_last_check(&mut self, date: i64)
        ensures
            *final(self) == (Fief { last_check: date, should_check_now: false, ..*old(self) }),
    {
        self.last_check = date;
        self.should_check_now = false;
    }

    /// Sets the interval, but to no less than the least one.
    pub fn set_check_interval(&mut self, interval_min: i64, cfg: &CheckConfig)
        requires
            cfg.valid(),
        ensures
            *final(self) == (Fief {
                check_interval_min: spec_interval(Some(interval_min), *cfg) as i64,
                ..*old(self)
            }),
    {
        self.check_interval_min = interval_minutes(Some(interval_min), cfg);
    }

    /// Asks for a check on the next sweep, whatever the interval says.
    pub fn mark_should_check_now(&mut self)
        ensures
            *final(self) == (Fief { should_check_now: true, ..*old(self) }),
    {
        self.should_check_now = true;
    }

    /// Switches the checks off.
    pub fn skip_check(&mut self)
        ensures
            *final(self) == (Fief { skip_check_until: FAR_FUTURE, ..*old(self) }),
    {
        self.skip_check_until = FAR_FUTURE;
    }

    /// Switches the checks on.
    pub fn keep_check(&mut self)
        ensures
            *final(self) == (Fief { skip_check_until: FAR_PAST, ..*old(self) }),
    {
        self.skip_check_until = FAR_PAST;
    }

    /// Switches the checks off for `dur_secs` seconds from the time `from`.
    pub fn skip_check_for(&mut self, dur_secs: i64, from: i64)
        requires
            i64::MIN <= from + dur_secs <= i64::MAX,
        ensures
            *final(self) == (Fief { skip_check_until: (from + dur_secs) as i64, ..*old(self) }),
    {
        self.skip_check_until = from + dur_secs;
    }
}

/// The fiefs that a sweep at the time `now` has to check.
pub fn fiefs_to_check(fiefs: &Vec<Fief>, now: i64) -> (due: Vec<FiefId>)
    ensures
        due@ == spec_fiefs_to_check(fiefs@, now as int),
{
    let mut due: Vec<FiefId> = Vec::new();
    let mut i: usize = 0;
    while i < fiefs.len()
        invariant
            i <= fiefs@.len(),
            due@ == spec_fiefs_to_check(fiefs@.take(i as int), now as int),
        decreases fiefs@.len() - i,
    {
        proof {
            assert(fiefs@.take(i + 1).drop_last() =~= fiefs@.take(i as int));
            assert(fiefs@.take(i + 1).last() == fiefs@[i as int]);
        }
        if fiefs[i].is_due(now) {
            due.push(FiefId(fiefs[i].id));
        }
        i += 1;
    }
    proof {
        assert(fiefs@.take(i as int) =~= fiefs@);
    }
    due
}

/// A fief that is passed over until after `now` is not due at `now`, however long ago its
/// last check was, unless a check of it has been asked for.
pub proof fn lemma_skipped_is_not_due(fief: Fief, now: int)
    requires
        fief.skip_check_until > now,
        !fief.should_check_now,
    ensures
        !spec_is_due(fief, now),
{
}

/// A fief that was never passed over and whose last check lies an interval or more back is
/// due; and a fief of which a check has been asked for is due at any time.
pub proof fn lemma_due_when_interval_elapsed(fief: Fief, now: int)
    requires
        fief.should_check_now || (fief.skip_check_until <= now && fief.last_check
            + fief.check_interval_min * 60 <= now),
    ensures
        spec_is_due(fief, now),
{
}

/// Right after a check at `now`, a fief with a positive interval is not due.
pub proof fn lemma_checked_is_not_due(fief: Fief, now: int)
    requires
        fief.last_check == now,
        !fief.should_check_now,
        fief.check_interval_min > 0,
    ensures
        !spec_is_due(fief, now),
{
}

} // verus!
