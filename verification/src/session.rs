//! The per-device session manager: the apps installed on a device and when
//! they are due to be signed again.

use vstd::prelude::*;
use std::time::{Duration, SystemTime};
use crate::lockdown::DeviceSessionV4;

verus! {

/// An app installed on a device, with when it was installed (seconds since
/// the Unix epoch) and for how many days its signature lasts.
#[derive(Clone)]
pub struct TrackedAppV5 {
    pub name: String,
    pub ipa_path: String,
    pub install_time: u64,
    pub expiry_days: u64,
}

/// An app as plain values: name, package path, install time, lifetime in days.
pub type AppView = (Seq<char>, Seq<char>, u64, u64);

pub open spec fn app_view(a: TrackedAppV5) -> AppView {
    (a.name@, a.ipa_path@, a.install_time, a.expiry_days)
}

pub open spec fn apps_view(apps: Seq<TrackedAppV5>) -> Seq<AppView> {
    apps.map_values(|a: TrackedAppV5| app_view(a))
}

/// The sessions and apps of one device.
pub struct SessionManagerV5 {
    pub device_udid: String,
    pub session: Option<DeviceSessionV4>,
    pub apps: Vec<TrackedAppV5>,
}

/// The lifetime of a freshly signed app, in days.
pub open spec fn signing_lifetime_days() -> u64 {
    7
}

/// Whether the app is due to be signed again at `now`: it is at least
/// `expiry_days - 1` whole days old.
pub open spec fn is_due(a: AppView, now: u64) -> bool {
    (now - a.2) / 86400 >= a.3 - 1
}

/// The clock may be read against these apps: none was installed after `now`
/// and every lifetime is at least a day, so that the age and the threshold are
/// non-negative.
pub open spec fn expiry_computable(apps: Seq<AppView>, now: u64) -> bool {
    forall|i: int| 0 <= i < apps.len() ==> #[trigger] apps[i].2 <= now && apps[i].3 >= 1
}

/// The positions, below `k`, of the apps due at `now`, in increasing order.
pub open spec fn due_positions(apps: Seq<AppView>, now: u64, k: nat) -> Seq<usize>
    decreases k,
{
    if k == 0 {
        seq![]
    } else if is_due(apps[k - 1], now) {
        due_positions(apps, now, (k - 1) as nat).push((k - 1) as usize)
    } else {
        due_positions(apps, now, (k - 1) as nat)
    }
}

/// `SystemTime` as a value verified code passes along.
#[verifier::external_type_specification]
#[verifier::external_body]
pub struct ExSystemTime(SystemTime);

/// Calls `SystemTime::now`. Nothing is stated of the result: it is the
/// machine's clock.
#[verifier::external_body]
fn system_now() -> SystemTime {
    SystemTime::now()
}

/// Calls `SystemTime::duration_since` against `UNIX_EPOCH`; `None` stands for
/// its error, a clock set before the epoch. Nothing is stated of the result.
#[verifier::external_body]
fn since_unix_epoch(t: SystemTime) -> Option<Duration> {
    match t.duration_since(std::time::UNIX_EPOCH) {
        Ok(d) => Some(d),
        Err(_) => None,
    }
}

/// Calls `Duration::as_secs`. Nothing is stated of the result: the duration is
/// opaque here.
#[verifier::external_body]
fn whole_seconds(d: Duration) -> u64 {
    d.as_secs()
}

impl SessionManagerV5 {
    /// A manager for the device `udid`, with no session and no apps.
    pub fn new(udid: &str) -> (out: Self)
        ensures
            out.device_udid@ == udid@,
            out.session is None,
            out.apps@.len() == 0,
    {
        SessionManagerV5 { device_udid: String::from_str(udid), session: None, apps: Vec::new() }
    }

    /// Records the outcome of a connection attempt to this device: a session
    /// is kept and `true` returned; a failed attempt changes nothing.
    pub fn connect(&mut self, attempt: Option<DeviceSessionV4>) -> (out: bool)
        ensures
            out == (attempt is Some),
            out ==> final(self).session == attempt,
            !out ==> final(self).session == old(self).session,
            final(self).device_udid == old(self).device_udid,
            final(self).apps == old(self).apps,
    {
        match attempt {
            Some(s) => {
                self.session = Some(s);
                true
            },
            None => false,
        }
    }

    /// Seconds since the Unix epoch on the machine's clock; 0 when the clock is
    /// set before the epoch.
    pub fn now() -> u64 {
        match since_unix_epoch(system_now()) {
            Some(d) => whole_seconds(d),
            None => 0,
        }
    }

    /// Starts tracking the app `name` from the package `ipa`, installed now.
    pub fn add_app(&mut self, name: &str, ipa: &str)
        ensures
            final(self).apps@.len() == old(self).apps@.len() + 1,
            apps_view(final(self).apps@).drop_last() == apps_view(old(self).apps@),
            final(self).apps@.last().name@ == name@,
            final(self).apps@.last().ipa_path@ == ipa@,
            final(self).apps@.last().expiry_days == signing_lifetime_days(),
            final(self).device_udid == old(self).device_udid,
            final(self).session == old(self).session,
    {
        let now = Self::now();
        self.add_app_at(name, ipa, now);
        proof {
            let v = apps_view(self.apps@);
            assert(v.len() == self.apps@.len());
            assert(v[v.len() - 1] == app_view(self.apps@.last()));
        }
    }

    /// Starts tracking the app `name` from the package `ipa`, installed at `now`.
    pub fn add_app_at(&mut self, name: &str, ipa: &str, now: u64)
        ensures
            apps_view(final(self).apps@) == apps_view(old(self).apps@).push(
                (name@, ipa@, now, signing_lifetime_days()),
            ),
            final(self).device_udid == old(self).device_udid,
            final(self).session == old(self).session,
    {
        self.apps.push(
            TrackedAppV5 {
                name: String::from_str(name),
                ipa_path: String::from_str(ipa),
                install_time: now,
                expiry_days: 7,
            },
        );
        assert(apps_view(self.apps@) =~= apps_view(old(self).apps@).push(
            (name@, ipa@, now, signing_lifetime_days()),
        ));
    }

    /// The positions of the apps due to be signed again at `now`, in order.
    pub fn check_expiry_and_refresh(&self, now: u64) -> (out: Vec<usize>)
        requires
            expiry_computable(apps_view(self.apps@), now),
        ensures
            out@ == due_positions(apps_view(self.apps@), now, self.apps@.len()),
    {
        let mut out: Vec<usize> = Vec::new();
        let n = self.apps.len();
        let mut i: usize = 0;
        while i < n
            invariant
                n == self.apps@.len(),
                i <= n,
                expiry_computable(apps_view(self.apps@), now),
                out@ == due_positions(apps_view(self.apps@), now, i as nat),
            decreases n - i,
        {
            let app = &self.apps[i];
            assert(apps_view(self.apps@)[i as int] == app_view(*app));
            assert(apps_view(self.apps@)[i as int].2 <= now);
            let age = now - app.install_time;
            let days = age / 86400;
            if days >= app.expiry_days - 1 {
                out.push(i);
            }
            i = i + 1;
        }
        out
    }
}

/// The expiry check lists exactly the apps that have lived at least one day
/// less than their lifetime (counted in seconds), each once, in listed order.
pub proof fn lemma_due_positions(apps: Seq<AppView>, now: u64, k: nat)
    requires
        k <= apps.len(),
        apps.len() <= usize::MAX,
        expiry_computable(apps, now),
    ensures
        forall|i: int|
            0 <= i < apps.len() ==> (due_positions(apps, now, k).contains(i as usize) <==> (i < k
                && now - apps[i].2 >= 86400 * (apps[i].3 - 1))),
        forall|a: int, b: int|
            0 <= a < b < due_positions(apps, now, k).len() ==> due_positions(apps, now, k)[a]
                < due_positions(apps, now, k)[b],
        forall|a: int| 0 <= a < due_positions(apps, now, k).len() ==> due_positions(apps, now, k)[a] < k,
    decreases k,
{
    if k > 0 {
        let k1 = (k - 1) as nat;
        lemma_due_positions(apps, now, k1);
        let prev = due_positions(apps, now, k1);
        let cur = due_positions(apps, now, k);
        let a = apps[k - 1];
        assert(a.2 <= now && a.3 >= 1);
        let age = now - a.2;
        let lim = a.3 - 1;
        assert((age / 86400 >= lim) <==> (age >= 86400 * lim)) by (nonlinear_arith)
            requires
                age >= 0,
                lim >= 0,
        ;
        if is_due(a, now) {
            assert(cur == prev.push(k1 as usize));
            assert forall|x: int, y: int| 0 <= x < y < cur.len() implies cur[x] < cur[y] by {
                assert(cur[x] == prev[x]);
                if y < prev.len() {
                    assert(cur[y] == prev[y]);
                }
            }
            assert forall|x: int| 0 <= x < cur.len() implies cur[x] < k by {
                if x < prev.len() {
                    assert(cur[x] == prev[x]);
                }
            }
        } else {
            assert(cur == prev);
        }
        assert forall|i: int| 0 <= i < apps.len() implies (cur.contains(i as usize) <==> (i < k
            && now - apps[i].2 >= 86400 * (apps[i].3 - 1))) by {
            if i == k1 {
                if cur.contains(i as usize) && !is_due(a, now) {
                    let j = choose|j: int| 0 <= j < prev.len() && prev[j] == i as usize;
                    assert(prev[j] < k1);
                }
                if is_due(a, now) {
                    assert(cur[prev.len() as int] == i as usize);
                }
            } else if i < k1 {
                if prev.contains(i as usize) {
                    let j = choose|j: int| 0 <= j < prev.len() && prev[j] == i as usize;
                    assert(cur[j] == prev[j]);
                }
                if cur.contains(i as usize) {
                    let j = choose|j: int| 0 <= j < cur.len() && cur[j] == i as usize;
                    if j < prev.len() {
                        assert(cur[j] == prev[j]);
                    }
                }
            } else {
                if cur.contains(i as usize) {
                    let j = choose|j: int| 0 <= j < cur.len() && cur[j] == i as usize;
                    assert(cur[j] < k);
                }
            }
        }
    }
}

/// A freshly signed app installed at `t` becomes due for signing again six
/// whole days later, and not before.
pub proof fn lemma_fresh_app_due_after_six_days(name: Seq<char>, ipa: Seq<char>, t: u64, now: u64)
    requires
        t <= now,
    ensures
        is_due((name, ipa, t, signing_lifetime_days()), now) <==> now - t >= 6 * 86400,
{
}

} // verus!
