//! The refresh daemon's choices: which installed apps to sign again.

use vstd::prelude::*;
use crate::identity::AppleIdentityA5;

verus! {

/// An installed app with the days left before its signature expires.
pub struct TrackedApp {
    pub name: String,
    pub ipa_path: String,
    pub days_left: i32,
}

/// The refresh daemon.
pub struct SignitifyDaemonF1;

/// An app is expiring soon when three days or fewer are left.
pub open spec fn expiring_soon(days_left: i32) -> bool {
    days_left <= 3
}

/// The positions, below `k`, of the apps expiring soon, in increasing order.
pub open spec fn expiring_positions(apps: Seq<TrackedApp>, k: nat) -> Seq<usize>
    decreases k,
{
    if k == 0 {
        seq![]
    } else if expiring_soon(apps[k - 1].days_left) {
        expiring_positions(apps, (k - 1) as nat).push((k - 1) as usize)
    } else {
        expiring_positions(apps, (k - 1) as nat)
    }
}

/// An app is expiring soon exactly when it has three days or fewer left.
pub proof fn lemma_expiring_threshold(days_left: i32)
    ensures
        expiring_soon(days_left) <==> days_left <= 3,
{
}

/// One tick refreshes exactly the apps with three days or fewer left, each
/// once, in the order they are listed.
pub proof fn lemma_refresh_picks_expiring(apps: Seq<TrackedApp>, k: nat)
    requires
        k <= apps.len(),
        apps.len() <= usize::MAX,
    ensures
        forall|i: int|
            0 <= i < apps.len() ==> (expiring_positions(apps, k).contains(i as usize) <==> (i < k
                && apps[i].days_left <= 3)),
        forall|a: int, b: int|
            0 <= a < b < expiring_positions(apps, k).len() ==> expiring_positions(apps, k)[a]
                < expiring_positions(apps, k)[b],
        forall|a: int|
            0 <= a < expiring_positions(apps, k).len() ==> expiring_positions(apps, k)[a] < k,
    decreases k,
{
    if k > 0 {
        let k1 = (k - 1) as nat;
        lemma_refresh_picks_expiring(apps, k1);
        let prev = expiring_positions(apps, k1);
        let cur = expiring_positions(apps, k);
        if apps[k - 1].days_left <= 3 {
            assert(cur == prev.push(k1 as usize));
            assert forall|a: int, b: int| 0 <= a < b < cur.len() implies cur[a] < cur[b] by {
                assert(cur[a] == prev[a]);
                if b < prev.len() {
                    assert(cur[b] == prev[b]);
                }
            }
            assert forall|a: int| 0 <= a < cur.len() implies cur[a] < k by {
                if a < prev.len() {
                    assert(cur[a] == prev[a]);
                }
            }
            assert forall|i: int| 0 <= i < apps.len() implies (cur.contains(i as usize) <==> (i < k
                && apps[i].days_left <= 3)) by {
                if i < k && apps[i].days_left <= 3 {
                    if i == k1 {
                        assert(cur[prev.len() as int] == i as usize);
                    } else {
                        let j = choose|j: int| 0 <= j < prev.len() && prev[j] == i as usize;
                        assert(cur[j] == prev[j]);
                    }
                }
                if cur.contains(i as usize) {
                    let j = choose|j: int| 0 <= j < cur.len() && cur[j] == i as usize;
                    if j < prev.len() {
                        assert(cur[j] == prev[j]);
                        assert(prev.contains(i as usize));
                    }
                }
            }
        } else {
            assert(cur == prev);
        }
    }
}

impl SignitifyDaemonF1 {
    /// The apps the daemon tracks: the demo app, three days from expiry.
    pub fn load_installed_apps(&self) -> (out: Vec<TrackedApp>)
        ensures
            out@.len() == 1,
            out@[0].name@ == "SignitifyDemo"@,
            out@[0].ipa_path@ == "demo.ipa"@,
            out@[0].days_left == 3,
    {
        let mut out: Vec<TrackedApp> = Vec::new();
        out.push(
            TrackedApp {
                name: String::from_str("SignitifyDemo"),
                ipa_path: String::from_str("demo.ipa"),
                days_left: 3,
            },
        );
        out
    }

    /// The identity the daemon signs again with: the demo team, with no
    /// certificate bound.
    pub fn demo_identity(&self) -> (out: AppleIdentityA5)
        ensures
            out.team_id@ == "DEMO_TEAM"@,
            out.apple_id@ == "com.signitify.demo"@,
            out.certificate_fingerprint@ == Seq::<char>::empty(),
    {
        AppleIdentityA5::new("DEMO_TEAM", "com.signitify.demo")
    }

    pub fn is_expiring_soon(&self, app: &TrackedApp) -> (out: bool)
        ensures
            out == expiring_soon(app.days_left),
    {
        app.days_left <= 3
    }

    /// The positions of the apps one tick of the daemon signs again and
    /// reinstalls, in order.
    pub fn apps_to_refresh(&self, apps: &Vec<TrackedApp>) -> (out: Vec<usize>)
        ensures
            out@ == expiring_positions(apps@, apps@.len()),
    {
        let mut out: Vec<usize> = Vec::new();
        let n = apps.len();
        let mut i: usize = 0;
        while i < n
            invariant
                n == apps@.len(),
                i <= n,
                out@ == expiring_positions(apps@, i as nat),
            decreases n - i,
        {
            if self.is_expiring_soon(&apps[i]) {
                out.push(i);
            }
            i = i + 1;
        }
        out
    }
}

} // verus!
