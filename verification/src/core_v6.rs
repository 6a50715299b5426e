//! The device registry: known devices, their trust, their sessions and the
//! apps installed through them.

use vstd::prelude::*;
use crate::lockdown::DeviceSessionV4;
use crate::registry::{keyed, keys_unique, lemma_keyed_index, lemma_keyed_push, lemma_keyed_update};
use crate::session::{apps_view, signing_lifetime_days, AppView, SessionManagerV5};

verus! {

/// A known device: its identifier, its display name and whether it is trusted.
pub struct DeviceProfile {
    pub udid: String,
    pub name: String,
    pub trusted: bool,
}

/// The registry of devices and of the sessions opened with them.
pub struct SignitifyCoreV6 {
    pub devices: Vec<DeviceProfile>,
    pub sessions: Vec<SessionManagerV5>,
}

/// A device as plain values: its name and whether it is trusted.
pub type DeviceView = (Seq<char>, bool);

/// A session as plain values: the connection it holds, if any, and its apps.
pub type SessionView = (Option<DeviceSessionV4>, Seq<AppView>);

pub open spec fn profile_key() -> spec_fn(DeviceProfile) -> Seq<char> {
    |p: DeviceProfile| p.udid@
}

pub open spec fn profile_val() -> spec_fn(DeviceProfile) -> DeviceView {
    |p: DeviceProfile| (p.name@, p.trusted)
}

pub open spec fn session_key() -> spec_fn(SessionManagerV5) -> Seq<char> {
    |s: SessionManagerV5| s.device_udid@
}

pub open spec fn session_val() -> spec_fn(SessionManagerV5) -> SessionView {
    |s: SessionManagerV5| (s.session, apps_view(s.apps@))
}

/// The devices after registering `udid` under `name`: known, untrusted.
pub open spec fn after_add(m: Map<Seq<char>, DeviceView>, udid: Seq<char>, name: Seq<char>) -> Map<
    Seq<char>,
    DeviceView,
> {
    m.insert(udid, (name, false))
}

/// The devices after trusting `udid`: a known device becomes trusted, an
/// unknown one stays unknown.
pub open spec fn after_trust(m: Map<Seq<char>, DeviceView>, udid: Seq<char>) -> Map<
    Seq<char>,
    DeviceView,
> {
    if m.dom().contains(udid) {
        m.insert(udid, (m[udid].0, true))
    } else {
        m
    }
}

/// Whether a session may be opened with `udid`: the device is known and
/// trusted.
pub open spec fn may_connect(m: Map<Seq<char>, DeviceView>, udid: Seq<char>) -> bool {
    m.dom().contains(udid) && m[udid].1
}

/// The sessions after installing the app `name` from `ipa` at `now` on `udid`:
/// the device's session, if there is one, tracks it; nothing else changes.
pub open spec fn after_install(
    m: Map<Seq<char>, SessionView>,
    udid: Seq<char>,
    name: Seq<char>,
    ipa: Seq<char>,
    now: u64,
) -> Map<Seq<char>, SessionView> {
    if m.dom().contains(udid) {
        m.insert(udid, (m[udid].0, m[udid].1.push((name, ipa, now, signing_lifetime_days()))))
    } else {
        m
    }
}

impl SignitifyCoreV6 {
    /// No device is listed twice and no device has two sessions.
    pub open spec fn wf(&self) -> bool {
        &&& keys_unique(self.devices@, profile_key())
        &&& keys_unique(self.sessions@, session_key())
    }

    /// The known devices by identifier.
    pub open spec fn device_map(&self) -> Map<Seq<char>, DeviceView> {
        keyed(self.devices@, profile_key(), profile_val())
    }

    /// The open sessions by device identifier.
    pub open spec fn session_map(&self) -> Map<Seq<char>, SessionView> {
        keyed(self.sessions@, session_key(), session_val())
    }

    pub fn new() -> (out: Self)
        ensures
            out.wf(),
            out.device_map() == Map::<Seq<char>, DeviceView>::empty(),
            out.session_map() == Map::<Seq<char>, SessionView>::empty(),
    {
        SignitifyCoreV6 { devices: Vec::new(), sessions: Vec::new() }
    }

    fn find_device(&self, udid: &str) -> (out: Option<usize>)
        requires
            self.wf(),
        ensures
            match out {
                Some(i) => i < self.devices@.len() && self.devices@[i as int].udid@ == udid@,
                None => !self.device_map().dom().contains(udid@),
            },
    {
        let target = String::from_str(udid);
        let mut i: usize = 0;
        while i < self.devices.len()
            invariant
                i <= self.devices@.len(),
                target@ == udid@,
                forall|k: int| 0 <= k < i ==> self.devices@[k].udid@ != udid@,
            decreases self.devices@.len() - i,
        {
            if self.devices[i].udid == target {
                return Some(i);
            }
            i = i + 1;
        }
        proof {
            lemma_keyed_index(self.devices@, profile_key(), profile_val());
            if self.device_map().dom().contains(udid@) {
                let k = choose|k: int|
                    0 <= k < self.devices@.len() && (profile_key())(self.devices@[k]) == udid@;
                assert(self.devices@[k].udid@ != udid@);
            }
        }
        None
    }

    fn find_session(&self, udid: &str) -> (out: Option<usize>)
        requires
            self.wf(),
        ensures
            match out {
                Some(i) => i < self.sessions@.len() && self.sessions@[i as int].device_udid@
                    == udid@,
                None => !self.session_map().dom().contains(udid@),
            },
    {
        let target = String::from_str(udid);
        let mut i: usize = 0;
        while i < self.sessions.len()
            invariant
                i <= self.sessions@.len(),
                target@ == udid@,
                forall|k: int| 0 <= k < i ==> self.sessions@[k].device_udid@ != udid@,
            decreases self.sessions@.len() - i,
        {
            if self.sessions[i].device_udid == target {
                return Some(i);
            }
            i = i + 1;
        }
        proof {
            lemma_keyed_index(self.sessions@, session_key(), session_val());
            if self.session_map().dom().contains(udid@) {
                let k = choose|k: int|
                    0 <= k < self.sessions@.len() && (session_key())(self.sessions@[k]) == udid@;
                assert(self.sessions@[k].device_udid@ != udid@);
            }
        }
        None
    }

    /// Registers the device `udid` as `name`, untrusted (a device registered
    /// again loses its trust).
    pub fn add_device(&mut self, udid: &str, name: &str)
        requires
            old(self).wf(),
        ensures
            final(self).wf(),
            final(self).device_map() == after_add(old(self).device_map(), udid@, name@),
            final(self).sessions == old(self).sessions,
    {
        let profile = DeviceProfile {
            udid: String::from_str(udid),
            name: String::from_str(name),
            trusted: false,
        };
        match self.find_device(udid) {
            Some(i) => {
                proof {
                    lemma_keyed_update(self.devices@, profile_key(), profile_val(), i as int, profile);
                }
                self.devices[i] = profile;
            },
            None => {
                proof {
                    lemma_keyed_push(self.devices@, profile_key(), profile_val(), profile);
                }
                self.devices.push(profile);
            },
        }
    }

    /// Marks the device `udid` trusted, if it is known.
    pub fn trust_device(&mut self, udid: &str)
        requires
            old(self).wf(),
        ensures
            final(self).wf(),
            final(self).device_map() == after_trust(old(self).device_map(), udid@),
            final(self).sessions == old(self).sessions,
    {
        match self.find_device(udid) {
            Some(i) => {
                let profile = DeviceProfile {
                    udid: self.devices[i].udid.clone(),
                    name: self.devices[i].name.clone(),
                    trusted: true,
                };
                proof {
                    lemma_keyed_index(self.devices@, profile_key(), profile_val());
                    lemma_keyed_update(self.devices@, profile_key(), profile_val(), i as int, profile);
                }
                self.devices[i] = profile;
            },
            None => {},
        }
    }

    /// Whether a session may be opened with `udid` now.
    pub fn connection_allowed(&self, udid: &str) -> (out: bool)
        requires
            self.wf(),
        ensures
            out == may_connect(self.device_map(), udid@),
    {
        match self.find_device(udid) {
            Some(i) => {
                proof {
                    lemma_keyed_index(self.devices@, profile_key(), profile_val());
                }
                self.devices[i].trusted
            },
            None => false,
        }
    }

    /// Connects the device `udid`, given the outcome of the connection attempt
    /// (made only when `connection_allowed` says so). An unknown or untrusted
    /// device, or a failed attempt, changes nothing and gives `false`; otherwise
    /// the device gets a fresh session holding that connection and no apps.
    pub fn connect_device(&mut self, udid: &str, attempt: Option<DeviceSessionV4>) -> (out: bool)
        requires
            old(self).wf(),
        ensures
            final(self).wf(),
            out == (may_connect(old(self).device_map(), udid@) && attempt is Some),
            out ==> final(self).session_map() == old(self).session_map().insert(
                udid@,
                (attempt, Seq::<AppView>::empty()),
            ),
            !out ==> final(self).sessions == old(self).sessions,
            final(self).devices == old(self).devices,
    {
        if !self.connection_allowed(udid) {
            return false;
        }
        let mut session = SessionManagerV5::new(udid);
        let ghost tried = attempt;
        if !session.connect(attempt) {
            return false;
        }
        assert((session_val())(session) == (tried, Seq::<AppView>::empty())) by {
            assert(apps_view(session.apps@) =~= Seq::<AppView>::empty());
        }
        match self.find_session(udid) {
            Some(i) => {
                proof {
                    lemma_keyed_update(self.sessions@, session_key(), session_val(), i as int, session);
                }
                self.sessions[i] = session;
            },
            None => {
                proof {
                    lemma_keyed_push(self.sessions@, session_key(), session_val(), session);
                }
                self.sessions.push(session);
            },
        }
        true
    }

    /// Installs the app `name` from `ipa` on the device `udid`, now: its
    /// session, if it has one, tracks the app.
    pub fn install_to_device(&mut self, udid: &str, name: &str, ipa: &str)
        requires
            old(self).wf(),
        ensures
            final(self).wf(),
            exists|now: u64|
                final(self).session_map() == after_install(
                    old(self).session_map(),
                    udid@,
                    name@,
                    ipa@,
                    now,
                ),
            final(self).devices == old(self).devices,
    {
        let now = SessionManagerV5::now();
        self.install_to_device_at(udid, name, ipa, now);
    }

    /// Installs the app `name` from `ipa` on the device `udid` at `now`.
    pub fn install_to_device_at(&mut self, udid: &str, name: &str, ipa: &str, now: u64)
        requires
            old(self).wf(),
        ensures
            final(self).wf(),
            final(self).session_map() == after_install(
                old(self).session_map(),
                udid@,
                name@,
                ipa@,
                now,
            ),
            final(self).devices == old(self).devices,
    {
        match self.find_session(udid) {
            Some(i) => {
                let mut session = self.sessions.remove(i);
                let ghost before = session;
                session.add_app_at(name, ipa, now);
                proof {
                    let old_sessions = old(self).sessions@;
                    assert(old_sessions[i as int] == before);
                    lemma_keyed_index(old_sessions, session_key(), session_val());
                    lemma_keyed_update(old_sessions, session_key(), session_val(), i as int, session);
                    assert(self.sessions@.insert(i as int, session) =~= old_sessions.update(
                        i as int,
                        session,
                    ));
                }
                self.sessions.insert(i, session);
            },
            None => {},
        }
    }
}

/// A device that is registered (again) cannot be connected until it is
/// trusted, and once trusted it can.
pub proof fn lemma_trust_gates_connection(
    m: Map<Seq<char>, DeviceView>,
    udid: Seq<char>,
    name: Seq<char>,
)
    ensures
        !may_connect(after_add(m, udid, name), udid),
        may_connect(after_trust(after_add(m, udid, name), udid), udid),
        after_trust(after_add(m, udid, name), udid)[udid].0 == name,
{
}

/// Registering a device makes it known under the new name and untrusted, and
/// leaves every other device (its name and its trust) as it was.
pub proof fn lemma_add_device_effect(
    m: Map<Seq<char>, DeviceView>,
    udid: Seq<char>,
    name: Seq<char>,
    other: Seq<char>,
)
    ensures
        after_add(m, udid, name).dom() == m.dom().insert(udid),
        after_add(m, udid, name)[udid] == (name, false),
        other != udid ==> after_add(m, udid, name).dom().contains(other) == m.dom().contains(
            other,
        ),
        other != udid && m.dom().contains(other) ==> after_add(m, udid, name)[other] == m[other],
{
    assert(after_add(m, udid, name).dom() =~= m.dom().insert(udid));
}

/// Registering one device does not take away another device's right to
/// connect, nor give it one.
pub proof fn lemma_add_keeps_other_connections(
    m: Map<Seq<char>, DeviceView>,
    udid: Seq<char>,
    name: Seq<char>,
    other: Seq<char>,
)
    requires
        other != udid,
    ensures
        may_connect(after_add(m, udid, name), other) == (m.dom().contains(other) && m[other].1),
{
}

/// Trusting a known device keeps its name and sets its trust; the set of known
/// devices does not change.
pub proof fn lemma_trust_device_effect(m: Map<Seq<char>, DeviceView>, udid: Seq<char>)
    ensures
        after_trust(m, udid).dom() == m.dom(),
        m.dom().contains(udid) ==> after_trust(m, udid)[udid] == (m[udid].0, true),
        !m.dom().contains(udid) ==> after_trust(m, udid) == m,
{
    if m.dom().contains(udid) {
        assert(after_trust(m, udid).dom() =~= m.dom());
    }
}

/// Installing through a device's session appends exactly one app (with the
/// given name, package, time and a seven-day lifetime) to that session, keeps
/// its connection, and touches no other session; without a session nothing
/// changes.
pub proof fn lemma_install_effect(
    m: Map<Seq<char>, SessionView>,
    udid: Seq<char>,
    name: Seq<char>,
    ipa: Seq<char>,
    now: u64,
    other: Seq<char>,
)
    ensures
        after_install(m, udid, name, ipa, now).dom() == m.dom(),
        m.dom().contains(udid) ==> after_install(m, udid, name, ipa, now)[udid].0 == m[udid].0,
        m.dom().contains(udid) ==> after_install(m, udid, name, ipa, now)[udid].1.len() == m[udid].1.len() + 1,
        m.dom().contains(udid) ==> after_install(m, udid, name, ipa, now)[udid].1.drop_last() == m[udid].1,
        m.dom().contains(udid) ==> after_install(m, udid, name, ipa, now)[udid].1.last() == (name, ipa, now, 7u64),
        other != udid && m.dom().contains(other) ==> after_install(m, udid, name, ipa, now)[other]
            == m[other],
        !m.dom().contains(udid) ==> after_install(m, udid, name, ipa, now) == m,
{
    if m.dom().contains(udid) {
        assert(after_install(m, udid, name, ipa, now).dom() =~= m.dom());
        assert(after_install(m, udid, name, ipa, now)[udid].1.drop_last() =~= m[udid].1);
    }
}

/// Trusting a device leaves every other device as it was.
pub proof fn lemma_trust_is_local(m: Map<Seq<char>, DeviceView>, udid: Seq<char>, other: Seq<char>)
    requires
        other != udid,
    ensures
        after_trust(m, udid).dom().contains(other) == m.dom().contains(other),
        m.dom().contains(other) ==> after_trust(m, udid)[other] == m[other],
{
}

} // verus!
