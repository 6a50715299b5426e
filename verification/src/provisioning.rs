//! Provisioning: which devices and bundles a profile allows, and the fields read
//! from a profile's text.

use vstd::prelude::*;
use crate::text::{chars_of, find_chars, find_from, lemma_find_from, occurs_at, texts};

verus! {

/// A provisioning profile: a team with its allowed devices and bundles.
pub struct ProvisioningA5 {
    pub team_id: String,
    pub devices: Vec<String>,
    pub bundle_ids: Vec<String>,
}

fn contains_text(list: &Vec<String>, item: &str) -> (out: bool)
    ensures
        out == texts(list@).contains(item@),
{
    let target = String::from_str(item);
    let mut i: usize = 0;
    while i < list.len()
        invariant
            i <= list@.len(),
            target@ == item@,
            forall|k: int| 0 <= k < i ==> list@[k]@ != item@,
        decreases list@.len() - i,
    {
        if list[i] == target {
            assert(texts(list@)[i as int] == item@);
            return true;
        }
        i = i + 1;
    }
    proof {
        if texts(list@).contains(item@) {
            let k = choose|k: int| 0 <= k < texts(list@).len() && texts(list@)[k] == item@;
            assert(list@[k]@ == item@);
        }
    }
    false
}

impl ProvisioningA5 {
    pub fn new(team_id: &str) -> (out: Self)
        ensures
            out.team_id@ == team_id@,
            out.devices@.len() == 0,
            out.bundle_ids@.len() == 0,
    {
        ProvisioningA5 { team_id: String::from_str(team_id), devices: Vec::new(), bundle_ids: Vec::new() }
    }

    pub fn add_device(&mut self, udid: &str)
        ensures
            texts(final(self).devices@) == texts(old(self).devices@).push(udid@),
            final(self).bundle_ids == old(self).bundle_ids,
            final(self).team_id == old(self).team_id,
    {
        self.devices.push(String::from_str(udid));
        assert(texts(self.devices@) =~= texts(old(self).devices@).push(udid@));
    }

    pub fn add_bundle(&mut self, bundle: &str)
        ensures
            texts(final(self).bundle_ids@) == texts(old(self).bundle_ids@).push(bundle@),
            final(self).devices == old(self).devices,
            final(self).team_id == old(self).team_id,
    {
        self.bundle_ids.push(String::from_str(bundle));
        assert(texts(self.bundle_ids@) =~= texts(old(self).bundle_ids@).push(bundle@));
    }

    pub fn is_device_allowed(&self, udid: &str) -> (out: bool)
        ensures
            out == texts(self.devices@).contains(udid@),
    {
        contains_text(&self.devices, udid)
    }

    pub fn is_bundle_allowed(&self, bundle: &str) -> (out: bool)
        ensures
            out == texts(self.bundle_ids@).contains(bundle@),
    {
        contains_text(&self.bundle_ids, bundle)
    }
}

/// Adding an entry allows it, and keeps allowing everything allowed before.
pub proof fn lemma_allow_after_add(before: Seq<Seq<char>>, added: Seq<char>, other: Seq<char>)
    ensures
        before.push(added).contains(added),
        before.contains(other) ==> before.push(added).contains(other),
{
    assert(before.push(added)[before.len() as int] == added);
    if before.contains(other) {
        let k = choose|k: int| 0 <= k < before.len() && before[k] == other;
        assert(before.push(added)[k] == other);
    }
}

/// The field that follows `marker` in a profile's text: the text between the
/// first occurrence of `marker` and the next one (or the end), cut to its first
/// `n` characters; none when `marker` does not occur.
pub open spec fn field_after(t: Seq<char>, marker: Seq<char>, n: nat) -> Option<Seq<char>> {
    let p = find_from(t, marker, 0);
    if p < 0 {
        None
    } else {
        let start = p + marker.len();
        let q = find_from(t, marker, start as nat);
        let end = if q < 0 {
            t.len() as int
        } else {
            q
        };
        let seg = t.subrange(start, end);
        Some(
            if seg.len() <= n {
                seg
            } else {
                seg.take(n as int)
            },
        )
    }
}

/// What a field is: there is none exactly when the marker never occurs;
/// otherwise it is the text right after the first occurrence of the marker, at
/// most `n` characters, holding no occurrence of the marker, and cut short of
/// `n` only by the end of the text or the next occurrence.
pub proof fn lemma_field_after_shape(t: Seq<char>, marker: Seq<char>, n: nat)
    requires
        marker.len() > 0,
    ensures
        field_after(t, marker, n) is None <==> forall|j: int| !#[trigger] occurs_at(t, marker, j),
        field_after(t, marker, n) matches Some(f) ==> exists|p: int|
            {
                &&& #[trigger] occurs_at(t, marker, p)
                &&& forall|j: int| 0 <= j < p ==> !#[trigger] occurs_at(t, marker, j)
                &&& f.len() <= n
                &&& p + marker.len() + f.len() <= t.len()
                &&& f == t.subrange(p + marker.len(), p + marker.len() + f.len())
                &&& forall|j: int|
                    p + marker.len() <= j < p + marker.len() + f.len() ==> !#[trigger] occurs_at(
                        t,
                        marker,
                        j,
                    )
                &&& f.len() < n ==> (p + marker.len() + f.len() == t.len() || occurs_at(
                    t,
                    marker,
                    p + marker.len() + f.len(),
                ))
            },
{
    lemma_find_from(t, marker, 0);
    let p = find_from(t, marker, 0);
    if p >= 0 {
        let start = p + marker.len();
        lemma_find_from(t, marker, start as nat);
        let q = find_from(t, marker, start as nat);
        let end = if q < 0 {
            t.len() as int
        } else {
            q
        };
        let f = field_after(t, marker, n)->0;
        assert(f =~= t.subrange(start, start + f.len()));
        assert(occurs_at(t, marker, p));
        if f.len() < n && q >= 0 {
            assert(start + f.len() == q);
        }
    }
}

fn read_field(text: &str, t: &Vec<char>, marker: &str, n: usize) -> (out: Option<String>)
    requires
        t@ == text@,
        marker@.len() > 0,
    ensures
        match out {
            Some(f) => field_after(text@, marker@, n as nat) == Some(f@),
            None => field_after(text@, marker@, n as nat) is None,
        },
{
    let m = chars_of(marker);
    let tlen = t.len();
    match find_chars(t, &m, 0) {
        None => None,
        Some(p) => {
            proof {
                lemma_find_from(t@, m@, 0);
            }
            let start = p + m.len();
            let end = match find_chars(t, &m, start) {
                Some(q) => {
                    proof {
                        lemma_find_from(t@, m@, start as nat);
                    }
                    q
                },
                None => t.len(),
            };
            let stop = if end - start <= n {
                end
            } else {
                start + n
            };
            let seg = text.substring_char(start, stop);
            assert(seg@ == (if (end - start) <= n {
                text@.subrange(start as int, end as int)
            } else {
                text@.subrange(start as int, end as int).take(n as int)
            }));
            Some(String::from_str(seg))
        },
    }
}

/// Reading fields out of a provisioning profile.
pub struct ProvisioningA2;

/// The team identifier (10 characters) and application identifier (40
/// characters) read from a profile's text; none when either marker is missing.
pub open spec fn minimal_info(t: Seq<char>) -> Option<(Seq<char>, Seq<char>)> {
    match (field_after(t, "TeamIdentifier"@, 10), field_after(t, "application-identifier"@, 40)) {
        (Some(team), Some(app)) => Some((team, app)),
        _ => None,
    }
}

impl ProvisioningA2 {
    /// The team and application identifiers in the profile whose text is
    /// `text` (the caller reads the file and decodes it).
    pub fn parse_minimal_info(text: &str) -> (out: Option<(String, String)>)
        ensures
            match out {
                Some((team, app)) => minimal_info(text@) == Some((team@, app@)),
                None => minimal_info(text@) is None,
            },
    {
        proof {
            reveal_strlit("TeamIdentifier");
            reveal_strlit("application-identifier");
        }
        let t = chars_of(text);
        let team = read_field(text, &t, "TeamIdentifier", 10);
        let app = read_field(text, &t, "application-identifier", 40);
        match (team, app) {
            (Some(a), Some(b)) => Some((a, b)),
            _ => None,
        }
    }
}

} // verus!
