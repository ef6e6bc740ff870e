//! Power profiles as applications ask for them: a preferred profile, and
//! holds that override it for as long as they last.

use std::collections::HashMap;
use vstd::prelude::*;
use vstd::std_specs::iter::IteratorSpec;
use crate::text::str_eq;

verus! {

/// A power profile.
#[derive(Clone, Copy, Debug, PartialEq, Eq, Structural, Hash)]
pub enum PowerProfile {
    Performance,
    Balanced,
    PowerSaver,
}

impl PowerProfile {
    /// The name of the profile.
    pub open spec fn name(self) -> Seq<char> {
        match self {
            PowerProfile::Performance => "performance"@,
            PowerProfile::Balanced => "balanced"@,
            PowerProfile::PowerSaver => "power-saver"@,
        }
    }

    /// The profile that `name` names, if any.
    pub open spec fn named(name: Seq<char>) -> Option<PowerProfile> {
        if name == PowerProfile::Performance.name() {
            Some(PowerProfile::Performance)
        } else if name == PowerProfile::Balanced.name() {
            Some(PowerProfile::Balanced)
        } else if name == PowerProfile::PowerSaver.name() {
            Some(PowerProfile::PowerSaver)
        } else {
            None
        }
    }

    /// The name of the profile.
    pub fn as_str(&self) -> (r: &'static str)
        ensures
            r@ == self.name(),
    {
        match self {
            PowerProfile::Performance => "performance",
            PowerProfile::Balanced => "balanced",
            PowerProfile::PowerSaver => "power-saver",
        }
    }

    /// The profile that `value` names, if any.
    pub fn from_str(value: &str) -> (r: Option<PowerProfile>)
        ensures
            r == PowerProfile::named(value@),
    {
        if str_eq(value, "performance") {
            Some(PowerProfile::Performance)
        } else if str_eq(value, "balanced") {
            Some(PowerProfile::Balanced)
        } else if str_eq(value, "power-saver") {
            Some(PowerProfile::PowerSaver)
        } else {
            None
        }
    }

    /// Every profile, the strongest first.
    pub fn all() -> (r: [PowerProfile; 3])
        ensures
            r@ == seq![PowerProfile::Performance, PowerProfile::Balanced, PowerProfile::PowerSaver],
    {
        let r = [PowerProfile::Performance, PowerProfile::Balanced, PowerProfile::PowerSaver];
        assert(r@ =~= seq![
            PowerProfile::Performance,
            PowerProfile::Balanced,
            PowerProfile::PowerSaver,
        ]);
        r
    }
}

/// A profile is found again by its name.
pub proof fn lemma_profile_name_round_trip(profile: PowerProfile)
    ensures
        PowerProfile::named(profile.name()) == Some(profile),
{
    reveal_strlit("performance");
    reveal_strlit("balanced");
    reveal_strlit("power-saver");
    assert("performance"@.len() == 11);
    assert("balanced"@.len() == 8);
    assert("power-saver"@.len() == 11);
    assert("performance"@[1] == 'e');
    assert("power-saver"@[1] == 'o');
}

/// A request to hold a profile.
#[derive(Debug, PartialEq, Eq)]
pub struct ProfileHold {
    pub cookie: u32,
    pub profile: PowerProfile,
    pub reason: String,
    pub application_id: String,
    /// When the hold was made, in milliseconds.
    pub timestamp: u64,
}

impl ProfileHold {
    /// A copy of this hold.
    pub fn copy(&self) -> (r: ProfileHold)
        ensures
            r == *self,
    {
        ProfileHold {
            cookie: self.cookie,
            profile: self.profile,
            reason: self.reason.clone(),
            application_id: self.application_id.clone(),
            timestamp: self.timestamp,
        }
    }
}

/// Why a hold could not be released.
#[derive(Clone, Copy, Debug, PartialEq, Eq, Structural)]
pub enum ProfileError {
    /// No hold has this cookie.
    UnknownCookie,
}

/// The preferred profile and the holds on it.
#[derive(Debug)]
pub struct ProfileState {
    preferred_profile: PowerProfile,
    holds: HashMap<u32, ProfileHold>,
    next_cookie: u32,
}

impl Default for ProfileState {
    /// Balanced, with no hold.
    fn default() -> (r: ProfileState)
        ensures
            r.preferred() == PowerProfile::Balanced,
            r.holds() == Map::<u32, ProfileHold>::empty(),
            r.next() == 1,
    {
        ProfileState::new()
    }
}

/// The cookie `steps` after `from`, wrapping around.
pub open spec fn cookie_after(from: u32, steps: int) -> u32 {
    ((from + steps) % 0x1_0000_0000) as u32
}

/// `true` when some hold of `holds` is for `profile`.
pub open spec fn is_held(holds: Map<u32, ProfileHold>, profile: PowerProfile) -> bool {
    exists|cookie: u32| #[trigger] holds.contains_key(cookie) && holds[cookie].profile == profile
}

/// The profile in force: the strongest profile with a hold, or the
/// preferred one where nothing is held.
pub open spec fn effective_profile(
    holds: Map<u32, ProfileHold>,
    preferred: PowerProfile,
) -> PowerProfile {
    if is_held(holds, PowerProfile::Performance) {
        PowerProfile::Performance
    } else if is_held(holds, PowerProfile::Balanced) {
        PowerProfile::Balanced
    } else if is_held(holds, PowerProfile::PowerSaver) {
        PowerProfile::PowerSaver
    } else {
        preferred
    }
}

impl ProfileState {
    /// The holds, by cookie.
    pub closed spec fn holds(&self) -> Map<u32, ProfileHold> {
        self.holds@
    }

    /// The preferred profile.
    pub closed spec fn preferred(&self) -> PowerProfile {
        self.preferred_profile
    }

    /// The cookie at which the search for a free cookie starts.
    pub closed spec fn next(&self) -> u32 {
        self.next_cookie
    }

    /// Balanced, with no hold.
    pub fn new() -> (r: ProfileState)
        ensures
            r.preferred() == PowerProfile::Balanced,
            r.holds() == Map::<u32, ProfileHold>::empty(),
            r.next() == 1,
    {
        ProfileState {
            preferred_profile: PowerProfile::Balanced,
            holds: HashMap::new(),
            next_cookie: 1,
        }
    }

    /// Adds a hold under the first free cookie, searched from the cookie
    /// after the last one handed out and wrapping around. Returns the cookie,
    /// or `None`, with nothing changed, when every cookie is in use.
    pub fn add_hold(
        &mut self,
        profile: PowerProfile,
        reason: String,
        application_id: String,
        timestamp: u64,
    ) -> (r: Option<u32>)
        ensures
            final(self).preferred() == old(self).preferred(),
            match r {
                Some(cookie) => {
                    &&& !old(self).holds().contains_key(cookie)
                    &&& exists|steps: int|
                        0 <= steps < 0x1_0000_0000 && cookie == cookie_after(
                            old(self).next(),
                            steps,
                        ) && forall|j: int|
                            0 <= j < steps ==> old(self).holds().contains_key(
                                #[trigger] cookie_after(old(self).next(), j),
                            )
                    &&& final(self).holds() == old(self).holds().insert(
                        cookie,
                        ProfileHold { cookie, profile, reason, application_id, timestamp },
                    )
                    &&& final(self).next() == cookie_after(cookie, 1)
                },
                None => {
                    &&& final(self).holds() == old(self).holds()
                    &&& final(self).next() == old(self).next()
                    &&& forall|cookie: u32| old(self).holds().contains_key(cookie)
                },
            },
    {
        broadcast use vstd::std_specs::hash::group_hash_axioms;

        let start: u32 = self.next_cookie;
        let mut cookie: u32 = start;
        let mut steps: u64 = 0;
        while self.holds.contains_key(&cookie)
            invariant
                *self == *old(self),
                start == self.next_cookie,
                0 <= steps < 0x1_0000_0000,
                cookie == cookie_after(start, steps as int),
                forall|j: int|
                    0 <= j < steps ==> self.holds@.contains_key(#[trigger] cookie_after(start, j)),
            decreases 0x1_0000_0000 - steps,
        {
            if steps == 0xffff_ffff {
                proof {
                    assert forall|c: u32| self.holds@.contains_key(c) by {
                        let j: int = if c >= start {
                            c - start
                        } else {
                            c + 0x1_0000_0000 - start
                        };
                        assert(cookie_after(start, j) == c);
                    }
                }
                return None;
            }
            cookie = cookie.wrapping_add(1);
            steps += 1;
        }
        self.next_cookie = cookie.wrapping_add(1);
        let hold = ProfileHold { cookie, profile, reason, application_id, timestamp };
        self.holds.insert(cookie, hold);
        assert(cookie == cookie_after(old(self).next(), steps as int));
        Some(cookie)
    }

    /// Releases the hold with `cookie`; fails when there is none.
    pub fn release_hold(&mut self, cookie: u32) -> (r: Result<(), ProfileError>)
        ensures
            final(self).preferred() == old(self).preferred(),
            final(self).next() == old(self).next(),
            final(self).holds() == old(self).holds().remove(cookie),
            r.is_ok() == old(self).holds().contains_key(cookie),
            r.is_err() ==> r == Err::<(), ProfileError>(ProfileError::UnknownCookie),
    {
        broadcast use vstd::std_specs::hash::group_hash_axioms;

        match self.holds.remove(&cookie) {
            Some(_) => Ok(()),
            None => {
                assert(self.holds@ =~= old(self).holds@.remove(cookie));
                Err(ProfileError::UnknownCookie)
            },
        }
    }

    /// Sets the preferred profile.
    pub fn set_preference(&mut self, profile: PowerProfile)
        ensures
            final(self).preferred() == profile,
            final(self).holds() == old(self).holds(),
            final(self).next() == old(self).next(),
    {
        if self.preferred_profile != profile {
            self.preferred_profile = profile;
        }
    }

    /// The preferred profile.
    pub fn get_preference(&self) -> (r: PowerProfile)
        ensures
            r == self.preferred(),
    {
        self.preferred_profile
    }

    fn holds_profile(&self, profile: PowerProfile) -> (r: bool)
        ensures
            r == is_held(self.holds@, profile),
    {
        broadcast use vstd::std_specs::hash::group_hash_axioms;

        let values = self.holds.values();
        let ghost all = values.remaining();
        proof {
            vstd::std_specs::hash::axiom_spec_values_iter(&self.holds);
            assert(all.unref().to_set() == self.holds@.values());
        }
        for hold in it: values
            invariant
                it.seq() == all,
                all.unref().to_set() == self.holds@.values(),
                forall|i: int| 0 <= i < it.index() ==> (#[trigger] all[i]).profile != profile,
        {
            if hold.profile == profile {
                proof {
                    let found = *all[it.index() as int];
                    assert(all.unref().to_set().contains(found)) by {
                        assert(all.unref()[it.index() as int] == found);
                    }
                    assert(self.holds@.values().contains(found));
                }
                return true;
            }
        }
        proof {
            if is_held(self.holds@, profile) {
                let cookie = choose|cookie: u32| #[trigger]
                    self.holds@.contains_key(cookie) && self.holds@[cookie].profile == profile;
                let found = self.holds@[cookie];
                assert(self.holds@.values().contains(found));
                assert(all.unref().to_set().contains(found));
                let i = choose|i: int| 0 <= i < all.unref().len() && all.unref()[i] == found;
                assert(all[i].profile != profile);
            }
        }
        false
    }

    /// The profile in force.
    pub fn get_effective_profile(&self) -> (r: PowerProfile)
        ensures
            r == effective_profile(self.holds(), self.preferred()),
    {
        if self.holds_profile(PowerProfile::Performance) {
            PowerProfile::Performance
        } else if self.holds_profile(PowerProfile::Balanced) {
            PowerProfile::Balanced
        } else if self.holds_profile(PowerProfile::PowerSaver) {
            PowerProfile::PowerSaver
        } else {
            self.preferred_profile
        }
    }

    /// Copies of the holds, in no particular order.
    pub fn get_holds(&self) -> (r: Vec<ProfileHold>)
        ensures
            r@.len() == self.holds().dom().len(),
            r@.to_set() == self.holds().values(),
    {
        broadcast use vstd::std_specs::hash::group_hash_axioms;

        let values = self.holds.values();
        let ghost all = values.remaining();
        proof {
            vstd::std_specs::hash::axiom_spec_values_iter(&self.holds);
            assert(all.unref().to_set() == self.holds@.values());
            assert(all.len() == self.holds@.dom().len());
        }
        let mut out: Vec<ProfileHold> = Vec::new();
        for hold in it: values
            invariant
                it.seq() == all,
                all.unref().to_set() == self.holds@.values(),
                all.len() == self.holds@.dom().len(),
                out@.len() == it.index(),
                forall|i: int| 0 <= i < it.index() ==> out@[i] == *all[i],
        {
            out.push(hold.copy());
        }
        proof {
            assert(out@ =~= all.unref());
        }
        out
    }
}

} // verus!
