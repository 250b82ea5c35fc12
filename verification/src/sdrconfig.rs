//! The layered device configuration: an ordered set of per-driver
//! hardware profiles, a one-time override merge, and first-match
//! selection by driver name.
//!
//! Order matters: earlier entries take precedence, and override entries
//! are put in front of the defaults, so a lookup finds them first. No
//! deduplication is performed; duplicates are resolved by first match.

use vstd::prelude::*;

verus! {

/// One gain element to write: a device-specific key and the gain value,
/// carried as the IEEE-754 bit pattern of the 64-bit value the
/// configuration file gave; the device layer converts it back.
pub struct GainSetting {
    pub key: String,
    pub value_bits: u64,
}

/// One free-form device setting to write: key and value as text.
pub struct SdrSetting {
    pub key: String,
    pub value: String,
}

/// One named hardware profile.
pub struct SdrEntry {
    /// The match key: the device driver this profile is for.
    pub driver: String,
    /// The receive channel to configure.
    pub channel: usize,
    /// Gain elements, written in order.
    pub gain: Vec<GainSetting>,
    /// Free-form settings, written in order after the gains.
    pub setting: Option<Vec<SdrSetting>>,
    /// The antenna to select, if the profile names one.
    pub antenna: Option<String>,
}

/// The ordered configuration set used for device selection.
pub struct SdrConfig {
    pub sdrs: Vec<SdrEntry>,
}

impl SdrConfig {
    /// A configuration set holding the given profiles in order.
    pub fn new(sdrs: Vec<SdrEntry>) -> (config: SdrConfig)
        ensures
            config.sdrs@ == sdrs@,
    {
        SdrConfig { sdrs }
    }

    /// Merges override profiles into the set. Each override entry is put
    /// in front of everything already there, one after the other, so the
    /// overrides end up first (in reverse of their own order) and every
    /// default keeps its place after them.
    pub fn merge_override(&mut self, overrides: Vec<SdrEntry>)
        ensures
            final(self).sdrs@.len() == overrides@.len() + old(self).sdrs@.len(),
            forall|i: int|
                0 <= i < overrides@.len() ==> final(self).sdrs@[i] == overrides@[overrides@.len()
                    - 1 - i],
            forall|j: int|
                0 <= j < old(self).sdrs@.len() ==> final(self).sdrs@[overrides@.len() + j] == old(
                    self,
                ).sdrs@[j],
    {
        let mut remaining = overrides;
        let mut merged: Vec<SdrEntry> = Vec::new();
        while remaining.len() > 0
            invariant
                remaining@ == overrides@.subrange(0, remaining@.len() as int),
                merged@.len() + remaining@.len() == overrides@.len(),
                forall|i: int|
                    0 <= i < merged@.len() ==> merged@[i] == overrides@[overrides@.len() - 1 - i],
            decreases remaining@.len(),
        {
            proof {
                assert(remaining@.last() == overrides@[remaining@.len() - 1]);
                assert(remaining@.subrange(0, remaining@.len() - 1) =~= overrides@.subrange(
                    0,
                    remaining@.len() - 1,
                ));
            }
            match remaining.pop() {
                Some(entry) => {
                    merged.push(entry);
                },
                None => {},
            }
        }
        merged.append(&mut self.sdrs);
        self.sdrs = merged;
    }

    /// Finds the first profile whose driver matches, if any: the index
    /// of the earliest entry with that driver name, so that override
    /// entries win over defaults and duplicates resolve by order.
    pub fn find_driver(&self, driver: &String) -> (found: Option<usize>)
        ensures
            match found {
                Some(i) => {
                    &&& 0 <= i < self.sdrs@.len()
                    &&& self.sdrs@[i as int].driver@ == driver@
                    &&& forall|j: int| 0 <= j < i ==> self.sdrs@[j].driver@ != driver@
                },
                None => forall|j: int|
                    0 <= j < self.sdrs@.len() ==> self.sdrs@[j].driver@ != driver@,
            },
    {
        let mut i: usize = 0;
        while i < self.sdrs.len()
            invariant
                0 <= i <= self.sdrs@.len(),
                forall|j: int| 0 <= j < i ==> self.sdrs@[j].driver@ != driver@,
            decreases self.sdrs@.len() - i,
        {
            if self.sdrs[i].driver == *driver {
                return Some(i);
            }
            i = i + 1;
        }
        None
    }
}

} // verus!
