//! Live parameters of the engine and their MIDI controller mapping.

use vstd::prelude::*;

verus! {

/// A live parameter: a named control in `[0, 1]` fed by MIDI controllers
/// or the user interface.
#[derive(Clone, Copy, PartialEq, Eq, Structural, Debug)]
pub enum LiveParameter {
    Modulation,
    Breath,
    Foot,
    Volume,
    Expression,
    Damper,
    Sostenuto,
    Soft,
    Legato,
    Sound1,
    Sound2,
    Sound3,
    Sound4,
    Sound5,
    Sound6,
    Sound7,
    Sound8,
    Sound9,
    Sound10,
}

/// Maps MIDI controller numbers to live parameters.
pub struct LiveParameterMapper {
    pub mappings: Vec<(LiveParameter, u8)>,
}

impl LiveParameterMapper {
    /// An empty mapping.
    pub fn new() -> (r: LiveParameterMapper)
        ensures
            r.mappings@.len() == 0,
    {
        LiveParameterMapper { mappings: Vec::new() }
    }

    /// Adds one parameter-to-controller mapping.
    pub fn push_mapping(&mut self, parameter: LiveParameter, ccn: u8)
        ensures
            final(self).mappings@ == old(self).mappings@.push((parameter, ccn)),
    {
        self.mappings.push((parameter, ccn));
    }

    /// The parameters fed by a controller number: the first mapped
    /// parameter, if any.
    pub fn resolve_ccn(&self, ccn: u8) -> (r: Option<LiveParameter>)
        ensures
            r matches Some(p) ==> exists|i: int|
                0 <= i < self.mappings@.len() && (#[trigger] self.mappings@[i]) == (p, ccn),
            r is None ==> forall|i: int|
                0 <= i < self.mappings@.len() ==> (#[trigger] self.mappings@[i]).1 != ccn,
    {
        let n = self.mappings.len();
        let mut i: usize = 0;
        while i < n
            invariant
                i <= n,
                n == self.mappings@.len(),
                forall|j: int| 0 <= j < i ==> (#[trigger] self.mappings@[j]).1 != ccn,
            decreases n - i,
        {
            if self.mappings[i].1 == ccn {
                proof {
                    assert(self.mappings@[i as int] == (self.mappings@[i as int].0, ccn));
                }
                return Some(self.mappings[i].0);
            }
            i = i + 1;
        }
        None
    }
}

} // verus!
