//! Per-channel tables of the control nodes that the control surfaces address.

use vstd::prelude::*;
use crate::config::VOICE_COUNT;

verus! {

/// The kind of a module created on its own, outside a channel's topology.
#[derive(Clone, Copy, Debug, PartialEq, Eq, Structural)]
pub enum ModuleType {
    Sin,
    Saw,
}

/// The node identifiers of one channel's controls, and for each voice slot
/// the nodes that must receive that voice's notes.
#[derive(Clone, Debug)]
pub struct ControlMap {
    pub cutoff: usize,
    pub reso: usize,
    pub attack: usize,
    pub decay: usize,
    pub sustain: usize,
    pub release: usize,
    /// Node that can be replaced to inject more audio.
    pub ext: usize,
    pub note_receivers: Vec<Vec<usize>>,
}

pub struct ControlMapView {
    pub cutoff: usize,
    pub reso: usize,
    pub attack: usize,
    pub decay: usize,
    pub sustain: usize,
    pub release: usize,
    pub ext: usize,
    pub note_receivers: Seq<Seq<usize>>,
}

impl View for ControlMap {
    type V = ControlMapView;

    open spec fn view(&self) -> ControlMapView {
        ControlMapView {
            cutoff: self.cutoff,
            reso: self.reso,
            attack: self.attack,
            decay: self.decay,
            sustain: self.sustain,
            release: self.release,
            ext: self.ext,
            note_receivers: self.note_receivers@.map_values(|r: Vec<usize>| r@),
        }
    }
}

impl ControlMapView {
    /// One list of receivers per voice slot.
    pub open spec fn wf(self) -> bool {
        self.note_receivers.len() == VOICE_COUNT
    }
}

/// A copy of a list of node identifiers.
pub fn copy_ids(ids: &Vec<usize>) -> (r: Vec<usize>)
    ensures
        r@ == ids@,
{
    let mut r: Vec<usize> = Vec::new();
    let mut i: usize = 0;
    while i < ids.len()
        invariant
            i <= ids.len(),
            r@ =~= ids@.subrange(0, i as int),
        decreases ids.len() - i,
    {
        r.push(ids[i]);
        i += 1;
    }
    assert(ids@.subrange(0, i as int) =~= ids@);
    r
}

impl ControlMap {
    /// A copy that owns its own lists.
    pub fn duplicate(&self) -> (r: ControlMap)
        ensures
            r@ == self@,
    {
        let mut receivers: Vec<Vec<usize>> = Vec::new();
        let mut v: usize = 0;
        while v < self.note_receivers.len()
            invariant
                v <= self.note_receivers.len(),
                receivers.len() == v,
                forall|k: int| 0 <= k < v ==> (#[trigger] receivers@[k])@ == self.note_receivers@[k]@,
            decreases self.note_receivers.len() - v,
        {
            receivers.push(copy_ids(&self.note_receivers[v]));
            v += 1;
        }
        assert(receivers@.map_values(|r: Vec<usize>| r@) =~= self.note_receivers@.map_values(
            |r: Vec<usize>| r@,
        ));
        ControlMap {
            cutoff: self.cutoff,
            reso: self.reso,
            attack: self.attack,
            decay: self.decay,
            sustain: self.sustain,
            release: self.release,
            ext: self.ext,
            note_receivers: receivers,
        }
    }
}

} // verus!
