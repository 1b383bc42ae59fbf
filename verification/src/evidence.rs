//! The evidence envelope: one frame's detections for one camera.
//!
//! Only what the coordination logic reads is held here. Bounding boxes and
//! confidences travel beside the envelope and never influence a decision.
use vstd::prelude::*;

verus! {

/// Body part that a detector can report.
#[derive(Clone, Copy, Debug, PartialEq, Eq, Structural)]
pub enum EvidencePersonPartLabel {
    Head,
    Hand,
    Face,
    Foot,
    Ear,
}

/// Protective equipment that a detector can report.
#[derive(Clone, Copy, Debug, PartialEq, Eq, Structural)]
pub enum EvidencePersonEquipmentLabel {
    Hardhat,
    Gloves,
    Shoes,
    Safetyvest,
    Safetysuit,
    Facemask,
    Faceguard,
    Earmuffs,
    Glasses,
}

/// Closed set of violations that a person can carry.
#[derive(Clone, Copy, Debug, PartialEq, Eq, Structural)]
pub enum EvidencePersonViolation {
    MissingHardhat,
    MissingGloves,
    MissingShoes,
    MissingFacemask,
    MissingEarmuffs,
    MissingSafetyvest,
    ImproperlyWornGloves,
    ImproperlyWornShoes,
    ImproperlyWornFacemask,
    ImproperlyWornEarmuffs,
}

/// One detected person of a frame.
#[derive(Debug)]
pub struct EvidencePerson {
    pub id: String,
    pub part: Vec<EvidencePersonPartLabel>,
    pub equipment: Vec<EvidencePersonEquipmentLabel>,
    pub violation: Vec<EvidencePersonViolation>,
}

/// Mathematical value of an [`EvidencePerson`].
pub ghost struct PersonView {
    pub id: Seq<char>,
    pub part: Seq<EvidencePersonPartLabel>,
    pub equipment: Seq<EvidencePersonEquipmentLabel>,
    pub violation: Seq<EvidencePersonViolation>,
}

impl View for EvidencePerson {
    type V = PersonView;

    open spec fn view(&self) -> PersonView {
        PersonView {
            id: self.id@,
            part: self.part@,
            equipment: self.equipment@,
            violation: self.violation@,
        }
    }
}

/// One frame's detections for one camera.
#[derive(Debug)]
pub struct Evidence {
    pub id: String,
    pub camera_id: String,
    pub frame_id: String,
    pub timestamp: i64,
    pub person: Vec<EvidencePerson>,
}

/// Mathematical value of an [`Evidence`].
pub ghost struct EvidenceView {
    pub id: Seq<char>,
    pub camera_id: Seq<char>,
    pub frame_id: Seq<char>,
    pub timestamp: int,
    pub person: Seq<PersonView>,
}

/// The views of a list of persons, in order.
pub open spec fn person_views(s: Seq<EvidencePerson>) -> Seq<PersonView> {
    Seq::new(s.len(), |i: int| s[i]@)
}

impl View for Evidence {
    type V = EvidenceView;

    open spec fn view(&self) -> EvidenceView {
        EvidenceView {
            id: self.id@,
            camera_id: self.camera_id@,
            frame_id: self.frame_id@,
            timestamp: self.timestamp as int,
            person: person_views(self.person@),
        }
    }
}

impl EvidenceView {
    /// Whether any person of the envelope carries a violation.
    pub open spec fn has_violation(self) -> bool {
        exists|i: int| 0 <= i < self.person.len() && (#[trigger] self.person[i]).violation.len() > 0
    }

    /// The same envelope under another identifier.
    pub open spec fn with_id(self, id: Seq<char>) -> EvidenceView {
        EvidenceView { id, ..self }
    }
}

fn copy_labels<T: Copy>(v: &Vec<T>) -> (r: Vec<T>)
    ensures
        r@ == v@,
{
    let mut r: Vec<T> = Vec::new();
    let mut i: usize = 0;
    while i < v.len()
        invariant
            i <= v.len(),
            r@ == v@.take(i as int),
        decreases v.len() - i,
    {
        r.push(v[i]);
        assert(v@.take(i as int + 1) == v@.take(i as int).push(v@[i as int]));
        i += 1;
    }
    assert(v@.take(v.len() as int) == v@);
    r
}

impl EvidencePerson {
    /// Builds a person from its parts.
    pub fn new(
        id: String,
        part: Vec<EvidencePersonPartLabel>,
        equipment: Vec<EvidencePersonEquipmentLabel>,
        violation: Vec<EvidencePersonViolation>,
    ) -> (r: Self)
        ensures
            r@ == (PersonView { id: id@, part: part@, equipment: equipment@, violation: violation@ }),
    {
        EvidencePerson { id, part, equipment, violation }
    }

    /// Whether this person carries at least one violation.
    pub fn in_violation(&self) -> (r: bool)
        ensures
            r == (self@.violation.len() > 0),
    {
        self.violation.len() > 0
    }

    /// An independent copy with the same value.
    pub fn duplicate(&self) -> (r: Self)
        ensures
            r@ == self@,
    {
        EvidencePerson {
            id: self.id.clone(),
            part: copy_labels(&self.part),
            equipment: copy_labels(&self.equipment),
            violation: copy_labels(&self.violation),
        }
    }
}

impl Clone for EvidencePerson {
    fn clone(&self) -> (r: Self)
        ensures
            r@ == self@,
    {
        self.duplicate()
    }
}

impl Evidence {
    /// Builds an envelope from its parts.
    pub fn new(
        id: String,
        camera_id: String,
        frame_id: String,
        timestamp: i64,
        person: Vec<EvidencePerson>,
    ) -> (r: Self)
        ensures
            r@ == (EvidenceView {
                id: id@,
                camera_id: camera_id@,
                frame_id: frame_id@,
                timestamp: timestamp as int,
                person: person_views(person@),
            }),
    {
        Evidence { id, camera_id, frame_id, timestamp, person }
    }

    /// An independent copy with the same value.
    pub fn duplicate(&self) -> (r: Self)
        ensures
            r@ == self@,
    {
        let mut person: Vec<EvidencePerson> = Vec::new();
        let mut i: usize = 0;
        while i < self.person.len()
            invariant
                i <= self.person.len(),
                person.len() == i,
                forall|j: int| 0 <= j < i ==> (#[trigger] person@[j])@ == self.person@[j]@,
            decreases self.person.len() - i,
        {
            let p = self.person[i].duplicate();
            person.push(p);
            i += 1;
        }
        assert(person_views(person@) =~= person_views(self.person@));
        Evidence {
            id: self.id.clone(),
            camera_id: self.camera_id.clone(),
            frame_id: self.frame_id.clone(),
            timestamp: self.timestamp,
            person,
        }
    }

    /// Replaces the identifier, leaving every other field as it was. An
    /// identifier is assigned once, when the envelope enters the system.
    pub fn assign_id(&mut self, id: String)
        ensures
            final(self)@ == old(self)@.with_id(id@),
    {
        self.id = id;
    }

    /// Whether any person of the envelope carries a violation.
    pub fn has_violation(&self) -> (r: bool)
        ensures
            r == self@.has_violation(),
    {
        let mut i: usize = 0;
        while i < self.person.len()
            invariant
                i <= self.person.len(),
                forall|j: int| 0 <= j < i ==> (#[trigger] self@.person[j]).violation.len() == 0,
            decreases self.person.len() - i,
        {
            if self.person[i].in_violation() {
                assert(self@.person[i as int].violation.len() > 0);
                return true;
            }
            i += 1;
        }
        false
    }
}

impl Clone for Evidence {
    fn clone(&self) -> (r: Self)
        ensures
            r@ == self@,
    {
        self.duplicate()
    }
}

} // verus!
