//! Windowed deduplication of violations per camera and person.
//!
//! The table remembers, for each pair of camera and person, the timestamp of
//! the last envelope that counted as a new violation for that pair. A person
//! of a later envelope contributes nothing while the envelope's timestamp is
//! less than [`DEDUP_WINDOW_MS`] past the remembered one.
use crate::evidence::{Evidence, EvidenceView, PersonView};
use vstd::prelude::*;

verus! {

/// Width of the deduplication window, in milliseconds.
pub const DEDUP_WINDOW_MS: i64 = 600_000;

/// One remembered pair of camera and person.
pub struct DedupEntry {
    camera_id: String,
    person_id: String,
    timestamp: i64,
}

/// Whether an envelope stamped `ts` falls inside the window opened at `prev`.
pub open spec fn within_window(prev: i64, ts: i64) -> bool {
    ts - prev < DEDUP_WINDOW_MS
}

/// Whether the table silences the pair `key` for an envelope stamped `ts`.
pub open spec fn suppressed(m: Map<(Seq<char>, Seq<char>), i64>, key: (Seq<char>, Seq<char>), ts: i64) -> bool {
    m.contains_key(key) && within_window(m[key], ts)
}

/// Whether person `p` of an envelope from `camera` stamped `ts` counts as a
/// new violation against the table `m`.
pub open spec fn contributes(
    m: Map<(Seq<char>, Seq<char>), i64>,
    camera: Seq<char>,
    p: PersonView,
    ts: i64,
) -> bool {
    !suppressed(m, (camera, p.id), ts) && p.violation.len() > 0
}

/// The table after person `p` has been looked at.
pub open spec fn after_person(
    m: Map<(Seq<char>, Seq<char>), i64>,
    camera: Seq<char>,
    p: PersonView,
    ts: i64,
) -> Map<(Seq<char>, Seq<char>), i64> {
    if contributes(m, camera, p, ts) {
        m.insert((camera, p.id), ts)
    } else {
        m
    }
}

/// The table after the persons of an envelope have been looked at in order.
pub open spec fn after_persons(
    m: Map<(Seq<char>, Seq<char>), i64>,
    camera: Seq<char>,
    persons: Seq<PersonView>,
    ts: i64,
) -> Map<(Seq<char>, Seq<char>), i64>
    decreases persons.len(),
{
    if persons.len() == 0 {
        m
    } else {
        after_person(
            after_persons(m, camera, persons.drop_last(), ts),
            camera,
            persons.last(),
            ts,
        )
    }
}

/// Whether any person of an envelope counts as a new violation, each judged
/// against the table as the persons before it left it.
pub open spec fn any_contributes(
    m: Map<(Seq<char>, Seq<char>), i64>,
    camera: Seq<char>,
    persons: Seq<PersonView>,
    ts: i64,
) -> bool
    decreases persons.len(),
{
    if persons.len() == 0 {
        false
    } else {
        any_contributes(m, camera, persons.drop_last(), ts) || contributes(
            after_persons(m, camera, persons.drop_last(), ts),
            camera,
            persons.last(),
            ts,
        )
    }
}

/// The table after a whole envelope.
pub open spec fn after_envelope(m: Map<(Seq<char>, Seq<char>), i64>, e: EvidenceView) -> Map<
    (Seq<char>, Seq<char>),
    i64,
> {
    after_persons(m, e.camera_id, e.person, e.timestamp as i64)
}

/// Whether an envelope is a new violation against the table `m`.
pub open spec fn is_new_violation(m: Map<(Seq<char>, Seq<char>), i64>, e: EvidenceView) -> bool {
    any_contributes(m, e.camera_id, e.person, e.timestamp as i64)
}

/// Deduplication state of the evidence worker.
pub struct DedupTable {
    entries: Vec<DedupEntry>,
}

impl DedupTable {
    /// The pairs held, in the order in which they were first remembered.
    pub closed spec fn pairs(&self) -> Seq<(Seq<char>, Seq<char>)> {
        Seq::new(self.entries@.len(), |i: int| (self.entries@[i].camera_id@, self.entries@[i].person_id@))
    }

    /// No pair is held twice.
    pub closed spec fn wf(&self) -> bool {
        self.pairs().no_duplicates()
    }

    /// The table as a map from pair to remembered timestamp.
    pub closed spec fn view(&self) -> Map<(Seq<char>, Seq<char>), i64> {
        Map::new(
            |k: (Seq<char>, Seq<char>)| self.pairs().contains(k),
            |k: (Seq<char>, Seq<char>)| self.entries@[self.pairs().index_of(k)].timestamp,
        )
    }

    proof fn lemma_entry(&self, i: int)
        requires
            self.wf(),
            0 <= i < self.pairs().len(),
        ensures
            self@.contains_key(self.pairs()[i]),
            self@[self.pairs()[i]] == self.entries@[i].timestamp,
    {
        let k = self.pairs()[i];
        assert(self.pairs().contains(k));
        let j = self.pairs().index_of(k);
        assert(0 <= j < self.pairs().len() && self.pairs()[j] == k);
    }

    /// A table that remembers nothing.
    pub fn new() -> (r: Self)
        ensures
            r.wf(),
            r@ == Map::<(Seq<char>, Seq<char>), i64>::empty(),
    {
        let r = DedupTable { entries: Vec::new() };
        assert(r@ =~= Map::<(Seq<char>, Seq<char>), i64>::empty());
        r
    }

    /// Number of pairs remembered.
    pub fn len(&self) -> (n: usize)
        ensures
            n == self.pairs().len(),
    {
        self.entries.len()
    }

    fn position(&self, camera_id: &String, person_id: &String) -> (r: Option<usize>)
        requires
            self.wf(),
        ensures
            match r {
                Some(i) => i < self.pairs().len() && self.pairs()[i as int] == (
                    camera_id@,
                    person_id@,
                ),
                None => !self.pairs().contains((camera_id@, person_id@)),
            },
    {
        let mut i: usize = 0;
        while i < self.entries.len()
            invariant
                i <= self.entries.len(),
                forall|j: int| 0 <= j < i ==> self.pairs()[j] != (camera_id@, person_id@),
            decreases self.entries.len() - i,
        {
            if self.entries[i].camera_id == *camera_id && self.entries[i].person_id == *person_id {
                return Some(i);
            }
            i += 1;
        }
        None
    }

    /// The timestamp remembered for a pair, if any.
    pub fn last_seen(&self, camera_id: &String, person_id: &String) -> (r: Option<i64>)
        requires
            self.wf(),
        ensures
            match r {
                Some(t) => self@.contains_key((camera_id@, person_id@)) && self@[(
                    camera_id@,
                    person_id@,
                )] == t,
                None => !self@.contains_key((camera_id@, person_id@)),
            },
    {
        match self.position(camera_id, person_id) {
            Some(i) => {
                proof {
                    self.lemma_entry(i as int);
                }
                Some(self.entries[i].timestamp)
            },
            None => None,
        }
    }

    /// Remembers `timestamp` for a pair, replacing what was remembered.
    pub fn remember(&mut self, camera_id: &String, person_id: &String, timestamp: i64)
        requires
            old(self).wf(),
        ensures
            final(self).wf(),
            final(self)@ == old(self)@.insert((camera_id@, person_id@), timestamp),
    {
        let ghost before = *self;
        let ghost key = (camera_id@, person_id@);
        let entry = DedupEntry {
            camera_id: camera_id.clone(),
            person_id: person_id.clone(),
            timestamp,
        };
        match self.position(camera_id, person_id) {
            Some(i) => {
                self.entries.set(i, entry);
                assert(self.pairs() =~= before.pairs());
                proof {
                    before.lemma_entry(i as int);
                    assert forall|q: (Seq<char>, Seq<char>)| #[trigger]
                        self@.contains_key(q) implies self@[q] == before@.insert(
                        key,
                        timestamp,
                    )[q] by {
                        let j = self.pairs().index_of(q);
                        assert(0 <= j < self.pairs().len() && self.pairs()[j] == q);
                    }
                }
            },
            None => {
                self.entries.push(entry);
                assert(self.pairs() =~= before.pairs().push(key));
                proof {
                    let n = before.pairs().len() as int;
                    assert(self.pairs()[n] == key);
                    assert forall|q: (Seq<char>, Seq<char>)| #[trigger]
                        before@.insert(key, timestamp).contains_key(q) implies self@.contains_key(
                        q,
                    ) by {
                        if q != key {
                            let j = before.pairs().index_of(q);
                            assert(self.pairs()[j] == q);
                        }
                    }
                    assert forall|q: (Seq<char>, Seq<char>)| #[trigger]
                        self@.contains_key(q) implies before@.insert(key, timestamp).contains_key(
                        q,
                    ) && self@[q] == before@.insert(key, timestamp)[q] by {
                        let j = self.pairs().index_of(q);
                        assert(0 <= j < self.pairs().len() && self.pairs()[j] == q);
                        if j < n {
                            assert(before.pairs()[j] == q);
                            before.lemma_entry(j);
                        }
                    }
                }
            },
        }
        assert(self@ =~= before@.insert(key, timestamp));
    }

    /// Looks at every person of `evidence` in order. A person whose pair is
    /// remembered with a timestamp less than [`DEDUP_WINDOW_MS`] before the
    /// envelope's contributes nothing. Any other person that carries a
    /// violation makes the envelope a new violation, and its pair is
    /// remembered with the envelope's timestamp. Returns whether the envelope
    /// is a new violation.
    pub fn observe(&mut self, evidence: &Evidence) -> (fresh: bool)
        requires
            old(self).wf(),
        ensures
            final(self).wf(),
            final(self)@ == after_envelope(old(self)@, evidence@),
            fresh == is_new_violation(old(self)@, evidence@),
    {
        let ghost before = self@;
        let ghost cam = evidence@.camera_id;
        let ghost persons = evidence@.person;
        let ts = evidence.timestamp;
        let mut fresh = false;
        let mut i: usize = 0;
        assert(persons.take(0) =~= Seq::<PersonView>::empty());
        while i < evidence.person.len()
            invariant
                self.wf(),
                i <= evidence.person.len(),
                cam == evidence@.camera_id,
                persons == evidence@.person,
                persons.len() == evidence.person.len(),
                ts == evidence.timestamp,
                self@ == after_persons(before, cam, persons.take(i as int), ts),
                fresh == any_contributes(before, cam, persons.take(i as int), ts),
            decreases evidence.person.len() - i,
        {
            let person = &evidence.person[i];
            proof {
                let next = persons.take(i as int + 1);
                assert(next.drop_last() =~= persons.take(i as int));
                assert(next.last() == person@);
            }
            let silenced = match self.last_seen(&evidence.camera_id, &person.id) {
                Some(prev) => (ts as i128) - (prev as i128) < (DEDUP_WINDOW_MS as i128),
                None => false,
            };
            if !silenced && person.in_violation() {
                fresh = true;
                self.remember(&evidence.camera_id, &person.id, ts);
            }
            i += 1;
        }
        assert(persons.take(persons.len() as int) =~= persons);
        fresh
    }
}

/// An envelope without persons leaves the table as it was and is no new
/// violation.
pub proof fn law_empty_envelope(m: Map<(Seq<char>, Seq<char>), i64>, e: EvidenceView)
    requires
        e.person.len() == 0,
    ensures
        after_envelope(m, e) == m,
        !is_new_violation(m, e),
{
}

/// The window is half open: a pair remembered at `prev` silences every
/// timestamp below `prev + DEDUP_WINDOW_MS` and none from there on.
pub proof fn law_window_boundary(
    m: Map<(Seq<char>, Seq<char>), i64>,
    key: (Seq<char>, Seq<char>),
    ts: i64,
)
    requires
        m.contains_key(key),
    ensures
        suppressed(m, key, ts) <==> ts < m[key] + DEDUP_WINDOW_MS,
{
}

/// While no person contributes, the table does not change.
pub proof fn law_quiet_envelope_changes_nothing(
    m: Map<(Seq<char>, Seq<char>), i64>,
    camera: Seq<char>,
    persons: Seq<PersonView>,
    ts: i64,
)
    requires
        !any_contributes(m, camera, persons, ts),
    ensures
        after_persons(m, camera, persons, ts) == m,
    decreases persons.len(),
{
    if persons.len() > 0 {
        law_quiet_envelope_changes_nothing(m, camera, persons.drop_last(), ts);
    }
}

/// A new violation among the first persons stays one when more follow.
pub proof fn law_contribution_is_kept(
    m: Map<(Seq<char>, Seq<char>), i64>,
    camera: Seq<char>,
    persons: Seq<PersonView>,
    ts: i64,
    n: int,
)
    requires
        0 <= n <= persons.len(),
        any_contributes(m, camera, persons.take(n), ts),
    ensures
        any_contributes(m, camera, persons, ts),
    decreases persons.len() - n,
{
    if n < persons.len() {
        assert(persons.take(n + 1).drop_last() =~= persons.take(n));
        law_contribution_is_kept(m, camera, persons, ts, n + 1);
    } else {
        assert(persons.take(n) =~= persons);
    }
}

/// An envelope in which some person carries a violation, and whose pair the
/// table did not silence when the envelope arrived, is a new violation.
pub proof fn law_unseen_violation_is_new(m: Map<(Seq<char>, Seq<char>), i64>, e: EvidenceView, i: int)
    requires
        0 <= i < e.person.len(),
        e.person[i].violation.len() > 0,
        !suppressed(m, (e.camera_id, e.person[i].id), e.timestamp as i64),
    ensures
        is_new_violation(m, e),
{
    let ts = e.timestamp as i64;
    let prefix = e.person.take(i);
    let upto = e.person.take(i + 1);
    assert(upto.drop_last() =~= prefix);
    assert(upto.last() == e.person[i]);
    if !any_contributes(m, e.camera_id, prefix, ts) {
        law_quiet_envelope_changes_nothing(m, e.camera_id, prefix, ts);
        assert(contributes(after_persons(m, e.camera_id, prefix, ts), e.camera_id, e.person[i], ts));
    }
    assert(any_contributes(m, e.camera_id, upto, ts));
    law_contribution_is_kept(m, e.camera_id, e.person, ts, i + 1);
}

/// An envelope in which no person carries a violation is never a new
/// violation and leaves the table as it was.
pub proof fn law_clean_envelope_is_ignored(
    m: Map<(Seq<char>, Seq<char>), i64>,
    camera: Seq<char>,
    persons: Seq<PersonView>,
    ts: i64,
)
    requires
        forall|i: int| 0 <= i < persons.len() ==> (#[trigger] persons[i]).violation.len() == 0,
    ensures
        !any_contributes(m, camera, persons, ts),
        after_persons(m, camera, persons, ts) == m,
    decreases persons.len(),
{
    if persons.len() > 0 {
        law_clean_envelope_is_ignored(m, camera, persons.drop_last(), ts);
    }
}

} // verus!
