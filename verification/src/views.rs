//! Projections of stored evidence for operators: identifiers resolved to
//! names, and the query by which the evidence list is filtered.
use crate::error::EventKind;
use crate::evidence::{person_views, EvidencePerson, PersonView};
use crate::registry::{Evidence, RecordView, Registry};
use vstd::prelude::*;

verus! {

/// A cluster by identifier and name.
#[derive(Debug, PartialEq, Eq)]
pub struct ClusterRef {
    pub id: String,
    pub name: String,
}

/// A processor by identifier and name.
#[derive(Debug, PartialEq, Eq)]
pub struct ProcessorRef {
    pub id: String,
    pub name: String,
}

/// A camera by identifier and name.
#[derive(Debug, PartialEq, Eq)]
pub struct CameraRef {
    pub id: String,
    pub name: String,
}

/// A user by identifier and name.
#[derive(Debug, PartialEq, Eq)]
pub struct UserRef {
    pub id: String,
    pub name: String,
}

/// A persisted envelope with the names of its cluster, processor and
/// camera.
#[derive(Debug)]
pub struct ViewEvidence {
    pub id: String,
    pub cluster: ClusterRef,
    pub processor: ProcessorRef,
    pub camera: CameraRef,
    pub timestamp: i64,
    pub person: Vec<EvidencePerson>,
}

/// Mathematical value of a [`ViewEvidence`]: each reference is a pair of
/// identifier and name.
pub ghost struct ProjectionView {
    pub id: Seq<char>,
    pub cluster: (Seq<char>, Seq<char>),
    pub processor: (Seq<char>, Seq<char>),
    pub camera: (Seq<char>, Seq<char>),
    pub timestamp: int,
    pub person: Seq<PersonView>,
}

impl View for ViewEvidence {
    type V = ProjectionView;

    open spec fn view(&self) -> ProjectionView {
        ProjectionView {
            id: self.id@,
            cluster: (self.cluster.id@, self.cluster.name@),
            processor: (self.processor.id@, self.processor.name@),
            camera: (self.camera.id@, self.camera.name@),
            timestamp: self.timestamp as int,
            person: person_views(self.person@),
        }
    }
}

/// The name of cluster `id`, or `id` itself where the store has no such
/// cluster.
pub open spec fn cluster_name(reg: Registry, id: Seq<char>) -> Seq<char> {
    if reg.cluster@.contains_key(id) {
        reg.cluster@[id].name@
    } else {
        id
    }
}

/// The name of processor `id`, or `id` itself where the store has no such
/// processor.
pub open spec fn processor_name(reg: Registry, id: Seq<char>) -> Seq<char> {
    if reg.processor@.contains_key(id) {
        reg.processor@[id].name@
    } else {
        id
    }
}

/// The name of camera `id`, or `id` itself where the store has no such
/// camera.
pub open spec fn camera_name(reg: Registry, id: Seq<char>) -> Seq<char> {
    if reg.camera@.contains_key(id) {
        reg.camera@[id].name@
    } else {
        id
    }
}

/// The projection of a persisted envelope against a store.
pub open spec fn projected(e: RecordView, reg: Registry) -> ProjectionView {
    ProjectionView {
        id: e.id,
        cluster: (e.cluster_id, cluster_name(reg, e.cluster_id)),
        processor: (e.processor_id, processor_name(reg, e.processor_id)),
        camera: (e.camera_id, camera_name(reg, e.camera_id)),
        timestamp: e.timestamp,
        person: e.person,
    }
}

/// Filter of the evidence list. A field that is absent admits every row.
#[derive(Debug, PartialEq, Eq)]
pub struct EvidenceQuery {
    pub cluster_id: Option<String>,
    pub processor_id: Option<String>,
    pub camera_id: Option<String>,
    pub date_minimum: Option<i64>,
    pub date_maximum: Option<i64>,
}

impl EvidenceQuery {
    /// Whether the query admits a row.
    pub open spec fn admits(&self, e: RecordView) -> bool {
        &&& (self.cluster_id matches Some(c) ==> e.cluster_id == c@)
        &&& (self.processor_id matches Some(p) ==> e.processor_id == p@)
        &&& (self.camera_id matches Some(c) ==> e.camera_id == c@)
        &&& (self.date_minimum matches Some(d) ==> e.timestamp >= d)
        &&& (self.date_maximum matches Some(d) ==> e.timestamp <= d)
    }

    /// The query that admits every row.
    pub fn any() -> (r: Self)
        ensures
            forall|e: RecordView| r.admits(e),
    {
        EvidenceQuery {
            cluster_id: None,
            processor_id: None,
            camera_id: None,
            date_minimum: None,
            date_maximum: None,
        }
    }

    /// Whether the query admits a row.
    pub fn matches(&self, e: &Evidence) -> (r: bool)
        ensures
            r == self.admits(e@),
    {
        let by_cluster = match &self.cluster_id {
            Some(c) => e.cluster_id == *c,
            None => true,
        };
        let by_processor = match &self.processor_id {
            Some(p) => e.processor_id == *p,
            None => true,
        };
        let by_camera = match &self.camera_id {
            Some(c) => e.camera_id == *c,
            None => true,
        };
        let by_minimum = match self.date_minimum {
            Some(d) => e.timestamp >= d,
            None => true,
        };
        let by_maximum = match self.date_maximum {
            Some(d) => e.timestamp <= d,
            None => true,
        };
        by_cluster && by_processor && by_camera && by_minimum && by_maximum
    }
}

/// The projections of the rows that a query admits, in the order of the
/// rows.
pub open spec fn admitted(rows: Seq<Evidence>, q: EvidenceQuery, reg: Registry) -> Seq<ProjectionView>
    decreases rows.len(),
{
    if rows.len() == 0 {
        Seq::empty()
    } else if q.admits(rows.last()@) {
        admitted(rows.drop_last(), q, reg).push(projected(rows.last()@, reg))
    } else {
        admitted(rows.drop_last(), q, reg)
    }
}

/// The values of a list of projections, in order.
pub open spec fn projection_views(v: Seq<ViewEvidence>) -> Seq<ProjectionView> {
    Seq::new(v.len(), |i: int| v[i]@)
}

impl ViewEvidence {
    /// Projects a persisted envelope: each identifier is paired with the
    /// name that the store holds for it, or with itself where the store
    /// holds none.
    pub fn from(evidence: Evidence, reg: &Registry) -> (r: Self)
        requires
            reg.wf(),
        ensures
            r@ == projected(evidence@, *reg),
    {
        let cluster = match reg.cluster.get(&evidence.cluster_id) {
            Some(c) => ClusterRef { id: evidence.cluster_id.clone(), name: c.name.clone() },
            None => ClusterRef {
                id: evidence.cluster_id.clone(),
                name: evidence.cluster_id.clone(),
            },
        };
        let processor = match reg.processor.get(&evidence.processor_id) {
            Some(p) => ProcessorRef { id: evidence.processor_id.clone(), name: p.name.clone() },
            None => ProcessorRef {
                id: evidence.processor_id.clone(),
                name: evidence.processor_id.clone(),
            },
        };
        let camera = match reg.camera.get(&evidence.camera_id) {
            Some(c) => CameraRef { id: evidence.camera_id.clone(), name: c.name.clone() },
            None => CameraRef { id: evidence.camera_id.clone(), name: evidence.camera_id.clone() },
        };
        ViewEvidence {
            id: evidence.id,
            cluster,
            processor,
            camera,
            timestamp: evidence.timestamp,
            person: evidence.person,
        }
    }

    /// The projection of the stored record `id`, or `NotFound`.
    pub fn find_by_id(id: &String, reg: &Registry) -> (r: Result<Self, EventKind>)
        requires
            reg.wf(),
        ensures
            match r {
                Ok(shown) => reg.evidence@.contains_key(id@) && shown@ == projected(
                    reg.evidence@[id@]@,
                    *reg,
                ),
                Err(e) => e == EventKind::NotFound && !reg.evidence@.contains_key(id@),
            },
    {
        match reg.evidence.get(id) {
            Some(row) => Ok(ViewEvidence::from(row.duplicate(), reg)),
            None => Err(EventKind::NotFound),
        }
    }

    /// An independent copy with the same value.
    pub fn duplicate(&self) -> (r: Self)
        ensures
            r@ == self@,
    {
        let mut person: Vec<EvidencePerson> = Vec::new();
        let mut i: usize = 0;
        while i < self.person.len()
            invariant
                i <= self.person.len(),
                person.len() == i,
                forall|j: int| 0 <= j < i ==> (#[trigger] person@[j])@ == self.person@[j]@,
            decreases self.person.len() - i,
        {
            let p = self.person[i].duplicate();
            person.push(p);
            i += 1;
        }
        assert(person_views(person@) =~= person_views(self.person@));
        ViewEvidence {
            id: self.id.clone(),
            cluster: ClusterRef { id: self.cluster.id.clone(), name: self.cluster.name.clone() },
            processor: ProcessorRef {
                id: self.processor.id.clone(),
                name: self.processor.name.clone(),
            },
            camera: CameraRef { id: self.camera.id.clone(), name: self.camera.name.clone() },
            timestamp: self.timestamp,
            person,
        }
    }

    /// The projections of the stored rows that `query` admits, in the
    /// order of the store. Where the query admits no row the answer is
    /// `NotFound`.
    pub fn find_many(query: &EvidenceQuery, reg: &Registry) -> (r: Result<Vec<Self>, EventKind>)
        requires
            reg.wf(),
        ensures
            match r {
                Ok(v) => v@.len() > 0 && projection_views(v@) == admitted(
                    reg.evidence.values(),
                    *query,
                    *reg,
                ),
                Err(e) => e == EventKind::NotFound && admitted(
                    reg.evidence.values(),
                    *query,
                    *reg,
                ).len() == 0,
            },
    {
        let mut found: Vec<ViewEvidence> = Vec::new();
        let n = reg.evidence.len();
        let mut i: usize = 0;
        assert(reg.evidence.values().take(0) =~= Seq::<Evidence>::empty());
        assert(projection_views(found@) =~= Seq::<ProjectionView>::empty());
        while i < n
            invariant
                reg.wf(),
                n == reg.evidence.keys().len(),
                i <= n,
                projection_views(found@) == admitted(
                    reg.evidence.values().take(i as int),
                    *query,
                    *reg,
                ),
            decreases n - i,
        {
            let row = reg.evidence.value_at(i);
            proof {
                let next = reg.evidence.values().take(i as int + 1);
                assert(next.drop_last() =~= reg.evidence.values().take(i as int));
                assert(next.last() == *row);
            }
            if query.matches(row) {
                let ghost prev = found@;
                let shown = ViewEvidence::from(row.duplicate(), reg);
                found.push(shown);
                assert(projection_views(found@) =~= projection_views(prev).push(
                    projected(row@, *reg),
                ));
            }
            i += 1;
        }
        assert(reg.evidence.values().take(n as int) =~= reg.evidence.values());
        if found.len() > 0 {
            Ok(found)
        } else {
            Err(EventKind::NotFound)
        }
    }
}

} // verus!
