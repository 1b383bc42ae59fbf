//! The server's entity store: clusters, uniforms, processors, cameras,
//! evidence, users and subscribers, each kind in a table keyed by identifier.
//! Relations are by identifier only; nothing points at anything.
use crate::device::{CameraAddress, ProcessorAddress};
use crate::error::EventKind;
use crate::evidence::{person_views, EvidencePerson, PersonView};
use crate::table::Table;
use crate::text::texts;
use vstd::prelude::*;

verus! {

/// One requirement of a uniform.
#[derive(Clone, Copy, Debug, PartialEq, Eq, Structural)]
pub enum UniformAttribute {
    Mask,
    HardHat,
    HairCap,
    SafetyVest,
}

/// A named bundle of required equipment.
#[derive(Debug, PartialEq, Eq)]
pub struct Uniform {
    pub id: String,
    pub name: String,
    pub attribute: Vec<UniformAttribute>,
}

/// What a request to create or change a uniform carries.
#[derive(Debug, PartialEq, Eq)]
pub struct UniformRequest {
    pub name: String,
    pub attribute: Vec<UniformAttribute>,
}

/// A uniform as the API shows it.
#[derive(Debug, PartialEq, Eq)]
pub struct UniformResponse {
    pub id: String,
    pub name: String,
    pub attribute: Vec<UniformAttribute>,
}

/// Mathematical value of a uniform, stored or shown.
pub ghost struct UniformView {
    pub id: Seq<char>,
    pub name: Seq<char>,
    pub attribute: Seq<UniformAttribute>,
}

impl View for Uniform {
    type V = UniformView;

    open spec fn view(&self) -> UniformView {
        UniformView { id: self.id@, name: self.name@, attribute: self.attribute@ }
    }
}

impl View for UniformResponse {
    type V = UniformView;

    open spec fn view(&self) -> UniformView {
        UniformView { id: self.id@, name: self.name@, attribute: self.attribute@ }
    }
}

/// A tenancy unit: processors, cameras and the uniforms they enforce.
#[derive(Debug, PartialEq, Eq)]
pub struct Cluster {
    pub id: String,
    pub uniform_id: Vec<String>,
    pub name: String,
}

/// A processor as the server stores it.
#[derive(Debug, PartialEq, Eq)]
pub struct Processor {
    pub id: String,
    pub cluster_id: String,
    pub name: String,
    pub model: String,
    pub address: ProcessorAddress,
    pub version: i64,
}

/// A processor as the API shows it.
#[derive(Debug, PartialEq, Eq)]
pub struct ProcessorResponse {
    pub id: String,
    pub cluster_id: String,
    pub name: String,
    pub model: String,
    pub address: ProcessorAddress,
    pub version: i64,
}

/// A camera as an edge node reports it.
#[derive(Debug, PartialEq, Eq)]
pub struct CameraRequest {
    pub id: String,
    pub address: CameraAddress,
    pub name: String,
}

/// A camera as the server stores it.
#[derive(Debug, PartialEq, Eq)]
pub struct Camera {
    pub id: String,
    pub cluster_id: String,
    pub processor_id: String,
    pub address: CameraAddress,
    pub name: String,
}

/// A camera as the API shows it.
#[derive(Debug, PartialEq, Eq)]
pub struct CameraResponse {
    pub id: String,
    pub cluster_id: String,
    pub processor_id: String,
    pub address: CameraAddress,
    pub name: String,
}

/// The canonical view of a processor: its descriptor, its roster and the
/// uniforms of its cluster.
#[derive(Debug, PartialEq, Eq)]
pub struct ProcessorData {
    pub processor: ProcessorResponse,
    pub camera: Vec<CameraResponse>,
    pub uniform: Vec<UniformResponse>,
}

/// A persisted envelope.
#[derive(Debug)]
pub struct Evidence {
    pub id: String,
    pub cluster_id: String,
    pub processor_id: String,
    pub camera_id: String,
    pub frame_id: String,
    pub timestamp: i64,
    pub person: Vec<EvidencePerson>,
}

/// Mathematical value of a persisted envelope.
pub ghost struct RecordView {
    pub id: Seq<char>,
    pub cluster_id: Seq<char>,
    pub processor_id: Seq<char>,
    pub camera_id: Seq<char>,
    pub frame_id: Seq<char>,
    pub timestamp: int,
    pub person: Seq<PersonView>,
}

impl View for Evidence {
    type V = RecordView;

    open spec fn view(&self) -> RecordView {
        RecordView {
            id: self.id@,
            cluster_id: self.cluster_id@,
            processor_id: self.processor_id@,
            camera_id: self.camera_id@,
            frame_id: self.frame_id@,
            timestamp: self.timestamp as int,
            person: person_views(self.person@),
        }
    }
}

/// By which of its references an evidence row is picked.
#[derive(Clone, Copy, Debug, PartialEq, Eq, Structural)]
pub enum EvidenceOwner {
    Cluster,
    Processor,
    Camera,
}

/// The reference of a row that `owner` picks.
pub open spec fn reference(row: Evidence, owner: EvidenceOwner) -> Seq<char> {
    match owner {
        EvidenceOwner::Cluster => row.cluster_id@,
        EvidenceOwner::Processor => row.processor_id@,
        EvidenceOwner::Camera => row.camera_id@,
    }
}

/// Whether the reference of `row` that `owner` picks is `id`.
pub fn refers_to(row: &Evidence, owner: EvidenceOwner, id: &String) -> (r: bool)
    ensures
        r == (reference(*row, owner) == id@),
{
    match owner {
        EvidenceOwner::Cluster => row.cluster_id == *id,
        EvidenceOwner::Processor => row.processor_id == *id,
        EvidenceOwner::Camera => row.camera_id == *id,
    }
}

/// What a user may do.
#[derive(Clone, Copy, Debug, PartialEq, Eq, Structural)]
pub enum UserRole {
    SuperAdmin,
    Manager,
    Officer,
}

/// An operator account.
#[derive(Debug, PartialEq, Eq)]
pub struct User {
    pub id: String,
    pub cluster_id: Vec<String>,
    pub number: String,
    pub name: String,
    pub password: String,
    pub role: UserRole,
}

/// Where a push notification goes.
#[derive(Debug, PartialEq, Eq)]
pub enum SubscriberKind {
    Apple(String),
}

/// What a request to subscribe carries.
#[derive(Debug, PartialEq, Eq)]
pub struct SubscriberRequest {
    pub user_id: String,
    pub kind: SubscriberKind,
}

/// A registered push recipient.
#[derive(Debug, PartialEq, Eq)]
pub struct Subscriber {
    pub id: String,
    pub user_id: String,
    pub kind: SubscriberKind,
}

/// Whether `ids` holds the text `id`.
pub fn holds_id(ids: &Vec<String>, id: &String) -> (r: bool)
    ensures
        r == texts(ids@).contains(id@),
{
    let mut i: usize = 0;
    while i < ids.len()
        invariant
            i <= ids.len(),
            forall|j: int| 0 <= j < i ==> texts(ids@)[j] != id@,
        decreases ids.len() - i,
    {
        if ids[i] == *id {
            assert(texts(ids@)[i as int] == id@);
            return true;
        }
        i += 1;
    }
    false
}

impl SubscriberKind {
    /// An independent copy.
    pub fn duplicate(&self) -> (r: Self)
        ensures
            r == *self,
    {
        match self {
            SubscriberKind::Apple(t) => SubscriberKind::Apple(t.clone()),
        }
    }
}

impl Subscriber {
    /// An independent copy.
    pub fn duplicate(&self) -> (r: Self)
        ensures
            r == *self,
    {
        Subscriber {
            id: self.id.clone(),
            user_id: self.user_id.clone(),
            kind: self.kind.duplicate(),
        }
    }
}

impl Uniform {
    /// The uniform as the API shows it.
    pub fn response(&self) -> (r: UniformResponse)
        ensures
            r@ == self@,
    {
        let mut attribute: Vec<UniformAttribute> = Vec::new();
        let mut i: usize = 0;
        while i < self.attribute.len()
            invariant
                i <= self.attribute.len(),
                attribute@ == self.attribute@.take(i as int),
            decreases self.attribute.len() - i,
        {
            attribute.push(self.attribute[i]);
            assert(attribute@ =~= self.attribute@.take(i as int + 1));
            i += 1;
        }
        assert(self.attribute@.take(self.attribute.len() as int) =~= self.attribute@);
        UniformResponse { id: self.id.clone(), name: self.name.clone(), attribute }
    }
}

impl Processor {
    /// An independent copy.
    pub fn duplicate(&self) -> (r: Self)
        ensures
            r == *self,
    {
        Processor {
            id: self.id.clone(),
            cluster_id: self.cluster_id.clone(),
            name: self.name.clone(),
            model: self.model.clone(),
            address: self.address,
            version: self.version,
        }
    }

    /// The processor as the API shows it.
    pub open spec fn shown(&self) -> ProcessorResponse {
        ProcessorResponse {
            id: self.id,
            cluster_id: self.cluster_id,
            name: self.name,
            model: self.model,
            address: self.address,
            version: self.version,
        }
    }

    /// The processor as the API shows it.
    pub fn response(&self) -> (r: ProcessorResponse)
        ensures
            r == self.shown(),
    {
        ProcessorResponse {
            id: self.id.clone(),
            cluster_id: self.cluster_id.clone(),
            name: self.name.clone(),
            model: self.model.clone(),
            address: self.address,
            version: self.version,
        }
    }
}

impl Camera {
    /// An independent copy.
    pub fn duplicate(&self) -> (r: Self)
        ensures
            r == *self,
    {
        Camera {
            id: self.id.clone(),
            cluster_id: self.cluster_id.clone(),
            processor_id: self.processor_id.clone(),
            address: self.address.duplicate(),
            name: self.name.clone(),
        }
    }

    /// The camera as the API shows it.
    pub open spec fn shown(&self) -> CameraResponse {
        CameraResponse {
            id: self.id,
            cluster_id: self.cluster_id,
            processor_id: self.processor_id,
            address: self.address,
            name: self.name,
        }
    }

    /// The camera as the API shows it.
    pub fn response(&self) -> (r: CameraResponse)
        ensures
            r == self.shown(),
    {
        CameraResponse {
            id: self.id.clone(),
            cluster_id: self.cluster_id.clone(),
            processor_id: self.processor_id.clone(),
            address: self.address.duplicate(),
            name: self.name.clone(),
        }
    }
}

impl Evidence {
    /// An independent copy with the same value.
    pub fn duplicate(&self) -> (r: Self)
        ensures
            r@ == self@,
    {
        let mut person: Vec<EvidencePerson> = Vec::new();
        let mut i: usize = 0;
        while i < self.person.len()
            invariant
                i <= self.person.len(),
                person.len() == i,
                forall|j: int| 0 <= j < i ==> (#[trigger] person@[j])@ == self.person@[j]@,
            decreases self.person.len() - i,
        {
            let p = self.person[i].duplicate();
            person.push(p);
            i += 1;
        }
        assert(person_views(person@) =~= person_views(self.person@));
        Evidence {
            id: self.id.clone(),
            cluster_id: self.cluster_id.clone(),
            processor_id: self.processor_id.clone(),
            camera_id: self.camera_id.clone(),
            frame_id: self.frame_id.clone(),
            timestamp: self.timestamp,
            person,
        }
    }
}

/// The entity store of the server.
pub struct Registry {
    pub cluster: Table<Cluster>,
    pub uniform: Table<Uniform>,
    pub processor: Table<Processor>,
    pub camera: Table<Camera>,
    pub evidence: Table<Evidence>,
    pub user: Table<User>,
    pub subscriber: Table<Subscriber>,
}

impl Registry {
    /// Every table is consistent and files each entity under its own
    /// identifier.
    pub open spec fn wf(&self) -> bool {
        &&& self.cluster.wf()
        &&& self.uniform.wf()
        &&& self.processor.wf()
        &&& self.camera.wf()
        &&& self.evidence.wf()
        &&& self.user.wf()
        &&& self.subscriber.wf()
        &&& forall|k: Seq<char>| #[trigger] self.cluster@.contains_key(k) ==> self.cluster@[k].id@ == k
        &&& forall|k: Seq<char>| #[trigger] self.uniform@.contains_key(k) ==> self.uniform@[k].id@ == k
        &&& forall|k: Seq<char>| #[trigger]
            self.processor@.contains_key(k) ==> self.processor@[k].id@ == k
        &&& forall|k: Seq<char>| #[trigger] self.camera@.contains_key(k) ==> self.camera@[k].id@ == k
        &&& forall|k: Seq<char>| #[trigger]
            self.evidence@.contains_key(k) ==> self.evidence@[k].id@ == k
        &&& forall|k: Seq<char>| #[trigger] self.user@.contains_key(k) ==> self.user@[k].id@ == k
        &&& forall|k: Seq<char>| #[trigger]
            self.subscriber@.contains_key(k) ==> self.subscriber@[k].id@ == k
    }

    /// A store without entities.
    pub fn new() -> (r: Self)
        ensures
            r.wf(),
            r.cluster@ == Map::<Seq<char>, Cluster>::empty(),
            r.uniform@ == Map::<Seq<char>, Uniform>::empty(),
            r.processor@ == Map::<Seq<char>, Processor>::empty(),
            r.camera@ == Map::<Seq<char>, Camera>::empty(),
            r.evidence@ == Map::<Seq<char>, Evidence>::empty(),
            r.user@ == Map::<Seq<char>, User>::empty(),
            r.subscriber@ == Map::<Seq<char>, Subscriber>::empty(),
    {
        Registry {
            cluster: Table::new(),
            uniform: Table::new(),
            processor: Table::new(),
            camera: Table::new(),
            evidence: Table::new(),
            user: Table::new(),
            subscriber: Table::new(),
        }
    }

    /// Files a cluster under its identifier, replacing the one that was
    /// there.
    pub fn put_cluster(&mut self, cluster: Cluster)
        requires
            old(self).wf(),
        ensures
            final(self).wf(),
            final(self).cluster@ == old(self).cluster@.insert(cluster.id@, cluster),
            final(self).uniform == old(self).uniform,
            final(self).processor == old(self).processor,
            final(self).camera == old(self).camera,
            final(self).evidence == old(self).evidence,
            final(self).user == old(self).user,
            final(self).subscriber == old(self).subscriber,
    {
        let key = cluster.id.clone();
        self.cluster.insert(key, cluster);
    }

    /// Files a uniform under its identifier, replacing the one that was
    /// there.
    pub fn put_uniform(&mut self, uniform: Uniform)
        requires
            old(self).wf(),
        ensures
            final(self).wf(),
            final(self).uniform@ == old(self).uniform@.insert(uniform.id@, uniform),
            final(self).cluster == old(self).cluster,
            final(self).processor == old(self).processor,
            final(self).camera == old(self).camera,
            final(self).evidence == old(self).evidence,
            final(self).user == old(self).user,
            final(self).subscriber == old(self).subscriber,
    {
        let key = uniform.id.clone();
        self.uniform.insert(key, uniform);
    }

    /// Files a processor under its identifier, replacing the one that was
    /// there.
    pub fn put_processor(&mut self, processor: Processor)
        requires
            old(self).wf(),
        ensures
            final(self).wf(),
            final(self).processor@ == old(self).processor@.insert(processor.id@, processor),
            final(self).cluster == old(self).cluster,
            final(self).uniform == old(self).uniform,
            final(self).camera == old(self).camera,
            final(self).evidence == old(self).evidence,
            final(self).user == old(self).user,
            final(self).subscriber == old(self).subscriber,
    {
        let key = processor.id.clone();
        self.processor.insert(key, processor);
    }

    /// Files a camera under its identifier, replacing the one that was
    /// there.
    pub fn put_camera(&mut self, camera: Camera)
        requires
            old(self).wf(),
        ensures
            final(self).wf(),
            final(self).camera@ == old(self).camera@.insert(camera.id@, camera),
            final(self).cluster == old(self).cluster,
            final(self).uniform == old(self).uniform,
            final(self).processor == old(self).processor,
            final(self).evidence == old(self).evidence,
            final(self).user == old(self).user,
            final(self).subscriber == old(self).subscriber,
    {
        let key = camera.id.clone();
        self.camera.insert(key, camera);
    }

    /// Files a persisted envelope under its identifier. The identifier is
    /// the primary key: filing the same identifier again replaces the row
    /// and adds none.
    pub fn put_evidence(&mut self, evidence: Evidence)
        requires
            old(self).wf(),
        ensures
            final(self).wf(),
            final(self).evidence@ == old(self).evidence@.insert(evidence.id@, evidence),
            final(self).cluster == old(self).cluster,
            final(self).uniform == old(self).uniform,
            final(self).processor == old(self).processor,
            final(self).camera == old(self).camera,
            final(self).user == old(self).user,
            final(self).subscriber == old(self).subscriber,
    {
        let key = evidence.id.clone();
        self.evidence.insert(key, evidence);
    }

    /// Files a user under its identifier, replacing the one that was there.
    pub fn put_user(&mut self, user: User)
        requires
            old(self).wf(),
        ensures
            final(self).wf(),
            final(self).user@ == old(self).user@.insert(user.id@, user),
            final(self).cluster == old(self).cluster,
            final(self).uniform == old(self).uniform,
            final(self).processor == old(self).processor,
            final(self).camera == old(self).camera,
            final(self).evidence == old(self).evidence,
            final(self).subscriber == old(self).subscriber,
    {
        let key = user.id.clone();
        self.user.insert(key, user);
    }

    /// Files a subscriber under its identifier, replacing the one that was
    /// there.
    pub fn put_subscriber(&mut self, subscriber: Subscriber)
        requires
            old(self).wf(),
        ensures
            final(self).wf(),
            final(self).subscriber@ == old(self).subscriber@.insert(subscriber.id@, subscriber),
            final(self).cluster == old(self).cluster,
            final(self).uniform == old(self).uniform,
            final(self).processor == old(self).processor,
            final(self).camera == old(self).camera,
            final(self).evidence == old(self).evidence,
            final(self).user == old(self).user,
    {
        let key = subscriber.id.clone();
        self.subscriber.insert(key, subscriber);
    }

    /// Removes the subscriber `id`. Says `Deleted` where there was one and
    /// `NotFound` where there was none.
    pub fn delete_subscriber(&mut self, id: &String) -> (r: EventKind)
        requires
            old(self).wf(),
        ensures
            final(self).wf(),
            final(self).subscriber@ == old(self).subscriber@.remove(id@),
            r == (if old(self).subscriber@.contains_key(id@) {
                EventKind::Deleted
            } else {
                EventKind::NotFound
            }),
            final(self).cluster == old(self).cluster,
            final(self).uniform == old(self).uniform,
            final(self).processor == old(self).processor,
            final(self).camera == old(self).camera,
            final(self).evidence == old(self).evidence,
            final(self).user == old(self).user,
    {
        match self.subscriber.remove(id) {
            Some(_) => EventKind::Deleted,
            None => EventKind::NotFound,
        }
    }

    /// The processor `id`, or `NotFound`.
    pub fn find_processor(&self, id: &String) -> (r: Result<&Processor, EventKind>)
        requires
            self.wf(),
        ensures
            match r {
                Ok(p) => self.processor@.contains_key(id@) && *p == self.processor@[id@],
                Err(e) => e == EventKind::NotFound && !self.processor@.contains_key(id@),
            },
    {
        match self.processor.get(id) {
            Some(p) => Ok(p),
            None => Err(EventKind::NotFound),
        }
    }

    /// The cluster `id`, or `NotFound`.
    pub fn find_cluster(&self, id: &String) -> (r: Result<&Cluster, EventKind>)
        requires
            self.wf(),
        ensures
            match r {
                Ok(c) => self.cluster@.contains_key(id@) && *c == self.cluster@[id@],
                Err(e) => e == EventKind::NotFound && !self.cluster@.contains_key(id@),
            },
    {
        match self.cluster.get(id) {
            Some(c) => Ok(c),
            None => Err(EventKind::NotFound),
        }
    }
}

} // verus!
