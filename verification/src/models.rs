//! The operations of each kind of entity on the store: filing, replacing,
//! removing and finding, and the short lists that older consoles ask for.
use crate::accounts::{
    bcrypt_hash, first_with_number, has_super_admin, password_fits, UserResponseView,
};
use crate::admin::{first_with_token, token_of, without_rows_of};
use crate::device::{CameraAddress, ProcessorAddress};
use crate::error::EventKind;
use crate::push::{audience_of, hears, user_hears};
use crate::queries::{
    cameras_listed, clusters_listed, passes_text, processors_admitted, text_passes,
    users_admitted, window, CameraQuery, ClusterQuery, ProcessorQuery, TextFilter, UserQuery,
    ViewCamera, ViewCluster,
};
use crate::registry::{
    holds_id, Camera, CameraResponse, Cluster, EvidenceOwner, Processor, Registry, Subscriber,
    SubscriberKind, Uniform, UniformResponse, UniformView, User, UserRole,
};
use crate::sync::{cluster_uniforms, uniform_views, uniforms_of};
use crate::text::texts;
use vstd::prelude::*;

verus! {

/// A camera in the short list: what it refers to is shown by name.
#[derive(Debug, PartialEq, Eq)]
pub struct CameraMinimalResponse {
    pub id: String,
    pub cluster: String,
    pub processor: String,
    pub address: CameraAddress,
    pub name: String,
    pub notification_count: usize,
    pub violation_count: usize,
}

/// A cluster as the API shows it.
#[derive(Debug, PartialEq, Eq)]
pub struct ClusterResponse {
    pub id: String,
    pub uniform_id: Vec<String>,
    pub name: String,
}

/// A cluster in the short list, with its uniforms and its counts.
#[derive(Debug, PartialEq, Eq)]
pub struct ClusterMinimalResponse {
    pub id: String,
    pub uniform: Vec<UniformResponse>,
    pub name: String,
    pub processor_count: usize,
    pub notification_count: usize,
    pub violation_count: usize,
}

/// A processor in the short list, with its cameras.
#[derive(Debug, PartialEq, Eq)]
pub struct ProcessorMinimalResponse {
    pub id: String,
    pub cluster: String,
    pub address: ProcessorAddress,
    pub camera: Vec<CameraMinimalResponse>,
    pub name: String,
    pub version: i64,
}

/// A user in the short list.
#[derive(Debug, PartialEq, Eq)]
pub struct UserMinimalResponse {
    pub id: String,
    pub cluster_id: Vec<String>,
    pub number: String,
    pub name: String,
    pub role: UserRole,
}

impl View for UserMinimalResponse {
    type V = UserResponseView;

    open spec fn view(&self) -> UserResponseView {
        UserResponseView {
            id: self.id@,
            cluster_id: texts(self.cluster_id@),
            number: self.number@,
            name: self.name@,
            role: self.role,
        }
    }
}

/// Filter of the uniform list.
#[derive(Debug, PartialEq, Eq)]
pub struct UniformQuery {
    pub uniform_id: Option<Vec<String>>,
    pub text: Option<TextFilter>,
}

/// The entries of a list of references, in order.
pub open spec fn pointees<T>(v: Seq<&T>) -> Seq<T> {
    Seq::new(v.len(), |i: int| *v[i])
}

/// The short form of a listed camera.
pub open spec fn camera_minimal(v: ViewCamera) -> CameraMinimalResponse {
    CameraMinimalResponse {
        id: v.id,
        cluster: v.cluster.name,
        processor: v.processor.name,
        address: v.address,
        name: v.name,
        notification_count: v.notification_count,
        violation_count: v.violation_count,
    }
}

/// The short forms of a list of cameras, in order.
pub open spec fn cameras_minimal(v: Seq<ViewCamera>) -> Seq<CameraMinimalResponse> {
    Seq::new(v.len(), |i: int| camera_minimal(v[i]))
}

fn shorten(v: &Vec<ViewCamera>) -> (r: Vec<CameraMinimalResponse>)
    ensures
        r@ == cameras_minimal(v@),
{
    let mut r: Vec<CameraMinimalResponse> = Vec::new();
    let mut i: usize = 0;
    while i < v.len()
        invariant
            i <= v.len(),
            r@.len() == i,
            forall|j: int| 0 <= j < i ==> #[trigger] r@[j] == camera_minimal(v@[j]),
        decreases v.len() - i,
    {
        let c = &v[i];
        r.push(
            CameraMinimalResponse {
                id: c.id.clone(),
                cluster: c.cluster.name.clone(),
                processor: c.processor.name.clone(),
                address: c.address.duplicate(),
                name: c.name.clone(),
                notification_count: c.notification_count,
                violation_count: c.violation_count,
            },
        );
        i += 1;
    }
    assert(r@ =~= cameras_minimal(v@));
    r
}

impl Camera {
    /// Files the camera. Where its identifier is taken, nothing changes
    /// and the answer is `SavingFailed`.
    pub fn save(self, reg: &mut Registry) -> (r: Result<(), EventKind>)
        requires
            old(reg).wf(),
        ensures
            final(reg).wf(),
            match r {
                Ok(_) => !old(reg).camera@.contains_key(self.id@) && final(reg).camera@ == old(reg).camera@.insert(self.id@, self) && (Registry {
                    camera: old(reg).camera,
                    ..*final(reg)
                }) == *old(reg),
                Err(e) => e == EventKind::SavingFailed && old(reg).camera@.contains_key(self.id@)
                    && *final(reg) == *old(reg),
            },
    {
        if reg.camera.contains(&self.id) {
            return Err(EventKind::SavingFailed);
        }
        reg.put_camera(self);
        Ok(())
    }

    /// Removes the camera together with its evidence.
    pub fn delete(&self, reg: &mut Registry) -> (r: Result<(), EventKind>)
        requires
            old(reg).wf(),
        ensures
            final(reg).wf(),
            r.is_ok(),
            final(reg).camera@ == old(reg).camera@.remove(self.id@),
            old(reg).camera@.contains_key(self.id@) ==> final(reg).evidence@ == without_rows_of(
                old(reg).evidence@,
                EvidenceOwner::Camera,
                self.id@,
            ),
            !old(reg).camera@.contains_key(self.id@) ==> *final(reg) == *old(reg),
            final(reg).cluster == old(reg).cluster,
            final(reg).uniform == old(reg).uniform,
            final(reg).processor == old(reg).processor,
            final(reg).user == old(reg).user,
            final(reg).subscriber == old(reg).subscriber,
    {
        let ghost before = reg.camera@;
        let _ = crate::admin::delete_camera(reg, &self.id);
        assert(reg.camera@ =~= before.remove(self.id@));
        Ok(())
    }

    /// The camera `id`, or `NotFound`.
    pub fn find_by_id<'a>(id: &String, reg: &'a Registry) -> (r: Result<&'a Self, EventKind>)
        requires
            reg.wf(),
        ensures
            match r {
                Ok(c) => reg.camera@.contains_key(id@) && *c == reg.camera@[id@],
                Err(e) => e == EventKind::NotFound && !reg.camera@.contains_key(id@),
            },
    {
        match reg.camera.get(id) {
            Some(c) => Ok(c),
            None => Err(EventKind::NotFound),
        }
    }

    /// The short form of the page of the camera list that `query` asks
    /// for. An empty page is answered with `NotFound`.
    pub fn find_many_minimal(query: &CameraQuery, reg: &Registry) -> (r: Result<
        Vec<CameraMinimalResponse>,
        EventKind,
    >)
        requires
            reg.wf(),
        ensures
            match r {
                Ok(v) => v@.len() > 0 && v@ == cameras_minimal(
                    window(
                        cameras_listed(
                            reg.camera.values(),
                            *reg,
                            query.cluster_id,
                            query.processor_id,
                            query.date_minimum,
                            query.date_maximum,
                            query.text,
                        ),
                        query.skip,
                        query.limit,
                    ),
                ),
                Err(e) => e == EventKind::NotFound && window(
                    cameras_listed(
                        reg.camera.values(),
                        *reg,
                        query.cluster_id,
                        query.processor_id,
                        query.date_minimum,
                        query.date_maximum,
                        query.text,
                    ),
                    query.skip,
                    query.limit,
                ).len() == 0,
            },
    {
        match ViewCamera::find_many(query, reg) {
            Ok(page) => Ok(shorten(&page)),
            Err(e) => Err(e),
        }
    }

    /// The cameras on the page of the camera list that `query` asks for,
    /// as the API shows them. An empty page is answered with `NotFound`.
    pub fn find_many(query: &CameraQuery, reg: &Registry) -> (r: Result<Vec<CameraResponse>, EventKind>)
        requires
            reg.wf(),
        ensures
            match r {
                Ok(v) => {
                    let page = window(
                        cameras_listed(
                            reg.camera.values(),
                            *reg,
                            query.cluster_id,
                            query.processor_id,
                            query.date_minimum,
                            query.date_maximum,
                            query.text,
                        ),
                        query.skip,
                        query.limit,
                    );
                    &&& v@.len() > 0
                    &&& v@.len() == page.len()
                    &&& forall|i: int|
                        0 <= i < v@.len() ==> (#[trigger] v@[i]).id == page[i].id && v@[i].cluster_id
                            == page[i].cluster.id && v@[i].processor_id == page[i].processor.id
                            && v@[i].address == page[i].address && v@[i].name == page[i].name
                },
                Err(e) => e == EventKind::NotFound && window(
                    cameras_listed(
                        reg.camera.values(),
                        *reg,
                        query.cluster_id,
                        query.processor_id,
                        query.date_minimum,
                        query.date_maximum,
                        query.text,
                    ),
                    query.skip,
                    query.limit,
                ).len() == 0,
            },
    {
        match ViewCamera::find_many(query, reg) {
            Ok(page) => {
                let mut r: Vec<CameraResponse> = Vec::new();
                let mut i: usize = 0;
                while i < page.len()
                    invariant
                        i <= page.len(),
                        r@.len() == i,
                        forall|j: int|
                            0 <= j < i ==> (#[trigger] r@[j]).id == page@[j].id && r@[j].cluster_id
                                == page@[j].cluster.id && r@[j].processor_id
                                == page@[j].processor.id && r@[j].address == page@[j].address
                                && r@[j].name == page@[j].name,
                    decreases page.len() - i,
                {
                    let c = &page[i];
                    r.push(
                        CameraResponse {
                            id: c.id.clone(),
                            cluster_id: c.cluster.id.clone(),
                            processor_id: c.processor.id.clone(),
                            address: c.address.duplicate(),
                            name: c.name.clone(),
                        },
                    );
                    i += 1;
                }
                Ok(r)
            },
            Err(e) => Err(e),
        }
    }
}

/// Whether `shown` is the short form of the listed cluster `v`: its fields
/// and counts, and the uniforms that the cluster names.
pub open spec fn lists_cluster(shown: ClusterMinimalResponse, v: ViewCluster, reg: Registry) -> bool {
    &&& shown.id == v.id
    &&& shown.name == v.name
    &&& shown.processor_count == v.processor_count
    &&& shown.notification_count == v.notification_count
    &&& shown.violation_count == v.violation_count
    &&& uniform_views(shown.uniform@) == cluster_uniforms(reg.cluster@, reg.uniform@, v.id@)
}

fn with_uniforms(v: &ViewCluster, reg: &Registry) -> (r: ClusterMinimalResponse)
    requires
        reg.wf(),
    ensures
        lists_cluster(r, *v, *reg),
{
    ClusterMinimalResponse {
        id: v.id.clone(),
        uniform: uniforms_of(reg, &v.id),
        name: v.name.clone(),
        processor_count: v.processor_count,
        notification_count: v.notification_count,
        violation_count: v.violation_count,
    }
}

impl Cluster {
    /// The cluster as the API shows it.
    pub fn response(&self) -> (r: ClusterResponse)
        ensures
            r.id == self.id,
            r.name == self.name,
            texts(r.uniform_id@) == texts(self.uniform_id@),
    {
        let mut uniform_id: Vec<String> = Vec::new();
        let mut i: usize = 0;
        while i < self.uniform_id.len()
            invariant
                i <= self.uniform_id.len(),
                uniform_id@.len() == i,
                forall|j: int| 0 <= j < i ==> (#[trigger] uniform_id@[j])@ == self.uniform_id@[j]@,
            decreases self.uniform_id.len() - i,
        {
            uniform_id.push(self.uniform_id[i].clone());
            i += 1;
        }
        assert(texts(uniform_id@) =~= texts(self.uniform_id@));
        ClusterResponse { id: self.id.clone(), uniform_id, name: self.name.clone() }
    }

    /// Files the cluster. Where its identifier is taken, nothing changes
    /// and the answer is `SavingFailed`.
    pub fn save(self, reg: &mut Registry) -> (r: Result<(), EventKind>)
        requires
            old(reg).wf(),
        ensures
            final(reg).wf(),
            match r {
                Ok(_) => !old(reg).cluster@.contains_key(self.id@) && final(reg).cluster@ == old(reg).cluster@.insert(self.id@, self) && (Registry {
                    cluster: old(reg).cluster,
                    ..*final(reg)
                }) == *old(reg),
                Err(e) => e == EventKind::SavingFailed && old(reg).cluster@.contains_key(self.id@)
                    && *final(reg) == *old(reg),
            },
    {
        if reg.cluster.contains(&self.id) {
            return Err(EventKind::SavingFailed);
        }
        reg.put_cluster(self);
        Ok(())
    }

    /// Replaces the stored cluster of the same identifier. Where there is
    /// none, nothing changes.
    pub fn update(self, reg: &mut Registry) -> (r: Result<(), EventKind>)
        requires
            old(reg).wf(),
        ensures
            final(reg).wf(),
            r.is_ok(),
            old(reg).cluster@.contains_key(self.id@) ==> final(reg).cluster@ == old(reg).cluster@.insert(self.id@, self) && (Registry {
                cluster: old(reg).cluster,
                ..*final(reg)
            }) == *old(reg),
            !old(reg).cluster@.contains_key(self.id@) ==> *final(reg) == *old(reg),
    {
        if reg.cluster.contains(&self.id) {
            reg.put_cluster(self);
        }
        Ok(())
    }

    /// Removes the cluster.
    pub fn delete(&self, reg: &mut Registry) -> (r: Result<(), EventKind>)
        requires
            old(reg).wf(),
        ensures
            final(reg).wf(),
            r.is_ok(),
            final(reg).cluster@ == old(reg).cluster@.remove(self.id@),
            (Registry { cluster: old(reg).cluster, ..*final(reg) }) == *old(reg),
    {
        let _ = reg.cluster.remove(&self.id);
        Ok(())
    }

    /// The cluster `id`, or `NotFound`.
    pub fn find_by_id<'a>(id: &String, reg: &'a Registry) -> (r: Result<&'a Self, EventKind>)
        requires
            reg.wf(),
        ensures
            match r {
                Ok(c) => reg.cluster@.contains_key(id@) && *c == reg.cluster@[id@],
                Err(e) => e == EventKind::NotFound && !reg.cluster@.contains_key(id@),
            },
    {
        reg.find_cluster(id)
    }

    /// Every cluster, in the order of the store; `NotFound` where there is
    /// none.
    pub fn find_all<'a>(reg: &'a Registry) -> (r: Result<Vec<&'a Self>, EventKind>)
        requires
            reg.wf(),
        ensures
            match r {
                Ok(v) => v@.len() > 0 && pointees(v@) == reg.cluster.values(),
                Err(e) => e == EventKind::NotFound && reg.cluster.values().len() == 0,
            },
    {
        let mut r: Vec<&Cluster> = Vec::new();
        let n = reg.cluster.len();
        let mut i: usize = 0;
        while i < n
            invariant
                reg.wf(),
                n == reg.cluster.keys().len(),
                i <= n,
                r@.len() == i,
                forall|j: int| 0 <= j < i ==> *(#[trigger] r@[j]) == reg.cluster.values()[j],
            decreases n - i,
        {
            r.push(reg.cluster.value_at(i));
            i += 1;
        }
        if r.len() > 0 {
            assert(pointees(r@) =~= reg.cluster.values());
            Ok(r)
        } else {
            Err(EventKind::NotFound)
        }
    }

    /// The short form of the cluster list that `query` asks for: each
    /// cluster with its counts and with the uniforms it names. Where the
    /// query admits no cluster, the answer is `NotFound`.
    pub fn find_many_minimal(query: &ClusterQuery, reg: &Registry) -> (r: Result<
        Vec<ClusterMinimalResponse>,
        EventKind,
    >)
        requires
            reg.wf(),
        ensures
            match r {
                Ok(v) => {
                    let listed = clusters_listed(
                        reg.cluster.values(),
                        *reg,
                        query.cluster_id,
                        query.date_minimum,
                        query.date_maximum,
                        query.text,
                    );
                    &&& v@.len() > 0
                    &&& v@.len() == listed.len()
                    &&& forall|i: int|
                        0 <= i < v@.len() ==> lists_cluster(#[trigger] v@[i], listed[i], *reg)
                },
                Err(e) => e == EventKind::NotFound && clusters_listed(
                    reg.cluster.values(),
                    *reg,
                    query.cluster_id,
                    query.date_minimum,
                    query.date_maximum,
                    query.text,
                ).len() == 0,
            },
    {
        match ViewCluster::find_many(query, reg) {
            Ok(listed) => {
                let mut r: Vec<ClusterMinimalResponse> = Vec::new();
                let mut i: usize = 0;
                while i < listed.len()
                    invariant
                        reg.wf(),
                        i <= listed.len(),
                        r@.len() == i,
                        forall|j: int|
                            0 <= j < i ==> lists_cluster(#[trigger] r@[j], listed@[j], *reg),
                    decreases listed.len() - i,
                {
                    r.push(with_uniforms(&listed[i], reg));
                    i += 1;
                }
                Ok(r)
            },
            Err(e) => Err(e),
        }
    }

    /// The short form of the first cluster that `query` admits, or
    /// `NotFound`.
    pub fn find_one_minimal(query: &ClusterQuery, reg: &Registry) -> (r: Result<
        ClusterMinimalResponse,
        EventKind,
    >)
        requires
            reg.wf(),
        ensures
            match r {
                Ok(shown) => clusters_listed(
                    reg.cluster.values(),
                    *reg,
                    query.cluster_id,
                    query.date_minimum,
                    query.date_maximum,
                    query.text,
                ).len() > 0 && lists_cluster(
                    shown,
                    clusters_listed(
                        reg.cluster.values(),
                        *reg,
                        query.cluster_id,
                        query.date_minimum,
                        query.date_maximum,
                        query.text,
                    )[0],
                    *reg,
                ),
                Err(e) => e == EventKind::NotFound && clusters_listed(
                    reg.cluster.values(),
                    *reg,
                    query.cluster_id,
                    query.date_minimum,
                    query.date_maximum,
                    query.text,
                ).len() == 0,
            },
    {
        match ViewCluster::find_one(query, reg) {
            Ok(first) => Ok(with_uniforms(&first, reg)),
            Err(e) => Err(e),
        }
    }
}

/// Whether `shown` is the short form of processor `p`: its fields, the name
/// of its cluster, and the short forms of its cameras with their counts
/// over the range.
pub open spec fn lists_processor_minimal(
    shown: ProcessorMinimalResponse,
    p: Processor,
    reg: Registry,
    min: Option<i64>,
    max: Option<i64>,
) -> bool {
    &&& shown.id == p.id
    &&& shown.cluster@ == crate::views::cluster_name(reg, p.cluster_id@)
    &&& shown.address == p.address
    &&& shown.name == p.name
    &&& shown.version == p.version
    &&& shown.camera@ == cameras_minimal(
        cameras_listed(reg.camera.values(), reg, None, Some(p.id), min, max, None),
    )
}

impl ProcessorMinimalResponse {
    /// The short form of a processor: the name of its cluster, or the
    /// identifier where the store does not know the cluster, and its
    /// cameras.
    pub fn from(p: &Processor, reg: &Registry) -> (r: Self)
        requires
            reg.wf(),
        ensures
            lists_processor_minimal(r, *p, *reg, None, None),
    {
        Processor::shorten(p, reg, None, None)
    }
}

impl Processor {
    fn shorten(p: &Processor, reg: &Registry, min: Option<i64>, max: Option<i64>) -> (r:
        ProcessorMinimalResponse)
        requires
            reg.wf(),
        ensures
            lists_processor_minimal(r, *p, *reg, min, max),
    {
        let cluster = match reg.cluster.get(&p.cluster_id) {
            Some(c) => c.name.clone(),
            None => p.cluster_id.clone(),
        };
        let query = CameraQuery {
            cluster_id: None,
            processor_id: Some(p.id.clone()),
            date_minimum: min,
            date_maximum: max,
            text: None,
            limit: None,
            skip: None,
        };
        let ghost all = cameras_listed(reg.camera.values(), *reg, None, Some(p.id), min, max, None);
        assert(window(all, None, None) =~= all);
        let camera = match Camera::find_many_minimal(&query, reg) {
            Ok(v) => v,
            Err(_) => {
                let none: Vec<CameraMinimalResponse> = Vec::new();
                assert(none@ =~= cameras_minimal(all));
                none
            },
        };
        ProcessorMinimalResponse {
            id: p.id.clone(),
            cluster,
            address: p.address,
            camera,
            name: p.name.clone(),
            version: p.version,
        }
    }

    /// Files the processor. Where its identifier is taken, nothing changes
    /// and the answer is `SavingFailed`.
    pub fn save(self, reg: &mut Registry) -> (r: Result<(), EventKind>)
        requires
            old(reg).wf(),
        ensures
            final(reg).wf(),
            match r {
                Ok(_) => !old(reg).processor@.contains_key(self.id@) && final(reg).processor@
                    == old(reg).processor@.insert(self.id@, self) && (Registry {
                    processor: old(reg).processor,
                    ..*final(reg)
                }) == *old(reg),
                Err(e) => e == EventKind::SavingFailed && old(reg).processor@.contains_key(
                    self.id@,
                ) && *final(reg) == *old(reg),
            },
    {
        if reg.processor.contains(&self.id) {
            return Err(EventKind::SavingFailed);
        }
        reg.put_processor(self);
        Ok(())
    }

    /// Removes the processor together with its evidence.
    pub fn delete(&self, reg: &mut Registry) -> (r: Result<(), EventKind>)
        requires
            old(reg).wf(),
        ensures
            final(reg).wf(),
            r.is_ok(),
            final(reg).processor@ == old(reg).processor@.remove(self.id@),
            old(reg).processor@.contains_key(self.id@) ==> final(reg).evidence@
                == without_rows_of(old(reg).evidence@, EvidenceOwner::Processor, self.id@),
            !old(reg).processor@.contains_key(self.id@) ==> *final(reg) == *old(reg),
            final(reg).cluster == old(reg).cluster,
            final(reg).uniform == old(reg).uniform,
            final(reg).camera == old(reg).camera,
            final(reg).user == old(reg).user,
            final(reg).subscriber == old(reg).subscriber,
    {
        let ghost before = reg.processor@;
        let _ = crate::admin::delete_processor(reg, &self.id);
        assert(reg.processor@ =~= before.remove(self.id@));
        Ok(())
    }

    /// The processor `id`, or `NotFound`.
    pub fn find_by_id<'a>(id: &String, reg: &'a Registry) -> (r: Result<&'a Self, EventKind>)
        requires
            reg.wf(),
        ensures
            match r {
                Ok(p) => reg.processor@.contains_key(id@) && *p == reg.processor@[id@],
                Err(e) => e == EventKind::NotFound && !reg.processor@.contains_key(id@),
            },
    {
        reg.find_processor(id)
    }

    /// The short form of the page of the processor list that `query` asks
    /// for. An empty page is answered with `NotFound`.
    pub fn find_many_minimal(query: &ProcessorQuery, reg: &Registry) -> (r: Result<
        Vec<ProcessorMinimalResponse>,
        EventKind,
    >)
        requires
            reg.wf(),
        ensures
            match r {
                Ok(v) => {
                    let page = window(
                        processors_admitted(reg.processor.values(), *query),
                        query.skip,
                        query.limit,
                    );
                    &&& v@.len() > 0
                    &&& v@.len() == page.len()
                    &&& forall|i: int|
                        0 <= i < v@.len() ==> lists_processor_minimal(
                            #[trigger] v@[i],
                            page[i],
                            *reg,
                            query.date_minimum,
                            query.date_maximum,
                        )
                },
                Err(e) => e == EventKind::NotFound && window(
                    processors_admitted(reg.processor.values(), *query),
                    query.skip,
                    query.limit,
                ).len() == 0,
            },
    {
        let mut admitted: Vec<&Processor> = Vec::new();
        let n = reg.processor.len();
        let mut i: usize = 0;
        assert(reg.processor.values().take(0) =~= Seq::<Processor>::empty());
        while i < n
            invariant
                reg.wf(),
                n == reg.processor.keys().len(),
                i <= n,
                pointees(admitted@) == processors_admitted(
                    reg.processor.values().take(i as int),
                    *query,
                ),
            decreases n - i,
        {
            let p = reg.processor.value_at(i);
            proof {
                let next = reg.processor.values().take(i as int + 1);
                assert(next.drop_last() =~= reg.processor.values().take(i as int));
                assert(next.last() == *p);
            }
            if query.matches(p) {
                let ghost prev = admitted@;
                admitted.push(p);
                assert(pointees(admitted@) =~= pointees(prev).push(*p));
            }
            i += 1;
        }
        assert(reg.processor.values().take(n as int) =~= reg.processor.values());
        let ghost listed = processors_admitted(reg.processor.values(), *query);
        let ghost before = admitted@;
        let page = crate::queries::paginate(admitted, query.skip, query.limit);
        let ghost wanted = window(listed, query.skip, query.limit);
        proof {
            assert(pointees(before) == listed);
            assert(pointees(page@) =~= wanted) by {
                assert(page@.len() == wanted.len());
                assert forall|j: int| 0 <= j < page@.len() implies *page@[j] == wanted[j] by {
                    let from = if query.skip.is_some() && query.skip.unwrap() < before.len() {
                        query.skip.unwrap() as int
                    } else if query.skip.is_some() {
                        before.len() as int
                    } else {
                        0
                    };
                    assert(page@[j] == before[from + j]);
                    assert(wanted[j] == listed[from + j]);
                    assert(pointees(before)[from + j] == *before[from + j]);
                }
            }
        }
        let mut r: Vec<ProcessorMinimalResponse> = Vec::new();
        let mut k: usize = 0;
        while k < page.len()
            invariant
                reg.wf(),
                k <= page.len(),
                pointees(page@) == wanted,
                r@.len() == k,
                forall|j: int|
                    0 <= j < k ==> lists_processor_minimal(
                        #[trigger] r@[j],
                        wanted[j],
                        *reg,
                        query.date_minimum,
                        query.date_maximum,
                    ),
            decreases page.len() - k,
        {
            assert(pointees(page@)[k as int] == *page@[k as int]);
            r.push(Processor::shorten(page[k], reg, query.date_minimum, query.date_maximum));
            k += 1;
        }
        if r.len() > 0 {
            Ok(r)
        } else {
            Err(EventKind::NotFound)
        }
    }
}

/// The subscribers among `subs` that belong to `user`, in order.
pub open spec fn owned_by(subs: Seq<Subscriber>, user: Seq<char>) -> Seq<Subscriber>
    decreases subs.len(),
{
    if subs.len() == 0 {
        Seq::empty()
    } else if subs.last().user_id@ == user {
        owned_by(subs.drop_last(), user).push(subs.last())
    } else {
        owned_by(subs.drop_last(), user)
    }
}

impl Subscriber {
    /// Files the subscriber. Where its identifier is taken, nothing
    /// changes and the answer is `SavingFailed`.
    pub fn save(self, reg: &mut Registry) -> (r: Result<(), EventKind>)
        requires
            old(reg).wf(),
        ensures
            final(reg).wf(),
            match r {
                Ok(_) => !old(reg).subscriber@.contains_key(self.id@) && final(reg).subscriber@
                    == old(reg).subscriber@.insert(self.id@, self) && (Registry {
                    subscriber: old(reg).subscriber,
                    ..*final(reg)
                }) == *old(reg),
                Err(e) => e == EventKind::SavingFailed && old(reg).subscriber@.contains_key(
                    self.id@,
                ) && *final(reg) == *old(reg),
            },
    {
        if reg.subscriber.contains(&self.id) {
            return Err(EventKind::SavingFailed);
        }
        reg.put_subscriber(self);
        Ok(())
    }

    /// Replaces the stored subscriber of the same identifier. Where there
    /// is none, nothing changes.
    pub fn update(self, reg: &mut Registry) -> (r: Result<(), EventKind>)
        requires
            old(reg).wf(),
        ensures
            final(reg).wf(),
            r.is_ok(),
            old(reg).subscriber@.contains_key(self.id@) ==> final(reg).subscriber@ == old(reg).subscriber@.insert(self.id@, self) && (Registry {
                subscriber: old(reg).subscriber,
                ..*final(reg)
            }) == *old(reg),
            !old(reg).subscriber@.contains_key(self.id@) ==> *final(reg) == *old(reg),
    {
        if reg.subscriber.contains(&self.id) {
            reg.put_subscriber(self);
        }
        Ok(())
    }

    /// Removes the subscriber.
    pub fn delete(&self, reg: &mut Registry) -> (r: Result<(), EventKind>)
        requires
            old(reg).wf(),
        ensures
            final(reg).wf(),
            r.is_ok(),
            final(reg).subscriber@ == old(reg).subscriber@.remove(self.id@),
            (Registry { subscriber: old(reg).subscriber, ..*final(reg) }) == *old(reg),
    {
        let _ = reg.subscriber.remove(&self.id);
        Ok(())
    }

    /// The subscriber `id`, or `NotFound`.
    pub fn find_by_id<'a>(id: &String, reg: &'a Registry) -> (r: Result<&'a Self, EventKind>)
        requires
            reg.wf(),
        ensures
            match r {
                Ok(s) => reg.subscriber@.contains_key(id@) && *s == reg.subscriber@[id@],
                Err(e) => e == EventKind::NotFound && !reg.subscriber@.contains_key(id@),
            },
    {
        match reg.subscriber.get(id) {
            Some(s) => Ok(s),
            None => Err(EventKind::NotFound),
        }
    }

    /// The first subscriber that holds the token of `kind`, or `NotFound`.
    pub fn find_by_kind<'a>(kind: &SubscriberKind, reg: &'a Registry) -> (r: Result<
        &'a Self,
        EventKind,
    >)
        requires
            reg.wf(),
        ensures
            match r {
                Ok(s) => first_with_token(reg.subscriber.values(), token_of(*kind)) matches Some(
                    i,
                ) && 0 <= i < reg.subscriber.values().len() && *s == reg.subscriber.values()[i],
                Err(e) => e == EventKind::NotFound && first_with_token(
                    reg.subscriber.values(),
                    token_of(*kind),
                ).is_none(),
            },
    {
        match crate::admin::find_by_kind(reg, kind) {
            Some(i) => Ok(reg.subscriber.value_at(i)),
            None => Err(EventKind::NotFound),
        }
    }

    /// The subscribers of `user`, in the order of the store; `NotFound`
    /// where the user has none.
    pub fn find_many_by_user_id<'a>(user: &String, reg: &'a Registry) -> (r: Result<
        Vec<&'a Self>,
        EventKind,
    >)
        requires
            reg.wf(),
        ensures
            match r {
                Ok(v) => v@.len() > 0 && pointees(v@) == owned_by(reg.subscriber.values(), user@),
                Err(e) => e == EventKind::NotFound && owned_by(
                    reg.subscriber.values(),
                    user@,
                ).len() == 0,
            },
    {
        let mut r: Vec<&Subscriber> = Vec::new();
        let n = reg.subscriber.len();
        let mut i: usize = 0;
        assert(reg.subscriber.values().take(0) =~= Seq::<Subscriber>::empty());
        assert(pointees(r@) =~= Seq::<Subscriber>::empty());
        while i < n
            invariant
                reg.wf(),
                n == reg.subscriber.keys().len(),
                i <= n,
                pointees(r@) == owned_by(reg.subscriber.values().take(i as int), user@),
            decreases n - i,
        {
            let s = reg.subscriber.value_at(i);
            proof {
                let next = reg.subscriber.values().take(i as int + 1);
                assert(next.drop_last() =~= reg.subscriber.values().take(i as int));
                assert(next.last() == *s);
            }
            if s.user_id == *user {
                let ghost prev = r@;
                r.push(s);
                assert(pointees(r@) =~= pointees(prev).push(*s));
            }
            i += 1;
        }
        assert(reg.subscriber.values().take(n as int) =~= reg.subscriber.values());
        if r.len() > 0 {
            Ok(r)
        } else {
            Err(EventKind::NotFound)
        }
    }
}

/// The uniforms among `us` that the filter admits, in order.
pub open spec fn uniforms_listed(us: Seq<Uniform>, filter: Option<Vec<String>>, text: Option<TextFilter>) -> Seq<UniformView>
    decreases us.len(),
{
    if us.len() == 0 {
        Seq::empty()
    } else if (filter matches Some(ids) ==> texts(ids@).contains(us.last().id@)) && text_passes(
        text,
        us.last().id@,
    ) {
        uniforms_listed(us.drop_last(), filter, text).push(us.last()@)
    } else {
        uniforms_listed(us.drop_last(), filter, text)
    }
}

impl Uniform {
    /// Files the uniform. Where its identifier is taken, nothing changes
    /// and the answer is `SavingFailed`.
    pub fn save(self, reg: &mut Registry) -> (r: Result<(), EventKind>)
        requires
            old(reg).wf(),
        ensures
            final(reg).wf(),
            match r {
                Ok(_) => !old(reg).uniform@.contains_key(self.id@) && final(reg).uniform@ == old(reg).uniform@.insert(self.id@, self) && (Registry {
                    uniform: old(reg).uniform,
                    ..*final(reg)
                }) == *old(reg),
                Err(e) => e == EventKind::SavingFailed && old(reg).uniform@.contains_key(self.id@)
                    && *final(reg) == *old(reg),
            },
    {
        if reg.uniform.contains(&self.id) {
            return Err(EventKind::SavingFailed);
        }
        reg.put_uniform(self);
        Ok(())
    }

    /// Replaces the stored uniform of the same identifier. Where there is
    /// none, nothing changes.
    pub fn update(self, reg: &mut Registry) -> (r: Result<(), EventKind>)
        requires
            old(reg).wf(),
        ensures
            final(reg).wf(),
            r.is_ok(),
            old(reg).uniform@.contains_key(self.id@) ==> final(reg).uniform@ == old(reg).uniform@.insert(self.id@, self) && (Registry {
                uniform: old(reg).uniform,
                ..*final(reg)
            }) == *old(reg),
            !old(reg).uniform@.contains_key(self.id@) ==> *final(reg) == *old(reg),
    {
        if reg.uniform.contains(&self.id) {
            reg.put_uniform(self);
        }
        Ok(())
    }

    /// Removes the uniform.
    pub fn delete(&self, reg: &mut Registry) -> (r: Result<(), EventKind>)
        requires
            old(reg).wf(),
        ensures
            final(reg).wf(),
            r.is_ok(),
            final(reg).uniform@ == old(reg).uniform@.remove(self.id@),
            (Registry { uniform: old(reg).uniform, ..*final(reg) }) == *old(reg),
    {
        let _ = reg.uniform.remove(&self.id);
        Ok(())
    }

    /// The uniform `id`, or `NotFound`.
    pub fn find_by_id<'a>(id: &String, reg: &'a Registry) -> (r: Result<&'a Self, EventKind>)
        requires
            reg.wf(),
        ensures
            match r {
                Ok(u) => reg.uniform@.contains_key(id@) && *u == reg.uniform@[id@],
                Err(e) => e == EventKind::NotFound && !reg.uniform@.contains_key(id@),
            },
    {
        match reg.uniform.get(id) {
            Some(u) => Ok(u),
            None => Err(EventKind::NotFound),
        }
    }

    /// The uniforms of the store that `query` admits, in the order of the
    /// store, as the API shows them; `NotFound` where it admits none.
    pub fn find_many(query: &UniformQuery, reg: &Registry) -> (r: Result<
        Vec<UniformResponse>,
        EventKind,
    >)
        requires
            reg.wf(),
        ensures
            match r {
                Ok(v) => v@.len() > 0 && uniform_views(v@) == uniforms_listed(
                    reg.uniform.values(),
                    query.uniform_id,
                    query.text,
                ),
                Err(e) => e == EventKind::NotFound && uniforms_listed(
                    reg.uniform.values(),
                    query.uniform_id,
                    query.text,
                ).len() == 0,
            },
    {
        let mut r: Vec<UniformResponse> = Vec::new();
        let n = reg.uniform.len();
        let mut i: usize = 0;
        assert(reg.uniform.values().take(0) =~= Seq::<Uniform>::empty());
        assert(uniform_views(r@) =~= Seq::<UniformView>::empty());
        while i < n
            invariant
                reg.wf(),
                n == reg.uniform.keys().len(),
                i <= n,
                uniform_views(r@) == uniforms_listed(
                    reg.uniform.values().take(i as int),
                    query.uniform_id,
                    query.text,
                ),
            decreases n - i,
        {
            let u = reg.uniform.value_at(i);
            proof {
                let next = reg.uniform.values().take(i as int + 1);
                assert(next.drop_last() =~= reg.uniform.values().take(i as int));
                assert(next.last() == *u);
            }
            let listed = match &query.uniform_id {
                Some(ids) => holds_id(ids, &u.id),
                None => true,
            };
            let passes = listed && passes_text(&query.text, &u.id);
            if passes {
                let ghost prev = r@;
                r.push(u.response());
                assert(uniform_views(r@) =~= uniform_views(prev).push(u@));
            }
            i += 1;
        }
        assert(reg.uniform.values().take(n as int) =~= reg.uniform.values());
        if r.len() > 0 {
            Ok(r)
        } else {
            Err(EventKind::NotFound)
        }
    }

    /// Every uniform of the store, as the API shows it; `NotFound` where
    /// there is none.
    pub fn find_all(reg: &Registry) -> (r: Result<Vec<UniformResponse>, EventKind>)
        requires
            reg.wf(),
        ensures
            match r {
                Ok(v) => v@.len() > 0 && uniform_views(v@) == uniforms_listed(
                    reg.uniform.values(),
                    None,
                    None,
                ),
                Err(e) => e == EventKind::NotFound && uniforms_listed(
                    reg.uniform.values(),
                    None,
                    None,
                ).len() == 0,
            },
    {
        let query = UniformQuery { uniform_id: None, text: None };
        Uniform::find_many(&query, reg)
    }
}

/// The users among `us` who are told of evidence from `cluster`, in order.
pub open spec fn hearers(us: Seq<User>, cluster: Seq<char>) -> Seq<User>
    decreases us.len(),
{
    if us.len() == 0 {
        Seq::empty()
    } else if hears(us.last(), cluster) {
        hearers(us.drop_last(), cluster).push(us.last())
    } else {
        hearers(us.drop_last(), cluster)
    }
}

/// The short forms of a list of users, in order.
pub open spec fn user_views(v: Seq<UserMinimalResponse>) -> Seq<UserResponseView> {
    Seq::new(v.len(), |i: int| v[i]@)
}

/// The short forms of the users `us`, in order.
pub open spec fn users_shown(us: Seq<User>) -> Seq<UserResponseView> {
    Seq::new(us.len(), |i: int| crate::accounts::shown(us[i]))
}

impl User {
    /// Files the user with `hash` as the stored password. Where the
    /// identifier is taken or there is no hash, nothing changes and the
    /// answer is `SavingFailed`.
    pub fn save_hashed(self, hash: Option<String>, reg: &mut Registry) -> (r: Result<(), EventKind>)
        requires
            old(reg).wf(),
        ensures
            final(reg).wf(),
            (Registry { user: old(reg).user, ..*final(reg) }) == *old(reg),
            match r {
                Ok(_) => hash.is_some() && !old(reg).user@.contains_key(self.id@)
                    && final(reg).user@ == old(reg).user@.insert(
                    self.id@,
                    User { password: hash.unwrap(), ..self },
                ),
                Err(e) => e == EventKind::SavingFailed && (hash.is_none() || old(reg).user@.contains_key(self.id@)) && *final(reg) == *old(reg),
            },
    {
        let password = match hash {
            Some(h) => h,
            None => {
                return Err(EventKind::SavingFailed);
            },
        };
        if reg.user.contains(&self.id) {
            return Err(EventKind::SavingFailed);
        }
        let mut user = self;
        user.password = password;
        reg.put_user(user);
        Ok(())
    }

    /// Files the user with the hash of its password in place of the
    /// password; the password fits what is stored. Where the password
    /// cannot be hashed or the identifier is taken, nothing changes and the
    /// answer is `SavingFailed`.
    pub fn save(self, reg: &mut Registry) -> (r: Result<(), EventKind>)
        requires
            old(reg).wf(),
        ensures
            final(reg).wf(),
            (Registry { user: old(reg).user, ..*final(reg) }) == *old(reg),
            match r {
                Ok(_) => !old(reg).user@.contains_key(self.id@) && final(reg).user@.contains_key(
                    self.id@,
                ) && final(reg).user@.remove(self.id@) == old(reg).user@ && self == (User {
                    password: self.password,
                    ..final(reg).user@[self.id@]
                }) && password_fits(self.password@, final(reg).user@[self.id@].password@),
                Err(e) => e == EventKind::SavingFailed && *final(reg) == *old(reg),
            },
    {
        let hash = bcrypt_hash(&self.password);
        let ghost before = reg.user@;
        let ghost id = self.id@;
        let r = self.save_hashed(hash, reg);
        proof {
            if r.is_ok() {
                assert(reg.user@.remove(id) =~= before);
            }
        }
        r
    }

    /// Replaces the stored user of the same identifier, with `hash` as the
    /// stored password where one is given. Where there is no such user,
    /// nothing changes.
    pub fn update_hashed(self, hash: Option<String>, reg: &mut Registry) -> (r: Result<(), EventKind>)
        requires
            old(reg).wf(),
        ensures
            final(reg).wf(),
            r.is_ok(),
            (Registry { user: old(reg).user, ..*final(reg) }) == *old(reg),
            old(reg).user@.contains_key(self.id@) ==> final(reg).user@ == old(reg).user@.insert(
                self.id@,
                match hash {
                    Some(h) => User { password: h, ..self },
                    None => self,
                },
            ),
            !old(reg).user@.contains_key(self.id@) ==> *final(reg) == *old(reg),
    {
        if !reg.user.contains(&self.id) {
            return Ok(());
        }
        let mut user = self;
        match hash {
            Some(h) => {
                user.password = h;
            },
            None => {},
        }
        reg.put_user(user);
        Ok(())
    }

    /// Replaces the stored user of the same identifier. Where a new
    /// password is given and can be hashed, its hash becomes the stored
    /// password, and the new password fits it; otherwise the password of
    /// the user given is stored as it is.
    pub fn update(self, password: Option<String>, reg: &mut Registry) -> (r: Result<(), EventKind>)
        requires
            old(reg).wf(),
        ensures
            final(reg).wf(),
            r.is_ok(),
            (Registry { user: old(reg).user, ..*final(reg) }) == *old(reg),
            !old(reg).user@.contains_key(self.id@) ==> *final(reg) == *old(reg),
            old(reg).user@.contains_key(self.id@) ==> final(reg).user@.contains_key(self.id@)
                && final(reg).user@.remove(self.id@) == old(reg).user@.remove(self.id@) && self
                == (User { password: self.password, ..final(reg).user@[self.id@] }),
            old(reg).user@.contains_key(self.id@) && password.is_none() ==> final(reg).user@[self.id@] == self,
            old(reg).user@.contains_key(self.id@) ==> final(reg).user@[self.id@].password
                == self.password || (password matches Some(p) && password_fits(
                p@,
                final(reg).user@[self.id@].password@,
            )),
    {
        let hash = match &password {
            Some(p) => bcrypt_hash(p),
            None => None,
        };
        let ghost before = reg.user@;
        let ghost id = self.id@;
        let r = self.update_hashed(hash, reg);
        proof {
            if before.contains_key(id) {
                assert(reg.user@.remove(id) =~= before.remove(id));
            }
        }
        r
    }

    /// Removes the user.
    pub fn delete(&self, reg: &mut Registry)
        requires
            old(reg).wf(),
        ensures
            final(reg).wf(),
            final(reg).user@ == old(reg).user@.remove(self.id@),
            (Registry { user: old(reg).user, ..*final(reg) }) == *old(reg),
    {
        let _ = reg.user.remove(&self.id);
    }

    /// The user `id`; `SavingFailed` where there is none.
    pub fn find_by_id<'a>(id: &String, reg: &'a Registry) -> (r: Result<&'a Self, EventKind>)
        requires
            reg.wf(),
        ensures
            match r {
                Ok(u) => reg.user@.contains_key(id@) && *u == reg.user@[id@],
                Err(e) => e == EventKind::SavingFailed && !reg.user@.contains_key(id@),
            },
    {
        match reg.user.get(id) {
            Some(u) => Ok(u),
            None => Err(EventKind::SavingFailed),
        }
    }

    /// The first user with the given number; `SavingFailed` where there is
    /// none.
    pub fn find_by_number<'a>(number: &String, reg: &'a Registry) -> (r: Result<
        &'a Self,
        EventKind,
    >)
        requires
            reg.wf(),
        ensures
            match r {
                Ok(u) => first_with_number(reg.user.values(), number@) matches Some(i) && 0 <= i
                    < reg.user.values().len() && *u == reg.user.values()[i],
                Err(e) => e == EventKind::SavingFailed && first_with_number(
                    reg.user.values(),
                    number@,
                ).is_none(),
            },
    {
        match crate::accounts::find_by_number(reg, number) {
            Some(i) => Ok(reg.user.value_at(i)),
            None => Err(EventKind::SavingFailed),
        }
    }

    /// Every user, in the order of the store; `NotFound` where there is
    /// none.
    pub fn find_all<'a>(reg: &'a Registry) -> (r: Result<Vec<&'a Self>, EventKind>)
        requires
            reg.wf(),
        ensures
            match r {
                Ok(v) => v@.len() > 0 && pointees(v@) == reg.user.values(),
                Err(e) => e == EventKind::NotFound && reg.user.values().len() == 0,
            },
    {
        let mut r: Vec<&User> = Vec::new();
        let n = reg.user.len();
        let mut i: usize = 0;
        while i < n
            invariant
                reg.wf(),
                n == reg.user.keys().len(),
                i <= n,
                r@.len() == i,
                forall|j: int| 0 <= j < i ==> *(#[trigger] r@[j]) == reg.user.values()[j],
            decreases n - i,
        {
            r.push(reg.user.value_at(i));
            i += 1;
        }
        if r.len() > 0 {
            assert(pointees(r@) =~= reg.user.values());
            Ok(r)
        } else {
            Err(EventKind::NotFound)
        }
    }

    /// The users who are told of evidence from `cluster`: its members and
    /// every super admin, in the order of the store; `NotFound` where there
    /// is none.
    pub fn find_many_by_cluster_id<'a>(cluster: &String, reg: &'a Registry) -> (r: Result<
        Vec<&'a Self>,
        EventKind,
    >)
        requires
            reg.wf(),
        ensures
            match r {
                Ok(v) => v@.len() > 0 && pointees(v@) == hearers(reg.user.values(), cluster@),
                Err(e) => e == EventKind::NotFound && hearers(reg.user.values(), cluster@).len()
                    == 0,
            },
    {
        let mut r: Vec<&User> = Vec::new();
        let n = reg.user.len();
        let mut i: usize = 0;
        assert(reg.user.values().take(0) =~= Seq::<User>::empty());
        assert(pointees(r@) =~= Seq::<User>::empty());
        while i < n
            invariant
                reg.wf(),
                n == reg.user.keys().len(),
                i <= n,
                pointees(r@) == hearers(reg.user.values().take(i as int), cluster@),
            decreases n - i,
        {
            let u = reg.user.value_at(i);
            proof {
                let next = reg.user.values().take(i as int + 1);
                assert(next.drop_last() =~= reg.user.values().take(i as int));
                assert(next.last() == *u);
            }
            if user_hears(u, cluster) {
                let ghost prev = r@;
                r.push(u);
                assert(pointees(r@) =~= pointees(prev).push(*u));
            }
            i += 1;
        }
        assert(reg.user.values().take(n as int) =~= reg.user.values());
        if r.len() > 0 {
            Ok(r)
        } else {
            Err(EventKind::NotFound)
        }
    }

    /// The short form of the page of the user list that `query` asks for.
    /// An empty page is answered with `NotFound`.
    pub fn find_many_minimal(query: &UserQuery, reg: &Registry) -> (r: Result<
        Vec<UserMinimalResponse>,
        EventKind,
    >)
        requires
            reg.wf(),
        ensures
            match r {
                Ok(v) => v@.len() > 0 && user_views(v@) == users_shown(
                    window(users_admitted(reg.user.values(), *query), query.skip, query.limit),
                ),
                Err(e) => e == EventKind::NotFound && window(
                    users_admitted(reg.user.values(), *query),
                    query.skip,
                    query.limit,
                ).len() == 0,
            },
    {
        let mut admitted: Vec<&User> = Vec::new();
        let n = reg.user.len();
        let mut i: usize = 0;
        assert(reg.user.values().take(0) =~= Seq::<User>::empty());
        assert(pointees(admitted@) =~= Seq::<User>::empty());
        while i < n
            invariant
                reg.wf(),
                n == reg.user.keys().len(),
                i <= n,
                pointees(admitted@) == users_admitted(reg.user.values().take(i as int), *query),
            decreases n - i,
        {
            let u = reg.user.value_at(i);
            proof {
                let next = reg.user.values().take(i as int + 1);
                assert(next.drop_last() =~= reg.user.values().take(i as int));
                assert(next.last() == *u);
            }
            if query.matches(u) {
                let ghost prev = admitted@;
                admitted.push(u);
                assert(pointees(admitted@) =~= pointees(prev).push(*u));
            }
            i += 1;
        }
        assert(reg.user.values().take(n as int) =~= reg.user.values());
        let ghost listed = users_admitted(reg.user.values(), *query);
        let ghost before = admitted@;
        let page = crate::queries::paginate(admitted, query.skip, query.limit);
        let ghost wanted = window(listed, query.skip, query.limit);
        proof {
            assert(pointees(page@) =~= wanted) by {
                assert(page@.len() == wanted.len());
                assert forall|j: int| 0 <= j < page@.len() implies *page@[j] == wanted[j] by {
                    let from = if query.skip.is_some() && query.skip.unwrap() < before.len() {
                        query.skip.unwrap() as int
                    } else if query.skip.is_some() {
                        before.len() as int
                    } else {
                        0
                    };
                    assert(page@[j] == before[from + j]);
                    assert(wanted[j] == listed[from + j]);
                    assert(pointees(before)[from + j] == *before[from + j]);
                }
            }
        }
        let mut r: Vec<UserMinimalResponse> = Vec::new();
        let mut k: usize = 0;
        while k < page.len()
            invariant
                k <= page.len(),
                pointees(page@) == wanted,
                r@.len() == k,
                forall|j: int| 0 <= j < k ==> (#[trigger] r@[j])@ == crate::accounts::shown(wanted[j]),
            decreases page.len() - k,
        {
            assert(pointees(page@)[k as int] == *page@[k as int]);
            let shown = crate::accounts::respond(page[k]);
            r.push(
                UserMinimalResponse {
                    id: shown.id,
                    cluster_id: shown.cluster_id,
                    number: shown.number,
                    name: shown.name,
                    role: shown.role,
                },
            );
            k += 1;
        }
        if r.len() > 0 {
            assert(user_views(r@) =~= users_shown(wanted));
            Ok(r)
        } else {
            Err(EventKind::NotFound)
        }
    }

    /// Whether some user is a super admin.
    pub fn super_admin_available(reg: &Registry) -> (r: bool)
        requires
            reg.wf(),
        ensures
            r == has_super_admin(reg.user.values()),
    {
        crate::accounts::super_admin_available(reg)
    }
}

/// The users found for a cluster are the users that the push dispatcher
/// tells of evidence from that cluster.
pub proof fn law_hearers_are_the_audience(us: Seq<User>, cluster: Seq<char>)
    ensures
        audience_of(us, cluster) == Seq::new(
            hearers(us, cluster).len(),
            |i: int| hearers(us, cluster)[i].id@,
        ),
    decreases us.len(),
{
    if us.len() > 0 {
        law_hearers_are_the_audience(us.drop_last(), cluster);
        assert(audience_of(us, cluster) =~= Seq::new(
            hearers(us, cluster).len(),
            |i: int| hearers(us, cluster)[i].id@,
        ));
    } else {
        assert(audience_of(us, cluster) =~= Seq::new(
            hearers(us, cluster).len(),
            |i: int| hearers(us, cluster)[i].id@,
        ));
    }
}

} // verus!
