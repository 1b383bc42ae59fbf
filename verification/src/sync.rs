//! Reconciliation between an edge processor and the server.
//!
//! The edge is authoritative for its descriptor and its camera inventory,
//! the server for the cluster a processor belongs to and for the uniforms
//! of that cluster. Versions decide which side's descriptor stands.
use crate::device::ProcessorAddress;
use crate::liveness::{refreshed, LivenessMap, LEASE_MS};
use crate::registry::{
    Camera, CameraRequest, CameraResponse, Cluster, Evidence, Processor, ProcessorData,
    Registry, Uniform, UniformResponse, UniformView,
};
use crate::table::Table;
use crate::text::texts;
use vstd::prelude::*;

verus! {

/// The descriptor that an edge processor submits.
#[derive(Debug, PartialEq, Eq)]
pub struct ProcessorRequest {
    pub id: String,
    pub name: String,
    pub model: String,
    pub address: ProcessorAddress,
    pub version: i64,
}

/// What an edge processor submits: its descriptor and its whole inventory.
#[derive(Debug, PartialEq, Eq)]
pub struct ProcessorSynchronization {
    pub processor: ProcessorRequest,
    pub camera: Vec<CameraRequest>,
}

/// What the server answers.
#[derive(Debug, PartialEq, Eq)]
pub enum SyncReply {
    /// The cluster named by the caller does not exist. Nothing happened.
    UnknownCluster,
    /// Both sides hold the same version. Only the lease was refreshed.
    Unchanged,
    /// The submitted state was taken over; the canonical view follows.
    Accepted(ProcessorData),
    /// The server holds a later version; its view follows and stands.
    Stale(ProcessorData),
}

impl SyncReply {
    /// The HTTP status of the answer.
    pub open spec fn status(&self) -> u16 {
        match self {
            SyncReply::UnknownCluster => 404,
            SyncReply::Unchanged => 204,
            SyncReply::Accepted(_) => 200,
            SyncReply::Stale(_) => 200,
        }
    }

    /// The HTTP status of the answer.
    pub fn status_code(&self) -> (r: u16)
        ensures
            r == self.status(),
    {
        match self {
            SyncReply::UnknownCluster => 404,
            SyncReply::Unchanged => 204,
            SyncReply::Accepted(_) => 200,
            SyncReply::Stale(_) => 200,
        }
    }
}

/// The identifiers that a submitted inventory names.
pub open spec fn request_ids(cams: Seq<CameraRequest>) -> Set<Seq<char>> {
    Set::new(|k: Seq<char>| exists|i: int| 0 <= i < cams.len() && (#[trigger] cams[i]).id@ == k)
}

/// Whether an accepted inventory removes the camera `k`: it belongs to the
/// processor and the inventory does not name it.
pub open spec fn is_dropped(
    cameras: Map<Seq<char>, Camera>,
    pid: Seq<char>,
    ids: Set<Seq<char>>,
    k: Seq<char>,
) -> bool {
    cameras.contains_key(k) && cameras[k].processor_id@ == pid && !ids.contains(k)
}

/// The cameras that stay when the inventory `ids` is accepted.
pub open spec fn pruned_cameras(cameras: Map<Seq<char>, Camera>, pid: Seq<char>, ids: Set<Seq<char>>) -> Map<
    Seq<char>,
    Camera,
> {
    Map::new(
        |k: Seq<char>| cameras.contains_key(k) && !is_dropped(cameras, pid, ids, k),
        |k: Seq<char>| cameras[k],
    )
}

/// The evidence rows that stay: those of a removed camera go with it.
pub open spec fn pruned_evidence(
    evidence: Map<Seq<char>, Evidence>,
    cameras: Map<Seq<char>, Camera>,
    pid: Seq<char>,
    ids: Set<Seq<char>>,
) -> Map<Seq<char>, Evidence> {
    Map::new(
        |e: Seq<char>|
            evidence.contains_key(e) && !is_dropped(cameras, pid, ids, evidence[e].camera_id@),
        |e: Seq<char>| evidence[e],
    )
}

/// The row under which a submitted camera is stored.
pub open spec fn filed(req: CameraRequest, cluster: String, pid: String) -> Camera {
    Camera {
        id: req.id,
        cluster_id: cluster,
        processor_id: pid,
        address: req.address,
        name: req.name,
    }
}

/// The cameras after each submitted one has been stored, in order.
pub open spec fn upserted(
    cameras: Map<Seq<char>, Camera>,
    cams: Seq<CameraRequest>,
    cluster: String,
    pid: String,
) -> Map<Seq<char>, Camera>
    decreases cams.len(),
{
    if cams.len() == 0 {
        cameras
    } else {
        upserted(cameras, cams.drop_last(), cluster, pid).insert(
            cams.last().id@,
            filed(cams.last(), cluster, pid),
        )
    }
}

/// The identifiers of the cameras that belong to processor `pid`.
pub open spec fn roster(cameras: Map<Seq<char>, Camera>, pid: Seq<char>) -> Set<Seq<char>> {
    Set::new(|k: Seq<char>| cameras.contains_key(k) && cameras[k].processor_id@ == pid)
}

/// The cameras of processor `pid` among `cams`, in order, as the API shows
/// them.
pub open spec fn shown_roster(cams: Seq<Camera>, pid: Seq<char>) -> Seq<CameraResponse>
    decreases cams.len(),
{
    if cams.len() == 0 {
        Seq::empty()
    } else if cams.last().processor_id@ == pid {
        shown_roster(cams.drop_last(), pid).push(cams.last().shown())
    } else {
        shown_roster(cams.drop_last(), pid)
    }
}

/// The uniforms that the identifiers `ids` name, in order; an identifier
/// that names none is passed over.
pub open spec fn named_uniforms(uniforms: Map<Seq<char>, Uniform>, ids: Seq<Seq<char>>) -> Seq<
    UniformView,
>
    decreases ids.len(),
{
    if ids.len() == 0 {
        Seq::empty()
    } else if uniforms.contains_key(ids.last()) {
        named_uniforms(uniforms, ids.drop_last()).push(uniforms[ids.last()]@)
    } else {
        named_uniforms(uniforms, ids.drop_last())
    }
}

/// The uniforms of cluster `cluster`; none where the cluster is unknown.
pub open spec fn cluster_uniforms(
    clusters: Map<Seq<char>, Cluster>,
    uniforms: Map<Seq<char>, Uniform>,
    cluster: Seq<char>,
) -> Seq<UniformView> {
    if clusters.contains_key(cluster) {
        named_uniforms(uniforms, texts(clusters[cluster].uniform_id@))
    } else {
        Seq::empty()
    }
}

/// The values of a list of shown uniforms, in order.
pub open spec fn uniform_views(v: Seq<UniformResponse>) -> Seq<UniformView> {
    Seq::new(v.len(), |i: int| v[i]@)
}

/// Every camera is filed under its own identifier.
pub open spec fn keyed(cameras: Map<Seq<char>, Camera>) -> bool {
    forall|k: Seq<char>| #[trigger] cameras.contains_key(k) ==> cameras[k].id@ == k
}

/// The cluster in which an accepted processor stands: the one the server
/// assigned earlier, or the caller's where the processor is new.
pub open spec fn standing_cluster(
    processors: Map<Seq<char>, Processor>,
    pid: Seq<char>,
    caller: String,
) -> String {
    if processors.contains_key(pid) {
        processors[pid].cluster_id
    } else {
        caller
    }
}

/// The row that an accepted descriptor leaves.
pub open spec fn accepted_row(req: ProcessorRequest, cluster: String) -> Processor {
    Processor {
        id: req.id,
        cluster_id: cluster,
        name: req.name,
        model: req.model,
        address: req.address,
        version: req.version,
    }
}

/// The canonical view of processor `pid` in a store.
pub open spec fn is_view_of(data: ProcessorData, reg: Registry, pid: Seq<char>) -> bool {
    &&& reg.processor@.contains_key(pid)
    &&& data.processor == reg.processor@[pid].shown()
    &&& data.camera@ == shown_roster(reg.camera.values(), pid)
    &&& uniform_views(data.uniform@) == cluster_uniforms(
        reg.cluster@,
        reg.uniform@,
        reg.processor@[pid].cluster_id@,
    )
}

/// What a reconciliation leaves behind and answers.
///
/// Clusters, uniforms, users and subscribers are never touched. An unknown
/// caller's cluster changes nothing at all. Otherwise the lease of the
/// processor is refreshed, and the versions decide: equal versions and a
/// stale submission leave the store as it was; a newer submission, or a
/// processor that the store does not know, is taken over.
pub open spec fn reconciled(
    before: Registry,
    leases_before: Map<Seq<char>, i64>,
    after: Registry,
    leases_after: Map<Seq<char>, i64>,
    cluster_id: String,
    payload: ProcessorSynchronization,
    now: i64,
    r: SyncReply,
) -> bool {
    let pid = payload.processor.id@;
    let known = before.processor@.contains_key(pid);
    let stored = before.processor@[pid].version;
    let submitted = payload.processor.version;
    let cluster = standing_cluster(before.processor@, pid, cluster_id);
    let ids = request_ids(payload.camera@);
    &&& after.cluster == before.cluster
    &&& after.uniform == before.uniform
    &&& after.user == before.user
    &&& after.subscriber == before.subscriber
    &&& if !before.cluster@.contains_key(cluster_id@) {
        &&& r == SyncReply::UnknownCluster
        &&& after == before
        &&& leases_after == leases_before
    } else {
        &&& leases_after == refreshed(leases_before, pid, now)
        &&& if known && stored == submitted {
            &&& r == SyncReply::Unchanged
            &&& after == before
        } else if known && stored > submitted {
            &&& r matches SyncReply::Stale(data) && is_view_of(data, before, pid)
            &&& after == before
        } else {
            &&& r matches SyncReply::Accepted(data) && is_view_of(data, after, pid)
            &&& after.processor@ == before.processor@.insert(
                pid,
                accepted_row(payload.processor, cluster),
            )
            &&& after.camera@ == upserted(
                pruned_cameras(before.camera@, pid, ids),
                payload.camera@,
                cluster,
                payload.processor.id,
            )
            &&& after.evidence@ == pruned_evidence(before.evidence@, before.camera@, pid, ids)
        }
    }
}

fn names_camera(cams: &Vec<CameraRequest>, id: &String) -> (r: bool)
    ensures
        r == request_ids(cams@).contains(id@),
{
    let mut i: usize = 0;
    while i < cams.len()
        invariant
            i <= cams.len(),
            forall|j: int| 0 <= j < i ==> (#[trigger] cams@[j]).id@ != id@,
        decreases cams.len() - i,
    {
        if cams[i].id == *id {
            return true;
        }
        i += 1;
    }
    false
}

fn prune_cameras(cameras: &mut Table<Camera>, pid: &String, cams: &Vec<CameraRequest>)
    requires
        old(cameras).wf(),
        keyed(old(cameras)@),
    ensures
        final(cameras).wf(),
        keyed(final(cameras)@),
        final(cameras)@ == pruned_cameras(old(cameras)@, pid@, request_ids(cams@)),
{
    let ghost before = *cameras;
    let ghost ids = request_ids(cams@);
    let n = cameras.len();
    let mut keep: Vec<bool> = Vec::new();
    let mut i: usize = 0;
    while i < n
        invariant
            *cameras == before,
            before.wf(),
            keyed(before@),
            ids == request_ids(cams@),
            n == before.keys().len(),
            i <= n,
            keep@.len() == i,
            forall|j: int|
                0 <= j < i ==> #[trigger] keep@[j] == !is_dropped(
                    before@,
                    pid@,
                    ids,
                    before.keys()[j],
                ),
        decreases n - i,
    {
        let cam = cameras.value_at(i);
        proof {
            before.lemma_entry(i as int);
        }
        let dropped = cam.processor_id == *pid && !names_camera(cams, &cam.id);
        keep.push(!dropped);
        i += 1;
    }
    cameras.retain(&keep);
    proof {
        assert forall|k: Seq<char>| #[trigger] before@.contains_key(k) implies keep@[before.keys().index_of(
            k,
        )] == !is_dropped(before@, pid@, ids, k) by {
            let t = before.keys().index_of(k);
            assert(0 <= t < n && before.keys()[t] == k);
        }
        assert(cameras@ =~= pruned_cameras(before@, pid@, ids));
    }
}

fn prune_evidence(
    evidence: &mut Table<Evidence>,
    cameras: &Table<Camera>,
    pid: &String,
    cams: &Vec<CameraRequest>,
)
    requires
        old(evidence).wf(),
        cameras.wf(),
        forall|k: Seq<char>| #[trigger]
            old(evidence)@.contains_key(k) ==> old(evidence)@[k].id@ == k,
    ensures
        final(evidence).wf(),
        forall|k: Seq<char>| #[trigger]
            final(evidence)@.contains_key(k) ==> final(evidence)@[k].id@ == k,
        final(evidence)@ == pruned_evidence(
            old(evidence)@,
            cameras@,
            pid@,
            request_ids(cams@),
        ),
{
    let ghost before = *evidence;
    let ghost ids = request_ids(cams@);
    let n = evidence.len();
    let mut keep: Vec<bool> = Vec::new();
    let mut i: usize = 0;
    while i < n
        invariant
            *evidence == before,
            before.wf(),
            cameras.wf(),
            ids == request_ids(cams@),
            n == before.keys().len(),
            i <= n,
            keep@.len() == i,
            forall|j: int|
                0 <= j < i ==> #[trigger] keep@[j] == !is_dropped(
                    cameras@,
                    pid@,
                    ids,
                    before.values()[j].camera_id@,
                ),
        decreases n - i,
    {
        let row = evidence.value_at(i);
        let dropped = match cameras.get(&row.camera_id) {
            Some(cam) => cam.processor_id == *pid && !names_camera(cams, &row.camera_id),
            None => false,
        };
        keep.push(!dropped);
        i += 1;
    }
    evidence.retain(&keep);
    proof {
        assert forall|k: Seq<char>| #[trigger] before@.contains_key(k) implies keep@[before.keys().index_of(
            k,
        )] == !is_dropped(cameras@, pid@, ids, before@[k].camera_id@) by {
            let t = before.keys().index_of(k);
            assert(0 <= t < n && before.keys()[t] == k);
            before.lemma_entry(t);
        }
        assert(evidence@ =~= pruned_evidence(before@, cameras@, pid@, ids));
    }
}

fn upsert_cameras(
    cameras: &mut Table<Camera>,
    cams: &Vec<CameraRequest>,
    cluster: &String,
    pid: &String,
)
    requires
        old(cameras).wf(),
        keyed(old(cameras)@),
    ensures
        final(cameras).wf(),
        keyed(final(cameras)@),
        final(cameras)@ == upserted(old(cameras)@, cams@, *cluster, *pid),
{
    let ghost before = cameras@;
    let mut i: usize = 0;
    assert(cams@.take(0) =~= Seq::<CameraRequest>::empty());
    while i < cams.len()
        invariant
            cameras.wf(),
            keyed(cameras@),
            i <= cams.len(),
            cameras@ == upserted(before, cams@.take(i as int), *cluster, *pid),
        decreases cams.len() - i,
    {
        let req = &cams[i];
        proof {
            let next = cams@.take(i as int + 1);
            assert(next.drop_last() =~= cams@.take(i as int));
            assert(next.last() == *req);
        }
        let row = Camera {
            id: req.id.clone(),
            cluster_id: cluster.clone(),
            processor_id: pid.clone(),
            address: req.address.duplicate(),
            name: req.name.clone(),
        };
        assert(row == filed(*req, *cluster, *pid));
        cameras.insert(req.id.clone(), row);
        i += 1;
    }
    assert(cams@.take(cams.len() as int) =~= cams@);
}

fn roster_of(cameras: &Table<Camera>, pid: &String) -> (r: Vec<CameraResponse>)
    requires
        cameras.wf(),
    ensures
        r@ == shown_roster(cameras.values(), pid@),
{
    let mut r: Vec<CameraResponse> = Vec::new();
    let n = cameras.len();
    let mut i: usize = 0;
    assert(cameras.values().take(0) =~= Seq::<Camera>::empty());
    while i < n
        invariant
            cameras.wf(),
            n == cameras.keys().len(),
            i <= n,
            r@ == shown_roster(cameras.values().take(i as int), pid@),
        decreases n - i,
    {
        let cam = cameras.value_at(i);
        proof {
            let next = cameras.values().take(i as int + 1);
            assert(next.drop_last() =~= cameras.values().take(i as int));
            assert(next.last() == *cam);
        }
        if cam.processor_id == *pid {
            r.push(cam.response());
        }
        i += 1;
    }
    assert(cameras.values().take(n as int) =~= cameras.values());
    r
}

/// The uniforms of cluster `cluster`, in the order in which the cluster
/// names them; none where the store does not know the cluster.
pub fn uniforms_of(reg: &Registry, cluster: &String) -> (r: Vec<UniformResponse>)
    requires
        reg.wf(),
    ensures
        uniform_views(r@) == cluster_uniforms(reg.cluster@, reg.uniform@, cluster@),
{
    let mut r: Vec<UniformResponse> = Vec::new();
    match reg.cluster.get(cluster) {
        Some(c) => {
            let ghost ids = texts(c.uniform_id@);
            let mut i: usize = 0;
            assert(ids.take(0) =~= Seq::<Seq<char>>::empty());
            assert(uniform_views(r@) =~= Seq::<UniformView>::empty());
            while i < c.uniform_id.len()
                invariant
                    reg.wf(),
                    ids == texts(c.uniform_id@),
                    i <= c.uniform_id.len(),
                    uniform_views(r@) == named_uniforms(reg.uniform@, ids.take(i as int)),
                decreases c.uniform_id.len() - i,
            {
                proof {
                    let next = ids.take(i as int + 1);
                    assert(next.drop_last() =~= ids.take(i as int));
                    assert(next.last() == c.uniform_id@[i as int]@);
                }
                let ghost prev = r@;
                match reg.uniform.get(&c.uniform_id[i]) {
                    Some(u) => {
                        let shown = u.response();
                        r.push(shown);
                        assert(uniform_views(r@) =~= uniform_views(prev).push(u@));
                    },
                    None => {},
                }
                i += 1;
            }
            assert(ids.take(ids.len() as int) =~= ids);
        },
        None => {
            assert(uniform_views(r@) =~= Seq::<UniformView>::empty());
        },
    }
    r
}

/// The canonical view of processor `pid`: its descriptor, its roster in
/// table order and the uniforms of its cluster.
pub fn view_processor(reg: &Registry, pid: &String) -> (r: Option<ProcessorData>)
    requires
        reg.wf(),
    ensures
        match r {
            Some(data) => is_view_of(data, *reg, pid@),
            None => !reg.processor@.contains_key(pid@),
        },
{
    match reg.processor.get(pid) {
        Some(p) => Some(show(reg, p)),
        None => None,
    }
}

pub(crate) fn show(reg: &Registry, p: &Processor) -> (r: ProcessorData)
    requires
        reg.wf(),
    ensures
        r.processor == p.shown(),
        r.camera@ == shown_roster(reg.camera.values(), p.id@),
        uniform_views(r.uniform@) == cluster_uniforms(reg.cluster@, reg.uniform@, p.cluster_id@),
{
    ProcessorData {
        processor: p.response(),
        camera: roster_of(&reg.camera, &p.id),
        uniform: uniforms_of(reg, &p.cluster_id),
    }
}

/// Reconciles the state that an edge processor submits with the store.
///
/// Where the cluster named by the caller is unknown, nothing happens. In
/// every other case the lease of the processor is refreshed. Equal versions
/// change nothing else. A submitted version below the stored one changes
/// nothing else either, and the stored view is returned. A submitted
/// version above the stored one, or a processor that the store does not
/// know, is accepted: the descriptor is stored, in the cluster that the
/// server assigned earlier or in the caller's for a new processor; every
/// camera of the processor that the inventory does not name is removed
/// together with its evidence; and every camera of the inventory is stored.
pub fn reconcile(
    reg: &mut Registry,
    live: &mut LivenessMap,
    cluster_id: &String,
    payload: &ProcessorSynchronization,
    now: i64,
) -> (r: SyncReply)
    requires
        old(reg).wf(),
        old(live).wf(),
        now <= i64::MAX - LEASE_MS,
    ensures
        final(reg).wf(),
        final(live).wf(),
        reconciled(*old(reg), old(live)@, *final(reg), final(live)@, *cluster_id, *payload, now, r),
{
    if !reg.cluster.contains(cluster_id) {
        return SyncReply::UnknownCluster;
    }
    let pid = &payload.processor.id;
    live.refresh(pid.clone(), now);
    let cluster = match reg.processor.get(pid) {
        Some(stored) => {
            if stored.version == payload.processor.version {
                return SyncReply::Unchanged;
            }
            if stored.version > payload.processor.version {
                return SyncReply::Stale(show(reg, stored));
            }
            stored.cluster_id.clone()
        },
        None => cluster_id.clone(),
    };
    prune_evidence(&mut reg.evidence, &reg.camera, pid, &payload.camera);
    prune_cameras(&mut reg.camera, pid, &payload.camera);
    upsert_cameras(&mut reg.camera, &payload.camera, &cluster, pid);
    let row = Processor {
        id: pid.clone(),
        cluster_id: cluster,
        name: payload.processor.name.clone(),
        model: payload.processor.model.clone(),
        address: payload.processor.address,
        version: payload.processor.version,
    };
    let data = show(reg, &row);
    reg.processor.insert(pid.clone(), row);
    SyncReply::Accepted(data)
}

/// A submission at the version that the server holds changes nothing but
/// the lease of the processor.
pub proof fn law_equal_version_only_refreshes(
    before: Registry,
    leases_before: Map<Seq<char>, i64>,
    after: Registry,
    leases_after: Map<Seq<char>, i64>,
    cluster_id: String,
    payload: ProcessorSynchronization,
    now: i64,
    r: SyncReply,
)
    requires
        reconciled(before, leases_before, after, leases_after, cluster_id, payload, now, r),
        before.cluster@.contains_key(cluster_id@),
        before.processor@.contains_key(payload.processor.id@),
        before.processor@[payload.processor.id@].version == payload.processor.version,
    ensures
        after == before,
        r == SyncReply::Unchanged,
        leases_after == refreshed(leases_before, payload.processor.id@, now),
        forall|k: Seq<char>|
            k != payload.processor.id@ ==> (leases_after.contains_key(k)
                <==> leases_before.contains_key(k)),
        forall|k: Seq<char>|
            k != payload.processor.id@ && leases_before.contains_key(k) ==> leases_after[k]
                == leases_before[k],
{
}

/// The server never lets the edge move a processor to another cluster, and
/// never takes a descriptor that is older than its own.
pub proof fn law_server_owns_the_cluster(
    before: Registry,
    leases_before: Map<Seq<char>, i64>,
    after: Registry,
    leases_after: Map<Seq<char>, i64>,
    cluster_id: String,
    payload: ProcessorSynchronization,
    now: i64,
    r: SyncReply,
)
    requires
        reconciled(before, leases_before, after, leases_after, cluster_id, payload, now, r),
        before.processor@.contains_key(payload.processor.id@),
    ensures
        after.processor@.contains_key(payload.processor.id@),
        after.processor@[payload.processor.id@].cluster_id
            == before.processor@[payload.processor.id@].cluster_id,
        after.processor@[payload.processor.id@].version
            >= before.processor@[payload.processor.id@].version,
{
}

/// What `upserted` leaves under each identifier.
pub proof fn lemma_upserted(
    cameras: Map<Seq<char>, Camera>,
    cams: Seq<CameraRequest>,
    cluster: String,
    pid: String,
)
    ensures
        forall|k: Seq<char>| #[trigger]
            upserted(cameras, cams, cluster, pid).contains_key(k) <==> cameras.contains_key(k)
                || request_ids(cams).contains(k),
        forall|k: Seq<char>|
            request_ids(cams).contains(k) ==> (#[trigger] upserted(
                cameras,
                cams,
                cluster,
                pid,
            )[k]).processor_id == pid && upserted(cameras, cams, cluster, pid)[k].cluster_id
                == cluster,
        forall|k: Seq<char>|
            !request_ids(cams).contains(k) ==> #[trigger] upserted(cameras, cams, cluster, pid)[k]
                == cameras[k],
    decreases cams.len(),
{
    if cams.len() > 0 {
        let head = cams.drop_last();
        lemma_upserted(cameras, head, cluster, pid);
        assert forall|k: Seq<char>| request_ids(cams).contains(k) <==> request_ids(head).contains(k)
            || k == cams.last().id@ by {
            if request_ids(cams).contains(k) {
                let i = choose|i: int| 0 <= i < cams.len() && (#[trigger] cams[i]).id@ == k;
                if i < cams.len() - 1 {
                    assert(head[i].id@ == k);
                }
            }
            if request_ids(head).contains(k) {
                let i = choose|i: int| 0 <= i < head.len() && (#[trigger] head[i]).id@ == k;
                assert(cams[i].id@ == k);
            }
            if k == cams.last().id@ {
                assert(cams[cams.len() - 1].id@ == k);
            }
        }
    }
}

/// After an accepted synchronisation the server's roster of the processor
/// is the submitted set of camera identifiers.
pub proof fn law_roster_is_submitted_set(
    cameras: Map<Seq<char>, Camera>,
    cams: Seq<CameraRequest>,
    cluster: String,
    pid: String,
)
    ensures
        roster(
            upserted(pruned_cameras(cameras, pid@, request_ids(cams)), cams, cluster, pid),
            pid@,
        ) == request_ids(cams),
{
    let ids = request_ids(cams);
    let pruned = pruned_cameras(cameras, pid@, ids);
    let after = upserted(pruned, cams, cluster, pid);
    lemma_upserted(pruned, cams, cluster, pid);
    assert forall|k: Seq<char>| roster(after, pid@).contains(k) <==> ids.contains(k) by {
        if ids.contains(k) {
            assert(after.contains_key(k));
            assert(after[k].processor_id == pid);
        } else if after.contains_key(k) {
            assert(after[k] == pruned[k]);
            assert(pruned.contains_key(k));
        }
    }
    assert(roster(after, pid@) =~= ids);
}

/// A submission that the server takes over, at whatever instant, leaves
/// the submitted set as the roster of the processor and the submitted
/// version as the stored one, and is answered with the uniforms of the
/// cluster that the server assigned, which nothing in the submission
/// alters: clusters and uniforms are as they were. The same submission sent
/// again is answered as unchanged.
pub proof fn law_accepted_submission_converges(
    before: Registry,
    leases_before: Map<Seq<char>, i64>,
    after: Registry,
    leases_after: Map<Seq<char>, i64>,
    cluster_id: String,
    payload: ProcessorSynchronization,
    now: i64,
    r: SyncReply,
)
    requires
        reconciled(before, leases_before, after, leases_after, cluster_id, payload, now, r),
        before.cluster@.contains_key(cluster_id@),
        before.processor@.contains_key(payload.processor.id@)
            ==> before.processor@[payload.processor.id@].version < payload.processor.version,
    ensures
        r matches SyncReply::Accepted(data) && uniform_views(data.uniform@) == cluster_uniforms(
            before.cluster@,
            before.uniform@,
            standing_cluster(before.processor@, payload.processor.id@, cluster_id)@,
        ) && data.processor.version == payload.processor.version,
        roster(after.camera@, payload.processor.id@) == request_ids(payload.camera@),
        after.processor@.contains_key(payload.processor.id@),
        after.processor@[payload.processor.id@].version == payload.processor.version,
        after.cluster == before.cluster,
        after.uniform == before.uniform,
        forall|again: Registry, leases_again: Map<Seq<char>, i64>, later: i64, answer: SyncReply|
            reconciled(after, leases_after, again, leases_again, cluster_id, payload, later, answer)
                ==> answer == SyncReply::Unchanged && again == after,
{
    law_roster_is_submitted_set(
        before.camera@,
        payload.camera@,
        standing_cluster(before.processor@, payload.processor.id@, cluster_id),
        payload.processor.id,
    );
}

/// Cameras of other processors that the inventory does not name are left
/// exactly as they were.
pub proof fn law_foreign_cameras_untouched(
    cameras: Map<Seq<char>, Camera>,
    cams: Seq<CameraRequest>,
    cluster: String,
    pid: String,
    k: Seq<char>,
)
    requires
        cameras.contains_key(k),
        cameras[k].processor_id@ != pid@,
        !request_ids(cams).contains(k),
    ensures
        upserted(pruned_cameras(cameras, pid@, request_ids(cams)), cams, cluster, pid).contains_key(
            k,
        ),
        upserted(pruned_cameras(cameras, pid@, request_ids(cams)), cams, cluster, pid)[k]
            == cameras[k],
{
    lemma_upserted(pruned_cameras(cameras, pid@, request_ids(cams)), cams, cluster, pid);
}

} // verus!
