//! Operator edits of the server's store: processors, cameras, clusters,
//! uniforms and subscribers, with the cascades that keep evidence in step.
use crate::clock::{fresh_id, now_millis};
use crate::device::{CameraAddress, ProcessorAddress};
use crate::error::{error_handler, EventKind, Reply};
use crate::registry::{
    reference, refers_to, Camera, CameraResponse, Cluster, Evidence, EvidenceOwner, Processor, ProcessorData, Registry,
    Subscriber, SubscriberKind, SubscriberRequest, Uniform, UniformRequest, UniformResponse, User,
    UserRole,
};
use crate::sync::{is_view_of, show};
use crate::table::Table;
use crate::text::texts;
use vstd::prelude::*;

verus! {

/// The rows that stay when those that refer to `id` go.
pub open spec fn without_rows_of(rows: Map<Seq<char>, Evidence>, owner: EvidenceOwner, id: Seq<char>) -> Map<
    Seq<char>,
    Evidence,
> {
    Map::new(
        |k: Seq<char>| rows.contains_key(k) && reference(rows[k], owner) != id,
        |k: Seq<char>| rows[k],
    )
}

fn drop_rows_of(evidence: &mut Table<Evidence>, owner: EvidenceOwner, id: &String)
    requires
        old(evidence).wf(),
        forall|k: Seq<char>| #[trigger]
            old(evidence)@.contains_key(k) ==> old(evidence)@[k].id@ == k,
    ensures
        final(evidence).wf(),
        forall|k: Seq<char>| #[trigger]
            final(evidence)@.contains_key(k) ==> final(evidence)@[k].id@ == k,
        final(evidence)@ == without_rows_of(old(evidence)@, owner, id@),
{
    let ghost before = *evidence;
    let n = evidence.len();
    let mut keep: Vec<bool> = Vec::new();
    let mut i: usize = 0;
    while i < n
        invariant
            *evidence == before,
            before.wf(),
            n == before.keys().len(),
            i <= n,
            keep@.len() == i,
            forall|j: int|
                0 <= j < i ==> #[trigger] keep@[j] == (reference(before.values()[j], owner)
                    != id@),
        decreases n - i,
    {
        let row = evidence.value_at(i);
        let hit = refers_to(row, owner, id);
        keep.push(!hit);
        i += 1;
    }
    evidence.retain(&keep);
    proof {
        assert forall|k: Seq<char>| #[trigger] before@.contains_key(k) implies keep@[before.keys().index_of(
            k,
        )] == (reference(before@[k], owner) != id@) by {
            let t = before.keys().index_of(k);
            assert(0 <= t < n && before.keys()[t] == k);
            before.lemma_entry(t);
        }
        assert(evidence@ =~= without_rows_of(before@, owner, id@));
    }
}

/// Removes the processor `id` together with its evidence. Where there is
/// no such processor, nothing changes and the answer is 404.
pub fn delete_processor(reg: &mut Registry, id: &String) -> (r: Reply)
    requires
        old(reg).wf(),
    ensures
        final(reg).wf(),
        final(reg).cluster == old(reg).cluster,
        final(reg).uniform == old(reg).uniform,
        final(reg).camera == old(reg).camera,
        final(reg).user == old(reg).user,
        final(reg).subscriber == old(reg).subscriber,
        if old(reg).processor@.contains_key(id@) {
            &&& r.status == 204
            &&& r.body@.len() == 0
            &&& final(reg).processor@ == old(reg).processor@.remove(id@)
            &&& final(reg).evidence@ == without_rows_of(
                old(reg).evidence@,
                EvidenceOwner::Processor,
                id@,
            )
        } else {
            &&& r.status == 404
            &&& r.body@ == EventKind::NotFound.name()
            &&& *final(reg) == *old(reg)
        },
{
    if !reg.processor.contains(id) {
        return error_handler(EventKind::NotFound);
    }
    drop_rows_of(&mut reg.evidence, EvidenceOwner::Processor, id);
    let _ = reg.processor.remove(id);
    Reply { status: 204, body: String::new() }
}

/// Removes the camera `id` together with its evidence. Where there is no
/// such camera, nothing changes and the answer is 404.
pub fn delete_camera(reg: &mut Registry, id: &String) -> (r: Reply)
    requires
        old(reg).wf(),
    ensures
        final(reg).wf(),
        final(reg).cluster == old(reg).cluster,
        final(reg).uniform == old(reg).uniform,
        final(reg).processor == old(reg).processor,
        final(reg).user == old(reg).user,
        final(reg).subscriber == old(reg).subscriber,
        if old(reg).camera@.contains_key(id@) {
            &&& r.status == 204
            &&& r.body@.len() == 0
            &&& final(reg).camera@ == old(reg).camera@.remove(id@)
            &&& final(reg).evidence@ == without_rows_of(
                old(reg).evidence@,
                EvidenceOwner::Camera,
                id@,
            )
        } else {
            &&& r.status == 404
            &&& r.body@ == EventKind::NotFound.name()
            &&& *final(reg) == *old(reg)
        },
{
    if !reg.camera.contains(id) {
        return error_handler(EventKind::NotFound);
    }
    drop_rows_of(&mut reg.evidence, EvidenceOwner::Camera, id);
    let _ = reg.camera.remove(id);
    Reply { status: 204, body: String::new() }
}

/// What an operator's request to add a camera carries.
#[derive(Debug, PartialEq, Eq)]
pub struct CameraCreate {
    pub cluster_id: String,
    pub processor_id: String,
    pub address: CameraAddress,
    pub name: String,
}

/// Whether a request to add a camera names a cluster and a processor that
/// the store knows, and an identifier that is free.
pub open spec fn camera_is_addable(reg: Registry, request: CameraCreate, id: Seq<char>) -> Option<
    (u16, Seq<char>),
> {
    if !reg.cluster@.contains_key(request.cluster_id@) || !reg.processor@.contains_key(
        request.processor_id@,
    ) {
        Some((404u16, "NOT_FOUND"@))
    } else if reg.camera@.contains_key(id) {
        Some((400u16, EventKind::SavingFailed.name()))
    } else {
        None
    }
}

/// Adds a camera on an operator's request, under the identifier `id`, at
/// clock `now`. The request is refused with 404 where the store does not
/// know its cluster or its processor. Otherwise the camera is filed and the
/// version of its processor becomes `now`, so that the processor's next
/// report is measured against the operator's edit.
pub fn create_camera(reg: &mut Registry, request: CameraCreate, id: String, now: i64) -> (r: Result<
    CameraResponse,
    Reply,
>)
    requires
        old(reg).wf(),
    ensures
        final(reg).wf(),
        final(reg).cluster == old(reg).cluster,
        final(reg).uniform == old(reg).uniform,
        final(reg).evidence == old(reg).evidence,
        final(reg).user == old(reg).user,
        final(reg).subscriber == old(reg).subscriber,
        match camera_is_addable(*old(reg), request, id@) {
            Some(refused) => r matches Err(reply) && (reply.status, reply.body@) == refused
                && *final(reg) == *old(reg),
            None => r matches Ok(shown) && shown == (Camera {
                id,
                cluster_id: request.cluster_id,
                processor_id: request.processor_id,
                address: request.address,
                name: request.name,
            }).shown() && final(reg).camera@ == old(reg).camera@.insert(
                id@,
                Camera {
                    id,
                    cluster_id: request.cluster_id,
                    processor_id: request.processor_id,
                    address: request.address,
                    name: request.name,
                },
            ) && final(reg).processor@ == old(reg).processor@.insert(
                request.processor_id@,
                Processor { version: now, ..old(reg).processor@[request.processor_id@] },
            ),
        },
{
    if !reg.cluster.contains(&request.cluster_id) {
        return Err(Reply { status: 404, body: String::from_str("NOT_FOUND") });
    }
    let i = match reg.processor.position(&request.processor_id) {
        Some(i) => i,
        None => {
            return Err(Reply { status: 404, body: String::from_str("NOT_FOUND") });
        },
    };
    if reg.camera.contains(&id) {
        return Err(error_handler(EventKind::SavingFailed));
    }
    proof {
        reg.processor.lemma_entry(i as int);
    }
    let mut processor = reg.processor.value_at(i).duplicate();
    processor.version = now;
    reg.processor.set_value_at(i, processor);
    let camera = Camera {
        id: id.clone(),
        cluster_id: request.cluster_id,
        processor_id: request.processor_id,
        address: request.address,
        name: request.name,
    };
    let shown = camera.response();
    reg.camera.insert(id, camera);
    Ok(shown)
}

/// What an operator may change of a processor.
#[derive(Debug, PartialEq, Eq)]
pub struct ProcessorEdit {
    pub name: String,
    pub model: String,
    pub address: ProcessorAddress,
}

/// The row that an operator's edit at clock `now` leaves.
pub open spec fn edited(stored: Processor, edit: ProcessorEdit, now: i64) -> Processor {
    Processor {
        id: stored.id,
        cluster_id: stored.cluster_id,
        name: edit.name,
        model: edit.model,
        address: edit.address,
        version: now,
    }
}

/// Applies an operator's edit to the processor `id` at clock `now`: name,
/// model and address are replaced and the version becomes `now`. The
/// cluster stays. Where there is no such processor, nothing changes and the
/// answer is 404.
pub fn update_processor(reg: &mut Registry, id: &String, edit: ProcessorEdit, now: i64) -> (r:
    Result<ProcessorData, Reply>)
    requires
        old(reg).wf(),
    ensures
        final(reg).wf(),
        final(reg).cluster == old(reg).cluster,
        final(reg).uniform == old(reg).uniform,
        final(reg).camera == old(reg).camera,
        final(reg).evidence == old(reg).evidence,
        final(reg).user == old(reg).user,
        final(reg).subscriber == old(reg).subscriber,
        match r {
            Ok(data) => old(reg).processor@.contains_key(id@) && final(reg).processor@ == old(reg).processor@.insert(id@, edited(old(reg).processor@[id@], edit, now)) && is_view_of(
                data,
                *final(reg),
                id@,
            ),
            Err(reply) => !old(reg).processor@.contains_key(id@) && reply.status == 404
                && reply.body@ == EventKind::NotFound.name() && *final(reg) == *old(reg),
        },
{
    let i = match reg.processor.position(id) {
        Some(i) => i,
        None => {
            return Err(error_handler(EventKind::NotFound));
        },
    };
    proof {
        reg.processor.lemma_entry(i as int);
    }
    let stored = reg.processor.value_at(i);
    let row = Processor {
        id: stored.id.clone(),
        cluster_id: stored.cluster_id.clone(),
        name: edit.name,
        model: edit.model,
        address: edit.address,
        version: now,
    };
    let data = show(reg, &row);
    reg.processor.set_value_at(i, row);
    Ok(data)
}

/// Applies an operator's edit as [`update_processor`] does, at the wall
/// clock: the version becomes whatever the clock says.
pub fn update_processor_now(reg: &mut Registry, id: &String, edit: ProcessorEdit) -> (r: Result<
    ProcessorData,
    Reply,
>)
    requires
        old(reg).wf(),
    ensures
        final(reg).wf(),
        final(reg).cluster == old(reg).cluster,
        final(reg).uniform == old(reg).uniform,
        final(reg).camera == old(reg).camera,
        final(reg).evidence == old(reg).evidence,
        final(reg).user == old(reg).user,
        final(reg).subscriber == old(reg).subscriber,
        match r {
            Ok(data) => old(reg).processor@.contains_key(id@) && final(reg).processor@ == old(reg).processor@.insert(
                id@,
                edited(old(reg).processor@[id@], edit, final(reg).processor@[id@].version),
            ) && is_view_of(data, *final(reg), id@),
            Err(reply) => !old(reg).processor@.contains_key(id@) && reply.status == 404
                && reply.body@ == EventKind::NotFound.name() && *final(reg) == *old(reg),
        },
{
    update_processor(reg, id, edit, now_millis())
}

/// What a request to create a cluster carries.
#[derive(Debug, PartialEq, Eq)]
pub struct ClusterRequest {
    pub uniform_id: Vec<String>,
    pub name: String,
}

/// Whether every account of `after` is the account of `before` at the same
/// place with `cluster` added at the end of its clusters.
pub open spec fn all_joined(before: Seq<User>, after: Seq<User>, cluster: Seq<char>) -> bool {
    &&& after.len() == before.len()
    &&& forall|i: int|
        0 <= i < before.len() ==> {
            &&& (#[trigger] after[i]).id == before[i].id
            &&& after[i].number == before[i].number
            &&& after[i].name == before[i].name
            &&& after[i].password == before[i].password
            &&& after[i].role == before[i].role
            &&& texts(after[i].cluster_id@) == texts(before[i].cluster_id@).push(cluster)
        }
}

/// Creates a cluster under the identifier `id` and lets every account join
/// it. Where the identifier is taken, nothing changes and the answer is
/// 400.
pub fn create_cluster(reg: &mut Registry, request: ClusterRequest, id: String) -> (r: Reply)
    requires
        old(reg).wf(),
    ensures
        final(reg).wf(),
        final(reg).uniform == old(reg).uniform,
        final(reg).processor == old(reg).processor,
        final(reg).camera == old(reg).camera,
        final(reg).evidence == old(reg).evidence,
        final(reg).subscriber == old(reg).subscriber,
        if old(reg).cluster@.contains_key(id@) {
            &&& r.status == 400
            &&& r.body@ == EventKind::SavingFailed.name()
            &&& *final(reg) == *old(reg)
        } else {
            &&& r.status == 201
            &&& r.body@ == id@
            &&& final(reg).cluster@ == old(reg).cluster@.insert(
                id@,
                Cluster { id, uniform_id: request.uniform_id, name: request.name },
            )
            &&& final(reg).user.keys() == old(reg).user.keys()
            &&& all_joined(old(reg).user.values(), final(reg).user.values(), id@)
        },
{
    if reg.cluster.contains(&id) {
        return error_handler(EventKind::SavingFailed);
    }
    let body = id.clone();
    let key = id.clone();
    let ghost before = reg.user;
    let n = reg.user.len();
    let mut i: usize = 0;
    while i < n
        invariant
            before.wf(),
            reg.user.wf(),
            reg.cluster == old(reg).cluster,
            reg.uniform == old(reg).uniform,
            reg.processor == old(reg).processor,
            reg.camera == old(reg).camera,
            reg.evidence == old(reg).evidence,
            reg.subscriber == old(reg).subscriber,
            forall|k: Seq<char>| #[trigger] before@.contains_key(k) ==> before@[k].id@ == k,
            reg.user.keys() == before.keys(),
            n == before.keys().len(),
            i <= n,
            key@ == id@,
            forall|j: int| i <= j < n ==> #[trigger] reg.user.values()[j] == before.values()[j],
            forall|j: int|
                0 <= j < i ==> {
                    &&& (#[trigger] reg.user.values()[j]).id == before.values()[j].id
                    &&& reg.user.values()[j].number == before.values()[j].number
                    &&& reg.user.values()[j].name == before.values()[j].name
                    &&& reg.user.values()[j].password == before.values()[j].password
                    &&& reg.user.values()[j].role == before.values()[j].role
                    &&& texts(reg.user.values()[j].cluster_id@) == texts(
                        before.values()[j].cluster_id@,
                    ).push(id@)
                },
        decreases n - i,
    {
        let placeholder = User {
            id: String::new(),
            cluster_id: Vec::new(),
            number: String::new(),
            name: String::new(),
            password: String::new(),
            role: UserRole::Officer,
        };
        let mut user = reg.user.swap_value_at(i, placeholder);
        let ghost had = texts(user.cluster_id@);
        user.cluster_id.push(key.clone());
        assert(texts(user.cluster_id@) =~= had.push(id@));
        let _ = reg.user.swap_value_at(i, user);
        i += 1;
    }
    proof {
        assert forall|k: Seq<char>| #[trigger] reg.user@.contains_key(k) implies reg.user@[k].id@
            == k by {
            let t = reg.user.keys().index_of(k);
            assert(0 <= t < n && reg.user.keys()[t] == k);
            reg.user.lemma_entry(t);
            before.lemma_entry(t);
        }
    }
    let cluster = Cluster { id, uniform_id: request.uniform_id, name: request.name };
    reg.cluster.insert(key, cluster);
    Reply { status: 201, body }
}

/// Removes the cluster `id`. Where there is no such cluster, nothing
/// changes and the answer is 404.
pub fn delete_cluster(reg: &mut Registry, id: &String) -> (r: Reply)
    requires
        old(reg).wf(),
    ensures
        final(reg).wf(),
        final(reg).uniform == old(reg).uniform,
        final(reg).processor == old(reg).processor,
        final(reg).camera == old(reg).camera,
        final(reg).evidence == old(reg).evidence,
        final(reg).user == old(reg).user,
        final(reg).subscriber == old(reg).subscriber,
        if old(reg).cluster@.contains_key(id@) {
            &&& r.status == 204
            &&& r.body@.len() == 0
            &&& final(reg).cluster@ == old(reg).cluster@.remove(id@)
        } else {
            &&& r.status == 404
            &&& r.body@ == EventKind::NotFound.name()
            &&& *final(reg) == *old(reg)
        },
{
    if !reg.cluster.contains(id) {
        return error_handler(EventKind::NotFound);
    }
    let _ = reg.cluster.remove(id);
    Reply { status: 204, body: String::new() }
}

/// Creates a uniform under the identifier `id`. Where the identifier is
/// taken, nothing changes and the answer is `SavingFailed`.
pub fn create_uniform(reg: &mut Registry, request: UniformRequest, id: String) -> (r: Result<
    UniformResponse,
    EventKind,
>)
    requires
        old(reg).wf(),
    ensures
        final(reg).wf(),
        final(reg).cluster == old(reg).cluster,
        final(reg).processor == old(reg).processor,
        final(reg).camera == old(reg).camera,
        final(reg).evidence == old(reg).evidence,
        final(reg).user == old(reg).user,
        final(reg).subscriber == old(reg).subscriber,
        match r {
            Ok(shown) => !old(reg).uniform@.contains_key(id@) && final(reg).uniform@.contains_key(
                id@,
            ) && final(reg).uniform@.remove(id@) == old(reg).uniform@ && final(reg).uniform@[id@]@
                == shown@ && shown.id@ == id@ && shown.name@ == request.name@ && shown.attribute@
                == request.attribute@,
            Err(e) => e == EventKind::SavingFailed && old(reg).uniform@.contains_key(id@)
                && *final(reg) == *old(reg),
        },
{
    if reg.uniform.contains(&id) {
        return Err(EventKind::SavingFailed);
    }
    let uniform = Uniform { id: id.clone(), name: request.name, attribute: request.attribute };
    let shown = uniform.response();
    let ghost before = reg.uniform@;
    reg.uniform.insert(id, uniform);
    assert(reg.uniform@.remove(id@) =~= before);
    Ok(shown)
}

/// Replaces name and requirements of the uniform `id`. Where there is no
/// such uniform, nothing changes and the answer is `NotFound`.
pub fn update_uniform(reg: &mut Registry, id: &String, request: UniformRequest) -> (r: Result<
    UniformResponse,
    EventKind,
>)
    requires
        old(reg).wf(),
    ensures
        final(reg).wf(),
        final(reg).cluster == old(reg).cluster,
        final(reg).processor == old(reg).processor,
        final(reg).camera == old(reg).camera,
        final(reg).evidence == old(reg).evidence,
        final(reg).user == old(reg).user,
        final(reg).subscriber == old(reg).subscriber,
        match r {
            Ok(shown) => old(reg).uniform@.contains_key(id@) && final(reg).uniform@.contains_key(
                id@,
            ) && final(reg).uniform@.remove(id@) == old(reg).uniform@.remove(id@)
                && final(reg).uniform@[id@]@ == shown@ && shown.id@ == id@ && shown.name@
                == request.name@ && shown.attribute@ == request.attribute@,
            Err(e) => e == EventKind::NotFound && !old(reg).uniform@.contains_key(id@)
                && *final(reg) == *old(reg),
        },
{
    let i = match reg.uniform.position(id) {
        Some(i) => i,
        None => {
            return Err(EventKind::NotFound);
        },
    };
    proof {
        reg.uniform.lemma_entry(i as int);
    }
    let uniform = Uniform { id: id.clone(), name: request.name, attribute: request.attribute };
    let shown = uniform.response();
    let ghost before = reg.uniform@;
    reg.uniform.set_value_at(i, uniform);
    assert(reg.uniform@.remove(id@) =~= before.remove(id@));
    Ok(shown)
}

/// Removes the uniform `id`. Says `Deleted` where there was one and
/// `NotFound` where there was none.
pub fn delete_uniform(reg: &mut Registry, id: &String) -> (r: EventKind)
    requires
        old(reg).wf(),
    ensures
        final(reg).wf(),
        final(reg).cluster == old(reg).cluster,
        final(reg).processor == old(reg).processor,
        final(reg).camera == old(reg).camera,
        final(reg).evidence == old(reg).evidence,
        final(reg).user == old(reg).user,
        final(reg).subscriber == old(reg).subscriber,
        final(reg).uniform@ == old(reg).uniform@.remove(id@),
        r == (if old(reg).uniform@.contains_key(id@) {
            EventKind::Deleted
        } else {
            EventKind::NotFound
        }),
{
    match reg.uniform.remove(id) {
        Some(_) => EventKind::Deleted,
        None => EventKind::NotFound,
    }
}

/// The token that a subscriber kind carries.
pub open spec fn token_of(kind: SubscriberKind) -> Seq<char> {
    match kind {
        SubscriberKind::Apple(t) => t@,
    }
}

/// Position of the first subscriber among `subs` that holds `token`.
pub open spec fn first_with_token(subs: Seq<Subscriber>, token: Seq<char>) -> Option<int>
    decreases subs.len(),
{
    if subs.len() == 0 {
        None
    } else {
        match first_with_token(subs.drop_last(), token) {
            Some(i) => Some(i),
            None => if token_of(subs.last().kind) == token {
                Some(subs.len() - 1)
            } else {
                None
            },
        }
    }
}

/// A subscriber found among the first `n` stays the first when more
/// follow.
pub proof fn lemma_first_token_is_stable(subs: Seq<Subscriber>, token: Seq<char>, n: int)
    requires
        0 <= n <= subs.len(),
        first_with_token(subs.take(n), token).is_some(),
    ensures
        first_with_token(subs, token) == first_with_token(subs.take(n), token),
    decreases subs.len() - n,
{
    if n < subs.len() {
        assert(subs.take(n + 1).drop_last() =~= subs.take(n));
        lemma_first_token_is_stable(subs, token, n + 1);
    } else {
        assert(subs.take(n) =~= subs);
    }
}

/// Position of the first subscriber that holds the token of `kind`.
pub fn find_by_kind(reg: &Registry, kind: &SubscriberKind) -> (r: Option<usize>)
    requires
        reg.wf(),
    ensures
        match r {
            Some(i) => first_with_token(reg.subscriber.values(), token_of(*kind)) == Some(
                i as int,
            ) && i < reg.subscriber.values().len(),
            None => first_with_token(reg.subscriber.values(), token_of(*kind)).is_none(),
        },
{
    let n = reg.subscriber.len();
    let mut i: usize = 0;
    assert(reg.subscriber.values().take(0) =~= Seq::<Subscriber>::empty());
    while i < n
        invariant
            reg.wf(),
            n == reg.subscriber.keys().len(),
            i <= n,
            first_with_token(reg.subscriber.values().take(i as int), token_of(*kind)).is_none(),
        decreases n - i,
    {
        let found = match (&reg.subscriber.value_at(i).kind, kind) {
            (SubscriberKind::Apple(a), SubscriberKind::Apple(b)) => *a == *b,
        };
        proof {
            let next = reg.subscriber.values().take(i as int + 1);
            assert(next.drop_last() =~= reg.subscriber.values().take(i as int));
            assert(next.last() == reg.subscriber.values()[i as int]);
        }
        if found {
            proof {
                lemma_first_token_is_stable(reg.subscriber.values(), token_of(*kind), i as int + 1);
            }
            return Some(i);
        }
        i += 1;
    }
    assert(reg.subscriber.values().take(n as int) =~= reg.subscriber.values());
    None
}

/// Registers a push recipient under the identifier `id`. A token that is
/// registered already is refused with 409; an identifier that is taken is
/// refused with the status of `SavingFailed`.
pub fn subscribe(reg: &mut Registry, request: SubscriberRequest, id: String) -> (r: Result<
    Subscriber,
    Reply,
>)
    requires
        old(reg).wf(),
    ensures
        final(reg).wf(),
        final(reg).cluster == old(reg).cluster,
        final(reg).uniform == old(reg).uniform,
        final(reg).processor == old(reg).processor,
        final(reg).camera == old(reg).camera,
        final(reg).evidence == old(reg).evidence,
        final(reg).user == old(reg).user,
        if first_with_token(old(reg).subscriber.values(), token_of(request.kind)).is_some() {
            r matches Err(reply) && reply.status == 409 && reply.body@.len() == 0 && *final(reg)
                == *old(reg)
        } else if old(reg).subscriber@.contains_key(id@) {
            r matches Err(reply) && reply.status == 400 && reply.body@
                == EventKind::SavingFailed.name() && *final(reg) == *old(reg)
        } else {
            r matches Ok(created) && created == (Subscriber {
                id,
                user_id: request.user_id,
                kind: request.kind,
            }) && final(reg).subscriber@ == old(reg).subscriber@.insert(id@, created)
        },
{
    if find_by_kind(reg, &request.kind).is_some() {
        return Err(Reply { status: 409, body: String::new() });
    }
    if reg.subscriber.contains(&id) {
        return Err(error_handler(EventKind::SavingFailed));
    }
    let subscriber = Subscriber { id: id.clone(), user_id: request.user_id, kind: request.kind };
    let created = subscriber.duplicate();
    reg.subscriber.insert(id, subscriber);
    Ok(created)
}

/// Registers a push recipient as [`subscribe`] does, under a fresh
/// identifier. A token that is registered already is refused with 409.
pub fn subscribe_fresh(reg: &mut Registry, request: SubscriberRequest) -> (r: Result<
    Subscriber,
    Reply,
>)
    requires
        old(reg).wf(),
    ensures
        final(reg).wf(),
        final(reg).cluster == old(reg).cluster,
        final(reg).uniform == old(reg).uniform,
        final(reg).processor == old(reg).processor,
        final(reg).camera == old(reg).camera,
        final(reg).evidence == old(reg).evidence,
        final(reg).user == old(reg).user,
        first_with_token(old(reg).subscriber.values(), token_of(request.kind)).is_some() ==> (r matches Err(
            reply,
        ) && reply.status == 409 && reply.body@.len() == 0),
        match r {
            Ok(created) => first_with_token(
                old(reg).subscriber.values(),
                token_of(request.kind),
            ).is_none() && !old(reg).subscriber@.contains_key(created.id@) && created.user_id
                == request.user_id && created.kind == request.kind && final(reg).subscriber@
                == old(reg).subscriber@.insert(created.id@, created),
            Err(_) => *final(reg) == *old(reg),
        },
{
    subscribe(reg, request, fresh_id())
}

/// Replaces user and token of the subscriber `id`. Where there is no such
/// subscriber, nothing changes and the answer is 404.
pub fn refresh(reg: &mut Registry, id: &String, request: SubscriberRequest) -> (r: Result<
    Subscriber,
    Reply,
>)
    requires
        old(reg).wf(),
    ensures
        final(reg).wf(),
        final(reg).cluster == old(reg).cluster,
        final(reg).uniform == old(reg).uniform,
        final(reg).processor == old(reg).processor,
        final(reg).camera == old(reg).camera,
        final(reg).evidence == old(reg).evidence,
        final(reg).user == old(reg).user,
        if old(reg).subscriber@.contains_key(id@) {
            r matches Ok(changed) && changed.id@ == id@ && changed.user_id == request.user_id
                && changed.kind == request.kind && final(reg).subscriber@ == old(reg).subscriber@.insert(id@, changed)
        } else {
            r matches Err(reply) && reply.status == 404 && reply.body@
                == EventKind::NotFound.name() && *final(reg) == *old(reg)
        },
{
    let i = match reg.subscriber.position(id) {
        Some(i) => i,
        None => {
            return Err(error_handler(EventKind::NotFound));
        },
    };
    proof {
        reg.subscriber.lemma_entry(i as int);
    }
    let subscriber = Subscriber { id: id.clone(), user_id: request.user_id, kind: request.kind };
    let changed = subscriber.duplicate();
    reg.subscriber.set_value_at(i, subscriber);
    Ok(changed)
}

/// The kind of subscriber that a request to unsubscribe names.
#[derive(Clone, Copy, Debug, PartialEq, Eq, Structural)]
pub enum SubscriberQueryKind {
    Apple,
}

/// What a request to unsubscribe names: a kind of subscriber and a token.
#[derive(Debug, PartialEq, Eq)]
pub struct SubscriberQuery {
    pub kind: Option<SubscriberQueryKind>,
    pub token: Option<String>,
}

impl SubscriberQuery {
    /// The token that the request names: none unless it gives both a kind
    /// and a token.
    pub open spec fn named_token(self) -> Option<String> {
        if self.kind.is_some() {
            self.token
        } else {
            None
        }
    }

    /// The token that the request names.
    pub fn token_asked(self) -> (r: Option<String>)
        ensures
            r == self.named_token(),
    {
        match self.kind {
            Some(SubscriberQueryKind::Apple) => self.token,
            None => None,
        }
    }
}

/// Removes the first subscriber that holds `token`. A request without a
/// token is refused with 400; a token that nobody holds with 404.
pub fn unsubscribe(reg: &mut Registry, token: Option<String>) -> (r: Reply)
    requires
        old(reg).wf(),
    ensures
        final(reg).wf(),
        final(reg).cluster == old(reg).cluster,
        final(reg).uniform == old(reg).uniform,
        final(reg).processor == old(reg).processor,
        final(reg).camera == old(reg).camera,
        final(reg).evidence == old(reg).evidence,
        final(reg).user == old(reg).user,
        match token {
            None => r.status == 400 && r.body@.len() == 0 && *final(reg) == *old(reg),
            Some(t) => match first_with_token(old(reg).subscriber.values(), t@) {
                None => r.status == 404 && r.body@ == EventKind::NotFound.name() && *final(reg)
                    == *old(reg),
                Some(i) => r.status == 204 && r.body@.len() == 0 && final(reg).subscriber@
                    == old(reg).subscriber@.remove(old(reg).subscriber.keys()[i]),
            },
        },
{
    let t = match token {
        Some(t) => t,
        None => {
            return Reply { status: 400, body: String::new() };
        },
    };
    let kind = SubscriberKind::Apple(t);
    match find_by_kind(reg, &kind) {
        Some(i) => {
            let _ = reg.subscriber.remove_at(i);
            Reply { status: 204, body: String::new() }
        },
        None => error_handler(EventKind::NotFound),
    }
}

/// The rows of a removed processor or camera are gone, and every row of
/// another owner is left as it was.
pub proof fn law_cascade_is_exact(rows: Map<Seq<char>, Evidence>, owner: EvidenceOwner, id: Seq<char>, k: Seq<char>)
    requires
        rows.contains_key(k),
    ensures
        reference(rows[k], owner) == id ==> !without_rows_of(rows, owner, id).contains_key(k),
        reference(rows[k], owner) != id ==> without_rows_of(rows, owner, id).contains_key(k)
            && without_rows_of(rows, owner, id)[k] == rows[k],
{
}

} // verus!
