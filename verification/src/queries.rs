//! The lists that the operator console asks for: cameras, processors,
//! clusters and users, each with the names of what it refers to and with
//! the counts of the evidence that belongs to it.
use crate::device::{CameraAddress, ProcessorAddress};
use crate::error::EventKind;
use crate::push::{count_offenders, violation_count};
use crate::registry::{
    holds_id, reference, refers_to, Camera, Cluster, Evidence, EvidenceOwner, Processor, Registry,
    User, UserRole,
};
use crate::text::texts;
use crate::views::{ClusterRef, ProcessorRef};
use vstd::prelude::*;

verus! {

/// Whether a timestamp lies between the bounds that are given.
pub open spec fn in_range(t: int, min: Option<i64>, max: Option<i64>) -> bool {
    &&& (min matches Some(lo) ==> t >= lo)
    &&& (max matches Some(hi) ==> t <= hi)
}

/// Whether a row belongs to `id` and lies in the range.
pub open spec fn counts_for(
    row: Evidence,
    owner: EvidenceOwner,
    id: Seq<char>,
    min: Option<i64>,
    max: Option<i64>,
) -> bool {
    reference(row, owner) == id && in_range(row.timestamp as int, min, max)
}

/// Number of rows that belong to `id` and lie in the range.
pub open spec fn notifications(
    rows: Seq<Evidence>,
    owner: EvidenceOwner,
    id: Seq<char>,
    min: Option<i64>,
    max: Option<i64>,
) -> nat
    decreases rows.len(),
{
    if rows.len() == 0 {
        0
    } else {
        notifications(rows.drop_last(), owner, id, min, max) + (if counts_for(
            rows.last(),
            owner,
            id,
            min,
            max,
        ) {
            1nat
        } else {
            0nat
        })
    }
}

/// Number of persons that carry a violation, over the rows that belong to
/// `id` and lie in the range.
pub open spec fn violations(
    rows: Seq<Evidence>,
    owner: EvidenceOwner,
    id: Seq<char>,
    min: Option<i64>,
    max: Option<i64>,
) -> nat
    decreases rows.len(),
{
    if rows.len() == 0 {
        0
    } else {
        violations(rows.drop_last(), owner, id, min, max) + (if counts_for(
            rows.last(),
            owner,
            id,
            min,
            max,
        ) {
            violation_count(rows.last()@)
        } else {
            0nat
        })
    }
}

/// A count as a machine number: counts beyond the largest one are shown as
/// the largest.
pub open spec fn clip(n: nat) -> usize {
    if n > usize::MAX {
        usize::MAX
    } else {
        n as usize
    }
}

/// There are no more notifications than rows.
pub proof fn lemma_notifications_bounded(
    rows: Seq<Evidence>,
    owner: EvidenceOwner,
    id: Seq<char>,
    min: Option<i64>,
    max: Option<i64>,
)
    ensures
        notifications(rows, owner, id, min, max) <= rows.len(),
    decreases rows.len(),
{
    if rows.len() > 0 {
        lemma_notifications_bounded(rows.drop_last(), owner, id, min, max);
    }
}

/// The two counts of the evidence that belongs to `id` and lies in the
/// range: rows first, then persons that carry a violation.
pub fn tally(reg: &Registry, owner: EvidenceOwner, id: &String, min: Option<i64>, max: Option<i64>) -> (r:
    (usize, usize))
    requires
        reg.wf(),
    ensures
        r.0 == notifications(reg.evidence.values(), owner, id@, min, max),
        r.1 == clip(violations(reg.evidence.values(), owner, id@, min, max)),
{
    let n = reg.evidence.len();
    let mut rows: usize = 0;
    let mut persons: usize = 0;
    let mut i: usize = 0;
    assert(reg.evidence.values().take(0) =~= Seq::<Evidence>::empty());
    while i < n
        invariant
            reg.wf(),
            n == reg.evidence.keys().len(),
            i <= n,
            rows <= i,
            rows == notifications(reg.evidence.values().take(i as int), owner, id@, min, max),
            persons == clip(violations(reg.evidence.values().take(i as int), owner, id@, min, max)),
        decreases n - i,
    {
        let row = reg.evidence.value_at(i);
        proof {
            let next = reg.evidence.values().take(i as int + 1);
            assert(next.drop_last() =~= reg.evidence.values().take(i as int));
            assert(next.last() == *row);
        }
        let after = match min {
            Some(lo) => row.timestamp >= lo,
            None => true,
        };
        let before = match max {
            Some(hi) => row.timestamp <= hi,
            None => true,
        };
        if refers_to(row, owner, id) && after && before {
            rows += 1;
            let k = count_offenders(row);
            if persons > usize::MAX - k {
                persons = usize::MAX;
            } else {
                persons += k;
            }
        }
        i += 1;
    }
    assert(reg.evidence.values().take(n as int) =~= reg.evidence.values());
    (rows, persons)
}

/// The part of a list that a page shows: what is left after the first
/// `skip` entries, cut to `limit` entries.
pub open spec fn window<T>(s: Seq<T>, skip: Option<usize>, limit: Option<usize>) -> Seq<T> {
    let from = match skip {
        Some(k) => if k < s.len() {
            k as int
        } else {
            s.len() as int
        },
        None => 0,
    };
    let rest = s.subrange(from, s.len() as int);
    match limit {
        Some(l) => if l < rest.len() {
            rest.take(l as int)
        } else {
            rest
        },
        None => rest,
    }
}

/// The part of a list that a page shows.
pub fn paginate<T>(v: Vec<T>, skip: Option<usize>, limit: Option<usize>) -> (r: Vec<T>)
    ensures
        r@ == window(v@, skip, limit),
{
    let mut head = v;
    let from = match skip {
        Some(k) => if k < head.len() {
            k
        } else {
            head.len()
        },
        None => 0,
    };
    let mut rest = head.split_off(from);
    match limit {
        Some(l) => {
            if l < rest.len() {
                rest.truncate(l);
            }
        },
        None => {},
    }
    assert(rest@ =~= window(v@, skip, limit));
    rest
}

/// The cluster `id` by identifier and name; a cluster that the store does
/// not know is named by its identifier.
pub open spec fn cluster_ref(reg: Registry, id: String) -> ClusterRef {
    ClusterRef {
        id,
        name: if reg.cluster@.contains_key(id@) {
            reg.cluster@[id@].name
        } else {
            id
        },
    }
}

/// The processor `id` by identifier and name; a processor that the store
/// does not know is named by its identifier.
pub open spec fn processor_ref(reg: Registry, id: String) -> ProcessorRef {
    ProcessorRef {
        id,
        name: if reg.processor@.contains_key(id@) {
            reg.processor@[id@].name
        } else {
            id
        },
    }
}

fn name_cluster(reg: &Registry, id: &String) -> (r: ClusterRef)
    requires
        reg.wf(),
    ensures
        r == cluster_ref(*reg, *id),
{
    match reg.cluster.get(id) {
        Some(c) => ClusterRef { id: id.clone(), name: c.name.clone() },
        None => ClusterRef { id: id.clone(), name: id.clone() },
    }
}

fn name_processor(reg: &Registry, id: &String) -> (r: ProcessorRef)
    requires
        reg.wf(),
    ensures
        r == processor_ref(*reg, *id),
{
    match reg.processor.get(id) {
        Some(p) => ProcessorRef { id: id.clone(), name: p.name.clone() },
        None => ProcessorRef { id: id.clone(), name: id.clone() },
    }
}

/// A filter on names. The pattern is a regular expression that the
/// document store matches against the name of each row of one kind,
/// without regard to case; `matched` holds the identifiers of the rows
/// whose names it matched.
#[derive(Debug, PartialEq, Eq)]
pub struct TextFilter {
    pub pattern: String,
    pub matched: Vec<String>,
}

/// Whether the row `id` passes the filter on names: every row does where
/// there is none, and the rows that the pattern matched where there is one.
pub open spec fn text_passes(text: Option<TextFilter>, id: Seq<char>) -> bool {
    text matches Some(t) ==> texts(t.matched@).contains(id)
}

/// Whether the row `id` passes the filter on names.
pub fn passes_text(text: &Option<TextFilter>, id: &String) -> (r: bool)
    ensures
        r == text_passes(*text, id@),
{
    match text {
        Some(t) => holds_id(&t.matched, id),
        None => true,
    }
}

/// Filter and page of the camera list. A field that is absent admits every
/// camera.
#[derive(Debug, PartialEq, Eq)]
pub struct CameraQuery {
    pub cluster_id: Option<String>,
    pub processor_id: Option<String>,
    pub date_minimum: Option<i64>,
    pub date_maximum: Option<i64>,
    pub text: Option<TextFilter>,
    pub limit: Option<usize>,
    pub skip: Option<usize>,
}

/// A camera as the console lists it.
#[derive(Debug, PartialEq, Eq)]
pub struct ViewCamera {
    pub id: String,
    pub cluster: ClusterRef,
    pub processor: ProcessorRef,
    pub address: CameraAddress,
    pub name: String,
    pub notification_count: usize,
    pub violation_count: usize,
}

/// Whether a camera passes the filter given by cluster, processor and
/// name.
pub open spec fn camera_passes(
    cam: Camera,
    cluster: Option<String>,
    processor: Option<String>,
    text: Option<TextFilter>,
) -> bool {
    &&& (cluster matches Some(c) ==> cam.cluster_id@ == c@)
    &&& (processor matches Some(p) ==> cam.processor_id@ == p@)
    &&& text_passes(text, cam.id@)
}

/// A camera as the console lists it, with its counts over the range.
pub open spec fn camera_listed(cam: Camera, reg: Registry, min: Option<i64>, max: Option<i64>) -> ViewCamera {
    ViewCamera {
        id: cam.id,
        cluster: cluster_ref(reg, cam.cluster_id),
        processor: processor_ref(reg, cam.processor_id),
        address: cam.address,
        name: cam.name,
        notification_count: notifications(
            reg.evidence.values(),
            EvidenceOwner::Camera,
            cam.id@,
            min,
            max,
        ) as usize,
        violation_count: clip(
            violations(reg.evidence.values(), EvidenceOwner::Camera, cam.id@, min, max),
        ),
    }
}

/// The cameras among `cams` that pass the filter, in order, as the console
/// lists them.
pub open spec fn cameras_listed(
    cams: Seq<Camera>,
    reg: Registry,
    cluster: Option<String>,
    processor: Option<String>,
    min: Option<i64>,
    max: Option<i64>,
    text: Option<TextFilter>,
) -> Seq<ViewCamera>
    decreases cams.len(),
{
    if cams.len() == 0 {
        Seq::empty()
    } else if camera_passes(cams.last(), cluster, processor, text) {
        cameras_listed(cams.drop_last(), reg, cluster, processor, min, max, text).push(
            camera_listed(cams.last(), reg, min, max),
        )
    } else {
        cameras_listed(cams.drop_last(), reg, cluster, processor, min, max, text)
    }
}

fn list_cameras(
    reg: &Registry,
    cluster: &Option<String>,
    processor: &Option<String>,
    min: Option<i64>,
    max: Option<i64>,
    text: &Option<TextFilter>,
) -> (r: Vec<ViewCamera>)
    requires
        reg.wf(),
    ensures
        r@ == cameras_listed(reg.camera.values(), *reg, *cluster, *processor, min, max, *text),
{
    let mut r: Vec<ViewCamera> = Vec::new();
    let n = reg.camera.len();
    let mut i: usize = 0;
    assert(reg.camera.values().take(0) =~= Seq::<Camera>::empty());
    while i < n
        invariant
            reg.wf(),
            n == reg.camera.keys().len(),
            i <= n,
            r@ == cameras_listed(
                reg.camera.values().take(i as int),
                *reg,
                *cluster,
                *processor,
                min,
                max,
                *text,
            ),
        decreases n - i,
    {
        let cam = reg.camera.value_at(i);
        proof {
            let next = reg.camera.values().take(i as int + 1);
            assert(next.drop_last() =~= reg.camera.values().take(i as int));
            assert(next.last() == *cam);
        }
        let by_cluster = match cluster {
            Some(c) => cam.cluster_id == *c,
            None => true,
        };
        let by_processor = match processor {
            Some(p) => cam.processor_id == *p,
            None => true,
        };
        if by_cluster && by_processor && passes_text(text, &cam.id) {
            let counts = tally(reg, EvidenceOwner::Camera, &cam.id, min, max);
            r.push(
                ViewCamera {
                    id: cam.id.clone(),
                    cluster: name_cluster(reg, &cam.cluster_id),
                    processor: name_processor(reg, &cam.processor_id),
                    address: cam.address.duplicate(),
                    name: cam.name.clone(),
                    notification_count: counts.0,
                    violation_count: counts.1,
                },
            );
        }
        i += 1;
    }
    assert(reg.camera.values().take(n as int) =~= reg.camera.values());
    r
}

impl ViewCamera {
    /// The page of the camera list that `query` asks for: the cameras of
    /// the store that pass the filter, in the order of the store, each
    /// with its counts over the range of the query. An empty page is
    /// answered with `NotFound`.
    pub fn find_many(query: &CameraQuery, reg: &Registry) -> (r: Result<Vec<Self>, EventKind>)
        requires
            reg.wf(),
        ensures
            match r {
                Ok(v) => v@.len() > 0 && v@ == window(
                    cameras_listed(
                        reg.camera.values(),
                        *reg,
                        query.cluster_id,
                        query.processor_id,
                        query.date_minimum,
                        query.date_maximum,
                        query.text,
                    ),
                    query.skip,
                    query.limit,
                ),
                Err(e) => e == EventKind::NotFound && window(
                    cameras_listed(
                        reg.camera.values(),
                        *reg,
                        query.cluster_id,
                        query.processor_id,
                        query.date_minimum,
                        query.date_maximum,
                        query.text,
                    ),
                    query.skip,
                    query.limit,
                ).len() == 0,
            },
    {
        let all = list_cameras(
            reg,
            &query.cluster_id,
            &query.processor_id,
            query.date_minimum,
            query.date_maximum,
            &query.text,
        );
        let page = paginate(all, query.skip, query.limit);
        if page.len() > 0 {
            Ok(page)
        } else {
            Err(EventKind::NotFound)
        }
    }
}

/// Filter and page of the processor list.
#[derive(Debug, PartialEq, Eq)]
pub struct ProcessorQuery {
    pub processor_id: Option<String>,
    pub cluster_id: Option<String>,
    pub date_minimum: Option<i64>,
    pub date_maximum: Option<i64>,
    pub text: Option<TextFilter>,
    pub limit: Option<usize>,
    pub skip: Option<usize>,
}

/// A processor as the console lists it.
#[derive(Debug, PartialEq, Eq)]
pub struct ViewProcessor {
    pub id: String,
    pub cluster: ClusterRef,
    pub camera: Vec<ViewCamera>,
    pub address: ProcessorAddress,
    pub name: String,
    pub notification_count: usize,
    pub violation_count: usize,
}

impl ProcessorQuery {
    /// Whether the query admits a processor.
    pub open spec fn admits(&self, p: Processor) -> bool {
        &&& (self.processor_id matches Some(id) ==> p.id@ == id@)
        &&& (self.cluster_id matches Some(c) ==> p.cluster_id@ == c@)
        &&& text_passes(self.text, p.id@)
    }

    /// Whether the query admits a processor.
    pub fn matches(&self, p: &Processor) -> (r: bool)
        ensures
            r == self.admits(*p),
    {
        let by_id = match &self.processor_id {
            Some(id) => p.id == *id,
            None => true,
        };
        let by_cluster = match &self.cluster_id {
            Some(c) => p.cluster_id == *c,
            None => true,
        };
        by_id && by_cluster && passes_text(&self.text, &p.id)
    }
}

/// Whether `shown` lists processor `p`: its own fields, the name of its
/// cluster, its counts over the range, and its cameras as the camera list
/// with the given cluster filter and range shows them.
pub open spec fn lists_processor(
    shown: ViewProcessor,
    p: Processor,
    reg: Registry,
    cluster: Option<String>,
    min: Option<i64>,
    max: Option<i64>,
) -> bool {
    &&& shown.id == p.id
    &&& shown.cluster == cluster_ref(reg, p.cluster_id)
    &&& shown.address == p.address
    &&& shown.name == p.name
    &&& shown.notification_count == notifications(
        reg.evidence.values(),
        EvidenceOwner::Processor,
        p.id@,
        min,
        max,
    )
    &&& shown.violation_count == clip(
        violations(reg.evidence.values(), EvidenceOwner::Processor, p.id@, min, max),
    )
    &&& shown.camera@ == cameras_listed(reg.camera.values(), reg, cluster, Some(p.id), min, max, None)
}

/// The processors among `ps` that the query admits, in order.
pub open spec fn processors_admitted(ps: Seq<Processor>, q: ProcessorQuery) -> Seq<Processor>
    decreases ps.len(),
{
    if ps.len() == 0 {
        Seq::empty()
    } else if q.admits(ps.last()) {
        processors_admitted(ps.drop_last(), q).push(ps.last())
    } else {
        processors_admitted(ps.drop_last(), q)
    }
}

fn show_processor(
    reg: &Registry,
    p: &Processor,
    cluster: &Option<String>,
    min: Option<i64>,
    max: Option<i64>,
) -> (r: ViewProcessor)
    requires
        reg.wf(),
    ensures
        lists_processor(r, *p, *reg, *cluster, min, max),
{
    let counts = tally(reg, EvidenceOwner::Processor, &p.id, min, max);
    let own = Some(p.id.clone());
    ViewProcessor {
        id: p.id.clone(),
        cluster: name_cluster(reg, &p.cluster_id),
        camera: list_cameras(reg, cluster, &own, min, max, &None),
        address: p.address,
        name: p.name.clone(),
        notification_count: counts.0,
        violation_count: counts.1,
    }
}

fn admitted_processors<'a>(reg: &'a Registry, query: &ProcessorQuery) -> (r: Vec<&'a Processor>)
    requires
        reg.wf(),
    ensures
        r@.len() == processors_admitted(reg.processor.values(), *query).len(),
        forall|i: int|
            0 <= i < r@.len() ==> *(#[trigger] r@[i]) == processors_admitted(
                reg.processor.values(),
                *query,
            )[i],
{
    let mut r: Vec<&Processor> = Vec::new();
    let n = reg.processor.len();
    let mut i: usize = 0;
    assert(reg.processor.values().take(0) =~= Seq::<Processor>::empty());
    while i < n
        invariant
            reg.wf(),
            n == reg.processor.keys().len(),
            i <= n,
            r@.len() == processors_admitted(reg.processor.values().take(i as int), *query).len(),
            forall|j: int|
                0 <= j < r@.len() ==> *(#[trigger] r@[j]) == processors_admitted(
                    reg.processor.values().take(i as int),
                    *query,
                )[j],
        decreases n - i,
    {
        let p = reg.processor.value_at(i);
        proof {
            let next = reg.processor.values().take(i as int + 1);
            assert(next.drop_last() =~= reg.processor.values().take(i as int));
            assert(next.last() == *p);
        }
        if query.matches(p) {
            r.push(p);
        }
        i += 1;
    }
    assert(reg.processor.values().take(n as int) =~= reg.processor.values());
    r
}

impl ViewProcessor {
    /// The page of the processor list that `query` asks for: the
    /// processors of the store that the query admits, in the order of the
    /// store, each with its cameras and its counts over the range of the
    /// query. An empty page is answered with `NotFound`.
    pub fn find_many(query: &ProcessorQuery, reg: &Registry) -> (r: Result<Vec<Self>, EventKind>)
        requires
            reg.wf(),
        ensures
            match r {
                Ok(v) => {
                    let page = window(
                        processors_admitted(reg.processor.values(), *query),
                        query.skip,
                        query.limit,
                    );
                    &&& v@.len() > 0
                    &&& v@.len() == page.len()
                    &&& forall|i: int|
                        0 <= i < v@.len() ==> lists_processor(
                            #[trigger] v@[i],
                            page[i],
                            *reg,
                            query.cluster_id,
                            query.date_minimum,
                            query.date_maximum,
                        )
                },
                Err(e) => e == EventKind::NotFound && window(
                    processors_admitted(reg.processor.values(), *query),
                    query.skip,
                    query.limit,
                ).len() == 0,
            },
    {
        let all = admitted_processors(reg, query);
        let ghost listed = processors_admitted(reg.processor.values(), *query);
        let ghost before = all@;
        let page = paginate(all, query.skip, query.limit);
        let ghost wanted = window(listed, query.skip, query.limit);
        proof {
            assert(page@.len() == wanted.len());
            assert forall|i: int| 0 <= i < page@.len() implies *(#[trigger] page@[i])
                == wanted[i] by {
                let from = if query.skip.is_some() && query.skip.unwrap() < before.len() {
                    query.skip.unwrap() as int
                } else if query.skip.is_some() {
                    before.len() as int
                } else {
                    0
                };
                assert(page@[i] == before[from + i]);
                assert(wanted[i] == listed[from + i]);
            }
        }
        let mut shown: Vec<ViewProcessor> = Vec::new();
        let mut i: usize = 0;
        while i < page.len()
            invariant
                reg.wf(),
                i <= page.len(),
                page@.len() == wanted.len(),
                forall|j: int| 0 <= j < page@.len() ==> *(#[trigger] page@[j]) == wanted[j],
                shown@.len() == i,
                forall|j: int|
                    0 <= j < i ==> lists_processor(
                        #[trigger] shown@[j],
                        wanted[j],
                        *reg,
                        query.cluster_id,
                        query.date_minimum,
                        query.date_maximum,
                    ),
            decreases page.len() - i,
        {
            let one = show_processor(
                reg,
                page[i],
                &query.cluster_id,
                query.date_minimum,
                query.date_maximum,
            );
            shown.push(one);
            i += 1;
        }
        if shown.len() > 0 {
            Ok(shown)
        } else {
            Err(EventKind::NotFound)
        }
    }

    /// The first processor of the store that `query` admits, with all of
    /// its cameras and its counts over the range of the query. Where the
    /// query admits none, the answer is `NotFound`.
    pub fn find_one(query: &ProcessorQuery, reg: &Registry) -> (r: Result<Self, EventKind>)
        requires
            reg.wf(),
        ensures
            match r {
                Ok(shown) => processors_admitted(reg.processor.values(), *query).len() > 0
                    && shown.id == processors_admitted(reg.processor.values(), *query)[0].id
                    && shown.cluster == cluster_ref(
                    *reg,
                    processors_admitted(reg.processor.values(), *query)[0].cluster_id,
                ) && shown.address == processors_admitted(reg.processor.values(), *query)[0].address
                    && shown.name == processors_admitted(reg.processor.values(), *query)[0].name
                    && shown.notification_count == notifications(
                    reg.evidence.values(),
                    EvidenceOwner::Processor,
                    shown.id@,
                    query.date_minimum,
                    query.date_maximum,
                ) && shown.violation_count == clip(
                    violations(
                        reg.evidence.values(),
                        EvidenceOwner::Processor,
                        shown.id@,
                        query.date_minimum,
                        query.date_maximum,
                    ),
                ) && shown.camera@ == cameras_listed(
                    reg.camera.values(),
                    *reg,
                    None,
                    Some(shown.id),
                    None,
                    None,
                    None,
                ),
                Err(e) => e == EventKind::NotFound && processors_admitted(
                    reg.processor.values(),
                    *query,
                ).len() == 0,
            },
    {
        let all = admitted_processors(reg, query);
        if all.len() == 0 {
            return Err(EventKind::NotFound);
        }
        let p = all[0];
        let counts = tally(
            reg,
            EvidenceOwner::Processor,
            &p.id,
            query.date_minimum,
            query.date_maximum,
        );
        let own = Some(p.id.clone());
        let none: Option<String> = None;
        let cameras = list_cameras(reg, &none, &own, None, None, &None);
        Ok(
            ViewProcessor {
                id: p.id.clone(),
                cluster: name_cluster(reg, &p.cluster_id),
                camera: cameras,
                address: p.address,
                name: p.name.clone(),
                notification_count: counts.0,
                violation_count: counts.1,
            },
        )
    }
}

/// Filter of the cluster list.
#[derive(Debug, PartialEq, Eq)]
pub struct ClusterQuery {
    pub cluster_id: Option<Vec<String>>,
    pub date_minimum: Option<i64>,
    pub date_maximum: Option<i64>,
    pub text: Option<TextFilter>,
}

/// A cluster as the console lists it.
#[derive(Debug, PartialEq, Eq)]
pub struct ViewCluster {
    pub id: String,
    pub name: String,
    pub processor_count: usize,
    pub notification_count: usize,
    pub violation_count: usize,
}

/// Number of processors among `ps` that stand in cluster `id`.
pub open spec fn processors_in(ps: Seq<Processor>, id: Seq<char>) -> nat
    decreases ps.len(),
{
    if ps.len() == 0 {
        0
    } else {
        processors_in(ps.drop_last(), id) + (if ps.last().cluster_id@ == id {
            1nat
        } else {
            0nat
        })
    }
}

/// Whether the cluster filter and the filter on names admit the cluster
/// `id`.
pub open spec fn cluster_passes(filter: Option<Vec<String>>, text: Option<TextFilter>, id: Seq<char>) -> bool {
    (filter matches Some(ids) ==> texts(ids@).contains(id)) && text_passes(text, id)
}

/// A cluster as the console lists it, with its counts over the range.
pub open spec fn cluster_listed(c: Cluster, reg: Registry, min: Option<i64>, max: Option<i64>) -> ViewCluster {
    ViewCluster {
        id: c.id,
        name: c.name,
        processor_count: processors_in(reg.processor.values(), c.id@) as usize,
        notification_count: notifications(
            reg.evidence.values(),
            EvidenceOwner::Cluster,
            c.id@,
            min,
            max,
        ) as usize,
        violation_count: clip(
            violations(reg.evidence.values(), EvidenceOwner::Cluster, c.id@, min, max),
        ),
    }
}

/// The clusters among `cs` that the filter admits, in order, as the
/// console lists them.
pub open spec fn clusters_listed(
    cs: Seq<Cluster>,
    reg: Registry,
    filter: Option<Vec<String>>,
    min: Option<i64>,
    max: Option<i64>,
    text: Option<TextFilter>,
) -> Seq<ViewCluster>
    decreases cs.len(),
{
    if cs.len() == 0 {
        Seq::empty()
    } else if cluster_passes(filter, text, cs.last().id@) {
        clusters_listed(cs.drop_last(), reg, filter, min, max, text).push(
            cluster_listed(cs.last(), reg, min, max),
        )
    } else {
        clusters_listed(cs.drop_last(), reg, filter, min, max, text)
    }
}

fn count_processors(reg: &Registry, id: &String) -> (r: usize)
    requires
        reg.wf(),
    ensures
        r == processors_in(reg.processor.values(), id@),
{
    let n = reg.processor.len();
    let mut r: usize = 0;
    let mut i: usize = 0;
    assert(reg.processor.values().take(0) =~= Seq::<Processor>::empty());
    while i < n
        invariant
            reg.wf(),
            n == reg.processor.keys().len(),
            i <= n,
            r <= i,
            r == processors_in(reg.processor.values().take(i as int), id@),
        decreases n - i,
    {
        proof {
            let next = reg.processor.values().take(i as int + 1);
            assert(next.drop_last() =~= reg.processor.values().take(i as int));
            assert(next.last() == reg.processor.values()[i as int]);
        }
        if reg.processor.value_at(i).cluster_id == *id {
            r += 1;
        }
        i += 1;
    }
    assert(reg.processor.values().take(n as int) =~= reg.processor.values());
    r
}

impl ViewCluster {
    /// The clusters of the store that `query` admits, in the order of the
    /// store, each with the number of its processors and its counts over
    /// the range of the query. Where the query admits none, the answer is
    /// `NotFound`.
    pub fn find_many(query: &ClusterQuery, reg: &Registry) -> (r: Result<Vec<Self>, EventKind>)
        requires
            reg.wf(),
        ensures
            match r {
                Ok(v) => v@.len() > 0 && v@ == clusters_listed(
                    reg.cluster.values(),
                    *reg,
                    query.cluster_id,
                    query.date_minimum,
                    query.date_maximum,
                    query.text,
                ),
                Err(e) => e == EventKind::NotFound && clusters_listed(
                    reg.cluster.values(),
                    *reg,
                    query.cluster_id,
                    query.date_minimum,
                    query.date_maximum,
                    query.text,
                ).len() == 0,
            },
    {
        let mut r: Vec<ViewCluster> = Vec::new();
        let n = reg.cluster.len();
        let mut i: usize = 0;
        assert(reg.cluster.values().take(0) =~= Seq::<Cluster>::empty());
        while i < n
            invariant
                reg.wf(),
                n == reg.cluster.keys().len(),
                i <= n,
                r@ == clusters_listed(
                    reg.cluster.values().take(i as int),
                    *reg,
                    query.cluster_id,
                    query.date_minimum,
                    query.date_maximum,
                    query.text,
                ),
            decreases n - i,
        {
            let c = reg.cluster.value_at(i);
            proof {
                let next = reg.cluster.values().take(i as int + 1);
                assert(next.drop_last() =~= reg.cluster.values().take(i as int));
                assert(next.last() == *c);
            }
            let listed = match &query.cluster_id {
                Some(ids) => holds_id(ids, &c.id),
                None => true,
            };
            let passes = listed && passes_text(&query.text, &c.id);
            if passes {
                let counts = tally(
                    reg,
                    EvidenceOwner::Cluster,
                    &c.id,
                    query.date_minimum,
                    query.date_maximum,
                );
                proof {
                    lemma_notifications_bounded(
                        reg.evidence.values(),
                        EvidenceOwner::Cluster,
                        c.id@,
                        query.date_minimum,
                        query.date_maximum,
                    );
                }
                r.push(
                    ViewCluster {
                        id: c.id.clone(),
                        name: c.name.clone(),
                        processor_count: count_processors(reg, &c.id),
                        notification_count: counts.0,
                        violation_count: counts.1,
                    },
                );
            }
            i += 1;
        }
        assert(reg.cluster.values().take(n as int) =~= reg.cluster.values());
        if r.len() > 0 {
            Ok(r)
        } else {
            Err(EventKind::NotFound)
        }
    }

    /// The first cluster of the store that `query` admits, as
    /// [`ViewCluster::find_many`] lists it.
    pub fn find_one(query: &ClusterQuery, reg: &Registry) -> (r: Result<Self, EventKind>)
        requires
            reg.wf(),
        ensures
            match r {
                Ok(shown) => clusters_listed(
                    reg.cluster.values(),
                    *reg,
                    query.cluster_id,
                    query.date_minimum,
                    query.date_maximum,
                    query.text,
                ).len() > 0 && shown == clusters_listed(
                    reg.cluster.values(),
                    *reg,
                    query.cluster_id,
                    query.date_minimum,
                    query.date_maximum,
                    query.text,
                )[0],
                Err(e) => e == EventKind::NotFound && clusters_listed(
                    reg.cluster.values(),
                    *reg,
                    query.cluster_id,
                    query.date_minimum,
                    query.date_maximum,
                    query.text,
                ).len() == 0,
            },
    {
        match ViewCluster::find_many(query, reg) {
            Ok(all) => {
                let mut all = all;
                let first = all.swap_remove(0);
                Ok(first)
            },
            Err(e) => Err(e),
        }
    }
}

/// Filter and page of the user list.
#[derive(Debug, PartialEq, Eq)]
pub struct UserQuery {
    /// Only users that belong to this cluster.
    pub cluster_id: Option<String>,
    /// Only users that do not belong to this cluster and are no super
    /// admin.
    pub cluster_eid: Option<String>,
    pub text: Option<TextFilter>,
    pub limit: Option<usize>,
    pub skip: Option<usize>,
}

/// A user as the console lists it.
#[derive(Debug, PartialEq, Eq)]
pub struct ViewUser {
    pub id: String,
    pub cluster: Vec<ClusterRef>,
    pub number: String,
    pub name: String,
    pub role: UserRole,
}

impl UserQuery {
    /// Whether the query admits a user.
    pub open spec fn admits(&self, u: User) -> bool {
        &&& (self.cluster_id matches Some(c) ==> texts(u.cluster_id@).contains(c@))
        &&& (self.cluster_eid matches Some(c) ==> !texts(u.cluster_id@).contains(c@) && u.role
            != UserRole::SuperAdmin)
        &&& text_passes(self.text, u.id@)
    }

    /// Whether the query admits a user.
    pub fn matches(&self, u: &User) -> (r: bool)
        ensures
            r == self.admits(*u),
    {
        let inside = match &self.cluster_id {
            Some(c) => holds_id(&u.cluster_id, c),
            None => true,
        };
        let outside = match &self.cluster_eid {
            Some(c) => {
                let admin = match u.role {
                    UserRole::SuperAdmin => true,
                    _ => false,
                };
                !holds_id(&u.cluster_id, c) && !admin
            },
            None => true,
        };
        inside && outside && passes_text(&self.text, &u.id)
    }
}

/// The clusters among `cs` to which a user with the memberships `ids`
/// belongs, in order, by identifier and name.
pub open spec fn memberships(cs: Seq<Cluster>, ids: Seq<Seq<char>>) -> Seq<ClusterRef>
    decreases cs.len(),
{
    if cs.len() == 0 {
        Seq::empty()
    } else if ids.contains(cs.last().id@) {
        memberships(cs.drop_last(), ids).push(
            ClusterRef { id: cs.last().id, name: cs.last().name },
        )
    } else {
        memberships(cs.drop_last(), ids)
    }
}

/// Whether `shown` lists user `u`: its own fields without the password,
/// and the clusters of the store to which it belongs.
pub open spec fn lists_user(shown: ViewUser, u: User, reg: Registry) -> bool {
    &&& shown.id == u.id
    &&& shown.number == u.number
    &&& shown.name == u.name
    &&& shown.role == u.role
    &&& shown.cluster@ == memberships(reg.cluster.values(), texts(u.cluster_id@))
}

/// The users among `us` that the query admits, in order.
pub open spec fn users_admitted(us: Seq<User>, q: UserQuery) -> Seq<User>
    decreases us.len(),
{
    if us.len() == 0 {
        Seq::empty()
    } else if q.admits(us.last()) {
        users_admitted(us.drop_last(), q).push(us.last())
    } else {
        users_admitted(us.drop_last(), q)
    }
}

fn admitted_users<'a>(reg: &'a Registry, query: &UserQuery) -> (r: Vec<&'a User>)
    requires
        reg.wf(),
    ensures
        r@.len() == users_admitted(reg.user.values(), *query).len(),
        forall|i: int|
            0 <= i < r@.len() ==> *(#[trigger] r@[i]) == users_admitted(
                reg.user.values(),
                *query,
            )[i],
{
    let mut r: Vec<&User> = Vec::new();
    let n = reg.user.len();
    let mut i: usize = 0;
    assert(reg.user.values().take(0) =~= Seq::<User>::empty());
    while i < n
        invariant
            reg.wf(),
            n == reg.user.keys().len(),
            i <= n,
            r@.len() == users_admitted(reg.user.values().take(i as int), *query).len(),
            forall|j: int|
                0 <= j < r@.len() ==> *(#[trigger] r@[j]) == users_admitted(
                    reg.user.values().take(i as int),
                    *query,
                )[j],
        decreases n - i,
    {
        let u = reg.user.value_at(i);
        proof {
            let next = reg.user.values().take(i as int + 1);
            assert(next.drop_last() =~= reg.user.values().take(i as int));
            assert(next.last() == *u);
        }
        if query.matches(u) {
            r.push(u);
        }
        i += 1;
    }
    assert(reg.user.values().take(n as int) =~= reg.user.values());
    r
}

impl ViewUser {
    /// A user as the console lists it: without the password, and with the
    /// clusters of the store to which the user belongs, in the order of
    /// the store. A membership in a cluster that the store does not know is
    /// not shown.
    pub fn from(user: &User, reg: &Registry) -> (r: Self)
        requires
            reg.wf(),
        ensures
            lists_user(r, *user, *reg),
    {
        let mut cluster: Vec<ClusterRef> = Vec::new();
        let n = reg.cluster.len();
        let mut i: usize = 0;
        assert(reg.cluster.values().take(0) =~= Seq::<Cluster>::empty());
        while i < n
            invariant
                reg.wf(),
                n == reg.cluster.keys().len(),
                i <= n,
                cluster@ == memberships(
                    reg.cluster.values().take(i as int),
                    texts(user.cluster_id@),
                ),
            decreases n - i,
        {
            let c = reg.cluster.value_at(i);
            proof {
                let next = reg.cluster.values().take(i as int + 1);
                assert(next.drop_last() =~= reg.cluster.values().take(i as int));
                assert(next.last() == *c);
            }
            if holds_id(&user.cluster_id, &c.id) {
                cluster.push(ClusterRef { id: c.id.clone(), name: c.name.clone() });
            }
            i += 1;
        }
        assert(reg.cluster.values().take(n as int) =~= reg.cluster.values());
        ViewUser {
            id: user.id.clone(),
            cluster,
            number: user.number.clone(),
            name: user.name.clone(),
            role: user.role,
        }
    }

    /// The page of the user list that `query` asks for: the users of the
    /// store that the query admits, in the order of the store. An empty
    /// page is answered with `NotFound`.
    pub fn find_many(query: &UserQuery, reg: &Registry) -> (r: Result<Vec<Self>, EventKind>)
        requires
            reg.wf(),
        ensures
            match r {
                Ok(v) => {
                    let page = window(
                        users_admitted(reg.user.values(), *query),
                        query.skip,
                        query.limit,
                    );
                    &&& v@.len() > 0
                    &&& v@.len() == page.len()
                    &&& forall|i: int|
                        0 <= i < v@.len() ==> lists_user(#[trigger] v@[i], page[i], *reg)
                },
                Err(e) => e == EventKind::NotFound && window(
                    users_admitted(reg.user.values(), *query),
                    query.skip,
                    query.limit,
                ).len() == 0,
            },
    {
        let all = admitted_users(reg, query);
        let ghost listed = users_admitted(reg.user.values(), *query);
        let ghost before = all@;
        let page = paginate(all, query.skip, query.limit);
        let ghost wanted = window(listed, query.skip, query.limit);
        proof {
            assert(page@.len() == wanted.len());
            assert forall|i: int| 0 <= i < page@.len() implies *(#[trigger] page@[i])
                == wanted[i] by {
                let from = if query.skip.is_some() && query.skip.unwrap() < before.len() {
                    query.skip.unwrap() as int
                } else if query.skip.is_some() {
                    before.len() as int
                } else {
                    0
                };
                assert(page@[i] == before[from + i]);
                assert(wanted[i] == listed[from + i]);
            }
        }
        let mut shown: Vec<ViewUser> = Vec::new();
        let mut i: usize = 0;
        while i < page.len()
            invariant
                reg.wf(),
                i <= page.len(),
                page@.len() == wanted.len(),
                forall|j: int| 0 <= j < page@.len() ==> *(#[trigger] page@[j]) == wanted[j],
                shown@.len() == i,
                forall|j: int| 0 <= j < i ==> lists_user(#[trigger] shown@[j], wanted[j], *reg),
            decreases page.len() - i,
        {
            let one = ViewUser::from(page[i], reg);
            shown.push(one);
            i += 1;
        }
        if shown.len() > 0 {
            Ok(shown)
        } else {
            Err(EventKind::NotFound)
        }
    }
}

} // verus!
