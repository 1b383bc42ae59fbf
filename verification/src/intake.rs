//! Evidence intake on the server: what an upload must carry, the record it
//! becomes, and what follows once the record is persisted or not.
use crate::clock::fresh_id;
use crate::error::{error_handler, EventKind, Reply};
use crate::evidence::{person_views, EvidencePerson, PersonView};
use crate::hub::{delivered, saturated, CentralWebSocketResponse, Hub, ResponseView};
use crate::registry::{Evidence, RecordView, Registry};
use crate::text::texts;
use crate::views::{projected, ViewEvidence};
use vstd::prelude::*;

verus! {

/// What the `data` part of an upload carries.
#[derive(Debug)]
pub struct EvidenceRequest {
    pub camera_id: String,
    pub frame_id: String,
    pub timestamp: i64,
    pub person: Vec<EvidencePerson>,
}

/// Mathematical value of an [`EvidenceRequest`].
pub ghost struct RequestView {
    pub camera_id: Seq<char>,
    pub frame_id: Seq<char>,
    pub timestamp: int,
    pub person: Seq<PersonView>,
}

impl View for EvidenceRequest {
    type V = RequestView;

    open spec fn view(&self) -> RequestView {
        RequestView {
            camera_id: self.camera_id@,
            frame_id: self.frame_id@,
            timestamp: self.timestamp as int,
            person: person_views(self.person@),
        }
    }
}

/// Whether an upload carries a usable image: the part is there and is not
/// empty.
pub open spec fn has_image(image: Option<Vec<u8>>) -> bool {
    image matches Some(bytes) && bytes@.len() > 0
}

/// Status and body code of the refusal of an upload, if it is refused: an
/// unknown processor first, then a missing image, then missing data.
pub open spec fn refusal(reg: Registry, processor: Seq<char>, image: bool, data: bool) -> Option<
    (u16, Seq<char>),
> {
    if !reg.processor@.contains_key(processor) {
        Some((404u16, "NotFound"@))
    } else if !image {
        Some((400u16, "MISSING_IMAGE"@))
    } else if !data {
        Some((400u16, "MISSING_DATA"@))
    } else {
        None
    }
}

/// The record that an accepted upload becomes: filed under `id`, in the
/// cluster in which the processor stands.
pub open spec fn record_of(reg: Registry, processor: Seq<char>, data: RequestView, id: Seq<char>) -> RecordView {
    RecordView {
        id,
        cluster_id: reg.processor@[processor].cluster_id@,
        processor_id: processor,
        camera_id: data.camera_id,
        frame_id: data.frame_id,
        timestamp: data.timestamp,
        person: data.person,
    }
}

/// Path of the stored image of evidence `id`.
pub open spec fn stored_image_name(id: Seq<char>) -> Seq<char> {
    "./evidence/"@ + id + ".jpg"@
}

/// Path of the stored image of evidence `id`.
pub fn stored_image_path(id: &String) -> (r: String)
    ensures
        r@ == stored_image_name(id@),
{
    let mut r = String::from_str("./evidence/");
    r.append(id.as_str());
    r.append(".jpg");
    r
}

/// Judges an upload for processor `processor`. The upload is refused where
/// the processor is unknown, where the image part is missing or empty, or
/// where the data part is missing or did not decode. Otherwise it becomes a
/// record under the identifier `id`, in the processor's cluster.
pub fn accept_upload(
    reg: &Registry,
    processor: &String,
    image: &Option<Vec<u8>>,
    data: Option<EvidenceRequest>,
    id: String,
) -> (r: Result<Evidence, Reply>)
    requires
        reg.wf(),
    ensures
        match r {
            Ok(record) => refusal(*reg, processor@, has_image(*image), data.is_some()).is_none()
                && record@ == record_of(*reg, processor@, data.unwrap()@, id@),
            Err(reply) => refusal(*reg, processor@, has_image(*image), data.is_some()) == Some(
                (reply.status, reply.body@),
            ),
        },
{
    let stored = match reg.processor.get(processor) {
        Some(p) => p,
        None => {
            return Err(error_handler(EventKind::NotFound));
        },
    };
    let present = match image {
        Some(bytes) => bytes.len() > 0,
        None => false,
    };
    if !present {
        return Err(Reply { status: 400, body: String::from_str("MISSING_IMAGE") });
    }
    match data {
        Some(request) => Ok(
            Evidence {
                id,
                cluster_id: stored.cluster_id.clone(),
                processor_id: processor.clone(),
                camera_id: request.camera_id,
                frame_id: request.frame_id,
                timestamp: request.timestamp,
                person: request.person,
            },
        ),
        None => Err(Reply { status: 400, body: String::from_str("MISSING_DATA") }),
    }
}

/// Judges an upload as [`accept_upload`] does, under a fresh identifier.
pub fn accept_upload_fresh(
    reg: &Registry,
    processor: &String,
    image: &Option<Vec<u8>>,
    data: Option<EvidenceRequest>,
) -> (r: Result<Evidence, Reply>)
    requires
        reg.wf(),
    ensures
        match r {
            Ok(record) => refusal(*reg, processor@, has_image(*image), data.is_some()).is_none()
                && record@ == record_of(*reg, processor@, data.unwrap()@, record@.id),
            Err(reply) => refusal(*reg, processor@, has_image(*image), data.is_some()) == Some(
                (reply.status, reply.body@),
            ),
        },
{
    accept_upload(reg, processor, image, data, fresh_id())
}

/// The reply to an upload whose image could not be written.
pub fn image_not_saved() -> (r: Reply)
    ensures
        r.status == 500,
        r.body@ == "FAILED_TO_SAVE_IMAGE"@,
{
    Reply { status: 500, body: String::from_str("FAILED_TO_SAVE_IMAGE") }
}

/// How an upload ends.
#[derive(Debug)]
pub struct IntakeEnd {
    /// What the uploader is told.
    pub reply: Reply,
    /// Whether the image that was written for the record has to be removed
    /// again.
    pub remove_image: bool,
    /// The clients that the hub dropped while announcing the record.
    pub dropped: Vec<String>,
}

/// The values of a queue of records, oldest first.
pub open spec fn record_views(q: Seq<Evidence>) -> Seq<RecordView> {
    Seq::new(q.len(), |i: int| q[i]@)
}

/// Ends an upload once the durable store has answered. Where the record
/// was persisted, it is filed in the store, announced to every client of
/// the hub with the names of its cluster, processor and camera, and put at
/// the end of the queue of the push dispatcher; the uploader is told 201.
/// Where it was not, nothing changes, the image is to be removed again, and
/// the uploader is told the error.
pub fn conclude(
    reg: &mut Registry,
    hub: &mut Hub,
    queue: &mut Vec<Evidence>,
    evidence: Evidence,
    persisted: Result<(), EventKind>,
) -> (r: IntakeEnd)
    requires
        old(reg).wf(),
        old(hub).wf(),
    ensures
        final(reg).wf(),
        final(hub).wf(),
        final(hub).capacity() == old(hub).capacity(),
        final(reg).cluster == old(reg).cluster,
        final(reg).uniform == old(reg).uniform,
        final(reg).processor == old(reg).processor,
        final(reg).camera == old(reg).camera,
        final(reg).user == old(reg).user,
        final(reg).subscriber == old(reg).subscriber,
        match persisted {
            Ok(_) => {
                &&& r.reply.status == 201
                &&& r.reply.body@.len() == 0
                &&& !r.remove_image
                &&& final(reg).evidence@.contains_key(evidence@.id)
                &&& final(reg).evidence@[evidence@.id]@ == evidence@
                &&& final(reg).evidence@.remove(evidence@.id) == old(reg).evidence@.remove(
                    evidence@.id,
                )
                &&& record_views(final(queue)@) == record_views(old(queue)@).push(evidence@)
                &&& final(hub)@ == delivered(
                    old(hub)@,
                    old(hub).capacity(),
                    ResponseView::Evidence(projected(evidence@, *old(reg))),
                )
                &&& texts(r.dropped@).no_duplicates()
                &&& texts(r.dropped@).to_set() == saturated(old(hub)@, old(hub).capacity())
            },
            Err(e) => {
                &&& r.reply.status == e.status()
                &&& r.reply.body@ == e.name()
                &&& r.remove_image
                &&& r.dropped@.len() == 0
                &&& *final(reg) == *old(reg)
                &&& *final(hub) == *old(hub)
                &&& *final(queue) == *old(queue)
            },
        },
{
    match persisted {
        Ok(_) => {
            let shown = ViewEvidence::from(evidence.duplicate(), reg);
            let message = CentralWebSocketResponse::Evidence(shown);
            let dropped = hub.broadcast(&message);
            let ghost before = queue@;
            queue.push(evidence.duplicate());
            assert(record_views(queue@) =~= record_views(before).push(evidence@));
            let ghost stored = reg.evidence@;
            reg.put_evidence(evidence);
            assert(reg.evidence@.remove(evidence@.id) =~= stored.remove(evidence@.id));
            IntakeEnd {
                reply: Reply { status: 201, body: String::new() },
                remove_image: false,
                dropped,
            }
        },
        Err(e) => IntakeEnd { reply: error_handler(e), remove_image: true, dropped: Vec::new() },
    }
}

/// The identifier of a record is its primary key: filing a record twice
/// under one identifier leaves the store as filing it once does.
pub proof fn law_primary_key_idempotent(rows: Map<Seq<char>, Evidence>, id: Seq<char>, row: Evidence)
    ensures
        rows.insert(id, row).insert(id, row) == rows.insert(id, row),
        rows.insert(id, row).dom() == rows.dom().insert(id),
{
    assert(rows.insert(id, row).insert(id, row) =~= rows.insert(id, row));
}

} // verus!
