//! Edge ingestion: the queue between the local socket receiver and the
//! evidence worker, the reading snapshot, and the worker's decision whether
//! an envelope becomes a durable artifact pair.
use crate::clock::{fresh_id, now_millis};
use crate::dedup::{after_envelope, is_new_violation, DedupTable};
use crate::evidence::{Evidence, EvidenceView};
use crate::shipper::{directory, image_name, image_path, json_name, json_path};
use crate::table::Table;
use std::collections::VecDeque;
use vstd::prelude::*;

verus! {

/// Pause of the worker when the queue is empty, in milliseconds.
pub const WORKER_IDLE_MS: u64 = 100;

/// Path of the local socket on which envelopes arrive.
pub fn socket_path() -> (r: String)
    ensures
        r@ == "/tmp/gidence-scm_uds.sock"@,
{
    String::from_str("/tmp/gidence-scm_uds.sock")
}

/// Path of the latest frame of camera `camera`.
pub open spec fn frame_name(camera: Seq<char>) -> Seq<char> {
    "/tmp/"@ + camera + ".jpg"@
}

/// Path of the latest frame of camera `camera`.
pub fn frame_path(camera: &String) -> (r: String)
    ensures
        r@ == frame_name(camera@),
{
    let mut r = String::from_str("/tmp/");
    r.append(camera.as_str());
    r.append(".jpg");
    r
}

/// What is known of one camera: the latest envelope, if any came, and the
/// clock of the last update.
pub struct CameraReading {
    pub latest: Option<Evidence>,
    pub last_update: i64,
}

/// Mathematical value of a [`CameraReading`].
pub ghost struct CameraReadingView {
    pub latest: Option<EvidenceView>,
    pub last_update: i64,
}

impl View for CameraReading {
    type V = CameraReadingView;

    open spec fn view(&self) -> CameraReadingView {
        CameraReadingView {
            latest: match self.latest {
                Some(e) => Some(e@),
                None => None,
            },
            last_update: self.last_update,
        }
    }
}

/// The values of a queue of envelopes, oldest first.
pub open spec fn envelope_views(q: Seq<Evidence>) -> Seq<EvidenceView> {
    Seq::new(q.len(), |i: int| q[i]@)
}

/// Whether the readings `after` are the readings `before` once `envelope`
/// was taken in at clock `now`: the reading of its camera, where that
/// camera is configured, shows the envelope and the clock, and nothing else
/// differs.
pub open spec fn noted(
    before: Map<Seq<char>, CameraReadingView>,
    after: Map<Seq<char>, CameraReadingView>,
    envelope: EvidenceView,
    now: i64,
) -> bool {
    if before.contains_key(envelope.camera_id) {
        after == before.insert(
            envelope.camera_id,
            CameraReadingView { latest: Some(envelope), last_update: now },
        )
    } else {
        after == before
    }
}

/// The volatile state of ingestion: the queue of envelopes that the worker
/// has not looked at yet, and the reading of each configured camera.
pub struct Ingest {
    queue: VecDeque<Evidence>,
    reading: Table<CameraReading>,
}

impl Ingest {
    /// The envelopes that wait for the worker, oldest first.
    pub closed spec fn queue(&self) -> Seq<EvidenceView> {
        envelope_views(self.queue@)
    }

    /// The reading of each configured camera.
    pub closed spec fn reading(&self) -> Map<Seq<char>, CameraReadingView> {
        Map::new(|k: Seq<char>| self.reading@.contains_key(k), |k: Seq<char>| self.reading@[k]@)
    }

    /// Internal consistency of the state.
    pub closed spec fn wf(&self) -> bool {
        self.reading.wf()
    }

    /// An empty queue and no camera.
    pub fn new() -> (r: Self)
        ensures
            r.wf(),
            r.queue() == Seq::<EvidenceView>::empty(),
            r.reading() == Map::<Seq<char>, CameraReadingView>::empty(),
    {
        let r = Ingest { queue: VecDeque::new(), reading: Table::new() };
        assert(r.queue() =~= Seq::<EvidenceView>::empty());
        assert(r.reading() =~= Map::<Seq<char>, CameraReadingView>::empty());
        r
    }

    /// Number of envelopes that wait for the worker.
    pub fn pending(&self) -> (n: usize)
        ensures
            n == self.queue().len(),
    {
        self.queue.len()
    }

    /// Starts the reading of a configured camera: no envelope yet, last
    /// update at `now`.
    pub fn watch(&mut self, camera: String, now: i64)
        requires
            old(self).wf(),
        ensures
            final(self).wf(),
            final(self).queue() == old(self).queue(),
            final(self).reading() == old(self).reading().insert(
                camera@,
                CameraReadingView { latest: None, last_update: now },
            ),
    {
        let ghost before = *self;
        self.reading.insert(camera, CameraReading { latest: None, last_update: now });
        assert(self.reading() =~= before.reading().insert(
            camera@,
            CameraReadingView { latest: None, last_update: now },
        ));
    }

    /// Takes in a decoded envelope under the identifier `id`, at clock
    /// `now`. The envelope joins the end of the queue under that
    /// identifier. Where its camera is configured, the reading of the
    /// camera now shows this envelope and this clock; the readings of the
    /// other cameras stay.
    pub fn enqueue(&mut self, evidence: Evidence, id: String, now: i64)
        requires
            old(self).wf(),
        ensures
            final(self).wf(),
            final(self).queue() == old(self).queue().push(evidence@.with_id(id@)),
            old(self).reading().contains_key(evidence@.camera_id) ==> final(self).reading() == old(self).reading().insert(
                evidence@.camera_id,
                CameraReadingView { latest: Some(evidence@.with_id(id@)), last_update: now },
            ),
            !old(self).reading().contains_key(evidence@.camera_id) ==> final(self).reading() == old(self).reading(),
    {
        let ghost before = *self;
        let mut evidence = evidence;
        evidence.assign_id(id);
        let queued = evidence.duplicate();
        self.queue.push_back(queued);
        assert(self.queue() =~= before.queue().push(evidence@));
        match self.reading.position(&evidence.camera_id) {
            Some(i) => {
                proof {
                    before.reading.lemma_entry(i as int);
                }
                let ghost shown = CameraReadingView { latest: Some(evidence@), last_update: now };
                let entry = CameraReading { latest: Some(evidence), last_update: now };
                self.reading.set_value_at(i, entry);
                assert(self.reading() =~= before.reading().insert(evidence@.camera_id, shown));
            },
            None => {
                assert(self.reading() =~= before.reading());
            },
        }
    }

    /// Takes in a decoded envelope under a fresh identifier, at the wall
    /// clock, and returns the identifier. Which identifier and which clock
    /// are drawn is open. The envelope joins the end of the queue with
    /// every field but the identifier as it came. Where its camera is
    /// configured, the reading of the camera now shows this envelope, under
    /// its new identifier, and one clock; the readings of the other cameras
    /// stay, and an envelope of an unknown camera changes no reading.
    pub fn receive(&mut self, evidence: Evidence) -> (id: String)
        requires
            old(self).wf(),
        ensures
            final(self).wf(),
            final(self).queue() == old(self).queue().push(evidence@.with_id(id@)),
            exists|now: i64| #[trigger]
                noted(old(self).reading(), final(self).reading(), evidence@.with_id(id@), now),
    {
        let id = fresh_id();
        let assigned = id.clone();
        let now = now_millis();
        self.enqueue(evidence, id, now);
        assert(noted(old(self).reading(), self.reading(), evidence@.with_id(assigned@), now));
        assigned
    }

    /// Hands the oldest waiting envelope to the worker, if one waits.
    pub fn next(&mut self) -> (r: Option<Evidence>)
        requires
            old(self).wf(),
        ensures
            final(self).wf(),
            final(self).reading() == old(self).reading(),
            match r {
                Some(e) => old(self).queue().len() > 0 && e@ == old(self).queue()[0]
                    && final(self).queue() == old(self).queue().drop_first(),
                None => old(self).queue().len() == 0 && final(self).queue() == old(self).queue(),
            },
    {
        let ghost before = *self;
        let r = self.queue.pop_front();
        proof {
            if r.is_some() {
                assert(self.queue() =~= before.queue().drop_first());
            } else {
                assert(self.queue() =~= before.queue());
            }
            assert(self.reading() =~= before.reading());
        }
        r
    }

    /// The reading of camera `camera`: the identifier of its latest
    /// envelope, if any came, and the clock of its last update.
    pub fn reading_of(&self, camera: &String) -> (r: Option<(Option<String>, i64)>)
        requires
            self.wf(),
        ensures
            match r {
                Some(entry) => self.reading().contains_key(camera@) && entry.1
                    == self.reading()[camera@].last_update && match entry.0 {
                    Some(id) => self.reading()[camera@].latest.is_some() && id@
                        == self.reading()[camera@].latest.unwrap().id,
                    None => self.reading()[camera@].latest.is_none(),
                },
                None => !self.reading().contains_key(camera@),
            },
    {
        match self.reading.get(camera) {
            Some(entry) => {
                let id = match &entry.latest {
                    Some(e) => Some(e.id.clone()),
                    None => None,
                };
                Some((id, entry.last_update))
            },
            None => None,
        }
    }
}

/// The two files of a durable artifact, with the image that goes into the
/// second. The envelope that goes into the first is the one that was
/// judged.
#[derive(Debug, PartialEq, Eq)]
pub struct ArtifactPair {
    pub json_path: String,
    pub image_path: String,
    pub image: Vec<u8>,
}

/// Runs an envelope through deduplication. Where the envelope is a new
/// violation, returns the path of the camera frame that its artifact needs;
/// where it is none, nothing is to be read or written.
pub fn judge(table: &mut DedupTable, evidence: &Evidence) -> (r: Option<String>)
    requires
        old(table).wf(),
    ensures
        final(table).wf(),
        final(table)@ == after_envelope(old(table)@, evidence@),
        match r {
            Some(path) => is_new_violation(old(table)@, evidence@) && path@ == frame_name(
                evidence@.camera_id,
            ),
            None => !is_new_violation(old(table)@, evidence@),
        },
{
    if table.observe(evidence) {
        Some(frame_path(&evidence.camera_id))
    } else {
        None
    }
}

/// The artifact pair of an envelope that was judged a new violation: both
/// files carry the identifier of the envelope. Where the camera frame could
/// not be had, there is no artifact and the envelope is dropped.
pub fn artifacts(evidence: &Evidence, frame: Option<Vec<u8>>) -> (r: Option<ArtifactPair>)
    ensures
        match r {
            Some(pair) => frame == Some(pair.image) && pair.json_path@ == directory() + json_name(
                evidence@.id,
            ) && pair.image_path@ == directory() + image_name(evidence@.id),
            None => frame.is_none(),
        },
{
    match frame {
        Some(image) => Some(
            ArtifactPair {
                json_path: json_path(&evidence.id),
                image_path: image_path(&evidence.id),
                image,
            },
        ),
        None => None,
    }
}

} // verus!
