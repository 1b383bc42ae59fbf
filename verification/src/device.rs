//! Configuration of an edge processor: its descriptor, its webhook and its
//! camera inventory, with the monotonic version that every edit bumps.
use crate::clock::{fresh_id, now_millis};
use crate::table::Table;
use crate::text::{decimal, push_decimal, trim_start, trimmed_start};
use vstd::prelude::*;

verus! {

/// Address on which a processor serves its control API.
#[derive(Clone, Copy, Debug, PartialEq, Eq)]
pub struct ProcessorAddress {
    pub host: [u8; 4],
    pub port: u16,
}

/// Host of a webhook: a domain name or an IPv4 address.
#[derive(Debug, PartialEq, Eq)]
pub enum ProcessorWebhookHost {
    Domain(String),
    IPv4([u8; 4]),
}

/// Paths of the two webhook endpoints.
#[derive(Debug, PartialEq, Eq)]
pub struct ProcessorWebhookPath {
    pub evidence: String,
    pub update: String,
}

/// Where a processor ships its evidence and its periodic update.
#[derive(Debug, PartialEq, Eq)]
pub struct ProcessorWebhook {
    pub host: ProcessorWebhookHost,
    pub port: Option<u16>,
    pub secure: bool,
    pub path: ProcessorWebhookPath,
}

/// Descriptor of a processor.
#[derive(Debug, PartialEq, Eq)]
pub struct Processor {
    pub id: String,
    pub name: String,
    pub model: String,
    pub address: ProcessorAddress,
    pub webhook: Option<ProcessorWebhook>,
    pub version: i64,
}

/// Network address of a camera.
#[derive(Debug, PartialEq, Eq)]
pub struct CameraAddress {
    pub host: [u8; 4],
    pub port: u16,
    pub path: Option<String>,
    pub authentication: Option<(String, String)>,
}

/// A camera of the inventory.
#[derive(Debug, PartialEq, Eq)]
pub struct Camera {
    pub id: String,
    pub address: CameraAddress,
    pub name: String,
}

/// Dotted rendering of four octets.
pub open spec fn dotted(ip: Seq<u8>) -> Seq<char>
    recommends
        ip.len() == 4,
{
    decimal(ip[0] as nat) + seq!['.'] + decimal(ip[1] as nat) + seq!['.'] + decimal(ip[2] as nat)
        + seq!['.'] + decimal(ip[3] as nat)
}

impl ProcessorWebhookHost {
    /// The host as it appears in a URL.
    pub open spec fn text(&self) -> Seq<char> {
        match self {
            ProcessorWebhookHost::Domain(d) => d@,
            ProcessorWebhookHost::IPv4(ip) => dotted(ip@),
        }
    }

    /// The host as it appears in a URL: the domain itself, or the four
    /// octets in decimal, separated by dots.
    pub fn to_string(&self) -> (r: String)
        ensures
            r@ == self.text(),
    {
        match self {
            ProcessorWebhookHost::Domain(domain) => domain.clone(),
            ProcessorWebhookHost::IPv4(ip) => {
                proof {
                    reveal_strlit(".");
                }
                let mut r = String::new();
                push_decimal(&mut r, ip[0] as u64);
                r.append(".");
                push_decimal(&mut r, ip[1] as u64);
                r.append(".");
                push_decimal(&mut r, ip[2] as u64);
                r.append(".");
                push_decimal(&mut r, ip[3] as u64);
                assert(r@ =~= dotted(ip@));
                r
            },
        }
    }

    /// An independent copy.
    pub fn duplicate(&self) -> (r: Self)
        ensures
            r == *self,
    {
        match self {
            ProcessorWebhookHost::Domain(d) => ProcessorWebhookHost::Domain(d.clone()),
            ProcessorWebhookHost::IPv4(ip) => ProcessorWebhookHost::IPv4(*ip),
        }
    }
}

impl ProcessorWebhook {
    /// Scheme, host and port of the webhook, without a trailing slash.
    pub open spec fn base(&self) -> Seq<char> {
        (if self.secure {
            "https"@
        } else {
            "http"@
        }) + "://"@ + self.host.text() + (match self.port {
            Some(p) => seq![':'] + decimal(p as nat),
            None => Seq::<char>::empty(),
        })
    }

    /// The URL of an endpoint: the base, one slash, and the path without its
    /// leading slashes.
    pub open spec fn endpoint(&self, path: Seq<char>) -> Seq<char> {
        self.base() + seq!['/'] + trim_start(path, '/')
    }

    fn url_of(&self, path: &String) -> (r: String)
        ensures
            r@ == self.endpoint(path@),
    {
        proof {
            reveal_strlit(":");
            reveal_strlit("/");
        }
        let mut r = String::from_str(if self.secure {
            "https"
        } else {
            "http"
        });
        r.append("://");
        let host = self.host.to_string();
        r.append(host.as_str());
        match self.port {
            Some(p) => {
                r.append(":");
                push_decimal(&mut r, p as u64);
            },
            None => {},
        }
        assert(r@ =~= self.base());
        r.append("/");
        let tail = trimmed_start(path.as_str(), '/');
        r.append(tail.as_str());
        assert(r@ =~= self.endpoint(path@));
        r
    }

    /// The URL to which evidence is posted.
    pub fn evidence_url(&self) -> (r: String)
        ensures
            r@ == self.endpoint(self.path.evidence@),
    {
        self.url_of(&self.path.evidence)
    }

    /// The URL to which the periodic update is posted.
    pub fn update_url(&self) -> (r: String)
        ensures
            r@ == self.endpoint(self.path.update@),
    {
        self.url_of(&self.path.update)
    }

    /// An independent copy.
    pub fn duplicate(&self) -> (r: Self)
        ensures
            r == *self,
    {
        ProcessorWebhook {
            host: self.host.duplicate(),
            port: self.port,
            secure: self.secure,
            path: ProcessorWebhookPath {
                evidence: self.path.evidence.clone(),
                update: self.path.update.clone(),
            },
        }
    }
}

/// Whether an HTTP status reports success.
pub open spec fn is_success(status: u16) -> bool {
    200 <= status < 300
}

/// Whether an HTTP status reports success: the webhook accepted what was sent.
pub fn status_is_success(status: u16) -> (r: bool)
    ensures
        r == is_success(status),
{
    200 <= status && status < 300
}

/// The version that an edit at clock `now` gives a configuration that stood
/// at `version`: the clock, or one more than the old version where the clock
/// has not moved past it.
pub open spec fn next_version(version: i64, now: i64) -> int {
    if now > version {
        now as int
    } else {
        version + 1
    }
}

/// One network interface of the host, as far as the default descriptor
/// needs it.
#[derive(Clone, Copy, Debug, PartialEq, Eq)]
pub struct Interface {
    pub loopback: bool,
    pub v4: Option<[u8; 4]>,
}

impl Interface {
    /// Whether the interface offers an address for the control API.
    pub open spec fn usable(&self) -> bool {
        !self.loopback && self.v4.is_some()
    }
}

/// The host that a processor without configuration binds: the address of
/// the last usable interface, or `127.0.0.0` where none is usable.
pub open spec fn default_host(interfaces: Seq<Interface>) -> [u8; 4]
    decreases interfaces.len(),
{
    if interfaces.len() == 0 {
        [127u8, 0u8, 0u8, 0u8]
    } else if interfaces.last().usable() {
        interfaces.last().v4.unwrap()
    } else {
        default_host(interfaces.drop_last())
    }
}

/// The host that a processor without configuration binds.
pub fn pick_host(interfaces: &Vec<Interface>) -> (r: [u8; 4])
    ensures
        r == default_host(interfaces@),
{
    let mut host: [u8; 4] = [127u8, 0u8, 0u8, 0u8];
    let mut i: usize = 0;
    assert(interfaces@.take(0) =~= Seq::<Interface>::empty());
    while i < interfaces.len()
        invariant
            i <= interfaces.len(),
            host == default_host(interfaces@.take(i as int)),
        decreases interfaces.len() - i,
    {
        let iface = interfaces[i];
        proof {
            let next = interfaces@.take(i as int + 1);
            assert(next.drop_last() =~= interfaces@.take(i as int));
            assert(next.last() == iface);
        }
        if !iface.loopback {
            match iface.v4 {
                Some(ip) => {
                    host = ip;
                },
                None => {},
            }
        }
        i += 1;
    }
    assert(interfaces@.take(interfaces.len() as int) =~= interfaces@);
    host
}

impl Processor {
    /// The descriptor of a processor that starts without configuration:
    /// named after its identifier, with the stock model, bound to `host` on
    /// port 8000, without a webhook, at version `now`.
    pub fn initial(id: String, host: [u8; 4], now: i64) -> (r: Self)
        ensures
            r.id@ == id@,
            r.name@ == id@,
            r.model@ == "yolov8n.hef"@,
            r.address == (ProcessorAddress { host, port: 8000 }),
            r.webhook.is_none(),
            r.version == now,
    {
        let name = id.clone();
        Processor {
            id,
            name,
            model: String::from_str("yolov8n.hef"),
            address: ProcessorAddress { host, port: 8000 },
            webhook: None,
            version: now,
        }
    }

    /// An independent copy.
    pub fn duplicate(&self) -> (r: Self)
        ensures
            r == *self,
    {
        Processor {
            id: self.id.clone(),
            name: self.name.clone(),
            model: self.model.clone(),
            address: self.address,
            webhook: match &self.webhook {
                Some(w) => Some(w.duplicate()),
                None => None,
            },
            version: self.version,
        }
    }

    /// Moves the version forward for an edit made at clock `now`. The new
    /// version is greater than the old one whatever the clock says.
    pub fn bump_version(&mut self, now: i64)
        requires
            old(self).version < i64::MAX,
        ensures
            final(self).version == next_version(old(self).version, now),
            final(self).version > old(self).version,
            *final(self) == (Processor { version: final(self).version, ..*old(self) }),
    {
        if now > self.version {
            self.version = now;
        } else {
            self.version = self.version + 1;
        }
    }

    /// Moves the version forward for an edit made now, by the wall clock:
    /// to the version that an edit at one instant gives.
    pub fn update_version(&mut self)
        requires
            old(self).version < i64::MAX,
        ensures
            final(self).version > old(self).version,
            exists|now: i64| final(self).version == #[trigger] next_version(old(self).version, now),
            *final(self) == (Processor { version: final(self).version, ..*old(self) }),
    {
        let now = now_millis();
        self.bump_version(now);
    }
}

impl CameraAddress {
    /// An independent copy.
    pub fn duplicate(&self) -> (r: Self)
        ensures
            r == *self,
    {
        CameraAddress {
            host: self.host,
            port: self.port,
            path: match &self.path {
                Some(p) => Some(p.clone()),
                None => None,
            },
            authentication: match &self.authentication {
                Some(a) => Some((a.0.clone(), a.1.clone())),
                None => None,
            },
        }
    }
}

impl Camera {
    /// An independent copy.
    pub fn duplicate(&self) -> (r: Self)
        ensures
            r == *self,
    {
        Camera { id: self.id.clone(), address: self.address.duplicate(), name: self.name.clone() }
    }
}

/// Whether the answer to a write says that the write was applied.
pub open spec fn applied_write(r: Option<WriteOutcome>) -> bool {
    r == Some(WriteOutcome::Applied)
}

/// Whether the answer to a new camera says that the camera was filed.
pub open spec fn filed_camera(r: Option<(WriteOutcome, String)>) -> bool {
    r matches Some((WriteOutcome::Applied, _))
}

/// What the control API answers to a write.
#[derive(Clone, Copy, Debug, PartialEq, Eq, Structural)]
pub enum WriteOutcome {
    /// The write was applied and the version bumped.
    Applied,
    /// The entity named by the write does not exist; nothing changed.
    NotFound,
    /// The identifier is already taken; nothing changed.
    Conflict,
}

/// The in-memory snapshot of an edge node: its descriptor and its cameras,
/// each camera under its own identifier.
pub struct Device {
    pub processor: Processor,
    pub camera: Table<Camera>,
}

impl Device {
    /// Every camera is filed under its own identifier, and the version can
    /// still move forward.
    pub open spec fn wf(&self) -> bool {
        &&& self.camera.wf()
        &&& forall|k: Seq<char>| #[trigger] self.camera@.contains_key(k) ==> self.camera@[k].id@ == k
        &&& self.processor.version < i64::MAX
    }

    /// A snapshot with the given descriptor and no camera.
    pub fn new(processor: Processor) -> (r: Self)
        requires
            processor.version < i64::MAX,
        ensures
            r.wf(),
            r.processor == processor,
            r.camera@ == Map::<Seq<char>, Camera>::empty(),
    {
        Device { processor, camera: Table::new() }
    }

    /// Files a camera found in the stored inventory. Loading is no edit:
    /// the version stays.
    pub fn load_camera(&mut self, camera: Camera)
        requires
            old(self).wf(),
        ensures
            final(self).wf(),
            final(self).processor == old(self).processor,
            final(self).camera@ == old(self).camera@.insert(camera.id@, camera),
    {
        let key = camera.id.clone();
        self.camera.insert(key, camera);
    }

    /// Adds `camera` under the fresh identifier `id`. Where the identifier
    /// is taken, nothing changes and the answer is `Conflict`.
    pub fn create_camera(&mut self, camera: Camera, id: String, now: i64) -> (r: WriteOutcome)
        requires
            old(self).wf(),
            next_version(old(self).processor.version, now) < i64::MAX,
        ensures
            final(self).wf(),
            old(self).camera@.contains_key(id@) ==> r == WriteOutcome::Conflict && *final(self)
                == *old(self),
            !old(self).camera@.contains_key(id@) ==> r == WriteOutcome::Applied
                && final(self).processor.version == next_version(old(self).processor.version, now)
                && final(self).processor == (Processor {
                version: final(self).processor.version,
                ..old(self).processor
            }) && final(self).camera@ == old(self).camera@.insert(
                id@,
                Camera { id, ..camera },
            ),
    {
        if self.camera.contains(&id) {
            return WriteOutcome::Conflict;
        }
        let key = id.clone();
        let filed = Camera { id, address: camera.address, name: camera.name };
        self.camera.insert(key, filed);
        self.processor.bump_version(now);
        WriteOutcome::Applied
    }

    /// Replaces the camera that has the identifier of `camera`. Where there
    /// is none, nothing changes and the answer is `NotFound`.
    pub fn update_camera(&mut self, camera: Camera, now: i64) -> (r: WriteOutcome)
        requires
            old(self).wf(),
            next_version(old(self).processor.version, now) < i64::MAX,
        ensures
            final(self).wf(),
            !old(self).camera@.contains_key(camera.id@) ==> r == WriteOutcome::NotFound && *final(self) == *old(self),
            old(self).camera@.contains_key(camera.id@) ==> r == WriteOutcome::Applied
                && final(self).processor.version == next_version(old(self).processor.version, now)
                && final(self).processor == (Processor {
                version: final(self).processor.version,
                ..old(self).processor
            }) && final(self).camera@ == old(self).camera@.insert(camera.id@, camera),
    {
        if !self.camera.contains(&camera.id) {
            return WriteOutcome::NotFound;
        }
        let key = camera.id.clone();
        self.camera.insert(key, camera);
        self.processor.bump_version(now);
        WriteOutcome::Applied
    }

    /// Removes the camera `id`. Where there is none, nothing changes and
    /// the answer is `NotFound`.
    pub fn delete_camera(&mut self, id: &String, now: i64) -> (r: WriteOutcome)
        requires
            old(self).wf(),
            next_version(old(self).processor.version, now) < i64::MAX,
        ensures
            final(self).wf(),
            !old(self).camera@.contains_key(id@) ==> r == WriteOutcome::NotFound && *final(self)
                == *old(self),
            old(self).camera@.contains_key(id@) ==> r == WriteOutcome::Applied
                && final(self).processor.version == next_version(old(self).processor.version, now)
                && final(self).processor == (Processor {
                version: final(self).processor.version,
                ..old(self).processor
            }) && final(self).camera@ == old(self).camera@.remove(id@),
    {
        if !self.camera.contains(id) {
            return WriteOutcome::NotFound;
        }
        let _ = self.camera.remove(id);
        self.processor.bump_version(now);
        WriteOutcome::Applied
    }

    /// Replaces the descriptor by `processor`, at a version greater than
    /// the one that stood before. The cameras stay.
    pub fn update_processor(&mut self, processor: Processor, now: i64)
        requires
            old(self).wf(),
            next_version(old(self).processor.version, now) < i64::MAX,
        ensures
            final(self).wf(),
            final(self).camera == old(self).camera,
            final(self).processor.version == next_version(old(self).processor.version, now),
            final(self).processor == (Processor {
                version: final(self).processor.version,
                ..processor
            }),
    {
        let mut next = processor;
        next.version = self.processor.version;
        next.bump_version(now);
        self.processor = next;
    }

    /// Whether an edit at clock `now` can still move the version forward.
    pub open spec fn can_edit(&self, now: i64) -> bool {
        next_version(self.processor.version, now) < i64::MAX
    }

    /// Whether a write at the instant `now` went as `tried` and `applied`
    /// say and left `after`: it is tried exactly where the version can
    /// still move forward, and where it is applied the version is the one
    /// that an edit at that instant gives.
    pub open spec fn written_at(&self, after: Device, now: i64, tried: bool, applied: bool) -> bool {
        &&& tried == self.can_edit(now)
        &&& applied ==> after.processor.version == next_version(self.processor.version, now)
    }

    fn editable(&self, now: i64) -> (r: bool)
        ensures
            r == self.can_edit(now),
    {
        if now > self.processor.version {
            now < i64::MAX
        } else {
            self.processor.version < i64::MAX - 1
        }
    }

    /// Adds `camera` under a fresh identifier, at the wall clock. Returns
    /// the outcome and the identifier, or nothing where the version can no
    /// longer move forward. Only an applied write changes anything; it
    /// files the camera under the identifier returned and leaves a greater
    /// version.
    pub fn create_camera_now(&mut self, camera: Camera) -> (r: Option<(WriteOutcome, String)>)
        requires
            old(self).wf(),
        ensures
            final(self).wf(),
            match r {
                Some((WriteOutcome::Applied, id)) => !old(self).camera@.contains_key(id@)
                    && final(self).camera@ == old(self).camera@.insert(
                    id@,
                    Camera { id, ..camera },
                ) && final(self).processor.version > old(self).processor.version
                    && final(self).processor == (Processor {
                    version: final(self).processor.version,
                    ..old(self).processor
                }),
                _ => *final(self) == *old(self),
            },
            exists|now: i64| #[trigger]
                old(self).written_at(
                    *final(self),
                    now,
                    r.is_some(),
                    filed_camera(r),
                ),
    {
        let now = now_millis();
        if !self.editable(now) {
            let r: Option<(WriteOutcome, String)> = None;
            assert(old(self).written_at(*self, now, r.is_some(), filed_camera(r)));
            return r;
        }
        let id = fresh_id();
        let filed = id.clone();
        let outcome = self.create_camera(camera, id, now);
        let r = Some((outcome, filed));
        assert(old(self).written_at(*self, now, r.is_some(), filed_camera(r)));
        r
    }

    /// Replaces the camera that has the identifier of `camera`, at the wall
    /// clock. Returns the outcome, or nothing where the version can no
    /// longer move forward. Only an applied write changes anything; it
    /// leaves a greater version.
    pub fn update_camera_now(&mut self, camera: Camera) -> (r: Option<WriteOutcome>)
        requires
            old(self).wf(),
        ensures
            final(self).wf(),
            r == Some(WriteOutcome::Applied) ==> old(self).camera@.contains_key(camera.id@)
                && final(self).camera@ == old(self).camera@.insert(camera.id@, camera)
                && final(self).processor.version > old(self).processor.version
                && final(self).processor == (Processor {
                version: final(self).processor.version,
                ..old(self).processor
            }),
            r != Some(WriteOutcome::Applied) ==> *final(self) == *old(self),
            r == Some(WriteOutcome::NotFound) ==> !old(self).camera@.contains_key(camera.id@),
            r != Some(WriteOutcome::Conflict),
            exists|now: i64| #[trigger]
                old(self).written_at(
                    *final(self),
                    now,
                    r.is_some(),
                    applied_write(r),
                ),
    {
        let now = now_millis();
        if !self.editable(now) {
            let r: Option<WriteOutcome> = None;
            assert(old(self).written_at(*self, now, r.is_some(), applied_write(r)));
            return r;
        }
        let outcome = self.update_camera(camera, now);
        let r = Some(outcome);
        assert(old(self).written_at(*self, now, r.is_some(), applied_write(r)));
        r
    }

    /// Removes the camera `id`, at the wall clock. Returns the outcome, or
    /// nothing where the version can no longer move forward. Only an
    /// applied write changes anything; it leaves a greater version.
    pub fn delete_camera_now(&mut self, id: &String) -> (r: Option<WriteOutcome>)
        requires
            old(self).wf(),
        ensures
            final(self).wf(),
            r == Some(WriteOutcome::Applied) ==> old(self).camera@.contains_key(id@)
                && final(self).camera@ == old(self).camera@.remove(id@)
                && final(self).processor.version > old(self).processor.version
                && final(self).processor == (Processor {
                version: final(self).processor.version,
                ..old(self).processor
            }),
            r != Some(WriteOutcome::Applied) ==> *final(self) == *old(self),
            r == Some(WriteOutcome::NotFound) ==> !old(self).camera@.contains_key(id@),
            r != Some(WriteOutcome::Conflict),
            exists|now: i64| #[trigger]
                old(self).written_at(
                    *final(self),
                    now,
                    r.is_some(),
                    applied_write(r),
                ),
    {
        let now = now_millis();
        if !self.editable(now) {
            let r: Option<WriteOutcome> = None;
            assert(old(self).written_at(*self, now, r.is_some(), applied_write(r)));
            return r;
        }
        let outcome = self.delete_camera(id, now);
        let r = Some(outcome);
        assert(old(self).written_at(*self, now, r.is_some(), applied_write(r)));
        r
    }

    /// Replaces the descriptor by `processor`, at the wall clock. Returns
    /// whether the write was applied: it is exactly where the version can
    /// still move forward at the instant that the clock gave. An applied
    /// write leaves the descriptor given, at the version that an edit at
    /// that instant gives, which is greater than the one that stood before.
    pub fn update_processor_now(&mut self, processor: Processor) -> (applied: bool)
        requires
            old(self).wf(),
        ensures
            final(self).wf(),
            final(self).camera == old(self).camera,
            applied ==> final(self).processor.version > old(self).processor.version
                && final(self).processor == (Processor {
                version: final(self).processor.version,
                ..processor
            }),
            !applied ==> *final(self) == *old(self),
            exists|now: i64| #[trigger] old(self).written_at(*final(self), now, applied, applied),
    {
        let now = now_millis();
        if !self.editable(now) {
            assert(old(self).written_at(*self, now, false, false));
            return false;
        }
        self.update_processor(processor, now);
        assert(old(self).written_at(*self, now, true, true));
        true
    }

    /// The cameras, in the order in which they were filed.
    pub fn cameras(&self) -> (r: Vec<Camera>)
        requires
            self.wf(),
        ensures
            r@ == self.camera.values(),
    {
        let mut r: Vec<Camera> = Vec::new();
        let n = self.camera.len();
        let mut i: usize = 0;
        while i < n
            invariant
                self.wf(),
                n == self.camera.keys().len(),
                i <= n,
                r@ == self.camera.values().take(i as int),
            decreases n - i,
        {
            let c = self.camera.value_at(i).duplicate();
            r.push(c);
            assert(r@ =~= self.camera.values().take(i as int + 1));
            i += 1;
        }
        assert(self.camera.values().take(n as int) =~= self.camera.values());
        r
    }
}

/// Every write that the control API applies leaves a version greater than
/// the one it found, whatever the clock says.
pub proof fn law_version_strictly_increases(version: i64, now: i64)
    ensures
        next_version(version, now) > version,
        now > version ==> next_version(version, now) == now,
{
}

} // verus!
