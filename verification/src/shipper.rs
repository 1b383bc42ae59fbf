//! The webhook shipper: which files of the evidence directory wait to be
//! uploaded, under which names an artifact pair lives, and what an upload
//! outcome does to the pair.
//!
//! The directory is the durable queue between deduplication and upload. A
//! pair waits as `<id>.json` and `<id>.jpg`; renaming both to
//! `uploaded.<id>.json` and `uploaded.<id>.jpg` marks the upload as done.
use crate::device::is_success;
use crate::text::{ends_with, has_prefix, has_suffix, starts_with};
use vstd::prelude::*;

verus! {

/// Name of the envelope file of a waiting pair.
pub open spec fn json_name(id: Seq<char>) -> Seq<char> {
    id + ".json"@
}

/// Name of the image file of a waiting pair.
pub open spec fn image_name(id: Seq<char>) -> Seq<char> {
    id + ".jpg"@
}

/// Name of the envelope file of an uploaded pair.
pub open spec fn uploaded_json_name(id: Seq<char>) -> Seq<char> {
    "uploaded."@ + id + ".json"@
}

/// Name of the image file of an uploaded pair.
pub open spec fn uploaded_image_name(id: Seq<char>) -> Seq<char> {
    "uploaded."@ + id + ".jpg"@
}

/// The directory in which the pairs live, with its trailing slash.
pub open spec fn directory() -> Seq<char> {
    "./evidence/"@
}

/// Whether a file of the directory is the envelope of a waiting pair.
pub open spec fn is_waiting(name: Seq<char>) -> bool {
    ends_with(name, ".json"@) && !starts_with(name, "uploaded."@)
}

/// The identifier in the name of a waiting envelope file.
pub open spec fn id_of(name: Seq<char>) -> Seq<char>
    recommends
        is_waiting(name),
{
    name.subrange(0, name.len() - 5)
}

/// Whether a file of the directory is the envelope of a waiting pair.
pub fn is_pending(name: &String) -> (r: bool)
    ensures
        r == is_waiting(name@),
{
    has_suffix(name.as_str(), ".json") && !has_prefix(name.as_str(), "uploaded.")
}

/// The identifier of the pair whose envelope file is `name`, where that
/// file waits to be uploaded.
pub fn pending_id(name: &String) -> (r: Option<String>)
    ensures
        match r {
            Some(id) => is_waiting(name@) && id@ == id_of(name@) && json_name(id@) == name@,
            None => !is_waiting(name@),
        },
{
    if !is_pending(name) {
        return None;
    }
    proof {
        reveal_strlit(".json");
    }
    let n = name.as_str().unicode_len();
    let id = String::from_str(name.as_str().substring_char(0, n - 5));
    assert(json_name(id@) =~= name@);
    Some(id)
}

fn path_of(prefix: &str, id: &String, suffix: &str) -> (r: String)
    ensures
        r@ == directory() + prefix@ + id@ + suffix@,
{
    let mut r = String::from_str("./evidence/");
    r.append(prefix);
    r.append(id.as_str());
    r.append(suffix);
    r
}

/// Path of the envelope file of the waiting pair `id`.
pub fn json_path(id: &String) -> (r: String)
    ensures
        r@ == directory() + json_name(id@),
{
    proof {
        reveal_strlit("");
    }
    let r = path_of("", id, ".json");
    assert(r@ =~= directory() + json_name(id@));
    r
}

/// Path of the image file of the waiting pair `id`.
pub fn image_path(id: &String) -> (r: String)
    ensures
        r@ == directory() + image_name(id@),
{
    proof {
        reveal_strlit("");
    }
    let r = path_of("", id, ".jpg");
    assert(r@ =~= directory() + image_name(id@));
    r
}

/// Path of the envelope file of the uploaded pair `id`.
pub fn uploaded_json_path(id: &String) -> (r: String)
    ensures
        r@ == directory() + uploaded_json_name(id@),
{
    let r = path_of("uploaded.", id, ".json");
    assert(r@ =~= directory() + uploaded_json_name(id@));
    r
}

/// Path of the image file of the uploaded pair `id`.
pub fn uploaded_image_path(id: &String) -> (r: String)
    ensures
        r@ == directory() + uploaded_image_name(id@),
{
    let r = path_of("uploaded.", id, ".jpg");
    assert(r@ =~= directory() + uploaded_image_name(id@));
    r
}

/// File name under which the image part of an upload is sent.
pub fn upload_file_name(id: &String) -> (r: String)
    ensures
        r@ == image_name(id@),
{
    let mut r = id.clone();
    r.append(".jpg");
    r
}

/// What came of one attempt to post a pair.
#[derive(Clone, Copy, Debug, PartialEq, Eq, Structural)]
pub enum PostOutcome {
    /// The webhook answered with this HTTP status.
    Answered(u16),
    /// No answer came: the webhook was unreachable or the call failed.
    Failed,
}

impl PostOutcome {
    /// Whether the webhook took the pair.
    pub open spec fn accepted(self) -> bool {
        self matches PostOutcome::Answered(status) && is_success(status)
    }
}

/// One rename inside the evidence directory, by file name.
#[derive(Debug, PartialEq, Eq)]
pub struct Rename {
    pub from: String,
    pub to: String,
}

/// The renames that mark the pair `id` as uploaded, as pairs of old and new
/// name: first the envelope, then the image.
pub open spec fn commit_of(id: Seq<char>) -> Seq<(Seq<char>, Seq<char>)> {
    seq![(json_name(id), uploaded_json_name(id)), (image_name(id), uploaded_image_name(id))]
}

/// The values of a list of renames, in order.
pub open spec fn rename_views(v: Seq<Rename>) -> Seq<(Seq<char>, Seq<char>)> {
    Seq::new(v.len(), |i: int| (v[i].from@, v[i].to@))
}

/// The renames to carry out after an attempt to post the pair `id`: both
/// files move to their uploaded names where the webhook answered with a
/// success status, and nothing moves otherwise.
pub fn settle_upload(id: &String, outcome: PostOutcome) -> (r: Vec<Rename>)
    ensures
        outcome.accepted() ==> rename_views(r@) == commit_of(id@),
        !outcome.accepted() ==> r@.len() == 0,
{
    let mut r: Vec<Rename> = Vec::new();
    let accepted = match outcome {
        PostOutcome::Answered(status) => 200 <= status && status < 300,
        PostOutcome::Failed => false,
    };
    if accepted {
        let mut a = id.clone();
        a.append(".json");
        let mut b = String::from_str("uploaded.");
        b.append(id.as_str());
        b.append(".json");
        r.push(Rename { from: a, to: b });
        let mut c = id.clone();
        c.append(".jpg");
        let mut d = String::from_str("uploaded.");
        d.append(id.as_str());
        d.append(".jpg");
        r.push(Rename { from: c, to: d });
        assert(rename_views(r@) =~= commit_of(id@));
    }
    r
}

/// A directory after one rename: the old name is gone and the new one is
/// there. A rename of a file that is not there changes nothing.
pub open spec fn renamed(dir: Set<Seq<char>>, from: Seq<char>, to: Seq<char>) -> Set<Seq<char>> {
    if dir.contains(from) {
        dir.remove(from).insert(to)
    } else {
        dir
    }
}

/// A directory after a list of renames, carried out in order.
pub open spec fn after_renames(dir: Set<Seq<char>>, renames: Seq<(Seq<char>, Seq<char>)>) -> Set<
    Seq<char>,
>
    decreases renames.len(),
{
    if renames.len() == 0 {
        dir
    } else {
        renamed(after_renames(dir, renames.drop_last()), renames.last().0, renames.last().1)
    }
}

/// Whether the pair `id` waits whole in `dir`.
pub open spec fn waits_whole(dir: Set<Seq<char>>, id: Seq<char>) -> bool {
    dir.contains(json_name(id)) && dir.contains(image_name(id))
}

/// Whether neither file of the waiting pair `id` is in `dir`.
pub open spec fn waits_not(dir: Set<Seq<char>>, id: Seq<char>) -> bool {
    !dir.contains(json_name(id)) && !dir.contains(image_name(id))
}

/// Whether the pair `id` lies whole in `dir` under its uploaded names.
pub open spec fn uploaded_whole(dir: Set<Seq<char>>, id: Seq<char>) -> bool {
    dir.contains(uploaded_json_name(id)) && dir.contains(uploaded_image_name(id))
}

/// The four names of a pair differ from one another.
pub proof fn lemma_names_differ(id: Seq<char>)
    ensures
        json_name(id) != image_name(id),
        json_name(id) != uploaded_json_name(id),
        json_name(id) != uploaded_image_name(id),
        image_name(id) != uploaded_json_name(id),
        image_name(id) != uploaded_image_name(id),
        uploaded_json_name(id) != uploaded_image_name(id),
{
    reveal_strlit(".json");
    reveal_strlit(".jpg");
    reveal_strlit("uploaded.");
    let n = id.len() as int;
    assert(json_name(id).len() == n + 5);
    assert(image_name(id).len() == n + 4);
    assert(uploaded_json_name(id).len() == n + 14);
    assert(uploaded_image_name(id).len() == n + 13);
}

/// Once the commit of a pair that waited whole is through, the pair lies
/// whole under its uploaded names and neither of its waiting files is left:
/// the shipper never sees half a pair. Every other file of the directory is
/// as it was.
pub proof fn law_commit_moves_whole_pair(dir: Set<Seq<char>>, id: Seq<char>)
    requires
        waits_whole(dir, id),
    ensures
        uploaded_whole(after_renames(dir, commit_of(id)), id),
        waits_not(after_renames(dir, commit_of(id)), id),
        forall|name: Seq<char>|
            name != json_name(id) && name != image_name(id) && name != uploaded_json_name(id)
                && name != uploaded_image_name(id) ==> (#[trigger] after_renames(
                dir,
                commit_of(id),
            ).contains(name) <==> dir.contains(name)),
{
    lemma_names_differ(id);
    let steps = commit_of(id);
    let first = steps.drop_last();
    assert(first =~= seq![(json_name(id), uploaded_json_name(id))]);
    assert(first.drop_last() =~= Seq::<(Seq<char>, Seq<char>)>::empty());
    assert(after_renames(dir, first.drop_last()) == dir);
    let mid = after_renames(dir, first);
    assert(mid == renamed(dir, json_name(id), uploaded_json_name(id)));
    assert(after_renames(dir, steps) == renamed(mid, image_name(id), uploaded_image_name(id)));
}

/// An attempt that the webhook did not accept leaves the directory as it
/// was, so the pair is posted again on a later round.
pub proof fn law_failed_upload_keeps_pair(dir: Set<Seq<char>>)
    ensures
        after_renames(dir, Seq::<(Seq<char>, Seq<char>)>::empty()) == dir,
{
}

} // verus!
