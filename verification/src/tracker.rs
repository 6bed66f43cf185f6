//! The file state tracker: a pure state machine over per-path content
//! fingerprints. Each observation of a path is classified as New (first
//! sighting), Modified (fingerprint changed) or Ready (fingerprint identical
//! on two consecutive cycles, so the file has finished being written and is
//! eligible for upload). A Ready classification evicts the entry, so a path
//! is dispatched for upload at most once per completion.

use vstd::prelude::*;
use indexmap::IndexMap;

verus! {

/// How one observation of a path relates to what the tracker already knows.
#[derive(Clone, Copy, PartialEq, Eq, Structural, Debug)]
pub enum Classification {
    /// First sighting: the path is tracked from now on, not yet eligible
    /// for upload.
    New,
    /// The fingerprint differs from the stored one: the file is still being
    /// written; the stored fingerprint is updated.
    Modified,
    /// The fingerprint is identical to the stored one: the file is finished
    /// and eligible for upload; its entry is evicted.
    Ready,
}

#[verifier::external_type_specification]
#[verifier::external_body]
#[verifier::reject_recursive_types(K)]
#[verifier::reject_recursive_types(V)]
#[verifier::reject_recursive_types(S)]
pub struct ExIndexMap<K, V, S>(IndexMap<K, V, S>);

/// What the tracker's map holds: each tracked path's stored fingerprint.
pub uninterp spec fn index_contents(m: IndexMap<String, u32>) -> Map<Seq<char>, u32>;

/// The contents of a tracker that tracks nothing.
pub open spec fn empty_tracking() -> Map<Seq<char>, u32> {
    Map::empty()
}

/// Relies on `IndexMap::new`: an empty map.
#[verifier::external_body]
fn index_new() -> (r: IndexMap<String, u32>)
    ensures
        index_contents(r) == empty_tracking(),
{
    IndexMap::new()
}

/// Relies on `IndexMap::get`: the value stored for the key, if present.
#[verifier::external_body]
fn index_get(m: &IndexMap<String, u32>, key: &String) -> (r: Option<u32>)
    ensures
        r == (if index_contents(*m).dom().contains(key@) {
            Some(index_contents(*m)[key@])
        } else {
            None::<u32>
        }),
{
    m.get(key.as_str()).copied()
}

/// Relies on `IndexMap::insert`: stores the value under the key, keeping
/// every other entry as it was.
#[verifier::external_body]
fn index_insert(m: &mut IndexMap<String, u32>, key: String, value: u32)
    ensures
        index_contents(*final(m)) == index_contents(*old(m)).insert(key@, value),
{
    m.insert(key, value);
}

/// Relies on `IndexMap::shift_remove`: removes the key's entry, keeping
/// every other entry, and returns the removed value if the key was present.
#[verifier::external_body]
fn index_shift_remove(m: &mut IndexMap<String, u32>, key: &String) -> (r: Option<u32>)
    ensures
        index_contents(*final(m)) == index_contents(*old(m)).remove(key@),
        r == (if index_contents(*old(m)).dom().contains(key@) {
            Some(index_contents(*old(m))[key@])
        } else {
            None::<u32>
        }),
{
    m.shift_remove(key.as_str())
}

/// The classification the tracker gives one observation, over its
/// mathematical view: a map from path to stored fingerprint.
pub open spec fn classify_spec(m: Map<Seq<char>, u32>, path: Seq<char>, fp: u32) -> Classification {
    if !m.dom().contains(path) {
        Classification::New
    } else if m[path] == fp {
        Classification::Ready
    } else {
        Classification::Modified
    }
}

/// The tracker's state after one observation: New and Modified store the
/// observed fingerprint; Ready evicts the entry.
pub open spec fn observe_spec(m: Map<Seq<char>, u32>, path: Seq<char>, fp: u32) -> Map<
    Seq<char>,
    u32,
> {
    if classify_spec(m, path, fp) == Classification::Ready {
        m.remove(path)
    } else {
        m.insert(path, fp)
    }
}

/// Per-path tracking state across successive observation cycles. Lives only
/// in memory; a path appears in at most one entry at a time.
pub struct FileTracker {
    index: IndexMap<String, u32>,
}

impl View for FileTracker {
    type V = Map<Seq<char>, u32>;

    closed spec fn view(&self) -> Map<Seq<char>, u32> {
        index_contents(self.index)
    }
}

impl FileTracker {
    /// A tracker that has seen nothing yet.
    pub fn new() -> (t: FileTracker)
        ensures
            t@ == empty_tracking(),
    {
        FileTracker { index: index_new() }
    }

    /// Feed one observation `(path, fingerprint)` to the state machine and
    /// classify it. A first sighting is New and is tracked; a changed
    /// fingerprint is Modified and updates the entry; an unchanged
    /// fingerprint is Ready and evicts the entry, so the same completion is
    /// never dispatched twice.
    pub fn observe(&mut self, path: &String, fp: u32) -> (c: Classification)
        ensures
            c == classify_spec(old(self)@, path@, fp),
            final(self)@ == observe_spec(old(self)@, path@, fp),
    {
        match index_get(&self.index, path) {
            None => {
                index_insert(&mut self.index, path.clone(), fp);
                Classification::New
            },
            Some(saved) => {
                if saved == fp {
                    index_shift_remove(&mut self.index, path);
                    Classification::Ready
                } else {
                    index_insert(&mut self.index, path.clone(), fp);
                    Classification::Modified
                }
            },
        }
    }

    /// Whether the path currently has a tracked entry.
    pub fn is_tracked(&self, path: &String) -> (r: bool)
        ensures
            r == self@.dom().contains(path@),
    {
        index_get(&self.index, path).is_some()
    }
}

/// A path never previously seen is classified New on its first observation,
/// never Ready: a brand-new file is not eligible for upload at first sight.
pub proof fn lemma_first_observation_not_ready(m: Map<Seq<char>, u32>, path: Seq<char>, fp: u32)
    requires
        !m.dom().contains(path),
    ensures
        classify_spec(m, path, fp) == Classification::New,
        classify_spec(m, path, fp) != Classification::Ready,
{
}

/// A path tracked with the same fingerprint it is observed with is classified
/// Ready, its entry is evicted, and an immediate re-observation of the same
/// fingerprint starts over as New: no duplicate Ready for the same
/// fingerprint pair.
pub proof fn lemma_unchanged_ready_exactly_once(m: Map<Seq<char>, u32>, path: Seq<char>, fp: u32)
    requires
        m.dom().contains(path),
        m[path] == fp,
    ensures
        classify_spec(m, path, fp) == Classification::Ready,
        !observe_spec(m, path, fp).dom().contains(path),
        classify_spec(observe_spec(m, path, fp), path, fp) == Classification::New,
{
}

/// The two-cycle rule, end to end: a file first seen with some fingerprint is
/// New, and when the next cycle observes the identical fingerprint it is
/// Ready exactly once and no longer tracked afterward.
pub proof fn lemma_two_cycle_rule(m: Map<Seq<char>, u32>, path: Seq<char>, fp: u32)
    requires
        !m.dom().contains(path),
    ensures
        classify_spec(m, path, fp) == Classification::New,
        classify_spec(observe_spec(m, path, fp), path, fp) == Classification::Ready,
        !observe_spec(observe_spec(m, path, fp), path, fp).dom().contains(path),
{
}

} // verus!
