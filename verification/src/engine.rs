//! The engine: filters directory entries down to video files, turns them
//! into observations, feeds each observation to the file state tracker, and
//! collects an upload job — with its composed destination URL — for every
//! path classified Ready.

use vstd::prelude::*;
use vstd::string::StrSliceExecFns;
use vstd::string::StringExecFns;
use crate::fingerprint::crc32_of;
use crate::fingerprint::fingerprint_bytes;
use crate::tracker::classify_spec;
use crate::tracker::observe_spec;
use crate::tracker::Classification;
use crate::tracker::FileTracker;

verus! {

/// Both separators occur in practice: watched paths may be written with
/// either convention, and the file name is whatever follows the last one.
pub open spec fn is_path_separator(c: char) -> bool {
    c == '/' || c == '\\'
}

/// The file name of a path: the suffix after the last path separator, or
/// the whole path if it has none.
pub open spec fn file_name_spec(p: Seq<char>) -> Seq<char>
    decreases p.len(),
{
    if p.len() == 0 {
        Seq::empty()
    } else if is_path_separator(p[p.len() - 1]) {
        Seq::empty()
    } else {
        file_name_spec(p.drop_last()).push(p[p.len() - 1])
    }
}

/// If nothing from position `cut` onward is a separator, and `cut` is the
/// start of the path or preceded by a separator, the file name is exactly
/// the suffix from `cut`.
proof fn lemma_file_name_suffix(p: Seq<char>, cut: int)
    requires
        0 <= cut <= p.len(),
        cut == 0 || is_path_separator(p[cut - 1]),
        forall|j: int| cut <= j < p.len() ==> !is_path_separator(#[trigger] p[j]),
    ensures
        file_name_spec(p) == p.subrange(cut, p.len() as int),
    decreases p.len(),
{
    if cut == p.len() {
        assert(file_name_spec(p) =~= p.subrange(cut, p.len() as int));
    } else {
        let shorter = p.drop_last();
        assert(forall|j: int| cut <= j < shorter.len() ==> !is_path_separator(#[trigger] shorter[j]));
        lemma_file_name_suffix(shorter, cut);
        assert(file_name_spec(p) == file_name_spec(shorter).push(p[p.len() - 1]));
        assert(shorter.subrange(cut, shorter.len() as int).push(p[p.len() - 1]) =~= p.subrange(
            cut,
            p.len() as int,
        ));
    }
}

/// The file name of a path: everything after the last `/` or `\`.
pub fn file_name_of(path: &str) -> (r: String)
    ensures
        r@ == file_name_spec(path@),
{
    let n = path.unicode_len();
    let mut cut: usize = 0;
    let mut i: usize = 0;
    while i < n
        invariant
            n == path@.len(),
            cut <= i <= n,
            cut == 0 || is_path_separator(path@[cut - 1]),
            forall|j: int| cut <= j < i ==> !is_path_separator(#[trigger] path@[j]),
        decreases n - i,
    {
        let c = path.get_char(i);
        if c == '/' || c == '\\' {
            cut = i + 1;
        }
        i = i + 1;
    }
    proof {
        lemma_file_name_suffix(path@, cut as int);
    }
    let tail = path.substring_char(cut, n);
    tail.to_owned()
}

/// Whether the path's file name carries the recognized video container
/// extension: it ends in `.mp4` with a non-empty stem before the dot.
pub open spec fn has_video_extension_spec(p: Seq<char>) -> bool {
    let name = file_name_spec(p);
    name.len() > 4 && name[name.len() - 4] == '.' && name[name.len() - 3] == 'm' && name[name.len()
        - 2] == 'p' && name[name.len() - 1] == '4'
}

/// The extension filter applied at the change-source boundary: only video
/// files are considered at all.
pub fn has_video_extension(path: &str) -> (r: bool)
    ensures
        r == has_video_extension_spec(path@),
{
    let name = file_name_of(path);
    let name_str = name.as_str();
    let n = name_str.unicode_len();
    if n > 4 {
        let c_dot = name_str.get_char(n - 4);
        let c_m = name_str.get_char(n - 3);
        let c_p = name_str.get_char(n - 2);
        let c_4 = name_str.get_char(n - 1);
        c_dot == '.' && c_m == 'm' && c_p == 'p' && c_4 == '4'
    } else {
        false
    }
}

/// The destination a finished file is transferred to:
/// `https://{account}.{storage domain}/{container}/{file name}{token}`.
pub open spec fn url_spec(
    account: Seq<char>,
    container: Seq<char>,
    name: Seq<char>,
    token: Seq<char>,
) -> Seq<char> {
    "https://"@ + account + ".blob.core.windows.net/"@ + container + "/"@ + name + token
}

/// Compose the remote URL for one file name from the startup parameters.
pub fn compose_url(account: &str, container: &str, file_name: &str, token: &str) -> (r: String)
    ensures
        r@ == url_spec(account@, container@, file_name@, token@),
{
    let mut url = String::from_str("https://");
    url.append(account);
    url.append(".blob.core.windows.net/");
    url.append(container);
    url.append("/");
    url.append(file_name);
    url.append(token);
    url
}

/// One detection-cycle sighting of a candidate file: its path and the
/// fingerprint of its current contents.
pub struct Observation {
    pub path: String,
    pub fingerprint: u32,
}

/// The unit of work handed to the upload coordinator: the local file and the
/// composed remote URL it is transferred to.
pub struct UploadJob {
    pub path: String,
    pub url: String,
}

/// Build the observation for one directory entry, or nothing if the entry is
/// not a video file: the extension filter sits at the change-source boundary.
pub fn build_observation(path: String, bytes: &Vec<u8>) -> (r: Option<Observation>)
    ensures
        r is Some <==> has_video_extension_spec(path@),
        r is Some ==> r.unwrap().path@ == path@ && r.unwrap().fingerprint == crc32_of(bytes@),
{
    if has_video_extension(path.as_str()) {
        Some(Observation { fingerprint: fingerprint_bytes(bytes), path })
    } else {
        None
    }
}

/// The tracker's state after a whole cycle of observations, processed in
/// arrival order.
pub open spec fn cycle_state(m: Map<Seq<char>, u32>, obs: Seq<Observation>) -> Map<Seq<char>, u32>
    decreases obs.len(),
{
    if obs.len() == 0 {
        m
    } else {
        observe_spec(cycle_state(m, obs.drop_last()), obs.last().path@, obs.last().fingerprint)
    }
}

/// The paths a whole cycle classifies Ready, in the order they are
/// dispatched.
pub open spec fn cycle_ready_paths(m: Map<Seq<char>, u32>, obs: Seq<Observation>) -> Seq<Seq<char>>
    decreases obs.len(),
{
    if obs.len() == 0 {
        Seq::empty()
    } else {
        let pre = cycle_ready_paths(m, obs.drop_last());
        if classify_spec(
            cycle_state(m, obs.drop_last()),
            obs.last().path@,
            obs.last().fingerprint,
        ) == Classification::Ready {
            pre.push(obs.last().path@)
        } else {
            pre
        }
    }
}

/// One full detection cycle: feed every observation to the tracker and
/// collect an upload job, with its composed destination URL, for each path
/// classified Ready. The tracker evicts a Ready path before its job is
/// returned, so at most one job per completion is ever dispatched.
pub fn run_cycle(
    tracker: &mut FileTracker,
    observations: &Vec<Observation>,
    account: &str,
    container: &str,
    token: &str,
) -> (jobs: Vec<UploadJob>)
    ensures
        final(tracker)@ == cycle_state(old(tracker)@, observations@),
        jobs@.len() == cycle_ready_paths(old(tracker)@, observations@).len(),
        forall|i: int|
            0 <= i < jobs@.len() ==> (#[trigger] jobs@[i]).path@ == cycle_ready_paths(
                old(tracker)@,
                observations@,
            )[i] && jobs@[i].url@ == url_spec(
                account@,
                container@,
                file_name_spec(cycle_ready_paths(old(tracker)@, observations@)[i]),
                token@,
            ),
{
    let ghost m0 = tracker@;
    let mut jobs: Vec<UploadJob> = Vec::new();
    let n = observations.len();
    let mut k: usize = 0;
    while k < n
        invariant
            n == observations@.len(),
            k <= n,
            tracker@ == cycle_state(m0, observations@.take(k as int)),
            jobs@.len() == cycle_ready_paths(m0, observations@.take(k as int)).len(),
            forall|i: int|
                0 <= i < jobs@.len() ==> (#[trigger] jobs@[i]).path@ == cycle_ready_paths(
                    m0,
                    observations@.take(k as int),
                )[i] && jobs@[i].url@ == url_spec(
                    account@,
                    container@,
                    file_name_spec(cycle_ready_paths(m0, observations@.take(k as int))[i]),
                    token@,
                ),
        decreases n - k,
    {
        let obs = &observations[k];
        let c = tracker.observe(&obs.path, obs.fingerprint);
        if c == Classification::Ready {
            let name = file_name_of(obs.path.as_str());
            let url = compose_url(account, container, name.as_str(), token);
            jobs.push(UploadJob { path: obs.path.clone(), url });
        }
        proof {
            assert(observations@.take(k as int + 1).drop_last() =~= observations@.take(k as int));
            assert(observations@.take(k as int + 1).last() == observations@[k as int]);
        }
        k = k + 1;
    }
    proof {
        assert(observations@.take(n as int) =~= observations@);
    }
    jobs
}

/// Whether some observation in the cycle carries the given path.
pub open spec fn observes_path(obs: Seq<Observation>, path: Seq<char>) -> bool {
    exists|i: int| 0 <= i < obs.len() && (#[trigger] obs[i]).path@ == path
}

/// Whether the cycle's observations carry pairwise distinct paths, as a
/// directory enumeration does.
pub open spec fn distinct_paths(obs: Seq<Observation>) -> bool {
    forall|i: int, j: int|
        0 <= i < j < obs.len() ==> (#[trigger] obs[i]).path@ != (#[trigger] obs[j]).path@
}

/// A path no observation carries is left exactly as it was: still tracked or
/// not, with the same stored fingerprint, and never classified Ready.
proof fn lemma_unobserved_path_untouched(
    m: Map<Seq<char>, u32>,
    obs: Seq<Observation>,
    path: Seq<char>,
)
    requires
        !observes_path(obs, path),
    ensures
        cycle_state(m, obs).dom().contains(path) == m.dom().contains(path),
        m.dom().contains(path) ==> cycle_state(m, obs)[path] == m[path],
        !cycle_ready_paths(m, obs).contains(path),
    decreases obs.len(),
{
    if obs.len() == 0 {
        assert(cycle_ready_paths(m, obs).len() == 0);
    } else {
        let pre = obs.drop_last();
        assert(!observes_path(pre, path)) by {
            if observes_path(pre, path) {
                let i = choose|i: int| 0 <= i < pre.len() && pre[i].path@ == path;
                assert(obs[i].path@ == path);
            }
        }
        lemma_unobserved_path_untouched(m, pre, path);
        assert(obs.last().path@ != path) by {
            if obs.last().path@ == path {
                assert(obs[obs.len() - 1].path@ == path);
            }
        }
        let pr = cycle_ready_paths(m, pre);
        let full = cycle_ready_paths(m, obs);
        assert(!full.contains(path)) by {
            if full.contains(path) {
                let i = choose|i: int| 0 <= i < full.len() && full[i] == path;
                if i < pr.len() {
                    assert(pr[i] == path);
                    assert(pr.contains(path));
                } else {
                    assert(full[i] == obs.last().path@);
                }
            }
        }
    }
}

/// A path the tracker does not hold is never classified Ready within a
/// single cycle of distinct paths: at most one sighting occurs, and a first
/// sighting is New.
proof fn lemma_untracked_never_ready(
    m: Map<Seq<char>, u32>,
    obs: Seq<Observation>,
    path: Seq<char>,
)
    requires
        distinct_paths(obs),
        !m.dom().contains(path),
    ensures
        !cycle_ready_paths(m, obs).contains(path),
    decreases obs.len(),
{
    if obs.len() == 0 {
        assert(cycle_ready_paths(m, obs).len() == 0);
    } else {
        let pre = obs.drop_last();
        assert(distinct_paths(pre)) by {
            assert forall|i: int, j: int| 0 <= i < j < pre.len() implies (pre[i]).path@
                != (pre[j]).path@ by {
                assert(obs[i] == pre[i]);
                assert(obs[j] == pre[j]);
            }
        }
        let pr = cycle_ready_paths(m, pre);
        let full = cycle_ready_paths(m, obs);
        if obs.last().path@ == path {
            assert(!observes_path(pre, path)) by {
                if observes_path(pre, path) {
                    let i = choose|i: int| 0 <= i < pre.len() && pre[i].path@ == path;
                    assert(obs[i].path@ == obs[obs.len() - 1].path@);
                }
            }
            lemma_unobserved_path_untouched(m, pre, path);
            assert(classify_spec(cycle_state(m, pre), path, obs.last().fingerprint)
                == Classification::New);
            assert(full == pr);
            assert(!pr.contains(path));
        } else {
            lemma_untracked_never_ready(m, pre, path);
            assert(!full.contains(path)) by {
                if full.contains(path) {
                    let i = choose|i: int| 0 <= i < full.len() && full[i] == path;
                    if i < pr.len() {
                        assert(pr[i] == path);
                        assert(pr.contains(path));
                    } else {
                        assert(full[i] == obs.last().path@);
                    }
                }
            }
        }
    }
}

/// Every path a cycle of distinct paths classifies Ready is evicted by that
/// same cycle: dispatch removes the entry before the job is handed out.
proof fn lemma_ready_path_evicted(m: Map<Seq<char>, u32>, obs: Seq<Observation>, path: Seq<char>)
    requires
        distinct_paths(obs),
        cycle_ready_paths(m, obs).contains(path),
    ensures
        !cycle_state(m, obs).dom().contains(path),
    decreases obs.len(),
{
    assert(obs.len() > 0) by {
        if obs.len() == 0 {
            assert(cycle_ready_paths(m, obs).len() == 0);
        }
    }
    let pre = obs.drop_last();
    assert(distinct_paths(pre)) by {
        assert forall|i: int, j: int| 0 <= i < j < pre.len() implies (pre[i]).path@
            != (pre[j]).path@ by {
            assert(obs[i] == pre[i]);
            assert(obs[j] == pre[j]);
        }
    }
    let state_pre = cycle_state(m, pre);
    let pr = cycle_ready_paths(m, pre);
    let full = cycle_ready_paths(m, obs);
    let last = obs.last();
    if classify_spec(state_pre, last.path@, last.fingerprint) == Classification::Ready {
        if last.path@ == path {
            assert(cycle_state(m, obs) == state_pre.remove(path));
        } else {
            assert(pr.contains(path)) by {
                let i = choose|i: int| 0 <= i < full.len() && full[i] == path;
                assert(i < pr.len());
                assert(pr[i] == path);
            }
            lemma_ready_path_evicted(m, pre, path);
            assert(cycle_state(m, obs) == state_pre.remove(last.path@));
        }
    } else {
        assert(full == pr);
        assert(last.path@ != path) by {
            if last.path@ == path {
                assert(!observes_path(pre, path)) by {
                    if observes_path(pre, path) {
                        let i = choose|i: int| 0 <= i < pre.len() && pre[i].path@ == path;
                        assert(obs[i].path@ == obs[obs.len() - 1].path@);
                    }
                }
                lemma_unobserved_path_untouched(m, pre, path);
            }
        }
        lemma_ready_path_evicted(m, pre, path);
        assert(cycle_state(m, obs) == state_pre.insert(last.path@, last.fingerprint));
    }
}

/// Every path a cycle classifies Ready was observed by that cycle.
proof fn lemma_ready_is_observed(m: Map<Seq<char>, u32>, obs: Seq<Observation>, path: Seq<char>)
    requires
        cycle_ready_paths(m, obs).contains(path),
    ensures
        observes_path(obs, path),
{
    if !observes_path(obs, path) {
        lemma_unobserved_path_untouched(m, obs, path);
    }
}

/// Within one cycle of distinct paths no path is classified Ready twice, so
/// at most one upload job per path is ever in flight: the tracker evicts an
/// entry before its job is dispatched.
pub proof fn lemma_at_most_one_job_per_path(m: Map<Seq<char>, u32>, obs: Seq<Observation>)
    requires
        distinct_paths(obs),
    ensures
        forall|i: int, j: int|
            0 <= i < j < cycle_ready_paths(m, obs).len() ==> #[trigger] cycle_ready_paths(
                m,
                obs,
            )[i] != #[trigger] cycle_ready_paths(m, obs)[j],
    decreases obs.len(),
{
    if obs.len() > 0 {
        let pre = obs.drop_last();
        assert(distinct_paths(pre)) by {
            assert forall|i: int, j: int| 0 <= i < j < pre.len() implies (pre[i]).path@
                != (pre[j]).path@ by {
                assert(obs[i] == pre[i]);
                assert(obs[j] == pre[j]);
            }
        }
        lemma_at_most_one_job_per_path(m, pre);
        let pr = cycle_ready_paths(m, pre);
        let full = cycle_ready_paths(m, obs);
        let last = obs.last();
        if classify_spec(cycle_state(m, pre), last.path@, last.fingerprint)
            == Classification::Ready {
            assert(!pr.contains(last.path@)) by {
                if pr.contains(last.path@) {
                    lemma_ready_is_observed(m, pre, last.path@);
                    let i = choose|i: int| 0 <= i < pre.len() && pre[i].path@ == last.path@;
                    assert(obs[i].path@ == obs[obs.len() - 1].path@);
                }
            }
            assert forall|i: int, j: int| 0 <= i < j < full.len() implies full[i] != full[j] by {
                if j < pr.len() {
                    assert(full[i] == pr[i] && full[j] == pr[j]);
                } else {
                    assert(full[j] == last.path@);
                    assert(full[i] == pr[i]);
                    assert(pr.contains(pr[i]));
                }
            }
        }
    }
}

/// Re-running a full cycle over the same observations never classifies the
/// same path Ready twice: a dispatched path was evicted, so its next
/// sighting starts over as New. In particular no file is re-uploaded by an
/// immediate re-run, whether or not its upload succeeded.
pub proof fn lemma_no_ready_twice(m: Map<Seq<char>, u32>, obs: Seq<Observation>, path: Seq<char>)
    requires
        distinct_paths(obs),
        cycle_ready_paths(m, obs).contains(path),
    ensures
        !cycle_ready_paths(cycle_state(m, obs), obs).contains(path),
{
    lemma_ready_path_evicted(m, obs, path);
    lemma_untracked_never_ready(cycle_state(m, obs), obs, path);
}

/// A cycle that observes nothing changes nothing and dispatches nothing.
pub proof fn lemma_idle_cycle(m: Map<Seq<char>, u32>, obs: Seq<Observation>)
    requires
        obs.len() == 0,
    ensures
        cycle_state(m, obs) == m,
        cycle_ready_paths(m, obs).len() == 0,
{
}

} // verus!
