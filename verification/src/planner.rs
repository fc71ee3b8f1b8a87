//! The diff planner: decides which files under a source root need work.
//!
//! The planner is pure: the surrounding process walks the source and
//! destination trees and hands the listings in as plain values, together with
//! a flag saying whether the source root is a directory.  Planning is
//! additive — it only ever copies or decodes files into the destination,
//! never deletes.
//!
//! Decode-required files are skipped when a predicted output — same
//! directory, same stem, one of the common audio extensions — already exists
//! with a modification time at or after the source's.  This avoids
//! re-decoding the whole library on every run, at the price of a false skip
//! if the container's metadata changes without advancing its timestamp;
//! re-including every container file on every run would be the safe but
//! wasteful alternative.

use vstd::prelude::*;
use vstd::string::StrSliceExecFns;
use vstd::string::StringExecFns;

use crate::errors::SyncError;
use crate::paths::{
    spec_file_name, spec_is_ncm_path, spec_join, spec_parent_dir, spec_stem, file_name_of,
    is_ncm_path, join_path, parent_dir_of, stem_of_name, str_starts_with,
};

verus! {

/// Parameters of one planning and execution cycle.
#[derive(Clone, Debug)]
pub struct ImportParams {
    pub input_path: String,
    pub output_path: String,
    pub exclude_dirs: Vec<String>,
    pub thread_count: usize,
}

/// One regular file in a directory listing: its path relative to the listing
/// root, its size in bytes, and its modification time in whole seconds.
#[derive(Clone, Debug)]
pub struct FileMeta {
    pub rel_path: String,
    pub size: u64,
    pub mtime: u64,
}

/// One unit of work: copy or decode `input` towards `output`.
///
/// For a decode-required task, `output` only fixes the directory; the final
/// file name is chosen by the decoder from metadata inside the container.
#[derive(Clone, Debug)]
pub struct FileTask {
    pub input: String,
    pub output: String,
    pub is_ncm: bool,
}

/// The mathematical shadow of a [`FileTask`].
pub struct FileTaskModel {
    pub input: Seq<char>,
    pub output: Seq<char>,
    pub is_ncm: bool,
}

impl View for FileTask {
    type V = FileTaskModel;

    open spec fn view(&self) -> FileTaskModel {
        FileTaskModel { input: self.input@, output: self.output@, is_ncm: self.is_ncm }
    }
}

impl DeepView for FileTask {
    type V = FileTaskModel;

    open spec fn deep_view(&self) -> FileTaskModel {
        self.view()
    }
}

/// A relative path is excluded when some non-empty exclusion pattern is a
/// prefix of it.
pub open spec fn spec_is_excluded(rel: Seq<char>, pats: Seq<Seq<char>>) -> bool {
    exists|i: int| 0 <= i < pats.len() && pats[i].len() > 0 && pats[i].is_prefix_of(rel)
}

/// The first listing entry with the given relative path, if any.
pub open spec fn spec_dest_find(dests: Seq<FileMeta>, rel: Seq<char>) -> Option<FileMeta>
    decreases dests.len(),
{
    if dests.len() == 0 {
        None
    } else if dests[0].rel_path@ == rel {
        Some(dests[0])
    } else {
        spec_dest_find(dests.drop_first(), rel)
    }
}

/// Two timestamps agree within the one-second tolerance that blunts
/// filesystem timestamp truncation.
pub open spec fn spec_mtime_close(a: u64, b: u64) -> bool {
    if a >= b {
        a - b <= 1
    } else {
        b - a <= 1
    }
}

/// A plain file is skipped when its destination already exists with the same
/// size and a modification time within tolerance.
pub open spec fn spec_plain_skip(f: FileMeta, dests: Seq<FileMeta>) -> bool {
    match spec_dest_find(dests, f.rel_path@) {
        Some(d) => d.size == f.size && spec_mtime_close(d.mtime, f.mtime),
        None => false,
    }
}

/// The audio extensions probed when predicting a decoder's output name.
pub open spec fn spec_probe_ext(k: int) -> Seq<char> {
    if k == 0 {
        seq!['m', 'p', '3']
    } else if k == 1 {
        seq!['f', 'l', 'a', 'c']
    } else if k == 2 {
        seq!['m', '4', 'a']
    } else if k == 3 {
        seq!['o', 'g', 'g']
    } else if k == 4 {
        seq!['w', 'a', 'v']
    } else {
        Seq::empty()
    }
}

/// The destination-relative path where a decoded output with probe extension
/// `k` would live: same directory, same stem, new extension.
pub open spec fn spec_predicted_rel(rel: Seq<char>, k: int) -> Seq<char> {
    let dir = spec_parent_dir(rel);
    let pname = spec_stem(spec_file_name(rel)) + seq!['.'] + spec_probe_ext(k);
    if dir.len() > 0 {
        spec_join(dir, pname)
    } else {
        pname
    }
}

/// Probe `k` hits: a predicted output exists and is no older (within
/// tolerance) than the container file.
pub open spec fn spec_ncm_skip_with(f: FileMeta, dests: Seq<FileMeta>, k: int) -> bool {
    match spec_dest_find(dests, spec_predicted_rel(f.rel_path@, k)) {
        Some(d) => f.mtime <= d.mtime + 1,
        None => false,
    }
}

/// A decode-required file is skipped when any probe extension hits.
pub open spec fn spec_ncm_skip(f: FileMeta, dests: Seq<FileMeta>) -> bool {
    exists|k: int| 0 <= k < 5 && spec_ncm_skip_with(f, dests, k)
}

/// Whether a source file makes it into the plan.
pub open spec fn spec_included(f: FileMeta, pats: Seq<Seq<char>>, dests: Seq<FileMeta>) -> bool {
    &&& !spec_is_excluded(f.rel_path@, pats)
    &&& if spec_is_ncm_path(f.rel_path@) {
        !spec_ncm_skip(f, dests)
    } else {
        !spec_plain_skip(f, dests)
    }
}

/// The task a source file turns into.
pub open spec fn spec_task_of(input_root: Seq<char>, output_root: Seq<char>, f: FileMeta) -> FileTaskModel {
    FileTaskModel {
        input: spec_join(input_root, f.rel_path@),
        output: spec_join(output_root, f.rel_path@),
        is_ncm: spec_is_ncm_path(f.rel_path@),
    }
}

/// The whole plan: every included source file, in listing order, mapped to
/// its task.
pub open spec fn spec_plan(
    input_root: Seq<char>,
    output_root: Seq<char>,
    pats: Seq<Seq<char>>,
    srcs: Seq<FileMeta>,
    dests: Seq<FileMeta>,
) -> Seq<FileTaskModel>
    decreases srcs.len(),
{
    if srcs.len() == 0 {
        Seq::empty()
    } else {
        let pre = spec_plan(input_root, output_root, pats, srcs.drop_last(), dests);
        if spec_included(srcs.last(), pats, dests) {
            pre.push(spec_task_of(input_root, output_root, srcs.last()))
        } else {
            pre
        }
    }
}

/// With no exclusion patterns and an empty destination, every source file is
/// planned: the plan has exactly one task per regular file under the root.
pub proof fn lemma_plan_covers_all_sources(
    input_root: Seq<char>,
    output_root: Seq<char>,
    pats: Seq<Seq<char>>,
    srcs: Seq<FileMeta>,
)
    requires
        pats.len() == 0,
    ensures
        spec_plan(input_root, output_root, pats, srcs, Seq::empty()).len() == srcs.len(),
    decreases srcs.len(),
{
    if srcs.len() > 0 {
        lemma_plan_covers_all_sources(input_root, output_root, pats, srcs.drop_last());
        let f = srcs.last();
        assert(!spec_is_excluded(f.rel_path@, pats));
        assert(forall|k: int| 0 <= k < 5 ==> !spec_ncm_skip_with(f, Seq::<FileMeta>::empty(), k));
        assert(spec_included(f, pats, Seq::empty()));
    }
}

/// Every task in a plan is the task of some included source entry.
pub proof fn lemma_plan_members(
    input_root: Seq<char>,
    output_root: Seq<char>,
    pats: Seq<Seq<char>>,
    srcs: Seq<FileMeta>,
    dests: Seq<FileMeta>,
)
    ensures
        forall|t: FileTaskModel|
            #[trigger] spec_plan(input_root, output_root, pats, srcs, dests).contains(t)
                ==> exists|j: int|
                0 <= j < srcs.len() && spec_included(srcs[j], pats, dests) && t == spec_task_of(
                    input_root,
                    output_root,
                    srcs[j],
                ),
    decreases srcs.len(),
{
    if srcs.len() > 0 {
        lemma_plan_members(input_root, output_root, pats, srcs.drop_last(), dests);
        let plan = spec_plan(input_root, output_root, pats, srcs, dests);
        let pre = spec_plan(input_root, output_root, pats, srcs.drop_last(), dests);
        let f = srcs.last();
        assert forall|t: FileTaskModel| #[trigger] plan.contains(t) implies exists|j: int|
            0 <= j < srcs.len() && spec_included(srcs[j], pats, dests) && t == spec_task_of(
                input_root,
                output_root,
                srcs[j],
            ) by {
            let i = choose|i: int| 0 <= i < plan.len() && plan[i] == t;
            if i < pre.len() {
                assert(pre.contains(t));
                let j = choose|j: int|
                    0 <= j < srcs.drop_last().len() && spec_included(
                        srcs.drop_last()[j],
                        pats,
                        dests,
                    ) && t == spec_task_of(input_root, output_root, srcs.drop_last()[j]);
                assert(srcs.drop_last()[j] == srcs[j]);
            } else {
                assert(spec_included(f, pats, dests));
                assert(t == spec_task_of(input_root, output_root, f));
                assert(srcs[srcs.len() - 1] == f);
            }
        }
    }
}

/// A destination `d2` extends `d1` when every path found in `d1` is found
/// unchanged in `d2` — a destination that only gained files.  Re-planning
/// against the larger destination yields a subset of the first plan: a
/// second run never invents work the first run did not already contain.
pub proof fn lemma_replan_subset(
    input_root: Seq<char>,
    output_root: Seq<char>,
    pats: Seq<Seq<char>>,
    srcs: Seq<FileMeta>,
    d1: Seq<FileMeta>,
    d2: Seq<FileMeta>,
)
    requires
        forall|p: Seq<char>|
            #[trigger] spec_dest_find(d1, p) is Some ==> spec_dest_find(d2, p) == spec_dest_find(
                d1,
                p,
            ),
    ensures
        forall|t: FileTaskModel|
            #[trigger] spec_plan(input_root, output_root, pats, srcs, d2).contains(t)
                ==> spec_plan(input_root, output_root, pats, srcs, d1).contains(t),
    decreases srcs.len(),
{
    if srcs.len() > 0 {
        lemma_replan_subset(input_root, output_root, pats, srcs.drop_last(), d1, d2);
        let p2 = spec_plan(input_root, output_root, pats, srcs, d2);
        let p1 = spec_plan(input_root, output_root, pats, srcs, d1);
        let pre2 = spec_plan(input_root, output_root, pats, srcs.drop_last(), d2);
        let pre1 = spec_plan(input_root, output_root, pats, srcs.drop_last(), d1);
        let f = srcs.last();
        assert(spec_included(f, pats, d2) ==> spec_included(f, pats, d1)) by {
            if spec_plain_skip(f, d1) {
                assert(spec_plain_skip(f, d2));
            }
            if spec_ncm_skip(f, d1) {
                let k = choose|k: int| 0 <= k < 5 && spec_ncm_skip_with(f, d1, k);
                assert(spec_ncm_skip_with(f, d2, k));
            }
        }
        assert forall|t: FileTaskModel| #[trigger] p2.contains(t) implies p1.contains(t) by {
            let i = choose|i: int| 0 <= i < p2.len() && p2[i] == t;
            if i < pre2.len() {
                assert(pre2.contains(t));
                assert(pre1.contains(t));
                let j = choose|j: int| 0 <= j < pre1.len() && pre1[j] == t;
                assert(p1[j] == t);
            } else {
                assert(spec_included(f, pats, d2));
                assert(t == spec_task_of(input_root, output_root, f));
                assert(p1[p1.len() - 1] == t);
            }
        }
    }
}

/// A plain-copy source file whose destination already matches in size and
/// modification time is planned by no run at all, provided the listing names
/// each relative path once.
pub proof fn lemma_up_to_date_not_planned(
    input_root: Seq<char>,
    output_root: Seq<char>,
    pats: Seq<Seq<char>>,
    srcs: Seq<FileMeta>,
    dests: Seq<FileMeta>,
    j: int,
)
    requires
        forall|a: int, b: int| 0 <= a < b < srcs.len() ==> srcs[a].rel_path@ != srcs[b].rel_path@,
        0 <= j < srcs.len(),
        !spec_is_ncm_path(srcs[j].rel_path@),
        spec_plain_skip(srcs[j], dests),
    ensures
        !spec_plan(input_root, output_root, pats, srcs, dests).contains(
            spec_task_of(input_root, output_root, srcs[j]),
        ),
{
    let t = spec_task_of(input_root, output_root, srcs[j]);
    let plan = spec_plan(input_root, output_root, pats, srcs, dests);
    if plan.contains(t) {
        lemma_plan_members(input_root, output_root, pats, srcs, dests);
        let m = choose|m: int|
            0 <= m < srcs.len() && spec_included(srcs[m], pats, dests) && t == spec_task_of(
                input_root,
                output_root,
                srcs[m],
            );
        crate::paths::lemma_join_injective(input_root, srcs[m].rel_path@, srcs[j].rel_path@);
        assert(srcs[m].rel_path@ == srcs[j].rel_path@);
        assert(m == j);
        assert(false);
    }
}

/// Whether some non-empty exclusion pattern is a prefix of `rel`.
pub fn is_excluded(rel: &String, exclude_dirs: &Vec<String>) -> (r: bool)
    ensures
        r == spec_is_excluded(rel@, exclude_dirs.deep_view()),
{
    let n = exclude_dirs.len();
    let mut i: usize = 0;
    while i < n
        invariant
            i <= n,
            n == exclude_dirs@.len(),
            forall|j: int|
                0 <= j < i ==> !(exclude_dirs.deep_view()[j].len() > 0
                    && exclude_dirs.deep_view()[j].is_prefix_of(rel@)),
        decreases n - i,
    {
        let pat = &exclude_dirs[i];
        proof {
            assert(exclude_dirs.deep_view()[i as int] == pat@);
        }
        if pat.as_str().unicode_len() > 0 && str_starts_with(rel.as_str(), pat.as_str()) {
            return true;
        }
        i = i + 1;
    }
    false
}

/// First destination entry with the given relative path.
fn dest_find<'a>(dests: &'a Vec<FileMeta>, rel: &String) -> (r: Option<&'a FileMeta>)
    ensures
        match r {
            Some(d) => spec_dest_find(dests@, rel@) == Some(*d),
            None => spec_dest_find(dests@, rel@) is None,
        },
{
    let n = dests.len();
    proof {
        assert(dests@.skip(0) =~= dests@);
    }
    let mut i: usize = 0;
    while i < n
        invariant
            i <= n,
            n == dests@.len(),
            spec_dest_find(dests@, rel@) == spec_dest_find(dests@.skip(i as int), rel@),
        decreases n - i,
    {
        let d = &dests[i];
        proof {
            assert(dests@.skip(i as int)[0] == dests@[i as int]);
            assert(dests@.skip(i as int).drop_first() =~= dests@.skip(i + 1));
        }
        if d.rel_path == *rel {
            return Some(d);
        }
        i = i + 1;
    }
    None
}

/// Whether a plain file's destination already matches in size and time.
fn plain_skip(f: &FileMeta, dests: &Vec<FileMeta>) -> (r: bool)
    ensures
        r == spec_plain_skip(*f, dests@),
{
    match dest_find(dests, &f.rel_path) {
        Some(d) => {
            let same_size = d.size == f.size;
            let close = if d.mtime >= f.mtime {
                d.mtime - f.mtime <= 1
            } else {
                f.mtime - d.mtime <= 1
            };
            same_size && close
        },
        None => false,
    }
}

/// The `k`-th probe extension.
fn probe_ext(k: usize) -> (r: &'static str)
    requires
        k < 5,
    ensures
        r@ == spec_probe_ext(k as int),
{
    proof {
        reveal_strlit("mp3");
        reveal_strlit("flac");
        reveal_strlit("m4a");
        reveal_strlit("ogg");
        reveal_strlit("wav");
    }
    if k == 0 {
        let r = "mp3";
        proof {
            assert(r@ =~= spec_probe_ext(0));
        }
        r
    } else if k == 1 {
        let r = "flac";
        proof {
            assert(r@ =~= spec_probe_ext(1));
        }
        r
    } else if k == 2 {
        let r = "m4a";
        proof {
            assert(r@ =~= spec_probe_ext(2));
        }
        r
    } else if k == 3 {
        let r = "ogg";
        proof {
            assert(r@ =~= spec_probe_ext(3));
        }
        r
    } else {
        let r = "wav";
        proof {
            assert(r@ =~= spec_probe_ext(4));
        }
        r
    }
}

/// Whether a decode-required file's predicted output already exists and is
/// recent enough.
fn ncm_skip(f: &FileMeta, dests: &Vec<FileMeta>) -> (r: bool)
    ensures
        r == spec_ncm_skip(*f, dests@),
{
    let rel = f.rel_path.as_str();
    let dir = parent_dir_of(rel);
    let name = file_name_of(rel);
    let stem = stem_of_name(name);
    let mut k: usize = 0;
    while k < 5
        invariant
            k <= 5,
            dir@ == spec_parent_dir(f.rel_path@),
            stem@ == spec_stem(spec_file_name(f.rel_path@)),
            forall|j: int| 0 <= j < k ==> !spec_ncm_skip_with(*f, dests@, j),
        decreases 5 - k,
    {
        let ext = probe_ext(k);
        let mut pname = stem.to_owned();
        pname.append(".");
        pname.append(ext);
        proof {
            reveal_strlit(".");
            assert("."@ =~= seq!['.']);
        }
        let predicted = if dir.unicode_len() > 0 {
            join_path(dir, pname.as_str())
        } else {
            pname
        };
        proof {
            assert(predicted@ == spec_predicted_rel(f.rel_path@, k as int));
        }
        match dest_find(dests, &predicted) {
            Some(d) => {
                if d.mtime >= f.mtime || f.mtime - d.mtime <= 1 {
                    proof {
                        assert(spec_ncm_skip_with(*f, dests@, k as int));
                    }
                    return true;
                }
            },
            None => {},
        }
        k = k + 1;
    }
    false
}

/// Compute the synchronization plan.
///
/// `input_is_dir` reports the probe of the source root: when it is false the
/// planner rejects the whole request, and otherwise every source file that is
/// neither excluded nor already up to date in the destination becomes one
/// task, in listing order.
pub fn plan_sync(
    params: &ImportParams,
    input_is_dir: bool,
    source_files: &Vec<FileMeta>,
    dest_files: &Vec<FileMeta>,
) -> (r: Result<Vec<FileTask>, SyncError>)
    ensures
        match r {
            Ok(tasks) => input_is_dir && tasks.deep_view() == spec_plan(
                params.input_path@,
                params.output_path@,
                params.exclude_dirs.deep_view(),
                source_files@,
                dest_files@,
            ),
            Err(e) => !input_is_dir && e == SyncError::InvalidInput,
        },
{
    if !input_is_dir {
        return Err(SyncError::InvalidInput);
    }
    let ghost ir = params.input_path@;
    let ghost or = params.output_path@;
    let ghost pats = params.exclude_dirs.deep_view();
    let mut tasks: Vec<FileTask> = Vec::new();
    let n = source_files.len();
    proof {
        assert(source_files@.take(0) =~= Seq::<FileMeta>::empty());
        assert(tasks.deep_view() =~= spec_plan(ir, or, pats, source_files@.take(0), dest_files@));
    }
    let mut i: usize = 0;
    while i < n
        invariant
            i <= n,
            n == source_files@.len(),
            tasks.deep_view() == spec_plan(ir, or, pats, source_files@.take(i as int), dest_files@),
            ir == params.input_path@,
            or == params.output_path@,
            pats == params.exclude_dirs.deep_view(),
        decreases n - i,
    {
        let f = &source_files[i];
        proof {
            assert(source_files@.take(i + 1).drop_last() =~= source_files@.take(i as int));
            assert(source_files@.take(i + 1).last() == source_files@[i as int]);
        }
        let ghost pre = tasks.deep_view();
        if !is_excluded(&f.rel_path, &params.exclude_dirs) {
            let ncm = is_ncm_path(f.rel_path.as_str());
            let skip = if ncm {
                ncm_skip(f, dest_files)
            } else {
                plain_skip(f, dest_files)
            };
            if !skip {
                let t = FileTask {
                    input: join_path(params.input_path.as_str(), f.rel_path.as_str()),
                    output: join_path(params.output_path.as_str(), f.rel_path.as_str()),
                    is_ncm: ncm,
                };
                proof {
                    assert(t@ == spec_task_of(ir, or, source_files@[i as int]));
                }
                tasks.push(t);
                proof {
                    assert(tasks.deep_view() =~= pre.push(
                        spec_task_of(ir, or, source_files@[i as int]),
                    ));
                }
            }
        }
        i = i + 1;
    }
    proof {
        assert(source_files@.take(n as int) =~= source_files@);
    }
    Ok(tasks)
}

} // verus!
