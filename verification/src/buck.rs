//! The project model: targets, directories, and the single-flight load
//! coordinator.
//!
//! A `BuckProject` indexes one `BuckDirectory` per distinct directory
//! path.  Loading a directory's targets, or one target's details, is
//! asynchronous: a request hands a message to the embedder's worker (the
//! outboxes below stand for the worker channel), and the worker's results
//! come back through `update_loaded_target_results` once per UI tick.  At
//! most one directory-load and one detail-load request is active at a
//! time; a new request cancels and replaces the previous one.

use vstd::prelude::*;

use vstd::multiset::Multiset;

use tokio_util::sync::CancellationToken;

use crate::strutil::head_before_first;
use crate::strutil::lower_of;
use crate::strutil::path_prefix_of;
use crate::strutil::str_path_prefix_of;
use crate::strutil::seq_contains;
use crate::strutil::str_contains;
use crate::strutil::to_lower;
use crate::strutil::lex_le;
use crate::strutil::str_head_before_first;
use crate::strutil::str_tail_after_last;
use crate::strutil::tail_after_last;

verus! {

/// One build target: its full label, rule type, owning directory, and
/// dependency labels.  `rule_type` and `deps` arrive with the detail load;
/// until then they hold the placeholder values.
#[derive(Debug)]
#[verifier::ext_equal]
pub struct BuckTarget {
    pub name: String,
    pub rule_type: String,
    pub path: String,
    pub deps: Vec<String>,
    pub details_loaded: bool,
}

/// The short name of a target label: what follows the last `//`, and
/// within that the last `:`.
pub open spec fn target_name_spec(name: Seq<char>) -> Seq<char> {
    tail_after_last(tail_after_last(name, "//"@), ":"@)
}

/// The language part of a rule type: the piece before the first `_`, after
/// one leading `_` is dropped.
pub open spec fn rule_language_spec(rt: Seq<char>) -> Seq<char> {
    if rt.len() > 0 && rt[0] == '_' {
        head_before_first(rt.subrange(1, rt.len() as int), '_')
    } else {
        head_before_first(rt, '_')
    }
}

/// The mathematical value of a target: every field as plain data.
#[verifier::ext_equal]
pub struct TargetModel {
    pub name: Seq<char>,
    pub rule_type: Seq<char>,
    pub path: Seq<char>,
    pub deps: Seq<Seq<char>>,
    pub details_loaded: bool,
}

impl View for BuckTarget {
    type V = TargetModel;

    open spec fn view(&self) -> TargetModel {
        TargetModel {
            name: self.name@,
            rule_type: self.rule_type@,
            path: self.path@,
            deps: self.deps.deep_view(),
            details_loaded: self.details_loaded,
        }
    }
}

impl DeepView for BuckTarget {
    type V = TargetModel;

    open spec fn deep_view(&self) -> TargetModel {
        self@
    }
}

/// The line shown for a target: ` name (rule_type)`.
pub open spec fn display_title_spec(t: TargetModel) -> Seq<char> {
    " "@ + target_name_spec(t.name) + " ("@ + t.rule_type + ")"@
}

impl BuckTarget {
    /// The short name of the target: `//pkg:name` becomes `name`.
    pub fn target_name(&self) -> (r: String)
        ensures
            r@ == target_name_spec(self.name@),
    {
        proof {
            reveal_strlit("//");
            reveal_strlit(":");
        }
        let after_slashes = str_tail_after_last(self.name.as_str(), "//");
        str_tail_after_last(after_slashes.as_str(), ":")
    }

    /// The language a rule type belongs to: `rust_library` gives `rust`,
    /// `_go_binary` gives `go`.
    pub fn get_rule_language(&self) -> (r: String)
        ensures
            r@ == rule_language_spec(self.rule_type@),
    {
        let len = self.rule_type.as_str().unicode_len();
        if len > 0 && self.rule_type.as_str().get_char(0) == '_' {
            let stripped = self.rule_type.as_str().substring_char(1, len);
            str_head_before_first(stripped, '_')
        } else {
            str_head_before_first(self.rule_type.as_str(), '_')
        }
    }

    /// The list line for this target: ` name (rule_type)`.
    pub fn display_title(&self) -> (r: String)
        ensures
            r@ == display_title_spec(self@),
    {
        let name = self.target_name();
        let mut r = String::from_str(" ");
        r.append(name.as_str());
        r.append(" (");
        r.append(self.rule_type.as_str());
        r.append(")");
        proof {
            assert(r@ =~= display_title_spec(self@));
        }
        r
    }
}

/// What a detail load returns for one target.
#[derive(Debug)]
pub struct TargetDetails {
    pub rule_type: String,
    pub deps: Vec<String>,
}

/// An element-wise copy of a list of strings.
pub fn clone_strings(v: &Vec<String>) -> (r: Vec<String>)
    ensures
        r@ == v@,
{
    let mut r: Vec<String> = Vec::new();
    let mut i: usize = 0;
    while i < v.len()
        invariant
            0 <= i <= v@.len(),
            r@.len() == i,
            forall|k: int| 0 <= k < i ==> r@[k] == v@[k],
        decreases v@.len() - i,
    {
        r.push(v[i].clone());
        i = i + 1;
    }
    proof {
        assert(r@ =~= v@);
    }
    r
}

impl Clone for BuckTarget {
    /// A clone has the same mathematical value as the original.
    fn clone(&self) -> (r: BuckTarget)
        ensures
            r@ == self@,
    {
        let r = BuckTarget {
            name: self.name.clone(),
            rule_type: self.rule_type.clone(),
            path: self.path.clone(),
            deps: clone_strings(&self.deps),
            details_loaded: self.details_loaded,
        };
        proof {
            assert(r@ =~~= self@);
        }
        r
    }
}

/// An element-wise copy of a list of targets, equal in value.
pub fn clone_targets(v: &Vec<BuckTarget>) -> (r: Vec<BuckTarget>)
    ensures
        r.deep_view() == v.deep_view(),
        r@.len() == v@.len(),
{
    let mut r: Vec<BuckTarget> = Vec::new();
    let mut i: usize = 0;
    while i < v.len()
        invariant
            0 <= i <= v@.len(),
            r@.len() == i,
            forall|k: int| 0 <= k < i ==> r@[k]@ == v@[k]@,
        decreases v@.len() - i,
    {
        r.push(v[i].clone());
        i = i + 1;
    }
    proof {
        assert(r.deep_view() =~~= v.deep_view());
    }
    r
}

impl Clone for BuckDirectory {
    /// A clone has the same path, flags, and target values as the
    /// original.
    fn clone(&self) -> (r: BuckDirectory)
        ensures
            r.path == self.path,
            r.has_buck_file == self.has_buck_file,
            r.targets_loaded == self.targets_loaded,
            r.targets_loading == self.targets_loading,
            r.targets.deep_view() == self.targets.deep_view(),
    {
        BuckDirectory {
            path: self.path.clone(),
            targets: clone_targets(&self.targets),
            has_buck_file: self.has_buck_file,
            targets_loaded: self.targets_loaded,
            targets_loading: self.targets_loading,
        }
    }
}

/// One directory of the project: its targets, whether it holds a build
/// manifest, and where its target load stands.
#[derive(Debug)]
#[verifier::ext_equal]
pub struct BuckDirectory {
    pub path: String,
    pub targets: Vec<BuckTarget>,
    pub has_buck_file: bool,
    pub targets_loaded: bool,
    pub targets_loading: bool,
}

/// Some directory in `s` has path `p`.
pub open spec fn dir_has(s: Seq<BuckDirectory>, p: Seq<char>) -> bool {
    exists|i: int| 0 <= i < s.len() && (#[trigger] s[i]).path@ == p
}

/// `i` is the position of the first directory with path `p`.
pub open spec fn dir_first_match(s: Seq<BuckDirectory>, p: Seq<char>, i: int) -> bool {
    &&& 0 <= i < s.len()
    &&& s[i].path@ == p
    &&& forall|k: int| 0 <= k < i ==> (#[trigger] s[k]).path@ != p
}

/// At most one position is the first match for a path.
pub proof fn lemma_dir_first_match_unique(s: Seq<BuckDirectory>, p: Seq<char>, a: int, b: int)
    requires
        dir_first_match(s, p, a),
        dir_first_match(s, p, b),
    ensures
        a == b,
{
    if a < b {
        assert(s[a].path@ == p);
    } else if b < a {
        assert(s[b].path@ == p);
    }
}

/// The sort key of a directory entry: the last component of its path.
pub open spec fn dir_key(d: BuckDirectory) -> Seq<char> {
    tail_after_last(d.path@, "/"@)
}

/// Directory entries ordered by the last path component.
pub open spec fn dirs_sorted(s: Seq<BuckDirectory>) -> bool {
    forall|i: int, j: int|
        0 <= i < j < s.len() ==> lex_le(dir_key(#[trigger] s[i]), dir_key(#[trigger] s[j]))
}

/// The position of the first entry with the least key in `v`.
fn min_key_index(v: &Vec<BuckDirectory>) -> (m: usize)
    requires
        v@.len() > 0,
    ensures
        m < v@.len(),
        forall|j: int| 0 <= j < v@.len() ==> lex_le(dir_key(v@[m as int]), dir_key(#[trigger] v@[j])),
{
    proof {
        reveal_strlit("/");
        crate::strutil::lemma_lex_refl(dir_key(v@[0]));
    }
    let mut best: usize = 0;
    let mut best_key = str_tail_after_last(v[0].path.as_str(), "/");
    let mut j: usize = 1;
    while j < v.len()
        invariant
            0 <= best < j <= v@.len(),
            best_key@ == dir_key(v@[best as int]),
            forall|k: int| 0 <= k < j ==> lex_le(dir_key(v@[best as int]), dir_key(#[trigger] v@[k])),
        decreases v@.len() - j,
    {
        proof {
            reveal_strlit("/");
        }
        let key_j = str_tail_after_last(v[j].path.as_str(), "/");
        let j_le_best = crate::strutil::str_le(key_j.as_str(), best_key.as_str());
        let best_le_j = crate::strutil::str_le(best_key.as_str(), key_j.as_str());
        if j_le_best && !best_le_j {
            proof {
                let old_best = best as int;
                assert forall|k: int| 0 <= k < j + 1 implies lex_le(
                    dir_key(v@[j as int]),
                    dir_key(#[trigger] v@[k]),
                ) by {
                    if k < j {
                        crate::strutil::lemma_lex_trans(
                            dir_key(v@[j as int]),
                            dir_key(v@[old_best]),
                            dir_key(v@[k]),
                        );
                    } else {
                        crate::strutil::lemma_lex_refl(dir_key(v@[j as int]));
                    }
                }
            }
            best = j;
            best_key = key_j;
        } else {
            proof {
                crate::strutil::lemma_lex_total(dir_key(v@[best as int]), dir_key(v@[j as int]));
            }
        }
        j = j + 1;
    }
    best
}

/// Sort directory entries by their last path component, ascending.  The
/// result is a permutation of the input.
pub fn sort_directories(v: Vec<BuckDirectory>) -> (r: Vec<BuckDirectory>)
    ensures
        dirs_sorted(r@),
        r@.to_multiset() == v@.to_multiset(),
        r@.len() == v@.len(),
{
    broadcast use vstd::seq_lib::group_to_multiset_ensures;

    let mut src = v;
    let mut out: Vec<BuckDirectory> = Vec::new();
    proof {
        assert(out@.to_multiset().add(src@.to_multiset()) =~= v@.to_multiset());
    }
    while src.len() > 0
        invariant
            dirs_sorted(out@),
            out@.to_multiset().add(src@.to_multiset()) == v@.to_multiset(),
            out@.len() + src@.len() == v@.len(),
            forall|i: int, j: int|
                0 <= i < out@.len() && 0 <= j < src@.len() ==> lex_le(
                    dir_key(#[trigger] out@[i]),
                    dir_key(#[trigger] src@[j]),
                ),
        decreases src@.len(),
    {
        let ghost src0 = src@;
        let ghost out0 = out@;
        let m = min_key_index(&src);
        let d = src.remove(m);
        out.push(d);
        proof {
            src0.to_multiset_ensures();
            out0.to_multiset_ensures();
            assert(src@ == src0.remove(m as int));
            assert(src0.contains(src0[m as int]));
            assert(src0.remove(m as int).to_multiset() =~= src0.to_multiset().remove(
                src0[m as int],
            ));
            assert(out@.to_multiset() =~= out0.to_multiset().insert(d));
            assert(out@.to_multiset().add(src@.to_multiset()) =~= v@.to_multiset());
            assert forall|i: int, j: int|
                0 <= i < out@.len() && 0 <= j < src@.len() implies lex_le(
                dir_key(#[trigger] out@[i]),
                dir_key(#[trigger] src@[j]),
            ) by {
                let sj = if j < m {
                    j
                } else {
                    j + 1
                };
                assert(src@[j] == src0[sj]);
                if i < out0.len() {
                    assert(out@[i] == out0[i]);
                } else {
                    assert(out@[i] == d);
                }
            }
            assert forall|i: int, j: int| 0 <= i < j < out@.len() implies lex_le(
                dir_key(#[trigger] out@[i]),
                dir_key(#[trigger] out@[j]),
            ) by {
                if j == out@.len() - 1 {
                    assert(out@[j] == d && d == src0[m as int]);
                    assert(out@[i] == out0[i]);
                } else {
                    assert(out@[i] == out0[i] && out@[j] == out0[j]);
                }
            }
        }
    }
    proof {
        src@.to_multiset_ensures();
        assert(src@.to_multiset() =~= Multiset::<BuckDirectory>::empty());
        assert(out@.to_multiset() =~= v@.to_multiset());
    }
    out
}

/// The listing shown in the current-directory pane: the current directory
/// itself first, then its subdirectories ordered by name.
pub struct UICurrentDirectory {
    pub path: String,
    pub sub_directories: Vec<BuckDirectory>,
}

impl UICurrentDirectory {
    /// Build the listing from the current directory and its
    /// subdirectories (fresh entries, scanned by the embedder): the
    /// current directory leads, the rest follow sorted by name.
    pub fn new(
        current_path: String,
        current_has_buck_file: bool,
        subdirs: Vec<BuckDirectory>,
    ) -> (r: UICurrentDirectory)
        ensures
            r.path@ == current_path@,
            r.sub_directories@.len() == subdirs@.len() + 1,
            r.sub_directories@[0].path@ == current_path@,
            r.sub_directories@[0].has_buck_file == current_has_buck_file,
            r.sub_directories@[0].targets@.len() == 0,
            !r.sub_directories@[0].targets_loaded,
            !r.sub_directories@[0].targets_loading,
            dirs_sorted(r.sub_directories@.subrange(1, r.sub_directories@.len() as int)),
            r.sub_directories@.subrange(1, r.sub_directories@.len() as int).to_multiset()
                == subdirs@.to_multiset(),
    {
        let sorted = sort_directories(subdirs);
        let current = BuckDirectory {
            path: current_path.clone(),
            targets: Vec::new(),
            has_buck_file: current_has_buck_file,
            targets_loaded: false,
            targets_loading: false,
        };
        let mut subs: Vec<BuckDirectory> = Vec::new();
        subs.push(current);
        let mut sorted = sorted;
        let ghost sorted0 = sorted@;
        subs.append(&mut sorted);
        proof {
            assert(subs@.subrange(1, subs@.len() as int) =~= sorted0);
        }
        UICurrentDirectory { path: current_path, sub_directories: subs }
    }

    /// The position of the entry for `dir`, if one is listed.
    pub(crate) fn index_of(&self, dir: &String) -> (r: Option<usize>)
        ensures
            match r {
                Some(i) => dir_first_match(self.sub_directories@, dir@, i as int),
                None => !dir_has(self.sub_directories@, dir@),
            },
    {
        let mut i: usize = 0;
        while i < self.sub_directories.len()
            invariant
                0 <= i <= self.sub_directories@.len(),
                forall|k: int|
                    0 <= k < i ==> (#[trigger] self.sub_directories@[k]).path@ != dir@,
            decreases self.sub_directories@.len() - i,
        {
            if self.sub_directories[i].path == *dir {
                return Some(i);
            }
            i = i + 1;
        }
        None
    }

    /// The path listed after `dir`, wrapping to the top.
    pub fn select_next_directory<'a>(&'a self, dir: &String) -> (r: Option<&'a String>)
        ensures
            match r {
                Some(p) => exists|i: int|
                    #[trigger] dir_first_match(self.sub_directories@, dir@, i) && p@ == (
                    if i + 1 < self.sub_directories@.len() {
                        self.sub_directories@[i + 1].path@
                    } else {
                        self.sub_directories@[0].path@
                    }),
                None => !dir_has(self.sub_directories@, dir@),
            },
    {
        match self.index_of(dir) {
            Some(i) => {
                let n = self.sub_directories.len();
                let next = if i + 1 < n {
                    i + 1
                } else {
                    0
                };
                Some(&self.sub_directories[next].path)
            },
            None => None,
        }
    }

    /// The path listed before `dir`, wrapping to the bottom.
    pub fn select_prev_directory<'a>(&'a self, dir: &String) -> (r: Option<&'a String>)
        ensures
            match r {
                Some(p) => exists|i: int|
                    #[trigger] dir_first_match(self.sub_directories@, dir@, i) && p@ == (
                    if i > 0 {
                        self.sub_directories@[i - 1].path@
                    } else {
                        self.sub_directories@[self.sub_directories@.len() - 1].path@
                    }),
                None => !dir_has(self.sub_directories@, dir@),
            },
    {
        match self.index_of(dir) {
            Some(i) => {
                let prev = if i > 0 {
                    i - 1
                } else {
                    self.sub_directories.len() - 1
                };
                Some(&self.sub_directories[prev].path)
            },
            None => None,
        }
    }

    /// The listed entry for `dir`, if any.
    pub fn get_directory<'a>(&'a self, dir: &String) -> (r: Option<&'a BuckDirectory>)
        ensures
            match r {
                Some(d) => exists|i: int|
                    #[trigger] dir_first_match(self.sub_directories@, dir@, i) && *d
                        == self.sub_directories@[i],
                None => !dir_has(self.sub_directories@, dir@),
            },
    {
        match self.index_of(dir) {
            Some(i) => Some(&self.sub_directories[i]),
            None => None,
        }
    }
}

/// The error taxonomy of the core.
#[derive(Debug, Clone, Copy, PartialEq, Eq, Structural)]
pub enum CoreError {
    /// The project path handed to `BuckProject::new` does not exist;
    /// startup-fatal.
    PathNotFound,
    /// The build tool exited non-zero, or could not be spawned.
    ExternalCommandFailure,
    /// The build tool's output could not be parsed.
    ParseFailure,
}

/// An active directory-load request: its key, its generation, and the
/// token shared with the worker executing it.
#[derive(Debug)]
pub struct ActiveLoadRequest {
    pub dir_path: String,
    pub generation: u64,
    pub token: CancellationToken,
}

/// An active detail-load request.
#[derive(Debug)]
pub struct ActiveDetailRequest {
    pub dir_path: String,
    pub target_index: usize,
    pub generation: u64,
    pub token: CancellationToken,
}

/// A directory-load order for the embedder's worker: run the build tool's
/// target listing in `path`, racing it against `token`, and send back a
/// `DirLoadResult` carrying the same `generation` — unless the token was
/// signalled, in which case nothing is sent.
#[derive(Debug)]
pub struct DirLoadRequestMsg {
    pub path: String,
    pub generation: u64,
    pub token: CancellationToken,
}

/// A detail-load order for the embedder's worker, under the same protocol
/// as `DirLoadRequestMsg`.
#[derive(Debug)]
pub struct DetailLoadRequestMsg {
    pub path: String,
    pub target_index: usize,
    pub target_label: String,
    pub generation: u64,
    pub token: CancellationToken,
}

/// How a directory load ended.
#[derive(Debug)]
pub enum LoadOutcome {
    Loaded(Vec<BuckTarget>),
    Failed(CoreError),
}

/// How a detail load ended.
#[derive(Debug)]
pub enum DetailOutcome {
    Loaded(TargetDetails),
    Failed(CoreError),
}

/// A completed directory load, echoing the request's generation.
#[derive(Debug)]
pub struct DirLoadResult {
    pub path: String,
    pub generation: u64,
    pub outcome: LoadOutcome,
}

/// A completed detail load, echoing the request's generation.
#[derive(Debug)]
pub struct DetailLoadResult {
    pub path: String,
    pub target_index: usize,
    pub generation: u64,
    pub outcome: DetailOutcome,
}

/// The in-memory project state and the single-flight load coordinator.
pub struct BuckProject {
    pub root_path: String,
    pub current_path: String,
    /// One entry per distinct directory path.
    pub directories: Vec<BuckDirectory>,
    pub selected_directory: String,
    pub selected_target: usize,
    pub search_query: String,
    /// What the targets panel shows for the selected directory.
    pub filtered_targets: Vec<BuckTarget>,
    /// Cell name to cell path.
    pub cells: Vec<(String, String)>,
    /// Directory-load orders waiting for the embedder's worker.
    pub loader_outbox: Vec<DirLoadRequestMsg>,
    /// Detail-load orders waiting for the embedder's worker.
    pub detail_outbox: Vec<DetailLoadRequestMsg>,
    pub active_load_request: Option<ActiveLoadRequest>,
    pub active_detail_request: Option<ActiveDetailRequest>,
    /// The generation the next request will get; generations are never
    /// reused.
    pub next_generation: u64,
    /// The generations whose tokens this coordinator has signalled.
    pub cancelled: Ghost<Set<u64>>,
}

/// Directory paths are unique in the index.
pub open spec fn dirs_unique(s: Seq<BuckDirectory>) -> bool {
    forall|i: int, j: int|
        0 <= i < j < s.len() ==> (#[trigger] s[i]).path@ != (#[trigger] s[j]).path@
}

impl BuckProject {
    /// The coordinator's invariant: directory paths are unique,
    /// generations of active requests are live (allocated, not
    /// cancelled, and distinct), and cancelled generations were
    /// allocated.
    pub open spec fn wf(&self) -> bool {
        &&& dirs_unique(self.directories@)
        &&& (match self.active_load_request {
            Some(a) => a.generation < self.next_generation && !self.cancelled@.contains(
                a.generation,
            ),
            None => true,
        })
        &&& (match self.active_detail_request {
            Some(a) => a.generation < self.next_generation && !self.cancelled@.contains(
                a.generation,
            ),
            None => true,
        })
        &&& (match (self.active_load_request, self.active_detail_request) {
            (Some(a), Some(b)) => a.generation != b.generation,
            _ => true,
        })
        &&& (forall|g: u64| self.cancelled@.contains(g) ==> g < self.next_generation)
    }

    /// Open a project rooted at `root_path`.  The embedder says whether
    /// the path exists; a missing path is startup-fatal.
    pub fn new(root_path: String, root_exists: bool) -> (r: Result<BuckProject, CoreError>)
        ensures
            !root_exists ==> r == Result::<BuckProject, CoreError>::Err(CoreError::PathNotFound),
            root_exists ==> (match r {
                Ok(p) => {
                    &&& p.wf()
                    &&& p.root_path@ == root_path@
                    &&& p.current_path@ == root_path@
                    &&& p.selected_directory@ == root_path@
                    &&& p.directories@.len() == 0
                    &&& p.selected_target == 0
                    &&& p.search_query@.len() == 0
                    &&& p.filtered_targets@.len() == 0
                    &&& p.cells@.len() == 0
                    &&& p.loader_outbox@.len() == 0
                    &&& p.detail_outbox@.len() == 0
                    &&& p.active_load_request is None
                    &&& p.active_detail_request is None
                    &&& p.next_generation == 0
                    &&& p.cancelled@ == Set::<u64>::empty()
                },
                Err(_) => false,
            }),
    {
        if !root_exists {
            return Err(CoreError::PathNotFound);
        }
        let current_path = root_path.clone();
        let selected_directory = root_path.clone();
        Ok(
            BuckProject {
                root_path,
                current_path,
                directories: Vec::new(),
                selected_directory,
                selected_target: 0,
                search_query: String::new(),
                filtered_targets: Vec::new(),
                cells: Vec::new(),
                loader_outbox: Vec::new(),
                detail_outbox: Vec::new(),
                active_load_request: None,
                active_detail_request: None,
                next_generation: 0,
                cancelled: Ghost(Set::empty()),
            },
        )
    }

    /// The position of the directory with path `dir`, if indexed.
    fn find_dir_index(&self, dir: &String) -> (r: Option<usize>)
        ensures
            match r {
                Some(i) => dir_first_match(self.directories@, dir@, i as int),
                None => !dir_has(self.directories@, dir@),
            },
    {
        let mut i: usize = 0;
        while i < self.directories.len()
            invariant
                0 <= i <= self.directories@.len(),
                forall|k: int| 0 <= k < i ==> (#[trigger] self.directories@[k]).path@ != dir@,
            decreases self.directories@.len() - i,
        {
            if self.directories[i].path == *dir {
                return Some(i);
            }
            i = i + 1;
        }
        None
    }

    /// Index a directory if it is not indexed yet; an indexed path is
    /// never duplicated.
    pub fn find_or_add_directory(&mut self, path: &String, has_buck_file: bool)
        requires
            old(self).wf(),
        ensures
            final(self).wf(),
            dir_has(old(self).directories@, path@) ==> *final(self) == *old(self),
            !dir_has(old(self).directories@, path@) ==> *final(self) == (BuckProject {
                directories: final(self).directories,
                ..*old(self)
            }) && final(self).directories@.len() == old(self).directories@.len() + 1 && final(self).directories@.subrange(0, old(self).directories@.len() as int) == old(self).directories@ && ({
                let added = final(self).directories@.last();
                added.path@ == path@ && added.has_buck_file == has_buck_file && added.targets@.len()
                    == 0 && !added.targets_loaded && !added.targets_loading
            }),
    {
        match self.find_dir_index(path) {
            Some(_) => {},
            None => {
                let entry = BuckDirectory {
                    path: path.clone(),
                    targets: Vec::new(),
                    has_buck_file,
                    targets_loaded: false,
                    targets_loading: false,
                };
                let ghost dirs0 = self.directories@;
                self.directories.push(entry);
                proof {
                    assert forall|i: int, j: int|
                        0 <= i < j < self.directories@.len() implies (
                    #[trigger] self.directories@[i]).path@ != (
                    #[trigger] self.directories@[j]).path@ by {
                        if j < dirs0.len() {
                            assert(self.directories@[i] == dirs0[i]);
                            assert(self.directories@[j] == dirs0[j]);
                        } else {
                            assert(self.directories@[i] == dirs0[i]);
                            assert(self.directories@[j].path@ == path@);
                        }
                    }
                }
            },
        }
    }
}

/// The navigation and display state that a load request leaves alone.
pub open spec fn nav_state_unchanged(pre: BuckProject, post: BuckProject) -> bool {
    &&& post.root_path == pre.root_path
    &&& post.current_path == pre.current_path
    &&& post.selected_directory == pre.selected_directory
    &&& post.selected_target == pre.selected_target
    &&& post.search_query == pre.search_query
    &&& post.filtered_targets == pre.filtered_targets
    &&& post.cells == pre.cells
}

/// The entity addressed by a directory-load request is already loaded,
/// already loading, or has no manifest: the request must be a no-op.
pub open spec fn dir_request_skipped(dirs: Seq<BuckDirectory>, dir: Seq<char>) -> bool {
    exists|j: int|
        #[trigger] dir_first_match(dirs, dir, j) && (dirs[j].targets_loaded
            || dirs[j].targets_loading || !dirs[j].has_buck_file)
}

/// The exact effect of a directory-load request that goes through: the
/// previous request's generation (if any) joins the cancelled set, the
/// addressed directory is marked loading, a fresh generation becomes the
/// active request, and one order joins the loader outbox.  Nothing else
/// changes.
pub open spec fn dir_request_proceeded(pre: BuckProject, post: BuckProject, dir: Seq<char>) -> bool {
    &&& exists|j: int|
        #[trigger] dir_first_match(pre.directories@, dir, j) && post.directories@
            == pre.directories@.update(
            j,
            BuckDirectory { targets_loading: true, ..pre.directories@[j] },
        )
    &&& (match post.active_load_request {
        Some(a) => a.dir_path@ == dir && a.generation == pre.next_generation,
        None => false,
    })
    &&& post.cancelled@ == (match pre.active_load_request {
        Some(p) => pre.cancelled@.insert(p.generation),
        None => pre.cancelled@,
    })
    &&& post.next_generation == pre.next_generation + 1
    &&& post.loader_outbox@.len() == pre.loader_outbox@.len() + 1
    &&& post.loader_outbox@.subrange(0, pre.loader_outbox@.len() as int) == pre.loader_outbox@
    &&& post.loader_outbox@.last().path@ == dir
    &&& post.loader_outbox@.last().generation == pre.next_generation
    &&& post.active_detail_request == pre.active_detail_request
    &&& post.detail_outbox@ == pre.detail_outbox@
    &&& nav_state_unchanged(pre, post)
}

/// The exact effect of a detail-load request: nothing at all when the
/// index is out of range or the details are already loaded; otherwise the
/// previous detail request's generation joins the cancelled set, a fresh
/// generation becomes the active detail request, and one order joins the
/// detail outbox.
pub open spec fn detail_request_stepped(
    pre: BuckProject,
    post: BuckProject,
    path: Seq<char>,
    index: int,
) -> bool {
    exists|j: int|
        #[trigger] dir_first_match(pre.directories@, path, j) && ({
            let dirs = pre.directories@;
            if index >= dirs[j].targets@.len() {
                post == pre
            } else if dirs[j].targets@[index].details_loaded {
                post == pre
            } else {
                &&& post.directories@ == dirs
                &&& (match post.active_detail_request {
                    Some(a) => a.dir_path@ == path && a.target_index == index && a.generation
                        == pre.next_generation,
                    None => false,
                })
                &&& post.cancelled@ == (match pre.active_detail_request {
                    Some(p) => pre.cancelled@.insert(p.generation),
                    None => pre.cancelled@,
                })
                &&& post.next_generation == pre.next_generation + 1
                &&& post.detail_outbox@.len() == pre.detail_outbox@.len() + 1
                &&& post.detail_outbox@.subrange(0, pre.detail_outbox@.len() as int)
                    == pre.detail_outbox@
                &&& post.detail_outbox@.last().path@ == path
                &&& post.detail_outbox@.last().target_index == index
                &&& post.detail_outbox@.last().target_label@ == dirs[j].targets@[index].name@
                &&& post.detail_outbox@.last().generation == pre.next_generation
                &&& post.active_load_request == pre.active_load_request
                &&& post.loader_outbox@ == pre.loader_outbox@
                &&& nav_state_unchanged(pre, post)
            }
        })
}

impl BuckProject {
    /// Ask for the targets of `dir` to be loaded.  A directory that is
    /// already loaded, already loading, or without a manifest is left
    /// untouched: no token is created and no state changes.  Otherwise any
    /// active directory-load request is cancelled first — last request
    /// wins — and a fresh request replaces it.
    pub fn request_targets_for_directory(&mut self, dir: String)
        requires
            old(self).wf(),
            dir_has(old(self).directories@, dir@),
            old(self).next_generation < u64::MAX,
        ensures
            final(self).wf(),
            dir_request_skipped(old(self).directories@, dir@) ==> *final(self) == *old(self),
            !dir_request_skipped(old(self).directories@, dir@) ==> dir_request_proceeded(
                *old(self),
                *final(self),
                dir@,
            ),
            (!dir_request_skipped(old(self).directories@, dir@) && old(self).active_load_request is Some) ==> final(self).cancelled@.contains(
                old(self).active_load_request->Some_0.generation,
            ),
    {
        let j = match self.find_dir_index(&dir) {
            Some(j) => j,
            None => unreached(),
        };
        if self.directories[j].targets_loaded || self.directories[j].targets_loading
            || !self.directories[j].has_buck_file {
            return ;
        }
        let prev_generation: Option<u64> = match &self.active_load_request {
            Some(prev) => {
                crate::cancel::token_cancel(&prev.token);
                Some(prev.generation)
            },
            None => None,
        };
        self.cancelled = Ghost(
            match prev_generation {
                Some(g) => self.cancelled@.insert(g),
                None => self.cancelled@,
            },
        );
        let generation = self.next_generation;
        self.next_generation = generation + 1;
        let token = crate::cancel::token_new();
        let msg_token = crate::cancel::token_clone(&token);
        self.active_load_request = Some(
            ActiveLoadRequest { dir_path: dir.clone(), generation, token },
        );
        let ghost dirs0 = self.directories@;
        let dref = vstd::std_specs::vec::vec_index_mut(&mut self.directories, j);
        dref.targets_loading = true;
        self.loader_outbox.push(DirLoadRequestMsg { path: dir, generation, token: msg_token });
        proof {
            assert(dir_first_match(old(self).directories@, dir@, j as int));
            assert(self.loader_outbox@.subrange(0, old(self).loader_outbox@.len() as int)
                =~= old(self).loader_outbox@);
            assert(self.directories@ == dirs0.update(
                j as int,
                BuckDirectory { targets_loading: true, ..dirs0[j as int] },
            ));
            assert forall|a: int, b: int|
                0 <= a < b < self.directories@.len() implies (
            #[trigger] self.directories@[a]).path@ != (#[trigger] self.directories@[b]).path@ by {
                assert(self.directories@[a].path@ == dirs0[a].path@);
                assert(self.directories@[b].path@ == dirs0[b].path@);
            }
        }
    }

    /// Ask for the details of the target at `target_index` under
    /// `dir_path`.  An index out of range, or a target whose details are
    /// already loaded, leaves everything untouched.  Otherwise any active
    /// detail-load request is cancelled first and a fresh request replaces
    /// it.
    pub fn request_target_details(&mut self, dir_path: String, target_index: usize)
        requires
            old(self).wf(),
            dir_has(old(self).directories@, dir_path@),
            old(self).next_generation < u64::MAX,
        ensures
            final(self).wf(),
            detail_request_stepped(*old(self), *final(self), dir_path@, target_index as int),
    {
        let j = match self.find_dir_index(&dir_path) {
            Some(j) => j,
            None => unreached(),
        };
        if target_index >= self.directories[j].targets.len() {
            proof {
                assert(dir_first_match(self.directories@, dir_path@, j as int));
            }
            return ;
        }
        if self.directories[j].targets[target_index].details_loaded {
            proof {
                assert(dir_first_match(self.directories@, dir_path@, j as int));
            }
            return ;
        }
        let target_label = self.directories[j].targets[target_index].name.clone();
        let prev_generation: Option<u64> = match &self.active_detail_request {
            Some(prev) => {
                crate::cancel::token_cancel(&prev.token);
                Some(prev.generation)
            },
            None => None,
        };
        self.cancelled = Ghost(
            match prev_generation {
                Some(g) => self.cancelled@.insert(g),
                None => self.cancelled@,
            },
        );
        let generation = self.next_generation;
        self.next_generation = generation + 1;
        let token = crate::cancel::token_new();
        let msg_token = crate::cancel::token_clone(&token);
        self.active_detail_request = Some(
            ActiveDetailRequest {
                dir_path: dir_path.clone(),
                target_index,
                generation,
                token,
            },
        );
        self.detail_outbox.push(
            DetailLoadRequestMsg {
                path: dir_path,
                target_index,
                target_label,
                generation,
                token: msg_token,
            },
        );
        proof {
            assert(dir_first_match(old(self).directories@, dir_path@, j as int));
            assert(self.detail_outbox@.subrange(0, old(self).detail_outbox@.len() as int)
                =~= old(self).detail_outbox@);
        }
    }

    /// Hand the pending directory-load orders to the worker, oldest first,
    /// leaving the outbox empty.
    pub fn take_loader_requests(&mut self) -> (r: Vec<DirLoadRequestMsg>)
        ensures
            r@ == old(self).loader_outbox@,
            final(self).loader_outbox@ == Seq::<DirLoadRequestMsg>::empty(),
            *final(self) == (BuckProject { loader_outbox: final(self).loader_outbox, ..*old(self) }),
    {
        let r = self.loader_outbox.split_off(0);
        r
    }

    /// Hand the pending detail-load orders to the worker, oldest first,
    /// leaving the outbox empty.
    pub fn take_detail_requests(&mut self) -> (r: Vec<DetailLoadRequestMsg>)
        ensures
            r@ == old(self).detail_outbox@,
            final(self).detail_outbox@ == Seq::<DetailLoadRequestMsg>::empty(),
            *final(self) == (BuckProject { detail_outbox: final(self).detail_outbox, ..*old(self) }),
    {
        let r = self.detail_outbox.split_off(0);
        r
    }
}

/// Whether a target matches the search query: the query occurs, after
/// both sides are lowercased, in the target's display line or in its rule
/// type.
pub open spec fn target_matches_query(t: TargetModel, q: Seq<char>) -> bool {
    ||| seq_contains(lower_of(display_title_spec(t)), lower_of(q))
    ||| seq_contains(lower_of(t.rule_type), lower_of(q))
}

/// The targets the panel shows: all of them for an empty query, and the
/// matching ones, in order, otherwise.
pub open spec fn filtered_spec(ts: Seq<TargetModel>, q: Seq<char>) -> Seq<TargetModel>
    decreases ts.len(),
{
    if q.len() == 0 {
        ts
    } else if ts.len() == 0 {
        ts
    } else {
        let rest = filtered_spec(ts.drop_last(), q);
        if target_matches_query(ts.last(), q) {
            rest.push(ts.last())
        } else {
            rest
        }
    }
}

/// `k` is the first position in `ts` of the target with this name and
/// owning path.
pub open spec fn target_pos_first_match(
    ts: Seq<TargetModel>,
    name: Seq<char>,
    path: Seq<char>,
    k: int,
) -> bool {
    &&& 0 <= k < ts.len()
    &&& ts[k].name == name && ts[k].path == path
    &&& forall|i: int| 0 <= i < k ==> !((#[trigger] ts[i]).name == name && ts[i].path == path)
}

fn matches_query(t: &BuckTarget, query_lower: &String) -> (r: bool)
    ensures
        r == (seq_contains(lower_of(display_title_spec(t@)), query_lower@) || seq_contains(
            lower_of(t@.rule_type),
            query_lower@,
        )),
{
    let title = t.display_title();
    let title_lower = to_lower(title.as_str());
    if str_contains(title_lower.as_str(), query_lower.as_str()) {
        return true;
    }
    let rt_lower = to_lower(t.rule_type.as_str());
    str_contains(rt_lower.as_str(), query_lower.as_str())
}

/// The filtered view of `ts` under `query`, as `filtered_spec` describes.
fn compute_filtered(ts: &Vec<BuckTarget>, query: &String) -> (r: Vec<BuckTarget>)
    ensures
        r.deep_view() == filtered_spec(ts.deep_view(), query@),
{
    if query.as_str().unicode_len() == 0 {
        let r = clone_targets(ts);
        return r;
    }
    let query_lower = to_lower(query.as_str());
    let mut r: Vec<BuckTarget> = Vec::new();
    proof {
        assert(ts.deep_view().subrange(0, 0) =~= Seq::<TargetModel>::empty());
        assert(r.deep_view() =~~= filtered_spec(ts.deep_view().subrange(0, 0), query@));
    }
    let mut i: usize = 0;
    while i < ts.len()
        invariant
            0 <= i <= ts@.len(),
            query@.len() > 0,
            query_lower@ == lower_of(query@),
            r.deep_view() == filtered_spec(ts.deep_view().subrange(0, i as int), query@),
        decreases ts@.len() - i,
    {
        let ghost pre = ts.deep_view().subrange(0, i as int);
        let ghost cur = ts.deep_view().subrange(0, i + 1);
        proof {
            assert(cur.drop_last() =~= pre);
            assert(cur.last() == ts@[i as int]@);
        }
        if matches_query(&ts[i], &query_lower) {
            r.push(ts[i].clone());
            proof {
                assert(r.deep_view() =~~= filtered_spec(cur, query@));
            }
        } else {
            proof {
                assert(r.deep_view() =~~= filtered_spec(cur, query@));
            }
        }
        i = i + 1;
    }
    proof {
        assert(ts.deep_view().subrange(0, ts@.len() as int) =~= ts.deep_view());
    }
    r
}

/// The exact effect of recomputing the filtered target list from the
/// selected directory and the query: with `reset` the selection returns to
/// the top, without it the selection is clamped to the shortened list.
/// Nothing else changes.
pub open spec fn filtered_applied(pre: BuckProject, post: BuckProject, reset: bool) -> bool {
    &&& ({
        if dir_has(pre.directories@, pre.selected_directory@) {
            exists|j: int|
                #[trigger] dir_first_match(pre.directories@, pre.selected_directory@, j)
                    && post.filtered_targets.deep_view() == filtered_spec(
                    pre.directories@[j].targets.deep_view(),
                    pre.search_query@,
                )
        } else {
            post.filtered_targets.deep_view() == Seq::<TargetModel>::empty()
        }
    })
    &&& post.selected_target == (if reset {
        0
    } else if pre.selected_target >= post.filtered_targets@.len()
        && post.filtered_targets@.len() > 0 {
        (post.filtered_targets@.len() - 1) as int
    } else {
        pre.selected_target as int
    })
    &&& post.directories@ == pre.directories@
    &&& post.root_path == pre.root_path
    &&& post.current_path == pre.current_path
    &&& post.selected_directory == pre.selected_directory
    &&& post.search_query == pre.search_query
    &&& post.cells@ == pre.cells@
    &&& post.active_load_request == pre.active_load_request
    &&& post.active_detail_request == pre.active_detail_request
    &&& post.loader_outbox@ == pre.loader_outbox@
    &&& post.detail_outbox@ == pre.detail_outbox@
    &&& post.next_generation == pre.next_generation
    &&& post.cancelled@ == pre.cancelled@
}

/// The exact effect of asking for the selected target's details: if a
/// target is selected, its directory is indexed, and the target is found
/// there, this is a detail-load request for that position; otherwise
/// nothing changes.
pub open spec fn details_requested_for_selected(pre: BuckProject, post: BuckProject) -> bool {
    if pre.selected_target >= pre.filtered_targets@.len() {
        post == pre
    } else {
        let sel = pre.filtered_targets@[pre.selected_target as int]@;
        if !dir_has(pre.directories@, pre.selected_directory@) {
            post == pre
        } else {
            exists|j: int|
                #[trigger] dir_first_match(pre.directories@, pre.selected_directory@, j) && ({
                    let ts = pre.directories@[j].targets.deep_view();
                    if exists|k: int| target_pos_first_match(ts, sel.name, sel.path, k) {
                        exists|k: int|
                            #[trigger] target_pos_first_match(ts, sel.name, sel.path, k)
                                && detail_request_stepped(pre, post, pre.selected_directory@, k)
                    } else {
                        post == pre
                    }
                })
        }
    }
}

/// The first position in `ts` of the target with this name and path.
fn find_target_pos(ts: &Vec<BuckTarget>, name: &String, path: &String) -> (r: Option<usize>)
    ensures
        match r {
            Some(k) => target_pos_first_match(ts.deep_view(), name@, path@, k as int),
            None => !(exists|k: int| target_pos_first_match(ts.deep_view(), name@, path@, k)),
        },
{
    let mut k: usize = 0;
    while k < ts.len()
        invariant
            0 <= k <= ts@.len(),
            forall|i: int|
                0 <= i < k ==> !((#[trigger] ts.deep_view()[i]).name == name@
                    && ts.deep_view()[i].path == path@),
        decreases ts@.len() - k,
    {
        if ts[k].name == *name && ts[k].path == *path {
            return Some(k);
        }
        k = k + 1;
    }
    None
}

impl BuckProject {
    /// Recompute the filtered target list for the selected directory,
    /// returning the selection to the top of the list.
    pub fn update_filtered_targets(&mut self)
        requires
            old(self).wf(),
        ensures
            final(self).wf(),
            filtered_applied(*old(self), *final(self), true),
    {
        self.update_filtered_targets_with_reset(true);
    }

    fn update_filtered_targets_with_reset(&mut self, reset_selection: bool)
        requires
            old(self).wf(),
        ensures
            final(self).wf(),
            filtered_applied(*old(self), *final(self), reset_selection),
    {
        let new_filtered = match self.find_dir_index(&self.selected_directory) {
            Some(j) => compute_filtered(&self.directories[j].targets, &self.search_query),
            None => Vec::new(),
        };
        self.filtered_targets = new_filtered;
        if reset_selection {
            self.selected_target = 0;
        } else {
            if self.selected_target >= self.filtered_targets.len() && self.filtered_targets.len()
                > 0 {
                self.selected_target = self.filtered_targets.len() - 1;
            }
        }
        proof {
            if !dir_has(old(self).directories@, old(self).selected_directory@) {
                assert(self.filtered_targets.deep_view() =~~= Seq::<TargetModel>::empty());
            }
        }
    }

    /// The indexed entry for the selected directory, if any.
    pub fn get_selected_directory<'a>(&'a self) -> (r: Option<&'a BuckDirectory>)
        ensures
            match r {
                Some(d) => exists|i: int|
                    #[trigger] dir_first_match(self.directories@, self.selected_directory@, i) && *d
                        == self.directories@[i],
                None => !dir_has(self.directories@, self.selected_directory@),
            },
    {
        match self.find_dir_index(&self.selected_directory) {
            Some(i) => Some(&self.directories[i]),
            None => None,
        }
    }

    /// The target the panel's selection rests on, if the list is not
    /// empty.
    pub fn get_selected_target<'a>(&'a self) -> (r: Option<&'a BuckTarget>)
        ensures
            match r {
                Some(t) => self.selected_target < self.filtered_targets@.len() && *t
                    == self.filtered_targets@[self.selected_target as int],
                None => self.selected_target >= self.filtered_targets@.len(),
            },
    {
        if self.selected_target < self.filtered_targets.len() {
            Some(&self.filtered_targets[self.selected_target])
        } else {
            None
        }
    }

    /// Replace the search query and recompute the filtered list, with the
    /// selection back at the top.
    pub fn set_search_query(&mut self, query: String)
        requires
            old(self).wf(),
        ensures
            final(self).wf(),
            final(self).search_query == query,
            filtered_applied(
                BuckProject { search_query: query, ..*old(self) },
                *final(self),
                true,
            ),
    {
        self.search_query = query;
        self.update_filtered_targets();
    }

    /// Ask for the details of the target the selection rests on, if its
    /// position in the selected directory can be found.
    pub fn request_target_details_for_selected(&mut self)
        requires
            old(self).wf(),
            old(self).next_generation < u64::MAX,
        ensures
            final(self).wf(),
            details_requested_for_selected(*old(self), *final(self)),
    {
        if self.selected_target >= self.filtered_targets.len() {
            return ;
        }
        let sel_name = self.filtered_targets[self.selected_target].name.clone();
        let sel_path = self.filtered_targets[self.selected_target].path.clone();
        let j = match self.find_dir_index(&self.selected_directory) {
            Some(j) => j,
            None => {
                return ;
            },
        };
        match find_target_pos(&self.directories[j].targets, &sel_name, &sel_path) {
            Some(k) => {
                proof {
                    assert(dir_first_match(self.directories@, self.selected_directory@, j as int));
                }
                let p = self.selected_directory.clone();
                self.request_target_details(p, k);
                proof {
                    let pre = *old(self);
                    let sel = pre.filtered_targets@[pre.selected_target as int]@;
                    let ts = pre.directories@[j as int].targets.deep_view();
                    assert(target_pos_first_match(ts, sel.name, sel.path, k as int));
                    assert(detail_request_stepped(pre, *self, pre.selected_directory@, k as int));
                }
            },
            None => {
                proof {
                    assert(dir_first_match(self.directories@, self.selected_directory@, j as int));
                }
                return ;
            },
        }
    }

    /// Move the selection down one target, wrapping, and ask for the new
    /// selection's details.
    pub fn next_target(&mut self)
        requires
            old(self).wf(),
            old(self).next_generation < u64::MAX,
        ensures
            final(self).wf(),
            old(self).filtered_targets@.len() == 0 ==> *final(self) == *old(self),
            old(self).filtered_targets@.len() > 0 ==> ({
                let moved = if old(self).selected_target < old(self).filtered_targets@.len() - 1 {
                    old(self).selected_target + 1
                } else {
                    0
                };
                final(self).selected_target == moved && details_requested_for_selected(
                    BuckProject { selected_target: moved as usize, ..*old(self) },
                    *final(self),
                )
            }),
    {
        if self.filtered_targets.len() == 0 {
            return ;
        }
        let len = self.filtered_targets.len();
        self.selected_target = if self.selected_target < len - 1 {
            self.selected_target + 1
        } else {
            0
        };
        self.request_target_details_for_selected();
    }

    /// Move the selection up one target, wrapping, and ask for the new
    /// selection's details.
    pub fn prev_target(&mut self)
        requires
            old(self).wf(),
            old(self).next_generation < u64::MAX,
        ensures
            final(self).wf(),
            old(self).filtered_targets@.len() == 0 ==> *final(self) == *old(self),
            old(self).filtered_targets@.len() > 0 ==> ({
                let moved = if old(self).selected_target == 0 {
                    old(self).filtered_targets@.len() - 1
                } else {
                    old(self).selected_target - 1
                };
                final(self).selected_target == moved && details_requested_for_selected(
                    BuckProject { selected_target: moved as usize, ..*old(self) },
                    *final(self),
                )
            }),
    {
        if self.filtered_targets.len() == 0 {
            return ;
        }
        let len = self.filtered_targets.len();
        self.selected_target = if self.selected_target == 0 {
            len - 1
        } else {
            self.selected_target - 1
        };
        self.request_target_details_for_selected();
    }
}

/// The targets a directory shows after a load result: the listed targets
/// on success, none on failure.
pub open spec fn load_outcome_targets(o: LoadOutcome) -> Seq<TargetModel> {
    match o {
        LoadOutcome::Loaded(ts) => ts.deep_view(),
        LoadOutcome::Failed(_) => Seq::<TargetModel>::empty(),
    }
}

/// The detail-request coordination state is untouched.
pub open spec fn detail_coord_unchanged(pre: BuckProject, post: BuckProject) -> bool {
    &&& post.active_detail_request == pre.active_detail_request
    &&& post.cancelled@ == pre.cancelled@
    &&& post.next_generation == pre.next_generation
    &&& post.detail_outbox@ == pre.detail_outbox@
}

/// A detail-load request for position `k` under `path` was issued on top
/// of `pre`'s coordination state: the previous detail request's
/// generation, if any, joins the cancelled set, a fresh generation becomes
/// the active detail request, and one matching order joins the detail
/// outbox.
pub open spec fn detail_chain_requested(
    pre: BuckProject,
    post: BuckProject,
    path: Seq<char>,
    k: int,
    label: Seq<char>,
) -> bool {
    &&& (match post.active_detail_request {
        Some(a) => a.dir_path@ == path && a.target_index == k && a.generation
            == pre.next_generation,
        None => false,
    })
    &&& post.cancelled@ == (match pre.active_detail_request {
        Some(p) => pre.cancelled@.insert(p.generation),
        None => pre.cancelled@,
    })
    &&& post.next_generation == pre.next_generation + 1
    &&& post.detail_outbox@.len() == pre.detail_outbox@.len() + 1
    &&& post.detail_outbox@.subrange(0, pre.detail_outbox@.len() as int) == pre.detail_outbox@
    &&& post.detail_outbox@.last().path@ == path
    &&& post.detail_outbox@.last().target_index == k
    &&& post.detail_outbox@.last().target_label@ == label
    &&& post.detail_outbox@.last().generation == pre.next_generation
}

/// The exact effect of applying one directory-load result: the addressed
/// directory stops loading and becomes loaded with the returned targets
/// (none on failure); the active request slot is cleared when it refers to
/// this key; and if the directory is the selected one, the filtered list
/// is recomputed and a detail load is requested for the new first target.
pub open spec fn dir_result_applied(pre: BuckProject, r: DirLoadResult, post: BuckProject) -> bool {
    exists|j: int|
        #[trigger] dir_first_match(pre.directories@, r.path@, j) && ({
            let d = pre.directories@[j];
            let installed = load_outcome_targets(r.outcome);
            &&& post.directories@.len() == pre.directories@.len()
            &&& (forall|k: int|
                0 <= k < pre.directories@.len() && k != j ==> post.directories@[k]
                    == pre.directories@[k])
            &&& post.directories@[j].path == d.path
            &&& post.directories@[j].has_buck_file == d.has_buck_file
            &&& post.directories@[j].targets_loaded
            &&& !post.directories@[j].targets_loading
            &&& post.directories@[j].targets.deep_view() == installed
            &&& post.active_load_request == (match pre.active_load_request {
                Some(a) => if a.dir_path@ == r.path@ {
                    None
                } else {
                    Some(a)
                },
                None => None::<ActiveLoadRequest>,
            })
            &&& post.loader_outbox@ == pre.loader_outbox@
            &&& post.root_path == pre.root_path
            &&& post.current_path == pre.current_path
            &&& post.selected_directory == pre.selected_directory
            &&& post.search_query == pre.search_query
            &&& post.cells@ == pre.cells@
            &&& (if r.path@ == pre.selected_directory@ {
                let f = filtered_spec(installed, pre.search_query@);
                &&& post.filtered_targets.deep_view() == f
                &&& post.selected_target == 0
                &&& (if f.len() > 0 {
                    let sel = f[0];
                    if exists|k: int| target_pos_first_match(installed, sel.name, sel.path, k) {
                        exists|k: int|
                            #[trigger] target_pos_first_match(installed, sel.name, sel.path, k) && (
                            if installed[k].details_loaded {
                                detail_coord_unchanged(pre, post)
                            } else {
                                detail_chain_requested(pre, post, r.path@, k, installed[k].name)
                            })
                    } else {
                        detail_coord_unchanged(pre, post)
                    }
                } else {
                    detail_coord_unchanged(pre, post)
                })
            } else {
                &&& post.filtered_targets == pre.filtered_targets
                &&& post.selected_target == pre.selected_target
                &&& detail_coord_unchanged(pre, post)
            })
        })
}

/// The exact effect of applying one detail-load result: within range, the
/// addressed target's details are installed (a failure installs the
/// sentinel rule type `error`), the target counts as detail-loaded either
/// way, the active detail slot is cleared when it refers to this key, and
/// the filtered list of the selected directory is refreshed without
/// moving the selection except to clamp it.
pub open spec fn detail_result_applied(
    pre: BuckProject,
    r: DetailLoadResult,
    post: BuckProject,
) -> bool {
    exists|j: int|
        #[trigger] dir_first_match(pre.directories@, r.path@, j) && ({
            let d = pre.directories@[j];
            if r.target_index >= d.targets@.len() {
                post == pre
            } else {
                let t = d.targets@[r.target_index as int]@;
                let new_rt = (match r.outcome {
                    DetailOutcome::Loaded(det) => det.rule_type@,
                    DetailOutcome::Failed(_) => "error"@,
                });
                let new_deps = (match r.outcome {
                    DetailOutcome::Loaded(det) => det.deps.deep_view(),
                    DetailOutcome::Failed(_) => t.deps,
                });
                &&& post.directories@.len() == pre.directories@.len()
                &&& (forall|i: int|
                    0 <= i < pre.directories@.len() && i != j ==> post.directories@[i]
                        == pre.directories@[i])
                &&& post.directories@[j].path == d.path
                &&& post.directories@[j].has_buck_file == d.has_buck_file
                &&& post.directories@[j].targets_loaded == d.targets_loaded
                &&& post.directories@[j].targets_loading == d.targets_loading
                &&& post.directories@[j].targets@.len() == d.targets@.len()
                &&& (forall|i: int|
                    0 <= i < d.targets@.len() && i != r.target_index ==> (
                    #[trigger] post.directories@[j].targets@[i])@ == d.targets@[i]@)
                &&& post.directories@[j].targets@[r.target_index as int]@ == (TargetModel {
                    rule_type: new_rt,
                    deps: new_deps,
                    details_loaded: true,
                    ..t
                })
                &&& post.active_detail_request == (match pre.active_detail_request {
                    Some(a) => if a.dir_path@ == r.path@ && a.target_index == r.target_index {
                        None
                    } else {
                        Some(a)
                    },
                    None => None::<ActiveDetailRequest>,
                })
                &&& post.active_load_request == pre.active_load_request
                &&& post.loader_outbox@ == pre.loader_outbox@
                &&& post.detail_outbox@ == pre.detail_outbox@
                &&& post.next_generation == pre.next_generation
                &&& post.cancelled@ == pre.cancelled@
                &&& post.root_path == pre.root_path
                &&& post.current_path == pre.current_path
                &&& post.selected_directory == pre.selected_directory
                &&& post.search_query == pre.search_query
                &&& post.cells@ == pre.cells@
                &&& (if r.path@ == pre.selected_directory@ {
                    &&& post.filtered_targets.deep_view() == filtered_spec(
                        post.directories@[j].targets.deep_view(),
                        pre.search_query@,
                    )
                    &&& post.selected_target == (if pre.selected_target
                        >= post.filtered_targets@.len() && post.filtered_targets@.len() > 0 {
                        (post.filtered_targets@.len() - 1) as int
                    } else {
                        pre.selected_target as int
                    })
                } else {
                    post.filtered_targets == pre.filtered_targets && post.selected_target
                        == pre.selected_target
                })
            }
        })
}

/// `states` is a chain of project states in which each directory result
/// is applied in order: `states[0]` before anything, `states[i + 1]` the
/// exact effect of applying `results[i]` to `states[i]`.
pub open spec fn dir_results_applied_chain(
    states: Seq<BuckProject>,
    results: Seq<DirLoadResult>,
) -> bool {
    &&& states.len() == results.len() + 1
    &&& forall|i: int|
        0 <= i < results.len() ==> dir_result_applied(
            states[i],
            #[trigger] results[i],
            states[i + 1],
        )
}

/// The same chain form for detail results.
pub open spec fn detail_results_applied_chain(
    states: Seq<BuckProject>,
    results: Seq<DetailLoadResult>,
) -> bool {
    &&& states.len() == results.len() + 1
    &&& forall|i: int|
        0 <= i < results.len() ==> detail_result_applied(
            states[i],
            #[trigger] results[i],
            states[i + 1],
        )
}

impl BuckProject {
    /// Apply one completed directory load, as `dir_result_applied`
    /// describes.
    pub fn apply_dir_result(&mut self, result: DirLoadResult)
        requires
            old(self).wf(),
            dir_has(old(self).directories@, result.path@),
            old(self).next_generation < u64::MAX,
        ensures
            final(self).wf(),
            dir_result_applied(*old(self), result, *final(self)),
            final(self).directories@.len() == old(self).directories@.len(),
            forall|k: int|
                0 <= k < final(self).directories@.len() ==> (
                #[trigger] final(self).directories@[k]).path@ == old(self).directories@[k].path@,
            final(self).next_generation <= old(self).next_generation + 1,
    {
        let DirLoadResult { path, generation: _, outcome } = result;
        let j = match self.find_dir_index(&path) {
            Some(j) => j,
            None => unreached(),
        };
        let clear = match &self.active_load_request {
            Some(a) => a.dir_path == path,
            None => false,
        };
        if clear {
            self.active_load_request = None;
        }
        let installed: Vec<BuckTarget> = match outcome {
            LoadOutcome::Loaded(ts) => ts,
            LoadOutcome::Failed(_) => Vec::new(),
        };
        proof {
            if !(result.outcome is Loaded) {
                assert(installed.deep_view() =~~= load_outcome_targets(result.outcome));
            }
        }
        let is_selected = path == self.selected_directory;
        let ghost dirs0 = self.directories@;
        let dref = vstd::std_specs::vec::vec_index_mut(&mut self.directories, j);
        dref.targets_loading = false;
        dref.targets_loaded = true;
        dref.targets = installed;
        proof {
            assert(dir_first_match(old(self).directories@, result.path@, j as int));
            assert forall|a: int, b: int|
                0 <= a < b < self.directories@.len() implies (
            #[trigger] self.directories@[a]).path@ != (#[trigger] self.directories@[b]).path@ by {
                assert(self.directories@[a].path@ == dirs0[a].path@);
                assert(self.directories@[b].path@ == dirs0[b].path@);
            }
        }
        let ghost mid0 = *self;
        if is_selected {
            proof {
                assert(mid0.directories@[j as int].path@ == result.path@);
                assert(dir_first_match(mid0.directories@, mid0.selected_directory@, j as int));
            }
            self.update_filtered_targets();
            let ghost mid1 = *self;
            proof {
                let jj = choose|jj: int|
                    #[trigger] dir_first_match(mid0.directories@, mid0.selected_directory@, jj)
                        && mid1.filtered_targets.deep_view() == filtered_spec(
                        mid0.directories@[jj].targets.deep_view(),
                        mid0.search_query@,
                    );
                lemma_dir_first_match_unique(
                    mid0.directories@,
                    mid0.selected_directory@,
                    jj,
                    j as int,
                );
                assert(mid1.filtered_targets.deep_view() == filtered_spec(
                    load_outcome_targets(result.outcome),
                    old(self).search_query@,
                ));
            }
            if self.filtered_targets.len() > 0 {
                self.request_target_details_for_selected();
                proof {
                    let post = *self;
                    let installed = load_outcome_targets(result.outcome);
                    let f = filtered_spec(installed, old(self).search_query@);
                    let sel = mid1.filtered_targets@[0]@;
                    assert(sel == f[0]);
                    assert(dir_first_match(mid1.directories@, mid1.selected_directory@, j as int));
                    let jj = choose|jj: int|
                        #[trigger] dir_first_match(
                            mid1.directories@,
                            mid1.selected_directory@,
                            jj,
                        ) && ({
                            let ts = mid1.directories@[jj].targets.deep_view();
                            if exists|k: int| target_pos_first_match(ts, sel.name, sel.path, k) {
                                exists|k: int|
                                    #[trigger] target_pos_first_match(ts, sel.name, sel.path, k)
                                        && detail_request_stepped(
                                        mid1,
                                        post,
                                        mid1.selected_directory@,
                                        k,
                                    )
                            } else {
                                post == mid1
                            }
                        });
                    lemma_dir_first_match_unique(
                        mid1.directories@,
                        mid1.selected_directory@,
                        jj,
                        j as int,
                    );
                    assert(mid1.directories@[j as int].targets.deep_view() == installed);
                }
            }
        }
    }

    /// Apply one completed detail load, as `detail_result_applied`
    /// describes.
    pub fn apply_detail_result(&mut self, result: DetailLoadResult)
        requires
            old(self).wf(),
            dir_has(old(self).directories@, result.path@),
        ensures
            final(self).wf(),
            detail_result_applied(*old(self), result, *final(self)),
            final(self).directories@.len() == old(self).directories@.len(),
            forall|k: int|
                0 <= k < final(self).directories@.len() ==> (
                #[trigger] final(self).directories@[k]).path@ == old(self).directories@[k].path@,
            final(self).next_generation == old(self).next_generation,
    {
        let DetailLoadResult { path, target_index, generation: _, outcome } = result;
        let j = match self.find_dir_index(&path) {
            Some(j) => j,
            None => unreached(),
        };
        if target_index >= self.directories[j].targets.len() {
            proof {
                assert(dir_first_match(self.directories@, result.path@, j as int));
            }
            return ;
        }
        let clear = match &self.active_detail_request {
            Some(a) => a.dir_path == path && a.target_index == target_index,
            None => false,
        };
        if clear {
            self.active_detail_request = None;
        }
        let is_selected = path == self.selected_directory;
        let ghost dirs0 = self.directories@;
        {
            let dref = vstd::std_specs::vec::vec_index_mut(&mut self.directories, j);
            let tref = vstd::std_specs::vec::vec_index_mut(&mut dref.targets, target_index);
            match outcome {
                DetailOutcome::Loaded(details) => {
                    tref.rule_type = details.rule_type;
                    tref.deps = details.deps;
                    tref.details_loaded = true;
                },
                DetailOutcome::Failed(_) => {
                    tref.rule_type = String::from_str("error");
                    tref.details_loaded = true;
                },
            }
        }
        proof {
            reveal_strlit("error");
            assert(dir_first_match(old(self).directories@, result.path@, j as int));
            assert forall|a: int, b: int|
                0 <= a < b < self.directories@.len() implies (
            #[trigger] self.directories@[a]).path@ != (#[trigger] self.directories@[b]).path@ by {
                assert(self.directories@[a].path@ == dirs0[a].path@);
                assert(self.directories@[b].path@ == dirs0[b].path@);
            }
        }
        if is_selected {
            self.update_filtered_targets_with_reset(false);
        }
    }

    /// Drain completed load results into the project state: every
    /// directory result is applied in arrival order, then every detail
    /// result, each step the exact effect its applied-result predicate
    /// describes.  Draining never blocks; results for cancelled requests
    /// never reach this point, because their workers drop them.
    pub fn update_loaded_target_results(
        &mut self,
        dir_results: Vec<DirLoadResult>,
        detail_results: Vec<DetailLoadResult>,
    )
        requires
            old(self).wf(),
            forall|i: int|
                0 <= i < dir_results@.len() ==> dir_has(
                    old(self).directories@,
                    (#[trigger] dir_results@[i]).path@,
                ),
            forall|i: int|
                0 <= i < detail_results@.len() ==> dir_has(
                    old(self).directories@,
                    (#[trigger] detail_results@[i]).path@,
                ),
            old(self).next_generation + dir_results@.len() < u64::MAX,
        ensures
            final(self).wf(),
            final(self).directories@.len() == old(self).directories@.len(),
            forall|k: int|
                0 <= k < final(self).directories@.len() ==> (
                #[trigger] final(self).directories@[k]).path@ == old(self).directories@[k].path@,
            exists|mids: Seq<BuckProject>, mids2: Seq<BuckProject>|
                {
                    &&& #[trigger] dir_results_applied_chain(mids, dir_results@)
                    &&& #[trigger] detail_results_applied_chain(mids2, detail_results@)
                    &&& mids[0] == *old(self)
                    &&& mids2[0] == mids.last()
                    &&& mids2.last() == *final(self)
                },
            (dir_results@.len() == 0 && detail_results@.len() == 0) ==> *final(self) == *old(self),
    {
        let ghost dr_total = dir_results@.len();
        let ghost dt_total = detail_results@.len();
        let ghost pre = *old(self);
        let mut dir_results = dir_results;
        let mut detail_results = detail_results;
        let ghost dir_all = dir_results@;
        let ghost detail_all = detail_results@;
        let ghost mut dr_processed: int = 0;
        let ghost mut chain: Seq<BuckProject> = seq![*self];
        proof {
            assert(dir_results@ =~= dir_all.subrange(0, dr_total as int));
        }
        while dir_results.len() > 0
            invariant
                self.wf(),
                0 <= dr_processed <= dr_total,
                dir_results@ == dir_all.subrange(dr_processed, dr_total as int),
                dir_all.len() == dr_total,
                self.next_generation <= pre.next_generation + dr_processed,
                pre.next_generation + dr_total < u64::MAX,
                self.directories@.len() == pre.directories@.len(),
                forall|k: int|
                    0 <= k < self.directories@.len() ==> (#[trigger] self.directories@[k]).path@
                        == pre.directories@[k].path@,
                forall|i: int|
                    0 <= i < dir_all.len() ==> dir_has(
                        pre.directories@,
                        (#[trigger] dir_all[i]).path@,
                    ),
                detail_results@ == detail_all,
                chain.len() == dr_processed + 1,
                chain[0] == pre,
                chain.last() == *self,
                forall|i: int|
                    0 <= i < dr_processed ==> dir_result_applied(
                        chain[i],
                        #[trigger] dir_all[i],
                        chain[i + 1],
                    ),
            decreases dir_results@.len(),
        {
            let r = dir_results.remove(0);
            proof {
                assert(r == dir_all[dr_processed]);
                assert(dir_has(pre.directories@, r.path@));
                assert(dir_has(self.directories@, r.path@)) by {
                    let i = choose|i: int|
                        0 <= i < pre.directories@.len() && (#[trigger] pre.directories@[i]).path@
                            == r.path@;
                    assert(self.directories@[i].path@ == r.path@);
                }
            }
            self.apply_dir_result(r);
            proof {
                dr_processed = dr_processed + 1;
                chain = chain.push(*self);
                assert(dir_results@ =~= dir_all.subrange(dr_processed, dr_total as int));
            }
        }
        let ghost mid = *self;
        let ghost mut dt_processed: int = 0;
        let ghost mut chain2: Seq<BuckProject> = seq![*self];
        proof {
            assert(detail_results@ =~= detail_all.subrange(0, dt_total as int));
        }
        while detail_results.len() > 0
            invariant
                self.wf(),
                0 <= dt_processed <= dt_total,
                detail_results@ == detail_all.subrange(dt_processed, dt_total as int),
                detail_all.len() == dt_total,
                self.directories@.len() == pre.directories@.len(),
                forall|k: int|
                    0 <= k < self.directories@.len() ==> (#[trigger] self.directories@[k]).path@
                        == pre.directories@[k].path@,
                forall|i: int|
                    0 <= i < detail_all.len() ==> dir_has(
                        pre.directories@,
                        (#[trigger] detail_all[i]).path@,
                    ),
                chain2.len() == dt_processed + 1,
                chain2[0] == mid,
                chain2.last() == *self,
                forall|i: int|
                    0 <= i < dt_processed ==> detail_result_applied(
                        chain2[i],
                        #[trigger] detail_all[i],
                        chain2[i + 1],
                    ),
            decreases detail_results@.len(),
        {
            let r = detail_results.remove(0);
            proof {
                assert(r == detail_all[dt_processed]);
                assert(dir_has(pre.directories@, r.path@));
                assert(dir_has(self.directories@, r.path@)) by {
                    let i = choose|i: int|
                        0 <= i < pre.directories@.len() && (#[trigger] pre.directories@[i]).path@
                            == r.path@;
                    assert(self.directories@[i].path@ == r.path@);
                }
            }
            self.apply_detail_result(r);
            proof {
                dt_processed = dt_processed + 1;
                chain2 = chain2.push(*self);
                assert(detail_results@ =~= detail_all.subrange(dt_processed, dt_total as int));
            }
        }
        proof {
            assert(dir_results_applied_chain(chain, dir_all));
            assert(detail_results_applied_chain(chain2, detail_all));
        }
    }
}

/// The load-coordination state is untouched.
pub open spec fn coord_unchanged(pre: BuckProject, post: BuckProject) -> bool {
    &&& post.directories@ == pre.directories@
    &&& post.active_load_request == pre.active_load_request
    &&& post.active_detail_request == pre.active_detail_request
    &&& post.loader_outbox@ == pre.loader_outbox@
    &&& post.detail_outbox@ == pre.detail_outbox@
    &&& post.next_generation == pre.next_generation
    &&& post.cancelled@ == pre.cancelled@
    &&& post.cells@ == pre.cells@
    &&& post.search_query == pre.search_query
}

/// The coordination effect of a directory-load request that went through
/// on the directory indexed at `j`.
pub open spec fn dir_request_core(pre: BuckProject, post: BuckProject, sel: Seq<char>, j: int) -> bool {
    &&& post.directories@ == pre.directories@.update(
        j,
        BuckDirectory { targets_loading: true, ..pre.directories@[j] },
    )
    &&& (match post.active_load_request {
        Some(a) => a.dir_path@ == sel && a.generation == pre.next_generation,
        None => false,
    })
    &&& post.cancelled@ == (match pre.active_load_request {
        Some(p) => pre.cancelled@.insert(p.generation),
        None => pre.cancelled@,
    })
    &&& post.next_generation == pre.next_generation + 1
    &&& post.loader_outbox@.len() == pre.loader_outbox@.len() + 1
    &&& post.loader_outbox@.subrange(0, pre.loader_outbox@.len() as int) == pre.loader_outbox@
    &&& post.loader_outbox@.last().path@ == sel
    &&& post.loader_outbox@.last().generation == pre.next_generation
    &&& post.active_detail_request == pre.active_detail_request
    &&& post.detail_outbox@ == pre.detail_outbox@
    &&& post.cells@ == pre.cells@
    &&& post.search_query == pre.search_query
}

/// The coordination effect of indexing the selected directory afresh and
/// requesting its targets.
pub open spec fn dir_added_and_requested(pre: BuckProject, post: BuckProject, sel: Seq<char>) -> bool {
    &&& post.directories@.len() == pre.directories@.len() + 1
    &&& post.directories@.subrange(0, pre.directories@.len() as int) == pre.directories@
    &&& ({
        let added = post.directories@.last();
        added.path@ == sel && added.has_buck_file && added.targets@.len() == 0
            && !added.targets_loaded && added.targets_loading
    })
    &&& (match post.active_load_request {
        Some(a) => a.dir_path@ == sel && a.generation == pre.next_generation,
        None => false,
    })
    &&& post.cancelled@ == (match pre.active_load_request {
        Some(p) => pre.cancelled@.insert(p.generation),
        None => pre.cancelled@,
    })
    &&& post.next_generation == pre.next_generation + 1
    &&& post.loader_outbox@.len() == pre.loader_outbox@.len() + 1
    &&& post.loader_outbox@.subrange(0, pre.loader_outbox@.len() as int) == pre.loader_outbox@
    &&& post.loader_outbox@.last().path@ == sel
    &&& post.loader_outbox@.last().generation == pre.next_generation
    &&& post.active_detail_request == pre.active_detail_request
    &&& post.detail_outbox@ == pre.detail_outbox@
    &&& post.cells@ == pre.cells@
    &&& post.search_query == pre.search_query
}

/// The exact effect of refreshing the selected directory's targets
/// against a pane listing: not listed means nothing happens; listed
/// without a manifest clears the panel; listed with a manifest indexes the
/// directory if needed and either requests its targets or, when already
/// loaded or loading, refreshes the panel from what is indexed.
/// `kept_filtered` and `kept_sel` are the panel state entering the
/// refresh, which the request paths leave alone.
pub open spec fn targets_update_applied(
    pre: BuckProject,
    post: BuckProject,
    sel: Seq<char>,
    dirs_l: Seq<BuckDirectory>,
    kept_filtered: Seq<TargetModel>,
    kept_sel: int,
) -> bool {
    if !dir_has(dirs_l, sel) {
        coord_unchanged(pre, post) && post.filtered_targets.deep_view() == kept_filtered
            && post.selected_target == kept_sel
    } else {
        exists|i: int|
            #[trigger] dir_first_match(dirs_l, sel, i) && ({
                let entry = dirs_l[i];
                if !entry.has_buck_file {
                    coord_unchanged(pre, post) && post.filtered_targets@.len() == 0
                        && post.selected_target == 0
                } else if dir_has(pre.directories@, sel) {
                    exists|j: int|
                        #[trigger] dir_first_match(pre.directories@, sel, j) && ({
                            let d = pre.directories@[j];
                            if d.targets_loaded || d.targets_loading || !d.has_buck_file {
                                &&& coord_unchanged(pre, post)
                                &&& post.filtered_targets.deep_view() == filtered_spec(
                                    d.targets.deep_view(),
                                    pre.search_query@,
                                )
                                &&& post.selected_target == 0
                            } else {
                                &&& dir_request_core(pre, post, sel, j)
                                &&& post.filtered_targets.deep_view() == kept_filtered
                                &&& post.selected_target == kept_sel
                            }
                        })
                } else {
                    &&& dir_added_and_requested(pre, post, sel)
                    &&& post.filtered_targets.deep_view() == kept_filtered
                    &&& post.selected_target == kept_sel
                }
            })
    }
}

impl BuckProject {
    /// Refresh the selected directory's targets against the given pane
    /// listing, as `targets_update_applied` describes.
    pub fn update_targets_for_selected_directory(&mut self, listing: &UICurrentDirectory)
        requires
            old(self).wf(),
            old(self).next_generation < u64::MAX,
        ensures
            final(self).wf(),
            targets_update_applied(
                *old(self),
                *final(self),
                old(self).selected_directory@,
                listing.sub_directories@,
                old(self).filtered_targets.deep_view(),
                old(self).selected_target as int,
            ),
            final(self).root_path == old(self).root_path,
            final(self).current_path == old(self).current_path,
            final(self).selected_directory == old(self).selected_directory,
            final(self).search_query == old(self).search_query,
    {
        let sel = self.selected_directory.clone();
        let entry_opt = listing.get_directory(&sel);
        let entry_has_buck: bool;
        match entry_opt {
            Some(entry) => {
                entry_has_buck = entry.has_buck_file;
            },
            None => {
                return ;
            },
        }
        proof {
            assert(exists|i: int|
                #[trigger] dir_first_match(listing.sub_directories@, sel@, i)
                    && listing.sub_directories@[i].has_buck_file == entry_has_buck);
        }
        let ghost li = choose|i: int|
            #[trigger] dir_first_match(listing.sub_directories@, sel@, i)
                && listing.sub_directories@[i].has_buck_file == entry_has_buck;
        if entry_has_buck {
            let was_indexed = match self.find_dir_index(&sel) {
                Some(_) => true,
                None => false,
            };
            self.find_or_add_directory(&sel, true);
            let ghost mid = *self;
            let j = match self.find_dir_index(&sel) {
                Some(j) => j,
                None => unreached(),
            };
            proof {
                if !was_indexed {
                    assert(mid.directories@.last().path@ == sel@);
                    assert forall|k: int|
                        0 <= k < mid.directories@.len() - 1 implies (
                    #[trigger] mid.directories@[k]).path@ != sel@ by {
                        assert(mid.directories@[k] == old(self).directories@[k]);
                    }
                    assert(dir_first_match(mid.directories@, sel@, mid.directories@.len() - 1));
                    lemma_dir_first_match_unique(
                        mid.directories@,
                        sel@,
                        j as int,
                        mid.directories@.len() - 1,
                    );
                }
            }
            let skip = self.directories[j].targets_loaded || self.directories[j].targets_loading
                || !self.directories[j].has_buck_file;
            proof {
                assert(dir_first_match(mid.directories@, sel@, j as int));
                if skip {
                    assert(dir_request_skipped(mid.directories@, sel@));
                } else {
                    assert forall|jj: int|
                        !(#[trigger] dir_first_match(mid.directories@, sel@, jj) && (
                        mid.directories@[jj].targets_loaded || mid.directories@[jj].targets_loading
                            || !mid.directories@[jj].has_buck_file)) by {
                        if dir_first_match(mid.directories@, sel@, jj) {
                            lemma_dir_first_match_unique(mid.directories@, sel@, jj, j as int);
                        }
                    }
                    assert(!dir_request_skipped(mid.directories@, sel@));
                }
            }
            self.request_targets_for_directory(sel);
            let ghost mid2 = *self;
            proof {
                if !skip {
                    let jj = choose|jj: int|
                        #[trigger] dir_first_match(mid.directories@, sel@, jj) && mid2.directories@
                            == mid.directories@.update(
                            jj,
                            BuckDirectory { targets_loading: true, ..mid.directories@[jj] },
                        );
                    lemma_dir_first_match_unique(mid.directories@, sel@, jj, j as int);
                    if !was_indexed {
                        assert(mid2.directories@.subrange(0, old(self).directories@.len() as int)
                            =~= old(self).directories@);
                        assert(dir_added_and_requested(*old(self), mid2, sel@));
                    } else {
                        assert(mid == *old(self));
                        assert(dir_request_core(*old(self), mid2, sel@, j as int));
                    }
                }
            }
            if skip {
                self.update_filtered_targets();
                proof {
                    let jj = choose|jj: int|
                        #[trigger] dir_first_match(mid2.directories@, mid2.selected_directory@, jj)
                            && self.filtered_targets.deep_view() == filtered_spec(
                            mid2.directories@[jj].targets.deep_view(),
                            mid2.search_query@,
                        );
                    lemma_dir_first_match_unique(
                        mid2.directories@,
                        mid2.selected_directory@,
                        jj,
                        j as int,
                    );
                    assert(mid == *old(self));
                    assert(mid2 == mid);
                    assert(targets_update_applied(
                        *old(self),
                        *self,
                        old(self).selected_directory@,
                        listing.sub_directories@,
                        old(self).filtered_targets.deep_view(),
                        old(self).selected_target as int,
                    ));
                }
            } else {
                proof {
                    assert(targets_update_applied(
                        *old(self),
                        *self,
                        old(self).selected_directory@,
                        listing.sub_directories@,
                        old(self).filtered_targets.deep_view(),
                        old(self).selected_target as int,
                    ));
                }
            }
        } else {
            self.filtered_targets = Vec::new();
            self.selected_target = 0;
            proof {
                assert(self.filtered_targets@.len() == 0);
                assert(targets_update_applied(
                    *old(self),
                    *self,
                    old(self).selected_directory@,
                    listing.sub_directories@,
                    old(self).filtered_targets.deep_view(),
                    old(self).selected_target as int,
                ));
            }
        }
    }

    /// Enter `dir_path`: it becomes the current and the selected
    /// directory, the panel is cleared, and its targets are refreshed
    /// against the listing.
    pub fn navigate_to_directory(&mut self, dir_path: String, listing: &UICurrentDirectory)
        requires
            old(self).wf(),
            old(self).next_generation < u64::MAX,
        ensures
            final(self).wf(),
            final(self).current_path == dir_path,
            final(self).selected_directory == dir_path,
            final(self).root_path == old(self).root_path,
            final(self).search_query == old(self).search_query,
            targets_update_applied(
                *old(self),
                *final(self),
                dir_path@,
                listing.sub_directories@,
                Seq::<TargetModel>::empty(),
                0,
            ),
    {
        self.current_path = dir_path.clone();
        self.selected_directory = dir_path;
        self.selected_target = 0;
        self.filtered_targets = Vec::new();
        proof {
            assert(self.filtered_targets.deep_view() =~~= Seq::<TargetModel>::empty());
        }
        self.update_targets_for_selected_directory(listing);
    }

    /// Install the cell table from the build tool's audit output: on a
    /// decodable object the table becomes exactly the named set of
    /// key-value pairs; a missing or undecodable table is non-fatal and
    /// leaves the table as it was.
    pub fn load_cells(&mut self, audit_output: Option<&str>)
        ensures
            *final(self) == (BuckProject { cells: final(self).cells, ..*old(self) }),
            audit_output is None ==> final(self).cells@ == old(self).cells@,
            audit_output matches Some(s) ==> (match crate::parse::cells_of(s@) {
                Some(cs) => {
                    &&& final(self).cells@.len() == cs.len()
                    &&& (forall|i: int|
                        0 <= i < final(self).cells@.len() ==> cs.contains(
                            ((#[trigger] final(self).cells@[i]).0@, final(self).cells@[i].1@),
                        ))
                    &&& (forall|p: (Seq<char>, Seq<char>)|
                        cs.contains(p) ==> exists|i: int|
                            0 <= i < final(self).cells@.len() && (
                            #[trigger] final(self).cells@[i]).0@ == p.0 && final(self).cells@[i].1@ == p.1)
                },
                None => final(self).cells@ == old(self).cells@,
            }),
    {
        match audit_output {
            Some(s) => {
                let parsed = crate::parse::parse_string_map(s);
                self.install_cells(parsed);
            },
            None => {},
        }
    }

    /// Install an already decoded cell table; a failed lookup is
    /// non-fatal and leaves the table as it was.
    pub fn install_cells(&mut self, parsed: Option<Vec<(String, String)>>)
        ensures
            parsed is None ==> *final(self) == *old(self),
            parsed matches Some(v) ==> final(self).cells@ == v@ && *final(self) == (BuckProject {
                cells: final(self).cells,
                ..*old(self)
            }),
    {
        match parsed {
            Some(v) => {
                self.cells = v;
            },
            None => {},
        }
    }
}

/// `i` names a cell whose path is a component prefix of `sel`.
pub open spec fn cell_matches(cells: Seq<(String, String)>, sel: Seq<char>, i: int) -> bool {
    0 <= i < cells.len() && path_prefix_of(cells[i].1@, sel)
}

/// `i` is the first cell with the longest matching path.
pub open spec fn cell_best_match(cells: Seq<(String, String)>, sel: Seq<char>, i: int) -> bool {
    &&& cell_matches(cells, sel, i)
    &&& forall|k: int|
        #[trigger] cell_matches(cells, sel, k) ==> cells[k].1@.len() <= cells[i].1@.len()
    &&& forall|k: int|
        k < i && #[trigger] cell_matches(cells, sel, k) ==> cells[k].1@.len() < cells[i].1@.len()
}

impl BuckProject {
    /// The name of the cell the selected directory belongs to: the first
    /// cell among those whose path is the longest component prefix of the
    /// selected path.  Nothing when no directory is selected or no cell
    /// path matches.
    pub fn current_cell<'a>(&'a self) -> (r: Option<&'a String>)
        ensures
            match r {
                Some(name) => dir_has(self.directories@, self.selected_directory@) && exists|i: int|
                    #[trigger] cell_best_match(self.cells@, self.selected_directory@, i) && name@
                        == self.cells@[i].0@,
                None => !dir_has(self.directories@, self.selected_directory@) || (forall|i: int|
                    !cell_matches(self.cells@, self.selected_directory@, i)),
            },
    {
        match self.find_dir_index(&self.selected_directory) {
            Some(_) => {},
            None => {
                return None;
            },
        }
        let mut best: Option<usize> = None;
        let mut i: usize = 0;
        while i < self.cells.len()
            invariant
                0 <= i <= self.cells@.len(),
                match best {
                    Some(b) => {
                        &&& b < i
                        &&& cell_matches(self.cells@, self.selected_directory@, b as int)
                        &&& forall|k: int|
                            k < i && #[trigger] cell_matches(
                                self.cells@,
                                self.selected_directory@,
                                k,
                            ) ==> self.cells@[k].1@.len() <= self.cells@[b as int].1@.len()
                        &&& forall|k: int|
                            k < b && #[trigger] cell_matches(
                                self.cells@,
                                self.selected_directory@,
                                k,
                            ) ==> self.cells@[k].1@.len() < self.cells@[b as int].1@.len()
                    },
                    None => forall|k: int|
                        k < i ==> !cell_matches(self.cells@, self.selected_directory@, k),
                },
            decreases self.cells@.len() - i,
        {
            let is_match = str_path_prefix_of(
                self.cells[i].1.as_str(),
                self.selected_directory.as_str(),
            );
            if is_match {
                match best {
                    None => {
                        best = Some(i);
                    },
                    Some(b) => {
                        let len_i = self.cells[i].1.as_str().unicode_len();
                        let len_b = self.cells[b].1.as_str().unicode_len();
                        if len_i > len_b {
                            best = Some(i);
                        }
                    },
                }
            }
            i = i + 1;
        }
        match best {
            Some(b) => {
                proof {
                    assert(cell_best_match(self.cells@, self.selected_directory@, b as int));
                }
                Some(&self.cells[b].0)
            },
            None => None,
        }
    }
}

/// A request that went through flips one loading flag and nothing else in
/// the index: no directory gains or loses targets, and none becomes
/// loaded.
proof fn lemma_proceeded_keeps_load_state(pre: BuckProject, post: BuckProject, key: Seq<char>)
    requires
        dir_request_proceeded(pre, post, key),
    ensures
        post.directories@.len() == pre.directories@.len(),
        forall|k: int|
            0 <= k < pre.directories@.len() ==> (#[trigger] post.directories@[k]).path@
                == pre.directories@[k].path@ && post.directories@[k].targets_loaded
                == pre.directories@[k].targets_loaded && post.directories@[k].targets@
                == pre.directories@[k].targets@,
{
    let j = choose|j: int|
        #[trigger] dir_first_match(pre.directories@, key, j) && post.directories@
            == pre.directories@.update(
            j,
            BuckDirectory { targets_loading: true, ..pre.directories@[j] },
        );
    assert forall|k: int|
        0 <= k < pre.directories@.len() implies (#[trigger] post.directories@[k]).path@
        == pre.directories@[k].path@ && post.directories@[k].targets_loaded
        == pre.directories@[k].targets_loaded && post.directories@[k].targets@
        == pre.directories@[k].targets@ by {
        if k != j {
            assert(post.directories@[k] == pre.directories@[k]);
        }
    }
}

/// Single flight with preemption: along any chain of directory-load
/// requests that each went through, every request but the last has had
/// its generation cancelled, and the last request alone is active, its
/// generation never cancelled.  A worker only delivers a result whose
/// token was not signalled, so only the last request's result can ever be
/// applied; the earlier results are discarded at the worker.  The chain
/// itself marks nothing loaded and installs nothing: a superseded
/// directory never reaches the loaded state from this round of requests.
pub proof fn lemma_single_flight(states: Seq<BuckProject>, keys: Seq<Seq<char>>)
    requires
        states.len() == keys.len() + 1,
        keys.len() >= 1,
        forall|i: int| 0 <= i < states.len() ==> (#[trigger] states[i]).wf(),
        forall|i: int|
            0 <= i < keys.len() ==> dir_request_proceeded(
                states[i],
                states[i + 1],
                #[trigger] keys[i],
            ),
    ensures
        forall|i: int|
            0 <= i < keys.len() - 1 ==> states.last().cancelled@.contains(
                (#[trigger] states[i]).next_generation,
            ),
        match states.last().active_load_request {
            Some(a) => a.dir_path@ == keys.last() && a.generation == states[states.len()
                - 2].next_generation && !states.last().cancelled@.contains(a.generation),
            None => false,
        },
        states.last().directories@.len() == states[0].directories@.len(),
        forall|k: int|
            0 <= k < states[0].directories@.len() ==> (
            #[trigger] states.last().directories@[k]).path@ == states[0].directories@[k].path@
                && states.last().directories@[k].targets_loaded
                == states[0].directories@[k].targets_loaded
                && states.last().directories@[k].targets@ == states[0].directories@[k].targets@,
    decreases keys.len(),
{
    let n = keys.len() as int;
    assert(dir_request_proceeded(states[n - 1], states[n], keys[n - 1]));
    assert(states[n].wf());
    lemma_proceeded_keeps_load_state(states[n - 1], states[n], keys[n - 1]);
    if n == 1 {
        assert(states.last() == states[1] && states[0] == states[n - 1]);
    }
    if n > 1 {
        let sp = states.subrange(0, n);
        let kp = keys.subrange(0, n - 1);
        assert forall|i: int| 0 <= i < sp.len() implies (#[trigger] sp[i]).wf() by {
            assert(sp[i] == states[i]);
        }
        assert forall|i: int|
            0 <= i < kp.len() implies dir_request_proceeded(sp[i], sp[i + 1], #[trigger] kp[i]) by {
            assert(sp[i] == states[i] && sp[i + 1] == states[i + 1] && kp[i] == keys[i]);
        }
        lemma_single_flight(sp, kp);
        let pen = states[n - 1];
        let lst = states[n];
        assert(sp.last() == pen);
        assert(sp[sp.len() - 2] == states[n - 2]);
        let a_prev = pen.active_load_request->Some_0;
        assert(a_prev.generation == states[n - 2].next_generation);
        assert(lst.cancelled@ == pen.cancelled@.insert(a_prev.generation));
        assert forall|i: int|
            0 <= i < n - 1 implies lst.cancelled@.contains(
            (#[trigger] states[i]).next_generation,
        ) by {
            if i < n - 2 {
                assert(sp[i] == states[i]);
                assert(pen.cancelled@.contains(states[i].next_generation));
            } else {
                assert(states[i].next_generation == a_prev.generation);
            }
        }
        assert(sp[0] == states[0]);
        assert(sp.last() == pen);
    }
}

/// `m` is the first cell entry bearing `name`.
pub open spec fn cell_name_first_match(cells: Seq<(String, String)>, name: Seq<char>, m: int) -> bool {
    &&& 0 <= m < cells.len()
    &&& cells[m].0@ == name
    &&& forall|k: int| 0 <= k < m ==> (#[trigger] cells[k]).0@ != name
}

/// The package label `cell//relative`, where `relative` is the selected
/// path with the cell path and one leading separator removed.
pub open spec fn package_name_spec(cell: Seq<char>, cell_path: Seq<char>, sel: Seq<char>) -> Seq<char> {
    let rel0 = sel.subrange(cell_path.len() as int, sel.len() as int);
    let rel = if rel0.len() > 0 && rel0[0] == '/' {
        rel0.subrange(1, rel0.len() as int)
    } else {
        rel0
    };
    cell + "//"@ + rel
}

impl BuckProject {
    /// The position of the first cell entry bearing `name`.
    fn find_cell_index(&self, name: &String) -> (r: Option<usize>)
        ensures
            match r {
                Some(m) => cell_name_first_match(self.cells@, name@, m as int),
                None => forall|k: int|
                    0 <= k < self.cells@.len() ==> (#[trigger] self.cells@[k]).0@ != name@,
            },
    {
        let mut m: usize = 0;
        while m < self.cells.len()
            invariant
                0 <= m <= self.cells@.len(),
                forall|k: int| 0 <= k < m ==> (#[trigger] self.cells@[k]).0@ != name@,
            decreases self.cells@.len() - m,
        {
            if self.cells[m].0 == *name {
                return Some(m);
            }
            m = m + 1;
        }
        None
    }

    /// The `cell//path` form of the selected directory: the current
    /// cell's name, `//`, and the path relative to that cell — provided
    /// the first cell entry bearing that name has a path that prefixes
    /// the selected directory.
    pub fn get_selected_buck_package_name(&self) -> (r: Option<String>)
        ensures
            match r {
                Some(s) => exists|i: int, m: int|
                    #[trigger] cell_best_match(self.cells@, self.selected_directory@, i)
                        && #[trigger] cell_name_first_match(self.cells@, self.cells@[i].0@, m)
                        && path_prefix_of(self.cells@[m].1@, self.selected_directory@) && s@
                        == package_name_spec(
                        self.cells@[i].0@,
                        self.cells@[m].1@,
                        self.selected_directory@,
                    ),
                None => {
                    ||| !dir_has(self.directories@, self.selected_directory@)
                    ||| (forall|k: int| !cell_matches(self.cells@, self.selected_directory@, k))
                    ||| (exists|i: int, m: int|
                        #[trigger] cell_best_match(self.cells@, self.selected_directory@, i)
                            && #[trigger] cell_name_first_match(self.cells@, self.cells@[i].0@, m)
                            && !path_prefix_of(self.cells@[m].1@, self.selected_directory@))
                },
            },
    {
        let cell: String = match self.current_cell() {
            Some(c) => c.clone(),
            None => {
                return None;
            },
        };
        let found: usize = match self.find_cell_index(&cell) {
            Some(m) => m,
            None => {
                return None;
            },
        };
        let cell_path = &self.cells[found].1;
        if !str_path_prefix_of(cell_path.as_str(), self.selected_directory.as_str()) {
            return None;
        }
        let cp_len = cell_path.as_str().unicode_len();
        let sel_len = self.selected_directory.as_str().unicode_len();
        let start = if cp_len < sel_len && self.selected_directory.as_str().get_char(cp_len)
            == '/' {
            cp_len + 1
        } else {
            cp_len
        };
        let rel = self.selected_directory.as_str().substring_char(start, sel_len);
        let mut out = cell.clone();
        out.append("//");
        out.append(rel);
        proof {
            let sel = self.selected_directory@;
            let cpath = self.cells@[found as int].1@;
            let rel0 = sel.subrange(cpath.len() as int, sel.len() as int);
            if rel0.len() > 0 && rel0[0] == '/' {
                assert(rel@ =~= rel0.subrange(1, rel0.len() as int));
            } else {
                assert(rel@ =~= rel0);
            }
            assert(out@ =~= package_name_spec(cell@, cpath, sel));
            assert(cell_name_first_match(self.cells@, cell@, found as int));
        }
        Some(out)
    }
}

} // verus!
