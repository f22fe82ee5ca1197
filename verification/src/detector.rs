//! Ecosystem auto-detection and recursive workspace discovery.
//!
//! Both work over explicit directory data: detection over the list of
//! entry names in one directory, discovery over a [`FileTree`] whose
//! nodes carry a canonical identity so that symlink cycles can be
//! represented and provably do not loop the walk.

use vstd::prelude::*;

use crate::models::Ecosystem;
use crate::text::{ends_with, ends_with_str, str_eq_str, str_le, lemma_str_le_total,
    lemma_str_le_trans, str_le_exec};

verus! {

broadcast use vstd::seq_lib::group_to_multiset_ensures;

/// One entry name equals `name`.
pub open spec fn has_entry(entries: Seq<String>, name: Seq<char>) -> bool {
    exists|i: int| 0 <= i < entries.len() && entries[i]@ == name
}

/// Executable search for an entry name.
fn has_entry_exec(entries: &Vec<String>, name: &str) -> (r: bool)
    ensures
        r == has_entry(entries@, name@),
{
    let mut i: usize = 0;
    while i < entries.len()
        invariant
            i <= entries@.len(),
            forall|j: int| 0 <= j < i ==> entries@[j]@ != name@,
        decreases entries@.len() - i,
    {
        if str_eq_str(entries[i].as_str(), name) {
            return true;
        }
        i = i + 1;
    }
    false
}

/// An entry names a .NET project file.
pub open spec fn is_dotnet_project_name(n: Seq<char>) -> bool {
    ends_with(n, ".csproj"@) || ends_with(n, ".fsproj"@)
}

/// Some entry is a `.csproj` or `.fsproj` file.
pub open spec fn spec_has_dotnet_project_file(entries: Seq<String>) -> bool {
    exists|i: int| 0 <= i < entries.len() && is_dotnet_project_name(entries[i]@)
}

/// Returns `true` if any `.csproj` or `.fsproj` entry is present.
pub fn has_dotnet_project_file(entries: &Vec<String>) -> (r: bool)
    ensures
        r == spec_has_dotnet_project_file(entries@),
{
    let mut i: usize = 0;
    while i < entries.len()
        invariant
            i <= entries@.len(),
            forall|j: int| 0 <= j < i ==> !is_dotnet_project_name(entries@[j]@),
        decreases entries@.len() - i,
    {
        if ends_with_str(entries[i].as_str(), ".csproj") || ends_with_str(
            entries[i].as_str(),
            ".fsproj",
        ) {
            return true;
        }
        i = i + 1;
    }
    false
}

/// The Rust ecosystem's marker files are present.
pub open spec fn detects_rust(entries: Seq<String>) -> bool {
    has_entry(entries, "Cargo.toml"@) || has_entry(entries, "Cargo.lock"@)
}

/// The Python ecosystem's marker files are present.
pub open spec fn detects_python(entries: Seq<String>) -> bool {
    has_entry(entries, "requirements.txt"@) || has_entry(entries, "pyproject.toml"@) || has_entry(
        entries,
        "Pipfile.lock"@,
    )
}

/// The Java ecosystem's marker files are present.
pub open spec fn detects_java(entries: Seq<String>) -> bool {
    has_entry(entries, "pom.xml"@) || has_entry(entries, "build.gradle"@) || has_entry(
        entries,
        "build.gradle.kts"@,
    )
}

/// The Node ecosystem's marker files are present.
pub open spec fn detects_node(entries: Seq<String>) -> bool {
    has_entry(entries, "package.json"@) || has_entry(entries, "package-lock.json"@) || has_entry(
        entries,
        "yarn.lock"@,
    )
}

/// The .NET ecosystem's marker files are present.
pub open spec fn detects_dotnet(entries: Seq<String>) -> bool {
    has_entry(entries, "packages.config"@) || has_entry(entries, "paket.dependencies"@)
        || spec_has_dotnet_project_file(entries)
}

/// The detected ecosystems, in the fixed reporting order.
pub open spec fn spec_detect_ecosystems(entries: Seq<String>) -> Seq<Ecosystem> {
    (if detects_rust(entries) {
        seq![Ecosystem::Rust]
    } else {
        Seq::empty()
    }) + (if detects_python(entries) {
        seq![Ecosystem::Python]
    } else {
        Seq::empty()
    }) + (if detects_java(entries) {
        seq![Ecosystem::Java]
    } else {
        Seq::empty()
    }) + (if detects_node(entries) {
        seq![Ecosystem::Node]
    } else {
        Seq::empty()
    }) + (if detects_dotnet(entries) {
        seq![Ecosystem::DotNet]
    } else {
        Seq::empty()
    })
}

/// Auto-detect supported ecosystems from the entry names of a
/// directory.
///
/// Detection is based purely on the presence of well-known file names;
/// nothing is parsed. Multiple ecosystems can be detected for polyglot
/// repositories.
pub fn detect_ecosystems(entries: &Vec<String>) -> (r: Vec<Ecosystem>)
    ensures
        r@ == spec_detect_ecosystems(entries@),
{
    let mut r: Vec<Ecosystem> = Vec::new();
    if has_entry_exec(entries, "Cargo.toml") || has_entry_exec(entries, "Cargo.lock") {
        r.push(Ecosystem::Rust);
    }
    if has_entry_exec(entries, "requirements.txt") || has_entry_exec(entries, "pyproject.toml")
        || has_entry_exec(entries, "Pipfile.lock") {
        r.push(Ecosystem::Python);
    }
    if has_entry_exec(entries, "pom.xml") || has_entry_exec(entries, "build.gradle")
        || has_entry_exec(entries, "build.gradle.kts") {
        r.push(Ecosystem::Java);
    }
    if has_entry_exec(entries, "package.json") || has_entry_exec(entries, "package-lock.json")
        || has_entry_exec(entries, "yarn.lock") {
        r.push(Ecosystem::Node);
    }
    if has_entry_exec(entries, "packages.config") || has_entry_exec(entries, "paket.dependencies")
        || has_dotnet_project_file(entries) {
        r.push(Ecosystem::DotNet);
    }
    proof {
        assert(r@ =~= spec_detect_ecosystems(entries@));
    }
    r
}

// ---------------------------------------------------------------------------
// Workspace discovery
// ---------------------------------------------------------------------------

/// An entry name that marks a directory as a project root.
pub open spec fn is_manifest_name(n: Seq<char>) -> bool {
    ||| n == "Cargo.toml"@
    ||| n == "Cargo.lock"@
    ||| n == "requirements.txt"@
    ||| n == "pyproject.toml"@
    ||| n == "Pipfile.lock"@
    ||| n == "pom.xml"@
    ||| n == "build.gradle"@
    ||| n == "build.gradle.kts"@
    ||| n == "package.json"@
    ||| n == "package-lock.json"@
    ||| n == "yarn.lock"@
    ||| n == "packages.config"@
    ||| n == "paket.dependencies"@
}

/// Executable manifest-name test.
fn is_manifest_name_exec(n: &str) -> (r: bool)
    ensures
        r == is_manifest_name(n@),
{
    str_eq_str(n, "Cargo.toml") || str_eq_str(n, "Cargo.lock") || str_eq_str(n, "requirements.txt")
        || str_eq_str(n, "pyproject.toml") || str_eq_str(n, "Pipfile.lock") || str_eq_str(
        n,
        "pom.xml",
    ) || str_eq_str(n, "build.gradle") || str_eq_str(n, "build.gradle.kts") || str_eq_str(
        n,
        "package.json",
    ) || str_eq_str(n, "package-lock.json") || str_eq_str(n, "yarn.lock") || str_eq_str(
        n,
        "packages.config",
    ) || str_eq_str(n, "paket.dependencies")
}

/// A directory name that is never descended into during discovery:
/// build caches, VCS metadata and dependency-download trees.
pub open spec fn is_skip_dir_name(n: Seq<char>) -> bool {
    ||| n == "node_modules"@
    ||| n == ".git"@
    ||| n == "target"@
    ||| n == "vendor"@
    ||| n == ".cargo"@
    ||| n == "__pycache__"@
    ||| n == ".venv"@
    ||| n == "venv"@
    ||| n == "dist"@
    ||| n == "build"@
    ||| n == ".next"@
    ||| n == ".nuxt"@
    ||| n == "bin"@
    ||| n == "obj"@
}

/// Executable noise-directory test.
pub fn is_skip_dir(n: &str) -> (r: bool)
    ensures
        r == is_skip_dir_name(n@),
{
    str_eq_str(n, "node_modules") || str_eq_str(n, ".git") || str_eq_str(n, "target")
        || str_eq_str(n, "vendor") || str_eq_str(n, ".cargo") || str_eq_str(n, "__pycache__")
        || str_eq_str(n, ".venv") || str_eq_str(n, "venv") || str_eq_str(n, "dist") || str_eq_str(
        n,
        "build",
    ) || str_eq_str(n, ".next") || str_eq_str(n, ".nuxt") || str_eq_str(n, "bin") || str_eq_str(
        n,
        "obj",
    )
}

/// A reference from a directory to one of its subdirectories.
pub struct Subdir {
    /// The subdirectory's entry name.
    pub name: String,
    /// Index of the subdirectory's node in the tree.
    pub id: usize,
}

/// One directory of the modelled tree.
pub struct DirNode {
    /// Display path of the directory.
    pub path: String,
    /// Canonical identity: two nodes carry the same value exactly when
    /// they are the same physical directory (e.g. via a symlink).
    pub canon: u64,
    /// Names of the plain files directly inside the directory.
    pub files: Vec<String>,
    /// The immediate subdirectories, in traversal order, with noise
    /// directories already left out.
    pub subdirs: Vec<Subdir>,
}

/// A directory tree (or graph, under symlinks); index 0 is the root.
pub struct FileTree {
    /// All reachable directories.
    pub dirs: Vec<DirNode>,
}

/// A directory that is itself a project root: it holds a known
/// manifest file or a `.csproj`/`.fsproj` file.
pub open spec fn is_project_node(node: DirNode) -> bool {
    (exists|i: int| 0 <= i < node.files@.len() && is_manifest_name(node.files@[i]@))
        || spec_has_dotnet_project_file(node.files@)
}

/// Executable project-root test on a file list.
pub fn is_project_files(files: &Vec<String>) -> (r: bool)
    ensures
        r == ((exists|i: int| 0 <= i < files@.len() && is_manifest_name(files@[i]@))
            || spec_has_dotnet_project_file(files@)),
{
    let mut i: usize = 0;
    while i < files.len()
        invariant
            i <= files@.len(),
            forall|j: int| 0 <= j < i ==> !is_manifest_name(files@[j]@),
        decreases files@.len() - i,
    {
        if is_manifest_name_exec(files[i].as_str()) {
            return true;
        }
        i = i + 1;
    }
    has_dotnet_project_file(files)
}

/// The canonical identities of all nodes of the tree.
pub open spec fn tree_canons(tree: FileTree) -> Set<u64> {
    tree.dirs@.map_values(|d: DirNode| d.canon).to_set()
}

/// How many canonical identities of the tree are not yet visited.
pub open spec fn unvisited_count(tree: FileTree, visited: Set<u64>) -> nat {
    tree_canons(tree).difference(visited).len()
}

/// The unvisited count is well defined and shrinks when an unvisited
/// node of the tree is marked visited.
pub proof fn lemma_unvisited_shrinks(tree: FileTree, visited: Set<u64>, id: int)
    requires
        0 <= id < tree.dirs@.len(),
        !visited.contains(tree.dirs@[id].canon),
    ensures
        tree_canons(tree).difference(visited).finite(),
        unvisited_count(tree, visited.insert(tree.dirs@[id].canon)) < unvisited_count(
            tree,
            visited,
        ),
        forall|v2: Set<u64>| visited.insert(tree.dirs@[id].canon).subset_of(v2)
            ==> unvisited_count(tree, v2) < unvisited_count(tree, visited),
{
    let c = tree.dirs@[id].canon;
    let m = tree.dirs@.map_values(|d: DirNode| d.canon);
    vstd::seq_lib::seq_to_set_is_finite(m);
    assert(m[id] == c);
    assert(m.contains(c));
    assert(tree_canons(tree).contains(c));
    let diff = tree_canons(tree).difference(visited);
    vstd::set_lib::lemma_len_subset(diff, tree_canons(tree));
    assert(diff.contains(c));
    assert forall|v2: Set<u64>| visited.insert(c).subset_of(v2) implies unvisited_count(tree, v2)
        < unvisited_count(tree, visited) by {
        let diff2 = tree_canons(tree).difference(v2);
        assert(diff2.subset_of(diff.remove(c)));
        vstd::set_lib::lemma_len_subset(diff2, diff.remove(c));
        assert(diff.remove(c).len() < diff.len()) by {
            assert(diff.remove(c).insert(c) =~= diff);
        }
    }
    assert(visited.insert(tree.dirs@[id].canon).subset_of(visited.insert(tree.dirs@[id].canon)));
}

/// A visited set only grows across the walk.
pub open spec fn grows(v1: Set<u64>, v2: Set<u64>) -> bool {
    v1.subset_of(v2)
}

/// Walk one node: stop at an already-visited canonical identity, or
/// report the node itself and stop descending if it is a project, or
/// walk all subdirectories in order.
pub open spec fn spec_walk(tree: FileTree, id: int, visited: Set<u64>) -> (Seq<String>, Set<u64>)
    decreases unvisited_count(tree, visited), 0int, 0int,
{
    if !(0 <= id < tree.dirs@.len()) {
        (Seq::empty(), visited)
    } else {
        let node = tree.dirs@[id];
        if visited.contains(node.canon) {
            (Seq::empty(), visited)
        } else {
            let v1 = visited.insert(node.canon);
            if is_project_node(node) {
                (seq![node.path], v1)
            } else {
                proof {
                    lemma_unvisited_shrinks(tree, visited, id);
                }
                spec_walk_list(tree, node.subdirs@, v1)
            }
        }
    }
}

/// Walk a list of subdirectories left to right, threading the visited
/// set.
pub open spec fn spec_walk_list(tree: FileTree, subs: Seq<Subdir>, visited: Set<u64>) -> (
    Seq<String>,
    Set<u64>,
)
    decreases unvisited_count(tree, visited), 1int, subs.len(),
{
    if subs.len() == 0 {
        (Seq::empty(), visited)
    } else if is_skip_dir_name(subs[0].name@) {
        spec_walk_list(tree, subs.drop_first(), visited)
    } else {
        let (r1, vr) = spec_walk(tree, subs[0].id as int, visited);
        let v1 = visited.union(vr);
        proof {
            vstd::set_lib::lemma_len_subset(
                tree_canons(tree).difference(v1),
                tree_canons(tree).difference(visited),
            );
        }
        let (r2, v2) = spec_walk_list(tree, subs.drop_first(), v1);
        (r1 + r2, v2)
    }
}

/// Every walk leaves the visited set no smaller, and `spec_walk`
/// inserts the node it visits.
pub proof fn lemma_walk_grows(tree: FileTree, id: int, subs: Seq<Subdir>, visited: Set<u64>)
    ensures
        grows(visited, spec_walk(tree, id, visited).1),
        grows(visited, spec_walk_list(tree, subs, visited).1),
        0 <= id < tree.dirs@.len() && !visited.contains(tree.dirs@[id].canon) ==> grows(
            visited.insert(tree.dirs@[id].canon),
            spec_walk(tree, id, visited).1,
        ),
    decreases unvisited_count(tree, visited), 2int, subs.len(),
{
    if 0 <= id < tree.dirs@.len() {
        let node = tree.dirs@[id];
        if !visited.contains(node.canon) && !is_project_node(node) {
            lemma_unvisited_shrinks(tree, visited, id);
            lemma_walk_grows(tree, 0, node.subdirs@, visited.insert(node.canon));
        }
    }
    if subs.len() > 0 {
        if is_skip_dir_name(subs[0].name@) {
            lemma_walk_grows(tree, 0, subs.drop_first(), visited);
        } else {
            lemma_walk_grows(tree, subs[0].id as int, Seq::empty(), visited);
            let (r1, vr) = spec_walk(tree, subs[0].id as int, visited);
            let v1 = visited.union(vr);
            vstd::set_lib::lemma_len_subset(
                tree_canons(tree).difference(v1),
                tree_canons(tree).difference(visited),
            );
            lemma_walk_grows(tree, 0, subs.drop_first(), v1);
        }
    }
}

/// The visited set of the walker, as a mathematical set.
pub open spec fn vset(v: Seq<u64>) -> Set<u64> {
    v.to_set()
}

/// Is this canonical identity already recorded?
fn visited_contains(visited: &Vec<u64>, c: u64) -> (r: bool)
    ensures
        r == vset(visited@).contains(c),
{
    let mut i: usize = 0;
    while i < visited.len()
        invariant
            i <= visited@.len(),
            forall|j: int| 0 <= j < i ==> visited@[j] != c,
        decreases visited@.len() - i,
    {
        if visited[i] == c {
            proof {
                assert(visited@.contains(c));
            }
            return true;
        }
        i = i + 1;
    }
    proof {
        if visited@.contains(c) {
            let j = choose|j: int| 0 <= j < visited@.len() && visited@[j] == c;
            assert(false);
        }
    }
    false
}

/// Recursive walker over the tree model.
#[verifier::loop_isolation(false)]
fn walk_for_projects(tree: &FileTree, id: usize, visited: &mut Vec<u64>, out: &mut Vec<String>)
    ensures
        ({
            let (res, v2) = spec_walk(*tree, id as int, vset(old(visited)@));
            final(out)@ == old(out)@ + res && vset(final(visited)@) == v2
        }),
    decreases unvisited_count(*tree, vset(visited@)), 0int,
{
    let ghost v0 = vset(visited@);
    if id >= tree.dirs.len() {
        return ;
    }
    let node = &tree.dirs[id];
    if visited_contains(visited, node.canon) {
        proof {
            assert(final(out)@ =~= old(out)@ + Seq::<String>::empty());
        }
        return ;
    }
    let ghost vpre = visited@;
    visited.push(node.canon);
    proof {
        vpre.lemma_push_to_set_commute(node.canon);
        assert(vset(visited@) =~= v0.insert(node.canon));
    }
    if is_project_files(&node.files) {
        out.push(node.path.clone());
        proof {
            assert(final(out)@ =~= old(out)@ + seq![tree.dirs@[id as int].path]);
        }
        return ;
    }
    proof {
        lemma_unvisited_shrinks(*tree, v0, id as int);
    }
    let ghost v1 = vset(visited@);
    let mut k: usize = 0;
    proof {
        assert(node.subdirs@.skip(0) =~= node.subdirs@);
        let (r20, vr20) = spec_walk_list(*tree, node.subdirs@, v1);
        assert((out@ + r20).skip(old(out)@.len() as int) =~= r20);
        assert(out@.take(old(out)@.len() as int) =~= old(out)@);
    }
    while k < node.subdirs.len()
        invariant
            k <= node.subdirs@.len(),
            v0.insert(node.canon).subset_of(vset(visited@)),
            spec_walk_list(*tree, node.subdirs@, v1) == {
                let (r2, vr2) = spec_walk_list(*tree, node.subdirs@.skip(k as int), vset(visited@));
                ((out@ + r2).skip(old(out)@.len() as int), vr2)
            },
            out@.len() >= old(out)@.len(),
            out@.take(old(out)@.len() as int) == old(out)@,
        decreases node.subdirs@.len() - k,
    {
        let ghost vk = vset(visited@);
        let ghost outk = out@;
        if is_skip_dir(node.subdirs[k].name.as_str()) {
            proof {
                let subsk = node.subdirs@.skip(k as int);
                assert(subsk[0] == node.subdirs@[k as int]);
                assert(subsk.drop_first() =~= node.subdirs@.skip(k + 1));
            }
            k = k + 1;
        } else {
            proof {
                lemma_unvisited_shrinks(*tree, v0, id as int);
                assert(unvisited_count(*tree, vk) < unvisited_count(*tree, v0));
            }
            walk_for_projects(tree, node.subdirs[k].id, visited, out);
            proof {
                let subsk = node.subdirs@.skip(k as int);
                assert(subsk[0] == node.subdirs@[k as int]);
                let (r1, vr) = spec_walk(*tree, subsk[0].id as int, vk);
                lemma_walk_grows(*tree, subsk[0].id as int, Seq::empty(), vk);
                assert(vk.union(vr) =~= vr);
                assert(subsk.drop_first() =~= node.subdirs@.skip(k + 1));
                assert(out@ == outk + r1);
                assert(out@.take(old(out)@.len() as int) =~= old(out)@);
                assert forall|r2x: Seq<String>| true implies (outk + r1 + r2x).skip(
                    old(out)@.len() as int,
                ) =~= (outk + (r1 + r2x)).skip(old(out)@.len() as int) by {}
            }
            k = k + 1;
        }
    }
    proof {
        assert(node.subdirs@.skip(node.subdirs@.len() as int) =~= Seq::<Subdir>::empty());
        let (res, v2) = spec_walk(*tree, id as int, v0);
        assert((out@ + Seq::<String>::empty()) =~= out@);
        assert(out@.skip(old(out)@.len() as int) == res);
        assert(out@ =~= old(out)@ + out@.skip(old(out)@.len() as int));
    }
}

/// The result list is sorted by path.
pub open spec fn sorted_paths(s: Seq<String>) -> bool {
    forall|i: int, j: int| 0 <= i <= j < s.len() ==> str_le(s[i]@, s[j]@)
}

/// Sort a list of paths lexicographically.
#[verifier::loop_isolation(false)]
fn sort_paths(input: Vec<String>) -> (r: Vec<String>)
    ensures
        sorted_paths(r@),
        r@.to_multiset() == input@.to_multiset(),
{
    let mut rest = input;
    let mut out: Vec<String> = Vec::new();
    while rest.len() > 0
        invariant
            out@.to_multiset().add(rest@.to_multiset()) == input@.to_multiset(),
            sorted_paths(out@),
            forall|i: int, j: int| 0 <= i < out@.len() && 0 <= j < rest@.len() ==> str_le(
                out@[i]@,
                rest@[j]@,
            ),
        decreases rest@.len(),
    {
        let mut m: usize = 0;
        let mut k: usize = 1;
        proof {
            lemma_str_le_total(rest@[0]@, rest@[0]@);
        }
        while k < rest.len()
            invariant
                rest@.len() > 0,
                m < k <= rest@.len(),
                forall|j: int| 0 <= j < k ==> str_le(rest@[m as int]@, rest@[j]@),
            decreases rest@.len() - k,
        {
            if str_le_exec(rest[k].as_str(), rest[m].as_str()) && !str_le_exec(
                rest[m].as_str(),
                rest[k].as_str(),
            ) {
                proof {
                    assert forall|j: int| 0 <= j < k + 1 implies str_le(rest@[k as int]@, rest@[j]@)
                        by {
                        if j < k {
                            lemma_str_le_trans(rest@[k as int]@, rest@[m as int]@, rest@[j]@);
                        } else {
                            lemma_str_le_total(rest@[k as int]@, rest@[k as int]@);
                        }
                    }
                }
                m = k;
            } else {
                proof {
                    lemma_str_le_total(rest@[m as int]@, rest@[k as int]@);
                }
            }
            k = k + 1;
        }
        let x = rest.remove(m);
        proof {
            assert(out@.push(x).to_multiset() =~= out@.to_multiset().insert(x));
            assert(out@.to_multiset().insert(x).add(rest@.to_multiset()) =~= out@.to_multiset().add(
                rest@.to_multiset().insert(x),
            ));
        }
        out.push(x);
        proof {
            assert forall|i: int, j: int|
                0 <= i < out@.len() && 0 <= j < rest@.len() implies str_le(out@[i]@, rest@[j]@) by {
                if i < out@.len() - 1 {
                    lemma_str_le_trans(out@[i]@, x@, rest@[j]@);
                }
            }
        }
    }
    out
}

/// Walk `tree` and return one path per discovered sub-project.
///
/// A directory is a project if it holds at least one known manifest
/// file or a `.csproj`/`.fsproj` file; descending stops there, so a
/// project nested inside another discovered project is never reported
/// on its own. A node whose canonical identity was already visited is
/// skipped, which breaks symlink cycles. The result is sorted by path.
pub fn find_workspace_projects(tree: &FileTree) -> (r: Vec<String>)
    ensures
        sorted_paths(r@),
        r@.to_multiset() == spec_walk(*tree, 0, Set::empty()).0.to_multiset(),
{
    let mut visited: Vec<u64> = Vec::new();
    let mut results: Vec<String> = Vec::new();
    proof {
        assert(vset(visited@) =~= Set::<u64>::empty());
    }
    walk_for_projects(tree, 0, &mut visited, &mut results);
    proof {
        assert(results@ =~= Seq::<String>::empty() + spec_walk(*tree, 0, Set::empty()).0);
        assert(results@ =~= spec_walk(*tree, 0, Set::empty()).0);
    }
    sort_paths(results)
}

// ---------------------------------------------------------------------------
// Discovery laws
// ---------------------------------------------------------------------------

/// A project directory is reported as exactly itself: nothing nested
/// inside an already-reported project root is ever walked, even if the
/// nested directories hold manifest files of their own.
pub proof fn lemma_project_root_reported_alone(tree: FileTree, id: int, visited: Set<u64>)
    requires
        0 <= id < tree.dirs@.len(),
        !visited.contains(tree.dirs@[id].canon),
        is_project_node(tree.dirs@[id]),
    ensures
        spec_walk(tree, id, visited).0 == seq![tree.dirs@[id].path],
{
}

/// Every reported path is the path of a project node of the tree.
pub proof fn lemma_walk_sound(tree: FileTree, id: int, subs: Seq<Subdir>, visited: Set<u64>)
    ensures
        forall|p: String| spec_walk(tree, id, visited).0.contains(p) ==> exists|n: int|
            0 <= n < tree.dirs@.len() && #[trigger] is_project_node(tree.dirs@[n])
                && tree.dirs@[n].path == p,
        forall|p: String| spec_walk_list(tree, subs, visited).0.contains(p) ==> exists|n: int|
            0 <= n < tree.dirs@.len() && #[trigger] is_project_node(tree.dirs@[n])
                && tree.dirs@[n].path == p,
    decreases unvisited_count(tree, visited), 2int, subs.len(),
{
    if 0 <= id < tree.dirs@.len() {
        let node = tree.dirs@[id];
        if !visited.contains(node.canon) {
            if is_project_node(node) {
                assert forall|p: String|
                    spec_walk(tree, id, visited).0.contains(p) implies exists|n: int|
                    0 <= n < tree.dirs@.len() && #[trigger] is_project_node(tree.dirs@[n])
                        && tree.dirs@[n].path == p by {
                    assert(spec_walk(tree, id, visited).0 == seq![node.path]);
                    assert(p == node.path);
                    assert(0 <= id < tree.dirs@.len() && is_project_node(tree.dirs@[id])
                        && tree.dirs@[id].path == p);
                }
            } else {
                lemma_unvisited_shrinks(tree, visited, id);
                lemma_walk_sound(tree, 0, node.subdirs@, visited.insert(node.canon));
                let rl = spec_walk_list(tree, node.subdirs@, visited.insert(node.canon)).0;
                assert forall|p: String|
                    spec_walk(tree, id, visited).0.contains(p) implies rl.contains(p) by {}
            }
        }
    }
    if subs.len() > 0 && is_skip_dir_name(subs[0].name@) {
        lemma_walk_sound(tree, 0, subs.drop_first(), visited);
        assert(spec_walk_list(tree, subs, visited) == spec_walk_list(
            tree,
            subs.drop_first(),
            visited,
        ));
    } else if subs.len() > 0 {
        lemma_walk_sound(tree, subs[0].id as int, Seq::empty(), visited);
        let (r1, vr) = spec_walk(tree, subs[0].id as int, visited);
        let v1 = visited.union(vr);
        vstd::set_lib::lemma_len_subset(
            tree_canons(tree).difference(v1),
            tree_canons(tree).difference(visited),
        );
        lemma_walk_sound(tree, 0, subs.drop_first(), v1);
        let (r2, v2) = spec_walk_list(tree, subs.drop_first(), v1);
        assert forall|p: String|
            spec_walk_list(tree, subs, visited).0.contains(p) implies exists|n: int|
            0 <= n < tree.dirs@.len() && #[trigger] is_project_node(tree.dirs@[n])
                && tree.dirs@[n].path == p by {
            assert((r1 + r2).contains(p));
            let n = choose|n: int| 0 <= n < (r1 + r2).len() && (r1 + r2)[n] == p;
            if n < r1.len() {
                assert(r1[n] == p);
                assert(spec_walk(tree, subs[0].id as int, visited).0.contains(p));
            } else {
                assert(r2[n - r1.len()] == p);
                assert(spec_walk_list(tree, subs.drop_first(), v1).0.contains(p));
            }
        }
    }
}

/// A tree without a single project node yields an empty project list.
pub proof fn lemma_no_projects_empty(tree: FileTree)
    requires
        forall|n: int| 0 <= n < tree.dirs@.len() ==> !is_project_node(#[trigger] tree.dirs@[n]),
    ensures
        spec_walk(tree, 0, Set::empty()).0 == Seq::<String>::empty(),
{
    lemma_walk_sound(tree, 0, Seq::empty(), Set::empty());
    let res = spec_walk(tree, 0, Set::empty()).0;
    if res.len() > 0 {
        assert(res.contains(res[0]));
    }
}

} // verus!
