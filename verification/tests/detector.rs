use license_checkr::detector::{detect_ecosystems, find_workspace_projects, has_dotnet_project_file,
    DirNode, FileTree, Subdir};
use license_checkr::models::Ecosystem;

fn strings(names: &[&str]) -> Vec<String> {
    names.iter().map(|s| s.to_string()).collect()
}

fn node(path: &str, canon: u64, files: &[&str], subs: &[(&str, usize)]) -> DirNode {
    DirNode {
        path: path.to_string(),
        canon,
        files: strings(files),
        subdirs: subs
            .iter()
            .map(|(n, i)| Subdir { name: n.to_string(), id: *i })
            .collect(),
    }
}

#[test]
fn test_detect_single_ecosystem() {
    let entries = strings(&["Cargo.toml", "src", "README.md"]);
    assert_eq!(detect_ecosystems(&entries), vec![Ecosystem::Rust]);
}

#[test]
fn test_detect_polyglot_directory() {
    let entries = strings(&["Cargo.lock", "package.json", "requirements.txt"]);
    assert_eq!(
        detect_ecosystems(&entries),
        vec![Ecosystem::Rust, Ecosystem::Python, Ecosystem::Node]
    );
}

#[test]
fn test_detect_dotnet_by_project_file() {
    let entries = strings(&["App.csproj", "Program.cs"]);
    assert!(has_dotnet_project_file(&entries));
    assert_eq!(detect_ecosystems(&entries), vec![Ecosystem::DotNet]);
}

#[test]
fn test_detect_nothing() {
    let entries = strings(&["README.md", "LICENSE"]);
    assert!(detect_ecosystems(&entries).is_empty());
}

#[test]
fn test_finds_root_project() {
    let tree = FileTree { dirs: vec![node("root", 1, &["Cargo.toml"], &[])] };
    let projects = find_workspace_projects(&tree);
    assert_eq!(projects.len(), 1);
    assert_eq!(projects[0], "root");
}

#[test]
fn test_finds_sub_projects() {
    let tree = FileTree {
        dirs: vec![
            node("root", 1, &[], &[("backend", 1), ("frontend", 2)]),
            node("root/backend", 2, &["Cargo.toml"], &[]),
            node("root/frontend", 3, &["package.json"], &[]),
        ],
    };
    let projects = find_workspace_projects(&tree);
    assert_eq!(projects.len(), 2);
}

#[test]
fn test_does_not_recurse_into_sub_project() {
    let tree = FileTree {
        dirs: vec![
            node("root", 1, &[], &[("sub", 1)]),
            node("root/sub", 2, &["Cargo.toml"], &[("nested", 2)]),
            node("root/sub/nested", 3, &["package.json"], &[]),
        ],
    };
    let projects = find_workspace_projects(&tree);
    assert_eq!(projects.len(), 1);
    assert_eq!(projects[0], "root/sub");
}

#[test]
fn test_skips_node_modules() {
    let tree = FileTree {
        dirs: vec![
            node("root", 1, &[], &[("node_modules", 1)]),
            node("root/node_modules", 2, &[], &[("some-pkg", 2)]),
            node("root/node_modules/some-pkg", 3, &["package.json"], &[]),
        ],
    };
    let projects = find_workspace_projects(&tree);
    assert!(projects.is_empty());
}

#[test]
fn test_skips_target_dir() {
    let tree = FileTree {
        dirs: vec![
            node("root", 1, &[], &[("target", 1)]),
            node("root/target", 2, &[], &[("debug", 2)]),
            node("root/target/debug", 3, &["Cargo.toml"], &[]),
        ],
    };
    let projects = find_workspace_projects(&tree);
    assert!(projects.is_empty());
}

#[test]
fn test_empty_dir_returns_empty() {
    let tree = FileTree { dirs: vec![node("root", 1, &[], &[])] };
    let projects = find_workspace_projects(&tree);
    assert!(projects.is_empty());
}

#[test]
fn test_results_are_sorted() {
    let tree = FileTree {
        dirs: vec![
            node("root", 1, &[], &[("zz", 1), ("aa", 2), ("mm", 3)]),
            node("root/zz", 2, &["Cargo.toml"], &[]),
            node("root/aa", 3, &["Cargo.toml"], &[]),
            node("root/mm", 4, &["Cargo.toml"], &[]),
        ],
    };
    let projects = find_workspace_projects(&tree);
    assert_eq!(projects, vec!["root/aa", "root/mm", "root/zz"]);
}

#[test]
fn test_symlink_cycle_terminates_empty() {
    // two directories symlinked to each other, no manifests anywhere:
    // the canonical identities break the cycle and nothing is found
    let tree = FileTree {
        dirs: vec![
            node("root", 1, &[], &[("link", 1)]),
            node("root/link", 2, &[], &[("back", 0)]),
        ],
    };
    let projects = find_workspace_projects(&tree);
    assert!(projects.is_empty());
}

#[test]
fn test_symlink_cycle_with_project() {
    // a cycle above a genuine project still reports the project once
    let tree = FileTree {
        dirs: vec![
            node("root", 1, &[], &[("loop", 1)]),
            node("root/loop", 2, &[], &[("again", 0), ("app", 2)]),
            node("root/loop/app", 3, &["pyproject.toml"], &[]),
        ],
    };
    let projects = find_workspace_projects(&tree);
    assert_eq!(projects, vec!["root/loop/app"]);
}
