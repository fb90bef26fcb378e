use dsh_shell::archive::{
    archive_name, copy_entry, entry_target, pack_entry, EntryKind, TreeAction,
};
use dsh_shell::paths::Platform;
use dsh_shell::prune::{useless_name, PruneAction, PruneDir, NODE_TYPES};

fn parts(path: &[&str]) -> Vec<String> {
    path.iter().map(|part| part.to_string()).collect()
}

#[test]
fn package_is_copied_without_links_and_dependencies() {
    assert_eq!(copy_entry("lib", EntryKind::Directory), TreeAction::Descend);
    assert_eq!(copy_entry("node_modules", EntryKind::Directory), TreeAction::Skip);
    assert_eq!(copy_entry("node_modules", EntryKind::File), TreeAction::Take);
    assert_eq!(copy_entry("a.js", EntryKind::File), TreeAction::Take);
    assert_eq!(copy_entry("a.js", EntryKind::Symlink), TreeAction::Skip);
    assert_eq!(copy_entry("pipe", EntryKind::Other), TreeAction::Skip);
}

#[test]
fn tree_is_packed_without_links() {
    assert_eq!(pack_entry(EntryKind::Directory), TreeAction::Descend);
    assert_eq!(pack_entry(EntryKind::File), TreeAction::Take);
    assert_eq!(pack_entry(EntryKind::Symlink), TreeAction::Skip);
    assert_eq!(pack_entry(EntryKind::Other), TreeAction::Skip);
    assert_eq!(archive_name(&parts(&["node_modules", "a", "x.js"])), "node_modules/a/x.js");
    assert_eq!(archive_name(&parts(&["x.js"])), "x.js");
    assert_eq!(archive_name(&parts(&[])), "");
}

#[test]
fn entries_are_unpacked_below_the_target() {
    for platform in [Platform::Windows, Platform::Macos, Platform::Other] {
        let target = |name: &str| entry_target(platform, name, false);
        assert_eq!(target("node/bin/x").as_deref(), Some("node/bin/x"));
        assert_eq!(target("node\\bin\\x").as_deref(), Some("node/bin/x"));
        assert_eq!(target("a/./b").as_deref(), Some("a/./b"));
        assert_eq!(target("a/..b/c..").as_deref(), Some("a/..b/c.."));
        assert_eq!(target("a/C:/x").as_deref(), Some("a/C:/x"));
        assert_eq!(target("1:/x").as_deref(), Some("1:/x"));
    }
}

#[test]
fn entries_that_lead_out_are_left_out() {
    for platform in [Platform::Windows, Platform::Macos, Platform::Other] {
        for name in ["../x", "a/../x", "a/..", "..", "..\\x", "/etc/passwd", "\\x", "a//b", "a/", ""] {
            assert_eq!(entry_target(platform, name, false), None);
        }
        assert_eq!(entry_target(platform, "node/bin", true), None);
    }
}

#[test]
fn drives_are_left_out_on_windows() {
    for name in ["C:/x", "C:x", "c:\\x", "z:", "C:..x"] {
        assert_eq!(entry_target(Platform::Windows, name, false), None);
        assert!(entry_target(Platform::Other, name, false).is_some());
    }
}

#[test]
fn useless_files_are_removed() {
    let mut dir = PruneDir::new(&parts(&["vendor", "dsh"]));
    for name in [
        "a.pdb", "a.js.map", "a.ts", "a.d.ts", "a.tsx", "a.mts", "a.cts", "README.md", "README.MD",
        "x.tsbuildinfo", "X.TsBuildInfo", ".map",
    ] {
        assert_eq!(dir.entry(name, EntryKind::File), PruneAction::RemoveFile);
        assert_eq!(dir.entry(name, EntryKind::Symlink), PruneAction::Keep);
        assert_eq!(dir.entry(name, EntryKind::Directory), PruneAction::Descend);
    }
    assert!(dir.doomed().is_empty());
}

#[test]
fn code_and_data_are_kept() {
    let mut dir = PruneDir::new(&parts(&["vendor", "dsh"]));
    for name in ["index.js", "INDEX.JS", "a.mjs", "a.cjs", "package.json", "a.node", "LICENSE", "ts", "map.js"] {
        assert_eq!(dir.entry(name, EntryKind::File), PruneAction::Keep);
    }
    assert!(!useless_name("a.js"));
    assert!(useless_name("a.md"));
    assert!(!useless_name("a.MD"));
}

#[test]
fn build_directories_of_node_pty_are_removed_at_the_end() {
    let mut dir = PruneDir::new(&parts(&["v", "node_modules", "node-pty"]));
    assert_eq!(dir.entry("third_party", EntryKind::Directory), PruneAction::RemoveLater);
    assert_eq!(dir.entry("lib", EntryKind::Directory), PruneAction::Descend);
    assert_eq!(dir.entry("build", EntryKind::Directory), PruneAction::RemoveLater);
    assert_eq!(dir.entry("build", EntryKind::File), PruneAction::Keep);
    assert_eq!(dir.doomed(), vec!["third_party", "build"]);
}

#[test]
fn build_directories_of_other_packages_are_kept() {
    for path in [vec!["node-pty"], vec!["x", "node-pty"], vec!["node_modules", "node-pty", "y"], vec![]] {
        let mut dir = PruneDir::new(&parts(&path));
        assert_eq!(dir.entry("build", EntryKind::Directory), PruneAction::Descend);
        assert_eq!(dir.entry("@types", EntryKind::Directory), PruneAction::RemoveNodeTypes);
        assert!(dir.doomed().is_empty());
    }
}

/// The files of a small tree. A path that ends with `@` is a link.
const FILES: [&str; 13] = [
    "index.js",
    "index.d.ts",
    "link@",
    "build/a.js",
    "node_modules/node-pty/build/a.js",
    "node_modules/node-pty/third_party/x/a.js",
    "node_modules/node-pty/lib/a.js",
    "node_modules/@types/node/a.js",
    "node_modules/@types/node/sub/a.d.ts",
    "node_modules/@types/react/a.d.ts",
    "node_modules/@types/node.js",
    "lib/node_modules",
    "lib/README.md",
];

/// The entries of a directory of that tree, each once.
fn entries(dir: &[String]) -> Vec<(String, EntryKind)> {
    let mut found: Vec<(String, EntryKind)> = Vec::new();
    for file in FILES {
        let path = parts(&file.split('/').collect::<Vec<_>>());
        if path.len() <= dir.len() || path[..dir.len()] != *dir {
            continue;
        }
        let name = path[dir.len()].clone();
        let kind = if path.len() > dir.len() + 1 {
            EntryKind::Directory
        } else if name.ends_with('@') {
            EntryKind::Symlink
        } else {
            EntryKind::File
        };
        if !found.contains(&(name.clone(), kind)) {
            found.push((name, kind));
        }
    }
    found
}

/// The files that a walk takes.
fn taken(dir: &[String], decide: fn(&str, EntryKind) -> TreeAction) -> Vec<String> {
    let mut files = Vec::new();
    for (name, kind) in entries(dir) {
        let path = [dir, &[name.clone()]].concat();
        match decide(&name, kind) {
            TreeAction::Descend => files.extend(taken(&path, decide)),
            TreeAction::Take => files.push(archive_name(&path)),
            TreeAction::Skip => {}
        }
    }
    files
}

/// The files and directories that the pruning removes.
fn removed(base: &[String], dir: &[String]) -> Vec<String> {
    let mut paths = Vec::new();
    let mut prune = PruneDir::new(&[base, dir].concat());
    for (name, kind) in entries(dir) {
        let path = [dir, &[name.clone()]].concat();
        match prune.entry(&name, kind) {
            PruneAction::Descend => paths.extend(removed(base, &path)),
            PruneAction::RemoveFile => paths.push(archive_name(&path)),
            PruneAction::RemoveNodeTypes => {
                paths.push(archive_name(&[path, vec![NODE_TYPES.to_string()]].concat()));
            }
            PruneAction::RemoveLater | PruneAction::Keep => {}
        }
    }
    for name in prune.doomed() {
        paths.push(archive_name(&[dir, &[name]].concat()));
    }
    paths
}

#[test]
fn copy_of_a_tree_has_all_files_outside_of_node_modules() {
    assert_eq!(
        taken(&[], copy_entry),
        vec!["index.js", "index.d.ts", "build/a.js", "lib/node_modules", "lib/README.md"]
    );
}

#[test]
fn archive_of_a_tree_has_all_files() {
    let files: Vec<&str> = FILES.into_iter().filter(|file| !file.ends_with('@')).collect();
    assert_eq!(taken(&[], |_, kind| pack_entry(kind)), files);
}

#[test]
fn pruning_of_a_tree_removes_what_is_dispensable() {
    let mut paths = removed(&parts(&["resources", "vendor"]), &[]);
    paths.sort();
    assert_eq!(
        paths,
        vec![
            "index.d.ts",
            "lib/README.md",
            "node_modules/@types/node",
            "node_modules/node-pty/build",
            "node_modules/node-pty/third_party",
        ]
    );
}

#[test]
fn pruned_tree_may_itself_be_node_pty() {
    let paths = removed(&parts(&["node_modules", "node-pty"]), &[]);
    assert!(paths.contains(&"build".to_string()));
}
