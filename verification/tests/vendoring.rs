use std::collections::{BTreeMap, BTreeSet};

use dsh_shell::package::{node_version_or_fallback, read_manifest, read_node_version, Manifest};
use dsh_shell::resolve::resolve_dep;
use dsh_shell::search::Search;
use dsh_shell::vendor::{
    check_cli_built, endless_message, progress_line, summary_line, unresolved_message, Vendor, VendorAction,
    VendorEvent,
};

fn manifest(dependencies: &[&str]) -> Manifest {
    Manifest {
        name: None,
        version: None,
        dependencies: Some(dependencies.iter().map(|name| name.to_string()).collect()),
        optional_dependencies: None,
        peer_dependencies: None,
    }
}

/// Packages by number: the manifest's names, and what each name stands for.
struct World {
    names: BTreeMap<u64, Vec<&'static str>>,
    edges: BTreeMap<(u64, &'static str), u64>,
}

/// What node finds for a name from a place, and where: the nearest enclosing one.
fn look_up(copies: &[(u64, String)], place: &str, name: &str) -> Option<(u64, String)> {
    let at = |path: String| copies.iter().find(|(_, rel)| *rel == path).cloned();
    let mut dir = place;
    loop {
        if let Some(found) = at(format!("{dir}/node_modules/{name}")) {
            return Some(found);
        }
        match dir.rfind("/node_modules/") {
            Some(end) => dir = &dir[..end],
            None => return at(name.to_string()),
        }
    }
}

/// Every dependency of every copy is found from its place, at the top, below it or
/// on its branch.
fn check_lookups(world: &World, copies: &[(u64, String)]) {
    for (package, place) in copies {
        for ((from, name), to) in &world.edges {
            if from == package && world.names.get(from).is_some_and(|names| names.contains(name)) {
                let (found, at) = look_up(copies, place, name).unwrap();
                assert_eq!(found, *to, "{name} from {place}");
                let at_top = !at.contains("/node_modules/");
                let below = at == format!("{place}/node_modules/{name}");
                let on_the_branch = at == *place || place.starts_with(&format!("{at}/"));
                assert!(at_top || below || on_the_branch, "{name} from {place} at {at}");
            }
        }
    }
}

/// A world from lists of dependencies, each with the package it stands for.
fn world(packages: &[(u64, &[(&'static str, u64)])]) -> World {
    World {
        names: packages
            .iter()
            .map(|(package, deps)| (*package, deps.iter().map(|(name, _)| *name).collect()))
            .collect(),
        edges: packages
            .iter()
            .flat_map(|(package, deps)| deps.iter().map(|(name, to)| ((*package, *name), *to)))
            .collect(),
    }
}

/// Runs an assembly. Gives the copies, the packages whose manifest was read, and
/// whether it was completed.
fn assemble(world: &World, separator: &str) -> (Vec<(u64, String)>, Vec<u64>, bool) {
    let mut tree: BTreeSet<String> = BTreeSet::new();
    let mut copies = Vec::new();
    let mut read = Vec::new();
    let cli_names = world.names.get(&0).cloned().unwrap_or_default();
    let mut vendor = Vendor::start(0, &manifest(&cli_names), separator);
    for _ in 0..10_000 {
        let event = match vendor.action() {
            VendorAction::CheckTarget { rel } => VendorEvent::Target { taken: tree.contains(&rel) },
            VendorAction::Copy { package, rel } => {
                assert!(tree.insert(rel.clone()));
                copies.push((package, rel));
                VendorEvent::Copied
            }
            VendorAction::Resolve { dir, name } => VendorEvent::Resolved {
                package: world
                    .edges
                    .iter()
                    .find(|((from, wanted), _)| *from == dir && *wanted == name)
                    .map(|(_, to)| *to),
            },
            VendorAction::ReadManifest { dir } => {
                read.push(dir);
                let packages: BTreeSet<u64> = read.iter().copied().collect();
                assert_eq!(vendor.count(), packages.len());
                VendorEvent::Manifest { manifest: world.names.get(&dir).map(|names| manifest(names)) }
            }
            VendorAction::Done => {
                assert_eq!(vendor.spots(), copies.len());
                if separator == "/" {
                    check_lookups(world, &copies);
                }
                return (copies, read, true);
            }
            VendorAction::Unresolved => return (copies, read, false),
            VendorAction::Endless { rel } => {
                assert!(tree.contains(&rel));
                return (copies, read, false);
            }
        };
        vendor = vendor.step(event);
    }
    panic!("the assembly does not end");
}

fn placed(copies: &[(u64, String)]) -> Vec<(u64, &str)> {
    copies.iter().map(|(package, rel)| (*package, rel.as_str())).collect()
}

#[test]
fn closure_is_copied_breadth_first_with_conflicts_nested() {
    let world = World {
        names: BTreeMap::from([
            (0, vec!["a", "@s/b"]),
            (1, vec!["c", "a", "missing"]),
            (2, vec!["c", "@s/b"]),
            (3, vec!["a"]),
            (4, vec![]),
        ]),
        edges: BTreeMap::from([
            ((0, "a"), 1),
            ((0, "@s/b"), 2),
            ((1, "c"), 3),
            ((1, "a"), 1),
            ((2, "c"), 4),
            ((2, "@s/b"), 2),
            ((3, "a"), 1),
        ]),
    };
    let (copies, read, done) = assemble(&world, "/");
    assert!(done);
    assert_eq!(
        placed(&copies),
        vec![
            (0, "@deepseek-ai/dsh"),
            (1, "a"),
            (2, "@s/b"),
            (3, "c"),
            (4, "@s/b/node_modules/c"),
        ]
    );
    assert_eq!(read, vec![0, 1, 2, 3, 4]);
    let (copies, _, _) = assemble(&world, "\\");
    assert_eq!(copies[2].1, "@s\\b");
    assert_eq!(copies[4].1, "@s\\b/node_modules/c");
}

#[test]
fn cycle_of_dependencies_comes_to_an_end() {
    let world = World {
        names: BTreeMap::from([(0, vec!["a"]), (1, vec!["b", "dsh"]), (2, vec!["a"])]),
        edges: BTreeMap::from([((0, "a"), 1), ((1, "b"), 2), ((1, "dsh"), 0), ((2, "a"), 1)]),
    };
    let (copies, read, done) = assemble(&world, "/");
    assert!(done);
    assert_eq!(read, vec![0, 1, 2, 0]);
    assert_eq!(
        placed(&copies),
        vec![(0, "@deepseek-ai/dsh"), (1, "a"), (2, "b"), (0, "dsh")]
    );
}

#[test]
fn second_version_is_nested_below_each_place_that_needs_it() {
    // x and y need the second p, which needs the second d.
    let world = world(&[
        (0, &[("d", 1), ("p", 2), ("x", 3), ("y", 4)]),
        (1, &[]),
        (2, &[]),
        (3, &[("p", 5)]),
        (4, &[("p", 5)]),
        (5, &[("d", 6)]),
        (6, &[]),
    ]);
    let (copies, _, done) = assemble(&world, "/");
    assert!(done);
    assert_eq!(
        placed(&copies)[5..],
        [
            (5, "x/node_modules/p"),
            (5, "y/node_modules/p"),
            (6, "x/node_modules/p/node_modules/d"),
            (6, "y/node_modules/p/node_modules/d"),
        ]
    );
}

#[test]
fn nested_sibling_does_not_hide_the_right_version() {
    // x has a d and a p of its own, and that p needs the d at the top.
    let world = world(&[
        (0, &[("d", 1), ("p", 2), ("x", 3)]),
        (1, &[]),
        (2, &[]),
        (3, &[("d", 4), ("p", 5)]),
        (4, &[]),
        (5, &[("d", 1)]),
    ]);
    let (copies, _, done) = assemble(&world, "/");
    assert!(done);
    assert_eq!(
        placed(&copies)[4..],
        [
            (4, "x/node_modules/d"),
            (5, "x/node_modules/p"),
            (1, "x/node_modules/p/node_modules/d"),
        ]
    );
}

#[test]
fn nested_sibling_does_not_serve_another_package() {
    // b needs the second a and the second c, and that c needs the second a too.
    let world = world(&[
        (0, &[("a", 1), ("b", 3), ("c", 4)]),
        (1, &[]),
        (3, &[("a", 2), ("c", 5)]),
        (2, &[]),
        (4, &[]),
        (5, &[("a", 2)]),
    ]);
    let (copies, _, done) = assemble(&world, "/");
    assert!(done);
    assert_eq!(
        placed(&copies)[4..],
        [
            (2, "b/node_modules/a"),
            (5, "b/node_modules/c"),
            (2, "b/node_modules/c/node_modules/a"),
        ]
    );
}

#[test]
fn progress_is_reported_at_each_hundredth_package() {
    let names: Vec<String> = (1..=250).map(|i| format!("n{i}")).collect();
    let cli = Manifest { dependencies: Some(names), ..manifest(&[]) };
    let mut vendor = Vendor::start(0, &cli, "/");
    let mut lines = Vec::new();
    loop {
        lines.extend(vendor.progress());
        let event = match vendor.action() {
            VendorAction::CheckTarget { .. } => VendorEvent::Target { taken: false },
            VendorAction::Copy { .. } => VendorEvent::Copied,
            // The names from the 200th on stand for one package.
            VendorAction::Resolve { name, .. } => {
                let number: u64 = name[1..].parse().unwrap();
                VendorEvent::Resolved { package: Some(number.min(200)) }
            }
            VendorAction::ReadManifest { dir: 0 } => {
                let names = (1..=250).map(|i| format!("n{i}")).collect();
                let manifest = Manifest { dependencies: Some(names), ..manifest(&[]) };
                VendorEvent::Manifest { manifest: Some(manifest) }
            }
            VendorAction::ReadManifest { .. } => VendorEvent::Manifest { manifest: None },
            _ => break,
        };
        vendor = vendor.step(event);
    }
    assert_eq!((vendor.count(), vendor.spots()), (201, 251));
    assert_eq!(
        lines,
        vec![
            "[build-runtime] 100 packages processed, 251 placed",
            "[build-runtime] 200 packages processed, 251 placed",
        ]
    );
}

#[test]
fn nested_cycle_comes_to_an_end() {
    // The second p needs the second q, which needs the second p.
    let cycle = world(&[
        (0, &[("p", 1), ("q", 2), ("x", 3)]),
        (1, &[("q", 2)]),
        (2, &[("p", 1)]),
        (3, &[("p", 4)]),
        (4, &[("q", 5)]),
        (5, &[("p", 4)]),
    ]);
    let (copies, _, done) = assemble(&cycle, "/");
    assert!(done);
    assert_eq!(
        placed(&copies)[4..],
        [(4, "x/node_modules/p"), (5, "x/node_modules/p/node_modules/q")]
    );
}

#[test]
fn package_may_be_needed_again_below_itself() {
    // Below the second p lies a third one, and what that needs needs the second.
    let again = world(&[
        (0, &[("p", 1), ("q", 2), ("r", 3), ("x", 4)]),
        (1, &[]),
        (2, &[]),
        (3, &[]),
        (4, &[("p", 5)]),
        (5, &[("q", 6)]),
        (6, &[("p", 7)]),
        (7, &[("r", 8)]),
        (8, &[("p", 5)]),
    ]);
    let (copies, _, done) = assemble(&again, "/");
    assert!(done);
    assert_eq!(copies.last().map(|(package, _)| *package), Some(5));
}

#[test]
fn endless_nesting_is_refused() {
    // a1 needs b2, b2 needs a2, a2 needs b1, b1 needs a1.
    let endless = world(&[
        (0, &[("a", 1), ("b", 2)]),
        (1, &[("b", 12)]),
        (2, &[("a", 1)]),
        (12, &[("a", 11)]),
        (11, &[("b", 2)]),
    ]);
    let (copies, _, done) = assemble(&endless, "/");
    assert!(!done);
    assert_eq!(
        placed(&copies)[..5],
        [
            (0, "@deepseek-ai/dsh"),
            (1, "a"),
            (2, "b"),
            (12, "a/node_modules/b"),
            (11, "a/node_modules/b/node_modules/a"),
        ]
    );
    assert_eq!(
        endless_message("a/node_modules/b"),
        "依赖版本互相嵌套，无法物化成有限的目录树（a/node_modules/b）"
    );
}

#[test]
fn other_package_of_the_own_name_is_nested() {
    let world = world(&[(0, &[("@deepseek-ai/dsh", 1), ("x", 2)]), (1, &[]), (2, &[("@deepseek-ai/dsh", 0)])]);
    let (copies, _, done) = assemble(&world, "/");
    assert!(done);
    assert_eq!(
        placed(&copies),
        vec![
            (0, "@deepseek-ai/dsh"),
            (1, "@deepseek-ai/dsh/node_modules/@deepseek-ai/dsh"),
            (2, "x"),
        ]
    );
    let (copies, _, _) = assemble(&world, "\\");
    assert_eq!(copies[0].1, "@deepseek-ai/dsh");
    assert_eq!(copies[1].1, "@deepseek-ai/dsh/node_modules/@deepseek-ai\\dsh");
}

#[test]
fn package_under_two_names_is_at_both() {
    let world = World {
        names: BTreeMap::from([(0, vec!["self", "x"]), (1, vec!["self"]), (2, vec![])]),
        edges: BTreeMap::from([((0, "self"), 0), ((0, "x"), 1), ((1, "self"), 2)]),
    };
    let (copies, _, _) = assemble(&world, "/");
    assert_eq!(
        placed(&copies),
        vec![
            (0, "@deepseek-ai/dsh"),
            (0, "self"),
            (1, "x"),
            (2, "x/node_modules/self"),
        ]
    );
}

#[test]
fn package_that_cannot_be_read_has_no_dependencies() {
    let world = World {
        names: BTreeMap::from([(0, vec!["a", "b"]), (2, vec![])]),
        edges: BTreeMap::from([((0, "a"), 1), ((0, "b"), 2), ((1, "c"), 3)]),
    };
    let (copies, read, done) = assemble(&world, "/");
    assert!(done);
    assert_eq!(read, vec![0, 1, 2]);
    assert_eq!(placed(&copies), vec![(0, "@deepseek-ai/dsh"), (1, "a"), (2, "b")]);
}

#[test]
fn first_dependency_has_to_be_installed() {
    let world = World {
        names: BTreeMap::from([(0, vec!["a", "b"])]),
        edges: BTreeMap::from([((0, "b"), 2)]),
    };
    let (copies, read, done) = assemble(&world, "/");
    assert!(!done);
    assert!(read.is_empty());
    assert_eq!(placed(&copies), vec![(0, "@deepseek-ai/dsh")]);
    assert_eq!(
        unresolved_message(),
        "无法从主仓库 workspace 解析 CLI 依赖；请确认在主仓库执行过 `pnpm install`"
    );
}

#[test]
fn package_without_dependencies_is_copied_alone() {
    let world = World { names: BTreeMap::from([(0, vec![])]), edges: BTreeMap::new() };
    let (copies, read, done) = assemble(&world, "/");
    assert!(done);
    assert_eq!(read, vec![0]);
    assert_eq!(placed(&copies), vec![(0, "@deepseek-ai/dsh")]);
}

#[test]
fn event_that_answers_nothing_is_ignored() {
    let vendor = Vendor::start(7, &manifest(&[]), "/");
    let vendor = vendor.step(VendorEvent::Copied);
    let vendor = vendor.step(VendorEvent::Resolved { package: Some(1) });
    assert!(matches!(vendor.action(), VendorAction::CheckTarget { rel } if rel == "@deepseek-ai/dsh"));
    let vendor = vendor.step(VendorEvent::Target { taken: true });
    assert!(matches!(vendor.action(), VendorAction::ReadManifest { dir: 7 }));
    assert_eq!((vendor.count(), vendor.spots()), (1, 0));
}

#[test]
fn manifest_is_read_from_json() {
    let manifest = read_manifest(
        r#"{"name":"@a/b","version":"1.2","dependencies":{"z":"1","a":"2"},
            "optionalDependencies":{"o":"*"},"peerDependencies":{"p":"^3"}}"#,
    )
    .unwrap();
    assert_eq!(manifest.name.as_deref(), Some("@a/b"));
    assert_eq!(manifest.version.as_deref(), Some("1.2"));
    assert_eq!(manifest.dependency_names(), vec!["a", "z", "o", "p"]);
    assert_eq!(manifest.first_dependency().as_deref(), Some("a"));
}

#[test]
fn manifest_members_of_another_kind_are_left_out() {
    let manifest =
        read_manifest(r#"{"name":3,"version":null,"dependencies":["a"],"peerDependencies":{}}"#)
            .unwrap();
    assert!(manifest.name.is_none());
    assert!(manifest.version.is_none());
    assert!(manifest.dependencies.is_none());
    assert!(manifest.optional_dependencies.is_none());
    assert_eq!(manifest.peer_dependencies, Some(vec![]));
    assert!(manifest.dependency_names().is_empty());
    assert!(manifest.first_dependency().is_none());
    let list = read_manifest("[1, 2]").unwrap();
    assert!(list.dependencies.is_none());
}

#[test]
fn text_that_is_no_json_is_rejected_with_the_message() {
    let expected = serde_json::from_str::<serde_json::Value>("{oops").unwrap_err().to_string();
    assert_eq!(read_manifest("{oops").err(), Some(expected));
}

#[test]
fn node_version_is_the_configured_one_or_the_fallback() {
    assert_eq!(read_node_version(Some(r#"{"nodeVersion":"22.1.0"}"#)), "22.1.0");
    assert_eq!(read_node_version(Some(r#"{"nodeVersion":22}"#)), "24.19.0");
    assert_eq!(read_node_version(Some(r#"{"port":1}"#)), "24.19.0");
    assert_eq!(read_node_version(Some("broken")), "24.19.0");
    assert_eq!(read_node_version(None), "24.19.0");
    assert_eq!(node_version_or_fallback(Some("1".to_string())), "1");
    assert_eq!(node_version_or_fallback(None), "24.19.0");
}

fn search(present: &[bool], repo_level: Option<usize>) -> (Search, usize) {
    let mut state = resolve_dep(present.len(), repo_level);
    let mut looked = 0;
    while let Search::Trying { index, .. } = state {
        looked += 1;
        state = state.step(present[index]);
    }
    (state, looked)
}

#[test]
fn nearest_installed_level_is_found() {
    assert_eq!(search(&[false, true, true], None), (Search::Found { index: 1 }, 2));
    assert_eq!(search(&[true], Some(0)), (Search::Found { index: 0 }, 1));
    assert_eq!(search(&[false, false, true], Some(2)), (Search::Found { index: 2 }, 3));
}

#[test]
fn search_ends_at_the_repository_root() {
    assert_eq!(search(&[false, false, true], Some(1)), (Search::Exhausted, 2));
    assert_eq!(search(&[false, false], None), (Search::Exhausted, 2));
    assert_eq!(search(&[false, false], Some(9)), (Search::Exhausted, 2));
    assert_eq!(search(&[], None), (Search::Exhausted, 0));
    assert_eq!(Search::Exhausted.step(true), Search::Exhausted);
}

#[test]
fn lines_and_messages() {
    assert_eq!(
        progress_line(200, 57).as_deref(),
        Some("[build-runtime] 200 packages processed, 57 placed")
    );
    assert_eq!(progress_line(199, 57), None);
    assert_eq!(check_cli_built(true, "x"), Ok(()));
    assert_eq!(
        check_cli_built(false, "/r/bin.js"),
        Err("主仓库 CLI 未构建（缺 /r/bin.js）；请先在主仓库执行 `pnpm install && pnpm run build`".to_string())
    );
    let mut cli = manifest(&[]);
    assert_eq!(
        summary_line(&cli, 12),
        "[build-runtime] 物化完成：dsh@? 依赖闭包 12 个包 → resources/vendor/dsh"
    );
    cli.name = Some("@deepseek-ai/dsh".to_string());
    cli.version = Some("0.3.0".to_string());
    assert_eq!(
        summary_line(&cli, 0),
        "[build-runtime] 物化完成：@deepseek-ai/dsh@0.3.0 依赖闭包 0 个包 → resources/vendor/dsh"
    );
}
