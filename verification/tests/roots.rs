use rustowl::backend::Backend;
use rustowl::command::Platform;
use rustowl::metadata::{count_dependencies, find_package_name, Metadata, Package, Resolve};
use rustowl::path::{FilePath, Part};
use rustowl::roots::{Root, RootSearch, RootTable, SearchStep};

fn path(text: &str) -> FilePath {
    FilePath::parse(text)
}

fn package(id: &str, name: &str, manifest: &str) -> Package {
    Package {
        id: id.to_string(),
        name: name.to_string(),
        manifest_path: path(manifest),
    }
}

fn metadata(root: &str, target: &str, resolve: Option<Resolve>) -> Metadata {
    Metadata {
        packages: vec![
            package("dep 1.0", "dep", "/registry/dep/Cargo.toml"),
            package("app 0.1", "app", "/work/app/Cargo.toml"),
            package("app 0.1", "shadowed", "/work/app/Cargo.toml"),
        ],
        resolve,
        workspace_root: path(root),
        target_directory: path(target),
    }
}

fn resolved(nodes: usize, root: Option<&str>) -> Option<Resolve> {
    Some(Resolve {
        node_count: nodes,
        root: root.map(|id| id.to_string()),
    })
}

fn query(step: SearchStep) -> RootSearch {
    match step {
        SearchStep::Query(search) => search,
        _ => panic!("the search has ended"),
    }
}

#[test]
fn root_package_is_the_root_of_the_graph() {
    let known = metadata("/work/app", "/work/app/target", resolved(7, Some("app 0.1")));
    assert_eq!(known.root_package().unwrap().name, "app");
    assert_eq!(find_package_name(Some(&known)), Some("app".to_string()));
    assert_eq!(count_dependencies(Some(&known)), 7);
    let dep = metadata("/work/app", "/t", resolved(1, Some("dep 1.0")));
    assert_eq!(find_package_name(Some(&dep)), Some("dep".to_string()));
}

#[test]
fn virtual_workspaces_have_no_root_package() {
    let known = metadata("/work/app", "/work/app/target", resolved(7, None));
    assert!(known.root_package().is_none());
    let unknown = metadata("/work/app", "/t", resolved(7, Some("gone 1.0")));
    assert!(unknown.root_package().is_none());
}

#[test]
fn root_package_without_a_graph_lies_in_the_root_directory() {
    let known = metadata("/work/app", "/work/app/target", None);
    assert_eq!(known.root_package().unwrap().name, "app");
    assert_eq!(count_dependencies(Some(&known)), 0);
    let elsewhere = metadata("/work", "/work/target", None);
    assert!(elsewhere.root_package().is_none());
}

#[test]
fn nothing_is_known_without_metadata() {
    assert_eq!(count_dependencies(None), 0);
    assert_eq!(find_package_name(None), None);
}

#[test]
fn a_root_is_registered_once() {
    let mut table = RootTable::new();
    assert!(!table.contains(&path("/work/app")));
    table.register(Root { path: path("/work/app"), target: path("/a") });
    table.register(Root { path: path("/work/lib"), target: path("/b") });
    table.register(Root { path: path("/work//app/"), target: path("/c") });
    assert!(table.contains(&path("/work/app")));
    let roots = table.to_vec();
    assert_eq!(roots.len(), 2);
    assert!(roots[0].path.same(&path("/work/app")));
    assert!(roots[0].target.same(&path("/a")));
    assert!(roots[1].path.same(&path("/work/lib")));
}

#[test]
fn a_file_outside_all_workspaces_is_not_covered() {
    let mut backend: Backend<u32> = Backend::new();
    assert!(matches!(
        backend.set_roots(&path("/work/app/main.rs"), false),
        SearchStep::NotCovered
    ));
    backend.set_workspace(path("/work/apple"));
    assert!(matches!(
        backend.set_roots(&path("/work/app/main.rs"), false),
        SearchStep::NotCovered
    ));
}

#[test]
fn the_search_asks_once_for_each_covering_workspace() {
    let mut backend: Backend<u32> = Backend::new();
    backend.set_workspace(path("/work"));
    backend.set_workspace(path("/elsewhere"));
    backend.set_workspace(path("/work/app"));
    let search = query(backend.set_roots(&path("/work/app/main.rs"), false));
    assert!(search.dir.same(&path("/work/app")));
    assert_eq!(search.remaining, 2);
    let search = query(search.answer(None));
    assert!(search.dir.same(&path("/work/app")));
    assert_eq!(search.remaining, 1);
    assert!(matches!(search.answer(None), SearchStep::NotCovered));
}

#[test]
fn the_first_answer_ends_the_search() {
    let mut backend: Backend<u32> = Backend::new();
    backend.set_workspace(path("/work"));
    backend.set_workspace(path("/work/app"));
    let search = query(backend.set_roots(&path("/work/app"), true));
    assert!(search.dir.same(&path("/work/app")));
    let search = query(search.answer(None));
    match search.answer(Some(metadata("/work/app", "/t", None))) {
        SearchStep::Found(found) => assert!(found.workspace_root.same(&path("/work/app"))),
        _ => panic!("not found"),
    }
}

#[test]
fn a_file_covers_the_directory_it_lies_in() {
    let mut backend: Backend<u32> = Backend::new();
    backend.set_workspace(path("/work/app/main.rs"));
    assert!(matches!(
        backend.set_roots(&path("/work/app/main.rs"), false),
        SearchStep::NotCovered
    ));
}

#[test]
fn registering_tells_the_directory_to_create() {
    let mut backend: Backend<u32> = Backend::new();
    let first = metadata("/work/app", "/work/app/target", None);
    let target = backend.root_target(&first).unwrap();
    assert!(target.same(&path("/work/app/target/owl")));
    backend.register_root(&first);
    assert!(backend.root_target(&first).is_none());
    let moved = metadata("/work/app", "/elsewhere", None);
    assert!(backend.root_target(&moved).is_none());
    backend.register_root(&moved);
    let start = backend.analyze_with_options(Platform::Unix);
    assert_eq!(start.roots.len(), 1);
    assert!(start.roots[0].path.same(&path("/work/app")));
    assert!(start.roots[0].target.same(&path("/work/app/target/owl")));
}

#[test]
fn a_search_tells_whether_the_root_is_registered() {
    let mut backend: Backend<u32> = Backend::new();
    assert!(!backend.end_search(&SearchStep::NotCovered));
    assert!(backend.analyze_with_options(Platform::Unix).roots.is_empty());
    let found = SearchStep::Found(metadata("/work/app", "/work/app/target", None));
    assert!(backend.end_search(&found));
    assert!(backend.end_search(&found));
    let roots = backend.analyze_with_options(Platform::Unix).roots;
    assert_eq!(roots.len(), 1);
    assert!(roots[0].path.same(&path("/work/app")));
}

#[test]
fn whatever_happens_roots_are_distinct_and_targets_are_named_alike() {
    let mut backend: Backend<u32> = Backend::new();
    backend.set_workspace(path("/work"));
    let mut known = 0;
    for (root, target) in [
        ("/work/a", "/work/a/target"),
        ("/work/b", "/shared"),
        ("/work//a", "/elsewhere"),
        ("/work/c", "/shared"),
    ] {
        backend.started(Some(7));
        backend.register_root(&metadata(root, target, None));
        backend.did_change();
        backend.finished(Some(7));
        let roots = backend.analyze_with_options(Platform::Unix).roots;
        assert!(known <= roots.len() && roots.len() <= known + 1);
        known = roots.len();
        for (i, one) in roots.iter().enumerate() {
            let parent = one.target.parent().unwrap();
            assert!(one.target.starts_with(&parent));
            assert!(matches!(
                one.target.parts().last(),
                Some(Part::Normal(name)) if name.as_slice() == b"owl"
            ));
            assert!(roots[..i].iter().all(|other| !other.path.same(&one.path)));
        }
    }
    assert_eq!(known, 3);
}
