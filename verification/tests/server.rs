use rustowl::backend::{
    Backend, HealthWatch, InitializeParams, Job, ServerCapabilities, SyncKind, WatchStep,
    WindowCapabilities,
};
use rustowl::command::{Compiler, Tools};
use rustowl::path::FilePath;
use rustowl::roots::{Root, SearchStep};
use std::path::PathBuf;
use tower_lsp::lsp_types::Url;

fn path(text: &str) -> FilePath {
    FilePath::parse(text)
}

fn uri(text: &str) -> Url {
    Url::parse(text).unwrap()
}

fn params(folders: Option<Vec<Url>>, window: Option<WindowCapabilities>) -> InitializeParams {
    InitializeParams { workspace_folders: folders, window, process_id: Some(42) }
}

fn window(work_done_progress: Option<bool>) -> Option<WindowCapabilities> {
    Some(WindowCapabilities { work_done_progress })
}

fn asked(backend: &Backend<u32>, dir: &str) -> usize {
    match backend.set_roots(&path(dir), true) {
        SearchStep::Query(search) => search.remaining,
        _ => 0,
    }
}

fn reports_progress(backend: &Backend<u32>) -> bool {
    let root = Root { path: path("/r"), target: path("/t") };
    let tools = Tools {
        cargo: PathBuf::from("cargo"),
        compiler: Compiler {
            rustowlc: PathBuf::from("rustowlc"),
            sysroot: PathBuf::from("sysroot"),
        },
    };
    backend.root_run(&tools, &root, None, false, false, false).progress.reporting
}

#[test]
fn the_client_is_told_what_is_offered() {
    let mut backend: Backend<u32> = Backend::new();
    let result = backend.initialize(&params(None, None));
    assert_eq!(
        result.capabilities,
        ServerCapabilities {
            open_close: true,
            save: true,
            change: SyncKind::Incremental,
            workspace_folders: true,
            workspace_folder_changes: true,
        }
    );
    assert_eq!(
        result.watch,
        Some(HealthWatch { process_id: 42, step: WatchStep::Wait(30) })
    );
    assert!(!reports_progress(&backend));
}

#[test]
fn a_client_is_watched_while_it_lives() {
    assert_eq!(Backend::<u32>::watch(true), WatchStep::Wait(30));
    assert_eq!(Backend::<u32>::watch(false), WatchStep::Fail);
    let mut backend: Backend<u32> = Backend::new();
    let result = backend.initialize(&InitializeParams {
        workspace_folders: None,
        window: None,
        process_id: None,
    });
    assert_eq!(result.watch, None);
}

#[test]
fn folders_that_name_files_become_workspaces() {
    let mut backend: Backend<u32> = Backend::new();
    backend.initialize(&params(
        Some(vec![uri("file:///work/app"), uri("untitled:new"), uri("file:///work")]),
        None,
    ));
    assert_eq!(asked(&backend, "/work/app/src"), 2);
    assert_eq!(asked(&backend, "/work/lib"), 1);
    assert_eq!(asked(&backend, "/elsewhere"), 0);
}

#[test]
fn progress_is_reported_where_the_client_asks() {
    let mut backend: Backend<u32> = Backend::new();
    backend.initialize(&params(None, window(None)));
    assert!(!reports_progress(&backend));
    backend.initialize(&params(None, window(Some(false))));
    assert!(!reports_progress(&backend));
    backend.initialize(&params(None, window(Some(true))));
    assert!(reports_progress(&backend));
    backend.initialize(&params(None, window(Some(false))));
    assert!(reports_progress(&backend));
}

#[test]
fn added_folders_are_analyzed() {
    let mut backend: Backend<u32> = Backend::new();
    let job = backend.did_change_workspace_folders(&vec![uri("file:///work/app")]);
    assert_eq!(job, Job::Roots { all_targets: true, all_features: true });
    assert_eq!(asked(&backend, "/work/app"), 1);
}

#[test]
fn unnamed_workspaces_are_left_out() {
    let mut backend: Backend<u32> = Backend::new();
    backend.set_workspaces(vec![None, Some(path("/work")), None, Some(path("/work/app"))]);
    assert_eq!(asked(&backend, "/work/app"), 2);
}

#[test]
fn only_rust_documents_are_analyzed_when_opened() {
    let backend: Backend<u32> = Backend::new();
    let main = uri("file:///work/main.rs");
    assert_eq!(backend.did_open(&main, "rust"), Some(PathBuf::from("/work/main.rs")));
    assert_eq!(backend.did_open(&main, "toml"), None);
    assert_eq!(backend.did_open(&main, "Rust"), None);
    assert_eq!(backend.did_open(&uri("untitled:new"), "rust"), None);
    let named = Some(PathBuf::from("x.rs"));
    assert_eq!(backend.select_opened(named.clone(), "rust"), named);
    assert_eq!(backend.select_opened(named, ""), None);
    assert_eq!(backend.select_opened(None, "rust"), None);
}

#[test]
fn saved_documents_are_analyzed() {
    let backend: Backend<u32> = Backend::new();
    assert_eq!(
        backend.did_save(&uri("file:///work/Cargo.toml")),
        Some(PathBuf::from("/work/Cargo.toml"))
    );
    assert_eq!(backend.did_save(&uri("untitled:new")), None);
}

#[test]
fn files_of_a_root_are_analyzed_with_all_roots() {
    let backend: Backend<u32> = Backend::new();
    let file = PathBuf::from("/work/main.rs");
    assert_eq!(
        backend.analyze_file(true, file.clone()),
        Job::Roots { all_targets: true, all_features: true }
    );
    assert_eq!(backend.analyze_file(false, file.clone()), Job::SingleFile(file.clone()));
    assert_eq!(backend.analyze(), backend.analyze_file(true, file));
}
