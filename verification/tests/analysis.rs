use rustowl::backend::{Backend, Job};
use rustowl::command::Platform;
use rustowl::models::Crate;
use rustowl::path::FilePath;
use rustowl::progress::{AnalysisStatus, CargoCheckMessage, CheckProgress};
use rustowl::roots::SearchStep;
use std::path::PathBuf;

const BUILT: Option<CargoCheckMessage> = Some(CargoCheckMessage::CompilerArtifact);
const DONE: Option<CargoCheckMessage> = Some(CargoCheckMessage::BuildFinished);

fn path(text: &str) -> FilePath {
    FilePath::parse(text)
}

fn krate(files: &[(&str, &[u32])]) -> Crate<u32> {
    let mut krate = Crate::new();
    for (name, items) in files {
        krate.insert(name.to_string(), items.to_vec());
    }
    krate
}

/// Puts the items of a file behind those that are known of it.
fn merge(known: Crate<u32>, other: Crate<u32>) -> Crate<u32> {
    let mut merged = Crate::new();
    let mut added = other.into_files();
    for file in known.into_files() {
        let mut items = file.items;
        for more in &added {
            if more.name == file.name {
                items.extend(more.items.iter().copied());
            }
        }
        added.retain(|more| more.name != file.name);
        merged.insert(file.name, items);
    }
    for file in added {
        merged.insert(file.name, file.items);
    }
    merged
}

fn report(backend: &Backend<u32>) -> Vec<(String, Vec<u32>)> {
    match backend.analyzed() {
        Some(known) => known
            .files()
            .iter()
            .map(|file| (file.name.clone(), file.items.clone()))
            .collect(),
        None => vec![],
    }
}

fn progress(reporting: bool, name: Option<&str>, dep_count: usize) -> CheckProgress {
    CheckProgress {
        reporting,
        package_name: name.map(|text| text.to_string()),
        dep_count,
        build_count: 0,
    }
}

#[test]
fn a_new_server_knows_nothing() {
    let mut backend: Backend<u32> = Backend::new();
    assert_eq!(backend.status(), AnalysisStatus::Finished);
    assert!(backend.analyzed().is_none());
    assert!(!backend.passed());
    assert!(backend.can_abort(Platform::Unix));
    assert!(backend.shutdown(Platform::Unix).is_empty());
    assert!(backend.analyze_with_options(Platform::Unix).roots.is_empty());
}

#[test]
fn a_name_is_inserted_once() {
    let mut krate: Crate<u32> = Crate::new();
    assert!(krate.is_empty());
    krate.insert("/a.rs".to_string(), vec![1]);
    krate.insert("/b.rs".to_string(), vec![2]);
    krate.insert("/a.rs".to_string(), vec![3, 4]);
    assert!(!krate.is_empty());
    let files = krate.files();
    assert_eq!(files.len(), 2);
    assert_eq!(files[0].name, "/a.rs");
    assert_eq!(files[0].items, vec![3, 4]);
    assert!(files[0].path.same(&path("/a.rs")));
    assert_eq!(files[1].items, vec![2]);
}

#[test]
fn a_file_can_be_inserted_by_its_path() {
    let mut krate: Crate<u32> = Crate::new();
    krate.insert_at("a.rs".to_string(), path("/work/a.rs"), vec![1]);
    assert!(krate.files()[0].path.same(&path("/work/a.rs")));
}

#[test]
fn the_first_crate_is_kept_and_the_others_merged() {
    let mut backend: Backend<u32> = Backend::new();
    backend.absorb(vec![], &merge);
    assert!(backend.analyzed().is_none());
    backend.absorb(vec![krate(&[("/a.rs", &[1])]), krate(&[("/a.rs", &[2]), ("/b.rs", &[3])])], &merge);
    backend.absorb(vec![krate(&[("/b.rs", &[4])])], &merge);
    assert_eq!(
        report(&backend),
        vec![("/a.rs".to_string(), vec![1, 2]), ("/b.rs".to_string(), vec![3, 4])]
    );
}

#[test]
fn two_lots_come_to_the_same_as_one() {
    let mut one: Backend<u32> = Backend::new();
    one.absorb(vec![krate(&[("/a.rs", &[1])]), krate(&[("/a.rs", &[2])])], &merge);
    let mut two: Backend<u32> = Backend::new();
    two.absorb(vec![krate(&[("/a.rs", &[1])])], &merge);
    two.absorb(vec![krate(&[("/a.rs", &[2])])], &merge);
    assert_eq!(report(&one), report(&two));
}

#[test]
fn artifacts_are_counted_and_reported() {
    let mut progress = progress(true, Some("app"), 3);
    let first = progress.line(BUILT).unwrap();
    assert_eq!(first.message, Some("analyzing app".to_string()));
    assert_eq!(first.percentage, 33);
    assert!(progress.line(None).is_none());
    assert!(progress.line(DONE).is_none());
    assert_eq!(progress.line(BUILT).unwrap().percentage, 66);
    assert_eq!(progress.line(BUILT).unwrap().percentage, 100);
    assert_eq!(progress.line(BUILT).unwrap().percentage, 100);
    assert_eq!(progress.build_count, 4);
    assert_eq!(progress.title(), Some("analyzing app".to_string()));
}

#[test]
fn unreported_progress_is_only_counted() {
    let mut progress = progress(false, None, 0);
    assert!(progress.line(BUILT).is_none());
    assert_eq!(progress.build_count, 1);
    assert_eq!(progress.title(), None);
}

#[test]
fn an_unnamed_package_is_reported_without_a_message() {
    let mut progress = progress(true, None, 200);
    let report = progress.line(BUILT).unwrap();
    assert_eq!(report.message, None);
    assert_eq!(report.percentage, 0);
}

#[test]
fn a_line_counts_and_reports() {
    let mut backend: Backend<u32> = Backend::new();
    let mut progress = progress(true, Some("app"), 2);
    let said = backend.read_line(&mut progress, BUILT, None, &merge).unwrap();
    assert_eq!(said.percentage, 50);
    assert!(!backend.passed());
    let lot = Some(vec![krate(&[("/a.rs", &[1])])]);
    assert!(backend.read_line(&mut progress, None, lot, &merge).is_none());
    assert!(backend.passed());
    assert_eq!(progress.build_count, 1);
}

#[test]
fn the_last_process_settles_the_status() {
    let mut backend: Backend<u32> = Backend::new();
    backend.analyze_with_options(Platform::Unix);
    assert_eq!(backend.status(), AnalysisStatus::Analyzing);
    backend.started(Some(10));
    backend.started(Some(11));
    backend.absorb(vec![krate(&[("/a.rs", &[])])], &merge);
    backend.finished(Some(11));
    assert_eq!(backend.status(), AnalysisStatus::Analyzing);
    backend.finished(Some(10));
    assert_eq!(backend.status(), AnalysisStatus::Finished);
    assert!(backend.passed());
}

#[test]
fn an_analysis_without_a_report_fails() {
    let mut backend: Backend<u32> = Backend::new();
    backend.analyze_with_options(Platform::Unix);
    backend.started(Some(10));
    backend.finished(Some(10));
    assert_eq!(backend.status(), AnalysisStatus::Error);
    assert!(!backend.passed());

    let mut empty: Backend<u32> = Backend::new();
    empty.absorb(vec![Crate::new()], &merge);
    empty.finished(Some(10));
    assert_eq!(empty.status(), AnalysisStatus::Error);
}

#[test]
fn an_error_stays_until_the_next_analysis() {
    let mut backend: Backend<u32> = Backend::new();
    backend.finished(Some(1));
    assert_eq!(backend.status(), AnalysisStatus::Error);
    backend.absorb(vec![krate(&[("/a.rs", &[1])])], &merge);
    backend.finished(Some(2));
    assert_eq!(backend.status(), AnalysisStatus::Error);
    backend.analyze_with_options(Platform::Unix);
    backend.finished(Some(3));
    assert_eq!(backend.status(), AnalysisStatus::Finished);
}

#[test]
fn all_processes_of_one_id_end_together() {
    let mut backend: Backend<u32> = Backend::new();
    backend.started(None);
    backend.started(Some(5));
    backend.started(None);
    backend.finished(None);
    assert_eq!(backend.status(), AnalysisStatus::Finished);
    assert_eq!(backend.abort_subprocess(Platform::Unix), vec![5]);
}

#[test]
fn an_abort_stops_the_latest_first() {
    let mut backend: Backend<u32> = Backend::new();
    backend.started(Some(5));
    backend.started(None);
    backend.started(Some(7));
    assert!(backend.can_abort(Platform::Unix));
    assert_eq!(backend.abort_subprocess(Platform::Unix), vec![7, 5]);
    assert!(backend.abort_subprocess(Platform::Unix).is_empty());
}

#[test]
fn without_process_groups_nothing_is_stopped() {
    let mut backend: Backend<u32> = Backend::new();
    backend.started(Some(u32::MAX));
    assert!(backend.can_abort(Platform::Windows));
    assert!(!backend.can_abort(Platform::Unix));
    assert!(backend.abort_subprocess(Platform::Windows).is_empty());
    assert!(backend.shutdown(Platform::Other).is_empty());
    assert!(backend.analyze_with_options(Platform::Other).stopped_groups.is_empty());
    assert_eq!(backend.status(), AnalysisStatus::Analyzing);
    assert!(!backend.can_abort(Platform::Unix));
}

#[test]
fn an_analysis_stops_what_runs() {
    let mut backend: Backend<u32> = Backend::new();
    backend.started(Some(5));
    backend.started(Some(6));
    assert_eq!(backend.analyze_with_options(Platform::Unix).stopped_groups, vec![6, 5]);
    assert!(backend.shutdown(Platform::Unix).is_empty());
}

#[test]
fn an_id_beyond_the_groups_cannot_be_stopped() {
    let mut backend: Backend<u32> = Backend::new();
    backend.started(Some(i32::MAX as u32));
    assert!(backend.can_abort(Platform::Unix));
    backend.started(Some(i32::MAX as u32 + 1));
    assert!(!backend.can_abort(Platform::Unix));
}

#[test]
fn starting_and_finishing_leaves_the_others() {
    let mut backend: Backend<u32> = Backend::new();
    backend.started(Some(1));
    backend.started(Some(2));
    backend.finished(Some(2));
    assert_eq!(backend.abort_subprocess(Platform::Unix), vec![1]);
}

#[test]
fn a_directory_is_checked_as_a_workspace() {
    let dir = PathBuf::from("/work/app");
    let start = Backend::<u32>::check(dir.clone(), true);
    assert_eq!(start.job, Job::Roots { all_targets: false, all_features: false });
    match start.search {
        Some(SearchStep::Query(search)) => {
            assert!(search.dir.same(&path("/work/app")));
            assert_eq!(search.remaining, 1);
        }
        _ => panic!("nothing is asked"),
    }
    assert!(!start.backend.passed());
    let all = Backend::<u32>::check_with_options(dir, true, true, false);
    assert_eq!(all.job, Job::Roots { all_targets: true, all_features: false });
}

#[test]
fn a_file_is_checked_on_its_own() {
    let file = PathBuf::from("/work/main.rs");
    let start = Backend::<u32>::check_with_options(file.clone(), false, true, true);
    assert_eq!(start.job, Job::SingleFile(file.clone()));
    assert!(start.search.is_none());
    assert!(matches!(
        start.backend.set_roots(&path("/work/main.rs"), false),
        SearchStep::NotCovered
    ));
    assert_eq!(Backend::<u32>::check(file.clone(), false).job, Job::SingleFile(file.clone()));
    let at = Backend::<u32>::check_at(file, &path("/elsewhere"), true, false, true);
    assert!(at.search.is_some());
    assert_eq!(at.job, Job::Roots { all_targets: false, all_features: true });
}

#[test]
fn a_percentage_needs_a_total() {
    assert!(progress(false, None, 0).can_count());
    assert!(!progress(true, None, 0).can_count());
    let mut full = progress(true, None, 1);
    assert!(full.can_count());
    full.build_count = usize::MAX / 100 - 1;
    assert!(full.can_count());
    full.build_count = usize::MAX / 100;
    assert!(!full.can_count());
    full.reporting = false;
    assert!(full.can_count());
    full.build_count = usize::MAX;
    assert!(!full.can_count());
}
