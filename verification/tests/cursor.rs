use rustowl::backend::Backend;
use rustowl::command::Platform;
use rustowl::decoration::{
    conclude, pick_items, show, visit_all, CursorRequest, Decorations, Passes,
};
use rustowl::models::{Crate, Loc};
use rustowl::path::FilePath;
use rustowl::progress::AnalysisStatus;

fn path(text: &str) -> FilePath {
    FilePath::parse(text)
}

fn request(file: Option<&str>, line: u32, character: u32) -> CursorRequest {
    CursorRequest { path: file.map(path), line, character }
}

fn keep(known: Crate<u32>, _other: Crate<u32>) -> Crate<u32> {
    known
}

fn analyzed() -> Backend<u32> {
    let mut krate = Crate::new();
    krate.insert("/work/a.rs".to_string(), vec![3, 10, 25]);
    krate.insert("/work/b.rs".to_string(), vec![4]);
    krate.insert("/work//a.rs".to_string(), vec![30]);
    krate.insert("/work/empty.rs".to_string(), vec![]);
    let mut backend = Backend::new();
    backend.absorb(vec![krate], &keep);
    backend
}

/// The position and the items at or behind it.
type Select = (u32, Vec<u32>);

/// The items that were selected, and those of them that were seen again.
type Calc = (Vec<u32>, Vec<u32>);

fn new_select(position: Loc) -> Select {
    (position.0, vec![])
}

fn visit_select(select: Select, item: &u32) -> Select {
    let (position, mut selected) = select;
    if *item >= position {
        selected.push(*item);
    }
    (position, selected)
}

fn new_calc(select: &Select) -> Calc {
    (select.1.clone(), vec![])
}

fn visit_calc(calc: Calc, item: &u32) -> Calc {
    let (selected, mut seen) = calc;
    if selected.contains(item) {
        seen.push(*item);
    }
    (selected, seen)
}

fn handle_overlapping(calc: Calc) -> Calc {
    let (selected, mut seen) = calc;
    seen.reverse();
    (selected, seen)
}

fn decorations(calc: Calc) -> Vec<u32> {
    calc.1
}

fn ask(backend: &Backend<u32>, request: CursorRequest, text: Option<&str>) -> Decorations<String> {
    backend.cursor(
        request,
        text,
        &|_text: &str, line: u32, character: u32| line * 10 + character,
        &Passes {
            new_select,
            visit_select,
            new_calc,
            visit_calc,
            handle_overlapping,
            decorations,
        },
        &|deco: u32, text: &str| format!("{text}:{deco}"),
    )
}

#[test]
fn items_of_all_names_of_a_path_are_picked() {
    let backend = analyzed();
    let krate = backend.analyzed().as_ref().unwrap();
    assert_eq!(pick_items(krate, &path("/work/a.rs")), vec![&3, &10, &25, &30]);
    assert_eq!(pick_items(krate, &path("/work/b.rs")), vec![&4]);
    assert!(pick_items(krate, &path("/work/c.rs")).is_empty());
}

#[test]
fn decorations_come_with_the_status_of_the_analysis() {
    let backend = analyzed();
    let answer = ask(&backend, request(Some("/work/a.rs"), 2, 1), Some("text"));
    assert!(answer.is_analyzed);
    assert_eq!(answer.status, AnalysisStatus::Finished);
    assert!(answer.path.unwrap().same(&path("/work/a.rs")));
    assert_eq!(answer.decorations, vec!["text:30".to_string(), "text:25".to_string()]);
}

#[test]
fn an_analyzed_file_without_decorations_is_finished() {
    let answer = ask(&analyzed(), request(Some("/work/a.rs"), 9, 0), Some("text"));
    assert_eq!(answer.status, AnalysisStatus::Finished);
    assert!(answer.path.is_some());
    assert!(answer.decorations.is_empty());
}

#[test]
fn an_unknown_or_empty_file_is_an_error() {
    let backend = analyzed();
    let unknown = ask(&backend, request(Some("/work/c.rs"), 0, 0), Some("text"));
    assert!(unknown.is_analyzed);
    assert_eq!(unknown.status, AnalysisStatus::Error);
    assert!(unknown.path.unwrap().same(&path("/work/c.rs")));
    assert!(unknown.decorations.is_empty());
    let empty = ask(&backend, request(Some("/work/empty.rs"), 0, 0), Some("text"));
    assert_eq!(empty.status, AnalysisStatus::Error);
}

#[test]
fn a_running_analysis_says_so() {
    let mut backend = analyzed();
    backend.analyze_with_options(Platform::Unix);
    let found = ask(&backend, request(Some("/work/b.rs"), 0, 0), Some("text"));
    assert_eq!(found.status, AnalysisStatus::Analyzing);
    assert_eq!(found.decorations, vec!["text:4".to_string()]);
    let unknown = ask(&backend, request(Some("/work/c.rs"), 0, 0), Some("text"));
    assert_eq!(unknown.status, AnalysisStatus::Analyzing);
}

#[test]
fn a_failed_analysis_says_so() {
    let mut backend = analyzed();
    backend.did_change();
    backend.finished(Some(1));
    backend.absorb(
        vec![{
            let mut krate = Crate::new();
            krate.insert("/work/b.rs".to_string(), vec![4]);
            krate
        }],
        &keep,
    );
    let found = ask(&backend, request(Some("/work/b.rs"), 0, 0), Some("text"));
    assert_eq!(found.status, AnalysisStatus::Error);
    assert_eq!(found.decorations.len(), 1);
    let nothing = ask(&backend, request(Some("/work/b.rs"), 5, 0), Some("text"));
    assert_eq!(nothing.status, AnalysisStatus::Error);
}

#[test]
fn nothing_is_shown_of_a_file_that_cannot_be_read() {
    let backend = analyzed();
    let unreadable = ask(&backend, request(Some("/work/a.rs"), 0, 0), None);
    assert!(unreadable.is_analyzed);
    assert_eq!(unreadable.status, AnalysisStatus::Finished);
    assert!(unreadable.path.is_none());
    assert!(unreadable.decorations.is_empty());
    let nameless = ask(&backend, request(None, 0, 0), Some("text"));
    assert!(nameless.path.is_none());
    assert!(nameless.decorations.is_empty());
}

#[test]
fn a_change_discards_the_analysis() {
    let mut backend = analyzed();
    backend.did_change();
    assert!(backend.analyzed().is_none());
    let answer = ask(&backend, request(Some("/work/a.rs"), 0, 0), Some("text"));
    assert!(!answer.is_analyzed);
    assert_eq!(answer.status, AnalysisStatus::Error);
    assert!(answer.path.is_some());
    assert!(answer.decorations.is_empty());
}

#[test]
fn decos_tell_why_there_are_none() {
    let backend = analyzed();
    let none = Passes {
        new_select,
        visit_select,
        new_calc,
        visit_calc,
        handle_overlapping,
        decorations: |_calc: Calc| Vec::<u32>::new(),
    };
    assert_eq!(
        backend.decos(&path("/work/a.rs"), Loc(0), &none),
        Err(AnalysisStatus::Finished)
    );
    assert_eq!(backend.decos(&path("/work/c.rs"), Loc(0), &none), Err(AnalysisStatus::Error));
    let all = Passes {
        new_select,
        visit_select,
        new_calc,
        visit_calc,
        handle_overlapping,
        decorations,
    };
    assert_eq!(backend.decos(&path("/work/b.rs"), Loc(0), &all), Ok(vec![4]));
    let fresh: Backend<u32> = Backend::new();
    assert_eq!(fresh.decos(&path("/work/b.rs"), Loc(0), &all), Err(AnalysisStatus::Error));
}

#[test]
fn both_passes_visit_every_item_in_order() {
    let traced = Passes {
        new_select: |position: Loc| vec![position.0],
        visit_select: |mut seen: Vec<u32>, item: &u32| {
            seen.push(*item);
            seen
        },
        new_calc: |selected: &Vec<u32>| selected.clone(),
        visit_calc: |mut seen: Vec<u32>, item: &u32| {
            seen.push(*item + 100);
            seen
        },
        handle_overlapping: |mut seen: Vec<u32>| {
            seen.push(7);
            seen
        },
        decorations: |seen: Vec<u32>| seen,
    };
    assert_eq!(
        analyzed().decos(&path("/work/a.rs"), Loc(1), &traced),
        Ok(vec![1, 3, 10, 25, 30, 103, 110, 125, 130, 7])
    );
    let items = vec![&5, &6];
    assert_eq!(visit_all(1, &items, &|state: u32, item: &u32| state * 10 + *item), 156);
}

#[test]
fn other_files_and_other_names_make_no_difference() {
    let mut one = Crate::new();
    one.insert("/work/a.rs".to_string(), vec![3, 4]);
    let mut other = Crate::new();
    other.insert("/work/b.rs".to_string(), vec![9]);
    other.insert("/work//./a.rs".to_string(), vec![3, 4]);
    let mut first = Backend::new();
    first.absorb(vec![one], &keep);
    let mut second = Backend::new();
    second.absorb(vec![other], &keep);
    let a = ask(&first, request(Some("/work/a.rs"), 0, 0), Some("t"));
    let b = ask(&second, request(Some("/work/a.rs"), 0, 0), Some("t"));
    assert_eq!(a.decorations, vec!["t:4".to_string(), "t:3".to_string()]);
    assert_eq!(a.decorations, b.decorations);
    assert_eq!(a.status, b.status);
}

#[test]
fn a_file_is_found_under_its_name() {
    let mut krate = Crate::new();
    krate.insert("src/other.rs".to_string(), vec![1]);
    krate.insert("src/../lib.rs".to_string(), vec![5, 6]);
    assert_eq!(pick_items(&krate, &path("src/../lib.rs")), vec![&5, &6]);
    krate.insert("src/../lib.rs".to_string(), vec![7]);
    assert_eq!(pick_items(&krate, &path("src/../lib.rs")), vec![&7]);
    assert_eq!(pick_items(&krate, &path("src/other.rs")), vec![&1]);
}

#[test]
fn asking_twice_is_answered_the_same() {
    let backend = analyzed();
    let first = ask(&backend, request(Some("/work/a.rs"), 1, 0), Some("t"));
    let second = ask(&backend, request(Some("/work/a.rs"), 1, 0), Some("t"));
    assert_eq!(first.decorations, second.decorations);
    assert_eq!(first.status, second.status);
    assert_eq!(first.is_analyzed, second.is_analyzed);
    assert!(first.path.unwrap().same(&second.path.unwrap()));
}

#[test]
fn conclusions_and_views_of_a_search() {
    assert_eq!(conclude(false, vec![1]), Ok(vec![1]));
    assert_eq!(conclude(true, Vec::<u32>::new()), Err(AnalysisStatus::Finished));
    assert_eq!(conclude(false, Vec::<u32>::new()), Err(AnalysisStatus::Error));
    let range = |deco: u32, text: &str| format!("{text}{deco}");
    assert_eq!(show(Ok(vec![1, 2]), "t", &range), vec!["t1".to_string(), "t2".to_string()]);
    assert!(show(Err(AnalysisStatus::Error), "t", &range).is_empty());
}
