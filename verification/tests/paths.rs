use rustowl::backend::Backend;
use rustowl::command::Platform;
use rustowl::metadata::Metadata;
use rustowl::path::{FilePath, Part};
use rustowl::roots::SearchStep;
use rustowl::uri::{file_of, path_of};
use std::path::PathBuf;
use tower_lsp::lsp_types::Url;

fn path(text: &str) -> FilePath {
    FilePath::parse(text)
}

fn name(text: &str) -> Part {
    Part::Normal(text.as_bytes().to_vec())
}

fn drive(written: &str) -> Part {
    Part::Prefix {
        written: written.as_bytes().to_vec(),
        parsed: b"Disk(67)".to_vec(),
    }
}

/// How the prefixes of a path are written.
fn written(path: &FilePath) -> Vec<Vec<u8>> {
    path.parts()
        .iter()
        .filter_map(|part| match part {
            Part::Prefix { written, .. } => Some(written.clone()),
            _ => None,
        })
        .collect()
}

#[test]
fn parse_splits_into_components() {
    let parsed = path("/work/app/src");
    assert_eq!(parsed.parts().len(), 4);
    assert!(parsed.parts()[0].same(&Part::RootDir));
    assert!(parsed.parts()[1].same(&name("work")));
    assert!(parsed.parts()[2].same(&name("app")));
    assert!(parsed.parts()[3].same(&name("src")));
    let relative = path("./../src");
    assert!(relative.parts()[0].same(&Part::CurDir));
    assert!(relative.parts()[1].same(&Part::ParentDir));
    assert!(relative.parts()[2].same(&name("src")));
    assert_eq!(path("").parts().len(), 0);
}

#[test]
fn spelling_makes_no_difference() {
    assert!(path("/work//app/./src/").same(&path("/work/app/src")));
    assert!(!path("/work/app").same(&path("work/app")));
    assert!(!path("/work/app").same(&path("/work/ap")));
    assert!(!path("/work/app").same(&path("/work/app/src")));
    assert!(!path("..").same(&path(".")));
}

#[test]
fn prefixes_compare_by_what_they_are_understood_as() {
    let upper = FilePath::from_parts(vec![drive("C:"), Part::RootDir, name("work")]);
    let lower = FilePath::from_parts(vec![drive("c:"), Part::RootDir, name("work")]);
    assert!(upper.same(&lower));
    assert!(!upper.same(&path("/work")));
}

#[test]
fn a_prefix_keeps_its_spelling() {
    let dir = FilePath::from_parts(vec![drive("c:"), Part::RootDir, name("work"), name("x.rs")]);
    assert_eq!(written(&dir.parent().unwrap()), vec![b"c:".to_vec()]);
    let mut backend: Backend<u32> = Backend::new();
    backend.set_workspace(FilePath::from_parts(vec![drive("C:"), Part::RootDir]));
    match backend.set_roots(&dir, false) {
        SearchStep::Query(search) => {
            assert_eq!(search.remaining, 1);
            assert_eq!(search.dir.parts().len(), 3);
            assert_eq!(written(&search.dir), vec![b"c:".to_vec()]);
        }
        _ => panic!("the drive is not covered"),
    }
    let known = Metadata {
        packages: vec![],
        resolve: None,
        workspace_root: dir.clone(),
        target_directory: dir.clone(),
    };
    assert_eq!(written(&backend.root_target(&known).unwrap()), vec![b"c:".to_vec()]);
    backend.register_root(&known);
    let roots = backend.analyze_with_options(Platform::Windows).roots;
    assert_eq!(written(&roots[0].path), vec![b"c:".to_vec()]);
    assert_eq!(written(&roots[0].target), vec![b"c:".to_vec()]);
}

#[test]
fn native_paths_and_texts_agree() {
    let native = PathBuf::from("/work/app");
    assert!(FilePath::of(&native).same(&path("/work/app")));
}

#[test]
fn only_whole_components_match() {
    assert!(path("/work/app/src").starts_with(&path("/work/app")));
    assert!(path("/work/app").starts_with(&path("/work/app")));
    assert!(path("/work/app").starts_with(&path("")));
    assert!(!path("/work/apple").starts_with(&path("/work/app")));
    assert!(!path("/work").starts_with(&path("/work/app")));
}

#[test]
fn parent_takes_off_the_last_component() {
    assert!(path("/work/app").parent().unwrap().same(&path("/work")));
    assert!(path("/work").parent().unwrap().same(&path("/")));
    assert!(path("main.rs").parent().unwrap().same(&path("")));
    assert!(path("/").parent().is_none());
    assert!(path("").parent().is_none());
    assert!(FilePath::from_parts(vec![drive("C:")]).parent().is_none());
}

#[test]
fn clone_is_the_same_path() {
    let full = FilePath::from_parts(vec![
        drive("C:"),
        Part::RootDir,
        Part::CurDir,
        Part::ParentDir,
        name("x"),
    ]);
    let copy = full.clone();
    assert!(copy.same(&full));
    assert_eq!(written(&copy), vec![b"C:".to_vec()]);
}

#[test]
fn file_uris_name_files() {
    let uri = Url::parse("file:///work/my%20app/main.rs").unwrap();
    assert_eq!(file_of(&uri), Some(PathBuf::from("/work/my app/main.rs")));
    assert!(path_of(&uri).unwrap().same(&path("/work/my app/main.rs")));
}

#[test]
fn other_uris_name_no_file() {
    let remote = Url::parse("file://elsewhere/work/main.rs").unwrap();
    assert_eq!(file_of(&remote), None);
    let opaque = Url::parse("untitled:Untitled-1").unwrap();
    assert_eq!(file_of(&opaque), None);
    assert!(path_of(&opaque).is_none());
}
