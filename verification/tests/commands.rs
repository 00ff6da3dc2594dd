use rustowl::backend::{Backend, InitializeParams, WindowCapabilities};
use rustowl::command::{
    displayed, Arg, Compiler, EnvValue, Invocation, Platform, Stream, Tools,
};
use rustowl::metadata::{Metadata, Package, Resolve};
use rustowl::path::FilePath;
use rustowl::roots::Root;
use std::path::PathBuf;

fn path(text: &str) -> FilePath {
    FilePath::parse(text)
}

fn tools() -> Tools {
    Tools {
        cargo: PathBuf::from("/bin/cargo"),
        compiler: Compiler {
            rustowlc: PathBuf::from("/bin/rustowlc"),
            sysroot: PathBuf::from("/opt/sysroot"),
        },
    }
}

fn texts(args: &[&str]) -> Vec<Arg<'static>> {
    args.iter().map(|arg| Arg::Text(arg.to_string())).collect()
}

fn checks_with(all_targets: bool, all_features: bool, args: &[&str]) -> bool {
    let tools = tools();
    let run = Invocation::check(&tools, &path("/r"), &path("/t"), all_targets, all_features, false);
    run.args == texts(args)
}

fn sets_path(run: &Invocation, name: &str, value: &str) -> bool {
    run.env.iter().any(|var| {
        var.name == name
            && match &var.value {
                EnvValue::Path(known) => known.same(&path(value)),
                EnvValue::Native(_) => false,
            }
    })
}

fn sets_native(run: &Invocation, name: &str, value: &PathBuf) -> bool {
    run.env.iter().any(|var| {
        var.name == name
            && match &var.value {
                EnvValue::Path(_) => false,
                EnvValue::Native(known) => *known == value,
            }
    })
}

#[test]
fn check_arguments_follow_the_options() {
    assert!(checks_with(false, false, &["check", "--keep-going", "--message-format=json"]));
    assert!(checks_with(
        true,
        false,
        &["check", "--all-targets", "--keep-going", "--message-format=json"]
    ));
    assert!(checks_with(
        false,
        true,
        &["check", "--all-features", "--keep-going", "--message-format=json"]
    ));
    assert!(checks_with(
        true,
        true,
        &["check", "--all-targets", "--all-features", "--keep-going", "--message-format=json"]
    ));
}

#[test]
fn check_runs_rustowlc_as_the_compiler() {
    let tools = tools();
    let target = path("/work/target/owl");
    let run = Invocation::check(&tools, &path("/work/app"), &target, true, true, true);
    assert_eq!(run.program, &tools.cargo);
    assert!(sets_path(&run, "CARGO_TARGET_DIR", "/work/target/owl"));
    assert!(sets_native(&run, "RUSTC", &tools.compiler.rustowlc));
    assert!(sets_native(&run, "RUSTC_WORKSPACE_WRAPPER", &tools.compiler.rustowlc));
    assert_eq!(run.env.len(), 3);
    assert_eq!(run.env_remove, vec!["RUSTC_WRAPPER".to_string()]);
    assert_eq!(run.sysroot, Some(&tools.compiler.sysroot));
    assert!(run.kill_on_drop);
    assert!(run.current_dir.as_ref().unwrap().same(&path("/work/app")));
    assert_eq!(run.stdout, Stream::Piped);
    assert_eq!(run.stderr, Stream::Null);
    let loud = Invocation::check(&tools, &path("/work/app"), &path("/t"), true, true, false);
    assert_eq!(loud.stderr, Stream::Inherit);
}

#[test]
fn clean_removes_one_package() {
    let tools = tools();
    let run = Invocation::clean(&tools, &path("/work/app"), &path("/work/target/owl"), "app");
    assert_eq!(run.program, &tools.cargo);
    assert_eq!(run.args, texts(&["clean", "--package", "app"]));
    assert!(sets_path(&run, "CARGO_TARGET_DIR", "/work/target/owl"));
    assert_eq!(run.env.len(), 1);
    assert!(run.env_remove.is_empty());
    assert_eq!(run.sysroot, None);
    assert!(!run.kill_on_drop);
    assert!(run.current_dir.as_ref().unwrap().same(&path("/work/app")));
    assert_eq!(run.stdout, Stream::Null);
    assert_eq!(run.stderr, Stream::Null);
}

#[test]
fn a_single_file_is_compiled_by_rustowlc_itself() {
    let backend: Backend<u32> = Backend::new();
    let compiler = tools().compiler;
    let source = PathBuf::from("/work/main.rs");
    let run = backend.analyze_single_file(&compiler, &source, Platform::Unix, true);
    assert_eq!(run.program, &compiler.rustowlc);
    assert_eq!(
        run.args,
        vec![
            Arg::Native(&compiler.rustowlc),
            Arg::Text("--sysroot=/opt/sysroot".to_string()),
            Arg::Text("--crate-type=lib".to_string()),
            Arg::Text("-o/dev/null".to_string()),
            Arg::Native(&source),
        ]
    );
    assert!(run.env.is_empty());
    assert!(run.env_remove.is_empty());
    assert_eq!(run.sysroot, Some(&compiler.sysroot));
    assert!(run.current_dir.is_none());
    assert_eq!(run.stdout, Stream::Piped);
    assert_eq!(run.stderr, Stream::Null);
    assert!(run.kill_on_drop);
    let windows = backend.analyze_single_file(&compiler, &source, Platform::Windows, false);
    assert_eq!(windows.args[3], Arg::Text("-oNUL".to_string()));
    assert_eq!(windows.args.len(), 5);
    assert_eq!(windows.stderr, Stream::Inherit);
    let other = Invocation::single_file(&compiler, "shown", &source, Platform::Other, false);
    assert_eq!(other.args.len(), 4);
    assert_eq!(other.args[1], Arg::Text("--sysroot=shown".to_string()));
    assert_eq!(other.args[3], Arg::Native(&source));
}

#[test]
fn paths_are_displayed() {
    assert_eq!(displayed(&PathBuf::from("/opt/sysroot")), "/opt/sysroot".to_string());
}

#[test]
fn a_root_is_cleaned_and_checked() {
    let mut backend: Backend<u32> = Backend::new();
    let known = Metadata {
        packages: vec![Package {
            id: "app 0.1".to_string(),
            name: "app".to_string(),
            manifest_path: path("/work/app/Cargo.toml"),
        }],
        resolve: Some(Resolve { node_count: 4, root: Some("app 0.1".to_string()) }),
        workspace_root: path("/work/app"),
        target_directory: path("/work/app/target"),
    };
    let root = Root { path: path("/work/app"), target: path("/work/app/target/owl") };
    let tools = tools();
    let run = backend.root_run(&tools, &root, Some(&known), true, false, true);
    let order = run.processes();
    assert_eq!(order.len(), 2);
    assert_eq!(order[0].args, texts(&["clean", "--package", "app"]));
    assert_eq!(order[1].args, run.check.args);
    assert_eq!(run.clean.as_ref().unwrap().args, texts(&["clean", "--package", "app"]));
    assert_eq!(
        run.check.args,
        texts(&["check", "--all-targets", "--keep-going", "--message-format=json"])
    );
    assert!(run.cache.same(&path("/work/app/target/owl/cache.json")));
    assert!(!run.progress.reporting);
    assert_eq!(run.progress.package_name, Some("app".to_string()));
    assert_eq!(run.progress.dep_count, 4);
    assert_eq!(run.progress.build_count, 0);

    backend.initialize(&InitializeParams {
        workspace_folders: None,
        window: Some(WindowCapabilities { work_done_progress: Some(true) }),
        process_id: None,
    });
    let unknown = backend.root_run(&tools, &root, None, false, false, false);
    assert!(unknown.clean.is_none());
    assert_eq!(unknown.processes().len(), 1);
    assert_eq!(unknown.processes()[0].args, unknown.check.args);
    assert!(unknown.progress.reporting);
    assert_eq!(unknown.progress.package_name, None);
    assert_eq!(unknown.progress.dep_count, 0);
}
