//! What holds of each process that is planned.

use crate::backend::{Backend, Job, RootRun};
use crate::command::{
    displays_as, Arg, ArgView, Compiler, EnvValue, EnvValueView, EnvVar, EnvVarView, Invocation,
    InvocationView, Platform, Stream, Tools,
};
use crate::metadata::Metadata;
use crate::path::{FilePath, PathView};
use crate::path_laws::{is_child, is_main_package};
use crate::roots::Root;
use std::path::PathBuf;
use vstd::prelude::*;

verus! {

/// The process is handed the text.
pub open spec fn has_text(run: InvocationView, text: Seq<char>) -> bool {
    run.args.contains(ArgView::Text(text))
}

/// The process finds the variable set to `value`, and it is set only once.
pub open spec fn sets(run: InvocationView, name: Seq<char>, value: EnvValueView) -> bool {
    &&& exists|i: int|
        0 <= i < run.env.len() && (#[trigger] run.env[i]).name == name && run.env[i].value == value
    &&& forall|i: int, j: int|
        0 <= i < run.env.len() && 0 <= j < run.env.len() && (#[trigger] run.env[i]).name == name
            && (#[trigger] run.env[j]).name == name ==> i == j
}

/// The error output is dropped exactly where nothing is logged, and else goes
/// where that of the server goes.
pub open spec fn logs(run: InvocationView, quiet: bool) -> bool {
    &&& quiet ==> run.stderr == Stream::Null
    &&& !quiet ==> run.stderr == Stream::Inherit
}

/// A check of the project in `root`: `cargo` is told to check, to go on after
/// errors and to write JSON, and to take all targets and all features exactly
/// where that is asked for. It builds under `target`, compiles with the compiler
/// that reports, whatever wrapper the environment names, and runs in `root`. Its
/// output is read, and it ends with the server.
pub open spec fn is_check(
    run: InvocationView,
    tools: Tools,
    root: PathView,
    target: PathView,
    all_targets: bool,
    all_features: bool,
    quiet: bool,
) -> bool {
    &&& run.program == tools.cargo
    &&& run.args.len() >= 3
    &&& run.args[0] == ArgView::Text("check"@)
    &&& run.args[run.args.len() - 2] == ArgView::Text("--keep-going"@)
    &&& run.args[run.args.len() - 1] == ArgView::Text("--message-format=json"@)
    &&& has_text(run, "--all-targets"@) <==> all_targets
    &&& has_text(run, "--all-features"@) <==> all_features
    &&& run.args.len() == 3 + (if all_targets {
        1int
    } else {
        0int
    }) + (if all_features {
        1int
    } else {
        0int
    })
    &&& all_targets ==> run.args[1] == ArgView::Text("--all-targets"@)
    &&& sets(run, "CARGO_TARGET_DIR"@, EnvValueView::Path(target))
    &&& sets(run, "RUSTC"@, EnvValueView::Native(tools.compiler.rustowlc))
    &&& sets(run, "RUSTC_WORKSPACE_WRAPPER"@, EnvValueView::Native(tools.compiler.rustowlc))
    &&& run.env.len() == 3
    &&& run.env_remove.len() == 1 && run.env_remove[0] == "RUSTC_WRAPPER"@
    &&& run.sysroot == Some(tools.compiler.sysroot)
    &&& run.current_dir == Some(root)
    &&& run.stdout == Stream::Piped
    &&& run.kill_on_drop
    &&& logs(run, quiet)
}

/// A removal of what was built of `package`: `cargo` is told to clean that package
/// and no other, builds under `target`, and runs in `root`, without a word.
pub open spec fn is_clean(
    run: InvocationView,
    tools: Tools,
    root: PathView,
    target: PathView,
    package: Seq<char>,
) -> bool {
    &&& run.program == tools.cargo
    &&& run.args.len() == 3
    &&& run.args[0] == ArgView::Text("clean"@)
    &&& run.args[1] == ArgView::Text("--package"@)
    &&& run.args[2] == ArgView::Text(package)
    &&& sets(run, "CARGO_TARGET_DIR"@, EnvValueView::Path(target))
    &&& run.env.len() == 1
    &&& run.env_remove.len() == 0
    &&& run.sysroot is None
    &&& run.current_dir == Some(root)
    &&& run.stdout == Stream::Null
    &&& run.stderr == Stream::Null
    &&& !run.kill_on_drop
}

/// A run of the compiler on the file `source` alone. Its first argument is its own
/// path and its last one the file; it is told where its installation is and that
/// the file is a library, and to write nothing, in the words of the platform.
pub open spec fn is_single_file(
    run: InvocationView,
    compiler: Compiler,
    sysroot: Seq<char>,
    source: PathBuf,
    platform: Platform,
    quiet: bool,
) -> bool {
    &&& run.program == compiler.rustowlc
    &&& run.args.len() == (if platform == Platform::Other {
        4int
    } else {
        5int
    })
    &&& run.args[0] == ArgView::Native(compiler.rustowlc)
    &&& run.args[1] == ArgView::Text("--sysroot="@ + sysroot)
    &&& run.args[2] == ArgView::Text("--crate-type=lib"@)
    &&& platform == Platform::Unix ==> run.args[3] == ArgView::Text("-o/dev/null"@)
    &&& platform == Platform::Windows ==> run.args[3] == ArgView::Text("-oNUL"@)
    &&& run.args[run.args.len() - 1] == ArgView::Native(source)
    &&& run.env.len() == 0
    &&& run.env_remove.len() == 0
    &&& run.sysroot == Some(compiler.sysroot)
    &&& run.current_dir is None
    &&& run.stdout == Stream::Piped
    &&& run.kill_on_drop
    &&& logs(run, quiet)
}

/// The texts that the check is told apart by differ.
proof fn texts_differ()
    ensures
        "check"@ != "--all-targets"@,
        "check"@ != "--all-features"@,
        "--keep-going"@ != "--all-targets"@,
        "--keep-going"@ != "--all-features"@,
        "--message-format=json"@ != "--all-targets"@,
        "--message-format=json"@ != "--all-features"@,
        "--all-targets"@ != "--all-features"@,
        "CARGO_TARGET_DIR"@ != "RUSTC"@,
        "CARGO_TARGET_DIR"@ != "RUSTC_WORKSPACE_WRAPPER"@,
        "RUSTC"@ != "RUSTC_WORKSPACE_WRAPPER"@,
{
    reveal_strlit("check");
    reveal_strlit("--all-targets");
    reveal_strlit("--all-features");
    reveal_strlit("--keep-going");
    reveal_strlit("--message-format=json");
    reveal_strlit("CARGO_TARGET_DIR");
    reveal_strlit("RUSTC");
    reveal_strlit("RUSTC_WORKSPACE_WRAPPER");
    assert("check"@.len() == 5);
    assert("--all-targets"@.len() == 13);
    assert("--all-features"@.len() == 14);
    assert("--keep-going"@.len() == 12);
    assert("--message-format=json"@.len() == 21);
    assert("CARGO_TARGET_DIR"@.len() == 16);
    assert("RUSTC"@.len() == 5);
    assert("RUSTC_WORKSPACE_WRAPPER"@.len() == 23);
}

/// The planned check is one.
proof fn check_view_is_check(
    tools: Tools,
    root: PathView,
    target: PathView,
    all_targets: bool,
    all_features: bool,
    quiet: bool,
)
    ensures
        is_check(
            crate::command::check_view(tools, root, target, all_targets, all_features, quiet),
            tools,
            root,
            target,
            all_targets,
            all_features,
            quiet,
        ),
{
    texts_differ();
    let run = crate::command::check_view(tools, root, target, all_targets, all_features, quiet);
    let args = run.args;
    if all_targets {
        assert(args[1] == ArgView::Text("--all-targets"@));
        if all_features {
            assert(args[2] == ArgView::Text("--all-features"@));
        }
    } else if all_features {
        assert(args[1] == ArgView::Text("--all-features"@));
    }
    assert(run.env[0].name == "CARGO_TARGET_DIR"@);
    assert(run.env[1].name == "RUSTC"@);
    assert(run.env[2].name == "RUSTC_WORKSPACE_WRAPPER"@);
}

/// The planned removal is one.
proof fn clean_view_is_clean(
    tools: Tools,
    root: PathView,
    target: PathView,
    package: Seq<char>,
)
    ensures
        is_clean(
            crate::command::clean_view(tools, root, target, package),
            tools,
            root,
            target,
            package,
        ),
{
    let run = crate::command::clean_view(tools, root, target, package);
    assert(run.env[0].name == "CARGO_TARGET_DIR"@);
}

/// What an argument is said to be is what it is.
pub open spec fn says_arg(arg: Arg, view: ArgView) -> bool {
    match arg {
        Arg::Text(text) => view == ArgView::Text(text@),
        Arg::Native(path) => view == ArgView::Native(*path),
    }
}

/// What a variable is said to be set to is what it is set to.
pub open spec fn says_var(var: EnvVar, view: EnvVarView) -> bool {
    &&& view.name == var.name@
    &&& match var.value {
        EnvValue::Path(path) => view.value == EnvValueView::Path(path@),
        EnvValue::Native(path) => view.value == EnvValueView::Native(*path),
    }
}

/// What is said of a process is what is planned, with nothing left out.
pub proof fn law_invocation_view<'a>(run: Invocation<'a>)
    ensures
        run@.program == *run.program,
        run@.args.len() == run.args@.len(),
        forall|i: int|
            0 <= i < run.args@.len() ==> says_arg(#[trigger] run.args@[i], run@.args[i]),
        run@.env.len() == run.env@.len(),
        forall|i: int| 0 <= i < run.env@.len() ==> says_var(#[trigger] run.env@[i], run@.env[i]),
        run@.env_remove.len() == run.env_remove@.len(),
        forall|i: int|
            0 <= i < run.env_remove@.len() ==> (#[trigger] run.env_remove@[i])@
                == run@.env_remove[i],
        match run.sysroot {
            Some(path) => run@.sysroot == Some(*path),
            None => run@.sysroot is None,
        },
        match run.current_dir {
            Some(dir) => run@.current_dir == Some(dir@),
            None => run@.current_dir is None,
        },
        run@.stdout == run.stdout,
        run@.stderr == run.stderr,
        run@.kill_on_drop == run.kill_on_drop,
{
}

/// A check is planned as asked for.
pub proof fn law_plan_check(
    tools: &Tools,
    root: &FilePath,
    target: &FilePath,
    all_targets: bool,
    all_features: bool,
    quiet: bool,
    run: Invocation,
)
    requires
        call_ensures(
            Invocation::check,
            (tools, root, target, all_targets, all_features, quiet),
            run,
        ),
    ensures
        is_check(run@, *tools, root@, target@, all_targets, all_features, quiet),
{
    check_view_is_check(*tools, root@, target@, all_targets, all_features, quiet);
}

/// A removal is planned of the package asked for.
pub proof fn law_plan_clean(
    tools: &Tools,
    root: &FilePath,
    target: &FilePath,
    package: &str,
    run: Invocation,
)
    requires
        call_ensures(Invocation::clean, (tools, root, target, package), run),
    ensures
        is_clean(run@, *tools, root@, target@, package@),
{
    clean_view_is_clean(*tools, root@, target@, package@);
}

/// A run of the compiler is planned on the file asked for.
pub proof fn law_plan_single_file(
    compiler: &Compiler,
    sysroot: &str,
    source: &PathBuf,
    platform: Platform,
    quiet: bool,
    run: Invocation,
)
    requires
        call_ensures(
            Invocation::single_file,
            (compiler, sysroot, source, platform, quiet),
            run,
        ),
    ensures
        is_single_file(run@, *compiler, sysroot@, *source, platform, quiet),
{
}

/// The analysis of a file runs the compiler on that file, and tells it the
/// installation as it is displayed.
pub proof fn law_analyze_single_file<I>(
    backend: &Backend<I>,
    compiler: &Compiler,
    source: &PathBuf,
    platform: Platform,
    quiet: bool,
    run: Invocation,
)
    requires
        call_ensures(
            Backend::<I>::analyze_single_file,
            (backend, compiler, source, platform, quiet),
            run,
        ),
    ensures
        exists|sysroot: Seq<char>| #[trigger]
            displays_as(compiler.sysroot, sysroot) && is_single_file(
                run@,
                *compiler,
                sysroot,
                *source,
                platform,
                quiet,
            ),
{
}

/// What is planned for a root. The check is one of that root, with the targets and
/// features asked for. Exactly where the project is about a package, that package
/// is cleaned first. The progress counts from zero, up to the nodes of the
/// dependency graph, and is reported exactly where the client asks for it. The
/// result is written to `cache.json` under the target.
pub proof fn law_plan_root<I>(
    backend: &Backend<I>,
    tools: &Tools,
    root: &Root,
    metadata: Option<&Metadata>,
    all_targets: bool,
    all_features: bool,
    quiet: bool,
    run: RootRun,
)
    requires
        call_ensures(
            Backend::<I>::root_run,
            (backend, tools, root, metadata, all_targets, all_features, quiet),
            run,
        ),
    ensures
        is_check(run.check@, *tools, root.path@, root.target@, all_targets, all_features, quiet),
        match run.clean {
            Some(clean) => metadata matches Some(known) && exists|i: int|
                0 <= i < known.packages@.len() && is_main_package(
                    *known,
                    #[trigger] known.packages@[i],
                ) && (forall|j: int|
                    0 <= j < i ==> !is_main_package(*known, #[trigger] known.packages@[j]))
                    && is_clean(
                    clean@,
                    *tools,
                    root.path@,
                    root.target@,
                    known.packages@[i].name@,
                ),
            None => metadata matches Some(known) ==> forall|i: int|
                0 <= i < known.packages@.len() ==> !is_main_package(
                    *known,
                    #[trigger] known.packages@[i],
                ),
        },
        run.clean is Some <==> run.progress.package_name is Some,
        run.clean matches Some(clean) ==> clean@.args[2] == ArgView::Text(
            run.progress.package_name->0@,
        ),
        run.progress.build_count == 0,
        run.progress.reporting == backend@.work_done_progress,
        match metadata {
            Some(known) => run.progress.dep_count == (match known.resolve {
                Some(resolve) => resolve.node_count,
                None => 0usize,
            }),
            None => run.progress.dep_count == 0,
        },
        is_child(run.cache@, root.target@, "cache.json"@),
{
    check_view_is_check(
        *tools,
        root.path@,
        root.target@,
        all_targets,
        all_features,
        quiet,
    );
    let name = crate::metadata::root_package_name(crate::metadata::metadata_view(metadata));
    match metadata {
        Some(known) => {
            crate::path_laws::root_name_is_of_main_package(*known);
            match run.clean {
                Some(clean) => {
                    clean_view_is_clean(*tools, root.path@, root.target@, name->0);
                },
                None => {},
            }
        },
        None => {},
    }
}

/// The processes of a root run in order: the removal, where there is one, and then
/// the check, and no other.
pub proof fn law_processes<'a>(run: &RootRun<'a>, processes: Vec<&Invocation<'a>>)
    requires
        call_ensures(RootRun::<'a>::processes, (run,), processes),
    ensures
        processes@.len() == (if run.clean is Some {
            2int
        } else {
            1int
        }),
        processes@[processes@.len() - 1]@ == run.check@,
        run.clean matches Some(clean) ==> processes@[0]@ == clean@,
{
    let views = processes@.map_values(|known: &Invocation<'a>| known@);
    assert(views.len() == processes@.len());
    assert(views == run@.processes());
    assert(views[0] == processes@[0]@);
    assert(views[processes@.len() - 1] == processes@[processes@.len() - 1]@);
}

/// A file of a registered root is analyzed with all roots, all targets and all
/// features, as the server does on its own; any other file on its own.
pub proof fn law_analyze_file<I>(
    backend: &Backend<I>,
    registered: bool,
    file: PathBuf,
    job: Job,
    on_its_own: Job,
)
    requires
        call_ensures(Backend::<I>::analyze_file, (backend, registered, file), job),
        call_ensures(Backend::<I>::analyze, (backend,), on_its_own),
    ensures
        on_its_own == (Job::Roots { all_targets: true, all_features: true }),
        registered ==> job == on_its_own,
        !registered ==> job == Job::SingleFile(file),
{
}

} // verus!
