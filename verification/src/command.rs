//! The processes that an analysis starts.

use crate::path::{apply, FilePath, PathView};
use std::path::PathBuf;
use vstd::prelude::*;

verus! {

/// Where the compiler that reports is, and the root of its installation.
#[derive(Debug)]
pub struct Compiler {
    pub rustowlc: PathBuf,
    pub sysroot: PathBuf,
}

/// Where the programs of the toolchain are.
#[derive(Debug)]
pub struct Tools {
    pub cargo: PathBuf,
    pub compiler: Compiler,
}

/// An argument: a text, or a path as the platform has it.
#[derive(Debug, PartialEq, Eq)]
pub enum Arg<'a> {
    Text(String),
    Native(&'a PathBuf),
}

/// What an [`Arg`] says.
pub enum ArgView {
    Text(Seq<char>),
    Native(PathBuf),
}

impl View for Arg<'_> {
    type V = ArgView;

    open spec fn view(&self) -> ArgView {
        match self {
            Arg::Text(text) => ArgView::Text(text@),
            Arg::Native(path) => ArgView::Native(**path),
        }
    }
}

/// The value of an environment variable: a path of the project, or one as the
/// platform has it.
#[derive(Debug)]
pub enum EnvValue<'a> {
    Path(FilePath),
    Native(&'a PathBuf),
}

/// What an [`EnvValue`] says.
pub enum EnvValueView {
    Path(PathView),
    Native(PathBuf),
}

impl View for EnvValue<'_> {
    type V = EnvValueView;

    open spec fn view(&self) -> EnvValueView {
        match self {
            EnvValue::Path(path) => EnvValueView::Path(path@),
            EnvValue::Native(path) => EnvValueView::Native(**path),
        }
    }
}

/// An environment variable and its value.
#[derive(Debug)]
pub struct EnvVar<'a> {
    pub name: String,
    pub value: EnvValue<'a>,
}

/// What an [`EnvVar`] says.
pub struct EnvVarView {
    pub name: Seq<char>,
    pub value: EnvValueView,
}

impl View for EnvVar<'_> {
    type V = EnvVarView;

    open spec fn view(&self) -> EnvVarView {
        EnvVarView { name: self.name@, value: self.value@ }
    }
}

/// Where an output of the process goes.
#[derive(Clone, Copy, Debug, PartialEq, Eq, Structural)]
pub enum Stream {
    Inherit,
    Null,
    Piped,
}

/// The kind of operating system that the process runs on.
#[derive(Clone, Copy, Debug, PartialEq, Eq, Structural)]
pub enum Platform {
    Unix,
    Windows,
    Other,
}

/// A process to start.
#[derive(Debug)]
pub struct Invocation<'a> {
    pub program: &'a PathBuf,
    pub args: Vec<Arg<'a>>,
    /// Variables that are set.
    pub env: Vec<EnvVar<'a>>,
    /// Variables that are not handed on.
    pub env_remove: Vec<String>,
    /// The installation whose libraries the process has to find, where it needs
    /// them.
    pub sysroot: Option<&'a PathBuf>,
    pub current_dir: Option<FilePath>,
    pub stdout: Stream,
    pub stderr: Stream,
    pub kill_on_drop: bool,
}

/// What an [`Invocation`] says.
pub struct InvocationView {
    pub program: PathBuf,
    pub args: Seq<ArgView>,
    pub env: Seq<EnvVarView>,
    pub env_remove: Seq<Seq<char>>,
    pub sysroot: Option<PathBuf>,
    pub current_dir: Option<PathView>,
    pub stdout: Stream,
    pub stderr: Stream,
    pub kill_on_drop: bool,
}

impl<'a> View for Invocation<'a> {
    type V = InvocationView;

    open spec fn view(&self) -> InvocationView {
        InvocationView {
            program: *self.program,
            args: self.args@.map_values(|arg: Arg<'a>| arg@),
            env: self.env@.map_values(|var: EnvVar<'a>| var@),
            env_remove: self.env_remove@.map_values(|name: String| name@),
            sysroot: match self.sysroot {
                None => None,
                Some(path) => Some(*path),
            },
            current_dir: match self.current_dir {
                None => None,
                Some(dir) => Some(dir@),
            },
            stdout: self.stdout,
            stderr: self.stderr,
            kill_on_drop: self.kill_on_drop,
        }
    }
}

/// An error output that is dropped where nothing is logged.
pub open spec fn error_stream(quiet: bool) -> Stream {
    if quiet {
        Stream::Null
    } else {
        Stream::Inherit
    }
}

/// `cargo clean` of one package in `root`, with its output under `target`.
pub open spec fn clean_view(
    tools: Tools,
    root: PathView,
    target: PathView,
    package: Seq<char>,
) -> InvocationView {
    InvocationView {
        program: tools.cargo,
        args: seq![
            ArgView::Text("clean"@),
            ArgView::Text("--package"@),
            ArgView::Text(package),
        ],
        env: seq![
            EnvVarView { name: "CARGO_TARGET_DIR"@, value: EnvValueView::Path(target) },
        ],
        env_remove: seq![],
        sysroot: None,
        current_dir: Some(root),
        stdout: Stream::Null,
        stderr: Stream::Null,
        kill_on_drop: false,
    }
}

/// The arguments of `cargo check`.
pub open spec fn check_args(all_targets: bool, all_features: bool) -> Seq<ArgView> {
    seq![ArgView::Text("check"@)] + (if all_targets {
        seq![ArgView::Text("--all-targets"@)]
    } else {
        seq![]
    }) + (if all_features {
        seq![ArgView::Text("--all-features"@)]
    } else {
        seq![]
    }) + seq![ArgView::Text("--keep-going"@), ArgView::Text("--message-format=json"@)]
}

/// `cargo check` of the project in `root`, with `rustowlc` as the compiler and
/// the output under `target`.
pub open spec fn check_view(
    tools: Tools,
    root: PathView,
    target: PathView,
    all_targets: bool,
    all_features: bool,
    quiet: bool,
) -> InvocationView {
    InvocationView {
        program: tools.cargo,
        args: check_args(all_targets, all_features),
        env: seq![
            EnvVarView { name: "CARGO_TARGET_DIR"@, value: EnvValueView::Path(target) },
            EnvVarView {
                name: "RUSTC"@,
                value: EnvValueView::Native(tools.compiler.rustowlc),
            },
            EnvVarView {
                name: "RUSTC_WORKSPACE_WRAPPER"@,
                value: EnvValueView::Native(tools.compiler.rustowlc),
            },
        ],
        env_remove: seq!["RUSTC_WRAPPER"@],
        sysroot: Some(tools.compiler.sysroot),
        current_dir: Some(root),
        stdout: Stream::Piped,
        stderr: error_stream(quiet),
        kill_on_drop: true,
    }
}

/// The arguments that keep the compiler from writing its output.
pub open spec fn output_args(platform: Platform) -> Seq<ArgView> {
    match platform {
        Platform::Unix => seq![ArgView::Text("-o/dev/null"@)],
        Platform::Windows => seq![ArgView::Text("-oNUL"@)],
        Platform::Other => seq![],
    }
}

/// `rustowlc` on the file `source`. It analyzes where its first argument is its
/// own path. `sysroot` is how the root of the installation is displayed.
pub open spec fn single_file_view(
    compiler: Compiler,
    sysroot: Seq<char>,
    source: PathBuf,
    platform: Platform,
    quiet: bool,
) -> InvocationView {
    InvocationView {
        program: compiler.rustowlc,
        args: seq![
            ArgView::Native(compiler.rustowlc),
            ArgView::Text("--sysroot="@ + sysroot),
            ArgView::Text("--crate-type=lib"@),
        ] + output_args(platform) + seq![ArgView::Native(source)],
        env: seq![],
        env_remove: seq![],
        sysroot: Some(compiler.sysroot),
        current_dir: None,
        stdout: Stream::Piped,
        stderr: error_stream(quiet),
        kill_on_drop: true,
    }
}

/// Where the error output goes.
fn error_output(quiet: bool) -> (stream: Stream)
    ensures
        stream == error_stream(quiet),
{
    if quiet {
        Stream::Null
    } else {
        Stream::Inherit
    }
}

/// A text as an argument.
fn text<'a>(string: &str) -> (arg: Arg<'a>)
    ensures
        arg@ == ArgView::Text(string@),
{
    Arg::Text(string.to_owned())
}

/// Calls `std::path::Path::display` and writes the result to a string.
///
/// Nothing is promised of the text: the path is opaque here, and how a name that
/// is no Unicode is displayed is not specified. [`displays_as`] ties it to the
/// path.
#[verifier::external_body]
fn display(path: &PathBuf) -> (text: String) {
    path.display().to_string()
}

/// Displaying the native `path` can give `text`.
pub closed spec fn displays_as(path: PathBuf, text: Seq<char>) -> bool {
    exists|string: String| call_ensures(display, (&path,), string) && string@ == text
}

/// How a native path is displayed.
pub fn displayed(path: &PathBuf) -> (text: String)
    ensures
        displays_as(*path, text@),
{
    apply(display, path)
}

/// A path is displayed as `std` displays it, with nothing added or left out.
proof fn law_displayed(path: &PathBuf, text: String)
    requires
        call_ensures(displayed, (path,), text),
    ensures
        exists|string: String| #[trigger]
            call_ensures(display, (path,), string) && string@ == text@,
{
}

impl<'a> Invocation<'a> {
    /// Removes what was built of one package.
    pub fn clean(
        tools: &'a Tools,
        root: &FilePath,
        target: &FilePath,
        package: &str,
    ) -> (run: Invocation<'a>)
        ensures
            run@ == clean_view(*tools, root@, target@, package@),
    {
        let args: Vec<Arg<'a>> = vec![text("clean"), text("--package"), text(package)];
        let env: Vec<EnvVar<'a>> = vec![
            EnvVar { name: "CARGO_TARGET_DIR".to_owned(), value: EnvValue::Path(target.clone()) },
        ];
        let run = Invocation {
            program: &tools.cargo,
            args,
            env,
            env_remove: Vec::new(),
            sysroot: None,
            current_dir: Some(root.clone()),
            stdout: Stream::Null,
            stderr: Stream::Null,
            kill_on_drop: false,
        };
        proof {
            let view = clean_view(*tools, root@, target@, package@);
            assert(run@.args =~= view.args);
            assert(run@.env =~= view.env);
            assert(run@.env_remove =~= view.env_remove);
        }
        run
    }

    /// Checks the project in `root` through `rustowlc`.
    pub fn check(
        tools: &'a Tools,
        root: &FilePath,
        target: &FilePath,
        all_targets: bool,
        all_features: bool,
        quiet: bool,
    ) -> (run: Invocation<'a>)
        ensures
            run@ == check_view(*tools, root@, target@, all_targets, all_features, quiet),
    {
        let mut args: Vec<Arg<'a>> = vec![text("check")];
        if all_targets {
            args.push(text("--all-targets"));
        }
        if all_features {
            args.push(text("--all-features"));
        }
        args.push(text("--keep-going"));
        args.push(text("--message-format=json"));
        let env: Vec<EnvVar<'a>> = vec![
            EnvVar { name: "CARGO_TARGET_DIR".to_owned(), value: EnvValue::Path(target.clone()) },
            EnvVar {
                name: "RUSTC".to_owned(),
                value: EnvValue::Native(&tools.compiler.rustowlc),
            },
            EnvVar {
                name: "RUSTC_WORKSPACE_WRAPPER".to_owned(),
                value: EnvValue::Native(&tools.compiler.rustowlc),
            },
        ];
        let run = Invocation {
            program: &tools.cargo,
            args,
            env,
            env_remove: vec!["RUSTC_WRAPPER".to_owned()],
            sysroot: Some(&tools.compiler.sysroot),
            current_dir: Some(root.clone()),
            stdout: Stream::Piped,
            stderr: error_output(quiet),
            kill_on_drop: true,
        };
        proof {
            let view = check_view(*tools, root@, target@, all_targets, all_features, quiet);
            assert(run@.args =~= view.args);
            assert(run@.env =~= view.env);
            assert(run@.env_remove =~= view.env_remove);
        }
        run
    }

    /// Analyzes the file `source`. `sysroot` is how the root of the installation
    /// is displayed.
    pub fn single_file(
        compiler: &'a Compiler,
        sysroot: &str,
        source: &'a PathBuf,
        platform: Platform,
        quiet: bool,
    ) -> (run: Invocation<'a>)
        ensures
            run@ == single_file_view(*compiler, sysroot@, *source, platform, quiet),
    {
        let mut sysroot_arg = "--sysroot=".to_owned();
        sysroot_arg.append(sysroot);
        let mut args: Vec<Arg<'a>> = vec![
            Arg::Native(&compiler.rustowlc),
            Arg::Text(sysroot_arg),
            text("--crate-type=lib"),
        ];
        match platform {
            Platform::Unix => {
                args.push(text("-o/dev/null"));
            },
            Platform::Windows => {
                args.push(text("-oNUL"));
            },
            Platform::Other => {},
        }
        args.push(Arg::Native(source));
        let run = Invocation {
            program: &compiler.rustowlc,
            args,
            env: Vec::new(),
            env_remove: Vec::new(),
            sysroot: Some(&compiler.sysroot),
            current_dir: None,
            stdout: Stream::Piped,
            stderr: error_output(quiet),
            kill_on_drop: true,
        };
        proof {
            let view = single_file_view(*compiler, sysroot@, *source, platform, quiet);
            assert(run@.args =~= view.args);
            assert(run@.env =~= view.env);
            assert(run@.env_remove =~= view.env_remove);
        }
        run
    }
}

} // verus!
