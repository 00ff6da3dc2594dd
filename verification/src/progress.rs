//! How far an analysis has come, and what is said of it on the way.

use crate::metadata::text_view;
use vstd::prelude::*;

verus! {

/// The state of the analysis as a whole.
#[derive(Clone, Copy, Debug, PartialEq, Eq, Structural)]
pub enum AnalysisStatus {
    Analyzing,
    Finished,
    Error,
}

/// The messages of `cargo check` that are told apart, by their `reason`.
#[derive(Clone, Copy, Debug, PartialEq, Eq, Structural)]
pub enum CargoCheckMessage {
    CompilerArtifact,
    BuildFinished,
}

/// A progress report: a message, and how much is done, in percent.
#[derive(Debug)]
pub struct Report {
    pub message: Option<String>,
    pub percentage: u32,
}

/// What a [`Report`] says.
pub struct ReportView {
    pub message: Option<Seq<char>>,
    pub percentage: int,
}

impl View for Report {
    type V = ReportView;

    open spec fn view(&self) -> ReportView {
        ReportView { message: text_view(self.message), percentage: self.percentage as int }
    }
}

/// What is said while a package is analyzed; nothing where its name is not
/// known.
pub open spec fn analyzing(package_name: Option<Seq<char>>) -> Option<Seq<char>> {
    match package_name {
        None => None,
        Some(name) => Some("analyzing "@ + name),
    }
}

/// How much of `total` crates `done` are, in percent, never above 100.
pub open spec fn percentage(done: nat, total: nat) -> int
    recommends
        total > 0,
{
    if done * 100 / total <= 100 {
        (done * 100 / total) as int
    } else {
        100
    }
}

/// The progress of one `cargo check`: whether it is reported to the client,
/// what is checked, out of how many crates, and how many are done.
#[derive(Debug)]
pub struct CheckProgress {
    pub reporting: bool,
    pub package_name: Option<String>,
    pub dep_count: usize,
    pub build_count: usize,
}

/// What a [`CheckProgress`] says.
pub struct ProgressView {
    pub reporting: bool,
    pub package_name: Option<Seq<char>>,
    pub dep_count: nat,
    pub build_count: nat,
}

impl View for CheckProgress {
    type V = ProgressView;

    open spec fn view(&self) -> ProgressView {
        ProgressView {
            reporting: self.reporting,
            package_name: text_view(self.package_name),
            dep_count: self.dep_count as nat,
            build_count: self.build_count as nat,
        }
    }
}

impl ProgressView {
    /// One crate more can be counted and, where it is to be, reported.
    pub open spec fn can_count(self) -> bool {
        &&& self.build_count < usize::MAX
        &&& self.reporting ==> self.dep_count > 0 && (self.build_count + 1) * 100 <= usize::MAX
    }

    /// The progress after a message of the check.
    pub open spec fn after(self, message: Option<CargoCheckMessage>) -> ProgressView {
        if message == Some(CargoCheckMessage::CompilerArtifact) {
            ProgressView { build_count: self.build_count + 1, ..self }
        } else {
            self
        }
    }

    /// What is reported on a message of the check.
    pub open spec fn report(self, message: Option<CargoCheckMessage>) -> Option<ReportView> {
        if message == Some(CargoCheckMessage::CompilerArtifact) && self.reporting {
            Some(
                ReportView {
                    message: analyzing(self.package_name),
                    percentage: percentage(self.build_count + 1, self.dep_count),
                },
            )
        } else {
            None
        }
    }
}

impl CheckProgress {
    /// The message under which the progress is reported.
    pub fn title(&self) -> (title: Option<String>)
        ensures
            text_view(title) == analyzing(self@.package_name),
    {
        match &self.package_name {
            None => None,
            Some(name) => {
                let mut title = "analyzing ".to_owned();
                title.append(name.as_str());
                Some(title)
            },
        }
    }

    /// Whether one crate more can be counted and, where it is to be, reported.
    pub fn can_count(&self) -> (possible: bool)
        ensures
            possible == self@.can_count(),
    {
        if self.reporting {
            self.dep_count > 0 && self.build_count < usize::MAX / 100
        } else {
            self.build_count < usize::MAX
        }
    }

    /// Takes note of a line of output. A crate that was built counts, and is
    /// reported where a report was asked for.
    pub fn line(&mut self, message: Option<CargoCheckMessage>) -> (report: Option<Report>)
        requires
            message == Some(CargoCheckMessage::CompilerArtifact) ==> old(self)@.can_count(),
        ensures
            final(self)@ == old(self)@.after(message),
            match report {
                Some(said) => old(self)@.report(message) == Some(said@),
                None => old(self)@.report(message) is None,
            },
    {
        match message {
            Some(CargoCheckMessage::CompilerArtifact) => {
                self.build_count = self.build_count + 1;
                if self.reporting {
                    let done: usize = self.build_count * 100 / self.dep_count;
                    let percentage: u32 = if done <= 100 {
                        done as u32
                    } else {
                        100
                    };
                    Some(Report { message: self.title(), percentage })
                } else {
                    None
                }
            },
            _ => None,
        }
    }
}

} // verus!
