//! What `cargo metadata` says of a project, as far as the server reads it.

use crate::path::{child, same_path, FilePath, PathView};
use vstd::prelude::*;

verus! {

/// What an optional text says.
pub open spec fn text_view(text: Option<String>) -> Option<Seq<char>> {
    match text {
        None => None,
        Some(string) => Some(string@),
    }
}

/// A package that the project refers to.
#[derive(Debug)]
pub struct Package {
    pub id: String,
    pub name: String,
    pub manifest_path: FilePath,
}

/// What a [`Package`] says.
pub struct PackageView {
    pub id: Seq<char>,
    pub name: Seq<char>,
    pub manifest_path: PathView,
}

impl View for Package {
    type V = PackageView;

    open spec fn view(&self) -> PackageView {
        PackageView { id: self.id@, name: self.name@, manifest_path: self.manifest_path@ }
    }
}

/// The resolved dependency graph: how many nodes it has, and the package at
/// its root.
#[derive(Debug)]
pub struct Resolve {
    pub node_count: usize,
    pub root: Option<String>,
}

/// What a [`Resolve`] says.
pub struct ResolveView {
    pub node_count: nat,
    pub root: Option<Seq<char>>,
}

impl View for Resolve {
    type V = ResolveView;

    open spec fn view(&self) -> ResolveView {
        ResolveView { node_count: self.node_count as nat, root: text_view(self.root) }
    }
}

/// The answer of `cargo metadata`.
#[derive(Debug)]
pub struct Metadata {
    pub packages: Vec<Package>,
    pub resolve: Option<Resolve>,
    pub workspace_root: FilePath,
    pub target_directory: FilePath,
}

/// What a [`Metadata`] says.
pub struct MetadataView {
    pub packages: Seq<PackageView>,
    pub resolve: Option<ResolveView>,
    pub workspace_root: PathView,
    pub target_directory: PathView,
}

impl View for Metadata {
    type V = MetadataView;

    open spec fn view(&self) -> MetadataView {
        MetadataView {
            packages: self.packages@.map_values(|package: Package| package@),
            resolve: match self.resolve {
                None => None,
                Some(resolve) => Some(resolve@),
            },
            workspace_root: self.workspace_root@,
            target_directory: self.target_directory@,
        }
    }
}

/// What an optional answer says.
pub open spec fn metadata_view(metadata: Option<&Metadata>) -> Option<MetadataView> {
    match metadata {
        None => None,
        Some(known) => Some(known@),
    }
}

impl MetadataView {
    /// Whether `package` is the one at the root: the root of the dependency
    /// graph, or, without a graph, the package whose manifest lies in the
    /// root directory.
    pub open spec fn is_root(self, package: PackageView) -> bool {
        match self.resolve {
            Some(resolve) => resolve.root == Some(package.id),
            None => same_path(package.manifest_path, child(self.workspace_root, "Cargo.toml"@)),
        }
    }

    /// Whether the package at `i` is the first that is at the root.
    pub open spec fn is_first_root(self, i: int) -> bool {
        &&& 0 <= i < self.packages.len()
        &&& self.is_root(self.packages[i])
        &&& forall|j: int| 0 <= j < i ==> !self.is_root(#[trigger] self.packages[j])
    }

    /// The name of the first package from `start` on that is at the root.
    pub open spec fn root_name_from(self, start: int) -> Option<Seq<char>>
        decreases self.packages.len() - start,
    {
        if start >= self.packages.len() {
            None
        } else if self.is_root(self.packages[start]) {
            Some(self.packages[start].name)
        } else {
            self.root_name_from(start + 1)
        }
    }

    /// The name of the root package, where there is one.
    pub open spec fn root_name(self) -> Option<Seq<char>> {
        self.root_name_from(0)
    }
}

/// The number of dependencies, 0 where it is not known.
pub open spec fn dependency_count(metadata: Option<MetadataView>) -> nat {
    match metadata {
        Some(MetadataView { resolve: Some(resolve), .. }) => resolve.node_count,
        _ => 0,
    }
}

/// The name of the root package, where one is known.
pub open spec fn root_package_name(metadata: Option<MetadataView>) -> Option<Seq<char>> {
    match metadata {
        Some(known) => known.root_name(),
        None => None,
    }
}

impl Metadata {
    /// The project's root package.
    pub fn root_package(&self) -> (root: Option<&Package>)
        ensures
            match root {
                Some(package) => self@.root_name() == Some(package.name@) && exists|i: int|
                    self@.is_first_root(i) && (#[trigger] self@.packages[i]) == package@,
                None => self@.root_name() is None,
            },
    {
        let manifest = self.workspace_root.join("Cargo.toml");
        let mut i: usize = 0;
        while i < self.packages.len()
            invariant
                i <= self.packages@.len(),
                manifest@ == child(self.workspace_root@, "Cargo.toml"@),
                self@.root_name() == self@.root_name_from(i as int),
                forall|j: int| 0 <= j < i ==> !self@.is_root(#[trigger] self@.packages[j]),
            decreases self.packages@.len() - i,
        {
            let package = &self.packages[i];
            assert(self@.packages[i as int] == package@);
            let found = match &self.resolve {
                Some(resolve) => match &resolve.root {
                    Some(root) => package.id == *root,
                    None => false,
                },
                None => package.manifest_path.same(&manifest),
            };
            if found {
                assert(self@.is_first_root(i as int));
                return Some(package);
            }
            i += 1;
        }
        None
    }
}

/// Counts the dependencies, 0 where they are not known.
pub fn count_dependencies(metadata: Option<&Metadata>) -> (count: usize)
    ensures
        count == dependency_count(metadata_view(metadata)),
{
    match metadata {
        Some(known) => match &known.resolve {
            Some(resolve) => resolve.node_count,
            None => 0,
        },
        None => 0,
    }
}

/// Finds the name of the root package, where one is known.
pub fn find_package_name(metadata: Option<&Metadata>) -> (name: Option<String>)
    ensures
        text_view(name) == root_package_name(metadata_view(metadata)),
{
    match metadata {
        Some(known) => match known.root_package() {
            Some(package) => Some(package.name.clone()),
            None => None,
        },
        None => None,
    }
}

} // verus!
