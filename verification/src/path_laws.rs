//! What holds of each answer about paths, URIs and metadata.

use crate::metadata::{count_dependencies, find_package_name, Metadata, Package};
use crate::path::{
    lies_in, meaning, same_path, splits_into, FilePath, Part, PartView, PathView,
};
use crate::uri::{file_of, path_of};
use std::path::PathBuf;
use tower_lsp::lsp_types::Url;
use vstd::prelude::*;

verus! {

/// Two components stand for the same: they are of one kind, prefixes are
/// understood alike, and names hold the same bytes.
pub open spec fn alike(a: PartView, b: PartView) -> bool {
    match (a, b) {
        (PartView::Prefix { parsed: x, .. }, PartView::Prefix { parsed: y, .. }) => x == y,
        (PartView::Normal(x), PartView::Normal(y)) => x == y,
        (PartView::RootDir, PartView::RootDir) => true,
        (PartView::CurDir, PartView::CurDir) => true,
        (PartView::ParentDir, PartView::ParentDir) => true,
        _ => false,
    }
}

/// `path` begins with components that stand for those of `base`, one by one.
pub open spec fn begins_with(path: PathView, base: PathView) -> bool {
    base.len() <= path.len() && forall|i: int|
        0 <= i < base.len() ==> alike(path[i], #[trigger] base[i])
}

/// The two paths have as many components, which stand for the same one by one.
pub open spec fn all_alike(a: PathView, b: PathView) -> bool {
    a.len() == b.len() && begins_with(a, b)
}

/// `path` is `dir` with the file name `name` behind it.
pub open spec fn is_child(path: PathView, dir: PathView, name: Seq<char>) -> bool {
    &&& path.len() == dir.len() + 1
    &&& forall|i: int| 0 <= i < dir.len() ==> #[trigger] path[i] == dir[i]
    &&& path[dir.len() as int] == PartView::Normal(vstd::utf8::encode_utf8(name))
}

/// What a component is said to be is what it is.
pub proof fn law_part_view(part: Part)
    ensures
        match part {
            Part::Prefix { written, parsed } => part@ == (PartView::Prefix {
                written: written@,
                parsed: parsed@,
            }),
            Part::RootDir => part@ is RootDir,
            Part::CurDir => part@ is CurDir,
            Part::ParentDir => part@ is ParentDir,
            Part::Normal(name) => part@ == PartView::Normal(name@),
        },
{
}

/// A path begins with a base exactly where it lies in it.
pub(crate) proof fn lies_in_begins_with(path: PathView, base: PathView)
    ensures
        lies_in(path, base) <==> begins_with(path, base),
{
    let (mine, theirs) = (meaning(path), meaning(base));
    assert(mine.len() == path.len() && theirs.len() == base.len());
    if lies_in(path, base) {
        assert forall|i: int| 0 <= i < base.len() implies alike(path[i], #[trigger] base[i]) by {
            assert(theirs[i] == mine.subrange(0, theirs.len() as int)[i]);
            assert(theirs[i] == base[i].meaning() && mine[i] == path[i].meaning());
        }
    }
    if begins_with(path, base) {
        assert forall|i: int| 0 <= i < theirs.len() implies theirs[i] == mine.subrange(
            0,
            theirs.len() as int,
        )[i] by {
            assert(alike(path[i], base[i]));
            assert(theirs[i] == base[i].meaning() && mine[i] == path[i].meaning());
        }
        assert(theirs =~= mine.subrange(0, theirs.len() as int));
    }
}

/// Two paths are the same exactly where all their components are alike.
pub(crate) proof fn same_path_all_alike(a: PathView, b: PathView)
    ensures
        same_path(a, b) <==> all_alike(a, b),
{
    lies_in_begins_with(a, b);
    let (x, y) = (meaning(a), meaning(b));
    assert(x.len() == a.len() && y.len() == b.len());
    if x.len() == y.len() {
        assert(x =~= x.subrange(0, y.len() as int));
    }
}

/// Components compare by what they stand for, not by how they are written.
pub proof fn law_components_compare(part: &Part, other: &Part, same: bool)
    requires
        call_ensures(Part::same, (part, other), same),
    ensures
        same <==> alike(part@, other@),
{
}

/// Paths compare component by component.
pub proof fn law_paths_compare(path: &FilePath, other: &FilePath, same: bool)
    requires
        call_ensures(FilePath::same, (path, other), same),
    ensures
        same <==> all_alike(path@, other@),
{
    same_path_all_alike(path@, other@);
}

/// A path starts with a base where its first components are those of the base.
pub proof fn law_paths_start(path: &FilePath, base: &FilePath, covered: bool)
    requires
        call_ensures(FilePath::starts_with, (path, base), covered),
    ensures
        covered <==> begins_with(path@, base@),
{
    lies_in_begins_with(path@, base@);
}

/// The parent is the path without exactly one component, which is neither a root
/// nor a prefix; only a path that ends in such a component, or is empty, has no
/// parent.
pub proof fn law_parent(path: &FilePath, parent: Option<FilePath>)
    requires
        call_ensures(FilePath::parent, (path,), parent),
    ensures
        match parent {
            Some(dir) => exists|last: PartView|
                path@ == #[trigger] dir@.push(last) && !(last is Prefix) && !(last is RootDir),
            None => path@.len() == 0 || path@.last() is Prefix || path@.last() is RootDir,
        },
{
    match parent {
        Some(dir) => {
            assert(path@ =~= dir@.push(path@.last()));
        },
        None => {},
    }
}

/// What a path is made of is what it consists of.
pub proof fn law_parts(made_of: Vec<Part>, path: FilePath, parts: &Vec<Part>)
    requires
        call_ensures(FilePath::from_parts, (made_of,), path),
        call_ensures(FilePath::parts, (&path,), parts),
    ensures
        path@.len() == made_of@.len() == parts@.len(),
        forall|i: int|
            0 <= i < made_of@.len() ==> (#[trigger] made_of@[i])@ == path@[i] && parts@[i]@
                == path@[i],
{
    assert(crate::path::part_views(made_of@).len() == made_of@.len());
    assert(crate::path::part_views(parts@).len() == parts@.len());
    assert forall|i: int| 0 <= i < made_of@.len() implies (#[trigger] made_of@[i])@ == path@[i]
        && parts@[i]@ == path@[i] by {
        assert(crate::path::part_views(made_of@)[i] == made_of@[i]@);
        assert(crate::path::part_views(parts@)[i] == parts@[i]@);
    }
}

/// A copy of a path consists of the same components, spelled the same.
pub proof fn law_copies(part: &Part, part_copy: Part, path: &FilePath, path_copy: FilePath)
    requires
        call_ensures(<Part as Clone>::clone, (part,), part_copy),
        call_ensures(<FilePath as Clone>::clone, (path,), path_copy),
    ensures
        part_copy@ == part@,
        path_copy@.len() == path@.len(),
        forall|i: int| 0 <= i < path@.len() ==> #[trigger] path_copy@[i] == path@[i],
{
}

/// A URI names the file that it can be turned into, and none where it cannot.
pub proof fn law_file_of(uri: &Url, file: Option<PathBuf>)
    requires
        call_ensures(file_of, (uri,), file),
    ensures
        match file {
            Some(path) => call_ensures(Url::to_file_path, (uri,), Ok(path)),
            None => call_ensures(Url::to_file_path, (uri,), Err(())),
        },
{
    let answer = choose|answer: Result<PathBuf, ()>| #[trigger]
        call_ensures(Url::to_file_path, (uri,), answer) && file == answer.ok();
    match answer {
        Ok(_) => {},
        Err(nothing) => {
            assert(nothing == ());
        },
    }
}

/// The path of a URI is that of the file that it can be turned into.
pub proof fn law_path_of(uri: &Url, path: Option<FilePath>)
    requires
        call_ensures(path_of, (uri,), path),
    ensures
        match path {
            Some(known) => exists|file: PathBuf| #[trigger]
                call_ensures(Url::to_file_path, (uri,), Ok(file)) && splits_into(file, known@),
            None => call_ensures(Url::to_file_path, (uri,), Err(())),
        },
{
    let named = choose|named: Option<PathBuf>| #[trigger]
        crate::uri::names_file(*uri, named) && match named {
            Some(native) => path is Some && splits_into(native, path->0@),
            None => path is None,
        };
    let answer = choose|answer: Result<PathBuf, ()>| #[trigger]
        call_ensures(Url::to_file_path, (uri,), answer) && named == answer.ok();
    match answer {
        Ok(_) => {},
        Err(nothing) => {
            assert(nothing == ());
        },
    }
}

/// `package` is the one that a project is about: the root of its dependency
/// graph, or, where there is no graph, the one whose manifest is the file
/// `Cargo.toml` of the root directory.
pub open spec fn is_main_package(metadata: Metadata, package: Package) -> bool {
    match metadata.resolve {
        Some(resolve) => resolve.root matches Some(id) && id@ == package.id@,
        None => {
            let (manifest, dir) = (package.manifest_path@, metadata.workspace_root@);
            &&& manifest.len() == dir.len() + 1
            &&& begins_with(manifest, dir)
            &&& manifest.last() == PartView::Normal(vstd::utf8::encode_utf8("Cargo.toml"@))
        },
    }
}

/// The specification's condition is the one above.
proof fn is_root_is_main(metadata: Metadata, package: Package)
    ensures
        metadata@.is_root(package@) <==> is_main_package(metadata, package),
{
    let (manifest, dir) = (package.manifest_path@, metadata.workspace_root@);
    let expected = crate::path::child(dir, "Cargo.toml"@);
    let last = PartView::Normal(vstd::utf8::encode_utf8("Cargo.toml"@));
    same_path_all_alike(manifest, expected);
    assert(expected.last() == last);
    if all_alike(manifest, expected) {
        assert(alike(manifest[dir.len() as int], expected[dir.len() as int]));
        assert forall|i: int| 0 <= i < dir.len() implies alike(manifest[i], #[trigger] dir[i]) by {
            assert(alike(manifest[i], expected[i]));
        }
    }
    if manifest.len() == dir.len() + 1 && begins_with(manifest, dir) && manifest.last() == last {
        assert forall|i: int| 0 <= i < expected.len() implies alike(
            manifest[i],
            #[trigger] expected[i],
        ) by {
            if i < dir.len() {
                assert(alike(manifest[i], dir[i]));
            }
        }
    }
}

/// The root package is one of the packages, is what the project is about, and is
/// the first such; where there is none, no package is what the project is about.
pub proof fn law_root_package(metadata: &Metadata, root: Option<&Package>)
    requires
        call_ensures(Metadata::root_package, (metadata,), root),
    ensures
        match root {
            Some(package) => exists|i: int|
                0 <= i < metadata.packages@.len() && (#[trigger] metadata.packages@[i])@ == package@
                    && is_main_package(*metadata, metadata.packages@[i]) && forall|j: int|
                    0 <= j < i ==> !is_main_package(*metadata, #[trigger] metadata.packages@[j]),
            None => forall|i: int|
                0 <= i < metadata.packages@.len() ==> !is_main_package(
                    *metadata,
                    #[trigger] metadata.packages@[i],
                ),
        },
{
    let packages = metadata.packages@;
    let views = metadata@.packages;
    assert(views.len() == packages.len());
    assert forall|i: int| 0 <= i < packages.len() implies (metadata@.is_root(
        #[trigger] views[i],
    ) <==> is_main_package(*metadata, packages[i])) by {
        assert(views[i] == packages[i]@);
        is_root_is_main(*metadata, packages[i]);
    }
    match root {
        Some(package) => {
            let i = choose|i: int|
                metadata@.is_first_root(i) && (#[trigger] metadata@.packages[i]) == package@;
            assert(views[i] == packages[i]@);
            assert forall|j: int| 0 <= j < i implies !is_main_package(
                *metadata,
                #[trigger] packages[j],
            ) by {
                assert(!metadata@.is_root(views[j]));
            }
        },
        None => {
            no_root_name(*metadata, 0);
            assert forall|i: int| 0 <= i < packages.len() implies !is_main_package(
                *metadata,
                #[trigger] packages[i],
            ) by {
                assert(!metadata@.is_root(views[i]));
            }
        },
    }
}

/// Without a name, no package from `start` on is at the root.
proof fn no_root_name(metadata: Metadata, start: int)
    requires
        0 <= start,
        metadata@.root_name_from(start) is None,
    ensures
        forall|i: int|
            start <= i < metadata@.packages.len() ==> !metadata@.is_root(
                #[trigger] metadata@.packages[i],
            ),
    decreases metadata@.packages.len() - start,
{
    if start < metadata@.packages.len() {
        no_root_name(metadata, start + 1);
    }
}

/// A name is that of the first package that the project is about.
proof fn some_root_name(metadata: Metadata, start: int) -> (i: int)
    requires
        0 <= start,
        metadata@.root_name_from(start) is Some,
    ensures
        start <= i < metadata@.packages.len(),
        metadata@.is_root(metadata@.packages[i]),
        metadata@.root_name_from(start) == Some(metadata@.packages[i].name),
        forall|j: int|
            start <= j < i ==> !metadata@.is_root(#[trigger] metadata@.packages[j]),
    decreases metadata@.packages.len() - start,
{
    if metadata@.is_root(metadata@.packages[start]) {
        start
    } else {
        some_root_name(metadata, start + 1)
    }
}

/// The name that is found is that of the first package that the project is about;
/// none is found exactly where there is no metadata or no such package.
pub proof fn law_package_name(metadata: Option<&Metadata>, name: Option<String>)
    requires
        call_ensures(find_package_name, (metadata,), name),
    ensures
        match (metadata, name) {
            (None, _) => name is None,
            (Some(known), None) => forall|i: int|
                0 <= i < known.packages@.len() ==> !is_main_package(
                    *known,
                    #[trigger] known.packages@[i],
                ),
            (Some(known), Some(found)) => exists|i: int|
                0 <= i < known.packages@.len() && (#[trigger] known.packages@[i]).name@ == found@
                    && is_main_package(*known, known.packages@[i]) && forall|j: int|
                    0 <= j < i ==> !is_main_package(*known, #[trigger] known.packages@[j]),
        },
{
    match metadata {
        None => {},
        Some(known) => {
            root_name_is_of_main_package(*known);
        },
    }
}

/// The name of the root package is that of the first package that the project is
/// about.
pub(crate) proof fn root_name_is_of_main_package(known: Metadata)
    ensures
        match known@.root_name() {
            None => forall|i: int|
                0 <= i < known.packages@.len() ==> !is_main_package(
                    known,
                    #[trigger] known.packages@[i],
                ),
            Some(found) => exists|i: int|
                0 <= i < known.packages@.len() && (#[trigger] known.packages@[i]).name@ == found
                    && is_main_package(known, known.packages@[i]) && forall|j: int|
                    0 <= j < i ==> !is_main_package(known, #[trigger] known.packages@[j]),
        },
{
    let packages = known.packages@;
    let views = known@.packages;
    assert(views.len() == packages.len());
    assert forall|i: int| 0 <= i < packages.len() implies (known@.is_root(#[trigger] views[i])
        <==> is_main_package(known, packages[i])) by {
        assert(views[i] == packages[i]@);
        is_root_is_main(known, packages[i]);
    }
    match known@.root_name() {
        None => {
            no_root_name(known, 0);
            assert forall|i: int| 0 <= i < packages.len() implies !is_main_package(
                known,
                #[trigger] packages[i],
            ) by {
                assert(!known@.is_root(views[i]));
            }
        },
        Some(found) => {
            let i = some_root_name(known, 0);
            assert(views[i] == packages[i]@);
            assert(packages[i].name@ == found);
            assert forall|j: int| 0 <= j < i implies !is_main_package(
                known,
                #[trigger] packages[j],
            ) by {
                assert(!known@.is_root(views[j]));
            }
        },
    }
}

/// As many dependencies are counted as the graph has nodes; none where there is
/// no graph.
pub proof fn law_dependencies(metadata: Option<&Metadata>, count: usize)
    requires
        call_ensures(count_dependencies, (metadata,), count),
    ensures
        count > 0 ==> metadata is Some && metadata->0.resolve is Some,
        metadata matches Some(known) ==> (known.resolve matches Some(resolve) ==> count
            == resolve.node_count),
{
}

} // verus!
