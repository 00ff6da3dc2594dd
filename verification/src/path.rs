//! Paths as the server reasons about them: the components of a native path.

use vstd::prelude::*;

verus! {

/// `std::path::PathBuf`: a path of the platform, carried along without being
/// looked into.
#[verifier::external_type_specification]
#[verifier::external_body]
pub struct ExPathBuf(std::path::PathBuf);

/// One component of a path. Names are the bytes of the platform's encoding.
#[derive(Debug)]
pub enum Part {
    /// A Windows prefix such as `C:`: how it is written, and what it was
    /// understood as. Two spellings of one prefix are understood alike.
    Prefix { written: Vec<u8>, parsed: Vec<u8> },
    RootDir,
    CurDir,
    ParentDir,
    Normal(Vec<u8>),
}

/// What a [`Part`] says.
pub enum PartView {
    Prefix { written: Seq<u8>, parsed: Seq<u8> },
    RootDir,
    CurDir,
    ParentDir,
    Normal(Seq<u8>),
}

impl View for Part {
    type V = PartView;

    open spec fn view(&self) -> PartView {
        match self {
            Part::Prefix { written, parsed } => PartView::Prefix {
                written: written@,
                parsed: parsed@,
            },
            Part::RootDir => PartView::RootDir,
            Part::CurDir => PartView::CurDir,
            Part::ParentDir => PartView::ParentDir,
            Part::Normal(name) => PartView::Normal(name@),
        }
    }
}

impl PartView {
    /// The component apart from its spelling: of a prefix, only what it is
    /// understood as.
    pub open spec fn meaning(self) -> PartView {
        match self {
            PartView::Prefix { written: _, parsed } => PartView::Prefix {
                written: seq![],
                parsed,
            },
            other => other,
        }
    }
}

/// A path, by its components.
pub type PathView = Seq<PartView>;

/// The path apart from the spelling of its components.
pub open spec fn meaning(path: PathView) -> PathView {
    path.map_values(|part: PartView| part.meaning())
}

/// Whether `a` and `b` are the same path, however they are spelled.
pub open spec fn same_path(a: PathView, b: PathView) -> bool {
    meaning(a) == meaning(b)
}

/// Whether `path` is `base` or lies in it, however they are spelled.
pub open spec fn lies_in(path: PathView, base: PathView) -> bool {
    meaning(base).is_prefix_of(meaning(path))
}

/// The components that `parts` stands for.
pub open spec fn part_views(parts: Seq<Part>) -> PathView {
    parts.map_values(|part: Part| part@)
}

/// Whether `path` ends in a component that can be taken off.
pub open spec fn has_parent(path: PathView) -> bool {
    path.len() > 0 && !(path.last() is Prefix) && !(path.last() is RootDir)
}

/// `path` extended by the file name `name`.
pub open spec fn child(path: PathView, name: Seq<char>) -> PathView {
    path.push(PartView::Normal(vstd::utf8::encode_utf8(name)))
}

/// A path that can be compared, searched and extended.
///
/// Two paths are the same when their components are: repeated separators,
/// a trailing separator, inner `.` components and the spelling of a prefix make
/// no difference.
#[derive(Debug)]
pub struct FilePath {
    parts: Vec<Part>,
}

impl View for FilePath {
    type V = PathView;

    closed spec fn view(&self) -> PathView {
        part_views(self.parts@)
    }
}

/// Calls `std::path::Path::components` and copies what each component holds.
///
/// Nothing is promised of the components: which separators and prefixes count
/// depends on the platform, so that what is written does not determine them.
/// [`splits_into`] ties them to the path.
#[verifier::external_body]
fn components(path: &std::path::PathBuf) -> (parts: Vec<Part>) {
    path.components().map(|component| match component {
        std::path::Component::Prefix(prefix) => Part::Prefix {
            written: prefix.as_os_str().as_encoded_bytes().to_vec(),
            parsed: format!("{:?}", prefix.kind()).into_bytes(),
        },
        std::path::Component::RootDir => Part::RootDir,
        std::path::Component::CurDir => Part::CurDir,
        std::path::Component::ParentDir => Part::ParentDir,
        std::path::Component::Normal(name) => Part::Normal(name.as_encoded_bytes().to_vec()),
    }).collect()
}

/// Calls `std::path::PathBuf::from` on a string.
///
/// Nothing is promised of the path, which is opaque here. [`reads_as`] ties it to
/// the text.
#[verifier::external_body]
fn native(text: &str) -> (path: std::path::PathBuf) {
    std::path::PathBuf::from(text)
}

/// Splitting the native `path` can give `parts`.
pub closed spec fn splits_into(path: std::path::PathBuf, parts: PathView) -> bool {
    exists|split: Vec<Part>| call_ensures(components, (&path,), split) && part_views(split@) == parts
}

/// Reading `text` as a path can give `parts`.
pub closed spec fn reads_as(text: Seq<char>, parts: PathView) -> bool {
    exists|string: &str, path: std::path::PathBuf|
        string@ == text && #[trigger] call_ensures(native, (string,), path) && splits_into(
            path,
            parts,
        )
}

/// Reading `text` as a path gives one path only, as it does on one platform.
pub open spec fn reads_once(text: Seq<char>) -> bool {
    forall|a: PathView, b: PathView| #[trigger]
        reads_as(text, a) && #[trigger] reads_as(text, b) ==> same_path(a, b)
}

/// Calls `f` on `argument`, keeping the tie between the two and the result.
pub(crate) fn apply<A, B, F: Fn(A) -> B>(f: F, argument: A) -> (result: B)
    requires
        call_requires(f, (argument,)),
    ensures
        call_ensures(f, (argument,), result),
{
    f(argument)
}

/// Whether `a` and `b` hold the same bytes.
fn same_bytes(a: &Vec<u8>, b: &Vec<u8>) -> (same: bool)
    ensures
        same == (a@ == b@),
{
    if a.len() != b.len() {
        return false;
    }
    let mut i: usize = 0;
    while i < a.len()
        invariant
            a@.len() == b@.len(),
            i <= a@.len(),
            forall|k: int| 0 <= k < i ==> a@[k] == b@[k],
        decreases a@.len() - i,
    {
        if a[i] != b[i] {
            return false;
        }
        i += 1;
    }
    assert(a@ =~= b@);
    true
}

impl Part {
    /// Whether the two components are the same, however they are spelled.
    pub fn same(&self, other: &Part) -> (same: bool)
        ensures
            same == (self@.meaning() == other@.meaning()),
    {
        match (self, other) {
            (Part::Prefix { written: _, parsed: a }, Part::Prefix { written: _, parsed: b }) =>
                same_bytes(a, b),
            (Part::RootDir, Part::RootDir) => true,
            (Part::CurDir, Part::CurDir) => true,
            (Part::ParentDir, Part::ParentDir) => true,
            (Part::Normal(a), Part::Normal(b)) => same_bytes(a, b),
            _ => false,
        }
    }
}

impl Clone for Part {
    fn clone(&self) -> (copy: Part)
        ensures
            copy@ == self@,
    {
        match self {
            Part::Prefix { written, parsed } => {
                let written_copy = written.clone();
                let parsed_copy = parsed.clone();
                assert(written_copy@ =~= written@);
                assert(parsed_copy@ =~= parsed@);
                Part::Prefix { written: written_copy, parsed: parsed_copy }
            },
            Part::RootDir => Part::RootDir,
            Part::CurDir => Part::CurDir,
            Part::ParentDir => Part::ParentDir,
            Part::Normal(name) => {
                let name_copy = name.clone();
                assert(name_copy@ =~= name@);
                Part::Normal(name_copy)
            },
        }
    }
}

impl FilePath {
    /// The path that consists of `parts`.
    pub fn from_parts(parts: Vec<Part>) -> (path: FilePath)
        ensures
            path@ == part_views(parts@),
    {
        FilePath { parts }
    }

    /// The components of a native path.
    pub fn of(path: &std::path::PathBuf) -> (result: FilePath)
        ensures
            splits_into(*path, result@),
    {
        let parts = apply(components, path);
        FilePath { parts }
    }

    /// The components of the path that `text` spells.
    pub fn parse(text: &str) -> (result: FilePath)
        ensures
            reads_as(text@, result@),
    {
        let path = apply(native, text);
        FilePath::of(&path)
    }

    /// The components themselves.
    pub fn parts(&self) -> (parts: &Vec<Part>)
        ensures
            part_views(parts@) == self@,
    {
        &self.parts
    }

    /// Whether the two paths are the same, however they are spelled.
    pub fn same(&self, other: &FilePath) -> (same: bool)
        ensures
            same == same_path(self@, other@),
    {
        let same = self.parts.len() == other.parts.len() && self.starts_with(other);
        proof {
            let (mine, theirs) = (meaning(self@), meaning(other@));
            assert(mine.len() == self.parts@.len() && theirs.len() == other.parts@.len());
            assert(mine.len() == theirs.len() ==> mine.subrange(0, theirs.len() as int) =~= mine);
            assert(mine.subrange(0, mine.len() as int) =~= mine);
        }
        same
    }

    /// Whether the leading components are those of `base`, however they are
    /// spelled. Only whole components match.
    pub fn starts_with(&self, base: &FilePath) -> (covered: bool)
        ensures
            covered == lies_in(self@, base@),
    {
        let ghost mine = meaning(self@);
        let ghost theirs = meaning(base@);
        assert(mine.len() == self.parts@.len() && theirs.len() == base.parts@.len());
        if base.parts.len() > self.parts.len() {
            return false;
        }
        let mut i: usize = 0;
        while i < base.parts.len()
            invariant
                mine == meaning(self@),
                theirs == meaning(base@),
                base.parts@.len() <= self.parts@.len(),
                i <= base.parts@.len(),
                forall|k: int| 0 <= k < i ==> theirs[k] == mine[k],
            decreases base.parts@.len() - i,
        {
            assert(theirs[i as int] == base.parts@[i as int]@.meaning());
            assert(mine[i as int] == self.parts@[i as int]@.meaning());
            if !self.parts[i].same(&base.parts[i]) {
                assert(mine.subrange(0, theirs.len() as int)[i as int] != theirs[i as int]);
                return false;
            }
            i += 1;
        }
        assert(theirs =~= mine.subrange(0, theirs.len() as int));
        true
    }

    /// The path without its last component. There is none where the path is
    /// empty or ends in a root or a prefix.
    pub fn parent(&self) -> (parent: Option<FilePath>)
        ensures
            parent is Some <==> has_parent(self@),
            parent matches Some(dir) ==> dir@ == self@.drop_last(),
    {
        if self.parts.len() == 0 {
            return None;
        }
        let last: usize = self.parts.len() - 1;
        assert(self@.last() == self.parts@[last as int]@);
        match &self.parts[last] {
            Part::Prefix { .. } => None,
            Part::RootDir => None,
            _ => {
                let mut dir = self.clone();
                let dropped = dir.parts.pop();
                assert(dir@ =~= self@.drop_last());
                Some(dir)
            },
        }
    }

    /// The path extended by the plain file name `name`.
    pub(crate) fn join(&self, name: &str) -> (joined: FilePath)
        ensures
            joined@ == child(self@, name@),
    {
        let mut joined = self.clone();
        joined.parts.push(Part::Normal(name.as_bytes_vec()));
        assert(joined@ =~= child(self@, name@));
        joined
    }
}

/// A native path is split into all of its components, as they are, in order.
proof fn law_of(path: &std::path::PathBuf, result: FilePath)
    requires
        call_ensures(FilePath::of, (path,), result),
    ensures
        exists|parts: Vec<Part>| #[trigger]
            call_ensures(components, (path,), parts) && result@.len() == parts@.len() && forall|
                i: int,
            |
                0 <= i < parts@.len() ==> result@[i] == (#[trigger] parts@[i])@,
{
    let parts = choose|parts: Vec<Part>| #[trigger]
        call_ensures(components, (path,), parts) && part_views(parts@) == result@;
    assert(part_views(parts@).len() == parts@.len());
}

/// A text is read as the native path that is made of all of it.
proof fn law_parse(text: &str, result: FilePath)
    requires
        call_ensures(FilePath::parse, (text,), result),
    ensures
        exists|read: &str, path: std::path::PathBuf, parts: Vec<Part>|
            read@ == text@ && #[trigger] call_ensures(native, (read,), path)
                && #[trigger] call_ensures(components, (&path,), parts) && result@.len()
                == parts@.len() && forall|i: int|
                0 <= i < parts@.len() ==> result@[i] == (#[trigger] parts@[i])@,
{
    let (read, path) = choose|read: &str, path: std::path::PathBuf|
        read@ == text@ && #[trigger] call_ensures(native, (read,), path) && splits_into(
            path,
            result@,
        );
    let parts = choose|parts: Vec<Part>| #[trigger]
        call_ensures(components, (&path,), parts) && part_views(parts@) == result@;
    assert(part_views(parts@).len() == parts@.len());
}

/// Extending a path puts one component behind all of its own: the name, as it is.
proof fn law_join(path: &FilePath, name: &str, joined: FilePath)
    requires
        call_ensures(FilePath::join, (path, name), joined),
    ensures
        joined@.len() == path@.len() + 1,
        joined@.drop_last() == path@,
        joined@.last() == PartView::Normal(vstd::utf8::encode_utf8(name@)),
{
    assert(joined@.drop_last() =~= path@);
}

impl Clone for FilePath {
    fn clone(&self) -> (copy: FilePath)
        ensures
            copy@ == self@,
    {
        let mut parts: Vec<Part> = Vec::new();
        let mut i: usize = 0;
        while i < self.parts.len()
            invariant
                i <= self.parts@.len(),
                parts@.len() == i,
                forall|k: int| 0 <= k < i ==> (#[trigger] parts@[k])@ == self.parts@[k]@,
            decreases self.parts@.len() - i,
        {
            parts.push(self.parts[i].clone());
            i += 1;
        }
        assert(part_views(parts@) =~= part_views(self.parts@));
        FilePath { parts }
    }
}

} // verus!
