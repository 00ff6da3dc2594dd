//! What an analysis reports: crates, their files and the items found in them.

use crate::fold::{folds, folds_push};
use crate::path::{FilePath, PathView};
use vstd::prelude::*;

verus! {

/// A position in a source text.
#[derive(Clone, Copy, Debug, PartialEq, Eq, Structural)]
pub struct Loc(pub u32);

/// An analyzed source file: the name under which it was reported, the path
/// that the name spells, and the items found in it.
#[derive(Debug)]
pub struct File<I> {
    pub name: String,
    pub path: FilePath,
    pub items: Vec<I>,
}

/// What a [`File`] says.
pub struct FileView<I> {
    pub name: Seq<char>,
    pub path: PathView,
    pub items: Seq<I>,
}

impl<I> View for File<I> {
    type V = FileView<I>;

    open spec fn view(&self) -> FileView<I> {
        FileView { name: self.name@, path: self.path@, items: self.items@ }
    }
}

/// What the files say, one by one.
pub open spec fn file_views<I>(files: Seq<File<I>>) -> Seq<FileView<I>> {
    files.map_values(|file: File<I>| file@)
}

/// No name is reported twice.
pub open spec fn distinct_names<I>(files: Seq<FileView<I>>) -> bool {
    forall|i: int, j: int|
        0 <= i < j < files.len() ==> (#[trigger] files[i]).name != (#[trigger] files[j]).name
}

/// An analyzed crate: its files, no two of the same name.
#[derive(Debug)]
pub struct Crate<I> {
    files: Vec<File<I>>,
}

impl<I> View for Crate<I> {
    type V = Seq<FileView<I>>;

    closed spec fn view(&self) -> Seq<FileView<I>> {
        file_views(self.files@)
    }
}

/// The files after `file` was put in: in the place of the one that has its
/// name, or else behind the others.
pub open spec fn with_file<I>(
    before: Seq<FileView<I>>,
    file: FileView<I>,
    after: Seq<FileView<I>>,
) -> bool {
    if exists|i: int| 0 <= i < before.len() && (#[trigger] before[i]).name == file.name {
        exists|i: int|
            0 <= i < before.len() && (#[trigger] before[i]).name == file.name && after
                == before.update(i, file)
    } else {
        after == before.push(file)
    }
}

impl<I> Crate<I> {
    #[verifier::type_invariant]
    spec fn well_formed(&self) -> bool {
        distinct_names(file_views(self.files@))
    }

    /// A crate without files.
    pub fn new() -> (krate: Crate<I>)
        ensures
            krate@ == Seq::<FileView<I>>::empty(),
    {
        let krate = Crate { files: Vec::new() };
        assert(krate@ =~= Seq::<FileView<I>>::empty());
        krate
    }

    /// The files.
    pub fn files(&self) -> (files: &Vec<File<I>>)
        ensures
            file_views(files@) == self@,
            distinct_names(self@),
    {
        proof {
            use_type_invariant(self);
        }
        &self.files
    }

    /// The files, handed over.
    pub fn into_files(self) -> (files: Vec<File<I>>)
        ensures
            file_views(files@) == self@,
            distinct_names(self@),
    {
        proof {
            use_type_invariant(&self);
        }
        self.files
    }

    /// Whether no file was reported.
    pub fn is_empty(&self) -> (empty: bool)
        ensures
            empty == (self@.len() == 0),
    {
        self.files.len() == 0
    }

    /// Puts in the file that is reported under `name`. What it had under that
    /// name is replaced.
    pub fn insert(&mut self, name: String, items: Vec<I>)
        ensures
            exists|path: PathView|
                #[trigger] crate::path::reads_as(name@, path) && with_file(
                    old(self)@,
                    FileView { name: name@, path, items: items@ },
                    final(self)@,
                ),
    {
        let path = FilePath::parse(name.as_str());
        self.insert_at(name, path, items);
    }

    /// Puts in the file that is reported under `name` and lies at `path`. What
    /// it had under that name is replaced.
    pub fn insert_at(&mut self, name: String, path: FilePath, items: Vec<I>)
        ensures
            with_file(
                old(self)@,
                FileView { name: name@, path: path@, items: items@ },
                final(self)@,
            ),
    {
        proof {
            use_type_invariant(&*self);
        }
        let ghost before = file_views(self.files@);
        let file = File { name, path, items };
        let ghost said = file@;
        let mut files: Vec<File<I>> = Vec::new();
        std::mem::swap(&mut files, &mut self.files);
        let mut i: usize = 0;
        while i < files.len() && files[i].name != file.name
            invariant
                i <= files@.len(),
                before == file_views(files@),
                said == file@,
                forall|k: int| 0 <= k < i ==> (#[trigger] before[k]).name != said.name,
            decreases files@.len() - i,
        {
            assert(before[i as int] == files@[i as int]@);
            i += 1;
        }
        if i < files.len() {
            assert(before[i as int] == files@[i as int]@);
            files.set(i, file);
            assert(file_views(files@) =~= before.update(i as int, said));
        } else {
            files.push(file);
            assert(file_views(files@) =~= before.push(said));
        }
        self.files = files;
    }
}

/// `after` is what is known once `krate` was reported: the crate itself where
/// nothing was known, and else what `merge` makes of the two.
pub open spec fn absorbs_one<I, F: Fn(Crate<I>, Crate<I>) -> Crate<I>>(
    merge: F,
    before: Option<Crate<I>>,
    krate: Crate<I>,
    after: Option<Crate<I>>,
) -> bool {
    match before {
        None => after == Some(krate),
        Some(known) => after matches Some(merged) && call_ensures(merge, (known, krate), merged),
    }
}

/// What reporting one crate can make of what is known.
pub open spec fn absorb_step<I, F: Fn(Crate<I>, Crate<I>) -> Crate<I>>(
    merge: F,
) -> spec_fn(Option<Crate<I>>, Crate<I>, Option<Crate<I>>) -> bool {
    |before: Option<Crate<I>>, krate: Crate<I>, after: Option<Crate<I>>|
        absorbs_one(merge, before, krate, after)
}

/// `after` is what is known once all of `krates` were reported, in order.
pub open spec fn absorbs<I, F: Fn(Crate<I>, Crate<I>) -> Crate<I>>(
    merge: F,
    before: Option<Crate<I>>,
    krates: Seq<Crate<I>>,
    after: Option<Crate<I>>,
) -> bool {
    folds(absorb_step(merge), before, krates, after)
}

/// Takes in the crates that a line of output reports.
pub fn absorb<I, F: Fn(Crate<I>, Crate<I>) -> Crate<I>>(
    analyzed: Option<Crate<I>>,
    krates: Vec<Crate<I>>,
    merge: &F,
) -> (result: Option<Crate<I>>)
    requires
        forall|known: Crate<I>, krate: Crate<I>| call_requires(*merge, (known, krate)),
    ensures
        absorbs(*merge, analyzed, krates@, result),
{
    let mut current = analyzed;
    let ghost all = krates@;
    for krate in iter: krates
        invariant
            iter.seq() == all,
            absorbs(*merge, analyzed, all.take(iter.index() as int), current),
            forall|known: Crate<I>, krate: Crate<I>| call_requires(*merge, (known, krate)),
    {
        let ghost before = current;
        let ghost k = iter.index() as int;
        current = match current {
            None => Some(krate),
            Some(known) => Some(merge(known, krate)),
        };
        proof {
            let step = absorb_step(*merge);
            assert(step(before, all[k], current));
            folds_push(step, analyzed, all.take(k), before, all[k], current);
            assert(all.take(k).push(all[k]) =~= all.take(k + 1));
        }
    }
    assert(all.take(all.len() as int) =~= all);
    current
}

} // verus!
