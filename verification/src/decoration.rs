//! What is shown at the cursor.

use crate::fold::{folds, folds_push};
use crate::models::{Crate, File, FileView, Loc};
use crate::path::{same_path, FilePath, PathView};
use crate::progress::AnalysisStatus;
use vstd::prelude::*;

verus! {

/// A request for what is to be shown at a position of a file.
#[derive(Debug)]
pub struct CursorRequest {
    pub path: Option<FilePath>,
    pub line: u32,
    pub character: u32,
}

/// The answer to a [`CursorRequest`].
#[derive(Debug)]
pub struct Decorations<R> {
    pub is_analyzed: bool,
    pub status: AnalysisStatus,
    pub path: Option<FilePath>,
    pub decorations: Vec<R>,
}

/// The items of all files at `path`, in order. A path can be reported under
/// several names.
pub open spec fn items_at<I>(files: Seq<FileView<I>>, path: PathView) -> Seq<I>
    decreases files.len(),
{
    if files.len() == 0 {
        seq![]
    } else {
        items_at(files.drop_last(), path) + (if same_path(files.last().path, path) {
            files.last().items
        } else {
            seq![]
        })
    }
}

/// The outcome of a search for decorations. Where there are none, it says
/// whether the file has been analyzed at all.
pub open spec fn decos_outcome<D>(found: bool, decos: Vec<D>) -> Result<Vec<D>, AnalysisStatus> {
    if decos@.len() > 0 {
        Ok(decos)
    } else if found {
        Err(AnalysisStatus::Finished)
    } else {
        Err(AnalysisStatus::Error)
    }
}

/// The status to answer with: that of the analysis, but where it has finished
/// and there is nothing to show, the reason why.
pub open spec fn reply_status<D>(
    status: AnalysisStatus,
    decos: Result<Vec<D>, AnalysisStatus>,
) -> AnalysisStatus {
    match decos {
        Ok(_) => status,
        Err(reason) => if status == AnalysisStatus::Finished {
            reason
        } else {
            status
        },
    }
}

/// The two passes over the items of a file. The first one selects what lies at
/// the position, the second one turns what was selected into decorations, whose
/// overlaps are handled before they are read.
#[derive(Debug)]
pub struct Passes<NS, VS, NC, VC, HO, DE> {
    /// Starts a selection at a position.
    pub new_select: NS,
    /// Takes an item into the selection.
    pub visit_select: VS,
    /// Starts a calculation on what was selected.
    pub new_calc: NC,
    /// Takes an item into the calculation.
    pub visit_calc: VC,
    /// Handles the overlaps of what was calculated.
    pub handle_overlapping: HO,
    /// Reads the decorations.
    pub decorations: DE,
}

/// What `visit` can make of a state when it visits an item.
pub open spec fn visit_step<I, S, F: Fn(S, &I) -> S>(visit: F) -> spec_fn(S, I, S) -> bool {
    |state: S, item: I, next: S| call_ensures(visit, (state, &item), next)
}

/// `end` is what `visit` makes of `start` when it visits the items in order.
pub open spec fn visits<I, S, F: Fn(S, &I) -> S>(
    visit: F,
    start: S,
    items: Seq<I>,
    end: S,
) -> bool {
    folds(visit_step::<I, S, F>(visit), start, items, end)
}

/// What the two passes have come to, step by step.
pub struct Trail<S, C> {
    pub selection: S,
    pub selected: S,
    pub calculation: C,
    pub calculated: C,
    pub handled: C,
}

impl<NS, VS, NC, VC, HO, DE> Passes<NS, VS, NC, VC, HO, DE> {
    /// Each step can be taken from wherever the ones before it lead.
    pub open spec fn runs<I, S, C, D>(self) -> bool where
        NS: Fn(Loc) -> S,
        VS: Fn(S, &I) -> S,
        NC: Fn(&S) -> C,
        VC: Fn(C, &I) -> C,
        HO: Fn(C) -> C,
        DE: Fn(C) -> Vec<D>,
     {
        &&& forall|position: Loc| call_requires(self.new_select, (position,))
        &&& forall|selection: S, item: &I| call_requires(self.visit_select, (selection, item))
        &&& forall|selected: &S| call_requires(self.new_calc, (selected,))
        &&& forall|calculation: C, item: &I| call_requires(self.visit_calc, (calculation, item))
        &&& forall|calculated: C| call_requires(self.handle_overlapping, (calculated,))
        &&& forall|handled: C| call_requires(self.decorations, (handled,))
    }

    /// Each step has one outcome only.
    pub open spec fn are_functions<I, S, C, D>(self) -> bool where
        NS: Fn(Loc) -> S,
        VS: Fn(S, &I) -> S,
        NC: Fn(&S) -> C,
        VC: Fn(C, &I) -> C,
        HO: Fn(C) -> C,
        DE: Fn(C) -> Vec<D>,
     {
        &&& forall|position: Loc, a: S, b: S| #[trigger]
            call_ensures(self.new_select, (position,), a) && #[trigger] call_ensures(
                self.new_select,
                (position,),
                b,
            ) ==> a == b
        &&& visits_once::<I, S, VS>(self.visit_select)
        &&& forall|selected: &S, a: C, b: C| #[trigger]
            call_ensures(self.new_calc, (selected,), a) && #[trigger] call_ensures(
                self.new_calc,
                (selected,),
                b,
            ) ==> a == b
        &&& visits_once::<I, C, VC>(self.visit_calc)
        &&& forall|calculated: C, a: C, b: C| #[trigger]
            call_ensures(self.handle_overlapping, (calculated,), a) && #[trigger] call_ensures(
                self.handle_overlapping,
                (calculated,),
                b,
            ) ==> a == b
        &&& forall|handled: C, a: Vec<D>, b: Vec<D>| #[trigger]
            call_ensures(self.decorations, (handled,), a) && #[trigger] call_ensures(
                self.decorations,
                (handled,),
                b,
            ) ==> a@ == b@
    }

    /// The passes over `items` can leave this trail, and come to `decos`.
    pub open spec fn leaves<I, S, C, D>(
        self,
        position: Loc,
        items: Seq<I>,
        trail: Trail<S, C>,
        decos: Vec<D>,
    ) -> bool where
        NS: Fn(Loc) -> S,
        VS: Fn(S, &I) -> S,
        NC: Fn(&S) -> C,
        VC: Fn(C, &I) -> C,
        HO: Fn(C) -> C,
        DE: Fn(C) -> Vec<D>,
     {
        &&& call_ensures(self.new_select, (position,), trail.selection)
        &&& visits(self.visit_select, trail.selection, items, trail.selected)
        &&& call_ensures(self.new_calc, (&trail.selected,), trail.calculation)
        &&& visits(self.visit_calc, trail.calculation, items, trail.calculated)
        &&& call_ensures(self.handle_overlapping, (trail.calculated,), trail.handled)
        &&& call_ensures(self.decorations, (trail.handled,), decos)
    }

    /// The passes over `items` can come to `decos`.
    pub open spec fn come_to<I, S, C, D>(
        self,
        position: Loc,
        items: Seq<I>,
        decos: Vec<D>,
    ) -> bool where
        NS: Fn(Loc) -> S,
        VS: Fn(S, &I) -> S,
        NC: Fn(&S) -> C,
        VC: Fn(C, &I) -> C,
        HO: Fn(C) -> C,
        DE: Fn(C) -> Vec<D>,
     {
        exists|trail: Trail<S, C>| #[trigger] self.leaves(position, items, trail, decos)
    }

    /// Runs the two passes over `items`.
    pub fn run<I, S, C, D>(&self, position: Loc, items: &Vec<&I>) -> (decos: Vec<D>) where
        NS: Fn(Loc) -> S,
        VS: Fn(S, &I) -> S,
        NC: Fn(&S) -> C,
        VC: Fn(C, &I) -> C,
        HO: Fn(C) -> C,
        DE: Fn(C) -> Vec<D>,

        requires
            self.runs::<I, S, C, D>(),
        ensures
            self.come_to::<I, S, C, D>(position, items@.unref(), decos),
    {
        let selection = (self.new_select)(position);
        let ghost first = selection;
        let selected = visit_all(selection, items, &self.visit_select);
        let calculation = (self.new_calc)(&selected);
        let ghost second = calculation;
        let calculated = visit_all(calculation, items, &self.visit_calc);
        let ghost third = calculated;
        let handled = (self.handle_overlapping)(calculated);
        let ghost fourth = handled;
        let decos = (self.decorations)(handled);
        proof {
            let trail = Trail {
                selection: first,
                selected,
                calculation: second,
                calculated: third,
                handled: fourth,
            };
            assert(self.leaves(position, items@.unref(), trail, decos));
        }
        decos
    }
}

/// Each visit has one outcome only.
pub open spec fn visits_once<I, S, F: Fn(S, &I) -> S>(visit: F) -> bool {
    forall|state: S, item: &I, a: S, b: S| #[trigger]
        call_ensures(visit, (state, item), a) && #[trigger] call_ensures(visit, (state, item), b)
            ==> a == b
}

/// Visits the items in order.
pub fn visit_all<I, S, F: Fn(S, &I) -> S>(start: S, items: &Vec<&I>, visit: &F) -> (end: S)
    requires
        forall|state: S, item: &I| call_requires(*visit, (state, item)),
    ensures
        visits(*visit, start, items@.unref(), end),
{
    let ghost all = items@.unref();
    let ghost first = start;
    let mut state = start;
    let mut i: usize = 0;
    while i < items.len()
        invariant
            i <= items@.len(),
            all == items@.unref(),
            visits(*visit, first, all.take(i as int), state),
            forall|state: S, item: &I| call_requires(*visit, (state, item)),
        decreases items@.len() - i,
    {
        let ghost between = state;
        state = visit(state, items[i]);
        proof {
            let item = all[i as int];
            let step = visit_step::<I, S, F>(*visit);
            assert(all.take(i + 1) =~= all.take(i as int).push(item));
            assert(step(between, item, state));
            folds_push(step, first, all.take(i as int), between, item, state);
        }
        i += 1;
    }
    assert(all.take(all.len() as int) =~= all);
    state
}

/// `result` is what the decorations at `position` can come to, by the passes
/// over the items of the file.
pub open spec fn decides<I, S, C, D, NS, VS, NC, VC, HO, DE>(
    files: Option<Seq<FileView<I>>>,
    path: PathView,
    position: Loc,
    passes: Passes<NS, VS, NC, VC, HO, DE>,
    result: Result<Vec<D>, AnalysisStatus>,
) -> bool where
    NS: Fn(Loc) -> S,
    VS: Fn(S, &I) -> S,
    NC: Fn(&S) -> C,
    VC: Fn(C, &I) -> C,
    HO: Fn(C) -> C,
    DE: Fn(C) -> Vec<D>,
 {
    match files {
        None => result == Err::<Vec<D>, AnalysisStatus>(AnalysisStatus::Error),
        Some(known) => exists|decos: Vec<D>| #[trigger]
            passes.come_to::<I, S, C, D>(position, items_at(known, path), decos) && result
                == decos_outcome(items_at(known, path).len() > 0, decos),
    }
}

/// `answer` is what a request can be answered, where the server knows `files` and
/// has the given status, and `text` is the text of the file.
pub open spec fn answers<I, S, C, D, R, FI, NS, VS, NC, VC, HO, DE, FR>(
    files: Option<Seq<FileView<I>>>,
    status: AnalysisStatus,
    request: CursorRequest,
    text: Option<&str>,
    index: FI,
    passes: Passes<NS, VS, NC, VC, HO, DE>,
    range: FR,
    answer: Decorations<R>,
) -> bool where
    FI: Fn(&str, u32, u32) -> u32,
    NS: Fn(Loc) -> S,
    VS: Fn(S, &I) -> S,
    NC: Fn(&S) -> C,
    VC: Fn(C, &I) -> C,
    HO: Fn(C) -> C,
    DE: Fn(C) -> Vec<D>,
    FR: Fn(D, &str) -> R,
 {
    &&& answer.is_analyzed == (files is Some)
    &&& match (request.path, text) {
        (Some(path), Some(known)) => {
            &&& answer.path matches Some(shown_path) && shown_path@ == path@
            &&& exists|position: u32, decos: Result<Vec<D>, AnalysisStatus>|
                #[trigger] call_ensures(
                    index,
                    (known, request.line, request.character),
                    position,
                ) && #[trigger] decides::<I, S, C, D, NS, VS, NC, VC, HO, DE>(
                    files,
                    path@,
                    Loc(position),
                    passes,
                    decos,
                ) && answer.status == reply_status(status, decos) && shows(
                    decos,
                    known,
                    range,
                    answer.decorations@,
                )
        },
        _ => {
            &&& answer.path is None
            &&& answer.status == status
            &&& answer.decorations@.len() == 0
        },
    }
}

/// `shown` is what `range` makes of the decorations, one by one.
pub open spec fn shows<D, R, FR: Fn(D, &str) -> R>(
    decos: Result<Vec<D>, AnalysisStatus>,
    text: &str,
    range: FR,
    shown: Seq<R>,
) -> bool {
    match decos {
        Ok(known) => shown.len() == known@.len() && forall|i: int|
            0 <= i < shown.len() ==> call_ensures(range, (known@[i], text), #[trigger] shown[i]),
        Err(_) => shown.len() == 0,
    }
}

/// Picks the items of all files at `path`.
pub fn pick_items<'a, I>(krate: &'a Crate<I>, path: &FilePath) -> (items: Vec<&'a I>)
    ensures
        items@.unref() == items_at(krate@, path@),
{
    let files: &Vec<File<I>> = krate.files();
    let mut items: Vec<&'a I> = Vec::new();
    assert(items@.unref() =~= items_at(krate@.take(0), path@));
    let mut i: usize = 0;
    while i < files.len()
        invariant
            i <= files@.len(),
            krate@ == crate::models::file_views(files@),
            items@.unref() == items_at(krate@.take(i as int), path@),
        decreases files@.len() - i,
    {
        let file: &'a File<I> = &files[i];
        let ghost before = items@.unref();
        assert(krate@[i as int] == file@);
        assert(krate@.take(i + 1).drop_last() =~= krate@.take(i as int));
        assert(krate@.take(i + 1).last() == file@);
        if file.path.same(path) {
            let mut j: usize = 0;
            while j < file.items.len()
                invariant
                    j <= file.items@.len(),
                    items@.unref() =~= before + file.items@.take(j as int),
                decreases file.items@.len() - j,
            {
                let ghost step = items@.unref();
                items.push(&file.items[j]);
                assert(items@.unref() =~= step.push(file.items@[j as int]));
                assert(file.items@.take(j + 1) =~= file.items@.take(j as int).push(
                    file.items@[j as int],
                ));
                j += 1;
            }
            assert(file.items@.take(file.items@.len() as int) =~= file.items@);
        } else {
            assert(before + seq![] =~= before);
        }
        i += 1;
    }
    assert(krate@.take(krate@.len() as int) =~= krate@);
    items
}

/// The outcome of a search that came to `decos`. `found` says whether the file
/// has any items.
pub fn conclude<D>(found: bool, decos: Vec<D>) -> (result: Result<Vec<D>, AnalysisStatus>)
    ensures
        result == decos_outcome(found, decos),
{
    if decos.len() > 0 {
        Ok(decos)
    } else if found {
        Err(AnalysisStatus::Finished)
    } else {
        Err(AnalysisStatus::Error)
    }
}

/// Turns the decorations into what the client is shown.
pub fn show<D, R, FR: Fn(D, &str) -> R>(
    decos: Result<Vec<D>, AnalysisStatus>,
    text: &str,
    range: &FR,
) -> (shown: Vec<R>)
    requires
        forall|deco: D, text: &str| call_requires(*range, (deco, text)),
    ensures
        shows(decos, text, *range, shown@),
{
    let mut shown: Vec<R> = Vec::new();
    match decos {
        Ok(known) => {
            let ghost all = known@;
            for deco in iter: known
                invariant
                    iter.seq() == all,
                    shown@.len() == iter.index(),
                    forall|deco: D, text: &str| call_requires(*range, (deco, text)),
                    forall|i: int|
                        0 <= i < shown@.len() ==> call_ensures(
                            *range,
                            (all[i], text),
                            #[trigger] shown@[i],
                        ),
            {
                shown.push(range(deco, text));
            }
        },
        Err(_) => {},
    }
    shown
}

} // verus!
