//! What holds of each answer to what is to be shown at the cursor.

use crate::backend::Backend;
use crate::decoration::{
    conclude, decides, items_at, pick_items, show, visit_all, visit_step, visits, CursorRequest,
    Decorations, Passes, Trail,
};
use crate::fold::folds_trail;
use crate::models::{Crate, FileView, Loc};
use crate::path::{FilePath, PathView};
use crate::path_laws::{all_alike, same_path_all_alike};
use crate::progress::AnalysisStatus;
use vstd::prelude::*;

verus! {

/// The files that lie at `path`.
pub open spec fn lies_at<I>(path: PathView) -> spec_fn(FileView<I>) -> bool {
    |file: FileView<I>| all_alike(file.path, path)
}

/// The items of the files that lie at `path`, one file after the other.
pub open spec fn items_of<I>(files: Seq<FileView<I>>, path: PathView) -> Seq<I> {
    files.filter(lies_at(path)).map_values(|file: FileView<I>| file.items).flatten()
}

/// The items at a path are those of its files.
proof fn items_at_are_items_of<I>(files: Seq<FileView<I>>, path: PathView)
    ensures
        items_at(files, path) == items_of(files, path),
    decreases files.len(),
{
    let at = lies_at::<I>(path);
    let items = |file: FileView<I>| file.items;
    if files.len() > 0 {
        let before = files.drop_last();
        let last = files.last();
        items_at_are_items_of(before, path);
        same_path_all_alike(last.path, path);
        assert(before.push(last) =~= files);
        before.lemma_filter_push(last, at);
        let kept = before.filter(at);
        if at(last) {
            assert(kept.push(last).map_values(items) =~= kept.map_values(items).push(last.items));
            kept.map_values(items).lemma_flatten_push(last.items);
        } else {
            assert(items_at(before, path) + Seq::<I>::empty() =~= items_at(before, path));
        }
    } else {
        files.lemma_filter_len(at);
        assert(files.filter(at).map_values(items) =~= seq![]);
        assert(items_at(files, path) =~= items_of(files, path));
    }
}

/// Exactly the items of the files at the path are picked, in order.
pub proof fn law_pick_items<I>(krate: &Crate<I>, path: &FilePath, items: Vec<&I>)
    requires
        call_ensures(pick_items::<I>, (krate, path), items),
    ensures
        items@.unref() == items_of(krate@, path@),
{
    items_at_are_items_of(krate@, path@);
}

/// `states` are what the visits lead through: each item is visited in its turn, in
/// the state that the one before it has left.
pub open spec fn visits_in_turn<I, S, F: Fn(S, &I) -> S>(
    visit: F,
    items: Seq<I>,
    states: Seq<S>,
) -> bool {
    states.len() == items.len() + 1 && forall|i: int|
        0 <= i < items.len() ==> call_ensures(
            visit,
            (states[i], &#[trigger] items[i]),
            states[i + 1],
        )
}

/// Visits lead through states.
proof fn visits_have_states<I, S, F: Fn(S, &I) -> S>(
    visit: F,
    start: S,
    items: Seq<I>,
    end: S,
) -> (states: Seq<S>)
    requires
        visits(visit, start, items, end),
    ensures
        visits_in_turn(visit, items, states),
        states[0] == start,
        states[items.len() as int] == end,
{
    let step = visit_step::<I, S, F>(visit);
    let states = folds_trail(step, start, items, end);
    assert forall|i: int| 0 <= i < items.len() implies call_ensures(
        visit,
        (states[i], &#[trigger] items[i]),
        states[i + 1],
    ) by {
        assert(step(states[i], items[i], states[i + 1]));
    }
    states
}

/// All items are visited, each in its turn.
pub proof fn law_visit_all<I, S, F: Fn(S, &I) -> S>(
    start: S,
    items: &Vec<&I>,
    visit: &F,
    end: S,
)
    requires
        call_ensures(visit_all::<I, S, F>, (start, items, visit), end),
    ensures
        exists|states: Seq<S>| #[trigger]
            visits_in_turn(*visit, items@.unref(), states) && states[0] == start
                && states[items@.len() as int] == end,
{
    let states = visits_have_states(*visit, start, items@.unref(), end);
}

/// The two passes go through these states: a selection is started at the position
/// and visits every item; a calculation is started on what was selected and visits
/// every item; its overlaps are handled, and then the decorations are read.
pub open spec fn passes_go_through<I, S, C, D, NS, VS, NC, VC, HO, DE>(
    passes: Passes<NS, VS, NC, VC, HO, DE>,
    position: Loc,
    items: Seq<I>,
    selections: Seq<S>,
    calculations: Seq<C>,
    handled: C,
    decos: Vec<D>,
) -> bool where
    NS: Fn(Loc) -> S,
    VS: Fn(S, &I) -> S,
    NC: Fn(&S) -> C,
    VC: Fn(C, &I) -> C,
    HO: Fn(C) -> C,
    DE: Fn(C) -> Vec<D>,
 {
    &&& call_ensures(passes.new_select, (position,), selections[0])
    &&& visits_in_turn(passes.visit_select, items, selections)
    &&& call_ensures(
        passes.new_calc,
        (&selections[items.len() as int],),
        calculations[0],
    )
    &&& visits_in_turn(passes.visit_calc, items, calculations)
    &&& call_ensures(
        passes.handle_overlapping,
        (calculations[items.len() as int],),
        handled,
    )
    &&& call_ensures(passes.decorations, (handled,), decos)
}

/// The two passes over the items, started at the position, can lead to `decos`.
pub open spec fn passes_lead_to<I, S, C, D, NS, VS, NC, VC, HO, DE>(
    passes: Passes<NS, VS, NC, VC, HO, DE>,
    position: Loc,
    items: Seq<I>,
    decos: Vec<D>,
) -> bool where
    NS: Fn(Loc) -> S,
    VS: Fn(S, &I) -> S,
    NC: Fn(&S) -> C,
    VC: Fn(C, &I) -> C,
    HO: Fn(C) -> C,
    DE: Fn(C) -> Vec<D>,
 {
    exists|selections: Seq<S>, calculations: Seq<C>, handled: C| #[trigger]
        passes_go_through::<I, S, C, D, NS, VS, NC, VC, HO, DE>(
            passes,
            position,
            items,
            selections,
            calculations,
            handled,
            decos,
        )
}

/// What the passes come to, they lead to.
proof fn come_to_leads_to<I, S, C, D, NS, VS, NC, VC, HO, DE>(
    passes: Passes<NS, VS, NC, VC, HO, DE>,
    position: Loc,
    items: Seq<I>,
    decos: Vec<D>,
) where
    NS: Fn(Loc) -> S,
    VS: Fn(S, &I) -> S,
    NC: Fn(&S) -> C,
    VC: Fn(C, &I) -> C,
    HO: Fn(C) -> C,
    DE: Fn(C) -> Vec<D>,

    requires
        passes.come_to::<I, S, C, D>(position, items, decos),
    ensures
        passes_lead_to::<I, S, C, D, NS, VS, NC, VC, HO, DE>(passes, position, items, decos),
{
    let trail = choose|trail: Trail<S, C>| #[trigger]
        passes.leaves(position, items, trail, decos);
    let selections = visits_have_states(
        passes.visit_select,
        trail.selection,
        items,
        trail.selected,
    );
    let calculations = visits_have_states(
        passes.visit_calc,
        trail.calculation,
        items,
        trail.calculated,
    );
    assert(passes_go_through::<I, S, C, D, NS, VS, NC, VC, HO, DE>(
        passes,
        position,
        items,
        selections,
        calculations,
        trail.handled,
        decos,
    ));
}

/// Running the passes takes every step, on every item, in order.
pub proof fn law_passes_run<I, S, C, D, NS, VS, NC, VC, HO, DE>(
    passes: &Passes<NS, VS, NC, VC, HO, DE>,
    position: Loc,
    items: &Vec<&I>,
    decos: Vec<D>,
) where
    NS: Fn(Loc) -> S,
    VS: Fn(S, &I) -> S,
    NC: Fn(&S) -> C,
    VC: Fn(C, &I) -> C,
    HO: Fn(C) -> C,
    DE: Fn(C) -> Vec<D>,

    requires
        call_ensures(
            Passes::<NS, VS, NC, VC, HO, DE>::run::<I, S, C, D>,
            (passes, position, items),
            decos,
        ),
    ensures
        passes_lead_to::<I, S, C, D, NS, VS, NC, VC, HO, DE>(
            *passes,
            position,
            items@.unref(),
            decos,
        ),
{
    come_to_leads_to::<I, S, C, D, NS, VS, NC, VC, HO, DE>(
        *passes,
        position,
        items@.unref(),
        decos,
    );
}

/// Decorations are handed on as they are. Without any, it is said whether the file
/// has items.
pub proof fn law_conclude<D>(
    found: bool,
    decos: Vec<D>,
    result: Result<Vec<D>, AnalysisStatus>,
)
    requires
        call_ensures(conclude::<D>, (found, decos), result),
    ensures
        decos@.len() > 0 ==> result == Ok::<Vec<D>, AnalysisStatus>(decos),
        decos@.len() == 0 && found ==> result == Err::<Vec<D>, AnalysisStatus>(
            AnalysisStatus::Finished,
        ),
        decos@.len() == 0 && !found ==> result == Err::<Vec<D>, AnalysisStatus>(
            AnalysisStatus::Error,
        ),
{
}

/// `shown` are the decorations, each placed in the text, in order.
pub open spec fn are_placed<D, R, FR: Fn(D, &str) -> R>(
    decos: Seq<D>,
    text: &str,
    range: FR,
    shown: Seq<R>,
) -> bool {
    shown.len() == decos.len() && forall|i: int|
        0 <= i < decos.len() ==> call_ensures(range, (#[trigger] decos[i], text), shown[i])
}

/// All decorations are placed in the text, and nothing is shown without any.
pub proof fn law_show<D, R, FR: Fn(D, &str) -> R>(
    decos: Result<Vec<D>, AnalysisStatus>,
    text: &str,
    range: &FR,
    shown: Vec<R>,
)
    requires
        call_ensures(show::<D, R, FR>, (decos, text, range), shown),
    ensures
        decos matches Ok(known) ==> are_placed(known@, text, *range, shown@),
        decos is Err ==> shown@.len() == 0,
{
}

/// What the decorations of a file come to: those that the passes over its items
/// lead to. Where these are none, the outcome tells whether the file has items;
/// where nothing is analyzed, it is an error.
pub proof fn law_decos<I, S, C, D, NS, VS, NC, VC, HO, DE>(
    backend: &Backend<I>,
    filepath: &FilePath,
    position: Loc,
    passes: &Passes<NS, VS, NC, VC, HO, DE>,
    result: Result<Vec<D>, AnalysisStatus>,
) where
    NS: Fn(Loc) -> S,
    VS: Fn(S, &I) -> S,
    NC: Fn(&S) -> C,
    VC: Fn(C, &I) -> C,
    HO: Fn(C) -> C,
    DE: Fn(C) -> Vec<D>,

    requires
        call_ensures(
            Backend::<I>::decos::<S, C, D, NS, VS, NC, VC, HO, DE>,
            (backend, filepath, position, passes),
            result,
        ),
    ensures
        match backend@.analyzed {
            None => result == Err::<Vec<D>, AnalysisStatus>(AnalysisStatus::Error),
            Some(krate) => exists|decos: Vec<D>| #[trigger]
                passes_lead_to::<I, S, C, D, NS, VS, NC, VC, HO, DE>(
                    *passes,
                    position,
                    items_of(krate@, filepath@),
                    decos,
                ) && match result {
                    Ok(found) => found@.len() > 0 && found == decos,
                    Err(reason) => decos@.len() == 0 && reason == (if items_of(
                        krate@,
                        filepath@,
                    ).len() > 0 {
                        AnalysisStatus::Finished
                    } else {
                        AnalysisStatus::Error
                    }),
                },
        },
{
    match backend@.analyzed {
        None => {},
        Some(krate) => {
            items_at_are_items_of(krate@, filepath@);
            let items = items_at(krate@, filepath@);
            let decos = choose|decos: Vec<D>| #[trigger]
                passes.come_to::<I, S, C, D>(position, items, decos) && result
                    == crate::decoration::decos_outcome(items.len() > 0, decos);
            come_to_leads_to::<I, S, C, D, NS, VS, NC, VC, HO, DE>(
                *passes,
                position,
                items,
                decos,
            );
        },
    }
}

/// What is answered for a position of a readable file. The decorations are those
/// that the passes, started at the position, lead to on the items of the file, each
/// placed in the text. The status is that of the server, but where the analysis has
/// finished and there is nothing to show, it tells whether the file has items.
pub open spec fn answers_position<I, S, C, D, R, NS, VS, NC, VC, HO, DE, FR>(
    analyzed: Option<Crate<I>>,
    status: AnalysisStatus,
    path: PathView,
    text: &str,
    position: Loc,
    passes: Passes<NS, VS, NC, VC, HO, DE>,
    range: FR,
    answer: Decorations<R>,
) -> bool where
    NS: Fn(Loc) -> S,
    VS: Fn(S, &I) -> S,
    NC: Fn(&S) -> C,
    VC: Fn(C, &I) -> C,
    HO: Fn(C) -> C,
    DE: Fn(C) -> Vec<D>,
    FR: Fn(D, &str) -> R,
 {
    match analyzed {
        None => {
            &&& answer.decorations@.len() == 0
            &&& answer.status == (if status == AnalysisStatus::Finished {
                AnalysisStatus::Error
            } else {
                status
            })
        },
        Some(krate) => exists|decos: Vec<D>| #[trigger]
            passes_lead_to::<I, S, C, D, NS, VS, NC, VC, HO, DE>(
                passes,
                position,
                items_of(krate@, path),
                decos,
            ) && are_placed(decos@, text, range, answer.decorations@) && answer.status == (if status
                != AnalysisStatus::Finished || decos@.len() > 0 {
                status
            } else if items_of(krate@, path).len() > 0 {
                AnalysisStatus::Finished
            } else {
                AnalysisStatus::Error
            }),
    }
}

/// A request is answered for the position that lies at its line and its character
/// in the text. Where it names no path, or the file could not be read, nothing is
/// shown and no path is named.
pub proof fn law_cursor<I, S, C, D, R, FI, NS, VS, NC, VC, HO, DE, FR>(
    backend: &Backend<I>,
    request: CursorRequest,
    text: Option<&str>,
    index: &FI,
    passes: &Passes<NS, VS, NC, VC, HO, DE>,
    range: &FR,
    answer: Decorations<R>,
) where
    FI: Fn(&str, u32, u32) -> u32,
    NS: Fn(Loc) -> S,
    VS: Fn(S, &I) -> S,
    NC: Fn(&S) -> C,
    VC: Fn(C, &I) -> C,
    HO: Fn(C) -> C,
    DE: Fn(C) -> Vec<D>,
    FR: Fn(D, &str) -> R,

    requires
        call_ensures(
            Backend::<I>::cursor::<S, C, D, R, FI, NS, VS, NC, VC, HO, DE, FR>,
            (backend, request, text, index, passes, range),
            answer,
        ),
    ensures
        answer.is_analyzed <==> backend@.analyzed is Some,
        request.path is None || text is None ==> answer.path is None && answer.decorations@.len()
            == 0 && answer.status == backend@.status,
        request.path is Some && text is Some ==> answer.path is Some && answer.path->0@
            == request.path->0@ && exists|position: u32| #[trigger]
            call_ensures(*index, (text->0, request.line, request.character), position)
                && answers_position::<I, S, C, D, R, NS, VS, NC, VC, HO, DE, FR>(
                backend@.analyzed,
                backend@.status,
                request.path->0@,
                text->0,
                Loc(position),
                *passes,
                *range,
                answer,
            ),
{
    if request.path is Some && text is Some {
        let path = request.path->0@;
        let known = text->0;
        let (position, result) = choose|position: u32, result: Result<Vec<D>, AnalysisStatus>|
            #[trigger] call_ensures(*index, (known, request.line, request.character), position)
                && #[trigger] decides::<I, S, C, D, NS, VS, NC, VC, HO, DE>(
                backend@.files(),
                path,
                Loc(position),
                *passes,
                result,
            ) && answer.status == crate::decoration::reply_status(backend@.status, result)
                && crate::decoration::shows(result, known, *range, answer.decorations@);
        match backend@.analyzed {
            None => {},
            Some(krate) => {
                items_at_are_items_of(krate@, path);
                let items = items_at(krate@, path);
                let decos = choose|decos: Vec<D>| #[trigger]
                    passes.come_to::<I, S, C, D>(Loc(position), items, decos) && result
                        == crate::decoration::decos_outcome(items.len() > 0, decos);
                come_to_leads_to::<I, S, C, D, NS, VS, NC, VC, HO, DE>(
                    *passes,
                    Loc(position),
                    items,
                    decos,
                );
                assert(are_placed(decos@, known, *range, answer.decorations@));
            },
        }
        assert(answers_position::<I, S, C, D, R, NS, VS, NC, VC, HO, DE, FR>(
            backend@.analyzed,
            backend@.status,
            path,
            known,
            Loc(position),
            *passes,
            *range,
            answer,
        ));
    }
}

/// Passes that do nothing but show the position that they were started at.
pub open spec fn show_the_position<I, NS, VS, NC, VC, HO, DE>(
    passes: Passes<NS, VS, NC, VC, HO, DE>,
) -> bool where
    NS: Fn(Loc) -> u32,
    VS: Fn(u32, &I) -> u32,
    NC: Fn(&u32) -> u32,
    VC: Fn(u32, &I) -> u32,
    HO: Fn(u32) -> u32,
    DE: Fn(u32) -> Vec<u32>,
 {
    &&& forall|position: Loc, r: u32| #[trigger]
        call_ensures(passes.new_select, (position,), r) ==> r == position.0
    &&& forall|s: u32, item: &I, r: u32| #[trigger]
        call_ensures(passes.visit_select, (s, item), r) ==> r == s
    &&& forall|s: &u32, r: u32| #[trigger] call_ensures(passes.new_calc, (s,), r) ==> r == *s
    &&& forall|c: u32, item: &I, r: u32| #[trigger]
        call_ensures(passes.visit_calc, (c, item), r) ==> r == c
    &&& forall|c: u32, r: u32| #[trigger]
        call_ensures(passes.handle_overlapping, (c,), r) ==> r == c
    &&& forall|c: u32, r: Vec<u32>| #[trigger]
        call_ensures(passes.decorations, (c,), r) ==> r@ == seq![c]
}

/// Visits that keep the state end where they start.
proof fn visits_that_keep<I, F: Fn(u32, &I) -> u32>(
    visit: F,
    items: Seq<I>,
    states: Seq<u32>,
    upto: int,
)
    requires
        forall|s: u32, item: &I, r: u32| #[trigger] call_ensures(visit, (s, item), r) ==> r == s,
        visits_in_turn(visit, items, states),
        0 <= upto <= items.len(),
    ensures
        states[upto] == states[0],
    decreases upto,
{
    if upto > 0 {
        visits_that_keep(visit, items, states, upto - 1);
        assert(call_ensures(visit, (states[upto - 1], &items[upto - 1]), states[upto]));
    }
}

/// What is shown is what lies at the line and the character of the request: passes
/// that show the position that they were started at show the one that `index` finds
/// for both of them.
pub proof fn law_cursor_shows_the_position<I, FI, NS, VS, NC, VC, HO, DE, FR>(
    backend: &Backend<I>,
    request: CursorRequest,
    text: &str,
    index: &FI,
    passes: &Passes<NS, VS, NC, VC, HO, DE>,
    range: &FR,
    answer: Decorations<u32>,
) where
    FI: Fn(&str, u32, u32) -> u32,
    NS: Fn(Loc) -> u32,
    VS: Fn(u32, &I) -> u32,
    NC: Fn(&u32) -> u32,
    VC: Fn(u32, &I) -> u32,
    HO: Fn(u32) -> u32,
    DE: Fn(u32) -> Vec<u32>,
    FR: Fn(u32, &str) -> u32,

    requires
        backend@.analyzed is Some,
        request.path is Some,
        show_the_position::<I, NS, VS, NC, VC, HO, DE>(*passes),
        forall|deco: u32, t: &str, r: u32| #[trigger]
            call_ensures(*range, (deco, t), r) ==> r == deco,
        call_ensures(
            Backend::<I>::cursor::<u32, u32, u32, u32, FI, NS, VS, NC, VC, HO, DE, FR>,
            (backend, request, Some(text), index, passes, range),
            answer,
        ),
    ensures
        answer.decorations@.len() == 1,
        call_ensures(*index, (text, request.line, request.character), answer.decorations@[0]),
{
    law_cursor::<I, u32, u32, u32, u32, FI, NS, VS, NC, VC, HO, DE, FR>(
        backend,
        request,
        Some(text),
        index,
        passes,
        range,
        answer,
    );
    let path = request.path->0@;
    let krate = backend@.analyzed->0;
    let position = choose|position: u32| #[trigger]
        call_ensures(*index, (text, request.line, request.character), position)
            && answers_position::<I, u32, u32, u32, u32, NS, VS, NC, VC, HO, DE, FR>(
            backend@.analyzed,
            backend@.status,
            path,
            text,
            Loc(position),
            *passes,
            *range,
            answer,
        );
    let items = items_of(krate@, path);
    let decos = choose|decos: Vec<u32>| #[trigger]
        passes_lead_to::<I, u32, u32, u32, NS, VS, NC, VC, HO, DE>(
            *passes,
            Loc(position),
            items,
            decos,
        ) && are_placed(decos@, text, *range, answer.decorations@);
    let (selections, calculations, handled) = choose|
        selections: Seq<u32>,
        calculations: Seq<u32>,
        handled: u32,
    | #[trigger]
        passes_go_through::<I, u32, u32, u32, NS, VS, NC, VC, HO, DE>(
            *passes,
            Loc(position),
            items,
            selections,
            calculations,
            handled,
            decos,
        );
    visits_that_keep(passes.visit_select, items, selections, items.len() as int);
    visits_that_keep(passes.visit_calc, items, calculations, items.len() as int);
    assert(decos@ == seq![position]);
    assert(decos@[0] == position);
}

/// Line and character both matter: where `index` finds no position twice, passes
/// that show the position show different ones for different requests.
pub proof fn law_cursor_depends_on_line_and_character<I, FI, NS, VS, NC, VC, HO, DE, FR>(
    backend: &Backend<I>,
    first: CursorRequest,
    second: CursorRequest,
    text: &str,
    index: &FI,
    passes: &Passes<NS, VS, NC, VC, HO, DE>,
    range: &FR,
    one: Decorations<u32>,
    other: Decorations<u32>,
) where
    FI: Fn(&str, u32, u32) -> u32,
    NS: Fn(Loc) -> u32,
    VS: Fn(u32, &I) -> u32,
    NC: Fn(&u32) -> u32,
    VC: Fn(u32, &I) -> u32,
    HO: Fn(u32) -> u32,
    DE: Fn(u32) -> Vec<u32>,
    FR: Fn(u32, &str) -> u32,

    requires
        backend@.analyzed is Some,
        first.path is Some,
        second.path is Some,
        first.line != second.line || first.character != second.character,
        forall|t: &str, a: u32, b: u32, c: u32, d: u32, r: u32| #[trigger]
            call_ensures(*index, (t, a, b), r) && #[trigger] call_ensures(*index, (t, c, d), r)
                ==> a == c && b == d,
        show_the_position::<I, NS, VS, NC, VC, HO, DE>(*passes),
        forall|deco: u32, t: &str, r: u32| #[trigger]
            call_ensures(*range, (deco, t), r) ==> r == deco,
        call_ensures(
            Backend::<I>::cursor::<u32, u32, u32, u32, FI, NS, VS, NC, VC, HO, DE, FR>,
            (backend, first, Some(text), index, passes, range),
            one,
        ),
        call_ensures(
            Backend::<I>::cursor::<u32, u32, u32, u32, FI, NS, VS, NC, VC, HO, DE, FR>,
            (backend, second, Some(text), index, passes, range),
            other,
        ),
    ensures
        one.decorations@ != other.decorations@,
{
    law_cursor_shows_the_position(backend, first, text, index, passes, range, one);
    law_cursor_shows_the_position(backend, second, text, index, passes, range, other);
}

} // verus!
