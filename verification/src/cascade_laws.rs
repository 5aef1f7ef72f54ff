//! What holds when the search for embedded DepoFiles is done: it has reached every package that
//! the requests need.

use vstd::prelude::*;
use crate::catalog;
use crate::catalog::{HydrationFrameView, HydrationStepView, HydrationView};
use crate::model::{PackageRequestView, PackageSpecView, Text};

verus! {

/// What happens in the course of a search, each time with the catalog as it stands.
pub enum HydrationEvent {
    /// A request is taken up.
    Begin(PackageRequestView, Seq<PackageSpecView>),
    /// The sources that were asked for are fetched, and the catalog is loaded anew.
    Fetched(Seq<PackageSpecView>),
    /// The next step is taken.
    Advance(Seq<PackageSpecView>),
}

/// A search and its history: the packages that the requests selected, those whose sources were
/// fetched, and those that were looked into, with the catalog as it was when that began.
pub struct HydrationRun {
    pub state: HydrationView,
    pub step: HydrationStepView,
    pub selected: Seq<PackageSpecView>,
    pub fetched: Seq<PackageSpecView>,
    pub visited: Seq<HydrationFrameView>,
}

/// The packages that were looked into, with the one that the search has just turned to.
pub open spec fn visited_with(
    visited: Seq<HydrationFrameView>,
    before: Seq<HydrationFrameView>,
    now: Seq<HydrationFrameView>,
) -> Seq<HydrationFrameView> {
    if now.len() > before.len() {
        visited.push(now.last())
    } else {
        visited
    }
}

/// A search and its history after an event; none where the event cannot come there, or where the
/// search fails on it.
pub open spec fn after_event(run: HydrationRun, event: HydrationEvent) -> Option<HydrationRun> {
    match (event, run.step) {
        (
            HydrationEvent::Begin(request, catalog),
            HydrationStepView::Done,
        ) => match catalog::hydration_root(catalog, request) {
            Err(_) => None,
            Ok(spec) => {
                let (state, step) = catalog::entered(run.state, spec, catalog);
                Some(
                    HydrationRun {
                        state,
                        step,
                        selected: run.selected.push(spec),
                        fetched: run.fetched,
                        visited: visited_with(run.visited, run.state.frames, state.frames),
                    },
                )
            },
        },
        (HydrationEvent::Fetched(catalog), HydrationStepView::Fetch(spec)) => {
            let frame = HydrationFrameView { spec, catalog, next: 0 };
            Some(
                HydrationRun {
                    state: HydrationView {
                        frames: run.state.frames.push(frame),
                        seen: run.state.seen,
                    },
                    step: HydrationStepView::Continue,
                    selected: run.selected,
                    fetched: run.fetched.push(spec),
                    visited: run.visited.push(frame),
                },
            )
        },
        (
            HydrationEvent::Advance(catalog),
            HydrationStepView::Continue,
        ) => match catalog::hydration_step(run.state, catalog) {
            Err(_) => None,
            Ok((state, step)) => Some(
                HydrationRun {
                    state,
                    step,
                    selected: run.selected,
                    fetched: run.fetched,
                    visited: visited_with(run.visited, run.state.frames, state.frames),
                },
            ),
        },
        _ => None,
    }
}

/// A search and its history after these events.
pub open spec fn run_of(events: Seq<HydrationEvent>) -> Option<HydrationRun>
    decreases events.len(),
{
    if events.len() == 0 {
        Some(
            HydrationRun {
                state: HydrationView { frames: Seq::empty(), seen: Seq::empty() },
                step: HydrationStepView::Done,
                selected: Seq::empty(),
                fetched: Seq::empty(),
                visited: Seq::empty(),
            },
        )
    } else {
        match run_of(events.drop_last()) {
            Some(run) => after_event(run, events.last()),
            None => None,
        }
    }
}

/// Whether a dependency of a package that was looked into selects a package that was seen.
pub open spec fn dependency_seen(visit: HydrationFrameView, index: int, seen: Seq<Text>) -> bool {
    catalog::dependency_spec(
        visit.catalog,
        visit.spec,
        visit.spec.depends[index],
        " while preparing embedded source DepoFiles"@,
    ) matches Ok(spec) && seen.contains(spec.id())
}

/// Whether the first `count` dependencies of a package that was looked into were seen.
pub open spec fn settled(visit: HydrationFrameView, count: int, seen: Seq<Text>) -> bool {
    forall|i: int|
        0 <= i < count && i < visit.spec.depends.len() ==> #[trigger] dependency_seen(
            visit,
            i,
            seen,
        )
}

/// Whether a package with this id was looked into.
pub open spec fn was_visited(visited: Seq<HydrationFrameView>, id: Text) -> bool {
    exists|i: int| 0 <= i < visited.len() && (#[trigger] visited[i]).spec.id() == id
}

/// Whether a frame holds the place in a package up to which its dependencies were seen.
spec fn holds_place(frame: HydrationFrameView, visit: HydrationFrameView, seen: Seq<Text>) -> bool {
    frame.spec == visit.spec && frame.catalog == visit.catalog && settled(
        visit,
        frame.next as int,
        seen,
    )
}

/// Whether all dependencies of a package were seen, or a frame holds the place in it.
spec fn accounted(
    visit: HydrationFrameView,
    frames: Seq<HydrationFrameView>,
    seen: Seq<Text>,
) -> bool {
    settled(visit, visit.spec.depends.len() as int, seen) || exists|k: int|
        0 <= k < frames.len() && holds_place(#[trigger] frames[k], visit, seen)
}

/// What every event keeps.
spec fn sound(run: HydrationRun) -> bool {
    &&& run.step is Done ==> run.state.frames.len() == 0
    &&& forall|i: int|
        0 <= i < run.selected.len() ==> run.state.seen.contains((#[trigger] run.selected[i]).id())
    &&& forall|i: int|
        0 <= i < run.visited.len() ==> accounted(
            #[trigger] run.visited[i],
            run.state.frames,
            run.state.seen,
        )
    &&& forall|i: int|
        0 <= i < run.visited.len() && (#[trigger] run.visited[i]).spec.fetch is Some
            ==> run.fetched.contains(run.visited[i].spec)
    &&& forall|id: Text| #[trigger]
        run.state.seen.contains(id) ==> was_visited(run.visited, id) || (run.step matches
            HydrationStepView::Fetch(spec) && spec.id() == id)
}

/// Whether everything in one list of ids is in another.
spec fn within(seen: Seq<Text>, more: Seq<Text>) -> bool {
    forall|id: Text| #[trigger] seen.contains(id) ==> more.contains(id)
}

proof fn lemma_pushed<A>(list: Seq<A>, item: A)
    ensures
        list.push(item).contains(item),
        forall|other: A| #[trigger] list.contains(other) ==> list.push(item).contains(other),
        forall|other: A| #[trigger]
            list.push(item).contains(other) ==> list.contains(other) || other == item,
{
    assert(list.push(item)[list.len() as int] == item);
    assert forall|other: A| #[trigger] list.contains(other) implies list.push(item).contains(
        other,
    ) by {
        let at = list.index_of(other);
        assert(list.push(item)[at] == other);
    }
}

proof fn lemma_settled_stays(
    visit: HydrationFrameView,
    count: int,
    seen: Seq<Text>,
    more: Seq<Text>,
)
    requires
        settled(visit, count, seen),
        within(seen, more),
    ensures
        settled(visit, count, more),
{
    assert forall|i: int| 0 <= i < count && i < visit.spec.depends.len() implies
        #[trigger] dependency_seen(visit, i, more) by {
        assert(dependency_seen(visit, i, seen));
    }
}

proof fn lemma_accounted_stays(
    visit: HydrationFrameView,
    frames: Seq<HydrationFrameView>,
    seen: Seq<Text>,
    more_frames: Seq<HydrationFrameView>,
    more: Seq<Text>,
)
    requires
        accounted(visit, frames, seen),
        within(seen, more),
        frames.len() <= more_frames.len(),
        forall|k: int| 0 <= k < frames.len() ==> #[trigger] more_frames[k] == frames[k],
    ensures
        accounted(visit, more_frames, more),
{
    if settled(visit, visit.spec.depends.len() as int, seen) {
        lemma_settled_stays(visit, visit.spec.depends.len() as int, seen, more);
    } else {
        let k = choose|k: int|
            0 <= k < frames.len() && holds_place(#[trigger] frames[k], visit, seen);
        lemma_settled_stays(visit, frames[k].next as int, seen, more);
        assert(holds_place(more_frames[k], visit, more));
    }
}

proof fn lemma_visited_stays(visited: Seq<HydrationFrameView>, frame: HydrationFrameView, id: Text)
    requires
        was_visited(visited, id) || frame.spec.id() == id,
    ensures
        was_visited(visited.push(frame), id),
{
    let all = visited.push(frame);
    if was_visited(visited, id) {
        let i = choose|i: int| 0 <= i < visited.len() && (#[trigger] visited[i]).spec.id() == id;
        assert(all[i].spec.id() == id);
    } else {
        assert(all[visited.len() as int].spec.id() == id);
    }
}

/// Turning to a package keeps what the search has, and the package is seen.
proof fn lemma_entering(
    run: HydrationRun,
    frames: Seq<HydrationFrameView>,
    spec: PackageSpecView,
    catalog: Seq<PackageSpecView>,
    next: HydrationRun,
)
    requires
        next.state == catalog::entered(
            HydrationView { frames, seen: run.state.seen },
            spec,
            catalog,
        ).0,
        next.step == catalog::entered(
            HydrationView { frames, seen: run.state.seen },
            spec,
            catalog,
        ).1,
        next.visited == visited_with(run.visited, frames, next.state.frames),
        next.fetched == run.fetched,
        run.step !is Fetch,
        sound(run),
        forall|i: int|
            0 <= i < run.visited.len() ==> accounted(
                #[trigger] run.visited[i],
                frames,
                next.state.seen,
            ),
        forall|i: int|
            0 <= i < next.selected.len() ==> next.state.seen.contains(
                (#[trigger] next.selected[i]).id(),
            ),
    ensures
        sound(next),
{
    lemma_pushed(run.state.seen, spec.id());
    let frame = HydrationFrameView { spec, catalog, next: 0 };
    let opened = next.state.frames.len() > frames.len();
    assert(within(next.state.seen, next.state.seen));
    assert forall|i: int| 0 <= i < next.visited.len() implies accounted(
        #[trigger] next.visited[i],
        next.state.frames,
        next.state.seen,
    ) by {
        if i < run.visited.len() {
            assert(next.visited[i] == run.visited[i]);
            lemma_accounted_stays(
                run.visited[i],
                frames,
                next.state.seen,
                next.state.frames,
                next.state.seen,
            );
        } else {
            assert(next.state.frames[frames.len() as int] == frame);
            assert(holds_place(
                next.state.frames[frames.len() as int],
                next.visited[i],
                next.state.seen,
            ));
        }
    }
    assert forall|i: int|
        0 <= i < next.visited.len() && (#[trigger] next.visited[i]).spec.fetch is Some implies
        next.fetched.contains(next.visited[i].spec) by {
        if i < run.visited.len() {
            assert(next.visited[i] == run.visited[i]);
        }
    }
    assert forall|id: Text| #[trigger] next.state.seen.contains(id) implies was_visited(
        next.visited,
        id,
    ) || (next.step matches HydrationStepView::Fetch(asked) && asked.id() == id) by {
        if opened {
            if run.state.seen.contains(id) {
                assert(was_visited(run.visited, id));
            }
            lemma_visited_stays(run.visited, frame, id);
        } else if run.state.seen.contains(id) {
            assert(was_visited(run.visited, id));
        }
    }
}

proof fn lemma_begin_keeps(
    run: HydrationRun,
    request: PackageRequestView,
    catalog: Seq<PackageSpecView>,
    next: HydrationRun,
)
    requires
        sound(run),
        after_event(run, HydrationEvent::Begin(request, catalog)) == Some(next),
    ensures
        sound(next),
{
    let spec = catalog::hydration_root(catalog, request)->Ok_0;
    lemma_pushed(run.state.seen, spec.id());
    assert(within(run.state.seen, next.state.seen));
    assert forall|i: int| 0 <= i < run.visited.len() implies accounted(
        #[trigger] run.visited[i],
        run.state.frames,
        next.state.seen,
    ) by {
        lemma_accounted_stays(
            run.visited[i],
            run.state.frames,
            run.state.seen,
            run.state.frames,
            next.state.seen,
        );
    }
    assert forall|i: int| 0 <= i < next.selected.len() implies next.state.seen.contains(
        (#[trigger] next.selected[i]).id(),
    ) by {
        if i < run.selected.len() {
            assert(next.selected[i] == run.selected[i]);
            assert(run.state.seen.contains(run.selected[i].id()));
        }
    }
    lemma_entering(run, run.state.frames, spec, catalog, next);
}

proof fn lemma_fetched_keeps(
    run: HydrationRun,
    catalog: Seq<PackageSpecView>,
    next: HydrationRun,
)
    requires
        sound(run),
        after_event(run, HydrationEvent::Fetched(catalog)) == Some(next),
    ensures
        sound(next),
{
    let spec = run.step->Fetch_0;
    let frame = HydrationFrameView { spec, catalog, next: 0 };
    lemma_pushed(run.fetched, spec);
    assert(within(run.state.seen, next.state.seen));
    assert forall|i: int| 0 <= i < next.visited.len() implies accounted(
        #[trigger] next.visited[i],
        next.state.frames,
        next.state.seen,
    ) by {
        if i < run.visited.len() {
            assert(next.visited[i] == run.visited[i]);
            lemma_accounted_stays(
                run.visited[i],
                run.state.frames,
                run.state.seen,
                next.state.frames,
                next.state.seen,
            );
        } else {
            assert(next.state.frames[run.state.frames.len() as int] == frame);
            assert(holds_place(
                next.state.frames[run.state.frames.len() as int],
                next.visited[i],
                next.state.seen,
            ));
        }
    }
    assert forall|i: int|
        0 <= i < next.visited.len() && (#[trigger] next.visited[i]).spec.fetch is Some implies
        next.fetched.contains(next.visited[i].spec) by {
        if i < run.visited.len() {
            assert(next.visited[i] == run.visited[i]);
        }
    }
    assert forall|id: Text| #[trigger] next.state.seen.contains(id) implies was_visited(
        next.visited,
        id,
    ) by {
        assert(run.state.seen.contains(id));
        lemma_visited_stays(run.visited, frame, id);
    }
}

/// A package that is left has all its dependencies seen.
proof fn lemma_leaving_keeps(run: HydrationRun, next: HydrationRun)
    requires
        sound(run),
        run.step is Continue,
        run.state.frames.len() > 0,
        run.state.frames.last().next >= run.state.frames.last().spec.depends.len(),
        next == (HydrationRun {
            state: HydrationView { frames: run.state.frames.drop_last(), ..run.state },
            ..run
        }),
    ensures
        sound(next),
{
    let frames = run.state.frames;
    assert forall|i: int| 0 <= i < next.visited.len() implies accounted(
        #[trigger] next.visited[i],
        next.state.frames,
        next.state.seen,
    ) by {
        let visit = run.visited[i];
        assert(accounted(visit, frames, run.state.seen));
        if !settled(visit, visit.spec.depends.len() as int, run.state.seen) {
            let k = choose|k: int|
                0 <= k < frames.len() && holds_place(#[trigger] frames[k], visit, run.state.seen);
            if k < frames.len() - 1 {
                assert(next.state.frames[k] == frames[k]);
            } else {
                assert(settled(visit, visit.spec.depends.len() as int, run.state.seen)) by {
                    assert forall|d: int|
                        0 <= d < visit.spec.depends.len() implies #[trigger] dependency_seen(
                        visit,
                        d,
                        run.state.seen,
                    ) by {
                        assert(settled(visit, frames[k].next as int, run.state.seen));
                    }
                }
            }
        }
    }
}

proof fn lemma_advance_keeps(run: HydrationRun, catalog: Seq<PackageSpecView>, next: HydrationRun)
    requires
        sound(run),
        after_event(run, HydrationEvent::Advance(catalog)) == Some(next),
    ensures
        sound(next),
{
    let frames = run.state.frames;
    if frames.len() > 0 {
        let top = frames.last();
        if top.next >= top.spec.depends.len() {
            lemma_leaving_keeps(run, next);
        } else {
            let spec = catalog::dependency_spec(
                top.catalog,
                top.spec,
                top.spec.depends[top.next as int],
                " while preparing embedded source DepoFiles"@,
            )->Ok_0;
            let moved = HydrationFrameView { next: top.next + 1, ..top };
            let places = frames.drop_last().push(moved);
            lemma_pushed(run.state.seen, spec.id());
            let seen = next.state.seen;
            assert(within(run.state.seen, seen));
            assert forall|i: int| 0 <= i < run.visited.len() implies accounted(
                #[trigger] run.visited[i],
                places,
                seen,
            ) by {
                let visit = run.visited[i];
                assert(accounted(visit, frames, run.state.seen));
                if settled(visit, visit.spec.depends.len() as int, run.state.seen) {
                    lemma_settled_stays(
                        visit,
                        visit.spec.depends.len() as int,
                        run.state.seen,
                        seen,
                    );
                } else {
                    let k = choose|k: int|
                        0 <= k < frames.len() && holds_place(
                            #[trigger] frames[k],
                            visit,
                            run.state.seen,
                        );
                    lemma_settled_stays(visit, frames[k].next as int, run.state.seen, seen);
                    if k < frames.len() - 1 {
                        assert(places[k] == frames[k]);
                        assert(holds_place(places[k], visit, seen));
                    } else {
                        assert(frames[k] == top);
                        assert(dependency_seen(visit, top.next as int, seen));
                        assert(places[k] == moved);
                        assert(holds_place(places[k], visit, seen));
                    }
                }
            }
            assert forall|i: int| 0 <= i < next.selected.len() implies seen.contains(
                (#[trigger] next.selected[i]).id(),
            ) by {
                assert(run.state.seen.contains(run.selected[i].id()));
            }
            lemma_entering(run, places, spec, catalog, next);
        }
    }
}

proof fn lemma_runs_are_sound(events: Seq<HydrationEvent>)
    ensures
        run_of(events) matches Some(run) ==> sound(run),
    decreases events.len(),
{
    if events.len() > 0 {
        lemma_runs_are_sound(events.drop_last());
        if let (Some(run), Some(next)) = (run_of(events.drop_last()), run_of(events)) {
            match events.last() {
                HydrationEvent::Begin(request, catalog) => {
                    lemma_begin_keeps(run, request, catalog, next);
                },
                HydrationEvent::Fetched(catalog) => {
                    lemma_fetched_keeps(run, catalog, next);
                },
                HydrationEvent::Advance(catalog) => {
                    lemma_advance_keeps(run, catalog, next);
                },
            }
        }
    }
}

/// Whether an event takes up a request that selects one of these packages, if it takes up any.
pub open spec fn selects_one_of(event: HydrationEvent, selected: Seq<PackageSpecView>) -> bool {
    event matches HydrationEvent::Begin(request, catalog) ==> (catalog::hydration_root(
        catalog,
        request,
    ) matches Ok(spec) && selected.contains(spec))
}

proof fn lemma_requests_select(events: Seq<HydrationEvent>)
    ensures
        run_of(events) matches Some(run) ==> forall|i: int|
            0 <= i < events.len() ==> selects_one_of(#[trigger] events[i], run.selected),
    decreases events.len(),
{
    if events.len() > 0 {
        let earlier = events.drop_last();
        lemma_requests_select(earlier);
        if let (Some(before), Some(run)) = (run_of(earlier), run_of(events)) {
            if let HydrationEvent::Begin(request, catalog) = events.last() {
                lemma_pushed(
                    before.selected,
                    catalog::hydration_root(catalog, request)->Ok_0,
                );
            }
            assert forall|i: int| 0 <= i < events.len() implies selects_one_of(
                #[trigger] events[i],
                run.selected,
            ) by {
                if i < earlier.len() {
                    assert(selects_one_of(earlier[i], before.selected));
                }
            }
        }
    }
}

/// When nothing is left to do, the search has seen every package that the requests select and
/// every package that a dependency of one that it looked into selects.
pub proof fn lemma_done_searches_have_seen_every_dependency(
    events: Seq<HydrationEvent>,
    run: HydrationRun,
)
    requires
        run_of(events) == Some(run),
        run.step is Done,
    ensures
        forall|i: int|
            0 <= i < events.len() ==> selects_one_of(#[trigger] events[i], run.selected),
        forall|i: int|
            0 <= i < run.selected.len() ==> run.state.seen.contains(
                (#[trigger] run.selected[i]).id(),
            ),
        forall|i: int, d: int|
            0 <= i < run.visited.len() && 0 <= d < run.visited[i].spec.depends.len()
                ==> #[trigger] dependency_seen(run.visited[i], d, run.state.seen),
{
    lemma_runs_are_sound(events);
    lemma_requests_select(events);
    assert forall|i: int, d: int|
        0 <= i < run.visited.len() && 0 <= d < run.visited[i].spec.depends.len() implies
        #[trigger] dependency_seen(run.visited[i], d, run.state.seen) by {
        let visit = run.visited[i];
        assert(accounted(visit, run.state.frames, run.state.seen));
        assert(settled(visit, visit.spec.depends.len() as int, run.state.seen));
    }
}

/// When nothing is left to do, the search has looked into every package that it saw, and fetched
/// the sources of every one that has any. So what a fetched package depends on is fetched too,
/// however far down.
pub proof fn lemma_done_searches_have_fetched_what_they_saw(
    events: Seq<HydrationEvent>,
    run: HydrationRun,
)
    requires
        run_of(events) == Some(run),
        run.step is Done,
    ensures
        forall|id: Text| #[trigger]
            run.state.seen.contains(id) ==> was_visited(run.visited, id),
        forall|i: int|
            0 <= i < run.visited.len() && (#[trigger] run.visited[i]).spec.fetch is Some
                ==> run.fetched.contains(run.visited[i].spec),
{
    lemma_runs_are_sound(events);
}

} // verus!
