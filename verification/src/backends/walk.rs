//! Enumeration of targets: a breadth-first walk over the accessibility tree,
//! one level per turn.
//!
//! The walk hands out the paths of a level; the caller queries those nodes,
//! all at once if it likes, and hands back what each one answered. A path is
//! handed out at most once, and no more than [`MAX_DEPTH`] levels are, so the
//! walk ends on any tree, also on one that is not a tree at all.

use super::paths::{texts, PathSet, NULL_PATH};
use crate::hints::{Child, Extents};
use vstd::prelude::*;
use vstd::string::StringExecFns;

verus! {

/// The number of levels that a walk descends at most.
pub const MAX_DEPTH: usize = 50;

/// What one node answered: its extents on screen, if it has any to give,
/// and the paths of its children. A node that could not be queried
/// contributes neither.
#[derive(Debug, Clone, PartialEq, Eq)]
pub struct NodeReport {
    pub extents: Option<Extents>,
    pub children: Vec<String>,
}

/// A report as a mathematical value.
pub struct NodeReportView {
    pub extents: Option<Extents>,
    pub children: Seq<Seq<char>>,
}

impl View for NodeReport {
    type V = NodeReportView;

    open spec fn view(&self) -> NodeReportView {
        NodeReportView { extents: self.extents, children: texts(self.children@) }
    }
}

/// The reports of a level as mathematical values.
pub open spec fn report_views(reports: Seq<NodeReport>) -> Seq<NodeReportView> {
    Seq::new(reports.len(), |i: int| reports[i]@)
}

/// The target that extents contribute under `focus`: the rectangle itself if
/// both its sides are positive and it lies fully inside the focus region.
pub open spec fn spec_target(extents: Option<Extents>, focus: Option<Extents>) -> Option<Child> {
    match extents {
        Some((x, y, width, height)) => {
            let child = Child { absolute_x: x, absolute_y: y, width, height };
            if child.spec_has_area() && child.spec_inside_focus(focus) {
                Some(child)
            } else {
                None
            }
        },
        None => None,
    }
}

/// The targets that the reports of a level contribute, in the order of the
/// reports.
pub open spec fn found_targets(reports: Seq<NodeReportView>, focus: Option<Extents>) -> Seq<
    Child,
>
    decreases reports.len(),
{
    if reports.len() == 0 {
        Seq::empty()
    } else {
        let before = found_targets(reports.drop_last(), focus);
        match spec_target(reports.last().extents, focus) {
            Some(child) => before.push(child),
            None => before,
        }
    }
}

/// The children that the reports of a level name, in the order of the
/// reports.
pub open spec fn found_children(reports: Seq<NodeReportView>) -> Seq<Seq<char>>
    decreases reports.len(),
{
    if reports.len() == 0 {
        Seq::empty()
    } else {
        found_children(reports.drop_last()) + reports.last().children
    }
}

/// The paths of `level` that are not in `visited`, each once, in the order
/// in which they first occur.
pub open spec fn unvisited(level: Seq<Seq<char>>, visited: Set<Seq<char>>) -> Seq<Seq<char>>
    decreases level.len(),
{
    if level.len() == 0 {
        Seq::empty()
    } else {
        let before = unvisited(level.drop_last(), visited);
        if visited.contains(level.last()) || before.contains(level.last()) {
            before
        } else {
            before.push(level.last())
        }
    }
}

/// `paths` without the path that stands for "no node".
pub open spec fn without_null(paths: Seq<Seq<char>>) -> Seq<Seq<char>>
    decreases paths.len(),
{
    if paths.len() == 0 {
        Seq::empty()
    } else if paths.last() == NULL_PATH@ {
        without_null(paths.drop_last())
    } else {
        without_null(paths.drop_last()).push(paths.last())
    }
}

/// Every target has positive sides and lies inside `focus`.
pub open spec fn all_inside(targets: Seq<Child>, focus: Option<Extents>) -> bool {
    forall|i: int|
        0 <= i < targets.len() ==> (#[trigger] targets[i]).spec_has_area()
            && targets[i].spec_inside_focus(focus)
}

/// A walk as a mathematical value.
pub struct WalkView {
    /// The paths handed out so far, and the null path if it was met.
    pub visited: Set<Seq<char>>,
    /// The number of levels handed out so far.
    pub depth: nat,
    /// The region that targets have to lie in.
    pub focus: Option<Extents>,
    /// The targets found so far.
    pub out: Seq<Child>,
}

/// One turn of a walk as a mathematical value.
pub enum WalkStepView {
    /// Query these nodes and report what they answer.
    Query(WalkView, Seq<Seq<char>>),
    /// The walk is over; these are its targets.
    Done(Seq<Child>),
}

impl WalkView {
    /// The turn that goes down to `level`: over when the level is empty, the
    /// depth is used up or nothing on the level is new; else a query for
    /// what is new on it.
    pub open spec fn descend(self, level: Seq<Seq<char>>) -> WalkStepView {
        if level.len() == 0 || self.depth >= MAX_DEPTH || without_null(
            unvisited(level, self.visited),
        ).len() == 0 {
            WalkStepView::Done(self.out)
        } else {
            WalkStepView::Query(
                WalkView {
                    visited: self.visited.union(unvisited(level, self.visited).to_set()),
                    depth: self.depth + 1,
                    ..self
                },
                without_null(unvisited(level, self.visited)),
            )
        }
    }

    /// The turn that follows the reports of the level last handed out: their
    /// targets are kept, and the walk goes down to their children.
    pub open spec fn step(self, reports: Seq<NodeReportView>) -> WalkStepView {
        WalkView { out: self.out + found_targets(reports, self.focus), ..self }.descend(
            found_children(reports),
        )
    }

    /// The first turn of a walk from `start` under `focus`.
    pub open spec fn start(start: Seq<char>, focus: Option<Extents>) -> WalkStepView {
        WalkView { visited: Set::empty(), depth: 0, focus, out: Seq::empty() }.descend(
            seq![start],
        )
    }
}

/// A walk in progress.
pub struct Walk {
    visited: PathSet,
    depth: usize,
    focus: Option<Extents>,
    out: Vec<Child>,
}

/// One turn of a walk.
pub enum WalkStep {
    /// Query these nodes and hand one report for each to [`Walk::step`].
    Query(Walk, Vec<String>),
    /// The walk is over; these are its targets.
    Done(Vec<Child>),
}

impl View for Walk {
    type V = WalkView;

    closed spec fn view(&self) -> WalkView {
        WalkView {
            visited: self.visited@,
            depth: self.depth as nat,
            focus: self.focus,
            out: self.out@,
        }
    }
}

impl View for WalkStep {
    type V = WalkStepView;

    open spec fn view(&self) -> WalkStepView {
        match self {
            WalkStep::Query(walk, paths) => WalkStepView::Query(walk@, texts(paths@)),
            WalkStep::Done(targets) => WalkStepView::Done(targets@),
        }
    }
}

/// The target that extents contribute under `focus`.
pub fn target(extents: Option<Extents>, focus: Option<Extents>) -> (found: Option<Child>)
    ensures
        found == spec_target(extents, focus),
{
    match extents {
        Some((x, y, width, height)) => {
            let child = Child { absolute_x: x, absolute_y: y, width, height };
            if child.has_area() && child.inside_focus(focus) {
                Some(child)
            } else {
                None
            }
        },
        None => None,
    }
}

impl Walk {
    #[verifier::type_invariant]
    spec fn well_formed(self) -> bool {
        all_inside(self.out@, self.focus)
    }

    /// The region that the walk keeps targets in.
    pub fn focus(&self) -> (focus: Option<Extents>)
        ensures
            focus == self@.focus,
    {
        self.focus
    }

    fn descend(self, level: Vec<String>) -> (step: WalkStep)
        ensures
            step@ == self@.descend(texts(level@)),
            step matches WalkStep::Done(targets) ==> all_inside(targets@, self@.focus),
    {
        proof {
            use_type_invariant(&self);
        }
        let Walk { visited, depth, focus, out } = self;
        if level.len() == 0 || depth >= MAX_DEPTH {
            return WalkStep::Done(out);
        }
        let mut visited = visited;
        let ghost visited_before = visited@;
        let ghost all = texts(level@);
        let null = String::from_str(NULL_PATH);
        let mut queries: Vec<String> = Vec::new();
        let mut i: usize = 0;
        assert(all.take(0) =~= Seq::<Seq<char>>::empty());
        while i < level.len()
            invariant
                i <= level@.len(),
                all == texts(level@),
                null@ == NULL_PATH@,
                visited@ == visited_before.union(unvisited(all.take(i as int), visited_before).to_set()),
                texts(queries@) == without_null(unvisited(all.take(i as int), visited_before)),
            decreases level@.len() - i,
        {
            let ghost fresh = unvisited(all.take(i as int), visited_before);
            proof {
                assert(all.take(i + 1).drop_last() =~= all.take(i as int));
                assert(all.take(i + 1).last() == level@[i as int]@);
            }
            let added = visited.insert(level[i].clone());
            proof {
                if added {
                    assert(!fresh.contains(level@[i as int]@)) by {
                        if fresh.contains(level@[i as int]@) {
                            assert(fresh.to_set().contains(level@[i as int]@));
                        }
                    }
                    assert(fresh.push(level@[i as int]@).to_set() =~= fresh.to_set().insert(
                        level@[i as int]@,
                    )) by {
                        lemma_push_to_set(fresh, level@[i as int]@);
                    }
                    assert(visited@ =~= visited_before.union(
                        fresh.push(level@[i as int]@).to_set(),
                    ));
                } else {
                    assert(visited_before.contains(level@[i as int]@) || fresh.contains(
                        level@[i as int]@,
                    ));
                }
            }
            if added && level[i] != null {
                let ghost before = texts(queries@);
                queries.push(level[i].clone());
                assert(texts(queries@) =~= before.push(level@[i as int]@));
                assert(fresh.push(level@[i as int]@).drop_last() =~= fresh);
            } else if added {
                assert(fresh.push(level@[i as int]@).drop_last() =~= fresh);
            }
            i = i + 1;
        }
        assert(all.take(i as int) =~= all);
        if queries.len() == 0 {
            return WalkStep::Done(out);
        }
        WalkStep::Query(Walk { visited, depth: depth + 1, focus, out }, queries)
    }

    /// Starts a walk at `start`; targets have to lie inside `focus`.
    pub fn start(start: String, focus: Option<Extents>) -> (step: WalkStep)
        ensures
            step@ == WalkView::start(start@, focus),
            step matches WalkStep::Done(targets) ==> all_inside(targets@, focus),
    {
        let walk = Walk { visited: PathSet::new(), depth: 0, focus, out: Vec::new() };
        let mut level: Vec<String> = Vec::new();
        level.push(start);
        assert(texts(level@) =~= seq![start@]);
        walk.descend(level)
    }

    /// Takes the reports of the level last handed out, one for each node
    /// queried, and says what comes next.
    pub fn step(self, reports: &Vec<NodeReport>) -> (step: WalkStep)
        ensures
            step@ == self@.step(report_views(reports@)),
            step matches WalkStep::Done(targets) ==> all_inside(targets@, self@.focus),
    {
        proof {
            use_type_invariant(&self);
        }
        let Walk { visited, depth, focus, out } = self;
        let mut out = out;
        let ghost out_before = out@;
        let ghost views = report_views(reports@);
        let mut level: Vec<String> = Vec::new();
        let mut i: usize = 0;
        assert(views.take(0) =~= Seq::<NodeReportView>::empty());
        while i < reports.len()
            invariant
                i <= reports@.len(),
                views == report_views(reports@),
                out@ == out_before + found_targets(views.take(i as int), focus),
                texts(level@) == found_children(views.take(i as int)),
                all_inside(out@, focus),
            decreases reports@.len() - i,
        {
            proof {
                assert(views.take(i + 1).drop_last() =~= views.take(i as int));
                assert(views.take(i + 1).last() == reports@[i as int]@);
            }
            match target(reports[i].extents, focus) {
                Some(child) => {
                    out.push(child);
                },
                None => {},
            }
            let children = &reports[i].children;
            let ghost level_before = texts(level@);
            let mut k: usize = 0;
            while k < children.len()
                invariant
                    k <= children@.len(),
                    texts(level@) == level_before + texts(children@).take(k as int),
                decreases children@.len() - k,
            {
                let ghost grown = texts(level@);
                level.push(children[k].clone());
                assert(texts(level@) =~= grown.push(children@[k as int]@));
                assert(texts(children@).take(k + 1) =~= texts(children@).take(k as int).push(
                    children@[k as int]@,
                ));
                k = k + 1;
            }
            assert(texts(children@).take(k as int) =~= texts(children@));
            i = i + 1;
        }
        assert(views.take(i as int) =~= views);
        Walk { visited, depth, focus, out }.descend(level)
    }
}

/// What is new on a level is on the level, was not visited, and is listed
/// once.
pub proof fn lemma_unvisited(level: Seq<Seq<char>>, visited: Set<Seq<char>>)
    ensures
        unvisited(level, visited).no_duplicates(),
        forall|path: Seq<char>| #[trigger]
            unvisited(level, visited).contains(path) <==> level.contains(path)
                && !visited.contains(path),
    decreases level.len(),
{
    if level.len() > 0 {
        let before = unvisited(level.drop_last(), visited);
        lemma_unvisited(level.drop_last(), visited);
        let last = level.last();
        assert forall|path: Seq<char>| #[trigger]
            unvisited(level, visited).contains(path) <==> level.contains(path)
                && !visited.contains(path) by {
            if level.contains(path) {
                let k = choose|k: int| 0 <= k < level.len() && level[k] == path;
                if k < level.len() - 1 {
                    assert(level.drop_last()[k] == path);
                }
            }
            if level.drop_last().contains(path) {
                let k = choose|k: int| 0 <= k < level.drop_last().len() && level.drop_last()[k]
                    == path;
                assert(level[k] == path);
            }
            if before.contains(path) {
                let k = choose|k: int| 0 <= k < before.len() && before[k] == path;
                assert(before.push(last)[k] == path);
            }
            if before.push(last).contains(path) {
                let k = choose|k: int| 0 <= k < before.push(last).len() && before.push(last)[k]
                    == path;
                if k < before.len() {
                    assert(before[k] == path);
                }
            }
            assert(level[level.len() - 1] == last);
            assert(before.push(last)[before.len() as int] == last);
        }
    }
}

/// Dropping the null path keeps everything else, in order, and adds
/// nothing.
pub proof fn lemma_without_null(paths: Seq<Seq<char>>)
    ensures
        paths.no_duplicates() ==> without_null(paths).no_duplicates(),
        forall|path: Seq<char>| #[trigger]
            without_null(paths).contains(path) <==> paths.contains(path) && path != NULL_PATH@,
    decreases paths.len(),
{
    if paths.len() > 0 {
        let before = without_null(paths.drop_last());
        lemma_without_null(paths.drop_last());
        let last = paths.last();
        assert forall|path: Seq<char>| #[trigger]
            without_null(paths).contains(path) <==> paths.contains(path) && path
                != NULL_PATH@ by {
            if paths.contains(path) {
                let k = choose|k: int| 0 <= k < paths.len() && paths[k] == path;
                if k < paths.len() - 1 {
                    assert(paths.drop_last()[k] == path);
                }
            }
            if paths.drop_last().contains(path) {
                let k = choose|k: int| 0 <= k < paths.drop_last().len() && paths.drop_last()[k]
                    == path;
                assert(paths[k] == path);
            }
            if before.contains(path) {
                let k = choose|k: int| 0 <= k < before.len() && before[k] == path;
                assert(before.push(last)[k] == path);
            }
            if before.push(last).contains(path) {
                let k = choose|k: int| 0 <= k < before.push(last).len() && before.push(last)[k]
                    == path;
                if k < before.len() {
                    assert(before[k] == path);
                }
            }
            assert(paths[paths.len() - 1] == last);
            assert(before.push(last)[before.len() as int] == last);
        }
        if paths.no_duplicates() {
            assert(paths.drop_last().no_duplicates());
            if last != NULL_PATH@ {
                assert(!before.contains(last)) by {
                    if paths.drop_last().contains(last) {
                        let k = choose|k: int|
                            0 <= k < paths.drop_last().len() && paths.drop_last()[k] == last;
                        assert(paths[k] == paths[paths.len() - 1]);
                    }
                }
            }
        }
    }
}

/// The targets that reports contribute have positive sides and lie inside
/// the focus region, all four edges; and every report whose extents do is
/// among them.
pub proof fn lemma_found_targets(reports: Seq<NodeReportView>, focus: Option<Extents>)
    ensures
        all_inside(found_targets(reports, focus), focus),
        forall|i: int|
            0 <= i < reports.len() ==> match #[trigger] spec_target(reports[i].extents, focus) {
                Some(child) => found_targets(reports, focus).contains(child),
                None => true,
            },
        forall|child: Child| #[trigger]
            found_targets(reports, focus).contains(child) ==> exists|i: int|
                0 <= i < reports.len() && spec_target(reports[i].extents, focus) == Some(child),
    decreases reports.len(),
{
    if reports.len() > 0 {
        let rest = reports.drop_last();
        let before = found_targets(rest, focus);
        let now = found_targets(reports, focus);
        lemma_found_targets(rest, focus);
        assert forall|i: int| 0 <= i < reports.len() implies match #[trigger] spec_target(
            reports[i].extents,
            focus,
        ) {
            Some(child) => now.contains(child),
            None => true,
        } by {
            match spec_target(reports[i].extents, focus) {
                Some(child) => {
                    if i < rest.len() {
                        assert(rest[i] == reports[i]);
                        let k = choose|k: int| 0 <= k < before.len() && before[k] == child;
                        assert(now[k] == child);
                    } else {
                        assert(now[now.len() - 1] == child);
                    }
                },
                None => {},
            }
        }
        assert forall|child: Child| #[trigger] now.contains(child) implies exists|i: int|
            0 <= i < reports.len() && spec_target(reports[i].extents, focus) == Some(child) by {
            let k = choose|k: int| 0 <= k < now.len() && now[k] == child;
            if k < before.len() {
                assert(before[k] == child);
                assert(before.contains(child));
                let i = choose|i: int|
                    0 <= i < rest.len() && spec_target(rest[i].extents, focus) == Some(child);
                assert(reports[i] == rest[i]);
            } else {
                assert(spec_target(reports[reports.len() - 1].extents, focus) == Some(child));
            }
        }
    }
}

/// A walk keeps every target inside its focus region: if the targets found
/// so far lie inside it, so do those of the next turn, and those that the
/// walk ends with.
pub proof fn lemma_walk_targets_inside(walk: WalkView, reports: Seq<NodeReportView>)
    requires
        all_inside(walk.out, walk.focus),
    ensures
        match walk.step(reports) {
            WalkStepView::Query(next, _) => next.focus == walk.focus && all_inside(
                next.out,
                walk.focus,
            ),
            WalkStepView::Done(targets) => all_inside(targets, walk.focus),
        },
{
    lemma_found_targets(reports, walk.focus);
}

/// A walk hands out no path twice and descends no deeper than `MAX_DEPTH`
/// levels, whatever the reports say: each query is one level further down,
/// holds no path that an earlier query held, none that stands for "no
/// node", and none twice.
pub proof fn lemma_walk_is_bounded(walk: WalkView, reports: Seq<NodeReportView>)
    ensures
        walk.step(reports) matches WalkStepView::Query(next, queries) ==> {
            &&& walk.depth < MAX_DEPTH
            &&& next.depth == walk.depth + 1
            &&& queries.len() > 0
            &&& queries.no_duplicates()
            &&& walk.visited.subset_of(next.visited)
            &&& forall|i: int|
                0 <= i < queries.len() ==> !walk.visited.contains(#[trigger] queries[i])
                    && next.visited.contains(queries[i]) && queries[i] != NULL_PATH@
        },
{
    let level = found_children(reports);
    let fresh = unvisited(level, walk.visited);
    lemma_unvisited(level, walk.visited);
    lemma_without_null(fresh);
    if walk.step(reports) is Query {
        let queries = without_null(fresh);
        assert forall|i: int| 0 <= i < queries.len() implies !walk.visited.contains(
            #[trigger] queries[i],
        ) && fresh.to_set().contains(queries[i]) && queries[i] != NULL_PATH@ by {
            assert(queries.contains(queries[i]));
            assert(fresh.contains(queries[i]));
        }
    }
}

/// The set of a sequence with one more element is the set with one more
/// element.
proof fn lemma_push_to_set(paths: Seq<Seq<char>>, path: Seq<char>)
    ensures
        paths.push(path).to_set() =~= paths.to_set().insert(path),
{
    assert forall|text: Seq<char>|
        paths.push(path).to_set().contains(text) <==> paths.to_set().insert(path).contains(
            text,
        ) by {
        if paths.push(path).contains(text) {
            let k = choose|k: int| 0 <= k < paths.push(path).len() && paths.push(path)[k] == text;
            if k < paths.len() {
                assert(paths[k] == text);
            }
        }
        if paths.contains(text) {
            let k = choose|k: int| 0 <= k < paths.len() && paths[k] == text;
            assert(paths.push(path)[k] == text);
        }
        if text == path {
            assert(paths.push(path)[paths.len() as int] == text);
        }
    }
}

} // verus!
