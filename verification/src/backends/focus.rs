//! Focus resolution: which node of the accessibility tree is the window
//! that holds the input focus.
//!
//! The search asks one question at a time and takes the answer back. It
//! looks at the applications first, then goes depth-first through the tree
//! below the active one (or below all of them), and takes the first node
//! that is both focused and window-like. If it meets a focused node that is
//! no window, it later climbs from there to the nearest window-like
//! ancestor. If that finds nothing either, the first window-like node whose
//! extents were known stands in. No node is looked at twice.

use super::paths::{PathSet, NULL_PATH};
use crate::hints::Extents;
use vstd::prelude::*;
use vstd::string::StringExecFns;

verus! {

/// The role of a node, as far as the search tells roles apart.
#[derive(Debug, Clone, Copy, PartialEq, Eq, Structural)]
pub enum Role {
    Frame,
    Window,
    Dialog,
    Alert,
    DesktopFrame,
    InternalFrame,
    Application,
    /// Any role that is none of the above.
    Other,
}

impl Role {
    /// Whether a node of this role is a window of some kind.
    pub open spec fn spec_is_window_like(self) -> bool {
        self != Role::Other
    }

    #[verifier::when_used_as_spec(spec_is_window_like)]
    pub fn is_window_like(self) -> (b: bool)
        ensures
            b == self.spec_is_window_like(),
    {
        match self {
            Role::Other => false,
            _ => true,
        }
    }
}

/// What a node says of itself. A state or a role that could not be read
/// counts as not set and as [`Role::Other`].
#[derive(Debug, Clone, Copy, PartialEq, Eq, Structural)]
pub struct Inspection {
    /// The node's state includes "focused".
    pub focused: bool,
    /// The node's state includes "active".
    pub active: bool,
    pub role: Role,
}

impl Inspection {
    /// The node holds the focus: it is focused or active.
    pub open spec fn spec_has_focus(self) -> bool {
        self.focused || self.active
    }

    #[verifier::when_used_as_spec(spec_has_focus)]
    pub fn has_focus(self) -> (b: bool)
        ensures
            b == self.spec_has_focus(),
    {
        self.focused || self.active
    }
}

/// A child of the root: an application, and whether its state could be read
/// and includes "active".
#[derive(Debug, Clone, PartialEq, Eq)]
pub struct Application {
    pub path: String,
    pub active: bool,
}

/// A question to the accessibility service.
#[derive(Debug, Clone, PartialEq, Eq)]
pub enum Query {
    /// The children of the root, each with its state.
    Applications,
    /// The state and the role of a node.
    Inspect(String),
    /// The extents of a node on screen.
    Extents(String),
    /// The children of a node.
    Children(String),
    /// The parent of a node.
    Parent(String),
}

/// The answer to a [`Query`]. A question that failed is answered by `None`
/// or by an empty list.
#[derive(Debug, Clone, PartialEq, Eq)]
pub enum Answer {
    Applications(Vec<Application>),
    /// `None` where the node could not be reached at all.
    Inspection(Option<Inspection>),
    Extents(Option<Extents>),
    Children(Vec<String>),
    Parent(Option<String>),
}

/// The node that discovery starts from, with the region that scopes it where
/// the node's extents could be read.
#[derive(Debug, Clone, PartialEq, Eq)]
pub struct FocusNode {
    pub path: String,
    pub extents: Option<Extents>,
}

/// The question that a search waits on.
#[derive(Debug, Clone, PartialEq, Eq)]
pub enum Pending {
    Applications,
    /// The state and role of a node of the descent.
    Inspect(String),
    /// The extents of the focused window.
    FocusExtents(String),
    /// The extents of a window-like node that may have to stand in.
    AnchorExtents(String),
    /// The children of a node of the descent.
    Children(String),
    /// The role of a node of the climb.
    ClimbInspect(String),
    /// The extents of the window-like ancestor.
    ClimbExtents(String),
    /// The parent of a node of the climb.
    ClimbParent(String),
}

/// A search in progress.
pub struct FocusSearch {
    /// The nodes still to look at; the last one comes first.
    stack: Vec<String>,
    /// The nodes that the descent has looked at.
    visited: PathSet,
    /// The first focused node that was no window.
    focused_node: Option<String>,
    /// The first window-like node whose extents were read.
    first_window: Option<(String, Extents)>,
    /// The nodes that the climb has looked at.
    climbed: PathSet,
    pending: Pending,
}

/// One turn of a search.
pub enum FocusStep {
    /// Put the question and hand the answer to [`FocusSearch::advance`].
    Ask(FocusSearch, Query),
    /// The search is over.
    Done(Option<FocusNode>),
}

/// A search as a mathematical value.
pub struct FocusView {
    pub stack: Seq<String>,
    pub visited: Set<Seq<char>>,
    pub focused_node: Option<String>,
    pub first_window: Option<(String, Extents)>,
    pub climbed: Set<Seq<char>>,
    pub pending: Pending,
}

/// One turn of a search as a mathematical value.
pub enum FocusStepView {
    Ask(FocusView, Query),
    Done(Option<FocusNode>),
}

impl View for FocusSearch {
    type V = FocusView;

    closed spec fn view(&self) -> FocusView {
        FocusView {
            stack: self.stack@,
            visited: self.visited@,
            focused_node: self.focused_node,
            first_window: self.first_window,
            climbed: self.climbed@,
            pending: self.pending,
        }
    }
}

impl View for FocusStep {
    type V = FocusStepView;

    open spec fn view(&self) -> FocusStepView {
        match self {
            FocusStep::Ask(search, query) => FocusStepView::Ask(search@, *query),
            FocusStep::Done(node) => FocusStepView::Done(*node),
        }
    }
}

/// The position of the first application that is active.
pub open spec fn first_active(applications: Seq<Application>) -> Option<int>
    decreases applications.len(),
{
    if applications.len() == 0 {
        None
    } else {
        match first_active(applications.drop_last()) {
            Some(i) => Some(i),
            None => if applications.last().active {
                Some(applications.len() - 1)
            } else {
                None
            },
        }
    }
}

/// The nodes that the descent starts from: the first active application
/// alone, or all applications where none is active.
pub open spec fn start_stack(applications: Seq<Application>) -> Seq<String> {
    match first_active(applications) {
        Some(i) => seq![applications[i].path],
        None => Seq::new(applications.len(), |i: int| applications[i].path),
    }
}

impl FocusView {
    /// The node that stands in when neither descent nor climb found a
    /// window.
    pub open spec fn fallback(self) -> FocusStepView {
        match self.first_window {
            Some((path, extents)) => FocusStepView::Done(
                Some(FocusNode { path, extents: Some(extents) }),
            ),
            None => FocusStepView::Done(None),
        }
    }

    /// The turn after the descent: the climb from the focused node, if one
    /// was met.
    pub open spec fn begin_climb(self) -> FocusStepView {
        match self.focused_node {
            Some(path) => FocusStepView::Ask(
                FocusView {
                    climbed: self.climbed.insert(path@),
                    pending: Pending::ClimbInspect(path),
                    ..self
                },
                Query::Inspect(path),
            ),
            None => self.fallback(),
        }
    }

    /// The turn that looks at the next node of the descent: the last on the
    /// stack that was not looked at before and does not stand for "no node".
    pub open spec fn next_node(self) -> FocusStepView
        decreases self.stack.len(),
    {
        if self.stack.len() == 0 {
            self.begin_climb()
        } else {
            let path = self.stack.last();
            let rest = FocusView { stack: self.stack.drop_last(), ..self };
            if path@ == NULL_PATH@ || self.visited.contains(path@) {
                rest.next_node()
            } else {
                FocusStepView::Ask(
                    FocusView {
                        visited: self.visited.insert(path@),
                        pending: Pending::Inspect(path),
                        ..rest
                    },
                    Query::Inspect(path),
                )
            }
        }
    }

    /// The turn that asks for the children of `path`.
    pub open spec fn ask_children(self, path: String) -> FocusStepView {
        FocusStepView::Ask(
            FocusView { pending: Pending::Children(path), ..self },
            Query::Children(path),
        )
    }

    /// The turn after a node of the descent said what it is.
    pub open spec fn inspected(self, path: String, node: Inspection) -> FocusStepView {
        if node.spec_has_focus() && node.role.spec_is_window_like() {
            FocusStepView::Ask(
                FocusView { pending: Pending::FocusExtents(path), ..self },
                Query::Extents(path),
            )
        } else {
            let noted = if node.spec_has_focus() && self.focused_node is None {
                FocusView { focused_node: Some(path), ..self }
            } else {
                self
            };
            if node.role.spec_is_window_like() && noted.first_window is None {
                FocusStepView::Ask(
                    FocusView { pending: Pending::AnchorExtents(path), ..noted },
                    Query::Extents(path),
                )
            } else {
                noted.ask_children(path)
            }
        }
    }

    /// The turn after the parent of a node of the climb is known: the climb
    /// ends where there is no parent or the parent was climbed before.
    pub open spec fn climb_to(self, parent: Option<String>) -> FocusStepView {
        match parent {
            Some(path) => if path@ == NULL_PATH@ || self.climbed.contains(path@) {
                self.fallback()
            } else {
                FocusStepView::Ask(
                    FocusView {
                        climbed: self.climbed.insert(path@),
                        pending: Pending::ClimbInspect(path),
                        ..self
                    },
                    Query::Inspect(path),
                )
            },
            None => self.fallback(),
        }
    }

    /// The turn that follows `answer`. An answer of another kind than the
    /// question counts as a question that failed.
    pub open spec fn advance(self, answer: Answer) -> FocusStepView {
        match self.pending {
            Pending::Applications => match answer {
                Answer::Applications(applications) => FocusView {
                    stack: start_stack(applications@),
                    ..self
                }.next_node(),
                _ => self.next_node(),
            },
            Pending::Inspect(path) => match answer {
                Answer::Inspection(Some(node)) => self.inspected(path, node),
                _ => self.next_node(),
            },
            Pending::FocusExtents(path) => match answer {
                Answer::Extents(extents) => FocusStepView::Done(Some(FocusNode { path, extents })),
                _ => FocusStepView::Done(Some(FocusNode { path, extents: None })),
            },
            Pending::AnchorExtents(path) => match answer {
                Answer::Extents(Some(extents)) => FocusView {
                    first_window: Some((path, extents)),
                    ..self
                }.ask_children(path),
                _ => self.ask_children(path),
            },
            Pending::Children(path) => match answer {
                Answer::Children(children) => FocusView {
                    stack: self.stack + children@,
                    ..self
                }.next_node(),
                _ => self.next_node(),
            },
            Pending::ClimbInspect(path) => match answer {
                Answer::Inspection(Some(node)) => if node.role.spec_is_window_like() {
                    FocusStepView::Ask(
                        FocusView { pending: Pending::ClimbExtents(path), ..self },
                        Query::Extents(path),
                    )
                } else {
                    FocusStepView::Ask(
                        FocusView { pending: Pending::ClimbParent(path), ..self },
                        Query::Parent(path),
                    )
                },
                _ => self.fallback(),
            },
            Pending::ClimbExtents(path) => match answer {
                Answer::Extents(extents) => FocusStepView::Done(Some(FocusNode { path, extents })),
                _ => FocusStepView::Done(Some(FocusNode { path, extents: None })),
            },
            Pending::ClimbParent(_) => match answer {
                Answer::Parent(parent) => self.climb_to(parent),
                _ => self.fallback(),
            },
        }
    }

    /// The first turn of a search: the question for the applications.
    pub open spec fn start() -> FocusStepView {
        FocusStepView::Ask(
            FocusView {
                stack: Seq::empty(),
                visited: Set::empty(),
                focused_node: None,
                first_window: None,
                climbed: Set::empty(),
                pending: Pending::Applications,
            },
            Query::Applications,
        )
    }
}

impl FocusSearch {
    /// Starts a search.
    pub fn start() -> (step: FocusStep)
        ensures
            step@ == FocusView::start(),
    {
        FocusStep::Ask(
            FocusSearch {
                stack: Vec::new(),
                visited: PathSet::new(),
                focused_node: None,
                first_window: None,
                climbed: PathSet::new(),
                pending: Pending::Applications,
            },
            Query::Applications,
        )
    }

    fn fallback(self) -> (step: FocusStep)
        ensures
            step@ == self@.fallback(),
    {
        match self.first_window {
            Some((path, extents)) => FocusStep::Done(
                Some(FocusNode { path, extents: Some(extents) }),
            ),
            None => FocusStep::Done(None),
        }
    }

    fn begin_climb(self) -> (step: FocusStep)
        ensures
            step@ == self@.begin_climb(),
    {
        let FocusSearch { stack, visited, focused_node, first_window, climbed, pending } = self;
        match focused_node {
            Some(path) => {
                let mut climbed = climbed;
                climbed.insert(path.clone());
                let query = Query::Inspect(path.clone());
                let pending = Pending::ClimbInspect(path.clone());
                FocusStep::Ask(
                    FocusSearch {
                        stack,
                        visited,
                        focused_node: Some(path),
                        first_window,
                        climbed,
                        pending,
                    },
                    query,
                )
            },
            None => FocusSearch {
                stack,
                visited,
                focused_node: None,
                first_window,
                climbed,
                pending,
            }.fallback(),
        }
    }

    fn next_node(self) -> (step: FocusStep)
        ensures
            step@ == self@.next_node(),
    {
        let ghost start = self@;
        let FocusSearch { stack, visited, focused_node, first_window, climbed, pending } = self;
        let mut stack = stack;
        let mut visited = visited;
        let null = String::from_str(NULL_PATH);
        while stack.len() > 0
            invariant
                null@ == NULL_PATH@,
                start == self@,
                visited@ == start.visited,
                climbed@ == start.climbed,
                focused_node == start.focused_node,
                first_window == start.first_window,
                (FocusView { stack: stack@, ..start }).next_node() == start.next_node(),
            decreases stack@.len(),
        {
            let ghost before = FocusView { stack: stack@, ..start };
            let path = stack.pop().unwrap();
            assert(stack@ == before.stack.drop_last());
            assert(path == before.stack.last());
            if path == null {
                assert(before.next_node() == (FocusView { stack: stack@, ..start }).next_node());
            } else if visited.insert(path.clone()) {
                let query = Query::Inspect(path.clone());
                let step = FocusStep::Ask(
                    FocusSearch {
                        stack,
                        visited,
                        focused_node,
                        first_window,
                        climbed,
                        pending: Pending::Inspect(path),
                    },
                    query,
                );
                assert(step@ == before.next_node());
                return step;
            } else {
                assert(visited@ =~= start.visited);
                assert(before.next_node() == (FocusView { stack: stack@, ..start }).next_node());
            }
        }
        FocusSearch { stack, visited, focused_node, first_window, climbed, pending }.begin_climb()
    }

    fn ask_children(self, path: String) -> (step: FocusStep)
        ensures
            step@ == self@.ask_children(path),
    {
        let FocusSearch { stack, visited, focused_node, first_window, climbed, pending } = self;
        let query = Query::Children(path.clone());
        FocusStep::Ask(
            FocusSearch {
                stack,
                visited,
                focused_node,
                first_window,
                climbed,
                pending: Pending::Children(path),
            },
            query,
        )
    }

    fn inspected(self, path: String, node: Inspection) -> (step: FocusStep)
        ensures
            step@ == self@.inspected(path, node),
    {
        let FocusSearch { stack, visited, focused_node, first_window, climbed, pending } = self;
        if node.has_focus() && node.role.is_window_like() {
            let query = Query::Extents(path.clone());
            return FocusStep::Ask(
                FocusSearch {
                    stack,
                    visited,
                    focused_node,
                    first_window,
                    climbed,
                    pending: Pending::FocusExtents(path),
                },
                query,
            );
        }
        let focused_node = if node.has_focus() && focused_node.is_none() {
            Some(path.clone())
        } else {
            focused_node
        };
        if node.role.is_window_like() && first_window.is_none() {
            let query = Query::Extents(path.clone());
            FocusStep::Ask(
                FocusSearch {
                    stack,
                    visited,
                    focused_node,
                    first_window,
                    climbed,
                    pending: Pending::AnchorExtents(path),
                },
                query,
            )
        } else {
            FocusSearch {
                stack,
                visited,
                focused_node,
                first_window,
                climbed,
                pending,
            }.ask_children(path)
        }
    }

    fn climb_to(self, parent: Option<String>) -> (step: FocusStep)
        ensures
            step@ == self@.climb_to(parent),
    {
        let FocusSearch { stack, visited, focused_node, first_window, climbed, pending } = self;
        let mut climbed = climbed;
        match parent {
            Some(path) => {
                let null = String::from_str(NULL_PATH);
                if path != null && climbed.insert(path.clone()) {
                    let query = Query::Inspect(path.clone());
                    FocusStep::Ask(
                        FocusSearch {
                            stack,
                            visited,
                            focused_node,
                            first_window,
                            climbed,
                            pending: Pending::ClimbInspect(path),
                        },
                        query,
                    )
                } else {
                    FocusSearch {
                        stack,
                        visited,
                        focused_node,
                        first_window,
                        climbed,
                        pending,
                    }.fallback()
                }
            },
            None => FocusSearch {
                stack,
                visited,
                focused_node,
                first_window,
                climbed,
                pending,
            }.fallback(),
        }
    }

    /// Takes the answer to the question that the search waited on and says
    /// what comes next.
    pub fn advance(self, answer: Answer) -> (step: FocusStep)
        ensures
            step@ == self@.advance(answer),
    {
        let FocusSearch { stack, visited, focused_node, first_window, climbed, pending } = self;
        match pending {
            Pending::Applications => {
                let stack = match answer {
                    Answer::Applications(applications) => start_from(&applications),
                    _ => stack,
                };
                FocusSearch {
                    stack,
                    visited,
                    focused_node,
                    first_window,
                    climbed,
                    pending: Pending::Applications,
                }.next_node()
            },
            Pending::Inspect(path) => {
                let search = FocusSearch {
                    stack,
                    visited,
                    focused_node,
                    first_window,
                    climbed,
                    pending: Pending::Inspect(path.clone()),
                };
                match answer {
                    Answer::Inspection(Some(node)) => search.inspected(path, node),
                    _ => search.next_node(),
                }
            },
            Pending::FocusExtents(path) => match answer {
                Answer::Extents(extents) => FocusStep::Done(Some(FocusNode { path, extents })),
                _ => FocusStep::Done(Some(FocusNode { path, extents: None })),
            },
            Pending::AnchorExtents(path) => {
                let first_window = match answer {
                    Answer::Extents(Some(extents)) => Some((path.clone(), extents)),
                    _ => first_window,
                };
                FocusSearch {
                    stack,
                    visited,
                    focused_node,
                    first_window,
                    climbed,
                    pending: Pending::AnchorExtents(path.clone()),
                }.ask_children(path)
            },
            Pending::Children(path) => {
                let mut stack = stack;
                match answer {
                    Answer::Children(children) => {
                        let mut children = children;
                        stack.append(&mut children);
                    },
                    _ => {},
                }
                FocusSearch {
                    stack,
                    visited,
                    focused_node,
                    first_window,
                    climbed,
                    pending: Pending::Children(path),
                }.next_node()
            },
            Pending::ClimbInspect(path) => match answer {
                Answer::Inspection(Some(node)) => {
                    if node.role.is_window_like() {
                        let query = Query::Extents(path.clone());
                        FocusStep::Ask(
                            FocusSearch {
                                stack,
                                visited,
                                focused_node,
                                first_window,
                                climbed,
                                pending: Pending::ClimbExtents(path),
                            },
                            query,
                        )
                    } else {
                        let query = Query::Parent(path.clone());
                        FocusStep::Ask(
                            FocusSearch {
                                stack,
                                visited,
                                focused_node,
                                first_window,
                                climbed,
                                pending: Pending::ClimbParent(path),
                            },
                            query,
                        )
                    }
                },
                _ => FocusSearch {
                    stack,
                    visited,
                    focused_node,
                    first_window,
                    climbed,
                    pending: Pending::ClimbInspect(path),
                }.fallback(),
            },
            Pending::ClimbExtents(path) => match answer {
                Answer::Extents(extents) => FocusStep::Done(Some(FocusNode { path, extents })),
                _ => FocusStep::Done(Some(FocusNode { path, extents: None })),
            },
            Pending::ClimbParent(path) => {
                let search = FocusSearch {
                    stack,
                    visited,
                    focused_node,
                    first_window,
                    climbed,
                    pending: Pending::ClimbParent(path),
                };
                match answer {
                    Answer::Parent(parent) => search.climb_to(parent),
                    _ => search.fallback(),
                }
            },
        }
    }
}

/// The descent looks at a node only if it has not looked at it before, and
/// never at the path that stands for "no node"; what it has looked at, it
/// keeps in mind.
pub proof fn lemma_descent_never_repeats(search: FocusView)
    ensures
        match search.next_node() {
            FocusStepView::Ask(next, Query::Inspect(path)) => {
                ||| {
                    &&& next.pending == Pending::Inspect(path)
                    &&& path@ != NULL_PATH@
                    &&& !search.visited.contains(path@)
                    &&& next.visited == search.visited.insert(path@)
                    &&& next.climbed == search.climbed
                }
                ||| {
                    &&& next.pending == Pending::ClimbInspect(path)
                    &&& next.visited == search.visited
                    &&& next.climbed == search.climbed.insert(path@)
                }
            },
            FocusStepView::Ask(_, _) => false,
            FocusStepView::Done(_) => true,
        },
    decreases search.stack.len(),
{
    if search.stack.len() > 0 {
        let path = search.stack.last();
        if path@ == NULL_PATH@ || search.visited.contains(path@) {
            lemma_descent_never_repeats(FocusView { stack: search.stack.drop_last(), ..search });
        }
    }
}

/// The climb goes to a parent only if it has not been there before, and
/// never to the path that stands for "no node".
pub proof fn lemma_climb_never_repeats(search: FocusView, parent: Option<String>)
    ensures
        match search.climb_to(parent) {
            FocusStepView::Ask(next, query) => {
                &&& parent matches Some(path)
                &&& query == Query::Inspect(path)
                &&& next.pending == Pending::ClimbInspect(path)
                &&& path@ != NULL_PATH@
                &&& !search.climbed.contains(path@)
                &&& next.climbed == search.climbed.insert(path@)
            },
            FocusStepView::Done(_) => true,
        },
{
}

/// The nodes that the descent starts from.
fn start_from(applications: &Vec<Application>) -> (stack: Vec<String>)
    ensures
        stack@ == start_stack(applications@),
{
    let mut i: usize = 0;
    assert(applications@.take(0) =~= Seq::<Application>::empty());
    while i < applications.len()
        invariant
            i <= applications@.len(),
            first_active(applications@.take(i as int)) is None,
        decreases applications@.len() - i,
    {
        proof {
            assert(applications@.take(i + 1).drop_last() =~= applications@.take(i as int));
        }
        if applications[i].active {
            proof {
                lemma_first_active_extends(applications@, i + 1);
            }
            let mut stack: Vec<String> = Vec::new();
            stack.push(applications[i].path.clone());
            assert(stack@ =~= seq![applications@[i as int].path]);
            return stack;
        }
        i = i + 1;
    }
    assert(applications@.take(i as int) =~= applications@);
    let mut stack: Vec<String> = Vec::new();
    let mut k: usize = 0;
    while k < applications.len()
        invariant
            k <= applications@.len(),
            stack@.len() == k,
            forall|j: int| 0 <= j < k ==> stack@[j] == applications@[j].path,
        decreases applications@.len() - k,
    {
        stack.push(applications[k].path.clone());
        k = k + 1;
    }
    assert(stack@ =~= Seq::new(applications@.len(), |i: int| applications@[i].path));
    stack
}

/// An active application among the first `count` is the first active one of
/// them all.
proof fn lemma_first_active_extends(applications: Seq<Application>, count: int)
    requires
        0 <= count <= applications.len(),
        first_active(applications.take(count)) is Some,
    ensures
        first_active(applications) == first_active(applications.take(count)),
    decreases applications.len() - count,
{
    if count < applications.len() {
        assert(applications.take(count + 1).drop_last() =~= applications.take(count));
        lemma_first_active_extends(applications, count + 1);
    } else {
        assert(applications.take(count) =~= applications);
    }
}

} // verus!
