//! Discovery over the accessibility tree.
//!
//! A run resolves the focus first, if hints are wanted for the focused
//! window only: by a search of the tree, else by asking the window system
//! for the active window's geometry, the compositor before the X server.
//! Then it walks the tree for targets, from the focused node or from the
//! root. A scoped walk that finds nothing is followed by an unscoped one
//! from the root, and a run that still finds nothing has failed.
//!
//! The run asks one thing at a time; the caller answers.

use super::focus::{Answer, FocusSearch, FocusStep, FocusStepView, FocusView, Query};
use super::paths::{texts, ROOT_PATH};
use super::walk::{
    all_inside, report_views, NodeReport, NodeReportView, Walk, WalkStep, WalkStepView, WalkView,
};
use super::{BackendError, BackendResult};
use crate::config::OverlayTarget;
use crate::hints::{Child, Extents};
use crate::window_system::WindowSystemType;
use vstd::prelude::*;
use vstd::string::StringExecFns;

verus! {

/// Who can tell the geometry of the active window.
#[derive(Debug, Clone, Copy, PartialEq, Eq, Structural)]
pub enum GeometrySource {
    /// The Wayland compositor.
    Wayland,
    /// The X server, also for X clients under Wayland.
    X11,
}

/// What a run wants to know next.
#[derive(Debug, Clone, PartialEq, Eq)]
pub enum Request {
    /// A question of the focus search.
    Focus(Query),
    /// The geometry of the active window.
    Geometry(GeometrySource),
    /// The extents and children of each of these nodes.
    Level(Vec<String>),
}

/// The answer to a [`Request`].
#[derive(Debug, Clone, PartialEq, Eq)]
pub enum Reply {
    Focus(Answer),
    /// `None` where the source could not tell.
    Geometry(Option<Extents>),
    /// One report for each node of the level, in the order of the request.
    Level(Vec<NodeReport>),
}

/// Where a run stands.
pub enum Stage {
    /// The focus is being searched in the tree.
    Focus(FocusSearch),
    /// The window system was asked for the active window.
    Geometry(GeometrySource),
    /// The tree is being walked for targets.
    Walking(Walk),
}

/// A run in progress.
pub struct Discovery {
    window_system: WindowSystemType,
    /// Whether the walk under way starts at the focus or keeps to a region,
    /// so that a walk of the whole tree is left to try.
    scoped: bool,
    stage: Stage,
}

/// One turn of a run.
pub enum DiscoveryStep {
    /// Put the request and hand the reply to [`Discovery::advance`].
    Perform(Discovery, Request),
    /// The run is over.
    Done(Result<BackendResult, BackendError>),
}

/// A stage as a mathematical value.
pub enum StageView {
    Focus(FocusView),
    Geometry(GeometrySource),
    Walking(WalkView),
}

/// A run as a mathematical value.
pub struct DiscoveryView {
    pub window_system: WindowSystemType,
    pub scoped: bool,
    pub stage: StageView,
}

/// A request as a mathematical value.
pub enum RequestView {
    Focus(Query),
    Geometry(GeometrySource),
    Level(Seq<Seq<char>>),
}

/// The end of a run as a mathematical value.
pub enum OutcomeView {
    Found { children: Seq<Child>, focus_extents: Option<Extents> },
    NoTargets,
}

/// One turn of a run as a mathematical value.
pub enum DiscoveryStepView {
    Perform(DiscoveryView, RequestView),
    Done(OutcomeView),
}

impl View for Stage {
    type V = StageView;

    open spec fn view(&self) -> StageView {
        match self {
            Stage::Focus(search) => StageView::Focus(search@),
            Stage::Geometry(source) => StageView::Geometry(*source),
            Stage::Walking(walk) => StageView::Walking(walk@),
        }
    }
}

impl View for Discovery {
    type V = DiscoveryView;

    closed spec fn view(&self) -> DiscoveryView {
        DiscoveryView {
            window_system: self.window_system,
            scoped: self.scoped,
            stage: self.stage@,
        }
    }
}

impl View for Request {
    type V = RequestView;

    open spec fn view(&self) -> RequestView {
        match self {
            Request::Focus(query) => RequestView::Focus(*query),
            Request::Geometry(source) => RequestView::Geometry(*source),
            Request::Level(paths) => RequestView::Level(texts(paths@)),
        }
    }
}

/// The end of a run that a result or an error stands for.
pub open spec fn outcome_view(outcome: Result<BackendResult, BackendError>) -> OutcomeView {
    match outcome {
        Ok(result) => OutcomeView::Found {
            children: result.children@,
            focus_extents: result.focus_extents,
        },
        Err(_) => OutcomeView::NoTargets,
    }
}

impl View for DiscoveryStep {
    type V = DiscoveryStepView;

    open spec fn view(&self) -> DiscoveryStepView {
        match self {
            DiscoveryStep::Perform(run, request) => DiscoveryStepView::Perform(run@, request@),
            DiscoveryStep::Done(outcome) => DiscoveryStepView::Done(outcome_view(*outcome)),
        }
    }
}

/// The source to ask first on a window system.
pub open spec fn spec_first_source(window_system: WindowSystemType) -> GeometrySource {
    match window_system {
        WindowSystemType::Wayland => GeometrySource::Wayland,
        WindowSystemType::X11 => GeometrySource::X11,
    }
}

impl DiscoveryView {
    /// The turn of a run whose walk under `focus` took the turn `step`. A
    /// walk that has ended gives its targets if there are any; else a walk of
    /// the whole tree follows, if the walk was scoped; else the run has
    /// failed.
    pub open spec fn walk_turn(self, step: WalkStepView, focus: Option<Extents>) -> DiscoveryStepView {
        match step {
            WalkStepView::Query(walk, paths) => DiscoveryStepView::Perform(
                DiscoveryView { stage: StageView::Walking(walk), ..self },
                RequestView::Level(paths),
            ),
            WalkStepView::Done(targets) => if targets.len() > 0 {
                DiscoveryStepView::Done(
                    OutcomeView::Found { children: targets, focus_extents: focus },
                )
            } else if self.scoped {
                match WalkView::start(ROOT_PATH@, None) {
                    WalkStepView::Query(walk, paths) => DiscoveryStepView::Perform(
                        DiscoveryView { scoped: false, stage: StageView::Walking(walk), ..self },
                        RequestView::Level(paths),
                    ),
                    WalkStepView::Done(_) => DiscoveryStepView::Done(OutcomeView::NoTargets),
                }
            } else {
                DiscoveryStepView::Done(OutcomeView::NoTargets)
            },
        }
    }

    /// The turn that asks `source` for the active window.
    pub open spec fn ask_geometry(self, source: GeometrySource) -> DiscoveryStepView {
        DiscoveryStepView::Perform(
            DiscoveryView { stage: StageView::Geometry(source), ..self },
            RequestView::Geometry(source),
        )
    }

    /// The turn of a run whose focus search took the turn `step`: a walk
    /// from the focused node, scoped to its extents where they are known;
    /// or, where the search found nothing, a question to the window system.
    pub open spec fn focus_turn(self, step: FocusStepView) -> DiscoveryStepView {
        match step {
            FocusStepView::Ask(search, query) => DiscoveryStepView::Perform(
                DiscoveryView { stage: StageView::Focus(search), ..self },
                RequestView::Focus(query),
            ),
            FocusStepView::Done(Some(node)) => DiscoveryView { scoped: true, ..self }.walk_turn(
                WalkView::start(node.path@, node.extents),
                node.extents,
            ),
            FocusStepView::Done(None) => self.ask_geometry(spec_first_source(self.window_system)),
        }
    }

    /// The turn after `source` has answered: a walk of the whole tree scoped
    /// to the geometry, if it gave one; else a question to the X server, if
    /// it was the compositor that could not tell; else a walk of the whole
    /// tree without a region.
    pub open spec fn geometry_turn(
        self,
        source: GeometrySource,
        geometry: Option<Extents>,
    ) -> DiscoveryStepView {
        match geometry {
            Some(extents) => DiscoveryView { scoped: true, ..self }.walk_turn(
                WalkView::start(ROOT_PATH@, Some(extents)),
                Some(extents),
            ),
            None => match source {
                GeometrySource::Wayland => self.ask_geometry(GeometrySource::X11),
                GeometrySource::X11 => DiscoveryView { scoped: false, ..self }.walk_turn(
                    WalkView::start(ROOT_PATH@, None),
                    None,
                ),
            },
        }
    }

    /// The turn that follows `reply`. A reply of another kind than the
    /// request counts as a request that failed.
    pub open spec fn advance(self, reply: Reply) -> DiscoveryStepView {
        match self.stage {
            StageView::Focus(search) => match reply {
                Reply::Focus(answer) => self.focus_turn(search.advance(answer)),
                _ => self.focus_turn(search.advance(Answer::Extents(None))),
            },
            StageView::Geometry(source) => match reply {
                Reply::Geometry(geometry) => self.geometry_turn(source, geometry),
                _ => self.geometry_turn(source, None),
            },
            StageView::Walking(walk) => match reply {
                Reply::Level(reports) => self.walk_turn(
                    walk.step(report_views(reports@)),
                    walk.focus,
                ),
                _ => self.walk_turn(walk.step(Seq::empty()), walk.focus),
            },
        }
    }

    /// The first turn of a run: the focus search for hints on the focused
    /// window, a walk of the whole tree for hints on the whole screen.
    pub open spec fn start(
        overlay_target: OverlayTarget,
        window_system: WindowSystemType,
    ) -> DiscoveryStepView {
        match overlay_target {
            OverlayTarget::Window => DiscoveryView {
                window_system,
                scoped: false,
                stage: StageView::Geometry(GeometrySource::X11),
            }.focus_turn(FocusView::start()),
            OverlayTarget::Screen => DiscoveryView {
                window_system,
                scoped: false,
                stage: StageView::Geometry(GeometrySource::X11),
            }.walk_turn(WalkView::start(ROOT_PATH@, None), None),
        }
    }
}

/// The source to ask first on a window system.
pub fn first_source(window_system: WindowSystemType) -> (source: GeometrySource)
    ensures
        source == spec_first_source(window_system),
{
    match window_system {
        WindowSystemType::Wayland => GeometrySource::Wayland,
        WindowSystemType::X11 => GeometrySource::X11,
    }
}

impl Discovery {
    fn walk_turn(
        window_system: WindowSystemType,
        scoped: bool,
        step: WalkStep,
        focus: Option<Extents>,
    ) -> (turn: DiscoveryStep)
        requires
            step matches WalkStep::Done(targets) ==> all_inside(targets@, focus),
        ensures
            turn@ == (DiscoveryView {
                window_system,
                scoped,
                stage: StageView::Geometry(GeometrySource::X11),
            }).walk_turn(step@, focus),
            turn matches DiscoveryStep::Done(Ok(result)) ==> result.well_formed()
                && result.children@.len() > 0,
            turn matches DiscoveryStep::Done(Err(error)) ==> error == BackendError::NoTargets,
    {
        match step {
            WalkStep::Query(walk, paths) => DiscoveryStep::Perform(
                Discovery { window_system, scoped, stage: Stage::Walking(walk) },
                Request::Level(paths),
            ),
            WalkStep::Done(targets) => {
                if targets.len() > 0 {
                    DiscoveryStep::Done(Ok(BackendResult { children: targets, focus_extents: focus }))
                } else if scoped {
                    match Walk::start(String::from_str(ROOT_PATH), None) {
                        WalkStep::Query(walk, paths) => DiscoveryStep::Perform(
                            Discovery { window_system, scoped: false, stage: Stage::Walking(walk) },
                            Request::Level(paths),
                        ),
                        WalkStep::Done(_) => DiscoveryStep::Done(Err(BackendError::NoTargets)),
                    }
                } else {
                    DiscoveryStep::Done(Err(BackendError::NoTargets))
                }
            },
        }
    }

    fn ask_geometry(window_system: WindowSystemType, scoped: bool, source: GeometrySource) -> (turn:
        DiscoveryStep)
        ensures
            turn@ == (DiscoveryView {
                window_system,
                scoped,
                stage: StageView::Geometry(GeometrySource::X11),
            }).ask_geometry(source),
    {
        DiscoveryStep::Perform(
            Discovery { window_system, scoped, stage: Stage::Geometry(source) },
            Request::Geometry(source),
        )
    }

    fn focus_turn(window_system: WindowSystemType, scoped: bool, step: FocusStep) -> (turn:
        DiscoveryStep)
        ensures
            turn@ == (DiscoveryView {
                window_system,
                scoped,
                stage: StageView::Geometry(GeometrySource::X11),
            }).focus_turn(step@),
            turn matches DiscoveryStep::Done(Ok(result)) ==> result.well_formed()
                && result.children@.len() > 0,
            turn matches DiscoveryStep::Done(Err(error)) ==> error == BackendError::NoTargets,
    {
        match step {
            FocusStep::Ask(search, query) => DiscoveryStep::Perform(
                Discovery { window_system, scoped, stage: Stage::Focus(search) },
                Request::Focus(query),
            ),
            FocusStep::Done(Some(node)) => {
                let extents = node.extents;
                Self::walk_turn(window_system, true, Walk::start(node.path, extents), extents)
            },
            FocusStep::Done(None) => Self::ask_geometry(
                window_system,
                scoped,
                first_source(window_system),
            ),
        }
    }

    fn geometry_turn(
        window_system: WindowSystemType,
        scoped: bool,
        source: GeometrySource,
        geometry: Option<Extents>,
    ) -> (turn: DiscoveryStep)
        ensures
            turn@ == (DiscoveryView {
                window_system,
                scoped,
                stage: StageView::Geometry(GeometrySource::X11),
            }).geometry_turn(source, geometry),
            turn matches DiscoveryStep::Done(Ok(result)) ==> result.well_formed()
                && result.children@.len() > 0,
            turn matches DiscoveryStep::Done(Err(error)) ==> error == BackendError::NoTargets,
    {
        match geometry {
            Some(extents) => Self::walk_turn(
                window_system,
                true,
                Walk::start(String::from_str(ROOT_PATH), Some(extents)),
                Some(extents),
            ),
            None => match source {
                GeometrySource::Wayland => Self::ask_geometry(
                    window_system,
                    scoped,
                    GeometrySource::X11,
                ),
                GeometrySource::X11 => Self::walk_turn(
                    window_system,
                    false,
                    Walk::start(String::from_str(ROOT_PATH), None),
                    None,
                ),
            },
        }
    }

    /// Starts a run.
    pub fn start(overlay_target: OverlayTarget, window_system: WindowSystemType) -> (turn:
        DiscoveryStep)
        ensures
            turn@ == DiscoveryView::start(overlay_target, window_system),
            turn matches DiscoveryStep::Done(Ok(result)) ==> result.well_formed()
                && result.children@.len() > 0,
            turn matches DiscoveryStep::Done(Err(error)) ==> error == BackendError::NoTargets,
    {
        match overlay_target {
            OverlayTarget::Window => Self::focus_turn(window_system, false, FocusSearch::start()),
            OverlayTarget::Screen => Self::walk_turn(
                window_system,
                false,
                Walk::start(String::from_str(ROOT_PATH), None),
                None,
            ),
        }
    }

    /// Takes the reply to the request that the run waited on and says what
    /// comes next. A run ends with targets, every one of them inside the
    /// region that the result names, or with [`BackendError::NoTargets`].
    pub fn advance(self, reply: Reply) -> (turn: DiscoveryStep)
        ensures
            turn@ == self@.advance(reply),
            turn matches DiscoveryStep::Done(Ok(result)) ==> result.well_formed()
                && result.children@.len() > 0,
            turn matches DiscoveryStep::Done(Err(error)) ==> error == BackendError::NoTargets,
    {
        let Discovery { window_system, scoped, stage } = self;
        match stage {
            Stage::Focus(search) => {
                let answer = match reply {
                    Reply::Focus(answer) => answer,
                    _ => Answer::Extents(None),
                };
                Self::focus_turn(window_system, scoped, search.advance(answer))
            },
            Stage::Geometry(source) => {
                let geometry = match reply {
                    Reply::Geometry(geometry) => geometry,
                    _ => None,
                };
                Self::geometry_turn(window_system, scoped, source, geometry)
            },
            Stage::Walking(walk) => {
                let focus = walk.focus();
                let step = match reply {
                    Reply::Level(reports) => walk.step(&reports),
                    _ => {
                        let reports: Vec<NodeReport> = Vec::new();
                        assert(report_views(reports@) =~= Seq::<NodeReportView>::empty());
                        walk.step(&reports)
                    },
                };
                Self::walk_turn(window_system, scoped, step, focus)
            },
        }
    }
}

} // verus!
