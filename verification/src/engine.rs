//! The engine: the owner of a session and of the background execution
//! context that the session's work runs on.

use crate::cluster::{Definition, ObjectId, TableEntry, TableKind};
use crate::context::{ContextView, EngineHandle, SynapseContext};
use crate::error::{EngineError, EngineErrorView};
use crate::registry::{parse_name, TableRef};
use crate::state::{StateView, SynapseState};
use vstd::prelude::*;

verus! {

/// A started engine.
#[derive(Debug)]
pub struct Engine {
    session: SynapseContext,
}

impl View for Engine {
    type V = ContextView;

    closed spec fn view(&self) -> ContextView {
        self.session@
    }
}

/// The topic that the dotted name `target` stands for in a session, or the error.
pub open spec fn topic_of(state: StateView, target: Seq<char>) -> Result<
    ObjectId,
    EngineErrorView,
> {
    match parse_name(target) {
        None => Err(EngineErrorView::Plan(target)),
        Some(name) => match state.lookup(state.resolve(name), TableKind::Topic) {
            Some(id) => Ok(id),
            None => Err(EngineErrorView::TableNotFound(target)),
        },
    }
}

/// The number of batches that the buffer of the topic named `target`
/// takes: what the topic was created with, and one where that is zero.
pub open spec fn topic_capacity(state: StateView, target: Seq<char>) -> nat {
    match parse_name(target) {
        Some(name) => match state.cluster.tables[state.resolve(name)].definition {
            Definition::Topic(info) => if info.capacity == 0 {
                1
            } else {
                info.capacity as nat
            },
            _ => 1,
        },
        None => 1,
    }
}

impl Engine {
    /// The engine's invariant: that of its session.
    pub closed spec fn wf(&self) -> bool {
        self.session.wf()
    }

    /// An engine over `state` whose background context is the one that `handle` names.
    pub fn start(state: SynapseState, handle: EngineHandle) -> (engine: Engine)
        requires
            state.wf(),
        ensures
            engine.wf(),
            engine@ == (ContextView { state: state@, engine: Some(handle) }),
    {
        Engine { session: SynapseContext::new(state, handle) }
    }

    /// The engine's session.
    pub fn session(&self) -> (ctx: &SynapseContext)
        requires
            self.wf(),
        ensures
            ctx.wf(),
            ctx@ == self@,
    {
        &self.session
    }

    /// The engine's session, for statements that change it. The engine is
    /// the session as the caller leaves it.
    pub fn session_mut(&mut self) -> (ctx: &mut SynapseContext)
        requires
            old(self).wf(),
        ensures
            ctx.wf(),
            ctx@ == old(self)@,
            final(self)@ == final(ctx)@,
            final(self).wf() == final(ctx).wf(),
    {
        &mut self.session
    }

    /// The topic that the dotted name `target` stands for. A name that is
    /// no dotted name is a plan error; a name that stands for no topic is
    /// `TableNotFound`.
    pub fn topic(&self, target: &str) -> (r: Result<&TableEntry, EngineError>)
        requires
            self.wf(),
        ensures
            match (r, topic_of(self@.state, target@)) {
                (Ok(entry), Ok(id)) => {
                    &&& entry.object == id
                    &&& entry.definition.kind() == TableKind::Topic
                    &&& parse_name(target@) matches Some(name)
                    &&& entry.name@ == self@.state.resolve(name)
                    &&& entry.spec() == self@.state.cluster.tables[self@.state.resolve(name)]
                },
                (Err(e), Err(expected)) => e@ == expected,
                _ => false,
            },
    {
        match TableRef::parse(target) {
            None => Err(EngineError::Plan(target.to_owned())),
            Some(name) => {
                let resolved = self.session.state().resolve(&name);
                match self.session.state().topic(&resolved) {
                    Some(entry) => Ok(entry),
                    None => Err(EngineError::TableNotFound(target.to_owned())),
                }
            },
        }
    }

    /// Takes the handle of the background context out of the session. The
    /// first call hands out the context to tear down; later calls hand out nothing.
    pub fn shutdown(&mut self) -> (handle: Option<EngineHandle>)
        requires
            old(self).wf(),
        ensures
            final(self).wf(),
            (final(self)@, handle) == old(self)@.shutdown(),
    {
        self.session.shutdown()
    }
}

} // verus!
