//! The layers of a prompt.

use vstd::prelude::*;

verus! {

#[derive(Clone, Copy, Debug, PartialEq, Eq, Structural)]
pub enum PromptLayerKind {
    Runtime,
    Project,
    Workflow,
    Agent,
    Skills,
    Control,
}

impl PromptLayerKind {
    /// The name.
    pub open spec fn text(self) -> Seq<char> {
        match self {
            PromptLayerKind::Runtime => "runtime"@,
            PromptLayerKind::Project => "project"@,
            PromptLayerKind::Workflow => "workflow"@,
            PromptLayerKind::Agent => "agent"@,
            PromptLayerKind::Skills => "skills"@,
            PromptLayerKind::Control => "control"@,
        }
    }

    /// The name.
    pub fn as_str(self) -> (r: &'static str)
        ensures
            r@ == self.text(),
    {
        match self {
            PromptLayerKind::Runtime => "runtime",
            PromptLayerKind::Project => "project",
            PromptLayerKind::Workflow => "workflow",
            PromptLayerKind::Agent => "agent",
            PromptLayerKind::Skills => "skills",
            PromptLayerKind::Control => "control",
        }
    }
}

#[derive(Debug, PartialEq, Eq)]
pub struct PromptLayer {
    pub kind: PromptLayerKind,
    pub name: String,
    /// Stable, inspectable origin such as `builtin:runtime`, a Project-relative
    /// path, or a Workflow/Session identifier.
    pub source: String,
    pub content: String,
    pub sha256: String,
}

#[derive(Debug, PartialEq, Eq)]
pub struct PromptSnapshot {
    pub layers: Vec<PromptLayer>,
    /// Exact provider instructions produced from `layers` for this Turn.
    pub rendered: String,
    pub sha256: String,
}

#[derive(Debug, PartialEq, Eq)]
pub struct ProjectSystemPrompt {
    pub relative_path: String,
    pub content: String,
    pub sha256: String,
}

impl Default for PromptSnapshot {
    fn default() -> (r: Self)
        ensures
            r.layers@ == Seq::<PromptLayer>::empty(),
            r.rendered@ == Seq::<char>::empty(),
            r.sha256@ == Seq::<char>::empty(),
    {
        PromptSnapshot { layers: Vec::new(), rendered: String::new(), sha256: String::new() }
    }
}

} // verus!
