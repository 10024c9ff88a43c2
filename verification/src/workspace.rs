//! The persisted shape of a canvas workspace, and the vocabulary of block
//! lifecycle events.

use vstd::prelude::*;
use crate::form_state::FormState;
use crate::intent::UiIntent;
use crate::json::JsonValue;

verus! {

/// The persisted state of one canvas block.
#[derive(Debug, Clone, PartialEq, Eq)]
pub struct CanvasBlockState {
    pub block_id: String,
    pub template_id: String,
    pub title: String,
    pub provider_id: String,
    pub provider_kind: String,
    pub schema: JsonValue,
    pub intent: UiIntent,
    pub minimized: bool,
    pub form_state: FormState,
}

/// The persisted state of a canvas workspace: its blocks in list order and
/// the id of the active block, if any.
#[derive(Debug, Clone, PartialEq, Eq)]
pub struct CanvasWorkspaceState {
    pub blocks: Vec<CanvasBlockState>,
    pub active_block_id: Option<String>,
}

impl CanvasWorkspaceState {
    /// A workspace without blocks.
    pub fn new() -> (r: CanvasWorkspaceState)
        ensures
            r.blocks@.len() == 0,
            r.active_block_id.is_none(),
    {
        CanvasWorkspaceState { blocks: Vec::new(), active_block_id: None }
    }
}

/// What a lifecycle transition does to a block.
#[derive(Debug, Clone, Copy, PartialEq, Eq, Structural)]
pub enum CanvasBlockActionType {
    Open,
    Update,
    Focus,
    Minimize,
    Close,
}

impl CanvasBlockActionType {
    /// The name of the action.
    pub open spec fn name(self) -> Seq<char> {
        match self {
            CanvasBlockActionType::Open => "Open"@,
            CanvasBlockActionType::Update => "Update"@,
            CanvasBlockActionType::Focus => "Focus"@,
            CanvasBlockActionType::Minimize => "Minimize"@,
            CanvasBlockActionType::Close => "Close"@,
        }
    }

    /// The name of the action.
    pub fn as_str(&self) -> (r: &'static str)
        ensures
            r@ == self.name(),
    {
        match self {
            CanvasBlockActionType::Open => "Open",
            CanvasBlockActionType::Update => "Update",
            CanvasBlockActionType::Focus => "Focus",
            CanvasBlockActionType::Minimize => "Minimize",
            CanvasBlockActionType::Close => "Close",
        }
    }
}

/// Who asked for a lifecycle transition.
#[derive(Debug, Clone, Copy, PartialEq, Eq, Structural)]
pub enum CanvasBlockActor {
    User,
    Assistant,
    System,
}

impl CanvasBlockActor {
    /// The name of the actor.
    pub open spec fn name(self) -> Seq<char> {
        match self {
            CanvasBlockActor::User => "User"@,
            CanvasBlockActor::Assistant => "Assistant"@,
            CanvasBlockActor::System => "System"@,
        }
    }

    /// The name of the actor.
    pub fn as_str(&self) -> (r: &'static str)
        ensures
            r@ == self.name(),
    {
        match self {
            CanvasBlockActor::User => "User",
            CanvasBlockActor::Assistant => "Assistant",
            CanvasBlockActor::System => "System",
        }
    }
}

/// How far a lifecycle transition got.
#[derive(Debug, Clone, Copy, PartialEq, Eq, Structural)]
pub enum CanvasBlockActionStatus {
    Requested,
    Succeeded,
    Failed,
}

impl CanvasBlockActionStatus {
    /// The name of the status.
    pub open spec fn name(self) -> Seq<char> {
        match self {
            CanvasBlockActionStatus::Requested => "Requested"@,
            CanvasBlockActionStatus::Succeeded => "Succeeded"@,
            CanvasBlockActionStatus::Failed => "Failed"@,
        }
    }

    /// The name of the status.
    pub fn as_str(&self) -> (r: &'static str)
        ensures
            r@ == self.name(),
    {
        match self {
            CanvasBlockActionStatus::Requested => "Requested",
            CanvasBlockActionStatus::Succeeded => "Succeeded",
            CanvasBlockActionStatus::Failed => "Failed",
        }
    }
}

} // verus!
