//! The canvas workspace: the open blocks of a session, the active block,
//! and the transitions that open, update, focus, minimize and close blocks.
//! Every transition is logged as it is asked for and as it ends.

use vstd::prelude::*;
use crate::blocks::{
    active_after_close, apply_close_transition, apply_focus_transition,
    apply_toggle_minimize_transition, find_block, keys_of, position_of_id,
    resolve_block_target_for_template, target_of, without_id, BlockTargetResolution, CanvasBlock,
    TargetModel,
};
use crate::event::{EventModel, FieldValueModel, UiEvent, UiEventLog};
use crate::intent::{IntentModel, UiIntent};
use crate::json::{JsonModel, JsonValue};
use crate::ranking::text_of;
use crate::registry::standard_allowed;
use crate::runtime::{loaded_value, restored, runtime_error_message, RuntimeModel, UiRuntime};
use crate::text::{
    append, chars_of, decimal, format_unsigned, join, joined, occurs_at, owned, parse_unsigned,
    same_text, starts_with, string_of, unsigned_value, views,
};
use crate::workspace::{
    CanvasBlockActionStatus, CanvasBlockActionType, CanvasBlockActor, CanvasBlockState,
    CanvasWorkspaceState,
};

verus! {

/// The mathematical value of a [`CanvasBlockState`].
pub struct BlockStateModel {
    pub block_id: Seq<char>,
    pub template_id: Seq<char>,
    pub title: Seq<char>,
    pub provider_id: Seq<char>,
    pub provider_kind: Seq<char>,
    pub schema: JsonModel,
    pub intent: IntentModel,
    pub minimized: bool,
    pub form_state: Map<Seq<char>, FieldValueModel>,
}

impl View for CanvasBlockState {
    type V = BlockStateModel;

    open spec fn view(&self) -> BlockStateModel {
        BlockStateModel {
            block_id: self.block_id@,
            template_id: self.template_id@,
            title: self.title@,
            provider_id: self.provider_id@,
            provider_kind: self.provider_kind@,
            schema: self.schema@,
            intent: self.intent@,
            minimized: self.minimized,
            form_state: self.form_state@,
        }
    }
}

/// The mathematical value of a [`CanvasBlock`].
pub struct BlockModel {
    pub state: BlockStateModel,
    pub runtime: RuntimeModel,
    pub synced_event_count: nat,
    pub last_touched_at: nat,
}

impl View for CanvasBlock {
    type V = BlockModel;

    open spec fn view(&self) -> BlockModel {
        BlockModel {
            state: self.state@,
            runtime: self.ui_runtime@,
            synced_event_count: self.synced_event_count as nat,
            last_touched_at: self.last_touched_at as nat,
        }
    }
}

/// The mathematical values of a list of blocks.
pub open spec fn block_models(blocks: Seq<CanvasBlock>) -> Seq<BlockModel> {
    Seq::new(blocks.len(), |i: int| blocks[i]@)
}

/// A request to render a template into the canvas.
pub struct CanvasRenderRequest {
    pub intent: UiIntent,
    pub template_id: String,
    pub title: String,
    pub provider_id: String,
    pub provider_kind: String,
    pub target_block_id: Option<String>,
    pub schema: JsonValue,
}

/// The mathematical value of a [`CanvasRenderRequest`].
pub struct RequestModel {
    pub intent: IntentModel,
    pub template_id: Seq<char>,
    pub title: Seq<char>,
    pub provider_id: Seq<char>,
    pub provider_kind: Seq<char>,
    pub target_block_id: Option<Seq<char>>,
    pub schema: JsonModel,
}

impl View for CanvasRenderRequest {
    type V = RequestModel;

    open spec fn view(&self) -> RequestModel {
        RequestModel {
            intent: self.intent@,
            template_id: self.template_id@,
            title: self.title@,
            provider_id: self.provider_id@,
            provider_kind: self.provider_kind@,
            target_block_id: text_of(self.target_block_id),
            schema: self.schema@,
        }
    }
}

/// Where a render request goes.
pub enum RenderTarget {
    /// Nowhere: the request names a block that is not there.
    Missing(Seq<char>),
    /// Nowhere: these blocks are equally good targets.
    Ambiguous(Seq<Seq<char>>),
    /// Into the block at this position.
    Update(int),
    /// Into a new block.
    Open,
}

/// Where a render request goes: to the block it names, or, where it names
/// none, to where targeting by template sends it.
pub open spec fn render_target(
    blocks: Seq<CanvasBlock>,
    active: Option<Seq<char>>,
    request: RequestModel,
) -> RenderTarget {
    match request.target_block_id {
        Some(id) => match position_of_id(blocks, id) {
            Some(i) => RenderTarget::Update(i),
            None => RenderTarget::Missing(id),
        },
        None => match target_of(keys_of(blocks), active, request.template_id) {
            TargetModel::Existing(i) => RenderTarget::Update(i),
            TargetModel::NotFound => RenderTarget::Open,
            TargetModel::Ambiguous(ids) => RenderTarget::Ambiguous(ids),
        },
    }
}

/// How a render request ended.
#[derive(Debug, Clone, Copy, PartialEq, Eq)]
pub enum RenderOutcome {
    /// The block at this position shows the template now.
    Updated(usize),
    /// A new block, at this position, shows the template.
    Opened(usize),
    /// Nothing was rendered; the log tells why.
    Failed,
}

/// A lifecycle event.
pub open spec fn lifecycle(
    action: CanvasBlockActionType,
    actor: CanvasBlockActor,
    status: CanvasBlockActionStatus,
    block_id: Option<Seq<char>>,
    message: Option<Seq<char>>,
) -> EventModel {
    EventModel::CanvasBlockLifecycle { action, actor, status, block_id, message }
}

/// The id of the block that is opened under a nonce.
pub open spec fn block_id_of(nonce: u64) -> Seq<char> {
    "block-"@ + decimal(nonce as nat)
}

/// The nonce that follows `nonce`; the largest nonce follows itself.
pub open spec fn next_nonce(nonce: u64) -> u64 {
    if nonce == u64::MAX {
        nonce
    } else {
        (nonce + 1) as u64
    }
}

/// The message of a request that is ambiguous between blocks.
pub open spec fn ambiguous_message(ids: Seq<Seq<char>>) -> Seq<char> {
    "ambiguous target; specify block_id (candidates: "@ + joined(ids, ", "@) + ")"@
}

/// The message that names the template of a request.
pub open spec fn template_message(template_id: Seq<char>) -> Seq<char> {
    "template_id="@ + template_id
}

/// A runtime that has loaded nothing yet.
pub open spec fn fresh_runtime() -> RuntimeModel {
    RuntimeModel {
        allowed: standard_allowed(),
        schema: None,
        error: None,
        form_state: Map::empty(),
        events: Seq::empty(),
    }
}

/// The open blocks of a session, the id of the active block, the log of
/// lifecycle events, and the nonce of the block that was opened last.
pub struct CanvasWorkspace {
    pub blocks: Vec<CanvasBlock>,
    pub active_block_id: Option<String>,
    pub event_log: UiEventLog,
    pub block_nonce: u64,
}

/// The mathematical value of a [`CanvasWorkspace`].
pub struct WorkspaceModel {
    pub blocks: Seq<BlockModel>,
    pub active: Option<Seq<char>>,
    pub events: Seq<EventModel>,
    pub nonce: u64,
}

impl View for CanvasWorkspace {
    type V = WorkspaceModel;

    open spec fn view(&self) -> WorkspaceModel {
        WorkspaceModel {
            blocks: block_models(self.blocks@),
            active: text_of(self.active_block_id),
            events: self.event_log@,
            nonce: self.block_nonce,
        }
    }
}

/// The workspace after a request that could not be placed: nothing
/// changes but the log, which tells of the failed update.
pub open spec fn refused(
    before: WorkspaceModel,
    actor: CanvasBlockActor,
    block_id: Option<Seq<char>>,
    message: Seq<char>,
) -> WorkspaceModel {
    WorkspaceModel {
        events: before.events.push(
            lifecycle(
                CanvasBlockActionType::Update,
                actor,
                CanvasBlockActionStatus::Failed,
                block_id,
                Some(message),
            ),
        ),
        ..before
    }
}

/// The block after a successful update: it shows what the request asks
/// for, is expanded and freshly touched, and nothing of its new runtime's
/// events was passed on yet. Its id and its template id stay.
pub open spec fn updated_block(
    old_block: BlockModel,
    request: RequestModel,
    runtime: RuntimeModel,
    now: nat,
) -> BlockModel {
    BlockModel {
        state: BlockStateModel {
            schema: request.schema,
            title: request.title,
            provider_id: request.provider_id,
            provider_kind: request.provider_kind,
            intent: request.intent,
            minimized: false,
            ..old_block.state
        },
        runtime,
        synced_event_count: 0,
        last_touched_at: now,
    }
}

/// The block that a successful open adds.
pub open spec fn opened_block(
    block_id: Seq<char>,
    request: RequestModel,
    runtime: RuntimeModel,
    now: nat,
) -> BlockModel {
    BlockModel {
        state: BlockStateModel {
            block_id,
            template_id: request.template_id,
            title: request.title,
            provider_id: request.provider_id,
            provider_kind: request.provider_kind,
            schema: request.schema,
            intent: request.intent,
            minimized: false,
            form_state: runtime.form_state,
        },
        runtime,
        synced_event_count: 0,
        last_touched_at: now,
    }
}

/// The workspace after an update of the block at position `i`, where
/// `runtime` is the block's runtime after the load of the request's schema.
/// A failed load leaves the block's state as it was and the active block
/// as it was; a successful one makes the block the active one.
pub open spec fn after_update(
    before: WorkspaceModel,
    i: int,
    request: RequestModel,
    actor: CanvasBlockActor,
    now: nat,
    runtime: RuntimeModel,
) -> WorkspaceModel {
    let old_block = before.blocks[i];
    let block_id = old_block.state.block_id;
    let requested = lifecycle(
        CanvasBlockActionType::Update,
        actor,
        CanvasBlockActionStatus::Requested,
        Some(block_id),
        Some(template_message(request.template_id)),
    );
    match runtime.error {
        Some(e) => WorkspaceModel {
            blocks: before.blocks.update(i, BlockModel { runtime, ..old_block }),
            events: before.events.push(requested).push(
                lifecycle(
                    CanvasBlockActionType::Update,
                    actor,
                    CanvasBlockActionStatus::Failed,
                    Some(block_id),
                    Some(runtime_error_message(e)),
                ),
            ),
            ..before
        },
        None => WorkspaceModel {
            blocks: before.blocks.update(i, updated_block(old_block, request, runtime, now)),
            active: Some(block_id),
            events: before.events.push(requested).push(
                lifecycle(
                    CanvasBlockActionType::Update,
                    actor,
                    CanvasBlockActionStatus::Succeeded,
                    Some(block_id),
                    None,
                ),
            ),
            ..before
        },
    }
}

/// The workspace after an open, where `runtime` is a fresh runtime after
/// the load of the request's schema. A failed load adds no block and uses
/// no nonce; a successful one adds a block under the next nonce at the end
/// of the list and makes it the active one.
pub open spec fn after_open(
    before: WorkspaceModel,
    request: RequestModel,
    actor: CanvasBlockActor,
    now: nat,
    runtime: RuntimeModel,
) -> WorkspaceModel {
    let requested = lifecycle(
        CanvasBlockActionType::Open,
        actor,
        CanvasBlockActionStatus::Requested,
        None,
        Some(template_message(request.template_id)),
    );
    match runtime.error {
        Some(e) => WorkspaceModel {
            events: before.events.push(requested).push(
                lifecycle(
                    CanvasBlockActionType::Open,
                    actor,
                    CanvasBlockActionStatus::Failed,
                    None,
                    Some(runtime_error_message(e)),
                ),
            ),
            ..before
        },
        None => {
            let nonce = next_nonce(before.nonce);
            let block_id = block_id_of(nonce);
            WorkspaceModel {
                blocks: before.blocks.push(opened_block(block_id, request, runtime, now)),
                active: Some(block_id),
                events: before.events.push(requested).push(
                    lifecycle(
                        CanvasBlockActionType::Open,
                        actor,
                        CanvasBlockActionStatus::Succeeded,
                        Some(block_id),
                        Some(template_message(request.template_id)),
                    ),
                ),
                nonce,
            }
        },
    }
}

/// What a render request makes of a workspace, given where the request
/// goes.
pub open spec fn renders(
    before: WorkspaceModel,
    target: RenderTarget,
    request: RequestModel,
    actor: CanvasBlockActor,
    now: nat,
    after: WorkspaceModel,
    outcome: RenderOutcome,
) -> bool {
    match target {
        RenderTarget::Missing(id) => after == refused(
            before,
            actor,
            Some(id),
            "explicit target block_id not found"@,
        ) && outcome == RenderOutcome::Failed,
        RenderTarget::Ambiguous(ids) => after == refused(
            before,
            actor,
            None,
            ambiguous_message(ids),
        ) && outcome == RenderOutcome::Failed,
        RenderTarget::Update(i) => exists|runtime: RuntimeModel|
            {
                &&& 0 <= i < before.blocks.len()
                &&& #[trigger] loaded_value(before.blocks[i].runtime, request.schema, runtime)
                &&& after == after_update(before, i, request, actor, now, runtime)
                &&& outcome == (if runtime.error.is_some() {
                    RenderOutcome::Failed
                } else {
                    RenderOutcome::Updated(i as usize)
                })
            },
        RenderTarget::Open => exists|runtime: RuntimeModel|
            {
                &&& #[trigger] loaded_value(fresh_runtime(), request.schema, runtime)
                &&& after == after_open(before, request, actor, now, runtime)
                &&& outcome == (if runtime.error.is_some() {
                    RenderOutcome::Failed
                } else {
                    RenderOutcome::Opened(before.blocks.len() as usize)
                })
            },
    }
}

impl CanvasBlockState {
    /// A copy of the state.
    pub fn duplicate(&self) -> (r: CanvasBlockState)
        ensures
            r@ == self@,
    {
        CanvasBlockState {
            block_id: self.block_id.clone(),
            template_id: self.template_id.clone(),
            title: self.title.clone(),
            provider_id: self.provider_id.clone(),
            provider_kind: self.provider_kind.clone(),
            schema: self.schema.duplicate(),
            intent: self.intent.duplicate(),
            minimized: self.minimized,
            form_state: self.form_state.duplicate(),
        }
    }
}

/// The mathematical values of a list of block states.
pub open spec fn state_models(states: Seq<CanvasBlockState>) -> Seq<BlockStateModel> {
    Seq::new(states.len(), |i: int| states[i]@)
}

/// The state under which a block is persisted: the block's state, with the
/// form values that its runtime holds.
pub open spec fn persisted(block: BlockModel) -> BlockStateModel {
    BlockStateModel { form_state: block.runtime.form_state, ..block.state }
}

/// The nonce that a block id writes: the number behind `block-`, if the id
/// is of that form.
pub open spec fn nonce_of(block_id: Seq<char>) -> Option<u64> {
    if occurs_at(block_id, "block-"@, 0) {
        unsigned_value(block_id.skip("block-"@.len() as int))
    } else {
        None
    }
}

/// The highest nonce that the ids of a list of blocks write, or zero where
/// none writes a nonce.
pub open spec fn highest_nonce(states: Seq<BlockStateModel>) -> u64
    decreases states.len(),
{
    if states.len() == 0 {
        0
    } else {
        let before = highest_nonce(states.drop_last());
        match nonce_of(states.last().block_id) {
            Some(n) => if n > before {
                n
            } else {
                before
            },
            None => before,
        }
    }
}

/// The block that a persisted state is restored to, where `runtime` is a
/// fresh runtime after the load of the state's schema: the runtime takes
/// the persisted form values where the load succeeded.
pub open spec fn restored_block(state: BlockStateModel, runtime: RuntimeModel, now: nat) -> BlockModel {
    BlockModel {
        state,
        runtime: if runtime.error.is_none() {
            restored(runtime, state.form_state)
        } else {
            runtime
        },
        synced_event_count: 0,
        last_touched_at: now,
    }
}

/// The block was restored from the persisted state.
pub open spec fn restores(state: BlockStateModel, now: nat, block: BlockModel) -> bool {
    exists|runtime: RuntimeModel| #[trigger]
        loaded_value(fresh_runtime(), state.schema, runtime) && block == restored_block(
            state,
            runtime,
            now,
        )
}

/// The messages that a restore gives: one for each block whose runtime is
/// in error, in block order, with the block's id and the error's message.
pub open spec fn restore_failures(blocks: Seq<BlockModel>) -> Seq<Seq<char>>
    decreases blocks.len(),
{
    if blocks.len() == 0 {
        Seq::empty()
    } else {
        let before = restore_failures(blocks.drop_last());
        match blocks.last().runtime.error {
            Some(error) => before.push(
                "failed to restore canvas block "@ + blocks.last().state.block_id + ": "@
                    + runtime_error_message(error),
            ),
            None => before,
        }
    }
}

/// The active block id of a restored workspace: the persisted one where a
/// block has it, else the id of the first block, if there is a block.
pub open spec fn restored_active(states: Seq<BlockStateModel>, active: Option<Seq<char>>) -> Option<
    Seq<char>,
> {
    if active.is_some() && exists|i: int|
        0 <= i < states.len() && (#[trigger] states[i]).block_id == active.unwrap() {
        active
    } else if states.len() > 0 {
        Some(states[0].block_id)
    } else {
        None
    }
}

/// The nonce that a block id writes.
pub fn block_nonce_of(block_id: &str) -> (r: Option<u64>)
    ensures
        r == nonce_of(block_id@),
{
    if !starts_with(block_id, "block-") {
        return None;
    }
    let chars = chars_of(block_id);
    let prefix = chars_of("block-");
    let number = string_of(&chars, prefix.len(), chars.len());
    assert(chars@.subrange(prefix@.len() as int, chars@.len() as int) =~= block_id@.skip(
        "block-"@.len() as int,
    ));
    parse_unsigned(number.as_str())
}

impl CanvasWorkspace {
    /// The state under which the workspace is persisted: every block with
    /// the form values that its runtime holds, and the active block id.
    pub fn snapshot_canvas_workspace(&self) -> (r: CanvasWorkspaceState)
        ensures
            state_models(r.blocks@) == Seq::new(
                self@.blocks.len(),
                |i: int| persisted(self@.blocks[i]),
            ),
            text_of(r.active_block_id) == self@.active,
    {
        let mut blocks: Vec<CanvasBlockState> = Vec::new();
        let mut i: usize = 0;
        while i < self.blocks.len()
            invariant
                i <= self.blocks@.len(),
                blocks@.len() == i,
                forall|k: int| 0 <= k < i ==> (#[trigger] blocks@[k])@ == persisted(self.blocks@[k]@),
            decreases self.blocks@.len() - i,
        {
            let block = &self.blocks[i];
            let mut state = block.state.duplicate();
            state.form_state = block.ui_runtime.form_state_snapshot();
            blocks.push(state);
            i += 1;
        }
        assert(state_models(blocks@) =~= Seq::new(
            self@.blocks.len(),
            |i: int| persisted(self@.blocks[i]),
        ));
        CanvasWorkspaceState {
            blocks,
            active_block_id: match &self.active_block_id {
                Some(id) => Some(id.clone()),
                None => None,
            },
        }
    }

    /// Puts a persisted workspace in place of this one. Every block gets a
    /// fresh runtime that loads the block's schema and takes the persisted
    /// form values; a block whose schema does not load is kept, with its
    /// runtime in error, and reported. The log starts anew. The result
    /// holds one message for each block whose schema did not load.
    pub fn restore_canvas_workspace(&mut self, workspace: &CanvasWorkspaceState, now: u128) -> (r:
        Vec<String>)
        ensures
            final(self)@.blocks.len() == workspace.blocks@.len(),
            forall|i: int|
                0 <= i < workspace.blocks@.len() ==> restores(
                    (#[trigger] workspace.blocks@[i])@,
                    now as nat,
                    final(self)@.blocks[i],
                ),
            final(self)@.events.len() == 0,
            final(self)@.active == restored_active(
                state_models(workspace.blocks@),
                text_of(workspace.active_block_id),
            ),
            final(self)@.nonce == highest_nonce(state_models(workspace.blocks@)),
            views(r@) == restore_failures(final(self)@.blocks),
    {
        let ghost states = state_models(workspace.blocks@);
        let mut blocks: Vec<CanvasBlock> = Vec::new();
        let mut failures: Vec<String> = Vec::new();
        let mut highest: u64 = 0;
        let mut active_found = false;
        let mut i: usize = 0;
        assert(states.take(0) =~= Seq::<BlockStateModel>::empty());
        assert(views(failures@) =~= restore_failures(block_models(blocks@)));
        while i < workspace.blocks.len()
            invariant
                i <= workspace.blocks@.len(),
                states == state_models(workspace.blocks@),
                blocks@.len() == i,
                views(failures@) == restore_failures(block_models(blocks@)),
                forall|k: int|
                    0 <= k < i ==> restores(
                        (#[trigger] workspace.blocks@[k])@,
                        now as nat,
                        blocks@[k]@,
                    ),
                highest == highest_nonce(states.take(i as int)),
                active_found == (workspace.active_block_id.is_some() && exists|k: int|
                    0 <= k < i && (#[trigger] states[k]).block_id
                        == workspace.active_block_id.unwrap()@),
            decreases workspace.blocks@.len() - i,
        {
            let state = &workspace.blocks[i];
            proof {
                assert(states.take(i + 1).drop_last() =~= states.take(i as int));
                assert(states.take(i + 1).last() == state@);
                assert(states[i as int] == state@);
            }
            let mut runtime = UiRuntime::new();
            assert(runtime@ == fresh_runtime());
            let ghost loaded_runtime: RuntimeModel;
            let ghost blocks_before = block_models(blocks@);
            let ghost failures_before = views(failures@);
            match runtime.load_schema_value(&state.schema) {
                Err(err) => {
                    proof {
                        loaded_runtime = runtime@;
                    }
                    let mut message = owned("failed to restore canvas block ");
                    append(&mut message, state.block_id.as_str());
                    append(&mut message, ": ");
                    let reason = err.message();
                    append(&mut message, reason.as_str());
                    failures.push(message);
                    assert(views(failures@) =~= failures_before.push(message@));
                },
                Ok(()) => {
                    proof {
                        loaded_runtime = runtime@;
                    }
                    runtime.restore_form_state(state.form_state.duplicate());
                },
            }
            match block_nonce_of(state.block_id.as_str()) {
                Some(n) => {
                    if n > highest {
                        highest = n;
                    }
                },
                None => {},
            }
            match &workspace.active_block_id {
                Some(active) => {
                    if same_text(active.as_str(), state.block_id.as_str()) {
                        active_found = true;
                    }
                },
                None => {},
            }
            let block = CanvasBlock {
                state: state.duplicate(),
                ui_runtime: runtime,
                synced_event_count: 0,
                last_touched_at: now,
            };
            proof {
                assert(loaded_value(fresh_runtime(), state@.schema, loaded_runtime));
                assert(block@ == restored_block(state@, loaded_runtime, now as nat));
            }
            blocks.push(block);
            proof {
                assert(block_models(blocks@).drop_last() =~= blocks_before);
                assert(block_models(blocks@).last() == block@);
            }
            i += 1;
        }
        assert(states.take(workspace.blocks@.len() as int) =~= states);
        let active_block_id = if active_found {
            match &workspace.active_block_id {
                Some(active) => Some(active.clone()),
                None => None,
            }
        } else if blocks.len() > 0 {
            Some(blocks[0].state.block_id.clone())
        } else {
            None
        };
        proof {
            if blocks@.len() > 0 {
                assert(restores(workspace.blocks@[0]@, now as nat, blocks@[0]@));
                assert(states[0] == workspace.blocks@[0]@);
            }
        }
        self.blocks = blocks;
        self.event_log = UiEventLog::new();
        self.active_block_id = active_block_id;
        self.block_nonce = highest;
        assert(self@.blocks =~= block_models(self.blocks@));
        failures
    }
}

impl CanvasWorkspace {
    /// A workspace without blocks.
    pub fn new() -> (r: CanvasWorkspace)
        ensures
            r@.blocks.len() == 0,
            r@.active.is_none(),
            r@.events.len() == 0,
            r@.nonce == 0,
    {
        CanvasWorkspace {
            blocks: Vec::new(),
            active_block_id: None,
            event_log: UiEventLog::new(),
            block_nonce: 0,
        }
    }

    /// Logs a lifecycle event.
    pub fn emit_canvas_lifecycle(
        &mut self,
        action: CanvasBlockActionType,
        actor: CanvasBlockActor,
        status: CanvasBlockActionStatus,
        block_id: Option<String>,
        message: Option<String>,
    )
        ensures
            final(self).blocks == old(self).blocks,
            final(self).active_block_id == old(self).active_block_id,
            final(self).block_nonce == old(self).block_nonce,
            final(self).event_log@ == old(self).event_log@.push(
                lifecycle(action, actor, status, text_of(block_id), text_of(message)),
            ),
    {
        self.event_log.push(
            UiEvent::CanvasBlockLifecycle { action, actor, status, block_id, message },
        );
    }

    /// The id of the next block to open. Nonces count up from one; the
    /// largest nonce is used again once it is reached.
    pub fn next_block_id(&mut self) -> (r: String)
        ensures
            final(self).block_nonce == next_nonce(old(self).block_nonce),
            r@ == block_id_of(final(self).block_nonce),
            final(self).blocks == old(self).blocks,
            final(self).active_block_id == old(self).active_block_id,
            final(self).event_log == old(self).event_log,
    {
        if self.block_nonce < u64::MAX {
            self.block_nonce = self.block_nonce + 1;
        }
        let mut out = owned("block-");
        let number = format_unsigned(self.block_nonce as u128);
        append(&mut out, number.as_str());
        out
    }

    /// The position of the active block.
    pub fn active_block_index(&self) -> (r: Option<usize>)
        ensures
            match self.active_block_id {
                Some(id) => position_of_id(self.blocks@, id@) == (match r {
                    Some(i) => Some(i as int),
                    None => None,
                }),
                None => r.is_none(),
            },
            r matches Some(i) ==> i < self.blocks@.len(),
    {
        match &self.active_block_id {
            Some(id) => find_block(&self.blocks, id.as_str()),
            None => None,
        }
    }

    /// Where a render request for a template goes, where the request names
    /// no block.
    pub fn resolve_target_block(&self, template_id: &str) -> (r: BlockTargetResolution)
        ensures
            r@ == target_of(keys_of(self.blocks@), text_of(self.active_block_id), template_id@),
            r matches BlockTargetResolution::Existing(i) ==> i < self.blocks@.len(),
    {
        match &self.active_block_id {
            Some(id) => resolve_block_target_for_template(
                &self.blocks,
                Some(id.as_str()),
                template_id,
            ),
            None => resolve_block_target_for_template(&self.blocks, None, template_id),
        }
    }

    /// Renders a template into the canvas: into the block that the request
    /// names, else into the block that targeting by template finds, else
    /// into a new block. `now` is the time of the request.
    pub fn apply_canvas_block_from_schema(
        &mut self,
        request: CanvasRenderRequest,
        actor: CanvasBlockActor,
        now: u128,
    ) -> (outcome: RenderOutcome)
        ensures
            renders(
                old(self)@,
                render_target(old(self).blocks@, old(self)@.active, request@),
                request@,
                actor,
                now as nat,
                final(self)@,
                outcome,
            ),
    {
        let ghost before = self@;
        let ghost goal = render_target(self.blocks@, self@.active, request@);
        let target: Option<usize> = match &request.target_block_id {
            Some(target_block_id) => match find_block(&self.blocks, target_block_id.as_str()) {
                Some(index) => Some(index),
                None => {
                    self.emit_canvas_lifecycle(
                        CanvasBlockActionType::Update,
                        actor,
                        CanvasBlockActionStatus::Failed,
                        Some(target_block_id.clone()),
                        Some(owned("explicit target block_id not found")),
                    );
                    assert(self@.blocks =~= before.blocks);
                    return RenderOutcome::Failed;
                },
            },
            None => match self.resolve_target_block(request.template_id.as_str()) {
                BlockTargetResolution::Existing(index) => Some(index),
                BlockTargetResolution::NotFound => None,
                BlockTargetResolution::Ambiguous(block_ids) => {
                    let mut message = owned("ambiguous target; specify block_id (candidates: ");
                    let listed = join(&block_ids, ", ");
                    append(&mut message, listed.as_str());
                    append(&mut message, ")");
                    self.emit_canvas_lifecycle(
                        CanvasBlockActionType::Update,
                        actor,
                        CanvasBlockActionStatus::Failed,
                        None,
                        Some(message),
                    );
                    assert(self@.blocks =~= before.blocks);
                    return RenderOutcome::Failed;
                },
            },
        };
        let mut template_note = owned("template_id=");
        append(&mut template_note, request.template_id.as_str());
        match target {
            Some(index) => {
                assert(goal == RenderTarget::Update(index as int));
                let block_id = self.blocks[index].state.block_id.clone();
                self.emit_canvas_lifecycle(
                    CanvasBlockActionType::Update,
                    actor,
                    CanvasBlockActionStatus::Requested,
                    Some(block_id.clone()),
                    Some(template_note),
                );
                let loaded = self.blocks[index].ui_runtime.load_schema_value(&request.schema);
                let ghost runtime = self.blocks@[index as int].ui_runtime@;
                match loaded {
                    Err(err) => {
                        self.emit_canvas_lifecycle(
                            CanvasBlockActionType::Update,
                            actor,
                            CanvasBlockActionStatus::Failed,
                            Some(block_id),
                            Some(err.message()),
                        );
                        proof {
                            let wanted = after_update(
                                before,
                                index as int,
                                request@,
                                actor,
                                now as nat,
                                runtime,
                            );
                            assert(self@.blocks =~= wanted.blocks);
                            assert(loaded_value(
                                before.blocks[index as int].runtime,
                                request@.schema,
                                runtime,
                            ));
                        }
                        RenderOutcome::Failed
                    },
                    Ok(()) => {
                        self.blocks[index].state.schema = request.schema;
                        self.blocks[index].state.title = request.title;
                        self.blocks[index].state.provider_id = request.provider_id;
                        self.blocks[index].state.provider_kind = request.provider_kind;
                        self.blocks[index].state.intent = request.intent;
                        self.blocks[index].state.minimized = false;
                        self.blocks[index].last_touched_at = now;
                        self.blocks[index].synced_event_count = 0;
                        self.active_block_id = Some(block_id.clone());
                        self.emit_canvas_lifecycle(
                            CanvasBlockActionType::Update,
                            actor,
                            CanvasBlockActionStatus::Succeeded,
                            Some(block_id),
                            None,
                        );
                        proof {
                            let wanted = after_update(
                                before,
                                index as int,
                                request@,
                                actor,
                                now as nat,
                                runtime,
                            );
                            assert(self@.blocks =~= wanted.blocks);
                            assert(loaded_value(
                                before.blocks[index as int].runtime,
                                request@.schema,
                                runtime,
                            ));
                        }
                        RenderOutcome::Updated(index)
                    },
                }
            },
            None => {
                assert(goal == RenderTarget::Open);
                self.emit_canvas_lifecycle(
                    CanvasBlockActionType::Open,
                    actor,
                    CanvasBlockActionStatus::Requested,
                    None,
                    Some(template_note),
                );
                let mut runtime = UiRuntime::new();
                assert(runtime@ == fresh_runtime());
                match runtime.load_schema_value(&request.schema) {
                    Err(err) => {
                        self.emit_canvas_lifecycle(
                            CanvasBlockActionType::Open,
                            actor,
                            CanvasBlockActionStatus::Failed,
                            None,
                            Some(err.message()),
                        );
                        proof {
                            assert(self@.blocks =~= before.blocks);
                            assert(loaded_value(fresh_runtime(), request@.schema, runtime@));
                        }
                        RenderOutcome::Failed
                    },
                    Ok(()) => {
                        let block_id = self.next_block_id();
                        let mut succeeded_note = owned("template_id=");
                        append(&mut succeeded_note, request.template_id.as_str());
                        let position = self.blocks.len();
                        let ghost loaded_runtime = runtime@;
                        let block = CanvasBlock {
                            state: CanvasBlockState {
                                block_id: block_id.clone(),
                                template_id: request.template_id,
                                title: request.title,
                                provider_id: request.provider_id,
                                provider_kind: request.provider_kind,
                                schema: request.schema,
                                intent: request.intent,
                                minimized: false,
                                form_state: runtime.form_state_snapshot(),
                            },
                            ui_runtime: runtime,
                            synced_event_count: 0,
                            last_touched_at: now,
                        };
                        self.blocks.push(block);
                        self.active_block_id = Some(block_id.clone());
                        self.emit_canvas_lifecycle(
                            CanvasBlockActionType::Open,
                            actor,
                            CanvasBlockActionStatus::Succeeded,
                            Some(block_id),
                            Some(succeeded_note),
                        );
                        proof {
                            let wanted = after_open(
                                before,
                                request@,
                                actor,
                                now as nat,
                                loaded_runtime,
                            );
                            assert(self@.blocks =~= wanted.blocks);
                            assert(loaded_value(fresh_runtime(), request@.schema, loaded_runtime));
                        }
                        RenderOutcome::Opened(position)
                    },
                }
            },
        }
    }

    /// Makes the block with the given id the active one. The request and
    /// its end are logged; `false` where no block has the id.
    pub fn focus_block(&mut self, block_id: &str, actor: CanvasBlockActor, now: u128) -> (r: bool)
        ensures
            r == position_of_id(old(self).blocks@, block_id@).is_some(),
            final(self).block_nonce == old(self).block_nonce,
            final(self).blocks@.len() == old(self).blocks@.len(),
            final(self).event_log@ == old(self).event_log@.push(
                lifecycle(
                    CanvasBlockActionType::Focus,
                    actor,
                    CanvasBlockActionStatus::Requested,
                    Some(block_id@),
                    None,
                ),
            ).push(
                lifecycle(
                    CanvasBlockActionType::Focus,
                    actor,
                    if r {
                        CanvasBlockActionStatus::Succeeded
                    } else {
                        CanvasBlockActionStatus::Failed
                    },
                    Some(block_id@),
                    if r {
                        None
                    } else {
                        Some("block not found"@)
                    },
                ),
            ),
            match position_of_id(old(self).blocks@, block_id@) {
                Some(i) => {
                    &&& text_of(final(self).active_block_id) == Some(block_id@)
                    &&& final(self).blocks@[i] == (CanvasBlock {
                        last_touched_at: now,
                        ..old(self).blocks@[i]
                    })
                    &&& forall|k: int|
                        0 <= k < old(self).blocks@.len() && k != i ==> final(self).blocks@[k]
                            == old(self).blocks@[k]
                },
                None => final(self).blocks == old(self).blocks && final(self).active_block_id
                    == old(self).active_block_id,
            },
    {
        self.emit_canvas_lifecycle(
            CanvasBlockActionType::Focus,
            actor,
            CanvasBlockActionStatus::Requested,
            Some(owned(block_id)),
            None,
        );
        if !apply_focus_transition(&mut self.blocks, &mut self.active_block_id, block_id, now) {
            self.emit_canvas_lifecycle(
                CanvasBlockActionType::Focus,
                actor,
                CanvasBlockActionStatus::Failed,
                Some(owned(block_id)),
                Some(owned("block not found")),
            );
            return false;
        }
        self.emit_canvas_lifecycle(
            CanvasBlockActionType::Focus,
            actor,
            CanvasBlockActionStatus::Succeeded,
            Some(owned(block_id)),
            None,
        );
        true
    }

    /// Minimizes the block with the given id if it is expanded, expands it
    /// if it is minimized. The request and its end are logged; the result
    /// is the block's new state, or `None` where no block has the id.
    pub fn toggle_minimize_block(&mut self, block_id: &str, actor: CanvasBlockActor, now: u128) -> (r:
        Option<bool>)
        ensures
            final(self).block_nonce == old(self).block_nonce,
            final(self).active_block_id == old(self).active_block_id,
            final(self).blocks@.len() == old(self).blocks@.len(),
            final(self).event_log@ == old(self).event_log@.push(
                lifecycle(
                    CanvasBlockActionType::Minimize,
                    actor,
                    CanvasBlockActionStatus::Requested,
                    Some(block_id@),
                    None,
                ),
            ).push(
                lifecycle(
                    CanvasBlockActionType::Minimize,
                    actor,
                    if r.is_some() {
                        CanvasBlockActionStatus::Succeeded
                    } else {
                        CanvasBlockActionStatus::Failed
                    },
                    Some(block_id@),
                    Some(
                        match r {
                            Some(true) => "minimized"@,
                            Some(false) => "expanded"@,
                            None => "block not found"@,
                        },
                    ),
                ),
            ),
            match position_of_id(old(self).blocks@, block_id@) {
                Some(i) => {
                    &&& r == Some(!old(self).blocks@[i].state.minimized)
                    &&& final(self).blocks@[i] == (CanvasBlock {
                        state: CanvasBlockState {
                            minimized: !old(self).blocks@[i].state.minimized,
                            ..old(self).blocks@[i].state
                        },
                        last_touched_at: now,
                        ..old(self).blocks@[i]
                    })
                    &&& forall|k: int|
                        0 <= k < old(self).blocks@.len() && k != i ==> final(self).blocks@[k]
                            == old(self).blocks@[k]
                },
                None => r.is_none() && final(self).blocks == old(self).blocks,
            },
    {
        self.emit_canvas_lifecycle(
            CanvasBlockActionType::Minimize,
            actor,
            CanvasBlockActionStatus::Requested,
            Some(owned(block_id)),
            None,
        );
        match apply_toggle_minimize_transition(&mut self.blocks, block_id, now) {
            Some(minimized) => {
                self.emit_canvas_lifecycle(
                    CanvasBlockActionType::Minimize,
                    actor,
                    CanvasBlockActionStatus::Succeeded,
                    Some(owned(block_id)),
                    Some(
                        if minimized {
                            owned("minimized")
                        } else {
                            owned("expanded")
                        },
                    ),
                );
                Some(minimized)
            },
            None => {
                self.emit_canvas_lifecycle(
                    CanvasBlockActionType::Minimize,
                    actor,
                    CanvasBlockActionStatus::Failed,
                    Some(owned(block_id)),
                    Some(owned("block not found")),
                );
                None
            },
        }
    }

    /// Closes the block with the given id. Where it was the active block,
    /// the last block that is left becomes the active one. The request and
    /// its end are logged; `false` where no block has the id.
    pub fn close_block(&mut self, block_id: &str, actor: CanvasBlockActor) -> (r: bool)
        ensures
            r == position_of_id(old(self).blocks@, block_id@).is_some(),
            final(self).block_nonce == old(self).block_nonce,
            final(self).blocks@ == without_id(old(self).blocks@, block_id@),
            r ==> text_of(final(self).active_block_id) == active_after_close(
                final(self).blocks@,
                text_of(old(self).active_block_id),
                block_id@,
            ),
            !r ==> final(self).active_block_id == old(self).active_block_id,
            final(self).event_log@ == old(self).event_log@.push(
                lifecycle(
                    CanvasBlockActionType::Close,
                    actor,
                    CanvasBlockActionStatus::Requested,
                    Some(block_id@),
                    None,
                ),
            ).push(
                lifecycle(
                    CanvasBlockActionType::Close,
                    actor,
                    if r {
                        CanvasBlockActionStatus::Succeeded
                    } else {
                        CanvasBlockActionStatus::Failed
                    },
                    Some(block_id@),
                    if r {
                        None
                    } else {
                        Some("block not found"@)
                    },
                ),
            ),
    {
        self.emit_canvas_lifecycle(
            CanvasBlockActionType::Close,
            actor,
            CanvasBlockActionStatus::Requested,
            Some(owned(block_id)),
            None,
        );
        if !apply_close_transition(&mut self.blocks, &mut self.active_block_id, block_id) {
            self.emit_canvas_lifecycle(
                CanvasBlockActionType::Close,
                actor,
                CanvasBlockActionStatus::Failed,
                Some(owned(block_id)),
                Some(owned("block not found")),
            );
            return false;
        }
        self.emit_canvas_lifecycle(
            CanvasBlockActionType::Close,
            actor,
            CanvasBlockActionStatus::Succeeded,
            Some(owned(block_id)),
            None,
        );
        true
    }
}

} // verus!
