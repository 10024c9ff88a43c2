//! Canvas blocks: which block a render request goes to, and the focus,
//! minimize and close transitions.

use vstd::prelude::*;
use crate::order::{in_order, lemma_sorted, sort, sorted, views_of, Ranked};
use crate::ranking::text_of;
use crate::runtime::UiRuntime;
use crate::text::{comes_before, lemma_text_lt_order, owned, same_text, text_lt, views};
use crate::workspace::CanvasBlockState;

verus! {

/// One open block: its persisted state, the runtime that holds its schema,
/// how many of the runtime's events were passed on, and when the block was
/// last touched.
pub struct CanvasBlock {
    pub state: CanvasBlockState,
    pub ui_runtime: UiRuntime,
    pub synced_event_count: usize,
    pub last_touched_at: u128,
}

/// What targeting reads of a block.
pub struct BlockKey {
    pub block_id: Seq<char>,
    pub template_id: Seq<char>,
    pub touched: nat,
}

/// What targeting reads of `block`.
pub open spec fn key_of(block: CanvasBlock) -> BlockKey {
    BlockKey {
        block_id: block.state.block_id@,
        template_id: block.state.template_id@,
        touched: block.last_touched_at as nat,
    }
}

/// What targeting reads of a list of blocks.
pub open spec fn keys_of(blocks: Seq<CanvasBlock>) -> Seq<BlockKey> {
    Seq::new(blocks.len(), |i: int| key_of(blocks[i]))
}

/// Where a render request for a template goes.
#[derive(Debug, Clone, PartialEq, Eq)]
pub enum BlockTargetResolution {
    /// To the block at this position.
    Existing(usize),
    /// To a new block: no block shows the template.
    NotFound,
    /// Nowhere: these blocks are equally good targets.
    Ambiguous(Vec<String>),
}

/// The mathematical value of a [`BlockTargetResolution`].
pub enum TargetModel {
    Existing(int),
    NotFound,
    Ambiguous(Seq<Seq<char>>),
}

impl View for BlockTargetResolution {
    type V = TargetModel;

    open spec fn view(&self) -> TargetModel {
        match self {
            BlockTargetResolution::Existing(i) => TargetModel::Existing(*i as int),
            BlockTargetResolution::NotFound => TargetModel::NotFound,
            BlockTargetResolution::Ambiguous(ids) => TargetModel::Ambiguous(views(ids@)),
        }
    }
}

impl Ranked for String {
    open spec fn before(a: Seq<char>, b: Seq<char>) -> bool {
        text_lt(a, b)
    }

    proof fn before_is_strict_weak_order(a: Seq<char>, b: Seq<char>, c: Seq<char>) {
        lemma_text_lt_order(a, b, c);
    }

    fn goes_before(&self, other: &Self) -> (r: bool) {
        comes_before(self.as_str(), other.as_str())
    }
}

/// The block has the given id and shows the given template.
pub open spec fn is_active_match(key: BlockKey, active: Seq<char>, template_id: Seq<char>) -> bool {
    key.block_id == active && key.template_id == template_id
}

/// The position of the first block that has the active id and shows the
/// template.
pub open spec fn active_match(keys: Seq<BlockKey>, active: Seq<char>, template_id: Seq<char>) -> Option<
    int,
>
    decreases keys.len(),
{
    if keys.len() == 0 {
        None
    } else {
        match active_match(keys.drop_last(), active, template_id) {
            Some(i) => Some(i),
            None => if is_active_match(keys.last(), active, template_id) {
                Some(keys.len() - 1)
            } else {
                None
            },
        }
    }
}

/// The latest time at which a block that shows the template was touched.
pub open spec fn newest_touch(keys: Seq<BlockKey>, template_id: Seq<char>) -> Option<nat>
    decreases keys.len(),
{
    if keys.len() == 0 {
        None
    } else {
        let before = newest_touch(keys.drop_last(), template_id);
        if keys.last().template_id == template_id {
            match before {
                Some(m) => if keys.last().touched > m {
                    Some(keys.last().touched)
                } else {
                    Some(m)
                },
                None => Some(keys.last().touched),
            }
        } else {
            before
        }
    }
}

/// The positions, in list order, of the blocks that show the template and
/// were touched at the given time.
pub open spec fn touched_at(keys: Seq<BlockKey>, template_id: Seq<char>, time: nat) -> Seq<int>
    decreases keys.len(),
{
    if keys.len() == 0 {
        Seq::empty()
    } else {
        let before = touched_at(keys.drop_last(), template_id, time);
        if keys.last().template_id == template_id && keys.last().touched == time {
            before.push(keys.len() - 1)
        } else {
            before
        }
    }
}

/// The ids of the blocks at the given positions.
pub open spec fn ids_at(keys: Seq<BlockKey>, positions: Seq<int>) -> Seq<Seq<char>> {
    Seq::new(positions.len(), |i: int| keys[positions[i]].block_id)
}

/// Where a render request for a template goes. The active block takes it
/// if it shows the template. Else the block that shows the template and was
/// touched last takes it; where several such blocks were touched last at
/// the same time, the request is ambiguous between them, and their ids are
/// given in ascending order.
pub open spec fn target_of(
    keys: Seq<BlockKey>,
    active: Option<Seq<char>>,
    template_id: Seq<char>,
) -> TargetModel {
    if active.is_some() && active_match(keys, active.unwrap(), template_id).is_some() {
        TargetModel::Existing(active_match(keys, active.unwrap(), template_id).unwrap())
    } else {
        match newest_touch(keys, template_id) {
            None => TargetModel::NotFound,
            Some(time) => {
                let newest = touched_at(keys, template_id, time);
                if newest.len() == 1 {
                    TargetModel::Existing(newest[0])
                } else {
                    TargetModel::Ambiguous(sorted::<String>(ids_at(keys, newest)))
                }
            },
        }
    }
}

/// The position of the first block with the given id.
pub open spec fn position_of_id(blocks: Seq<CanvasBlock>, block_id: Seq<char>) -> Option<int>
    decreases blocks.len(),
{
    if blocks.len() == 0 {
        None
    } else {
        match position_of_id(blocks.drop_last(), block_id) {
            Some(i) => Some(i),
            None => if blocks.last().state.block_id@ == block_id {
                Some(blocks.len() - 1)
            } else {
                None
            },
        }
    }
}

/// What `position_of_id` finds: the first block with the id, if there is
/// one.
pub proof fn lemma_position_of_id(blocks: Seq<CanvasBlock>, block_id: Seq<char>)
    ensures
        match position_of_id(blocks, block_id) {
            Some(i) => 0 <= i < blocks.len() && blocks[i].state.block_id@ == block_id && forall|
                k: int,
            |
                0 <= k < i ==> (#[trigger] blocks[k]).state.block_id@ != block_id,
            None => forall|k: int|
                0 <= k < blocks.len() ==> (#[trigger] blocks[k]).state.block_id@ != block_id,
        },
    decreases blocks.len(),
{
    if blocks.len() > 0 {
        let front = blocks.drop_last();
        lemma_position_of_id(front, block_id);
        match position_of_id(front, block_id) {
            Some(i) => {
                assert(front[i] == blocks[i]);
                assert forall|k: int| 0 <= k < i implies (#[trigger] blocks[k]).state.block_id@
                    != block_id by {
                    assert(front[k] == blocks[k]);
                }
            },
            None => {
                assert forall|k: int| 0 <= k < blocks.len() - 1 implies (
                #[trigger] blocks[k]).state.block_id@ != block_id by {
                    assert(front[k] == blocks[k]);
                }
            },
        }
    }
}

/// The position of the first block with the given id.
pub fn find_block(blocks: &Vec<CanvasBlock>, block_id: &str) -> (r: Option<usize>)
    ensures
        position_of_id(blocks@, block_id@) == (match r {
            Some(i) => Some(i as int),
            None => None,
        }),
        r matches Some(i) ==> i < blocks@.len() && blocks@[i as int].state.block_id@ == block_id@,
{
    let mut i: usize = 0;
    assert(blocks@.take(0) =~= Seq::<CanvasBlock>::empty());
    while i < blocks.len()
        invariant
            i <= blocks@.len(),
            position_of_id(blocks@.take(i as int), block_id@).is_none(),
        decreases blocks@.len() - i,
    {
        proof {
            assert(blocks@.take(i + 1).drop_last() =~= blocks@.take(i as int));
        }
        if same_text(blocks[i].state.block_id.as_str(), block_id) {
            proof {
                lemma_position_prefix(blocks@, block_id@, i + 1);
            }
            return Some(i);
        }
        i += 1;
    }
    assert(blocks@.take(blocks@.len() as int) =~= blocks@);
    None
}

/// A position found in a prefix of the list is the position in the list.
pub proof fn lemma_position_prefix(blocks: Seq<CanvasBlock>, block_id: Seq<char>, n: int)
    requires
        0 <= n <= blocks.len(),
        position_of_id(blocks.take(n), block_id).is_some(),
    ensures
        position_of_id(blocks, block_id) == position_of_id(blocks.take(n), block_id),
    decreases blocks.len() - n,
{
    if n < blocks.len() {
        assert(blocks.take(n + 1).drop_last() =~= blocks.take(n));
        lemma_position_prefix(blocks, block_id, n + 1);
    } else {
        assert(blocks.take(n) =~= blocks);
    }
}

/// A match found in a prefix of the list is the match in the list.
pub proof fn lemma_active_match_prefix(
    keys: Seq<BlockKey>,
    active: Seq<char>,
    template_id: Seq<char>,
    n: int,
)
    requires
        0 <= n <= keys.len(),
        active_match(keys.take(n), active, template_id).is_some(),
    ensures
        active_match(keys, active, template_id) == active_match(keys.take(n), active, template_id),
    decreases keys.len() - n,
{
    if n < keys.len() {
        assert(keys.take(n + 1).drop_last() =~= keys.take(n));
        lemma_active_match_prefix(keys, active, template_id, n + 1);
    } else {
        assert(keys.take(n) =~= keys);
    }
}

/// Decides where a render request for a template goes, where the request
/// names no block.
pub fn resolve_block_target_for_template(
    blocks: &Vec<CanvasBlock>,
    active_block_id: Option<&str>,
    template_id: &str,
) -> (r: BlockTargetResolution)
    ensures
        r@ == target_of(
            keys_of(blocks@),
            match active_block_id {
                Some(a) => Some(a@),
                None => None,
            },
            template_id@,
        ),
        r matches BlockTargetResolution::Existing(i) ==> i < blocks@.len(),
{
    let ghost keys = keys_of(blocks@);
    match active_block_id {
        Some(active) => {
            let mut i: usize = 0;
            assert(keys.take(0) =~= Seq::<BlockKey>::empty());
            while i < blocks.len()
                invariant
                    i <= blocks@.len(),
                    keys == keys_of(blocks@),
                    active_block_id == Some(active),
                    active_match(keys.take(i as int), active@, template_id@).is_none(),
                decreases blocks@.len() - i,
            {
                proof {
                    assert(keys.take(i + 1).drop_last() =~= keys.take(i as int));
                    assert(keys.take(i + 1).last() == key_of(blocks@[i as int]));
                }
                if same_text(blocks[i].state.block_id.as_str(), active) && same_text(
                    blocks[i].state.template_id.as_str(),
                    template_id,
                ) {
                    proof {
                        lemma_active_match_prefix(keys, active@, template_id@, i + 1);
                    }
                    return BlockTargetResolution::Existing(i);
                }
                i += 1;
            }
            assert(keys.take(blocks@.len() as int) =~= keys);
        },
        None => {},
    }
    // the latest touch among the blocks that show the template
    let mut newest: Option<u128> = None;
    let mut i: usize = 0;
    assert(keys.take(0) =~= Seq::<BlockKey>::empty());
    while i < blocks.len()
        invariant
            i <= blocks@.len(),
            keys == keys_of(blocks@),
            newest_touch(keys.take(i as int), template_id@) == (match newest {
                Some(m) => Some(m as nat),
                None => None,
            }),
        decreases blocks@.len() - i,
    {
        proof {
            assert(keys.take(i + 1).drop_last() =~= keys.take(i as int));
            assert(keys.take(i + 1).last() == key_of(blocks@[i as int]));
        }
        if same_text(blocks[i].state.template_id.as_str(), template_id) {
            let touched = blocks[i].last_touched_at;
            newest = match newest {
                Some(m) => if touched > m {
                    Some(touched)
                } else {
                    Some(m)
                },
                None => Some(touched),
            };
        }
        i += 1;
    }
    assert(keys.take(blocks@.len() as int) =~= keys);
    let time = match newest {
        Some(time) => time,
        None => {
            return BlockTargetResolution::NotFound;
        },
    };
    let mut positions: Vec<usize> = Vec::new();
    let mut ids: Vec<String> = Vec::new();
    let mut j: usize = 0;
    assert(keys.take(0) =~= Seq::<BlockKey>::empty());
    while j < blocks.len()
        invariant
            j <= blocks@.len(),
            keys == keys_of(blocks@),
            positions@.len() == ids@.len(),
            positions@.len() == touched_at(keys.take(j as int), template_id@, time as nat).len(),
            forall|k: int|
                0 <= k < positions@.len() ==> (#[trigger] positions@[k]) == touched_at(
                    keys.take(j as int),
                    template_id@,
                    time as nat,
                )[k] && positions@[k] < j && ids@[k]@ == keys[positions@[k] as int].block_id,
        decreases blocks@.len() - j,
    {
        proof {
            assert(keys.take(j + 1).drop_last() =~= keys.take(j as int));
            assert(keys.take(j + 1).last() == key_of(blocks@[j as int]));
        }
        if same_text(blocks[j].state.template_id.as_str(), template_id)
            && blocks[j].last_touched_at == time {
            positions.push(j);
            ids.push(blocks[j].state.block_id.clone());
        }
        j += 1;
    }
    assert(keys.take(blocks@.len() as int) =~= keys);
    let ghost newest_positions = touched_at(keys, template_id@, time as nat);
    if positions.len() == 1 {
        return BlockTargetResolution::Existing(positions[0]);
    }
    assert(views_of(ids@) =~= ids_at(keys, newest_positions)) by {
        assert forall|k: int| 0 <= k < ids@.len() implies views_of(ids@)[k] == ids_at(
            keys,
            newest_positions,
        )[k] by {
            assert(positions@[k] == newest_positions[k]);
        }
    }
    let sorted_ids = sort(ids);
    assert(views(sorted_ids@) =~= views_of(sorted_ids@));
    BlockTargetResolution::Ambiguous(sorted_ids)
}

/// Makes the block with the given id the active one, and marks it as
/// touched. Nothing changes where no block has the id.
pub fn apply_focus_transition(
    blocks: &mut Vec<CanvasBlock>,
    active_block_id: &mut Option<String>,
    block_id: &str,
    touched_at: u128,
) -> (r: bool)
    ensures
        r == position_of_id(old(blocks)@, block_id@).is_some(),
        final(blocks)@.len() == old(blocks)@.len(),
        match position_of_id(old(blocks)@, block_id@) {
            Some(i) => {
                &&& text_of(*final(active_block_id)) == Some(block_id@)
                &&& final(blocks)@[i] == (CanvasBlock {
                    last_touched_at: touched_at,
                    ..old(blocks)@[i]
                })
                &&& forall|k: int|
                    0 <= k < old(blocks)@.len() && k != i ==> final(blocks)@[k] == old(blocks)@[k]
            },
            None => *final(blocks) == *old(blocks) && *final(active_block_id) == *old(
                active_block_id,
            ),
        },
{
    let index = match find_block(blocks, block_id) {
        Some(index) => index,
        None => {
            return false;
        },
    };
    *active_block_id = Some(owned(block_id));
    blocks[index].last_touched_at = touched_at;
    true
}

/// Minimizes the block with the given id if it is expanded, expands it if
/// it is minimized, and marks it as touched. Gives the block's new state, or
/// `None` where no block has the id.
pub fn apply_toggle_minimize_transition(
    blocks: &mut Vec<CanvasBlock>,
    block_id: &str,
    touched_at: u128,
) -> (r: Option<bool>)
    ensures
        final(blocks)@.len() == old(blocks)@.len(),
        match position_of_id(old(blocks)@, block_id@) {
            Some(i) => {
                &&& r == Some(!old(blocks)@[i].state.minimized)
                &&& final(blocks)@[i] == (CanvasBlock {
                    state: CanvasBlockState {
                        minimized: !old(blocks)@[i].state.minimized,
                        ..old(blocks)@[i].state
                    },
                    last_touched_at: touched_at,
                    ..old(blocks)@[i]
                })
                &&& forall|k: int|
                    0 <= k < old(blocks)@.len() && k != i ==> final(blocks)@[k] == old(blocks)@[k]
            },
            None => r.is_none() && *final(blocks) == *old(blocks),
        },
{
    let index = match find_block(blocks, block_id) {
        Some(index) => index,
        None => {
            return None;
        },
    };
    let minimized = !blocks[index].state.minimized;
    blocks[index].state.minimized = minimized;
    blocks[index].last_touched_at = touched_at;
    Some(minimized)
}

/// The blocks of the list that do not have the given id, in list order.
pub open spec fn without_id(blocks: Seq<CanvasBlock>, block_id: Seq<char>) -> Seq<CanvasBlock>
    decreases blocks.len(),
{
    if blocks.len() == 0 {
        Seq::empty()
    } else if blocks.last().state.block_id@ == block_id {
        without_id(blocks.drop_last(), block_id)
    } else {
        without_id(blocks.drop_last(), block_id).push(blocks.last())
    }
}

/// The id of the last block of the list.
pub open spec fn last_block_id(blocks: Seq<CanvasBlock>) -> Option<Seq<char>> {
    if blocks.len() == 0 {
        None
    } else {
        Some(blocks.last().state.block_id@)
    }
}

/// The active block id after the block with the given id was closed: where
/// the closed block was the active one, the last block that is left takes
/// its place, or none where no block is left.
pub open spec fn active_after_close(
    remaining: Seq<CanvasBlock>,
    active: Option<Seq<char>>,
    closed: Seq<char>,
) -> Option<Seq<char>> {
    if active == Some(closed) {
        last_block_id(remaining)
    } else {
        active
    }
}

/// Keeping the blocks without an id keeps no more blocks than there are,
/// and as many only where no block has the id.
pub proof fn lemma_without_id(blocks: Seq<CanvasBlock>, block_id: Seq<char>)
    ensures
        without_id(blocks, block_id).len() <= blocks.len(),
        without_id(blocks, block_id).len() == blocks.len() <==> position_of_id(
            blocks,
            block_id,
        ).is_none(),
        position_of_id(blocks, block_id).is_none() ==> without_id(blocks, block_id) == blocks,
        forall|k: int|
            0 <= k < without_id(blocks, block_id).len() ==> (#[trigger] without_id(
                blocks,
                block_id,
            )[k]).state.block_id@ != block_id,
    decreases blocks.len(),
{
    if blocks.len() > 0 {
        lemma_without_id(blocks.drop_last(), block_id);
        if position_of_id(blocks, block_id).is_none() {
            assert(without_id(blocks, block_id) =~= blocks);
        }
    } else {
        assert(without_id(blocks, block_id) =~= blocks);
    }
}

/// Closes the block with the given id. Where the closed block was the
/// active one, the last block that is left becomes the active one. Nothing
/// changes where no block has the id.
pub fn apply_close_transition(
    blocks: &mut Vec<CanvasBlock>,
    active_block_id: &mut Option<String>,
    block_id: &str,
) -> (r: bool)
    ensures
        r == position_of_id(old(blocks)@, block_id@).is_some(),
        final(blocks)@ == without_id(old(blocks)@, block_id@),
        r ==> text_of(*final(active_block_id)) == active_after_close(
            final(blocks)@,
            text_of(*old(active_block_id)),
            block_id@,
        ),
        !r ==> *final(active_block_id) == *old(active_block_id),
{
    let ghost all = blocks@;
    let before = blocks.len();
    let mut kept: Vec<CanvasBlock> = Vec::new();
    let ghost mut done: int = 0;
    assert(all.take(0) =~= Seq::<CanvasBlock>::empty());
    while blocks.len() > 0
        invariant
            0 <= done <= all.len(),
            blocks@ == all.skip(done),
            kept@ == without_id(all.take(done), block_id@),
        decreases blocks@.len(),
    {
        let block = blocks.remove(0);
        proof {
            assert(all.take(done + 1).drop_last() =~= all.take(done));
            assert(all.take(done + 1).last() == block);
            assert(blocks@ =~= all.skip(done + 1));
            done = done + 1;
        }
        if !same_text(block.state.block_id.as_str(), block_id) {
            kept.push(block);
        }
    }
    proof {
        assert(all.take(done) =~= all);
        lemma_without_id(all, block_id@);
    }
    let closed = kept.len() != before;
    let last_id = if kept.len() > 0 {
        Some(kept[kept.len() - 1].state.block_id.clone())
    } else {
        None
    };
    *blocks = kept;
    if !closed {
        return false;
    }
    let was_active = match active_block_id {
        Some(active) => same_text(active.as_str(), block_id),
        None => false,
    };
    if was_active {
        *active_block_id = last_id;
    }
    true
}

/// When the active block shows the template, it is the target, however
/// lately other blocks that show the template were touched.
pub proof fn law_active_match_has_priority(
    keys: Seq<BlockKey>,
    active: Seq<char>,
    template_id: Seq<char>,
    i: int,
)
    requires
        0 <= i < keys.len(),
        is_active_match(keys[i], active, template_id),
        forall|k: int| 0 <= k < i ==> !is_active_match(#[trigger] keys[k], active, template_id),
    ensures
        target_of(keys, Some(active), template_id) == TargetModel::Existing(i),
{
    lemma_active_match(keys, active, template_id);
}

/// What `active_match` finds: the first block that has the id and shows
/// the template, if there is one.
pub proof fn lemma_active_match(keys: Seq<BlockKey>, active: Seq<char>, template_id: Seq<char>)
    ensures
        match active_match(keys, active, template_id) {
            Some(i) => 0 <= i < keys.len() && is_active_match(keys[i], active, template_id)
                && forall|k: int|
                0 <= k < i ==> !is_active_match(#[trigger] keys[k], active, template_id),
            None => forall|k: int|
                0 <= k < keys.len() ==> !is_active_match(#[trigger] keys[k], active, template_id),
        },
    decreases keys.len(),
{
    if keys.len() > 0 {
        let front = keys.drop_last();
        lemma_active_match(front, active, template_id);
        match active_match(front, active, template_id) {
            Some(i) => {
                assert(front[i] == keys[i]);
                assert forall|k: int| 0 <= k < i implies !is_active_match(
                    #[trigger] keys[k],
                    active,
                    template_id,
                ) by {
                    assert(front[k] == keys[k]);
                }
            },
            None => {
                assert forall|k: int| 0 <= k < keys.len() - 1 implies !is_active_match(
                    #[trigger] keys[k],
                    active,
                    template_id,
                ) by {
                    assert(front[k] == keys[k]);
                }
            },
        }
    }
}

/// What `newest_touch` and `touched_at` find: the latest touch among the
/// blocks that show the template, and the positions of the blocks that
/// show the template and were touched at a given time, in ascending order.
pub proof fn lemma_newest(keys: Seq<BlockKey>, template_id: Seq<char>, time: nat)
    ensures
        match newest_touch(keys, template_id) {
            Some(m) => (exists|i: int|
                0 <= i < keys.len() && (#[trigger] keys[i]).template_id == template_id
                    && keys[i].touched == m) && forall|k: int|
                0 <= k < keys.len() && (#[trigger] keys[k]).template_id == template_id
                    ==> keys[k].touched <= m,
            None => forall|k: int|
                0 <= k < keys.len() ==> (#[trigger] keys[k]).template_id != template_id,
        },
        forall|p: int|
            0 <= p < touched_at(keys, template_id, time).len() ==> {
                let i = #[trigger] touched_at(keys, template_id, time)[p];
                0 <= i < keys.len() && keys[i].template_id == template_id && keys[i].touched
                    == time
            },
        forall|p: int, q: int|
            0 <= p < q < touched_at(keys, template_id, time).len() ==> touched_at(
                keys,
                template_id,
                time,
            )[p] < touched_at(keys, template_id, time)[q],
        forall|i: int|
            0 <= i < keys.len() && (#[trigger] keys[i]).template_id == template_id
                && keys[i].touched == time ==> touched_at(keys, template_id, time).contains(i),
    decreases keys.len(),
{
    if keys.len() > 0 {
        let front = keys.drop_last();
        lemma_newest(front, template_id, time);
        let last = keys.last();
        let before = touched_at(front, template_id, time);
        let now = touched_at(keys, template_id, time);
        match newest_touch(front, template_id) {
            Some(m) => {
                let i = choose|i: int|
                    0 <= i < front.len() && (#[trigger] front[i]).template_id == template_id
                        && front[i].touched == m;
                assert(keys[i] == front[i]);
                assert forall|k: int|
                    0 <= k < keys.len() && (#[trigger] keys[k]).template_id
                        == template_id implies keys[k].touched <= newest_touch(
                    keys,
                    template_id,
                ).unwrap() by {
                    if k < front.len() {
                        assert(front[k] == keys[k]);
                    }
                }
                if last.template_id == template_id && last.touched > m {
                    assert(keys[keys.len() - 1].touched == last.touched);
                }
            },
            None => {
                if last.template_id == template_id {
                    assert(keys[keys.len() - 1].touched == last.touched);
                    assert forall|k: int|
                        0 <= k < keys.len() && (#[trigger] keys[k]).template_id
                            == template_id implies keys[k].touched <= last.touched by {
                        if k < front.len() {
                            assert(front[k] == keys[k]);
                        }
                    }
                } else {
                    assert forall|k: int| 0 <= k < keys.len() implies (
                    #[trigger] keys[k]).template_id != template_id by {
                        if k < front.len() {
                            assert(front[k] == keys[k]);
                        }
                    }
                }
            },
        }
        assert forall|p: int| 0 <= p < now.len() implies {
            let i = #[trigger] now[p];
            0 <= i < keys.len() && keys[i].template_id == template_id && keys[i].touched == time
        } by {
            if p < before.len() {
                assert(now[p] == before[p]);
                assert(front[before[p]] == keys[before[p]]);
            }
        }
        assert forall|p: int, q: int| 0 <= p < q < now.len() implies now[p] < now[q] by {
            assert(now[p] == before[p]);
            if q < before.len() {
                assert(now[q] == before[q]);
            }
        }
        assert forall|i: int|
            0 <= i < keys.len() && (#[trigger] keys[i]).template_id == template_id
                && keys[i].touched == time implies now.contains(i) by {
            if i < front.len() {
                assert(front[i] == keys[i]);
                assert(before.contains(i));
                let p = choose|p: int| 0 <= p < before.len() && before[p] == i;
                assert(now[p] == i);
            } else {
                assert(now[now.len() - 1] == i);
            }
        }
    }
}

/// Where the active block does not show the template, the one block that
/// shows it and was touched later than every other such block is the
/// target.
pub proof fn law_most_recent_is_target(
    keys: Seq<BlockKey>,
    active: Option<Seq<char>>,
    template_id: Seq<char>,
    i: int,
)
    requires
        0 <= i < keys.len(),
        keys[i].template_id == template_id,
        active matches Some(a) ==> forall|k: int|
            0 <= k < keys.len() ==> !is_active_match(#[trigger] keys[k], a, template_id),
        forall|k: int|
            0 <= k < keys.len() && k != i && (#[trigger] keys[k]).template_id == template_id
                ==> keys[k].touched < keys[i].touched,
    ensures
        target_of(keys, active, template_id) == TargetModel::Existing(i),
{
    if active.is_some() {
        lemma_active_match(keys, active.unwrap(), template_id);
    }
    lemma_newest(keys, template_id, keys[i].touched);
    let newest = touched_at(keys, template_id, keys[i].touched);
    assert(newest.contains(i));
    assert(newest.len() == 1) by {
        if newest.len() > 1 {
            assert(newest[0] < newest[1]);
            let a = newest[0];
            let b = newest[1];
            assert(keys[a].touched == keys[i].touched && keys[b].touched == keys[i].touched);
        }
    }
    let p = choose|p: int| 0 <= p < newest.len() && newest[p] == i;
    assert(newest[0] == i);
    match newest_touch(keys, template_id) {
        Some(m) => {
            let w = choose|w: int|
                0 <= w < keys.len() && (#[trigger] keys[w]).template_id == template_id
                    && keys[w].touched == m;
            assert(keys[i].touched <= m);
        },
        None => {
            assert(keys[i].template_id != template_id);
        },
    }
}

/// Where the active block does not show the template and several blocks
/// that show it were touched last at the same time, the request is
/// ambiguous: the ids given are those of just these blocks, in ascending
/// order.
pub proof fn law_equal_recency_is_ambiguous(
    keys: Seq<BlockKey>,
    active: Option<Seq<char>>,
    template_id: Seq<char>,
    i: int,
    j: int,
)
    requires
        0 <= i < j < keys.len(),
        keys[i].template_id == template_id,
        keys[j].template_id == template_id,
        keys[i].touched == keys[j].touched,
        active matches Some(a) ==> forall|k: int|
            0 <= k < keys.len() ==> !is_active_match(#[trigger] keys[k], a, template_id),
        forall|k: int|
            0 <= k < keys.len() && (#[trigger] keys[k]).template_id == template_id
                ==> keys[k].touched <= keys[i].touched,
    ensures
        target_of(keys, active, template_id) matches TargetModel::Ambiguous(ids) && ids
            == sorted::<String>(
            ids_at(keys, touched_at(keys, template_id, keys[i].touched)),
        ) && in_order::<String>(ids) && ids.to_multiset() == ids_at(
            keys,
            touched_at(keys, template_id, keys[i].touched),
        ).to_multiset() && ids.len() >= 2,
{
    if active.is_some() {
        lemma_active_match(keys, active.unwrap(), template_id);
    }
    let time = keys[i].touched;
    lemma_newest(keys, template_id, time);
    let newest = touched_at(keys, template_id, time);
    assert(newest.contains(i) && newest.contains(j));
    let p = choose|p: int| 0 <= p < newest.len() && newest[p] == i;
    let q = choose|q: int| 0 <= q < newest.len() && newest[q] == j;
    assert(p != q);
    match newest_touch(keys, template_id) {
        Some(m) => {
            let w = choose|w: int|
                0 <= w < keys.len() && (#[trigger] keys[w]).template_id == template_id
                    && keys[w].touched == m;
            assert(keys[i].touched <= m);
        },
        None => {
            assert(keys[i].template_id != template_id);
        },
    }
    lemma_sorted::<String>(ids_at(keys, newest));
}

/// Closing the active block makes the last block that is left the active
/// one, or none where no block is left; closing another block leaves the
/// active block as it is.
pub proof fn law_close_reassigns_active(
    blocks: Seq<CanvasBlock>,
    active: Option<Seq<char>>,
    closed: Seq<char>,
)
    ensures
        active == Some(closed) && without_id(blocks, closed).len() > 0 ==> active_after_close(
            without_id(blocks, closed),
            active,
            closed,
        ) == Some(without_id(blocks, closed).last().state.block_id@),
        active == Some(closed) && without_id(blocks, closed).len() == 0 ==> active_after_close(
            without_id(blocks, closed),
            active,
            closed,
        ).is_none(),
        active != Some(closed) ==> active_after_close(without_id(blocks, closed), active, closed)
            == active,
        active_after_close(without_id(blocks, closed), active, closed) != Some(closed) || active
            != Some(closed),
{
    lemma_without_id(blocks, closed);
    let remaining = without_id(blocks, closed);
    if remaining.len() > 0 {
        assert(remaining[remaining.len() - 1].state.block_id@ != closed);
    }
}

} // verus!
