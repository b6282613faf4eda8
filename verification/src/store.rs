//! The checkpoint store: an ordered list of snapshots and a cursor that
//! marks the current one.

use crate::types::{checkpoints_view, clone_checkpoints, CheckpointView, EditorCheckpoint};
use vstd::prelude::*;

verus! {

/// Why a store operation did not succeed.
#[derive(Debug, Clone, Copy, PartialEq, Eq, Structural)]
pub enum StoreError {
    /// The cursor cannot move in the direction asked for.
    OutOfRange,
    /// No checkpoint has the identifier asked for.
    NotFound,
}

/// The position of the first checkpoint in `items` whose identifier is
/// `id`, or the length of `items` when there is none.
pub open spec fn position_of(items: Seq<CheckpointView>, id: Seq<char>) -> nat
    decreases items.len(),
{
    if items.len() == 0 || items[0].id == id {
        0
    } else {
        1 + position_of(items.skip(1), id)
    }
}

/// Whether some checkpoint in `items` has the identifier `id`.
pub open spec fn holds_id(items: Seq<CheckpointView>, id: Seq<char>) -> bool {
    exists|i: int| 0 <= i < items.len() && #[trigger] items[i].id == id
}

/// `position_of` names the first checkpoint with the identifier, and the
/// length exactly when no checkpoint has it.
pub proof fn lemma_position_of(items: Seq<CheckpointView>, id: Seq<char>)
    ensures
        position_of(items, id) <= items.len(),
        position_of(items, id) < items.len() <==> holds_id(items, id),
        position_of(items, id) < items.len() ==> items[position_of(items, id) as int].id == id,
        forall|k: int| 0 <= k < position_of(items, id) ==> #[trigger] items[k].id != id,
    decreases items.len(),
{
    if items.len() == 0 {
    } else if items[0].id == id {
    } else {
        let tail = items.skip(1);
        lemma_position_of(tail, id);
        let p = position_of(tail, id);
        assert forall|k: int| 0 <= k < p + 1 implies #[trigger] items[k].id != id by {
            if k > 0 {
                assert(items[k] == tail[k - 1]);
            }
        }
        if p < tail.len() {
            assert(items[p + 1 as int] == tail[p as int]);
        }
        if holds_id(items, id) {
            let i = choose|i: int| 0 <= i < items.len() && #[trigger] items[i].id == id;
            assert(tail[i - 1] == items[i]);
        }
    }
}

/// The mathematical model of a store.
pub struct StoreModel {
    /// The checkpoints, oldest first.
    pub checkpoints: Seq<CheckpointView>,
    /// The position of the current checkpoint; 0 in an empty store.
    pub cursor: nat,
}

impl StoreModel {
    /// The store without checkpoints.
    pub open spec fn empty() -> StoreModel {
        StoreModel { checkpoints: Seq::empty(), cursor: 0 }
    }

    /// The cursor points at a checkpoint, or the store is empty and the
    /// cursor is 0.
    pub open spec fn wf(self) -> bool {
        if self.checkpoints.len() == 0 {
            self.cursor == 0
        } else {
            self.cursor < self.checkpoints.len()
        }
    }

    /// The checkpoints up to and including the current one.
    pub open spec fn kept(self) -> Seq<CheckpointView> {
        if self.checkpoints.len() == 0 {
            Seq::empty()
        } else {
            self.checkpoints.take(self.cursor + 1 as int)
        }
    }

    /// The store after `checkpoint` has been appended: what stood after the
    /// cursor is gone, and the new checkpoint is the last and the current
    /// one.
    pub open spec fn append(self, checkpoint: CheckpointView) -> StoreModel {
        StoreModel { checkpoints: self.kept().push(checkpoint), cursor: self.kept().len() }
    }

    /// Where the cursor lands when asked to move by `delta`: as far as the
    /// ends of the store allow.
    pub open spec fn target(self, delta: int) -> nat {
        if self.checkpoints.len() == 0 || self.cursor + delta <= 0 {
            0
        } else if self.cursor + delta >= self.checkpoints.len() {
            (self.checkpoints.len() - 1) as nat
        } else {
            (self.cursor + delta) as nat
        }
    }

    /// Whether a move by `delta` changes the cursor.
    pub open spec fn can_move(self, delta: int) -> bool {
        self.checkpoints.len() > 0 && self.target(delta) != self.cursor
    }

    /// The store with the cursor at `cursor`.
    pub open spec fn with_cursor(self, cursor: nat) -> StoreModel {
        StoreModel { checkpoints: self.checkpoints, cursor }
    }

    /// The checkpoint at the cursor, if the store has any.
    pub open spec fn current(self) -> Option<CheckpointView> {
        if self.checkpoints.len() == 0 {
            None
        } else {
            Some(self.checkpoints[self.cursor as int])
        }
    }

    /// The first checkpoint with the identifier `id`, if there is one.
    pub open spec fn lookup(self, id: Seq<char>) -> Option<CheckpointView> {
        if holds_id(self.checkpoints, id) {
            Some(self.checkpoints[position_of(self.checkpoints, id) as int])
        } else {
            None
        }
    }
}

/// An ordered list of checkpoints with a cursor.
pub struct CheckpointStore {
    checkpoints: Vec<EditorCheckpoint>,
    cursor: usize,
}

impl View for CheckpointStore {
    type V = StoreModel;

    closed spec fn view(&self) -> StoreModel {
        StoreModel { checkpoints: checkpoints_view(self.checkpoints@), cursor: self.cursor as nat }
    }
}

impl CheckpointStore {
    #[verifier::type_invariant]
    spec fn inv(self) -> bool {
        self@.wf()
    }

    /// A store without checkpoints.
    pub fn new() -> (store: Self)
        ensures
            store@ == StoreModel::empty(),
    {
        let store = CheckpointStore { checkpoints: Vec::new(), cursor: 0 };
        assert(store@.checkpoints =~= Seq::empty());
        store
    }

    /// The number of checkpoints.
    pub fn len(&self) -> (n: usize)
        ensures
            n == self@.checkpoints.len(),
            self@.wf(),
    {
        proof {
            use_type_invariant(self);
        }
        self.checkpoints.len()
    }

    /// The position of the current checkpoint; 0 in an empty store.
    pub fn cursor(&self) -> (cursor: usize)
        ensures
            cursor == self@.cursor,
            self@.wf(),
    {
        proof {
            use_type_invariant(self);
        }
        self.cursor
    }

    /// A copy of all checkpoints, oldest first.
    pub fn checkpoints(&self) -> (items: Vec<EditorCheckpoint>)
        ensures
            checkpoints_view(items@) == self@.checkpoints,
            self@.wf(),
    {
        proof {
            use_type_invariant(self);
        }
        clone_checkpoints(&self.checkpoints)
    }

    /// Drops what stands after the cursor, appends `checkpoint` and makes it
    /// the current one.
    pub fn append(&mut self, checkpoint: EditorCheckpoint)
        ensures
            final(self)@ == old(self)@.append(checkpoint@),
            final(self)@.wf(),
    {
        proof {
            use_type_invariant(&*self);
        }
        let cursor = self.cursor;
        let mut items: Vec<EditorCheckpoint> = Vec::new();
        self.cursor = 0;
        std::mem::swap(&mut items, &mut self.checkpoints);
        if items.len() > 0 {
            items.truncate(cursor + 1);
        }
        let ghost kept = checkpoints_view(items@);
        assert(kept =~= old(self)@.kept());
        items.push(checkpoint);
        assert(checkpoints_view(items@) =~= kept.push(checkpoint@));
        let last = items.len() - 1;
        std::mem::swap(&mut items, &mut self.checkpoints);
        self.cursor = last;
    }

    /// The checkpoint at the cursor, if the store has any.
    pub fn current(&self) -> (checkpoint: Option<EditorCheckpoint>)
        ensures
            match checkpoint {
                Some(c) => self@.current() == Some(c@),
                None => self@.current() is None,
            },
            self@.wf(),
    {
        proof {
            use_type_invariant(self);
        }
        if self.checkpoints.len() == 0 {
            None
        } else {
            Some(self.checkpoints[self.cursor].clone())
        }
    }

    /// The position of the first checkpoint with the identifier `id`, or
    /// the number of checkpoints when there is none.
    fn find(&self, id: &str) -> (at: usize)
        ensures
            at == position_of(self@.checkpoints, id@),
            at <= self@.checkpoints.len(),
            at < self@.checkpoints.len() <==> holds_id(self@.checkpoints, id@),
            at < self@.checkpoints.len() ==> self@.checkpoints[at as int].id == id@,
            self@.wf(),
    {
        proof {
            use_type_invariant(self);
        }
        let key = id.to_owned();
        let ghost items = checkpoints_view(self.checkpoints@);
        let mut i: usize = 0;
        proof {
            assert(items.skip(0) =~= items);
        }
        while i < self.checkpoints.len()
            invariant
                i <= self.checkpoints.len(),
                key@ == id@,
                self@.wf(),
                items == checkpoints_view(self.checkpoints@),
                position_of(items, id@) == i + position_of(items.skip(i as int), id@),
            decreases self.checkpoints.len() - i,
        {
            let ghost rest = items.skip(i as int);
            assert(rest[0] == self.checkpoints@[i as int]@);
            if self.checkpoints[i].id == key {
                proof {
                    lemma_position_of(items, id@);
                }
                return i;
            }
            assert(rest.skip(1) =~= items.skip(i + 1));
            i += 1;
        }
        proof {
            assert(items.skip(i as int).len() == 0);
            lemma_position_of(items, id@);
        }
        i
    }

    /// Moves the cursor by `delta` checkpoints, stopping at the ends of the
    /// store, and returns the checkpoint it lands on. Fails, and changes
    /// nothing, when the cursor would stay where it is.
    pub fn move_cursor(&mut self, delta: i64) -> (moved: Result<EditorCheckpoint, StoreError>)
        ensures
            final(self)@.wf(),
            match moved {
                Ok(checkpoint) => {
                    &&& old(self)@.can_move(delta as int)
                    &&& final(self)@ == old(self)@.with_cursor(old(self)@.target(delta as int))
                    &&& final(self)@.current() == Some(checkpoint@)
                },
                Err(error) => {
                    &&& error == StoreError::OutOfRange
                    &&& !old(self)@.can_move(delta as int)
                    &&& final(self)@ == old(self)@
                },
            },
    {
        proof {
            use_type_invariant(&*self);
        }
        let len = self.checkpoints.len();
        if len == 0 {
            return Err(StoreError::OutOfRange);
        }
        let wanted: i128 = self.cursor as i128 + delta as i128;
        let target: usize = if wanted <= 0 {
            0
        } else if wanted >= len as i128 {
            len - 1
        } else {
            wanted as usize
        };
        if target == self.cursor {
            return Err(StoreError::OutOfRange);
        }
        self.cursor = target;
        Ok(self.checkpoints[target].clone())
    }

    /// Puts the cursor on the first checkpoint with the identifier `id` and
    /// returns that checkpoint. No checkpoint is dropped. Fails, and changes
    /// nothing, when no checkpoint has the identifier.
    pub fn jump_to(&mut self, id: &str) -> (found: Result<EditorCheckpoint, StoreError>)
        ensures
            final(self)@.wf(),
            match found {
                Ok(checkpoint) => {
                    &&& holds_id(old(self)@.checkpoints, id@)
                    &&& final(self)@ == old(self)@.with_cursor(
                        position_of(old(self)@.checkpoints, id@),
                    )
                    &&& old(self)@.lookup(id@) == Some(checkpoint@)
                    &&& final(self)@.current() == Some(checkpoint@)
                    &&& checkpoint@.id == id@
                },
                Err(error) => {
                    &&& error == StoreError::NotFound
                    &&& !holds_id(old(self)@.checkpoints, id@)
                    &&& final(self)@ == old(self)@
                },
            },
    {
        let at = self.find(id);
        if at < self.checkpoints.len() {
            self.cursor = at;
            Ok(self.checkpoints[at].clone())
        } else {
            Err(StoreError::NotFound)
        }
    }

    /// The first checkpoint with the identifier `id`. Fails when no
    /// checkpoint has the identifier.
    pub fn get(&self, id: &str) -> (found: Result<EditorCheckpoint, StoreError>)
        ensures
            self@.wf(),
            match found {
                Ok(checkpoint) => self@.lookup(id@) == Some(checkpoint@) && checkpoint@.id == id@,
                Err(error) => error == StoreError::NotFound && self@.lookup(id@) is None,
            },
    {
        let at = self.find(id);
        if at < self.checkpoints.len() {
            Ok(self.checkpoints[at].clone())
        } else {
            Err(StoreError::NotFound)
        }
    }
}

} // verus!
