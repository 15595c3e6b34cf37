//! Undo and redo over saved scene snapshots.
//!
//! A scene is held as its encoded bytes, from which it is restored exactly. Whether the
//! scene being edited is the same as a snapshot is a comparison of scenes (of their
//! floating-point fields), which the caller makes and passes in as `saved`.
use vstd::prelude::*;

verus! {

/// Most snapshots that saving keeps.
pub const HISTORY_LIMIT: usize = 500;

/// The abstract state of a `History`: the scene being edited, the saved snapshots (oldest
/// first) and how many steps back from the newest snapshot the user has undone.
pub struct HistoryModel {
    pub config: Seq<u8>,
    pub entries: Seq<Seq<u8>>,
    pub index: int,
}

impl HistoryModel {
    /// There is at least one snapshot and the undo position names one of them.
    pub open spec fn wf(self) -> bool {
        &&& self.entries.len() >= 1
        &&& 0 <= self.index < self.entries.len()
    }

    /// The snapshot at the undo position.
    pub open spec fn current(self) -> Seq<u8> {
        self.entries[self.entries.len() - 1 - self.index]
    }

    /// One step back, where `saved` tells whether the scene is the same as the snapshot at
    /// the undo position: at the newest snapshot a scene not saved is first added, then the
    /// position moves one older (never past the oldest) and the scene becomes that snapshot.
    pub open spec fn undo(self, saved: bool) -> HistoryModel {
        let entries = if self.index == 0 && !saved {
            self.entries.push(self.config)
        } else {
            self.entries
        };
        let index = if self.index + 1 < entries.len() - 1 {
            self.index + 1
        } else {
            entries.len() - 1
        };
        HistoryModel { config: entries[entries.len() - 1 - index], entries, index }
    }

    /// One step forward, back towards the newest snapshot; nothing happens at the newest.
    pub open spec fn redo(self) -> HistoryModel {
        if self.index == 0 {
            self
        } else {
            let index = self.index - 1;
            HistoryModel {
                config: self.entries[self.entries.len() - 1 - index],
                entries: self.entries,
                index,
            }
        }
    }

    /// Records the scene, where `saved` tells whether it is the same as the snapshot at the
    /// undo position: nothing happens when it is; otherwise the undone snapshots are
    /// dropped, the scene is added as the newest and only the newest `HISTORY_LIMIT`
    /// snapshots are kept.
    pub open spec fn save(self, saved: bool) -> HistoryModel {
        if saved {
            self
        } else {
            let kept = self.entries.take(self.entries.len() - self.index);
            let grown = kept.push(self.config);
            let entries = if grown.len() > HISTORY_LIMIT {
                grown.skip(grown.len() - HISTORY_LIMIT)
            } else {
                grown
            };
            HistoryModel { config: self.config, entries, index: 0 }
        }
    }
}

/// After an undo, and after a redo that moves, the scene is the snapshot at the new undo
/// position.
pub proof fn lemma_undo_redo_show_current(m: HistoryModel, saved: bool)
    requires
        m.wf(),
    ensures
        m.undo(saved).config == m.undo(saved).current(),
        m.index > 0 ==> m.redo().config == m.redo().current(),
{
}

/// A save that records the scene keeps the newest of the snapshots up to the undo position,
/// followed by the scene: the result is the last `min(k + 1, HISTORY_LIMIT)` entries of those
/// `k` snapshots and the scene, so only the oldest snapshots are ever dropped.
pub proof fn lemma_save_drops_only_oldest(m: HistoryModel)
    requires
        m.wf(),
    ensures
        ({
            let full = m.entries.take(m.entries.len() - m.index).push(m.config);
            let kept = m.save(false).entries;
            &&& kept.len() == if full.len() > HISTORY_LIMIT { HISTORY_LIMIT as int } else { full.len() as int }
            &&& forall|i: int| 0 <= i < kept.len() ==> #[trigger] kept[i] == full[full.len() - kept.len() + i]
            &&& kept.last() == m.config
        }),
{
}

/// Undo, redo and save keep a history well formed.
pub proof fn lemma_history_ops_keep_wf(m: HistoryModel, saved: bool)
    requires
        m.wf(),
    ensures
        m.undo(saved).wf(),
        m.redo().wf(),
        m.save(saved).wf(),
{
}

/// A save keeps the scene; one that records it (the scene was not saved) leaves it, byte for
/// byte, as the newest snapshot at the undo position, with at most `HISTORY_LIMIT`
/// snapshots; and a save never grows the history past the larger of its old length and
/// `HISTORY_LIMIT`.
pub proof fn lemma_save_records_scene(m: HistoryModel, saved: bool)
    requires
        m.wf(),
    ensures
        m.save(saved).config == m.config,
        saved ==> m.save(saved) == m,
        !saved ==> {
            &&& m.save(saved).index == 0
            &&& m.save(saved).current() == m.config
            &&& m.save(saved).entries.last() == m.config
            &&& m.save(saved).entries.len() <= HISTORY_LIMIT
        },
        m.save(saved).entries.len() <= if m.entries.len() > HISTORY_LIMIT { m.entries.len() as int } else { HISTORY_LIMIT as int },
{
}

/// Redo takes back an undo that moved: the scene and the undo position come back, provided
/// the scene was the snapshot at the undo position, or the position was the newest snapshot
/// and the scene was not saved there (so that undo added it).
pub proof fn lemma_redo_reverts_undo(m: HistoryModel, saved: bool)
    requires
        m.wf(),
        (m.index == 0 && !saved) || m.config == m.current(),
        m.undo(saved).index > m.index,
    ensures
        m.undo(saved).redo() == (HistoryModel { config: m.config, entries: m.undo(saved).entries, index: m.index }),
{
}

/// Undo takes back a redo: a history whose scene is the snapshot at its undo position, and
/// that has something to redo, is back where it was after a redo and an undo that finds the
/// restored scene saved.
pub proof fn lemma_undo_reverts_redo(m: HistoryModel)
    requires
        m.wf(),
        m.index > 0,
        m.config == m.current(),
    ensures
        m.redo().undo(true) == m,
{
}

/// A copy of an encoded scene.
pub fn copy_scene(v: &Vec<u8>) -> (copy: Vec<u8>)
    ensures
        copy@ == v@,
{
    let mut copy: Vec<u8> = Vec::new();
    let n = v.len();
    let mut i: usize = 0;
    while i < n
        invariant
            n == v@.len(),
            i <= n,
            copy@ == v@.take(i as int),
        decreases n - i,
    {
        copy.push(v[i]);
        assert(v@.take(i + 1) =~= v@.take(i as int).push(v@[i as int]));
        i = i + 1;
    }
    assert(v@.take(n as int) =~= v@);
    copy
}

/// The scene being edited and its saved snapshots, with undo and redo.
pub struct History {
    config: Vec<u8>,
    history: Vec<Vec<u8>>,
    history_index: usize,
}

impl View for History {
    type V = HistoryModel;

    closed spec fn view(&self) -> HistoryModel {
        HistoryModel {
            config: self.config@,
            entries: self.history@.map_values(|e: Vec<u8>| e@),
            index: self.history_index as int,
        }
    }
}

impl History {
    /// A history whose only snapshot is the starting scene.
    pub fn new(config: Vec<u8>) -> (h: History)
        ensures
            h@.wf(),
            h@.config == config@,
            h@.entries == seq![config@],
            h@.index == 0,
    {
        let first = copy_scene(&config);
        let mut history: Vec<Vec<u8>> = Vec::new();
        history.push(first);
        let h = History { config, history, history_index: 0 };
        assert(h@.entries =~= seq![config@]);
        h
    }

    /// The scene being edited, encoded.
    pub fn config(&self) -> (config: &Vec<u8>)
        ensures
            config@ == self@.config,
    {
        &self.config
    }

    /// Replaces the scene being edited; the snapshots stay as they are.
    pub fn set_config(&mut self, config: Vec<u8>)
        ensures
            final(self)@ == (HistoryModel { config: config@, ..old(self)@ }),
    {
        self.config = config;
    }

    /// How many steps back from the newest snapshot the user has undone.
    pub fn history_index(&self) -> (index: usize)
        ensures
            index == self@.index,
    {
        self.history_index
    }

    /// How many snapshots are saved.
    pub fn len(&self) -> (n: usize)
        ensures
            n == self@.entries.len(),
    {
        self.history.len()
    }

    /// The snapshot at the undo position, which the caller compares with the scene being
    /// edited to find `saved` for `undo` and `maybe_save_history`.
    pub fn current(&self) -> (snapshot: &Vec<u8>)
        requires
            self@.wf(),
        ensures
            snapshot@ == self@.current(),
    {
        let k = self.history.len() - self.history_index - 1;
        &self.history[k]
    }

    /// Steps one snapshot back (see `HistoryModel::undo`); the scene becomes that snapshot.
    /// `saved` tells whether the scene being edited is the same as the snapshot at the undo
    /// position.
    pub fn undo(&mut self, saved: bool)
        requires
            old(self)@.wf(),
        ensures
            final(self)@ == old(self)@.undo(saved),
    {
        let ghost m = self@;
        if self.history_index == 0 && !saved {
            let copy = copy_scene(&self.config);
            self.history.push(copy);
            assert(self.history@.map_values(|e: Vec<u8>| e@) =~= m.entries.push(m.config));
        }
        let len = self.history.len();
        if self.history_index + 1 < len - 1 {
            self.history_index = self.history_index + 1;
        } else {
            self.history_index = len - 1;
        }
        let k = len - self.history_index - 1;
        self.config = copy_scene(&self.history[k]);
        assert(self@.entries == m.undo(saved).entries);
    }

    /// Steps one snapshot forward (see `HistoryModel::redo`); false, with nothing changed,
    /// when already at the newest snapshot.
    pub fn redo(&mut self) -> (moved: bool)
        requires
            old(self)@.wf(),
        ensures
            final(self)@ == old(self)@.redo(),
            moved == (old(self)@.index != 0),
    {
        if self.history_index == 0 {
            return false;
        }
        self.history_index = self.history_index - 1;
        let k = self.history.len() - self.history_index - 1;
        self.config = copy_scene(&self.history[k]);
        true
    }

    /// Records the scene being edited (see `HistoryModel::save`). `saved` tells whether it is
    /// the same as the snapshot at the undo position.
    pub fn maybe_save_history(&mut self, saved: bool)
        requires
            old(self)@.wf(),
        ensures
            final(self)@ == old(self)@.save(saved),
    {
        let ghost m = self@;
        let len = self.history.len();
        if saved {
            return;
        }
        if self.history_index != 0 {
            self.history.truncate(len - self.history_index);
            self.history_index = 0;
        }
        assert(self.history@.map_values(|e: Vec<u8>| e@) =~= m.entries.take(m.entries.len() - m.index));
        let saved = copy_scene(&self.config);
        self.history.push(saved);
        assert(self.history@.map_values(|e: Vec<u8>| e@)
            =~= m.entries.take(m.entries.len() - m.index).push(m.config));
        let grown = self.history.len();
        if grown > HISTORY_LIMIT {
            let ghost before = self.history@;
            self.history = self.history.split_off(grown - HISTORY_LIMIT);
            assert(self.history@.map_values(|e: Vec<u8>| e@)
                =~= before.map_values(|e: Vec<u8>| e@).skip(grown - HISTORY_LIMIT));
        }
    }
}

} // verus!
