//! The conversation-keyed state table.
//!
//! One entry per agent conversation remembers the window to return to, the
//! specific editor window that started the conversation, when the entry was
//! made, and whether the user deliberately switched away. The table is an
//! in-memory value; persistence happens outside the library, which hands the
//! loaded entries in and takes the current entries back out.
//!
//! Every operation that reads the durable table first evicts entries whose
//! age has reached [`crate::STALE_AFTER_SECONDS`], mirroring the sweep a
//! fresh process performs on every load.

use vstd::prelude::*;
use crate::window::WindowInfo;
use crate::strutil::str_eq;
use crate::policy::{should_force_refocus, spec_should_force_refocus};
use crate::STALE_AFTER_SECONDS;

verus! {

/// State for a single conversation.
#[derive(Debug)]
pub struct ConversationState {
    /// The window that was active when the user submitted a prompt.
    pub saved_window: WindowInfo,
    /// The editor window that triggered this save, when one is known.
    pub cursor_window: Option<WindowInfo>,
    /// When the entry was created, in seconds since the Unix epoch.
    pub saved_at: u64,
    /// Whether the user has deliberately switched to a different app.
    pub user_switched: bool,
}

impl ConversationState {
    /// A fresh entry: created now, with the user-switched flag clear.
    pub fn new(saved_window: WindowInfo, cursor_window: Option<WindowInfo>, now: u64) -> (r: Self)
        ensures
            r == (ConversationState {
                saved_window,
                cursor_window,
                saved_at: now,
                user_switched: false,
            }),
    {
        ConversationState { saved_window, cursor_window, saved_at: now, user_switched: false }
    }

    /// The entry's age has reached the staleness threshold at time `now`.
    pub open spec fn is_stale_at(self, now: u64) -> bool {
        now >= self.saved_at + STALE_AFTER_SECONDS
    }

    /// Whether this entry is stale at time `now` (at least one hour old).
    pub fn is_stale(&self, now: u64) -> (r: bool)
        ensures
            r == self.is_stale_at(now),
    {
        if now < self.saved_at {
            false
        } else {
            now - self.saved_at >= STALE_AFTER_SECONDS
        }
    }
}

impl Clone for ConversationState {
    /// A clone carries the same four fields.
    fn clone(&self) -> (r: Self)
        ensures
            r == *self,
    {
        ConversationState {
            saved_window: self.saved_window.clone(),
            cursor_window: match &self.cursor_window {
                Some(w) => Some(w.clone()),
                None => None,
            },
            saved_at: self.saved_at,
            user_switched: self.user_switched,
        }
    }
}

/// The mathematical content of a sequence of keyed entries: the map each key
/// leads to, a later entry overriding an earlier one with the same key.
pub open spec fn map_of(entries: Seq<(String, ConversationState)>) -> Map<
    Seq<char>,
    ConversationState,
>
    decreases entries.len(),
{
    if entries.len() == 0 {
        Map::empty()
    } else {
        map_of(entries.drop_last()).insert(entries.last().0@, entries.last().1)
    }
}

/// No two entries share a key.
pub open spec fn unique_keys(entries: Seq<(String, ConversationState)>) -> bool {
    forall|i: int, j: int| 0 <= i < j < entries.len() ==> entries[i].0@ != entries[j].0@
}

/// The table after evicting every entry that is stale at time `now`.
pub open spec fn sweep(m: Map<Seq<char>, ConversationState>, now: u64) -> Map<
    Seq<char>,
    ConversationState,
> {
    Map::new(|k: Seq<char>| m.dom().contains(k) && !m[k].is_stale_at(now), |k: Seq<char>| m[k])
}

proof fn lemma_unique_drop_last(entries: Seq<(String, ConversationState)>)
    requires
        unique_keys(entries),
        entries.len() > 0,
    ensures
        unique_keys(entries.drop_last()),
{
    assert forall|i: int, j: int|
        0 <= i < j < entries.drop_last().len() implies entries.drop_last()[i].0@
        != entries.drop_last()[j].0@ by {
        assert(entries.drop_last()[i] == entries[i]);
        assert(entries.drop_last()[j] == entries[j]);
    }
}

proof fn lemma_map_of_contains(entries: Seq<(String, ConversationState)>, k: Seq<char>)
    ensures
        map_of(entries).contains_key(k) <==> (exists|i: int|
            0 <= i < entries.len() && entries[i].0@ == k),
    decreases entries.len(),
{
    if entries.len() > 0 {
        lemma_map_of_contains(entries.drop_last(), k);
        if entries.last().0@ == k {
            assert(entries[entries.len() - 1].0@ == k);
        } else {
            if exists|i: int| 0 <= i < entries.len() && entries[i].0@ == k {
                let i = choose|i: int| 0 <= i < entries.len() && entries[i].0@ == k;
                assert(entries.drop_last()[i].0@ == k);
            }
            if exists|i: int| 0 <= i < entries.drop_last().len() && entries.drop_last()[i].0@
                == k {
                let i = choose|i: int|
                    0 <= i < entries.drop_last().len() && entries.drop_last()[i].0@ == k;
                assert(entries[i].0@ == k);
            }
        }
    }
}

proof fn lemma_map_of_index(entries: Seq<(String, ConversationState)>, i: int)
    requires
        unique_keys(entries),
        0 <= i < entries.len(),
    ensures
        map_of(entries).contains_key(entries[i].0@),
        map_of(entries)[entries[i].0@] == entries[i].1,
    decreases entries.len(),
{
    if i == entries.len() - 1 {
    } else {
        lemma_unique_drop_last(entries);
        lemma_map_of_index(entries.drop_last(), i);
        assert(entries.drop_last()[i] == entries[i]);
        assert(entries.last().0@ != entries[i].0@);
    }
}

proof fn lemma_map_of_remove(entries: Seq<(String, ConversationState)>, i: int)
    requires
        unique_keys(entries),
        0 <= i < entries.len(),
    ensures
        unique_keys(entries.remove(i)),
        map_of(entries.remove(i)) == map_of(entries).remove(entries[i].0@),
        forall|j: int|
            0 <= j < entries.remove(i).len() ==> entries.remove(i)[j].0@ != entries[i].0@,
    decreases entries.len(),
{
    let k = entries[i].0@;
    let removed = entries.remove(i);
    entries.remove_ensures(i);
    assert forall|j: int| 0 <= j < removed.len() implies removed[j].0@ != k by {
        if j < i {
            assert(removed[j] == entries[j]);
        } else {
            assert(removed[j] == entries[j + 1]);
        }
    }
    assert forall|p: int, q: int|
        0 <= p < q < removed.len() implies removed[p].0@ != removed[q].0@ by {
        if q < i {
            assert(removed[p] == entries[p]);
            assert(removed[q] == entries[q]);
        } else if p < i {
            assert(removed[p] == entries[p]);
            assert(removed[q] == entries[q + 1]);
        } else {
            assert(removed[p] == entries[p + 1]);
            assert(removed[q] == entries[q + 1]);
        }
    }
    if i == entries.len() - 1 {
        assert(removed =~= entries.drop_last());
        lemma_map_of_contains(entries.drop_last(), k);
        assert(!map_of(entries.drop_last()).contains_key(k)) by {
            if exists|j: int|
                0 <= j < entries.drop_last().len() && entries.drop_last()[j].0@ == k {
                let j = choose|j: int|
                    0 <= j < entries.drop_last().len() && entries.drop_last()[j].0@ == k;
                assert(entries[j].0@ == k);
            }
        }
        assert(map_of(entries.remove(i)) =~= map_of(entries).remove(k));
    } else {
        lemma_unique_drop_last(entries);
        lemma_map_of_remove(entries.drop_last(), i);
        entries.drop_last().remove_ensures(i);
        assert(removed.drop_last() =~= entries.drop_last().remove(i));
        assert(removed.last() == entries.last());
        assert(entries.drop_last()[i] == entries[i]);
        assert(entries.last().0@ != k);
        assert(map_of(entries.remove(i)) =~= map_of(entries).remove(k));
    }
}

proof fn lemma_map_of_push(
    entries: Seq<(String, ConversationState)>,
    key: String,
    c: ConversationState,
)
    ensures
        map_of(entries.push((key, c))) == map_of(entries).insert(key@, c),
{
    assert(entries.push((key, c)).drop_last() =~= entries);
    assert(entries.push((key, c)).last() == (key, c));
}

/// Sweeping twice at the same time changes nothing the second time.
pub proof fn lemma_sweep_idempotent(m: Map<Seq<char>, ConversationState>, now: u64)
    ensures
        sweep(sweep(m, now), now) == sweep(m, now),
{
    assert(sweep(sweep(m, now), now) =~= sweep(m, now));
}

proof fn lemma_sweep_remove_stale(m: Map<Seq<char>, ConversationState>, now: u64, k: Seq<char>)
    requires
        m.dom().contains(k),
        m[k].is_stale_at(now),
    ensures
        sweep(m.remove(k), now) == sweep(m, now),
{
    assert(sweep(m.remove(k), now) =~= sweep(m, now));
}

/// A table whose entries are all fresh at time `now` is unchanged by the
/// sweep at `now`.
pub proof fn lemma_sweep_fresh(m: Map<Seq<char>, ConversationState>, now: u64)
    requires
        forall|k: Seq<char>| m.dom().contains(k) ==> !m[k].is_stale_at(now),
    ensures
        sweep(m, now) == m,
{
    assert(sweep(m, now) =~= m);
}

/// An entry that is stale at time `now` is gone after the sweep at `now`.
pub proof fn lemma_stale_entry_absent_after_sweep(
    m: Map<Seq<char>, ConversationState>,
    now: u64,
    k: Seq<char>,
)
    requires
        m.dom().contains(k),
        m[k].is_stale_at(now),
    ensures
        !sweep(m, now).dom().contains(k),
{
}

/// The full state table: every conversation's entry, keys unique.
pub struct RecursorState {
    conversations: Vec<(String, ConversationState)>,
}

impl View for RecursorState {
    type V = Map<Seq<char>, ConversationState>;

    closed spec fn view(&self) -> Map<Seq<char>, ConversationState> {
        map_of(self.conversations@)
    }
}

/// The index of the entry with the given key, if one exists.
fn find_in(entries: &Vec<(String, ConversationState)>, conversation_id: &str) -> (r: Option<
    usize,
>)
    ensures
        match r {
            Some(i) => i < entries@.len() && entries@[i as int].0@ == conversation_id@,
            None => forall|j: int|
                0 <= j < entries@.len() ==> entries@[j].0@ != conversation_id@,
        },
{
    let n = entries.len();
    let mut i: usize = 0;
    while i < n
        invariant
            n == entries@.len(),
            i <= n,
            forall|j: int| 0 <= j < i ==> entries@[j].0@ != conversation_id@,
        decreases n - i,
    {
        if str_eq(entries[i].0.as_str(), conversation_id) {
            return Some(i);
        }
        i += 1;
    }
    None
}

impl RecursorState {
    #[verifier::type_invariant]
    spec fn wf(self) -> bool {
        unique_keys(self.conversations@)
    }

    /// An empty table.
    pub fn new() -> (r: Self)
        ensures
            r@ == Map::<Seq<char>, ConversationState>::empty(),
    {
        RecursorState { conversations: Vec::new() }
    }

    /// Evict every entry that is stale at time `now`.
    pub fn cleanup_stale(&mut self, now: u64)
        ensures
            final(self)@ == sweep(old(self)@, now),
    {
        proof {
            use_type_invariant(&*self);
        }
        let mut entries: Vec<(String, ConversationState)> = Vec::new();
        std::mem::swap(&mut entries, &mut self.conversations);
        let ghost m0 = map_of(entries@);
        let mut i: usize = 0;
        while i < entries.len()
            invariant
                i <= entries.len(),
                unique_keys(entries@),
                forall|j: int| 0 <= j < i ==> !entries@[j].1.is_stale_at(now),
                sweep(map_of(entries@), now) == sweep(m0, now),
            decreases entries.len() - i,
        {
            if entries[i].1.is_stale(now) {
                proof {
                    lemma_map_of_index(entries@, i as int);
                    lemma_map_of_remove(entries@, i as int);
                    lemma_sweep_remove_stale(map_of(entries@), now, entries@[i as int].0@);
                    entries@.remove_ensures(i as int);
                }
                entries.remove(i);
            } else {
                i += 1;
            }
        }
        proof {
            assert forall|k: Seq<char>|
                map_of(entries@).dom().contains(k) implies !map_of(entries@)[k].is_stale_at(
                now,
            ) by {
                lemma_map_of_contains(entries@, k);
                let j = choose|j: int| 0 <= j < entries@.len() && entries@[j].0@ == k;
                lemma_map_of_index(entries@, j);
            }
            lemma_sweep_fresh(map_of(entries@), now);
        }
        self.conversations = entries;
    }

    /// Insert or replace the entry for `conversation_id`.
    pub fn upsert(&mut self, conversation_id: &str, conversation: ConversationState)
        ensures
            final(self)@ == old(self)@.insert(conversation_id@, conversation),
    {
        proof {
            use_type_invariant(&*self);
        }
        let mut entries: Vec<(String, ConversationState)> = Vec::new();
        std::mem::swap(&mut entries, &mut self.conversations);
        let ghost m0 = map_of(entries@);
        match find_in(&entries, conversation_id) {
            Some(i) => {
                proof {
                    lemma_map_of_remove(entries@, i as int);
                }
                entries.remove(i);
            },
            None => {},
        }
        // At this point no entry carries the key, so the push below keeps
        // the keys unique.
        let key = conversation_id.to_owned();
        proof {
            lemma_map_of_push(entries@, key, conversation);
            assert forall|p: int, q: int|
                0 <= p < q < entries@.push((key, conversation)).len() implies entries@.push(
                (key, conversation),
            )[p].0@ != entries@.push((key, conversation))[q].0@ by {
                if q < entries@.len() {
                    assert(entries@.push((key, conversation))[p] == entries@[p]);
                    assert(entries@.push((key, conversation))[q] == entries@[q]);
                } else {
                    assert(entries@.push((key, conversation))[p] == entries@[p]);
                    assert(entries@.push((key, conversation))[q] == (key, conversation));
                }
            }
        }
        entries.push((key, conversation));
        proof {
            assert(map_of(entries@) =~= m0.insert(conversation_id@, conversation));
        }
        self.conversations = entries;
    }

    /// Remove the entry for `conversation_id`; no-op when absent.
    pub fn remove_entry(&mut self, conversation_id: &str)
        ensures
            final(self)@ == old(self)@.remove(conversation_id@),
    {
        proof {
            use_type_invariant(&*self);
        }
        let mut entries: Vec<(String, ConversationState)> = Vec::new();
        std::mem::swap(&mut entries, &mut self.conversations);
        let ghost m0 = map_of(entries@);
        match find_in(&entries, conversation_id) {
            Some(i) => {
                proof {
                    lemma_map_of_remove(entries@, i as int);
                }
                entries.remove(i);
            },
            None => {
                proof {
                    lemma_map_of_contains(entries@, conversation_id@);
                    assert(map_of(entries@) =~= m0.remove(conversation_id@));
                }
            },
        }
        self.conversations = entries;
    }

    /// A reference to the entry for `conversation_id`, if present.
    pub fn get(&self, conversation_id: &str) -> (r: Option<&ConversationState>)
        ensures
            match r {
                Some(c) => self@.contains_key(conversation_id@) && *c == self@[conversation_id@],
                None => !self@.contains_key(conversation_id@),
            },
    {
        proof {
            use_type_invariant(&*self);
        }
        match find_in(&self.conversations, conversation_id) {
            Some(i) => {
                proof {
                    lemma_map_of_index(self.conversations@, i as int);
                }
                Some(&self.conversations[i].1)
            },
            None => {
                proof {
                    lemma_map_of_contains(self.conversations@, conversation_id@);
                }
                None
            },
        }
    }

    /// Remove every entry.
    pub fn clear(&mut self)
        ensures
            final(self)@ == Map::<Seq<char>, ConversationState>::empty(),
    {
        self.conversations = Vec::new();
    }

    /// An owned copy of every entry, keys unique.
    pub fn entries(&self) -> (r: Vec<(String, ConversationState)>)
        ensures
            map_of(r@) == self@,
            unique_keys(r@),
    {
        proof {
            use_type_invariant(&*self);
        }
        let n = self.conversations.len();
        let mut out: Vec<(String, ConversationState)> = Vec::new();
        let mut i: usize = 0;
        while i < n
            invariant
                n == self.conversations@.len(),
                i <= n,
                out@ =~= self.conversations@.subrange(0, i as int),
            decreases n - i,
        {
            let e = &self.conversations[i];
            out.push((e.0.clone(), e.1.clone()));
            proof {
                assert(out@ =~= self.conversations@.subrange(0, i as int + 1));
            }
            i += 1;
        }
        proof {
            assert(out@ =~= self.conversations@);
        }
        out
    }
}

/// Manager for the conversation store: the table together with the
/// sweep-on-access discipline every durable load performs.
pub struct StateManager {
    state: RecursorState,
}

impl View for StateManager {
    type V = Map<Seq<char>, ConversationState>;

    closed spec fn view(&self) -> Map<Seq<char>, ConversationState> {
        self.state@
    }
}

impl StateManager {
    /// A manager over an empty table.
    pub fn new() -> (r: Self)
        ensures
            r@ == Map::<Seq<char>, ConversationState>::empty(),
    {
        StateManager { state: RecursorState::new() }
    }

    /// A manager over the entries read back from the durable table, in
    /// order, a later entry overriding an earlier one with the same key.
    /// `None` stands for a table that was absent or failed to parse, which
    /// yields the empty table rather than an error.
    pub fn from_loaded(loaded: Option<Vec<(String, ConversationState)>>) -> (r: Self)
        ensures
            match loaded {
                None => r@ == Map::<Seq<char>, ConversationState>::empty(),
                Some(v) => r@ == map_of(v@),
            },
    {
        let mut mgr = Self::new();
        match loaded {
            None => mgr,
            Some(mut v) => {
                let ghost v0 = v@;
                let ghost i: int = 0;
                while v.len() > 0
                    invariant
                        0 <= i <= v0.len(),
                        v@ =~= v0.skip(i),
                        mgr@ == map_of(v0.take(i)),
                    decreases v@.len(),
                {
                    proof {
                        assert(v@[0] == v0[i]);
                    }
                    let (key, conversation) = v.remove(0);
                    mgr.state.upsert(key.as_str(), conversation);
                    proof {
                        assert(v0.take(i + 1).drop_last() =~= v0.take(i));
                        assert(v0.take(i + 1).last() == v0[i]);
                        assert(v@ =~= v0.skip(i + 1));
                        i = i + 1;
                    }
                }
                proof {
                    assert(v0.take(i) =~= v0);
                }
                mgr
            },
        }
    }

    /// Upsert a fresh entry for `conversation_id`, after the staleness
    /// sweep; any existing entry for that id is replaced whole.
    pub fn save_conversation(
        &mut self,
        conversation_id: &str,
        saved_window: WindowInfo,
        cursor_window: Option<WindowInfo>,
        now: u64,
    )
        ensures
            final(self)@ == sweep(old(self)@, now).insert(
                conversation_id@,
                ConversationState {
                    saved_window,
                    cursor_window,
                    saved_at: now,
                    user_switched: false,
                },
            ),
    {
        self.state.cleanup_stale(now);
        self.state.upsert(
            conversation_id,
            ConversationState::new(saved_window, cursor_window, now),
        );
    }

    /// The entry for `conversation_id`, unless absent or evicted as stale by
    /// this very call.
    pub fn load_conversation(&mut self, conversation_id: &str, now: u64) -> (r: Option<
        ConversationState,
    >)
        ensures
            final(self)@ == sweep(old(self)@, now),
            match r {
                Some(c) => final(self)@.contains_key(conversation_id@)
                    && c == final(self)@[conversation_id@],
                None => !final(self)@.contains_key(conversation_id@),
            },
    {
        self.state.cleanup_stale(now);
        match self.state.get(conversation_id) {
            Some(c) => Some(c.clone()),
            None => None,
        }
    }

    /// Remove the entry for `conversation_id`; a no-op when absent.
    pub fn clear_conversation(&mut self, conversation_id: &str, now: u64)
        ensures
            final(self)@ == sweep(old(self)@, now).remove(conversation_id@),
    {
        self.state.cleanup_stale(now);
        self.state.remove_entry(conversation_id);
    }

    /// Delete the entire table.
    pub fn clear(&mut self)
        ensures
            final(self)@ == Map::<Seq<char>, ConversationState>::empty(),
    {
        self.state.clear();
    }

    /// Every conversation's entry, for diagnostics, after the staleness
    /// sweep; keys are unique.
    pub fn get_all_conversations(&mut self, now: u64) -> (r: Vec<(String, ConversationState)>)
        ensures
            final(self)@ == sweep(old(self)@, now),
            map_of(r@) == final(self)@,
            unique_keys(r@),
    {
        self.state.cleanup_stale(now);
        self.state.entries()
    }

    /// Whether focus should be restored to the editor for this conversation:
    /// always when no entry is remembered, and otherwise what the refocus
    /// policy decides for the remembered entry and the current window.
    pub fn should_restore_cursor(
        &mut self,
        conversation_id: &str,
        current_window: &WindowInfo,
        now: u64,
    ) -> (r: bool)
        ensures
            final(self)@ == sweep(old(self)@, now),
            r == (if sweep(old(self)@, now).contains_key(conversation_id@) {
                spec_should_force_refocus(
                    sweep(old(self)@, now)[conversation_id@],
                    *current_window,
                )
            } else {
                true
            }),
    {
        match self.load_conversation(conversation_id, now) {
            Some(c) => should_force_refocus(&c, current_window),
            None => true,
        }
    }
}

impl Default for StateManager {
    /// The default manager holds the empty table.
    fn default() -> (r: Self)
        ensures
            r@ == Map::<Seq<char>, ConversationState>::empty(),
    {
        Self::new()
    }
}

/// Law: a save followed by a load of the same conversation at the same time
/// yields exactly the entry just saved — the saved window, the editor
/// window, the fresh timestamp, and a clear user-switched flag. Stated over
/// the tables that [`StateManager::save_conversation`] and
/// [`StateManager::load_conversation`] promise.
pub proof fn lemma_save_load_round_trip(
    m: Map<Seq<char>, ConversationState>,
    conversation_id: Seq<char>,
    saved_window: WindowInfo,
    cursor_window: Option<WindowInfo>,
    now: u64,
)
    ensures
        ({
            let entry = ConversationState {
                saved_window,
                cursor_window,
                saved_at: now,
                user_switched: false,
            };
            let after_save = sweep(m, now).insert(conversation_id, entry);
            let after_load = sweep(after_save, now);
            after_load == after_save && after_load.contains_key(conversation_id)
                && after_load[conversation_id] == entry
        }),
{
    let entry = ConversationState {
        saved_window,
        cursor_window,
        saved_at: now,
        user_switched: false,
    };
    let after_save = sweep(m, now).insert(conversation_id, entry);
    assert(!entry.is_stale_at(now));
    assert forall|k: Seq<char>|
        after_save.dom().contains(k) implies !after_save[k].is_stale_at(now) by {
        if k != conversation_id {
            assert(sweep(m, now).dom().contains(k));
        }
    }
    lemma_sweep_fresh(after_save, now);
}

/// Law: clearing a conversation twice is the same as clearing it once — the
/// second clear finds nothing and changes nothing. Stated over the tables
/// that [`StateManager::clear_conversation`] promises.
pub proof fn lemma_clear_idempotent(
    m: Map<Seq<char>, ConversationState>,
    conversation_id: Seq<char>,
    now: u64,
)
    ensures
        sweep(sweep(m, now).remove(conversation_id), now).remove(conversation_id) == sweep(
            m,
            now,
        ).remove(conversation_id),
{
    let once = sweep(m, now).remove(conversation_id);
    assert forall|k: Seq<char>| once.dom().contains(k) implies !once[k].is_stale_at(now) by {
        assert(sweep(m, now).dom().contains(k));
    }
    lemma_sweep_fresh(once, now);
    assert(sweep(once, now).remove(conversation_id) =~= once);
}

} // verus!
