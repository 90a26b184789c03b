//! A conversation history of bounded length: when it is full, the oldest
//! turn makes room for the new one.

use crate::data_model::strings_view;
use crate::memory::{ConversationHistory, ConversationHistoryError};
use std::collections::VecDeque;
use vstd::hash_map::StringHashMap;
use vstd::prelude::*;

verus! {

/// The capacity of a cache that was made without one.
pub const DEFAULT_CAPACITY: usize = 12;

/// The last turns of a conversation, up to a capacity.
pub struct LRUCache {
    capacity: usize,
    cache: StringHashMap<String>,
    history: VecDeque<String>,
}

/// The view of an [`LRUCache`].
pub struct LRUCacheView {
    pub capacity: nat,
    /// The turns that can be looked up, each filed under itself.
    pub cache: Map<Seq<char>, Seq<char>>,
    /// The turns that are kept, the oldest first.
    pub history: Seq<Seq<char>>,
}

impl LRUCacheView {
    /// The history is no longer than the capacity allows (one turn is kept
    /// even where the capacity is zero), and what can be looked up is a
    /// turn of the history, filed under itself.
    pub open spec fn wf(self) -> bool {
        &&& self.history.len() <= self.capacity || self.history.len() <= 1
        &&& forall|turn: Seq<char>| #[trigger]
            self.cache.contains_key(turn) ==> self.history.contains(turn) && self.cache[turn]
                == turn
    }

    pub open spec fn is_full(self) -> bool {
        self.history.len() >= self.capacity
    }

    /// Without its oldest turn, in the history and in the lookup; unchanged
    /// where there is no turn.
    pub open spec fn without_oldest(self) -> LRUCacheView {
        if self.history.len() == 0 {
            self
        } else {
            LRUCacheView {
                cache: self.cache.remove(self.history[0]),
                history: self.history.drop_first(),
                ..self
            }
        }
    }

    /// With `turn` as its newest turn, after the oldest has left if the
    /// history was full.
    pub open spec fn with_turn(self, turn: Seq<char>) -> LRUCacheView {
        let room = if self.is_full() {
            self.without_oldest()
        } else {
            self
        };
        LRUCacheView {
            cache: room.cache.insert(turn, turn),
            history: room.history.push(turn),
            ..room
        }
    }
}

impl View for LRUCache {
    type V = LRUCacheView;

    closed spec fn view(&self) -> LRUCacheView {
        LRUCacheView {
            capacity: self.capacity as nat,
            cache: self.cache@.map_values(|turn: String| turn@),
            history: strings_view(self.history@),
        }
    }
}

impl LRUCache {
    /// An empty cache of the given capacity, or of [`DEFAULT_CAPACITY`].
    pub fn new(capacity: Option<usize>) -> (cache: LRUCache)
        ensures
            cache@ == (LRUCacheView {
                capacity: match capacity {
                    Some(capacity) => capacity as nat,
                    None => DEFAULT_CAPACITY as nat,
                },
                cache: Map::empty(),
                history: Seq::empty(),
            }),
            cache@.wf(),
    {
        let cache = LRUCache {
            capacity: match capacity {
                Some(capacity) => capacity,
                None => DEFAULT_CAPACITY,
            },
            cache: StringHashMap::new(),
            history: VecDeque::new(),
        };
        assert(cache@.cache =~= Map::empty());
        assert(cache@.history =~= Seq::empty());
        cache
    }

    /// Drops the oldest turn, if there is one.
    pub fn remove_oldest_entry(&mut self)
        ensures
            final(self)@ == old(self)@.without_oldest(),
    {
        if let Some(key) = self.history.pop_front() {
            self.cache.remove(key.as_str());
            assert(self@.history =~= old(self)@.history.drop_first());
            assert(self@.cache =~= old(self)@.cache.remove(old(self)@.history[0]));
        }
    }

    /// The number of turns that are kept.
    pub fn get_size(&self) -> (size: usize)
        ensures
            size == self@.history.len(),
    {
        self.history.len()
    }
}

impl ConversationHistory for LRUCache {
    /// Records `turn` as the newest turn; if the history is full, the
    /// oldest turn leaves first. Never fails.
    fn add_turn(&mut self, _memory_policy: String, turn: String) -> (result: Result<
        (),
        ConversationHistoryError,
    >)
        ensures
            result is Ok,
            final(self)@ == old(self)@.with_turn(turn@),
            old(self)@.wf() ==> final(self)@.wf(),
    {
        if self.get_size() >= self.capacity {
            self.remove_oldest_entry();
        }
        let ghost room = self@;
        self.history.push_back(turn.clone());
        self.cache.insert(turn.clone(), turn);
        proof {
            assert(self@.history =~= room.history.push(turn@));
            assert(self@.cache =~= room.cache.insert(turn@, turn@));
            if old(self)@.wf() {
                assert forall|kept: Seq<char>| #[trigger]
                    self@.cache.contains_key(kept) implies self@.history.contains(kept)
                    && self@.cache[kept] == kept by {
                    if kept == turn@ {
                        assert(self@.history[self@.history.len() - 1] == kept);
                    } else {
                        let i = choose|i: int|
                            0 <= i < old(self)@.history.len() && old(self)@.history[i] == kept;
                        if old(self)@.is_full() && old(self)@.history.len() > 0 {
                            assert(self@.history[i - 1] == kept);
                        } else {
                            assert(self@.history[i] == kept);
                        }
                    }
                }
            }
        }
        Ok(())
    }

    /// The turns that are kept, the oldest first. The cache is unchanged.
    /// Never fails.
    fn retrieve_history(&mut self, _memory_policy: String, _query: String) -> (result: Result<
        Vec<String>,
        ConversationHistoryError,
    >)
        ensures
            result matches Ok(turns) && strings_view(turns@) == old(self)@.history,
            final(self)@ == old(self)@,
    {
        let mut turns: Vec<String> = Vec::new();
        let mut i: usize = 0;
        while i < self.history.len()
            invariant
                i <= self.history.len(),
                strings_view(turns@) == strings_view(self.history@).take(i as int),
            decreases self.history.len() - i,
        {
            turns.push(self.history[i].clone());
            assert(strings_view(self.history@).take(i + 1) =~= strings_view(self.history@).take(
                i as int,
            ).push(self.history@[i as int]@));
            i += 1;
        }
        Ok(turns)
    }
}

} // verus!
