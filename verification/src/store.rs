//! The leaderboard store model: an append-only collection of scored
//! entries kept in ranking order (score descending, creation time
//! ascending), with fresh-id assignment on insert, paginated slicing,
//! and detail lookup by id.

use vstd::prelude::*;
use crate::text::{dec_chars, u64_dec_string};

verus! {

/// One stored leaderboard entry.
pub struct Entry {
    /// Unique identifier, assigned by the store on insert, never reused.
    pub id: u32,
    /// Client-supplied score; no range restriction.
    pub score: i32,
    /// Short text shown in listings.
    pub summary: String,
    /// Long-form text returned only by detail lookup.
    pub details: String,
    /// Server-assigned creation time (a logical tick, strictly increasing
    /// across inserts).
    pub created_at: u64,
}

/// Ranking order: a strictly greater score ranks first; on a score tie the
/// earlier creation time ranks first.
pub open spec fn ranks_before(a: Entry, b: Entry) -> bool {
    a.score > b.score || (a.score == b.score && a.created_at < b.created_at)
}

/// One row as a listing query returns it: the stored fields with the
/// creation time already rendered as its string form.
pub struct Row {
    pub id: u32,
    pub score: i32,
    pub summary: String,
    pub created_at: String,
}

/// The append-only leaderboard store.
///
/// `entries` is kept in ranking order; `next_id` is the id the next insert
/// will take; `clock` is the creation time the next insert will take.
pub struct Leaderboard {
    pub entries: Vec<Entry>,
    pub next_id: u32,
    pub clock: u64,
}

/// The index at which an entry with the given score is inserted: after
/// every entry with a score at least as high (ties rank by earlier
/// creation), before every entry with a lower score.
pub open spec fn rank_pos(s: Seq<Entry>, score: int) -> int
    decreases s.len(),
{
    if s.len() == 0 {
        0
    } else if s[0].score < score {
        0
    } else {
        1 + rank_pos(s.subrange(1, s.len() as int), score)
    }
}

pub proof fn lemma_rank_pos(s: Seq<Entry>, score: int)
    ensures
        0 <= rank_pos(s, score) <= s.len(),
        forall|k: int| 0 <= k < rank_pos(s, score) ==> (#[trigger] s[k]).score >= score,
        rank_pos(s, score) < s.len() ==> s[rank_pos(s, score)].score < score,
    decreases s.len(),
{
    if s.len() > 0 && s[0].score >= score {
        let sub = s.subrange(1, s.len() as int);
        lemma_rank_pos(sub, score);
        assert forall|k: int| 0 <= k < rank_pos(s, score) implies (#[trigger] s[k]).score
            >= score by {
            if k > 0 {
                assert(sub[k - 1] == s[k]);
            }
        }
    }
}

/// Any index that splits the sequence into a high-score prefix and a
/// low-score remainder is the insertion index.
pub proof fn lemma_rank_pos_unique(s: Seq<Entry>, score: int, p: int)
    requires
        0 <= p <= s.len(),
        forall|k: int| 0 <= k < p ==> (#[trigger] s[k]).score >= score,
        p < s.len() ==> s[p].score < score,
    ensures
        p == rank_pos(s, score),
    decreases s.len(),
{
    if s.len() == 0 {
    } else if s[0].score < score {
        if p > 0 {
            assert(s[0].score >= score);
        }
    } else {
        assert(p > 0);
        let sub = s.subrange(1, s.len() as int);
        assert forall|k: int| 0 <= k < p - 1 implies (#[trigger] sub[k]).score >= score by {
            assert(sub[k] == s[k + 1]);
        }
        assert(p - 1 < sub.len() ==> sub[p - 1].score < score);
        lemma_rank_pos_unique(sub, score, p - 1);
    }
}

/// The effect of one submission: the new entry, carrying the pre-state's
/// next id and clock, stands at its ranking position; everything else is
/// unchanged; id and clock have moved on by one.
pub open spec fn submitted(
    pre: Leaderboard,
    post: Leaderboard,
    score: int,
    summary: Seq<char>,
    details: Seq<char>,
    id: u32,
) -> bool {
    let pos = rank_pos(pre.entries@, score);
    &&& id == pre.next_id
    &&& post.next_id == pre.next_id + 1
    &&& post.clock == pre.clock + 1
    &&& post.entries@.len() == pre.entries@.len() + 1
    &&& 0 <= pos < post.entries@.len()
    &&& post.entries@.subrange(0, pos) == pre.entries@.subrange(0, pos)
    &&& post.entries@.subrange(pos + 1, post.entries@.len() as int) == pre.entries@.subrange(
        pos,
        pre.entries@.len() as int,
    )
    &&& post.entries@[pos].id == id
    &&& post.entries@[pos].score == score
    &&& post.entries@[pos].summary@ == summary
    &&& post.entries@[pos].details@ == details
    &&& post.entries@[pos].created_at == pre.clock
}

/// Some stored entry carries this id.
pub open spec fn has_entry(s: Seq<Entry>, id: int) -> bool {
    exists|i: int| 0 <= i < s.len() && (#[trigger] s[i]).id == id
}

/// The detail text of the entry carrying this id (ids are unique in a
/// well-formed store, so the witness is unique).
pub open spec fn entry_details(s: Seq<Entry>, id: int) -> Seq<char> {
    s[choose|i: int| 0 <= i < s.len() && (#[trigger] s[i]).id == id].details@
}

impl Leaderboard {
    /// Well-formedness: ids are unique and below `next_id`, creation times
    /// are below `clock`, entries stand in ranking order, and the store
    /// never holds more entries than ids were handed out.
    pub open spec fn wf(self) -> bool {
        &&& forall|i: int|
            0 <= i < self.entries@.len() ==> (#[trigger] self.entries@[i]).id < self.next_id
        &&& forall|i: int|
            0 <= i < self.entries@.len() ==> (#[trigger] self.entries@[i]).created_at < self.clock
        &&& forall|i: int, j: int|
            0 <= i < j < self.entries@.len() ==> ranks_before(
                #[trigger] self.entries@[i],
                #[trigger] self.entries@[j],
            )
        &&& forall|i: int, j: int|
            0 <= i < j < self.entries@.len() ==> (#[trigger] self.entries@[i]).id != (
            #[trigger] self.entries@[j]).id
        &&& self.entries@.len() <= self.next_id
    }

    /// An empty store.
    pub fn new() -> (board: Leaderboard)
        ensures
            board.wf(),
            board.entries@.len() == 0,
            board.next_id == 0,
            board.clock == 0,
    {
        Leaderboard { entries: Vec::new(), next_id: 0, clock: 0 }
    }

    /// Appends one entry with a fresh id and the current creation tick,
    /// keeping the store in ranking order.
    ///
    /// Returns the id the new entry was assigned.
    pub fn submit(&mut self, score: i32, summary: String, details: String) -> (id: u32)
        requires
            old(self).wf(),
            old(self).next_id < u32::MAX,
            old(self).clock < u64::MAX,
        ensures
            final(self).wf(),
            submitted(*old(self), *final(self), score as int, summary@, details@, id),
    {
        let len = self.entries.len();
        let mut pos: usize = 0;
        while pos < len && self.entries[pos].score >= score
            invariant
                *self == *old(self),
                len == self.entries@.len(),
                0 <= pos <= len,
                forall|k: int| 0 <= k < pos ==> (#[trigger] self.entries@[k]).score >= score,
            decreases len - pos,
        {
            pos = pos + 1;
        }
        proof {
            lemma_rank_pos_unique(self.entries@, score as int, pos as int);
        }
        let entry = Entry {
            id: self.next_id,
            score,
            summary,
            details,
            created_at: self.clock,
        };
        let id = self.next_id;
        self.entries.insert(pos, entry);
        self.next_id = self.next_id + 1;
        self.clock = self.clock + 1;
        proof {
            let pre = *old(self);
            let post = *self;
            let p = pos as int;
            let n = pre.entries@.len() as int;
            assert(post.entries@ == pre.entries@.insert(p, entry));
            assert(post.entries@.subrange(0, p) =~= pre.entries@.subrange(0, p));
            assert(post.entries@.subrange(p + 1, n + 1) =~= pre.entries@.subrange(0 + p, n));
            assert(forall|k: int| 0 <= k < p ==> post.entries@[k] == #[trigger] pre.entries@[k]);
            assert(forall|k: int|
                p < k < n + 1 ==> #[trigger] post.entries@[k] == pre.entries@[k - 1]);
            assert(submitted(pre, post, score as int, summary@, details@, id));
            assert forall|i: int, j: int| 0 <= i < j < post.entries@.len() implies ranks_before(
                #[trigger] post.entries@[i],
                #[trigger] post.entries@[j],
            ) by {
                if i == p {
                    // the new entry before an old one: that one scored lower
                    let b = pre.entries@[j - 1];
                    if p < n {
                        if j - 1 > p {
                            assert(ranks_before(pre.entries@[p], b));
                        }
                        assert(pre.entries@[p].score < score);
                        assert(b.score < score);
                    }
                } else if j == p {
                    // an old entry before the new one: it scored at least as
                    // high, and on a tie its creation time is older
                    assert(pre.entries@[i].score >= score);
                } else if i < p && j > p {
                    assert(ranks_before(pre.entries@[i], pre.entries@[j - 1]));
                }
            }
            assert forall|i: int, j: int| 0 <= i < j < post.entries@.len() implies (
            #[trigger] post.entries@[i]).id != (#[trigger] post.entries@[j]).id by {
                if i != p && j != p {
                    let a = if i < p { i } else { i - 1 };
                    let b = if j < p { j } else { j - 1 };
                    assert(pre.entries@[a].id != pre.entries@[b].id);
                }
            }
        }
        id
    }

    /// The detail text of the entry with the given id, or `None` when no
    /// entry carries it.
    pub fn lookup(&self, id: u32) -> (r: Option<String>)
        requires
            self.wf(),
        ensures
            match r {
                Some(d) => has_entry(self.entries@, id as int) && d@ == entry_details(
                    self.entries@,
                    id as int,
                ),
                None => !has_entry(self.entries@, id as int),
            },
    {
        let len = self.entries.len();
        let mut i: usize = 0;
        while i < len
            invariant
                self.wf(),
                len == self.entries@.len(),
                0 <= i <= len,
                forall|k: int| 0 <= k < i ==> (#[trigger] self.entries@[k]).id != id,
            decreases len - i,
        {
            if self.entries[i].id == id {
                let d = self.entries[i].details.clone();
                proof {
                    assert((i as int) < self.entries@.len() && (self.entries@[i as int]).id
                        == id);
                    assert(has_entry(self.entries@, id as int));
                    let w = choose|k: int|
                        0 <= k < self.entries@.len() && (#[trigger] self.entries@[k]).id == id;
                    assert(0 <= w < self.entries@.len() && (self.entries@[w]).id == id);
                    if w < i as int {
                        assert((self.entries@[w]).id != (self.entries@[i as int]).id);
                    } else if w > i as int {
                        assert((self.entries@[i as int]).id != (self.entries@[w]).id);
                    }
                    assert(w == i as int);
                }
                return Some(d);
            }
            i = i + 1;
        }
        None
    }

    /// The listing slice: skip `offset` entries of the ranking, then take
    /// at most `limit` (all the rest when `limit` is `None`), rendering
    /// each creation time as its decimal string.
    pub fn slice_rows(&self, offset: u32, limit: Option<u32>) -> (rows: Vec<Row>)
        requires
            self.wf(),
        ensures
            rows@.len() == page_len(
                self.entries@.len() as int,
                offset as int,
                match limit {
                    Some(l) => Some(l as int),
                    None => None,
                },
            ),
            offset as int + rows@.len() <= self.entries@.len() || rows@.len() == 0,
            forall|i: int|
                0 <= i < rows@.len() ==> {
                    &&& (#[trigger] rows@[i]).id == self.entries@[offset + i].id
                    &&& rows@[i].score == self.entries@[offset + i].score
                    &&& rows@[i].summary@ == self.entries@[offset + i].summary@
                    &&& rows@[i].created_at@ == dec_chars(
                        self.entries@[offset + i].created_at as nat,
                    )
                },
    {
        let len = self.entries.len();
        let off = offset as usize;
        let mut rows: Vec<Row> = Vec::new();
        if off >= len {
            return rows;
        }
        let avail = len - off;
        let take = match limit {
            None => avail,
            Some(l) => {
                let l = l as usize;
                if l < avail {
                    l
                } else {
                    avail
                }
            },
        };
        let mut i: usize = 0;
        while i < take
            invariant
                self.wf(),
                len == self.entries@.len(),
                off == offset as usize,
                off < len,
                take <= len - off,
                0 <= i <= take,
                rows@.len() == i,
                forall|k: int|
                    0 <= k < i ==> {
                        &&& (#[trigger] rows@[k]).id == self.entries@[off + k].id
                        &&& rows@[k].score == self.entries@[off + k].score
                        &&& rows@[k].summary@ == self.entries@[off + k].summary@
                        &&& rows@[k].created_at@ == dec_chars(
                            self.entries@[off + k].created_at as nat,
                        )
                    },
            decreases take - i,
        {
            let e = &self.entries[off + i];
            rows.push(
                Row {
                    id: e.id,
                    score: e.score,
                    summary: e.summary.clone(),
                    created_at: u64_dec_string(e.created_at),
                },
            );
            i = i + 1;
        }
        rows
    }
}

/// How many rows a listing with this offset and limit returns from a store
/// of `len` entries.
pub open spec fn page_len(len: int, offset: int, limit: Option<int>) -> int {
    if offset >= len {
        0
    } else {
        let avail = len - offset;
        match limit {
            None => avail,
            Some(l) => if l < avail {
                l
            } else {
                avail
            },
        }
    }
}

} // verus!
