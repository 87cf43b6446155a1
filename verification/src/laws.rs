//! The library's cross-cutting guarantees, stated and proved over the
//! store model and the listing page specification.

use vstd::prelude::*;
use crate::api::board_page;
use crate::json::LeaderView;
use crate::params::dec_value;
use crate::store::{
    Leaderboard, has_entry, entry_details, page_len, rank_pos, ranks_before, submitted,
    lemma_rank_pos,
};
use crate::text::{dec_chars, lemma_dec_chars_value};

verus! {

/// A listing returns at most `limit` elements, and the i-th element of a
/// page that starts at `offset` is annotated with place `offset + i`.
pub proof fn lemma_page_bounds(b: Leaderboard, offset: int, limit: Option<int>)
    requires
        0 <= offset,
        limit matches Some(l) ==> 0 <= l,
    ensures
        limit matches Some(l) ==> board_page(b, offset, limit).len() <= l,
        board_page(b, offset, limit).len() <= b.entries@.len(),
        forall|i: int|
            0 <= i < board_page(b, offset, limit).len() ==> (#[trigger] board_page(
                b,
                offset,
                limit,
            )[i]).place == offset + i,
{
}

/// Listing order: of two returned elements, the earlier one has a strictly
/// greater score, or an equal score with a creation time no later.
pub proof fn lemma_page_ordered(b: Leaderboard, offset: int, limit: Option<int>)
    requires
        b.wf(),
        0 <= offset,
        limit matches Some(l) ==> 0 <= l,
    ensures
        forall|i: int, j: int|
            0 <= i < j < board_page(b, offset, limit).len() ==> (#[trigger] board_page(
                b,
                offset,
                limit,
            )[i]).score > (#[trigger] board_page(b, offset, limit)[j]).score || (board_page(
                b,
                offset,
                limit,
            )[i].score == board_page(b, offset, limit)[j].score && dec_value(
                board_page(b, offset, limit)[i].created_at,
            ) <= dec_value(board_page(b, offset, limit)[j].created_at)),
{
    let page = board_page(b, offset, limit);
    assert forall|i: int, j: int| 0 <= i < j < page.len() implies (#[trigger] page[i]).score > (
    #[trigger] page[j]).score || (page[i].score == page[j].score && dec_value(page[i].created_at)
        <= dec_value(page[j].created_at)) by {
        let a = b.entries@[offset + i];
        let c = b.entries@[offset + j];
        assert(ranks_before(a, c));
        lemma_dec_chars_value(a.created_at as nat);
        lemma_dec_chars_value(c.created_at as nat);
    }
}

/// A submission, then a listing of the whole board from offset zero,
/// shows the new entry at the rank its score earns: every element before
/// it scores at least as much, every element after it scores less.
pub proof fn lemma_submit_then_list(
    pre: Leaderboard,
    post: Leaderboard,
    score: int,
    summary: Seq<char>,
    details: Seq<char>,
    id: u32,
)
    requires
        pre.wf(),
        submitted(pre, post, score, summary, details, id),
    ensures
        ({
            let page = board_page(post, 0, None);
            let pos = rank_pos(pre.entries@, score);
            &&& page.len() == pre.entries@.len() + 1
            &&& 0 <= pos < page.len()
            &&& page[pos].id == id
            &&& page[pos].score == score
            &&& page[pos].summary == summary
            &&& forall|k: int| 0 <= k < pos ==> (#[trigger] page[k]).score >= score
            &&& forall|k: int| pos < k < page.len() ==> (#[trigger] page[k]).score < score
        }),
{
    let page = board_page(post, 0, None);
    let pos = rank_pos(pre.entries@, score);
    let n = pre.entries@.len() as int;
    lemma_rank_pos(pre.entries@, score);
    assert(forall|k: int|
        0 <= k < pos ==> #[trigger] post.entries@[k] == pre.entries@.subrange(0, pos)[k]);
    assert(forall|k: int|
        pos < k < n + 1 ==> #[trigger] post.entries@[k] == pre.entries@.subrange(pos, n)[k - pos
            - 1]);
    assert forall|k: int| pos < k < page.len() implies (#[trigger] page[k]).score < score by {
        assert(post.entries@[k] == pre.entries@[k - 1]);
        if k - 1 > pos {
            assert(ranks_before(pre.entries@[pos], pre.entries@[k - 1]));
        }
        assert(pre.entries@[pos].score < score);
    }
}

/// After a submission, exactly one stored entry carries the returned id,
/// and its detail text is the submitted one, unchanged: a detail lookup
/// for that id answers exactly the submitted text.
pub proof fn lemma_submit_then_details(
    pre: Leaderboard,
    post: Leaderboard,
    score: int,
    summary: Seq<char>,
    details: Seq<char>,
    id: u32,
)
    requires
        pre.wf(),
        submitted(pre, post, score, summary, details, id),
    ensures
        has_entry(post.entries@, id as int),
        entry_details(post.entries@, id as int) == details,
{
    let pos = rank_pos(pre.entries@, score);
    let n = pre.entries@.len() as int;
    lemma_rank_pos(pre.entries@, score);
    assert(forall|k: int|
        0 <= k < pos ==> #[trigger] post.entries@[k] == pre.entries@.subrange(0, pos)[k]);
    assert(forall|k: int|
        pos < k < n + 1 ==> #[trigger] post.entries@[k] == pre.entries@.subrange(pos, n)[k - pos
            - 1]);
    assert(post.entries@[pos].id == id);
    assert(has_entry(post.entries@, id as int));
    let w = choose|i: int|
        0 <= i < post.entries@.len() && (#[trigger] post.entries@[i]).id == id;
    if w != pos {
        let k = if w < pos {
            w
        } else {
            w - 1
        };
        assert(pre.entries@[k].id == id);
        assert(pre.entries@[k].id < pre.next_id);
        assert(false);
    }
}

/// An id the store never assigned is absent: a detail lookup for it
/// answers not-found, never success.
pub proof fn lemma_fresh_id_absent(b: Leaderboard, id: u32)
    requires
        b.wf(),
        id >= b.next_id,
    ensures
        !has_entry(b.entries@, id as int),
{
}

} // verus!
