//! Feed events and the order the feed keeps them in.

use vstd::prelude::*;

verus! {

broadcast use vstd::seq_lib::group_to_multiset_ensures;

/// One immutable item of the feed: authored, signed content with a creation
/// timestamp in seconds since the epoch. Never mutated after creation.
#[derive(Clone)]
pub struct FeedEvent {
    /// Identity hash of the event, as lowercase hex text.
    pub id: String,
    /// Public key of the author, as text.
    pub pubkey: String,
    /// Creation timestamp, seconds since the epoch.
    pub created_at: u64,
    /// Free-text content.
    pub content: String,
    /// Signature over the event, as text.
    pub sig: String,
}

/// The order the feed keeps: newest first. Equal timestamps may stand in
/// either order.
pub open spec fn sorted_desc(s: Seq<FeedEvent>) -> bool {
    forall|i: int, j: int| 0 <= i < j < s.len() ==> s[i].created_at >= s[j].created_at
}

/// Sorts the events newest first, keeping exactly the same collection of
/// events (a permutation, stated as multiset equality).
pub fn sort_events_desc(events: &mut Vec<FeedEvent>)
    ensures
        sorted_desc(final(events)@),
        final(events)@.to_multiset() == old(events)@.to_multiset(),
        final(events)@.len() == old(events)@.len(),
{
    if events.len() < 2 {
        return;
    }
    let n = events.len();
    let mut i: usize = 1;
    while i < n
        invariant
            1 <= i <= n,
            events@.len() == n,
            sorted_desc(events@.subrange(0, i as int)),
            events@.to_multiset() == old(events)@.to_multiset(),
        decreases n - i,
    {
        let ghost pre = events@;
        let x = events.remove(i);
        assert(pre.to_multiset().count(x) > 0) by {
            assert(pre.contains(x));
        }
        let mut j: usize = i;
        while j > 0 && events[j - 1].created_at < x.created_at
            invariant
                j <= i,
                i < n,
                events@.len() == n - 1,
                sorted_desc(events@.subrange(0, i as int)),
                forall|k: int| j <= k < i ==> events@[k].created_at < x.created_at,
            decreases j,
        {
            j = j - 1;
        }
        events.insert(j, x);
        assert(sorted_desc(events@.subrange(0, i + 1 as int))) by {
            let s = events@.subrange(0, i + 1 as int);
            assert forall|p: int, q: int| 0 <= p < q < s.len() implies
                s[p].created_at >= s[q].created_at by {
                let prior = pre.subrange(0, i as int);
                assert(forall|k: int| 0 <= k < j ==> s[k] == prior[k]);
                assert(forall|k: int| j < k <= i ==> s[k] == prior[k - 1]);
                assert(s[j as int] == x);
            }
        }
        assert(events@.to_multiset() =~= pre.to_multiset());
        i = i + 1;
    }
    assert(events@.subrange(0, n as int) =~= events@);
}

/// The last position (in characters) of a space, or -1 when there is none.
pub open spec fn last_space_at(s: Seq<char>) -> int
    decreases s.len(),
{
    if s.len() == 0 {
        -1
    } else if s.last() == ' ' {
        s.len() - 1
    } else {
        last_space_at(s.drop_last())
    }
}

/// A content preview cut to `limit` characters: text that fits is kept
/// whole; anything longer is cut at the limit — at the last space before it
/// when that loses fewer than twenty characters — and ends in an ellipsis.
pub open spec fn spec_preview(t: Seq<char>, limit: int) -> Seq<char> {
    if t.len() <= limit {
        t
    } else {
        let cut = t.take(limit);
        let ls = last_space_at(cut);
        let kept = if ls >= 0 && limit - ls < 20 {
            cut.take(ls)
        } else {
            cut
        };
        kept + seq!['.', '.', '.']
    }
}

/// Cuts a content text down to a preview of at most `limit` characters
/// plus an ellipsis, preferring to break at the last space when that loses
/// fewer than twenty characters.
pub fn smart_truncate(text: &str, limit: usize) -> (r: String)
    ensures
        r@ == spec_preview(text@, limit as int),
{
    let n = text.unicode_len();
    if n <= limit {
        return text.to_owned();
    }
    let mut ls: usize = 0;
    let mut found = false;
    let mut i: usize = 0;
    while i < limit
        invariant
            i <= limit,
            limit < n,
            n == text@.len(),
            found ==> ls < i && last_space_at(text@.take(i as int)) == ls,
            !found ==> last_space_at(text@.take(i as int)) == -1,
        decreases limit - i,
    {
        let c = text.get_char(i);
        proof {
            assert(text@.take(i + 1 as int).drop_last() =~= text@.take(i as int));
            assert(text@.take(i + 1 as int).last() == text@[i as int]);
        }
        if c == ' ' {
            ls = i;
            found = true;
        }
        i = i + 1;
    }
    let keep: usize = if found && limit - ls < 20 {
        ls
    } else {
        limit
    };
    proof {
        let cut = text@.take(limit as int);
        let lsp = last_space_at(cut);
        if found && limit - ls < 20 {
            assert(cut.take(ls as int) =~= text@.subrange(0, keep as int));
        } else {
            assert(cut =~= text@.subrange(0, keep as int));
        }
    }
    let head = text.substring_char(0, keep);
    let mut out = head.to_owned();
    out.append("...");
    proof {
        reveal_strlit("...");
        assert(("...")@ =~= seq!['.', '.', '.']);
    }
    out
}

} // verus!
