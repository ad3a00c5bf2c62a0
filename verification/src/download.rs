//! What becomes of a batch of fetches: the texts that arrived, in the order in which they
//! were asked for.

use vstd::prelude::*;
use crate::text::{optional_texts, texts};

verus! {

/// How many fetches of a batch may be under way at the same time.
pub const MAX_IN_FLIGHT: usize = 3;

/// The texts among `results` that are there, in their order.
pub open spec fn successes(results: Seq<Option<Seq<char>>>) -> Seq<Seq<char>>
    decreases results.len(),
{
    if results.len() == 0 {
        Seq::empty()
    } else {
        match results.last() {
            Some(text) => successes(results.drop_last()).push(text),
            None => successes(results.drop_last()),
        }
    }
}

/// How many of the first `index` results are there.
pub open spec fn rank(results: Seq<Option<Seq<char>>>, index: int) -> nat {
    successes(results.take(index)).len()
}

/// The texts of a batch that arrived, in the order of the requests. `results` holds, for
/// each request in the order of the requests, the text that came back, or `None` where the
/// fetch failed; the failed ones are left out without a trace.
pub fn keep_successes(results: &Vec<Option<String>>) -> (kept: Vec<String>)
    ensures
        texts(kept@) == successes(optional_texts(results@)),
{
    let ghost all = optional_texts(results@);
    let mut kept: Vec<String> = Vec::new();
    let mut i: usize = 0;
    proof {
        assert(texts(kept@) =~= Seq::<Seq<char>>::empty());
    }
    while i < results.len()
        invariant
            i <= results@.len(),
            all == optional_texts(results@),
            texts(kept@) == successes(all.take(i as int)),
        decreases results.len() - i,
    {
        let ghost before = texts(kept@);
        proof {
            assert(all.take(i + 1).drop_last() =~= all.take(i as int));
        }
        match &results[i] {
            Some(text) => {
                kept.push(text.clone());
                proof {
                    assert(texts(kept@) =~= before.push(text@));
                }
            },
            None => {},
        }
        i += 1;
    }
    proof {
        assert(all.take(i as int) =~= all);
    }
    kept
}

/// A batch gives back no more texts than were asked for.
pub proof fn lemma_successes_len(results: Seq<Option<Seq<char>>>)
    ensures
        successes(results).len() <= results.len(),
    decreases results.len(),
{
    if results.len() > 0 {
        lemma_successes_len(results.drop_last());
    }
}

/// The number of texts that arrived before a request grows with the position of the
/// request, and by at least one past a request whose text arrived.
pub proof fn lemma_rank_grows(results: Seq<Option<Seq<char>>>, i: int, j: int)
    requires
        0 <= i <= j <= results.len(),
    ensures
        rank(results, i) <= rank(results, j),
        i < j && results[i] is Some ==> rank(results, i) < rank(results, j),
    decreases j - i,
{
    if i < j {
        lemma_rank_grows(results, i, j - 1);
        assert(results.take(j).drop_last() =~= results.take(j - 1));
        assert(results.take(j).last() == results[j - 1]);
    }
}

/// A text that arrived stands among the kept ones behind as many texts as arrived before
/// it.
pub proof fn lemma_success_position(results: Seq<Option<Seq<char>>>, i: int)
    requires
        0 <= i < results.len(),
        results[i] is Some,
    ensures
        rank(results, i) < successes(results).len(),
        successes(results)[rank(results, i) as int] == results[i]->0,
    decreases results.len(),
{
    let front = results.drop_last();
    if i == results.len() - 1 {
        assert(results.take(i) =~= front);
    } else {
        lemma_success_position(front, i);
        assert(front.take(i) =~= results.take(i));
    }
}

/// The texts of a batch keep the order of the requests: of two requests whose texts
/// arrived, the text of the earlier one stands before the text of the later one.
pub proof fn lemma_successes_keep_order(results: Seq<Option<Seq<char>>>, i: int, j: int)
    requires
        0 <= i < j < results.len(),
        results[i] is Some,
        results[j] is Some,
    ensures
        successes(results).len() <= results.len(),
        rank(results, i) < rank(results, j) < successes(results).len(),
        successes(results)[rank(results, i) as int] == results[i]->0,
        successes(results)[rank(results, j) as int] == results[j]->0,
{
    lemma_successes_len(results);
    lemma_rank_grows(results, i, j);
    lemma_success_position(results, i);
    lemma_success_position(results, j);
}

} // verus!
