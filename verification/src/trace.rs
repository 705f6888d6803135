//! Runs of a processor, as logs of resolutions, and what holds of every run.

use crate::cache::{recorded, Answers};
use vstd::prelude::*;

verus! {

/// What became of one query, with its texts as sequences of characters: the
/// response it got, and whether that response came from the cache (a hit) or
/// from a lookup (a miss).
pub struct ResolutionView {
    pub query: Seq<char>,
    pub response: Seq<char>,
    pub cached: bool,
}

/// The queries of a log, in the order in which they were resolved.
pub open spec fn queries_of(log: Seq<ResolutionView>) -> Seq<Seq<char>> {
    log.map_values(|resolution: ResolutionView| resolution.query)
}

/// Whether `resolution` is what a processor that holds `answers` does with the
/// resolution's query: a hit with the cached response where the query has one,
/// a miss where it has none.
pub open spec fn consistent(answers: Answers, resolution: ResolutionView) -> bool {
    if resolution.cached {
        answers.contains_key(resolution.query) && answers[resolution.query] == resolution.response
    } else {
        !answers.contains_key(resolution.query)
    }
}

/// The answers that a processor holds after it started from `answers` and made
/// the resolutions of `log` in order.
pub open spec fn replay(answers: Answers, log: Seq<ResolutionView>) -> Answers
    decreases log.len(),
{
    if log.len() == 0 {
        answers
    } else {
        recorded(replay(answers, log.drop_last()), log.last().query, log.last().response)
    }
}

/// Whether `log` is a run of a processor that starts with `answers`: each
/// resolution is consistent with the answers held when its query arrived.
pub open spec fn is_run(answers: Answers, log: Seq<ResolutionView>) -> bool {
    forall|i: int|
        0 <= i < log.len() ==> consistent(replay(answers, log.take(i)), #[trigger] log[i])
}

/// The queries of `log` that were handed to the lookup capability, in order.
pub open spec fn lookups(log: Seq<ResolutionView>) -> Seq<Seq<char>>
    decreases log.len(),
{
    if log.len() == 0 {
        Seq::empty()
    } else if log.last().cached {
        lookups(log.drop_last())
    } else {
        lookups(log.drop_last()).push(log.last().query)
    }
}

/// One more resolution changes the answers as one `recorded` does.
pub proof fn lemma_replay_push(answers: Answers, log: Seq<ResolutionView>, next: ResolutionView)
    ensures
        replay(answers, log.push(next)) == recorded(
            replay(answers, log),
            next.query,
            next.response,
        ),
{
    assert(log.push(next).drop_last() =~= log);
}

/// A run stays a run when a resolution is added that is consistent with the
/// answers held at its end.
pub proof fn lemma_run_push(answers: Answers, log: Seq<ResolutionView>, next: ResolutionView)
    requires
        is_run(answers, log),
        consistent(replay(answers, log), next),
    ensures
        is_run(answers, log.push(next)),
{
    let longer = log.push(next);
    assert forall|i: int| 0 <= i < longer.len() implies consistent(
        replay(answers, longer.take(i)),
        #[trigger] longer[i],
    ) by {
        if i < log.len() {
            assert(longer.take(i) =~= log.take(i));
            assert(longer[i] == log[i]);
        } else {
            assert(longer.take(i) =~= log);
        }
    }
}

/// Every beginning of a run is a run.
pub proof fn lemma_run_prefix(answers: Answers, log: Seq<ResolutionView>, n: int)
    requires
        is_run(answers, log),
        0 <= n <= log.len(),
    ensures
        is_run(answers, log.take(n)),
{
    let prefix = log.take(n);
    assert forall|i: int| 0 <= i < prefix.len() implies consistent(
        replay(answers, prefix.take(i)),
        #[trigger] prefix[i],
    ) by {
        assert(prefix.take(i) =~= log.take(i));
        assert(prefix[i] == log[i]);
    }
}

/// Replaying a log is replaying its first `k` resolutions and then the rest.
pub proof fn lemma_replay_split(answers: Answers, log: Seq<ResolutionView>, k: int)
    requires
        0 <= k <= log.len(),
    ensures
        replay(answers, log) == replay(replay(answers, log.take(k)), log.skip(k)),
    decreases log.len(),
{
    if k == log.len() {
        assert(log.take(k) =~= log);
        assert(log.skip(k) =~= Seq::<ResolutionView>::empty());
    } else {
        let shorter = log.drop_last();
        lemma_replay_split(answers, shorter, k);
        assert(shorter.take(k) =~= log.take(k));
        assert(log.skip(k).drop_last() =~= shorter.skip(k));
        assert(log.skip(k).last() == log.last());
    }
}

/// The cache only grows, and the first answer wins: whatever resolutions are
/// replayed, every query that had an answer before still has that answer.
pub proof fn lemma_first_answer_stays(answers: Answers, log: Seq<ResolutionView>)
    ensures
        forall|query: Seq<char>| #[trigger]
            answers.contains_key(query) ==> replay(answers, log).contains_key(query) && replay(
                answers,
                log,
            )[query] == answers[query],
    decreases log.len(),
{
    if log.len() > 0 {
        lemma_first_answer_stays(answers, log.drop_last());
    }
}

/// After a run the cache maps the query of each resolution to the response of
/// that resolution: the response of a miss is the one its lookup gave, and it
/// is what every later hit on the query reports.
pub proof fn lemma_cache_holds_each_response(answers: Answers, log: Seq<ResolutionView>, i: int)
    requires
        is_run(answers, log),
        0 <= i < log.len(),
    ensures
        replay(answers, log).contains_key(log[i].query),
        replay(answers, log)[log[i].query] == log[i].response,
{
    let before = replay(answers, log.take(i));
    let after = replay(answers, log.take(i + 1));
    assert(log.take(i + 1) =~= log.take(i).push(log[i]));
    lemma_replay_push(answers, log.take(i), log[i]);
    assert(consistent(before, log[i]));
    assert(after.contains_key(log[i].query) && after[log[i].query] == log[i].response);
    lemma_replay_split(answers, log, i + 1);
    lemma_first_answer_stays(after, log.skip(i + 1));
}

/// The keys of the cache after a replay are the keys it started with and the
/// queries of the log.
pub proof fn lemma_replay_domain(answers: Answers, log: Seq<ResolutionView>)
    ensures
        replay(answers, log).dom() == answers.dom().union(queries_of(log).to_set()),
    decreases log.len(),
{
    let keys = answers.dom().union(queries_of(log).to_set());
    if log.len() == 0 {
        assert(queries_of(log).to_set() =~= Set::<Seq<char>>::empty());
        assert(replay(answers, log).dom() =~= keys);
    } else {
        let shorter = log.drop_last();
        lemma_replay_domain(answers, shorter);
        let earlier = queries_of(shorter);
        assert(queries_of(log) =~= earlier.push(log.last().query));
        assert forall|query: Seq<char>| replay(answers, log).dom().contains(query) == keys.contains(
            query,
        ) by {
            if queries_of(log).contains(query) {
                let j = choose|j: int| 0 <= j < queries_of(log).len() && queries_of(log)[j] == query;
                if j < earlier.len() {
                    assert(earlier[j] == query);
                    assert(earlier.to_set().contains(query));
                }
            }
            if earlier.to_set().contains(query) {
                let j = choose|j: int| 0 <= j < earlier.len() && earlier[j] == query;
                assert(queries_of(log)[j] == query);
            }
            assert(queries_of(log)[log.len() - 1] == log.last().query);
        }
        assert(replay(answers, log).dom() =~= keys);
    }
}

/// In a run a query is a hit exactly when it was seen before: it had an answer
/// at the start, or it is the query of an earlier resolution.
pub proof fn lemma_hit_iff_seen_before(answers: Answers, log: Seq<ResolutionView>, i: int)
    requires
        is_run(answers, log),
        0 <= i < log.len(),
    ensures
        log[i].cached <==> answers.contains_key(log[i].query) || queries_of(log).take(i).contains(
            log[i].query,
        ),
{
    lemma_replay_domain(answers, log.take(i));
    assert(queries_of(log.take(i)) =~= queries_of(log).take(i));
    assert(consistent(replay(answers, log.take(i)), log[i]));
    assert(replay(answers, log.take(i)).contains_key(log[i].query) <==> replay(
        answers,
        log.take(i),
    ).dom().contains(log[i].query));
}

/// The cache holds nothing but what lookups gave: if `promise` holds of every
/// answer at the start and of the response of every miss of a run, it holds of
/// every answer in the cache after the run.
pub proof fn lemma_cache_holds_lookup_answers(
    answers: Answers,
    log: Seq<ResolutionView>,
    promise: spec_fn(Seq<char>, Seq<char>) -> bool,
)
    requires
        is_run(answers, log),
        forall|query: Seq<char>| #[trigger]
            answers.contains_key(query) ==> promise(query, answers[query]),
        forall|i: int|
            0 <= i < log.len() && !(#[trigger] log[i]).cached ==> promise(
                log[i].query,
                log[i].response,
            ),
    ensures
        forall|query: Seq<char>| #[trigger]
            replay(answers, log).contains_key(query) ==> promise(
                query,
                replay(answers, log)[query],
            ),
    decreases log.len(),
{
    if log.len() > 0 {
        let shorter = log.drop_last();
        assert forall|i: int| 0 <= i < shorter.len() && !(#[trigger] shorter[i]).cached implies promise(
            shorter[i].query,
            shorter[i].response,
        ) by {
            assert(shorter[i] == log[i]);
        }
        assert(shorter =~= log.take(log.len() - 1));
        lemma_run_prefix(answers, log, log.len() - 1);
        lemma_cache_holds_lookup_answers(answers, shorter, promise);
        let before = replay(answers, shorter);
        let last = log[log.len() - 1];
        assert(consistent(before, last));
        assert forall|query: Seq<char>| #[trigger]
            replay(answers, log).contains_key(query) implies promise(
            query,
            replay(answers, log)[query],
        ) by {
            if before.contains_key(query) {
                assert(promise(query, before[query]));
            }
        }
    }
}

/// Every looked-up query of a run is the query of a miss in the log.
proof fn lemma_lookups_are_keys(answers: Answers, log: Seq<ResolutionView>)
    ensures
        forall|k: int|
            0 <= k < lookups(log).len() ==> replay(answers, log).contains_key(
                #[trigger] lookups(log)[k],
            ),
    decreases log.len(),
{
    if log.len() > 0 {
        let shorter = log.drop_last();
        lemma_lookups_are_keys(answers, shorter);
        assert forall|k: int| 0 <= k < lookups(log).len() implies replay(
            answers,
            log,
        ).contains_key(#[trigger] lookups(log)[k]) by {
            if k < lookups(shorter).len() {
                assert(lookups(log)[k] == lookups(shorter)[k]);
                assert(replay(answers, shorter).contains_key(lookups(shorter)[k]));
            }
        }
    }
}

/// In a run the lookup capability is asked at most once about any query, and
/// never about a query that had an answer at the start.
pub proof fn lemma_at_most_one_lookup(answers: Answers, log: Seq<ResolutionView>)
    requires
        is_run(answers, log),
    ensures
        lookups(log).no_duplicates(),
        forall|k: int|
            0 <= k < lookups(log).len() ==> !answers.contains_key(#[trigger] lookups(log)[k]),
    decreases log.len(),
{
    if log.len() > 0 {
        let shorter = log.drop_last();
        assert(shorter =~= log.take(log.len() - 1));
        lemma_run_prefix(answers, log, log.len() - 1);
        lemma_at_most_one_lookup(answers, shorter);
        lemma_lookups_are_keys(answers, shorter);
        lemma_first_answer_stays(answers, shorter);
        assert(consistent(replay(answers, shorter), log[log.len() - 1]));
    }
}

/// Two misses of a run are never about the same query.
pub proof fn lemma_misses_differ(answers: Answers, log: Seq<ResolutionView>, i: int, j: int)
    requires
        is_run(answers, log),
        0 <= i < j < log.len(),
        !log[i].cached,
        !log[j].cached,
    ensures
        log[i].query != log[j].query,
{
    lemma_run_prefix(answers, log, j);
    lemma_cache_holds_each_response(answers, log.take(j), i);
    assert(log.take(j)[i] == log[i]);
    assert(consistent(replay(answers, log.take(j)), log[j]));
}

/// A query that has no answer yet is a miss, and resolving it adds exactly one
/// entry to the cache, under that query; every other entry stays as it is.
pub proof fn lemma_unseen_query_adds_one_entry(answers: Answers, resolution: ResolutionView)
    requires
        answers.dom().finite(),
        !answers.contains_key(resolution.query),
        consistent(answers, resolution),
    ensures
        !resolution.cached,
        replay(answers, seq![resolution]) == answers.insert(resolution.query, resolution.response),
        replay(answers, seq![resolution]).len() == answers.len() + 1,
        replay(answers, seq![resolution]).remove(resolution.query) == answers,
{
    let log = seq![resolution];
    assert(log.drop_last() =~= Seq::<ResolutionView>::empty());
    assert(replay(answers, log.drop_last()) == answers);
    assert(log.last() == resolution);
    assert(answers.insert(resolution.query, resolution.response).remove(resolution.query)
        =~= answers);
}

/// A run adds one entry to the cache for each lookup it makes, and none
/// otherwise.
pub proof fn lemma_one_entry_per_lookup(answers: Answers, log: Seq<ResolutionView>)
    requires
        answers.dom().finite(),
        is_run(answers, log),
    ensures
        replay(answers, log).dom().finite(),
        replay(answers, log).len() == answers.len() + lookups(log).len(),
    decreases log.len(),
{
    if log.len() > 0 {
        let shorter = log.drop_last();
        assert(shorter =~= log.take(log.len() - 1));
        lemma_run_prefix(answers, log, log.len() - 1);
        lemma_one_entry_per_lookup(answers, shorter);
        assert(consistent(replay(answers, shorter), log[log.len() - 1]));
    }
}

/// Submitting one query again and again: if it had no answer, the first
/// submission is the only lookup, every later one is a hit that reports the
/// response of that lookup, and the cache gains that one entry. If it had an
/// answer, every submission is a hit and the cache stays as it was.
pub proof fn lemma_repeated_query(answers: Answers, log: Seq<ResolutionView>, query: Seq<char>)
    requires
        is_run(answers, log),
        log.len() > 0,
        forall|i: int| 0 <= i < log.len() ==> (#[trigger] log[i]).query == query,
    ensures
        answers.contains_key(query) ==> {
            &&& lookups(log) == Seq::<Seq<char>>::empty()
            &&& replay(answers, log) == answers
            &&& forall|i: int|
                0 <= i < log.len() ==> (#[trigger] log[i]).cached && log[i].response
                    == answers[query]
        },
        !answers.contains_key(query) ==> {
            &&& lookups(log) == seq![query]
            &&& replay(answers, log) == answers.insert(query, log[0].response)
            &&& !log[0].cached
            &&& forall|i: int|
                0 < i < log.len() ==> (#[trigger] log[i]).cached && log[i].response
                    == log[0].response
        },
    decreases log.len(),
{
    let shorter = log.drop_last();
    let last = log[log.len() - 1];
    assert(shorter =~= log.take(log.len() - 1));
    assert(consistent(replay(answers, shorter), last));
    if log.len() == 1 {
        assert(replay(answers, shorter) == answers);
        assert(lookups(shorter) =~= Seq::<Seq<char>>::empty());
        if !answers.contains_key(query) {
            assert(lookups(log) =~= seq![query]);
        }
    } else {
        lemma_run_prefix(answers, log, log.len() - 1);
        assert forall|i: int| 0 <= i < shorter.len() implies (#[trigger] shorter[i]).query
            == query by {
            assert(shorter[i] == log[i]);
        }
        lemma_repeated_query(answers, shorter, query);
        assert(shorter[0] == log[0]);
        assert(replay(answers, shorter).contains_key(query));
        assert(last.cached);
        if answers.contains_key(query) {
            assert forall|i: int| 0 <= i < log.len() implies (#[trigger] log[i]).cached
                && log[i].response == answers[query] by {
                if i < shorter.len() {
                    assert(shorter[i] == log[i]);
                }
            }
        } else {
            assert forall|i: int| 0 < i < log.len() implies (#[trigger] log[i]).cached
                && log[i].response == log[0].response by {
                if i < shorter.len() {
                    assert(shorter[i] == log[i]);
                }
            }
        }
    }
}

} // verus!
