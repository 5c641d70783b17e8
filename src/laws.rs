use vstd::prelude::*;

use crate::aggregate::{blocks_of, fetched, merged, outcome_block, present, reports, LogReport};
use crate::filter::{keep_flags, kept, line_kept, tag, tagged_lines};
use crate::pattern::pattern_matches;
use crate::text::{joined, lines_of};

verus! {

/// The tagged lines of all pods, pod after pod, in listing order; a pod whose
/// retrieval failed has none.
pub open spec fn all_tagged(
    pods: Seq<Seq<char>>,
    texts: Seq<Option<Seq<char>>>,
    pattern: Option<Seq<char>>,
) -> Seq<Seq<char>>
    decreases pods.len(),
{
    if pods.len() == 0 {
        Seq::empty()
    } else {
        let rest = all_tagged(pods.drop_last(), texts.drop_last(), pattern);
        match texts.last() {
            Some(t) => rest + tagged_lines(pods.last(), t, pattern),
            None => rest,
        }
    }
}

/// Every line of every log, tagged with its pod, pod after pod.
pub open spec fn every_line_tagged(pods: Seq<Seq<char>>, texts: Seq<Seq<char>>) -> Seq<Seq<char>>
    decreases pods.len(),
{
    if pods.len() == 0 {
        Seq::empty()
    } else {
        every_line_tagged(pods.drop_last(), texts.drop_last())
            + lines_of(texts.last()).map_values(|l: Seq<char>| tag(pods.last(), l))
    }
}

proof fn lemma_joined_append(a: Seq<Seq<char>>, b: Seq<Seq<char>>)
    requires
        a.len() > 0,
        b.len() > 0,
    ensures
        joined(a + b) == joined(a) + seq!['\n'] + joined(b),
    decreases b.len(),
{
    assert((a + b).drop_last() == a + b.drop_last());
    assert((a + b).last() == b.last());
    if b.len() > 1 {
        lemma_joined_append(a, b.drop_last());
        assert(joined(a + b) == joined(a) + seq!['\n'] + joined(b.drop_last()) + seq!['\n'] + b.last());
    } else {
        assert(b.drop_last().len() == 0);
        assert(a + b.drop_last() == a);
    }
}

/// The aggregated log is the join of all tagged lines, and it has no block at
/// all exactly when there is no tagged line.
proof fn lemma_merged_all_tagged(
    pods: Seq<Seq<char>>,
    texts: Seq<Option<Seq<char>>>,
    pattern: Option<Seq<char>>,
)
    requires
        pods.len() == texts.len(),
    ensures
        merged(blocks_of(pods, texts, pattern)) == joined(all_tagged(pods, texts, pattern)),
        present(blocks_of(pods, texts, pattern)).len() == 0 <==> all_tagged(pods, texts, pattern).len() == 0,
    decreases pods.len(),
{
    let blocks = blocks_of(pods, texts, pattern);
    if pods.len() > 0 {
        let pp = pods.drop_last();
        let tt = texts.drop_last();
        lemma_merged_all_tagged(pp, tt, pattern);
        assert(blocks.drop_last() == blocks_of(pp, tt, pattern));
        let prev = present(blocks_of(pp, tt, pattern));
        let acc = all_tagged(pp, tt, pattern);
        match texts.last() {
            None => {
                assert(all_tagged(pods, texts, pattern) == acc);
            },
            Some(t) => {
                let tl = tagged_lines(pods.last(), t, pattern);
                assert(all_tagged(pods, texts, pattern) == acc + tl);
                if tl.len() == 0 {
                    assert(acc + tl == acc);
                } else {
                    assert(present(blocks) == prev.push(joined(tl)));
                    if prev.len() == 0 {
                        assert(prev.push(joined(tl)) == seq![joined(tl)]);
                        assert(acc + tl == tl);
                    } else {
                        assert(prev.push(joined(tl)).drop_last() == prev);
                        lemma_joined_append(acc, tl);
                    }
                }
            },
        }
    }
}

proof fn lemma_kept_everything(pod: Seq<char>, lines: Seq<Seq<char>>)
    ensures
        kept(pod, lines, keep_flags(lines, None)) == lines.map_values(|l: Seq<char>| tag(pod, l)),
    decreases lines.len(),
{
    if lines.len() > 0 {
        lemma_kept_everything(pod, lines.drop_last());
        assert(keep_flags(lines, None).drop_last() == keep_flags(lines.drop_last(), None));
        assert(lines.map_values(|l: Seq<char>| tag(pod, l)) == lines.drop_last().map_values(
            |l: Seq<char>| tag(pod, l),
        ).push(tag(pod, lines.last())));
    }
}

/// Without a pattern, the aggregated log is every line of every retrieved
/// log, tagged with its pod, in the order the pods were listed; a pod whose
/// log has no line contributes nothing.
pub proof fn law_unfiltered_output(pods: Seq<Seq<char>>, texts: Seq<Seq<char>>)
    requires
        pods.len() == texts.len(),
    ensures
        merged(blocks_of(pods, texts.map_values(|t: Seq<char>| Some(t)), None)) == joined(
            every_line_tagged(pods, texts),
        ),
{
    let some = texts.map_values(|t: Seq<char>| Some(t));
    lemma_merged_all_tagged(pods, some, None);
    lemma_all_tagged_unfiltered(pods, texts);
}

proof fn lemma_all_tagged_unfiltered(pods: Seq<Seq<char>>, texts: Seq<Seq<char>>)
    requires
        pods.len() == texts.len(),
    ensures
        all_tagged(pods, texts.map_values(|t: Seq<char>| Some(t)), None) == every_line_tagged(pods, texts),
    decreases pods.len(),
{
    if pods.len() > 0 {
        lemma_all_tagged_unfiltered(pods.drop_last(), texts.drop_last());
        assert(texts.map_values(|t: Seq<char>| Some(t)).drop_last() == texts.drop_last().map_values(
            |t: Seq<char>| Some(t),
        ));
        lemma_kept_everything(pods.last(), lines_of(texts.last()));
    }
}

proof fn lemma_kept_contains(pod: Seq<char>, lines: Seq<Seq<char>>, keep: Seq<bool>, t: Seq<char>)
    requires
        keep.len() == lines.len(),
    ensures
        kept(pod, lines, keep).contains(t) <==> exists|i: int|
            0 <= i < lines.len() && keep[i] && t == tag(pod, #[trigger] lines[i]),
    decreases lines.len(),
{
    if lines.len() > 0 {
        let n = lines.len() - 1;
        lemma_kept_contains(pod, lines.drop_last(), keep.drop_last(), t);
        let rest = kept(pod, lines.drop_last(), keep.drop_last());
        if kept(pod, lines, keep).contains(t) {
            if rest.contains(t) {
                let i = choose|i: int|
                    0 <= i < lines.drop_last().len() && keep.drop_last()[i] && t == tag(
                        pod,
                        #[trigger] lines.drop_last()[i],
                    );
                assert(lines[i] == lines.drop_last()[i]);
            } else {
                let j = choose|j: int| 0 <= j < kept(pod, lines, keep).len() && kept(pod, lines, keep)[j] == t;
                assert(keep[n] && t == tag(pod, lines[n]));
            }
        }
        if exists|i: int| 0 <= i < lines.len() && keep[i] && t == tag(pod, #[trigger] lines[i]) {
            let i = choose|i: int| 0 <= i < lines.len() && keep[i] && t == tag(pod, #[trigger] lines[i]);
            if i < n {
                assert(lines.drop_last()[i] == lines[i]);
                let j = choose|j: int| 0 <= j < rest.len() && rest[j] == t;
                if keep.last() {
                    assert(rest.push(tag(pod, lines.last()))[j] == t);
                }
            } else {
                assert(rest.push(tag(pod, lines.last()))[rest.len() as int] == t);
            }
        }
    }
}

proof fn lemma_tag_injective(pod: Seq<char>, a: Seq<char>, b: Seq<char>)
    requires
        tag(pod, a) == tag(pod, b),
    ensures
        a == b,
{
    let k = pod.len() as int + 4;
    assert(tag(pod, a).subrange(k, tag(pod, a).len() as int) == a);
    assert(tag(pod, b).subrange(k, tag(pod, b).len() as int) == b);
}

/// With a pattern, a pod's block holds the tagged lines of its log that the
/// pattern matches somewhere, and nothing else: a line appears, tagged, exactly
/// when it is a line of the log that the pattern matches.
pub proof fn law_filter_keeps_matching_lines(pod: Seq<char>, text: Seq<char>, pattern: Seq<char>)
    ensures
        forall|t: Seq<char>|
            #![trigger tagged_lines(pod, text, Some(pattern)).contains(t)]
            tagged_lines(pod, text, Some(pattern)).contains(t) <==> exists|i: int|
                0 <= i < lines_of(text).len() && pattern_matches(pattern, #[trigger] lines_of(text)[i])
                    && t == tag(pod, lines_of(text)[i]),
        forall|l: Seq<char>|
            tagged_lines(pod, text, Some(pattern)).contains(#[trigger] tag(pod, l)) <==> (lines_of(
                text,
            ).contains(l) && pattern_matches(pattern, l)),
{
    let lines = lines_of(text);
    let keep = keep_flags(lines, Some(pattern));
    assert forall|t: Seq<char>|
        #![trigger tagged_lines(pod, text, Some(pattern)).contains(t)]
        tagged_lines(pod, text, Some(pattern)).contains(t) <==> exists|i: int|
            0 <= i < lines.len() && pattern_matches(pattern, #[trigger] lines[i]) && t == tag(pod, lines[i]) by {
        lemma_kept_contains(pod, lines, keep, t);
        if exists|i: int| 0 <= i < lines.len() && keep[i] && t == tag(pod, #[trigger] lines[i]) {
            let i = choose|i: int| 0 <= i < lines.len() && keep[i] && t == tag(pod, #[trigger] lines[i]);
            assert(pattern_matches(pattern, lines[i]));
        }
        if exists|i: int|
            0 <= i < lines.len() && pattern_matches(pattern, #[trigger] lines[i]) && t == tag(pod, lines[i]) {
            let i = choose|i: int|
                0 <= i < lines.len() && pattern_matches(pattern, #[trigger] lines[i]) && t == tag(pod, lines[i]);
            assert(keep[i]);
        }
    }
    assert forall|l: Seq<char>|
        tagged_lines(pod, text, Some(pattern)).contains(#[trigger] tag(pod, l)) <==> (lines.contains(l)
            && pattern_matches(pattern, l)) by {
        lemma_kept_contains(pod, lines, keep, tag(pod, l));
        if tagged_lines(pod, text, Some(pattern)).contains(tag(pod, l)) {
            let i = choose|i: int| 0 <= i < lines.len() && keep[i] && tag(pod, l) == tag(pod, #[trigger] lines[i]);
            lemma_tag_injective(pod, l, lines[i]);
        }
        if lines.contains(l) && pattern_matches(pattern, l) {
            let i = choose|i: int| 0 <= i < lines.len() && lines[i] == l;
            assert(keep[i]);
        }
    }
}

proof fn lemma_all_tagged_skip_failed(
    pods: Seq<Seq<char>>,
    texts: Seq<Option<Seq<char>>>,
    pattern: Option<Seq<char>>,
    k: int,
)
    requires
        pods.len() == texts.len(),
        0 <= k < pods.len(),
        texts[k] is None,
    ensures
        all_tagged(pods.remove(k), texts.remove(k), pattern) == all_tagged(pods, texts, pattern),
    decreases pods.len(),
{
    if k == pods.len() - 1 {
        assert(pods.remove(k) == pods.drop_last());
        assert(texts.remove(k) == texts.drop_last());
    } else {
        lemma_all_tagged_skip_failed(pods.drop_last(), texts.drop_last(), pattern, k);
        assert(pods.remove(k).drop_last() == pods.drop_last().remove(k));
        assert(texts.remove(k).drop_last() == texts.drop_last().remove(k));
        assert(pods.remove(k).last() == pods.last());
        assert(texts.remove(k).last() == texts.last());
    }
}

/// A pod whose retrieval failed leaves no trace: the aggregated log, and the
/// report of the slots (logs or no matching logs), are those of the other
/// pods alone, in their original relative order.
pub proof fn law_failed_pod_skipped(
    pods: Seq<Seq<char>>,
    texts: Seq<Option<Seq<char>>>,
    pattern: Option<Seq<char>>,
    k: int,
)
    requires
        pods.len() == texts.len(),
        0 <= k < pods.len(),
        texts[k] is None,
    ensures
        merged(blocks_of(pods, texts, pattern)) == merged(blocks_of(pods.remove(k), texts.remove(k), pattern)),
        present(blocks_of(pods, texts, pattern)).len() == 0 <==> present(
            blocks_of(pods.remove(k), texts.remove(k), pattern),
        ).len() == 0,
        forall|r: LogReport|
            reports(r, blocks_of(pods, texts, pattern)) <==> #[trigger] reports(
                r,
                blocks_of(pods.remove(k), texts.remove(k), pattern),
            ),
{
    lemma_all_tagged_skip_failed(pods, texts, pattern, k);
    lemma_merged_all_tagged(pods, texts, pattern);
    lemma_merged_all_tagged(pods.remove(k), texts.remove(k), pattern);
}

proof fn lemma_present_empty(blocks: Seq<Option<Seq<char>>>)
    ensures
        present(blocks).len() == 0 <==> forall|i: int| 0 <= i < blocks.len() ==> (#[trigger] blocks[i]) is None,
    decreases blocks.len(),
{
    if blocks.len() > 0 {
        lemma_present_empty(blocks.drop_last());
        if present(blocks).len() == 0 {
            assert forall|i: int| 0 <= i < blocks.len() implies (#[trigger] blocks[i]) is None by {
                if i < blocks.len() - 1 {
                    assert(blocks.drop_last()[i] == blocks[i]);
                }
            }
        }
        if forall|i: int| 0 <= i < blocks.len() ==> (#[trigger] blocks[i]) is None {
            assert forall|i: int| 0 <= i < blocks.drop_last().len() implies (
            #[trigger] blocks.drop_last()[i]) is None by {
                assert(blocks[i] is None);
            }
            assert(blocks[blocks.len() - 1] is None);
        }
    }
}

/// The aggregation has nothing to report exactly when every retrieval failed
/// or produced no line that passes the filter.
pub proof fn law_nothing_to_report(
    pods: Seq<Seq<char>>,
    texts: Seq<Option<Seq<char>>>,
    pattern: Option<Seq<char>>,
)
    requires
        pods.len() == texts.len(),
    ensures
        present(blocks_of(pods, texts, pattern)).len() == 0 <==> forall|i: int|
            0 <= i < pods.len() ==> (#[trigger] texts[i] matches None || tagged_lines(
                pods[i],
                texts[i]->0,
                pattern,
            ).len() == 0),
{
    let blocks = blocks_of(pods, texts, pattern);
    lemma_present_empty(blocks);
    if present(blocks).len() == 0 {
        assert forall|i: int| 0 <= i < pods.len() implies (#[trigger] texts[i] matches None
            || tagged_lines(pods[i], texts[i]->0, pattern).len() == 0) by {
            assert(blocks[i] is None);
        }
    }
    if forall|i: int|
        0 <= i < pods.len() ==> (#[trigger] texts[i] matches None || tagged_lines(
            pods[i],
            texts[i]->0,
            pattern,
        ).len() == 0) {
        assert forall|i: int| 0 <= i < blocks.len() implies (#[trigger] blocks[i]) is None by {
            assert(texts[i] matches None || tagged_lines(pods[i], texts[i]->0, pattern).len() == 0);
        }
    }
}

/// Slots are filled by position: filing two retrievals of different pods in
/// either order leaves the same slots, so the aggregated log does not depend
/// on which retrieval finished first.
pub proof fn law_record_order_irrelevant(
    blocks: Seq<Option<Seq<char>>>,
    pods: Seq<Seq<char>>,
    pattern: Option<Seq<char>>,
    i: int,
    oi: Result<String, String>,
    j: int,
    oj: Result<String, String>,
)
    requires
        blocks.len() == pods.len(),
        0 <= i < pods.len(),
        0 <= j < pods.len(),
        i != j,
    ensures
        blocks.update(i, outcome_block(pods[i], fetched(oi), pattern)).update(
            j,
            outcome_block(pods[j], fetched(oj), pattern),
        ) == blocks.update(j, outcome_block(pods[j], fetched(oj), pattern)).update(
            i,
            outcome_block(pods[i], fetched(oi), pattern),
        ),
{
    assert(blocks.update(i, outcome_block(pods[i], fetched(oi), pattern)).update(
        j,
        outcome_block(pods[j], fetched(oj), pattern),
    ) =~= blocks.update(j, outcome_block(pods[j], fetched(oj), pattern)).update(
        i,
        outcome_block(pods[i], fetched(oi), pattern),
    ));
}

proof fn lemma_concat_contains(a: Seq<Seq<char>>, b: Seq<Seq<char>>, t: Seq<char>)
    ensures
        (a + b).contains(t) <==> a.contains(t) || b.contains(t),
{
    if (a + b).contains(t) {
        let k = choose|k: int| 0 <= k < (a + b).len() && (a + b)[k] == t;
        if k < a.len() {
            assert(a[k] == t);
        } else {
            assert(b[k - a.len()] == t);
        }
    }
    if a.contains(t) {
        let k = choose|k: int| 0 <= k < a.len() && a[k] == t;
        assert((a + b)[k] == t);
    }
    if b.contains(t) {
        let k = choose|k: int| 0 <= k < b.len() && b[k] == t;
        assert((a + b)[a.len() + k] == t);
    }
}

/// The aggregated log is the join of the pods' tagged lines, and a tagged
/// line is in it exactly when it is in the block of a pod whose retrieval
/// succeeded; with a pattern, those are the lines the pattern matches.
pub proof fn law_output_lines(
    pods: Seq<Seq<char>>,
    texts: Seq<Option<Seq<char>>>,
    pattern: Option<Seq<char>>,
    t: Seq<char>,
)
    requires
        pods.len() == texts.len(),
    ensures
        merged(blocks_of(pods, texts, pattern)) == joined(all_tagged(pods, texts, pattern)),
        all_tagged(pods, texts, pattern).contains(t) <==> exists|i: int|
            0 <= i < pods.len() && #[trigger] texts[i] is Some && tagged_lines(
                pods[i],
                texts[i]->0,
                pattern,
            ).contains(t),
    decreases pods.len(),
{
    lemma_merged_all_tagged(pods, texts, pattern);
    if pods.len() > 0 {
        let n = pods.len() - 1;
        let pp = pods.drop_last();
        let tt = texts.drop_last();
        law_output_lines(pp, tt, pattern, t);
        let acc = all_tagged(pp, tt, pattern);
        if let Some(last) = texts.last() {
            lemma_concat_contains(acc, tagged_lines(pods.last(), last, pattern), t);
        }
        if all_tagged(pods, texts, pattern).contains(t) {
            if acc.contains(t) {
                let i = choose|i: int|
                    0 <= i < pp.len() && #[trigger] tt[i] is Some && tagged_lines(pp[i], tt[i]->0, pattern).contains(t);
                assert(texts[i] == tt[i] && pods[i] == pp[i]);
            } else {
                assert(texts[n] is Some);
            }
        }
        if exists|i: int|
            0 <= i < pods.len() && #[trigger] texts[i] is Some && tagged_lines(pods[i], texts[i]->0, pattern).contains(t) {
            let i = choose|i: int|
                0 <= i < pods.len() && #[trigger] texts[i] is Some && tagged_lines(pods[i], texts[i]->0, pattern).contains(t);
            if i < n {
                assert(texts[i] == tt[i] && pods[i] == pp[i]);
                assert(tt[i] is Some);
            }
        }
    }
}

/// With a pattern, the aggregated log is made of exactly the tagged lines
/// `[<pod>]: <line>` where `<line>` is a line of a pod whose retrieval
/// succeeded and the pattern matches somewhere in it; no other line, blank or
/// not, is in it.
pub proof fn law_output_matching_lines(
    pods: Seq<Seq<char>>,
    texts: Seq<Option<Seq<char>>>,
    pattern: Seq<char>,
    t: Seq<char>,
)
    requires
        pods.len() == texts.len(),
    ensures
        merged(blocks_of(pods, texts, Some(pattern))) == joined(all_tagged(pods, texts, Some(pattern))),
        all_tagged(pods, texts, Some(pattern)).contains(t) <==> exists|i: int, j: int|
            0 <= i < pods.len() && texts[i] is Some && 0 <= j < lines_of(texts[i]->0).len()
                && pattern_matches(pattern, #[trigger] lines_of(texts[i]->0)[j]) && t == tag(
                pods[i],
                lines_of(texts[i]->0)[j],
            ),
{
    law_output_lines(pods, texts, Some(pattern), t);
    if all_tagged(pods, texts, Some(pattern)).contains(t) {
        let i = choose|i: int|
            0 <= i < pods.len() && #[trigger] texts[i] is Some && tagged_lines(
                pods[i],
                texts[i]->0,
                Some(pattern),
            ).contains(t);
        law_filter_keeps_matching_lines(pods[i], texts[i]->0, pattern);
        let lines = lines_of(texts[i]->0);
        let j = choose|j: int|
            0 <= j < lines.len() && pattern_matches(pattern, #[trigger] lines[j]) && t == tag(pods[i], lines[j]);
        assert(pattern_matches(pattern, lines_of(texts[i]->0)[j]));
    }
    if exists|i: int, j: int|
        0 <= i < pods.len() && texts[i] is Some && 0 <= j < lines_of(texts[i]->0).len()
            && pattern_matches(pattern, #[trigger] lines_of(texts[i]->0)[j]) && t == tag(
            pods[i],
            lines_of(texts[i]->0)[j],
        ) {
        let (i, j) = choose|i: int, j: int|
            0 <= i < pods.len() && texts[i] is Some && 0 <= j < lines_of(texts[i]->0).len()
                && pattern_matches(pattern, #[trigger] lines_of(texts[i]->0)[j]) && t == tag(
                pods[i],
                lines_of(texts[i]->0)[j],
            );
        law_filter_keeps_matching_lines(pods[i], texts[i]->0, pattern);
        assert(tagged_lines(pods[i], texts[i]->0, Some(pattern)).contains(t));
    }
}

} // verus!
