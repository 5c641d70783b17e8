use vstd::prelude::*;

use crate::filter::{filter_logs, filtered_block, opt_view, pattern_view};
use crate::pattern::{pattern_compiles, LinePattern, PatternError};
use crate::text::{join_lines, joined};

verus! {

/// The blocks that are there, in slot order.
pub open spec fn present(blocks: Seq<Option<Seq<char>>>) -> Seq<Seq<char>>
    decreases blocks.len(),
{
    if blocks.len() == 0 {
        Seq::empty()
    } else {
        let rest = present(blocks.drop_last());
        match blocks.last() {
            Some(b) => rest.push(b),
            None => rest,
        }
    }
}

/// The aggregated log: the blocks that are there, joined by `'\n'`.
pub open spec fn merged(blocks: Seq<Option<Seq<char>>>) -> Seq<char> {
    joined(present(blocks))
}

/// The log text of a retrieval that succeeded; nothing for one that failed.
pub open spec fn fetched(outcome: Result<String, String>) -> Option<Seq<char>> {
    match outcome {
        Ok(t) => Some(t@),
        Err(_) => None,
    }
}

/// What one pod contributes: nothing when its retrieval failed, else its
/// filtered block.
pub open spec fn outcome_block(pod: Seq<char>, text: Option<Seq<char>>, pattern: Option<Seq<char>>) -> Option<Seq<char>> {
    match text {
        None => None,
        Some(t) => filtered_block(pod, t, pattern),
    }
}

/// The pattern text of an optional keyword.
pub open spec fn keyword_view(keyword: Option<&str>) -> Option<Seq<char>> {
    match keyword {
        None => None,
        Some(k) => Some(k@),
    }
}

/// The keyword is given and is not a valid pattern.
pub open spec fn refuses(keyword: Option<&str>) -> bool {
    match keyword {
        None => false,
        Some(k) => !pattern_compiles(k@),
    }
}

/// The slot of each pod, in the order the pods were listed.
pub open spec fn blocks_of(
    pods: Seq<Seq<char>>,
    texts: Seq<Option<Seq<char>>>,
    pattern: Option<Seq<char>>,
) -> Seq<Option<Seq<char>>> {
    Seq::new(pods.len(), |i: int| outcome_block(pods[i], texts[i], pattern))
}

/// The result of aggregating the logs of a deployment's pods.
#[derive(Debug, PartialEq, Eq)]
pub enum LogReport {
    /// No pod had a line that passed the filter, or every retrieval failed.
    NoMatchingLogs,
    /// The aggregated text.
    Logs(String),
}

/// Why log aggregation did not start.
#[derive(Debug, PartialEq, Eq)]
pub enum FetchError {
    /// The deployment's label selector matched no pod.
    NoPodsFound,
    /// The keyword is not a valid pattern.
    InvalidPattern(PatternError),
}

/// `r` reports the aggregation of `blocks`.
pub open spec fn reports(r: LogReport, blocks: Seq<Option<Seq<char>>>) -> bool {
    if present(blocks).len() == 0 {
        r is NoMatchingLogs
    } else {
        r matches LogReport::Logs(s) && s@ == merged(blocks)
    }
}

/// One slot per pod, filled in whatever order the retrievals finish, read
/// back in the order the pods were listed.
pub struct LogCollector {
    pods: Vec<String>,
    pattern: Option<LinePattern>,
    slots: Vec<Option<String>>,
}

impl LogCollector {
    pub closed spec fn pods(&self) -> Seq<Seq<char>> {
        self.pods@.map_values(|p: String| p@)
    }

    pub closed spec fn pattern(&self) -> Option<Seq<char>> {
        match self.pattern {
            None => None,
            Some(p) => Some(p@),
        }
    }

    pub closed spec fn blocks(&self) -> Seq<Option<Seq<char>>> {
        self.slots@.map_values(|b: Option<String>| opt_view(b))
    }

    /// One slot per pod.
    pub open spec fn wf(&self) -> bool {
        self.blocks().len() == self.pods().len()
    }

    /// Starts collecting for `pod_names`. With no pod there is nothing to
    /// collect; a keyword that does not compile stops everything before any
    /// retrieval.
    pub fn new(pod_names: Vec<String>, keyword: Option<&str>) -> (r: Result<LogCollector, FetchError>)
        ensures
            (r matches Err(FetchError::NoPodsFound)) <==> pod_names.len() == 0,
            (r matches Err(FetchError::InvalidPattern(_))) <==> (pod_names.len() > 0
                && refuses(keyword)),
            r matches Ok(c) ==> {
                &&& c.wf()
                &&& c.pods() == pod_names@.map_values(|p: String| p@)
                &&& c.pattern() == keyword_view(keyword)
                &&& c.blocks() == Seq::new(pod_names.len() as nat, |i: int| None::<Seq<char>>)
            },
    {
        if pod_names.len() == 0 {
            return Err(FetchError::NoPodsFound);
        }
        let pattern = match keyword {
            None => None,
            Some(k) => match LinePattern::new(k) {
                Ok(p) => Some(p),
                Err(e) => {
                    return Err(FetchError::InvalidPattern(e));
                },
            },
        };
        let mut slots: Vec<Option<String>> = Vec::new();
        let mut i: usize = 0;
        while i < pod_names.len()
            invariant
                0 <= i <= pod_names.len(),
                slots@.len() == i,
                forall|j: int| 0 <= j < i ==> slots@[j] is None,
            decreases pod_names.len() - i,
        {
            slots.push(None);
            i = i + 1;
        }
        let c = LogCollector { pods: pod_names, pattern, slots };
        proof {
            assert(c.blocks() == Seq::new(c.pods@.len() as nat, |i: int| None::<Seq<char>>));
        }
        Ok(c)
    }

    /// The number of pods.
    pub fn len(&self) -> (r: usize)
        requires
            self.wf(),
        ensures
            r == self.pods().len(),
    {
        self.pods.len()
    }

    /// The name of the pod in slot `index`.
    pub fn pod_name(&self, index: usize) -> (r: &str)
        requires
            self.wf(),
            index < self.pods().len(),
        ensures
            r@ == self.pods()[index as int],
    {
        self.pods[index].as_str()
    }

    /// Files what the retrieval for the pod in slot `index` came back with.
    pub fn record(&mut self, index: usize, outcome: Result<String, String>)
        requires
            old(self).wf(),
            index < old(self).pods().len(),
        ensures
            final(self).wf(),
            final(self).pods() == old(self).pods(),
            final(self).pattern() == old(self).pattern(),
            final(self).blocks() == old(self).blocks().update(
                index as int,
                outcome_block(old(self).pods()[index as int], fetched(outcome), old(self).pattern()),
            ),
    {
        let pattern = self.pattern.as_ref();
        proof {
            assert(pattern_view(pattern) == self.pattern());
        }
        let block = match &outcome {
            Ok(text) => filter_logs(self.pods[index].as_str(), text.as_str(), pattern),
            Err(_) => None,
        };
        self.slots.set(index, block);
        proof {
            assert(self.blocks() == old(self).blocks().update(
                index as int,
                outcome_block(old(self).pods()[index as int], fetched(outcome), old(self).pattern()),
            ));
        }
    }

    /// The aggregated log of the slots as they stand.
    pub fn report(&self) -> (r: LogReport)
        requires
            self.wf(),
        ensures
            reports(r, self.blocks()),
    {
        let ghost blocks = self.blocks();
        let mut found: Vec<String> = Vec::new();
        let mut i: usize = 0;
        while i < self.slots.len()
            invariant
                0 <= i <= self.slots.len(),
                blocks == self.blocks(),
                found@.map_values(|b: String| b@) == present(blocks.subrange(0, i as int)),
            decreases self.slots.len() - i,
        {
            proof {
                assert(blocks.subrange(0, i + 1).drop_last() == blocks.subrange(0, i as int));
            }
            match &self.slots[i] {
                Some(b) => {
                    found.push(b.clone());
                    proof {
                        assert(found@.map_values(|b: String| b@) == present(
                            blocks.subrange(0, i as int),
                        ).push(blocks[i as int]->0));
                    }
                },
                None => {},
            }
            i = i + 1;
        }
        proof {
            assert(blocks.subrange(0, self.slots.len() as int) == blocks);
        }
        if found.len() == 0 {
            LogReport::NoMatchingLogs
        } else {
            LogReport::Logs(join_lines(&found))
        }
    }
}

/// Aggregates the logs of `pod_names`, where `outcomes[i]` is what the
/// retrieval of pod `i` came back with.
pub fn aggregate_logs(
    pod_names: Vec<String>,
    outcomes: Vec<Result<String, String>>,
    keyword: Option<&str>,
) -> (r: Result<LogReport, FetchError>)
    requires
        outcomes.len() == pod_names.len(),
    ensures
        (r matches Err(FetchError::NoPodsFound)) <==> pod_names.len() == 0,
        (r matches Err(FetchError::InvalidPattern(_))) <==> (pod_names.len() > 0
            && refuses(keyword)),
        r matches Ok(rep) ==> reports(
            rep,
            blocks_of(
                pod_names@.map_values(|p: String| p@),
                outcomes@.map_values(|o: Result<String, String>| fetched(o)),
                keyword_view(keyword),
            ),
        ),
{
    let ghost pods = pod_names@.map_values(|p: String| p@);
    let ghost texts = outcomes@.map_values(|o: Result<String, String>| fetched(o));
    let ghost pat = keyword_view(keyword);
    let mut c = match LogCollector::new(pod_names, keyword) {
        Ok(c) => c,
        Err(e) => {
            return Err(e);
        },
    };
    let mut rest = outcomes;
    let mut i: usize = rest.len();
    while i > 0
        invariant
            c.wf(),
            c.pods() == pods,
            c.pattern() == pat,
            texts.len() == pods.len(),
            0 <= i <= pods.len(),
            rest.len() == i,
            forall|j: int| 0 <= j < i ==> fetched(rest@[j]) == texts[j],
            c.blocks() == Seq::new(pods.len(), |j: int|
                if j >= i { outcome_block(pods[j], texts[j], pat) } else { None }),
        decreases i,
    {
        let o = rest.pop().unwrap();
        i = i - 1;
        c.record(i, o);
        proof {
            assert(c.blocks() == Seq::new(pods.len(), |j: int|
                if j >= i { outcome_block(pods[j], texts[j], pat) } else { None }));
        }
    }
    proof {
        assert(c.blocks() == blocks_of(pods, texts, pat));
    }
    Ok(c.report())
}

} // verus!
