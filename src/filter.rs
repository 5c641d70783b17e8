use vstd::prelude::*;

use crate::pattern::{pattern_matches, LinePattern};
use crate::text::{join_lines, joined, lines_of, split_lines};

verus! {

/// `line` prefixed with `[<pod>]: `.
pub open spec fn tag(pod: Seq<char>, line: Seq<char>) -> Seq<char> {
    seq!['['] + pod + seq![']', ':', ' '] + line
}

/// The tagged lines among `lines` whose flag in `keep` is set, in order.
pub open spec fn kept(pod: Seq<char>, lines: Seq<Seq<char>>, keep: Seq<bool>) -> Seq<Seq<char>>
    decreases lines.len(),
{
    if lines.len() == 0 {
        Seq::empty()
    } else {
        let rest = kept(pod, lines.drop_last(), keep.drop_last());
        if keep.last() {
            rest.push(tag(pod, lines.last()))
        } else {
            rest
        }
    }
}

/// With no pattern every line is kept; with one, the lines it matches.
pub open spec fn line_kept(pattern: Option<Seq<char>>, line: Seq<char>) -> bool {
    match pattern {
        None => true,
        Some(p) => pattern_matches(p, line),
    }
}

pub open spec fn keep_flags(lines: Seq<Seq<char>>, pattern: Option<Seq<char>>) -> Seq<bool> {
    lines.map_values(|l: Seq<char>| line_kept(pattern, l))
}

/// A block of tagged lines, or nothing when there are none.
pub open spec fn block(tagged: Seq<Seq<char>>) -> Option<Seq<char>> {
    if tagged.len() == 0 {
        None
    } else {
        Some(joined(tagged))
    }
}

/// The tagged lines of one pod's log that pass the filter.
pub open spec fn tagged_lines(pod: Seq<char>, text: Seq<char>, pattern: Option<Seq<char>>) -> Seq<Seq<char>> {
    kept(pod, lines_of(text), keep_flags(lines_of(text), pattern))
}

/// What one pod contributes to the aggregated log.
pub open spec fn filtered_block(pod: Seq<char>, text: Seq<char>, pattern: Option<Seq<char>>) -> Option<Seq<char>> {
    block(tagged_lines(pod, text, pattern))
}

pub open spec fn opt_view(o: Option<String>) -> Option<Seq<char>> {
    match o {
        None => None,
        Some(s) => Some(s@),
    }
}

pub open spec fn pattern_view(p: Option<&LinePattern>) -> Option<Seq<char>> {
    match p {
        None => None,
        Some(p) => Some(p@),
    }
}

/// `line` prefixed with `[<pod_name>]: `.
pub fn tag_line(pod_name: &str, line: &str) -> (r: String)
    ensures
        r@ == tag(pod_name@, line@),
{
    let mut out = String::from_str("[");
    out.append(pod_name);
    out.append("]: ");
    out.append(line);
    proof {
        reveal_strlit("[");
        reveal_strlit("]: ");
    }
    out
}

/// Tags the lines whose flag in `keep` is set and joins them; nothing when no
/// flag is set.
pub fn select_lines(pod_name: &str, lines: &Vec<String>, keep: &Vec<bool>) -> (r: Option<String>)
    requires
        keep.len() == lines.len(),
    ensures
        opt_view(r) == block(kept(pod_name@, lines@.map_values(|l: String| l@), keep@)),
{
    let ghost views = lines@.map_values(|l: String| l@);
    let mut tagged: Vec<String> = Vec::new();
    let mut i: usize = 0;
    while i < lines.len()
        invariant
            0 <= i <= lines.len(),
            keep.len() == lines.len(),
            views == lines@.map_values(|l: String| l@),
            tagged@.map_values(|l: String| l@) == kept(
                pod_name@,
                views.subrange(0, i as int),
                keep@.subrange(0, i as int),
            ),
        decreases lines.len() - i,
    {
        proof {
            assert(views.subrange(0, i + 1).drop_last() == views.subrange(0, i as int));
            assert(keep@.subrange(0, i + 1).drop_last() == keep@.subrange(0, i as int));
        }
        if keep[i] {
            let t = tag_line(pod_name, lines[i].as_str());
            tagged.push(t);
            proof {
                assert(tagged@.map_values(|l: String| l@) == kept(
                    pod_name@,
                    views.subrange(0, i as int),
                    keep@.subrange(0, i as int),
                ).push(tag(pod_name@, views[i as int])));
            }
        }
        i = i + 1;
    }
    proof {
        assert(views.subrange(0, lines.len() as int) == views);
        assert(keep@.subrange(0, lines.len() as int) == keep@);
    }
    if tagged.len() == 0 {
        None
    } else {
        Some(join_lines(&tagged))
    }
}

/// The tagged, filtered block of one pod's log, or nothing when no line
/// passes the filter.
pub fn filter_logs(pod_name: &str, logs: &str, pattern: Option<&LinePattern>) -> (r: Option<String>)
    ensures
        opt_view(r) == filtered_block(pod_name@, logs@, pattern_view(pattern)),
{
    let lines = split_lines(logs);
    let ghost views = lines@.map_values(|l: String| l@);
    let mut keep: Vec<bool> = Vec::new();
    let mut i: usize = 0;
    while i < lines.len()
        invariant
            0 <= i <= lines.len(),
            views == lines@.map_values(|l: String| l@),
            keep@ == keep_flags(views, pattern_view(pattern)).subrange(0, i as int),
        decreases lines.len() - i,
    {
        let k = match pattern {
            None => true,
            Some(p) => p.is_match(lines[i].as_str()),
        };
        keep.push(k);
        i = i + 1;
    }
    proof {
        assert(keep@ == keep_flags(views, pattern_view(pattern)));
    }
    select_lines(pod_name, &lines, &keep)
}

} // verus!
