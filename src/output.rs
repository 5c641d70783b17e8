use vstd::prelude::*;

verus! {

/// `app=<deployment>`: selects the pods of a deployment.
pub fn label_selector(deployment: &str) -> (r: String)
    ensures
        r@ == "app="@ + deployment@,
{
    let mut s = String::from_str("app=");
    s.append(deployment);
    s
}

/// `<deployment>_logs.txt`: where saved logs go.
pub fn log_file_name(deployment: &str) -> (r: String)
    ensures
        r@ == deployment@ + "_logs.txt"@,
{
    let mut s = String::from_str(deployment);
    s.append("_logs.txt");
    s
}

/// The names that are there, in order.
pub open spec fn names_present(names: Seq<Option<String>>) -> Seq<Seq<char>>
    decreases names.len(),
{
    if names.len() == 0 {
        Seq::empty()
    } else {
        let rest = names_present(names.drop_last());
        match names.last() {
            Some(n) => rest.push(n@),
            None => rest,
        }
    }
}

/// The pods that have a name, in listing order.
pub fn named_pods(names: Vec<Option<String>>) -> (r: Vec<String>)
    ensures
        r@.map_values(|n: String| n@) == names_present(names@),
{
    let ghost all = names@;
    let mut rest = names;
    let mut out: Vec<String> = Vec::new();
    while rest.len() > 0
        invariant
            rest@.len() <= all.len(),
            rest@ == all.subrange(all.len() - rest@.len(), all.len() as int),
            out@.map_values(|n: String| n@) == names_present(all.subrange(0, all.len() - rest@.len())),
        decreases rest.len(),
    {
        let ghost done = all.len() - rest@.len();
        let n = rest.remove(0);
        proof {
            assert(all.subrange(0, done + 1).drop_last() == all.subrange(0, done));
            assert(rest@ == all.subrange(done + 1, all.len() as int));
        }
        match n {
            Some(name) => {
                out.push(name);
                proof {
                    assert(out@.map_values(|n: String| n@) == names_present(all.subrange(0, done)).push(
                        all[done]->0@,
                    ));
                }
            },
            None => {},
        }
    }
    proof {
        assert(all.subrange(0, all.len() as int) == all);
    }
    out
}

/// Where the aggregated log goes.
#[derive(Debug, PartialEq, Eq)]
pub enum LogSink {
    /// Written to the file at `path`.
    File { path: String, contents: String },
    /// Printed on the console.
    Console(String),
}

/// The text a sink receives.
pub open spec fn sink_text(s: LogSink) -> Seq<char> {
    match s {
        LogSink::File { contents, .. } => contents@,
        LogSink::Console(text) => text@,
    }
}

/// The file a sink writes to, if it writes to one.
pub open spec fn sink_path(s: LogSink) -> Option<Seq<char>> {
    match s {
        LogSink::File { path, .. } => Some(path@),
        LogSink::Console(_) => None,
    }
}

/// The destination and the text for `logs` of `deployment`: the file
/// `<deployment>_logs.txt` when `to_file` is set, else the console.
pub open spec fn sink_of(deployment: Seq<char>, logs: Seq<char>, to_file: bool) -> (Option<Seq<char>>, Seq<char>) {
    if to_file {
        (Some(deployment + "_logs.txt"@), logs)
    } else {
        (None, logs)
    }
}

/// Sends `logs` to `<deployment>_logs.txt` when `to_file` is set, else to
/// the console.
pub fn log_sink(deployment: &str, logs: String, to_file: bool) -> (r: LogSink)
    ensures
        (sink_path(r), sink_text(r)) == sink_of(deployment@, logs@, to_file),
{
    if to_file {
        LogSink::File { path: log_file_name(deployment), contents: logs }
    } else {
        LogSink::Console(logs)
    }
}

/// Whichever sink is chosen, it receives the same text: a saved log reads
/// back exactly as the console would have shown it.
pub proof fn law_sinks_agree(deployment: Seq<char>, logs: Seq<char>)
    ensures
        sink_of(deployment, logs, true).1 == sink_of(deployment, logs, false).1,
{
}

} // verus!
