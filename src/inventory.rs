use vstd::prelude::*;

use crate::text::joined;

verus! {

/// What the pod listing reads of a pod.
pub struct PodSummary {
    pub name: Option<String>,
    pub phase: Option<String>,
    pub node: Option<String>,
}

/// One row of the pod table.
#[derive(Debug, PartialEq, Eq)]
pub struct PodRow {
    pub name: String,
    pub status: String,
    pub node: String,
}

/// What the workload listing reads of a deployment or a stateful set: its
/// name, its desired replica count and the image of each container of its pod
/// template (`images` is absent when the template has no pod spec).
pub struct WorkloadSummary {
    pub name: Option<String>,
    pub replicas: Option<i32>,
    pub images: Option<Vec<Option<String>>>,
}

/// One row of the deployment or stateful set table.
#[derive(Debug, PartialEq, Eq)]
pub struct WorkloadRow {
    pub name: String,
    pub images: String,
    pub replicas: String,
}

/// The field's text, or `Unknown` when it is absent.
pub open spec fn or_unknown(o: Option<String>) -> Seq<char> {
    match o {
        Some(s) => s@,
        None => "Unknown"@,
    }
}

pub open spec fn digit_char(d: int) -> char {
    seq!['0', '1', '2', '3', '4', '5', '6', '7', '8', '9'][d]
}

/// The decimal digits of a natural number, without leading zeros.
pub open spec fn digits(n: nat) -> Seq<char>
    decreases n,
{
    if n < 10 {
        seq![digit_char(n as int)]
    } else {
        digits(n / 10).push(digit_char((n % 10) as int))
    }
}

/// The decimal text of an integer, with a leading `-` when it is negative.
pub open spec fn decimal(n: int) -> Seq<char> {
    if n < 0 {
        seq!['-'] + digits((-n) as nat)
    } else {
        digits(n as nat)
    }
}

/// The images of a pod template, an absent one shown as `Unknown`, joined by
/// `", "`; `Unknown` as well when the template has no pod spec.
pub open spec fn images_text(images: Option<Seq<Option<String>>>) -> Seq<char>
    decreases match images {
        None => 0,
        Some(s) => s.len(),
    },
{
    match images {
        None => "Unknown"@,
        Some(s) => if s.len() == 0 {
            Seq::empty()
        } else if s.len() == 1 {
            or_unknown(s[0])
        } else {
            images_text(Some(s.drop_last())) + ", "@ + or_unknown(s.last())
        },
    }
}

fn digit_text(d: u32) -> (r: &'static str)
    requires
        d < 10,
    ensures
        r@ == seq![digit_char(d as int)],
{
    proof {
        reveal_strlit("0");
        reveal_strlit("1");
        reveal_strlit("2");
        reveal_strlit("3");
        reveal_strlit("4");
        reveal_strlit("5");
        reveal_strlit("6");
        reveal_strlit("7");
        reveal_strlit("8");
        reveal_strlit("9");
    }
    if d == 0 {
        "0"
    } else if d == 1 {
        "1"
    } else if d == 2 {
        "2"
    } else if d == 3 {
        "3"
    } else if d == 4 {
        "4"
    } else if d == 5 {
        "5"
    } else if d == 6 {
        "6"
    } else if d == 7 {
        "7"
    } else if d == 8 {
        "8"
    } else {
        "9"
    }
}

fn append_digits(out: &mut String, n: u32)
    ensures
        final(out)@ == old(out)@ + digits(n as nat),
    decreases n,
{
    if n >= 10 {
        append_digits(out, n / 10);
    }
    out.append(digit_text(n % 10));
    proof {
        if n >= 10 {
            assert(old(out)@ + digits(n as nat) == old(out)@ + digits((n / 10) as nat) + seq![
                digit_char((n % 10) as int),
            ]);
        }
    }
}

/// The decimal text of `n`.
pub fn int_text(n: i32) -> (r: String)
    ensures
        r@ == decimal(n as int),
{
    let mut out = String::new();
    if n < 0 {
        out.append("-");
        proof {
            reveal_strlit("-");
        }
        let m = (-(n as i64)) as u32;
        append_digits(&mut out, m);
    } else {
        append_digits(&mut out, n as u32);
    }
    out
}

fn text_or_unknown(o: Option<String>) -> (r: String)
    ensures
        r@ == or_unknown(o),
{
    match o {
        Some(s) => s,
        None => String::from_str("Unknown"),
    }
}

/// The row of a pod: name, phase and node, each `Unknown` when absent.
pub fn pod_row(pod: PodSummary) -> (r: PodRow)
    ensures
        r.name@ == or_unknown(pod.name),
        r.status@ == or_unknown(pod.phase),
        r.node@ == or_unknown(pod.node),
{
    PodRow {
        name: text_or_unknown(pod.name),
        status: text_or_unknown(pod.phase),
        node: text_or_unknown(pod.node),
    }
}

/// The images of a pod template joined by `", "`.
pub fn join_images(images: &Vec<Option<String>>) -> (r: String)
    ensures
        r@ == images_text(Some(images@)),
{
    let mut out = String::new();
    let mut i: usize = 0;
    while i < images.len()
        invariant
            0 <= i <= images.len(),
            out@ == images_text(Some(images@.subrange(0, i as int))),
        decreases images.len() - i,
    {
        proof {
            assert(images@.subrange(0, i + 1).drop_last() == images@.subrange(0, i as int));
        }
        if i > 0 {
            out.append(", ");
        }
        let image = match &images[i] {
            Some(s) => s.as_str(),
            None => "Unknown",
        };
        out.append(image);
        i = i + 1;
    }
    proof {
        assert(images@.subrange(0, images.len() as int) == images@);
    }
    out
}

/// The row of a workload: its name and its images (`Unknown` when absent),
/// and its replica count (`N/A` when absent).
pub fn workload_row(workload: WorkloadSummary) -> (r: WorkloadRow)
    ensures
        r.name@ == or_unknown(workload.name),
        r.images@ == images_text(
            match workload.images {
                Some(v) => Some(v@),
                None => None,
            },
        ),
        r.replicas@ == (match workload.replicas {
            Some(n) => decimal(n as int),
            None => "N/A"@,
        }),
{
    let name = text_or_unknown(workload.name);
    let images = match &workload.images {
        Some(v) => join_images(v),
        None => String::from_str("Unknown"),
    };
    let replicas = match workload.replicas {
        Some(n) => int_text(n),
        None => String::from_str("N/A"),
    };
    WorkloadRow { name, images, replicas }
}

} // verus!
