//! Relabeling a whole metrics payload: the captured output of one container's
//! probe is split into lines, every line is passed through the line relabeler
//! with that container's identity, and the lines are joined back together.
//! Within one container's payload the line order is preserved exactly.

use vstd::prelude::*;
use vstd::string::StrSliceExecFns;
use vstd::string::StringExecFns;
use crate::relabel::add_service_name_to_metric_line;
use crate::relabel::contains_char;
use crate::relabel::first_index_of;
use crate::relabel::lemma_first_index_of_at;
use crate::relabel::lemma_first_index_of_valid;
use crate::relabel::relabel_spec;

verus! {

/// The segments of `s` between newline characters, the way `str::split('\n')`
/// cuts them: always at least one segment, and a trailing newline yields a
/// final empty segment.
pub open spec fn split_lines(s: Seq<char>) -> Seq<Seq<char>>
    decreases s.len(),
    via split_lines_decreases
{
    if !contains_char(s, '\n') {
        seq![s]
    } else {
        let p = first_index_of(s, '\n');
        seq![s.subrange(0, p)] + split_lines(s.subrange(p + 1, s.len() as int))
    }
}

#[via_fn]
proof fn split_lines_decreases(s: Seq<char>) {
    if contains_char(s, '\n') {
        lemma_first_index_of_valid(s, '\n');
    }
}

/// The segments joined back with a newline between neighbours.
pub open spec fn join_lines(lines: Seq<Seq<char>>) -> Seq<char>
    decreases lines.len(),
{
    if lines.len() == 0 {
        Seq::empty()
    } else if lines.len() == 1 {
        lines[0]
    } else {
        lines[0] + seq!['\n'] + join_lines(lines.drop_first())
    }
}

/// What relabeling a whole payload returns: each newline-separated segment
/// rewritten with the container's identity, each staying in its place.
pub open spec fn relabel_payload_spec(s: Seq<char>, name: Seq<char>) -> Seq<char> {
    join_lines(split_lines(s).map_values(|l: Seq<char>| relabel_spec(l, name)))
}

proof fn lemma_split_lines_len(s: Seq<char>)
    ensures
        split_lines(s).len() >= 1,
{
    if contains_char(s, '\n') {
        lemma_first_index_of_valid(s, '\n');
    }
}

/// Unfolds one step of `relabel_payload_spec` at the first newline.
proof fn lemma_relabel_payload_step(s: Seq<char>, p: int, name: Seq<char>)
    requires
        0 <= p < s.len(),
        s[p] == '\n',
        forall|j: int| 0 <= j < p ==> s[j] != '\n',
    ensures
        relabel_payload_spec(s, name) == relabel_spec(s.subrange(0, p), name) + seq!['\n']
            + relabel_payload_spec(s.subrange(p + 1, s.len() as int), name),
{
    lemma_first_index_of_at(s, '\n', p);
    let rest = s.subrange(p + 1, s.len() as int);
    let f = |l: Seq<char>| relabel_spec(l, name);
    let mapped = split_lines(s).map_values(f);
    let mapped_rest = split_lines(rest).map_values(f);
    lemma_split_lines_len(rest);
    assert(split_lines(s) == seq![s.subrange(0, p)] + split_lines(rest));
    assert(mapped =~= seq![relabel_spec(s.subrange(0, p), name)] + mapped_rest);
    assert(mapped.len() >= 2);
    assert(mapped.drop_first() =~= mapped_rest);
}

/// A payload without a newline is one segment: relabeling the payload is
/// relabeling that single line.
proof fn lemma_relabel_payload_single(s: Seq<char>, name: Seq<char>)
    requires
        forall|j: int| 0 <= j < s.len() ==> s[j] != '\n',
    ensures
        relabel_payload_spec(s, name) == relabel_spec(s, name),
{
    assert(!contains_char(s, '\n'));
    let f = |l: Seq<char>| relabel_spec(l, name);
    assert(split_lines(s).map_values(f) =~= seq![relabel_spec(s, name)]);
}

/// Splits the payload on newlines, rewrites every line with the container's
/// identity, and joins the lines back: the executable form of
/// `relabel_payload_spec`. Total like the line relabeler itself.
pub fn relabel_metrics_payload(payload: &str, container_name: &str) -> (r: String)
    ensures
        r@ == relabel_payload_spec(payload@, container_name@),
{
    let n = payload.unicode_len();
    let mut r = String::new();
    let mut start: usize = 0;
    proof {
        assert(payload@.subrange(0, n as int) =~= payload@);
        assert(r@ + relabel_payload_spec(payload@, container_name@) =~= relabel_payload_spec(
            payload@,
            container_name@,
        ));
    }
    loop
        invariant
            start <= n,
            relabel_payload_spec(payload@, container_name@) == r@ + relabel_payload_spec(
                payload@.subrange(start as int, n as int),
                container_name@,
            ),
        decreases n - start,
    {
        let suffix_ghost = Ghost(payload@.subrange(start as int, n as int));
        match crate::relabel::find_char_from(payload, '\n', start) {
            Some(p) => {
                let line = payload.substring_char(start, p);
                let relabeled = add_service_name_to_metric_line(line, container_name);
                r.append(relabeled.as_str());
                r.append("\n");
                proof {
                    let suffix = suffix_ghost@;
                    let q = p - start;
                    assert(suffix[q] == '\n');
                    assert forall|j: int| 0 <= j < q implies suffix[j] != '\n' by {
                        assert(payload@[start + j] != '\n');
                    }
                    lemma_relabel_payload_step(suffix, q, container_name@);
                    assert(line@ =~= suffix.subrange(0, q));
                    assert(suffix.subrange(q + 1, suffix.len() as int) =~= payload@.subrange(
                        p + 1,
                        n as int,
                    ));
                    reveal_strlit("\n");
                    assert("\n"@ =~= seq!['\n']);
                }
                start = p + 1;
            },
            None => {
                let line = payload.substring_char(start, n);
                let relabeled = add_service_name_to_metric_line(line, container_name);
                r.append(relabeled.as_str());
                proof {
                    let suffix = suffix_ghost@;
                    assert forall|j: int| 0 <= j < suffix.len() implies suffix[j] != '\n' by {
                        assert(payload@[start + j] != '\n');
                    }
                    lemma_relabel_payload_single(suffix, container_name@);
                    assert(line@ =~= suffix);
                }
                return r;
            },
        }
    }
}

} // verus!
