//! The line relabeler: rewrites one line of Prometheus-style exposition text
//! so that it carries the owning container's identity as a `container_name`
//! label. Comment lines and blank lines pass through unchanged; a line that is
//! neither a comment nor a recognizable sample is returned unchanged as well.

use vstd::prelude::*;
use vstd::string::StrSliceExecFns;

verus! {

/// The characters `str::trim` removes: Rust's `char::is_whitespace` set.
pub open spec fn is_space(c: char) -> bool {
    ||| c == ' '
    ||| c == '\t'
    ||| c == '\n'
    ||| c == '\r'
    ||| c == '\u{b}'
    ||| c == '\u{c}'
    ||| c == '\u{85}'
    ||| c == '\u{a0}'
    ||| c == '\u{1680}'
    ||| c == '\u{2000}'
    ||| c == '\u{2001}'
    ||| c == '\u{2002}'
    ||| c == '\u{2003}'
    ||| c == '\u{2004}'
    ||| c == '\u{2005}'
    ||| c == '\u{2006}'
    ||| c == '\u{2007}'
    ||| c == '\u{2008}'
    ||| c == '\u{2009}'
    ||| c == '\u{200a}'
    ||| c == '\u{2028}'
    ||| c == '\u{2029}'
    ||| c == '\u{202f}'
    ||| c == '\u{205f}'
    ||| c == '\u{3000}'
}

/// A line made of whitespace only (the empty line included).
pub open spec fn is_blank(line: Seq<char>) -> bool {
    forall|i: int| 0 <= i < line.len() ==> is_space(#[trigger] line[i])
}

/// A comment line of the exposition format: its trimmed form starts with `#`.
pub open spec fn is_comment(line: Seq<char>) -> bool {
    exists|i: int|
        0 <= i < line.len() && #[trigger] line[i] == '#' && (forall|j: int|
            0 <= j < i ==> is_space(#[trigger] line[j]))
}

pub open spec fn contains_char(s: Seq<char>, c: char) -> bool {
    exists|i: int| 0 <= i < s.len() && #[trigger] s[i] == c
}

/// Index of the first occurrence of `c` in `s`; meaningful only when
/// `contains_char(s, c)` holds.
pub open spec fn first_index_of(s: Seq<char>, c: char) -> int
    decreases s.len(),
{
    if s.len() == 0 {
        0
    } else if s[0] == c {
        0
    } else {
        1 + first_index_of(s.drop_first(), c)
    }
}

pub proof fn lemma_first_index_of_valid(s: Seq<char>, c: char)
    requires
        contains_char(s, c),
    ensures
        0 <= first_index_of(s, c) < s.len(),
        s[first_index_of(s, c)] == c,
        forall|j: int| 0 <= j < first_index_of(s, c) ==> s[j] != c,
    decreases s.len(),
{
    if s.len() > 0 && s[0] != c {
        assert(contains_char(s.drop_first(), c)) by {
            let i = choose|i: int| 0 <= i < s.len() && #[trigger] s[i] == c;
            assert(s.drop_first()[i - 1] == c);
        }
        lemma_first_index_of_valid(s.drop_first(), c);
        assert forall|j: int| 0 <= j < first_index_of(s, c) implies s[j] != c by {
            if j > 0 {
                assert(s.drop_first()[j - 1] != c);
            }
        }
    }
}

/// The first occurrence of `c` is at `i` exactly when `c` stands at `i` and
/// nowhere earlier.
pub proof fn lemma_first_index_of_at(s: Seq<char>, c: char, i: int)
    requires
        0 <= i < s.len(),
        s[i] == c,
        forall|j: int| 0 <= j < i ==> s[j] != c,
    ensures
        contains_char(s, c),
        first_index_of(s, c) == i,
    decreases i,
{
    if i > 0 {
        assert(forall|j: int| 0 <= j < i - 1 ==> s.drop_first()[j] != c);
        lemma_first_index_of_at(s.drop_first(), c, i - 1);
    }
}

/// The label text injected for a container identity.
pub open spec fn label_of(name: Seq<char>) -> Seq<char> {
    "container_name="@ + name
}

/// What relabeling one line returns: blank lines and comment lines unchanged;
/// a line with a label block gets the identity label first inside the block,
/// followed by a comma; a line without one but with a space gets a whole
/// label block before the first space; anything else is unchanged.
pub open spec fn relabel_spec(line: Seq<char>, name: Seq<char>) -> Seq<char> {
    if is_blank(line) || is_comment(line) {
        line
    } else if contains_char(line, '{') {
        let p = first_index_of(line, '{');
        line.subrange(0, p + 1) + label_of(name) + seq![','] + line.subrange(
            p + 1,
            line.len() as int,
        )
    } else if contains_char(line, ' ') {
        let p = first_index_of(line, ' ');
        line.subrange(0, p) + seq!['{'] + label_of(name) + seq!['}'] + line.subrange(
            p,
            line.len() as int,
        )
    } else {
        line
    }
}

fn is_space_char(c: char) -> (b: bool)
    ensures
        b == is_space(c),
{
    c == ' ' || c == '\t' || c == '\n' || c == '\r' || c == '\u{b}' || c == '\u{c}' || c == '\u{85}'
        || c == '\u{a0}' || c == '\u{1680}' || c == '\u{2000}' || c == '\u{2001}' || c == '\u{2002}'
        || c == '\u{2003}' || c == '\u{2004}' || c == '\u{2005}' || c == '\u{2006}' || c
        == '\u{2007}' || c == '\u{2008}' || c == '\u{2009}' || c == '\u{200a}' || c == '\u{2028}'
        || c == '\u{2029}' || c == '\u{202f}' || c == '\u{205f}' || c == '\u{3000}'
}

/// Index of the first non-whitespace character, or the length if none.
fn first_non_space(line: &str) -> (r: usize)
    ensures
        r <= line@.len(),
        forall|j: int| 0 <= j < r ==> is_space(#[trigger] line@[j]),
        r < line@.len() ==> !is_space(line@[r as int]),
{
    let n = line.unicode_len();
    let mut i: usize = 0;
    while i < n
        invariant
            i <= n,
            forall|j: int| 0 <= j < i ==> is_space(#[trigger] line@[j]),
        decreases n - i,
    {
        if !is_space_char(line.get_char(i)) {
            return i;
        }
        i = i + 1;
    }
    n
}

/// Index of the first occurrence of `c` in `line`, scanning from `start`.
pub(crate) fn find_char_from(line: &str, c: char, start: usize) -> (r: Option<usize>)
    requires
        start <= line@.len(),
    ensures
        match r {
            Some(p) => start <= p < line@.len() && line@[p as int] == c && (forall|j: int|
                start <= j < p ==> #[trigger] line@[j] != c),
            None => forall|j: int| start <= j < line@.len() ==> #[trigger] line@[j] != c,
        },
{
    let n = line.unicode_len();
    let mut i: usize = start;
    while i < n
        invariant
            start <= i <= n,
            forall|j: int| start <= j < i ==> #[trigger] line@[j] != c,
        decreases n - i,
    {
        if line.get_char(i) == c {
            return Some(i);
        }
        i = i + 1;
    }
    None
}

/// Rewrites one metric sample line to carry the container's identity: the
/// executable form of `relabel_spec`. Total: every input line yields an
/// output line, and the function never panics.
pub fn add_service_name_to_metric_line(line: &str, container_name: &str) -> (r: String)
    ensures
        r@ == relabel_spec(line@, container_name@),
{
    let n = line.unicode_len();
    let t = first_non_space(line);

    // a line of whitespace only passes through unchanged
    if t == n {
        assert(is_blank(line@));
        return line.to_owned();
    }
    // a comment/meta line passes through unchanged
    if line.get_char(t) == '#' {
        assert(is_comment(line@));
        return line.to_owned();
    }
    proof {
        assert(!is_blank(line@));
        assert(!is_comment(line@)) by {
            if is_comment(line@) {
                let k = choose|k: int|
                    0 <= k < line@.len() && #[trigger] line@[k] == '#' && (forall|j: int|
                        0 <= j < k ==> is_space(#[trigger] line@[j]));
                if k < t {
                    assert(is_space(line@[k]));
                } else if k > t {
                    assert(is_space(line@[t as int]));
                }
            }
        }
    }
    // a line that already has a label block: the identity label goes first
    // inside it, with a trailing comma
    if let Some(p) = find_char_from(line, '{', 0) {
        proof {
            lemma_first_index_of_at(line@, '{', p as int);
        }
        let mut r = line.substring_char(0, p + 1).to_owned();
        r.append("container_name=");
        r.append(container_name);
        r.append(",");
        r.append(line.substring_char(p + 1, n));
        proof {
            reveal_strlit(",");
            assert(r@ =~= relabel_spec(line@, container_name@));
        }
        return r;
    }
    // no label block yet: synthesize one before the first space
    if let Some(p) = find_char_from(line, ' ', 0) {
        proof {
            lemma_first_index_of_at(line@, ' ', p as int);
        }
        let mut r = line.substring_char(0, p).to_owned();
        r.append("{");
        r.append("container_name=");
        r.append(container_name);
        r.append("}");
        r.append(line.substring_char(p, n));
        proof {
            reveal_strlit("{");
            reveal_strlit("}");
            assert(r@ =~= relabel_spec(line@, container_name@));
        }
        return r;
    }
    // neither a comment nor a parsable sample: pass it through unchanged
    line.to_owned()
}

/// Blank lines and comment lines are left exactly as they are.
pub proof fn lemma_relabel_identity(line: Seq<char>, name: Seq<char>)
    requires
        is_blank(line) || is_comment(line),
    ensures
        relabel_spec(line, name) == line,
{
}

/// On a non-comment, non-blank line with a label block, relabeling inserts
/// `container_name=<name>,` right after the first `{` and keeps every other
/// character where it was: positions up to the brace are untouched, and every
/// position after it is shifted right by the inserted text's length.
pub proof fn lemma_relabel_braced(line: Seq<char>, name: Seq<char>)
    requires
        !is_blank(line),
        !is_comment(line),
        contains_char(line, '{'),
    ensures
        ({
            let p = first_index_of(line, '{');
            let ins = label_of(name) + seq![','];
            let r = relabel_spec(line, name);
            &&& r.len() == line.len() + ins.len()
            &&& forall|j: int| 0 <= j <= p ==> r[j] == line[j]
            &&& r.subrange(p + 1, p + 1 + ins.len() as int) == ins
            &&& forall|j: int| p < j < line.len() ==> r[j + ins.len()] == line[j]
        }),
{
    lemma_first_index_of_valid(line, '{');
    let p = first_index_of(line, '{');
    let ins = label_of(name) + seq![','];
    let r = relabel_spec(line, name);
    assert(r =~= line.subrange(0, p + 1) + ins + line.subrange(p + 1, line.len() as int));
    assert(r.subrange(p + 1, p + 1 + ins.len() as int) =~= ins);
}

/// On a non-comment, non-blank line without a label block but with a space,
/// relabeling inserts `{container_name=<name>}` right before the first space
/// and keeps every other character where it was.
pub proof fn lemma_relabel_unbraced(line: Seq<char>, name: Seq<char>)
    requires
        !is_blank(line),
        !is_comment(line),
        !contains_char(line, '{'),
        contains_char(line, ' '),
    ensures
        ({
            let p = first_index_of(line, ' ');
            let ins = seq!['{'] + label_of(name) + seq!['}'];
            let r = relabel_spec(line, name);
            &&& r.len() == line.len() + ins.len()
            &&& forall|j: int| 0 <= j < p ==> r[j] == line[j]
            &&& r.subrange(p, p + ins.len() as int) == ins
            &&& forall|j: int| p <= j < line.len() ==> r[j + ins.len()] == line[j]
        }),
{
    lemma_first_index_of_valid(line, ' ');
    let p = first_index_of(line, ' ');
    let ins = seq!['{'] + label_of(name) + seq!['}'];
    let r = relabel_spec(line, name);
    assert(r =~= line.subrange(0, p) + ins + line.subrange(p, line.len() as int));
    assert(r.subrange(p, p + ins.len() as int) =~= ins);
}

} // verus!
