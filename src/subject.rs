//! Subject naming and request correlation.
//!
//! Invocation subjects read `{project}.{name}.exec.{variant}.{requestId}` and
//! responses go out on `{project}.{name}.res.{variant}.{requestId}`.

use vstd::prelude::*;
use vstd::string::*;

verus! {

/// The last `.`-separated segment of a subject (the whole subject if it has
/// no dot).
pub open spec fn last_segment(s: Seq<char>) -> Seq<char>
    decreases s.len(),
{
    if s.len() == 0 {
        s
    } else if s.last() == '.' {
        Seq::<char>::empty()
    } else {
        last_segment(s.drop_last()).push(s.last())
    }
}

/// The request identifier carried by a subject: its last segment, if that is
/// not empty.
pub open spec fn request_id_of(s: Seq<char>) -> Option<Seq<char>> {
    if last_segment(s).len() == 0 {
        None
    } else {
        Some(last_segment(s))
    }
}

/// `{project}.{name}.res.{variant}.{requestId}`
pub open spec fn response_subject_of(
    project: Seq<char>,
    name: Seq<char>,
    variant: Seq<char>,
    request_id: Seq<char>,
) -> Seq<char> {
    project + "."@ + name + ".res."@ + variant + "."@ + request_id
}

/// `{project}.{name}.exec.{variant}.*`
pub open spec fn exec_subject_of(project: Seq<char>, name: Seq<char>, variant: Seq<char>) -> Seq<char> {
    project + "."@ + name + ".exec."@ + variant + ".*"@
}

/// `{project}.>`
pub open spec fn stream_subjects_of(project: Seq<char>) -> Seq<char> {
    project + ".>"@
}

/// `{project}-{name}`
pub open spec fn consumer_name_of(project: Seq<char>, name: Seq<char>) -> Seq<char> {
    project + "-"@ + name
}

/// If `s` has a dot at `i` and none after it, its last segment is what
/// follows that dot.
pub proof fn lemma_last_segment_after_dot(s: Seq<char>, i: int)
    requires
        0 <= i < s.len(),
        s[i] == '.',
        forall|j: int| i < j < s.len() ==> s[j] != '.',
    ensures
        last_segment(s) == s.subrange(i + 1, s.len() as int),
    decreases s.len(),
{
    if s.len() - 1 == i {
        assert(s.subrange(i + 1, s.len() as int) =~= Seq::<char>::empty());
    } else {
        let t = s.drop_last();
        lemma_last_segment_after_dot(t, i);
        assert(s.subrange(i + 1, s.len() as int) =~= t.subrange(i + 1, t.len() as int).push(s.last()));
    }
}

/// A subject without any dot is its own last segment.
pub proof fn lemma_last_segment_no_dot(s: Seq<char>)
    requires
        forall|j: int| 0 <= j < s.len() ==> s[j] != '.',
    ensures
        last_segment(s) == s,
    decreases s.len(),
{
    if s.len() > 0 {
        let t = s.drop_last();
        lemma_last_segment_no_dot(t);
        assert(t.push(s.last()) =~= s);
    }
}

/// Correlation law: for any subject `a.b.c.d.x` whose segments hold no dot, the
/// extracted request identifier is `x` when `x` is non-empty, and there is none
/// (the message is dropped) when `x` is empty.
pub proof fn lemma_request_id_of_five_segments(
    a: Seq<char>,
    b: Seq<char>,
    c: Seq<char>,
    d: Seq<char>,
    x: Seq<char>,
)
    requires
        !x.contains('.'),
    ensures
        x.len() > 0 ==> request_id_of(a + "."@ + b + "."@ + c + "."@ + d + "."@ + x) == Some(x),
        x.len() == 0 ==> request_id_of(a + "."@ + b + "."@ + c + "."@ + d + "."@ + x) is None,
{
    reveal_strlit(".");
    let p = a + "."@ + b + "."@ + c + "."@ + d + "."@;
    let s = p + x;
    let i = p.len() - 1;
    assert(p[i] == '.');
    assert(s[i] == p[i]);
    assert forall|j: int| i < j < s.len() implies s[j] != '.' by {
        assert(s[j] == x[j - p.len()]);
    }
    lemma_last_segment_after_dot(s, i);
    assert(s.subrange(i + 1, s.len() as int) =~= x);
}

/// The request identifier that ends `subject`, or `None` where its last
/// segment is empty.
pub fn request_id(subject: &str) -> (r: Option<String>)
    ensures
        r is None <==> request_id_of(subject@) is None,
        r matches Some(id) ==> request_id_of(subject@) == Some(id@),
{
    let n = subject.unicode_len();
    let mut i: usize = n;
    let mut found = false;
    while i > 0 && !found
        invariant
            n == subject@.len(),
            i <= n,
            found ==> i > 0 && subject@[i - 1] == '.',
            forall|j: int| i <= j < n ==> subject@[j] != '.',
        decreases i + (if found { 0int } else { 1int }),
    {
        if subject.get_char(i - 1) == '.' {
            found = true;
        } else {
            i = i - 1;
        }
    }
    proof {
        if i > 0 {
            lemma_last_segment_after_dot(subject@, i - 1);
        } else {
            lemma_last_segment_no_dot(subject@);
            assert(subject@.subrange(0, n as int) =~= subject@);
        }
    }
    if i == n {
        None
    } else {
        Some(String::from_str(subject.substring_char(i, n)))
    }
}

/// The subject on which the response to `request_id` is published.
pub fn response_subject(project: &str, name: &str, variant: &str, request_id: &str) -> (r: String)
    ensures
        r@ == response_subject_of(project@, name@, variant@, request_id@),
{
    String::from_str(project).concat(".").concat(name).concat(".res.").concat(variant).concat(
        ".",
    ).concat(request_id)
}

/// The subject pattern on which this function's invocations arrive.
pub fn exec_subject(project: &str, name: &str, variant: &str) -> (r: String)
    ensures
        r@ == exec_subject_of(project@, name@, variant@),
{
    String::from_str(project).concat(".").concat(name).concat(".exec.").concat(variant).concat(
        ".*",
    )
}

/// The subjects that the project's durable stream captures.
pub fn stream_subjects(project: &str) -> (r: String)
    ensures
        r@ == stream_subjects_of(project@),
{
    String::from_str(project).concat(".>")
}

/// The name of this function's durable consumer.
pub fn consumer_name(project: &str, name: &str) -> (r: String)
    ensures
        r@ == consumer_name_of(project@, name@),
{
    String::from_str(project).concat("-").concat(name)
}

} // verus!
