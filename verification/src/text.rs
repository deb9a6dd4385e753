//! Text utilities for the job list format: splitting the file into lines,
//! trimming surrounding whitespace, and recognising `[instance]` marker lines.

use vstd::prelude::*;

verus! {

/// The whitespace characters that trimming removes.
pub open spec fn is_space(c: char) -> bool {
    c == ' ' || c == '\t' || c == '\r' || c == '\n' || c == '\u{0b}' || c == '\u{0c}'
}

fn is_space_char(c: char) -> (r: bool)
    ensures
        r == is_space(c),
{
    c == ' ' || c == '\t' || c == '\r' || c == '\n' || c == '\u{0b}' || c == '\u{0c}'
}

/// The sequence with its leading whitespace removed.
pub open spec fn trim_start_spec(s: Seq<char>) -> Seq<char>
    decreases s.len(),
{
    if s.len() > 0 && is_space(s[0]) {
        trim_start_spec(s.drop_first())
    } else {
        s
    }
}

/// The sequence with its trailing whitespace removed.
pub open spec fn trim_end_spec(s: Seq<char>) -> Seq<char>
    decreases s.len(),
{
    if s.len() > 0 && is_space(s[s.len() - 1]) {
        trim_end_spec(s.drop_last())
    } else {
        s
    }
}

/// The sequence with whitespace removed at both ends.
pub open spec fn trim_spec(s: Seq<char>) -> Seq<char> {
    trim_end_spec(trim_start_spec(s))
}

proof fn lemma_trim_start_subrange(s: Seq<char>, i: int)
    requires
        0 <= i <= s.len(),
        forall|k: int| 0 <= k < i ==> is_space(s[k]),
        i == s.len() || !is_space(s[i]),
    ensures
        trim_start_spec(s) == s.subrange(i, s.len() as int),
    decreases i,
{
    if i == 0 {
        assert(s.subrange(0, s.len() as int) =~= s);
    } else {
        let t = s.drop_first();
        assert(forall|k: int| 0 <= k < i - 1 ==> is_space(#[trigger] t[k]));
        lemma_trim_start_subrange(t, i - 1);
        assert(t.subrange(i - 1, t.len() as int) =~= s.subrange(i, s.len() as int));
    }
}

proof fn lemma_trim_end_subrange(s: Seq<char>, j: int)
    requires
        0 <= j <= s.len(),
        forall|k: int| j <= k < s.len() ==> is_space(s[k]),
        j == 0 || !is_space(s[j - 1]),
    ensures
        trim_end_spec(s) == s.subrange(0, j),
    decreases s.len() - j,
{
    if j == s.len() {
        assert(s.subrange(0, s.len() as int) =~= s);
    } else {
        let t = s.drop_last();
        assert(forall|k: int| j <= k < t.len() ==> is_space(#[trigger] t[k]));
        lemma_trim_end_subrange(t, j);
        assert(t.subrange(0, j) =~= s.subrange(0, j));
    }
}

/// The input with leading and trailing whitespace removed, as `trim_spec`
/// describes it.
pub fn trim(s: &str) -> (r: &str)
    ensures
        r@ == trim_spec(s@),
{
    let len = s.unicode_len();
    let mut i: usize = 0;
    while i < len && is_space_char(s.get_char(i))
        invariant
            len == s@.len(),
            0 <= i <= len,
            forall|k: int| 0 <= k < i ==> is_space(s@[k]),
        decreases len - i,
    {
        i = i + 1;
    }
    let mut j: usize = len;
    while j > i && is_space_char(s.get_char(j - 1))
        invariant
            len == s@.len(),
            i <= j <= len,
            forall|k: int| j <= k < len ==> is_space(s@[k]),
        decreases j,
    {
        j = j - 1;
    }
    let r = s.substring_char(i, j);
    proof {
        lemma_trim_start_subrange(s@, i as int);
        let mid = s@.subrange(i as int, len as int);
        assert(forall|k: int| j - i <= k < mid.len() ==> is_space(#[trigger] mid[k]));
        lemma_trim_end_subrange(mid, j - i);
        assert(mid.subrange(0, j - i) =~= s@.subrange(i as int, j as int));
    }
    r
}

/// Character-wise string equality, usable where the standard comparison has
/// no specification.
pub fn str_eq(a: &str, b: &str) -> (r: bool)
    ensures
        r == (a@ == b@),
{
    let la = a.unicode_len();
    let lb = b.unicode_len();
    if la != lb {
        return false;
    }
    let mut i: usize = 0;
    while i < la
        invariant
            la == a@.len(),
            la == b@.len(),
            0 <= i <= la,
            forall|k: int| 0 <= k < i ==> a@[k] == b@[k],
        decreases la - i,
    {
        if a.get_char(i) != b.get_char(i) {
            return false;
        }
        i = i + 1;
    }
    proof {
        assert(a@ =~= b@);
    }
    true
}

/// An element-wise copy of a list of key/value string pairs.
pub fn clone_pairs(m: &Vec<(String, String)>) -> (r: Vec<(String, String)>)
    ensures
        r@ == m@,
{
    let mut r: Vec<(String, String)> = Vec::new();
    let mut i: usize = 0;
    while i < m.len()
        invariant
            0 <= i <= m@.len(),
            r@ == m@.subrange(0, i as int),
        decreases m@.len() - i,
    {
        let p = &m[i];
        r.push((p.0.clone(), p.1.clone()));
        proof {
            assert((m@[i as int].0, m@[i as int].1) == m@[i as int]);
            assert(r@ =~= m@.subrange(0, i as int + 1));
        }
        i = i + 1;
    }
    proof {
        assert(m@.subrange(0, m@.len() as int) =~= m@);
    }
    r
}

/// Whether a trimmed line is an instance marker: `[` ... `]`.
pub open spec fn is_marker(t: Seq<char>) -> bool {
    t.len() >= 2 && t[0] == '[' && t[t.len() - 1] == ']'
}

/// The instance name an instance marker carries (the text between the
/// brackets).
pub open spec fn marker_name(t: Seq<char>) -> Seq<char> {
    t.subrange(1, t.len() - 1)
}

/// Recognises an instance marker line and extracts the instance name.
pub fn parse_marker(t: &str) -> (r: Option<String>)
    ensures
        match r {
            Some(name) => is_marker(t@) && name@ == marker_name(t@),
            None => !is_marker(t@),
        },
{
    let len = t.unicode_len();
    if len >= 2 && t.get_char(0) == '[' && t.get_char(len - 1) == ']' {
        Some(String::from_str(t.substring_char(1, len - 1)))
    } else {
        None
    }
}

/// The lines of `s` once the accumulated partial line `cur` is prepended:
/// splitting on `'\n'`, so that a trailing newline yields a final empty line.
pub open spec fn split_lines_from(s: Seq<char>, cur: Seq<char>) -> Seq<Seq<char>>
    decreases s.len(),
{
    if s.len() == 0 {
        seq![cur]
    } else if s[0] == '\n' {
        seq![cur] + split_lines_from(s.drop_first(), Seq::empty())
    } else {
        split_lines_from(s.drop_first(), cur.push(s[0]))
    }
}

/// The lines of `s`, split on `'\n'`.
pub open spec fn split_lines_spec(s: Seq<char>) -> Seq<Seq<char>> {
    split_lines_from(s, Seq::empty())
}

/// Splits the input on `'\n'`, exactly as `split_lines_spec` describes.
pub fn split_lines(s: &str) -> (r: Vec<String>)
    ensures
        r.deep_view() == split_lines_spec(s@),
{
    let len = s.unicode_len();
    let mut out: Vec<String> = Vec::new();
    let mut start: usize = 0;
    let mut i: usize = 0;
    proof {
        assert(s@.subrange(0, len as int) =~= s@);
        assert(s@.subrange(0, 0) =~= Seq::<char>::empty());
        assert(out.deep_view() =~= Seq::<Seq<char>>::empty());
        assert(Seq::<Seq<char>>::empty() + split_lines_spec(s@) =~= split_lines_spec(s@));
    }
    while i < len
        invariant
            len == s@.len(),
            0 <= start <= i <= len,
            split_lines_spec(s@) == out.deep_view() + split_lines_from(
                s@.subrange(i as int, len as int),
                s@.subrange(start as int, i as int),
            ),
        decreases len - i,
    {
        let ghost sub_i = s@.subrange(i as int, len as int);
        let ghost cur = s@.subrange(start as int, i as int);
        let ghost prev_out = out.deep_view();
        let ghost rest = sub_i.drop_first();
        proof {
            assert(sub_i[0] == s@[i as int]);
            assert(rest =~= s@.subrange(i as int + 1, len as int));
        }
        let c = s.get_char(i);
        if c == '\n' {
            let line = String::from_str(s.substring_char(start, i));
            out.push(line);
            proof {
                assert(split_lines_from(sub_i, cur) == seq![cur] + split_lines_from(
                    rest,
                    Seq::empty(),
                ));
                assert(out.deep_view() =~= prev_out.push(cur));
                assert(prev_out + (seq![cur] + split_lines_from(rest, Seq::empty())) =~= prev_out.push(
                    cur,
                ) + split_lines_from(rest, Seq::empty()));
                assert(s@.subrange(i as int + 1, i as int + 1) =~= Seq::<char>::empty());
            }
            start = i + 1;
        } else {
            proof {
                assert(cur.push(sub_i[0]) =~= s@.subrange(start as int, i as int + 1));
                assert(split_lines_from(sub_i, cur) == split_lines_from(rest, cur.push(sub_i[0])));
            }
        }
        i = i + 1;
    }
    let ghost cur = s@.subrange(start as int, len as int);
    let ghost prev_out = out.deep_view();
    let last = String::from_str(s.substring_char(start, len));
    out.push(last);
    proof {
        let tail = s@.subrange(len as int, len as int);
        assert(tail =~= Seq::<char>::empty());
        assert(split_lines_from(tail, cur) == seq![cur]);
        assert(out.deep_view() =~= prev_out.push(cur));
        assert(prev_out + seq![cur] =~= prev_out.push(cur));
    }
    out
}

} // verus!
