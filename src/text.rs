//! Character-level helpers shared by the parsers of this crate.
use vstd::prelude::*;
use vstd::std_specs::iter::IteratorSpec;

verus! {

/// The characters of `s`, in order.
pub(crate) fn chars_of(s: &str) -> (r: Vec<char>)
    ensures
        r@ == s@,
{
    broadcast use vstd::string::group_string_axioms, vstd::string::next_postcondition;

    let mut it = s.chars();
    let mut r: Vec<char> = Vec::new();
    loop
        invariant
            it.obeys_prophetic_iter_laws(),
            r@ + it.remaining() == s@,
        ensures
            r@ == s@,
        decreases s@.len() - r@.len(),
    {
        let ghost rem = it.remaining();
        match it.next() {
            Some(c) => {
                let ghost before = r@;
                r.push(c);
                assert(r@ + it.remaining() =~= before + rem);
            },
            None => {
                break;
            },
        }
    }
    r
}

/// Relies on `String: FromIterator<&char>`: the string made of the characters of `v`, in order.
#[verifier::external_body]
pub(crate) fn string_of(v: &Vec<char>) -> (r: String)
    ensures
        r@ == v@,
{
    v.iter().collect()
}

/// Characters that `char::is_whitespace` accepts (the Unicode `White_Space` property).
pub open spec fn is_space(c: char) -> bool {
    let u = c as u32;
    (0x09 <= u && u <= 0x0d) || u == 0x20 || u == 0x85 || u == 0xa0 || u == 0x1680 || (0x2000
        <= u && u <= 0x200a) || u == 0x2028 || u == 0x2029 || u == 0x202f || u == 0x205f || u
        == 0x3000
}

pub fn space_char(c: char) -> (r: bool)
    ensures
        r == is_space(c),
{
    let u = c as u32;
    (0x09 <= u && u <= 0x0d) || u == 0x20 || u == 0x85 || u == 0xa0 || u == 0x1680 || (0x2000
        <= u && u <= 0x200a) || u == 0x2028 || u == 0x2029 || u == 0x202f || u == 0x205f || u
        == 0x3000
}

/// Index of the first character of `s` that is not white space (`s.len()` if there is none).
pub open spec fn trim_start_index(s: Seq<char>) -> int
    decreases s.len(),
{
    if s.len() == 0 || !is_space(s[0]) {
        0
    } else {
        1 + trim_start_index(s.skip(1))
    }
}

/// Length of `s` once its trailing white space is removed.
pub open spec fn trim_end_len(s: Seq<char>) -> int
    decreases s.len(),
{
    if s.len() == 0 || !is_space(s.last()) {
        s.len() as int
    } else {
        trim_end_len(s.drop_last())
    }
}

/// `s` without white space at either end, as `str::trim` gives it.
pub open spec fn trimmed(s: Seq<char>) -> Seq<char> {
    let t = s.skip(trim_start_index(s));
    t.take(trim_end_len(t))
}

proof fn lemma_trim_start_bounds(s: Seq<char>)
    ensures
        0 <= trim_start_index(s) <= s.len(),
    decreases s.len(),
{
    if s.len() > 0 && is_space(s[0]) {
        lemma_trim_start_bounds(s.skip(1));
    }
}

/// The characters of `s` without white space at either end.
pub fn trim_chars(s: &Vec<char>) -> (r: Vec<char>)
    ensures
        r@ == trimmed(s@),
{
    let n = s.len();
    let mut start: usize = 0;
    proof {
        lemma_trim_start_bounds(s@);
        assert(s@.skip(0) =~= s@);
    }
    while start < n && space_char(s[start])
        invariant
            0 <= start <= n == s@.len(),
            trim_start_index(s@) == start + trim_start_index(s@.skip(start as int)),
        decreases n - start,
    {
        proof {
            let t = s@.skip(start as int);
            assert(t.skip(1) =~= s@.skip(start + 1));
        }
        start = start + 1;
    }
    proof {
        let t = s@.skip(start as int);
        if start < n {
            assert(t[0] == s@[start as int]);
        }
    }
    let ghost t = s@.skip(start as int);
    let mut end: usize = n;
    while end > start && space_char(s[end - 1])
        invariant
            start <= end <= n == s@.len(),
            t == s@.skip(start as int),
            trim_end_len(t) == trim_end_len(s@.subrange(start as int, end as int)),
        decreases end,
    {
        proof {
            let u = s@.subrange(start as int, end as int);
            assert(u.drop_last() =~= s@.subrange(start as int, end - 1));
            assert(u.last() == s@[end - 1]);
        }
        end = end - 1;
    }
    proof {
        let u = s@.subrange(start as int, end as int);
        assert(u =~= t.take(end - start));
        if end > start {
            assert(u.last() == s@[end - 1]);
        }
        assert(trim_end_len(u) == end - start);
        assert(t.take(trim_end_len(t)) =~= u);
    }
    let mut r: Vec<char> = Vec::new();
    let mut i: usize = start;
    while i < end
        invariant
            start <= i <= end <= n == s@.len(),
            r@ =~= s@.subrange(start as int, i as int),
        decreases end - i,
    {
        r.push(s[i]);
        i = i + 1;
    }
    r
}

/// The first line of `s` as `str::lines` gives it: `None` for an empty text; otherwise the
/// characters before the first line feed, without one carriage return at their end.
pub open spec fn first_line(s: Seq<char>) -> Option<Seq<char>> {
    if s.len() == 0 {
        None
    } else {
        let k = line_end(s, 0);
        let l = s.take(k);
        if l.len() > 0 && l.last() == '\r' {
            Some(l.drop_last())
        } else {
            Some(l)
        }
    }
}

/// Index of the first line feed of `s` at or after `i` (`s.len()` if there is none).
pub open spec fn line_end(s: Seq<char>, i: int) -> int
    decreases s.len() - i,
{
    if i >= s.len() {
        s.len() as int
    } else if s[i] == '\n' {
        i
    } else {
        line_end(s, i + 1)
    }
}

/// The first line of `s`, if `s` is not empty.
pub fn first_line_chars(s: &Vec<char>) -> (r: Option<Vec<char>>)
    ensures
        match first_line(s@) {
            None => r is None,
            Some(l) => r is Some && r->Some_0@ == l,
        },
{
    let n = s.len();
    if n == 0 {
        return None;
    }
    let mut k: usize = 0;
    while k < n && s[k] != '\n'
        invariant
            0 <= k <= n == s@.len(),
            line_end(s@, 0) == line_end(s@, k as int),
        decreases n - k,
    {
        k = k + 1;
    }
    let mut end = k;
    if end > 0 && s[end - 1] == '\r' {
        end = end - 1;
    }
    let mut r: Vec<char> = Vec::new();
    let mut i: usize = 0;
    while i < end
        invariant
            0 <= i <= end <= k <= n == s@.len(),
            r@ =~= s@.take(i as int),
        decreases end - i,
    {
        r.push(s[i]);
        i = i + 1;
    }
    proof {
        let l = s@.take(k as int);
        if l.len() > 0 {
            assert(l.last() == s@[k - 1]);
        }
        if k > 0 {
            assert(l.drop_last() =~= s@.take(k - 1));
        }
    }
    Some(r)
}

/// Whether `p` occurs in `s` at index `at`.
pub open spec fn occurs_at(s: Seq<char>, at: int, p: Seq<char>) -> bool {
    0 <= at && at + p.len() <= s.len() && s.subrange(at, at + p.len()) == p
}

pub fn matches_at(s: &Vec<char>, at: usize, p: &Vec<char>) -> (r: bool)
    ensures
        r == occurs_at(s@, at as int, p@),
{
    if at > s.len() || p.len() > s.len() - at {
        return false;
    }
    let n = s.len();
    let mut i: usize = 0;
    while i < p.len()
        invariant
            0 <= i <= p@.len(),
            n == s@.len(),
            at + p@.len() <= s@.len(),
            s@.subrange(at as int, at + i) =~= p@.take(i as int),
        decreases p@.len() - i,
    {
        assert(at + i < s@.len());
        if s[at + i] != p[i] {
            proof {
                assert(s@.subrange(at as int, at + p@.len())[i as int] != p@[i as int]);
            }
            return false;
        }
        i = i + 1;
    }
    proof {
        assert(p@.take(p@.len() as int) =~= p@);
    }
    true
}

/// Whether `p` is a suffix of `s`.
pub open spec fn has_suffix(s: Seq<char>, p: Seq<char>) -> bool {
    p.len() <= s.len() && s.skip(s.len() - p.len()) == p
}

pub fn ends_with(s: &Vec<char>, p: &Vec<char>) -> (r: bool)
    ensures
        r == has_suffix(s@, p@),
{
    if p.len() > s.len() {
        return false;
    }
    let r = matches_at(s, s.len() - p.len(), p);
    proof {
        assert(s@.subrange(s@.len() - p@.len(), s@.len() as int) =~= s@.skip(
            s@.len() - p@.len(),
        ));
    }
    r
}

/// Whether `p` occurs anywhere in `s`.
pub open spec fn contains_seq(s: Seq<char>, p: Seq<char>) -> bool {
    exists|at: int| occurs_at(s, at, p)
}

pub fn contains(s: &Vec<char>, p: &Vec<char>) -> (r: bool)
    ensures
        r == contains_seq(s@, p@),
{
    if p.len() > s.len() {
        return false;
    }
    if p.len() == 0 {
        assert(occurs_at(s@, 0, p@)) by {
            assert(s@.subrange(0, 0) =~= p@);
        }
        return true;
    }
    let n = s.len();
    let mut at: usize = 0;
    while at <= n - p.len()
        invariant
            n == s@.len(),
            0 < p@.len() <= s@.len(),
            0 <= at <= s@.len() - p@.len() + 1,
            forall|j: int| 0 <= j < at ==> !occurs_at(s@, j, p@),
        decreases s@.len() - p@.len() + 1 - at,
    {
        if matches_at(s, at, p) {
            return true;
        }
        at = at + 1;
    }
    false
}

/// The characters of `a` followed by those of `b`.
pub fn concat(a: &Vec<char>, b: &Vec<char>) -> (r: Vec<char>)
    ensures
        r@ == a@ + b@,
{
    let mut r = a.clone();
    let mut i: usize = 0;
    while i < b.len()
        invariant
            0 <= i <= b@.len(),
            r@ =~= a@ + b@.take(i as int),
        decreases b@.len() - i,
    {
        r.push(b[i]);
        i = i + 1;
    }
    proof {
        assert(b@.take(b@.len() as int) =~= b@);
    }
    r
}

/// The two texts one after another.
pub fn cat2(a: &str, b: &str) -> (r: String)
    ensures
        r@ == a@ + b@,
{
    string_of(&concat(&chars_of(a), &chars_of(b)))
}

/// The three texts one after another.
pub fn cat3(a: &str, b: &str, c: &str) -> (r: String)
    ensures
        r@ == a@ + b@ + c@,
{
    let ab = concat(&chars_of(a), &chars_of(b));
    string_of(&concat(&ab, &chars_of(c)))
}

/// Strict lexicographic order on character sequences, as `str`'s `<` orders them.
pub open spec fn seq_lt(a: Seq<char>, b: Seq<char>) -> bool
    decreases a.len(),
{
    if a.len() == 0 {
        b.len() > 0
    } else if b.len() == 0 {
        false
    } else if a[0] != b[0] {
        a[0] < b[0]
    } else {
        seq_lt(a.skip(1), b.skip(1))
    }
}

pub proof fn lemma_seq_lt_irreflexive(a: Seq<char>)
    ensures
        !seq_lt(a, a),
    decreases a.len(),
{
    if a.len() > 0 {
        lemma_seq_lt_irreflexive(a.skip(1));
    }
}

pub proof fn lemma_seq_lt_total(a: Seq<char>, b: Seq<char>)
    ensures
        a == b || seq_lt(a, b) || seq_lt(b, a),
    decreases a.len(),
{
    if a.len() > 0 && b.len() > 0 && a[0] == b[0] {
        lemma_seq_lt_total(a.skip(1), b.skip(1));
        if a.skip(1) == b.skip(1) {
            assert(a =~= seq![a[0]] + a.skip(1));
            assert(b =~= seq![b[0]] + b.skip(1));
        }
    } else if a.len() == 0 && b.len() == 0 {
        assert(a =~= b);
    }
}

pub proof fn lemma_seq_lt_asymmetric(a: Seq<char>, b: Seq<char>)
    ensures
        !(seq_lt(a, b) && seq_lt(b, a)),
    decreases a.len(),
{
    if a.len() > 0 && b.len() > 0 && a[0] == b[0] {
        lemma_seq_lt_asymmetric(a.skip(1), b.skip(1));
    }
}

pub proof fn lemma_seq_lt_transitive(a: Seq<char>, b: Seq<char>, c: Seq<char>)
    requires
        seq_lt(a, b),
        seq_lt(b, c),
    ensures
        seq_lt(a, c),
    decreases a.len(),
{
    if a.len() > 0 && b.len() > 0 && c.len() > 0 && a[0] == b[0] && b[0] == c[0] {
        lemma_seq_lt_transitive(a.skip(1), b.skip(1), c.skip(1));
    }
}

/// Whether `a` sorts strictly before `b`.
pub fn chars_lt(a: &Vec<char>, b: &Vec<char>) -> (r: bool)
    ensures
        r == seq_lt(a@, b@),
{
    let mut i: usize = 0;
    proof {
        assert(a@.skip(0) =~= a@);
        assert(b@.skip(0) =~= b@);
    }
    while i < a.len() && i < b.len() && a[i] == b[i]
        invariant
            0 <= i <= a@.len(),
            i <= b@.len(),
            seq_lt(a@, b@) == seq_lt(a@.skip(i as int), b@.skip(i as int)),
        decreases a@.len() - i,
    {
        proof {
            assert(a@.skip(i as int).skip(1) =~= a@.skip(i + 1));
            assert(b@.skip(i as int).skip(1) =~= b@.skip(i + 1));
        }
        i = i + 1;
    }
    if i == a.len() {
        i < b.len()
    } else if i == b.len() {
        false
    } else {
        proof {
            assert(a@.skip(i as int)[0] == a@[i as int]);
            assert(b@.skip(i as int)[0] == b@[i as int]);
        }
        a[i] < b[i]
    }
}

} // verus!
