//! Toolchain descriptors: their grammar, their display form, and the directory names that
//! encode them.
use crate::errors::ElanError;
use crate::text::{chars_of, string_of};
use vstd::prelude::*;

verus! {

/// The canonical identity of a toolchain.
#[derive(Debug, Clone, PartialEq, Eq)]
pub enum ToolchainDesc {
    /// A linked toolchain, known by the name it was linked under.
    Local { name: String },
    /// A released toolchain of a source repository.
    Remote {
        /// The repository, `owner/repo`.
        origin: String,
        /// The release tag.
        release: String,
        /// The channel the release was resolved from, if any.
        from_channel: Option<String>,
    },
}

/// A descriptor whose release may still be a channel or the `lean-toolchain` sentinel.
#[derive(Debug, Clone, PartialEq, Eq)]
pub struct UnresolvedToolchainDesc(pub ToolchainDesc);

/// The mathematical value of a [`ToolchainDesc`].
pub enum DescView {
    Local { name: Seq<char> },
    Remote { origin: Seq<char>, release: Seq<char>, from_channel: Option<Seq<char>> },
}

/// The characters of an optional string.
pub open spec fn opt_view(s: Option<String>) -> Option<Seq<char>> {
    match s {
        Some(t) => Some(t@),
        None => None,
    }
}

impl View for ToolchainDesc {
    type V = DescView;

    open spec fn view(&self) -> DescView {
        match self {
            ToolchainDesc::Local { name } => DescView::Local { name: name@ },
            ToolchainDesc::Remote { origin, release, from_channel } => DescView::Remote {
                origin: origin@,
                release: release@,
                from_channel: opt_view(*from_channel),
            },
        }
    }
}

impl View for UnresolvedToolchainDesc {
    type V = DescView;

    open spec fn view(&self) -> DescView {
        self.0@
    }
}

/// The identity of a descriptor: the channel it came from is forgotten.
pub open spec fn identity(d: DescView) -> DescView {
    match d {
        DescView::Local { name } => DescView::Local { name },
        DescView::Remote { origin, release, .. } => DescView::Remote {
            origin,
            release,
            from_channel: None,
        },
    }
}

/// The display form: the bare name of a linked toolchain, `origin:release` otherwise.
pub open spec fn display(d: DescView) -> Seq<char> {
    match d {
        DescView::Local { name } => name,
        DescView::Remote { origin, release, .. } => origin + seq![':'] + release,
    }
}

pub open spec fn is_alnum(c: char) -> bool {
    ('a' <= c && c <= 'z') || ('A' <= c && c <= 'Z') || ('0' <= c && c <= '9')
}

/// Characters allowed in a release tag or a local name.
pub open spec fn release_char(c: char) -> bool {
    is_alnum(c) || c == '-' || c == '.'
}

/// Characters allowed in either half of an origin; names typed by users also allow `_`.
pub open spec fn origin_char(c: char, underscore: bool) -> bool {
    is_alnum(c) || c == '-' || (underscore && c == '_')
}

pub open spec fn release_ok(s: Seq<char>) -> bool {
    s.len() > 0 && forall|i: int| 0 <= i < s.len() ==> release_char(#[trigger] s[i])
}

pub open spec fn part_ok(s: Seq<char>, underscore: bool) -> bool {
    s.len() > 0 && forall|i: int| 0 <= i < s.len() ==> origin_char(#[trigger] s[i], underscore)
}

/// `o` is `owner/repo` with its slash at `j`.
pub open spec fn origin_split(o: Seq<char>, j: int, underscore: bool) -> bool {
    0 <= j < o.len() && o[j] == '/' && part_ok(o.take(j), underscore) && part_ok(
        o.skip(j + 1),
        underscore,
    )
}

pub open spec fn origin_ok(o: Seq<char>, underscore: bool) -> bool {
    exists|j: int| origin_split(o, j, underscore)
}

/// `s` is `origin:release` with its colon at `k`.
pub open spec fn name_split(s: Seq<char>, k: int, underscore: bool) -> bool {
    0 <= k < s.len() && s[k] == ':' && origin_ok(s.take(k), underscore) && release_ok(
        s.skip(k + 1),
    )
}

/// The grammar `[origin ':'] release`: the origin given, if any, and the release.
pub open spec fn parse_name(s: Seq<char>, underscore: bool) -> Option<
    (Option<Seq<char>>, Seq<char>),
> {
    if release_ok(s) {
        Some((None, s))
    } else if exists|k: int| name_split(s, k, underscore) {
        let k = choose|k: int| name_split(s, k, underscore);
        Some((Some(s.take(k)), s.skip(k + 1)))
    } else {
        None
    }
}

/// The descriptor that a fully resolved name stands for.
pub open spec fn parse_desc(s: Seq<char>) -> Option<DescView> {
    match parse_name(s, false) {
        None => None,
        Some((None, r)) => Some(DescView::Local { name: r }),
        Some((Some(o), r)) => Some(DescView::Remote { origin: o, release: r, from_channel: None }),
    }
}

/// Whether a descriptor is written in the resolved grammar.
pub open spec fn well_formed(d: DescView) -> bool {
    match d {
        DescView::Local { name } => release_ok(name),
        DescView::Remote { origin, release, .. } => origin_ok(origin, false) && release_ok(
            release,
        ),
    }
}

proof fn lemma_part_no_slash(s: Seq<char>, u: bool)
    requires
        part_ok(s, u),
    ensures
        forall|i: int| 0 <= i < s.len() ==> s[i] != '/' && s[i] != ':',
{
    assert forall|i: int| 0 <= i < s.len() implies s[i] != '/' && s[i] != ':' by {
        assert(origin_char(s[i], u));
    }
}

proof fn lemma_origin_no_colon(o: Seq<char>, u: bool)
    requires
        origin_ok(o, u),
    ensures
        forall|i: int| 0 <= i < o.len() ==> o[i] != ':',
{
    let j = choose|j: int| origin_split(o, j, u);
    lemma_part_no_slash(o.take(j), u);
    lemma_part_no_slash(o.skip(j + 1), u);
    assert forall|i: int| 0 <= i < o.len() implies o[i] != ':' by {
        if i < j {
            assert(o.take(j)[i] == o[i]);
        } else if i > j {
            assert(o.skip(j + 1)[i - j - 1] == o[i]);
        }
    }
}

proof fn lemma_name_split_unique(s: Seq<char>, k1: int, k2: int, u: bool)
    requires
        name_split(s, k1, u),
        name_split(s, k2, u),
    ensures
        k1 == k2,
{
    lemma_origin_no_colon(s.take(k1), u);
    lemma_origin_no_colon(s.take(k2), u);
    if k1 < k2 {
        assert(s.take(k2)[k1] == s[k1]);
    } else if k2 < k1 {
        assert(s.take(k1)[k2] == s[k2]);
    }
}

fn is_release_char(c: char) -> (r: bool)
    ensures
        r == release_char(c),
{
    ('a' <= c && c <= 'z') || ('A' <= c && c <= 'Z') || ('0' <= c && c <= '9') || c == '-' || c
        == '.'
}

fn is_origin_char(c: char, underscore: bool) -> (r: bool)
    ensures
        r == origin_char(c, underscore),
{
    ('a' <= c && c <= 'z') || ('A' <= c && c <= 'Z') || ('0' <= c && c <= '9') || c == '-' || (
    underscore && c == '_')
}

/// Whether `s[from..to]` is a non-empty run of release characters.
fn release_run(s: &Vec<char>, from: usize, to: usize) -> (r: bool)
    requires
        from <= to <= s@.len(),
    ensures
        r == release_ok(s@.subrange(from as int, to as int)),
{
    let ghost t = s@.subrange(from as int, to as int);
    let mut i = from;
    while i < to
        invariant
            from <= i <= to <= s@.len(),
            t == s@.subrange(from as int, to as int),
            forall|k: int| from <= k < i ==> release_char(#[trigger] s@[k]),
        decreases to - i,
    {
        if !is_release_char(s[i]) {
            assert(t[i - from] == s@[i as int]);
            return false;
        }
        i = i + 1;
    }
    assert forall|k: int| 0 <= k < t.len() implies release_char(#[trigger] t[k]) by {
        assert(t[k] == s@[from + k]);
    }
    from < to
}

/// Whether `s[from..to]` is a non-empty run of origin characters.
fn part_run(s: &Vec<char>, from: usize, to: usize, underscore: bool) -> (r: bool)
    requires
        from <= to <= s@.len(),
    ensures
        r == part_ok(s@.subrange(from as int, to as int), underscore),
{
    let ghost t = s@.subrange(from as int, to as int);
    let mut i = from;
    while i < to
        invariant
            from <= i <= to <= s@.len(),
            t == s@.subrange(from as int, to as int),
            forall|k: int| from <= k < i ==> origin_char(#[trigger] s@[k], underscore),
        decreases to - i,
    {
        if !is_origin_char(s[i], underscore) {
            assert(t[i - from] == s@[i as int]);
            return false;
        }
        i = i + 1;
    }
    assert forall|k: int| 0 <= k < t.len() implies origin_char(#[trigger] t[k], underscore) by {
        assert(t[k] == s@[from + k]);
    }
    from < to
}

/// Index of the first `c` in `s[from..to]`, or `to`.
fn find_char(s: &Vec<char>, from: usize, to: usize, c: char) -> (r: usize)
    requires
        from <= to <= s@.len(),
    ensures
        from <= r <= to,
        forall|i: int| from <= i < r ==> s@[i] != c,
        r < to ==> s@[r as int] == c,
{
    let mut i = from;
    while i < to && s[i] != c
        invariant
            from <= i <= to <= s@.len(),
            forall|k: int| from <= k < i ==> s@[k] != c,
        decreases to - i,
    {
        i = i + 1;
    }
    i
}

/// The characters `s[from..to]`.
pub(crate) fn slice_chars(s: &Vec<char>, from: usize, to: usize) -> (r: Vec<char>)
    requires
        from <= to <= s@.len(),
    ensures
        r@ == s@.subrange(from as int, to as int),
{
    let mut r: Vec<char> = Vec::new();
    let mut i = from;
    while i < to
        invariant
            from <= i <= to <= s@.len(),
            r@ =~= s@.subrange(from as int, i as int),
        decreases to - i,
    {
        r.push(s[i]);
        i = i + 1;
    }
    r
}

pub open spec fn opt_chars(s: Option<Vec<char>>) -> Option<Seq<char>> {
    match s {
        Some(t) => Some(t@),
        None => None,
    }
}

/// Splits a toolchain name into its origin, if one is given, and its release.
pub(crate) fn split_name(s: &Vec<char>, underscore: bool) -> (r: Option<
    (Option<Vec<char>>, Vec<char>),
>)
    ensures
        match parse_name(s@, underscore) {
            None => r is None,
            Some((o, rel)) => r is Some && opt_chars(r->Some_0.0) == o && r->Some_0.1@ == rel,
        },
{
    let n = s.len();
    let k = find_char(s, 0, n, ':');
    if k == n {
        proof {
            assert(s@.subrange(0, n as int) =~= s@);
            assert forall|k2: int| !name_split(s@, k2, underscore) by {
                if 0 <= k2 < n {
                    assert(s@[k2] != ':');
                }
            }
        }
        if release_run(s, 0, n) {
            return Some((None, s.clone()));
        } else {
            return None;
        }
    }
    proof {
        assert(!release_char(s@[k as int]));
        assert(!release_ok(s@));
    }
    let j = find_char(s, 0, k, '/');
    let ok = j < k && part_run(s, 0, j, underscore) && part_run(s, j + 1, k, underscore)
        && release_run(s, k + 1, n);
    proof {
        let o = s@.take(k as int);
        assert(s@.subrange(k + 1, n as int) =~= s@.skip(k + 1));
        if j < k {
            assert(o.take(j as int) =~= s@.subrange(0, j as int));
            assert(o.skip(j + 1) =~= s@.subrange(j + 1, k as int));
        }
        if ok {
            assert(origin_split(o, j as int, underscore));
            assert(name_split(s@, k as int, underscore));
            let k2 = choose|k2: int| name_split(s@, k2, underscore);
            lemma_name_split_unique(s@, k as int, k2, underscore);
        } else {
            assert forall|k2: int| !name_split(s@, k2, underscore) by {
                if name_split(s@, k2, underscore) {
                    lemma_origin_no_colon(s@.take(k2), underscore);
                    if k2 > k {
                        assert(s@.take(k2)[k as int] == s@[k as int]);
                    }
                    assert(k2 == k);
                    let j2 = choose|j2: int| origin_split(o, j2, underscore);
                    lemma_part_no_slash(o.take(j2), underscore);
                    if j2 > j {
                        assert(o.take(j2)[j as int] == o[j as int]);
                    }
                    assert(o[j2] == s@[j2]);
                    assert(j2 == j);
                }
            }
        }
    }
    if ok {
        let origin = slice_chars(s, 0, k);
        let release = slice_chars(s, k + 1, n);
        proof {
            assert(origin@ =~= s@.take(k as int));
            assert(release@ =~= s@.skip(k + 1));
        }
        Some((Some(origin), release))
    } else {
        None
    }
}

/// One character of a directory name: `/` becomes `--` and `:` becomes `---`.
pub open spec fn encode_char(c: char) -> Seq<char> {
    if c == '/' {
        seq!['-', '-']
    } else if c == ':' {
        seq!['-', '-', '-']
    } else {
        seq![c]
    }
}

/// The directory name that stands for the display form `s`.
pub open spec fn encode_dir(s: Seq<char>) -> Seq<char>
    decreases s.len(),
{
    if s.len() == 0 {
        Seq::empty()
    } else {
        encode_dir(s.drop_last()) + encode_char(s.last())
    }
}

/// The display form read back from a directory name: each `---` becomes `:`, then each
/// remaining `--` becomes `/`, scanning from the left.
pub open spec fn decode_dir(s: Seq<char>) -> Seq<char>
    decreases s.len(),
{
    if s.len() == 0 {
        Seq::empty()
    } else if s.len() >= 3 && s[0] == '-' && s[1] == '-' && s[2] == '-' {
        seq![':'] + decode_dir(s.skip(3))
    } else if s.len() >= 2 && s[0] == '-' && s[1] == '-' {
        seq!['/'] + decode_dir(s.skip(2))
    } else {
        seq![s[0]] + decode_dir(s.skip(1))
    }
}

pub open spec fn special(c: char) -> bool {
    c == '-' || c == '/' || c == ':'
}

/// Of `-`, `/` and `:`, only `:` followed by `-` stand next to each other: such names survive
/// the encoding.
pub open spec fn dir_safe(s: Seq<char>) -> bool {
    forall|i: int|
        0 <= i < s.len() - 1 && special(#[trigger] s[i]) && special(s[i + 1]) ==> s[i] == ':'
            && s[i + 1] == '-'
}

pub proof fn lemma_encode_concat(a: Seq<char>, b: Seq<char>)
    ensures
        encode_dir(a + b) == encode_dir(a) + encode_dir(b),
    decreases b.len(),
{
    if b.len() == 0 {
        assert(a + b =~= a);
        assert(encode_dir(a) + encode_dir(b) =~= encode_dir(a));
    } else {
        assert((a + b).drop_last() =~= a + b.drop_last());
        assert((a + b).last() == b.last());
        lemma_encode_concat(a, b.drop_last());
        assert(encode_dir(a + b) =~= encode_dir(a) + encode_dir(b));
    }
}

proof fn lemma_encode_cons(c: char, rest: Seq<char>)
    ensures
        encode_dir(seq![c] + rest) == encode_char(c) + encode_dir(rest),
{
    lemma_encode_concat(seq![c], rest);
    assert(seq![c].drop_last() =~= Seq::<char>::empty());
    assert(seq![c].last() == c);
    assert(encode_dir(Seq::<char>::empty()) == Seq::<char>::empty());
    assert(encode_dir(seq![c]) =~= encode_char(c));
}

/// Encoding then decoding gives back every name in which, of `-`, `/` and `:`, only `:`
/// followed by `-` touch.
pub proof fn lemma_decode_encode(s: Seq<char>)
    requires
        dir_safe(s),
    ensures
        decode_dir(encode_dir(s)) == s,
    decreases s.len(),
{
    if s.len() == 0 {
        return;
    }
    let c = s[0];
    let rest = s.skip(1);
    assert(s =~= seq![c] + rest);
    assert(dir_safe(rest)) by {
        assert forall|i: int|
            0 <= i < rest.len() - 1 && special(#[trigger] rest[i]) && special(rest[i + 1]) implies rest[i]
            == ':' && rest[i + 1] == '-' by {
            assert(rest[i] == s[i + 1]);
            assert(rest[i + 1] == s[i + 2]);
        }
    }
    lemma_decode_encode(rest);
    lemma_encode_cons(c, rest);
    let x = encode_dir(s);
    let er = encode_dir(rest);
    assert(x == encode_char(c) + er);
    if rest.len() > 0 {
        assert(rest =~= seq![rest[0]] + rest.skip(1));
        lemma_encode_cons(rest[0], rest.skip(1));
        assert(s[1] == rest[0]);
        if special(c) && c != ':' {
            assert(!special(rest[0]));
            assert(er[0] == rest[0]);
        }
    }
    let k = encode_char(c).len();
    assert(x.skip(k as int) =~= er);
    if c == ':' {
        assert(decode_dir(x) == seq![':'] + decode_dir(x.skip(3)));
    } else if c == '/' {
        assert(decode_dir(x) == seq!['/'] + decode_dir(x.skip(2)));
    } else {
        assert(decode_dir(x) == seq![c] + decode_dir(x.skip(1)));
    }
    assert(decode_dir(x) =~= s);
}

/// A descriptor's identity survives being written out, encoded as a directory name, decoded
/// and parsed, whenever it is well formed and its display form is safe for the encoding.
pub proof fn lemma_dir_name_round_trip(d: DescView)
    requires
        well_formed(d),
        dir_safe(display(d)),
    ensures
        decode_dir(encode_dir(display(d))) == display(d),
        parse_desc(decode_dir(encode_dir(display(d)))) == Some(identity(d)),
{
    lemma_decode_encode(display(d));
    let s = display(d);
    if let DescView::Remote { origin, release, .. } = d {
        let k = origin.len() as int;
        assert(s[k] == ':');
        assert(!release_char(s[k]));
        assert(s.take(k) =~= origin);
        assert(s.skip(k + 1) =~= release);
        assert(name_split(s, k, false));
        let k2 = choose|k2: int| name_split(s, k2, false);
        lemma_name_split_unique(s, k, k2, false);
    }
}

impl ToolchainDesc {
    /// Parses a fully resolved name: `origin:release` or the name of a linked toolchain.
    pub fn from_resolved_str(name: &str) -> (r: Result<ToolchainDesc, ElanError>)
        ensures
            match parse_desc(name@) {
                Some(v) => r is Ok && r->Ok_0@ == v,
                None => r matches Err(ElanError::InvalidToolchainName(m)) && m@ == name@,
            },
    {
        let s = chars_of(name);
        Self::from_chars(&s, name)
    }

    fn from_chars(s: &Vec<char>, name: &str) -> (r: Result<ToolchainDesc, ElanError>)
        requires
            s@ == name@,
        ensures
            match parse_desc(s@) {
                Some(v) => r is Ok && r->Ok_0@ == v,
                None => r matches Err(ElanError::InvalidToolchainName(m)) && m@ == name@,
            },
    {
        match split_name(s, false) {
            Some((Some(origin), release)) => Ok(
                ToolchainDesc::Remote {
                    origin: string_of(&origin),
                    release: string_of(&release),
                    from_channel: None,
                },
            ),
            Some((None, release)) => Ok(ToolchainDesc::Local { name: string_of(&release) }),
            None => Err(ElanError::InvalidToolchainName(name.to_owned())),
        }
    }

    /// Reads a descriptor back from the name of its installation directory.
    pub fn from_toolchain_dir(dir_name: &str) -> (r: Result<ToolchainDesc, ElanError>)
        ensures
            match parse_desc(decode_dir(dir_name@)) {
                Some(v) => r is Ok && r->Ok_0@ == v,
                None => r matches Err(ElanError::InvalidToolchainName(m)) && m@ == decode_dir(
                    dir_name@,
                ),
            },
    {
        let s = chars_of(dir_name);
        let d = decode_chars(&s);
        let name = string_of(&d);
        Self::from_chars(&d, name.as_str())
    }

    /// The display form: `origin:release`, or the bare name of a linked toolchain.
    pub fn to_string(&self) -> (r: String)
        ensures
            r@ == display(self@),
    {
        string_of(&self.display_chars())
    }

    fn display_chars(&self) -> (r: Vec<char>)
        ensures
            r@ == display(self@),
    {
        match self {
            ToolchainDesc::Local { name } => chars_of(name.as_str()),
            ToolchainDesc::Remote { origin, release, .. } => {
                let mut v = chars_of(origin.as_str());
                v.push(':');
                let r = crate::text::concat(&v, &chars_of(release.as_str()));
                r
            },
        }
    }

    /// The name of the directory the toolchain is installed in.
    pub fn dir_name(&self) -> (r: String)
        ensures
            r@ == encode_dir(display(self@)),
    {
        let s = self.display_chars();
        string_of(&encode_chars(&s))
    }

    /// A copy of this descriptor.
    pub fn duplicate(&self) -> (r: ToolchainDesc)
        ensures
            r == *self,
    {
        match self {
            ToolchainDesc::Local { name } => ToolchainDesc::Local { name: name.clone() },
            ToolchainDesc::Remote { origin, release, from_channel } => ToolchainDesc::Remote {
                origin: origin.clone(),
                release: release.clone(),
                from_channel: copy_opt(from_channel),
            },
        }
    }

    /// Whether two descriptors name the same installed toolchain.
    pub fn same_toolchain(&self, other: &ToolchainDesc) -> (r: bool)
        ensures
            r == (identity(self@) == identity(other@)),
    {
        match (self, other) {
            (ToolchainDesc::Local { name: a }, ToolchainDesc::Local { name: b }) => *a == *b,
            (
                ToolchainDesc::Remote { origin: o1, release: r1, .. },
                ToolchainDesc::Remote { origin: o2, release: r2, .. },
            ) => *o1 == *o2 && *r1 == *r2,
            _ => false,
        }
    }
}

/// A copy of an optional string.
pub fn copy_opt(s: &Option<String>) -> (r: Option<String>)
    ensures
        r == *s,
{
    match s {
        Some(t) => Some(t.clone()),
        None => None,
    }
}

fn encode_chars(s: &Vec<char>) -> (r: Vec<char>)
    ensures
        r@ == encode_dir(s@),
{
    let mut r: Vec<char> = Vec::new();
    let mut i: usize = 0;
    while i < s.len()
        invariant
            0 <= i <= s@.len(),
            r@ == encode_dir(s@.take(i as int)),
        decreases s@.len() - i,
    {
        let c = s[i];
        proof {
            assert(s@.take(i + 1).drop_last() =~= s@.take(i as int));
            assert(s@.take(i + 1).last() == c);
        }
        if c == '/' {
            r.push('-');
            r.push('-');
        } else if c == ':' {
            r.push('-');
            r.push('-');
            r.push('-');
        } else {
            r.push(c);
        }
        i = i + 1;
        assert(r@ =~= encode_dir(s@.take(i as int)));
    }
    assert(s@.take(s@.len() as int) =~= s@);
    r
}

fn decode_chars(s: &Vec<char>) -> (r: Vec<char>)
    ensures
        r@ == decode_dir(s@),
{
    let n = s.len();
    let mut r: Vec<char> = Vec::new();
    let mut i: usize = 0;
    assert(s@.skip(0) =~= s@);
    while i < n
        invariant
            0 <= i <= n == s@.len(),
            decode_dir(s@) == r@ + decode_dir(s@.skip(i as int)),
        decreases n - i,
    {
        let ghost t = s@.skip(i as int);
        if n - i >= 3 && s[i] == '-' && s[i + 1] == '-' && s[i + 2] == '-' {
            assert(t.skip(3) =~= s@.skip(i + 3));
            r.push(':');
            i = i + 3;
        } else if n - i >= 2 && s[i] == '-' && s[i + 1] == '-' {
            assert(t.skip(2) =~= s@.skip(i + 2));
            r.push('/');
            i = i + 2;
        } else {
            assert(t.skip(1) =~= s@.skip(i + 1));
            r.push(s[i]);
            i = i + 1;
        }
        assert(decode_dir(s@) =~= r@ + decode_dir(s@.skip(i as int)));
    }
    assert(r@ + decode_dir(s@.skip(n as int)) =~= r@);
    r
}

} // verus!
