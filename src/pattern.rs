use vstd::prelude::*;

verus! {

/// The extension of a template file, `.mustache`.
pub open spec fn mustache_ext() -> Seq<char> {
    seq!['.', 'm', 'u', 's', 't', 'a', 'c', 'h', 'e']
}

/// The directory that holds the subtemplates of a family, `templates/`.
pub open spec fn templates_dir() -> Seq<char> {
    seq!['t', 'e', 'm', 'p', 'l', 'a', 't', 'e', 's', '/']
}

/// `s` has `lit` at position `i`.
pub open spec fn occurs_at(s: Seq<char>, i: int, lit: Seq<char>) -> bool {
    0 <= i && i + lit.len() <= s.len() && s.subrange(i, i + lit.len()) == lit
}

/// `s` holds a `/`.
pub open spec fn has_slash(s: Seq<char>) -> bool {
    exists|i: int| 0 <= i < s.len() && s[i] == '/'
}

/// `p` without one trailing `.mustache`, if it has one.
pub open spec fn strip_ext(p: Seq<char>) -> Seq<char> {
    if p.len() >= mustache_ext().len() && occurs_at(p, p.len() - mustache_ext().len(), mustache_ext()) {
        p.subrange(0, p.len() - mustache_ext().len())
    } else {
        p
    }
}

/// The index of the first `/` in `s` at or after `i`, or `s.len()` if there is none.
pub open spec fn slash_from(s: Seq<char>, i: int) -> int
    decreases s.len() - i,
{
    if i < 0 || i >= s.len() {
        s.len() as int
    } else if s[i] == '/' {
        i
    } else {
        slash_from(s, i + 1)
    }
}

/// `s` with every occurrence of `pat` taken out, scanning from the left.
pub open spec fn remove_all(s: Seq<char>, pat: Seq<char>) -> Seq<char>
    decreases s.len(),
{
    if s.len() == 0 {
        s
    } else if pat.len() > 0 && occurs_at(s, 0, pat) {
        remove_all(s.subrange(pat.len() as int, s.len() as int), pat)
    } else {
        seq![s[0]] + remove_all(s.subrange(1, s.len() as int), pat)
    }
}

/// How a template pattern is read.
#[derive(PartialEq, Eq, Structural, Debug, Clone, Copy)]
pub enum PatternShape {
    /// No `/` at all: the pattern is used as it is.
    NoSlash,
    /// `family/sub`: expanded to `family/templates/sub.mustache`.
    ShorthandExpand,
    /// `family/templates/...`: already names the subtemplate directory.
    AlreadyQualified,
    /// More segments that do not start at `templates/`: used as it is.
    RejectedShape,
}

/// The part of the extension-stripped pattern before its first `/`.
pub open spec fn head_of(p: Seq<char>) -> Seq<char> {
    let s = strip_ext(p);
    s.subrange(0, slash_from(s, 0))
}

/// The part of the extension-stripped pattern after its first `/`.
pub open spec fn tail_of(p: Seq<char>) -> Seq<char> {
    let s = strip_ext(p);
    s.subrange(slash_from(s, 0) + 1, s.len() as int)
}

pub open spec fn shape_of(p: Seq<char>) -> PatternShape {
    let s = strip_ext(p);
    if slash_from(s, 0) == s.len() {
        PatternShape::NoSlash
    } else if occurs_at(tail_of(p), 0, templates_dir()) {
        PatternShape::AlreadyQualified
    } else if !has_slash(tail_of(p)) {
        PatternShape::ShorthandExpand
    } else {
        PatternShape::RejectedShape
    }
}

/// The pattern that a template pattern is expanded as.
pub open spec fn normalized(p: Seq<char>) -> Seq<char> {
    match shape_of(p) {
        PatternShape::ShorthandExpand | PatternShape::AlreadyQualified => head_of(p) + seq!['/']
            + templates_dir() + remove_all(tail_of(p), templates_dir()) + mustache_ext(),
        _ => p,
    }
}

/// Whether `s` holds `lit` at character position `i`; `n` is the length of `s`.
fn occurs_at_exec(s: &str, n: usize, i: usize, lit: &str) -> (r: bool)
    requires
        n == s@.len(),
        i <= n,
    ensures
        r == occurs_at(s@, i as int, lit@),
{
    let m = lit.unicode_len();
    if m > n - i {
        return false;
    }
    let mut j: usize = 0;
    while j < m
        invariant
            m == lit@.len(),
            n == s@.len(),
            i + m <= n,
            j <= m,
            forall|k: int| 0 <= k < j ==> s@[i + k] == lit@[k],
        decreases m - j,
    {
        if s.get_char(i + j) != lit.get_char(j) {
            assert(s@.subrange(i as int, i + m)[j as int] != lit@[j as int]);
            return false;
        }
        j = j + 1;
    }
    assert(s@.subrange(i as int, i + m) =~= lit@);
    true
}

/// Reads how `pattern` is to be expanded.
pub fn classify_pattern(pattern: &str) -> (r: PatternShape)
    ensures
        r == shape_of(pattern@),
{
    let (end, slash) = split_point(pattern);
    classify_at(pattern, end, slash)
}

/// The length of `pattern` without its `.mustache` extension, and the position
/// of the first `/` before that length.
fn split_point(pattern: &str) -> (r: (usize, usize))
    ensures
        r.0 == strip_ext(pattern@).len(),
        r.1 == slash_from(strip_ext(pattern@), 0),
        strip_ext(pattern@) == pattern@.subrange(0, r.0 as int),
{
    proof {
        reveal_strlit(".mustache");
    }
    let n = pattern.unicode_len();
    let ext = ".mustache";
    assert(ext@ == mustache_ext());
    let end: usize = if n >= 9 && occurs_at_exec(pattern, n, n - 9, ext) {
        n - 9
    } else {
        n
    };
    let ghost s = strip_ext(pattern@);
    assert(s =~= pattern@.subrange(0, end as int));
    let mut k: usize = 0;
    while k < end && pattern.get_char(k) != '/'
        invariant
            n == pattern@.len(),
            end <= n,
            s == pattern@.subrange(0, end as int),
            k <= end,
            slash_from(s, k as int) == slash_from(s, 0),
        decreases end - k,
    {
        assert(s[k as int] == pattern@[k as int]);
        k = k + 1;
    }
    if k < end {
        assert(s[k as int] == '/');
    }
    (end, k)
}

proof fn lemma_slash_from(s: Seq<char>, i: int)
    requires
        0 <= i <= s.len(),
    ensures
        i <= slash_from(s, i) <= s.len(),
        slash_from(s, i) < s.len() ==> s[slash_from(s, i)] == '/',
        forall|j: int| i <= j < slash_from(s, i) ==> s[j] != '/',
    decreases s.len() - i,
{
    if i < s.len() && s[i] != '/' {
        lemma_slash_from(s, i + 1);
    }
}

proof fn lemma_ext_has_no_slash()
    ensures
        forall|k: int| 0 <= k < mustache_ext().len() ==> mustache_ext()[k] != '/',
{
    let e = mustache_ext();
    assert(e.len() == 9);
    assert forall|k: int| 0 <= k < e.len() implies e[k] != '/' by {
        assert(e[0] == '.' && e[1] == 'm' && e[2] == 'u' && e[3] == 's' && e[4] == 't');
        assert(e[5] == 'a' && e[6] == 'c' && e[7] == 'h' && e[8] == 'e');
    }
}

/// A `/` in a pattern survives the stripping of its extension.
proof fn lemma_strip_keeps_slash(p: Seq<char>, i: int)
    requires
        0 <= i < p.len(),
        p[i] == '/',
    ensures
        i < strip_ext(p).len(),
        strip_ext(p) == p.subrange(0, strip_ext(p).len() as int),
{
    lemma_ext_has_no_slash();
    let n = mustache_ext().len() as int;
    if p.len() >= n && occurs_at(p, p.len() - n, mustache_ext()) {
        if i >= p.len() - n {
            assert(p.subrange(p.len() - n, p.len() as int)[i - (p.len() - n)] == p[i]);
        }
    } else {
        assert(p.subrange(0, p.len() as int) =~= p);
    }
}

/// A pattern whose part after some `/` has no extension has none either.
proof fn lemma_no_ext_after_slash(p: Seq<char>, i: int)
    requires
        0 <= i < p.len(),
        p[i] == '/',
        strip_ext(p.subrange(i + 1, p.len() as int)) == p.subrange(i + 1, p.len() as int),
    ensures
        strip_ext(p) == p,
{
    lemma_ext_has_no_slash();
    let n = mustache_ext().len() as int;
    let sub = p.subrange(i + 1, p.len() as int);
    if p.len() >= n && occurs_at(p, p.len() - n, mustache_ext()) {
        if sub.len() >= n {
            assert(sub.subrange(sub.len() - n, sub.len() as int) =~= p.subrange(p.len() - n, p.len() as int));
            assert(strip_ext(sub).len() == sub.len() - n);
        } else {
            assert(p.subrange(p.len() - n, p.len() as int)[i - (p.len() - n)] == p[i]);
        }
    }
}

/// The first `/` of `s` is at `f`.
proof fn lemma_first_slash(s: Seq<char>, f: int)
    requires
        0 <= f < s.len(),
        s[f] == '/',
        forall|j: int| 0 <= j < f ==> s[j] != '/',
    ensures
        slash_from(s, 0) == f,
{
    lemma_slash_from(s, 0);
}

/// Text without `/` holds no `templates/`.
proof fn lemma_remove_all_no_slash(s: Seq<char>)
    requires
        !has_slash(s),
    ensures
        remove_all(s, templates_dir()) == s,
    decreases s.len(),
{
    if s.len() > 0 {
        if occurs_at(s, 0, templates_dir()) {
            assert(s.subrange(0, 10)[9] == s[9]);
        }
        let rest = s.subrange(1, s.len() as int);
        assert(!has_slash(rest)) by {
            if has_slash(rest) {
                let j = choose|j: int| 0 <= j < rest.len() && rest[j] == '/';
                assert(s[j + 1] == '/');
            }
        }
        lemma_remove_all_no_slash(rest);
        assert(seq![s[0]] + rest =~= s);
    }
}

/// A pattern without `/` is expanded as it is: nothing is added to it and
/// nothing is rearranged.
pub proof fn lemma_no_slash_unchanged(p: Seq<char>)
    requires
        !has_slash(p),
    ensures
        normalized(p) == p,
        shape_of(p) == PatternShape::NoSlash,
{
    let s = strip_ext(p);
    assert(s == p.subrange(0, s.len() as int));
    lemma_slash_from(s, 0);
    if slash_from(s, 0) < s.len() {
        assert(p[slash_from(s, 0)] == '/');
    }
}

/// `family/sub` and `family/templates/sub` are expanded alike, to
/// `family/templates/sub.mustache`, when neither part holds a `/` and `sub`
/// does not already end in `.mustache`.
pub proof fn lemma_shorthand_matches_qualified(family: Seq<char>, sub: Seq<char>)
    requires
        !has_slash(family),
        !has_slash(sub),
        strip_ext(sub) == sub,
    ensures
        normalized(family + "/"@ + sub) == family + "/templates/"@ + sub + ".mustache"@,
        normalized(family + "/templates/"@ + sub) == family + "/templates/"@ + sub + ".mustache"@,
        shape_of(family + "/"@ + sub) == PatternShape::ShorthandExpand,
        shape_of(family + "/templates/"@ + sub) == PatternShape::AlreadyQualified,
{
    reveal_strlit("/");
    reveal_strlit("/templates/");
    reveal_strlit(".mustache");
    let f = family.len() as int;
    lemma_remove_all_no_slash(sub);
    assert(".mustache"@ =~= mustache_ext());
    assert("/templates/"@ =~= seq!['/'] + templates_dir());

    let p = family + "/"@ + sub;
    assert(p[f] == '/');
    assert(p.subrange(f + 1, p.len() as int) =~= sub);
    lemma_no_ext_after_slash(p, f);
    lemma_first_slash(p, f);
    assert(head_of(p) =~= family);
    assert(tail_of(p) =~= sub);
    assert(!occurs_at(sub, 0, templates_dir())) by {
        if occurs_at(sub, 0, templates_dir()) {
            assert(sub.subrange(0, 10)[9] == sub[9]);
        }
    }

    let q = family + "/templates/"@ + sub;
    let t = templates_dir() + sub;
    assert(q[f] == '/');
    assert(q[f + 10] == '/');
    assert(q.subrange(f + 11, q.len() as int) =~= sub);
    lemma_no_ext_after_slash(q, f + 10);
    lemma_first_slash(q, f);
    assert(head_of(q) =~= family);
    assert(tail_of(q) =~= t);
    assert(t.subrange(0, 10) =~= templates_dir());
    assert(t.subrange(10, t.len() as int) =~= sub);
    assert(remove_all(t, templates_dir()) == sub);
}

/// A pattern whose part after the first `/` holds another `/` and does not
/// start at `templates/` is expanded as it is.
pub proof fn lemma_rejected_shape_unchanged(head: Seq<char>, rest: Seq<char>)
    requires
        !has_slash(head),
        has_slash(rest),
        !occurs_at(rest, 0, templates_dir()),
    ensures
        normalized(head + "/"@ + rest) == head + "/"@ + rest,
        shape_of(head + "/"@ + rest) == PatternShape::RejectedShape,
{
    reveal_strlit("/");
    let p = head + "/"@ + rest;
    let h = head.len() as int;
    let j = choose|j: int| 0 <= j < rest.len() && rest[j] == '/';
    assert(p[h] == '/');
    assert(p[h + 1 + j] == '/');
    lemma_strip_keeps_slash(p, h + 1 + j);
    let s = strip_ext(p);
    assert(s[h] == '/');
    lemma_first_slash(s, h);
    let tail = tail_of(p);
    assert(tail =~= rest.subrange(0, tail.len() as int));
    assert(tail[j] == '/');
    assert(!occurs_at(tail, 0, templates_dir())) by {
        if occurs_at(tail, 0, templates_dir()) {
            assert(rest.subrange(0, 10) =~= tail.subrange(0, 10));
        }
    }
}

/// Whether `pattern` holds a `/` at a position in `from..to`.
fn slash_between(pattern: &str, from: usize, to: usize) -> (r: bool)
    requires
        from <= to <= pattern@.len(),
    ensures
        r == has_slash(pattern@.subrange(from as int, to as int)),
{
    let ghost t = pattern@.subrange(from as int, to as int);
    let mut j: usize = from;
    while j < to
        invariant
            from <= j <= to <= pattern@.len(),
            t == pattern@.subrange(from as int, to as int),
            forall|k: int| 0 <= k < j - from ==> t[k] != '/',
        decreases to - j,
    {
        if pattern.get_char(j) == '/' {
            assert(t[j - from] == '/');
            return true;
        }
        j = j + 1;
    }
    false
}

fn classify_at(pattern: &str, end: usize, slash: usize) -> (r: PatternShape)
    requires
        end == strip_ext(pattern@).len(),
        slash == slash_from(strip_ext(pattern@), 0),
        strip_ext(pattern@) == pattern@.subrange(0, end as int),
    ensures
        r == shape_of(pattern@),
{
    proof {
        reveal_strlit("templates/");
        lemma_slash_from(strip_ext(pattern@), 0);
    }
    let n = pattern.unicode_len();
    if slash == end {
        return PatternShape::NoSlash;
    }
    let ghost tail = tail_of(pattern@);
    assert(tail =~= pattern@.subrange(slash + 1, end as int));
    let dir = "templates/";
    assert(dir@ == templates_dir());
    if end - slash >= 11 && occurs_at_exec(pattern, n, slash + 1, dir) {
        assert(tail.subrange(0, 10) =~= pattern@.subrange(slash + 1, slash + 11));
        return PatternShape::AlreadyQualified;
    }
    assert(!occurs_at(tail, 0, templates_dir())) by {
        if slash + 11 <= end {
            assert(tail.subrange(0, 10) =~= pattern@.subrange(slash + 1, slash + 11));
        }
    }
    if slash_between(pattern, slash + 1, end) {
        PatternShape::RejectedShape
    } else {
        PatternShape::ShorthandExpand
    }
}

/// Appends to `out` the characters of `pattern` in `from..to`, with every
/// `templates/` among them taken out.
fn append_without_dir(out: &mut String, pattern: &str, from: usize, to: usize)
    requires
        from <= to <= pattern@.len(),
    ensures
        final(out)@ == old(out)@ + remove_all(pattern@.subrange(from as int, to as int), templates_dir()),
{
    proof {
        reveal_strlit("templates/");
    }
    let ghost start = out@;
    let n = pattern.unicode_len();
    let dir = "templates/";
    assert(dir@ == templates_dir());
    let mut i: usize = from;
    while i < to
        invariant
            from <= i <= to <= n,
            n == pattern@.len(),
            dir@ == templates_dir(),
            out@ + remove_all(pattern@.subrange(i as int, to as int), templates_dir()) == start
                + remove_all(pattern@.subrange(from as int, to as int), templates_dir()),
        decreases to - i,
    {
        let ghost s = pattern@.subrange(i as int, to as int);
        if to - i >= 10 && occurs_at_exec(pattern, n, i, dir) {
            assert(s.subrange(0, 10) =~= pattern@.subrange(i as int, i + 10));
            assert(s.subrange(10, s.len() as int) =~= pattern@.subrange(i + 10, to as int));
            i = i + 10;
        } else {
            assert(!occurs_at(s, 0, templates_dir())) by {
                if to - i >= 10 {
                    assert(s.subrange(0, 10) =~= pattern@.subrange(i as int, i + 10));
                }
            }
            let ghost before = out@;
            out.append(pattern.substring_char(i, i + 1));
            let ghost rest = remove_all(pattern@.subrange(i + 1, to as int), templates_dir());
            assert(s.subrange(1, s.len() as int) =~= pattern@.subrange(i + 1, to as int));
            assert(pattern@.subrange(i as int, i + 1) =~= seq![s[0]]);
            assert(before + (seq![s[0]] + rest) =~= out@ + rest);
            i = i + 1;
        }
    }
}

/// Rewrites a template pattern: `family/sub` and `family/templates/sub`
/// (with or without `.mustache`) become `family/templates/sub.mustache`; any
/// other pattern is kept as it is.
pub fn normalize_pattern(pattern: &str) -> (r: String)
    ensures
        r@ == normalized(pattern@),
{
    proof {
        reveal_strlit("/templates/");
        reveal_strlit(".mustache");
    }
    let (end, slash) = split_point(pattern);
    proof {
        lemma_slash_from(strip_ext(pattern@), 0);
    }
    let shape = classify_at(pattern, end, slash);
    match shape {
        PatternShape::ShorthandExpand | PatternShape::AlreadyQualified => {
            let mut out = String::from_str(pattern.substring_char(0, slash));
            assert(out@ =~= head_of(pattern@));
            out.append("/templates/");
            assert(out@ =~= head_of(pattern@) + seq!['/'] + templates_dir());
            append_without_dir(&mut out, pattern, slash + 1, end);
            assert(pattern@.subrange(slash + 1, end as int) =~= tail_of(pattern@));
            out.append(".mustache");
            out
        },
        _ => pattern.to_owned(),
    }
}

} // verus!
