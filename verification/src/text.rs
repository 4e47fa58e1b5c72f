//! Character-level string helpers, stated over `Seq<char>`.

use vstd::prelude::*;

verus! {

/// The Unicode `White_Space` property.
pub open spec fn is_space(c: char) -> bool {
    let u = c as u32;
    ||| 0x09 <= u <= 0x0D
    ||| u == 0x20
    ||| u == 0x85
    ||| u == 0xA0
    ||| u == 0x1680
    ||| 0x2000 <= u <= 0x200A
    ||| u == 0x2028
    ||| u == 0x2029
    ||| u == 0x202F
    ||| u == 0x205F
    ||| u == 0x3000
}

/// `char::is_whitespace` tests the `White_Space` property of the Unicode
/// Character Database; the contract lists the code points that carry it.
pub assume_specification[ char::is_whitespace ](c: char) -> (b: bool)
    ensures
        b == is_space(c),
;

/// `String::push` appends one character and keeps the rest.
pub assume_specification[ String::push ](s: &mut String, c: char)
    ensures
        final(s)@ == old(s)@.push(c),
;

/// `s` without its leading whitespace.
pub open spec fn trim_start(s: Seq<char>) -> Seq<char>
    decreases s.len(),
{
    if s.len() > 0 && is_space(s[0]) {
        trim_start(s.drop_first())
    } else {
        s
    }
}

/// `s` without its trailing whitespace.
pub open spec fn trim_end(s: Seq<char>) -> Seq<char>
    decreases s.len(),
{
    if s.len() > 0 && is_space(s.last()) {
        trim_end(s.drop_last())
    } else {
        s
    }
}

/// `s` without leading and trailing whitespace.
pub open spec fn trimmed(s: Seq<char>) -> Seq<char> {
    trim_end(trim_start(s))
}

/// No character of `s` is whitespace.
pub open spec fn no_space(s: Seq<char>) -> bool {
    forall|i: int| 0 <= i < s.len() ==> !is_space(#[trigger] s[i])
}

/// `s` with every whitespace character removed.
pub open spec fn squeezed(s: Seq<char>) -> Seq<char> {
    s.filter(|c: char| !is_space(c))
}

/// ASCII capital letters made small, all else kept.
pub open spec fn lower(c: char) -> char {
    if 'A' <= c <= 'Z' {
        ((c as u8) + 32) as u8 as char
    } else {
        c
    }
}

/// `lower` on every character.
pub open spec fn lowered(s: Seq<char>) -> Seq<char> {
    s.map_values(|c: char| lower(c))
}

/// `pat` stands in `s` at position `i`.
pub open spec fn occurs_at(s: Seq<char>, pat: Seq<char>, i: int) -> bool {
    0 <= i && i + pat.len() <= s.len() && s.subrange(i, i + pat.len()) == pat
}

/// `pat` is a substring of `s`.
pub open spec fn contains(s: Seq<char>, pat: Seq<char>) -> bool {
    exists|i: int| occurs_at(s, pat, i)
}

/// The first `n` characters of `s`, or all of it.
pub open spec fn clipped(s: Seq<char>, n: nat) -> Seq<char> {
    if s.len() <= n {
        s
    } else {
        s.take(n as int)
    }
}

/// The texts of a list of strings.
pub open spec fn views(parts: Seq<String>) -> Seq<Seq<char>> {
    parts.map_values(|p: String| p@)
}

/// `parts` one after another with a single space between neighbours.
pub open spec fn spaced(parts: Seq<Seq<char>>) -> Seq<char>
    decreases parts.len(),
{
    if parts.len() == 0 {
        Seq::empty()
    } else if parts.len() == 1 {
        parts[0]
    } else {
        spaced(parts.drop_last()).push(' ') + parts.last()
    }
}

/// The characters of a string.
pub fn chars_of(s: &str) -> (v: Vec<char>)
    ensures
        v@ == s@,
{
    let mut v: Vec<char> = Vec::new();
    for c in it: s.chars()
        invariant
            it.seq() == s@,
            v@ == s@.take(it.index()),
    {
        v.push(c);
    }
    v
}

/// The string made of the characters `v[from..to]`.
pub fn string_of(v: &[char], from: usize, to: usize) -> (s: String)
    requires
        from <= to <= v@.len(),
    ensures
        s@ == v@.subrange(from as int, to as int),
{
    let mut s = String::new();
    let mut i: usize = from;
    while i < to
        invariant
            from <= i <= to <= v@.len(),
            s@ == v@.subrange(from as int, i as int),
        decreases to - i,
    {
        s.push(v[i]);
        i = i + 1;
    }
    s
}

/// Whether two strings hold the same characters.
pub fn same(a: &str, b: &str) -> (r: bool)
    ensures
        r == (a@ == b@),
{
    let x = chars_of(a);
    let y = chars_of(b);
    if x.len() != y.len() {
        return false;
    }
    let mut i: usize = 0;
    while i < x.len()
        invariant
            x@ == a@,
            y@ == b@,
            x@.len() == y@.len(),
            i <= x@.len(),
            forall|k: int| 0 <= k < i ==> x@[k] == y@[k],
        decreases x@.len() - i,
    {
        if x[i] != y[i] {
            return false;
        }
        i = i + 1;
    }
    assert(a@ =~= b@);
    true
}

/// Whether `pat` stands in `s` at position `at`.
fn matches_at(s: &Vec<char>, pat: &Vec<char>, at: usize) -> (r: bool)
    requires
        at + pat@.len() <= s@.len(),
    ensures
        r == occurs_at(s@, pat@, at as int),
{
    let len: usize = s.len();
    let mut k: usize = 0;
    while k < pat.len()
        invariant
            len == s@.len(),
            at + pat@.len() <= len,
            k <= pat@.len(),
            forall|j: int| 0 <= j < k ==> s@[at + j] == pat@[j],
        decreases pat@.len() - k,
    {
        if s[at + k] != pat[k] {
            assert(s@.subrange(at as int, at + pat@.len())[k as int] != pat@[k as int]);
            return false;
        }
        k = k + 1;
    }
    assert(s@.subrange(at as int, at + pat@.len()) =~= pat@);
    true
}

/// Whether `pat` is a substring of `s`.
pub fn has(s: &str, pat: &str) -> (r: bool)
    ensures
        r == contains(s@, pat@),
{
    let x = chars_of(s);
    let p = chars_of(pat);
    if p.len() > x.len() {
        return false;
    }
    let last: usize = x.len() - p.len();
    let mut at: usize = 0;
    while at <= last
        invariant
            x@ == s@,
            p@ == pat@,
            last + p@.len() == x@.len(),
            at <= last + 1,
            forall|j: int| 0 <= j < at ==> !occurs_at(x@, p@, j),
        decreases last + 1 - at,
    {
        if matches_at(&x, &p, at) {
            return true;
        }
        if at == last {
            return false;
        }
        at = at + 1;
    }
    false
}

/// What is cut off at the front does not change what is cut off at the back.
proof fn lemma_trim_bounds(s: Seq<char>, i: int)
    requires
        0 <= i <= s.len(),
        forall|k: int| 0 <= k < i ==> is_space(#[trigger] s[k]),
        i == s.len() || !is_space(s[i]),
    ensures
        trim_start(s) == s.skip(i),
    decreases i,
{
    if i == 0 {
        assert(s.skip(0) =~= s);
    } else {
        assert(is_space(s[0]));
        let t = s.drop_first();
        assert forall|k: int| 0 <= k < i - 1 implies is_space(#[trigger] t[k]) by {
            assert(t[k] == s[k + 1]);
        }
        lemma_trim_bounds(t, i - 1);
        assert(t.skip(i - 1) =~= s.skip(i));
    }
}

proof fn lemma_trim_end_bounds(s: Seq<char>, j: int)
    requires
        0 <= j <= s.len(),
        forall|k: int| j <= k < s.len() ==> is_space(#[trigger] s[k]),
        j == 0 || !is_space(s[j - 1]),
    ensures
        trim_end(s) == s.take(j),
    decreases s.len() - j,
{
    if j == s.len() {
        assert(s.take(j) =~= s);
    } else {
        assert(is_space(s[s.len() - 1]));
        let t = s.drop_last();
        lemma_trim_end_bounds(t, j);
        assert(t.take(j) =~= s.take(j));
    }
}

/// `s` without leading and trailing whitespace.
pub fn trim(s: &str) -> (r: String)
    ensures
        r@ == trimmed(s@),
{
    let x = chars_of(s);
    let mut i: usize = 0;
    while i < x.len() && x[i].is_whitespace()
        invariant
            i <= x@.len(),
            forall|k: int| 0 <= k < i ==> is_space(#[trigger] x@[k]),
        decreases x@.len() - i,
    {
        i = i + 1;
    }
    let mut j: usize = x.len();
    while j > i && x[j - 1].is_whitespace()
        invariant
            i <= j <= x@.len(),
            forall|k: int| j <= k < x@.len() ==> is_space(#[trigger] x@[k]),
        decreases j,
    {
        j = j - 1;
    }
    proof {
        lemma_trim_bounds(x@, i as int);
        let t = x@.skip(i as int);
        assert forall|k: int| j - i <= k < t.len() implies is_space(#[trigger] t[k]) by {
            assert(t[k] == x@[k + i]);
        }
        lemma_trim_end_bounds(t, j - i);
        assert(t.take(j - i) =~= x@.subrange(i as int, j as int));
    }
    string_of(&x, i, j)
}

/// Whether nothing but whitespace is in `s`.
pub fn is_blank(s: &str) -> (r: bool)
    ensures
        r == (trimmed(s@).len() == 0),
{
    trim(s).as_str().is_empty()
}

/// Whether no character of `s` is whitespace.
pub fn is_solid(s: &str) -> (r: bool)
    ensures
        r == no_space(s@),
{
    let x = chars_of(s);
    let mut i: usize = 0;
    while i < x.len()
        invariant
            x@ == s@,
            i <= x@.len(),
            forall|k: int| 0 <= k < i ==> !is_space(#[trigger] x@[k]),
        decreases x@.len() - i,
    {
        if x[i].is_whitespace() {
            return false;
        }
        i = i + 1;
    }
    true
}

/// `s` with every whitespace character removed.
pub fn squeeze(s: &str) -> (r: String)
    ensures
        r@ == squeezed(s@),
{
    let mut out = String::new();
    let ghost keep = |c: char| !is_space(c);
    proof {
        reveal(Seq::filter);
    }
    for c in it: s.chars()
        invariant
            it.seq() == s@,
            keep == (|c: char| !is_space(c)),
            out@ == s@.take(it.index()).filter(keep),
    {
        proof {
            reveal(Seq::filter);
            assert(s@.take(it.index() + 1).drop_last() =~= s@.take(it.index()));
        }
        if !c.is_whitespace() {
            out.push(c);
        }
    }
    assert(s@.take(s@.len() as int) =~= s@);
    out
}

/// `s` with ASCII capital letters made small.
pub fn to_lower(s: &str) -> (r: String)
    ensures
        r@ == lowered(s@),
{
    let mut out = String::new();
    for c in it: s.chars()
        invariant
            it.seq() == s@,
            out@ =~= lowered(s@.take(it.index())),
    {
        let d: char = if 'A' <= c && c <= 'Z' {
            ((c as u8) + 32) as char
        } else {
            c
        };
        out.push(d);
    }
    assert(s@.take(s@.len() as int) =~= s@);
    out
}

/// The first `n` characters of `s`, or all of it.
pub fn clip(s: &str, n: usize) -> (r: String)
    ensures
        r@ == clipped(s@, n as nat),
{
    let x = chars_of(s);
    if x.len() <= n {
        s.to_owned()
    } else {
        string_of(&x, 0, n)
    }
}

/// `parts` one after another with a single space between neighbours.
pub fn join_spaced(parts: &Vec<String>) -> (r: String)
    ensures
        r@ == spaced(views(parts@)),
{
    let mut out = String::new();
    let mut i: usize = 0;
    let ghost vs = views(parts@);
    while i < parts.len()
        invariant
            i <= parts@.len(),
            vs == views(parts@),
            out@ == spaced(vs.take(i as int)),
        decreases parts@.len() - i,
    {
        proof {
            assert(vs.take(i + 1).drop_last() =~= vs.take(i as int));
            assert(vs.take(i + 1).last() == parts@[i as int]@);
        }
        if i > 0 {
            out.push(' ');
        }
        out.append(parts[i].as_str());
        i = i + 1;
        assert(out@ =~= spaced(vs.take(i as int)));
    }
    assert(vs.take(parts@.len() as int) =~= vs);
    out
}

/// Squeezing changes nothing where there is no whitespace.
pub proof fn lemma_squeezed_solid(s: Seq<char>)
    requires
        no_space(s),
    ensures
        squeezed(s) == s,
    decreases s.len(),
{
    reveal(Seq::filter);
    if s.len() > 0 {
        let t = s.drop_last();
        assert forall|i: int| 0 <= i < t.len() implies !is_space(#[trigger] t[i]) by {
            assert(t[i] == s[i]);
        }
        lemma_squeezed_solid(t);
        assert(!is_space(s[s.len() - 1]));
        assert(t.push(s.last()) =~= s);
    }
}

/// Squeezing and lowering do not disturb each other, and doing either twice
/// is doing it once.
pub proof fn lemma_squeeze_lower(s: Seq<char>)
    ensures
        squeezed(lowered(s)) == lowered(squeezed(s)),
        squeezed(squeezed(s)) == squeezed(s),
        lowered(lowered(s)) == lowered(s),
        no_space(squeezed(s)),
    decreases s.len(),
{
    reveal(Seq::filter);
    assert(lowered(lowered(s)) =~= lowered(s));
    if s.len() > 0 {
        let t = s.drop_last();
        lemma_squeeze_lower(t);
        assert(lowered(s).drop_last() =~= lowered(t));
        assert(lowered(s).last() == lower(s.last()));
        assert(is_space(lower(s.last())) == is_space(s.last()));
        if !is_space(s.last()) {
            assert(squeezed(s) == squeezed(t).push(s.last()));
            assert(lowered(squeezed(t).push(s.last())) =~= lowered(squeezed(t)).push(
                lower(s.last()),
            ));
            assert(squeezed(s).drop_last() =~= squeezed(t));
        }
        lemma_squeezed_solid(squeezed(s));
    }
}

/// Trimming changes nothing where both ends are solid.
pub proof fn lemma_trimmed_solid_ends(s: Seq<char>)
    requires
        s.len() == 0 || (!is_space(s[0]) && !is_space(s[s.len() - 1])),
    ensures
        trimmed(s) == s,
{
}

/// The bounds between which trimming keeps a text.
proof fn lemma_trimmed_range(s: Seq<char>) -> (r: (int, int))
    ensures
        0 <= r.0 <= r.1 <= s.len(),
        trimmed(s) == s.subrange(r.0, r.1),
        forall|k: int| 0 <= k < r.0 ==> is_space(#[trigger] s[k]),
        forall|k: int| r.1 <= k < s.len() ==> is_space(#[trigger] s[k]),
        r.0 < r.1 ==> !is_space(s[r.0]) && !is_space(s[r.1 - 1]),
    decreases s.len(),
{
    if s.len() > 0 && is_space(s[0]) {
        let t = s.drop_first();
        let (a, b) = lemma_trimmed_range(t);
        assert(t.subrange(a, b) =~= s.subrange(a + 1, b + 1));
        assert forall|k: int| 0 <= k < a + 1 implies is_space(#[trigger] s[k]) by {
            if k > 0 {
                assert(t[k - 1] == s[k]);
            }
        }
        assert forall|k: int| b + 1 <= k < s.len() implies is_space(#[trigger] s[k]) by {
            assert(t[k - 1] == s[k]);
        }
        (a + 1, b + 1)
    } else {
        lemma_trim_end_range(s)
    }
}

proof fn lemma_trim_end_range(s: Seq<char>) -> (r: (int, int))
    requires
        s.len() > 0 ==> !is_space(s[0]),
    ensures
        r.0 == 0,
        0 <= r.1 <= s.len(),
        s.len() > 0 ==> r.1 > 0,
        trim_end(s) == s.subrange(0, r.1),
        forall|k: int| r.1 <= k < s.len() ==> is_space(#[trigger] s[k]),
        r.1 > 0 ==> !is_space(s[r.1 - 1]),
    decreases s.len(),
{
    if s.len() > 0 && is_space(s.last()) {
        let t = s.drop_last();
        let (a, b) = lemma_trim_end_range(t);
        assert(t.subrange(0, b) =~= s.subrange(0, b));
        assert forall|k: int| b <= k < s.len() implies is_space(#[trigger] s[k]) by {
            if k < t.len() {
                assert(t[k] == s[k]);
            }
        }
        (0, b)
    } else {
        assert(s.subrange(0, s.len() as int) =~= s);
        (0, s.len() as int)
    }
}

/// Trimming twice is trimming once.
pub proof fn lemma_trimmed_twice(s: Seq<char>)
    ensures
        trimmed(trimmed(s)) == trimmed(s),
{
    let (a, b) = lemma_trimmed_range(s);
    let t = trimmed(s);
    if a < b {
        assert(t[0] == s[a]);
        assert(t[t.len() - 1] == s[b - 1]);
    }
    lemma_trimmed_solid_ends(t);
}

/// Whitespace around a text makes no difference to what trimming leaves.
pub proof fn lemma_trimmed_padding(before: Seq<char>, s: Seq<char>, after: Seq<char>)
    requires
        forall|i: int| 0 <= i < before.len() ==> is_space(#[trigger] before[i]),
        forall|i: int| 0 <= i < after.len() ==> is_space(#[trigger] after[i]),
    ensures
        trimmed(before + s + after) == trimmed(s),
{
    let t = before + s + after;
    let (a, b) = lemma_trimmed_range(s);
    let n = before.len() as int;
    if a < b {
        assert forall|k: int| 0 <= k < n + a implies is_space(#[trigger] t[k]) by {
            if k < n {
                assert(t[k] == before[k]);
            } else {
                assert(t[k] == s[k - n]);
            }
        }
        assert(t[n + a] == s[a]);
        lemma_trim_bounds(t, n + a);
        let u = t.skip(n + a);
        assert forall|k: int| b - a <= k < u.len() implies is_space(#[trigger] u[k]) by {
            if k + a < s.len() {
                assert(u[k] == s[k + a]);
            } else {
                assert(u[k] == after[k + a - s.len()]);
            }
        }
        assert(u[b - a - 1] == s[b - 1]);
        lemma_trim_end_bounds(u, b - a);
        assert(u.take(b - a) =~= s.subrange(a, b));
    } else {
        assert forall|k: int| 0 <= k < t.len() implies is_space(#[trigger] t[k]) by {
            if k < n {
                assert(t[k] == before[k]);
            } else if k < n + s.len() {
                assert(t[k] == s[k - n]);
            } else {
                assert(t[k] == after[k - n - s.len()]);
            }
        }
        lemma_trim_bounds(t, t.len() as int);
        assert(t.skip(t.len() as int) =~= Seq::empty());
        assert(s.subrange(a, b) =~= Seq::empty());
    }
}

// ---------------------------------------------------------------------------
// What the helpers promise
// ---------------------------------------------------------------------------
/// The joined text holds every part, in order and as it is, with one space
/// between neighbours and nothing else: its length is that of all parts and of
/// one space less than there are parts, part `i` stands after the first `i`
/// parts and their `i` spaces, and a space stands before it unless it is the
/// first.
pub proof fn law_join_holds_every_part(parts: Seq<Seq<char>>, i: int)
    requires
        0 <= i < parts.len(),
    ensures
        ({
            let at = (parts.take(i).flatten().len() + i) as int;
            &&& spaced(parts).len() == parts.flatten().len() + parts.len() - 1
            &&& at + parts[i].len() <= spaced(parts).len()
            &&& spaced(parts).subrange(at, at + parts[i].len()) == parts[i]
            &&& i > 0 ==> spaced(parts)[at - 1] == ' '
        }),
    decreases parts.len(),
{
    let front = parts.drop_last();
    let last = parts.last();
    assert(front.push(last) =~= parts);
    front.lemma_flatten_push(last);
    if parts.len() == 1 {
        assert(front =~= Seq::empty());
        assert(parts.take(0) =~= Seq::empty());
        assert(parts[0].subrange(0, parts[0].len() as int) =~= parts[0]);
    } else {
        let whole = spaced(parts);
        law_join_holds_every_part(front, if i < front.len() {
            i
        } else {
            0
        });
        let at = (parts.take(i).flatten().len() + i) as int;
        if i < front.len() {
            assert(front.take(i) =~= parts.take(i));
            assert(whole.subrange(at, at + parts[i].len()) =~= spaced(front).subrange(
                at,
                at + parts[i].len(),
            ));
        } else {
            assert(parts.take(i) =~= front);
            assert(whole.subrange(at, at + parts[i].len()) =~= last);
        }
    }
}

/// Joining in pieces is joining at once, a single part is its own text, and
/// nothing joined is nothing.
pub proof fn law_join_composes(a: Seq<Seq<char>>, b: Seq<Seq<char>>, p: Seq<char>)
    ensures
        a.len() > 0 && b.len() > 0 ==> spaced(a + b) == spaced(a) + seq![' '] + spaced(b),
        spaced(seq![p]) == p,
        spaced(Seq::empty()) == Seq::<char>::empty(),
    decreases b.len(),
{
    if a.len() > 0 && b.len() > 0 {
        let front = b.drop_last();
        assert((a + b).drop_last() =~= a + front);
        if front.len() > 0 {
            law_join_composes(a, front, p);
        } else {
            assert(a + front =~= a);
        }
        assert(spaced(a + b) =~= spaced(a) + seq![' '] + spaced(b));
    }
}

/// Trimming takes whitespace away at the two ends and nothing else: what it
/// leaves is a stretch of the text with whitespace alone around it, and it
/// neither begins nor ends with whitespace.
pub proof fn law_trim_takes_whitespace_only(s: Seq<char>)
    ensures
        exists|a: int, b: int|
            #![trigger s.subrange(a, b)]
            {
                &&& 0 <= a <= b <= s.len()
                &&& trimmed(s) == s.subrange(a, b)
                &&& forall|k: int| 0 <= k < a ==> is_space(#[trigger] s[k])
                &&& forall|k: int| b <= k < s.len() ==> is_space(#[trigger] s[k])
            },
        trimmed(s).len() > 0 ==> !is_space(trimmed(s)[0]) && !is_space(
            trimmed(s)[trimmed(s).len() - 1],
        ),
        trimmed(s).len() == 0 <==> (forall|k: int| 0 <= k < s.len() ==> is_space(#[trigger] s[k])),
{
    let (a, b) = lemma_trimmed_range(s);
    assert(trimmed(s) == s.subrange(a, b));
    if a < b {
        assert(trimmed(s)[0] == s[a]);
        assert(trimmed(s)[trimmed(s).len() - 1] == s[b - 1]);
        assert(!is_space(s[a]));
    } else {
        assert forall|k: int| 0 <= k < s.len() implies is_space(#[trigger] s[k]) by {
            assert(k < a || k >= b);
        }
    }
}

/// A text has no whitespace where neither of two halves of it has any, and a
/// single character decides for itself.
pub proof fn law_solid_halves(a: Seq<char>, b: Seq<char>, c: char)
    ensures
        no_space(a + b) <==> no_space(a) && no_space(b),
        no_space(seq![c]) <==> !is_space(c),
        squeezed(a + b) == squeezed(a) + squeezed(b),
        squeezed(seq![c]) == (if is_space(c) {
            Seq::<char>::empty()
        } else {
            seq![c]
        }),
{
    if no_space(a + b) {
        assert forall|i: int| 0 <= i < a.len() implies !is_space(#[trigger] a[i]) by {
            assert((a + b)[i] == a[i]);
        }
        assert forall|i: int| 0 <= i < b.len() implies !is_space(#[trigger] b[i]) by {
            assert((a + b)[a.len() + i] == b[i]);
        }
    }
    assert(seq![c][0] == c);
    Seq::filter_distributes_over_add(a, b, |x: char| !is_space(x));
    reveal(Seq::filter);
    let one = seq![c];
    assert(one.drop_last() =~= Seq::empty());
    assert(one.last() == c);
    assert(Seq::<char>::empty().push(c) =~= one);
    assert(Seq::<char>::empty().filter(|x: char| !is_space(x)) =~= Seq::empty());
}

/// Lowering keeps every character but the capitals of ASCII, and each of those
/// becomes the small letter 32 places on.
pub proof fn law_lowering(s: Seq<char>, i: int)
    requires
        0 <= i < s.len(),
    ensures
        lowered(s).len() == s.len(),
        'A' <= s[i] <= 'Z' ==> lowered(s)[i] as int == s[i] as int + 32,
        !('A' <= s[i] <= 'Z') ==> lowered(s)[i] == s[i],
{
}

/// A text contains what it has between two other texts, and it contains nothing
/// that it cannot be taken apart around.
pub proof fn law_contains(a: Seq<char>, pat: Seq<char>, b: Seq<char>, s: Seq<char>)
    ensures
        contains(a + pat + b, pat),
        contains(s, pat) ==> exists|i: int|
            0 <= i <= s.len() - pat.len() && #[trigger] s.take(i) + pat + s.skip(i + pat.len())
                == s,
{
    let t = a + pat + b;
    assert(t.subrange(a.len() as int, (a.len() + pat.len()) as int) =~= pat);
    assert(occurs_at(t, pat, a.len() as int));
    if contains(s, pat) {
        let i = choose|i: int| occurs_at(s, pat, i);
        let sub = s.subrange(i, i + pat.len());
        assert(s.take(i) + sub + s.skip(i + pat.len()) =~= s);
    }
}

/// Cutting keeps the beginning of a text: all of it where it is short enough,
/// else exactly as much as asked for.
pub proof fn law_cut_keeps_the_beginning(s: Seq<char>, n: nat)
    ensures
        clipped(s, n).is_prefix_of(s),
        s.len() <= n ==> clipped(s, n).len() == s.len(),
        s.len() > n ==> clipped(s, n).len() == n,
{
}

/// The texts of a list stand in its order.
pub proof fn law_views(parts: Seq<String>, i: int)
    requires
        0 <= i < parts.len(),
    ensures
        views(parts).len() == parts.len(),
        views(parts)[i] == parts[i]@,
{
}

} // verus!
