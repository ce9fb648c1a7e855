//! Verified text helpers: comparisons, splitting, joining, trimming,
//! replacement, and decimal rendering, all specified over `Seq<char>`.

use vstd::prelude::*;

verus! {

/// Whitespace as it occurs around C++ tokens.
pub open spec fn is_space_char(c: char) -> bool {
    c == ' ' || c == '\t' || c == '\n' || c == '\r'
}

pub fn is_space(c: char) -> (b: bool)
    ensures
        b == is_space_char(c),
{
    c == ' ' || c == '\t' || c == '\n' || c == '\r'
}

/// Character-wise string equality.
pub fn str_eq(a: &str, b: &str) -> (r: bool)
    ensures
        r == (a@ == b@),
{
    let n = a.unicode_len();
    if n != b.unicode_len() {
        return false;
    }
    let mut i: usize = 0;
    while i < n
        invariant
            n == a@.len(),
            n == b@.len(),
            i <= n,
            forall|j: int| 0 <= j < i ==> a@[j] == b@[j],
        decreases n - i,
    {
        if a.get_char(i) != b.get_char(i) {
            return false;
        }
        i = i + 1;
    }
    proof {
        assert(a@ =~= b@);
    }
    true
}

pub open spec fn spec_starts_with(s: Seq<char>, p: Seq<char>) -> bool {
    p.len() <= s.len() && s.subrange(0, p.len() as int) == p
}

pub open spec fn spec_ends_with(s: Seq<char>, p: Seq<char>) -> bool {
    p.len() <= s.len() && s.subrange(s.len() - p.len(), s.len() as int) == p
}

pub fn starts_with_str(s: &str, p: &str) -> (r: bool)
    ensures
        r == spec_starts_with(s@, p@),
{
    let np = p.unicode_len();
    if np > s.unicode_len() {
        return false;
    }
    let mut i: usize = 0;
    while i < np
        invariant
            np == p@.len(),
            np <= s@.len(),
            i <= np,
            forall|j: int| 0 <= j < i ==> s@[j] == p@[j],
        decreases np - i,
    {
        if s.get_char(i) != p.get_char(i) {
            proof {
                assert(s@.subrange(0, p@.len() as int)[i as int] != p@[i as int]);
            }
            return false;
        }
        i = i + 1;
    }
    proof {
        assert(s@.subrange(0, p@.len() as int) =~= p@);
    }
    true
}

pub fn ends_with_str(s: &str, p: &str) -> (r: bool)
    ensures
        r == spec_ends_with(s@, p@),
{
    let np = p.unicode_len();
    let ns = s.unicode_len();
    if np > ns {
        return false;
    }
    let off = ns - np;
    let mut i: usize = 0;
    while i < np
        invariant
            np == p@.len(),
            ns == s@.len(),
            np <= ns,
            off == ns - np,
            i <= np,
            forall|j: int| 0 <= j < i ==> s@[off + j] == p@[j],
        decreases np - i,
    {
        if s.get_char(off + i) != p.get_char(i) {
            proof {
                assert(s@.subrange(s@.len() - p@.len(), s@.len() as int)[i as int] != p@[i as int]);
            }
            return false;
        }
        i = i + 1;
    }
    proof {
        assert(s@.subrange(s@.len() - p@.len(), s@.len() as int) =~= p@);
    }
    true
}

/// Copy of the character range `[from, to)` of `s`.
pub fn substr(s: &str, from: usize, to: usize) -> (r: String)
    requires
        from <= to <= s@.len(),
    ensures
        r@ == s@.subrange(from as int, to as int),
{
    let sub = s.substring_char(from, to);
    sub.to_owned()
}

pub fn contains_char(s: &str, c: char) -> (r: bool)
    ensures
        r == s@.contains(c),
{
    let n = s.unicode_len();
    let mut i: usize = 0;
    while i < n
        invariant
            n == s@.len(),
            i <= n,
            forall|j: int| 0 <= j < i ==> s@[j] != c,
        decreases n - i,
    {
        if s.get_char(i) == c {
            return true;
        }
        i = i + 1;
    }
    false
}

pub open spec fn spec_trim_front(s: Seq<char>) -> Seq<char>
    decreases s.len(),
{
    if s.len() > 0 && is_space_char(s[0]) {
        spec_trim_front(s.drop_first())
    } else {
        s
    }
}

pub open spec fn spec_trim_back(s: Seq<char>) -> Seq<char>
    decreases s.len(),
{
    if s.len() > 0 && is_space_char(s[s.len() - 1]) {
        spec_trim_back(s.drop_last())
    } else {
        s
    }
}

/// The string with surrounding whitespace removed.
pub open spec fn spec_trim(s: Seq<char>) -> Seq<char> {
    spec_trim_back(spec_trim_front(s))
}

proof fn lemma_trim_front_skip(s: Seq<char>, lo: int)
    requires
        0 <= lo <= s.len(),
        forall|j: int| 0 <= j < lo ==> is_space_char(s[j]),
        lo == s.len() || !is_space_char(s[lo]),
    ensures
        spec_trim_front(s) == s.skip(lo),
    decreases lo,
{
    if lo == 0 {
        assert(s.skip(0) =~= s);
    } else {
        lemma_trim_front_skip(s.drop_first(), lo - 1);
        assert(s.drop_first().skip(lo - 1) =~= s.skip(lo));
    }
}

proof fn lemma_trim_back_take(s: Seq<char>, hi: int)
    requires
        0 <= hi <= s.len(),
        forall|j: int| hi <= j < s.len() ==> is_space_char(s[j]),
        hi == 0 || !is_space_char(s[hi - 1]),
    ensures
        spec_trim_back(s) == s.take(hi),
    decreases s.len() - hi,
{
    if hi == s.len() {
        assert(s.take(hi) =~= s);
    } else {
        lemma_trim_back_take(s.drop_last(), hi);
        assert(s.drop_last().take(hi) =~= s.take(hi));
    }
}

/// Copy of `s` with surrounding whitespace removed.
pub fn trim_str(s: &str) -> (r: String)
    ensures
        r@ == spec_trim(s@),
{
    let n = s.unicode_len();
    let mut lo: usize = 0;
    while lo < n && is_space(s.get_char(lo))
        invariant
            n == s@.len(),
            lo <= n,
            forall|j: int| 0 <= j < lo ==> is_space_char(s@[j]),
        decreases n - lo,
    {
        lo = lo + 1;
    }
    let mut hi: usize = n;
    while hi > lo && is_space(s.get_char(hi - 1))
        invariant
            n == s@.len(),
            lo <= hi <= n,
            forall|j: int| hi <= j < n ==> is_space_char(s@[j]),
        decreases hi,
    {
        hi = hi - 1;
    }
    let r = substr(s, lo, hi);
    proof {
        lemma_trim_front_skip(s@, lo as int);
        lemma_trim_back_take(s@.skip(lo as int), hi - lo);
        assert(s@.skip(lo as int).take(hi - lo) =~= s@.subrange(lo as int, hi as int));
    }
    r
}

/// `s` concatenated `n` times.
pub open spec fn spec_repeat(s: Seq<char>, n: nat) -> Seq<char>
    decreases n,
{
    if n == 0 {
        Seq::empty()
    } else {
        spec_repeat(s, (n - 1) as nat) + s
    }
}

pub fn repeat_str(s: &str, n: usize) -> (r: String)
    ensures
        r@ == spec_repeat(s@, n as nat),
{
    let mut r = String::new();
    let mut i: usize = 0;
    proof {
        assert(r@ =~= spec_repeat(s@, 0));
    }
    while i < n
        invariant
            i <= n,
            r@ == spec_repeat(s@, i as nat),
        decreases n - i,
    {
        r.append(s);
        i = i + 1;
    }
    r
}

/// Every occurrence of `from` replaced by `to`.
pub fn replace_char(s: &str, from: char, to: char) -> (r: String)
    ensures
        r@ == s@.map_values(|c: char| if c == from { to } else { c }),
{
    let ghost f = |c: char| if c == from { to } else { c };
    let n = s.unicode_len();
    let mut r = String::new();
    let mut i: usize = 0;
    while i < n
        invariant
            n == s@.len(),
            i <= n,
            r@.len() == i,
            forall|c: char| #[trigger] f(c) == (if c == from { to } else { c }),
            forall|j: int| 0 <= j < i ==> r@[j] == f(s@[j]),
        decreases n - i,
    {
        let c = s.get_char(i);
        if c == from {
            r = push_char(r, to);
        } else {
            r = push_char(r, c);
        }
        i = i + 1;
    }
    proof {
        assert(r@ =~= s@.map_values(f));
    }
    r
}

/// The elements of `parts` concatenated with `sep` between each two.
pub open spec fn spec_join(parts: Seq<Seq<char>>, sep: Seq<char>) -> Seq<char>
    decreases parts.len(),
{
    if parts.len() == 0 {
        Seq::empty()
    } else if parts.len() == 1 {
        parts[0]
    } else {
        parts[0] + sep + spec_join(parts.drop_first(), sep)
    }
}

pub open spec fn views_of(parts: Seq<String>) -> Seq<Seq<char>> {
    parts.map_values(|x: String| x@)
}

pub proof fn lemma_join_push(parts: Seq<Seq<char>>, sep: Seq<char>, p: Seq<char>)
    ensures
        spec_join(parts.push(p), sep) == (if parts.len() == 0 {
            p
        } else {
            spec_join(parts, sep) + sep + p
        }),
    decreases parts.len(),
{
    if parts.len() == 0 {
        assert(parts.push(p)[0] == p);
    } else {
        lemma_join_push(parts.drop_first(), sep, p);
        assert(parts.push(p).drop_first() =~= parts.drop_first().push(p));
        assert(parts.push(p)[0] == parts[0]);
        if parts.len() == 1 {
        } else {
            assert(parts[0] + sep + (spec_join(parts.drop_first(), sep) + sep + p) =~= (parts[0]
                + sep + spec_join(parts.drop_first(), sep)) + sep + p);
        }
    }
}

pub fn join_strings(parts: &Vec<String>, sep: &str) -> (r: String)
    ensures
        r@ == spec_join(views_of(parts@), sep@),
{
    let ghost vs = views_of(parts@);
    let mut r = String::new();
    let mut i: usize = 0;
    while i < parts.len()
        invariant
            vs == views_of(parts@),
            vs.len() == parts@.len(),
            i <= parts@.len(),
            r@ == spec_join(vs.take(i as int), sep@),
        decreases parts@.len() - i,
    {
        if i > 0 {
            r.append(sep);
        }
        r.append(parts[i].as_str());
        proof {
            assert(vs[i as int] == parts@[i as int]@);
            lemma_join_push(vs.take(i as int), sep@, vs[i as int]);
            assert(vs.take(i as int).push(vs[i as int]) =~= vs.take(i + 1));
        }
        i = i + 1;
    }
    proof {
        assert(vs.take(parts@.len() as int) =~= vs);
    }
    r
}

pub open spec fn digit_char(d: nat) -> char {
    if d == 0 {
        '0'
    } else if d == 1 {
        '1'
    } else if d == 2 {
        '2'
    } else if d == 3 {
        '3'
    } else if d == 4 {
        '4'
    } else if d == 5 {
        '5'
    } else if d == 6 {
        '6'
    } else if d == 7 {
        '7'
    } else if d == 8 {
        '8'
    } else {
        '9'
    }
}

/// The decimal digits of `n`, most significant first.
pub open spec fn spec_digits(n: nat) -> Seq<char>
    decreases n,
{
    if n < 10 {
        seq![digit_char(n)]
    } else {
        spec_digits(n / 10).push(digit_char(n % 10))
    }
}

fn digit_str(d: u64) -> (r: &'static str)
    requires
        d < 10,
    ensures
        r@ == seq![digit_char(d as nat)],
{
    if d == 0 {
        proof {
            reveal_strlit("0");
        }
        assert("0"@ =~= seq![digit_char(0)]);
        "0"
    } else if d == 1 {
        proof {
            reveal_strlit("1");
        }
        assert("1"@ =~= seq![digit_char(1)]);
        "1"
    } else if d == 2 {
        proof {
            reveal_strlit("2");
        }
        assert("2"@ =~= seq![digit_char(2)]);
        "2"
    } else if d == 3 {
        proof {
            reveal_strlit("3");
        }
        assert("3"@ =~= seq![digit_char(3)]);
        "3"
    } else if d == 4 {
        proof {
            reveal_strlit("4");
        }
        assert("4"@ =~= seq![digit_char(4)]);
        "4"
    } else if d == 5 {
        proof {
            reveal_strlit("5");
        }
        assert("5"@ =~= seq![digit_char(5)]);
        "5"
    } else if d == 6 {
        proof {
            reveal_strlit("6");
        }
        assert("6"@ =~= seq![digit_char(6)]);
        "6"
    } else if d == 7 {
        proof {
            reveal_strlit("7");
        }
        assert("7"@ =~= seq![digit_char(7)]);
        "7"
    } else if d == 8 {
        proof {
            reveal_strlit("8");
        }
        assert("8"@ =~= seq![digit_char(8)]);
        "8"
    } else {
        proof {
            reveal_strlit("9");
        }
        assert("9"@ =~= seq![digit_char(9)]);
        "9"
    }
}

/// Decimal rendering of `n`.
pub fn u64_to_string(n: u64) -> (r: String)
    ensures
        r@ == spec_digits(n as nat),
    decreases n,
{
    if n < 10 {
        digit_str(n).to_owned()
    } else {
        let mut r = u64_to_string(n / 10);
        let d = digit_str(n % 10);
        r.append(d);
        proof {
            assert(spec_digits((n / 10) as nat) + d@ =~= spec_digits((n / 10) as nat).push(
                digit_char((n % 10) as nat),
            ));
        }
        r
    }
}

/// Every non-overlapping occurrence of `pat` replaced by `rep`, scanning left
/// to right; the string is unchanged when `pat` is empty.
pub open spec fn spec_replace(s: Seq<char>, pat: Seq<char>, rep: Seq<char>) -> Seq<char>
    decreases s.len(),
{
    if pat.len() == 0 || s.len() < pat.len() {
        s
    } else if s.take(pat.len() as int) == pat {
        rep + spec_replace(s.skip(pat.len() as int), pat, rep)
    } else {
        seq![s[0]] + spec_replace(s.drop_first(), pat, rep)
    }
}

pub fn replace_all(s: &str, pat: &str, rep: &str) -> (r: String)
    ensures
        r@ == spec_replace(s@, pat@, rep@),
{
    let np = pat.unicode_len();
    let n = s.unicode_len();
    if np == 0 {
        return s.to_owned();
    }
    let mut r = String::new();
    let mut i: usize = 0;
    proof {
        assert(s@.skip(0) =~= s@);
    }
    while i < n
        invariant
            n == s@.len(),
            np == pat@.len(),
            np > 0,
            i <= n,
            spec_replace(s@, pat@, rep@) == r@ + spec_replace(
                s@.skip(i as int),
                pat@,
                rep@,
            ),
        decreases n - i,
    {
        let ghost rem = s@.skip(i as int);
        let mut matched = false;
        if np <= n - i {
            let piece = substr(s, i, i + np);
            matched = str_eq(piece.as_str(), pat);
            proof {
                assert(piece@ =~= rem.take(np as int));
            }
        }
        if matched {
            let ghost oldr = r@;
            r.append(rep);
            i = i + np;
            proof {
                assert(rem.skip(np as int) =~= s@.skip(i as int));
                assert(oldr + spec_replace(rem, pat@, rep@) =~= (oldr + rep@) + spec_replace(
                    s@.skip(i as int),
                    pat@,
                    rep@,
                ));
            }
        } else {
            let ghost oldr = r@;
            let c = s.get_char(i);
            r = push_char(r, c);
            i = i + 1;
            proof {
                assert(rem[0] == s@[i - 1]);
                assert(rem.drop_first() =~= s@.skip(i as int));
                if rem.len() < np {
                    assert(spec_replace(rem, pat@, rep@) == rem);
                    assert(spec_replace(rem.drop_first(), pat@, rep@) == rem.drop_first());
                    assert(rem =~= seq![rem[0]] + rem.drop_first());
                }
                assert(oldr + spec_replace(rem, pat@, rep@) =~= oldr.push(rem[0]) + spec_replace(
                    s@.skip(i as int),
                    pat@,
                    rep@,
                ));
            }
        }
    }
    proof {
        assert(s@.skip(n as int) =~= Seq::<char>::empty());
    }
    r
}

/// The pieces of `s` between occurrences of `sep`, in order; always at least
/// one piece, and none holds `sep`.
pub open spec fn spec_split(s: Seq<char>, sep: char) -> Seq<Seq<char>>
    decreases s.len(),
{
    if s.len() == 0 {
        seq![Seq::<char>::empty()]
    } else if s[0] == sep {
        seq![Seq::<char>::empty()] + spec_split(s.drop_first(), sep)
    } else {
        let rest = spec_split(s.drop_first(), sep);
        seq![seq![s[0]] + rest[0]] + rest.drop_first()
    }
}

pub proof fn lemma_split_nonempty(s: Seq<char>, sep: char)
    ensures
        spec_split(s, sep).len() >= 1,
    decreases s.len(),
{
    if s.len() > 0 {
        lemma_split_nonempty(s.drop_first(), sep);
    }
}

pub fn split_char(s: &str, sep: char) -> (r: Vec<String>)
    ensures
        views_of(r@) == spec_split(s@, sep),
{
    let n = s.unicode_len();
    let mut acc: Vec<String> = Vec::new();
    let mut cur = String::new();
    let mut i: usize = 0;
    proof {
        lemma_split_nonempty(s@, sep);
        assert(views_of(acc@) =~= Seq::<Seq<char>>::empty());
        assert(views_of(acc@) + seq![cur@ + spec_split(s@.skip(0), sep)[0]] + spec_split(
            s@.skip(0),
            sep,
        ).drop_first() =~= spec_split(s@.skip(0), sep));
        assert(s@.skip(0) =~= s@);
    }
    while i < n
        invariant
            n == s@.len(),
            i <= n,
            spec_split(s@, sep) == views_of(acc@) + seq![cur@ + spec_split(
                s@.skip(i as int),
                sep,
            )[0]] + spec_split(s@.skip(i as int), sep).drop_first(),
        decreases n - i,
    {
        let ghost rem = s@.skip(i as int);
        let ghost oldacc = acc@;
        let ghost oldcur = cur@;
        let c = s.get_char(i);
        if c == sep {
            acc.push(cur);
            cur = String::new();
        } else {
            cur = push_char(cur, c);
        }
        i = i + 1;
        proof {
            let rest = spec_split(s@.skip(i as int), sep);
            lemma_split_nonempty(s@.skip(i as int), sep);
            assert(rem[0] == s@[i - 1]);
            assert(rem.drop_first() =~= s@.skip(i as int));
            if s@[i - 1] == sep {
                assert(spec_split(rem, sep) =~= seq![Seq::<char>::empty()] + rest);
                assert(views_of(acc@) =~= views_of(oldacc).push(oldcur));
                assert(oldcur + spec_split(rem, sep)[0] =~= oldcur);
                assert(cur@ + rest[0] =~= rest[0]);
                assert(views_of(acc@) + seq![cur@ + rest[0]] + rest.drop_first() =~= views_of(
                    oldacc,
                ) + seq![oldcur + spec_split(rem, sep)[0]] + spec_split(rem, sep).drop_first());
            } else {
                assert(spec_split(rem, sep) =~= seq![seq![rem[0]] + rest[0]] + rest.drop_first());
                assert(cur@ + rest[0] =~= oldcur + spec_split(rem, sep)[0]);
                assert(views_of(acc@) + seq![cur@ + rest[0]] + rest.drop_first() =~= views_of(
                    oldacc,
                ) + seq![oldcur + spec_split(rem, sep)[0]] + spec_split(rem, sep).drop_first());
            }
        }
    }
    proof {
        assert(s@.skip(n as int) =~= Seq::<char>::empty());
        let rest = spec_split(s@.skip(n as int), sep);
        assert(rest =~= seq![Seq::<char>::empty()]);
        assert(views_of(acc@.push(cur)) =~= views_of(acc@).push(cur@));
        assert(views_of(acc@).push(cur@) =~= views_of(acc@) + seq![cur@ + rest[0]]
            + rest.drop_first());
    }
    acc.push(cur);
    let r = acc;
    r
}

/// An element-wise copy of a vector of strings.
pub fn clone_strings(v: &Vec<String>) -> (r: Vec<String>)
    ensures
        r@ == v@,
{
    let mut r: Vec<String> = Vec::new();
    let mut i: usize = 0;
    while i < v.len()
        invariant
            i <= v@.len(),
            r@.len() == i,
            forall|j: int| 0 <= j < i ==> r@[j] == v@[j],
        decreases v@.len() - i,
    {
        r.push(v[i].clone());
        i = i + 1;
    }
    proof {
        assert(r@ =~= v@);
    }
    r
}

/// Whether one of the strings equals `s`.
pub fn contains_string(v: &Vec<String>, s: &str) -> (r: bool)
    ensures
        r == views_of(v@).contains(s@),
{
    let mut i: usize = 0;
    while i < v.len()
        invariant
            i <= v@.len(),
            forall|j: int| 0 <= j < i ==> views_of(v@)[j] != s@,
        decreases v@.len() - i,
    {
        proof {
            assert(views_of(v@)[i as int] == v@[i as int]@);
        }
        if str_eq(v[i].as_str(), s) {
            return true;
        }
        i = i + 1;
    }
    proof {
        assert(forall|j: int| 0 <= j < views_of(v@).len() ==> views_of(v@)[j] != s@);
    }
    false
}

/// The strings with later repetitions of an earlier string removed.
pub open spec fn spec_dedup(xs: Seq<Seq<char>>) -> Seq<Seq<char>>
    decreases xs.len(),
{
    if xs.len() == 0 {
        Seq::empty()
    } else {
        spec_dedup(xs.drop_last()) + (if xs.drop_last().contains(xs.last()) {
            Seq::empty()
        } else {
            seq![xs.last()]
        })
    }
}

/// Removing repetitions keeps membership.
pub proof fn lemma_dedup_contains(xs: Seq<Seq<char>>, y: Seq<char>)
    ensures
        spec_dedup(xs).contains(y) == xs.contains(y),
    decreases xs.len(),
{
    if xs.len() > 0 {
        lemma_dedup_contains(xs.drop_last(), y);
        if xs.contains(y) {
            if xs.drop_last().contains(y) {
                let k = choose|k: int|
                    0 <= k < spec_dedup(xs.drop_last()).len() && spec_dedup(xs.drop_last())[k]
                        == y;
                assert(spec_dedup(xs)[k] == y);
            } else {
                let k = choose|k: int| 0 <= k < xs.len() && xs[k] == y;
                if k < xs.len() - 1 {
                    assert(xs.drop_last()[k] == y);
                } else {
                    assert(xs.last() == y);
                    assert(spec_dedup(xs)[spec_dedup(xs).len() - 1] == y);
                }
            }
        } else {
            assert(!xs.drop_last().contains(y)) by {
                if xs.drop_last().contains(y) {
                    let k = choose|k: int| 0 <= k < xs.len() - 1 && xs.drop_last()[k] == y;
                    assert(xs[k] == y);
                }
            }
            assert(xs.last() != y) by {
                if xs.last() == y {
                    assert(xs[xs.len() - 1] == y);
                }
            }
            if spec_dedup(xs).contains(y) {
                let k = choose|k: int|
                    0 <= k < spec_dedup(xs).len() && spec_dedup(xs)[k] == y;
                if k < spec_dedup(xs.drop_last()).len() {
                    assert(spec_dedup(xs.drop_last())[k] == y);
                }
            }
        }
    }
}

/// A copy of the strings with later repetitions removed, first occurrences
/// kept in order.
pub fn dedup_strings(v: &Vec<String>) -> (r: Vec<String>)
    ensures
        views_of(r@) == spec_dedup(views_of(v@)),
{
    let ghost vs = views_of(v@);
    let mut r: Vec<String> = Vec::new();
    let mut i: usize = 0;
    proof {
        assert(vs.take(0) =~= Seq::<Seq<char>>::empty());
        assert(views_of(r@) =~= spec_dedup(vs.take(0)));
    }
    while i < v.len()
        invariant
            vs == views_of(v@),
            vs.len() == v@.len(),
            i <= v@.len(),
            views_of(r@) == spec_dedup(vs.take(i as int)),
        decreases v@.len() - i,
    {
        let ghost prev = r@;
        proof {
            assert(vs[i as int] == v@[i as int]@);
            assert(vs.take(i + 1).drop_last() =~= vs.take(i as int));
            assert(vs.take(i + 1).last() == vs[i as int]);
            lemma_dedup_contains(vs.take(i as int), vs[i as int]);
        }
        if !contains_string(&r, v[i].as_str()) {
            r.push(v[i].clone());
            proof {
                assert(views_of(r@) =~= views_of(prev).push(vs[i as int]));
                assert(views_of(prev).push(vs[i as int]) =~= views_of(prev) + seq![
                    vs[i as int],
                ]);
            }
        } else {
            proof {
                assert(views_of(r@) + Seq::<Seq<char>>::empty() =~= views_of(r@));
            }
        }
        i = i + 1;
    }
    proof {
        assert(vs.take(v@.len() as int) =~= vs);
    }
    r
}

/// Index of the first occurrence of `c` in `s`.
pub fn find_char(s: &str, c: char) -> (r: Option<usize>)
    ensures
        match r {
            Some(i) => i < s@.len() && s@[i as int] == c && (forall|j: int|
                0 <= j < i ==> s@[j] != c),
            None => !s@.contains(c),
        },
{
    let n = s.unicode_len();
    let mut i: usize = 0;
    while i < n
        invariant
            n == s@.len(),
            i <= n,
            forall|j: int| 0 <= j < i ==> s@[j] != c,
        decreases n - i,
    {
        if s.get_char(i) == c {
            return Some(i);
        }
        i = i + 1;
    }
    None
}

/// Splitting at the first occurrence of the separator takes off the first
/// piece.
pub proof fn lemma_split_at_first(s: Seq<char>, sep: char, i: int)
    requires
        0 <= i < s.len(),
        s[i] == sep,
        forall|j: int| 0 <= j < i ==> s[j] != sep,
    ensures
        spec_split(s, sep) == seq![s.take(i)] + spec_split(s.skip(i + 1), sep),
    decreases s.len(),
{
    if i == 0 {
        assert(s.take(0) =~= Seq::<char>::empty());
        assert(s.drop_first() =~= s.skip(1));
        assert(spec_split(s, sep) =~= seq![s.take(0)] + spec_split(s.skip(1), sep));
    } else {
        lemma_split_at_first(s.drop_first(), sep, i - 1);
        lemma_split_nonempty(s.drop_first(), sep);
        assert(s.drop_first().take(i - 1) =~= s.take(i).drop_first());
        assert(s.drop_first().skip(i) =~= s.skip(i + 1));
        let rest = spec_split(s.drop_first(), sep);
        assert(rest[0] == s.take(i).drop_first());
        assert(seq![s[0]] + rest[0] =~= s.take(i));
        assert(spec_split(s, sep) =~= seq![s.take(i)] + spec_split(s.skip(i + 1), sep));
    }
}

/// A string without the separator splits into itself alone.
pub proof fn lemma_split_whole(s: Seq<char>, sep: char)
    requires
        !s.contains(sep),
    ensures
        spec_split(s, sep) == seq![s],
    decreases s.len(),
{
    if s.len() > 0 {
        assert(s[0] != sep);
        assert(!s.drop_first().contains(sep)) by {
            assert(forall|j: int|
                0 <= j < s.drop_first().len() ==> s.drop_first()[j] == s[j + 1]);
        }
        lemma_split_whole(s.drop_first(), sep);
        assert(seq![s[0]] + s.drop_first() =~= s);
        assert(spec_split(s, sep) =~= seq![s]);
    } else {
        assert(s =~= Seq::<char>::empty());
        assert(spec_split(s, sep) =~= seq![s]);
    }
}

/// A whitespace-delimited occurrence of `w` starting at position `i` of `s`.
pub open spec fn word_at(s: Seq<char>, w: Seq<char>, i: int) -> bool {
    &&& 0 <= i
    &&& i + w.len() <= s.len()
    &&& s.subrange(i, i + w.len()) == w
    &&& (i == 0 || is_space_char(s[i - 1]))
    &&& (i + w.len() == s.len() || is_space_char(s[i + w.len()]))
}

/// Whether `w` occurs in `s` as a whole whitespace-delimited token.
pub open spec fn spec_contains_word(s: Seq<char>, w: Seq<char>) -> bool {
    exists|i: int| word_at(s, w, i)
}

pub fn contains_word(s: &str, w: &str) -> (r: bool)
    requires
        w@.len() > 0,
    ensures
        r == spec_contains_word(s@, w@),
{
    let n = s.unicode_len();
    let m = w.unicode_len();
    if m > n {
        proof {
            assert(forall|i: int| !word_at(s@, w@, i));
        }
        return false;
    }
    let mut i: usize = 0;
    while i <= n - m
        invariant
            n == s@.len(),
            m == w@.len(),
            m <= n,
            m > 0,
            i <= n - m + 1,
            forall|j: int| 0 <= j < i ==> !word_at(s@, w@, j),
        decreases n - m + 1 - i,
    {
        let left_ok = i == 0 || is_space(s.get_char(i - 1));
        let right_ok = i + m == n || is_space(s.get_char(i + m));
        if left_ok && right_ok {
            let piece = substr(s, i, i + m);
            if str_eq(piece.as_str(), w) {
                proof {
                    assert(word_at(s@, w@, i as int));
                }
                return true;
            }
        }
        i = i + 1;
    }
    proof {
        assert(forall|j: int| j > n - m ==> !word_at(s@, w@, j));
        assert(forall|j: int| !word_at(s@, w@, j));
    }
    false
}

/// Index of the last occurrence of `c` in `s`.
pub fn rfind_char(s: &str, c: char) -> (r: Option<usize>)
    ensures
        match r {
            Some(i) => i < s@.len() && s@[i as int] == c && (forall|j: int|
                i < j < s@.len() ==> s@[j] != c),
            None => !s@.contains(c),
        },
{
    let n = s.unicode_len();
    let mut i: usize = n;
    while i > 0
        invariant
            n == s@.len(),
            i <= n,
            forall|j: int| i <= j < n ==> s@[j] != c,
        decreases i,
    {
        i = i - 1;
        if s.get_char(i) == c {
            return Some(i);
        }
    }
    None
}

/// One `#include "..."` directive line.
pub fn include_line(include_path: &str) -> (r: String)
    ensures
        r@ == "#include \""@ + include_path@ + "\""@ + "\n"@,
{
    let mut r = String::new();
    r.append("#include \"");
    r.append(include_path);
    r.append("\"");
    r.append("\n");
    proof {
        assert(r@ =~= "#include \""@ + include_path@ + "\""@ + "\n"@);
    }
    r
}

/// Relies on `String::push` of std: appends one character at the end.
#[verifier::external_body]
pub fn push_char(s: String, c: char) -> (r: String)
    ensures
        r@ == s@.push(c),
{
    let mut s = s;
    s.push(c);
    s
}

} // verus!
