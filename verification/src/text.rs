//! Character-level text helpers with their specifications.

use vstd::prelude::*;

verus! {

/// Whether two string slices hold the same characters.
pub fn str_eq(a: &str, b: &str) -> (r: bool)
    ensures
        r == (a@ == b@),
{
    let x = a.to_owned();
    let y = b.to_owned();
    x == y
}

} // verus!

verus! {

/// A copy of an optional string.
pub fn clone_opt_string(o: &Option<String>) -> (r: Option<String>)
    ensures
        r.deep_view() == o.deep_view(),
{
    match o {
        Some(s) => Some(s.clone()),
        None => None,
    }
}

/// A copy of a list of strings.
pub fn clone_strings(v: &Vec<String>) -> (r: Vec<String>)
    ensures
        r.deep_view() == v.deep_view(),
{
    let mut r: Vec<String> = Vec::new();
    let mut i: usize = 0;
    while i < v.len()
        invariant
            i <= v@.len(),
            r@.len() == i,
            forall|j: int| 0 <= j < i ==> #[trigger] r@[j]@ == v@[j]@,
        decreases v@.len() - i,
    {
        r.push(v[i].clone());
        i = i + 1;
    }
    proof {
        assert(r.deep_view() =~= v.deep_view());
    }
    r
}

/// A copy of an optional list of strings.
pub fn clone_opt_strings(o: &Option<Vec<String>>) -> (r: Option<Vec<String>>)
    ensures
        r.deep_view() == o.deep_view(),
{
    match o {
        Some(v) => Some(clone_strings(v)),
        None => None,
    }
}

/// The first of `first`, `second` that is present, else `fallback`.
pub open spec fn pick<A>(first: Option<A>, second: Option<A>, fallback: A) -> A {
    match first {
        Some(x) => x,
        None => match second {
            Some(y) => y,
            None => fallback,
        },
    }
}

/// The first of `first`, `second` that is present.
pub open spec fn either<A>(first: Option<A>, second: Option<A>) -> Option<A> {
    match first {
        Some(x) => Some(x),
        None => second,
    }
}

/// A copy of the first present string of `first`, `second`, else of `fallback`.
pub fn pick_string(first: &Option<String>, second: &Option<String>, fallback: &str) -> (r: String)
    ensures
        r@ == pick(first.deep_view(), second.deep_view(), fallback@),
{
    match first {
        Some(x) => x.clone(),
        None => match second {
            Some(y) => y.clone(),
            None => fallback.to_owned(),
        },
    }
}

/// A copy of the first present string of `first`, `second`.
pub fn either_string(first: &Option<String>, second: &Option<String>) -> (r: Option<String>)
    ensures
        r.deep_view() == either(first.deep_view(), second.deep_view()),
{
    match first {
        Some(x) => Some(x.clone()),
        None => clone_opt_string(second),
    }
}

/// A copy of the first present list of `first`, `second`.
pub fn either_strings(first: &Option<Vec<String>>, second: &Option<Vec<String>>) -> (r: Option<
    Vec<String>,
>)
    ensures
        r.deep_view() == either(first.deep_view(), second.deep_view()),
{
    match first {
        Some(x) => Some(clone_strings(x)),
        None => clone_opt_strings(second),
    }
}

} // verus!

verus! {

/// The characters of `s`.
pub fn chars_of(s: &str) -> (r: Vec<char>)
    ensures
        r@ == s@,
{
    let n = s.unicode_len();
    let mut r: Vec<char> = Vec::new();
    let mut i: usize = 0;
    while i < n
        invariant
            n == s@.len(),
            i <= n,
            r@ == s@.take(i as int),
        decreases n - i,
    {
        r.push(s.get_char(i));
        i = i + 1;
        proof {
            assert(r@ =~= s@.take(i as int));
        }
    }
    proof {
        assert(s@.take(n as int) =~= s@);
    }
    r
}

/// The characters of `s` from position `from` up to `to`, as a new string.
pub fn slice(s: &str, from: usize, to: usize) -> (r: String)
    requires
        from <= to <= s@.len(),
    ensures
        r@ == s@.subrange(from as int, to as int),
{
    s.substring_char(from, to).to_owned()
}

/// Whether `s` begins with `p`.
pub open spec fn starts_with(s: Seq<char>, p: Seq<char>) -> bool {
    p.len() <= s.len() && s.take(p.len() as int) == p
}

/// Whether `cs` holds `p` at position `at`.
fn matches_at(cs: &Vec<char>, at: usize, p: &Vec<char>) -> (r: bool)
    requires
        at <= cs@.len(),
    ensures
        r == starts_with(cs@.skip(at as int), p@),
{
    if p.len() > cs.len() - at {
        return false;
    }
    let total = cs.len();
    let mut j: usize = 0;
    while j < p.len()
        invariant
            total == cs@.len(),
            at + p@.len() <= cs@.len(),
            j <= p@.len(),
            forall|k: int| 0 <= k < j ==> cs@[at + k] == p@[k],
        decreases p@.len() - j,
    {
        if cs[at + j] != p[j] {
            proof {
                assert(cs@.skip(at as int).take(p@.len() as int)[j as int] != p@[j as int]);
            }
            return false;
        }
        j = j + 1;
    }
    proof {
        assert(cs@.skip(at as int).take(p@.len() as int) =~= p@);
    }
    true
}

/// Whether `s` begins with `p`.
pub fn str_starts_with(s: &str, p: &str) -> (r: bool)
    ensures
        r == starts_with(s@, p@),
{
    let cs = chars_of(s);
    let ps = chars_of(p);
    proof {
        assert(cs@.skip(0) =~= cs@);
    }
    matches_at(&cs, 0, &ps)
}

/// `r` with `prefix` put in front of its first element.
pub open spec fn prepend_first(prefix: Seq<char>, r: Seq<Seq<char>>) -> Seq<Seq<char>> {
    r.update(0, prefix + r[0])
}

/// The pieces of `s` between the occurrences of `p`, matched left to right
/// without overlap (as `str::split` with a string pattern gives them).
pub open spec fn split_pat(s: Seq<char>, p: Seq<char>) -> Seq<Seq<char>>
    decreases s.len(),
{
    if s.len() == 0 {
        seq![Seq::empty()]
    } else if p.len() > 0 && starts_with(s, p) {
        seq![Seq::<char>::empty()] + split_pat(s.skip(p.len() as int), p)
    } else {
        prepend_first(seq![s[0]], split_pat(s.drop_first(), p))
    }
}

proof fn lemma_split_pat_nonempty(s: Seq<char>, p: Seq<char>)
    ensures
        split_pat(s, p).len() >= 1,
    decreases s.len(),
{
    if s.len() > 0 {
        if p.len() > 0 && starts_with(s, p) {
            lemma_split_pat_nonempty(s.skip(p.len() as int), p);
        } else {
            lemma_split_pat_nonempty(s.drop_first(), p);
        }
    }
}

/// A text that holds `c` splits at `c` into at least two pieces.
pub proof fn lemma_split_at_held_char(s: Seq<char>, c: char)
    requires
        s.contains(c),
    ensures
        split_pat(s, seq![c]).len() >= 2,
    decreases s.len(),
{
    let p = seq![c];
    if s[0] == c {
        assert(s.take(1) =~= p);
        lemma_split_pat_nonempty(s.skip(1), p);
    } else {
        let i = choose|i: int| 0 <= i < s.len() && s[i] == c;
        assert(s.drop_first()[i - 1] == c);
        assert(!(s.take(1) =~= p) ==> !starts_with(s, p));
        assert(s.take(1)[0] == s[0]);
        lemma_split_at_held_char(s.drop_first(), c);
    }
}

/// The pieces of `s` between the occurrences of `p`.
pub fn split_str(s: &str, p: &str) -> (r: Vec<String>)
    requires
        p@.len() > 0,
    ensures
        r.deep_view() == split_pat(s@, p@),
        r@.len() >= 1,
{
    let cs = chars_of(s);
    let ps = chars_of(p);
    let n = cs.len();
    let mut pieces: Vec<String> = Vec::new();
    let mut start: usize = 0;
    let mut i: usize = 0;
    proof {
        assert(s@.skip(0) =~= s@);
        lemma_split_pat_nonempty(s@, p@);
        assert(s@.subrange(0, 0) =~= Seq::<char>::empty());
        assert(prepend_first(Seq::empty(), split_pat(s@, p@)) =~= split_pat(s@, p@));
        assert(pieces.deep_view() + split_pat(s@, p@) =~= split_pat(s@, p@));
    }
    while i < n
        invariant
            n == s@.len(),
            cs@ == s@,
            ps@ == p@,
            p@.len() > 0,
            start <= i <= n,
            split_pat(s@, p@) == pieces.deep_view() + prepend_first(
                s@.subrange(start as int, i as int),
                split_pat(s@.skip(i as int), p@),
            ),
        decreases n - i,
    {
        let ghost rest = s@.skip(i as int);
        let ghost cur = s@.subrange(start as int, i as int);
        if matches_at(&cs, i, &ps) {
            let ghost old_pieces = pieces.deep_view();
            pieces.push(slice(s, start, i));
            proof {
                assert(rest.skip(p@.len() as int) =~= s@.skip(i + p@.len()));
                lemma_split_pat_nonempty(s@.skip(i + p@.len()), p@);
                assert(pieces.deep_view() =~= old_pieces.push(cur));
                assert(prepend_first(cur, split_pat(rest, p@)) =~= seq![cur] + split_pat(
                    s@.skip(i + p@.len()),
                    p@,
                ));
                assert(prepend_first(Seq::empty(), split_pat(s@.skip(i + p@.len()), p@))
                    =~= split_pat(s@.skip(i + p@.len()), p@));
                assert(s@.subrange((i + p@.len()) as int, (i + p@.len()) as int)
                    =~= Seq::<char>::empty());
            }
            i = i + ps.len();
            start = i;
        } else {
            proof {
                assert(rest.drop_first() =~= s@.skip(i + 1));
                assert(rest[0] == s@[i as int]);
                assert(split_pat(rest, p@) == prepend_first(
                    seq![rest[0]],
                    split_pat(rest.drop_first(), p@),
                ));
                lemma_split_pat_nonempty(s@.skip(i + 1), p@);
                let x = split_pat(s@.skip(i + 1), p@);
                assert(cur + (seq![s@[i as int]] + x[0]) =~= (cur + seq![s@[i as int]]) + x[0]);
                assert(s@.subrange(start as int, i + 1) =~= cur + seq![s@[i as int]]);
                assert(prepend_first(cur, split_pat(rest, p@)) =~= prepend_first(
                    s@.subrange(start as int, i + 1),
                    split_pat(s@.skip(i + 1), p@),
                ));
            }
            i = i + 1;
        }
    }
    let ghost old_pieces = pieces.deep_view();
    pieces.push(slice(s, start, n));
    proof {
        assert(s@.skip(n as int) =~= Seq::<char>::empty());
        assert(pieces.deep_view() =~= old_pieces.push(s@.subrange(start as int, n as int)));
        assert(split_pat(s@, p@) =~= pieces.deep_view());
    }
    pieces
}

} // verus!

verus! {

/// Whether `c` is white space in the sense of Unicode's `White_Space`
/// property (as `char::is_whitespace` decides it).
pub open spec fn is_ws(c: char) -> bool {
    let u = c as u32;
    ||| 9 <= u <= 13
    ||| u == 32
    ||| u == 0x85
    ||| u == 0xa0
    ||| u == 0x1680
    ||| 0x2000 <= u <= 0x200a
    ||| u == 0x2028
    ||| u == 0x2029
    ||| u == 0x202f
    ||| u == 0x205f
    ||| u == 0x3000
}

/// Whether `c` is white space.
pub fn char_is_ws(c: char) -> (r: bool)
    ensures
        r == is_ws(c),
{
    let u = c as u32;
    (9 <= u && u <= 13) || u == 32 || u == 0x85 || u == 0xa0 || u == 0x1680 || (0x2000 <= u
        && u <= 0x200a) || u == 0x2028 || u == 0x2029 || u == 0x202f || u == 0x205f || u == 0x3000
}

/// The pieces of `s` between white-space characters, empty ones included.
pub open spec fn split_ws(s: Seq<char>) -> Seq<Seq<char>>
    decreases s.len(),
{
    if s.len() == 0 {
        seq![Seq::empty()]
    } else if is_ws(s[0]) {
        seq![Seq::<char>::empty()] + split_ws(s.drop_first())
    } else {
        prepend_first(seq![s[0]], split_ws(s.drop_first()))
    }
}

/// Keeps the pieces that are not empty.
pub open spec fn nonempty_piece() -> spec_fn(Seq<char>) -> bool {
    |w: Seq<char>| w.len() > 0
}

/// The maximal runs of non-white-space characters of `s`, in order (as
/// `str::split_whitespace` gives them).
pub open spec fn words(s: Seq<char>) -> Seq<Seq<char>> {
    split_ws(s).filter(nonempty_piece())
}

proof fn lemma_split_ws_nonempty(s: Seq<char>)
    ensures
        split_ws(s).len() >= 1,
    decreases s.len(),
{
    if s.len() > 0 {
        lemma_split_ws_nonempty(s.drop_first());
    }
}

proof fn lemma_filter_single(w: Seq<char>)
    ensures
        seq![w].filter(nonempty_piece()) == if w.len() > 0 {
            seq![w]
        } else {
            Seq::<Seq<char>>::empty()
        },
{
    reveal_with_fuel(Seq::filter, 2);
    assert(seq![w].drop_last() =~= Seq::<Seq<char>>::empty());
    if w.len() > 0 {
        assert(Seq::<Seq<char>>::empty().push(w) =~= seq![w]);
    }
}

/// The words of `s`.
pub fn split_words(s: &str) -> (r: Vec<String>)
    ensures
        r.deep_view() == words(s@),
{
    let cs = chars_of(s);
    let n = cs.len();
    let mut pieces: Vec<String> = Vec::new();
    let mut start: usize = 0;
    let mut i: usize = 0;
    proof {
        assert(s@.skip(0) =~= s@);
        lemma_split_ws_nonempty(s@);
        assert(s@.subrange(0, 0) =~= Seq::<char>::empty());
        assert(prepend_first(Seq::empty(), split_ws(s@)) =~= split_ws(s@));
        assert(pieces.deep_view() + words(s@) =~= words(s@));
    }
    while i < n
        invariant
            n == s@.len(),
            cs@ == s@,
            start <= i <= n,
            words(s@) == pieces.deep_view() + prepend_first(
                s@.subrange(start as int, i as int),
                split_ws(s@.skip(i as int)),
            ).filter(nonempty_piece()),
        decreases n - i,
    {
        let ghost rest = s@.skip(i as int);
        let ghost cur = s@.subrange(start as int, i as int);
        proof {
            assert(rest.drop_first() =~= s@.skip(i + 1));
            assert(rest[0] == s@[i as int]);
            lemma_split_ws_nonempty(s@.skip(i + 1));
        }
        if char_is_ws(cs[i]) {
            let ghost old_pieces = pieces.deep_view();
            let ghost x = split_ws(s@.skip(i + 1));
            proof {
                assert(split_ws(rest) == seq![Seq::<char>::empty()] + x);
                assert(prepend_first(cur, split_ws(rest)) =~= seq![cur] + x);
                Seq::filter_distributes_over_add(seq![cur], x, nonempty_piece());
                lemma_filter_single(cur);
                assert(prepend_first(Seq::empty(), x) =~= x);
                assert(s@.subrange(i + 1, i + 1) =~= Seq::<char>::empty());
            }
            if i > start {
                pieces.push(slice(s, start, i));
                proof {
                    assert(pieces.deep_view() =~= old_pieces + seq![cur]);
                }
            } else {
                proof {
                    assert(cur =~= Seq::<char>::empty());
                    assert(old_pieces + Seq::<Seq<char>>::empty() =~= old_pieces);
                }
            }
            i = i + 1;
            start = i;
        } else {
            proof {
                assert(split_ws(rest) == prepend_first(
                    seq![rest[0]],
                    split_ws(rest.drop_first()),
                ));
                let x = split_ws(s@.skip(i + 1));
                assert(cur + (seq![s@[i as int]] + x[0]) =~= (cur + seq![s@[i as int]]) + x[0]);
                assert(s@.subrange(start as int, i + 1) =~= cur + seq![s@[i as int]]);
                assert(prepend_first(cur, split_ws(rest)) =~= prepend_first(
                    s@.subrange(start as int, i + 1),
                    split_ws(s@.skip(i + 1)),
                ));
            }
            i = i + 1;
        }
    }
    let ghost old_pieces = pieces.deep_view();
    let ghost cur = s@.subrange(start as int, n as int);
    proof {
        assert(s@.skip(n as int) =~= Seq::<char>::empty());
        assert(prepend_first(cur, split_ws(s@.skip(n as int))) =~= seq![cur]);
        lemma_filter_single(cur);
    }
    if n > start {
        pieces.push(slice(s, start, n));
        proof {
            assert(pieces.deep_view() =~= old_pieces + seq![cur]);
        }
    } else {
        proof {
            assert(old_pieces + Seq::<Seq<char>>::empty() =~= old_pieces);
        }
    }
    pieces
}

/// `s` without its leading white space.
pub open spec fn trim_start(s: Seq<char>) -> Seq<char>
    decreases s.len(),
{
    if s.len() > 0 && is_ws(s[0]) {
        trim_start(s.drop_first())
    } else {
        s
    }
}

/// `s` without its trailing white space.
pub open spec fn trim_end(s: Seq<char>) -> Seq<char>
    decreases s.len(),
{
    if s.len() > 0 && is_ws(s.last()) {
        trim_end(s.drop_last())
    } else {
        s
    }
}

/// `s` without leading and trailing white space (as `str::trim` gives it).
pub open spec fn trim(s: Seq<char>) -> Seq<char> {
    trim_end(trim_start(s))
}

/// `s` without leading and trailing white space.
pub fn trim_str(s: &str) -> (r: String)
    ensures
        r@ == trim(s@),
{
    let cs = chars_of(s);
    let n = cs.len();
    let mut a: usize = 0;
    proof {
        assert(s@.skip(0) =~= s@);
    }
    while a < n && char_is_ws(cs[a])
        invariant
            n == s@.len(),
            cs@ == s@,
            a <= n,
            trim_start(s@) == trim_start(s@.skip(a as int)),
        decreases n - a,
    {
        proof {
            assert(s@.skip(a as int).drop_first() =~= s@.skip(a + 1));
            assert(s@.skip(a as int)[0] == s@[a as int]);
        }
        a = a + 1;
    }
    proof {
        if a < n {
            assert(s@.skip(a as int)[0] == s@[a as int]);
        } else {
            assert(s@.skip(a as int) =~= Seq::<char>::empty());
        }
        assert(trim_start(s@) == s@.skip(a as int));
        assert(s@.skip(a as int) =~= s@.subrange(a as int, n as int));
    }
    let mut b: usize = n;
    while b > a && char_is_ws(cs[b - 1])
        invariant
            n == s@.len(),
            cs@ == s@,
            a <= b <= n,
            trim(s@) == trim_end(s@.subrange(a as int, b as int)),
        decreases b,
    {
        proof {
            assert(s@.subrange(a as int, b as int).drop_last() =~= s@.subrange(
                a as int,
                b - 1,
            ));
            assert(s@.subrange(a as int, b as int).last() == s@[b - 1]);
        }
        b = b - 1;
    }
    proof {
        if b > a {
            assert(s@.subrange(a as int, b as int).last() == s@[b - 1]);
        }
    }
    slice(s, a, b)
}

} // verus!

verus! {

/// Keeps the characters other than `c`.
pub open spec fn other_than(c: char) -> spec_fn(char) -> bool {
    |x: char| x != c
}

/// `s` with every `c` taken out (as `str::replace(c, "")` gives it).
pub open spec fn remove_char(s: Seq<char>, c: char) -> Seq<char> {
    s.filter(other_than(c))
}

/// `s` with every `c` taken out.
pub fn remove_char_str(s: &str, c: char) -> (r: String)
    ensures
        r@ == remove_char(s@, c),
{
    let cs = chars_of(s);
    let n = cs.len();
    let mut r = String::new();
    let mut i: usize = 0;
    proof {
        reveal(Seq::filter);
        assert(s@.take(0) =~= Seq::<char>::empty());
    }
    while i < n
        invariant
            n == s@.len(),
            cs@ == s@,
            i <= n,
            r@ == s@.take(i as int).filter(other_than(c)),
        decreases n - i,
    {
        proof {
            reveal(Seq::filter);
            assert(s@.take(i + 1).drop_last() =~= s@.take(i as int));
            assert(s@.take(i + 1).last() == s@[i as int]);
        }
        if cs[i] != c {
            r.append(slice(s, i, i + 1).as_str());
            proof {
                assert(s@.subrange(i as int, i + 1) =~= seq![s@[i as int]]);
                assert(r@ =~= s@.take(i as int).filter(other_than(c)).push(s@[i as int]));
            }
        }
        i = i + 1;
    }
    proof {
        assert(s@.take(n as int) =~= s@);
    }
    r
}

/// `s` with the occurrences of `p`, matched left to right without overlap,
/// taken out (as `str::replace(p, "")` gives it).
pub open spec fn remove_pat(s: Seq<char>, p: Seq<char>) -> Seq<char>
    decreases s.len(),
{
    if s.len() == 0 {
        s
    } else if p.len() > 0 && starts_with(s, p) {
        remove_pat(s.skip(p.len() as int), p)
    } else {
        seq![s[0]] + remove_pat(s.drop_first(), p)
    }
}

/// `s` with the occurrences of `p` taken out.
pub fn remove_str(s: &str, p: &str) -> (r: String)
    requires
        p@.len() > 0,
    ensures
        r@ == remove_pat(s@, p@),
{
    let cs = chars_of(s);
    let ps = chars_of(p);
    let n = cs.len();
    let mut r = String::new();
    let mut i: usize = 0;
    proof {
        assert(s@.skip(0) =~= s@);
        assert(r@ + remove_pat(s@, p@) =~= remove_pat(s@, p@));
    }
    while i < n
        invariant
            n == s@.len(),
            cs@ == s@,
            ps@ == p@,
            p@.len() > 0,
            i <= n,
            remove_pat(s@, p@) == r@ + remove_pat(s@.skip(i as int), p@),
        decreases n - i,
    {
        let ghost rest = s@.skip(i as int);
        if matches_at(&cs, i, &ps) {
            proof {
                assert(rest.skip(p@.len() as int) =~= s@.skip(i + p@.len()));
            }
            i = i + ps.len();
        } else {
            let ghost old_r = r@;
            r.append(slice(s, i, i + 1).as_str());
            proof {
                assert(rest.drop_first() =~= s@.skip(i + 1));
                assert(rest[0] == s@[i as int]);
                assert(s@.subrange(i as int, i + 1) =~= seq![s@[i as int]]);
                assert(r@ + remove_pat(s@.skip(i + 1), p@) =~= old_r + (seq![s@[i as int]]
                    + remove_pat(s@.skip(i + 1), p@)));
            }
            i = i + 1;
        }
    }
    proof {
        assert(s@.skip(n as int) =~= Seq::<char>::empty());
        assert(r@ + Seq::<char>::empty() =~= r@);
    }
    r
}

/// Whether `s` holds `c`.
pub fn contains_char(s: &str, c: char) -> (r: bool)
    ensures
        r == s@.contains(c),
{
    let cs = chars_of(s);
    let n = cs.len();
    let mut i: usize = 0;
    while i < n
        invariant
            n == s@.len(),
            cs@ == s@,
            i <= n,
            forall|j: int| 0 <= j < i ==> s@[j] != c,
        decreases n - i,
    {
        if cs[i] == c {
            proof {
                assert(s@[i as int] == c);
            }
            return true;
        }
        i = i + 1;
    }
    false
}

/// The character of decimal digit `d`.
pub open spec fn digit_char(d: nat) -> char {
    (d + 48) as char
}

/// The decimal notation of `n`, without leading zeros.
pub open spec fn decimal(n: nat) -> Seq<char>
    decreases n,
{
    if n < 10 {
        seq![digit_char(n)]
    } else {
        decimal(n / 10) + seq![digit_char(n % 10)]
    }
}

/// The decimal notation of `n`.
pub fn decimal_string(n: u64) -> (r: String)
    ensures
        r@ == decimal(n as nat),
    decreases n,
{
    let digits = "0123456789";
    proof {
        reveal_strlit("0123456789");
        assert(digits@.len() == 10);
        assert(forall|d: int| 0 <= d < 10 ==> #[trigger] digits@[d] == digit_char(d as nat));
    }
    if n < 10 {
        let d = n as usize;
        let r = slice(digits, d, d + 1);
        proof {
            assert(r@ =~= seq![digit_char(n as nat)]);
        }
        r
    } else {
        let mut r = decimal_string(n / 10);
        let d = (n % 10) as usize;
        let tail = slice(digits, d, d + 1);
        r.append(tail.as_str());
        proof {
            assert(tail@ =~= seq![digit_char((n % 10) as nat)]);
        }
        r
    }
}

} // verus!

verus! {

/// Whether every character of `s` is an ASCII digit.
pub open spec fn all_digits(s: Seq<char>) -> bool {
    forall|i: int| 0 <= i < s.len() ==> '0' <= #[trigger] s[i] <= '9'
}

/// The number the ASCII digits `s` denote.
pub open spec fn digits_value(s: Seq<char>) -> nat
    decreases s.len(),
{
    if s.len() == 0 {
        0
    } else {
        digits_value(s.drop_last()) * 10 + ((s.last() as int - 48) as nat)
    }
}

/// The value `u64::from_str` gives `s`: an optional `+`, then one or more
/// ASCII digits whose value fits in 64 bits.
pub open spec fn parse_u64(s: Seq<char>) -> Option<u64> {
    let body = if s.len() > 0 && s[0] == '+' {
        s.drop_first()
    } else {
        s
    };
    if body.len() > 0 && all_digits(body) && digits_value(body) <= u64::MAX {
        Some(digits_value(body) as u64)
    } else {
        None
    }
}

/// `parse_u64`, with 0 where the text is not a number.
pub open spec fn parse_u64_or_zero(s: Seq<char>) -> u64 {
    match parse_u64(s) {
        Some(v) => v,
        None => 0,
    }
}

proof fn lemma_digits_value_grows(s: Seq<char>, k: int)
    requires
        0 <= k <= s.len(),
        all_digits(s),
    ensures
        digits_value(s.take(k)) <= digits_value(s),
    decreases s.len() - k,
{
    if k < s.len() {
        lemma_digits_value_grows(s, k + 1);
        assert(s.take(k + 1).drop_last() =~= s.take(k));
        assert(s.take(k + 1).last() == s[k]);
        assert(digits_value(s.take(k)) <= digits_value(s.take(k)) * 10) by (nonlinear_arith);
    } else {
        assert(s.take(k) =~= s);
    }
}

/// The value of a decimal number, as `u64::from_str` reads it.
pub fn parse_u64_str(s: &str) -> (r: Option<u64>)
    ensures
        r == parse_u64(s@),
{
    let cs = chars_of(s);
    let n = cs.len();
    let start: usize = if n > 0 && cs[0] == '+' {
        1
    } else {
        0
    };
    let ghost body = s@.skip(start as int);
    proof {
        if start == 1 {
            assert(body =~= s@.drop_first());
        } else {
            assert(body =~= s@);
        }
    }
    if start == n {
        proof {
            assert(body.len() == 0);
        }
        return None;
    }
    let mut value: u64 = 0;
    let mut i: usize = start;
    proof {
        assert(body.take(0) =~= Seq::<char>::empty());
    }
    while i < n
        invariant
            n == s@.len(),
            cs@ == s@,
            start <= i <= n,
            body == s@.skip(start as int),
            body == (if s@.len() > 0 && s@[0] == '+' {
                s@.drop_first()
            } else {
                s@
            }),
            body.len() > 0,
            all_digits(body.take(i - start)),
            value == digits_value(body.take(i - start)),
        decreases n - i,
    {
        let c = cs[i];
        proof {
            assert(body[i - start] == c);
        }
        if c < '0' || c > '9' {
            proof {
                assert(!all_digits(body));
            }
            return None;
        }
        let d = (c as u32 - 48) as u64;
        let ghost prefix = body.take(i - start + 1);
        proof {
            assert(prefix.drop_last() =~= body.take(i - start));
            assert(prefix.last() == c);
            assert(all_digits(prefix));
            assert(digits_value(prefix) == value * 10 + d);
        }
        match value.checked_mul(10) {
            Some(tens) => match tens.checked_add(d) {
                Some(next) => {
                    value = next;
                },
                None => {
                    proof {
                        if all_digits(body) {
                            lemma_digits_value_grows(body, i - start + 1);
                        }
                    }
                    return None;
                },
            },
            None => {
                proof {
                    if all_digits(body) {
                        lemma_digits_value_grows(body, i - start + 1);
                    }
                }
                return None;
            },
        }
        i = i + 1;
    }
    proof {
        assert(body.take(n - start) =~= body);
    }
    Some(value)
}

/// The value of a decimal number, or 0 where the text is not one.
pub fn parse_u64_or_zero_str(s: &str) -> (r: u64)
    ensures
        r == parse_u64_or_zero(s@),
{
    match parse_u64_str(s) {
        Some(v) => v,
        None => 0,
    }
}

} // verus!

verus! {

/// Splitting text that starts with a piece free of `c`: that piece begins
/// the first part.
proof fn lemma_split_free_prefix(a: Seq<char>, b: Seq<char>, c: char)
    requires
        forall|i: int| 0 <= i < a.len() ==> a[i] != c,
    ensures
        split_pat(a + b, seq![c]) == prepend_first(a, split_pat(b, seq![c])),
    decreases a.len(),
{
    let p = seq![c];
    lemma_split_pat_nonempty(b, p);
    if a.len() == 0 {
        assert(a + b =~= b);
        assert(prepend_first(a, split_pat(b, p)) =~= split_pat(b, p));
    } else {
        let ab = a + b;
        assert(ab[0] == a[0]);
        assert(ab.take(1)[0] == a[0]);
        assert(!starts_with(ab, p));
        assert(ab.drop_first() =~= a.drop_first() + b);
        lemma_split_free_prefix(a.drop_first(), b, c);
        assert(seq![a[0]] + a.drop_first() =~= a);
        let r = split_pat(b, p);
        let inner = prepend_first(a.drop_first(), r);
        assert(inner[0] == a.drop_first() + r[0]);
        assert(seq![a[0]] + (a.drop_first() + r[0]) =~= a + r[0]);
        assert(prepend_first(seq![a[0]], inner) =~= prepend_first(a, r));
    }
}

/// Text of the form `label:rest`, where neither `label` nor `rest` holds a
/// `:`, splits at `:` into exactly `label` and `rest`.
pub proof fn lemma_split_labelled(label: Seq<char>, rest: Seq<char>)
    requires
        forall|i: int| 0 <= i < label.len() ==> label[i] != ':',
        forall|i: int| 0 <= i < rest.len() ==> rest[i] != ':',
    ensures
        split_pat(label + seq![':'] + rest, seq![':']) == seq![label, rest],
{
    let p = seq![':'];
    let tail = seq![':'] + rest;
    assert(label + seq![':'] + rest =~= label + tail);
    lemma_split_free_prefix(label, tail, ':');
    assert(tail.take(1) =~= p);
    assert(tail.skip(1) =~= rest);
    assert(split_pat(tail, p) == seq![Seq::<char>::empty()] + split_pat(rest, p));
    lemma_split_free_prefix(rest, Seq::empty(), ':');
    assert(rest + Seq::<char>::empty() =~= rest);
    assert(split_pat(Seq::<char>::empty(), p) == seq![Seq::<char>::empty()]);
    assert(prepend_first(rest, seq![Seq::<char>::empty()]) =~= seq![rest]);
    assert(seq![Seq::<char>::empty()] + seq![rest] =~= seq![Seq::<char>::empty(), rest]);
    assert(prepend_first(label, seq![Seq::<char>::empty(), rest]) =~= seq![label, rest]);
}

/// Taking out a character that text does not hold leaves it unchanged.
pub proof fn lemma_remove_absent_char(s: Seq<char>, c: char)
    requires
        forall|i: int| 0 <= i < s.len() ==> s[i] != c,
    ensures
        remove_char(s, c) == s,
    decreases s.len(),
{
    reveal_with_fuel(Seq::filter, 1);
    if s.len() > 0 {
        lemma_remove_absent_char(s.drop_last(), c);
        assert(s.drop_last().push(s.last()) =~= s);
    }
}

/// Text without white space is one piece when split at white space.
proof fn lemma_split_ws_solid(s: Seq<char>)
    requires
        forall|i: int| 0 <= i < s.len() ==> !is_ws(#[trigger] s[i]),
    ensures
        split_ws(s) == seq![s],
    decreases s.len(),
{
    if s.len() > 0 {
        assert forall|i: int| 0 <= i < s.drop_first().len() implies !is_ws(
            #[trigger] s.drop_first()[i],
        ) by {
            assert(s.drop_first()[i] == s[i + 1]);
        }
        lemma_split_ws_solid(s.drop_first());
        assert(seq![s[0]] + s.drop_first() =~= s);
        assert(prepend_first(seq![s[0]], seq![s.drop_first()]) =~= seq![s]);
    } else {
        assert(s =~= Seq::<char>::empty());
    }
}

/// One space followed by a non-empty run without white space is that one
/// word.
pub proof fn lemma_words_of_spaced_word(w: Seq<char>)
    requires
        w.len() > 0,
        forall|i: int| 0 <= i < w.len() ==> !is_ws(#[trigger] w[i]),
    ensures
        words(seq![' '] + w) == seq![w],
{
    let s = seq![' '] + w;
    assert(is_ws(s[0]));
    assert(s.drop_first() =~= w);
    lemma_split_ws_solid(w);
    assert(split_ws(s) == seq![Seq::<char>::empty()] + seq![w]);
    assert(seq![Seq::<char>::empty()] + seq![w] =~= seq![Seq::<char>::empty()].push(w));
    reveal_with_fuel(Seq::filter, 2);
    assert(seq![Seq::<char>::empty()].push(w).drop_last() =~= seq![Seq::<char>::empty()]);
    assert(seq![Seq::<char>::empty()].drop_last() =~= Seq::<Seq<char>>::empty());
    assert(Seq::<Seq<char>>::empty().push(w) =~= seq![w]);
}

} // verus!
