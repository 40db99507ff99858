//! Texts as sequences of characters: cutting, trimming, searching, reading
//! numbers.

use vstd::prelude::*;
use vstd::std_specs::iter::IteratorSpec;
use crate::seqs::views;

verus! {

broadcast use crate::seqs::group_views;

/// Whether `char::is_whitespace` of the standard library holds of `c`.
pub uninterp spec fn is_whitespace(c: char) -> bool;

/// What `str::to_lowercase` of the standard library makes of `s`.
pub uninterp spec fn lowercased(s: Seq<char>) -> Seq<char>;

/// Calls `char::is_whitespace` of the standard library. The contract only
/// gives the result its name: of one character it is always the same.
#[verifier::external_body]
pub(crate) fn is_space(c: char) -> (r: bool)
    ensures
        r == is_whitespace(c),
{
    c.is_whitespace()
}

/// Calls `str::to_lowercase` of the standard library. The contract only
/// gives the result its name: of one string it is always the same.
#[verifier::external_body]
pub(crate) fn to_lowercase(s: &str) -> (r: String)
    ensures
        r@ == lowercased(s@),
{
    s.to_lowercase()
}

/// Calls `String::push` of the standard library, which appends the
/// character `c` to the string `s`.
#[verifier::external_body]
pub(crate) fn push_char(s: &mut String, c: char)
    ensures
        final(s)@ == old(s)@.push(c),
{
    s.push(c)
}

/// The characters of `s`, in order.
pub fn chars_of(s: &str) -> (r: Vec<char>)
    ensures
        r@ == s@,
{
    let mut r: Vec<char> = Vec::new();
    let mut it = s.chars();
    proof {
        vstd::string::axiom_spec_iter(s);
    }
    assert(s@.skip(0) =~= s@);
    assert(s@.take(0) =~= r@);
    loop
        invariant
            r@.len() <= s@.len(),
            it.remaining() == s@.skip(r@.len() as int),
            r@ == s@.take(r@.len() as int),
        ensures
            r@ == s@,
        decreases s@.len() - r@.len(),
    {
        let ghost n = r@.len() as int;
        let ghost before = it;
        let next = it.next();
        proof {
            vstd::string::next_postcondition(&before, &it, next);
        }
        match next {
            Some(c) => {
                r.push(c);
                assert(s@.skip(n).drop_first() =~= s@.skip(n + 1));
                assert(s@.take(n).push(c) =~= s@.take(n + 1));
            },
            None => {
                assert(s@.take(n) =~= s@);
                break ;
            },
        }
    }
    r
}

/// The string of the characters `cs`.
pub fn string_of(cs: &Vec<char>) -> (r: String)
    ensures
        r@ == cs@,
{
    let mut r = String::new();
    let mut i: usize = 0;
    assert(cs@.take(0) =~= r@);
    while i < cs.len()
        invariant
            i <= cs.len(),
            r@ == cs@.take(i as int),
        decreases cs.len() - i,
    {
        push_char(&mut r, cs[i]);
        assert(cs@.take(i as int).push(cs@[i as int]) =~= cs@.take(i as int + 1));
        i += 1;
    }
    assert(cs@.take(i as int) =~= cs@);
    r
}

/// The characters of `cs` from the place `a` up to the place `b`.
pub fn slice(cs: &Vec<char>, a: usize, b: usize) -> (r: Vec<char>)
    requires
        a <= b <= cs.len(),
    ensures
        r@ == cs@.subrange(a as int, b as int),
{
    let mut r: Vec<char> = Vec::new();
    let mut i: usize = a;
    while i < b
        invariant
            a <= i <= b <= cs.len(),
            r@ == cs@.subrange(a as int, i as int),
        decreases b - i,
    {
        r.push(cs[i]);
        assert(cs@.subrange(a as int, i as int).push(cs@[i as int]) =~= cs@.subrange(
            a as int,
            i as int + 1,
        ));
        i += 1;
    }
    r
}

/// `s` without the whitespace at its start.
pub open spec fn trim_start(s: Seq<char>) -> Seq<char>
    decreases s.len(),
{
    if s.len() > 0 && is_whitespace(s[0]) {
        trim_start(s.drop_first())
    } else {
        s
    }
}

/// `s` without the whitespace at its end.
pub open spec fn trim_end(s: Seq<char>) -> Seq<char>
    decreases s.len(),
{
    if s.len() > 0 && is_whitespace(s.last()) {
        trim_end(s.drop_last())
    } else {
        s
    }
}

/// `s` without the whitespace at its start and at its end.
pub open spec fn trimmed(s: Seq<char>) -> Seq<char> {
    trim_end(trim_start(s))
}

/// Whitespace at the start can be taken off in one piece.
pub proof fn lemma_trim_start_skip(s: Seq<char>, n: int)
    requires
        0 <= n <= s.len(),
        forall|i: int| 0 <= i < n ==> is_whitespace(#[trigger] s[i]),
    ensures
        trim_start(s) == trim_start(s.skip(n)),
    decreases n,
{
    if n > 0 {
        assert(s.drop_first().skip(n - 1) =~= s.skip(n));
        assert forall|i: int| 0 <= i < n - 1 implies is_whitespace(
            #[trigger] s.drop_first()[i],
        ) by {
            assert(s.drop_first()[i] == s[i + 1]);
        }
        lemma_trim_start_skip(s.drop_first(), n - 1);
    } else {
        assert(s.skip(0) =~= s);
    }
}

/// Whitespace at the end can be taken off in one piece.
pub proof fn lemma_trim_end_take(s: Seq<char>, n: int)
    requires
        0 <= n <= s.len(),
        forall|i: int| n <= i < s.len() ==> is_whitespace(#[trigger] s[i]),
    ensures
        trim_end(s) == trim_end(s.take(n)),
    decreases s.len() - n,
{
    if n < s.len() {
        assert(s.drop_last().take(n) =~= s.take(n));
        assert forall|i: int| n <= i < s.drop_last().len() implies is_whitespace(
            #[trigger] s.drop_last()[i],
        ) by {
            assert(s.drop_last()[i] == s[i]);
        }
        lemma_trim_end_take(s.drop_last(), n);
    } else {
        assert(s.take(n) =~= s);
    }
}

/// `cs` without the whitespace at its start and at its end.
pub fn trim(cs: &Vec<char>) -> (r: Vec<char>)
    ensures
        r@ == trimmed(cs@),
{
    let mut a: usize = 0;
    while a < cs.len() && is_space(cs[a])
        invariant
            a <= cs.len(),
            forall|i: int| 0 <= i < a ==> is_whitespace(#[trigger] cs@[i]),
        decreases cs.len() - a,
    {
        a += 1;
    }
    let mut b: usize = cs.len();
    while b > a && is_space(cs[b - 1])
        invariant
            a <= b <= cs.len(),
            forall|i: int| b <= i < cs.len() ==> is_whitespace(#[trigger] cs@[i]),
        decreases b,
    {
        b -= 1;
    }
    proof {
        let s = cs@;
        lemma_trim_start_skip(s, a as int);
        let t = s.skip(a as int);
        assert(trim_start(t) == t);
        lemma_trim_end_take(t, b - a);
        assert(t.take(b - a) =~= s.subrange(a as int, b as int));
        let u = t.take(b - a);
        if u.len() > 0 {
            assert(u.last() == s[b - 1]);
        }
        assert(trim_end(u) == u);
    }
    slice(cs, a, b)
}

/// `s` without the characters `c` at its start.
pub open spec fn strip_start(s: Seq<char>, c: char) -> Seq<char>
    decreases s.len(),
{
    if s.len() > 0 && s[0] == c {
        strip_start(s.drop_first(), c)
    } else {
        s
    }
}

/// `s` without the characters `c` at its end.
pub open spec fn strip_end(s: Seq<char>, c: char) -> Seq<char>
    decreases s.len(),
{
    if s.len() > 0 && s.last() == c {
        strip_end(s.drop_last(), c)
    } else {
        s
    }
}

/// Characters `c` at the start can be taken off in one piece.
pub proof fn lemma_strip_start_skip(s: Seq<char>, c: char, n: int)
    requires
        0 <= n <= s.len(),
        forall|i: int| 0 <= i < n ==> #[trigger] s[i] == c,
    ensures
        strip_start(s, c) == strip_start(s.skip(n), c),
    decreases n,
{
    if n > 0 {
        assert(s.drop_first().skip(n - 1) =~= s.skip(n));
        assert forall|i: int| 0 <= i < n - 1 implies #[trigger] s.drop_first()[i] == c by {
            assert(s.drop_first()[i] == s[i + 1]);
        }
        lemma_strip_start_skip(s.drop_first(), c, n - 1);
    } else {
        assert(s.skip(0) =~= s);
    }
}

/// Characters `c` at the end can be taken off in one piece.
pub proof fn lemma_strip_end_take(s: Seq<char>, c: char, n: int)
    requires
        0 <= n <= s.len(),
        forall|i: int| n <= i < s.len() ==> #[trigger] s[i] == c,
    ensures
        strip_end(s, c) == strip_end(s.take(n), c),
    decreases s.len() - n,
{
    if n < s.len() {
        assert(s.drop_last().take(n) =~= s.take(n));
        assert forall|i: int| n <= i < s.drop_last().len() implies #[trigger] s.drop_last()[i]
            == c by {
            assert(s.drop_last()[i] == s[i]);
        }
        lemma_strip_end_take(s.drop_last(), c, n);
    } else {
        assert(s.take(n) =~= s);
    }
}

/// `cs` without the characters `c` at its start (`front`) and at its end
/// (`back`).
pub fn strip(cs: &Vec<char>, c: char, front: bool, back: bool) -> (r: Vec<char>)
    ensures
        r@ == {
            let s = if front {
                strip_start(cs@, c)
            } else {
                cs@
            };
            if back {
                strip_end(s, c)
            } else {
                s
            }
        },
{
    let mut a: usize = 0;
    while front && a < cs.len() && cs[a] == c
        invariant
            a <= cs.len(),
            forall|i: int| 0 <= i < a ==> #[trigger] cs@[i] == c,
            !front ==> a == 0,
        decreases cs.len() - a,
    {
        a += 1;
    }
    let mut b: usize = cs.len();
    while back && b > a && cs[b - 1] == c
        invariant
            a <= b <= cs.len(),
            forall|i: int| b <= i < cs.len() ==> #[trigger] cs@[i] == c,
            !back ==> b == cs.len(),
        decreases b,
    {
        b -= 1;
    }
    proof {
        let s = cs@;
        let t = s.skip(a as int);
        if front {
            lemma_strip_start_skip(s, c, a as int);
            assert(strip_start(t, c) == t);
        } else {
            assert(t =~= s);
        }
        let u = t.take(b - a);
        assert(u =~= s.subrange(a as int, b as int));
        if back {
            lemma_strip_end_take(t, c, b - a);
            if u.len() > 0 {
                assert(u.last() == s[b - 1]);
            }
            assert(strip_end(u, c) == u);
        } else {
            assert(u =~= t);
        }
    }
    slice(cs, a, b)
}

/// Whether `s` begins with `p`.
pub open spec fn has_prefix(s: Seq<char>, p: Seq<char>) -> bool {
    p.len() <= s.len() && s.take(p.len() as int) == p
}

/// Whether the characters of `cs` from the place `at` on begin with `p`.
pub fn prefix_at(cs: &Vec<char>, at: usize, p: &Vec<char>) -> (r: bool)
    requires
        at <= cs.len(),
    ensures
        r == has_prefix(cs@.skip(at as int), p@),
{
    let ghost s = cs@.skip(at as int);
    if p.len() > cs.len() - at {
        return false;
    }
    let mut i: usize = 0;
    while i < p.len()
        invariant
            i <= p.len() <= cs.len() - at,
            s == cs@.skip(at as int),
            forall|k: int| 0 <= k < i ==> cs@[at + k] == p@[k],
        decreases p.len() - i,
    {
        if cs[at + i] != p[i] {
            assert(s.take(p.len() as int)[i as int] != p@[i as int]);
            return false;
        }
        i += 1;
    }
    assert(s.take(p.len() as int) =~= p@);
    true
}

/// Whether `cs` begins with `p`.
pub fn starts_with(cs: &Vec<char>, p: &str) -> (r: bool)
    ensures
        r == has_prefix(cs@, p@),
{
    let pat = chars_of(p);
    assert(cs@.skip(0) =~= cs@);
    prefix_at(cs, 0, &pat)
}

/// The first place of `s` at which `p` begins.
pub open spec fn first_match(s: Seq<char>, p: Seq<char>) -> Option<int>
    decreases s.len(),
{
    if has_prefix(s, p) {
        Some(0)
    } else if s.len() == 0 {
        None
    } else {
        match first_match(s.drop_first(), p) {
            Some(i) => Some(i + 1),
            None => None,
        }
    }
}

/// Where `p` begins nowhere in a first part, the first place in the whole
/// lies in the rest.
pub proof fn lemma_first_match_skip(s: Seq<char>, p: Seq<char>, n: int)
    requires
        0 <= n <= s.len(),
        forall|i: int| 0 <= i < n ==> !has_prefix(#[trigger] s.skip(i), p),
    ensures
        first_match(s, p) == match first_match(s.skip(n), p) {
            Some(i) => Some(i + n),
            None => None,
        },
    decreases n,
{
    if n > 0 {
        assert(s.skip(0) =~= s);
        assert(s.drop_first().skip(n - 1) =~= s.skip(n));
        assert forall|i: int| 0 <= i < n - 1 implies !has_prefix(
            #[trigger] s.drop_first().skip(i),
            p,
        ) by {
            assert(s.drop_first().skip(i) =~= s.skip(i + 1));
        }
        lemma_first_match_skip(s.drop_first(), p, n - 1);
    } else {
        assert(s.skip(0) =~= s);
    }
}

/// A first place of a match lies within the text, and the match with it.
pub proof fn lemma_first_match_bounds(s: Seq<char>, p: Seq<char>)
    ensures
        first_match(s, p) matches Some(i) ==> 0 <= i && i + p.len() <= s.len(),
    decreases s.len(),
{
    if !has_prefix(s, p) && s.len() > 0 {
        lemma_first_match_bounds(s.drop_first(), p);
    }
}

/// The first place of `cs`, from the place `from` on, at which `p` begins,
/// counted from `from`.
pub fn find(cs: &Vec<char>, from: usize, p: &Vec<char>) -> (r: Option<usize>)
    requires
        from <= cs.len(),
    ensures
        match r {
            Some(i) => first_match(cs@.skip(from as int), p@) == Some(i as int) && from + i
                + p.len() <= cs.len(),
            None => first_match(cs@.skip(from as int), p@) is None,
        },
{
    let ghost s = cs@.skip(from as int);
    let mut i: usize = from;
    loop
        invariant
            from <= i <= cs.len(),
            s == cs@.skip(from as int),
            forall|k: int| 0 <= k < i - from ==> !has_prefix(#[trigger] s.skip(k), p@),
        decreases cs.len() - i,
    {
        assert(s.skip(i - from) =~= cs@.skip(i as int));
        if prefix_at(cs, i, p) {
            proof {
                lemma_first_match_skip(s, p@, i - from);
                lemma_first_match_bounds(s, p@);
            }
            return Some(i - from);
        }
        if i == cs.len() {
            proof {
                lemma_first_match_skip(s, p@, s.len() as int);
            }
            return None;
        }
        i += 1;
    }
}

/// The first place of `s` at which the character `c` stands, or the
/// length of `s` where it stands nowhere.
pub open spec fn index_of(s: Seq<char>, c: char) -> nat
    decreases s.len(),
{
    if s.len() == 0 || s[0] == c {
        0
    } else {
        1 + index_of(s.drop_first(), c)
    }
}

/// Where `c` stands nowhere in a first part, its first place lies there
/// where that part ends, if `c` stands there or the text ends.
pub proof fn lemma_index_of(s: Seq<char>, c: char, n: int)
    requires
        0 <= n <= s.len(),
        forall|i: int| 0 <= i < n ==> #[trigger] s[i] != c,
        n == s.len() || s[n] == c,
    ensures
        index_of(s, c) == n,
    decreases n,
{
    if n > 0 {
        assert forall|i: int| 0 <= i < n - 1 implies #[trigger] s.drop_first()[i] != c by {
            assert(s.drop_first()[i] == s[i + 1]);
        }
        lemma_index_of(s.drop_first(), c, n - 1);
    }
}

/// The first place of `cs`, from the place `from` on, at which the
/// character `c` stands, or the length of `cs`.
pub fn scan(cs: &Vec<char>, from: usize, c: char) -> (r: usize)
    requires
        from <= cs.len(),
    ensures
        from <= r <= cs.len(),
        r - from == index_of(cs@.skip(from as int), c),
{
    let mut i: usize = from;
    while i < cs.len() && cs[i] != c
        invariant
            from <= i <= cs.len(),
            forall|k: int| from <= k < i ==> #[trigger] cs@[k] != c,
        decreases cs.len() - i,
    {
        i += 1;
    }
    proof {
        let s = cs@.skip(from as int);
        assert forall|k: int| 0 <= k < i - from implies #[trigger] s[k] != c by {
            assert(s[k] == cs@[from + k]);
        }
        lemma_index_of(s, c, i - from);
    }
    i
}

/// The line `l` without the carriage return at its end, where it has one.
pub open spec fn without_cr(l: Seq<char>) -> Seq<char> {
    if l.len() > 0 && l.last() == '\r' {
        l.drop_last()
    } else {
        l
    }
}

/// The lines of `s`. A line ends with a line feed, or with a carriage
/// return and a line feed, neither of which belongs to it; the last line
/// may end with the text.
pub open spec fn lines_of(s: Seq<char>) -> Seq<Seq<char>>
    decreases s.len(),
{
    if s.len() == 0 {
        seq![]
    } else {
        let i = index_of(s, '\n');
        if i < s.len() {
            seq![without_cr(s.take(i as int))] + lines_of(s.skip(i as int + 1))
        } else {
            seq![s]
        }
    }
}

/// The lines of `cs`.
pub fn split_lines(cs: &Vec<char>) -> (r: Vec<Vec<char>>)
    ensures
        views(r@) == lines_of(cs@),
{
    let mut r: Vec<Vec<char>> = Vec::new();
    let mut start: usize = 0;
    assert(cs@.skip(0) =~= cs@);
    assert(views(r@) + lines_of(cs@.skip(0)) =~= lines_of(cs@));
    while start < cs.len()
        invariant
            start <= cs.len(),
            views(r@) + lines_of(cs@.skip(start as int)) == lines_of(cs@),
        decreases cs.len() - start,
    {
        let ghost rest = cs@.skip(start as int);
        let ghost before = views(r@);
        let end = scan(cs, start, '\n');
        if end < cs.len() {
            let stop = if end > start && cs[end - 1] == '\r' {
                end - 1
            } else {
                end
            };
            let line = slice(cs, start, stop);
            proof {
                assert(rest.take(end - start) =~= cs@.subrange(start as int, end as int));
                assert(line@ =~= without_cr(rest.take(end - start)));
                assert(rest.skip(end - start + 1) =~= cs@.skip(end as int + 1));
            }
            r.push(line);
            assert(views(r@) + lines_of(cs@.skip(end as int + 1)) =~= before + lines_of(rest));
            start = end + 1;
        } else {
            let line = slice(cs, start, cs.len());
            proof {
                assert(line@ =~= rest);
                assert(cs@.skip(cs.len() as int) =~= seq![]);
            }
            r.push(line);
            assert(views(r@) + lines_of(cs@.skip(cs.len() as int)) =~= before + lines_of(rest));
            start = cs.len();
        }
    }
    assert(cs@.skip(start as int) =~= seq![]);
    assert(views(r@) + lines_of(cs@.skip(start as int)) =~= views(r@));
    r
}

/// The pieces of `s` between the characters `c`: one more than there are
/// such characters.
pub open spec fn split_on(s: Seq<char>, c: char) -> Seq<Seq<char>>
    decreases s.len(),
{
    let i = index_of(s, c);
    if i < s.len() {
        seq![s.take(i as int)] + split_on(s.skip(i as int + 1), c)
    } else {
        seq![s]
    }
}

/// The pieces of `cs` between the characters `c`.
pub fn split(cs: &Vec<char>, c: char) -> (r: Vec<Vec<char>>)
    ensures
        views(r@) == split_on(cs@, c),
{
    let mut r: Vec<Vec<char>> = Vec::new();
    let mut start: usize = 0;
    assert(cs@.skip(0) =~= cs@);
    assert(views(r@) + split_on(cs@.skip(0), c) =~= split_on(cs@, c));
    loop
        invariant
            start <= cs.len(),
            views(r@) + split_on(cs@.skip(start as int), c) == split_on(cs@, c),
        decreases cs.len() - start,
    {
        let ghost rest = cs@.skip(start as int);
        let ghost before = views(r@);
        let end = scan(cs, start, c);
        let piece = slice(cs, start, end);
        proof {
            assert(rest.take(end - start) =~= cs@.subrange(start as int, end as int));
            assert(rest =~= rest.take(rest.len() as int));
        }
        r.push(piece);
        if end < cs.len() {
            proof {
                assert(rest.skip(end - start + 1) =~= cs@.skip(end as int + 1));
                assert(views(r@) + split_on(cs@.skip(end as int + 1), c) =~= before + split_on(
                    rest,
                    c,
                ));
            }
            start = end + 1;
        } else {
            assert(views(r@) =~= before + split_on(rest, c));
            return r;
        }
    }
}

/// How many characters stand at the start of `s` before the first
/// whitespace.
pub open spec fn word_len(s: Seq<char>) -> nat
    decreases s.len(),
{
    if s.len() == 0 || is_whitespace(s[0]) {
        0
    } else {
        1 + word_len(s.drop_first())
    }
}

/// The characters at the start of `s` before the first whitespace.
pub open spec fn first_word(s: Seq<char>) -> Seq<char> {
    s.take(word_len(s) as int)
}

/// What follows the first word of `s` and the whitespace behind it.
pub open spec fn after_first_word(s: Seq<char>) -> Seq<char> {
    trim_start(s.skip(word_len(s) as int))
}

/// A word ends at the first whitespace or with the text.
pub proof fn lemma_word_len(s: Seq<char>, n: int)
    requires
        0 <= n <= s.len(),
        forall|i: int| 0 <= i < n ==> !is_whitespace(#[trigger] s[i]),
        n == s.len() || is_whitespace(s[n]),
    ensures
        word_len(s) == n,
    decreases n,
{
    if n > 0 {
        assert forall|i: int| 0 <= i < n - 1 implies !is_whitespace(
            #[trigger] s.drop_first()[i],
        ) by {
            assert(s.drop_first()[i] == s[i + 1]);
        }
        lemma_word_len(s.drop_first(), n - 1);
    }
}

/// The first word of `cs` and what follows it and the whitespace behind
/// it.
pub fn split_word(cs: &Vec<char>) -> (r: (Vec<char>, Vec<char>))
    ensures
        r.0@ == first_word(cs@),
        r.1@ == after_first_word(cs@),
{
    let mut n: usize = 0;
    while n < cs.len() && !is_space(cs[n])
        invariant
            n <= cs.len(),
            forall|i: int| 0 <= i < n ==> !is_whitespace(#[trigger] cs@[i]),
        decreases cs.len() - n,
    {
        n += 1;
    }
    proof {
        lemma_word_len(cs@, n as int);
    }
    let mut m: usize = n;
    while m < cs.len() && is_space(cs[m])
        invariant
            n <= m <= cs.len(),
            forall|i: int| n <= i < m ==> is_whitespace(#[trigger] cs@[i]),
        decreases cs.len() - m,
    {
        m += 1;
    }
    proof {
        let t = cs@.skip(n as int);
        assert forall|i: int| 0 <= i < m - n implies is_whitespace(#[trigger] t[i]) by {
            assert(t[i] == cs@[n + i]);
        }
        lemma_trim_start_skip(t, m - n);
        assert(t.skip(m - n) =~= cs@.skip(m as int));
        assert(trim_start(cs@.skip(m as int)) == cs@.skip(m as int));
        assert(cs@.skip(m as int) =~= cs@.subrange(m as int, cs.len() as int));
        assert(cs@.take(n as int) =~= cs@.subrange(0, n as int));
    }
    (slice(cs, 0, n), slice(cs, m, cs.len()))
}

/// Whether `c` is one of the ten decimal digits.
pub open spec fn is_digit(c: char) -> bool {
    48 <= c as int <= 57
}

/// Whether `s` holds decimal digits only.
pub open spec fn all_digits(s: Seq<char>) -> bool {
    forall|i: int| 0 <= i < s.len() ==> is_digit(#[trigger] s[i])
}

/// The number that the decimal digits `s` write.
pub open spec fn digits_value(s: Seq<char>) -> nat
    decreases s.len(),
{
    if s.len() == 0 {
        0
    } else {
        (digits_value(s.drop_last()) * 10 + (s.last() as int - 48)) as nat
    }
}

/// The whole number that `s` writes, where it writes one that a machine
/// word holds: a plus or minus sign or none, then at least one decimal
/// digit, and nothing else.
pub open spec fn int_of(s: Seq<char>) -> Option<i64> {
    if s.len() == 0 {
        None
    } else {
        let negative = s[0] == '-';
        let digits = if s[0] == '-' || s[0] == '+' {
            s.drop_first()
        } else {
            s
        };
        let value = if negative {
            -(digits_value(digits) as int)
        } else {
            digits_value(digits) as int
        };
        if digits.len() > 0 && all_digits(digits) && i64::MIN <= value <= i64::MAX {
            Some(value as i64)
        } else {
            None
        }
    }
}

/// More digits do not write a lesser number.
pub proof fn lemma_digits_value_prefix(s: Seq<char>, n: int)
    requires
        0 <= n <= s.len(),
        all_digits(s),
    ensures
        digits_value(s.take(n)) <= digits_value(s),
    decreases s.len(),
{
    if n == s.len() {
        assert(s.take(n) =~= s);
    } else {
        assert(s.drop_last().take(n) =~= s.take(n));
        assert forall|i: int| 0 <= i < s.drop_last().len() implies is_digit(
            #[trigger] s.drop_last()[i],
        ) by {
            assert(s.drop_last()[i] == s[i]);
        }
        lemma_digits_value_prefix(s.drop_last(), n);
        assert(is_digit(s[s.len() - 1]));
    }
}

/// The whole number that `cs` writes.
pub fn parse_int(cs: &Vec<char>) -> (r: Option<i64>)
    ensures
        r == int_of(cs@),
{
    if cs.len() == 0 {
        return None;
    }
    let negative = cs[0] == '-';
    let start: usize = if cs[0] == '-' || cs[0] == '+' {
        1
    } else {
        0
    };
    let ghost digits = cs@.skip(start as int);
    assert(cs@.skip(1) =~= cs@.drop_first());
    assert(cs@.skip(0) =~= cs@);
    if start == cs.len() {
        return None;
    }
    let limit: u64 = if negative {
        0x8000_0000_0000_0000
    } else {
        0x7fff_ffff_ffff_ffff
    };
    let mut acc: u64 = 0;
    let mut i: usize = start;
    assert(digits.take(0) =~= seq![]);
    while i < cs.len()
        invariant
            start <= i <= cs.len(),
            start < cs.len(),
            digits == cs@.skip(start as int),
            negative == (cs@[0] == '-'),
            digits == if cs@[0] == '-' || cs@[0] == '+' {
                cs@.drop_first()
            } else {
                cs@
            },
            limit == if negative {
                0x8000_0000_0000_0000u64
            } else {
                0x7fff_ffff_ffff_ffffu64
            },
            all_digits(digits.take(i - start)),
            acc == digits_value(digits.take(i - start)),
            acc <= limit,
        decreases cs.len() - i,
    {
        let c = cs[i];
        let ghost k = i - start;
        assert(digits[k] == c);
        assert(digits.take(k + 1).drop_last() =~= digits.take(k));
        assert(digits.take(k + 1).last() == c);
        if c < '0' || c > '9' {
            assert(!is_digit(digits[k]));
            return None;
        }
        let d: u64 = (c as u64) - 48;
        assert forall|j: int| 0 <= j < k + 1 implies is_digit(#[trigger] digits.take(k + 1)[j]) by {
            if j < k {
                assert(digits.take(k + 1)[j] == digits.take(k)[j]);
            }
        }
        if acc > (limit - d) / 10 {
            proof {
                assert(digits_value(digits.take(k + 1)) > limit);
                if all_digits(digits) {
                    lemma_digits_value_prefix(digits, k + 1);
                }
            }
            return None;
        }
        acc = acc * 10 + d;
        i += 1;
    }
    assert(digits.take(i - start) =~= digits);
    if negative {
        if acc == 0x8000_0000_0000_0000 {
            Some(i64::MIN)
        } else {
            Some(-(acc as i64))
        }
    } else {
        Some(acc as i64)
    }
}

} // verus!
