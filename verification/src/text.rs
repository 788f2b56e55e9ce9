//! Text helpers: comparisons and affixes of strings, and decimal numerals.

use vstd::prelude::*;
use vstd::std_specs::iter::IteratorSpec;
use vstd::string::StringSliceAdditionalSpecFns;

verus! {

broadcast use vstd::string::next_postcondition;

/// Whether two strings hold the same characters.
pub fn str_eq(a: &str, b: &str) -> (r: bool)
    ensures
        r == (a@ == b@),
{
    let n = a.unicode_len();
    if n != b.unicode_len() {
        return false;
    }
    let mut i: usize = 0;
    while i < n
        invariant
            n == a@.len(),
            n == b@.len(),
            0 <= i <= n,
            forall|j: int| 0 <= j < i ==> a@[j] == b@[j],
        decreases n - i,
    {
        if a.get_char(i) != b.get_char(i) {
            return false;
        }
        i += 1;
    }
    assert(a@ =~= b@);
    true
}

/// Whether `s` ends with `suffix`.
pub open spec fn has_suffix(s: Seq<char>, suffix: Seq<char>) -> bool {
    suffix.len() <= s.len() && s.subrange(s.len() - suffix.len(), s.len() as int) == suffix
}

/// `s` without `suffix` when it ends with it, else `s` itself.
pub open spec fn strip_suffix_or_self(s: Seq<char>, suffix: Seq<char>) -> Seq<char> {
    if has_suffix(s, suffix) { s.subrange(0, s.len() - suffix.len()) } else { s }
}

/// Whether `s` ends with `suffix`.
pub fn ends_with(s: &str, suffix: &str) -> (r: bool)
    ensures
        r == has_suffix(s@, suffix@),
{
    let n = s.unicode_len();
    let m = suffix.unicode_len();
    if m > n {
        return false;
    }
    let mut i: usize = 0;
    while i < m
        invariant
            n == s@.len(),
            m == suffix@.len(),
            m <= n,
            0 <= i <= m,
            forall|j: int| 0 <= j < i ==> s@[n - m + j] == suffix@[j],
        decreases m - i,
    {
        if s.get_char(n - m + i) != suffix.get_char(i) {
            assert(s@.subrange(n - m, n as int)[i as int] != suffix@[i as int]);
            return false;
        }
        i += 1;
    }
    assert(s@.subrange(n - m, n as int) =~= suffix@);
    true
}

/// `s` without `suffix` when it ends with it, else `s` itself.
pub fn strip_suffix_or_keep(s: &str, suffix: &str) -> (r: String)
    ensures
        r@ == strip_suffix_or_self(s@, suffix@),
{
    if ends_with(s, suffix) {
        let n = s.unicode_len();
        let m = suffix.unicode_len();
        s.substring_char(0, n - m).to_string()
    } else {
        s.to_string()
    }
}

/// Whether `s` starts with `prefix`.
pub open spec fn has_prefix(s: Seq<char>, prefix: Seq<char>) -> bool {
    prefix.len() <= s.len() && s.subrange(0, prefix.len() as int) == prefix
}

/// Whether `s` starts with `prefix`.
pub fn starts_with(s: &str, prefix: &str) -> (r: bool)
    ensures
        r == has_prefix(s@, prefix@),
{
    let n = s.unicode_len();
    let m = prefix.unicode_len();
    if m > n {
        return false;
    }
    let mut i: usize = 0;
    while i < m
        invariant
            n == s@.len(),
            m == prefix@.len(),
            m <= n,
            0 <= i <= m,
            forall|j: int| 0 <= j < i ==> s@[j] == prefix@[j],
        decreases m - i,
    {
        if s.get_char(i) != prefix.get_char(i) {
            assert(s@.subrange(0, m as int)[i as int] != prefix@[i as int]);
            return false;
        }
        i += 1;
    }
    assert(s@.subrange(0, m as int) =~= prefix@);
    true
}

/// Whether `i` is the position of the last dot of `name`.
pub open spec fn is_last_dot(name: Seq<char>, i: int) -> bool {
    0 <= i < name.len() && name[i] == '.' && forall|j: int| i < j < name.len() ==> name[j] != '.'
}

/// There is at most one last dot.
pub proof fn lemma_last_dot_unique(name: Seq<char>, i: int, k: int)
    requires
        is_last_dot(name, i),
        is_last_dot(name, k),
    ensures
        i == k,
{
    if i < k {
        assert(name[k] != '.');
    } else if k < i {
        assert(name[i] != '.');
    }
}

/// The text after the last dot of `s`, or all of `s` when it has no dot (what
/// `s.rsplit('.').next()` gives).
pub open spec fn after_last_dot(s: Seq<char>) -> Seq<char> {
    if exists|i: int| #[trigger] is_last_dot(s, i) {
        let i = choose|i: int| #[trigger] is_last_dot(s, i);
        s.subrange(i + 1, s.len() as int)
    } else {
        s
    }
}

/// The text after the last dot of `s` (see [`after_last_dot`]).
pub fn text_after_last_dot(s: &str) -> (r: String)
    ensures
        r@ == after_last_dot(s@),
{
    let n = s.unicode_len();
    let mut i = n;
    while i > 0
        invariant
            n == s@.len(),
            0 <= i <= n,
            forall|j: int| i <= j < n ==> s@[j] != '.',
        decreases i,
    {
        if s.get_char(i - 1) == '.' {
            let k = i - 1;
            assert(is_last_dot(s@, k as int));
            proof {
                let x = choose|x: int| #[trigger] is_last_dot(s@, x);
                lemma_last_dot_unique(s@, x, k as int);
            }
            return s.substring_char(k + 1, n).to_string();
        }
        i -= 1;
    }
    assert(!exists|x: int| #[trigger] is_last_dot(s@, x));
    s.to_string()
}

/// The character of a decimal digit.
pub open spec fn digit_char(d: nat) -> char {
    if d == 0 { '0' } else if d == 1 { '1' } else if d == 2 { '2' } else if d == 3 { '3' }
    else if d == 4 { '4' } else if d == 5 { '5' } else if d == 6 { '6' } else if d == 7 { '7' }
    else if d == 8 { '8' } else { '9' }
}

/// The decimal numeral of `n`, without leading zeros.
pub open spec fn decimal(n: nat) -> Seq<char>
    decreases n,
{
    if n < 10 {
        seq![digit_char(n)]
    } else {
        decimal(n / 10).push(digit_char(n % 10))
    }
}

fn digit_str(d: u64) -> (s: &'static str)
    requires
        d < 10,
    ensures
        s@ == seq![digit_char(d as nat)],
{
    if d == 0 { proof { reveal_strlit("0"); } "0" }
    else if d == 1 { proof { reveal_strlit("1"); } "1" }
    else if d == 2 { proof { reveal_strlit("2"); } "2" }
    else if d == 3 { proof { reveal_strlit("3"); } "3" }
    else if d == 4 { proof { reveal_strlit("4"); } "4" }
    else if d == 5 { proof { reveal_strlit("5"); } "5" }
    else if d == 6 { proof { reveal_strlit("6"); } "6" }
    else if d == 7 { proof { reveal_strlit("7"); } "7" }
    else if d == 8 { proof { reveal_strlit("8"); } "8" }
    else { proof { reveal_strlit("9"); } "9" }
}

/// The decimal numeral of `n`.
pub fn u64_to_decimal(n: u64) -> (s: String)
    ensures
        s@ == decimal(n as nat),
    decreases n,
{
    if n < 10 {
        digit_str(n).to_string()
    } else {
        let mut s = u64_to_decimal(n / 10);
        s.append(digit_str(n % 10));
        s
    }
}

/// The lowercase form of a string, as `str::to_lowercase` gives it.
pub uninterp spec fn lowercase(s: Seq<char>) -> Seq<char>;

/// Lowercases a string.
///
/// Calls `str::to_lowercase`, which maps each character to its Unicode
/// lowercase; the result is left to the name [`lowercase`].
#[verifier::external_body]
pub(crate) fn to_lowercase(s: &str) -> (r: String)
    ensures
        r@ == lowercase(s@),
{
    s.to_lowercase()
}

/// `a` followed by `b`.
pub fn concat(a: &str, b: &str) -> (r: String)
    ensures
        r@ == a@ + b@,
{
    let mut r = a.to_string();
    r.append(b);
    r
}

/// The characters of a string.
pub fn chars_of(s: &str) -> (v: Vec<char>)
    ensures
        v@ == s@,
{
    let mut v: Vec<char> = Vec::new();
    let mut it = s.chars();
    let ghost all = s@;
    assert(it.remaining() == s@) by {
        broadcast use vstd::string::axiom_spec_iter;
    }
    loop
        invariant
            it.obeys_prophetic_iter_laws(),
            it.decrease() is Some,
            all == s@,
            v@ + it.remaining() == all,
        decreases it.decrease()->0,
    {
        match it.next() {
            Some(c) => {
                v.push(c);
                assert(v@ + it.remaining() =~= all);
            },
            None => {
                assert(v@ =~= all);
                return v;
            },
        }
    }
}

/// The string of the characters `cs[from..to]`.
///
/// Collects the characters with `String::from_iter`, which appends them in
/// order.
#[verifier::external_body]
pub(crate) fn string_of(cs: &[char], from: usize, to: usize) -> (s: String)
    requires
        from <= to <= cs@.len(),
    ensures
        s@ == cs@.subrange(from as int, to as int),
{
    String::from_iter(cs[from..to].iter())
}

/// Whether `c` is white space as `char::is_whitespace` decides: the ASCII
/// space, tab, line feed, vertical tab, form feed and carriage return, and the
/// other characters of Unicode's `White_Space` property.
pub open spec fn is_ws(c: char) -> bool {
    c == ' ' || ('\u{9}' <= c && c <= '\u{d}') || c == '\u{85}' || c == '\u{a0}' || c == '\u{1680}'
        || ('\u{2000}' <= c && c <= '\u{200a}') || c == '\u{2028}' || c == '\u{2029}' || c == '\u{202f}'
        || c == '\u{205f}' || c == '\u{3000}'
}

/// Whether `c` is white space (see [`is_ws`]).
pub fn is_whitespace(c: char) -> (b: bool)
    ensures
        b == is_ws(c),
{
    c == ' ' || ('\u{9}' <= c && c <= '\u{d}') || c == '\u{85}' || c == '\u{a0}' || c == '\u{1680}'
        || ('\u{2000}' <= c && c <= '\u{200a}') || c == '\u{2028}' || c == '\u{2029}' || c == '\u{202f}'
        || c == '\u{205f}' || c == '\u{3000}'
}

/// How many characters of white space lead `s`.
pub open spec fn leading_ws(s: Seq<char>) -> nat
    decreases s.len(),
{
    if s.len() > 0 && is_ws(s[0]) { 1 + leading_ws(s.drop_first()) } else { 0 }
}

/// How many characters of white space end `s`.
pub open spec fn trailing_ws(s: Seq<char>) -> nat
    decreases s.len(),
{
    if s.len() > 0 && is_ws(s.last()) { 1 + trailing_ws(s.drop_last()) } else { 0 }
}

/// `s` without leading and trailing white space, as `str::trim` gives it.
pub open spec fn trim_spec(s: Seq<char>) -> Seq<char> {
    let a = leading_ws(s) as int;
    let b = s.len() - trailing_ws(s);
    if a <= b { s.subrange(a, b) } else { Seq::empty() }
}

proof fn lemma_leading_ws(s: Seq<char>, i: int)
    requires
        0 <= i <= s.len(),
        forall|j: int| 0 <= j < i ==> is_ws(s[j]),
        i == s.len() || !is_ws(s[i]),
    ensures
        leading_ws(s) == i,
    decreases i,
{
    if i > 0 {
        lemma_leading_ws(s.drop_first(), i - 1);
    }
}

proof fn lemma_trailing_ws(s: Seq<char>, k: int)
    requires
        0 <= k <= s.len(),
        forall|j: int| s.len() - k <= j < s.len() ==> is_ws(s[j]),
        k == s.len() || !is_ws(s[s.len() - k - 1]),
    ensures
        trailing_ws(s) == k,
    decreases k,
{
    if k > 0 {
        lemma_trailing_ws(s.drop_last(), k - 1);
    }
}

/// The bounds of `cs[from..to]` without its leading and trailing white space.
pub fn trim_bounds(cs: &Vec<char>, from: usize, to: usize) -> (r: (usize, usize))
    requires
        from <= to <= cs@.len(),
    ensures
        from <= r.0 <= r.1 <= to,
        cs@.subrange(r.0 as int, r.1 as int) == trim_spec(cs@.subrange(from as int, to as int)),
{
    let ghost s = cs@.subrange(from as int, to as int);
    let mut a = from;
    while a < to && is_whitespace(cs[a])
        invariant
            from <= a <= to <= cs@.len(),
            s == cs@.subrange(from as int, to as int),
            forall|j: int| from <= j < a ==> is_ws(cs@[j]),
        decreases to - a,
    {
        a += 1;
    }
    proof { lemma_leading_ws(s, a - from); }
    let mut b = to;
    while b > a && is_whitespace(cs[b - 1])
        invariant
            from <= a <= b <= to <= cs@.len(),
            s == cs@.subrange(from as int, to as int),
            forall|j: int| b <= j < to ==> is_ws(cs@[j]),
        decreases b - a,
    {
        b -= 1;
    }
    proof {
        if b == a {
            if a == to {
                lemma_trailing_ws(s, (to - from) as int);
            } else {
                assert(!is_ws(s[a - from]));
                lemma_trailing_ws(s, to - b);
            }
        } else {
            lemma_trailing_ws(s, to - b);
        }
    }
    assert(cs@.subrange(a as int, b as int) =~= trim_spec(s));
    (a, b)
}

/// Whether `p` occurs in `s` at position `i`.
pub open spec fn occurs_at(s: Seq<char>, p: Seq<char>, i: int) -> bool {
    0 <= i && i + p.len() <= s.len() && s.subrange(i, i + p.len()) == p
}

/// Whether `p` occurs in `s`, as `str::contains` decides.
pub open spec fn contains_spec(s: Seq<char>, p: Seq<char>) -> bool {
    exists|i: int| #[trigger] occurs_at(s, p, i)
}

/// Whether `p` occurs in `cs[from..to]` at `from + i`.
fn occurs_in(cs: &Vec<char>, from: usize, to: usize, p: &Vec<char>, i: usize) -> (b: bool)
    requires
        from <= to <= cs@.len(),
    ensures
        b == occurs_at(cs@.subrange(from as int, to as int), p@, i as int),
{
    let ghost s = cs@.subrange(from as int, to as int);
    if i > to - from || p.len() > to - from - i {
        return false;
    }
    let mut k: usize = 0;
    while k < p.len()
        invariant
            from <= to <= cs@.len(),
            i + p@.len() <= to - from,
            s == cs@.subrange(from as int, to as int),
            0 <= k <= p@.len(),
            forall|j: int| 0 <= j < k ==> cs@[from + i + j] == p@[j],
        decreases p@.len() - k,
    {
        if cs[from + i + k] != p[k] {
            assert(s.subrange(i as int, i + p@.len())[k as int] != p@[k as int]);
            return false;
        }
        k += 1;
    }
    assert(s.subrange(i as int, i + p@.len()) =~= p@);
    true
}

/// Whether `p` occurs in `cs[from..to]`.
pub fn contains_in(cs: &Vec<char>, from: usize, to: usize, p: &Vec<char>) -> (b: bool)
    requires
        from <= to <= cs@.len(),
    ensures
        b == contains_spec(cs@.subrange(from as int, to as int), p@),
{
    let ghost s = cs@.subrange(from as int, to as int);
    if p.len() > to - from {
        assert forall|j: int| !occurs_at(s, p@, j) by {}
        return false;
    }
    let limit = to - from - p.len();
    let mut i: usize = 0;
    loop
        invariant
            from <= to <= cs@.len(),
            p@.len() <= to - from,
            limit == to - from - p@.len(),
            s == cs@.subrange(from as int, to as int),
            0 <= i <= limit,
            forall|j: int| 0 <= j < i ==> !occurs_at(s, p@, j),
        decreases limit - i,
    {
        if occurs_in(cs, from, to, p, i) {
            return true;
        }
        if i == limit {
            assert forall|j: int| !occurs_at(s, p@, j) by {
                if 0 <= j <= i {
                } else if j > i {
                    assert(j + p@.len() > s.len());
                }
            }
            return false;
        }
        i += 1;
    }
}

/// How many times `p` occurs in `s` from position `i` on, counting left to right
/// without overlaps, as `str::matches(..).count()` does.
pub open spec fn count_from(s: Seq<char>, p: Seq<char>, i: int) -> nat
    decreases s.len() - i,
{
    if p.len() == 0 || i < 0 || i + p.len() > s.len() {
        0
    } else if occurs_at(s, p, i) {
        1 + count_from(s, p, i + p.len())
    } else {
        count_from(s, p, i + 1)
    }
}

/// How many times the nonempty `p` occurs, without overlaps, in `cs[from..to]`.
pub fn count_matches_in(cs: &Vec<char>, from: usize, to: usize, p: &Vec<char>) -> (n: usize)
    requires
        from <= to <= cs@.len(),
        p@.len() > 0,
    ensures
        n == count_from(cs@.subrange(from as int, to as int), p@, 0),
{
    let ghost s = cs@.subrange(from as int, to as int);
    let mut i: usize = 0;
    let mut n: usize = 0;
    while i <= to - from && p.len() <= to - from - i
        invariant
            from <= to <= cs@.len(),
            p@.len() > 0,
            s == cs@.subrange(from as int, to as int),
            0 <= i <= to - from,
            n + count_from(s, p@, i as int) == count_from(s, p@, 0),
            n <= i,
        decreases to - from - i,
    {
        if occurs_in(cs, from, to, p, i) {
            n += 1;
            i += p.len();
        } else {
            i += 1;
        }
    }
    n
}

/// Selects the occurrences of `c`.
pub open spec fn is_char(c: char) -> spec_fn(char) -> bool {
    |x: char| x == c
}

/// How many times `c` occurs in `s`.
pub open spec fn count_char_spec(s: Seq<char>, c: char) -> nat {
    s.filter(is_char(c)).len()
}

/// How many times `c` occurs in `cs[from..to]`.
pub fn count_char_in(cs: &Vec<char>, from: usize, to: usize, c: char) -> (n: usize)
    requires
        from <= to <= cs@.len(),
    ensures
        n == count_char_spec(cs@.subrange(from as int, to as int), c),
{
    let ghost s = cs@.subrange(from as int, to as int);
    let ghost f = is_char(c);
    let mut i = from;
    let mut n: usize = 0;
    while i < to
        invariant
            from <= i <= to <= cs@.len(),
            s == cs@.subrange(from as int, to as int),
            f == is_char(c),
            n == s.take(i - from).filter(f).len(),
            n <= i - from,
        decreases to - i,
    {
        proof {
            assert(s.take(i - from + 1) =~= s.take(i - from).push(s[i - from]));
            s.take(i - from).lemma_filter_push(s[i - from], f);
        }
        if cs[i] == c {
            n += 1;
        }
        i += 1;
    }
    assert(s.take(to - from) =~= s);
    n
}

/// The pieces of `s` between newlines: one more piece than there are newlines.
pub open spec fn newline_pieces(s: Seq<char>) -> Seq<Seq<char>>
    decreases s.len(),
{
    if s.len() == 0 {
        seq![Seq::empty()]
    } else {
        let r = newline_pieces(s.drop_last());
        if s.last() == '\n' {
            r.push(Seq::empty())
        } else {
            r.update(r.len() - 1, r.last().push(s.last()))
        }
    }
}

proof fn lemma_pieces_nonempty(s: Seq<char>)
    ensures
        newline_pieces(s).len() >= 1,
    decreases s.len(),
{
    if s.len() > 0 {
        lemma_pieces_nonempty(s.drop_last());
    }
}

/// A piece without its carriage return, when it ends with one.
pub open spec fn strip_cr(piece: Seq<char>) -> Seq<char> {
    if piece.len() > 0 && piece.last() == '\r' { piece.drop_last() } else { piece }
}

/// The lines of `s`, as `str::lines` gives them: split at newlines, a carriage
/// return before a newline dropped, and no empty last line after a final
/// newline.
pub open spec fn lines_spec(s: Seq<char>) -> Seq<Seq<char>> {
    let r = newline_pieces(s);
    let n = if r.last().len() == 0 { r.len() - 1 } else { r.len() as int };
    Seq::new(n as nat, |j: int| if j < r.len() - 1 { strip_cr(r[j]) } else { r[j] })
}

/// Whether `b` holds the bounds, in `cs`, of the lines of `cs` (see
/// [`lines_spec`]).
pub open spec fn line_bounds_of(cs: Seq<char>, b: Seq<(usize, usize)>) -> bool {
    &&& b.len() == lines_spec(cs).len()
    &&& forall|j: int| 0 <= j < b.len() ==> {
        &&& (#[trigger] b[j]).0 <= b[j].1 <= cs.len()
        &&& cs.subrange(b[j].0 as int, b[j].1 as int) == lines_spec(cs)[j]
    }
}

/// The bounds of the lines of `cs`.
pub fn line_bounds(cs: &Vec<char>) -> (b: Vec<(usize, usize)>)
    ensures
        line_bounds_of(cs@, b@),
{
    let n = cs.len();
    let mut out: Vec<(usize, usize)> = Vec::new();
    let mut start: usize = 0;
    let mut i: usize = 0;
    assert(cs@.take(0) =~= Seq::<char>::empty());
    while i < n
        invariant
            n == cs@.len(),
            0 <= start <= i <= n,
            newline_pieces(cs@.take(i as int)).len() == out@.len() + 1,
            newline_pieces(cs@.take(i as int)).last() == cs@.subrange(start as int, i as int),
            forall|j: int| 0 <= j < out@.len() ==> {
                &&& (#[trigger] out@[j]).0 <= out@[j].1 <= start
                &&& cs@.subrange(out@[j].0 as int, out@[j].1 as int) == strip_cr(newline_pieces(cs@.take(i as int))[j])
            },
        decreases n - i,
    {
        let ghost r = newline_pieces(cs@.take(i as int));
        assert(cs@.take(i + 1).drop_last() =~= cs@.take(i as int));
        assert(cs@.take(i + 1).last() == cs@[i as int]);
        if cs[i] == '\n' {
            let mut end = i;
            if end > start && cs[end - 1] == '\r' {
                end = end - 1;
            }
            proof {
                let piece = cs@.subrange(start as int, i as int);
                assert(piece == r.last());
                if i > start && cs@[i - 1] == '\r' {
                    assert(piece.last() == '\r');
                    assert(cs@.subrange(start as int, end as int) =~= piece.drop_last());
                } else {
                    assert(cs@.subrange(start as int, end as int) =~= piece);
                }
            }
            out.push((start, end));
            start = i + 1;
            proof {
                let r2 = newline_pieces(cs@.take(i + 1));
                assert(r2 == r.push(Seq::empty()));
                assert(cs@.subrange(start as int, i + 1) =~= Seq::<char>::empty());
                assert forall|j: int| 0 <= j < out@.len() implies {
                    &&& (#[trigger] out@[j]).0 <= out@[j].1 <= start
                    &&& cs@.subrange(out@[j].0 as int, out@[j].1 as int) == strip_cr(r2[j])
                } by {
                    if j < out@.len() - 1 {
                        assert(r2[j] == r[j]);
                    } else {
                        assert(r2[j] == r.last());
                    }
                }
            }
        } else {
            proof {
                let r2 = newline_pieces(cs@.take(i + 1));
                lemma_pieces_nonempty(cs@.take(i as int));
                assert(r2 == r.update(r.len() - 1, r.last().push(cs@[i as int])));
                assert(cs@.subrange(start as int, i + 1) =~= r.last().push(cs@[i as int]));
                assert forall|j: int| 0 <= j < out@.len() implies {
                    &&& (#[trigger] out@[j]).0 <= out@[j].1 <= start
                    &&& cs@.subrange(out@[j].0 as int, out@[j].1 as int) == strip_cr(r2[j])
                } by {
                    assert(r2[j] == r[j]);
                }
            }
        }
        i += 1;
    }
    assert(cs@.take(n as int) =~= cs@);
    let ghost r = newline_pieces(cs@);
    if start < n {
        let ghost before = out@;
        out.push((start, n));
        proof {
            assert(r.last().len() > 0);
            assert(lines_spec(cs@).len() == r.len());
            assert forall|j: int| 0 <= j < out@.len() implies {
                &&& (#[trigger] out@[j]).0 <= out@[j].1 <= cs@.len()
                &&& cs@.subrange(out@[j].0 as int, out@[j].1 as int) == lines_spec(cs@)[j]
            } by {
                if j < before.len() {
                    assert(out@[j] == before[j]);
                }
            }
        }
    } else {
        proof {
            assert(r.last().len() == 0);
            assert(lines_spec(cs@).len() == r.len() - 1);
        }
    }
    out
}

/// Whether `cs[from..to]` starts with `p`.
pub fn starts_with_in(cs: &Vec<char>, from: usize, to: usize, p: &Vec<char>) -> (b: bool)
    requires
        from <= to <= cs@.len(),
    ensures
        b == has_prefix(cs@.subrange(from as int, to as int), p@),
{
    let ghost s = cs@.subrange(from as int, to as int);
    if p.len() > to - from {
        return false;
    }
    let mut k: usize = 0;
    while k < p.len()
        invariant
            from <= to <= cs@.len(),
            p@.len() <= to - from,
            s == cs@.subrange(from as int, to as int),
            0 <= k <= p@.len(),
            forall|j: int| 0 <= j < k ==> cs@[from + j] == p@[j],
        decreases p@.len() - k,
    {
        if cs[from + k] != p[k] {
            assert(s.subrange(0, p@.len() as int)[k as int] != p@[k as int]);
            return false;
        }
        k += 1;
    }
    assert(s.subrange(0, p@.len() as int) =~= p@);
    true
}

/// Whether `cs[from..to]` ends with `p`.
pub fn ends_with_in(cs: &Vec<char>, from: usize, to: usize, p: &Vec<char>) -> (b: bool)
    requires
        from <= to <= cs@.len(),
    ensures
        b == has_suffix(cs@.subrange(from as int, to as int), p@),
{
    let ghost s = cs@.subrange(from as int, to as int);
    if p.len() > to - from {
        return false;
    }
    let base = to - p.len();
    let mut k: usize = 0;
    while k < p.len()
        invariant
            from <= to <= cs@.len(),
            p@.len() <= to - from,
            base == to - p@.len(),
            s == cs@.subrange(from as int, to as int),
            0 <= k <= p@.len(),
            forall|j: int| 0 <= j < k ==> cs@[base + j] == p@[j],
        decreases p@.len() - k,
    {
        if cs[base + k] != p[k] {
            assert(s.subrange(s.len() - p@.len(), s.len() as int)[k as int] != p@[k as int]);
            return false;
        }
        k += 1;
    }
    assert(s.subrange(s.len() - p@.len(), s.len() as int) =~= p@);
    true
}

/// The length in bytes of the UTF-8 encoding of `s`, as `str::len` gives it.
pub open spec fn byte_len(s: Seq<char>) -> usize {
    vstd::utf8::encode_utf8(s).len() as usize
}

/// The number of bytes of the UTF-8 encoding of `cs[from..to]`.
pub fn utf8_len_of(cs: &Vec<char>, from: usize, to: usize) -> (n: usize)
    requires
        from <= to <= cs@.len(),
    ensures
        n == byte_len(cs@.subrange(from as int, to as int)),
{
    let s = string_of(cs.as_slice(), from, to);
    let st = s.as_str();
    assert(st@ == s@);
    st.len()
}

/// The pieces of `s` between occurrences of `sep`, as `str::split` gives them:
/// one more piece than there are separators.
pub open spec fn split_pieces(s: Seq<char>, sep: char) -> Seq<Seq<char>>
    decreases s.len(),
{
    if s.len() == 0 {
        seq![Seq::empty()]
    } else {
        let r = split_pieces(s.drop_last(), sep);
        if s.last() == sep {
            r.push(Seq::empty())
        } else {
            r.update(r.len() - 1, r.last().push(s.last()))
        }
    }
}

proof fn lemma_split_nonempty(s: Seq<char>, sep: char)
    ensures
        split_pieces(s, sep).len() >= 1,
    decreases s.len(),
{
    if s.len() > 0 {
        lemma_split_nonempty(s.drop_last(), sep);
    }
}

/// The pieces of `s` between occurrences of `sep`, each trimmed of white space.
pub fn split_trimmed(s: &str, sep: char) -> (r: Vec<String>)
    ensures
        r@.map_values(|x: String| x@) == split_pieces(s@, sep).map_values(|p: Seq<char>| trim_spec(p)),
{
    let cs = chars_of(s);
    let n = cs.len();
    let mut out: Vec<String> = Vec::new();
    let mut start: usize = 0;
    let mut i: usize = 0;
    assert(cs@.take(0) =~= Seq::<char>::empty());
    while i < n
        invariant
            n == cs@.len(),
            0 <= start <= i <= n,
            split_pieces(cs@.take(i as int), sep).len() == out@.len() + 1,
            split_pieces(cs@.take(i as int), sep).last() == cs@.subrange(start as int, i as int),
            forall|j: int| 0 <= j < out@.len() ==> (#[trigger] out@[j])@ == trim_spec(split_pieces(cs@.take(i as int), sep)[j]),
        decreases n - i,
    {
        let ghost r = split_pieces(cs@.take(i as int), sep);
        assert(cs@.take(i + 1).drop_last() =~= cs@.take(i as int));
        assert(cs@.take(i + 1).last() == cs@[i as int]);
        proof { lemma_split_nonempty(cs@.take(i as int), sep); }
        if cs[i] == sep {
            let (a, z) = trim_bounds(&cs, start, i);
            let piece = string_of(cs.as_slice(), a, z);
            let ghost before = out@;
            out.push(piece);
            start = i + 1;
            proof {
                let r2 = split_pieces(cs@.take(i + 1), sep);
                assert(r2 == r.push(Seq::empty()));
                assert(cs@.subrange(start as int, i + 1) =~= Seq::<char>::empty());
                assert forall|j: int| 0 <= j < out@.len() implies (#[trigger] out@[j])@ == trim_spec(r2[j]) by {
                    if j < before.len() {
                        assert(out@[j] == before[j]);
                        assert(r2[j] == r[j]);
                    } else {
                        assert(r2[j] == r.last());
                    }
                }
            }
        } else {
            proof {
                let r2 = split_pieces(cs@.take(i + 1), sep);
                assert(r2 == r.update(r.len() - 1, r.last().push(cs@[i as int])));
                assert(cs@.subrange(start as int, i + 1) =~= r.last().push(cs@[i as int]));
                assert forall|j: int| 0 <= j < out@.len() implies (#[trigger] out@[j])@ == trim_spec(r2[j]) by {
                    assert(r2[j] == r[j]);
                }
            }
        }
        i += 1;
    }
    assert(cs@.take(n as int) =~= cs@);
    let (a, z) = trim_bounds(&cs, start, n);
    let piece = string_of(cs.as_slice(), a, z);
    let ghost before = out@;
    out.push(piece);
    proof {
        let r = split_pieces(cs@, sep);
        assert forall|j: int| 0 <= j < out@.len() implies (#[trigger] out@[j])@ == trim_spec(r[j]) by {
            if j < before.len() {
                assert(out@[j] == before[j]);
            }
        }
        assert(out@.map_values(|x: String| x@) =~= r.map_values(|p: Seq<char>| trim_spec(p)));
    }
    out
}

} // verus!
