//! Character-level string helpers shared by the rest of the library.
//!
//! Strings are handled as sequences of `char`s (`Vec<char>` at run time, `Seq<char>` in
//! specifications); [`chars_of`] and [`string_from_chars`] move between the two forms.

use vstd::prelude::*;

verus! {

broadcast use vstd::string::axiom_spec_iter;

/// The characters of `s`, in order.
pub fn chars_of(s: &str) -> (v: Vec<char>)
    ensures
        v@ == s@,
{
    let mut v: Vec<char> = Vec::new();
    for c in it: s.chars()
        invariant
            it.seq() == s@,
            v@ == it.seq().take(it.index() as int),
    {
        v.push(c);
    }
    v
}

/// `String::push`: appends `c` to `s`.
#[verifier::external_body]
fn push_char(s: &mut String, c: char)
    ensures
        final(s)@ == old(s)@.push(c),
{
    s.push(c)
}

/// A `String` holding exactly the characters of `v`.
pub fn string_from_chars(v: &[char]) -> (s: String)
    ensures
        s@ == v@,
{
    let mut s = String::new();
    let mut i: usize = 0;
    while i < v.len()
        invariant
            i <= v.len(),
            s@ == v@.take(i as int),
        decreases v.len() - i,
    {
        push_char(&mut s, v[i]);
        proof {
            assert(v@.take(i as int + 1) =~= v@.take(i as int).push(v@[i as int]));
        }
        i = i + 1;
    }
    assert(v@.take(v.len() as int) =~= v@);
    s
}

/// `char::is_whitespace`: the Unicode `White_Space` property.
pub open spec fn is_white(c: char) -> bool {
    let u = c as u32;
    ||| 0x09 <= u <= 0x0D
    ||| u == 0x20
    ||| u == 0x85
    ||| u == 0xA0
    ||| u == 0x1680
    ||| 0x2000 <= u <= 0x200A
    ||| u == 0x2028
    ||| u == 0x2029
    ||| u == 0x202F
    ||| u == 0x205F
    ||| u == 0x3000
}

pub fn is_white_char(c: char) -> (b: bool)
    ensures
        b == is_white(c),
{
    let u = c as u32;
    (0x09 <= u && u <= 0x0D) || u == 0x20 || u == 0x85 || u == 0xA0 || u == 0x1680 || (0x2000 <= u
        && u <= 0x200A) || u == 0x2028 || u == 0x2029 || u == 0x202F || u == 0x205F || u == 0x3000
}

/// `str::trim_start`.
pub open spec fn trim_start(s: Seq<char>) -> Seq<char>
    decreases s.len(),
{
    if s.len() > 0 && is_white(s[0]) {
        trim_start(s.drop_first())
    } else {
        s
    }
}

/// `str::trim_end`.
pub open spec fn trim_end(s: Seq<char>) -> Seq<char>
    decreases s.len(),
{
    if s.len() > 0 && is_white(s.last()) {
        trim_end(s.drop_last())
    } else {
        s
    }
}

/// `str::trim`.
pub open spec fn trim(s: Seq<char>) -> Seq<char> {
    trim_start(trim_end(s))
}

/// `str::trim_end_matches(c)` for a single character.
pub open spec fn trim_end_char(s: Seq<char>, c: char) -> Seq<char>
    decreases s.len(),
{
    if s.len() > 0 && s.last() == c {
        trim_end_char(s.drop_last(), c)
    } else {
        s
    }
}

/// [`trim_end_char`] leaves no trailing `c`.
pub proof fn lemma_trim_end_char_no_trailing(s: Seq<char>, c: char)
    ensures
        trim_end_char(s, c).len() == 0 || trim_end_char(s, c).last() != c,
    decreases s.len(),
{
    if s.len() > 0 && s.last() == c {
        lemma_trim_end_char_no_trailing(s.drop_last(), c);
    }
}

/// `str::strip_suffix`.
pub open spec fn strip_suffix(s: Seq<char>, suffix: Seq<char>) -> Option<Seq<char>> {
    if suffix.len() <= s.len() && s.subrange(s.len() - suffix.len(), s.len() as int) == suffix {
        Some(s.subrange(0, s.len() - suffix.len()))
    } else {
        None
    }
}

/// The characters `v[lo..hi]` as a fresh vector.
pub fn subvec(v: &Vec<char>, lo: usize, hi: usize) -> (r: Vec<char>)
    requires
        lo <= hi <= v.len(),
    ensures
        r@ == v@.subrange(lo as int, hi as int),
{
    let mut r: Vec<char> = Vec::new();
    let mut i: usize = lo;
    while i < hi
        invariant
            lo <= i <= hi <= v.len(),
            r@ == v@.subrange(lo as int, i as int),
        decreases hi - i,
    {
        r.push(v[i]);
        i = i + 1;
    }
    r
}

/// Index of the first character that [`trim_start`] keeps.
fn trim_start_index(v: &Vec<char>, hi: usize) -> (j: usize)
    requires
        hi <= v.len(),
    ensures
        j <= hi,
        trim_start(v@.subrange(0, hi as int)) == v@.subrange(j as int, hi as int),
{
    let mut j: usize = 0;
    assert(v@.subrange(0, hi as int).subrange(0, hi as int) == v@.subrange(0, hi as int));
    while j < hi && is_white_char(v[j])
        invariant
            j <= hi <= v.len(),
            trim_start(v@.subrange(0, hi as int)) == trim_start(v@.subrange(j as int, hi as int)),
        decreases hi - j,
    {
        assert(v@.subrange(j as int, hi as int).drop_first() == v@.subrange(j + 1, hi as int));
        j = j + 1;
    }
    j
}

/// Index one past the last character that [`trim_end`] keeps.
fn trim_end_index(v: &Vec<char>) -> (k: usize)
    ensures
        k <= v.len(),
        trim_end(v@) == v@.subrange(0, k as int),
{
    let mut k: usize = v.len();
    assert(v@.subrange(0, k as int) == v@);
    while k > 0 && is_white_char(v[k - 1])
        invariant
            k <= v.len(),
            trim_end(v@) == trim_end(v@.subrange(0, k as int)),
        decreases k,
    {
        assert(v@.subrange(0, k as int).drop_last() == v@.subrange(0, k - 1));
        k = k - 1;
    }
    k
}

/// `str::trim` on a character vector.
pub fn trim_chars(v: &Vec<char>) -> (r: Vec<char>)
    ensures
        r@ == trim(v@),
{
    let k = trim_end_index(v);
    let j = trim_start_index(v, k);
    subvec(v, j, k)
}

/// `str::trim_end_matches(c)` on a character vector.
pub fn trim_end_char_chars(v: &Vec<char>, c: char) -> (r: Vec<char>)
    ensures
        r@ == trim_end_char(v@, c),
{
    let mut k: usize = v.len();
    assert(v@.subrange(0, k as int) == v@);
    while k > 0 && v[k - 1] == c
        invariant
            k <= v.len(),
            trim_end_char(v@, c) == trim_end_char(v@.subrange(0, k as int), c),
        decreases k,
    {
        assert(v@.subrange(0, k as int).drop_last() == v@.subrange(0, k - 1));
        k = k - 1;
    }
    subvec(v, 0, k)
}

/// Whether `v[at..at + w.len()]` equals `w`.
pub fn matches_at(v: &Vec<char>, at: usize, w: &Vec<char>) -> (b: bool)
    requires
        at <= v.len(),
    ensures
        b == (at + w.len() <= v.len() && v@.subrange(at as int, at + w.len()) == w@),
{
    if w.len() > v.len() - at {
        return false;
    }
    let mut i: usize = 0;
    while i < w.len()
        invariant
            at + w.len() <= v.len(),
            i <= w.len(),
            forall|k: int| 0 <= k < i ==> v@[at + k] == w@[k],
        decreases w.len() - i,
    {
        if v[at + i] != w[i] {
            assert(v@.subrange(at as int, at + w.len())[i as int] != w@[i as int]);
            return false;
        }
        i = i + 1;
    }
    assert(v@.subrange(at as int, at + w.len()) =~= w@);
    true
}

/// Whether two character vectors are equal.
pub fn chars_eq(a: &Vec<char>, b: &Vec<char>) -> (r: bool)
    ensures
        r == (a@ == b@),
{
    if a.len() != b.len() {
        return false;
    }
    let r = matches_at(a, 0, b);
    assert(a@.subrange(0, a.len() as int) == a@);
    r
}

/// `str::strip_suffix` on character vectors.
pub fn strip_suffix_chars(v: &Vec<char>, suffix: &Vec<char>) -> (r: Option<Vec<char>>)
    ensures
        match strip_suffix(v@, suffix@) {
            Some(s) => r matches Some(x) && x@ == s,
            None => r is None,
        },
{
    if suffix.len() > v.len() {
        return None;
    }
    let at = v.len() - suffix.len();
    if matches_at(v, at, suffix) {
        Some(subvec(v, 0, at))
    } else {
        None
    }
}

/// Lexicographic order on character sequences by code point — the order of `String`'s `Ord`
/// (UTF-8 preserves code point order).
pub open spec fn lex_lt(a: Seq<char>, b: Seq<char>) -> bool
    decreases a.len(),
{
    if a.len() == 0 {
        b.len() > 0
    } else if b.len() == 0 {
        false
    } else if a[0] != b[0] {
        (a[0] as u32) < (b[0] as u32)
    } else {
        lex_lt(a.drop_first(), b.drop_first())
    }
}

/// No sequence is before itself.
pub proof fn lemma_lex_irreflexive(a: Seq<char>)
    ensures
        !lex_lt(a, a),
    decreases a.len(),
{
    if a.len() > 0 {
        lemma_lex_irreflexive(a.drop_first());
    }
}

/// Of two different sequences, one is before the other.
pub proof fn lemma_lex_total(a: Seq<char>, b: Seq<char>)
    ensures
        a == b || lex_lt(a, b) || lex_lt(b, a),
    decreases a.len(),
{
    if a.len() > 0 && b.len() > 0 && a[0] == b[0] {
        lemma_lex_total(a.drop_first(), b.drop_first());
        if a.drop_first() == b.drop_first() {
            assert(a =~= seq![a[0]] + a.drop_first());
            assert(b =~= seq![b[0]] + b.drop_first());
        }
    } else if a.len() > 0 && b.len() > 0 {
        let (x, y) = (a[0] as u32, b[0] as u32);
        assert(x != y) by {
            vstd::utf8::char_u32_cast(a[0], x);
            vstd::utf8::char_u32_cast(b[0], y);
        }
    } else if a.len() == 0 && b.len() == 0 {
        assert(a =~= b);
    }
}

/// The order is transitive.
pub proof fn lemma_lex_transitive(a: Seq<char>, b: Seq<char>, c: Seq<char>)
    requires
        lex_lt(a, b),
        lex_lt(b, c),
    ensures
        lex_lt(a, c),
    decreases a.len(),
{
    if a.len() > 0 && b.len() > 0 && c.len() > 0 && a[0] == b[0] && b[0] == c[0] {
        lemma_lex_transitive(a.drop_first(), b.drop_first(), c.drop_first());
    }
}

/// Whether `a` sorts strictly before `b` in [`lex_lt`] order.
pub fn chars_lt(a: &Vec<char>, b: &Vec<char>) -> (r: bool)
    ensures
        r == lex_lt(a@, b@),
{
    let mut i: usize = 0;
    assert(a@.subrange(0, a@.len() as int) == a@);
    assert(b@.subrange(0, b@.len() as int) == b@);
    while i < a.len() && i < b.len() && a[i] == b[i]
        invariant
            i <= a.len(),
            i <= b.len(),
            lex_lt(a@, b@) == lex_lt(
                a@.subrange(i as int, a@.len() as int),
                b@.subrange(i as int, b@.len() as int),
            ),
        decreases a.len() - i,
    {
        assert(a@.subrange(i as int, a@.len() as int).drop_first() == a@.subrange(
            i + 1,
            a@.len() as int,
        ));
        assert(b@.subrange(i as int, b@.len() as int).drop_first() == b@.subrange(
            i + 1,
            b@.len() as int,
        ));
        i = i + 1;
    }
    if i == a.len() {
        i < b.len()
    } else if i == b.len() {
        false
    } else {
        (a[i] as u32) < (b[i] as u32)
    }
}

/// `s` is strictly increasing in [`lex_lt`] order (sorted, without duplicates).
pub open spec fn strictly_sorted(s: Seq<Seq<char>>) -> bool {
    forall|i: int, j: int| 0 <= i < j < s.len() ==> lex_lt(s[i], s[j])
}

/// The views of a vector of strings.
pub open spec fn views(v: Seq<String>) -> Seq<Seq<char>> {
    v.map_values(|s: String| s@)
}

/// The position where `x` belongs in the strictly sorted `names`, and whether it is already
/// there.
pub fn sorted_position(names: &Vec<String>, x: &Vec<char>) -> (r: (usize, bool))
    requires
        strictly_sorted(views(names@)),
    ensures
        r.0 <= names.len(),
        r.1 ==> r.0 < names.len() && names@[r.0 as int]@ == x@,
        !r.1 ==> forall|k: int| 0 <= k < names.len() ==> names@[k]@ != x@,
        forall|k: int| 0 <= k < r.0 ==> lex_lt(names@[k]@, x@),
        !r.1 ==> forall|k: int| r.0 <= k < names.len() ==> lex_lt(x@, names@[k]@),
{
    let mut i: usize = 0;
    while i < names.len()
        invariant
            i <= names.len(),
            strictly_sorted(views(names@)),
            forall|k: int| 0 <= k < i ==> lex_lt(names@[k]@, x@),
        decreases names.len() - i,
    {
        let n = chars_of(names[i].as_str());
        if !chars_lt(&n, x) {
            proof {
                lemma_lex_total(n@, x@);
            }
            if chars_eq(&n, x) {
                return (i, true);
            }
            proof {
                assert forall|k: int| i <= k < names.len() implies lex_lt(x@, names@[k]@) by {
                    if k > i {
                        assert(lex_lt(views(names@)[i as int], views(names@)[k]));
                        lemma_lex_transitive(x@, n@, names@[k]@);
                    }
                }
                assert forall|k: int| 0 <= k < names.len() implies names@[k]@ != x@ by {
                    lemma_lex_irreflexive(x@);
                }
            }
            return (i, false);
        }
        i = i + 1;
    }
    proof {
        assert forall|k: int| 0 <= k < names.len() implies names@[k]@ != x@ by {
            lemma_lex_irreflexive(x@);
        }
    }
    (i, false)
}

/// Append the characters of `w` to `v`.
pub fn push_all(v: &mut Vec<char>, w: &Vec<char>)
    ensures
        final(v)@ == old(v)@ + w@,
{
    let ghost start = v@;
    let mut i: usize = 0;
    while i < w.len()
        invariant
            i <= w.len(),
            v@ == start + w@.subrange(0, i as int),
        decreases w.len() - i,
    {
        v.push(w[i]);
        i = i + 1;
    }
    assert(w@.subrange(0, w@.len() as int) == w@);
}

/// Append the characters of `s` to `v`.
pub fn push_str(v: &mut Vec<char>, s: &str)
    ensures
        final(v)@ == old(v)@ + s@,
{
    let w = chars_of(s);
    push_all(v, &w);
}

/// The decimal digit character for `d < 10`.
pub open spec fn digit_char(d: nat) -> char {
    (48 + d) as char
}

/// The decimal representation of `n`, without leading zeros (`u64`'s `Display`).
pub open spec fn decimal(n: nat) -> Seq<char>
    decreases n,
{
    if n < 10 {
        seq![digit_char(n)]
    } else {
        decimal(n / 10).push(digit_char(n % 10))
    }
}

fn digit(d: u64) -> (c: char)
    requires
        d < 10,
    ensures
        c == digit_char(d as nat),
{
    if d == 0 {
        '0'
    } else if d == 1 {
        '1'
    } else if d == 2 {
        '2'
    } else if d == 3 {
        '3'
    } else if d == 4 {
        '4'
    } else if d == 5 {
        '5'
    } else if d == 6 {
        '6'
    } else if d == 7 {
        '7'
    } else if d == 8 {
        '8'
    } else {
        '9'
    }
}

/// The decimal representation of `n`.
pub fn decimal_chars(n: u64) -> (r: Vec<char>)
    ensures
        r@ == decimal(n as nat),
    decreases n,
{
    if n < 10 {
        let mut r: Vec<char> = Vec::new();
        r.push(digit(n));
        assert(r@ =~= seq![digit_char(n as nat)]);
        r
    } else {
        let mut r = decimal_chars(n / 10);
        r.push(digit(n % 10));
        r
    }
}

/// The index of the first `c` in `s`, or `s.len()` when there is none.
pub open spec fn find_char(s: Seq<char>, c: char) -> nat
    decreases s.len(),
{
    if s.len() == 0 {
        0
    } else if s[0] == c {
        0
    } else {
        1 + find_char(s.drop_first(), c)
    }
}

/// The first `c` in `v[lo..hi]`, or `hi`.
pub fn find_char_from(v: &Vec<char>, lo: usize, hi: usize, c: char) -> (r: usize)
    requires
        lo <= hi <= v.len(),
    ensures
        lo <= r <= hi,
        r - lo == find_char(v@.subrange(lo as int, hi as int), c),
        r < hi ==> v@[r as int] == c,
        forall|k: int| lo <= k < r ==> v@[k] != c,
{
    let mut i: usize = lo;
    while i < hi && v[i] != c
        invariant
            lo <= i <= hi <= v.len(),
            find_char(v@.subrange(lo as int, hi as int), c) == (i - lo) + find_char(
                v@.subrange(i as int, hi as int),
                c,
            ),
            forall|k: int| lo <= k < i ==> v@[k] != c,
        decreases hi - i,
    {
        assert(v@.subrange(i as int, hi as int).drop_first() =~= v@.subrange(i + 1, hi as int));
        i = i + 1;
    }
    i
}

/// `s` without its leading run of non-whitespace characters.
pub open spec fn skip_token(s: Seq<char>) -> Seq<char>
    decreases s.len(),
{
    if s.len() > 0 && !is_white(s[0]) {
        skip_token(s.drop_first())
    } else {
        s
    }
}

/// The leading run of non-whitespace characters of `s`.
pub open spec fn token(s: Seq<char>) -> Seq<char> {
    s.subrange(0, s.len() - skip_token(s).len())
}

/// The first index in `v[lo..hi]` whose whiteness differs from `white` (or `hi`):
/// [`trim_start`] when `white`, [`skip_token`] otherwise.
pub fn skip_from(v: &Vec<char>, lo: usize, hi: usize, white: bool) -> (j: usize)
    requires
        lo <= hi <= v.len(),
    ensures
        lo <= j <= hi,
        white ==> trim_start(v@.subrange(lo as int, hi as int)) == v@.subrange(j as int, hi as int),
        !white ==> skip_token(v@.subrange(lo as int, hi as int)) == v@.subrange(j as int, hi as int),
        forall|k: int| lo <= k < j ==> is_white(v@[k]) == white,
{
    let mut j: usize = lo;
    while j < hi && is_white_char(v[j]) == white
        invariant
            lo <= j <= hi <= v.len(),
            white ==> trim_start(v@.subrange(lo as int, hi as int)) == trim_start(
                v@.subrange(j as int, hi as int),
            ),
            !white ==> skip_token(v@.subrange(lo as int, hi as int)) == skip_token(
                v@.subrange(j as int, hi as int),
            ),
            forall|k: int| lo <= k < j ==> is_white(v@[k]) == white,
        decreases hi - j,
    {
        assert(v@.subrange(j as int, hi as int).drop_first() =~= v@.subrange(j + 1, hi as int));
        j = j + 1;
    }
    j
}

/// The index of the first element of `options` equal to `choice`, or `0` when none is (a menu
/// selection mapped back to its position).
pub fn position_or_zero(options: &Vec<String>, choice: &str) -> (r: usize)
    ensures
        (exists|i: int| 0 <= i < options.len() && options@[i]@ == choice@) ==> {
            &&& r < options.len()
            &&& options@[r as int]@ == choice@
            &&& forall|k: int| 0 <= k < r ==> options@[k]@ != choice@
        },
        (forall|i: int| 0 <= i < options.len() ==> options@[i]@ != choice@) ==> r == 0,
{
    let c = chars_of(choice);
    let mut i: usize = 0;
    while i < options.len()
        invariant
            i <= options.len(),
            c@ == choice@,
            forall|k: int| 0 <= k < i ==> options@[k]@ != choice@,
        decreases options.len() - i,
    {
        if chars_eq(&chars_of(options[i].as_str()), &c) {
            return i;
        }
        i = i + 1;
    }
    0
}

/// The second `c`-separated piece of `s` (`s.split(c).nth(1)`): the text between the first
/// `c` and the next one (or the end); `None` when `s` has no `c`.
pub open spec fn second_piece(s: Seq<char>, c: char) -> Option<Seq<char>> {
    let p = find_char(s, c);
    if p < s.len() {
        let rest = s.subrange(p + 1int, s.len() as int);
        Some(rest.subrange(0, find_char(rest, c) as int))
    } else {
        None
    }
}

/// The bounds `(lo, hi)` of [`second_piece`] within `v`.
pub fn second_piece_bounds(v: &Vec<char>, c: char) -> (r: Option<(usize, usize)>)
    ensures
        match second_piece(v@, c) {
            Some(p) => r matches Some((lo, hi)) && lo <= hi <= v.len() && v@.subrange(
                lo as int,
                hi as int,
            ) == p,
            None => r is None,
        },
{
    let n = v.len();
    let p = find_char_from(v, 0, n, c);
    assert(v@.subrange(0, n as int) == v@);
    if p == n {
        return None;
    }
    let e = find_char_from(v, p + 1, n, c);
    assert(v@.subrange(p + 1, e as int) =~= v@.subrange(p + 1, n as int).subrange(
        0,
        (e - (p + 1)) as int,
    ));
    Some((p + 1, e))
}


/// The pieces joined with `sep` between neighbours (`slice::join`).
pub open spec fn join(parts: Seq<Seq<char>>, sep: Seq<char>) -> Seq<char>
    decreases parts.len(),
{
    if parts.len() == 0 {
        Seq::empty()
    } else if parts.len() == 1 {
        parts[0]
    } else {
        join(parts.drop_last(), sep) + sep + parts.last()
    }
}

/// The strings of `items` joined with `sep` between neighbours.
pub fn join_strings(items: &Vec<String>, sep: &str) -> (r: String)
    ensures
        r@ == join(views(items@), sep@),
{
    let mut out: Vec<char> = Vec::new();
    let mut i: usize = 0;
    while i < items.len()
        invariant
            i <= items.len(),
            out@ == join(views(items@).take(i as int), sep@),
        decreases items.len() - i,
    {
        let ghost parts = views(items@).take(i as int + 1);
        assert(parts.drop_last() =~= views(items@).take(i as int));
        assert(parts.last() == items@[i as int]@);
        if i > 0 {
            push_str(&mut out, sep);
        }
        push_str(&mut out, items[i].as_str());
        proof {
            if i == 0 {
                assert(out@ =~= parts[0]);
            }
        }
        i = i + 1;
    }
    assert(views(items@).take(items.len() as int) =~= views(items@));
    string_from_chars(out.as_slice())
}


/// An ASCII decimal digit.
pub open spec fn is_digit(c: char) -> bool {
    '0' <= c <= '9'
}

/// Every character of `s` is an ASCII decimal digit.
pub open spec fn all_digits(s: Seq<char>) -> bool {
    forall|i: int| 0 <= i < s.len() ==> is_digit(#[trigger] s[i])
}

/// The number that the decimal digits `s` spell.
pub open spec fn digits_value(s: Seq<char>) -> nat
    decreases s.len(),
{
    if s.len() == 0 {
        0
    } else {
        digits_value(s.drop_last()) * 10 + (s.last() as nat - 48) as nat
    }
}

/// `u64`'s `FromStr`: an optional leading `+`, then one or more ASCII digits whose value fits
/// in a `u64`.
pub open spec fn spec_parse_u64(s: Seq<char>) -> Option<u64> {
    let d = if s.len() > 0 && s[0] == '+' {
        s.drop_first()
    } else {
        s
    };
    if d.len() > 0 && all_digits(d) && digits_value(d) <= u64::MAX {
        Some(digits_value(d) as u64)
    } else {
        None
    }
}

/// The value of a prefix of digits is at most the value of all of them.
pub proof fn lemma_digits_prefix(s: Seq<char>, i: int)
    requires
        all_digits(s),
        0 <= i <= s.len(),
    ensures
        digits_value(s.take(i)) <= digits_value(s),
    decreases s.len() - i,
{
    if i < s.len() {
        lemma_digits_prefix(s, i + 1);
        assert(s.take(i + 1).drop_last() =~= s.take(i));
        assert(is_digit(s[i]));
    } else {
        assert(s.take(i) =~= s);
    }
}

/// Parse `s` as a `u64` (as `str::parse::<u64>` does).
pub fn parse_u64(s: &str) -> (r: Option<u64>)
    ensures
        r == spec_parse_u64(s@),
{
    let v = chars_of(s);
    let mut start: usize = 0;
    if v.len() > 0 && v[0] == '+' {
        start = 1;
    }
    let ghost d = if s@.len() > 0 && s@[0] == '+' {
        s@.drop_first()
    } else {
        s@
    };
    assert(d =~= v@.subrange(start as int, v@.len() as int));
    if start == v.len() {
        return None;
    }
    let mut acc: u64 = 0;
    let mut i: usize = start;
    assert(spec_parse_u64(s@) == (if d.len() > 0 && all_digits(d) && digits_value(d) <= u64::MAX {
        Some(digits_value(d) as u64)
    } else {
        None
    }));
    while i < v.len()
        invariant
            spec_parse_u64(s@) == (if d.len() > 0 && all_digits(d) && digits_value(d) <= u64::MAX {
                Some(digits_value(d) as u64)
            } else {
                None
            }),
            start <= i <= v.len(),
            start < v.len(),
            d == v@.subrange(start as int, v@.len() as int),
            all_digits(d.take(i - start)),
            acc as nat == digits_value(d.take(i - start)),
        decreases v.len() - i,
    {
        let c = v[i];
        let ghost k: int = i - start;
        assert(d[k] == c);
        if !('0' <= c && c <= '9') {
            assert(!is_digit(d[k]));
            return None;
        }
        assert(d.take(k + 1).drop_last() =~= d.take(k));
        assert(d.take(k + 1).last() == c);
        assert(all_digits(d.take(k + 1)));
        let digit: u64 = (c as u32 - 48) as u64;
        assert(digit as nat == (c as nat - 48) as nat);
        assert(digits_value(d.take(k + 1)) == acc * 10 + digit);
        let next = match acc.checked_mul(10) {
            None => None,
            Some(m) => m.checked_add(digit),
        };
        match next {
            None => {
                proof {
                    if all_digits(d) {
                        lemma_digits_prefix(d, k + 1);
                    }
                }
                return None;
            },
            Some(n) => {
                acc = n;
            },
        }
        i = i + 1;
    }
    assert(d.take(i - start) =~= d);
    Some(acc)
}


/// Whether `s` is empty or only whitespace (`s.trim().is_empty()`).
pub fn is_blank(s: &str) -> (b: bool)
    ensures
        b == (trim(s@).len() == 0),
{
    trim_chars(&chars_of(s)).len() == 0
}

} // verus!
