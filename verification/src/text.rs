//! Character-level string helpers with exact specifications.
//!
//! Strings are modelled by their `Seq<char>` view. Where the behaviour of a
//! caller depends on UTF-8 byte offsets (as `str::find` and slicing do), the
//! offsets are computed from `utf8_width`.

use vstd::prelude::*;

verus! {

/// Number of bytes of the UTF-8 encoding of `c`.
pub open spec fn utf8_width(c: char) -> nat {
    if (c as u32) < 0x80 {
        1
    } else if (c as u32) < 0x800 {
        2
    } else if (c as u32) < 0x10000 {
        3
    } else {
        4
    }
}

/// Number of bytes of the UTF-8 encoding of `s`.
pub open spec fn byte_len(s: Seq<char>) -> nat
    decreases s.len(),
{
    if s.len() == 0 {
        0
    } else {
        byte_len(s.drop_last()) + utf8_width(s.last())
    }
}

/// `pat` occurs in `s` starting at character index `i`.
pub open spec fn matches_at(s: Seq<char>, pat: Seq<char>, i: int) -> bool {
    0 <= i && i + pat.len() <= s.len() && s.subrange(i, i + pat.len()) == pat
}

/// Index of the first occurrence of `pat` in `s` at or after `i`.
pub open spec fn find_from(s: Seq<char>, pat: Seq<char>, i: int) -> Option<int>
    decreases s.len() + 1 - i,
{
    if i < 0 || i + pat.len() > s.len() {
        None
    } else if matches_at(s, pat, i) {
        Some(i)
    } else {
        find_from(s, pat, i + 1)
    }
}

/// Index (in characters) of the first occurrence of `pat` in `s`.
pub open spec fn find_seq(s: Seq<char>, pat: Seq<char>) -> Option<int> {
    find_from(s, pat, 0)
}

/// `s` contains `pat` as a contiguous subsequence.
pub open spec fn contains_seq(s: Seq<char>, pat: Seq<char>) -> bool {
    find_seq(s, pat) is Some
}

pub proof fn lemma_byte_len_take_step(s: Seq<char>, j: int)
    requires
        0 <= j < s.len(),
    ensures
        byte_len(s.take(j + 1)) == byte_len(s.take(j)) + utf8_width(s[j]),
        byte_len(s.take(j)) <= 4 * j,
{
    assert(s.take(j + 1).drop_last() =~= s.take(j));
    lemma_byte_len_bound(s.take(j));
}

pub proof fn lemma_byte_len_bound(s: Seq<char>)
    ensures
        byte_len(s) <= 4 * s.len(),
    decreases s.len(),
{
    if s.len() > 0 {
        lemma_byte_len_bound(s.drop_last());
    }
}

/// Bytes of the UTF-8 encoding of `c`.
pub fn char_width(c: char) -> (w: u128)
    ensures
        w == utf8_width(c),
{
    let u = c as u32;
    if u < 0x80 {
        1
    } else if u < 0x800 {
        2
    } else if u < 0x10000 {
        3
    } else {
        4
    }
}

/// The characters of `s`.
pub fn chars_of(s: &str) -> (v: Vec<char>)
    ensures
        v@ == s@,
{
    let mut v: Vec<char> = Vec::new();
    for c in it: s.chars()
        invariant
            it.seq() == s@,
            v@ == it.seq().take(it.index() as int),
    {
        v.push(c);
    }
    v
}


/// `pat` occurs in `s` at character index `i` (executable check).
fn matches_at_exec(s: &Vec<char>, pat: &Vec<char>, i: usize) -> (b: bool)
    requires
        i + pat.len() <= s.len(),
    ensures
        b == matches_at(s@, pat@, i as int),
{
    let mut k: usize = 0;
    while k < pat.len()
        invariant
            i + pat.len() <= s.len(),
            k <= pat.len(),
            forall|m: int| 0 <= m < k ==> s@[i + m] == pat@[m],
        decreases pat.len() - k,
    {
        if s[i + k] != pat[k] {
            assert(s@.subrange(i as int, i + pat.len())[k as int] != pat@[k as int]);
            return false;
        }
        k = k + 1;
    }
    assert(s@.subrange(i as int, i + pat.len()) =~= pat@);
    true
}

/// Character index of the first occurrence of `pat` in `s`.
pub fn find_chars(s: &Vec<char>, pat: &Vec<char>) -> (r: Option<usize>)
    ensures
        match r {
            Some(i) => find_seq(s@, pat@) == Some(i as int),
            None => find_seq(s@, pat@) is None,
        },
        r matches Some(i) ==> i + pat@.len() <= s@.len(),
{
    if pat.len() > s.len() {
        return None;
    }
    let last = s.len() - pat.len();
    let mut i: usize = 0;
    loop
        invariant
            last + pat.len() == s.len(),
            i <= last,
            find_seq(s@, pat@) == find_from(s@, pat@, i as int),
        decreases last - i,
    {
        if matches_at_exec(s, pat, i) {
            return Some(i);
        }
        if i == last {
            assert(find_from(s@, pat@, i + 1) is None);
            return None;
        }
        i = i + 1;
    }
}

/// `pat` occurs in `s`.
pub fn contains_chars(s: &Vec<char>, pat: &Vec<char>) -> (b: bool)
    ensures
        b == contains_seq(s@, pat@),
{
    find_chars(s, pat).is_some()
}


/// Character index `j >= from` at which the UTF-8 byte offset of `s` equals
/// `b`, if byte offset `b` falls on a character boundary.
pub open spec fn index_at_byte_from(s: Seq<char>, b: int, from: int) -> Option<int>
    decreases s.len() + 1 - from,
{
    if from < 0 || from > s.len() {
        None
    } else if byte_len(s.take(from)) == b {
        Some(from)
    } else if byte_len(s.take(from)) > b {
        None
    } else {
        index_at_byte_from(s, b, from + 1)
    }
}

/// Character index at which byte offset `b` of `s` starts, or `None` when `b`
/// is not a character boundary of `s` (or lies beyond its end). This is the
/// condition under which `str::get(b..)` succeeds.
pub open spec fn index_at_byte(s: Seq<char>, b: int) -> Option<int> {
    index_at_byte_from(s, b, 0)
}

/// UTF-8 byte length of the first `n` characters of `s`.
pub fn byte_len_prefix(s: &Vec<char>, n: usize) -> (b: u128)
    requires
        n <= s.len(),
    ensures
        b == byte_len(s@.take(n as int)),
        b <= 4 * n,
{
    let mut acc: u128 = 0;
    let mut j: usize = 0;
    while j < n
        invariant
            n <= s.len(),
            j <= n,
            acc == byte_len(s@.take(j as int)),
        decreases n - j,
    {
        proof {
            lemma_byte_len_take_step(s@, j as int);
        }
        acc = acc + char_width(s[j]);
        j = j + 1;
    }
    proof {
        lemma_byte_len_bound(s@.take(n as int));
    }
    acc
}

/// Character index at which byte offset `b` of `s` starts, if any.
pub fn index_at_byte_exec(s: &Vec<char>, b: u128) -> (r: Option<usize>)
    ensures
        match r {
            Some(j) => index_at_byte(s@, b as int) == Some(j as int),
            None => index_at_byte(s@, b as int) is None,
        },
        r matches Some(j) ==> j <= s@.len(),
{
    let mut acc: u128 = 0;
    let mut j: usize = 0;
    loop
        invariant
            j <= s.len(),
            acc == byte_len(s@.take(j as int)),
            index_at_byte(s@, b as int) == index_at_byte_from(s@, b as int, j as int),
        decreases s.len() - j,
    {
        if acc == b {
            return Some(j);
        }
        if acc > b || j == s.len() {
            proof {
                if j == s.len() && acc < b {
                    assert(index_at_byte_from(s@, b as int, j + 1) is None);
                }
            }
            return None;
        }
        proof {
            lemma_byte_len_take_step(s@, j as int);
        }
        acc = acc + char_width(s[j]);
        j = j + 1;
    }
}

/// The characters `s[from..to]`.
pub fn sub_chars(s: &Vec<char>, from: usize, to: usize) -> (r: Vec<char>)
    requires
        from <= to <= s.len(),
    ensures
        r@ == s@.subrange(from as int, to as int),
{
    let mut r: Vec<char> = Vec::new();
    let mut k: usize = from;
    while k < to
        invariant
            from <= k <= to <= s.len(),
            r@ == s@.subrange(from as int, k as int),
        decreases to - k,
    {
        r.push(s[k]);
        k = k + 1;
    }
    r
}


/// The Unicode `White_Space` property, which `char::is_whitespace` and
/// `str::trim` use.
pub open spec fn is_white_space(c: char) -> bool {
    let u = c as u32;
    ||| 0x9 <= u <= 0xD
    ||| u == 0x20
    ||| u == 0x85
    ||| u == 0xA0
    ||| u == 0x1680
    ||| 0x2000 <= u <= 0x200A
    ||| u == 0x2028
    ||| u == 0x2029
    ||| u == 0x202F
    ||| u == 0x205F
    ||| u == 0x3000
}

/// `s` without its leading white space.
pub open spec fn trim_start(s: Seq<char>) -> Seq<char>
    decreases s.len(),
{
    if s.len() > 0 && is_white_space(s[0]) {
        trim_start(s.drop_first())
    } else {
        s
    }
}

/// `s` without its trailing white space.
pub open spec fn trim_end(s: Seq<char>) -> Seq<char>
    decreases s.len(),
{
    if s.len() > 0 && is_white_space(s.last()) {
        trim_end(s.drop_last())
    } else {
        s
    }
}

/// `s` without leading and trailing white space, as `str::trim` returns it.
pub open spec fn trim(s: Seq<char>) -> Seq<char> {
    trim_end(trim_start(s))
}

fn is_white_space_exec(c: char) -> (b: bool)
    ensures
        b == is_white_space(c),
{
    let u = c as u32;
    (0x9 <= u && u <= 0xD) || u == 0x20 || u == 0x85 || u == 0xA0 || u == 0x1680 || (0x2000 <= u
        && u <= 0x200A) || u == 0x2028 || u == 0x2029 || u == 0x202F || u == 0x205F || u == 0x3000
}

/// `s` without leading and trailing white space.
pub fn trim_chars(s: &Vec<char>) -> (r: Vec<char>)
    ensures
        r@ == trim(s@),
{
    let mut a: usize = 0;
    assert(s@.skip(0) =~= s@);
    while a < s.len() && is_white_space_exec(s[a])
        invariant
            a <= s.len(),
            trim_start(s@) == trim_start(s@.skip(a as int)),
        decreases s.len() - a,
    {
        assert(s@.skip(a as int).drop_first() =~= s@.skip(a + 1));
        a = a + 1;
    }
    let mut b: usize = s.len();
    while b > a && is_white_space_exec(s[b - 1])
        invariant
            a <= b <= s.len(),
            trim_start(s@) == s@.skip(a as int),
            trim(s@) == trim_end(s@.subrange(a as int, b as int)),
        decreases b - a,
    {
        assert(s@.subrange(a as int, b as int).drop_last() =~= s@.subrange(a as int, b - 1));
        b = b - 1;
    }
    sub_chars(s, a, b)
}

/// An ASCII decimal digit.
pub open spec fn is_ascii_digit(c: char) -> bool {
    '0' <= c && c <= '9'
}

/// The decimal value of the digit string `s`.
pub open spec fn digits_value(s: Seq<char>) -> nat
    decreases s.len(),
{
    if s.len() == 0 {
        0
    } else {
        digits_value(s.drop_last()) * 10 + ((s.last() as u32) - ('0' as u32)) as nat
    }
}

/// Every character of `d` is an ASCII digit.
pub open spec fn all_digits(d: Seq<char>) -> bool {
    forall|i: int| 0 <= i < d.len() ==> is_ascii_digit(#[trigger] d[i])
}

/// What `str::parse::<u32>` gives for `s`: an optional `+` sign followed by
/// one or more ASCII digits whose value fits in a `u32`.
pub open spec fn parse_u32_spec(s: Seq<char>) -> Option<u32> {
    let d = if s.len() > 0 && s[0] == '+' {
        s.drop_first()
    } else {
        s
    };
    if d.len() > 0 && all_digits(d) && digits_value(d) <= u32::MAX {
        Some(digits_value(d) as u32)
    } else {
        None
    }
}

/// `s` parsed as a decimal `u32`, as `str::parse::<u32>` does it.
pub fn parse_u32(s: &Vec<char>) -> (r: Option<u32>)
    ensures
        r == parse_u32_spec(s@),
{
    let start: usize = if s.len() > 0 && s[0] == '+' {
        1
    } else {
        0
    };
    let ghost d = if s@.len() > 0 && s@[0] == '+' {
        s@.drop_first()
    } else {
        s@
    };
    assert(d =~= s@.skip(start as int));
    if start == s.len() {
        assert(d.len() == 0);
        return None;
    }
    let limit: u64 = 0x1_0000_0000;
    let mut acc: u64 = 0;
    let mut k: usize = start;
    while k < s.len()
        invariant
            start <= k <= s.len(),
            d =~= s@.skip(start as int),
            d == (if s@.len() > 0 && s@[0] == '+' {
                s@.drop_first()
            } else {
                s@
            }),
            limit == 0x1_0000_0000u64,
            forall|i: int| start <= i < k ==> is_ascii_digit(#[trigger] s@[i]),
            acc == if digits_value(s@.subrange(start as int, k as int)) < limit {
                digits_value(s@.subrange(start as int, k as int))
            } else {
                limit as nat
            },
        decreases s.len() - k,
    {
        let c = s[k];
        if !('0' <= c && c <= '9') {
            assert(!is_ascii_digit(d[k - start]));
            assert(!all_digits(d));
            return None;
        }
        let digit = ((c as u32) - ('0' as u32)) as u64;
        assert(s@.subrange(start as int, k + 1).drop_last() =~= s@.subrange(start as int, k as int));
        let next = acc * 10 + digit;
        acc = if next < limit {
            next
        } else {
            limit
        };
        k = k + 1;
    }
    assert(s@.subrange(start as int, s.len() as int) =~= d);
    if acc < limit {
        Some(acc as u32)
    } else {
        None
    }
}


/// The pieces of `s` between `'\n'` characters (at least one piece).
pub open spec fn split_newlines(s: Seq<char>) -> Seq<Seq<char>>
    decreases s.len(),
{
    if s.len() == 0 {
        seq![Seq::<char>::empty()]
    } else {
        let p = split_newlines(s.drop_last());
        if s.last() == '\n' {
            p.push(Seq::<char>::empty())
        } else {
            p.update(p.len() - 1, p.last().push(s.last()))
        }
    }
}

/// `l` without one trailing carriage return.
pub open spec fn strip_cr(l: Seq<char>) -> Seq<char> {
    if l.len() > 0 && l.last() == '\r' {
        l.drop_last()
    } else {
        l
    }
}

/// The lines of `s` as `str::lines` yields them: split at `'\n'`, a `'\r'`
/// directly before a `'\n'` dropped, and no empty line after a final `'\n'`.
pub open spec fn lines_of(s: Seq<char>) -> Seq<Seq<char>> {
    if s.len() == 0 {
        Seq::empty()
    } else if s.last() == '\n' {
        split_newlines(s.drop_last()).map_values(|l: Seq<char>| strip_cr(l))
    } else {
        let p = split_newlines(s);
        p.drop_last().map_values(|l: Seq<char>| strip_cr(l)).push(p.last())
    }
}

/// The views of a sequence of character vectors.
pub open spec fn views(v: Seq<Vec<char>>) -> Seq<Seq<char>> {
    v.map_values(|x: Vec<char>| x@)
}

proof fn lemma_split_newlines_nonempty(s: Seq<char>)
    ensures
        split_newlines(s).len() >= 1,
    decreases s.len(),
{
    if s.len() > 0 {
        lemma_split_newlines_nonempty(s.drop_last());
    }
}

/// The lines of `s`, as `str::lines` yields them.
pub fn lines(s: &Vec<char>) -> (r: Vec<Vec<char>>)
    ensures
        views(r@) == lines_of(s@),
{
    let mut done: Vec<Vec<char>> = Vec::new();
    let mut cur: Vec<char> = Vec::new();
    let mut i: usize = 0;
    proof {
        assert(s@.take(0) =~= Seq::<char>::empty());
    }
    while i < s.len()
        invariant
            i <= s.len(),
            split_newlines(s@.take(i as int)).len() >= 1,
            views(done@) =~= split_newlines(s@.take(i as int)).drop_last().map_values(
                |l: Seq<char>| strip_cr(l),
            ),
            cur@ == split_newlines(s@.take(i as int)).last(),
        decreases s.len() - i,
    {
        let c = s[i];
        proof {
            assert(s@.take(i + 1).drop_last() =~= s@.take(i as int));
            lemma_split_newlines_nonempty(s@.take(i + 1));
        }
        let ghost p = split_newlines(s@.take(i as int));
        if c == '\n' {
            let ghost old_done = done@;
            let mut line = cur;
            if line.len() > 0 && line[line.len() - 1] == '\r' {
                line.pop();
            }
            assert(line@ == strip_cr(p.last()));
            done.push(line);
            cur = Vec::new();
            proof {
                assert(split_newlines(s@.take(i + 1)) == p.push(Seq::<char>::empty()));
                assert(p.push(Seq::<char>::empty()).drop_last() =~= p);
                assert(p =~= p.drop_last().push(p.last()));
                assert(views(done@) =~= views(old_done).push(line@));
                assert(p.map_values(|l: Seq<char>| strip_cr(l)) =~= p.drop_last().map_values(
                    |l: Seq<char>| strip_cr(l),
                ).push(strip_cr(p.last())));
            }
        } else {
            cur.push(c);
            proof {
                let q = p.update(p.len() - 1, p.last().push(c));
                assert(split_newlines(s@.take(i + 1)) == q);
                assert(q.drop_last() =~= p.drop_last());
            }
        }
        i = i + 1;
    }
    proof {
        assert(s@.take(s.len() as int) =~= s@);
    }
    if s.len() == 0 {
        return Vec::new();
    }
    if s[s.len() - 1] == '\n' {
        proof {
            let p = split_newlines(s@.drop_last());
            assert(split_newlines(s@) == p.push(Seq::<char>::empty()));
            assert(p.push(Seq::<char>::empty()).drop_last() =~= p);
        }
        done
    } else {
        done.push(cur);
        done
    }
}

/// The lower-case form of `s`, as `str::to_lowercase` computes it (Unicode
/// case mapping, context-dependent for final sigma).
pub uninterp spec fn lowercase(s: Seq<char>) -> Seq<char>;

/// Calls `str::to_lowercase` on the string made of `s`. Claimed: the result is
/// the fixed function `lowercase` of the characters. Nothing more is stated
/// of Unicode case mapping.
#[verifier::external_body]
pub(crate) fn to_lowercase(s: &Vec<char>) -> (r: Vec<char>)
    ensures
        r@ == lowercase(s@),
{
    let owned: String = s.iter().collect();
    owned.to_lowercase().chars().collect()
}

/// Collects the characters `s` into a `String` (`String: FromIterator<char>`).
/// Claimed: the string holds exactly those characters in order.
#[verifier::external_body]
pub(crate) fn string_from_chars(s: &Vec<char>) -> (r: String)
    ensures
        r@ == s@,
{
    s.iter().collect()
}


/// `a` and `b` hold the same characters.
pub fn chars_eq(a: &Vec<char>, b: &Vec<char>) -> (r: bool)
    ensures
        r == (a@ == b@),
{
    if a.len() != b.len() {
        return false;
    }
    let mut i: usize = 0;
    while i < a.len()
        invariant
            a.len() == b.len(),
            i <= a.len(),
            forall|j: int| 0 <= j < i ==> a@[j] == b@[j],
        decreases a.len() - i,
    {
        if a[i] != b[i] {
            return false;
        }
        i = i + 1;
    }
    assert(a@ =~= b@);
    true
}

/// Appends the characters of `w` to `v`.
pub fn push_all(v: &mut Vec<char>, w: &Vec<char>)
    ensures
        final(v)@ == old(v)@ + w@,
{
    let mut i: usize = 0;
    while i < w.len()
        invariant
            i <= w.len(),
            v@ == old(v)@ + w@.take(i as int),
        decreases w.len() - i,
    {
        v.push(w[i]);
        i = i + 1;
        assert(v@ =~= old(v)@ + w@.take(i as int));
    }
    assert(w@.take(w.len() as int) =~= w@);
}


/// The view of an optional character vector.
pub open spec fn opt_chars(o: Option<Vec<char>>) -> Option<Seq<char>> {
    match o {
        Some(v) => Some(v@),
        None => None,
    }
}

/// The view of an optional string.
pub open spec fn opt_string(o: Option<String>) -> Option<Seq<char>> {
    match o {
        Some(v) => Some(v@),
        None => None,
    }
}


/// The string `s` holds exactly the characters of `lit`.
pub fn string_is(s: &String, lit: &str) -> (r: bool)
    ensures
        r == (s@ == lit@),
{
    chars_eq(&chars_of(s.as_str()), &chars_of(lit))
}


/// `a` if it holds a value, else `b`.
pub open spec fn or_else<T>(a: Option<T>, b: Option<T>) -> Option<T> {
    match a {
        Some(x) => Some(x),
        None => b,
    }
}

} // verus!
