//! Verified string utilities: substring search, prefix/suffix tests,
//! trimming, splitting and decimal formatting. The platform's rich-text and
//! session-cookie handling is all character-level string work, so these are
//! specified over `Seq<char>` views and proved exactly.

use vstd::prelude::*;
use vstd::string::StrSliceExecFns;
use vstd::string::StringExecFns;

verus! {

/// The needle `n` occurs in `h` starting at position `i`.
pub open spec fn contains_at(h: Seq<char>, n: Seq<char>, i: int) -> bool {
    0 <= i && i + n.len() <= h.len() && h.subrange(i, i + n.len()) == n
}

/// The needle `n` occurs somewhere in `h`.
pub open spec fn contains_seq(h: Seq<char>, n: Seq<char>) -> bool {
    exists|i: int| contains_at(h, n, i)
}

/// Pointwise characterisation of `contains_at`, handier for loop proofs.
pub proof fn lemma_contains_at_pointwise(h: Seq<char>, n: Seq<char>, i: int)
    requires
        0 <= i,
        i + n.len() <= h.len(),
        forall|m: int| 0 <= m < n.len() ==> h[i + m] == n[m],
    ensures
        contains_at(h, n, i),
{
    assert(h.subrange(i, i + n.len()) =~= n);
}

/// Character-for-character equality of two string slices.
pub fn str_eq(a: &str, b: &str) -> (r: bool)
    ensures
        r == (a@ == b@),
{
    let a_len = a.unicode_len();
    let b_len = b.unicode_len();
    if a_len != b_len {
        assert(a@ != b@);
        return false;
    }
    let mut i: usize = 0;
    while i < a_len
        invariant
            i <= a_len,
            a_len == a@.len(),
            a_len == b@.len(),
            forall|m: int| 0 <= m < i ==> a@[m] == b@[m],
        decreases a_len - i,
    {
        if a.get_char(i) != b.get_char(i) {
            assert(a@ != b@);
            return false;
        }
        i += 1;
    }
    proof {
        assert(a@ =~= b@);
    }
    true
}

/// `a` begins with `prefix`.
pub open spec fn spec_starts_with(h: Seq<char>, p: Seq<char>) -> bool {
    p.len() <= h.len() && h.subrange(0, p.len() as int) == p
}

/// Whether `a` begins with `prefix`.
pub fn starts_with(a: &str, prefix: &str) -> (r: bool)
    ensures
        r == spec_starts_with(a@, prefix@),
{
    let a_len = a.unicode_len();
    let p_len = prefix.unicode_len();
    if p_len > a_len {
        return false;
    }
    let mut i: usize = 0;
    while i < p_len
        invariant
            i <= p_len,
            p_len <= a_len,
            a_len == a@.len(),
            p_len == prefix@.len(),
            forall|m: int| 0 <= m < i ==> a@[m] == prefix@[m],
        decreases p_len - i,
    {
        if a.get_char(i) != prefix.get_char(i) {
            assert(a@.subrange(0, prefix@.len() as int)[i as int] != prefix@[i as int]);
            return false;
        }
        i += 1;
    }
    proof {
        assert(a@.subrange(0, prefix@.len() as int) =~= prefix@);
    }
    true
}

/// Position of the first occurrence of `needle` in `hay`, if any.
pub fn find_sub(hay: &str, needle: &str) -> (r: Option<usize>)
    ensures
        r matches Some(i) ==> contains_at(hay@, needle@, i as int) && (forall|j: int|
            0 <= j < i ==> !contains_at(hay@, needle@, j)),
        r is None ==> !contains_seq(hay@, needle@),
{
    let h_len = hay.unicode_len();
    let n_len = needle.unicode_len();
    if n_len > h_len {
        return None;
    }
    if n_len == 0 {
        proof {
            assert(hay@.subrange(0, 0) =~= needle@);
        }
        return Some(0);
    }
    let mut i: usize = 0;
    while i <= h_len - n_len
        invariant
            i <= h_len,
            1 <= n_len <= h_len,
            h_len == hay@.len(),
            n_len == needle@.len(),
            forall|j: int| 0 <= j < i ==> !contains_at(hay@, needle@, j),
        decreases h_len - i,
    {
        let mut k: usize = 0;
        let mut matches_here = true;
        while k < n_len && matches_here
            invariant
                k <= n_len,
                i + n_len <= h_len,
                h_len == hay@.len(),
                n_len == needle@.len(),
                matches_here ==> forall|m: int| 0 <= m < k ==> hay@[i + m] == needle@[m],
                !matches_here ==> !contains_at(hay@, needle@, i as int),
            decreases n_len - k + (if matches_here {
                1int
            } else {
                0int
            }),
        {
            if hay.get_char(i + k) != needle.get_char(k) {
                proof {
                    assert(hay@.subrange(i as int, i + needle@.len())[k as int] != needle@[k as int]);
                }
                matches_here = false;
            } else {
                k += 1;
            }
        }
        if matches_here {
            proof {
                lemma_contains_at_pointwise(hay@, needle@, i as int);
            }
            return Some(i);
        }
        i += 1;
    }
    proof {
        assert forall|j: int| 0 <= j implies !contains_at(hay@, needle@, j) by {
            if j + needle@.len() <= hay@.len() {
                assert(j < i);
            }
        }
    }
    None
}

/// `i` is the first position where `n` occurs in `h`.
pub open spec fn first_occurrence(h: Seq<char>, n: Seq<char>, i: int) -> bool {
    contains_at(h, n, i) && forall|j: int| 0 <= j < i ==> !contains_at(h, n, j)
}

/// The position of the first occurrence of `n` in `h`, if there is one.
pub open spec fn spec_find_first(h: Seq<char>, n: Seq<char>) -> Option<int> {
    if contains_seq(h, n) {
        Some(choose|i: int| first_occurrence(h, n, i))
    } else {
        None
    }
}

pub proof fn lemma_find_first_is(h: Seq<char>, n: Seq<char>, i: int)
    requires
        first_occurrence(h, n, i),
    ensures
        spec_find_first(h, n) == Some(i),
{
    assert(contains_at(h, n, i));
    assert(contains_seq(h, n));
    let i2 = choose|x: int| first_occurrence(h, n, x);
    assert(first_occurrence(h, n, i2));
    if i2 < i {
        assert(!contains_at(h, n, i2));
    }
    if i < i2 {
        assert(!contains_at(h, n, i));
    }
}

pub proof fn lemma_find_none(h: Seq<char>, n: Seq<char>)
    requires
        !contains_seq(h, n),
    ensures
        spec_find_first(h, n) is None,
{
}

/// `hay` contains `needle` somewhere.
pub fn contains_sub(hay: &str, needle: &str) -> (r: bool)
    ensures
        r == contains_seq(hay@, needle@),
{
    match find_sub(hay, needle) {
        Some(i) => {
            proof {
                assert(contains_at(hay@, needle@, i as int));
            }
            true
        },
        None => false,
    }
}

/// Owned copy of the character range `[from, to)` of `s`.
pub fn substring_copy(s: &str, from: usize, to: usize) -> (r: String)
    requires
        from <= to <= s@.len(),
    ensures
        r@ == s@.subrange(from as int, to as int),
{
    String::from_str(s.substring_char(from, to))
}

/// Owned copy of a whole string slice.
pub fn to_owned_str(s: &str) -> (r: String)
    ensures
        r@ == s@,
{
    String::from_str(s)
}

/// ASCII whitespace, the only kind that occurs in cookie and header strings.
pub open spec fn is_ws(c: char) -> bool {
    c == ' ' || c == '\t' || c == '\n' || c == '\r'
}

/// `s` with leading whitespace removed.
pub open spec fn spec_trim_start(s: Seq<char>) -> Seq<char>
    decreases s.len(),
{
    if s.len() > 0 && is_ws(s[0]) {
        spec_trim_start(s.drop_first())
    } else {
        s
    }
}

/// `s` with trailing whitespace removed.
pub open spec fn spec_trim_end(s: Seq<char>) -> Seq<char>
    decreases s.len(),
{
    if s.len() > 0 && is_ws(s.last()) {
        spec_trim_end(s.drop_last())
    } else {
        s
    }
}

/// `s` with whitespace removed from both ends.
pub open spec fn spec_trim(s: Seq<char>) -> Seq<char> {
    spec_trim_end(spec_trim_start(s))
}

proof fn lemma_trim_start_skip(s: Seq<char>, a: int)
    requires
        0 <= a <= s.len(),
        forall|j: int| 0 <= j < a ==> is_ws(s[j]),
        a < s.len() ==> !is_ws(s[a]),
    ensures
        spec_trim_start(s) == s.skip(a),
    decreases a,
{
    if a == 0 {
        assert(s.skip(0) =~= s);
    } else {
        lemma_trim_start_skip(s.drop_first(), a - 1);
        assert(s.drop_first().skip(a - 1) =~= s.skip(a));
    }
}

proof fn lemma_trim_end_take(s: Seq<char>, b: int)
    requires
        0 <= b <= s.len(),
        forall|j: int| b <= j < s.len() ==> is_ws(s[j]),
        b > 0 ==> !is_ws(s[b - 1]),
    ensures
        spec_trim_end(s) == s.take(b),
    decreases s.len() - b,
{
    if b == s.len() {
        assert(s.take(b) =~= s);
    } else {
        lemma_trim_end_take(s.drop_last(), b);
        assert(s.drop_last().take(b) =~= s.take(b));
    }
}

/// Owned copy of `s` with ASCII whitespace removed from both ends.
pub fn trim(s: &str) -> (r: String)
    ensures
        r@ == spec_trim(s@),
{
    let len = s.unicode_len();
    let mut a: usize = 0;
    while a < len && is_ws_char(s.get_char(a))
        invariant
            a <= len,
            len == s@.len(),
            forall|j: int| 0 <= j < a ==> is_ws(s@[j]),
        decreases len - a,
    {
        a += 1;
    }
    let mut b: usize = len;
    while b > a && is_ws_char(s.get_char(b - 1))
        invariant
            a <= b <= len,
            len == s@.len(),
            forall|j: int| 0 <= j < a ==> is_ws(s@[j]),
            forall|j: int| b <= j < len ==> is_ws(s@[j]),
        decreases b,
    {
        b -= 1;
    }
    proof {
        lemma_trim_start_skip(s@, a as int);
        if b == a {
            lemma_trim_end_take(s@.skip(a as int), 0);
        } else {
            lemma_trim_end_take(s@.skip(a as int), b - a);
        }
        assert(s@.skip(a as int).take(b - a) =~= s@.subrange(a as int, b as int));
    }
    substring_copy(s, a, b)
}

/// One character's worth of the whitespace test, usable from executable code.
pub fn is_ws_char(c: char) -> (r: bool)
    ensures
        r == is_ws(c),
{
    c == ' ' || c == '\t' || c == '\n' || c == '\r'
}

/// The views of a sequence of owned strings.
pub open spec fn views(q: Seq<String>) -> Seq<Seq<char>> {
    q.map_values(|x: String| x@)
}

/// `parts` glued back together with `sep` between consecutive parts.
pub open spec fn spec_join(parts: Seq<Seq<char>>, sep: Seq<char>) -> Seq<char>
    decreases parts.len(),
{
    if parts.len() == 0 {
        Seq::empty()
    } else if parts.len() == 1 {
        parts[0]
    } else {
        parts[0] + sep + spec_join(parts.drop_first(), sep)
    }
}

pub proof fn lemma_join_push(parts: Seq<Seq<char>>, sep: Seq<char>, x: Seq<char>)
    requires
        parts.len() > 0,
    ensures
        spec_join(parts.push(x), sep) == spec_join(parts, sep) + sep + x,
    decreases parts.len(),
{
    if parts.len() == 1 {
        assert(parts.push(x).drop_first() =~= seq![x]);
        assert(spec_join(seq![x], sep) == x);
        assert(spec_join(parts.push(x), sep) == parts[0] + sep + x);
    } else {
        lemma_join_push(parts.drop_first(), sep, x);
        assert(parts.push(x).drop_first() =~= parts.drop_first().push(x));
        assert(spec_join(parts, sep) + sep + x =~= parts[0] + sep + (spec_join(
            parts.drop_first(),
            sep,
        ) + sep + x));
    }
}

/// The parts of `s` between occurrences of `sep`, in order.
pub open spec fn spec_split(s: Seq<char>, sep: char) -> Seq<Seq<char>>
    decreases s.len(),
{
    if s.len() == 0 {
        seq![Seq::<char>::empty()]
    } else if s[0] == sep {
        seq![Seq::<char>::empty()].add(spec_split(s.drop_first(), sep))
    } else {
        let rest = spec_split(s.drop_first(), sep);
        seq![seq![s[0]].add(rest[0])].add(rest.drop_first())
    }
}

proof fn lemma_split_len(s: Seq<char>, sep: char)
    ensures
        spec_split(s, sep).len() >= 1,
    decreases s.len(),
{
    if s.len() > 0 {
        lemma_split_len(s.drop_first(), sep);
    }
}

proof fn lemma_split_no_sep(s: Seq<char>, sep: char)
    requires
        !s.contains(sep),
    ensures
        spec_split(s, sep) == seq![s],
    decreases s.len(),
{
    if s.len() == 0 {
        assert(spec_split(s, sep) =~~= seq![s]);
    } else {
        assert(s[0] != sep) by {
            if s[0] == sep {
                assert(s.contains(sep));
            }
        }
        assert(!s.drop_first().contains(sep)) by {
            if s.drop_first().contains(sep) {
                let w = choose|w: int| 0 <= w < s.drop_first().len() && s.drop_first()[w] == sep;
                assert(s[w + 1] == sep);
            }
        }
        lemma_split_no_sep(s.drop_first(), sep);
        assert(seq![s[0]].add(s.drop_first()) =~= s);
        assert(spec_split(s, sep) =~~= seq![s]);
    }
}

proof fn lemma_split_prepend(a: Seq<char>, t: Seq<char>, sep: char)
    requires
        !a.contains(sep),
    ensures
        spec_split(a + seq![sep] + t, sep) == seq![a] + spec_split(t, sep),
    decreases a.len(),
{
    let s = a + seq![sep] + t;
    if a.len() == 0 {
        assert(s[0] == sep);
        assert(s.drop_first() =~= t);
        assert(spec_split(s, sep) =~~= seq![a] + spec_split(t, sep));
    } else {
        assert(s[0] == a[0]);
        assert(a[0] != sep) by {
            if a[0] == sep {
                assert(a.contains(sep));
            }
        }
        assert(!a.drop_first().contains(sep)) by {
            if a.drop_first().contains(sep) {
                let w = choose|w: int| 0 <= w < a.drop_first().len() && a.drop_first()[w] == sep;
                assert(a[w + 1] == sep);
            }
        }
        assert(s.drop_first() =~= a.drop_first() + seq![sep] + t);
        lemma_split_prepend(a.drop_first(), t, sep);
        let rest = spec_split(s.drop_first(), sep);
        lemma_split_len(t, sep);
        assert(rest[0] == a.drop_first());
        assert(seq![s[0]].add(rest[0]) =~= a);
        assert(rest.drop_first() =~~= spec_split(t, sep));
        assert(spec_split(s, sep) =~~= seq![a] + spec_split(t, sep));
    }
}

/// Any decomposition into separator-free parts that joins back to `s` is
/// exactly `spec_split(s, sep)`.
proof fn lemma_split_unique(parts: Seq<Seq<char>>, sep: char, s: Seq<char>)
    requires
        parts.len() >= 1,
        forall|p: int| 0 <= p < parts.len() ==> !(#[trigger] parts[p]).contains(sep),
        spec_join(parts, seq![sep]) == s,
    ensures
        spec_split(s, sep) == parts,
    decreases parts.len(),
{
    if parts.len() == 1 {
        assert(s == parts[0]);
        lemma_split_no_sep(s, sep);
        assert(spec_split(s, sep) =~~= parts);
    } else {
        assert(spec_join(parts, seq![sep]) == parts[0] + seq![sep] + spec_join(
            parts.drop_first(),
            seq![sep],
        ));
        lemma_split_prepend(parts[0], spec_join(parts.drop_first(), seq![sep]), sep);
        lemma_split_unique(parts.drop_first(), sep, spec_join(parts.drop_first(), seq![sep]));
        assert(spec_split(s, sep) =~~= parts);
    }
}

/// Split `s` at every occurrence of the character `sep`. The result never
/// loses or reorders characters: joining the parts with `sep` gives `s` back,
/// and no part contains `sep`.
pub fn split_char(s: &str, sep: char) -> (r: Vec<String>)
    ensures
        r@.len() >= 1,
        spec_join(views(r@), seq![sep]) == s@,
        forall|p: int| 0 <= p < r@.len() ==> !views(r@)[p].contains(sep),
        views(r@) == spec_split(s@, sep),
{
    let len = s.unicode_len();
    let mut parts: Vec<String> = Vec::new();
    let mut start: usize = 0;
    let mut i: usize = 0;
    while i < len
        invariant
            start <= i <= len,
            len == s@.len(),
            parts@.len() == 0 ==> start == 0,
            parts@.len() > 0 ==> spec_join(views(parts@), seq![sep]) + seq![sep] == s@.subrange(
                0,
                start as int,
            ),
            forall|j: int| start <= j < i ==> s@[j] != sep,
            forall|p: int| 0 <= p < parts@.len() ==> !views(parts@)[p].contains(sep),
        decreases len - i,
    {
        if s.get_char(i) == sep {
            let part = substring_copy(s, start, i);
            proof {
                assert(!part@.contains(sep)) by {
                    if part@.contains(sep) {
                        let w = choose|w: int| 0 <= w < part@.len() && part@[w] == sep;
                        assert(s@[start + w] == sep);
                    }
                }
                if parts@.len() > 0 {
                    lemma_join_push(views(parts@), seq![sep], part@);
                }
            }
            let ghost old_parts = parts@;
            parts.push(part);
            proof {
                assert(views(parts@) =~= views(old_parts).push(s@.subrange(
                    start as int,
                    i as int,
                )));
                assert(spec_join(views(parts@), seq![sep]) + seq![sep] =~= s@.subrange(
                    0,
                    i + 1,
                ));
            }
            start = i + 1;
        }
        i += 1;
    }
    let last = substring_copy(s, start, len);
    proof {
        assert(!last@.contains(sep)) by {
            if last@.contains(sep) {
                let w = choose|w: int| 0 <= w < last@.len() && last@[w] == sep;
                assert(s@[start + w] == sep);
            }
        }
        if parts@.len() > 0 {
            lemma_join_push(views(parts@), seq![sep], last@);
        }
    }
    let ghost old_parts = parts@;
    parts.push(last);
    proof {
        assert(views(parts@) =~= views(old_parts).push(s@.subrange(start as int, len as int)));
        if old_parts.len() == 0 {
            assert(s@.subrange(0, len as int) =~= s@);
        } else {
            assert(spec_join(views(parts@), seq![sep]) =~= s@);
        }
        assert(spec_join(views(parts@), seq![sep]) =~= s@);
        lemma_split_unique(views(parts@), sep, s@);
    }
    parts
}

/// `unit` repeated `n` times.
pub open spec fn spec_repeat(unit: Seq<char>, n: nat) -> Seq<char>
    decreases n,
{
    if n == 0 {
        Seq::empty()
    } else {
        spec_repeat(unit, (n - 1) as nat) + unit
    }
}

/// Build `unit` repeated `n` times.
pub fn repeat_str(unit: &str, n: usize) -> (r: String)
    ensures
        r@ == spec_repeat(unit@, n as nat),
{
    let mut out = String::new();
    let mut i: usize = 0;
    while i < n
        invariant
            i <= n,
            out@ == spec_repeat(unit@, i as nat),
        decreases n - i,
    {
        out.append(unit);
        i += 1;
    }
    out
}

/// The decimal digit character for `d`.
pub open spec fn spec_digit(d: u64) -> char {
    (('0' as u8) + (d as u8)) as char
}

/// The decimal rendering of `n`, most significant digit first.
pub open spec fn spec_dec(n: u64) -> Seq<char>
    decreases n,
{
    if n < 10 {
        seq![spec_digit(n)]
    } else {
        spec_dec(n / 10).push(spec_digit(n % 10))
    }
}

fn digit_str(d: u64) -> (r: &'static str)
    requires
        d < 10,
    ensures
        r@ =~= seq![spec_digit(d)],
{
    proof {
        reveal_strlit("0");
        reveal_strlit("1");
        reveal_strlit("2");
        reveal_strlit("3");
        reveal_strlit("4");
        reveal_strlit("5");
        reveal_strlit("6");
        reveal_strlit("7");
        reveal_strlit("8");
        reveal_strlit("9");
    }
    match d {
        0 => "0",
        1 => "1",
        2 => "2",
        3 => "3",
        4 => "4",
        5 => "5",
        6 => "6",
        7 => "7",
        8 => "8",
        _ => "9",
    }
}

/// Decimal rendering of an unsigned number.
pub fn u64_to_string(n: u64) -> (s: String)
    ensures
        s@ == spec_dec(n),
    decreases n,
{
    if n < 10 {
        String::from_str(digit_str(n))
    } else {
        let mut s = u64_to_string(n / 10);
        s.append(digit_str(n % 10));
        assert(s@ =~= spec_dec(n));
        s
    }
}

/// Decimal rendering of a `u32`.
pub fn u32_to_string(n: u32) -> (s: String)
    ensures
        s@ == spec_dec(n as u64),
{
    u64_to_string(n as u64)
}

/// How many times the character `c` occurs in `s`.
pub open spec fn count_char(s: Seq<char>, c: char) -> nat
    decreases s.len(),
{
    if s.len() == 0 {
        0nat
    } else {
        (if s[0] == c {
            1nat
        } else {
            0nat
        }) + count_char(s.drop_first(), c)
    }
}

/// Character counts add up over concatenation.
pub proof fn lemma_count_char_concat(a: Seq<char>, b: Seq<char>, c: char)
    ensures
        count_char(a + b, c) == count_char(a, c) + count_char(b, c),
    decreases a.len(),
{
    if a.len() == 0 {
        assert(a + b =~= b);
    } else {
        assert((a + b).drop_first() =~= a.drop_first() + b);
        lemma_count_char_concat(a.drop_first(), b, c);
    }
}

/// A repeated unit's character count is the unit's count, that many times.
pub proof fn lemma_count_char_repeat(unit: Seq<char>, n: nat, c: char)
    ensures
        count_char(spec_repeat(unit, n), c) == n * count_char(unit, c),
    decreases n,
{
    if n == 0 {
    } else {
        lemma_count_char_repeat(unit, (n - 1) as nat, c);
        lemma_count_char_concat(spec_repeat(unit, (n - 1) as nat), unit, c);
        let m = (n - 1) as nat;
        let x = count_char(unit, c);
        assert(m * x + x == (m + 1) * x) by (nonlinear_arith);
    }
}

} // verus!
