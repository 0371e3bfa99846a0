//! Verified string building blocks: decimal rendering, list joining and
//! whitelist membership, used by the statement builders.

use vstd::prelude::*;
use vstd::string::StringExecFns;

verus! {

/// The character for a single decimal digit.
pub open spec fn digit_char(d: nat) -> char {
    if d == 0 {
        '0'
    } else if d == 1 {
        '1'
    } else if d == 2 {
        '2'
    } else if d == 3 {
        '3'
    } else if d == 4 {
        '4'
    } else if d == 5 {
        '5'
    } else if d == 6 {
        '6'
    } else if d == 7 {
        '7'
    } else if d == 8 {
        '8'
    } else {
        '9'
    }
}

/// The decimal rendering of a natural number, without sign or padding.
pub open spec fn dec_str(n: nat) -> Seq<char>
    decreases n,
{
    if n < 10 {
        seq![digit_char(n)]
    } else {
        dec_str(n / 10).push(digit_char(n % 10))
    }
}

fn digit_str(d: u64) -> (r: &'static str)
    requires
        d < 10,
    ensures
        r@ == seq![digit_char(d as nat)],
{
    proof {
        reveal_strlit("0");
        reveal_strlit("1");
        reveal_strlit("2");
        reveal_strlit("3");
        reveal_strlit("4");
        reveal_strlit("5");
        reveal_strlit("6");
        reveal_strlit("7");
        reveal_strlit("8");
        reveal_strlit("9");
    }
    let r: &'static str = if d == 0 {
        "0"
    } else if d == 1 {
        "1"
    } else if d == 2 {
        "2"
    } else if d == 3 {
        "3"
    } else if d == 4 {
        "4"
    } else if d == 5 {
        "5"
    } else if d == 6 {
        "6"
    } else if d == 7 {
        "7"
    } else if d == 8 {
        "8"
    } else {
        "9"
    };
    proof {
        assert(r@ =~= seq![digit_char(d as nat)]);
    }
    r
}

/// Renders a number in decimal, exactly as `dec_str` describes.
pub fn u64_to_string(n: u64) -> (r: String)
    ensures
        r@ == dec_str(n as nat),
    decreases n,
{
    if n < 10 {
        String::from_str(digit_str(n))
    } else {
        let prefix = u64_to_string(n / 10);
        let r = prefix.concat(digit_str(n % 10));
        proof {
            assert(r@ =~= dec_str(n as nat));
        }
        r
    }
}

/// The views of a sequence of owned strings.
pub open spec fn strs(v: Seq<String>) -> Seq<Seq<char>> {
    v.map_values(|s: String| s@)
}

/// The elements of `parts` concatenated with `sep` between neighbours.
pub open spec fn join_strs(parts: Seq<Seq<char>>, sep: Seq<char>) -> Seq<char>
    decreases parts.len(),
{
    if parts.len() == 0 {
        Seq::<char>::empty()
    } else if parts.len() == 1 {
        parts[0]
    } else {
        join_strs(parts.drop_last(), sep) + sep + parts.last()
    }
}

/// Joins owned strings with a separator, exactly as `join_strs` describes.
pub fn join_strings(parts: &Vec<String>, sep: &str) -> (r: String)
    ensures
        r@ == join_strs(strs(parts@), sep@),
{
    let mut acc = String::new();
    let mut i: usize = 0;
    while i < parts.len()
        invariant
            i <= parts.len(),
            acc@ == join_strs(strs(parts@).take(i as int), sep@),
        decreases parts.len() - i,
    {
        if i > 0 {
            acc.append(sep);
        }
        acc.append(parts[i].as_str());
        proof {
            let whole = strs(parts@).take(i + 1 as int);
            assert(whole.drop_last() =~= strs(parts@).take(i as int));
            assert(whole.last() == parts@[i as int]@);
            assert(acc@ =~= join_strs(whole, sep@));
        }
        i = i + 1;
    }
    proof {
        assert(strs(parts@).take(parts@.len() as int) =~= strs(parts@));
    }
    acc
}

/// An ASCII whitespace character, as list items are trimmed by.
pub open spec fn is_space(c: char) -> bool {
    c == ' ' || c == '\t' || c == '\n' || c == '\r'
}

/// `s` without leading and trailing ASCII whitespace.
pub open spec fn trim_str(s: Seq<char>) -> Seq<char>
    decreases s.len(),
{
    if s.len() == 0 {
        s
    } else if is_space(s[0]) {
        trim_str(s.drop_first())
    } else if is_space(s.last()) {
        trim_str(s.drop_last())
    } else {
        s
    }
}

proof fn lemma_trim_window(s: Seq<char>, a: int, b: int)
    requires
        0 <= a <= b < s.len(),
        forall|k: int| 0 <= k < a ==> is_space(s[k]),
        forall|k: int| b < k < s.len() ==> is_space(s[k]),
        !is_space(s[a]),
        !is_space(s[b]),
    ensures
        trim_str(s) == s.subrange(a, b + 1),
    decreases s.len(),
{
    if a > 0 {
        lemma_trim_window(s.drop_first(), a - 1, b - 1);
        assert(s.drop_first().subrange(a - 1, b) =~= s.subrange(a, b + 1));
    } else if b < s.len() - 1 {
        lemma_trim_window(s.drop_last(), a, b);
        assert(s.drop_last().subrange(a, b + 1) =~= s.subrange(a, b + 1));
    } else {
        assert(s.subrange(0, s.len() as int) =~= s);
    }
}

proof fn lemma_trim_all_space(s: Seq<char>)
    requires
        forall|k: int| 0 <= k < s.len() ==> is_space(s[k]),
    ensures
        trim_str(s) == Seq::<char>::empty(),
    decreases s.len(),
{
    if s.len() > 0 {
        lemma_trim_all_space(s.drop_first());
    }
    assert(trim_str(s) =~= Seq::<char>::empty());
}

/// The whitespace test, exactly as `is_space` describes.
pub fn space_char(c: char) -> (r: bool)
    ensures
        r == is_space(c),
{
    c == ' ' || c == '\t' || c == '\n' || c == '\r'
}

fn space_at(s: &str, i: usize) -> (r: bool)
    requires
        i < s@.len(),
    ensures
        r == is_space(s@[i as int]),
{
    let c = s.get_char(i);
    c == ' ' || c == '\t' || c == '\n' || c == '\r'
}

/// Drops leading and trailing ASCII whitespace, exactly as `trim_str`
/// describes.
pub fn trim(s: &str) -> (r: String)
    ensures
        r@ == trim_str(s@),
{
    let len = s.unicode_len();
    let mut a: usize = 0;
    while a < len && space_at(s, a)
        invariant
            len == s@.len(),
            a <= len,
            forall|k: int| 0 <= k < a ==> is_space(s@[k]),
        decreases len - a,
    {
        a = a + 1;
    }
    if a == len {
        proof {
            lemma_trim_all_space(s@);
        }
        return String::new();
    }
    let mut b: usize = len - 1;
    while b > a && space_at(s, b)
        invariant
            len == s@.len(),
            a <= b < len,
            forall|k: int| b < k < len ==> is_space(s@[k]),
        decreases b,
    {
        b = b - 1;
    }
    proof {
        lemma_trim_window(s@, a as int, b as int);
    }
    String::from_str(s.substring_char(a, b + 1))
}

/// The least index of `c` in `s`, or -1 where `c` does not occur.
pub open spec fn find_char(s: Seq<char>, c: char) -> int
    decreases s.len(),
{
    if s.len() == 0 {
        -1
    } else if s[0] == c {
        0
    } else if find_char(s.drop_first(), c) == -1 {
        -1
    } else {
        find_char(s.drop_first(), c) + 1
    }
}

proof fn lemma_find_char_at(s: Seq<char>, c: char, j: int)
    requires
        0 <= j < s.len(),
        s[j] == c,
        forall|m: int| 0 <= m < j ==> s[m] != c,
    ensures
        find_char(s, c) == j,
    decreases s.len(),
{
    if j > 0 {
        lemma_find_char_at(s.drop_first(), c, j - 1);
    }
}

proof fn lemma_find_char_none(s: Seq<char>, c: char)
    requires
        forall|m: int| 0 <= m < s.len() ==> s[m] != c,
    ensures
        find_char(s, c) == -1,
    decreases s.len(),
{
    if s.len() > 0 {
        lemma_find_char_none(s.drop_first(), c);
    }
}

/// `s` split on every occurrence of `c`; a trailing or leading separator
/// yields an empty piece, and the empty string yields one empty piece.
pub open spec fn split_on_char(s: Seq<char>, c: char) -> Seq<Seq<char>>
    decreases s.len(),
    via split_on_char_decreases
{
    if find_char(s, c) < 0 {
        seq![s]
    } else {
        seq![s.take(find_char(s, c))] + split_on_char(s.skip(find_char(s, c) + 1), c)
    }
}

#[via_fn]
proof fn split_on_char_decreases(s: Seq<char>, c: char) {
    lemma_find_char_in_range(s, c);
}

proof fn lemma_find_char_in_range(s: Seq<char>, c: char)
    ensures
        -1 <= find_char(s, c) < s.len(),
        find_char(s, c) >= 0 ==> s[find_char(s, c)] == c,
    decreases s.len(),
{
    if s.len() > 0 && s[0] != c {
        lemma_find_char_in_range(s.drop_first(), c);
    }
}

/// The comma-separated items of `s`, each trimmed of ASCII whitespace.
pub open spec fn split_trim(s: Seq<char>) -> Seq<Seq<char>> {
    split_on_char(s, ',').map_values(|p: Seq<char>| trim_str(p))
}

/// Splits a comma list into its trimmed items, exactly as `split_trim`
/// describes.
pub fn split_trim_commas(s: &str) -> (r: Vec<String>)
    ensures
        strs(r@) == split_trim(s@),
{
    let len = s.unicode_len();
    let mut parts: Vec<String> = Vec::new();
    let mut start: usize = 0;
    let mut i: usize = 0;
    proof {
        assert(s@.skip(0) =~= s@);
        assert(strs(parts@) + split_trim(s@) =~= split_trim(s@));
    }
    while i < len
        invariant
            len == s@.len(),
            start <= i <= len,
            forall|m: int| start <= m < i ==> s@[m] != ',',
            split_trim(s@) =~= strs(parts@) + split_trim(s@.skip(start as int)),
        decreases len - i,
    {
        if s.get_char(i) == ',' {
            let piece = trim(s.substring_char(start, i));
            proof {
                let rest = s@.skip(start as int);
                lemma_find_char_at(rest, ',', i - start);
                assert(rest.take(i - start) =~= s@.subrange(start as int, i as int));
                assert(rest.skip(i - start + 1) =~= s@.skip(i + 1 as int));
                assert(split_trim(rest) =~= seq![trim_str(rest.take(i - start))] + split_trim(
                    rest.skip(i - start + 1),
                ));
                assert(strs(parts@.push(piece)) =~= strs(parts@) + seq![piece@]);
            }
            parts.push(piece);
            start = i + 1;
        }
        i = i + 1;
    }
    let piece = trim(s.substring_char(start, len));
    proof {
        let rest = s@.skip(start as int);
        lemma_find_char_none(rest, ',');
        assert(rest =~= s@.subrange(start as int, len as int));
        assert(split_trim(rest) =~= seq![trim_str(rest)]);
        assert(strs(parts@.push(piece)) =~= strs(parts@) + seq![piece@]);
    }
    parts.push(piece);
    proof {
        assert(strs(parts@) =~= split_trim(s@));
    }
    parts
}

/// Whether `pat` occurs in `s` starting at `i`.
pub open spec fn matches_at(s: Seq<char>, pat: Seq<char>, i: int) -> bool {
    0 <= i && i + pat.len() <= s.len() && s.subrange(i, i + pat.len()) == pat
}

/// The least index where `pat` occurs in `s`, or -1 where it never does.
pub open spec fn first_match(s: Seq<char>, pat: Seq<char>) -> int
    decreases s.len(),
    via first_match_decreases
{
    if s.len() < pat.len() {
        -1
    } else if s.subrange(0, pat.len() as int) == pat {
        0
    } else if first_match(s.drop_first(), pat) == -1 {
        -1
    } else {
        first_match(s.drop_first(), pat) + 1
    }
}

#[via_fn]
proof fn first_match_decreases(s: Seq<char>, pat: Seq<char>) {
    if s.len() >= pat.len() && s.subrange(0, pat.len() as int) != pat {
        if pat.len() == 0 {
            assert(s.subrange(0, 0) =~= pat);
        }
    }
}

proof fn lemma_drop_first_no_match(s: Seq<char>, pat: Seq<char>, m: int)
    requires
        !matches_at(s, pat, m + 1),
        0 <= m,
        s.len() > 0,
    ensures
        !matches_at(s.drop_first(), pat, m),
{
    let t = s.drop_first();
    if m + pat.len() <= t.len() && t.subrange(m, m + pat.len()) == pat {
        assert forall|x: int| 0 <= x < pat.len() implies s.subrange(m + 1, m + 1 + pat.len())[x]
            == pat[x] by {
            assert(t.subrange(m, m + pat.len())[x] == pat[x]);
            assert(t[m + x] == s[m + 1 + x]);
        }
        assert(s.subrange(m + 1, m + 1 + pat.len()) =~= pat);
    }
}

proof fn lemma_first_match_at(s: Seq<char>, pat: Seq<char>, j: int)
    requires
        matches_at(s, pat, j),
        forall|m: int| 0 <= m < j ==> !matches_at(s, pat, m),
    ensures
        first_match(s, pat) == j,
    decreases s.len(),
{
    if j == 0 {
        assert(s.subrange(0, pat.len() as int) == pat);
    } else {
        assert(!matches_at(s, pat, 0));
        assert(s.subrange(0, pat.len() as int) != pat);
        let t = s.drop_first();
        assert forall|m: int| 0 <= m < j - 1 implies !matches_at(t, pat, m) by {
            lemma_drop_first_no_match(s, pat, m);
        }
        assert forall|x: int| 0 <= x < pat.len() implies t.subrange(j - 1, j - 1 + pat.len())[x]
            == pat[x] by {
            assert(s.subrange(j, j + pat.len())[x] == pat[x]);
            assert(t[j - 1 + x] == s[j + x]);
        }
        assert(t.subrange(j - 1, j - 1 + pat.len()) =~= pat);
        lemma_first_match_at(t, pat, j - 1);
    }
}

proof fn lemma_first_match_none(s: Seq<char>, pat: Seq<char>)
    requires
        forall|m: int| !matches_at(s, pat, m),
    ensures
        first_match(s, pat) == -1,
    decreases s.len(),
{
    if s.len() >= pat.len() {
        assert(!matches_at(s, pat, 0));
        if pat.len() == 0 {
            assert(s.subrange(0, 0) =~= pat);
            assert(matches_at(s, pat, 0));
        }
        let t = s.drop_first();
        assert forall|m: int| !matches_at(t, pat, m) by {
            if 0 <= m {
                lemma_drop_first_no_match(s, pat, m);
            }
        }
        lemma_first_match_none(t, pat);
    }
}

/// A found index is a real occurrence.
pub proof fn lemma_first_match_is_match(s: Seq<char>, pat: Seq<char>)
    requires
        first_match(s, pat) >= 0,
    ensures
        matches_at(s, pat, first_match(s, pat)),
    decreases s.len(),
{
    if s.len() >= pat.len() && s.subrange(0, pat.len() as int) != pat {
        if pat.len() == 0 {
            assert(s.subrange(0, 0) =~= pat);
        }
        let t = s.drop_first();
        lemma_first_match_is_match(t, pat);
        let j = first_match(t, pat);
        assert forall|x: int| 0 <= x < pat.len() implies s.subrange(j + 1, j + 1 + pat.len())[x]
            == pat[x] by {
            assert(t.subrange(j, j + pat.len())[x] == pat[x]);
            assert(t[j + x] == s[j + 1 + x]);
        }
        assert(s.subrange(j + 1, j + 1 + pat.len()) =~= pat);
    }
}

fn match_at(s: &str, pat: &str, i: usize) -> (r: bool)
    requires
        i + pat@.len() <= s@.len(),
        s@.len() <= usize::MAX,
    ensures
        r == matches_at(s@, pat@, i as int),
{
    let plen = pat.unicode_len();
    let mut k: usize = 0;
    while k < plen
        invariant
            plen == pat@.len(),
            i + plen <= s@.len(),
            s@.len() <= usize::MAX,
            k <= plen,
            forall|m: int| 0 <= m < k ==> s@[i + m] == pat@[m],
        decreases plen - k,
    {
        if s.get_char(i + k) != pat.get_char(k) {
            proof {
                assert(s@.subrange(i as int, i + plen)[k as int] != pat@[k as int]);
            }
            return false;
        }
        k = k + 1;
    }
    proof {
        assert(s@.subrange(i as int, i + plen) =~= pat@);
    }
    true
}

/// The position of the first occurrence of `pat` in `s`, counted in
/// characters, exactly as `first_match` describes.
pub fn find_sub(s: &str, pat: &str) -> (r: Option<usize>)
    ensures
        r matches Some(i) ==> first_match(s@, pat@) == i as int,
        r is None ==> first_match(s@, pat@) == -1,
{
    let slen = s.unicode_len();
    let plen = pat.unicode_len();
    if plen > slen {
        proof {
            lemma_first_match_none(s@, pat@);
        }
        return None;
    }
    if plen == 0 {
        proof {
            assert(s@.subrange(0, 0) =~= pat@);
        }
        return Some(0);
    }
    let mut i: usize = 0;
    while i <= slen - plen
        invariant
            slen == s@.len(),
            plen == pat@.len(),
            1 <= plen <= slen,
            i <= slen - plen + 1,
            forall|m: int| 0 <= m < i ==> !matches_at(s@, pat@, m),
        decreases slen - i,
    {
        if match_at(s, pat, i) {
            proof {
                lemma_first_match_at(s@, pat@, i as int);
            }
            return Some(i);
        }
        i = i + 1;
    }
    proof {
        lemma_first_match_none(s@, pat@);
    }
    None
}

/// Pushing a string commutes with taking views.
pub proof fn lemma_strs_push(v: Seq<String>, s: String)
    ensures
        strs(v.push(s)) == strs(v).push(s@),
{
    assert forall|k: int| 0 <= k < v.len() + 1 implies strs(v.push(s))[k] == strs(v).push(s@)[k] by {
        if k < v.len() {
            assert(v.push(s)[k] == v[k]);
        } else {
            assert(v.push(s)[k] == s);
        }
    }
    assert(strs(v.push(s)) =~= strs(v).push(s@));
}

/// A fresh copy of a list of strings, reading the same.
pub fn copy_strings(v: &Vec<String>) -> (r: Vec<String>)
    ensures
        strs(r@) == strs(v@),
{
    let mut out: Vec<String> = Vec::new();
    let mut i: usize = 0;
    while i < v.len()
        invariant
            i <= v.len(),
            strs(out@) =~= strs(v@).take(i as int),
        decreases v.len() - i,
    {
        let ghost pre = out@;
        out.push(v[i].clone());
        proof {
            lemma_strs_push(pre, out@.last());
            assert(strs(out@) =~= strs(v@).take(i as int + 1));
        }
        i = i + 1;
    }
    proof {
        assert(strs(v@).take(v@.len() as int) =~= strs(v@));
    }
    out
}

/// Splits on every occurrence of `c`, exactly as `split_on_char` describes.
pub fn split_char(s: &str, c: char) -> (r: Vec<String>)
    ensures
        strs(r@) == split_on_char(s@, c),
{
    let len = s.unicode_len();
    let mut parts: Vec<String> = Vec::new();
    let mut start: usize = 0;
    let mut i: usize = 0;
    proof {
        assert(s@.skip(0) =~= s@);
        assert(strs(parts@) + split_on_char(s@, c) =~= split_on_char(s@, c));
    }
    while i < len
        invariant
            len == s@.len(),
            start <= i <= len,
            forall|m: int| start <= m < i ==> s@[m] != c,
            split_on_char(s@, c) =~= strs(parts@) + split_on_char(s@.skip(start as int), c),
        decreases len - i,
    {
        if s.get_char(i) == c {
            let piece = String::from_str(s.substring_char(start, i));
            proof {
                let rest = s@.skip(start as int);
                lemma_find_char_at(rest, c, i - start);
                assert(rest.take(i - start) =~= s@.subrange(start as int, i as int));
                assert(rest.skip(i - start + 1) =~= s@.skip(i + 1 as int));
                assert(strs(parts@.push(piece)) =~= strs(parts@) + seq![piece@]);
            }
            parts.push(piece);
            start = i + 1;
        }
        i = i + 1;
    }
    let piece = String::from_str(s.substring_char(start, len));
    proof {
        let rest = s@.skip(start as int);
        lemma_find_char_none(rest, c);
        assert(rest =~= s@.subrange(start as int, len as int));
        assert(strs(parts@.push(piece)) =~= strs(parts@) + seq![piece@]);
    }
    parts.push(piece);
    proof {
        assert(strs(parts@) =~= split_on_char(s@, c));
    }
    parts
}

/// Whether some string in `fields` reads exactly `s`.
pub open spec fn contains_str(fields: Seq<String>, s: Seq<char>) -> bool {
    exists|i: int| 0 <= i < fields.len() && fields[i]@ == s
}

/// Membership of a name in a whitelist.
pub fn vec_contains_str(fields: &Vec<String>, s: &str) -> (r: bool)
    ensures
        r == contains_str(fields@, s@),
{
    let owned: String = s.to_owned();
    let mut i: usize = 0;
    while i < fields.len()
        invariant
            owned@ == s@,
            i <= fields.len(),
            forall|j: int| 0 <= j < i ==> fields@[j]@ != s@,
        decreases fields.len() - i,
    {
        if fields[i] == owned {
            return true;
        }
        i = i + 1;
    }
    false
}

} // verus!
