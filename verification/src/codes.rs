//! Human-readable record codes: a prefix out of a name's initials and a
//! zero-padded sequence number, `AIN-00001` style.

use vstd::prelude::*;
use vstd::string::StringExecFns;
use crate::strutil::{dec_str, is_space};
use crate::values::{args_view, ArgValue, ArgValueView};

verus! {

/// The first letter of every whitespace-separated word; `from_gap` says
/// whether a word may start at the front.
pub open spec fn first_letters_from(s: Seq<char>, from_gap: bool) -> Seq<char>
    decreases s.len(),
{
    if s.len() == 0 {
        Seq::<char>::empty()
    } else {
        (if !is_space(s[0]) && from_gap {
            seq![s[0]]
        } else {
            Seq::<char>::empty()
        }) + first_letters_from(s.drop_first(), is_space(s[0]))
    }
}

/// The initials of a name, in order.
pub open spec fn first_letters(s: Seq<char>) -> Seq<char> {
    first_letters_from(s, true)
}

/// What uppercasing yields; the result depends on the characters alone.
pub uninterp spec fn upper_of(s: Seq<char>) -> Seq<char>;

/// Relies on str::to_uppercase: the Unicode upper-case form of the text,
/// which depends on the characters alone; empty text stays empty.
#[verifier::external_body]
fn to_uppercase(s: &str) -> (r: String)
    ensures
        r@ == upper_of(s@),
        s@.len() == 0 ==> r@.len() == 0,
{
    s.to_uppercase()
}

/// The prefix of a code: the upper-cased initials of the name.
pub fn generate_prefix(name: &str) -> (r: String)
    ensures
        r@ == upper_of(first_letters(name@)),
{
    let len = name.unicode_len();
    let mut letters = String::new();
    let mut i: usize = 0;
    let mut from_gap = true;
    proof {
        assert(name@.skip(0) =~= name@);
    }
    while i < len
        invariant
            len == name@.len(),
            i <= len,
            first_letters(name@) =~= letters@ + first_letters_from(
                name@.skip(i as int),
                from_gap,
            ),
        decreases len - i,
    {
        let ghost rest = name@.skip(i as int);
        proof {
            assert(rest[0] == name@[i as int]);
            assert(rest.drop_first() =~= name@.skip(i as int + 1));
        }
        let space_here = crate::strutil::space_char(name.get_char(i));
        if !space_here && from_gap {
            letters.append(name.substring_char(i, i + 1));
            proof {
                assert(name@.subrange(i as int, i as int + 1) =~= seq![name@[i as int]]);
            }
        }
        from_gap = space_here;
        proof {
            assert(first_letters(name@) =~= letters@ + first_letters_from(
                name@.skip(i as int + 1),
                from_gap,
            ));
        }
        i = i + 1;
    }
    proof {
        assert(name@.skip(len as int) =~= Seq::<char>::empty());
        assert(letters@ =~= first_letters(name@));
    }
    to_uppercase(letters.as_str())
}

/// Whether a character is a decimal digit.
pub open spec fn is_digit(c: char) -> bool {
    '0' <= c && c <= '9'
}

/// The numeric value of a digit character.
pub open spec fn digit_val(c: char) -> int {
    c as int - '0' as int
}

/// How many characters at the end of `s` are digits.
pub open spec fn digit_suffix_len(s: Seq<char>) -> nat
    decreases s.len(),
{
    if s.len() == 0 || !is_digit(s.last()) {
        0
    } else {
        digit_suffix_len(s.drop_last()) + 1
    }
}

/// The number a digit string denotes.
pub open spec fn dec_value(digits: Seq<char>) -> int
    decreases digits.len(),
{
    if digits.len() == 0 {
        0
    } else {
        dec_value(digits.drop_last()) * 10 + digit_val(digits.last())
    }
}

/// The trailing number of a code of the form `prefix-digits`: the digits
/// after the final dash, present only where at least one digit ends the
/// code and a dash stands right before the digits.
pub open spec fn code_number(s: Seq<char>) -> Option<int> {
    let dsl = digit_suffix_len(s) as int;
    if dsl >= 1 && dsl < s.len() && s[s.len() - dsl - 1] == '-' {
        Some(dec_value(s.skip(s.len() - dsl)))
    } else {
        None
    }
}

proof fn lemma_digit_suffix(s: Seq<char>, j: int)
    requires
        0 <= j <= s.len(),
        forall|k: int| j <= k < s.len() ==> is_digit(s[k]),
        j > 0 ==> !is_digit(s[j - 1]),
    ensures
        digit_suffix_len(s) == s.len() - j,
    decreases s.len(),
{
    if s.len() > 0 {
        if j == s.len() {
            assert(!is_digit(s.last()));
        } else {
            let t = s.drop_last();
            lemma_digit_suffix(t, j);
        }
    }
}

proof fn lemma_digit_suffix_digits(s: Seq<char>)
    ensures
        digit_suffix_len(s) <= s.len(),
        forall|k: int|
            s.len() - digit_suffix_len(s) <= k < s.len() ==> is_digit(#[trigger] s[k]),
    decreases s.len(),
{
    if s.len() > 0 && is_digit(s.last()) {
        lemma_digit_suffix_digits(s.drop_last());
        assert forall|k: int|
            s.len() - digit_suffix_len(s) <= k < s.len() implies is_digit(#[trigger] s[k]) by {
            if k < s.len() - 1 {
                assert(s.drop_last()[k] == s[k]);
            }
        }
    }
}

/// A code's trailing number is never negative.
pub proof fn lemma_code_number_nonneg(s: Seq<char>)
    ensures
        code_number(s) matches Some(v) ==> v >= 0,
{
    if code_number(s) is Some {
        let dsl = digit_suffix_len(s) as int;
        let digits = s.skip(s.len() - dsl);
        lemma_digit_suffix_digits(s);
        assert forall|m: int| 0 <= m < digits.len() implies is_digit(#[trigger] digits[m]) by {
            assert(digits[m] == s[s.len() - dsl + m]);
        }
        lemma_dec_value_bounds(digits);
    }
}

/// Nonnegative, and never shrinking as digits are appended.
proof fn lemma_dec_value_bounds(digits: Seq<char>)
    requires
        forall|k: int| 0 <= k < digits.len() ==> is_digit(digits[k]),
    ensures
        0 <= dec_value(digits),
        digits.len() > 0 ==> dec_value(digits.drop_last()) <= dec_value(digits),
    decreases digits.len(),
{
    if digits.len() > 0 {
        lemma_dec_value_bounds(digits.drop_last());
    }
}

/// The trailing number of a code, where one fits a 32-bit integer; a code
/// without one, or with one too large, has none.
pub fn extract_number_from_code(code: &str) -> (r: Option<i32>)
    ensures
        match code_number(code@) {
            Some(v) => if v <= i32::MAX {
                r == Some(v as i32)
            } else {
                r is None
            },
            None => r is None,
        },
{
    let len = code.unicode_len();
    let mut j: usize = len;
    while j > 0 && digit_at(code, j - 1)
        invariant
            len == code@.len(),
            j <= len,
            forall|k: int| j <= k < len ==> is_digit(code@[k]),
        decreases j,
    {
        j = j - 1;
    }
    proof {
        lemma_digit_suffix(code@, j as int);
    }
    if j == len || j == 0 || !dash_at(code, j - 1) {
        return None;
    }
    let mut acc: u64 = 0;
    let mut k: usize = j;
    let ghost digits = code@.skip(j as int);
    proof {
        assert(digits.take(0) =~= Seq::<char>::empty());
        assert forall|m: int| 0 <= m < digits.len() implies is_digit(#[trigger] digits[m]) by {
            assert(digits[m] == code@[j + m]);
        }
    }
    while k < len
        invariant
            len == code@.len(),
            j <= k <= len,
            digits == code@.skip(j as int),
            forall|m: int| 0 <= m < digits.len() ==> is_digit(digits[m]),
            acc <= 0x8000_0000u64,
            acc as int == dec_value(digits.take(k - j as int)) || (acc == 0x8000_0000u64
                && dec_value(digits.take(k - j as int)) > i32::MAX),
        decreases len - k,
    {
        proof {
            assert(digits[k - j as int] == code@[k as int]);
        }
        let d = digit_value_at(code, k);
        proof {
            let done = digits.take(k - j as int + 1);
            assert(done.drop_last() =~= digits.take(k - j as int));
            assert(done.last() == digits[k - j as int]);
            assert forall|m: int| 0 <= m < done.len() implies is_digit(#[trigger] done[m]) by {
                assert(done[m] == digits[m]);
            }
            lemma_dec_value_bounds(done);
        }
        if acc > 214748364 || (acc == 214748364 && d > 7) {
            proof {
                let done = digits.take(k - j as int + 1);
                assert(dec_value(done) > i32::MAX);
            }
            acc = 0x8000_0000u64;
        } else {
            acc = acc * 10 + (d as u64);
        }
        k = k + 1;
    }
    proof {
        assert(digits.take(len - j as int) =~= digits);
    }
    if acc > i32::MAX as u64 {
        None
    } else {
        Some(acc as i32)
    }
}

fn digit_at(s: &str, i: usize) -> (r: bool)
    requires
        i < s@.len(),
    ensures
        r == is_digit(s@[i as int]),
{
    let c = s.get_char(i);
    '0' <= c && c <= '9'
}

fn dash_at(s: &str, i: usize) -> (r: bool)
    requires
        i < s@.len(),
    ensures
        r == (s@[i as int] == '-'),
{
    s.get_char(i) == '-'
}

fn digit_value_at(s: &str, i: usize) -> (r: u8)
    requires
        i < s@.len(),
        is_digit(s@[i as int]),
    ensures
        r as int == digit_val(s@[i as int]),
        r <= 9,
{
    let c = s.get_char(i);
    (c as u8) - ('0' as u8)
}

/// Whether the newest existing code, if any, leaves room for a successor.
pub open spec fn next_seq_fits(last_code: Option<&String>) -> bool {
    match last_code {
        Some(c) => code_number(c@) matches Some(v) ==> v < i32::MAX,
        None => true,
    }
}

/// The sequence number that follows the newest existing code: one past its
/// trailing number, or 1 where no code exists or none can be read.
pub open spec fn next_seq_spec(last_code: Option<&String>) -> int {
    match last_code {
        Some(c) => match code_number(c@) {
            Some(v) => if v <= i32::MAX {
                v + 1
            } else {
                1
            },
            None => 1,
        },
        None => 1,
    }
}

/// The next sequence number, exactly as `next_seq_spec` describes.
pub fn next_sequence_number(last_code: Option<&String>) -> (r: i32)
    requires
        next_seq_fits(last_code),
    ensures
        r == next_seq_spec(last_code),
{
    match last_code {
        Some(c) => {
            proof {
                lemma_code_number_nonneg(c@);
            }
            match extract_number_from_code(c.as_str()) {
                Some(n) => n + 1,
                None => 1,
            }
        },
        None => 1,
    }
}

/// A sequence number rendered in decimal, zero-padded to at least five
/// places.
pub open spec fn zero_pad5(n: nat) -> Seq<char> {
    if dec_str(n).len() >= 5 {
        dec_str(n)
    } else {
        Seq::new((5 - dec_str(n).len()) as nat, |i: int| '0') + dec_str(n)
    }
}

/// A full code: the prefix, a dash, and the padded number.
pub open spec fn code_text(prefix: Seq<char>, n: nat) -> Seq<char> {
    prefix + "-"@ + zero_pad5(n)
}

/// Renders `prefix-number`, the number zero-padded to five places.
pub fn format_code(prefix: &str, number: i32) -> (r: String)
    requires
        number >= 0,
    ensures
        r@ == code_text(prefix@, number as nat),
{
    let digits = crate::strutil::u64_to_string(number as u64);
    let mut out = String::from_str(prefix);
    out.append("-");
    let dlen = digits.as_str().unicode_len();
    let mut pad: usize = if dlen >= 5 {
        0
    } else {
        5 - dlen
    };
    let ghost total_pad: int = pad as int;
    while pad > 0
        invariant
            out@ + Seq::new((pad) as nat, |i: int| '0') =~= prefix@ + "-"@ + Seq::new(
                total_pad as nat,
                |i: int| '0',
            ),
        decreases pad,
    {
        out.append("0");
        proof {
            reveal_strlit("0");
            assert(Seq::new((pad) as nat, |i: int| '0') =~= seq!['0'] + Seq::new(
                (pad - 1) as nat,
                |i: int| '0',
            ));
        }
        pad = pad - 1;
    }
    proof {
        assert(Seq::new(0nat, |i: int| '0') =~= Seq::<char>::empty());
        assert(out@ =~= prefix@ + "-"@ + Seq::new(total_pad as nat, |i: int| '0'));
    }
    out.append(digits.as_str());
    proof {
        assert(out@ =~= code_text(prefix@, number as nat));
    }
    out
}

/// A code request: the text whose initials make the prefix, and an
/// optional caller-chosen code that takes priority.
#[derive(Debug, Clone)]
pub struct CodeRequest {
    pub text: String,
    pub code: Option<String>,
}

/// The statement that fetches the newest existing code of a prefix.
pub fn code_lookup_statement(table: &str, prefix: &str) -> (r: crate::crud::Statement)
    ensures
        r.sql@ == "SELECT code FROM "@ + table@
            + " WHERE code LIKE $1 ORDER BY code DESC LIMIT 1"@,
        args_view(r.args@) == seq![ArgValueView::Text(prefix@ + "-%"@)],
{
    let mut sql = String::from_str("SELECT code FROM ");
    sql.append(table);
    sql.append(" WHERE code LIKE $1 ORDER BY code DESC LIMIT 1");
    let pattern = String::from_str(prefix).concat("-%");
    let mut args: Vec<ArgValue> = Vec::new();
    args.push(ArgValue::Text(pattern));
    proof {
        assert(args_view(args@) =~= seq![ArgValueView::Text(prefix@ + "-%"@)]);
    }
    crate::crud::Statement { sql, args }
}

/// A fresh code for a name, given the newest existing code of the same
/// prefix: the upper-cased initials, a dash, the next number zero-padded.
pub fn generate_code(name: &str, last_code: Option<&String>) -> (r: String)
    requires
        next_seq_fits(last_code),
    ensures
        r@ == code_text(upper_of(first_letters(name@)), next_seq_spec(last_code) as nat),
{
    let prefix = generate_prefix(name);
    proof {
        if let Some(c) = last_code {
            lemma_code_number_nonneg(c@);
        }
    }
    let next = next_sequence_number(last_code);
    format_code(prefix.as_str(), next)
}

/// The code in force for a request: a caller-given code, trimmed, where one
/// was given and is not blank; else a fresh one for the request's text.
pub fn determine_code(request: &CodeRequest, last_code: Option<&String>) -> (r: String)
    requires
        next_seq_fits(last_code),
    ensures
        r@ == (match request.code {
            Some(given) => if crate::strutil::trim_str(given@).len() > 0 {
                crate::strutil::trim_str(given@)
            } else {
                code_text(
                    upper_of(first_letters(crate::strutil::trim_str(request.text@))),
                    next_seq_spec(last_code) as nat,
                )
            },
            None => code_text(
                upper_of(first_letters(crate::strutil::trim_str(request.text@))),
                next_seq_spec(last_code) as nat,
            ),
        }),
{
    if let Some(given) = &request.code {
        let trimmed = crate::strutil::trim(given.as_str());
        if !trimmed.as_str().is_empty() {
            return trimmed;
        }
    }
    let full_name = crate::strutil::trim(request.text.as_str());
    generate_code(full_name.as_str(), last_code)
}

} // verus!
