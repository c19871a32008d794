//! Character classes and small string scanners shared by the identifier
//! grammar and the other text-handling routines of the library.

use vstd::prelude::*;

verus! {

/// An ASCII decimal digit, `0` through `9`.
pub open spec fn is_digit_char(c: char) -> bool {
    48 <= c as u32 && c as u32 <= 57
}

/// An ASCII letter, `a` through `z` or `A` through `Z`.
pub open spec fn is_ascii_alpha_char(c: char) -> bool {
    (65 <= c as u32 && c as u32 <= 90) || (97 <= c as u32 && c as u32 <= 122)
}

/// An ASCII letter or digit.
pub open spec fn is_alnum_char(c: char) -> bool {
    is_digit_char(c) || is_ascii_alpha_char(c)
}

/// Whether a character beyond the ASCII range has the Unicode `Alphabetic`
/// property; only `char_is_alphabetic` ever decides this.
pub uninterp spec fn wide_alphabetic(c: char) -> bool;

/// A character with the Unicode `Alphabetic` property. On ASCII these are
/// exactly the letters; beyond ASCII the class is left abstract.
pub open spec fn is_alphabetic_char(c: char) -> bool {
    if (c as u32) < 128 {
        is_ascii_alpha_char(c)
    } else {
        wide_alphabetic(c)
    }
}

/// Relies on char::is_alphabetic: true exactly on characters with the
/// Unicode `Alphabetic` property; of the ASCII characters those are the
/// letters a-z and A-Z.
#[verifier::external_body]
pub fn char_is_alphabetic(c: char) -> (r: bool)
    ensures
        r == is_alphabetic_char(c),
        (c as u32) >= 128 ==> r == wide_alphabetic(c),
{
    c.is_alphabetic()
}

/// Relies on String::push: appends one character at the end of the string.
#[verifier::external_body]
pub fn push_char(s: &mut String, c: char)
    ensures
        final(s)@ == old(s)@.push(c),
{
    s.push(c);
}

pub fn is_digit(c: char) -> (r: bool)
    ensures
        r == is_digit_char(c),
{
    let u = c as u32;
    48 <= u && u <= 57
}

pub fn is_ascii_alpha(c: char) -> (r: bool)
    ensures
        r == is_ascii_alpha_char(c),
{
    let u = c as u32;
    (65 <= u && u <= 90) || (97 <= u && u <= 122)
}

pub fn is_alnum(c: char) -> (r: bool)
    ensures
        r == is_alnum_char(c),
{
    is_digit(c) || is_ascii_alpha(c)
}

/// Whether two texts hold the same characters.
pub fn str_eq(a: &str, b: &str) -> (r: bool)
    ensures
        r == (a@ == b@),
{
    let na = a.unicode_len();
    let nb = b.unicode_len();
    if na != nb {
        return false;
    }
    let mut i: usize = 0;
    while i < na
        invariant
            0 <= i <= na,
            na == a@.len(),
            na == b@.len(),
            forall|j: int| 0 <= j < i ==> a@[j] == b@[j],
        decreases na - i,
    {
        if a.get_char(i) != b.get_char(i) {
            return false;
        }
        i = i + 1;
    }
    proof {
        assert(a@ =~= b@);
    }
    true
}

/// The character sequences a list of strings holds.
pub open spec fn strs(v: Seq<String>) -> Seq<Seq<char>> {
    v.map_values(|s: String| s@)
}

/// Joins two path segments with a single separator; an empty head gives the
/// tail alone, the way path joining treats a relative tail.
pub open spec fn spec_path_join(a: Seq<char>, b: Seq<char>) -> Seq<char> {
    if a.len() == 0 {
        b
    } else {
        a + seq!['/'] + b
    }
}

/// Joins two path segments with a `/` separator.
pub fn path_join(a: &str, b: &str) -> (r: String)
    ensures
        r@ == spec_path_join(a@, b@),
{
    if a.unicode_len() == 0 {
        return b.to_owned();
    }
    let mut out = a.to_owned();
    push_char(&mut out, '/');
    out.append(b);
    proof {
        assert(out@ =~= spec_path_join(a@, b@));
    }
    out
}

/// Whether the pattern occurs somewhere in the text.
pub open spec fn contains_seq(s: Seq<char>, pat: Seq<char>) -> bool {
    exists|i: int|
        0 <= i && i + pat.len() <= s.len() && #[trigger] s.subrange(i, i + pat.len()) == pat
}

/// Whether the pattern occurs somewhere in the text.
pub fn str_contains(s: &str, pat: &str) -> (r: bool)
    ensures
        r == contains_seq(s@, pat@),
{
    let n = s.unicode_len();
    let m = pat.unicode_len();
    if m > n {
        return false;
    }
    if m == 0 {
        proof {
            let z: int = 0;
            assert(s@.subrange(z, z + pat@.len()) =~= pat@);
        }
        return true;
    }
    let mut i: usize = 0;
    while i <= n - m
        invariant
            0 <= i <= n - m + 1,
            1 <= m <= n,
            n == s@.len(),
            m == pat@.len(),
            forall|j: int| 0 <= j < i ==> #[trigger] s@.subrange(j, j + pat@.len()) != pat@,
        decreases n - m + 1 - i,
    {
        if str_eq(s.substring_char(i, i + m), pat) {
            return true;
        }
        i = i + 1;
    }
    false
}

/// The text before the first line break, or the whole text without one.
pub fn first_line(s: &str) -> (r: String)
    ensures
        r@ == s@.take(find_char_at(s@, '\n')),
{
    let e = find_char(s, '\n');
    s.substring_char(0, e).to_owned()
}

/// A key and a value joined by one separator character.
pub open spec fn spec_joined(k: Seq<char>, sep: char, v: Seq<char>) -> Seq<char> {
    k + seq![sep] + v
}

/// Joins a key and a value with one separator character.
pub fn join_kv(k: &str, sep: char, v: &str) -> (r: String)
    ensures
        r@ == spec_joined(k@, sep, v@),
{
    let mut out = k.to_owned();
    push_char(&mut out, sep);
    out.append(v);
    proof {
        assert(out@ =~= spec_joined(k@, sep, v@));
    }
    out
}

/// The first position at or after `i` holding the character, or the length
/// of the text when the character does not occur.
pub open spec fn find_from(s: Seq<char>, c: char, i: int) -> int
    decreases s.len() - i,
{
    if i < 0 || i >= s.len() {
        i
    } else if s[i] == c {
        i
    } else {
        find_from(s, c, i + 1)
    }
}

pub open spec fn find_char_at(s: Seq<char>, c: char) -> int {
    find_from(s, c, 0)
}

pub proof fn lemma_find_from(s: Seq<char>, c: char, i: int)
    requires
        0 <= i <= s.len(),
    ensures
        i <= find_from(s, c, i) <= s.len(),
        forall|j: int| i <= j < find_from(s, c, i) ==> s[j] != c,
        find_from(s, c, i) < s.len() ==> s[find_from(s, c, i)] == c,
    decreases s.len() - i,
{
    if i < s.len() && s[i] != c {
        lemma_find_from(s, c, i + 1);
    }
}

/// Finds the first occurrence of a character, or the end of the text.
pub fn find_char(input: &str, c: char) -> (e: usize)
    ensures
        e as int == find_char_at(input@, c),
        0 <= find_char_at(input@, c) <= input@.len(),
{
    let ghost s = input@;
    let n = input.unicode_len();
    let mut i: usize = 0;
    loop
        invariant
            0 <= i <= n,
            n == s.len(),
            s == input@,
            find_from(s, c, i as int) == find_char_at(s, c),
        decreases n - i,
    {
        if i >= n {
            return i;
        }
        if input.get_char(i) == c {
            return i;
        }
        i = i + 1;
    }
}

/// Whether the scan of a kebab-case token may continue at position `i`:
/// a letter or digit anywhere, or a dash that neither starts the text nor
/// stands before a non-alphabetic character or the end.
pub open spec fn kebab_ok_at(s: Seq<char>, i: int) -> bool {
    &&& 0 <= i < s.len()
    &&& (is_alnum_char(s[i]) || (s[i] == '-' && i != 0 && i + 1 < s.len() && is_alphabetic_char(
        s[i + 1],
    )))
}

pub open spec fn kebab_end_from(s: Seq<char>, i: int) -> int
    decreases s.len() - i,
{
    if i < 0 || i >= s.len() {
        i
    } else if kebab_ok_at(s, i) {
        kebab_end_from(s, i + 1)
    } else {
        i
    }
}

/// Where the kebab-case token that starts the text ends: the first position
/// at which the scan stops.
pub open spec fn kebab_end(s: Seq<char>) -> int {
    kebab_end_from(s, 0)
}

pub proof fn lemma_kebab_end_from(s: Seq<char>, i: int)
    requires
        0 <= i <= s.len(),
    ensures
        i <= kebab_end_from(s, i) <= s.len(),
        forall|j: int| i <= j < kebab_end_from(s, i) ==> kebab_ok_at(s, j),
        kebab_end_from(s, i) < s.len() ==> !kebab_ok_at(s, kebab_end_from(s, i)),
    decreases s.len() - i,
{
    if i < s.len() && kebab_ok_at(s, i) {
        lemma_kebab_end_from(s, i + 1);
    }
}

/// The scan stops exactly at the first position that is not valid.
pub proof fn lemma_kebab_end_is(s: Seq<char>, e: int)
    requires
        0 <= e <= s.len(),
        forall|j: int| 0 <= j < e ==> kebab_ok_at(s, j),
        e < s.len() ==> !kebab_ok_at(s, e),
    ensures
        kebab_end(s) == e,
{
    lemma_kebab_end_is_from(s, 0, e);
}

proof fn lemma_kebab_end_is_from(s: Seq<char>, i: int, e: int)
    requires
        0 <= i <= e <= s.len(),
        forall|j: int| i <= j < e ==> kebab_ok_at(s, j),
        e < s.len() ==> !kebab_ok_at(s, e),
    ensures
        kebab_end_from(s, i) == e,
    decreases e - i,
{
    if i < e {
        lemma_kebab_end_is_from(s, i + 1, e);
    }
}

/// Scans the kebab-case token that starts the text and returns the position
/// where it ends.
pub fn kebab_scan(input: &str) -> (e: usize)
    ensures
        e as int == kebab_end(input@),
        0 <= kebab_end(input@) <= input@.len(),
{
    let ghost s = input@;
    let n = input.unicode_len();
    let mut i: usize = 0;
    loop
        invariant
            0 <= i <= n,
            n == s.len(),
            s == input@,
            kebab_end_from(s, i as int) == kebab_end(s),
        decreases n - i,
    {
        if i >= n {
            return i;
        }
        let c = input.get_char(i);
        let ok = if is_alnum(c) {
            true
        } else if c == '-' && i != 0 && i + 1 < n {
            char_is_alphabetic(input.get_char(i + 1))
        } else {
            false
        };
        if !ok {
            assert(!kebab_ok_at(s, i as int));
            return i;
        }
        assert(kebab_ok_at(s, i as int));
        i = i + 1;
    }
}

/// Where the run of ASCII letters that starts the text ends.
pub open spec fn alpha_end_from(s: Seq<char>, i: int) -> int
    decreases s.len() - i,
{
    if i < 0 || i >= s.len() {
        i
    } else if is_ascii_alpha_char(s[i]) {
        alpha_end_from(s, i + 1)
    } else {
        i
    }
}

pub open spec fn alpha_end(s: Seq<char>) -> int {
    alpha_end_from(s, 0)
}

pub proof fn lemma_alpha_end(s: Seq<char>)
    ensures
        0 <= alpha_end(s) <= s.len(),
        forall|j: int| 0 <= j < alpha_end(s) ==> is_ascii_alpha_char(s[j]),
        alpha_end(s) < s.len() ==> !is_ascii_alpha_char(s[alpha_end(s)]),
{
    lemma_alpha_end_from(s, 0);
}

proof fn lemma_alpha_end_from(s: Seq<char>, i: int)
    requires
        0 <= i <= s.len(),
    ensures
        i <= alpha_end_from(s, i) <= s.len(),
        forall|j: int| i <= j < alpha_end_from(s, i) ==> is_ascii_alpha_char(s[j]),
        alpha_end_from(s, i) < s.len() ==> !is_ascii_alpha_char(s[alpha_end_from(s, i)]),
    decreases s.len() - i,
{
    if i < s.len() && is_ascii_alpha_char(s[i]) {
        lemma_alpha_end_from(s, i + 1);
    }
}

pub proof fn lemma_alpha_end_is(s: Seq<char>, e: int)
    requires
        0 <= e <= s.len(),
        forall|j: int| 0 <= j < e ==> is_ascii_alpha_char(s[j]),
        e < s.len() ==> !is_ascii_alpha_char(s[e]),
    ensures
        alpha_end(s) == e,
{
    lemma_alpha_end_is_from(s, 0, e);
}

proof fn lemma_alpha_end_is_from(s: Seq<char>, i: int, e: int)
    requires
        0 <= i <= e <= s.len(),
        forall|j: int| i <= j < e ==> is_ascii_alpha_char(s[j]),
        e < s.len() ==> !is_ascii_alpha_char(s[e]),
    ensures
        alpha_end_from(s, i) == e,
    decreases e - i,
{
    if i < e {
        lemma_alpha_end_is_from(s, i + 1, e);
    }
}

pub fn alpha_scan(input: &str) -> (e: usize)
    ensures
        e as int == alpha_end(input@),
        0 <= alpha_end(input@) <= input@.len(),
{
    let ghost s = input@;
    let n = input.unicode_len();
    let mut i: usize = 0;
    loop
        invariant
            0 <= i <= n,
            n == s.len(),
            s == input@,
            alpha_end_from(s, i as int) == alpha_end(s),
        decreases n - i,
    {
        if i >= n {
            return i;
        }
        if !is_ascii_alpha(input.get_char(i)) {
            return i;
        }
        i = i + 1;
    }
}

/// Where the run of ASCII digits that starts the text ends.
pub open spec fn digit_end_from(s: Seq<char>, i: int) -> int
    decreases s.len() - i,
{
    if i < 0 || i >= s.len() {
        i
    } else if is_digit_char(s[i]) {
        digit_end_from(s, i + 1)
    } else {
        i
    }
}

pub open spec fn digit_end(s: Seq<char>) -> int {
    digit_end_from(s, 0)
}

pub proof fn lemma_digit_end(s: Seq<char>)
    ensures
        0 <= digit_end(s) <= s.len(),
        forall|j: int| 0 <= j < digit_end(s) ==> is_digit_char(s[j]),
        digit_end(s) < s.len() ==> !is_digit_char(s[digit_end(s)]),
{
    lemma_digit_end_from(s, 0);
}

proof fn lemma_digit_end_from(s: Seq<char>, i: int)
    requires
        0 <= i <= s.len(),
    ensures
        i <= digit_end_from(s, i) <= s.len(),
        forall|j: int| i <= j < digit_end_from(s, i) ==> is_digit_char(s[j]),
        digit_end_from(s, i) < s.len() ==> !is_digit_char(s[digit_end_from(s, i)]),
    decreases s.len() - i,
{
    if i < s.len() && is_digit_char(s[i]) {
        lemma_digit_end_from(s, i + 1);
    }
}

pub proof fn lemma_digit_end_is(s: Seq<char>, e: int)
    requires
        0 <= e <= s.len(),
        forall|j: int| 0 <= j < e ==> is_digit_char(s[j]),
        e < s.len() ==> !is_digit_char(s[e]),
    ensures
        digit_end(s) == e,
{
    lemma_digit_end_is_from(s, 0, e);
}

proof fn lemma_digit_end_is_from(s: Seq<char>, i: int, e: int)
    requires
        0 <= i <= e <= s.len(),
        forall|j: int| i <= j < e ==> is_digit_char(s[j]),
        e < s.len() ==> !is_digit_char(s[e]),
    ensures
        digit_end_from(s, i) == e,
    decreases e - i,
{
    if i < e {
        lemma_digit_end_is_from(s, i + 1, e);
    }
}

/// The numeric value of a run of ASCII digits, most significant first.
pub open spec fn digits_value(s: Seq<char>) -> int
    decreases s.len(),
{
    if s.len() == 0 {
        0
    } else {
        digits_value(s.drop_last()) * 10 + (s.last() as u32 - 48)
    }
}

pub proof fn lemma_digits_value_take_succ(s: Seq<char>, i: int)
    requires
        0 <= i < s.len(),
    ensures
        digits_value(s.take(i + 1)) == digits_value(s.take(i)) * 10 + (s[i] as u32 - 48),
{
    assert(s.take(i + 1).drop_last() =~= s.take(i));
    assert(s.take(i + 1).last() == s[i]);
}

pub proof fn lemma_digits_value_nonneg(s: Seq<char>)
    requires
        forall|j: int| 0 <= j < s.len() ==> is_digit_char(s[j]),
    ensures
        digits_value(s) >= 0,
    decreases s.len(),
{
    if s.len() > 0 {
        let t = s.drop_last();
        assert(forall|j: int| 0 <= j < t.len() ==> is_digit_char(#[trigger] t[j]));
        lemma_digits_value_nonneg(t);
        assert(is_digit_char(s[s.len() - 1]));
        assert(s.last() == s[s.len() - 1]);
    }
}

/// Extending a run of digits to the right never lowers its value.
pub proof fn lemma_digits_value_prefix_le(s: Seq<char>, i: int)
    requires
        forall|j: int| 0 <= j < s.len() ==> is_digit_char(s[j]),
        0 <= i <= s.len(),
    ensures
        digits_value(s.take(i)) <= digits_value(s),
    decreases s.len() - i,
{
    if i == s.len() {
        assert(s.take(i) =~= s);
    } else {
        lemma_digits_value_take_succ(s, i);
        let t = s.take(i);
        assert(forall|j: int| 0 <= j < t.len() ==> is_digit_char(#[trigger] t[j]));
        lemma_digits_value_nonneg(t);
        assert(is_digit_char(s[i]));
        assert(digits_value(s.take(i)) <= digits_value(s.take(i + 1)));
        lemma_digits_value_prefix_le(s, i + 1);
    }
}

/// Reads a run of ASCII digits as an unsigned 32-bit number; reports an
/// error exactly when the value is too large for 32 bits.
pub fn digits_to_u32(digits: &str) -> (r: Option<u32>)
    requires
        forall|j: int| 0 <= j < digits@.len() ==> is_digit_char(digits@[j]),
    ensures
        digits_value(digits@) <= u32::MAX ==> (r matches Some(v) && v as int == digits_value(
            digits@,
        )),
        digits_value(digits@) > u32::MAX ==> r is None,
{
    let ghost s = digits@;
    let n = digits.unicode_len();
    let mut acc: u64 = 0;
    let mut i: usize = 0;
    while i < n
        invariant
            0 <= i <= n,
            n == s.len(),
            s == digits@,
            forall|j: int| 0 <= j < s.len() ==> is_digit_char(s[j]),
            acc as int == digits_value(s.take(i as int)),
            acc <= u32::MAX,
        decreases n - i,
    {
        let c = digits.get_char(i);
        let d: u64 = (c as u32) as u64 - 48;
        proof {
            lemma_digits_value_take_succ(s, i as int);
        }
        acc = acc * 10 + d;
        i = i + 1;
        if acc > u32::MAX as u64 {
            proof {
                lemma_digits_value_prefix_le(s, i as int);
            }
            return None;
        }
    }
    assert(s.take(n as int) =~= s);
    Some(acc as u32)
}

/// The character for one decimal digit value.
pub open spec fn dec_digit_char(d: int) -> char {
    ((d + 48) as u8) as char
}

/// The decimal representation of a non-negative number, without leading
/// zeros (a single `0` for zero).
pub open spec fn dec_rep(n: int) -> Seq<char>
    decreases n,
{
    if n < 10 {
        seq![dec_digit_char(n)]
    } else {
        dec_rep(n / 10).push(dec_digit_char(n % 10))
    }
}

pub proof fn lemma_dec_rep_digits(n: int)
    requires
        n >= 0,
    ensures
        dec_rep(n).len() >= 1,
        forall|j: int| 0 <= j < dec_rep(n).len() ==> is_digit_char(#[trigger] dec_rep(n)[j]),
    decreases n,
{
    if n >= 10 {
        lemma_dec_rep_digits(n / 10);
    }
}

/// Reading the decimal representation back gives the number itself.
pub proof fn lemma_dec_rep_value(n: int)
    requires
        n >= 0,
    ensures
        digits_value(dec_rep(n)) == n,
    decreases n,
{
    if n < 10 {
        assert(dec_rep(n).drop_last() =~= Seq::<char>::empty());
        assert(dec_rep(n).last() == dec_digit_char(n));
        assert(dec_digit_char(n) as u32 == n + 48);
        assert(digits_value(Seq::<char>::empty()) == 0);
        assert(dec_rep(n).len() == 1);
        assert(digits_value(dec_rep(n)) == digits_value(dec_rep(n).drop_last()) * 10 + (dec_rep(
            n,
        ).last() as u32 - 48));
    } else {
        lemma_dec_rep_value(n / 10);
        assert(dec_rep(n).drop_last() =~= dec_rep(n / 10));
        assert(dec_rep(n).last() == dec_digit_char(n % 10));
        assert(dec_digit_char(n % 10) as u32 == n % 10 + 48);
    }
}

/// Writes a number in decimal, most significant digit first.
pub fn u32_dec(n: u32) -> (r: String)
    ensures
        r@ == dec_rep(n as int),
    decreases n,
{
    if n < 10 {
        let mut s = String::new();
        let c = (n as u8 + 48) as char;
        push_char(&mut s, c);
        assert(s@ =~= dec_rep(n as int));
        s
    } else {
        let mut s = u32_dec(n / 10);
        let c = ((n % 10) as u8 + 48) as char;
        push_char(&mut s, c);
        s
    }
}

pub fn digit_scan(input: &str) -> (e: usize)
    ensures
        e as int == digit_end(input@),
        0 <= digit_end(input@) <= input@.len(),
{
    let ghost s = input@;
    let n = input.unicode_len();
    let mut i: usize = 0;
    loop
        invariant
            0 <= i <= n,
            n == s.len(),
            s == input@,
            digit_end_from(s, i as int) == digit_end(s),
        decreases n - i,
    {
        if i >= n {
            return i;
        }
        if !is_digit(input.get_char(i)) {
            return i;
        }
        i = i + 1;
    }
}

} // verus!

