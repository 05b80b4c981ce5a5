//! Character and string utilities shared by the configuration codec, the
//! ports-descriptor reader and the control-channel framing: character
//! classes, literal matching, scanning, and decimal parsing.

use vstd::prelude::*;

verus! {

/// Whitespace that may separate tokens within a single descriptor line.
pub open spec fn is_space(c: char) -> bool {
    c == ' ' || c == '\t' || c == '\r'
}

/// Decimal digit.
pub open spec fn is_dec_digit(c: char) -> bool {
    48 <= c as u32 <= 57
}

/// Lowercase hexadecimal digit.
pub open spec fn is_hex_digit(c: char) -> bool {
    is_dec_digit(c) || 97 <= c as u32 <= 102
}

/// Characters admitted in a pier name: printable ASCII that is safe both in
/// a JSON string (no quote, no backslash) and in a path (no slash, no space).
pub open spec fn valid_name_char(c: char) -> bool {
    33 <= c as u32 <= 126 && c != '"' && c != '\\' && c != '/'
}

/// A pier name: non-empty and made of safe characters only.
pub open spec fn valid_name(s: Seq<char>) -> bool {
    0 < s.len() && forall|i: int| 0 <= i < s.len() ==> valid_name_char(#[trigger] s[i])
}

/// The hyphenated textual form of an identifier: 36 characters, lowercase
/// hexadecimal except for hyphens at positions 8, 13, 18 and 23.
pub open spec fn is_uuid_str(s: Seq<char>) -> bool {
    s.len() == 36 && forall|i: int|
        0 <= i < 36 ==> (if i == 8 || i == 13 || i == 18 || i == 23 {
            #[trigger] s[i] == '-'
        } else {
            is_hex_digit(s[i])
        })
}

/// The literal `lit` occurs in `s` starting at position `i`.
pub open spec fn match_at(s: Seq<char>, i: int, lit: Seq<char>) -> bool {
    0 <= i && i + lit.len() <= s.len() && s.subrange(i, i + lit.len()) == lit
}

/// `s` ends with the suffix `suf`.
pub open spec fn ends_with(s: Seq<char>, suf: Seq<char>) -> bool {
    s.len() >= suf.len() && s.subrange(s.len() - suf.len(), s.len() as int) == suf
}

/// The character classes that the scanner can search for.
#[derive(Clone, Copy, Debug, PartialEq, Eq, Structural)]
pub enum CharClass {
    Quote,
    Newline,
    Space,
    NonSpace,
    Dot,
}

/// Membership of a character in a scanner class.
pub open spec fn in_class(c: char, k: CharClass) -> bool {
    match k {
        CharClass::Quote => c == '"',
        CharClass::Newline => c == '\n',
        CharClass::Space => is_space(c),
        CharClass::NonSpace => !is_space(c),
        CharClass::Dot => c == '.',
    }
}

/// Index of the first character at or after `i` that lies in class `k`,
/// or `s.len()` if there is none.
pub open spec fn scan(s: Seq<char>, i: int, k: CharClass) -> int
    decreases s.len() - i when 0 <= i <= s.len()
{
    if i >= s.len() {
        s.len() as int
    } else if in_class(s[i], k) {
        i
    } else {
        scan(s, i + 1, k)
    }
}

/// The scanner's result lies between `i` and `s.len()`, hits its class when
/// it is not `s.len()`, and skips no member of the class.
pub proof fn lemma_scan_props(s: Seq<char>, i: int, k: CharClass)
    requires
        0 <= i <= s.len(),
    ensures
        i <= scan(s, i, k) <= s.len(),
        scan(s, i, k) < s.len() ==> in_class(s[scan(s, i, k)], k),
        forall|m: int| i <= m < scan(s, i, k) ==> !in_class(#[trigger] s[m], k),
    decreases s.len() - i,
{
    if i < s.len() && !in_class(s[i], k) {
        lemma_scan_props(s, i + 1, k);
    }
}

/// Scanning may start anywhere within a class-free prefix without changing
/// the result.
pub proof fn lemma_scan_skip(s: Seq<char>, i: int, j: int, k: CharClass)
    requires
        0 <= i <= j <= s.len(),
        forall|m: int| i <= m < j ==> !in_class(#[trigger] s[m], k),
    ensures
        scan(s, i, k) == scan(s, j, k),
    decreases j - i,
{
    if i < j {
        lemma_scan_skip(s, i + 1, j, k);
    }
}

/// First index at or after `i` whose character lies in class `k`, or the
/// length of `s` if there is none.
pub fn scan_to(s: &str, i: usize, k: CharClass) -> (r: usize)
    requires
        i <= s@.len(),
    ensures
        r as int == scan(s@, i as int, k),
{
    let n = s.unicode_len();
    let mut j = i;
    while j < n
        invariant
            i <= j <= n,
            n == s@.len(),
            scan(s@, i as int, k) == scan(s@, j as int, k),
        decreases n - j,
    {
        let c = s.get_char(j);
        let hit = match k {
            CharClass::Quote => c == '"',
            CharClass::Newline => c == '\n',
            CharClass::Space => c == ' ' || c == '\t' || c == '\r',
            CharClass::NonSpace => !(c == ' ' || c == '\t' || c == '\r'),
            CharClass::Dot => c == '.',
        };
        if hit {
            return j;
        }
        j = j + 1;
    }
    j
}

/// Whether the literal `lit` occurs in `s` starting at position `i`.
pub fn match_lit(s: &str, i: usize, lit: &str) -> (r: bool)
    ensures
        r == match_at(s@, i as int, lit@),
{
    let n = s.unicode_len();
    let ll = lit.unicode_len();
    if i > n || ll > n - i {
        return false;
    }
    let mut j: usize = 0;
    while j < ll
        invariant
            0 <= j <= ll,
            i + ll <= n,
            n == s@.len(),
            ll == lit@.len(),
            forall|m: int| 0 <= m < j ==> s@[i + m] == lit@[m],
        decreases ll - j,
    {
        if s.get_char(i + j) != lit.get_char(j) {
            assert(s@.subrange(i as int, i + ll) != lit@) by {
                assert(s@.subrange(i as int, i + ll)[j as int] != lit@[j as int]);
            }
            return false;
        }
        j = j + 1;
    }
    assert(s@.subrange(i as int, i + ll) =~= lit@);
    true
}

/// Whether `s` is a well-formed pier name.
pub fn check_name(s: &str) -> (r: bool)
    ensures
        r == valid_name(s@),
{
    let n = s.unicode_len();
    if n == 0 {
        return false;
    }
    let mut j: usize = 0;
    while j < n
        invariant
            0 <= j <= n,
            n == s@.len(),
            forall|m: int| 0 <= m < j ==> valid_name_char(#[trigger] s@[m]),
        decreases n - j,
    {
        let c = s.get_char(j);
        let u = c as u32;
        if !(33 <= u && u <= 126) || c == '"' || c == '\\' || c == '/' {
            return false;
        }
        j = j + 1;
    }
    true
}

/// Whether `s` is the hyphenated textual form of an identifier.
pub fn is_uuid_string(s: &str) -> (r: bool)
    ensures
        r == is_uuid_str(s@),
{
    let n = s.unicode_len();
    if n != 36 {
        return false;
    }
    let mut j: usize = 0;
    while j < 36
        invariant
            0 <= j <= 36,
            n == s@.len(),
            n == 36,
            forall|m: int|
                0 <= m < j ==> (if m == 8 || m == 13 || m == 18 || m == 23 {
                    #[trigger] s@[m] == '-'
                } else {
                    is_hex_digit(s@[m])
                }),
        decreases 36 - j,
    {
        let c = s.get_char(j);
        let u = c as u32;
        if j == 8 || j == 13 || j == 18 || j == 23 {
            if c != '-' {
                return false;
            }
        } else {
            if !(48 <= u && u <= 57) && !(97 <= u && u <= 102) {
                return false;
            }
        }
        j = j + 1;
    }
    true
}

/// Numeric value of a sequence of decimal digits, most significant first.
pub open spec fn dec_val(s: Seq<char>) -> int
    decreases s.len(),
{
    if s.len() == 0 {
        0
    } else {
        dec_val(s.drop_last()) * 10 + (s.last() as u32 - 48)
    }
}

/// All characters are decimal digits.
pub open spec fn all_dec_digits(s: Seq<char>) -> bool {
    forall|i: int| 0 <= i < s.len() ==> is_dec_digit(#[trigger] s[i])
}

/// The value of a digit string is never negative.
pub proof fn lemma_dec_val_nonneg(s: Seq<char>)
    requires
        all_dec_digits(s),
    ensures
        0 <= dec_val(s),
    decreases s.len(),
{
    if s.len() > 0 {
        lemma_dec_val_nonneg(s.drop_last());
    }
}

/// Extending a digit string never decreases its value.
pub proof fn lemma_dec_val_monotone(s: Seq<char>, m: int)
    requires
        all_dec_digits(s),
        0 <= m <= s.len(),
    ensures
        dec_val(s.subrange(0, m)) <= dec_val(s),
    decreases s.len() - m,
{
    if m < s.len() {
        lemma_dec_val_monotone(s, m + 1);
        let p = s.subrange(0, m + 1);
        assert(p.drop_last() =~= s.subrange(0, m));
        lemma_dec_val_nonneg(s.subrange(0, m));
    } else {
        assert(s.subrange(0, m) =~= s);
    }
}

/// The port number spelled by `s@[from..to]`, if that range is a non-empty
/// run of decimal digits whose value fits in a `u16`.
pub open spec fn parsed_u16(s: Seq<char>, from: int, to: int) -> Option<u16> {
    let digits = s.subrange(from, to);
    if from < to && all_dec_digits(digits) && dec_val(digits) < 65536 {
        Some(dec_val(digits) as u16)
    } else {
        None
    }
}

/// Parse the decimal number spelled by `s[from..to]`.
pub fn parse_u16(s: &str, from: usize, to: usize) -> (r: Option<u16>)
    requires
        from <= to <= s@.len(),
    ensures
        r == parsed_u16(s@, from as int, to as int),
{
    let ghost digits = s@.subrange(from as int, to as int);
    if from == to {
        return None;
    }
    let mut acc: u32 = 0;
    let mut j = from;
    while j < to
        invariant
            from <= j <= to <= s@.len(),
            digits == s@.subrange(from as int, to as int),
            all_dec_digits(digits.subrange(0, j - from)),
            acc == dec_val(digits.subrange(0, j - from)),
            acc <= 65535,
        decreases to - j,
    {
        let c = s.get_char(j);
        let u = c as u32;
        if !(48 <= u && u <= 57) {
            assert(!is_dec_digit(digits[j - from]));
            return None;
        }
        proof {
            let pre = digits.subrange(0, j - from);
            let ext = digits.subrange(0, j - from + 1);
            assert(ext.drop_last() =~= pre);
            assert(ext.last() == digits[j - from]);
        }
        acc = acc * 10 + (u - 48);
        j = j + 1;
        if acc > 65535 {
            proof {
                if all_dec_digits(digits) {
                    lemma_dec_val_monotone(digits, j - from);
                }
            }
            return None;
        }
    }
    proof {
        assert(digits.subrange(0, to - from) =~= digits);
    }
    Some(acc as u16)
}

/// Whether `s` and `lit` spell the same characters.
pub fn str_eq(s: &str, lit: &str) -> (r: bool)
    ensures
        r == (s@ == lit@),
{
    let n = s.unicode_len();
    if n != lit.unicode_len() {
        return false;
    }
    let r = match_lit(s, 0, lit);
    proof {
        if r {
            assert(s@.subrange(0, s@.len() as int) =~= s@);
        } else {
            assert(s@.subrange(0, s@.len() as int) =~= s@);
        }
    }
    r
}

/// Relies on `String::push`: appends exactly the given character.
#[verifier::external_body]
pub fn push_char(s: &mut String, c: char)
    ensures
        final(s)@ == old(s)@.push(c),
{
    s.push(c);
}

} // verus!
