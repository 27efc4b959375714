use vstd::prelude::*;
use crate::types::Currency;
use crate::value::Value;

verus! {

// ---------------------------------------------------------------------------
// Regular expressions and text decoding

/// The text of the first match of the pattern in the text; `None` where there is none or
/// the pattern does not compile.
pub uninterp spec fn regex_find(pattern: Seq<char>, text: Seq<char>) -> Option<Seq<char>>;

/// The bytes of the text with every match of the pattern replaced, with `$name`
/// standing for the named group in the replacement; `None` where the pattern does not
/// compile.
pub uninterp spec fn regex_replace_all(pattern: Seq<char>, text: Seq<char>, replacement: Seq<char>) -> Option<Seq<u8>>;

/// The text the bytes decode to as UTF-8; `None` where they are not valid UTF-8.
pub open spec fn utf8_decode(bytes: Seq<u8>) -> Option<Seq<char>> {
    if vstd::utf8::valid_utf8(bytes) {
        Some(vstd::utf8::decode_utf8(bytes))
    } else {
        None
    }
}

/// The lowercase equivalent of the text, as Unicode defines it.
pub uninterp spec fn lowercase(text: Seq<char>) -> Seq<char>;

/// Converts a text to lowercase.
///
/// Trusted: calls `str::to_lowercase`, which maps every character to its Unicode lowercase
/// form. The result is named by [`lowercase`]: it depends on the text alone.
#[verifier::external_body]
pub(crate) fn to_lowercase(text: &str) -> (r: String)
    ensures
        r@ == lowercase(text@),
{
    text.to_lowercase()
}

/// Finds the first match of the pattern in the text.
///
/// Trusted: compiles the pattern with `regex::Regex::new` and calls `Regex::find`,
/// giving the matched text (`Match::as_str`). The result is named by [`regex_find`]: it
/// depends on the pattern and the text alone.
#[verifier::external_body]
fn find_first(pattern: &str, text: &str) -> (r: Option<String>)
    ensures
        match r {
            Some(s) => regex_find(pattern@, text@) == Some(s@),
            None => regex_find(pattern@, text@) is None,
        },
{
    match regex::Regex::new(pattern) {
        Ok(re) => re.find(text).map(|m| m.as_str().to_string()),
        Err(_) => None,
    }
}

/// Replaces all matches of the pattern in the text's bytes.
///
/// Trusted: compiles the pattern with `regex::bytes::Regex::new` and calls
/// `Regex::replace_all` on the text's bytes with the replacement's bytes. The result is
/// named by [`regex_replace_all`]: it depends on the pattern, the text and the
/// replacement alone.
#[verifier::external_body]
fn replace_all_bytes(pattern: &str, text: &str, replacement: &str) -> (r: Option<Vec<u8>>)
    ensures
        match r {
            Some(b) => regex_replace_all(pattern@, text@, replacement@) == Some(b@),
            None => regex_replace_all(pattern@, text@, replacement@) is None,
        },
{
    match regex::bytes::Regex::new(pattern) {
        Ok(re) => Some(re.replace_all(text.as_bytes(), replacement.as_bytes()).into_owned()),
        Err(_) => None,
    }
}

/// Decodes bytes as UTF-8 text.
///
/// Trusted: calls `std::str::from_utf8`, which accepts exactly the valid UTF-8 byte
/// sequences; the text is their UTF-8 decoding (see [`utf8_decode`]).
#[verifier::external_body]
fn decode_utf8(bytes: &Vec<u8>) -> (r: Option<String>)
    ensures
        match r {
            Some(s) => utf8_decode(bytes@) == Some(s@),
            None => utf8_decode(bytes@) is None,
        },
{
    match std::str::from_utf8(bytes) {
        Ok(s) => Some(s.to_string()),
        Err(_) => None,
    }
}

// ---------------------------------------------------------------------------
// Plain text

/// Whether the needle occurs in the text.
pub open spec fn contains_text(text: Seq<char>, needle: Seq<char>) -> bool {
    exists|i: int| 0 <= i && i + needle.len() <= text.len() && #[trigger] text.subrange(i, i + needle.len()) == needle
}

/// Whether the needle occurs in the text.
pub fn text_contains(text: &str, needle: &str) -> (r: bool)
    ensures
        r == contains_text(text@, needle@),
{
    let n = text.unicode_len();
    let m = needle.unicode_len();
    if m > n {
        proof {
            assert forall|i: int| 0 <= i && i + needle@.len() <= text@.len() implies
                #[trigger] text@.subrange(i, i + needle@.len()) != needle@ by {}
        }
        return false;
    }
    let mut i: usize = 0;
    while i <= n - m
        invariant
            m <= n,
            n == text@.len(),
            m == needle@.len(),
            i <= n - m + 1,
            forall|k: int| 0 <= k < i ==> #[trigger] text@.subrange(k, k + m) != needle@,
        decreases n - m + 1 - i,
    {
        let mut j: usize = 0;
        let mut same = true;
        while j < m && same
            invariant
                j <= m,
                i + m <= n,
                n == text@.len(),
                m == needle@.len(),
                same ==> forall|k: int| 0 <= k < j ==> text@[i + k] == needle@[k],
                !same ==> exists|k: int| 0 <= k < m && text@[i + k] != needle@[k],
            decreases m - j + (if same { 1int } else { 0int }),
        {
            if text.get_char(i + j) != needle.get_char(j) {
                same = false;
            } else {
                j = j + 1;
            }
        }
        if same {
            assert(text@.subrange(i as int, i + m) =~= needle@);
            return true;
        }
        proof {
            let k = choose|k: int| 0 <= k < m && text@[i + k] != needle@[k];
            assert(text@.subrange(i as int, i + m)[k] != needle@[k]);
        }
        i = i + 1;
    }
    proof {
        assert forall|k: int| 0 <= k && k + needle@.len() <= text@.len() implies
            #[trigger] text@.subrange(k, k + needle@.len()) != needle@ by {
            assert(k < i);
        }
    }
    false
}

/// The text with all trailing occurrences of the character removed.
pub open spec fn trim_end(s: Seq<char>, c: char) -> Seq<char>
    decreases s.len(),
{
    if s.len() > 0 && s.last() == c {
        trim_end(s.drop_last(), c)
    } else {
        s
    }
}

/// Removes all trailing occurrences of the character.
pub fn trim_end_char(s: &str, c: char) -> (r: String)
    ensures
        r@ == trim_end(s@, c),
{
    let mut j = s.unicode_len();
    assert(s@.subrange(0, j as int) =~= s@);
    while j > 0 && s.get_char(j - 1) == c
        invariant
            j <= s@.len(),
            trim_end(s@, c) == trim_end(s@.subrange(0, j as int), c),
        decreases j,
    {
        assert(s@.subrange(0, j as int).drop_last() =~= s@.subrange(0, j - 1));
        j = j - 1;
    }
    let t = s.substring_char(0, j);
    String::from_str(t)
}

/// Whether the character is an ASCII digit.
pub open spec fn is_digit(c: char) -> bool {
    48 <= (c as u32) && (c as u32) <= 57
}

/// The value of a string of ASCII digits.
pub open spec fn digits_value(s: Seq<char>) -> int
    decreases s.len(),
{
    if s.len() == 0 {
        0
    } else {
        digits_value(s.drop_last()) * 10 + ((s.last() as u32) - 48)
    }
}

/// Whether all characters are ASCII digits.
pub open spec fn all_digits(s: Seq<char>) -> bool {
    forall|i: int| 0 <= i < s.len() ==> is_digit(#[trigger] s[i])
}

/// The digits of a number's text: the text without its sign.
pub open spec fn unsigned_part(s: Seq<char>) -> Seq<char> {
    if s.len() > 0 && (s[0] == '-' || s[0] == '+') { s.drop_first() } else { s }
}

/// The number a text denotes as `i32::from_str` reads it: an optional sign and one or
/// more ASCII digits, with a value within the range of `i32`.
pub open spec fn parse_i32_spec(s: Seq<char>) -> Option<i32> {
    let ds = unsigned_part(s);
    let v = if s.len() > 0 && s[0] == '-' { -digits_value(ds) } else { digits_value(ds) };
    if ds.len() == 0 || !all_digits(ds) {
        None
    } else if i32::MIN <= v <= i32::MAX {
        Some(v as i32)
    } else {
        None
    }
}

proof fn lemma_digits_nonneg(s: Seq<char>)
    requires
        forall|i: int| 0 <= i < s.len() ==> is_digit(#[trigger] s[i]),
    ensures
        digits_value(s) >= 0,
    decreases s.len(),
{
    if s.len() > 0 {
        lemma_digits_nonneg(s.drop_last());
    }
}

/// Reads a decimal `i32` as `i32::from_str` does.
pub fn parse_i32(s: &str) -> (r: Option<i32>)
    ensures
        r == parse_i32_spec(s@),
{
    let n = s.unicode_len();
    if n == 0 {
        return None;
    }
    let first = s.get_char(0);
    let signed = first == '-' || first == '+';
    let neg = first == '-';
    let start: usize = if signed { 1 } else { 0 };
    let ghost ds = if signed { s@.drop_first() } else { s@ };
    assert(ds =~= s@.subrange(start as int, n as int));
    if start >= n {
        return None;
    }
    let limit: i64 = 0x8000_0000;
    let mut acc: i64 = 0;
    let mut over = false;
    let mut i: usize = start;
    assert(s@.subrange(start as int, start as int) =~= Seq::<char>::empty());
    while i < n
        invariant
            start <= i <= n,
            n == s@.len(),
            limit == 0x8000_0000,
            start < n,
            signed == (s@.len() > 0 && (s@[0] == '-' || s@[0] == '+')),
            neg == (s@[0] == '-'),
            start == (if signed { 1usize } else { 0usize }),
            ds == (if signed { s@.drop_first() } else { s@ }),
            ds == s@.subrange(start as int, n as int),
            forall|k: int| 0 <= k < i - start ==> is_digit(#[trigger] s@.subrange(start as int, i as int)[k]),
            !over ==> acc == digits_value(s@.subrange(start as int, i as int)) && 0 <= acc <= limit,
            over ==> digits_value(s@.subrange(start as int, i as int)) > limit,
        decreases n - i,
    {
        let c = s.get_char(i);
        let code = c as u32;
        let ghost prefix = s@.subrange(start as int, i as int);
        let ghost next = s@.subrange(start as int, i + 1);
        assert(next.drop_last() =~= prefix);
        assert(next.last() == c);
        if code < 48 || code > 57 {
            proof {
                assert(ds[i - start] == c);
                assert(!is_digit(ds[i - start]));
                assert(!all_digits(ds));
            }
            return None;
        }
        let d: i64 = (code - 48) as i64;
        proof {
            lemma_digits_nonneg(prefix);
            assert forall|k: int| 0 <= k < i + 1 - start implies is_digit(#[trigger] next[k]) by {
                if k < i - start {
                    assert(next[k] == prefix[k]);
                }
            }
        }
        if !over {
            let v = acc * 10 + d;
            if v > limit {
                over = true;
            } else {
                acc = v;
            }
        }
        i = i + 1;
    }
    assert(s@.subrange(start as int, n as int) =~= ds);
    if over {
        return None;
    }
    if neg {
        Some((0 - acc) as i32)
    } else if acc < limit {
        Some(acc as i32)
    } else {
        None
    }
}

// ---------------------------------------------------------------------------
// Currency

/// The amount a match of a currency unit gives: its digits, the unit's letters trimmed.
pub open spec fn match_amount(m: Option<Seq<char>>, unit: char) -> Option<i32> {
    match m {
        Some(t) => parse_i32_spec(trim_end(t, unit)),
        None => None,
    }
}

/// Whether every currency amount found in the text reads as an `i32`.
pub open spec fn amounts_read(text: Seq<char>) -> bool {
    &&& (regex_find(r"(\d+)g"@, text) is Some ==> match_amount(regex_find(r"(\d+)g"@, text), 'g') is Some)
    &&& (regex_find(r"(\d+)s"@, text) is Some ==> match_amount(regex_find(r"(\d+)s"@, text), 's') is Some)
}

/// The currency a text gives: the first amount followed by 'g' as gold and the first
/// followed by 's' as silver, a missing one counting zero; none where neither is there.
pub open spec fn text_currency(text: Seq<char>) -> Option<Currency> {
    let g = regex_find(r"(\d+)g"@, text);
    let s = regex_find(r"(\d+)s"@, text);
    if g is Some || s is Some {
        Some(Currency {
            gold: match match_amount(g, 'g') { Some(v) => v, None => 0 },
            silver: match match_amount(s, 's') { Some(v) => v, None => 0 },
        })
    } else {
        None
    }
}

/// Reads the amount of a currency unit from its match.
fn read_amount(m: &Option<String>, unit: char) -> (r: Option<i32>)
    ensures
        r == match_amount(match *m { Some(t) => Some(t@), None => None }, unit),
{
    match m {
        Some(t) => {
            let digits = trim_end_char(t.as_str(), unit);
            parse_i32(digits.as_str())
        },
        None => None,
    }
}

impl Value {
    /// Converts a string value such as "10g 5s" into a currency: the first number
    /// followed by 'g' is the gold, the first followed by 's' the silver.
    pub fn to_currency(&self) -> (r: Option<Currency>)
        requires
            self matches Value::String(s) ==> amounts_read(s@),
        ensures
            r == match *self {
                Value::String(s) => text_currency(s@),
                _ => None,
            },
    {
        match self {
            Value::String(s) => {
                let g = find_first(r"(\d+)g", s.as_str());
                let sv = find_first(r"(\d+)s", s.as_str());
                if g.is_some() || sv.is_some() {
                    let gold = match read_amount(&g, 'g') {
                        Some(v) => v,
                        None => 0,
                    };
                    let silver = match read_amount(&sv, 's') {
                        Some(v) => v,
                        None => 0,
                    };
                    Some(Currency::new(gold, silver))
                } else {
                    None
                }
            },
            _ => None,
        }
    }

    /// Converts the value into a currency where every amount it holds reads as an
    /// `i32`; `None` where one does not, and `Some` of [`Value::to_currency`] else.
    pub fn checked_currency(&self) -> (r: Option<Option<Currency>>)
        ensures
            match *self {
                Value::String(s) => if amounts_read(s@) { r == Some(text_currency(s@)) } else { r is None },
                _ => r == Some(None::<Currency>),
            },
    {
        match self {
            Value::String(s) => {
                let g = find_first(r"(\d+)g", s.as_str());
                let sv = find_first(r"(\d+)s", s.as_str());
                let g_ok = g.is_none() || read_amount(&g, 'g').is_some();
                let s_ok = sv.is_none() || read_amount(&sv, 's').is_some();
                if g_ok && s_ok {
                    Some(self.to_currency())
                } else {
                    None
                }
            },
            _ => Some(None),
        }
    }
}

// ---------------------------------------------------------------------------
// Script text

/// A script with each "${Target}.name" written as target["name"]; the script as it is
/// where it holds no "${Target}" or the rewritten bytes are not UTF-8.
pub open spec fn target_variables_replaced(input: Seq<char>) -> Seq<char> {
    if contains_text(input, "${Target}"@) {
        match regex_replace_all(r"\$\{Target\}.(?P<v>\w*)"@, input, "target[\"$v\"]"@) {
            Some(b) => match utf8_decode(b) {
                Some(t) => t,
                None => input,
            },
            None => input,
        }
    } else {
        input
    }
}

/// Replaces the target variables of a script, once before it is compiled.
pub fn replace_target_variables(input: String) -> (r: String)
    ensures
        r@ == target_variables_replaced(input@),
{
    let output = input.clone();
    if text_contains(input.as_str(), "${Target}") {
        match replace_all_bytes(r"\$\{Target\}.(?P<v>\w*)", input.as_str(), "target[\"$v\"]") {
            Some(bytes) => match decode_utf8(&bytes) {
                Some(t) => return t,
                None => {},
            },
            None => {},
        }
    }
    output
}

} // verus!
