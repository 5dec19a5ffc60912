//! Recognising HTTP and HTTPS links in command-line arguments and shared text.
//!
//! All positions below are character positions: a string is modelled by the
//! sequence of its `char`s.

use vstd::prelude::*;

use crate::chars::{ascii_lower, chars_of, is_unicode_whitespace, is_whitespace, to_ascii_lower};

verus! {

broadcast use vstd::string::group_string_axioms;

// ---------------------------------------------------------------------------
// Model
// ---------------------------------------------------------------------------

/// The characters removed from both ends of a value before it is looked at:
/// Unicode white space and the byte-order mark U+FEFF.
pub open spec fn is_trim_char(c: char) -> bool {
    is_unicode_whitespace(c) || c == '\u{feff}'
}

/// `s` without its leading trim characters.
pub open spec fn trim_start(s: Seq<char>) -> Seq<char>
    decreases s.len(),
{
    if s.len() > 0 && is_trim_char(s[0]) {
        trim_start(s.drop_first())
    } else {
        s
    }
}

/// `s` without its trailing trim characters.
pub open spec fn trim_end(s: Seq<char>) -> Seq<char>
    decreases s.len(),
{
    if s.len() > 0 && is_trim_char(s.last()) {
        trim_end(s.drop_last())
    } else {
        s
    }
}

/// `s` without the trim characters at either end.
pub open spec fn trim(s: Seq<char>) -> Seq<char> {
    trim_end(trim_start(s))
}

/// `"https://"`.
pub open spec fn https_scheme() -> Seq<char> {
    seq!['h', 't', 't', 'p', 's', ':', '/', '/']
}

/// `"http://"`.
pub open spec fn http_scheme() -> Seq<char> {
    seq!['h', 't', 't', 'p', ':', '/', '/']
}

/// `s` begins with `prefix`, ASCII letters compared without regard to case.
pub open spec fn starts_with_ignore_ascii_case(s: Seq<char>, prefix: Seq<char>) -> bool {
    &&& prefix.len() <= s.len()
    &&& forall|i: int| 0 <= i < prefix.len() ==> ascii_lower(#[trigger] s[i]) == ascii_lower(prefix[i])
}

/// `s` begins with `https://` or `http://`, in any ASCII case.
pub open spec fn is_http_prefixed(s: Seq<char>) -> bool {
    starts_with_ignore_ascii_case(s, https_scheme()) || starts_with_ignore_ascii_case(s, http_scheme())
}

/// Some character of `s` is white space.
pub open spec fn has_whitespace(s: Seq<char>) -> bool {
    exists|i: int| 0 <= i < s.len() && is_unicode_whitespace(#[trigger] s[i])
}

/// `s` is a single HTTP or HTTPS URL: it has the scheme prefix and no white space.
pub open spec fn is_single_http_url(s: Seq<char>) -> bool {
    is_http_prefixed(s) && !has_whitespace(s)
}

/// The rest of `s` from the first position at which an HTTP or HTTPS scheme
/// begins, if there is one.
pub open spec fn http_suffix(s: Seq<char>) -> Option<Seq<char>>
    decreases s.len(),
{
    if s.len() == 0 {
        None
    } else if is_http_prefixed(s) {
        Some(s)
    } else {
        http_suffix(s.drop_first())
    }
}

/// The characters that end a URL inside shared text: white space, quotes,
/// angle brackets and the byte-order mark.
pub open spec fn is_url_stop(c: char) -> bool {
    ||| is_unicode_whitespace(c)
    ||| c == '"'
    ||| c == '\''
    ||| c == '<'
    ||| c == '>'
    ||| c == '\u{feff}'
}

/// The longest prefix of `s` without a stop character.
pub open spec fn take_until_stop(s: Seq<char>) -> Seq<char>
    decreases s.len(),
{
    if s.len() == 0 || is_url_stop(s[0]) {
        Seq::empty()
    } else {
        seq![s[0]] + take_until_stop(s.drop_first())
    }
}

/// Punctuation that text places after a link and that is not part of it.
pub open spec fn is_trailing_punctuation(c: char) -> bool {
    ||| c == '.'
    ||| c == ','
    ||| c == ';'
    ||| c == '!'
    ||| c == ')'
    ||| c == ']'
    ||| c == '}'
}

/// `s` without its trailing punctuation.
pub open spec fn trim_trailing_punctuation(s: Seq<char>) -> Seq<char>
    decreases s.len(),
{
    if s.len() > 0 && is_trailing_punctuation(s.last()) {
        trim_trailing_punctuation(s.drop_last())
    } else {
        s
    }
}

/// The URL that shared text `value` holds: the whole trimmed value when it is
/// one URL; otherwise the first run that starts with a scheme, cut at the
/// first stop character and without trailing punctuation.
pub open spec fn extracted_url(value: Seq<char>) -> Option<Seq<char>> {
    let v = trim(value);
    if is_single_http_url(v) {
        Some(v)
    } else {
        match http_suffix(v) {
            None => None,
            Some(rest) => {
                let candidate = trim_trailing_punctuation(take_until_stop(rest));
                if candidate.len() == 0 {
                    None
                } else {
                    Some(candidate)
                }
            },
        }
    }
}

// ---------------------------------------------------------------------------
// Errors
// ---------------------------------------------------------------------------

/// Why a command-line value was refused as a URL.
#[derive(Debug, Clone, Copy, PartialEq, Eq, Structural)]
pub enum UrlError {
    /// The trimmed value is not one HTTP or HTTPS URL.
    NotHttpUrl,
}

impl UrlError {
    /// The message that reports this error.
    pub fn message(&self) -> (r: &'static str)
        ensures
            r@ == "expected one HTTP or HTTPS URL"@,
    {
        match self {
            UrlError::NotHttpUrl => "expected one HTTP or HTTPS URL",
        }
    }
}

// ---------------------------------------------------------------------------
// Implementation
// ---------------------------------------------------------------------------

/// Whether `chars[start..end]` begins with `scheme` (given in lower case),
/// ASCII letters compared without regard to case.
pub(crate) fn starts_with_scheme_in(chars: &Vec<char>, start: usize, end: usize, scheme: &Vec<char>) -> (r:
    bool)
    requires
        start <= end <= chars.len(),
        forall|i: int| 0 <= i < scheme.len() ==> ascii_lower(#[trigger] scheme@[i]) == scheme@[i],
    ensures
        r == starts_with_ignore_ascii_case(chars@.subrange(start as int, end as int), scheme@),
{
    let ghost s = chars@.subrange(start as int, end as int);
    let n = scheme.len();
    if end - start < n {
        return false;
    }
    let mut i: usize = 0;
    while i < n
        invariant
            n == scheme.len(),
            start + n <= end <= chars.len(),
            s == chars@.subrange(start as int, end as int),
            i <= n,
            forall|k: int| 0 <= k < scheme.len() ==> ascii_lower(#[trigger] scheme@[k]) == scheme@[k],
            forall|k: int| 0 <= k < i ==> ascii_lower(#[trigger] s[k]) == ascii_lower(scheme@[k]),
        decreases n - i,
    {
        let c = chars[start + i];
        assert(s[i as int] == c);
        if to_ascii_lower(c) != scheme[i] {
            return false;
        }
        i = i + 1;
    }
    true
}

/// Whether `chars[start..end]` begins with an HTTP or HTTPS scheme.
fn starts_with_http_in(chars: &Vec<char>, start: usize, end: usize) -> (r: bool)
    requires
        start <= end <= chars.len(),
    ensures
        r == is_http_prefixed(chars@.subrange(start as int, end as int)),
{
    let https = vec!['h', 't', 't', 'p', 's', ':', '/', '/'];
    let http = vec!['h', 't', 't', 'p', ':', '/', '/'];
    assert(https@ == https_scheme());
    assert(http@ == http_scheme());
    starts_with_scheme_in(chars, start, end, &https) || starts_with_scheme_in(
        chars,
        start,
        end,
        &http,
    )
}

/// Returns whether a value starts with an HTTP or HTTPS scheme, in any ASCII case.
pub fn starts_with_http(value: &str) -> (r: bool)
    ensures
        r == is_http_prefixed(value@),
{
    let chars = chars_of(value);
    assert(chars@.subrange(0, chars@.len() as int) == chars@);
    starts_with_http_in(&chars, 0, chars.len())
}

proof fn lemma_trim_start_step(s: Seq<char>, i: int)
    requires
        0 <= i < s.len(),
        is_trim_char(s[i]),
    ensures
        trim_start(s.skip(i)) == trim_start(s.skip(i + 1)),
{
    assert(s.skip(i).drop_first() == s.skip(i + 1));
}

proof fn lemma_trim_end_step(s: Seq<char>, i: int, j: int)
    requires
        0 <= i < j <= s.len(),
        is_trim_char(s[j - 1]),
    ensures
        trim_end(s.subrange(i, j)) == trim_end(s.subrange(i, j - 1)),
{
    assert(s.subrange(i, j).drop_last() == s.subrange(i, j - 1));
}

/// The character positions `(a, b)` such that `chars[a..b]` is the trimmed value.
fn trim_bounds(chars: &Vec<char>) -> (r: (usize, usize))
    ensures
        r.0 <= r.1 <= chars.len(),
        chars@.subrange(r.0 as int, r.1 as int) == trim(chars@),
{
    let n = chars.len();
    let mut a: usize = 0;
    assert(chars@.skip(0) == chars@);
    while a < n && is_whitespace_or_bom(chars[a])
        invariant
            n == chars.len(),
            a <= n,
            trim_start(chars@) == trim_start(chars@.skip(a as int)),
        decreases n - a,
    {
        proof {
            lemma_trim_start_step(chars@, a as int);
        }
        a = a + 1;
    }
    assert(trim_start(chars@) == chars@.subrange(a as int, n as int)) by {
        assert(chars@.skip(a as int) == chars@.subrange(a as int, n as int));
    }
    let mut b: usize = n;
    while b > a && is_whitespace_or_bom(chars[b - 1])
        invariant
            n == chars.len(),
            a <= b <= n,
            trim(chars@) == trim_end(chars@.subrange(a as int, b as int)),
        decreases b - a,
    {
        proof {
            lemma_trim_end_step(chars@, a as int, b as int);
        }
        b = b - 1;
    }
    (a, b)
}

/// Whether `c` is removed from the ends of a value: white space or U+FEFF.
fn is_whitespace_or_bom(c: char) -> (r: bool)
    ensures
        r == is_trim_char(c),
{
    is_whitespace(c) || c == '\u{feff}'
}

/// Whether some character of `chars[a..b]` is white space.
fn has_whitespace_in(chars: &Vec<char>, a: usize, b: usize) -> (r: bool)
    requires
        a <= b <= chars.len(),
    ensures
        r == has_whitespace(chars@.subrange(a as int, b as int)),
{
    let ghost s = chars@.subrange(a as int, b as int);
    let mut i: usize = a;
    while i < b
        invariant
            a <= i <= b <= chars.len(),
            s == chars@.subrange(a as int, b as int),
            forall|k: int| 0 <= k < i - a ==> !is_unicode_whitespace(#[trigger] s[k]),
        decreases b - i,
    {
        if is_whitespace(chars[i]) {
            assert(is_unicode_whitespace(s[i - a]));
            return true;
        }
        i = i + 1;
    }
    false
}

/// An owned copy of the characters `a..b` of `value`.
fn substring(value: &str, a: usize, b: usize) -> (r: String)
    requires
        a <= b <= value@.len(),
    ensures
        r@ == value@.subrange(a as int, b as int),
{
    String::from_str(value.substring_char(a, b))
}

/// Validates a command-line URL without interpreting it as shell syntax.
///
/// The value is trimmed of white space and U+FEFF at both ends; it is accepted
/// exactly when what remains starts with an HTTP or HTTPS scheme and holds no
/// white space, and then that trimmed value is returned.
pub fn require_http_url(value: &str) -> (r: Result<String, UrlError>)
    ensures
        r is Ok <==> is_single_http_url(trim(value@)),
        r matches Ok(url) ==> url@ == trim(value@),
        r matches Err(e) ==> e == UrlError::NotHttpUrl,
{
    let chars = chars_of(value);
    let (a, b) = trim_bounds(&chars);
    let prefixed = starts_with_http_in(&chars, a, b);
    if !prefixed || has_whitespace_in(&chars, a, b) {
        return Err(UrlError::NotHttpUrl);
    }
    Ok(substring(value, a, b))
}

/// Whether `c` ends a URL inside shared text.
fn is_url_stop_char(c: char) -> (r: bool)
    ensures
        r == is_url_stop(c),
{
    is_whitespace(c) || c == '"' || c == '\'' || c == '<' || c == '>' || c == '\u{feff}'
}

/// Whether `c` is punctuation that is dropped from the end of a URL.
fn is_trailing_punctuation_char(c: char) -> (r: bool)
    ensures
        r == is_trailing_punctuation(c),
{
    c == '.' || c == ',' || c == ';' || c == '!' || c == ')' || c == ']' || c == '}'
}

proof fn lemma_http_suffix_step(s: Seq<char>, i: int, j: int)
    requires
        0 <= i < j <= s.len(),
        !is_http_prefixed(s.subrange(i, j)),
    ensures
        http_suffix(s.subrange(i, j)) == http_suffix(s.subrange(i + 1, j)),
{
    assert(s.subrange(i, j).drop_first() == s.subrange(i + 1, j));
}

proof fn lemma_take_until_stop_step(s: Seq<char>, i: int, k: int, j: int)
    requires
        0 <= i <= k < j <= s.len(),
        !is_url_stop(s[k]),
        take_until_stop(s.subrange(i, j)) == s.subrange(i, k) + take_until_stop(s.subrange(k, j)),
    ensures
        take_until_stop(s.subrange(i, j)) == s.subrange(i, k + 1) + take_until_stop(
            s.subrange(k + 1, j),
        ),
{
    assert(s.subrange(k, j).drop_first() == s.subrange(k + 1, j));
    assert(s.subrange(k, j)[0] == s[k]);
    assert(s.subrange(i, k + 1) == s.subrange(i, k) + seq![s[k]]);
    assert(s.subrange(i, k) + (seq![s[k]] + take_until_stop(s.subrange(k + 1, j))) == (
    s.subrange(i, k) + seq![s[k]]) + take_until_stop(s.subrange(k + 1, j)));
}

proof fn lemma_trim_trailing_punctuation_step(s: Seq<char>, i: int, j: int)
    requires
        0 <= i < j <= s.len(),
        is_trailing_punctuation(s[j - 1]),
    ensures
        trim_trailing_punctuation(s.subrange(i, j)) == trim_trailing_punctuation(
            s.subrange(i, j - 1),
        ),
{
    assert(s.subrange(i, j).drop_last() == s.subrange(i, j - 1));
}

/// Extracts the first HTTP or HTTPS URL from shared text.
///
/// A value that is one URL once trimmed is returned whole. Otherwise the URL
/// starts at the first position where an HTTP or HTTPS scheme begins, ends
/// before the first white space, quote, angle bracket or U+FEFF, and loses
/// trailing `.`, `,`, `;`, `!`, `)`, `]` and `}`.
pub fn extract_url(value: &str) -> (r: Option<String>)
    ensures
        match r {
            Some(url) => extracted_url(value@) == Some(url@),
            None => extracted_url(value@) is None,
        },
{
    let chars = chars_of(value);
    let (a, b) = trim_bounds(&chars);
    let ghost v = chars@.subrange(a as int, b as int);
    if starts_with_http_in(&chars, a, b) && !has_whitespace_in(&chars, a, b) {
        return Some(substring(value, a, b));
    }
    let mut start: usize = a;
    while start < b && !starts_with_http_in(&chars, start, b)
        invariant
            a <= start <= b <= chars.len(),
            v == chars@.subrange(a as int, b as int),
            http_suffix(v) == http_suffix(chars@.subrange(start as int, b as int)),
        decreases b - start,
    {
        proof {
            lemma_http_suffix_step(chars@, start as int, b as int);
        }
        start = start + 1;
    }
    if start == b {
        return None;
    }
    let ghost rest = chars@.subrange(start as int, b as int);
    assert(http_suffix(v) == Some(rest));
    let mut end: usize = start;
    assert(rest == chars@.subrange(start as int, start as int) + rest);
    while end < b && !is_url_stop_char(chars[end])
        invariant
            start <= end <= b <= chars.len(),
            rest == chars@.subrange(start as int, b as int),
            take_until_stop(rest) == chars@.subrange(start as int, end as int) + take_until_stop(
                chars@.subrange(end as int, b as int),
            ),
        decreases b - end,
    {
        proof {
            lemma_take_until_stop_step(chars@, start as int, end as int, b as int);
        }
        end = end + 1;
    }
    assert(take_until_stop(chars@.subrange(end as int, b as int)) == Seq::<char>::empty());
    assert(take_until_stop(rest) == chars@.subrange(start as int, end as int));
    let mut last: usize = end;
    while last > start && is_trailing_punctuation_char(chars[last - 1])
        invariant
            start <= last <= end <= chars.len(),
            trim_trailing_punctuation(chars@.subrange(start as int, end as int))
                == trim_trailing_punctuation(chars@.subrange(start as int, last as int)),
        decreases last - start,
    {
        proof {
            lemma_trim_trailing_punctuation_step(chars@, start as int, last as int);
        }
        last = last - 1;
    }
    if last == start {
        return None;
    }
    Some(substring(value, start, last))
}

// ---------------------------------------------------------------------------
// Laws
// ---------------------------------------------------------------------------

proof fn lemma_trim_start_shape(s: Seq<char>)
    ensures
        trim_start(s).len() <= s.len(),
        trim_start(s) == s.skip(s.len() - trim_start(s).len()),
        trim_start(s).len() > 0 ==> !is_trim_char(trim_start(s)[0]),
    decreases s.len(),
{
    if s.len() > 0 && is_trim_char(s[0]) {
        lemma_trim_start_shape(s.drop_first());
        assert(s.drop_first().skip(s.drop_first().len() - trim_start(s).len()) =~= s.skip(
            s.len() - trim_start(s).len(),
        ));
    } else {
        assert(s.skip(0) =~= s);
    }
}

proof fn lemma_trim_end_shape(s: Seq<char>)
    ensures
        trim_end(s).len() <= s.len(),
        trim_end(s) == s.take(trim_end(s).len() as int),
        trim_end(s).len() > 0 ==> !is_trim_char(trim_end(s).last()),
    decreases s.len(),
{
    if s.len() > 0 && is_trim_char(s.last()) {
        lemma_trim_end_shape(s.drop_last());
        assert(s.drop_last().take(trim_end(s).len() as int) =~= s.take(trim_end(s).len() as int));
    } else {
        assert(s.take(s.len() as int) =~= s);
    }
}

/// A sequence whose first and last characters are not trim characters is its
/// own trimmed form.
proof fn lemma_trim_of_untrimmable_ends(s: Seq<char>)
    requires
        s.len() > 0 ==> !is_trim_char(s[0]) && !is_trim_char(s.last()),
    ensures
        trim(s) == s,
{
}

/// The trimmed form of a value has no trim character at either end.
pub(crate) proof fn lemma_trim_ends(s: Seq<char>)
    ensures
        trim(s).len() > 0 ==> !is_trim_char(trim(s)[0]) && !is_trim_char(trim(s).last()),
{
    lemma_trim_start_shape(s);
    lemma_trim_end_shape(trim_start(s));
    if trim(s).len() > 0 {
        assert(trim(s)[0] == trim_start(s).take(trim(s).len() as int)[0]);
    }
}

/// Trimming is idempotent: a trimmed value is left as it is by a second trim.
pub proof fn lemma_trim_idempotent(s: Seq<char>)
    ensures
        trim(trim(s)) == trim(s),
{
    lemma_trim_ends(s);
    lemma_trim_of_untrimmable_ends(trim(s));
}

proof fn lemma_http_suffix_prefixed(s: Seq<char>)
    ensures
        http_suffix(s) matches Some(rest) ==> is_http_prefixed(rest),
    decreases s.len(),
{
    if s.len() > 0 && !is_http_prefixed(s) {
        lemma_http_suffix_prefixed(s.drop_first());
    }
}

proof fn lemma_take_until_stop_shape(s: Seq<char>)
    ensures
        take_until_stop(s).len() <= s.len(),
        take_until_stop(s) == s.take(take_until_stop(s).len() as int),
        forall|i: int|
            0 <= i < take_until_stop(s).len() ==> !is_url_stop(#[trigger] take_until_stop(s)[i]),
        take_until_stop(s).len() < s.len() ==> is_url_stop(s[take_until_stop(s).len() as int]),
    decreases s.len(),
{
    if s.len() > 0 && !is_url_stop(s[0]) {
        let t = s.drop_first();
        lemma_take_until_stop_shape(t);
        let w = take_until_stop(s);
        assert(w == seq![s[0]] + take_until_stop(t));
        assert(w =~= s.take(w.len() as int));
        assert forall|i: int| 0 <= i < w.len() implies !is_url_stop(#[trigger] w[i]) by {
            if i > 0 {
                assert(w[i] == take_until_stop(t)[i - 1]);
            }
        }
        if w.len() < s.len() {
            assert(s[w.len() as int] == t[take_until_stop(t).len() as int]);
        }
    }
}

proof fn lemma_trim_trailing_punctuation_shape(s: Seq<char>)
    ensures
        trim_trailing_punctuation(s).len() <= s.len(),
        trim_trailing_punctuation(s) == s.take(trim_trailing_punctuation(s).len() as int),
        trim_trailing_punctuation(s).len() < s.len() ==> is_trailing_punctuation(
            s[trim_trailing_punctuation(s).len() as int],
        ),
        forall|n: int|
            0 < n <= s.len() && !is_trailing_punctuation(#[trigger] s[n - 1]) ==> n
                <= trim_trailing_punctuation(s).len(),
    decreases s.len(),
{
    if s.len() > 0 && is_trailing_punctuation(s.last()) {
        let t = s.drop_last();
        lemma_trim_trailing_punctuation_shape(t);
        assert(t.take(trim_trailing_punctuation(s).len() as int) =~= s.take(
            trim_trailing_punctuation(s).len() as int,
        ));
        assert forall|n: int|
            0 < n <= s.len() && !is_trailing_punctuation(#[trigger] s[n - 1]) implies n
                <= trim_trailing_punctuation(s).len() by {
            assert(n < s.len());
            assert(t[n - 1] == s[n - 1]);
        }
    } else {
        assert(s.take(s.len() as int) =~= s);
    }
}

/// A character that lower-cases to a character of a scheme is neither a stop
/// character nor a trim character.
proof fn lemma_scheme_char(c: char, x: char)
    requires
        ascii_lower(c) == x,
        x == 'h' || x == 't' || x == 'p' || x == 's' || x == ':' || x == '/',
    ensures
        !is_url_stop(c),
        !is_trim_char(c),
        x == '/' ==> c == '/',
        x == ':' ==> c == ':',
{
}

/// What `require_http_url` accepts, `extract_url` returns unchanged: when the
/// trimmed value is a single HTTP(S) URL, that URL is the extracted one.
pub proof fn lemma_accepted_url_is_extracted(value: Seq<char>)
    requires
        is_single_http_url(trim(value)),
    ensures
        extracted_url(value) == Some(trim(value)),
{
}

/// Every URL that `extract_url` finds is a single HTTP(S) URL that trimming
/// leaves as it is: `require_http_url` accepts it unchanged, and extracting
/// from it gives it back.
pub proof fn lemma_extracted_url_is_accepted(value: Seq<char>)
    ensures
        extracted_url(value) matches Some(url) ==> {
            &&& trim(url) == url
            &&& is_single_http_url(url)
            &&& extracted_url(url) == Some(url)
        },
{
    let v = trim(value);
    if is_single_http_url(v) {
        lemma_trim_idempotent(value);
    } else if let Some(rest) = http_suffix(v) {
        lemma_http_suffix_prefixed(v);
        let w = take_until_stop(rest);
        let url = trim_trailing_punctuation(w);
        lemma_take_until_stop_shape(rest);
        lemma_trim_trailing_punctuation_shape(w);
        let scheme = if starts_with_ignore_ascii_case(rest, https_scheme()) {
            https_scheme()
        } else {
            http_scheme()
        };
        let n = scheme.len() as int;
        assert(starts_with_ignore_ascii_case(rest, scheme));
        assert forall|i: int| 0 <= i < n implies !is_url_stop(#[trigger] rest[i]) && !is_trim_char(
            rest[i],
        ) by {
            assert(ascii_lower(rest[i]) == ascii_lower(scheme[i]));
            lemma_scheme_char(rest[i], scheme[i]);
        }
        // the scheme lies inside the stop-free prefix
        if w.len() < n {
            assert(is_url_stop(rest[w.len() as int]));
        }
        assert(w.len() >= n);
        assert(w[n - 1] == rest.take(w.len() as int)[n - 1]);
        lemma_scheme_char(rest[n - 1], scheme[n - 1]);
        assert(!is_trailing_punctuation(w[n - 1]));
        assert(url.len() >= n);
        assert forall|i: int| 0 <= i < url.len() implies !is_url_stop(#[trigger] url[i]) by {
            assert(url[i] == w.take(url.len() as int)[i]);
        }
        assert(!has_whitespace(url)) by {
            if has_whitespace(url) {
                let i = choose|i: int| 0 <= i < url.len() && is_unicode_whitespace(#[trigger] url[i]);
                assert(!is_url_stop(url[i]));
            }
        }
        assert forall|i: int| 0 <= i < scheme.len() implies ascii_lower(#[trigger] url[i])
            == ascii_lower(scheme[i]) by {
            assert(url[i] == w.take(url.len() as int)[i]);
            assert(w[i] == rest.take(w.len() as int)[i]);
        }
        assert(is_http_prefixed(url));
        assert(!is_url_stop(url[0]));
        assert(!is_url_stop(url.last()));
        lemma_trim_of_untrimmable_ends(url);
    }
}

/// The characters that trimming removes from the front are trim characters.
proof fn lemma_trim_start_removed(s: Seq<char>)
    ensures
        forall|i: int| 0 <= i < s.len() - trim_start(s).len() ==> is_trim_char(#[trigger] s[i]),
    decreases s.len(),
{
    lemma_trim_start_shape(s);
    if s.len() > 0 && is_trim_char(s[0]) {
        let t = s.drop_first();
        lemma_trim_start_removed(t);
        assert forall|i: int| 0 <= i < s.len() - trim_start(s).len() implies is_trim_char(
            #[trigger] s[i],
        ) by {
            if i > 0 {
                assert(s[i] == t[i - 1]);
            }
        }
    }
}

/// The characters that trimming removes from the back are trim characters.
proof fn lemma_trim_end_removed(s: Seq<char>)
    ensures
        forall|i: int| trim_end(s).len() <= i < s.len() ==> is_trim_char(#[trigger] s[i]),
    decreases s.len(),
{
    lemma_trim_end_shape(s);
    if s.len() > 0 && is_trim_char(s.last()) {
        let t = s.drop_last();
        lemma_trim_end_removed(t);
        assert forall|i: int| trim_end(s).len() <= i < s.len() implies is_trim_char(
            #[trigger] s[i],
        ) by {
            if i < s.len() - 1 {
                assert(s[i] == t[i]);
            }
        }
    }
}

/// The trimmed value is the characters `a..b` of the value, and every
/// character outside them is a trim character.
proof fn lemma_trim_bounds(s: Seq<char>) -> (ab: (int, int))
    ensures
        0 <= ab.0 <= ab.1 <= s.len(),
        trim(s) == s.subrange(ab.0, ab.1),
        forall|i: int| 0 <= i < ab.0 ==> is_trim_char(#[trigger] s[i]),
        forall|i: int| ab.1 <= i < s.len() ==> is_trim_char(#[trigger] s[i]),
{
    let t = trim_start(s);
    lemma_trim_start_shape(s);
    lemma_trim_start_removed(s);
    lemma_trim_end_shape(t);
    lemma_trim_end_removed(t);
    let a = s.len() - t.len();
    let b = a + trim_end(t).len();
    assert(trim(s) =~= s.subrange(a, b));
    assert forall|i: int| b <= i < s.len() implies is_trim_char(#[trigger] s[i]) by {
        assert(s[i] == t[i - a]);
    }
    (a, b)
}

/// No suffix of `s` has a scheme exactly when `http_suffix` finds none.
proof fn lemma_http_suffix_none(s: Seq<char>)
    ensures
        http_suffix(s) is None <==> forall|i: int| 0 <= i < s.len() ==> !is_http_prefixed(
            #[trigger] s.skip(i),
        ),
    decreases s.len(),
{
    if s.len() > 0 {
        assert(s.skip(0) =~= s);
        if !is_http_prefixed(s) {
            let t = s.drop_first();
            lemma_http_suffix_none(t);
            assert forall|i: int| 1 <= i < s.len() implies #[trigger] s.skip(i) == t.skip(i - 1) by {
                assert(s.skip(i) =~= t.skip(i - 1));
            }
            if http_suffix(s) is None {
                assert forall|i: int| 0 <= i < s.len() implies !is_http_prefixed(
                    #[trigger] s.skip(i),
                ) by {
                    if i > 0 {
                        assert(s.skip(i) == t.skip(i - 1));
                    }
                }
            } else {
                let j = choose|j: int| 0 <= j < t.len() && is_http_prefixed(#[trigger] t.skip(j));
                assert(s.skip(j + 1) == t.skip(j));
            }
        }
    }
}

/// The scheme that begins `s`.
pub open spec fn leading_scheme(s: Seq<char>) -> Seq<char> {
    if starts_with_ignore_ascii_case(s, https_scheme()) {
        https_scheme()
    } else {
        http_scheme()
    }
}

/// The characters of a scheme at the front of `s` are neither trim nor stop
/// characters.
proof fn lemma_scheme_chars(s: Seq<char>)
    requires
        is_http_prefixed(s),
    ensures
        leading_scheme(s).len() <= s.len(),
        forall|i: int|
            0 <= i < leading_scheme(s).len() ==> !is_url_stop(#[trigger] s[i]) && !is_trim_char(
                s[i],
            ),
        !is_trailing_punctuation(s[leading_scheme(s).len() - 1]),
{
    let scheme = leading_scheme(s);
    assert forall|i: int| 0 <= i < scheme.len() implies !is_url_stop(#[trigger] s[i])
        && !is_trim_char(s[i]) by {
        assert(ascii_lower(s[i]) == ascii_lower(scheme[i]));
        lemma_scheme_char(s[i], scheme[i]);
    }
    let n = scheme.len() as int;
    assert(ascii_lower(s[n - 1]) == ascii_lower(scheme[n - 1]));
    lemma_scheme_char(s[n - 1], scheme[n - 1]);
}

/// Whether `s` at position `i` begins a scheme does not depend on what lies
/// beyond a run of trim characters that ends `s`.
proof fn lemma_prefixed_within(s: Seq<char>, i: int, b: int)
    requires
        0 <= i < b <= s.len(),
        forall|k: int| b <= k < s.len() ==> is_trim_char(#[trigger] s[k]),
    ensures
        is_http_prefixed(s.skip(i)) <==> is_http_prefixed(s.subrange(i, b)),
{
    let long = s.skip(i);
    let short = s.subrange(i, b);
    assert forall|k: int| 0 <= k < short.len() implies #[trigger] short[k] == long[k] by {}
    if is_http_prefixed(long) {
        lemma_scheme_chars(long);
        let n = leading_scheme(long).len() as int;
        if i + n > b {
            assert(!is_trim_char(long[b - i]));
            assert(long[b - i] == s[b]);
        }
        assert(starts_with_ignore_ascii_case(short, leading_scheme(long)));
    }
    if is_http_prefixed(short) {
        let scheme = leading_scheme(short);
        assert(starts_with_ignore_ascii_case(long, scheme)) by {
            assert forall|k: int| 0 <= k < scheme.len() implies ascii_lower(#[trigger] long[k])
                == ascii_lower(scheme[k]) by {
                assert(short[k] == long[k]);
            }
        }
    }
}

/// The candidate cut from a suffix that begins with a scheme keeps at least
/// the scheme.
proof fn lemma_candidate_keeps_scheme(rest: Seq<char>)
    requires
        is_http_prefixed(rest),
    ensures
        trim_trailing_punctuation(take_until_stop(rest)).len() >= leading_scheme(rest).len(),
{
    let w = take_until_stop(rest);
    lemma_scheme_chars(rest);
    lemma_take_until_stop_shape(rest);
    lemma_trim_trailing_punctuation_shape(w);
    let n = leading_scheme(rest).len() as int;
    if w.len() < n {
        assert(is_url_stop(rest[w.len() as int]));
    }
    assert(w[n - 1] == rest.take(w.len() as int)[n - 1]);
}

/// `extract_url` finds no URL exactly when no position of the value begins an
/// HTTP or HTTPS scheme, in any ASCII case.
pub proof fn lemma_no_url_without_scheme(value: Seq<char>)
    ensures
        extracted_url(value) is None <==> forall|i: int|
            0 <= i < value.len() ==> !is_http_prefixed(#[trigger] value.skip(i)),
{
    let (a, b) = lemma_trim_bounds(value);
    let v = trim(value);
    lemma_http_suffix_none(v);
    if let Some(rest) = http_suffix(v) {
        lemma_http_suffix_prefixed(v);
        lemma_candidate_keeps_scheme(rest);
    }
    assert forall|i: int| 0 <= i < value.len() implies is_http_prefixed(#[trigger] value.skip(i))
        == (a <= i < b && is_http_prefixed(v.skip(i - a))) by {
        if is_http_prefixed(value.skip(i)) {
            lemma_scheme_chars(value.skip(i));
            assert(value.skip(i)[0] == value[i]);
        }
        if a <= i < b {
            lemma_prefixed_within(value, i, b);
            assert(v.skip(i - a) =~= value.subrange(i, b));
        }
    }
    if extracted_url(value) is None {
        assert forall|i: int| 0 <= i < value.len() implies !is_http_prefixed(
            #[trigger] value.skip(i),
        ) by {
            if a <= i < b {
                assert(!is_http_prefixed(v.skip(i - a)));
            }
        }
    } else {
        let j = choose|j: int| 0 <= j < v.len() && is_http_prefixed(#[trigger] v.skip(j));
        assert(is_http_prefixed(value.skip(j + a)));
    }
}

// ---------------------------------------------------------------------------
// Laws stated over concrete character sets
// ---------------------------------------------------------------------------

/// `s` begins with `http://` or `https://`, ASCII letters in any case.
proof fn lemma_scheme_literals(s: Seq<char>)
    ensures
        is_http_prefixed(s) <==> (starts_with_ignore_ascii_case(
            s,
            seq!['h', 't', 't', 'p', ':', '/', '/'],
        ) || starts_with_ignore_ascii_case(s, seq!['h', 't', 't', 'p', 's', ':', '/', '/'])),
{
    assert(http_scheme() =~= seq!['h', 't', 't', 'p', ':', '/', '/']);
    assert(https_scheme() =~= seq!['h', 't', 't', 'p', 's', ':', '/', '/']);
}

/// Trimming removes exactly Unicode white space and U+FEFF: a single
/// character is trimmed away exactly when it is one of those.
pub proof fn lemma_trimmed_characters(c: char)
    ensures
        trim(seq![c]).len() == 0 <==> (is_unicode_whitespace(c) || c == '\u{feff}'),
{
    let s = seq![c];
    if is_unicode_whitespace(c) || c == '\u{feff}' {
        assert(s.drop_first().len() == 0);
        assert(trim_start(s) == trim_start(s.drop_first()));
    } else {
        assert(trim_start(s) == s);
        assert(s.last() == c);
    }
}

/// A value that begins with `http://` or `https://` (ASCII letters in any
/// case), holds no white space and does not end in U+FEFF is accepted as it
/// is: trimming leaves it unchanged and it is a single HTTP(S) URL, so
/// `require_http_url` returns it whole.
pub proof fn lemma_plain_url_is_accepted_unchanged(u: Seq<char>)
    requires
        starts_with_ignore_ascii_case(u, seq!['h', 't', 't', 'p', ':', '/', '/'])
            || starts_with_ignore_ascii_case(u, seq!['h', 't', 't', 'p', 's', ':', '/', '/']),
        forall|i: int| 0 <= i < u.len() ==> !is_unicode_whitespace(#[trigger] u[i]),
        u.last() != '\u{feff}',
    ensures
        trim(u) == u,
        is_single_http_url(u),
{
    lemma_scheme_literals(u);
    lemma_scheme_chars(u);
    assert(!is_unicode_whitespace(u.last()));
    lemma_trim_of_untrimmable_ends(u);
}

/// A character ends an extracted URL exactly when it is Unicode white space,
/// `"`, `'`, `<`, `>` or U+FEFF: the run taken from `c` followed by anything is
/// empty exactly then.
pub proof fn lemma_url_stop_characters(c: char, rest: Seq<char>)
    ensures
        take_until_stop(seq![c] + rest).len() == 0 <==> (is_unicode_whitespace(c) || c == '"' || c
            == '\'' || c == '<' || c == '>' || c == '\u{feff}'),
{
    let s = seq![c] + rest;
    assert(s[0] == c);
}

/// The run without stop characters that starts with `u` and goes on into `t`.
proof fn lemma_take_until_stop_append(u: Seq<char>, t: Seq<char>)
    requires
        forall|i: int| 0 <= i < u.len() ==> !is_url_stop(#[trigger] u[i]),
    ensures
        take_until_stop(u + t) == u + take_until_stop(t),
    decreases u.len(),
{
    if u.len() == 0 {
        assert(u + t =~= t);
        assert(u + take_until_stop(t) =~= take_until_stop(t));
    } else {
        let s = u + t;
        assert(s[0] == u[0]);
        assert(s.drop_first() =~= u.drop_first() + t);
        assert forall|i: int| 0 <= i < u.drop_first().len() implies !is_url_stop(
            #[trigger] u.drop_first()[i],
        ) by {
            assert(u.drop_first()[i] == u[i + 1]);
        }
        lemma_take_until_stop_append(u.drop_first(), t);
        assert(seq![u[0]] + (u.drop_first() + take_until_stop(t)) =~= u + take_until_stop(t));
    }
}

/// `http_suffix` gives the suffix at the first position that begins a scheme.
proof fn lemma_http_suffix_first(s: Seq<char>, k: int)
    requires
        0 <= k < s.len(),
        is_http_prefixed(s.skip(k)),
        forall|j: int| 0 <= j < k ==> !is_http_prefixed(#[trigger] s.skip(j)),
    ensures
        http_suffix(s) == Some(s.skip(k)),
    decreases k,
{
    assert(s.skip(0) =~= s);
    if k > 0 {
        let t = s.drop_first();
        assert forall|j: int| 0 <= j < k - 1 implies !is_http_prefixed(#[trigger] t.skip(j)) by {
            assert(t.skip(j) =~= s.skip(j + 1));
        }
        assert(t.skip(k - 1) =~= s.skip(k));
        lemma_http_suffix_first(t, k - 1);
    }
}

/// In shared text made of a first word, a space, a URL `u`, a space and more
/// text, `extract_url` finds exactly `u`. The word is not empty, does not begin
/// with white space or U+FEFF and holds no `:`; `u` begins with `http://` or
/// `https://` (any ASCII case), holds no white space, `"`, `'`, `<`, `>` or
/// U+FEFF, and does not end in `.`, `,`, `;`, `!`, `)`, `]` or `}`.
pub proof fn lemma_url_between_words(word: Seq<char>, u: Seq<char>, after: Seq<char>)
    requires
        word.len() > 0,
        !is_unicode_whitespace(word[0]) && word[0] != '\u{feff}',
        forall|i: int| 0 <= i < word.len() ==> #[trigger] word[i] != ':',
        starts_with_ignore_ascii_case(u, seq!['h', 't', 't', 'p', ':', '/', '/'])
            || starts_with_ignore_ascii_case(u, seq!['h', 't', 't', 'p', 's', ':', '/', '/']),
        forall|i: int|
            0 <= i < u.len() ==> {
                let c = #[trigger] u[i];
                !is_unicode_whitespace(c) && c != '"' && c != '\'' && c != '<' && c != '>' && c
                    != '\u{feff}'
            },
        ({
            let c = u.last();
            c != '.' && c != ',' && c != ';' && c != '!' && c != ')' && c != ']' && c != '}'
        }),
    ensures
        extracted_url(word + seq![' '] + u + seq![' '] + after) == Some(u),
{
    let text = word + seq![' '] + u + seq![' '] + after;
    let w = word.len() as int;
    let k = w + 1;
    lemma_scheme_literals(u);
    lemma_scheme_chars(u);
    let n = leading_scheme(u).len() as int;
    assert(text[0] == word[0]);
    assert(text[w] == ' ');
    assert forall|i: int| 0 <= i < u.len() implies #[trigger] text[k + i] == u[i] by {}
    let (a, b) = lemma_trim_bounds(text);
    // The trimmed text starts at the word and reaches past `u`.
    if a > 0 {
        assert(is_trim_char(text[0]));
    }
    assert(!is_url_stop(u[u.len() - 1]));
    if b <= k + u.len() - 1 {
        assert(is_trim_char(text[k + u.len() - 1]));
    }
    let v = trim(text);
    assert(v == text.subrange(0, b));
    // Not a single URL: the space after the word is inside.
    assert(v[w] == ' ');
    assert(is_unicode_whitespace(v[w]));
    assert(!is_single_http_url(v));
    // No scheme begins before `u`.
    assert forall|j: int| 0 <= j < k implies !is_http_prefixed(#[trigger] v.skip(j)) by {
        if is_http_prefixed(v.skip(j)) {
            let x = v.skip(j);
            lemma_scheme_chars(x);
            let m = leading_scheme(x).len() as int;
            let scheme = leading_scheme(x);
            if j + m > w {
                assert(x[w - j] == v[w]);
                assert(!is_url_stop(x[w - j]));
            }
            let colon = if m == 7 { 4int } else { 5int };
            assert(ascii_lower(x[colon]) == ascii_lower(scheme[colon]));
            lemma_scheme_char(x[colon], scheme[colon]);
            assert(x[colon] == v[j + colon]);
            assert(v[j + colon] == word[j + colon]);
        }
    }
    // A scheme begins at `u`.
    let rest = v.skip(k);
    assert(starts_with_ignore_ascii_case(rest, leading_scheme(u))) by {
        assert forall|i: int| 0 <= i < leading_scheme(u).len() implies ascii_lower(
            #[trigger] rest[i],
        ) == ascii_lower(leading_scheme(u)[i]) by {
            assert(rest[i] == u[i]);
        }
    }
    lemma_http_suffix_first(v, k);
    // The run ends right after `u`.
    let tail = rest.skip(u.len() as int);
    assert(rest =~= u + tail);
    assert(forall|i: int| 0 <= i < u.len() ==> !is_url_stop(#[trigger] u[i]));
    lemma_take_until_stop_append(u, tail);
    if tail.len() > 0 {
        assert(tail[0] == ' ');
    }
    assert(take_until_stop(tail) == Seq::<char>::empty());
    assert(u + Seq::<char>::empty() =~= u);
    assert(trim_trailing_punctuation(u) == u);
}

} // verus!
