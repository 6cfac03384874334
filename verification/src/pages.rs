//! Page-count discovery for the listing site. The page extractor — an
//! HTML parse and a fixed CSS selector locating the last pagination link —
//! is an external collaborator; what it hands back is a plain href
//! string. The library parses that href itself: the text after its last
//! `=` is read as a page number, and on any parse failure a fixed
//! fallback count is used instead of failing the run.

use vstd::prelude::*;
use vstd::string::StrSliceExecFns;

verus! {

/// The href of the last pagination link of a listing document, if the
/// document has one. A function of the document text alone.
pub uninterp spec fn pagination_href_of(doc: Seq<char>) -> Option<Seq<char>>;

/// Relies on scraper's `Html::parse_document`, `Selector::parse`,
/// `Html::select` and `ElementRef::attr`: the `href` attribute of the
/// last element matching the fixed pagination selector. The selector is
/// constant, so the result depends on the document text alone.
#[verifier::external_body]
fn extract_last_pagination_href(html: &str) -> (r: Option<String>)
    ensures
        (r is Some) <==> (pagination_href_of(html@) is Some),
        r matches Some(h) ==> pagination_href_of(html@) == Some(h@),
{
    let document = scraper::Html::parse_document(html);
    let selector = match scraper::Selector::parse(
        "#main-wrapper > div > div.page-az-wrap > section > div.tab-content > div > div.pre-pagination.mt-5.mb-5 > nav > ul > li:last-child a",
    ) {
        Ok(s) => s,
        Err(_) => return None,
    };
    let element = match document.select(&selector).last() {
        Some(e) => e,
        None => return None,
    };
    match element.attr("href") {
        Some(h) => Some(h.to_string()),
        None => None,
    }
}

/// Whether `c` is a decimal digit.
pub open spec fn is_digit(c: char) -> bool {
    '0' as u32 <= c as u32 && c as u32 <= '9' as u32
}

/// Whether every character is a decimal digit.
pub open spec fn all_digits(s: Seq<char>) -> bool {
    forall|i: int| 0 <= i < s.len() ==> is_digit(s[i])
}

/// The number the digit text denotes, most significant digit first.
pub open spec fn digits_val(s: Seq<char>) -> int
    decreases s.len(),
{
    if s.len() == 0 {
        0
    } else {
        digits_val(s.drop_last()) * 10 + (s.last() as u32 - '0' as u32)
    }
}

/// A digit text denotes a non-negative number.
proof fn lemma_digits_val_nonneg(s: Seq<char>)
    requires
        all_digits(s),
    ensures
        digits_val(s) >= 0,
    decreases s.len(),
{
    if s.len() > 0 {
        let d = s.drop_last();
        assert(forall|i: int| 0 <= i < d.len() ==> d[i] == s[i]);
        lemma_digits_val_nonneg(d);
        assert(is_digit(s[s.len() - 1]));
    }
}

/// Dropping digits from the end never makes the number larger.
proof fn lemma_digits_val_prefix_le(s: Seq<char>, k: int)
    requires
        all_digits(s),
        0 <= k <= s.len(),
    ensures
        digits_val(s.take(k)) <= digits_val(s),
    decreases s.len() - k,
{
    if k == s.len() {
        assert(s.take(k) =~= s);
    } else {
        lemma_digits_val_prefix_le(s, k + 1);
        let t = s.take(k + 1);
        assert(t.drop_last() =~= s.take(k));
        assert(forall|i: int| 0 <= i < k ==> s.take(k)[i] == s[i]);
        assert(all_digits(s.take(k)));
        lemma_digits_val_nonneg(s.take(k));
        assert(t.last() == s[k]);
        assert(is_digit(s[k]));
        assert(digits_val(t) == digits_val(s.take(k)) * 10 + (t.last() as u32 - '0' as u32));
    }
}

/// The digit text a number is read from: everything after one optional
/// leading plus sign.
pub open spec fn spec_digit_part(s: Seq<char>) -> Seq<char> {
    if s.len() > 0 && s[0] == '+' {
        s.drop_first()
    } else {
        s
    }
}

/// The number a text denotes, when it is one or more digits — after one
/// optional leading plus sign — denoting a value that fits; anything else
/// (empty, a lone sign, a non-digit, a value too large) does not parse.
pub open spec fn spec_parse_u16(s: Seq<char>) -> Option<u16> {
    let digits = spec_digit_part(s);
    if digits.len() > 0 && all_digits(digits) && digits_val(digits) <= u16::MAX {
        Some(digits_val(digits) as u16)
    } else {
        None
    }
}

/// Parses a page number out of digit text, one optional leading plus sign
/// allowed.
pub fn parse_u16(s: &str) -> (r: Option<u16>)
    ensures
        r == spec_parse_u16(s@),
{
    let n = s.unicode_len();
    if n == 0 {
        return None;
    }
    let start: usize = if s.get_char(0) == '+' {
        1
    } else {
        0
    };
    let ghost digits = spec_digit_part(s@);
    proof {
        assert(digits.len() == n - start);
        assert(forall|j: int| 0 <= j < digits.len() ==> digits[j] == s@[j + start]);
        assert(digits.take(0) =~= Seq::<char>::empty());
    }
    if start == n {
        return None;
    }
    let mut acc: u32 = 0;
    let mut i: usize = start;
    while i < n
        invariant
            start <= i <= n,
            n == s@.len(),
            digits == spec_digit_part(s@),
            digits.len() == n - start,
            forall|j: int| 0 <= j < digits.len() ==> digits[j] == s@[j + start],
            all_digits(digits.take(i - start)),
            acc == digits_val(digits.take(i - start)),
            acc <= u16::MAX,
        decreases n - i,
    {
        let c = s.get_char(i);
        let cv = c as u32;
        if cv < '0' as u32 || cv > '9' as u32 {
            proof {
                assert(!is_digit(digits[i - start]));
            }
            return None;
        }
        let d = cv - '0' as u32;
        let next = acc * 10 + d;
        proof {
            let t = digits.take(i - start + 1);
            assert(t.drop_last() =~= digits.take(i - start));
            assert(t.last() == digits[i - start]);
            assert(digits_val(t) == acc * 10 + d);
            assert(all_digits(t));
        }
        if next > u16::MAX as u32 {
            proof {
                if all_digits(digits) {
                    lemma_digits_val_prefix_le(digits, i - start + 1);
                }
            }
            return None;
        }
        acc = next;
        i = i + 1;
    }
    proof {
        assert(digits.take(n - start) =~= digits);
    }
    Some(acc as u16)
}

/// The text after the last `=`, or the whole text when it has none — the
/// query-parameter value of a pagination href.
pub open spec fn after_last_eq(s: Seq<char>) -> Seq<char>
    decreases s.len(),
{
    if s.len() == 0 {
        s
    } else if s.last() == '=' {
        Seq::<char>::empty()
    } else {
        after_last_eq(s.drop_last()).push(s.last())
    }
}

/// If nothing at or after `k` is an `=` and the character before `k` is
/// one (or `k` is the start), the text after the last `=` starts at `k`.
proof fn lemma_after_last_eq_at(s: Seq<char>, k: int)
    requires
        0 <= k <= s.len(),
        forall|j: int| k <= j < s.len() ==> s[j] != '=',
        k > 0 ==> s[k - 1] == '=',
    ensures
        after_last_eq(s) == s.skip(k),
    decreases s.len(),
{
    if k == s.len() {
        if k > 0 {
            assert(s.last() == '=');
            assert(after_last_eq(s) =~= s.skip(k));
        } else {
            assert(s.len() == 0);
        }
    } else {
        assert(s.last() != '=');
        let d = s.drop_last();
        assert(forall|j: int| k <= j < d.len() ==> d[j] == s[j]);
        lemma_after_last_eq_at(d, k);
        assert(after_last_eq(s) == d.skip(k).push(s.last()));
        assert(d.skip(k).push(s.last()) =~= s.skip(k));
    }
}

/// The query-parameter segment of a pagination href: everything after its
/// last `=`, or the whole href when it has none.
pub fn href_page_segment(href: &str) -> (r: &str)
    ensures
        r@ == after_last_eq(href@),
{
    let n = href.unicode_len();
    let mut k: usize = n;
    while k > 0 && href.get_char(k - 1) != '='
        invariant
            k <= n,
            n == href@.len(),
            forall|j: int| k <= j < n ==> href@[j] != '=',
        decreases k,
    {
        k = k - 1;
    }
    proof {
        lemma_after_last_eq_at(href@, k as int);
    }
    href.substring_char(k, n)
}

/// The page count a listing document yields: the number parsed from the
/// last pagination link's href, or the given fallback when the document
/// has no such link or the number does not parse.
pub open spec fn spec_last_page_no(doc: Seq<char>, fallback: u16) -> u16 {
    match pagination_href_of(doc) {
        Some(h) => match spec_parse_u16(after_last_eq(h)) {
            Some(v) => v,
            None => fallback,
        },
        None => fallback,
    }
}

/// Discovers the last page number of the listing from its HTML: locates
/// the last pagination link, parses its href's query-parameter value as a
/// page number, and falls back to the given constant on any failure.
pub fn last_page_no_from_html(html: &str, fallback: u16) -> (r: u16)
    ensures
        r == spec_last_page_no(html@, fallback),
{
    match extract_last_pagination_href(html) {
        Some(href) => {
            let segment = href_page_segment(href.as_str());
            match parse_u16(segment) {
                Some(v) => v,
                None => fallback,
            }
        },
        None => fallback,
    }
}

} // verus!
