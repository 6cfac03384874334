//! The proxy pool: parsing newline-delimited proxy-list text, assembling
//! one pool from several sources (all of which must have been fetched),
//! and selecting a random endpoint. The pool is immutable once assembled;
//! selection never consumes a retry attempt.

use vstd::prelude::*;
use vstd::string::StrSliceExecFns;
use vstd::string::StringExecFns;

use crate::CustomError;

verus! {

/// One outbound proxy endpoint, held as its address text.
#[derive(Debug, Clone, PartialEq)]
pub struct Proxy {
    pub address: String,
}

impl View for Proxy {
    type V = Seq<char>;

    open spec fn view(&self) -> Seq<char> {
        self.address@
    }
}

impl DeepView for Proxy {
    type V = Seq<char>;

    open spec fn deep_view(&self) -> Seq<char> {
        self@
    }
}

/// The whitespace the proxy-list parser strips from line ends: the
/// Unicode White_Space set, as `str::trim` strips it.
pub open spec fn is_space(c: char) -> bool {
    ||| c == ' '
    ||| c == '\t'
    ||| c == '\n'
    ||| c == '\u{b}'
    ||| c == '\u{c}'
    ||| c == '\r'
    ||| c == '\u{85}'
    ||| c == '\u{a0}'
    ||| c == '\u{1680}'
    ||| ('\u{2000}' as u32 <= c as u32 && c as u32 <= '\u{200a}' as u32)
    ||| c == '\u{2028}'
    ||| c == '\u{2029}'
    ||| c == '\u{202f}'
    ||| c == '\u{205f}'
    ||| c == '\u{3000}'
}

/// Whether this character counts as strippable whitespace.
fn is_space_char(c: char) -> (r: bool)
    ensures
        r == is_space(c),
{
    let cv = c as u32;
    c == ' ' || c == '\t' || c == '\n' || c == '\u{b}' || c == '\u{c}' || c == '\r'
        || c == '\u{85}' || c == '\u{a0}' || c == '\u{1680}'
        || ('\u{2000}' as u32 <= cv && cv <= '\u{200a}' as u32)
        || c == '\u{2028}' || c == '\u{2029}' || c == '\u{202f}' || c == '\u{205f}'
        || c == '\u{3000}'
}

/// The text with its leading whitespace dropped.
pub open spec fn trim_front(s: Seq<char>) -> Seq<char>
    decreases s.len(),
{
    if s.len() > 0 && is_space(s[0]) {
        trim_front(s.drop_first())
    } else {
        s
    }
}

/// The text with its trailing whitespace dropped.
pub open spec fn trim_back(s: Seq<char>) -> Seq<char>
    decreases s.len(),
{
    if s.len() > 0 && is_space(s.last()) {
        trim_back(s.drop_last())
    } else {
        s
    }
}

/// The text with whitespace dropped from both ends.
pub open spec fn spec_trim(s: Seq<char>) -> Seq<char> {
    trim_back(trim_front(s))
}

/// Index of the first line break, or the text's length when it has none.
pub open spec fn newline_pos(s: Seq<char>) -> nat
    decreases s.len(),
{
    if s.len() == 0 {
        0
    } else if s[0] == '\n' {
        0
    } else {
        1 + newline_pos(s.drop_first())
    }
}

/// `newline_pos` finds the first line break: if nothing before `i` is a
/// line break and `i` is one (or the end), the position is `i`.
proof fn lemma_newline_pos_first(s: Seq<char>, i: int)
    requires
        0 <= i <= s.len(),
        forall|k: int| 0 <= k < i ==> s[k] != '\n',
        i < s.len() ==> s[i] == '\n',
    ensures
        newline_pos(s) == i,
    decreases i,
{
    if i == 0 {
    } else {
        assert(s[0] != '\n');
        let rest = s.drop_first();
        assert(forall|k: int| 0 <= k < rest.len() ==> rest[k] == s[k + 1]);
        lemma_newline_pos_first(rest, i - 1);
    }
}

/// The addresses parsed out of one proxy-list text: one entry per line,
/// whitespace stripped from both ends, blank lines discarded, in text
/// order.
pub open spec fn spec_parse_proxy_list(s: Seq<char>) -> Seq<Seq<char>>
    decreases s.len(),
{
    if s.len() == 0 {
        Seq::<Seq<char>>::empty()
    } else {
        let j = newline_pos(s) as int;
        let t = spec_trim(s.subrange(0, j));
        let head = if t.len() > 0 {
            seq![t]
        } else {
            Seq::<Seq<char>>::empty()
        };
        if j < s.len() {
            head + spec_parse_proxy_list(s.skip(j + 1))
        } else {
            head
        }
    }
}

/// Parses newline-delimited proxy-list text: each line is stripped of
/// surrounding whitespace and kept as one endpoint unless it is blank.
pub fn parse_proxy_list(text: &str) -> (r: Vec<Proxy>)
    ensures
        r.deep_view() == spec_parse_proxy_list(text@),
{
    let n = text.unicode_len();
    let mut out: Vec<Proxy> = Vec::new();
    let mut pos: usize = 0;
    proof {
        assert(text@.skip(0) =~= text@);
    }
    while pos < n
        invariant
            pos <= n,
            n == text@.len(),
            out.deep_view() + spec_parse_proxy_list(text@.skip(pos as int))
                == spec_parse_proxy_list(text@),
        decreases n - pos,
    {
        let ghost srem = text@.skip(pos as int);
        // find the end of the current line
        let mut j: usize = pos;
        while j < n && text.get_char(j) != '\n'
            invariant
                pos <= j <= n,
                n == text@.len(),
                forall|k: int| pos <= k < j ==> text@[k] != '\n',
            decreases n - j,
        {
            j = j + 1;
        }
        proof {
            assert(forall|k: int|
                0 <= k < j - pos ==> srem[k] == text@[k + pos] && text@[k + pos] != '\n');
            lemma_newline_pos_first(srem, j - pos);
        }
        // strip whitespace from both ends of the line
        let mut lo: usize = pos;
        while lo < j && is_space_char(text.get_char(lo))
            invariant
                pos <= lo <= j <= n,
                n == text@.len(),
                trim_front(text@.subrange(pos as int, j as int)) == trim_front(
                    text@.subrange(lo as int, j as int),
                ),
            decreases j - lo,
        {
            proof {
                assert(text@.subrange(lo as int, j as int).drop_first() =~= text@.subrange(
                    lo + 1 as int,
                    j as int,
                ));
            }
            lo = lo + 1;
        }
        proof {
            assert(trim_front(text@.subrange(lo as int, j as int)) == text@.subrange(
                lo as int,
                j as int,
            ));
        }
        let mut hi: usize = j;
        while hi > lo && is_space_char(text.get_char(hi - 1))
            invariant
                lo <= hi <= j <= n,
                n == text@.len(),
                trim_back(text@.subrange(lo as int, j as int)) == trim_back(
                    text@.subrange(lo as int, hi as int),
                ),
            decreases hi - lo,
        {
            proof {
                assert(text@.subrange(lo as int, hi as int).drop_last() =~= text@.subrange(
                    lo as int,
                    hi - 1 as int,
                ));
            }
            hi = hi - 1;
        }
        proof {
            assert(trim_back(text@.subrange(lo as int, hi as int)) == text@.subrange(
                lo as int,
                hi as int,
            ));
            assert(srem.subrange(0, j - pos) =~= text@.subrange(pos as int, j as int));
        }
        if hi > lo {
            let line = text.substring_char(lo, hi);
            let ghost pre = out.deep_view();
            out.push(Proxy { address: String::from_str(line) });
            proof {
                assert(out.deep_view() =~= pre.push(text@.subrange(lo as int, hi as int)));
            }
        }
        if j < n {
            proof {
                assert(srem.skip(j - pos + 1) =~= text@.skip(j + 1 as int));
            }
            pos = j + 1;
        } else {
            proof {
                assert(text@.skip(n as int) =~= Seq::<char>::empty());
            }
            pos = n;
        }
    }
    proof {
        assert(text@.skip(n as int) =~= Seq::<char>::empty());
        assert(out.deep_view() + Seq::<Seq<char>>::empty() =~= out.deep_view());
    }
    out
}

/// The assembled pool of proxy endpoints, shared read-only once loaded.
#[derive(Debug, Clone, PartialEq)]
pub struct ProxyPool {
    pub proxies: Vec<Proxy>,
}

impl View for ProxyPool {
    type V = Seq<Seq<char>>;

    open spec fn view(&self) -> Seq<Seq<char>> {
        self.proxies.deep_view()
    }
}

/// Assembles one pool from the three list sources. All sources must have
/// been fetched: one missing source fails the whole load with
/// `SourceUnavailable`. The pool concatenates the lists in source order
/// without deduplication.
pub fn assemble_pool(
    sock5: Option<Vec<Proxy>>,
    sock4: Option<Vec<Proxy>>,
    http: Option<Vec<Proxy>>,
) -> (r: Result<ProxyPool, CustomError>)
    ensures
        (r is Ok) <==> (sock5 is Some && sock4 is Some && http is Some),
        r matches Ok(pool) ==> (sock5 matches Some(a) && sock4 matches Some(b)
            && http matches Some(c) && pool@ == a.deep_view() + b.deep_view() + c.deep_view()),
        r matches Err(e) ==> e == CustomError::SourceUnavailable,
{
    match (sock5, sock4, http) {
        (Some(a), Some(mut b), Some(mut c)) => {
            let ghost a0 = a.deep_view();
            let ghost b0 = b.deep_view();
            let ghost c0 = c.deep_view();
            let mut all = a;
            all.append(&mut b);
            all.append(&mut c);
            proof {
                assert(all.deep_view() =~= a0 + b0 + c0);
            }
            Ok(ProxyPool { proxies: all })
        },
        _ => Err(CustomError::SourceUnavailable),
    }
}

/// Relies on `rand::rng` and `rand::RngExt::random_range`: returns a
/// value uniformly distributed in `[0, n)`; the range is non-empty, so
/// the call does not panic.
#[verifier::external_body]
fn random_index(n: usize) -> (r: usize)
    requires
        n > 0,
    ensures
        r < n,
{
    <rand::rngs::ThreadRng as rand::RngExt>::random_range(&mut rand::rng(), 0..n)
}

/// A uniformly random endpoint of the list, or `None` when it is empty.
pub fn get_random_proxy(proxies: &Vec<Proxy>) -> (r: Option<Proxy>)
    ensures
        (r is Some) <==> proxies@.len() > 0,
        r matches Some(p) ==> exists|i: int|
            0 <= i < proxies@.len() && p@ == proxies.deep_view()[i],
{
    if proxies.len() == 0 {
        None
    } else {
        let i = random_index(proxies.len());
        let p = Proxy { address: proxies[i].address.clone() };
        proof {
            assert(p@ == proxies.deep_view()[i as int]);
        }
        Some(p)
    }
}

/// Whether the pool can serve any fetch at all. An empty pool at pipeline
/// start aborts the whole run: no item could ever succeed.
pub fn ensure_pool_usable(pool: &ProxyPool) -> (r: Result<(), CustomError>)
    ensures
        (r is Ok) <==> pool@.len() > 0,
        r matches Err(e) ==> e == CustomError::NoProxiesAvailable,
{
    if pool.proxies.len() == 0 {
        Err(CustomError::NoProxiesAvailable)
    } else {
        Ok(())
    }
}

impl ProxyPool {
    /// A uniformly random endpoint of the pool, or `NoProxiesAvailable`
    /// when the pool is empty — terminal for the current fetch, with no
    /// attempt consumed.
    pub fn select(&self) -> (r: Result<Proxy, CustomError>)
        ensures
            (r is Ok) <==> self@.len() > 0,
            r matches Ok(p) ==> exists|i: int| 0 <= i < self@.len() && p@ == self@[i],
            r matches Err(e) ==> e == CustomError::NoProxiesAvailable,
    {
        match get_random_proxy(&self.proxies) {
            Some(p) => Ok(p),
            None => Err(CustomError::NoProxiesAvailable),
        }
    }
}

} // verus!
