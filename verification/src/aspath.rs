//! Parsing of rendered AS-path text into typed path entries.
//!
//! The retrieval engine renders an AS-path as text: hops separated by single
//! spaces, where a hop is either one decimal autonomous-system number or a
//! group of numbers wrapped in `{}`, `[]` or `()` and separated by commas.

use vstd::prelude::*;

use crate::element::{ElementError, ElementErrorView, ASN};

verus! {

/// One hop of an AS-path: a single autonomous-system number, or an unordered
/// group (AS-set / confederation) of numbers in rendered order.
#[derive(Clone, Debug, Eq, PartialEq)]
pub enum PathEntry {
    As(ASN),
    Collection(Vec<ASN>),
}

/// Mathematical shape of a [`PathEntry`].
pub enum PathEntryView {
    As(ASN),
    Collection(Seq<ASN>),
}

impl View for PathEntry {
    type V = PathEntryView;

    open spec fn view(&self) -> PathEntryView {
        match self {
            PathEntry::As(n) => PathEntryView::As(*n),
            PathEntry::Collection(v) => PathEntryView::Collection(v@),
        }
    }
}

impl DeepView for PathEntry {
    type V = PathEntryView;

    open spec fn deep_view(&self) -> PathEntryView {
        self.view()
    }
}

/// Index of the first occurrence of `x` in `s`, or `-1` when `s` does not
/// contain it.
pub open spec fn find_first<A>(s: Seq<A>, x: A) -> int
    decreases s.len(),
{
    if s.len() == 0 {
        -1
    } else if s[0] == x {
        0
    } else if find_first(s.drop_first(), x) < 0 {
        -1
    } else {
        find_first(s.drop_first(), x) + 1
    }
}

pub proof fn lemma_find_first_at<A>(s: Seq<A>, x: A, j: int)
    requires
        0 <= j <= s.len(),
        forall|k: int| 0 <= k < j ==> s[k] != x,
        j < s.len() ==> s[j] == x,
    ensures
        j < s.len() ==> find_first(s, x) == j,
        j == s.len() ==> find_first(s, x) == -1,
    decreases s.len(),
{
    if s.len() == 0 {
    } else if j == 0 {
    } else {
        assert(s[0] != x);
        assert forall|k: int| 0 <= k < j - 1 implies s.drop_first()[k] != x by {
            assert(s.drop_first()[k] == s[k + 1]);
        }
        if j < s.len() {
            assert(s.drop_first()[j - 1] == s[j]);
        }
        lemma_find_first_at(s.drop_first(), x, j - 1);
    }
}

/// The pieces of `s` between occurrences of `sep`, in order; a sequence
/// without `sep` (the empty one included) is a single piece.
pub open spec fn split_seq<A>(s: Seq<A>, sep: A) -> Seq<Seq<A>>
    decreases s.len(),
{
    let i = find_first(s, sep);
    if 0 <= i < s.len() {
        seq![s.take(i)] + split_seq(s.skip(i + 1), sep)
    } else {
        seq![s]
    }
}

/// Unfolds `split_seq` at the first separator position `j` (or at the end,
/// when no separator occurs).
pub proof fn lemma_split_seq_step<A>(s: Seq<A>, sep: A, j: int)
    requires
        0 <= j <= s.len(),
        forall|k: int| 0 <= k < j ==> s[k] != sep,
        j < s.len() ==> s[j] == sep,
    ensures
        j < s.len() ==> split_seq(s, sep) == seq![s.take(j)] + split_seq(s.skip(j + 1), sep),
        j == s.len() ==> split_seq(s, sep) == seq![s],
{
    lemma_find_first_at(s, sep, j);
}

/// A scan that stands at piece `ti` of `subs`, with `rest` still to read and
/// the next separator at `j`, reads exactly `subs[ti]`; afterwards the pieces
/// of what remains are the pieces after `ti`.
proof fn lemma_split_consume<A>(subs: Seq<Seq<A>>, ti: int, rest: Seq<A>, sep: A, j: int)
    requires
        0 <= ti <= subs.len(),
        subs.skip(ti) == split_seq(rest, sep),
        0 <= j <= rest.len(),
        forall|k: int| 0 <= k < j ==> rest[k] != sep,
        j < rest.len() ==> rest[j] == sep,
    ensures
        ti < subs.len(),
        subs[ti] == rest.take(j),
        j < rest.len() ==> subs.skip(ti + 1) == split_seq(rest.skip(j + 1), sep),
        j == rest.len() ==> ti + 1 == subs.len(),
{
    lemma_split_seq_step(rest, sep, j);
    if j < rest.len() {
        let tail = split_seq(rest.skip(j + 1), sep);
        assert(subs.skip(ti).len() == 1 + tail.len());
        assert(subs.skip(ti)[0] == subs[ti]);
        assert((seq![rest.take(j)] + tail)[0] == rest.take(j));
        assert(subs.skip(ti + 1) =~= tail) by {
            assert(subs.skip(ti + 1).len() == tail.len());
            assert forall|m: int| 0 <= m < tail.len() implies subs.skip(ti + 1)[m] == tail[m] by {
                assert(subs.skip(ti + 1)[m] == subs[ti + 1 + m]);
                assert(subs.skip(ti)[m + 1] == subs[ti + 1 + m]);
                assert((seq![rest.take(j)] + tail)[m + 1] == tail[m]);
            }
        }
    } else {
        assert(subs.skip(ti).len() == 1);
        assert(subs.skip(ti)[0] == subs[ti]);
        assert(seq![rest][0] == rest);
        assert(rest.take(j) =~= rest);
    }
}

/// True for a decimal digit.
pub open spec fn is_digit(c: char) -> bool {
    48 <= c as u32 && c as u32 <= 57
}

/// Numeric value of a digit character.
pub open spec fn digit_val(c: char) -> int {
    c as u32 - 48
}

pub open spec fn all_digits(s: Seq<char>) -> bool {
    forall|i: int| 0 <= i < s.len() ==> is_digit(#[trigger] s[i])
}

/// Value of a digit string read in base ten.
pub open spec fn digits_val(s: Seq<char>) -> int
    decreases s.len(),
{
    if s.len() == 0 {
        0
    } else {
        digits_val(s.drop_last()) * 10 + digit_val(s.last())
    }
}

/// A leading plus sign, if any, removed.
pub open spec fn strip_sign(s: Seq<char>) -> Seq<char> {
    if s.len() > 0 && s[0] == '+' {
        s.drop_first()
    } else {
        s
    }
}

/// The number a token denotes, exactly as `u32::from_str` accepts it: an
/// optional leading plus sign, then at least one decimal digit, the value
/// fitting in `u32`; `None` otherwise.
pub open spec fn parse_u32(s: Seq<char>) -> Option<u32> {
    let d = strip_sign(s);
    if d.len() > 0 && all_digits(d) && digits_val(d) <= u32::MAX {
        Some(digits_val(d) as u32)
    } else {
        None
    }
}

proof fn lemma_digits_val_nonneg(s: Seq<char>)
    requires
        all_digits(s),
    ensures
        digits_val(s) >= 0,
    decreases s.len(),
{
    if s.len() > 0 {
        assert(all_digits(s.drop_last())) by {
            assert forall|i: int| 0 <= i < s.drop_last().len() implies is_digit(
                #[trigger] s.drop_last()[i],
            ) by {
                assert(s.drop_last()[i] == s[i]);
            }
        }
        lemma_digits_val_nonneg(s.drop_last());
        assert(is_digit(s.last()));
    }
}

/// A digit string is worth at least any of its prefixes.
proof fn lemma_digits_val_prefix_le(s: Seq<char>, k: int)
    requires
        all_digits(s),
        0 <= k <= s.len(),
    ensures
        digits_val(s.take(k)) <= digits_val(s),
    decreases s.len() - k,
{
    if k == s.len() {
        assert(s.take(k) =~= s);
    } else {
        assert(s.take(k + 1).drop_last() =~= s.take(k));
        assert(s.take(k + 1).last() == s[k]);
        assert(all_digits(s.take(k))) by {
            assert forall|i: int| 0 <= i < s.take(k).len() implies is_digit(
                #[trigger] s.take(k)[i],
            ) by {
                assert(s.take(k)[i] == s[i]);
            }
        }
        lemma_digits_val_nonneg(s.take(k));
        assert(is_digit(s[k]));
        assert(digits_val(s.take(k + 1)) >= digits_val(s.take(k)));
        lemma_digits_val_prefix_le(s, k + 1);
    }
}

/// Parses `chars[lo..hi]` as `u32::from_str` would.
fn parse_u32_range(chars: &Vec<char>, lo: usize, hi: usize) -> (r: Option<u32>)
    requires
        lo <= hi <= chars@.len(),
    ensures
        r == parse_u32(chars@.subrange(lo as int, hi as int)),
{
    let ghost tok = chars@.subrange(lo as int, hi as int);
    let mut i: usize = lo;
    if i < hi && chars[i] == '+' {
        i = i + 1;
    }
    let ghost d = strip_sign(tok);
    proof {
        assert(d =~= chars@.subrange(i as int, hi as int));
    }
    if i == hi {
        return None;
    }
    let ghost base = i as int;
    let mut acc: u64 = 0;
    while i < hi
        invariant
            lo <= base <= i <= hi <= chars@.len(),
            d == strip_sign(chars@.subrange(lo as int, hi as int)),
            d =~= chars@.subrange(base, hi as int),
            d.len() == hi - base > 0,
            acc <= u32::MAX,
            acc as int == digits_val(d.take(i - base)),
            all_digits(d.take(i - base)),
        decreases hi - i,
    {
        let c = chars[i];
        let cv = c as u32;
        if cv < 48 || cv > 57 {
            assert(d[i - base] == c);
            assert(!is_digit(d[i - base]));
            return None;
        }
        proof {
            assert(d.take(i - base + 1).drop_last() =~= d.take(i - base));
            assert(d.take(i - base + 1).last() == d[i - base]);
            assert(d[i - base] == c);
        }
        acc = acc * 10 + (cv - 48) as u64;
        if acc > 0xFFFF_FFFF {
            proof {
                if all_digits(d) && digits_val(d) <= u32::MAX {
                    lemma_digits_val_prefix_le(d, i - base + 1);
                }
            }
            return None;
        }
        i = i + 1;
    }
    proof {
        assert(d.take(i - base) =~= d);
    }
    Some(acc as u32)
}

/// True for a character that opens a group hop.
pub open spec fn is_group_open(c: char) -> bool {
    c == '{' || c == '[' || c == '('
}

/// True for any grouping delimiter, opening or closing.
pub open spec fn is_group_delim(c: char) -> bool {
    is_group_open(c) || c == '}' || c == ']' || c == ')'
}

/// `s` with every leading grouping delimiter removed.
pub open spec fn trim_leading(s: Seq<char>) -> Seq<char>
    decreases s.len(),
{
    if s.len() > 0 && is_group_delim(s[0]) {
        trim_leading(s.drop_first())
    } else {
        s
    }
}

/// `s` with every trailing grouping delimiter removed.
pub open spec fn trim_trailing(s: Seq<char>) -> Seq<char>
    decreases s.len(),
{
    if s.len() > 0 && is_group_delim(s.last()) {
        trim_trailing(s.drop_last())
    } else {
        s
    }
}

/// `s` with grouping delimiters removed from both ends.
pub open spec fn trim_group_delims(s: Seq<char>) -> Seq<char> {
    trim_trailing(trim_leading(s))
}

/// The numbers of a group hop, one per comma-separated piece; `None` when any
/// piece is not a number.
pub open spec fn parse_group(subs: Seq<Seq<char>>) -> Option<Seq<ASN>> {
    if forall|i: int| 0 <= i < subs.len() ==> parse_u32(#[trigger] subs[i]) is Some {
        Some(Seq::new(subs.len(), |i: int| parse_u32(subs[i])->Some_0))
    } else {
        None
    }
}

/// The path entry one space-separated token denotes: a token opening with a
/// grouping delimiter is a group (delimiters trimmed from both ends, the rest
/// split on commas), any other token a single number.
pub open spec fn parse_entry(tok: Seq<char>) -> Option<PathEntryView> {
    if tok.len() > 0 && is_group_open(tok[0]) {
        match parse_group(split_seq(trim_group_delims(tok), ',')) {
            Some(ns) => Some(PathEntryView::Collection(ns)),
            None => None,
        }
    } else {
        match parse_u32(tok) {
            Some(n) => Some(PathEntryView::As(n)),
            None => None,
        }
    }
}

/// The decoded AS-path of rendered path text: one entry per space-separated
/// token, in order; `None` when any token fails to parse.
pub open spec fn spec_as_path_from_str(s: Seq<char>) -> Option<Seq<PathEntryView>> {
    let toks = split_seq(s, ' ');
    if forall|i: int| 0 <= i < toks.len() ==> parse_entry(#[trigger] toks[i]) is Some {
        Some(Seq::new(toks.len(), |i: int| parse_entry(toks[i])->Some_0))
    } else {
        None
    }
}

fn is_delim_char(c: char) -> (b: bool)
    ensures
        b == is_group_delim(c),
{
    c == '{' || c == '[' || c == '(' || c == '}' || c == ']' || c == ')'
}

/// First position of `sep` in `chars[lo..hi]`, or `hi` when it does not occur.
fn find_sep(chars: &Vec<char>, lo: usize, hi: usize, sep: char) -> (j: usize)
    requires
        lo <= hi <= chars@.len(),
    ensures
        lo <= j <= hi,
        forall|k: int| lo <= k < j ==> chars@[k] != sep,
        j < hi ==> chars@[j as int] == sep,
{
    let mut j = lo;
    while j < hi
        invariant
            lo <= j <= hi <= chars@.len(),
            forall|k: int| lo <= k < j ==> chars@[k] != sep,
        decreases hi - j,
    {
        if chars[j] == sep {
            return j;
        }
        j = j + 1;
    }
    j
}

/// Moves `lo` past every leading grouping delimiter of `chars[lo..hi]`.
fn trim_front(chars: &Vec<char>, lo: usize, hi: usize) -> (r: usize)
    requires
        lo <= hi <= chars@.len(),
    ensures
        lo <= r <= hi,
        trim_leading(chars@.subrange(lo as int, hi as int)) == chars@.subrange(
            r as int,
            hi as int,
        ),
{
    let mut r = lo;
    while r < hi
        invariant
            lo <= r <= hi <= chars@.len(),
            trim_leading(chars@.subrange(lo as int, hi as int)) == trim_leading(
                chars@.subrange(r as int, hi as int),
            ),
        decreases hi - r,
    {
        let ghost sub = chars@.subrange(r as int, hi as int);
        if !is_delim_char(chars[r]) {
            proof {
                assert(sub[0] == chars@[r as int]);
            }
            return r;
        }
        proof {
            assert(sub[0] == chars@[r as int]);
            assert(sub.drop_first() =~= chars@.subrange(r + 1, hi as int));
        }
        r = r + 1;
    }
    proof {
        assert(chars@.subrange(r as int, hi as int).len() == 0);
    }
    r
}

/// Moves `hi` back past every trailing grouping delimiter of `chars[lo..hi]`.
fn trim_back(chars: &Vec<char>, lo: usize, hi: usize) -> (r: usize)
    requires
        lo <= hi <= chars@.len(),
    ensures
        lo <= r <= hi,
        trim_trailing(chars@.subrange(lo as int, hi as int)) == chars@.subrange(
            lo as int,
            r as int,
        ),
{
    let mut r = hi;
    while r > lo
        invariant
            lo <= r <= hi <= chars@.len(),
            trim_trailing(chars@.subrange(lo as int, hi as int)) == trim_trailing(
                chars@.subrange(lo as int, r as int),
            ),
        decreases r - lo,
    {
        let ghost sub = chars@.subrange(lo as int, r as int);
        if !is_delim_char(chars[r - 1]) {
            proof {
                assert(sub.last() == chars@[r - 1]);
            }
            return r;
        }
        proof {
            assert(sub.last() == chars@[r - 1]);
            assert(sub.drop_last() =~= chars@.subrange(lo as int, r - 1));
        }
        r = r - 1;
    }
    proof {
        assert(chars@.subrange(lo as int, r as int).len() == 0);
    }
    r
}

/// Parses the comma-separated numbers of `chars[lo..hi]`, the inside of a
/// group hop.
fn parse_group_range(chars: &Vec<char>, lo: usize, hi: usize) -> (r: Option<Vec<ASN>>)
    requires
        lo <= hi <= chars@.len(),
    ensures
        match parse_group(split_seq(chars@.subrange(lo as int, hi as int), ',')) {
            Some(ns) => r matches Some(v) && v@ == ns,
            None => r is None,
        },
{
    let ghost t = chars@.subrange(lo as int, hi as int);
    let ghost subs = split_seq(t, ',');
    let mut res: Vec<ASN> = Vec::new();
    let mut start = lo;
    let ghost mut ti: int = 0;
    loop
        invariant
            lo <= start <= hi <= chars@.len(),
            t == chars@.subrange(lo as int, hi as int),
            subs == split_seq(t, ','),
            0 <= ti <= subs.len(),
            split_seq(chars@.subrange(start as int, hi as int), ',') == subs.skip(ti),
            res@.len() == ti,
            forall|k: int| 0 <= k < ti ==> parse_u32(#[trigger] subs[k]) is Some,
            forall|k: int| 0 <= k < ti ==> res@[k] == parse_u32(#[trigger] subs[k])->Some_0,
        decreases hi - start,
    {
        let j = find_sep(chars, start, hi, ',');
        let ghost rest = chars@.subrange(start as int, hi as int);
        proof {
            assert forall|k: int| 0 <= k < j - start implies rest[k] != ',' by {
                assert(rest[k] == chars@[start + k]);
            }
            if j < hi {
                assert(rest[j - start] == chars@[j as int]);
            }
            lemma_split_consume(subs, ti, rest, ',', j - start);
            assert(rest.take(j - start) =~= chars@.subrange(start as int, j as int));
            if j < hi {
                assert(rest.skip(j - start + 1) =~= chars@.subrange(j + 1, hi as int));
            }
        }
        match parse_u32_range(chars, start, j) {
            None => {
                proof {
                    assert(parse_u32(subs[ti]) is None);
                }
                return None;
            },
            Some(n) => {
                proof {
                    assert(parse_u32(subs[ti]) == Some(n));
                }
                let ghost prev = res@;
                res.push(n);
                proof {
                    ti = ti + 1;
                    assert forall|k: int|
                        0 <= k < ti implies parse_u32(#[trigger] subs[k]) is Some && res@[k]
                        == parse_u32(subs[k])->Some_0 by {
                        if k < ti - 1 {
                            assert(res@[k] == prev[k]);
                        } else {
                            assert(res@[k] == n);
                        }
                    }
                }
            },
        }
        if j == hi {
            proof {
                assert(ti == subs.len());
                assert(Seq::new(subs.len(), |i: int| parse_u32(subs[i])->Some_0) =~= res@);
            }
            return Some(res);
        }
        start = j + 1;
    }
}

/// Parses one space-separated token, `chars[lo..hi]`, into a path entry.
fn parse_entry_range(chars: &Vec<char>, lo: usize, hi: usize) -> (r: Option<PathEntry>)
    requires
        lo <= hi <= chars@.len(),
    ensures
        match parse_entry(chars@.subrange(lo as int, hi as int)) {
            Some(ev) => r matches Some(e) && e@ == ev,
            None => r is None,
        },
{
    let ghost tok = chars@.subrange(lo as int, hi as int);
    if lo < hi && {
        let c = chars[lo];
        c == '{' || c == '[' || c == '('
    } {
        proof {
            assert(tok[0] == chars@[lo as int]);
            assert(is_group_open(tok[0]));
        }
        let tlo = trim_front(chars, lo, hi);
        let thi = trim_back(chars, tlo, hi);
        proof {
            assert(trim_group_delims(tok) == chars@.subrange(tlo as int, thi as int));
        }
        match parse_group_range(chars, tlo, thi) {
            Some(ns) => Some(PathEntry::Collection(ns)),
            None => None,
        }
    } else {
        proof {
            if tok.len() > 0 {
                assert(tok[0] == chars@[lo as int]);
            }
        }
        match parse_u32_range(chars, lo, hi) {
            Some(n) => Some(PathEntry::As(n)),
            None => None,
        }
    }
}

/// Decodes rendered AS-path text into its entries, in token order.
///
/// Tokens are separated by single spaces; a token opening with `{`, `[` or
/// `(` is a group: delimiters are trimmed from both ends and the remainder is
/// split on commas, every piece a number. Any token or piece that is not a
/// valid number fails the whole decode.
pub fn as_path_from_str(path_str: &str) -> (r: Result<Vec<PathEntry>, ElementError>)
    ensures
        match spec_as_path_from_str(path_str@) {
            Some(es) => r matches Ok(v) && v.deep_view() == es,
            None => r matches Err(e) && e@ == ElementErrorView::AsnParseError,
        },
{
    let n = path_str.unicode_len();
    let mut chars: Vec<char> = Vec::new();
    let mut i: usize = 0;
    while i < n
        invariant
            i <= n,
            n == path_str@.len(),
            chars@ == path_str@.take(i as int),
        decreases n - i,
    {
        let c = path_str.get_char(i);
        chars.push(c);
        proof {
            assert(path_str@.take(i as int).push(path_str@[i as int]) =~= path_str@.take(
                i + 1,
            ));
        }
        i = i + 1;
    }
    proof {
        assert(path_str@.take(n as int) =~= path_str@);
    }
    let ghost s = path_str@;
    let ghost toks = split_seq(s, ' ');
    let mut res: Vec<PathEntry> = Vec::new();
    let mut start: usize = 0;
    let ghost mut ti: int = 0;
    loop
        invariant
            start <= n <= chars@.len(),
            s == path_str@,
            n == s.len(),
            chars@ == s,
            toks == split_seq(s, ' '),
            0 <= ti <= toks.len(),
            split_seq(s.subrange(start as int, n as int), ' ') == toks.skip(ti),
            res@.len() == ti,
            forall|k: int| 0 <= k < ti ==> parse_entry(#[trigger] toks[k]) is Some,
            forall|k: int|
                0 <= k < ti ==> res.deep_view()[k] == parse_entry(#[trigger] toks[k])->Some_0,
        decreases n - start,
    {
        let j = find_sep(&chars, start, n, ' ');
        let ghost rest = s.subrange(start as int, n as int);
        proof {
            assert forall|k: int| 0 <= k < j - start implies rest[k] != ' ' by {
                assert(rest[k] == s[start + k]);
            }
            if j < n {
                assert(rest[j - start] == s[j as int]);
            }
            lemma_split_consume(toks, ti, rest, ' ', j - start);
            assert(rest.take(j - start) =~= s.subrange(start as int, j as int));
            if j < n {
                assert(rest.skip(j - start + 1) =~= s.subrange(j + 1, n as int));
            }
        }
        match parse_entry_range(&chars, start, j) {
            None => {
                proof {
                    assert(parse_entry(toks[ti]) is None);
                }
                return Err(ElementError::AsnParseError);
            },
            Some(e) => {
                proof {
                    assert(parse_entry(toks[ti]) == Some(e.deep_view()));
                }
                let ghost prev = res@;
                let ghost prev_dv = res.deep_view();
                let ghost ev = e.deep_view();
                res.push(e);
                proof {
                    ti = ti + 1;
                    assert forall|k: int|
                        0 <= k < ti implies parse_entry(#[trigger] toks[k]) is Some
                        && res.deep_view()[k] == parse_entry(toks[k])->Some_0 by {
                        assert(res.deep_view()[k] == res@[k].deep_view());
                        if k < ti - 1 {
                            assert(res@[k] == prev[k]);
                            assert(prev_dv[k] == prev[k].deep_view());
                        } else {
                            assert(res@[k] == e);
                        }
                    }
                }
            },
        }
        if j == n {
            proof {
                assert(ti == toks.len());
                assert(Seq::new(toks.len(), |i: int| parse_entry(toks[i])->Some_0)
                    =~= res.deep_view());
            }
            return Ok(res);
        }
        start = j + 1;
    }
}

} // verus!
