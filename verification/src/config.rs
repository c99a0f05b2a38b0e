//! Reading list-valued settings.

use vstd::prelude::*;
use vstd::string::*;

verus! {

/// Whether `c` has the Unicode `White_Space` property (PropList.txt), which
/// `char::is_whitespace` decides: U+0009 to U+000D, U+0020, U+0085, U+00A0, U+1680,
/// U+2000 to U+200A, U+2028, U+2029, U+202F, U+205F and U+3000.
pub open spec fn is_white_space(c: char) -> bool {
    let u = c as u32;
    ||| 0x09 <= u <= 0x0D
    ||| u == 0x20 || u == 0x85 || u == 0xA0 || u == 0x1680
    ||| 0x2000 <= u <= 0x200A
    ||| u == 0x2028 || u == 0x2029 || u == 0x202F || u == 0x205F || u == 0x3000
}

/// Calls `char::is_whitespace`, which std documents as the Unicode `White_Space`
/// property; the contract states that set of code points.
#[verifier::external_body]
fn char_is_whitespace(c: char) -> (r: bool)
    ensures
        r == is_white_space(c),
{
    c.is_whitespace()
}

/// The fields of `s` between commas, as `str::split(',')` yields them (one empty
/// field for an empty string).
pub open spec fn spec_fields(s: Seq<char>) -> Seq<Seq<char>>
    decreases s.len(),
{
    if s.len() == 0 {
        seq![Seq::<char>::empty()]
    } else {
        let f = spec_fields(s.drop_last());
        if s.last() == ',' {
            f.push(Seq::<char>::empty())
        } else {
            f.update(f.len() - 1, f.last().push(s.last()))
        }
    }
}

pub open spec fn trim_start(s: Seq<char>) -> Seq<char>
    decreases s.len(),
{
    if s.len() > 0 && is_white_space(s[0]) { trim_start(s.drop_first()) } else { s }
}

pub open spec fn trim_end(s: Seq<char>) -> Seq<char>
    decreases s.len(),
{
    if s.len() > 0 && is_white_space(s.last()) { trim_end(s.drop_last()) } else { s }
}

/// `s` without leading and trailing whitespace, as `str::trim` gives it.
pub open spec fn spec_trim(s: Seq<char>) -> Seq<char> {
    trim_end(trim_start(s))
}

pub open spec fn non_empty() -> spec_fn(Seq<char>) -> bool {
    |f: Seq<char>| f.len() > 0
}

pub open spec fn trimmed() -> spec_fn(Seq<char>) -> Seq<char> {
    |f: Seq<char>| spec_trim(f)
}

/// The entries of a comma-separated list: each field trimmed, empty ones dropped.
pub open spec fn spec_list_entries(s: Seq<char>) -> Seq<Seq<char>> {
    spec_fields(s).map_values(trimmed()).filter(non_empty())
}

proof fn lemma_fields_nonempty(s: Seq<char>)
    ensures
        spec_fields(s).len() > 0,
    decreases s.len(),
{
    if s.len() > 0 {
        lemma_fields_nonempty(s.drop_last());
    }
}

/// The part of `s[a..b]` that `str::trim` keeps, as `(start, end)` indices.
fn trim_bounds(s: &str, a: usize, b: usize) -> (r: (usize, usize))
    requires
        a <= b <= s@.len(),
    ensures
        a <= r.0 <= r.1 <= b,
        s@.subrange(r.0 as int, r.1 as int) == spec_trim(s@.subrange(a as int, b as int)),
{
    let mut lo = a;
    while lo < b && char_is_whitespace(s.get_char(lo))
        invariant
            a <= lo <= b <= s@.len(),
            trim_start(s@.subrange(a as int, b as int)) == trim_start(s@.subrange(lo as int, b as int)),
        decreases b - lo,
    {
        assert(s@.subrange(lo as int, b as int).drop_first() =~= s@.subrange(lo as int + 1, b as int));
        lo = lo + 1;
    }
    assert(trim_start(s@.subrange(lo as int, b as int)) == s@.subrange(lo as int, b as int));
    let mut hi = b;
    while hi > lo && char_is_whitespace(s.get_char(hi - 1))
        invariant
            a <= lo <= hi <= b <= s@.len(),
            trim_end(s@.subrange(lo as int, b as int)) == trim_end(s@.subrange(lo as int, hi as int)),
        decreases hi - lo,
    {
        assert(s@.subrange(lo as int, hi as int).drop_last() =~= s@.subrange(lo as int, hi as int - 1));
        hi = hi - 1;
    }
    assert(trim_end(s@.subrange(lo as int, hi as int)) == s@.subrange(lo as int, hi as int));
    (lo, hi)
}

/// Reads a comma-separated list: splits at each `,`, trims whitespace from each
/// entry, and drops the entries left empty.
pub fn parse_origins(s: &str) -> (entries: Vec<String>)
    ensures
        entries@.len() == spec_list_entries(s@).len(),
        forall|k: int| 0 <= k < entries@.len() ==> #[trigger] entries@[k]@ == spec_list_entries(s@)[k],
{
    let n = s.unicode_len();
    let mut out: Vec<String> = Vec::new();
    let mut start: usize = 0;
    let mut i: usize = 0;
    let ghost mut done: Seq<Seq<char>> = Seq::empty();
    assert(s@.subrange(0, 0) =~= Seq::<char>::empty());
    assert(done.push(s@.subrange(0, 0)) =~= seq![Seq::<char>::empty()]);
    while i < n
        invariant
            start <= i <= n,
            n == s@.len(),
            spec_fields(s@.subrange(0, i as int)) == done.push(s@.subrange(start as int, i as int)),
            out@.len() == done.map_values(trimmed()).filter(non_empty()).len(),
            forall|k: int| 0 <= k < out@.len() ==> #[trigger] out@[k]@ == done.map_values(trimmed()).filter(non_empty())[k],
        decreases n - i,
    {
        let c = s.get_char(i);
        let ghost pre = s@.subrange(0, i as int);
        assert(s@.subrange(0, i as int + 1).drop_last() =~= pre);
        assert(s@.subrange(0, i as int + 1).last() == c);
        if c == ',' {
            let (lo, hi) = trim_bounds(s, start, i);
            let ghost field = s@.subrange(start as int, i as int);
            let ghost kept = done.map_values(trimmed()).filter(non_empty());
            proof {
                done.lemma_push_map_commute(trimmed(), field);
                done.map_values(trimmed()).lemma_filter_push(spec_trim(field), non_empty());
            }
            if hi > lo {
                out.push(String::from_str(s.substring_char(lo, hi)));
            }
            proof {
                done = done.push(field);
                assert(s@.subrange(i as int + 1, i as int + 1) =~= Seq::<char>::empty());
            }
            start = i + 1;
        } else {
            proof {
                lemma_fields_nonempty(pre);
                assert(s@.subrange(start as int, i as int + 1) =~= s@.subrange(start as int, i as int).push(c));
            }
        }
        i = i + 1;
    }
    assert(s@.subrange(0, n as int) =~= s@);
    let (lo, hi) = trim_bounds(s, start, n);
    let ghost field = s@.subrange(start as int, n as int);
    proof {
        done.lemma_push_map_commute(trimmed(), field);
        done.map_values(trimmed()).lemma_filter_push(spec_trim(field), non_empty());
    }
    if hi > lo {
        out.push(String::from_str(s.substring_char(lo, hi)));
    }
    out
}

} // verus!
