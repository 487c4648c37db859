//! From the parameters of a request to the parameters of a search.

use crate::package::SearchParams;
use crate::text::{same_bytes, same_bytes_ignoring_case, same_ignoring_ascii_case, same_text};
use vstd::prelude::*;
use vstd::string::StringSliceAdditionalSpecFns;
use vstd::utf8::encode_utf8;

verus! {

/// The page limit of a request that names none, or none that is a number.
pub const DEFAULT_LIMIT: i32 = 50;

/// The offset of a request that names none, or none that is a number.
pub const DEFAULT_OFFSET: i32 = 0;

/// Whether a byte is a decimal digit.
pub open spec fn is_digit(b: u8) -> bool {
    0x30 <= b <= 0x39
}

/// Whether every byte is a decimal digit.
pub open spec fn all_digits(text: Seq<u8>) -> bool {
    forall|i: int| 0 <= i < text.len() ==> is_digit(#[trigger] text[i])
}

/// The number that a run of decimal digits writes.
pub open spec fn digits_value(text: Seq<u8>) -> int
    decreases text.len(),
{
    if text.len() == 0 {
        0
    } else {
        digits_value(text.drop_last()) * 10 + (text.last() - 0x30)
    }
}

/// The 32-bit integer that a text writes in decimal: an optional sign `+` or
/// `-`, then one digit or more, and nothing else. `None` for any other text
/// and for a number that does not fit 32 bits.
pub open spec fn parsed_i32(text: Seq<u8>) -> Option<int> {
    let negative = text.len() > 0 && text[0] == 0x2d;
    let signed = text.len() > 0 && (text[0] == 0x2d || text[0] == 0x2b);
    let digits = if signed {
        text.skip(1)
    } else {
        text
    };
    let value = if negative {
        -digits_value(digits)
    } else {
        digits_value(digits)
    };
    if digits.len() > 0 && all_digits(digits) && i32::MIN <= value <= i32::MAX {
        Some(value)
    } else {
        None
    }
}

/// Whether a text switches a flag on: it is `1`, or `true` or `yes` in any
/// mix of upper and lower case.
pub open spec fn is_truthy(text: Seq<u8>) -> bool {
    ||| text == seq![0x31u8]
    ||| same_ignoring_ascii_case(text, seq![0x74u8, 0x72u8, 0x75u8, 0x65u8])
    ||| same_ignoring_ascii_case(text, seq![0x79u8, 0x65u8, 0x73u8])
}

/// More digits never write a smaller number.
pub proof fn lemma_digits_value_grows(text: Seq<u8>, n: int)
    requires
        all_digits(text),
        0 <= n <= text.len(),
    ensures
        0 <= digits_value(text.take(n)) <= digits_value(text),
    decreases text.len() - n,
{
    if n == text.len() {
        assert(text.take(n) =~= text);
        lemma_digits_value_is_natural(text);
    } else {
        lemma_digits_value_grows(text, n + 1);
        assert(text.take(n + 1).drop_last() =~= text.take(n));
        assert(is_digit(text[n]));
        assert(text.take(n + 1).last() == text[n]);
        lemma_digits_value_is_natural(text.take(n));
    }
}

/// A run of digits writes no negative number.
pub proof fn lemma_digits_value_is_natural(text: Seq<u8>)
    requires
        all_digits(text),
    ensures
        0 <= digits_value(text),
    decreases text.len(),
{
    if text.len() > 0 {
        assert(is_digit(text.last()));
        assert forall|i: int| 0 <= i < text.drop_last().len() implies is_digit(
            #[trigger] text.drop_last()[i],
        ) by {
            assert(text.drop_last()[i] == text[i]);
        }
        lemma_digits_value_is_natural(text.drop_last());
    }
}

/// Reads a 32-bit integer in decimal.
pub fn parse_i32(text: &str) -> (r: Option<i32>)
    ensures
        match r {
            Some(n) => parsed_i32(text.spec_bytes()) == Some(n as int),
            None => parsed_i32(text.spec_bytes()) is None,
        },
{
    let bytes = text.as_bytes();
    let n = bytes.len();
    if n == 0 {
        return None;
    }
    let negative = bytes[0] == 0x2d;
    let start: usize = if bytes[0] == 0x2d || bytes[0] == 0x2b {
        1
    } else {
        0
    };
    if start == n {
        return None;
    }
    let ghost digits = bytes@.skip(start as int);
    proof {
        assert(bytes@.skip(0) =~= bytes@);
    }
    let mut acc: i64 = 0;
    let mut i: usize = start;
    while i < n
        invariant
            start <= i <= n,
            start < n,
            n == bytes.len(),
            bytes@ == text.spec_bytes(),
            negative == (bytes@[0] == 0x2d),
            start == (if bytes@[0] == 0x2d || bytes@[0] == 0x2b {
                1int
            } else {
                0int
            }),
            digits == bytes@.skip(start as int),
            all_digits(digits.take(i - start)),
            acc == digits_value(digits.take(i - start)),
            0 <= acc <= 0x8000_0000,
        decreases n - i,
    {
        let b = bytes[i];
        proof {
            assert(digits[i - start] == b);
            assert(digits.take(i - start + 1).drop_last() =~= digits.take(i - start));
            assert(digits.take(i - start + 1).last() == b);
        }
        if !(0x30 <= b && b <= 0x39) {
            proof {
                assert(bytes@.skip(0) =~= bytes@);
                assert(!is_digit(digits[i - start]));
            }
            return None;
        }
        acc = acc * 10 + (b - 0x30) as i64;
        proof {
            assert(acc == digits_value(digits.take(i - start + 1)));
            assert forall|j: int| 0 <= j < i - start + 1 implies is_digit(
                #[trigger] digits.take(i - start + 1)[j],
            ) by {
                if j < i - start {
                    assert(digits.take(i - start)[j] == digits.take(i - start + 1)[j]);
                }
            }
        }
        if acc > 0x8000_0000 {
            proof {
                assert(bytes@.skip(0) =~= bytes@);
                if all_digits(digits) {
                    lemma_digits_value_grows(digits, i - start + 1);
                    assert(digits_value(digits) > 0x8000_0000);
                }
            }
            return None;
        }
        i += 1;
    }
    proof {
        assert(digits.take(n - start) =~= digits);
        assert(bytes@.skip(0) =~= bytes@);
    }
    if negative {
        Some((-acc) as i32)
    } else if acc <= 0x7fff_ffff {
        Some(acc as i32)
    } else {
        None
    }
}

/// Whether a text switches a flag on.
pub fn is_truthy_flag(text: &str) -> (r: bool)
    ensures
        r == is_truthy(text.spec_bytes()),
{
    let bytes = text.as_bytes();
    let one: [u8; 1] = [0x31];
    let word_true: [u8; 4] = [0x74, 0x72, 0x75, 0x65];
    let word_yes: [u8; 3] = [0x79, 0x65, 0x73];
    assert(one@ =~= seq![0x31u8]);
    assert(word_true@ =~= seq![0x74u8, 0x72u8, 0x75u8, 0x65u8]);
    assert(word_yes@ =~= seq![0x79u8, 0x65u8, 0x73u8]);
    same_bytes(bytes, one.as_slice()) || same_bytes_ignoring_case(bytes, word_true.as_slice())
        || same_bytes_ignoring_case(bytes, word_yes.as_slice())
}

/// The parameters of a request: names and their values. A name that is put
/// twice keeps the value that was put last.
#[derive(Debug, Clone, PartialEq, Eq)]
pub struct QueryParams {
    entries: Vec<(String, String)>,
}

/// The map that a list of entries stands for.
pub open spec fn entries_map(entries: Seq<(String, String)>) -> Map<Seq<char>, Seq<char>>
    decreases entries.len(),
{
    if entries.len() == 0 {
        Map::empty()
    } else {
        entries_map(entries.drop_last()).insert(entries.last().0@, entries.last().1@)
    }
}

impl View for QueryParams {
    type V = Map<Seq<char>, Seq<char>>;

    closed spec fn view(&self) -> Map<Seq<char>, Seq<char>> {
        entries_map(self.entries@)
    }
}

impl QueryParams {
    /// No parameters.
    pub fn new() -> (r: QueryParams)
        ensures
            r@ == Map::<Seq<char>, Seq<char>>::empty(),
    {
        QueryParams { entries: Vec::new() }
    }

    /// Puts `value` under `key`, in place of any value that `key` had.
    pub fn insert(&mut self, key: String, value: String)
        ensures
            final(self)@ == old(self)@.insert(key@, value@),
    {
        let ghost before = self.entries@;
        self.entries.push((key, value));
        assert(self.entries@.drop_last() =~= before);
    }

    /// The value under `key`.
    pub fn get(&self, key: &str) -> (r: Option<&String>)
        ensures
            match r {
                Some(value) => self@.contains_key(key@) && self@[key@] == value@,
                None => !self@.contains_key(key@),
            },
    {
        let mut i: usize = self.entries.len();
        assert(self.entries@.take(i as int) =~= self.entries@);
        while i > 0
            invariant
                i <= self.entries.len(),
                self@.contains_key(key@) <==> entries_map(self.entries@.take(i as int)).contains_key(
                    key@,
                ),
                self@.contains_key(key@) ==> self@[key@] == entries_map(
                    self.entries@.take(i as int),
                )[key@],
            decreases i,
        {
            i -= 1;
            proof {
                assert(self.entries@.take(i + 1).drop_last() =~= self.entries@.take(i as int));
                assert(self.entries@.take(i + 1).last() == self.entries@[i as int]);
            }
            if same_text(self.entries[i].0.as_str(), key) {
                return Some(&self.entries[i].1);
            }
        }
        None
    }
}

/// The value under `key` of an optional set of parameters.
pub open spec fn lookup(params: Option<QueryParams>, key: Seq<char>) -> Option<Seq<char>> {
    match params {
        Some(p) => if p@.contains_key(key) {
            Some(p@[key])
        } else {
            None
        },
        None => None,
    }
}

/// The text under `key`, or the empty text.
pub open spec fn text_param(params: Option<QueryParams>, key: Seq<char>) -> Seq<char> {
    match lookup(params, key) {
        Some(value) => value,
        None => Seq::empty(),
    }
}

/// The number under `key`, or `absent` where there is none or it is no
/// 32-bit integer in decimal.
pub open spec fn number_param(params: Option<QueryParams>, key: Seq<char>, absent: int) -> int {
    match lookup(params, key) {
        Some(value) => match parsed_i32(encode_utf8(value)) {
            Some(n) => n,
            None => absent,
        },
        None => absent,
    }
}

/// Whether the value under `key` switches a flag on.
pub open spec fn flag_param(params: Option<QueryParams>, key: Seq<char>) -> bool {
    match lookup(params, key) {
        Some(value) => is_truthy(encode_utf8(value)),
        None => false,
    }
}

/// The value under `key`, for a caller that has the parameters or not.
fn value_of<'a>(params: &'a Option<QueryParams>, key: &str) -> (r: Option<&'a String>)
    ensures
        match r {
            Some(value) => lookup(*params, key@) == Some(value@),
            None => lookup(*params, key@) is None,
        },
{
    match params {
        Some(p) => p.get(key),
        None => None,
    }
}

/// The number under `key`, or `absent`.
fn number_of(params: &Option<QueryParams>, key: &str, absent: i32) -> (r: i32)
    ensures
        r == number_param(*params, key@, absent as int),
{
    match value_of(params, key) {
        Some(value) => match parse_i32(value.as_str()) {
            Some(n) => n,
            None => absent,
        },
        None => absent,
    }
}

/// Whether the value under `key` switches a flag on.
fn flag_of(params: &Option<QueryParams>, key: &str) -> (r: bool)
    ensures
        r == flag_param(*params, key@),
{
    match value_of(params, key) {
        Some(value) => is_truthy_flag(value.as_str()),
        None => false,
    }
}

/// A copy of the value under `key`.
fn copy_of(params: &Option<QueryParams>, key: &str) -> (r: Option<String>)
    ensures
        r.deep_view() == lookup(*params, key@),
{
    match value_of(params, key) {
        Some(value) => Some(value.clone()),
        None => None,
    }
}

/// Reads the parameters of a search from those of a request: the query `q`,
/// `limit` and `offset`, the filters `license` and `category`, and the flags
/// `include_broken` and `include_unfree`, in that order.
///
/// A request without a `q` asks for the empty query. A limit or an offset
/// that is missing, or is no 32-bit integer in decimal, is 50 or 0. A filter
/// that is missing is none. A flag is on where its value is `1`, or `true`
/// or `yes` in any mix of case, and off otherwise.
pub fn extract_query_params(params: &Option<QueryParams>) -> (r: (
    String,
    i32,
    i32,
    Option<String>,
    Option<String>,
    bool,
    bool,
))
    ensures
        r.0@ == text_param(*params, "q"@),
        r.1 == number_param(*params, "limit"@, DEFAULT_LIMIT as int),
        r.2 == number_param(*params, "offset"@, DEFAULT_OFFSET as int),
        r.3.deep_view() == lookup(*params, "license"@),
        r.4.deep_view() == lookup(*params, "category"@),
        r.5 == flag_param(*params, "include_broken"@),
        r.6 == flag_param(*params, "include_unfree"@),
{
    let query = match copy_of(params, "q") {
        Some(q) => q,
        None => String::new(),
    };
    (
        query,
        number_of(params, "limit", DEFAULT_LIMIT),
        number_of(params, "offset", DEFAULT_OFFSET),
        copy_of(params, "license"),
        copy_of(params, "category"),
        flag_of(params, "include_broken"),
        flag_of(params, "include_unfree"),
    )
}

/// The parameters of a search, read from those of a request as
/// [`extract_query_params`] reads them.
pub fn search_params(params: &Option<QueryParams>) -> (r: SearchParams)
    ensures
        r.query@ == text_param(*params, "q"@),
        r.limit == number_param(*params, "limit"@, DEFAULT_LIMIT as int),
        r.offset == number_param(*params, "offset"@, DEFAULT_OFFSET as int),
        r.license_filter.deep_view() == lookup(*params, "license"@),
        r.category_filter.deep_view() == lookup(*params, "category"@),
        r.include_broken == flag_param(*params, "include_broken"@),
        r.include_unfree == flag_param(*params, "include_unfree"@),
{
    let (query, limit, offset, license_filter, category_filter, include_broken, include_unfree) =
        extract_query_params(params);
    SearchParams {
        query,
        limit,
        offset,
        license_filter,
        category_filter,
        include_broken,
        include_unfree,
    }
}

} // verus!
