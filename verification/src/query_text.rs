//! The texts of the queries that the adapters send to a SQL engine.

use vstd::prelude::*;
use vstd::string::StrSliceExecFns;
use vstd::string::StringExecFns;

verus! {

/// `text` with every single quote doubled, as SQL wants it inside a string
/// literal.
pub open spec fn doubled_quotes(text: Seq<char>) -> Seq<char>
    decreases text.len(),
{
    if text.len() == 0 {
        Seq::empty()
    } else if text.last() == '\'' {
        doubled_quotes(text.drop_last()) + "''"@
    } else {
        doubled_quotes(text.drop_last()).push(text.last())
    }
}

/// The character that writes the digit `d`.
pub open spec fn digit_char(d: int) -> char {
    if d == 0 {
        '0'
    } else if d == 1 {
        '1'
    } else if d == 2 {
        '2'
    } else if d == 3 {
        '3'
    } else if d == 4 {
        '4'
    } else if d == 5 {
        '5'
    } else if d == 6 {
        '6'
    } else if d == 7 {
        '7'
    } else if d == 8 {
        '8'
    } else {
        '9'
    }
}

/// The decimal digits of a natural number, without leading zeros.
pub open spec fn natural_digits(n: nat) -> Seq<char>
    decreases n,
{
    if n < 10 {
        seq![digit_char(n as int)]
    } else {
        natural_digits(n / 10).push(digit_char((n % 10) as int))
    }
}

/// A whole number in decimal, with a minus sign where it is negative.
pub open spec fn decimal(n: int) -> Seq<char> {
    if n < 0 {
        seq!['-'] + natural_digits((-n) as nat)
    } else {
        natural_digits(n as nat)
    }
}

/// Doubles every single quote of `text`.
pub fn escape_quotes(text: &str) -> (r: String)
    ensures
        r@ == doubled_quotes(text@),
{
    let len = text.unicode_len();
    let mut out = String::new();
    let mut i: usize = 0;
    while i < len
        invariant
            i <= len,
            len == text@.len(),
            out@ == doubled_quotes(text@.take(i as int)),
        decreases len - i,
    {
        proof {
            assert(text@.take(i + 1).drop_last() =~= text@.take(i as int));
            assert(text@.take(i + 1).last() == text@[i as int]);
        }
        if text.get_char(i) == '\'' {
            out.append("''");
        } else {
            let one = text.substring_char(i, i + 1);
            assert(one@ =~= seq![text@[i as int]]);
            out.append(one);
            assert(out@ =~= doubled_quotes(text@.take(i as int)).push(text@[i as int]));
        }
        i += 1;
    }
    assert(text@.take(len as int) =~= text@);
    out
}

/// The text of one digit.
fn digit_text(d: u64) -> (r: &'static str)
    requires
        d < 10,
    ensures
        r@ == seq![digit_char(d as int)],
{
    proof {
        reveal_strlit("0");
        reveal_strlit("1");
        reveal_strlit("2");
        reveal_strlit("3");
        reveal_strlit("4");
        reveal_strlit("5");
        reveal_strlit("6");
        reveal_strlit("7");
        reveal_strlit("8");
        reveal_strlit("9");
    }
    let r = if d == 0 {
        "0"
    } else if d == 1 {
        "1"
    } else if d == 2 {
        "2"
    } else if d == 3 {
        "3"
    } else if d == 4 {
        "4"
    } else if d == 5 {
        "5"
    } else if d == 6 {
        "6"
    } else if d == 7 {
        "7"
    } else if d == 8 {
        "8"
    } else {
        "9"
    };
    assert(r@ =~= seq![digit_char(d as int)]);
    r
}

/// The decimal digits of a natural number.
fn natural_text(n: u64) -> (r: String)
    ensures
        r@ == natural_digits(n as nat),
    decreases n,
{
    if n < 10 {
        String::from_str(digit_text(n))
    } else {
        let mut head = natural_text(n / 10);
        head.append(digit_text(n % 10));
        assert(head@ =~= natural_digits((n / 10) as nat).push(digit_char((n % 10) as int)));
        head
    }
}

/// A whole number in decimal.
pub fn decimal_text(n: i64) -> (r: String)
    ensures
        r@ == decimal(n as int),
{
    if n < 0 {
        let magnitude: u64 = if n == i64::MIN {
            0x8000_0000_0000_0000
        } else {
            (-n) as u64
        };
        proof {
            reveal_strlit("-");
        }
        let r = String::from_str("-").concat(natural_text(magnitude).as_str());
        assert(r@ =~= seq!['-'] + natural_digits((-n) as nat));
        r
    } else {
        natural_text(n as u64)
    }
}

/// The clause that caps an answer at `limit` rows; nothing where there is no
/// limit.
pub open spec fn limit_clause(limit: Option<i64>) -> Seq<char> {
    match limit {
        Some(n) => " LIMIT "@ + decimal(n as int),
        None => Seq::empty(),
    }
}

/// Writes the clause that caps an answer at `limit` rows.
pub fn limit_clause_text(limit: Option<i64>) -> (r: String)
    ensures
        r@ == limit_clause(limit),
{
    match limit {
        Some(n) => String::from_str(" LIMIT ").concat(decimal_text(n).as_str()),
        None => String::new(),
    }
}

/// The text of the lexical query: the identifiers and fields of the records
/// whose BM25 score for `query` is defined, best first, at most `limit`.
pub open spec fn lexical_query(query: Seq<char>, limit: Option<i64>) -> Seq<char> {
    "SELECT p.package_id, p.packageName, p.version, p.description, p.homepage, p.license, p.attributePath, fts.score FROM (SELECT package_id, fts_main_packages_fts_source.match_bm25(package_id, '"@
        + doubled_quotes(query)
        + "') AS score FROM packages_fts_source) fts JOIN packages p ON p.package_id = fts.package_id WHERE fts.score IS NOT NULL ORDER BY fts.score DESC"@
        + limit_clause(limit) + ";"@
}

/// The text of the substring query: the records whose name or description
/// holds `query`, case ignored; those whose name holds it first, then by
/// name; at most `limit`.
pub open spec fn substring_query(query: Seq<char>, limit: Option<i64>) -> Seq<char> {
    "SELECT package_id, packageName, version, description, homepage, license, attributePath, 1.0 as score FROM packages WHERE packageName ILIKE '%"@
        + doubled_quotes(query) + "%' OR description ILIKE '%"@ + doubled_quotes(query)
        + "%' ORDER BY CASE WHEN packageName ILIKE '%"@ + doubled_quotes(query)
        + "%' THEN 1 ELSE 2 END, packageName"@ + limit_clause(limit) + ";"@
}

/// The text of the substring filter for an engine that takes a condition
/// in place of a query.
pub open spec fn substring_filter(query: Seq<char>) -> Seq<char> {
    "package_name LIKE '%"@ + doubled_quotes(query) + "%' OR description LIKE '%"@
        + doubled_quotes(query) + "%'"@
}

/// The text of the query on the compact store's index: the matches of the
/// bound query, best first, one page of them. Records that are broken or
/// unfree are left out unless they were asked for.
pub open spec fn minified_query(include_broken: bool, include_unfree: bool) -> Seq<char> {
    "SELECT id, name, description, bm25(packages_fts) as relevance_score FROM packages_fts WHERE packages_fts MATCH ?"@
        + (if include_broken {
        Seq::<char>::empty()
    } else {
        " AND json_extract(data, '$.broken') = 0"@
    }) + (if include_unfree {
        Seq::<char>::empty()
    } else {
        " AND json_extract(data, '$.unfree') = 0"@
    }) + " ORDER BY relevance_score DESC LIMIT ? OFFSET ?"@
}

/// Writes the lexical query for `query`, which is escaped here.
pub fn lexical_query_text(query: &str, limit: Option<i64>) -> (r: String)
    ensures
        r@ == lexical_query(query@, limit),
{
    let escaped = escape_quotes(query);
    let mut out = String::from_str(
        "SELECT p.package_id, p.packageName, p.version, p.description, p.homepage, p.license, p.attributePath, fts.score FROM (SELECT package_id, fts_main_packages_fts_source.match_bm25(package_id, '",
    );
    out.append(escaped.as_str());
    out.append(
        "') AS score FROM packages_fts_source) fts JOIN packages p ON p.package_id = fts.package_id WHERE fts.score IS NOT NULL ORDER BY fts.score DESC",
    );
    out.append(limit_clause_text(limit).as_str());
    out.append(";");
    out
}

/// Writes the substring query for `query`, which is escaped here.
pub fn substring_query_text(query: &str, limit: Option<i64>) -> (r: String)
    ensures
        r@ == substring_query(query@, limit),
{
    let escaped = escape_quotes(query);
    let mut out = String::from_str(
        "SELECT package_id, packageName, version, description, homepage, license, attributePath, 1.0 as score FROM packages WHERE packageName ILIKE '%",
    );
    out.append(escaped.as_str());
    out.append("%' OR description ILIKE '%");
    out.append(escaped.as_str());
    out.append("%' ORDER BY CASE WHEN packageName ILIKE '%");
    out.append(escaped.as_str());
    out.append("%' THEN 1 ELSE 2 END, packageName");
    out.append(limit_clause_text(limit).as_str());
    out.append(";");
    out
}

/// Writes the substring filter for `query`, which is escaped here.
pub fn substring_filter_text(query: &str) -> (r: String)
    ensures
        r@ == substring_filter(query@),
{
    let escaped = escape_quotes(query);
    let mut out = String::from_str("package_name LIKE '%");
    out.append(escaped.as_str());
    out.append("%' OR description LIKE '%");
    out.append(escaped.as_str());
    out.append("%'");
    out
}

/// Writes the query on the compact store's index.
pub fn minified_query_text(include_broken: bool, include_unfree: bool) -> (r: String)
    ensures
        r@ == minified_query(include_broken, include_unfree),
{
    let mut out = String::from_str(
        "SELECT id, name, description, bm25(packages_fts) as relevance_score FROM packages_fts WHERE packages_fts MATCH ?",
    );
    if !include_broken {
        out.append(" AND json_extract(data, '$.broken') = 0");
    }
    if !include_unfree {
        out.append(" AND json_extract(data, '$.unfree') = 0");
    }
    out.append(" ORDER BY relevance_score DESC LIMIT ? OFFSET ?");
    out
}

} // verus!
