//! The values that the stored history and tags are read and written with.

use vstd::prelude::*;
use vstd::string::*;
use crate::text::push_char;

verus! {

/// The decimal digit for a value below 10.
pub open spec fn decimal_digit(d: nat) -> char {
    (48 + d) as char
}

/// The decimal numeral of `n`, without leading zeros ("0" for zero).
pub open spec fn decimal_numeral(n: nat) -> Seq<char>
    decreases n,
{
    if n < 10 {
        seq![decimal_digit(n)]
    } else {
        decimal_numeral(n / 10).push(decimal_digit(n % 10))
    }
}

/// The decimal numeral of an integer, with a leading '-' when it is negative.
pub open spec fn signed_decimal(i: int) -> Seq<char> {
    if i < 0 {
        seq!['-'] + decimal_numeral((-i) as nat)
    } else {
        decimal_numeral(i as nat)
    }
}

fn push_decimal(s: &mut String, n: u64)
    ensures
        final(s)@ == old(s)@ + decimal_numeral(n as nat),
    decreases n,
{
    if n >= 10 {
        push_decimal(s, n / 10);
    }
    let d: u64 = n % 10;
    let c = ((48 + d) as u8) as char;
    push_char(s, c);
    assert(s@ =~= old(s)@ + decimal_numeral(n as nat));
}

/// Writes an `i32` in decimal, as `format!("{}", n)` does.
pub fn i32_to_decimal(n: i32) -> (r: String)
    ensures
        r@ == signed_decimal(n as int),
{
    let mut s = String::new();
    if n < 0 {
        push_char(&mut s, '-');
        let wide: i64 = n as i64;
        let magnitude: u64 = (-wide) as u64;
        push_decimal(&mut s, magnitude);
    } else {
        push_decimal(&mut s, n as u64);
    }
    assert(s@ =~= signed_decimal(n as int));
    s
}

/// The pattern that selects the entries whose search text contains `text`:
/// `text` between two `%` wildcards.
pub fn search_pattern(text: &str) -> (r: String)
    ensures
        r@ == seq!['%'] + text@ + seq!['%'],
{
    let mut s = String::new();
    push_char(&mut s, '%');
    s.append(text);
    push_char(&mut s, '%');
    assert(s@ =~= seq!['%'] + text@ + seq!['%']);
    s
}

/// The message of the error given when a query names a tag that does not exist.
pub fn missing_tag_message(tag_id: i32) -> (r: String)
    ensures
        r@ == "tag_id "@ + signed_decimal(tag_id as int) + " not in tags"@,
{
    let mut s = String::from_str("tag_id ");
    let n = i32_to_decimal(tag_id);
    s.append(n.as_str());
    s.append(" not in tags");
    s
}

/// The answer to a query that names a tag: nothing to object to when the tag
/// was found, else the missing-tag message.
pub fn tag_check(tag_found: bool, tag_id: i32) -> (r: Result<(), String>)
    ensures
        tag_found ==> r is Ok,
        !tag_found ==> (r matches Err(m) && m@ == "tag_id "@ + signed_decimal(tag_id as int)
            + " not in tags"@),
{
    if tag_found {
        Ok(())
    } else {
        Err(missing_tag_message(tag_id))
    }
}

/// A tag that history entries can be filed under.
#[derive(Debug, Clone, PartialEq, Eq)]
pub struct Model {
    pub id: i32,
    pub name: Option<String>,
}

/// The tag that always exists: id 0, named "收藏夹" (favourites).
pub fn default_tag() -> (r: Model)
    ensures
        r.id == 0,
        r.name matches Some(n) && n@ == "收藏夹"@,
{
    Model { id: 0, name: Some(String::from_str("收藏夹")) }
}

/// One condition that a query of the history puts on the entries it returns.
pub enum HistoryFilter {
    /// The entry is newer than the given time (milliseconds since the epoch).
    NewerThan(i64),
    /// The lower-cased search text of the entry matches the given pattern.
    SearchLike(String),
    /// The entry's kind number is one of the given numbers.
    TypeIn(Vec<i32>),
    /// The entry is filed under the given tag.
    TagIs(i32),
}

/// A history condition as a mathematical value.
pub enum FilterValue {
    NewerThan(i64),
    SearchLike(Seq<char>),
    TypeIn(Seq<i32>),
    TagIs(i32),
}

impl View for HistoryFilter {
    type V = FilterValue;

    open spec fn view(&self) -> FilterValue {
        match self {
            HistoryFilter::NewerThan(t) => FilterValue::NewerThan(*t),
            HistoryFilter::SearchLike(p) => FilterValue::SearchLike(p@),
            HistoryFilter::TypeIn(l) => FilterValue::TypeIn(l@),
            HistoryFilter::TagIs(t) => FilterValue::TagIs(*t),
        }
    }
}

/// The conditions of a history query, in the order they are applied: always
/// newer than `expired_ts`; then, when given, search text containing `text`,
/// kind among `type_list`, and filed under `tag_id`.
pub open spec fn history_conditions(
    text: Option<Seq<char>>,
    type_list: Option<Seq<i32>>,
    tag_id: Option<i32>,
    expired_ts: i64,
) -> Seq<FilterValue> {
    seq![FilterValue::NewerThan(expired_ts)] + match text {
        Some(t) => seq![FilterValue::SearchLike(seq!['%'] + t + seq!['%'])],
        None => seq![],
    } + match type_list {
        Some(l) => seq![FilterValue::TypeIn(l)],
        None => seq![],
    } + match tag_id {
        Some(t) => seq![FilterValue::TagIs(t)],
        None => seq![],
    }
}

/// The views of a list of conditions.
pub open spec fn filter_values(filters: Seq<HistoryFilter>) -> Seq<FilterValue> {
    filters.map_values(|f: HistoryFilter| f@)
}

/// The conditions that a history query with these arguments applies.
pub fn history_filters(
    text: Option<&str>,
    type_list: Option<Vec<i32>>,
    tag_id: Option<i32>,
    expired_ts: i64,
) -> (r: Vec<HistoryFilter>)
    ensures
        filter_values(r@) == history_conditions(
            match text {
                Some(t) => Some(t@),
                None => None,
            },
            match type_list {
                Some(l) => Some(l@),
                None => None,
            },
            tag_id,
            expired_ts,
        ),
{
    let mut filters: Vec<HistoryFilter> = Vec::new();
    filters.push(HistoryFilter::NewerThan(expired_ts));
    assert(filter_values(filters@) =~= seq![FilterValue::NewerThan(expired_ts)]);
    match text {
        Some(t) => {
            filters.push(HistoryFilter::SearchLike(search_pattern(t)));
        },
        None => {},
    }
    match type_list {
        Some(l) => {
            filters.push(HistoryFilter::TypeIn(l));
        },
        None => {},
    }
    match tag_id {
        Some(t) => {
            filters.push(HistoryFilter::TagIs(t));
        },
        None => {},
    }
    assert(filter_values(filters@) =~= history_conditions(
        match text {
            Some(t) => Some(t@),
            None => None,
        },
        match type_list {
            Some(l) => Some(l@),
            None => None,
        },
        tag_id,
        expired_ts,
    ));
    filters
}

/// A history query always asks for entries newer than the expiry time, first;
/// it matches the search text against `%text%` exactly when a text is given,
/// restricts the kinds exactly when a kind list is given, and restricts the tag
/// exactly when a tag is given; and it has no other condition.
pub proof fn history_conditions_match_arguments(
    text: Option<Seq<char>>,
    type_list: Option<Seq<i32>>,
    tag_id: Option<i32>,
    expired_ts: i64,
)
    ensures
        ({
            let c = history_conditions(text, type_list, tag_id, expired_ts);
            &&& c[0] == FilterValue::NewerThan(expired_ts)
            &&& c.len() == 1 + (if text is Some {
                1int
            } else {
                0
            }) + (if type_list is Some {
                1int
            } else {
                0
            }) + (if tag_id is Some {
                1int
            } else {
                0
            })
            &&& (text matches Some(t) ==> c.contains(
                FilterValue::SearchLike(seq!['%'] + t + seq!['%']),
            ))
            &&& (text is None ==> forall|i: int| 0 <= i < c.len() ==> !(#[trigger] c[i] is SearchLike))
            &&& (type_list matches Some(l) ==> c.contains(FilterValue::TypeIn(l)))
            &&& (type_list is None ==> forall|i: int| 0 <= i < c.len() ==> !(#[trigger] c[i] is TypeIn))
            &&& (tag_id matches Some(t) ==> c.contains(FilterValue::TagIs(t)))
            &&& (tag_id is None ==> forall|i: int| 0 <= i < c.len() ==> !(#[trigger] c[i] is TagIs))
            &&& forall|i: int| 1 <= i < c.len() ==> !(#[trigger] c[i] is NewerThan)
        }),
{
    let c = history_conditions(text, type_list, tag_id, expired_ts);
    let s1: Seq<FilterValue> = match text {
        Some(t) => seq![FilterValue::SearchLike(seq!['%'] + t + seq!['%'])],
        None => seq![],
    };
    let s2: Seq<FilterValue> = match type_list {
        Some(l) => seq![FilterValue::TypeIn(l)],
        None => seq![],
    };
    let s3: Seq<FilterValue> = match tag_id {
        Some(t) => seq![FilterValue::TagIs(t)],
        None => seq![],
    };
    let s0: Seq<FilterValue> = seq![FilterValue::NewerThan(expired_ts)];
    assert(c == s0 + s1 + s2 + s3);
    let k1 = 1int;
    let k2: int = 1 + s1.len() as int;
    let k3: int = 1 + s1.len() as int + s2.len() as int;
    assert forall|i: int| 0 <= i < c.len() implies (#[trigger] c[i] == if i < k1 {
        s0[i]
    } else if i < k2 {
        s1[i - k1]
    } else if i < k3 {
        s2[i - k2]
    } else {
        s3[i - k3]
    }) by {}
    if text is Some {
        assert(c[k1] == s1[0]);
    }
    if type_list is Some {
        assert(c[k2] == s2[0]);
    }
    if tag_id is Some {
        assert(c[k3] == s3[0]);
    }
}

} // verus!
