//! Pagination of the question list, read from the query string.

use vstd::prelude::*;
use vstd::hash_map::StringHashMap;

use crate::error::Error;
use crate::number::{i32_text, lemma_parse_of_text, parse_i32, parse_i32_spec};

verus! {

/// The parameters of a query string, each name with its value.
pub struct QueryParams {
    map: StringHashMap<String>,
}

impl View for QueryParams {
    type V = Map<Seq<char>, Seq<char>>;

    closed spec fn view(&self) -> Map<Seq<char>, Seq<char>> {
        self.map@.map_values(|v: String| v@)
    }
}

impl QueryParams {
    /// No parameters.
    pub fn new() -> (r: QueryParams)
        ensures
            r@ == Map::<Seq<char>, Seq<char>>::empty(),
    {
        let r = QueryParams { map: StringHashMap::new() };
        assert(r@ =~= Map::<Seq<char>, Seq<char>>::empty());
        r
    }

    /// Sets the parameter `name` to `value`, replacing an earlier value.
    pub fn insert(&mut self, name: String, value: String)
        ensures
            final(self)@ == old(self)@.insert(name@, value@),
    {
        self.map.insert(name, value);
        assert(self@ =~= old(self)@.insert(name@, value@));
    }

    /// The value of the parameter `name`, if the query has it.
    pub fn get(&self, name: &str) -> (r: Option<&String>)
        ensures
            match r {
                Some(v) => self@.contains_key(name@) && v@ == self@[name@],
                None => !self@.contains_key(name@),
            },
    {
        self.map.get(name)
    }

    /// Whether the query has no parameter at all.
    pub fn is_empty(&self) -> (r: bool)
        ensures
            r == (self@.dom() == Set::<Seq<char>>::empty()),
    {
        let r = self.map.is_empty();
        assert(self@.dom() =~= self.map@.dom());
        proof {
            if !r {
                assert(!self.map@.dom().is_empty());
                let k = self.map@.dom().choose();
                assert(self.map@.dom().contains(k));
                assert(self@.dom() != Set::<Seq<char>>::empty());
            } else {
                assert(self.map@.dom() =~= Set::<Seq<char>>::empty());
            }
        }
        r
    }
}

/// Which slice of the question list a request asks for.
#[derive(Debug, PartialEq, Eq, Structural)]
pub struct Pagination {
    /// Max number of items to return (when provided with `offset`).
    pub limit: Option<i32>,
    /// Number of items to skip.
    pub offset: i32,
}

impl Default for Pagination {
    /// The whole list: no limit, nothing skipped.
    fn default() -> (r: Pagination)
        ensures
            r == (Pagination { limit: None, offset: 0 }),
    {
        Pagination { limit: None, offset: 0 }
    }
}

/// What pagination a query string asks for: both `limit` and `offset` must be
/// there and read as integers; the first one that does not read fails the request.
pub open spec fn pagination_of(params: Map<Seq<char>, Seq<char>>) -> Result<Pagination, Error> {
    if params.contains_key("limit"@) && params.contains_key("offset"@) {
        match parse_i32_spec(params["limit"@]) {
            Err(k) => Err(Error::ParseError(k)),
            Ok(limit) => match parse_i32_spec(params["offset"@]) {
                Err(k) => Err(Error::ParseError(k)),
                Ok(offset) => Ok(Pagination { limit: Some(limit), offset }),
            },
        }
    } else {
        Err(Error::MissingParameters)
    }
}

/// Extract pagination from `/questions` query params.
///
/// Both `limit` and `offset` must be present together, e.g. `/questions?limit=10&offset=0`.
pub fn extraction_pagination(params: QueryParams) -> (r: Result<Pagination, Error>)
    ensures
        r == pagination_of(params@),
{
    let limit_text = params.get("limit");
    let offset_text = params.get("offset");
    match (limit_text, offset_text) {
        (Some(l), Some(o)) => {
            let limit = match parse_i32(l.as_str()) {
                Ok(v) => v,
                Err(k) => {
                    return Err(Error::ParseError(k));
                },
            };
            let offset = match parse_i32(o.as_str()) {
                Ok(v) => v,
                Err(k) => {
                    return Err(Error::ParseError(k));
                },
            };
            Ok(Pagination { limit: Some(limit), offset })
        },
        _ => Err(Error::MissingParameters),
    }
}

/// A query whose `limit` and `offset` are the decimal texts of two integers
/// reads back as exactly those two integers.
pub proof fn lemma_pagination_of_numbers(
    params: Map<Seq<char>, Seq<char>>,
    limit: i32,
    offset: i32,
)
    requires
        params.contains_key("limit"@),
        params.contains_key("offset"@),
        params["limit"@] == i32_text(limit),
        params["offset"@] == i32_text(offset),
    ensures
        pagination_of(params) == Ok::<Pagination, Error>(Pagination { limit: Some(limit), offset }),
{
    lemma_parse_of_text(limit);
    lemma_parse_of_text(offset);
}

/// `limit` and `offset` come together: a query that lacks either is refused
/// with `MissingParameters`, whatever else it holds.
pub proof fn lemma_pagination_needs_both(params: Map<Seq<char>, Seq<char>>)
    requires
        !params.contains_key("limit"@) || !params.contains_key("offset"@),
    ensures
        pagination_of(params) == Err::<Pagination, Error>(Error::MissingParameters),
{
}

} // verus!
