//! The search for series by keyword: what is asked of the remote side, and
//! what is made of its answer.

use crate::error::{each_or_failure, lemma_failure_stays, Error, ErrorKind, ErrorView};
use crate::number::{i64_of, parse_i64};
use crate::text::{join, joined};
use crate::util::{get_param, param_missing, param_of, param_value};
use vstd::prelude::*;
use vstd::string::StringExecFns;

verus! {

/// What a search asks for.
#[derive(Clone, Debug, PartialEq, Eq)]
pub struct SearchReq {
    pub keyword: String,
    pub page: i32,
}

/// The input of the search query.
#[derive(Clone, Debug, PartialEq, Eq)]
pub struct SearchKeywordInput {
    pub keyword: String,
    pub page: i32,
}

/// The variables of the search query.
#[derive(Clone, Debug, PartialEq, Eq)]
pub struct Vars {
    pub search_keyword_input: SearchKeywordInput,
}

/// The third row of a search hit.
#[derive(Clone, Debug, PartialEq, Eq)]
pub struct Row3 {
    pub meta_list: Vec<String>,
}

/// One hit, as the remote side reports it.
#[derive(Clone, Debug, PartialEq, Eq)]
pub struct List {
    pub thumbnail: String,
    pub row_1: String,
    pub row_2: Vec<String>,
    pub row_3: Row3,
    pub scheme: String,
}

/// The hits of one page, as the remote side reports them.
#[derive(Clone, Debug, PartialEq, Eq)]
pub struct SearchKeyword {
    pub list: Vec<List>,
    pub is_end: bool,
}

/// The selections of the search query.
#[derive(Clone, Debug, PartialEq, Eq)]
pub struct Sels {
    pub search_keyword: SearchKeyword,
}

/// One series that was found.
#[derive(Clone, Debug, PartialEq, Eq)]
pub struct Series {
    pub series_id: i64,
    pub cover: String,
    pub title: String,
    pub row_1: String,
    pub row_2: String,
}

/// What a search is answered with.
#[derive(Clone, Debug, PartialEq, Eq)]
pub struct SearchRes {
    pub list: Vec<Series>,
    pub more: bool,
}

pub struct ListView {
    pub thumbnail: Seq<char>,
    pub row_1: Seq<char>,
    pub row_2: Seq<Seq<char>>,
    pub meta_list: Seq<Seq<char>>,
    pub scheme: Seq<char>,
}

pub struct FoundView {
    pub series_id: i64,
    pub cover: Seq<char>,
    pub title: Seq<char>,
    pub row_1: Seq<char>,
    pub row_2: Seq<char>,
}

impl View for List {
    type V = ListView;

    open spec fn view(&self) -> ListView {
        ListView {
            thumbnail: self.thumbnail@,
            row_1: self.row_1@,
            row_2: self.row_2.deep_view(),
            meta_list: self.row_3.meta_list.deep_view(),
            scheme: self.scheme@,
        }
    }
}

impl DeepView for List {
    type V = ListView;

    open spec fn deep_view(&self) -> ListView {
        self@
    }
}

impl View for Series {
    type V = FoundView;

    open spec fn view(&self) -> FoundView {
        FoundView {
            series_id: self.series_id,
            cover: self.cover@,
            title: self.title@,
            row_1: self.row_1@,
            row_2: self.row_2@,
        }
    }
}

impl DeepView for Series {
    type V = FoundView;

    open spec fn deep_view(&self) -> FoundView {
        self@
    }
}

/// What stands between the parts of a row.
pub open spec fn separator() -> Seq<char> {
    " \u{b7} "@
}

/// The failure to read `text` as a number.
pub open spec fn bad_number(text: Seq<char>) -> ErrorView {
    ErrorView { kind: ErrorKind::RemoteProtocol, message: "invalid number: "@ + text }
}

/// The number that the parameter `key` holds in `url`.
pub open spec fn number_in(url: Seq<char>, key: Seq<char>) -> Result<i64, ErrorView> {
    match param_value(url, key) {
        None => Err(param_missing(key, url)),
        Some(text) => match i64_of(text) {
            Some(number) => Ok(number),
            None => Err(bad_number(text)),
        },
    }
}

/// The series that is made of the hit `item`: its id from the address of
/// the series, its cover from the address of the thumbnail, and its rows
/// put together.
pub open spec fn found_of(item: ListView) -> Result<FoundView, ErrorView> {
    match number_in(item.scheme, "series_id"@) {
        Err(failure) => Err(failure),
        Ok(series_id) => match param_of(item.thumbnail, "kid"@) {
            Err(failure) => Err(failure),
            Ok(cover) => Ok(
                FoundView {
                    series_id,
                    cover,
                    title: item.row_1,
                    row_1: joined(item.row_2, separator()),
                    row_2: joined(item.meta_list, separator()),
                },
            ),
        },
    }
}

/// The number that the parameter `key` holds in `url`.
pub fn get_number(url: &str, key: &str) -> (number: Result<i64, Error>)
    ensures
        match number_in(url@, key@) {
            Ok(held) => number == Ok::<i64, Error>(held),
            Err(failure) => number matches Err(error) && error@ == failure,
        },
{
    let text = get_param(url, key)?;
    match parse_i64(text.as_str()) {
        Some(number) => Ok(number),
        None => {
            let mut message = String::from_str("invalid number: ");
            message.append(text.as_str());
            Err(Error::new(ErrorKind::RemoteProtocol, message))
        },
    }
}

/// The variables of the query for `req`.
pub fn search_vars(req: SearchReq) -> (vars: Vars)
    ensures
        vars.search_keyword_input.keyword@ == req.keyword@,
        vars.search_keyword_input.page == req.page,
{
    Vars { search_keyword_input: SearchKeywordInput { keyword: req.keyword, page: req.page } }
}

fn found_from(item: &List) -> (found: Result<Series, Error>)
    ensures
        match found_of(item@) {
            Ok(made) => found matches Ok(series) && series@ == made,
            Err(failure) => found matches Err(error) && error@ == failure,
        },
{
    let series_id = get_number(item.scheme.as_str(), "series_id")?;
    let cover = get_param(item.thumbnail.as_str(), "kid")?;
    let row_1 = join(&item.row_2, " \u{b7} ");
    let row_2 = join(&item.row_3.meta_list, " \u{b7} ");
    Ok(Series { series_id, cover, title: item.row_1.clone(), row_1, row_2 })
}

/// The answer to a search, made of what the remote side reports: each hit
/// as a series, and whether there are more.
pub fn search(sels: Sels) -> (res: Result<SearchRes, Error>)
    ensures
        match each_or_failure(
            sels.search_keyword.list.deep_view(),
            |item: ListView| found_of(item),
        ) {
            Ok(made) => res matches Ok(answer) && answer.list.deep_view() == made && answer.more
                == !sels.search_keyword.is_end,
            Err(failure) => res matches Err(error) && error@ == failure,
        },
{
    let ghost make = |item: ListView| found_of(item);
    let ghost items = sels.search_keyword.list.deep_view();
    let more = !sels.search_keyword.is_end;
    let mut list: Vec<Series> = Vec::new();
    let hits = &sels.search_keyword.list;
    let mut at: usize = 0;
    assert(items.take(0) =~= Seq::<ListView>::empty());
    assert(list.deep_view() =~= Seq::<FoundView>::empty());
    while at < hits.len()
        invariant
            at <= hits.len(),
            items == hits.deep_view(),
            items == sels.search_keyword.list.deep_view(),
            make == |item: ListView| found_of(item),
            each_or_failure(items.take(at as int), make) == Ok::<Seq<FoundView>, ErrorView>(
                list.deep_view(),
            ),
        decreases hits.len() - at,
    {
        let ghost before = list.deep_view();
        proof {
            let upto = items.take(at + 1);
            assert(upto.drop_last() =~= items.take(at as int));
            assert(upto.last() == hits[at as int]@);
        }
        match found_from(&hits[at]) {
            Ok(series) => {
                list.push(series);
                assert(list.deep_view() =~= before.push(found_of(hits[at as int]@)->Ok_0));
            },
            Err(error) => {
                proof {
                    lemma_failure_stays(items, make, at as int);
                }
                return Err(error);
            },
        }
        at += 1;
    }
    assert(items.take(items.len() as int) =~= items);
    Ok(SearchRes { list, more })
}

} // verus!
