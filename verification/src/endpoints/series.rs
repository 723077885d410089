//! The page of a series: what is asked of the remote side, and what is
//! made of its answer.

use crate::endpoints::search::{get_number, number_in, separator};
use crate::error::{each_or_failure, lemma_failure_stays, Error, ErrorView};
use crate::number::{decimal, decimal_text};
use crate::text::{join, joined};
use crate::util::{get_param, param_of};
use vstd::prelude::*;
use vstd::string::StringExecFns;

verus! {

/// How many items one page of a series lists.
pub const PAGE_SIZE: i64 = 25;

/// The order in which the items of a series are listed.
#[derive(Clone, Copy, Debug, PartialEq, Eq, Structural)]
pub enum Sort {
    /// The latest first.
    Dsc,
    /// The earliest first.
    Asc,
}

impl Default for Sort {
    fn default() -> (sort: Sort)
        ensures
            sort == Sort::Dsc,
    {
        Sort::Dsc
    }
}

/// What the page of a series asks for.
#[derive(Clone, Copy, Debug, PartialEq, Eq, Structural)]
pub struct SeriesReq {
    pub series_id: i64,
    pub page: i32,
    pub sort: Sort,
}

/// What is asked of the remote side for a page of a series.
#[derive(Clone, Debug, PartialEq, Eq)]
pub enum SeriesQuery {
    /// The series and its first items.
    Full { sort_type: String, series_id: i64 },
    /// The items behind the item number `after`.
    List { sort_type: String, series_id: i64, after: String },
}

pub enum SeriesQueryView {
    Full { sort_type: Seq<char>, series_id: i64 },
    List { sort_type: Seq<char>, series_id: i64, after: Seq<char> },
}

impl View for SeriesQuery {
    type V = SeriesQueryView;

    open spec fn view(&self) -> SeriesQueryView {
        match self {
            SeriesQuery::Full { sort_type, series_id } => SeriesQueryView::Full {
                sort_type: sort_type@,
                series_id: *series_id,
            },
            SeriesQuery::List { sort_type, series_id, after } => SeriesQueryView::List {
                sort_type: sort_type@,
                series_id: *series_id,
                after: after@,
            },
        }
    }
}

/// One item of a series, as the remote side reports it.
#[derive(Clone, Debug, PartialEq, Eq)]
pub struct Node {
    pub thumbnail: String,
    pub title: String,
    pub row_2: Vec<String>,
    pub row_3: Option<String>,
    pub scheme: String,
}

/// The items of one page, as the remote side reports them.
#[derive(Clone, Debug, PartialEq, Eq)]
pub struct ProductList {
    pub has_next_page: bool,
    pub edges: Vec<Node>,
}

/// A series, as the remote side reports it.
#[derive(Clone, Debug, PartialEq, Eq)]
pub struct Overview {
    pub thumbnail: String,
    pub title: String,
    pub authors: String,
    pub pub_period: Option<String>,
    pub view_count: i64,
    pub rating_count: i64,
    pub rating_sum: i64,
}

/// A series with its description and its first items, as the remote side
/// reports them.
#[derive(Clone, Debug, PartialEq, Eq)]
pub struct SeriesFull {
    pub overview: Overview,
    pub description: String,
    pub products: ProductList,
}

/// A series as it is shown. Its rating is the sum of the ratings over
/// their count.
#[derive(Clone, Debug, PartialEq, Eq)]
pub struct Series {
    pub cover: String,
    pub title: String,
    pub pub_period: Option<String>,
    pub view_count: i64,
    pub rating_sum: i64,
    pub rating_count: i64,
    pub author: String,
    pub description: String,
}

/// One item of a series as it is listed.
#[derive(Clone, Debug, PartialEq, Eq)]
pub struct Single {
    pub single_id: i64,
    pub cover: String,
    pub title: String,
    pub row_1: String,
    pub row_2: Option<String>,
}

/// What the page of a series is answered with.
#[derive(Clone, Debug, PartialEq, Eq)]
pub struct SeriesRes {
    pub meta: Option<Series>,
    pub list: Vec<Single>,
    pub more: bool,
}

pub struct NodeView {
    pub thumbnail: Seq<char>,
    pub title: Seq<char>,
    pub row_2: Seq<Seq<char>>,
    pub row_3: Option<Seq<char>>,
    pub scheme: Seq<char>,
}

pub struct OverviewView {
    pub thumbnail: Seq<char>,
    pub title: Seq<char>,
    pub authors: Seq<char>,
    pub pub_period: Option<Seq<char>>,
    pub view_count: i64,
    pub rating_count: i64,
    pub rating_sum: i64,
}

pub struct ShownView {
    pub cover: Seq<char>,
    pub title: Seq<char>,
    pub pub_period: Option<Seq<char>>,
    pub view_count: i64,
    pub rating_sum: i64,
    pub rating_count: i64,
    pub author: Seq<char>,
    pub description: Seq<char>,
}

pub struct ListedView {
    pub single_id: i64,
    pub cover: Seq<char>,
    pub title: Seq<char>,
    pub row_1: Seq<char>,
    pub row_2: Option<Seq<char>>,
}

pub struct SeriesResView {
    pub meta: Option<ShownView>,
    pub list: Seq<ListedView>,
    pub more: bool,
}

impl View for Node {
    type V = NodeView;

    open spec fn view(&self) -> NodeView {
        NodeView {
            thumbnail: self.thumbnail@,
            title: self.title@,
            row_2: self.row_2.deep_view(),
            row_3: self.row_3.deep_view(),
            scheme: self.scheme@,
        }
    }
}

impl DeepView for Node {
    type V = NodeView;

    open spec fn deep_view(&self) -> NodeView {
        self@
    }
}

impl View for Overview {
    type V = OverviewView;

    open spec fn view(&self) -> OverviewView {
        OverviewView {
            thumbnail: self.thumbnail@,
            title: self.title@,
            authors: self.authors@,
            pub_period: self.pub_period.deep_view(),
            view_count: self.view_count,
            rating_count: self.rating_count,
            rating_sum: self.rating_sum,
        }
    }
}

impl View for Series {
    type V = ShownView;

    open spec fn view(&self) -> ShownView {
        ShownView {
            cover: self.cover@,
            title: self.title@,
            pub_period: self.pub_period.deep_view(),
            view_count: self.view_count,
            rating_sum: self.rating_sum,
            rating_count: self.rating_count,
            author: self.author@,
            description: self.description@,
        }
    }
}

impl View for Single {
    type V = ListedView;

    open spec fn view(&self) -> ListedView {
        ListedView {
            single_id: self.single_id,
            cover: self.cover@,
            title: self.title@,
            row_1: self.row_1@,
            row_2: self.row_2.deep_view(),
        }
    }
}

impl DeepView for Single {
    type V = ListedView;

    open spec fn deep_view(&self) -> ListedView {
        self@
    }
}

impl View for SeriesRes {
    type V = SeriesResView;

    open spec fn view(&self) -> SeriesResView {
        SeriesResView {
            meta: match self.meta {
                Some(series) => Some(series@),
                None => None,
            },
            list: self.list.deep_view(),
            more: self.more,
        }
    }
}

/// How the remote side names the order `sort`.
pub open spec fn sort_text(sort: Sort) -> Seq<char> {
    match sort {
        Sort::Dsc => ""@,
        Sort::Asc => "asc"@,
    }
}

/// What is asked of the remote side for `req`: the series with its first
/// items for the page 0, and the items behind those of the pages before
/// for any other page.
pub open spec fn query_of(req: SeriesReq) -> SeriesQueryView {
    if req.page == 0 {
        SeriesQueryView::Full { sort_type: sort_text(req.sort), series_id: req.series_id }
    } else {
        SeriesQueryView::List {
            sort_type: sort_text(req.sort),
            series_id: req.series_id,
            after: decimal_text(req.page * PAGE_SIZE),
        }
    }
}

/// The item that is made of `node`: its id from its address, its cover
/// from the address of the thumbnail, and its second row put together.
pub open spec fn listed_of(node: NodeView) -> Result<ListedView, ErrorView> {
    match number_in(node.scheme, "product_id"@) {
        Err(failure) => Err(failure),
        Ok(single_id) => match param_of(node.thumbnail, "kid"@) {
            Err(failure) => Err(failure),
            Ok(cover) => Ok(
                ListedView {
                    single_id,
                    cover,
                    title: node.title,
                    row_1: joined(node.row_2, separator()),
                    row_2: node.row_3,
                },
            ),
        },
    }
}

/// The items that are made of `edges`.
pub open spec fn list_of(edges: Seq<NodeView>) -> Result<Seq<ListedView>, ErrorView> {
    each_or_failure(edges, |node: NodeView| listed_of(node))
}

/// The series that is made of `overview` and `description`.
pub open spec fn shown_of(overview: OverviewView, description: Seq<char>) -> Result<
    ShownView,
    ErrorView,
> {
    match param_of(overview.thumbnail, "kid"@) {
        Err(failure) => Err(failure),
        Ok(cover) => Ok(
            ShownView {
                cover,
                title: overview.title,
                pub_period: overview.pub_period,
                view_count: overview.view_count,
                rating_sum: overview.rating_sum,
                rating_count: overview.rating_count,
                author: overview.authors,
                description,
            },
        ),
    }
}

/// The first page of a series: the series first, its items next.
pub open spec fn first_page_of(
    overview: OverviewView,
    description: Seq<char>,
    edges: Seq<NodeView>,
    more: bool,
) -> Result<SeriesResView, ErrorView> {
    match shown_of(overview, description) {
        Err(failure) => Err(failure),
        Ok(meta) => match list_of(edges) {
            Err(failure) => Err(failure),
            Ok(list) => Ok(SeriesResView { meta: Some(meta), list, more }),
        },
    }
}

/// A later page of a series: its items.
pub open spec fn later_page_of(edges: Seq<NodeView>, more: bool) -> Result<
    SeriesResView,
    ErrorView,
> {
    match list_of(edges) {
        Err(failure) => Err(failure),
        Ok(list) => Ok(SeriesResView { meta: None, list, more }),
    }
}

impl Sort {
    /// How the remote side names the order.
    pub fn to_string(&self) -> (text: String)
        ensures
            text@ == sort_text(*self),
    {
        match self {
            Sort::Dsc => String::from_str(""),
            Sort::Asc => String::from_str("asc"),
        }
    }
}

/// What is asked of the remote side for `req`.
pub fn series_query(req: SeriesReq) -> (query: SeriesQuery)
    ensures
        query@ == query_of(req),
{
    if req.page == 0 {
        SeriesQuery::Full { sort_type: req.sort.to_string(), series_id: req.series_id }
    } else {
        let after: i64 = req.page as i64 * 25;
        SeriesQuery::List {
            sort_type: req.sort.to_string(),
            series_id: req.series_id,
            after: decimal(after),
        }
    }
}

fn listed_from(node: &Node) -> (listed: Result<Single, Error>)
    ensures
        match listed_of(node@) {
            Ok(made) => listed matches Ok(single) && single@ == made,
            Err(failure) => listed matches Err(error) && error@ == failure,
        },
{
    let single_id = get_number(node.scheme.as_str(), "product_id")?;
    let cover = get_param(node.thumbnail.as_str(), "kid")?;
    let row_1 = join(&node.row_2, " \u{b7} ");
    let row_2 = match &node.row_3 {
        Some(text) => Some(text.clone()),
        None => None,
    };
    Ok(Single { single_id, cover, title: node.title.clone(), row_1, row_2 })
}

/// The items that are made of `edges`.
pub fn list_from(edges: &Vec<Node>) -> (list: Result<Vec<Single>, Error>)
    ensures
        match list_of(edges.deep_view()) {
            Ok(made) => list matches Ok(items) && items.deep_view() == made,
            Err(failure) => list matches Err(error) && error@ == failure,
        },
{
    let ghost make = |node: NodeView| listed_of(node);
    let ghost nodes = edges.deep_view();
    let mut list: Vec<Single> = Vec::new();
    let mut at: usize = 0;
    assert(nodes.take(0) =~= Seq::<NodeView>::empty());
    assert(list.deep_view() =~= Seq::<ListedView>::empty());
    while at < edges.len()
        invariant
            at <= edges.len(),
            nodes == edges.deep_view(),
            make == |node: NodeView| listed_of(node),
            each_or_failure(nodes.take(at as int), make) == Ok::<Seq<ListedView>, ErrorView>(
                list.deep_view(),
            ),
        decreases edges.len() - at,
    {
        let ghost before = list.deep_view();
        proof {
            let upto = nodes.take(at + 1);
            assert(upto.drop_last() =~= nodes.take(at as int));
            assert(upto.last() == edges[at as int]@);
        }
        match listed_from(&edges[at]) {
            Ok(single) => {
                list.push(single);
                assert(list.deep_view() =~= before.push(listed_of(edges[at as int]@)->Ok_0));
            },
            Err(error) => {
                proof {
                    lemma_failure_stays(nodes, make, at as int);
                }
                return Err(error);
            },
        }
        at += 1;
    }
    assert(nodes.take(nodes.len() as int) =~= nodes);
    Ok(list)
}

/// The first page of a series, made of what the remote side reports.
pub fn series(full: SeriesFull) -> (res: Result<SeriesRes, Error>)
    ensures
        match first_page_of(
            full.overview@,
            full.description@,
            full.products.edges.deep_view(),
            full.products.has_next_page,
        ) {
            Ok(made) => res matches Ok(page) && page@ == made,
            Err(failure) => res matches Err(error) && error@ == failure,
        },
{
    let cover = get_param(full.overview.thumbnail.as_str(), "kid")?;
    let list = list_from(&full.products.edges)?;
    let meta = Series {
        cover,
        title: full.overview.title,
        pub_period: full.overview.pub_period,
        view_count: full.overview.view_count,
        rating_sum: full.overview.rating_sum,
        rating_count: full.overview.rating_count,
        author: full.overview.authors,
        description: full.description,
    };
    Ok(SeriesRes { meta: Some(meta), list, more: full.products.has_next_page })
}

/// A later page of a series, made of what the remote side reports.
pub fn single_list(products: ProductList) -> (res: Result<SeriesRes, Error>)
    ensures
        match later_page_of(products.edges.deep_view(), products.has_next_page) {
            Ok(made) => res matches Ok(page) && page@ == made,
            Err(failure) => res matches Err(error) && error@ == failure,
        },
{
    let list = list_from(&products.edges)?;
    Ok(SeriesRes { meta: None, list, more: products.has_next_page })
}

} // verus!
