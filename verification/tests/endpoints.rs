use vitis_be::endpoints::resource::{passes_header, resource};
use vitis_be::endpoints::search::{
    get_number, search, search_vars, List, Row3, SearchKeyword, SearchReq, SearchRes, Sels,
};
use vitis_be::endpoints::series::{
    list_from, series, series_query, single_list, Node, Overview, ProductList, SeriesFull,
    SeriesQuery, SeriesReq, Sort,
};
use vitis_be::endpoints::single::classify;
use vitis_be::endpoints::single::Process;
use vitis_be::error::{Error, ErrorKind};
use vitis_be::number::{decimal, parse_i64};
use vitis_be::text::{join, remove_all, same};

fn hit(scheme: &str, thumbnail: &str) -> List {
    List {
        thumbnail: thumbnail.to_string(),
        row_1: "Title".to_string(),
        row_2: vec!["Webtoon".to_string(), "Fantasy".to_string()],
        row_3: Row3 { meta_list: vec!["1.2M".to_string()] },
        scheme: scheme.to_string(),
    }
}

#[test]
fn search_makes_a_series_of_each_hit() {
    let sels = Sels {
        search_keyword: SearchKeyword {
            list: vec![hit("kakaopage://open/content?series_id=123", "//img.example/t?kid=cover1&w=1")],
            is_end: false,
        },
    };
    let res: SearchRes = search(sels).unwrap();
    assert!(res.more);
    assert_eq!(res.list.len(), 1);
    assert_eq!(res.list[0].series_id, 123);
    assert_eq!(res.list[0].cover, "cover1");
    assert_eq!(res.list[0].title, "Title");
    assert_eq!(res.list[0].row_1, "Webtoon · Fantasy");
    assert_eq!(res.list[0].row_2, "1.2M");
}

#[test]
fn search_at_the_end_has_no_more() {
    let res = search(Sels { search_keyword: SearchKeyword { list: vec![], is_end: true } }).unwrap();
    assert!(!res.more);
    assert!(res.list.is_empty());
}

#[test]
fn search_fails_on_the_first_hit_that_cannot_be_read() {
    let sels = Sels {
        search_keyword: SearchKeyword {
            list: vec![
                hit("x?series_id=1", "t?kid=a"),
                hit("x?series_id=abc", "t"),
                hit("x", "t?kid=a"),
            ],
            is_end: true,
        },
    };
    let error = search(sels).unwrap_err();
    assert_eq!(error.kind, ErrorKind::RemoteProtocol);
    assert_eq!(error.message, "invalid number: abc");
}

#[test]
fn search_variables_carry_the_request() {
    let vars = search_vars(SearchReq { keyword: "dragon".to_string(), page: 3 });
    assert_eq!(vars.search_keyword_input.keyword, "dragon");
    assert_eq!(vars.search_keyword_input.page, 3);
}

#[test]
fn number_in_an_address() {
    assert_eq!(get_number("a?n=-12&m=1", "n").unwrap(), -12);
    assert_eq!(get_number("a?n=", "n").unwrap_err().message, "invalid number: ");
    assert_eq!(get_number("a", "n").unwrap_err().kind, ErrorKind::ParamExtraction);
}

fn node(id: &str) -> Node {
    Node {
        thumbnail: "//img.example/p?kid=thumb".to_string(),
        title: "Episode".to_string(),
        row_2: vec!["2023.05.01".to_string(), "Free".to_string()],
        row_3: Some("New".to_string()),
        scheme: format!("kakaopage://open/viewer?product_id={}", id),
    }
}

fn overview(thumbnail: &str) -> Overview {
    Overview {
        thumbnail: thumbnail.to_string(),
        title: "Series".to_string(),
        authors: "Author".to_string(),
        pub_period: Some("Mon".to_string()),
        view_count: 1000,
        rating_count: 4,
        rating_sum: 38,
    }
}

#[test]
fn series_first_page_has_the_series_and_its_items() {
    let full = SeriesFull {
        overview: overview("//img.example/c?kid=cover"),
        description: "About".to_string(),
        products: ProductList { has_next_page: true, edges: vec![node("11"), node("12")] },
    };
    let page = series(full).unwrap();
    let meta = page.meta.unwrap();
    assert_eq!(meta.cover, "cover");
    assert_eq!(meta.title, "Series");
    assert_eq!(meta.pub_period, Some("Mon".to_string()));
    assert_eq!(meta.view_count, 1000);
    assert_eq!((meta.rating_sum, meta.rating_count), (38, 4));
    assert_eq!(meta.author, "Author");
    assert_eq!(meta.description, "About");
    assert!(page.more);
    assert_eq!(page.list.len(), 2);
    assert_eq!(page.list[0].single_id, 11);
    assert_eq!(page.list[1].single_id, 12);
    assert_eq!(page.list[0].cover, "thumb");
    assert_eq!(page.list[0].title, "Episode");
    assert_eq!(page.list[0].row_1, "2023.05.01 · Free");
    assert_eq!(page.list[0].row_2, Some("New".to_string()));
}

#[test]
fn series_cover_is_read_before_the_items() {
    let full = SeriesFull {
        overview: overview("//img.example/c"),
        description: String::new(),
        products: ProductList { has_next_page: false, edges: vec![node("x")] },
    };
    let error: Error = series(full).unwrap_err();
    assert_eq!(error.message, "could not get param kid in //img.example/c");
}

#[test]
fn series_later_page_has_items_only() {
    let page =
        single_list(ProductList { has_next_page: false, edges: vec![node("7")] }).unwrap();
    assert_eq!(page.meta, None);
    assert!(!page.more);
    assert_eq!(page.list.len(), 1);
    assert_eq!(list_from(&vec![node("nine")]).unwrap_err().message, "invalid number: nine");
}

#[test]
fn series_query_follows_the_page() {
    assert_eq!(
        series_query(SeriesReq { series_id: 5, page: 0, sort: Sort::Dsc }),
        SeriesQuery::Full { sort_type: String::new(), series_id: 5 }
    );
    assert_eq!(
        series_query(SeriesReq { series_id: 5, page: 3, sort: Sort::Asc }),
        SeriesQuery::List { sort_type: "asc".to_string(), series_id: 5, after: "75".to_string() }
    );
    assert_eq!(
        series_query(SeriesReq { series_id: 5, page: i32::MAX, sort: Sort::Asc }),
        SeriesQuery::List {
            sort_type: "asc".to_string(),
            series_id: 5,
            after: "53687091175".to_string()
        }
    );
    assert_eq!(Sort::default(), Sort::Dsc);
    assert_eq!(Sort::Dsc.to_string(), "");
    assert_eq!(Sort::Asc.to_string(), "asc");
}

#[test]
fn resource_is_asked_of_the_image_host() {
    assert_eq!(resource("/resty/resource?kid=abc"), "https://dn-img-page.kakao.com/resty/resource?kid=abc");
    assert!(passes_header("content-type"));
    assert!(!passes_header("content-length"));
    assert!(!passes_header("Content-Type"));
}

#[test]
fn process_names() {
    assert_eq!(classify("ForceUseRentalTicket"), Process::Rental);
    assert_eq!(classify("AskTicketChoice"), Process::Rental);
    assert_eq!(classify("ForceUseOwnTicket"), Process::Own);
    assert_eq!(classify("AlreadyConfirmed"), Process::Confirmed);
    assert_eq!(classify(""), Process::Unknown);
    assert_eq!(classify("alreadyconfirmed"), Process::Unknown);
}

#[test]
fn error_is_answered_with_its_message() {
    let error = Error::of(ErrorKind::Exhausted, "not enough tickets");
    assert_eq!(error.status(), 500);
    assert_eq!(error.response_text(), "Something went wrong: not enough tickets");
    assert_eq!(Error::new(ErrorKind::Cooldown, "x".to_string()).message, "x");
}

#[test]
fn decimal_text() {
    assert_eq!(decimal(0), "0");
    assert_eq!(decimal(7), "7");
    assert_eq!(decimal(10), "10");
    assert_eq!(decimal(-1), "-1");
    assert_eq!(decimal(1234567890), "1234567890");
    assert_eq!(decimal(i64::MAX), "9223372036854775807");
    assert_eq!(decimal(i64::MIN), "-9223372036854775808");
}

#[test]
fn integers_are_read_as_std_reads_them() {
    for text in [
        "0", "7", "-7", "+7", "007", "-0", "+", "-", "", " 1", "1 ", "1_000", "12a", "--1",
        "9223372036854775807", "9223372036854775808", "-9223372036854775808",
        "-9223372036854775809", "00000000000000000000000000000000000001",
        "99999999999999999999999999999999999999", "１２",
    ] {
        assert_eq!(parse_i64(text), text.parse::<i64>().ok(), "{:?}", text);
    }
}

#[test]
fn texts_are_joined_as_std_joins_them() {
    for parts in [vec![], vec!["a"], vec!["a", "b"], vec!["", "", ""], vec!["x", "", "y"]] {
        let owned: Vec<String> = parts.iter().map(|s| s.to_string()).collect();
        assert_eq!(join(&owned, " · "), owned.join(" · "));
        assert_eq!(join(&owned, ""), owned.join(""));
    }
}

#[test]
fn occurrences_are_removed_as_std_replaces_them() {
    for (text, pat) in [
        ("2023-05-01T12:34:56.000Z", ".000Z"),
        (".000Z.000Z", ".000Z"),
        ("aaa", "aa"),
        ("abcabc", "bc"),
        ("abc", ""),
        ("", "x"),
        ("xxabxx", "x"),
        ("..000Z000Z", ".000Z"),
    ] {
        assert_eq!(remove_all(text, pat), text.replace(pat, ""), "{:?} {:?}", text, pat);
    }
}

#[test]
fn same_text() {
    assert!(same("", ""));
    assert!(same("abc", "abc"));
    assert!(!same("abc", "abd"));
    assert!(!same("abc", "ab"));
    assert!(same("한글", "한글"));
}

#[test]
fn remote_errors_are_reported_with_their_messages() {
    let error = Error::reported(&vec!["first".to_string(), "second".to_string()]);
    assert_eq!(error.kind, ErrorKind::RemoteProtocol);
    assert_eq!(error.message, "first, second");
    assert_eq!(Error::reported(&vec![]).message, "");
}
