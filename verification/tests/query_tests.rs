use candid::Principal;
use nest::post::domain::PostCreateCommand;
use nest::post::domain::PostPageQuery;
use nest::post::domain::RichText;
use nest::post::service::PostService;

fn filled_service(titles: &[(&str, &str)]) -> PostService {
    let mut svc = PostService::default();
    let caller = Principal::anonymous();
    for (i, (title, content)) in titles.iter().enumerate() {
        let cmd = PostCreateCommand {
            title: title.to_string(),
            content: RichText { content: content.to_string(), format: "md".to_string() },
            category: "Tech".to_string(),
            photos: vec![],
        };
        svc.create_post(cmd, (i + 1) as u64, caller, 1).unwrap();
    }
    svc
}

fn query(page_size: usize, page_num: usize, querystring: &str) -> PostPageQuery {
    PostPageQuery { page_size, page_num, querystring: querystring.to_string() }
}

#[test]
fn first_page_of_three_records_holds_all_three_in_id_order() {
    let svc = filled_service(&[("a", "1"), ("b", "2"), ("c", "3")]);
    let page = svc.page_posts(&query(10, 0, ""));
    assert_eq!(page.total_count, 3);
    assert_eq!(page.page_size, 10);
    assert_eq!(page.page_num, 0);
    assert_eq!(page.data.len(), 3);
    let ids: Vec<u64> = page.data.iter().map(|p| p.id).collect();
    assert_eq!(ids, vec![1, 2, 3]);
}

#[test]
fn page_length_follows_the_formula() {
    let svc = filled_service(&[("a", "1"), ("b", "2"), ("c", "3"), ("d", "4"), ("e", "5")]);
    // five records, pages of two: lengths 2, 2, 1, 0
    assert_eq!(svc.page_posts(&query(2, 0, "")).data.len(), 2);
    assert_eq!(svc.page_posts(&query(2, 1, "")).data.len(), 2);
    assert_eq!(svc.page_posts(&query(2, 2, "")).data.len(), 1);
    assert_eq!(svc.page_posts(&query(2, 3, "")).data.len(), 0);
    assert_eq!(svc.page_posts(&query(0, 0, "")).data.len(), 0);
    // an out-of-range page is empty, never an error
    assert_eq!(svc.page_posts(&query(10, usize::MAX, "")).data.len(), 0);
}

#[test]
fn filter_matches_title_or_content_but_total_ignores_it() {
    let svc = filled_service(&[
        ("alpha news", "plain"),
        ("beta", "alpha inside"),
        ("gamma", "nothing"),
    ]);
    let page = svc.page_posts(&query(10, 0, "alpha"));
    assert_eq!(page.data.len(), 2);
    assert_eq!(page.data[0].id, 1);
    assert_eq!(page.data[1].id, 2);
    // the reported total is the size of the unfiltered store
    assert_eq!(page.total_count, 3);
    let none = svc.page_posts(&query(10, 0, "zzz"));
    assert_eq!(none.data.len(), 0);
    assert_eq!(none.total_count, 3);
}

#[test]
fn filter_is_case_sensitive_and_literal() {
    let svc = filled_service(&[("Alpha", "x"), ("alpha", "y")]);
    let page = svc.page_posts(&query(10, 0, "Alpha"));
    assert_eq!(page.data.len(), 1);
    assert_eq!(page.data[0].id, 1);
}

#[test]
fn pagination_applies_after_the_filter() {
    let svc = filled_service(&[
        ("hit one", "a"),
        ("miss", "b"),
        ("hit two", "c"),
        ("hit three", "d"),
    ]);
    let page = svc.page_posts(&query(2, 1, "hit"));
    // three matches, pages of two: the second page holds the last match
    assert_eq!(page.data.len(), 1);
    assert_eq!(page.data[0].id, 4);
    assert_eq!(page.total_count, 4);
}
