use candid::Principal;
use nest::post::domain::Category;
use nest::post::domain::PostCreateCommand;
use nest::post::domain::PostStatus;
use nest::post::domain::RichText;
use nest::post::service::PostService;

fn create_cmd(title: &str, content: &str, category: &str) -> PostCreateCommand {
    PostCreateCommand {
        title: title.to_string(),
        content: RichText { content: content.to_string(), format: "md".to_string() },
        category: category.to_string(),
        photos: vec![],
    }
}

#[test]
fn add_comment_comment_should_work() {
    let mut svc = PostService::default();
    let id = 10001u64;
    let caller = Principal::anonymous();
    let now = 20220516u64;
    let create_cmd = PostCreateCommand {
        title: "james title".to_string(),
        content: RichText {
            content: "james content".to_string(),
            format: "md".to_string(),
        },
        category: "Tech".to_string(),
        photos: vec![30, 20],
    };

    let res1 = svc.create_post(create_cmd, id, caller, now);

    assert_eq!(res1.unwrap(), 10001u64);

    let res3 = svc.get_post(id).unwrap();
    assert_eq!(res3.title, "james title".to_string());
}

#[test]
fn created_record_has_fresh_defaults() {
    let mut svc = PostService::default();
    let caller = Principal::anonymous();
    let now = 42u64;
    svc.create_post(create_cmd("t", "c", "Law"), 7, caller, now).unwrap();
    let p = svc.get_post(7).unwrap();
    assert_eq!(p.id, 7);
    assert_eq!(p.status, PostStatus::Enable);
    assert_eq!(p.likes_count, 0);
    assert_eq!(p.created_at, now);
    assert_eq!(p.updated_at, now);
    assert_eq!(p.category, Category::Law);
    assert_eq!(p.author, caller);
}

#[test]
fn create_with_taken_id_is_refused() {
    let mut svc = PostService::default();
    let caller = Principal::anonymous();
    svc.create_post(create_cmd("a", "x", "Tech"), 5, caller, 1).unwrap();
    let res = svc.create_post(create_cmd("b", "y", "Tech"), 5, caller, 2);
    assert!(res.is_none());
    // the record already stored survives unchanged
    let p = svc.get_post(5).unwrap();
    assert_eq!(p.title, "a".to_string());
}

#[test]
fn create_scenario_preserves_title_and_category() {
    let mut svc = PostService::default();
    let caller = Principal::anonymous();
    let cmd = PostCreateCommand {
        title: "james title".to_string(),
        content: RichText {
            content: "james content".to_string(),
            format: "md".to_string(),
        },
        category: "Tech".to_string(),
        photos: vec![30, 20],
    };
    let res = svc.create_post(cmd, 10001, caller, 20220516);
    assert_eq!(res.unwrap(), 10001);
    let p = svc.get_post(10001).unwrap();
    assert_eq!(p.title, "james title".to_string());
    assert_eq!(p.category, Category::Tech);
    assert_eq!(p.photos, vec![30, 20]);
    assert_eq!(p.content.content, "james content".to_string());
    assert_eq!(p.content.format, "md".to_string());
}

#[test]
fn category_parsing_is_case_insensitive_with_other_fallback() {
    assert_eq!(Category::from_str("Tech"), Category::Tech);
    assert_eq!(Category::from_str("TECH"), Category::Tech);
    assert_eq!(Category::from_str("law"), Category::Law);
    assert_eq!(Category::from_str("Law"), Category::Law);
    assert_eq!(Category::from_str("biology"), Category::Other);
    assert_eq!(Category::from_str(""), Category::Other);
}

#[test]
fn status_parsing_defaults_to_enable() {
    assert_eq!(PostStatus::from_str("Completed"), PostStatus::Completed);
    assert_eq!(PostStatus::from_str("closed"), PostStatus::Closed);
    assert_eq!(PostStatus::from_str("CLOSED"), PostStatus::Closed);
    assert_eq!(PostStatus::from_str("open"), PostStatus::Enable);
    assert_eq!(PostStatus::from_str(""), PostStatus::Enable);
}

#[test]
fn get_missing_post_returns_nothing() {
    let svc = PostService::default();
    assert!(svc.get_post(1234).is_none());
}

#[test]
fn delete_removes_the_record_permanently() {
    let mut svc = PostService::default();
    let caller = Principal::anonymous();
    svc.create_post(create_cmd("a", "x", "Tech"), 1, caller, 1).unwrap();
    svc.create_post(create_cmd("b", "y", "Tech"), 2, caller, 1).unwrap();
    assert_eq!(svc.delete_post(1), Some(true));
    assert!(svc.get_post(1).is_none());
    assert!(svc.get_post(2).is_some());
    assert!(svc.delete_post(1).is_none());
}
