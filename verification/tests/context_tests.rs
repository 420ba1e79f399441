use candid::Principal;
use nest::context::DaoContext;
use nest::context::DaoDataStorage;
use nest::error::PostError;
use nest::post::domain::PostChangeStatusCommand;
use nest::post::domain::PostCreateCommand;
use nest::post::domain::PostEditCommand;
use nest::post::domain::PostIdCommand;
use nest::post::domain::PostStatus;
use nest::post::domain::RichText;

fn create_cmd(title: &str, content: &str, category: &str) -> PostCreateCommand {
    PostCreateCommand {
        title: title.to_string(),
        content: RichText { content: content.to_string(), format: "md".to_string() },
        category: category.to_string(),
        photos: vec![],
    }
}

fn edit_cmd(id: u64, title: &str) -> PostEditCommand {
    PostEditCommand {
        id,
        title: title.to_string(),
        content: RichText { content: "edited".to_string(), format: "md".to_string() },
        category: "law".to_string(),
        photos: vec![9],
        status: PostStatus::Enable,
    }
}

fn status_cmd(id: u64, status: &str) -> PostChangeStatusCommand {
    PostChangeStatusCommand {
        id,
        status: status.to_string(),
        description: "".to_string(),
    }
}

fn other_caller() -> Principal {
    Principal::from_slice(&[1, 2, 3])
}

#[test]
fn successful_creates_hand_out_increasing_ids() {
    let mut ctx = DaoContext::default();
    let caller = Principal::anonymous();
    let id1 = ctx.create_post(create_cmd("a", "x", "Tech"), caller, 1).unwrap();
    let id2 = ctx.create_post(create_cmd("b", "y", "Tech"), caller, 2).unwrap();
    assert_eq!(id1, 10001);
    assert_eq!(id2, 10002);
    assert_eq!(ctx.id, 10003);
}

#[test]
fn failed_create_leaves_the_counter_unchanged() {
    let mut ctx = DaoContext::default();
    let caller = Principal::anonymous();
    ctx.create_post(create_cmd("a", "x", "Tech"), caller, 1).unwrap();
    // wind the counter back so the next create collides with the stored id
    ctx.id = 10001;
    let res = ctx.create_post(create_cmd("b", "y", "Tech"), caller, 2);
    assert_eq!(res, Err(PostError::PostAlreadyExists));
    assert_eq!(ctx.id, 10001);
    let p = ctx.get_post(PostIdCommand { id: 10001 }).unwrap();
    assert_eq!(p.title, "a".to_string());
}

#[test]
fn completed_record_refuses_every_transition() {
    let mut ctx = DaoContext::default();
    let caller = Principal::anonymous();
    let id = ctx.create_post(create_cmd("a", "x", "Tech"), caller, 1).unwrap();
    assert_eq!(ctx.change_post_status(status_cmd(id, "completed"), caller, 2), Ok(true));
    let p = ctx.get_post(PostIdCommand { id }).unwrap();
    assert_eq!(p.status, PostStatus::Completed);
    assert_eq!(
        ctx.change_post_status(status_cmd(id, "closed"), caller, 3),
        Err(PostError::PostAlreadyCompleted)
    );
    assert_eq!(ctx.edit_post(edit_cmd(id, "new"), caller), Err(PostError::PostAlreadyCompleted));
    assert_eq!(
        ctx.delete_post(PostIdCommand { id }, caller),
        Err(PostError::PostAlreadyCompleted)
    );
    assert!(ctx.get_post(PostIdCommand { id }).is_ok());
}

#[test]
fn closed_record_still_accepts_edit_and_delete() {
    let mut ctx = DaoContext::default();
    let caller = Principal::anonymous();
    let id1 = ctx.create_post(create_cmd("a", "x", "Tech"), caller, 1).unwrap();
    let id2 = ctx.create_post(create_cmd("b", "y", "Tech"), caller, 1).unwrap();
    assert_eq!(ctx.change_post_status(status_cmd(id1, "closed"), caller, 2), Ok(true));
    assert_eq!(ctx.change_post_status(status_cmd(id2, "closed"), caller, 2), Ok(true));
    // no further status change is permitted once the record left Enable
    assert_eq!(
        ctx.change_post_status(status_cmd(id1, "completed"), caller, 3),
        Err(PostError::PostAlreadyCompleted)
    );
    // but a closed record still accepts edit and delete
    assert_eq!(ctx.edit_post(edit_cmd(id1, "patched"), caller), Ok(true));
    assert_eq!(ctx.get_post(PostIdCommand { id: id1 }).unwrap().title, "patched".to_string());
    assert_eq!(ctx.delete_post(PostIdCommand { id: id2 }, caller), Ok(true));
    assert!(ctx.get_post(PostIdCommand { id: id2 }).is_err());
}

#[test]
fn change_to_closed_scenario() {
    let mut ctx = DaoContext::default();
    let caller = Principal::anonymous();
    let id = ctx.create_post(create_cmd("james title", "james content", "Tech"), caller, 1).unwrap();
    assert_eq!(id, 10001);
    assert_eq!(ctx.change_post_status(status_cmd(10001, "closed"), caller, 2), Ok(true));
    assert_eq!(ctx.get_post(PostIdCommand { id: 10001 }).unwrap().status, PostStatus::Closed);
    assert_eq!(
        ctx.change_post_status(status_cmd(10001, "enable"), caller, 3),
        Err(PostError::PostAlreadyCompleted)
    );
}

#[test]
fn non_author_is_refused_whatever_the_status() {
    let mut ctx = DaoContext::default();
    let author = Principal::anonymous();
    let stranger = other_caller();
    let id1 = ctx.create_post(create_cmd("a", "x", "Tech"), author, 1).unwrap();
    let id2 = ctx.create_post(create_cmd("b", "y", "Tech"), author, 1).unwrap();
    ctx.change_post_status(status_cmd(id2, "completed"), author, 2).unwrap();
    for id in [id1, id2] {
        assert_eq!(
            ctx.edit_post(edit_cmd(id, "grab"), stranger),
            Err(PostError::PostUnAuthorizedOperation)
        );
        assert_eq!(
            ctx.change_post_status(status_cmd(id, "closed"), stranger, 3),
            Err(PostError::PostUnAuthorizedOperation)
        );
        assert_eq!(
            ctx.delete_post(PostIdCommand { id }, stranger),
            Err(PostError::PostUnAuthorizedOperation)
        );
    }
}

#[test]
fn missing_record_reports_not_found() {
    let mut ctx = DaoContext::default();
    let caller = Principal::anonymous();
    assert_eq!(ctx.edit_post(edit_cmd(77, "t"), caller), Err(PostError::PostNotFound));
    assert_eq!(
        ctx.change_post_status(status_cmd(77, "closed"), caller, 1),
        Err(PostError::PostNotFound)
    );
    assert_eq!(
        ctx.delete_post(PostIdCommand { id: 77 }, caller),
        Err(PostError::PostNotFound)
    );
    assert_eq!(
        ctx.get_post(PostIdCommand { id: 77 }).err(),
        Some(PostError::PostNotFound)
    );
}

#[test]
fn edit_replaces_fields_but_not_timestamps() {
    let mut ctx = DaoContext::default();
    let caller = Principal::anonymous();
    let id = ctx.create_post(create_cmd("a", "x", "Tech"), caller, 5).unwrap();
    assert_eq!(ctx.edit_post(edit_cmd(id, "fresh"), caller), Ok(true));
    let p = ctx.get_post(PostIdCommand { id }).unwrap();
    assert_eq!(p.title, "fresh".to_string());
    assert_eq!(p.content.content, "edited".to_string());
    assert_eq!(p.photos, vec![9]);
    assert_eq!(p.created_at, 5);
    assert_eq!(p.updated_at, 5);
    assert_eq!(p.likes_count, 0);
    assert_eq!(p.author, caller);
}

#[test]
fn snapshot_round_trip_reproduces_the_store() {
    let mut ctx = DaoContext::default();
    let caller = Principal::anonymous();
    ctx.create_post(create_cmd("a", "x", "Tech"), caller, 1).unwrap();
    ctx.create_post(create_cmd("b", "y", "law"), caller, 2).unwrap();
    let snapshot = DaoDataStorage::from(ctx);
    assert_eq!(snapshot.id, 10003);
    assert_eq!(snapshot.posts.len(), 2);
    let restored = DaoContext::from(snapshot);
    assert_eq!(restored.id, 10003);
    let p1 = restored.get_post(PostIdCommand { id: 10001 }).unwrap();
    let p2 = restored.get_post(PostIdCommand { id: 10002 }).unwrap();
    assert_eq!(p1.title, "a".to_string());
    assert_eq!(p1.created_at, 1);
    assert_eq!(p2.title, "b".to_string());
    assert_eq!(p2.content.content, "y".to_string());
}

#[test]
fn snapshot_restore_is_last_write_wins_on_duplicate_ids() {
    let mut ctx = DaoContext::default();
    let caller = Principal::anonymous();
    ctx.create_post(create_cmd("early", "x", "Tech"), caller, 1).unwrap();
    let mut snapshot = DaoDataStorage::from(ctx);
    let mut dup = snapshot.posts[0].clone();
    dup.title = "late".to_string();
    snapshot.posts.push(dup);
    let restored = DaoContext::from(snapshot);
    let p = restored.get_post(PostIdCommand { id: 10001 }).unwrap();
    assert_eq!(p.title, "late".to_string());
}
