//! The post data model: records, their views, and the transient command
//! objects that carry an operation's inputs.

use vstd::prelude::*;

use crate::store::Keyed;
use crate::text::lower_of;
use crate::text::lowercase;

verus! {

pub type PostId = u64;

pub type Timestamp = u64;

/// Rich text: the raw text together with a format tag.
pub struct RichText {
    pub content: String,
    pub format: String,
}

#[verifier::ext_equal]
pub struct RichTextView {
    pub content: Seq<char>,
    pub format: Seq<char>,
}

impl View for RichText {
    type V = RichTextView;

    open spec fn view(&self) -> RichTextView {
        RichTextView { content: self.content@, format: self.format@ }
    }
}

impl Clone for RichText {
    fn clone(&self) -> (r: Self)
        ensures
            r@ == self@,
    {
        let r = RichText { content: self.content.clone(), format: self.format.clone() };
        proof {
            assert(r@ =~= self@);
        }
        r
    }
}

#[derive(Debug, Clone, Copy, PartialEq, Eq, Structural)]
pub enum Category {
    Tech,
    Law,
    Other,
}

/// The category a free-text value is coerced to: case-insensitive match on
/// the known names, anything unrecognized becomes `Other`, never an error.
pub open spec fn spec_parse_category(s: Seq<char>) -> Category {
    if lower_of(s) == "law"@ {
        Category::Law
    } else if lower_of(s) == "tech"@ {
        Category::Tech
    } else {
        Category::Other
    }
}

impl Category {
    pub fn from_str(s: &str) -> (r: Category)
        ensures
            r == spec_parse_category(s@),
    {
        let low = lowercase(s);
        if low == String::from_str("law") {
            Category::Law
        } else if low == String::from_str("tech") {
            Category::Tech
        } else {
            Category::Other
        }
    }
}

#[derive(Debug, Clone, Copy, PartialEq, Eq, Structural)]
pub enum PostStatus {
    Enable,
    Completed,
    Closed,
}

/// The status a free-text value is coerced to: case-insensitive match on the
/// known names, anything unrecognized falls back to `Enable`.
pub open spec fn spec_parse_status(s: Seq<char>) -> PostStatus {
    if lower_of(s) == "completed"@ {
        PostStatus::Completed
    } else if lower_of(s) == "closed"@ {
        PostStatus::Closed
    } else {
        PostStatus::Enable
    }
}

impl PostStatus {
    pub fn from_str(s: &str) -> (r: PostStatus)
        ensures
            r == spec_parse_status(s@),
    {
        let low = lowercase(s);
        if low == String::from_str("completed") {
            PostStatus::Completed
        } else if low == String::from_str("closed") {
            PostStatus::Closed
        } else {
            PostStatus::Enable
        }
    }
}

#[derive(Debug, Clone, Copy, PartialEq, Eq, Structural)]
pub enum EventStatus {
    Enable,
    Disable,
}

/// A single post's persisted data.
pub struct PostProfile {
    pub id: PostId,
    pub author: candid::Principal,
    pub title: String,
    pub content: RichText,
    pub category: Category,
    pub photos: Vec<u64>,
    pub likes_count: u64,
    pub status: PostStatus,
    pub created_at: Timestamp,
    pub updated_at: Timestamp,
}

/// The mathematical value of a post record.
#[verifier::ext_equal]
pub struct PostProfileView {
    pub id: PostId,
    pub author: candid::Principal,
    pub title: Seq<char>,
    pub content: RichTextView,
    pub category: Category,
    pub photos: Seq<u64>,
    pub likes_count: u64,
    pub status: PostStatus,
    pub created_at: Timestamp,
    pub updated_at: Timestamp,
}

impl View for PostProfile {
    type V = PostProfileView;

    open spec fn view(&self) -> PostProfileView {
        PostProfileView {
            id: self.id,
            author: self.author,
            title: self.title@,
            content: self.content@,
            category: self.category,
            photos: self.photos@,
            likes_count: self.likes_count,
            status: self.status,
            created_at: self.created_at,
            updated_at: self.updated_at,
        }
    }
}

impl Keyed for PostProfileView {
    open spec fn key(self) -> u64 {
        self.id
    }
}

impl Clone for PostProfile {
    fn clone(&self) -> (r: Self)
        ensures
            r@ == self@,
    {
        let r = PostProfile {
            id: self.id,
            author: self.author,
            title: self.title.clone(),
            content: self.content.clone(),
            category: self.category,
            photos: self.photos.clone(),
            likes_count: self.likes_count,
            status: self.status,
            created_at: self.created_at,
            updated_at: self.updated_at,
        };
        proof {
            assert(r.photos@ =~= self.photos@);
            assert(r@ =~= self@);
        }
        r
    }
}

impl PostProfile {
    /// A freshly created record: zero likes, and the update time equal to the
    /// creation time.
    pub fn new(
        id: u64,
        author: candid::Principal,
        title: String,
        content: RichText,
        category: Category,
        photos: Vec<u64>,
        status: PostStatus,
        created_at: Timestamp,
    ) -> (r: Self)
        ensures
            r@ == (PostProfileView {
                id,
                author,
                title: title@,
                content: content@,
                category,
                photos: photos@,
                likes_count: 0,
                status,
                created_at,
                updated_at: created_at,
            }),
    {
        let r = Self {
            id,
            author,
            title,
            content,
            category,
            photos,
            likes_count: 0,
            status,
            created_at,
            updated_at: created_at,
        };
        proof {
            assert(r@ =~= (PostProfileView {
                id,
                author,
                title: r.title@,
                content: r.content@,
                category,
                photos: r.photos@,
                likes_count: 0,
                status,
                created_at,
                updated_at: created_at,
            }));
        }
        r
    }

    /// A record accepts mutating operations only while it is `Enable`d.
    pub fn is_active(&self) -> (r: bool)
        ensures
            r == (self.status == PostStatus::Enable),
    {
        self.status == PostStatus::Enable
    }
}

/// The inputs of a create operation.
pub struct PostCreateCommand {
    pub title: String,
    pub content: RichText,
    pub category: String,
    pub photos: Vec<u64>,
}

#[verifier::ext_equal]
pub struct PostCreateCommandView {
    pub title: Seq<char>,
    pub content: RichTextView,
    pub category: Seq<char>,
    pub photos: Seq<u64>,
}

impl View for PostCreateCommand {
    type V = PostCreateCommandView;

    open spec fn view(&self) -> PostCreateCommandView {
        PostCreateCommandView {
            title: self.title@,
            content: self.content@,
            category: self.category@,
            photos: self.photos@,
        }
    }
}

impl PostCreateCommandView {
    /// The record a create command builds.
    pub open spec fn built(
        self,
        id: u64,
        owner: candid::Principal,
        status: PostStatus,
        now: Timestamp,
    ) -> PostProfileView {
        PostProfileView {
            id,
            author: owner,
            title: self.title,
            content: self.content,
            category: spec_parse_category(self.category),
            photos: self.photos,
            likes_count: 0,
            status,
            created_at: now,
            updated_at: now,
        }
    }
}

impl PostCreateCommand {
    pub fn build_profile(
        self,
        id: u64,
        owner: candid::Principal,
        status: PostStatus,
        now: Timestamp,
    ) -> (r: PostProfile)
        ensures
            r@ == self@.built(id, owner, status, now),
    {
        let ghost pre = self@;
        let category = Category::from_str(self.category.as_str());
        let r = PostProfile::new(id, owner, self.title, self.content, category, self.photos, status, now);
        proof {
            assert(r@ =~= pre.built(id, owner, status, now));
        }
        r
    }
}

/// The inputs of an edit operation: a full replacement of the mutable fields.
pub struct PostEditCommand {
    pub id: u64,
    pub title: String,
    pub content: RichText,
    pub category: String,
    pub photos: Vec<u64>,
    pub status: PostStatus,
}

#[verifier::ext_equal]
pub struct PostEditCommandView {
    pub id: u64,
    pub title: Seq<char>,
    pub content: RichTextView,
    pub category: Seq<char>,
    pub photos: Seq<u64>,
    pub status: PostStatus,
}

impl View for PostEditCommand {
    type V = PostEditCommandView;

    open spec fn view(&self) -> PostEditCommandView {
        PostEditCommandView {
            id: self.id,
            title: self.title@,
            content: self.content@,
            category: self.category@,
            photos: self.photos@,
            status: self.status,
        }
    }
}

/// The record an edit leaves behind: the command's fields replace the
/// mutable ones wholesale, while identity, author, likes and both timestamps
/// stay as they were.
pub open spec fn merged(p: PostProfileView, c: PostEditCommandView) -> PostProfileView {
    PostProfileView {
        id: p.id,
        author: p.author,
        title: c.title,
        content: c.content,
        category: spec_parse_category(c.category),
        photos: c.photos,
        likes_count: p.likes_count,
        status: c.status,
        created_at: p.created_at,
        updated_at: p.updated_at,
    }
}

impl PostEditCommand {
    pub fn merge_profile(self, profile: &mut PostProfile)
        requires
            self.id == old(profile).id,
        ensures
            final(profile)@ == merged(old(profile)@, self@),
    {
        let ghost pre = profile@;
        let ghost cmd = self@;
        profile.title = self.title;
        profile.content = self.content;
        profile.category = Category::from_str(self.category.as_str());
        profile.photos = self.photos;
        profile.status = self.status;
        proof {
            assert(profile@ =~= merged(pre, cmd));
        }
    }
}

/// An operation that names a record by its id alone.
pub struct PostIdCommand {
    pub id: u64,
}

/// The inputs of a status change; the description is carried but unused.
pub struct PostChangeStatusCommand {
    pub id: u64,
    pub status: String,
    pub description: String,
}

/// One page of query results, together with the echoed query shape and the
/// size of the whole (unfiltered) store.
pub struct PostPage {
    pub data: Vec<PostProfile>,
    pub page_size: usize,
    pub page_num: usize,
    pub total_count: usize,
}

/// The inputs of a paginated query.
pub struct PostPageQuery {
    pub page_size: usize,
    pub page_num: usize,
    pub querystring: String,
}

} // verus!
