//! The post record store and the operations the lifecycle service performs
//! on it, together with the query engine.

use vstd::prelude::*;

use crate::error::PostError;
use crate::post::domain::PostChangeStatusCommand;
use crate::post::domain::PostCreateCommand;
use crate::post::domain::PostCreateCommandView;
use crate::post::domain::PostEditCommand;
use crate::post::domain::PostId;
use crate::post::domain::PostPage;
use crate::post::domain::PostPageQuery;
use crate::post::domain::PostProfile;
use crate::post::domain::PostProfileView;
use crate::post::domain::PostStatus;
use crate::post::domain::Timestamp;
use crate::post::domain::merged;
use crate::post::domain::spec_parse_status;
use crate::store::Keyed;
use crate::store::lemma_lookup_found;
use crate::store::lemma_lookup_none;
use crate::store::lemma_remove_at;
use crate::store::lemma_remove_sorted;
use crate::store::lemma_upsert_at;
use crate::store::lemma_upsert_lookup;
use crate::store::lemma_upsert_prefix;
use crate::store::lemma_upsert_sorted;
use crate::store::lookup;
use crate::store::remove_key;
use crate::store::sorted_by_key;
use crate::store::upsert;
use crate::text::contains_sub;
use crate::text::is_substring;

verus! {

/// A record matches a query when the query is empty or occurs literally in
/// the title or in the raw content text.
pub open spec fn matches_query(p: PostProfileView, q: Seq<char>) -> bool {
    q.len() == 0 || is_substring(p.title, q) || is_substring(p.content.content, q)
}

/// The slice of `s` a page selects: skip `num` pages of `size` records, then
/// take up to `size` records.
pub open spec fn page_of<A>(s: Seq<A>, size: int, num: int) -> Seq<A> {
    let start = if num * size <= s.len() {
        num * size
    } else {
        s.len() as int
    };
    let end = if num * size + size <= s.len() {
        num * size + size
    } else {
        s.len() as int
    };
    s.subrange(start, end)
}

/// The source of truth: the post records in strictly ascending id order.
pub struct PostService {
    pub posts: Vec<PostProfile>,
}

impl View for PostService {
    type V = Seq<PostProfileView>;

    open spec fn view(&self) -> Seq<PostProfileView> {
        self.posts@.map_values(|p: PostProfile| p@)
    }
}

impl Default for PostService {
    fn default() -> (r: Self)
        ensures
            r@ == Seq::<PostProfileView>::empty(),
            r.wf(),
    {
        let r = PostService { posts: Vec::new() };
        proof {
            assert(r@ =~= Seq::<PostProfileView>::empty());
        }
        r
    }
}

impl PostService {
    /// The store's invariant: records sit in strictly ascending id order.
    pub open spec fn wf(self) -> bool {
        sorted_by_key(self@)
    }

    /// The index of the record with the given id, scanning from the front.
    fn find_index(&self, id: PostId) -> (r: Option<usize>)
        ensures
            match r {
                Some(i) => i < self.posts.len() && self@[i as int].id == id && lookup(self@, id)
                    == Some(self@[i as int]) && (forall|j: int| 0 <= j < i ==> self@[j].id != id),
                None => lookup(self@, id) is None,
            },
    {
        let mut i: usize = 0;
        while i < self.posts.len()
            invariant
                i <= self.posts.len(),
                forall|j: int| 0 <= j < i ==> self@[j].id != id,
            decreases self.posts.len() - i,
        {
            if self.posts[i].id == id {
                proof {
                    lemma_lookup_found(self@, id, i as int);
                }
                return Some(i);
            }
            i += 1;
        }
        proof {
            lemma_lookup_none(self@, id);
        }
        None
    }

    /// Insert `p` in id order, replacing the record with the same id if one
    /// is already present.
    pub(crate) fn insert_profile(&mut self, p: PostProfile)
        requires
            old(self).wf(),
        ensures
            final(self).wf(),
            final(self)@ == upsert(old(self)@, p@),
    {
        let ghost s = self@;
        let mut i: usize = 0;
        while i < self.posts.len() && self.posts[i].id < p.id
            invariant
                i <= self.posts.len(),
                forall|j: int| 0 <= j < i ==> self@[j].id < p@.id,
                *self == *old(self),
            decreases self.posts.len() - i,
        {
            i += 1;
        }
        proof {
            lemma_upsert_prefix(s, p@, i as int);
            lemma_upsert_sorted(s, p@);
        }
        if i < self.posts.len() && self.posts[i].id == p.id {
            proof {
                lemma_upsert_at(s, p@, i as int);
            }
            self.posts.remove(i);
            self.posts.insert(i, p);
            proof {
                assert(self@ =~= s.update(i as int, p@));
            }
        } else {
            self.posts.insert(i, p);
            proof {
                if i < s.len() {
                    assert(s.skip(i as int)[0] == s[i as int]);
                    assert(upsert(s.skip(i as int), p@) == seq![p@] + s.skip(i as int));
                } else {
                    assert(s.skip(i as int) =~= Seq::<PostProfileView>::empty());
                }
                assert(self@ =~= s.take(i as int) + upsert(s.skip(i as int), p@));
            }
        }
    }

    /// Create a record under the given id; refused when the id is taken.
    pub fn create_post(
        &mut self,
        cmd: PostCreateCommand,
        id: u64,
        caller: candid::Principal,
        now: Timestamp,
    ) -> (r: Option<u64>)
        requires
            old(self).wf(),
        ensures
            final(self).wf(),
            match r {
                Some(rid) => rid == id && lookup(old(self)@, id) is None && final(self)@ == upsert(
                    old(self)@,
                    cmd@.built(id, caller, PostStatus::Enable, now),
                ) && lookup(final(self)@, id) == Some(
                    cmd@.built(id, caller, PostStatus::Enable, now),
                ),
                None => lookup(old(self)@, id) is Some && final(self)@ == old(self)@,
            },
    {
        match self.find_index(id) {
            Some(_) => None,
            None => {
                let ghost s = self@;
                let profile = cmd.build_profile(id, caller, PostStatus::Enable, now);
                self.insert_profile(profile);
                proof {
                    lemma_upsert_lookup(s, profile@, id);
                }
                Some(id)
            },
        }
    }

    /// Replace the mutable fields of the record the command names.
    pub fn edit_post(&mut self, cmd: PostEditCommand) -> (r: Option<bool>)
        requires
            old(self).wf(),
        ensures
            final(self).wf(),
            match r {
                Some(b) => b && lookup(old(self)@, cmd.id) is Some && final(self)@ == upsert(
                    old(self)@,
                    merged(lookup(old(self)@, cmd.id)->Some_0, cmd@),
                ),
                None => lookup(old(self)@, cmd.id) is None && final(self)@ == old(self)@,
            },
    {
        let ghost s = self@;
        match self.find_index(cmd.id) {
            Some(i) => {
                let mut profile = self.posts.remove(i);
                let ghost m = merged(profile@, cmd@);
                cmd.merge_profile(&mut profile);
                self.posts.insert(i, profile);
                proof {
                    assert(self@ =~= s.update(i as int, m));
                    assert(forall|j: int| 0 <= j < i ==> s[j].id != cmd.id);
                    assert(forall|j: int| 0 <= j < i ==> s[j].key() < m.key()) by {
                        assert(forall|j: int| 0 <= j < i ==> s[j].key() < s[i as int].key());
                    }
                    lemma_upsert_at(s, m, i as int);
                    lemma_upsert_sorted(s, m);
                }
                Some(true)
            },
            None => None,
        }
    }

    /// Move the record to the status the command's free text names; allowed
    /// only while the record is `Enable`d.
    pub fn change_post_status(
        &mut self,
        cmd: PostChangeStatusCommand,
        _caller: candid::Principal,
        _now: Timestamp,
    ) -> (r: Result<bool, PostError>)
        requires
            old(self).wf(),
        ensures
            final(self).wf(),
            match lookup(old(self)@, cmd.id) {
                None => r == Err::<bool, PostError>(PostError::PostNotFound) && final(self)@
                    == old(self)@,
                Some(p) => if p.status != PostStatus::Enable {
                    r == Err::<bool, PostError>(PostError::PostAlreadyCompleted) && final(self)@
                        == old(self)@
                } else {
                    r == Ok::<bool, PostError>(true) && final(self)@ == upsert(
                        old(self)@,
                        (PostProfileView { status: spec_parse_status(cmd.status@), ..p }),
                    )
                },
            },
    {
        let ghost s = self@;
        match self.find_index(cmd.id) {
            Some(i) => {
                if !self.posts[i].is_active() {
                    return Err(PostError::PostAlreadyCompleted);
                }
                let mut profile = self.posts.remove(i);
                let new_status = PostStatus::from_str(cmd.status.as_str());
                profile.status = new_status;
                let ghost m = profile@;
                self.posts.insert(i, profile);
                proof {
                    assert(self@ =~= s.update(i as int, m));
                    assert(m =~= (PostProfileView { status: spec_parse_status(cmd.status@), ..s[i as int] }));
                    assert(forall|j: int| 0 <= j < i ==> s[j].key() < m.key()) by {
                        assert(forall|j: int| 0 <= j < i ==> s[j].key() < s[i as int].key());
                    }
                    lemma_upsert_at(s, m, i as int);
                    lemma_upsert_sorted(s, m);
                }
                Ok(true)
            },
            None => Err(PostError::PostNotFound),
        }
    }

    /// Remove the record permanently; no tombstone is left.
    pub fn delete_post(&mut self, id: PostId) -> (r: Option<bool>)
        requires
            old(self).wf(),
        ensures
            final(self).wf(),
            match r {
                Some(b) => b && lookup(old(self)@, id) is Some && final(self)@ == remove_key(
                    old(self)@,
                    id,
                ),
                None => lookup(old(self)@, id) is None && final(self)@ == old(self)@,
            },
    {
        let ghost s = self@;
        match self.find_index(id) {
            Some(i) => {
                self.posts.remove(i);
                proof {
                    assert(self@ =~= s.remove(i as int));
                    lemma_remove_at(s, id, i as int);
                    lemma_remove_sorted(s, id);
                }
                Some(true)
            },
            None => None,
        }
    }

    /// Look a record up by id and hand back a copy of it.
    pub fn get_post(&self, id: PostId) -> (r: Option<PostProfile>)
        ensures
            match r {
                Some(p) => lookup(self@, id) == Some(p@),
                None => lookup(self@, id) is None,
            },
    {
        match self.find_index(id) {
            Some(i) => Some(self.posts[i].clone()),
            None => None,
        }
    }

    /// Filter the store by the query text, then cut out the requested page.
    /// The reported total is the size of the unfiltered store.
    pub fn page_posts(&self, query_args: &PostPageQuery) -> (r: PostPage)
        ensures
            r.page_size == query_args.page_size,
            r.page_num == query_args.page_num,
            r.total_count == self@.len(),
            r.data@.map_values(|p: PostProfile| p@) == page_of(
                self@.filter(|p: PostProfileView| matches_query(p, query_args.querystring@)),
                query_args.page_size as int,
                query_args.page_num as int,
            ),
    {
        let ghost pred = |p: PostProfileView| matches_query(p, query_args.querystring@);
        let mut matched: Vec<PostProfile> = Vec::new();
        let mut i: usize = 0;
        proof {
            assert(self@.take(0).filter(pred) =~= Seq::<PostProfileView>::empty()) by {
                reveal(Seq::filter);
                assert(self@.take(0) =~= Seq::<PostProfileView>::empty());
            }
            assert(matched@.map_values(|p: PostProfile| p@) =~= Seq::<PostProfileView>::empty());
        }
        while i < self.posts.len()
            invariant
                i <= self.posts.len(),
                pred == (|p: PostProfileView| matches_query(p, query_args.querystring@)),
                matched@.map_values(|p: PostProfile| p@) == self@.take(i as int).filter(pred),
            decreases self.posts.len() - i,
        {
            let ghost taken = self@.take(i as int);
            let ghost acc = matched@.map_values(|p: PostProfile| p@);
            let p = &self.posts[i];
            let hit = query_args.querystring.as_str().is_empty() || contains_sub(
                p.title.as_str(),
                query_args.querystring.as_str(),
            ) || contains_sub(p.content.content.as_str(), query_args.querystring.as_str());
            proof {
                assert(hit == pred(p@));
                assert(self@.take(i + 1).drop_last() =~= taken);
                assert(self@.take(i + 1).last() == self@[i as int]);
                reveal(Seq::filter);
            }
            if hit {
                matched.push(p.clone());
                proof {
                    assert(matched@.map_values(|p: PostProfile| p@) =~= acc.push(
                        self@[i as int],
                    ));
                }
            }
            i += 1;
        }
        proof {
            assert(self@.take(self.posts.len() as int) =~= self@);
        }
        let ghost filtered = self@.filter(pred);
        let total_count = self.posts.len();
        let start: usize = match query_args.page_num.checked_mul(query_args.page_size) {
            Some(skip) => if skip <= matched.len() {
                skip
            } else {
                matched.len()
            },
            None => matched.len(),
        };
        let end: usize = if query_args.page_size <= matched.len() - start {
            start + query_args.page_size
        } else {
            matched.len()
        };
        let mut data: Vec<PostProfile> = Vec::new();
        let mut j: usize = start;
        proof {
            assert(matched@.map_values(|p: PostProfile| p@).len() == matched@.len());
            assert(data@.map_values(|p: PostProfile| p@) =~= filtered.subrange(
                start as int,
                start as int,
            ));
        }
        while j < end
            invariant
                start <= j <= end,
                end <= matched.len(),
                matched@.map_values(|p: PostProfile| p@) == filtered,
                data@.map_values(|p: PostProfile| p@) == filtered.subrange(start as int, j as int),
            decreases end - j,
        {
            let ghost acc = data@.map_values(|p: PostProfile| p@);
            data.push(matched[j].clone());
            proof {
                assert(data@.map_values(|p: PostProfile| p@) =~= acc.push(filtered[j as int]));
                assert(filtered.subrange(start as int, j + 1) =~= filtered.subrange(
                    start as int,
                    j as int,
                ).push(filtered[j as int]));
            }
            j += 1;
        }
        proof {
            assert(data@.map_values(|p: PostProfile| p@) =~= page_of(
                filtered,
                query_args.page_size as int,
                query_args.page_num as int,
            ));
        }
        PostPage { data, page_size: query_args.page_size, page_num: query_args.page_num, total_count }
    }
}


/// A lookup right after a create finds the freshly built record: status
/// `Enable`, zero likes, and both timestamps equal to the supplied time.
pub proof fn lemma_created_record_is_fresh(
    s: Seq<PostProfileView>,
    cmd: PostCreateCommandView,
    id: u64,
    caller: candid::Principal,
    now: Timestamp,
)
    ensures
        lookup(upsert(s, cmd.built(id, caller, PostStatus::Enable, now)), id) == Some(
            cmd.built(id, caller, PostStatus::Enable, now),
        ),
        cmd.built(id, caller, PostStatus::Enable, now).status == PostStatus::Enable,
        cmd.built(id, caller, PostStatus::Enable, now).likes_count == 0,
        cmd.built(id, caller, PostStatus::Enable, now).created_at == now,
        cmd.built(id, caller, PostStatus::Enable, now).updated_at == now,
{
    lemma_upsert_lookup(s, cmd.built(id, caller, PostStatus::Enable, now), id);
}

/// With an empty query every record matches, so the filter keeps the whole
/// store.
pub proof fn lemma_empty_query_keeps_all(s: Seq<PostProfileView>)
    ensures
        s.filter(|p: PostProfileView| matches_query(p, Seq::<char>::empty())) == s,
    decreases s.len(),
{
    reveal(Seq::filter);
    if s.len() > 0 {
        lemma_empty_query_keeps_all(s.drop_last());
        assert(s.drop_last().push(s.last()) =~= s);
    }
}

/// Page arithmetic: one page holds `max(0, min(size, s.len() - num * size))`
/// records.
pub proof fn lemma_page_len<A>(s: Seq<A>, size: int, num: int)
    requires
        0 <= size,
        0 <= num,
    ensures
        page_of(s, size, num).len() == if num * size >= s.len() {
            0int
        } else if s.len() - num * size < size {
            s.len() - num * size
        } else {
            size
        },
{
    assert(num * size >= 0) by (nonlinear_arith)
        requires
            0 <= size,
            0 <= num,
    ;
}

/// Pagination over an unfiltered store: with the empty query, a store of `n`
/// records pages into `max(0, min(size, n - num * size))` records, while the
/// reported total stays `n` whatever the filter was.
pub proof fn lemma_unfiltered_page_len(s: Seq<PostProfileView>, size: int, num: int)
    requires
        0 <= size,
        0 <= num,
    ensures
        page_of(
            s.filter(|p: PostProfileView| matches_query(p, Seq::<char>::empty())),
            size,
            num,
        ).len() == if num * size >= s.len() {
            0int
        } else if s.len() - num * size < size {
            s.len() - num * size
        } else {
            size
        },
{
    lemma_empty_query_keeps_all(s);
    lemma_page_len(s, size, num);
}

} // verus!
