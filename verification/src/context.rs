//! The process-wide context: the id allocator and the post record store,
//! the request-level operations that enforce ownership and status guards,
//! and the snapshot form that survives a restart.

use vstd::prelude::*;

use crate::error::PostError;
use crate::post::domain::PostChangeStatusCommand;
use crate::post::domain::PostCreateCommand;
use crate::post::domain::PostEditCommand;
use crate::post::domain::PostIdCommand;
use crate::post::domain::PostPage;
use crate::post::domain::PostPageQuery;
use crate::post::domain::PostProfile;
use crate::post::domain::PostProfileView;
use crate::post::domain::PostStatus;
use crate::post::domain::Timestamp;
use crate::post::domain::merged;
use crate::post::domain::spec_parse_status;
use crate::post::service::PostService;
use crate::post::service::matches_query;
use crate::post::service::page_of;
use crate::principal::principal_eq;
use crate::store::Keyed;
use crate::store::lemma_lookup_none;
use crate::store::lemma_rebuild_sorted;
use crate::store::lemma_upsert_keys;
use crate::store::lookup;
use crate::store::rebuild;
use crate::store::remove_key;
use crate::store::sorted_by_key;
use crate::store::upsert;

verus! {

/// The serializable flattening of the context: the counter and the records
/// in the store's iteration order.
pub struct DaoDataStorage {
    pub id: u64,
    pub posts: Vec<PostProfile>,
}

/// The owner of the record store and the id counter.
pub struct DaoContext {
    pub id: u64,
    pub post_service: PostService,
}

impl Default for DaoContext {
    fn default() -> (r: Self)
        ensures
            r.id == 10001,
            r.post_service@ == Seq::<PostProfileView>::empty(),
            r.wf(),
            r.fresh_ids(),
    {
        DaoContext { id: 10001, post_service: PostService::default() }
    }
}

impl DaoContext {
    /// The context's invariant: the store sits in ascending id order.
    pub open spec fn wf(self) -> bool {
        self.post_service.wf()
    }

    /// Allocator discipline: every stored id is below the counter, so the
    /// counter's value is free to hand out.
    pub open spec fn fresh_ids(self) -> bool {
        forall|i: int|
            0 <= i < self.post_service@.len() ==> #[trigger] self.post_service@[i].id < self.id
    }

    /// Under allocator discipline the next id is absent from the store, so a
    /// create with it is owed success and returns an id never used before.
    pub proof fn lemma_next_id_fresh(self)
        requires
            self.fresh_ids(),
        ensures
            lookup(self.post_service@, self.id) is None,
    {
        assert(forall|j: int|
            0 <= j < self.post_service@.len() ==> (#[trigger] self.post_service@[j].key())
                != self.id);
        lemma_lookup_none(self.post_service@, self.id);
    }

    /// Create a record under the counter's value; the counter advances by
    /// exactly 1 only when the create succeeds.
    pub fn create_post(
        &mut self,
        cmd: PostCreateCommand,
        caller: candid::Principal,
        now: Timestamp,
    ) -> (r: Result<u64, PostError>)
        requires
            old(self).wf(),
            old(self).id < u64::MAX,
        ensures
            final(self).wf(),
            match r {
                Ok(id) => id == old(self).id && final(self).id == old(self).id + 1 && lookup(
                    old(self).post_service@,
                    id,
                ) is None && final(self).post_service@ == upsert(
                    old(self).post_service@,
                    cmd@.built(id, caller, PostStatus::Enable, now),
                ) && lookup(final(self).post_service@, id) == Some(
                    cmd@.built(id, caller, PostStatus::Enable, now),
                ),
                Err(e) => e == PostError::PostAlreadyExists && lookup(
                    old(self).post_service@,
                    old(self).id,
                ) is Some && final(self).id == old(self).id && final(self).post_service@ == old(self).post_service@,
            },
            old(self).fresh_ids() ==> r is Ok && final(self).fresh_ids(),
    {
        let id = self.id;
        proof {
            if self.fresh_ids() {
                self.lemma_next_id_fresh();
            }
        }
        let ghost s = self.post_service@;
        let ghost rec = cmd@.built(id, caller, PostStatus::Enable, now);
        match self.post_service.create_post(cmd, id, caller, now) {
            Some(_) => {
                self.id = self.id + 1;
                proof {
                    if old(self).fresh_ids() {
                        lemma_upsert_keys(s, rec);
                        assert forall|i: int|
                            0 <= i < self.post_service@.len() implies #[trigger] self.post_service@[i].id
                            < self.id by {
                            if self.post_service@[i].key() != rec.key() {
                                let j = choose|j: int|
                                    0 <= j < s.len() && s[j].key() == self.post_service@[i].key();
                                assert(s[j].id < old(self).id);
                            }
                        }
                    }
                }
                Ok(id)
            },
            None => Err(PostError::PostAlreadyExists),
        }
    }

    /// Edit a record: the caller must be its author, and a `Completed`
    /// record refuses the edit (a `Closed` one does not).
    pub fn edit_post(&mut self, cmd: PostEditCommand, caller: candid::Principal) -> (r: Result<
        bool,
        PostError,
    >)
        requires
            old(self).wf(),
        ensures
            final(self).wf(),
            final(self).id == old(self).id,
            match lookup(old(self).post_service@, cmd.id) {
                None => r == Err::<bool, PostError>(PostError::PostNotFound) && final(self).post_service@ == old(self).post_service@,
                Some(p) => if p.author != caller {
                    r == Err::<bool, PostError>(PostError::PostUnAuthorizedOperation) && final(self).post_service@ == old(self).post_service@
                } else if p.status == PostStatus::Completed {
                    r == Err::<bool, PostError>(PostError::PostAlreadyCompleted) && final(self).post_service@ == old(self).post_service@
                } else {
                    r == Ok::<bool, PostError>(true) && final(self).post_service@ == upsert(
                        old(self).post_service@,
                        merged(p, cmd@),
                    )
                },
            },
    {
        match self.post_service.get_post(cmd.id) {
            Some(p) => {
                if !principal_eq(&p.author, &caller) {
                    return Err(PostError::PostUnAuthorizedOperation);
                }
                if p.status == PostStatus::Completed {
                    return Err(PostError::PostAlreadyCompleted);
                }
                match self.post_service.edit_post(cmd) {
                    Some(b) => Ok(b),
                    None => Err(PostError::PostNotFound),
                }
            },
            None => Err(PostError::PostNotFound),
        }
    }

    /// Change a record's status: the caller must be its author, and only an
    /// `Enable`d record may leave its status.
    pub fn change_post_status(
        &mut self,
        cmd: PostChangeStatusCommand,
        caller: candid::Principal,
        now: Timestamp,
    ) -> (r: Result<bool, PostError>)
        requires
            old(self).wf(),
        ensures
            final(self).wf(),
            final(self).id == old(self).id,
            match lookup(old(self).post_service@, cmd.id) {
                None => r == Err::<bool, PostError>(PostError::PostNotFound) && final(self).post_service@ == old(self).post_service@,
                Some(p) => if p.author != caller {
                    r == Err::<bool, PostError>(PostError::PostUnAuthorizedOperation) && final(self).post_service@ == old(self).post_service@
                } else if p.status != PostStatus::Enable {
                    r == Err::<bool, PostError>(PostError::PostAlreadyCompleted) && final(self).post_service@ == old(self).post_service@
                } else {
                    r == Ok::<bool, PostError>(true) && final(self).post_service@ == upsert(
                        old(self).post_service@,
                        (PostProfileView { status: spec_parse_status(cmd.status@), ..p }),
                    )
                },
            },
    {
        match self.post_service.get_post(cmd.id) {
            Some(p) => {
                if !principal_eq(&p.author, &caller) {
                    return Err(PostError::PostUnAuthorizedOperation);
                }
                self.post_service.change_post_status(cmd, caller, now)
            },
            None => Err(PostError::PostNotFound),
        }
    }

    /// Delete a record permanently: the caller must be its author, and a
    /// `Completed` record refuses the delete (a `Closed` one does not).
    pub fn delete_post(&mut self, cmd: PostIdCommand, caller: candid::Principal) -> (r: Result<
        bool,
        PostError,
    >)
        requires
            old(self).wf(),
        ensures
            final(self).wf(),
            final(self).id == old(self).id,
            match lookup(old(self).post_service@, cmd.id) {
                None => r == Err::<bool, PostError>(PostError::PostNotFound) && final(self).post_service@ == old(self).post_service@,
                Some(p) => if p.author != caller {
                    r == Err::<bool, PostError>(PostError::PostUnAuthorizedOperation) && final(self).post_service@ == old(self).post_service@
                } else if p.status == PostStatus::Completed {
                    r == Err::<bool, PostError>(PostError::PostAlreadyCompleted) && final(self).post_service@ == old(self).post_service@
                } else {
                    r == Ok::<bool, PostError>(true) && final(self).post_service@ == remove_key(
                        old(self).post_service@,
                        cmd.id,
                    )
                },
            },
    {
        match self.post_service.get_post(cmd.id) {
            Some(p) => {
                if !principal_eq(&p.author, &caller) {
                    return Err(PostError::PostUnAuthorizedOperation);
                }
                if p.status == PostStatus::Completed {
                    return Err(PostError::PostAlreadyCompleted);
                }
                match self.post_service.delete_post(cmd.id) {
                    Some(b) => Ok(b),
                    None => Err(PostError::PostNotFound),
                }
            },
            None => Err(PostError::PostNotFound),
        }
    }

    /// Look a record up by id.
    pub fn get_post(&self, cmd: PostIdCommand) -> (r: Result<PostProfile, PostError>)
        ensures
            match r {
                Ok(p) => lookup(self.post_service@, cmd.id) == Some(p@),
                Err(e) => e == PostError::PostNotFound && lookup(
                    self.post_service@,
                    cmd.id,
                ) is None,
            },
    {
        match self.post_service.get_post(cmd.id) {
            Some(p) => Ok(p),
            None => Err(PostError::PostNotFound),
        }
    }

    /// Query one page of the store; this never fails.
    pub fn page_posts(&self, query: PostPageQuery) -> (r: Result<PostPage, PostError>)
        ensures
            r is Ok,
            r->Ok_0.page_size == query.page_size,
            r->Ok_0.page_num == query.page_num,
            r->Ok_0.total_count == self.post_service@.len(),
            r->Ok_0.data@.map_values(|p: PostProfile| p@) == page_of(
                self.post_service@.filter(
                    |p: PostProfileView| matches_query(p, query.querystring@),
                ),
                query.page_size as int,
                query.page_num as int,
            ),
    {
        Ok(self.post_service.page_posts(&query))
    }

    /// Rebuild a context from a snapshot: each record is keyed by its own
    /// id, a later record silently overwriting an earlier one with the same
    /// id.
    pub fn from(payload: DaoDataStorage) -> (r: Self)
        ensures
            r.id == payload.id,
            r.post_service@ == rebuild(payload.posts@.map_values(|p: PostProfile| p@)),
            r.wf(),
    {
        let ghost s = payload.posts@.map_values(|p: PostProfile| p@);
        let mut svc = PostService::default();
        let mut i: usize = 0;
        proof {
            assert(s.take(0) =~= Seq::<PostProfileView>::empty());
        }
        while i < payload.posts.len()
            invariant
                i <= payload.posts.len(),
                s == payload.posts@.map_values(|p: PostProfile| p@),
                svc.wf(),
                svc@ == rebuild(s.take(i as int)),
            decreases payload.posts.len() - i,
        {
            svc.insert_profile(payload.posts[i].clone());
            proof {
                assert(s.take(i + 1).drop_last() =~= s.take(i as int));
                assert(s.take(i + 1).last() == s[i as int]);
            }
            i += 1;
        }
        proof {
            assert(s.take(payload.posts.len() as int) =~= s);
        }
        DaoContext { id: payload.id, post_service: svc }
    }
}

impl DaoDataStorage {
    /// Flatten a context into its snapshot: the counter and the records in
    /// the store's ascending-id order.
    pub fn from(state: DaoContext) -> (r: Self)
        ensures
            r.id == state.id,
            r.posts@.map_values(|p: PostProfile| p@) == state.post_service@,
    {
        let mut posts: Vec<PostProfile> = Vec::new();
        let mut i: usize = 0;
        proof {
            assert(posts@.map_values(|p: PostProfile| p@) =~= state.post_service@.take(0));
        }
        while i < state.post_service.posts.len()
            invariant
                i <= state.post_service.posts.len(),
                posts@.map_values(|p: PostProfile| p@) == state.post_service@.take(i as int),
            decreases state.post_service.posts.len() - i,
        {
            let ghost acc = posts@.map_values(|p: PostProfile| p@);
            posts.push(state.post_service.posts[i].clone());
            proof {
                assert(posts@.map_values(|p: PostProfile| p@) =~= acc.push(
                    state.post_service@[i as int],
                ));
                assert(state.post_service@.take(i + 1) =~= state.post_service@.take(
                    i as int,
                ).push(state.post_service@[i as int]));
            }
            i += 1;
        }
        proof {
            assert(state.post_service@.take(state.post_service.posts.len() as int)
                =~= state.post_service@);
        }
        DaoDataStorage { id: state.id, posts }
    }
}

/// Snapshot round trip: rebuilding the flattened form of a well-formed store
/// gives the same record sequence back, so restoring a snapshot reproduces
/// an equivalent store and the same counter.
pub proof fn lemma_snapshot_round_trip(s: Seq<PostProfileView>)
    requires
        sorted_by_key(s),
    ensures
        rebuild(s) == s,
{
    lemma_rebuild_sorted(s);
}

} // verus!
