//! Likes: the wire form, the stored row, and the three endpoints under
//! `/tweets/{id}/likes`.

use vstd::prelude::*;
use crate::clock::{now, Timestamp};
use crate::ident::{random_id, read_id, uuid_parse, uuid_text, write_id};
use crate::reply::{Reply, Status};
use crate::response::Response;
use crate::store::{
    has_tweet, like_insert_outcome, likes_after_insert, likes_of, without_like, Store, StoreError,
};

verus! {

/// The envelope of a listing of likes.
pub type Likes = Response<Like>;

/// A like as it is sent.
#[derive(Debug)]
pub struct Like {
    pub id: String,
    pub created_at: Timestamp,
}

/// What a `Like` holds.
pub struct LikeView {
    pub id: Seq<char>,
    pub created_at: Timestamp,
}

impl View for Like {
    type V = LikeView;

    open spec fn view(&self) -> LikeView {
        LikeView { id: self.id@, created_at: self.created_at }
    }
}

/// A row of the table `likes`.
#[derive(Clone, Copy, Debug, PartialEq, Eq, Structural)]
pub struct LikeDB {
    pub id: u128,
    pub created_at: Timestamp,
    pub tweet_id: u128,
}

/// The wire form of a row.
pub open spec fn like_of_row(row: LikeDB) -> LikeView {
    LikeView { id: uuid_text(row.id), created_at: row.created_at }
}

/// The wire forms of a list of rows, in the same order.
pub open spec fn likes_of_rows(rows: Seq<LikeDB>) -> Seq<LikeView> {
    rows.map_values(|r: LikeDB| like_of_row(r))
}

/// What a vector of likes holds.
pub open spec fn like_views(likes: Seq<Like>) -> Seq<LikeView> {
    likes.map_values(|l: Like| l@)
}

impl Like {
    /// A like with a new random identifier, stamped with the current instant.
    /// Its identifier reads back as an identifier.
    pub fn new() -> (like: Self)
        ensures
            uuid_parse(like.id@) is Some,
            like.id@ == uuid_text(uuid_parse(like.id@).unwrap()),
    {
        let id = random_id();
        Like { id: write_id(id), created_at: now() }
    }

    /// The row that stores this like under the tweet `tweet_id`.
    pub fn to_like_db(&self, tweet_id: u128) -> (row: LikeDB)
        requires
            uuid_parse(self.id@) is Some,
        ensures
            row == row_for(self@, tweet_id),
    {
        let id = read_id(self.id.as_str());
        LikeDB { id: id.unwrap(), created_at: self.created_at, tweet_id }
    }
}

impl LikeDB {
    /// The wire form of this row.
    pub fn to_like(&self) -> (like: Like)
        ensures
            like@ == like_of_row(*self),
            uuid_parse(like.id@) == Some(self.id),
    {
        Like { id: write_id(self.id), created_at: self.created_at }
    }
}

/// Each like is the wire form of the row at its place, and its identifier
/// reads back as that row's.
pub open spec fn likes_show(likes: Seq<Like>, rows: Seq<LikeDB>) -> bool {
    &&& like_views(likes) == likes_of_rows(rows)
    &&& forall|i: int|
        0 <= i < likes.len() ==> uuid_parse(#[trigger] likes[i].id@) == Some(rows[i].id)
}

/// The rows that a listing of the likes of `tweet_id` shows: the tweet's
/// likes, newest first, or none where the store cannot be reached.
pub open spec fn listed_likes(available: bool, likes: Seq<LikeDB>, tweet_id: u128) -> Seq<LikeDB> {
    if available {
        likes_of(likes, tweet_id)
    } else {
        Seq::empty()
    }
}

/// The row that stores `like` under the tweet `tweet_id`.
pub open spec fn row_for(like: LikeView, tweet_id: u128) -> LikeDB {
    LikeDB { id: uuid_parse(like.id).unwrap(), created_at: like.created_at, tweet_id }
}

/// The table of likes after one like of `tweet_id` is taken back: the newest
/// like of that tweet is gone. Where the tweet has no like, or the store
/// cannot be reached, the table is as it was.
pub open spec fn likes_after_unlike(available: bool, likes: Seq<LikeDB>, tweet_id: u128) -> Seq<
    LikeDB,
> {
    let listed = listed_likes(available, likes, tweet_id);
    if listed.len() == 0 {
        likes
    } else {
        without_like(likes, listed[0].id)
    }
}

/// The wire forms of `rows`, in the same order.
pub fn likes_from_rows(rows: &Vec<LikeDB>) -> (likes: Vec<Like>)
    ensures
        likes_show(likes@, rows@),
{
    let mut likes: Vec<Like> = Vec::new();
    let mut i: usize = 0;
    while i < rows.len()
        invariant
            i <= rows.len(),
            likes@.len() == i,
            forall|j: int| 0 <= j < i ==> (#[trigger] likes@[j])@ == like_of_row(rows@[j]),
            forall|j: int| 0 <= j < i ==> uuid_parse(#[trigger] likes@[j].id@) == Some(rows@[j].id),
        decreases rows.len() - i,
    {
        likes.push(rows[i].to_like());
        i = i + 1;
    }
    assert(like_views(likes@) =~= likes_of_rows(rows@));
    likes
}

/// The likes of the tweet `tweet_id`, newest first. A store that cannot be
/// reached gives an empty listing, not an error.
pub fn list_likes(tweet_id: u128, conn: &Store) -> (r: Result<Likes, StoreError>)
    ensures
        r is Ok,
        likes_show(
            r.unwrap().results@,
            listed_likes(conn.is_available(), conn.like_rows(), tweet_id),
        ),
{
    let rows = match conn.load_likes(tweet_id) {
        Ok(rows) => rows,
        Err(_) => Vec::new(),
    };
    Ok(Response { results: likes_from_rows(&rows) })
}

/// Stores `like` under the tweet `tweet_id` and hands it back. The store's
/// refusal is handed on, and then nothing is stored.
pub fn store_like(like: Like, tweet_id: u128, conn: &mut Store) -> (r: Result<Like, StoreError>)
    requires
        old(conn).wf(),
        uuid_parse(like.id@) is Some,
    ensures
        final(conn).wf(),
        final(conn).is_available() == old(conn).is_available(),
        final(conn).tweet_rows() == old(conn).tweet_rows(),
        final(conn).like_rows() == likes_after_insert(
            old(conn).is_available(),
            old(conn).tweet_rows(),
            old(conn).like_rows(),
            row_for(like@, tweet_id),
        ),
        match like_insert_outcome(
            old(conn).is_available(),
            old(conn).tweet_rows(),
            old(conn).like_rows(),
            row_for(like@, tweet_id),
        ) {
            Ok(_) => r is Ok && r.unwrap() == like,
            Err(e) => r == Err::<Like, StoreError>(e),
        },
{
    let row = like.to_like_db(tweet_id);
    match conn.insert_like(row) {
        Ok(_) => Ok(like),
        Err(e) => Err(e),
    }
}

/// Adds a new like to the tweet `tweet_id`: a like with a new random
/// identifier, stamped with the current instant.
///
/// A store that cannot be reached and a tweet that is not there are refused.
/// Otherwise the like is stored at its place, unless the identifier drawn is
/// already taken, which cannot be where the store holds no like.
pub fn create_like(tweet_id: u128, conn: &mut Store) -> (r: Result<Like, StoreError>)
    requires
        old(conn).wf(),
    ensures
        final(conn).wf(),
        final(conn).is_available() == old(conn).is_available(),
        final(conn).tweet_rows() == old(conn).tweet_rows(),
        !old(conn).is_available() ==> r == Err::<Like, StoreError>(StoreError::Unavailable),
        old(conn).is_available() && !has_tweet(old(conn).tweet_rows(), tweet_id) ==> r == Err::<
            Like,
            StoreError,
        >(StoreError::Orphan),
        old(conn).is_available() && has_tweet(old(conn).tweet_rows(), tweet_id) ==> r is Ok || r
            == Err::<Like, StoreError>(StoreError::Conflict),
        old(conn).is_available() && has_tweet(old(conn).tweet_rows(), tweet_id) && old(
            conn,
        ).like_rows().len() == 0 ==> r is Ok,
        match r {
            Ok(like) => {
                &&& uuid_parse(like.id@) is Some
                &&& like@ == like_of_row(row_for(like@, tweet_id))
                &&& like_insert_outcome(
                    old(conn).is_available(),
                    old(conn).tweet_rows(),
                    old(conn).like_rows(),
                    row_for(like@, tweet_id),
                ) is Ok
                &&& final(conn).like_rows() == likes_after_insert(
                    old(conn).is_available(),
                    old(conn).tweet_rows(),
                    old(conn).like_rows(),
                    row_for(like@, tweet_id),
                )
            },
            Err(_) => final(conn).like_rows() == old(conn).like_rows(),
        },
{
    let like = Like::new();
    store_like(like, tweet_id, conn)
}

/// The like that is taken back, given a tweet's likes newest first: the
/// first of them, by the identifier that its text stands for. An empty
/// listing gives `None`.
pub fn newest_like(likes: &Likes) -> (id: Option<u128>)
    ensures
        id == (if likes.results@.len() == 0 {
            None
        } else {
            uuid_parse(likes.results@[0].id@)
        }),
{
    if likes.results.is_empty() {
        None
    } else {
        read_id(likes.results[0].id.as_str())
    }
}

/// The answer to a request that adds a like: 201 with the like that was
/// stored, or 204 without a body where the store refused it.
pub fn liked(outcome: Result<Like, StoreError>) -> (reply: Reply<Like>)
    ensures
        match outcome {
            Ok(like) => reply.status == Status::Created && reply.body == Some(like),
            Err(_) => reply.status == Status::NoContent && reply.body is None,
        },
{
    match outcome {
        Ok(like) => Reply { status: Status::Created, body: Some(like) },
        Err(_) => Reply { status: Status::NoContent, body: None },
    }
}

/// Takes back one like of the tweet `tweet_id`: the newest. A tweet without
/// likes, and a store that cannot be reached, leave everything as it was;
/// the answer is `Ok` in every case.
pub fn delete_like(tweet_id: u128, conn: &mut Store) -> (r: Result<(), StoreError>)
    requires
        old(conn).wf(),
    ensures
        final(conn).wf(),
        final(conn).is_available() == old(conn).is_available(),
        final(conn).tweet_rows() == old(conn).tweet_rows(),
        final(conn).like_rows() == likes_after_unlike(
            old(conn).is_available(),
            old(conn).like_rows(),
            tweet_id,
        ),
        r is Ok,
{
    let ghost rows = listed_likes(conn.is_available(), conn.like_rows(), tweet_id);
    match list_likes(tweet_id, conn) {
        Ok(likes) => {
            assert(like_views(likes.results@).len() == likes_of_rows(rows).len());
            match newest_like(&likes) {
                Some(like_id) => conn.remove_like(like_id),
                None => Ok(()),
            }
        },
        Err(_) => Ok(()),
    }
}

/// `GET /tweets/{id}/likes`: the likes of the tweet, newest first, in an
/// envelope. The status is 200 in every case.
pub fn list(id: u128, pool: &Store) -> (reply: Reply<Likes>)
    ensures
        reply.status == Status::Okay,
        reply.body is Some,
        likes_show(
            reply.body.unwrap().results@,
            listed_likes(pool.is_available(), pool.like_rows(), id),
        ),
{
    match list_likes(id, pool) {
        Ok(likes) => Reply { status: Status::Okay, body: Some(likes) },
        Err(_) => Reply { status: Status::Okay, body: Some(Response::new()) },
    }
}

/// `POST /tweets/{id}/likes`: adds a like to the tweet. The answer is 201
/// with the new like, or 204 without a body where the store refused it.
pub fn plus_one(id: u128, pool: &mut Store) -> (reply: Reply<Like>)
    requires
        old(pool).wf(),
    ensures
        final(pool).wf(),
        final(pool).is_available() == old(pool).is_available(),
        final(pool).tweet_rows() == old(pool).tweet_rows(),
        !old(pool).is_available() || !has_tweet(old(pool).tweet_rows(), id) ==> reply.body is None,
        old(pool).is_available() && has_tweet(old(pool).tweet_rows(), id) && old(
            pool,
        ).like_rows().len() == 0 ==> reply.body is Some,
        match reply.body {
            Some(like) => {
                &&& reply.status == Status::Created
                &&& uuid_parse(like.id@) is Some
                &&& like@ == like_of_row(row_for(like@, id))
                &&& like_insert_outcome(
                    old(pool).is_available(),
                    old(pool).tweet_rows(),
                    old(pool).like_rows(),
                    row_for(like@, id),
                ) is Ok
                &&& final(pool).like_rows() == likes_after_insert(
                    old(pool).is_available(),
                    old(pool).tweet_rows(),
                    old(pool).like_rows(),
                    row_for(like@, id),
                )
            },
            None => reply.status == Status::NoContent && final(pool).like_rows() == old(
                pool,
            ).like_rows(),
        },
{
    liked(create_like(id, pool))
}

/// `DELETE /tweets/{id}/likes`: takes back the newest like of the tweet, if
/// it has one. The answer is 204 without a body in every case.
pub fn minus_one(id: u128, pool: &mut Store) -> (reply: Reply<()>)
    requires
        old(pool).wf(),
    ensures
        final(pool).wf(),
        final(pool).is_available() == old(pool).is_available(),
        final(pool).tweet_rows() == old(pool).tweet_rows(),
        final(pool).like_rows() == likes_after_unlike(
            old(pool).is_available(),
            old(pool).like_rows(),
            id,
        ),
        reply.status == Status::NoContent,
        reply.body is None,
{
    let _ = delete_like(id, pool);
    Reply { status: Status::NoContent, body: None }
}

} // verus!
