//! Tweets: the wire form, the stored row, the request that creates one, and
//! the four endpoints under `/tweets`.

use vstd::prelude::*;
use crate::clock::{now, Timestamp};
use crate::ident::{random_id, uuid_parse, uuid_text, write_id};
use crate::ident::read_id;
use crate::like::{like_views, likes_of_rows, list_likes, Like, LikeDB, LikeView};
use crate::reply::{Reply, Status};
use crate::response::Response;
use crate::store::{
    first_rows, has_tweet, likes_of, likes_of_others, row_views, tweet_insert_outcome, tweet_with,
    tweets_after_insert, without_tweet, Store, StoreError,
};

verus! {

/// The envelope of a listing of tweets.
pub type Tweets = Response<Tweet>;

/// The number of tweets that a listing shows at most.
pub const LISTED_TWEETS: i64 = 50;

/// A tweet as it is sent, with the likes attached to it.
#[derive(Debug)]
pub struct Tweet {
    pub id: String,
    pub created_at: Timestamp,
    pub message: String,
    pub likes: Vec<Like>,
}

/// What a `Tweet` holds.
pub struct TweetView {
    pub id: Seq<char>,
    pub created_at: Timestamp,
    pub message: Seq<char>,
    pub likes: Seq<LikeView>,
}

impl View for Tweet {
    type V = TweetView;

    open spec fn view(&self) -> TweetView {
        TweetView {
            id: self.id@,
            created_at: self.created_at,
            message: self.message@,
            likes: like_views(self.likes@),
        }
    }
}

/// A row of the table `tweets`.
#[derive(Debug)]
pub struct TweetDB {
    pub id: u128,
    pub created_at: Timestamp,
    pub message: String,
}

/// What a `TweetDB` holds.
pub struct TweetRow {
    pub id: u128,
    pub created_at: Timestamp,
    pub message: Seq<char>,
}

impl View for TweetDB {
    type V = TweetRow;

    open spec fn view(&self) -> TweetRow {
        TweetRow { id: self.id, created_at: self.created_at, message: self.message@ }
    }
}

/// The wire form of a row: its identifier as text, no likes attached.
pub open spec fn tweet_of_row(row: TweetRow) -> TweetView {
    TweetView {
        id: uuid_text(row.id),
        created_at: row.created_at,
        message: row.message,
        likes: Seq::empty(),
    }
}

/// A tweet with its likes replaced by `likes`.
pub open spec fn with_likes(tweet: TweetView, likes: Seq<LikeView>) -> TweetView {
    TweetView { id: tweet.id, created_at: tweet.created_at, message: tweet.message, likes }
}

/// What a vector of tweets holds.
pub open spec fn tweet_views(tweets: Seq<Tweet>) -> Seq<TweetView> {
    tweets.map_values(|t: Tweet| t@)
}

impl Tweet {
    /// A tweet that carries `message`, with a new random identifier, stamped
    /// with the current instant, and no likes.
    pub fn new(message: String) -> (tweet: Self)
        ensures
            tweet.message@ == message@,
            tweet@.likes == Seq::<LikeView>::empty(),
            uuid_parse(tweet.id@) is Some,
            tweet.id@ == uuid_text(uuid_parse(tweet.id@).unwrap()),
    {
        let id = random_id();
        let tweet = Tweet { id: write_id(id), created_at: now(), message, likes: Vec::new() };
        assert(tweet@.likes =~= Seq::<LikeView>::empty());
        tweet
    }

    /// The row that stores this tweet: the identifier that its text stands
    /// for, its creation instant and its message. The likes are not part of
    /// the row.
    pub fn to_tweet_db(&self) -> (row: TweetDB)
        requires
            uuid_parse(self.id@) is Some,
        ensures
            row@ == row_of(self@),
            row.id == uuid_parse(self.id@).unwrap(),
            row.created_at == self.created_at,
            row.message@ == self.message@,
    {
        let id = read_id(self.id.as_str());
        TweetDB { id: id.unwrap(), created_at: self.created_at, message: self.message.clone() }
    }

    /// This tweet with `likes` in place of its own.
    pub fn add_likes(&self, likes: Vec<Like>) -> (tweet: Self)
        ensures
            tweet@ == with_likes(self@, like_views(likes@)),
    {
        Tweet {
            id: self.id.clone(),
            created_at: self.created_at,
            message: self.message.clone(),
            likes,
        }
    }
}

impl TweetDB {
    /// The wire form of this row, with no likes attached.
    pub fn to_tweet(&self) -> (tweet: Tweet)
        ensures
            tweet@ == tweet_of_row(self@),
            uuid_parse(tweet.id@) == Some(self.id),
    {
        let tweet = Tweet {
            id: write_id(self.id),
            created_at: self.created_at,
            message: self.message.clone(),
            likes: Vec::new(),
        };
        assert(tweet@.likes =~= Seq::<LikeView>::empty());
        tweet
    }

    /// A copy of this row.
    pub fn duplicate(&self) -> (row: TweetDB)
        ensures
            row@ == self@,
    {
        TweetDB { id: self.id, created_at: self.created_at, message: self.message.clone() }
    }
}

/// The body of a request that creates a tweet.
#[derive(Debug)]
pub struct TweetRequest {
    pub message: Option<String>,
}

impl TweetRequest {
    /// The tweet that the request asks for: one that carries its message, or
    /// `None` where it has no message.
    pub fn to_tweet(&self) -> (tweet: Option<Tweet>)
        ensures
            tweet is Some <==> self.message is Some,
            tweet is Some ==> tweet.unwrap().message@ == self.message.unwrap()@
                && tweet.unwrap()@.likes == Seq::<LikeView>::empty()
                && uuid_parse(tweet.unwrap().id@) is Some,
    {
        match &self.message {
            Some(message) => Some(Tweet::new(message.clone())),
            None => None,
        }
    }
}

/// The wire forms of a list of rows, in the same order, no likes attached.
pub open spec fn tweets_of_rows(rows: Seq<TweetRow>) -> Seq<TweetView> {
    rows.map_values(|r: TweetRow| tweet_of_row(r))
}

/// Each tweet is the wire form of the row at its place, and its identifier
/// reads back as that row's.
pub open spec fn tweets_show(tweets: Seq<Tweet>, rows: Seq<TweetRow>) -> bool {
    &&& tweet_views(tweets) == tweets_of_rows(rows)
    &&& forall|i: int|
        0 <= i < tweets.len() ==> uuid_parse(#[trigger] tweets[i].id@) == Some(rows[i].id)
}

/// The rows that a listing of at most `limit` tweets shows: the newest rows,
/// newest first, or none where the store cannot be reached or the limit is
/// negative.
pub open spec fn listed_tweets(available: bool, rows: Seq<TweetRow>, limit: int) -> Seq<TweetRow> {
    if available && limit >= 0 {
        first_rows(rows, limit)
    } else {
        Seq::empty()
    }
}

/// The row that a stored tweet stands for.
pub open spec fn row_of(tweet: TweetView) -> TweetRow {
    TweetRow {
        id: uuid_parse(tweet.id).unwrap(),
        created_at: tweet.created_at,
        message: tweet.message,
    }
}

/// A row as it is sent with the likes that the table has for it, newest
/// first.
pub open spec fn enriched(row: TweetRow, likes: Seq<LikeDB>) -> TweetView {
    with_likes(tweet_of_row(row), likes_of_rows(likes_of(likes, row.id)))
}

/// What `GET /tweets` shows: the newest tweets, at most `LISTED_TWEETS` of
/// them, newest first, each with its likes.
pub open spec fn listing(available: bool, tweets: Seq<TweetRow>, likes: Seq<LikeDB>) -> Seq<
    TweetView,
> {
    listed_tweets(available, tweets, LISTED_TWEETS as int).map_values(
        |r: TweetRow| enriched(r, likes),
    )
}

/// The table of tweets after the tweet `id` is deleted.
pub open spec fn tweets_after_delete(available: bool, rows: Seq<TweetRow>, id: u128) -> Seq<
    TweetRow,
> {
    if available {
        without_tweet(rows, id)
    } else {
        rows
    }
}

/// The table of likes after the tweet `id` is deleted: its likes go with it.
pub open spec fn likes_after_delete(available: bool, likes: Seq<LikeDB>, id: u128) -> Seq<LikeDB> {
    if available {
        likes_of_others(likes, id)
    } else {
        likes
    }
}

/// The wire forms of `rows`, in the same order, no likes attached.
pub fn tweets_from_rows(rows: &Vec<TweetDB>) -> (tweets: Vec<Tweet>)
    ensures
        tweets_show(tweets@, row_views(rows@)),
{
    let mut tweets: Vec<Tweet> = Vec::new();
    let mut i: usize = 0;
    while i < rows.len()
        invariant
            i <= rows.len(),
            tweets@.len() == i,
            forall|j: int| 0 <= j < i ==> (#[trigger] tweets@[j])@ == tweet_of_row(rows@[j]@),
            forall|j: int|
                0 <= j < i ==> uuid_parse(#[trigger] tweets@[j].id@) == Some(rows@[j].id),
        decreases rows.len() - i,
    {
        tweets.push(rows[i].to_tweet());
        i = i + 1;
    }
    assert(tweet_views(tweets@) =~= tweets_of_rows(row_views(rows@)));
    tweets
}

/// The newest tweets, at most `total_tweets` of them, newest first, no likes
/// attached. A store that cannot be reached, and a negative limit, give an
/// empty listing, not an error.
pub fn list_tweets(total_tweets: i64, conn: &Store) -> (r: Result<Tweets, StoreError>)
    ensures
        r is Ok,
        tweets_show(
            r.unwrap().results@,
            listed_tweets(conn.is_available(), conn.tweet_rows(), total_tweets as int),
        ),
{
    let rows = match conn.load_tweets(total_tweets) {
        Ok(rows) => rows,
        Err(_) => Vec::new(),
    };
    assert(row_views(rows@) =~= listed_tweets(
        conn.is_available(),
        conn.tweet_rows(),
        total_tweets as int,
    ));
    Ok(Response { results: tweets_from_rows(&rows) })
}

/// The tweet with the identifier `id`, no likes attached, or `NotFound`
/// where the table has none. A store that cannot be reached is an error.
pub fn find_tweet(id: u128, conn: &Store) -> (r: Result<Tweet, StoreError>)
    requires
        conn.wf(),
    ensures
        match r {
            Ok(tweet) => {
                &&& conn.is_available()
                &&& tweet_with(conn.tweet_rows(), id) is Some
                &&& tweet@ == tweet_of_row(tweet_with(conn.tweet_rows(), id).unwrap())
                &&& uuid_parse(tweet.id@) == Some(id)
            },
            Err(e) => if !conn.is_available() {
                e == StoreError::Unavailable
            } else {
                tweet_with(conn.tweet_rows(), id) is None && e == StoreError::NotFound
            },
        },
{
    match conn.load_tweet(id) {
        Ok(found) => match found {
            Some(row) => Ok(row.to_tweet()),
            None => Err(StoreError::NotFound),
        },
        Err(e) => Err(e),
    }
}

/// Stores `row` and hands back its wire form. The store's refusal is handed
/// on, and then nothing is stored.
pub fn store_tweet(row: TweetDB, conn: &mut Store) -> (r: Result<Tweet, StoreError>)
    requires
        old(conn).wf(),
    ensures
        final(conn).wf(),
        final(conn).is_available() == old(conn).is_available(),
        final(conn).like_rows() == old(conn).like_rows(),
        final(conn).tweet_rows() == tweets_after_insert(
            old(conn).is_available(),
            old(conn).tweet_rows(),
            row@,
        ),
        match tweet_insert_outcome(old(conn).is_available(), old(conn).tweet_rows(), row@) {
            Ok(_) => r is Ok && r.unwrap()@ == tweet_of_row(row@) && uuid_parse(r.unwrap().id@)
                == Some(row.id),
            Err(e) => r == Err::<Tweet, StoreError>(e),
        },
{
    let tweet = row.to_tweet();
    match conn.insert_tweet(row) {
        Ok(_) => Ok(tweet),
        Err(e) => Err(e),
    }
}

/// Stores `tweet` in a row that keeps its identifier, its creation instant
/// and its message, and hands back that row's wire form, which has no likes.
///
/// The answer is `Ok` exactly where the store can be reached and no row has
/// the tweet's identifier yet; in particular a store that can be reached and
/// holds no tweet takes every tweet. A refusal stores nothing.
pub fn create_tweet(tweet: Tweet, conn: &mut Store) -> (r: Result<Tweet, StoreError>)
    requires
        old(conn).wf(),
        uuid_parse(tweet.id@) is Some,
    ensures
        final(conn).wf(),
        final(conn).is_available() == old(conn).is_available(),
        final(conn).like_rows() == old(conn).like_rows(),
        final(conn).tweet_rows() == tweets_after_insert(
            old(conn).is_available(),
            old(conn).tweet_rows(),
            row_of(tweet@),
        ),
        old(conn).is_available() && old(conn).tweet_rows().len() == 0 ==> r is Ok,
        match tweet_insert_outcome(
            old(conn).is_available(),
            old(conn).tweet_rows(),
            row_of(tweet@),
        ) {
            Ok(_) => {
                &&& r is Ok
                &&& r.unwrap()@ == tweet_of_row(row_of(tweet@))
                &&& uuid_parse(r.unwrap().id@) == Some(row_of(tweet@).id)
            },
            Err(e) => r == Err::<Tweet, StoreError>(e),
        },
{
    let row = tweet.to_tweet_db();
    store_tweet(row, conn)
}

/// Deletes the tweet with the identifier `id`, and its likes with it. Where
/// no tweet has that identifier, nothing changes and the answer is still
/// `Ok`; only a store that cannot be reached is an error.
pub fn delete_tweet(id: u128, conn: &mut Store) -> (r: Result<(), StoreError>)
    requires
        old(conn).wf(),
    ensures
        final(conn).wf(),
        final(conn).is_available() == old(conn).is_available(),
        final(conn).tweet_rows() == tweets_after_delete(
            old(conn).is_available(),
            old(conn).tweet_rows(),
            id,
        ),
        final(conn).like_rows() == likes_after_delete(
            old(conn).is_available(),
            old(conn).like_rows(),
            id,
        ),
        r is Ok <==> old(conn).is_available(),
        r is Err ==> r == Err::<(), StoreError>(StoreError::Unavailable),
{
    conn.remove_tweet(id)
}

/// `GET /tweets`: the newest tweets, at most `LISTED_TWEETS` of them, newest
/// first, each with its likes, in an envelope. The status is 200 in every
/// case; a store that cannot be reached gives an empty envelope.
pub fn list(pool: &Store) -> (reply: Reply<Tweets>)
    ensures
        reply.status == Status::Okay,
        reply.body is Some,
        reply.body.unwrap().results@.len() <= LISTED_TWEETS,
        reply.body.unwrap().results@.len() == listed_tweets(
            pool.is_available(),
            pool.tweet_rows(),
            LISTED_TWEETS as int,
        ).len(),
        tweet_views(reply.body.unwrap().results@) == listing(
            pool.is_available(),
            pool.tweet_rows(),
            pool.like_rows(),
        ),
{
    let tweets = list_tweets(LISTED_TWEETS, pool).unwrap();
    let ghost rows = listed_tweets(pool.is_available(), pool.tweet_rows(), LISTED_TWEETS as int);
    assert(tweet_views(tweets.results@).len() == tweets_of_rows(rows).len());
    let mut results: Vec<Tweet> = Vec::new();
    let mut i: usize = 0;
    while i < tweets.results.len()
        invariant
            i <= tweets.results.len(),
            tweets.results.len() == rows.len(),
            tweets_show(tweets.results@, rows),
            rows == listed_tweets(pool.is_available(), pool.tweet_rows(), LISTED_TWEETS as int),
            results@.len() == i,
            forall|j: int|
                0 <= j < i ==> (#[trigger] results@[j])@ == enriched(rows[j], pool.like_rows()),
        decreases tweets.results.len() - i,
    {
        let tweet = &tweets.results[i];
        let id = read_id(tweet.id.as_str()).unwrap();
        let likes = list_likes(id, pool).unwrap();
        assert(tweet@ == tweet_views(tweets.results@)[i as int]);
        assert(tweet@ == tweets_of_rows(rows)[i as int]);
        results.push(tweet.add_likes(likes.results));
        i = i + 1;
    }
    assert(tweet_views(results@) =~= listing(
        pool.is_available(),
        pool.tweet_rows(),
        pool.like_rows(),
    ));
    Reply { status: Status::Okay, body: Some(Response { results }) }
}

/// The answer to a request that creates a tweet: 201 with the tweet that was
/// stored, or 204 without a body where the store refused it.
pub fn created(outcome: Result<Tweet, StoreError>) -> (reply: Reply<Tweet>)
    ensures
        match outcome {
            Ok(stored) => reply.status == Status::Created && reply.body == Some(stored),
            Err(_) => reply.status == Status::NoContent && reply.body is None,
        },
{
    match outcome {
        Ok(stored) => Reply { status: Status::Created, body: Some(stored) },
        Err(_) => Reply { status: Status::NoContent, body: None },
    }
}

/// `POST /tweets`: stores a new tweet with the message of the request, under
/// a new random identifier and the current instant.
///
/// The answer is 201 with the stored tweet, which has no likes, or 204
/// without a body and with nothing stored. A request without a message and a
/// store that cannot be reached are answered with 204. A store that can be
/// reached and holds no tweet takes every request that has a message;
/// otherwise the tweet is stored unless the identifier drawn is taken.
pub fn create(tweet_req: &TweetRequest, pool: &mut Store) -> (reply: Reply<Tweet>)
    requires
        old(pool).wf(),
    ensures
        final(pool).wf(),
        final(pool).is_available() == old(pool).is_available(),
        final(pool).like_rows() == old(pool).like_rows(),
        tweet_req.message is None || !old(pool).is_available() ==> reply.body is None,
        tweet_req.message is Some && old(pool).is_available() && old(pool).tweet_rows().len()
            == 0 ==> reply.body is Some,
        match reply.body {
            Some(stored) => {
                &&& reply.status == Status::Created
                &&& old(pool).is_available()
                &&& tweet_req.message is Some
                &&& uuid_parse(stored.id@) is Some
                &&& stored@ == tweet_of_row(row_of(stored@))
                &&& stored.message@ == tweet_req.message.unwrap()@
                &&& !has_tweet(old(pool).tweet_rows(), row_of(stored@).id)
                &&& final(pool).tweet_rows() == tweets_after_insert(
                    true,
                    old(pool).tweet_rows(),
                    row_of(stored@),
                )
            },
            None => reply.status == Status::NoContent && final(pool).tweet_rows() == old(
                pool,
            ).tweet_rows(),
        },
{
    match tweet_req.to_tweet() {
        Some(tweet) => created(create_tweet(tweet, pool)),
        None => Reply { status: Status::NoContent, body: None },
    }
}

/// `GET /tweets/{id}`: the tweet with its likes, newest first, under 200; or
/// 204 without a body where no tweet has that identifier or the store cannot
/// be reached.
pub fn get(id: u128, pool: &Store) -> (reply: Reply<Tweet>)
    requires
        pool.wf(),
    ensures
        reply.body is Some <==> pool.is_available() && has_tweet(pool.tweet_rows(), id),
        match reply.body {
            Some(tweet) => {
                &&& reply.status == Status::Okay
                &&& tweet@ == enriched(
                    tweet_with(pool.tweet_rows(), id).unwrap(),
                    pool.like_rows(),
                )
                &&& uuid_parse(tweet.id@) == Some(id)
            },
            None => reply.status == Status::NoContent,
        },
{
    match find_tweet(id, pool) {
        Ok(tweet) => {
            let tweet_id = read_id(tweet.id.as_str()).unwrap();
            let likes = list_likes(tweet_id, pool).unwrap();
            Reply { status: Status::Okay, body: Some(tweet.add_likes(likes.results)) }
        },
        Err(_) => Reply { status: Status::NoContent, body: None },
    }
}

/// `DELETE /tweets/{id}`: deletes the tweet and its likes. The answer is 204
/// without a body in every case, whether or not the tweet was there.
pub fn delete(id: u128, pool: &mut Store) -> (reply: Reply<()>)
    requires
        old(pool).wf(),
    ensures
        final(pool).wf(),
        final(pool).is_available() == old(pool).is_available(),
        final(pool).tweet_rows() == tweets_after_delete(
            old(pool).is_available(),
            old(pool).tweet_rows(),
            id,
        ),
        final(pool).like_rows() == likes_after_delete(
            old(pool).is_available(),
            old(pool).like_rows(),
            id,
        ),
        reply.status == Status::NoContent,
        reply.body is None,
{
    let _ = delete_tweet(id, pool);
    Reply { status: Status::NoContent, body: None }
}

} // verus!
