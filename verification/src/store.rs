//! The two tables, `tweets` and `likes`, held in memory.
//!
//! Both tables are kept newest first: a new row goes behind the rows that
//! were created later than it and before all others, so of two rows with the
//! same instant the one stored last stands first. Identifiers are unique
//! within a table, every like names a tweet that is there, and a store that
//! is not available refuses every operation and changes nothing.

use vstd::prelude::*;
use crate::clock::Timestamp;
use crate::like::LikeDB;
use crate::tweet::{TweetDB, TweetRow};

verus! {

/// Why the store refused an operation.
#[derive(Clone, Copy, Debug, PartialEq, Eq, Structural)]
pub enum StoreError {
    /// The store cannot be reached.
    Unavailable,
    /// A row with the same identifier is already there.
    Conflict,
    /// A like names a tweet that is not there.
    Orphan,
    /// A listing was asked for with a negative limit.
    BadLimit,
    /// No row has the identifier asked for.
    NotFound,
}

/// The creation instants of a table of tweets, in table order.
pub open spec fn tweet_stamps(rows: Seq<TweetRow>) -> Seq<Timestamp> {
    rows.map_values(|r: TweetRow| r.created_at)
}

/// The creation instants of a table of likes, in table order.
pub open spec fn like_stamps(rows: Seq<LikeDB>) -> Seq<Timestamp> {
    rows.map_values(|r: LikeDB| r.created_at)
}

/// No instant is followed by a later one.
pub open spec fn newest_first(stamps: Seq<Timestamp>) -> bool {
    forall|i: int, j: int| 0 <= i < j < stamps.len() ==> stamps[i].not_before(stamps[j])
}

/// `k` is where a row stamped `t` goes: behind every row that is later than
/// `t`, before every other.
pub open spec fn is_placement(stamps: Seq<Timestamp>, t: Timestamp, k: int) -> bool {
    &&& 0 <= k <= stamps.len()
    &&& forall|i: int| 0 <= i < k ==> stamps[i].later_than(t)
    &&& forall|i: int| k <= i < stamps.len() ==> !stamps[i].later_than(t)
}

/// Where a row stamped `t` goes in a table that is newest first.
pub open spec fn placement(stamps: Seq<Timestamp>, t: Timestamp) -> int {
    choose|k: int| is_placement(stamps, t, k)
}

/// A table has one place only for a new row.
pub proof fn lemma_placement_unique(stamps: Seq<Timestamp>, t: Timestamp, k: int)
    requires
        is_placement(stamps, t, k),
    ensures
        placement(stamps, t) == k,
{
    let c = placement(stamps, t);
    assert(is_placement(stamps, t, c));
    if c < k {
        assert(stamps[c].later_than(t));
    } else if k < c {
        assert(stamps[k].later_than(t));
    }
}

/// Row `i` of the table has the identifier `id`.
pub open spec fn tweet_at(rows: Seq<TweetRow>, id: u128, i: int) -> bool {
    0 <= i < rows.len() && rows[i].id == id
}

/// Some row of the table has the identifier `id`.
pub open spec fn has_tweet(rows: Seq<TweetRow>, id: u128) -> bool {
    exists|i: int| tweet_at(rows, id, i)
}

/// The row with the identifier `id`, if the table has one.
pub open spec fn tweet_with(rows: Seq<TweetRow>, id: u128) -> Option<TweetRow> {
    if has_tweet(rows, id) {
        Some(rows[choose|i: int| tweet_at(rows, id, i)])
    } else {
        None
    }
}

/// The table without the row that has the identifier `id`.
pub open spec fn without_tweet(rows: Seq<TweetRow>, id: u128) -> Seq<TweetRow> {
    if has_tweet(rows, id) {
        rows.remove(choose|i: int| tweet_at(rows, id, i))
    } else {
        rows
    }
}

/// No two rows of the table share an identifier.
pub open spec fn distinct_tweets(rows: Seq<TweetRow>) -> bool {
    forall|i: int, j: int| 0 <= i < j < rows.len() ==> rows[i].id != rows[j].id
}

/// Row `i` of the table has the identifier `id`.
pub open spec fn like_at(rows: Seq<LikeDB>, id: u128, i: int) -> bool {
    0 <= i < rows.len() && rows[i].id == id
}

/// Some row of the table has the identifier `id`.
pub open spec fn has_like(rows: Seq<LikeDB>, id: u128) -> bool {
    exists|i: int| like_at(rows, id, i)
}

/// The table without the row that has the identifier `id`.
pub open spec fn without_like(rows: Seq<LikeDB>, id: u128) -> Seq<LikeDB> {
    if has_like(rows, id) {
        rows.remove(choose|i: int| like_at(rows, id, i))
    } else {
        rows
    }
}

/// No two rows of the table share an identifier.
pub open spec fn distinct_likes(rows: Seq<LikeDB>) -> bool {
    forall|i: int, j: int| 0 <= i < j < rows.len() ==> rows[i].id != rows[j].id
}

/// The likes of the tweet `tweet_id`, in table order.
pub open spec fn likes_of(rows: Seq<LikeDB>, tweet_id: u128) -> Seq<LikeDB> {
    rows.filter(|l: LikeDB| l.tweet_id == tweet_id)
}

/// The likes of every tweet but `tweet_id`, in table order.
pub open spec fn likes_of_others(rows: Seq<LikeDB>, tweet_id: u128) -> Seq<LikeDB> {
    rows.filter(|l: LikeDB| l.tweet_id != tweet_id)
}

/// Every like names a tweet of the table.
pub open spec fn likes_owned(tweets: Seq<TweetRow>, likes: Seq<LikeDB>) -> bool {
    forall|i: int| 0 <= i < likes.len() ==> has_tweet(tweets, #[trigger] likes[i].tweet_id)
}

/// The first `limit` rows of a table, or all of it where it has fewer.
pub open spec fn first_rows(rows: Seq<TweetRow>, limit: int) -> Seq<TweetRow>
    recommends
        limit >= 0,
{
    if limit < rows.len() {
        rows.take(limit)
    } else {
        rows
    }
}

/// The views of a vector of tweet rows.
pub open spec fn row_views(rows: Seq<TweetDB>) -> Seq<TweetRow> {
    rows.map_values(|r: TweetDB| r@)
}

/// The tables.
pub struct Store {
    available: bool,
    tweets: Vec<TweetDB>,
    likes: Vec<LikeDB>,
}

impl Store {
    /// Whether the store can be reached.
    pub closed spec fn is_available(&self) -> bool {
        self.available
    }

    /// The table of tweets.
    pub closed spec fn tweet_rows(&self) -> Seq<TweetRow> {
        row_views(self.tweets@)
    }

    /// The table of likes.
    pub closed spec fn like_rows(&self) -> Seq<LikeDB> {
        self.likes@
    }

    /// Both tables are newest first, identifiers are unique within each, and
    /// every like names a tweet that is there.
    pub open spec fn wf(&self) -> bool {
        &&& newest_first(tweet_stamps(self.tweet_rows()))
        &&& newest_first(like_stamps(self.like_rows()))
        &&& distinct_tweets(self.tweet_rows())
        &&& distinct_likes(self.like_rows())
        &&& likes_owned(self.tweet_rows(), self.like_rows())
    }

    /// An empty store that can be reached.
    pub fn new() -> (s: Store)
        ensures
            s.wf(),
            s.is_available(),
            s.tweet_rows() == Seq::<TweetRow>::empty(),
            s.like_rows() == Seq::<LikeDB>::empty(),
    {
        let s = Store { available: true, tweets: Vec::new(), likes: Vec::new() };
        assert(s.tweet_rows() =~= Seq::<TweetRow>::empty());
        s
    }

    /// Makes the store reachable or not; the tables stay as they are.
    pub fn set_available(&mut self, available: bool)
        ensures
            final(self).is_available() == available,
            final(self).tweet_rows() == old(self).tweet_rows(),
            final(self).like_rows() == old(self).like_rows(),
    {
        self.available = available;
    }

    /// Tells whether the store can be reached.
    pub fn available(&self) -> (r: bool)
        ensures
            r == self.is_available(),
    {
        self.available
    }

    /// The number of tweets held.
    pub fn tweet_count(&self) -> (n: usize)
        ensures
            n == self.tweet_rows().len(),
    {
        self.tweets.len()
    }

    /// The number of likes held.
    pub fn like_count(&self) -> (n: usize)
        ensures
            n == self.like_rows().len(),
    {
        self.likes.len()
    }

    fn tweet_index(&self, id: u128) -> (found: Option<usize>)
        requires
            self.wf(),
        ensures
            match found {
                Some(i) => tweet_at(self.tweet_rows(), id, i as int),
                None => !has_tweet(self.tweet_rows(), id),
            },
    {
        let mut i: usize = 0;
        while i < self.tweets.len()
            invariant
                i <= self.tweets.len(),
                self.tweet_rows().len() == self.tweets.len(),
                forall|j: int| 0 <= j < i ==> !tweet_at(self.tweet_rows(), id, j),
            decreases self.tweets.len() - i,
        {
            if self.tweets[i].id == id {
                return Some(i);
            }
            i = i + 1;
        }
        None
    }

    fn like_index(&self, id: u128) -> (found: Option<usize>)
        ensures
            match found {
                Some(i) => like_at(self.like_rows(), id, i as int),
                None => !has_like(self.like_rows(), id),
            },
    {
        let mut i: usize = 0;
        while i < self.likes.len()
            invariant
                i <= self.likes.len(),
                forall|j: int| 0 <= j < i ==> !like_at(self.like_rows(), id, j),
            decreases self.likes.len() - i,
        {
            if self.likes[i].id == id {
                return Some(i);
            }
            i = i + 1;
        }
        None
    }

    /// The newest tweets, newest first: the first `limit` rows of the table.
    /// A negative limit is refused.
    pub fn load_tweets(&self, limit: i64) -> (r: Result<Vec<TweetDB>, StoreError>)
        ensures
            match r {
                Ok(rows) => self.is_available() && limit >= 0 && row_views(rows@) == first_rows(
                    self.tweet_rows(),
                    limit as int,
                ),
                Err(e) => if !self.is_available() {
                    e == StoreError::Unavailable
                } else {
                    limit < 0 && e == StoreError::BadLimit
                },
            },
    {
        if !self.available {
            return Err(StoreError::Unavailable);
        }
        if limit < 0 {
            return Err(StoreError::BadLimit);
        }
        let n: usize = self.tweets.len();
        let count: usize = if (limit as u64) < (n as u64) {
            limit as usize
        } else {
            n
        };
        let mut out: Vec<TweetDB> = Vec::new();
        let mut i: usize = 0;
        while i < count
            invariant
                i <= count <= self.tweets.len(),
                row_views(out@) == self.tweet_rows().take(i as int),
            decreases count - i,
        {
            let ghost before = out@;
            let row = self.tweets[i].duplicate();
            out.push(row);
            i = i + 1;
            assert(row_views(out@) =~= row_views(before).push(row@));
            assert(self.tweet_rows().take(i as int) =~= self.tweet_rows().take(i - 1).push(
                self.tweets[i - 1]@,
            ));
        }
        assert(self.tweet_rows().take(self.tweet_rows().len() as int) =~= self.tweet_rows());
        Ok(out)
    }

    /// The tweet with the identifier `id`, if the table has one.
    pub fn load_tweet(&self, id: u128) -> (r: Result<Option<TweetDB>, StoreError>)
        requires
            self.wf(),
        ensures
            match r {
                Ok(found) => self.is_available() && match found {
                    Some(row) => tweet_with(self.tweet_rows(), id) == Some(row@),
                    None => tweet_with(self.tweet_rows(), id) is None,
                },
                Err(e) => !self.is_available() && e == StoreError::Unavailable,
            },
    {
        if !self.available {
            return Err(StoreError::Unavailable);
        }
        match self.tweet_index(id) {
            Some(i) => {
                proof {
                    lemma_tweet_found(self.tweet_rows(), id, i as int);
                }
                Ok(Some(self.tweets[i].duplicate()))
            },
            None => Ok(None),
        }
    }

    /// Adds a row to the table of tweets, at its place by creation instant.
    /// Refused where the store cannot be reached or the identifier is taken.
    pub fn insert_tweet(&mut self, row: TweetDB) -> (r: Result<(), StoreError>)
        requires
            old(self).wf(),
        ensures
            final(self).wf(),
            final(self).is_available() == old(self).is_available(),
            final(self).like_rows() == old(self).like_rows(),
            final(self).tweet_rows() == tweets_after_insert(
                old(self).is_available(),
                old(self).tweet_rows(),
                row@,
            ),
            r == tweet_insert_outcome(old(self).is_available(), old(self).tweet_rows(), row@),
    {
        if !self.available {
            return Err(StoreError::Unavailable);
        }
        if self.tweet_index(row.id).is_some() {
            return Err(StoreError::Conflict);
        }
        let ghost before = self.tweet_rows();
        let ghost stamps = tweet_stamps(before);
        let mut k: usize = 0;
        while k < self.tweets.len() && self.tweets[k].created_at.is_later_than(&row.created_at)
            invariant
                k <= self.tweets.len(),
                before == self.tweet_rows(),
                stamps == tweet_stamps(before),
                stamps.len() == self.tweets.len(),
                forall|j: int| 0 <= j < k ==> stamps[j].later_than(row.created_at),
            decreases self.tweets.len() - k,
        {
            k = k + 1;
        }
        proof {
            assert forall|j: int| k <= j < stamps.len() implies !stamps[j].later_than(
                row.created_at,
            ) by {
                if j > k {
                    assert(stamps[k as int].not_before(stamps[j]));
                }
            }
            lemma_placement_unique(stamps, row.created_at, k as int);
            lemma_insert_sorted(stamps, row.created_at, k as int);
            assert(tweet_stamps(before.insert(k as int, row@)) =~= stamps.insert(
                k as int,
                row.created_at,
            ));
            assert forall|i: int| 0 <= i < self.like_rows().len() implies has_tweet(
                before.insert(k as int, row@),
                #[trigger] self.like_rows()[i].tweet_id,
            ) by {
                lemma_has_tweet_insert(before, k as int, row@, self.like_rows()[i].tweet_id);
            }
        }
        proof {
            lemma_insert_distinct_tweets(before, k as int, row@);
        }
        self.tweets.insert(k, row);
        assert(self.tweet_rows() =~= before.insert(k as int, row@));
        Ok(())
    }

    /// Removes the tweet with the identifier `id`, and with it every like of
    /// that tweet. Where no tweet has that identifier, nothing changes.
    pub fn remove_tweet(&mut self, id: u128) -> (r: Result<(), StoreError>)
        requires
            old(self).wf(),
        ensures
            final(self).wf(),
            final(self).is_available() == old(self).is_available(),
            r is Ok <==> old(self).is_available(),
            r is Err ==> r == Err::<(), StoreError>(StoreError::Unavailable),
            r is Err ==> final(self).tweet_rows() == old(self).tweet_rows()
                && final(self).like_rows() == old(self).like_rows(),
            r is Ok ==> final(self).tweet_rows() == without_tweet(old(self).tweet_rows(), id)
                && final(self).like_rows() == likes_of_others(old(self).like_rows(), id),
    {
        if !self.available {
            return Err(StoreError::Unavailable);
        }
        let ghost tweets_before = self.tweet_rows();
        let ghost likes_before = self.like_rows();
        let found = self.tweet_index(id);
        let mut kept: Vec<LikeDB> = Vec::new();
        let mut i: usize = 0;
        while i < self.likes.len()
            invariant
                i <= self.likes.len(),
                likes_before == self.likes@,
                kept@ == likes_of_others(likes_before.take(i as int), id),
            decreases self.likes.len() - i,
        {
            let like = self.likes[i];
            proof {
                assert(likes_before.take(i + 1) =~= likes_before.take(i as int).push(like));
                likes_before.take(i as int).lemma_filter_push(
                    like,
                    |l: LikeDB| l.tweet_id != id,
                );
            }
            if like.tweet_id != id {
                kept.push(like);
            }
            i = i + 1;
        }
        proof {
            assert(likes_before.take(likes_before.len() as int) =~= likes_before);
            lemma_filter_keeps_order(likes_before, |l: LikeDB| l.tweet_id != id);
            lemma_others_owned(tweets_before, likes_before, id);
        }
        self.likes = kept;
        match found {
            Some(at) => {
                proof {
                    lemma_tweet_found(tweets_before, id, at as int);
                    lemma_remove_sorted(tweet_stamps(tweets_before), at as int);
                    assert(tweet_stamps(tweets_before.remove(at as int)) =~= tweet_stamps(
                        tweets_before,
                    ).remove(at as int));
                }
                let _ = self.tweets.remove(at);
                assert(self.tweet_rows() =~= tweets_before.remove(at as int));
            },
            None => {},
        }
        Ok(())
    }

    /// The likes of the tweet `tweet_id`, newest first.
    pub fn load_likes(&self, tweet_id: u128) -> (r: Result<Vec<LikeDB>, StoreError>)
        ensures
            match r {
                Ok(rows) => self.is_available() && rows@ == likes_of(self.like_rows(), tweet_id),
                Err(e) => !self.is_available() && e == StoreError::Unavailable,
            },
    {
        if !self.available {
            return Err(StoreError::Unavailable);
        }
        let mut out: Vec<LikeDB> = Vec::new();
        let mut i: usize = 0;
        while i < self.likes.len()
            invariant
                i <= self.likes.len(),
                out@ == likes_of(self.likes@.take(i as int), tweet_id),
            decreases self.likes.len() - i,
        {
            let like = self.likes[i];
            proof {
                assert(self.likes@.take(i + 1) =~= self.likes@.take(i as int).push(like));
                self.likes@.take(i as int).lemma_filter_push(
                    like,
                    |l: LikeDB| l.tweet_id == tweet_id,
                );
            }
            if like.tweet_id == tweet_id {
                out.push(like);
            }
            i = i + 1;
        }
        assert(self.likes@.take(self.likes@.len() as int) =~= self.likes@);
        Ok(out)
    }

    /// Adds a row to the table of likes, at its place by creation instant.
    /// Refused where the store cannot be reached, the tweet that the like names
    /// is not there, or the identifier is taken.
    pub fn insert_like(&mut self, row: LikeDB) -> (r: Result<(), StoreError>)
        requires
            old(self).wf(),
        ensures
            final(self).wf(),
            final(self).is_available() == old(self).is_available(),
            final(self).tweet_rows() == old(self).tweet_rows(),
            final(self).like_rows() == likes_after_insert(
                old(self).is_available(),
                old(self).tweet_rows(),
                old(self).like_rows(),
                row,
            ),
            r == like_insert_outcome(
                old(self).is_available(),
                old(self).tweet_rows(),
                old(self).like_rows(),
                row,
            ),
    {
        if !self.available {
            return Err(StoreError::Unavailable);
        }
        if self.tweet_index(row.tweet_id).is_none() {
            return Err(StoreError::Orphan);
        }
        if self.like_index(row.id).is_some() {
            return Err(StoreError::Conflict);
        }
        let ghost before = self.like_rows();
        let ghost stamps = like_stamps(before);
        let mut k: usize = 0;
        while k < self.likes.len() && self.likes[k].created_at.is_later_than(&row.created_at)
            invariant
                k <= self.likes.len(),
                before == self.likes@,
                stamps == like_stamps(before),
                forall|j: int| 0 <= j < k ==> stamps[j].later_than(row.created_at),
            decreases self.likes.len() - k,
        {
            k = k + 1;
        }
        proof {
            assert forall|j: int| k <= j < stamps.len() implies !stamps[j].later_than(
                row.created_at,
            ) by {
                if j > k {
                    assert(stamps[k as int].not_before(stamps[j]));
                }
            }
            lemma_placement_unique(stamps, row.created_at, k as int);
            lemma_insert_sorted(stamps, row.created_at, k as int);
            assert(like_stamps(before.insert(k as int, row)) =~= stamps.insert(
                k as int,
                row.created_at,
            ));
        }
        proof {
            lemma_insert_distinct_likes(before, k as int, row);
            let after = before.insert(k as int, row);
            assert forall|i: int| 0 <= i < after.len() implies has_tweet(
                self.tweet_rows(),
                #[trigger] after[i].tweet_id,
            ) by {
                if i < k {
                    assert(after[i] == before[i]);
                } else if i > k {
                    assert(after[i] == before[i - 1]);
                }
            }
        }
        self.likes.insert(k, row);
        Ok(())
    }

    /// Removes the like with the identifier `id`. Where no like has that
    /// identifier, nothing changes.
    pub fn remove_like(&mut self, id: u128) -> (r: Result<(), StoreError>)
        requires
            old(self).wf(),
        ensures
            final(self).wf(),
            final(self).is_available() == old(self).is_available(),
            final(self).tweet_rows() == old(self).tweet_rows(),
            r is Ok <==> old(self).is_available(),
            r is Err ==> r == Err::<(), StoreError>(StoreError::Unavailable),
            r is Err ==> final(self).like_rows() == old(self).like_rows(),
            r is Ok ==> final(self).like_rows() == without_like(old(self).like_rows(), id),
    {
        if !self.available {
            return Err(StoreError::Unavailable);
        }
        match self.like_index(id) {
            Some(at) => {
                let ghost before = self.like_rows();
                proof {
                    lemma_like_found(before, id, at as int);
                    lemma_remove_sorted(like_stamps(before), at as int);
                    assert(like_stamps(before.remove(at as int)) =~= like_stamps(before).remove(
                        at as int,
                    ));
                }
                let _ = self.likes.remove(at);
            },
            None => {},
        }
        Ok(())
    }
}

/// The table of tweets after an attempt to add `row`.
pub open spec fn tweets_after_insert(available: bool, rows: Seq<TweetRow>, row: TweetRow) -> Seq<
    TweetRow,
> {
    if available && !has_tweet(rows, row.id) {
        rows.insert(placement(tweet_stamps(rows), row.created_at), row)
    } else {
        rows
    }
}

/// What an attempt to add `row` to the table of tweets answers.
pub open spec fn tweet_insert_outcome(available: bool, rows: Seq<TweetRow>, row: TweetRow) -> Result<
    (),
    StoreError,
> {
    if !available {
        Err(StoreError::Unavailable)
    } else if has_tweet(rows, row.id) {
        Err(StoreError::Conflict)
    } else {
        Ok(())
    }
}

/// What an attempt to add `row` to the table of likes answers.
pub open spec fn like_insert_outcome(
    available: bool,
    tweets: Seq<TweetRow>,
    likes: Seq<LikeDB>,
    row: LikeDB,
) -> Result<(), StoreError> {
    if !available {
        Err(StoreError::Unavailable)
    } else if !has_tweet(tweets, row.tweet_id) {
        Err(StoreError::Orphan)
    } else if has_like(likes, row.id) {
        Err(StoreError::Conflict)
    } else {
        Ok(())
    }
}

/// The table of likes after an attempt to add `row`.
pub open spec fn likes_after_insert(
    available: bool,
    tweets: Seq<TweetRow>,
    likes: Seq<LikeDB>,
    row: LikeDB,
) -> Seq<LikeDB> {
    if like_insert_outcome(available, tweets, likes, row) is Ok {
        likes.insert(placement(like_stamps(likes), row.created_at), row)
    } else {
        likes
    }
}

/// A row put at its place leaves the table newest first.
pub proof fn lemma_insert_sorted(stamps: Seq<Timestamp>, t: Timestamp, k: int)
    requires
        newest_first(stamps),
        is_placement(stamps, t, k),
    ensures
        newest_first(stamps.insert(k, t)),
{
    let after = stamps.insert(k, t);
    assert forall|i: int, j: int| 0 <= i < j < after.len() implies after[i].not_before(
        after[j],
    ) by {
        if j < k {
            assert(after[i] == stamps[i] && after[j] == stamps[j]);
        } else if j == k {
            assert(after[i] == stamps[i]);
        } else if i < k {
            assert(after[i] == stamps[i] && after[j] == stamps[j - 1]);
        } else if i == k {
            assert(after[j] == stamps[j - 1]);
        } else {
            assert(after[i] == stamps[i - 1] && after[j] == stamps[j - 1]);
        }
    }
}

/// A table without one of its rows is still newest first.
pub proof fn lemma_remove_sorted(stamps: Seq<Timestamp>, k: int)
    requires
        newest_first(stamps),
        0 <= k < stamps.len(),
    ensures
        newest_first(stamps.remove(k)),
{
    let after = stamps.remove(k);
    assert forall|i: int, j: int| 0 <= i < j < after.len() implies after[i].not_before(
        after[j],
    ) by {
        let a = if i < k { i } else { i + 1 };
        let b = if j < k { j } else { j + 1 };
        assert(after[i] == stamps[a] && after[j] == stamps[b]);
    }
}

/// In a table of distinct identifiers, the row found under an identifier is
/// the one that the table has for it.
pub proof fn lemma_tweet_found(rows: Seq<TweetRow>, id: u128, i: int)
    requires
        distinct_tweets(rows),
        tweet_at(rows, id, i),
    ensures
        has_tweet(rows, id),
        tweet_with(rows, id) == Some(rows[i]),
        without_tweet(rows, id) == rows.remove(i),
        distinct_tweets(rows.remove(i)),
        !has_tweet(rows.remove(i), id),
{
    let c = choose|c: int| tweet_at(rows, id, c);
    assert(tweet_at(rows, id, c));
    assert(c == i) by {
        if c < i {
            assert(rows[c].id != rows[i].id);
        } else if i < c {
            assert(rows[i].id != rows[c].id);
        }
    }
    let after = rows.remove(i);
    assert forall|a: int, b: int| 0 <= a < b < after.len() implies after[a].id != after[b].id by {
        let x = if a < i { a } else { a + 1 };
        let y = if b < i { b } else { b + 1 };
        assert(after[a] == rows[x] && after[b] == rows[y]);
    }
    assert forall|a: int| !tweet_at(after, id, a) by {
        if 0 <= a < after.len() {
            let x = if a < i { a } else { a + 1 };
            assert(after[a] == rows[x]);
            if x < i {
                assert(rows[x].id != rows[i].id);
            } else {
                assert(rows[i].id != rows[x].id);
            }
        }
    }
}

/// In a table of distinct identifiers, the like found under an identifier is
/// the one that the table has for it.
pub proof fn lemma_like_found(rows: Seq<LikeDB>, id: u128, i: int)
    requires
        distinct_likes(rows),
        like_at(rows, id, i),
    ensures
        has_like(rows, id),
        without_like(rows, id) == rows.remove(i),
        distinct_likes(rows.remove(i)),
{
    let c = choose|c: int| like_at(rows, id, c);
    assert(like_at(rows, id, c));
    assert(c == i) by {
        if c < i {
            assert(rows[c].id != rows[i].id);
        } else if i < c {
            assert(rows[i].id != rows[c].id);
        }
    }
    let after = rows.remove(i);
    assert forall|a: int, b: int| 0 <= a < b < after.len() implies after[a].id != after[b].id by {
        let x = if a < i { a } else { a + 1 };
        let y = if b < i { b } else { b + 1 };
        assert(after[a] == rows[x] && after[b] == rows[y]);
    }
}

/// A row with a new identifier leaves the identifiers of the table distinct.
pub proof fn lemma_insert_distinct_tweets(rows: Seq<TweetRow>, k: int, row: TweetRow)
    requires
        0 <= k <= rows.len(),
        distinct_tweets(rows),
        !has_tweet(rows, row.id),
    ensures
        distinct_tweets(rows.insert(k, row)),
{
    let after = rows.insert(k, row);
    assert forall|i: int, j: int| 0 <= i < j < after.len() implies after[i].id != after[j].id by {
        let a = if i < k { i } else { i - 1 };
        let b = if j < k { j } else { j - 1 };
        if i == k {
            assert(after[j] == rows[b] && !tweet_at(rows, row.id, b));
        } else if j == k {
            assert(after[i] == rows[a] && !tweet_at(rows, row.id, a));
        } else {
            assert(after[i] == rows[a] && after[j] == rows[b]);
        }
    }
}

/// A like with a new identifier leaves the identifiers of the table distinct.
pub proof fn lemma_insert_distinct_likes(rows: Seq<LikeDB>, k: int, row: LikeDB)
    requires
        0 <= k <= rows.len(),
        distinct_likes(rows),
        !has_like(rows, row.id),
    ensures
        distinct_likes(rows.insert(k, row)),
{
    let after = rows.insert(k, row);
    assert forall|i: int, j: int| 0 <= i < j < after.len() implies after[i].id != after[j].id by {
        let a = if i < k { i } else { i - 1 };
        let b = if j < k { j } else { j - 1 };
        if i == k {
            assert(after[j] == rows[b] && !like_at(rows, row.id, b));
        } else if j == k {
            assert(after[i] == rows[a] && !like_at(rows, row.id, a));
        } else {
            assert(after[i] == rows[a] && after[j] == rows[b]);
        }
    }
}

/// A tweet that the table has is still there after another row is added.
pub proof fn lemma_has_tweet_insert(rows: Seq<TweetRow>, k: int, row: TweetRow, id: u128)
    requires
        0 <= k <= rows.len(),
        has_tweet(rows, id),
    ensures
        has_tweet(rows.insert(k, row), id),
{
    let i = choose|i: int| tweet_at(rows, id, i);
    let at = if i < k { i } else { i + 1 };
    assert(tweet_at(rows.insert(k, row), id, at));
}

/// Each row that a filter keeps is a row of the table, and the rows kept
/// stand in the order in which the table has them.
pub proof fn lemma_filter_places<A>(rows: Seq<A>, keep: spec_fn(A) -> bool) -> (places: Seq<int>)
    ensures
        places.len() == rows.filter(keep).len(),
        forall|k: int|
            0 <= k < places.len() ==> 0 <= #[trigger] places[k] < rows.len() && rows.filter(
                keep,
            )[k] == rows[places[k]] && keep(rows[places[k]]),
        forall|a: int, b: int| 0 <= a < b < places.len() ==> places[a] < places[b],
    decreases rows.len(),
{
    reveal(Seq::filter);
    if rows.len() == 0 {
        Seq::empty()
    } else {
        let shorter = lemma_filter_places(rows.drop_last(), keep);
        if keep(rows.last()) {
            shorter.push(rows.len() - 1)
        } else {
            shorter
        }
    }
}

/// What is left of a well-kept table of likes after a filter is again newest
/// first and without repeated identifiers.
pub proof fn lemma_filter_keeps_order(rows: Seq<LikeDB>, keep: spec_fn(LikeDB) -> bool)
    requires
        newest_first(like_stamps(rows)),
        distinct_likes(rows),
    ensures
        newest_first(like_stamps(rows.filter(keep))),
        distinct_likes(rows.filter(keep)),
{
    let places = lemma_filter_places(rows, keep);
    let kept = rows.filter(keep);
    assert forall|i: int, j: int| 0 <= i < j < kept.len() implies like_stamps(kept)[i].not_before(
        like_stamps(kept)[j],
    ) by {
        assert(kept[i] == rows[places[i]] && kept[j] == rows[places[j]]);
        assert(places[i] < places[j]);
        assert(like_stamps(rows)[places[i]].not_before(like_stamps(rows)[places[j]]));
    }
    assert forall|i: int, j: int| 0 <= i < j < kept.len() implies kept[i].id != kept[j].id by {
        assert(kept[i] == rows[places[i]] && kept[j] == rows[places[j]]);
        assert(places[i] < places[j]);
    }
}

/// Once a tweet and its likes are gone, every like that is left still names
/// a tweet that is there.
pub proof fn lemma_others_owned(tweets: Seq<TweetRow>, likes: Seq<LikeDB>, id: u128)
    requires
        distinct_tweets(tweets),
        likes_owned(tweets, likes),
    ensures
        likes_owned(without_tweet(tweets, id), likes_of_others(likes, id)),
        likes_owned(tweets, likes_of_others(likes, id)),
{
    let keep = |l: LikeDB| l.tweet_id != id;
    let places = lemma_filter_places(likes, keep);
    let kept = likes_of_others(likes, id);
    assert forall|i: int| 0 <= i < kept.len() implies has_tweet(
        without_tweet(tweets, id),
        #[trigger] kept[i].tweet_id,
    ) && has_tweet(tweets, kept[i].tweet_id) by {
        assert(kept[i] == likes[places[i]]);
        let owner = kept[i].tweet_id;
        assert(has_tweet(tweets, likes[places[i]].tweet_id));
        if has_tweet(tweets, id) {
            let gone = choose|c: int| tweet_at(tweets, id, c);
            let at = choose|c: int| tweet_at(tweets, owner, c);
            assert(at != gone);
            let moved = if at < gone { at } else { at - 1 };
            assert(tweet_at(tweets.remove(gone), owner, moved));
        }
    }
}

} // verus!
