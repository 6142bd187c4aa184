//! What holds of the service across calls, stated over the tables.

use vstd::prelude::*;
use crate::clock::Timestamp;
use crate::like::{likes_after_unlike, listed_likes, LikeDB};
use crate::store::{
    distinct_likes, distinct_tweets, has_tweet, is_placement, like_at, like_insert_outcome,
    like_stamps, likes_after_insert, likes_of, likes_owned, lemma_filter_places,
    lemma_insert_distinct_likes, lemma_insert_distinct_tweets, lemma_insert_sorted,
    lemma_like_found, lemma_placement_unique, lemma_tweet_found, newest_first, placement,
    tweet_at, tweet_insert_outcome, tweet_stamps, tweet_with, tweets_after_insert,
};
use crate::tweet::{
    enriched, likes_after_delete, listed_tweets, listing, tweet_of_row, tweets_after_delete,
    TweetRow, LISTED_TWEETS,
};

verus! {

/// A table that is newest first has a place for every new row.
pub proof fn lemma_placement_exists(stamps: Seq<Timestamp>, t: Timestamp) -> (k: int)
    requires
        newest_first(stamps),
    ensures
        is_placement(stamps, t, k),
        placement(stamps, t) == k,
    decreases stamps.len(),
{
    let k = if stamps.len() == 0 {
        0
    } else {
        let shorter = stamps.drop_last();
        assert forall|i: int, j: int| 0 <= i < j < shorter.len() implies shorter[i].not_before(
            shorter[j],
        ) by {
            assert(shorter[i] == stamps[i] && shorter[j] == stamps[j]);
        }
        let at = lemma_placement_exists(shorter, t);
        if at == shorter.len() && stamps.last().later_than(t) {
            assert forall|i: int| 0 <= i < stamps.len() implies stamps[i].later_than(t) by {
                if i < shorter.len() {
                    assert(shorter[i] == stamps[i]);
                }
            }
            stamps.len() as int
        } else {
            assert forall|i: int| 0 <= i < at implies stamps[i].later_than(t) by {
                assert(shorter[i] == stamps[i]);
            }
            assert forall|i: int| at <= i < stamps.len() implies !stamps[i].later_than(t) by {
                if i < shorter.len() {
                    assert(shorter[i] == stamps[i]);
                } else if at < shorter.len() {
                    assert(shorter[at] == stamps[at]);
                    assert(stamps[at].not_before(stamps[i]));
                }
            }
            at
        }
    };
    lemma_placement_unique(stamps, t, k);
    k
}

/// The rows that a filter keeps of a table with one more row: what it keeps
/// before the new row, the new row if it keeps it, and what it keeps behind.
pub proof fn lemma_filter_insert(rows: Seq<LikeDB>, k: int, row: LikeDB, keep: spec_fn(LikeDB) -> bool)
    requires
        0 <= k <= rows.len(),
    ensures
        rows.filter(keep) == rows.take(k).filter(keep) + rows.skip(k).filter(keep),
        rows.insert(k, row).filter(keep) == rows.take(k).filter(keep) + (if keep(row) {
            seq![row]
        } else {
            Seq::<LikeDB>::empty()
        }) + rows.skip(k).filter(keep),
{
    let front = rows.take(k);
    let back = rows.skip(k);
    assert(rows =~= front + back);
    assert(rows.insert(k, row) =~= front.push(row) + back);
    Seq::filter_distributes_over_add(front, back, keep);
    Seq::filter_distributes_over_add(front.push(row), back, keep);
    front.lemma_filter_push(row, keep);
    if keep(row) {
        assert(front.filter(keep).push(row) =~= front.filter(keep) + seq![row]);
    } else {
        assert(front.filter(keep) =~= front.filter(keep) + Seq::<LikeDB>::empty());
    }
}

/// A filter that every row passes keeps the whole table.
pub proof fn lemma_filter_all(rows: Seq<LikeDB>, keep: spec_fn(LikeDB) -> bool)
    requires
        forall|i: int| 0 <= i < rows.len() ==> keep(#[trigger] rows[i]),
    ensures
        rows.filter(keep) == rows,
    decreases rows.len(),
{
    reveal(Seq::filter);
    if rows.len() > 0 {
        let shorter = rows.drop_last();
        assert forall|i: int| 0 <= i < shorter.len() implies keep(#[trigger] shorter[i]) by {
            assert(shorter[i] == rows[i]);
        }
        lemma_filter_all(shorter, keep);
        assert(shorter.push(rows.last()) =~= rows);
    }
}

/// Of two tweets stored one after the other, the one created later stands
/// before the other in the table, so a listing shows it first. Stored into an
/// empty table, the two are listed as the later one, then the earlier one.
pub proof fn law_later_tweet_listed_first(rows: Seq<TweetRow>, earlier: TweetRow, later: TweetRow)
    requires
        newest_first(tweet_stamps(rows)),
        distinct_tweets(rows),
        !has_tweet(rows, earlier.id),
        !has_tweet(rows, later.id),
        earlier.id != later.id,
        later.created_at.not_before(earlier.created_at),
    ensures
        ({
            let after = tweets_after_insert(true, tweets_after_insert(true, rows, earlier), later);
            &&& exists|i: int, j: int|
                0 <= i < j < after.len() && after[i] == later && after[j] == earlier
            &&& rows.len() == 0 ==> listed_tweets(true, after, LISTED_TWEETS as int)
                == seq![later, earlier]
        }),
{
    let k1 = lemma_placement_exists(tweet_stamps(rows), earlier.created_at);
    let first = tweets_after_insert(true, rows, earlier);
    assert(first == rows.insert(k1, earlier));
    lemma_insert_sorted(tweet_stamps(rows), earlier.created_at, k1);
    assert(tweet_stamps(first) =~= tweet_stamps(rows).insert(k1, earlier.created_at));
    assert forall|i: int| !tweet_at(first, later.id, i) by {
        if 0 <= i < first.len() {
            if i < k1 {
                assert(first[i] == rows[i] && !tweet_at(rows, later.id, i));
            } else if i > k1 {
                assert(first[i] == rows[i - 1] && !tweet_at(rows, later.id, i - 1));
            }
        }
    }
    let k2 = lemma_placement_exists(tweet_stamps(first), later.created_at);
    let after = tweets_after_insert(true, first, later);
    assert(after == first.insert(k2, later));
    assert(k2 <= k1) by {
        if k1 < k2 {
            assert(tweet_stamps(first)[k1].later_than(later.created_at));
        }
    }
    assert(after[k2] == later && after[k1 + 1] == earlier);
    if rows.len() == 0 {
        assert(after =~= seq![later, earlier]);
    }
}

/// Listings are ordered by creation instant, newest first: the tweets that a
/// listing of at most `limit` shows, and the likes listed for a tweet.
pub proof fn law_listings_are_newest_first(
    available: bool,
    tweets: Seq<TweetRow>,
    likes: Seq<LikeDB>,
    limit: int,
    tweet_id: u128,
)
    requires
        newest_first(tweet_stamps(tweets)),
        newest_first(like_stamps(likes)),
    ensures
        newest_first(tweet_stamps(listed_tweets(available, tweets, limit))),
        newest_first(like_stamps(listed_likes(available, likes, tweet_id))),
{
    let shown = listed_tweets(available, tweets, limit);
    assert forall|i: int, j: int| 0 <= i < j < shown.len() implies tweet_stamps(
        shown,
    )[i].not_before(tweet_stamps(shown)[j]) by {
        assert(shown[i] == tweets[i] && shown[j] == tweets[j]);
        assert(tweet_stamps(tweets)[i].not_before(tweet_stamps(tweets)[j]));
    }
    let liked = listed_likes(available, likes, tweet_id);
    if available {
        let places = lemma_filter_places(likes, |l: LikeDB| l.tweet_id == tweet_id);
        assert forall|i: int, j: int| 0 <= i < j < liked.len() implies like_stamps(
            liked,
        )[i].not_before(like_stamps(liked)[j]) by {
            assert(liked[i] == likes[places[i]] && liked[j] == likes[places[j]]);
            assert(places[i] < places[j]);
            assert(like_stamps(likes)[places[i]].not_before(like_stamps(likes)[places[j]]));
        }
    }
}

/// A listing never shows more than `LISTED_TWEETS` tweets, however many the
/// table holds.
pub proof fn law_listing_is_capped(available: bool, tweets: Seq<TweetRow>, likes: Seq<LikeDB>)
    ensures
        listing(available, tweets, likes).len() <= LISTED_TWEETS,
{
}

/// A like added to a tweet that has none is, after that, the one like that
/// the tweet's listing shows.
pub proof fn law_first_like_listed_alone(tweets: Seq<TweetRow>, likes: Seq<LikeDB>, like: LikeDB)
    requires
        newest_first(like_stamps(likes)),
        likes_of(likes, like.tweet_id).len() == 0,
        like_insert_outcome(true, tweets, likes, like) is Ok,
    ensures
        likes_of(likes_after_insert(true, tweets, likes, like), like.tweet_id) == seq![like],
{
    let keep = |l: LikeDB| l.tweet_id == like.tweet_id;
    let k = lemma_placement_exists(like_stamps(likes), like.created_at);
    lemma_filter_insert(likes, k, like, keep);
    assert(likes.take(k).filter(keep).len() == 0 && likes.skip(k).filter(keep).len() == 0);
    assert(likes.insert(k, like).filter(keep) =~= seq![like]);
}

/// Of two likes added to a tweet that had none, taking one back removes the
/// one created later: the table is as it was after the first like, and the
/// tweet's listing shows the earlier like alone.
pub proof fn law_unlike_keeps_earlier_like(
    tweets: Seq<TweetRow>,
    likes: Seq<LikeDB>,
    earlier: LikeDB,
    later: LikeDB,
)
    requires
        newest_first(like_stamps(likes)),
        distinct_likes(likes),
        earlier.tweet_id == later.tweet_id,
        likes_of(likes, earlier.tweet_id).len() == 0,
        like_insert_outcome(true, tweets, likes, earlier) is Ok,
        like_insert_outcome(
            true,
            tweets,
            likes_after_insert(true, tweets, likes, earlier),
            later,
        ) is Ok,
        later.created_at.not_before(earlier.created_at),
    ensures
        ({
            let one = likes_after_insert(true, tweets, likes, earlier);
            let two = likes_after_insert(true, tweets, one, later);
            &&& likes_of(two, earlier.tweet_id) == seq![later, earlier]
            &&& likes_after_unlike(true, two, earlier.tweet_id) == one
            &&& likes_of(likes_after_unlike(true, two, earlier.tweet_id), earlier.tweet_id)
                == seq![earlier]
        }),
{
    let owner = earlier.tweet_id;
    let keep = |l: LikeDB| l.tweet_id == owner;
    law_first_like_listed_alone(tweets, likes, earlier);
    let k1 = lemma_placement_exists(like_stamps(likes), earlier.created_at);
    let one = likes_after_insert(true, tweets, likes, earlier);
    assert(one == likes.insert(k1, earlier));
    lemma_insert_sorted(like_stamps(likes), earlier.created_at, k1);
    assert(like_stamps(one) =~= like_stamps(likes).insert(k1, earlier.created_at));
    lemma_insert_distinct_likes(likes, k1, earlier);
    let k2 = lemma_placement_exists(like_stamps(one), later.created_at);
    let two = likes_after_insert(true, tweets, one, later);
    assert(two == one.insert(k2, later));
    lemma_filter_insert(one, k2, later, keep);
    let front = one.take(k2).filter(keep);
    let back = one.skip(k2).filter(keep);
    assert(front + back == seq![earlier]);
    if front.len() > 0 {
        assert(front[0] == (front + back)[0]);
        let places = lemma_filter_places(one.take(k2), keep);
        let at = places[0];
        assert(one.take(k2)[at] == earlier);
        assert(like_stamps(one)[at].later_than(later.created_at));
        assert(false);
    }
    assert(back =~= seq![earlier]);
    assert(likes_of(two, owner) =~= seq![later, earlier]);
    lemma_insert_distinct_likes(one, k2, later);
    assert(like_at(two, later.id, k2));
    lemma_like_found(two, later.id, k2);
    assert(two.remove(k2) =~= one);
}

/// Deleting a tweet that is not there changes nothing, so deleting a tweet
/// twice leaves the tables as deleting it once does.
pub proof fn law_delete_is_idempotent(
    available: bool,
    tweets: Seq<TweetRow>,
    likes: Seq<LikeDB>,
    id: u128,
)
    requires
        distinct_tweets(tweets),
        likes_owned(tweets, likes),
    ensures
        !has_tweet(tweets, id) ==> tweets_after_delete(available, tweets, id) == tweets
            && likes_after_delete(available, likes, id) == likes,
        tweets_after_delete(available, tweets_after_delete(available, tweets, id), id)
            == tweets_after_delete(available, tweets, id),
        likes_after_delete(available, likes_after_delete(available, likes, id), id)
            == likes_after_delete(available, likes, id),
{
    let keep = |l: LikeDB| l.tweet_id != id;
    if !has_tweet(tweets, id) {
        assert forall|i: int| 0 <= i < likes.len() implies keep(#[trigger] likes[i]) by {
            assert(has_tweet(tweets, likes[i].tweet_id));
        }
        lemma_filter_all(likes, keep);
    } else {
        let at = choose|i: int| tweet_at(tweets, id, i);
        lemma_tweet_found(tweets, id, at);
    }
    let kept = likes.filter(keep);
    let places = lemma_filter_places(likes, keep);
    assert forall|i: int| 0 <= i < kept.len() implies keep(#[trigger] kept[i]) by {
        assert(kept[i] == likes[places[i]]);
    }
    lemma_filter_all(kept, keep);
}

/// Two tweets that were stored one after the other have different
/// identifiers, whatever was drawn for them: the table that took the first
/// refuses a second one under the same identifier.
pub proof fn law_stored_tweets_differ(rows: Seq<TweetRow>, first: TweetRow, second: TweetRow)
    requires
        newest_first(tweet_stamps(rows)),
        tweet_insert_outcome(true, rows, first) is Ok,
        tweet_insert_outcome(true, tweets_after_insert(true, rows, first), second) is Ok,
    ensures
        first.id != second.id,
        has_tweet(tweets_after_insert(true, rows, first), first.id),
{
    let k = lemma_placement_exists(tweet_stamps(rows), first.created_at);
    assert(tweet_at(tweets_after_insert(true, rows, first), first.id, k));
}

/// Two likes that were stored one after the other have different
/// identifiers, whatever was drawn for them.
pub proof fn law_stored_likes_differ(
    tweets: Seq<TweetRow>,
    likes: Seq<LikeDB>,
    first: LikeDB,
    second: LikeDB,
)
    requires
        newest_first(like_stamps(likes)),
        like_insert_outcome(true, tweets, likes, first) is Ok,
        like_insert_outcome(
            true,
            tweets,
            likes_after_insert(true, tweets, likes, first),
            second,
        ) is Ok,
    ensures
        first.id != second.id,
{
    let k = lemma_placement_exists(like_stamps(likes), first.created_at);
    assert(like_at(likes_after_insert(true, tweets, likes, first), first.id, k));
}

/// A tweet that was stored is found under its identifier, and what is then
/// sent has the identifier, the instant and the message that were stored.
pub proof fn law_stored_tweet_is_found(rows: Seq<TweetRow>, likes: Seq<LikeDB>, row: TweetRow)
    requires
        newest_first(tweet_stamps(rows)),
        distinct_tweets(rows),
        !has_tweet(rows, row.id),
    ensures
        ({
            let after = tweets_after_insert(true, rows, row);
            let sent = enriched(tweet_with(after, row.id).unwrap(), likes);
            &&& tweet_with(after, row.id) == Some(row)
            &&& sent.id == tweet_of_row(row).id
            &&& sent.created_at == row.created_at
            &&& sent.message == row.message
        }),
{
    let k = lemma_placement_exists(tweet_stamps(rows), row.created_at);
    let after = rows.insert(k, row);
    lemma_insert_distinct_tweets(rows, k, row);
    assert(tweet_at(after, row.id, k));
    lemma_tweet_found(after, row.id, k);
}

} // verus!
