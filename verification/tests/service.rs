use tweet_service::clock::Timestamp;
use tweet_service::like::{Like, LikeDB};
use tweet_service::reply::Status;
use tweet_service::store::{Store, StoreError};
use tweet_service::tweet::{Tweet, TweetDB, TweetRequest};
use tweet_service::{like, tweet};

fn at(secs: i64, nanos: u32) -> Timestamp {
    Timestamp { secs, nanos }
}

fn row(id: u128, secs: i64, message: &str) -> TweetDB {
    TweetDB { id, created_at: at(secs, 0), message: message.to_string() }
}

fn request(message: &str) -> TweetRequest {
    TweetRequest { message: Some(message.to_string()) }
}

fn id_of(text: &str) -> u128 {
    tweet_service::ident::parse_id(text).unwrap()
}

#[test]
fn scenario_tweet_like_unlike() {
    let mut store = Store::new();
    let created = tweet::create(&request("hello"), &mut store);
    assert_eq!(created.status, Status::Created);
    assert_eq!(created.status.code(), 201);
    let stored = created.body.unwrap();
    assert_eq!(stored.message, "hello");
    assert!(stored.likes.is_empty());
    let u1 = id_of(&stored.id);

    let liked = like::plus_one(u1, &mut store);
    assert_eq!(liked.status.code(), 201);
    let l1 = liked.body.unwrap();

    let fetched = tweet::get(u1, &store);
    assert_eq!(fetched.status.code(), 200);
    let shown = fetched.body.unwrap();
    assert_eq!(shown.id, stored.id);
    assert_eq!(shown.likes.len(), 1);
    assert_eq!(shown.likes[0].id, l1.id);
    assert_eq!(shown.likes[0].created_at, l1.created_at);

    let unliked = like::minus_one(u1, &mut store);
    assert_eq!(unliked.status.code(), 204);
    assert!(unliked.body.is_none());

    let listed = like::list(u1, &store);
    assert_eq!(listed.status.code(), 200);
    assert!(listed.body.unwrap().results.is_empty());
}

#[test]
fn created_tweets_have_distinct_identifiers_and_current_instants() {
    let before = chrono::Utc::now().timestamp();
    let mut store = Store::new();
    let a = tweet::create(&request("one"), &mut store).body.unwrap();
    let b = tweet::create(&request("two"), &mut store).body.unwrap();
    assert_ne!(a.id, b.id);
    assert!(a.created_at.secs >= before);
    assert!(b.created_at.secs >= before);
    assert!(a.created_at.nanos < 1_000_000_000);
    assert_eq!(store.tweet_count(), 2);
}

#[test]
fn later_tweet_is_listed_first() {
    let mut store = Store::new();
    let t1 = tweet::create(&request("first"), &mut store).body.unwrap();
    let t2 = tweet::create(&request("second"), &mut store).body.unwrap();
    let listed = tweet::list(&store);
    assert_eq!(listed.status, Status::Okay);
    let results = listed.body.unwrap().results;
    assert_eq!(results.len(), 2);
    assert_eq!(results[0].id, t2.id);
    assert_eq!(results[1].id, t1.id);
}

#[test]
fn rows_are_kept_newest_first_whatever_the_order_of_arrival() {
    let mut store = Store::new();
    assert!(tweet::store_tweet(row(1, 20, "b"), &mut store).is_ok());
    assert!(tweet::store_tweet(row(2, 30, "c"), &mut store).is_ok());
    assert!(tweet::store_tweet(row(3, 10, "a"), &mut store).is_ok());
    assert!(tweet::store_tweet(row(4, 20, "b again"), &mut store).is_ok());
    let rows = store.load_tweets(10).unwrap();
    let ids: Vec<u128> = rows.iter().map(|r| r.id).collect();
    assert_eq!(ids, vec![2, 4, 1, 3]);
    let two = store.load_tweets(2).unwrap();
    let ids: Vec<u128> = two.iter().map(|r| r.id).collect();
    assert_eq!(ids, vec![2, 4]);
    assert!(store.load_tweets(0).unwrap().is_empty());
}

#[test]
fn listing_shows_fifty_tweets_at_most() {
    let mut store = Store::new();
    let mut n: u128 = 0;
    while n < 60 {
        assert!(tweet::store_tweet(row(n + 1, 1000 + n as i64, "m"), &mut store).is_ok());
        n += 1;
    }
    assert_eq!(store.tweet_count(), 60);
    let results = tweet::list(&store).body.unwrap().results;
    assert_eq!(results.len(), 50);
    assert_eq!(id_of(&results[0].id), 60);
    assert_eq!(id_of(&results[49].id), 11);
    assert_eq!(tweet::LISTED_TWEETS, 50);
}

#[test]
fn listing_attaches_each_tweets_own_likes() {
    let mut store = Store::new();
    assert!(tweet::store_tweet(row(1, 10, "a"), &mut store).is_ok());
    assert!(tweet::store_tweet(row(2, 20, "b"), &mut store).is_ok());
    assert!(store.insert_like(LikeDB { id: 7, created_at: at(30, 0), tweet_id: 1 }).is_ok());
    assert!(store.insert_like(LikeDB { id: 8, created_at: at(31, 0), tweet_id: 1 }).is_ok());
    assert!(store.insert_like(LikeDB { id: 9, created_at: at(32, 0), tweet_id: 2 }).is_ok());
    let results = tweet::list(&store).body.unwrap().results;
    assert_eq!(results.len(), 2);
    assert_eq!(id_of(&results[0].id), 2);
    assert_eq!(results[0].likes.len(), 1);
    assert_eq!(id_of(&results[0].likes[0].id), 9);
    assert_eq!(id_of(&results[1].id), 1);
    let likes: Vec<u128> = results[1].likes.iter().map(|l| id_of(&l.id)).collect();
    assert_eq!(likes, vec![8, 7]);
}

#[test]
fn missing_tweet_is_answered_without_a_body() {
    let store = Store::new();
    let reply = tweet::get(42, &store);
    assert_eq!(reply.status, Status::NoContent);
    assert_eq!(reply.status.code(), 204);
    assert!(reply.body.is_none());
    assert_eq!(tweet::find_tweet(42, &store).unwrap_err(), StoreError::NotFound);
}

#[test]
fn one_like_is_listed_alone() {
    let mut store = Store::new();
    let t = tweet::create(&request("liked"), &mut store).body.unwrap();
    let id = id_of(&t.id);
    let l = like::plus_one(id, &mut store).body.unwrap();
    let listed = like::list(id, &store).body.unwrap().results;
    assert_eq!(listed.len(), 1);
    assert_eq!(listed[0].id, l.id);
}

#[test]
fn unlike_removes_the_later_like() {
    let mut store = Store::new();
    let t = tweet::create(&request("liked twice"), &mut store).body.unwrap();
    let id = id_of(&t.id);
    let earlier = like::plus_one(id, &mut store).body.unwrap();
    let later = like::plus_one(id, &mut store).body.unwrap();
    assert_ne!(earlier.id, later.id);
    assert_eq!(store.like_count(), 2);
    let reply = like::minus_one(id, &mut store);
    assert_eq!(reply.status, Status::NoContent);
    let listed = like::list(id, &store).body.unwrap().results;
    assert_eq!(listed.len(), 1);
    assert_eq!(listed[0].id, earlier.id);
}

#[test]
fn unlike_goes_by_creation_instant() {
    let mut store = Store::new();
    assert!(tweet::store_tweet(row(1, 10, "a"), &mut store).is_ok());
    assert!(tweet::store_tweet(row(2, 11, "b"), &mut store).is_ok());
    assert!(store.insert_like(LikeDB { id: 5, created_at: at(50, 0), tweet_id: 1 }).is_ok());
    assert!(store.insert_like(LikeDB { id: 6, created_at: at(40, 0), tweet_id: 1 }).is_ok());
    assert!(store.insert_like(LikeDB { id: 7, created_at: at(60, 0), tweet_id: 2 }).is_ok());
    assert!(like::delete_like(1, &mut store).is_ok());
    let left = store.load_likes(1).unwrap();
    assert_eq!(left, vec![LikeDB { id: 6, created_at: at(40, 0), tweet_id: 1 }]);
    assert_eq!(store.load_likes(2).unwrap().len(), 1);
    assert!(like::delete_like(1, &mut store).is_ok());
    assert!(like::delete_like(1, &mut store).is_ok());
    assert!(store.load_likes(1).unwrap().is_empty());
    assert_eq!(store.like_count(), 1);
}

#[test]
fn delete_answers_the_same_whether_or_not_the_tweet_is_there() {
    let mut store = Store::new();
    let absent = tweet::delete(99, &mut store);
    assert_eq!(absent.status.code(), 204);
    assert!(absent.body.is_none());
    let t = tweet::create(&request("short-lived"), &mut store).body.unwrap();
    let id = id_of(&t.id);
    assert_eq!(tweet::delete(id, &mut store).status, Status::NoContent);
    assert_eq!(store.tweet_count(), 0);
    assert_eq!(tweet::delete(id, &mut store).status, Status::NoContent);
    assert_eq!(store.tweet_count(), 0);
    assert!(tweet::delete_tweet(id, &mut store).is_ok());
}

#[test]
fn deleting_a_tweet_deletes_its_likes() {
    let mut store = Store::new();
    assert!(tweet::store_tweet(row(1, 10, "a"), &mut store).is_ok());
    assert!(tweet::store_tweet(row(2, 11, "b"), &mut store).is_ok());
    assert!(store.insert_like(LikeDB { id: 5, created_at: at(50, 0), tweet_id: 1 }).is_ok());
    assert!(store.insert_like(LikeDB { id: 6, created_at: at(51, 0), tweet_id: 2 }).is_ok());
    assert!(store.insert_like(LikeDB { id: 7, created_at: at(52, 0), tweet_id: 1 }).is_ok());
    assert!(tweet::delete_tweet(1, &mut store).is_ok());
    assert_eq!(store.tweet_count(), 1);
    assert_eq!(store.like_count(), 1);
    assert_eq!(store.load_likes(2).unwrap()[0].id, 6);
    assert!(store.load_likes(1).unwrap().is_empty());
}

#[test]
fn created_tweet_is_fetched_as_it_was_stored() {
    let mut store = Store::new();
    let stored = tweet::create(&request("round trip"), &mut store).body.unwrap();
    let fetched = tweet::get(id_of(&stored.id), &store).body.unwrap();
    assert_eq!(fetched.id, stored.id);
    assert_eq!(fetched.message, stored.message);
    assert_eq!(fetched.created_at, stored.created_at);
    assert!(fetched.likes.is_empty());
}

#[test]
fn unreachable_store_is_answered_as_empty_or_without_a_body() {
    let mut store = Store::new();
    let t = tweet::create(&request("kept"), &mut store).body.unwrap();
    let id = id_of(&t.id);
    assert!(like::plus_one(id, &mut store).body.is_some());
    store.set_available(false);
    assert!(!store.available());

    let listed = tweet::list(&store);
    assert_eq!(listed.status, Status::Okay);
    assert!(listed.body.unwrap().results.is_empty());
    let likes = like::list(id, &store);
    assert_eq!(likes.status, Status::Okay);
    assert!(likes.body.unwrap().results.is_empty());
    assert_eq!(tweet::get(id, &store).status, Status::NoContent);
    let created = tweet::create(&request("lost"), &mut store);
    assert_eq!(created.status, Status::NoContent);
    assert!(created.body.is_none());
    let liked = like::plus_one(id, &mut store);
    assert_eq!(liked.status, Status::NoContent);
    assert!(liked.body.is_none());
    assert_eq!(like::minus_one(id, &mut store).status, Status::NoContent);
    assert_eq!(tweet::delete(id, &mut store).status, Status::NoContent);

    assert_eq!(tweet::find_tweet(id, &store).unwrap_err(), StoreError::Unavailable);
    assert_eq!(tweet::delete_tweet(id, &mut store).unwrap_err(), StoreError::Unavailable);
    assert_eq!(like::create_like(id, &mut store).unwrap_err(), StoreError::Unavailable);
    assert_eq!(
        tweet::create_tweet(Tweet::new("x".to_string()), &mut store).unwrap_err(),
        StoreError::Unavailable
    );
    assert!(like::delete_like(id, &mut store).is_ok());
    assert_eq!(store.load_tweets(5).unwrap_err(), StoreError::Unavailable);
    assert_eq!(store.load_likes(id).unwrap_err(), StoreError::Unavailable);

    store.set_available(true);
    assert_eq!(store.tweet_count(), 1);
    assert_eq!(store.like_count(), 1);
    assert_eq!(tweet::list(&store).body.unwrap().results.len(), 1);
}

#[test]
fn store_refuses_taken_identifiers_orphans_and_negative_limits() {
    let mut store = Store::new();
    assert!(tweet::store_tweet(row(1, 10, "a"), &mut store).is_ok());
    assert_eq!(
        tweet::store_tweet(row(1, 12, "again"), &mut store).unwrap_err(),
        StoreError::Conflict
    );
    assert_eq!(store.tweet_count(), 1);
    let like = LikeDB { id: 5, created_at: at(50, 0), tweet_id: 1 };
    assert!(store.insert_like(like).is_ok());
    assert_eq!(store.insert_like(like).unwrap_err(), StoreError::Conflict);
    let stray = LikeDB { id: 6, created_at: at(50, 0), tweet_id: 3 };
    assert_eq!(store.insert_like(stray).unwrap_err(), StoreError::Orphan);
    assert_eq!(like::create_like(3, &mut store).unwrap_err(), StoreError::Orphan);
    assert_eq!(like::plus_one(3, &mut store).status, Status::NoContent);
    assert_eq!(store.like_count(), 1);
    assert_eq!(store.load_tweets(-1).unwrap_err(), StoreError::BadLimit);
    assert!(tweet::list_tweets(-1, &store).unwrap().results.is_empty());
    assert_eq!(tweet::list_tweets(1, &store).unwrap().results.len(), 1);
}

#[test]
fn identifiers_are_written_and_read_as_uuids() {
    let id: u128 = 0xa1a2a3a4b1b2c1c2d1d2d3d4d5d6d7d8;
    assert_eq!(id_of("a1a2a3a4-b1b2-c1c2-d1d2-d3d4d5d6d7d8"), id);
    assert_eq!(id_of("A1A2A3A4B1B2C1C2D1D2D3D4D5D6D7D8"), id);
    assert_eq!(tweet_service::ident::parse_id("not an identifier"), None);
    assert_eq!(tweet_service::ident::parse_id(""), None);
    let sent = row(id, 5, "m").to_tweet();
    assert_eq!(sent.id, "a1a2a3a4-b1b2-c1c2-d1d2-d3d4d5d6d7d8");
    assert_eq!(sent.message, "m");
    assert_eq!(sent.created_at, at(5, 0));
    let like = LikeDB { id, created_at: at(6, 7), tweet_id: 1 }.to_like();
    assert_eq!(like.id, "a1a2a3a4-b1b2-c1c2-d1d2-d3d4d5d6d7d8");
    assert_eq!(like.created_at, at(6, 7));
    let back = like.to_like_db(9);
    assert_eq!(back, LikeDB { id, created_at: at(6, 7), tweet_id: 9 });
}

#[test]
fn new_likes_and_tweets_draw_their_own_identifiers() {
    let a = Like::new();
    let b = Like::new();
    assert_ne!(a.id, b.id);
    assert_eq!(a.id.len(), 36);
    assert!(a.created_at.secs > 1_600_000_000);
    let t = Tweet::new("text".to_string());
    assert_eq!(t.message, "text");
    assert!(t.likes.is_empty());
    let stored = t.to_tweet_db();
    assert_eq!(stored.message, "text");
    assert_eq!(stored.id, id_of(&t.id));
    assert_eq!(stored.created_at, t.created_at);
    assert_eq!(stored.to_tweet().id, t.id);
    let copy = stored.duplicate();
    assert_eq!(copy.id, stored.id);
    assert_eq!(copy.message, stored.message);
    assert_eq!(copy.created_at, stored.created_at);
}

#[test]
fn new_identifiers_are_hyphenated_and_read_back() {
    let like = Like::new();
    let text: Vec<char> = like.id.chars().collect();
    assert_eq!(text.len(), 36);
    assert_eq!(text[8], '-');
    assert_eq!(text[13], '-');
    assert_eq!(text[18], '-');
    assert_eq!(text[23], '-');
    assert_eq!(text[14], '4');
    assert!(matches!(text[19], '8' | '9' | 'a' | 'b'));
    let id = id_of(&like.id);
    assert_eq!((id >> 76) & 0xf, 4);
    assert_eq!((id >> 62) & 0x3, 2);
    let row = like.to_like_db(1);
    assert_eq!(row.id, id);
    assert_eq!(row.to_like().id, like.id);
    assert_eq!(row.created_at, like.created_at);
    assert_eq!(row.tweet_id, 1);
    let low = LikeDB { id: 0x0f, created_at: at(0, 0), tweet_id: 0 }.to_like();
    assert_eq!(low.id, "00000000-0000-0000-0000-00000000000f");
}

#[test]
fn newest_like_is_the_first_listed() {
    let mut store = Store::new();
    assert!(tweet::store_tweet(row(1, 10, "a"), &mut store).is_ok());
    assert_eq!(like::newest_like(&like::list_likes(1, &store).unwrap()), None);
    assert!(store.insert_like(LikeDB { id: 5, created_at: at(50, 1), tweet_id: 1 }).is_ok());
    assert!(store.insert_like(LikeDB { id: 6, created_at: at(50, 2), tweet_id: 1 }).is_ok());
    assert_eq!(like::newest_like(&like::list_likes(1, &store).unwrap()), Some(6));
    let refused = like::liked(Err(StoreError::Conflict));
    assert_eq!(refused.status, Status::NoContent);
    assert!(refused.body.is_none());
    let answered = tweet::created(Ok(row(9, 1, "kept").to_tweet()));
    assert_eq!(answered.status, Status::Created);
    assert_eq!(answered.body.unwrap().message, "kept");
}

#[test]
fn add_likes_replaces_the_likes_only() {
    let t = row(3, 8, "body").to_tweet();
    let likes = vec![LikeDB { id: 4, created_at: at(9, 0), tweet_id: 3 }.to_like()];
    let with = t.add_likes(likes);
    assert_eq!(with.id, t.id);
    assert_eq!(with.message, "body");
    assert_eq!(with.created_at, at(8, 0));
    assert_eq!(with.likes.len(), 1);
    assert_eq!(id_of(&with.likes[0].id), 4);
}

#[test]
fn request_without_a_message_is_answered_without_a_body_and_stores_nothing() {
    let mut store = Store::new();
    assert!(tweet::store_tweet(row(1, 10, "kept"), &mut store).is_ok());
    let reply = tweet::create(&TweetRequest { message: None }, &mut store);
    assert_eq!(reply.status, Status::NoContent);
    assert_eq!(reply.status.code(), 204);
    assert!(reply.body.is_none());
    assert_eq!(store.tweet_count(), 1);
    assert_eq!(store.like_count(), 0);
    assert_eq!(store.load_tweets(5).unwrap()[0].id, 1);
}

#[test]
fn first_tweet_in_an_empty_store_is_stored_as_it_is_answered() {
    let mut store = Store::new();
    let reply = tweet::create(&request("hello"), &mut store);
    assert_eq!(reply.status.code(), 201);
    let body = reply.body.unwrap();
    assert_eq!(body.message, "hello");
    assert!(body.likes.is_empty());
    let rows = store.load_tweets(10).unwrap();
    assert_eq!(rows.len(), 1);
    assert_eq!(rows[0].id, id_of(&body.id));
    assert_eq!(rows[0].message, "hello");
    assert_eq!(rows[0].created_at, body.created_at);
    assert_eq!(store.like_count(), 0);
}

#[test]
fn create_tweet_keeps_identifier_and_instant_and_refuses_a_taken_identifier() {
    let mut store = Store::new();
    let given = row(0xabc, 77, "mine").to_tweet();
    let again = row(0xabc, 78, "again").to_tweet();
    let stored = tweet::create_tweet(given, &mut store).unwrap();
    assert_eq!(id_of(&stored.id), 0xabc);
    assert_eq!(stored.created_at, at(77, 0));
    assert_eq!(stored.message, "mine");
    assert!(stored.likes.is_empty());
    assert_eq!(tweet::create_tweet(again, &mut store).unwrap_err(), StoreError::Conflict);
    let rows = store.load_tweets(10).unwrap();
    assert_eq!(rows.len(), 1);
    assert_eq!(rows[0].created_at, at(77, 0));
}

#[test]
fn first_like_of_a_tweet_is_stored_as_it_is_answered() {
    let mut store = Store::new();
    assert!(tweet::store_tweet(row(1, 10, "a"), &mut store).is_ok());
    let reply = like::plus_one(1, &mut store);
    assert_eq!(reply.status.code(), 201);
    let body = reply.body.unwrap();
    let rows = store.load_likes(1).unwrap();
    assert_eq!(rows.len(), 1);
    assert_eq!(rows[0].id, id_of(&body.id));
    assert_eq!(rows[0].created_at, body.created_at);
    assert_eq!(rows[0].tweet_id, 1);
    assert_eq!(store.tweet_count(), 1);
}

#[test]
fn request_without_a_message_gives_no_tweet() {
    assert!(TweetRequest { message: None }.to_tweet().is_none());
    let t = request("present").to_tweet().unwrap();
    assert_eq!(t.message, "present");
}

#[test]
fn instants_are_ordered_by_seconds_then_nanoseconds() {
    assert!(at(2, 0).is_later_than(&at(1, 999_999_999)));
    assert!(at(1, 5).is_later_than(&at(1, 4)));
    assert!(!at(1, 4).is_later_than(&at(1, 4)));
    assert!(!at(1, 4).is_later_than(&at(1, 5)));
    assert!(!at(-1, 0).is_later_than(&at(0, 0)));
}

#[test]
fn statuses_have_their_codes() {
    assert_eq!(Status::Okay.code(), 200);
    assert_eq!(Status::Created.code(), 201);
    assert_eq!(Status::NoContent.code(), 204);
}

#[test]
fn encode_request_is_answered_with_its_url() {
    let req = tweet_service::echo::MyRequest { url: "http://example.org/a".to_string() };
    let res = req.to_response();
    assert_eq!(res.id, "http://example.org/a");
    assert_eq!(res.url, "http://example.org/a");
}

#[test]
fn new_envelope_is_empty() {
    let envelope: tweet_service::response::Response<Like> = tweet_service::response::Response::new();
    assert!(envelope.results.is_empty());
}
