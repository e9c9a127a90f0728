//! The tweets of an archive, without those that cannot be posted.
use vstd::prelude::*;
use std::collections::BTreeMap;
use crate::media::Media;
use crate::text::{format_i64, push_str, signed_decimal_string};
use crate::tweet::Tweet;
use vstd::std_specs::btree::increasing_seq;
use vstd::std_specs::cmp::OrdSpec;
use vstd::std_specs::iter::IteratorSpec;
use vstd::string::StringSliceAdditionalSpecFns;

verus! {

broadcast use vstd::std_specs::btree::group_btree_axioms;

/// The length in bytes of `window.YTD.tweets.part0 = `, which precedes the
/// JSON list in the archive's `data/tweets.js`.
pub const TWEETS_JS_PREFIX_LEN: usize = 26;

/// The tweets of an unpacked Twitter archive, by id.
pub struct TwitterArchive {
    pub base_dir: String,
    pub tweets: BTreeMap<i64, Tweet>,
}

/// Why a lookup failed.
#[derive(Debug, PartialEq, Eq, Structural)]
pub enum ArchiveError {
    NotFound,
}

/// The tweets filed by id; a later tweet with the same id replaces an
/// earlier one.
pub open spec fn tweets_by_id(ts: Seq<Tweet>) -> Map<i64, Tweet>
    decreases ts.len(),
{
    if ts.len() == 0 {
        Map::empty()
    } else {
        tweets_by_id(ts.drop_last()).insert(ts.last().id_spec().unwrap(), ts.last())
    }
}

/// The ids in `ks` strictly increase.
pub open spec fn strictly_increasing(ks: Seq<i64>) -> bool {
    forall|i: int, j: int| 0 <= i < j < ks.len() ==> ks[i] < ks[j]
}

/// `ks` lists the keys of `m` in increasing order.
pub open spec fn sorted_keys_of(ks: Seq<i64>, m: Map<i64, Tweet>) -> bool {
    strictly_increasing(ks) && ks.to_set() == m.dom()
}

/// The tweet it replies to is still in `m`.
pub open spec fn parent_present(m: Map<i64, Tweet>, t: Tweet) -> bool {
    t.parent_id_spec() matches Some(p) ==> m.contains_key(p)
}

/// A tweet stays: its parent is present, it is no retweet and it does not
/// refer to a deleted tweet.
pub open spec fn keeps(m: Map<i64, Tweet>, t: Tweet) -> bool {
    parent_present(m, t) && !t.is_retweet_spec() && !t.references_deleted_tweet_spec()
}

/// One step of the pruning: the tweet under `k` goes unless its parent is
/// present and, with `postable`, it stays.
pub open spec fn prune_step(m: Map<i64, Tweet>, k: i64, postable: bool) -> Map<i64, Tweet> {
    if (if postable { keeps(m, m[k]) } else { parent_present(m, m[k]) }) {
        m
    } else {
        m.remove(k)
    }
}

/// The tweets of `m` that are left when the tweets under `ks` are looked at
/// in turn, each against the tweets left at that moment.
pub open spec fn prune(m: Map<i64, Tweet>, ks: Seq<i64>, postable: bool) -> Map<i64, Tweet>
    decreases ks.len(),
{
    if ks.len() == 0 {
        m
    } else {
        prune(prune_step(m, ks[0], postable), ks.skip(1), postable)
    }
}

/// Looking at the tweet under `k` reads its text only where the cheaper
/// checks let it stay so far, and reading the text needs every media entity
/// to be a photo.
pub open spec fn step_is_defined(m: Map<i64, Tweet>, k: i64) -> bool {
    (parent_present(m, m[k]) && !m[k].is_retweet_spec()) ==> m[k].entity_media_are_photos()
}

/// Every step of `prune(m, ks)` is defined.
pub open spec fn prune_is_defined(m: Map<i64, Tweet>, ks: Seq<i64>) -> bool
    decreases ks.len(),
{
    ks.len() == 0 || (step_is_defined(m, ks[0]) && prune_is_defined(prune_step(m, ks[0], true), ks.skip(1)))
}

/// The archive can be built from `ts`: every id can be read, and the
/// pruning reads the text of a tweet only where its media entities are photos.
pub open spec fn can_build_from(ts: Seq<Tweet>) -> bool {
    &&& forall|i: int| 0 <= i < ts.len() ==> (#[trigger] ts[i]).has_valid_ids()
    &&& forall|ks: Seq<i64>|
        sorted_keys_of(ks, tweets_by_id(ts)) ==> #[trigger] prune_is_defined(tweets_by_id(ts), ks)
}

/// What the archive holds of `ts`.
pub open spec fn archive_of(ts: Seq<Tweet>, m: Map<i64, Tweet>) -> bool {
    exists|ks: Seq<i64>| sorted_keys_of(ks, tweets_by_id(ts)) && m == prune(tweets_by_id(ts), ks, true)
}

/// What the listing of an archive file keeps of `ts`: filed by id, then,
/// looking at the ids in increasing order, without a tweet whose parent is
/// not (or no longer) there.
pub open spec fn threads_of(ts: Seq<Tweet>, m: Map<i64, Tweet>) -> bool {
    exists|ks: Seq<i64>| sorted_keys_of(ks, tweets_by_id(ts)) && m == prune(tweets_by_id(ts), ks, false)
}

/// The JSON list of `data/tweets.js`: what follows its fixed prefix.
pub fn tweets_js_payload(content: &str) -> (r: &str)
    requires
        content.spec_bytes().len() >= TWEETS_JS_PREFIX_LEN,
        vstd::utf8::is_char_boundary(content.spec_bytes(), TWEETS_JS_PREFIX_LEN as int),
    ensures
        r.spec_bytes() == content.spec_bytes().skip(TWEETS_JS_PREFIX_LEN as int),
{
    let (_, rest) = content.split_at(TWEETS_JS_PREFIX_LEN);
    assert(rest.spec_bytes() =~= content.spec_bytes().skip(TWEETS_JS_PREFIX_LEN as int));
    rest
}

pub proof fn lemma_tweets_by_id_valid(ts: Seq<Tweet>)
    requires
        forall|i: int| 0 <= i < ts.len() ==> (#[trigger] ts[i]).has_valid_ids(),
    ensures
        forall|k: i64| #[trigger] tweets_by_id(ts).contains_key(k) ==> tweets_by_id(ts)[k].has_valid_ids(),
    decreases ts.len(),
{
    if ts.len() > 0 {
        assert forall|i: int| 0 <= i < ts.drop_last().len() implies (#[trigger] ts.drop_last()[i]).has_valid_ids() by {
            assert(ts.drop_last()[i] == ts[i]);
        }
        lemma_tweets_by_id_valid(ts.drop_last());
        assert(ts.last() == ts[ts.len() - 1]);
        let prev = tweets_by_id(ts.drop_last());
        assert forall|k: i64| #[trigger] tweets_by_id(ts).contains_key(k) implies tweets_by_id(ts)[k].has_valid_ids() by {
            if k != ts.last().id_spec().unwrap() {
                assert(prev.contains_key(k));
            }
        }
    }
}

/// `i64` keys follow the order that `BTreeMap`'s specification assumes.
proof fn lemma_i64_keys_are_ordered()
    ensures
        vstd::std_specs::btree::key_obeys_cmp_spec::<i64>(),
{
    broadcast use vstd::laws_cmp::group_laws_cmp;
    broadcast use vstd::std_specs::btree::axiom_key_obeys_cmp_spec_meaning;
    assert(vstd::laws_cmp::obeys_cmp::<i64>());
}

/// The keys a walk of a `BTreeMap` hands out are its keys in increasing order.
proof fn lemma_sorted_entry_keys(
    map: &BTreeMap<i64, Tweet>,
    entries: Seq<(&i64, &Tweet)>,
    ks: Seq<i64>,
)
    requires
        entries == map.iter().remaining(),
        ks == entries.map_values(|kv: (&i64, &Tweet)| *kv.0),
        increasing_seq(ks),
    ensures
        sorted_keys_of(ks, map@),
{
    broadcast use vstd::laws_cmp::group_laws_cmp;
    broadcast use vstd::std_specs::btree::axiom_increasing_seq_meaning;
    broadcast use vstd::std_specs::btree::axiom_key_obeys_cmp_spec_meaning;
    assert(vstd::laws_cmp::obeys_cmp::<i64>());
    assert forall|i: int, j: int| 0 <= i < j < ks.len() implies ks[i] < ks[j] by {
        assert(ks[i].cmp_spec(&ks[j]) is Less);
    }
    assert forall|k: i64| #[trigger] ks.to_set().contains(k) <==> map@.contains_key(k) by {
        if ks.to_set().contains(k) {
            let i = ks.index_of(k);
            assert(map@.contains_key(*entries[i].0));
        }
        if map@.contains_key(k) {
            assert(entries.contains((&k, &map@[k])));
            let i = entries.index_of((&k, &map@[k]));
            assert(ks[i] == k);
        }
    }
    assert(ks.to_set() =~= map@.dom());
}

/// Files the tweets by id, a later tweet replacing an earlier one with the
/// same id, and lists the ids in increasing order.
fn file_by_id(tweets: Vec<Tweet>) -> (r: (BTreeMap<i64, Tweet>, Vec<i64>))
    requires
        forall|i: int| 0 <= i < tweets@.len() ==> (#[trigger] tweets@[i]).has_valid_ids(),
    ensures
        r.0@ == tweets_by_id(tweets@),
        sorted_keys_of(r.1@, r.0@),
{
    let ghost ts = tweets@;
    let mut map: BTreeMap<i64, Tweet> = BTreeMap::new();
    for tweet in it: tweets
        invariant
            it.seq() == ts,
            forall|i: int| 0 <= i < ts.len() ==> (#[trigger] ts[i]).has_valid_ids(),
            map@ == tweets_by_id(ts.take(it.index() as int)),
    {
        let ghost idx = it.index() as int;
        assert(ts.take(idx + 1).drop_last() =~= ts.take(idx));
        assert(ts[idx] == tweet);
        let id = tweet.id();
        map.insert(id, tweet);
    }
    assert(ts.take(ts.len() as int) =~= ts);
    let mut keys: Vec<i64> = Vec::new();
    let entries_iter = map.iter();
    let ghost entries = entries_iter.remaining();
    proof {
        lemma_i64_keys_are_ordered();
        assert(increasing_seq(entries.map_values(|kv: (&i64, &Tweet)| *kv.0)));
    }
    for entry in it: entries_iter
        invariant
            it.seq() == entries,
            keys@ == it.seq().take(it.index() as int).map_values(|kv: (&i64, &Tweet)| *kv.0),
    {
        let ghost idx = it.index() as int;
        assert(it.seq().take(idx + 1).map_values(|kv: (&i64, &Tweet)| *kv.0) =~= it.seq().take(idx).map_values(|kv: (&i64, &Tweet)| *kv.0).push(*entry.0));
        keys.push(*entry.0);
    }
    let ghost ks = keys@;
    proof {
        assert(entries.take(entries.len() as int) =~= entries);
        lemma_sorted_entry_keys(&map, entries, ks);
    }
    (map, keys)
}

impl TwitterArchive {
    /// The archive of the given tweets: filed by id, then, looking at the
    /// ids in increasing order, without a tweet whose parent is not (or no
    /// longer) in the archive, without retweets and without tweets that
    /// refer to deleted tweets.
    pub fn from_tweets(base_dir: String, tweets: Vec<Tweet>) -> (r: TwitterArchive)
        requires
            can_build_from(tweets@),
        ensures
            r.base_dir == base_dir,
            archive_of(tweets@, r.tweets@),
    {
        Self::try_from_tweets(base_dir, tweets).unwrap()
    }

    /// The archive of the given tweets as `from_tweets` builds it, or `None`
    /// where building it would read the text of a tweet that has a media
    /// entity other than a photo.
    pub fn try_from_tweets(base_dir: String, tweets: Vec<Tweet>) -> (r: Option<TwitterArchive>)
        requires
            forall|i: int| 0 <= i < tweets@.len() ==> (#[trigger] tweets@[i]).has_valid_ids(),
        ensures
            match r {
                Some(a) => a.base_dir == base_dir && archive_of(tweets@, a.tweets@),
                None => exists|ks: Seq<i64>|
                    sorted_keys_of(ks, tweets_by_id(tweets@)) && !prune_is_defined(tweets_by_id(tweets@), ks),
            },
    {
        let ghost ts = tweets@;
        let (mut map, keys) = file_by_id(tweets);
        let ghost m0 = map@;
        let ghost ks = keys@;
        proof {
            lemma_tweets_by_id_valid(ts);
        }
        let mut i: usize = 0;
        assert(ks.skip(0) =~= ks);
        while i < keys.len()
            invariant
                keys@ == ks,
                m0 == tweets_by_id(ts),
                ts == tweets@,
                sorted_keys_of(ks, m0),
                i <= ks.len(),
                prune(m0, ks, true) == prune(map@, ks.skip(i as int), true),
                prune_is_defined(m0, ks) == prune_is_defined(map@, ks.skip(i as int)),
                forall|j: int| i <= j < ks.len() ==> map@.contains_key(#[trigger] ks[j]),
                forall|k: i64| #[trigger] map@.contains_key(k) ==> map@[k].has_valid_ids(),
            decreases ks.len() - i,
        {
            let k = keys[i];
            let ghost before = map@;
            assert(ks.skip(i as int)[0] == k);
            assert(ks.skip(i as int).skip(1) =~= ks.skip(i + 1));
            let tweet = map.get(&k).unwrap();
            let mut remove = false;
            if let Some(parent_tweet_id) = tweet.parent_id() {
                if !map.contains_key(&parent_tweet_id) {
                    remove = true;
                }
            }
            if !remove && tweet.is_retweet() {
                remove = true;
            }
            if !remove && !tweet.has_only_photo_entities() {
                assert(!step_is_defined(before, k));
                assert(!prune_is_defined(map@, ks.skip(i as int)));
                assert(sorted_keys_of(ks, m0) && !prune_is_defined(m0, ks));
                return None;
            }
            if !remove && tweet.references_deleted_tweet() {
                remove = true;
            }
            assert(remove == !keeps(before, before[k]));
            if remove {
                map.remove(&k);
            }
            assert(map@ == prune_step(before, k, true));
            i = i + 1;
            assert forall|j: int| i <= j < ks.len() implies map@.contains_key(#[trigger] ks[j]) by {
                assert(ks[j] != k);
            }
        }
        assert(ks.skip(i as int) =~= Seq::<i64>::empty());
        Some(TwitterArchive { base_dir, tweets: map })
    }

    /// Where a media file of the tweet with id `tweet_id` lies:
    /// `{base_dir}/data/tweets_media/{tweet_id}-{file name}`.
    pub fn media_path(&self, tweet_id: i64, media: &Media) -> (r: String)
        requires
            media.file_name_spec() is Some,
        ensures
            r@ == self.base_dir@ + "/data/tweets_media/"@ + signed_decimal_string(tweet_id as int)
                + seq!['-'] + media.file_name_spec().unwrap(),
    {
        let mut prefix = String::new();
        push_str(&mut prefix, self.base_dir.as_str());
        push_str(&mut prefix, "/data/tweets_media/");
        let id_text = format_i64(tweet_id);
        push_str(&mut prefix, id_text.as_str());
        media.archive_file_name(prefix.as_str())
    }

    /// The tweet with the given id.
    pub fn get_tweet(&self, id: i64) -> (r: Result<&Tweet, ArchiveError>)
        ensures
            match r {
                Ok(t) => self.tweets@.contains_key(id) && *t == self.tweets@[id],
                Err(e) => !self.tweets@.contains_key(id) && e == ArchiveError::NotFound,
            },
    {
        match self.tweets.get(&id) {
            Some(t) => Ok(t),
            None => Err(ArchiveError::NotFound),
        }
    }
}

/// The tweets filed by id as the listing of an archive file threads them:
/// looking at the ids in increasing order, a tweet whose parent is not (or
/// no longer) there is dropped. Ids are taken to grow with time from above
/// zero: where the least id is not above zero, `Err` gives it.
pub fn threaded_tweets(tweets: Vec<Tweet>) -> (r: Result<BTreeMap<i64, Tweet>, i64>)
    requires
        forall|i: int| 0 <= i < tweets@.len() ==> (#[trigger] tweets@[i]).has_valid_ids(),
    ensures
        match r {
            Ok(m) => threads_of(tweets@, m@) && forall|k: i64|
                #[trigger] tweets_by_id(tweets@).contains_key(k) ==> k > 0,
            Err(id) => {
                &&& tweets_by_id(tweets@).contains_key(id)
                &&& id <= 0
                &&& forall|k: i64| #[trigger] tweets_by_id(tweets@).contains_key(k) ==> id <= k
            },
        },
{
    let ghost ts = tweets@;
    let (mut map, keys) = file_by_id(tweets);
    let ghost m0 = map@;
    let ghost ks = keys@;
    proof {
        lemma_tweets_by_id_valid(ts);
    }
    assert forall|k: i64| #[trigger] m0.contains_key(k) implies ks[0] <= k by {
        assert(ks.to_set().contains(k));
        let j = ks.index_of(k);
        assert(ks[j] == k);
        assert(j == 0 || ks[0] < ks[j]);
    }
    if keys.len() > 0 && keys[0] <= 0 {
        assert(ks.to_set().contains(ks[0]));
        return Err(keys[0]);
    }
    assert forall|k: i64| #[trigger] m0.contains_key(k) implies k > 0 by {
        assert(ks.to_set().contains(k));
    }
    let mut i: usize = 0;
    assert(ks.skip(0) =~= ks);
    while i < keys.len()
        invariant
            keys@ == ks,
            m0 == tweets_by_id(ts),
            sorted_keys_of(ks, m0),
            i <= ks.len(),
            prune(m0, ks, false) == prune(map@, ks.skip(i as int), false),
            forall|j: int| i <= j < ks.len() ==> map@.contains_key(#[trigger] ks[j]),
            forall|k: i64| #[trigger] map@.contains_key(k) ==> map@[k].has_valid_ids(),
        decreases ks.len() - i,
    {
        let k = keys[i];
        let ghost before = map@;
        assert(ks.skip(i as int)[0] == k);
        assert(ks.skip(i as int).skip(1) =~= ks.skip(i + 1));
        let tweet = map.get(&k).unwrap();
        let mut remove = false;
        if let Some(parent_tweet_id) = tweet.parent_id() {
            if !map.contains_key(&parent_tweet_id) {
                remove = true;
            }
        }
        assert(remove == !parent_present(before, before[k]));
        if remove {
            map.remove(&k);
        }
        assert(map@ == prune_step(before, k, false));
        i = i + 1;
        assert forall|j: int| i <= j < ks.len() implies map@.contains_key(#[trigger] ks[j]) by {
            assert(ks[j] != k);
        }
    }
    assert(ks.skip(i as int) =~= Seq::<i64>::empty());
    Ok(map)
}

/// Filing by id keeps, for each id, the last tweet with that id, and files
/// every tweet of the list.
pub proof fn lemma_tweets_by_id(ts: Seq<Tweet>)
    requires
        forall|i: int| 0 <= i < ts.len() ==> (#[trigger] ts[i]).has_valid_ids(),
    ensures
        forall|i: int| 0 <= i < ts.len() ==> tweets_by_id(ts).contains_key(#[trigger] ts[i].id_spec().unwrap()),
        forall|k: i64|
            #[trigger] tweets_by_id(ts).contains_key(k) ==> {
                &&& tweets_by_id(ts)[k].id_spec() == Some(k)
                &&& exists|i: int|
                    0 <= i < ts.len() && ts[i] == tweets_by_id(ts)[k] && forall|j: int|
                        i < j < ts.len() ==> (#[trigger] ts[j]).id_spec() != Some(k)
            },
    decreases ts.len(),
{
    if ts.len() > 0 {
        let prefix = ts.drop_last();
        assert forall|i: int| 0 <= i < prefix.len() implies (#[trigger] prefix[i]).has_valid_ids() by {
            assert(prefix[i] == ts[i]);
        }
        lemma_tweets_by_id(prefix);
        let last = ts.last();
        assert(last == ts[ts.len() - 1]);
        assert(last.has_valid_ids());
        let prev = tweets_by_id(prefix);
        assert forall|i: int| 0 <= i < ts.len() implies tweets_by_id(ts).contains_key(#[trigger] ts[i].id_spec().unwrap()) by {
            if i < ts.len() - 1 {
                assert(prefix[i] == ts[i]);
            }
        }
        assert forall|k: i64| #[trigger] tweets_by_id(ts).contains_key(k) implies {
            &&& tweets_by_id(ts)[k].id_spec() == Some(k)
            &&& exists|i: int|
                0 <= i < ts.len() && ts[i] == tweets_by_id(ts)[k] && forall|j: int|
                    i < j < ts.len() ==> (#[trigger] ts[j]).id_spec() != Some(k)
        } by {
            if k == last.id_spec().unwrap() {
                let i = ts.len() - 1;
                assert(ts[i] == tweets_by_id(ts)[k]);
            } else {
                assert(prev.contains_key(k));
                let i = choose|i: int|
                    0 <= i < prefix.len() && prefix[i] == prev[k] && forall|j: int|
                        i < j < prefix.len() ==> (#[trigger] prefix[j]).id_spec() != Some(k);
                assert(ts[i] == prefix[i]);
                assert forall|j: int| i < j < ts.len() implies (#[trigger] ts[j]).id_spec() != Some(k) by {
                    if j < ts.len() - 1 {
                        assert(prefix[j] == ts[j]);
                    }
                }
            }
        }
    }
}

/// What the pruning keeps and drops, whatever the order of the keys.
proof fn lemma_prune_facts(m: Map<i64, Tweet>, ks: Seq<i64>)
    requires
        strictly_increasing(ks),
    ensures
        forall|k: i64| #[trigger] prune(m, ks, true).contains_key(k) ==> m.contains_key(k) && prune(m, ks, true)[k] == m[k],
        forall|k: i64| m.contains_key(k) && !ks.contains(k) ==> #[trigger] prune(m, ks, true).contains_key(k),
        forall|i: int|
            0 <= i < ks.len() && #[trigger] prune(m, ks, true).contains_key(ks[i]) ==> !m[ks[i]].is_retweet_spec()
                && !m[ks[i]].references_deleted_tweet_spec(),
        forall|i: int|
            0 <= i < ks.len() && m.contains_key(ks[i]) && parent_present(prune(m, ks, true), m[ks[i]])
                && !m[ks[i]].is_retweet_spec() && !m[ks[i]].references_deleted_tweet_spec()
                ==> #[trigger] prune(m, ks, true).contains_key(ks[i]),
    decreases ks.len(),
{
    if ks.len() > 0 {
        let k0 = ks[0];
        let m1 = prune_step(m, k0, true);
        let rest = ks.skip(1);
        assert(strictly_increasing(rest));
        lemma_prune_facts(m1, rest);
        let r = prune(m, ks, true);
        assert(r == prune(m1, rest, true));
        assert forall|k: i64| #[trigger] r.contains_key(k) implies m.contains_key(k) && r[k] == m[k] by {
            assert(m1.contains_key(k));
        }
        assert forall|k: i64| m.contains_key(k) && !ks.contains(k) implies #[trigger] r.contains_key(k) by {
            assert(k != k0) by {
                assert(ks[0] == k0);
            }
            if rest.contains(k) {
                let j = choose|j: int| 0 <= j < rest.len() && rest[j] == k;
                assert(ks[j + 1] == k);
            }
            assert(m1.contains_key(k));
        }
        assert(!rest.contains(k0)) by {
            if rest.contains(k0) {
                let j = choose|j: int| 0 <= j < rest.len() && rest[j] == k0;
                assert(ks[j + 1] == k0);
            }
        }
        assert forall|i: int|
            0 <= i < ks.len() && #[trigger] r.contains_key(ks[i]) implies !m[ks[i]].is_retweet_spec()
                && !m[ks[i]].references_deleted_tweet_spec() by {
            if i == 0 {
                assert(m1.contains_key(k0));
            } else {
                assert(rest[i - 1] == ks[i]);
                assert(ks[i] != k0);
                assert(m1.contains_key(ks[i]));
            }
        }
        assert forall|i: int|
            0 <= i < ks.len() && m.contains_key(ks[i]) && parent_present(r, m[ks[i]])
                && !m[ks[i]].is_retweet_spec() && !m[ks[i]].references_deleted_tweet_spec()
                implies #[trigger] r.contains_key(ks[i]) by {
            if i == 0 {
                if let Some(p) = m[k0].parent_id_spec() {
                    assert(r.contains_key(p));
                    assert(m1.contains_key(p));
                }
                assert(keeps(m, m[k0]));
                assert(m1.contains_key(k0));
            } else {
                assert(rest[i - 1] == ks[i]);
                assert(ks[i] != k0);
                assert(m1.contains_key(ks[i]) && m1[ks[i]] == m[ks[i]]);
            }
        }
    }
}

/// The tweets already looked at that are still present lie below every
/// tweet still to look at, and their parents of lower id are present.
pub open spec fn closed_below(m: Map<i64, Tweet>, ks: Seq<i64>) -> bool {
    &&& forall|k: i64, i: int|
        #[trigger] m.contains_key(k) && !ks.contains(k) && 0 <= i < ks.len() ==> k < #[trigger] ks[i]
    &&& forall|k: i64|
        #[trigger] m.contains_key(k) && !ks.contains(k) && (m[k].parent_id_spec() matches Some(p)
            && p < k) ==> m.contains_key(m[k].parent_id_spec().unwrap())
}

proof fn lemma_prune_closed(m: Map<i64, Tweet>, ks: Seq<i64>, postable: bool)
    requires
        strictly_increasing(ks),
        closed_below(m, ks),
    ensures
        forall|k: i64|
            #[trigger] prune(m, ks, postable).contains_key(k) && (prune(m, ks, postable)[k].parent_id_spec() matches Some(p) && p < k)
                ==> prune(m, ks, postable).contains_key(prune(m, ks, postable)[k].parent_id_spec().unwrap()),
    decreases ks.len(),
{
    if ks.len() > 0 {
        let k0 = ks[0];
        let m1 = prune_step(m, k0, postable);
        let rest = ks.skip(1);
        assert(strictly_increasing(rest));
        assert forall|k: i64| rest.contains(k) implies ks.contains(k) && k != k0 by {
            let j = choose|j: int| 0 <= j < rest.len() && rest[j] == k;
            assert(ks[j + 1] == k);
        }
        assert forall|k: i64, i: int|
            #[trigger] m1.contains_key(k) && !rest.contains(k) && 0 <= i < rest.len() implies k < #[trigger] rest[i] by {
            assert(rest[i] == ks[i + 1]);
            if k == k0 {
            } else {
                if ks.contains(k) {
                    let j = choose|j: int| 0 <= j < ks.len() && ks[j] == k;
                    if j > 0 {
                        assert(rest[j - 1] == k);
                    }
                }
                assert(!ks.contains(k));
                assert(k < ks[0]);
            }
        }
        assert forall|k: i64|
            #[trigger] m1.contains_key(k) && !rest.contains(k) && (m1[k].parent_id_spec() matches Some(p)
                && p < k) implies m1.contains_key(m1[k].parent_id_spec().unwrap()) by {
            let p = m1[k].parent_id_spec().unwrap();
            if k == k0 {
                assert(parent_present(m, m[k0]));
                assert(m.contains_key(p));
                assert(p != k0);
            } else {
                if ks.contains(k) {
                    let j = choose|j: int| 0 <= j < ks.len() && ks[j] == k;
                    if j > 0 {
                        assert(rest[j - 1] == k);
                    }
                }
                assert(!ks.contains(k));
                assert(k < ks[0]);
                assert(m.contains_key(p));
                assert(p != k0);
            }
        }
        lemma_prune_closed(m1, rest, postable);
    }
}

/// Every tweet of the archive is the last tweet of the list with its id,
/// filed under that id, and it is neither a retweet nor a tweet that refers
/// to a deleted tweet; every tweet of the list that is the last with its
/// id, is no retweet, refers to no deleted tweet and replies to nothing or
/// to a tweet of the archive is in the archive.
pub proof fn lemma_archive_holds_postable_tweets(ts: Seq<Tweet>, m: Map<i64, Tweet>)
    requires
        forall|i: int| 0 <= i < ts.len() ==> (#[trigger] ts[i]).has_valid_ids(),
        archive_of(ts, m),
    ensures
        forall|k: i64|
            #[trigger] m.contains_key(k) ==> {
                &&& m[k].id_spec() == Some(k)
                &&& exists|i: int|
                    0 <= i < ts.len() && ts[i] == m[k] && forall|j: int|
                        i < j < ts.len() ==> (#[trigger] ts[j]).id_spec() != Some(k)
                &&& !m[k].is_retweet_spec()
                &&& !m[k].references_deleted_tweet_spec()
            },
        forall|i: int|
            0 <= i < ts.len() && tweets_by_id(ts)[ts[i].id_spec().unwrap()] == ts[i]
                && parent_present(m, ts[i]) && !ts[i].is_retweet_spec()
                && !ts[i].references_deleted_tweet_spec()
                ==> #[trigger] m.contains_key(ts[i].id_spec().unwrap()),
{
    let ks = choose|ks: Seq<i64>| sorted_keys_of(ks, tweets_by_id(ts)) && m == prune(tweets_by_id(ts), ks, true);
    let m0 = tweets_by_id(ts);
    lemma_tweets_by_id(ts);
    lemma_prune_facts(m0, ks);
    assert forall|k: i64| #[trigger] m.contains_key(k) implies {
        &&& m[k].id_spec() == Some(k)
        &&& exists|i: int|
            0 <= i < ts.len() && ts[i] == m[k] && forall|j: int|
                i < j < ts.len() ==> (#[trigger] ts[j]).id_spec() != Some(k)
        &&& !m[k].is_retweet_spec()
        &&& !m[k].references_deleted_tweet_spec()
    } by {
        assert(m0.contains_key(k));
        assert(m[k] == m0[k]);
        assert(ks.to_set().contains(k));
        let i = ks.index_of(k);
        assert(m.contains_key(ks[i]));
    }
    assert forall|i: int|
        0 <= i < ts.len() && tweets_by_id(ts)[ts[i].id_spec().unwrap()] == ts[i]
            && parent_present(m, ts[i]) && !ts[i].is_retweet_spec()
            && !ts[i].references_deleted_tweet_spec()
            implies #[trigger] m.contains_key(ts[i].id_spec().unwrap()) by {
        let k = ts[i].id_spec().unwrap();
        assert(m0.contains_key(k));
        assert(ks.to_set().contains(k));
        let j = ks.index_of(k);
        assert(ks[j] == k);
        assert(m0[ks[j]] == ts[i]);
    }
}

/// Tweet ids grow with time, so a reply has a higher id than the tweet it
/// answers: every tweet of the archive that replies to a tweet of lower id
/// is there with that tweet, and so a thread in the archive can always be
/// followed back to its start.
pub proof fn lemma_archive_threads_are_complete(ts: Seq<Tweet>, m: Map<i64, Tweet>)
    requires
        forall|i: int| 0 <= i < ts.len() ==> (#[trigger] ts[i]).has_valid_ids(),
        archive_of(ts, m),
    ensures
        forall|k: i64|
            #[trigger] m.contains_key(k) && (m[k].parent_id_spec() matches Some(p) && p < k)
                ==> m.contains_key(m[k].parent_id_spec().unwrap()),
{
    let ks = choose|ks: Seq<i64>| sorted_keys_of(ks, tweets_by_id(ts)) && m == prune(tweets_by_id(ts), ks, true);
    let m0 = tweets_by_id(ts);
    assert forall|k: i64| m0.contains_key(k) implies ks.contains(k) by {
        assert(ks.to_set().contains(k));
    }
    lemma_prune_closed(m0, ks, true);
}


/// A reply that the listing of an archive file keeps, to a tweet of lower
/// id, is kept with that tweet: its thread can be followed back to its start.
pub proof fn lemma_listing_threads_are_complete(ts: Seq<Tweet>, m: Map<i64, Tweet>)
    requires
        forall|i: int| 0 <= i < ts.len() ==> (#[trigger] ts[i]).has_valid_ids(),
        threads_of(ts, m),
    ensures
        forall|k: i64|
            #[trigger] m.contains_key(k) && (m[k].parent_id_spec() matches Some(p) && p < k)
                ==> m.contains_key(m[k].parent_id_spec().unwrap()),
{
    let ks = choose|ks: Seq<i64>| sorted_keys_of(ks, tweets_by_id(ts)) && m == prune(tweets_by_id(ts), ks, false);
    let m0 = tweets_by_id(ts);
    assert forall|k: i64| m0.contains_key(k) implies ks.contains(k) by {
        assert(ks.to_set().contains(k));
    }
    lemma_prune_closed(m0, ks, false);
}

} // verus!
