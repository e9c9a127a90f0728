//! A tweet of the archive and what becomes of it on Mastodon.
use vstd::prelude::*;
use crate::media::Media;
use crate::sql::{InsertSql, Status};
use crate::text::{
    chars_of, contains, format_i64, is_prefix, occurs_at, lemma_parse_i64_of_decimal, occurs_in, parse_i64,
    parse_i64_spec, push_char, push_str, replace, replace_all, signed_decimal_string, starts_with,
};
use crate::time::Timestamp;
use crate::{Entities, ExtendedEntities, Url, UserMention};

verus! {

/// A tweet, as the archive's `tweets.js` holds it.
#[derive(Clone, Debug)]
pub struct Tweet {
    pub id_str: String,
    pub in_reply_to_status_id_str: Option<String>,
    pub in_reply_to_screen_name: Option<String>,
    pub entities: Entities,
    pub display_text_range: [String; 2],
    pub favorite_count: String,
    pub favorited: bool,
    pub retweet_count: String,
    pub retweeted: bool,
    pub truncated: bool,
    pub possibly_sensitive: bool,
    pub created_at: Timestamp,
    pub full_text: String,
    pub extended_entities: Option<ExtendedEntities>,
}

/// What the listing of an archive file does with a tweet.
#[derive(Debug, PartialEq, Eq, Structural, Clone, Copy)]
pub enum ListingAction {
    /// Not shown: a retweet, or a tweet that refers to a deleted tweet.
    Skip,
    /// Shown.
    Show,
    /// Shown, and the listing ends there: the tweet's media list is empty.
    ShowAndStop,
}

/// What becomes of the media of a tweet that is inserted over a status.
#[derive(Debug, PartialEq, Eq)]
pub enum MediaPlan {
    /// The media files are uploaded anew.
    Upload,
    /// The status keeps the media it has, by id.
    Reuse(Vec<i64>),
}

/// The Mastodon account the statuses are posted as.
pub const ACCOUNT_ID: u64 = 109399109809644293;

/// `text` with each URL of `urls`, in order, replaced by what it expands to.
pub open spec fn urls_replaced(text: Seq<char>, urls: Seq<Url>) -> Seq<char>
    decreases urls.len(),
{
    if urls.len() == 0 {
        text
    } else {
        replace_all(urls_replaced(text, urls.drop_last()), urls.last().url@, urls.last().expanded_url@)
    }
}

/// `@name`.
pub open spec fn mention_pattern(m: UserMention) -> Seq<char> {
    seq!['@'] + m.screen_name@
}

/// `@name@twitter.com`.
pub open spec fn mention_replacement(m: UserMention) -> Seq<char> {
    seq!['@'] + m.screen_name@ + "@twitter.com"@
}

/// `text` with each mention of `mentions`, in order, made a mention of the
/// Twitter account from Mastodon.
pub open spec fn mentions_replaced(text: Seq<char>, mentions: Seq<UserMention>) -> Seq<char>
    decreases mentions.len(),
{
    if mentions.len() == 0 {
        text
    } else {
        replace_all(
            mentions_replaced(text, mentions.drop_last()),
            mention_pattern(mentions.last()),
            mention_replacement(mentions.last()),
        )
    }
}

/// What is cut from the text for a photo: its URL, with the space before it
/// unless the photo starts the text.
pub open spec fn media_cut_pattern(m: Media) -> Seq<char> {
    match m {
        Media::Photo(p) => match p.indices {
            Some(ix) => if ix[0]@ == seq!['0'] {
                p.url@
            } else {
                seq![' '] + p.url@
            },
            None => seq![' '] + p.url@,
        },
        _ => seq![],
    }
}

/// `text` with the URL of each photo of `media`, in order, cut out.
pub open spec fn media_cut(text: Seq<char>, media: Seq<Media>) -> Seq<char>
    decreases media.len(),
{
    if media.len() == 0 {
        text
    } else {
        replace_all(media_cut(text, media.drop_last()), media_cut_pattern(media.last()), seq![])
    }
}

/// `RT @name:`, the start of a retweet of `name`.
pub open spec fn retweet_marker(m: UserMention) -> Seq<char> {
    "RT @"@ + m.screen_name@ + seq![':']
}

/// The URI of the status with the given id.
pub open spec fn status_uri_of(id: i64) -> Seq<char> {
    "https://twitter.com/bencord0/status/"@ + signed_decimal_string(id as int)
}

/// `  {type}| {prefix}-{file name}\n` for each of `media`.
pub open spec fn media_display_lines(media: Seq<Media>, prefix: Seq<char>) -> Seq<char>
    decreases media.len(),
{
    if media.len() == 0 {
        seq![]
    } else {
        media_display_lines(media.drop_last(), prefix) + "  "@ + media.last().media_type_spec()
            + "| "@ + prefix + seq!['-'] + media.last().file_name_spec().unwrap() + seq!['\n']
    }
}

impl Tweet {
    /// The id of the tweet, where `id_str` holds one.
    pub open spec fn id_spec(&self) -> Option<i64> {
        parse_i64_spec(self.id_str@)
    }

    pub open spec fn has_valid_id(&self) -> bool {
        self.id_spec() is Some
    }

    pub open spec fn has_valid_parent_id(&self) -> bool {
        match self.in_reply_to_status_id_str {
            Some(s) => parse_i64_spec(s@) is Some,
            None => true,
        }
    }

    /// Both ids of the tweet can be read.
    pub open spec fn has_valid_ids(&self) -> bool {
        self.has_valid_id() && self.has_valid_parent_id()
    }

    /// The id of the tweet it replies to.
    pub open spec fn parent_id_spec(&self) -> Option<i64> {
        match self.in_reply_to_status_id_str {
            Some(s) => Some(parse_i64_spec(s@).unwrap()),
            None => None,
        }
    }

    /// Every media entity of the text is a photo.
    pub open spec fn entity_media_are_photos(&self) -> bool {
        forall|i: int| 0 <= i < self.entities.media@.len() ==> #[trigger] self.entities.media@[i] is Photo
    }

    /// The text to post on Mastodon.
    pub open spec fn replaced_text_spec(&self) -> Seq<char> {
        media_cut(
            mentions_replaced(
                urls_replaced(self.full_text@, self.entities.urls@),
                self.entities.user_mentions@,
            ),
            self.entities.media@,
        )
    }

    /// The text starts with `RT @name:` for one of the mentioned accounts.
    pub open spec fn is_retweet_spec(&self) -> bool {
        exists|i: int|
            0 <= i < self.entities.user_mentions@.len() && is_prefix(
                retweet_marker(#[trigger] self.entities.user_mentions@[i]),
                self.full_text@,
            )
    }

    /// A `t.co` link is left in the text once the known links are expanded:
    /// it points to a tweet that is gone.
    pub open spec fn references_deleted_tweet_spec(&self) -> bool {
        occurs_in(self.replaced_text_spec(), "https://t.co/"@)
    }

    /// The media of the tweet, with their true types.
    pub open spec fn media_spec(&self) -> Seq<Media> {
        match self.extended_entities {
            Some(e) => e.media@,
            None => seq![],
        }
    }

    /// The id of the tweet.
    pub fn id(&self) -> (r: i64)
        requires
            self.has_valid_id(),
        ensures
            self.id_spec() == Some(r),
    {
        parse_i64(self.id_str.as_str()).unwrap()
    }

    /// The id of the tweet it replies to.
    pub fn parent_id(&self) -> (r: Option<i64>)
        requires
            self.has_valid_parent_id(),
        ensures
            r == self.parent_id_spec(),
    {
        match &self.in_reply_to_status_id_str {
            Some(id) => Some(parse_i64(id.as_str()).unwrap()),
            None => None,
        }
    }

    /// The text to post: links expanded, mentions pointed at Twitter, the
    /// links of photos cut out.
    pub fn replaced_text(&self) -> (r: String)
        requires
            self.entity_media_are_photos(),
        ensures
            r@ == self.replaced_text_spec(),
    {
        let mut text = self.full_text.clone();
        let urls = &self.entities.urls;
        let mut i: usize = 0;
        assert(urls@.take(0) =~= Seq::<Url>::empty());
        while i < urls.len()
            invariant
                i <= urls.len(),
                text@ == urls_replaced(self.full_text@, urls@.take(i as int)),
            decreases urls.len() - i,
        {
            assert(urls@.take(i + 1).drop_last() =~= urls@.take(i as int));
            text = replace(text.as_str(), urls[i].url.as_str(), urls[i].expanded_url.as_str());
            i = i + 1;
        }
        assert(urls@.take(i as int) =~= urls@);
        let ghost after_urls = text@;
        let mentions = &self.entities.user_mentions;
        let mut i: usize = 0;
        assert(mentions@.take(0) =~= Seq::<UserMention>::empty());
        while i < mentions.len()
            invariant
                i <= mentions.len(),
                text@ == mentions_replaced(after_urls, mentions@.take(i as int)),
            decreases mentions.len() - i,
        {
            assert(mentions@.take(i + 1).drop_last() =~= mentions@.take(i as int));
            let screen_name = mentions[i].screen_name.as_str();
            let mut pattern = String::new();
            push_char(&mut pattern, '@');
            push_str(&mut pattern, screen_name);
            let mut replacement = String::new();
            push_char(&mut replacement, '@');
            push_str(&mut replacement, screen_name);
            push_str(&mut replacement, "@twitter.com");
            assert(pattern@ =~= mention_pattern(mentions@[i as int]));
            assert(replacement@ =~= mention_replacement(mentions@[i as int]));
            text = replace(text.as_str(), pattern.as_str(), replacement.as_str());
            i = i + 1;
        }
        assert(mentions@.take(i as int) =~= mentions@);
        let ghost after_mentions = text@;
        let media = &self.entities.media;
        let mut i: usize = 0;
        assert(media@.take(0) =~= Seq::<Media>::empty());
        while i < media.len()
            invariant
                i <= media.len(),
                media@ == self.entities.media@,
                self.entity_media_are_photos(),
                text@ == media_cut(after_mentions, media@.take(i as int)),
            decreases media.len() - i,
        {
            assert(media@.take(i + 1).drop_last() =~= media@.take(i as int));
            assert(media@[i as int] is Photo);
            let url = match &media[i] {
                Media::Photo(photo) => {
                    let starts_text = match &photo.indices {
                        Some(ix) => {
                            let first = chars_of(ix[0].as_str());
                            let is_zero = first.len() == 1 && first[0] == '0';
                            assert(is_zero == (ix[0]@ == seq!['0'])) by {
                                if first.len() == 1 && first[0] == '0' {
                                    assert(first@ =~= seq!['0']);
                                }
                            }
                            is_zero
                        },
                        None => false,
                    };
                    if starts_text {
                        photo.url.clone()
                    } else {
                        let mut u = String::new();
                        push_char(&mut u, ' ');
                        push_str(&mut u, photo.url.as_str());
                        u
                    }
                },
                _ => {
                    assert(false);
                    String::new()
                },
            };
            assert(url@ =~= media_cut_pattern(media@[i as int]));
            text = replace(text.as_str(), url.as_str(), "");
            proof {
                reveal_strlit("");
            }
            assert(""@ =~= Seq::<char>::empty());
            i = i + 1;
        }
        assert(media@.take(i as int) =~= media@);
        text
    }

    /// The media of the tweet, with their true types.
    pub fn media(&self) -> (r: Vec<Media>)
        ensures
            r@.len() == self.media_spec().len(),
            forall|i: int| 0 <= i < r@.len() ==> (#[trigger] r@[i]).same(&self.media_spec()[i]),
    {
        match &self.extended_entities {
            Some(entities) => entities.media.clone(),
            None => Vec::new(),
        }
    }

    /// Every media entity of the text is a photo.
    pub fn has_only_photo_entities(&self) -> (r: bool)
        ensures
            r == self.entity_media_are_photos(),
    {
        let media = &self.entities.media;
        let mut i: usize = 0;
        while i < media.len()
            invariant
                i <= media.len(),
                media@ == self.entities.media@,
                forall|k: int| 0 <= k < i ==> #[trigger] media@[k] is Photo,
            decreases media.len() - i,
        {
            if let Media::Photo(_) = &media[i] {
            } else {
                return false;
            }
            i = i + 1;
        }
        true
    }

    /// The tweet retweets one of the accounts it mentions.
    pub fn is_retweet(&self) -> (r: bool)
        ensures
            r == self.is_retweet_spec(),
    {
        let mentions = &self.entities.user_mentions;
        let mut i: usize = 0;
        while i < mentions.len()
            invariant
                i <= mentions.len(),
                mentions@ == self.entities.user_mentions@,
                forall|k: int|
                    0 <= k < i ==> !is_prefix(
                        retweet_marker(#[trigger] mentions@[k]),
                        self.full_text@,
                    ),
            decreases mentions.len() - i,
        {
            let mut marker = String::new();
            push_str(&mut marker, "RT @");
            push_str(&mut marker, mentions[i].screen_name.as_str());
            push_char(&mut marker, ':');
            assert(marker@ =~= retweet_marker(mentions@[i as int]));
            if starts_with(self.full_text.as_str(), marker.as_str()) {
                return true;
            }
            i = i + 1;
        }
        false
    }

    /// The text refers to a tweet that is gone.
    pub fn references_deleted_tweet(&self) -> (r: bool)
        requires
            self.entity_media_are_photos(),
        ensures
            r == self.references_deleted_tweet_spec(),
    {
        let text = self.replaced_text();
        contains(text.as_str(), "https://t.co/")
    }

    /// `sql` is the statement that inserts this tweet as a status.
    pub open spec fn is_insert_sql(&self, sql: InsertSql) -> bool {
        &&& sql.status_id == self.id_spec().unwrap() as u64
        &&& sql.account_id == ACCOUNT_ID
        &&& sql.text@ == self.replaced_text_spec()
        &&& sql.timestamp == self.created_at
        &&& sql.media_attachment_ids@ == Seq::<u64>::empty()
        &&& sql.in_reply_to_id == match self.parent_id_spec() {
            Some(p) => Some(p as u64),
            None => None::<u64>,
        }
    }

    /// The statement that inserts the tweet as a status.
    pub fn insert_sql(&self) -> (r: InsertSql)
        requires
            self.has_valid_ids(),
            self.entity_media_are_photos(),
        ensures
            self.is_insert_sql(r),
    {
        let mut sql = InsertSql::default().status_id(self.id() as u64).account_id(ACCOUNT_ID).text(
            self.replaced_text(),
        ).timestamp(self.created_at);
        if let Some(in_reply_to_id) = self.parent_id() {
            sql = sql.in_reply_to_id(in_reply_to_id as u64);
        }
        sql
    }

    /// What comparing the tweet with a status reads of the tweet, in the
    /// order the comparison reads it: the id always, the text once ids and
    /// URIs agree, the parent once text and times agree too.
    pub open spec fn can_compare_with(&self, other: &Status) -> bool {
        &&& self.has_valid_id()
        &&& (self.id_spec().unwrap() == other.id && status_uri_of(self.id_spec().unwrap())
            == other.uri@) ==> self.entity_media_are_photos()
        &&& (self.id_spec().unwrap() == other.id && status_uri_of(self.id_spec().unwrap())
            == other.uri@ && self.replaced_text_spec() == other.text@ && self.created_at
            == other.created_at && self.created_at == other.updated_at)
            ==> self.has_valid_parent_id()
    }

    /// The status is this tweet as it was inserted.
    pub open spec fn matches_status_spec(&self, other: &Status) -> bool {
        &&& self.id_spec().unwrap() == other.id
        &&& status_uri_of(self.id_spec().unwrap()) == other.uri@
        &&& self.replaced_text_spec() == other.text@
        &&& self.created_at == other.created_at
        &&& self.created_at == other.updated_at
        &&& self.parent_id_spec() == other.in_reply_to_id
        &&& self.media_spec().len() == other.media_count_spec()
    }

    /// The status is this tweet as it was inserted (`&Tweet == Status`).
    pub fn matches_status(&self, other: &Status) -> (r: bool)
        requires
            self.can_compare_with(other),
        ensures
            r == self.matches_status_spec(other),
    {
        let tweet_id: i64 = self.id();
        let mut uri = String::new();
        push_str(&mut uri, "https://twitter.com/bencord0/status/");
        let id_text = format_i64(tweet_id);
        push_str(&mut uri, id_text.as_str());
        tweet_id == other.id && uri == other.uri && self.replaced_text() == other.text
            && self.created_at == other.created_at && self.created_at == other.updated_at
            && self.parent_id() == other.in_reply_to_id && self.media().len()
            == other.media_count()
    }

    /// What the listing of an archive file does with the tweet.
    pub open spec fn listing_action_spec(&self) -> ListingAction {
        if self.is_retweet_spec() || self.references_deleted_tweet_spec() {
            ListingAction::Skip
        } else if self.extended_entities matches Some(e) && e.media@.len() == 0 {
            ListingAction::ShowAndStop
        } else {
            ListingAction::Show
        }
    }

    /// What the listing of an archive file does with the tweet: a retweet
    /// or a tweet that refers to a deleted tweet is skipped; the listing
    /// ends after a tweet with an empty media list.
    pub fn listing_action(&self) -> (r: ListingAction)
        requires
            self.is_retweet_spec() || self.entity_media_are_photos(),
        ensures
            r == self.listing_action_spec(),
    {
        if self.is_retweet() || self.references_deleted_tweet() {
            return ListingAction::Skip;
        }
        match &self.extended_entities {
            Some(e) => if e.media.len() == 0 {
                ListingAction::ShowAndStop
            } else {
                ListingAction::Show
            },
            None => ListingAction::Show,
        }
    }

    /// What becomes of the media when the tweet is inserted over `status`:
    /// uploaded anew where the status holds another number of media than
    /// the tweet, else the status's own.
    pub fn media_plan(&self, status: &Status) -> (r: MediaPlan)
        ensures
            self.media_spec().len() != status.media_count_spec() ==> r == MediaPlan::Upload,
            self.media_spec().len() == status.media_count_spec() ==> (r matches MediaPlan::Reuse(ids)
                && ids@ == status.media_ids_spec()),
    {
        let count = match &self.extended_entities {
            Some(e) => e.media.len(),
            None => 0,
        };
        if count != status.media_count() {
            return MediaPlan::Upload;
        }
        match &status.ordered_media_attachment_ids {
            Some(ids) => {
                let mut copy: Vec<i64> = Vec::new();
                let mut i: usize = 0;
                while i < ids.len()
                    invariant
                        i <= ids.len(),
                        copy@ == ids@.take(i as int),
                    decreases ids.len() - i,
                {
                    copy.push(ids[i]);
                    i = i + 1;
                    assert(copy@ =~= ids@.take(i as int));
                }
                assert(ids@.take(i as int) =~= ids@);
                MediaPlan::Reuse(copy)
            },
            None => MediaPlan::Reuse(Vec::new()),
        }
    }

    /// Every media of the tweet has a file name in the archive.
    pub open spec fn media_have_file_names(&self) -> bool {
        forall|i: int|
            0 <= i < self.media_spec().len() ==> (#[trigger] self.media_spec()[i]).file_name_spec() is Some
    }

    /// Whether both ids of the tweet can be read.
    pub fn has_readable_ids(&self) -> (r: bool)
        ensures
            r == self.has_valid_ids(),
    {
        if parse_i64(self.id_str.as_str()).is_none() {
            return false;
        }
        match &self.in_reply_to_status_id_str {
            Some(id) => parse_i64(id.as_str()).is_some(),
            None => true,
        }
    }

    /// Whether every media of the tweet has a file name in the archive.
    pub fn has_media_file_names(&self) -> (r: bool)
        ensures
            r == self.media_have_file_names(),
    {
        match &self.extended_entities {
            Some(entities) => {
                let media = &entities.media;
                let mut i: usize = 0;
                while i < media.len()
                    invariant
                        i <= media.len(),
                        media@ == self.media_spec(),
                        forall|k: int| 0 <= k < i ==> (#[trigger] media@[k]).file_name_spec() is Some,
                    decreases media.len() - i,
                {
                    if !media[i].has_file_name() {
                        return false;
                    }
                    i = i + 1;
                }
                true
            },
            None => true,
        }
    }

    /// Whether comparing the tweet with `other` reads only what can be read.
    pub fn can_compare_with_status(&self, other: &Status) -> (r: bool)
        ensures
            r == self.can_compare_with(other),
    {
        let tweet_id = match parse_i64(self.id_str.as_str()) {
            Some(id) => id,
            None => return false,
        };
        let mut uri = String::new();
        push_str(&mut uri, "https://twitter.com/bencord0/status/");
        let id_text = format_i64(tweet_id);
        push_str(&mut uri, id_text.as_str());
        if !(tweet_id == other.id && uri == other.uri) {
            return true;
        }
        if !self.has_only_photo_entities() {
            return false;
        }
        if !(self.replaced_text() == other.text && self.created_at == other.created_at
            && self.created_at == other.updated_at) {
            return true;
        }
        match &self.in_reply_to_status_id_str {
            Some(id) => parse_i64(id.as_str()).is_some(),
            None => true,
        }
    }

    /// The text `Display` writes for the tweet.
    pub open spec fn display_text(&self) -> Seq<char> {
        "id: "@ + self.id_str@ + seq!['\n'] + match self.in_reply_to_status_id_str {
            Some(r) => "in_reply_to: "@ + r@ + seq!['\n'],
            None => seq![],
        } + self.replaced_text_spec() + seq!['\n'] + "  "@ + self.created_at.display_text() + seq![
            '\n',
        ] + media_display_lines(self.media_spec(), self.id_str@)
    }

    /// The id, the parent, the text, the time and the media files, a line each.
    pub fn display(&self) -> (r: String)
        requires
            self.entity_media_are_photos(),
            self.media_have_file_names(),
        ensures
            r@ == self.display_text(),
    {
        proof {
            reveal_strlit("\n");
        }
        let replaced_text = self.replaced_text();
        let mut r = String::new();
        push_str(&mut r, "id: ");
        push_str(&mut r, self.id_str.as_str());
        push_str(&mut r, "\n");
        if let Some(in_reply_to) = &self.in_reply_to_status_id_str {
            push_str(&mut r, "in_reply_to: ");
            push_str(&mut r, in_reply_to.as_str());
            push_str(&mut r, "\n");
        }
        push_str(&mut r, replaced_text.as_str());
        push_str(&mut r, "\n");
        push_str(&mut r, "  ");
        let created = self.created_at.display();
        push_str(&mut r, created.as_str());
        push_str(&mut r, "\n");
        let ghost head = r@;
        assert(head =~= "id: "@ + self.id_str@ + seq!['\n'] + match self.in_reply_to_status_id_str {
            Some(r) => "in_reply_to: "@ + r@ + seq!['\n'],
            None => seq![],
        } + self.replaced_text_spec() + seq!['\n'] + "  "@ + self.created_at.display_text() + seq![
            '\n',
        ]);
        if let Some(extended_entities) = &self.extended_entities {
            let media = &extended_entities.media;
            let mut i: usize = 0;
            assert(media@.take(0) =~= Seq::<Media>::empty());
            assert(r@ =~= head + media_display_lines(media@.take(0), self.id_str@));
            while i < media.len()
                invariant
                    i <= media.len(),
                    media@ == self.media_spec(),
                    self.media_have_file_names(),
                    r@ == head + media_display_lines(media@.take(i as int), self.id_str@),
                decreases media.len() - i,
            {
                proof {
                    reveal_strlit("\n");
                }
                assert(media@.take(i + 1).drop_last() =~= media@.take(i as int));
                assert(media@[i as int].file_name_spec() is Some);
                let media_type = media[i].media_type();
                let file_name = media[i].archive_file_name(self.id_str.as_str());
                push_str(&mut r, "  ");
                push_str(&mut r, media_type);
                push_str(&mut r, "| ");
                push_str(&mut r, file_name.as_str());
                push_str(&mut r, "\n");
                i = i + 1;
                assert(r@ =~= head + media_display_lines(media@.take(i as int), self.id_str@));
            }
            assert(media@.take(i as int) =~= media@);
        } else {
            assert(r@ =~= head + media_display_lines(Seq::<Media>::empty(), self.id_str@));
        }
        r
    }
}


/// The status row that the insert statement `sql` writes, read back from
/// the database (whose id columns are signed), with `media_count` media.
pub open spec fn stored_status(sql: InsertSql, s: Status, media_count: nat) -> bool {
    &&& s.id == sql.status_id as i64
    &&& s.uri@ == crate::sql::insert::status_uri(sql.status_id)
    &&& s.text@ == sql.text@
    &&& s.created_at == sql.timestamp
    &&& s.updated_at == sql.timestamp
    &&& s.in_reply_to_id == match sql.in_reply_to_id {
        Some(p) => Some(p as i64),
        None => None::<i64>,
    }
    &&& s.media_count_spec() == media_count
}

/// A tweet is recognised in the status its insert statement stored, once
/// its media are attached: posting a tweet twice is avoided. Ids are not
/// negative, as Twitter's are.
pub proof fn lemma_inserted_tweet_matches_its_status(t: Tweet, sql: InsertSql, s: Status)
    requires
        t.has_valid_ids(),
        t.entity_media_are_photos(),
        t.id_spec().unwrap() >= 0,
        t.is_insert_sql(sql),
        stored_status(sql, s, t.media_spec().len()),
    ensures
        t.can_compare_with(&s),
        t.matches_status_spec(&s),
{
    let id = t.id_spec().unwrap();
    assert(sql.status_id as i64 == id);
    assert(crate::sql::insert::status_uri(sql.status_id) == status_uri_of(id));
    if let Some(p) = t.parent_id_spec() {
        assert(((p as u64) as i64) == p) by (bit_vector);
    }
}
/// A tweet whose ids are written in decimal has those numbers as its ids:
/// `id` and `parent_id` accept them and give them back.
pub proof fn lemma_tweet_ids_of_decimal(t: &Tweet, id: i64, parent: Option<i64>)
    requires
        t.id_str@ == signed_decimal_string(id as int),
        match (t.in_reply_to_status_id_str, parent) {
            (Some(s), Some(p)) => s@ == signed_decimal_string(p as int),
            (None, None) => true,
            _ => false,
        },
    ensures
        t.has_valid_ids(),
        t.id_spec() == Some(id),
        t.parent_id_spec() == parent,
{
    lemma_parse_i64_of_decimal(id);
    if let Some(p) = parent {
        lemma_parse_i64_of_decimal(p);
    }
}

/// A tweet matches a status exactly when the status holds the tweet as it
/// would be posted: the tweet's id, the URI of that id, the posted text,
/// the tweet's time as both creation and update time, the tweet's parent
/// (none where it replies to nothing), and as many media as the tweet has.
pub proof fn lemma_matching_status_is_the_posted_tweet(t: Tweet, s: Status)
    requires
        t.has_valid_ids(),
    ensures
        t.matches_status_spec(&s) <==> {
            &&& parse_i64_spec(t.id_str@) == Some(s.id)
            &&& s.uri@ == "https://twitter.com/bencord0/status/"@ + signed_decimal_string(s.id as int)
            &&& s.text@ == t.replaced_text_spec()
            &&& s.created_at == t.created_at
            &&& s.updated_at == t.created_at
            &&& match t.in_reply_to_status_id_str {
                Some(p) => s.in_reply_to_id is Some && parse_i64_spec(p@) == s.in_reply_to_id,
                None => s.in_reply_to_id is None,
            }
            &&& match s.ordered_media_attachment_ids {
                Some(ids) => ids@.len(),
                None => 0,
            } == match t.extended_entities {
                Some(e) => e.media@.len(),
                None => 0,
            }
        },
{
}

/// A tweet is a retweet exactly when its text starts with `RT @name:` for
/// one of the accounts it mentions, whichever of them it is.
pub proof fn lemma_retweet_is_marked_by_a_mention(t: Tweet)
    ensures
        forall|i: int|
            0 <= i < t.entities.user_mentions@.len() && ({
                let marker = "RT @"@ + (#[trigger] t.entities.user_mentions@[i]).screen_name@ + seq![':'];
                marker.len() <= t.full_text@.len() && t.full_text@.take(marker.len() as int) == marker
            }) ==> t.is_retweet_spec(),
        t.is_retweet_spec() ==> exists|i: int|
            0 <= i < t.entities.user_mentions@.len() && {
                let marker = "RT @"@ + (#[trigger] t.entities.user_mentions@[i]).screen_name@ + seq![':'];
                marker.len() <= t.full_text@.len() && t.full_text@.take(marker.len() as int) == marker
            },
{
    assert forall|i: int|
        0 <= i < t.entities.user_mentions@.len() && ({
            let marker = "RT @"@ + (#[trigger] t.entities.user_mentions@[i]).screen_name@ + seq![':'];
            marker.len() <= t.full_text@.len() && t.full_text@.take(marker.len() as int) == marker
        }) implies t.is_retweet_spec() by {
        let marker = retweet_marker(t.entities.user_mentions@[i]);
        assert(t.full_text@.subrange(0, marker.len() as int) =~= t.full_text@.take(marker.len() as int));
    }
    if t.is_retweet_spec() {
        let i = choose|i: int|
            0 <= i < t.entities.user_mentions@.len() && is_prefix(
                retweet_marker(#[trigger] t.entities.user_mentions@[i]),
                t.full_text@,
            );
        let marker = retweet_marker(t.entities.user_mentions@[i]);
        assert(t.full_text@.subrange(0, marker.len() as int) =~= t.full_text@.take(marker.len() as int));
    }
}

/// The line that lists media `m` of the tweet whose id is written `id`.
spec fn listed_media_line(m: Media, id: Seq<char>) -> Seq<char> {
    "  "@ + m.media_type_spec() + "| "@ + id + seq!['-'] + m.file_name_spec().unwrap() + seq!['\n']
}

/// Where the line of media `j` starts among the lines of `ms`.
spec fn media_line_offset(ms: Seq<Media>, p: Seq<char>, j: int) -> int {
    media_display_lines(ms.take(j), p).len() as int
}

proof fn lemma_media_lines_take(ms: Seq<Media>, p: Seq<char>, j: int)
    requires
        0 <= j < ms.len(),
    ensures
        media_display_lines(ms.take(j + 1), p) == media_display_lines(ms.take(j), p)
            + listed_media_line(ms[j], p),
{
    assert(ms.take(j + 1).drop_last() =~= ms.take(j));
    assert(media_display_lines(ms.take(j + 1), p) =~= media_display_lines(ms.take(j), p)
        + listed_media_line(ms[j], p));
}

proof fn lemma_media_line_at(ms: Seq<Media>, p: Seq<char>, j: int)
    requires
        0 <= j < ms.len(),
    ensures
        media_line_offset(ms, p, j) + listed_media_line(ms[j], p).len() <= media_display_lines(ms, p).len(),
        media_display_lines(ms, p).subrange(
            media_line_offset(ms, p, j),
            media_line_offset(ms, p, j) + listed_media_line(ms[j], p).len(),
        ) == listed_media_line(ms[j], p),
    decreases ms.len(),
{
    let prefix = ms.drop_last();
    let whole = media_display_lines(ms, p);
    let line = listed_media_line(ms[j], p);
    let off = media_line_offset(ms, p, j);
    assert(whole =~= media_display_lines(prefix, p) + listed_media_line(ms.last(), p));
    if j == ms.len() - 1 {
        assert(ms.take(j) =~= prefix);
        assert(whole.subrange(off, off + line.len()) =~= line);
    } else {
        lemma_media_line_at(prefix, p, j);
        assert(prefix.take(j) =~= ms.take(j));
        assert(prefix[j] == ms[j]);
        assert(whole.subrange(off, off + line.len()) =~= media_display_lines(prefix, p).subrange(
            off,
            off + line.len(),
        ));
    }
}

proof fn lemma_media_line_offsets_grow(ms: Seq<Media>, p: Seq<char>, j: int, k: int)
    requires
        0 <= j < k <= ms.len(),
    ensures
        media_line_offset(ms, p, j) < media_line_offset(ms, p, k),
    decreases k - j,
{
    lemma_media_lines_take(ms, p, k - 1);
    if j < k - 1 {
        lemma_media_line_offsets_grow(ms, p, j, k - 1);
    }
}

/// The display of a tweet lists every media of the tweet, each on a line
/// `  {type}| {id}-{file name}`, in the order of the media list.
pub proof fn lemma_display_lists_every_media_in_order(t: Tweet)
    requires
        t.media_have_file_names(),
    ensures
        exists|pos: Seq<int>|
            #![trigger pos.len()]
            pos.len() == t.media_spec().len() && (forall|j: int, k: int|
                0 <= j < k < pos.len() ==> #[trigger] pos[j] < #[trigger] pos[k]) && forall|j: int|
                0 <= j < pos.len() ==> occurs_at(
                    t.display_text(),
                    "  "@ + (#[trigger] t.media_spec()[j]).media_type_spec() + "| "@ + t.id_str@
                        + seq!['-'] + t.media_spec()[j].file_name_spec().unwrap() + seq!['\n'],
                    pos[j],
                ),
{
    let ms = t.media_spec();
    let p = t.id_str@;
    let d = t.display_text();
    let lines = media_display_lines(ms, p);
    let head_len = d.len() - lines.len();
    assert(d.subrange(head_len, d.len() as int) =~= lines);
    let pos = Seq::new(ms.len(), |j: int| head_len + media_line_offset(ms, p, j));
    assert forall|j: int, k: int| 0 <= j < k < pos.len() implies #[trigger] pos[j] < #[trigger] pos[k] by {
        lemma_media_line_offsets_grow(ms, p, j, k);
    }
    assert forall|j: int|
        0 <= j < pos.len() implies occurs_at(
            d,
            "  "@ + (#[trigger] ms[j]).media_type_spec() + "| "@ + p + seq!['-']
                + ms[j].file_name_spec().unwrap() + seq!['\n'],
            pos[j],
        ) by {
        lemma_media_line_at(ms, p, j);
        let line = listed_media_line(ms[j], p);
        let off = media_line_offset(ms, p, j);
        assert(d.subrange(head_len + off, head_len + off + line.len()) =~= lines.subrange(
            off,
            off + line.len(),
        ));
    }
    assert(pos.len() == ms.len());
}

} // verus!
