use vstd::prelude::*;
use crate::dates::{rfc2822_to_rfc3339, rfc3339_from_rfc2822};
use crate::text::str_eq;
use crate::video::Video;

verus! {

/// An entry of an RSS feed.
#[derive(Debug)]
pub struct RssVideo {
    pub title: String,
    pub link: String,
    pub pub_date: String,
}

/// The channel of an RSS feed.
#[derive(Debug)]
pub struct RssChannel {
    pub name: String,
    pub link: String,
    pub videos: Vec<RssVideo>,
}

/// An RSS feed.
#[derive(Debug)]
pub struct RssFeed {
    pub channel: RssChannel,
}

/// An entry of an Atom feed.
#[derive(Debug)]
pub struct AtomVideo {
    pub title: String,
    pub id: String,
    pub pub_date: String,
}

/// An Atom feed.
#[derive(Debug)]
pub struct AtomFeed {
    pub name: String,
    pub channel_id: String,
    pub videos: Vec<AtomVideo>,
}

/// The fields that an RSS entry or channel reports as duplicate or missing.
#[derive(PartialEq, Eq, Structural, Clone, Copy, Debug)]
pub enum FieldName {
    Title,
    Link,
    PubDate,
    TitleChannel,
    LinkChannel,
    VideosChannel,
}

impl FieldName {
    /// The name under which the field is reported.
    pub fn as_str(&self) -> (r: &'static str)
        ensures
            *self == FieldName::Title ==> r@ == "title"@,
            *self == FieldName::Link ==> r@ == "link"@,
            *self == FieldName::PubDate ==> r@ == "pub_date"@,
            *self == FieldName::TitleChannel ==> r@ == "title_channel"@,
            *self == FieldName::LinkChannel ==> r@ == "link_channel"@,
            *self == FieldName::VideosChannel ==> r@ == "videos_channel"@,
    {
        match self {
            FieldName::Title => "title",
            FieldName::Link => "link",
            FieldName::PubDate => "pub_date",
            FieldName::TitleChannel => "title_channel",
            FieldName::LinkChannel => "link_channel",
            FieldName::VideosChannel => "videos_channel",
        }
    }
}

/// Why an RSS entry or channel is refused.
#[derive(PartialEq, Eq, Structural, Clone, Copy, Debug)]
pub enum FieldError {
    Duplicate(FieldName),
    Missing(FieldName),
}

/// The keys of an RSS entry that are read.
#[derive(PartialEq, Eq, Structural, Clone, Copy, Debug)]
pub enum VideoKey {
    Title,
    Link,
    PubDate,
    Other,
}

/// The keys of an RSS channel that are read.
#[derive(PartialEq, Eq, Structural, Clone, Copy, Debug)]
pub enum ChannelKey {
    Title,
    Link,
    Item,
    Other,
}

/// The key of an RSS entry that the text names.
pub open spec fn video_key_of(key: Seq<char>) -> VideoKey {
    if key == "title"@ {
        VideoKey::Title
    } else if key == "link"@ {
        VideoKey::Link
    } else if key == "pubDate"@ {
        VideoKey::PubDate
    } else {
        VideoKey::Other
    }
}

/// The key of an RSS channel that the text names.
pub open spec fn channel_key_of(key: Seq<char>) -> ChannelKey {
    if key == "title"@ {
        ChannelKey::Title
    } else if key == "link"@ {
        ChannelKey::Link
    } else if key == "item"@ {
        ChannelKey::Item
    } else {
        ChannelKey::Other
    }
}

pub fn video_key(key: &str) -> (k: VideoKey)
    ensures
        k == video_key_of(key@),
{
    if str_eq(key, "title") {
        VideoKey::Title
    } else if str_eq(key, "link") {
        VideoKey::Link
    } else if str_eq(key, "pubDate") {
        VideoKey::PubDate
    } else {
        VideoKey::Other
    }
}

pub fn channel_key(key: &str) -> (k: ChannelKey)
    ensures
        k == channel_key_of(key@),
{
    if str_eq(key, "title") {
        ChannelKey::Title
    } else if str_eq(key, "link") {
        ChannelKey::Link
    } else if str_eq(key, "item") {
        ChannelKey::Item
    } else {
        ChannelKey::Other
    }
}

/// The fields of an RSS entry read so far.
#[derive(Debug)]
pub struct VideoFields {
    pub title: Option<String>,
    pub link: Option<String>,
    pub pub_date: Option<String>,
}

impl VideoFields {
    /// Nothing read yet.
    pub fn new() -> (f: VideoFields)
        ensures
            f.title is None,
            f.link is None,
            f.pub_date is None,
    {
        VideoFields { title: None, link: None, pub_date: None }
    }

    /// Which field the value under `key` goes to; a link or a date that
    /// came before is refused, a title may come again.
    pub fn accept(&self, key: &str) -> (r: Result<VideoKey, FieldError>)
        ensures
            video_key_of(key@) == VideoKey::Link && self.link is Some ==> r == Err::<VideoKey, FieldError>(
                FieldError::Duplicate(FieldName::Link),
            ),
            video_key_of(key@) == VideoKey::PubDate && self.pub_date is Some ==> r == Err::<
                VideoKey,
                FieldError,
            >(FieldError::Duplicate(FieldName::PubDate)),
            !(video_key_of(key@) == VideoKey::Link && self.link is Some) && !(video_key_of(key@)
                == VideoKey::PubDate && self.pub_date is Some) ==> r == Ok::<VideoKey, FieldError>(
                video_key_of(key@),
            ),
    {
        let k = video_key(key);
        match k {
            VideoKey::Link => if self.link.is_some() {
                return Err(FieldError::Duplicate(FieldName::Link));
            },
            VideoKey::PubDate => if self.pub_date.is_some() {
                return Err(FieldError::Duplicate(FieldName::PubDate));
            },
            _ => {},
        }
        Ok(k)
    }

    /// Takes the value read for the field.
    pub fn set(&mut self, key: VideoKey, value: String)
        ensures
            key == VideoKey::Title ==> final(self).title == Some(value),
            key != VideoKey::Title ==> final(self).title == old(self).title,
            key == VideoKey::Link ==> final(self).link == Some(value),
            key != VideoKey::Link ==> final(self).link == old(self).link,
            key == VideoKey::PubDate ==> final(self).pub_date == Some(value),
            key != VideoKey::PubDate ==> final(self).pub_date == old(self).pub_date,
    {
        match key {
            VideoKey::Title => self.title = Some(value),
            VideoKey::Link => self.link = Some(value),
            VideoKey::PubDate => self.pub_date = Some(value),
            VideoKey::Other => {},
        }
    }

    /// The entry, or the first field that is missing: title, link, date.
    pub fn finish(self) -> (r: Result<RssVideo, FieldError>)
        ensures
            self.title is None ==> r == Err::<RssVideo, FieldError>(
                FieldError::Missing(FieldName::Title),
            ),
            self.title is Some && self.link is None ==> r == Err::<RssVideo, FieldError>(
                FieldError::Missing(FieldName::Link),
            ),
            self.title is Some && self.link is Some && self.pub_date is None ==> r == Err::<
                RssVideo,
                FieldError,
            >(FieldError::Missing(FieldName::PubDate)),
            self.title is Some && self.link is Some && self.pub_date is Some ==> (r matches Ok(v)
                && v == (RssVideo {
                title: self.title->0,
                link: self.link->0,
                pub_date: self.pub_date->0,
            })),
    {
        let title = match self.title {
            Some(t) => t,
            None => return Err(FieldError::Missing(FieldName::Title)),
        };
        let link = match self.link {
            Some(l) => l,
            None => return Err(FieldError::Missing(FieldName::Link)),
        };
        let pub_date = match self.pub_date {
            Some(d) => d,
            None => return Err(FieldError::Missing(FieldName::PubDate)),
        };
        Ok(RssVideo { title, link, pub_date })
    }
}

/// The fields of an RSS channel read so far.
#[derive(Debug)]
pub struct ChannelFields {
    pub title: Option<String>,
    pub link: Option<String>,
    pub videos: Vec<RssVideo>,
}

impl ChannelFields {
    /// Nothing read yet.
    pub fn new() -> (f: ChannelFields)
        ensures
            f.title is None,
            f.link is None,
            f.videos@.len() == 0,
    {
        ChannelFields { title: None, link: None, videos: Vec::new() }
    }

    /// Which field the value under `key` goes to; a title that came
    /// before is refused, a link may come again.
    pub fn accept(&self, key: &str) -> (r: Result<ChannelKey, FieldError>)
        ensures
            channel_key_of(key@) == ChannelKey::Title && self.title is Some ==> r == Err::<
                ChannelKey,
                FieldError,
            >(FieldError::Duplicate(FieldName::Title)),
            !(channel_key_of(key@) == ChannelKey::Title && self.title is Some) ==> r == Ok::<
                ChannelKey,
                FieldError,
            >(channel_key_of(key@)),
    {
        let k = channel_key(key);
        match k {
            ChannelKey::Title => if self.title.is_some() {
                return Err(FieldError::Duplicate(FieldName::Title));
            },
            _ => {},
        }
        Ok(k)
    }

    /// Takes the text read for the title or the link.
    pub fn set_text(&mut self, key: ChannelKey, value: String)
        ensures
            key == ChannelKey::Title ==> final(self).title == Some(value),
            key != ChannelKey::Title ==> final(self).title == old(self).title,
            key == ChannelKey::Link ==> final(self).link == Some(value),
            key != ChannelKey::Link ==> final(self).link == old(self).link,
            final(self).videos == old(self).videos,
    {
        match key {
            ChannelKey::Title => self.title = Some(value),
            ChannelKey::Link => self.link = Some(value),
            _ => {},
        }
    }

    /// Takes an entry read under `item`.
    pub fn push_video(&mut self, video: RssVideo)
        ensures
            final(self).title == old(self).title,
            final(self).link == old(self).link,
            final(self).videos@ == old(self).videos@.push(video),
    {
        self.videos.push(video);
    }

    /// The channel, or the first thing missing: title, link, entries.
    pub fn finish(self) -> (r: Result<RssChannel, FieldError>)
        ensures
            self.title is None ==> r == Err::<RssChannel, FieldError>(
                FieldError::Missing(FieldName::TitleChannel),
            ),
            self.title is Some && self.link is None ==> r == Err::<RssChannel, FieldError>(
                FieldError::Missing(FieldName::LinkChannel),
            ),
            self.title is Some && self.link is Some && self.videos@.len() == 0 ==> r == Err::<
                RssChannel,
                FieldError,
            >(FieldError::Missing(FieldName::VideosChannel)),
            self.title is Some && self.link is Some && self.videos@.len() > 0 ==> (r matches Ok(c)
                && c.name == self.title->0 && c.link == self.link->0 && c.videos == self.videos),
    {
        let name = match self.title {
            Some(t) => t,
            None => return Err(FieldError::Missing(FieldName::TitleChannel)),
        };
        let link = match self.link {
            Some(l) => l,
            None => return Err(FieldError::Missing(FieldName::LinkChannel)),
        };
        if self.videos.len() == 0 {
            return Err(FieldError::Missing(FieldName::VideosChannel));
        }
        Ok(RssChannel { name, link, videos: self.videos })
    }
}

/// An entry of an RSS feed with whether it was watched.
#[derive(Debug)]
pub struct VideoItem {
    pub video: RssVideo,
    pub marked: bool,
}

impl VideoItem {
    /// The entry, not watched yet.
    pub fn new(video: RssVideo) -> (v: VideoItem)
        ensures
            v.video == video,
            !v.marked,
    {
        VideoItem { video, marked: false }
    }

    pub fn mark(&mut self, value: bool)
        ensures
            final(self).marked == value,
            final(self).video == old(self).video,
    {
        self.marked = value;
    }
}

/// The link of the video with the id on the video platform.
pub open spec fn watch_link(id: Seq<char>) -> Seq<char> {
    "https://www.youtube.com/watch?v="@ + id
}

/// The id of a video from its link on the video platform: what follows
/// the watch address; none for a link of another form.
pub fn video_id(link: &str) -> (r: Option<String>)
    ensures
        r matches Some(id) ==> watch_link(id@) == link@,
        r is None ==> forall|id: Seq<char>| watch_link(id) != link@,
{
    let prefix = "https://www.youtube.com/watch?v=";
    proof {
        reveal_strlit("https://www.youtube.com/watch?v=");
    }
    let n: usize = link.unicode_len();
    let p: usize = prefix.unicode_len();
    if n < p {
        proof {
            assert forall|id: Seq<char>| watch_link(id) != link@ by {
                assert(watch_link(id).len() >= p);
            }
        }
        return None;
    }
    let head = link.substring_char(0, p);
    if !str_eq(head, prefix) {
        proof {
            assert forall|id: Seq<char>| watch_link(id) != link@ by {
                if watch_link(id) == link@ {
                    assert(watch_link(id).subrange(0, p as int) =~= prefix@);
                }
            }
        }
        return None;
    }
    let rest = link.substring_char(p, n);
    assert(watch_link(rest@) =~= link@);
    Some(String::from_str(rest))
}

/// A video fresh from a feed: not watched, no favourite, new, and not yet
/// tied to a feed or channel.
pub open spec fn fresh_video(v: Video, title: Seq<char>, link: Seq<char>, pub_date: Seq<char>) -> bool {
    &&& v.title@ == title
    &&& v.link@ == link
    &&& v.pub_date@ == pub_date
    &&& v.origin_url@ == Seq::<char>::empty()
    &&& v.origin_channel_name@ == Seq::<char>::empty()
    &&& !v.marked
    &&& !v.fav
    &&& v.is_new
}

impl AtomVideo {
    /// The video of the entry: the link built from its id, the date as it
    /// stands.
    pub fn to_internal_video(&self) -> (v: Video)
        ensures
            fresh_video(v, self.title@, watch_link(self.id@), self.pub_date@),
    {
        let prefix = String::from_str("https://www.youtube.com/watch?v=");
        proof {
            reveal_strlit("https://www.youtube.com/watch?v=");
        }
        let link = prefix.concat(self.id.as_str());
        Video {
            title: self.title.clone(),
            link,
            origin_url: String::new(),
            origin_channel_name: String::new(),
            marked: false,
            fav: false,
            pub_date: self.pub_date.clone(),
            is_new: true,
        }
    }
}

impl RssVideo {
    /// The video of the entry, with its date rewritten in the form of
    /// RFC 3339; none where the date is not in the form of RFC 2822.
    pub fn to_internal_video(&self) -> (r: Option<Video>)
        ensures
            match rfc3339_from_rfc2822(self.pub_date@) {
                Some(d) => r matches Some(v) && fresh_video(v, self.title@, self.link@, d),
                None => r is None,
            },
    {
        match rfc2822_to_rfc3339(self.pub_date.as_str()) {
            Some(date) => Some(
                Video {
                    title: self.title.clone(),
                    link: self.link.clone(),
                    origin_url: String::new(),
                    origin_channel_name: String::new(),
                    marked: false,
                    fav: false,
                    pub_date: date,
                    is_new: true,
                },
            ),
            None => None,
        }
    }
}

} // verus!
