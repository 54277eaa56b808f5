use vstd::prelude::*;
use crate::channel::{date_order, merged_videos, reverse_videos, sort_by_date, videos_contain, Channel};
use crate::sort::sorted_by;
use crate::types::SortingMethodVideos;
use crate::video::Video;
use crate::video_factory::{first_missing, VideoFactory};

verus! {

/// Assembles a channel part by part; `commit` hands the channel out only
/// once every part has been set and every new video is complete.
pub struct ChannelFactory {
    pub channel: Channel,
    pub new_videos: Vec<VideoFactory>,
    pub old_videos: Vec<Video>,
    pub name_set: bool,
    pub id_set: bool,
    pub tag_set: bool,
    pub new_videos_set: bool,
    pub old_videos_set: bool,
    pub sorting_set: bool,
}

/// The complaint of `commit` about the first part, in the order the parts
/// are checked, that was not set; `None` when all were set.
pub open spec fn factory_missing(f: ChannelFactory) -> Option<Seq<char>> {
    if !f.name_set {
        Some("name not set"@)
    } else if !f.id_set {
        Some("id not set"@)
    } else if !f.tag_set {
        Some("tag not set"@)
    } else if !f.new_videos_set {
        Some("new_videos not set"@)
    } else if !f.old_videos_set {
        Some("old_videos not set"@)
    } else if !f.sorting_set {
        Some("sorting not set"@)
    } else {
        None
    }
}

/// The videos of the factories, in order; or the complaint of the first
/// factory that is not complete.
pub open spec fn committed(fs: Seq<VideoFactory>) -> Result<Seq<Video>, Seq<char>>
    decreases fs.len(),
{
    if fs.len() == 0 {
        Ok(Seq::empty())
    } else {
        match committed(fs.drop_last()) {
            Err(m) => Err(m),
            Ok(vs) => match first_missing(fs.last()) {
                Some(m) => Err(m),
                None => Ok(vs.push(fs.last().video)),
            },
        }
    }
}

/// `fs` with each of `news`, in turn, added unless a factory for a video
/// with the same link is there.
pub open spec fn added_factories(fs: Seq<VideoFactory>, news: Seq<VideoFactory>) -> Seq<VideoFactory>
    decreases news.len(),
{
    if news.len() == 0 {
        fs
    } else {
        let m = added_factories(fs, news.drop_last());
        if exists|i: int| 0 <= i < m.len() && (#[trigger] m[i]).video.link@ == news.last().video.link@ {
            m
        } else {
            m.push(news.last())
        }
    }
}

proof fn lemma_committed_fails(fs: Seq<VideoFactory>, m: int)
    requires
        0 <= m <= fs.len(),
        committed(fs.take(m)) is Err,
    ensures
        committed(fs) == committed(fs.take(m)),
    decreases fs.len() - m,
{
    if m < fs.len() {
        assert(fs.take(m + 1).drop_last() =~= fs.take(m));
        lemma_committed_fails(fs, m + 1);
    } else {
        assert(fs.take(m) =~= fs);
    }
}

impl ChannelFactory {
    /// A factory with nothing set, holding a channel with placeholder
    /// name, id and tag.
    pub fn create() -> (f: ChannelFactory)
        ensures
            f.channel.name@ == "placeholder_name"@,
            f.channel.id@ == "placeholder_id"@,
            f.channel.tag@ == "placeholder_tag"@,
            f.channel.videos@.len() == 0,
            f.channel.sorting_method == SortingMethodVideos::UnseenDate,
            f.channel.selected is None,
            f.new_videos@.len() == 0,
            f.old_videos@.len() == 0,
            !f.name_set && !f.id_set && !f.tag_set,
            !f.new_videos_set && !f.old_videos_set && !f.sorting_set,
    {
        let mut channel = Channel::default();
        channel.name = String::from_str("placeholder_name");
        channel.id = String::from_str("placeholder_id");
        channel.tag = String::from_str("placeholder_tag");
        ChannelFactory {
            channel,
            new_videos: Vec::new(),
            old_videos: Vec::new(),
            name_set: false,
            id_set: false,
            tag_set: false,
            new_videos_set: false,
            old_videos_set: false,
            sorting_set: false,
        }
    }

    pub fn set_name(&mut self, name: String)
        ensures
            *final(self) == (ChannelFactory {
                channel: Channel { name: name, ..old(self).channel },
                name_set: true,
                ..*old(self)
            }),
    {
        self.channel.name = name;
        self.name_set = true;
    }

    pub fn name_set(&self) -> (r: bool)
        ensures
            r == self.name_set,
    {
        self.name_set
    }

    pub fn set_id(&mut self, id: String)
        ensures
            *final(self) == (ChannelFactory {
                channel: Channel { id: id, ..old(self).channel },
                id_set: true,
                ..*old(self)
            }),
    {
        self.channel.id = id;
        self.id_set = true;
    }

    pub fn set_tag(&mut self, tag: String)
        ensures
            *final(self) == (ChannelFactory {
                channel: Channel { tag: tag, ..old(self).channel },
                tag_set: true,
                ..*old(self)
            }),
    {
        self.channel.tag = tag;
        self.tag_set = true;
    }

    /// Adds each of the factories whose video's link is not there yet.
    pub fn add_new_videos(&mut self, videos: Vec<VideoFactory>)
        ensures
            final(self).new_videos@ == added_factories(old(self).new_videos@, videos@),
            final(self).new_videos_set,
            final(self).channel == old(self).channel,
            final(self).old_videos == old(self).old_videos,
            final(self).name_set == old(self).name_set,
            final(self).id_set == old(self).id_set,
            final(self).tag_set == old(self).tag_set,
            final(self).old_videos_set == old(self).old_videos_set,
            final(self).sorting_set == old(self).sorting_set,
    {
        let ghost news = videos@;
        let ghost start = self.new_videos@;
        let mut input = videos;
        let n: usize = input.len();
        let mut i: usize = 0;
        assert(news.take(0) =~= Seq::<VideoFactory>::empty());
        assert(news.skip(0) =~= news);
        while input.len() > 0
            invariant
                i <= n,
                n == news.len(),
                input@ == news.skip(i as int),
                self.new_videos@ == added_factories(start, news.take(i as int)),
                self.channel == old(self).channel,
                self.old_videos == old(self).old_videos,
                self.name_set == old(self).name_set,
                self.id_set == old(self).id_set,
                self.tag_set == old(self).tag_set,
                self.new_videos_set == old(self).new_videos_set,
                self.old_videos_set == old(self).old_videos_set,
                self.sorting_set == old(self).sorting_set,
            decreases input.len(),
        {
            assert(i < n);
            let video = input.remove(0);
            proof {
                assert(news.take(i + 1).drop_last() =~= news.take(i as int));
                assert(news.take(i + 1).last() == video);
            }
            let mut found = false;
            let mut k: usize = 0;
            while k < self.new_videos.len()
                invariant
                    k <= self.new_videos@.len(),
                    !found ==> forall|j: int| 0 <= j < k ==> (#[trigger] self.new_videos@[j]).video.link@ != video.video.link@,
                    found ==> exists|j: int| 0 <= j < self.new_videos@.len() && (#[trigger] self.new_videos@[j]).video.link@ == video.video.link@,
                decreases self.new_videos.len() - k,
            {
                if self.new_videos[k].same_as(&video) {
                    found = true;
                }
                k = k + 1;
            }
            if !found {
                self.new_videos.push(video);
            }
            i = i + 1;
            assert(input@ =~= news.skip(i as int));
        }
        assert(news.take(i as int) =~= news);
        self.new_videos_set = true;
    }

    pub fn new_videos_added(&self) -> (r: bool)
        ensures
            r == self.new_videos_set,
    {
        self.new_videos_set
    }

    pub fn set_old_videos(&mut self, videos: Vec<Video>)
        ensures
            *final(self) == (ChannelFactory { old_videos: videos, old_videos_set: true, ..*old(self) }),
    {
        self.old_videos = videos;
        self.old_videos_set = true;
    }

    pub fn set_sorting(&mut self, sorting_method: SortingMethodVideos)
        ensures
            *final(self) == (ChannelFactory {
                channel: Channel { sorting_method: sorting_method, ..old(self).channel },
                sorting_set: true,
                ..*old(self)
            }),
    {
        self.channel.sorting_method = sorting_method;
        self.sorting_set = true;
    }

    /// The channel, once every part has been set and every new video is
    /// complete: the old videos, then each new one whose link is not there
    /// yet, newest first by publication date. Else the complaint about the
    /// first part not set, or about the first new video not complete.
    pub fn commit(self) -> (r: Result<Channel, String>)
        ensures
            factory_missing(self) matches Some(m) ==> (r matches Err(e) && e@ == m),
            factory_missing(self) is None ==> match committed(self.new_videos@) {
                Err(m) => r matches Err(e) && e@ == m,
                Ok(vs) => r matches Ok(c) && c == (Channel { videos: c.videos, ..self.channel })
                    && c.videos@ == sorted_by(merged_videos(self.old_videos@, vs), date_order())
                    .reverse(),
            },
    {
        if !self.name_set {
            return Err(String::from_str("name not set"));
        }
        if !self.id_set {
            return Err(String::from_str("id not set"));
        }
        if !self.tag_set {
            return Err(String::from_str("tag not set"));
        }
        if !self.new_videos_set {
            return Err(String::from_str("new_videos not set"));
        }
        if !self.old_videos_set {
            return Err(String::from_str("old_videos not set"));
        }
        if !self.sorting_set {
            return Err(String::from_str("sorting not set"));
        }
        let ghost fs = self.new_videos@;
        let mut videos = self.old_videos;
        let ghost start = videos@;
        let mut input = self.new_videos;
        let mut channel = self.channel;
        let n: usize = input.len();
        let mut i: usize = 0;
        let ghost mut done: Seq<Video> = Seq::empty();
        assert(fs.take(0) =~= Seq::<VideoFactory>::empty());
        assert(fs.skip(0) =~= fs);
        while input.len() > 0
            invariant
                i <= n,
                n == fs.len(),
                input@ == fs.skip(i as int),
                committed(fs.take(i as int)) == Ok::<Seq<Video>, Seq<char>>(done),
                videos@ == merged_videos(start, done),
                channel == self.channel,
                fs == self.new_videos@,
                factory_missing(self) is None,
            decreases input.len(),
        {
            assert(i < n);
            let factory = input.remove(0);
            proof {
                assert(fs.take(i + 1).drop_last() =~= fs.take(i as int));
                assert(fs.take(i + 1).last() == factory);
            }
            let video = match factory.commit() {
                Ok(video) => video,
                Err(error) => {
                    proof {
                        assert(first_missing(factory) is Some);
                        assert(committed(fs.take(i + 1)) == Err::<Seq<Video>, Seq<char>>(
                            first_missing(factory)->0,
                        ));
                        lemma_committed_fails(fs, i + 1);
                    }
                    return Err(error);
                },
            };
            let ghost prev = done;
            proof {
                done = done.push(video);
                assert(done.drop_last() =~= prev);
            }
            if !videos_contain(&videos, &video) {
                videos.push(video);
            }
            i = i + 1;
            assert(input@ =~= fs.skip(i as int));
        }
        assert(fs.take(i as int) =~= fs);
        channel.videos = reverse_videos(sort_by_date(videos));
        Ok(channel)
    }
}

} // verus!
