use vstd::prelude::*;
use crate::channel::{contains_video, lemma_merged_videos, merged_videos, videos_contain};
use crate::feeds::{fresh_video, watch_link, AtomFeed, RssFeed};
use crate::dates::rfc3339_from_rfc2822;
use crate::video::Video;

verus! {

/// What one or more downloaded feeds brought: a name and videos.
pub struct Feed {
    pub name: String,
    pub videos: Vec<Video>,
}

/// `vs` with each of `news`, in turn, added unless the same video is
/// already there.
pub open spec fn added_videos(vs: Seq<Video>, news: Seq<Video>) -> Seq<Video>
    decreases news.len(),
{
    if news.len() == 0 {
        vs
    } else {
        let m = added_videos(vs, news.drop_last());
        if contains_video(m, news.last()) {
            m
        } else {
            m.push(news.last())
        }
    }
}

impl Clone for Feed {
    fn clone(&self) -> (r: Self)
        ensures
            r.name@ == self.name@,
            r.videos@ == self.videos@,
    {
        Feed { name: self.name.clone(), videos: crate::channel::clone_videos(&self.videos) }
    }
}

/// What fancy_regex finds of the pattern in the text: whether it occurs;
/// none where the pattern does not compile or the search gives up.
pub uninterp spec fn regex_finds(pattern: Seq<char>, text: Seq<char>) -> Option<bool>;

/// Calls `fancy_regex::Regex::new` on the pattern and, when it compiles,
/// `is_match` on the text. The contract says only that the result is
/// `regex_finds` of the two.
#[verifier::external_body]
pub(crate) fn regex_search(pattern: &str, text: &str) -> (r: Option<bool>)
    ensures
        r == regex_finds(pattern@, text@),
{
    match fancy_regex::Regex::new(pattern) {
        Ok(re) => re.is_match(text).ok(),
        Err(_) => None,
    }
}

/// The videos whose titles the pattern does not find, in order; none
/// when a search fails.
pub open spec fn unblocked(vs: Seq<Video>, pattern: Seq<char>) -> Option<Seq<Video>>
    decreases vs.len(),
{
    if vs.len() == 0 {
        Some(Seq::empty())
    } else {
        match unblocked(vs.drop_last(), pattern) {
            None => None,
            Some(r) => match regex_finds(pattern, vs.last().title@) {
                None => None,
                Some(true) => Some(r),
                Some(false) => Some(r.push(vs.last())),
            },
        }
    }
}

/// `w` is `v` tied to the feed it came from and to that feed's name.
pub open spec fn tagged_video(w: Video, v: Video, url: Seq<char>, name: Seq<char>) -> bool {
    &&& w.origin_url@ == url
    &&& w.origin_channel_name@ == name
    &&& w.title == v.title
    &&& w.link == v.link
    &&& w.pub_date == v.pub_date
    &&& w.marked == v.marked
    &&& w.fav == v.fav
    &&& w.is_new == v.is_new
}

/// `ws` are the videos `vs`, each tied to the feed and its name.
pub open spec fn tagged(ws: Seq<Video>, vs: Seq<Video>, url: Seq<char>, name: Seq<char>) -> bool {
    &&& ws.len() == vs.len()
    &&& forall|i: int| 0 <= i < vs.len() ==> tagged_video(#[trigger] ws[i], vs[i], url, name)
}

impl Feed {
    /// A feed without name or videos.
    pub fn default() -> (f: Feed)
        ensures
            f.name@ == Seq::<char>::empty(),
            f.videos@ == Seq::<Video>::empty(),
    {
        Feed { name: String::new(), videos: Vec::new() }
    }

    /// Adds each of `videos` that the feed does not hold yet.
    pub fn add_videos(&mut self, videos: Vec<Video>)
        ensures
            final(self).name == old(self).name,
            final(self).videos@ == added_videos(old(self).videos@, videos@),
    {
        let ghost news = videos@;
        let ghost start = self.videos@;
        let mut input = videos;
        let n: usize = input.len();
        let mut i: usize = 0;
        assert(news.take(0) =~= Seq::<Video>::empty());
        assert(news.skip(0) =~= news);
        while input.len() > 0
            invariant
                i <= n,
                n == news.len(),
                input@ == news.skip(i as int),
                self.videos@ == added_videos(start, news.take(i as int)),
                self.name == old(self).name,
            decreases input.len(),
        {
            assert(i < n);
            let video = input.remove(0);
            proof {
                assert(news.take(i + 1).drop_last() =~= news.take(i as int));
                assert(news.take(i + 1).last() == video);
            }
            if !videos_contain(&self.videos, &video) {
                self.videos.push(video);
            }
            i = i + 1;
            assert(input@ =~= news.skip(i as int));
        }
        assert(news.take(i as int) =~= news);
    }

    pub fn set_name(&mut self, name: &str)
        ensures
            final(self).name@ == name@,
            final(self).videos == old(self).videos,
    {
        self.name = String::from_str(name);
    }
}

impl Feed {
    /// The feed of an Atom document: its name and its entries' videos.
    pub fn from_atom(feed: &AtomFeed) -> (f: Feed)
        ensures
            f.name@ == feed.name@,
            f.videos@.len() == feed.videos@.len(),
            forall|i: int|
                0 <= i < feed.videos@.len() ==> fresh_video(
                    #[trigger] f.videos@[i],
                    feed.videos@[i].title@,
                    watch_link(feed.videos@[i].id@),
                    feed.videos@[i].pub_date@,
                ),
    {
        let mut videos: Vec<Video> = Vec::new();
        let mut i: usize = 0;
        while i < feed.videos.len()
            invariant
                i <= feed.videos@.len(),
                videos@.len() == i,
                forall|j: int|
                    0 <= j < i ==> fresh_video(
                        #[trigger] videos@[j],
                        feed.videos@[j].title@,
                        watch_link(feed.videos@[j].id@),
                        feed.videos@[j].pub_date@,
                    ),
            decreases feed.videos.len() - i,
        {
            videos.push(feed.videos[i].to_internal_video());
            i = i + 1;
        }
        Feed { name: feed.name.clone(), videos }
    }

    /// The feed of an RSS document: its channel's name and its entries'
    /// videos, with dates in the form of RFC 3339; none when a date is not
    /// in the form of RFC 2822.
    pub fn from_rss(feed: &RssFeed) -> (r: Option<Feed>)
        ensures
            (forall|i: int|
                0 <= i < feed.channel.videos@.len() ==> (#[trigger] rfc3339_from_rfc2822(
                    feed.channel.videos@[i].pub_date@,
                )) is Some) ==> (r matches Some(f) && f.name@ == feed.channel.name@
                && f.videos@.len() == feed.channel.videos@.len() && forall|i: int|
                0 <= i < feed.channel.videos@.len() ==> fresh_video(
                    #[trigger] f.videos@[i],
                    feed.channel.videos@[i].title@,
                    feed.channel.videos@[i].link@,
                    rfc3339_from_rfc2822(feed.channel.videos@[i].pub_date@)->0,
                )),
            !(forall|i: int|
                0 <= i < feed.channel.videos@.len() ==> (#[trigger] rfc3339_from_rfc2822(
                    feed.channel.videos@[i].pub_date@,
                )) is Some) ==> r is None,
    {
        let entries = &feed.channel.videos;
        let mut videos: Vec<Video> = Vec::new();
        let mut i: usize = 0;
        while i < entries.len()
            invariant
                i <= entries@.len(),
                entries@ == feed.channel.videos@,
                videos@.len() == i,
                forall|j: int| 0 <= j < i ==> (#[trigger] rfc3339_from_rfc2822(entries@[j].pub_date@)) is Some,
                forall|j: int|
                    0 <= j < i ==> fresh_video(
                        #[trigger] videos@[j],
                        entries@[j].title@,
                        entries@[j].link@,
                        rfc3339_from_rfc2822(entries@[j].pub_date@)->0,
                    ),
            decreases entries.len() - i,
        {
            match entries[i].to_internal_video() {
                Some(v) => videos.push(v),
                None => {
                    assert(rfc3339_from_rfc2822(feed.channel.videos@[i as int].pub_date@) is None);
                    return None;
                },
            }
            i = i + 1;
        }
        Some(Feed { name: feed.channel.name.clone(), videos })
    }

    /// Takes in a feed downloaded from `url`: its videos, tied to the url
    /// and to the feed's name, are added unless already there, and the
    /// feed's name becomes the name.
    pub fn absorb(&mut self, url: &str, feed: Feed)
        ensures
            final(self).name@ == feed.name@,
            exists|ws: Seq<Video>|
                tagged(ws, feed.videos@, url@, feed.name@) && final(self).videos@ == added_videos(
                    old(self).videos@,
                    ws,
                ),
    {
        let ghost vs = feed.videos@;
        let name = feed.name;
        let mut input = feed.videos;
        let mut tagged_videos: Vec<Video> = Vec::new();
        let n: usize = input.len();
        let mut i: usize = 0;
        assert(vs.skip(0) =~= vs);
        while input.len() > 0
            invariant
                i <= n,
                n == vs.len(),
                input@ == vs.skip(i as int),
                tagged_videos@.len() == i,
                forall|j: int|
                    0 <= j < i ==> tagged_video(#[trigger] tagged_videos@[j], vs[j], url@, name@),
            decreases input.len(),
        {
            let mut v = input.remove(0);
            assert(v == vs[i as int]);
            v.origin_url = String::from_str(url);
            v.origin_channel_name = name.clone();
            tagged_videos.push(v);
            i = i + 1;
            assert(input@ =~= vs.skip(i as int));
        }
        let ghost ws = tagged_videos@;
        self.add_videos(tagged_videos);
        self.set_name(name.as_str());
        assert(tagged(ws, vs, url@, name@));
    }

    /// Drops the videos whose titles the pattern finds; when a search fails
    /// the feed stays as it was and the result is false.
    pub fn filter_videos(&mut self, pattern: &str) -> (ok: bool)
        ensures
            final(self).name == old(self).name,
            ok == (unblocked(old(self).videos@, pattern@) is Some),
            ok ==> final(self).videos@ == unblocked(old(self).videos@, pattern@)->0,
            !ok ==> final(self).videos == old(self).videos,
    {
        let ghost vs = self.videos@;
        let mut kept: Vec<Video> = Vec::new();
        let mut i: usize = 0;
        assert(vs.take(0) =~= Seq::<Video>::empty());
        while i < self.videos.len()
            invariant
                i <= self.videos@.len(),
                vs == self.videos@,
                unblocked(vs.take(i as int), pattern@) == Some(kept@),
            decreases self.videos.len() - i,
        {
            assert(vs.take(i + 1).drop_last() =~= vs.take(i as int));
            assert(vs.take(i + 1).last() == vs[i as int]);
            match regex_search(pattern, self.videos[i].title.as_str()) {
                None => {
                    proof {
                        lemma_unblocked_fails(vs, pattern@, i + 1);
                    }
                    return false;
                },
                Some(true) => {},
                Some(false) => {
                    kept.push(self.videos[i].clone());
                },
            }
            i = i + 1;
        }
        assert(vs.take(i as int) =~= vs);
        self.videos = kept;
        true
    }
}

/// A search that fails on a prefix fails on the whole.
proof fn lemma_unblocked_fails(vs: Seq<Video>, pattern: Seq<char>, m: int)
    requires
        0 <= m <= vs.len(),
        unblocked(vs.take(m), pattern) is None,
    ensures
        unblocked(vs, pattern) is None,
    decreases vs.len() - m,
{
    if m < vs.len() {
        assert(vs.take(m + 1).drop_last() =~= vs.take(m));
        lemma_unblocked_fails(vs, pattern, m + 1);
    } else {
        assert(vs.take(m) =~= vs);
    }
}

proof fn lemma_added_is_merged(vs: Seq<Video>, news: Seq<Video>)
    ensures
        added_videos(vs, news) == merged_videos(vs, news),
    decreases news.len(),
{
    if news.len() > 0 {
        lemma_added_is_merged(vs, news.drop_last());
    }
}

/// Adding videos to a feed loses none that was there, and each added video
/// is there afterwards, or one with the same link; so feeds combined into
/// one channel keep every video of each.
pub proof fn law_added_videos_keep_all(vs: Seq<Video>, news: Seq<Video>)
    ensures
        forall|x: Video| vs.contains(x) ==> #[trigger] added_videos(vs, news).contains(x),
        forall|i: int| 0 <= i < news.len() ==> contains_video(added_videos(vs, news), #[trigger] news[i]),
{
    lemma_added_is_merged(vs, news);
    lemma_merged_videos(vs, news);
}

/// The videos that survive a block pattern are those of the feed, in
/// order, whose titles the pattern does not find; none it finds is left.
pub proof fn law_blocked_titles_are_gone(vs: Seq<Video>, pattern: Seq<char>)
    ensures
        unblocked(vs, pattern) matches Some(r) ==> {
            &&& r.len() <= vs.len()
            &&& forall|i: int| 0 <= i < r.len() ==> regex_finds(pattern, (#[trigger] r[i]).title@) == Some(false)
            &&& forall|i: int| 0 <= i < r.len() ==> vs.contains(#[trigger] r[i])
        },
    decreases vs.len(),
{
    if vs.len() > 0 {
        let t = vs.drop_last();
        law_blocked_titles_are_gone(t, pattern);
        match unblocked(t, pattern) {
            Some(r0) => {
                assert forall|i: int| 0 <= i < r0.len() implies vs.contains(#[trigger] r0[i]) by {
                    let j = choose|j: int| 0 <= j < t.len() && t[j] == r0[i];
                    assert(vs[j] == t[j]);
                }
                assert(vs[vs.len() - 1] == vs.last());
            },
            None => {},
        }
    }
}

} // verus!
