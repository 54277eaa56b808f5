use vstd::prelude::*;
use crate::channel::{built_videos, clone_videos, sorted_videos, Channel};
use crate::channel_list::{has_id, ChannelList};
use crate::feed::{regex_finds, regex_search, unblocked, Feed};
use crate::seq_util::{first_index, lemma_first_index};
use crate::types::{FetchState, SortingMethodVideos};
use crate::video::Video;

verus! {

/// The name of a fetched channel: the subscription's, else the feed's,
/// else the one known from before.
pub open spec fn chosen_name(item: Seq<char>, feed: Seq<char>, known: Seq<char>) -> Seq<char> {
    if item.len() > 0 {
        item
    } else if feed.len() > 0 {
        feed
    } else {
        known
    }
}

pub fn choose_name(item_name: &str, feed_name: &str, known_name: &str) -> (r: String)
    ensures
        r@ == chosen_name(item_name@, feed_name@, known_name@),
{
    if !item_name.is_empty() {
        String::from_str(item_name)
    } else if !feed_name.is_empty() {
        String::from_str(feed_name)
    } else {
        String::from_str(known_name)
    }
}

/// The state reported when the fetching of a channel starts: loading,
/// for a channel with an id.
pub fn start_state(id: &str) -> (r: Option<FetchState>)
    ensures
        id@.len() > 0 ==> r == Some(FetchState::Loading),
        id@.len() == 0 ==> r is None,
{
    if id.is_empty() {
        None
    } else {
        Some(FetchState::Loading)
    }
}

/// The state reported when the fetching of a channel is done.
pub fn end_state(num_failed: usize) -> (s: FetchState)
    ensures
        num_failed > 0 ==> s == FetchState::DownloadsFailure(num_failed),
        num_failed == 0 ==> s == FetchState::Fetched,
{
    if num_failed > 0 {
        FetchState::DownloadsFailure(num_failed)
    } else {
        FetchState::Fetched
    }
}

/// The videos and the name known of the channel with the id: those of the
/// first shown channel of the list with it, else none.
pub open spec fn known_of(history: ChannelList, id: Seq<char>) -> (Seq<Video>, Seq<char>) {
    match first_index(history.shown_channels(), has_id(id)) {
        Some(p) => (history.shown_channels()[p].videos, history.shown_channels()[p].name),
        None => (Seq::empty(), Seq::empty()),
    }
}

/// The fetched videos that go into the channel: none while the
/// subscription is not active, else those of the feed that the block
/// pattern, if any, does not find; none at all when a search fails.
pub open spec fn incoming(feed: Seq<Video>, active: bool, block: Option<Seq<char>>) -> Option<Seq<Video>> {
    if !active {
        Some(Seq::empty())
    } else {
        match block {
            Some(p) => unblocked(feed, p),
            None => Some(feed),
        }
    }
}

/// The pattern's text, if there is one.
pub open spec fn pattern_view(block: Option<String>) -> Option<Seq<char>> {
    match block {
        Some(p) => Some(p@),
        None => None,
    }
}

/// The channel that a subscription gives after its feed was downloaded:
/// the videos known from `history` updated by the incoming ones and
/// ordered as the subscription asks, with the chosen name and the
/// subscription's id and tag. None when a search of the block pattern
/// fails.
pub fn fetched_channel(
    history: &ChannelList,
    id: &str,
    item_name: &str,
    tag: &str,
    sorting: SortingMethodVideos,
    active: bool,
    block_regex: &Option<String>,
    feed: Feed,
) -> (r: Option<Channel>)
    ensures
        match incoming(feed.videos@, active, pattern_view(*block_regex)) {
            None => r is None,
            Some(news) => r matches Some(c) && {
                &&& c.name@ == chosen_name(item_name@, feed.name@, known_of(*history, id@).1)
                &&& c.id@ == id@
                &&& c.tag@ == tag@
                &&& c.sorting_method == sorting
                &&& c.selected is None
                &&& c.fetch_state == FetchState::Scheduled
                &&& c.videos@ == sorted_videos(built_videos(known_of(*history, id@).0, news), sorting)
            },
        },
{
    proof {
        lemma_first_index(history.shown_channels(), has_id(id@));
    }
    let (known_videos, known_name) = match history.get_by_id(id) {
        Some(h) => (clone_videos(&h.videos), h.name.clone()),
        None => (Vec::new(), String::new()),
    };
    let name = choose_name(item_name, feed.name.as_str(), known_name.as_str());
    let mut builder = Channel::builder();
    if active {
        let mut feed = feed;
        match block_regex {
            Some(pattern) => {
                if !feed.filter_videos(pattern.as_str()) {
                    return None;
                }
            },
            None => {},
        }
        builder = builder.add_from_feed(feed);
    }
    let builder = builder.with_old_videos(known_videos).with_name(name).with_id(
        String::from_str(id),
    ).with_tag(String::from_str(tag)).with_sorting(sorting);
    Some(builder.build())
}

/// The video with the crowd's title, where one was found.
pub open spec fn retitled(v: Video, t: Option<String>) -> Video {
    match t {
        Some(x) => Video { title: x, ..v },
        None => v,
    }
}

/// The crowd's title for the `i`-th video, if one was found.
pub open spec fn title_at(ts: Seq<Option<String>>, i: int) -> Option<String> {
    if 0 <= i < ts.len() {
        ts[i]
    } else {
        None
    }
}

/// Every video with the crowd's title where one was found.
pub open spec fn all_retitled(vs: Seq<Video>, ts: Seq<Option<String>>) -> Seq<Video> {
    Seq::new(vs.len(), |i: int| retitled(vs[i], title_at(ts, i)))
}

/// The videos whose original titles the pattern does not find, in order,
/// each with the crowd's title where one was found; none when a search
/// fails.
pub open spec fn unblocked_retitled(vs: Seq<Video>, ts: Seq<Option<String>>, pattern: Seq<char>) -> Option<Seq<Video>>
    decreases vs.len(),
{
    if vs.len() == 0 {
        Some(Seq::empty())
    } else {
        match unblocked_retitled(vs.drop_last(), ts, pattern) {
            None => None,
            Some(r) => match regex_finds(pattern, vs.last().title@) {
                None => None,
                Some(true) => Some(r),
                Some(false) => Some(r.push(retitled(vs.last(), title_at(ts, vs.len() - 1)))),
            },
        }
    }
}

/// The fetched videos that go into the channel, with the crowd's titles:
/// as `incoming`, the block pattern matched against the original titles.
pub open spec fn incoming_retitled(
    feed: Seq<Video>,
    ts: Seq<Option<String>>,
    active: bool,
    block: Option<Seq<char>>,
) -> Option<Seq<Video>> {
    if !active {
        Some(Seq::empty())
    } else {
        match block {
            Some(p) => unblocked_retitled(feed, ts, p),
            None => Some(all_retitled(feed, ts)),
        }
    }
}

proof fn lemma_unblocked_retitled_fails(vs: Seq<Video>, ts: Seq<Option<String>>, pattern: Seq<char>, m: int)
    requires
        0 <= m <= vs.len(),
        unblocked_retitled(vs.take(m), ts, pattern) is None,
    ensures
        unblocked_retitled(vs, ts, pattern) is None,
    decreases vs.len() - m,
{
    if m < vs.len() {
        assert(vs.take(m + 1).drop_last() =~= vs.take(m));
        lemma_unblocked_retitled_fails(vs, ts, pattern, m + 1);
    } else {
        assert(vs.take(m) =~= vs);
    }
}

/// Without a block pattern, an active subscription lets every video of
/// the feed in, in the feed's order, and the `i`-th takes the crowd's title
/// at position `i` where one was found; it keeps everything else, and its
/// own title where no crowd title was found. An inactive subscription lets
/// none in.
pub proof fn law_crowd_titles_without_pattern(feed: Seq<Video>, ts: Seq<Option<String>>)
    ensures
        incoming_retitled(feed, ts, true, None) is Some,
        incoming_retitled(feed, ts, true, None)->0.len() == feed.len(),
        forall|i: int|
            0 <= i < feed.len() && i < ts.len() && ts[i] is Some ==> (#[trigger] incoming_retitled(
                feed,
                ts,
                true,
                None,
            )->0[i]).title == ts[i]->0,
        forall|i: int|
            0 <= i < feed.len() && !(i < ts.len() && ts[i] is Some) ==> #[trigger] incoming_retitled(
                feed,
                ts,
                true,
                None,
            )->0[i] == feed[i],
        forall|i: int|
            0 <= i < feed.len() ==> (Video {
                title: feed[i].title,
                ..#[trigger] incoming_retitled(feed, ts, true, None)->0[i]
            }) == feed[i],
        forall|block: Option<Seq<char>>| #[trigger] incoming_retitled(feed, ts, false, block)
            == Some(Seq::<Video>::empty()),
{
}

/// `v` is a video of the feed whose original title the pattern does not
/// find, with the crowd's title at its position where one was found.
pub open spec fn kept_retitled(feed: Seq<Video>, ts: Seq<Option<String>>, p: Seq<char>, v: Video) -> bool {
    exists|i: int|
        0 <= i < feed.len() && regex_finds(p, #[trigger] feed[i].title@) == Some(false) && v == retitled(
            feed[i],
            title_at(ts, i),
        )
}

/// With a block pattern, each video let in is a video of the feed whose
/// original title the pattern does not find, with the crowd's title at
/// that video's position where one was found.
pub proof fn law_crowd_titles_with_pattern(feed: Seq<Video>, ts: Seq<Option<String>>, p: Seq<char>)
    ensures
        incoming_retitled(feed, ts, true, Some(p)) matches Some(r) ==> forall|k: int|
            0 <= k < r.len() ==> kept_retitled(feed, ts, p, #[trigger] r[k]),
    decreases feed.len(),
{
    if feed.len() > 0 {
        let t = feed.drop_last();
        law_crowd_titles_with_pattern(t, ts, p);
        match unblocked_retitled(t, ts, p) {
            None => {},
            Some(r0) => {
                match unblocked_retitled(feed, ts, p) {
                    None => {},
                    Some(r) => {
                        assert forall|k: int| 0 <= k < r.len() implies kept_retitled(feed, ts, p, #[trigger] r[k]) by {
                            if k < r0.len() {
                                assert(r[k] == r0[k]);
                                assert(kept_retitled(t, ts, p, r0[k]));
                                let i = choose|i: int|
                                    0 <= i < t.len() && regex_finds(p, #[trigger] t[i].title@) == Some(false)
                                        && r0[k] == retitled(t[i], title_at(ts, i));
                                assert(t[i] == feed[i]);
                            } else {
                                let n = feed.len() - 1;
                                assert(r[k] == retitled(feed[n], title_at(ts, n)));
                                assert(regex_finds(p, feed[n].title@) == Some(false));
                            }
                        }
                    },
                }
            },
        }
    }
}

/// The videos of the feed that go into the channel, each with the crowd's
/// title where `titles` has one at its position.
fn incoming_videos(
    feed: &Feed,
    active: bool,
    block_regex: &Option<String>,
    titles: &Vec<Option<String>>,
) -> (r: Option<Vec<Video>>)
    ensures
        match incoming_retitled(feed.videos@, titles@, active, pattern_view(*block_regex)) {
            None => r is None,
            Some(news) => r matches Some(v) && v@ == news,
        },
{
    let mut kept: Vec<Video> = Vec::new();
    if !active {
        return Some(kept);
    }
    let ghost vs = feed.videos@;
    let ghost ts = titles@;
    let ghost pv = pattern_view(*block_regex);
    let mut i: usize = 0;
    assert(vs.take(0) =~= Seq::<Video>::empty());
    assert(all_retitled(vs.take(0), ts) =~= Seq::<Video>::empty());
    while i < feed.videos.len()
        invariant
            i <= feed.videos@.len(),
            vs == feed.videos@,
            ts == titles@,
            pv == pattern_view(*block_regex),
            active,
            incoming_retitled(vs.take(i as int), ts, true, pv) == Some(kept@),
        decreases feed.videos.len() - i,
    {
        assert(vs.take(i + 1).drop_last() =~= vs.take(i as int));
        assert(vs.take(i + 1).last() == vs[i as int]);
        let blocked = match block_regex {
            Some(pattern) => match regex_search(pattern.as_str(), feed.videos[i].title.as_str()) {
                Some(b) => b,
                None => {
                    proof {
                        lemma_unblocked_retitled_fails(vs, ts, pattern@, i + 1);
                    }
                    return None;
                },
            },
            None => false,
        };
        if !blocked {
            let mut v = feed.videos[i].clone();
            if i < titles.len() {
                match &titles[i] {
                    Some(t) => {
                        v.title = t.clone();
                    },
                    None => {},
                }
            }
            assert(v == retitled(vs[i as int], title_at(ts, i as int)));
            kept.push(v);
        }
        proof {
            if pv is None {
                assert(all_retitled(vs.take(i + 1), ts) =~= all_retitled(vs.take(i as int), ts).push(
                    retitled(vs[i as int], title_at(ts, i as int)),
                ));
            }
        }
        i = i + 1;
    }
    assert(vs.take(i as int) =~= vs);
    Some(kept)
}

/// The channel that a subscription gives after its feed was downloaded,
/// with the crowd's titles: as `fetched_channel`, but each incoming video
/// takes the title that `titles` has at its position in the feed, where
/// it has one. The block pattern is matched against the original titles.
pub fn fetched_channel_with_titles(
    history: &ChannelList,
    id: &str,
    item_name: &str,
    tag: &str,
    sorting: SortingMethodVideos,
    active: bool,
    block_regex: &Option<String>,
    feed: Feed,
    titles: &Vec<Option<String>>,
) -> (r: Option<Channel>)
    ensures
        match incoming_retitled(feed.videos@, titles@, active, pattern_view(*block_regex)) {
            None => r is None,
            Some(news) => r matches Some(c) && {
                &&& c.name@ == chosen_name(item_name@, feed.name@, known_of(*history, id@).1)
                &&& c.id@ == id@
                &&& c.tag@ == tag@
                &&& c.sorting_method == sorting
                &&& c.selected is None
                &&& c.fetch_state == FetchState::Scheduled
                &&& c.videos@ == sorted_videos(built_videos(known_of(*history, id@).0, news), sorting)
            },
        },
{
    proof {
        lemma_first_index(history.shown_channels(), has_id(id@));
    }
    let news = match incoming_videos(&feed, active, block_regex, titles) {
        Some(v) => v,
        None => return None,
    };
    let (known_videos, known_name) = match history.get_by_id(id) {
        Some(h) => (clone_videos(&h.videos), h.name.clone()),
        None => (Vec::new(), String::new()),
    };
    let name = choose_name(item_name, feed.name.as_str(), known_name.as_str());
    let news_feed = Feed { name: feed.name, videos: news };
    let builder = Channel::builder().add_from_feed(news_feed).with_old_videos(known_videos).with_name(
        name,
    ).with_id(String::from_str(id)).with_tag(String::from_str(tag)).with_sorting(sorting);
    Some(builder.build())
}

/// The title that the crowd gave a video: the first one offered, unless
/// it has no votes.
pub fn best_title(titles: &Vec<(String, usize)>) -> (r: Option<String>)
    ensures
        titles@.len() == 0 ==> r is None,
        titles@.len() > 0 && titles@[0].1 == 0 ==> r is None,
        titles@.len() > 0 && titles@[0].1 > 0 ==> (r matches Some(t) && t@ == titles@[0].0@),
{
    if titles.len() == 0 {
        return None;
    }
    if titles[0].1 == 0 {
        None
    } else {
        Some(titles[0].0.clone())
    }
}

/// Where the crowd's titles of the video are asked for.
pub fn dearrow_url(video_id: &str) -> (r: String)
    ensures
        r@ == "https://sponsor.ajay.app/api/branding/?videoID="@ + video_id@,
{
    let prefix = String::from_str("https://sponsor.ajay.app/api/branding/?videoID=");
    proof {
        reveal_strlit("https://sponsor.ajay.app/api/branding/?videoID=");
    }
    prefix.concat(video_id)
}

} // verus!
