use vstd::prelude::*;
use crate::channel::{contains_video, same_channel, has_new_video, law_merge_keeps_videos, merge_into, next_selection, prev_selection, Channel, ChannelView};
use crate::seq_util::{first_index, lemma_first_index, lemma_first_index_at, lemma_first_index_none, lemma_sorted_by_map};
use crate::sort::{lemma_sorted_by_contains, lemma_sorted_by_len, sort_by_le, sorted_by};
use crate::text::{lex_le, lowercase, str_eq, str_le, to_lowercase, to_uppercase, uppercase};
use crate::subscriptions::{ChannelSubscription, CustomChannelSubscription, Subscriptions, subscribes};
use crate::types::{FetchState, Filter, SortingMethodChannels, SortingMethodVideos};
use crate::video::{same_video, Video};

verus! {

/// All channels, the selection among those shown, and which are shown.
#[derive(Debug)]
pub struct ChannelList {
    pub channels: Vec<Channel>,
    pub selected: Option<usize>,
    pub filter: Filter,
}

/// The value of a channel list: all channels, the selection among the
/// shown ones, and the filter.
pub struct ListState {
    pub channels: Seq<ChannelView>,
    pub selected: Option<usize>,
    pub filter: Filter,
}

impl View for ChannelList {
    type V = ListState;

    open spec fn view(&self) -> ListState {
        ListState { channels: views(self.channels@), selected: self.selected, filter: self.filter }
    }
}

/// The position among all channels of the `i`-th shown one.
pub open spec fn shown_position(l: ListState, i: int) -> Option<int> {
    let ix = visible_indices(l.channels, l.filter);
    if 0 <= i < ix.len() {
        Some(ix[i])
    } else {
        None
    }
}

/// The position among all channels of the selected one.
pub open spec fn selected_pos(l: ListState) -> Option<int> {
    match l.selected {
        Some(i) => shown_position(l, i as int),
        None => None,
    }
}

/// The list with the channel at position `k` replaced.
pub open spec fn with_channel(l: ListState, k: int, c: ChannelView) -> ListState {
    ListState { channels: l.channels.update(k, c), ..l }
}

/// The channels that have a video not yet marked.
pub open spec fn not_empty_channels(cs: Seq<ChannelView>) -> Seq<ChannelView>
    decreases cs.len(),
{
    if cs.len() == 0 {
        Seq::empty()
    } else {
        let r = not_empty_channels(cs.drop_last());
        if has_new_video(cs.last().videos) {
            r.push(cs.last())
        } else {
            r
        }
    }
}

/// Both lists hold, one by one, the same channels.
pub open spec fn same_channels(a: Seq<ChannelView>, b: Seq<ChannelView>) -> bool {
    &&& a.len() == b.len()
    &&& forall|i: int| 0 <= i < a.len() ==> same_channel(#[trigger] a[i], b[i])
}

impl PartialEq for ChannelList {
    fn eq(&self, other: &Self) -> (r: bool) {
        if self.channels.len() != other.channels.len() {
            return false;
        }
        let mut i: usize = 0;
        while i < self.channels.len()
            invariant
                i <= self.channels.len(),
                self.channels@.len() == other.channels@.len(),
                forall|k: int| 0 <= k < i ==> same_channel(#[trigger] self.all()[k], other.all()[k]),
            decreases self.channels.len() - i,
        {
            assert(self.all()[i as int] == self.channels@[i as int]@);
            assert(other.all()[i as int] == other.channels@[i as int]@);
            if !(self.channels[i] == other.channels[i]) {
                return false;
            }
            i = i + 1;
        }
        true
    }
}

impl vstd::std_specs::cmp::PartialEqSpecImpl for ChannelList {
    open spec fn obeys_eq_spec() -> bool {
        true
    }

    open spec fn eq_spec(&self, other: &Self) -> bool {
        same_channels(self.all(), other.all())
    }
}

/// The channel is shown under `f`: always without filter, else only while
/// it has a video that is not marked.
pub open spec fn shown(c: ChannelView, f: Filter) -> bool {
    f == Filter::NoFilter || has_new_video(c.videos)
}

/// The positions, in order, of the channels of `cs` shown under `f`.
pub open spec fn visible_indices(cs: Seq<ChannelView>, f: Filter) -> Seq<int>
    decreases cs.len(),
{
    if cs.len() == 0 {
        Seq::empty()
    } else {
        let r = visible_indices(cs.drop_last(), f);
        if shown(cs.last(), f) {
            r.push(cs.len() - 1)
        } else {
            r
        }
    }
}

/// The values of the channels.
pub open spec fn views(cs: Seq<Channel>) -> Seq<ChannelView> {
    cs.map_values(|c: Channel| c@)
}

/// The channel has the id.
pub open spec fn has_id(id: Seq<char>) -> spec_fn(ChannelView) -> bool {
    |c: ChannelView| c.id == id
}

/// The selection `i` kept within a list of `len` entries.
pub open spec fn clamp_selection(i: Option<usize>, len: nat) -> Option<usize> {
    match i {
        None => None,
        Some(k) => if len == 0 {
            None
        } else if k < len {
            Some(k)
        } else {
            Some((len - 1) as usize)
        },
    }
}

/// The text by which channels are ordered.
pub open spec fn channel_key(c: ChannelView, m: SortingMethodChannels) -> Seq<char> {
    match m {
        SortingMethodChannels::AlphaNumeric => lowercase(c.name),
        SortingMethodChannels::ByTag => if c.tag.len() == 0 {
            lowercase(c.name)
        } else {
            uppercase(c.tag) + uppercase(c.name)
        },
    }
}

/// Channels ordered by their keys.
pub open spec fn channel_order(m: SortingMethodChannels) -> spec_fn(ChannelView, ChannelView) -> bool {
    |a: ChannelView, b: ChannelView| lex_le(channel_key(a, m), channel_key(b, m))
}

/// The channels after `u` was merged in: into the channel with the same id
/// when there is one, else added at the end; then ordered.
pub open spec fn updated_channels(
    cs: Seq<ChannelView>,
    u: ChannelView,
    m: SortingMethodChannels,
) -> Seq<ChannelView> {
    let merged = match first_index(cs, has_id(u.id)) {
        Some(p) => cs.update(p, merge_into(cs[p], u.videos)),
        None => cs.push(u),
    };
    sorted_by(merged, channel_order(m))
}

/// The channels that some subscription still names, in order.
pub open spec fn kept_channels(cs: Seq<ChannelView>, subs: Subscriptions) -> Seq<ChannelView>
    decreases cs.len(),
{
    if cs.len() == 0 {
        Seq::empty()
    } else {
        let r = kept_channels(cs.drop_last(), subs);
        if subscribes(subs, cs.last().id) {
            r.push(cs.last())
        } else {
            r
        }
    }
}

/// The channel is shown under `f` and has the id.
pub open spec fn shown_with_id(f: Filter, id: Seq<char>) -> spec_fn(ChannelView) -> bool {
    |c: ChannelView| shown(c, f) && c.id == id
}

/// The values of texts.
pub open spec fn text_views(ts: Seq<String>) -> Seq<Seq<char>> {
    ts.map_values(|t: String| t@)
}

/// The videos, in order, that came from one of the urls.
pub open spec fn videos_from_urls(vs: Seq<Video>, urls: Seq<Seq<char>>) -> Seq<Video>
    decreases vs.len(),
{
    if vs.len() == 0 {
        Seq::empty()
    } else {
        let r = videos_from_urls(vs.drop_last(), urls);
        if urls.contains(vs.last().origin_url@) {
            r.push(vs.last())
        } else {
            r
        }
    }
}

/// For each custom channel in turn, the first shown channel with its id
/// keeps only the videos that came from the custom channel's urls.
pub open spec fn pruned_channels(
    cs: Seq<ChannelView>,
    f: Filter,
    customs: Seq<CustomChannelSubscription>,
) -> Seq<ChannelView>
    decreases customs.len(),
{
    if customs.len() == 0 {
        cs
    } else {
        let m = pruned_channels(cs, f, customs.drop_last());
        let c = customs.last();
        match first_index(m, shown_with_id(f, c.name@)) {
            Some(k) => m.update(
                k,
                ChannelView { videos: videos_from_urls(m[k].videos, text_views(c.urls@)), ..m[k] },
            ),
            None => m,
        }
    }
}

/// The channel after taking over a subscription's name (unless empty), tag
/// and ordering of videos.
pub open spec fn renamed(
    c: ChannelView,
    name: Seq<char>,
    tag: Seq<char>,
    sorting: SortingMethodVideos,
) -> ChannelView {
    ChannelView {
        name: if name.len() == 0 { c.name } else { name },
        tag: tag,
        sorting_method: sorting,
        ..c
    }
}

/// For each channel subscription in turn, the first shown channel with its
/// url takes over its name, tag and ordering.
pub open spec fn renamed_by_channels(
    cs: Seq<ChannelView>,
    f: Filter,
    subs: Seq<ChannelSubscription>,
) -> Seq<ChannelView>
    decreases subs.len(),
{
    if subs.len() == 0 {
        cs
    } else {
        let m = renamed_by_channels(cs, f, subs.drop_last());
        let s = subs.last();
        match first_index(m, shown_with_id(f, s.url@)) {
            Some(k) => m.update(k, renamed(m[k], s.name@, s.tag@, s.sort_by)),
            None => m,
        }
    }
}

/// For each custom channel subscription in turn, the first shown channel
/// with its name takes over its name, tag and ordering.
pub open spec fn renamed_by_customs(
    cs: Seq<ChannelView>,
    f: Filter,
    subs: Seq<CustomChannelSubscription>,
) -> Seq<ChannelView>
    decreases subs.len(),
{
    if subs.len() == 0 {
        cs
    } else {
        let m = renamed_by_customs(cs, f, subs.drop_last());
        let s = subs.last();
        match first_index(m, shown_with_id(f, s.name@)) {
            Some(k) => m.update(k, renamed(m[k], s.name@, s.tag@, s.sort_by)),
            None => m,
        }
    }
}

/// Position `k` holds the first channel of `cs` that is shown under `f`
/// and has the id.
pub open spec fn first_shown_with_id(cs: Seq<ChannelView>, f: Filter, id: Seq<char>, k: int) -> bool {
    &&& 0 <= k < cs.len()
    &&& shown_with_id(f, id)(cs[k])
    &&& forall|j: int| 0 <= j < k ==> !shown_with_id(f, id)(#[trigger] cs[j])
}

proof fn lemma_customs_keep(cs: Seq<ChannelView>, f: Filter, subs: Seq<CustomChannelSubscription>)
    ensures
        renamed_by_customs(cs, f, subs).len() == cs.len(),
        forall|k: int|
            0 <= k < cs.len() ==> (#[trigger] renamed_by_customs(cs, f, subs)[k]).id == cs[k].id
                && renamed_by_customs(cs, f, subs)[k].videos == cs[k].videos,
    decreases subs.len(),
{
    if subs.len() > 0 {
        let m = renamed_by_customs(cs, f, subs.drop_last());
        lemma_customs_keep(cs, f, subs.drop_last());
        lemma_first_index(m, shown_with_id(f, subs.last().name@));
    }
}

/// Applying the custom channel subscriptions gives the first shown channel
/// whose id is a subscription's name that subscription's tag and ordering,
/// and its name unless that is empty; where several subscriptions share a
/// name, the last of them decides. Channels keep their ids and videos, so
/// which channels are shown does not change.
pub proof fn law_customs_take_tag(
    cs: Seq<ChannelView>,
    f: Filter,
    subs: Seq<CustomChannelSubscription>,
    i: int,
)
    requires
        0 <= i < subs.len(),
        forall|j: int| i < j < subs.len() ==> (#[trigger] subs[j]).name@ != subs[i].name@,
    ensures
        renamed_by_customs(cs, f, subs).len() == cs.len(),
        forall|k: int|
            #[trigger] first_shown_with_id(renamed_by_customs(cs, f, subs), f, subs[i].name@, k) ==> {
                let c = renamed_by_customs(cs, f, subs)[k];
                &&& c.tag == subs[i].tag@
                &&& c.sorting_method == subs[i].sort_by
                &&& subs[i].name@.len() > 0 ==> c.name == subs[i].name@
                &&& c.id == cs[k].id
                &&& c.videos == cs[k].videos
            },
    decreases subs.len(),
{
    lemma_customs_keep(cs, f, subs);
    let r = renamed_by_customs(cs, f, subs);
    let n = subs.len() - 1;
    let pre = subs.drop_last();
    let m = renamed_by_customs(cs, f, pre);
    let s = subs.last();
    let id = subs[i].name@;
    lemma_customs_keep(cs, f, pre);
    lemma_first_index(m, shown_with_id(f, s.name@));
    // the same channels are shown with the id before and after the last step
    assert forall|j: int| 0 <= j < r.len() implies shown_with_id(f, id)(#[trigger] r[j]) == shown_with_id(
        f,
        id,
    )(m[j]) by {
        assert(r[j].id == m[j].id && r[j].videos == m[j].videos);
    }
    if i < n {
        assert forall|j: int| i < j < pre.len() implies (#[trigger] pre[j]).name@ != pre[i].name@ by {
            assert(pre[j] == subs[j]);
        }
        assert(pre[i] == subs[i]);
        law_customs_take_tag(cs, f, pre, i);
    }
    assert forall|k: int| #[trigger] first_shown_with_id(r, f, id, k) implies {
        let c = r[k];
        &&& c.tag == subs[i].tag@
        &&& c.sorting_method == subs[i].sort_by
        &&& subs[i].name@.len() > 0 ==> c.name == subs[i].name@
        &&& c.id == cs[k].id
        &&& c.videos == cs[k].videos
    } by {
        assert forall|j: int| 0 <= j < k implies !shown_with_id(f, id)(#[trigger] m[j]) by {
            assert(!shown_with_id(f, id)(r[j]));
        }
        assert(first_shown_with_id(m, f, id, k));
        if i == n {
            match first_index(m, shown_with_id(f, s.name@)) {
                Some(q) => {
                    if q < k {
                        assert(!shown_with_id(f, id)(m[q]));
                    } else if q > k {
                        assert(shown_with_id(f, s.name@)(m[k]));
                    }
                },
                None => {
                    assert(shown_with_id(f, s.name@)(m[k]));
                },
            }
        } else {
            assert(subs[n].name@ != id);
            match first_index(m, shown_with_id(f, s.name@)) {
                Some(q) => {
                    assert(q != k);
                    assert(r[k] == m[k]);
                },
                None => {},
            }
        }
    }
}

proof fn lemma_channels_keep(cs: Seq<ChannelView>, f: Filter, subs: Seq<ChannelSubscription>)
    ensures
        renamed_by_channels(cs, f, subs).len() == cs.len(),
        forall|k: int|
            0 <= k < cs.len() ==> (#[trigger] renamed_by_channels(cs, f, subs)[k]).id == cs[k].id
                && renamed_by_channels(cs, f, subs)[k].videos == cs[k].videos,
    decreases subs.len(),
{
    if subs.len() > 0 {
        let m = renamed_by_channels(cs, f, subs.drop_last());
        lemma_channels_keep(cs, f, subs.drop_last());
        lemma_first_index(m, shown_with_id(f, subs.last().url@));
    }
}

/// Applying the channel subscriptions gives the first shown channel whose
/// id is a subscription's url that subscription's tag and ordering, and its
/// name unless that is empty; where several subscriptions share a url, the
/// last of them decides. Channels keep their ids and videos, so
/// which channels are shown does not change.
pub proof fn law_channels_take_tag(
    cs: Seq<ChannelView>,
    f: Filter,
    subs: Seq<ChannelSubscription>,
    i: int,
)
    requires
        0 <= i < subs.len(),
        forall|j: int| i < j < subs.len() ==> (#[trigger] subs[j]).url@ != subs[i].url@,
    ensures
        renamed_by_channels(cs, f, subs).len() == cs.len(),
        forall|k: int|
            #[trigger] first_shown_with_id(renamed_by_channels(cs, f, subs), f, subs[i].url@, k) ==> {
                let c = renamed_by_channels(cs, f, subs)[k];
                &&& c.tag == subs[i].tag@
                &&& c.sorting_method == subs[i].sort_by
                &&& subs[i].name@.len() > 0 ==> c.name == subs[i].name@
                &&& c.id == cs[k].id
                &&& c.videos == cs[k].videos
            },
    decreases subs.len(),
{
    lemma_channels_keep(cs, f, subs);
    let r = renamed_by_channels(cs, f, subs);
    let n = subs.len() - 1;
    let pre = subs.drop_last();
    let m = renamed_by_channels(cs, f, pre);
    let s = subs.last();
    let id = subs[i].url@;
    lemma_channels_keep(cs, f, pre);
    lemma_first_index(m, shown_with_id(f, s.url@));
    // the same channels are shown with the id before and after the last step
    assert forall|j: int| 0 <= j < r.len() implies shown_with_id(f, id)(#[trigger] r[j]) == shown_with_id(
        f,
        id,
    )(m[j]) by {
        assert(r[j].id == m[j].id && r[j].videos == m[j].videos);
    }
    if i < n {
        assert forall|j: int| i < j < pre.len() implies (#[trigger] pre[j]).url@ != pre[i].url@ by {
            assert(pre[j] == subs[j]);
        }
        assert(pre[i] == subs[i]);
        law_channels_take_tag(cs, f, pre, i);
    }
    assert forall|k: int| #[trigger] first_shown_with_id(r, f, id, k) implies {
        let c = r[k];
        &&& c.tag == subs[i].tag@
        &&& c.sorting_method == subs[i].sort_by
        &&& subs[i].name@.len() > 0 ==> c.name == subs[i].name@
        &&& c.id == cs[k].id
        &&& c.videos == cs[k].videos
    } by {
        assert forall|j: int| 0 <= j < k implies !shown_with_id(f, id)(#[trigger] m[j]) by {
            assert(!shown_with_id(f, id)(r[j]));
        }
        assert(first_shown_with_id(m, f, id, k));
        if i == n {
            match first_index(m, shown_with_id(f, s.url@)) {
                Some(q) => {
                    if q < k {
                        assert(!shown_with_id(f, id)(m[q]));
                    } else if q > k {
                        assert(shown_with_id(f, s.url@)(m[k]));
                    }
                },
                None => {
                    assert(shown_with_id(f, s.url@)(m[k]));
                },
            }
        } else {
            assert(subs[n].url@ != id);
            match first_index(m, shown_with_id(f, s.url@)) {
                Some(q) => {
                    assert(q != k);
                    assert(r[k] == m[k]);
                },
                None => {},
            }
        }
    }
}

/// The channels after the subscriptions were applied: channels no longer
/// subscribed to are dropped, custom channels lose the videos of urls they
/// no longer hold, and names, tags and orderings are taken over.
pub open spec fn subscribed_channels(
    cs: Seq<ChannelView>,
    f: Filter,
    subs: Subscriptions,
) -> Seq<ChannelView> {
    let pruned = pruned_channels(kept_channels(cs, subs), f, subs.custom_channels@);
    renamed_by_customs(renamed_by_channels(pruned, f, subs.channels@), f, subs.custom_channels@)
}

/// Whether one of the texts equals `t`.
pub fn texts_contain(ts: &Vec<String>, t: &str) -> (r: bool)
    ensures
        r == text_views(ts@).contains(t@),
{
    let mut i: usize = 0;
    while i < ts.len()
        invariant
            i <= ts.len(),
            forall|k: int| 0 <= k < i ==> (#[trigger] ts@[k])@ != t@,
        decreases ts.len() - i,
    {
        if str_eq(ts[i].as_str(), t) {
            assert(text_views(ts@)[i as int] == t@);
            return true;
        }
        i = i + 1;
    }
    proof {
        if text_views(ts@).contains(t@) {
            let k = choose|k: int| 0 <= k < text_views(ts@).len() && text_views(ts@)[k] == t@;
            assert(ts@[k]@ == t@);
        }
    }
    false
}

/// The videos, in order, that came from one of the urls.
pub fn retain_videos_from(videos: Vec<Video>, urls: &Vec<String>) -> (r: Vec<Video>)
    ensures
        r@ == videos_from_urls(videos@, text_views(urls@)),
{
    let ghost vs = videos@;
    let mut input = videos;
    let mut out: Vec<Video> = Vec::new();
    let n: usize = input.len();
    let mut i: usize = 0;
    assert(vs.take(0) =~= Seq::<Video>::empty());
    assert(vs.skip(0) =~= vs);
    while input.len() > 0
        invariant
            i <= n,
            n == vs.len(),
            input@ == vs.skip(i as int),
            out@ == videos_from_urls(vs.take(i as int), text_views(urls@)),
        decreases input.len(),
    {
        assert(i < n);
        let v = input.remove(0);
        proof {
            assert(vs.take(i + 1).drop_last() =~= vs.take(i as int));
            assert(vs.take(i + 1).last() == v);
        }
        if texts_contain(urls, v.origin_url.as_str()) {
            out.push(v);
        }
        i = i + 1;
        assert(input@ =~= vs.skip(i as int));
    }
    assert(vs.take(i as int) =~= vs);
    out
}

/// What holds of the visible positions: in range, increasing, shown, and
/// every shown channel among them.
pub proof fn lemma_visible_indices(cs: Seq<ChannelView>, f: Filter)
    ensures
        forall|j: int|
            0 <= j < visible_indices(cs, f).len() ==> {
                &&& 0 <= #[trigger] visible_indices(cs, f)[j] < cs.len()
                &&& shown(cs[visible_indices(cs, f)[j]], f)
            },
        forall|j1: int, j2: int|
            0 <= j1 < j2 < visible_indices(cs, f).len() ==> #[trigger] visible_indices(cs, f)[j1]
                < #[trigger] visible_indices(cs, f)[j2],
        forall|k: int|
            0 <= k < cs.len() && shown(#[trigger] cs[k], f) ==> exists|j: int|
                0 <= j < visible_indices(cs, f).len() && visible_indices(cs, f)[j] == k,
        visible_indices(cs, f).len() <= cs.len(),
    decreases cs.len(),
{
    if cs.len() > 0 {
        let t = cs.drop_last();
        lemma_visible_indices(t, f);
        let r = visible_indices(t, f);
        assert forall|j: int| 0 <= j < r.len() implies #[trigger] cs[r[j]] == t[r[j]] by {}
        if shown(cs.last(), f) {
            let rr = r.push(cs.len() - 1);
            assert forall|k: int| 0 <= k < cs.len() && shown(#[trigger] cs[k], f) implies exists|j: int|
                0 <= j < rr.len() && rr[j] == k by {
                if k == cs.len() - 1 {
                    assert(rr[r.len() as int] == k);
                } else {
                    assert(t[k] == cs[k]);
                    let j = choose|j: int| 0 <= j < r.len() && r[j] == k;
                    assert(rr[j] == k);
                }
            }
        } else {
            assert forall|k: int| 0 <= k < cs.len() && shown(#[trigger] cs[k], f) implies exists|j: int|
                0 <= j < r.len() && r[j] == k by {
                assert(t[k] == cs[k]);
            }
        }
    }
}

/// Which channels are shown depends on their videos alone.
pub proof fn lemma_visible_same_videos(cs1: Seq<ChannelView>, cs2: Seq<ChannelView>, f: Filter)
    requires
        cs1.len() == cs2.len(),
        forall|i: int| 0 <= i < cs1.len() ==> (#[trigger] cs1[i]).videos == cs2[i].videos,
    ensures
        visible_indices(cs1, f) == visible_indices(cs2, f),
    decreases cs1.len(),
{
    if cs1.len() > 0 {
        let t1 = cs1.drop_last();
        let t2 = cs2.drop_last();
        assert forall|i: int| 0 <= i < t1.len() implies (#[trigger] t1[i]).videos == t2[i].videos by {
            assert(t1[i] == cs1[i]);
            assert(t2[i] == cs2[i]);
        }
        lemma_visible_same_videos(t1, t2, f);
        assert(cs1.last().videos == cs2.last().videos);
    }
}

/// Lists whose channels are shown alike have the same visible positions.
pub proof fn lemma_visible_same_shown(cs1: Seq<ChannelView>, cs2: Seq<ChannelView>, f: Filter)
    requires
        cs1.len() == cs2.len(),
        forall|i: int| 0 <= i < cs1.len() ==> shown(#[trigger] cs1[i], f) == shown(cs2[i], f),
    ensures
        visible_indices(cs1, f) == visible_indices(cs2, f),
    decreases cs1.len(),
{
    if cs1.len() > 0 {
        let t1 = cs1.drop_last();
        let t2 = cs2.drop_last();
        assert forall|i: int| 0 <= i < t1.len() implies shown(#[trigger] t1[i], f) == shown(t2[i], f) by {
            assert(t1[i] == cs1[i]);
            assert(t2[i] == cs2[i]);
        }
        lemma_visible_same_shown(t1, t2, f);
        assert(shown(cs1[cs1.len() - 1], f) == shown(cs2[cs1.len() - 1], f));
    }
}

/// Without filter every channel is shown; with the filter for new videos,
/// as many channels as have a video not yet marked.
pub proof fn law_filter_counts(cs: Seq<ChannelView>)
    ensures
        visible_indices(cs, Filter::NoFilter).len() == cs.len(),
        visible_indices(cs, Filter::OnlyNew).len() == not_empty_channels(cs).len(),
    decreases cs.len(),
{
    if cs.len() > 0 {
        law_filter_counts(cs.drop_last());
    }
}

/// After a fetched channel was merged in, a channel with its id is there;
/// it holds each video of the fetched channel, or one with the same link,
/// and each video that the known channel with that id held. The number of
/// channels grows by one only when no channel had that id.
pub proof fn law_update_keeps_videos(cs: Seq<ChannelView>, u: ChannelView, m: SortingMethodChannels)
    ensures
        exists|p: int|
            0 <= p < updated_channels(cs, u, m).len() && {
                let c = #[trigger] updated_channels(cs, u, m)[p];
                &&& c.id == u.id
                &&& forall|i: int| 0 <= i < u.videos.len() ==> contains_video(c.videos, #[trigger] u.videos[i])
                &&& first_index(cs, has_id(u.id)) matches Some(q) ==> forall|i: int|
                    0 <= i < cs[q].videos.len() ==> c.videos.contains(#[trigger] cs[q].videos[i])
            },
        updated_channels(cs, u, m).len() == (if first_index(cs, has_id(u.id)) is Some {
            cs.len()
        } else {
            cs.len() + 1
        }),
{
    lemma_first_index(cs, has_id(u.id));
    let merged = match first_index(cs, has_id(u.id)) {
        Some(q) => cs.update(q, merge_into(cs[q], u.videos)),
        None => cs.push(u),
    };
    let e = match first_index(cs, has_id(u.id)) {
        Some(q) => merge_into(cs[q], u.videos),
        None => u,
    };
    let r = updated_channels(cs, u, m);
    lemma_sorted_by_len(merged, channel_order(m));
    match first_index(cs, has_id(u.id)) {
        Some(q) => {
            assert(merged[q] == e);
            law_merge_keeps_videos(cs[q], u.videos);
        },
        None => {
            assert(merged[cs.len() as int] == e);
            assert forall|i: int| 0 <= i < u.videos.len() implies contains_video(u.videos, #[trigger] u.videos[i]) by {
                assert(same_video(u.videos[i], u.videos[i]));
            }
        },
    }
    assert(merged.contains(e));
    lemma_sorted_by_contains(merged, channel_order(m), e);
    let p = choose|p: int| 0 <= p < r.len() && r[p] == e;
    assert(r[p] == e);
}

/// The channels kept are all subscribed to, and no more than there were.
proof fn lemma_kept_subscribed(cs: Seq<ChannelView>, subs: Subscriptions)
    ensures
        kept_channels(cs, subs).len() <= cs.len(),
        forall|i: int|
            0 <= i < kept_channels(cs, subs).len() ==> subscribes(subs, #[trigger] kept_channels(cs, subs)[i].id),
    decreases cs.len(),
{
    if cs.len() > 0 {
        lemma_kept_subscribed(cs.drop_last(), subs);
    }
}

/// Pruning keeps the channels and their ids.
proof fn lemma_pruned_ids(cs: Seq<ChannelView>, f: Filter, customs: Seq<CustomChannelSubscription>)
    ensures
        pruned_channels(cs, f, customs).len() == cs.len(),
        forall|i: int| 0 <= i < cs.len() ==> (#[trigger] pruned_channels(cs, f, customs)[i]).id == cs[i].id,
    decreases customs.len(),
{
    if customs.len() > 0 {
        lemma_pruned_ids(cs, f, customs.drop_last());
        let m = pruned_channels(cs, f, customs.drop_last());
        lemma_first_index(m, shown_with_id(f, customs.last().name@));
    }
}

/// Taking over the channel subscriptions keeps the channels and their ids.
proof fn lemma_renamed_by_channels_ids(cs: Seq<ChannelView>, f: Filter, subs: Seq<ChannelSubscription>)
    ensures
        renamed_by_channels(cs, f, subs).len() == cs.len(),
        forall|i: int| 0 <= i < cs.len() ==> (#[trigger] renamed_by_channels(cs, f, subs)[i]).id == cs[i].id,
    decreases subs.len(),
{
    if subs.len() > 0 {
        lemma_renamed_by_channels_ids(cs, f, subs.drop_last());
        let m = renamed_by_channels(cs, f, subs.drop_last());
        lemma_first_index(m, shown_with_id(f, subs.last().url@));
    }
}

/// Taking over the custom subscriptions keeps the channels and their ids.
proof fn lemma_renamed_by_customs_ids(cs: Seq<ChannelView>, f: Filter, subs: Seq<CustomChannelSubscription>)
    ensures
        renamed_by_customs(cs, f, subs).len() == cs.len(),
        forall|i: int| 0 <= i < cs.len() ==> (#[trigger] renamed_by_customs(cs, f, subs)[i]).id == cs[i].id,
    decreases subs.len(),
{
    if subs.len() > 0 {
        lemma_renamed_by_customs_ids(cs, f, subs.drop_last());
        let m = renamed_by_customs(cs, f, subs.drop_last());
        lemma_first_index(m, shown_with_id(f, subs.last().name@));
    }
}

/// After the subscriptions were applied, every channel left is one that a
/// subscription names, and no channel was added.
pub proof fn law_only_subscribed_channels_stay(cs: Seq<ChannelView>, f: Filter, subs: Subscriptions)
    ensures
        subscribed_channels(cs, f, subs).len() <= cs.len(),
        forall|i: int|
            0 <= i < subscribed_channels(cs, f, subs).len() ==> subscribes(
                subs,
                #[trigger] subscribed_channels(cs, f, subs)[i].id,
            ),
{
    let kept = kept_channels(cs, subs);
    lemma_kept_subscribed(cs, subs);
    let pruned = pruned_channels(kept, f, subs.custom_channels@);
    lemma_pruned_ids(kept, f, subs.custom_channels@);
    let r1 = renamed_by_channels(pruned, f, subs.channels@);
    lemma_renamed_by_channels_ids(pruned, f, subs.channels@);
    lemma_renamed_by_customs_ids(r1, f, subs.custom_channels@);
    let r = subscribed_channels(cs, f, subs);
    assert forall|i: int| 0 <= i < r.len() implies subscribes(subs, #[trigger] r[i].id) by {
        assert(r[i].id == r1[i].id);
        assert(r1[i].id == pruned[i].id);
        assert(pruned[i].id == kept[i].id);
    }
}

/// The other filter.
pub open spec fn toggled(f: Filter) -> Filter {
    if f == Filter::NoFilter {
        Filter::OnlyNew
    } else {
        Filter::NoFilter
    }
}

/// Toggling the filter twice gives back the filter.
pub proof fn law_toggle_twice(f: Filter)
    ensures
        toggled(toggled(f)) == f,
{
}

/// The visible positions of a prefix begin those of the whole.
pub proof fn lemma_visible_indices_prefix(cs: Seq<ChannelView>, f: Filter, m: int)
    requires
        0 <= m <= cs.len(),
    ensures
        visible_indices(cs.take(m), f).len() <= visible_indices(cs, f).len(),
        forall|j: int|
            0 <= j < visible_indices(cs.take(m), f).len() ==> #[trigger] visible_indices(
                cs.take(m),
                f,
            )[j] == visible_indices(cs, f)[j],
    decreases cs.len() - m,
{
    if m == cs.len() {
        assert(cs.take(m) =~= cs);
    } else {
        lemma_visible_indices_prefix(cs, f, m + 1);
        lemma_visible_step(cs, f, m);
        let a = visible_indices(cs.take(m), f);
        let b = visible_indices(cs.take(m + 1), f);
        assert forall|j: int| 0 <= j < a.len() implies #[trigger] a[j] == visible_indices(cs, f)[j] by {
            assert(a[j] == b[j]);
        }
    }
}

proof fn lemma_visible_step(cs: Seq<ChannelView>, f: Filter, k: int)
    requires
        0 <= k < cs.len(),
    ensures
        visible_indices(cs.take(k + 1), f) == (if shown(cs[k], f) {
            visible_indices(cs.take(k), f).push(k)
        } else {
            visible_indices(cs.take(k), f)
        }),
{
    assert(cs.take(k + 1).drop_last() =~= cs.take(k));
    assert(cs.take(k + 1).last() == cs[k]);
}

impl ChannelList {
    /// The values of all channels.
    pub open spec fn all(self) -> Seq<ChannelView> {
        views(self.channels@)
    }

    /// The positions of the shown channels.
    pub open spec fn indices(self) -> Seq<int> {
        visible_indices(self.all(), self.filter)
    }

    /// The shown channels, in order.
    pub open spec fn shown_channels(self) -> Seq<ChannelView> {
        Seq::new(self.indices().len(), |j: int| self.all()[self.indices()[j]])
    }

    /// A list with one empty channel, no selection and no filter.
    pub fn default() -> (l: ChannelList)
        ensures
            l.channels@.len() == 1,
            l.channels@[0].name@ == Seq::<char>::empty(),
            l.channels@[0].id@ == Seq::<char>::empty(),
            l.channels@[0].videos@ == Seq::<crate::video::Video>::empty(),
            l.selected is None,
            l.filter == Filter::NoFilter,
    {
        let mut channels: Vec<Channel> = Vec::new();
        channels.push(Channel::default());
        ChannelList { channels, selected: None, filter: Filter::NoFilter }
    }

    /// A list without channels.
    pub fn new() -> (l: ChannelList)
        ensures
            l.channels@.len() == 0,
            l.selected is None,
            l.filter == Filter::NoFilter,
    {
        ChannelList { channels: Vec::new(), selected: None, filter: Filter::NoFilter }
    }

    /// The number of shown channels.
    pub fn len(&self) -> (r: usize)
        ensures
            r == self.indices().len(),
    {
        let ghost cs = self.all();
        let mut count: usize = 0;
        let mut k: usize = 0;
        assert(cs.take(0) =~= Seq::<ChannelView>::empty());
        while k < self.channels.len()
            invariant
                k <= self.channels.len(),
                cs == self.all(),
                count == visible_indices(cs.take(k as int), self.filter).len(),
                count <= k,
            decreases self.channels.len() - k,
        {
            proof {
                lemma_visible_step(cs, self.filter, k as int);
            }
            assert(cs[k as int] == self.channels@[k as int]@);
            let show = match self.filter {
                Filter::NoFilter => true,
                Filter::OnlyNew => self.channels[k].has_new(),
            };
            if show {
                count = count + 1;
            }
            k = k + 1;
        }
        assert(cs.take(k as int) =~= cs);
        count
    }

    /// The position among all channels of the `i`-th shown one.
    pub fn unfiltered_index(&self, i: usize) -> (r: Option<usize>)
        ensures
            i < self.indices().len() ==> r == Some(self.indices()[i as int] as usize),
            i >= self.indices().len() ==> r is None,
    {
        let ghost cs = self.all();
        let mut count: usize = 0;
        let mut k: usize = 0;
        assert(cs.take(0) =~= Seq::<ChannelView>::empty());
        while k < self.channels.len()
            invariant
                k <= self.channels.len(),
                cs == self.all(),
                count == visible_indices(cs.take(k as int), self.filter).len(),
                count <= i,
                count <= k,
            decreases self.channels.len() - k,
        {
            proof {
                lemma_visible_step(cs, self.filter, k as int);
            }
            assert(cs[k as int] == self.channels@[k as int]@);
            let show = match self.filter {
                Filter::NoFilter => true,
                Filter::OnlyNew => self.channels[k].has_new(),
            };
            if show {
                if count == i {
                    proof {
                        lemma_visible_indices_prefix(cs, self.filter, k + 1);
                        assert(visible_indices(cs.take(k + 1), self.filter)[i as int] == k);
                    }
                    return Some(k);
                }
                count = count + 1;
            }
            k = k + 1;
        }
        assert(cs.take(k as int) =~= cs);
        None
    }

    pub fn next(&mut self)
        ensures
            final(self).selected == next_selection(old(self).selected, old(self).indices().len()),
            final(self).channels == old(self).channels,
            final(self).filter == old(self).filter,
    {
        let len: usize = self.len();
        let index: usize = match self.selected {
            Some(i) => if len > 0 && i < len - 1 { i + 1 } else { i },
            None => 0,
        };
        self.selected = Some(index);
    }

    pub fn prev(&mut self)
        ensures
            final(self).selected == prev_selection(old(self).selected),
            final(self).channels == old(self).channels,
            final(self).filter == old(self).filter,
    {
        let index: usize = match self.selected {
            Some(i) => if i > 0 { i - 1 } else { i },
            None => 0,
        };
        self.selected = Some(index);
    }

    /// Selects the `i`-th shown channel, or the last when there are fewer;
    /// nothing when none is asked for or none is shown.
    pub fn select(&mut self, i: Option<usize>)
        ensures
            final(self).selected == clamp_selection(i, old(self).indices().len()),
            final(self).channels == old(self).channels,
            final(self).filter == old(self).filter,
    {
        let len: usize = self.len();
        match i {
            None => {
                self.selected = None;
            },
            Some(k) => {
                if len == 0 {
                    self.selected = None;
                } else if k < len {
                    self.selected = Some(k);
                } else {
                    self.selected = Some(len - 1);
                }
            },
        }
    }

    pub fn selected(&self) -> (r: Option<usize>)
        ensures
            r == self.selected,
    {
        self.selected
    }

    /// The selection, which is all the list state holds.
    pub fn state(&self) -> (r: Option<usize>)
        ensures
            r == self.selected,
    {
        self.selected
    }

    pub fn push(&mut self, channel: Channel)
        ensures
            final(self).channels@ == old(self).channels@.push(channel),
            final(self).selected == old(self).selected,
            final(self).filter == old(self).filter,
    {
        self.channels.push(channel);
    }

    /// The `index`-th shown channel.
    pub fn get(&self, index: usize) -> (r: Option<&Channel>)
        ensures
            index < self.indices().len() ==> r == Some(&self.channels@[self.indices()[index as int]]),
            index < self.indices().len() ==> r.unwrap()@ == self.shown_channels()[index as int],
            index >= self.indices().len() ==> r is None,
    {
        proof {
            lemma_visible_indices(self.all(), self.filter);
            if index < self.indices().len() {
                let vi = visible_indices(self.all(), self.filter);
                assert(0 <= vi[index as int] < self.all().len());
                assert(self.all().len() == self.channels@.len());
            }
        }
        let _n: usize = self.channels.len();
        match self.unfiltered_index(index) {
            Some(k) => {
                assert(k as int == self.indices()[index as int]);
                Some(&self.channels[k])
            },
            None => None,
        }
    }

    /// The channel at `index` among all channels.
    pub fn get_unfiltered(&self, index: usize) -> (r: Option<&Channel>)
        ensures
            index < self.channels@.len() ==> r == Some(&self.channels@[index as int]),
            index >= self.channels@.len() ==> r is None,
    {
        if index < self.channels.len() {
            Some(&self.channels[index])
        } else {
            None
        }
    }

    /// The position among all channels of the first with the id.
    pub fn get_unfiltered_position_by_id(&self, id: &str) -> (r: Option<usize>)
        ensures
            r matches Some(p) ==> first_index(self.all(), has_id(id@)) == Some(p as int),
            r is None ==> first_index(self.all(), has_id(id@)) is None,
    {
        let ghost cs = self.all();
        let mut k: usize = 0;
        while k < self.channels.len()
            invariant
                k <= self.channels.len(),
                cs == self.all(),
                forall|j: int| 0 <= j < k ==> !has_id(id@)(#[trigger] cs[j]),
            decreases self.channels.len() - k,
        {
            assert(cs[k as int] == self.channels@[k as int]@);
            if str_eq(self.channels[k].id.as_str(), id) {
                proof {
                    lemma_first_index_at(cs, has_id(id@), k as int);
                }
                return Some(k);
            }
            k = k + 1;
        }
        proof {
            lemma_first_index_none(cs, has_id(id@));
        }
        None
    }

    /// The position among the shown channels of the first with the id.
    pub fn get_position_by_id(&self, id: &str) -> (r: Option<usize>)
        ensures
            r matches Some(p) ==> first_index(self.shown_channels(), has_id(id@)) == Some(p as int),
            r is None ==> first_index(self.shown_channels(), has_id(id@)) is None,
    {
        let ghost cs = self.all();
        let ghost sc = self.shown_channels();
        proof {
            lemma_visible_indices(cs, self.filter);
        }
        let mut count: usize = 0;
        let mut k: usize = 0;
        assert(cs.take(0) =~= Seq::<ChannelView>::empty());
        while k < self.channels.len()
            invariant
                k <= self.channels.len(),
                cs == self.all(),
                sc == self.shown_channels(),
                count == visible_indices(cs.take(k as int), self.filter).len(),
                count <= k,
                forall|j: int| 0 <= j < k && shown(cs[j], self.filter) ==> !has_id(id@)(#[trigger] cs[j]),
            decreases self.channels.len() - k,
        {
            proof {
                lemma_visible_step(cs, self.filter, k as int);
                lemma_visible_indices_prefix(cs, self.filter, k as int);
                lemma_visible_indices_prefix(cs, self.filter, k + 1);
                lemma_visible_indices(cs.take(k as int), self.filter);
            }
            assert(cs[k as int] == self.channels@[k as int]@);
            let show = match self.filter {
                Filter::NoFilter => true,
                Filter::OnlyNew => self.channels[k].has_new(),
            };
            if show {
                if str_eq(self.channels[k].id.as_str(), id) {
                    proof {
                        let vi = visible_indices(cs, self.filter);
                        let vt = visible_indices(cs.take(k as int), self.filter);
                        let vt1 = visible_indices(cs.take(k + 1), self.filter);
                        assert(vt1 == vt.push(k as int));
                        assert(vt1[count as int] == k);
                        assert(vt1[count as int] == vi[count as int]);
                        assert(vi[count as int] == k);
                        assert forall|j: int| 0 <= j < count implies !has_id(id@)(#[trigger] sc[j]) by {
                            assert(vt[j] == vi[j]);
                            assert(cs.take(k as int)[vt[j]] == cs[vt[j]]);
                        }
                        lemma_first_index_at(sc, has_id(id@), count as int);
                    }
                    return Some(count);
                }
                count = count + 1;
            }
            k = k + 1;
        }
        proof {
            assert forall|j: int| 0 <= j < sc.len() implies !has_id(id@)(#[trigger] sc[j]) by {
                let vi = visible_indices(cs, self.filter);
                assert(sc[j] == cs[vi[j]]);
            }
            lemma_first_index_none(sc, has_id(id@));
        }
        None
    }

    /// The first shown channel with the id.
    pub fn get_by_id(&self, id: &str) -> (r: Option<&Channel>)
        ensures
            first_index(self.shown_channels(), has_id(id@)) matches Some(p) ==> (r is Some
                && r.unwrap()@ == self.shown_channels()[p]),
            first_index(self.shown_channels(), has_id(id@)) is None ==> r is None,
    {
        proof {
            lemma_first_index(self.shown_channels(), has_id(id@));
        }
        match self.get_position_by_id(id) {
            Some(p) => self.get(p),
            None => None,
        }
    }

    /// The first channel with the id, shown or not.
    pub fn get_unfiltered_by_id(&self, id: &str) -> (r: Option<&Channel>)
        ensures
            first_index(self.all(), has_id(id@)) matches Some(p) ==> r == Some(&self.channels@[p]),
            first_index(self.all(), has_id(id@)) is None ==> r is None,
    {
        proof {
            lemma_first_index(self.all(), has_id(id@));
        }
        match self.get_unfiltered_position_by_id(id) {
            Some(p) => self.get_unfiltered(p),
            None => None,
        }
    }

    pub fn set_filter(&mut self, filter: Filter)
        ensures
            *final(self) == (ChannelList { filter: filter, ..*old(self) }),
    {
        self.filter = filter;
    }

    pub fn get_filter(&self) -> (r: Filter)
        ensures
            r == self.filter,
    {
        self.filter
    }

    /// Switches between showing all channels and only those with new videos.
    pub fn toggle_filter(&mut self)
        ensures
            *final(self) == (ChannelList { filter: toggled(old(self).filter), ..*old(self) }),
    {
        match self.filter {
            Filter::NoFilter => self.set_filter(Filter::OnlyNew),
            Filter::OnlyNew => self.set_filter(Filter::NoFilter),
        }
    }

    /// Merges a freshly fetched channel in: its videos go into the known
    /// channel with the same id, or it is added; then the channels are
    /// ordered as `sort` asks. The filter and selection stay.
    pub fn update_channel(&mut self, updated_channel: Channel, sort: SortingMethodChannels)
        ensures
            final(self).all() == updated_channels(old(self).all(), updated_channel@, sort),
            final(self).filter == old(self).filter,
            final(self).selected == old(self).selected,
    {
        let ghost cs = self.all();
        let ghost u = updated_channel@;
        let filter = self.get_filter();
        self.set_filter(Filter::NoFilter);
        match self.get_unfiltered_position_by_id(updated_channel.id.as_str()) {
            Some(k) => {
                proof {
                    lemma_first_index(cs, has_id(u.id));
                }
                let videos = updated_channel.videos;
                self.channels[k].merge_videos(videos);
                assert(self.all() =~= cs.update(k as int, merge_into(cs[k as int], u.videos)));
            },
            None => {
                self.channels.push(updated_channel);
                assert(self.all() =~= cs.push(u));
            },
        }
        let ghost merged = self.all();
        let mut channels: Vec<Channel> = Vec::new();
        std::mem::swap(&mut channels, &mut self.channels);
        let ghost pre = channels@;
        let le = |a: &Channel, b: &Channel| -> (o: bool)
            ensures
                o == lex_le(channel_key(a@, sort), channel_key(b@, sort)),
            {
                let ka = channel_sort_key(a, sort);
                let kb = channel_sort_key(b, sort);
                str_le(ka.as_str(), kb.as_str())
            };
        let ghost le_c = |a: Channel, b: Channel| lex_le(channel_key(a@, sort), channel_key(b@, sort));
        let sorted = sort_by_le(channels, le, Ghost(le_c));
        proof {
            lemma_sorted_by_map(pre, le_c, channel_order(sort), |c: Channel| c@);
            assert(views(pre) == merged);
        }
        self.channels = sorted;
        self.set_filter(filter);
    }
}

impl ChannelList {
    /// The position among all channels of the selected channel, if one
    /// is selected and shown.
    pub fn selected_position(&self) -> (r: Option<usize>)
        ensures
            r matches Some(k) ==> k < self.channels@.len() && selected_pos(self@) == Some(k as int),
            r is None ==> selected_pos(self@) is None,
    {
        proof {
            lemma_visible_indices(self.all(), self.filter);
            assert(self.all().len() == self.channels@.len());
        }
        match self.selected {
            Some(i) => {
                let _n: usize = self.channels.len();
                let r = self.unfiltered_index(i);
                proof {
                    if i < self.indices().len() {
                        let x = self.indices()[i as int];
                        assert(0 <= x < self.all().len());
                    }
                }
                r
            },
            None => None,
        }
    }

    /// The channel at `index` among all channels, to change in place.
    pub fn get_unfiltered_mut(&mut self, index: usize) -> (r: Option<&mut Channel>)
        ensures
            index < old(self).channels@.len() ==> (r matches Some(c) && *c == old(self).channels@[index as int]
                && final(self).channels@ == old(self).channels@.update(index as int, *final(c))),
            index >= old(self).channels@.len() ==> r is None && final(self).channels == old(self).channels,
            final(self).selected == old(self).selected,
            final(self).filter == old(self).filter,
    {
        if index < self.channels.len() {
            Some(&mut self.channels[index])
        } else {
            None
        }
    }

    /// The `index`-th shown channel, to change in place.
    pub fn get_mut(&mut self, index: usize) -> (r: Option<&mut Channel>)
        ensures
            shown_position(old(self)@, index as int) matches Some(k) ==> (r matches Some(c) && *c
                == old(self).channels@[k] && final(self).channels@ == old(self).channels@.update(
                k,
                *final(c),
            )),
            shown_position(old(self)@, index as int) is None ==> r is None && final(self).channels
                == old(self).channels,
            final(self).selected == old(self).selected,
            final(self).filter == old(self).filter,
    {
        proof {
            lemma_visible_indices(self.all(), self.filter);
        }
        let _n: usize = self.channels.len();
        match self.unfiltered_index(index) {
            Some(k) => {
                assert(k < self.channels@.len());
                Some(&mut self.channels[k])
            },
            None => None,
        }
    }

    /// The first shown channel with the id, to change in place.
    pub fn get_mut_by_id(&mut self, id: &str) -> (r: Option<&mut Channel>)
        ensures
            first_index(old(self).all(), shown_with_id(old(self).filter, id@)) matches Some(k) ==> (
            r matches Some(c) && *c == old(self).channels@[k] && final(self).channels@ == old(
                self,
            ).channels@.update(k, *final(c))),
            first_index(old(self).all(), shown_with_id(old(self).filter, id@)) is None ==> r is None
                && final(self).channels == old(self).channels,
            final(self).selected == old(self).selected,
            final(self).filter == old(self).filter,
    {
        match self.find_shown_by_id(id) {
            Some(k) => Some(&mut self.channels[k]),
            None => None,
        }
    }

    /// The first channel with the id, shown or not, to change in place.
    pub fn get_unfiltered_mut_by_id(&mut self, id: &str) -> (r: Option<&mut Channel>)
        ensures
            first_index(old(self).all(), has_id(id@)) matches Some(k) ==> (r matches Some(c) && *c
                == old(self).channels@[k] && final(self).channels@ == old(self).channels@.update(
                k,
                *final(c),
            )),
            first_index(old(self).all(), has_id(id@)) is None ==> r is None && final(self).channels
                == old(self).channels,
            final(self).selected == old(self).selected,
            final(self).filter == old(self).filter,
    {
        proof {
            lemma_first_index(self.all(), has_id(id@));
        }
        match self.get_unfiltered_position_by_id(id) {
            Some(k) => Some(&mut self.channels[k]),
            None => None,
        }
    }

    /// Sets how far the fetching of the first channel with the id has come,
    /// shown or not.
    pub fn set_fetch_state_by_id(&mut self, id: &str, state: FetchState)
        ensures
            first_index(old(self).all(), has_id(id@)) matches Some(k) ==> final(self)@ == with_channel(
                old(self)@,
                k,
                ChannelView { fetch_state: state, ..old(self).all()[k] },
            ),
            first_index(old(self).all(), has_id(id@)) is None ==> final(self)@ == old(self)@,
    {
        proof {
            lemma_first_index(self.all(), has_id(id@));
        }
        match self.get_unfiltered_position_by_id(id) {
            Some(k) => {
                let ghost before = self.all();
                self.channels[k].fetch_state = state;
                assert(self.all() =~= before.update(
                    k as int,
                    ChannelView { fetch_state: state, ..before[k as int] },
                ));
            },
            None => {},
        }
    }

    /// A list of copies of the channels that have a video not yet marked,
    /// without selection or filter.
    pub fn get_not_empty(&self) -> (r: ChannelList)
        ensures
            r.all() == not_empty_channels(self.all()),
            r.selected is None,
            r.filter == Filter::NoFilter,
    {
        let ghost cs = self.all();
        let mut channels: Vec<Channel> = Vec::new();
        let mut k: usize = 0;
        assert(cs.take(0) =~= Seq::<ChannelView>::empty());
        while k < self.channels.len()
            invariant
                k <= self.channels.len(),
                cs == self.all(),
                views(channels@) == not_empty_channels(cs.take(k as int)),
            decreases self.channels.len() - k,
        {
            assert(cs.take(k + 1).drop_last() =~= cs.take(k as int));
            assert(cs.take(k + 1).last() == self.channels@[k as int]@);
            if self.channels[k].has_new() {
                let c = self.channels[k].clone();
                channels.push(c);
                assert(views(channels@) =~= not_empty_channels(cs.take(k as int)).push(c@));
            }
            k = k + 1;
        }
        assert(cs.take(k as int) =~= cs);
        ChannelList { channels, selected: None, filter: Filter::NoFilter }
    }

    /// The position among all channels of the first shown one with the id.
    pub fn find_shown_by_id(&self, id: &str) -> (r: Option<usize>)
        ensures
            r matches Some(k) ==> k < self.channels@.len() && first_index(
                self.all(),
                shown_with_id(self.filter, id@),
            ) == Some(k as int),
            r is None ==> first_index(self.all(), shown_with_id(self.filter, id@)) is None,
    {
        let ghost cs = self.all();
        let mut k: usize = 0;
        while k < self.channels.len()
            invariant
                k <= self.channels.len(),
                cs == self.all(),
                forall|j: int| 0 <= j < k ==> !shown_with_id(self.filter, id@)(#[trigger] cs[j]),
            decreases self.channels.len() - k,
        {
            assert(cs[k as int] == self.channels@[k as int]@);
            let show = match self.filter {
                Filter::NoFilter => true,
                Filter::OnlyNew => self.channels[k].has_new(),
            };
            if show && str_eq(self.channels[k].id.as_str(), id) {
                proof {
                    lemma_first_index_at(cs, shown_with_id(self.filter, id@), k as int);
                }
                return Some(k);
            }
            k = k + 1;
        }
        proof {
            lemma_first_index_none(cs, shown_with_id(self.filter, id@));
        }
        None
    }

    /// Drops the channels that no subscription names any more, then keeps
    /// in each custom channel only the videos of its urls.
    pub fn remove_old(&mut self, subs: &Subscriptions)
        ensures
            final(self).all() == pruned_channels(
                kept_channels(old(self).all(), *subs),
                old(self).filter,
                subs.custom_channels@,
            ),
            final(self).filter == old(self).filter,
            final(self).selected == old(self).selected,
    {
        let ghost cs = self.all();
        let mut input: Vec<Channel> = Vec::new();
        std::mem::swap(&mut input, &mut self.channels);
        let ghost orig = input@;
        let n: usize = input.len();
        let mut i: usize = 0;
        assert(orig.take(0) =~= Seq::<Channel>::empty());
        assert(orig.skip(0) =~= orig);
        assert(views(orig) == cs);
        while input.len() > 0
            invariant
                i <= n,
                n == orig.len(),
                views(orig) == cs,
                input@ == orig.skip(i as int),
                self.all() == kept_channels(views(orig.take(i as int)), *subs),
                self.filter == old(self).filter,
                self.selected == old(self).selected,
            decreases input.len(),
        {
            assert(i < n);
            let c = input.remove(0);
            proof {
                assert(views(orig.take(i + 1)).drop_last() =~= views(orig.take(i as int)));
                assert(views(orig.take(i + 1)).last() == c@);
            }
            if subs.contains_channel_by_id(c.id.as_str()) {
                self.channels.push(c);
                assert(self.all() =~= kept_channels(views(orig.take(i + 1)), *subs));
            }
            i = i + 1;
            assert(input@ =~= orig.skip(i as int));
        }
        assert(orig.take(i as int) =~= orig);
        let ghost kept = self.all();
        let mut j: usize = 0;
        assert(subs.custom_channels@.take(0) =~= Seq::<CustomChannelSubscription>::empty());
        while j < subs.custom_channels.len()
            invariant
                j <= subs.custom_channels@.len(),
                kept == kept_channels(cs, *subs),
                self.all() == pruned_channels(kept, self.filter, subs.custom_channels@.take(j as int)),
                self.filter == old(self).filter,
                self.selected == old(self).selected,
            decreases subs.custom_channels.len() - j,
        {
            let custom = &subs.custom_channels[j];
            proof {
                assert(subs.custom_channels@.take(j + 1).drop_last() =~= subs.custom_channels@.take(
                    j as int,
                ));
                assert(subs.custom_channels@.take(j + 1).last() == *custom);
            }
            match self.find_shown_by_id(custom.name.as_str()) {
                Some(k) => {
                    let ghost before = self.all();
                    let mut ch = self.channels.remove(k);
                    let mut vids: Vec<Video> = Vec::new();
                    std::mem::swap(&mut vids, &mut ch.videos);
                    ch.videos = retain_videos_from(vids, &custom.urls);
                    self.channels.insert(k, ch);
                    assert(self.all() =~= before.update(
                        k as int,
                        ChannelView {
                            videos: videos_from_urls(before[k as int].videos, text_views(custom.urls@)),
                            ..before[k as int]
                        },
                    ));
                },
                None => {},
            }
            j = j + 1;
        }
        assert(subs.custom_channels@.take(j as int) =~= subs.custom_channels@);
    }

    /// Applies the channel subscriptions, then the custom ones: the first
    /// shown channel with the id takes over name, tag and ordering.
    pub fn update_channels_from_url_file(&mut self, subs: &Subscriptions)
        ensures
            final(self).all() == renamed_by_customs(
                renamed_by_channels(old(self).all(), old(self).filter, subs.channels@),
                old(self).filter,
                subs.custom_channels@,
            ),
            final(self).filter == old(self).filter,
            final(self).selected == old(self).selected,
    {
        let ghost cs = self.all();
        let mut j: usize = 0;
        assert(subs.channels@.take(0) =~= Seq::<ChannelSubscription>::empty());
        while j < subs.channels.len()
            invariant
                j <= subs.channels@.len(),
                self.all() == renamed_by_channels(cs, self.filter, subs.channels@.take(j as int)),
                self.filter == old(self).filter,
                self.selected == old(self).selected,
            decreases subs.channels.len() - j,
        {
            let item = &subs.channels[j];
            proof {
                assert(subs.channels@.take(j + 1).drop_last() =~= subs.channels@.take(j as int));
                assert(subs.channels@.take(j + 1).last() == *item);
            }
            match self.find_shown_by_id(item.url.as_str()) {
                Some(k) => {
                    let ghost before = self.all();
                    self.channels[k].update_from_url_file(
                        item.name.as_str(),
                        item.tag.as_str(),
                        item.sort_by,
                    );
                    assert(self.all() =~= before.update(
                        k as int,
                        renamed(before[k as int], item.name@, item.tag@, item.sort_by),
                    ));
                },
                None => {},
            }
            j = j + 1;
        }
        assert(subs.channels@.take(j as int) =~= subs.channels@);
        let ghost mid = self.all();
        let mut j: usize = 0;
        assert(subs.custom_channels@.take(0) =~= Seq::<CustomChannelSubscription>::empty());
        while j < subs.custom_channels.len()
            invariant
                j <= subs.custom_channels@.len(),
                mid == renamed_by_channels(cs, self.filter, subs.channels@),
                self.all() == renamed_by_customs(mid, self.filter, subs.custom_channels@.take(j as int)),
                self.filter == old(self).filter,
                self.selected == old(self).selected,
            decreases subs.custom_channels.len() - j,
        {
            let item = &subs.custom_channels[j];
            proof {
                assert(subs.custom_channels@.take(j + 1).drop_last() =~= subs.custom_channels@.take(
                    j as int,
                ));
                assert(subs.custom_channels@.take(j + 1).last() == *item);
            }
            match self.find_shown_by_id(item.name.as_str()) {
                Some(k) => {
                    let ghost before = self.all();
                    self.channels[k].update_from_url_file(
                        item.name.as_str(),
                        item.tag.as_str(),
                        item.sort_by,
                    );
                    assert(self.all() =~= before.update(
                        k as int,
                        renamed(before[k as int], item.name@, item.tag@, item.sort_by),
                    ));
                },
                None => {},
            }
            j = j + 1;
        }
        assert(subs.custom_channels@.take(j as int) =~= subs.custom_channels@);
    }

    /// Applies the subscriptions: drops what they no longer name and takes
    /// over names, tags and orderings.
    pub fn apply_url_file_changes(&mut self, subs: &Subscriptions)
        ensures
            final(self).all() == subscribed_channels(old(self).all(), old(self).filter, *subs),
            final(self).filter == old(self).filter,
            final(self).selected == old(self).selected,
    {
        self.remove_old(subs);
        self.update_channels_from_url_file(subs);
    }
}

/// The text by which a channel is ordered.
pub fn channel_sort_key(c: &Channel, m: SortingMethodChannels) -> (r: String)
    ensures
        r@ == channel_key(c@, m),
{
    match m {
        SortingMethodChannels::AlphaNumeric => to_lowercase(c.name.as_str()),
        SortingMethodChannels::ByTag => {
            if c.tag.as_str().is_empty() {
                to_lowercase(c.name.as_str())
            } else {
                let t = to_uppercase(c.tag.as_str());
                let n = to_uppercase(c.name.as_str());
                t.concat(n.as_str())
            }
        },
    }
}

} // verus!
