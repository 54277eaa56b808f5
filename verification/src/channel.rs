use vstd::prelude::*;
use crate::alnum::{alphanumeric_order, compare_alphanumeric};
use crate::sort::{adjacent_sorted, lemma_sorted_by_contains, sort_by_le, sorted_by};
use crate::text::{lex_le, str_le};
use crate::types::{FetchState, SortingMethodVideos};
use crate::video::{rank, same_video, Video};

verus! {

/// A feed of videos, as shown in the channel list.
#[derive(Debug)]
pub struct Channel {
    pub name: String,
    pub id: String,
    pub videos: Vec<Video>,
    pub sorting_method: SortingMethodVideos,
    pub tag: String,
    pub selected: Option<usize>,
    pub fetch_state: FetchState,
}

/// The mathematical value of a channel.
pub struct ChannelView {
    pub name: Seq<char>,
    pub id: Seq<char>,
    pub videos: Seq<Video>,
    pub sorting_method: SortingMethodVideos,
    pub tag: Seq<char>,
    pub selected: Option<usize>,
    pub fetch_state: FetchState,
}

impl View for Channel {
    type V = ChannelView;

    open spec fn view(&self) -> ChannelView {
        ChannelView {
            name: self.name@,
            id: self.id@,
            videos: self.videos@,
            sorting_method: self.sorting_method,
            tag: self.tag@,
            selected: self.selected,
            fetch_state: self.fetch_state,
        }
    }
}

/// The channel after `others` were merged into its videos and the videos
/// were ordered.
pub open spec fn merge_into(c: ChannelView, others: Seq<Video>) -> ChannelView {
    ChannelView { videos: sorted_videos(merged_videos(c.videos, others), c.sorting_method), ..c }
}

/// Some video of `vs` is not marked.
pub open spec fn has_new_video(vs: Seq<Video>) -> bool {
    exists|i: int| 0 <= i < vs.len() && !(#[trigger] vs[i]).marked
}

/// Some video of `vs` is the same video as `v`.
pub open spec fn contains_video(vs: Seq<Video>, v: Video) -> bool {
    exists|i: int| 0 <= i < vs.len() && same_video(#[trigger] vs[i], v)
}

/// The selection after moving one down a list of `len` entries.
pub open spec fn next_selection(sel: Option<usize>, len: nat) -> Option<usize> {
    match sel {
        Some(i) => if i + 1 < len { Some((i + 1) as usize) } else { Some(i) },
        None => Some(0),
    }
}

/// The selection after moving one up a list.
pub open spec fn prev_selection(sel: Option<usize>) -> Option<usize> {
    match sel {
        Some(i) => if i > 0 { Some((i - 1) as usize) } else { Some(i) },
        None => Some(0),
    }
}

/// `vs` with each video of `others`, in turn, added at the end unless the
/// same video is already there.
pub open spec fn merged_videos(vs: Seq<Video>, others: Seq<Video>) -> Seq<Video>
    decreases others.len(),
{
    if others.len() == 0 {
        vs
    } else {
        let m = merged_videos(vs, others.drop_last());
        if contains_video(m, others.last()) {
            m
        } else {
            m.push(others.last())
        }
    }
}

/// Videos ordered by publication date, as texts.
pub open spec fn date_order() -> spec_fn(Video, Video) -> bool {
    |a: Video, b: Video| lex_le(a.pub_date@, b.pub_date@)
}

/// Videos ordered by priority: favourites first, then unmarked ones.
pub open spec fn rank_order() -> spec_fn(Video, Video) -> bool {
    |a: Video, b: Video| rank(a) <= rank(b)
}

/// Videos ordered by title, with runs of digits taken by their value.
pub open spec fn title_order() -> spec_fn(Video, Video) -> bool {
    |a: Video, b: Video| alphanumeric_order(a.title@, b.title@) != 1
}

/// The videos in the order that `method` asks for.
pub open spec fn sorted_videos(vs: Seq<Video>, method: SortingMethodVideos) -> Seq<Video> {
    match method {
        SortingMethodVideos::Date => sorted_by(sorted_by(vs, rank_order()), date_order()).reverse(),
        SortingMethodVideos::Text => sorted_by(vs, title_order()),
        SortingMethodVideos::UnseenDate => sorted_by(
            sorted_by(vs, date_order()).reverse(),
            rank_order(),
        ),
        SortingMethodVideos::UnseenText => sorted_by(sorted_by(vs, title_order()), rank_order()),
    }
}

/// Ordering the videos neither loses nor adds a video.
pub proof fn lemma_sorted_videos_contains(vs: Seq<Video>, method: SortingMethodVideos, x: Video)
    ensures
        sorted_videos(vs, method).contains(x) <==> vs.contains(x),
{
    match method {
        SortingMethodVideos::Date => {
            let a = sorted_by(vs, rank_order());
            let b = sorted_by(a, date_order());
            lemma_sorted_by_contains(vs, rank_order(), x);
            lemma_sorted_by_contains(a, date_order(), x);
            if b.contains(x) {
                let i = choose|i: int| 0 <= i < b.len() && b[i] == x;
                assert(b.reverse()[b.len() - 1 - i] == x);
            }
            if b.reverse().contains(x) {
                let i = choose|i: int| 0 <= i < b.reverse().len() && b.reverse()[i] == x;
                assert(b[b.len() - 1 - i] == x);
            }
        },
        SortingMethodVideos::Text => {
            lemma_sorted_by_contains(vs, title_order(), x);
        },
        SortingMethodVideos::UnseenDate => {
            let a = sorted_by(vs, date_order());
            lemma_sorted_by_contains(vs, date_order(), x);
            lemma_sorted_by_contains(a.reverse(), rank_order(), x);
            if a.contains(x) {
                let i = choose|i: int| 0 <= i < a.len() && a[i] == x;
                assert(a.reverse()[a.len() - 1 - i] == x);
            }
            if a.reverse().contains(x) {
                let i = choose|i: int| 0 <= i < a.reverse().len() && a.reverse()[i] == x;
                assert(a[a.len() - 1 - i] == x);
            }
        },
        SortingMethodVideos::UnseenText => {
            let a = sorted_by(vs, title_order());
            lemma_sorted_by_contains(vs, title_order(), x);
            lemma_sorted_by_contains(a, rank_order(), x);
        },
    }
}

/// Merging keeps every video that was there and brings each of the others
/// in, or one with the same link that was there already.
pub proof fn lemma_merged_videos(vs: Seq<Video>, others: Seq<Video>)
    ensures
        forall|x: Video| vs.contains(x) ==> #[trigger] merged_videos(vs, others).contains(x),
        forall|i: int| 0 <= i < others.len() ==> contains_video(merged_videos(vs, others), #[trigger] others[i]),
    decreases others.len(),
{
    if others.len() > 0 {
        let t = others.drop_last();
        lemma_merged_videos(vs, t);
        let m = merged_videos(vs, t);
        let o = others.last();
        if !contains_video(m, o) {
            assert(m.push(o)[m.len() as int] == o);
            assert(same_video(o, o));
            assert forall|x: Video| vs.contains(x) implies #[trigger] merged_videos(vs, others).contains(x) by {
                assert(m.contains(x));
                let i = choose|i: int| 0 <= i < m.len() && m[i] == x;
                assert(m.push(o)[i] == x);
            }
        }
        let r = merged_videos(vs, others);
        assert forall|i: int| 0 <= i < others.len() implies contains_video(r, #[trigger] others[i]) by {
            if i < t.len() {
                assert(t[i] == others[i]);
                let w = choose|w: int| 0 <= w < m.len() && same_video(#[trigger] m[w], t[i]);
                assert(r[w] == m[w]);
            } else {
                if contains_video(m, o) {
                    let w = choose|w: int| 0 <= w < m.len() && same_video(#[trigger] m[w], o);
                    assert(r[w] == m[w]);
                } else {
                    assert(r[m.len() as int] == o);
                }
            }
        }
    }
}

/// Merging videos into a channel loses none of its videos, and each of the
/// merged videos is there afterwards, or one with the same link.
pub proof fn law_merge_keeps_videos(c: ChannelView, others: Seq<Video>)
    ensures
        forall|i: int| 0 <= i < c.videos.len() ==> merge_into(c, others).videos.contains(#[trigger] c.videos[i]),
        forall|i: int| 0 <= i < others.len() ==> contains_video(merge_into(c, others).videos, #[trigger] others[i]),
        merge_into(c, others).id == c.id,
        merge_into(c, others).name == c.name,
{
    lemma_merged_videos(c.videos, others);
    let m = merged_videos(c.videos, others);
    let r = merge_into(c, others).videos;
    assert forall|i: int| 0 <= i < c.videos.len() implies r.contains(#[trigger] c.videos[i]) by {
        assert(c.videos.contains(c.videos[i]));
        assert(m.contains(c.videos[i]));
        lemma_sorted_videos_contains(m, c.sorting_method, c.videos[i]);
    }
    assert forall|i: int| 0 <= i < others.len() implies contains_video(r, #[trigger] others[i]) by {
        let w = choose|w: int| 0 <= w < m.len() && same_video(#[trigger] m[w], others[i]);
        assert(m.contains(m[w]));
        lemma_sorted_videos_contains(m, c.sorting_method, m[w]);
        let z = choose|z: int| 0 <= z < r.len() && r[z] == m[w];
        assert(same_video(r[z], others[i]));
    }
}

/// Ordered by unseen first, the videos come by priority: favourites
/// first, then those not marked, then the marked ones; the same holds when
/// ordered by unseen titles.
pub proof fn law_unseen_first(vs: Seq<Video>)
    ensures
        forall|i: int, j: int|
            0 <= i < j < vs.len() ==> rank(#[trigger] sorted_videos(vs, SortingMethodVideos::UnseenDate)[i])
                <= rank(#[trigger] sorted_videos(vs, SortingMethodVideos::UnseenDate)[j]),
        forall|i: int, j: int|
            0 <= i < j < vs.len() ==> rank(#[trigger] sorted_videos(vs, SortingMethodVideos::UnseenText)[i])
                <= rank(#[trigger] sorted_videos(vs, SortingMethodVideos::UnseenText)[j]),
{
    assert(crate::sort::total_preorder(rank_order()));
    let a = sorted_by(vs, date_order()).reverse();
    crate::sort::lemma_sorted_by_is_sorted(a, rank_order());
    crate::sort::lemma_sorted_by_len(vs, date_order());
    crate::sort::lemma_sorted_by_len(a, rank_order());
    let b = sorted_by(vs, title_order());
    crate::sort::lemma_sorted_by_is_sorted(b, rank_order());
    crate::sort::lemma_sorted_by_len(vs, title_order());
    crate::sort::lemma_sorted_by_len(b, rank_order());
}

/// Publication dates, as texts, are a total preorder.
proof fn lemma_date_order_total()
    ensures
        crate::sort::total_preorder(date_order()),
{
    assert forall|a: Video, b: Video| #[trigger] date_order()(a, b) || date_order()(b, a) by {
        crate::text::lemma_lex_le_total(a.pub_date@, b.pub_date@);
    }
    assert forall|a: Video, b: Video, c: Video|
        #[trigger] date_order()(a, b) && #[trigger] date_order()(b, c) implies date_order()(a, c) by {
        crate::text::lemma_lex_le_transitive(a.pub_date@, b.pub_date@, c.pub_date@);
    }
}

/// Ordered by date, the videos come newest first: of any two, the earlier
/// one in the result has the later (or the same) publication date, whatever
/// their marks, and of two with the same date the earlier one has the
/// greater or the same rank (marked before unmarked before favourites, as
/// ordering by rank and then stably by date and reversing gives); none is
/// lost or added.
pub proof fn law_date_newest_first(vs: Seq<Video>)
    ensures
        sorted_videos(vs, SortingMethodVideos::Date).len() == vs.len(),
        forall|i: int, j: int|
            0 <= i < j < vs.len() ==> lex_le(
                (#[trigger] sorted_videos(vs, SortingMethodVideos::Date)[j]).pub_date@,
                (#[trigger] sorted_videos(vs, SortingMethodVideos::Date)[i]).pub_date@,
            ),
        forall|i: int, j: int|
            0 <= i < j < vs.len() && lex_le(
                (#[trigger] sorted_videos(vs, SortingMethodVideos::Date)[i]).pub_date@,
                (#[trigger] sorted_videos(vs, SortingMethodVideos::Date)[j]).pub_date@,
            ) ==> rank(sorted_videos(vs, SortingMethodVideos::Date)[j]) <= rank(
                sorted_videos(vs, SortingMethodVideos::Date)[i],
            ),
        forall|x: Video|
            sorted_videos(vs, SortingMethodVideos::Date).contains(x) <==> vs.contains(x),
{
    let a = sorted_by(vs, rank_order());
    crate::sort::lemma_sorted_by_len(vs, rank_order());
    crate::sort::lemma_sorted_by_len(a, date_order());
    lemma_date_order_total();
    crate::sort::lemma_sorted_by_is_sorted(a, date_order());
    assert(crate::sort::total_preorder(rank_order()));
    crate::sort::lemma_sorted_by_is_sorted(vs, rank_order());
    crate::sort::lemma_sorted_by_then(a, date_order(), rank_order());
    let b = sorted_by(a, date_order());
    let r = b.reverse();
    assert(r == sorted_videos(vs, SortingMethodVideos::Date));
    assert forall|i: int, j: int| 0 <= i < j < vs.len() && lex_le(
        (#[trigger] r[i]).pub_date@,
        (#[trigger] r[j]).pub_date@,
    ) implies rank(r[j]) <= rank(r[i]) by {
        let n = b.len() as int;
        assert(r[i] == b[n - 1 - i]);
        assert(r[j] == b[n - 1 - j]);
        assert(date_order()(b[n - 1 - i], b[n - 1 - j]));
        assert(rank_order()(b[n - 1 - j], b[n - 1 - i]));
    }
    assert forall|i: int, j: int| 0 <= i < j < vs.len() implies lex_le(
        (#[trigger] r[j]).pub_date@,
        (#[trigger] r[i]).pub_date@,
    ) by {
        let n = b.len() as int;
        assert(r[i] == b[n - 1 - i]);
        assert(r[j] == b[n - 1 - j]);
        assert(date_order()(b[n - 1 - j], b[n - 1 - i]));
    }
    assert forall|x: Video| r.contains(x) <==> vs.contains(x) by {
        lemma_sorted_videos_contains(vs, SortingMethodVideos::Date, x);
    }
}

/// Publication dates, newest first.
pub open spec fn newer_first() -> spec_fn(Video, Video) -> bool {
    |a: Video, b: Video| lex_le(b.pub_date@, a.pub_date@)
}

/// Ordered by unseen date, the videos come by rank (favourites, then
/// unmarked, then marked), and among those of the same rank newest first;
/// none is lost or added.
pub proof fn law_unseen_date_newest_first(vs: Seq<Video>)
    ensures
        sorted_videos(vs, SortingMethodVideos::UnseenDate).len() == vs.len(),
        forall|i: int, j: int|
            0 <= i < j < vs.len() ==> rank(#[trigger] sorted_videos(vs, SortingMethodVideos::UnseenDate)[i])
                <= rank(#[trigger] sorted_videos(vs, SortingMethodVideos::UnseenDate)[j]),
        forall|i: int, j: int|
            0 <= i < j < vs.len() && rank(
                #[trigger] sorted_videos(vs, SortingMethodVideos::UnseenDate)[i],
            ) == rank(#[trigger] sorted_videos(vs, SortingMethodVideos::UnseenDate)[j]) ==> lex_le(
                sorted_videos(vs, SortingMethodVideos::UnseenDate)[j].pub_date@,
                sorted_videos(vs, SortingMethodVideos::UnseenDate)[i].pub_date@,
            ),
        forall|x: Video|
            sorted_videos(vs, SortingMethodVideos::UnseenDate).contains(x) <==> vs.contains(x),
{
    lemma_date_order_total();
    assert(crate::sort::total_preorder(rank_order()));
    let a = sorted_by(vs, date_order());
    crate::sort::lemma_sorted_by_len(vs, date_order());
    crate::sort::lemma_sorted_by_is_sorted(vs, date_order());
    let d = a.reverse();
    assert forall|i: int, j: int| 0 <= i < j < d.len() implies newer_first()(#[trigger] d[i], #[trigger] d[j]) by {
        let n = a.len() as int;
        assert(d[i] == a[n - 1 - i]);
        assert(d[j] == a[n - 1 - j]);
        assert(date_order()(a[n - 1 - j], a[n - 1 - i]));
    }
    crate::sort::lemma_sorted_by_then(d, rank_order(), newer_first());
    crate::sort::lemma_sorted_by_len(d, rank_order());
    let r = sorted_by(d, rank_order());
    assert(r == sorted_videos(vs, SortingMethodVideos::UnseenDate));
    assert forall|i: int, j: int| 0 <= i < j < vs.len() implies rank(#[trigger] r[i]) <= rank(#[trigger] r[j]) by {
        assert(rank_order()(r[i], r[j]));
    }
    assert forall|i: int, j: int| 0 <= i < j < vs.len() && rank(#[trigger] r[i]) == rank(#[trigger] r[j]) implies lex_le(
        r[j].pub_date@,
        r[i].pub_date@,
    ) by {
        assert(rank_order()(r[j], r[i]));
        assert(newer_first()(r[i], r[j]));
    }
    assert forall|x: Video| r.contains(x) <==> vs.contains(x) by {
        lemma_sorted_videos_contains(vs, SortingMethodVideos::UnseenDate, x);
    }
}

/// The videos in reverse order.
pub fn reverse_videos(v: Vec<Video>) -> (r: Vec<Video>)
    ensures
        r@ == v@.reverse(),
{
    let ghost orig = v@;
    let mut input = v;
    let mut out: Vec<Video> = Vec::new();
    while input.len() > 0
        invariant
            input@ == orig.take(input@.len() as int),
            out@ == orig.skip(input@.len() as int).reverse(),
            input@.len() <= orig.len(),
        decreases input.len(),
    {
        let ghost k = input@.len();
        let x = input.pop().unwrap();
        out.push(x);
        assert(input@ =~= orig.take(input@.len() as int));
        assert(out@ =~= orig.skip(input@.len() as int).reverse());
    }
    assert(orig.skip(0) =~= orig);
    out
}

/// Orders videos stably by publication date.
pub fn sort_by_date(v: Vec<Video>) -> (r: Vec<Video>)
    ensures
        r@ == sorted_by(v@, date_order()),
{
    let le = |a: &Video, b: &Video| -> (o: bool)
        ensures
            o == lex_le(a.pub_date@, b.pub_date@),
        { str_le(a.pub_date.as_str(), b.pub_date.as_str()) };
    sort_by_le(v, le, Ghost(date_order()))
}

/// Orders videos stably by priority.
pub fn sort_by_rank(v: Vec<Video>) -> (r: Vec<Video>)
    ensures
        r@ == sorted_by(v@, rank_order()),
{
    let le = |a: &Video, b: &Video| -> (o: bool)
        ensures
            o == (rank(*a) <= rank(*b)),
        { a.rank() <= b.rank() };
    sort_by_le(v, le, Ghost(rank_order()))
}

/// Orders videos stably by title, with runs of digits taken by their
/// value; no title comes after a greater one right behind it.
pub fn sort_by_title(v: Vec<Video>) -> (r: Vec<Video>)
    ensures
        r@ == sorted_by(v@, title_order()),
        adjacent_sorted(r@, title_order()),
{
    let le = |a: &Video, b: &Video| -> (o: bool)
        ensures
            o == (alphanumeric_order(a.title@, b.title@) != 1),
            !o ==> alphanumeric_order(b.title@, a.title@) != 1,
        { compare_alphanumeric(a.title.as_str(), b.title.as_str()) != 1 };
    sort_by_le(v, le, Ghost(title_order()))
}

/// Orders videos as `method` asks.
pub fn sort_videos(v: Vec<Video>, method: SortingMethodVideos) -> (r: Vec<Video>)
    ensures
        r@ == sorted_videos(v@, method),
        method == SortingMethodVideos::Text ==> adjacent_sorted(r@, title_order()),
{
    match method {
        SortingMethodVideos::Date => reverse_videos(sort_by_date(sort_by_rank(v))),
        SortingMethodVideos::Text => sort_by_title(v),
        SortingMethodVideos::UnseenDate => sort_by_rank(reverse_videos(sort_by_date(v))),
        SortingMethodVideos::UnseenText => sort_by_rank(sort_by_title(v)),
    }
}

/// Whether some video of `vs` is the same video as `video`.
pub fn videos_contain(vs: &Vec<Video>, video: &Video) -> (r: bool)
    ensures
        r == contains_video(vs@, *video),
{
    let mut i: usize = 0;
    while i < vs.len()
        invariant
            i <= vs.len(),
            forall|k: int| 0 <= k < i ==> !same_video(#[trigger] vs@[k], *video),
        decreases vs.len() - i,
    {
        if vs[i].same_as(video) {
            return true;
        }
        i = i + 1;
    }
    false
}

/// A copy of the videos.
pub fn clone_videos(v: &Vec<Video>) -> (r: Vec<Video>)
    ensures
        r@ == v@,
{
    let mut r: Vec<Video> = Vec::new();
    let mut i: usize = 0;
    while i < v.len()
        invariant
            i <= v.len(),
            r@ == v@.take(i as int),
        decreases v.len() - i,
    {
        r.push(v[i].clone());
        i = i + 1;
        assert(r@ =~= v@.take(i as int));
    }
    assert(v@.take(i as int) =~= v@);
    r
}

impl Clone for Channel {
    fn clone(&self) -> (r: Self)
        ensures
            r@ == self@,
    {
        Channel {
            name: self.name.clone(),
            id: self.id.clone(),
            videos: clone_videos(&self.videos),
            sorting_method: self.sorting_method,
            tag: self.tag.clone(),
            selected: self.selected,
            fetch_state: self.fetch_state,
        }
    }
}

/// Both channels have the same id, name and tag, and videos with the same
/// links in the same order.
pub open spec fn same_channel(a: ChannelView, b: ChannelView) -> bool {
    &&& a.id == b.id
    &&& a.name == b.name
    &&& a.tag == b.tag
    &&& a.videos.len() == b.videos.len()
    &&& forall|i: int| 0 <= i < a.videos.len() ==> same_video(#[trigger] a.videos[i], b.videos[i])
}

impl PartialEq for Channel {
    fn eq(&self, other: &Self) -> (r: bool) {
        if !(self.id == other.id && self.name == other.name && self.tag == other.tag) {
            return false;
        }
        if self.videos.len() != other.videos.len() {
            return false;
        }
        let mut i: usize = 0;
        while i < self.videos.len()
            invariant
                i <= self.videos.len(),
                self.videos@.len() == other.videos@.len(),
                forall|k: int| 0 <= k < i ==> same_video(#[trigger] self.videos@[k], other.videos@[k]),
            decreases self.videos.len() - i,
        {
            if !self.videos[i].same_as(&other.videos[i]) {
                return false;
            }
            i = i + 1;
        }
        true
    }
}

impl vstd::std_specs::cmp::PartialEqSpecImpl for Channel {
    open spec fn obeys_eq_spec() -> bool {
        true
    }

    open spec fn eq_spec(&self, other: &Self) -> bool {
        same_channel(self@, other@)
    }
}

impl Channel {
    /// An empty channel: no name, id, tag or videos, nothing selected.
    pub fn default() -> (c: Channel)
        ensures
            c.name@ == Seq::<char>::empty(),
            c.id@ == Seq::<char>::empty(),
            c.tag@ == Seq::<char>::empty(),
            c.videos@ == Seq::<Video>::empty(),
            c.sorting_method == SortingMethodVideos::UnseenDate,
            c.selected is None,
            c.fetch_state == FetchState::Scheduled,
    {
        Channel {
            name: String::new(),
            id: String::new(),
            videos: Vec::new(),
            sorting_method: SortingMethodVideos::default(),
            tag: String::new(),
            selected: None,
            fetch_state: FetchState::default(),
        }
    }

    pub fn next(&mut self)
        ensures
            *final(self) == (Channel {
                selected: next_selection(old(self).selected, old(self).videos@.len()),
                ..*old(self)
            }),
    {
        let index: usize = match self.selected {
            Some(i) => if self.videos.len() > 0 && i < self.videos.len() - 1 { i + 1 } else { i },
            None => 0,
        };
        self.selected = Some(index);
    }

    pub fn prev(&mut self)
        ensures
            *final(self) == (Channel { selected: prev_selection(old(self).selected), ..*old(self) }),
    {
        let index: usize = match self.selected {
            Some(i) => if i > 0 { i - 1 } else { i },
            None => 0,
        };
        self.selected = Some(index);
    }

    /// Whether some video is not marked yet.
    pub fn has_new(&self) -> (r: bool)
        ensures
            r == has_new_video(self.videos@),
    {
        let mut i: usize = 0;
        while i < self.videos.len()
            invariant
                i <= self.videos.len(),
                forall|k: int| 0 <= k < i ==> (#[trigger] self.videos@[k]).marked,
            decreases self.videos.len() - i,
        {
            if !self.videos[i].marked {
                return true;
            }
            i = i + 1;
        }
        false
    }

    /// Takes over what the subscription says: its name unless that is
    /// empty, its tag and its ordering of videos.
    pub fn update_from_url_file(&mut self, name: &str, tag: &str, sorting: SortingMethodVideos)
        ensures
            final(self).name@ == (if name@.len() == 0 { old(self).name@ } else { name@ }),
            final(self).tag@ == tag@,
            final(self).sorting_method == sorting,
            final(self).id == old(self).id,
            final(self).videos == old(self).videos,
            final(self).selected == old(self).selected,
            final(self).fetch_state == old(self).fetch_state,
    {
        if !name.is_empty() {
            self.name = String::from_str(name);
        }
        self.tag = String::from_str(tag);
        self.sorting_method = sorting;
    }

    pub fn id(&self) -> (r: &String)
        ensures
            r == &self.id,
    {
        &self.id
    }

    pub fn name(&self) -> (r: &String)
        ensures
            r == &self.name,
    {
        &self.name
    }

    pub fn tag(&self) -> (r: &String)
        ensures
            r == &self.tag,
    {
        &self.tag
    }

    pub fn select(&mut self, i: Option<usize>)
        ensures
            *final(self) == (Channel { selected: i, ..*old(self) }),
    {
        self.selected = i;
    }

    pub fn selected(&self) -> (r: Option<usize>)
        ensures
            r == self.selected,
    {
        self.selected
    }

    /// The selection, which is all the list state holds.
    pub fn state(&self) -> (r: Option<usize>)
        ensures
            r == self.selected,
    {
        self.selected
    }

    pub fn push(&mut self, video: Video)
        ensures
            *final(self) == (Channel { videos: final(self).videos, ..*old(self) }),
            final(self).videos@ == old(self).videos@.push(video),
    {
        self.videos.push(video);
    }

    pub fn get(&self, index: usize) -> (r: Option<&Video>)
        ensures
            index < self.videos@.len() ==> r == Some(&self.videos@[index as int]),
            index >= self.videos@.len() ==> r is None,
    {
        if index < self.videos.len() {
            Some(&self.videos[index])
        } else {
            None
        }
    }

    /// The video at `index`, to change in place.
    pub fn get_mut(&mut self, index: usize) -> (r: Option<&mut Video>)
        ensures
            index < old(self).videos@.len() ==> (r matches Some(v) && *v == old(self).videos@[index as int]
                && final(self).videos@ == old(self).videos@.update(index as int, *final(v))),
            index >= old(self).videos@.len() ==> r is None && *final(self) == *old(self),
            final(self).name == old(self).name,
            final(self).id == old(self).id,
            final(self).tag == old(self).tag,
            final(self).sorting_method == old(self).sorting_method,
            final(self).selected == old(self).selected,
            final(self).fetch_state == old(self).fetch_state,
    {
        if index < self.videos.len() {
            Some(&mut self.videos[index])
        } else {
            None
        }
    }

    /// Marks or unmarks the video at `index`, if there is one.
    pub fn mark_video(&mut self, index: usize, value: bool)
        ensures
            *final(self) == (Channel { videos: final(self).videos, ..*old(self) }),
            index < old(self).videos@.len() ==> final(self).videos@ == old(self).videos@.update(
                index as int,
                Video { marked: value, ..old(self).videos@[index as int] },
            ),
            index >= old(self).videos@.len() ==> final(self).videos == old(self).videos,
    {
        if index < self.videos.len() {
            self.videos[index].mark(value);
        }
    }

    /// Makes the video at `index` a favourite or none, if there is one.
    pub fn set_video_fav(&mut self, index: usize, value: bool)
        ensures
            *final(self) == (Channel { videos: final(self).videos, ..*old(self) }),
            index < old(self).videos@.len() ==> final(self).videos@ == old(self).videos@.update(
                index as int,
                Video { fav: value, ..old(self).videos@[index as int] },
            ),
            index >= old(self).videos@.len() ==> final(self).videos == old(self).videos,
    {
        if index < self.videos.len() {
            self.videos[index].set_fav(value);
        }
    }

    /// Whether the channel holds the same video.
    pub fn contains(&self, video: &Video) -> (r: bool)
        ensures
            r == contains_video(self.videos@, *video),
    {
        videos_contain(&self.videos, video)
    }

    /// Orders the videos as the channel's sorting method asks.
    pub fn sort(&mut self)
        ensures
            *final(self) == (Channel { videos: final(self).videos, ..*old(self) }),
            final(self).videos@ == sorted_videos(old(self).videos@, old(self).sorting_method),
    {
        let mut videos: Vec<Video> = Vec::new();
        std::mem::swap(&mut videos, &mut self.videos);
        self.videos = sort_videos(videos, self.sorting_method);
    }

    /// Adds each of `other_videos` that the channel does not hold yet, then
    /// orders the videos.
    pub fn merge_videos(&mut self, other_videos: Vec<Video>)
        ensures
            *final(self) == (Channel { videos: final(self).videos, ..*old(self) }),
            final(self).videos@ == sorted_videos(
                merged_videos(old(self).videos@, other_videos@),
                old(self).sorting_method,
            ),
            final(self)@ == merge_into(old(self)@, other_videos@),
    {
        let ghost others = other_videos@;
        let ghost start = self.videos@;
        let mut input = other_videos;
        let mut i: usize = 0;
        let n: usize = input.len();
        assert(others.take(0) =~= Seq::<Video>::empty());
        assert(others.skip(0) =~= others);
        while input.len() > 0
            invariant
                i <= n,
                n == others.len(),
                input@ == others.skip(i as int),
                self.videos@ == merged_videos(start, others.take(i as int)),
                self.name == old(self).name,
                self.id == old(self).id,
                self.sorting_method == old(self).sorting_method,
                self.tag == old(self).tag,
                self.selected == old(self).selected,
                self.fetch_state == old(self).fetch_state,
            decreases input.len(),
        {
            assert(i < n);
            let video = input.remove(0);
            proof {
                assert(others.take(i + 1).drop_last() =~= others.take(i as int));
                assert(others.take(i + 1).last() == video);
            }
            if !self.contains(&video) {
                self.push(video);
            }
            i = i + 1;
            assert(input@ =~= others.skip(i as int));
        }
        assert(others.take(i as int) =~= others);
        self.sort();
    }

    /// A builder for a channel.
    pub fn builder() -> (b: ChannelBuilder)
        ensures
            b.channel.name@ == Seq::<char>::empty(),
            b.channel.id@ == Seq::<char>::empty(),
            b.channel.tag@ == Seq::<char>::empty(),
            b.channel.videos@ == Seq::<Video>::empty(),
            b.channel.sorting_method == SortingMethodVideos::UnseenDate,
            b.channel.selected is None,
            b.channel.fetch_state == FetchState::Scheduled,
            b.new_videos@ == Seq::<Video>::empty(),
            b.old_videos@ == Seq::<Video>::empty(),
    {
        ChannelBuilder::default()
    }
}

/// Assembles a channel from the videos already known and those a feed
/// brought.
pub struct ChannelBuilder {
    pub channel: Channel,
    pub new_videos: Vec<Video>,
    pub old_videos: Vec<Video>,
}

/// The position of the first video of `vs` that is the same video as `v`.
pub open spec fn position_of(vs: Seq<Video>, v: Video) -> Option<int>
    decreases vs.len(),
{
    if vs.len() == 0 {
        None
    } else {
        match position_of(vs.drop_last(), v) {
            Some(p) => Some(p),
            None => if same_video(vs.last(), v) { Some(vs.len() - 1) } else { None },
        }
    }
}

/// The known videos `vs` updated by the fetched `news`, in turn: a video
/// already known takes the new title, an unknown one is added at the end.
pub open spec fn built_videos(vs: Seq<Video>, news: Seq<Video>) -> Seq<Video>
    decreases news.len(),
{
    if news.len() == 0 {
        vs
    } else {
        let m = built_videos(vs, news.drop_last());
        let v = news.last();
        match position_of(m, v) {
            Some(p) => m.update(p, Video { title: v.title, ..m[p] }),
            None => m.push(v),
        }
    }
}

proof fn lemma_position_of_first(vs: Seq<Video>, v: Video, i: int)
    requires
        0 <= i <= vs.len(),
        forall|k: int| 0 <= k < i ==> !same_video(#[trigger] vs[k], v),
    ensures
        position_of(vs.take(i), v) is None,
    decreases i,
{
    if i > 0 {
        assert(vs.take(i).drop_last() =~= vs.take(i - 1));
        lemma_position_of_first(vs, v, i - 1);
    }
}

proof fn lemma_position_of_prefix(vs: Seq<Video>, v: Video, i: int)
    requires
        0 <= i <= vs.len(),
        position_of(vs.take(i), v) is Some,
    ensures
        position_of(vs, v) == position_of(vs.take(i), v),
    decreases vs.len() - i,
{
    if i < vs.len() {
        assert(vs.take(i + 1).drop_last() =~= vs.take(i));
        lemma_position_of_prefix(vs, v, i + 1);
    } else {
        assert(vs.take(i) =~= vs);
    }
}

proof fn lemma_position_of_none(vs: Seq<Video>, v: Video)
    requires
        forall|k: int| 0 <= k < vs.len() ==> !same_video(#[trigger] vs[k], v),
    ensures
        position_of(vs, v) is None,
{
    lemma_position_of_first(vs, v, vs.len() as int);
    assert(vs.take(vs.len() as int) =~= vs);
}

proof fn lemma_position_of_found(vs: Seq<Video>, v: Video)
    ensures
        position_of(vs, v) matches Some(p) ==> 0 <= p < vs.len() && same_video(vs[p], v),
    decreases vs.len(),
{
    if vs.len() > 0 {
        lemma_position_of_found(vs.drop_last(), v);
    }
}

proof fn lemma_built_keeps(vs: Seq<Video>, news: Seq<Video>)
    ensures
        forall|i: int| 0 <= i < vs.len() ==> contains_video(built_videos(vs, news), #[trigger] vs[i]),
        forall|i: int| 0 <= i < news.len() ==> contains_video(built_videos(vs, news), #[trigger] news[i]),
    decreases news.len(),
{
    if news.len() > 0 {
        let prev = news.drop_last();
        lemma_built_keeps(vs, prev);
        let m = built_videos(vs, prev);
        let v = news.last();
        let r = built_videos(vs, news);
        lemma_position_of_found(m, v);
        // every video of `m` keeps its link in `r`, and `v` has one with its link
        assert forall|w: int| 0 <= w < m.len() implies same_video(#[trigger] r[w], m[w]) by {}
        assert(contains_video(r, v)) by {
            match position_of(m, v) {
                Some(p) => assert(same_video(r[p], v)),
                None => assert(r[m.len() as int] == v),
            }
        }
        assert forall|i: int| 0 <= i < vs.len() implies contains_video(r, #[trigger] vs[i]) by {
            let w = choose|w: int| 0 <= w < m.len() && same_video(#[trigger] m[w], vs[i]);
            assert(same_video(r[w], m[w]));
        }
        assert forall|i: int| 0 <= i < news.len() implies contains_video(r, #[trigger] news[i]) by {
            if i < prev.len() {
                assert(news[i] == prev[i]);
                let w = choose|w: int| 0 <= w < m.len() && same_video(#[trigger] m[w], prev[i]);
                assert(same_video(r[w], m[w]));
            } else {
                assert(news[i] == v);
            }
        }
    }
}

/// Building a channel's videos from those known of it and those fetched
/// loses no video: in whatever order the channel asks for, each known
/// video and each fetched one is there afterwards, matched by its link.
pub proof fn law_built_keeps_videos(vs: Seq<Video>, news: Seq<Video>, sorting: SortingMethodVideos)
    ensures
        forall|i: int|
            0 <= i < vs.len() ==> contains_video(sorted_videos(built_videos(vs, news), sorting), #[trigger] vs[i]),
        forall|i: int|
            0 <= i < news.len() ==> contains_video(
                sorted_videos(built_videos(vs, news), sorting),
                #[trigger] news[i],
            ),
{
    lemma_built_keeps(vs, news);
    let m = built_videos(vs, news);
    let r = sorted_videos(m, sorting);
    assert forall|i: int| 0 <= i < vs.len() implies contains_video(r, #[trigger] vs[i]) by {
        let w = choose|w: int| 0 <= w < m.len() && same_video(#[trigger] m[w], vs[i]);
        assert(m.contains(m[w]));
        lemma_sorted_videos_contains(m, sorting, m[w]);
        let z = choose|z: int| 0 <= z < r.len() && r[z] == m[w];
        assert(same_video(r[z], vs[i]));
    }
    assert forall|i: int| 0 <= i < news.len() implies contains_video(r, #[trigger] news[i]) by {
        let w = choose|w: int| 0 <= w < m.len() && same_video(#[trigger] m[w], news[i]);
        assert(m.contains(m[w]));
        lemma_sorted_videos_contains(m, sorting, m[w]);
        let z = choose|z: int| 0 <= z < r.len() && r[z] == m[w];
        assert(same_video(r[z], news[i]));
    }
}

/// Where the same video as `v` first stands in `vs`.
pub fn find_video(vs: &Vec<Video>, v: &Video) -> (r: Option<usize>)
    ensures
        r matches Some(p) ==> p < vs@.len() && position_of(vs@, *v) == Some(p as int),
        r is None ==> position_of(vs@, *v) is None,
{
    let mut i: usize = 0;
    while i < vs.len()
        invariant
            i <= vs.len(),
            forall|k: int| 0 <= k < i ==> !same_video(#[trigger] vs@[k], *v),
        decreases vs.len() - i,
    {
        if vs[i].same_as(v) {
            proof {
                lemma_position_of_first(vs@, *v, i as int);
                assert(vs@.take(i + 1).drop_last() =~= vs@.take(i as int));
                lemma_position_of_prefix(vs@, *v, i + 1);
            }
            return Some(i);
        }
        i = i + 1;
    }
    proof {
        lemma_position_of_none(vs@, *v);
    }
    None
}

impl ChannelBuilder {
    /// A builder for an empty channel, without videos.
    pub fn default() -> (b: ChannelBuilder)
        ensures
            b.channel.name@ == Seq::<char>::empty(),
            b.channel.id@ == Seq::<char>::empty(),
            b.channel.tag@ == Seq::<char>::empty(),
            b.channel.videos@ == Seq::<Video>::empty(),
            b.channel.sorting_method == SortingMethodVideos::UnseenDate,
            b.channel.selected is None,
            b.channel.fetch_state == FetchState::Scheduled,
            b.new_videos@ == Seq::<Video>::empty(),
            b.old_videos@ == Seq::<Video>::empty(),
    {
        ChannelBuilder { channel: Channel::default(), new_videos: Vec::new(), old_videos: Vec::new() }
    }

    /// Takes the feed's name as the channel's name and its videos as the
    /// new ones.
    pub fn add_from_feed(self, feed: crate::feed::Feed) -> (b: ChannelBuilder)
        ensures
            b.channel == (Channel { name: feed.name, ..self.channel }),
            b.new_videos == feed.videos,
            b.old_videos == self.old_videos,
    {
        let mut b = self;
        b.channel.name = feed.name;
        b.new_videos = feed.videos;
        b
    }

    pub fn with_name(self, name: String) -> (b: ChannelBuilder)
        ensures
            b.channel == (Channel { name: name, ..self.channel }),
            b.new_videos == self.new_videos,
            b.old_videos == self.old_videos,
    {
        let mut b = self;
        b.channel.name = name;
        b
    }

    pub fn with_id(self, id: String) -> (b: ChannelBuilder)
        ensures
            b.channel == (Channel { id: id, ..self.channel }),
            b.new_videos == self.new_videos,
            b.old_videos == self.old_videos,
    {
        let mut b = self;
        b.channel.id = id;
        b
    }

    pub fn with_tag(self, tag: String) -> (b: ChannelBuilder)
        ensures
            b.channel == (Channel { tag: tag, ..self.channel }),
            b.new_videos == self.new_videos,
            b.old_videos == self.old_videos,
    {
        let mut b = self;
        b.channel.tag = tag;
        b
    }

    pub fn with_old_videos(self, videos: Vec<Video>) -> (b: ChannelBuilder)
        ensures
            b.channel == self.channel,
            b.new_videos == self.new_videos,
            b.old_videos == videos,
    {
        let mut b = self;
        b.old_videos = videos;
        b
    }

    pub fn with_sorting(self, sorting_method: SortingMethodVideos) -> (b: ChannelBuilder)
        ensures
            b.channel == (Channel { sorting_method: sorting_method, ..self.channel }),
            b.new_videos == self.new_videos,
            b.old_videos == self.old_videos,
    {
        let mut b = self;
        b.channel.sorting_method = sorting_method;
        b
    }

    /// The channel: the known videos, each fetched video merged in (a known
    /// one takes the new title, an unknown one is added), then ordered.
    pub fn build(self) -> (c: Channel)
        ensures
            c == (Channel { videos: c.videos, ..self.channel }),
            c.videos@ == sorted_videos(
                built_videos(self.old_videos@, self.new_videos@),
                self.channel.sorting_method,
            ),
    {
        let ghost news = self.new_videos@;
        let mut videos = self.old_videos;
        let mut input = self.new_videos;
        let mut channel = self.channel;
        let ghost start = videos@;
        let n: usize = input.len();
        let mut i: usize = 0;
        assert(news.take(0) =~= Seq::<Video>::empty());
        assert(news.skip(0) =~= news);
        while input.len() > 0
            invariant
                i <= n,
                n == news.len(),
                input@ == news.skip(i as int),
                videos@ == built_videos(start, news.take(i as int)),
            decreases input.len(),
        {
            assert(i < n);
            let video = input.remove(0);
            proof {
                assert(news.take(i + 1).drop_last() =~= news.take(i as int));
                assert(news.take(i + 1).last() == video);
            }
            match find_video(&videos, &video) {
                Some(p) => {
                    let mut old_video = videos.remove(p);
                    old_video.title = video.title;
                    videos.insert(p, old_video);
                },
                None => {
                    videos.push(video);
                },
            }
            i = i + 1;
            assert(input@ =~= news.skip(i as int));
        }
        assert(news.take(i as int) =~= news);
        channel.videos = videos;
        channel.sort();
        channel
    }
}

} // verus!
