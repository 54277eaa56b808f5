use vstd::prelude::*;
use std::cmp::Ordering;

verus! {

/// One video of a channel.
#[derive(Debug)]
pub struct Video {
    pub title: String,
    pub link: String,
    pub origin_url: String,
    pub origin_channel_name: String,
    pub marked: bool,
    pub fav: bool,
    pub pub_date: String,
    pub is_new: bool,
}

/// The priority of a video when videos are ordered: favourites first, then
/// unmarked ones before marked ones.
pub open spec fn rank(v: Video) -> int {
    (if v.fav { 0int } else { 100int }) + (if v.marked { 10int } else { 0int })
}

/// Two videos are the same video when their links agree.
pub open spec fn same_video(a: Video, b: Video) -> bool {
    a.link@ == b.link@
}

impl Clone for Video {
    fn clone(&self) -> (r: Self)
        ensures
            r == *self,
    {
        Video {
            title: self.title.clone(),
            link: self.link.clone(),
            origin_url: self.origin_url.clone(),
            origin_channel_name: self.origin_channel_name.clone(),
            marked: self.marked,
            fav: self.fav,
            pub_date: self.pub_date.clone(),
            is_new: self.is_new,
        }
    }
}

impl PartialEq for Video {
    fn eq(&self, other: &Self) -> (r: bool) {
        self.link == other.link
    }
}

impl vstd::std_specs::cmp::PartialEqSpecImpl for Video {
    open spec fn obeys_eq_spec() -> bool {
        true
    }

    open spec fn eq_spec(&self, other: &Self) -> bool {
        self.link@ == other.link@
    }
}

/// The order of two videos by priority: favourites first, then unmarked
/// ones before marked ones.
pub open spec fn rank_ordering(a: Video, b: Video) -> Ordering {
    if rank(a) < rank(b) {
        Ordering::Less
    } else if rank(a) == rank(b) {
        Ordering::Equal
    } else {
        Ordering::Greater
    }
}

impl PartialOrd for Video {
    fn partial_cmp(&self, other: &Self) -> (r: Option<Ordering>) {
        let a = self.rank();
        let b = other.rank();
        if a < b {
            Some(Ordering::Less)
        } else if a == b {
            Some(Ordering::Equal)
        } else {
            Some(Ordering::Greater)
        }
    }
}

impl vstd::std_specs::cmp::PartialOrdSpecImpl for Video {
    open spec fn obeys_partial_cmp_spec() -> bool {
        true
    }

    open spec fn partial_cmp_spec(&self, other: &Self) -> Option<Ordering> {
        Some(rank_ordering(*self, *other))
    }
}

impl Video {
    /// A placeholder video, unmarked and new.
    pub fn new() -> (v: Video)
        ensures
            v.title@ == "VideoTitle"@,
            v.link@ == "video_link"@,
            v.origin_url@ == "origin_url"@,
            v.origin_channel_name@ == Seq::<char>::empty(),
            v.pub_date@ == "DATUM"@,
            !v.marked,
            !v.fav,
            v.is_new,
    {
        Video {
            title: String::from_str("VideoTitle"),
            link: String::from_str("video_link"),
            origin_url: String::from_str("origin_url"),
            origin_channel_name: String::new(),
            marked: false,
            fav: false,
            pub_date: String::from_str("DATUM"),
            is_new: true,
        }
    }

    /// An empty video: every text empty, every flag off.
    pub fn empty() -> (v: Video)
        ensures
            v.title@ == Seq::<char>::empty(),
            v.link@ == Seq::<char>::empty(),
            v.origin_url@ == Seq::<char>::empty(),
            v.origin_channel_name@ == Seq::<char>::empty(),
            v.pub_date@ == Seq::<char>::empty(),
            !v.marked,
            !v.fav,
            !v.is_new,
    {
        Video {
            title: String::new(),
            link: String::new(),
            origin_url: String::new(),
            origin_channel_name: String::new(),
            marked: false,
            fav: false,
            pub_date: String::new(),
            is_new: false,
        }
    }

    pub fn mark(&mut self, value: bool)
        ensures
            *final(self) == (Video { marked: value, ..*old(self) }),
    {
        self.marked = value;
    }

    pub fn is_fav(&self) -> (r: bool)
        ensures
            r == self.fav,
    {
        self.fav
    }

    pub fn set_fav(&mut self, is_fav: bool)
        ensures
            *final(self) == (Video { fav: is_fav, ..*old(self) }),
    {
        self.fav = is_fav;
    }

    pub fn title(&self) -> (r: &String)
        ensures
            r == &self.title,
    {
        &self.title
    }

    pub fn link(&self) -> (r: &String)
        ensures
            r == &self.link,
    {
        &self.link
    }

    pub fn origin_url(&self) -> (r: &String)
        ensures
            r == &self.origin_url,
    {
        &self.origin_url
    }

    pub fn origin_channel_name(&self) -> (r: &String)
        ensures
            r == &self.origin_channel_name,
    {
        &self.origin_channel_name
    }

    pub fn marked(&self) -> (r: bool)
        ensures
            r == self.marked,
    {
        self.marked
    }

    pub fn pub_date(&self) -> (r: &String)
        ensures
            r == &self.pub_date,
    {
        &self.pub_date
    }

    pub fn is_new(&self) -> (r: bool)
        ensures
            r == self.is_new,
    {
        self.is_new
    }

    /// The text shown when the video is opened.
    pub fn get_details(&self) -> (r: String)
        ensures
            r@ == self.title@,
    {
        self.title.clone()
    }

    pub fn add_origin_url(&mut self, url: &str)
        ensures
            *final(self) == (Video { origin_url: final(self).origin_url, ..*old(self) }),
            final(self).origin_url@ == url@,
    {
        self.origin_url = String::from_str(url);
    }

    /// The priority of this video in the ordering of videos.
    pub fn rank(&self) -> (r: u8)
        ensures
            r == rank(*self),
    {
        let a: u8 = if self.fav { 0 } else { 100 };
        let b: u8 = if self.marked { 10 } else { 0 };
        a + b
    }

    /// Whether both are the same video, that is whether their links agree.
    pub fn same_as(&self, other: &Video) -> (r: bool)
        ensures
            r == same_video(*self, *other),
    {
        self.link == other.link
    }
}

} // verus!
