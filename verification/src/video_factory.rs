use vstd::prelude::*;
use crate::video::Video;

verus! {

/// Assembles a video field by field; `commit` hands the video out only
/// once every field has been set.
pub struct VideoFactory {
    pub video: Video,
    pub title_set: bool,
    pub link_set: bool,
    pub origin_url_set: bool,
    pub origin_channel_name_set: bool,
    pub pub_date_set: bool,
    pub marked_set: bool,
    pub new_set: bool,
    pub fav_set: bool,
}

/// The complaint of `commit` about the first field, in the order the
/// fields are checked, that was not set; `None` when all were set.
pub open spec fn first_missing(f: VideoFactory) -> Option<Seq<char>> {
    if !f.title_set {
        Some("Title not set"@)
    } else if !f.link_set {
        Some("link not set"@)
    } else if !f.origin_url_set {
        Some("origin_url not set"@)
    } else if !f.origin_channel_name_set {
        Some("origin_channel_name not set"@)
    } else if !f.pub_date_set {
        Some("pub_date not set"@)
    } else if !f.marked_set {
        Some("marked not set"@)
    } else if !f.new_set {
        Some("New not set"@)
    } else {
        None
    }
}

impl PartialEq for VideoFactory {
    fn eq(&self, other: &Self) -> (r: bool) {
        self.same_as(other)
    }
}

impl vstd::std_specs::cmp::PartialEqSpecImpl for VideoFactory {
    open spec fn obeys_eq_spec() -> bool {
        true
    }

    open spec fn eq_spec(&self, other: &Self) -> bool {
        self.video.link@ == other.video.link@
    }
}

impl VideoFactory {
    /// A factory with nothing set; the video it holds is empty, unmarked,
    /// new and no favourite.
    pub fn create() -> (f: VideoFactory)
        ensures
            f.video.title@ == Seq::<char>::empty(),
            f.video.link@ == Seq::<char>::empty(),
            f.video.origin_url@ == Seq::<char>::empty(),
            f.video.origin_channel_name@ == Seq::<char>::empty(),
            f.video.pub_date@ == Seq::<char>::empty(),
            !f.video.marked,
            f.video.is_new,
            !f.video.fav,
            !f.title_set && !f.link_set && !f.origin_url_set && !f.origin_channel_name_set,
            !f.pub_date_set && !f.marked_set && !f.new_set && !f.fav_set,
    {
        let mut video = Video::empty();
        video.is_new = true;
        VideoFactory {
            video,
            title_set: false,
            link_set: false,
            origin_url_set: false,
            origin_channel_name_set: false,
            pub_date_set: false,
            marked_set: false,
            new_set: false,
            fav_set: false,
        }
    }

    pub fn set_title(&mut self, title: String)
        ensures
            *final(self) == (VideoFactory {
                video: Video { title: title, ..old(self).video },
                title_set: true,
                ..*old(self)
            }),
    {
        self.video.title = title;
        self.title_set = true;
    }

    pub fn set_link(&mut self, link: String)
        ensures
            *final(self) == (VideoFactory {
                video: Video { link: link, ..old(self).video },
                link_set: true,
                ..*old(self)
            }),
    {
        self.video.link = link;
        self.link_set = true;
    }

    pub fn set_origin_url(&mut self, url: String)
        ensures
            *final(self) == (VideoFactory {
                video: Video { origin_url: url, ..old(self).video },
                origin_url_set: true,
                ..*old(self)
            }),
    {
        self.video.origin_url = url;
        self.origin_url_set = true;
    }

    pub fn set_origin_channel_name(&mut self, name: String)
        ensures
            *final(self) == (VideoFactory {
                video: Video { origin_channel_name: name, ..old(self).video },
                origin_channel_name_set: true,
                ..*old(self)
            }),
    {
        self.video.origin_channel_name = name;
        self.origin_channel_name_set = true;
    }

    pub fn set_pub_date(&mut self, date: String)
        ensures
            *final(self) == (VideoFactory {
                video: Video { pub_date: date, ..old(self).video },
                pub_date_set: true,
                ..*old(self)
            }),
    {
        self.video.pub_date = date;
        self.pub_date_set = true;
    }

    pub fn set_marked(&mut self, marked: bool)
        ensures
            *final(self) == (VideoFactory {
                video: Video { marked: marked, ..old(self).video },
                marked_set: true,
                ..*old(self)
            }),
    {
        self.video.marked = marked;
        self.marked_set = true;
    }

    pub fn set_new(&mut self, is_new: bool)
        ensures
            *final(self) == (VideoFactory {
                video: Video { is_new: is_new, ..old(self).video },
                new_set: true,
                ..*old(self)
            }),
    {
        self.video.is_new = is_new;
        self.new_set = true;
    }

    pub fn set_fav(&mut self, is_fav: bool)
        ensures
            *final(self) == (VideoFactory {
                video: Video { fav: is_fav, ..old(self).video },
                fav_set: true,
                ..*old(self)
            }),
    {
        self.video.fav = is_fav;
        self.fav_set = true;
    }

    /// The video, once every field but the favourite mark has been set (a
    /// video not marked as favourite is none); else the complaint about the
    /// first field that was not.
    pub fn commit(self) -> (r: Result<Video, String>)
        ensures
            first_missing(self) is None ==> r == Ok::<Video, String>(self.video),
            first_missing(self) matches Some(m) ==> (r matches Err(e) && e@ == m),
    {
        if !self.title_set {
            return Err(String::from_str("Title not set"));
        }
        if !self.link_set {
            return Err(String::from_str("link not set"));
        }
        if !self.origin_url_set {
            return Err(String::from_str("origin_url not set"));
        }
        if !self.origin_channel_name_set {
            return Err(String::from_str("origin_channel_name not set"));
        }
        if !self.pub_date_set {
            return Err(String::from_str("pub_date not set"));
        }
        if !self.marked_set {
            return Err(String::from_str("marked not set"));
        }
        if !self.new_set {
            return Err(String::from_str("New not set"));
        }
        Ok(self.video)
    }

    /// Whether both factories hold the same video, by link.
    pub fn same_as(&self, other: &VideoFactory) -> (r: bool)
        ensures
            r == (self.video.link@ == other.video.link@),
    {
        self.video.link == other.video.link
    }
}

} // verus!
