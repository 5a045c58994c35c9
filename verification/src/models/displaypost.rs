use vstd::prelude::*;

verus! {

/// Surrogate key of a post prepared for display.
#[derive(Clone, Copy, Debug, PartialEq, Eq, Structural)]
pub struct DisplayPostId(pub i32);

/// A post prepared for rendering: the stored fields together with the
/// viewer-dependent vote data (the tally and whether the viewer voted).
#[derive(Debug)]
pub struct DisplayPost {
    pub id: DisplayPostId,
    pub title: String,
    pub query_string: String,
    pub explanation: String,
    pub img_url: String,
    pub apod_date: String,
    pub already_liked: bool,
    pub num_likes: i64,
}

impl DisplayPost {
    pub fn new(
        id: DisplayPostId,
        title: String,
        query_string: String,
        explanation: String,
        img_url: String,
        apod_date: String,
        already_liked: bool,
        num_likes: i64,
    ) -> (r: Self)
        ensures
            r.id == id,
            r.title == title,
            r.query_string == query_string,
            r.explanation == explanation,
            r.img_url == img_url,
            r.apod_date == apod_date,
            r.already_liked == already_liked,
            r.num_likes == num_likes,
    {
        DisplayPost { id, title, query_string, explanation, img_url, apod_date, already_liked, num_likes }
    }
}

} // verus!
