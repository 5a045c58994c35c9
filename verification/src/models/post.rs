use vstd::prelude::*;

verus! {

/// Surrogate key of a stored post.
#[derive(Clone, Copy, Debug, PartialEq, Eq, Structural)]
pub struct PostId(pub i32);

/// A cached Astronomy Picture of the Day entry, keyed for lookup by its
/// `query_string` (the date the entry was requested under).
#[derive(Debug)]
pub struct Post {
    pub id: PostId,
    pub title: String,
    pub query_string: String,
    pub explanation: String,
    pub img_url: String,
    pub apod_date: String,
}

impl Post {
    pub fn new(
        id: PostId,
        title: String,
        query_string: String,
        explanation: String,
        img_url: String,
        apod_date: String,
    ) -> (r: Self)
        ensures
            r.id == id,
            r.title == title,
            r.query_string == query_string,
            r.explanation == explanation,
            r.img_url == img_url,
            r.apod_date == apod_date,
    {
        Post { id, title, query_string, explanation, img_url, apod_date }
    }

    /// A field-by-field copy of this post.
    pub fn duplicate(&self) -> (r: Post)
        ensures
            r == *self,
    {
        Post {
            id: self.id,
            title: self.title.clone(),
            query_string: self.query_string.clone(),
            explanation: self.explanation.clone(),
            img_url: self.img_url.clone(),
            apod_date: self.apod_date.clone(),
        }
    }
}

/// The fields a client supplies to create a post.
#[derive(Debug)]
pub struct CreatePost {
    pub title: String,
    pub query_string: String,
    pub explanation: String,
    pub img_url: String,
    pub apod_date: String,
}

/// A post lookup request by id.
pub struct GetPostById {
    pub post_id: i32,
}

/// The fields a client supplies to update an existing post.
#[derive(Debug)]
pub struct UpdatePost {
    pub id: PostId,
    pub title: String,
    pub query_string: String,
    pub explanation: String,
    pub img_url: String,
    pub apod_date: String,
}

} // verus!
