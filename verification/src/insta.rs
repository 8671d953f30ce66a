//! Plain-data shapes of the feed collaborator's answers, and the conversion
//! from an answer plus a fetched image into a feed post.
//!
//! The HTTP client that fills these lives outside the library; the library
//! only consumes the values.

use vstd::prelude::*;

use crate::image::SizedImage;
use crate::post::{Hashtag, InstaPost, InstaPostId, PostModel};

verus! {

/// One entry of a hashtag page: enough to dedup and to fetch the image.
#[derive(Debug)]
pub struct InstaPartialPost {
    pub id: InstaPostId,
    pub image_url: String,
}

/// A single post, as answered by the feed for one id.
#[derive(Debug)]
pub struct InstaPostResponse {
    pub id: InstaPostId,
    pub user_name: String,
    pub image_url: String,
}

/// One page of posts for a hashtag, with the cursor to the next page.
#[derive(Debug)]
pub struct InstaHashtagResponse {
    pub posts: Vec<InstaPartialPost>,
    pub hashtag: String,
    pub end_cursor: Option<String>,
    pub has_next_page: bool,
}

/// The descriptive part of a feed post, without its image.
#[derive(Debug)]
pub struct InstaPostInfo {
    pub post_id: InstaPostId,
    pub user_name: String,
    pub hashtag: Hashtag,
}

/// Builds the feed post that a response and its fetched image describe.
pub fn insta_post_from_response(resp: InstaPostResponse, image: SizedImage, hashtag: Hashtag) -> (r:
    InstaPost)
    ensures
        r@ == (PostModel {
            is_insta: true,
            post_id: resp.id@,
            image: image@,
            user_name: resp.user_name@,
            hashtag: hashtag@,
        }),
{
    InstaPost::new(resp.id, image, resp.user_name, hashtag)
}

} // verus!
