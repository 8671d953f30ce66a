//! Posts: candidate images together with their provenance.
//!
//! A feed-sourced post carries an idempotency key (its id) used by the
//! ingestion filter; a direct-submission post carries no key and is always
//! accepted.

use vstd::prelude::*;

use crate::image::{ImageModel, SizedImage};

verus! {

/// A hashtag, as queried against the feed.
#[derive(Debug, PartialEq, Eq, Hash)]
pub struct Hashtag(pub String);

impl View for Hashtag {
    type V = Seq<char>;

    open spec fn view(&self) -> Seq<char> {
        self.0@
    }
}

impl Clone for Hashtag {
    fn clone(&self) -> (r: Self)
        ensures
            r == *self,
    {
        Hashtag(self.0.clone())
    }
}

impl Hashtag {
    pub fn new(s: &str) -> (r: Hashtag)
        ensures
            r@ == s@,
    {
        Hashtag(s.to_owned())
    }

    pub fn as_str(&self) -> (r: &str)
        ensures
            r@ == self@,
    {
        self.0.as_str()
    }
}

/// The idempotency key of a feed-sourced post.
#[derive(Debug, PartialEq, Eq, Hash)]
pub struct InstaPostId(pub String);

impl View for InstaPostId {
    type V = Seq<char>;

    open spec fn view(&self) -> Seq<char> {
        self.0@
    }
}

impl Clone for InstaPostId {
    fn clone(&self) -> (r: Self)
        ensures
            r == *self,
    {
        InstaPostId(self.0.clone())
    }
}

impl InstaPostId {
    pub fn as_str(&self) -> (r: &str)
        ensures
            r@ == self@,
    {
        self.0.as_str()
    }
}

/// Model of a post: its provenance, pixel contents, author and hashtag.
/// `post_id` is meaningful only for feed-sourced (`is_insta`) posts.
#[verifier::ext_equal]
pub ghost struct PostModel {
    pub is_insta: bool,
    pub post_id: Seq<char>,
    pub image: ImageModel,
    pub user_name: Seq<char>,
    pub hashtag: Seq<char>,
}

/// A direct-submission post: no id, never deduplicated.
#[derive(Debug)]
pub struct BluummPost {
    pub image: SizedImage,
    pub user_name: String,
    pub hashtag: Hashtag,
}

impl View for BluummPost {
    type V = PostModel;

    open spec fn view(&self) -> PostModel {
        PostModel {
            is_insta: false,
            post_id: Seq::empty(),
            image: self.image@,
            user_name: self.user_name@,
            hashtag: self.hashtag@,
        }
    }
}

impl Clone for BluummPost {
    fn clone(&self) -> (r: Self)
        ensures
            r@ == self@,
    {
        let r = BluummPost {
            image: self.image.clone(),
            user_name: self.user_name.clone(),
            hashtag: self.hashtag.clone(),
        };
        proof {
            assert(r@ =~= self@);
        }
        r
    }
}

impl BluummPost {
    pub fn new(image: SizedImage, user_name: String, hashtag: Hashtag) -> (r: BluummPost)
        ensures
            r@ == (PostModel {
                is_insta: false,
                post_id: Seq::empty(),
                image: image@,
                user_name: user_name@,
                hashtag: hashtag@,
            }),
    {
        BluummPost { image, user_name, hashtag }
    }
}

/// A feed-sourced post, keyed by its id for deduplication.
#[derive(Debug)]
pub struct InstaPost {
    pub post_id: InstaPostId,
    pub image: SizedImage,
    pub user_name: String,
    pub hashtag: Hashtag,
}

impl View for InstaPost {
    type V = PostModel;

    open spec fn view(&self) -> PostModel {
        PostModel {
            is_insta: true,
            post_id: self.post_id@,
            image: self.image@,
            user_name: self.user_name@,
            hashtag: self.hashtag@,
        }
    }
}

impl Clone for InstaPost {
    fn clone(&self) -> (r: Self)
        ensures
            r@ == self@,
    {
        let r = InstaPost {
            post_id: self.post_id.clone(),
            image: self.image.clone(),
            user_name: self.user_name.clone(),
            hashtag: self.hashtag.clone(),
        };
        proof {
            assert(r@ =~= self@);
        }
        r
    }
}

impl InstaPost {
    pub fn new(id: InstaPostId, image: SizedImage, user_name: String, hashtag: Hashtag) -> (r:
        InstaPost)
        ensures
            r@ == (PostModel {
                is_insta: true,
                post_id: id@,
                image: image@,
                user_name: user_name@,
                hashtag: hashtag@,
            }),
    {
        InstaPost { post_id: id, image, user_name, hashtag }
    }
}

/// Either kind of post, as consumed by the assignment pipeline.
#[derive(Debug)]
pub enum GenericPost {
    BluummPost(BluummPost),
    InstaPost(InstaPost),
}

impl View for GenericPost {
    type V = PostModel;

    open spec fn view(&self) -> PostModel {
        match self {
            GenericPost::BluummPost(p) => p@,
            GenericPost::InstaPost(p) => p@,
        }
    }
}

impl Clone for GenericPost {
    fn clone(&self) -> (r: Self)
        ensures
            r@ == self@,
    {
        match self {
            GenericPost::BluummPost(p) => GenericPost::BluummPost(p.clone()),
            GenericPost::InstaPost(p) => GenericPost::InstaPost(p.clone()),
        }
    }
}

impl GenericPost {
    /// The candidate image carried by the post.
    pub fn image(&self) -> (r: &SizedImage)
        ensures
            r@ == self@.image,
    {
        match self {
            GenericPost::BluummPost(p) => &p.image,
            GenericPost::InstaPost(p) => &p.image,
        }
    }
}

/// Uniform read access to a post's contents.
pub trait Post {
    fn image(&self) -> &SizedImage;

    fn user_name(&self) -> &str;

    fn hashtag(&self) -> &Hashtag;
}

impl Post for BluummPost {
    fn image(&self) -> &SizedImage {
        &self.image
    }

    fn user_name(&self) -> &str {
        self.user_name.as_str()
    }

    fn hashtag(&self) -> &Hashtag {
        &self.hashtag
    }
}

impl Post for InstaPost {
    fn image(&self) -> &SizedImage {
        &self.image
    }

    fn user_name(&self) -> &str {
        self.user_name.as_str()
    }

    fn hashtag(&self) -> &Hashtag {
        &self.hashtag
    }
}

impl Post for GenericPost {
    fn image(&self) -> &SizedImage {
        match self {
            GenericPost::BluummPost(p) => &p.image,
            GenericPost::InstaPost(p) => &p.image,
        }
    }

    fn user_name(&self) -> &str {
        match self {
            GenericPost::BluummPost(p) => p.user_name.as_str(),
            GenericPost::InstaPost(p) => p.user_name.as_str(),
        }
    }

    fn hashtag(&self) -> &Hashtag {
        match self {
            GenericPost::BluummPost(p) => &p.hashtag,
            GenericPost::InstaPost(p) => &p.hashtag,
        }
    }
}

/// An ordered list of the hashtags a mosaic is fed from.
#[derive(Debug, PartialEq, Eq, Hash)]
pub struct HashtagList(pub Vec<Hashtag>);

impl View for HashtagList {
    type V = Seq<Seq<char>>;

    open spec fn view(&self) -> Seq<Seq<char>> {
        self.0@.map_values(|h: Hashtag| h@)
    }
}

impl Clone for HashtagList {
    fn clone(&self) -> (r: Self)
        ensures
            r.0@ == self.0@,
            r@ == self@,
    {
        let mut tags: Vec<Hashtag> = Vec::with_capacity(self.0.len());
        let mut i: usize = 0;
        while i < self.0.len()
            invariant
                i <= self.0@.len(),
                tags@ =~= self.0@.take(i as int),
            decreases self.0@.len() - i,
        {
            tags.push(self.0[i].clone());
            i += 1;
        }
        proof {
            assert(tags@ =~= self.0@);
        }
        HashtagList(tags)
    }
}

impl HashtagList {
    pub fn new(vec: Vec<String>) -> (r: HashtagList)
        ensures
            r@.len() == vec@.len(),
            forall|i: int| 0 <= i < vec@.len() ==> r@[i] == vec@[i]@,
    {
        let mut tags: Vec<Hashtag> = Vec::with_capacity(vec.len());
        let mut i: usize = 0;
        while i < vec.len()
            invariant
                i <= vec@.len(),
                tags@.len() == i,
                forall|j: int| 0 <= j < i ==> (#[trigger] tags@[j])@ == vec@[j]@,
            decreases vec@.len() - i,
        {
            tags.push(Hashtag::new(vec[i].as_str()));
            i += 1;
        }
        let r = HashtagList(tags);
        proof {
            assert(forall|i: int| 0 <= i < vec@.len() ==> r@[i] == vec@[i]@);
        }
        r
    }

    pub fn len(&self) -> (n: usize)
        ensures
            n == self@.len(),
    {
        self.0.len()
    }

    /// Reads the hashtag at `i`.
    pub fn get(&self, i: usize) -> (r: &Hashtag)
        requires
            i < self@.len(),
        ensures
            r@ == self@[i as int],
    {
        &self.0[i]
    }

    /// A cursor over the list, front to back.
    pub fn iter(&self) -> (r: HashtagIterator)
        ensures
            r.list@ == self@,
            r.idx == 0,
    {
        HashtagIterator { list: self.clone(), idx: 0 }
    }
}

/// A cursor over a [`HashtagList`], front to back.
#[derive(Debug)]
pub struct HashtagIterator {
    pub list: HashtagList,
    pub idx: usize,
}

impl HashtagIterator {
    /// Yields the next hashtag, or `None` once the list is exhausted.
    pub fn next(&mut self) -> (r: Option<Hashtag>)
        ensures
            old(self).idx < old(self).list@.len() ==> {
                &&& r matches Some(h) && h@ == old(self).list@[old(self).idx as int]
                &&& final(self).idx == old(self).idx + 1
                &&& final(self).list@ == old(self).list@
            },
            old(self).idx >= old(self).list@.len() ==> r is None && *final(self) == *old(self),
    {
        if self.idx < self.list.len() {
            let h = self.list.0[self.idx].clone();
            self.idx = self.idx + 1;
            Some(h)
        } else {
            None
        }
    }
}

} // verus!
