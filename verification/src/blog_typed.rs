//! Blog post workflow encoded in the type system: a draft can only gather
//! text, a draft must be sent to review before it can be approved, and only
//! an approved post exposes its content.  Invalid state transitions are
//! compile-time errors; the contracts track the content through the states.

use vstd::prelude::*;

verus! {

/// A published post; the only state whose content is readable.
pub struct Post {
    content: String,
}

/// A post being written; text can still be added.
pub struct DraftPost {
    content: String,
}

/// A post waiting for approval; its content is fixed.
pub struct PendingReviewPost {
    content: String,
}

impl Post {
    /// Starting a new post always begins with an empty draft.
    pub fn new() -> (post: DraftPost)
        ensures
            post@ == Seq::<char>::empty(),
    {
        DraftPost { content: String::new() }
    }

    /// The content of a published post.
    pub fn content(&self) -> (text: &str)
        ensures
            text@ == self@,
    {
        self.content.as_str()
    }
}

impl View for Post {
    type V = Seq<char>;

    closed spec fn view(&self) -> Seq<char> {
        self.content@
    }
}

impl DraftPost {
    /// Appends `text` to the draft.
    pub fn add_text(&mut self, text: &str)
        ensures
            final(self)@ == old(self)@ + text@,
    {
        self.content.append(text);
    }

    /// Freezes the draft and hands it to review.
    pub fn request_review(self) -> (post: PendingReviewPost)
        ensures
            post@ == self@,
    {
        PendingReviewPost { content: self.content }
    }
}

impl View for DraftPost {
    type V = Seq<char>;

    closed spec fn view(&self) -> Seq<char> {
        self.content@
    }
}

impl PendingReviewPost {
    /// Approval publishes the reviewed content unchanged.
    pub fn approve(self) -> (post: Post)
        ensures
            post@ == self@,
    {
        Post { content: self.content }
    }
}

impl View for PendingReviewPost {
    type V = Seq<char>;

    closed spec fn view(&self) -> Seq<char> {
        self.content@
    }
}

} // verus!
