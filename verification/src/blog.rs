//! Blog post workflow as a runtime state machine: a [`Post`] is a draft,
//! under review, or published, and only a published post shows its content.
//! The contracts pin every transition: `request_review` moves a draft to
//! review and leaves the other states alone, `approve` publishes a post under
//! review and leaves the other states alone.

use vstd::prelude::*;
use vstd::string::StringExecFns;

verus! {

/// The three states a [`Post`] can be in.
pub enum PostState {
    Draft,
    PendingReview,
    Published,
}

/// A blog post that tracks its own review state.  It starts as a draft,
/// gathers text, is sent to review, and is published on approval.
pub struct Post {
    state: PostState,
    content: String,
}

impl Post {
    /// The current state, for specifications.
    pub closed spec fn spec_state(&self) -> PostState {
        self.state
    }

    /// The accumulated text, for specifications.
    pub closed spec fn text(&self) -> Seq<char> {
        self.content@
    }

    /// A fresh post: an empty draft.
    pub fn new() -> (post: Post)
        ensures
            post.spec_state() is Draft,
            post.text() == Seq::<char>::empty(),
    {
        Post { state: PostState::Draft, content: String::new() }
    }

    /// Appends `text` to the post in any state.
    pub fn add_text(&mut self, text: &str)
        ensures
            final(self).text() == old(self).text() + text@,
            final(self).spec_state() == old(self).spec_state(),
    {
        self.content.append(text);
    }

    /// The visible content: the accumulated text once published, and the
    /// empty string in every other state.
    pub fn content(&self) -> (text: &str)
        ensures
            self.spec_state() is Published ==> text@ == self.text(),
            !(self.spec_state() is Published) ==> text@ == Seq::<char>::empty(),
    {
        match self.state {
            PostState::Published => self.content.as_str(),
            _ => {
                proof {
                    reveal_strlit("");
                    assert(""@ =~= Seq::<char>::empty());
                }
                ""
            },
        }
    }

    /// Sends a draft to review; a post in any other state is unchanged.
    pub fn request_review(&mut self)
        ensures
            final(self).text() == old(self).text(),
            old(self).spec_state() is Draft ==> final(self).spec_state() is PendingReview,
            !(old(self).spec_state() is Draft) ==> final(self).spec_state() == old(
                self,
            ).spec_state(),
    {
        match self.state {
            PostState::Draft => {
                self.state = PostState::PendingReview;
            },
            _ => {},
        }
    }

    /// Publishes a post under review; a post in any other state is unchanged.
    pub fn approve(&mut self)
        ensures
            final(self).text() == old(self).text(),
            old(self).spec_state() is PendingReview ==> final(self).spec_state() is Published,
            !(old(self).spec_state() is PendingReview) ==> final(self).spec_state() == old(
                self,
            ).spec_state(),
    {
        match self.state {
            PostState::PendingReview => {
                self.state = PostState::Published;
            },
            _ => {},
        }
    }
}

} // verus!
