use minigrep::blog::Post;
use minigrep::blog_typed;

#[test]
fn a_post_shows_content_only_once_published() {
    let mut post = Post::new();

    post.add_text("I ate a salad for lunch today");
    assert_eq!("", post.content());

    post.request_review();
    assert_eq!("", post.content());

    post.approve();
    assert_eq!("I ate a salad for lunch today", post.content());
}

#[test]
fn approving_a_draft_does_not_publish_it() {
    let mut post = Post::new();
    post.add_text("draft text");

    // Approval without review leaves the post a draft.
    post.approve();
    assert_eq!("", post.content());

    // A second review request while pending changes nothing.
    post.request_review();
    post.request_review();
    post.approve();
    assert_eq!("draft text", post.content());
}

#[test]
fn text_can_be_added_in_every_state() {
    let mut post = Post::new();
    post.add_text("one");
    post.request_review();
    post.add_text(" two");
    post.approve();
    post.add_text(" three");
    assert_eq!("one two three", post.content());
}

#[test]
fn typed_posts_walk_draft_review_approve() {
    let mut post = blog_typed::Post::new();

    post.add_text("I ate a salad for lunch today");

    let post = post.request_review();

    let post = post.approve();

    assert_eq!("I ate a salad for lunch today", post.content());
}

#[test]
fn typed_drafts_accumulate_text() {
    let mut draft = blog_typed::Post::new();
    draft.add_text("hello");
    draft.add_text(", world");
    let published = draft.request_review().approve();
    assert_eq!("hello, world", published.content());
}
