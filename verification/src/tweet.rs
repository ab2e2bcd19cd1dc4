use vstd::prelude::*;

verus! {

/// The address of an account, in its base58 text form.
#[derive(Debug)]
pub struct PublicKeyHash(pub String);

impl PublicKeyHash {
    /// The address as text.
    pub fn to_string(&self) -> (text: String)
        ensures
            text@ == self.0@,
    {
        self.0.clone()
    }
}

/// A request to post a text tweet.
#[derive(Debug)]
pub struct PostTweet {
    pub author: PublicKeyHash,
    pub content: String,
}

/// What a tweet shows.
#[derive(Debug)]
pub enum TweetContent {
    Image(Vec<u8>),
    Text(String),
}

/// A tweet: its author, what it shows and how many likes it got.
#[derive(Debug)]
pub struct Tweet {
    pub author: PublicKeyHash,
    pub content: TweetContent,
    pub likes: u64,
}

impl From<PostTweet> for Tweet {
    /// A posted text becomes a tweet with no like yet.
    fn from(post_tweet: PostTweet) -> (tweet: Tweet) {
        let PostTweet { author, content } = post_tweet;
        let tweet_content = TweetContent::Text(content);
        Tweet { author, content: tweet_content, likes: 0 }
    }
}

impl vstd::std_specs::convert::FromSpecImpl<PostTweet> for Tweet {
    open spec fn obeys_from_spec() -> bool {
        true
    }

    open spec fn from_spec(post_tweet: PostTweet) -> Tweet {
        Tweet {
            author: post_tweet.author,
            content: TweetContent::Text(post_tweet.content),
            likes: 0,
        }
    }
}

impl Tweet {
    /// The same tweet with one more like.
    pub fn like(self) -> (tweet: Tweet)
        requires
            self.likes < u64::MAX,
        ensures
            tweet.author == self.author,
            tweet.content == self.content,
            tweet.likes == self.likes + 1,
    {
        Tweet { likes: self.likes + 1, ..self }
    }
}

} // verus!
