use rollup_kernels::error::{KernelError, Nonce};
use rollup_kernels::tweet::{PostTweet, PublicKeyHash, Tweet, TweetContent};

#[test]
fn posted_tweet_has_no_like() {
    let post = PostTweet {
        author: PublicKeyHash("tz1abc".to_string()),
        content: "hello".to_string(),
    };
    let tweet = Tweet::from(post);
    assert_eq!(tweet.likes, 0);
    assert_eq!(tweet.author.0, "tz1abc");
    assert!(matches!(tweet.content, TweetContent::Text(ref t) if t == "hello"));
    let tweet = tweet.like().like();
    assert_eq!(tweet.likes, 2);
}

#[test]
fn error_messages() {
    assert_eq!(KernelError::InvalidSignature.to_string(), "Invalid signature");
    assert_eq!(
        KernelError::InvalidNonce { current_nonce: Nonce(3), given_nonce: Nonce(17) }.to_string(),
        "Invalid nonce, current: 3, given: 17"
    );
    assert_eq!(KernelError::TweetNotFound { tweet_id: 42 }.to_string(), "Tweet 42 not found");
    assert_eq!(
        KernelError::TweetAlreadyLiked { tweet_id: 0 }.to_string(),
        "The tweet 0 has already been liked by this account"
    );
    assert_eq!(
        KernelError::NotOwner { tweet_id: 7, address: PublicKeyHash("tz1xyz".to_string()) }
            .to_string(),
        "tz1xyz is not the owner of the tweet 7"
    );
    assert_eq!(
        KernelError::TweetAlreadyCollected { tweet_id: 18446744073709551615 }.to_string(),
        "The tweet 18446744073709551615 has already been collected"
    );
    assert_eq!(KernelError::StateDeserializarion.to_string(), "State deserialization");
    assert_eq!(
        KernelError::FromBase58CheckError.to_string(),
        "Cannot convert a string to a contract address"
    );
    assert_eq!(KernelError::BigIntError.to_string(), "Cannot deserialize big int");
}

#[test]
fn outside_errors_convert() {
    let runtime = tezos_smart_rollup_host::runtime::RuntimeError::PathNotFound;
    let error = KernelError::from(runtime);
    assert_eq!(error.to_string(), "Runtime error, caused by host function");
    let utf8 = String::from_utf8(vec![0xff]).unwrap_err();
    assert_eq!(KernelError::from(utf8).to_string(), "Cannot convert bytes to string");
    let ed = ed25519_compact::Error::InvalidSignature;
    assert_eq!(KernelError::from(ed).to_string(), "Cannot deserialize Ed25519");
    let path = tezos_smart_rollup_host::path::PathError::PathEmpty;
    assert_eq!(KernelError::from(path).to_string(), "Invalid path");
}
