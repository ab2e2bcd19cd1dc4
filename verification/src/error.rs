use vstd::prelude::*;

use crate::tweet::PublicKeyHash;

verus! {

broadcast use vstd::string::to_string_from_display_ensures_for_str;

#[verifier::external_type_specification]
#[verifier::external_body]
pub struct ExFromUtf8Error(std::string::FromUtf8Error);

#[verifier::external_type_specification]
#[verifier::external_body]
pub struct ExJsonError(serde_json_wasm::de::Error);

#[verifier::external_type_specification]
#[verifier::external_body]
pub struct ExRuntimeError(tezos_smart_rollup::host::RuntimeError);

#[verifier::external_type_specification]
#[verifier::external_body]
pub struct ExEd25519Error(ed25519_compact::Error);

#[verifier::external_type_specification]
#[verifier::external_body]
pub struct ExPathError(tezos_smart_rollup::storage::path::PathError);

#[verifier::external_type_specification]
#[verifier::external_body]
pub struct ExBinError(tezos_data_encoding::enc::BinError);

#[verifier::external_type_specification]
#[verifier::external_body]
pub struct ExEntrypointError(tezos_smart_rollup::types::EntrypointError);

/// The counter of an account, which each signed message must repeat.
#[derive(Debug, Clone, Copy, PartialEq, Eq, Structural)]
pub struct Nonce(pub u64);

/// Why reading the next input failed.
#[derive(Debug)]
pub enum ReadInputError {
    /// The message is not meant for this rollup.
    NotATzwitterMessage,
    /// There are no more messages.
    EndOfInbox,
    /// The bytes are not a valid UTF-8 string.
    FromUtf8Error(std::string::FromUtf8Error),
    /// The string is not a valid JSON message.
    SerdeJson(serde_json_wasm::de::Error),
    /// A host function failed.
    Runtime(tezos_smart_rollup::host::RuntimeError),
}

/// The errors of the kernel.
#[derive(Debug)]
pub enum KernelError {
    FromUtf8(std::string::FromUtf8Error),
    Runtime(tezos_smart_rollup::host::RuntimeError),
    Ed25519Compact(ed25519_compact::Error),
    InvalidSignature,
    InvalidNonce { current_nonce: Nonce, given_nonce: Nonce },
    PathError(tezos_smart_rollup::storage::path::PathError),
    StateDeserializarion,
    TweetNotFound { tweet_id: u64 },
    TweetAlreadyLiked { tweet_id: u64 },
    NotOwner { tweet_id: u64, address: PublicKeyHash },
    TweetAlreadyCollected { tweet_id: u64 },
    FromBase58CheckError,
    BigIntError,
    BinError(tezos_data_encoding::enc::BinError),
    EntrypointError(tezos_smart_rollup::types::EntrypointError),
}

/// The result of a step of the kernel.
pub type Result<A> = std::result::Result<A, KernelError>;

/// The character of the decimal digit `d`.
pub open spec fn digit_char(d: nat) -> char {
    ('0' as nat + d) as char
}

/// The decimal notation of `n`, without leading zeros.
pub open spec fn decimal(n: nat) -> Seq<char>
    decreases n,
{
    if n < 10 {
        seq![digit_char(n)]
    } else {
        decimal(n / 10).push(digit_char(n % 10))
    }
}

/// The text of the decimal digit `d`.
fn digit_text(d: u64) -> (text: &'static str)
    requires
        d < 10,
    ensures
        text@ == seq![digit_char(d as nat)],
{
    if d == 0 {
        proof { reveal_strlit("0"); }
        "0"
    } else if d == 1 {
        proof { reveal_strlit("1"); }
        "1"
    } else if d == 2 {
        proof { reveal_strlit("2"); }
        "2"
    } else if d == 3 {
        proof { reveal_strlit("3"); }
        "3"
    } else if d == 4 {
        proof { reveal_strlit("4"); }
        "4"
    } else if d == 5 {
        proof { reveal_strlit("5"); }
        "5"
    } else if d == 6 {
        proof { reveal_strlit("6"); }
        "6"
    } else if d == 7 {
        proof { reveal_strlit("7"); }
        "7"
    } else if d == 8 {
        proof { reveal_strlit("8"); }
        "8"
    } else {
        proof { reveal_strlit("9"); }
        "9"
    }
}

/// The decimal notation of `n`.
fn u64_to_decimal(n: u64) -> (text: String)
    ensures
        text@ == decimal(n as nat),
    decreases n,
{
    if n < 10 {
        digit_text(n).to_string()
    } else {
        let mut text = u64_to_decimal(n / 10);
        text.append(digit_text(n % 10));
        text
    }
}

/// The message that describes `error`.
pub open spec fn error_message(error: KernelError) -> Seq<char> {
    match error {
        KernelError::FromUtf8(_) => "Cannot convert bytes to string"@,
        KernelError::Runtime(_) => "Runtime error, caused by host function"@,
        KernelError::Ed25519Compact(_) => "Cannot deserialize Ed25519"@,
        KernelError::InvalidSignature => "Invalid signature"@,
        KernelError::InvalidNonce { current_nonce, given_nonce } => "Invalid nonce, current: "@ + decimal(
            current_nonce.0 as nat,
        ) + ", given: "@ + decimal(given_nonce.0 as nat),
        KernelError::PathError(_) => "Invalid path"@,
        KernelError::StateDeserializarion => "State deserialization"@,
        KernelError::TweetNotFound { tweet_id } => "Tweet "@ + decimal(tweet_id as nat) + " not found"@,
        KernelError::TweetAlreadyLiked { tweet_id } => "The tweet "@ + decimal(tweet_id as nat)
            + " has already been liked by this account"@,
        KernelError::NotOwner { tweet_id, address } => address.0@ + " is not the owner of the tweet "@
            + decimal(tweet_id as nat),
        KernelError::TweetAlreadyCollected { tweet_id } => "The tweet "@ + decimal(tweet_id as nat)
            + " has already been collected"@,
        KernelError::FromBase58CheckError => "Cannot convert a string to a contract address"@,
        KernelError::BigIntError => "Cannot deserialize big int"@,
        KernelError::BinError(_) => "Cannot serialize michelson to binary"@,
        KernelError::EntrypointError(_) => "Not a correct entrypoint"@,
    }
}

impl KernelError {
    /// The message that describes the error.
    pub fn to_string(&self) -> (message: String)
        ensures
            message@ == error_message(*self),
    {
        match self {
            KernelError::FromUtf8(_) => "Cannot convert bytes to string".to_string(),
            KernelError::Runtime(_) => "Runtime error, caused by host function".to_string(),
            KernelError::Ed25519Compact(_) => "Cannot deserialize Ed25519".to_string(),
            KernelError::InvalidSignature => "Invalid signature".to_string(),
            KernelError::InvalidNonce { current_nonce, given_nonce } => {
                let mut message = "Invalid nonce, current: ".to_string();
                message.append(&u64_to_decimal(current_nonce.0));
                message.append(", given: ");
                message.append(&u64_to_decimal(given_nonce.0));
                message
            },
            KernelError::PathError(_) => "Invalid path".to_string(),
            KernelError::StateDeserializarion => "State deserialization".to_string(),
            KernelError::TweetNotFound { tweet_id } => {
                let mut message = "Tweet ".to_string();
                message.append(&u64_to_decimal(*tweet_id));
                message.append(" not found");
                message
            },
            KernelError::TweetAlreadyLiked { tweet_id } => {
                let mut message = "The tweet ".to_string();
                message.append(&u64_to_decimal(*tweet_id));
                message.append(" has already been liked by this account");
                message
            },
            KernelError::NotOwner { tweet_id, address } => {
                let mut message = address.to_string();
                message.append(" is not the owner of the tweet ");
                message.append(&u64_to_decimal(*tweet_id));
                message
            },
            KernelError::TweetAlreadyCollected { tweet_id } => {
                let mut message = "The tweet ".to_string();
                message.append(&u64_to_decimal(*tweet_id));
                message.append(" has already been collected");
                message
            },
            KernelError::FromBase58CheckError => "Cannot convert a string to a contract address".to_string(),
            KernelError::BigIntError => "Cannot deserialize big int".to_string(),
            KernelError::BinError(_) => "Cannot serialize michelson to binary".to_string(),
            KernelError::EntrypointError(_) => "Not a correct entrypoint".to_string(),
        }
    }
}

impl From<std::string::FromUtf8Error> for KernelError {
    fn from(data: std::string::FromUtf8Error) -> (error: KernelError) {
        KernelError::FromUtf8(data)
    }
}

impl vstd::std_specs::convert::FromSpecImpl<std::string::FromUtf8Error> for KernelError {
    open spec fn obeys_from_spec() -> bool {
        true
    }

    open spec fn from_spec(data: std::string::FromUtf8Error) -> KernelError {
        KernelError::FromUtf8(data)
    }
}

impl From<ed25519_compact::Error> for KernelError {
    fn from(data: ed25519_compact::Error) -> (error: KernelError) {
        KernelError::Ed25519Compact(data)
    }
}

impl vstd::std_specs::convert::FromSpecImpl<ed25519_compact::Error> for KernelError {
    open spec fn obeys_from_spec() -> bool {
        true
    }

    open spec fn from_spec(data: ed25519_compact::Error) -> KernelError {
        KernelError::Ed25519Compact(data)
    }
}

impl From<tezos_smart_rollup::storage::path::PathError> for KernelError {
    fn from(data: tezos_smart_rollup::storage::path::PathError) -> (error: KernelError) {
        KernelError::PathError(data)
    }
}

impl vstd::std_specs::convert::FromSpecImpl<tezos_smart_rollup::storage::path::PathError> for KernelError {
    open spec fn obeys_from_spec() -> bool {
        true
    }

    open spec fn from_spec(data: tezos_smart_rollup::storage::path::PathError) -> KernelError {
        KernelError::PathError(data)
    }
}

impl From<tezos_smart_rollup::host::RuntimeError> for KernelError {
    fn from(data: tezos_smart_rollup::host::RuntimeError) -> (error: KernelError) {
        KernelError::Runtime(data)
    }
}

impl vstd::std_specs::convert::FromSpecImpl<tezos_smart_rollup::host::RuntimeError> for KernelError {
    open spec fn obeys_from_spec() -> bool {
        true
    }

    open spec fn from_spec(data: tezos_smart_rollup::host::RuntimeError) -> KernelError {
        KernelError::Runtime(data)
    }
}

impl From<tezos_data_encoding::enc::BinError> for KernelError {
    fn from(data: tezos_data_encoding::enc::BinError) -> (error: KernelError) {
        KernelError::BinError(data)
    }
}

impl vstd::std_specs::convert::FromSpecImpl<tezos_data_encoding::enc::BinError> for KernelError {
    open spec fn obeys_from_spec() -> bool {
        true
    }

    open spec fn from_spec(data: tezos_data_encoding::enc::BinError) -> KernelError {
        KernelError::BinError(data)
    }
}

impl From<tezos_smart_rollup::types::EntrypointError> for KernelError {
    fn from(data: tezos_smart_rollup::types::EntrypointError) -> (error: KernelError) {
        KernelError::EntrypointError(data)
    }
}

impl vstd::std_specs::convert::FromSpecImpl<tezos_smart_rollup::types::EntrypointError> for KernelError {
    open spec fn obeys_from_spec() -> bool {
        true
    }

    open spec fn from_spec(data: tezos_smart_rollup::types::EntrypointError) -> KernelError {
        KernelError::EntrypointError(data)
    }
}

} // verus!
