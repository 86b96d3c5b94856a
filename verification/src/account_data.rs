//! Account data as RPC nodes return it: the encoded text read back into
//! bytes, and the owner key parsed.

use vstd::prelude::*;
use crate::chain::{parse_pubkey, parsed_pubkey};
use crate::transactions::{base58_decode, base58_decoding};

verus! {

broadcast use vstd::string::group_string_axioms;

/// How account data is encoded in an RPC answer.
#[derive(Debug, Clone, Copy, PartialEq, Eq, Structural)]
pub enum AccountEncoding {
    Binary,
    Base58,
    Base64,
    Base64Zstd,
    JsonParsed,
}

/// The name of an encoding in RPC requests (`base64` for the legacy binary
/// encoding).
pub open spec fn encoding_name(e: AccountEncoding) -> Seq<char> {
    match e {
        AccountEncoding::Base58 => "base58"@,
        AccountEncoding::Base64 => "base64"@,
        AccountEncoding::Base64Zstd => "base64+zstd"@,
        AccountEncoding::JsonParsed => "jsonParsed"@,
        AccountEncoding::Binary => "base64"@,
    }
}

/// The name of an encoding in RPC requests.
pub fn encoding_to_str(encoding: AccountEncoding) -> (s: &'static str)
    ensures
        s@ == encoding_name(encoding),
{
    match encoding {
        AccountEncoding::Base58 => "base58",
        AccountEncoding::Base64 => "base64",
        AccountEncoding::Base64Zstd => "base64+zstd",
        AccountEncoding::JsonParsed => "jsonParsed",
        AccountEncoding::Binary => "base64",
    }
}

/// The `data` field of an account in an RPC answer.
#[derive(Debug)]
pub enum UiAccountData {
    /// A non-empty list: its first entry, when that entry is a string.
    List(Option<String>),
    /// A string.
    Text(String),
    /// Anything else (an empty list too), with its debug text.
    Unexpected(String),
}

/// An account as an RPC answer gives it.
#[derive(Debug)]
pub struct UiAccount {
    pub data: UiAccountData,
    pub lamports: u64,
    /// Base58 key of the owner program.
    pub owner: String,
    pub executable: bool,
    pub rent_epoch: u64,
}

/// An account with its data decoded.
#[derive(Debug)]
pub struct DecodedAccount {
    pub lamports: u64,
    pub data: Vec<u8>,
    pub owner: [u8; 32],
    pub executable: bool,
    pub rent_epoch: u64,
}

/// Why an account could not be decoded.
#[derive(Debug)]
pub enum AccountDecodeError {
    /// The data list does not start with a string.
    InvalidDataFormat,
    /// The data is neither a list nor a string (its debug text).
    UnexpectedDataFormat(String),
    /// The base64 text does not decode (the error's text).
    Base64(String),
    /// The compressed data does not decompress (the error's text).
    Zstd(String),
    /// The base58 text does not decode (the error's text).
    Base58(String),
    /// The encoding named is none of base64, base64+zstd and base58.
    UnsupportedEncoding(String),
    /// The owner is not a base58 key (the owner text).
    InvalidOwner(String),
}

/// What decoding a base64 text (standard alphabet, padded) gives: its bytes,
/// or the text of the error.
pub uninterp spec fn base64_decoding(text: Seq<char>) -> Result<Seq<u8>, Seq<char>>;

/// What decompressing zstd frames gives: the bytes, or the text of the
/// error.
pub uninterp spec fn zstd_decoding(data: Seq<u8>) -> Result<Seq<u8>, Seq<char>>;

/// `base64::engine::general_purpose::STANDARD.decode`: the decoded bytes, or
/// the error as text.
#[verifier::external_body]
fn base64_decode(text: &str) -> (r: Result<Vec<u8>, String>)
    ensures
        r matches Ok(v) ==> (base64_decoding(text@) matches Ok(b) && b == v@),
        r matches Err(e) ==> (base64_decoding(text@) matches Err(t) && t == e@),
{
    match base64::Engine::decode(&base64::engine::general_purpose::STANDARD, text) {
        Ok(v) => Ok(v),
        Err(e) => Err(format!("{}", e)),
    }
}

/// `zstd::decode_all` on a byte slice: the decompressed bytes, or the error
/// as text.
#[verifier::external_body]
fn zstd_decode(data: &[u8]) -> (r: Result<Vec<u8>, String>)
    ensures
        r matches Ok(v) ==> (zstd_decoding(data@) matches Ok(b) && b == v@),
        r matches Err(e) ==> (zstd_decoding(data@) matches Err(t) && t == e@),
{
    match zstd::decode_all(data) {
        Ok(v) => Ok(v),
        Err(e) => Err(format!("{}", e)),
    }
}

/// `r` is what decoding `encoded` with the encoding named `encoding` gives:
/// base64, base64 then zstd, or base58; any other name is unsupported.
pub open spec fn data_decoded(r: Result<Vec<u8>, AccountDecodeError>, encoded: Seq<char>, encoding: Seq<char>) -> bool {
    if encoding == "base64"@ {
        match base64_decoding(encoded) {
            Ok(b) => r matches Ok(v) && v@ == b,
            Err(t) => r matches Err(AccountDecodeError::Base64(m)) && m@ == t,
        }
    } else if encoding == "base64+zstd"@ {
        match base64_decoding(encoded) {
            Ok(c) => match zstd_decoding(c) {
                Ok(b) => r matches Ok(v) && v@ == b,
                Err(t) => r matches Err(AccountDecodeError::Zstd(m)) && m@ == t,
            },
            Err(t) => r matches Err(AccountDecodeError::Base64(m)) && m@ == t,
        }
    } else if encoding == "base58"@ {
        match base58_decoding(encoded) {
            Ok(b) => r matches Ok(v) && v@ == b,
            Err(t) => r matches Err(AccountDecodeError::Base58(m)) && m@ == t,
        }
    } else {
        r matches Err(AccountDecodeError::UnsupportedEncoding(m)) && m@ == encoding
    }
}

/// Decode account data text with the encoding named `encoding`.
fn decode_data(encoded: &str, encoding: &str) -> (r: Result<Vec<u8>, AccountDecodeError>)
    ensures
        data_decoded(r, encoded@, encoding@),
{
    if crate::text::str_equals(encoding, "base64") {
        match base64_decode(encoded) {
            Ok(v) => Ok(v),
            Err(e) => Err(AccountDecodeError::Base64(e)),
        }
    } else if crate::text::str_equals(encoding, "base64+zstd") {
        match base64_decode(encoded) {
            Ok(c) => match zstd_decode(c.as_slice()) {
                Ok(v) => Ok(v),
                Err(e) => Err(AccountDecodeError::Zstd(e)),
            },
            Err(e) => Err(AccountDecodeError::Base64(e)),
        }
    } else if crate::text::str_equals(encoding, "base58") {
        match base58_decode(encoded) {
            Ok(v) => Ok(v),
            Err(e) => Err(AccountDecodeError::Base58(e)),
        }
    } else {
        Err(AccountDecodeError::UnsupportedEncoding(encoding.to_owned()))
    }
}

/// `r` is the account decoded from the data text `text` of `ui`: the data
/// decoded with the encoding named `encoding`, then the owner key parsed.
pub open spec fn account_from_text(
    r: Result<DecodedAccount, AccountDecodeError>,
    text: Seq<char>,
    ui: UiAccount,
    encoding: Seq<char>,
) -> bool {
    exists|data: Result<Vec<u8>, AccountDecodeError>| {
        &&& #[trigger] data_decoded(data, text, encoding)
        &&& match data {
            Err(e) => r == Err::<DecodedAccount, AccountDecodeError>(e),
            Ok(bytes) => match parsed_pubkey(ui.owner@) {
                None => r matches Err(AccountDecodeError::InvalidOwner(o)) && o@ == ui.owner@,
                Some(key) => r matches Ok(acc) && acc.data@ == bytes@ && acc.owner@ == key
                    && acc.lamports == ui.lamports && acc.executable == ui.executable
                    && acc.rent_epoch == ui.rent_epoch,
            },
        }
    }
}

/// Decode an account of an RPC answer whose data uses the encoding named
/// `encoding`: the data text (first entry of a list, or a string), decoded;
/// then the owner key.
pub fn decode_ui_account(ui: &UiAccount, encoding: &str) -> (r: Result<DecodedAccount, AccountDecodeError>)
    ensures
        match ui.data {
            UiAccountData::List(None) => r matches Err(AccountDecodeError::InvalidDataFormat),
            UiAccountData::Unexpected(d) => r matches Err(AccountDecodeError::UnexpectedDataFormat(m)) && m@ == d@,
            UiAccountData::List(Some(text)) => account_from_text(r, text@, *ui, encoding@),
            UiAccountData::Text(text) => account_from_text(r, text@, *ui, encoding@),
        },
{
    let encoded: &String = match &ui.data {
        UiAccountData::List(Some(text)) => text,
        UiAccountData::Text(text) => text,
        UiAccountData::List(None) => return Err(AccountDecodeError::InvalidDataFormat),
        UiAccountData::Unexpected(d) => return Err(AccountDecodeError::UnexpectedDataFormat(d.clone())),
    };
    let decoded = decode_data(encoded.as_str(), encoding);
    let ghost d = decoded;
    assert(data_decoded(d, encoded@, encoding@));
    let data = match decoded {
        Ok(v) => v,
        Err(e) => return Err(e),
    };
    let r = match parse_pubkey(ui.owner.as_str()) {
        Some(owner) => Ok(DecodedAccount {
            lamports: ui.lamports,
            data,
            owner,
            executable: ui.executable,
            rent_epoch: ui.rent_epoch,
        }),
        None => Err(AccountDecodeError::InvalidOwner(ui.owner.clone())),
    };
    assert(data_decoded(d, encoded@, encoding@));
    r
}

} // verus!
