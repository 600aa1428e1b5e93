//! What the command line and the configuration file settle before a
//! connection is made: the address, the secret and the verbosity.
use vstd::prelude::*;
use vstd::slice::slice_to_vec;
use vstd::string::StringExecFns;
use vstd::utf8::encode_utf8;

use crate::KEY_SIZE;

verus! {

/// The key of the insecure mode, `_WARNING_UNSECURE_KEY_PLAINTEXT_` in
/// ASCII. Whoever uses it sends the message as good as in the clear.
pub const DEFAULT_INSECURE_KEY: [u8; 32] = [
    95, 87, 65, 82, 78, 73, 78, 71, 95, 85, 78, 83, 69, 67, 85, 82,
    69, 95, 75, 69, 89, 95, 80, 76, 65, 73, 78, 84, 69, 88, 84, 95,
];

/// The settings of one run.
#[derive(Debug)]
pub struct Opt {
    /// Where the configuration file is.
    pub config_file: Option<String>,
    /// Listen for messages rather than send one.
    pub server_mode: bool,
    /// The server's address, or the address to bind.
    pub address: Option<String>,
    /// The server's port.
    pub port: Option<String>,
    /// How often the verbosity flag was given.
    pub verbosity: u64,
    /// Use the default key.
    pub insecure: bool,
    /// The secret, in Base64.
    pub secret: Option<String>,
    /// Copy the message to the standard output as well.
    pub tee: bool,
    /// The shell command that the server runs on a message.
    pub exec_command: Option<String>,
}

/// How much is logged.
#[derive(Debug, Clone, Copy, PartialEq, Eq, Structural)]
pub enum LevelFilter {
    Off,
    Error,
    Warn,
    Info,
    Debug,
    Trace,
}

/// The error of `base64::decode`.
#[verifier::external_type_specification]
#[verifier::external_body]
pub struct ExDecodeError(base64::DecodeError);

/// Why the settings give no address or no key.
#[derive(Debug)]
pub enum ConfigError {
    /// No address is set.
    MissingAddress,
    /// No port is set.
    MissingPort,
    /// No secret is set, and the insecure mode is off.
    NoSecret,
    /// The secret is longer than the decoder takes.
    SecretTooLong,
    /// The secret is not Base64.
    InvalidSecret(base64::DecodeError),
    /// The decoded secret does not have `KEY_SIZE` bytes.
    InvalidKeyLength,
}

/// The bytes that `base64::decode` makes of `input`; `None` where it refuses
/// `input` as Base64 in the standard alphabet.
pub uninterp spec fn base64_decoded(input: Seq<u8>) -> Option<Seq<u8>>;

/// The longest input that the decoder takes: it rounds the length up to a
/// multiple of eight.
pub open spec fn decodable(len: nat) -> bool {
    len + 7 <= usize::MAX
}

/// `base64::decode`.
///
/// Taken on trust: whether the call succeeds, and with what, is a function
/// of the input, named `base64_decoded`. A longer input than `decodable`
/// admits makes the call panic, and is left out.
#[verifier::external_body]
fn decode_base64(input: &[u8]) -> (output: Result<Vec<u8>, base64::DecodeError>)
    requires
        decodable(input@.len()),
    ensures
        match output {
            Ok(bytes) => base64_decoded(input@) == Some(bytes@),
            Err(_) => base64_decoded(input@) is None,
        },
{
    base64::decode(input)
}

/// The address to connect or bind to: the address, a colon, and the port.
pub fn get_address(opt: &Opt) -> (address: Result<String, ConfigError>)
    ensures
        match (opt.address, opt.port) {
            (None, _) => address == Err::<String, ConfigError>(ConfigError::MissingAddress),
            (Some(_), None) => address == Err::<String, ConfigError>(ConfigError::MissingPort),
            (Some(host), Some(port)) => address matches Ok(text) && text@ == host@ + seq![':']
                + port@,
        },
{
    let host = match &opt.address {
        Some(host) => host,
        None => {
            return Err(ConfigError::MissingAddress);
        },
    };
    let port = match &opt.port {
        Some(port) => port,
        None => {
            return Err(ConfigError::MissingPort);
        },
    };
    proof {
        reveal_strlit(":");
    }
    let mut address = host.clone();
    address.append(":");
    assert(":"@ =~= seq![':']);
    address.append(port.as_str());
    Ok(address)
}

/// The decoded secret is a key if it has `KEY_SIZE` bytes.
pub fn check_key(decoded: Result<Vec<u8>, base64::DecodeError>) -> (key: Result<
    Vec<u8>,
    ConfigError,
>)
    ensures
        match decoded {
            Ok(bytes) => if bytes@.len() == KEY_SIZE {
                key == Ok::<Vec<u8>, ConfigError>(bytes)
            } else {
                key == Err::<Vec<u8>, ConfigError>(ConfigError::InvalidKeyLength)
            },
            Err(error) => key == Err::<Vec<u8>, ConfigError>(ConfigError::InvalidSecret(error)),
        },
{
    match decoded {
        Ok(bytes) => if bytes.len() == KEY_SIZE {
            Ok(bytes)
        } else {
            Err(ConfigError::InvalidKeyLength)
        },
        Err(error) => Err(ConfigError::InvalidSecret(error)),
    }
}

/// The key of the run: the default key in the insecure mode, else the
/// secret, decoded from Base64. Either has `KEY_SIZE` bytes.
pub fn get_key(opt: &Opt) -> (key: Result<Vec<u8>, ConfigError>)
    ensures
        key matches Ok(bytes) ==> bytes@.len() == KEY_SIZE,
        opt.insecure ==> (key matches Ok(bytes) && bytes@ == DEFAULT_INSECURE_KEY@),
        !opt.insecure ==> match opt.secret {
            None => key == Err::<Vec<u8>, ConfigError>(ConfigError::NoSecret),
            Some(secret) => if !decodable(encode_utf8(secret@).len()) {
                key == Err::<Vec<u8>, ConfigError>(ConfigError::SecretTooLong)
            } else {
                match base64_decoded(encode_utf8(secret@)) {
                    None => key matches Err(ConfigError::InvalidSecret(_)),
                    Some(bytes) => if bytes.len() == KEY_SIZE {
                        key matches Ok(k) && k@ == bytes
                    } else {
                        key == Err::<Vec<u8>, ConfigError>(ConfigError::InvalidKeyLength)
                    },
                }
            },
        },
{
    if opt.insecure {
        return Ok(slice_to_vec(DEFAULT_INSECURE_KEY.as_slice()));
    }
    match &opt.secret {
        None => Err(ConfigError::NoSecret),
        Some(secret) => {
            let input = secret.as_str().as_bytes();
            if input.len() > usize::MAX - 7 {
                return Err(ConfigError::SecretTooLong);
            }
            check_key(decode_base64(input))
        },
    }
}

/// The level to log at, by the number of times the verbosity flag was given.
pub fn get_log_level(verbosity: u64) -> (level: LevelFilter)
    ensures
        level == match verbosity {
            0 => LevelFilter::Info,
            1 => LevelFilter::Debug,
            _ => LevelFilter::Trace,
        },
{
    match verbosity {
        0 => LevelFilter::Info,
        1 => LevelFilter::Debug,
        _ => LevelFilter::Trace,
    }
}

} // verus!
