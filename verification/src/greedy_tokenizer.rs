//! The settings of a greedy tokenizer and the checks they must pass.

use vstd::prelude::*;
use vstd::utf8::encode_utf8;

verus! {

/// The tokens of a vocabulary; the place of a token is its id.
pub type Vocab = Vec<String>;

/// Why a tokenizer could not be built or used.
#[derive(Debug)]
pub enum Error {
    /// The id of the unknown token, and the size of the vocabulary it is not in.
    UnkTokenIDOutOfVocabulary(u32, usize),
    /// No unknown token is set, and these bytes match no token.
    UnkTokenIDNotSet(Box<[u8]>),
}

/// What a greedy tokenizer is built from.
#[derive(Clone, Debug, PartialEq)]
pub struct Config {
    pub vocab: Vocab,
    pub unk_token_id: Option<u32>,
    pub byte_fallback: bool,
}

impl Default for Config {
    /// No tokens, no unknown token, and bytes fall back.
    fn default() -> (config: Config)
        ensures
            config.vocab@.len() == 0,
            config.unk_token_id is None,
            config.byte_fallback,
    {
        Config { vocab: Vec::new(), unk_token_id: None, byte_fallback: true }
    }
}

/// The value of a hexadecimal digit.
pub open spec fn hex_digit(byte: u8) -> Option<u8> {
    if 0x30 <= byte <= 0x39 {
        Some((byte - 0x30) as u8)
    } else if 0x41 <= byte <= 0x46 {
        Some((byte - 0x41 + 10) as u8)
    } else if 0x61 <= byte <= 0x66 {
        Some((byte - 0x61 + 10) as u8)
    } else {
        None
    }
}

/// The byte that two characters spell in base 16, where a plus sign may
/// stand in place of the first digit.
pub open spec fn hex_pair(high: u8, low: u8) -> Option<u8> {
    match (hex_digit(high), hex_digit(low)) {
        (Some(h), Some(l)) => Some((16 * h + l) as u8),
        (None, Some(l)) => if high == 0x2b {
            Some(l)
        } else {
            None
        },
        _ => None,
    }
}

/// The byte that a token of the form `<0xNN>` stands for.
pub open spec fn byte_repr(token: Seq<u8>) -> Option<u8> {
    if token.len() == 6 && token[0] == 0x3c && token[1] == 0x30 && token[2] == 0x78 && token[5]
        == 0x3e {
        hex_pair(token[3], token[4])
    } else {
        None
    }
}

/// The value of a hexadecimal digit.
fn hex_value(byte: u8) -> (value: Option<u8>)
    ensures
        value == hex_digit(byte),
{
    if 0x30 <= byte && byte <= 0x39 {
        Some(byte - 0x30)
    } else if 0x41 <= byte && byte <= 0x46 {
        Some(byte - 0x41 + 10)
    } else if 0x61 <= byte && byte <= 0x66 {
        Some(byte - 0x61 + 10)
    } else {
        None
    }
}

/// The byte that `token` stands for where it has the form `<0xNN>`.
pub fn capture_byte_repr(token: &str) -> (byte: Option<u8>)
    ensures
        byte == byte_repr(encode_utf8(token@)),
{
    let bytes = token.as_bytes();
    if bytes.len() == 6 && bytes[0] == 0x3c && bytes[1] == 0x30 && bytes[2] == 0x78 && bytes[5]
        == 0x3e {
        match (hex_value(bytes[3]), hex_value(bytes[4])) {
            (Some(high), Some(low)) => Some(16 * high + low),
            (None, Some(low)) => if bytes[3] == 0x2b {
                Some(low)
            } else {
                None
            },
            _ => None,
        }
    } else {
        None
    }
}

/// The trainer of a greedy tokenizer. It has no settings.
#[derive(Clone, Copy, Debug)]
pub struct GTTrainer;

/// Collects the settings of a greedy tokenizer.
#[derive(Clone, Debug)]
pub struct GreedyTokenizerBuilder {
    pub config: Config,
}

impl Default for GreedyTokenizerBuilder {
    /// A builder that holds the default settings.
    fn default() -> (builder: GreedyTokenizerBuilder)
        ensures
            builder.config.vocab@.len() == 0,
            builder.config.unk_token_id is None,
            builder.config.byte_fallback,
    {
        GreedyTokenizerBuilder { config: Config::default() }
    }
}

impl GreedyTokenizerBuilder {
    /// Sets the vocabulary.
    #[must_use]
    pub fn vocab(self, vocab: Vocab) -> (builder: GreedyTokenizerBuilder)
        ensures
            builder.config.vocab == vocab,
            builder.config.unk_token_id == self.config.unk_token_id,
            builder.config.byte_fallback == self.config.byte_fallback,
    {
        let mut builder = self;
        builder.config.vocab = vocab;
        builder
    }

    /// Sets the id of the unknown token.
    #[must_use]
    pub fn unk_token_id(self, unk_token_id: u32) -> (builder: GreedyTokenizerBuilder)
        ensures
            builder.config.vocab == self.config.vocab,
            builder.config.unk_token_id == Some(unk_token_id),
            builder.config.byte_fallback == self.config.byte_fallback,
    {
        let mut builder = self;
        builder.config.unk_token_id = Some(unk_token_id);
        builder
    }

    /// Sets whether tokens of the form `<0xNN>` stand for single bytes.
    #[must_use]
    pub fn byte_fallback(self, flag: bool) -> (builder: GreedyTokenizerBuilder)
        ensures
            builder.config.vocab == self.config.vocab,
            builder.config.unk_token_id == self.config.unk_token_id,
            builder.config.byte_fallback == flag,
    {
        let mut builder = self;
        builder.config.byte_fallback = flag;
        builder
    }

    /// The settings, where the unknown token, if one is set, is in the vocabulary.
    pub fn build(self) -> (r: Result<Config, Error>)
        ensures
            match self.config.unk_token_id {
                Some(id) if id >= self.config.vocab@.len() => r == Err::<Config, Error>(
                    Error::UnkTokenIDOutOfVocabulary(id, self.config.vocab@.len() as usize),
                ),
                _ => r == Ok::<Config, Error>(self.config),
            },
    {
        if let Some(unk_token_id) = self.config.unk_token_id {
            if unk_token_id as usize >= self.config.vocab.len() {
                return Err(
                    Error::UnkTokenIDOutOfVocabulary(unk_token_id, self.config.vocab.len()),
                );
            }
        }
        Ok(self.config)
    }
}

} // verus!
