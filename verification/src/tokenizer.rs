//! The tokenization schemes and the encoders that implement them.

use tiktoken_rs::CoreBPE;
use vstd::prelude::*;
use vstd::string::StringExecFns;
use crate::error::CombinerError;
use crate::text::{char_at, chars_equal, chars_of};

verus! {

/// The encoder type of `tiktoken_rs`. Nothing is known of its inside.
#[verifier::external_type_specification]
#[verifier::external_body]
pub struct ExCoreBPE(tiktoken_rs::CoreBPE);

/// The error type of `anyhow`. Nothing is known of its inside.
#[verifier::external_type_specification]
#[verifier::external_body]
pub struct ExAnyhowError(anyhow::Error);

/// `tiktoken_rs::o200k_base` builds the encoder of that name or reports why
/// it could not. Nothing is claimed of either outcome.
pub assume_specification[ tiktoken_rs::o200k_base ]() -> (r: Result<CoreBPE, anyhow::Error>)
;

/// `tiktoken_rs::cl100k_base` builds the encoder of that name or reports
/// why it could not. Nothing is claimed of either outcome.
pub assume_specification[ tiktoken_rs::cl100k_base ]() -> (r: Result<CoreBPE, anyhow::Error>)
;

/// `tiktoken_rs::p50k_base` builds the encoder of that name or reports why
/// it could not. Nothing is claimed of either outcome.
pub assume_specification[ tiktoken_rs::p50k_base ]() -> (r: Result<CoreBPE, anyhow::Error>)
;

/// `tiktoken_rs::p50k_edit` builds the encoder of that name or reports why
/// it could not. Nothing is claimed of either outcome.
pub assume_specification[ tiktoken_rs::p50k_edit ]() -> (r: Result<CoreBPE, anyhow::Error>)
;

/// `tiktoken_rs::r50k_base` builds the encoder of that name or reports why
/// it could not. Nothing is claimed of either outcome.
pub assume_specification[ tiktoken_rs::r50k_base ]() -> (r: Result<CoreBPE, anyhow::Error>)
;

/// What `CoreBPE::encode` gives for `text` when every special token of the
/// encoder is allowed: the tokens, or the message of the error it reports.
pub uninterp spec fn special_encoding(bpe: CoreBPE, text: Seq<char>) -> Result<Seq<u32>, Seq<char>>;

/// Calls `CoreBPE::encode` on `text`, with the set that
/// `CoreBPE::special_tokens` gives as the allowed special tokens, and hands
/// back the tokens or the message of the `EncodeError`.
///
/// Trusted: the outcome is a function of the encoder and the text alone,
/// named `special_encoding`. Nothing is claimed of what the tokens are.
/// The call is made only on encoders that `Tokenizer::load` built, whose
/// vocabularies hold every single byte.
#[verifier::external_body]
fn encode_with_special(bpe: &CoreBPE, text: &str) -> (r: Result<Vec<u32>, String>)
    ensures
        match r {
            Ok(tokens) => special_encoding(*bpe, text@) == Ok::<Seq<u32>, Seq<char>>(tokens@),
            Err(message) => special_encoding(*bpe, text@) == Err::<Seq<u32>, Seq<char>>(message@),
        },
{
    let allowed = bpe.special_tokens();
    match bpe.encode(text, &allowed) {
        Ok((tokens, _)) => Ok(tokens),
        Err(e) => Err(e.message),
    }
}

/// The message of an `anyhow::Error`, as its `Display` gives it.
///
/// Trusted: nothing is claimed of the text.
#[verifier::external_body]
fn error_message(e: &anyhow::Error) -> String {
    e.to_string()
}

/// The lower-case form of an ASCII capital; any other character as it is.
pub open spec fn ascii_lower(c: char) -> char {
    if 'A' <= c && c <= 'Z' {
        ((c as u8 + 32) as u8) as char
    } else {
        c
    }
}

/// `s` with its ASCII capitals in lower case.
pub open spec fn lowered(s: Seq<char>) -> Seq<char> {
    Seq::new(s.len(), |i: int| ascii_lower(s[i]))
}

/// `s` with its ASCII capitals in lower case.
pub fn to_lower(s: &str) -> (r: Vec<char>)
    ensures
        r@ == lowered(s@),
{
    let chars = chars_of(s);
    let mut out: Vec<char> = Vec::new();
    let mut i: usize = 0;
    while i < chars.len()
        invariant
            i <= chars.len(),
            chars@ == s@,
            out@.len() == i,
            forall|j: int| 0 <= j < i ==> out@[j] == ascii_lower(s@[j]),
        decreases chars.len() - i,
    {
        let c = char_at(&chars, i);
        let l = if 'A' <= c && c <= 'Z' {
            ((c as u8 + 32) as u8) as char
        } else {
            c
        };
        out.push(l);
        i += 1;
    }
    out
}

/// The named schemes of byte-pair encoding.
#[derive(Clone, Copy, Debug, PartialEq, Eq, Structural)]
pub enum TokenizationScheme {
    O200kBase,
    Cl100kBase,
    P50kBase,
    P50kEdit,
    R50kBase,
}

impl TokenizationScheme {
    /// The scheme that an unknown name falls back to.
    pub open spec fn fallback() -> TokenizationScheme {
        TokenizationScheme::Cl100kBase
    }

    /// Whether `lower`, a name in lower case, is one of the known names.
    pub open spec fn known_name(lower: Seq<char>) -> bool {
        ||| lower == "o200k_base"@
        ||| lower == "cl100k_base"@
        ||| lower == "p50k_base"@
        ||| lower == "p50k_edit"@
        ||| lower == "r50k_base"@
        ||| lower == "gpt2"@
    }

    /// The scheme that `name` stands for. Case is ignored; `gpt2` is
    /// another name for `r50k_base`; an unknown name stands for the
    /// fallback scheme.
    pub open spec fn named(name: Seq<char>) -> TokenizationScheme {
        let lower = lowered(name);
        if lower == "o200k_base"@ {
            TokenizationScheme::O200kBase
        } else if lower == "cl100k_base"@ {
            TokenizationScheme::Cl100kBase
        } else if lower == "p50k_base"@ {
            TokenizationScheme::P50kBase
        } else if lower == "p50k_edit"@ {
            TokenizationScheme::P50kEdit
        } else if lower == "r50k_base"@ || lower == "gpt2"@ {
            TokenizationScheme::R50kBase
        } else {
            Self::fallback()
        }
    }

    /// The canonical name of the scheme.
    pub open spec fn canonical_name(self) -> Seq<char> {
        match self {
            TokenizationScheme::O200kBase => "o200k_base"@,
            TokenizationScheme::Cl100kBase => "cl100k_base"@,
            TokenizationScheme::P50kBase => "p50k_base"@,
            TokenizationScheme::P50kEdit => "p50k_edit"@,
            TokenizationScheme::R50kBase => "r50k_base"@,
        }
    }

    /// The scheme that `name` stands for; never an error.
    pub fn from_name(name: &str) -> (scheme: TokenizationScheme)
        ensures
            scheme == Self::named(name@),
            !Self::known_name(lowered(name@)) ==> scheme == Self::fallback(),
    {
        let lower = to_lower(name);
        if chars_equal(&lower, &chars_of("o200k_base")) {
            TokenizationScheme::O200kBase
        } else if chars_equal(&lower, &chars_of("cl100k_base")) {
            TokenizationScheme::Cl100kBase
        } else if chars_equal(&lower, &chars_of("p50k_base")) {
            TokenizationScheme::P50kBase
        } else if chars_equal(&lower, &chars_of("p50k_edit")) {
            TokenizationScheme::P50kEdit
        } else if chars_equal(&lower, &chars_of("r50k_base")) || chars_equal(
            &lower,
            &chars_of("gpt2"),
        ) {
            TokenizationScheme::R50kBase
        } else {
            TokenizationScheme::Cl100kBase
        }
    }

    /// The canonical name of the scheme.
    pub fn name(&self) -> (text: String)
        ensures
            text@ == self.canonical_name(),
    {
        match self {
            TokenizationScheme::O200kBase => String::from_str("o200k_base"),
            TokenizationScheme::Cl100kBase => String::from_str("cl100k_base"),
            TokenizationScheme::P50kBase => String::from_str("p50k_base"),
            TokenizationScheme::P50kEdit => String::from_str("p50k_edit"),
            TokenizationScheme::R50kBase => String::from_str("r50k_base"),
        }
    }
}

/// A ready encoder together with the scheme it was built for.
pub struct Tokenizer {
    scheme: TokenizationScheme,
    bpe: CoreBPE,
}

impl Tokenizer {
    /// The scheme the encoder was built for.
    pub closed spec fn scheme_of(&self) -> TokenizationScheme {
        self.scheme
    }

    /// The tokens of `text`, special tokens included, or the message of the
    /// error that the encoder reports.
    pub closed spec fn encoding(&self, text: Seq<char>) -> Result<Seq<u32>, Seq<char>> {
        special_encoding(self.bpe, text)
    }

    /// The scheme the encoder was built for.
    pub fn scheme(&self) -> (scheme: TokenizationScheme)
        ensures
            scheme == self.scheme_of(),
    {
        self.scheme
    }

    /// Turns what a loader gave into a tokenizer, or into the error that
    /// ends the run.
    fn from_loaded(scheme: TokenizationScheme, loaded: Result<CoreBPE, anyhow::Error>) -> (r:
        Result<Tokenizer, CombinerError>)
        ensures
            loaded is Ok ==> r is Ok && r->Ok_0.scheme == scheme && r->Ok_0.bpe == loaded->Ok_0,
            loaded is Err ==> r is Err && r->Err_0 is Tokenization,
    {
        match loaded {
            Ok(bpe) => Ok(Tokenizer { scheme, bpe }),
            Err(e) => Err(CombinerError::Tokenization(error_message(&e))),
        }
    }

    /// Builds the encoder of `scheme`. The only error is the one that the
    /// loader of the vocabulary reports.
    pub fn load(scheme: TokenizationScheme) -> (r: Result<Tokenizer, CombinerError>)
        ensures
            match r {
                Ok(tokenizer) => tokenizer.scheme_of() == scheme,
                Err(e) => e is Tokenization,
            },
    {
        let loaded = match scheme {
            TokenizationScheme::O200kBase => tiktoken_rs::o200k_base(),
            TokenizationScheme::Cl100kBase => tiktoken_rs::cl100k_base(),
            TokenizationScheme::P50kBase => tiktoken_rs::p50k_base(),
            TokenizationScheme::P50kEdit => tiktoken_rs::p50k_edit(),
            TokenizationScheme::R50kBase => tiktoken_rs::r50k_base(),
        };
        Self::from_loaded(scheme, loaded)
    }

    /// Encodes `text`, special tokens included.
    pub fn encode(&self, text: &str) -> (r: Result<Vec<u32>, String>)
        ensures
            match r {
                Ok(tokens) => self.encoding(text@) == Ok::<Seq<u32>, Seq<char>>(tokens@),
                Err(message) => self.encoding(text@) == Err::<Seq<u32>, Seq<char>>(message@),
            },
    {
        encode_with_special(&self.bpe, text)
    }
}

/// The encoder for the scheme that `tokenizer` names. An unknown name is
/// no error: it gives the fallback scheme.
pub fn get_bpe(tokenizer: &str) -> (r: Result<Tokenizer, CombinerError>)
    ensures
        match r {
            Ok(t) => t.scheme_of() == TokenizationScheme::named(tokenizer@),
            Err(e) => e is Tokenization,
        },
{
    Tokenizer::load(TokenizationScheme::from_name(tokenizer))
}

} // verus!
