use vstd::prelude::*;
use base64::DecodeError;
use rand::Rng;
use vstd::std_specs::cmp::PartialEqSpecImpl;

verus! {

/// Number of bytes in a token.
pub const TOKEN_LENGTH: usize = 32;

/// An opaque session credential: 32 random bytes, compared byte by byte and
/// exchanged as URL-safe base64 text without padding.
#[must_use]
#[derive(Debug, Clone, Copy, Eq, PartialOrd, Ord, Hash)]
pub struct Token([u8; TOKEN_LENGTH]);

impl PartialEq for Token {
    fn eq(&self, other: &Self) -> (r: bool) {
        let mut i: usize = 0;
        while i < TOKEN_LENGTH
            invariant
                i <= TOKEN_LENGTH,
                forall|j: int| 0 <= j < i ==> self.0@[j] == other.0@[j],
            decreases TOKEN_LENGTH - i,
        {
            if self.0[i] != other.0[i] {
                return false;
            }
            i += 1;
        }
        proof {
            assert(self.0 =~= other.0);
        }
        true
    }
}

impl PartialEqSpecImpl for Token {
    open spec fn obeys_eq_spec() -> bool {
        true
    }

    open spec fn eq_spec(&self, other: &Self) -> bool {
        *self == *other
    }
}

/// A text that does not decode to a token.
#[derive(Debug, Clone, Copy, PartialEq, Eq, Structural)]
pub struct MalformedToken;

#[verifier::external_type_specification]
#[verifier::external_body]
pub struct ExDecodeError(DecodeError);

/// The text that `base64::encode_config` gives for `bytes` under
/// `URL_SAFE_NO_PAD`.
pub uninterp spec fn base64_url_encode(bytes: Seq<u8>) -> Seq<char>;

/// The bytes that `base64::decode_config` gives for `text` under
/// `URL_SAFE_NO_PAD`, or `None` where it reports an error.
pub uninterp spec fn base64_url_decode(text: Seq<char>) -> Option<Seq<u8>>;

/// Calls `rand::thread_rng().fill(..)` on a fresh buffer.  Nothing is claimed
/// of the bytes that come back.  The generator gives up only where the
/// system has no entropy for it, when it is first seeded or seeded anew.
#[verifier::external_body]
fn random_bytes() -> (bytes: [u8; TOKEN_LENGTH]) {
    let mut bytes = [0u8; TOKEN_LENGTH];
    rand::thread_rng().fill(&mut bytes);
    bytes
}

/// Calls `base64::encode_config` with `URL_SAFE_NO_PAD`.  The contract only
/// names the text: the encoding depends on the bytes alone.  The size of the
/// text for `TOKEN_LENGTH` bytes is far from any overflow.
#[verifier::external_body]
fn encode_url_safe(bytes: &[u8; TOKEN_LENGTH]) -> (text: String)
    ensures
        text@ == base64_url_encode(bytes@),
{
    base64::encode_config(bytes, base64::URL_SAFE_NO_PAD)
}

/// Calls `base64::decode_config` with `URL_SAFE_NO_PAD`.  The contract only
/// names the outcome: success and the decoded bytes depend on the text alone.
/// No text is long enough to overflow the size of what it decodes to.
#[verifier::external_body]
fn decode_url_safe(text: &str) -> (decoded: Result<Vec<u8>, DecodeError>)
    ensures
        match decoded {
            Ok(bytes) => base64_url_decode(text@) == Some(bytes@),
            Err(_) => base64_url_decode(text@) is None,
        },
{
    base64::decode_config(text, base64::URL_SAFE_NO_PAD)
}

/// An array whose first `n` bytes are those of `bytes`.
spec fn array_of(bytes: Seq<u8>, n: nat) -> [u8; TOKEN_LENGTH]
    decreases n,
{
    if n == 0 {
        arbitrary()
    } else {
        vstd::array::spec_array_update(array_of(bytes, (n - 1) as nat), n - 1, bytes[n - 1])
    }
}

/// The first `n` bytes of `array_of(bytes, n)` are those of `bytes`.
proof fn lemma_array_of(bytes: Seq<u8>, n: nat)
    requires
        n <= TOKEN_LENGTH,
    ensures
        forall|j: int| 0 <= j < n ==> array_of(bytes, n)@[j] == bytes[j],
    decreases n,
{
    if n > 0 {
        lemma_array_of(bytes, (n - 1) as nat);
    }
}

impl Token {
    /// The token's bytes.
    pub closed spec fn bytes(self) -> Seq<u8> {
        self.0@
    }

    /// A token has exactly `TOKEN_LENGTH` bytes.
    pub proof fn lemma_length(self)
        ensures
            self.bytes().len() == TOKEN_LENGTH,
    {
    }

    /// The token's bytes.
    pub fn as_bytes(&self) -> (bytes: &[u8; TOKEN_LENGTH])
        ensures
            bytes@ == self.bytes(),
    {
        &self.0
    }

    /// The token with the given bytes, where there are `TOKEN_LENGTH` of them.
    pub closed spec fn of(bytes: Seq<u8>) -> Token {
        Token(array_of(bytes, TOKEN_LENGTH as nat))
    }

    /// The token of `TOKEN_LENGTH` bytes holds exactly those bytes.
    pub proof fn lemma_of(bytes: Seq<u8>)
        requires
            bytes.len() == TOKEN_LENGTH,
        ensures
            Token::of(bytes).bytes() == bytes,
    {
        lemma_array_of(bytes, TOKEN_LENGTH as nat);
        assert(Token::of(bytes).bytes() =~= bytes);
    }

    /// The token that a decoded byte string stands for: the bytes must be
    /// exactly `TOKEN_LENGTH` long, and the token holds them.
    pub open spec fn from_bytes_spec(bytes: Seq<u8>) -> Result<Token, MalformedToken> {
        if bytes.len() == TOKEN_LENGTH {
            Ok(Token::of(bytes))
        } else {
            Err(MalformedToken)
        }
    }

    /// A decoded token holds the bytes that the text stands for, and a text
    /// decodes to a token only if it stands for `TOKEN_LENGTH` bytes.
    pub proof fn lemma_decoded(outcome: Option<Seq<u8>>)
        ensures
            Self::decoded(outcome) is Ok <==> (outcome matches Some(bytes) && bytes.len()
                == TOKEN_LENGTH),
            Self::decoded(outcome) matches Ok(token) ==> outcome == Some(token.bytes()),
    {
        if let Some(bytes) = outcome {
            if bytes.len() == TOKEN_LENGTH {
                Self::lemma_of(bytes);
            }
        }
    }

    /// What a text decodes to, given what base64 makes of it.
    pub open spec fn decoded(outcome: Option<Seq<u8>>) -> Result<Token, MalformedToken> {
        match outcome {
            Some(bytes) => Self::from_bytes_spec(bytes),
            None => Err(MalformedToken),
        }
    }

    /// A fresh token from the thread's random number generator.
    pub fn new_random() -> (token: Self)
        ensures
            token.bytes().len() == TOKEN_LENGTH,
    {
        Self::from_array(random_bytes())
    }

    /// The token's text form.
    pub fn to_base64(&self) -> (text: String)
        ensures
            text@ == base64_url_encode(self.bytes()),
    {
        encode_url_safe(&self.0)
    }

    /// The token made of the given bytes, if there are exactly
    /// `TOKEN_LENGTH` of them.
    pub fn from_bytes(bytes: &[u8]) -> (r: Result<Self, MalformedToken>)
        ensures
            r == Self::from_bytes_spec(bytes@),
            r matches Ok(t) ==> t.bytes() == bytes@,
            r is Ok <==> bytes@.len() == TOKEN_LENGTH,
    {
        if bytes.len() != TOKEN_LENGTH {
            return Err(MalformedToken);
        }
        let mut buf = [0u8; TOKEN_LENGTH];
        let mut i: usize = 0;
        while i < TOKEN_LENGTH
            invariant
                i <= TOKEN_LENGTH,
                bytes@.len() == TOKEN_LENGTH,
                forall|j: int| 0 <= j < i ==> buf@[j] == bytes@[j],
            decreases TOKEN_LENGTH - i,
        {
            buf[i] = bytes[i];
            i += 1;
        }
        let token = Token(buf);
        proof {
            assert(token.bytes() =~= bytes@);
            Self::lemma_of(bytes@);
            Self::bytes_determine_token(token, Token::of(bytes@));
        }
        Ok(token)
    }

    /// The token made of the given bytes.
    pub fn from_array(bytes: [u8; TOKEN_LENGTH]) -> (token: Self)
        ensures
            token.bytes() == bytes@,
    {
        Token(bytes)
    }

    /// Decodes a token from its text form.
    pub fn from_str(text: &str) -> (r: Result<Self, MalformedToken>)
        ensures
            r == Self::decoded(base64_url_decode(text@)),
            r is Ok <==> (base64_url_decode(text@) matches Some(bytes) && bytes.len()
                == TOKEN_LENGTH),
            r matches Ok(token) ==> base64_url_decode(text@) == Some(token.bytes()),
    {
        proof {
            Self::lemma_decoded(base64_url_decode(text@));
        }
        match decode_url_safe(text) {
            Ok(bytes) => Self::from_bytes(bytes.as_slice()),
            Err(_) => Err(MalformedToken),
        }
    }

    /// Two tokens with the same bytes are the same token.
    pub proof fn bytes_determine_token(a: Token, b: Token)
        requires
            a.bytes() == b.bytes(),
        ensures
            a == b,
    {
        assert(a.0 =~= b.0);
    }
}

} // verus!
