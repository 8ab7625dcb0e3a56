//! Account identifiers.

use vstd::prelude::*;

verus! {

/// Shortest valid account identifier, in characters.
pub const MIN_ACCOUNT_ID_LEN: usize = 2;

/// Longest valid account identifier, in characters.
pub const MAX_ACCOUNT_ID_LEN: usize = 64;

/// Lowercase ASCII letter or digit.
pub open spec fn is_account_id_alphanumeric(c: char) -> bool {
    ('a' <= c && c <= 'z') || ('0' <= c && c <= '9')
}

/// One of the separators `-`, `_` and `.`.
pub open spec fn is_account_id_separator(c: char) -> bool {
    c == '-' || c == '_' || c == '.'
}

/// The account identifier grammar: 2 to 64 characters, each a lowercase
/// letter, a digit or a separator, where no separator stands first, last, or
/// next to another separator.
pub open spec fn is_valid_account_id(s: Seq<char>) -> bool {
    &&& MIN_ACCOUNT_ID_LEN <= s.len() <= MAX_ACCOUNT_ID_LEN
    &&& forall|i: int|
        0 <= i < s.len() ==> is_account_id_alphanumeric(#[trigger] s[i])
            || is_account_id_separator(s[i])
    &&& !is_account_id_separator(s[0])
    &&& !is_account_id_separator(s[s.len() - 1])
    &&& forall|i: int|
        0 <= i < s.len() - 1 ==> !(is_account_id_separator(#[trigger] s[i])
            && is_account_id_separator(s[i + 1]))
}

/// Every character of a valid account identifier is ASCII.
pub proof fn lemma_valid_account_id_is_ascii(s: Seq<char>)
    requires
        is_valid_account_id(s),
    ensures
        vstd::utf8::is_ascii_chars(s),
{
    assert forall|i: int| 0 <= i < s.len() implies '\0' <= #[trigger] s[i] <= '\u{7f}' by {
        assert(is_account_id_alphanumeric(s[i]) || is_account_id_separator(s[i]));
    }
}

/// The text that ASCII bytes spell.
pub open spec fn ascii_text(bytes: Seq<u8>) -> Seq<char> {
    Seq::new(bytes.len(), |i: int| bytes[i] as char)
}

/// The bytes are ASCII and spell a valid account identifier.
pub open spec fn is_valid_account_id_bytes(bytes: Seq<u8>) -> bool {
    &&& forall|i: int| 0 <= i < bytes.len() ==> #[trigger] bytes[i] <= 0x7f
    &&& is_valid_account_id(ascii_text(bytes))
}

/// The UTF-8 encoding of a valid account identifier holds one ASCII byte for
/// each character, and spells the identifier.
pub proof fn lemma_valid_account_id_bytes(s: Seq<char>)
    requires
        is_valid_account_id(s),
    ensures
        vstd::utf8::encode_utf8(s).len() == s.len(),
        is_valid_account_id_bytes(vstd::utf8::encode_utf8(s)),
        ascii_text(vstd::utf8::encode_utf8(s)) == s,
{
    lemma_valid_account_id_is_ascii(s);
    vstd::utf8::is_ascii_chars_encode_utf8(s);
    let bytes = vstd::utf8::encode_utf8(s);
    assert forall|i: int| 0 <= i < bytes.len() implies #[trigger] bytes[i] <= 0x7f && bytes[i] as char
        == s[i] by {
        assert(s[i] as u8 == bytes[i]);
        assert('\0' <= s[i] <= '\u{7f}');
    }
    assert(ascii_text(bytes) =~= s);
}

/// ASCII bytes are the UTF-8 encoding of the text that they spell.
pub proof fn lemma_ascii_text_bytes(bytes: Seq<u8>)
    requires
        forall|i: int| 0 <= i < bytes.len() ==> #[trigger] bytes[i] <= 0x7f,
    ensures
        vstd::utf8::encode_utf8(ascii_text(bytes)) == bytes,
        vstd::utf8::valid_utf8(bytes),
{
    let text = ascii_text(bytes);
    assert forall|i: int| 0 <= i < text.len() implies '\0' <= #[trigger] text[i] <= '\u{7f}' by {
        assert(bytes[i] <= 0x7f);
    }
    vstd::utf8::is_ascii_chars_encode_utf8(text);
    let encoded = vstd::utf8::encode_utf8(text);
    assert forall|i: int| 0 <= i < encoded.len() implies encoded[i] == bytes[i] by {
        assert(text[i] as u8 == encoded[i]);
        assert(bytes[i] <= 0x7f);
    }
    assert(encoded =~= bytes);
    vstd::utf8::encode_utf8_valid_utf8(text);
}

/// `core::str::from_utf8`: the bytes as text, where they are valid UTF-8.
#[verifier::external_body]
fn str_from_utf8(bytes: &[u8]) -> (r: Option<&str>)
    ensures
        r is Some <==> vstd::utf8::valid_utf8(bytes@),
        r matches Some(text) ==> vstd::utf8::encode_utf8(text@) == bytes@,
{
    core::str::from_utf8(bytes).ok()
}

/// Validates `s` with `near_account_id::AccountId::from_str` and hands the
/// accepted text back as a `String`. The contract restates that crate's
/// validation rules as [`is_valid_account_id`]: acceptance is exactly
/// validity, and the accepted text is unchanged.
#[verifier::external_body]
fn parse_near_account_id(s: &str) -> (r: Option<String>)
    ensures
        r is Some <==> is_valid_account_id(s@),
        r matches Some(id) ==> id@ == s@,
{
    match s.parse::<near_account_id::AccountId>() {
        Ok(id) => Some(id.into()),
        Err(_) => None,
    }
}

/// A validated account identifier.
#[derive(Debug, PartialEq, Eq, Hash)]
pub struct AccountId {
    id: String,
}

impl View for AccountId {
    type V = Seq<char>;

    closed spec fn view(&self) -> Seq<char> {
        self.id@
    }
}

impl AccountId {
    #[verifier::type_invariant]
    spec fn well_formed(self) -> bool {
        is_valid_account_id(self.id@)
    }

    /// Parses an account identifier, returning `None` for text outside the
    /// account identifier grammar.
    pub fn parse(s: &str) -> (r: Option<AccountId>)
        ensures
            r is Some <==> is_valid_account_id(s@),
            r matches Some(id) ==> id@ == s@,
    {
        match parse_near_account_id(s) {
            Some(id) => Some(AccountId { id }),
            None => None,
        }
    }

    /// Reads an account identifier from its UTF-8 bytes, returning `None`
    /// for bytes that do not spell one.
    pub fn from_utf8(bytes: &[u8]) -> (r: Option<AccountId>)
        ensures
            r is Some <==> is_valid_account_id_bytes(bytes@),
            r matches Some(id) ==> id@ == ascii_text(bytes@),
    {
        proof {
            if is_valid_account_id_bytes(bytes@) {
                lemma_ascii_text_bytes(bytes@);
            }
        }
        match str_from_utf8(bytes) {
            Some(text) => {
                proof {
                    if is_valid_account_id(text@) {
                        lemma_valid_account_id_bytes(text@);
                    }
                    if is_valid_account_id_bytes(bytes@) {
                        vstd::utf8::encode_utf8_decode_utf8(text@);
                        vstd::utf8::encode_utf8_decode_utf8(ascii_text(bytes@));
                    }
                }
                AccountId::parse(text)
            },
            None => None,
        }
    }

    /// The identifier as text.
    pub fn as_str(&self) -> (s: &str)
        ensures
            s@ == self@,
            is_valid_account_id(s@),
    {
        proof {
            use_type_invariant(self);
        }
        self.id.as_str()
    }

    /// The length of the identifier, in characters and in bytes alike.
    pub fn len(&self) -> (n: usize)
        ensures
            n == self@.len(),
            MIN_ACCOUNT_ID_LEN <= n <= MAX_ACCOUNT_ID_LEN,
            vstd::utf8::encode_utf8(self@).len() == n,
    {
        proof {
            use_type_invariant(self);
            lemma_valid_account_id_is_ascii(self.id@);
            vstd::utf8::is_ascii_chars_encode_utf8(self.id@);
        }
        self.id.as_str().len()
    }

    /// Whether two identifiers name the same account.
    pub fn same_as(&self, other: &AccountId) -> (r: bool)
        ensures
            r == (self@ == other@),
    {
        self.id == other.id
    }
}

impl Clone for AccountId {
    fn clone(&self) -> (r: Self)
        ensures
            r@ == self@,
    {
        proof {
            use_type_invariant(self);
        }
        AccountId { id: self.id.clone() }
    }
}

} // verus!
