//! The authenticated encryption of voice packets, done by `xsalsa20poly1305`.

use vstd::prelude::*;
use xsalsa20poly1305::aead::generic_array::GenericArray;
use xsalsa20poly1305::aead::{Aead, Error as AeadError};
use xsalsa20poly1305::{KeyInit, XSalsa20Poly1305};

verus! {

/// By how many bytes a sealed message is longer than the message.
pub const TAG_SIZE: usize = 16;

/// Why a sealed message could not be opened, or a message not sealed.
#[verifier::external_type_specification]
#[verifier::external_body]
pub struct ExAeadError(AeadError);

/// What `XSalsa20Poly1305` makes of a message under a key and a nonce.
pub uninterp spec fn sealed(key: Seq<u8>, nonce: Seq<u8>, message: Seq<u8>) -> Seq<u8>;

/// The message that `XSalsa20Poly1305` finds in a sealed one under a key and a
/// nonce, if it is authentic.
pub uninterp spec fn opened(key: Seq<u8>, nonce: Seq<u8>, message: Seq<u8>) -> Option<Seq<u8>>;

/// `Aead::encrypt` of `XSalsa20Poly1305`, without associated data. It succeeds
/// on every message that fits in memory; the sealed message is longer by the
/// tag, and opening it under the same key and nonce gives the message back.
#[verifier::external_body]
pub(crate) fn seal(key: &[u8; 32], nonce: &[u8; 24], message: &[u8]) -> (r: Result<
    Vec<u8>,
    AeadError,
>)
    requires
        message@.len() + TAG_SIZE <= isize::MAX,
    ensures
        r is Ok,
        r->Ok_0@ == sealed(key@, nonce@, message@),
        r->Ok_0@.len() == message@.len() + TAG_SIZE,
        opened(key@, nonce@, r->Ok_0@) == Some(message@),
{
    let cipher = XSalsa20Poly1305::new(GenericArray::from_slice(key));
    cipher.encrypt(GenericArray::from_slice(nonce), message)
}

/// `Aead::decrypt` of `XSalsa20Poly1305`, without associated data. The message
/// is shorter than the sealed one by the tag.
#[verifier::external_body]
pub(crate) fn unseal(key: &[u8; 32], nonce: &[u8; 24], message: &[u8]) -> (r: Result<
    Vec<u8>,
    AeadError,
>)
    ensures
        match r {
            Ok(plain) => {
                &&& opened(key@, nonce@, message@) == Some(plain@)
                &&& plain@.len() + TAG_SIZE == message@.len()
            },
            Err(_) => opened(key@, nonce@, message@) is None,
        },
{
    let cipher = XSalsa20Poly1305::new(GenericArray::from_slice(key));
    cipher.decrypt(GenericArray::from_slice(nonce), message)
}

} // verus!
