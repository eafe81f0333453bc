//! Content fingerprints: the identity under which content is stored.
//!
//! A fingerprint is a 64-bit digest written in lower-case hexadecimal
//! without leading zeros. Equal content has equal fingerprints.

use crate::format::{numeral, write_numeral};
use crate::text::string_of;
use std::collections::hash_map::DefaultHasher;
use std::hash::Hasher;
use vstd::prelude::*;
use vstd::std_specs::hash::DefaultHasherAdditionalSpecFns;

verus! {

/// What `Hash::hash` of the standard library hands to a hasher for a text:
/// the runs of bytes that it writes, in their order.
pub uninterp spec fn text_writes(content: Seq<char>) -> Seq<Seq<u8>>;

/// What `Hash::hash` of the standard library hands to a hasher for a slice
/// of bytes: the runs of bytes that it writes, in their order. The length of
/// the slice is among them as a machine word, so the runs are those of the
/// platform the library is built for.
pub uninterp spec fn bytes_writes(data: Seq<u8>) -> Seq<Seq<u8>>;

/// Feeds a text to a hasher with `Hash::hash`. What the hasher is handed
/// depends on the text alone.
#[verifier::external_body]
fn feed_text(hasher: &mut DefaultHasher, content: &str)
    ensures
        final(hasher)@ == old(hasher)@ + text_writes(content@),
{
    std::hash::Hash::hash(content, hasher)
}

/// Feeds a slice of bytes to a hasher with `Hash::hash`. What the hasher is
/// handed depends on the bytes alone.
#[verifier::external_body]
fn feed_bytes(hasher: &mut DefaultHasher, data: &[u8])
    ensures
        final(hasher)@ == old(hasher)@ + bytes_writes(data@),
{
    std::hash::Hash::hash(data, hasher)
}

/// The digest of a text: what the default hasher of the standard library
/// makes of the text when it is fed nothing else.
pub open spec fn text_digest(content: Seq<char>) -> u64 {
    DefaultHasher::spec_finish(text_writes(content))
}

/// The digest of a run of bytes: what the default hasher of the standard
/// library makes of the bytes when it is fed nothing else.
pub open spec fn bytes_digest(data: Seq<u8>) -> u64 {
    DefaultHasher::spec_finish(bytes_writes(data))
}

/// A number in lower-case hexadecimal, without leading zeros.
pub open spec fn hex(n: nat) -> Seq<char> {
    numeral(n, 16)
}

/// The fingerprint of a text.
pub open spec fn text_fingerprint(content: Seq<char>) -> Seq<char> {
    hex(text_digest(content) as nat)
}

/// The fingerprint of image bytes.
pub open spec fn image_fingerprint(data: Seq<u8>) -> Seq<char> {
    hex(bytes_digest(data) as nat)
}

/// Writes a number in lower-case hexadecimal.
pub fn to_hex(n: u64) -> (out: String)
    ensures
        out@ == hex(n as nat),
{
    string_of(&write_numeral(n as u128, 16))
}

/// The fingerprint of a text.
pub fn generate_content_hash(content: &str) -> (id: String)
    ensures
        id@ == text_fingerprint(content@),
{
    let mut hasher = DefaultHasher::new();
    feed_text(&mut hasher, content);
    assert(hasher@ =~= text_writes(content@));
    to_hex(hasher.finish())
}

/// The fingerprint of image bytes.
pub fn generate_image_hash(image_data: &[u8]) -> (id: String)
    ensures
        id@ == image_fingerprint(image_data@),
{
    let mut hasher = DefaultHasher::new();
    feed_bytes(&mut hasher, image_data);
    assert(hasher@ =~= bytes_writes(image_data@));
    to_hex(hasher.finish())
}

/// The fingerprint under which the monitor remembers a text; the same as
/// the one under which the text is stored.
pub fn generate_hash(content: &str) -> (id: String)
    ensures
        id@ == text_fingerprint(content@),
{
    generate_content_hash(content)
}

} // verus!
