//! Packaging and unpackaging of whole file contents.
//!
//! Every function here works on bytes already in memory; reading them from
//! storage and writing them back is the caller's part.

use vstd::prelude::*;
use crate::crypto::{
    decode, decoded, encode, encoded, is_encrypted, is_tagged, lemma_decode_inverts_encode,
};
use crate::error::GuardError;

verus! {

/// The bytes of a packaged file: the marker, then the encoded payload.
pub open spec fn packaged(content: Seq<u8>, header: Seq<u8>, key: Seq<u8>) -> Seq<u8> {
    header + encoded(content, key)
}

/// The payload of a packaged file: what follows the marker, decoded.
pub open spec fn unpackaged(data: Seq<u8>, header: Seq<u8>, key: Seq<u8>) -> Seq<u8> {
    decoded(data.subrange(header.len() as int, data.len() as int), key)
}

/// What wrapping gives: tagged content as it is, any other content packaged.
pub open spec fn wrapped(content: Seq<u8>, header: Seq<u8>, key: Seq<u8>) -> Seq<u8> {
    if is_tagged(content, header) {
        content
    } else {
        packaged(content, header, key)
    }
}

/// Copies `src[from..to]` into a fresh vector.
fn copy_range(src: &[u8], from: usize, to: usize) -> (out: Vec<u8>)
    requires
        from <= to <= src@.len(),
    ensures
        out@ == src@.subrange(from as int, to as int),
{
    let mut out: Vec<u8> = Vec::new();
    let mut i: usize = from;
    while i < to
        invariant
            from <= i <= to,
            to <= src@.len(),
            out@ == src@.subrange(from as int, i as int),
        decreases to - i,
    {
        out.push(src[i]);
        i += 1;
    }
    out
}

/// Appends all of `src` to `out`.
fn append_all(out: &mut Vec<u8>, src: &[u8])
    ensures
        final(out)@ == old(out)@ + src@,
{
    let ghost before = out@;
    let mut i: usize = 0;
    while i < src.len()
        invariant
            i <= src@.len(),
            out@ == before + src@.subrange(0, i as int),
        decreases src@.len() - i,
    {
        out.push(src[i]);
        i += 1;
    }
}

/// Packages `content` whether or not it is tagged: the marker followed by
/// the encoded content.
pub fn package_content(content: &[u8], header: &[u8], key: &[u8]) -> (out: Vec<u8>)
    requires
        key@.len() > 0,
    ensures
        out@ == packaged(content@, header@, key@),
{
    let mut body = copy_range(content, 0, content.len());
    encode(body.as_mut_slice(), key);
    let mut out: Vec<u8> = Vec::new();
    append_all(&mut out, header);
    append_all(&mut out, body.as_slice());
    out
}

/// Wraps `content` for storage.
///
/// Content that already starts with the marker comes back unchanged, so
/// wrapping twice is the same as wrapping once. Any other content comes back
/// as the marker followed by the encoded content.
pub fn encrypt_content(content: &[u8], header: &[u8], key: &[u8]) -> (out: Vec<u8>)
    requires
        key@.len() > 0,
    ensures
        out@ == wrapped(content@, header@, key@),
{
    if is_encrypted(content, header) {
        let out = copy_range(content, 0, content.len());
        return out;
    }
    package_content(content, header, key)
}

/// Unwraps tagged data: strips the marker and decodes the rest.
pub fn decrypt_content(data: &[u8], header: &[u8], key: &[u8]) -> (out: Vec<u8>)
    requires
        key@.len() > 0,
        is_tagged(data@, header@),
    ensures
        out@ == unpackaged(data@, header@, key@),
{
    let mut out = copy_range(data, header.len(), data.len());
    decode(out.as_mut_slice(), key);
    out
}

/// What packaging a source file gives: a refusal where the source is
/// tagged already, its packaged form otherwise.
pub open spec fn file_encrypted(source: Seq<u8>, header: Seq<u8>, key: Seq<u8>) -> Result<
    Seq<u8>,
    GuardError,
> {
    if is_tagged(source, header) {
        Err(GuardError::AlreadyTagged)
    } else {
        Ok(packaged(source, header, key))
    }
}

/// What restoring a file gives: a refusal where the file is shorter than
/// the marker or starts with something else, its payload otherwise.
pub open spec fn file_decrypted(file: Seq<u8>, header: Seq<u8>, key: Seq<u8>) -> Result<
    Seq<u8>,
    GuardError,
> {
    if file.len() < header.len() {
        Err(GuardError::TooSmall)
    } else if !is_tagged(file, header) {
        Err(GuardError::NotTagged)
    } else {
        Ok(unpackaged(file, header, key))
    }
}

/// Whether an executable outcome is the specified one.
pub open spec fn gives(r: Result<Vec<u8>, GuardError>, expected: Result<Seq<u8>, GuardError>) -> bool {
    match r {
        Ok(bytes) => expected == Ok::<Seq<u8>, GuardError>(bytes@),
        Err(e) => expected == Err::<Seq<u8>, GuardError>(e),
    }
}

/// Produces the packaged form of a source file's bytes.
///
/// Unlike [`encrypt_content`], this refuses a source that is already
/// tagged, with `AlreadyTagged`: packaging a file twice is treated as an
/// operator's mistake.
pub fn encrypt_file(source: &[u8], header: &[u8], key: &[u8]) -> (out: Result<Vec<u8>, GuardError>)
    requires
        key@.len() > 0,
    ensures
        gives(out, file_encrypted(source@, header@, key@)),
{
    if is_encrypted(source, header) {
        return Err(GuardError::AlreadyTagged);
    }
    Ok(package_content(source, header, key))
}

/// Restores the payload from a packaged file's bytes.
///
/// Fails with `TooSmall` when the file is shorter than the marker and with
/// `NotTagged` when it is long enough but starts with something else; raw
/// bytes are never handed back as if they were the payload.
pub fn read_and_decrypt_file(file: &[u8], header: &[u8], key: &[u8]) -> (out: Result<
    Vec<u8>,
    GuardError,
>)
    requires
        key@.len() > 0,
    ensures
        gives(out, file_decrypted(file@, header@, key@)),
{
    if file.len() < header.len() {
        return Err(GuardError::TooSmall);
    }
    if !is_encrypted(file, header) {
        return Err(GuardError::NotTagged);
    }
    Ok(decrypt_content(file, header, key))
}

/// How many leading bytes of a file decide whether it is tagged.
pub open spec fn probe_len(file_len: nat, header_len: nat) -> nat {
    if file_len < header_len {
        file_len
    } else {
        header_len
    }
}

/// Decides from the head of a file whether the file is tagged.
///
/// `head` holds the file's first bytes: as many as the marker is long, or
/// the whole file where it is shorter. Nothing is decoded.
pub fn check_file_encrypted(head: &[u8], header: &[u8]) -> (tagged: bool)
    ensures
        tagged == is_tagged(head@, header@),
        forall|file: Seq<u8>|
            head@ == #[trigger] file.subrange(
                0,
                probe_len(file.len(), header@.len()) as int,
            ) ==> tagged == is_tagged(file, header@),
{
    proof {
        assert forall|file: Seq<u8>|
            head@ == #[trigger] file.subrange(
                0,
                probe_len(file.len(), header@.len()) as int,
            ) implies is_tagged(head@, header@) == is_tagged(file, header@) by {
            lemma_probe_decides(file, header@);
        }
    }
    is_encrypted(head, header)
}

/// The head of a file, as long as the marker or the whole file where that is
/// shorter, is tagged exactly when the file is.
pub proof fn lemma_probe_decides(file: Seq<u8>, header: Seq<u8>)
    ensures
        is_tagged(file.subrange(0, probe_len(file.len(), header.len()) as int), header)
            == is_tagged(file, header),
{
}

/// A packaged payload is tagged.
pub proof fn lemma_packaged_is_tagged(content: Seq<u8>, header: Seq<u8>, key: Seq<u8>)
    ensures
        is_tagged(packaged(content, header, key), header),
{
}

/// Wrapping is idempotent: wrapping what was wrapped changes nothing.
pub proof fn lemma_wrap_is_idempotent(content: Seq<u8>, header: Seq<u8>, key: Seq<u8>)
    ensures
        wrapped(wrapped(content, header, key), header, key) == wrapped(content, header, key),
{
    if !is_tagged(content, header) {
        lemma_packaged_is_tagged(content, header, key);
    }
}

/// Unpackaging what was packaged under the same marker and key gives the
/// payload back, for payloads of every length.
pub proof fn lemma_unpackage_inverts_package(content: Seq<u8>, header: Seq<u8>, key: Seq<u8>)
    requires
        key.len() >= 1,
    ensures
        is_tagged(packaged(content, header, key), header),
        unpackaged(packaged(content, header, key), header, key) == content,
{
    lemma_packaged_is_tagged(content, header, key);
    lemma_decode_inverts_encode(content, key);
}

/// A file that was packaged restores to the bytes it was packaged from:
/// for every source that packaging accepts, whatever its length, restoring
/// the packaged file gives the source back.
pub proof fn lemma_file_round_trip(source: Seq<u8>, header: Seq<u8>, key: Seq<u8>)
    requires
        key.len() >= 1,
        !is_tagged(source, header),
    ensures
        file_encrypted(source, header, key) is Ok,
        file_decrypted(file_encrypted(source, header, key)->Ok_0, header, key) == Ok::<
            Seq<u8>,
            GuardError,
        >(source),
{
    lemma_unpackage_inverts_package(source, header, key);
}

} // verus!
