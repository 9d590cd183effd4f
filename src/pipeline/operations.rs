//! The two end-to-end operations. Embedding encrypts, then compresses,
//! then hides; extraction reverses those steps in the opposite order.
use super::compression::{
    frame, framed, has_marker, lemma_base64_unmarked, starts_with_marker, unframe, unframed,
    zlib_compressed, MARKER_LEN,
};
use crate::carrier::Carrier;
use crate::codec::{embedded, extracted, has_capacity, lemma_round_trip};
use crate::cryptography::aes::{
    decrypt, decrypted, encrypt, encryptable, holds_sealed, sealed_text, NONCE_SIZE, TAG_SIZE,
};
use crate::cryptography::util::{key_to_bytes, padded_key, KEY_SIZE};
use crate::error::ApplicationError;
use crate::steganography::lsb;
use crate::encoding::base64_len;
use crate::text::{lemma_base64_byte_len, lemma_base64_nul_free, lemma_nul_free_no_zero_byte, nul_free, string_from_utf8};
use vstd::prelude::*;
use vstd::string::*;
use vstd::utf8::*;

verus! {

broadcast use {encode_utf8_valid_utf8, encode_utf8_decode_utf8};

/// Where the operations report which step they are on.
pub trait Progress {
    /// The operation has started the step that `message` names.
    fn update(&self, message: &str);

    /// The operation has ended; `message` says how.
    fn finish_with_message(&self, message: &str);
}

/// The UTF-8 bytes of an optional passphrase.
pub open spec fn passphrase_bytes(key: Option<String>) -> Option<Seq<u8>> {
    match key {
        Some(k) => Some(encode_utf8(k@)),
        None => None,
    }
}

/// The text that embedding hides before any framing: `data` itself or,
/// under a passphrase, its encrypted form with `nonce`.
pub open spec fn sealed_stage(data: Seq<char>, key: Option<Seq<u8>>, nonce: Seq<u8>) -> Seq<char> {
    match key {
        Some(k) => sealed_text(padded_key(k), nonce, data),
        None => data,
    }
}

/// The text that embedding hides for `data`: the sealed stage, framed if
/// `compress`.
pub open spec fn staged(data: Seq<char>, key: Option<Seq<u8>>, compress: bool, nonce: Seq<u8>) -> Seq<char> {
    if compress {
        framed(encode_utf8(sealed_stage(data, key, nonce)))
    } else {
        sealed_stage(data, key, nonce)
    }
}

/// Embedding the staged text of `data` with `nonce` succeeds in a carrier
/// of `available` channel bytes: a compressed stream is short enough for
/// base64, and the staged text with its delimiter fits.
pub open spec fn stage_fits(
    data: Seq<char>,
    key: Option<Seq<u8>>,
    compress: bool,
    nonce: Seq<u8>,
    available: nat,
) -> bool {
    &&& compress ==> zlib_compressed(encode_utf8(sealed_stage(data, key, nonce))).len()
        <= usize::MAX / 2
    &&& has_capacity(encode_utf8(staged(data, key, compress, nonce)).len(), available)
}

/// The text that the bytes `inner` decrypt to under an optional
/// passphrase; `None` for a passphrase over 32 bytes or a failed
/// decryption.
pub open spec fn opened(inner: Seq<u8>, key: Option<Seq<u8>>) -> Option<Seq<char>> {
    match key {
        None => Some(decode_utf8(inner)),
        Some(k) => if k.len() > KEY_SIZE {
            None
        } else {
            decrypted(decode_utf8(inner), padded_key(k))
        },
    }
}

/// The bytes that extraction hands on to decryption: the extracted text,
/// unframed and inflated if `decompress`; `None` when the extracted bytes
/// are not UTF-8, the marker disagrees with `decompress`, or unframing
/// fails or gives bytes that are not UTF-8.
pub open spec fn inner_bytes(samples: Seq<u8>, decompress: bool) -> Option<Seq<u8>> {
    let bytes = extracted(samples);
    if !valid_utf8(bytes) {
        None
    } else if decompress {
        match unframed(bytes) {
            None => None,
            Some(inner) => if valid_utf8(inner) {
                Some(inner)
            } else {
                None
            },
        }
    } else if has_marker(bytes) {
        None
    } else {
        Some(bytes)
    }
}

/// The payload that extraction recovers from channel bytes `samples`, or
/// `None` when extraction fails.
pub open spec fn recovered(samples: Seq<u8>, key: Option<Seq<u8>>, decompress: bool) -> Option<Seq<char>> {
    match inner_bytes(samples, decompress) {
        None => None,
        Some(inner) => opened(inner, key),
    }
}

/// Hides `data` in `image`: encrypts it under `key` if one is given, frames
/// it compressed if `compress`, then embeds it with its delimiter.
///
/// Fails, leaving `image` untouched, with `EncryptionError` for a key over
/// 32 bytes, a payload too long to encrypt or a failed random generator,
/// and with `EncodingError` when the staged text does not fit (or its
/// compressed stream is too long for base64). Extraction with the same key
/// and with decompression as `compress` gives `data` back, whenever a key
/// or compression is used, and otherwise for any `data` without NUL that
/// does not start with the frame marker.
pub fn encode<P: Progress>(
    data: &str,
    image: &mut Carrier,
    key: Option<String>,
    compress: bool,
    progress: &P,
) -> (r: Result<(), ApplicationError>)
    requires
        old(image).wf(),
    ensures
        final(image).wf(),
        final(image).spec_width() == old(image).spec_width(),
        final(image).spec_height() == old(image).spec_height(),
        r is Err ==> final(image).spec_samples() == old(image).spec_samples(),
        r is Err ==> r matches Err(ApplicationError::EncryptionError(_)) || r matches Err(
            ApplicationError::EncodingError(_),
        ),
        r matches Err(ApplicationError::EncryptionError(_)) ==> key is Some,
        key is Some && (encode_utf8(key->Some_0@).len() > KEY_SIZE || !encryptable(
            encode_utf8(data@).len(),
        )) ==> r matches Err(ApplicationError::EncryptionError(_)),
        !(r matches Err(ApplicationError::EncryptionError(_))) ==> exists|nonce: Seq<u8>|
            nonce.len() == NONCE_SIZE && (r is Ok <==> #[trigger] stage_fits(
                data@,
                passphrase_bytes(key),
                compress,
                nonce,
                old(image).spec_samples().len(),
            )) && (r is Ok ==> final(image).spec_samples() == embedded(
                old(image).spec_samples(),
                encode_utf8(staged(data@, passphrase_bytes(key), compress, nonce)).push(0u8),
            )),
        key is None && !compress ==> (r is Ok <==> has_capacity(
            encode_utf8(data@).len(),
            old(image).spec_samples().len(),
        )),
        key is None && compress ==> (r is Ok <==> zlib_compressed(encode_utf8(data@)).len()
            <= usize::MAX / 2 && has_capacity(
            (MARKER_LEN + base64_len(zlib_compressed(encode_utf8(data@)).len())) as nat,
            old(image).spec_samples().len(),
        )),
        key is Some && !compress && !(r matches Err(ApplicationError::EncryptionError(_))) ==> (r is Ok
            <==> has_capacity(
            base64_len((encode_utf8(data@).len() + NONCE_SIZE + TAG_SIZE) as nat),
            old(image).spec_samples().len(),
        )),
        r is Ok && (key is Some || compress || (nul_free(data@) && !has_marker(
            encode_utf8(data@),
        ))) ==> recovered(final(image).spec_samples(), passphrase_bytes(key), compress) == Some(
            data@,
        ),
{
    let ghost before = image.spec_samples();
    let ghost available = before.len();
    let ghost pass = passphrase_bytes(key);
    let ghost mut nonce: Seq<u8> = Seq::new(NONCE_SIZE as nat, |i: int| 0u8);
    let sealed: String = match key {
        Some(k) => {
            progress.update("Encrypting data...");
            let key_bytes = match key_to_bytes(k.as_str()) {
                Ok(b) => b,
                Err(e) => {
                    return Err(e);
                },
            };
            match encrypt(data, &key_bytes) {
                Ok(t) => {
                    proof {
                        nonce = choose|n: Seq<u8>|
                            n.len() == NONCE_SIZE && #[trigger] sealed_text(key_bytes@, n, data@)
                                == t@ && holds_sealed(t@, key_bytes@, n, data@);
                        lemma_base64_nul_free(t@);
                        lemma_base64_unmarked(t@);
                        lemma_base64_byte_len(t@);
                    }
                    t
                },
                Err(e) => {
                    return Err(e);
                },
            }
        },
        None => String::from_str(data),
    };
    assert(sealed@ == sealed_stage(data@, pass, nonce));
    assert(pass is Some ==> nul_free(sealed@) && encode_utf8(sealed@).len() == base64_len(
        (encode_utf8(data@).len() + NONCE_SIZE + TAG_SIZE) as nat,
    ));
    let staged_text: String = if compress {
        progress.update("Compressing data...");
        match frame(sealed.as_str().as_bytes()) {
            Ok(t) => t,
            Err(e) => {
                assert(!stage_fits(data@, pass, compress, nonce, available));
                return Err(e);
            },
        }
    } else {
        sealed
    };
    assert(staged_text@ == staged(data@, pass, compress, nonce));
    assert(compress ==> nul_free(staged_text@));
    progress.update("Encoding data into image...");
    match lsb::encode(staged_text.as_str(), image) {
        Ok(()) => {},
        Err(e) => {
            assert(!stage_fits(data@, pass, compress, nonce, available));
            return Err(e);
        },
    }
    assert(stage_fits(data@, pass, compress, nonce, available));
    proof {
        let bytes = encode_utf8(staged_text@);
        if pass is Some || compress || (nul_free(data@) && !has_marker(encode_utf8(data@))) {
            lemma_nul_free_no_zero_byte(staged_text@);
            lemma_round_trip(before, bytes);
            assert(extracted(image.spec_samples()) == bytes);
        }
    }
    Ok(())
}

/// Recovers the payload that `image` carries: extracts it, unframes and
/// inflates it if `decompress`, then decrypts it under `key` if one is
/// given.
///
/// Fails with `DecodingError` when the extracted data is not UTF-8 text,
/// when the frame marker is present without `decompress` or absent with
/// it, or when the inflated payload is not text; with `IoError` when the
/// framed body does not inflate; with `EncryptionError` for a key over 32
/// bytes; and with `DecryptionError` when decryption fails.
pub fn decode<P: Progress>(
    image: &Carrier,
    key: Option<String>,
    decompress: bool,
    progress: &P,
) -> (r: Result<String, ApplicationError>)
    ensures
        r is Ok <==> recovered(image.spec_samples(), passphrase_bytes(key), decompress) is Some,
        r matches Ok(s) ==> recovered(image.spec_samples(), passphrase_bytes(key), decompress)
            == Some(s@),
        !valid_utf8(extracted(image.spec_samples())) ==> r matches Err(
            ApplicationError::DecodingError(_),
        ),
        valid_utf8(extracted(image.spec_samples())) && !decompress && has_marker(
            extracted(image.spec_samples()),
        ) ==> (r matches Err(ApplicationError::DecodingError(m)) && m@
            == "Data is compressed but decompression was not requested"@),
        valid_utf8(extracted(image.spec_samples())) && decompress && !has_marker(
            extracted(image.spec_samples()),
        ) ==> (r matches Err(ApplicationError::DecodingError(m)) && m@
            == "Decompression expected, but message is not compressed"@),
        inner_bytes(image.spec_samples(), decompress) is Some && key is Some && encode_utf8(
            key->Some_0@,
        ).len() > KEY_SIZE ==> r matches Err(ApplicationError::EncryptionError(_)),
        inner_bytes(image.spec_samples(), decompress) is Some && key is Some && encode_utf8(
            key->Some_0@,
        ).len() <= KEY_SIZE && decrypted(
            decode_utf8(inner_bytes(image.spec_samples(), decompress)->Some_0),
            padded_key(encode_utf8(key->Some_0@)),
        ) is None ==> r matches Err(ApplicationError::DecryptionError(_)),
        inner_bytes(image.spec_samples(), decompress) is None ==> r matches Err(
            ApplicationError::DecodingError(_),
        ) || r matches Err(ApplicationError::IoError(_)),
        r is Err ==> r matches Err(ApplicationError::DecodingError(_)) || r matches Err(
            ApplicationError::IoError(_),
        ) || r matches Err(ApplicationError::EncryptionError(_)) || r matches Err(
            ApplicationError::DecryptionError(_),
        ),
{
    let ghost bytes = extracted(image.spec_samples());
    let ghost pass = passphrase_bytes(key);
    progress.update("Decoding data from image...");
    let text: String = match lsb::decode(image) {
        Ok(s) => s,
        Err(e) => {
            return Err(e);
        },
    };
    assert(text@ == decode_utf8(bytes));
    let inner: String = if decompress {
        progress.update("Decompressing data...");
        let raw = match unframe(text.as_str()) {
            Ok(d) => d,
            Err(e) => {
                return Err(e);
            },
        };
        let ghost raw_bytes = raw@;
        match string_from_utf8(raw) {
            Some(s) => {
                assert(decode_utf8(raw_bytes) == s@);
                s
            },
            None => {
                return Err(
                    ApplicationError::DecodingError(String::from_str("UTF-8 decoding failed")),
                );
            },
        }
    } else {
        if starts_with_marker(text.as_str().as_bytes()) {
            return Err(
                ApplicationError::DecodingError(
                    String::from_str("Data is compressed but decompression was not requested"),
                ),
            );
        }
        text
    };
    match key {
        Some(k) => {
            progress.update("Decrypting data...");
            let key_bytes = match key_to_bytes(k.as_str()) {
                Ok(b) => b,
                Err(e) => {
                    return Err(e);
                },
            };
            decrypt(inner.as_str(), &key_bytes)
        },
        None => Ok(inner),
    }
}

} // verus!
