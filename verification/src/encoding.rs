//! Subtitle-file text decoding: explicit-encoding decode and best-effort
//! detection.
//!
//! The host reads the file; the bytes are decoded here.  With an explicit
//! encoding label the bytes are decoded by that encoding (an unknown label
//! is an error).  Without one, the text is sniffed: a UTF-16 byte-order
//! mark, or a detector guess other than UTF-8, reports "strange" so the
//! host can ask the user; otherwise the bytes are decoded as UTF-8.

use vstd::prelude::*;

verus! {

/// Outcome of decoding with an explicit encoding.
pub enum DecodeResult {
    Decoded(String),
    Error(String),
}

/// Outcome of decode-with-detection: ordinary UTF-8 text, text in some
/// other ("strange") encoding the host must handle, or a failure.
pub enum DetectResult {
    Normal(String),
    Strange(()),
    Error(String),
}

/// The encoding type of the decoding library, held opaquely.
#[verifier::external_type_specification]
#[verifier::external_body]
pub struct ExEncoding(encoding_rs::Encoding);

/// The byte run is plain ASCII.
pub open spec fn all_ascii(bytes: Seq<u8>) -> bool {
    forall|i: int| 0 <= i < bytes.len() ==> bytes[i] < 0x80
}

/// Whether a label resolves to an encoding: the WHATWG label registry is a
/// fixed table, so this is a function of the label alone.
pub uninterp spec fn label_known(label: Seq<u8>) -> bool;

/// What decoding a byte sequence as UTF-8 (lossily, with replacement
/// characters) yields: a function of the bytes alone.
pub uninterp spec fn utf8_decode_of(bytes: Seq<u8>) -> Seq<char>;

/// What decoding a byte sequence by the encoding a label resolves to
/// yields: the registry is fixed and decoding is deterministic, so this is
/// a function of the label and the bytes alone.  Meaningful only when
/// `label_known` holds of the label.
pub uninterp spec fn decode_labeled_of(label: Seq<u8>, bytes: Seq<u8>) -> Seq<char>;

/// Relies on `encoding_rs::Encoding::for_label` and
/// `encoding_rs::Encoding::decode` in one step: the label is resolved
/// against the fixed WHATWG registry, and on success the bytes are decoded
/// by the resolved encoding (byte-order-mark aware, malformed sequences
/// replaced).  Resolution succeeds exactly for known labels, and the
/// decoded text is a function of the label and the bytes.
#[verifier::external_body]
fn decode_with_label(label: &Vec<u8>, bytes: &Vec<u8>) -> (r: Option<String>)
    ensures
        r is Some <==> label_known(label@),
        r matches Some(s) ==> s@ == decode_labeled_of(label@, bytes@),
{
    match encoding_rs::Encoding::for_label(label.as_slice()) {
        Some(enc) => {
            let (cow, _, _) = enc.decode(bytes.as_slice());
            Some(cow.to_string())
        },
        None => None,
    }
}

/// Relies on `encoding_rs::UTF_8.decode`: lossy UTF-8 decoding, a function
/// of the bytes alone; an empty input decodes to the empty string.
#[verifier::external_body]
fn decode_utf8(bytes: &Vec<u8>) -> (r: String)
    ensures
        r@ == utf8_decode_of(bytes@),
        bytes@.len() == 0 ==> r@.len() == 0,
{
    let (cow, _, _) = encoding_rs::UTF_8.decode(bytes.as_slice());
    cow.to_string()
}

/// Relies on chardetng's `EncodingDetector` (`new`, `feed`, `guess` in one
/// step, so that no closed detector is ever held by a caller): the whole
/// byte run is fed to a fresh detector as the final input, and the result
/// pairs whether any non-ASCII byte (>= 0x80) was seen — exactly what
/// `feed` returns — with the detector's guess (ISO-2022-JP and UTF-8
/// allowed, as for non-scripted text).  The guess is a heuristic over the
/// bytes; nothing is assumed of it.
#[verifier::external_body]
fn detect_encoding(bytes: &Vec<u8>) -> (r: (bool, &'static encoding_rs::Encoding))
    ensures
        r.0 == !all_ascii(bytes@),
{
    let mut det = chardetng::EncodingDetector::new(chardetng::Iso2022JpDetection::Allow);
    let saw_non_ascii = det.feed(bytes.as_slice(), true);
    let guess = det.guess(None, chardetng::Utf8Detection::Allow);
    (saw_non_ascii, guess)
}

/// Relies on `encoding_rs::UTF_8`: the UTF-8 encoding value.
#[verifier::external_body]
fn utf8_encoding() -> (r: &'static encoding_rs::Encoding) {
    encoding_rs::UTF_8
}

/// Relies on `<encoding_rs::Encoding as PartialEq>::eq`: whether two
/// encoding references name the same encoding.
#[verifier::external_body]
fn encodings_equal(a: &'static encoding_rs::Encoding, b: &'static encoding_rs::Encoding)
    -> (r: bool) {
    a == b
}

/// A UTF-16 byte-order mark opens the byte sequence (little- or
/// big-endian).
pub open spec fn has_utf16_bom(bytes: Seq<u8>) -> bool {
    bytes.len() > 2 && ((bytes[0] == 0xffu8 && bytes[1] == 0xfeu8) || (bytes[0] == 0xfeu8
        && bytes[1] == 0xffu8))
}

/// Decodes bytes with an explicit encoding label, or as UTF-8 when no
/// label is given.  A known label yields exactly its encoding's decoding
/// of the bytes; an unknown label is an error; with no label the result is
/// exactly the lossy UTF-8 decoding.
pub fn decode_bytes_as(bytes: &Vec<u8>, label: Option<&Vec<u8>>) -> (r: DecodeResult)
    ensures
        match label {
            Some(l) => {
                &&& (label_known(l@) ==> (r matches DecodeResult::Decoded(s)
                    && s@ == decode_labeled_of(l@, bytes@)))
                &&& (!label_known(l@) ==> r is Error)
            },
            None => r matches DecodeResult::Decoded(s) && s@ == utf8_decode_of(bytes@),
        },
{
    match label {
        Some(l) => match decode_with_label(l, bytes) {
            Some(s) => DecodeResult::Decoded(s),
            None => DecodeResult::Error("invalid encoding".to_owned()),
        },
        None => DecodeResult::Decoded(decode_utf8(bytes)),
    }
}

/// Decodes bytes with charset detection.  A UTF-16 byte-order mark, or a
/// detector guess other than UTF-8, is reported as strange text; plain
/// ASCII is always normal; a normal result is exactly the lossy UTF-8
/// decoding.
pub fn decode_or_detect_bytes(bytes: &Vec<u8>) -> (r: DetectResult)
    ensures
        has_utf16_bom(bytes@) ==> r is Strange,
        all_ascii(bytes@) ==> r is Normal,
        !(r is Error),
        r matches DetectResult::Normal(s) ==> s@ == utf8_decode_of(bytes@),
{
    // The detector does not recognize UTF-16; sniff the byte-order mark.
    if bytes.len() > 2 {
        let b0: u8 = bytes[0];
        let b1: u8 = bytes[1];
        if (b0 == 0xff && b1 == 0xfe) || (b0 == 0xfe && b1 == 0xff) {
            return DetectResult::Strange(());
        }
    }
    let (saw_non_ascii, guess): (bool, &'static encoding_rs::Encoding) =
        detect_encoding(bytes);
    if saw_non_ascii {
        if !encodings_equal(guess, utf8_encoding()) {
            return DetectResult::Strange(());
        }
    }
    DetectResult::Normal(decode_utf8(bytes))
}

} // verus!
