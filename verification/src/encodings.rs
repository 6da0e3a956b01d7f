//! Trusted wrappers around the `encoding` crate: WHATWG label lookup and
//! text decoding/encoding with the replacement trap. The transforms are
//! functions of the label and the input alone, so their results are named
//! rather than written out.

use vstd::prelude::*;

verus! {

/// What `encoding_from_whatwg_label` resolves a label to: the canonical
/// name of the encoding, or nothing when the label is unknown.
pub uninterp spec fn whatwg_encoding(label: Seq<char>) -> Option<Seq<char>>;

/// The text that the labelled encoding's decoder, with the replacement
/// trap, yields for the given bytes.
pub uninterp spec fn decoded_text(label: Seq<char>, data: Seq<u8>) -> Seq<char>;

/// The bytes that the labelled encoding's encoder, with the replacement
/// trap, yields for the given text; nothing when even the replacement
/// character cannot be represented.
pub uninterp spec fn encoded_bytes(label: Seq<char>, text: Seq<char>) -> Option<Seq<u8>>;

/// Relies on `encoding::label::encoding_from_whatwg_label` and
/// `Encoding::name`: resolves a label and hands back the canonical name.
#[verifier::external_body]
pub(crate) fn lookup_encoding(label: &str) -> (r: Option<String>)
    ensures
        match whatwg_encoding(label@) {
            Some(nm) => r is Some && r->0@ == nm,
            None => r is None,
        },
{
    encoding::label::encoding_from_whatwg_label(label).map(|e| e.name().to_string())
}

/// Relies on `encoding_from_whatwg_label` and `Encoding::decode` with
/// `DecoderTrap::Replace`: invalid sequences become U+FFFD and decoding
/// always succeeds; the result depends on the label and the bytes alone.
#[verifier::external_body]
pub(crate) fn decode_bytes(label: &str, data: &Vec<u8>) -> (r: String)
    requires
        whatwg_encoding(label@) is Some,
    ensures
        r@ == decoded_text(label@, data@),
{
    match encoding::label::encoding_from_whatwg_label(label) {
        Some(enc) => match enc.decode(data, encoding::DecoderTrap::Replace) {
            Ok(s) => s,
            Err(_) => String::new(),
        },
        None => String::new(),
    }
}

/// Relies on `encoding_from_whatwg_label` and `Encoding::encode` with
/// `EncoderTrap::Replace`: unencodable characters become `?`, and encoding
/// fails only when that replacement itself cannot be represented; the
/// result depends on the label and the text alone.
#[verifier::external_body]
pub(crate) fn encode_str(label: &str, text: &str) -> (r: Option<Vec<u8>>)
    requires
        whatwg_encoding(label@) is Some,
    ensures
        match encoded_bytes(label@, text@) {
            Some(bs) => r is Some && r->0@ == bs,
            None => r is None,
        },
{
    match encoding::label::encoding_from_whatwg_label(label) {
        Some(enc) => enc.encode(text, encoding::EncoderTrap::Replace).ok(),
        None => None,
    }
}

} // verus!
