use vstd::prelude::*;
use vstd::utf8::{decode_utf8, valid_utf8};
use base64::Engine;
use crate::message::OcrSub;

verus! {

#[verifier::external_type_specification]
#[verifier::external_body]
pub struct ExDecodeError(base64::DecodeError);

#[verifier::external_type_specification]
#[verifier::external_body]
pub struct ExFromUtf8Error(std::string::FromUtf8Error);

/// The bytes that base64's standard engine (standard alphabet, canonical
/// padding) decodes from `text`, or `None` where it refuses the text.
pub uninterp spec fn base64_standard_decode(text: Seq<char>) -> Option<Seq<u8>>;

/// Calls `base64::engine::general_purpose::STANDARD.decode` on the text's
/// bytes. The result is named by `base64_standard_decode`; which texts are
/// refused is left to that name.
#[verifier::external_body]
fn decode_base64_standard(text: &String) -> (r: Result<Vec<u8>, base64::DecodeError>)
    ensures
        match r {
            Ok(bytes) => base64_standard_decode(text@) == Some(bytes@),
            Err(_) => base64_standard_decode(text@) is None,
        },
{
    base64::engine::general_purpose::STANDARD.decode(text)
}

/// Calls `String::from_utf8`: the bytes are accepted exactly when they are
/// valid UTF-8, and the string holds the characters they encode.
#[verifier::external_body]
fn string_from_utf8(bytes: Vec<u8>) -> (r: Result<String, std::string::FromUtf8Error>)
    ensures
        match r {
            Ok(text) => valid_utf8(bytes@) && text@ == decode_utf8(bytes@),
            Err(_) => !valid_utf8(bytes@),
        },
{
    String::from_utf8(bytes)
}

/// Why a recognition step failed.
#[derive(Debug, Clone, Copy, PartialEq, Eq, Structural)]
pub enum OcrError {
    /// The request's image is not valid standard base64.
    InvalidImage,
    /// The recogniser's output is not valid UTF-8.
    InvalidOutput,
}

/// The raw image bytes of a recognition request, decoded from its base64
/// text.
pub fn decode_ocr_image(request: &OcrSub) -> (r: Result<Vec<u8>, OcrError>)
    ensures
        match r {
            Ok(bytes) => base64_standard_decode(request.img@) == Some(bytes@),
            Err(e) => e == OcrError::InvalidImage && base64_standard_decode(request.img@) is None,
        },
{
    match decode_base64_standard(&request.img) {
        Ok(bytes) => Ok(bytes),
        Err(_) => Err(OcrError::InvalidImage),
    }
}

/// The plate text that the recogniser printed: its whole output, as UTF-8.
pub fn ocr_plate_text(output: Vec<u8>) -> (r: Result<String, OcrError>)
    ensures
        match r {
            Ok(text) => valid_utf8(output@) && text@ == decode_utf8(output@),
            Err(e) => e == OcrError::InvalidOutput && !valid_utf8(output@),
        },
{
    match string_from_utf8(output) {
        Ok(text) => Ok(text),
        Err(_) => Err(OcrError::InvalidOutput),
    }
}

} // verus!
