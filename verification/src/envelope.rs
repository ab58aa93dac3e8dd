//! The wire envelope: the serialised messages as UTF-8 text, either as they
//! are or compressed with gzip. A reader tells the two apart by the first
//! two bytes alone.

use vstd::prelude::*;
use vstd::string::*;
use vstd::utf8::{decode_utf8, encode_utf8, valid_utf8};
use crate::fetch::exporter::{gauge_of, Gauges};

verus! {

/// Why an envelope was not written or not read.
#[derive(Clone, Copy, Debug, PartialEq, Eq, Structural)]
pub enum EnvelopeError {
    /// The envelope has fewer than two bytes.
    ShortPayload,
    /// The bytes are neither a gzip stream of text nor UTF-8 text.
    DecodeError,
    /// The text could not be compressed.
    EncodeError,
}

/// What gzip compression at the best level makes of the UTF-8 bytes of
/// `text`; `None` where the encoder reports an error.
pub uninterp spec fn gzip_of(text: Seq<char>) -> Option<Seq<u8>>;

/// The text that the first gzip member of `raw` holds; `None` where `raw`
/// does not start with a gzip member or the member does not hold UTF-8 text.
pub uninterp spec fn gunzip_text(raw: Seq<u8>) -> Option<Seq<char>>;

/// The error of `String::from_utf8`, of which nothing is read.
#[verifier::external_type_specification]
#[verifier::external_body]
pub struct ExFromUtf8Error(std::string::FromUtf8Error);

/// Turns bytes into a string (`String::from_utf8`): succeeds exactly on
/// valid UTF-8, and the string then holds the characters that the bytes encode.
pub assume_specification[ String::from_utf8 ](vec: Vec<u8>) -> (r: Result<
    String,
    std::string::FromUtf8Error,
>)
    ensures
        r is Ok <==> valid_utf8(vec@),
        r matches Ok(s) ==> s@ == decode_utf8(vec@),
;

/// Compresses the bytes of `s` into one gzip member, at the best level and
/// with the default header (flate2's `read::GzEncoder`, read to its end).
/// The outcome depends on `s` alone: the header carries no time and no
/// trace of the machine, and the bytes are read from memory. Whether the
/// encoder reports an error is left to it. What it writes starts with the
/// two magic bytes, and flate2's decoder reads the member back to `s`.
#[verifier::external_body]
pub(crate) fn compress_data(s: &str) -> (r: Option<Vec<u8>>)
    ensures
        r is Some <==> gzip_of(s@) is Some,
        r matches Some(v) ==> {
            &&& gzip_of(s@) == Some(v@)
            &&& v@.len() >= 2
            &&& v@[0] == 0x1f
            &&& v@[1] == 0x8b
            &&& gunzip_text(v@) == Some(s@)
        },
{
    let mut gzencoded = flate2::read::GzEncoder::new(s.as_bytes(), flate2::Compression::best());
    let mut compressed = Vec::<u8>::new();
    match std::io::Read::read_to_end(&mut gzencoded, &mut compressed) {
        Ok(_) => Some(compressed),
        Err(_) => None,
    }
}

/// Decompresses the first gzip member of `raw` into a string (flate2's
/// `bufread::GzDecoder`, read to a string). The outcome depends on the
/// bytes alone.
#[verifier::external_body]
pub(crate) fn decompress_text(raw: &Vec<u8>) -> (r: Option<String>)
    ensures
        r matches Some(s) ==> gunzip_text(raw@) == Some(s@),
        r is None ==> gunzip_text(raw@) is None,
{
    let mut gzd = flate2::bufread::GzDecoder::new(&raw[..]);
    let mut decompressed = String::new();
    match std::io::Read::read_to_string(&mut gzd, &mut decompressed) {
        Ok(_) => Some(decompressed),
        Err(_) => None,
    }
}

/// Whether the bytes start with the magic number of gzip.
pub open spec fn has_gzip_magic(raw: Seq<u8>) -> bool {
    raw.len() >= 2 && raw[0] == 0x1f && raw[1] == 0x8b
}

/// How the bytes of an envelope are to be read.
#[derive(Clone, Copy, Debug, PartialEq, Eq, Structural)]
pub enum Framing {
    /// Fewer than two bytes: not an envelope.
    Short,
    /// The bytes are a gzip stream.
    Gzip,
    /// The bytes are the text itself.
    Plain,
}

/// The framing of an envelope, told by its first two bytes alone.
pub open spec fn framing_of(raw: Seq<u8>) -> Framing {
    if raw.len() < 2 {
        Framing::Short
    } else if has_gzip_magic(raw) {
        Framing::Gzip
    } else {
        Framing::Plain
    }
}

/// The text that an envelope holds. An envelope of fewer than two bytes is
/// too short. One that starts with the magic number of gzip holds what its
/// gzip member decompresses to. Any other holds its own bytes, read as UTF-8.
pub open spec fn envelope_text(raw: Seq<u8>) -> Result<Seq<char>, EnvelopeError> {
    match framing_of(raw) {
        Framing::Short => Err(EnvelopeError::ShortPayload),
        Framing::Gzip => match gunzip_text(raw) {
            Some(text) => Ok(text),
            None => Err(EnvelopeError::DecodeError),
        },
        Framing::Plain => if valid_utf8(raw) {
            Ok(decode_utf8(raw))
        } else {
            Err(EnvelopeError::DecodeError)
        },
    }
}

/// Tells how an envelope is framed.
pub fn framing(raw: &Vec<u8>) -> (f: Framing)
    ensures
        f == framing_of(raw@),
{
    if raw.len() < 2 {
        Framing::Short
    } else if raw[0] == 0x1f && raw[1] == 0x8b {
        Framing::Gzip
    } else {
        Framing::Plain
    }
}

/// UTF-8 text never starts with the magic number of gzip.
pub proof fn lemma_text_has_no_gzip_magic(bytes: Seq<u8>)
    requires
        valid_utf8(bytes),
    ensures
        !has_gzip_magic(bytes),
{
    reveal_with_fuel(valid_utf8, 2);
    if has_gzip_magic(bytes) {
        let rest = vstd::utf8::pop_first_scalar(bytes);
        assert(rest[0] == bytes[1]);
        assert(vstd::utf8::valid_first_scalar(rest));
    }
}

/// Reads an envelope: the text of the serialised messages.
pub fn parse_raw_metrics(raw: Vec<u8>) -> (r: Result<String, EnvelopeError>)
    ensures
        match r {
            Ok(text) => envelope_text(raw@) == Ok::<Seq<char>, EnvelopeError>(text@),
            Err(e) => envelope_text(raw@) == Err::<Seq<char>, EnvelopeError>(e),
        },
{
    match framing(&raw) {
        Framing::Short => Err(EnvelopeError::ShortPayload),
        Framing::Gzip => match decompress_text(&raw) {
            Some(text) => Ok(text),
            None => Err(EnvelopeError::DecodeError),
        },
        Framing::Plain => match String::from_utf8(raw) {
            Ok(text) => Ok(text),
            Err(_) => Err(EnvelopeError::DecodeError),
        },
    }
}

/// The bytes of an envelope that holds `text`: the text itself, or what
/// gzip makes of it. `None` where the text is to be compressed and the
/// encoder reports an error.
pub open spec fn envelope_of(text: Seq<char>, compress: bool) -> Option<Seq<u8>> {
    if compress {
        gzip_of(text)
    } else {
        Some(encode_utf8(text))
    }
}

/// Writes an envelope for the text of the serialised messages, compressed
/// on request, and records the sizes.
///
/// Without compression the envelope is the text itself, and writing it
/// always succeeds. With compression it is the gzip member of the text, and
/// writing it fails only where the encoder does. A compressed envelope
/// starts with the magic number of gzip. What is written reads back to the
/// same text: with compression always, without it where the text has at
/// least two bytes. The size of the text is recorded in any case, the
/// envelope only where one is written.
pub fn build_mqtt_message(payload_str: &str, compress: bool, gauges: &mut Gauges) -> (r: Result<
    Vec<u8>,
    EnvelopeError,
>)
    ensures
        r is Ok <==> (!compress || gzip_of(payload_str@) is Some),
        r matches Err(e) ==> {
            &&& e == EnvelopeError::EncodeError
            &&& *final(gauges) == (Gauges {
                size: gauge_of(encode_utf8(payload_str@).len() as usize),
                ..*old(gauges)
            })
        },
        r matches Ok(payload) ==> {
            &&& envelope_of(payload_str@, compress) == Some(payload@)
            &&& compress ==> has_gzip_magic(payload@)
            &&& compress || payload@.len() >= 2 ==> envelope_text(payload@) == Ok::<
                Seq<char>,
                EnvelopeError,
            >(payload_str@)
            &&& *final(gauges) == (Gauges {
                size: gauge_of(encode_utf8(payload_str@).len() as usize),
                compression: if compress {
                    1i64
                } else {
                    0i64
                },
                compressed_size: gauge_of(payload.len()),
                ..*old(gauges)
            })
        },
{
    gauges.batch_serialised(payload_str.len());
    if compress {
        match compress_data(payload_str) {
            Some(payload) => {
                gauges.envelope_built(payload.len(), true);
                Ok(payload)
            },
            None => Err(EnvelopeError::EncodeError),
        }
    } else {
        let payload = payload_str.as_bytes_vec();
        proof {
            vstd::utf8::encode_utf8_valid_utf8(payload_str@);
            vstd::utf8::encode_utf8_decode_utf8(payload_str@);
            lemma_text_has_no_gzip_magic(payload@);
        }
        gauges.envelope_built(payload.len(), false);
        Ok(payload)
    }
}

} // verus!
