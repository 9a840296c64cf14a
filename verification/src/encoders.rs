//! The two outside encoders: `fast_qr` for QR symbols and `barcoders` for
//! Code128. Everything here is trusted; the contracts say what the crates'
//! sources show, and name what takes pages to state.
use vstd::prelude::*;

use barcoders::sym::code128::Code128;
use fast_qr::qr::QRCodeError;
use fast_qr::QRBuilder;
use vstd::utf8::encode_utf8;

use crate::qr::{Code128Error, QrError};

verus! {

#[verifier::external_type_specification]
#[verifier::external_body]
pub struct ExQRBuilder(QRBuilder);

#[verifier::external_type_specification]
#[verifier::external_body]
pub struct ExCode128(Code128);

/// The most units a parsed Code128 symbol can have and still have its
/// checksum computed by `barcoders` without overflowing the `i32`
/// accumulator, whatever its characters. The checksum sums each unit's
/// index into the character table, weighted by its position (at least one):
/// the start unit (position 0, weight 1) has an index of at most 105, and
/// every data unit, which is looked up by a character or a digit pair, one
/// of at most 102. So `n` units sum to at most `105 + 102 * n * (n - 1) / 2`,
/// which is 2147132337 for 6489 units and fits an `i32`; 6490 units of the
/// highest data index would not. `barcoders` keeps a symbol's units private,
/// so this bound on their number is the test a caller can make.
pub const MAX_CODE128_UNITS: usize = 6489;

/// The most input bytes that `fast_qr` encodes at its default (quartile)
/// error correction in byte mode, version 40; numeric and alphanumeric
/// inputs fit more.
pub const QR_BYTE_CAPACITY: usize = 1663;

/// The side of the largest QR symbol (version 40), in modules.
pub const QR_MAX_SIDE: usize = 177;

/// A QR symbol as plain values: its side in modules, and the module array
/// that `fast_qr` keeps row-major, one `bool` (dark) per module, sized for
/// the largest symbol.
pub struct QrSymbol {
    pub size: usize,
    pub modules: Vec<bool>,
}

/// What a `QRBuilder` will encode: `Some(input)` when it holds `input` with
/// every setting (version, error correction, mode, mask) left unset.
pub uninterp spec fn qr_builder_request(builder: QRBuilder) -> Option<Seq<u8>>;

/// What `fast_qr` builds from `input` with every setting left at its
/// default: the side and the module array, or `None` when the input does not
/// fit any QR version.
pub uninterp spec fn qr_symbol(input: Seq<u8>) -> Option<(nat, Seq<bool>)>;

/// The units of a `barcoders` Code128 symbol, each as its index into the
/// Code128 character table.
pub uninterp spec fn code128_units(symbol: Code128) -> Seq<nat>;

/// The units `barcoders` parses `payload` into, or `None` when it rejects the
/// payload (a missing start character set, a character the current set
/// cannot represent, an odd digit count in set C, or fewer than two bytes).
pub uninterp spec fn code128_parse(payload: Seq<char>) -> Option<Seq<nat>>;

/// The bars (`1`) and spaces (`0`) that `barcoders` encodes `units` into.
pub uninterp spec fn code128_bars(units: Seq<nat>) -> Seq<u8>;

/// Why `barcoders` rejects a payload it cannot parse: a payload of fewer
/// than two UTF-8 bytes is rejected for its length, any other for a
/// character.
pub open spec fn code128_rejection(payload: Seq<char>) -> Code128Error {
    if encode_utf8(payload).len() < 2 {
        Code128Error::Length
    } else {
        Code128Error::Character
    }
}

/// `fast_qr::QRBuilder::new`: a builder that holds `input` and leaves every
/// setting unset.
#[verifier::external_body]
pub(crate) fn qr_builder_new(input: &[u8]) -> (builder: QRBuilder)
    ensures
        qr_builder_request(builder) == Some(input@),
{
    QRBuilder::new(input)
}

/// `fast_qr::QRBuilder::build`, with the `QRCode` it returns converted to
/// plain values and its error told apart by variant. With default settings
/// the result is the named `qr_symbol` of the input; the only error is then
/// `EncodedData`, which no input of at most 1663 bytes meets (every
/// encoding mode fits that many at version 40, quartile). A symbol's side is
/// `4 * v + 21` for a version index `v` in `0..40`, and its module array
/// always holds 177 * 177 entries.
#[verifier::external_body]
pub(crate) fn qr_builder_build(builder: &QRBuilder) -> (r: Result<QrSymbol, QrError>)
    ensures
        qr_builder_request(*builder) matches Some(input) ==> match r {
            Ok(symbol) => qr_symbol(input) == Some((symbol.size as nat, symbol.modules@)),
            Err(error) => qr_symbol(input) is None && error == QrError::EncodedData,
        },
        qr_builder_request(*builder) matches Some(input) ==> (input.len() <= QR_BYTE_CAPACITY
            ==> r is Ok),
        r matches Ok(symbol) ==> 21 <= symbol.size <= QR_MAX_SIDE && symbol.size % 4 == 1
            && symbol.modules@.len() == QR_MAX_SIDE * QR_MAX_SIDE,
{
    match builder.build() {
        Ok(qr) => Ok(QrSymbol { size: qr.size, modules: qr.data.iter().map(|m| m.value()).collect() }),
        Err(QRCodeError::EncodedData) => Err(QrError::EncodedData),
        Err(QRCodeError::SpecifiedVersion) => Err(QrError::SpecifiedVersion),
    }
}

/// `barcoders::sym::code128::Code128::new`: parses `payload` into units,
/// at most one unit per character, with its error told apart by variant: a
/// payload under two bytes fails for its length, every other rejection is a
/// character error.
#[verifier::external_body]
pub(crate) fn code128_new(payload: &str) -> (r: Result<Code128, Code128Error>)
    ensures
        match r {
            Ok(symbol) => code128_parse(payload@) == Some(code128_units(symbol)),
            Err(error) => code128_parse(payload@) is None && error == code128_rejection(payload@),
        },
        r matches Ok(symbol) ==> code128_units(symbol).len() <= payload@.len(),
{
    match Code128::new(payload) {
        Ok(symbol) => Ok(symbol),
        Err(barcoders::error::Error::Character) => Err(Code128Error::Character),
        Err(barcoders::error::Error::Length) => Err(Code128Error::Length),
        Err(barcoders::error::Error::Generate) => Err(Code128Error::Generate),
        Err(barcoders::error::Error::Checksum) => Err(Code128Error::Checksum),
    }
}

/// `barcoders::sym::code128::Code128::encode`: the bars of the units,
/// followed by the checksum, stop and termination bars; eleven modules per
/// unit plus twenty-four.
#[verifier::external_body]
pub(crate) fn code128_encode(symbol: &Code128) -> (bars: Vec<u8>)
    requires
        code128_units(*symbol).len() <= MAX_CODE128_UNITS,
    ensures
        bars@ == code128_bars(code128_units(*symbol)),
        bars@.len() == 11 * code128_units(*symbol).len() + 24,
{
    symbol.encode()
}

} // verus!
