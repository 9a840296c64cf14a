//! Barcode matrices and the sources that encode them.
use vstd::prelude::*;

use vstd::utf8::encode_utf8;

use crate::bits::{ceil_div32, lemma_packs_read, module_bit, pack_bits, packs};
use crate::encoders::{
    code128_bars, code128_encode, code128_new, code128_parse, code128_rejection, qr_builder_build,
    qr_builder_new, qr_symbol, MAX_CODE128_UNITS, QR_BYTE_CAPACITY, QR_MAX_SIDE,
};

verus! {

/// Why `fast_qr` could not build a QR code, one variant per variant of its
/// `QRCodeError`.
#[derive(Debug, Clone, Copy, PartialEq, Eq, Structural)]
pub enum QrError {
    /// The data is too large for any version at the error correction level.
    EncodedData,
    /// A requested version is too small for the data.
    SpecifiedVersion,
}

/// Why `barcoders` could not encode a Code128 symbol, one variant per
/// variant of its `Error`.
#[derive(Debug, Clone, Copy, PartialEq, Eq, Structural)]
pub enum Code128Error {
    /// A character the current character set cannot represent.
    Character,
    /// A payload of invalid length.
    Length,
    /// Barcode generation failed.
    Generate,
    /// An invalid checksum.
    Checksum,
}

/// An error produced when barcode content cannot be encoded.
#[derive(Debug, Clone, Copy, PartialEq, Eq, Structural)]
pub enum BarcodeError {
    /// The payload does not fit into any QR version at the default error
    /// correction level.
    Qr(QrError),
    /// The payload contains characters Code128 cannot represent, or is too
    /// short to encode.
    Code128(Code128Error),
}

/// Supported barcode symbologies.
#[derive(Debug, Clone, Copy, PartialEq, Eq, Structural)]
#[non_exhaustive]
pub enum BarcodeSymbology {
    /// 2D QR code matrix.
    Qr,
    /// 1D Code128 barcode.
    Code128,
}

/// Barcode module data, one bit per module.
#[derive(Debug)]
pub struct BarcodeMatrix {
    /// Matrix width in modules.
    pub width: u32,
    /// Matrix height in modules: the row count of two-dimensional
    /// symbologies, one for linear ones.
    pub height: u32,
    /// Packed modules, 32 per word: bit `i % 32` of word `i / 32` is the
    /// module at linear index `i = y * width + x`; set means dark.
    pub packed_data: Vec<u32>,
}

impl BarcodeMatrix {
    /// The number of modules.
    pub open spec fn module_count(&self) -> nat {
        (self.width * self.height) as nat
    }

    /// Whether the module at `(x, y)` is dark.
    pub open spec fn spec_is_dark(&self, x: nat, y: nat) -> bool {
        module_bit(self.packed_data@, (y * self.width + x) as nat)
    }

    /// The packed words hold exactly one bit per module.
    pub open spec fn wf(&self) -> bool {
        &&& self.module_count() <= u32::MAX
        &&& self.packed_data@.len() == ceil_div32(self.module_count())
    }

    /// The matrix is `width` x `height` modules and packs `bits`, one per
    /// module in row-major order.
    pub open spec fn holds(&self, width: nat, height: nat, bits: Seq<bool>) -> bool {
        &&& self.width == width
        &&& self.height == height
        &&& bits.len() == width * height
        &&& packs(self.packed_data@, bits)
    }

    /// Returns whether the module at `(x, y)` is dark.
    pub fn is_dark(&self, x: u32, y: u32) -> (dark: bool)
        requires
            x < self.width,
            y < self.height,
            y * self.width + x <= u32::MAX,
            (y * self.width + x) / 32 < self.packed_data@.len(),
        ensures
            dark == self.spec_is_dark(x as nat, y as nat),
            dark == ((self.packed_data@[((y * self.width + x) / 32) as int] >> ((y * self.width + x)
                % 32) as u32) & 1u32 == 1u32),
    {
        let index: usize = (y * self.width + x) as usize;
        let shift: u32 = (index % 32) as u32;
        (self.packed_data[index / 32] >> shift) & 1u32 == 1u32
    }

    /// The matrix of a QR symbol of side `size` whose module array
    /// (row-major, possibly longer than `size * size`) is `modules`.
    pub fn from_qr_symbol(size: usize, modules: &Vec<bool>) -> (matrix: BarcodeMatrix)
        requires
            size * size <= u32::MAX,
        ensures
            matrix.holds(size as nat, size as nat, qr_bits(size as nat, modules@)),
            matrix.wf(),
            matrix.width == size && matrix.height == size,
            forall|x: nat, y: nat|
                x < size && y < size ==> #[trigger] matrix.spec_is_dark(x, y) == (y * size + x
                    < modules@.len() && modules@[(y * size + x) as int]),
    {
        proof {
            assert(size <= u32::MAX) by (nonlinear_arith)
                requires
                    size * size <= u32::MAX,
            ;
        }
        let dimension: u32 = size as u32;
        let total: usize = (dimension * dimension) as usize;
        let mut bits: Vec<bool> = Vec::new();
        let mut i: usize = 0;
        while i < total
            invariant
                total == size * size,
                i <= total,
                bits@ == qr_bits(size as nat, modules@).take(i as int),
            decreases total - i,
        {
            bits.push(i < modules.len() && modules[i]);
            i = i + 1;
        }
        assert(bits@ == qr_bits(size as nat, modules@));
        let packed_data = pack_bits(&bits);
        let matrix = BarcodeMatrix { width: dimension, height: dimension, packed_data };
        assert forall|x: nat, y: nat| x < size && y < size implies #[trigger] matrix.spec_is_dark(
            x,
            y,
        ) == (y * size + x < modules@.len() && modules@[(y * size + x) as int]) by {
            lemma_matrix_reads_back(
                matrix,
                size as nat,
                size as nat,
                qr_bits(size as nat, modules@),
                x,
                y,
            );
        }
        matrix
    }

    /// The one-row matrix of Code128 bars: module `i` is dark iff
    /// `bars[i] == 1`.
    pub fn from_code128_bars(bars: &Vec<u8>) -> (matrix: BarcodeMatrix)
        requires
            bars.len() <= u32::MAX,
        ensures
            matrix.holds(bars@.len(), 1, code128_bits(bars@)),
            matrix.wf(),
            matrix.width == bars@.len() && matrix.height == 1,
            forall|x: nat|
                x < bars@.len() ==> #[trigger] matrix.spec_is_dark(x, 0) == (bars@[x as int] == 1u8),
    {
        let n: usize = bars.len();
        let mut bits: Vec<bool> = Vec::new();
        let mut i: usize = 0;
        while i < n
            invariant
                n == bars.len(),
                i <= n,
                bits@ == code128_bits(bars@).take(i as int),
            decreases n - i,
        {
            bits.push(bars[i] == 1u8);
            i = i + 1;
        }
        assert(bits@ == code128_bits(bars@));
        let packed_data = pack_bits(&bits);
        let matrix = BarcodeMatrix { width: n as u32, height: 1, packed_data };
        assert forall|x: nat| x < n implies #[trigger] matrix.spec_is_dark(x, 0) == (bars@[x as int]
            == 1u8) by {
            lemma_matrix_reads_back(matrix, n as nat, 1, code128_bits(bars@), x, 0);
        }
        matrix
    }
}

impl Clone for BarcodeMatrix {
    fn clone(&self) -> (copy: Self)
        ensures
            copy.width == self.width,
            copy.height == self.height,
            copy.packed_data@ == self.packed_data@,
    {
        let packed_data = self.packed_data.clone();
        assert(packed_data@ =~= self.packed_data@);
        BarcodeMatrix { width: self.width, height: self.height, packed_data }
    }
}

/// The modules of a QR symbol of side `size`: module `i` is dark iff the
/// module array has an entry `i` and it is dark.
pub open spec fn qr_bits(size: nat, modules: Seq<bool>) -> Seq<bool> {
    Seq::new(size * size, |i: int| i < modules.len() && modules[i])
}

/// The modules of Code128 bars: module `i` is dark iff `bars[i] == 1`.
pub open spec fn code128_bits(bars: Seq<u8>) -> Seq<bool> {
    Seq::new(bars.len(), |i: int| bars[i] == 1u8)
}

/// Whether `c` is one of the `barcoders` start markers for Code128
/// character sets A (`U+00C0`), B (`U+0181`) and C (`U+0106`).
pub open spec fn is_charset_marker(c: char) -> bool {
    c == '\u{c0}' || c == '\u{181}' || c == '\u{106}'
}

/// The payload handed to the Code128 encoder: `content` itself when it
/// starts with a character-set marker, else `content` behind the marker
/// for character set B.
pub open spec fn code128_payload_of(content: Seq<char>) -> Seq<char> {
    if content.len() > 0 && is_charset_marker(content[0]) {
        content
    } else {
        seq!['\u{181}'] + content
    }
}

/// Computes the Code128 encoder payload for `content`.
pub fn code128_payload(content: &str) -> (payload: String)
    ensures
        payload@ == code128_payload_of(content@),
        content@.len() == 0 || (content@[0] != '\u{c0}' && content@[0] != '\u{181}' && content@[0]
            != '\u{106}') ==> payload@.len() == content@.len() + 1 && payload@[0] == '\u{181}'
            && payload@.subrange(1, payload@.len() as int) == content@,
        content@.len() > 0 && (content@[0] == '\u{c0}' || content@[0] == '\u{181}' || content@[0]
            == '\u{106}') ==> payload@ == content@,
{
    if !content.is_empty() {
        let first = content.get_char(0);
        if first == '\u{c0}' || first == '\u{181}' || first == '\u{106}' {
            return String::from_str(content);
        }
    }
    let marker = String::from_str("\u{181}");
    proof {
        reveal_strlit("\u{181}");
    }
    marker.concat(content)
}

/// Quiet-zone width in modules.
pub open spec fn quiet_zone_of(symbology: BarcodeSymbology) -> u32 {
    match symbology {
        BarcodeSymbology::Qr => 4,
        BarcodeSymbology::Code128 => 10,
    }
}

/// Quiet-zone height in modules: linear symbologies have none above or
/// below their bars.
pub open spec fn vertical_quiet_zone_of(symbology: BarcodeSymbology) -> u32 {
    match symbology {
        BarcodeSymbology::Qr => quiet_zone_of(symbology),
        BarcodeSymbology::Code128 => 0,
    }
}

/// What encoding `content` for `symbology` gives: the matrix width, height
/// and modules, or `None` when the encoder rejects the content.
pub open spec fn encoding_of(symbology: BarcodeSymbology, content: Seq<char>) -> Option<
    (nat, nat, Seq<bool>),
> {
    match symbology {
        BarcodeSymbology::Qr => match qr_symbol(encode_utf8(content)) {
            Some((size, modules)) => Some((size, size, qr_bits(size, modules))),
            None => None,
        },
        BarcodeSymbology::Code128 => match code128_parse(code128_payload_of(content)) {
            Some(units) => {
                let bars = code128_bars(units);
                Some((bars.len(), 1, code128_bits(bars)))
            },
            None => None,
        },
    }
}

/// The longest content, in characters, that a Code128 source encodes
/// whatever its characters: with the set-B marker in front it stays within
/// the units whose checksum the encoder computes without overflow.
pub const MAX_CODE128_CHARS: usize = 6488;

/// The output extent a new source starts with, in units.
pub const DEFAULT_SIZE: u32 = 256;

/// A barcode data source.
///
/// Encodes module data once during construction; placement and
/// rasterization happen when the barcode is drawn.
#[derive(Debug)]
pub struct BarcodeSource {
    symbology: BarcodeSymbology,
    matrix: BarcodeMatrix,
    size: u32,
}

impl BarcodeSource {
    /// The matrix is well formed and its module grid, quiet zone included,
    /// fits in `u32` on both axes.
    #[verifier::type_invariant]
    spec fn inv(self) -> bool {
        &&& self.matrix.wf()
        &&& self.matrix.width + 2 * quiet_zone_of(self.symbology) <= u32::MAX
        &&& self.matrix.height + 2 * vertical_quiet_zone_of(self.symbology) <= u32::MAX
        &&& self.symbology == BarcodeSymbology::Qr ==> self.matrix.width == self.matrix.height
        &&& self.symbology == BarcodeSymbology::Code128 ==> self.matrix.height == 1
    }

    /// The symbology the source encodes.
    pub closed spec fn spec_symbology(&self) -> BarcodeSymbology {
        self.symbology
    }

    /// The encoded module matrix.
    pub closed spec fn spec_matrix(&self) -> BarcodeMatrix {
        self.matrix
    }

    /// The configured output extent, in units.
    pub closed spec fn spec_size(&self) -> u32 {
        self.size
    }

    /// The width and height of the module grid, quiet zone included.
    pub open spec fn spec_module_grid(&self) -> (int, int) {
        (
            self.spec_matrix().width + 2 * quiet_zone_of(self.spec_symbology()),
            self.spec_matrix().height + 2 * vertical_quiet_zone_of(self.spec_symbology()),
        )
    }

    /// The size this barcode is, in units: the configured extent floored at
    /// one unit per module of the grid; a QR code is square, a Code128
    /// symbol is the configured extent tall.
    pub open spec fn spec_output_size(&self) -> (int, int) {
        let extent: int = self.spec_module_grid().0;
        let size: int = self.spec_size() as int;
        let width: int = if size >= extent {
            size
        } else {
            extent
        };
        match self.spec_symbology() {
            BarcodeSymbology::Qr => (width, width),
            BarcodeSymbology::Code128 => (width, size),
        }
    }

    /// Creates a new QR code from content.
    pub fn qr(content: &str) -> (r: Result<Self, BarcodeError>)
        ensures
            Self::encoded(BarcodeSymbology::Qr, content@, r),
    {
        Self::new(BarcodeSymbology::Qr, content)
    }

    /// Creates a new Code128 barcode from content.
    pub fn code128(content: &str) -> (r: Result<Self, BarcodeError>)
        requires
            content@.len() <= MAX_CODE128_CHARS,
        ensures
            Self::encoded(BarcodeSymbology::Code128, content@, r),
    {
        Self::new(BarcodeSymbology::Code128, content)
    }

    /// `r` is what encoding `content` for `symbology` returns: a source of
    /// that symbology with the default extent and the encoded matrix, or,
    /// exactly when the encoder rejects the content, the encoder's error.
    /// A QR side is `4 * v + 21` modules for a version index `v` in `0..40`,
    /// and content of at most 1663 bytes always fits; a Code128 symbol is
    /// eleven modules per unit plus twenty-four, at most one unit per
    /// payload character.
    pub open spec fn encoded(
        symbology: BarcodeSymbology,
        content: Seq<char>,
        r: Result<Self, BarcodeError>,
    ) -> bool {
        &&& match r {
            Ok(source) => encoding_of(symbology, content) matches Some((width, height, bits))
                && source.spec_symbology() == symbology && source.spec_size() == DEFAULT_SIZE
                && source.spec_size() == 256
                && source.spec_matrix().holds(width, height, bits) && source.spec_matrix().wf(),
            Err(error) => encoding_of(symbology, content) is None && match symbology {
                BarcodeSymbology::Qr => error == BarcodeError::Qr(QrError::EncodedData),
                BarcodeSymbology::Code128 => error == BarcodeError::Code128(
                    code128_rejection(code128_payload_of(content)),
                ),
            },
        }
        &&& r matches Ok(source) ==> match symbology {
            BarcodeSymbology::Qr => qr_symbol(encode_utf8(content)) matches Some((size, modules))
                && source.spec_matrix().width == size && source.spec_matrix().height == size && 21
                <= size <= QR_MAX_SIDE && size % 4 == 1,
            BarcodeSymbology::Code128 => code128_parse(code128_payload_of(content)) matches Some(
                units,
            ) && source.spec_matrix().width == code128_bars(units).len()
                && source.spec_matrix().width == 11 * units.len() + 24
                && source.spec_matrix().height == 1 && units.len() <= code128_payload_of(
                content,
            ).len(),
        }
        &&& symbology == BarcodeSymbology::Qr && encode_utf8(content).len() <= QR_BYTE_CAPACITY
            ==> r is Ok
    }

    /// Encodes `content` for `symbology`.
    pub fn new(symbology: BarcodeSymbology, content: &str) -> (r: Result<Self, BarcodeError>)
        requires
            symbology == BarcodeSymbology::Code128 ==> content@.len() <= MAX_CODE128_CHARS,
        ensures
            Self::encoded(symbology, content@, r),
    {
        let matrix = match symbology {
            BarcodeSymbology::Qr => match Self::generate_qr_matrix(content) {
                Ok(matrix) => matrix,
                Err(error) => return Err(error),
            },
            BarcodeSymbology::Code128 => match Self::generate_code128_matrix(content) {
                Ok(matrix) => matrix,
                Err(error) => return Err(error),
            },
        };
        Ok(BarcodeSource { symbology, matrix, size: DEFAULT_SIZE })
    }

    /// Encodes `content` as a QR symbol with `fast_qr` and packs its
    /// modules.
    pub fn generate_qr_matrix(content: &str) -> (r: Result<BarcodeMatrix, BarcodeError>)
        ensures
            match r {
                Ok(matrix) => encoding_of(BarcodeSymbology::Qr, content@) matches Some(
                    (width, height, bits),
                ) && matrix.holds(width, height, bits) && matrix.wf(),
                Err(error) => encoding_of(BarcodeSymbology::Qr, content@) is None && error
                    == BarcodeError::Qr(QrError::EncodedData),
            },
            r matches Ok(matrix) ==> (qr_symbol(encode_utf8(content@)) matches Some((size, modules))
                && matrix.width == size && matrix.height == size && 21 <= size <= QR_MAX_SIDE && size
                % 4 == 1),
            encode_utf8(content@).len() <= QR_BYTE_CAPACITY ==> r is Ok,
    {
        let builder = qr_builder_new(content.as_bytes());
        match qr_builder_build(&builder) {
            Ok(symbol) => {
                proof {
                    assert(symbol.size * symbol.size <= 177 * 177) by (nonlinear_arith)
                        requires
                            symbol.size <= 177,
                    ;
                }
                Ok(BarcodeMatrix::from_qr_symbol(symbol.size, &symbol.modules))
            },
            Err(error) => Err(BarcodeError::Qr(error)),
        }
    }

    /// Encodes `content` as a Code128 symbol with `barcoders`, starting in
    /// character set B unless a set marker leads, and packs its bars.
    pub fn generate_code128_matrix(content: &str) -> (r: Result<BarcodeMatrix, BarcodeError>)
        requires
            content@.len() <= MAX_CODE128_CHARS,
        ensures
            match r {
                Ok(matrix) => encoding_of(BarcodeSymbology::Code128, content@) matches Some(
                    (width, height, bits),
                ) && matrix.holds(width, height, bits) && matrix.wf(),
                Err(error) => encoding_of(BarcodeSymbology::Code128, content@) is None && error
                    == BarcodeError::Code128(code128_rejection(code128_payload_of(content@))),
            },
            r matches Ok(matrix) ==> (code128_parse(code128_payload_of(content@)) matches Some(units)
                && matrix.width == code128_bars(units).len() && matrix.width == 11 * units.len() + 24
                && matrix.height == 1 && units.len() <= code128_payload_of(content@).len()),
    {
        let payload = code128_payload(content);
        match code128_new(payload.as_str()) {
            Ok(symbol) => {
                let bars = code128_encode(&symbol);
                Ok(BarcodeMatrix::from_code128_bars(&bars))
            },
            Err(error) => Err(BarcodeError::Code128(error)),
        }
    }

    /// Sets the output extent, in units.
    pub fn set_size(&mut self, size: u32)
        ensures
            final(self).spec_size() == size,
            final(self).spec_symbology() == old(self).spec_symbology(),
            final(self).spec_matrix() == old(self).spec_matrix(),
    {
        proof {
            use_type_invariant(&*self);
        }
        self.size = size;
    }

    /// Returns the output extent set by [`Self::set_size`].
    pub fn size(&self) -> (size: u32)
        ensures
            size == self.spec_size(),
    {
        self.size
    }

    /// Returns source symbology.
    pub fn symbology(&self) -> (symbology: BarcodeSymbology)
        ensures
            symbology == self.spec_symbology(),
    {
        self.symbology
    }

    /// Returns quiet-zone width in modules.
    pub fn quiet_zone(&self) -> (modules: u32)
        ensures
            modules == quiet_zone_of(self.spec_symbology()),
            self.spec_symbology() == BarcodeSymbology::Qr ==> modules == 4,
            self.spec_symbology() == BarcodeSymbology::Code128 ==> modules == 10,
    {
        match self.symbology {
            BarcodeSymbology::Qr => 4,
            BarcodeSymbology::Code128 => 10,
        }
    }

    /// Returns quiet-zone height in modules.
    pub fn vertical_quiet_zone(&self) -> (modules: u32)
        ensures
            modules == vertical_quiet_zone_of(self.spec_symbology()),
            self.spec_symbology() == BarcodeSymbology::Qr ==> modules == 4,
            self.spec_symbology() == BarcodeSymbology::Code128 ==> modules == 0,
    {
        match self.symbology {
            BarcodeSymbology::Qr => self.quiet_zone(),
            BarcodeSymbology::Code128 => 0,
        }
    }

    /// Whether modules must stay square (QR); linear symbologies stretch.
    pub fn preserves_square_modules(&self) -> (square: bool)
        ensures
            square == (self.spec_symbology() == BarcodeSymbology::Qr),
    {
        match self.symbology {
            BarcodeSymbology::Qr => true,
            BarcodeSymbology::Code128 => false,
        }
    }

    /// Returns the encoded matrix.
    pub fn matrix(&self) -> (matrix: &BarcodeMatrix)
        ensures
            *matrix == self.spec_matrix(),
            matrix.wf(),
            self.spec_symbology() == BarcodeSymbology::Qr ==> matrix.width == matrix.height,
            self.spec_symbology() == BarcodeSymbology::Code128 ==> matrix.height == 1,
    {
        proof {
            use_type_invariant(self);
        }
        &self.matrix
    }

    /// The width and height of the module grid a renderer lays out: the
    /// matrix with its quiet zone on every side that has one.
    pub fn module_grid(&self) -> (grid: (u32, u32))
        ensures
            grid.0 == self.spec_module_grid().0,
            grid.1 == self.spec_module_grid().1,
            self.spec_symbology() == BarcodeSymbology::Qr ==> grid.0 == self.spec_matrix().width + 8
                && grid.1 == self.spec_matrix().height + 8,
            self.spec_symbology() == BarcodeSymbology::Code128 ==> grid.0
                == self.spec_matrix().width + 20 && grid.1 == self.spec_matrix().height,
            self.spec_symbology() == BarcodeSymbology::Qr ==> grid.0 == grid.1,
            self.spec_symbology() == BarcodeSymbology::Code128 ==> grid.1 == 1,
    {
        proof {
            use_type_invariant(self);
        }
        (
            self.matrix.width + self.quiet_zone() * 2,
            self.matrix.height + self.vertical_quiet_zone() * 2,
        )
    }

    /// The size this barcode is, in units: the extent [`Self::size`] asks
    /// for, floored at one unit per module (quiet zone included). A QR code
    /// is that on both sides; a Code128 symbol is that wide and the
    /// configured extent tall.
    pub fn output_size(&self) -> (size: (u32, u32))
        ensures
            size.0 == self.spec_output_size().0,
            size.1 == self.spec_output_size().1,
            self.spec_symbology() == BarcodeSymbology::Qr ==> size.0 == size.1 && size.0 == (if self.spec_size()
                >= self.spec_matrix().width + 8 {
                self.spec_size() as int
            } else {
                self.spec_matrix().width + 8
            }),
            self.spec_symbology() == BarcodeSymbology::Code128 ==> size.1 == self.spec_size()
                && size.0 == (if self.spec_size() >= self.spec_matrix().width + 20 {
                self.spec_size() as int
            } else {
                self.spec_matrix().width + 20
            }),
    {
        proof {
            use_type_invariant(self);
        }
        let quiet_zone: u32 = self.quiet_zone();
        let configured_size: u32 = self.size;
        match self.symbology {
            BarcodeSymbology::Qr => {
                let extent: u32 = self.matrix.width + quiet_zone * 2;
                let target_size: u32 = if configured_size >= extent {
                    configured_size
                } else {
                    extent
                };
                (target_size, target_size)
            },
            BarcodeSymbology::Code128 => {
                let extent: u32 = self.matrix.width + quiet_zone * 2;
                let width: u32 = if configured_size >= extent {
                    configured_size
                } else {
                    extent
                };
                (width, configured_size)
            },
        }
    }
}

/// Reading a module back gives the module that was packed: in a matrix that
/// holds `bits`, the module at `(x, y)` is `bits[y * width + x]`.
pub proof fn lemma_matrix_reads_back(
    matrix: BarcodeMatrix,
    width: nat,
    height: nat,
    bits: Seq<bool>,
    x: nat,
    y: nat,
)
    requires
        matrix.holds(width, height, bits),
        x < width,
        y < height,
    ensures
        y * width + x < bits.len(),
        matrix.spec_is_dark(x, y) == bits[(y * width + x) as int],
{
    assert(y * width + x < width * height) by (nonlinear_arith)
        requires
            x < width,
            y < height,
    ;
    lemma_packs_read(matrix.packed_data@, bits, y * width + x);
}

/// Each module of an encoded QR source is the module `fast_qr` placed at
/// that position of its row-major module array.
pub proof fn lemma_qr_module_is_encoded(source: BarcodeSource, content: Seq<char>, x: nat, y: nat)
    requires
        BarcodeSource::encoded(BarcodeSymbology::Qr, content, Ok(source)),
        x < source.spec_matrix().width,
        y < source.spec_matrix().height,
    ensures
        qr_symbol(encode_utf8(content)) matches Some((size, modules)) && source.spec_matrix().spec_is_dark(
            x,
            y,
        ) == (y * size + x < modules.len() && modules[(y * size + x) as int]),
{
    let (size, modules) = qr_symbol(encode_utf8(content)).unwrap();
    let bits = qr_bits(size, modules);
    lemma_matrix_reads_back(source.spec_matrix(), size, size, bits, x, y);
}

/// Each module of an encoded Code128 source is a bar (`1`) or a space of
/// the bars `barcoders` encodes the payload into.
pub proof fn lemma_code128_module_is_encoded(source: BarcodeSource, content: Seq<char>, x: nat)
    requires
        BarcodeSource::encoded(BarcodeSymbology::Code128, content, Ok(source)),
        x < source.spec_matrix().width,
    ensures
        code128_parse(code128_payload_of(content)) matches Some(units) && source.spec_matrix().spec_is_dark(
            x,
            0,
        ) == (code128_bars(units)[x as int] == 1u8),
{
    let units = code128_parse(code128_payload_of(content)).unwrap();
    let bars = code128_bars(units);
    lemma_matrix_reads_back(source.spec_matrix(), bars.len(), 1, code128_bits(bars), x, 0);
}

/// Code128 content that is empty or does not begin with a character-set
/// marker (`U+00C0`, `U+0181`, `U+0106`) is encoded in character set B: its
/// payload is the set-B marker followed by the content, unchanged. Content
/// that begins with a marker is its own payload.
pub proof fn lemma_code128_payload_starts_in_set_b(content: Seq<char>)
    ensures
        content.len() == 0 || (content[0] != '\u{c0}' && content[0] != '\u{181}' && content[0]
            != '\u{106}') ==> code128_payload_of(content).len() == content.len() + 1
            && code128_payload_of(content)[0] == '\u{181}' && code128_payload_of(content).subrange(
            1,
            content.len() + 1 as int,
        ) == content,
        content.len() > 0 && (content[0] == '\u{c0}' || content[0] == '\u{181}' || content[0]
            == '\u{106}') ==> code128_payload_of(content) == content,
{
    let payload = code128_payload_of(content);
    if !(content.len() > 0 && is_charset_marker(content[0])) {
        assert(payload.subrange(1, content.len() + 1 as int) =~= content);
    }
}

/// An encoded Code128 source is one row exactly as wide as the bars
/// `barcoders` encodes its payload into: eleven modules per unit plus
/// twenty-four for the checksum, stop and termination bars, with at most
/// one unit per payload character; and each module is dark exactly where
/// the bars hold a bar.
pub proof fn lemma_code128_width_is_its_bars(source: BarcodeSource, content: Seq<char>)
    requires
        BarcodeSource::encoded(BarcodeSymbology::Code128, content, Ok(source)),
    ensures
        code128_parse(code128_payload_of(content)) matches Some(units) && source.spec_matrix().height
            == 1 && source.spec_matrix().width == code128_bars(units).len()
            && source.spec_matrix().width == 11 * units.len() + 24 && (forall|x: nat|
            x < source.spec_matrix().width ==> #[trigger] source.spec_matrix().spec_is_dark(x, 0)
                == (code128_bars(units)[x as int] == 1u8)),
{
    let units = code128_parse(code128_payload_of(content)).unwrap();
    assert forall|x: nat| x < source.spec_matrix().width implies #[trigger] source.spec_matrix().spec_is_dark(
        x,
        0,
    ) == (code128_bars(units)[x as int] == 1u8) by {
        lemma_code128_module_is_encoded(source, content, x);
    }
}

/// An encoded QR source is the square symbol `fast_qr` builds from the
/// content's UTF-8 bytes: its side is the symbol's side, and each module is
/// the symbol's module at that position.
pub proof fn lemma_qr_side_is_its_symbol(source: BarcodeSource, content: Seq<char>)
    requires
        BarcodeSource::encoded(BarcodeSymbology::Qr, content, Ok(source)),
    ensures
        qr_symbol(encode_utf8(content)) matches Some((size, modules)) && source.spec_matrix().width
            == size && source.spec_matrix().height == size && (forall|x: nat, y: nat|
            x < size && y < size ==> #[trigger] source.spec_matrix().spec_is_dark(x, y) == (y * size
                + x < modules.len() && modules[(y * size + x) as int])),
{
    let (size, modules) = qr_symbol(encode_utf8(content)).unwrap();
    assert forall|x: nat, y: nat| x < size && y < size implies #[trigger] source.spec_matrix().spec_is_dark(
        x,
        y,
    ) == (y * size + x < modules.len() && modules[(y * size + x) as int]) by {
        lemma_qr_module_is_encoded(source, content, x, y);
    }
}

/// The output size in terms of the matrix: a QR code is square, the
/// configured extent floored at its side plus a four-module quiet zone on
/// each side; a Code128 symbol is the configured extent floored at its bar
/// count plus a ten-module quiet zone on each side wide, and exactly the
/// configured extent tall.
pub proof fn lemma_output_size_of_matrix(source: BarcodeSource)
    ensures
        source.spec_symbology() == BarcodeSymbology::Qr ==> source.spec_output_size() == (
            if source.spec_size() >= source.spec_matrix().width + 8 {
                source.spec_size() as int
            } else {
                source.spec_matrix().width + 8
            },
            if source.spec_size() >= source.spec_matrix().width + 8 {
                source.spec_size() as int
            } else {
                source.spec_matrix().width + 8
            },
        ),
        source.spec_symbology() == BarcodeSymbology::Code128 ==> source.spec_output_size() == (
            if source.spec_size() >= source.spec_matrix().width + 20 {
                source.spec_size() as int
            } else {
                source.spec_matrix().width + 20
            },
            source.spec_size() as int,
        ),
{
}

/// A barcode's output size never lets a module collapse: it is at least one
/// unit per module of its grid across, exactly the configured extent when
/// that is large enough, square for a QR code, and the configured extent
/// tall for a Code128 symbol.
pub proof fn lemma_output_size_is_floored_extent(source: BarcodeSource)
    ensures
        source.spec_output_size().0 >= source.spec_module_grid().0,
        source.spec_output_size().0 >= source.spec_size(),
        source.spec_size() >= source.spec_module_grid().0 ==> source.spec_output_size().0
            == source.spec_size(),
        source.spec_size() < source.spec_module_grid().0 ==> source.spec_output_size().0
            == source.spec_module_grid().0,
        source.spec_symbology() == BarcodeSymbology::Qr ==> source.spec_output_size().1
            == source.spec_output_size().0,
        source.spec_symbology() == BarcodeSymbology::Code128 ==> source.spec_output_size().1
            == source.spec_size(),
{
}

impl Clone for BarcodeSource {
    fn clone(&self) -> (copy: Self)
        ensures
            copy.spec_symbology() == self.spec_symbology(),
            copy.spec_size() == self.spec_size(),
            copy.spec_matrix().width == self.spec_matrix().width,
            copy.spec_matrix().height == self.spec_matrix().height,
            copy.spec_matrix().packed_data@ == self.spec_matrix().packed_data@,
    {
        proof {
            use_type_invariant(self);
        }
        BarcodeSource { symbology: self.symbology, matrix: self.matrix.clone(), size: self.size }
    }
}

} // verus!
