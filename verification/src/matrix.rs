use vstd::prelude::*;

use vstd::string::StringSliceAdditionalSpecFns;

use crate::errors::QrError;

verus! {

/// Longest payload, in characters, that any supported symbol can hold: the
/// numeric-mode character capacity of version 40 at the Medium
/// error-correction level.
pub const MAX_CAPACITY_CHARS: usize = 5596;

/// A payload of at most this many UTF-8 bytes always fits: the byte-mode
/// capacity of version 40 at the Medium error-correction level, less one byte
/// of headroom for a character-set header.
pub const SAFE_CAPACITY_BYTES: usize = 2330;

/// The module grid of the chosen symbol: the result of mode selection,
/// Reed-Solomon coding, module placement and mask selection for the payload.
/// The version is the smallest that carries the payload at the Medium
/// error-correction level; the written level may be higher where the chosen
/// version has spare room. `true` is a dark module. The row at index `r`
/// holds the module at column `c` of grid row `r`.
pub uninterp spec fn qr_matrix(payload: Seq<char>) -> Seq<Seq<bool>>;

/// Whether the payload can be carried by a supported symbol version at the
/// Medium error-correction level: the encoder's accept-or-reject decision, a
/// function of the payload alone. It holds for every payload of at most
/// `SAFE_CAPACITY_BYTES` UTF-8 bytes and fails for every payload of more than
/// `MAX_CAPACITY_CHARS` characters; between the two the decision depends on
/// the payload's character classes.
pub uninterp spec fn qr_fits(payload: Seq<char>) -> bool;

/// A well-formed symbol grid: square, with the side length of a standard
/// version (4 times the version number plus 17, for versions 1 through 40).
pub open spec fn grid_wf(m: Seq<Seq<bool>>) -> bool {
    &&& 21 <= m.len() <= 177
    &&& m.len() % 4 == 1
    &&& forall|r: int| 0 <= r < m.len() ==> (#[trigger] m[r]).len() == m.len()
}

/// Relies on qrcode_generator's Model 2 QR encoder: `Encoder::encode_text`
/// selects modes, the smallest version that fits at the Medium level (the
/// written level may be boosted where that version has spare room) and the
/// lowest-penalty mask deterministically, so both the accept-or-reject
/// decision and the grid are functions of the payload alone.
/// `Symbol::to_matrix` returns one row per module row, each of length
/// `size()`, where `size()` is 4 times the version number plus 17. Version 40
/// at Medium holds 2334 data codewords (18672 bits), so any payload of at
/// most 2330 UTF-8 bytes fits even in byte mode behind a character-set
/// header, while the encoder rejects more than 5596 characters up front (the
/// numeric-mode capacity at that size).
#[verifier::external_body]
fn qr_encode_matrix(payload: &str) -> (r: Result<Vec<Vec<bool>>, QrError>)
    ensures
        r is Ok <==> qr_fits(payload@),
        r is Ok ==> r->Ok_0.deep_view() == qr_matrix(payload@),
        r is Ok ==> grid_wf(r->Ok_0.deep_view()),
        payload.spec_bytes().len() <= SAFE_CAPACITY_BYTES ==> r is Ok,
        payload@.len() > MAX_CAPACITY_CHARS ==> r is Err,
        r is Err ==> r->Err_0 == QrError::EncodingError,
{
    let encoder = qrcode_generator::qr::Encoder::new(
        qrcode_generator::qr::ErrorCorrection::Medium,
    );
    match encoder.encode_text(payload) {
        Ok(symbol) => Ok(symbol.to_matrix()),
        Err(_) => Err(QrError::EncodingError),
    }
}

/// A complete, immutable QR symbol: a square grid of dark and light modules.
#[derive(Debug, PartialEq)]
pub struct SymbolMatrix {
    modules: Vec<Vec<bool>>,
}

impl View for SymbolMatrix {
    type V = Seq<Seq<bool>>;

    closed spec fn view(&self) -> Seq<Seq<bool>> {
        self.modules.deep_view()
    }
}

impl SymbolMatrix {
    /// A valid symbol is a well-formed grid.
    pub open spec fn wf(&self) -> bool {
        grid_wf(self@)
    }

    /// The side length of the square grid, in modules.
    pub fn side(&self) -> (r: usize)
        ensures
            r == self@.len(),
    {
        self.modules.len()
    }

    /// Whether the module at grid row `r`, column `c` is dark.
    pub fn is_dark(&self, r: usize, c: usize) -> (d: bool)
        requires
            self.wf(),
            r < self@.len(),
            c < self@.len(),
        ensures
            d == self@[r as int][c as int],
    {
        proof {
            assert(self@[r as int] == self.modules@[r as int].deep_view());
        }
        self.modules[r][c]
    }
}

/// Maps the payload to its QR symbol. Fails with `InvalidInput` exactly on an
/// empty payload and with `EncodingError` exactly when no supported version
/// can carry the payload; on success the grid is the complete standard symbol
/// for the payload, a function of the payload alone.
pub fn encode(payload: &str) -> (r: Result<SymbolMatrix, QrError>)
    ensures
        payload@.len() == 0 <==> r == Err::<SymbolMatrix, QrError>(QrError::InvalidInput),
        payload@.len() > 0 ==> (r is Ok <==> qr_fits(payload@)),
        r == Err::<SymbolMatrix, QrError>(QrError::EncodingError) <==> payload@.len() > 0
            && !qr_fits(payload@),
        r is Ok ==> r->Ok_0.wf() && r->Ok_0@ == qr_matrix(payload@),
        payload@.len() > 0 && payload.spec_bytes().len() <= SAFE_CAPACITY_BYTES ==> r is Ok,
        payload@.len() > MAX_CAPACITY_CHARS ==> r == Err::<SymbolMatrix, QrError>(
            QrError::EncodingError,
        ),
{
    if payload.is_empty() {
        return Err(QrError::InvalidInput);
    }
    match qr_encode_matrix(payload) {
        Ok(modules) => Ok(SymbolMatrix { modules }),
        Err(e) => Err(e),
    }
}

} // verus!
