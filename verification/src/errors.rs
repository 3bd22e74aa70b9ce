use vstd::prelude::*;

verus! {

/// The three failure categories of the pipeline: a structurally invalid
/// payload, a payload that no supported symbol version can carry, and any
/// fault while producing the raster image.
#[derive(Clone, Copy, Debug, PartialEq, Eq, Structural)]
pub enum QrError {
    InvalidInput,
    EncodingError,
    ImageGenerationError,
}

/// The outward form of an error: a numeric code with a human-readable message.
#[derive(Debug)]
pub struct CodedError {
    pub code: u16,
    pub message: String,
}

/// The numeric code assigned to each error category.
pub open spec fn spec_error_code(e: QrError) -> u16 {
    match e {
        QrError::InvalidInput => 100u16,
        QrError::EncodingError => 101u16,
        QrError::ImageGenerationError => 102u16,
    }
}

/// The message assigned to each error category.
pub open spec fn spec_error_message(e: QrError) -> Seq<char> {
    match e {
        QrError::InvalidInput => "Geçersiz girdi"@,
        QrError::EncodingError => "Kodlama hatası"@,
        QrError::ImageGenerationError => "Görüntü oluşturma hatası"@,
    }
}

impl CodedError {
    /// Maps a pipeline error to its outward numeric code and message.
    pub fn from_error(e: &QrError) -> (r: CodedError)
        ensures
            r.code == spec_error_code(*e),
            r.message@ == spec_error_message(*e),
    {
        match e {
            QrError::InvalidInput => CodedError { code: 100, message: "Geçersiz girdi".to_owned() },
            QrError::EncodingError => CodedError {
                code: 101,
                message: "Kodlama hatası".to_owned(),
            },
            QrError::ImageGenerationError => CodedError {
                code: 102,
                message: "Görüntü oluşturma hatası".to_owned(),
            },
        }
    }
}

} // verus!
