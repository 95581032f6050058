//! Errors returned by the conversion methods in this crate,
//! collected in one place.

pub use crate::errors::{
    CodepointError, FromStrError, InvalidUtf16FirstUnit, InvalidUtf16Slice, InvalidUtf16Tuple,
    InvalidUtf8, InvalidUtf8Array, InvalidUtf8FirstByte, InvalidUtf8Slice, NonAsciiError,
    NonBmpError,
};
