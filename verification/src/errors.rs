//! Errors of signature compilation, scanning and reading data.

use vstd::prelude::*;

verus! {

/// yara_x's error for a signature that does not compile; carried, never inspected.
#[verifier::external_type_specification]
#[verifier::external_body]
pub struct ExCompileError(yara_x::errors::CompileError);

/// yara_x's error for a scan that failed; carried, never inspected.
#[verifier::external_type_specification]
#[verifier::external_body]
pub struct ExScanError(yara_x::errors::ScanError);

/// std's I/O error; carried, never inspected.
#[verifier::external_type_specification]
#[verifier::external_body]
pub struct ExIoError(std::io::Error);

/// Errors that can occur while building signature sets or scanning.
#[derive(Debug)]
pub enum Error {
    /// A YARA signature has syntax errors or is otherwise invalid.
    SignatureError(yara_x::errors::CompileError),
    /// The YARA scan itself failed.
    ScanError(yara_x::errors::ScanError),
    /// Data could not be read or unpacked.
    IoError(std::io::Error),
}

} // verus!
