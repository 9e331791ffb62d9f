//! Converting org-mode source to an HTML body fragment with Pandoc.
//!
//! Pandoc runs as a subprocess (`--from org --to html5`, no `--standalone`),
//! which the caller starts; the functions here give its arguments and decide
//! what its output means.  The fragment has no `<html>`/`<head>`/`<body>`
//! wrapper and is meant to be embedded in a page template.
use vstd::prelude::*;
use vstd::utf8::{decode_utf8, valid_utf8};

verus! {

/// Why an export failed.
#[derive(Debug, Clone)]
pub enum ExportError {
    /// Pandoc could not be started.
    Spawn { pandoc_bin: String, message: String },
    /// Pandoc exited unsuccessfully (`status` is -1 when it has no exit code).
    PandocFailed { status: i32, stderr: String },
    /// Pandoc's output is not UTF-8.
    Utf8(String),
    /// Writing to or reading from Pandoc failed.
    Io(String),
}

/// What a finished Pandoc run produced.
#[derive(Debug, Clone)]
pub struct PandocOutput {
    /// Whether Pandoc exited successfully.
    pub success: bool,
    /// Its exit code, if it has one.
    pub code: Option<i32>,
    /// What it wrote to standard output.
    pub stdout: Vec<u8>,
    /// What it wrote to standard error.
    pub stderr: Vec<u8>,
}

/// The text of the error that `String::from_utf8` reports for `bytes`.
pub uninterp spec fn utf8_error_text(bytes: Seq<u8>) -> Seq<char>;

/// The text that `String::from_utf8_lossy` makes of `bytes`.
pub uninterp spec fn utf8_lossy_text(bytes: Seq<u8>) -> Seq<char>;

/// Decodes UTF-8 (`String::from_utf8`).  Trusted: it succeeds exactly on
/// valid UTF-8 and then gives the decoded characters; on failure it gives
/// the text of the error.
#[verifier::external_body]
fn utf8_to_string(bytes: Vec<u8>) -> (r: Result<String, String>)
    ensures
        match r {
            Ok(s) => valid_utf8(bytes@) && s@ == decode_utf8(bytes@),
            Err(e) => !valid_utf8(bytes@) && e@ == utf8_error_text(bytes@),
        },
{
    String::from_utf8(bytes).map_err(|e| e.to_string())
}

/// Decodes UTF-8, replacing invalid sequences (`String::from_utf8_lossy`).
/// Trusted: the result is the text `utf8_lossy_text` names, which for valid
/// UTF-8 is the decoded text itself.
#[verifier::external_body]
fn utf8_lossy(bytes: &[u8]) -> (r: String)
    ensures
        r@ == utf8_lossy_text(bytes@),
        valid_utf8(bytes@) ==> r@ == decode_utf8(bytes@),
{
    String::from_utf8_lossy(bytes).into_owned()
}

/// The arguments Pandoc is run with: `--from org --to html5`.
pub fn pandoc_args() -> (r: Vec<String>)
    ensures
        r@.len() == 4,
        r@[0]@ == "--from"@,
        r@[1]@ == "org"@,
        r@[2]@ == "--to"@,
        r@[3]@ == "html5"@,
{
    let mut v: Vec<String> = Vec::new();
    v.push("--from".to_owned());
    v.push("org".to_owned());
    v.push("--to".to_owned());
    v.push("html5".to_owned());
    v
}

/// The HTML fragment of a finished Pandoc run: its standard output when it
/// exited successfully and that output is UTF-8; otherwise the exit status
/// (-1 without a code) and its standard error, or the UTF-8 error.
pub fn html_from_output(out: PandocOutput) -> (r: Result<String, ExportError>)
    ensures
        !out.success ==> (r matches Err(ExportError::PandocFailed { status, stderr }) && status
            == (match out.code {
            Some(c) => c,
            None => -1i32,
        }) && stderr@ == utf8_lossy_text(out.stderr@)),
        out.success && valid_utf8(out.stdout@) ==> (r matches Ok(html) && html@ == decode_utf8(
            out.stdout@,
        )),
        out.success && !valid_utf8(out.stdout@) ==> (r matches Err(ExportError::Utf8(e)) && e@
            == utf8_error_text(out.stdout@)),
{
    if !out.success {
        let status = match out.code {
            Some(c) => c,
            None => -1,
        };
        return Err(ExportError::PandocFailed { status, stderr: utf8_lossy(out.stderr.as_slice()) });
    }
    match utf8_to_string(out.stdout) {
        Ok(s) => Ok(s),
        Err(e) => Err(ExportError::Utf8(e)),
    }
}

} // verus!
