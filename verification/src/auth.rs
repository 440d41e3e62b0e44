//! What to make of a run of the credential helper.

use crate::decimal::decimal_text;
use crate::decimal::to_decimal_text;
use crate::fail::Failure;
use crate::fail::failure;
use crate::fail::failure_text;
use vstd::prelude::*;
use vstd::string::StringExecFns;
use vstd::utf8::decode_utf8;
use vstd::utf8::valid_utf8;

verus! {

/// What a run of the helper left behind.
pub struct HelperOutput {
    /// Whether the helper reported success.
    pub success: bool,
    /// Its exit code; none where a signal ended it.
    pub exit_code: Option<i32>,
    pub stdout: Vec<u8>,
    pub stderr: Vec<u8>,
}

/// `String::from_utf8`, with its error displayed. Bytes that are UTF-8 become
/// the text that they encode; others are an error.
#[verifier::external_body]
fn text_from_utf8(bytes: Vec<u8>) -> (r: Result<String, String>)
    ensures
        r is Ok <==> valid_utf8(bytes@),
        r matches Ok(text) ==> text@ == decode_utf8(bytes@),
{
    match String::from_utf8(bytes) {
        Ok(text) => Ok(text),
        Err(error) => Err(error.to_string()),
    }
}

/// The header of the failure for a helper that ended with the exit code
/// `exit_code`.
pub open spec fn exit_code_header(exit_code: i32) -> Seq<char> {
    "zign command failed with exit code "@ + decimal_text(exit_code as int)
}

/// Whether a run of the helper supplies a token.
pub open spec fn supplies_token(run: Result<HelperOutput, String>) -> bool {
    run matches Ok(output) && output.success && valid_utf8(output.stdout@)
}

/// The failure to report for a run of the helper that supplies no token,
/// where `detail` stands for what the system said of bytes that are no text.
pub open spec fn helper_failure_text(run: Result<HelperOutput, String>, detail: Seq<char>) -> Seq<
    char,
> {
    match run {
        Err(error) => failure_text("Failed to run zign command"@, error@),
        Ok(output) => if output.success {
            failure_text("Failed to decode zign stdout output as UTF-8"@, detail)
        } else if output.exit_code is None {
            failure_text("zign command was interrupted"@, ""@)
        } else if !valid_utf8(output.stderr@) {
            failure_text("Failed to decode zign stderr output as UTF-8"@, detail)
        } else {
            failure_text(
                exit_code_header(output.exit_code->Some_0),
                decode_utf8(output.stderr@),
            )
        },
    }
}

/// Makes of a run of the helper the token that it printed, or the failure
/// to report. `run` is the output of the helper, or what the system said
/// where it could not be run.
pub fn zign(run: Result<HelperOutput, String>) -> (r: Result<String, Failure>)
    ensures
        match r {
            Ok(token) => supplies_token(run) && token@ == decode_utf8(run->Ok_0.stdout@),
            Err(failure) => !supplies_token(run) && exists|detail: Seq<char>|
                failure@ == #[trigger] helper_failure_text(run, detail),
        },
{
    let output = match run {
        Ok(output) => output,
        Err(error) => {
            let reported = failure("Failed to run zign command", error.as_str());
            assert(reported@ == helper_failure_text(run, Seq::empty()));
            return Err(reported);
        },
    };
    if !output.success {
        let exit_code = match output.exit_code {
            Some(exit_code) => exit_code,
            None => {
                let reported = failure("zign command was interrupted", "");
                assert(reported@ == helper_failure_text(run, Seq::empty()));
                return Err(reported);
            },
        };
        let stderr = match text_from_utf8(output.stderr) {
            Ok(stderr) => stderr,
            Err(error) => {
                let reported = failure(
                    "Failed to decode zign stderr output as UTF-8",
                    error.as_str(),
                );
                assert(reported@ == helper_failure_text(run, error@));
                return Err(reported);
            },
        };
        let mut header = String::from_str("zign command failed with exit code ");
        header.append(to_decimal_text(exit_code).as_str());
        let reported = failure(header.as_str(), stderr.as_str());
        assert(reported@ == helper_failure_text(run, Seq::empty()));
        return Err(reported);
    }
    match text_from_utf8(output.stdout) {
        Ok(token) => Ok(token),
        Err(error) => {
            let reported = failure("Failed to decode zign stdout output as UTF-8", error.as_str());
            assert(reported@ == helper_failure_text(run, error@));
            Err(reported)
        },
    }
}

} // verus!
