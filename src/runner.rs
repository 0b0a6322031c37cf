use vstd::prelude::*;

use crate::events::{decode_lossy, lossy_utf8};

verus! {

/// What a finished one-shot child left behind: whether its exit status
/// indicated success, and the bytes of its two output streams.
#[derive(Debug, Clone, PartialEq, Eq)]
pub struct ProcessOutput {
    pub success: bool,
    pub stdout: Vec<u8>,
    pub stderr: Vec<u8>,
}

/// The result of a collecting run whose child finished: its standard output
/// if it succeeded, its standard error otherwise.
pub open spec fn collected(success: bool, stdout: Seq<u8>, stderr: Seq<u8>) -> Result<Seq<char>, Seq<char>> {
    if success {
        Ok(lossy_utf8(stdout))
    } else {
        Err(lossy_utf8(stderr))
    }
}

/// Views a string result as a result of character sequences.
pub open spec fn result_view(r: Result<String, String>) -> Result<Seq<char>, Seq<char>> {
    match r {
        Ok(s) => Ok(s@),
        Err(e) => Err(e@),
    }
}

/// Decides the result of a collecting run from the output of its child:
/// the success branch exactly when the exit status indicated success,
/// holding standard output alone; otherwise standard error alone.
pub fn collect_output(output: &ProcessOutput) -> (r: Result<String, String>)
    ensures
        result_view(r) == collected(output.success, output.stdout@, output.stderr@),
        r is Ok <==> output.success,
{
    if output.success {
        Ok(decode_lossy(output.stdout.as_slice()))
    } else {
        Err(decode_lossy(output.stderr.as_slice()))
    }
}

/// The result of `run_collecting`, given either the output of the finished
/// child or the message of the error that kept it from starting.
pub fn collecting_result(run: Result<ProcessOutput, String>) -> (r: Result<String, String>)
    ensures
        run matches Ok(o) ==> result_view(r) == collected(o.success, o.stdout@, o.stderr@),
        run matches Err(m) ==> result_view(r) == Err::<Seq<char>, Seq<char>>(m@),
        r is Ok <==> (run matches Ok(o) && o.success),
{
    match run {
        Ok(output) => collect_output(&output),
        Err(message) => Err(message),
    }
}

} // verus!
