//! The options of an analysis, checked.
use vstd::prelude::*;
use crate::errors::HprofSlurpError;

verus! {

pub struct Args {
    pub file_path: String,
    pub top: usize,
    pub debug: bool,
    pub list_strings: bool,
    pub json_output: bool,
}

/// Checks the options read from the command line: `top` must be strictly positive, and
/// the input must name an existing file.
pub fn get_args(
    input_file: &str,
    input_file_exists: bool,
    top: usize,
    debug: bool,
    list_strings: bool,
    json_output: bool,
) -> (r: Result<Args, HprofSlurpError>)
    ensures
        top == 0 ==> r matches Err(HprofSlurpError::InvalidTopPositiveInt),
        top > 0 && !input_file_exists ==> (r matches Err(HprofSlurpError::InputFileNotFound { name })
            && name@ == input_file@),
        input_file_exists && top > 0 ==> (r matches Ok(a) && a.file_path@ == input_file@ && a.top
            == top && a.debug == debug && a.list_strings == list_strings && a.json_output
            == json_output),
{
    if top == 0 {
        return Err(HprofSlurpError::InvalidTopPositiveInt);
    }
    if !input_file_exists {
        return Err(HprofSlurpError::InputFileNotFound { name: String::from_str(input_file) });
    }
    Ok(Args { file_path: String::from_str(input_file), top, debug, list_strings, json_output })
}

} // verus!
