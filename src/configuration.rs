use vstd::prelude::*;
use vstd::string::*;

verus! {

/// What a render is asked to do: which scene, where to write the image, and its size.
#[derive(Debug)]
pub struct Configuration {
    pub scene: String,
    pub output: String,
    pub width: u32,
    pub height: u32,
}

/// Why a configuration cannot be used.
#[derive(Debug)]
pub enum Error {
    OutputInvalid { output: String, reason: String },
}

/// Checks a configuration before any work is done; `output_is_directory` says
/// whether the output path names an existing directory, which cannot be
/// written as an image file.
pub fn validate(configuration: &Configuration, output_is_directory: bool) -> (r: Result<(), Error>)
    ensures
        r is Ok <==> !output_is_directory,
        r matches Err(Error::OutputInvalid { output, reason }) ==> output@
            == configuration.output@ && reason@ == "path corresponds to a directory"@,
{
    if output_is_directory {
        return Err(
            Error::OutputInvalid {
                output: configuration.output.clone(),
                reason: String::from_str("path corresponds to a directory"),
            },
        );
    }
    Ok(())
}

} // verus!
