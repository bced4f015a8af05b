//! The ways in which one invocation can fail.

use vstd::prelude::*;
use vstd::string::*;

verus! {

/// Why the staging buffer could not be mapped.
#[derive(Clone, Copy, Debug, PartialEq, Eq, Structural)]
pub enum MapCause {
    /// The device reported that it could not map the buffer.
    Device,
    /// The completion channel closed before anything was sent.
    Channel,
}

/// Why an invocation was given up. Every failure ends the invocation: nothing is
/// retried and no partial result is handed out.
#[derive(Clone, Copy, Debug, PartialEq, Eq, Structural)]
pub enum Failure {
    /// No adapter satisfies the request.
    AdapterUnavailable,
    /// An adapter was found, but it gave no device.
    DeviceRequestFailed,
    /// The starting value is not an unsigned 128-bit decimal number.
    ParseError,
    /// The last candidate of the range would not fit in 128 bits.
    RangeOverflow,
    /// The device refused the compute program.
    ShaderCompilationFailed,
    /// The device built no pipeline from the compute program.
    PipelineCreationFailed,
    /// The staging buffer could not be mapped for reading.
    MapRequestFailed(MapCause),
}

impl Failure {
    /// The words in which the failure is reported.
    pub open spec fn spec_message(self) -> Seq<char> {
        match self {
            Failure::AdapterUnavailable => "No GPU adapter found. Try Chrome WebGPU enabled. Safari Does not support WebGPU"@,
            Failure::DeviceRequestFailed => "GPU device request failed"@,
            Failure::ParseError => "Could not parse n"@,
            Failure::RangeOverflow => "Range exceeds 128 bits"@,
            Failure::ShaderCompilationFailed => "Shader compilation failed"@,
            Failure::PipelineCreationFailed => "Pipeline creation failed"@,
            Failure::MapRequestFailed(MapCause::Device) => "Buffer mapping failed"@,
            Failure::MapRequestFailed(MapCause::Channel) => "Channel error"@,
        }
    }

    /// The failure as it is reported to the caller, given what the device said
    /// about it: for a failed device request what the device said, for a failed
    /// map the failure's own words and then what the device said, and for all
    /// others, or where the device said nothing, the failure's own words.
    pub open spec fn spec_describe(self, detail: Seq<char>) -> Seq<char> {
        if detail.len() == 0 {
            self.spec_message()
        } else {
            match self {
                Failure::DeviceRequestFailed => detail,
                Failure::MapRequestFailed(_) => self.spec_message() + ": "@ + detail,
                _ => self.spec_message(),
            }
        }
    }

    /// The words in which the failure is reported.
    pub fn message(&self) -> (text: String)
        ensures
            text@ == self.spec_message(),
    {
        match self {
            Failure::AdapterUnavailable => "No GPU adapter found. Try Chrome WebGPU enabled. Safari Does not support WebGPU".to_owned(),
            Failure::DeviceRequestFailed => "GPU device request failed".to_owned(),
            Failure::ParseError => "Could not parse n".to_owned(),
            Failure::RangeOverflow => "Range exceeds 128 bits".to_owned(),
            Failure::ShaderCompilationFailed => "Shader compilation failed".to_owned(),
            Failure::PipelineCreationFailed => "Pipeline creation failed".to_owned(),
            Failure::MapRequestFailed(MapCause::Device) => "Buffer mapping failed".to_owned(),
            Failure::MapRequestFailed(MapCause::Channel) => "Channel error".to_owned(),
        }
    }

    /// The failure as it is reported to the caller, given what the device said
    /// about it.
    pub fn describe(&self, detail: &str) -> (text: String)
        ensures
            text@ == self.spec_describe(detail@),
    {
        if detail.is_empty() {
            return self.message();
        }
        match self {
            Failure::DeviceRequestFailed => String::from_str(detail),
            Failure::MapRequestFailed(_) => {
                let mut text = self.message();
                text.append(": ");
                text.append(detail);
                text
            },
            _ => self.message(),
        }
    }
}

} // verus!
