//! Plugin-facing definitions: the descriptor every Harmoniq plugin exports and
//! parameter identifiers.

use vstd::prelude::*;
use vstd::string::StringSliceAdditionalSpecFns;

verus! {

/// ABI version of the plugin interface.
pub const HQ_API_VERSION: u32 = 1;

/// Descriptor exported by every Harmoniq plugin. Names are NUL-padded byte arrays.
#[derive(Debug, Clone, Copy)]
pub struct HqPluginDescriptor {
    /// ABI version the plugin targets.
    pub abi_version: u32,
    /// Plugin name shown in the UI.
    pub name: [u8; 64],
    /// Vendor name.
    pub vendor: [u8; 64],
    /// Number of audio input channels.
    pub audio_inputs: u32,
    /// Number of audio output channels.
    pub audio_outputs: u32,
    /// Number of exposed parameters.
    pub parameters: u32,
}

/// `bytes` in an array of `n` bytes: cut at `n`, padded with zeros.
pub open spec fn fixed_bytes(bytes: Seq<u8>, n: nat) -> Seq<u8> {
    Seq::new(n, |i: int| if i < bytes.len() { bytes[i] } else { 0u8 })
}

/// Copies the UTF-8 bytes of `value` into an array of `N` bytes, cutting at `N`
/// and padding with zeros.
pub fn str_to_fixed<const N: usize>(value: &str) -> (buffer: [u8; N])
    ensures
        buffer@ == fixed_bytes(value.spec_bytes(), N as nat),
{
    let bytes = value.as_bytes();
    let mut buffer = [0u8; N];
    let mut i: usize = 0;
    while i < bytes.len() && i < N
        invariant
            bytes@ == value.spec_bytes(),
            buffer@.len() == N,
            i <= N,
            i <= bytes@.len(),
            forall|k: int| 0 <= k < N ==> buffer@[k] == if k < i { bytes@[k] } else { 0u8 },
        decreases N - i,
    {
        buffer[i] = bytes[i];
        i += 1;
    }
    assert(buffer@ =~= fixed_bytes(value.spec_bytes(), N as nat));
    buffer
}

/// The bytes of the stub plugin's name, "HQ Stub".
pub open spec fn stub_name() -> Seq<u8> {
    seq![72u8, 81u8, 32u8, 83u8, 116u8, 117u8, 98u8]
}

/// The bytes of the stub plugin's vendor, "Harmoniq".
pub open spec fn stub_vendor() -> Seq<u8> {
    seq![72u8, 97u8, 114u8, 109u8, 111u8, 110u8, 105u8, 113u8]
}

impl HqPluginDescriptor {
    /// A descriptor for stubs and tests: current ABI version, named "HQ Stub" by
    /// "Harmoniq" (NUL-padded), stereo in and out, no parameters.
    pub fn stub() -> (d: Self)
        ensures
            d.abi_version == HQ_API_VERSION,
            d.name@ == fixed_bytes(stub_name(), 64),
            d.vendor@ == fixed_bytes(stub_vendor(), 64),
            d.audio_inputs == 2,
            d.audio_outputs == 2,
            d.parameters == 0,
    {
        proof {
            reveal_strlit("HQ Stub");
            reveal_strlit("Harmoniq");
            assert(vstd::string::is_ascii("HQ Stub"));
            assert(vstd::string::is_ascii("Harmoniq"));
            assert("HQ Stub".spec_bytes() =~= stub_name());
            assert("Harmoniq".spec_bytes() =~= stub_vendor());
        }
        let name = str_to_fixed::<64>("HQ Stub");
        let vendor = str_to_fixed::<64>("Harmoniq");
        HqPluginDescriptor {
            abi_version: HQ_API_VERSION,
            name,
            vendor,
            audio_inputs: 2,
            audio_outputs: 2,
            parameters: 0,
        }
    }
}

} // verus!
