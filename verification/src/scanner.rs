//! Plugin discovery: plugin formats, the metadata a probe reports and the
//! command-line choice of formats.

use vstd::prelude::*;

use crate::paths::{file_stem, path_file_stem};

verus! {

/// Plugin binary formats the scanner knows.
#[derive(Debug, Clone, Copy, PartialEq, Eq, Structural)]
pub enum PluginFormat {
    Clap,
    Vst3,
    Ovst3,
    Harmoniq,
}

/// Metadata reported for a plugin bundle.
#[derive(Debug, Clone)]
pub struct ProbeResult {
    pub name: String,
    pub vendor: Option<String>,
    pub category: Option<String>,
    pub is_instrument: bool,
    pub supports_editor: bool,
}

/// The vendor a simulated probe reports for a format.
pub open spec fn simulated_vendor(format: PluginFormat) -> Seq<char> {
    match format {
        PluginFormat::Clap => "Simulated CLAP Vendor"@,
        PluginFormat::Vst3 => "Simulated VST3 Vendor"@,
        PluginFormat::Ovst3 => "OpenVST3"@,
        PluginFormat::Harmoniq => "Harmoniq"@,
    }
}

impl ProbeResult {
    /// Metadata made up from the path alone: named after the file's stem
    /// ("Unknown" without one), a vendor per format, category "Utility", an
    /// effect with an editor.
    pub fn simulate(path: String, format: PluginFormat) -> (r: Result<Self, ()>)
        ensures
            r matches Ok(p) && {
                &&& p.name@ == match path_file_stem(path@) {
                    Some(stem) => stem,
                    None => "Unknown"@,
                }
                &&& p.vendor matches Some(v) && v@ == simulated_vendor(format)
                &&& p.category matches Some(c) && c@ == "Utility"@
                &&& !p.is_instrument
                &&& p.supports_editor
            },
    {
        let name = match file_stem(path.as_str()) {
            Some(stem) => stem,
            None => String::from_str("Unknown"),
        };
        let vendor = match format {
            PluginFormat::Clap => String::from_str("Simulated CLAP Vendor"),
            PluginFormat::Vst3 => String::from_str("Simulated VST3 Vendor"),
            PluginFormat::Ovst3 => String::from_str("OpenVST3"),
            PluginFormat::Harmoniq => String::from_str("Harmoniq"),
        };
        Ok(Self {
            name,
            vendor: Some(vendor),
            category: Some(String::from_str("Utility")),
            is_instrument: false,
            supports_editor: true,
        })
    }
}

/// A character with ASCII upper-case letters turned to lower case.
pub open spec fn ascii_lower(c: char) -> char {
    if 'A' <= c && c <= 'Z' {
        ((c as u32) + 32) as char
    } else {
        c
    }
}

/// Text with its ASCII upper-case letters turned to lower case.
pub open spec fn ascii_lowercase(s: Seq<char>) -> Seq<char> {
    s.map_values(|c: char| ascii_lower(c))
}

/// Calls `str::to_ascii_lowercase`, which maps 'A'..='Z' to 'a'..='z' and leaves
/// every other character as it is, as its documentation states.
#[verifier::external_body]
fn to_ascii_lowercase(s: &str) -> (r: String)
    ensures
        r@ == ascii_lowercase(s@),
{
    s.to_ascii_lowercase()
}

/// The format a command-line name selects, compared without regard to ASCII case.
pub open spec fn format_named(name: Seq<char>) -> Option<PluginFormat> {
    if name == "clap"@ {
        Some(PluginFormat::Clap)
    } else if name == "vst3"@ {
        Some(PluginFormat::Vst3)
    } else if name == "ovst3"@ || name == "openvst3"@ {
        Some(PluginFormat::Ovst3)
    } else if name == "harmoniq"@ || name == "hq"@ || name == "hqplug"@ {
        Some(PluginFormat::Harmoniq)
    } else {
        None
    }
}

/// Parses a plugin format given on the command line ("clap", "vst3", "ovst3" or
/// "openvst3", "harmoniq", "hq" or "hqplug", in any ASCII case). Other names give
/// the error "unsupported format: <name in lower case>".
pub fn parse_format(value: &str) -> (r: Result<PluginFormat, String>)
    ensures
        match format_named(ascii_lowercase(value@)) {
            Some(f) => r == Ok::<PluginFormat, String>(f),
            None => r matches Err(msg) && msg@ == "unsupported format: "@ + ascii_lowercase(value@),
        },
{
    let lower = to_ascii_lowercase(value);
    if lower == String::from_str("clap") {
        Ok(PluginFormat::Clap)
    } else if lower == String::from_str("vst3") {
        Ok(PluginFormat::Vst3)
    } else if lower == String::from_str("ovst3") || lower == String::from_str("openvst3") {
        Ok(PluginFormat::Ovst3)
    } else if lower == String::from_str("harmoniq") || lower == String::from_str("hq") || lower
        == String::from_str("hqplug") {
        Ok(PluginFormat::Harmoniq)
    } else {
        let mut msg = String::from_str("unsupported format: ");
        msg.append(lower.as_str());
        Err(msg)
    }
}

/// All formats, in the order the scanner reports them.
pub open spec fn all_formats() -> Seq<PluginFormat> {
    seq![PluginFormat::Clap, PluginFormat::Vst3, PluginFormat::Ovst3, PluginFormat::Harmoniq]
}

/// The formats scanned when none are named: all of them.
pub fn default_formats() -> (v: Vec<PluginFormat>)
    ensures
        v@ == all_formats(),
{
    let v = vec![PluginFormat::Clap, PluginFormat::Vst3, PluginFormat::Ovst3, PluginFormat::Harmoniq];
    assert(v@ =~= all_formats());
    v
}

/// What a scan looks for: which formats, and extra paths to search besides the
/// standard locations.
#[derive(Debug, Clone)]
pub struct ScanOptions {
    pub formats: Vec<PluginFormat>,
    pub extra_paths: Vec<String>,
}

impl Default for ScanOptions {
    /// All formats, no extra paths.
    fn default() -> (o: Self)
        ensures
            o.formats@ == all_formats(),
            o.extra_paths@.len() == 0,
    {
        ScanOptions { formats: default_formats(), extra_paths: Vec::new() }
    }
}

} // verus!
