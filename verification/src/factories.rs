//! Descriptors of the built-in plugins: the identifier, name, vendor and optional
//! description under which each factory registers its processor.

use vstd::prelude::*;

verus! {

/// Vendor of every built-in plugin.
pub open spec fn builtin_vendor() -> Seq<char> {
    "Harmoniq Labs"@
}

/// What a plugin factory announces about the processor it creates.
#[derive(Debug, Clone)]
pub struct PluginDescriptor {
    pub id: String,
    pub name: String,
    pub vendor: String,
    pub description: Option<String>,
}

impl PluginDescriptor {
    /// A descriptor without description.
    pub fn new(id: &str, name: &str, vendor: &str) -> (d: Self)
        ensures
            d.id@ == id@,
            d.name@ == name@,
            d.vendor@ == vendor@,
            d.description is None,
    {
        PluginDescriptor {
            id: id.to_owned(),
            name: name.to_owned(),
            vendor: vendor.to_owned(),
            description: None,
        }
    }

    /// The descriptor with `description` set.
    pub fn with_description(self, description: &str) -> (d: Self)
        ensures
            d.id@ == self.id@,
            d.name@ == self.name@,
            d.vendor@ == self.vendor@,
            d.description matches Some(text) && text@ == description@,
    {
        PluginDescriptor { description: Some(description.to_owned()), ..self }
    }
}

/// `d` has the given identifier, name and description and the built-in vendor.
pub open spec fn describes(
    d: PluginDescriptor,
    id: Seq<char>,
    name: Seq<char>,
    description: Option<Seq<char>>,
) -> bool {
    &&& d.id@ == id
    &&& d.name@ == name
    &&& d.vendor@ == builtin_vendor()
    &&& match description {
        Some(text) => d.description matches Some(s) && s@ == text,
        None => d.description is None,
    }
}

/// Factory of the audio editor.
pub struct AudioEditorPluginFactory;

impl AudioEditorPluginFactory {
    /// The descriptor the factory registers.
    pub fn descriptor(&self) -> (d: PluginDescriptor)
        ensures
            describes(d, "harmoniq.editor.edison"@, "Edison Audio Editor"@, None),
    {
        PluginDescriptor::new("harmoniq.editor.edison", "Edison Audio Editor", "Harmoniq Labs")
    }
}

/// Factory of the parametric equaliser.
pub struct ParametricEqFactory;

impl ParametricEqFactory {
    /// The descriptor the factory registers.
    pub fn descriptor(&self) -> (d: PluginDescriptor)
        ensures
            describes(d, "harmoniq.effects.parametric_eq"@, "Parametric EQ"@, None),
    {
        PluginDescriptor::new("harmoniq.effects.parametric_eq", "Parametric EQ", "Harmoniq Labs")
    }
}

/// Factory of the compressor.
pub struct CompressorFactory;

impl CompressorFactory {
    /// The descriptor the factory registers.
    pub fn descriptor(&self) -> (d: PluginDescriptor)
        ensures
            describes(d, "harmoniq.effects.compressor"@, "Compressor"@, None),
    {
        PluginDescriptor::new("harmoniq.effects.compressor", "Compressor", "Harmoniq Labs")
    }
}

/// Factory of the limiter.
pub struct LimiterFactory;

impl LimiterFactory {
    /// The descriptor the factory registers.
    pub fn descriptor(&self) -> (d: PluginDescriptor)
        ensures
            describes(d, "harmoniq.effects.limiter"@, "Limiter"@, None),
    {
        PluginDescriptor::new("harmoniq.effects.limiter", "Limiter", "Harmoniq Labs")
    }
}

/// Factory of the reverb.
pub struct ReverbFactory;

impl ReverbFactory {
    /// The descriptor the factory registers.
    pub fn descriptor(&self) -> (d: PluginDescriptor)
        ensures
            describes(d, "harmoniq.effects.reverb"@, "Reverb"@, None),
    {
        PluginDescriptor::new("harmoniq.effects.reverb", "Reverb", "Harmoniq Labs")
    }
}

/// Factory of the delay.
pub struct DelayFactory;

impl DelayFactory {
    /// The descriptor the factory registers.
    pub fn descriptor(&self) -> (d: PluginDescriptor)
        ensures
            describes(d, "harmoniq.effects.delay"@, "Delay"@, None),
    {
        PluginDescriptor::new("harmoniq.effects.delay", "Delay", "Harmoniq Labs")
    }
}

/// Factory of the chorus.
pub struct ChorusFactory;

impl ChorusFactory {
    /// The descriptor the factory registers.
    pub fn descriptor(&self) -> (d: PluginDescriptor)
        ensures
            describes(d, "harmoniq.effects.chorus"@, "Chorus"@, None),
    {
        PluginDescriptor::new("harmoniq.effects.chorus", "Chorus", "Harmoniq Labs")
    }
}

/// Factory of the flanger.
pub struct FlangerFactory;

impl FlangerFactory {
    /// The descriptor the factory registers.
    pub fn descriptor(&self) -> (d: PluginDescriptor)
        ensures
            describes(d, "harmoniq.effects.flanger"@, "Flanger"@, None),
    {
        PluginDescriptor::new("harmoniq.effects.flanger", "Flanger", "Harmoniq Labs")
    }
}

/// Factory of the phaser.
pub struct PhaserFactory;

impl PhaserFactory {
    /// The descriptor the factory registers.
    pub fn descriptor(&self) -> (d: PluginDescriptor)
        ensures
            describes(d, "harmoniq.effects.phaser"@, "Phaser"@, None),
    {
        PluginDescriptor::new("harmoniq.effects.phaser", "Phaser", "Harmoniq Labs")
    }
}

/// Factory of the distortion.
pub struct DistortionFactory;

impl DistortionFactory {
    /// The descriptor the factory registers.
    pub fn descriptor(&self) -> (d: PluginDescriptor)
        ensures
            describes(d, "harmoniq.effects.distortion"@, "Distortion"@, None),
    {
        PluginDescriptor::new("harmoniq.effects.distortion", "Distortion", "Harmoniq Labs")
    }
}

/// Factory of the auto filter.
pub struct AutoFilterFactory;

impl AutoFilterFactory {
    /// The descriptor the factory registers.
    pub fn descriptor(&self) -> (d: PluginDescriptor)
        ensures
            describes(d, "harmoniq.effects.autofilter"@, "Auto Filter"@, None),
    {
        PluginDescriptor::new("harmoniq.effects.autofilter", "Auto Filter", "Harmoniq Labs")
    }
}

/// Factory of the stereo enhancer.
pub struct StereoEnhancerFactory;

impl StereoEnhancerFactory {
    /// The descriptor the factory registers.
    pub fn descriptor(&self) -> (d: PluginDescriptor)
        ensures
            describes(d, "harmoniq.effects.stereo_enhancer"@, "Stereo Enhancer"@, None),
    {
        PluginDescriptor::new("harmoniq.effects.stereo_enhancer", "Stereo Enhancer", "Harmoniq Labs")
    }
}

/// Factory of the noise gate.
pub struct NoiseGateFactory;

impl NoiseGateFactory {
    /// The descriptor the factory registers.
    pub fn descriptor(&self) -> (d: PluginDescriptor)
        ensures
            describes(d, "harmoniq.effects.noise_gate"@, "Noise Gate"@, None),
    {
        PluginDescriptor::new("harmoniq.effects.noise_gate", "Noise Gate", "Harmoniq Labs")
    }
}

/// Factory of the sine generator.
pub struct SineSynthFactory;

impl SineSynthFactory {
    /// The descriptor the factory registers.
    pub fn descriptor(&self) -> (d: PluginDescriptor)
        ensures
            describes(d, "harmoniq.sine"@, "Sine Synth"@, Some("Basic anti-aliased sine oscillator for testing"@)),
    {
        PluginDescriptor::new("harmoniq.sine", "Sine Synth", "Harmoniq Labs").with_description(
            "Basic anti-aliased sine oscillator for testing",
        )
    }
}

/// Factory of the noise generator.
pub struct NoisePluginFactory;

impl NoisePluginFactory {
    /// The descriptor the factory registers.
    pub fn descriptor(&self) -> (d: PluginDescriptor)
        ensures
            describes(d, "harmoniq.noise"@, "Noise"@, None),
    {
        PluginDescriptor::new("harmoniq.noise", "Noise", "Harmoniq Labs")
    }
}

/// Factory of the subtractive synthesizer.
pub struct AnalogSynthFactory;

impl AnalogSynthFactory {
    /// The descriptor the factory registers.
    pub fn descriptor(&self) -> (d: PluginDescriptor)
        ensures
            describes(d, "harmoniq.analog"@, "Analog Synth"@, Some("Basic subtractive synthesizer"@)),
    {
        PluginDescriptor::new("harmoniq.analog", "Analog Synth", "Harmoniq Labs").with_description(
            "Basic subtractive synthesizer",
        )
    }
}

/// Factory of the FM synthesizer.
pub struct FmSynthFactory;

impl FmSynthFactory {
    /// The descriptor the factory registers.
    pub fn descriptor(&self) -> (d: PluginDescriptor)
        ensures
            describes(d, "harmoniq.fm"@, "FM Synth"@, Some("Two-operator FM synthesizer"@)),
    {
        PluginDescriptor::new("harmoniq.fm", "FM Synth", "Harmoniq Labs").with_description(
            "Two-operator FM synthesizer",
        )
    }
}

/// Factory of the wavetable synthesizer.
pub struct WavetableSynthFactory;

impl WavetableSynthFactory {
    /// The descriptor the factory registers.
    pub fn descriptor(&self) -> (d: PluginDescriptor)
        ensures
            describes(d, "harmoniq.wavetable"@, "Wavetable Synth"@, None),
    {
        PluginDescriptor::new("harmoniq.wavetable", "Wavetable Synth", "Harmoniq Labs")
    }
}

/// Factory of the sampler.
pub struct SamplerFactory;

impl SamplerFactory {
    /// The descriptor the factory registers.
    pub fn descriptor(&self) -> (d: PluginDescriptor)
        ensures
            describes(d, "harmoniq.sampler"@, "Sampler"@, None),
    {
        PluginDescriptor::new("harmoniq.sampler", "Sampler", "Harmoniq Labs")
    }
}

/// Factory of the granular synthesizer.
pub struct GranularSynthFactory;

impl GranularSynthFactory {
    /// The descriptor the factory registers.
    pub fn descriptor(&self) -> (d: PluginDescriptor)
        ensures
            describes(d, "harmoniq.granular"@, "Granular Synth"@, None),
    {
        PluginDescriptor::new("harmoniq.granular", "Granular Synth", "Harmoniq Labs")
    }
}

/// Factory of the additive synthesizer.
pub struct AdditiveSynthFactory;

impl AdditiveSynthFactory {
    /// The descriptor the factory registers.
    pub fn descriptor(&self) -> (d: PluginDescriptor)
        ensures
            describes(d, "harmoniq.additive"@, "Additive Synth"@, None),
    {
        PluginDescriptor::new("harmoniq.additive", "Additive Synth", "Harmoniq Labs")
    }
}

/// Factory of the organ and piano engine.
pub struct OrganPianoFactory;

impl OrganPianoFactory {
    /// The descriptor the factory registers.
    pub fn descriptor(&self) -> (d: PluginDescriptor)
        ensures
            describes(d, "harmoniq.organ_piano"@, "Organ/Piano"@, None),
    {
        PluginDescriptor::new("harmoniq.organ_piano", "Organ/Piano", "Harmoniq Labs")
    }
}

/// Factory of the bass synthesizer.
pub struct BassSynthFactory;

impl BassSynthFactory {
    /// The descriptor the factory registers.
    pub fn descriptor(&self) -> (d: PluginDescriptor)
        ensures
            describes(d, "harmoniq.bass"@, "Mini Moog Bass"@, None),
    {
        PluginDescriptor::new("harmoniq.bass", "Mini Moog Bass", "Harmoniq Labs")
    }
}

/// Factory of the portamento lead.
pub struct WestCoastLeadFactory;

impl WestCoastLeadFactory {
    /// The descriptor the factory registers.
    pub fn descriptor(&self) -> (d: PluginDescriptor)
        ensures
            describes(d, "harmoniq.westcoast"@, "West Coast Lead"@, Some("Portamento sine lead inspired by classic West Coast rap"@)),
    {
        PluginDescriptor::new("harmoniq.westcoast", "West Coast Lead", "Harmoniq Labs").with_description(
            "Portamento sine lead inspired by classic West Coast rap",
        )
    }
}

} // verus!
