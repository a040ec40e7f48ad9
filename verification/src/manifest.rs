//! Typed model and validator for WRAC plugin manifests (`wrac-plugin.toml`).
//!
//! Reading the file and decoding its TOML happen at the program edge; this
//! module holds the manifest types, the identifier encodings, and the rules a
//! manifest must satisfy.
use vstd::prelude::*;
use crate::text::{
    cat3, decimal, push_decimal,
    owned, push_str, string_views,
    cat, chars_of, hex_value, is_hex, is_hex_digit, hex_digit_value, str_eq,
};

verus! {

/// Package information that a manifest may carry.
#[derive(Debug, Clone)]
pub struct ManifestPackageInfo {
    pub package_name: Option<String>,
    pub version: Option<String>,
    pub repository: Option<String>,
}

/// Plugin formats a product can be built as.
#[derive(Debug, Clone, Copy, PartialEq, Eq, Structural, Hash)]
pub enum PluginFormat {
    Clap,
    Vst3,
    Au,
    Aax,
}

/// Whether a format is shipped or only used during development.
#[derive(Debug, Clone, Copy, PartialEq, Eq, Structural)]
pub enum FormatDistribution {
    DevelopmentOnly,
    Public,
}

/// One entry of `bundle.formats`.
#[derive(Debug, Clone, Copy, PartialEq, Eq, Structural)]
pub struct PluginFormatDefinition {
    pub format: PluginFormat,
    pub distribution: FormatDistribution,
}

/// One AAX stem configuration of a product.
#[derive(Debug, Clone)]
pub struct AaxStemConfig {
    pub name: String,
    pub input: String,
    pub output: String,
    pub plugin_id: String,
}

/// One product exposed by the plugin bundle.
#[derive(Debug, Clone)]
pub struct PluginProduct {
    pub plugin_id: String,
    pub plugin_name: String,
    pub clap_features: Vec<String>,
    pub vst3_subcategories: String,
    pub vst3_component_id: String,
    pub standalone_name: String,
    /// Controls physical audio capture in the development standalone app independently of the
    /// plugin buses that remain visible to DAW hosts.
    pub standalone_audio_input: bool,
    pub auv2_type: String,
    pub auv2_subtype: String,
    pub aax_categories: Option<Vec<String>>,
    pub aax_product_id: Option<String>,
    pub aax_stem_configs: Vec<AaxStemConfig>,
}

/// A plugin manifest.
#[derive(Debug, Clone)]
pub struct PluginManifest {
    pub package: ManifestPackageInfo,
    pub company_name: String,
    pub auv2_manufacturer_code: String,
    pub aax_manufacturer_id: Option<String>,
    pub bundle_name: String,
    pub bundle_identifier: String,
    pub homepage_url: String,
    pub manual_url: String,
    pub support_url: String,
    pub description: String,
    pub copyright: String,
    pub formats: Vec<PluginFormatDefinition>,
    pub plugins: Vec<PluginProduct>,
}

/// Where a manifest was found.
#[derive(Debug, Clone)]
pub enum ManifestSource {
    /// A dedicated `wrac-plugin.toml` at the given path.
    Dedicated(String),
}

/// The display name of a format.
pub open spec fn format_display(f: PluginFormat) -> Seq<char> {
    match f {
        PluginFormat::Clap => "CLAP"@,
        PluginFormat::Vst3 => "VST3"@,
        PluginFormat::Au => "AU"@,
        PluginFormat::Aax => "AAX"@,
    }
}

impl PluginFormat {
    /// The display name of the format.
    pub fn display(self) -> (r: &'static str)
        ensures
            r@ == format_display(self),
    {
        match self {
            PluginFormat::Clap => "CLAP",
            PluginFormat::Vst3 => "VST3",
            PluginFormat::Au => "AU",
            PluginFormat::Aax => "AAX",
        }
    }
}

/// Whether some definition in `fs` declares format `f`.
pub open spec fn formats_contain(fs: Seq<PluginFormatDefinition>, f: PluginFormat) -> bool {
    exists|i: int| 0 <= i < fs.len() && fs[i].format == f
}

/// Exactly four ASCII characters.
pub open spec fn four_ascii(v: Seq<char>) -> bool {
    v.len() == 4 && ascii(v)
}

/// Only ASCII characters.
pub open spec fn ascii(v: Seq<char>) -> bool {
    forall|i: int| 0 <= i < v.len() ==> (#[trigger] v[i] as u32) < 128
}

/// The message for a value that is not four ASCII bytes.
pub open spec fn four_ascii_message(v: Seq<char>) -> Seq<char> {
    v + " must be exactly 4 ASCII bytes"@
}

/// The four bytes of a four-character ASCII value.
pub open spec fn ascii_bytes(v: Seq<char>) -> Seq<u8> {
    v.map_values(|c: char| (c as u32) as u8)
}

/// The bytes of `value` when it is exactly four ASCII characters.
pub fn four_ascii_bytes(value: &str) -> (r: Result<[u8; 4], String>)
    ensures
        r is Ok <==> four_ascii(value@),
        r matches Ok(b) ==> b@ == ascii_bytes(value@),
        r matches Err(e) ==> e@ == four_ascii_message(value@),
{
    let cs = chars_of(value);
    let mut ok = cs.len() == 4;
    let mut i: usize = 0;
    while i < cs.len()
        invariant
            i <= cs.len(),
            cs@ == value@,
            ok == (cs.len() == 4 && forall|j: int| 0 <= j < i ==> (#[trigger] cs@[j] as u32) < 128),
        decreases cs.len() - i,
    {
        if (cs[i] as u32) >= 128 {
            ok = false;
        }
        i += 1;
    }
    if !ok {
        return Err(cat(value, " must be exactly 4 ASCII bytes"));
    }
    let b = [(cs[0] as u32) as u8, (cs[1] as u32) as u8, (cs[2] as u32) as u8, (cs[3] as u32) as u8];
    assert(b@ =~= ascii_bytes(value@));
    Ok(b)
}

/// The big-endian number formed by four bytes.
pub open spec fn big_endian(b: Seq<u8>) -> nat {
    (b[0] as nat) * 16777216 + (b[1] as nat) * 65536 + (b[2] as nat) * 256 + (b[3] as nat)
}

/// A four-character ASCII code as a big-endian number.
pub fn fourcc(value: &str) -> (r: Result<u32, String>)
    ensures
        r is Ok <==> four_ascii(value@),
        r matches Ok(n) ==> n as nat == big_endian(ascii_bytes(value@)),
        r matches Err(e) ==> e@ == four_ascii_message(value@),
{
    let bytes = four_ascii_bytes(value)?;
    let b0 = bytes[0];
    let b1 = bytes[1];
    let b2 = bytes[2];
    let b3 = bytes[3];
    let n = ((b0 as u32) << 24) | ((b1 as u32) << 16) | ((b2 as u32) << 8) | (b3 as u32);
    assert(n == (b0 as u32) * 16777216 + (b1 as u32) * 65536 + (b2 as u32) * 256 + (b3 as u32))
        by (bit_vector)
        requires
            n == ((b0 as u32) << 24) | ((b1 as u32) << 16) | ((b2 as u32) << 8) | (b3 as u32),
    ;
    Ok(n)
}

/// The value with every `c` removed.
pub open spec fn remove_char(s: Seq<char>, c: char) -> Seq<char>
    decreases s.len(),
{
    if s.len() == 0 {
        s
    } else if s.last() == c {
        remove_char(s.drop_last(), c)
    } else {
        remove_char(s.drop_last(), c).push(s.last())
    }
}

/// Whether a dash-free component identifier is 32 hexadecimal digits.
pub open spec fn uuid_hex_valid(hex: Seq<char>) -> bool {
    hex.len() == 32 && forall|i: int| 0 <= i < 32 ==> is_hex(#[trigger] hex[i])
}

/// Byte `k` of the identifier written as hexadecimal text.
pub open spec fn hex_byte(hex: Seq<char>, k: int) -> u8 {
    (hex_value(hex[2 * k]) * 16 + hex_value(hex[2 * k + 1])) as u8
}

/// The identifier bytes in the clap-wrapper TUID order: the first three
/// groups of the UUID are byte-swapped.
pub open spec fn tuid_bytes(hex: Seq<char>) -> Seq<u8> {
    seq![
        hex_byte(hex, 3), hex_byte(hex, 2), hex_byte(hex, 1), hex_byte(hex, 0),
        hex_byte(hex, 5), hex_byte(hex, 4), hex_byte(hex, 7), hex_byte(hex, 6),
        hex_byte(hex, 8), hex_byte(hex, 9), hex_byte(hex, 10), hex_byte(hex, 11),
        hex_byte(hex, 12), hex_byte(hex, 13), hex_byte(hex, 14), hex_byte(hex, 15),
    ]
}

/// The message for an identifier that is not a UUID.
pub open spec fn uuid_message(v: Seq<char>) -> Seq<char> {
    "vst3_component_id must be a UUID: "@ + v
}

fn without_dashes(value: &str) -> (hex: Vec<char>)
    ensures
        hex@ == remove_char(value@, '-'),
{
    let cs = chars_of(value);
    let mut hex: Vec<char> = Vec::new();
    let mut i: usize = 0;
    while i < cs.len()
        invariant
            i <= cs.len(),
            cs@ == value@,
            hex@ == remove_char(cs@.take(i as int), '-'),
        decreases cs.len() - i,
    {
        proof {
            assert(cs@.take(i + 1).drop_last() =~= cs@.take(i as int));
        }
        if cs[i] != '-' {
            hex.push(cs[i]);
        }
        i += 1;
    }
    assert(cs@.take(cs.len() as int) =~= cs@);
    hex
}

fn is_uuid_hex(hex: &Vec<char>) -> (r: bool)
    ensures
        r == uuid_hex_valid(hex@),
{
    if hex.len() != 32 {
        return false;
    }
    let mut k: usize = 0;
    while k < hex.len()
        invariant
            k <= hex.len() == 32,
            forall|j: int| 0 <= j < k ==> is_hex(#[trigger] hex@[j]),
        decreases hex.len() - k,
    {
        if !is_hex_digit(hex[k]) {
            return false;
        }
        k += 1;
    }
    true
}

fn hex_pairs(hex: &Vec<char>) -> (bytes: Vec<u8>)
    requires
        uuid_hex_valid(hex@),
    ensures
        bytes.len() == 16,
        forall|j: int| 0 <= j < 16 ==> #[trigger] bytes@[j] == hex_byte(hex@, j),
{
    let mut bytes: Vec<u8> = Vec::new();
    let mut n: usize = 0;
    while n < 16
        invariant
            n <= 16,
            hex.len() == 32,
            uuid_hex_valid(hex@),
            bytes.len() == n,
            forall|j: int| 0 <= j < n ==> #[trigger] bytes@[j] == hex_byte(hex@, j),
        decreases 16 - n,
    {
        let hi = hex_digit_value(hex[2 * n]);
        let lo = hex_digit_value(hex[2 * n + 1]);
        bytes.push(hi * 16 + lo);
        n += 1;
    }
    bytes
}

/// The VST3 component identifier bytes of a UUID written with or without dashes.
pub fn vst3_component_id_bytes(value: &str) -> (r: Result<[u8; 16], String>)
    ensures
        r is Ok <==> uuid_hex_valid(remove_char(value@, '-')),
        r matches Ok(b) ==> b@ == tuid_bytes(remove_char(value@, '-')),
        r matches Err(e) ==> e@ == uuid_message(value@),
{
    let hex = without_dashes(value);
    if !is_uuid_hex(&hex) {
        return Err(cat("vst3_component_id must be a UUID: ", value));
    }
    let bytes = hex_pairs(&hex);
    let b = [
        bytes[3], bytes[2], bytes[1], bytes[0], bytes[5], bytes[4], bytes[7], bytes[6],
        bytes[8], bytes[9], bytes[10], bytes[11], bytes[12], bytes[13], bytes[14], bytes[15],
    ];
    assert(b@ =~= tuid_bytes(hex@));
    Ok(b)
}

/// The CLAP feature name that a manifest feature value stands for.
pub open spec fn clap_feature_name(f: Seq<char>) -> Option<Seq<char>> {
    if f == "audio-effect"@ { Some("AudioEffect"@) }
    else if f == "analyzer"@ { Some("Analyzer"@) }
    else if f == "ambisonic"@ { Some("Ambisonic"@) }
    else if f == "chorus"@ { Some("Chorus"@) }
    else if f == "compressor"@ { Some("Compressor"@) }
    else if f == "de-esser"@ { Some("DeEsser"@) }
    else if f == "delay"@ { Some("Delay"@) }
    else if f == "instrument"@ { Some("Instrument"@) }
    else if f == "note-effect"@ { Some("NoteEffect"@) }
    else if f == "note-detector"@ { Some("NoteDetector"@) }
    else if f == "drum"@ { Some("Drum"@) }
    else if f == "drum-machine"@ { Some("DrumMachine"@) }
    else if f == "equalizer"@ { Some("Equalizer"@) }
    else if f == "expander"@ { Some("Expander"@) }
    else if f == "filter"@ { Some("Filter"@) }
    else if f == "flanger"@ { Some("Flanger"@) }
    else if f == "frequency-shifter"@ { Some("FrequencyShifter"@) }
    else if f == "gate"@ { Some("Gate"@) }
    else if f == "glitch"@ { Some("Glitch"@) }
    else if f == "granular"@ { Some("Granular"@) }
    else if f == "distortion"@ { Some("Distortion"@) }
    else if f == "limiter"@ { Some("Limiter"@) }
    else if f == "mastering"@ { Some("Mastering"@) }
    else if f == "mixing"@ { Some("Mixing"@) }
    else if f == "mono"@ { Some("Mono"@) }
    else if f == "multi-effects"@ { Some("MultiEffects"@) }
    else if f == "phaser"@ { Some("Phaser"@) }
    else if f == "phase-vocoder"@ { Some("PhaseVocoder"@) }
    else if f == "pitch-correction"@ { Some("PitchCorrection"@) }
    else if f == "pitch-shifter"@ { Some("PitchShifter"@) }
    else if f == "restoration"@ { Some("Restoration"@) }
    else if f == "reverb"@ { Some("Reverb"@) }
    else if f == "sampler"@ { Some("Sampler"@) }
    else if f == "stereo"@ { Some("Stereo"@) }
    else if f == "surround"@ { Some("Surround"@) }
    else if f == "synthesizer"@ { Some("Synthesizer"@) }
    else if f == "transient-shaper"@ { Some("TransientShaper"@) }
    else if f == "tremolo"@ { Some("Tremolo"@) }
    else if f == "utility"@ { Some("Utility"@) }
    else { None }
}

/// The CLAP feature name for a manifest feature value, if it is supported.
pub fn clap_feature_variant(feature: &str) -> (r: Option<&'static str>)
    ensures
        r is Some <==> clap_feature_name(feature@) is Some,
        r matches Some(v) ==> v@ == clap_feature_name(feature@)->0,
{
    let f = feature;
    if str_eq(f, "audio-effect") { Some("AudioEffect") }
    else if str_eq(f, "analyzer") { Some("Analyzer") }
    else if str_eq(f, "ambisonic") { Some("Ambisonic") }
    else if str_eq(f, "chorus") { Some("Chorus") }
    else if str_eq(f, "compressor") { Some("Compressor") }
    else if str_eq(f, "de-esser") { Some("DeEsser") }
    else if str_eq(f, "delay") { Some("Delay") }
    else if str_eq(f, "instrument") { Some("Instrument") }
    else if str_eq(f, "note-effect") { Some("NoteEffect") }
    else if str_eq(f, "note-detector") { Some("NoteDetector") }
    else if str_eq(f, "drum") { Some("Drum") }
    else if str_eq(f, "drum-machine") { Some("DrumMachine") }
    else if str_eq(f, "equalizer") { Some("Equalizer") }
    else if str_eq(f, "expander") { Some("Expander") }
    else if str_eq(f, "filter") { Some("Filter") }
    else if str_eq(f, "flanger") { Some("Flanger") }
    else if str_eq(f, "frequency-shifter") { Some("FrequencyShifter") }
    else if str_eq(f, "gate") { Some("Gate") }
    else if str_eq(f, "glitch") { Some("Glitch") }
    else if str_eq(f, "granular") { Some("Granular") }
    else if str_eq(f, "distortion") { Some("Distortion") }
    else if str_eq(f, "limiter") { Some("Limiter") }
    else if str_eq(f, "mastering") { Some("Mastering") }
    else if str_eq(f, "mixing") { Some("Mixing") }
    else if str_eq(f, "mono") { Some("Mono") }
    else if str_eq(f, "multi-effects") { Some("MultiEffects") }
    else if str_eq(f, "phaser") { Some("Phaser") }
    else if str_eq(f, "phase-vocoder") { Some("PhaseVocoder") }
    else if str_eq(f, "pitch-correction") { Some("PitchCorrection") }
    else if str_eq(f, "pitch-shifter") { Some("PitchShifter") }
    else if str_eq(f, "restoration") { Some("Restoration") }
    else if str_eq(f, "reverb") { Some("Reverb") }
    else if str_eq(f, "sampler") { Some("Sampler") }
    else if str_eq(f, "stereo") { Some("Stereo") }
    else if str_eq(f, "surround") { Some("Surround") }
    else if str_eq(f, "synthesizer") { Some("Synthesizer") }
    else if str_eq(f, "transient-shaper") { Some("TransientShaper") }
    else if str_eq(f, "tremolo") { Some("Tremolo") }
    else if str_eq(f, "utility") { Some("Utility") }
    else { None }
}

/// Succeeds when `feature` is a supported CLAP feature value.
pub fn validate_clap_feature(feature: &str) -> (r: Result<(), String>)
    ensures
        r is Ok <==> clap_feature_name(feature@) is Some,
        r matches Err(e) ==> e@ == "unsupported CLAP feature value: "@ + feature@,
{
    match clap_feature_variant(feature) {
        Some(_) => Ok(()),
        None => Err(cat("unsupported CLAP feature value: ", feature)),
    }
}

/// The AAX plug-in category bit of a manifest category value.
pub open spec fn aax_category_value(c: Seq<char>) -> Option<u32> {
    if c == "eq"@ { Some(0x0000_0001u32) }
    else if c == "dynamics"@ { Some(0x0000_0002u32) }
    else if c == "pitch-shift"@ { Some(0x0000_0004u32) }
    else if c == "reverb"@ { Some(0x0000_0008u32) }
    else if c == "delay"@ { Some(0x0000_0010u32) }
    else if c == "modulation"@ { Some(0x0000_0020u32) }
    else if c == "harmonic"@ { Some(0x0000_0040u32) }
    else if c == "noise-reduction"@ { Some(0x0000_0080u32) }
    else if c == "dither"@ { Some(0x0000_0100u32) }
    else if c == "sound-field"@ { Some(0x0000_0200u32) }
    else if c == "hardware-generator"@ { Some(0x0000_0400u32) }
    else if c == "software-generator"@ { Some(0x0000_0800u32) }
    else if c == "wrapped-plugin"@ { Some(0x0000_1000u32) }
    else if c == "effect"@ { Some(0x0000_2000u32) }
    else if c == "midi-effect"@ { Some(0x0001_0000u32) }
    else { None }
}

/// The AAX category bit of a manifest category value.
pub fn aax_category_bits(category: &str) -> (r: Result<u32, String>)
    ensures
        r is Ok <==> aax_category_value(category@) is Some,
        r matches Ok(v) ==> v == aax_category_value(category@)->0,
        r matches Err(e) ==> e@ == "unsupported AAX category value: "@ + category@,
{
    let c = category;
    if str_eq(c, "eq") { Ok(0x0000_0001) }
    else if str_eq(c, "dynamics") { Ok(0x0000_0002) }
    else if str_eq(c, "pitch-shift") { Ok(0x0000_0004) }
    else if str_eq(c, "reverb") { Ok(0x0000_0008) }
    else if str_eq(c, "delay") { Ok(0x0000_0010) }
    else if str_eq(c, "modulation") { Ok(0x0000_0020) }
    else if str_eq(c, "harmonic") { Ok(0x0000_0040) }
    else if str_eq(c, "noise-reduction") { Ok(0x0000_0080) }
    else if str_eq(c, "dither") { Ok(0x0000_0100) }
    else if str_eq(c, "sound-field") { Ok(0x0000_0200) }
    else if str_eq(c, "hardware-generator") { Ok(0x0000_0400) }
    else if str_eq(c, "software-generator") { Ok(0x0000_0800) }
    else if str_eq(c, "wrapped-plugin") { Ok(0x0000_1000) }
    else if str_eq(c, "effect") { Ok(0x0000_2000) }
    else if str_eq(c, "midi-effect") { Ok(0x0001_0000) }
    else { Err(cat("unsupported AAX category value: ", category)) }
}

/// The AAX stem format value of a manifest stem format.
pub open spec fn aax_stem_value(f: Seq<char>) -> Option<u32> {
    if f == "mono"@ { Some(1u32) }
    else if f == "stereo"@ { Some(0x0001_0002u32) }
    else { None }
}

/// The AAX stem format value of a manifest stem format.
pub fn aax_stem_format_value(format: &str) -> (r: Result<u32, String>)
    ensures
        r is Ok <==> aax_stem_value(format@) is Some,
        r matches Ok(v) ==> v == aax_stem_value(format@)->0,
        r matches Err(e) ==> e@ == "AAX stem format must be mono or stereo: "@ + format@,
{
    if str_eq(format, "mono") {
        Ok(1)
    } else if str_eq(format, "stereo") {
        Ok(0x0001_0002)
    } else {
        Err(cat("AAX stem format must be mono or stereo: ", format))
    }
}

/// The error for a required value, if it is empty.
pub open spec fn required_error(key: Seq<char>, value: Seq<char>) -> Option<Seq<char>> {
    if value.len() == 0 {
        Some(key + " must not be empty"@)
    } else {
        None
    }
}

/// The error for a value that must be four ASCII bytes, if it is not.
pub open spec fn four_ascii_error(key: Seq<char>, value: Seq<char>) -> Option<Seq<char>> {
    if four_ascii(value) {
        None
    } else {
        Some(key + " must be exactly 4 ASCII bytes"@)
    }
}

/// Requires `value` to be non-empty.
pub fn validate_required(key: &str, value: &str) -> (r: Result<(), String>)
    ensures
        r is Err <==> required_error(key@, value@) is Some,
        r matches Err(e) ==> e@ == required_error(key@, value@)->0,
{
    if value.is_empty() {
        Err(cat(key, " must not be empty"))
    } else {
        Ok(())
    }
}

/// Requires `value` to be exactly four ASCII bytes.
pub fn validate_four_ascii(key: &str, value: &str) -> (r: Result<(), String>)
    ensures
        r is Err <==> four_ascii_error(key@, value@) is Some,
        r matches Err(e) ==> e@ == four_ascii_error(key@, value@)->0,
{
    match four_ascii_bytes(value) {
        Ok(_) => Ok(()),
        Err(_) => Err(cat(key, " must be exactly 4 ASCII bytes")),
    }
}

} // verus!

verus! {

/// The first of two possible errors.
pub open spec fn first_error(a: Option<Seq<char>>, b: Option<Seq<char>>) -> Option<Seq<char>> {
    if a is Some {
        a
    } else {
        b
    }
}

/// The first format entry that repeats an earlier one, as an error.
pub open spec fn format_dup_error(label: Seq<char>, fs: Seq<PluginFormatDefinition>) -> Option<
    Seq<char>,
>
    decreases fs.len(),
{
    if fs.len() == 0 {
        None
    } else {
        first_error(
            format_dup_error(label, fs.drop_last()),
            if formats_contain(fs.drop_last(), fs.last().format) {
                Some("duplicate "@ + label + ".formats entry: "@ + format_display(fs.last().format))
            } else {
                None
            },
        )
    }
}

/// The first error among the items of `s`, where `item` judges one item
/// given the items before it.
pub open spec fn first_item_error<A>(s: Seq<A>, item: spec_fn(Seq<A>, A) -> Option<Seq<char>>) -> Option<
    Seq<char>,
>
    decreases s.len(),
{
    if s.len() == 0 {
        None
    } else {
        first_error(first_item_error(s.drop_last(), item), item(s.drop_last(), s.last()))
    }
}

/// The first unsupported CLAP feature value, as an error.
pub open spec fn feature_error(label: Seq<char>, fs: Seq<Seq<char>>) -> Option<Seq<char>> {
    first_item_error(fs, feature_item(label))
}

/// The error of one CLAP feature value.
pub open spec fn feature_item(label: Seq<char>) -> spec_fn(Seq<Seq<char>>, Seq<char>) -> Option<Seq<char>> {
    |earlier: Seq<Seq<char>>, f: Seq<char>|
        if clap_feature_name(f) is None {
            Some("unsupported "@ + label + ".plugins.clap_features value: "@ + f)
        } else {
            None
        }
}

/// The first unsupported AAX category value, as an error.
pub open spec fn category_error(cs: Seq<Seq<char>>) -> Option<Seq<char>> {
    first_item_error(cs, category_item())
}

/// The error of one AAX category value.
pub open spec fn category_item() -> spec_fn(Seq<Seq<char>>, Seq<char>) -> Option<Seq<char>> {
    |earlier: Seq<Seq<char>>, c: Seq<char>|
        if aax_category_value(c) is None {
            Some("unsupported AAX category value: "@ + c)
        } else {
            None
        }
}

/// The error for an AAX stem format value, if it is not supported.
pub open spec fn stem_format_error(f: Seq<char>) -> Option<Seq<char>> {
    if aax_stem_value(f) is None {
        Some("AAX stem format must be mono or stereo: "@ + f)
    } else {
        None
    }
}

/// Whether an earlier stem configuration uses the AAX plug-in id `id`.
pub open spec fn stem_id_taken(earlier: Seq<AaxStemConfig>, id: Seq<char>) -> bool {
    exists|j: int| 0 <= j < earlier.len() && earlier[j].plugin_id@ == id
}

/// The error of one stem configuration, given the configurations before it.
pub open spec fn stem_error(label: Seq<char>, st: AaxStemConfig, earlier: Seq<AaxStemConfig>) -> Option<
    Seq<char>,
> {
    first_error(
        required_error(label + ".plugins.aax_stem_configs.name"@, st.name@),
        first_error(
            stem_format_error(st.input@),
            first_error(
                stem_format_error(st.output@),
                first_error(
                    four_ascii_error(label + ".plugins.aax_stem_configs.plugin_id"@, st.plugin_id@),
                    if stem_id_taken(earlier, st.plugin_id@) {
                        Some(
                            "duplicate "@ + label + ".plugins.aax_stem_configs plugin_id: "@
                                + st.plugin_id@,
                        )
                    } else {
                        None
                    },
                ),
            ),
        ),
    )
}

/// The first error among a product's stem configurations.
pub open spec fn stems_error(label: Seq<char>, ss: Seq<AaxStemConfig>) -> Option<Seq<char>> {
    first_item_error(ss, stem_item(label))
}

/// The error of one stem configuration.
pub open spec fn stem_item(label: Seq<char>) -> spec_fn(Seq<AaxStemConfig>, AaxStemConfig) -> Option<Seq<char>> {
    |earlier: Seq<AaxStemConfig>, st: AaxStemConfig| stem_error(label, st, earlier)
}

/// The errors that only apply when the bundle ships AAX.
pub open spec fn plugin_aax_error(label: Seq<char>, p: PluginProduct) -> Option<Seq<char>> {
    match p.aax_categories {
        None => Some(label + ".plugins.aax_categories is required when formats contains aax"@),
        Some(cats) => if cats@.len() == 0 {
            Some(label + ".plugins.aax_categories must not be empty"@)
        } else {
            first_error(
                category_error(string_views(cats@)),
                match p.aax_product_id {
                    None => Some(
                        label + ".plugins.aax_product_id is required when formats contains aax"@,
                    ),
                    Some(id) => first_error(
                        four_ascii_error(label + ".plugins.aax_product_id"@, id@),
                        if p.aax_stem_configs@.len() == 0 {
                            Some(label + ".plugins.aax_stem_configs must not be empty"@)
                        } else {
                            None
                        },
                    ),
                },
            )
        },
    }
}

/// Whether an earlier product uses plug-in id `id`.
pub open spec fn plugin_id_taken(earlier: Seq<PluginProduct>, id: Seq<char>) -> bool {
    exists|j: int| 0 <= j < earlier.len() && earlier[j].plugin_id@ == id
}

/// Whether an earlier product uses standalone name `n`.
pub open spec fn standalone_name_taken(earlier: Seq<PluginProduct>, n: Seq<char>) -> bool {
    exists|j: int| 0 <= j < earlier.len() && earlier[j].standalone_name@ == n
}

/// Whether an earlier product uses the AUv2 type and subtype `t`/`s`.
pub open spec fn auv2_taken(earlier: Seq<PluginProduct>, t: Seq<char>, s: Seq<char>) -> bool {
    exists|j: int| 0 <= j < earlier.len() && earlier[j].auv2_type@ == t && earlier[j].auv2_subtype@ == s
}

/// The identity checks of a product against the products before it.
pub open spec fn plugin_dup_error(label: Seq<char>, p: PluginProduct, earlier: Seq<PluginProduct>) -> Option<
    Seq<char>,
> {
    if plugin_id_taken(earlier, p.plugin_id@) {
        Some("duplicate "@ + label + ".plugins plugin_id: "@ + p.plugin_id@)
    } else if standalone_name_taken(earlier, p.standalone_name@) {
        Some("duplicate "@ + label + ".plugins standalone_name: "@ + p.standalone_name@)
    } else if auv2_taken(earlier, p.auv2_type@, p.auv2_subtype@) {
        Some(
            "duplicate "@ + label + ".plugins AUv2 type/subtype: "@ + p.auv2_type@ + "/"@
                + p.auv2_subtype@,
        )
    } else {
        None
    }
}

/// The checks of a product's own fields, in manifest order.
pub open spec fn plugin_field_error(label: Seq<char>, p: PluginProduct, aax: bool) -> Option<Seq<char>> {
    first_error(
        required_error(label + ".plugins.plugin_id"@, p.plugin_id@),
        first_error(
            required_error(label + ".plugins.plugin_name"@, p.plugin_name@),
            first_error(
                if p.clap_features@.len() == 0 {
                    Some(label + ".plugins.clap_features must not be empty"@)
                } else {
                    feature_error(label, string_views(p.clap_features@))
                },
                first_error(
                    required_error(label + ".plugins.vst3_subcategories"@, p.vst3_subcategories@),
                    first_error(
                        if uuid_hex_valid(remove_char(p.vst3_component_id@, '-')) {
                            None
                        } else {
                            Some(uuid_message(p.vst3_component_id@))
                        },
                        first_error(
                            required_error(label + ".plugins.standalone_name"@, p.standalone_name@),
                            first_error(
                                four_ascii_error(label + ".plugins.auv2_type"@, p.auv2_type@),
                                first_error(
                                    four_ascii_error(label + ".plugins.auv2_subtype"@, p.auv2_subtype@),
                                    if aax {
                                        plugin_aax_error(label, p)
                                    } else {
                                        None
                                    },
                                ),
                            ),
                        ),
                    ),
                ),
            ),
        ),
    )
}

/// The first error of one product, given the products before it.
pub open spec fn plugin_error(label: Seq<char>, p: PluginProduct, earlier: Seq<PluginProduct>, aax: bool) -> Option<
    Seq<char>,
> {
    first_error(
        plugin_field_error(label, p, aax),
        first_error(stems_error(label, p.aax_stem_configs@), plugin_dup_error(label, p, earlier)),
    )
}

/// The first error among the products.
pub open spec fn plugins_error(label: Seq<char>, ps: Seq<PluginProduct>, aax: bool) -> Option<Seq<char>> {
    first_item_error(ps, plugin_item(label, aax))
}

/// The error of one product.
pub open spec fn plugin_item(label: Seq<char>, aax: bool) -> spec_fn(Seq<PluginProduct>, PluginProduct) -> Option<Seq<char>> {
    |earlier: Seq<PluginProduct>, p: PluginProduct| plugin_error(label, p, earlier, aax)
}

/// The first error among the bundle-level text fields.
pub open spec fn bundle_fields_error(label: Seq<char>, m: PluginManifest) -> Option<Seq<char>> {
    first_error(
        required_error(label + ".company_name"@, m.company_name@),
        first_error(
            four_ascii_error(label + ".auv2_manufacturer_code"@, m.auv2_manufacturer_code@),
            first_error(
                required_error(label + ".bundle_name"@, m.bundle_name@),
                first_error(
                    required_error(label + ".bundle_identifier"@, m.bundle_identifier@),
                    first_error(
                        required_error(label + ".homepage_url"@, m.homepage_url@),
                        first_error(
                            required_error(label + ".manual_url"@, m.manual_url@),
                            first_error(
                                required_error(label + ".support_url"@, m.support_url@),
                                first_error(
                                    required_error(label + ".description"@, m.description@),
                                    required_error(label + ".copyright"@, m.copyright@),
                                ),
                            ),
                        ),
                    ),
                ),
            ),
        ),
    )
}

/// The checks of the format list and of the AAX manufacturer id.
pub open spec fn formats_error(label: Seq<char>, m: PluginManifest) -> Option<Seq<char>> {
    if m.formats@.len() == 0 {
        Some(label + ".formats must not be empty"@)
    } else {
        first_error(
            format_dup_error(label, m.formats@),
            if formats_contain(m.formats@, PluginFormat::Aax) {
                match m.aax_manufacturer_id {
                    None => Some(label + ".aax_manufacturer_id is required when formats contains aax"@),
                    Some(id) => four_ascii_error(label + ".aax_manufacturer_id"@, id@),
                }
            } else {
                None
            },
        )
    }
}

/// The first rule a manifest breaks, as the message `validate` reports.
pub open spec fn manifest_error(label: Seq<char>, m: PluginManifest) -> Option<Seq<char>> {
    first_error(
        bundle_fields_error(label, m),
        first_error(
            formats_error(label, m),
            if m.plugins@.len() == 0 {
                Some(label + ".plugins must contain at least one plugin"@)
            } else {
                plugins_error(label, m.plugins@, formats_contain(m.formats@, PluginFormat::Aax))
            },
        ),
    )
}

/// Whether `fs[0..n]` declares format `f`.
fn format_in_prefix(fs: &Vec<PluginFormatDefinition>, n: usize, f: PluginFormat) -> (r: bool)
    requires
        n <= fs.len(),
    ensures
        r == formats_contain(fs@.take(n as int), f),
{
    let mut i: usize = 0;
    while i < n
        invariant
            i <= n <= fs.len(),
            forall|j: int| 0 <= j < i ==> fs@[j].format != f,
        decreases n - i,
    {
        if fs[i].format == f {
            assert(fs@.take(n as int)[i as int].format == f);
            return true;
        }
        i += 1;
    }
    false
}

fn validate_bundle_fields(m: &PluginManifest, label: &str) -> (r: Result<(), String>)
    ensures
        r is Err <==> bundle_fields_error(label@, *m) is Some,
        r matches Err(e) ==> e@ == bundle_fields_error(label@, *m)->0,
{
    validate_required(cat(label, ".company_name").as_str(), m.company_name.as_str())?;
    validate_four_ascii(cat(label, ".auv2_manufacturer_code").as_str(), m.auv2_manufacturer_code.as_str())?;
    validate_required(cat(label, ".bundle_name").as_str(), m.bundle_name.as_str())?;
    validate_required(cat(label, ".bundle_identifier").as_str(), m.bundle_identifier.as_str())?;
    validate_required(cat(label, ".homepage_url").as_str(), m.homepage_url.as_str())?;
    validate_required(cat(label, ".manual_url").as_str(), m.manual_url.as_str())?;
    validate_required(cat(label, ".support_url").as_str(), m.support_url.as_str())?;
    validate_required(cat(label, ".description").as_str(), m.description.as_str())?;
    validate_required(cat(label, ".copyright").as_str(), m.copyright.as_str())?;
    Ok(())
}

fn validate_formats(m: &PluginManifest, label: &str) -> (r: Result<bool, String>)
    ensures
        r is Err <==> formats_error(label@, *m) is Some,
        r matches Err(e) ==> e@ == formats_error(label@, *m)->0,
        r matches Ok(aax) ==> aax == formats_contain(m.formats@, PluginFormat::Aax),
{
    if m.formats.len() == 0 {
        return Err(cat(label, ".formats must not be empty"));
    }
    let fs = &m.formats;
    let mut i: usize = 0;
    while i < fs.len()
        invariant
            i <= fs.len(),
            fs@ == m.formats@,
            format_dup_error(label@, fs@.take(i as int)) is None,
        decreases fs.len() - i,
    {
        proof {
            assert(fs@.take(i + 1).drop_last() =~= fs@.take(i as int));
        }
        if format_in_prefix(fs, i, fs[i].format) {
            let mut e = owned("duplicate ");
            push_str(&mut e, label);
            push_str(&mut e, ".formats entry: ");
            push_str(&mut e, fs[i].format.display());
            proof {
                assert(fs@.take(i + 1).last() == fs@[i as int]);
                lemma_format_dup_prefix(label@, fs@, i as int);
            }
            return Err(e);
        }
        i += 1;
    }
    assert(fs@.take(fs.len() as int) =~= fs@);
    let aax = format_in_prefix(fs, fs.len(), PluginFormat::Aax);
    if aax {
        match &m.aax_manufacturer_id {
            None => {
                return Err(cat(label, ".aax_manufacturer_id is required when formats contains aax"));
            },
            Some(id) => {
                validate_four_ascii(cat(label, ".aax_manufacturer_id").as_str(), id.as_str())?;
            },
        }
    }
    Ok(aax)
}

/// A duplicate found at position `i` is the first one reported.
proof fn lemma_format_dup_prefix(label: Seq<char>, fs: Seq<PluginFormatDefinition>, i: int)
    requires
        0 <= i < fs.len(),
        format_dup_error(label, fs.take(i)) is None,
        formats_contain(fs.take(i), fs[i].format),
    ensures
        format_dup_error(label, fs) == Some(
            "duplicate "@ + label + ".formats entry: "@ + format_display(fs[i].format),
        ),
    decreases fs.len() - i,
{
    let t = fs.take(i + 1);
    assert(t.drop_last() =~= fs.take(i));
    assert(format_dup_error(label, t) == Some(
        "duplicate "@ + label + ".formats entry: "@ + format_display(fs[i].format),
    ));
    lemma_first_error_prefix_format(label, fs, i + 1);
}

/// Once a prefix reports an error, every longer prefix reports the same one.
proof fn lemma_first_error_prefix_format(label: Seq<char>, fs: Seq<PluginFormatDefinition>, n: int)
    requires
        0 <= n <= fs.len(),
        format_dup_error(label, fs.take(n)) is Some,
    ensures
        format_dup_error(label, fs) == format_dup_error(label, fs.take(n)),
    decreases fs.len() - n,
{
    if n < fs.len() {
        assert(fs.take(n + 1).drop_last() =~= fs.take(n));
        lemma_first_error_prefix_format(label, fs, n + 1);
    } else {
        assert(fs.take(n) =~= fs);
    }
}

} // verus!

verus! {

/// Extending an error-free prefix by one item reports that item's error.
pub proof fn lemma_first_item_step<A>(s: Seq<A>, item: spec_fn(Seq<A>, A) -> Option<Seq<char>>, i: int)
    requires
        0 <= i < s.len(),
        first_item_error(s.take(i), item) is None,
    ensures
        first_item_error(s.take(i + 1), item) == item(s.take(i), s[i]),
{
    assert(s.take(i + 1).drop_last() =~= s.take(i));
}

/// Once a prefix reports an error, the whole sequence reports the same one.
pub proof fn lemma_first_item_persist<A>(s: Seq<A>, item: spec_fn(Seq<A>, A) -> Option<Seq<char>>, n: int)
    requires
        0 <= n <= s.len(),
        first_item_error(s.take(n), item) is Some,
    ensures
        first_item_error(s, item) == first_item_error(s.take(n), item),
    decreases s.len() - n,
{
    if n < s.len() {
        assert(s.take(n + 1).drop_last() =~= s.take(n));
        lemma_first_item_persist(s, item, n + 1);
    } else {
        assert(s.take(n) =~= s);
    }
}

/// A fully checked sequence reports the same as its last prefix.
pub proof fn lemma_first_item_full<A>(s: Seq<A>, item: spec_fn(Seq<A>, A) -> Option<Seq<char>>)
    ensures
        first_item_error(s.take(s.len() as int), item) == first_item_error(s, item),
{
    assert(s.take(s.len() as int) =~= s);
}

} // verus!

verus! {

fn validate_features(label: &str, features: &Vec<String>) -> (r: Result<(), String>)
    ensures
        r is Err <==> feature_error(label@, string_views(features@)) is Some,
        r matches Err(e) ==> e@ == feature_error(label@, string_views(features@))->0,
{
    let ghost vs = string_views(features@);
    let mut i: usize = 0;
    while i < features.len()
        invariant
            i <= features.len(),
            vs == string_views(features@),
            first_item_error(vs.take(i as int), feature_item(label@)) is None,
        decreases features.len() - i,
    {
        proof {
            lemma_first_item_step(vs, feature_item(label@), i as int);
        }
        if clap_feature_variant(features[i].as_str()).is_none() {
            let mut e = owned("unsupported ");
            push_str(&mut e, label);
            push_str(&mut e, ".plugins.clap_features value: ");
            push_str(&mut e, features[i].as_str());
            proof {
                lemma_first_item_persist(vs, feature_item(label@), i + 1);
            }
            return Err(e);
        }
        i += 1;
    }
    proof {
        lemma_first_item_full(vs, feature_item(label@));
    }
    Ok(())
}

fn validate_categories(cats: &Vec<String>) -> (r: Result<(), String>)
    ensures
        r is Err <==> category_error(string_views(cats@)) is Some,
        r matches Err(e) ==> e@ == category_error(string_views(cats@))->0,
{
    let ghost vs = string_views(cats@);
    let mut i: usize = 0;
    while i < cats.len()
        invariant
            i <= cats.len(),
            vs == string_views(cats@),
            first_item_error(vs.take(i as int), category_item()) is None,
        decreases cats.len() - i,
    {
        proof {
            lemma_first_item_step(vs, category_item(), i as int);
        }
        match aax_category_bits(cats[i].as_str()) {
            Ok(_) => {},
            Err(e) => {
                proof {
                    lemma_first_item_persist(vs, category_item(), i + 1);
                }
                return Err(e);
            },
        }
        i += 1;
    }
    proof {
        lemma_first_item_full(vs, category_item());
    }
    Ok(())
}

fn stem_id_in_prefix(ss: &Vec<AaxStemConfig>, n: usize, id: &String) -> (r: bool)
    requires
        n <= ss.len(),
    ensures
        r == stem_id_taken(ss@.take(n as int), id@),
{
    let mut i: usize = 0;
    while i < n
        invariant
            i <= n <= ss.len(),
            forall|j: int| 0 <= j < i ==> ss@[j].plugin_id@ != id@,
        decreases n - i,
    {
        if ss[i].plugin_id == *id {
            assert(ss@.take(n as int)[i as int].plugin_id@ == id@);
            return true;
        }
        i += 1;
    }
    false
}

fn validate_stems(label: &str, ss: &Vec<AaxStemConfig>) -> (r: Result<(), String>)
    ensures
        r is Err <==> stems_error(label@, ss@) is Some,
        r matches Err(e) ==> e@ == stems_error(label@, ss@)->0,
{
    let mut i: usize = 0;
    while i < ss.len()
        invariant
            i <= ss.len(),
            first_item_error(ss@.take(i as int), stem_item(label@)) is None,
        decreases ss.len() - i,
    {
        proof {
            lemma_first_item_step(ss@, stem_item(label@), i as int);
        }
        let st = &ss[i];
        let res = validate_stem(label, st, ss, i);
        if res.is_err() {
            proof {
                lemma_first_item_persist(ss@, stem_item(label@), i + 1);
            }
            return res;
        }
        i += 1;
    }
    proof {
        lemma_first_item_full(ss@, stem_item(label@));
    }
    Ok(())
}

fn validate_stem(label: &str, st: &AaxStemConfig, ss: &Vec<AaxStemConfig>, i: usize) -> (r: Result<(), String>)
    requires
        i < ss.len(),
        *st == ss@[i as int],
    ensures
        r is Err <==> stem_error(label@, *st, ss@.take(i as int)) is Some,
        r matches Err(e) ==> e@ == stem_error(label@, *st, ss@.take(i as int))->0,
{
    validate_required(cat(label, ".plugins.aax_stem_configs.name").as_str(), st.name.as_str())?;
    aax_stem_format_value(st.input.as_str())?;
    aax_stem_format_value(st.output.as_str())?;
    validate_four_ascii(cat(label, ".plugins.aax_stem_configs.plugin_id").as_str(), st.plugin_id.as_str())?;
    if stem_id_in_prefix(ss, i, &st.plugin_id) {
        let mut e = owned("duplicate ");
        push_str(&mut e, label);
        push_str(&mut e, ".plugins.aax_stem_configs plugin_id: ");
        push_str(&mut e, st.plugin_id.as_str());
        return Err(e);
    }
    Ok(())
}

} // verus!

verus! {

fn validate_plugin_aax(label: &str, p: &PluginProduct) -> (r: Result<(), String>)
    ensures
        r is Err <==> plugin_aax_error(label@, *p) is Some,
        r matches Err(e) ==> e@ == plugin_aax_error(label@, *p)->0,
{
    match &p.aax_categories {
        None => {
            return Err(cat(label, ".plugins.aax_categories is required when formats contains aax"));
        },
        Some(cats) => {
            if cats.len() == 0 {
                return Err(cat(label, ".plugins.aax_categories must not be empty"));
            }
            validate_categories(cats)?;
        },
    }
    match &p.aax_product_id {
        None => {
            return Err(cat(label, ".plugins.aax_product_id is required when formats contains aax"));
        },
        Some(id) => {
            validate_four_ascii(cat(label, ".plugins.aax_product_id").as_str(), id.as_str())?;
        },
    }
    if p.aax_stem_configs.len() == 0 {
        return Err(cat(label, ".plugins.aax_stem_configs must not be empty"));
    }
    Ok(())
}

fn validate_plugin_fields(label: &str, p: &PluginProduct, aax: bool) -> (r: Result<(), String>)
    ensures
        r is Err <==> plugin_field_error(label@, *p, aax) is Some,
        r matches Err(e) ==> e@ == plugin_field_error(label@, *p, aax)->0,
{
    validate_required(cat(label, ".plugins.plugin_id").as_str(), p.plugin_id.as_str())?;
    validate_required(cat(label, ".plugins.plugin_name").as_str(), p.plugin_name.as_str())?;
    if p.clap_features.len() == 0 {
        return Err(cat(label, ".plugins.clap_features must not be empty"));
    }
    validate_features(label, &p.clap_features)?;
    validate_required(cat(label, ".plugins.vst3_subcategories").as_str(), p.vst3_subcategories.as_str())?;
    vst3_component_id_bytes(p.vst3_component_id.as_str())?;
    validate_required(cat(label, ".plugins.standalone_name").as_str(), p.standalone_name.as_str())?;
    validate_four_ascii(cat(label, ".plugins.auv2_type").as_str(), p.auv2_type.as_str())?;
    validate_four_ascii(cat(label, ".plugins.auv2_subtype").as_str(), p.auv2_subtype.as_str())?;
    if aax {
        validate_plugin_aax(label, p)?;
    }
    Ok(())
}

fn validate_plugin_identity(label: &str, ps: &Vec<PluginProduct>, i: usize) -> (r: Result<(), String>)
    requires
        i < ps.len(),
    ensures
        r is Err <==> plugin_dup_error(label@, ps@[i as int], ps@.take(i as int)) is Some,
        r matches Err(e) ==> e@ == plugin_dup_error(label@, ps@[i as int], ps@.take(i as int))->0,
{
    let p = &ps[i];
    let ghost earlier = ps@.take(i as int);
    let mut j: usize = 0;
    while j < i
        invariant
            j <= i < ps.len(),
            earlier == ps@.take(i as int),
            *p == ps@[i as int],
            forall|k: int| 0 <= k < j ==> ps@[k].plugin_id@ != p.plugin_id@,
        decreases i - j,
    {
        if ps[j].plugin_id == p.plugin_id {
            assert(earlier[j as int].plugin_id@ == p.plugin_id@);
            let mut e = owned("duplicate ");
            push_str(&mut e, label);
            push_str(&mut e, ".plugins plugin_id: ");
            push_str(&mut e, p.plugin_id.as_str());
            return Err(e);
        }
        j += 1;
    }
    assert(!plugin_id_taken(earlier, p.plugin_id@));
    j = 0;
    while j < i
        invariant
            j <= i < ps.len(),
            earlier == ps@.take(i as int),
            *p == ps@[i as int],
            forall|k: int| 0 <= k < j ==> ps@[k].standalone_name@ != p.standalone_name@,
            !plugin_id_taken(earlier, p.plugin_id@),
        decreases i - j,
    {
        if ps[j].standalone_name == p.standalone_name {
            assert(earlier[j as int].standalone_name@ == p.standalone_name@);
            let mut e = owned("duplicate ");
            push_str(&mut e, label);
            push_str(&mut e, ".plugins standalone_name: ");
            push_str(&mut e, p.standalone_name.as_str());
            return Err(e);
        }
        j += 1;
    }
    assert(!standalone_name_taken(earlier, p.standalone_name@));
    j = 0;
    while j < i
        invariant
            j <= i < ps.len(),
            earlier == ps@.take(i as int),
            *p == ps@[i as int],
            forall|k: int|
                0 <= k < j ==> !(ps@[k].auv2_type@ == p.auv2_type@ && ps@[k].auv2_subtype@
                    == p.auv2_subtype@),
            !plugin_id_taken(earlier, p.plugin_id@),
            !standalone_name_taken(earlier, p.standalone_name@),
        decreases i - j,
    {
        if ps[j].auv2_type == p.auv2_type && ps[j].auv2_subtype == p.auv2_subtype {
            assert(earlier[j as int].auv2_type@ == p.auv2_type@);
            let mut e = owned("duplicate ");
            push_str(&mut e, label);
            push_str(&mut e, ".plugins AUv2 type/subtype: ");
            push_str(&mut e, p.auv2_type.as_str());
            push_str(&mut e, "/");
            push_str(&mut e, p.auv2_subtype.as_str());
            return Err(e);
        }
        j += 1;
    }
    assert(!auv2_taken(earlier, p.auv2_type@, p.auv2_subtype@));
    Ok(())
}

fn validate_plugins(label: &str, ps: &Vec<PluginProduct>, aax: bool) -> (r: Result<(), String>)
    ensures
        r is Err <==> plugins_error(label@, ps@, aax) is Some,
        r matches Err(e) ==> e@ == plugins_error(label@, ps@, aax)->0,
{
    let mut i: usize = 0;
    while i < ps.len()
        invariant
            i <= ps.len(),
            first_item_error(ps@.take(i as int), plugin_item(label@, aax)) is None,
        decreases ps.len() - i,
    {
        proof {
            lemma_first_item_step(ps@, plugin_item(label@, aax), i as int);
        }
        let p = &ps[i];
        let mut res = validate_plugin_fields(label, p, aax);
        if res.is_ok() {
            res = validate_stems(label, &p.aax_stem_configs);
        }
        if res.is_ok() {
            res = validate_plugin_identity(label, ps, i);
        }
        if res.is_err() {
            proof {
                lemma_first_item_persist(ps@, plugin_item(label@, aax), i + 1);
            }
            return res;
        }
        i += 1;
    }
    proof {
        lemma_first_item_full(ps@, plugin_item(label@, aax));
    }
    Ok(())
}

impl PluginManifest {
    /// Whether the manifest declares `format`.
    pub fn supports_format(&self, format: PluginFormat) -> (r: bool)
        ensures
            r == formats_contain(self.formats@, format),
    {
        let r = format_in_prefix(&self.formats, self.formats.len(), format);
        assert(self.formats@.take(self.formats@.len() as int) =~= self.formats@);
        r
    }

    /// Checks the manifest, reporting the first rule it breaks; `label`
    /// prefixes the names of the fields in the messages.
    pub fn validate(&self, label: &str) -> (r: Result<(), String>)
        ensures
            r is Err <==> manifest_error(label@, *self) is Some,
            r matches Err(e) ==> e@ == manifest_error(label@, *self)->0,
    {
        validate_bundle_fields(self, label)?;
        let aax = validate_formats(self, label)?;
        if self.plugins.len() == 0 {
            return Err(cat(label, ".plugins must contain at least one plugin"));
        }
        validate_plugins(label, &self.plugins, aax)
    }
}

} // verus!

verus! {

/// The `[bundle]` table of a dedicated manifest.
#[derive(Debug, Clone)]
pub struct DedicatedBundle {
    pub company_name: String,
    pub auv2_manufacturer_code: String,
    pub aax_manufacturer_id: Option<String>,
    pub bundle_name: String,
    pub bundle_identifier: String,
    pub homepage_url: String,
    pub manual_url: String,
    pub support_url: String,
    pub description: String,
    pub copyright: String,
    pub formats: Vec<PluginFormatDefinition>,
}

/// The manifest that a dedicated manifest file describes.
pub open spec fn assembled(
    package: Option<ManifestPackageInfo>,
    bundle: DedicatedBundle,
    plugins: Vec<PluginProduct>,
) -> PluginManifest {
    PluginManifest {
        package: match package {
            Some(p) => p,
            None => ManifestPackageInfo { package_name: None, version: None, repository: None },
        },
        company_name: bundle.company_name,
        auv2_manufacturer_code: bundle.auv2_manufacturer_code,
        aax_manufacturer_id: bundle.aax_manufacturer_id,
        bundle_name: bundle.bundle_name,
        bundle_identifier: bundle.bundle_identifier,
        homepage_url: bundle.homepage_url,
        manual_url: bundle.manual_url,
        support_url: bundle.support_url,
        description: bundle.description,
        copyright: bundle.copyright,
        formats: bundle.formats,
        plugins: plugins,
    }
}

/// Builds the manifest described by a decoded `wrac-plugin.toml`: the schema
/// version must be 1 and the result must pass `validate("wrac-plugin.toml")`.
pub fn manifest_from_dedicated(
    schema_version: u32,
    package: Option<ManifestPackageInfo>,
    bundle: DedicatedBundle,
    plugins: Vec<PluginProduct>,
) -> (r: Result<PluginManifest, String>)
    ensures
        schema_version != 1 ==> (r matches Err(e) && e@
            == "wrac-plugin.toml.schema_version must be 1, got "@ + decimal(schema_version as nat)),
        schema_version == 1 ==> (r is Ok <==> manifest_error(
            "wrac-plugin.toml"@,
            assembled(package, bundle, plugins),
        ) is None),
        schema_version == 1 ==> (r matches Err(e) ==> e@ == manifest_error(
            "wrac-plugin.toml"@,
            assembled(package, bundle, plugins),
        )->0),
        r matches Ok(m) ==> m == assembled(package, bundle, plugins),
{
    if schema_version != 1 {
        let mut e = owned("wrac-plugin.toml.schema_version must be 1, got ");
        push_decimal(&mut e, schema_version as usize);
        return Err(e);
    }
    let ghost expected = assembled(package, bundle, plugins);
    let pkg = match package {
        Some(p) => p,
        None => ManifestPackageInfo { package_name: None, version: None, repository: None },
    };
    let metadata = PluginManifest {
        package: pkg,
        company_name: bundle.company_name,
        auv2_manufacturer_code: bundle.auv2_manufacturer_code,
        aax_manufacturer_id: bundle.aax_manufacturer_id,
        bundle_name: bundle.bundle_name,
        bundle_identifier: bundle.bundle_identifier,
        homepage_url: bundle.homepage_url,
        manual_url: bundle.manual_url,
        support_url: bundle.support_url,
        description: bundle.description,
        copyright: bundle.copyright,
        formats: bundle.formats,
        plugins: plugins,
    };
    assert(metadata == expected);
    metadata.validate("wrac-plugin.toml")?;
    Ok(metadata)
}

/// Locates the dedicated manifest of a package: `candidate` is the
/// `wrac-plugin.toml` path beside the package manifest (absent when the
/// package manifest path has no parent), and `candidate_exists` says whether
/// a file is there.
pub fn discover_manifest(
    package_manifest_path: &str,
    candidate: Option<String>,
    candidate_exists: bool,
) -> (r: Result<ManifestSource, String>)
    ensures
        candidate is None ==> (r matches Err(e) && e@ == "failed to derive package dir from "@
            + package_manifest_path@),
        candidate matches Some(c) ==> (r is Ok <==> candidate_exists),
        candidate matches Some(c) ==> (r matches Ok(ManifestSource::Dedicated(p)) ==> p == c),
        candidate matches Some(c) ==> (r matches Err(e) ==> e@ == "WRAC plugin manifest must exist at "@
            + c@ + ", but no manifest was found there"@),
{
    match candidate {
        None => Err(cat("failed to derive package dir from ", package_manifest_path)),
        Some(c) => {
            if candidate_exists {
                Ok(ManifestSource::Dedicated(c))
            } else {
                Err(cat3("WRAC plugin manifest must exist at ", c.as_str(), ", but no manifest was found there"))
            }
        },
    }
}

} // verus!
