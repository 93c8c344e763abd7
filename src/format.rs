//! The output formats offered to the user.

use vstd::prelude::*;

verus! {

/// An output format for converted tracks.
///
/// `Audacity` stores its audio as FLAC and additionally asks for a project manifest.
#[derive(Debug, Clone, Copy, PartialEq, Eq, Structural)]
pub enum AudioFormat {
    FLAC,
    Audacity,
    WAV,
    AAC,
    ALAC,
}

/// File extension (without the dot) of files written in format `f`.
pub open spec fn extension_of(f: AudioFormat) -> Seq<char> {
    match f {
        AudioFormat::FLAC | AudioFormat::Audacity => "flac"@,
        AudioFormat::WAV => "wav"@,
        AudioFormat::AAC | AudioFormat::ALAC => "m4a"@,
    }
}

/// Codec and container directives handed to the encoder for format `f`.
pub open spec fn encoder_args_of(f: AudioFormat) -> Seq<Seq<char>> {
    match f {
        AudioFormat::FLAC | AudioFormat::Audacity => seq!["-c:a"@, "flac"@, "-f"@, "flac"@],
        AudioFormat::WAV => seq!["-c:a"@, "pcm_s16le"@, "-f"@, "wav"@],
        AudioFormat::AAC => seq!["-c:a"@, "aac"@, "-f"@, "ipod"@],
        AudioFormat::ALAC => seq!["-c:a"@, "alac"@, "-f"@, "ipod"@],
    }
}

/// Human-readable name of format `f`.
pub open spec fn display_name_of(f: AudioFormat) -> Seq<char> {
    match f {
        AudioFormat::FLAC => "FLAC"@,
        AudioFormat::WAV => "wav"@,
        AudioFormat::AAC => "AAC (MPEG-4)"@,
        AudioFormat::ALAC => "ALAC (Apple Lossless)"@,
        AudioFormat::Audacity => "Audacity Project"@,
    }
}

/// Whether format `f` also produces a project manifest.
pub open spec fn is_project(f: AudioFormat) -> bool {
    f is Audacity
}

impl AudioFormat {
    /// Every format, in the order in which they are offered.
    pub fn all() -> (r: Vec<AudioFormat>)
        ensures
            r@ == seq![
                AudioFormat::FLAC,
                AudioFormat::Audacity,
                AudioFormat::WAV,
                AudioFormat::AAC,
                AudioFormat::ALAC,
            ],
    {
        vec![AudioFormat::FLAC, AudioFormat::Audacity, AudioFormat::WAV, AudioFormat::AAC, AudioFormat::ALAC]
    }

    pub fn extension(&self) -> (r: &'static str)
        ensures
            r@ == extension_of(*self),
    {
        match self {
            AudioFormat::FLAC | AudioFormat::Audacity => "flac",
            AudioFormat::WAV => "wav",
            AudioFormat::AAC => "m4a",
            AudioFormat::ALAC => "m4a",
        }
    }

    pub fn ffmpeg_args(&self) -> (r: Vec<&'static str>)
        ensures
            r@.map_values(|s: &'static str| s@) == encoder_args_of(*self),
    {
        let r = match self {
            AudioFormat::FLAC | AudioFormat::Audacity => vec!["-c:a", "flac", "-f", "flac"],
            AudioFormat::WAV => vec!["-c:a", "pcm_s16le", "-f", "wav"],
            AudioFormat::AAC => vec!["-c:a", "aac", "-f", "ipod"],
            AudioFormat::ALAC => vec!["-c:a", "alac", "-f", "ipod"],
        };
        assert(r@.map_values(|s: &'static str| s@) =~= encoder_args_of(*self));
        r
    }

    pub fn display_name(&self) -> (r: &'static str)
        ensures
            r@ == display_name_of(*self),
    {
        match self {
            AudioFormat::FLAC => "FLAC",
            AudioFormat::WAV => "wav",
            AudioFormat::AAC => "AAC (MPEG-4)",
            AudioFormat::ALAC => "ALAC (Apple Lossless)",
            AudioFormat::Audacity => "Audacity Project",
        }
    }

    pub fn is_project_format(&self) -> (r: bool)
        ensures
            r == is_project(*self),
    {
        matches!(self, AudioFormat::Audacity)
    }
}

} // verus!
