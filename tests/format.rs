use otterpack::AudioFormat;

#[test]
fn extensions_per_format() {
    assert_eq!(AudioFormat::FLAC.extension(), "flac");
    assert_eq!(AudioFormat::Audacity.extension(), "flac");
    assert_eq!(AudioFormat::WAV.extension(), "wav");
    assert_eq!(AudioFormat::AAC.extension(), "m4a");
    assert_eq!(AudioFormat::ALAC.extension(), "m4a");
}

#[test]
fn encoder_args_per_format() {
    assert_eq!(AudioFormat::FLAC.ffmpeg_args(), vec!["-c:a", "flac", "-f", "flac"]);
    assert_eq!(AudioFormat::Audacity.ffmpeg_args(), vec!["-c:a", "flac", "-f", "flac"]);
    assert_eq!(AudioFormat::WAV.ffmpeg_args(), vec!["-c:a", "pcm_s16le", "-f", "wav"]);
    assert_eq!(AudioFormat::AAC.ffmpeg_args(), vec!["-c:a", "aac", "-f", "ipod"]);
    assert_eq!(AudioFormat::ALAC.ffmpeg_args(), vec!["-c:a", "alac", "-f", "ipod"]);
}

#[test]
fn display_names_per_format() {
    assert_eq!(AudioFormat::FLAC.display_name(), "FLAC");
    assert_eq!(AudioFormat::WAV.display_name(), "wav");
    assert_eq!(AudioFormat::AAC.display_name(), "AAC (MPEG-4)");
    assert_eq!(AudioFormat::ALAC.display_name(), "ALAC (Apple Lossless)");
    assert_eq!(AudioFormat::Audacity.display_name(), "Audacity Project");
}

#[test]
fn only_audacity_is_a_project_format() {
    let project: Vec<bool> = AudioFormat::all().iter().map(|f| f.is_project_format()).collect();
    assert_eq!(project, vec![false, true, false, false, false]);
    assert_eq!(AudioFormat::all().len(), 5);
}
