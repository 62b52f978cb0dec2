use dictatord::asr::{
    download_step, failed_audio_bytes, join_segments, model_download_url, model_file_path, model_size_mb,
    DownloadAction, DownloadError, DownloadEvent,
};
use dictatord::config::Config;

#[test]
fn download_url() {
    let c = Config::default();
    assert_eq!(
        model_download_url(&c.asr),
        "https://huggingface.co/ggerganov/whisper.cpp/resolve/main/ggml-tiny.bin"
    );
}

#[test]
fn model_sizes() {
    assert_eq!(model_size_mb("tiny"), "75");
    assert_eq!(model_size_mb("base"), "142");
    assert_eq!(model_size_mb("small"), "466");
    assert_eq!(model_size_mb("medium"), "769");
    assert_eq!(model_size_mb("large"), "1549");
    assert_eq!(model_size_mb("Tiny"), "?");
}

#[test]
fn model_paths() {
    let mut c = Config::default();
    assert_eq!(model_file_path(&c.asr, "/home/u"), "/home/u/.cache/dictatord/models/ggml-tiny.bin");
    c.asr.model_path = "/opt/models".to_string();
    c.asr.model = "base".to_string();
    assert_eq!(model_file_path(&c.asr, "/home/u"), "/opt/models/ggml-base.bin");
    c.asr.model_path = "".to_string();
    assert_eq!(model_file_path(&c.asr, "/home/u"), "ggml-base.bin");
    c.asr.model_path = "~/m".to_string();
    assert_eq!(model_file_path(&c.asr, "/tmp"), "/tmp/m/ggml-base.bin");
    c.asr.model_path = "~x".to_string();
    assert_eq!(model_file_path(&c.asr, "/tmp"), "~x/ggml-base.bin");
    // the same as PathBuf::push
    let mut p = std::path::PathBuf::from("/opt/models/");
    p.push("ggml-base.bin");
    c.asr.model_path = "/opt/models/".to_string();
    assert_eq!(model_file_path(&c.asr, "/tmp"), p.to_str().unwrap());
}

#[test]
fn segments_are_joined_and_trimmed() {
    let segs = vec![" Hello".to_string(), String::new(), " world.".to_string(), "  \n".to_string()];
    assert_eq!(join_segments(&segs), "Hello world.");
    assert_eq!(join_segments(&[]), "");
    assert_eq!(join_segments(&["\u{3000}\u{a0} x \u{2029}".to_string()]), "x");
    let odd = "\u{85}a\u{200b}".to_string();
    assert_eq!(join_segments(&[odd.clone()]), odd.trim());
}

#[test]
fn failed_audio_is_kept_as_little_endian_bytes() {
    let audio: Vec<i16> = (0..1001).map(|i| (i as i16) * 33 - 16000).collect();
    let bytes = failed_audio_bytes("", &audio).unwrap();
    let expected: Vec<u8> = audio.iter().flat_map(|s| s.to_le_bytes()).collect();
    assert_eq!(bytes, expected);
    assert!(failed_audio_bytes("hi", &audio).is_none());
    assert!(failed_audio_bytes("", &audio[..1000]).is_none());
}

#[test]
fn download_falls_back_to_wget_and_checks_the_file() {
    assert_eq!(download_step(DownloadEvent::CurlExited { success: true }), DownloadAction::CheckFile);
    assert_eq!(download_step(DownloadEvent::CurlExited { success: false }), DownloadAction::RunWget);
    assert_eq!(download_step(DownloadEvent::WgetExited { success: true }), DownloadAction::CheckFile);
    assert_eq!(
        download_step(DownloadEvent::WgetExited { success: false }),
        DownloadAction::Fail(DownloadError::BothDownloadersFailed)
    );
    assert_eq!(download_step(DownloadEvent::FileChecked { exists: true, size: 77_691_713 }), DownloadAction::Done);
    assert_eq!(
        download_step(DownloadEvent::FileChecked { exists: true, size: 0 }),
        DownloadAction::Fail(DownloadError::EmptyModelFile)
    );
    assert_eq!(
        download_step(DownloadEvent::FileChecked { exists: false, size: 0 }),
        DownloadAction::Fail(DownloadError::EmptyModelFile)
    );
    assert_eq!(
        DownloadError::BothDownloadersFailed.message(),
        "Failed to download model using both curl and wget"
    );
    assert_eq!(DownloadError::EmptyModelFile.message(), "Downloaded model file is empty or missing");
}
