use ledshow::audio::{b64_decode, b64_encode, encode_data_url, AudioFile};

#[test]
fn test_mime_to_extension() {
    assert_eq!(AudioFile::mime_to_extension("audio/mp3"), "mp3");
    assert_eq!(AudioFile::mime_to_extension("audio/wav"), "wav");
    assert_eq!(AudioFile::mime_to_extension("audio/webm"), "webm");
}

#[test]
fn test_extension_to_mime() {
    assert_eq!(AudioFile::extension_to_mime("test.mp3"), "audio/mpeg");
    assert_eq!(AudioFile::extension_to_mime("test.wav"), "audio/wav");
    assert_eq!(AudioFile::extension_to_mime("test.webm"), "audio/webm");
}

#[test]
fn mime_fallbacks() {
    assert_eq!(AudioFile::mime_to_extension("video/mp4"), "bin");
    assert_eq!(AudioFile::mime_to_extension("audio/x-wav"), "wav");
    assert_eq!(AudioFile::mime_to_extension("audio/mpeg"), "mp3");
    assert_eq!(AudioFile::mime_to_extension("audio/ogg"), "ogg");
    assert_eq!(AudioFile::mime_to_extension("audio/flac"), "flac");
    assert_eq!(AudioFile::extension_to_mime("test.ogg"), "audio/ogg");
    assert_eq!(AudioFile::extension_to_mime("test.flac"), "audio/flac");
    assert_eq!(
        AudioFile::extension_to_mime("archive.zip"),
        "application/octet-stream"
    );
}

#[test]
fn base64_encodes_known_vectors() {
    let codes = b64_encode(&vec![]);
    assert_eq!(codes.len(), 0);
    let codes = b64_encode(&vec![65]);
    assert_eq!(String::from_utf8(codes).unwrap(), "QQ==");
    let codes = b64_encode(&vec![77, 97]);
    assert_eq!(String::from_utf8(codes).unwrap(), "TWE=");
    let codes = b64_encode(&vec![77, 97, 110]);
    assert_eq!(String::from_utf8(codes).unwrap(), "TWFu");
}

#[test]
fn base64_decodes_what_it_encodes() {
    let inputs: Vec<Vec<u8>> = vec![
        vec![],
        vec![0],
        vec![255, 254],
        vec![1, 2, 3],
        vec![10, 20, 30, 40],
        (0..=255u8).collect(),
    ];
    for bytes in inputs {
        let text = String::from_utf8(b64_encode(&bytes)).unwrap();
        let back = b64_decode(&text).expect("canonical text must decode");
        assert_eq!(back, bytes);
    }
}

#[test]
fn base64_rejects_junk() {
    assert!(b64_decode("QQ=").is_none());
    assert!(b64_decode("Q!==").is_none());
    assert!(b64_decode("QQ==QQ==").is_none());
    assert!(b64_decode("ab").is_none());
}

#[test]
fn data_url_round_trip() {
    let mimes = [
        "audio/wav",
        "audio/mpeg",
        "audio/webm",
        "audio/ogg",
        "audio/flac",
    ];
    let payload: Vec<u8> = vec![0, 1, 2, 250, 251, 252, 99];
    for mime in mimes {
        let url = encode_data_url(mime, &payload);
        let (m, ext, bytes) = AudioFile::parse_data_url(&url).expect("round trip parses");
        assert_eq!(m, mime);
        assert_eq!(ext, AudioFile::mime_to_extension(mime));
        assert_eq!(bytes, payload);
    }
}

#[test]
fn data_url_literal_parse() {
    let (mime, ext, bytes) =
        AudioFile::parse_data_url("data:audio/mpeg;base64,AAEC").unwrap();
    assert_eq!(mime, "audio/mpeg");
    assert_eq!(ext, "mp3");
    assert_eq!(bytes, vec![0, 1, 2]);
}

#[test]
fn data_url_rejects_malformed() {
    assert!(AudioFile::parse_data_url("http://example/x.wav").is_err());
    assert!(AudioFile::parse_data_url("data:audio/wav").is_err());
    assert!(AudioFile::parse_data_url("data:audio/wav;base64,!!").is_err());
    assert!(AudioFile::parse_data_url("data").is_err());
}

#[test]
fn filename_safety() {
    assert!(!AudioFile::is_safe_filename("../etc/passwd"));
    assert!(!AudioFile::is_safe_filename("../../secrets.txt"));
    assert!(!AudioFile::is_safe_filename("a/b.mp3"));
    assert!(!AudioFile::is_safe_filename("a\\b.mp3"));
    assert!(AudioFile::is_safe_filename("song.mp3"));
    assert!(AudioFile::is_safe_filename("prog-42.flac"));
}
