//! Tests for the URL check, the retry engine and the decode step.

use epaper_display::download::AttemptFailure;
use epaper_display::download::DownloadConfig;
use epaper_display::download::DownloadError;
use epaper_display::download::RetrySession;
use epaper_display::download::check_url;
use epaper_display::download::decode_image;

#[test]
fn blank_urls_are_rejected_before_any_attempt() {
    assert!(matches!(check_url(""), Err(DownloadError::EmptyUrl)));
    assert!(matches!(check_url("   \t"), Err(DownloadError::EmptyUrl)));
    assert!(matches!(check_url("\u{a0}\u{a0}"), Err(DownloadError::EmptyUrl)));
    assert!(check_url("http://example.test/a.png").is_ok());
}

#[test]
fn three_failing_attempts_surface_the_last_status() {
    // max_retries = 3, every attempt answers HTTP 500: exactly three
    // attempts run, each preceded by an increasing delay, and the final
    // error carries the last status seen.
    let config = DownloadConfig { max_retries: 3, retry_delay_secs: 2, ..Default::default() };
    let mut session = RetrySession::new(&config);
    let mut delays = Vec::new();
    let mut attempts = 0;
    while let Some(delay) = session.begin_attempt() {
        delays.push(delay);
        attempts += 1;
        session.record_failure(AttemptFailure::Http(500));
    }
    assert_eq!(attempts, 3);
    assert_eq!(delays, vec![0, 2, 4]);
    assert!(delays.windows(2).all(|w| w[0] <= w[1]));
    match session.final_error() {
        DownloadError::HttpError { status } => assert_eq!(status, 500),
        other => panic!("expected the last HTTP status, got {:?}", other),
    }
}

#[test]
fn delays_double_for_later_attempts() {
    let config = DownloadConfig { max_retries: 5, retry_delay_secs: 3, ..Default::default() };
    let mut session = RetrySession::new(&config);
    let mut delays = Vec::new();
    while let Some(delay) = session.begin_attempt() {
        delays.push(delay);
        session.record_failure(AttemptFailure::Transport(String::from("connection refused")));
    }
    assert_eq!(delays, vec![0, 3, 6, 12, 24]);
    assert!(matches!(session.final_error(), DownloadError::RequestError(_)));
}

#[test]
fn success_stops_the_retries() {
    let config = DownloadConfig::default();
    let mut session = RetrySession::new(&config);
    assert_eq!(session.begin_attempt(), Some(0));
    // The transfer succeeded: the caller simply stops asking.
    assert_eq!(session.attempts_made, 1);
}

#[test]
fn zero_retries_time_out_immediately() {
    let config = DownloadConfig { max_retries: 0, ..Default::default() };
    let mut session = RetrySession::new(&config);
    assert!(session.begin_attempt().is_none());
    assert!(matches!(session.final_error(), DownloadError::Timeout));
}

#[test]
fn default_download_config() {
    let c = DownloadConfig::default();
    assert_eq!(c.max_retries, 3);
    assert_eq!(c.retry_delay_secs, 2);
    assert_eq!(c.max_width, 4096);
    assert_eq!(c.max_height, 4096);
}

#[test]
fn undecodable_bytes_are_a_terminal_decode_error() {
    let config = DownloadConfig::default();
    let garbage = vec![0u8, 1, 2, 3, 4, 5, 6, 7];
    assert!(matches!(decode_image(&garbage, &config), Err(DownloadError::DecodeError(_))));
}

#[test]
fn decoded_image_comes_back_as_rgb_bytes() {
    // Encode a small PNG with the imaging library, then decode it
    // through the library's decode step.
    let mut img = image::RgbImage::new(3, 2);
    for p in img.pixels_mut() {
        *p = image::Rgb([255, 0, 0]);
    }
    let mut bytes: Vec<u8> = Vec::new();
    img.write_to(&mut std::io::Cursor::new(&mut bytes), image::ImageFormat::Png).unwrap();

    let config = DownloadConfig::default();
    let (frame, oversize) = decode_image(&bytes, &config).unwrap();
    assert_eq!(frame.width, 3);
    assert_eq!(frame.height, 2);
    assert_eq!(frame.pixels.len(), 18);
    assert_eq!(frame.get_px(0, 0, 0), 255);
    assert_eq!(frame.get_px(0, 0, 1), 0);
    assert_eq!(frame.get_px(2, 1, 2), 0);
    assert!(!oversize);
}

#[test]
fn oversize_images_are_flagged_not_rejected() {
    let img = image::RgbImage::new(5, 4);
    let mut bytes: Vec<u8> = Vec::new();
    img.write_to(&mut std::io::Cursor::new(&mut bytes), image::ImageFormat::Png).unwrap();

    let config = DownloadConfig { max_width: 4, max_height: 4, ..Default::default() };
    let (frame, oversize) = decode_image(&bytes, &config).unwrap();
    assert_eq!(frame.width, 5);
    assert!(oversize);
}
