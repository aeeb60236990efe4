//! Image download decisions: the blank-URL check, the bounded retry
//! engine with exponential backoff between attempts, and the decode step
//! that turns fetched bytes into a plain RGB frame.

use vstd::prelude::*;
use crate::frame::RgbFrame;
use crate::schedule::is_blank;
use crate::schedule::str_is_blank;
use crate::scheduler::spec_pow2;
use crate::scheduler::lemma_pow2_pos;

verus! {

/// Download errors.
#[derive(Debug, Clone)]
pub enum DownloadError {
    /// The transport failed before an HTTP status was seen.
    RequestError(String),
    /// The server answered outside the 2xx range.
    HttpError { status: u16 },
    /// The fetched bytes do not decode as an image.
    DecodeError(String),
    /// The configured URL is empty or blank.
    EmptyUrl,
    /// No attempt could be made at all.
    Timeout,
}

/// Download configuration.
#[derive(Debug, Clone)]
pub struct DownloadConfig {
    /// Maximum number of attempts.
    pub max_retries: u32,
    /// Base delay between attempts, doubled for each further attempt.
    pub retry_delay_secs: u64,
    /// Width above which an image is flagged oversize.
    pub max_width: u32,
    /// Height above which an image is flagged oversize.
    pub max_height: u32,
}

impl Default for DownloadConfig {
    /// Three attempts, a two-second base delay, and a 4096 x 4096 size
    /// advisory.
    fn default() -> (c: Self)
        ensures
            c.max_retries == 3,
            c.retry_delay_secs == 2,
            c.max_width == 4096,
            c.max_height == 4096,
    {
        DownloadConfig { max_retries: 3, retry_delay_secs: 2, max_width: 4096, max_height: 4096 }
    }
}

/// What one failed HTTP attempt looked like to the caller driving the
/// transfer.
#[derive(Debug, Clone)]
pub enum AttemptFailure {
    /// The server answered with this non-2xx status.
    Http(u16),
    /// The transport failed with this message.
    Transport(String),
}

/// The delay in seconds before the attempt with 0-based index `attempt`:
/// none before the first, `base * 2 ^ (attempt - 1)` before each retry.
pub open spec fn spec_retry_delay(base: u64, attempt: nat) -> int {
    if attempt == 0 {
        0
    } else {
        base * spec_pow2((attempt - 1) as nat)
    }
}

/// `base * 2 ^ k`, computed with saturation at the integer limit.
fn doubling_delay(base: u64, k: u32) -> (d: u64)
    ensures
        d == if base * spec_pow2(k as nat) <= u64::MAX {
            base * spec_pow2(k as nat)
        } else {
            u64::MAX as int
        },
{
    let mut d: u64 = base;
    let mut i: u32 = 0;
    while i < k
        invariant
            i <= k,
            d == if base * spec_pow2(i as nat) <= u64::MAX {
                base * spec_pow2(i as nat)
            } else {
                u64::MAX as int
            },
        decreases k - i,
    {
        proof {
            lemma_pow2_pos(i as nat);
            assert(spec_pow2(i as nat + 1) == 2 * spec_pow2(i as nat));
            assert(base * (2 * spec_pow2(i as nat)) == 2 * (base * spec_pow2(i as nat)))
                by (nonlinear_arith);
        }
        if d > u64::MAX / 2 {
            proof {
                if base * spec_pow2(i as nat) <= u64::MAX {
                    assert(2 * (base * spec_pow2(i as nat)) > u64::MAX);
                } else {
                    assert(base * spec_pow2(i as nat) > u64::MAX);
                    assert(2 * (base * spec_pow2(i as nat)) > u64::MAX) by (nonlinear_arith)
                        requires
                            base * spec_pow2(i as nat) > u64::MAX,
                    ;
                }
            }
            d = u64::MAX;
        } else {
            d = d * 2;
        }
        i = i + 1;
    }
    d
}

/// One bounded download: how many attempts are left and what the last
/// failure was. The caller performs the transfers; this state decides
/// whether and when the next attempt happens, and which error is final.
#[derive(Debug, Clone)]
pub struct RetrySession {
    /// Maximum number of attempts, from the configuration.
    pub max_retries: u32,
    /// Base delay in seconds, from the configuration.
    pub retry_delay_secs: u64,
    /// Attempts started so far.
    pub attempts_made: u32,
    /// The failure seen on the most recent attempt.
    pub last_error: Option<DownloadError>,
}

impl RetrySession {
    /// Start a bounded download under the given configuration.
    pub fn new(config: &DownloadConfig) -> (s: Self)
        ensures
            s.max_retries == config.max_retries,
            s.retry_delay_secs == config.retry_delay_secs,
            s.attempts_made == 0,
            s.last_error is None,
    {
        RetrySession {
            max_retries: config.max_retries,
            retry_delay_secs: config.retry_delay_secs,
            attempts_made: 0,
            last_error: None,
        }
    }

    /// Begin the next attempt if one is allowed: the seconds to wait
    /// before it (saturated at the integer limit), or nothing when the
    /// attempts are exhausted.
    pub fn begin_attempt(&mut self) -> (r: Option<u64>)
        ensures
            old(self).attempts_made < old(self).max_retries ==> ({
                &&& r matches Some(d) && d == (if spec_retry_delay(
                    old(self).retry_delay_secs,
                    old(self).attempts_made as nat,
                ) <= u64::MAX {
                    spec_retry_delay(old(self).retry_delay_secs, old(self).attempts_made as nat)
                } else {
                    u64::MAX as int
                })
                &&& final(self).attempts_made == old(self).attempts_made + 1
                &&& final(self).last_error == old(self).last_error
                &&& final(self).max_retries == old(self).max_retries
                &&& final(self).retry_delay_secs == old(self).retry_delay_secs
            }),
            old(self).attempts_made >= old(self).max_retries ==> r is None && *final(self) == *old(
                self,
            ),
    {
        if self.attempts_made >= self.max_retries {
            return None;
        }
        let delay: u64 = if self.attempts_made == 0 {
            0
        } else {
            doubling_delay(self.retry_delay_secs, self.attempts_made - 1)
        };
        self.attempts_made = self.attempts_made + 1;
        Some(delay)
    }

    /// Record the failure of the attempt under way.
    pub fn record_failure(&mut self, failure: AttemptFailure)
        ensures
            final(self).last_error matches Some(e) && e == match failure {
                AttemptFailure::Http(status) => DownloadError::HttpError { status },
                AttemptFailure::Transport(msg) => DownloadError::RequestError(msg),
            },
            final(self).attempts_made == old(self).attempts_made,
            final(self).max_retries == old(self).max_retries,
            final(self).retry_delay_secs == old(self).retry_delay_secs,
    {
        self.last_error = Some(
            match failure {
                AttemptFailure::Http(status) => DownloadError::HttpError { status },
                AttemptFailure::Transport(msg) => DownloadError::RequestError(msg),
            },
        );
    }

    /// The error a download that exhausted its attempts surfaces: the
    /// last failure seen, or `Timeout` when no attempt was ever allowed.
    pub fn final_error(self) -> (e: DownloadError)
        ensures
            e == match self.last_error {
                Some(err) => err,
                None => DownloadError::Timeout,
            },
    {
        match self.last_error {
            Some(err) => err,
            None => DownloadError::Timeout,
        }
    }
}

/// Reject an empty or blank URL before any network activity.
pub fn check_url(url: &str) -> (r: Result<(), DownloadError>)
    ensures
        r is Ok <==> !is_blank(url@),
        r is Err ==> r matches Err(DownloadError::EmptyUrl),
{
    if str_is_blank(url) {
        Err(DownloadError::EmptyUrl)
    } else {
        Ok(())
    }
}

/// What the imaging library decodes the given bytes to: the image's
/// dimensions and its row-major RGB pixel bytes, or nothing when the
/// bytes do not decode. The result depends on the bytes alone.
pub uninterp spec fn decoded_rgb(bytes: Seq<u8>) -> Option<(u32, u32, Seq<u8>)>;

/// Relies on `image::load_from_memory` (the format guessed from the
/// bytes) and `DynamicImage::into_rgb8`: decoding depends on the bytes
/// alone, and on success the image comes back as plain row-major RGB
/// bytes, three per pixel, with its dimensions.
#[verifier::external_body]
fn decode_rgb(bytes: &[u8]) -> (r: Result<RgbFrame, String>)
    ensures
        r is Ok <==> decoded_rgb(bytes@) is Some,
        r matches Ok(f) ==> f.wf() && (decoded_rgb(bytes@) matches Some(t) && f.width == t.0
            && f.height == t.1 && f.pixels@ == t.2),
{
    match image::load_from_memory(bytes) {
        Ok(img) => {
            let rgb = img.into_rgb8();
            let width = rgb.width();
            let height = rgb.height();
            Ok(RgbFrame { width, height, pixels: rgb.into_raw() })
        },
        Err(e) => Err(e.to_string()),
    }
}

/// Decode fetched bytes into an RGB frame: it succeeds exactly when the
/// bytes decode to an image with at least one pixel, and returns that
/// image. Decode failures are terminal, never retried. An image larger
/// than the configured advisory dimensions is flagged, not rejected;
/// downstream scaling handles it either way.
pub fn decode_image(bytes: &[u8], config: &DownloadConfig) -> (r: Result<
    (RgbFrame, bool),
    DownloadError,
>)
    ensures
        r is Ok <==> (decoded_rgb(bytes@) matches Some(t) && t.0 >= 1 && t.1 >= 1),
        r matches Ok((f, oversize)) ==> f.wf() && 1 <= f.width && 1 <= f.height && (decoded_rgb(
            bytes@,
        ) matches Some(t) && f.width == t.0 && f.height == t.1 && f.pixels@ == t.2) && oversize
            == (f.width > config.max_width || f.height > config.max_height),
        r is Err ==> r matches Err(DownloadError::DecodeError(_)),
{
    let frame = match decode_rgb(bytes) {
        Ok(f) => f,
        Err(msg) => {
            return Err(DownloadError::DecodeError(msg));
        },
    };
    if frame.width == 0 || frame.height == 0 {
        return Err(DownloadError::DecodeError(String::from_str("image has no pixels")));
    }
    let oversize = frame.width > config.max_width || frame.height > config.max_height;
    Ok((frame, oversize))
}

} // verus!
