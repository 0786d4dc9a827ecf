//! Convert long-form text into a single audio file by orchestrating a
//! remote chat model (for semantic splitting) and a remote
//! speech-synthesis service (for per-segment audio), then stitching the
//! audio fragments into one output container.
//!
//! The library holds every decision of that pipeline: whether splitting
//! is needed, what is sent to the model, how its reply is parsed, how
//! retries back off, how out-of-order completions are put back in
//! segment order, and how audio buffers are validated and merged. The
//! network and file I/O around those decisions is asynchronous and
//! lives outside the library, which hands it plain values and takes
//! plain values back.

pub mod ai_splitter;
pub mod audio_merger;
pub mod client;
pub mod config;
pub mod error;
pub mod text;

pub use ai_splitter::{AiSplitter, SplitPlan};
pub use audio_merger::{AudioMerger, AudioSpec, MergedAudio};
pub use client::{Client, Model, TtsConfig};
pub use config::Voice;
pub use error::Error;

use vstd::prelude::*;

use vstd::arithmetic::div_mod::{
    lemma_div_by_multiple, lemma_div_is_ordered, lemma_fundamental_div_mod,
};
use vstd::arithmetic::mul::lemma_mul_inequality;
use vstd::arithmetic::power2::{
    lemma2_to64, lemma2_to64_rest, lemma_pow2_strictly_increases, lemma_pow2_unfold, pow2,
};

use crate::text::{spec_trim, trim_str};

verus! {

/// Pull a value into an inclusive range.
pub open spec fn spec_clamp(v: int, lo: int, hi: int) -> int {
    if v < lo {
        lo
    } else if v > hi {
        hi
    } else {
        v
    }
}

/// Clamping is idempotent: a value already pulled into the range stays
/// where it is, so applying a clamped setter twice with the same input
/// yields the same configuration both times.
pub proof fn lemma_clamp_idempotent(v: int, lo: int, hi: int)
    requires
        lo <= hi,
    ensures
        spec_clamp(spec_clamp(v, lo, hi), lo, hi) == spec_clamp(v, lo, hi),
{
}

/// Total clamping helper for signed settings: out-of-range values are
/// pulled to the nearest bound instead of being rejected.
pub fn clamp_i64(v: i64, lo: i64, hi: i64) -> (r: i64)
    requires
        lo <= hi,
    ensures
        r as int == spec_clamp(v as int, lo as int, hi as int),
        lo <= r <= hi,
{
    if v < lo {
        lo
    } else if v > hi {
        hi
    } else {
        v
    }
}

/// Total clamping helper for unsigned settings.
pub fn clamp_usize(v: usize, lo: usize, hi: usize) -> (r: usize)
    requires
        lo <= hi,
    ensures
        r as int == spec_clamp(v as int, lo as int, hi as int),
        lo <= r <= hi,
{
    if v < lo {
        lo
    } else if v > hi {
        hi
    } else {
        v
    }
}

/// The conversion pipeline's configuration and entry point.
///
/// Speed and volume are fixed-point values in hundredths (a speed of
/// 100 is the natural rate; the stored value is always within 50..=200
/// for speed and 0..=1000 for volume). The segment-length budget counts
/// Unicode scalar values, not bytes. The retry delay is the base
/// backoff unit in milliseconds.
pub struct Text2Audio {
    pub api_key: String,
    pub model: Model,
    pub voice: Voice,
    pub speed: u32,
    pub volume: u32,
    pub max_segment_length: usize,
    pub enable_parallel: bool,
    pub max_parallel: usize,
    pub max_retries: u32,
    pub retry_delay_ms: u64,
    pub enable_thinking: bool,
    pub coding_plan: bool,
}

impl Text2Audio {
    /// Every numeric setting sits inside its declared range.
    pub open spec fn wf(self) -> bool {
        &&& 50 <= self.speed <= 200
        &&& self.volume <= 1000
        &&& 100 <= self.max_segment_length <= 1024
        &&& 1 <= self.max_parallel <= 10
    }

    /// A converter with default settings.
    pub fn new(api_key: &str) -> (r: Self)
        ensures
            r.api_key@ == api_key@,
            r.model == Model::GLM4_5Flash,
            r.voice == Voice::Tongtong,
            r.speed == 100,
            r.volume == 100,
            r.max_segment_length == 500,
            !r.enable_parallel,
            r.max_parallel == 3,
            r.max_retries == 3,
            r.retry_delay_ms == 100,
            !r.enable_thinking,
            !r.coding_plan,
            r.wf(),
    {
        Text2Audio {
            api_key: api_key.to_owned(),
            model: Model::default(),
            voice: Voice::default(),
            speed: 100,
            volume: 100,
            max_segment_length: 500,
            enable_parallel: false,
            max_parallel: 3,
            max_retries: 3,
            retry_delay_ms: 100,
            enable_thinking: false,
            coding_plan: false,
        }
    }

    /// A builder for the converter's configuration.
    pub fn builder(api_key: &str) -> (r: Builder)
        ensures
            spec_is_default_config(r.converter, api_key@),
    {
        Builder::new(api_key)
    }

    /// Choose the chat model used for splitting.
    pub fn with_model(self, model: Model) -> (r: Self)
        ensures
            r == (Text2Audio { model, ..self }),
    {
        Text2Audio { model, ..self }
    }

    /// Choose the synthesis voice.
    pub fn with_voice(self, voice: Voice) -> (r: Self)
        ensures
            r == (Text2Audio { voice, ..self }),
    {
        Text2Audio { voice, ..self }
    }

    /// Set the speech speed in hundredths, clamped into 50..=200.
    pub fn with_speed(self, speed: i64) -> (r: Self)
        ensures
            r == (Text2Audio { speed: spec_clamp(speed as int, 50, 200) as u32, ..self }),
            self.wf() ==> r.wf(),
    {
        Text2Audio { speed: clamp_i64(speed, 50, 200) as u32, ..self }
    }

    /// Set the speech volume in hundredths, clamped into 0..=1000.
    pub fn with_volume(self, volume: i64) -> (r: Self)
        ensures
            r == (Text2Audio { volume: spec_clamp(volume as int, 0, 1000) as u32, ..self }),
            self.wf() ==> r.wf(),
    {
        Text2Audio { volume: clamp_i64(volume, 0, 1000) as u32, ..self }
    }

    /// Set the segment-length budget in characters, clamped into
    /// 100..=1024.
    pub fn with_max_segment_length(self, max_length: usize) -> (r: Self)
        ensures
            r == (Text2Audio {
                max_segment_length: spec_clamp(max_length as int, 100, 1024) as usize,
                ..self
            }),
            self.wf() ==> r.wf(),
    {
        Text2Audio { max_segment_length: clamp_usize(max_length, 100, 1024), ..self }
    }

    /// Enable parallel synthesis with the given concurrency cap,
    /// clamped into 1..=10.
    pub fn with_parallel(self, max_parallel: usize) -> (r: Self)
        ensures
            r == (Text2Audio {
                enable_parallel: true,
                max_parallel: spec_clamp(max_parallel as int, 1, 10) as usize,
                ..self
            }),
            self.wf() ==> r.wf(),
    {
        Text2Audio {
            enable_parallel: true,
            max_parallel: clamp_usize(max_parallel, 1, 10),
            ..self
        }
    }

    /// Enable or disable thinking mode for the splitting conversation.
    pub fn with_thinking(self, enable: bool) -> (r: Self)
        ensures
            r == (Text2Audio { enable_thinking: enable, ..self }),
    {
        Text2Audio { enable_thinking: enable, ..self }
    }

    /// Enable or disable the coding-plan endpoint.
    pub fn with_coding_plan(self, enable: bool) -> (r: Self)
        ensures
            r == (Text2Audio { coding_plan: enable, ..self }),
    {
        Text2Audio { coding_plan: enable, ..self }
    }

    /// Set how often a failed synthesis call is attempted and the base
    /// backoff delay in milliseconds.
    pub fn with_retry_config(self, max_retries: u32, retry_delay_ms: u64) -> (r: Self)
        ensures
            r == (Text2Audio { max_retries, retry_delay_ms, ..self }),
    {
        Text2Audio { max_retries, retry_delay_ms, ..self }
    }
}

impl Default for Text2Audio {
    /// A converter with every default setting and no credentials,
    /// exactly as `Text2Audio::new` with an empty key builds it.
    fn default() -> (r: Self)
        ensures
            spec_is_default_config(r, Seq::<char>::empty()),
    {
        proof {
            reveal_strlit("");
            assert(""@ =~= Seq::<char>::empty());
        }
        Text2Audio::new("")
    }
}

/// The settings `Text2Audio::new` starts from, for the given
/// credentials.
pub open spec fn spec_is_default_config(c: Text2Audio, api_key: Seq<char>) -> bool {
    &&& c.api_key@ == api_key
    &&& c.model == Model::GLM4_5Flash
    &&& c.voice == Voice::Tongtong
    &&& c.speed == 100
    &&& c.volume == 100
    &&& c.max_segment_length == 500
    &&& !c.enable_parallel
    &&& c.max_parallel == 3
    &&& c.max_retries == 3
    &&& c.retry_delay_ms == 100
    &&& !c.enable_thinking
    &&& !c.coding_plan
}

/// Fluent builder around [`Text2Audio`].
pub struct Builder {
    pub converter: Text2Audio,
}

impl Builder {
    /// A builder starting from the default settings.
    pub fn new(api_key: &str) -> (r: Self)
        ensures
            spec_is_default_config(r.converter, api_key@),
    {
        Builder { converter: Text2Audio::new(api_key) }
    }

    /// Choose the chat model used for splitting.
    pub fn model(self, model: Model) -> (r: Self)
        ensures
            r.converter == (Text2Audio { model, ..self.converter }),
    {
        Builder { converter: self.converter.with_model(model) }
    }

    /// Choose the synthesis voice.
    pub fn voice(self, voice: Voice) -> (r: Self)
        ensures
            r.converter == (Text2Audio { voice, ..self.converter }),
    {
        Builder { converter: self.converter.with_voice(voice) }
    }

    /// Set the speech speed in hundredths, clamped into 50..=200.
    pub fn speed(self, speed: i64) -> (r: Self)
        ensures
            r.converter == (Text2Audio {
                speed: spec_clamp(speed as int, 50, 200) as u32,
                ..self.converter
            }),
    {
        Builder { converter: self.converter.with_speed(speed) }
    }

    /// Set the speech volume in hundredths, clamped into 0..=1000.
    pub fn volume(self, volume: i64) -> (r: Self)
        ensures
            r.converter == (Text2Audio {
                volume: spec_clamp(volume as int, 0, 1000) as u32,
                ..self.converter
            }),
    {
        Builder { converter: self.converter.with_volume(volume) }
    }

    /// Set the segment-length budget, clamped into 100..=1024.
    pub fn max_segment_length(self, max_length: usize) -> (r: Self)
        ensures
            r.converter == (Text2Audio {
                max_segment_length: spec_clamp(max_length as int, 100, 1024) as usize,
                ..self.converter
            }),
    {
        Builder { converter: self.converter.with_max_segment_length(max_length) }
    }

    /// Enable parallel synthesis with the given cap, clamped into
    /// 1..=10.
    pub fn parallel(self, max_parallel: usize) -> (r: Self)
        ensures
            r.converter == (Text2Audio {
                enable_parallel: true,
                max_parallel: spec_clamp(max_parallel as int, 1, 10) as usize,
                ..self.converter
            }),
    {
        Builder { converter: self.converter.with_parallel(max_parallel) }
    }

    /// Enable or disable thinking mode.
    pub fn thinking(self, enable: bool) -> (r: Self)
        ensures
            r.converter == (Text2Audio { enable_thinking: enable, ..self.converter }),
    {
        Builder { converter: self.converter.with_thinking(enable) }
    }

    /// Enable or disable the coding-plan endpoint.
    pub fn coding_plan(self, enable: bool) -> (r: Self)
        ensures
            r.converter == (Text2Audio { coding_plan: enable, ..self.converter }),
    {
        Builder { converter: self.converter.with_coding_plan(enable) }
    }

    /// Set the retry count and base backoff delay in milliseconds.
    pub fn retry_config(self, max_retries: u32, retry_delay_ms: u64) -> (r: Self)
        ensures
            r.converter == (Text2Audio { max_retries, retry_delay_ms, ..self.converter }),
    {
        Builder { converter: self.converter.with_retry_config(max_retries, retry_delay_ms) }
    }

    /// Finish building.
    pub fn build(self) -> (r: Text2Audio)
        ensures
            r == self.converter,
    {
        self.converter
    }
}

/// What `convert` decides to do with an input before any network
/// traffic.
#[derive(Debug)]
pub enum ConversionPlan {
    /// The trimmed text fits the budget: one synthesis call, no
    /// splitting.
    Direct { text: String },
    /// The trimmed text is over the budget: split first, then
    /// synthesize each segment.
    Segmented { text: String },
}

impl Text2Audio {
    /// Decide between the direct and the segmented path. The input is
    /// trimmed; blank input is rejected before any network call, and
    /// the direct path is taken exactly when the trimmed character
    /// count is within the segment-length budget, so short text never
    /// reaches the splitter.
    pub fn plan(&self, text: &str) -> (r: Result<ConversionPlan, Error>)
        ensures
            spec_trim(text@).len() == 0 <==> r is Err,
            r matches Err(e) ==> e is EmptyInput,
            r matches Ok(p) ==> (p matches ConversionPlan::Direct { text: t } ==> t@ == spec_trim(
                text@,
            )),
            r matches Ok(p) ==> (p matches ConversionPlan::Segmented { text: t } ==> t@
                == spec_trim(text@)),
            r matches Ok(p) ==> ((p is Direct) <==> spec_trim(text@).len()
                <= self.max_segment_length),
    {
        let t = trim_str(text);
        let n = t.as_str().unicode_len();
        if n == 0 {
            Err(Error::EmptyInput)
        } else if n <= self.max_segment_length {
            Ok(ConversionPlan::Direct { text: t })
        } else {
            Ok(ConversionPlan::Segmented { text: t })
        }
    }

    /// Accept the splitter's output for the segmented path: an empty
    /// segment list is rejected as empty input.
    pub fn accept_segments(segments: Vec<String>) -> (r: Result<Vec<String>, Error>)
        ensures
            segments@.len() > 0 <==> r is Ok,
            r matches Err(e) ==> e is EmptyInput,
            r matches Ok(v) ==> v == segments,
    {
        if segments.len() == 0 {
            Err(Error::EmptyInput)
        } else {
            Ok(segments)
        }
    }

    /// The splitter configured as the segmented path uses it.
    pub fn splitter(&self) -> (r: AiSplitter)
        ensures
            r.client.api_key@ == self.api_key@,
            r.client.model == self.model,
            r.client.thinking == self.enable_thinking,
            r.client.coding_plan == self.coding_plan,
            r.max_length == self.max_segment_length,
    {
        AiSplitter::new(self.api_key.as_str(), self.model, self.max_segment_length).with_thinking(
            self.enable_thinking,
        ).with_coding_plan(self.coding_plan)
    }

    /// The synthesis parameters every segment is sent with.
    pub fn tts_config(&self) -> (r: TtsConfig)
        ensures
            r == (TtsConfig { voice: self.voice, speed: self.speed, volume: self.volume }),
    {
        TtsConfig { voice: self.voice, speed: self.speed, volume: self.volume }
    }

    /// A fresh retry state for one segment's synthesis, under this
    /// configuration's retry policy.
    pub fn retry_state(&self) -> (r: RetryState)
        ensures
            r.max_retries == self.max_retries,
            r.base_delay_ms == self.retry_delay_ms,
            r.attempt == 0,
            r.last_error is None,
    {
        RetryState::new(self.max_retries, self.retry_delay_ms)
    }
}

/// Two to the given power, as a machine word.
fn pow2_u64(e: u32) -> (r: u64)
    requires
        e < 64,
    ensures
        r as nat == pow2(e as nat),
        r >= 1,
{
    proof {
        lemma2_to64();
    }
    let mut r: u64 = 1;
    let mut i: u32 = 0;
    while i < e
        invariant
            i <= e,
            e < 64,
            r as nat == pow2(i as nat),
            r >= 1,
        decreases e - i,
    {
        proof {
            lemma_pow2_strictly_increases(i as nat + 1, 64);
            lemma2_to64_rest();
            lemma_pow2_unfold(i as nat + 1);
        }
        r = r * 2;
        i = i + 1;
    }
    r
}

/// The retry policy for one synthesis call, driven attempt by attempt:
/// at most `max_retries` attempts, and after each failure that leaves
/// attempts open, a backoff delay of `base_delay_ms * 2^attempt`
/// milliseconds (exponential backoff, zero-indexed attempt).
pub struct RetryState {
    pub max_retries: u32,
    pub base_delay_ms: u64,
    pub attempt: u32,
    pub last_error: Option<Error>,
}

impl RetryState {
    /// A fresh state: no attempt made, no error seen.
    pub fn new(max_retries: u32, base_delay_ms: u64) -> (r: Self)
        ensures
            r == (RetryState { max_retries, base_delay_ms, attempt: 0u32, last_error: None::<
                Error,
            > }),
    {
        RetryState { max_retries, base_delay_ms, attempt: 0, last_error: None }
    }

    /// Whether another attempt may be made: exactly when fewer than
    /// `max_retries` attempts have run.
    pub fn should_attempt(&self) -> (r: bool)
        ensures
            r == (self.attempt < self.max_retries),
    {
        self.attempt < self.max_retries
    }

    /// Whether the backoff delay after the attempt about to run would
    /// fit in a machine word; the driver must check this before
    /// recording a failure.
    pub fn backoff_fits(&self) -> (r: bool)
        ensures
            r == ((self.attempt + 1 < self.max_retries) ==> (self.attempt < 64
                && self.base_delay_ms * pow2(self.attempt as nat) <= u64::MAX)),
    {
        if (self.attempt as u64) + 1 >= (self.max_retries as u64) {
            return true;
        }
        if self.attempt >= 64 {
            return false;
        }
        let p = pow2_u64(self.attempt);
        let q = u64::MAX / p;
        proof {
            let b = self.base_delay_ms as int;
            let pi = p as int;
            let m = u64::MAX as int;
            assert(pi > 0);
            if b <= m / pi {
                lemma_mul_inequality(b, m / pi, pi);
                lemma_fundamental_div_mod(m, pi);
            } else {
                if b * pi <= m {
                    lemma_div_is_ordered(b * pi, m, pi);
                    lemma_div_by_multiple(b, pi);
                }
            }
        }
        self.base_delay_ms <= q
    }

    /// Record one failed attempt. If attempts remain, the returned
    /// delay is the exponential backoff to wait before the next one:
    /// `base_delay_ms * 2^attempt` for the attempt that just failed.
    /// After the final attempt no delay is returned.
    pub fn record_failure(&mut self, error: Error) -> (delay: Option<u64>)
        requires
            old(self).attempt < old(self).max_retries,
            old(self).attempt + 1 < old(self).max_retries ==> (old(self).attempt < 64 && old(
                self,
            ).base_delay_ms * pow2(old(self).attempt as nat) <= u64::MAX),
        ensures
            final(self).max_retries == old(self).max_retries,
            final(self).base_delay_ms == old(self).base_delay_ms,
            final(self).attempt == old(self).attempt + 1,
            final(self).last_error == Some(error),
            final(self).attempt < final(self).max_retries ==> delay == Some(
                (old(self).base_delay_ms * pow2(old(self).attempt as nat)) as u64,
            ),
            final(self).attempt == final(self).max_retries ==> delay is None,
            *final(self) == spec_record_failure(*old(self), error).0,
            delay == spec_record_failure(*old(self), error).1,
    {
        let a = self.attempt;
        self.last_error = Some(error);
        self.attempt = a + 1;
        if self.attempt < self.max_retries {
            let d = self.base_delay_ms * pow2_u64(a);
            Some(d)
        } else {
            None
        }
    }

    /// The error surfaced after all attempts failed: the last one
    /// observed, or the generic synthesis error when no attempt ever
    /// ran.
    pub fn into_error(self) -> (r: Error)
        ensures
            self.last_error matches Some(e) ==> r == e,
            self.last_error is None ==> (r matches Error::TtsApi(m) && m@ == "Unknown error"@),
    {
        match self.last_error {
            Some(e) => e,
            None => Error::TtsApi("Unknown error".to_owned()),
        }
    }
}

/// The retry machine's transition on one failure: the attempt counter
/// advances, the error is kept, and a backoff delay of
/// `base_delay_ms * 2^attempt` is handed out exactly while attempts
/// remain.
pub open spec fn spec_record_failure(s: RetryState, error: Error) -> (RetryState, Option<u64>) {
    let next = RetryState { attempt: (s.attempt + 1) as u32, last_error: Some(error), ..s };
    let delay = if next.attempt < s.max_retries {
        Some((s.base_delay_ms * pow2(s.attempt as nat)) as u64)
    } else {
        None::<u64>
    };
    (next, delay)
}

/// The state a retry policy starts from.
pub open spec fn spec_fresh_retry_state(max_retries: u32, base_delay_ms: u64) -> RetryState {
    RetryState { max_retries, base_delay_ms, attempt: 0u32, last_error: None::<Error> }
}

/// A retry state driven through a sequence of failures, one
/// `record_failure` per element in order: the state afterwards and the
/// backoff delays handed out along the way.
pub open spec fn spec_retry_run(s: RetryState, errors: Seq<Error>) -> (RetryState, Seq<u64>)
    decreases errors.len(),
{
    if errors.len() == 0 {
        (s, Seq::<u64>::empty())
    } else {
        let prev = spec_retry_run(s, errors.drop_last());
        let step = spec_record_failure(prev.0, errors.last());
        (
            step.0,
            if step.1 is Some {
                prev.1.push(step.1->0)
            } else {
                prev.1
            },
        )
    }
}

proof fn lemma_retry_run_rec(m: u32, b: u64, errors: Seq<Error>)
    requires
        errors.len() <= m,
        forall|i: int| 0 <= i < errors.len() && i + 1 < m ==> b * #[trigger] pow2(i as nat) <= u64::MAX,
    ensures
        ({
            let run = spec_retry_run(spec_fresh_retry_state(m, b), errors);
            &&& run.0.max_retries == m
            &&& run.0.base_delay_ms == b
            &&& run.0.attempt == errors.len()
            &&& (errors.len() > 0 ==> run.0.last_error == Some(errors.last()))
            &&& (errors.len() == 0 ==> run.0.last_error is None)
            &&& run.1.len() == (if errors.len() < m {
                errors.len() as int
            } else if m == 0 {
                0int
            } else {
                m - 1
            })
            &&& (forall|i: int| 0 <= i < run.1.len() ==> #[trigger] run.1[i] as int == b * pow2(i as nat))
        }),
    decreases errors.len(),
{
    if errors.len() > 0 {
        lemma_retry_run_rec(m, b, errors.drop_last());
        assert(errors.drop_last().len() < m);
    }
}

/// Exponential backoff in full: a synthesis call that fails its first
/// `k` attempts, `k < max_retries`, is retried through exactly `k`
/// backoff delays, the `i`-th equal to `base_delay_ms * 2^i`
/// milliseconds (zero-indexed), after which the policy still admits
/// the next attempt — the one whose success the driver then returns.
pub proof fn lemma_retry_backoff_schedule(m: u32, b: u64, errors: Seq<Error>)
    requires
        errors.len() < m,
        forall|i: int| 0 <= i < errors.len() ==> b * #[trigger] pow2(i as nat) <= u64::MAX,
    ensures
        ({
            let run = spec_retry_run(spec_fresh_retry_state(m, b), errors);
            &&& run.0.attempt < run.0.max_retries
            &&& run.1.len() == errors.len()
            &&& (forall|i: int| 0 <= i < run.1.len() ==> #[trigger] run.1[i] as int == b * pow2(i as nat))
        }),
{
    lemma_retry_run_rec(m, b, errors);
}

/// Exhausted retries in full: when every one of `max_retries >= 1`
/// attempts fails, the policy hands out exactly `max_retries - 1`
/// backoff delays, admits no further attempt, and holds the error of
/// the final attempt — the one `into_error` then surfaces verbatim.
pub proof fn lemma_retry_exhausted(m: u32, b: u64, errors: Seq<Error>)
    requires
        m >= 1,
        errors.len() == m,
        forall|i: int| 0 <= i < m - 1 ==> b * #[trigger] pow2(i as nat) <= u64::MAX,
    ensures
        ({
            let run = spec_retry_run(spec_fresh_retry_state(m, b), errors);
            &&& run.0.attempt == run.0.max_retries
            &&& run.0.last_error == Some(errors.last())
            &&& run.1.len() == m - 1
            &&& (forall|i: int| 0 <= i < run.1.len() ==> #[trigger] run.1[i] as int == b * pow2(i as nat))
        }),
{
    lemma_retry_run_rec(m, b, errors);
}

/// Order-preserving fan-in for concurrent synthesis: one slot per
/// segment, filled in whatever order the network completes, read back
/// in segment order.
pub struct AudioCollector {
    pub slots: Vec<Option<Vec<u8>>>,
}

impl AudioCollector {
    /// A collector with `n` empty slots.
    pub fn new(n: usize) -> (r: Self)
        ensures
            r.slots@.len() == n,
            forall|i: int| 0 <= i < n ==> r.slots@[i] is None,
    {
        let mut slots: Vec<Option<Vec<u8>>> = Vec::new();
        let mut k: usize = 0;
        while k < n
            invariant
                k <= n,
                slots@.len() == k,
                forall|i: int| 0 <= i < k ==> slots@[i] is None,
            decreases n - k,
        {
            slots.push(None);
            k = k + 1;
        }
        AudioCollector { slots }
    }

    /// How many slots there are.
    pub fn len(&self) -> (r: usize)
        ensures
            r == self.slots@.len(),
    {
        self.slots.len()
    }

    /// Store the audio for the segment at `index`, leaving every other
    /// slot untouched.
    pub fn record(&mut self, index: usize, audio: Vec<u8>)
        requires
            index < old(self).slots@.len(),
        ensures
            final(self).slots@ == old(self).slots@.update(index as int, Some(audio)),
    {
        self.slots.set(index, Some(audio));
    }

    /// Whether every slot has been filled.
    pub fn is_complete(&self) -> (r: bool)
        ensures
            r == (forall|i: int| 0 <= i < self.slots@.len() ==> self.slots@[i] is Some),
    {
        let n = self.slots.len();
        let mut k: usize = 0;
        while k < n
            invariant
                k <= n,
                n == self.slots@.len(),
                forall|i: int| 0 <= i < k ==> self.slots@[i] is Some,
            decreases n - k,
        {
            if self.slots[k].is_none() {
                return false;
            }
            k = k + 1;
        }
        true
    }

    /// The collected audio buffers in segment order, regardless of the
    /// order in which they were recorded.
    pub fn into_ordered(self) -> (r: Vec<Vec<u8>>)
        requires
            forall|i: int| 0 <= i < self.slots@.len() ==> self.slots@[i] is Some,
        ensures
            r@.len() == self.slots@.len(),
            forall|i: int| 0 <= i < r@.len() ==> r@[i] == self.slots@[i]->0,
    {
        let ghost orig = self.slots@;
        let mut slots = self.slots;
        let mut out: Vec<Vec<u8>> = Vec::new();
        while slots.len() > 0
            invariant
                out@.len() + slots@.len() == orig.len(),
                slots@ == orig.subrange(out@.len() as int, orig.len() as int),
                forall|i: int| 0 <= i < orig.len() ==> orig[i] is Some,
                forall|i: int| 0 <= i < out@.len() ==> out@[i] == orig[i]->0,
            decreases slots@.len(),
        {
            let ghost k = out@.len() as int;
            let x = slots.remove(0);
            proof {
                assert(x == orig[k]);
                assert(slots@ =~= orig.subrange(k + 1, orig.len() as int));
            }
            match x {
                Some(b) => {
                    out.push(b);
                },
                None => {
                    proof {
                        assert(false);
                    }
                },
            }
        }
        out
    }
}

/// Some recording in `events` is for the segment at index `i`.
pub open spec fn records_index(events: Seq<(usize, Seq<u8>)>, i: int) -> bool {
    exists|j: int| 0 <= j < events.len() && (#[trigger] events[j]).0 == i
}

/// The slots after a sequence of recordings, each event pairing a
/// segment index with its audio, applied in the order given.
pub open spec fn apply_records(n: nat, events: Seq<(usize, Seq<u8>)>) -> Seq<Option<Seq<u8>>>
    decreases events.len(),
{
    if events.len() == 0 {
        Seq::new(n, |i: int| None::<Seq<u8>>)
    } else {
        apply_records(n, events.drop_last()).update(
            events.last().0 as int,
            Some(events.last().1),
        )
    }
}

/// Recording in-range indices never changes the number of slots.
pub proof fn lemma_apply_records_len(n: nat, events: Seq<(usize, Seq<u8>)>)
    requires
        forall|j: int| 0 <= j < events.len() ==> (#[trigger] events[j]).0 < n,
    ensures
        apply_records(n, events).len() == n,
    decreases events.len(),
{
    if events.len() > 0 {
        assert(forall|k: int|
            0 <= k < events.len() - 1 ==> events.drop_last()[k] == (#[trigger] events[k]));
        lemma_apply_records_len(n, events.drop_last());
        assert(events[events.len() - 1].0 < n);
    }
}

proof fn lemma_apply_records_at(
    n: nat,
    events: Seq<(usize, Seq<u8>)>,
    payload: spec_fn(int) -> Seq<u8>,
    i: int,
)
    requires
        forall|j: int| 0 <= j < events.len() ==> (#[trigger] events[j]).0 < n,
        forall|j: int| 0 <= j < events.len() ==> (#[trigger] events[j]).1 == payload(
            events[j].0 as int,
        ),
        0 <= i < n,
        records_index(events, i),
    ensures
        apply_records(n, events)[i] == Some(payload(i)),
    decreases events.len(),
{
    let w = choose|j: int| 0 <= j < events.len() && (#[trigger] events[j]).0 == i;
    assert(events.len() > 0);
    assert(forall|k: int|
        0 <= k < events.len() - 1 ==> events.drop_last()[k] == (#[trigger] events[k]));
    lemma_apply_records_len(n, events.drop_last());
    let last = events.last();
    if last.0 == i {
        assert(events[events.len() - 1].1 == payload(i));
    } else {
        assert(w < events.len() - 1);
        assert(events.drop_last()[w].0 == i);
        assert(records_index(events.drop_last(), i));
        lemma_apply_records_at(n, events.drop_last(), payload, i);
    }
}

/// Order preservation under concurrency: if every segment index below
/// `n` is recorded at some point, each with the audio belonging to that
/// index, then whatever order the recordings arrive in, the slots end
/// up holding each segment's audio at that segment's position.
pub proof fn lemma_order_preserved(
    n: nat,
    events: Seq<(usize, Seq<u8>)>,
    payload: spec_fn(int) -> Seq<u8>,
)
    requires
        forall|j: int| 0 <= j < events.len() ==> (#[trigger] events[j]).0 < n,
        forall|j: int| 0 <= j < events.len() ==> (#[trigger] events[j]).1 == payload(
            events[j].0 as int,
        ),
        forall|i: int| 0 <= i < n ==> #[trigger] records_index(events, i),
    ensures
        apply_records(n, events).len() == n,
        forall|i: int| 0 <= i < n ==> apply_records(n, events)[i] == Some(payload(i)),
{
    lemma_apply_records_len(n, events);
    assert forall|i: int| 0 <= i < n implies apply_records(n, events)[i] == Some(payload(i)) by {
        lemma_apply_records_at(n, events, payload, i);
    }
}

} // verus!
