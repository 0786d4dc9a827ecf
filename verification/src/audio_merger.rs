//! Validating and merging synthesized audio buffers into one container.
//!
//! Every buffer is an encoded WAV file. Merging reads the format
//! descriptor from the first buffer, decodes every buffer's sample
//! stream in order, and concatenates the samples under that descriptor,
//! so the output's duration is the sum of the inputs' durations and the
//! segment order is kept. The container encoding and decoding itself is
//! done by the audio library behind trusted wrappers; writing the
//! resulting bytes to disk happens outside the library.

use vstd::prelude::*;

use crate::error::Error;
use crate::text::{dec_digits, decimal_string, starts_with};

verus! {

/// Whether samples are stored as floats or as integers.
#[derive(Debug, Clone, Copy, PartialEq, Eq, Structural)]
pub enum AudioSampleFormat {
    Float,
    Int,
}

/// The format descriptor embedded in an audio container.
#[derive(Debug, Clone, Copy, PartialEq, Eq, Structural)]
pub struct AudioSpec {
    pub channels: u16,
    pub sample_rate: u32,
    pub bits_per_sample: u16,
    pub sample_format: AudioSampleFormat,
}

/// The format descriptor parsed from a WAV container's header, or
/// nothing when the bytes are not a parseable container. A function of
/// the bytes alone.
pub uninterp spec fn wav_header(bytes: Seq<u8>) -> Option<AudioSpec>;

/// The 16-bit sample stream decoded from a WAV container, or nothing
/// when the bytes cannot be decoded that way. A function of the bytes
/// alone.
pub uninterp spec fn wav_samples(bytes: Seq<u8>) -> Option<Seq<i16>>;

/// The WAV container written for a descriptor and a sample stream. A
/// function of both alone.
pub uninterp spec fn wav_encoding(spec: AudioSpec, samples: Seq<i16>) -> Seq<u8>;

/// Whether writing a container for an accepted descriptor
/// (`spec_encodable`) and this sample stream succeeds: the samples
/// must form whole frames, and at 8-bit depth each sample must fit one
/// byte; every other accepted depth takes every 16-bit sample.
pub open spec fn wav_encodes_ok(spec: AudioSpec, samples: Seq<i16>) -> bool {
    &&& samples.len() as int % (spec.channels as int) == 0
    &&& (spec.bits_per_sample == 8 ==> forall|i: int|
        0 <= i < samples.len() ==> -128 <= #[trigger] samples[i] <= 127)
}

/// The descriptors and sample counts the container writer accepts
/// without fault and writes as a well-formed container: at least one
/// channel, a positive sample rate, a whole-byte bit depth the
/// container supports, float samples only at 32 bits, a frame size
/// that fits the header's 16-bit block-align field, and a byte rate
/// and data size that fit the container's 32-bit size fields (its
/// header takes at most 68 bytes). Outside this set the writer divides
/// by the sample rate and channel count, rejects the descriptor by
/// panicking, or truncates a header field, so no contract covers it.
pub open spec fn spec_encodable(spec: AudioSpec, n_samples: nat) -> bool {
    &&& spec.channels >= 1
    &&& spec.sample_rate >= 1
    &&& (spec.bits_per_sample == 8 || spec.bits_per_sample == 16 || spec.bits_per_sample == 24
        || spec.bits_per_sample == 32)
    &&& (spec.sample_format == AudioSampleFormat::Float ==> spec.bits_per_sample == 32)
    &&& spec.channels * (spec.bits_per_sample as int / 8) <= u16::MAX
    &&& spec.sample_rate * (spec.bits_per_sample as int / 8) * spec.channels <= u32::MAX
    &&& n_samples * (spec.bits_per_sample as int / 8) + 68 <= u32::MAX
}

/// Runtime test for `spec_encodable`.
fn encodable(spec: &AudioSpec, n_samples: usize) -> (r: bool)
    ensures
        r == spec_encodable(*spec, n_samples as nat),
{
    let bits = spec.bits_per_sample;
    if !(bits == 8 || bits == 16 || bits == 24 || bits == 32) {
        return false;
    }
    if spec.channels < 1 || spec.sample_rate < 1 {
        return false;
    }
    if spec.sample_format == AudioSampleFormat::Float && bits != 32 {
        return false;
    }
    let bytes = (bits / 8) as u64;
    proof {
        assert((spec.channels as int) * (bytes as int) <= 0xffff * 4 && (
        spec.sample_rate as int) * (bytes as int) <= 0xffff_ffff * 4 && (
        spec.sample_rate as int) * (bytes as int) * (spec.channels as int) <= 0xffff_ffff * 4
            * 0xffff) by (nonlinear_arith)
            requires
                0 <= spec.sample_rate as int <= 0xffff_ffff,
                0 <= bytes as int <= 4,
                0 <= spec.channels as int <= 0xffff,
        ;
    }
    if (spec.channels as u64) * bytes > u16::MAX as u64 {
        return false;
    }
    let byte_rate = (spec.sample_rate as u64) * bytes * (spec.channels as u64);
    if byte_rate > u32::MAX as u64 {
        return false;
    }
    let data_bytes = match (n_samples as u64).checked_mul(bytes) {
        Some(v) => v,
        None => {
            return false;
        },
    };
    let file_bytes = match data_bytes.checked_add(68) {
        Some(v) => v,
        None => {
            return false;
        },
    };
    file_bytes <= u32::MAX as u64
}

/// Relies on hound::WavReader::new and WavReader::spec: the format
/// descriptor read from the container header.
#[verifier::external_body]
fn read_wav_spec(bytes: &[u8]) -> (r: Result<AudioSpec, String>)
    ensures
        r matches Ok(s) ==> wav_header(bytes@) == Some(s),
        r is Err ==> wav_header(bytes@) is None,
{
    match hound::WavReader::new(std::io::Cursor::new(bytes)) {
        Ok(reader) => {
            let s = reader.spec();
            Ok(AudioSpec {
                channels: s.channels,
                sample_rate: s.sample_rate,
                bits_per_sample: s.bits_per_sample,
                sample_format: match s.sample_format {
                    hound::SampleFormat::Float => AudioSampleFormat::Float,
                    hound::SampleFormat::Int => AudioSampleFormat::Int,
                },
            })
        },
        Err(e) => Err(format!("{}", e)),
    }
}

/// Relies on hound::WavReader::new and WavReader::samples: the 16-bit
/// sample stream decoded from the container.
#[verifier::external_body]
fn read_wav_samples(bytes: &[u8]) -> (r: Result<Vec<i16>, String>)
    ensures
        r matches Ok(v) ==> wav_samples(bytes@) == Some(v@),
        r is Err ==> wav_samples(bytes@) is None,
        r is Ok ==> wav_header(bytes@) is Some,
{
    match hound::WavReader::new(std::io::Cursor::new(bytes)) {
        Ok(mut reader) => match reader.samples::<i16>().collect::<Result<Vec<i16>, _>>() {
            Ok(v) => Ok(v),
            Err(e) => Err(format!("{}", e)),
        },
        Err(e) => Err(format!("{}", e)),
    }
}

/// Relies on hound::WavWriter::new, write_sample and finalize: the
/// container written for this descriptor and sample stream. The
/// descriptor must be one the writer accepts without fault
/// (`spec_encodable`): the writer panics on a float descriptor of
/// another width, divides by the sample rate and the channel count,
/// sizes its fields in 32 bits, and truncates the block-align header
/// field to 16. Within that set it succeeds exactly when the samples
/// form whole frames and, at 8-bit depth, each fits one byte
/// (`wav_encodes_ok`), and hound's lossless round-trip tests warrant
/// that an 8- or 16-bit integer container it wrote parses back to the
/// same descriptor and samples.
#[verifier::external_body]
fn write_wav_bytes(spec: &AudioSpec, samples: &Vec<i16>) -> (r: Result<Vec<u8>, String>)
    requires
        spec_encodable(*spec, samples@.len() as nat),
    ensures
        r is Ok <==> wav_encodes_ok(*spec, samples@),
        r matches Ok(out) ==> out@ == wav_encoding(*spec, samples@),
        r matches Ok(out) ==> ((spec.sample_format == AudioSampleFormat::Int && (
        spec.bits_per_sample == 8 || spec.bits_per_sample == 16)) ==> (wav_header(out@) == Some(
            *spec,
        ) && wav_samples(out@) == Some(samples@))),
{
    let sample_format = match spec.sample_format {
        AudioSampleFormat::Float => hound::SampleFormat::Float,
        AudioSampleFormat::Int => hound::SampleFormat::Int,
    };
    let (channels, sample_rate, bits_per_sample) =
        (spec.channels, spec.sample_rate, spec.bits_per_sample);
    let hspec = hound::WavSpec { channels, sample_rate, bits_per_sample, sample_format };
    let mut cursor = std::io::Cursor::new(Vec::new());
    let mut writer = hound::WavWriter::new(&mut cursor, hspec).map_err(|e| format!("{}", e))?;
    for s in samples.iter() {
        writer.write_sample(*s).map_err(|e| format!("{}", e))?;
    }
    writer.finalize().map_err(|e| format!("{}", e))?;
    Ok(cursor.into_inner())
}

/// A single output container: the descriptor copied from the first
/// input buffer and every input's samples in order.
#[derive(Debug)]
pub struct MergedAudio {
    pub spec: AudioSpec,
    pub samples: Vec<i16>,
}

impl MergedAudio {
    /// Encode this audio as WAV bytes, ready to be written to disk.
    /// Succeeds exactly when the descriptor is one the writer accepts
    /// and the writer accepts the samples under it; a degenerate
    /// descriptor (no channels, a zero sample rate, an unsupported bit
    /// depth, or data beyond the container's size fields) is refused
    /// with an error instead.
    pub fn to_wav_bytes(&self) -> (r: Result<Vec<u8>, Error>)
        ensures
            r is Ok <==> (spec_encodable(self.spec, self.samples@.len() as nat) && wav_encodes_ok(
                self.spec,
                self.samples@,
            )),
            !spec_encodable(self.spec, self.samples@.len() as nat) ==> (r matches Err(e)
                && e matches Error::Audio(m) && m@ == "Unsupported audio format"@),
            (spec_encodable(self.spec, self.samples@.len() as nat) && !wav_encodes_ok(
                self.spec,
                self.samples@,
            )) ==> (r matches Err(e) && e is Hound),
            r matches Ok(out) ==> out@ == wav_encoding(self.spec, self.samples@),
            r matches Ok(out) ==> ((self.spec.sample_format == AudioSampleFormat::Int && (
            self.spec.bits_per_sample == 8 || self.spec.bits_per_sample == 16)) ==> (wav_header(
                out@,
            ) == Some(self.spec) && wav_samples(out@) == Some(self.samples@))),
    {
        if !encodable(&self.spec, self.samples.len()) {
            return Err(Error::Audio("Unsupported audio format".to_owned()));
        }
        match write_wav_bytes(&self.spec, &self.samples) {
            Ok(v) => Ok(v),
            Err(m) => Err(Error::Hound(m)),
        }
    }
}

/// Every buffer's sample stream decodes.
pub open spec fn all_decode(segs: Seq<Seq<u8>>) -> bool {
    forall|j: int| 0 <= j < segs.len() ==> wav_samples(#[trigger] segs[j]) is Some
}

/// The samples of all buffers, concatenated in order; a buffer that
/// does not decode contributes nothing.
pub open spec fn concat_samples(segs: Seq<Seq<u8>>) -> Seq<i16>
    decreases segs.len(),
{
    if segs.len() == 0 {
        Seq::empty()
    } else {
        concat_samples(segs.drop_last()) + (match wav_samples(segs.last()) {
            Some(v) => v,
            None => Seq::<i16>::empty(),
        })
    }
}

/// The error message tag for a buffer that failed to decode during a
/// merge: the segment's index follows the word, so the caller can tell
/// which buffer was at fault.
pub open spec fn segment_error_prefix(j: int) -> Seq<char> {
    "Segment "@ + dec_digits(j as nat) + " invalid WAV: "@
}

/// Merges independently synthesized audio buffers into one container.
pub struct AudioMerger;

impl AudioMerger {
    /// Merge an ordered sequence of WAV buffers into one container
    /// whose descriptor is the first buffer's and whose samples are
    /// every buffer's samples in order. An empty sequence is refused;
    /// a buffer that fails to decode aborts the merge with an error
    /// naming its index.
    pub fn merge(audio_segments: Vec<Vec<u8>>) -> (r: Result<MergedAudio, Error>)
        ensures
            audio_segments@.len() == 0 ==> (r matches Err(e) && e matches Error::Audio(m) && m@
                == "No audio segments to merge"@),
            audio_segments@.len() > 0 && wav_header(audio_segments.deep_view()[0]) is None ==> (
            r matches Err(e) && e matches Error::Audio(m) && starts_with(
                m@,
                "Invalid WAV format: "@,
            )),
            audio_segments@.len() > 0 && wav_header(audio_segments.deep_view()[0]) is Some
                && all_decode(audio_segments.deep_view()) ==> (r matches Ok(out) && out.spec
                == wav_header(audio_segments.deep_view()[0])->0 && out.samples@ == concat_samples(
                audio_segments.deep_view(),
            )),
            audio_segments@.len() > 0 && wav_header(audio_segments.deep_view()[0]) is Some
                && !all_decode(audio_segments.deep_view()) ==> (r matches Err(e) && e matches
                Error::Audio(m) && exists|j: int|
                0 <= j < audio_segments@.len() && wav_samples(
                    #[trigger] audio_segments.deep_view()[j],
                ) is None && (forall|k: int|
                    0 <= k < j ==> wav_samples(#[trigger] audio_segments.deep_view()[k]) is Some)
                    && starts_with(m@, segment_error_prefix(j))),
    {
        let ghost dv = audio_segments.deep_view();
        proof {
            assert forall|k: int| 0 <= k < dv.len() implies #[trigger] dv[k]
                == audio_segments@[k]@ by {
                assert(audio_segments@[k].deep_view() =~= audio_segments@[k]@);
            }
        }
        if audio_segments.len() == 0 {
            return Err(Error::Audio("No audio segments to merge".to_owned()));
        }
        let spec0 = match read_wav_spec(audio_segments[0].as_slice()) {
            Ok(s) => s,
            Err(m) => {
                let mut out = String::from_str("Invalid WAV format: ");
                out.append(m.as_str());
                proof {
                    assert(out@.subrange(0, "Invalid WAV format: "@.len() as int)
                        =~= "Invalid WAV format: "@);
                }
                return Err(Error::Audio(out));
            },
        };
        let mut samples: Vec<i16> = Vec::new();
        let mut idx: usize = 0;
        proof {
            assert(dv.subrange(0, 0) =~= Seq::<Seq<u8>>::empty());
        }
        while idx < audio_segments.len()
            invariant
                idx <= audio_segments@.len(),
                dv == audio_segments.deep_view(),
                dv.len() == audio_segments@.len(),
                audio_segments@.len() > 0,
                wav_header(dv[0]) == Some(spec0),
                forall|k: int| 0 <= k < idx ==> wav_samples(#[trigger] dv[k]) is Some,
                samples@ == concat_samples(dv.subrange(0, idx as int)),
            decreases audio_segments@.len() - idx,
        {
            proof {
                assert(audio_segments@[idx as int].deep_view() =~= audio_segments@[idx as int]@);
                assert(dv[idx as int] == audio_segments@[idx as int]@);
            }
            match read_wav_samples(audio_segments[idx].as_slice()) {
                Ok(mut v) => {
                    samples.append(&mut v);
                    proof {
                        let pre = dv.subrange(0, idx as int + 1);
                        assert(pre.drop_last() =~= dv.subrange(0, idx as int));
                        assert(pre.last() == dv[idx as int]);
                    }
                },
                Err(m) => {
                    let mut out = String::from_str("Segment ");
                    let num = decimal_string(idx as u64);
                    out.append(num.as_str());
                    out.append(" invalid WAV: ");
                    out.append(m.as_str());
                    proof {
                        assert(out@.subrange(0, segment_error_prefix(idx as int).len() as int)
                            =~= segment_error_prefix(idx as int));
                    }
                    return Err(Error::Audio(out));
                },
            }
            idx = idx + 1;
        }
        proof {
            assert(dv.subrange(0, dv.len() as int) =~= dv);
        }
        Ok(MergedAudio { spec: spec0, samples })
    }

    /// Re-encode a single WAV buffer: parse its descriptor and samples
    /// and write a fresh container with the same descriptor and the
    /// same samples — an identity copy, which for the integer bit
    /// depths the re-reader supports parses back to the input's
    /// descriptor and samples. Empty or unparseable buffers are
    /// refused; on a decodable buffer the copy succeeds exactly when
    /// the writer accepts the parsed descriptor and samples.
    pub fn save_single(audio_bytes: &[u8]) -> (r: Result<Vec<u8>, Error>)
        ensures
            audio_bytes@.len() == 0 ==> (r matches Err(e) && e matches Error::Audio(m) && m@
                == "Empty audio data"@),
            audio_bytes@.len() > 0 && wav_header(audio_bytes@) is None ==> (r matches Err(e)
                && e matches Error::Audio(m) && starts_with(m@, "Invalid WAV format: "@)),
            audio_bytes@.len() > 0 && wav_header(audio_bytes@) is Some && wav_samples(
                audio_bytes@,
            ) is None ==> (r matches Err(e) && e is Hound),
            (audio_bytes@.len() > 0 && wav_header(audio_bytes@) is Some && wav_samples(
                audio_bytes@,
            ) is Some) ==> (r is Ok <==> (spec_encodable(
                wav_header(audio_bytes@)->0,
                wav_samples(audio_bytes@)->0.len(),
            ) && wav_encodes_ok(wav_header(audio_bytes@)->0, wav_samples(audio_bytes@)->0))),
            r matches Ok(out) ==> (wav_header(audio_bytes@) is Some && wav_samples(audio_bytes@)
                is Some && out@ == wav_encoding(
                wav_header(audio_bytes@)->0,
                wav_samples(audio_bytes@)->0,
            )),
            r matches Ok(out) ==> ((wav_header(audio_bytes@)->0.sample_format
                == AudioSampleFormat::Int && (wav_header(audio_bytes@)->0.bits_per_sample == 8
                || wav_header(audio_bytes@)->0.bits_per_sample == 16)) ==> (wav_header(out@)
                == Some(wav_header(audio_bytes@)->0) && wav_samples(out@) == Some(
                wav_samples(audio_bytes@)->0,
            ))),
            r is Ok ==> audio_bytes@.len() > 0,
    {
        if audio_bytes.len() == 0 {
            return Err(Error::Audio("Empty audio data".to_owned()));
        }
        let spec = match read_wav_spec(audio_bytes) {
            Ok(s) => s,
            Err(m) => {
                let mut out = String::from_str("Invalid WAV format: ");
                out.append(m.as_str());
                proof {
                    assert(out@.subrange(0, "Invalid WAV format: "@.len() as int)
                        =~= "Invalid WAV format: "@);
                }
                return Err(Error::Audio(out));
            },
        };
        let samples = match read_wav_samples(audio_bytes) {
            Ok(v) => v,
            Err(m) => {
                return Err(Error::Hound(m));
            },
        };
        let merged = MergedAudio { spec, samples };
        merged.to_wav_bytes()
    }
}

} // verus!
