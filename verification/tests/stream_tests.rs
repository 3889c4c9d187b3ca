use syphon::codec::KnownCodec;
use syphon::descriptor::{SampleFormat, StreamSpec};
use syphon::duration::Duration;
use syphon::error::SyphonError;
use syphon::stream::{MemStreamReader, MemStreamWriter};
use syphon::stream_copy::{copy_stream_all, copy_stream_exact};

fn pcm_stereo() -> StreamSpec {
    StreamSpec {
        codec: KnownCodec::PcmLE,
        sample_format: SampleFormat::Int16,
        sample_rate: 48000,
        n_channels: 2,
        block_align: 4,
    }
}

fn byte_ramp(n: usize) -> Vec<u8> {
    (0..n).map(|i| i as u8).collect()
}

#[test]
fn copy_stream_exact_two_cycles() {
    let spec = pcm_stereo();
    let bytes = byte_ramp(32);
    let mut reader = MemStreamReader::new(spec, bytes.clone(), Vec::new());
    let mut writer = MemStreamWriter::new(spec);
    let mut buf = vec![0u8; 16];
    let r = copy_stream_exact(&mut reader, &mut writer, Duration::Bytes(32), &mut buf);
    assert!(r.is_ok());
    assert_eq!(writer.contents(), &bytes);
    assert_eq!(writer.write_count(), 2);
}

#[test]
fn copy_stream_exact_rejects_different_tags() {
    let spec = pcm_stereo();
    let mut other = spec;
    other.codec = KnownCodec::PcmBE;
    let mut reader = MemStreamReader::new(spec, byte_ramp(32), Vec::new());
    let mut writer = MemStreamWriter::new(other);
    let mut buf = vec![0u8; 16];
    let r = copy_stream_exact(&mut reader, &mut writer, Duration::Bytes(32), &mut buf);
    assert_eq!(r, Err(SyphonError::ParamMismatch));
    assert!(writer.contents().is_empty());
}

#[test]
fn copy_stream_exact_source_exhausted_is_out_of_bounds() {
    let spec = pcm_stereo();
    let mut reader = MemStreamReader::new(spec, byte_ramp(8), Vec::new());
    let mut writer = MemStreamWriter::new(spec);
    let mut buf = vec![0u8; 16];
    let r = copy_stream_exact(&mut reader, &mut writer, Duration::Bytes(32), &mut buf);
    assert_eq!(r, Err(SyphonError::OutOfBounds));
}

#[test]
fn copy_stream_exact_retries_transients() {
    let spec = pcm_stereo();
    let bytes = byte_ramp(16);
    let mut reader = MemStreamReader::new(spec, bytes.clone(), vec![SyphonError::Interrupted]);
    let mut writer = MemStreamWriter::new(spec);
    let mut buf = vec![0u8; 16];
    let r = copy_stream_exact(&mut reader, &mut writer, Duration::Frames(4), &mut buf);
    assert!(r.is_ok());
    assert_eq!(writer.contents(), &bytes);
}

#[test]
fn copy_stream_all_until_exhaustion() {
    let spec = pcm_stereo();
    let bytes = byte_ramp(40);
    let mut reader = MemStreamReader::new(spec, bytes.clone(), vec![SyphonError::NotReady]);
    let mut writer = MemStreamWriter::new(spec);
    let mut buf = vec![0u8; 16];
    let r = copy_stream_all(&mut reader, &mut writer, &mut buf);
    assert!(r.is_ok());
    assert_eq!(writer.contents(), &bytes);
}

#[test]
fn copy_stream_all_full_sink_is_success() {
    let spec = pcm_stereo();
    let mut reader = MemStreamReader::new(spec, byte_ramp(32), Vec::new());
    let mut writer = MemStreamWriter::with_capacity(spec, 8);
    let mut buf = vec![0u8; 8];
    let r = copy_stream_all(&mut reader, &mut writer, &mut buf);
    assert!(r.is_ok());
    assert_eq!(writer.contents(), &byte_ramp(8));
}

#[test]
fn copy_stream_all_rejects_mismatch() {
    let spec = pcm_stereo();
    let mut other = spec;
    other.sample_rate = 44100;
    let mut reader = MemStreamReader::new(spec, byte_ramp(8), Vec::new());
    let mut writer = MemStreamWriter::new(other);
    let mut buf = vec![0u8; 8];
    let r = copy_stream_all(&mut reader, &mut writer, &mut buf);
    assert_eq!(r, Err(SyphonError::ParamMismatch));
}
