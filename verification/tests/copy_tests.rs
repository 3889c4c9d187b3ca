use syphon::copy::{
    copy_all, copy_all_buffered, copy_exact, copy_exact_buffered, pipe, pipe_read_step, read_step,
    write_failure_outcome, ReadStep,
};
use syphon::descriptor::{SampleFormat, SignalSpec};
use syphon::duration::Duration;
use syphon::error::SyphonError;
use syphon::signal::{BufferedMemWriter, MemSignalReader, MemSignalWriter};

fn stereo_16() -> SignalSpec {
    SignalSpec { sample_format: SampleFormat::Int16, sample_rate: 48000, n_channels: 2 }
}

fn ramp(n: usize) -> Vec<i32> {
    (0..n).map(|i| i as i32).collect()
}

#[test]
fn read_policy_by_outcome() {
    // Transients are retried; data advances; a zero-unit read is a hard
    // OutOfBounds for an exact copy and normal termination otherwise;
    // every other error surfaces unchanged.
    assert_eq!(read_step(Err(SyphonError::Interrupted), true), ReadStep::Retry);
    assert_eq!(read_step(Err(SyphonError::NotReady), false), ReadStep::Retry);
    assert_eq!(read_step(Ok(5), true), ReadStep::Advance(5));
    assert_eq!(read_step(Ok(0), true), ReadStep::Stop(Err(SyphonError::OutOfBounds)));
    assert_eq!(read_step(Ok(0), false), ReadStep::Stop(Ok(())));
    assert_eq!(
        read_step(Err(SyphonError::Unsupported), false),
        ReadStep::Stop(Err(SyphonError::Unsupported))
    );
    // Pipe additionally treats an explicit end-of-stream as success.
    assert_eq!(pipe_read_step(Err(SyphonError::EndOfStream)), ReadStep::Stop(Ok(())));
    assert_eq!(pipe_read_step(Ok(3)), ReadStep::Advance(3));
}

#[test]
fn write_failure_policy_asymmetry() {
    // A full sink ends a best-effort copy successfully but is a hard
    // failure for an exact copy; other errors always surface.
    assert_eq!(write_failure_outcome(SyphonError::OutOfBounds, true), Ok(()));
    assert_eq!(
        write_failure_outcome(SyphonError::OutOfBounds, false),
        Err(SyphonError::OutOfBounds)
    );
    assert_eq!(
        write_failure_outcome(SyphonError::Interrupted, true),
        Err(SyphonError::Interrupted)
    );
}

#[test]
fn copy_exact_zero_duration_succeeds() {
    let spec = stereo_16();
    let mut reader = MemSignalReader::new(spec, ramp(4), Vec::new());
    let mut writer = MemSignalWriter::new(spec);
    let mut buf = vec![0i32; 4];
    let r = copy_exact(&mut reader, &mut writer, Duration::Frames(0), &mut buf);
    assert!(r.is_ok());
    assert!(writer.contents().is_empty());
    assert_eq!(writer.write_count(), 0);
}

#[test]
fn copy_exact_two_cycles() {
    // Reader and writer agree on {48000 Hz, 2 channels, 16-bit}; the scratch
    // buffer holds 8 samples (16 bytes) and the duration is 8 frames
    // (16 samples, 32 bytes): exactly two read/write cycles.
    let spec = stereo_16();
    let samples = ramp(16);
    let mut reader = MemSignalReader::new(spec, samples.clone(), Vec::new());
    let mut writer = MemSignalWriter::new(spec);
    let mut buf = vec![0i32; 8];
    let r = copy_exact(&mut reader, &mut writer, Duration::Frames(8), &mut buf);
    assert!(r.is_ok());
    assert_eq!(writer.contents(), &samples);
    assert_eq!(writer.write_count(), 2);
}

#[test]
fn copy_exact_param_mismatch_zero_transferred() {
    // Same as above but the writer advertises one channel: the copy fails
    // eagerly with ParamMismatch and nothing moves.
    let spec = stereo_16();
    let mono = SignalSpec { sample_format: SampleFormat::Int16, sample_rate: 48000, n_channels: 1 };
    let mut reader = MemSignalReader::new(spec, ramp(16), Vec::new());
    let mut writer = MemSignalWriter::new(mono);
    let mut buf = vec![0i32; 8];
    let r = copy_exact(&mut reader, &mut writer, Duration::Frames(8), &mut buf);
    assert_eq!(r, Err(SyphonError::ParamMismatch));
    assert!(writer.contents().is_empty());
    assert_eq!(writer.write_count(), 0);
}

#[test]
fn copy_all_not_ready_then_data_then_zero() {
    // The reader reports NotReady once, then 4 frames, then exhaustion:
    // copy-all ends successfully having moved exactly the 4 frames.
    let spec = stereo_16();
    let samples = ramp(8);
    let mut reader = MemSignalReader::new(spec, samples.clone(), vec![SyphonError::NotReady]);
    let mut writer = MemSignalWriter::new(spec);
    let mut buf = vec![0i32; 32];
    let r = copy_all(&mut reader, &mut writer, &mut buf);
    assert!(r.is_ok());
    assert_eq!(writer.contents(), &samples);
}

#[test]
fn copy_all_terminates_after_k_reads() {
    // 20 samples through an 8-sample scratch buffer: three data reads, then
    // a zero read ends the copy with everything written and no error.
    let spec = stereo_16();
    let samples = ramp(20);
    let mut reader = MemSignalReader::new(spec, samples.clone(), Vec::new());
    let mut writer = MemSignalWriter::new(spec);
    let mut buf = vec![0i32; 8];
    let r = copy_all(&mut reader, &mut writer, &mut buf);
    assert!(r.is_ok());
    assert_eq!(writer.contents(), &samples);
    assert_eq!(writer.write_count(), 3);
}

#[test]
fn retry_is_transparent() {
    // A reader that reports Interrupted once and then succeeds produces the
    // same final result as one that never reports it.
    let spec = stereo_16();
    let samples = ramp(16);
    let mut plain = MemSignalReader::new(spec, samples.clone(), Vec::new());
    let mut hiccup = MemSignalReader::new(spec, samples, vec![SyphonError::Interrupted]);
    let mut w1 = MemSignalWriter::new(spec);
    let mut w2 = MemSignalWriter::new(spec);
    let mut buf = vec![0i32; 8];
    let r1 = copy_exact(&mut plain, &mut w1, Duration::Frames(8), &mut buf);
    let r2 = copy_exact(&mut hiccup, &mut w2, Duration::Frames(8), &mut buf);
    assert!(r1.is_ok());
    assert!(r2.is_ok());
    assert_eq!(w1.contents(), w2.contents());
}

#[test]
fn copy_exact_retries_several_transients() {
    let spec = stereo_16();
    let samples = ramp(16);
    // Scripted errors are drained from the back of the queue.
    let errors = vec![SyphonError::NotReady, SyphonError::Interrupted];
    let mut reader = MemSignalReader::new(spec, samples.clone(), errors);
    let mut writer = MemSignalWriter::new(spec);
    let mut buf = vec![0i32; 16];
    let r = copy_exact(&mut reader, &mut writer, Duration::Frames(8), &mut buf);
    assert!(r.is_ok());
    assert_eq!(writer.contents(), &samples);
}

#[test]
fn copy_exact_source_exhausted_is_out_of_bounds() {
    // The duration asks for 8 frames but the source holds only 2: the exact
    // copy fails OutOfBounds instead of silently truncating.
    let spec = stereo_16();
    let mut reader = MemSignalReader::new(spec, ramp(4), Vec::new());
    let mut writer = MemSignalWriter::new(spec);
    let mut buf = vec![0i32; 8];
    let r = copy_exact(&mut reader, &mut writer, Duration::Frames(8), &mut buf);
    assert_eq!(r, Err(SyphonError::OutOfBounds));
}

#[test]
fn copy_exact_full_sink_fails() {
    // In the exact variant a sink that cannot take a chunk is a hard error.
    let spec = stereo_16();
    let mut reader = MemSignalReader::new(spec, ramp(16), Vec::new());
    let mut writer = MemSignalWriter::with_capacity(spec, 4);
    let mut buf = vec![0i32; 8];
    let r = copy_exact(&mut reader, &mut writer, Duration::Frames(8), &mut buf);
    assert_eq!(r, Err(SyphonError::OutOfBounds));
}

#[test]
fn copy_all_full_sink_is_success() {
    // In the best-effort variant a sink that fills up ends the copy
    // successfully with what fit.
    let spec = stereo_16();
    let mut reader = MemSignalReader::new(spec, ramp(16), Vec::new());
    let mut writer = MemSignalWriter::with_capacity(spec, 4);
    let mut buf = vec![0i32; 4];
    let r = copy_all(&mut reader, &mut writer, &mut buf);
    assert!(r.is_ok());
    assert_eq!(writer.contents(), &ramp(4));
}

#[test]
fn copy_all_rejects_mismatched_specs() {
    let spec = stereo_16();
    let other = SignalSpec { sample_format: SampleFormat::Int32, sample_rate: 48000, n_channels: 2 };
    let mut reader = MemSignalReader::new(spec, ramp(4), Vec::new());
    let mut writer = MemSignalWriter::new(other);
    let mut buf = vec![0i32; 4];
    let r = copy_all(&mut reader, &mut writer, &mut buf);
    assert_eq!(r, Err(SyphonError::ParamMismatch));
    assert!(writer.contents().is_empty());
}

#[test]
fn copy_exact_fatal_read_error_propagates() {
    let spec = stereo_16();
    let msg = String::from("backend failure");
    let mut reader = MemSignalReader::new(spec, ramp(16), vec![SyphonError::Other(msg.clone())]);
    let mut writer = MemSignalWriter::new(spec);
    let mut buf = vec![0i32; 8];
    let r = copy_exact(&mut reader, &mut writer, Duration::Frames(8), &mut buf);
    assert_eq!(r, Err(SyphonError::Other(msg)));
    assert!(writer.contents().is_empty());
}

#[test]
fn pipe_moves_everything() {
    let spec = stereo_16();
    let samples = ramp(12);
    let mut reader = MemSignalReader::new(spec, samples.clone(), Vec::new());
    let mut writer = MemSignalWriter::new(spec);
    let mut buf = vec![0i32; 5];
    let r = pipe(&mut reader, &mut writer, &mut buf);
    assert!(r.is_ok());
    assert_eq!(writer.contents(), &samples);
}

#[test]
fn pipe_signal_mismatch() {
    let spec = stereo_16();
    let mono = SignalSpec { sample_format: SampleFormat::Int16, sample_rate: 48000, n_channels: 1 };
    let mut reader = MemSignalReader::new(spec, ramp(4), Vec::new());
    let mut writer = MemSignalWriter::new(mono);
    let mut buf = vec![0i32; 4];
    let r = pipe(&mut reader, &mut writer, &mut buf);
    assert_eq!(r, Err(SyphonError::SignalMismatch));
}

#[test]
fn pipe_ends_on_end_of_stream() {
    let spec = stereo_16();
    let mut reader = MemSignalReader::new(spec, ramp(4), vec![SyphonError::EndOfStream]);
    let mut writer = MemSignalWriter::new(spec);
    let mut buf = vec![0i32; 4];
    let r = pipe(&mut reader, &mut writer, &mut buf);
    assert!(r.is_ok());
    assert!(writer.contents().is_empty());
}

#[test]
fn pipe_full_sink_fails() {
    // Unlike copy_all, pipe propagates every write error.
    let spec = stereo_16();
    let mut reader = MemSignalReader::new(spec, ramp(8), Vec::new());
    let mut writer = MemSignalWriter::with_capacity(spec, 2);
    let mut buf = vec![0i32; 4];
    let r = pipe(&mut reader, &mut writer, &mut buf);
    assert_eq!(r, Err(SyphonError::OutOfBounds));
}

#[test]
fn pipe_retries_not_ready() {
    let spec = stereo_16();
    let samples = ramp(6);
    let mut reader = MemSignalReader::new(spec, samples.clone(), vec![SyphonError::NotReady]);
    let mut writer = MemSignalWriter::new(spec);
    let mut buf = vec![0i32; 6];
    let r = pipe(&mut reader, &mut writer, &mut buf);
    assert!(r.is_ok());
    assert_eq!(writer.contents(), &samples);
}

#[test]
fn copy_exact_buffered_flushes_between_chunks() {
    // The pending buffer holds 4 samples and the copy asks for 8: the loop
    // fills the buffer, flushes when less than one frame of room is left,
    // and fills it again.
    let spec = stereo_16();
    let samples = ramp(8);
    let mut reader = MemSignalReader::new(spec, samples.clone(), Vec::new());
    let mut writer = BufferedMemWriter::new(spec, 4);
    let r = copy_exact_buffered(&mut reader, &mut writer, Duration::Frames(4));
    assert!(r.is_ok());
    assert_eq!(writer.contents(), &samples);
}

#[test]
fn copy_exact_buffered_closed_writer_is_out_of_bounds() {
    let spec = stereo_16();
    let mut reader = MemSignalReader::new(spec, ramp(8), Vec::new());
    let mut writer = BufferedMemWriter::new(spec, 4);
    writer.close();
    let r = copy_exact_buffered(&mut reader, &mut writer, Duration::Frames(4));
    assert_eq!(r, Err(SyphonError::OutOfBounds));
    assert!(writer.contents().is_empty());
}

#[test]
fn copy_exact_buffered_retries_transients() {
    let spec = stereo_16();
    let samples = ramp(8);
    let mut reader = MemSignalReader::new(spec, samples.clone(), vec![SyphonError::Interrupted]);
    let mut writer = BufferedMemWriter::new(spec, 8);
    let r = copy_exact_buffered(&mut reader, &mut writer, Duration::Frames(4));
    assert!(r.is_ok());
    assert_eq!(writer.contents(), &samples);
}

#[test]
fn copy_all_buffered_moves_everything() {
    let spec = stereo_16();
    let samples = ramp(10);
    let mut reader = MemSignalReader::new(spec, samples.clone(), Vec::new());
    let mut writer = BufferedMemWriter::new(spec, 4);
    let r = copy_all_buffered(&mut reader, &mut writer);
    assert!(r.is_ok());
    assert_eq!(writer.contents(), &samples);
}

#[test]
fn copy_all_buffered_closed_writer_is_success() {
    // Best-effort: a writer whose buffer is gone ends the copy quietly.
    let spec = stereo_16();
    let mut reader = MemSignalReader::new(spec, ramp(8), Vec::new());
    let mut writer = BufferedMemWriter::new(spec, 4);
    writer.close();
    let r = copy_all_buffered(&mut reader, &mut writer);
    assert!(r.is_ok());
    assert!(writer.contents().is_empty());
}

#[test]
fn copy_all_buffered_rejects_mismatched_specs() {
    let spec = stereo_16();
    let mono = SignalSpec { sample_format: SampleFormat::Int16, sample_rate: 48000, n_channels: 1 };
    let mut reader = MemSignalReader::new(spec, ramp(8), Vec::new());
    let mut writer = BufferedMemWriter::new(mono, 4);
    let r = copy_all_buffered(&mut reader, &mut writer);
    assert_eq!(r, Err(SyphonError::ParamMismatch));
}
