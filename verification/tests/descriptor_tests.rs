use syphon::codec::KnownCodec;
use syphon::descriptor::{SampleFormat, StreamSpec, StreamSpecBuilder};
use syphon::error::SyphonError;

fn empty() -> StreamSpecBuilder {
    StreamSpecBuilder::new()
}

#[test]
fn merge_takes_union_of_fields() {
    let mut a = empty();
    a.sample_rate = Some(48000);
    let mut b = empty();
    b.n_channels = Some(2);
    b.sample_format = Some(SampleFormat::Int16);
    let merged = a.merge(&b).unwrap();
    assert_eq!(merged.sample_rate, Some(48000));
    assert_eq!(merged.n_channels, Some(2));
    assert_eq!(merged.sample_format, Some(SampleFormat::Int16));
    assert_eq!(merged.codec, None);
    assert_eq!(merged.block_align, None);
}

#[test]
fn merge_conflict_is_param_mismatch() {
    let mut a = empty();
    a.sample_rate = Some(48000);
    let mut b = empty();
    b.sample_rate = Some(44100);
    assert_eq!(a.merge(&b), Err(SyphonError::ParamMismatch));
}

#[test]
fn merge_is_commutative() {
    let mut a = empty();
    a.sample_rate = Some(48000);
    a.codec = Some(KnownCodec::PcmLE);
    let mut b = empty();
    b.n_channels = Some(2);
    b.codec = Some(KnownCodec::PcmLE);
    assert_eq!(a.merge(&b), b.merge(&a));
    // Conflicting sides fail the same way from either side.
    let mut c = empty();
    c.codec = Some(KnownCodec::PcmBE);
    assert_eq!(a.merge(&c), c.merge(&a));
    assert_eq!(a.merge(&c), Err(SyphonError::ParamMismatch));
}

#[test]
fn merge_is_associative_without_conflicts() {
    let mut a = empty();
    a.sample_rate = Some(48000);
    let mut b = empty();
    b.n_channels = Some(2);
    let mut c = empty();
    c.sample_format = Some(SampleFormat::Int16);
    c.sample_rate = Some(48000);
    let left = a.merge(&b).unwrap().merge(&c).unwrap();
    let right = a.merge(&b.merge(&c).unwrap()).unwrap();
    assert_eq!(left, right);
}

#[test]
fn try_finalize_needs_every_field() {
    let mut b = empty();
    b.codec = Some(KnownCodec::PcmLE);
    b.sample_format = Some(SampleFormat::Int16);
    b.sample_rate = Some(48000);
    b.n_channels = Some(2);
    assert_eq!(b.try_finalize(), Err(SyphonError::MissingData));
    b.block_align = Some(4);
    let full = b.try_finalize().unwrap();
    assert_eq!(full.codec, KnownCodec::PcmLE);
    assert_eq!(full.sample_format, SampleFormat::Int16);
    assert_eq!(full.sample_rate, 48000);
    assert_eq!(full.n_channels, 2);
    assert_eq!(full.block_align, 4);
}

#[test]
fn merged_full_specs_must_be_equal() {
    let s = StreamSpec {
        codec: KnownCodec::PcmLE,
        sample_format: SampleFormat::Int16,
        sample_rate: 48000,
        n_channels: 2,
        block_align: 4,
    };
    assert_eq!(s.merged(&s), Ok(s));
    let mut t = s;
    t.codec = KnownCodec::PcmBE;
    assert_eq!(s.merged(&t), Err(SyphonError::ParamMismatch));
}

#[test]
fn to_builder_round_trips_through_finalize() {
    let s = StreamSpec {
        codec: KnownCodec::PcmBE,
        sample_format: SampleFormat::Int32,
        sample_rate: 44100,
        n_channels: 1,
        block_align: 4,
    };
    assert_eq!(s.to_builder().try_finalize(), Ok(s));
}

#[test]
fn byte_widths() {
    assert_eq!(SampleFormat::Uint8.byte_width(), 1);
    assert_eq!(SampleFormat::Int16.byte_width(), 2);
    assert_eq!(SampleFormat::Int32.byte_width(), 4);
    assert_eq!(SampleFormat::Int64.byte_width(), 8);
}

#[test]
fn transient_kinds() {
    assert!(SyphonError::Interrupted.transient());
    assert!(SyphonError::NotReady.transient());
    assert!(!SyphonError::OutOfBounds.transient());
    assert!(!SyphonError::Other(String::from("x")).transient());
}
