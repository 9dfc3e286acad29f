use teleinfo::assembler::{FrameAssembler, FramingMode};
use teleinfo::frame::DecodeError;
use teleinfo::pipeline::DecodePipeline;

const SAMPLE: &str = "ADCO 012345678901 E\nOPTARIF BASE 0\nISOUSC 30 9\nBASE 002809718 .\nPTEC TH.. $\nIINST 002 Y\nIMAX 090 H\nPAPP 00390 -\nHHPHC A ,\nMOTDETAT 000000 B";

fn delimited(text: &str) -> Vec<u8> {
    let mut bytes = vec![0x02u8];
    bytes.extend_from_slice(text.as_bytes());
    bytes.push(0x03);
    bytes
}

#[test]
fn test_byte_at_a_time_equals_chunk() {
    let input = delimited(SAMPLE);

    let mut one_by_one = FrameAssembler::new(FramingMode::Delimited);
    let mut frames_single: Vec<Vec<u8>> = Vec::new();
    for b in &input {
        if let Some(frame) = one_by_one.push_byte(*b) {
            frames_single.push(frame);
        }
    }

    let mut bulk = FrameAssembler::new(FramingMode::Delimited);
    let frames_bulk = bulk.push_chunk(&input);

    assert_eq!(frames_single, frames_bulk);
    assert_eq!(frames_single.len(), 1);
    assert_eq!(frames_single[0], SAMPLE.as_bytes());
}

#[test]
fn test_no_frame_before_sync() {
    // Bytes before any STX produce zero frames and zero error items.
    let mut pipeline = DecodePipeline::new(FramingMode::Delimited);
    let noise = b"garbage without sync\x03more noise\x03";
    let results = pipeline.push_chunk(noise);
    assert!(results.is_empty());
}

#[test]
fn test_frame_after_resync() {
    // Noise, then a clean frame: the noise is discarded silently and
    // the frame decodes.
    let mut pipeline = DecodePipeline::new(FramingMode::Delimited);
    let mut input = b"noise\x03".to_vec();
    input.extend_from_slice(&delimited(SAMPLE));
    let results = pipeline.push_chunk(&input);
    assert_eq!(results.len(), 1);
    let frame = results[0].as_ref().unwrap();
    assert_eq!(frame.adco, "012345678901");
}

#[test]
fn test_two_frames_one_chunk() {
    let mut pipeline = DecodePipeline::new(FramingMode::Delimited);
    let mut input = delimited(SAMPLE);
    input.extend_from_slice(&delimited(SAMPLE));
    let results = pipeline.push_chunk(&input);
    assert_eq!(results.len(), 2);
    assert!(results[0].is_ok());
    assert!(results[1].is_ok());
}

#[test]
fn test_checksum_rejects_corruption() {
    // Flipping the ADCO line's checksum from E to X rejects the whole
    // frame: one error item, no reading, and the pipeline goes on.
    let corrupted = SAMPLE.replace("ADCO 012345678901 E", "ADCO 012345678901 X");
    let mut pipeline = DecodePipeline::new(FramingMode::Delimited);
    let mut input = delimited(&corrupted);
    input.extend_from_slice(&delimited(SAMPLE));
    let results = pipeline.push_chunk(&input);
    assert_eq!(results.len(), 2);
    assert!(matches!(results[0], Err(DecodeError::Checksum { .. })));
    assert!(results[1].is_ok());
}

#[test]
fn test_label_sync_mode() {
    // Without control bytes, the next frame's leading ADCO cuts the
    // stream; the text before it is the completed frame.
    let mut assembler = FrameAssembler::new(FramingMode::LabelSync);
    let first = format!("{}\n", SAMPLE);
    let mut frames: Vec<Vec<u8>> = Vec::new();
    for b in first.as_bytes() {
        if let Some(frame) = assembler.push_byte(*b) {
            frames.push(frame);
        }
    }
    // The leading ADCO of the stream itself must not emit anything.
    assert!(frames.is_empty());
    for b in b"ADCO" {
        if let Some(frame) = assembler.push_byte(*b) {
            frames.push(frame);
        }
    }
    assert_eq!(frames.len(), 1);
    assert_eq!(frames[0], first.as_bytes());
}

#[test]
fn test_label_sync_chunked() {
    let mut assembler = FrameAssembler::new(FramingMode::LabelSync);
    let first = format!("{}\n", SAMPLE);
    let mut input = first.as_bytes().to_vec();
    input.extend_from_slice(b"ADCO");
    let frames = assembler.push_chunk(&input);
    assert_eq!(frames.len(), 1);
    assert_eq!(frames[0], first.as_bytes());
}
