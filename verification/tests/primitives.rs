use webp_decoder::decoder::WebPDecoder;
use webp_decoder::frame::Frame;
use webp_decoder::source::ByteSource;
use webp_decoder::tag::{classify, same_tag, ChunkKind, Feature, ALPH, ANIM, ANMF, RIFF, VP8, VP8L, WEBP};

fn reader_over(plane: Vec<u8>) -> webp_decoder::reader::WebpReader {
    let width = plane.len() as u16;
    let mut stream = b"RIFF\x00\x00\x00\x00WEBPVP8 \x00\x00\x00\x00".to_vec();
    stream.push(0);
    let decoder = WebPDecoder::new(ByteSource::new(stream), move |_payload: Vec<u8>| -> Result<Frame, ()> {
        Ok(Frame::new(width, 1, plane).unwrap())
    })
    .unwrap();
    decoder.into_reader()
}

#[test]
fn tags_spell_their_names() {
    assert_eq!(&RIFF, b"RIFF");
    assert_eq!(&WEBP, b"WEBP");
    assert_eq!(&VP8, b"VP8 ");
    assert_eq!(&ALPH, b"ALPH");
    assert_eq!(&VP8L, b"VP8L");
    assert_eq!(&ANIM, b"ANIM");
    assert_eq!(&ANMF, b"ANMF");
}

#[test]
fn features_give_their_tags() {
    assert_eq!(&Feature::Alpha.tag(), b"ALPH");
    assert_eq!(&Feature::Lossless.tag(), b"VP8L");
    assert_eq!(&Feature::AnimationControl.tag(), b"ANIM");
    assert_eq!(&Feature::AnimationFrame.tag(), b"ANMF");
}

#[test]
fn chunks_are_classified_by_tag() {
    assert_eq!(classify(b"VP8 "), ChunkKind::Payload);
    assert_eq!(classify(b"ALPH"), ChunkKind::Unsupported(Feature::Alpha));
    assert_eq!(classify(b"VP8L"), ChunkKind::Unsupported(Feature::Lossless));
    assert_eq!(classify(b"ANIM"), ChunkKind::Unsupported(Feature::AnimationControl));
    assert_eq!(classify(b"ANMF"), ChunkKind::Unsupported(Feature::AnimationFrame));
    assert_eq!(classify(b"VP8X"), ChunkKind::Ignorable);
    assert_eq!(classify(b"EXIF"), ChunkKind::Ignorable);
    assert_eq!(classify(b"vp8 "), ChunkKind::Ignorable);
    assert_eq!(classify(&[0, 0, 0, 0]), ChunkKind::Ignorable);
}

#[test]
fn tags_compare_byte_by_byte() {
    assert!(same_tag(b"RIFF", &RIFF));
    assert!(!same_tag(b"RIFX", &RIFF));
    assert!(!same_tag(b"XIFF", &RIFF));
    assert!(!same_tag(b"RXFF", &RIFF));
    assert!(!same_tag(b"RIXF", &RIFF));
}

#[test]
fn integers_are_read_least_significant_byte_first() {
    let mut source = ByteSource::new(vec![0x78, 0x56, 0x34, 0x12, 0xFF, 0xFF, 0xFF, 0xFF, 0x01, 0, 0, 0, 9]);
    assert_eq!(source.read_u32_le(), Some(0x1234_5678));
    assert_eq!(source.read_u32_le(), Some(0xFFFF_FFFF));
    assert_eq!(source.read_u32_le(), Some(1));
    assert_eq!(source.remaining(), 1);
    assert_eq!(source.read_u32_le(), None);
    assert_eq!(source.remaining(), 0);
}

#[test]
fn tags_are_read_in_order() {
    let mut source = ByteSource::new(b"RIFFWEBPxy".to_vec());
    assert_eq!(source.remaining(), 10);
    assert_eq!(source.read_tag(), Some(*b"RIFF"));
    assert_eq!(source.read_tag(), Some(*b"WEBP"));
    assert_eq!(source.remaining(), 2);
    assert_eq!(source.read_tag(), None);
    assert_eq!(source.remaining(), 0);
}

#[test]
fn bytes_are_read_exactly() {
    let mut source = ByteSource::new(vec![1, 2, 3, 4, 5]);
    assert_eq!(source.read_bytes(0), Some(vec![]));
    assert_eq!(source.read_bytes(2), Some(vec![1, 2]));
    assert_eq!(source.remaining(), 3);
    assert_eq!(source.read_bytes(4), None);
    assert_eq!(source.remaining(), 0);
    assert_eq!(source.read_bytes(0), Some(vec![]));
}

#[test]
fn discard_passes_over_bytes() {
    let mut source = ByteSource::new(vec![1, 2, 3, 4, 5]);
    assert!(source.discard(0));
    assert!(source.discard(3));
    assert_eq!(source.read_bytes(2), Some(vec![4, 5]));

    let mut source = ByteSource::new(vec![1, 2, 3, 4, 5]);
    assert!(!source.discard(6));
    assert_eq!(source.remaining(), 0);

    let mut source = ByteSource::new(vec![1, 2, 3, 4, 5]);
    assert!(!source.discard(u64::MAX));
    assert_eq!(source.remaining(), 0);
}

#[test]
fn frame_needs_one_sample_per_pixel() {
    assert!(Frame::new(2, 2, vec![0; 4]).is_some());
    assert!(Frame::new(2, 2, vec![0; 3]).is_none());
    assert!(Frame::new(2, 2, vec![0; 5]).is_none());
    assert!(Frame::new(0, 7, vec![]).is_some());
    assert!(Frame::new(0, 7, vec![0]).is_none());
    let frame = Frame::new(3, 2, vec![1, 2, 3, 4, 5, 6]).unwrap();
    assert_eq!(frame.width(), 3);
    assert_eq!(frame.height(), 2);
    assert_eq!(frame.luma(), &[1, 2, 3, 4, 5, 6]);
    assert_eq!(frame.into_luma(), vec![1, 2, 3, 4, 5, 6]);
}

#[test]
fn reader_hands_out_the_plane_piece_by_piece() {
    let mut reader = reader_over(vec![1, 2, 3, 4, 5]);
    let mut buf = [0u8; 2];
    assert_eq!(reader.read(&mut buf), 2);
    assert_eq!(buf, [1, 2]);
    assert_eq!(reader.read(&mut buf), 2);
    assert_eq!(buf, [3, 4]);
    assert_eq!(reader.read(&mut buf), 1);
    assert_eq!(buf, [5, 4]);
    assert_eq!(reader.read(&mut buf), 0);
    assert_eq!(buf, [5, 4]);
}

#[test]
fn reader_fills_no_more_than_is_left() {
    let mut reader = reader_over(vec![1, 2, 3]);
    let mut buf = [9u8; 5];
    assert_eq!(reader.read(&mut buf), 3);
    assert_eq!(buf, [1, 2, 3, 9, 9]);
    let mut none: [u8; 0] = [];
    assert_eq!(reader.read(&mut none), 0);
}

#[test]
fn reader_hands_over_everything_at_once() {
    let mut reader = reader_over(vec![1, 2, 3, 4, 5]);
    let mut all = Vec::new();
    assert_eq!(reader.read_to_end(&mut all), 5);
    assert_eq!(all, vec![1, 2, 3, 4, 5]);
    assert_eq!(reader.read_to_end(&mut all), 0);
    assert_eq!(all, vec![1, 2, 3, 4, 5]);
    let mut buf = [0u8; 2];
    assert_eq!(reader.read(&mut buf), 0);
}

#[test]
fn reader_appends_to_what_the_buffer_holds() {
    let mut reader = reader_over(vec![1, 2, 3, 4, 5]);
    let mut all = vec![7, 8];
    assert_eq!(reader.read_to_end(&mut all), 5);
    assert_eq!(all, vec![7, 8, 1, 2, 3, 4, 5]);
    assert_eq!(reader.read_to_end(&mut all), 0);
}

#[test]
fn reader_copies_the_rest_after_a_partial_read() {
    let mut reader = reader_over(vec![1, 2, 3, 4, 5]);
    let mut buf = [0u8; 2];
    assert_eq!(reader.read(&mut buf), 2);
    let mut rest = Vec::new();
    assert_eq!(reader.read_to_end(&mut rest), 3);
    assert_eq!(rest, vec![3, 4, 5]);
    assert_eq!(reader.read_to_end(&mut rest), 0);
    assert_eq!(rest, vec![3, 4, 5]);
}
