use bytes::BytesMut;
use rtmp::flv::define::{frame_type, sound_format, TagType};
use rtmp::flv::tag_parser::{Tag, TagParser};
use rtmp::netio::errors::IOReadErrorValue;

fn parser_over(bytes: &[u8], tag_type: TagType) -> TagParser {
    TagParser::new(BytesMut::from(bytes), tag_type)
}

#[test]
fn default_tag_is_all_zero() {
    let tag = Tag::defalut();
    assert_eq!(tag.sound_format, 0);
    assert_eq!(tag.sound_rate, 0);
    assert_eq!(tag.sound_size, 0);
    assert_eq!(tag.sound_type, 0);
    assert_eq!(tag.aac_packet_type, 0);
    assert_eq!(tag.frame_type, 0);
    assert_eq!(tag.codec_id, 0);
    assert_eq!(tag.avc_packet_type, 0);
    assert_eq!(tag.composition_time, 0);
}

#[test]
fn codes_of_the_tag_fields() {
    assert_eq!(sound_format::AAC, 10);
    assert_eq!(frame_type::KEY_FRAME, 1);
    assert_eq!(frame_type::INTER_FRAME, 2);
}

#[test]
fn audio_aac_tag() {
    let mut parser = parser_over(&[0xAF, 0x01, 0x21, 0x22], TagType::AUDIO);
    let tag = parser.parse().unwrap();
    assert_eq!(tag.sound_format, 10);
    assert_eq!(tag.sound_rate, 3);
    assert_eq!(tag.sound_size, 1);
    assert_eq!(tag.sound_type, 1);
    assert_eq!(tag.aac_packet_type, 1);
    assert_eq!(tag.frame_type, 0);
    assert_eq!(tag.codec_id, 0);
    assert_eq!(tag.avc_packet_type, 0);
    assert_eq!(tag.composition_time, 0);
    assert_eq!(parser.remaining_len(), 2);
}

#[test]
fn audio_aac_sequence_header() {
    let mut parser = parser_over(&[0xAF, 0x00], TagType::AUDIO);
    let tag = parser.parse().unwrap();
    assert_eq!(tag.sound_format, 10);
    assert_eq!(tag.aac_packet_type, 0);
    assert_eq!(parser.remaining_len(), 0);
}

#[test]
fn audio_tag_of_another_format_takes_one_byte() {
    // 0010 1110: MP3, 44 kHz, 16 bit, mono
    let mut parser = parser_over(&[0x2E, 0x55, 0x66], TagType::AUDIO);
    let tag = parser.parse().unwrap();
    assert_eq!(tag.sound_format, 2);
    assert_eq!(tag.sound_rate, 3);
    assert_eq!(tag.sound_size, 1);
    assert_eq!(tag.sound_type, 0);
    assert_eq!(tag.aac_packet_type, 0);
    assert_eq!(parser.remaining_len(), 2);
}

#[test]
fn audio_tag_bit_fields() {
    // 1011 0101: Speex, rate 1, size 0, stereo
    let mut parser = parser_over(&[0xB5], TagType::AUDIO);
    let tag = parser.parse().unwrap();
    assert_eq!(tag.sound_format, 11);
    assert_eq!(tag.sound_rate, 1);
    assert_eq!(tag.sound_size, 0);
    assert_eq!(tag.sound_type, 1);
    assert_eq!(parser.remaining_len(), 0);
}

#[test]
fn audio_tag_without_bytes_fails() {
    let mut parser = parser_over(&[], TagType::AUDIO);
    let err = parser.parse().unwrap_err();
    assert!(matches!(err.value, IOReadErrorValue::NotEnoughBytes));
    assert_eq!(parser.remaining_len(), 0);
}

#[test]
fn audio_aac_tag_without_packet_type_fails() {
    let mut parser = parser_over(&[0xAF], TagType::AUDIO);
    let err = parser.parse().unwrap_err();
    assert!(matches!(err.value, IOReadErrorValue::NotEnoughBytes));
    assert_eq!(parser.remaining_len(), 0);
}

#[test]
fn video_key_frame_tag() {
    let mut parser = parser_over(&[0x17, 0x01, 0x00, 0x01, 0x02, 0x65, 0x88], TagType::VIDEO);
    let tag = parser.parse().unwrap();
    assert_eq!(tag.frame_type, 1);
    assert_eq!(tag.codec_id, 7);
    assert_eq!(tag.avc_packet_type, 1);
    assert_eq!(tag.composition_time, 0x0102);
    assert_eq!(tag.sound_format, 0);
    assert_eq!(tag.sound_rate, 0);
    assert_eq!(tag.sound_size, 0);
    assert_eq!(tag.sound_type, 0);
    assert_eq!(tag.aac_packet_type, 0);
    assert_eq!(parser.remaining_len(), 2);
}

#[test]
fn video_key_frame_needs_four_more_bytes() {
    let mut parser = parser_over(&[0x17, 0x00, 0x00, 0x00, 0x00], TagType::VIDEO);
    let tag = parser.parse().unwrap();
    assert_eq!(tag.frame_type, 1);
    assert_eq!(tag.codec_id, 7);
    assert_eq!(tag.avc_packet_type, 0);
    assert_eq!(tag.composition_time, 0);
    assert_eq!(parser.remaining_len(), 0);

    for have in 1..5usize {
        let bytes = [0x17u8, 0x01, 0x0A, 0x0B, 0x0C];
        let mut short = parser_over(&bytes[..have], TagType::VIDEO);
        let err = short.parse().unwrap_err();
        assert!(matches!(err.value, IOReadErrorValue::NotEnoughBytes));
    }
}

#[test]
fn video_short_header_takes_the_whole_fields() {
    let mut one = parser_over(&[0x17], TagType::VIDEO);
    assert!(one.parse().is_err());
    assert_eq!(one.remaining_len(), 0);
    let mut three = parser_over(&[0x17, 0x01, 0x0A], TagType::VIDEO);
    assert!(three.parse().is_err());
    assert_eq!(three.remaining_len(), 1);
    let mut four = parser_over(&[0x27, 0x01, 0x0A, 0x0B], TagType::VIDEO);
    assert!(four.parse().is_err());
    assert_eq!(four.remaining_len(), 2);
}

#[test]
fn video_inter_frame_tag() {
    let mut parser = parser_over(&[0x27, 0x02, 0xFF, 0xFF, 0xFF, 0x00], TagType::VIDEO);
    let tag = parser.parse().unwrap();
    assert_eq!(tag.frame_type, 2);
    assert_eq!(tag.codec_id, 7);
    assert_eq!(tag.avc_packet_type, 2);
    assert_eq!(tag.composition_time, 0x00FF_FFFF);
    assert_eq!(parser.remaining_len(), 1);
}

#[test]
fn video_info_frame_takes_one_byte() {
    let mut parser = parser_over(&[0x57, 0x01, 0x02], TagType::VIDEO);
    let tag = parser.parse().unwrap();
    assert_eq!(tag.frame_type, 5);
    assert_eq!(tag.codec_id, 7);
    assert_eq!(tag.avc_packet_type, 0);
    assert_eq!(tag.composition_time, 0);
    assert_eq!(parser.remaining_len(), 2);
}

#[test]
fn video_other_frame_types_take_one_byte() {
    for frame_type in [0u8, 3, 4, 5, 6, 15] {
        let flags = (frame_type << 4) | 0x02;
        let mut parser = parser_over(&[flags], TagType::VIDEO);
        let tag = parser.parse().unwrap();
        assert_eq!(tag.frame_type, frame_type);
        assert_eq!(tag.codec_id, 2);
        assert_eq!(tag.avc_packet_type, 0);
        assert_eq!(tag.composition_time, 0);
        assert_eq!(parser.remaining_len(), 0);
    }
}

#[test]
fn video_tag_without_bytes_fails() {
    let mut parser = parser_over(&[], TagType::VIDEO);
    let err = parser.parse().unwrap_err();
    assert!(matches!(err.value, IOReadErrorValue::NotEnoughBytes));
}

#[test]
fn each_parse_gives_a_fresh_tag() {
    let mut parser = parser_over(&[0xAF, 0x01, 0x2E], TagType::AUDIO);
    let first = parser.parse().unwrap();
    assert_eq!(first.aac_packet_type, 1);
    let second = parser.parse().unwrap();
    assert_eq!(second.sound_format, 2);
    assert_eq!(second.aac_packet_type, 0);
    assert_eq!(first.sound_format, 10);
}

#[test]
fn tags_compare_by_their_fields() {
    let mut a = parser_over(&[0x17, 0x01, 0x00, 0x00, 0x05], TagType::VIDEO);
    let mut b = parser_over(&[0x17, 0x01, 0x00, 0x00, 0x05, 0x99], TagType::VIDEO);
    assert_eq!(a.parse().unwrap(), b.parse().unwrap());
    assert_ne!(Tag::defalut(), parser_over(&[0x57], TagType::VIDEO).parse().unwrap());
}
