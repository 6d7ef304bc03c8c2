//! Decoder of the header that starts every FLV audio or video tag.

use super::define;
use super::define::TagType;
use crate::netio::buffer::buffered;
use crate::netio::endian::be24;
use crate::netio::errors::IOReadError;
use crate::netio::reader::Reader;
use bytes::BytesMut;
use vstd::prelude::*;

verus! {

/// The decoded header of one audio or video payload.
///
/// A field that does not apply to the payload at hand is zero: an audio tag
/// has zero video fields and the other way round, `aac_packet_type` is zero
/// unless the sound format is AAC, and `avc_packet_type` and
/// `composition_time` are zero unless the frame is a key or an inter frame.
#[derive(Clone, Copy, Debug, PartialEq, Eq, Structural)]
pub struct Tag {
    /// SoundFormat, UB[4]: 0 linear PCM (platform endian), 1 ADPCM, 2 MP3,
    /// 3 linear PCM (little endian), 4 Nellymoser 16 kHz mono, 5 Nellymoser
    /// 8 kHz mono, 6 Nellymoser, 7 G.711 A-law, 8 G.711 mu-law, 9 reserved,
    /// 10 AAC, 11 Speex, 14 MP3 8 kHz, 15 device-specific sound.
    pub sound_format: u8,
    /// SoundRate, UB[2]: 0 5.5 kHz, 1 11 kHz, 2 22 kHz, 3 44 kHz.
    pub sound_rate: u8,
    /// SoundSize, UB[1]: 0 8-bit samples, 1 16-bit samples.
    pub sound_size: u8,
    /// SoundType, UB[1]: 0 mono, 1 stereo.
    pub sound_type: u8,
    /// 0 AAC sequence header, 1 AAC raw.
    pub aac_packet_type: u8,
    /// 1 key frame, 2 inter frame, 3 disposable inter frame, 4 generated key
    /// frame, 5 video info or command frame.
    pub frame_type: u8,
    /// 1 JPEG, 2 Sorenson H.263, 3 screen video, 4 On2 VP6, 5 On2 VP6 with
    /// alpha channel, 6 screen video version 2, 7 AVC.
    pub codec_id: u8,
    /// 0 AVC sequence header, 1 AVC NALU, 2 AVC end of sequence.
    pub avc_packet_type: u8,
    /// Composition time offset: the 24 bits as they stand in the tag.
    pub composition_time: u32,
}

impl Tag {
    /// The tag with every field zero.
    pub open spec fn zeroed() -> Tag {
        Tag {
            sound_format: 0,
            sound_rate: 0,
            sound_size: 0,
            sound_type: 0,
            aac_packet_type: 0,
            frame_type: 0,
            codec_id: 0,
            avc_packet_type: 0,
            composition_time: 0,
        }
    }

    /// A tag with every field at its default, zero.
    pub fn defalut() -> (tag: Self)
        ensures
            tag == Tag::zeroed(),
    {
        Tag {
            sound_format: 0,
            sound_rate: 0,
            sound_size: 0,
            sound_type: 0,
            aac_packet_type: 0,
            frame_type: 0,
            codec_id: 0,
            avc_packet_type: 0,
            composition_time: 0,
        }
    }
}

/// The audio tag that starts with the byte `flags`; `aac_packet_type` is the
/// byte after it where the sound format is AAC, and 0 otherwise.
pub open spec fn audio_tag(flags: u8, aac_packet_type: u8) -> Tag {
    Tag {
        sound_format: flags >> 4,
        sound_rate: (flags >> 2) & 0x03,
        sound_size: (flags >> 1) & 0x01,
        sound_type: flags & 0x01,
        aac_packet_type,
        frame_type: 0,
        codec_id: 0,
        avc_packet_type: 0,
        composition_time: 0,
    }
}

/// The video tag that starts with the byte `flags`; the other two are the
/// fields after it where the frame is a key or an inter frame, and 0
/// otherwise.
pub open spec fn video_tag(flags: u8, avc_packet_type: u8, composition_time: u32) -> Tag {
    Tag {
        sound_format: 0,
        sound_rate: 0,
        sound_size: 0,
        sound_type: 0,
        aac_packet_type: 0,
        frame_type: flags >> 4,
        codec_id: flags & 0x0f,
        avc_packet_type,
        composition_time,
    }
}

/// Whether a further byte, the AAC packet type, follows the first byte of an
/// audio tag.
pub open spec fn has_aac_packet_type(flags: u8) -> bool {
    flags >> 4 == define::sound_format::AAC
}

/// Whether the AVC packet type and the composition time follow the first
/// byte of a video tag.
pub open spec fn has_avc_fields(flags: u8) -> bool {
    flags >> 4 == define::frame_type::INTER_FRAME || flags >> 4 == define::frame_type::KEY_FRAME
}

/// The number of bytes that the header of a tag takes, given its first byte.
pub open spec fn tag_header_len(tag_type: TagType, flags: u8) -> nat {
    match tag_type {
        TagType::AUDIO => if has_aac_packet_type(flags) {
            2
        } else {
            1
        },
        TagType::VIDEO => if has_avc_fields(flags) {
            5
        } else {
            1
        },
    }
}

/// Whether `bytes` start with a whole tag header.
pub open spec fn holds_tag_header(tag_type: TagType, bytes: Seq<u8>) -> bool {
    bytes.len() >= 1 && bytes.len() >= tag_header_len(tag_type, bytes[0])
}

/// The tag that the header at the start of `bytes` decodes to.
pub open spec fn tag_header(tag_type: TagType, bytes: Seq<u8>) -> Tag
    recommends
        holds_tag_header(tag_type, bytes),
{
    match tag_type {
        TagType::AUDIO => audio_tag(
            bytes[0],
            if has_aac_packet_type(bytes[0]) {
                bytes[1]
            } else {
                0
            },
        ),
        TagType::VIDEO => if has_avc_fields(bytes[0]) {
            video_tag(bytes[0], bytes[1], be24(bytes.subrange(2, 5)) as u32)
        } else {
            video_tag(bytes[0], 0, 0)
        },
    }
}

/// The number of bytes that a parse takes before it finds that `bytes` do
/// not hold a whole header: the fields that were there in full.
pub open spec fn taken_from_short_header(tag_type: TagType, bytes: Seq<u8>) -> nat
    recommends
        !holds_tag_header(tag_type, bytes),
{
    match tag_type {
        TagType::AUDIO => bytes.len(),
        TagType::VIDEO => if bytes.len() < 2 {
            bytes.len()
        } else {
            2
        },
    }
}

/// Whether every field of a tag lies within the bits that the header gives
/// it, and every field that the tag's formats leave out is zero.
pub open spec fn well_formed(tag: Tag) -> bool {
    &&& tag.sound_format <= 15
    &&& tag.sound_rate <= 3
    &&& tag.sound_size <= 1
    &&& tag.sound_type <= 1
    &&& tag.frame_type <= 15
    &&& tag.codec_id <= 15
    &&& tag.composition_time <= 0xFF_FFFF
    &&& (tag.sound_format != define::sound_format::AAC ==> tag.aac_packet_type == 0)
    &&& (tag.frame_type != define::frame_type::KEY_FRAME && tag.frame_type
        != define::frame_type::INTER_FRAME ==> tag.avc_packet_type == 0 && tag.composition_time
        == 0)
}

/// Every tag that a header decodes to is well-formed, an audio tag has the
/// video fields at zero, and a video tag the audio fields.
pub proof fn lemma_tag_header_well_formed(tag_type: TagType, bytes: Seq<u8>)
    requires
        holds_tag_header(tag_type, bytes),
    ensures
        well_formed(tag_header(tag_type, bytes)),
        tag_type == TagType::AUDIO ==> {
            let tag = tag_header(tag_type, bytes);
            tag.frame_type == 0 && tag.codec_id == 0 && tag.avc_packet_type == 0
                && tag.composition_time == 0
        },
        tag_type == TagType::VIDEO ==> {
            let tag = tag_header(tag_type, bytes);
            tag.sound_format == 0 && tag.sound_rate == 0 && tag.sound_size == 0 && tag.sound_type
                == 0 && tag.aac_packet_type == 0
        },
{
    let flags = bytes[0];
    assert(flags >> 4 <= 15 && (flags >> 2) & 0x03 <= 3 && (flags >> 1) & 0x01 <= 1 && flags & 0x01
        <= 1 && flags & 0x0f <= 15) by (bit_vector);
}

pub struct TagParser {
    tag_type: TagType,
    bytes_reader: Reader,
}

impl TagParser {
    /// The kind of tag that this parser decodes.
    pub closed spec fn kind(&self) -> TagType {
        self.tag_type
    }

    /// The bytes of the payload that were not consumed yet.
    pub closed spec fn remaining(&self) -> Seq<u8> {
        self.bytes_reader@
    }

    pub fn new(data: BytesMut, tag_type: TagType) -> (parser: Self)
        ensures
            parser.kind() == tag_type,
            parser.remaining() == buffered(data),
    {
        Self { tag_type, bytes_reader: Reader::new(data) }
    }

    /// The number of payload bytes that were not consumed yet.
    pub fn remaining_len(&self) -> (n: usize)
        ensures
            n == self.remaining().len(),
    {
        self.bytes_reader.len()
    }

    /// Decodes the tag header at the front of the payload and consumes it;
    /// the bytes after the header stay. Fields that the header does not
    /// carry are zero in the tag.
    ///
    /// When the payload ends before the header does, the parse fails with
    /// the reader's `NotEnoughBytes`, having consumed the fields that were
    /// there in full.
    pub fn parse(&mut self) -> (r: Result<Tag, IOReadError>)
        ensures
            final(self).kind() == old(self).kind(),
            holds_tag_header(old(self).kind(), old(self).remaining()) ==> r == Ok::<
                Tag,
                IOReadError,
            >(tag_header(old(self).kind(), old(self).remaining())) && final(self).remaining()
                == old(self).remaining().skip(
                tag_header_len(old(self).kind(), old(self).remaining()[0]) as int,
            ),
            !holds_tag_header(old(self).kind(), old(self).remaining()) ==> r is Err
                && r->Err_0.value is NotEnoughBytes && final(self).remaining() == old(
                self,
            ).remaining().skip(
                taken_from_short_header(old(self).kind(), old(self).remaining()) as int,
            ),
    {
        match self.tag_type {
            TagType::AUDIO => self.parse_audio_tag_header(),
            TagType::VIDEO => self.parse_video_tag_header(),
        }
    }

    fn parse_audio_tag_header(&mut self) -> (r: Result<Tag, IOReadError>)
        requires
            old(self).kind() == TagType::AUDIO,
        ensures
            final(self).kind() == old(self).kind(),
            holds_tag_header(TagType::AUDIO, old(self).remaining()) ==> r == Ok::<
                Tag,
                IOReadError,
            >(tag_header(TagType::AUDIO, old(self).remaining())) && final(self).remaining()
                == old(self).remaining().skip(
                tag_header_len(TagType::AUDIO, old(self).remaining()[0]) as int,
            ),
            !holds_tag_header(TagType::AUDIO, old(self).remaining()) ==> r is Err
                && r->Err_0.value is NotEnoughBytes && final(self).remaining() == old(
                self,
            ).remaining().skip(taken_from_short_header(TagType::AUDIO, old(self).remaining()) as int),
    {
        let flags = self.bytes_reader.read_u8()?;
        let mut tag = Tag::defalut();

        tag.sound_format = flags >> 4;
        tag.sound_rate = (flags >> 2) & 0x03;
        tag.sound_size = (flags >> 1) & 0x01;
        tag.sound_type = flags & 0x01;

        if tag.sound_format == define::sound_format::AAC {
            tag.aac_packet_type = self.bytes_reader.read_u8()?;
        }
        Ok(tag)
    }

    fn parse_video_tag_header(&mut self) -> (r: Result<Tag, IOReadError>)
        requires
            old(self).kind() == TagType::VIDEO,
        ensures
            final(self).kind() == old(self).kind(),
            holds_tag_header(TagType::VIDEO, old(self).remaining()) ==> r == Ok::<
                Tag,
                IOReadError,
            >(tag_header(TagType::VIDEO, old(self).remaining())) && final(self).remaining()
                == old(self).remaining().skip(
                tag_header_len(TagType::VIDEO, old(self).remaining()[0]) as int,
            ),
            !holds_tag_header(TagType::VIDEO, old(self).remaining()) ==> r is Err
                && r->Err_0.value is NotEnoughBytes && final(self).remaining() == old(
                self,
            ).remaining().skip(taken_from_short_header(TagType::VIDEO, old(self).remaining()) as int),
    {
        let flags = self.bytes_reader.read_u8()?;
        let mut tag = Tag::defalut();

        tag.frame_type = flags >> 4;
        tag.codec_id = flags & 0x0f;

        if tag.frame_type == define::frame_type::INTER_FRAME || tag.frame_type
            == define::frame_type::KEY_FRAME {
            tag.avc_packet_type = self.bytes_reader.read_u8()?;
            tag.composition_time = self.bytes_reader.read_u24()?;
        }
        Ok(tag)
    }
}

} // verus!
