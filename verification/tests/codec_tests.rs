use fluxvoice::codec::{assemble_opus_ogg, rand_serial};
use fluxvoice::opus::{create_opus_head, create_opus_tags, frames_for, padded_frame_at};
use std::io::Cursor;

#[test]
fn opus_head_packet_bytes() {
    let head = create_opus_head();
    assert_eq!(head.len(), 19);
    assert_eq!(&head[0..8], b"OpusHead");
    assert_eq!(head[8], 1); // version
    assert_eq!(head[9], 1); // channels
    assert_eq!(&head[10..12], &[0, 0]); // pre-skip
    assert_eq!(&head[12..16], &48000u32.to_le_bytes()); // internal rate
    assert_eq!(&head[16..18], &[0, 0]); // output gain
    assert_eq!(head[18], 0); // mapping family
}

#[test]
fn opus_tags_packet_bytes() {
    let tags = create_opus_tags();
    assert_eq!(&tags[0..8], b"OpusTags");
    assert_eq!(&tags[8..12], &9u32.to_le_bytes());
    assert_eq!(&tags[12..21], b"FluxVoice");
    assert_eq!(&tags[21..25], &0u32.to_le_bytes());
}

#[test]
fn frames_for_counts_partial_frames() {
    assert_eq!(frames_for(0), 0);
    assert_eq!(frames_for(1), 1);
    assert_eq!(frames_for(960), 1);
    assert_eq!(frames_for(961), 2);
    assert_eq!(frames_for(8000), 9);
}

#[test]
fn padded_frame_pads_with_zeros() {
    let samples: Vec<i16> = (0..1000).map(|i| i as i16).collect();
    let f0 = padded_frame_at(&samples, 0);
    assert_eq!(f0.len(), 960);
    assert_eq!(f0[0], 0);
    assert_eq!(f0[959], 959);
    let f1 = padded_frame_at(&samples, 1);
    assert_eq!(f1.len(), 960);
    assert_eq!(f1[0], 960);
    assert_eq!(f1[39], 999);
    assert!(f1[40..].iter().all(|&s| s == 0));
}

#[test]
fn ogg_container_round_trip() {
    // Stand-in frame payloads: without an Opus codec on this platform
    // the container is exercised with arbitrary packet bytes.
    let frames: Vec<Vec<u8>> = (0..9u8).map(|i| vec![i; 40 + i as usize]).collect();
    let serial = 424242;
    let bytes = assemble_opus_ogg(&frames, serial).unwrap();

    let mut reader = ogg::reading::PacketReader::new(Cursor::new(bytes));
    let head = reader.read_packet_expected().unwrap();
    assert_eq!(head.data, create_opus_head());
    assert_eq!(head.stream_serial(), serial);
    assert_eq!(head.absgp_page(), 0);
    let tags = reader.read_packet_expected().unwrap();
    assert_eq!(tags.data, create_opus_tags());

    let mut count = 0usize;
    let mut last = false;
    while let Some(p) = reader.read_packet().unwrap() {
        assert_eq!(p.data, frames[count]);
        assert_eq!(p.stream_serial(), serial);
        last = p.last_in_stream();
        count += 1;
        if last {
            assert_eq!(p.absgp_page(), count as u64 * 2880);
        }
    }
    assert_eq!(count, frames.len());
    assert!(last);
    // 9 frames of 960 samples at 16 kHz: the final granule position
    // says 9 * 2880 ticks of the 48 kHz timebase, 540 ms of audio.
    assert_eq!(frames.len() as u64 * 2880 * 1000 / 48000, 540);
}

#[test]
fn ogg_single_frame_stream_terminates() {
    let frames: Vec<Vec<u8>> = vec![vec![1, 2, 3]];
    let bytes = assemble_opus_ogg(&frames, 7).unwrap();
    let mut reader = ogg::reading::PacketReader::new(Cursor::new(bytes));
    reader.read_packet_expected().unwrap();
    reader.read_packet_expected().unwrap();
    let p = reader.read_packet_expected().unwrap();
    assert_eq!(p.data, vec![1, 2, 3]);
    assert!(p.last_in_stream());
    assert_eq!(p.absgp_page(), 2880);
    assert!(reader.read_packet().unwrap().is_none());
}

#[test]
fn rand_serial_returns_a_value() {
    let a = rand_serial();
    let b = rand_serial();
    let _ = a;
    let _ = b;
}
