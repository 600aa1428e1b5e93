use copiepate::frame::{
    read_frame_size, read_frame_type, read_payload_size, read_protocol_version, FrameError,
    NetFrame, NetFrameType,
    HEADER_SIZE,
};
use copiepate::nonce::Nonce;
use copiepate::PROTOCOL_VERSION;

fn header(version: u32, size: u64, code: u32) -> Vec<u8> {
    let mut bytes = Vec::new();
    bytes.extend_from_slice(&version.to_le_bytes());
    bytes.extend_from_slice(&size.to_le_bytes());
    bytes.extend_from_slice(&code.to_le_bytes());
    bytes
}

fn assert_round_trip(frame_type: NetFrameType, payload: Vec<u8>) {
    let frame = NetFrame::new(frame_type, payload.clone());
    let decoded = NetFrame::from_net(&frame.to_net()).unwrap();
    assert_eq!(decoded.protocol_version, PROTOCOL_VERSION);
    assert_eq!(decoded.frame_size, 16 + payload.len() as u64);
    assert_eq!(decoded.frame_type, frame_type);
    assert_eq!(decoded.payload, payload);
}

#[test]
fn header_is_sixteen_bytes() {
    assert_eq!(HEADER_SIZE, 16);
    assert_eq!(PROTOCOL_VERSION, 1);
}

#[test]
fn open_frame_on_the_wire() {
    let frame = NetFrame::open_frame();
    assert_eq!(frame.frame_size, 16);
    assert_eq!(frame.frame_type, NetFrameType::Open);
    assert!(frame.payload.is_empty());
    assert_eq!(frame.to_net(), vec![1, 0, 0, 0, 16, 0, 0, 0, 0, 0, 0, 0, 0, 0, 0, 0]);
}

#[test]
fn nonce_frame_on_the_wire() {
    let nonce = Nonce::from([1, 2, 3, 4, 5, 6, 7, 8, 9, 10, 11, 12]);
    let frame = NetFrame::nounce_frame(&nonce);
    assert_eq!(frame.frame_size, 28);
    assert_eq!(frame.frame_type, NetFrameType::Open);
    assert_eq!(
        frame.to_net(),
        vec![
            1, 0, 0, 0, 28, 0, 0, 0, 0, 0, 0, 0, 0, 0, 0, 0, 1, 2, 3, 4, 5, 6, 7, 8, 9, 10, 11,
            12
        ]
    );
}

#[test]
fn close_frame_on_the_wire() {
    let frame = NetFrame::close_frame(vec![0xaa, 0xbb]);
    assert_eq!(frame.frame_type, NetFrameType::Close);
    assert_eq!(
        frame.to_net(),
        vec![1, 0, 0, 0, 18, 0, 0, 0, 0, 0, 0, 0, 1, 0, 0, 0, 0xaa, 0xbb]
    );
}

#[test]
fn message_frames_on_the_wire() {
    let copy = NetFrame::new(NetFrameType::CopyMessage, vec![7]);
    assert_eq!(copy.to_net(), vec![1, 0, 0, 0, 17, 0, 0, 0, 0, 0, 0, 0, 2, 0, 0, 0, 7]);
    let exec = NetFrame::new(NetFrameType::ExecMessage, vec![8, 9]);
    assert_eq!(exec.to_net(), vec![1, 0, 0, 0, 18, 0, 0, 0, 0, 0, 0, 0, 3, 0, 0, 0, 8, 9]);
}

#[test]
fn frame_size_is_little_endian_over_eight_bytes() {
    let frame = NetFrame::new(NetFrameType::CopyMessage, vec![0; 0x1_02f0]);
    let bytes = frame.to_net();
    assert_eq!(bytes.len(), 0x1_0300);
    assert_eq!(&bytes[4..12], &[0x00, 0x03, 0x01, 0, 0, 0, 0, 0]);
}

#[test]
fn to_net_writes_the_fields_as_they_are() {
    let frame = NetFrame {
        protocol_version: 0x0403_0201,
        frame_size: 0x0807_0605_0403_0201,
        frame_type: NetFrameType::ExecMessage,
        payload: vec![0xff],
    };
    assert_eq!(
        frame.to_net(),
        vec![1, 2, 3, 4, 1, 2, 3, 4, 5, 6, 7, 8, 3, 0, 0, 0, 0xff]
    );
}

#[test]
fn round_trip_of_every_frame_type() {
    assert_round_trip(NetFrameType::Open, vec![]);
    assert_round_trip(NetFrameType::Open, vec![1, 2, 3, 4, 5, 6, 7, 8, 9, 10, 11, 12]);
    assert_round_trip(NetFrameType::Close, vec![]);
    assert_round_trip(NetFrameType::Close, vec![99]);
    assert_round_trip(NetFrameType::CopyMessage, vec![]);
    assert_round_trip(NetFrameType::CopyMessage, (0..=255).collect());
    assert_round_trip(NetFrameType::ExecMessage, vec![]);
    assert_round_trip(NetFrameType::ExecMessage, vec![0; 1000]);
}

#[test]
fn round_trip_of_the_constructors() {
    let open = NetFrame::from_net(&NetFrame::open_frame().to_net()).unwrap();
    assert_eq!(open.frame_type, NetFrameType::Open);
    assert_eq!(open.payload, Vec::<u8>::new());
    let nonce = Nonce::from([3; 12]);
    let granted = NetFrame::from_net(&NetFrame::nounce_frame(&nonce).to_net()).unwrap();
    assert_eq!(granted.frame_type, NetFrameType::Open);
    assert_eq!(granted.payload, vec![3; 12]);
    let close = NetFrame::from_net(&NetFrame::close_frame(vec![1, 2, 3]).to_net()).unwrap();
    assert_eq!(close.frame_type, NetFrameType::Close);
    assert_eq!(close.payload, vec![1, 2, 3]);
}

#[test]
fn from_net_leaves_what_follows_the_frame() {
    let mut bytes = NetFrame::new(NetFrameType::CopyMessage, vec![5, 6]).to_net();
    bytes.extend_from_slice(&NetFrame::close_frame(vec![7]).to_net());
    let first = NetFrame::from_net(&bytes).unwrap();
    assert_eq!(first.frame_type, NetFrameType::CopyMessage);
    assert_eq!(first.frame_size, 18);
    assert_eq!(first.payload, vec![5, 6]);
    let second = NetFrame::from_net(&bytes[first.frame_size as usize..]).unwrap();
    assert_eq!(second.frame_type, NetFrameType::Close);
    assert_eq!(second.payload, vec![7]);
}

#[test]
fn from_net_of_nothing_is_the_end_of_the_stream() {
    assert_eq!(NetFrame::from_net(&[]).unwrap_err(), FrameError::EndOfStream);
}

#[test]
fn from_net_of_a_cut_header_is_the_end_of_the_stream() {
    let bytes = NetFrame::open_frame().to_net();
    for kept in 0..16 {
        assert_eq!(NetFrame::from_net(&bytes[..kept]).unwrap_err(), FrameError::EndOfStream);
    }
}

#[test]
fn from_net_of_a_cut_payload_is_the_end_of_the_stream() {
    let bytes = NetFrame::new(NetFrameType::CopyMessage, vec![1, 2, 3, 4, 5]).to_net();
    for kept in 16..bytes.len() {
        assert_eq!(NetFrame::from_net(&bytes[..kept]).unwrap_err(), FrameError::EndOfStream);
    }
    assert!(NetFrame::from_net(&bytes).is_ok());
}

#[test]
fn from_net_refuses_another_version() {
    let bytes = header(2, 16, 0);
    assert_eq!(NetFrame::from_net(&bytes).unwrap_err(), FrameError::UnsupportedVersion);
    let bytes = header(0, 16, 0);
    assert_eq!(NetFrame::from_net(&bytes).unwrap_err(), FrameError::UnsupportedVersion);
    let bytes = header(0x0100_0001, 16, 0);
    assert_eq!(NetFrame::from_net(&bytes).unwrap_err(), FrameError::UnsupportedVersion);
}

#[test]
fn from_net_refuses_a_size_under_the_header() {
    for size in [0u64, 1, 12, 15] {
        let bytes = header(1, size, 0);
        assert_eq!(NetFrame::from_net(&bytes).unwrap_err(), FrameError::InvalidFrameSize);
    }
}

#[test]
fn from_net_refuses_an_unknown_type() {
    for code in [4u32, 5, 255, 256, u32::MAX] {
        let bytes = header(1, 16, code);
        assert_eq!(NetFrame::from_net(&bytes).unwrap_err(), FrameError::InvalidFrameType);
    }
}

#[test]
fn from_net_checks_in_the_order_of_the_fields() {
    // The version comes before the size, the size before the payload, the
    // payload before the type.
    assert_eq!(
        NetFrame::from_net(&header(9, 3, 9)).unwrap_err(),
        FrameError::UnsupportedVersion
    );
    assert_eq!(NetFrame::from_net(&header(1, 3, 9)).unwrap_err(), FrameError::InvalidFrameSize);
    assert_eq!(NetFrame::from_net(&header(1, 17, 9)).unwrap_err(), FrameError::EndOfStream);
    assert_eq!(NetFrame::from_net(&header(1, 16, 9)).unwrap_err(), FrameError::InvalidFrameType);
}

#[test]
fn from_net_of_a_huge_declared_size_is_the_end_of_the_stream() {
    let bytes = header(1, u64::MAX, 2);
    assert_eq!(NetFrame::from_net(&bytes).unwrap_err(), FrameError::EndOfStream);
}

#[test]
fn read_protocol_version_of_a_header() {
    assert_eq!(read_protocol_version(&header(1, 16, 0)), Ok(1));
    assert_eq!(read_protocol_version(&header(3, 16, 0)), Err(FrameError::UnsupportedVersion));
    assert_eq!(read_protocol_version(&[1, 0, 0]), Err(FrameError::EndOfStream));
    assert_eq!(read_protocol_version(&[1, 0, 0, 0]), Ok(1));
}

#[test]
fn read_frame_size_of_a_header() {
    assert_eq!(read_frame_size(&header(1, 16, 0)), Ok(16));
    assert_eq!(read_frame_size(&header(1, 0x0102_0304_0506_0708, 0)), Ok(0x0102_0304_0506_0708));
    assert_eq!(read_frame_size(&header(1, 15, 0)), Ok(15));
    assert_eq!(read_frame_size(&header(1, 0, 0)), Ok(0));
    assert_eq!(read_frame_size(&header(7, 28, 9)), Ok(28));
    assert_eq!(read_frame_size(&header(1, 28, 0)[..12]), Ok(28));
    assert_eq!(read_frame_size(&header(1, 16, 0)[..11]), Err(FrameError::EndOfStream));
}

#[test]
fn read_frame_type_of_the_first_four_bytes() {
    assert_eq!(read_frame_type(&[0, 0, 0, 0]), Ok(NetFrameType::Open));
    assert_eq!(read_frame_type(&[1, 0, 0, 0]), Ok(NetFrameType::Close));
    assert_eq!(read_frame_type(&[2, 0, 0, 0]), Ok(NetFrameType::CopyMessage));
    assert_eq!(read_frame_type(&[3, 0, 0, 0]), Ok(NetFrameType::ExecMessage));
    assert_eq!(read_frame_type(&[4, 0, 0, 0]), Err(FrameError::InvalidFrameType));
    assert_eq!(read_frame_type(&[255, 255, 255, 255]), Err(FrameError::InvalidFrameType));
}

#[test]
fn read_frame_type_is_little_endian() {
    assert_eq!(read_frame_type(&[0, 0, 0, 2]), Err(FrameError::InvalidFrameType));
    assert_eq!(read_frame_type(&[0, 1, 0, 0]), Err(FrameError::InvalidFrameType));
    assert_eq!(read_frame_type(&[2, 0, 0, 1]), Err(FrameError::InvalidFrameType));
}

#[test]
fn read_frame_type_leaves_what_follows_the_code() {
    assert_eq!(read_frame_type(&[2, 0, 0, 0, 9, 9, 9]), Ok(NetFrameType::CopyMessage));
    assert_eq!(read_frame_type(&[1, 0, 0, 0, 0xff]), Ok(NetFrameType::Close));
    // The code of a header stands behind the version and the size.
    assert_eq!(read_frame_type(&header(1, 16, 3)[12..]), Ok(NetFrameType::ExecMessage));
    assert_eq!(read_frame_type(&header(1, 16, 3)), Ok(NetFrameType::Close));
    assert_eq!(read_frame_type(&header(2, 16, 3)), Ok(NetFrameType::CopyMessage));
}

#[test]
fn read_frame_type_of_fewer_than_four_bytes() {
    assert_eq!(read_frame_type(&[]), Err(FrameError::EndOfStream));
    assert_eq!(read_frame_type(&[2]), Err(FrameError::EndOfStream));
    assert_eq!(read_frame_type(&[2, 0, 0]), Err(FrameError::EndOfStream));
}

#[test]
fn read_payload_size_of_a_header() {
    assert_eq!(read_payload_size(&header(1, 16, 0)), Ok(0));
    assert_eq!(read_payload_size(&header(1, 28, 0)), Ok(12));
    assert_eq!(read_payload_size(&header(1, 0x1_0000_0010, 2)), Ok(0x1_0000_0000));
    assert_eq!(read_payload_size(&header(1, u64::MAX, 2)), Ok(u64::MAX - 16));
    // The type code is not looked at.
    assert_eq!(read_payload_size(&header(1, 17, 9)), Ok(1));
}

#[test]
fn read_payload_size_refuses_what_from_net_refuses() {
    assert_eq!(read_payload_size(&header(1, 16, 0)[..15]), Err(FrameError::EndOfStream));
    assert_eq!(read_payload_size(&[]), Err(FrameError::EndOfStream));
    assert_eq!(read_payload_size(&header(2, 16, 0)), Err(FrameError::UnsupportedVersion));
    assert_eq!(read_payload_size(&header(2, 3, 0)), Err(FrameError::UnsupportedVersion));
    assert_eq!(read_payload_size(&header(1, 15, 0)), Err(FrameError::InvalidFrameSize));
    assert_eq!(read_payload_size(&header(1, 0, 0)), Err(FrameError::InvalidFrameSize));
}

#[test]
fn frame_type_codes() {
    assert_eq!(NetFrameType::Open.to_u32(), 0);
    assert_eq!(NetFrameType::Close.to_u32(), 1);
    assert_eq!(NetFrameType::CopyMessage.to_u32(), 2);
    assert_eq!(NetFrameType::ExecMessage.to_u32(), 3);
    assert_eq!(NetFrameType::from_u32(0), Some(NetFrameType::Open));
    assert_eq!(NetFrameType::from_u32(1), Some(NetFrameType::Close));
    assert_eq!(NetFrameType::from_u32(2), Some(NetFrameType::CopyMessage));
    assert_eq!(NetFrameType::from_u32(3), Some(NetFrameType::ExecMessage));
    assert_eq!(NetFrameType::from_u32(4), None);
    assert_eq!(NetFrameType::from_u32(u32::MAX), None);
}

#[test]
fn compute_frame_size_adds_the_header() {
    assert_eq!(NetFrame::compute_frame_size(&[]), 16);
    assert_eq!(NetFrame::compute_frame_size(&[0; 12]), 28);
    assert_eq!(NetFrame::compute_frame_size(&[0; 300]), 316);
}
