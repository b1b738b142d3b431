use idevice::error::IdeviceError;
use idevice::http2::frame::{
    DataFrame, Frame, HeadersFrame, HttpFrame, Setting, SettingsFrame, WindowUpdateFrame,
};

#[test]
fn frames_serialize_with_header() {
    let s = SettingsFrame {
        settings: vec![Setting::MaxConcurrentStreams(100), Setting::InitialWindowSize(1048576)],
        stream_id: 0,
        flags: 0,
    };
    assert_eq!(
        s.serialize(),
        vec![0, 0, 12, 4, 0, 0, 0, 0, 0, 0, 3, 0, 0, 0, 100, 0, 4, 0, 16, 0, 0]
    );
    let w = WindowUpdateFrame { increment_size: 983041, stream_id: 0 };
    assert_eq!(w.serialize(), vec![0, 0, 4, 8, 0, 0, 0, 0, 0, 0, 15, 0, 1]);
    let h = HeadersFrame { stream_id: 1 };
    assert_eq!(h.serialize(), vec![0, 0, 0, 1, 4, 0, 0, 0, 1]);
    let d = DataFrame { stream_id: 3, payload: vec![9, 8, 7] };
    assert_eq!(d.serialize(), vec![0, 0, 3, 0, 0, 0, 0, 0, 3, 9, 8, 7]);
}

#[test]
fn frames_decode_by_type() {
    let header = Frame::header_fields([0, 0, 3, 0, 1, 0, 0, 0, 3]);
    assert_eq!(header, (3, 0, 1, 3));
    match Frame::decode(0, 0, 3, vec![9, 8, 7]).unwrap() {
        Frame::Data(d) => {
            assert_eq!(d.stream_id, 3);
            assert_eq!(d.payload, vec![9, 8, 7]);
        }
        other => panic!("unexpected {other:?}"),
    }
    match Frame::decode(4, 1, 0, vec![0, 3, 0, 0, 0, 100, 0, 4, 0, 0, 1, 0, 7]).unwrap() {
        Frame::Settings(s) => {
            assert_eq!(
                s.settings,
                vec![Setting::MaxConcurrentStreams(100), Setting::InitialWindowSize(256)]
            );
            assert_eq!(s.flags, 1);
        }
        other => panic!("unexpected {other:?}"),
    }
    match Frame::decode(8, 0, 5, vec![0, 0, 1, 0]).unwrap() {
        Frame::WindowUpdate(w) => assert_eq!((w.increment_size, w.stream_id), (256, 5)),
        other => panic!("unexpected {other:?}"),
    }
}

#[test]
fn frames_decode_errors() {
    assert!(matches!(Frame::decode(3, 0, 1, vec![]), Err(IdeviceError::HttpStreamReset)));
    assert!(matches!(Frame::decode(9, 0, 1, vec![]), Err(IdeviceError::UnknownFrame(9))));
    assert!(matches!(
        Frame::decode(4, 0, 0, vec![0, 9, 0, 0, 0, 1]),
        Err(IdeviceError::UnknownHttpSetting(9))
    ));
    assert!(matches!(
        Frame::decode(4, 0, 0, vec![0, 3, 0, 0]),
        Err(IdeviceError::NotEnoughBytes(2, 4))
    ));
    assert!(matches!(Frame::decode(8, 0, 0, vec![0, 0, 1]), Err(IdeviceError::UnexpectedResponse)));
    match Frame::decode(7, 0, 0, vec![0, 0, 0, 0, 0, 0, 0, 2, b'b', b'y', b'e']) {
        Err(IdeviceError::HttpGoAway(m)) => assert_eq!(m, "bye"),
        other => panic!("unexpected {other:?}"),
    }
    match Frame::decode(7, 0, 0, vec![0, 0]) {
        Err(IdeviceError::HttpGoAway(m)) => assert_eq!(m, "<MISSING>"),
        other => panic!("unexpected {other:?}"),
    }
}
