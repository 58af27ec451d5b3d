use exmpeg_native::input::{
    InputSource, InputTerm, MemoryReader, OpenPlan, AVERROR_EOF, AVSEEK_FORCE, AVSEEK_SIZE,
};
use std::sync::Arc;

#[test]
fn files_open_with_the_file_protocols() {
    let plan = InputSource::Path("/media/in.mp4".to_owned()).open(true).unwrap();
    match plan {
        OpenPlan::File { path, whitelist } => {
            assert_eq!(path, "/media/in.mp4");
            assert_eq!(whitelist, "file,crypto,data");
        }
        OpenPlan::Bytes { .. } => panic!("a path is a file"),
    }
}

#[test]
fn memory_opens_without_files_or_network() {
    let memory = InputSource::Memory(vec![1, 2, 3]).open(false).unwrap();
    let buffer = InputSource::Buffer(Arc::new(vec![1, 2, 3])).open(false).unwrap();
    for plan in [memory, buffer] {
        match plan {
            OpenPlan::Bytes { bytes, whitelist } => {
                assert_eq!(*bytes, vec![1, 2, 3]);
                assert_eq!(whitelist, "crypto,data");
            }
            OpenPlan::File { .. } => panic!("bytes are no file"),
        }
    }
}

#[test]
fn inputs_that_cannot_be_opened_say_why() {
    let missing = InputSource::Path("nowhere".to_owned()).open(false).unwrap_err();
    assert_eq!(missing.kind(), "invalid_request");
    assert_eq!(missing.message(), "input path is not a regular file");
    assert_eq!(missing.detail("path").unwrap(), "nowhere");
    let nul = InputSource::Path("a\0b".to_owned()).open(true).unwrap_err();
    assert_eq!(nul.message(), "input path contains NUL bytes");
    assert_eq!(nul.detail("path").unwrap(), "a\0b");
    let empty = InputSource::Memory(vec![]).open(true).unwrap_err();
    assert_eq!(empty.message(), "memory input is an empty binary");
    let hollow = InputSource::Buffer(Arc::new(vec![])).open(true).unwrap_err();
    assert_eq!(hollow.message(), "buffer input is empty");
    assert_eq!(hollow.kind(), "invalid_request");
}

#[test]
fn inputs_have_a_short_label() {
    assert_eq!(InputSource::Path("in.mkv".to_owned()).describe(), "in.mkv");
    assert_eq!(InputSource::Memory(vec![0; 12]).describe(), "<memory:12 bytes>");
    assert_eq!(
        InputSource::Buffer(Arc::new(vec![])).describe(),
        "<buffer:0 bytes>"
    );
}

#[test]
fn terms_decode_to_inputs() {
    assert!(matches!(
        InputSource::decode(InputTerm::Text("p".to_owned())),
        Some(InputSource::Path(_))
    ));
    assert!(matches!(
        InputSource::decode(InputTerm::Buffer(Arc::new(vec![1]))),
        Some(InputSource::Buffer(_))
    ));
    let pair = |size: usize, tagged_memory: bool, binary: Option<Vec<u8>>| {
        InputSource::decode(InputTerm::Tuple { size, tagged_memory, binary })
    };
    assert!(matches!(pair(2, true, Some(vec![9])), Some(InputSource::Memory(b)) if b == vec![9]));
    assert!(pair(3, true, Some(vec![9])).is_none());
    assert!(pair(2, false, Some(vec![9])).is_none());
    assert!(pair(2, true, None).is_none());
    assert!(InputSource::decode(InputTerm::Other).is_none());
}

#[test]
fn reads_give_back_every_byte_in_order() {
    let data: Vec<u8> = (0..=99).collect();
    let mut reader = MemoryReader::new(Arc::new(data.clone()));
    let mut seen: Vec<u8> = Vec::new();
    let mut buf = [0u8; 7];
    loop {
        let n = reader.read(&mut buf);
        if n == AVERROR_EOF {
            break;
        }
        seen.extend_from_slice(&buf[..n as usize]);
    }
    assert_eq!(seen, data);
    assert_eq!(reader.read(&mut buf), AVERROR_EOF);
}

#[test]
fn a_short_read_leaves_the_rest_of_the_buffer() {
    let mut reader = MemoryReader::new(Arc::new(vec![1, 2, 3]));
    let mut buf = [9u8; 5];
    assert_eq!(reader.read(&mut buf), 3);
    assert_eq!(buf, [1, 2, 3, 9, 9]);
    let mut none: [u8; 0] = [];
    assert_eq!(reader.seek(0, 0), 0);
    assert_eq!(reader.read(&mut none), 0);
}

#[test]
fn seeks_move_within_the_bytes() {
    let mut reader = MemoryReader::new(Arc::new((0..10).collect()));
    assert_eq!(reader.seek(0, AVSEEK_SIZE), 10);
    assert_eq!(reader.seek(0, AVSEEK_SIZE | AVSEEK_FORCE), 10);
    assert_eq!(reader.seek(4, 0), 4);
    assert_eq!(reader.seek(3, 1), 7);
    assert_eq!(reader.seek(-2, 2 | AVSEEK_FORCE), 8);
    let mut buf = [0u8; 4];
    assert_eq!(reader.read(&mut buf), 2);
    assert_eq!(&buf[..2], &[8, 9]);
    assert_eq!(reader.seek(10, 0), 10);
    assert_eq!(reader.seek(11, 0), -1);
    assert_eq!(reader.seek(-1, 0), -1);
    assert_eq!(reader.seek(i64::MAX, 1), -1);
    assert_eq!(reader.seek(i64::MIN, 2), -1);
    assert_eq!(reader.seek(0, 3), -1);
    // A refused seek does not move.
    assert_eq!(reader.seek(0, 1), 10);
}
