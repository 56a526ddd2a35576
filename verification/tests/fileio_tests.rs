use helix::fileio::readers::{ChunkReader, FileReader};
use helix::fileio::writers::{ChunkWriter, FileWriter};

#[test]
fn chunk_frames_round_trip_in_order() {
    let chunks: Vec<Vec<u8>> = vec![
        b"first".to_vec(),
        Vec::new(),
        b"a somewhat longer third chunk".to_vec(),
        vec![0u8; 300],
    ];
    let mut writer = ChunkWriter::from();
    for c in &chunks {
        writer.write(c.clone());
    }
    let bytes = writer.close();
    let mut reader = ChunkReader::from(bytes);
    let mut back: Vec<Vec<u8>> = Vec::new();
    while let Some(chunk) = reader.next().unwrap() {
        back.push(chunk);
    }
    assert_eq!(back, chunks);
}

#[test]
fn chunk_writer_prefixes_big_endian_length() {
    let mut writer = ChunkWriter::from();
    writer.write(vec![7u8; 258]);
    let bytes = writer.close();
    assert_eq!(&bytes[0..4], &[0, 0, 1, 2]);
    assert_eq!(bytes.len(), 4 + 258);
}

#[test]
fn chunk_reader_reports_cut_short_frame() {
    let bytes: Vec<u8> = vec![0, 0, 0, 5, 1, 2];
    let mut reader = ChunkReader::from(bytes);
    let err = reader.next().unwrap_err();
    assert_eq!(err.detailed_code, "MalformedBlock");

    let bytes: Vec<u8> = vec![0, 0];
    let mut reader = ChunkReader::from(bytes);
    assert!(reader.next().is_err());
}

#[test]
fn chunk_reader_ends_cleanly_on_empty_input() {
    let mut reader = ChunkReader::from(Vec::new());
    assert!(reader.next().unwrap().is_none());
    assert!(reader.next().unwrap().is_none());
}

#[test]
fn file_reader_yields_capacity_sized_buffers() {
    let data: Vec<u8> = (0u8..10).collect();
    let mut reader = FileReader::from(4, data);
    assert_eq!(reader.next().unwrap(), vec![0, 1, 2, 3]);
    assert_eq!(reader.next().unwrap(), vec![4, 5, 6, 7]);
    assert_eq!(reader.next().unwrap(), vec![8, 9]);
    assert!(reader.next().is_none());
    assert!(reader.next().is_none());
}

#[test]
fn file_reader_on_empty_input_yields_nothing() {
    let mut reader = FileReader::from(1024, Vec::new());
    assert!(reader.next().is_none());
}

#[test]
fn file_writer_accumulates_in_order() {
    let mut writer = FileWriter::from();
    writer.write(b"ab".to_vec());
    writer.write(Vec::new());
    writer.write(b"cd".to_vec());
    assert_eq!(writer.close(), b"abcd".to_vec());
}
