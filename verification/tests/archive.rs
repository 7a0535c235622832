use std::io::{Read, Write};
use tunnix::archive::{archive_root_name, chunk_of, ChunkReader, CHANNEL_CAP};

/// A sink that keeps what is written as chunks.
struct Chunks(Vec<Vec<u8>>);

impl Write for Chunks {
    fn write(&mut self, buf: &[u8]) -> std::io::Result<usize> {
        if let Some(chunk) = chunk_of(buf) {
            self.0.push(chunk);
        }
        Ok(buf.len())
    }

    fn flush(&mut self) -> std::io::Result<()> {
        Ok(())
    }
}

/// A source that reads off chunks.
struct Source {
    reader: ChunkReader,
    chunks: std::vec::IntoIter<Vec<u8>>,
}

impl Read for Source {
    fn read(&mut self, buf: &mut [u8]) -> std::io::Result<usize> {
        loop {
            if let Some(n) = self.reader.read(buf) {
                return Ok(n);
            }
            match self.chunks.next() {
                Some(chunk) => self.reader.feed(chunk),
                None => return Ok(0),
            }
        }
    }
}

fn source(chunks: Vec<Vec<u8>>) -> Source {
    Source { reader: ChunkReader::new(), chunks: chunks.into_iter() }
}

/// Packs files under their names, with their modes, and unpacks them again.
fn roundtrip(files: &[(&str, &[u8], u32)]) -> Vec<(String, Vec<u8>, u32)> {
    let encoder = zstd::stream::Encoder::new(Chunks(Vec::new()), 3).unwrap();
    let mut builder = tar::Builder::new(encoder);
    for (name, data, mode) in files {
        let mut header = tar::Header::new_gnu();
        header.set_size(data.len() as u64);
        header.set_mode(*mode);
        header.set_cksum();
        builder.append_data(&mut header, name, *data).unwrap();
    }
    let chunks = builder.into_inner().unwrap().finish().unwrap().0;
    assert!(chunks.iter().all(|c| !c.is_empty()));

    let decoder = zstd::stream::Decoder::new(source(chunks)).unwrap();
    let mut archive = tar::Archive::new(decoder);
    let mut out = Vec::new();
    for entry in archive.entries().unwrap() {
        let mut entry = entry.unwrap();
        let name = entry.path().unwrap().to_string_lossy().into_owned();
        let mode = entry.header().mode().unwrap();
        let mut data = Vec::new();
        entry.read_to_end(&mut data).unwrap();
        out.push((name, data, mode));
    }
    out
}

#[test]
fn roundtrip_directory_tree() {
    let big: Vec<u8> = (0..200_000u32).map(|i| (i % 251) as u8).collect();
    // The archive root is the basename of src ("src").
    let root = archive_root_name(Some("src"), None, "archive");
    let a = format!("{}/a.txt", root);
    let b = format!("{}/nested/big.bin", root);
    let run = format!("{}/run.sh", root);
    let out = roundtrip(&[
        (&a, b"hello world", 0o644),
        (&b, &big, 0o644),
        (&run, b"#!/bin/sh\necho hi\n", 0o755),
    ]);

    assert_eq!(out[0].0, "src/a.txt");
    assert_eq!(out[0].1, b"hello world");
    assert_eq!(out[1].0, "src/nested/big.bin");
    assert_eq!(out[1].1, big);
    assert_eq!(out[2].2 & 0o777, 0o755);
}

#[test]
fn empty_writes_make_no_chunks() {
    assert_eq!(chunk_of(&[]), None);
    assert_eq!(chunk_of(&[1, 2]), Some(vec![1, 2]));
    assert_eq!(CHANNEL_CAP, 256);
}

#[test]
fn reads_of_any_size_yield_what_came_in() {
    let chunks = || vec![vec![1, 2, 3], vec![], vec![4], vec![5, 6, 7, 8]];
    for size in 1..10usize {
        let mut s = source(chunks());
        let mut got = Vec::new();
        let mut buf = vec![0u8; size];
        loop {
            let n = s.read(&mut buf).unwrap();
            if n == 0 {
                break;
            }
            got.extend_from_slice(&buf[..n]);
        }
        assert_eq!(got, [1, 2, 3, 4, 5, 6, 7, 8]);
    }
}

#[test]
fn a_read_of_nothing_needs_no_chunk() {
    let mut r = ChunkReader::new();
    assert_eq!(r.read(&mut []), Some(0));
    let mut buf = [9u8; 4];
    assert_eq!(r.read(&mut buf), None);
    r.feed(vec![1, 2]);
    assert_eq!(r.read(&mut []), Some(0));
    assert_eq!(r.read(&mut buf), Some(2));
    assert_eq!(buf, [1, 2, 9, 9]);
}

#[test]
fn sources_are_named_after_themselves() {
    assert_eq!(archive_root_name(Some("a"), Some("b"), "c"), "a");
    assert_eq!(archive_root_name(None, Some("b"), "c"), "b");
    assert_eq!(archive_root_name(None, None, "archive"), "archive");
}
