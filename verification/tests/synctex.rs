use std::io::{Read, Write};

use flate2::read::GzDecoder;
use flate2::write::GzEncoder;
use flate2::Compression;
use texe::synctex::{for_publication, rewrite_for_publication};

fn compress(text: &str) -> Vec<u8> {
    let mut encoder = GzEncoder::new(Vec::new(), Compression::default());
    encoder.write_all(text.as_bytes()).unwrap();
    encoder.finish().unwrap()
}

fn decompress(bytes: &[u8]) -> String {
    let mut text = String::new();
    GzDecoder::new(bytes).read_to_string(&mut text).unwrap();
    text
}

#[test]
fn relative_inputs_and_all_anchor_distances_follow_published_location() {
    let root = "/tmp/texe-paper";
    let data = compress(
        "SyncTeX Version:1\nInput:1:./chapter.tex\n!38\n{1\nInput:2:figures/data.tex\n!36\n}1\n",
    );
    let result = for_publication(&data, root).unwrap();
    let text = decompress(&result);
    assert!(text.contains("Input:1:/tmp/texe-paper/chapter.tex"));
    assert!(text.contains("Input:2:/tmp/texe-paper/figures/data.tex"));
    assert!(!text.contains("Input:2:figures/"));
    let mut offset = 0;
    let mut previous = 0;
    for line in text.split_inclusive('\n') {
        if let Some(distance) = line.strip_prefix('!') {
            assert_eq!(distance.trim().parse::<usize>().unwrap(), offset - previous);
            previous = offset;
        }
        offset += line.len();
    }
}

#[test]
fn absolute_inputs_keep_the_original_compressed_bytes() {
    let text = "SyncTeX Version:1\nInput:1:/tmp/texe-paper/main.tex\n";
    let data = compress(text);
    assert_eq!(for_publication(&data, "/tmp/texe-paper").unwrap(), data);
    assert!(for_publication(b"invalid gzip", "/tmp/texe-paper").is_none());
}

#[test]
fn parent_components_are_kept_and_line_endings_preserved() {
    let data = compress("Input:3:../shared/macros.tex\r\n!+7\r\n");
    let text = decompress(&for_publication(&data, "/work/paper/").unwrap());
    assert_eq!(text, "Input:3:/work/paper/../shared/macros.tex\r\n!42\r\n");
}

#[test]
fn decoded_stream_is_rewritten_against_the_root() {
    let (out, changed) =
        rewrite_for_publication(b"Input:3:../shared/macros.tex\r\n!+7\r\n", "/work/paper/");
    assert_eq!(out, b"Input:3:/work/paper/../shared/macros.tex\r\n!42\r\n".to_vec());
    assert!(changed);
    let (out, changed) = rewrite_for_publication(b"Input:1:/abs/main.tex\n!9\n", "/work");
    assert_eq!(out, b"Input:1:/abs/main.tex\n!22\n".to_vec());
    assert!(!changed);
}
