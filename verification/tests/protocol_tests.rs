use rchat::crypto::{aes_dec, aes_enc};
use rchat::protocol::{
    archive_name, file_chunks, file_header, file_offer, open_text, peer_reply, read_file_header,
    seal_text, FileHeader, CHUNK_SIZE,
};

#[test]
fn text_message_round_trip() {
    let key = vec![3u8; 32];
    let nonce = [9u8; 12];
    for t in ["hello", "", "ünïcödé ✓", "!authcheck"] {
        let frame = seal_text(t, &key, nonce);
        assert_eq!(frame.len(), t.len() + 16);
        assert_eq!(open_text(&frame, &key, nonce), Some(t.to_string()));
    }
    let frame = seal_text("hi", &key, nonce);
    assert_eq!(open_text(&frame, &key, [8u8; 12]), None);
}

#[test]
fn invalid_utf8_is_replaced() {
    let key = vec![1u8; 32];
    let nonce = [2u8; 12];
    let frame = aes_enc(vec![b'a', 0xff, b'b'], key.clone(), nonce);
    assert_eq!(open_text(&frame, &key, nonce), Some("a\u{fffd}b".to_string()));
}

#[test]
fn file_header_text() {
    assert_eq!(file_header("report.txt.zip", 42), "!sending report.txt.zip 42");
    assert_eq!(file_offer(), "!sendfile");
}

#[test]
fn file_header_round_trip() {
    for (name, len) in [("a.zip", 0usize), ("x", 123456), ("photo.png.zip", usize::MAX)] {
        let h = file_header(name, len);
        match read_file_header(&h) {
            FileHeader::Transfer { name: n, length } => {
                assert_eq!(n, name);
                assert_eq!(length, len);
            }
            _ => panic!("not a transfer"),
        }
    }
}

#[test]
fn file_header_cases() {
    assert!(matches!(read_file_header("!sending onlyname"), FileHeader::Malformed));
    assert!(matches!(read_file_header("!sending a.zip notanumber"), FileHeader::Malformed));
    assert!(matches!(read_file_header(""), FileHeader::Malformed));
    assert!(matches!(read_file_header("hello there 5"), FileHeader::Other { length: 5 }));
    match read_file_header("\0\0!sending b.zip 7 extra\0") {
        FileHeader::Transfer { name, length } => {
            assert_eq!(name, "b.zip");
            assert_eq!(length, 7);
        }
        _ => panic!("not a transfer"),
    }
}

#[test]
fn archive_names() {
    assert_eq!(archive_name("processing/report.txt"), "report.txt.zip");
    assert_eq!(archive_name("docs"), "docs.zip");
    assert_eq!(archive_name("a/b/"), ".zip");
}

#[test]
fn chunks_put_back_together() {
    let data: Vec<u8> = (0..250_001u32).map(|i| (i % 251) as u8).collect();
    let chunks = file_chunks(&data);
    assert_eq!(chunks.len(), 3);
    assert_eq!(chunks[0].len(), CHUNK_SIZE);
    assert_eq!(chunks[1].len(), CHUNK_SIZE);
    assert_eq!(chunks[2].len(), 50_001);
    assert_eq!(chunks.concat(), data);
    assert!(file_chunks(&[]).is_empty());
    assert_eq!(file_chunks(&vec![1u8; CHUNK_SIZE]).len(), 1);
}

#[test]
fn encrypted_file_survives_chunking() {
    let key = vec![4u8; 32];
    let nonce = [5u8; 12];
    let content = vec![7u8; 123_456];
    let enc = aes_enc(content.clone(), key.clone(), nonce);
    let header = file_header("f.zip", enc.len());
    let length = match read_file_header(&header) {
        FileHeader::Transfer { length, .. } => length,
        _ => panic!("not a transfer"),
    };
    let mut received = Vec::new();
    for c in file_chunks(&enc) {
        received.extend_from_slice(&c);
        if received.len() >= length {
            break;
        }
    }
    assert_eq!(aes_dec(received, key, nonce), Some(content));
}

#[test]
fn peer_replies() {
    assert_eq!(peer_reply("bob> y"), Some(true));
    assert_eq!(peer_reply("bob> n"), Some(false));
    assert_eq!(peer_reply("bob> yes"), None);
    assert_eq!(peer_reply("bob>y"), None);
    assert_eq!(peer_reply("AWAITING FOR THE USER RESPONSE!"), None);
}
