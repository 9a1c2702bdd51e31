use kronosnet::config::{
    compress_config_to_native, crypto_config_to_native, decode_name_list, link_config_from_native,
    CompressConfig, CryptoConfig, Endpoint, IpAddress, KEY_BUF_LEN, MODEL_BUF_LEN,
};
use kronosnet::errors::ErrorKind;
use kronosnet::flags::TransportId;

fn crypto_cfg(model: &str, cipher: &str, hash: &str, key_len: usize) -> CryptoConfig {
    CryptoConfig {
        crypto_model: model.to_string(),
        crypto_cipher_type: cipher.to_string(),
        crypto_hash_type: hash.to_string(),
        private_key: vec![0x5A; key_len],
    }
}

#[test]
fn crypto_record_exact_layout() {
    let cfg = crypto_cfg("openssl", "aes256", "sha256", 2048);
    let rec = crypto_config_to_native(&cfg).unwrap();
    assert_eq!(rec.crypto_model.len(), MODEL_BUF_LEN);
    assert_eq!(&rec.crypto_model[..7], b"openssl");
    assert_eq!(&rec.crypto_model[7..], &[0u8; 9]);
    assert_eq!(&rec.crypto_cipher_type[..6], b"aes256");
    assert_eq!(&rec.crypto_cipher_type[6..], &[0u8; 10]);
    assert_eq!(&rec.crypto_hash_type[..6], b"sha256");
    assert_eq!(rec.private_key.len(), KEY_BUF_LEN);
    assert_eq!(&rec.private_key[..2048], &vec![0x5Au8; 2048][..]);
    assert!(rec.private_key[2048..].iter().all(|b| *b == 0));
    assert_eq!(rec.private_key_len, 2048);
}

#[test]
fn crypto_record_rejects_oversized_model() {
    let cfg = crypto_cfg("a-model-name-that-is-too-long", "aes256", "sha256", 64);
    assert!(matches!(crypto_config_to_native(&cfg), Err(ErrorKind::TooLong)));
}

#[test]
fn crypto_record_rejects_embedded_terminator() {
    let cfg = crypto_cfg("open\0ssl", "aes256", "sha256", 64);
    assert!(matches!(crypto_config_to_native(&cfg), Err(ErrorKind::InvalidInput)));
}

#[test]
fn crypto_record_rejects_oversized_key() {
    let cfg = crypto_cfg("openssl", "aes256", "sha256", KEY_BUF_LEN + 1);
    assert!(matches!(crypto_config_to_native(&cfg), Err(ErrorKind::TooLong)));
}

#[test]
fn compress_record_layout_and_errors() {
    let cfg = CompressConfig {
        compress_model: "zlib".to_string(),
        compress_threshold: 100,
        compress_level: 5,
    };
    let rec = compress_config_to_native(&cfg).unwrap();
    assert_eq!(&rec.compress_model[..4], b"zlib");
    assert_eq!(&rec.compress_model[4..], &[0u8; 12]);
    assert_eq!(rec.compress_threshold, 100);
    assert_eq!(rec.compress_level, 5);

    let bad = CompressConfig {
        compress_model: "a-compressor-name-too-long".to_string(),
        compress_threshold: 0,
        compress_level: 0,
    };
    assert!(matches!(compress_config_to_native(&bad), Err(ErrorKind::TooLong)));
}

#[test]
fn link_config_decodes_static_and_dynamic() {
    let local = Endpoint { ip: IpAddress::V4(0x7F00_0001), port: 8001 };
    let remote = Endpoint { ip: IpAddress::V4(0x7F00_0001), port: 8002 };
    let cfg = link_config_from_native(1, local, remote, 0, 0).unwrap();
    assert_eq!(cfg.transport, TransportId::Udp);
    assert_eq!(cfg.local, local);
    assert_eq!(cfg.remote, Some(remote));
    assert_eq!(cfg.flags.bits(), 0);

    // A dynamic link has no remote endpoint, not a sentinel address.
    let dynamic = link_config_from_native(2, local, remote, 1, 7).unwrap();
    assert_eq!(dynamic.transport, TransportId::Sctp);
    assert_eq!(dynamic.remote, None);
    assert_eq!(dynamic.flags.bits(), 7);
}

#[test]
fn link_config_rejects_unknown_transport() {
    let ep = Endpoint { ip: IpAddress::V4(0), port: 0 };
    assert!(matches!(
        link_config_from_native(9, ep, ep, 0, 0),
        Err(ErrorKind::UnknownVariant)
    ));
}

#[test]
fn name_list_decodes_in_order_and_clamps_count() {
    let buffers = vec![
        b"nss\0\0\0\0\0".to_vec(),
        b"openssl\0".to_vec(),
        b"none\0\0\0\0".to_vec(),
    ];
    let names = decode_name_list(&buffers, 3).unwrap();
    assert_eq!(names, vec!["nss", "openssl", "none"]);
    // The native-reported count is clamped to the buffers present.
    let clamped = decode_name_list(&buffers, 10).unwrap();
    assert_eq!(clamped.len(), 3);
    // A shorter count takes a prefix.
    let prefix = decode_name_list(&buffers, 2).unwrap();
    assert_eq!(prefix, vec!["nss", "openssl"]);
}

#[test]
fn name_list_rejects_invalid_text() {
    let buffers = vec![b"good\0\0".to_vec(), vec![0xFF, 0xFE, 0]];
    assert_eq!(decode_name_list(&buffers, 2), Err(ErrorKind::EncodingError));
}
