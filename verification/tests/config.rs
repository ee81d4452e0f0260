use php_guard::commands::{parse_php_bytes, parse_rust_bytes, verify};
use php_guard::config::{
    deserialize, format_bytes_php, format_bytes_rust, serialize, GuardConfig,
};
use php_guard::error::GuardError;

fn sample() -> GuardConfig {
    GuardConfig {
        header: vec![0x66, 0x88, 0xff, 0x4f, 0x68],
        key: vec![0x9f, 0x49, 0x52, 0x00, 0x58, 0x9f, 0xff, 0x23, 0x0a],
    }
}

fn strings(items: &[&str]) -> Vec<String> {
    items.iter().map(|s| s.to_string()).collect()
}

#[test]
fn rows_hold_four_bytes_each() {
    assert_eq!(
        format_bytes_rust(&[1, 2, 3, 4, 5]),
        "    0x01, 0x02, 0x03, 0x04,\n    0x05,"
    );
    assert_eq!(
        format_bytes_php(&[0xab, 0xcd, 0xef, 0x10, 0x00, 0xff, 0x7f, 0x80]),
        "    0xab, 0xcd, 0xef, 0x10,\n    0x00, 0xff, 0x7f, 0x80,"
    );
}

#[test]
fn rows_of_short_inputs() {
    assert_eq!(format_bytes_rust(&[]), "    ");
    assert_eq!(format_bytes_rust(&[0x0a]), "    0x0a,");
    assert_eq!(format_bytes_php(&[1, 2, 3, 4]), "    0x01, 0x02, 0x03, 0x04,");
}

#[test]
fn the_two_syntaxes_write_the_same_rows() {
    let bytes: Vec<u8> = (0..=255u8).collect();
    assert_eq!(format_bytes_rust(&bytes), format_bytes_php(&bytes));
}

#[test]
fn rust_export_text() {
    let config = GuardConfig {
        header: vec![0x01, 0x02],
        key: vec![0x10, 0x20, 0x30, 0x40, 0x50],
    };
    assert_eq!(
        config.to_rust_code(),
        "pub const HEADER: &[u8] = &[\n    0x01, 0x02,];\n\npub const KEY: &[u8] = &[\n    0x10, 0x20, 0x30, 0x40,\n    0x50,];\n"
    );
}

#[test]
fn php_export_text() {
    let config = GuardConfig {
        header: vec![0x01, 0x02],
        key: vec![0x10, 0x20, 0x30, 0x40, 0x50],
    };
    assert_eq!(
        config.to_php_code(),
        "const HEADER = [\n    0x01, 0x02,];\n\nconst KEY = [\n    0x10, 0x20, 0x30, 0x40,\n    0x50,];\n"
    );
}

#[test]
fn exports_read_back_as_the_material() {
    let config = sample();
    let rust = config.to_rust_code();
    let php = config.to_php_code();
    assert_eq!(parse_rust_bytes(&rust, "HEADER"), Ok(config.header.clone()));
    assert_eq!(parse_rust_bytes(&rust, "KEY"), Ok(config.key.clone()));
    assert_eq!(parse_php_bytes(&php, "HEADER"), Ok(config.header.clone()));
    assert_eq!(parse_php_bytes(&php, "KEY"), Ok(config.key.clone()));
}

#[test]
fn exports_of_empty_material_read_back_empty() {
    let config = GuardConfig {
        header: vec![],
        key: vec![],
    };
    assert_eq!(parse_rust_bytes(&config.to_rust_code(), "HEADER"), Ok(vec![]));
    assert_eq!(parse_php_bytes(&config.to_php_code(), "KEY"), Ok(vec![]));
}

#[test]
fn generated_material_exports_consistently() {
    let config = GuardConfig::generate(12, 16);
    assert_eq!(config.header.len(), 12);
    assert_eq!(config.key.len(), 16);
    assert!(config.is_usable());
    let report = verify(&config.to_rust_code(), &config.to_php_code()).unwrap();
    assert!(report.passed());
    assert!(report.header.consistent);
    assert!(report.key.consistent);
    assert_eq!(report.header.rust_len, 12);
    assert_eq!(report.key.php_len, 16);
}

#[test]
fn generate_honours_the_lengths() {
    let config = GuardConfig::generate(0, 3);
    assert!(config.header.is_empty());
    assert_eq!(config.key.len(), 3);
    let config = GuardConfig::generate(5, 0);
    assert_eq!(config.header.len(), 5);
    assert!(!config.is_usable());
}

#[test]
fn generate_draws_fresh_bytes() {
    let a = GuardConfig::generate(32, 32);
    let b = GuardConfig::generate(32, 32);
    assert_ne!(a.key, b.key);
    assert_ne!(a.header, a.key);
}

#[test]
fn tokens_are_lower_case_hex() {
    assert_eq!(
        serialize(&vec![0x00, 0x0a, 0xff, 0x7B]),
        strings(&["0x00", "0x0a", "0xff", "0x7b"])
    );
    assert_eq!(serialize(&vec![]), Vec::<String>::new());
}

#[test]
fn tokens_read_back() {
    assert_eq!(
        deserialize(&strings(&["0x00", "0X0A", "ff", "7", "+1f", "0x+Ab"])),
        Ok(vec![0x00, 0x0a, 0xff, 0x07, 0x1f, 0xab])
    );
    assert_eq!(deserialize(&vec![]), Ok(vec![]));
    let all: Vec<u8> = (0..=255u8).collect();
    assert_eq!(deserialize(&serialize(&all)), Ok(all));
}

#[test]
fn bad_tokens_are_refused() {
    for bad in [
        "", "0x", "zz", "0xg0", "0x100", "0X0xff", "0x0xAb", "0x0X1f", " 0x01", "0x01 ", "-1", "+",
        "0x-1",
    ] {
        assert_eq!(
            deserialize(&strings(&["0x01", bad])),
            Err(GuardError::ConfigMalformed),
            "token {:?}",
            bad
        );
    }
}

#[test]
fn from_tokens_needs_a_key() {
    let config =
        GuardConfig::from_tokens(&strings(&["0x01", "0x02"]), &strings(&["0x10"])).unwrap();
    assert_eq!(config.header, vec![1, 2]);
    assert_eq!(config.key, vec![0x10]);
    assert!(GuardConfig::from_tokens(&strings(&[]), &strings(&["0x10"])).is_ok());
    assert_eq!(
        GuardConfig::from_tokens(&strings(&["0x01"]), &strings(&[])).err(),
        Some(GuardError::ConfigMalformed)
    );
    assert_eq!(
        GuardConfig::from_tokens(&strings(&["0x1g"]), &strings(&["0x10"])).err(),
        Some(GuardError::ConfigMalformed)
    );
}

#[test]
fn record_text() {
    let config = GuardConfig {
        header: vec![0x01, 0xab],
        key: vec![0x10],
    };
    assert_eq!(
        config.save().unwrap(),
        "[guard]\nheader = [\n    \"0x01\",\n    \"0xab\",\n]\nkey = [\"0x10\"]\n"
    );
}

#[test]
fn record_round_trip() {
    let config = sample();
    let text = config.save().unwrap();
    let back = GuardConfig::load(&text).unwrap();
    assert_eq!(back.header, config.header);
    assert_eq!(back.key, config.key);
}

#[test]
fn load_reads_a_hand_written_record() {
    let text = "# deployment secrets\n[guard]\nkey = [\"0x10\", \"0X20\", \"30\"]\nheader = [\"0x01\", \"0x02\"]\nnote = \"kept\"\n\n[other]\nx = 1\n";
    let config = GuardConfig::load(text).unwrap();
    assert_eq!(config.header, vec![0x01, 0x02]);
    assert_eq!(config.key, vec![0x10, 0x20, 0x30]);
}

#[test]
fn load_refuses_malformed_records() {
    let cases = [
        "",
        "not a document at all [",
        "[other]\nheader = [\"0x01\"]\nkey = [\"0x02\"]\n",
        "[guard]\nheader = [\"0x01\"]\n",
        "[guard]\nkey = [\"0x01\"]\n",
        "[guard]\nheader = [\"0x01\"]\nkey = [\"0xzz\"]\n",
        "[guard]\nheader = [\"0x01\"]\nkey = []\n",
        "[guard]\nheader = [1, 2]\nkey = [\"0x02\"]\n",
        "[guard]\nheader = \"0x01\"\nkey = [\"0x02\"]\n",
        "guard = 3\n",
    ];
    for text in cases {
        assert_eq!(
            GuardConfig::load(text).err(),
            Some(GuardError::ConfigMalformed),
            "record {:?}",
            text
        );
    }
}
