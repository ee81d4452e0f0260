use php_guard::commands::{
    check_single_file, encrypt_content_with_config, encrypt_single_file, find,
    format_bytes_preview, parse_hex_bytes, parse_php_bytes, parse_rust_bytes, verify, BatchTally,
};
use php_guard::config::GuardConfig;
use php_guard::error::{ExportError, Field, GuardError, ReadFailure, Syntax};
use php_guard::file_handler::read_and_decrypt_file;

fn config() -> GuardConfig {
    GuardConfig {
        header: vec![0x01, 0x02],
        key: vec![0x10, 0x20, 0x30],
    }
}

fn chars(s: &str) -> Vec<char> {
    s.chars().collect()
}

#[test]
fn find_gives_the_first_match() {
    let hay = chars("abcabcabc");
    assert_eq!(find(&hay, &chars("bc"), 0), Some(1));
    assert_eq!(find(&hay, &chars("bc"), 2), Some(4));
    assert_eq!(find(&hay, &chars("bc"), 8), None);
    assert_eq!(find(&hay, &chars("abcabcabc"), 0), Some(0));
    assert_eq!(find(&hay, &chars("abcabcabcd"), 0), None);
    assert_eq!(find(&hay, &chars("x"), 0), None);
    assert_eq!(find(&hay, &chars(""), 0), Some(0));
    assert_eq!(find(&hay, &chars(""), 9), Some(9));
    assert_eq!(find(&hay, &chars(""), 10), None);
    assert_eq!(find(&chars(""), &chars("a"), 0), None);
}

#[test]
fn hex_list_reads_tokens() {
    assert_eq!(
        parse_hex_bytes("0x01, 0xAB,\n    0Xff , 0x7"),
        Ok(vec![0x01, 0xab, 0xff, 0x07])
    );
    assert_eq!(parse_hex_bytes(""), Ok(vec![]));
    assert_eq!(parse_hex_bytes(",,,"), Ok(vec![]));
    assert_eq!(parse_hex_bytes("   \n "), Ok(vec![]));
}

#[test]
fn hex_list_passes_over_what_is_no_literal() {
    assert_eq!(
        parse_hex_bytes("12, 0x, ff, // note, 0x10, x20, 0X"),
        Ok(vec![0x10])
    );
}

#[test]
fn hex_list_passes_over_a_malformed_literal() {
    assert_eq!(parse_hex_bytes("0x01, 0xZZ, 0x02"), Ok(vec![0x01, 0x02]));
    assert_eq!(parse_hex_bytes("0x01, 0xzz"), Ok(vec![0x01]));
    assert_eq!(parse_hex_bytes("0x100"), Ok(vec![]));
    assert_eq!(parse_hex_bytes("0x0 1, 0x7f"), Ok(vec![0x7f]));
    assert_eq!(parse_hex_bytes("0x-1"), Ok(vec![]));
    assert_eq!(parse_hex_bytes("0x1g, 0x, 0x+, 0xff"), Ok(vec![0xff]));
}

#[test]
fn hex_list_takes_what_radix_16_takes() {
    assert_eq!(parse_hex_bytes("0x+f, 0x000ff, 0xA"), Ok(vec![0x0f, 0xff, 0x0a]));
}

#[test]
fn hex_list_trims_unicode_white_space() {
    assert_eq!(
        parse_hex_bytes("\u{a0}0x01\u{2003},\t0x02\r\n,\u{3000}0x03"),
        Ok(vec![1, 2, 3])
    );
}

#[test]
fn rust_declaration_is_read() {
    let text = "// generated\npub const HEADER: &[u8] = &[\n    0x01, 0x02,\n];\n\npub const KEY: &[u8] = &[0x10];\n";
    assert_eq!(parse_rust_bytes(text, "HEADER"), Ok(vec![1, 2]));
    assert_eq!(parse_rust_bytes(text, "KEY"), Ok(vec![0x10]));
}

#[test]
fn php_declaration_is_read() {
    let text = "<?php\nconst HEADER = [\n    0x01, 0x02,\n];\nconst KEY = [0x10, 0x20];\n";
    assert_eq!(parse_php_bytes(text, "HEADER"), Ok(vec![1, 2]));
    assert_eq!(parse_php_bytes(text, "KEY"), Ok(vec![0x10, 0x20]));
}

#[test]
fn missing_declaration() {
    assert_eq!(
        parse_rust_bytes("pub const KEY: &[u8] = &[0x01];", "HEADER"),
        Err(ExportError::DefinitionNotFound)
    );
    assert_eq!(
        parse_php_bytes("", "KEY"),
        Err(ExportError::DefinitionNotFound)
    );
    assert_eq!(
        parse_php_bytes("const key = [0x01];", "KEY"),
        Err(ExportError::DefinitionNotFound)
    );
}

#[test]
fn unterminated_declaration() {
    assert_eq!(
        parse_rust_bytes("pub const KEY: &[u8] = &[0x01, 0x02]", "KEY"),
        Err(ExportError::Unterminated)
    );
    assert_eq!(
        parse_php_bytes("const KEY = [0x01, 0x02", "KEY"),
        Err(ExportError::Unterminated)
    );
}

#[test]
fn closing_inside_the_opening_is_unterminated() {
    assert_eq!(
        parse_php_bytes("const a];b = [0x01];", "a];b"),
        Err(ExportError::Unterminated)
    );
}

#[test]
fn malformed_literal_in_a_declaration_is_passed_over() {
    assert_eq!(
        parse_php_bytes("const KEY = [0x01, 0xq2, 0x03];", "KEY"),
        Ok(vec![0x01, 0x03])
    );
    assert_eq!(
        parse_rust_bytes("pub const KEY: &[u8] = &[0xZZ];", "KEY"),
        Ok(vec![])
    );
}

#[test]
fn non_ascii_text_around_a_declaration() {
    let text = "// 密钥 ✓\nconst KEY = [0x01,\u{a0}0x02];";
    assert_eq!(parse_php_bytes(text, "KEY"), Ok(vec![1, 2]));
}

#[test]
fn preview_shows_eight_bytes_at_most() {
    assert_eq!(format_bytes_preview(&[]), "");
    assert_eq!(format_bytes_preview(&[0xab]), "0xAB");
    assert_eq!(format_bytes_preview(&[0x01, 0xfe]), "0x01, 0xFE");
    let long: Vec<u8> = (0x0a..0x20).collect();
    assert_eq!(
        format_bytes_preview(&long),
        "0x0A, 0x0B, 0x0C, 0x0D, 0x0E, 0x0F, 0x10, 0x11"
    );
}

#[test]
fn verify_reports_agreement() {
    let c = config();
    let report = verify(&c.to_rust_code(), &c.to_php_code()).unwrap();
    assert!(report.passed());
    assert_eq!(report.header.rust_len, 2);
    assert_eq!(report.header.php_len, 2);
    assert_eq!(report.header.rust_preview, "0x01, 0x02");
    assert_eq!(report.key.php_preview, "0x10, 0x20, 0x30");
}

#[test]
fn verify_names_the_edited_key() {
    let c = config();
    let rust = c.to_rust_code();
    let php = c.to_php_code().replace("0x20", "0x21");
    let report = verify(&rust, &php).unwrap();
    assert!(!report.passed());
    assert!(report.header.consistent);
    assert!(!report.key.consistent);
    assert_eq!(report.key.rust_preview, "0x10, 0x20, 0x30");
    assert_eq!(report.key.php_preview, "0x10, 0x21, 0x30");
}

#[test]
fn verify_names_the_edited_header() {
    let c = config();
    let rust = c.to_rust_code().replace("0x01", "0x81");
    let php = c.to_php_code();
    let report = verify(&rust, &php).unwrap();
    assert!(!report.passed());
    assert!(!report.header.consistent);
    assert!(report.key.consistent);
}

#[test]
fn verify_sees_a_difference_in_length() {
    let c = config();
    let mut longer = config();
    longer.key.push(0x40);
    let report = verify(&c.to_rust_code(), &longer.to_php_code()).unwrap();
    assert!(!report.key.consistent);
    assert_eq!(report.key.rust_len, 3);
    assert_eq!(report.key.php_len, 4);
}

#[test]
fn verify_fails_on_the_first_unreadable_field() {
    let c = config();
    assert_eq!(
        verify("", &c.to_php_code()).err(),
        Some(ReadFailure {
            syntax: Syntax::Rust,
            field: Field::Header,
            cause: ExportError::DefinitionNotFound
        })
    );
    assert_eq!(
        verify("pub const HEADER: &[u8] = &[0x01];", &c.to_php_code()).err(),
        Some(ReadFailure {
            syntax: Syntax::Rust,
            field: Field::Key,
            cause: ExportError::DefinitionNotFound
        })
    );
    assert_eq!(
        verify(&c.to_rust_code(), "const KEY = [0x01, 0x02];").err(),
        Some(ReadFailure {
            syntax: Syntax::Php,
            field: Field::Header,
            cause: ExportError::DefinitionNotFound
        })
    );
    assert_eq!(
        verify(&c.to_rust_code(), "const HEADER = [0x01, 0x02];\nconst KEY = [0x1").err(),
        Some(ReadFailure {
            syntax: Syntax::Php,
            field: Field::Key,
            cause: ExportError::Unterminated
        })
    );
    assert_eq!(
        verify(
            "pub const HEADER: &[u8] = &[0xxx];\npub const KEY: &[u8] = &[",
            ""
        )
        .err(),
        Some(ReadFailure {
            syntax: Syntax::Rust,
            field: Field::Key,
            cause: ExportError::Unterminated
        })
    );
}

#[test]
fn verify_reports_a_malformed_byte_as_a_mismatch() {
    let c = config();
    let rust = c.to_rust_code();
    let php = c.to_php_code().replace("0x20", "0xZZ");
    let report = verify(&rust, &php).unwrap();
    assert!(report.header.consistent);
    assert!(!report.key.consistent);
    assert_eq!(report.key.rust_len, 3);
    assert_eq!(report.key.php_len, 2);
    assert_eq!(report.key.php_preview, "0x10, 0x30");
    assert_eq!(
        report.outcome(),
        Err(GuardError::ConsistencyMismatch(Field::Key))
    );
}

#[test]
fn outcome_names_the_first_diverging_field() {
    let c = config();
    let same = verify(&c.to_rust_code(), &c.to_php_code()).unwrap();
    assert_eq!(same.outcome(), Ok(()));

    let other = GuardConfig {
        header: vec![0x01, 0x03],
        key: vec![0x10, 0x20, 0x31],
    };
    let both = verify(&c.to_rust_code(), &other.to_php_code()).unwrap();
    assert_eq!(
        both.outcome(),
        Err(GuardError::ConsistencyMismatch(Field::Header))
    );

    let key_only = GuardConfig {
        header: c.header.clone(),
        key: vec![0x10],
    };
    let report = verify(&c.to_rust_code(), &key_only.to_php_code()).unwrap();
    assert_eq!(
        report.outcome(),
        Err(GuardError::ConsistencyMismatch(Field::Key))
    );
}

#[test]
fn packaging_with_a_config() {
    let c = config();
    let out = encrypt_content_with_config(&[0xAA, 0xBB, 0xCC, 0xDD], &c);
    assert_eq!(out, vec![0x01, 0x02, 0xAA, 0x74, 0xCC, 0x12]);
    // A tagged payload is packaged all the same.
    let again = encrypt_content_with_config(&out, &c);
    assert_eq!(again.len(), out.len() + 2);
    assert_eq!(read_and_decrypt_file(&again, &c.header, &c.key), Ok(out));
}

#[test]
fn a_batch_skips_tagged_files() {
    let c = config();
    assert_eq!(encrypt_single_file(&[0x01, 0x02, 0x03], &c), None);
    assert_eq!(
        encrypt_single_file(&[0xAA, 0xBB, 0xCC, 0xDD], &c),
        Some(vec![0x01, 0x02, 0xAA, 0x74, 0xCC, 0x12])
    );
    assert_eq!(encrypt_single_file(&[], &c), Some(vec![0x01, 0x02]));
}

#[test]
fn a_batch_probes_files() {
    let c = config();
    assert!(check_single_file(&[0x01, 0x02, 0x03], &c));
    assert!(!check_single_file(&[0x01], &c));
    assert!(!check_single_file(b"<?php", &c));
}

#[test]
fn tally_counts() {
    let mut tally = BatchTally::new();
    assert_eq!(tally, BatchTally { seen: 0, tagged: 0 });
    tally.record(true);
    tally.record(false);
    tally.record(false);
    assert_eq!(tally, BatchTally { seen: 3, tagged: 1 });
    assert_eq!(tally.untagged(), 2);
}

#[test]
fn tally_holds_at_the_top() {
    let mut tally = BatchTally {
        seen: u64::MAX,
        tagged: u64::MAX - 1,
    };
    tally.record(true);
    assert_eq!(tally, BatchTally { seen: u64::MAX, tagged: u64::MAX });
    tally.record(true);
    assert_eq!(tally, BatchTally { seen: u64::MAX, tagged: u64::MAX });
    assert_eq!(tally.untagged(), 0);
}
