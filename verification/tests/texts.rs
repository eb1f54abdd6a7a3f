use titan_wipe::error::TitanError;
use titan_wipe::layout::{clip, clip_fits, pad};
use titan_wipe::numerals::{
    ascii_digit, decimal_text, hex_literal_text, parse_u32, signed_decimal_text, upper_text,
};
use titan_wipe::text::{
    file_name, first_two_words, join, same_text, starts_with, trim, white_space,
};

#[test]
fn white_space_is_unicode_white_space() {
    for code in 0..=0x10FFFFu32 {
        if let Some(c) = char::from_u32(code) {
            assert_eq!(white_space(c), c.is_whitespace(), "{:x}", code);
            assert_eq!(ascii_digit(c), c.is_ascii_digit(), "{:x}", code);
        }
    }
}

#[test]
fn trimming() {
    for s in ["", " ", "a", "  a b \n", "\u{a0}x\u{3000}", "\tWIPE-1\r\n", "no", "\u{2028}"] {
        assert_eq!(trim(s), s.trim());
    }
}

#[test]
fn words_of_a_line() {
    for s in ["", "a", " a ", "a b", "/dev/sda1 / ext4 rw 0 0", "\t x\u{3000}y z"] {
        let mut words = s.split_whitespace();
        let expected = match (words.next(), words.next()) {
            (Some(a), Some(b)) => Some((a.to_string(), b.to_string())),
            _ => None,
        };
        assert_eq!(first_two_words(s), expected);
    }
}

#[test]
fn beginnings() {
    let texts = ["", "a", "ab", "aab", "/dev/sda1", "sda", "sdb", "äöü", "öü"];
    for s in texts {
        for t in texts {
            assert_eq!(starts_with(s, t), s.starts_with(t));
            assert_eq!(same_text(s, t), s == t);
        }
    }
}

#[test]
fn file_names_are_those_of_std() {
    for s in [
        "/dev/sda", "sda", "/dev/mapper/x", "/", "", "/dev/sda/", "/dev//sda", "..", "/dev/..", ".", "/dev/.",
        "a/./", "/dev/sda/..", "./a", "a//", "/..",
    ] {
        let expected = std::path::Path::new(s)
            .file_name()
            .map(|n| n.to_string_lossy().to_string())
            .unwrap_or_default();
        assert_eq!(file_name(s), expected, "{:?}", s);
    }
}

#[test]
fn numbers_are_read_as_std_reads_them() {
    for s in [
        "", "0", "1", "+1", "-1", "512", "4294967295", "4294967296", "00000000001", "+", "1 ", "1a",
        "99999999999999999999", "-0", "+0",
    ] {
        assert_eq!(parse_u32(s), s.parse::<u32>().ok(), "{:?}", s);
    }
}

#[test]
fn numbers_are_written_as_std_writes_them() {
    for n in [0u64, 7, 10, 99, 1000204886016, u64::MAX] {
        assert_eq!(decimal_text(n), n.to_string());
    }
    for n in [0i32, -1, 25, i32::MAX, i32::MIN] {
        assert_eq!(signed_decimal_text(n), n.to_string());
    }
    for b in 0..=255u8 {
        assert_eq!(hex_literal_text(b), format!("0x{:02X}", b));
    }
}

#[test]
fn upper_case_of_a_uuid() {
    let s = "a3f7b2c1-0000-4fff-8abc-0123456789de";
    assert_eq!(upper_text(s), s.to_uppercase());
}

#[test]
fn joining() {
    assert_eq!(join(&vec![], ", "), "");
    assert_eq!(join(&vec!["a".to_string()], ", "), "a");
    assert_eq!(join(&vec!["a".to_string(), "".to_string(), "c".to_string()], ", "), "a, , c");
}

#[test]
fn clipping_counts_bytes() {
    assert_eq!(clip("S5YYNGF012345X", 8), "S5YYNGF0");
    assert_eq!(clip("short", 8), "short");
    assert_eq!(clip("aé", 3), "aé");
    assert!(clip_fits("aéb", 1));
    assert!(!clip_fits("aéb", 2));
    assert!(clip_fits("aéb", 3));
    assert_eq!(clip("aéb", 3), "aé");
}

#[test]
fn padding_counts_characters() {
    for s in ["", "x", "äöü", "0123456789", "0123456789ab"] {
        assert_eq!(pad(s, 10), format!("{:<10}", s));
    }
}

#[test]
fn error_messages() {
    let s = |t: &str| t.to_string();
    let cases = vec![
        (TitanError::Io(s("gone")), "I/O error: gone"),
        (
            TitanError::BootDriveProtection(s("/dev/sda")),
            "FATAL GUARDRAIL: Target '/dev/sda' is the active boot/OS drive. Operation aborted.",
        ),
        (
            TitanError::DeviceMounted(s("/dev/sdb"), s("/dev/sdb1 → /mnt")),
            "FATAL GUARDRAIL: Target '/dev/sdb' has active mounted partitions: /dev/sdb1 → /mnt. Unmount before proceeding.",
        ),
        (TitanError::NotABlockDevice(s("/etc")), "Target '/etc' is not a block device."),
        (
            TitanError::DeviceNotFound(s("/dev/x")),
            "Target device '/dev/x' not found or inaccessible.",
        ),
        (
            TitanError::InsufficientPrivileges,
            "Insufficient privileges. This utility requires root/administrator access.",
        ),
        (
            TitanError::IoctlFailed { code: -1, message: s("BLKGETSIZE64 failed") },
            "Kernel IOCTL error (code -1): BLKGETSIZE64 failed",
        ),
        (TitanError::InspectionFailed(s("why")), "Device inspection failed: why"),
        (TitanError::UserAborted, "Sanitization aborted by user."),
        (
            TitanError::VerificationFailed(s("00ff")),
            "Verification failed: post-wipe read returned unexpected data. Hash: 00ff",
        ),
        (TitanError::Serialization(s("bad")), "Serialization error: bad"),
    ];
    for (error, text) in cases {
        assert_eq!(error.message(), text);
    }
}
