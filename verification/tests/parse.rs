use fstab::{parse_device, parse_line, parse_lines, Device, ErrorType};

fn lines(raw: &[&str]) -> Vec<String> {
    raw.iter().map(|l| l.to_string()).collect()
}

#[test]
fn six_token_line_round_trips_the_string_fields() {
    let entry = parse_line("UUID=1234-ABCD /mnt/data ext4 defaults,noatime 1 2").unwrap();
    match entry.device {
        Device::Uuid(p) => assert_eq!(p, "1234-ABCD"),
        _ => panic!("expected a Uuid device"),
    }
    assert_eq!(entry.dir, "/mnt/data");
    assert_eq!(entry.device_type, "ext4");
    assert_eq!(entry.options, vec!["defaults".to_string(), "noatime".to_string()]);
    assert!(entry.dump);
    assert_eq!(entry.fsck, 2);
}

#[test]
fn four_token_line_defaults_dump_and_fsck() {
    let entry = parse_line("/dev/sda1 / ext4 defaults").unwrap();
    match entry.device {
        Device::MountPoint(p) => assert_eq!(p, "/dev/sda1"),
        _ => panic!("expected a MountPoint device"),
    }
    assert!(!entry.dump);
    assert_eq!(entry.fsck, 0);
}

#[test]
fn dump_zero_is_false_and_nonzero_is_true() {
    let entry = parse_line("/dev/sda1 / ext4 defaults 0").unwrap();
    assert!(!entry.dump);
    assert_eq!(entry.fsck, 0);
    let entry = parse_line("/dev/sda1 / ext4 defaults 7").unwrap();
    assert!(entry.dump);
    let entry = parse_line("/dev/sda1 / ext4 defaults +3").unwrap();
    assert!(entry.dump);
}

#[test]
fn seven_token_line_fails_with_the_trimmed_line_as_payload() {
    let input = lines(&["  /dev/sda1 / ext4 defaults 1 2 extra  "]);
    let err = parse_lines(&input).unwrap_err();
    match err.reason {
        ErrorType::TooManyFields(l) => assert_eq!(l, "/dev/sda1 / ext4 defaults 1 2 extra"),
        other => panic!("expected TooManyFields, got {:?}", other),
    }
}

#[test]
fn short_lines_fail_at_the_first_missing_field() {
    for (text, want) in [("", 0usize), ("a", 1), ("a b", 2), ("a b c", 3)] {
        let err = parse_line(text).unwrap_err();
        match err.reason {
            ErrorType::FieldNotExist(i) => assert_eq!(i, want),
            other => panic!("expected FieldNotExist, got {:?}", other),
        }
    }
}

#[test]
fn comments_and_blank_lines_are_skipped() {
    let input = lines(&[
        "# this is a comment",
        "",
        "   \t  ",
        "UUID=F1C1-3AC0 /boot vfat defaults 0 2",
        "   # indented comment",
    ]);
    let table = parse_lines(&input).unwrap();
    assert_eq!(table.len(), 1);
    assert_eq!(table[0].dir, "/boot");
}

#[test]
fn device_classification_by_prefix() {
    match parse_device("UUID=1234-ABCD") {
        Device::Uuid(p) => assert_eq!(p, "1234-ABCD"),
        other => panic!("expected Uuid, got {:?}", other),
    }
    match parse_device("LABEL=MyDisk") {
        Device::Label(p) => assert_eq!(p, "MyDisk"),
        other => panic!("expected Label, got {:?}", other),
    }
    match parse_device("/dev/sda1") {
        Device::MountPoint(p) => assert_eq!(p, "/dev/sda1"),
        other => panic!("expected MountPoint, got {:?}", other),
    }
}

#[test]
fn part_prefixes_keep_their_short_strip_behaviour() {
    match parse_device("PARTUUID=abcd") {
        Device::PartUuid(p) => assert_eq!(p, "UID=abcd"),
        other => panic!("expected PartUuid, got {:?}", other),
    }
    match parse_device("PARTLABEL=root") {
        Device::PartLabel(p) => assert_eq!(p, "BEL=root"),
        other => panic!("expected PartLabel, got {:?}", other),
    }
}

#[test]
fn well_formed_file_yields_one_entry_per_data_line_in_order() {
    let input = lines(&[
        "# /etc/fstab",
        "UUID=F1C1-3AC0 /boot vfat defaults 0 2",
        "",
        "LABEL=root / ext4 rw,relatime 0 1",
        "tmpfs /tmp tmpfs nosuid,nodev",
    ]);
    let table = parse_lines(&input).unwrap();
    assert_eq!(table.len(), 3);
    assert_eq!(table[0].dir, "/boot");
    assert_eq!(table[1].dir, "/");
    assert_eq!(table[2].dir, "/tmp");
    assert_eq!(table[2].options, vec!["nosuid".to_string(), "nodev".to_string()]);
}

#[test]
fn empty_input_gives_an_empty_table() {
    let table = parse_lines(&lines(&[])).unwrap();
    assert!(table.is_empty());
}

#[test]
fn options_split_on_every_comma_and_keep_empty_entries() {
    let entry = parse_line("/dev/sda1 / ext4 defaults,noatime").unwrap();
    assert_eq!(entry.options, vec!["defaults".to_string(), "noatime".to_string()]);
    let entry = parse_line("/dev/sda1 / ext4 a,,b,").unwrap();
    assert_eq!(
        entry.options,
        vec!["a".to_string(), "".to_string(), "b".to_string(), "".to_string()]
    );
    let entry = parse_line("/dev/sda1 / ext4 defaults").unwrap();
    assert_eq!(entry.options, vec!["defaults".to_string()]);
}

#[test]
fn malformed_numerals_fail_with_num_parse_error() {
    let err = parse_line("/dev/sda1 / ext4 defaults often").unwrap_err();
    match err.reason {
        ErrorType::NumParseError(m) => assert_eq!(m, "invalid digit found in string"),
        other => panic!("expected NumParseError, got {:?}", other),
    }
    let err = parse_line("/dev/sda1 / ext4 defaults 0 99999999999999999999999").unwrap_err();
    match err.reason {
        ErrorType::NumParseError(m) => assert_eq!(m, "number too large to fit in target type"),
        other => panic!("expected NumParseError, got {:?}", other),
    }
    let err = parse_line("/dev/sda1 / ext4 defaults 1 2x").unwrap_err();
    match err.reason {
        ErrorType::NumParseError(m) => assert_eq!(m, "invalid digit found in string"),
        other => panic!("expected NumParseError, got {:?}", other),
    }
}

#[test]
fn numeral_errors_come_before_the_field_count_check() {
    let err = parse_line("a b c d x 1 extra extra2").unwrap_err();
    match err.reason {
        ErrorType::NumParseError(_) => {},
        other => panic!("expected NumParseError, got {:?}", other),
    }
}

#[test]
fn first_invalid_line_aborts_the_parse() {
    let input = lines(&[
        "UUID=F1C1-3AC0 /boot vfat defaults 0 2",
        "bad line",
        "LABEL=root / ext4 rw 0 1",
    ]);
    let err = parse_lines(&input).unwrap_err();
    match err.reason {
        ErrorType::FieldNotExist(i) => assert_eq!(i, 2),
        other => panic!("expected FieldNotExist, got {:?}", other),
    }
}

#[test]
fn error_descriptions_by_kind() {
    let err = fstab::Error {
        reason: ErrorType::FstabNotExist("no such file".to_string()),
    };
    assert_eq!(err.description(), "can not open fstab");
    let err = parse_line("a b").unwrap_err();
    assert_eq!(err.description(), "unkonwn error");
}

#[test]
fn whitespace_runs_collapse_between_tokens() {
    let entry = parse_line("/dev/sda1\t\t/home   ext4  defaults").unwrap();
    assert_eq!(entry.dir, "/home");
    assert_eq!(entry.device_type, "ext4");
}
