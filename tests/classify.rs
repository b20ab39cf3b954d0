use folder_to_ai::classify::{
    binary_by_extension, class_of_extension, extension_of, file_is_binary,
    matches_binary_signature, probed_is_binary, sample_looks_binary, Probe,
};

fn printable_sample() -> Vec<u8> {
    (0..10240usize).map(|i| b' ' + (i % 95) as u8).collect()
}

#[test]
fn binary_extension_is_binary_without_reading() {
    // the path does not exist and the probe says nothing
    assert!(file_is_binary("no/such/dir/archive.zip", &Probe::Unopenable));
    assert!(file_is_binary("no/such/dir/tool.exe", &Probe::HeadUnreadable));
    assert_eq!(binary_by_extension("no/such/dir/photo.jpeg"), Some(true));
}

#[test]
fn extension_is_compared_lower_cased() {
    assert_eq!(binary_by_extension("IMAGE.PNG"), Some(true));
    assert_eq!(binary_by_extension("Main.RS"), Some(false));
    assert!(file_is_binary("Scan.PDF", &Probe::Unopenable));
}

#[test]
fn text_extension_is_text_whatever_the_bytes() {
    let probe = Probe::Read {
        head: vec![0x89, 0x50, 0x4E, 0x47, 0x0D, 0x0A, 0x1A, 0x0A],
        rewound: true,
        sample: Some(vec![0u8; 4096]),
    };
    assert!(!file_is_binary("src/main.rs", &probe));
    assert!(!file_is_binary("notes.txt", &probe));
    assert_eq!(binary_by_extension("config.toml"), Some(false));
}

#[test]
fn png_signature_without_extension_is_binary() {
    let probe = Probe::Read {
        head: vec![0x89, 0x50, 0x4E, 0x47, 0x0D, 0x0A, 0x1A, 0x0A],
        rewound: true,
        sample: Some(printable_sample()),
    };
    assert!(file_is_binary("picture", &probe));
    assert!(file_is_binary("picture.unknownext", &probe));
    assert!(matches_binary_signature(&[0x89, 0x50, 0x4E, 0x47]));
    assert!(!matches_binary_signature(&[0x89, 0x50, 0x4E]));
}

#[test]
fn printable_sample_is_text() {
    let sample = printable_sample();
    assert!(!sample_looks_binary(&sample));
    let probe = Probe::Read { head: sample[..8].to_vec(), rewound: true, sample: Some(sample) };
    assert!(!file_is_binary("README", &probe));
}

#[test]
fn quarter_nul_bytes_is_binary() {
    let mut sample = printable_sample();
    for i in (3..sample.len()).step_by(4) {
        sample[i] = 0;
    }
    assert!(sample_looks_binary(&sample));
}

#[test]
fn nul_laced_file_without_extension_is_binary() {
    let mut content = vec![b'a'; 10240];
    for i in (3..content.len()).step_by(4) {
        content[i] = 0x00;
    }
    let probe = Probe::Read { head: content[..8].to_vec(), rewound: true, sample: Some(content) };
    assert!(file_is_binary("sample", &probe));
}

#[test]
fn text_with_line_layout_is_text() {
    let sample = b"fn main() {\r\n\tprintln!(\"hi\");\n}\n".to_vec();
    assert!(!sample_looks_binary(&sample));
    // a few control bytes stay under the tolerance
    let mut sample = vec![b'a'; 100];
    sample[10] = 0x00;
    sample[20] = 0x07;
    assert!(!sample_looks_binary(&sample));
}

#[test]
fn threshold_is_twenty_percent_rounded_up() {
    // 10 bytes: tolerance is 2, so 2 non-text bytes are fine and 3 are not
    let mut sample = vec![b'a'; 10];
    sample[0] = 0xFF;
    sample[1] = 0xFE;
    assert!(!sample_looks_binary(&sample));
    sample[2] = 0xFD;
    assert!(sample_looks_binary(&sample));
    // 11 bytes: tolerance is 3
    let mut sample = vec![b'a'; 11];
    sample[0] = 0xFF;
    sample[1] = 0xFE;
    sample[2] = 0xFD;
    assert!(!sample_looks_binary(&sample));
}

#[test]
fn probe_failures_follow_the_fail_open_and_fail_closed_policy() {
    assert!(!probed_is_binary(&Probe::Unopenable));
    assert!(!probed_is_binary(&Probe::HeadUnreadable));
    let not_rewound = Probe::Read { head: b"hello wo".to_vec(), rewound: false, sample: None };
    assert!(probed_is_binary(&not_rewound));
    let unread = Probe::Read { head: b"hello wo".to_vec(), rewound: true, sample: None };
    assert!(!probed_is_binary(&unread));
}

#[test]
fn extension_is_what_follows_the_last_dot() {
    assert_eq!(extension_of("dir/archive.tar.gz"), Some("gz"));
    assert_eq!(extension_of("Makefile"), None);
    assert_eq!(extension_of("trailing."), Some(""));
    assert_eq!(class_of_extension("gz"), Some(true));
    assert_eq!(class_of_extension("py"), Some(false));
    assert_eq!(class_of_extension("unknownext"), None);
    assert_eq!(class_of_extension("PNG"), None);
}
