use racer_tracer::image_action::{
    rgba, to_upper_hex, words_to_bytes, xrgb, PngFile, SavePng,
};

#[test]
fn display_words() {
    assert_eq!(xrgb(0, 0, 0), 0xFF00_0000);
    assert_eq!(xrgb(255, 255, 255), 0xFFFF_FFFF);
    assert_eq!(xrgb(0x12, 0x34, 0x56), 0xFF12_3456);
    // A channel beyond 255 spills into the bytes above it.
    assert_eq!(xrgb(0, 0, 0x100), 0xFF00_0100);
    assert_eq!(xrgb(0x1FF, 0, 0), 0xFFFF_0000);
}

#[test]
fn file_words() {
    assert_eq!(rgba(0, 0, 0), 0x0000_00FF);
    assert_eq!(rgba(0x12, 0x34, 0x56), 0x1234_56FF);
    assert_eq!(rgba(255, 255, 255), 0xFFFF_FFFF);
    assert_eq!(rgba(0x100, 0, 0), 0x0000_00FF);
    assert_eq!(rgba(0, 0x100, 0), 0x0100_00FF);
}

#[test]
fn words_become_bytes_most_significant_first() {
    assert_eq!(words_to_bytes(&vec![]), Vec::<u8>::new());
    assert_eq!(
        words_to_bytes(&vec![0x1234_56FF, 0x0000_0001]),
        vec![0x12, 0x34, 0x56, 0xFF, 0, 0, 0, 1]
    );
    let words = vec![0xDEAD_BEEF, 7, u32::MAX];
    let expected: Vec<u8> = words.iter().flat_map(|w: &u32| w.to_be_bytes()).collect();
    assert_eq!(words_to_bytes(&words), expected);
}

#[test]
fn upper_case_hexadecimal() {
    assert_eq!(to_upper_hex(&vec![]), "");
    assert_eq!(to_upper_hex(&vec![0x00, 0x0A, 0xFF, 0x10, 0x9C]), "000AFF109C");
}

#[test]
fn no_output_directory_means_nothing_to_save() {
    assert_eq!(SavePng {}.prepare(&vec![(1, 2, 3)], &None), None);
}

#[test]
fn a_png_is_named_by_the_hash_of_its_bytes() {
    let dir = Some(String::from("out"));
    let file = SavePng {}.prepare(&vec![], &dir).unwrap();
    assert_eq!(
        file,
        PngFile {
            name: String::from(
                "E3B0C44298FC1C149AFBF4C8996FB92427AE41E4649B934CA495991B7852B855.png"
            ),
            data: vec![],
        }
    );

    // The bytes "abc" and an opaque alpha byte.
    let file = SavePng {}.prepare(&vec![(0x61, 0x62, 0x63)], &dir).unwrap();
    assert_eq!(file.data, vec![0x61, 0x62, 0x63, 0xFF]);
    assert_eq!(file.name.len(), 64 + 4);
    assert!(file.name.ends_with(".png"));
    assert!(file.name[..64].chars().all(|c| c.is_ascii_digit() || ('A'..='F').contains(&c)));

    let other = SavePng {}.prepare(&vec![(0x61, 0x62, 0x64)], &dir).unwrap();
    assert_ne!(file.name, other.name);
    let same = SavePng {}.prepare(&vec![(0x61, 0x62, 0x63)], &dir).unwrap();
    assert_eq!(file.name, same.name);
}

#[test]
fn a_known_digest() {
    // SHA-256 of the three bytes "abc".
    let digest: Vec<u8> = vec![
        0xBA, 0x78, 0x16, 0xBF, 0x8F, 0x01, 0xCF, 0xEA, 0x41, 0x41, 0x40, 0xDE, 0x5D, 0xAE, 0x22,
        0x23, 0xB0, 0x03, 0x61, 0xA3, 0x96, 0x17, 0x7A, 0x9C, 0xB4, 0x10, 0xFF, 0x61, 0xF2, 0x00,
        0x15, 0xAD,
    ];
    assert_eq!(
        SavePng::file_name(&digest),
        "BA7816BF8F01CFEA414140DE5DAE2223B00361A396177A9CB410FF61F20015AD.png"
    );
}

#[test]
fn pixels_become_file_words() {
    assert_eq!(
        SavePng::words(&vec![(255, 0, 0), (0, 255, 0), (0, 0, 255)]),
        vec![0xFF00_00FF, 0x00FF_00FF, 0x0000_FFFF]
    );
}
