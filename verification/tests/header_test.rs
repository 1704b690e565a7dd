use mz16::header::{Header, HeaderError, MZ_HEADER_START};

/// Test that the header has all the expected fields,
/// starting with the mz magic numbers and continuing
/// with numbers 1-13
fn enumerated_header(header: &Header) {
    assert_eq!(MZ_HEADER_START, header.signature);
    assert_eq!(1, header.extra_bytes);
    assert_eq!(2, header.pages);
    assert_eq!(3, header.reloc_items);
    assert_eq!(4, header.header_size);
    assert_eq!(5, header.min_alloc);
    assert_eq!(6, header.max_alloc);
    assert_eq!(7, header.init_ss);
    assert_eq!(8, header.init_sp);
    assert_eq!(9, header.checksum);
    assert_eq!(10, header.init_ip);
    assert_eq!(11, header.init_cs);
    assert_eq!(12, header.reloc_table);
    assert_eq!(13, header.overlay);
}

#[test]
fn from_words() {
    {
        let words: [u16; 14] = [0, 1, 2, 3, 4, 5, 6, 7, 8, 9, 10, 11, 12, 13];
        let header = Header::from_words(words);
        assert!(header.is_err());
        assert_eq!(header.unwrap_err(), HeaderError::NotMZ);
    }

    {
        let words: [u16; 14] = [0x5A4D, 1, 2, 3, 4, 5, 6, 7, 8, 9, 10, 11, 12, 13];
        let header = Header::from_words(words);
        assert!(header.is_ok());
        let header = header.unwrap();
        enumerated_header(&header);
    }
}

#[test]
fn new() {
    {
        let bytes: [u8; 28] = [
            0x4d, 0x5a, 1, 0, 2, 0, 3, 0, 4, 0, 5, 0, 6, 0, 7, 0, 8, 0, 9, 0, 10, 0, 11, 0, 12, 0,
            13, 0,
        ];
        let header = Header::new(&bytes[..]);
        assert!(header.is_ok());
        let header = header.unwrap();
        enumerated_header(&header);
    }

    {
        let bytes: [u8; 28] = [
            0x00, 0x00, 1, 0, 2, 0, 3, 0, 4, 0, 5, 0, 6, 0, 7, 0, 8, 0, 9, 0, 10, 0, 11, 0, 12, 0,
            13, 0,
        ];
        let header = Header::new(&bytes[..]);
        assert!(header.is_err());
        let headererr = header.unwrap_err();
        assert_eq!(headererr, HeaderError::NotMZ);
    }

    {
        let bytes: [u8; 10] = [0; 10];
        let header = Header::new(&bytes[..]);
        assert!(header.is_err());
        let headererr = header.unwrap_err();
        assert_eq!(headererr, HeaderError::NoHeader);
    }
}

#[test]
fn exe_data_start() {
    let words: [u16; 14] = [0x5A4D, 1, 2, 3, 4, 5, 6, 7, 8, 9, 10, 11, 12, 13];
    let header = Header::from_words(words).unwrap();
    assert_eq!(64, header.exe_data_start());
}

#[test]
fn extra_data_start() {
    let words: [u16; 14] = [0x5A4D, 1, 2, 3, 4, 5, 6, 7, 8, 9, 10, 11, 12, 13];
    let header = Header::from_words(words).unwrap();
    assert_eq!(513, header.extra_data_start());
}

#[test]
fn relocation_table_start() {
    let words: [u16; 14] = [0x5A4D, 1, 2, 3, 4, 5, 6, 7, 8, 9, 10, 11, 12, 13];
    let header = Header::from_words(words).unwrap();
    assert_eq!(12, header.relocation_table_start());
}

#[test]
fn relocation_table_end() {
    let mut words: [u16; 14] = [0; 14];
    words[0] = 0x5A4D;
    let mut header = Header::from_words(words).unwrap();
    header.reloc_table = 10;
    header.reloc_items = 0;
    assert_eq!(10, header.relocation_table_end());
    header.reloc_items = 1;
    assert_eq!(14, header.relocation_table_end());
}

/// A small executable of 681 bytes: a header of three paragraphs with two
/// relocation entries at offset 28, an image that ends 100 bytes into the
/// second page, and 69 bytes appended after it.
fn sample_exe() -> Vec<u8> {
    let words: [u16; 14] = [
        0x5A4D, 100, 2, 2, 3, 0x0010, 0xffff, 0, 0x0100, 0, 0, 0, 28, 0,
    ];
    let mut file: Vec<u8> = Vec::new();
    for word in words {
        file.push((word & 0xff) as u8);
        file.push((word >> 8) as u8);
    }
    while file.len() < 681 {
        file.push(((file.len() * 7 + 3) % 256) as u8);
    }
    file
}

fn hex_dump(bytes: &[u8]) -> String {
    let mut text = String::new();
    for byte in bytes {
        text.push_str(&format!("{:02x} ", byte));
    }
    text.push_str("\n");
    text
}

#[test]
fn header_data() {
    let file = sample_exe();
    let header = Header::new(&file).unwrap();
    assert_eq!(16 * 3, header.header_data(&file).unwrap().len());
    let actual = hex_dump(header.header_data(&file).unwrap());
    let expected = "4d 5a 64 00 02 00 02 00 03 00 10 00 ff ff 00 00 \
                    00 01 00 00 00 00 00 00 1c 00 00 00 c7 ce d5 dc \
                    e3 ea f1 f8 ff 06 0d 14 1b 22 29 30 37 3e 45 4c \n";
    assert_eq!(expected, actual);
}

#[test]
fn relocation_table_data() {
    let file = sample_exe();
    let header = Header::new(&file).unwrap();
    let actual = hex_dump(header.relocation_table_data(&file).unwrap());
    let expected = "c7 ce d5 dc e3 ea f1 f8 \n";
    assert_eq!(expected, actual);
}

#[test]
fn exe_data() {
    let file = sample_exe();
    let header = Header::new(&file).unwrap();
    let data = header.exe_data(&file).unwrap();
    assert_eq!(564, data.len());
    assert_eq!(hex_dump(&file[48..612]), hex_dump(data));
    assert!(hex_dump(data).starts_with("53 5a 61 68 "));
    assert!(hex_dump(data).ends_with("b1 b8 \n"));
}

#[test]
fn extra_data() {
    let file = sample_exe();
    let header = Header::new(&file).unwrap();
    let data = header.extra_data(&file).unwrap();
    assert_eq!(69, data.len());
    assert_eq!(hex_dump(&file[612..]), hex_dump(data));
    assert!(hex_dump(data).starts_with("bf c6 cd d4 "));
    assert!(hex_dump(data).ends_with("94 9b \n"));
}
