use busy::anim::{is_anim, parse, ColorFormat};

const HEADER_LEN: usize = 36;
const SECTION_FIXED_LEN: usize = 13;
const SIGNATURE: &[u8; 8] = b"bicycle0";
const DEFAULT_SECTION: &[u8] = b"default";

/// The smallest valid file: one 2x2 frame, stored raw, one section.
fn minimal() -> Vec<u8> {
    let frame_data = vec![0u8; 2 * 2 * 3];
    let frame = [
        vec![0u8, 1],
        (frame_data.len() as u16).to_le_bytes().to_vec(),
        frame_data,
    ]
    .concat();

    let mut section = vec![];
    section.extend(0u32.to_le_bytes());
    section.extend(0u32.to_le_bytes());
    section.extend((HEADER_LEN as u32 + 21).to_le_bytes());
    section.push(1);
    section.extend(DEFAULT_SECTION);
    section.push(0);
    assert_eq!(section.len(), 21);

    let mut header = vec![];
    header.extend(SIGNATURE);
    header.extend([0, 2, 2, 0]);
    header.extend([30]);
    header.extend((frame_data_len() as u16).to_le_bytes());
    header.push(0);
    header.extend((section.len() as u32).to_le_bytes());
    header.extend((frame.len() as u32).to_le_bytes());
    header.extend(1u32.to_le_bytes());
    header.extend(1u32.to_le_bytes());
    header.extend(1u32.to_le_bytes());
    assert_eq!(header.len(), HEADER_LEN);

    [header, section, frame].concat()
}

fn frame_data_len() -> usize {
    2 * 2 * 3
}

/// `minimal()` with a second, named section.
fn with_named_section() -> Vec<u8> {
    let frame_data = vec![0u8; 2 * 2 * 3];
    let frame = [vec![0u8, 1], (frame_data.len() as u16).to_le_bytes().to_vec(), frame_data].concat();
    let mut sections = vec![];
    let sections_len = 21 + 13 + 5;
    sections.extend(0u32.to_le_bytes());
    sections.extend(0u32.to_le_bytes());
    sections.extend((HEADER_LEN as u32 + sections_len).to_le_bytes());
    sections.push(1);
    sections.extend(DEFAULT_SECTION);
    sections.push(0);
    sections.extend(0u32.to_le_bytes());
    sections.extend(0u32.to_le_bytes());
    sections.extend((HEADER_LEN as u32 + sections_len).to_le_bytes());
    sections.push(1);
    sections.extend(b"spin");
    sections.push(0);
    assert_eq!(sections.len() as u32, sections_len);
    let mut header = vec![];
    header.extend(SIGNATURE);
    header.extend([0, 4, 3, 2, 12, 0, 0, 0]);
    header.extend(sections_len.to_le_bytes());
    header.extend((frame.len() as u32).to_le_bytes());
    header.extend(2u32.to_le_bytes());
    header.extend(1u32.to_le_bytes());
    header.extend(1u32.to_le_bytes());
    [header, sections, frame].concat()
}

#[test]
fn a_minimal_file_parses() {
    let anim = parse(&minimal()).expect("the fixture should be valid");

    assert_eq!(anim.width, 2);
    assert_eq!(anim.height, 2);
    assert_eq!(anim.color_format, ColorFormat::Rgb888);
    assert_eq!(anim.fps, 30);
    assert_eq!(anim.display_frames, 1);
    assert_eq!(anim.sections, vec!["default".to_owned()]);
    assert!(anim.named_sections().is_empty());
}

#[test]
fn the_signature_is_what_identifies_an_anim() {
    assert!(is_anim(&minimal()));
    assert!(!is_anim(b"\x89PNG\r\n\x1a\n"));
    assert!(!is_anim(b""));
}

#[test]
fn a_png_is_rejected_by_name() {
    let error = parse(b"\x89PNG\r\n\x1a\nrest of a png").unwrap_err();
    assert!(error.message().contains("bicycle0"), "{}", error.message());
}

#[test]
fn truncation_is_caught_by_the_length_equation() {
    let full = minimal();
    let error = parse(&full[..full.len() - 4]).unwrap_err();

    let message = error.message();
    assert!(message.contains("the header describes"), "{message}");
    assert!(message.contains("magenta"), "{message}");
}

#[test]
fn trailing_junk_is_caught_too() {
    let mut padded = minimal();
    padded.push(0);
    assert!(parse(&padded).is_err());
}

#[test]
fn a_short_file_cannot_even_hold_a_header() {
    let error = parse(&minimal()[..20]).unwrap_err();
    assert!(error.message().contains("36 bytes"), "{}", error.message());
}

#[test]
fn unknown_flags_are_rejected_as_the_firmware_rejects_them() {
    let mut file = minimal();
    file[8] = 1;
    assert!(parse(&file).unwrap_err().message().contains("flags"));
}

#[test]
fn an_unknown_colour_format_is_rejected() {
    let mut file = minimal();
    file[11] = 3;
    assert!(parse(&file).unwrap_err().message().contains("colour format"));
}

#[test]
fn zero_fps_is_rejected() {
    let mut file = minimal();
    file[12] = 0;
    assert!(parse(&file).unwrap_err().message().contains("0 fps"));
}

#[test]
fn the_first_section_must_be_named_default() {
    let mut file = minimal();
    file[HEADER_LEN + SECTION_FIXED_LEN..HEADER_LEN + SECTION_FIXED_LEN + 7].copy_from_slice(b"custom!");

    let error = parse(&file).unwrap_err();
    assert!(error.message().contains("must be `default`"), "{}", error.message());
}

#[test]
fn the_default_section_must_span_every_frame() {
    let mut file = minimal();
    file[HEADER_LEN + 4..HEADER_LEN + 8].copy_from_slice(&7u32.to_le_bytes());

    let error = parse(&file).unwrap_err();
    assert!(error.message().contains("must cover 0..0"), "{}", error.message());
}

#[test]
fn a_wrong_precomputed_frame_offset_is_rejected() {
    let mut file = minimal();
    file[HEADER_LEN + 8..HEADER_LEN + 12].copy_from_slice(&99u32.to_le_bytes());

    let error = parse(&file).unwrap_err();
    assert!(error.message().contains("points at byte 99"), "{}", error.message());
}

#[test]
fn a_section_count_that_disagrees_with_the_chunk_is_rejected() {
    let mut file = minimal();
    file[24..28].copy_from_slice(&2u32.to_le_bytes());

    let error = parse(&file).unwrap_err();
    assert!(error.message().contains("claims 2 section"), "{}", error.message());
}

#[test]
fn every_rejection_is_a_usage_error_naming_the_magenta_screen() {
    let error = parse(b"bicycle0").unwrap_err();
    assert_eq!(error.exit_code(), 2);
    assert_eq!(
        error.message(),
        "not a usable .anim file: the header needs 36 bytes and the file has 8\n\
         The bar accepts a malformed animation without complaint and then displays solid \
         magenta, so `busy` checks it here instead."
    );
}

#[test]
fn a_second_section_is_a_named_section() {
    let anim = parse(&with_named_section()).expect("the fixture should be valid");
    assert_eq!(anim.sections, vec!["default".to_owned(), "spin".to_owned()]);
    assert_eq!(anim.named_sections(), &["spin".to_owned()]);
    assert_eq!(anim.color_format, ColorFormat::Argb8888);
    assert_eq!(anim.color_format.label(), "argb8888");
    assert_eq!((anim.width, anim.height, anim.fps), (4, 3, 12));
}

#[test]
fn an_unterminated_sections_chunk_is_rejected() {
    let mut file = minimal();
    file[HEADER_LEN + 20] = b'x';
    let error = parse(&file).unwrap_err();
    assert!(error.message().contains("does not end with a NUL"), "{}", error.message());
}

#[test]
fn zero_sections_and_zero_frames_are_rejected() {
    let mut file = minimal();
    file[24..28].copy_from_slice(&0u32.to_le_bytes());
    assert!(parse(&file).unwrap_err().message().contains("no sections"));
    let mut file = minimal();
    file[32..36].copy_from_slice(&0u32.to_le_bytes());
    assert!(parse(&file).unwrap_err().message().contains("no frames"));
}
