use efi_alloc::console::{console_chunks_of, format_x64, Attribute};
use efi_alloc::protocol::{
    combine_status, status32_to_result, status32_to_status, status_to_result, status_to_status,
    Color, Error, Status,
};

#[test]
fn status_codes_split_on_the_top_bit() {
    assert_eq!(status_to_result(0, 7u8), Ok(7));
    assert_eq!(status_to_result(4, ()), Ok(()));
    assert_eq!(
        status_to_result(0x8000_0000_0000_0009, ()),
        Err(Error { code: 9 })
    );
    assert_eq!(status_to_status(0), Ok(Status::success()));
    assert_eq!(status_to_status(4), Ok(Status { code: 4 }));
    assert!(!Status { code: 4 }.is_success());
    assert_eq!(
        status_to_status(0x8000_0000_0000_0002),
        Err(Error::invalid_parameter())
    );
    assert_eq!(Error::invalid_parameter(), Error { code: 2 });
}

#[test]
fn colors_from_codes() {
    assert_eq!(Color::try_from(0), Ok(Color::Black));
    assert_eq!(Color::try_from(0x0e), Ok(Color::Yellow));
    assert_eq!(Color::try_from(0x0f), Ok(Color::White));
    assert_eq!(Color::try_from(0x10), Err(()));
    assert_eq!(Color::LightCyan.code(), 0x0b);
}

#[test]
fn attribute_packs_both_colors() {
    let a = Attribute::new(Color::Yellow, Color::Blue);
    assert_eq!(a.code(), 0x1e);
    assert_eq!(a.foreground(), Color::Yellow);
    assert_eq!(a.background(), Color::Blue);
    // Backgrounds keep only their low three bits.
    let b = Attribute::new(Color::White, Color::LightRed);
    assert_eq!(b.code(), 0x4f);
    assert_eq!(b.background(), Color::Red);
    assert_eq!(Attribute::from_code(0xff).foreground(), Color::White);
    assert_eq!(Attribute::from_code(0xff).background(), Color::LightGray);
}

#[test]
fn hex_formatting() {
    let s = String::from_utf8(format_x64(0x1234_ABCD_0000_00FF)).unwrap();
    assert_eq!(s, "0x1234ABCD000000FF");
    let z = String::from_utf8(format_x64(0)).unwrap();
    assert_eq!(z, "0x0000000000000000");
}

fn chars(s: &str) -> Vec<char> {
    s.chars().collect()
}

#[test]
fn console_text_expands_newlines_and_terminates() {
    let chunks = console_chunks_of(&chars("hi\n"));
    assert_eq!(chunks, vec![vec![0x68, 0x69, 0x0d, 0x0a, 0]]);
    assert_eq!(console_chunks_of(&chars("")), vec![vec![0]]);
}

#[test]
fn console_text_encodes_surrogate_pairs() {
    let chunks = console_chunks_of(&chars("\u{1F600}"));
    assert_eq!(chunks, vec![vec![0xd83d, 0xde00, 0]]);
}

#[test]
fn console_text_is_split_into_chunks() {
    let text: String = std::iter::repeat('a').take(65).collect();
    let chunks = console_chunks_of(&chars(&text));
    assert_eq!(chunks.len(), 3);
    assert_eq!(chunks[0].len(), 31);
    assert_eq!(chunks[1].len(), 31);
    assert_eq!(chunks[2].len(), 6);
    assert!(chunks.iter().all(|c| *c.last().unwrap() == 0));
}

#[test]
fn narrow_status_codes_split_on_bit_31() {
    assert_eq!(status32_to_result(0x8000_0009, ()), Err(Error { code: 9 }));
    assert_eq!(status32_to_result(3, 1u8), Ok(1));
    assert_eq!(status32_to_status(0x8000_0002), Err(Error::invalid_parameter()));
    assert_eq!(status32_to_status(4), Ok(Status { code: 4 }));
    // A 32-bit error read as 64 bits would be a warning.
    assert_eq!(status_to_status(0x8000_0009), Ok(Status { code: 0x8000_0009 }));
}

#[test]
fn console_status_keeps_the_latest_warning() {
    let ok = Status::success();
    let warn = Status { code: 1 };
    assert_eq!(combine_status(ok, ok), ok);
    assert_eq!(combine_status(ok, warn), warn);
    assert_eq!(combine_status(warn, ok), warn);
    assert_eq!(combine_status(warn, Status { code: 4 }), Status { code: 4 });
}
