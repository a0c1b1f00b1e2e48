use gesture_backup::text::{
    configuration_text, convert_file_formats, decimal, from_chars, get_extensions, get_src_path,
    is_separator, is_whitespace, parse_extensions, to_chars,
};

fn strings(items: &[&str]) -> Vec<String> {
    items.iter().map(|s| s.to_string()).collect()
}

#[test]
fn whitespace_is_the_unicode_property() {
    for c in ['\t', '\n', '\u{B}', '\u{C}', '\r', ' ', '\u{85}', '\u{A0}', '\u{1680}', '\u{2000}',
        '\u{200A}', '\u{2028}', '\u{2029}', '\u{202F}', '\u{205F}', '\u{3000}']
    {
        assert!(is_whitespace(c));
        assert!(c.is_whitespace());
    }
    for c in ['a', ',', '\u{8}', '\u{E}', '\u{200B}', '\u{1F}', '\u{FEFF}'] {
        assert!(!is_whitespace(c));
    }
}

#[test]
fn whitespace_agrees_with_std_on_every_character() {
    for n in 0..=0x10FFFFu32 {
        if let Some(c) = char::from_u32(n) {
            assert_eq!(is_whitespace(c), c.is_whitespace());
        }
    }
}

#[test]
fn separators_are_whitespace_and_comma() {
    assert!(is_separator(','));
    assert!(is_separator(' '));
    assert!(is_separator('\n'));
    assert!(!is_separator(';'));
    assert!(!is_separator('.'));
}

#[test]
fn characters_round_trip() {
    let chars = to_chars("a\u{e9}\u{1F600}z");
    assert_eq!(chars, vec!['a', '\u{e9}', '\u{1F600}', 'z']);
    assert_eq!(from_chars(&chars, 0, 4), "a\u{e9}\u{1F600}z");
    assert_eq!(from_chars(&chars, 1, 3), "\u{e9}\u{1F600}");
    assert_eq!(from_chars(&chars, 2, 2), "");
    assert_eq!(to_chars(""), Vec::<char>::new());
}

#[test]
fn source_is_the_first_line_without_trailing_whitespace() {
    assert_eq!(get_src_path("C:\\Users\\me\\Documents\ntxt jpg\n"), Some("C:\\Users\\me\\Documents".to_string()));
    assert_eq!(get_src_path("/home/me/docs  \t\r\ntxt"), Some("/home/me/docs".to_string()));
    assert_eq!(get_src_path("/home/me/docs"), Some("/home/me/docs".to_string()));
}

#[test]
fn source_keeps_leading_and_inner_whitespace() {
    assert_eq!(get_src_path("  /home/my docs \n"), Some("  /home/my docs".to_string()));
}

#[test]
fn source_is_missing_from_an_empty_first_line() {
    assert_eq!(get_src_path(""), None);
    assert_eq!(get_src_path("\n/home/me"), None);
    assert_eq!(get_src_path("   \t\r\n/home/me"), None);
    assert_eq!(get_src_path("\u{3000}\n"), None);
}

#[test]
fn extensions_are_the_words_after_the_first_line() {
    assert_eq!(get_extensions("/src\ntxt jpg\n  png\n"), strings(&["txt", "jpg", "png"]));
    assert_eq!(get_extensions("/src\r\ntxt\r\njpg\r\n"), strings(&["txt", "jpg"]));
    assert_eq!(get_extensions("/src\ntxt,jpg, png ,,gif"), strings(&["txt", "jpg", "png", "gif"]));
}

#[test]
fn first_line_holds_no_extension() {
    assert_eq!(get_extensions("txt jpg"), Vec::<String>::new());
    assert_eq!(get_extensions("txt jpg\n"), Vec::<String>::new());
    assert_eq!(get_extensions(""), Vec::<String>::new());
    assert_eq!(get_extensions("/src\n \n\t\n"), Vec::<String>::new());
}

#[test]
fn extension_list_is_split_at_commas_and_whitespace() {
    assert_eq!(parse_extensions("txt,jpg"), strings(&["txt", "jpg"]));
    assert_eq!(parse_extensions(" txt\u{3000}jpg\n"), strings(&["txt", "jpg"]));
    assert_eq!(parse_extensions("F"), strings(&["F"]));
    assert_eq!(parse_extensions(",, ,"), Vec::<String>::new());
    assert_eq!(parse_extensions(""), Vec::<String>::new());
}

#[test]
fn formats_are_joined_with_commas() {
    assert_eq!(convert_file_formats(&strings(&["txt", "jpg", "png"])), "txt,jpg,png");
    assert_eq!(convert_file_formats(&strings(&["txt"])), "txt");
    assert_eq!(convert_file_formats(&strings(&[])), "");
    assert_eq!(convert_file_formats(&strings(&["", ""])), ",");
}

#[test]
fn joined_formats_parse_back() {
    let formats = strings(&["txt", "tar.gz", "jpeg"]);
    assert_eq!(parse_extensions(&convert_file_formats(&formats)), formats);
}

#[test]
fn configuration_names_formats_source_and_destination() {
    assert_eq!(
        configuration_text("txt,jpg", "/home/me", "/mnt/usb"),
        "type;source;destination\ntxt,jpg;/home/me;/mnt/usb\n"
    );
    assert_eq!(
        configuration_text("", "C:\\a", "E:\\b"),
        "type;source;destination\nF;C:\\a;E:\\b\n"
    );
}

#[test]
fn numbers_are_written_in_decimal() {
    assert_eq!(decimal(0), "0");
    assert_eq!(decimal(7), "7");
    assert_eq!(decimal(10), "10");
    assert_eq!(decimal(1_234_567_890), "1234567890");
    assert_eq!(decimal(u64::MAX), "18446744073709551615");
    for n in [9u64, 99, 100, 101, 1_000, 65_535, 4_294_967_296] {
        assert_eq!(decimal(n), n.to_string());
    }
}
