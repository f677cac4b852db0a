use krfiles::json::{parse_json, Json};
use krfiles::machine::{bool_to_result, nullable_str_to_result};
use krfiles::model::{decode_resource, decode_search_list};
use krfiles::render::{render_info, render_ls, render_resource_line, render_search};
use krfiles::sizefmt::format_size;
use krfiles::model::Resource;

fn bv(s: &str) -> Vec<u8> {
    s.as_bytes().to_vec()
}

#[test]
fn size_below_one_kb_is_plain_bytes() {
    assert_eq!(format_size(500), bv("500 B"));
}

#[test]
fn size_two_kb() {
    assert_eq!(format_size(2048), bv("2.0 KB"));
}

#[test]
fn size_five_mb() {
    assert_eq!(format_size(5 * 1024 * 1024), bv("5.0 MB"));
}

#[test]
fn size_three_gb_has_two_decimals() {
    assert_eq!(format_size(3 * 1024 * 1024 * 1024), bv("3.00 GB"));
}

#[test]
fn size_boundaries_and_rounding() {
    assert_eq!(format_size(0), bv("0 B"));
    assert_eq!(format_size(1023), bv("1023 B"));
    assert_eq!(format_size(1024), bv("1.0 KB"));
    assert_eq!(format_size(1536), bv("1.5 KB"));
    // 1075 bytes = 1.0498 KB, rounds to one decimal
    assert_eq!(format_size(1075), bv("1.0 KB"));
    assert_eq!(format_size(1127), bv("1.1 KB"));
    // exact halves round to the even neighbour: 1.25 down, 1.75 up
    assert_eq!(format_size(1280), bv("1.2 KB"));
    assert_eq!(format_size(1792), bv("1.8 KB"));
}

#[test]
fn size_of_largest_count_still_formats() {
    assert_eq!(format_size(u64::MAX), bv("17179869184.00 GB"));
}

#[test]
fn decode_defaults_missing_optional_fields() {
    let text = br#"{"name":"f.txt","size":500,"extension":"txt","path":"/f.txt","modified":"2024-01-01T00:00:00Z"}"#;
    let j = parse_json(&text.to_vec()).expect("parses");
    let r = decode_resource(&j).expect("decodes");
    assert_eq!(r.is_dir, false);
    assert!(r.items.is_none());
    assert_eq!(r.num_files, 0);
    assert_eq!(r.num_dirs, 0);
    assert_eq!(r.name, bv("f.txt"));
    assert_eq!(r.size, 500);
    assert_eq!(r.extension, bv("txt"));
    assert_eq!(r.path, bv("/f.txt"));
}

#[test]
fn decode_missing_required_field_fails() {
    let text = br#"{"size":500,"extension":"txt","path":"/f","modified":"m"}"#;
    let j = parse_json(&text.to_vec()).expect("parses");
    assert!(decode_resource(&j).is_none());
}

#[test]
fn decode_wrong_type_fails() {
    let text = br#"{"name":"f","size":"big","extension":"","path":"/f","modified":"m"}"#;
    let j = parse_json(&text.to_vec()).expect("parses");
    assert!(decode_resource(&j).is_none());
}

#[test]
fn decode_directory_with_items() {
    let text = br#"{"name":"d","size":0,"extension":"","isDir":true,"path":"/d","modified":"m","numFiles":1,"numDirs":2,"items":[{"name":"a","size":10,"extension":"","path":"/d/a","modified":"m"}]}"#;
    let j = parse_json(&text.to_vec()).expect("parses");
    let r = decode_resource(&j).expect("decodes");
    assert!(r.is_dir);
    assert_eq!(r.num_files, 1);
    assert_eq!(r.num_dirs, 2);
    let items = r.items.expect("items present");
    assert_eq!(items.len(), 1);
    assert_eq!(items[0].name, bv("a"));
    assert_eq!(items[0].size, 10);
}

#[test]
fn decode_null_items_means_none() {
    let text = br#"{"name":"f","size":1,"extension":"","path":"/f","modified":"m","items":null}"#;
    let j = parse_json(&text.to_vec()).expect("parses");
    let r = decode_resource(&j).expect("decodes");
    assert!(r.items.is_none());
}

#[test]
fn decode_unknown_fields_are_ignored() {
    let text = br#"{"name":"f","size":1,"extension":"","path":"/f","modified":"m","mystery":[1,2,{"x":null}]}"#;
    let j = parse_json(&text.to_vec()).expect("parses");
    assert!(decode_resource(&j).is_some());
}

#[test]
fn decode_search_results_with_default_dir() {
    let text = br#"[{"path":"/a","dir":true},{"path":"/b"}]"#;
    let j = parse_json(&text.to_vec()).expect("parses");
    let rs = decode_search_list(&j).expect("decodes");
    assert_eq!(rs.len(), 2);
    assert!(rs[0].dir);
    assert_eq!(rs[0].path, bv("/a"));
    assert!(!rs[1].dir);
}

#[test]
fn parse_number_keeps_integer_part() {
    match parse_json(&bv("123.45")) {
        Some(Json::Num { neg, mag }) => {
            assert!(!neg);
            assert_eq!(mag, 123);
        }
        other => panic!("unexpected parse: {:?}", other.is_some()),
    }
}

#[test]
fn parse_number_applies_exponent() {
    match parse_json(&bv("1.5e3")) {
        Some(Json::Num { neg, mag }) => {
            assert!(!neg);
            assert_eq!(mag, 1500);
        }
        _ => panic!("expected a number"),
    }
}

#[test]
fn parse_number_saturates_huge_values() {
    match parse_json(&bv("1e20")) {
        Some(Json::Num { mag, .. }) => assert_eq!(mag, u64::MAX),
        _ => panic!("expected a number"),
    }
}

#[test]
fn parse_number_negative_and_fractional() {
    match parse_json(&bv("-42")) {
        Some(Json::Num { neg, mag }) => {
            assert!(neg);
            assert_eq!(mag, 42);
        }
        _ => panic!("expected a number"),
    }
    match parse_json(&bv("0.5")) {
        Some(Json::Num { neg, mag }) => {
            assert!(!neg);
            assert_eq!(mag, 0);
        }
        _ => panic!("expected a number"),
    }
}

#[test]
fn parse_string_escapes() {
    match parse_json(&bv(r#""a\nb\t\"q\"""#)) {
        Some(Json::Str { bytes }) => assert_eq!(bytes, bv("a\nb\t\"q\"")),
        _ => panic!("expected a string"),
    }
}

#[test]
fn parse_unicode_escape_encodes_utf8() {
    match parse_json(&bv(r#""\u00e9""#)) {
        Some(Json::Str { bytes }) => assert_eq!(bytes, vec![0xC3, 0xA9]),
        _ => panic!("expected a string"),
    }
}

#[test]
fn parse_surrogate_pair_encodes_four_bytes() {
    match parse_json(&bv(r#""\ud83d\ude00""#)) {
        Some(Json::Str { bytes }) => assert_eq!(bytes, vec![0xF0, 0x9F, 0x98, 0x80]),
        _ => panic!("expected a string"),
    }
}

#[test]
fn parse_keeps_raw_utf8_content() {
    match parse_json(&bv(r#""é😀""#)) {
        Some(Json::Str { bytes }) => {
            assert_eq!(bytes, vec![0xC3, 0xA9, 0xF0, 0x9F, 0x98, 0x80])
        }
        _ => panic!("expected a string"),
    }
}

#[test]
fn parse_lone_surrogate_is_malformed() {
    assert!(parse_json(&bv(r#""\ud83d""#)).is_none());
}

#[test]
fn parse_rejects_malformed_documents() {
    assert!(parse_json(&bv("{")).is_none());
    assert!(parse_json(&bv("tru")).is_none());
    assert!(parse_json(&bv("[1,]")).is_none());
    assert!(parse_json(&bv("\"abc")).is_none());
    assert!(parse_json(&bv("1 x")).is_none());
    assert!(parse_json(&bv("")).is_none());
    assert!(parse_json(&bv("{\"a\":}")).is_none());
}

#[test]
fn parse_accepts_nested_structures_and_whitespace() {
    let text = bv(" { \"a\" : [ 1 , { \"b\" : null } , true ] } ");
    match parse_json(&text) {
        Some(Json::Obj { members }) => {
            assert_eq!(members.len(), 1);
            assert_eq!(members[0].0, bv("a"));
            match &members[0].1 {
                Json::Arr { items } => assert_eq!(items.len(), 3),
                _ => panic!("expected an array"),
            }
        }
        _ => panic!("expected an object"),
    }
}

#[test]
fn render_ls_lines_and_summary() {
    let child = Resource {
        name: bv("a.txt"),
        size: 500,
        extension: bv("txt"),
        is_dir: false,
        path: bv("/d/a.txt"),
        modified: bv("m"),
        items: None,
        num_dirs: 0,
        num_files: 0,
    };
    let dir = Resource {
        name: bv("d"),
        size: 0,
        extension: bv(""),
        is_dir: true,
        path: bv("/d"),
        modified: bv("m"),
        items: Some(vec![child]),
        num_dirs: 0,
        num_files: 1,
    };
    let out = render_ls(&dir);
    let mut expect = String::new();
    expect.push_str("  a.txt");
    for _ in 0..35 {
        expect.push(' ');
    }
    expect.push(' ');
    for _ in 0..5 {
        expect.push(' ');
    }
    expect.push_str("500 B\n");
    expect.push_str("\n1 files, 0 directories\n");
    assert_eq!(out, expect.into_bytes());
}

#[test]
fn render_resource_line_for_directory() {
    let dir = Resource {
        name: bv("stuff"),
        size: 0,
        extension: bv(""),
        is_dir: true,
        path: bv("/stuff"),
        modified: bv("m"),
        items: None,
        num_dirs: 0,
        num_files: 0,
    };
    assert_eq!(render_resource_line(&dir), bv("  stuff/\n"));
}

#[test]
fn render_info_for_file() {
    let f = Resource {
        name: bv("f"),
        size: 500,
        extension: bv(""),
        is_dir: false,
        path: bv("/f"),
        modified: bv("m"),
        items: None,
        num_dirs: 0,
        num_files: 0,
    };
    assert_eq!(
        render_info(&f),
        bv("  Name: f\n  Path: /f\n  Type: file\n  Size: 500 B\n  Modified: m\n")
    );
}

#[test]
fn render_info_for_directory_adds_counts() {
    let d = Resource {
        name: bv("d"),
        size: 0,
        extension: bv(""),
        is_dir: true,
        path: bv("/d"),
        modified: bv("m"),
        items: None,
        num_dirs: 2,
        num_files: 3,
    };
    assert_eq!(
        render_info(&d),
        bv("  Name: d\n  Path: /d\n  Type: directory\n  Size: 0 B\n  Modified: m\n  Files: 3\n  Dirs:  2\n")
    );
}

#[test]
fn render_info_carries_negative_counts_through() {
    let d = Resource {
        name: bv("d"),
        size: 0,
        extension: bv(""),
        is_dir: true,
        path: bv("/d"),
        modified: bv("m"),
        items: None,
        num_dirs: -2,
        num_files: -13,
    };
    assert_eq!(
        render_info(&d),
        bv("  Name: d\n  Path: /d\n  Type: directory\n  Size: 0 B\n  Modified: m\n  Files: -13\n  Dirs:  -2\n")
    );
}

#[test]
fn render_search_lists_matches() {
    let j = parse_json(&bv(r#"[{"path":"/a","dir":true},{"path":"/b"}]"#)).unwrap();
    let rs = decode_search_list(&j).unwrap();
    let out = render_search(&bv("a"), &rs);
    assert_eq!(out, bv("  [dir ] /a\n  [file] /b\n\n2 result(s)\n"));
}

#[test]
fn bool_to_result_keeps_last_error_on_failure() {
    assert!(bool_to_result(true, bv("boom")).is_ok());
    assert_eq!(bool_to_result(false, bv("boom")), Err(bv("boom")));
}

#[test]
fn nullable_str_to_result_null_means_error() {
    assert_eq!(nullable_str_to_result(Some(bv("v")), bv("boom")), Ok(bv("v")));
    assert_eq!(nullable_str_to_result(None, bv("boom")), Err(bv("boom")));
}
