use rvr::debug::{parse_location, DebugInfo, SourceLoc};

#[test]
fn test_parse_location_valid() {
    let loc = parse_location("main", "/path/to/file.c:42");
    assert!(loc.is_valid());
    assert_eq!(loc.file, "/path/to/file.c");
    assert_eq!(loc.line, 42);
    assert_eq!(loc.function, "main");
}

#[test]
fn test_parse_location_with_discriminator() {
    let loc = parse_location("foo", "/path/file.c:10 (discriminator 1)");
    assert!(loc.is_valid());
    assert_eq!(loc.line, 10);
}

#[test]
fn test_parse_location_unknown() {
    let loc = parse_location("??", "??:0");
    assert!(!loc.is_valid());
    assert_eq!(loc.function, "");
}

#[test]
fn parse_location_edge_cases() {
    let loc = parse_location("f", "no-colon-here");
    assert_eq!(loc.file, "??");
    assert_eq!(loc.line, 0);
    let loc = parse_location("f", "c:\\dir\\x.c:7");
    assert_eq!(loc.file, "c:\\dir\\x.c");
    assert_eq!(loc.line, 7);
    let loc = parse_location("f", "x.c:abc");
    assert_eq!(loc.line, 0);
    let loc = parse_location("f", "x.c:+5");
    assert_eq!(loc.line, 5);
    let loc = parse_location("f", "x.c:99999999999");
    assert_eq!(loc.line, 0);
    let loc = parse_location("f", "x.c:");
    assert_eq!(loc.line, 0);
    assert!(!loc.is_valid());
    assert!(SourceLoc::new("a.c", 3, "g").is_valid());
}

#[test]
fn debug_info_from_output() {
    let out = "main\n/src/a.c:3\n??\n??:0\r\nhelper \n  /src/b.c:17 (discriminator 2)\nextra\n";
    let info = DebugInfo::from_output(out, &[0x100, 0x104, 0x108, 0x10c]);
    assert_eq!(info.len(), 2);
    assert!(!info.is_empty());
    let a = info.get(0x100).unwrap();
    assert_eq!((a.file.as_str(), a.line, a.function.as_str()), ("/src/a.c", 3, "main"));
    assert!(info.get(0x104).is_none());
    let b = info.get(0x108).unwrap();
    assert_eq!((b.file.as_str(), b.line, b.function.as_str()), ("/src/b.c", 17, "helper"));
    assert!(info.get(0x10c).is_none());
    assert!(DebugInfo::new().is_empty());
}
