use rvr::memory::{
    gen_memory_file, gen_memory_file_with_embed, gen_segment_bins, MemoryConfig, MemorySegment,
};

#[test]
fn test_gen_memory() {
    let segments = vec![MemorySegment::new(0x8000_0000, 16, 32, vec![0x01, 0x02, 0x03, 0x04])];
    let cfg = MemoryConfig::new("test", segments, 32, 0x8001_0000);
    let memory = gen_memory_file(&cfg);

    assert!(memory.contains("segment_0_data"));
    assert!(memory.contains("segments[]"));
}

#[test]
fn test_gen_segment_bins() {
    let segments = vec![
        MemorySegment::new(0x8000_0000, 4, 8, vec![0x01, 0x02, 0x03, 0x04]),
        MemorySegment::new(0x9000_0000, 0, 4096, vec![]),
    ];
    let cfg = MemoryConfig::new("test", segments, 32, 0x8001_0000);
    let bins = gen_segment_bins(&cfg);

    assert_eq!(bins.len(), 1);
    assert_eq!(bins[0].0, "segment_0.bin");
    assert_eq!(bins[0].1, vec![0x01, 0x02, 0x03, 0x04]);
}

#[test]
fn memory_file_exact_text() {
    let data: Vec<u8> = (0u8..18).map(|b| b * 15).collect();
    let segments = vec![
        MemorySegment::new(0x8000_0000, 18, 32, data),
        MemorySegment::new(0x10, 0, 4096, vec![]),
    ];
    let cfg = MemoryConfig::new("prog", segments, 32, 0);
    let text = gen_memory_file(&cfg);
    let expected = String::new()
        + "/* Embedded ELF memory segments */\n#include \"prog.h\"\n#include <sys/mman.h>\n"
        + "#include <string.h>\n#include <stddef.h>\n\n\n"
        + "/* Segment 0: 0x80000000 (18 bytes file, 32 bytes mem) */\n"
        + "static const uint8_t segment_0_data[] = {\n"
        + "    0x00, 0x0f, 0x1e, 0x2d, 0x3c, 0x4b, 0x5a, 0x69, 0x78, 0x87, 0x96, 0xa5, 0xb4, 0xc3, 0xd2, 0xe1,\n"
        + "    0xf0, 0xff\n"
        + "};\n\n"
        + "/* Segment metadata */\ntypedef struct {\n    uint64_t vaddr;\n    uint64_t filesz;\n"
        + "    uint64_t memsz;\n    const uint8_t* data;\n} Segment;\n\n"
        + "static const Segment segments[] = {\n"
        + "    { 0x80000000, 18, 32, segment_0_data },\n"
        + "    { 0x10, 0, 4096, nullptr },\n"
        + "};\n\n"
        ;
    assert_eq!(text, expected);
}

#[test]
fn memory_file_with_embed_text() {
    let segments = vec![MemorySegment::new(0x1000, 4, 8, vec![1, 2, 3, 4])];
    let cfg = MemoryConfig::new("g", segments, 32, 0);
    let text = gen_memory_file_with_embed(&cfg);
    assert!(text.contains(
        "/* Segment 0: 0x1000 (4 bytes file, 8 bytes mem) */\nstatic const uint8_t segment_0_data[] = {\n    #embed \"segment_0.bin\"\n};\n\n\n"
    ));
    assert!(text.ends_with("    { 0x1000, 4, 8, segment_0_data },\n};\n\n"));
}
