use rvr::c_config::{HostArch, TracerConfig, TracerKind};
use rvr::config::{AddressMode, EmitConfig, FixedAddressConfig, InstretMode, SyscallMode, Xlen};
use rvr::header::dispatch::is_power_of_two;
use rvr::header::{expand_template, gen_blocks_header, gen_header, HeaderConfig};
use rvr::inputs::EmitInputs;
use rvr::text::replace_all;

#[test]
fn test_gen_header() {
    let config = EmitConfig::standard(Xlen::Rv64, HostArch::X86_64);
    let inputs = EmitInputs::new(0x8000_0000, 0x8000_0008);
    let header_cfg = HeaderConfig::new("test", &config, &inputs, vec![0x8000_0000]);
    let header = gen_header(&header_cfg);

    assert!(header.contains("#pragma once"));
    assert!(header.contains("MEMORY_BITS"));
    assert!(header.contains("RvState"));
    assert!(header.contains("phys_addr"));
}

#[test]
fn test_gen_blocks_header() {
    let config = EmitConfig::standard(Xlen::Rv64, HostArch::X86_64);
    let inputs = EmitInputs::new(0x8000_0000, 0x8000_0008);
    let header_cfg = HeaderConfig::new("test", &config, &inputs, vec![0x8000_0000, 0x8000_0004]);
    let blocks = gen_blocks_header(&header_cfg);

    assert!(blocks.contains("B_0000000080000000"));
    assert!(blocks.contains("B_0000000080000004"));
    assert!(blocks.contains("rv_trap"));
}

#[test]
fn blocks_header_rv32_width() {
    let config = EmitConfig::new(32, Xlen::Rv32, HostArch::X86_64);
    let inputs = EmitInputs::new(0x100, 0x108);
    let cfg = HeaderConfig::new("prog", &config, &inputs, vec![0x100]);
    let blocks = gen_blocks_header(&cfg);
    let params = cfg.sig.params.clone();
    let expected = format!(
        "#pragma once\n#include \"prog.h\"\n\n/* Trap handler for invalid addresses */\n__attribute__((preserve_none)) void rv_trap({params});\n\n/* Block forward declarations */\n__attribute__((preserve_none)) void B_00000100({params});\n\n"
    );
    assert_eq!(blocks, expected);
}

#[test]
fn header_state_struct_and_constants() {
    let config = EmitConfig::standard(Xlen::Rv64, HostArch::X86_64);
    let inputs = EmitInputs::new(0x8000_0000, 0x8000_0008);
    let cfg = HeaderConfig::new("t", &config, &inputs, vec![]);
    let header = gen_header(&cfg);
    assert!(header.contains("constexpr int XLEN = 64;\n"));
    assert!(header.contains("constexpr uint32_t RV_ENTRY_POINT = 0x80000000;\n"));
    assert!(header.contains("constexpr uint32_t CSR_MISA      = 0x301;\n"));
    assert!(header.contains("    uint64_t regs[32];           /* offset 0 */\n"));
    assert!(header.contains("    uint64_t pc;                         /* offset 256 */\n"));
    assert!(header.contains("static_assert(offsetof(RvState, memory) == 304);\n"));
    assert!(header.contains("static_assert(offsetof(RvState, csrs) == 312);\n\n"));
    assert!(header.contains("    return addr & RV_MEMORY_MASK;"));
    assert!(header.contains("static inline uint64_t rd_csr(const RvState* restrict s, uint32_t csr, uint64_t instret) {"));
    // 0x80000000 is a power of two: the dispatch index is a mask.
    assert!(header.contains("/* Dispatch: (pc & mask) >> 1 */\nstatic inline uint64_t dispatch_index(uint64_t pc) {\n    return (pc & 0x7fffffff) >> 1;\n}"));
    assert!(!header.contains("trd_mem_u8"));
    assert!(!header.contains("rv_sys_write"));
}

#[test]
fn header_variants() {
    let mut tracer = TracerConfig::none();
    tracer.builtin = Some(TracerKind::Diff);
    let config = EmitConfig::new(32, Xlen::Rv32, HostArch::X86_64)
        .with_address_mode(AddressMode::Bounds)
        .with_instret_mode(InstretMode::Suspend)
        .with_tracer(tracer)
        .with_syscall_mode(SyscallMode::Linux)
        .with_fixed_addresses(FixedAddressConfig::default());
    let inputs = EmitInputs::new(0x1_0074, 0x1_0080);
    let cfg = HeaderConfig::new("v", &config, &inputs, vec![]);
    let header = gen_header(&cfg);
    assert!(header.contains("#include \"rv_tracer.h\"\n"));
    assert!(header.contains("constexpr uint64_t RV_STATE_ADDR  = 0x1000000000ull;\n"));
    assert!(header.contains("    uint64_t target_instret;            /* offset 144 */\n"));
    assert!(header.contains("    Tracer tracer;                      /* offset 176 */\n"));
    assert!(header.contains("/* offset after Tracer */"));
    assert!(!header.contains("offsetof(RvState, csrs)"));
    assert!(header.contains("if (unlikely((int32_t)(addr << (32 - MEMORY_BITS)) >> (32 - MEMORY_BITS) != (int32_t)addr)) __builtin_trap();"));
    assert!(header.contains("rd_mem_u8(uint32_t base, int16_t off) {\n    uint8_t* phys = &((uint8_t*)RV_MEMORY_ADDR)[phys_addr(base)];"));
    assert!(header.contains("static inline uint32_t trd_mem_u8(Tracer* t, uint32_t pc, uint16_t op, uint32_t base, int16_t off) {"));
    assert!(header.contains("((RvState*)RV_STATE_ADDR)->regs[reg]"));
    assert!(header.contains("uint32_t rv_sys_write(RvState* restrict state, uint32_t fd, uint32_t buf, uint32_t count);"));
    assert!(header.contains("    return (pc - 0x10074) >> 1;"));
    assert!(!header.contains("@"));
}

#[test]
fn power_of_two_check() {
    assert!(is_power_of_two(1));
    assert!(is_power_of_two(0x8000_0000));
    assert!(is_power_of_two(1u64 << 63));
    assert!(!is_power_of_two(0));
    assert!(!is_power_of_two(0x1_0074));
    assert!(!is_power_of_two(u64::MAX));
}

#[test]
fn template_expansion() {
    assert_eq!(replace_all("a@X@b@X@", "@X@", "yy"), "ayybyy");
    assert_eq!(replace_all("aaa", "aa", "b"), "ba");
    assert_eq!(replace_all("abc", "zz", "q"), "abc");
    let reps = [("@A@", "1"), ("@B@", "@A@")];
    assert_eq!(expand_template("{{@A@}} @B@", &reps), "{1} @A@");
}
