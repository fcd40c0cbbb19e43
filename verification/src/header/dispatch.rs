use vstd::prelude::*;

use vstd::arithmetic::power2::pow2;

use super::{rtype_of, HeaderConfig};
use crate::signature::reg_type;
use crate::text::{hex, hex_padded, push_hex, push_hex_padded, push_str};

verus! {

/// `x` followed by the block function type.
pub open spec fn fn_type_text(x: Seq<char>, params: Seq<char>) -> Seq<char> {
    x + "/* Block function type */\ntypedef __attribute__((preserve_none)) void (*rv_fn)("@ + params + ");\n\n"@
}

fn push_fn_type_text(out: &mut String, params: &str)
    ensures
        final(out)@ == fn_type_text(old(out)@, params@),
{
    push_str(out, "/* Block function type */\ntypedef __attribute__((preserve_none)) void (*rv_fn)(");
    push_str(out, params);
    push_str(out, ");\n\n");
}

/// `x` followed by the syscall runtime declarations (part 1 of 3).
pub open spec fn syscall_decls_text_1(x: Seq<char>, rtype: Seq<char>) -> Seq<char> {
    x + "/* Syscall runtime helpers (provided by runtime) */\n"@ + rtype + " rv_sys_write(RvState* restrict state, "@ + rtype + " fd, "@ + rtype + " buf, "@ + rtype + " count);\n"@ + rtype + " rv_sys_read(RvState* restrict state, "@ + rtype + " fd, "@ + rtype + " buf, "@ + rtype + " count);\n"@ + rtype + " rv_sys_brk(RvState* restrict state, "@ + rtype + " addr);\n"@ + rtype + " rv_sys_mmap(RvState* restrict state, "@ + rtype
}

/// `x` followed by the syscall runtime declarations (part 2 of 3).
pub open spec fn syscall_decls_text_2(x: Seq<char>, rtype: Seq<char>) -> Seq<char> {
    x + " addr, "@ + rtype + " len, "@ + rtype + " prot, "@ + rtype + " flags, "@ + rtype + " fd, "@ + rtype + " off);\n"@ + rtype + " rv_sys_fstat(RvState* restrict state, "@ + rtype + " fd, "@ + rtype + " statbuf);\n"@ + rtype + " rv_sys_getrandom(RvState* restrict state, "@ + rtype + " buf, "@ + rtype + " len, "@ + rtype
}

/// `x` followed by the syscall runtime declarations (part 3 of 3).
pub open spec fn syscall_decls_text_3(x: Seq<char>, rtype: Seq<char>) -> Seq<char> {
    x + " flags);\n"@ + rtype + " rv_sys_clock_gettime(RvState* restrict state, "@ + rtype + " clk_id, "@ + rtype + " tp);\n\n"@
}

fn push_syscall_decls_text_1(out: &mut String, rtype: &str)
    ensures
        final(out)@ == syscall_decls_text_1(old(out)@, rtype@),
{
    push_str(out, "/* Syscall runtime helpers (provided by runtime) */\n");
    push_str(out, rtype);
    push_str(out, " rv_sys_write(RvState* restrict state, ");
    push_str(out, rtype);
    push_str(out, " fd, ");
    push_str(out, rtype);
    push_str(out, " buf, ");
    push_str(out, rtype);
    push_str(out, " count);\n");
    push_str(out, rtype);
    push_str(out, " rv_sys_read(RvState* restrict state, ");
    push_str(out, rtype);
    push_str(out, " fd, ");
    push_str(out, rtype);
    push_str(out, " buf, ");
    push_str(out, rtype);
    push_str(out, " count);\n");
    push_str(out, rtype);
    push_str(out, " rv_sys_brk(RvState* restrict state, ");
    push_str(out, rtype);
    push_str(out, " addr);\n");
    push_str(out, rtype);
    push_str(out, " rv_sys_mmap(RvState* restrict state, ");
    push_str(out, rtype);
}

fn push_syscall_decls_text_2(out: &mut String, rtype: &str)
    ensures
        final(out)@ == syscall_decls_text_2(old(out)@, rtype@),
{
    push_str(out, " addr, ");
    push_str(out, rtype);
    push_str(out, " len, ");
    push_str(out, rtype);
    push_str(out, " prot, ");
    push_str(out, rtype);
    push_str(out, " flags, ");
    push_str(out, rtype);
    push_str(out, " fd, ");
    push_str(out, rtype);
    push_str(out, " off);\n");
    push_str(out, rtype);
    push_str(out, " rv_sys_fstat(RvState* restrict state, ");
    push_str(out, rtype);
    push_str(out, " fd, ");
    push_str(out, rtype);
    push_str(out, " statbuf);\n");
    push_str(out, rtype);
    push_str(out, " rv_sys_getrandom(RvState* restrict state, ");
    push_str(out, rtype);
    push_str(out, " buf, ");
    push_str(out, rtype);
    push_str(out, " len, ");
    push_str(out, rtype);
}

fn push_syscall_decls_text_3(out: &mut String, rtype: &str)
    ensures
        final(out)@ == syscall_decls_text_3(old(out)@, rtype@),
{
    push_str(out, " flags);\n");
    push_str(out, rtype);
    push_str(out, " rv_sys_clock_gettime(RvState* restrict state, ");
    push_str(out, rtype);
    push_str(out, " clk_id, ");
    push_str(out, rtype);
    push_str(out, " tp);\n\n");
}

/// `x` followed by the syscall runtime declarations.
pub open spec fn syscall_decls_text(x: Seq<char>, rtype: Seq<char>) -> Seq<char> {
    syscall_decls_text_3(syscall_decls_text_2(syscall_decls_text_1(x, rtype), rtype), rtype)
}

fn push_syscall_decls_text(out: &mut String, rtype: &str)
    ensures
        final(out)@ == syscall_decls_text(old(out)@, rtype@),
{
    push_syscall_decls_text_1(out, rtype);
    push_syscall_decls_text_2(out, rtype);
    push_syscall_decls_text_3(out, rtype);
}

/// `x` followed by the dispatch index function and runtime declarations.
pub open spec fn dispatch_index_text(x: Seq<char>, comment: Seq<char>, rtype: Seq<char>, dispatch_body: Seq<char>) -> Seq<char> {
    x + comment + "\nstatic inline uint64_t dispatch_index("@ + rtype + " pc) {\n    "@ + dispatch_body + "\n}\n\nextern const rv_fn dispatch_table[];\n\n/* Runtime function - only this is needed from C */\nint rv_execute_from(RvState* restrict state, "@ + rtype + " start_pc);\n\n/* Metadata constant (read via dlsym) */\nextern const uint32_t RV_TRACER_KIND;\n\n"@
}

fn push_dispatch_index_text(out: &mut String, comment: &str, rtype: &str, dispatch_body: &str)
    ensures
        final(out)@ == dispatch_index_text(old(out)@, comment@, rtype@, dispatch_body@),
{
    push_str(out, comment);
    push_str(out, "\nstatic inline uint64_t dispatch_index(");
    push_str(out, rtype);
    push_str(out, " pc) {\n    ");
    push_str(out, dispatch_body);
    push_str(out, "\n}\n\nextern const rv_fn dispatch_table[];\n\n/* Runtime function - only this is needed from C */\nint rv_execute_from(RvState* restrict state, ");
    push_str(out, rtype);
    push_str(out, " start_pc);\n\n/* Metadata constant (read via dlsym) */\nextern const uint32_t RV_TRACER_KIND;\n\n");
}

/// The block function type for a header configuration.
pub fn gen_fn_type(cfg: &HeaderConfig) -> (r: String)
    ensures
        r@ == fn_type_text(seq![], cfg.sig.params@),
{
    let mut s = String::new();
    push_fn_type_text(&mut s, cfg.sig.params.as_str());
    s
}

/// Forward declaration lines for blocks `0..n`.
pub open spec fn block_decls(addrs: Seq<u64>, params: Seq<char>, width: nat, n: int) -> Seq<char>
    decreases n,
{
    if n <= 0 {
        seq![]
    } else {
        block_decls(addrs, params, width, n - 1) + "__attribute__((preserve_none)) void B_"@
            + hex_padded(addrs[n - 1] as nat, width) + "("@ + params + ");\n"@
    }
}

/// Forward declarations of all block functions (addresses padded to 16
/// hex digits for RV64, 8 for RV32).
pub fn gen_block_declarations(cfg: &HeaderConfig) -> (r: String)
    ensures
        r@ == "/* Block forward declarations */\n"@ + block_decls(
            cfg.block_addresses@,
            cfg.sig.params@,
            if cfg.xlen == crate::config::Xlen::Rv64 {
                16nat
            } else {
                8nat
            },
            cfg.block_addresses@.len() as int,
        ),
{
    let mut decls = crate::text::string_of("/* Block forward declarations */\n");
    let width: usize = match cfg.xlen {
        crate::config::Xlen::Rv64 => 16,
        crate::config::Xlen::Rv32 => 8,
    };
    let ghost start = decls@;
    let mut k: usize = 0;
    while k < cfg.block_addresses.len()
        invariant
            k <= cfg.block_addresses@.len(),
            width == if cfg.xlen == crate::config::Xlen::Rv64 {
                16nat
            } else {
                8nat
            },
            decls@ == start + block_decls(cfg.block_addresses@, cfg.sig.params@, width as nat, k as int),
        decreases cfg.block_addresses.len() - k,
    {
        let addr = cfg.block_addresses[k];
        let ghost before = decls@;
        push_str(&mut decls, "__attribute__((preserve_none)) void B_");
        push_hex_padded(&mut decls, addr, width);
        push_str(&mut decls, "(");
        push_str(&mut decls, cfg.sig.params.as_str());
        push_str(&mut decls, ");\n");
        proof {
            let line = "__attribute__((preserve_none)) void B_"@ + hex_padded(addr as nat, width as nat)
                + "("@ + cfg.sig.params@ + ");\n"@;
            vstd::seq_lib::lemma_concat_associative(
                start,
                block_decls(cfg.block_addresses@, cfg.sig.params@, width as nat, k as int),
                line,
            );
            assert(decls@ =~= before + line);
        }
        k += 1;
    }
    decls
}

/// Syscall runtime function declarations.
pub fn gen_syscall_declarations(cfg: &HeaderConfig) -> (r: String)
    ensures
        r@ == syscall_decls_text(seq![], rtype_of(cfg.xlen)),
{
    let mut s = String::new();
    push_syscall_decls_text(&mut s, reg_type(cfg.xlen));
    s
}

/// Whether `n` is a power of two.
pub open spec fn is_pow2(n: u64) -> bool {
    exists|k: nat| k < 64 && n as int == pow2(k)
}

/// Whether `n` is a power of two (`u64::is_power_of_two`).
pub fn is_power_of_two(n: u64) -> (r: bool)
    ensures
        r == is_pow2(n),
{
    let mut p: u64 = 1;
    let mut k: u64 = 0;
    proof {
        vstd::arithmetic::power2::lemma2_to64();
    }
    while k < 64
        invariant
            k <= 64,
            k < 64 ==> p as int == pow2(k as nat),
            forall|j: nat| j < k ==> n as int != #[trigger] pow2(j),
        decreases 64 - k,
    {
        if n == p {
            assert(n as int == pow2(k as nat));
            return true;
        }
        if k < 63 {
            proof {
                vstd::arithmetic::power2::lemma_pow2_adds(k as nat, 1);
                vstd::arithmetic::power2::lemma2_to64();
                vstd::arithmetic::power2::lemma2_to64_rest();
                vstd::arithmetic::power2::lemma_pow2_strictly_increases(k as nat, 63);
            }
            p = p * 2;
        }
        k += 1;
    }
    false
}

/// The dispatch index function: a mask when the text start is a power of
/// two, a subtraction otherwise.
pub open spec fn dispatch_section(cfg: HeaderConfig) -> Seq<char> {
    let t = cfg.text_start;
    if is_pow2(t) {
        dispatch_index_text(
            seq![],
            "/* Dispatch: (pc & mask) >> 1 */"@,
            rtype_of(cfg.xlen),
            "return (pc & 0x"@ + hex((t - 1) as nat) + ") >> 1;"@,
        )
    } else {
        dispatch_index_text(
            seq![],
            "/* Dispatch: (pc - text_start) >> 1 (slower, non-power-of-2 start) */"@,
            rtype_of(cfg.xlen),
            "return (pc - 0x"@ + hex(t as nat) + ") >> 1;"@,
        )
    }
}

/// The dispatch index function and the runtime declarations.
pub fn gen_dispatch(cfg: &HeaderConfig) -> (r: String)
    ensures
        r@ == dispatch_section(*cfg),
{
    let text_start = cfg.text_start;
    let rtype = reg_type(cfg.xlen);
    let mut body = String::new();
    let comment;
    if is_power_of_two(text_start) {
        proof {
            let k = choose|k: nat| k < 64 && text_start as int == pow2(k);
            vstd::arithmetic::power2::lemma_pow2_pos(k);
        }
        let mask = text_start - 1;
        push_str(&mut body, "return (pc & 0x");
        push_hex(&mut body, mask);
        push_str(&mut body, ") >> 1;");
        comment = "/* Dispatch: (pc & mask) >> 1 */";
    } else {
        push_str(&mut body, "return (pc - 0x");
        push_hex(&mut body, text_start);
        push_str(&mut body, ") >> 1;");
        comment = "/* Dispatch: (pc - text_start) >> 1 (slower, non-power-of-2 start) */";
    }
    let mut s = String::new();
    push_dispatch_index_text(&mut s, comment, rtype, body.as_str());
    s
}

} // verus!
