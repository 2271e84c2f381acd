//! Hardware capability: the model recommended for a machine, and the GPU
//! descriptions read from vendor tools' output.
use vstd::prelude::*;
use crate::text::{
    has_char, prefix_before, suffix_after, contains_text, trimmed, lemma_first_pos, trim_text, before_char,
    after_char, has_text,
};

verus! {

pub struct GpuInfo {
    pub name: String,
    pub vram_mb: Option<u64>,
    pub vendor: String,
}

/// Bytes in a gibibyte.
pub const GIB: u64 = 1073741824;
/// Video memory, in MiB, from which a GPU counts as capable.
pub const GOOD_GPU_VRAM_MB: u64 = 4000;

pub open spec fn good_gpu(g: Option<GpuInfo>) -> bool {
    match g {
        Some(x) => match x.vram_mb {
            Some(v) => v >= GOOD_GPU_VRAM_MB,
            None => false,
        },
        None => false,
    }
}

pub open spec fn apple_gpu(g: Option<GpuInfo>) -> bool {
    match g {
        Some(x) => x.vendor@ == "Apple"@,
        None => false,
    }
}

/// The model to recommend for `ram` bytes of memory, and whether local
/// inference is possible at all (4 GiB at least).
pub open spec fn recommendation(ram: int, good: bool, apple: bool) -> (Seq<char>, bool) {
    if ram < 4 * GIB {
        ("none"@, false)
    } else if ram >= 16 * GIB || (good && ram >= 8 * GIB) {
        ("llama3:8b"@, true)
    } else if ram >= 8 * GIB || apple {
        ("phi3:mini"@, true)
    } else {
        ("llama3.2:3b"@, true)
    }
}

pub fn recommend_model(total_ram_bytes: u64, gpu_info: &Option<GpuInfo>) -> (r: (String, bool))
    ensures
        (r.0@, r.1) == recommendation(total_ram_bytes as int, good_gpu(*gpu_info), apple_gpu(*gpu_info)),
{
    if total_ram_bytes < 4 * GIB {
        return ("none".to_owned(), false);
    }
    let has_good_gpu = match gpu_info {
        Some(gpu) => match gpu.vram_mb {
            Some(v) => v >= GOOD_GPU_VRAM_MB,
            None => false,
        },
        None => false,
    };
    let apple = "Apple".to_owned();
    let is_apple_silicon = match gpu_info {
        Some(gpu) => gpu.vendor == apple,
        None => false,
    };
    let recommended = if total_ram_bytes >= 16 * GIB || (has_good_gpu && total_ram_bytes >= 8 * GIB) {
        "llama3:8b"
    } else if total_ram_bytes >= 8 * GIB || is_apple_silicon {
        "phi3:mini"
    } else {
        "llama3.2:3b"
    };
    (recommended.to_owned(), true)
}

pub open spec fn is_digit(c: char) -> bool {
    '0' <= c <= '9'
}

pub open spec fn digit_value(c: char) -> int {
    (c as u32) - ('0' as u32)
}

pub open spec fn decimal_value(s: Seq<char>) -> int
    decreases s.len(),
{
    if s.len() == 0 {
        0
    } else {
        decimal_value(s.drop_last()) * 10 + digit_value(s.last())
    }
}

/// What `str::parse::<u64>` gives: an optional `+`, then one or more decimal
/// digits whose value fits in 64 bits.
pub open spec fn u64_of_text(s: Seq<char>) -> Option<u64> {
    let d = if s.len() > 0 && s[0] == '+' {
        s.drop_first()
    } else {
        s
    };
    if d.len() > 0 && (forall|i: int| 0 <= i < d.len() ==> is_digit(#[trigger] d[i])) && decimal_value(d)
        <= u64::MAX {
        Some(decimal_value(d) as u64)
    } else {
        None
    }
}

/// Relies on `str::parse::<u64>`: an optional `+` and decimal digits, within
/// range; anything else is an error.
#[verifier::external_body]
fn parse_u64(s: &str) -> (r: Option<u64>)
    ensures
        r == u64_of_text(s@),
{
    s.parse::<u64>().ok()
}

/// The GPU described by `nvidia-smi --query-gpu=name,memory.total
/// --format=csv,noheader,nounits`: name and memory in MiB, comma-separated.
pub open spec fn nvidia_gpu_spec(stdout: Seq<char>) -> Option<(Seq<char>, Option<u64>)> {
    let t = trimmed(stdout);
    if has_char(t, ',') {
        Some((trimmed(prefix_before(t, ',')), u64_of_text(trimmed(prefix_before(suffix_after(t, ','), ',')))))
    } else {
        None
    }
}

pub fn parse_nvidia_gpu(stdout: &str) -> (r: Option<GpuInfo>)
    ensures
        match nvidia_gpu_spec(stdout@) {
            Some((name, vram)) => r is Some && r->0.name@ == name && r->0.vram_mb == vram && r->0.vendor@
                == "NVIDIA"@,
            None => r is None,
        },
{
    let t = trim_text(stdout);
    match crate::text::find_char(t, ',') {
        None => None,
        Some(_) => {
            let name = trim_text(before_char(t, ','));
            let second = trim_text(before_char(after_char(t, ','), ','));
            Some(GpuInfo { name: name.to_owned(), vram_mb: parse_u64(second), vendor: "NVIDIA".to_owned() })
        },
    }
}

/// A line of `rocm-smi --showproductname` that names a GPU.
pub open spec fn names_gpu(line: Seq<char>) -> bool {
    contains_text(line, "GPU"@) || contains_text(line, "AMD"@) || contains_text(line, "Radeon"@)
}

/// The first line (up to a line feed) that names a GPU.
pub open spec fn first_gpu_line(s: Seq<char>) -> Option<Seq<char>>
    decreases s.len(),
    via first_gpu_line_decreases
{
    let line = prefix_before(s, '\n');
    if names_gpu(line) {
        Some(line)
    } else if has_char(s, '\n') {
        first_gpu_line(suffix_after(s, '\n'))
    } else {
        None
    }
}

#[via_fn]
proof fn first_gpu_line_decreases(s: Seq<char>) {
    if has_char(s, '\n') {
        lemma_first_pos(s, '\n');
    }
}

fn line_names_gpu(line: &str) -> (r: bool)
    ensures
        r == names_gpu(line@),
{
    has_text(line, "GPU") || has_text(line, "AMD") || has_text(line, "Radeon")
}

/// The AMD GPU named in `rocm-smi --showproductname` output, if any.
pub fn parse_amd_gpu(stdout: &str) -> (r: Option<GpuInfo>)
    ensures
        match first_gpu_line(stdout@) {
            Some(line) => r is Some && r->0.name@ == trimmed(line) && r->0.vram_mb is None && r->0.vendor@
                == "AMD"@,
            None => r is None,
        },
{
    let mut rest: &str = stdout;
    loop
        invariant
            first_gpu_line(rest@) == first_gpu_line(stdout@),
        decreases rest@.len(),
    {
        let line = before_char(rest, '\n');
        if line_names_gpu(line) {
            return Some(GpuInfo { name: trim_text(line).to_owned(), vram_mb: None, vendor: "AMD".to_owned() });
        }
        if crate::text::find_char(rest, '\n').is_none() {
            return None;
        }
        proof {
            lemma_first_pos(rest@, '\n');
        }
        rest = after_char(rest, '\n');
    }
}

/// The Apple chip named in a CPU brand string, for a brand that names Apple.
pub open spec fn apple_chip_name(brand: Seq<char>) -> Seq<char> {
    if contains_text(brand, "M1"@) {
        "Apple M1 GPU"@
    } else if contains_text(brand, "M2"@) {
        "Apple M2 GPU"@
    } else if contains_text(brand, "M3"@) {
        "Apple M3 GPU"@
    } else if contains_text(brand, "M4"@) {
        "Apple M4 GPU"@
    } else {
        "Apple Silicon GPU"@
    }
}

/// Apple silicon shares system memory with its GPU: given the CPU brand
/// string and the total memory in bytes, the GPU if the brand names Apple.
pub fn apple_silicon_gpu(cpu_brand: &str, total_memory_bytes: u64) -> (r: Option<GpuInfo>)
    ensures
        contains_text(cpu_brand@, "Apple"@) ==> r is Some && r->0.name@ == apple_chip_name(cpu_brand@)
            && r->0.vram_mb == Some((total_memory_bytes / 1024 / 1024) as u64) && r->0.vendor@ == "Apple"@,
        !contains_text(cpu_brand@, "Apple"@) ==> r is None,
{
    if !has_text(cpu_brand, "Apple") {
        return None;
    }
    let name = if has_text(cpu_brand, "M1") {
        "Apple M1 GPU"
    } else if has_text(cpu_brand, "M2") {
        "Apple M2 GPU"
    } else if has_text(cpu_brand, "M3") {
        "Apple M3 GPU"
    } else if has_text(cpu_brand, "M4") {
        "Apple M4 GPU"
    } else {
        "Apple Silicon GPU"
    };
    Some(GpuInfo { name: name.to_owned(), vram_mb: Some(total_memory_bytes / 1024 / 1024), vendor: "Apple".to_owned() })
}

} // verus!
