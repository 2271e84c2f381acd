use feelingwise::hardware::{apple_silicon_gpu, parse_amd_gpu, parse_nvidia_gpu, recommend_model, GpuInfo, GIB};

fn gpu(vram: Option<u64>, vendor: &str) -> Option<GpuInfo> {
    Some(GpuInfo { name: "card".to_string(), vram_mb: vram, vendor: vendor.to_string() })
}

#[test]
fn too_little_memory_cannot_run_locally() {
    assert_eq!(recommend_model(4 * GIB - 1, &None), ("none".to_string(), false));
}

#[test]
fn recommendations_by_memory_and_gpu() {
    assert_eq!(recommend_model(4 * GIB, &None), ("llama3.2:3b".to_string(), true));
    assert_eq!(recommend_model(8 * GIB, &None), ("phi3:mini".to_string(), true));
    assert_eq!(recommend_model(16 * GIB, &None), ("llama3:8b".to_string(), true));
    assert_eq!(recommend_model(8 * GIB, &gpu(Some(4000), "NVIDIA")), ("llama3:8b".to_string(), true));
    assert_eq!(recommend_model(8 * GIB, &gpu(Some(3999), "NVIDIA")), ("phi3:mini".to_string(), true));
    assert_eq!(recommend_model(6 * GIB, &gpu(Some(8000), "NVIDIA")), ("llama3.2:3b".to_string(), true));
    assert_eq!(recommend_model(6 * GIB, &gpu(None, "Apple")), ("phi3:mini".to_string(), true));
}

#[test]
fn nvidia_output_is_parsed() {
    let g = parse_nvidia_gpu("NVIDIA GeForce RTX 3060, 12288\n").expect("gpu");
    assert_eq!(g.name, "NVIDIA GeForce RTX 3060");
    assert_eq!(g.vram_mb, Some(12288));
    assert_eq!(g.vendor, "NVIDIA");
    let g = parse_nvidia_gpu("Some GPU, [N/A]").expect("gpu");
    assert_eq!(g.vram_mb, None);
    assert!(parse_nvidia_gpu("no comma here").is_none());
}

#[test]
fn amd_output_takes_first_gpu_line() {
    let out = "======= ROCm System Management Interface =======\n  Card series: Radeon RX 7900 XTX  \nCard vendor: AMD\n";
    let g = parse_amd_gpu(out).expect("gpu");
    assert_eq!(g.name, "Card series: Radeon RX 7900 XTX");
    assert_eq!(g.vendor, "AMD");
    assert_eq!(g.vram_mb, None);
    assert!(parse_amd_gpu("nothing\nhere\n").is_none());
}

#[test]
fn apple_silicon_from_brand() {
    let g = apple_silicon_gpu("Apple M2 Pro", 16 * GIB).expect("gpu");
    assert_eq!(g.name, "Apple M2 GPU");
    assert_eq!(g.vram_mb, Some(16384));
    assert_eq!(g.vendor, "Apple");
    assert_eq!(apple_silicon_gpu("Apple processor", GIB).unwrap().name, "Apple Silicon GPU");
    assert!(apple_silicon_gpu("Intel(R) Core(TM) i7", GIB).is_none());
}
