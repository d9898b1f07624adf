use koharu::buffer::crop_image;
use koharu::buffer::ImageBuf;
use koharu::host::get_available_ort_providers;
use koharu::host::get_cuda_device_name;
use koharu::host::summarize_timings;
use koharu::host::vendor_name;

#[test]
fn summarize_timings_exact_statistics() {
    let r = summarize_timings(vec![30, 10, 20], 768);
    assert_eq!(r.timings_ms, vec![30, 10, 20]);
    assert_eq!(r.avg_ms, 20);
    assert_eq!(r.min_ms, 10);
    assert_eq!(r.max_ms, 30);
    assert_eq!(r.target_size, 768);
    assert_eq!(r.iterations, 3);
    // The integer mean truncates.
    let odd = summarize_timings(vec![1, 2], 512);
    assert_eq!(odd.avg_ms, 1);
}

#[test]
fn vendor_names_by_pci_id() {
    assert_eq!(vendor_name(0x10DE), "NVIDIA");
    assert_eq!(vendor_name(0x1002), "AMD");
    assert_eq!(vendor_name(0x1022), "AMD");
    assert_eq!(vendor_name(0x8086), "Intel");
    assert_eq!(vendor_name(0xABCD), "Unknown");
}

#[test]
fn provider_queries_without_gpu_support() {
    assert_eq!(get_cuda_device_name(0), None);
    assert_eq!(get_available_ort_providers(), vec!["CPU".to_string()]);
}

#[test]
fn crop_image_copies_exact_pixels() {
    // A 3x2 image with one byte pattern per pixel.
    let mut data = Vec::new();
    for p in 0u8..6 {
        data.extend_from_slice(&[p, 10 + p, 20 + p, 255]);
    }
    let img = ImageBuf::new(data, 3, 2).unwrap();
    let crop = crop_image(&img, 1, 0, 2, 2);
    assert_eq!(crop.width, 2);
    assert_eq!(crop.height, 2);
    // Pixels 1, 2, 4, 5 of the source, in row order.
    assert_eq!(
        crop.data,
        vec![1, 11, 21, 255, 2, 12, 22, 255, 4, 14, 24, 255, 5, 15, 25, 255]
    );
}

#[test]
fn image_buf_checks_length() {
    assert!(ImageBuf::new(vec![0u8; 24], 3, 2).is_ok());
    assert!(ImageBuf::new(vec![0u8; 25], 3, 2).is_err());
}
