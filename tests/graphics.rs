use base64::Engine;
use graphterm::bitmap::Bitmap;
use graphterm::graphics::{check_sixel_support, detect_protocol, GraphicsBackend, GraphicsProtocol};
use graphterm::icons::{generate_icon, get_extension, IconManager};
use graphterm::kitty::{clear, render, tile_sequence, CHUNK_SIZE};
use graphterm::sixel;
use graphterm::text::{contains, decimal_string};
use graphterm::thumbnails::{is_image_file, thumbnail_size, ThumbnailCache};
use graphterm::ui::Ui;
use std::cell::Cell;

fn solid(width: u32, height: u32, rgba: [u8; 4]) -> Bitmap {
    let mut pixels = Vec::new();
    for _ in 0..(width * height) {
        pixels.extend_from_slice(&rgba);
    }
    Bitmap::from_rgba(width, height, pixels).unwrap()
}

fn frames(seq: &str) -> Vec<&str> {
    seq.split_inclusive("\x1b\\").collect()
}

fn payload(frame: &str) -> &str {
    let start = frame.find(';').unwrap() + 1;
    &frame[start..frame.len() - 2]
}

fn inline_payload(seq: &str) -> &str {
    let start = seq.find(':').unwrap() + 1;
    &seq[start..seq.len() - 1]
}

fn decode_png(text: &str) -> image::RgbaImage {
    let bytes = base64::engine::general_purpose::STANDARD.decode(text).unwrap();
    image::load_from_memory_with_format(&bytes, image::ImageFormat::Png).unwrap().to_rgba8()
}

#[test]
fn test_small_image_encoding() {
    let data = vec![0u8; 100];
    let result = render(0, 0, 10, 10, &data);
    assert!(result.starts_with("\x1b_G"));
    assert!(result.ends_with("\x1b\\"));
}

#[test]
fn render_carries_base64_of_the_data() {
    let result = render(3, 7, 10, 10, &[0u8, 0, 0]);
    assert_eq!(result, "\x1b_Gf=100,a=T,t=d,c=10,r=10;AAAA\x1b\\");
}

#[test]
fn single_frame_at_the_chunk_size() {
    let body = "A".repeat(CHUNK_SIZE);
    let seq = tile_sequence("f=100", &body);
    assert_eq!(seq, format!("\x1b_Gf=100;{}\x1b\\", body));
}

#[test]
fn ten_thousand_symbols_make_three_frames() {
    let body: String = (0..10000).map(|i| (b'A' + (i % 26) as u8) as char).collect();
    let seq = tile_sequence("f=100,a=T,t=d,c=2,r=1", &body);
    let parts = frames(&seq);
    assert_eq!(parts.len(), 3);
    assert!(parts[0].starts_with("\x1b_Gf=100,a=T,t=d,c=2,r=1,m=1;"));
    assert!(parts[1].starts_with("\x1b_Gm=1;"));
    assert!(parts[2].starts_with("\x1b_Gm=0;"));
    for p in &parts {
        assert!(payload(p).len() <= 4096);
    }
    assert_eq!(payload(parts[0]).len(), 4096);
    assert_eq!(payload(parts[2]).len(), 10000 - 2 * 4096);
}

#[test]
fn chunk_payloads_rebuild_the_payload() {
    let body: String = (0..9000).map(|i| (b'a' + (i % 26) as u8) as char).collect();
    let seq = tile_sequence("f=100", &body);
    let joined: String = frames(&seq).iter().map(|f| payload(f)).collect();
    assert_eq!(joined, body);
}

#[test]
fn only_the_last_chunk_ends_the_transfer() {
    let body = "Q".repeat(3 * 4096 + 1);
    let seq = tile_sequence("f=100", &body);
    let parts = frames(&seq);
    assert_eq!(parts.len(), 4);
    let finals: Vec<usize> = (0..parts.len()).filter(|&i| parts[i].contains("m=0;")).collect();
    assert_eq!(finals, vec![3]);
}

#[test]
fn thumbnail_of_small_wide_image_is_one_tile_frame() {
    let backend = GraphicsBackend::new(GraphicsProtocol::Kitty);
    let cache = ThumbnailCache::new(backend);
    let seq = cache.thumbnail_sequence(&solid(300, 100, [10, 20, 30, 255]));
    assert_eq!(frames(&seq).len(), 1);
    assert!(seq.starts_with("\x1b_G"));
    assert!(seq.contains("f=100,a=T,t=d"));
    assert!(seq.starts_with("\x1b_Gf=100,a=T,t=d,c=17,r=3;"));
    let png = decode_png(payload(&seq));
    assert_eq!(png.dimensions(), (200, 67));
}

#[test]
fn inline_file_payload_decodes_to_the_source_pixels() {
    let mut pixels = Vec::new();
    for i in 0..(200u32 * 100) {
        pixels.extend_from_slice(&[(i % 251) as u8, (i % 7) as u8, 200, 255]);
    }
    let source = Bitmap::from_rgba(200, 100, pixels.clone()).unwrap();
    let cache = ThumbnailCache::new(GraphicsBackend::new(GraphicsProtocol::ITerm2));
    let seq = cache.thumbnail_sequence(&source);
    assert!(seq.starts_with("\x1b]1337;File=inline=1;preserveAspectRatio=1:"));
    assert!(seq.ends_with('\x07'));
    let png = decode_png(inline_payload(&seq));
    assert_eq!(png.dimensions(), (200, 100));
    assert_eq!(png.into_raw(), pixels);
}

#[test]
fn inline_icon_decodes_to_the_icon() {
    let mut icons = IconManager::new(GraphicsBackend::new(GraphicsProtocol::ITerm2));
    let seq = icons.get_icon_sequence("rs", false);
    assert!(seq.starts_with("\x1b]1337;File=inline=1;width=2;height=1:"));
    let png = decode_png(inline_payload(&seq));
    assert_eq!(png.into_raw(), generate_icon("rs", false).pixels);
}

#[test]
fn thumbnail_sizes_keep_proportions() {
    assert_eq!(thumbnail_size(300, 100), (200, 67));
    assert_eq!(thumbnail_size(100, 300), (67, 200));
    assert_eq!(thumbnail_size(640, 480), (200, 150));
    assert_eq!(thumbnail_size(50, 50), (200, 200));
    assert_eq!(thumbnail_size(1, 1000), (1, 200));
    assert_eq!(thumbnail_size(0, 0), (1, 200));
    let (w, h) = thumbnail_size(333, 250);
    let (sw, sh) = (333.0f64, 250.0f64);
    let diff = (w as f64 / h as f64 - sw / sh).abs();
    assert!(diff < 1.0 / (w.min(h) as f64));
}

#[test]
fn second_fetch_reuses_the_thumbnail() {
    let mut cache = ThumbnailCache::new(GraphicsBackend::new(GraphicsProtocol::Kitty));
    let calls = Cell::new(0);
    let first = cache.get_thumbnail("pics/cat.png", || {
        calls.set(calls.get() + 1);
        Some(solid(40, 20, [1, 2, 3, 255]))
    });
    let second = cache.get_thumbnail("pics/cat.png", || {
        calls.set(calls.get() + 1);
        Some(solid(40, 20, [9, 9, 9, 255]))
    });
    assert!(first.is_some());
    assert_eq!(first, second);
    assert_eq!(calls.get(), 1);
    cache.clear();
    let third = cache.get_thumbnail("pics/cat.png", || {
        calls.set(calls.get() + 1);
        Some(solid(40, 20, [9, 9, 9, 255]))
    });
    assert_eq!(calls.get(), 2);
    assert_ne!(third, first);
}

#[test]
fn thumbnail_fetch_failures_give_nothing() {
    let mut cache = ThumbnailCache::new(GraphicsBackend::new(GraphicsProtocol::Kitty));
    assert_eq!(cache.get_thumbnail("notes.txt", || Some(solid(2, 2, [0, 0, 0, 0]))), None);
    assert_eq!(cache.get_thumbnail("broken.png", || None), None);
    let bad = Bitmap { width: 4, height: 4, pixels: vec![0u8; 3] };
    assert_eq!(cache.get_thumbnail("bad.png", move || Some(bad)), None);
}

#[test]
fn second_icon_request_is_identical() {
    let mut icons = IconManager::new(GraphicsBackend::new(GraphicsProtocol::Kitty));
    let a = icons.get_icon_sequence("py", false);
    let b = icons.get_icon_sequence("py", false);
    assert_eq!(a, b);
    assert!(a.starts_with("\x1b_Gf=100,a=T,t=d,c=2,r=1;"));
}

#[test]
fn fallback_has_no_icons() {
    let mut icons = IconManager::new(GraphicsBackend::new(GraphicsProtocol::Fallback));
    assert_eq!(icons.get_icon_sequence("rs", false), "");
}

#[test]
fn window_id_outranks_inline_vendor() {
    assert_eq!(detect_protocol(true, None, Some("iTerm.app"), false), GraphicsProtocol::Kitty);
    assert_eq!(detect_protocol(false, Some("xterm-kitty"), Some("iTerm.app"), false), GraphicsProtocol::Kitty);
    assert_eq!(detect_protocol(false, Some("xterm"), Some("iTerm.app"), true), GraphicsProtocol::ITerm2);
    assert_eq!(detect_protocol(false, Some("xterm"), Some("iTerm"), true), GraphicsProtocol::Kitty);
    assert_eq!(detect_protocol(false, None, None, false), GraphicsProtocol::Fallback);
}

#[test]
fn icon_colors_by_category() {
    let unknown = generate_icon("zzz", false);
    assert_eq!(&unknown.pixels[(5 * 16 + 5) * 4..(5 * 16 + 5) * 4 + 4], &[180, 180, 180, 255]);
    let folder = generate_icon("rs", true);
    assert_eq!(&folder.pixels[(5 * 16 + 5) * 4..(5 * 16 + 5) * 4 + 4], &[100, 180, 255, 255]);
    assert_eq!(&folder.pixels[(16 + 3) * 4..(16 + 3) * 4 + 4], &[100, 180, 255, 255]);
    let rust = generate_icon("rs", false);
    assert_eq!(&rust.pixels[(5 * 16 + 5) * 4..(5 * 16 + 5) * 4 + 4], &[255, 100, 50, 255]);
    assert_eq!(&rust.pixels[(16 + 3) * 4..(16 + 3) * 4 + 4], &[0, 0, 0, 0]);
    assert_eq!(&rust.pixels[0..4], &[0, 0, 0, 0]);
}

#[test]
fn image_paths_by_extension() {
    assert!(is_image_file("photos/cat.PNG"));
    assert!(is_image_file("a.b/c.jpeg"));
    assert!(ThumbnailCache::is_image_file("x.webp"));
    assert!(!is_image_file("photos/.png"));
    assert!(!is_image_file("notes.txt"));
    assert!(!is_image_file("png"));
    assert!(!is_image_file("dir.png/file"));
}

#[test]
fn extensions_of_names() {
    assert_eq!(get_extension("archive.tar.gz"), "gz");
    assert_eq!(get_extension("Makefile"), "Makefile");
    assert_eq!(get_extension("trailing."), "");
}

#[test]
fn backend_dispatch() {
    let inline = GraphicsBackend::new(GraphicsProtocol::ITerm2);
    assert_eq!(inline.render_image(0, 0, 1, 1, &[0u8, 0, 0]), "\x1b]1337;File=inline=1;preserveAspectRatio=1:AAAA\x07");
    assert!(inline.supports_images());
    let raster = GraphicsBackend::new(GraphicsProtocol::Sixel);
    assert_eq!(raster.render_image(0, 0, 1, 1, &[1u8, 2, 3]), "");
    assert_eq!(sixel::render(0, 0, 1, 1, &[1u8]), "");
    let none = GraphicsBackend::from_environment(false, None, None, false);
    assert!(!none.supports_images());
    assert_eq!(none.render_image(0, 0, 1, 1, &[1u8]), "");
    assert!(!check_sixel_support());
    assert_eq!(clear(1, 2), "\x1b_Ga=d,d=a\x1b\\");
}

#[test]
fn text_helpers() {
    assert_eq!(decimal_string(0), "0");
    assert_eq!(decimal_string(4096), "4096");
    assert!(contains("xterm-kitty", "kitty"));
    assert!(!contains("kitt", "kitty"));
}

#[test]
fn bitmap_length_is_checked() {
    assert!(Bitmap::from_rgba(2, 2, vec![0u8; 16]).is_some());
    assert!(Bitmap::from_rgba(2, 2, vec![0u8; 15]).is_none());
}

#[test]
fn ui_selection_and_scrolling() {
    let mut ui = Ui::new();
    ui.move_selection(1, 3);
    assert_eq!(ui.selected_index, 1);
    ui.move_selection(5, 3);
    assert_eq!(ui.selected_index, 1);
    ui.move_selection(-2, 3);
    assert_eq!(ui.selected_index, 1);
    ui.scroll(-3);
    assert_eq!(ui.scroll_offset, 0);
    ui.scroll(3);
    assert_eq!(ui.scroll_offset, 3);
    assert_eq!(ui.get_item_at_position(3, 0), None);
    assert_eq!(ui.get_item_at_position(6, 0), Some(5));
    ui.toggle_sidebar();
    ui.toggle_preview();
    assert!(!ui.show_sidebar && !ui.show_preview);
}

#[test]
fn encoder_covers_cells_of_the_whole_image() {
    let cache = ThumbnailCache::new(GraphicsBackend::new(GraphicsProtocol::Kitty));
    let seq = cache.encode_thumbnail(&solid(300, 100, [5, 6, 7, 255]));
    assert_eq!(frames(&seq).len(), 1);
    assert!(seq.starts_with("\x1b_Gf=100,a=T,t=d,c=25,r=5;"));
    assert_eq!(decode_png(payload(&seq)).dimensions(), (300, 100));
    let inline = ThumbnailCache::new(GraphicsBackend::new(GraphicsProtocol::ITerm2));
    let seq = inline.encode_thumbnail(&solid(300, 100, [5, 6, 7, 255]));
    assert!(seq.starts_with("\x1b]1337;File=inline=1;preserveAspectRatio=1:"));
    let none = ThumbnailCache::new(GraphicsBackend::new(GraphicsProtocol::Sixel));
    assert_eq!(none.encode_thumbnail(&solid(3, 1, [0, 0, 0, 0])), "");
}

#[test]
fn build_thumbnail_handles_each_decode_outcome() {
    let mut cache = ThumbnailCache::new(GraphicsBackend::new(GraphicsProtocol::Kitty));
    assert_eq!(cache.build_thumbnail("a.png", None), None);
    let bad = Bitmap { width: 2, height: 2, pixels: vec![0u8; 15] };
    assert_eq!(cache.build_thumbnail("a.png", Some(bad)), None);
    let image = solid(30, 60, [1, 1, 1, 255]);
    let expected = cache.thumbnail_sequence(&image);
    assert_eq!(cache.build_thumbnail("a.png", Some(image)), Some(expected.clone()));
    assert_eq!(cache.build_thumbnail("a.png", None), Some(expected));
}

#[test]
fn trailing_separators_do_not_hide_the_extension() {
    assert!(is_image_file("a/b.png/"));
    assert!(is_image_file("a/b.png//./"));
    assert!(!is_image_file("a/."));
    assert!(!is_image_file("/"));
}

#[test]
fn a_folder_category_is_not_a_folder() {
    let mut icons = IconManager::new(GraphicsBackend::new(GraphicsProtocol::ITerm2));
    let folder = icons.get_icon_sequence("rs", true);
    let file = icons.get_icon_sequence("folder", false);
    assert_ne!(folder, file);
    assert_eq!(decode_png(inline_payload(&file)).into_raw(), generate_icon("folder", false).pixels);
    assert_eq!(icons.get_icon_sequence("md", true), folder);
}
