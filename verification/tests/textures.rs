use std::path::Path;
use wow_ui_sim::texture_pixels::{extract_sub_region, TextureData};
use wow_ui_sim::texture_resolve::{
    blizzard_fallback_allowed_for, casc_media_fallback_allowed_for, crop_cache_file,
    in_dir_candidates, is_legacy_paperdoll_slot_path, is_safe_relative_path, join_path,
    normalize_crop_request_key, persistent_sub_region_cache_path, safe_crop_cache_prefix,
    strip_addons_prefix, sub_region_key, ResolveStep, TextureManager,
};

#[test]
fn generic_blizzard_assets_are_forbidden_in_black_only_policy() {
    let manager = TextureManager::new();
    let steps = manager.resolve_path_with_blizzard_fallback(
        "Interface/FrameGeneral/UI-Frame",
        blizzard_fallback_allowed_for(Some("1")),
        false,
        false,
    );
    assert_eq!(steps, Vec::<ResolveStep>::new());
}

#[test]
fn normal_mode_keeps_blizzard_fallback_enabled() {
    assert!(blizzard_fallback_allowed_for(None));
    assert!(blizzard_fallback_allowed_for(Some("0")));
}

#[test]
fn casc_media_requires_explicit_opt_in_for_a_black_stage() {
    assert!(!casc_media_fallback_allowed_for(None));
    assert!(!casc_media_fallback_allowed_for(Some("0")));
    assert!(casc_media_fallback_allowed_for(Some("1")));
    assert!(casc_media_fallback_allowed_for(Some("TRUE")));
}

#[test]
fn cropped_sub_region_bleeds_edge_rgb_into_low_alpha_black_padding() {
    let data = TextureData {
        width: 3,
        height: 1,
        pixels: vec![220, 180, 40, 255, 0, 0, 0, 96, 0, 0, 0, 0],
    };
    let cropped = extract_sub_region(&data, 0, 0, 3, 1).unwrap();
    assert_eq!(&cropped.pixels[4..8], &[220, 180, 40, 96]);
    assert_eq!(&cropped.pixels[8..12], &[220, 180, 40, 0]);
}

#[test]
fn persistent_crop_cache_path_includes_stable_hash_suffix() {
    let path = persistent_sub_region_cache_path("/tmp/crops", "Interface/Foo#1_2_3_4");
    let file_name = Path::new(&path).file_name().unwrap().to_string_lossy().to_string();
    assert!(file_name.starts_with("interface_foo_1_2_3_4-"));
    assert!(file_name.ends_with(".png"));
}

#[test]
fn addon_relative_traversal_and_absolute_components_are_rejected() {
    assert!(!is_safe_relative_path("../outside/marker"));
    assert!(!is_safe_relative_path("/outside/marker"));
    assert!(!is_safe_relative_path(r"C:\outside\marker"));
    let manager = TextureManager::new().with_addons_path("/addons");
    let steps = manager.resolve_path_with_blizzard_fallback(
        "Interface/AddOns/../outside/marker",
        false,
        false,
        false,
    );
    assert_eq!(
        steps,
        vec![ResolveStep::InDir { base: "/addons".to_string(), path: "../outside/marker".to_string() }]
    );
    assert!(in_dir_candidates("/addons", "../outside/marker").is_empty());
}

#[test]
fn safe_relative_paths_are_accepted() {
    assert!(is_safe_relative_path("PugzUI/assets/marker"));
    assert!(is_safe_relative_path("a/./b"));
    assert!(!is_safe_relative_path("./a"));
    assert!(!is_safe_relative_path("a\\..\\b"));
}

#[test]
fn crop_outside_the_texture_is_refused() {
    let data = TextureData { width: 2, height: 1, pixels: vec![1, 2, 3, 4, 5, 6, 7, 8] };
    assert!(extract_sub_region(&data, 1, 0, 2, 1).is_none());
    assert!(extract_sub_region(&data, 0, 1, 1, 1).is_none());
    let right = extract_sub_region(&data, 1, 0, 1, 1).unwrap();
    assert_eq!(right.pixels, vec![5, 6, 7, 8]);
}

#[test]
fn bleeding_keeps_alpha_and_skips_pixels_without_a_source() {
    let data = TextureData {
        width: 2,
        height: 1,
        pixels: vec![0, 0, 0, 10, 0, 0, 0, 20],
    };
    let cropped = extract_sub_region(&data, 0, 0, 2, 1).unwrap();
    assert_eq!(cropped.pixels, data.pixels);
}

#[test]
fn bleeding_looks_up_before_right() {
    let data = TextureData {
        width: 1,
        height: 2,
        pixels: vec![100, 200, 250, 255, 1, 1, 1, 0],
    };
    let cropped = extract_sub_region(&data, 0, 0, 1, 2).unwrap();
    assert_eq!(&cropped.pixels[4..8], &[100, 200, 250, 0]);
}

#[test]
fn addons_prefix_matches_in_any_case() {
    assert_eq!(strip_addons_prefix("interface/addons/Foo/bar"), Some("Foo/bar"));
    assert_eq!(strip_addons_prefix("Interface/Buttons/x"), None);
    assert_eq!(strip_addons_prefix("short"), None);
}

#[test]
fn legacy_paperdoll_slots_are_recognized() {
    assert!(is_legacy_paperdoll_slot_path("Interface/PaperDoll/UI-PaperDoll-Slot-Head"));
    assert!(!is_legacy_paperdoll_slot_path("Interface/PaperDoll/UI-Backpack"));
}

#[test]
fn crop_request_keys_normalize_only_the_base() {
    assert_eq!(normalize_crop_request_key("Interface\\Foo@crop:1\\2"), "Interface/Foo@crop:1\\2");
    assert_eq!(normalize_crop_request_key("Interface\\Foo"), "Interface/Foo");
}

#[test]
fn crop_cache_prefix_collapses_and_trims() {
    assert_eq!(safe_crop_cache_prefix("__A--b__"), "a_b");
    assert_eq!(safe_crop_cache_prefix(&"x".repeat(200)).len(), 96);
    assert_eq!(crop_cache_file("/r", "K", 255), "/r/k-00000000000000ff.png");
    assert_eq!(crop_cache_file("", "K", 1), "k-0000000000000001.png");
}

#[test]
fn texture_manager_caches_and_crops() {
    let mut manager = TextureManager::new();
    manager.insert_test_texture(
        "Interface\\Foo\\Atlas",
        TextureData { width: 2, height: 2, pixels: vec![1, 2, 3, 255, 4, 5, 6, 255, 7, 8, 9, 255, 10, 11, 12, 255] },
    );
    assert_eq!(manager.cache_len(), 1);
    assert_eq!(manager.cached_paths(), vec!["Interface/Foo/Atlas"]);
    assert_eq!(manager.get_texture_size("Interface/Foo/Atlas"), Some((2, 2)));
    let crop = manager.load_sub_region("Interface/Foo/Atlas", 1, 0, 1, 2).unwrap().clone();
    assert_eq!(crop.width, 1);
    assert_eq!(crop.height, 2);
    assert_eq!(crop.pixels, vec![4, 5, 6, 255, 10, 11, 12, 255]);
    let key = sub_region_key("Interface/Foo/Atlas", 1, 0, 1, 2);
    assert_eq!(key, "Interface/Foo/Atlas#1_0_1_2");
    assert_eq!(manager.get_cached_crop_request(&key).cloned(), Some(crop));
    assert!(manager.load_sub_region("Interface/Missing", 0, 0, 1, 1).is_none());
}

#[test]
fn crop_request_aliases_are_cached() {
    let mut manager = TextureManager::new();
    let data = TextureData { width: 1, height: 1, pixels: vec![9, 9, 9, 9] };
    let cached = manager.cache_crop_request_alias("A\\B@crop:x", &data).unwrap().clone();
    assert_eq!(cached, data);
    assert_eq!(manager.get_cached_crop_request("A/B@crop:x").cloned(), Some(data));
}

#[test]
fn unknown_sizes_are_read_once_and_cached() {
    let mut manager = TextureManager::new();
    let mut calls = 0;
    let dims = manager.get_or_load_texture_size("Interface\\X", |p| {
        calls += 1;
        assert_eq!(p, "Interface/X");
        Some((4, 8))
    });
    assert_eq!(dims, Some((4, 8)));
    assert_eq!(calls, 1);
    let again = manager.get_or_load_texture_size("Interface/X", |_| None);
    assert_eq!(again, Some((4, 8)));
}

#[test]
fn resolution_plan_tries_addons_then_casc_then_art() {
    let manager = TextureManager::new().with_addons_path("/a").with_addons_path("/b");
    let steps = manager.resolve_path("Interface/AddOns/X/y", None, None, false);
    assert_eq!(
        steps,
        vec![
            ResolveStep::InDir { base: "/a".to_string(), path: "X/y".to_string() },
            ResolveStep::InDir { base: "/b".to_string(), path: "X/y".to_string() },
            ResolveStep::Casc { path: "Interface/AddOns/X/y".to_string() },
            ResolveStep::BlizzardArt { path: "Interface/AddOns/X/y".to_string() },
        ]
    );
    let black = manager.resolve_path("Interface/Icons/Z", Some("true"), Some("1"), false);
    assert_eq!(black, vec![ResolveStep::Casc { path: "Interface/Icons/Z".to_string() }]);
}

#[test]
fn in_dir_candidates_try_each_extension_then_the_bare_path() {
    let c = in_dir_candidates("/base", "a/b");
    assert_eq!(c.len(), 11);
    assert_eq!(c[0], "/base/a/b.blp");
    assert_eq!(c[10], "/base/a/b");
}

#[test]
fn joining_follows_path_join() {
    assert_eq!(join_path("/wow/WTF", "Account"), "/wow/WTF/Account");
    assert_eq!(join_path("/wow/WTF/", "Account"), "/wow/WTF/Account");
    assert_eq!(join_path("", "Account"), "Account");
    assert_eq!(join_path("/wow/WTF", "/abs/Account"), "/abs/Account");
    assert_eq!(
        std::path::Path::new("/wow/WTF").join("/abs/Account").to_str(),
        Some(join_path("/wow/WTF", "/abs/Account").as_str())
    );
}

#[test]
fn crops_cut_from_a_texture_hold_their_pixels_and_are_given_back_again() {
    let mut manager = TextureManager::new();
    let pixels: Vec<u8> = (0..4 * 4 * 4).map(|v| v as u8).collect();
    manager.insert_test_texture("Interface\\Base", TextureData { width: 4, height: 4, pixels });
    let first = manager.load_sub_region("Interface/Base", 1, 1, 2, 3).cloned().expect("inside");
    assert_eq!((first.width, first.height, first.pixels.len()), (2, 3, 2 * 3 * 4));
    let again = manager.load_sub_region("Interface/Base", 1, 1, 2, 3).cloned().expect("cached");
    assert_eq!(first, again);
    assert!(manager.load_sub_region("Interface/Base", 3, 0, 2, 1).is_none());
}

#[test]
fn crop_cache_files_of_keys_with_one_prefix_differ_by_hash() {
    let a = persistent_sub_region_cache_path("/cache", "Interface/A#1_2_3_4");
    let b = persistent_sub_region_cache_path("/cache", "Interface/A#1_2_3_4 ");
    assert_eq!(a, persistent_sub_region_cache_path("/cache", "Interface/A#1_2_3_4"));
    assert_ne!(a, b);
    assert!(a.starts_with("/cache/interface_a_1_2_3_4-"));
    assert!(b.starts_with("/cache/interface_a_1_2_3_4-"));
}
