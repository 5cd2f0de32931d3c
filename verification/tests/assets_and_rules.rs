use std::collections::{BTreeSet, HashSet};
use wow_ui_sim::crafting::{
    add_output_item, consume_item_stacks, consume_reagents, count_item, free_bag0_slot,
    reagent_deltas, reagents_available, BagItem, Reagent,
};
use wow_ui_sim::font::{
    addon_font_path_tail, addon_font_wow_path, font_path_candidates, is_addon_font_file,
    normalize_wow_path, parse_hex_16,
    register_font_alias, register_font_aliases, FontMap,
};
use wow_ui_sim::game_rules::{
    button_texture_should_show, is_clamp_to_black_mode, is_known_spell, is_spellbook_book_type,
    resolve_file_data_id_path, selected_application_role, spell_icon, spell_name,
    timestamp_prefix, ButtonTextureState, DEFAULT_ICON,
};
use wow_ui_sim::saved_variables::{
    max_load_bytes_for, should_skip_load, SavedVariablesManager, WtfConfig,
};

#[test]
fn set_texture_wrap_parsing_is_case_insensitive_and_narrow() {
    assert!(is_clamp_to_black_mode("CLAMPTOBLACKADDITIVE"));
    assert!(is_clamp_to_black_mode("clamp to black additive".replace(' ', "").as_str()));
    assert!(!is_clamp_to_black_mode("CLAMP"));
    assert!(!is_clamp_to_black_mode("ADD"));
}

#[test]
fn wtf_paths_follow_the_account_realm_character_layout() {
    let c = WtfConfig::new("/wow/WTF", "ACC", "Realm", "Hero");
    assert_eq!(c.account_saved_vars_path(), "/wow/WTF/Account/ACC/SavedVariables");
    assert_eq!(c.character_saved_vars_path(), "/wow/WTF/Account/ACC/Realm/Hero/SavedVariables");
    assert_eq!(c.account_saved_vars_file("Addon"), "/wow/WTF/Account/ACC/SavedVariables/Addon.lua");
    assert_eq!(
        c.character_saved_vars_file("Addon"),
        "/wow/WTF/Account/ACC/Realm/Hero/SavedVariables/Addon.lua"
    );
    assert_eq!(c.account_bindings_cache_file(), "/wow/WTF/Account/ACC/bindings-cache.wtf");
    assert_eq!(
        c.character_click_bindings_cache_file(),
        "/wow/WTF/Account/ACC/Realm/Hero/click-bindings-cache.txt"
    );
    assert_eq!(c.edit_mode_account_cache_file(), "/wow/WTF/Account/ACC/edit-mode-cache-account.txt");
    assert_eq!(
        c.edit_mode_character_cache_file(),
        "/wow/WTF/Account/ACC/Realm/Hero/edit-mode-cache-character.txt"
    );
    let slash = WtfConfig::new("/wow/WTF/", "A", "R", "C");
    assert_eq!(slash.account_saved_vars_path(), "/wow/WTF/Account/A/SavedVariables");
}

#[test]
fn saved_variable_limit_is_opt_in() {
    assert_eq!(max_load_bytes_for(None), None);
    assert_eq!(max_load_bytes_for(Some("0")), None);
    assert_eq!(max_load_bytes_for(Some("8")), Some(8));
    assert_eq!(max_load_bytes_for(Some("+8")), Some(8));
    assert_eq!(max_load_bytes_for(Some("lots")), None);
    assert!(!should_skip_load(None, u64::MAX));
    assert!(should_skip_load(Some(8), 9));
    assert!(!should_skip_load(Some(8), 8));
}

#[test]
fn font_keys_are_upper_case_with_forward_slashes() {
    assert_eq!(normalize_wow_path("Fonts\\frizqt__.ttf"), "FONTS/FRIZQT__.TTF");
    assert_eq!(normalize_wow_path("a/b"), "A/B");
    assert_eq!(normalize_wow_path("Fonts\\Ärger.ttf"), normalize_wow_path("fonts/Ärger.TTF"));
    assert_eq!(
        font_path_candidates("Fonts\\ARIALN.TTF"),
        vec!["Fonts/ARIALN.TTF".to_string(), "Fonts\\ARIALN.TTF".to_string()]
    );
}

#[test]
fn font_aliases_resolve_any_spelling_and_fall_back_to_the_default() {
    let mut map = FontMap::new();
    assert_eq!(map.family_name(None), None);
    register_font_aliases(&["Fonts\\FRIZQT__.TTF", "Fonts\\frizqt__.ttf"], "Friz Quadrata", &mut map);
    register_font_alias("Fonts\\ARIALN.TTF", "Arial Narrow", &mut map);
    assert_eq!(map.family_name(Some("fonts/arialn.ttf")), Some("Arial Narrow"));
    assert_eq!(map.family_name(Some("Fonts\\unknown.ttf")), Some("Friz Quadrata"));
    assert_eq!(map.family_name(None), Some("Friz Quadrata"));
    assert_eq!(map.family_name(Some("fonts\\FrizQT__.TTF")), Some("Friz Quadrata"));
    assert_eq!(map.entries.len(), 2);
}

#[test]
fn encoding_keys_parse_as_sixteen_bytes() {
    let key = parse_hex_16("DB472FF5CA74465BAA066021CD837645").unwrap();
    assert_eq!(key[0], 0xDB);
    assert_eq!(key[15], 0x45);
    assert_eq!(parse_hex_16("db472ff5ca74465baa066021cd837645"), Some(key));
    assert_eq!(parse_hex_16("DB47"), None);
    assert_eq!(parse_hex_16("ZZ472FF5CA74465BAA066021CD837645"), None);
    assert_eq!(parse_hex_16("+B472FF5CA74465BAA066021CD837645").map(|k| k[0]), Some(0x0B));
}

#[test]
fn addon_font_paths_keep_their_tail() {
    let tail = addon_font_path_tail("Interface\\AddOns\\PugzUI\\media\\custom.ttf").unwrap();
    let tail: Vec<String> = tail.into_iter().map(|p| p.into_iter().collect()).collect();
    assert_eq!(tail, vec!["PugzUI", "media", "custom.ttf"]);
    assert!(addon_font_path_tail("Interface/AddOns/../x.ttf").is_none());
    assert!(addon_font_path_tail("Interface/AddOns").is_none());
    assert!(addon_font_path_tail("Fonts/x.ttf").is_none());
    assert!(addon_font_path_tail("interface/addons/a//b.ttf").is_none());
}

#[test]
fn spell_lookups_fall_back() {
    assert_eq!(spell_name(133, Some("Fireball")), "Fireball");
    assert_eq!(spell_name(42, None), "Spell 42");
    assert_eq!(spell_icon(None), DEFAULT_ICON);
    assert_eq!(spell_icon(Some("Interface/Icons/x")), "Interface/Icons/x");
    assert!(is_spellbook_book_type("pet"));
    assert!(!is_spellbook_book_type("PET"));
    let known: HashSet<u32> = [1u32, 2].into_iter().collect();
    assert!(is_known_spell(&known, 2));
    assert!(!is_known_spell(&known, 3));
}

#[test]
fn application_role_prefers_tank_then_healer() {
    assert_eq!(selected_application_role(true, true, true), "TANK");
    assert_eq!(selected_application_role(false, true, true), "HEALER");
    assert_eq!(selected_application_role(false, false, true), "DAMAGER");
    assert_eq!(selected_application_role(false, false, false), "");
}

#[test]
fn timestamps_show_hours_and_minutes() {
    assert_eq!(timestamp_prefix(None, 100), "");
    assert_eq!(timestamp_prefix(Some(""), 100), "");
    assert_eq!(timestamp_prefix(Some("none"), 100), "");
    assert_eq!(timestamp_prefix(Some("%H:%M"), 3 * 3600 + 5 * 60 + 59), "03:05 ");
    assert_eq!(timestamp_prefix(Some("x"), 25 * 3600), "01:00 ");
}

#[test]
fn button_textures_follow_the_button_state() {
    let up = ButtonTextureState { enabled: true, checked: false, button_state: 0 };
    let pushed = ButtonTextureState { enabled: true, checked: true, button_state: 1 };
    let off = ButtonTextureState { enabled: false, checked: true, button_state: 0 };
    assert!(button_texture_should_show(Some(up), "NormalTexture"));
    assert!(!button_texture_should_show(Some(pushed), "NormalTexture"));
    assert!(button_texture_should_show(Some(pushed), "PushedTexture"));
    assert!(button_texture_should_show(Some(off), "DisabledTexture"));
    assert!(!button_texture_should_show(Some(up), "HighlightTexture"));
    assert!(button_texture_should_show(Some(pushed), "CheckedTexture"));
    assert!(button_texture_should_show(Some(off), "DisabledCheckedTexture"));
    assert!(button_texture_should_show(None, "NormalTexture"));
    assert!(button_texture_should_show(Some(off), "Icon"));
}

#[test]
fn file_data_ids_map_to_interface_paths() {
    assert_eq!(resolve_file_data_id_path(7, Some("Icons/INV_Foo")), "Interface\\Icons\\INV_Foo");
    assert_eq!(resolve_file_data_id_path(136235, None), "136235");
}

fn bag(entries: &[((i32, i32), u32, i32)]) -> Vec<((i32, i32), BagItem)> {
    entries
        .iter()
        .map(|&(k, item_id, stack_count)| (k, BagItem { item_id, stack_count, hyperlink: None }))
        .collect()
}

#[test]
fn reagents_are_counted_and_checked() {
    let items = bag(&[((0, 1), 10, 3), ((1, 1), 10, 4), ((0, 2), 11, 1)]);
    assert_eq!(count_item(&items, 10), 7);
    let deltas = reagent_deltas(&vec![Reagent { item_id: 10, quantity: 2 }, Reagent { item_id: 11, quantity: 1 }], 2);
    assert_eq!(deltas, vec![(10, 4), (11, 2)]);
    assert!(!reagents_available(&items, &deltas));
    assert!(reagents_available(&items, &vec![(10, 7), (11, 1)]));
}

#[test]
fn stacks_are_taken_in_order_and_empty_slots_removed() {
    let mut items = bag(&[((0, 1), 10, 3), ((1, 1), 10, 4), ((0, 2), 11, 1)]);
    let mut affected = BTreeSet::new();
    consume_item_stacks(&mut items, 10, 5, &mut affected);
    assert_eq!(items[0].1.stack_count, 0);
    assert_eq!(items[1].1.stack_count, 2);
    assert_eq!(affected.into_iter().collect::<Vec<_>>(), vec![0, 1]);
    let mut items = bag(&[((0, 1), 10, 3), ((1, 1), 10, 4), ((0, 2), 11, 1)]);
    let mut affected = BTreeSet::new();
    consume_reagents(&mut items, &vec![(10, 3), (11, 1)], &mut affected);
    assert_eq!(items, bag(&[((1, 1), 10, 4)]));
    assert_eq!(affected.into_iter().collect::<Vec<_>>(), vec![0]);
}

#[test]
fn crafted_items_stack_or_take_the_first_free_slot() {
    let mut items = bag(&[((2, 5), 20, 1), ((0, 1), 30, 1)]);
    assert_eq!(add_output_item(&mut items, 20, 2), 2);
    assert_eq!(items[0].1.stack_count, 3);
    assert_eq!(free_bag0_slot(&items), (0, 2));
    assert_eq!(add_output_item(&mut items, 40, 1), 0);
    assert_eq!(items[2], ((0, 2), BagItem { item_id: 40, stack_count: 1, hyperlink: None }));
    let full: Vec<_> = (1..=16).map(|s| ((0, s), BagItem { item_id: 1, stack_count: 1, hyperlink: None })).collect();
    assert_eq!(free_bag0_slot(&full), (0, -1));
}

#[test]
fn saved_variables_manager_has_no_default_load_limit() {
    let manager = SavedVariablesManager::with_storage_dir("/tmp/sv-storage", None);
    assert!(manager.max_load_bytes.is_none());
}

#[test]
fn saved_variables_manager_defaults_and_storage_paths() {
    let mut manager = SavedVariablesManager::new(Some("/home/u/.local/share"), Some("1024"));
    assert_eq!(manager.storage_dir, "/home/u/.local/share/wow-sim/SavedVariables");
    assert_eq!(manager.max_load_bytes, Some(1024));
    assert!(manager.should_skip_load(1025));
    assert!(!manager.should_skip_load(1024));
    assert_eq!(
        manager.storage_path("Bagnon", false),
        "/home/u/.local/share/wow-sim/SavedVariables/Bagnon.lua"
    );
    assert_eq!(
        manager.storage_path("Bagnon", true),
        "/home/u/.local/share/wow-sim/SavedVariables/SimRealm/SimPlayer/Bagnon.lua"
    );
    manager.set_character("Thrall", "Durotar");
    assert_eq!(
        manager.storage_path("Bagnon", true),
        "/home/u/.local/share/wow-sim/SavedVariables/Durotar/Thrall/Bagnon.lua"
    );
    manager.set_max_load_bytes(None);
    assert!(!manager.should_skip_load(u64::MAX));
    let fallback = SavedVariablesManager::new(None, Some("0"));
    assert_eq!(fallback.storage_dir, "./wow-sim/SavedVariables");
    assert_eq!(fallback.max_load_bytes, None);
}

#[test]
fn registered_saved_variables_are_remembered_per_addon() {
    let mut manager = SavedVariablesManager::with_storage_dir("/sv", None);
    manager.remember_registered_vars("A", &["ADB".to_string()], &[]);
    manager.remember_registered_vars("B", &["BDB".to_string()], &["BCharDB".to_string()]);
    manager.remember_registered_vars("A", &[], &[]);
    let addons: Vec<String> = manager.registered_addons().into_iter().cloned().collect();
    assert_eq!(addons, vec!["A".to_string(), "B".to_string(), "B".to_string()]);
    assert_eq!(manager.registered_vars_for("A", false), Some(&vec!["ADB".to_string()]));
    assert_eq!(manager.registered_vars_for("A", true), None);
    assert_eq!(manager.registered_vars_for("B", true), Some(&vec!["BCharDB".to_string()]));
    manager.remember_registered_vars("A", &["ADB2".to_string()], &[]);
    assert_eq!(manager.registered_vars_for("A", false), Some(&vec!["ADB2".to_string()]));
}

#[test]
fn wtf_import_names_account_then_character_file_once() {
    let mut manager = SavedVariablesManager::with_storage_dir("/sv", None);
    assert!(manager.wtf_files_for_addon("BlizzMove").is_empty());
    manager.set_wtf_config(WtfConfig::new("/wow/WTF", "TestAccount", "TestRealm", "TestCharacter"));
    assert_eq!(manager.character_name, "TestCharacter");
    assert_eq!(manager.realm_name, "TestRealm");
    assert_eq!(manager.wtf_config().map(|c| c.account.as_str()), Some("TestAccount"));
    assert_eq!(
        manager.wtf_files_for_addon("BlizzMove"),
        vec![
            "/wow/WTF/Account/TestAccount/SavedVariables/BlizzMove.lua".to_string(),
            "/wow/WTF/Account/TestAccount/TestRealm/TestCharacter/SavedVariables/BlizzMove.lua"
                .to_string(),
        ]
    );
    assert_eq!(manager.record_wtf_load("BlizzMove", &[true, false]), 1);
    assert!(manager.wtf_files_for_addon("BlizzMove").is_empty());
    assert_eq!(manager.record_wtf_load("Other", &[false, false]), 0);
    assert!(manager.wtf_files_for_addon("Other").is_empty());
    assert_eq!(
        manager.wtf_loaded,
        vec![("BlizzMove".to_string(), true), ("Other".to_string(), false)]
    );
}

#[test]
fn wtf_import_counts_the_files_that_load_once() {
    let mut manager = SavedVariablesManager::with_storage_dir("/sv", None);
    assert_eq!(manager.load_wtf_for_addon("BlizzMove", |_| true), 0);
    assert!(manager.wtf_loaded.is_empty());
    manager.set_wtf_config(WtfConfig::new("/wow/WTF", "Acc", "Realm", "Char"));
    let only_account = |path: &str| path.ends_with("Account/Acc/SavedVariables/BlizzMove.lua");
    assert_eq!(manager.load_wtf_for_addon("BlizzMove", only_account), 1);
    assert_eq!(manager.load_wtf_for_addon("BlizzMove", |_| true), 0);
    assert_eq!(manager.load_wtf_for_addon("Other", |_| true), 2);
    assert_eq!(manager.load_wtf_for_addon("Missing", |_| false), 0);
    assert_eq!(
        manager.wtf_loaded,
        vec![("BlizzMove".to_string(), true), ("Other".to_string(), true), ("Missing".to_string(), false)]
    );
}

#[test]
fn addon_font_files_are_ttf_or_otf_and_named_under_addons() {
    assert!(is_addon_font_file("/addons/MyAddon/Fonts/Title.TTF"));
    assert!(is_addon_font_file("/addons/MyAddon/body.otf"));
    assert!(is_addon_font_file("/addons/.hidden/a.b.ttf"));
    assert!(!is_addon_font_file("/addons/MyAddon/.ttf"));
    assert!(!is_addon_font_file("/addons/MyAddon/readme.txt"));
    assert!(!is_addon_font_file("/addons/fonts.ttf/README"));
    assert_eq!(addon_font_wow_path("MyAddon\\Fonts\\Title.ttf"), "Interface/AddOns/MyAddon/Fonts/Title.ttf");
    assert_eq!(addon_font_wow_path("MyAddon/body.otf"), "Interface/AddOns/MyAddon/body.otf");
}
