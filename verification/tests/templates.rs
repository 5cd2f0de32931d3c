use wow_ui_sim::template::{
    append_unique_mixins, clear_templates, collect_anim_group_mixins, collect_font_string_mixins,
    collect_inherited_mixins, collect_key_values, collect_texture_key_values, collect_texture_mixins,
    get_anim_group_template, get_font_string_template, get_template, get_template_chain,
    get_template_lifecycle_flags, register_anim_group_template, register_font_string_template,
    register_intrinsic_templates, register_mists_compat_templates, register_template,
    register_texture_template, resolve_frame_type, resolve_texture_inheritance, TemplateRegistry,
};
use wow_ui_sim::template_xml::{
    AnimationGroupXml, FontStringXml, FrameChildElement, FrameXml, KeyValueXml, MaskedTextureXml,
    ScriptsXml, TextureXml,
};

fn frame(inherits: Option<&str>, mixin: Option<&str>) -> FrameXml {
    let mut f = FrameXml::empty();
    f.inherits = inherits.map(str::to_string);
    f.mixin = mixin.map(str::to_string);
    f
}

#[test]
fn intrinsic_templates_register_engine_frames_and_button_frame_parts() {
    let mut reg = TemplateRegistry::new();
    register_intrinsic_templates(&mut reg);

    let scroll_box = get_template(&reg, "WoWScrollBoxList").expect("scroll box list intrinsic");
    assert_eq!(scroll_box.widget_type, "Frame");
    assert_eq!(scroll_box.frame.inherits.as_deref(), Some("ScrollBoxBaseTemplate"));
    assert_eq!(scroll_box.frame.mixin.as_deref(), Some("ScrollBoxListMixin"));

    let button_frame = get_template(&reg, "ButtonFrameTemplate").expect("button frame intrinsic");
    assert_eq!(button_frame.widget_type, "Frame");
    assert_eq!(button_frame.frame.children.len(), 1);
    let FrameChildElement::Frame(inset) = &button_frame.frame.children[0] else {
        panic!("ButtonFrameTemplate child should be an inset frame");
    };
    assert_eq!(inset.parent_key.as_deref(), Some("Inset"));
    assert_eq!(inset.inherits.as_deref(), Some("InsetFrameTemplate"));
}

#[test]
fn templates_are_found_in_any_case() {
    let mut reg = TemplateRegistry::new();
    register_template(&mut reg, "DropdownButton", "Button", frame(None, None));
    assert_eq!(get_template(&reg, "DROPDOWNBUTTON").unwrap().name, "DropdownButton");
    assert!(get_template(&reg, "Nope").is_none());
    clear_templates(&mut reg);
    assert!(get_template(&reg, "DropdownButton").is_none());
}

#[test]
fn chains_list_bases_first_once_each() {
    let mut reg = TemplateRegistry::new();
    register_template(&mut reg, "Base", "Frame", frame(None, None));
    register_template(&mut reg, "Mid", "Frame", frame(Some("Base"), None));
    register_template(&mut reg, "Leaf", "Button", frame(Some("Mid, Base"), None));
    register_template(&mut reg, "Loop", "Frame", frame(Some("Loop"), None));
    let names: Vec<&str> = get_template_chain(&reg, " Leaf ").iter().map(|e| e.name.as_str()).collect();
    assert_eq!(names, vec!["Base", "Mid", "Leaf"]);
    let names: Vec<&str> = get_template_chain(&reg, "Mid,Leaf").iter().map(|e| e.name.as_str()).collect();
    assert_eq!(names, vec!["Base", "Mid", "Leaf"]);
    assert_eq!(get_template_chain(&reg, "Loop").len(), 1);
    assert!(get_template_chain(&reg, "  ").is_empty());
    assert!(get_template_chain(&reg, "Unknown").is_empty());
}

#[test]
fn lifecycle_flags_come_from_any_template_of_the_chain() {
    let mut reg = TemplateRegistry::new();
    let mut base = frame(None, None);
    base.scripts = Some(ScriptsXml { on_load: vec!["self:Init()".into()], on_show: vec![] });
    register_template(&mut reg, "Base", "Frame", base);
    let mut leaf = frame(Some("Base"), None);
    leaf.scripts = Some(ScriptsXml { on_load: vec![], on_show: vec!["self:Show()".into()] });
    register_template(&mut reg, "Leaf", "Frame", leaf);
    assert_eq!(get_template_lifecycle_flags(&reg, "Leaf"), (true, true));
    assert_eq!(get_template_lifecycle_flags(&reg, "Base"), (true, false));
    assert_eq!(get_template_lifecycle_flags(&reg, ""), (false, false));
}

#[test]
fn mixins_are_collected_once_in_order() {
    let mut mixins = vec!["A".to_string()];
    append_unique_mixins(&mut mixins, Some(" B, A ,,C "));
    assert_eq!(mixins, vec!["A", "B", "C"]);
    let all = collect_inherited_mixins(&vec![Some("P1, P2".to_string()), None, Some("P2".to_string())], Some("Own, P1"));
    assert_eq!(all, vec!["P1", "P2", "Own"]);
}

#[test]
fn element_mixins_come_through_their_templates() {
    let mut reg = TemplateRegistry::new();
    let mut fs = FontStringXml::empty();
    fs.mixin = Some("FontMixin".into());
    register_font_string_template(&mut reg, "FsT", fs);
    assert!(get_font_string_template(&reg, "FsT").is_some());
    assert_eq!(collect_font_string_mixins(&reg, Some("FsT, Missing"), Some("Own")), vec!["FontMixin", "Own"]);

    let mut tex = TextureXml::empty();
    tex.mixin = Some("TexMixin".into());
    register_texture_template(&mut reg, "TexT", tex);
    let mut inst = TextureXml::empty();
    inst.inherits = Some("TexT".into());
    assert_eq!(collect_texture_mixins(&reg, &inst), vec!["TexMixin"]);

    register_anim_group_template(&mut reg, "AgT", AnimationGroupXml { inherits: None, mixin: Some("AgMixin".into()) });
    assert!(get_anim_group_template(&reg, "AgT").is_some());
    let group = AnimationGroupXml { inherits: Some("AgT".into()), mixin: Some("AgMixin".into()) };
    assert_eq!(collect_anim_group_mixins(&reg, &group), vec!["AgMixin"]);
}

fn kv(key: &str, value: &str) -> KeyValueXml {
    KeyValueXml { key: key.into(), value: value.into(), value_type: None }
}

#[test]
fn texture_key_values_come_from_templates_then_the_texture() {
    let mut reg = TemplateRegistry::new();
    let mut base = TextureXml::empty();
    base.key_values = Some(vec![kv("a", "1")]);
    register_texture_template(&mut reg, "Base", base);
    let mut mid = TextureXml::empty();
    mid.inherits = Some("Base".into());
    mid.key_values = Some(vec![kv("b", "2")]);
    register_texture_template(&mut reg, "Mid", mid);
    let mut inst = TextureXml::empty();
    inst.inherits = Some("Mid, Base".into());
    inst.key_values = Some(vec![kv("c", "3")]);
    let keys: Vec<String> = collect_texture_key_values(&reg, &inst).into_iter().map(|k| k.key).collect();
    assert_eq!(keys, vec!["a", "b", "c"]);
}

#[test]
fn texture_inheritance_overlays_templates_and_keeps_identity() {
    let mut reg = TemplateRegistry::new();
    let mut a = TextureXml::empty();
    a.file = Some("A.blp".into());
    a.atlas = Some("AtlasA".into());
    a.name = Some("TemplateName".into());
    register_texture_template(&mut reg, "A", a);
    let mut b = TextureXml::empty();
    b.file = Some("B.blp".into());
    b.alpha_mode = Some("ADD".into());
    register_texture_template(&mut reg, "B", b);
    let mut inst = TextureXml::empty();
    inst.inherits = Some("A, B".into());
    inst.name = Some("Mine".into());
    inst.hidden = Some(true);
    let r = resolve_texture_inheritance(&reg, &inst);
    assert_eq!(r.file.as_deref(), Some("B.blp"));
    assert_eq!(r.atlas.as_deref(), Some("AtlasA"));
    assert_eq!(r.name.as_deref(), Some("Mine"));
    assert_eq!(r.hidden, Some(true));
    assert_eq!(r.alpha_mode.as_deref(), Some("ADD"));
    assert_eq!(r.blend_mode.as_deref(), Some("ADD"));
    assert_eq!(r.inherits.as_deref(), Some("A, B"));
    let mut lone = TextureXml::empty();
    lone.inherits = Some("Nothing".into());
    lone.file = Some("x".into());
    assert_eq!(resolve_texture_inheritance(&reg, &lone), lone);
}

#[test]
fn mists_compat_templates_cover_addon_basics() {
    let mut reg = TemplateRegistry::new();
    register_mists_compat_templates(&mut reg);
    assert_eq!(get_template(&reg, "BackdropTemplate").unwrap().frame.mixin.as_deref(), Some("BackdropTemplateMixin"));
    assert_eq!(get_template(&reg, "ButtonFrameTemplate").unwrap().frame.inherits.as_deref(), Some("PortraitFrameTemplate"));
    assert_eq!(get_template(&reg, "SearchBoxTemplate").unwrap().widget_type, "EditBox");
    assert_eq!(get_template(&reg, "UIPanelScrollFrameTemplate").unwrap().widget_type, "ScrollFrame");
    let names: Vec<&str> = get_template_chain(&reg, "ButtonFrameTemplate").iter().map(|e| e.name.as_str()).collect();
    assert_eq!(names, vec!["PortraitFrameTemplate", "ButtonFrameTemplate"]);
}

#[test]
fn frame_type_is_the_most_derived_set_widget_type() {
    let mut reg = TemplateRegistry::new();
    register_template(&mut reg, "Base", "Frame", frame(None, None));
    register_template(&mut reg, "Mid", "Button", frame(Some("Base"), None));
    register_template(&mut reg, "Leaf", "", frame(Some("Mid"), None));
    register_template(&mut reg, "Untyped", "", frame(None, None));
    let chain = get_template_chain(&reg, "Mid");
    assert_eq!(resolve_frame_type(&chain), "Button");
    // the most derived template has no type: the first typed one from the base on
    let chain = get_template_chain(&reg, "Leaf");
    assert_eq!(resolve_frame_type(&chain), "Frame");
    let chain = get_template_chain(&reg, "Untyped");
    assert_eq!(resolve_frame_type(&chain), "Frame");
    assert_eq!(resolve_frame_type(&[]), "Frame");
}

#[test]
fn template_key_values_are_collected_bases_first() {
    let mut reg = TemplateRegistry::new();
    let mut base = frame(None, None);
    base.key_values = vec![kv("layoutIndex", "1"), kv("align", "left")];
    let mut leaf = frame(Some("Base"), None);
    leaf.key_values = vec![KeyValueXml {
        key: "layoutIndex".to_string(),
        value: "2".to_string(),
        value_type: Some("number".to_string()),
    }];
    register_template(&mut reg, "Base", "Frame", base);
    register_template(&mut reg, "Leaf", "Frame", leaf);
    let chain = get_template_chain(&reg, "Leaf");
    let values = collect_key_values(&chain);
    let flat: Vec<(&str, &str, Option<&str>)> = values
        .iter()
        .map(|v| (v.key.as_str(), v.value.as_str(), v.value_type.as_deref()))
        .collect();
    assert_eq!(
        flat,
        vec![("layoutIndex", "1", None), ("align", "left", None), ("layoutIndex", "2", Some("number"))]
    );
}

#[test]
fn inherited_textures_keep_their_own_scripts_animations_and_masks() {
    let mut reg = TemplateRegistry::new();
    let mut base = TextureXml::empty();
    base.file = Some("Base.blp".into());
    base.scripts = Some(ScriptsXml { on_load: vec!["TemplateOnLoad".into()], on_show: vec![] });
    base.masked_textures = Some(vec![MaskedTextureXml { child_key: Some("Other".into()) }]);
    base.animations = Some(vec![AnimationGroupXml { inherits: None, mixin: Some("TemplateAnim".into()) }]);
    register_texture_template(&mut reg, "Base", base);
    let mut inst = TextureXml::empty();
    inst.inherits = Some("Base".into());
    inst.masked_textures = Some(vec![MaskedTextureXml { child_key: Some("Portrait".into()) }]);
    let r = resolve_texture_inheritance(&reg, &inst);
    assert_eq!(r.file.as_deref(), Some("Base.blp"));
    assert_eq!(r.scripts, None);
    assert_eq!(r.animations, None);
    assert_eq!(r.masked_textures, Some(vec![MaskedTextureXml { child_key: Some("Portrait".into()) }]));
}
