use wow_ui_sim::markup::strip_wow_markup;
use wow_ui_sim::animation::{group_loop_name, AnimationType, LoopType};

#[test]
fn strips_spell_link_before_wow_newline_escape() {
    assert_eq!(
        strip_wow_markup("|cFF2959D3|Hspell:1225135|h[Suppression Zones]|h|r|nNext"),
        "[Suppression Zones]\nNext"
    );
}

#[test]
fn plain_text_passes_through_markup_stripping() {
    assert_eq!(strip_wow_markup("Hello world"), "Hello world");
    assert_eq!(strip_wow_markup(""), "");
}

#[test]
fn color_codes_and_textures_are_removed() {
    assert_eq!(strip_wow_markup("|cffff0000Red|r text"), "Red text");
    assert_eq!(strip_wow_markup("a|Tinterface\\icons\\x:16|tb"), "ab");
}

#[test]
fn stripping_never_lengthens_text() {
    for s in ["|cffffffffx|r", "||pipe", "|n|n", "abc|", "|Hlink|hname|h"] {
        assert!(strip_wow_markup(s).chars().count() <= s.chars().count());
    }
}

#[test]
fn animation_types_parse_case_insensitively_and_round_trip() {
    assert_eq!(AnimationType::from_str("alpha").as_str(), "Alpha");
    assert_eq!(AnimationType::from_str("TRANSLATION").as_str(), "Translation");
    assert_eq!(AnimationType::from_str("Scale").as_str(), "Scale");
}

#[test]
fn loop_types_name_themselves() {
    assert_eq!(group_loop_name(LoopType::from_str("REPEAT")), "REPEAT");
    assert_eq!(group_loop_name(LoopType::from_str("bounce")), "BOUNCE");
    assert_eq!(group_loop_name(LoopType::from_str("whatever")), "NONE");
}

#[test]
fn animation_type_names_read_back_and_ignore_case() {
    let kinds = [
        AnimationType::Alpha,
        AnimationType::Translation,
        AnimationType::Scale,
        AnimationType::Rotation,
        AnimationType::LineTranslation,
        AnimationType::LineScale,
        AnimationType::Path,
        AnimationType::FlipBook,
        AnimationType::VertexColor,
        AnimationType::Animation,
    ];
    for kind in kinds {
        assert_eq!(AnimationType::from_str(kind.as_str()), kind);
        assert_eq!(
            AnimationType::from_str(&kind.as_str().to_ascii_uppercase()),
            AnimationType::from_str(kind.as_str())
        );
    }
    assert_eq!(AnimationType::TextureCoordTranslation.as_str(), "Animation");
    assert_eq!(AnimationType::from_str("texturecoordtranslation"), AnimationType::TextureCoordTranslation);
    assert_eq!(AnimationType::from_str("Bogus"), AnimationType::Animation);
    assert_eq!(AnimationType::from_str(""), AnimationType::Animation);
}
