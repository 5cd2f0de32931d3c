//! Animation type and loop-mode names as WoW's `CreateAnimation` and
//! `SetLooping` accept them.

use vstd::prelude::*;
use crate::text::{eq_ic, eq_ignore_ascii_case, lower_char, upper_char, upper_seq};

verus! {

/// The animation kinds of `AnimationGroup:CreateAnimation`.
#[derive(Debug, Clone, Copy, PartialEq, Eq, Structural)]
pub enum AnimationType {
    Alpha,
    Translation,
    Scale,
    Rotation,
    LineTranslation,
    LineScale,
    Path,
    FlipBook,
    VertexColor,
    TextureCoordTranslation,
    Animation,
}

/// The animation kind a type name denotes, ignoring ASCII case; unknown names
/// (and `TextureCoordTranslation`'s own spelling aside) fall back to `Animation`.
pub open spec fn spec_animation_type(s: Seq<char>) -> AnimationType {
    if eq_ic(s, "ALPHA"@) {
        AnimationType::Alpha
    } else if eq_ic(s, "TRANSLATION"@) {
        AnimationType::Translation
    } else if eq_ic(s, "SCALE"@) {
        AnimationType::Scale
    } else if eq_ic(s, "ROTATION"@) {
        AnimationType::Rotation
    } else if eq_ic(s, "LINETRANSLATION"@) {
        AnimationType::LineTranslation
    } else if eq_ic(s, "LINESCALE"@) {
        AnimationType::LineScale
    } else if eq_ic(s, "PATH"@) {
        AnimationType::Path
    } else if eq_ic(s, "FLIPBOOK"@) {
        AnimationType::FlipBook
    } else if eq_ic(s, "VERTEXCOLOR"@) {
        AnimationType::VertexColor
    } else if eq_ic(s, "TEXTURECOORDTRANSLATION"@) {
        AnimationType::TextureCoordTranslation
    } else {
        AnimationType::Animation
    }
}

/// The name `GetObjectType` reports for each animation kind.
pub open spec fn spec_animation_type_name(t: AnimationType) -> Seq<char> {
    match t {
        AnimationType::Alpha => "Alpha"@,
        AnimationType::Translation => "Translation"@,
        AnimationType::Scale => "Scale"@,
        AnimationType::Rotation => "Rotation"@,
        AnimationType::LineTranslation => "LineTranslation"@,
        AnimationType::LineScale => "LineScale"@,
        AnimationType::Path => "Path"@,
        AnimationType::FlipBook => "FlipBook"@,
        AnimationType::VertexColor => "VertexColor"@,
        AnimationType::TextureCoordTranslation => "Animation"@,
        AnimationType::Animation => "Animation"@,
    }
}

impl AnimationType {
    /// Parses an animation type name case-insensitively.
    pub fn from_str(s: &str) -> (t: AnimationType)
        ensures
            t == spec_animation_type(s@),
    {
        if eq_ignore_ascii_case(s, "ALPHA") {
            AnimationType::Alpha
        } else if eq_ignore_ascii_case(s, "TRANSLATION") {
            AnimationType::Translation
        } else if eq_ignore_ascii_case(s, "SCALE") {
            AnimationType::Scale
        } else if eq_ignore_ascii_case(s, "ROTATION") {
            AnimationType::Rotation
        } else if eq_ignore_ascii_case(s, "LINETRANSLATION") {
            AnimationType::LineTranslation
        } else if eq_ignore_ascii_case(s, "LINESCALE") {
            AnimationType::LineScale
        } else if eq_ignore_ascii_case(s, "PATH") {
            AnimationType::Path
        } else if eq_ignore_ascii_case(s, "FLIPBOOK") {
            AnimationType::FlipBook
        } else if eq_ignore_ascii_case(s, "VERTEXCOLOR") {
            AnimationType::VertexColor
        } else if eq_ignore_ascii_case(s, "TEXTURECOORDTRANSLATION") {
            AnimationType::TextureCoordTranslation
        } else {
            AnimationType::Animation
        }
    }

    /// The object type name of this animation kind.
    pub fn as_str(&self) -> (r: &'static str)
        ensures
            r@ == spec_animation_type_name(*self),
    {
        match self {
            AnimationType::Alpha => "Alpha",
            AnimationType::Translation => "Translation",
            AnimationType::Scale => "Scale",
            AnimationType::Rotation => "Rotation",
            AnimationType::LineTranslation => "LineTranslation",
            AnimationType::LineScale => "LineScale",
            AnimationType::Path => "Path",
            AnimationType::FlipBook => "FlipBook",
            AnimationType::VertexColor => "VertexColor",
            AnimationType::TextureCoordTranslation => "Animation",
            AnimationType::Animation => "Animation",
        }
    }
}

proof fn lemma_lower_of_upper(c: char)
    ensures
        lower_char(upper_char(c)) == lower_char(c),
{
}

/// Matching ignoring ASCII case does not see upper-casing.
proof fn lemma_eq_ic_upper(s: Seq<char>, x: Seq<char>)
    ensures
        eq_ic(upper_seq(s), x) == eq_ic(s, x),
{
    if eq_ic(s, x) {
        assert forall|i: int| 0 <= i < upper_seq(s).len() implies lower_char(#[trigger] upper_seq(s)[i])
            == lower_char(x[i]) by {
            lemma_lower_of_upper(s[i]);
            assert(lower_char(s[i]) == lower_char(x[i]));
        }
    }
    if eq_ic(upper_seq(s), x) {
        assert forall|i: int| 0 <= i < s.len() implies lower_char(#[trigger] s[i]) == lower_char(x[i]) by {
            lemma_lower_of_upper(s[i]);
            assert(lower_char(upper_seq(s)[i]) == lower_char(x[i]));
        }
    }
}

/// An animation type name means the same kind once ASCII-upper-cased.
pub proof fn lemma_animation_type_ignores_upper_casing(s: Seq<char>)
    ensures
        spec_animation_type(upper_seq(s)) == spec_animation_type(s),
{
    lemma_eq_ic_upper(s, "ALPHA"@);
    lemma_eq_ic_upper(s, "TRANSLATION"@);
    lemma_eq_ic_upper(s, "SCALE"@);
    lemma_eq_ic_upper(s, "ROTATION"@);
    lemma_eq_ic_upper(s, "LINETRANSLATION"@);
    lemma_eq_ic_upper(s, "LINESCALE"@);
    lemma_eq_ic_upper(s, "PATH"@);
    lemma_eq_ic_upper(s, "FLIPBOOK"@);
    lemma_eq_ic_upper(s, "VERTEXCOLOR"@);
    lemma_eq_ic_upper(s, "TEXTURECOORDTRANSLATION"@);
}

/// The name of every animation kind reads back as that kind, except
/// `TextureCoordTranslation`, which reports itself as `Animation`.
pub proof fn lemma_animation_type_name_round_trip(t: AnimationType)
    ensures
        t != AnimationType::TextureCoordTranslation ==> spec_animation_type(spec_animation_type_name(t)) == t,
        spec_animation_type(spec_animation_type_name(AnimationType::TextureCoordTranslation))
            == AnimationType::Animation,
{
    reveal_strlit("Alpha");
    reveal_strlit("Translation");
    reveal_strlit("Scale");
    reveal_strlit("Rotation");
    reveal_strlit("LineTranslation");
    reveal_strlit("LineScale");
    reveal_strlit("Path");
    reveal_strlit("FlipBook");
    reveal_strlit("VertexColor");
    reveal_strlit("Animation");
    reveal_strlit("ALPHA");
    reveal_strlit("TRANSLATION");
    reveal_strlit("SCALE");
    reveal_strlit("ROTATION");
    reveal_strlit("LINETRANSLATION");
    reveal_strlit("LINESCALE");
    reveal_strlit("PATH");
    reveal_strlit("FLIPBOOK");
    reveal_strlit("VERTEXCOLOR");
    reveal_strlit("TEXTURECOORDTRANSLATION");
    assert(eq_ic("Alpha"@, "ALPHA"@)) by {
        assert forall|i: int| 0 <= i < 5 implies lower_char(#[trigger] "Alpha"@[i]) == lower_char("ALPHA"@[i]) by {
            assert(i == 0 || i == 1 || i == 2 || i == 3 || i == 4);
        }
    }
    assert(eq_ic("Translation"@, "TRANSLATION"@)) by {
        assert forall|i: int| 0 <= i < 11 implies lower_char(#[trigger] "Translation"@[i]) == lower_char("TRANSLATION"@[i]) by {
            assert(i == 0 || i == 1 || i == 2 || i == 3 || i == 4 || i == 5 || i == 6 || i == 7 || i == 8 || i == 9 || i == 10);
        }
    }
    assert(eq_ic("Scale"@, "SCALE"@)) by {
        assert forall|i: int| 0 <= i < 5 implies lower_char(#[trigger] "Scale"@[i]) == lower_char("SCALE"@[i]) by {
            assert(i == 0 || i == 1 || i == 2 || i == 3 || i == 4);
        }
    }
    assert(eq_ic("Rotation"@, "ROTATION"@)) by {
        assert forall|i: int| 0 <= i < 8 implies lower_char(#[trigger] "Rotation"@[i]) == lower_char("ROTATION"@[i]) by {
            assert(i == 0 || i == 1 || i == 2 || i == 3 || i == 4 || i == 5 || i == 6 || i == 7);
        }
    }
    assert(eq_ic("LineTranslation"@, "LINETRANSLATION"@)) by {
        assert forall|i: int| 0 <= i < 15 implies lower_char(#[trigger] "LineTranslation"@[i]) == lower_char("LINETRANSLATION"@[i]) by {
            assert(i == 0 || i == 1 || i == 2 || i == 3 || i == 4 || i == 5 || i == 6 || i == 7 || i == 8 || i == 9 || i == 10 || i == 11 || i == 12 || i == 13 || i == 14);
        }
    }
    assert(eq_ic("LineScale"@, "LINESCALE"@)) by {
        assert forall|i: int| 0 <= i < 9 implies lower_char(#[trigger] "LineScale"@[i]) == lower_char("LINESCALE"@[i]) by {
            assert(i == 0 || i == 1 || i == 2 || i == 3 || i == 4 || i == 5 || i == 6 || i == 7 || i == 8);
        }
    }
    assert(eq_ic("Path"@, "PATH"@)) by {
        assert forall|i: int| 0 <= i < 4 implies lower_char(#[trigger] "Path"@[i]) == lower_char("PATH"@[i]) by {
            assert(i == 0 || i == 1 || i == 2 || i == 3);
        }
    }
    assert(eq_ic("FlipBook"@, "FLIPBOOK"@)) by {
        assert forall|i: int| 0 <= i < 8 implies lower_char(#[trigger] "FlipBook"@[i]) == lower_char("FLIPBOOK"@[i]) by {
            assert(i == 0 || i == 1 || i == 2 || i == 3 || i == 4 || i == 5 || i == 6 || i == 7);
        }
    }
    assert(eq_ic("VertexColor"@, "VERTEXCOLOR"@)) by {
        assert forall|i: int| 0 <= i < 11 implies lower_char(#[trigger] "VertexColor"@[i]) == lower_char("VERTEXCOLOR"@[i]) by {
            assert(i == 0 || i == 1 || i == 2 || i == 3 || i == 4 || i == 5 || i == 6 || i == 7 || i == 8 || i == 9 || i == 10);
        }
    }
    assert(lower_char("Scale"@[0]) != lower_char("ALPHA"@[0]));
    assert(lower_char("FlipBook"@[0]) != lower_char("ROTATION"@[0]));
    assert(lower_char("VertexColor"@[0]) != lower_char("TRANSLATION"@[0]));
    assert(lower_char("Animation"@[0]) != lower_char("LINESCALE"@[0]));
}

/// Looping modes of an animation group.
#[derive(Debug, Clone, Copy, PartialEq, Eq, Structural)]
pub enum LoopType {
    NoLoop,
    Repeat,
    Bounce,
}

/// The looping mode a name denotes, ignoring ASCII case; unknown names mean `NoLoop` (no looping).
pub open spec fn spec_loop_type(s: Seq<char>) -> LoopType {
    if eq_ic(s, "REPEAT"@) {
        LoopType::Repeat
    } else if eq_ic(s, "BOUNCE"@) {
        LoopType::Bounce
    } else {
        LoopType::NoLoop
    }
}

/// The upper-case name `GetLooping` reports for each looping mode.
pub open spec fn spec_loop_name(l: LoopType) -> Seq<char> {
    match l {
        LoopType::NoLoop => "NONE"@,
        LoopType::Repeat => "REPEAT"@,
        LoopType::Bounce => "BOUNCE"@,
    }
}

impl LoopType {
    /// Parses a looping mode name case-insensitively.
    pub fn from_str(s: &str) -> (l: LoopType)
        ensures
            l == spec_loop_type(s@),
    {
        if eq_ignore_ascii_case(s, "REPEAT") {
            LoopType::Repeat
        } else if eq_ignore_ascii_case(s, "BOUNCE") {
            LoopType::Bounce
        } else {
            LoopType::NoLoop
        }
    }
}

/// The name an animation group reports for its looping mode.
pub fn group_loop_name(looping: LoopType) -> (r: &'static str)
    ensures
        r@ == spec_loop_name(looping),
{
    match looping {
        LoopType::NoLoop => "NONE",
        LoopType::Repeat => "REPEAT",
        LoopType::Bounce => "BOUNCE",
    }
}

} // verus!
