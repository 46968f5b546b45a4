use vstd::prelude::*;

use vstd::string::*;

use crate::text::{join, joined, str_eq, str_views};

verus! {

/// The scenes that can be rendered by name.
#[derive(Clone, Copy, Debug, PartialEq, Eq, Structural)]
pub enum SceneKind {
    /// Matte, glass and fuzzy metal balls over a yellow ground.
    Three,
    /// A solid and a hollow glass ball in front of coloured markers.
    Glass,
    /// A field of small random spheres around three large ones.
    Final,
}

/// The name under which a scene is asked for.
pub open spec fn kind_name(kind: SceneKind) -> Seq<char> {
    match kind {
        SceneKind::Three => "three"@,
        SceneKind::Glass => "glass"@,
        SceneKind::Final => "final"@,
    }
}

/// The scene that `name` asks for, if any.
pub open spec fn scene_for(name: Seq<char>) -> Option<SceneKind> {
    if name == "three"@ {
        Some(SceneKind::Three)
    } else if name == "glass"@ {
        Some(SceneKind::Glass)
    } else if name == "final"@ {
        Some(SceneKind::Final)
    } else {
        None
    }
}

/// Every scene name, in the order the usage text lists them.
pub const SCENE_NAMES: [&'static str; 3] = ["three", "glass", "final"];

impl SceneKind {
    /// The name under which this scene is asked for.
    pub fn name(&self) -> (r: &'static str)
        ensures
            r@ == kind_name(*self),
    {
        match self {
            SceneKind::Three => "three",
            SceneKind::Glass => "glass",
            SceneKind::Final => "final",
        }
    }
}

/// Resolves a scene name; `None` for a name that no scene has.
pub fn build(name: &str) -> (r: Option<SceneKind>)
    ensures
        r == scene_for(name@),
{
    if str_eq(name, "three") {
        Some(SceneKind::Three)
    } else if str_eq(name, "glass") {
        Some(SceneKind::Glass)
    } else if str_eq(name, "final") {
        Some(SceneKind::Final)
    } else {
        None
    }
}

/// Each scene is found again under its own name.
pub proof fn lemma_name_resolves(kind: SceneKind)
    ensures
        scene_for(kind_name(kind)) == Some(kind),
{
    reveal_strlit("three");
    reveal_strlit("glass");
    reveal_strlit("final");
    assert("three"@ != "glass"@) by { assert("three"@[0] != "glass"@[0]); }
    assert("three"@ != "final"@) by { assert("three"@[0] != "final"@[0]); }
    assert("glass"@ != "final"@) by { assert("glass"@[0] != "final"@[0]); }
}

/// Every advertised scene name resolves to a scene.
pub proof fn lemma_advertised_names_resolve(i: int)
    requires
        0 <= i < 3,
    ensures
        scene_for(SCENE_NAMES[i]@) is Some,
{
}


/// The message for a scene name that no scene has, listing the names that
/// do.
pub fn unknown_scene_message(name: &str) -> (r: String)
    ensures
        r@ == "unknown scene '"@ + name@ + "' (expected one of: "@ + joined(str_views(SCENE_NAMES@), ", "@)
            + ")"@,
{
    let mut r = "unknown scene '".to_owned();
    r.append(name);
    r.append("' (expected one of: ");
    let names = join(&SCENE_NAMES, ", ");
    r.append(names.as_str());
    r.append(")");
    r
}

} // verus!
