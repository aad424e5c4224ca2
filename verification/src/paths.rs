//! Locations of the bundled assets, relative to the asset root.

use vstd::prelude::*;

verus! {

/// Where the game's font and tileset assets live.
#[derive(Clone, Copy, Debug)]
pub struct AssetPaths {
    pub fira_sans: &'static str,
    pub texture_tileset: &'static str,
    pub ui_tileset: &'static str,
}

impl AssetPaths {
    /// The stock asset layout.
    pub fn defaults() -> (r: AssetPaths)
        ensures
            r.fira_sans@ == "fonts/FiraSans-Regular.ttf"@,
            r.texture_tileset@ == "textures/tileset.png"@,
            r.ui_tileset@ == "textures/ui_tileset.png"@,
    {
        AssetPaths {
            fira_sans: "fonts/FiraSans-Regular.ttf",
            texture_tileset: "textures/tileset.png",
            ui_tileset: "textures/ui_tileset.png",
        }
    }
}

} // verus!
