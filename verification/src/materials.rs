//! Acoustic materials by name.
//!
//! Levels made in a map editor name their textures; the name says what
//! surface is meant. The settings map wildcard patterns to materials, and the
//! first pattern that matches a name decides.

use vstd::prelude::*;

verus! {

/// Whether the wildcard `pattern` matches all of `text`, letter case set
/// aside: what `wildmatch::WildMatch::new_case_insensitive(pattern)
/// .matches(text)` returns. In a pattern `?` stands for any one character and
/// `*` for any number of characters.
pub uninterp spec fn wildcard_matches(pattern: Seq<char>, text: Seq<char>) -> bool;

/// Builds the matcher of `pattern` with
/// `wildmatch::WildMatch::new_case_insensitive` and calls
/// `wildmatch::WildMatch::matches` on `text`. The result depends on the two
/// strings alone.
#[verifier::external_body]
fn pattern_matches(pattern: &str, text: &str) -> (matched: bool)
    ensures
        matched == wildcard_matches(pattern@, text@),
{
    wildmatch::WildMatch::new_case_insensitive(pattern).matches(text)
}

/// Which material a surface gets for the name of its texture.
pub struct TrenchBroomSteamAudioSettings<M> {
    /// Patterns and their materials. Earlier entries go first.
    pub material_mapping: Vec<(String, M)>,
}

/// The patterns of `mapping` with their materials.
pub open spec fn mapping_of<M>(mapping: Seq<(String, M)>) -> Seq<(Seq<char>, M)> {
    Seq::new(mapping.len(), |i: int| (mapping[i].0@, mapping[i].1))
}

/// The material of the first entry from `from` on whose pattern matches
/// `name`, and `fallback` where none does.
pub open spec fn material_from<M>(mapping: Seq<(Seq<char>, M)>, name: Seq<char>, fallback: M, from: int) -> M
    decreases mapping.len() - from,
{
    if from < 0 || from >= mapping.len() {
        fallback
    } else if wildcard_matches(mapping[from].0, name) {
        mapping[from].1
    } else {
        material_from(mapping, name, fallback, from + 1)
    }
}

impl<M: Copy> TrenchBroomSteamAudioSettings<M> {
    /// The patterns with their materials.
    pub open spec fn mapping(&self) -> Seq<(Seq<char>, M)> {
        mapping_of(self.material_mapping@)
    }

    /// Settings without a pattern: every name gets the fallback.
    pub fn empty() -> (settings: Self)
        ensures
            settings.mapping() == Seq::<(Seq<char>, M)>::empty(),
    {
        let settings = TrenchBroomSteamAudioSettings { material_mapping: Vec::new() };
        assert(settings.mapping() =~= Seq::<(Seq<char>, M)>::empty());
        settings
    }

    /// Adds `pattern` behind the patterns that are there.
    pub fn map_material(self, pattern: &str, material: M) -> (settings: Self)
        ensures
            settings.mapping() == self.mapping().push((pattern@, material)),
    {
        let mut settings = self;
        let owned = pattern.to_owned();
        settings.material_mapping.push((owned, material));
        assert(settings.mapping() =~= self.mapping().push((pattern@, material)));
        settings
    }

    /// The material for a surface whose texture is called `name`: that of
    /// the first pattern that matches, and `fallback` where none does.
    pub fn material_for(&self, name: &str, fallback: M) -> (material: M)
        ensures
            material == material_from(self.mapping(), name@, fallback, 0),
    {
        let count = self.material_mapping.len();
        let mut i: usize = 0;
        while i < count
            invariant
                i <= count,
                count == self.material_mapping@.len(),
                material_from(self.mapping(), name@, fallback, 0) == material_from(
                    self.mapping(),
                    name@,
                    fallback,
                    i as int,
                ),
            decreases count - i,
        {
            let entry = &self.material_mapping[i];
            assert(self.mapping()[i as int] == (entry.0@, entry.1));
            if pattern_matches(entry.0.as_str(), name) {
                return entry.1;
            }
            i += 1;
        }
        fallback
    }
}

} // verus!
