//! User settings: whether locale filtering is bypassed, and optional pinned
//! positions for the scenario and the scene. Pinned positions are plain
//! indices into the loaded catalog; they are not stable identifiers, so an
//! out-of-range pin is tolerated by the selectors (treated as unset), never an
//! error.

use vstd::prelude::*;

verus! {

pub struct Settings {
    /// When true, scenario selection ignores the user's locale and draws from
    /// the full catalog.
    pub ignore_language: bool,
    /// Pinned position into the catalog's scenario list, if any.
    pub scenario_index: Option<usize>,
    /// Pinned position into the selected scenario's scene list, if any.
    pub scene_index: Option<usize>,
}

impl Clone for Settings {
    fn clone(&self) -> (r: Self)
        ensures
            r == *self,
    {
        Settings {
            ignore_language: self.ignore_language,
            scenario_index: self.scenario_index,
            scene_index: self.scene_index,
        }
    }
}

impl Default for Settings {
    /// The state used when no saved settings exist: locale filtering on,
    /// nothing pinned.
    fn default() -> (r: Self)
        ensures
            !r.ignore_language,
            r.scenario_index is None,
            r.scene_index is None,
    {
        Settings { ignore_language: false, scenario_index: None, scene_index: None }
    }
}

impl Settings {
    /// Changes the pinned scenario. A pin onto a different scenario also
    /// clears the scene pin, which indexed into the old scenario's scene
    /// list; re-pinning the same scenario changes nothing.
    pub fn set_scenario_index(&mut self, ix: Option<usize>)
        ensures
            old(self).scenario_index == ix ==> *final(self) == *old(self),
            old(self).scenario_index != ix ==> final(self).scenario_index == ix
                && final(self).scene_index is None
                && final(self).ignore_language == old(self).ignore_language,
    {
        if self.scenario_index != ix {
            self.scenario_index = ix;
            self.scene_index = None;
        }
    }

    /// Changes the pinned scene, leaving the rest untouched.
    pub fn set_scene_index(&mut self, ix: Option<usize>)
        ensures
            final(self).scene_index == ix,
            final(self).scenario_index == old(self).scenario_index,
            final(self).ignore_language == old(self).ignore_language,
    {
        self.scene_index = ix;
    }

    /// Switches locale filtering on or off, leaving the pins untouched.
    pub fn set_ignore_language(&mut self, ignore: bool)
        ensures
            final(self).ignore_language == ignore,
            final(self).scenario_index == old(self).scenario_index,
            final(self).scene_index == old(self).scene_index,
    {
        self.ignore_language = ignore;
    }
}

} // verus!
