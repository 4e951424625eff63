//! The list of watched folders that the interface edits, with the folder
//! currently selected.
use vstd::prelude::*;

use crate::text::{append_str, chars_of, string_from_chars};

verus! {

/// A watched folder with its per-folder settings.
#[derive(Debug)]
pub struct WatchedFolder<S> {
    /// Input folder
    pub input: String,
    /// Output folder
    pub output: String,
    /// Preset name
    pub preset: String,
    /// Whether the folder is watched
    pub enabled: bool,
    /// Settings that override the configuration for this folder
    pub settings: S,
}

/// A folder as (input, output, preset, enabled).
pub open spec fn folder_view<S>(f: WatchedFolder<S>) -> (Seq<char>, Seq<char>, Seq<char>, bool) {
    (f.input@, f.output@, f.preset@, f.enabled)
}

/// The views of a list of folders.
pub open spec fn folder_views<S>(v: Seq<WatchedFolder<S>>) -> Seq<(Seq<char>, Seq<char>, Seq<char>, bool)> {
    v.map_values(|f: WatchedFolder<S>| folder_view(f))
}

/// The selection after the list has `len` folders: kept where it is still
/// in the list, else the last folder (the first where there is none).
pub open spec fn selection_within(selected: nat, len: nat) -> nat {
    if len == 0 {
        0
    } else if selected >= len {
        (len - 1) as nat
    } else {
        selected
    }
}

/// Where a file added to the queue goes (see [`FolderList::queue_target`]).
pub open spec fn queue_target_of(folders: Seq<(Seq<char>, Seq<char>, Seq<char>, bool)>, selected: nat) -> (Seq<char>, Seq<char>) {
    if selected < folders.len() {
        (folders[selected as int].1, folders[selected as int].2)
    } else {
        ("output"@, "youtube"@)
    }
}

/// The watched folders and the selected one.
pub struct FolderList<S> {
    folders: Vec<WatchedFolder<S>>,
    selected: usize,
}

impl<S> FolderList<S> {
    #[verifier::type_invariant]
    spec fn inv(self) -> bool {
        self.selected == 0 || self.selected < self.folders@.len()
    }

    /// The folders, in order.
    pub closed spec fn folders(self) -> Seq<(Seq<char>, Seq<char>, Seq<char>, bool)> {
        folder_views(self.folders@)
    }

    /// The per-folder settings, in the order of the folders.
    pub closed spec fn settings(self) -> Seq<S> {
        self.folders@.map_values(|f: WatchedFolder<S>| f.settings)
    }

    /// The position of the selected folder.
    pub closed spec fn selection(self) -> nat {
        self.selected as nat
    }

    fn take(&mut self) -> (r: (Vec<WatchedFolder<S>>, usize))
        ensures
            r.0@ == old(self).folders@,
            r.1 == old(self).selected,
            r.1 == 0 || r.1 < r.0@.len(),
    {
        let mut tmp = FolderList { folders: Vec::new(), selected: 0 };
        std::mem::swap(&mut tmp, self);
        proof {
            use_type_invariant(&tmp);
        }
        let FolderList { folders, selected } = tmp;
        (folders, selected)
    }

    /// A list of `folders`, the first one selected.
    pub fn new(folders: Vec<WatchedFolder<S>>) -> (r: Self)
        ensures
            r.folders() == folder_views(folders@),
            r.settings() == folders@.map_values(|f: WatchedFolder<S>| f.settings),
            r.selection() == 0,
    {
        FolderList { folders, selected: 0 }
    }

    /// The number of folders.
    pub fn len(&self) -> (r: usize)
        ensures
            r == self.folders().len(),
    {
        self.folders.len()
    }

    /// Folder `idx`, where there is one.
    pub fn get(&self, idx: usize) -> (r: Option<&WatchedFolder<S>>)
        ensures
            idx < self.folders().len() ==> (r matches Some(f) && folder_view(*f) == self.folders()[idx as int]
                && f.settings == self.settings()[idx as int]),
            idx >= self.folders().len() ==> r is None,
    {
        if idx < self.folders.len() {
            Some(&self.folders[idx])
        } else {
            None
        }
    }

    /// Where a file added to the queue is written and with which preset:
    /// the output folder and preset of the selected folder, or `output` and
    /// `youtube` where there is no folder.
    pub fn queue_target(&self) -> (r: (String, String))
        ensures
            (r.0@, r.1@) == queue_target_of(self.folders(), self.selection()),
    {
        match self.get(self.selected()) {
            Some(f) => (f.output.clone(), f.preset.clone()),
            None => ("output".to_string(), "youtube".to_string()),
        }
    }

    /// The position of the selected folder (0 where the list is empty).
    pub fn selected(&self) -> (r: usize)
        ensures
            r == self.selection(),
            r == 0 || r < self.folders().len(),
    {
        proof {
            use_type_invariant(self);
        }
        self.selected
    }

    /// Add a folder at the end; the selection stays.
    pub fn add(&mut self, folder: WatchedFolder<S>)
        ensures
            final(self).folders() == old(self).folders().push(folder_view(folder)),
            final(self).settings() == old(self).settings().push(folder.settings),
            final(self).selection() == old(self).selection(),
    {
        proof {
            use_type_invariant(&*self);
        }
        let ghost f = folder_view(folder);
        let ghost st = folder.settings;
        let (mut folders, selected) = self.take();
        folders.push(folder);
        assert(folder_views(folders@) =~= old(self).folders().push(f));
        assert(folders@.map_values(|f: WatchedFolder<S>| f.settings) =~= old(self).settings().push(st));
        *self = FolderList { folders, selected };
    }

    /// Replace the paths, preset and switch of folder `idx`, keeping its
    /// settings; nothing changes where there is no such folder. Returns
    /// whether it was there.
    pub fn update(&mut self, idx: usize, input: String, output: String, preset: String, enabled: bool) -> (r: bool)
        ensures
            r == (idx < old(self).folders().len()),
            r ==> final(self).folders() == old(self).folders().update(
                idx as int,
                (input@, output@, preset@, enabled),
            ),
            !r ==> final(self).folders() == old(self).folders(),
            final(self).settings() == old(self).settings(),
            final(self).selection() == old(self).selection(),
    {
        proof {
            use_type_invariant(&*self);
        }
        if idx >= self.folders.len() {
            return false;
        }
        let ghost before = folder_views(self.folders@);
        let (mut folders, selected) = self.take();
        let old_folder = folders.remove(idx);
        folders.insert(idx, WatchedFolder { input, output, preset, enabled, settings: old_folder.settings });
        proof {
            assert(folder_views(folders@) =~= before.update(idx as int, (input@, output@, preset@, enabled)));
            assert(folders@.map_values(|f: WatchedFolder<S>| f.settings) =~= old(self).settings());
        }
        *self = FolderList { folders, selected };
        true
    }

    /// Remove folder `idx`; the selection moves to the last folder where it
    /// would fall off the end.
    pub fn remove(&mut self, idx: usize)
        requires
            idx < old(self).folders().len(),
        ensures
            final(self).folders() == old(self).folders().remove(idx as int),
            final(self).settings() == old(self).settings().remove(idx as int),
            final(self).selection() == selection_within(
                old(self).selection(),
                (old(self).folders().len() - 1) as nat,
            ),
    {
        proof {
            use_type_invariant(&*self);
        }
        let ghost before = folder_views(self.folders@);
        let (mut folders, selected) = self.take();
        let _ = folders.remove(idx);
        assert(folder_views(folders@) =~= before.remove(idx as int));
        assert(folders@.map_values(|f: WatchedFolder<S>| f.settings) =~= old(self).settings().remove(idx as int));
        let len = folders.len();
        let sel = if len == 0 {
            0
        } else if selected >= len {
            len - 1
        } else {
            selected
        };
        *self = FolderList { folders, selected: sel };
    }

    /// Turn watching of folder `idx` on or off, keeping everything else;
    /// returns its new state, or none where there is no such folder (then
    /// nothing changes).
    pub fn toggle(&mut self, idx: usize) -> (r: Option<bool>)
        ensures
            idx < old(self).folders().len() ==> r == Some(!old(self).folders()[idx as int].3)
                && final(self).folders() == old(self).folders().update(
                idx as int,
                (
                    old(self).folders()[idx as int].0,
                    old(self).folders()[idx as int].1,
                    old(self).folders()[idx as int].2,
                    !old(self).folders()[idx as int].3,
                ),
            ),
            idx >= old(self).folders().len() ==> r is None && final(self).folders() == old(
                self,
            ).folders(),
            final(self).settings() == old(self).settings(),
            final(self).selection() == old(self).selection(),
    {
        proof {
            use_type_invariant(&*self);
        }
        if idx >= self.folders.len() {
            return None;
        }
        let ghost before = folder_views(self.folders@);
        let (mut folders, selected) = self.take();
        let f = folders.remove(idx);
        let enabled = !f.enabled;
        folders.insert(
            idx,
            WatchedFolder { input: f.input, output: f.output, preset: f.preset, enabled, settings: f.settings },
        );
        proof {
            assert(folder_views(folders@) =~= before.update(
                idx as int,
                (before[idx as int].0, before[idx as int].1, before[idx as int].2, !before[idx as int].3),
            ));
            assert(folders@.map_values(|f: WatchedFolder<S>| f.settings) =~= old(self).settings());
        }
        *self = FolderList { folders, selected };
        Some(enabled)
    }
}

impl<S: Clone> FolderList<S> {
    /// Add a copy of folder `idx` at the end, with `_copy` after both of
    /// its paths and a clone of its settings, and select it; nothing changes
    /// where there is no such folder. Returns whether it was there.
    pub fn duplicate(&mut self, idx: usize) -> (r: bool)
        ensures
            r == (idx < old(self).folders().len()),
            r ==> final(self).folders() == old(self).folders().push(
                (
                    old(self).folders()[idx as int].0 + "_copy"@,
                    old(self).folders()[idx as int].1 + "_copy"@,
                    old(self).folders()[idx as int].2,
                    old(self).folders()[idx as int].3,
                ),
            ),
            r ==> final(self).selection() == old(self).folders().len(),
            r ==> final(self).settings().len() == old(self).settings().len() + 1
                && final(self).settings().take(old(self).settings().len() as int) == old(self).settings()
                && cloned(old(self).settings()[idx as int], final(self).settings().last()),
            !r ==> final(self).settings() == old(self).settings(),
            !r ==> final(self).folders() == old(self).folders() && final(self).selection() == old(
                self,
            ).selection(),
    {
        proof {
            use_type_invariant(&*self);
        }
        if idx >= self.folders.len() {
            return false;
        }
        let ghost before = folder_views(self.folders@);
        let f = &self.folders[idx];
        let mut input = chars_of(f.input.as_str());
        append_str(&mut input, "_copy");
        let mut output = chars_of(f.output.as_str());
        append_str(&mut output, "_copy");
        let copy = WatchedFolder {
            input: string_from_chars(&input),
            output: string_from_chars(&output),
            preset: f.preset.clone(),
            enabled: f.enabled,
            settings: f.settings.clone(),
        };
        let (mut folders, _selected) = self.take();
        folders.push(copy);
        let last = folders.len() - 1;
        proof {
            assert(folder_views(folders@) =~= before.push(
                (before[idx as int].0 + "_copy"@, before[idx as int].1 + "_copy"@, before[idx as int].2, before[idx as int].3),
            ));
            assert(folders@.map_values(|f: WatchedFolder<S>| f.settings).take(old(self).settings().len() as int) =~= old(self).settings());
        }
        *self = FolderList { folders, selected: last };
        true
    }
}

/// The activity message after folder `input` was switched on or off.
pub open spec fn toggle_text(enabled: bool, input: Seq<char>) -> Seq<char> {
    "Folder "@ + (if enabled {
        "enabled"@
    } else {
        "disabled"@
    }) + " ("@ + input + ")"@
}

/// The activity message after folder `input` was switched on or off (see
/// [`toggle_text`]).
pub fn toggle_message(enabled: bool, input: &str) -> (r: String)
    ensures
        r@ == toggle_text(enabled, input@),
{
    let mut v: Vec<char> = chars_of("Folder ");
    if enabled {
        append_str(&mut v, "enabled");
    } else {
        append_str(&mut v, "disabled");
    }
    append_str(&mut v, " (");
    append_str(&mut v, input);
    append_str(&mut v, ")");
    string_from_chars(&v)
}

} // verus!
