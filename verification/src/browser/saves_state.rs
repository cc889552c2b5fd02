//! The save list on screen: not loaded, loaded row by row, or failed.

use vstd::prelude::*;
use vstd::string::StringExecFns;

use crate::browser::error::Error;
use crate::browser::save_entry::are_sprite_images;
use crate::browser::save_entry::first_fault;
use crate::browser::save_entry::is_fault_error;
use crate::browser::save_entry::needed_sheet;
use crate::browser::save_entry::needed_sheet_is_not_loaded;
use crate::browser::save_entry::SaveEntry;
use crate::browser::save_entry::SheetCache;
use crate::browser::save_entry::SheetRequest;
use crate::browser::save_widget::SaveWidget;
use crate::global::not_a_list_message;
use crate::global::parse_slots;
use crate::global::slot_view;
use crate::global::slots_of;
use crate::global::slots_view;
use crate::global::DecodeError;
use crate::global::GlobalEntry;
use crate::global::GlobalEntryView;
use crate::image::ImageView;
use crate::image::SpritesheetKind;
use crate::save::decompressed;
use crate::save::json_parsed;
use crate::save::Json;

verus! {

/// The save list on screen.
#[derive(Debug, Default)]
pub enum SavesState {
    /// There is no save list, or none that can be read.
    #[default]
    NotLoaded,
    /// One row for each slot, in the order of the files.
    Loaded { entries: Vec<SaveWidget> },
    /// The save list could not be shown.
    Error(Error),
}

/// Whether the sprites of an entry can all be cut out of the sheets that were loaded.
pub open spec fn can_show(
    cache: Map<(SpritesheetKind, Seq<char>), ImageView>,
    entry: GlobalEntryView,
) -> bool {
    &&& first_fault(cache, SpritesheetKind::Face, entry.faces, 0) is None
    &&& first_fault(cache, SpritesheetKind::Character, entry.characters, 0) is None
}

/// Whether a slot gives a row: an empty slot does, and a filled one whose sprites can
/// be cut. A slot that could not be read gives none.
pub open spec fn gives_row(
    cache: Map<(SpritesheetKind, Seq<char>), ImageView>,
    slot: Result<Option<GlobalEntryView>, DecodeError>,
) -> bool {
    match slot {
        Ok(None) => true,
        Ok(Some(entry)) => can_show(cache, entry),
        Err(_) => false,
    }
}

/// The place of the first slot, from `from` on, that gives no row.
pub open spec fn first_failure(
    cache: Map<(SpritesheetKind, Seq<char>), ImageView>,
    slots: Seq<Result<Option<GlobalEntryView>, DecodeError>>,
    from: int,
) -> Option<int>
    decreases slots.len() - from,
{
    if from < 0 || from >= slots.len() {
        None
    } else if !gives_row(cache, slots[from]) {
        Some(from)
    } else {
        first_failure(cache, slots, from + 1)
    }
}

/// The error is the one that tells why this slot gives no row: the message of the
/// decode error as a JSON error of the codecs, or the error of the first sprite that
/// cannot be cut.
pub open spec fn is_failure_of(
    e: Error,
    cache: Map<(SpritesheetKind, Seq<char>), ImageView>,
    slot: Result<Option<GlobalEntryView>, DecodeError>,
) -> bool {
    match slot {
        Err(d) => e matches Error::Lib(crate::error::Error::Json(m)) && m@ == d.message_text(),
        Ok(Some(entry)) => match first_fault(cache, SpritesheetKind::Face, entry.faces, 0) {
            Some(i) => is_fault_error(e, cache, SpritesheetKind::Face, entry.faces[i]),
            None => match first_fault(cache, SpritesheetKind::Character, entry.characters, 0) {
                Some(i) => is_fault_error(e, cache, SpritesheetKind::Character, entry.characters[i]),
                None => false,
            },
        },
        Ok(None) => false,
    }
}

/// The row is the one that shows this slot: it has the number of the slot, the pointer
/// is not over it, and it holds the entry of a filled slot with its sprites cut.
pub open spec fn is_row_of(
    widget: SaveWidget,
    cache: Map<(SpritesheetKind, Seq<char>), ImageView>,
    index: int,
    slot: Result<Option<GlobalEntryView>, DecodeError>,
) -> bool {
    &&& widget.file_index == index
    &&& !widget.is_hovered
    &&& match slot {
        Ok(None) => widget.save_entry is None,
        Ok(Some(entry)) => widget.save_entry matches Some(shown) && shown.global@ == entry
            && are_sprite_images(shown.face_images@, cache, SpritesheetKind::Face, entry.faces)
            && are_sprite_images(
            shown.character_images@,
            cache,
            SpritesheetKind::Character,
            entry.characters,
        ),
        Err(_) => false,
    }
}

/// The sheet that has to be loaded before the save list can be shown: the one that the
/// first slot that gives no row needs, if a sheet is what it needs.
pub open spec fn list_needed_sheet(
    cache: Map<(SpritesheetKind, Seq<char>), ImageView>,
    slots: Seq<Result<Option<GlobalEntryView>, DecodeError>>,
) -> Option<(SpritesheetKind, Seq<char>)> {
    match first_failure(cache, slots, 0) {
        Some(i) => match slots[i] {
            Ok(Some(entry)) => needed_sheet(cache, entry),
            _ => None,
        },
        None => None,
    }
}

/// A sheet that a save list asks for is one that was not loaded: once it is loaded, it
/// is not asked for again.
pub proof fn list_needed_sheet_is_not_loaded(
    cache: Map<(SpritesheetKind, Seq<char>), ImageView>,
    slots: Seq<Result<Option<GlobalEntryView>, DecodeError>>,
)
    ensures
        list_needed_sheet(cache, slots) matches Some(key) ==> !cache.contains_key(key),
{
    match first_failure(cache, slots, 0) {
        Some(i) => match slots[i] {
            Ok(Some(entry)) => {
                needed_sheet_is_not_loaded(cache, entry);
            },
            _ => {},
        },
        None => {},
    }
}

/// What reading the text of the save list file gives: nothing to show where there is no
/// text or it cannot be decompressed or parsed, a failure where it holds no list, and
/// else what each slot holds.
pub open spec fn is_read_of(
    r: Result<Vec<Result<Option<GlobalEntry>, DecodeError>>, SavesState>,
    text: Option<Seq<char>>,
) -> bool {
    match text {
        None => r matches Err(state) && state is NotLoaded,
        Some(packed) => match decompressed(packed) {
            Err(_) => r matches Err(state) && state is NotLoaded,
            Ok(json) => match json_parsed(json) {
                Err(_) => r matches Err(state) && state is NotLoaded,
                Ok(tree) => is_read_of_tree(r, tree),
            },
        },
    }
}

/// What reading a parsed save list gives: a failure where it is no list, and else what
/// each slot holds.
pub open spec fn is_read_of_tree(
    r: Result<Vec<Result<Option<GlobalEntry>, DecodeError>>, SavesState>,
    tree: crate::save::JsonTree,
) -> bool {
    match slots_of(tree) {
        None => r matches Err(SavesState::Error(Error::Global(m))) && m@ == not_a_list_message(),
        Some(slots) => r matches Ok(list) && slots_view(list@) == slots,
    }
}

impl SavesState {
    /// Reads a parsed save list into its slots.
    pub fn read_json(json: Json) -> (r: Result<
        Vec<Result<Option<GlobalEntry>, DecodeError>>,
        SavesState,
    >)
        ensures
            is_read_of_tree(r, json@),
    {
        let value = json.inner();
        match parse_slots(&value) {
            Some(slots) => Ok(slots),
            None => Err(
                SavesState::Error(Error::global_error(String::from_str("Invalid global file"))),
            ),
        }
    }

    /// Reads the text of the save list file into its slots. `None` stands for a file
    /// that could not be read.
    pub fn read_global(text: Option<&str>) -> (r: Result<
        Vec<Result<Option<GlobalEntry>, DecodeError>>,
        SavesState,
    >)
        ensures
            is_read_of(
                r,
                match text {
                    Some(packed) => Some(packed@),
                    None => None,
                },
            ),
    {
        match text {
            None => Err(SavesState::NotLoaded),
            Some(packed) => match Json::decompress(packed) {
                Ok(json) => Self::read_json(json),
                Err(_) => Err(SavesState::NotLoaded),
            },
        }
    }

    /// The sheet that has to be loaded next, if the save list waits for one.
    ///
    /// The slots are gone through in their order. The first that gives no row decides:
    /// where a sheet that was not loaded keeps it from giving one, that sheet is asked
    /// for, and else nothing is, as loading more would not help.
    pub fn missing_sheet(
        slots: &Vec<Result<Option<GlobalEntry>, DecodeError>>,
        file_cache: &SheetCache,
    ) -> (r: Option<SheetRequest>)
        ensures
            match list_needed_sheet(file_cache@, slots_view(slots@)) {
                Some((kind, file_name)) => r matches Some(request) && request.kind == kind
                    && request.file_name@ == file_name,
                None => r is None,
            },
    {
        let ghost views = slots_view(slots@);
        let mut i: usize = 0;
        while i < slots.len()
            invariant
                i <= slots@.len(),
                views == slots_view(slots@),
                first_failure(file_cache@, views, 0) == first_failure(file_cache@, views, i as int),
            decreases slots@.len() - i,
        {
            assert(views[i as int] == slot_view(slots@[i as int]));
            match &slots[i] {
                Ok(Some(entry)) => {
                    if !SaveEntry::can_be_shown(entry, file_cache) {
                        return SaveEntry::missing_sheet(entry, file_cache);
                    }
                },
                Ok(None) => {},
                Err(_) => {
                    return None;
                },
            }
            i += 1;
        }
        None
    }

    /// Makes the rows of the save list out of its slots and the sheets that were
    /// loaded.
    ///
    /// The slots are gone through in their order. An empty slot gives an empty row, a
    /// filled one a row with its sprites. The first slot that could not be read, or
    /// whose sprites cannot be cut, makes the whole list fail with its error.
    pub fn load_from_global(
        slots: Vec<Result<Option<GlobalEntry>, DecodeError>>,
        file_cache: &SheetCache,
    ) -> (state: SavesState)
        ensures
            match first_failure(file_cache@, slots_view(slots@), 0) {
                Some(i) => state matches SavesState::Error(e) && is_failure_of(
                    e,
                    file_cache@,
                    slots_view(slots@)[i],
                ),
                None => state matches SavesState::Loaded { entries } && entries@.len()
                    == slots@.len() && forall|i: int|
                    0 <= i < entries@.len() ==> is_row_of(
                        #[trigger] entries@[i],
                        file_cache@,
                        i,
                        slots_view(slots@)[i],
                    ),
            },
    {
        let ghost views = slots_view(slots@);
        let count = slots.len();
        let mut entries: Vec<SaveWidget> = Vec::with_capacity(count);
        for slot in iter: slots
            invariant
                views == slots_view(iter.seq()),
                iter.seq() == slots@,
                entries@.len() == iter.index(),
                first_failure(file_cache@, views, 0) == first_failure(
                    file_cache@,
                    views,
                    iter.index() as int,
                ),
                forall|i: int|
                    0 <= i < entries@.len() ==> is_row_of(
                        #[trigger] entries@[i],
                        file_cache@,
                        i,
                        views[i],
                    ),
        {
            let i = entries.len();
            assert(views[i as int] == slot_view(slot));
            match slot {
                Ok(Some(entry)) => match SaveEntry::new(entry, file_cache) {
                    Ok(shown) => {
                        entries.push(SaveWidget::new(i, shown));
                    },
                    Err(e) => {
                        return SavesState::Error(e);
                    },
                },
                Ok(None) => {
                    entries.push(SaveWidget::empty(i));
                },
                Err(d) => {
                    return SavesState::Error(Error::Lib(crate::error::Error::Json(d.message())));
                },
            }
        }
        SavesState::Loaded { entries }
    }
}

} // verus!
