//! The save list: one slot for each save file, empty or filled.

use vstd::prelude::*;
use vstd::string::StringExecFns;

use crate::error::Error;
use crate::error::LzErrorKind;
use crate::save::decompressed;
use crate::save::fields_view;
use crate::save::is_nested_within;
use crate::save::items_view;
use crate::save::json_parsed;
use crate::save::json_printed;
use crate::save::lemma_tree_of;
use crate::save::lz_compressed;
use crate::save::Json;
use crate::save::JsonTree;
use crate::save::SaveValue;
use crate::save::MAX_NESTING;
use crate::save::MAX_TEXT_LEN;

verus! {

/// A sprite of a sheet: the name of the sheet's file, and the sprite's number in it.
#[derive(Debug, PartialEq, Eq)]
pub struct SpriteInfo {
    pub file_name: String,
    pub sprite_index: usize,
}

/// What a `SpriteInfo` holds.
pub struct SpriteInfoView {
    pub file_name: Seq<char>,
    pub sprite_index: nat,
}

impl View for SpriteInfo {
    type V = SpriteInfoView;

    open spec fn view(&self) -> SpriteInfoView {
        SpriteInfoView { file_name: self.file_name@, sprite_index: self.sprite_index as nat }
    }
}

/// The last millisecond that a timestamp can name: the end of the year 262142.
pub const MAX_TIMESTAMP_MILLIS: i64 = 8_210_266_876_799_999;

/// A moment in time, in milliseconds since the start of 1970, not before it and not
/// after `MAX_TIMESTAMP_MILLIS`.
#[derive(Debug, PartialEq, Eq, Clone, Copy)]
pub struct DateTime {
    millis: i64,
}

/// Calls `chrono::DateTime::from_timestamp_millis` and says whether it made a date. It
/// makes none for a number of milliseconds that is out of range; the last moment in
/// range is `chrono::DateTime::<Utc>::MAX_UTC`, the last nanosecond of the year 262142.
#[verifier::external_body]
fn is_chrono_timestamp(millis: i64) -> (r: bool)
    requires
        0 <= millis,
    ensures
        r == (millis <= MAX_TIMESTAMP_MILLIS),
{
    chrono::DateTime::from_timestamp_millis(millis).is_some()
}

impl DateTime {
    #[verifier::type_invariant]
    spec fn is_in_range(self) -> bool {
        0 <= self.millis <= MAX_TIMESTAMP_MILLIS
    }

    /// The milliseconds since the start of 1970.
    pub closed spec fn millis(self) -> int {
        self.millis as int
    }

    /// The moment that many milliseconds after the start of 1970, if there is one.
    pub fn from_timestamp_millis(millis: i64) -> (r: Option<Self>)
        ensures
            r is Some <==> 0 <= millis <= MAX_TIMESTAMP_MILLIS,
            r matches Some(moment) ==> moment.millis() == millis,
    {
        if millis < 0 || !is_chrono_timestamp(millis) {
            None
        } else {
            Some(DateTime { millis })
        }
    }

    /// The milliseconds since the start of 1970.
    pub fn timestamp_millis(&self) -> (millis: i64)
        ensures
            millis == self.millis(),
            0 <= millis <= MAX_TIMESTAMP_MILLIS,
    {
        proof {
            use_type_invariant(self);
        }
        self.millis
    }
}

/// A filled save slot.
#[derive(Debug, PartialEq, Eq)]
pub struct GlobalEntry {
    pub characters: Vec<SpriteInfo>,
    pub faces: Vec<SpriteInfo>,
    pub global_id: String,
    pub playtime: String,
    pub timestamp: DateTime,
    pub title: String,
}

/// What a `GlobalEntry` holds.
pub struct GlobalEntryView {
    pub characters: Seq<SpriteInfoView>,
    pub faces: Seq<SpriteInfoView>,
    pub global_id: Seq<char>,
    pub playtime: Seq<char>,
    pub timestamp: int,
    pub title: Seq<char>,
}

/// What a list of sprites holds.
pub open spec fn sprites_view(sprites: Seq<SpriteInfo>) -> Seq<SpriteInfoView> {
    Seq::new(sprites.len(), |i: int| sprites[i]@)
}

impl View for GlobalEntry {
    type V = GlobalEntryView;

    open spec fn view(&self) -> GlobalEntryView {
        GlobalEntryView {
            characters: sprites_view(self.characters@),
            faces: sprites_view(self.faces@),
            global_id: self.global_id@,
            playtime: self.playtime@,
            timestamp: self.timestamp.millis(),
            title: self.title@,
        }
    }
}

/// The save list: the slots in the order of their files.
#[derive(Debug)]
pub struct Global(pub Vec<Option<GlobalEntry>>);

/// The fields of a filled slot, in the order in which they are read.
#[derive(Debug, PartialEq, Eq, Clone, Copy, Structural)]
pub enum Field {
    Characters,
    Faces,
    GlobalId,
    Playtime,
    Timestamp,
    Title,
}

impl Field {
    /// The name of the field in the JSON object.
    pub open spec fn name(self) -> Seq<char> {
        match self {
            Field::Characters => "characters"@,
            Field::Faces => "faces"@,
            Field::GlobalId => "globalId"@,
            Field::Playtime => "playtime"@,
            Field::Timestamp => "timestamp"@,
            Field::Title => "title"@,
        }
    }

    /// The name of the field in the JSON object.
    pub fn key(&self) -> (key: &'static str)
        ensures
            key@ == self.name(),
    {
        match self {
            Field::Characters => "characters",
            Field::Faces => "faces",
            Field::GlobalId => "globalId",
            Field::Playtime => "playtime",
            Field::Timestamp => "timestamp",
            Field::Title => "title",
        }
    }
}

/// Why a slot of the save list could not be read.
#[derive(Debug, PartialEq, Eq, Clone, Copy, Structural)]
pub enum DecodeError {
    /// The slot is neither `null` nor an object.
    NotASlot,
    /// The object has no field of this name.
    MissingField(Field),
    /// The field is not of the JSON type that it must have.
    InvalidField(Field),
    /// The timestamp is an integer that names no moment.
    TimestampOutOfRange,
}

impl DecodeError {
    /// The error in words.
    pub open spec fn message_text(self) -> Seq<char> {
        match self {
            DecodeError::NotASlot => "invalid type: expected null or an object"@,
            DecodeError::MissingField(field) => "missing field `"@ + field.name() + "`"@,
            DecodeError::InvalidField(field) => "invalid type for field `"@ + field.name() + "`"@,
            DecodeError::TimestampOutOfRange => "timestamp out of range"@,
        }
    }

    /// The error in words.
    pub fn message(&self) -> (text: String)
        ensures
            text@ == self.message_text(),
    {
        match self {
            DecodeError::NotASlot => String::from_str("invalid type: expected null or an object"),
            DecodeError::MissingField(field) => String::from_str("missing field `").concat(
                field.key(),
            ).concat("`"),
            DecodeError::InvalidField(field) => String::from_str(
                "invalid type for field `",
            ).concat(field.key()).concat("`"),
            DecodeError::TimestampOutOfRange => String::from_str("timestamp out of range"),
        }
    }
}

/// The value of the field called `name`: where several fields have that name, the last.
pub open spec fn field_of(fields: Seq<(Seq<char>, JsonTree)>, name: Seq<char>) -> Option<JsonTree>
    decreases fields.len(),
{
    if fields.len() == 0 {
        None
    } else if fields.last().0 == name {
        Some(fields.last().1)
    } else {
        field_of(fields.drop_last(), name)
    }
}

/// The integer that a JSON number is, if it is one.
pub open spec fn integer_of(tree: JsonTree) -> Option<int> {
    match tree {
        JsonTree::PosInt(n) => Some(n as int),
        JsonTree::NegInt(n) => Some(n as int),
        _ => None,
    }
}

/// The text that a JSON string is.
pub open spec fn text_of(tree: JsonTree) -> Option<Seq<char>> {
    match tree {
        JsonTree::String(text) => Some(text),
        _ => None,
    }
}

/// The sprite that a pair `[fileName, index]` names: an array of exactly a string and an
/// integer that can number a sprite.
pub open spec fn sprite_of(tree: JsonTree) -> Option<SpriteInfoView> {
    match tree {
        JsonTree::Array(items) => if items.len() == 2 {
            match (text_of(items[0]), integer_of(items[1])) {
                (Some(name), Some(index)) => if 0 <= index <= usize::MAX {
                    Some(SpriteInfoView { file_name: name, sprite_index: index as nat })
                } else {
                    None
                },
                _ => None,
            }
        } else {
            None
        },
        _ => None,
    }
}

/// The sprites that an array of pairs names, if every item of it names one.
pub open spec fn sprites_of(tree: JsonTree) -> Option<Seq<SpriteInfoView>> {
    match tree {
        JsonTree::Array(items) => if forall|i: int|
            0 <= i < items.len() ==> (#[trigger] sprite_of(items[i])) is Some {
            Some(Seq::new(items.len(), |i: int| sprite_of(items[i]).unwrap()))
        } else {
            None
        },
        _ => None,
    }
}

/// The moment that a JSON number names.
pub open spec fn timestamp_of(tree: JsonTree) -> Result<int, DecodeError> {
    match integer_of(tree) {
        Some(millis) => if 0 <= millis <= MAX_TIMESTAMP_MILLIS {
            Ok(millis)
        } else {
            Err(DecodeError::TimestampOutOfRange)
        },
        None => Err(DecodeError::InvalidField(Field::Timestamp)),
    }
}

/// What is wrong with one field of an object, if anything is.
pub open spec fn field_error(fields: Seq<(Seq<char>, JsonTree)>, field: Field) -> Option<
    DecodeError,
> {
    match field_of(fields, field.name()) {
        None => Some(DecodeError::MissingField(field)),
        Some(tree) => match field {
            Field::Characters | Field::Faces => if sprites_of(tree) is Some {
                None
            } else {
                Some(DecodeError::InvalidField(field))
            },
            Field::GlobalId | Field::Playtime | Field::Title => if text_of(tree) is Some {
                None
            } else {
                Some(DecodeError::InvalidField(field))
            },
            Field::Timestamp => match timestamp_of(tree) {
                Ok(_) => None,
                Err(e) => Some(e),
            },
        },
    }
}

/// What is wrong with the first field of an object that is not in order, the fields
/// taken as `Field` lists them.
pub open spec fn first_error(fields: Seq<(Seq<char>, JsonTree)>) -> Option<DecodeError> {
    if field_error(fields, Field::Characters) is Some {
        field_error(fields, Field::Characters)
    } else if field_error(fields, Field::Faces) is Some {
        field_error(fields, Field::Faces)
    } else if field_error(fields, Field::GlobalId) is Some {
        field_error(fields, Field::GlobalId)
    } else if field_error(fields, Field::Playtime) is Some {
        field_error(fields, Field::Playtime)
    } else if field_error(fields, Field::Timestamp) is Some {
        field_error(fields, Field::Timestamp)
    } else {
        field_error(fields, Field::Title)
    }
}

/// The entry that an object with all its fields in order holds.
pub open spec fn entry_of(fields: Seq<(Seq<char>, JsonTree)>) -> GlobalEntryView {
    GlobalEntryView {
        characters: sprites_of(field_of(fields, Field::Characters.name()).unwrap()).unwrap(),
        faces: sprites_of(field_of(fields, Field::Faces.name()).unwrap()).unwrap(),
        global_id: text_of(field_of(fields, Field::GlobalId.name()).unwrap()).unwrap(),
        playtime: text_of(field_of(fields, Field::Playtime.name()).unwrap()).unwrap(),
        timestamp: timestamp_of(field_of(fields, Field::Timestamp.name()).unwrap()).unwrap(),
        title: text_of(field_of(fields, Field::Title.name()).unwrap()).unwrap(),
    }
}

/// What a slot of the save list holds: `null` is an empty slot, an object a filled one
/// if all its fields are in order, and nothing else is a slot. Fields that an entry
/// does not have are passed over.
pub open spec fn slot_of(tree: JsonTree) -> Result<Option<GlobalEntryView>, DecodeError> {
    match tree {
        JsonTree::Null => Ok(None),
        JsonTree::Object(fields) => match first_error(fields) {
            Some(e) => Err(e),
            None => Ok(Some(entry_of(fields))),
        },
        _ => Err(DecodeError::NotASlot),
    }
}

/// What each slot of a save list holds, if the value is a list.
pub open spec fn slots_of(tree: JsonTree) -> Option<
    Seq<Result<Option<GlobalEntryView>, DecodeError>>,
> {
    match tree {
        JsonTree::Array(items) => Some(Seq::new(items.len(), |i: int| slot_of(items[i]))),
        _ => None,
    }
}

/// What the outcome of reading a slot holds.
pub open spec fn slot_view(slot: Result<Option<GlobalEntry>, DecodeError>) -> Result<
    Option<GlobalEntryView>,
    DecodeError,
> {
    match slot {
        Ok(Some(entry)) => Ok(Some(entry@)),
        Ok(None) => Ok(None),
        Err(e) => Err(e),
    }
}

/// What the outcomes of reading the slots of a list hold.
pub open spec fn slots_view(slots: Seq<Result<Option<GlobalEntry>, DecodeError>>) -> Seq<
    Result<Option<GlobalEntryView>, DecodeError>,
> {
    Seq::new(slots.len(), |i: int| slot_view(slots[i]))
}

proof fn lemma_field_of_suffix(fields: Seq<(Seq<char>, JsonTree)>, name: Seq<char>, from: int)
    requires
        0 <= from <= fields.len(),
        forall|j: int| from <= j < fields.len() ==> (#[trigger] fields[j]).0 != name,
    ensures
        field_of(fields, name) == field_of(fields.take(from), name),
    decreases fields.len() - from,
{
    if from < fields.len() {
        let shorter = fields.drop_last();
        assert(fields.last() == fields[fields.len() - 1]);
        assert forall|j: int| from <= j < shorter.len() implies (#[trigger] shorter[j]).0
            != name by {
            assert(shorter[j] == fields[j]);
        }
        lemma_field_of_suffix(shorter, name, from);
        assert(shorter.take(from) =~= fields.take(from));
    } else {
        assert(fields.take(from) =~= fields);
    }
}

/// The value of the field called `name`: where several fields have that name, the last.
fn find_field<'a>(fields: &'a Vec<(String, SaveValue)>, name: &str) -> (r: Option<&'a SaveValue>)
    ensures
        match field_of(fields_view(fields@), name@) {
            Some(tree) => r matches Some(value) && value@ == tree,
            None => r is None,
        },
{
    let key = String::from_str(name);
    let ghost all = fields_view(fields@);
    let mut i: usize = fields.len();
    while i > 0
        invariant
            i <= fields@.len(),
            key@ == name@,
            all == fields_view(fields@),
            forall|j: int| i <= j < all.len() ==> (#[trigger] all[j]).0 != name@,
        decreases i,
    {
        i -= 1;
        if fields[i].0 == key {
            proof {
                lemma_field_of_suffix(all, name@, i + 1);
                let found = all.take(i + 1);
                assert(found.last() == all[i as int]);
            }
            return Some(&fields[i].1);
        }
    }
    proof {
        lemma_field_of_suffix(all, name@, 0);
        assert(all.take(0).len() == 0);
    }
    None
}

/// The integer that a JSON number is, if it is one.
fn integer_value(value: &SaveValue) -> (r: Option<i128>)
    ensures
        match integer_of(value@) {
            Some(n) => r == Some(n as i128) && n == n as i128,
            None => r is None,
        },
{
    match value {
        SaveValue::PosInt(n) => Some(*n as i128),
        SaveValue::NegInt(n) => Some(*n as i128),
        _ => None,
    }
}

/// The sprite that a pair `[fileName, index]` names.
fn decode_sprite(value: &SaveValue) -> (r: Option<SpriteInfo>)
    ensures
        match sprite_of(value@) {
            Some(sprite) => r matches Some(s) && s@ == sprite,
            None => r is None,
        },
{
    proof {
        lemma_tree_of(*value);
    }
    match value {
        SaveValue::Array(items) => {
            if items.len() != 2 {
                return None;
            }
            assert(items_view(items@)[0] == items@[0]@);
            assert(items_view(items@)[1] == items@[1]@);
            let file_name = match &items[0] {
                SaveValue::String(text) => text.clone(),
                _ => {
                    return None;
                },
            };
            match integer_value(&items[1]) {
                Some(index) => {
                    if index < 0 || index > usize::MAX as i128 {
                        None
                    } else {
                        Some(SpriteInfo { file_name, sprite_index: index as usize })
                    }
                },
                None => None,
            }
        },
        _ => None,
    }
}

/// The sprites that an array of pairs names, if every item of it names one.
fn decode_sprites(value: &SaveValue) -> (r: Option<Vec<SpriteInfo>>)
    ensures
        match sprites_of(value@) {
            Some(sprites) => r matches Some(list) && sprites_view(list@) == sprites,
            None => r is None,
        },
{
    proof {
        lemma_tree_of(*value);
    }
    match value {
        SaveValue::Array(items) => {
            let ghost trees = items_view(items@);
            let mut sprites: Vec<SpriteInfo> = Vec::with_capacity(items.len());
            let mut i: usize = 0;
            while i < items.len()
                invariant
                    i <= items@.len(),
                    trees == items_view(items@),
                    value@ == JsonTree::Array(trees),
                    sprites@.len() == i,
                    forall|j: int| 0 <= j < i ==> (#[trigger] sprite_of(trees[j])) is Some,
                    forall|j: int|
                        0 <= j < i ==> (#[trigger] sprites@[j])@ == sprite_of(trees[j]).unwrap(),
                decreases items@.len() - i,
            {
                assert(trees[i as int] == items@[i as int]@);
                match decode_sprite(&items[i]) {
                    Some(sprite) => {
                        sprites.push(sprite);
                    },
                    None => {
                        assert(sprite_of(trees[i as int]) is None);
                        return None;
                    },
                }
                i += 1;
            }
            assert(sprites_view(sprites@) =~= sprites_of(value@).unwrap());
            Some(sprites)
        },
        _ => None,
    }
}

/// The text that a JSON string is.
fn decode_text(value: &SaveValue) -> (r: Option<String>)
    ensures
        match text_of(value@) {
            Some(text) => r matches Some(s) && s@ == text,
            None => r is None,
        },
{
    match value {
        SaveValue::String(text) => Some(text.clone()),
        _ => None,
    }
}

/// The moment that a JSON number names.
fn decode_timestamp(value: &SaveValue) -> (r: Result<DateTime, DecodeError>)
    ensures
        match timestamp_of(value@) {
            Ok(millis) => r matches Ok(moment) && moment.millis() == millis,
            Err(e) => r == Err::<DateTime, DecodeError>(e),
        },
{
    match integer_value(value) {
        Some(millis) => {
            if millis < 0 || millis > MAX_TIMESTAMP_MILLIS as i128 {
                return Err(DecodeError::TimestampOutOfRange);
            }
            match DateTime::from_timestamp_millis(millis as i64) {
                Some(moment) => Ok(moment),
                None => Err(DecodeError::TimestampOutOfRange),
            }
        },
        None => Err(DecodeError::InvalidField(Field::Timestamp)),
    }
}

/// The value of a field that an entry must have.
fn required_field<'a>(fields: &'a Vec<(String, SaveValue)>, field: Field) -> (r: Result<
    &'a SaveValue,
    DecodeError,
>)
    ensures
        match field_of(fields_view(fields@), field.name()) {
            Some(tree) => r matches Ok(value) && value@ == tree,
            None => r == Err::<&SaveValue, DecodeError>(DecodeError::MissingField(field)),
        },
{
    match find_field(fields, field.key()) {
        Some(value) => Ok(value),
        None => Err(DecodeError::MissingField(field)),
    }
}

/// The sprites of the field `field` of an entry.
fn sprites_field(fields: &Vec<(String, SaveValue)>, field: Field) -> (r: Result<
    Vec<SpriteInfo>,
    DecodeError,
>)
    requires
        field == Field::Characters || field == Field::Faces,
    ensures
        match field_error(fields_view(fields@), field) {
            Some(e) => r == Err::<Vec<SpriteInfo>, DecodeError>(e),
            None => r matches Ok(list) && sprites_view(list@) == sprites_of(
                field_of(fields_view(fields@), field.name()).unwrap(),
            ).unwrap(),
        },
{
    match required_field(fields, field) {
        Ok(value) => match decode_sprites(value) {
            Some(list) => Ok(list),
            None => Err(DecodeError::InvalidField(field)),
        },
        Err(e) => Err(e),
    }
}

/// The text of the field `field` of an entry.
fn text_field(fields: &Vec<(String, SaveValue)>, field: Field) -> (r: Result<String, DecodeError>)
    requires
        field == Field::GlobalId || field == Field::Playtime || field == Field::Title,
    ensures
        match field_error(fields_view(fields@), field) {
            Some(e) => r == Err::<String, DecodeError>(e),
            None => r matches Ok(text) && text@ == text_of(
                field_of(fields_view(fields@), field.name()).unwrap(),
            ).unwrap(),
        },
{
    match required_field(fields, field) {
        Ok(value) => match decode_text(value) {
            Some(text) => Ok(text),
            None => Err(DecodeError::InvalidField(field)),
        },
        Err(e) => Err(e),
    }
}

/// The moment of the field `timestamp` of an entry.
fn timestamp_field(fields: &Vec<(String, SaveValue)>) -> (r: Result<DateTime, DecodeError>)
    ensures
        match field_error(fields_view(fields@), Field::Timestamp) {
            Some(e) => r == Err::<DateTime, DecodeError>(e),
            None => r matches Ok(moment) && moment.millis() == timestamp_of(
                field_of(fields_view(fields@), Field::Timestamp.name()).unwrap(),
            ).unwrap(),
        },
{
    match required_field(fields, Field::Timestamp) {
        Ok(value) => decode_timestamp(value),
        Err(e) => Err(e),
    }
}

/// Reads one slot of the save list.
///
/// `null` is an empty slot. An object is a filled one: its fields `characters` and
/// `faces` are arrays of pairs `[fileName, index]`, `globalId`, `playtime` and `title`
/// are strings, and `timestamp` is an integer of milliseconds from 0 to
/// `MAX_TIMESTAMP_MILLIS`. Fields of other names are passed over. The first field that
/// is missing or not in order, in the order of `Field`, gives the error; a value that
/// is neither `null` nor an object is no slot.
pub fn parse_entry(value: &SaveValue) -> (r: Result<Option<GlobalEntry>, DecodeError>)
    ensures
        slot_view(r) == slot_of(value@),
{
    proof {
        lemma_tree_of(*value);
    }
    match value {
        SaveValue::Null => Ok(None),
        SaveValue::Object(fields) => {
            let characters = match sprites_field(fields, Field::Characters) {
                Ok(list) => list,
                Err(e) => {
                    return Err(e);
                },
            };
            let faces = match sprites_field(fields, Field::Faces) {
                Ok(list) => list,
                Err(e) => {
                    return Err(e);
                },
            };
            let global_id = match text_field(fields, Field::GlobalId) {
                Ok(text) => text,
                Err(e) => {
                    return Err(e);
                },
            };
            let playtime = match text_field(fields, Field::Playtime) {
                Ok(text) => text,
                Err(e) => {
                    return Err(e);
                },
            };
            let timestamp = match timestamp_field(fields) {
                Ok(moment) => moment,
                Err(e) => {
                    return Err(e);
                },
            };
            let title = match text_field(fields, Field::Title) {
                Ok(text) => text,
                Err(e) => {
                    return Err(e);
                },
            };
            let entry = GlobalEntry { characters, faces, global_id, playtime, timestamp, title };
            assert(entry@ == entry_of(fields_view(fields@)));
            Ok(Some(entry))
        },
        _ => Err(DecodeError::NotASlot),
    }
}

/// Reads every slot of a save list, each by itself: a slot that cannot be read gives
/// its error at its place and does not touch the others. A value that is no array is
/// no list.
pub fn parse_slots(value: &SaveValue) -> (r: Option<Vec<Result<Option<GlobalEntry>, DecodeError>>>)
    ensures
        match slots_of(value@) {
            Some(slots) => r matches Some(list) && slots_view(list@) == slots,
            None => r is None,
        },
{
    proof {
        lemma_tree_of(*value);
    }
    match value {
        SaveValue::Array(items) => {
            let ghost trees = items_view(items@);
            let mut slots: Vec<Result<Option<GlobalEntry>, DecodeError>> = Vec::with_capacity(
                items.len(),
            );
            let mut i: usize = 0;
            while i < items.len()
                invariant
                    i <= items@.len(),
                    trees == items_view(items@),
                    slots@.len() == i,
                    forall|j: int| 0 <= j < i ==> slot_view(#[trigger] slots@[j]) == slot_of(trees[j]),
                decreases items@.len() - i,
            {
                assert(trees[i as int] == items@[i as int]@);
                slots.push(parse_entry(&items[i]));
                i += 1;
            }
            assert(slots_view(slots@) =~= slots_of(value@).unwrap());
            Some(slots)
        },
        _ => None,
    }
}

/// The pair `[fileName, index]` that stands for a sprite.
pub open spec fn sprite_tree(sprite: SpriteInfoView) -> JsonTree {
    JsonTree::Array(
        seq![JsonTree::String(sprite.file_name), JsonTree::PosInt(sprite.sprite_index as u64)],
    )
}

/// The array of pairs that stands for a list of sprites.
pub open spec fn sprites_tree(sprites: Seq<SpriteInfoView>) -> JsonTree {
    JsonTree::Array(Seq::new(sprites.len(), |i: int| sprite_tree(sprites[i])))
}

/// The object that stands for a filled slot: its six fields, in the order of `Field`.
pub open spec fn entry_tree(entry: GlobalEntryView) -> JsonTree {
    JsonTree::Object(
        seq![
            (Field::Characters.name(), sprites_tree(entry.characters)),
            (Field::Faces.name(), sprites_tree(entry.faces)),
            (Field::GlobalId.name(), JsonTree::String(entry.global_id)),
            (Field::Playtime.name(), JsonTree::String(entry.playtime)),
            (Field::Timestamp.name(), JsonTree::PosInt(entry.timestamp as u64)),
            (Field::Title.name(), JsonTree::String(entry.title)),
        ],
    )
}

/// The value that stands for a slot: `null` for an empty one.
pub open spec fn slot_tree(slot: Option<GlobalEntryView>) -> JsonTree {
    match slot {
        Some(entry) => entry_tree(entry),
        None => JsonTree::Null,
    }
}

/// The array that stands for a save list.
pub open spec fn slots_tree(slots: Seq<Option<GlobalEntryView>>) -> JsonTree {
    JsonTree::Array(Seq::new(slots.len(), |i: int| slot_tree(slots[i])))
}

impl SpriteInfoView {
    /// The sprite's number is one that a `SpriteInfo` can hold.
    pub open spec fn is_valid(self) -> bool {
        self.sprite_index <= usize::MAX
    }
}

impl GlobalEntryView {
    /// The entry is one that a `GlobalEntry` can hold: its timestamp names a moment, and
    /// each sprite's number fits.
    pub open spec fn is_valid(self) -> bool {
        &&& 0 <= self.timestamp <= MAX_TIMESTAMP_MILLIS
        &&& forall|i: int| 0 <= i < self.characters.len() ==> (#[trigger] self.characters[i]).is_valid()
        &&& forall|i: int| 0 <= i < self.faces.len() ==> (#[trigger] self.faces[i]).is_valid()
    }
}

impl View for Global {
    type V = Seq<Option<GlobalEntryView>>;

    open spec fn view(&self) -> Seq<Option<GlobalEntryView>> {
        Seq::new(
            self.0@.len(),
            |i: int|
                match self.0@[i] {
                    Some(entry) => Some(entry@),
                    None => None,
                },
        )
    }
}

proof fn lemma_field_names_differ()
    ensures
        Field::Characters.name() != Field::Faces.name(),
        Field::Characters.name() != Field::GlobalId.name(),
        Field::Characters.name() != Field::Playtime.name(),
        Field::Characters.name() != Field::Timestamp.name(),
        Field::Characters.name() != Field::Title.name(),
        Field::Faces.name() != Field::GlobalId.name(),
        Field::Faces.name() != Field::Playtime.name(),
        Field::Faces.name() != Field::Timestamp.name(),
        Field::Faces.name() != Field::Title.name(),
        Field::GlobalId.name() != Field::Playtime.name(),
        Field::GlobalId.name() != Field::Timestamp.name(),
        Field::GlobalId.name() != Field::Title.name(),
        Field::Playtime.name() != Field::Timestamp.name(),
        Field::Playtime.name() != Field::Title.name(),
        Field::Timestamp.name() != Field::Title.name(),
{
    reveal_strlit("characters");
    reveal_strlit("faces");
    reveal_strlit("globalId");
    reveal_strlit("playtime");
    reveal_strlit("timestamp");
    reveal_strlit("title");
    assert("characters"@[0] == 'c' && "faces"@[0] == 'f' && "globalId"@[0] == 'g');
    assert("playtime"@[0] == 'p' && "timestamp"@[0] == 't' && "title"@[0] == 't');
    assert("timestamp"@.len() == 9 && "title"@.len() == 5);
}

proof fn lemma_sprites_survive(sprites: Seq<SpriteInfoView>)
    requires
        forall|i: int| 0 <= i < sprites.len() ==> (#[trigger] sprites[i]).is_valid(),
    ensures
        sprites_of(sprites_tree(sprites)) == Some(sprites),
{
    let items = sprites_tree(sprites)->Array_0;
    assert forall|i: int| 0 <= i < items.len() implies #[trigger] sprite_of(items[i]) == Some(
        sprites[i],
    ) by {
        assert(sprites[i].is_valid());
        assert(items[i] == sprite_tree(sprites[i]));
    }
    assert(sprites_of(sprites_tree(sprites)).unwrap() =~= sprites);
}

proof fn lemma_field_of_entry(entry: GlobalEntryView)
    ensures
        ({
            let fields = entry_tree(entry)->Object_0;
            &&& field_of(fields, Field::Characters.name()) == Some(sprites_tree(entry.characters))
            &&& field_of(fields, Field::Faces.name()) == Some(sprites_tree(entry.faces))
            &&& field_of(fields, Field::GlobalId.name()) == Some(JsonTree::String(entry.global_id))
            &&& field_of(fields, Field::Playtime.name()) == Some(JsonTree::String(entry.playtime))
            &&& field_of(fields, Field::Timestamp.name()) == Some(
                JsonTree::PosInt(entry.timestamp as u64),
            )
            &&& field_of(fields, Field::Title.name()) == Some(JsonTree::String(entry.title))
        }),
{
    lemma_field_names_differ();
    let fields = entry_tree(entry)->Object_0;
    assert(fields.len() == 6);
    lemma_field_of_suffix(fields, Field::Characters.name(), 1);
    assert(fields.take(1).last() == fields[0]);
    lemma_field_of_suffix(fields, Field::Faces.name(), 2);
    assert(fields.take(2).last() == fields[1]);
    lemma_field_of_suffix(fields, Field::GlobalId.name(), 3);
    assert(fields.take(3).last() == fields[2]);
    lemma_field_of_suffix(fields, Field::Playtime.name(), 4);
    assert(fields.take(4).last() == fields[3]);
    lemma_field_of_suffix(fields, Field::Timestamp.name(), 5);
    assert(fields.take(5).last() == fields[4]);
    lemma_field_of_suffix(fields, Field::Title.name(), 6);
    assert(fields.take(6).last() == fields[5]);
}

/// A slot that is written and read again is the slot it was.
pub proof fn slot_survives_encoding(slot: Option<GlobalEntryView>)
    requires
        slot matches Some(entry) ==> entry.is_valid(),
    ensures
        slot_of(slot_tree(slot)) == Ok::<Option<GlobalEntryView>, DecodeError>(slot),
{
    match slot {
        Some(entry) => {
            let fields = entry_tree(entry)->Object_0;
            lemma_field_of_entry(entry);
            lemma_sprites_survive(entry.characters);
            lemma_sprites_survive(entry.faces);
            assert(first_error(fields) is None);
            assert(entry_of(fields) == entry);
        },
        None => {},
    }
}

/// A save list that is written and read again is the list it was, and no slot of it
/// gives an error.
pub proof fn list_survives_encoding(slots: Seq<Option<GlobalEntryView>>)
    requires
        forall|i: int|
            0 <= i < slots.len() ==> ((#[trigger] slots[i]) matches Some(entry)
                ==> entry.is_valid()),
    ensures
        slots_of(slots_tree(slots)) == Some(
            Seq::new(
                slots.len(),
                |i: int| Ok::<Option<GlobalEntryView>, DecodeError>(slots[i]),
            ),
        ),
{
    let items = slots_tree(slots)->Array_0;
    assert forall|i: int| 0 <= i < slots.len() implies slot_of(#[trigger] items[i]) == Ok::<
        Option<GlobalEntryView>,
        DecodeError,
    >(slots[i]) by {
        slot_survives_encoding(slots[i]);
    }
    assert(slots_of(slots_tree(slots)).unwrap() =~= Seq::new(
        slots.len(),
        |i: int| Ok::<Option<GlobalEntryView>, DecodeError>(slots[i]),
    ));
}

/// A save list is nested four deep: the list, a slot, its sprites, and a pair.
pub proof fn list_is_nested_within_four(slots: Seq<Option<GlobalEntryView>>)
    ensures
        is_nested_within(slots_tree(slots), 4),
{
    reveal_with_fuel(is_nested_within, 5);
    let items = slots_tree(slots)->Array_0;
    assert forall|i: int| 0 <= i < items.len() implies is_nested_within(#[trigger] items[i], 3) by {
        match slots[i] {
            Some(entry) => {
                let fields = entry_tree(entry)->Object_0;
                assert(items[i] == entry_tree(entry));
                assert forall|j: int| 0 <= j < fields.len() implies is_nested_within(
                    (#[trigger] fields[j]).1,
                    2,
                ) by {
                    if j == 0 || j == 1 {
                        let sprites = if j == 0 {
                            entry.characters
                        } else {
                            entry.faces
                        };
                        let pairs = sprites_tree(sprites)->Array_0;
                        assert(fields[j].1 == sprites_tree(sprites));
                        assert forall|k: int| 0 <= k < pairs.len() implies is_nested_within(
                            #[trigger] pairs[k],
                            1,
                        ) by {
                            assert(pairs[k] == sprite_tree(sprites[k]));
                        }
                    }
                }
            },
            None => {},
        }
    }
}

proof fn lemma_nested_deeper(tree: JsonTree, limit: nat, more: nat)
    requires
        is_nested_within(tree, limit),
        limit <= more,
    ensures
        is_nested_within(tree, more),
    decreases limit,
{
    match tree {
        JsonTree::Array(items) => {
            assert forall|i: int| 0 <= i < items.len() implies is_nested_within(
                #[trigger] items[i],
                (more - 1) as nat,
            ) by {
                lemma_nested_deeper(items[i], (limit - 1) as nat, (more - 1) as nat);
            }
        },
        JsonTree::Object(fields) => {
            assert forall|i: int| 0 <= i < fields.len() implies is_nested_within(
                (#[trigger] fields[i]).1,
                (more - 1) as nat,
            ) by {
                lemma_nested_deeper(fields[i].1, (limit - 1) as nat, (more - 1) as nat);
            }
        },
        _ => {},
    }
}

/// The pair `[fileName, index]` that stands for a sprite.
pub fn encode_sprite(sprite: &SpriteInfo) -> (value: SaveValue)
    ensures
        value@ == sprite_tree(sprite@),
{
    let mut pair: Vec<SaveValue> = Vec::with_capacity(2);
    pair.push(SaveValue::String(sprite.file_name.clone()));
    pair.push(SaveValue::PosInt(sprite.sprite_index as u64));
    let value = SaveValue::Array(pair);
    proof {
        lemma_tree_of(value);
        assert(items_view(pair@) =~= sprite_tree(sprite@)->Array_0);
    }
    value
}

/// The array of pairs that stands for a list of sprites.
fn encode_sprites(sprites: &Vec<SpriteInfo>) -> (value: SaveValue)
    ensures
        value@ == sprites_tree(sprites_view(sprites@)),
{
    let mut pairs: Vec<SaveValue> = Vec::with_capacity(sprites.len());
    let mut i: usize = 0;
    while i < sprites.len()
        invariant
            i <= sprites@.len(),
            pairs@.len() == i,
            forall|j: int| 0 <= j < i ==> (#[trigger] pairs@[j])@ == sprite_tree(sprites@[j]@),
        decreases sprites@.len() - i,
    {
        pairs.push(encode_sprite(&sprites[i]));
        i += 1;
    }
    let value = SaveValue::Array(pairs);
    proof {
        lemma_tree_of(value);
        assert(items_view(pairs@) =~= sprites_tree(sprites_view(sprites@))->Array_0);
    }
    value
}

/// The object that stands for a filled slot.
pub fn encode_entry(entry: &GlobalEntry) -> (value: SaveValue)
    ensures
        value@ == entry_tree(entry@),
{
    let millis = entry.timestamp.timestamp_millis();
    let mut fields: Vec<(String, SaveValue)> = Vec::with_capacity(6);
    fields.push((String::from_str(Field::Characters.key()), encode_sprites(&entry.characters)));
    fields.push((String::from_str(Field::Faces.key()), encode_sprites(&entry.faces)));
    fields.push(
        (String::from_str(Field::GlobalId.key()), SaveValue::String(entry.global_id.clone())),
    );
    fields.push(
        (String::from_str(Field::Playtime.key()), SaveValue::String(entry.playtime.clone())),
    );
    fields.push((String::from_str(Field::Timestamp.key()), SaveValue::PosInt(millis as u64)));
    fields.push((String::from_str(Field::Title.key()), SaveValue::String(entry.title.clone())));
    let value = SaveValue::Object(fields);
    proof {
        lemma_tree_of(value);
        assert(fields_view(fields@) =~= entry_tree(entry@)->Object_0);
    }
    value
}

/// The value that stands for a slot: `null` for an empty one.
pub fn encode_slot(slot: &Option<GlobalEntry>) -> (value: SaveValue)
    ensures
        value@ == slot_tree(
            match slot {
                Some(entry) => Some(entry@),
                None => None,
            },
        ),
{
    match slot {
        Some(entry) => encode_entry(entry),
        None => SaveValue::Null,
    }
}

impl Global {
    /// The array that stands for the save list.
    pub fn to_value(&self) -> (value: SaveValue)
        ensures
            value@ == slots_tree(self@),
    {
        let mut items: Vec<SaveValue> = Vec::with_capacity(self.0.len());
        let mut i: usize = 0;
        while i < self.0.len()
            invariant
                i <= self.0@.len(),
                items@.len() == i,
                forall|j: int| 0 <= j < i ==> (#[trigger] items@[j])@ == slot_tree(self@[j]),
            decreases self.0@.len() - i,
        {
            items.push(encode_slot(&self.0[i]));
            i += 1;
        }
        let value = SaveValue::Array(items);
        proof {
            lemma_tree_of(value);
            assert(items_view(items@) =~= slots_tree(self@)->Array_0);
        }
        value
    }
}

/// The message that a text which is JSON but no list is refused with.
pub open spec fn not_a_list_message() -> Seq<char> {
    "Invalid global file"@
}

/// What reading a save text gives: the failure of the decompression or of the parser,
/// or the refusal of a value that is no list, or else what each slot holds.
pub open spec fn is_save_list_of(
    r: Result<Vec<Result<Option<GlobalEntry>, DecodeError>>, Error>,
    text: Seq<char>,
) -> bool {
    match decompressed(text) {
        Err(kind) => r matches Err(Error::Lz(k)) && k == kind,
        Ok(json) => match json_parsed(json) {
            Err(message) => r matches Err(Error::Json(m)) && m@ == message,
            Ok(tree) => is_slots_of(r, tree),
        },
    }
}

/// What reading a parsed save list gives: the refusal of a value that is no list, or
/// else what each slot holds.
pub open spec fn is_slots_of(
    r: Result<Vec<Result<Option<GlobalEntry>, DecodeError>>, Error>,
    tree: JsonTree,
) -> bool {
    match slots_of(tree) {
        Some(slots) => r matches Ok(list) && slots_view(list@) == slots,
        None => r matches Err(Error::Json(m)) && m@ == not_a_list_message(),
    }
}

/// Reads the slots of a parsed save list, each by itself. A document that is no array
/// is refused.
pub fn decode_slots(json: Json) -> (r: Result<Vec<Result<Option<GlobalEntry>, DecodeError>>, Error>)
    ensures
        is_slots_of(r, json@),
{
    let value = json.inner();
    match parse_slots(&value) {
        Some(list) => Ok(list),
        None => Err(Error::Json(String::from_str("Invalid global file"))),
    }
}

/// Reads a save text: decompresses it, reads the JSON and then each slot of the list by
/// itself. A slot that cannot be read gives its error at its place; the others are
/// read all the same.
pub fn decode_save_list(text: &str) -> (r: Result<
    Vec<Result<Option<GlobalEntry>, DecodeError>>,
    Error,
>)
    ensures
        is_save_list_of(r, text@),
{
    match Json::decompress(text) {
        Ok(json) => decode_slots(json),
        Err(e) => Err(e),
    }
}

/// Writes a save list as save text: the JSON of the list on one line, compressed.
pub fn encode_save_list(global: &Global) -> (r: Result<String, Error>)
    ensures
        match json_printed(slots_tree(global@)) {
            Ok(text) => if vstd::utf8::encode_utf8(text).len() <= MAX_TEXT_LEN {
                r matches Ok(s) && s@ == lz_compressed(text)
            } else {
                r matches Err(Error::Lz(k)) && k == LzErrorKind::Compression
            },
            Err(message) => r matches Err(Error::Json(m)) && m@ == message,
        },
{
    proof {
        list_is_nested_within_four(global@);
        lemma_nested_deeper(slots_tree(global@), 4, MAX_NESTING as nat);
    }
    Json::new(global.to_value()).compress()
}

} // verus!
