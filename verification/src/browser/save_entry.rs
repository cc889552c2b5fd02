//! A filled slot with the sprites that it shows, cut out of the sheets that were loaded.

use vstd::prelude::*;
use vstd::string::StringExecFns;

use crate::browser::error::Error;
use crate::global::GlobalEntry;
use crate::global::GlobalEntryView;
use crate::global::SpriteInfo;
use crate::global::SpriteInfoView;
use crate::global::sprites_view;
use crate::image::grid_cell;
use crate::image::Image;
use crate::image::ImageView;
use crate::image::Spritesheet;
use crate::image::SpritesheetKind;

verus! {

/// The character that writes the digit `d`.
pub open spec fn digit_char(d: int) -> char {
    ('0' as int + d) as char
}

/// A number written in decimal digits, without leading zeros.
pub open spec fn decimal(n: nat) -> Seq<char>
    decreases n,
{
    if n < 10 {
        seq![digit_char(n as int)]
    } else {
        decimal(n / 10).push(digit_char((n % 10) as int))
    }
}

fn digit_text(d: usize) -> (s: &'static str)
    requires
        d < 10,
    ensures
        s@ == seq![digit_char(d as int)],
{
    proof {
        reveal_strlit("0");
        reveal_strlit("1");
        reveal_strlit("2");
        reveal_strlit("3");
        reveal_strlit("4");
        reveal_strlit("5");
        reveal_strlit("6");
        reveal_strlit("7");
        reveal_strlit("8");
        reveal_strlit("9");
    }
    let s = if d == 0 {
        "0"
    } else if d == 1 {
        "1"
    } else if d == 2 {
        "2"
    } else if d == 3 {
        "3"
    } else if d == 4 {
        "4"
    } else if d == 5 {
        "5"
    } else if d == 6 {
        "6"
    } else if d == 7 {
        "7"
    } else if d == 8 {
        "8"
    } else {
        "9"
    };
    assert(s@ =~= seq![digit_char(d as int)]);
    s
}

/// Writes a number in decimal digits.
pub fn decimal_text(n: usize) -> (s: String)
    ensures
        s@ == decimal(n as nat),
{
    let mut text = String::from_str(digit_text(n % 10));
    let mut rest: usize = n / 10;
    while rest > 0
        invariant
            rest > 0 ==> decimal(rest as nat) + text@ == decimal(n as nat),
            rest == 0 ==> text@ == decimal(n as nat),
        decreases rest,
    {
        let ghost before = text@;
        text = String::from_str(digit_text(rest % 10)).concat(text.as_str());
        proof {
            let digit = seq![digit_char((rest % 10) as int)];
            assert(text@ == digit + before);
            if rest >= 10 {
                assert(decimal(rest as nat) == decimal((rest / 10) as nat).push(
                    digit_char((rest % 10) as int),
                ));
                assert(decimal((rest / 10) as nat).push(digit_char((rest % 10) as int)) + before
                    =~= decimal((rest / 10) as nat) + (digit + before));
            } else {
                assert(decimal(rest as nat) =~= digit);
            }
        }
        rest = rest / 10;
    }
    text
}

/// A sheet that was loaded, under the name of its file.
struct CachedSheet {
    file_name: String,
    sheet: Spritesheet,
}

/// The sheets that were loaded, each under its layout and the name of its file.
///
/// Whoever reads the files fills the cache and hands it to the functions that cut
/// sprites: a sheet that is in it is never read again.
pub struct SheetCache {
    sheets: Vec<CachedSheet>,
}

spec fn sheets_map(entries: Seq<CachedSheet>) -> Map<(SpritesheetKind, Seq<char>), ImageView>
    decreases entries.len(),
{
    if entries.len() == 0 {
        Map::empty()
    } else {
        sheets_map(entries.drop_last()).insert(
            (entries.last().sheet.layout(), entries.last().file_name@),
            entries.last().sheet.picture(),
        )
    }
}

proof fn lemma_sheets_map_suffix(
    entries: Seq<CachedSheet>,
    key: (SpritesheetKind, Seq<char>),
    from: int,
)
    requires
        0 <= from <= entries.len(),
        forall|j: int|
            from <= j < entries.len() ==> ((#[trigger] entries[j]).sheet.layout(), entries[j].file_name@)
                != key,
    ensures
        sheets_map(entries).contains_key(key) == sheets_map(entries.take(from)).contains_key(key),
        sheets_map(entries).contains_key(key) ==> sheets_map(entries)[key] == sheets_map(
            entries.take(from),
        )[key],
    decreases entries.len() - from,
{
    if from < entries.len() {
        let shorter = entries.drop_last();
        assert(entries.last() == entries[entries.len() - 1]);
        assert forall|j: int| from <= j < shorter.len() implies ((
            #[trigger] shorter[j]).sheet.layout(), shorter[j].file_name@) != key by {
            assert(shorter[j] == entries[j]);
        }
        lemma_sheets_map_suffix(shorter, key, from);
        assert(shorter.take(from) =~= entries.take(from));
    } else {
        assert(entries.take(from) =~= entries);
    }
}

impl View for SheetCache {
    type V = Map<(SpritesheetKind, Seq<char>), ImageView>;

    closed spec fn view(&self) -> Map<(SpritesheetKind, Seq<char>), ImageView> {
        sheets_map(self.sheets@)
    }
}

impl SheetCache {
    /// A cache with no sheet in it.
    pub fn new() -> (cache: Self)
        ensures
            cache@ == Map::<(SpritesheetKind, Seq<char>), ImageView>::empty(),
    {
        SheetCache { sheets: Vec::new() }
    }

    /// Puts a sheet under its layout and the name of its file, in place of the one that
    /// was there, if any.
    pub fn insert(&mut self, file_name: String, sheet: Spritesheet)
        ensures
            final(self)@ == old(self)@.insert((sheet.layout(), file_name@), sheet.picture()),
    {
        let ghost before = self.sheets@;
        self.sheets.push(CachedSheet { file_name, sheet });
        assert(self.sheets@.drop_last() =~= before);
    }

    /// The sheet of that layout and file name, if it was loaded.
    pub fn get(&self, kind: SpritesheetKind, file_name: &str) -> (r: Option<&Spritesheet>)
        ensures
            r is Some <==> self@.contains_key((kind, file_name@)),
            r matches Some(sheet) ==> sheet.layout() == kind && sheet.picture() == self@[(
                kind,
                file_name@,
            )],
    {
        let name = String::from_str(file_name);
        let ghost key = (kind, file_name@);
        let mut i: usize = self.sheets.len();
        while i > 0
            invariant
                i <= self.sheets@.len(),
                name@ == file_name@,
                key == (kind, file_name@),
                forall|j: int|
                    i <= j < self.sheets@.len() ==> ((#[trigger] self.sheets@[j]).sheet.layout(), self.sheets@[j].file_name@)
                        != key,
            decreases i,
        {
            i -= 1;
            if self.sheets[i].sheet.kind() == kind && self.sheets[i].file_name == name {
                proof {
                    lemma_sheets_map_suffix(self.sheets@, key, i + 1);
                    assert(self.sheets@.take(i + 1).last() == self.sheets@[i as int]);
                }
                return Some(&self.sheets[i].sheet);
            }
        }
        proof {
            lemma_sheets_map_suffix(self.sheets@, key, 0);
            assert(self.sheets@.take(0).len() == 0);
        }
        None
    }
}

/// What keeps a sprite from being cut.
#[derive(Debug, PartialEq, Eq, Clone, Copy, Structural)]
pub enum Fault {
    /// The sheet of the sprite was not loaded.
    MissingSheet,
    /// The sheet has no sprite of that number.
    NoSuchSprite,
}

/// What keeps this sprite from being cut out of the sheets that were loaded, if
/// anything does.
pub open spec fn sprite_fault(
    cache: Map<(SpritesheetKind, Seq<char>), ImageView>,
    kind: SpritesheetKind,
    sprite: SpriteInfoView,
) -> Option<Fault> {
    if !cache.contains_key((kind, sprite.file_name)) {
        Some(Fault::MissingSheet)
    } else if sprite.sprite_index >= kind.cell_count() {
        Some(Fault::NoSuchSprite)
    } else {
        None
    }
}

/// The place of the first sprite, from `from` on, that cannot be cut.
pub open spec fn first_fault(
    cache: Map<(SpritesheetKind, Seq<char>), ImageView>,
    kind: SpritesheetKind,
    sprites: Seq<SpriteInfoView>,
    from: int,
) -> Option<int>
    decreases sprites.len() - from,
{
    if from < 0 || from >= sprites.len() {
        None
    } else if sprite_fault(cache, kind, sprites[from]) is Some {
        Some(from)
    } else {
        first_fault(cache, kind, sprites, from + 1)
    }
}

/// The name of the file of a sheet: the name that the save list gives, and the ending
/// of encrypted images.
pub open spec fn sheet_file_name(file_name: Seq<char>) -> Seq<char> {
    file_name + ".rpgmvp"@
}

/// The message for a sheet that was not loaded.
pub open spec fn missing_file_message(file_name: Seq<char>) -> Seq<char> {
    "Missing file: "@ + sheet_file_name(file_name)
}

/// The message for a sprite that its sheet does not have.
pub open spec fn no_sprite_message(sprite: SpriteInfoView) -> Seq<char> {
    "Invalid sprite index "@ + decimal(sprite.sprite_index) + " for file "@ + sprite.file_name
}

/// The error is the one that tells why this sprite cannot be cut.
pub open spec fn is_fault_error(
    e: Error,
    cache: Map<(SpritesheetKind, Seq<char>), ImageView>,
    kind: SpritesheetKind,
    sprite: SpriteInfoView,
) -> bool {
    match sprite_fault(cache, kind, sprite) {
        Some(Fault::MissingSheet) => e matches Error::Io(m) && m@ == missing_file_message(
            sprite.file_name,
        ),
        Some(Fault::NoSuchSprite) => e matches Error::SpriteIndex(m) && m@ == no_sprite_message(
            sprite,
        ),
        None => false,
    }
}

/// The image is this sprite, cut out of its sheet: the cell of the sprite's number in
/// the grid of the layout.
pub open spec fn is_sprite_image(
    image: ImageView,
    cache: Map<(SpritesheetKind, Seq<char>), ImageView>,
    kind: SpritesheetKind,
    sprite: SpriteInfoView,
) -> bool {
    let sheet = cache[(kind, sprite.file_name)];
    image.is_crop_of(sheet, grid_cell(kind, sheet.width, sheet.height, sprite.sprite_index as int))
}

/// The images are these sprites, one for one.
pub open spec fn are_sprite_images(
    images: Seq<Image>,
    cache: Map<(SpritesheetKind, Seq<char>), ImageView>,
    kind: SpritesheetKind,
    sprites: Seq<SpriteInfoView>,
) -> bool {
    &&& images.len() == sprites.len()
    &&& forall|i: int|
        0 <= i < images.len() ==> is_sprite_image((#[trigger] images[i])@, cache, kind, sprites[i])
}

/// The directory, next to the save directory, under which the sheets lie.
pub const IMAGE_DIRECTORY: &'static str = "img";

/// The name of the directory that holds the sheets of a layout.
pub open spec fn sheet_directory_name(kind: SpritesheetKind) -> Seq<char> {
    match kind {
        SpritesheetKind::Character => "characters"@,
        SpritesheetKind::Face => "faces"@,
    }
}

/// The name of the directory that holds the sheets of a layout.
pub fn sheet_directory(kind: SpritesheetKind) -> (name: &'static str)
    ensures
        name@ == sheet_directory_name(kind),
{
    match kind {
        SpritesheetKind::Character => "characters",
        SpritesheetKind::Face => "faces",
    }
}

/// The name of the file of a sheet.
pub fn sheet_file(file_name: &str) -> (name: String)
    ensures
        name@ == sheet_file_name(file_name@),
{
    String::from_str(file_name).concat(".rpgmvp")
}

/// The error that tells why this sprite cannot be cut.
fn fault_error(fault: Fault, sprite: &SpriteInfo) -> (e: Error)
    ensures
        match fault {
            Fault::MissingSheet => e matches Error::Io(m) && m@ == missing_file_message(
                sprite@.file_name,
            ),
            Fault::NoSuchSprite => e matches Error::SpriteIndex(m) && m@ == no_sprite_message(
                sprite@,
            ),
        },
{
    match fault {
        Fault::MissingSheet => {
            let message = String::from_str("Missing file: ").concat(
                sheet_file(sprite.file_name.as_str()).as_str(),
            );
            Error::io_error(message)
        },
        Fault::NoSuchSprite => {
            let message = String::from_str("Invalid sprite index ").concat(
                decimal_text(sprite.sprite_index).as_str(),
            ).concat(" for file ").concat(sprite.file_name.as_str());
            Error::SpriteIndex(message)
        },
    }
}

/// Cuts one sprite out of the sheets that were loaded.
fn cut_sprite(kind: SpritesheetKind, sprite: &SpriteInfo, cache: &SheetCache) -> (r: Result<
    Image,
    Fault,
>)
    ensures
        match sprite_fault(cache@, kind, sprite@) {
            Some(fault) => r == Err::<Image, Fault>(fault),
            None => r matches Ok(image) && is_sprite_image(image@, cache@, kind, sprite@),
        },
{
    match cache.get(kind, sprite.file_name.as_str()) {
        None => Err(Fault::MissingSheet),
        Some(sheet) => match sheet.get_subimage(sprite.sprite_index) {
            None => Err(Fault::NoSuchSprite),
            Some(cell) => Ok(cell.to_image()),
        },
    }
}

/// Whether one sprite can be cut, without cutting it.
fn check_sprite(kind: SpritesheetKind, sprite: &SpriteInfo, cache: &SheetCache) -> (r: Option<
    Fault,
>)
    ensures
        r == sprite_fault(cache@, kind, sprite@),
{
    match cache.get(kind, sprite.file_name.as_str()) {
        None => Some(Fault::MissingSheet),
        Some(sheet) => if sprite.sprite_index >= sheet.len() {
            Some(Fault::NoSuchSprite)
        } else {
            None
        },
    }
}

/// The first sprite of the list that cannot be cut, and why.
fn find_fault(kind: SpritesheetKind, sprites: &Vec<SpriteInfo>, cache: &SheetCache) -> (r: Option<
    (usize, Fault),
>)
    ensures
        match first_fault(cache@, kind, sprites_view(sprites@), 0) {
            Some(i) => r matches Some((place, fault)) && place == i && 0 <= i < sprites@.len()
                && sprite_fault(cache@, kind, sprites@[i]@) == Some(fault),
            None => r is None,
        },
{
    let ghost views = sprites_view(sprites@);
    let mut i: usize = 0;
    while i < sprites.len()
        invariant
            i <= sprites@.len(),
            views == sprites_view(sprites@),
            first_fault(cache@, kind, views, 0) == first_fault(cache@, kind, views, i as int),
        decreases sprites@.len() - i,
    {
        assert(views[i as int] == sprites@[i as int]@);
        match check_sprite(kind, &sprites[i], cache) {
            Some(fault) => {
                return Some((i, fault));
            },
            None => {},
        }
        i += 1;
    }
    None
}

/// Cuts the sprites of a list, in its order, up to the first that cannot be cut.
fn cut_sprites(kind: SpritesheetKind, sprites: &Vec<SpriteInfo>, cache: &SheetCache) -> (r: Result<
    Vec<Image>,
    Error,
>)
    ensures
        match first_fault(cache@, kind, sprites_view(sprites@), 0) {
            Some(i) => r matches Err(e) && is_fault_error(
                e,
                cache@,
                kind,
                sprites_view(sprites@)[i],
            ),
            None => r matches Ok(images) && are_sprite_images(
                images@,
                cache@,
                kind,
                sprites_view(sprites@),
            ),
        },
{
    let ghost views = sprites_view(sprites@);
    let mut images: Vec<Image> = Vec::with_capacity(sprites.len());
    let mut i: usize = 0;
    while i < sprites.len()
        invariant
            i <= sprites@.len(),
            views == sprites_view(sprites@),
            first_fault(cache@, kind, views, 0) == first_fault(cache@, kind, views, i as int),
            images@.len() == i,
            forall|j: int|
                0 <= j < i ==> is_sprite_image((#[trigger] images@[j])@, cache@, kind, views[j]),
        decreases sprites@.len() - i,
    {
        assert(views[i as int] == sprites@[i as int]@);
        match cut_sprite(kind, &sprites[i], cache) {
            Ok(image) => {
                images.push(image);
            },
            Err(fault) => {
                return Err(fault_error(fault, &sprites[i]));
            },
        }
        i += 1;
    }
    Ok(images)
}

/// A sheet that has to be loaded: its layout and the name that the save list gives it.
#[derive(Debug, PartialEq, Eq)]
pub struct SheetRequest {
    pub kind: SpritesheetKind,
    pub file_name: String,
}

/// The sheet that has to be loaded before this entry can be shown: that of the first
/// sprite, faces before characters, that cannot be cut, if what keeps it from being cut
/// is that its sheet was not loaded.
pub open spec fn needed_sheet(
    cache: Map<(SpritesheetKind, Seq<char>), ImageView>,
    entry: GlobalEntryView,
) -> Option<(SpritesheetKind, Seq<char>)> {
    match first_fault(cache, SpritesheetKind::Face, entry.faces, 0) {
        Some(i) => if sprite_fault(cache, SpritesheetKind::Face, entry.faces[i]) == Some(
            Fault::MissingSheet,
        ) {
            Some((SpritesheetKind::Face, entry.faces[i].file_name))
        } else {
            None
        },
        None => match first_fault(cache, SpritesheetKind::Character, entry.characters, 0) {
            Some(i) => if sprite_fault(cache, SpritesheetKind::Character, entry.characters[i])
                == Some(Fault::MissingSheet) {
                Some((SpritesheetKind::Character, entry.characters[i].file_name))
            } else {
                None
            },
            None => None,
        },
    }
}

/// A sheet that an entry asks for is one that was not loaded: once it is loaded, it is
/// not asked for again.
pub proof fn needed_sheet_is_not_loaded(
    cache: Map<(SpritesheetKind, Seq<char>), ImageView>,
    entry: GlobalEntryView,
)
    ensures
        needed_sheet(cache, entry) matches Some(key) ==> !cache.contains_key(key),
{
}

/// A filled slot with the sprites that it shows.
#[derive(Debug, PartialEq, Eq)]
pub struct SaveEntry {
    pub global: GlobalEntry,
    pub face_images: Vec<Image>,
    pub character_images: Vec<Image>,
}

impl SaveEntry {
    /// Cuts the sprites that an entry names out of the sheets that were loaded: the
    /// faces first, then the characters, each list in its order.
    ///
    /// The first sprite that cannot be cut gives the error: a reading error where its
    /// sheet was not loaded, a sprite index error where the sheet has no sprite of that
    /// number.
    pub fn new(entry: GlobalEntry, file_cache: &SheetCache) -> (r: Result<Self, Error>)
        ensures
            match first_fault(file_cache@, SpritesheetKind::Face, entry@.faces, 0) {
                Some(i) => r matches Err(e) && is_fault_error(
                    e,
                    file_cache@,
                    SpritesheetKind::Face,
                    entry@.faces[i],
                ),
                None => match first_fault(
                    file_cache@,
                    SpritesheetKind::Character,
                    entry@.characters,
                    0,
                ) {
                    Some(i) => r matches Err(e) && is_fault_error(
                        e,
                        file_cache@,
                        SpritesheetKind::Character,
                        entry@.characters[i],
                    ),
                    None => r matches Ok(shown) && shown.global == entry && are_sprite_images(
                        shown.face_images@,
                        file_cache@,
                        SpritesheetKind::Face,
                        entry@.faces,
                    ) && are_sprite_images(
                        shown.character_images@,
                        file_cache@,
                        SpritesheetKind::Character,
                        entry@.characters,
                    ),
                },
            },
    {
        let face_images = match cut_sprites(SpritesheetKind::Face, &entry.faces, file_cache) {
            Ok(images) => images,
            Err(e) => {
                return Err(e);
            },
        };
        let character_images = match cut_sprites(
            SpritesheetKind::Character,
            &entry.characters,
            file_cache,
        ) {
            Ok(images) => images,
            Err(e) => {
                return Err(e);
            },
        };
        Ok(Self { global: entry, face_images, character_images })
    }

    /// Whether `new` can cut all the sprites of this entry.
    pub fn can_be_shown(entry: &GlobalEntry, file_cache: &SheetCache) -> (r: bool)
        ensures
            r == (first_fault(file_cache@, SpritesheetKind::Face, entry@.faces, 0) is None
                && first_fault(file_cache@, SpritesheetKind::Character, entry@.characters, 0)
                is None),
    {
        find_fault(SpritesheetKind::Face, &entry.faces, file_cache).is_none() && find_fault(
            SpritesheetKind::Character,
            &entry.characters,
            file_cache,
        ).is_none()
    }

    /// The sheet that has to be loaded before `new` can cut the sprites of this entry,
    /// if there is one.
    pub fn missing_sheet(entry: &GlobalEntry, file_cache: &SheetCache) -> (r: Option<SheetRequest>)
        ensures
            match needed_sheet(file_cache@, entry@) {
                Some((kind, file_name)) => r matches Some(request) && request.kind == kind
                    && request.file_name@ == file_name,
                None => r is None,
            },
    {
        match find_fault(SpritesheetKind::Face, &entry.faces, file_cache) {
            Some((i, fault)) => {
                assert(entry@.faces[i as int] == entry.faces@[i as int]@);
                request_for(SpritesheetKind::Face, &entry.faces[i], fault)
            },
            None => match find_fault(SpritesheetKind::Character, &entry.characters, file_cache) {
                Some((i, fault)) => {
                    assert(entry@.characters[i as int] == entry.characters@[i as int]@);
                    request_for(SpritesheetKind::Character, &entry.characters[i], fault)
                },
                None => None,
            },
        }
    }
}

/// The request for the sheet of a sprite, where the sheet is what the sprite wants.
fn request_for(kind: SpritesheetKind, sprite: &SpriteInfo, fault: Fault) -> (r: Option<SheetRequest>)
    ensures
        fault == Fault::MissingSheet ==> (r matches Some(request) && request.kind == kind
            && request.file_name@ == sprite@.file_name),
        fault != Fault::MissingSheet ==> r is None,
{
    match fault {
        Fault::MissingSheet => Some(SheetRequest { kind, file_name: sprite.file_name.clone() }),
        Fault::NoSuchSprite => None,
    }
}

} // verus!
