//! The keyed image container, and the grid of sprites cut out of a decoded sheet.

use vstd::prelude::*;
use vstd::slice::slice_subrange;

use crate::encryption_key::xor_stream;
use crate::encryption_key::EncryptionKey;
use crate::error::Error;

verus! {

/// The first 16 bytes of every PNG file: the signature and the head of the `IHDR` chunk.
pub const DEFAULT_PNG_HEADER: [u8; 16] = [
    0x89, 0x50, 0x4e, 0x47, 0x0d, 0x0a, 0x1a, 0x0a, 0x00, 0x00, 0x00, 0x0d, 0x49, 0x48, 0x44, 0x52,
];

/// Where the ciphered block of a container starts; the bytes before it are ignored.
pub const HEADER_START: usize = 16;

/// Where the plain body of a container starts.
pub const BODY_START: usize = 32;

/// The ciphered block of a container: its bytes 16 to 31.
pub open spec fn header_block(source: Seq<u8>) -> Seq<u8> {
    source.subrange(HEADER_START as int, BODY_START as int)
}

/// The plain body of a container: everything from byte 32 on.
pub open spec fn body(source: Seq<u8>) -> Seq<u8> {
    source.subrange(BODY_START as int, source.len() as int)
}

/// The key under which the ciphered block of `source` deciphers to the PNG header.
pub open spec fn derived_key(source: Seq<u8>) -> Seq<u8> {
    xor_stream(DEFAULT_PNG_HEADER@, header_block(source))
}

/// The image that a container of at least 32 bytes holds under `key`: the deciphered
/// block, then the body as it is.
pub open spec fn decrypted(key: Seq<u8>, source: Seq<u8>) -> Seq<u8> {
    xor_stream(key, header_block(source)) + body(source)
}

/// The key that `decrypt` works with: the one given, or else the derived one.
pub open spec fn resolved_key(key: Option<EncryptionKey>, source: Seq<u8>) -> Seq<u8> {
    match key {
        Some(k) => k@,
        None => derived_key(source),
    }
}

/// Recovers the key of a container from the PNG header that its ciphered block is known
/// to hide. A container of fewer than 32 bytes has no such block and is refused.
pub fn derive_key(data: &[u8]) -> (r: Result<EncryptionKey, Error>)
    ensures
        data@.len() < BODY_START <==> r is Err,
        r matches Err(e) ==> e is Truncated,
        r matches Ok(key) ==> key@ == derived_key(data@),
{
    if data.len() < BODY_START {
        return Err(Error::Truncated);
    }
    let derived = EncryptionKey::new(DEFAULT_PNG_HEADER).xor(slice_subrange(data, HEADER_START, BODY_START));
    let mut bytes: [u8; 16] = [0u8; 16];
    let mut i: usize = 0;
    while i < 16
        invariant
            i <= 16,
            derived@.len() == 16,
            forall|j: int| 0 <= j < i ==> bytes@[j] == derived@[j],
        decreases 16 - i,
    {
        bytes[i] = derived[i];
        i += 1;
    }
    assert(bytes@ =~= derived@);
    Ok(EncryptionKey::new(bytes))
}

/// Turns a container into the image it holds: the first 16 bytes are dropped, the next
/// 16 are deciphered with the key, and the rest is kept as it is.
///
/// Without a key, the one that `derive_key` finds is used. A container of fewer than
/// 32 bytes is refused.
pub fn decrypt(key: Option<EncryptionKey>, data: &[u8]) -> (r: Result<Vec<u8>, Error>)
    ensures
        data@.len() < BODY_START <==> r is Err,
        r matches Err(e) ==> e is Truncated,
        r matches Ok(out) ==> out@ == decrypted(resolved_key(key, data@), data@),
{
    if data.len() < BODY_START {
        return Err(Error::Truncated);
    }
    let key = match key {
        Some(key) => key,
        None => match derive_key(data) {
            Ok(key) => key,
            Err(e) => {
                return Err(e);
            },
        },
    };
    let mut output = key.xor(slice_subrange(data, HEADER_START, BODY_START));
    output.extend_from_slice(slice_subrange(data, BODY_START, data.len()));
    Ok(output)
}

/// `decrypt` without a key.
pub fn decrypt_derive_key(data: &[u8]) -> (r: Result<Vec<u8>, Error>)
    ensures
        data@.len() < BODY_START <==> r is Err,
        r matches Err(e) ==> e is Truncated,
        r matches Ok(out) ==> out@ == decrypted(derived_key(data@), data@),
{
    decrypt(None, data)
}

/// What is deciphered with the derived key always starts with the PNG header.
pub proof fn derived_key_gives_png_header(source: Seq<u8>)
    requires
        source.len() >= BODY_START,
    ensures
        decrypted(derived_key(source), source) == DEFAULT_PNG_HEADER@ + body(source),
{
    let block = header_block(source);
    let key = derived_key(source);
    assert forall|i: int| 0 <= i < 16 implies xor_stream(key, block)[i]
        == DEFAULT_PNG_HEADER@[i] by {
        let c = block[i];
        let p = DEFAULT_PNG_HEADER@[i];
        assert(c ^ (c ^ p) == p) by (bit_vector);
    }
    assert(xor_stream(key, block) =~= DEFAULT_PNG_HEADER@);
}

/// Where the ciphered block of a container is the PNG header under `key`, the derived
/// key is `key`, and the container deciphers to the PNG header and the body.
pub proof fn derived_key_recovers_key(key: EncryptionKey, source: Seq<u8>)
    requires
        source.len() >= BODY_START,
        header_block(source) == xor_stream(key@, DEFAULT_PNG_HEADER@),
    ensures
        derived_key(source) == key@,
        decrypted(derived_key(source), source) == DEFAULT_PNG_HEADER@ + body(source),
{
    key.has_key_len();
    let block = header_block(source);
    assert forall|i: int| 0 <= i < 16 implies derived_key(source)[i] == key@[i] by {
        let k = key@[i];
        let p = DEFAULT_PNG_HEADER@[i];
        assert(block[i] == p ^ k);
        assert((p ^ k) ^ p == k) by (bit_vector);
    }
    assert(derived_key(source) =~= key@);
    derived_key_gives_png_header(source);
}

/// A pair of coordinates, or of counts along the two axes.
#[derive(Debug)]
pub struct Point<T> {
    pub x: T,
    pub y: T,
}

/// The layouts of sprite sheets that the engine knows.
#[derive(Debug, PartialEq, Eq, Clone, Copy, Structural)]
pub enum SpritesheetKind {
    /// Walking characters: 12 columns by 8 rows.
    Character,
    /// Portraits: 3 columns by 4 rows.
    Face,
}

impl SpritesheetKind {
    /// The number of columns (`x`) and of rows (`y`) of the layout.
    pub open spec fn grid(self) -> Point<usize> {
        match self {
            SpritesheetKind::Character => Point { x: 12, y: 8 },
            SpritesheetKind::Face => Point { x: 3, y: 4 },
        }
    }

    /// The number of sprites of the layout.
    pub open spec fn cell_count(self) -> nat {
        (self.grid().x * self.grid().y) as nat
    }

    /// A character sheet has 96 sprites, a face sheet 12.
    pub proof fn cell_count_is_known(self)
        ensures
            self.cell_count() == (match self {
                SpritesheetKind::Character => 96nat,
                SpritesheetKind::Face => 12nat,
            }),
    {
        assert(12 * 8 == 96 && 3 * 4 == 12) by (nonlinear_arith);
    }

    /// The number of columns (`x`) and of rows (`y`) of the layout. No layout is
    /// without columns or without rows.
    pub fn sprite_count(&self) -> (count: Point<usize>)
        ensures
            count == self.grid(),
            count.x > 0,
            count.y > 0,
    {
        match self {
            Self::Character => Point { x: 12, y: 8 },
            Self::Face => Point { x: 3, y: 4 },
        }
    }
}

/// A rectangle of pixels: its top left corner and its size.
#[derive(Debug, PartialEq, Eq, Clone, Copy, Structural)]
pub struct Rect {
    pub x: u32,
    pub y: u32,
    pub width: u32,
    pub height: u32,
}

/// Number of bytes of one pixel: red, green, blue, alpha.
pub const BYTES_PER_PIXEL: usize = 4;

/// What an image is: its size in pixels, and its pixels row by row from the top, four
/// bytes each.
pub struct ImageView {
    pub width: nat,
    pub height: nat,
    pub data: Seq<u8>,
}

impl ImageView {
    /// There are exactly as many bytes as the size asks for.
    pub open spec fn well_formed(self) -> bool {
        self.data.len() == BYTES_PER_PIXEL * self.width * self.height
    }

    /// Byte `channel` of the pixel in column `x` of row `y`.
    pub open spec fn byte(self, x: int, y: int, channel: int) -> u8 {
        byte_at(self.data, self.width as int, x, y, channel)
    }

    /// The rectangle lies within the image.
    pub open spec fn contains(self, r: Rect) -> bool {
        &&& r.x + r.width <= self.width
        &&& r.y + r.height <= self.height
    }

    /// This image is the part of `source` that `r` covers.
    pub open spec fn is_crop_of(self, source: ImageView, r: Rect) -> bool {
        &&& self.width == r.width
        &&& self.height == r.height
        &&& self.well_formed()
        &&& forall|x: int, y: int, c: int|
            0 <= x < r.width && 0 <= y < r.height && 0 <= c < BYTES_PER_PIXEL ==> #[trigger] self.byte(
                x,
                y,
                c,
            ) == source.byte(r.x + x, r.y + y, c)
    }
}

/// Cell `index` of the grid that `kind` lays over an image of the given size. Cells are
/// numbered row by row; each is the image's width divided by the number of columns wide
/// and its height divided by the number of rows high, fractions dropped.
pub open spec fn grid_cell(kind: SpritesheetKind, width: nat, height: nat, index: int) -> Rect {
    let columns = kind.grid().x as int;
    let rows = kind.grid().y as int;
    let cell_width = width as int / columns;
    let cell_height = height as int / rows;
    Rect {
        x: ((index % columns) * cell_width) as u32,
        y: ((index / columns) * cell_height) as u32,
        width: cell_width as u32,
        height: cell_height as u32,
    }
}

/// All the cells of the grid, in the order of their numbers.
pub open spec fn grid_cells(kind: SpritesheetKind, width: nat, height: nat) -> Seq<Rect> {
    Seq::new(kind.cell_count(), |index: int| grid_cell(kind, width, height, index))
}

proof fn lemma_cell_span(position: int, count: int, extent: int)
    by (nonlinear_arith)
    requires
        0 <= position < count,
        0 <= extent,
    ensures
        0 <= position * (extent / count),
        position * (extent / count) + extent / count <= extent,
{
}

/// Every cell of a grid lies within the image, and its corner is the product that
/// `grid_cell` names, without wrapping.
pub proof fn grid_cell_is_inside(kind: SpritesheetKind, width: nat, height: nat, index: int)
    requires
        0 <= index < kind.cell_count(),
        width <= u32::MAX,
        height <= u32::MAX,
    ensures
        ({
            let cell = grid_cell(kind, width, height, index);
            &&& cell.width == width as int / (kind.grid().x as int)
            &&& cell.height == height as int / (kind.grid().y as int)
            &&& cell.x == (index % (kind.grid().x as int)) * cell.width
            &&& cell.y == (index / (kind.grid().x as int)) * cell.height
            &&& cell.x + cell.width <= width
            &&& cell.y + cell.height <= height
        }),
{
    let columns = kind.grid().x as int;
    let rows = kind.grid().y as int;
    kind.cell_count_is_known();
    lemma_cell_span(index % columns, columns, width as int);
    lemma_cell_span(index / columns, rows, height as int);
}

/// Byte `channel` of the pixel in column `x` of row `y`, where rows are `width` pixels long.
pub open spec fn byte_at(data: Seq<u8>, width: int, x: int, y: int, channel: int) -> u8 {
    data[BYTES_PER_PIXEL * (y * width + x) + channel]
}

proof fn lemma_pixel_offset(x: int, y: int, width: int, height: int)
    by (nonlinear_arith)
    requires
        0 <= x < width,
        0 <= y < height,
    ensures
        0 <= y * width + x < width * height,
        y * width + width <= width * height,
{
}

proof fn lemma_pixel_of_byte(k: int, width: int, height: int)
    by (nonlinear_arith)
    requires
        0 <= k < BYTES_PER_PIXEL * width * height,
        0 <= width,
        0 <= height,
    ensures
        width > 0,
        0 <= (k / 4) % width < width,
        0 <= (k / 4) / width < height,
        0 <= k % 4 < 4,
        k == BYTES_PER_PIXEL * (((k / 4) / width) * width + (k / 4) % width) + k % 4,
{
}

/// A rectangle of an image has one crop and no other.
pub proof fn crop_is_unique(a: ImageView, b: ImageView, source: ImageView, r: Rect)
    requires
        a.is_crop_of(source, r),
        b.is_crop_of(source, r),
    ensures
        a == b,
{
    let width = r.width as int;
    let height = r.height as int;
    assert(a.data.len() == b.data.len());
    assert forall|k: int| 0 <= k < a.data.len() implies a.data[k] == b.data[k] by {
        lemma_pixel_of_byte(k, width, height);
        let x = (k / 4) % width;
        let y = (k / 4) / width;
        let c = k % 4;
        assert(a.byte(x, y, c) == source.byte(r.x + x, r.y + y, c));
        assert(b.byte(x, y, c) == source.byte(r.x + x, r.y + y, c));
    }
    assert(a.data =~= b.data);
}

/// A decoded image: RGBA, eight bits a channel.
#[derive(Debug, PartialEq, Eq)]
pub struct Image {
    width: u32,
    height: u32,
    data: Vec<u8>,
}

impl View for Image {
    type V = ImageView;

    closed spec fn view(&self) -> ImageView {
        ImageView { width: self.width as nat, height: self.height as nat, data: self.data@ }
    }
}

impl Image {
    #[verifier::type_invariant]
    spec fn has_all_bytes(self) -> bool {
        self@.well_formed()
    }

    /// The image of the given size over the given bytes, if there are four bytes for
    /// each pixel and no more.
    pub fn from_raw(width: u32, height: u32, data: Vec<u8>) -> (r: Option<Self>)
        ensures
            r is Some <==> data@.len() == BYTES_PER_PIXEL * width * height,
            r matches Some(image) ==> image@ == (ImageView {
                width: width as nat,
                height: height as nat,
                data: data@,
            }),
    {
        assert(0 <= width * height <= 0xffff_ffff * 0xffff_ffff) by (nonlinear_arith)
            requires
                0 <= width <= 0xffff_ffff,
                0 <= height <= 0xffff_ffff,
        ;
        let pixels: u64 = (width as u64) * (height as u64);
        assert(BYTES_PER_PIXEL * width * height == 4 * (width * height)) by (nonlinear_arith);
        if data.len() % BYTES_PER_PIXEL != 0 || (data.len() / BYTES_PER_PIXEL) as u64 != pixels {
            return None;
        }
        Some(Image { width, height, data })
    }

    /// Width in pixels.
    pub fn width(&self) -> (w: u32)
        ensures
            w == self@.width,
    {
        self.width
    }

    /// Height in pixels.
    pub fn height(&self) -> (h: u32)
        ensures
            h == self@.height,
    {
        self.height
    }

    /// The bytes of the image, row by row.
    pub fn as_raw(&self) -> (bytes: &[u8])
        ensures
            bytes@ == self@.data,
            self@.well_formed(),
    {
        proof {
            use_type_invariant(self);
        }
        self.data.as_slice()
    }

    /// Gives the bytes of the image up.
    pub fn into_raw(self) -> (bytes: Vec<u8>)
        ensures
            bytes@ == self@.data,
            self@.well_formed(),
    {
        proof {
            use_type_invariant(&self);
        }
        self.data
    }
}

/// A rectangle of an image, read in place.
pub struct SubImage<'a> {
    source: &'a Image,
    bounds: Rect,
}

impl<'a> SubImage<'a> {
    #[verifier::type_invariant]
    spec fn lies_inside(self) -> bool {
        self.source@.contains(self.bounds)
    }

    /// The image that is read.
    pub closed spec fn source(self) -> ImageView {
        self.source@
    }

    /// The rectangle that is read.
    pub closed spec fn rect(self) -> Rect {
        self.bounds
    }

    /// The rectangle that is read. It lies within the image.
    pub fn bounds(&self) -> (r: Rect)
        ensures
            r == self.rect(),
            self.source().contains(r),
    {
        proof {
            use_type_invariant(self);
        }
        self.bounds
    }

    /// Width in pixels.
    pub fn width(&self) -> (w: u32)
        ensures
            w == self.rect().width,
    {
        self.bounds.width
    }

    /// Height in pixels.
    pub fn height(&self) -> (h: u32)
        ensures
            h == self.rect().height,
    {
        self.bounds.height
    }

    /// Copies the rectangle out into an image of its own.
    pub fn to_image(&self) -> (image: Image)
        ensures
            image@.is_crop_of(self.source(), self.rect()),
    {
        proof {
            use_type_invariant(self);
            use_type_invariant(self.source);
        }
        let source_width: usize = self.source.width as usize;
        let source_height: usize = self.source.height as usize;
        let left: usize = self.bounds.x as usize;
        let top: usize = self.bounds.y as usize;
        let width: usize = self.bounds.width as usize;
        let height: usize = self.bounds.height as usize;
        let total: usize = self.source.data.len();
        let ghost source = self.source@;
        assert(total == BYTES_PER_PIXEL * (source_width * source_height))
            by (nonlinear_arith)
            requires
                total == source.data.len(),
                source.data.len() == BYTES_PER_PIXEL * source.width * source.height,
                source_width == source.width,
                source_height == source.height,
        ;
        let mut data: Vec<u8> = Vec::new();
        let mut y: usize = 0;
        while y < height
            invariant
                y <= height,
                source == self.source@,
                self.source.data@ == source.data,
                source_width == source.width,
                source.data.len() == total,
                total == BYTES_PER_PIXEL * (source_width * source_height),
                left + width <= source_width,
                top + height <= source_height,
                data@.len() == BYTES_PER_PIXEL * (y * width),
                forall|px: int, py: int, c: int|
                    0 <= px < width && 0 <= py < y && 0 <= c < BYTES_PER_PIXEL ==> #[trigger] byte_at(
                        data@,
                        width as int,
                        px,
                        py,
                        c,
                    ) == source.byte(left + px, top + py, c),
            decreases height - y,
        {
            let mut x: usize = 0;
            while x < width
                invariant
                    x <= width,
                    y < height,
                    source == self.source@,
                    self.source.data@ == source.data,
                    source_width == source.width,
                    source.data.len() == total,
                    total == BYTES_PER_PIXEL * (source_width * source_height),
                    left + width <= source_width,
                    top + height <= source_height,
                    data@.len() == BYTES_PER_PIXEL * (y * width + x),
                    forall|px: int, py: int, c: int|
                        0 <= px < width && 0 <= py < y && 0 <= c < BYTES_PER_PIXEL
                            ==> #[trigger] byte_at(data@, width as int, px, py, c) == source.byte(
                            left + px,
                            top + py,
                            c,
                        ),
                    forall|px: int, c: int|
                        0 <= px < x && 0 <= c < BYTES_PER_PIXEL ==> #[trigger] byte_at(
                            data@,
                            width as int,
                            px,
                            y as int,
                            c,
                        ) == source.byte(left + px, top + y, c),
                decreases width - x,
            {
                let row: usize = top + y;
                let column: usize = left + x;
                proof {
                    lemma_pixel_offset(
                        column as int,
                        row as int,
                        source_width as int,
                        source_height as int,
                    );
                    assert(0 <= row * source_width) by (nonlinear_arith);
                }
                let from: usize = BYTES_PER_PIXEL * (row * source_width + column);
                let ghost before = data@;
                data.push(self.source.data[from]);
                data.push(self.source.data[from + 1]);
                data.push(self.source.data[from + 2]);
                data.push(self.source.data[from + 3]);
                assert forall|px: int, c: int|
                    0 <= px < x + 1 && 0 <= c < BYTES_PER_PIXEL implies #[trigger] byte_at(
                    data@,
                    width as int,
                    px,
                    y as int,
                    c,
                ) == source.byte(left + px, top + y, c) by {
                    if px < x {
                        assert(byte_at(data@, width as int, px, y as int, c) == byte_at(
                            before,
                            width as int,
                            px,
                            y as int,
                            c,
                        ));
                    }
                }
                assert forall|px: int, py: int, c: int|
                    0 <= px < width && 0 <= py < y && 0 <= c < BYTES_PER_PIXEL
                        implies #[trigger] byte_at(data@, width as int, px, py, c) == source.byte(
                    left + px,
                    top + py,
                    c,
                ) by {
                    lemma_pixel_offset(px, py, width as int, y as int);
                    assert(width * y == y * width) by (nonlinear_arith);
                    assert(byte_at(data@, width as int, px, py, c) == byte_at(
                        before,
                        width as int,
                        px,
                        py,
                        c,
                    ));
                }
                x += 1;
            }
            assert(y * width + width == (y + 1) * width) by (nonlinear_arith);
            y += 1;
        }
        assert(BYTES_PER_PIXEL * (height * width) == BYTES_PER_PIXEL * width * height)
            by (nonlinear_arith);
        let image = Image { width: self.bounds.width, height: self.bounds.height, data };
        assert forall|px: int, py: int, c: int|
            0 <= px < width && 0 <= py < height && 0 <= c < BYTES_PER_PIXEL
                implies #[trigger] image@.byte(px, py, c) == source.byte(left + px, top + py, c) by {
            assert(image@.byte(px, py, c) == byte_at(image.data@, width as int, px, py, c));
        }
        image
    }
}

/// A decoded sheet and the grid of sprites that its layout cuts it into.
///
/// The sheet owns the image. A sprite is handed out as a rectangle of that image, which
/// is read in place.
pub struct Spritesheet {
    kind: SpritesheetKind,
    image: Image,
    cells: Vec<Rect>,
}

impl Spritesheet {
    #[verifier::type_invariant]
    spec fn is_cut_by_its_grid(self) -> bool {
        self.cells@ == grid_cells(self.kind, self.image@.width, self.image@.height)
    }

    /// The layout of the sheet.
    pub closed spec fn layout(self) -> SpritesheetKind {
        self.kind
    }

    /// The image of the sheet.
    pub closed spec fn picture(self) -> ImageView {
        self.image@
    }

    /// Cuts `image` into the grid of `kind`: as many sprites as the layout has cells,
    /// numbered row by row, each the cell that `grid_cell` gives.
    ///
    /// Where the image's width is no multiple of the number of columns, or its height
    /// none of the number of rows, the pixels left over belong to no sprite.
    pub fn new(kind: SpritesheetKind, image: Image) -> (sheet: Self)
        ensures
            sheet.layout() == kind,
            sheet.picture() == image@,
    {
        let count = kind.sprite_count();
        let columns: u32 = count.x as u32;
        let rows: u32 = count.y as u32;
        let cell_width: u32 = image.width() / columns;
        let cell_height: u32 = image.height() / rows;
        let total: u32 = columns * rows;
        proof {
            kind.cell_count_is_known();
        }
        let mut cells: Vec<Rect> = Vec::with_capacity(total as usize);
        let mut index: u32 = 0;
        while index < total
            invariant
                index <= total,
                total == kind.cell_count(),
                columns == kind.grid().x,
                rows == kind.grid().y,
                cell_width == image@.width as int / (columns as int),
                cell_height == image@.height as int / (rows as int),
                image@.width <= u32::MAX,
                image@.height <= u32::MAX,
                cells@.len() == index,
                forall|i: int|
                    0 <= i < index ==> cells@[i] == grid_cell(
                        kind,
                        image@.width,
                        image@.height,
                        i,
                    ),
            decreases total - index,
        {
            proof {
                grid_cell_is_inside(kind, image@.width, image@.height, index as int);
            }
            cells.push(
                Rect {
                    x: (index % columns) * cell_width,
                    y: (index / columns) * cell_height,
                    width: cell_width,
                    height: cell_height,
                },
            );
            index += 1;
        }
        assert(cells@ =~= grid_cells(kind, image@.width, image@.height));
        Spritesheet { kind, image, cells }
    }

    /// The layout of the sheet.
    pub fn kind(&self) -> (kind: SpritesheetKind)
        ensures
            kind == self.layout(),
    {
        self.kind
    }

    /// The image of the sheet.
    pub fn image(&self) -> (image: &Image)
        ensures
            image@ == self.picture(),
    {
        &self.image
    }

    /// The number of sprites.
    pub fn len(&self) -> (n: usize)
        ensures
            n == self.layout().cell_count(),
    {
        proof {
            use_type_invariant(self);
        }
        self.cells.len()
    }

    /// Sprite `index` of the sheet, or nothing where the layout has no such cell.
    ///
    /// The sprite is the cell that `grid_cell` gives, and it lies within the image.
    pub fn get_subimage(&self, index: usize) -> (r: Option<SubImage<'_>>)
        ensures
            r is Some <==> index < self.layout().cell_count(),
            r matches Some(sprite) ==> {
                &&& sprite.source() == self.picture()
                &&& sprite.rect() == grid_cell(
                    self.layout(),
                    self.picture().width,
                    self.picture().height,
                    index as int,
                )
                &&& self.picture().contains(sprite.rect())
            },
    {
        proof {
            use_type_invariant(self);
        }
        if index >= self.cells.len() {
            return None;
        }
        proof {
            grid_cell_is_inside(self.kind, self.image@.width, self.image@.height, index as int);
        }
        Some(SubImage { source: &self.image, bounds: self.cells[index] })
    }
}

} // verus!
