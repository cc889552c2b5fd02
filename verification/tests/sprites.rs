use rpgmv_codec::image::{Image, Rect, Spritesheet, SpritesheetKind};

/// An image whose pixel in column x of row y is [x, y, x + y, 255].
fn gradient(width: u32, height: u32) -> Image {
    let mut data = Vec::new();
    for y in 0..height {
        for x in 0..width {
            data.extend_from_slice(&[x as u8, y as u8, (x + y) as u8, 255]);
        }
    }
    Image::from_raw(width, height, data).unwrap()
}

#[test]
fn layouts_have_their_grids() {
    let character = SpritesheetKind::Character.sprite_count();
    assert_eq!((character.x, character.y), (12, 8));
    let face = SpritesheetKind::Face.sprite_count();
    assert_eq!((face.x, face.y), (3, 4));
}

#[test]
fn image_needs_four_bytes_for_each_pixel() {
    assert!(Image::from_raw(2, 3, vec![0; 24]).is_some());
    assert!(Image::from_raw(2, 3, vec![0; 23]).is_none());
    assert!(Image::from_raw(2, 3, vec![0; 25]).is_none());
    assert!(Image::from_raw(2, 3, vec![0; 28]).is_none());
    assert!(Image::from_raw(0, 0, vec![]).is_some());
    assert!(Image::from_raw(0, 7, vec![]).is_some());
    assert!(Image::from_raw(u32::MAX, u32::MAX, vec![0; 4]).is_none());
    let image = Image::from_raw(1, 2, vec![1, 2, 3, 4, 5, 6, 7, 8]).unwrap();
    assert_eq!((image.width(), image.height()), (1, 2));
    assert_eq!(image.as_raw(), &[1, 2, 3, 4, 5, 6, 7, 8]);
    assert_eq!(image.into_raw(), vec![1, 2, 3, 4, 5, 6, 7, 8]);
}

#[test]
fn character_sheet_of_120_by_80_has_96_sprites_of_10_by_10() {
    let sheet = Spritesheet::new(SpritesheetKind::Character, gradient(120, 80));
    assert_eq!(sheet.len(), 96);
    assert_eq!(sheet.kind(), SpritesheetKind::Character);
    for index in 0..96 {
        let sprite = sheet.get_subimage(index).unwrap();
        assert_eq!((sprite.width(), sprite.height()), (10, 10));
        let expected = Rect {
            x: (index as u32 % 12) * 10,
            y: (index as u32 / 12) * 10,
            width: 10,
            height: 10,
        };
        assert_eq!(sprite.bounds(), expected);
    }
    // Row 1, column 1.
    let sprite = sheet.get_subimage(13).unwrap();
    assert_eq!(sprite.bounds(), Rect { x: 10, y: 10, width: 10, height: 10 });
}

#[test]
fn character_sheet_of_120_by_64_has_96_sprites_of_10_by_8() {
    let sheet = Spritesheet::new(SpritesheetKind::Character, gradient(120, 64));
    assert_eq!(sheet.len(), 96);
    for index in 0..96 {
        let sprite = sheet.get_subimage(index).unwrap();
        assert_eq!((sprite.width(), sprite.height()), (10, 8));
    }
    // Row 1, column 1.
    let sprite = sheet.get_subimage(13).unwrap();
    assert_eq!(sprite.bounds(), Rect { x: 10, y: 8, width: 10, height: 8 });
    let image = sprite.to_image();
    assert_eq!((image.width(), image.height()), (10, 8));
    assert_eq!(&image.as_raw()[..4], &[10, 8, 18, 255]);
}

#[test]
fn no_sprite_beyond_the_grid() {
    let sheet = Spritesheet::new(SpritesheetKind::Character, gradient(120, 80));
    assert!(sheet.get_subimage(95).is_some());
    assert!(sheet.get_subimage(96).is_none());
    assert!(sheet.get_subimage(usize::MAX).is_none());
    let faces = Spritesheet::new(SpritesheetKind::Face, gradient(6, 8));
    assert_eq!(faces.len(), 12);
    assert!(faces.get_subimage(11).is_some());
    assert!(faces.get_subimage(12).is_none());
}

#[test]
fn sprite_copies_the_pixels_of_its_cell() {
    let sheet = Spritesheet::new(SpritesheetKind::Face, gradient(6, 8));
    // 3 columns by 4 rows over 6 by 8 pixels: cells of 2 by 2.
    let sprite = sheet.get_subimage(7).unwrap();
    assert_eq!(sprite.bounds(), Rect { x: 2, y: 4, width: 2, height: 2 });
    let image = sprite.to_image();
    assert_eq!((image.width(), image.height()), (2, 2));
    assert_eq!(
        image.as_raw(),
        &[2, 4, 6, 255, 3, 4, 7, 255, 2, 5, 7, 255, 3, 5, 8, 255]
    );
}

#[test]
fn every_sprite_matches_the_sheet_pixel_by_pixel() {
    let sheet = Spritesheet::new(SpritesheetKind::Character, gradient(36, 24));
    let source = sheet.image().as_raw().to_vec();
    for index in 0..sheet.len() {
        let sprite = sheet.get_subimage(index).unwrap();
        let rect = sprite.bounds();
        assert!(rect.x + rect.width <= 36 && rect.y + rect.height <= 24);
        let image = sprite.to_image();
        let raw = image.as_raw();
        assert_eq!(raw.len(), (4 * rect.width * rect.height) as usize);
        for y in 0..rect.height {
            for x in 0..rect.width {
                for c in 0..4 {
                    let from = 4 * ((rect.y + y) * 36 + rect.x + x) + c;
                    let to = 4 * (y * rect.width + x) + c;
                    assert_eq!(raw[to as usize], source[from as usize]);
                }
            }
        }
    }
}

#[test]
fn pixels_left_over_belong_to_no_sprite() {
    // 35 by 17 pixels under 12 by 8: cells of 2 by 2, 11 columns and 1 row left over.
    let sheet = Spritesheet::new(SpritesheetKind::Character, gradient(35, 17));
    let first = sheet.get_subimage(0).unwrap();
    assert_eq!(first.bounds(), Rect { x: 0, y: 0, width: 2, height: 2 });
    let thirteenth = sheet.get_subimage(13).unwrap();
    assert_eq!(thirteenth.bounds(), Rect { x: 2, y: 2, width: 2, height: 2 });
    let last = sheet.get_subimage(95).unwrap();
    assert_eq!(last.bounds(), Rect { x: 22, y: 14, width: 2, height: 2 });
}

#[test]
fn image_smaller_than_its_grid_has_empty_sprites() {
    let sheet = Spritesheet::new(SpritesheetKind::Character, gradient(5, 5));
    assert_eq!(sheet.len(), 96);
    let sprite = sheet.get_subimage(50).unwrap();
    assert_eq!(sprite.bounds(), Rect { x: 0, y: 0, width: 0, height: 0 });
    let image = sprite.to_image();
    assert_eq!((image.width(), image.height()), (0, 0));
    assert!(image.as_raw().is_empty());
    let empty = Spritesheet::new(SpritesheetKind::Face, gradient(0, 0));
    assert_eq!(empty.len(), 12);
    assert!(empty.get_subimage(0).unwrap().to_image().as_raw().is_empty());
}

#[test]
fn sprite_is_read_in_place_until_it_is_copied() {
    let sheet = Spritesheet::new(SpritesheetKind::Face, gradient(9, 4));
    let sprite = sheet.get_subimage(5).unwrap();
    assert_eq!(sprite.bounds(), Rect { x: 6, y: 1, width: 3, height: 1 });
    assert_eq!((sprite.width(), sprite.height()), (3, 1));
    assert_eq!(sheet.image().width(), 9);
    assert_eq!(sprite.to_image(), sprite.to_image());
    assert_eq!(sprite.to_image().into_raw(), vec![6, 1, 7, 255, 7, 1, 8, 255, 8, 1, 9, 255]);
}
