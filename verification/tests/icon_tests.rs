use battery_health_keeper::desktop::{desktop_entry, desktop_paths};
use battery_health_keeper::icon::{
    app_icon, decode_picture, desktop_icon, fallback_icon, icon_or_fallback, Picture,
};
use battery_health_keeper::path::FilePath;

fn png(width: u32, height: u32, pixel: [u8; 4]) -> Vec<u8> {
    let picture = image::RgbaImage::from_pixel(width, height, image::Rgba(pixel));
    let mut file = std::io::Cursor::new(Vec::new());
    image::DynamicImage::ImageRgba8(picture)
        .write_to(&mut file, image::ImageFormat::Png)
        .unwrap();
    file.into_inner()
}

#[test]
fn test_app_icon_loads() {
    let icon = app_icon(&png(40, 20, [10, 20, 30, 255]));
    assert!(icon.width > 0);
    assert!(icon.height > 0);
    assert_eq!(icon.rgba.len(), (icon.width * icon.height * 4) as usize);
}

#[test]
fn test_fallback_icon_valid() {
    let icon = fallback_icon();
    assert_eq!(icon.width, 32);
    assert_eq!(icon.height, 32);
    assert_eq!(icon.rgba.len(), (32 * 32 * 4) as usize);
}

#[test]
fn icon_has_the_desktop_size() {
    let icon = app_icon(&png(40, 20, [10, 20, 30, 255]));
    assert_eq!((icon.width, icon.height), (128, 128));
    assert_eq!(&icon.rgba[..4], &[10, 20, 30, 255]);
}

#[test]
fn icon_that_cannot_be_decoded_is_drawn() {
    for bytes in [&b""[..], &b"no picture"[..], &png(4, 4, [1, 2, 3, 4])[..30]] {
        let icon = app_icon(bytes);
        assert_eq!((icon.width, icon.height), (32, 32));
        assert_eq!(icon.rgba, fallback_icon().rgba);
        assert!(decode_picture(bytes).is_none());
        assert!(desktop_icon(bytes).is_none());
    }
}

#[test]
fn picture_is_decoded_at_its_own_size() {
    let picture = decode_picture(&png(3, 2, [10, 20, 30, 40])).unwrap();
    assert_eq!((picture.width, picture.height), (3, 2));
    assert_eq!(picture.rgba, [10, 20, 30, 40].repeat(6));
}

#[test]
fn picture_without_opacity_is_decoded() {
    let rgb = image::RgbImage::from_pixel(2, 1, image::Rgb([10, 20, 30]));
    let mut file = std::io::Cursor::new(Vec::new());
    image::DynamicImage::ImageRgb8(rgb)
        .write_to(&mut file, image::ImageFormat::Png)
        .unwrap();
    let picture = decode_picture(&file.into_inner()).unwrap();
    assert_eq!(picture.rgba, vec![10, 20, 30, 255, 10, 20, 30, 255]);
}

#[test]
fn desktop_icon_is_a_picture_file() {
    let file = desktop_icon(&png(40, 20, [10, 20, 30, 255])).unwrap();
    let picture = decode_picture(&file).unwrap();
    assert_eq!((picture.width, picture.height), (128, 128));
    assert_eq!(&picture.rgba[..4], &[10, 20, 30, 255]);
}

#[test]
fn desktop_icon_of_the_desktop_size_keeps_its_pixels() {
    let mut picture = image::RgbaImage::new(128, 128);
    for (x, y, pixel) in picture.enumerate_pixels_mut() {
        *pixel = image::Rgba([x as u8, y as u8, (x ^ y) as u8, (x + y) as u8]);
    }
    let expected = picture.clone().into_raw();
    let mut file = std::io::Cursor::new(Vec::new());
    image::DynamicImage::ImageRgba8(picture)
        .write_to(&mut file, image::ImageFormat::Png)
        .unwrap();
    let icon = desktop_icon(&file.into_inner()).unwrap();
    let picture = decode_picture(&icon).unwrap();
    assert_eq!((picture.width, picture.height), (128, 128));
    assert_eq!(picture.rgba, expected);
}

#[test]
fn desktop_icon_keeps_the_depth() {
    let grey = image::DynamicImage::ImageLuma8(image::GrayImage::from_fn(128, 128, |x, y| {
        image::Luma([(x * 2 + y) as u8])
    }));
    let grey_with_opacity =
        image::DynamicImage::ImageLumaA8(image::GrayAlphaImage::from_fn(128, 128, |x, y| {
            image::LumaA([x as u8, y as u8])
        }));
    let rgb = image::DynamicImage::ImageRgb8(image::RgbImage::from_fn(128, 128, |x, y| {
        image::Rgb([x as u8, y as u8, (x + y) as u8])
    }));
    let wide = image::DynamicImage::ImageRgb16(image::ImageBuffer::from_fn(128, 128, |x, y| {
        image::Rgb([(x * 500) as u16, (y * 500) as u16, (x + y) as u16])
    }));
    for picture in [grey, grey_with_opacity, rgb, wide] {
        let mut file = std::io::Cursor::new(Vec::new());
        picture.write_to(&mut file, image::ImageFormat::Png).unwrap();
        let icon = desktop_icon(&file.into_inner()).unwrap();
        let written = image::load_from_memory(&icon).unwrap();
        assert_eq!(written.color(), picture.color());
        assert_eq!(written.to_rgba8(), picture.to_rgba8());
    }
}

#[test]
fn decoded_icon_is_taken_as_it_is() {
    let icon = icon_or_fallback(Some(Picture {
        width: 1,
        height: 1,
        rgba: vec![1, 2, 3, 4],
    }));
    assert_eq!(icon.rgba, vec![1, 2, 3, 4]);
    assert_eq!(icon_or_fallback(None).width, 32);
}

#[test]
fn drawn_icon_pixels() {
    let icon = fallback_icon();
    let at = |x: usize, y: usize| icon.rgba[(y * 32 + x) * 4..(y * 32 + x) * 4 + 4].to_vec();
    let outline = vec![44, 62, 72, 255];
    let green = vec![55, 190, 125, 255];
    let empty = vec![0, 0, 0, 0];
    for (x, y) in [(5, 7), (26, 7), (5, 25), (26, 25), (15, 7), (5, 16), (27, 13), (28, 19)] {
        assert_eq!(at(x, y), outline, "{x} {y}");
    }
    for (x, y) in [(9, 11), (22, 22), (15, 15)] {
        assert_eq!(at(x, y), green, "{x} {y}");
    }
    for (x, y) in [(0, 0), (31, 31), (6, 8), (23, 22), (22, 23), (27, 12), (29, 15), (27, 20), (8, 11)]
    {
        assert_eq!(at(x, y), empty, "{x} {y}");
    }
}

#[test]
fn desktop_files_lie_in_the_data_directory() {
    let xdg = FilePath::of("/data/");
    let home = FilePath::of("/home/me");
    let paths = desktop_paths(Some(&xdg), Some(&home)).unwrap();
    assert_eq!(paths.apps_dir, FilePath::of("/data/applications"));
    assert_eq!(
        paths.icons_dir,
        FilePath::of("/data/icons/hicolor/128x128/apps")
    );
    let paths = desktop_paths(None, Some(&home)).unwrap();
    assert_eq!(
        paths.entry,
        FilePath::of("/home/me/.local/share/applications/battery-health-keeper-linux.desktop")
    );
    assert_eq!(
        paths.icon,
        FilePath::of(
            "/home/me/.local/share/icons/hicolor/128x128/apps/battery-health-keeper-linux.png"
        )
    );
    assert!(desktop_paths(None, None).is_none());
}

#[test]
fn desktop_entry_names_the_program() {
    assert_eq!(
        desktop_entry(Some("/usr/bin/keeper")),
        "[Desktop Entry]\nName=Battery Health Keeper\nComment=A simple battery health keeper for Linux\nExec=\"/usr/bin/keeper\"\nIcon=battery-health-keeper-linux\nTerminal=false\nType=Application\nCategories=Utility;Settings;HardwareSettings;\nStartupWMClass=battery-health-keeper-linux\n"
    );
    assert_eq!(
        desktop_entry(Some("/usr/bin/keeper")).lines().next(),
        Some("[Desktop Entry]")
    );
    assert!(desktop_entry(None).contains("Exec=\"battery-health-keeper-linux\"\n"));
}

#[test]
fn paths_are_joined() {
    assert_eq!(FilePath::of("a").join("b"), FilePath::of("a/b"));
    assert_eq!(FilePath::of("a/").join("b"), FilePath::of("a/b"));
    assert_eq!(FilePath::of("").join("b"), FilePath::of("b"));
    assert_eq!(FilePath::of("a").join("/b"), FilePath::of("/b"));
    assert_eq!(FilePath::of("a").join(""), FilePath::of("a/"));
}

#[test]
fn icon_of_the_desktop_size_is_taken_as_it_is() {
    let mut picture = image::RgbaImage::new(128, 128);
    for (x, y, pixel) in picture.enumerate_pixels_mut() {
        *pixel = image::Rgba([x as u8, y as u8, (x ^ y) as u8, 200]);
    }
    let expected = picture.clone().into_raw();
    let mut file = std::io::Cursor::new(Vec::new());
    image::DynamicImage::ImageRgba8(picture)
        .write_to(&mut file, image::ImageFormat::Png)
        .unwrap();
    assert_eq!(app_icon(&file.into_inner()).rgba, expected);
}
