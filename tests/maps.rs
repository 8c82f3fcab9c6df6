use sinoptik::maps::retrieval::encode_map;
use sinoptik::maps::{
    image_path_timestamp, map_at, mark, map_key_color, retrieved_maps, sample, Color, Error,
    MapKind, Maps, Raster, RetrievedMaps, Sample,
};
use sinoptik::position::{buienradar_ref_points, MapPosition};
use sinoptik::setup;

const HOUR: i64 = 3_600;
const DAY: i64 = 86_400;

fn key(score: usize) -> Color {
    map_key_color(score - 1)
}

fn filled(width: u32, height: u32, color: Color) -> Raster {
    Raster { width, height, pixels: vec![color; (width * height) as usize] }
}

fn set_pixel(image: &mut Raster, x: u32, y: u32, color: Color) {
    let idx = (y * image.width + x) as usize;
    image.pixels[idx] = color;
}

fn pixel(image: &Raster, x: u32, y: u32) -> Color {
    image.pixels[(y * image.width + x) as usize]
}

fn retrieved(image: Raster, mtime: i64, timestamp_base: i64) -> RetrievedMaps {
    RetrievedMaps { image, mtime, timestamp_base }
}

/// The position of Eindhoven (51.448557° N, 5.450123° E) as the projection sees it.
fn eindhoven() -> MapPosition {
    let lat: f64 = 51.448557;
    let merc = (lat.to_radians() / 2.0 + std::f64::consts::FRAC_PI_4).tan().ln();
    MapPosition::new(5_450_123, (merc * 1e9).round() as i64)
}

#[test]
fn sample_yields_one_score_per_slice() {
    let image = filled(820 * 24, 988, key(1));
    let samples = sample(&image, 1_000, HOUR, 24, (428, 742)).unwrap();
    assert_eq!(samples.len(), 24);
    for (k, s) in samples.iter().enumerate() {
        assert_eq!(*s, Sample::new(1_000 + k as i64 * HOUR, 1));
    }
}

#[test]
fn sample_takes_most_frequent_color_per_slice() {
    let mut image = filled(60, 20, Color { r: 1, g: 2, b: 3, a: 255 });
    // Slice 0: three pixels of score 4 and two of score 7 around (5, 5).
    for x in 3..6 {
        set_pixel(&mut image, x, 5, key(4));
    }
    set_pixel(&mut image, 5, 6, key(7));
    set_pixel(&mut image, 6, 6, key(7));
    // Slice 1: a tie between score 9 and score 2 goes to the first in the map key.
    set_pixel(&mut image, 25, 5, key(9));
    set_pixel(&mut image, 26, 5, key(2));
    // Slice 2: alpha is ignored; pixels outside the neighborhood do not count.
    set_pixel(&mut image, 45, 5, Color { a: 0, ..key(10) });
    set_pixel(&mut image, 51, 5, key(3));
    set_pixel(&mut image, 45, 11, key(3));
    let samples = sample(&image, 0, DAY, 3, (5, 5)).unwrap();
    assert_eq!(samples, vec![Sample::new(0, 4), Sample::new(DAY, 2), Sample::new(2 * DAY, 10)]);
}

#[test]
fn sample_neighborhood_is_eleven_pixels_wide() {
    let mut image = filled(40, 20, Color { r: 0, g: 0, b: 0, a: 255 });
    set_pixel(&mut image, 25, 10, key(5));
    assert!(sample(&image, 0, HOUR, 1, (20, 10)).is_ok());
    assert!(matches!(sample(&image, 0, HOUR, 1, (19, 10)), Err(Error::NoKnownColorsInSamples)));
}

#[test]
fn sample_without_known_colors_fails() {
    let image = filled(40, 10, Color { r: 0x12, g: 0x34, b: 0x56, a: 0xFF });
    let r = sample(&image, 0, HOUR, 4, (3, 3));
    assert!(matches!(r, Err(Error::NoKnownColorsInSamples)));
}

#[test]
fn sample_fails_when_a_single_slice_has_no_known_colors() {
    let mut image = filled(20, 10, key(3));
    for y in 0..10 {
        for x in 10..20 {
            set_pixel(&mut image, x, y, Color { r: 0, g: 0, b: 0, a: 255 });
        }
    }
    assert!(matches!(sample(&image, 0, HOUR, 2, (5, 5)), Err(Error::NoKnownColorsInSamples)));
}

#[test]
fn sample_outside_slice_fails() {
    let image = filled(40, 10, key(2));
    assert!(matches!(sample(&image, 0, HOUR, 4, (10, 3)), Err(Error::OutOfBoundCoords(10, 3))));
    assert!(matches!(sample(&image, 0, HOUR, 4, (3, 10)), Err(Error::OutOfBoundCoords(3, 10))));
    assert!(sample(&image, 0, HOUR, 4, (9, 9)).is_ok());
}

#[test]
fn map_at_selects_slice_of_instant() {
    let mut image = filled(6, 2, key(1));
    set_pixel(&mut image, 2, 0, key(2));
    set_pixel(&mut image, 5, 1, key(3));
    let slice = map_at(&image, 1_000, HOUR, 3, 1_000 + HOUR).unwrap();
    assert_eq!((slice.width, slice.height), (2, 2));
    assert_eq!(slice.pixels, vec![key(2), key(1), key(1), key(1)]);
    let slice = map_at(&image, 1_000, HOUR, 3, 1_000 + 3 * HOUR - 1).unwrap();
    assert_eq!(slice.pixels, vec![key(1), key(1), key(1), key(3)]);
}

#[test]
fn map_at_past_last_slice_fails() {
    let image = filled(6, 2, key(1));
    assert!(matches!(map_at(&image, 0, HOUR, 3, 3 * HOUR), Err(Error::OutOfBoundOffset(3))));
    assert!(matches!(map_at(&image, 0, HOUR, 3, 10 * HOUR + 5), Err(Error::OutOfBoundOffset(10))));
    assert!(matches!(map_at(&image, 0, HOUR, 3, -2 * HOUR), Err(Error::OutOfBoundOffset(-2))));
    // An instant before the series starts lies in no slice.
    assert!(matches!(map_at(&image, 0, HOUR, 3, -HOUR + 1), Err(Error::OutOfBoundOffset(-1))));
    assert!(matches!(map_at(&image, 0, HOUR, 3, -1), Err(Error::OutOfBoundOffset(-1))));
    assert!(map_at(&image, 0, HOUR, 3, 0).is_ok());
}

#[test]
fn mark_draws_crosshair() {
    let image = filled(4, 3, key(1));
    let marked = mark(image, (1, 2));
    let black = Color { r: 0, g: 0, b: 0, a: 0x70 };
    for y in 0..3 {
        for x in 0..4 {
            let expected = if x == 1 || y == 2 { black } else { key(1) };
            assert_eq!(pixel(&marked, x, y), expected);
        }
    }
}

#[test]
fn projection_returns_reference_pixels() {
    let (r1, r2) = buienradar_ref_points();
    assert_eq!(sinoptik::maps::project(820, 988, (r1, r2), r1.position).unwrap(), (84, 745));
    assert_eq!(sinoptik::maps::project(820, 988, (r1, r2), r2.position).unwrap(), (694, 111));
}

#[test]
fn projection_of_eindhoven() {
    let refs = buienradar_ref_points();
    assert_eq!(sinoptik::maps::project(820, 988, refs, eindhoven()).unwrap(), (428, 742));
}

#[test]
fn projection_outside_map_fails() {
    let refs = buienradar_ref_points();
    // Berlin (52.52° N, 13.405° E) lies east of the map.
    let merc = (52.52f64.to_radians() / 2.0 + std::f64::consts::FRAC_PI_4).tan().ln();
    let berlin = MapPosition::new(13_405_000, (merc * 1e9).round() as i64);
    assert!(matches!(
        sinoptik::maps::project(820, 988, refs, berlin),
        Err(Error::OutOfBoundCoords(1886, 399))
    ));
    // West of the reference points the column is negative.
    let west = MapPosition::new(0, refs.0.position.merc);
    assert!(matches!(
        sinoptik::maps::project(820, 988, refs, west),
        Err(Error::OutOfBoundCoords(x, 745)) if x < 0
    ));
}

#[test]
fn staleness_is_monotonic() {
    let mut maps = setup();
    maps.pollen = Some(retrieved(filled(24, 1, key(1)), 0, 0));
    assert!(!maps.is_stale(MapKind::Pollen, 24 * HOUR));
    assert!(maps.is_stale(MapKind::Pollen, 24 * HOUR + 1));
    assert!(maps.is_stale(MapKind::Pollen, 100 * DAY));
    assert!(!maps.is_stale(MapKind::Uvi, 100 * DAY));
}

#[test]
fn refresh_is_due_before_staleness() {
    let mut maps = Maps::new();
    assert!(maps.needs_refresh(MapKind::Pollen, 0));
    assert!(maps.needs_refresh(MapKind::Uvi, 0));
    maps.uvi = Some(retrieved(filled(5, 1, key(1)), 0, 0));
    assert!(!maps.needs_refresh(MapKind::Uvi, DAY));
    assert!(maps.needs_refresh(MapKind::Uvi, DAY + 1));
    assert!(!maps.is_stale(MapKind::Uvi, DAY + 1));
}

#[test]
fn failed_fetch_keeps_fresh_maps() {
    let mut maps = Maps::new();
    maps.pollen = Some(retrieved(filled(24, 1, key(2)), 1_000, 0));
    maps.set(MapKind::Pollen, Err(Error::FetchFailed(String::from("timeout"))), 1_000 + 2 * HOUR);
    let kept = maps.pollen.as_ref().unwrap();
    assert_eq!(kept.mtime, 1_000);
    assert_eq!(kept.image.pixels, vec![key(2); 24]);
    // Once stale, a failure clears the maps.
    maps.set(MapKind::Pollen, Err(Error::FetchFailed(String::from("timeout"))), 1_000 + 25 * HOUR);
    assert!(maps.pollen.is_none());
}

#[test]
fn successful_fetch_replaces_maps() {
    let mut maps = Maps::new();
    maps.uvi = Some(retrieved(filled(5, 1, key(2)), 1_000, 0));
    maps.set(MapKind::Uvi, Ok(retrieved(filled(5, 1, key(3)), 2_000, 7)), 2_000);
    let uvi = maps.uvi.as_ref().unwrap();
    assert_eq!((uvi.mtime, uvi.timestamp_base), (2_000, 7));
    assert!(maps.pollen.is_none());
}

#[test]
fn samples_from_cache() {
    let mut maps = Maps::new();
    assert!(matches!(maps.samples(MapKind::Pollen, eindhoven()), Err(Error::NoMapsYet)));
    maps.pollen = Some(retrieved(filled(820 * 24, 988, key(6)), 0, 5_000));
    let samples = maps.samples(MapKind::Pollen, eindhoven()).unwrap();
    assert_eq!(samples.len(), 24);
    assert_eq!(samples[23], Sample::new(5_000 + 23 * HOUR, 6));
    maps.uvi = Some(retrieved(filled(820 * 5, 988, key(8)), 0, 5_000));
    let samples = maps.samples(MapKind::Uvi, eindhoven()).unwrap();
    assert_eq!(samples.len(), 5);
    assert_eq!(samples[4], Sample::new(5_000 + 4 * DAY, 8));
}

#[test]
fn marked_map_from_cache() {
    let mut maps = Maps::new();
    assert!(matches!(maps.marked_map(MapKind::Pollen, eindhoven(), 0), Err(Error::NoMapsYet)));
    maps.pollen = Some(retrieved(filled(820 * 24, 988, key(1)), 0, 0));
    let marked = maps.marked_map(MapKind::Pollen, eindhoven(), 2 * HOUR).unwrap();
    assert_eq!((marked.width, marked.height), (820, 988));
    assert_eq!(pixel(&marked, 428, 0), Color { r: 0, g: 0, b: 0, a: 0x70 });
    assert_eq!(pixel(&marked, 0, 742), Color { r: 0, g: 0, b: 0, a: 0x70 });
    assert_eq!(pixel(&marked, 0, 0), key(1));
    assert!(matches!(
        maps.marked_map(MapKind::Pollen, eindhoven(), 24 * HOUR),
        Err(Error::OutOfBoundOffset(24))
    ));
}

#[test]
fn image_path_timestamp_is_file_name_prefix() {
    assert_eq!(
        image_path_timestamp("/2.0/image/sprite/202401101200__pollen.png"),
        Some("202401101200")
    );
    assert_eq!(image_path_timestamp("a/b__c/d__e__f"), Some("d"));
    assert_eq!(image_path_timestamp("no_slash__here"), None);
    assert_eq!(image_path_timestamp("/dir__x/file.png"), None);
}

fn png_of(width: u32, height: u32, rgba: &[u8]) -> Vec<u8> {
    let image = image::RgbaImage::from_raw(width, height, rgba.to_vec()).unwrap();
    let mut bytes = std::io::Cursor::new(Vec::new());
    image::DynamicImage::ImageRgba8(image)
        .write_to(&mut bytes, image::ImageOutputFormat::Png)
        .unwrap();
    bytes.into_inner()
}

#[test]
fn retrieved_maps_reads_times_and_pixels() {
    let png = png_of(2, 1, &[0x49, 0xDA, 0x21, 0xFF, 1, 2, 3, 4]);
    let maps = retrieved_maps(
        "/image/sprite/202401101200__pollen.png",
        Some("Wed, 18 Feb 2015 23:16:09 GMT"),
        99,
        &png,
    )
    .unwrap();
    assert_eq!(maps.mtime, 1_424_301_369);
    assert_eq!(maps.timestamp_base, 1_704_888_000);
    assert_eq!((maps.image.width, maps.image.height), (2, 1));
    assert_eq!(maps.image.pixels, vec![key(1), Color { r: 1, g: 2, b: 3, a: 4 }]);
    let maps = retrieved_maps("/x/202401101200__y.png", None, 99, &png).unwrap();
    assert_eq!(maps.mtime, 99);
}

#[test]
fn retrieved_maps_errors() {
    let png = png_of(1, 1, &[0, 0, 0, 0]);
    assert!(matches!(
        retrieved_maps("/x/2024__y.png", Some("not a date"), 0, &png),
        Err(Error::ChronoParse(_))
    ));
    assert!(matches!(
        retrieved_maps("/x/pollen.png", None, 0, &png),
        Err(Error::InvalidImagePath(p)) if p == "/x/pollen.png"
    ));
    assert!(matches!(
        retrieved_maps("/x/2024xx101200__y.png", None, 0, &png),
        Err(Error::ChronoParse(_))
    ));
    assert!(matches!(
        retrieved_maps("/x/202401101200__y.png", None, 0, &[1, 2, 3]),
        Err(Error::Image(_))
    ));
}

#[test]
fn mark_map_encodes_marked_png() {
    let mut maps = Maps::new();
    maps.pollen = Some(retrieved(filled(820 * 24, 988, key(1)), 0, 0));
    let png = sinoptik::maps::mark_map(&maps, eindhoven(), sinoptik::forecast::Metric::Pollen, 60)
        .unwrap();
    let decoded = image::load_from_memory(&png).unwrap().into_rgba8();
    assert_eq!(decoded.dimensions(), (820, 988));
    assert_eq!(decoded.get_pixel(428, 5).0, [0, 0, 0, 0x70]);
    assert_eq!(decoded.get_pixel(5, 5).0, [0x49, 0xDA, 0x21, 0xFF]);
    assert!(matches!(
        sinoptik::maps::mark_map(&maps, eindhoven(), sinoptik::forecast::Metric::AQI, 60),
        Err(sinoptik::Error::UnsupportedMetric(sinoptik::forecast::Metric::AQI))
    ));
    assert!(matches!(
        sinoptik::maps::mark_map(&maps, eindhoven(), sinoptik::forecast::Metric::UVI, 60),
        Err(sinoptik::Error::Maps(Error::NoMapsYet))
    ));
}

#[test]
fn raster_from_rgba_checks_length() {
    assert!(Raster::from_rgba(2, 1, &vec![0; 7]).is_none());
    let r = Raster::from_rgba(1, 2, &vec![1, 2, 3, 4, 5, 6, 7, 8]).unwrap();
    assert_eq!(r.pixels, vec![Color { r: 1, g: 2, b: 3, a: 4 }, Color { r: 5, g: 6, b: 7, a: 8 }]);
}

#[test]
fn sample_times_outside_timestamp_range_fail() {
    let image = filled(40, 10, key(2));
    assert!(matches!(
        sample(&image, i64::MAX - HOUR, HOUR, 4, (3, 3)),
        Err(Error::TimestampOutOfRange)
    ));
    assert!(matches!(
        sample(&image, i64::MIN + HOUR, -HOUR, 4, (3, 3)),
        Err(Error::TimestampOutOfRange)
    ));
    let samples = sample(&image, i64::MAX - 3 * HOUR, HOUR, 4, (3, 3)).unwrap();
    assert_eq!(samples[3], Sample::new(i64::MAX, 2));
    let samples = sample(&image, 0, -HOUR, 2, (3, 3)).unwrap();
    assert_eq!(samples, vec![Sample::new(0, 2), Sample::new(-HOUR, 2)]);
}

#[test]
fn unknown_colors_take_precedence_over_time_range() {
    let image = filled(40, 10, Color { r: 9, g: 9, b: 9, a: 255 });
    assert!(matches!(
        sample(&image, i64::MAX, HOUR, 4, (3, 3)),
        Err(Error::NoKnownColorsInSamples)
    ));
}

#[test]
fn encode_map_round_trips_and_rejects_empty_images() {
    let image = Raster { width: 2, height: 1, pixels: vec![key(5), Color { r: 7, g: 8, b: 9, a: 10 }] };
    let png = encode_map(&image).unwrap();
    let decoded = image::load_from_memory(&png).unwrap().into_rgba8();
    assert_eq!(decoded.into_raw(), vec![0xFD, 0xBB, 0x31, 0xFF, 7, 8, 9, 10]);
    let empty = Raster { width: 0, height: 3, pixels: Vec::new() };
    assert!(matches!(encode_map(&empty), Err(Error::Image(_))));
}
