use sinoptik::forecast::{select_metrics, Metric};
use sinoptik::providers::luchtmeetnet::{formula, retain_recent, Item};
use sinoptik::providers::combined;
use sinoptik::providers::buienradar::get_samples;
use sinoptik::maps::{Maps, RetrievedMaps, Raster, map_key_color};
use sinoptik::position::MapPosition;
use sinoptik::Error;

#[test]
fn all_metrics_in_order() {
    assert_eq!(
        Metric::all(),
        vec![
            Metric::AQI,
            Metric::NO2,
            Metric::O3,
            Metric::PAQI,
            Metric::PM10,
            Metric::Pollen,
            Metric::Precipitation,
            Metric::UVI
        ]
    );
}

#[test]
fn metric_names() {
    assert_eq!(Metric::Pollen.name(), "pollen");
    assert_eq!(Metric::Precipitation.name(), "precipitation");
    assert_eq!(Metric::PM10.name(), "PM10");
    assert_eq!(Metric::All.name(), "All");
}

#[test]
fn select_metrics_expands_all_and_drops_repeats() {
    assert_eq!(select_metrics(vec![Metric::UVI, Metric::All]), Metric::all());
    assert_eq!(
        select_metrics(vec![Metric::UVI, Metric::UVI, Metric::AQI, Metric::UVI]),
        vec![Metric::UVI, Metric::AQI, Metric::UVI]
    );
    assert_eq!(select_metrics(Vec::new()), Vec::new());
}

#[test]
fn formulas_of_air_quality_metrics() {
    assert_eq!(formula(Metric::AQI).unwrap(), "lki");
    assert_eq!(formula(Metric::NO2).unwrap(), "no2");
    assert_eq!(formula(Metric::O3).unwrap(), "o3");
    assert_eq!(formula(Metric::PM10).unwrap(), "pm10");
    assert!(matches!(formula(Metric::Pollen), Err(Error::UnsupportedMetric(Metric::Pollen))));
}

#[test]
fn air_quality_items_older_than_an_hour_are_dropped() {
    let now = 10_000;
    let items = vec![Item::new(now - 3_600, 1), Item::new(now - 3_599, 2), Item::new(now + 60, 3)];
    assert_eq!(retain_recent(items, now), vec![Item::new(now - 3_599, 2), Item::new(now + 60, 3)]);
}

fn position() -> MapPosition {
    // Vlissingen, one of the reference points.
    MapPosition::new(3_570_000, 1_050_384_587)
}

fn pollen_maps(score: usize, base: i64) -> Maps {
    let mut maps = Maps::new();
    let image = Raster { width: 820 * 24, height: 988, pixels: vec![map_key_color(score - 1); 820 * 24 * 988] };
    maps.pollen = Some(RetrievedMaps { image, mtime: base, timestamp_base: base });
    maps
}

#[test]
fn samples_for_metrics() {
    let maps = pollen_maps(2, 0);
    assert_eq!(get_samples(&maps, position(), Metric::Pollen).unwrap().len(), 24);
    assert!(matches!(get_samples(&maps, position(), Metric::UVI), Err(Error::Maps(sinoptik::maps::Error::NoMapsYet))));
    assert!(matches!(get_samples(&maps, position(), Metric::NO2), Err(Error::UnsupportedMetric(Metric::NO2))));
}

#[test]
fn combined_items_from_pollen_and_air_quality() {
    let base = 1_704_888_000;
    let maps = pollen_maps(3, base);
    let pollen = get_samples(&maps, position(), Metric::Pollen).unwrap();
    let aqi = vec![Item::new(base, 2_500), Item::new(base + 3_600, 3_500)];
    let items = combined::get(Metric::PAQI, pollen.clone(), aqi.clone(), base).unwrap();
    assert_eq!(items, vec![combined::Item::new(base, 3_000), combined::Item::new(base + 3_600, 3_500)]);
    assert!(matches!(
        combined::get(Metric::AQI, pollen.clone(), aqi, base),
        Err(Error::UnsupportedMetric(Metric::AQI))
    ));
    assert!(matches!(
        combined::get(Metric::PAQI, pollen, Vec::new(), base),
        Err(Error::Merge(combined::MergeError::NoAqiItemFound))
    ));
}

#[test]
fn error_status_codes() {
    assert_eq!(Error::NoPositionFound.status_code(), 404);
    assert_eq!(Error::Maps(sinoptik::maps::Error::NoMapsYet).status_code(), 503);
    assert_eq!(Error::Maps(sinoptik::maps::Error::OutOfBoundCoords(900, 2)).status_code(), 404);
    assert_eq!(Error::Maps(sinoptik::maps::Error::OutOfBoundOffset(30)).status_code(), 404);
    assert_eq!(Error::Maps(sinoptik::maps::Error::NoKnownColorsInSamples).status_code(), 500);
    assert_eq!(Error::UnsupportedMetric(Metric::All).status_code(), 500);
    assert_eq!(Error::Merge(combined::MergeError::NoAqiItemFound).status_code(), 500);
}

#[test]
fn combined_metric_check() {
    assert!(combined::check_metric(Metric::PAQI).is_ok());
    assert!(matches!(combined::check_metric(Metric::UVI), Err(Error::UnsupportedMetric(Metric::UVI))));
}
