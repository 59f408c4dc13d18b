use sounding_bufkit::bufkit_data::combine::{
    combine_data, derived_wx_code, PrecipType, ProviderField, Sounding,
};
use sounding_bufkit::bufkit_data::surface::{SfcColName, SfcColumns, SurfaceData, WindUV};
use sounding_bufkit::bufkit_data::upper_air::UpperAir;
use sounding_bufkit::bufkit_data::{BufkitData, BufkitFile};
use sounding_bufkit::error::ErrorKind;
use sounding_bufkit::number::Decimal;
use sounding_bufkit::valid_time::ValidTime;
use std::collections::HashMap;

const SFC_HEADER: &str = "STN YYMMDD/HHMM PMSL PRES UWND VWND T2MS USTM VSTM HLCY WSYM\n";

fn upper(day: u32, hour: u32) -> String {
    format!(
        "STID = KMSO STNM = 727730 TIME = 1704{:02}/{:02}00\n\
         SLAT = 46.87 SLON = -114.16 SELV = 1335.0\n\
         STIM = {}\n\n\
         SHOW = 8.12 LIFT = 8.00 SWET = 39.08 KINX = 14.88\n\
         LCLP = 780.77 PWAT = 9.28 TOTL = 39.55 CAPE = 0.00\n\
         LCLT = 272.88 CINS = 0.00 EQLV = -9999.00 LFCT = -9999.00\n\
         BRCH = 0.00\n\n\
         PRES TMPC TMWC DWPC THTE DRCT SKNT OMEG\n\
         CFRL HGHT\n\
         867.20 8.04 4.71 1.19 307.17 288.43 2.45 0.00\n\
         0.00 1353.07\n\
         863.50 7.64 4.42 0.99 306.96 293.63 3.40 0.00\n\
         0.00 1388.34\n\n",
        day,
        hour,
        (day - 1) * 24 + hour
    )
}

fn surface(day: u32, hour: u32) -> String {
    format!(
        "727730 1704{:02}/{:02}00 1020.40 909.10 0.90 -0.10\n 10.34 3.50 -4.50 30.30 60.00\n",
        day, hour
    )
}

fn file_text(upper_air: &[(u32, u32)], sfc: &[(u32, u32)]) -> String {
    let mut text = String::from("SNPARM = PRES;TMPC\nSTNPRM = SHOW;LIFT\n\n");
    for (d, h) in upper_air {
        text.push_str(&upper(*d, *h));
    }
    text.push_str(SFC_HEADER);
    for (d, h) in sfc {
        text.push_str(&surface(*d, *h));
    }
    text
}

fn entries(anal: &HashMap<u64, Decimal>) -> Vec<(ProviderField, Decimal)> {
    let mut places: Vec<u64> = anal.keys().copied().collect();
    places.sort();
    places.into_iter().map(|k| (ProviderField::at(k as usize), anal[&k])).collect()
}

fn soundings(data: &BufkitData) -> Vec<(Sounding, HashMap<u64, Decimal>)> {
    let mut it = data.into_iter();
    let mut all = Vec::new();
    while let Some(item) = it.next() {
        all.push(item.unwrap());
    }
    all
}

fn hours(data: &BufkitData) -> Vec<(u32, u32)> {
    soundings(data).iter().map(|(s, _)| (s.valid_time.day, s.valid_time.hour)).collect()
}

#[test]
fn one_record_in_each_section_of_one_time_makes_one_sounding() {
    let text = file_text(&[(1, 1)], &[(1, 1)]);
    let data = BufkitData::init(text.as_bytes(), "2017040100Z_gfs3_kmso.buf").unwrap();
    assert!(data.validate().is_ok());
    let all = soundings(&data);
    assert_eq!(all.len(), 1);
    let (snd, anal) = &all[0];
    assert_eq!(snd.valid_time, ValidTime { year: 2017, month: 4, day: 1, hour: 1, minute: 0 });
    assert_eq!(snd.station_num, Some(727730));
    assert_eq!(snd.source_description, "2017040100Z_gfs3_kmso.buf");
    assert_eq!(snd.station_id.as_deref(), Some(&b"KMSO"[..]));
    assert_eq!(snd.coords, Some((Decimal::new(4687, 2).unwrap(), Decimal::new(-11416, 2).unwrap())));
    assert_eq!(snd.elevation, Decimal::new(1335, 0));
    assert_eq!(snd.lead_time, Some(1));
    assert_eq!(snd.pressure, vec![Decimal::new(8672, 1), Decimal::new(8635, 1)]);
    assert_eq!(snd.height.len(), 2);
    assert_eq!(snd.wind.len(), 2);
    assert_eq!(snd.mslp, Decimal::new(10204, 1));
    assert_eq!(snd.station_pressure, Decimal::new(9091, 1));
    assert_eq!(snd.sfc_temperature, Decimal::new(1034, 2));
    assert_eq!(snd.sfc_dew_point, None);
    assert_eq!(snd.low_cloud, None);
    assert_eq!(
        snd.sfc_wind,
        Some(WindUV { u: Decimal::new(9, 1).unwrap(), v: Decimal::new(-1, 1).unwrap() })
    );
    let d = |m: i64, s: u8| Decimal::new(m, s).unwrap();
    assert_eq!(anal.get(&ProviderField::Cape.index()), Some(&d(0, 0)));
    assert_eq!(anal.get(&ProviderField::EquilibriumLevel.index()), None);
    assert_eq!(anal.len(), 15);
    assert_eq!(
        entries(anal),
        vec![
            (ProviderField::Showalter, d(812, 2)),
            (ProviderField::Swet, d(3908, 2)),
            (ProviderField::K, d(1488, 2)),
            (ProviderField::Li, d(8, 0)),
            (ProviderField::Lcl, d(78077, 2)),
            (ProviderField::Pwat, d(928, 2)),
            (ProviderField::TotalTotals, d(3955, 2)),
            (ProviderField::Cape, d(0, 0)),
            (ProviderField::Cin, d(0, 0)),
            (ProviderField::LclTemperature, d(27288, 2)),
            (ProviderField::BulkRichardsonNumber, d(0, 0)),
            (ProviderField::StormRelativeHelicity, d(303, 1)),
            (ProviderField::StormMotionU, d(35, 1)),
            (ProviderField::StormMotionV, d(-45, 1)),
            (ProviderField::WxSymbolCode, d(61, 0)),
        ]
    );
}

#[test]
fn a_file_without_the_surface_marker_is_refused() {
    let text = upper(1, 0);
    let e = BufkitData::init(text.as_bytes(), "x").err().unwrap();
    assert_eq!(e.kind, ErrorKind::SectionBoundaryNotFound);
    assert_eq!(
        BufkitData::find_break_point(text.as_bytes()).unwrap_err().kind,
        ErrorKind::SectionBoundaryNotFound
    );
    let file = BufkitFile::new(text.clone(), String::from("x"));
    assert_eq!(file.validate_file_format().unwrap_err().kind, ErrorKind::SectionBoundaryNotFound);
    assert!(file.data().is_err());
    assert_eq!(file.raw_text(), text);
}

#[test]
fn a_surface_header_without_the_required_columns_is_refused_before_any_row() {
    let text = format!("{}STN YYMMDD/HHMM", upper(1, 0));
    // The marker is there, but no row follows the header.
    let e = BufkitData::init(text.as_bytes(), "x").err().unwrap();
    assert_eq!(e.kind, ErrorKind::SectionBoundaryNotFound);

    let text = format!("{}PMSL PRES\n{}", upper(1, 0), surface(1, 0));
    let e = BufkitData::init(text.as_bytes(), "x").err().unwrap();
    assert_eq!(e.kind, ErrorKind::SectionBoundaryNotFound);

    // With the break point given by hand, the header itself is what fails.
    let brk = text.find("PMSL").unwrap();
    let e = BufkitData::new_with_break_point(text.as_bytes(), brk, "x").err().unwrap();
    assert_eq!(e.kind, ErrorKind::MissingRequiredColumn);
}

#[test]
fn find_break_point_gives_the_first_marker() {
    let text = file_text(&[(1, 0)], &[(1, 0)]);
    let brk = BufkitData::find_break_point(text.as_bytes()).unwrap();
    assert_eq!(brk, text.find("STN YYMMDD/HHMM").unwrap());
    assert!(text[..brk].ends_with("1388.34\n\n"));
    let twice = format!("{}{}", text, SFC_HEADER);
    assert_eq!(BufkitData::find_break_point(twice.as_bytes()).unwrap(), brk);
}

#[test]
fn sixty_one_aligned_records_make_sixty_one_soundings() {
    let times: Vec<(u32, u32)> = (0..61).map(|i| (1 + (i * 3) / 24, (i * 3) % 24)).collect();
    assert_eq!(times.len(), 61);
    let text = file_text(&times, &times);
    let file = BufkitFile::new(text, String::from("gfs"));
    assert!(file.validate_file_format().is_ok());
    let data = file.data().unwrap();
    assert_eq!(soundings(&data).len(), 61);
    assert_eq!(data.soundings().unwrap().len(), 61);
    assert_eq!(hours(&data), times);
    // A second reading from the start gives the same again.
    assert_eq!(hours(&data), times);
}

#[test]
fn only_records_of_one_valid_time_are_joined() {
    let ua = [(1, 0), (1, 3), (1, 6), (1, 9), (2, 0), (2, 6)];
    let sd = [(1, 1), (1, 3), (1, 4), (1, 5), (1, 9), (1, 12), (2, 6), (2, 7)];
    let text = file_text(&ua, &sd);
    let data = BufkitData::init(text.as_bytes(), "x").unwrap();
    assert_eq!(hours(&data), vec![(1, 3), (1, 9), (2, 6)]);

    let text = file_text(&ua, &[]);
    assert!(BufkitData::init(text.as_bytes(), "x").is_err());

    let text = file_text(&[], &sd);
    let data = BufkitData::init(text.as_bytes(), "x").unwrap();
    assert_eq!(hours(&data), vec![]);
    assert!(data.validate().is_ok());

    let text = file_text(&[(1, 0), (1, 1)], &[(1, 2), (1, 3)]);
    let data = BufkitData::init(text.as_bytes(), "x").unwrap();
    assert_eq!(hours(&data), vec![]);
}

#[test]
fn a_malformed_upper_air_record_is_fatal_and_a_malformed_surface_row_is_not() {
    let mut text = String::new();
    text.push_str(&upper(1, 0));
    text.push_str(&upper(1, 1).replace("SLAT", "SLAT").replace("867.20", "8x7.20"));
    text.push_str(&upper(1, 2));
    text.push_str(SFC_HEADER);
    text.push_str(&surface(1, 0));
    text.push_str(&surface(1, 1));
    text.push_str(&surface(1, 2));
    let data = BufkitData::init(text.as_bytes(), "x").unwrap();
    assert_eq!(data.validate().unwrap_err().kind, ErrorKind::NumericConversion);
    let mut it = data.into_iter();
    assert_eq!(it.next().unwrap().unwrap().0.valid_time.hour, 0);
    assert_eq!(it.next().unwrap().unwrap_err().kind, ErrorKind::NumericConversion);
    assert!(it.next().is_none());
    assert_eq!(data.soundings().unwrap_err().kind, ErrorKind::NumericConversion);

    let mut text = String::new();
    text.push_str(&upper(1, 0));
    text.push_str(&upper(1, 1));
    text.push_str(&upper(1, 2));
    text.push_str(SFC_HEADER);
    text.push_str(&surface(1, 0));
    text.push_str(&surface(1, 1).replace("909.10", "9o9.10"));
    text.push_str(&surface(1, 2));
    let data = BufkitData::init(text.as_bytes(), "x").unwrap();
    // A surface row that does not decode is no failure of the file.
    assert!(data.validate().is_ok());
    assert!(BufkitFile::new(text.clone(), String::from("x")).validate_file_format().is_ok());
    assert_eq!(hours(&data), vec![(1, 0), (1, 2)]);
    let all = data.soundings().unwrap();
    assert_eq!(all.len(), 2);
    assert_eq!(all[1].0.valid_time, ValidTime { year: 2017, month: 4, day: 1, hour: 2, minute: 0 });
}

fn one_upper_air() -> UpperAir {
    let text = upper(1, 0);
    let start = text.find("STID").unwrap();
    UpperAir::parse(text[start..].as_bytes()).unwrap()
}

fn one_surface(row: &str) -> SurfaceData {
    let cols = SfcColumns {
        names: vec![SfcColName::STN, SfcColName::VALIDTIME, SfcColName::USTM, SfcColName::WSYM],
    };
    SurfaceData::parse_values(row.as_bytes(), &cols).unwrap()
}

#[test]
fn combine_data_turns_missing_numbers_into_absent_ones() {
    let mut ua = one_upper_air();
    ua.num = -9999;
    ua.lead_time = -9999;
    ua.lon = None;
    let (snd, anal) = combine_data(ua, one_surface("1 170401/0000 2.5 66.9"), "name");
    assert_eq!(snd.station_num, None);
    assert_eq!(snd.lead_time, None);
    assert_eq!(snd.coords, None);
    assert_eq!(snd.source_description, "name");
    // One part of the storm motion alone gives no entry; code 66 is freezing rain.
    assert_eq!(
        anal.get(&ProviderField::WxSymbolCode.index()),
        Some(&Decimal::from_i32(64))
    );
    assert!(!anal.contains_key(&ProviderField::StormMotionU.index()));
    assert!(!anal.contains_key(&ProviderField::StormMotionV.index()));
    let names: Vec<&str> = entries(&anal).iter().map(|(f, _)| f.name()).collect();
    assert_eq!(
        names,
        vec![
            "Showalter", "SWeT", "K", "LI", "LCL", "PWAT", "TotalTotals", "CAPE", "CIN",
            "LCLTemperature", "BulkRichardsonNumber", "WxSymbolCode"
        ]
    );
}

#[test]
fn weather_symbols_and_their_precipitation() {
    let code = |c: Option<u8>| derived_wx_code(c, Some(true), Some(true), Some(true), Some(true));
    assert_eq!(code(Some(60)), Some(PrecipType::LightRain));
    assert_eq!(code(Some(66)), Some(PrecipType::LightFreezingRain));
    assert_eq!(code(Some(70)), Some(PrecipType::LightSnow));
    assert_eq!(code(Some(79)), Some(PrecipType::LightIcePellets));
    assert_eq!(code(Some(61)), None);
    assert_eq!(code(Some(0)), None);
    assert_eq!(code(None), None);
    assert_eq!(derived_wx_code(Some(70), None, None, None, None), Some(PrecipType::LightSnow));

    let wx = |token: &str| {
        let row = format!("1 170401/0000 2.5 {}", token);
        let (_, anal) = combine_data(one_upper_air(), one_surface(&row), "x");
        anal.get(&ProviderField::WxSymbolCode.index()).map(|v| v.mantissa)
    };
    assert_eq!(wx("60.00"), Some(61));
    assert_eq!(wx("66"), Some(64));
    assert_eq!(wx("70.5"), Some(71));
    assert_eq!(wx("79"), Some(74));
    assert_eq!(wx("61"), None);
    assert_eq!(wx("999.00"), None);
    assert_eq!(wx("-9999.00"), None);
    assert_eq!(wx("-60"), None);
}

#[test]
fn provider_fields_have_their_places() {
    for place in 0..24u64 {
        assert_eq!(ProviderField::at(place as usize).index(), place);
    }
    assert_eq!(ProviderField::Showalter.index(), 0);
    assert_eq!(ProviderField::WxSymbolCode.index(), 23);
    assert_eq!(ProviderField::at(7), ProviderField::Cape);
}

#[test]
fn provider_fields_have_their_names() {
    assert_eq!(ProviderField::SnowFall1Hour.name(), "SnowFall1HourKgPerMeterSquared");
    assert_eq!(ProviderField::Precipitation1Hr.name(), "Precipitation1HrMm");
    assert_eq!(ProviderField::ConvectivePrecip1Hr.name(), "ConvectivePrecip1HrMm");
    assert_eq!(ProviderField::StormMotionU.name(), "StormMotionUMps");
    assert_eq!(ProviderField::StormMotionV.name(), "StormMotionVMps");
    assert_eq!(ProviderField::EquilibriumLevel.name(), "EquilibriumLevel");
    assert_eq!(ProviderField::Lfc.name(), "LFC");
    assert_eq!(ProviderField::SkinTemperature.name(), "SkinTemperature");
    assert_eq!(ProviderField::Layer1SoilTemp.name(), "Layer1SoilTemp");
    assert_eq!(ProviderField::Layer2SoilTemp.name(), "Layer2SoilTemp");
    assert_eq!(ProviderField::SnowRatio.name(), "SnowRatio");
    assert_eq!(ProviderField::StormRelativeHelicity.name(), "StormRelativeHelicity");
}

fn every_three_hours(count: u32) -> Vec<(u32, u32)> {
    (0..count).map(|i| (1 + (i * 3) / 24, (i * 3) % 24)).collect()
}

fn example_files() -> Vec<(&'static str, String)> {
    let gfs = every_three_hours(61);
    let nam: Vec<(u32, u32)> = (0..85).map(|i| (1 + i / 24, i % 24)).collect();
    // Seeded with surface rows that do not decode, and cut off inside its last row.
    let gfs3 = file_text(&gfs, &gfs).replacen("1020.40", "1o20.40", 2);
    let gfs3 = gfs3.trim_end().rsplit_once(' ').unwrap().0.to_owned();
    // One upper-air record after the last surface time, then a broken one.
    let mut later = gfs.clone();
    later.push((9, 0));
    let broken = upper(9, 3).replace("TIME = 170409/0300", "TIME = 170409/03:00");
    let gfs_bad = file_text(&later, &gfs).replacen(SFC_HEADER, &format!("{}{}", broken, SFC_HEADER), 1);
    vec![
        ("2017040100Z_gfs3_kmso.buf", gfs3),
        ("2017040100Z_gfs_kmso.buf", gfs_bad),
        ("2017040100Z_gfs4_kmso.buf", file_text(&gfs, &gfs)),
        ("2017040100Z_nam_kmso.buf", file_text(&nam, &nam)),
    ]
}

#[test]
fn test_bufkit_file() {
    for (name, text) in example_files() {
        println!("Testing: {:?}", name);
        let example_file = BufkitFile::new(text, name.to_owned());
        let data = example_file.data().unwrap();
        if name.contains("2017040100Z_gfs3_kmso") {
            // This file has been seeded with invalid data.
            continue;
        }
        if name.contains("nam") {
            assert_eq!(85, soundings(&data).len());
        } else if name.contains("gfs") {
            assert_eq!(61, soundings(&data).len());
        }
    }
}

#[test]
fn test_bufkit_file_validation() {
    for (name, text) in example_files() {
        let example_file = BufkitFile::new(text, name.to_owned());
        if name.contains("2017040100Z_gfs_kmso") {
            assert!(
                example_file.validate_file_format().is_err(),
                "Erroneously passed validation: {:?}",
                name
            );
        } else {
            assert!(
                example_file.validate_file_format().is_ok(),
                "Failded validation: {:?}",
                name
            );
        }
    }
}

#[test]
fn the_seeded_file_loses_the_rows_that_do_not_decode() {
    let files = example_files();
    let (_, text) = &files[0];
    let data = BufkitData::init(text.as_bytes(), "seeded").unwrap();
    assert!(data.validate().is_ok());
    // Two rows do not decode and the last one is cut off.
    assert_eq!(soundings(&data).len(), 58);
}

#[test]
fn carriage_returns_are_white_space() {
    let times = every_three_hours(5);
    let text = file_text(&times, &times).replace('\n', "\r\n");
    let data = BufkitData::init(text.as_bytes(), "crlf").unwrap();
    assert!(data.validate().is_ok());
    assert_eq!(hours(&data), times);
    let (snd, _) = &soundings(&data)[0];
    assert_eq!(snd.pressure.len(), 2);
    assert_eq!(snd.lead_time, Some(0));
}

#[test]
fn after_its_end_the_reading_gives_nothing_more() {
    let mut text = String::new();
    text.push_str(&upper(1, 5));
    text.push_str(&upper(1, 6).replace("867.20", "8x7.20"));
    text.push_str(SFC_HEADER);
    text.push_str(&surface(1, 0));
    let data = BufkitData::init(text.as_bytes(), "x").unwrap();
    let mut it = data.into_iter();
    assert!(it.next().is_none());
    assert!(it.next().is_none());
    assert!(it.next().is_none());
    assert_eq!(data.soundings().unwrap().len(), 0);
    // A validation reads every record and meets the broken one.
    assert_eq!(data.validate().unwrap_err().kind, ErrorKind::NumericConversion);
}
