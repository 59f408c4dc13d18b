use sounding_bufkit::bufkit_data::upper_air::indexes::Indexes;
use sounding_bufkit::bufkit_data::upper_air::profile::ColName::{
    CFRL, DRCT, DWPC, HGHT, NONE, OMEG, PRES, SKNT, THTE, TMPC, TMWC,
};
use sounding_bufkit::bufkit_data::upper_air::profile::{
    ColName, Profile, ProfileColIndexes, WindSpdDir,
};
use sounding_bufkit::bufkit_data::upper_air::station_info::StationInfo;
use sounding_bufkit::bufkit_data::upper_air::UpperAir;
use sounding_bufkit::bufkit_data::upper_air_section::UpperAirSection;
use sounding_bufkit::error::ErrorKind;
use sounding_bufkit::number::Decimal;
use sounding_bufkit::valid_time::ValidTime;

fn num(d: Option<Decimal>) -> f64 {
    let d = d.unwrap();
    d.mantissa as f64 / 10f64.powi(d.scale as i32)
}

fn nums(column: &[Option<Decimal>]) -> Vec<f64> {
    column.iter().map(|d| num(*d)).collect()
}

fn winds(column: &[Option<WindSpdDir>]) -> Vec<(f64, f64)> {
    column
        .iter()
        .map(|w| {
            let w = w.unwrap();
            (num(Some(w.direction)), num(Some(w.speed)))
        })
        .collect()
}

fn get_upper_air_test_data() -> &'static str {
    "STID = KMSO STNM = 727730 TIME = 170401/0100
     SLAT = 46.87 SLON = -114.16 SELV = 1335.0
     STIM = 1

     SHOW = 8.12 LIFT = 8.00 SWET = 39.08 KINX = 14.88
     LCLP = 780.77 PWAT = 9.28 TOTL = 39.55 CAPE = 0.00
     LCLT = 272.88 CINS = 0.00 EQLV = -9999.00 LFCT = -9999.00
     BRCH = 0.00

     PRES TMPC TMWC DWPC THTE DRCT SKNT OMEG
     CFRL HGHT
     867.20 8.04 4.71 1.19 307.17 288.43 2.45 0.00
     0.00 1353.07
     863.50 7.64 4.42 0.99 306.96 293.63 3.40 0.00
     0.00 1388.34
     859.80 7.24 4.18 0.90 306.87 292.38 3.57 0.00
     0.00 1423.71
     856.10 6.94 3.99 0.81 306.89 292.38 3.57 0.00
     0.00 1459.19
     852.20 6.54 3.75 0.72 306.83 293.63 3.40 0.00
     0.00 1496.70
     848.30 6.14 3.52 0.65 306.78 293.63 3.40 0.00
     0.00 1534.33
     844.30 5.74 3.27 0.56 306.73 295.02 3.22 0.00
     0.00 1573.06
     840.30 5.44 3.09 0.49 306.81 295.02 3.22 0.00
     0.00 1611.92
     836.10 5.04 2.85 0.42 306.81 296.57 3.05 0.00
     0.00 1652.86
     831.70 4.54 2.55 0.32 306.69 298.30 2.87 0.00
     0.00 1695.91
     827.20 4.14 2.31 0.25 306.73 298.30 2.87 0.00
     0.00 1740.11
     822.60 3.74 2.17 0.40 307.00 304.99 2.37 0.00
     0.00 1785.47
     817.60 3.44 2.05 0.49 307.38 306.87 1.94 0.00
     0.00 1835.00
     812.50 3.04 1.84 0.49 307.57 309.81 1.52 0.00
     0.00 1885.77
     807.00 2.54 1.54 0.40 307.61 315.00 1.38 0.00
     0.00 1940.80
     801.10 2.04 1.04 -0.13 307.27 323.13 0.97 0.00
     0.00 2000.13
     794.60 1.44 0.66 -0.28 307.28 323.13 0.97 0.10
     0.00 2065.88
     787.00 0.64 0.15 -0.46 307.18 315.00 0.82 0.10
     0.00 2143.23
     778.20 -0.16 -0.39 -0.71 307.17 315.00 0.54 0.10
     0.00 2233.47
     768.10 -0.76 -1.33 -2.07 306.54 26.57 0.87 0.10
     0.00 2338.03
     756.50 -1.66 -2.29 -3.15 306.09 45.00 1.38 0.10
     0.00 2459.47
     743.50 -2.56 -3.39 -4.60 305.58 48.81 2.06 0.20
     0.00 2597.31
     728.70 -3.56 -4.82 -6.79 304.77 32.47 2.53 0.20
     0.00 2756.60
     712.10 -4.46 -6.45 -10.03 303.87 360.00 1.55 0.10
     0.00 2938.45
     693.70 -4.66 -7.82 -14.55 303.78 310.60 1.79 0.10
     0.00 3144.54
     673.70 -6.06 -9.48 -17.85 303.55 304.99 2.37 0.10
     0.00 3374.08
     652.00 -7.46 -11.05 -21.15 303.84 336.80 2.95 0.10
     0.00 3629.57
     629.00 -8.46 -12.58 -26.99 304.48 3.81 5.85 0.20
     0.00 3908.49
     605.10 -8.86 -13.70 -36.84 306.07 11.89 11.31 0.10
     0.00 4208.48
     580.60 -9.26 -14.46 -48.61 308.56 9.67 17.35 0.10
     0.00 4528.02
     555.50 -10.56 -15.48 -46.16 311.05 4.64 21.64 0.10
     0.00 4868.57
     530.00 -12.76 -16.86 -37.11 313.30 358.53 22.73 0.10
     0.00 5228.30
     504.20 -15.76 -18.96 -33.99 314.59 355.28 23.58 0.10
     0.00 5606.56
     478.10 -19.06 -21.32 -31.63 315.80 353.80 26.96 0.10
     0.00 6004.58
     451.90 -22.26 -23.73 -30.53 317.22 352.54 32.91 0.10
     0.00 6421.27
     425.50 -25.26 -26.27 -31.32 318.83 350.81 40.15 0.00
     0.00 6860.87
     399.00 -28.56 -29.45 -35.04 319.83 348.46 46.60 0.00
     0.00 7324.52
     372.10 -32.36 -33.18 -40.23 320.57 347.33 51.36 0.00
     0.00 7820.49
     344.70 -36.66 -37.33 -45.52 321.36 349.05 55.21 0.10
     0.00 8354.86
     316.80 -41.46 -41.91 -49.66 322.29 352.90 61.27 0.10
     0.00 8933.26
     289.20 -46.66 -46.90 -52.70 323.26 353.40 70.98 0.10
     0.00 9544.55
     263.10 -51.76 -51.92 -57.69 324.47 350.76 81.08 0.10
     0.00 10164.59
     239.40 -56.86 -56.94 -61.61 325.58 349.20 85.02 0.10
     0.00 10769.30
     218.00 -62.06 -62.12 -67.47 326.29 349.79 81.12 0.10
     0.00 11355.03
     198.70 -65.46 -65.51 -72.95 329.60 352.75 64.63 0.10
     0.00 11923.20
     181.30 -65.56 -65.62 -73.57 338.19 345.85 47.67 0.00
     0.00 12480.21
     165.60 -63.86 -63.95 -74.17 349.89 334.77 41.01 0.00
     0.00 13032.85
     151.10 -61.16 -9999.00 -9999.00 -9999.00 334.11 36.93 0.00
     0.00 13597.84
     137.30 -59.76 -9999.00 -9999.00 -9999.00 329.66 30.38 0.00
     0.00 14194.10
     124.00 -59.06 -9999.00 -9999.00 -9999.00 331.07 25.29 0.00
     0.00 14831.55
     111.30 -58.46 -9999.00 -9999.00 -9999.00 328.24 19.19 0.00
     0.00 15509.64
     98.90 -57.86 -9999.00 -9999.00 -9999.00 317.01 15.68 0.00
     0.00 16252.97
     86.90 -57.76 -9999.00 -9999.00 -9999.00 308.16 13.83 0.00
     0.00 17068.31
     75.10 -58.36 -9999.00 -9999.00 -9999.00 307.63 11.77 0.00
     0.00 17987.13
     63.60 -58.26 -58.80 -80.31 472.23 316.85 8.53 0.00
     0.00 19032.36
     52.30 -58.16 -9999.00 -9999.00 -9999.00 328.24 4.80 0.00
     0.00 20263.10
     41.00 -58.66 -59.44 -82.99 534.34 12.53 5.38 0.00
     0.00 21793.21
     29.80 -58.16 -59.27 -84.87 586.71 66.61 7.83 0.00
     0.00 23798.77
     18.70 -56.96 -58.85 -87.55 674.01 97.97 9.81 0.00
     0.00 26739.45
     7.60 -48.76 -55.67 -92.48 904.81 303.69 6.29 0.00
     0.00 32545.28"
}


#[test]
fn upper_air_test_parse() {
    let test_data = get_upper_air_test_data();

    let snd = UpperAir::parse(test_data.as_bytes());
    assert!(snd.is_ok());

    let snd = snd.unwrap();

    assert_eq!(snd.num, 727730);
    assert_eq!(
        snd.valid_time,
        ValidTime { year: 2017, month: 4, day: 1, hour: 1, minute: 0 }
    );
    assert_eq!(snd.lead_time, 1);
    assert_eq!(num(snd.lat), 46.87);
    assert_eq!(num(snd.lon), -114.16);
    assert_eq!(num(snd.elevation), 1335.0);

    assert_eq!(num(snd.show), 8.12);
    assert_eq!(num(snd.li), 8.0);
    assert_eq!(num(snd.swet), 39.08);
    assert_eq!(num(snd.kinx), 14.88);
    assert_eq!(num(snd.lclp), 780.77);
    assert_eq!(num(snd.pwat), 9.28);
    assert_eq!(num(snd.totl), 39.55);
    assert_eq!(num(snd.cape), 0.0);
    assert_eq!(num(snd.lclt), 272.88);
    assert_eq!(num(snd.cins), 0.0);
    assert!(snd.eqlv.is_none());
    assert!(snd.lfc.is_none());
    assert_eq!(num(snd.brch), 0.0);

    // Upper air - 3rd level.
    assert_eq!(num(snd.pressure[2]), 859.8);
    assert_eq!(num(snd.temperature[2]), 7.24);
    assert_eq!(num(snd.wet_bulb[2]), 4.18);
    assert_eq!(num(snd.dew_point[2]), 0.90);
    assert_eq!(num(snd.theta_e[2]), 306.87);
    assert_eq!(
        snd.wind[2],
        Some(WindSpdDir {
            direction: Decimal::new(29238, 2).unwrap(),
            speed: Decimal::new(357, 2).unwrap()
        })
    );
    assert_eq!(num(snd.omega[2]), 0.00);
    assert_eq!(num(snd.height[2]), 1423.71);
    assert_eq!(num(snd.cloud_fraction[2]), 0.0);

    assert_eq!(snd.pressure.len(), 60);
    assert_eq!(snd.temperature.len(), 60);
    assert_eq!(snd.wet_bulb.len(), 60);
    assert_eq!(snd.dew_point.len(), 60);
    assert_eq!(snd.theta_e.len(), 60);
    assert_eq!(snd.wind.len(), 60);
    assert_eq!(snd.omega.len(), 60);
    assert_eq!(snd.height.len(), 60);
    assert_eq!(snd.cloud_fraction.len(), 60);

    assert_eq!(snd.id.as_deref(), Some(&b"KMSO"[..]));
    assert!(snd.validate().is_ok());
    // A missing value inside a column is an absent entry of that column.
    let k = nums(&snd.pressure).iter().position(|p| *p == 151.1).unwrap();
    assert_eq!(snd.wet_bulb[k], None);
    assert_eq!(num(snd.temperature[k]), -61.16);
}

#[test]
fn upper_air_parse_needs_two_blank_lines() {
    let e = UpperAir::parse(b"STID = KMSO STNM = 727730 TIME = 170401/0100").unwrap_err();
    assert_eq!(e.kind, ErrorKind::SectionBoundaryNotFound);
    let e = UpperAir::parse(b"STNM = 727730 TIME = 170401/0100 STIM = 0\n\nSHOW = 1.0\n")
        .unwrap_err();
    assert_eq!(e.kind, ErrorKind::SectionBoundaryNotFound);
}

#[test]
fn upper_air_validate_holds_columns_to_the_length_of_the_pressure() {
    let record = "STID = KMSO STNM = 727730 TIME = 170401/0100 STIM = 1\n\n\
                  SHOW = 8.12\n\nPRES TMPC\n900.0 1.0 850.0 2.0 800.0";
    let snd = UpperAir::parse(record.as_bytes()).unwrap();
    assert_eq!(snd.pressure.len(), 3);
    assert_eq!(snd.temperature.len(), 2);
    assert_eq!(snd.validate().unwrap_err().kind, ErrorKind::InconsistentProfileLength);

    let record = "STID = KMSO STNM = 727730 TIME = 170401/0100 STIM = 1\n\n\
                  SHOW = 8.12\n\nTMPC HGHT\n1.0 100.0 2.0 200.0";
    let snd = UpperAir::parse(record.as_bytes()).unwrap();
    assert_eq!(snd.pressure.len(), 0);
    assert_eq!(snd.validate().unwrap_err().kind, ErrorKind::InconsistentProfileLength);

    let record = "STID = KMSO STNM = 727730 TIME = 170401/0100 STIM = 1\n\n\
                  SHOW = 8.12\n\nPRES DRCT\n900.0 10.0 850.0 20.0";
    let snd = UpperAir::parse(record.as_bytes()).unwrap();
    assert_eq!(snd.wind.len(), 0);
    assert_eq!(snd.temperature.len(), 0);
    assert!(snd.validate().is_ok());
}

#[test]
fn test_indexes_parse() {
    let test_data = "
        SHOW = 8.12 LIFT = 8.00 SWET = 39.08 KINX = 14.88
        LCLP = 780.77 PWAT = 9.28 TOTL = 39.55 CAPE = 0.00
        LCLT = 272.88 CINS = 0.00 EQLV = -9999.00 LFCT = -9999.00
        BRCH = 0.00";

    let indexes = Indexes::parse(test_data.as_bytes());
    println!("indexes: {:?}", indexes);

    let Indexes {
        show,
        li,
        swet,
        kinx,
        lclp,
        pwat,
        totl,
        cape,
        lclt,
        cins,
        eqlv,
        lfc,
        brch,
    } = indexes.unwrap();

    assert_eq!(num(show), 8.12);
    assert_eq!(num(li), 8.0);
    assert_eq!(num(swet), 39.08);
    assert_eq!(num(kinx), 14.88);
    assert_eq!(num(lclp), 780.77);
    assert_eq!(num(pwat), 9.28);
    assert_eq!(num(totl), 39.55);
    assert_eq!(num(cape), 0.00);
    assert_eq!(num(lclt), 272.88);
    assert_eq!(num(cins), 0.00);
    assert!(eqlv.is_none());
    assert!(lfc.is_none());
    assert_eq!(num(brch), 0.00);

    let test_data = "
        SHOW = 9.67 LIFT = 9.84 SWET = 33.41 KINX = 3.88
        LCLP = 822.95 PWAT = 9.52 TOTL = 37.25 CAPE = 0.00
        LCLT = 273.49 CINS = 0.00 EQLV = -9999.00 LFCT = -9999.00
        BRCH = 0.00";

    let indexes = Indexes::parse(test_data.as_bytes());
    println!("indexes: {:?}", indexes);

    let Indexes {
        show,
        li,
        swet,
        kinx,
        lclp,
        pwat,
        totl,
        cape,
        lclt,
        cins,
        eqlv,
        lfc,
        brch,
    } = indexes.unwrap();

    assert_eq!(num(show), 9.67);
    assert_eq!(num(li), 9.84);
    assert_eq!(num(swet), 33.41);
    assert_eq!(num(kinx), 3.88);
    assert_eq!(num(lclp), 822.95);
    assert_eq!(num(pwat), 9.52);
    assert_eq!(num(totl), 37.25);
    assert_eq!(num(cape), 0.00);
    assert_eq!(num(lclt), 273.49);
    assert_eq!(num(cins), 0.00);
    assert!(eqlv.is_none());
    assert!(lfc.is_none());
    assert_eq!(num(brch), 0.00);
}

#[test]
fn indexes_that_are_not_there_are_absent() {
    let indexes = Indexes::parse(b"SHOW = 1.5 KINX = 2.5 CAPE = x BRCH = 3.5").unwrap();
    assert_eq!(indexes.show, Decimal::new(15, 1));
    assert_eq!(indexes.li, None);
    assert_eq!(indexes.swet, None);
    assert_eq!(indexes.kinx, Decimal::new(25, 1));
    // No value starts after CAPE before the text ends, but 3.5 follows it.
    assert_eq!(indexes.cape, Decimal::new(35, 1));
    // The scan went on after the value of CAPE, so BRCH is not found again.
    assert_eq!(indexes.brch, None);
    let none = Indexes::parse(b"").unwrap();
    assert_eq!(none.show, None);
    assert_eq!(none.brch, None);
}

#[test]
fn profile_test_parse() {
    let test_data = "PRES TMPC TMWC DWPC THTE DRCT SKNT OMEG HGHT
                     906.70 10.54 6.12 1.52 305.69 270.00 2.14 -2.00 994.01
                     901.50 10.04 5.79 1.32 305.54 274.76 2.33 -2.00 1041.87";

    let upper_air = Profile::parse(test_data.as_bytes()).unwrap();

    println!("upper_air: {:?}", upper_air);

    assert_eq!(nums(&upper_air.pressure), vec![906.7, 901.5]);
    assert_eq!(nums(&upper_air.temperature), vec![10.54, 10.04]);
    assert_eq!(nums(&upper_air.wet_bulb), vec![6.12, 5.79]);
    assert_eq!(nums(&upper_air.dew_point), vec![1.52, 1.32]);
    assert_eq!(nums(&upper_air.theta_e), vec![305.69, 305.54]);
    assert_eq!(winds(&upper_air.wind), vec![(270.0, 2.14), (274.76, 2.33)]);
    assert_eq!(nums(&upper_air.omega), vec![-2.00, -2.00]);
    assert_eq!(nums(&upper_air.height), vec![994.01, 1041.87]);
}

#[test]
fn test_split_header_and_values() {
    let test_data = "PRES TMPC TMWC DWPC THTE DRCT SKNT OMEG HGHT
                     906.70 10.54 6.12 1.52 305.69 270.00 2.14 -2.00 994.01 \
                     901.50 10.04 5.79 1.32 305.54 274.76 2.33 -2.00 1041.87";

    let (head, values) = Profile::split_header_and_values(test_data.as_bytes()).unwrap();
    let head = std::str::from_utf8(head).unwrap();
    let values = std::str::from_utf8(values).unwrap();

    println!("head: {}", head);
    assert_eq!(head.trim(), "PRES TMPC TMWC DWPC THTE DRCT SKNT OMEG HGHT");
    assert_eq!(
        values,
        "906.70 10.54 6.12 1.52 305.69 270.00 2.14 -2.00 994.01 \
         901.50 10.04 5.79 1.32 305.54 274.76 2.33 -2.00 1041.87"
    );
}

#[test]
fn split_header_and_values_needs_a_value() {
    let e = Profile::split_header_and_values(b"PRES TMPC\n").unwrap_err();
    assert_eq!(e.kind, ErrorKind::InconsistentProfileLength);
    let (head, values) = Profile::split_header_and_values(b"PRES\n-1.5").unwrap();
    assert_eq!(head, b"PRES\n");
    assert_eq!(values, b"-1.5");
}

#[test]
fn test_get_column_indexes() {

    let test_data = "PRES TMPC TMWC DWPC THTE DRCT SKNT OMEG HGHT ";

    let cols = Profile::get_column_indexes(test_data.as_bytes()).unwrap();

    println!("cols: {:?}", cols);
    assert_eq!(cols.names[0], PRES);
    assert_eq!(cols.names[1], TMPC);
    assert_eq!(cols.names[2], TMWC);
    assert_eq!(cols.names[3], DWPC);
    assert_eq!(cols.names[4], THTE);
    assert_eq!(cols.names[5], DRCT);
    assert_eq!(cols.names[6], SKNT);
    assert_eq!(cols.names[7], OMEG);
    assert_eq!(cols.names[8], HGHT);
    assert_eq!(cols.names[9], NONE);
    assert_eq!(cols.num_cols(), 9);
}

#[test]
fn get_column_indexes_takes_known_columns_only() {
    let e = Profile::get_column_indexes(b"PRES TEMP").unwrap_err();
    assert_eq!(e.kind, ErrorKind::UnrecognizedColumn);
    let e = Profile::get_column_indexes(b"PRES pres").unwrap_err();
    assert_eq!(e.kind, ErrorKind::UnrecognizedColumn);
    let ten = Profile::get_column_indexes(b"PRES TMPC TMWC DWPC THTE DRCT SKNT OMEG CFRL HGHT")
        .unwrap();
    assert_eq!(ten.num_cols(), 10);
    assert_eq!(ten.names[8], CFRL);
    let e = Profile::get_column_indexes(
        b"PRES TMPC TMWC DWPC THTE DRCT SKNT OMEG CFRL HGHT PRES",
    )
    .unwrap_err();
    assert_eq!(e.kind, ErrorKind::UnrecognizedColumn);
    let none = Profile::get_column_indexes(b"  \n ").unwrap();
    assert_eq!(none.num_cols(), 0);
    assert_eq!(ColName::default(), ColName::NONE);
}

#[test]
fn test_parse_values() {

    let test_data = "906.70 10.54 6.12 1.52 305.69 270.00 2.14 -2.00 994.01
                     901.50 10.04 5.79 1.32 305.54 274.76 2.33 -2.00 1041.87";

    let cols = ProfileColIndexes {
        names: [PRES, TMPC, TMWC, DWPC, THTE, DRCT, SKNT, OMEG, HGHT, NONE],
    };

    let upper_air = Profile::parse_values(test_data.as_bytes(), &cols).unwrap();

    println!("upper_air: {:?}", upper_air);

    assert_eq!(nums(&upper_air.pressure), vec![906.7, 901.5]);
    assert_eq!(nums(&upper_air.temperature), vec![10.54, 10.04]);
    assert_eq!(nums(&upper_air.wet_bulb), vec![6.12, 5.79]);
    assert_eq!(nums(&upper_air.dew_point), vec![1.52, 1.32]);
    assert_eq!(nums(&upper_air.theta_e), vec![305.69, 305.54]);
    assert_eq!(winds(&upper_air.wind), vec![(270.0, 2.14), (274.76, 2.33)]);
    assert_eq!(nums(&upper_air.omega), vec![-2.00, -2.00]);
    assert_eq!(nums(&upper_air.height), vec![994.01, 1041.87]);
}

#[test]
fn parse_values_failures_and_winds() {
    let cols = ProfileColIndexes {
        names: [PRES, DRCT, SKNT, NONE, NONE, NONE, NONE, NONE, NONE, NONE],
    };
    let p = Profile::parse_values(b"900 10 5 850 -9999.00 6 800 30 -9999", &cols).unwrap();
    assert_eq!(p.pressure.len(), 3);
    assert_eq!(
        p.wind,
        vec![
            Some(WindSpdDir {
                direction: Decimal::new(10, 0).unwrap(),
                speed: Decimal::new(5, 0).unwrap()
            }),
            None,
            None
        ]
    );
    let e = Profile::parse_values(b"900 10 x", &cols).unwrap_err();
    assert_eq!(e.kind, ErrorKind::NumericConversion);
    let holes = ProfileColIndexes {
        names: [PRES, NONE, TMPC, NONE, NONE, NONE, NONE, NONE, NONE, NONE],
    };
    let e = Profile::parse_values(b"900 10", &holes).unwrap_err();
    assert_eq!(e.kind, ErrorKind::UnrecognizedColumn);
    let empty = ProfileColIndexes { names: [NONE; 10] };
    let e = Profile::parse_values(b"900", &empty).unwrap_err();
    assert_eq!(e.kind, ErrorKind::UnrecognizedColumn);
    assert!(Profile::parse_values(b"  ", &empty).unwrap().pressure.is_empty());
}

#[test]
fn test_station_info_parse() {
    let test_data = "STID = STNM = 727730 TIME = 170401/0000
                     SLAT = 46.92 SLON = -114.08 SELV = 972.0
                     STIM = 0";

    let si = StationInfo::parse(test_data.as_bytes());
    println!("si: {:?}", si);

    let StationInfo {
        num,
        id,
        valid_time,
        lead_time,
        lat,
        lon,
        elevation,
    } = si.unwrap();
    assert_eq!(id, None);
    assert_eq!(num, 727730);
    assert_eq!(valid_time, ValidTime { year: 2017, month: 4, day: 1, hour: 0, minute: 0 });
    assert_eq!(lead_time, 0);
    assert_eq!(self::num(lat), 46.92);
    assert_eq!(self::num(lon), -114.08);
    assert_eq!(self::num(elevation), 972.0);

    let test_data = "STID = KMSO STNM = 727730 TIME = 170404/1200
                     SLAT = 46.87 SLON = -114.16 SELV = 1335.0
                     STIM = 84";

    let si = StationInfo::parse(test_data.as_bytes());
    println!("si: {:?}", si);

    let StationInfo {
        num,
        id,
        valid_time,
        lead_time,
        lat,
        lon,
        elevation,
    } = si.unwrap();
    assert_eq!(id.unwrap(), b"KMSO");
    assert_eq!(num, 727730);
    assert_eq!(
        valid_time,
        ValidTime { year: 2017, month: 4, day: 4, hour: 12, minute: 0 }
    );
    assert_eq!(lead_time, 84);
    assert_eq!(self::num(lat), 46.87);
    assert_eq!(self::num(lon), -114.16);
    assert_eq!(self::num(elevation), 1335.0);
}

#[test]
fn station_info_required_and_optional_fields() {
    let e = StationInfo::parse(b"STID = KMSO TIME = 170404/1200 STIM = 3").unwrap_err();
    assert_eq!(e.kind, ErrorKind::MissingRequiredField);
    let e = StationInfo::parse(b"STID = KMSO STNM = 727730 STIM = 3").unwrap_err();
    assert_eq!(e.kind, ErrorKind::MissingRequiredField);
    let e = StationInfo::parse(b"STID = KMSO STNM = 727730 TIME = 170404/1200").unwrap_err();
    assert_eq!(e.kind, ErrorKind::MissingRequiredField);
    let e = StationInfo::parse(b"STID = KMSO STNM = 727730 TIME = 170431/1200 STIM = 3")
        .unwrap_err();
    assert_eq!(e.kind, ErrorKind::InvalidTimestamp);
    let e = StationInfo::parse(b"STID = KMSO STNM = 99999999999 TIME = 170404/1200 STIM = 3")
        .unwrap_err();
    assert_eq!(e.kind, ErrorKind::NumericConversion);

    let e = StationInfo::parse(b"STNM = 727730 TIME = 170404/1200 SLAT = 4.6.9 STIM = 3")
        .unwrap_err();
    assert_eq!(e.kind, ErrorKind::NumericConversion);

    let si = StationInfo::parse(
        b"STNM = 727730 TIME = 170404/1200 SLAT = -9999.00 SELV = 10.5 STIM = 3",
    )
    .unwrap();
    assert_eq!(si.id, None);
    assert_eq!(si.lat, None);
    assert_eq!(si.lon, None);
    assert_eq!(si.elevation, Decimal::new(105, 1));
    assert_eq!(si.lead_time, 3);
}

fn record(time: &str, first_pressure: &str) -> String {
    format!(
        "STID = KMSO STNM = 727730 TIME = {}\nSLAT = 46.87 SLON = -114.16 SELV = 1335.0\n\
         STIM = 1\n\nSHOW = 8.12 LIFT = 8.00\n\nPRES TMPC\n{} 8.04\n850.00 7.64\n\n",
        time, first_pressure
    )
}

#[test]
fn upper_air_section_reads_record_after_record() {
    let text = format!(
        "SNPARM = PRES;TMPC\nSTNPRM = SHOW;LIFT\n\n{}{}{}",
        record("170401/0000", "867.20"),
        record("170401/0100", "866.20"),
        record("170401/0200", "865.20")
    );
    let section = UpperAirSection::new(text.as_bytes());
    assert!(section.validate_section().is_ok());
    let mut it = section.into_iter();
    let mut hours = Vec::new();
    while let Some(r) = it.next() {
        let ua = r.unwrap();
        assert_eq!(ua.pressure.len(), 2);
        hours.push(ua.valid_time.hour);
    }
    assert_eq!(hours, vec![0, 1, 2]);
    assert!(it.next().is_none());
}

#[test]
fn a_malformed_upper_air_record_ends_the_reading() {
    let text = format!(
        "{}{}{}",
        record("170401/0000", "867.20"),
        record("170401/0100", "86x.20"),
        record("170401/0200", "865.20")
    );
    let section = UpperAirSection::new(text.as_bytes());
    assert_eq!(section.validate_section().unwrap_err().kind, ErrorKind::NumericConversion);
    let mut it = section.into_iter();
    assert_eq!(it.next().unwrap().unwrap().valid_time.hour, 0);
    assert_eq!(it.next().unwrap().unwrap_err().kind, ErrorKind::NumericConversion);
    assert!(it.next().is_none());
    assert!(it.next().is_none());

    let text = format!("{}{}", record("170401/0100", "oops"), record("170401/0200", "865.20"));
    let section = UpperAirSection::new(text.as_bytes());
    let mut it = section.into_iter();
    assert_eq!(it.next().unwrap().unwrap_err().kind, ErrorKind::UnrecognizedColumn);
    assert!(it.next().is_none());

    let text = format!(
        "{}{}{}",
        record("170401/0000", "867.20"),
        record("17040x/0100", "866.20"),
        record("170401/0200", "865.20")
    );
    let section = UpperAirSection::new(text.as_bytes());
    let mut it = section.into_iter();
    assert!(it.next().unwrap().is_ok());
    assert_eq!(it.next().unwrap().unwrap_err().kind, ErrorKind::InvalidTimestamp);
    assert!(it.next().is_none());

    let uneven = record("170401/0300", "867.20 1.0");
    let section = UpperAirSection::new(uneven.as_bytes());
    let mut it = section.into_iter();
    assert_eq!(it.next().unwrap().unwrap_err().kind, ErrorKind::InconsistentProfileLength);
    assert!(it.next().is_none());
}

#[test]
fn values_stand_at_their_column_and_level() {
    let cols = ProfileColIndexes {
        names: [PRES, TMPC, HGHT, NONE, NONE, NONE, NONE, NONE, NONE, NONE],
    };
    let text = "900.5 10.25 100 850 -9999.00 200.75 800.125 -3.5 -9999";
    let p = Profile::parse_values(text.as_bytes(), &cols).unwrap();
    let tokens: Vec<&str> = text.split_whitespace().collect();
    for (i, token) in tokens.iter().enumerate() {
        let column = match i % 3 {
            0 => &p.pressure,
            1 => &p.temperature,
            _ => &p.height,
        };
        let written = Decimal::parse(token.as_bytes()).unwrap();
        let expected = if written == Decimal::from_i32(-9999) { None } else { Some(written) };
        assert_eq!(column[i / 3], expected, "token {}", i);
    }
    assert_eq!(p.pressure.len(), 3);
    assert_eq!(p.temperature[1], None);
    assert_eq!(p.height[2], None);
    assert_eq!(p.pressure[2], Decimal::new(800125, 3));
}
