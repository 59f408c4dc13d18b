use sounding_bufkit::error::ErrorKind;
use sounding_bufkit::number::Decimal;
use sounding_bufkit::parse_util::{
    check_missing, check_missing_i32, find_blank_line, find_next_n_tokens, parse_f64, parse_i32,
    parse_kv, parse_naive_date_time,
};
use sounding_bufkit::valid_time::ValidTime;

fn as_f64(d: Decimal) -> f64 {
    d.mantissa as f64 / 10f64.powi(d.scale as i32)
}

fn text(bytes: &[u8]) -> &str {
    std::str::from_utf8(bytes).unwrap()
}

#[test]
fn test_parse_kv() {
    let test_data =
        "STID = STNM = 727730 TIME = 170401/0000 \
         SLAT = 46.92 SLON = -114.08 SELV = 972.0 \
         STIM = 0";

    if let Ok((value_to_parse, head)) =
        parse_kv(test_data.as_bytes(),
                 "STNM".as_bytes(),
                 |c: u8| char::is_digit(c as char, 10),
                 |c: u8| !char::is_digit(c as char, 10)) {
        assert_eq!(text(value_to_parse), "727730");
        assert_eq!(text(head), " TIME = 170401/0000 SLAT = 46.92 SLON = -114.08 SELV = 972.0 STIM = 0");
    } else {
        assert!(false, "There was an error parsing.");
    }

    if let Ok((val_to_parse, head)) =
        parse_kv(test_data.as_bytes(),
                 "TIME".as_bytes(),
                 |c: u8| char::is_digit(c as char, 10),
                 |c: u8| !(char::is_digit(c as char, 10) || c == b'/')) {
        assert_eq!(text(val_to_parse), "170401/0000");
        assert_eq!(text(head), " SLAT = 46.92 SLON = -114.08 SELV = 972.0 STIM = 0");
    } else {
        assert!(false, "There was an error parsing.");
    }

    if let Ok((val_to_parse, head)) =
        parse_kv(test_data.as_bytes(),
                 "STIM".as_bytes(),
                 |c: u8| char::is_digit(c as char, 10),
                 |c: u8| !char::is_digit(c as char, 10)) {
        assert_eq!(text(val_to_parse), "0");
        assert_eq!(text(head), "");
    } else {
        assert!(false, "There was an error parsing the very last element.");
    }
}

#[test]
fn parse_kv_fails_without_key_or_value() {
    let digit = |c: u8| c.is_ascii_digit();
    let not_digit = |c: u8| !c.is_ascii_digit();
    let e = parse_kv(b"SLAT = 46.92", b"STNM", digit, not_digit).unwrap_err();
    assert_eq!(e.kind, ErrorKind::MalformedKeyValue);
    let e = parse_kv(b"STNM = abc", b"STNM", digit, not_digit).unwrap_err();
    assert_eq!(e.kind, ErrorKind::MalformedKeyValue);
    // The first occurrence of the key counts, and the value is trimmed.
    let space_or_digit = |c: u8| c == b' ' || c.is_ascii_digit();
    let letter = |c: u8| c.is_ascii_alphabetic();
    let (value, rest) = parse_kv(b"K  12  K 7", b"K", space_or_digit, letter).unwrap();
    assert_eq!(value, b"12");
    assert_eq!(rest, b"K 7");
}

#[test]
fn parse_kv_scans_for_the_value_after_the_key() {
    let alnum = |c: u8| c.is_ascii_alphanumeric();
    let not_alnum = |c: u8| !c.is_ascii_alphanumeric();
    let (value, rest) = parse_kv(b"STID = KMSO STNM = 1", b"STID", alnum, not_alnum).unwrap();
    assert_eq!(value, b"KMSO");
    assert_eq!(rest, b" STNM = 1");
}

#[test]
fn test_parse_f64() {
    let test_data =
        "STID = STNM = 727730 TIME = 170401/0000 \
         SLAT = 46.92 SLON = -114.08 SELV = 972.0 \
         STIM = 0";

    if let Ok((lat, head)) = parse_f64(test_data.as_bytes(), "SLAT".as_bytes()) {
        assert_eq!(as_f64(lat), 46.92);
        assert_eq!(text(head), " SLON = -114.08 SELV = 972.0 STIM = 0");
    } else {
        assert!(false, "There was an error parsing.");
    }

    if let Ok((lon, head)) = parse_f64(test_data.as_bytes(), "SLON".as_bytes()) {
        assert_eq!(as_f64(lon), -114.08);
        assert_eq!(text(head), " SELV = 972.0 STIM = 0");
    } else {
        assert!(false, "There was an error parsing.");
    }
}

#[test]
fn parse_f64_gives_exact_decimals_and_errors() {
    let (d, _) = parse_f64(b"SELV = 972.0 STIM = 0", b"SELV").unwrap();
    assert_eq!(d, Decimal { mantissa: 972, scale: 0 });
    let (d, rest) = parse_f64(b"EQLV = -9999.00 LFCT", b"EQLV").unwrap();
    assert_eq!(d, Decimal { mantissa: -9999, scale: 0 });
    assert_eq!(rest, b" LFCT");
    let e = parse_f64(b"SLAT = north", b"SLAT").unwrap_err();
    assert_eq!(e.kind, ErrorKind::MalformedKeyValue);
    let e = parse_f64(b"SLAT = 4-6", b"SLAT").unwrap_err();
    assert_eq!(e.kind, ErrorKind::NumericConversion);
    let e = parse_f64(b"SLAT = 1.2.3", b"SLAT").unwrap_err();
    assert_eq!(e.kind, ErrorKind::NumericConversion);
}

#[test]
fn test_parse_i32() {
    let test_data =
        "STID = STNM = 727730 TIME = 170401/0000 \
         SLAT = 46.92 SLON = -114.08 SELV = 972.0 \
         STIM = 0";

    if let Ok((stnm, head)) = parse_i32(test_data.as_bytes(), "STNM".as_bytes()) {
        assert_eq!(stnm, 727730);
        assert_eq!(text(head), " TIME = 170401/0000 SLAT = 46.92 SLON = -114.08 SELV = 972.0 STIM = 0");
    } else {
        assert!(false, "There was an error parsing.");
    }

    if let Ok((ymd, head)) = parse_i32(test_data.as_bytes(), "TIME".as_bytes()) {
        assert_eq!(ymd, 170401);
        assert_eq!(text(head), "/0000 SLAT = 46.92 SLON = -114.08 SELV = 972.0 STIM = 0");
    } else {
        assert!(false, "There was an error parsing.");
    }
}

#[test]
fn parse_i32_errors() {
    let e = parse_i32(b"STNM = 727730", b"STIM").unwrap_err();
    assert_eq!(e.kind, ErrorKind::MalformedKeyValue);
    let e = parse_i32(b"STNM = 2147483648", b"STNM").unwrap_err();
    assert_eq!(e.kind, ErrorKind::NumericConversion);
    let (v, rest) = parse_i32(b"STNM = 2147483647", b"STNM").unwrap();
    assert_eq!(v, 2147483647);
    assert_eq!(rest, b"");
    let (v, _) = parse_i32(b"STNM = 000012 ", b"STNM").unwrap();
    assert_eq!(v, 12);
}

#[test]
fn test_parse_naive_date_time() {
    let test_data = " 170401/0000 ";

    let test_value = parse_naive_date_time(test_data.as_bytes()).unwrap();
    assert_eq!(test_value, ValidTime { year: 2017, month: 4, day: 1, hour: 0, minute: 0 });
}

#[test]
fn parse_naive_date_time_rejects_other_shapes_and_unreal_times() {
    for bad in [
        "", "170401", "170401/000", "170401/00000", "170401-0000", "17040a/0000", "1704011/000",
        "170230/0000", "171301/0000", "170400/0000", "170401/2400", "170401/2360", "+70401/0000",
        "190229/0000", "170431/1200",
    ] {
        let e = parse_naive_date_time(bad.as_bytes()).unwrap_err();
        assert_eq!(e.kind, ErrorKind::InvalidTimestamp, "{}", bad);
    }
    assert_eq!(
        parse_naive_date_time(b"200229/2359").unwrap(),
        ValidTime { year: 2020, month: 2, day: 29, hour: 23, minute: 59 }
    );
    assert_eq!(
        parse_naive_date_time(b"000229/0000").unwrap(),
        ValidTime { year: 2000, month: 2, day: 29, hour: 0, minute: 0 }
    );
    assert_eq!(
        parse_naive_date_time(b"991231/0000").unwrap(),
        ValidTime { year: 2099, month: 12, day: 31, hour: 0, minute: 0 }
    );
}

#[test]
fn test_find_blank_line() {
    let test_string = "STID = STNM = 727730 TIME = 170401/0300
                       SLAT = 46.92 SLON = -114.08 SELV = 972.0
                       STIM = 3

                       SHOW = 9.67 LIFT = 9.84 SWET = 33.41 KINX = 3.88
                       LCLP = 822.95 PWAT = 9.52 TOTL = 37.25 CAPE = 0.00
                       LCLT = 273.49 CINS = 0.00 EQLV = -9999.00 LFCT = -9999.00
                       BRCH = 0.00

                       PRES TMPC TMWC DWPC THTE DRCT SKNT OMEG
                       HGHT
                       906.90 8.04 4.99 1.70 303.11 250.71 4.12 -2.00";

    let (station_info, the_rest) =
        test_string.split_at(find_blank_line(test_string.as_bytes()).unwrap());
    let (indexes, the_rest) = the_rest.split_at(find_blank_line(the_rest.as_bytes()).unwrap());

    assert!(station_info.trim().starts_with("STID = STNM = 727730"));
    assert!(station_info.trim().ends_with("STIM = 3"));

    assert!(indexes.trim().starts_with("SHOW = 9.67"));
    assert!(indexes.trim().ends_with("BRCH = 0.00"));

    assert!(the_rest.trim().starts_with("PRES TMPC TMWC"));
    assert!(find_blank_line(the_rest.as_bytes()).is_none());
}

#[test]
fn find_blank_line_edges() {
    assert_eq!(find_blank_line(b""), None);
    assert_eq!(find_blank_line(b"\n\n"), Some(2));
    assert_eq!(find_blank_line(b"A = 1\n\n"), Some(7));
    assert_eq!(find_blank_line(b"A = 1\n"), None);
    assert_eq!(find_blank_line(b"A = 1\n \n"), Some(8));
    assert_eq!(find_blank_line(b"\n\nx"), Some(2));
    assert_eq!(find_blank_line(b"a\n \t = \nb"), Some(8));
    assert_eq!(find_blank_line(b"a\nb\nc"), None);
    assert_eq!(find_blank_line(b"a\r\n\r\nb"), Some(5));
    assert_eq!(find_blank_line(b"a\n\n\nb"), Some(3));
}

#[test]
fn test_find_next_n_tokens() {
    let test_data = "
        727730 170401/0700 1021.50 869.80 0.14 275.50 0.00 74.00
        0.00 0.00 277.40 0.00 0.00 0.00
        0.00 1.00 0.70 0.00 0.07 1.44
        3.73 0.00 0.00 0.00 0.00 -4.60
        -4.80 30.30 0.01 999.00 -9999.00 20.00
        -2.30
        727730 170401/0800 1022.00 869.70 -0.36 274.90 0.00 74.00
        0.00 0.00 277.20 0.00 0.00 0.00
        0.00 1.00 0.50 0.00 0.07 0.34
        3.60 0.00 0.00 0.00 0.00 -3.70
        -5.30 35.40 0.01 999.00 -9999.00 20.00
        -2.78
        727730 170401/0900 1022.80 869.80 -0.46 274.80 0.00 74.00
        0.00 0.00 277.10 0.00 0.00 0.00
        0.00 0.90 0.80 0.00 0.07 -0.56
        3.50 0.00 0.00 0.00 0.00 -2.70
        -6.70 31.90 0.01 999.00 -9999.00 20.00
        -3.15";

    let brk = find_next_n_tokens(test_data.as_bytes(), 33).unwrap().unwrap();
    let (substr, remaining) = test_data.split_at(brk);

    println!("First: {}", substr);
    assert_eq!(
        substr,
        "
        727730 170401/0700 1021.50 869.80 0.14 275.50 0.00 74.00
        0.00 0.00 277.40 0.00 0.00 0.00
        0.00 1.00 0.70 0.00 0.07 1.44
        3.73 0.00 0.00 0.00 0.00 -4.60
        -4.80 30.30 0.01 999.00 -9999.00 20.00
        -2.30"
    );

    let brk = find_next_n_tokens(remaining.as_bytes(), 33).unwrap().unwrap();
    let (substr, remaining) = remaining.split_at(brk);
    println!("Second: {}", substr);
    assert_eq!(
        substr,
        "
        727730 170401/0800 1022.00 869.70 -0.36 274.90 0.00 74.00
        0.00 0.00 277.20 0.00 0.00 0.00
        0.00 1.00 0.50 0.00 0.07 0.34
        3.60 0.00 0.00 0.00 0.00 -3.70
        -5.30 35.40 0.01 999.00 -9999.00 20.00
        -2.78"
    );

    let brk = find_next_n_tokens(remaining.as_bytes(), 33).unwrap().unwrap();
    let (substr, remaining) = remaining.split_at(brk);
    println!("Third: {}", substr.trim());
    assert_eq!(
        substr,
        "
        727730 170401/0900 1022.80 869.80 -0.46 274.80 0.00 74.00
        0.00 0.00 277.10 0.00 0.00 0.00
        0.00 0.90 0.80 0.00 0.07 -0.56
        3.50 0.00 0.00 0.00 0.00 -2.70
        -6.70 31.90 0.01 999.00 -9999.00 20.00
        -3.15"
    );

    assert_eq!(find_next_n_tokens(remaining.as_bytes(), 33).unwrap(), None);
}

#[test]
fn find_next_n_tokens_edges() {
    assert_eq!(find_next_n_tokens(b"", 3).unwrap(), None);
    assert_eq!(find_next_n_tokens(b" \n\t ", 3).unwrap(), None);
    assert_eq!(find_next_n_tokens(b" \n\t ", 0).unwrap(), None);
    assert_eq!(find_next_n_tokens(b"1 2 3", 0).unwrap(), Some(0));
    assert_eq!(find_next_n_tokens(b"1 2 3", 3).unwrap(), Some(5));
    assert_eq!(find_next_n_tokens(b"1 2 3 ", 3).unwrap(), Some(5));
    assert_eq!(find_next_n_tokens(b" 1 2 3 4", 2).unwrap(), Some(4));
    assert_eq!(find_next_n_tokens(b"12 345 6", 1).unwrap(), Some(2));
    assert_eq!(
        find_next_n_tokens(b"1 2", 3).unwrap_err().kind,
        ErrorKind::TokenCountError
    );
    assert_eq!(
        find_next_n_tokens(b"abc", 2).unwrap_err().kind,
        ErrorKind::TokenCountError
    );
    assert_eq!(
        find_next_n_tokens(b"  abc  ", 2).unwrap_err().kind,
        ErrorKind::TokenCountError
    );
}

#[test]
fn successive_chunks_rebuild_the_prefix() {
    let data = "  1 2 3\n4 5 6   7 8 9 10";
    let mut rest = data;
    let mut joined = String::new();
    let mut chunks = 0;
    while let Ok(Some(brk)) = find_next_n_tokens(rest.as_bytes(), 3) {
        let (chunk, after) = rest.split_at(brk);
        assert_eq!(chunk.split_whitespace().count(), 3);
        joined.push_str(chunk);
        rest = after;
        chunks += 1;
    }
    assert_eq!(chunks, 3);
    assert_eq!(joined, "  1 2 3\n4 5 6   7 8 9");
    assert!(data.starts_with(&joined));
    assert_eq!(rest, " 10");
    assert_eq!(
        find_next_n_tokens(rest.as_bytes(), 3).unwrap_err().kind,
        ErrorKind::TokenCountError
    );
}

#[test]
fn check_missing_tells_the_sentinel_from_every_other_value() {
    for token in ["-9999", "-9999.0", "-9999.00", "-9999.000000", "-09999.0"] {
        let d = Decimal::parse(token.as_bytes()).unwrap();
        assert_eq!(check_missing(d), None, "{}", token);
    }
    for token in ["9999", "-9999.01", "-9998.99", "0", "-99990", "-999.9", "999.00"] {
        let d = Decimal::parse(token.as_bytes()).unwrap();
        assert_eq!(check_missing(d), Some(d), "{}", token);
    }
    assert_eq!(check_missing_i32(-9999), None);
    assert_eq!(check_missing_i32(9999), Some(9999));
    assert_eq!(check_missing_i32(0), Some(0));
}
