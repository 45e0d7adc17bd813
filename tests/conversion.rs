use fromage_converter::composer::{AToolsComposer, CsvComposer, FromageCook};
use fromage_converter::error::LactoseIntolerance;
use fromage_converter::format::Format;
use fromage_converter::fromage::{Fromage, FromageKind};
use fromage_converter::parser::{
    AToolsMaker, AToolsParser, CsvMaker, CsvParser, FromageMaker, FromagemakingProcess,
};
use fromage_converter::parser::atools::parse_line as parse_atools_line;
use fromage_converter::parser::csv::parse_line as parse_csv_line;
use fromage_converter::text::{parse_u64, push_decimal};

fn run<P: FromagemakingProcess, C: FromageCook>(
    process: &mut P,
    cook: &mut C,
    input: &[&str],
) -> (String, Vec<String>) {
    let mut out = String::new();
    let mut warnings = Vec::new();
    if let Some(h) = cook.header() {
        out.push_str(&h);
        out.push_str(cook.line_end());
    }
    for line in input {
        match process.next_fromage(line) {
            Ok(f) => {
                out.push_str(&cook.cook(&f));
                out.push_str(cook.line_end());
            }
            Err(e) => warnings.push(e.message()),
        }
    }
    (out, warnings)
}

fn atools_parser() -> AToolsParser {
    AToolsMaker::default().process(None).unwrap()
}

fn csv_parser(sep: char, column: &str, header: &str) -> CsvParser {
    CsvMaker::new(sep, column.to_string())
        .process(Some(header))
        .unwrap()
}

fn parse_atools(line: &str) -> Fromage {
    parse_atools_line(line).unwrap()
}

#[test]
fn atools_to_csv_scenario() {
    let mut p = atools_parser();
    let mut c = CsvComposer::new(',');
    let (out, warnings) = run(
        &mut p,
        &mut c,
        &["s[1] = \"Hello\"", "m[2] = \"World\"", "; a note", ""],
    );
    assert!(warnings.is_empty());
    assert_eq!(
        out,
        "KIND,ID,ORIGINAL\nstr,1,\"Hello\"\nmsg,2,\"World\"\ncom,###,a note\n\n"
    );
}

#[test]
fn atools_string_round_trip() {
    let line = "s[42] = \"Bonjour, le monde\"";
    let f = parse_atools(line);
    assert_eq!(f, Fromage::str(42, "Bonjour, le monde".to_string()));
    let composed = AToolsComposer.line(&f);
    assert_eq!(composed, line);
    assert_eq!(parse_atools(&composed), f);
}

#[test]
fn atools_message_and_largest_id_round_trip() {
    let line = "m[18446744073709551615] = \"x\"";
    let f = parse_atools(line);
    assert_eq!(f, Fromage::msg(u64::MAX, "x".to_string()));
    assert_eq!(AToolsComposer.line(&f), line);
}

#[test]
fn atools_loose_spacing_is_normalised() {
    let f = parse_atools("sXY[007]  ==  \"v\" trailing");
    assert_eq!(f, Fromage::str(7, "v".to_string()));
    assert_eq!(AToolsComposer.line(&f), "s[7] = \"v\"");
}

#[test]
fn atools_ignored_prefix() {
    let plain = parse_atools("s[5] = \"five\"");
    let ignored = parse_atools(";s[5] = \"five\"");
    assert!(ignored.ignored);
    assert!(!plain.ignored);
    assert_eq!(ignored.kind, plain.kind);
    assert_eq!(AToolsComposer.line(&ignored), ";s[5] = \"five\"");
    let m = parse_atools(";m[6] = \"six\"");
    assert!(m.ignored);
    assert_eq!(m.kind, FromageKind::Msg { id: 6, val: "six".to_string() });
}

#[test]
fn atools_comments() {
    assert_eq!(parse_atools("; a note"), Fromage::comment("a note".to_string()));
    assert_eq!(parse_atools(";;s[1]"), Fromage::comment(";s[1]".to_string()));
    assert_eq!(parse_atools(";x"), Fromage::comment("x".to_string()));
    assert_eq!(parse_atools(";"), Fromage::comment(String::new()));
    assert_eq!(AToolsComposer.line(&Fromage::comment("hi".to_string())), "; hi");
}

#[test]
fn blank_lines_both_formats() {
    assert_eq!(parse_atools(""), Fromage::empty());
    assert_eq!(
        parse_csv_line("", ',', 3).unwrap(),
        Fromage::empty()
    );
    assert_eq!(AToolsComposer.line(&Fromage::empty()), "");
    assert_eq!(CsvComposer::new(',').line(&Fromage::empty()), "");
}

#[test]
fn atools_malformed_lines() {
    for bad in [
        "s[12 = \"x\"",
        "s12] = \"x\"",
        "s[] = \"x\"",
        "s[a] = \"x\"",
        "s[1] = x",
        "s[1] = \"x",
        "x[1] = \"x\"",
        ";s[1 = \"x\"",
        "s[18446744073709551616] = \"x\"",
    ] {
        assert_eq!(parse_atools_line(bad), Err(bad));
    }
    assert_eq!(parse_atools("s[+3] = \"x\""), Fromage::str(3, "x".to_string()));
}

#[test]
fn malformed_line_is_skipped_and_next_converted() {
    let mut p = atools_parser();
    let mut c = CsvComposer::new(',');
    let (out, warnings) = run(&mut p, &mut c, &["s[12 = \"x\"", "s[13] = \"y\""]);
    assert_eq!(warnings, vec!["bad line: s[12 = \"x\"".to_string()]);
    assert_eq!(out, "KIND,ID,ORIGINAL\nstr,13,\"y\"\n");
}

#[test]
fn header_located_by_name() {
    let p = csv_parser(',', "TRANSLATION", "ID,KIND,ORIGINAL,TRANSLATION");
    assert_eq!(p.translation_column(), 3);
    let p = csv_parser(';', "FR", "KIND;ID;ORIGINAL;EN;FR;DE");
    assert_eq!(p.translation_column(), 4);
}

#[test]
fn header_rejects_early_or_missing_column() {
    for header in ["TRANSLATION,ID,KIND", "KIND,TRANSLATION,X", "KIND,ID,ORIGINAL", ""] {
        let r = CsvMaker::new(',', "TRANSLATION".to_string()).process(Some(header));
        match r {
            Err(LactoseIntolerance::Static(m)) => assert_eq!(m, "bad translation column"),
            _ => panic!("header {:?} accepted", header),
        }
    }
    let r = CsvMaker::new(',', "TRANSLATION".to_string()).process(None);
    assert!(matches!(r, Err(LactoseIntolerance::Static(_))));
}

#[test]
fn csv_rows_by_kind() {
    assert_eq!(
        parse_csv_line("str,1,orig,\"tr\"", ',', 3).unwrap(),
        Fromage::str(1, "tr".to_string())
    );
    let ignored = parse_csv_line("(str),2,orig,tr", ',', 3).unwrap();
    assert!(ignored.ignored);
    assert_eq!(ignored.kind, FromageKind::Str { id: 2, val: "tr".to_string() });
    assert_eq!(parse_csv_line("msg,3,a,b,c", ',', 3).unwrap(), Fromage::msg(3, "b".to_string()));
    assert_eq!(
        parse_csv_line("com,###,the note,other", ',', 3).unwrap(),
        Fromage::comment("the note".to_string())
    );
    assert_eq!(parse_csv_line("str,4,only", ',', 3).unwrap(), Fromage::str(4, String::new()));
}

#[test]
fn csv_quoted_field_keeps_separator() {
    assert_eq!(
        parse_csv_line("str,1,\"a,b\",\"c,d\"", ',', 3).unwrap(),
        Fromage::str(1, "c,d".to_string())
    );
    assert_eq!(
        parse_csv_line("str,1,x\"y,z\"w", ',', 2).unwrap(),
        Fromage::str(1, "xy,zw".to_string())
    );
}

#[test]
fn csv_malformed_rows() {
    for bad in [
        "str",
        "str,1",
        "abc,1,x",
        "str,x,y",
        "str,,y",
        "str,1,\"open",
    ] {
        assert_eq!(parse_csv_line(bad, ',', 2), Err(bad));
    }
    assert!(parse_csv_line("str,1,a,\"open", ',', 2).is_ok());
}

#[test]
fn csv_round_trip_marks_repeated_ids() {
    let mut p = csv_parser(',', "TRANSLATION", "KIND,ID,ORIGINAL,TRANSLATION");
    let mut c = CsvComposer::new(',');
    let rows = [
        "str,1,o,\"one\"",
        "str,1,o,\"again\"",
        "msg,2,o,\"m, two\"",
        "msg,2,o,\"m2\"",
        "(str),3,o,\"three\"",
    ];
    let (out, warnings) = run(&mut p, &mut c, &rows);
    assert!(warnings.is_empty());
    assert_eq!(
        out,
        "KIND,ID,ORIGINAL\nstr,1,\"one\"\n(str),1,\"again\"\nmsg,2,\"m, two\"\nmsg,2,\"m2\"\nstr,3,\"three\"\n"
    );
    let mut back = csv_parser(',', "ORIGINAL", "KIND,ID,ORIGINAL");
    let lines: Vec<&str> = out.lines().skip(1).collect();
    let reread: Vec<Fromage> = lines.iter().map(|l| back.next_fromage(l).unwrap()).collect();
    assert_eq!(reread[0], Fromage::str(1, "one".to_string()));
    assert_eq!(reread[1].kind, FromageKind::Str { id: 1, val: "again".to_string() });
    assert!(reread[1].ignored);
    assert_eq!(reread[2], Fromage::msg(2, "m, two".to_string()));
    assert_eq!(reread[4], Fromage::str(3, "three".to_string()));
}

#[test]
fn csv_to_atools_conversion() {
    let mut p = csv_parser(',', "TRANSLATION", "KIND,ID,ORIGINAL,TRANSLATION");
    let mut c = AToolsComposer;
    let (out, warnings) = run(
        &mut p,
        &mut c,
        &["str,1,Hi,Salut", "", "com,###,note", "(str),2,a,b", "bogus,1,a,b"],
    );
    assert_eq!(warnings, vec!["bad line: bogus,1,a,b".to_string()]);
    assert_eq!(out, "s[1] = \"Salut\"\r\n\r\n; note\r\n;s[2] = \"b\"\r\n");
}

#[test]
fn csv_header_and_separator() {
    let c = CsvComposer::new(';');
    assert_eq!(c.header().unwrap(), "KIND;ID;ORIGINAL");
    let mut c = CsvComposer::new('\t');
    assert_eq!(c.cook(&Fromage::comment("n".to_string())), "com\t###\tn");
    assert_eq!(c.cook(&Fromage::msg(9, "v".to_string())), "msg\t9\t\"v\"");
}

#[test]
fn decimal_numbers() {
    let digits: Vec<char> = "18446744073709551615".chars().collect();
    assert_eq!(parse_u64(&digits), Some(u64::MAX));
    let over: Vec<char> = "18446744073709551616".chars().collect();
    assert_eq!(parse_u64(&over), None);
    assert_eq!(parse_u64(&vec!['+']), None);
    assert_eq!(parse_u64(&vec!['-', '1']), None);
    assert_eq!(parse_u64(&vec!['+', '0', '7']), Some(7));
    let mut s = String::from("n=");
    push_decimal(&mut s, 1203);
    assert_eq!(s, "n=1203");
    let mut z = String::new();
    push_decimal(&mut z, 0);
    assert_eq!(z, "0");
}

#[test]
fn format_names_in_any_case() {
    assert_eq!("ATools".parse::<Format>(), Ok(Format::ATools));
    assert_eq!("CSV".parse::<Format>(), Ok(Format::Csv));
    assert_eq!(Format::from_name("csv"), Ok(Format::Csv));
    assert!("xml".parse::<Format>().is_err());
    assert_eq!(Format::from_lowercase("atools"), Ok(Format::ATools));
    assert!(Format::from_lowercase("ATOOLS").is_err());
}

#[test]
fn error_messages() {
    assert_eq!(LactoseIntolerance::Static("fixed").message(), "fixed");
    assert_eq!(LactoseIntolerance::Dyn("built".to_string()).message(), "built");
    let io = std::io::Error::new(std::io::ErrorKind::Other, "disk");
    let e = LactoseIntolerance::from(io);
    assert!(matches!(e, LactoseIntolerance::Io(_)));
    assert_eq!(e.message(), "io error: disk");
}

#[test]
fn header_errors_carry_fixed_text() {
    for name in ["KIND", "ID", "TRANSLATION"] {
        let r = CsvMaker::new(',', name.to_string()).process(Some("ID,KIND,ORIGINAL"));
        assert!(matches!(r, Err(LactoseIntolerance::Static("bad translation column"))));
    }
    let r = CsvMaker::new(',', "X".to_string()).process(Some("KIND,X,ORIGINAL,X"));
    assert!(matches!(r, Err(LactoseIntolerance::Static("bad translation column"))));
}

#[test]
fn format_error_text() {
    assert_eq!(
        "xml".parse::<Format>(),
        Err("invalid format name ; available formats are: atools, csv")
    );
    assert_eq!("atools".parse::<Format>(), Ok(Format::ATools));
    assert_eq!("csv".parse::<Format>(), Ok(Format::Csv));
}

#[test]
fn csv_rows_with_any_column() {
    assert_eq!(parse_csv_line("", ';', 0).unwrap(), Fromage::empty());
    assert_eq!(parse_csv_line("", ';', 1).unwrap(), Fromage::empty());
    assert_eq!(
        parse_csv_line("str,1,a,b,c", ',', 0).unwrap(),
        Fromage::str(1, String::new())
    );
    assert_eq!(
        parse_csv_line("com,###,note,b", ',', 1).unwrap(),
        Fromage::comment("note".to_string())
    );
}
