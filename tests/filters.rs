use rhit::args::Args;
use rhit::date::{unique_year_month, Date, DateFilter};
use rhit::filters::{Filter, Filterer, Filtering};
use rhit::log_line::LogLine;
use rhit::method_filter::MethodFilter;
use rhit::status_filter::StatusFilter;
use rhit::str_filter::StrFilter;

fn no_args() -> Args {
    Args { date: None, ip: None, method: None, path: None, referer: None, status: None }
}

fn line(addr: &str, method: &str, path: &str, status: u16) -> LogLine {
    LogLine {
        date: Date::new(2024, 3, 15),
        remote_addr: addr.to_string(),
        method: method.to_string(),
        path: path.to_string(),
        referer: "-".to_string(),
        status,
    }
}

fn d(y: u16, m: u8, day: u8) -> Date {
    Date::new(y, m, day)
}

fn build(args: &Args) -> Filterer {
    match Filterer::new(args, d(2024, 1, 1), d(2024, 12, 31)) {
        Ok(f) => f,
        Err(e) => panic!("pattern refused: {:?}", e),
    }
}

#[test]
fn no_criteria_accept_everything() {
    let mut f = build(&no_args());
    assert!(!f.has_filters());
    assert_eq!(f.filtering_count(), 0);
    assert!(f.accepts(&line("1.2.3.4", "GET", "/", 200)));
    assert!(f.accepts(&line("", "", "", 0)));
    assert!(f.date_filter().is_none());
}

#[test]
fn single_criterion_counts_its_rejections() {
    let mut args = no_args();
    args.status = Some("404".to_string());
    let mut f = build(&args);
    assert!(f.has_filters());
    assert!(f.accepts(&line("a", "GET", "/", 404)));
    assert_eq!(f.filtering(0).removed_count, 0);
    assert!(!f.accepts(&line("a", "GET", "/", 200)));
    assert_eq!(f.filtering(0).removed_count, 1);
    assert!(!f.accepts(&line("a", "GET", "/", 500)));
    assert_eq!(f.filtering(0).removed_count, 2);
    assert_eq!(f.filtering(0).pattern, "404");
}

#[test]
fn first_rejection_counts_alone() {
    let mut args = no_args();
    args.ip = Some("10.*".to_string());
    args.status = Some("4xx".to_string());
    let mut f = build(&args);
    assert!(!f.accepts(&line("192.168.0.1", "GET", "/", 200)));
    assert_eq!(f.filtering(0).removed_count, 1);
    assert_eq!(f.filtering(1).removed_count, 0);
}

#[test]
fn date_single_day() {
    let f = DateFilter::new("2024-03-15", None, None).unwrap();
    assert!(f.contains(d(2024, 3, 15)));
    assert!(!f.contains(d(2024, 3, 14)));
    assert!(!f.contains(d(2024, 3, 16)));
    assert!(!f.contains(d(2023, 3, 15)));
}

#[test]
fn date_range_covering_a_month() {
    let f = DateFilter::new("2024-03-01..2024-03-31", None, None).unwrap();
    for day in 1..=31u8 {
        assert!(f.contains(d(2024, 3, day)));
    }
    assert!(!f.contains(d(2024, 2, 29)));
    assert!(!f.contains(d(2024, 4, 1)));
    let m = DateFilter::new("2024-03", None, None).unwrap();
    assert!(m.contains(d(2024, 3, 1)));
    assert!(m.contains(d(2024, 3, 31)));
    assert!(!m.contains(d(2024, 2, 29)));
    assert!(!m.contains(d(2024, 4, 1)));
}

#[test]
fn date_year_and_defaults() {
    let y = DateFilter::new("2023", None, None).unwrap();
    assert_eq!(y.min, d(2023, 1, 1));
    assert_eq!(y.max, d(2023, 12, 31));
    let day = DateFilter::new("15", Some(2024), Some(3)).unwrap();
    assert_eq!(day.min, d(2024, 3, 15));
    assert!(DateFilter::new("15", Some(2024), None).is_err());
    let md = DateFilter::new("3-5", Some(2022), None).unwrap();
    assert_eq!(md.min, d(2022, 3, 5));
    assert_eq!(md.max, d(2022, 3, 5));
}

#[test]
fn date_pattern_errors() {
    assert!(DateFilter::new("2024-13-01", None, None).is_err());
    assert!(DateFilter::new("2024-03-32", None, None).is_err());
    assert!(DateFilter::new("abc", None, None).is_err());
    assert!(DateFilter::new("", None, None).is_err());
    assert!(DateFilter::new("2024-03-01.2024-03-02", None, None).is_err());
    let e = DateFilter::new("202-01-01", None, None).unwrap_err();
    assert_eq!(e.pattern, "202-01-01");
}

#[test]
fn unique_year_month_defaults() {
    assert_eq!(unique_year_month(d(2024, 3, 1), d(2024, 3, 9)), (Some(2024), Some(3)));
    assert_eq!(unique_year_month(d(2024, 3, 1), d(2024, 5, 9)), (Some(2024), None));
    assert_eq!(unique_year_month(d(2023, 12, 31), d(2024, 1, 1)), (None, None));
}

#[test]
fn status_single_code() {
    let f = StatusFilter::from_str("404").unwrap();
    assert!(f.accepts(404));
    assert!(!f.accepts(403));
    assert!(!f.accepts(405));
    assert!(!f.accepts(200));
}

#[test]
fn status_class() {
    let f = StatusFilter::from_str("5xx").unwrap();
    for s in 500..=599u16 {
        assert!(f.accepts(s));
    }
    assert!(!f.accepts(499));
    assert!(!f.accepts(600));
}

#[test]
fn status_list_and_range() {
    let f = StatusFilter::from_str("200,404").unwrap();
    for s in 0..1000u16 {
        assert_eq!(f.accepts(s), s == 200 || s == 404);
    }
    let r = StatusFilter::from_str("301-304,5XX").unwrap();
    assert!(r.accepts(301));
    assert!(r.accepts(304));
    assert!(!r.accepts(305));
    assert!(r.accepts(550));
}

#[test]
fn status_pattern_errors() {
    assert!(StatusFilter::from_str("abc").is_err());
    assert!(StatusFilter::from_str("").is_err());
    assert!(StatusFilter::from_str("200,").is_err());
    assert!(StatusFilter::from_str("404-200").is_err());
    assert!(StatusFilter::from_str("4x").is_err());
}

#[test]
fn method_is_case_insensitive() {
    let f = MethodFilter::from_str("GET");
    assert!(f.contains("get"));
    assert!(f.contains("GET"));
    assert!(f.contains("Get"));
    assert!(!f.contains("POST"));
    let g = MethodFilter::from_str("put,Delete");
    assert!(g.contains("PUT"));
    assert!(g.contains("delete"));
    assert!(!g.contains("GET"));
    let h = MethodFilter::from_str("BREW");
    assert!(h.contains("brew"));
}

#[test]
fn str_filter_forms() {
    let sub = StrFilter::new("admin").unwrap();
    assert!(sub.accepts("/admin/login"));
    assert!(!sub.accepts("/user"));
    let glob = StrFilter::new("10.0.*").unwrap();
    assert!(glob.accepts("10.0.0.5"));
    assert!(!glob.accepts("110.0.0.5"));
    let neg = StrFilter::new("!*.css").unwrap();
    assert!(neg.accepts("/index.html"));
    assert!(!neg.accepts("/style.css"));
    assert!(StrFilter::new("").is_err());
    assert!(StrFilter::new("!").is_err());
}

#[test]
fn yearless_date_needs_one_year() {
    let mut args = no_args();
    args.date = Some("03-15".to_string());
    match Filterer::new(&args, d(2023, 12, 1), d(2024, 1, 31)) {
        Ok(_) => panic!("a yearless date was taken across two years"),
        Err(e) => {
            assert_eq!(e.field, "date");
            assert_eq!(e.error.pattern, "03-15");
        }
    }
    let f = Filterer::new(&args, d(2024, 1, 1), d(2024, 6, 30)).ok().unwrap();
    let df = f.date_filter().unwrap();
    assert_eq!(df.min, d(2024, 3, 15));
    assert_eq!(df.max, d(2024, 3, 15));
}

#[test]
fn end_to_end_address_and_status() {
    let mut args = no_args();
    args.ip = Some("10.0.*".to_string());
    args.status = Some("4xx".to_string());
    let mut f = build(&args);
    let lines = vec![
        line("10.0.0.5", "GET", "/", 404),
        line("10.0.0.5", "GET", "/", 200),
        line("192.168.0.1", "GET", "/", 404),
    ];
    let mut kept = 0;
    for l in &lines {
        if f.accepts(l) {
            kept += 1;
        }
    }
    assert_eq!(kept, 1);
    assert_eq!(f.filtering_count(), 2);
    assert_eq!(f.filtering(0).filter.field_name(), "remote address");
    assert_eq!(f.filtering(0).removed_count, 1);
    assert_eq!(f.filtering(1).filter.field_name(), "status");
    assert_eq!(f.filtering(1).removed_count, 1);
}

#[test]
fn construction_order_and_errors() {
    let args = Args {
        date: Some("2024-03".to_string()),
        ip: Some("10.*".to_string()),
        method: Some("GET".to_string()),
        path: Some("/api".to_string()),
        referer: Some("!google".to_string()),
        status: Some("2xx".to_string()),
    };
    let f = build(&args);
    let names: Vec<&str> = (0..f.filtering_count()).map(|i| f.filtering(i).filter.field_name()).collect();
    assert_eq!(names, vec!["date", "remote address", "method", "path", "referer", "status"]);
    assert!(f.date_filter().is_some());
    let mut bad = no_args();
    bad.path = Some("".to_string());
    bad.status = Some("nope".to_string());
    let e = Filterer::new(&bad, d(2024, 1, 1), d(2024, 1, 2)).err().unwrap();
    assert_eq!(e.field, "path");
    let mut bad_status = no_args();
    bad_status.status = Some("nope".to_string());
    let e = Filterer::new(&bad_status, d(2024, 1, 1), d(2024, 1, 2)).err().unwrap();
    assert_eq!(e.field, "status");
    assert_eq!(e.error.pattern, "nope");
}

#[test]
fn filtering_and_filter_dispatch() {
    let f = Filtering::new("5xx", Filter::Status(StatusFilter::from_str("5xx").unwrap()));
    assert_eq!(f.pattern, "5xx");
    assert_eq!(f.removed_count, 0);
    assert!(f.filter.accepts(&line("a", "GET", "/", 503)));
    assert!(!f.filter.accepts(&line("a", "GET", "/", 200)));
    let m = Filter::Method(MethodFilter::from_str("post"));
    assert!(m.accepts(&line("a", "POST", "/", 200)));
    assert_eq!(m.field_name(), "method");
    let p = Filter::Path(StrFilter::new("/api/*").unwrap());
    assert!(p.accepts(&line("a", "GET", "/api/x", 200)));
    assert_eq!(p.field_name(), "path");
    let r = Filter::Referer(StrFilter::new("-").unwrap());
    assert!(r.accepts(&line("a", "GET", "/", 200)));
    assert_eq!(r.field_name(), "referer");
    let dt = Filter::Date(DateFilter::new("2024-03-15", None, None).unwrap());
    assert!(dt.accepts(&line("a", "GET", "/", 200)));
    assert_eq!(dt.field_name(), "date");
}
