use spacetrack_rs::{Format, QueryBuilder, SpaceTrackClient, BASE_URL};

fn client() -> SpaceTrackClient {
    SpaceTrackClient::new(BASE_URL, ureq::Agent::new())
}

fn satcat(c: &SpaceTrackClient) -> QueryBuilder<'_, ()> {
    c.query_builder::<()>("basicspacedata", "satcat")
}

#[test]
fn catalog_scenario_url() {
    let c = client();
    let url = satcat(&c)
        .filter("CURRENT", "Y")
        .filter("LAUNCH", ">now-7")
        .build_url();
    assert_eq!(
        url,
        "https://www.space-track.org/basicspacedata/query/class/satcat/CURRENT/Y/LAUNCH/>now-7/format/json/"
    );
}

#[test]
fn bare_query_gets_json_suffix() {
    let c = client();
    let url = satcat(&c).build_url();
    assert_eq!(url, "https://www.space-track.org/basicspacedata/query/class/satcat/format/json/");
    assert_eq!(url.matches("format/json/").count(), 1);
    assert!(url.ends_with("format/json/"));
}

#[test]
fn other_group_uses_its_own_root() {
    let c = SpaceTrackClient::new("http://example.test", ureq::Agent::new());
    let url = c.query_builder::<()>("fileshare", "file").build_url();
    assert_eq!(url, "http://example.test/fileshare/query/class/file/format/json/");
    assert_eq!(c.base_url(), "http://example.test");
}

#[test]
fn limit_and_order_clauses() {
    let c = client();
    let url = satcat(&c).order_by("EPOCH desc").limit(25).build_url();
    assert_eq!(
        url,
        "https://www.space-track.org/basicspacedata/query/class/satcat/orderby/EPOCH desc/limit/25/format/json/"
    );
}

#[test]
fn limit_edges() {
    let c = client();
    let url = satcat(&c).limit(0).limit(u32::MAX).limit(10).build_url();
    assert!(url.ends_with("satcat/limit/0/limit/4294967295/limit/10/format/json/"));
}

#[test]
fn clause_order_follows_calls() {
    let c = client();
    let ab = satcat(&c).filter("A", "1").limit(5).build_url();
    let ba = satcat(&c).limit(5).filter("A", "1").build_url();
    assert!(ab.ends_with("satcat/A/1/limit/5/format/json/"));
    assert!(ba.ends_with("satcat/limit/5/A/1/format/json/"));
    assert_ne!(ab, ba);
}

#[test]
fn non_default_format_suffix() {
    let c = client();
    let url = satcat(&c).filter("NORAD_CAT_ID", "25544").format(Format::Tle).build_url();
    assert!(url.ends_with("satcat/NORAD_CAT_ID/25544/format/tle/"));
}

#[test]
fn format_reset_leaves_one_segment() {
    let c = client();
    let url = satcat(&c).format(Format::Xml).format(Format::Json).build_url();
    assert_eq!(url.matches("format/").count(), 1);
    assert!(url.ends_with("satcat/format/json/"));
    let twice = satcat(&c).format(Format::Csv).format(Format::Csv).build_url();
    assert_eq!(twice.matches("format/").count(), 1);
    assert!(twice.ends_with("format/csv/"));
}

#[test]
fn injected_format_clause_suppresses_default() {
    let c = client();
    let url = satcat(&c).filter("format", "csv").build_url();
    assert!(url.ends_with("satcat/format/csv/"));
    assert_eq!(url.matches("format/").count(), 1);
    let kvn = satcat(&c).filter("format", "csv").format(Format::Kvn).build_url();
    assert!(kvn.ends_with("satcat/format/csv/format/kvn/"));
}

#[test]
fn single_limit_for_one_record() {
    let c = client();
    let url = satcat(&c).filter("NORAD_CAT_ID", "25544").limit(1).build_url();
    assert_eq!(url.matches("limit/1/").count(), 1);
    assert_eq!(url.matches("limit/").count(), 1);
}

#[test]
fn format_tokens() {
    assert_eq!(Format::Json.as_str(), "json");
    assert_eq!(Format::Csv.as_str(), "csv");
    assert_eq!(Format::Xml.as_str(), "xml");
    assert_eq!(Format::Html.as_str(), "html");
    assert_eq!(Format::Tle.as_str(), "tle");
    assert_eq!(Format::ThreeLine.as_str(), "3le");
    assert_eq!(Format::Kvn.as_str(), "kvn");
    assert_eq!(Format::default(), Format::Json);
}

#[test]
fn builder_reports_format() {
    let c = client();
    assert_eq!(satcat(&c).chosen_format(), Format::Json);
    assert_eq!(satcat(&c).format(Format::Html).chosen_format(), Format::Html);
    assert_eq!(satcat(&c).client().base_url(), BASE_URL);
}

#[test]
fn element_query_orders_clauses() {
    let c = client();
    let gp = |q: QueryBuilder<'_, ()>| q.build_url();
    let b1 = gp(c
        .query_builder::<()>("basicspacedata", "gp")
        .filter("NORAD_CAT_ID", "25544")
        .order_by("EPOCH desc")
        .limit(1));
    let b2 = gp(c
        .query_builder::<()>("basicspacedata", "gp")
        .limit(1)
        .order_by("EPOCH desc")
        .filter("NORAD_CAT_ID", "25544"));
    assert_eq!(
        b1,
        "https://www.space-track.org/basicspacedata/query/class/gp/NORAD_CAT_ID/25544/orderby/EPOCH desc/limit/1/format/json/"
    );
    assert_eq!(
        b2,
        "https://www.space-track.org/basicspacedata/query/class/gp/limit/1/orderby/EPOCH desc/NORAD_CAT_ID/25544/format/json/"
    );
}
