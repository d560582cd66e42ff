use garta::gpx::{parse_gpx_time, read_gpx, GpxReader, ReadStep, XmlAttribute, XmlEvent};
use garta::persistence::{candidate_filename, candidate_for_answers, first_free, make_filename, make_safe_name};
use garta::clock::{current_timestamp, timestamp_from, LAST_SECOND};

#[test]
fn safe_names_are_readable() {
    assert_eq!(make_safe_name("Hello World"), "hello-world");
    assert_eq!(make_safe_name("Äänekoski/Jyväskylä"), "aanekoski-jyvaskyla");
    assert_eq!(make_safe_name("Straße & Œuvre"), "strasse---oeuvre");
    assert_eq!(make_safe_name("What?!."), "what");
    assert_eq!(make_safe_name("Kiťa #1"), "kita-_1");
    assert_eq!(make_safe_name("ĸ"), "ķ");
    assert_eq!(make_safe_name(""), "");
    for name in ["A/B", "..", "x.y/z", "日本"] {
        let s = make_safe_name(name);
        assert!(!s.contains('/') && !s.contains('.'));
    }
}

#[test]
fn file_name_candidates() {
    assert_eq!(candidate_filename("/maps", "My Map", "json", 1), "/maps/my-map.json");
    assert_eq!(candidate_filename("/maps", "My Map", "json", 2), "/maps/my-map-2.json");
    assert_eq!(candidate_filename("/maps/", "x", "json", 12), "/maps/x-12.json");
}

#[test]
fn unique_file_names() {
    assert_eq!(
        make_filename("/nonexistent-garta-dir", "Track 1", "gpx"),
        Some("/nonexistent-garta-dir/track-1.gpx".to_string())
    );
    assert_eq!(make_filename("/etc", "Host", "conf"), Some("/etc/host-2.conf".to_string()));
}

fn start(name: &str, attrs: &[(&str, &str)]) -> XmlEvent {
    XmlEvent::StartElement {
        name: name.to_string(),
        attributes: attrs
            .iter()
            .map(|(n, v)| XmlAttribute { name: n.to_string(), value: v.to_string() })
            .collect(),
    }
}

fn end(name: &str) -> XmlEvent {
    XmlEvent::EndElement { name: name.to_string() }
}

fn feed(reader: &mut GpxReader, events: Vec<XmlEvent>) -> Option<String> {
    for ev in events {
        assert!(!reader.step_panics(&ev));
        match reader.step(ev) {
            ReadStep::Continue => {},
            ReadStep::Finished => return None,
            ReadStep::Failed(m) => return Some(m),
        }
    }
    Some("unfinished".to_string())
}

#[test]
fn gpx_tracks_are_read() {
    let mut r = GpxReader::new();
    let events = vec![
        XmlEvent::StartDocument,
        start("gpx", &[("version", "1.1")]),
        start("trk", &[]),
        start("name", &[]),
        XmlEvent::Characters("Kaunissaari".to_string()),
        end("name"),
        start("trkseg", &[]),
        start("trkpt", &[("lat", "60.1"), ("lon", "25.5")]),
        start("ele", &[]),
        XmlEvent::Characters("12.5".to_string()),
        end("ele"),
        start("time", &[]),
        XmlEvent::Characters("2016-08-20T10:00:00Z".to_string()),
        end("time"),
        end("trkpt"),
        start("trkpt", &[("lon", "25.6")]),
        end("trkpt"),
        end("trkseg"),
        end("trk"),
        end("gpx"),
        XmlEvent::EndDocument,
    ];
    assert_eq!(feed(&mut r, events), None);
    let col = r.into_collection();
    assert_eq!(col.tracks.len(), 1);
    assert_eq!(col.tracks[0].trkseg.len(), 1);
    let pts = &col.tracks[0].trkseg[0].trkpt;
    assert_eq!(pts.len(), 2);
    assert_eq!(pts[0].lat.as_deref(), Some("60.1"));
    assert_eq!(pts[0].lon.as_deref(), Some("25.5"));
    assert_eq!(pts[0].elev.as_deref(), Some("12.5"));
    assert_eq!(pts[0].time.as_deref(), Some("2016-08-20T10:00:00Z"));
    assert_eq!(pts[1].lat, None);
    assert_eq!(pts[1].lon.as_deref(), Some("25.6"));
    assert_eq!(pts[1].elev, None);
    assert!(col.routes.is_empty() && col.waypoints.is_empty());
}

#[test]
fn gpx_routes_and_failures() {
    let mut r = GpxReader::new();
    assert_eq!(feed(&mut r, vec![start("rte", &[]), end("rte"), XmlEvent::Failed]), Some("Something failed".to_string()));
    assert_eq!(r.collection().routes.len(), 1);
    let mut r2 = GpxReader::new();
    assert_eq!(feed(&mut r2, vec![XmlEvent::Other]), Some("Empty".to_string()));
}

#[test]
fn gpx_errors_that_stop_reading() {
    let r = GpxReader::new();
    assert!(r.step_panics(&start("trkseg", &[])));
    assert!(r.step_panics(&start("trkpt", &[])));
    assert!(r.step_panics(&end("gpx")));
    assert!(!r.step_panics(&start("gpx", &[])));
    let mut r = GpxReader::new();
    assert_eq!(feed(&mut r, vec![start("gpx", &[]), start("wpt", &[]), start("ele", &[])]), Some("unfinished".to_string()));
    assert!(r.step_panics(&end("ele")));
    assert!(r.step_panics(&end("wpt")));
    let mut r = GpxReader::new();
    feed(&mut r, vec![start("trk", &[]), start("trkseg", &[])]);
    assert!(r.step_panics(&end("trk")));
    assert!(!r.step_panics(&end("trkseg")));
}

#[test]
fn element_files_end_in_json() {
    assert!(garta::persistence::is_element_file("osm.json"));
    assert!(garta::persistence::is_element_file(".json"));
    assert!(!garta::persistence::is_element_file("osm.json~"));
    assert!(!garta::persistence::is_element_file("json"));
}

#[test]
fn safe_names_are_kept_as_they_are() {
    for name in ["Hello World", "Äänekoski/Jyväskylä", "Kiťa #1", "ĸ", "Straße & Œuvre", "日本", ""] {
        let once = make_safe_name(name);
        assert_eq!(make_safe_name(&once), once);
    }
    assert_eq!(make_safe_name("abc-1+_ķ"), "abc-1+_ķ");
}

#[test]
fn first_free_answers() {
    assert_eq!(first_free(&vec![]), None);
    assert_eq!(first_free(&vec![false]), Some(0));
    assert_eq!(first_free(&vec![true, true, false, false]), Some(2));
    assert_eq!(first_free(&vec![true, true]), None);
}

const GPX_DOC: &str = r#"<?xml version="1.0" encoding="UTF-8"?>
<gpx version="1.1" creator="test">
  <!-- a comment -->
  <trk>
    <name>Kaunissaari</name>
    <trkseg>
      <trkpt lat="60.1" lon="24.9"><ele> 12.5 </ele><time>2016-08-20T10:00:00Z</time></trkpt>
      <trkpt lon="25.0" lat="60.2"></trkpt>
    </trkseg>
  </trk>
  <rte><rtept lat="1" lon="2"/></rte>
</gpx>"#;

#[test]
fn gpx_documents_are_read() {
    let col = read_gpx(&GPX_DOC.as_bytes().to_vec()).unwrap();
    assert_eq!(col.tracks.len(), 1);
    assert_eq!(col.tracks[0].trkseg.len(), 1);
    let pts = &col.tracks[0].trkseg[0].trkpt;
    assert_eq!(pts.len(), 2);
    assert_eq!(pts[0].lat.as_deref(), Some("60.1"));
    assert_eq!(pts[0].lon.as_deref(), Some("24.9"));
    assert_eq!(pts[0].elev.as_deref(), Some("12.5"));
    assert_eq!(pts[0].time.as_deref(), Some("2016-08-20T10:00:00Z"));
    assert_eq!((pts[1].lat.as_deref(), pts[1].lon.as_deref()), (Some("60.2"), Some("25.0")));
    assert_eq!(col.routes.len(), 1);
    assert_eq!(col.routes[0].rtept.len(), 0);
}

#[test]
fn broken_gpx_documents_fail() {
    assert_eq!(read_gpx(&b"<gpx><trk></gpx>".to_vec()).err(), Some("Something failed".to_string()));
    assert_eq!(read_gpx(&Vec::new()).err(), Some("Something failed".to_string()));
    assert_eq!(read_gpx(&b"<gpx><trkseg/></gpx>".to_vec()).err(), Some("GPX elements out of place".to_string()));
    assert_eq!(read_gpx(&b"<time>x</time>".to_vec()).err(), Some("GPX elements out of place".to_string()));
}

#[test]
fn gpx_times_in_each_format() {
    assert_eq!(parse_gpx_time("2016-08-20T10:00:00.000000500Z"), Some((1471687200, 500)));
    assert_eq!(parse_gpx_time("2016-08-20T12:00:00.000000000+0200"), Some((1471687200, 0)));
    assert_eq!(parse_gpx_time("20160820T100000.000000007Z"), Some((1471687200, 7)));
    assert_eq!(parse_gpx_time("20160820T100000Z"), Some((1471687200, 0)));
    assert_eq!(parse_gpx_time("2016-08-20T10:00:00Z"), Some((1471687200, 0)));
    assert_eq!(parse_gpx_time("yesterday"), None);
}

#[test]
fn file_names_from_the_answers() {
    assert_eq!(candidate_for_answers("/maps", "My Map", "json", &vec![false]), Some("/maps/my-map.json".to_string()));
    assert_eq!(
        candidate_for_answers("/maps", "My Map", "json", &vec![true, true, false]),
        Some("/maps/my-map-3.json".to_string())
    );
    assert_eq!(candidate_for_answers("/maps", "My Map", "json", &vec![true, false, false]), Some("/maps/my-map-2.json".to_string()));
    assert_eq!(candidate_for_answers("/maps", "My Map", "json", &vec![true, true]), None);
    assert_eq!(candidate_for_answers("/maps", "My Map", "json", &vec![]), None);
}

#[test]
fn clock_readings() {
    assert_eq!(timestamp_from(Ok((1_471_687_200, 999))), 1_471_687_200);
    assert_eq!(timestamp_from(Err((1, 0))), -1);
    assert_eq!(timestamp_from(Err((1, 500))), -2);
    assert_eq!(timestamp_from(Err((0, 500))), -1);
    assert_eq!(timestamp_from(Ok((u64::MAX, 0))), LAST_SECOND);
    assert_eq!(timestamp_from(Err((u64::MAX, 0))), -LAST_SECOND);
    assert!(current_timestamp() > 1_400_000_000);
}
