use garta::gui::{
    layer_menu_entries, layers_label, toggle_layer, zoom_level_label, CursorKeeper, CursorMode,
    CursorType,
};
use garta::geo::{parse_location_text, PixelPos};
use garta::id::{next_id, NONE};
use garta::map::TileMap;
use garta::root::{Atlas, AtlasLoadSaveStatus, Layer, MapView};
use garta::settings::{
    client_plan, default_max_zoom_level, string_to_path, worker_threads_for, ClientPlan,
    ProxyParts, Settings, APP_NAME, APP_VERSION, MAX_WORKER_THREADS, MIN_WORKER_THREADS,
};
use garta::units::Units;

#[test]
fn test_atlas() {
    let mut ids: u64 = 0;
    let la = Layer::new("Nimi".into(), 0, &mut ids);
    // Create a atlas and layer
    let la_id = la.id();
    assert!(la.backdrop() == true);

    // Add the layer to the atlas
    let mut p = Atlas::new("proj".into());
    p.layers.insert(la.id(), la);

    assert!(p.backdrop_layer_id().unwrap() == la_id);
}

#[test]
fn test_units() {
    let nautical = Units::Nautical;
    let metric = Units::Metric;
    let imperial = Units::Imperial;
    assert_eq!(nautical.distance_unit_name(), "M");
    assert_eq!(nautical.speed_unit_name(), "kn");
    assert_eq!(metric.distance_unit_name(), "km");
    assert_eq!(metric.speed_unit_name(), "km/h");
    assert_eq!(imperial.distance_unit_name(), "mi");
    assert_eq!(imperial.speed_unit_name(), "mph");

    // Unit conversions through the exact factors of each unit: a unit of
    // speed is one unit of distance per hour.
    let per_unit = |u: Units| {
        let (n, d) = u.metres_per_unit();
        n as f64 / d as f64
    };
    let distance_to_metres = |u: Units, x: f64| x * per_unit(u);
    let distance_from_metres = |u: Units, m: f64| m / per_unit(u);
    let speed_to_mps = |u: Units, v: f64| v * (per_unit(u) / 3600.0);
    let speed_from_mps = |u: Units, v: f64| v / (per_unit(u) / 3600.0);
    let close = |a: f64, b: f64| (a - b).abs() < 0.000001;

    assert_eq!(distance_to_metres(nautical, 1.0), 1852.0);
    assert_eq!(speed_to_mps(nautical, 1.0), speed_to_mps(metric, 1.852));
    assert!(close(distance_from_metres(nautical, 1852.0), 1.0));
    assert!(close(speed_from_mps(nautical, 1.852), speed_from_mps(metric, 1.0)));

    assert_eq!(distance_to_metres(metric, 1.0), 1000.0);
    assert!(close(speed_to_mps(metric, 3.6), 1.0));
    assert!(close(distance_from_metres(metric, 1000.0), 1.0));
    assert!(close(speed_from_mps(metric, 1.0), 3.6));

    assert_eq!(distance_to_metres(imperial, 1.0), 1609.344);
    assert!(close(speed_to_mps(imperial, 1.0), speed_to_mps(metric, 1.609344)));
    assert!(close(distance_from_metres(imperial, 1609.344), 1.0));
    assert!(close(speed_from_mps(imperial, 1.609344), speed_from_mps(metric, 1.0)));
}

#[test]
fn next_id_counts_up_from_one() {
    let mut last: u64 = NONE;
    let a = next_id(&mut last);
    let b = next_id(&mut last);
    assert_eq!(a, 1);
    assert_eq!(b, 2);
    assert_eq!(last, 2);
    assert_ne!(a, NONE);
}

#[test]
fn layers_get_fresh_ids() {
    let mut ids: u64 = 41;
    let a = Layer::new("a".into(), 1, &mut ids);
    let b = Layer::new("b".into(), 2, &mut ids);
    assert_eq!(a.id(), 42);
    assert_eq!(b.id(), 43);
    assert!(!a.backdrop());
    assert_eq!(b.name, "b");
    assert_eq!(b.map_id, NONE);
    assert!(b.element_ids.is_empty());
}

#[test]
fn backdrop_is_least_id_of_order_zero() {
    let mut ids: u64 = 0;
    let mut atlas = Atlas::new("p".into());
    assert_eq!(atlas.name, "unnamed");
    assert_eq!(atlas.backdrop_layer_id(), None);
    let top = Layer::new("top".into(), 5, &mut ids);
    let b1 = Layer::new("b1".into(), 0, &mut ids);
    let b2 = Layer::new("b2".into(), 0, &mut ids);
    let (t_id, b1_id, b2_id) = (top.id(), b1.id(), b2.id());
    atlas.layers.insert(b2_id, b2);
    atlas.layers.insert(t_id, top);
    atlas.layers.insert(b1_id, b1);
    assert_eq!(atlas.backdrop_layer_id(), Some(b1_id));
    atlas.set_layer_order(b1_id, 3);
    assert_eq!(atlas.backdrop_layer_id(), Some(b2_id));
    assert_eq!(atlas.layers[&b1_id].order, 3);
    atlas.set_layer_order(999, 0);
    assert_eq!(atlas.layers.len(), 3);
    assert_eq!(atlas.layer_ids(), vec![t_id, b1_id, b2_id]);
}

#[test]
fn map_names_and_slugs() {
    let mut ids: u64 = 6;
    let m = TileMap::new("Basic".into(), &mut ids);
    assert_eq!(m.slug, "map-7");
    assert_eq!(m.name, "");
    assert!(m.urls.is_empty());
    let mut atlas = Atlas::new("p".into());
    atlas.maps.insert(7, m);
    atlas.set_map_name(7, "Sea".into());
    atlas.set_map_name(8, "None".into());
    assert_eq!(atlas.maps[&7].name, "Sea");
    assert_eq!(atlas.maps.len(), 1);
}

#[test]
fn atlas_load_and_save_reset_status() {
    let mut atlas = Atlas::new("p".into());
    let mut status = AtlasLoadSaveStatus::new();
    status.total = 5;
    status.loaded = 3;
    status.ready = true;
    atlas.load(&mut status);
    assert_eq!((status.total, status.loaded, status.ready), (0, 0, false));
    status.ready = true;
    assert!(!atlas.save(&mut status));
    assert!(!status.ready);
}

#[test]
fn map_view_defaults_and_clone() {
    let mut v = MapView::new();
    assert_eq!(v.zoom_level, 3);
    assert_eq!(v.coordinates_format, "dm");
    assert_eq!(v.map_id, NONE);
    v.visible_layer_ids.push(4);
    let c = v.clone();
    assert_eq!(c.visible_layer_ids, vec![4]);
}

#[test]
fn layers_menu_and_visibility() {
    let mut ids: u64 = 0;
    let mut atlas = Atlas::new("p".into());
    let back = Layer::new("back".into(), 0, &mut ids);
    let l1 = Layer::new("one".into(), 1, &mut ids);
    let l2 = Layer::new("two".into(), 2, &mut ids);
    let (b, a1, a2) = (back.id(), l1.id(), l2.id());
    atlas.layers.insert(b, back);
    atlas.layers.insert(a1, l1);
    atlas.layers.insert(a2, l2);
    let mut view = MapView::new();
    assert_eq!(layers_label(&atlas, &view), "Layers 0/2");
    toggle_layer(&mut view, &atlas, a1, true);
    toggle_layer(&mut view, &atlas, 77, true);
    assert_eq!(view.visible_layer_ids, vec![a1]);
    assert_eq!(layer_menu_entries(&atlas, &view), vec![(a2, false), (a1, true)]);
    assert_eq!(layers_label(&atlas, &view), "Layers 1/2");
    toggle_layer(&mut view, &atlas, a2, true);
    toggle_layer(&mut view, &atlas, a1, true);
    toggle_layer(&mut view, &atlas, a1, false);
    assert_eq!(view.visible_layer_ids, vec![a2]);
}

#[test]
fn layers_label_without_backdrop() {
    let mut ids: u64 = 0;
    let mut atlas = Atlas::new("p".into());
    let l1 = Layer::new("one".into(), 1, &mut ids);
    atlas.layers.insert(l1.id(), l1);
    let view = MapView::new();
    assert_eq!(layers_label(&atlas, &view), "Layers 0/1");
}

#[test]
fn zoom_labels() {
    assert_eq!(zoom_level_label(0), "--");
    assert_eq!(zoom_level_label(7), "L7");
    assert_eq!(zoom_level_label(18), "L18");
}

#[test]
fn cursor_changes_once_per_mode() {
    let mut k = CursorKeeper::new();
    assert_eq!(*k.current_mode(), CursorMode::Unset);
    assert_eq!(k.change_for(CursorMode::Unset), None);
    assert_eq!(k.change_for(CursorMode::Dragging), Some(CursorType::Fleur));
    assert_eq!(k.change_for(CursorMode::Dragging), None);
    assert_eq!(k.change_for(CursorMode::Target), Some(CursorType::Crosshair));
    assert_eq!(k.change_for(CursorMode::Wait), Some(CursorType::Watch));
    assert_eq!(k.change_for(CursorMode::Draggable), Some(CursorType::Hand1));
    assert_eq!(*k.current_mode(), CursorMode::Draggable);
}

#[test]
fn pixel_pos_text() {
    let p = PixelPos::new(-3, 12);
    assert_eq!(p.to_text(), "(-3,12)");
    assert_eq!((p.x, p.y), (-3, 12));
}

#[test]
fn home_is_substituted_in_paths() {
    assert_eq!(
        string_to_path(&"~/.cache/garta".to_string(), "/home/u").iter().collect::<String>(),
        "/home/u/.cache/garta"
    );
    assert_eq!(
        string_to_path(&"/var/cache".to_string(), "/home/u").iter().collect::<String>(),
        "/var/cache"
    );
    assert_eq!(
        string_to_path(&"~".to_string(), "/home/u").iter().collect::<String>(),
        "~"
    );
    assert_eq!(
        string_to_path(&"~/".to_string(), "/home/u/").iter().collect::<String>(),
        "/home/u/"
    );
}

#[test]
fn settings_directories() {
    let s = Settings::new();
    let home = "/home/u";
    assert_eq!(s.project_directory(home), "/home/u/.local/share/garta");
    assert_eq!(s.user_maps_directory(home), "/home/u/.config/garta/maps");
    assert_eq!(s.user_tokens_directory(home), "/home/u/.config/garta/maps/tokens");
    assert_eq!(s.settings_file(home), "/home/u/.config/garta/settings");
    assert_eq!(s.mapview_file(home), "/home/u/.config/garta/map-view");
    assert_eq!(s.cache_directory(home), "/home/u/.cache/garta");
    assert_eq!(s.ui_directory_for("main.ui", home), "/usr/local/share/garta/ui/main.ui");
    assert_eq!(
        s.map_directories(home),
        vec![
            "/usr/local/share/garta/maps".to_string(),
            "/home/u/.config/garta/maps".to_string(),
            "./maps".to_string()
        ]
    );
    assert_eq!(
        s.token_directories(home),
        vec![
            "/usr/local/share/garta/maps/tokens".to_string(),
            "/home/u/.config/garta/maps/tokens".to_string(),
            "./maps/tokens".to_string()
        ]
    );
    assert_eq!(
        s.load_directories(home),
        vec![
            "/home/u/.local/share/garta".to_string(),
            "/home/u/.config/garta/maps".to_string(),
            "/home/u/.config/garta/maps/tokens".to_string(),
            "/home/u/.cache/garta".to_string()
        ]
    );
    assert!(s.save().is_ok());
}

#[test]
fn settings_defaults() {
    let s = Settings::new();
    assert_eq!(s.units, Units::Nautical);
    assert_eq!(s.worker_threads, -1);
    assert_eq!(s.http_retry_count, 3);
    assert_eq!(s.tile_mem_cache_capacity, Some(256 * 1024 * 1024));
    assert_eq!(s.tile_disk_cache_capacity, Some(1000 * 1024 * 1024));
    assert_eq!(s.browser_command, "xdg-open");
    assert_eq!(default_max_zoom_level(), 16);
    assert_eq!(s.user_agent_header(), format!("{}/{} (+https://github.com/zaari/garta)", APP_NAME, APP_VERSION));
}

#[test]
fn worker_thread_counts() {
    assert_eq!(worker_threads_for(0, 16), 1);
    assert_eq!(worker_threads_for(5, 16), 5);
    assert_eq!(worker_threads_for(-1, 1), MIN_WORKER_THREADS);
    assert_eq!(worker_threads_for(-1, 64), MAX_WORKER_THREADS);
    assert_eq!(worker_threads_for(-1, 6), 6);
    let auto = Settings::new().worker_threads();
    assert!(MIN_WORKER_THREADS <= auto && auto <= MAX_WORKER_THREADS);
    let mut s = Settings::new();
    s.worker_threads = 3;
    assert_eq!(s.worker_threads(), 3);
}

fn parts(host: Option<&str>, port: Option<u16>, scheme: &str) -> Option<ProxyParts> {
    Some(ProxyParts { host: host.map(|h| h.to_string()), port, scheme: scheme.to_string() })
}

#[test]
fn client_plans() {
    assert!(matches!(client_plan(false, None), ClientPlan::Direct));
    assert!(matches!(client_plan(true, None), ClientPlan::Tls));
    match client_plan(false, parts(Some("p.example"), Some(3128), "http")) {
        ClientPlan::HttpProxy { host, port } => assert_eq!((host.as_str(), port), ("p.example", 3128)),
        _ => panic!("expected a proxy"),
    }
    match client_plan(true, parts(Some("p.example"), Some(8080), "http")) {
        ClientPlan::TlsProxy { host, port } => assert_eq!((host.as_str(), port), ("p.example", 8080)),
        _ => panic!("expected a proxy"),
    }
    assert!(matches!(client_plan(true, parts(Some("p.example"), Some(8080), "https")), ClientPlan::Tls));
    assert!(matches!(client_plan(false, parts(None, Some(8080), "http")), ClientPlan::Direct));
    assert!(matches!(client_plan(false, parts(Some("p"), None, "http")), ClientPlan::Direct));
}

#[test]
fn client_plan_from_settings() {
    let mut s = Settings::new();
    assert!(matches!(s.http_client_plan(false, None), ClientPlan::Direct));
    match s.http_client_plan(false, Some("http://proxy.example:3128/".to_string())) {
        ClientPlan::HttpProxy { host, port } => assert_eq!((host.as_str(), port), ("proxy.example", 3128)),
        _ => panic!("expected a proxy"),
    }
    assert!(matches!(s.http_client_plan(true, Some("not a url".to_string())), ClientPlan::Tls));
    s.http_proxy_auto = false;
    assert!(matches!(s.http_client_plan(false, Some("http://ignored:1/".to_string())), ClientPlan::Direct));
    s.https_proxy_url = Some("http://secure.example/".to_string());
    match s.http_client_plan(true, None) {
        ClientPlan::TlsProxy { host, port } => assert_eq!((host.as_str(), port), ("secure.example", 80)),
        _ => panic!("expected a proxy"),
    }
}

#[test]
fn location_texts_parse() {
    let p = parse_location_text("71°N 179°E").unwrap();
    assert_eq!((p.lat.as_str(), p.north, p.lon.as_str(), p.east), ("71", true, "179", true));
    let p = parse_location_text("71°N 178°W").unwrap();
    assert_eq!((p.lon.as_str(), p.east), ("178", false));
    let p = parse_location_text("54.8°S 68.3°W").unwrap();
    assert_eq!((p.lat.as_str(), p.north, p.lon.as_str(), p.east), ("54.8", false, "68.3", false));
    let p = parse_location_text("48.23532N, .5E").unwrap();
    assert_eq!((p.lat.as_str(), p.lon.as_str()), ("48.23532", "5"));
    assert!(parse_location_text("nonsense").is_none());
    assert!(parse_location_text("1.2.3N 4E").is_none());
    assert!(parse_location_text("1N4E").is_none());
    assert!(parse_location_text("1N x4E").is_none());
    assert!(parse_location_text("1N 4E ").is_none());
    assert!(parse_location_text("5.N 4E").is_none());
}

#[test]
fn scroll_zoom_steps() {
    use_scroll_zoom();
}

fn use_scroll_zoom() {
    assert_eq!(garta::gui::scroll_zoom(5, true, 16), Some(6));
    assert_eq!(garta::gui::scroll_zoom(16, true, 16), None);
    assert_eq!(garta::gui::scroll_zoom(3, false, 16), Some(2));
    assert_eq!(garta::gui::scroll_zoom(2, false, 16), None);
}

#[test]
fn maps_button_labels() {
    let mut ids: u64 = 0;
    let mut atlas = Atlas::new("p".into());
    let mut view = MapView::new();
    assert_eq!(garta::gui::maps_button_label(&atlas, &view), "Maps");
    let mut m = TileMap::new("x".into(), &mut ids);
    m.name = "Sea chart".into();
    assert!(!m.has_urls());
    m.urls.push("http://t/${z}/${x}/${y}".into());
    assert!(m.has_urls());
    atlas.maps.insert(1, m);
    view.map_id = 1;
    assert_eq!(garta::gui::maps_button_label(&atlas, &view), "Sea chart");
}

#[test]
fn unit_factors() {
    assert_eq!(Units::Nautical.metres_per_unit(), (1852, 1));
    assert_eq!(Units::Metric.metres_per_unit(), (1000, 1));
    let (n, d) = Units::Imperial.metres_per_unit();
    assert_eq!(n as f64 / d as f64, 1609.344);
}

#[test]
fn map_tile_sources() {
    let mut ids: u64 = 0;
    let mut m = TileMap::new("x".into(), &mut ids);
    assert!(m.to_tile_source().is_none());
    m.tile_width = Some(256);
    m.tile_height = Some(512);
    m.urls.push("http://t/${z}".into());
    m.token = "k".into();
    let src = m.to_tile_source().unwrap();
    assert_eq!((src.slug.as_str(), src.tile_width, src.tile_height), ("map-1", 256, 512));
    assert_eq!(src.url_templates, vec!["http://t/${z}".to_string()]);
    assert_eq!(src.token, "k");
}

#[test]
fn test_settings_path() {
    // Test that HOME substitution works as expected
    let home = "/home/someone";
    let settings = Settings::new();
    let p: String = settings.cache_directory(home);
    let q = settings.cache_directory.replace("~", home);
    println!("p={}", p);
    println!("q={}", q);
    assert!(p == q)
}

#[test]
fn atlases_start_empty() {
    let a = Atlas::new("slug".into());
    assert_eq!(a.slug, "slug");
    assert_eq!(a.name, "unnamed");
    assert!(a.layers.is_empty() && a.maps.is_empty());
    assert!(a.attractions.is_empty() && a.waypoints.is_empty() && a.routes.is_empty());
    assert!(a.tracks.is_empty() && a.areas.is_empty());
}

#[test]
fn maps_are_ordered_by_name() {
    let mut ids: u64 = 0;
    let mut a = TileMap::new("a".into(), &mut ids);
    let mut b = TileMap::new("b".into(), &mut ids);
    a.name = "Alpha".to_string();
    b.name = "Beta".to_string();
    assert_eq!(a.name_order(&b), -1);
    assert_eq!(b.name_order(&a), 1);
    assert!(!a.same_name(&b));
    b.name = "Alphabet".to_string();
    assert_eq!(a.name_order(&b), -1);
    assert_eq!(b.name_order(&a), 1);
    b.name = "Alpha".to_string();
    assert_eq!(a.name_order(&b), 0);
    assert!(a.same_name(&b));
    b.name = "Ärrä".to_string();
    assert_eq!(a.name_order(&b), -1);
    assert_eq!(a.name_order(&b) as i32, match a.name.cmp(&b.name) {
        std::cmp::Ordering::Less => -1,
        std::cmp::Ordering::Equal => 0,
        std::cmp::Ordering::Greater => 1,
    });
}

#[test]
fn successive_ids_increase() {
    let mut last: u64 = 7;
    let a = next_id(&mut last);
    let b = next_id(&mut last);
    assert!(a != NONE && b != NONE && a < b);
    assert_eq!(b, a + 1);
}
