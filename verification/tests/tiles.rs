use garta::tiles::cache::{create_tile_cache, TileCache};
use garta::tiles::fetch::{
    convert_image_to_buffer, expire_time_for, status_result_code, TileRequestResult,
    TileRequestResultCode,
};
use garta::tiles::queue::TileRequestQueue;
use garta::tiles::request::{TileFetchMode, TileRequest};
use garta::tiles::source::{expand_url_template, TileSource};
use garta::tiles::tile::{cairo_format_stride_for_width, SurfaceFormat, Tile, TileOrd, TileState, TileSurface};
use garta::tiles::worker::{fetch_plan, fetch_result, worker_next, FetchPlan, FetchReply, WorkerAction, WorkerEvent};

fn osm_source() -> TileSource {
    let mut urls: Vec<String> = Vec::new();
    urls.push("http://a.tile.openstreetmap.org/${z}/${x}/${y}.png".to_string());
    urls.push("http://b.tile.openstreetmap.org/${z}/${x}/${y}.png".to_string());
    TileSource::new("osm-carto".into(), urls, "".into(), 256, 256)
}

fn png_bytes(w: u32, h: u32) -> Vec<u8> {
    let img = image::RgbaImage::from_pixel(w, h, image::Rgba([10, 20, 30, 255]));
    let mut out = std::io::Cursor::new(Vec::new());
    image::DynamicImage::ImageRgba8(img).write_to(&mut out, image::ImageOutputFormat::Png).unwrap();
    out.into_inner()
}

#[test]
fn test_tile_source() {
    // Tile source
    let tile_source = osm_source();

    // Tile request
    let treq = TileRequest::new(1, 1, 0, 0, 1, 1, tile_source.clone());

    // Test making urls
    match tile_source.make_url(&treq) {
        Ok(url) => {
            assert!(url.as_str() == "http://a.tile.openstreetmap.org/1/0/0.png" ||
                    url.as_str() == "http://b.tile.openstreetmap.org/1/0/0.png");
            assert!(url.scheme() == "http");
            assert!(url.host_str().unwrap() == "a.tile.openstreetmap.org" ||
                    url.host_str().unwrap() == "b.tile.openstreetmap.org");
        },
        Err(e) => {
            panic!("{}", e);
        }
    }
}

#[test]
fn test_tile_request() {
    let tile_source = TileSource::new("osm-carto".into(), Vec::new(), "".into(), 256,  256, );
    assert_eq!(2, TileRequest::new(1, 1, -2, 0, 2, 1, tile_source.clone()).wrap_x());
    assert_eq!(3, TileRequest::new(1, 1, -1, 0, 2, 1, tile_source.clone()).wrap_x());
    assert_eq!(0, TileRequest::new(1, 1, 0, 0, 2, 1, tile_source.clone()).wrap_x());
    assert_eq!(0, TileRequest::new(1, 1, 4, 0, 2, 1, tile_source.clone()).wrap_x());
    assert_eq!(1, TileRequest::new(1, 1, 5, 0, 2, 1, tile_source.clone()).wrap_x());
}

#[test]
fn wrapping_is_periodic_and_idempotent() {
    let src = osm_source();
    for x in -20..20 {
        let a = TileRequest::new(0, 0, x, 0, 3, 1, src.clone());
        let b = TileRequest::new(0, 0, x + 8, 0, 3, 1, src.clone());
        let w = a.wrap_x();
        assert!(0 <= w && w < 8);
        assert_eq!(w, b.wrap_x());
        assert_eq!(a.to_key(), b.to_key());
        assert_eq!(TileRequest::new(0, 0, w, 0, 3, 1, src.clone()).wrap_x(), w);
    }
    assert_eq!(TileRequest::new(0, 0, i32::MAX, 0, 31, 1, src.clone()).wrap_x(), i32::MAX);
}

#[test]
fn keys_and_zooming_out() {
    let src = osm_source();
    let r = TileRequest::new(0, 0, -1, 5, 3, 2, src.clone());
    assert_eq!(r.to_key(), "osm-carto/3/5/7@2");
    let up = r.zoom_out();
    assert_eq!((up.x, up.y, up.z, up.mult), (3, 2, 2, 2));
    assert_eq!(up.to_key(), "osm-carto/2/2/3@2");
    let neg = TileRequest::new(0, 0, 1, -3, 3, 1, src.clone()).zoom_out();
    assert_eq!(neg.y, -1);
}

#[test]
fn cache_paths_by_zoom_level() {
    let src = osm_source();
    let (dir, path) = TileRequest::new(0, 0, 9, 3, 4, 1, src.clone()).to_cache_path("/c");
    assert_eq!(dir, "/c/osm-carto/04");
    assert_eq!(path, "/c/osm-carto/04/3,9");
    let (dir, path) = TileRequest::new(0, 0, 100, 7, 8, 1, src.clone()).to_cache_path("/c");
    assert_eq!(dir, "/c/osm-carto/08/7");
    assert_eq!(path, "/c/osm-carto/08/7/100");
    let (dir, path) = TileRequest::new(0, 0, 0x1234, 0xabc, 16, 1, src.clone()).to_cache_path("/c");
    assert_eq!(dir, "/c/osm-carto/16/0a/bc/12");
    assert_eq!(path, "/c/osm-carto/16/0a/bc/12/34");
    assert!(!TileRequest::new(0, 0, 0, 0, 1, 1, src.clone()).tile_exists_on_disk("/nonexistent-garta-cache"));
}

#[test]
fn queue_keeps_order_and_set_semantics() {
    let src = osm_source();
    let mut q = TileRequestQueue::new();
    assert!(q.pull_request().is_none());
    let low = TileRequest::new(1, 0, 0, 0, 2, 1, src.clone());
    let high = TileRequest::new(2, 0, 0, 0, 2, 1, src.clone());
    let mid = TileRequest::new(1, 5, 0, 0, 3, 1, src.clone());
    q.push_request(&low);
    q.push_request(&high);
    q.push_request(&mid);
    q.push_request(&TileRequest::new(2, 0, 4, 0, 2, 1, src.clone()));
    assert_eq!(q.len(), 3);
    assert_eq!(q.pull_request().unwrap().generation, 2);
    assert_eq!(q.pull_request().unwrap().priority, 5);
    let last = q.pull_request().unwrap();
    assert_eq!((last.generation, last.priority), (1, 0));
    assert!(q.pull_request().is_none());
}

#[test]
fn push_then_pull_gives_the_request_back() {
    let mut q = TileRequestQueue::new();
    let r = TileRequest::new(3, 4, 5, 6, 7, 1, osm_source());
    q.push_request(&r);
    let back = q.pull_request().unwrap();
    assert_eq!(back.to_key(), r.to_key());
    assert_eq!(q.len(), 0);
}

#[test]
fn focusing_the_queue_on_a_level() {
    let src = osm_source();
    let mut q = TileRequestQueue::new();
    q.push_request(&TileRequest::new(0, 0, 0, 0, 2, 1, src.clone()));
    q.push_request(&TileRequest::new(0, 1, 1, 0, 3, 1, src.clone()));
    q.push_request(&TileRequest::new(0, 2, 2, 0, 2, 1, src.clone()));
    let mut aborted: Vec<String> = vec!["old".to_string()];
    q.focus_on_zoom_level(2, &mut aborted);
    assert_eq!(q.len(), 2);
    assert_eq!(aborted, vec!["old".to_string(), "osm-carto/3/0/1@1".to_string()]);
    while let Some(r) = q.pull_request() {
        assert_eq!(r.z, 2);
    }
}

#[test]
fn queue_order_compares_fields_in_turn() {
    let src = osm_source();
    let a = TileRequest::new(1, 0, 0, 0, 2, 1, src.clone());
    let b = TileRequest::new(1, 0, 1, 0, 2, 1, src.clone());
    assert_eq!(a.queue_order(&b), -1);
    assert_eq!(b.queue_order(&a), 1);
    assert_eq!(a.queue_order(&TileRequest::new(1, 0, 4, 0, 2, 9, src.clone())), 0);
}

#[test]
fn url_templates_expand() {
    assert_eq!(
        expand_url_template("https://t/${z}/${x}/${y}.png?k=${token}", 3, -4, 5, "abc"),
        "https://t/5/3/-4.png?k=abc"
    );
    assert_eq!(expand_url_template("plain", 1, 2, 3, "t"), "plain");
}

#[test]
fn make_url_errors() {
    let empty = TileSource::new("none".into(), Vec::new(), "".into(), 256, 256);
    let r = TileRequest::new(0, 0, 0, 0, 1, 1, empty.clone());
    assert_eq!(empty.make_url(&r).unwrap_err(), "No tile urls defined for the tile source none");
    let mut bad = TileSource::new("bad".into(), Vec::new(), "".into(), 256, 256);
    bad.add_url_template("not a url ${z}".to_string());
    let e = bad.make_url(&TileRequest::new(0, 0, 0, 0, 1, 1, bad.clone())).unwrap_err();
    assert!(e.starts_with("Tile url creation error: "));
    assert!(e.len() > "Tile url creation error: ".len());
}

#[test]
fn stride_is_four_bytes_per_pixel() {
    assert_eq!(cairo_format_stride_for_width(SurfaceFormat::ARgb32, 1), 4);
    assert_eq!(cairo_format_stride_for_width(SurfaceFormat::ARgb32, 256), 1024);
}

#[test]
fn status_codes_and_expiry() {
    assert_eq!(status_result_code(200), None);
    assert_eq!(status_result_code(404), Some(TileRequestResultCode::NotFoundError));
    assert_eq!(status_result_code(401), Some(TileRequestResultCode::UnauthorizedError));
    assert_eq!(status_result_code(500), Some(TileRequestResultCode::UnknownError));
    assert_eq!(status_result_code(503), Some(TileRequestResultCode::UnknownError));
    assert_eq!(expire_time_for(1000, None, None), 1000 + 7 * 86400);
    assert_eq!(expire_time_for(1000, Some(5000), None), 5000);
    assert_eq!(expire_time_for(1000, Some(5000), Some(2)), 1000 + 2 * 86400);
}

#[test]
fn images_decode_to_bgra() {
    let png = png_bytes(2, 3);
    let mut w: i32 = 0;
    let mut h: i32 = 0;
    let data = convert_image_to_buffer(&png, &mut w, &mut h).unwrap();
    assert_eq!((w, h), (2, 3));
    assert_eq!(data.len(), 24);
    assert_eq!(&data[0..4], &[30, 20, 10, 255]);
    let bad = vec![1u8, 2, 3];
    let e = convert_image_to_buffer(&bad, &mut w, &mut h).unwrap_err();
    assert!(e.starts_with("Failed to read tile image data: "));
}

#[test]
fn fetch_results_for_each_reply() {
    let treq = TileRequest::new(0, 0, 0, 0, 1, 1, osm_source());
    let now: i64 = 1_000_000;
    assert_eq!(fetch_result(&treq, FetchReply::NotSent, now).code, TileRequestResultCode::TransmissionError);
    let not_found = FetchReply::Answered { status: 404, body: None, expires_header: None };
    assert_eq!(fetch_result(&treq, not_found, now).code, TileRequestResultCode::NotFoundError);
    let denied = FetchReply::Answered { status: 401, body: None, expires_header: None };
    assert_eq!(fetch_result(&treq, denied, now).code, TileRequestResultCode::UnauthorizedError);
    let broken = FetchReply::Answered { status: 500, body: None, expires_header: None };
    assert_eq!(fetch_result(&treq, broken, now).code, TileRequestResultCode::UnknownError);
    let unread = FetchReply::Answered { status: 200, body: None, expires_header: None };
    assert_eq!(fetch_result(&treq, unread, now).code, TileRequestResultCode::TransmissionError);
    let garbage = FetchReply::Answered { status: 200, body: Some(vec![0u8; 10]), expires_header: None };
    assert_eq!(fetch_result(&treq, garbage, now).code, TileRequestResultCode::TransmissionError);
    let ok = FetchReply::Answered { status: 200, body: Some(png_bytes(4, 4)), expires_header: Some(now + 60) };
    let res = fetch_result(&treq, ok, now);
    assert_eq!(res.code, TileRequestResultCode::Success);
    assert_eq!(res.expire_time, Some(now + 60));
    assert_eq!((res.tile_width, res.tile_height), (4, 4));
    assert_eq!(res.data.len(), 64);
    assert_eq!(res.to_key(), treq.to_key());
    assert!(!res.is_expired_at(now));
    assert!(res.is_expired_at(now + 61));
    let no_source = TileRequestResult::with_code(&treq, TileRequestResultCode::NoSourceError);
    assert_eq!(no_source.code, TileRequestResultCode::NoSourceError);
    assert!(!no_source.is_expired());
}

#[test]
fn cached_bytes_decode_or_fail() {
    let treq = TileRequest::new(0, 0, 0, 0, 1, 1, osm_source());
    let res = TileRequestResult::from_cached_bytes(&treq, &png_bytes(1, 1)).unwrap();
    assert_eq!(res.code, TileRequestResultCode::Success);
    assert_eq!(res.expire_time, None);
    assert!(TileRequestResult::from_cached_bytes(&treq, &vec![9u8]).is_err());
}

#[test]
fn fetch_plans() {
    let ua = "Garta/0.1.0".to_string();
    let none = TileSource::new("none".into(), Vec::new(), "".into(), 256, 256);
    assert!(matches!(fetch_plan(&TileRequest::new(0, 0, 0, 0, 1, 1, none), &ua), Ok(FetchPlan::NoSource)));
    let mut src = TileSource::new("s".into(), vec!["https://t/${z}/${x}/${y}.png".to_string()], "".into(), 256, 256);
    src.referer = Some("https://ref".to_string());
    match fetch_plan(&TileRequest::new(0, 0, 1, 0, 1, 1, src.clone()), &ua) {
        Ok(FetchPlan::Get { url, https, user_agent, referer, .. }) => {
            assert_eq!(url.as_str(), "https://t/1/1/0.png");
            assert!(https);
            assert_eq!(user_agent, ua);
            assert_eq!(referer, Some("https://ref".to_string()));
        },
        _ => panic!("expected a GET"),
    }
    src.user_agent = Some("Other".to_string());
    match fetch_plan(&TileRequest::new(0, 0, 1, 0, 1, 1, src.clone()), &ua) {
        Ok(FetchPlan::Get { user_agent, .. }) => assert_eq!(user_agent, "Other"),
        _ => panic!("expected a GET"),
    }
    let file = TileSource::new("f".into(), vec!["file:///tiles/${z}".to_string()], "".into(), 256, 256);
    assert!(matches!(fetch_plan(&TileRequest::new(0, 0, 0, 0, 1, 1, file), &ua), Ok(FetchPlan::LocalFile)));
}

#[test]
fn worker_decisions() {
    assert_eq!(worker_next(TileFetchMode::Any, WorkerEvent::Pulled { exists_on_disk: true }), WorkerAction::ReadDisk);
    assert_eq!(worker_next(TileFetchMode::Any, WorkerEvent::Pulled { exists_on_disk: false }), WorkerAction::Download);
    assert_eq!(worker_next(TileFetchMode::Remote, WorkerEvent::Pulled { exists_on_disk: true }), WorkerAction::Download);
    assert_eq!(worker_next(TileFetchMode::Cache, WorkerEvent::Pulled { exists_on_disk: false }), WorkerAction::Done);
    assert_eq!(worker_next(TileFetchMode::Any, WorkerEvent::DiskRead { ok: false }), WorkerAction::Download);
    assert_eq!(worker_next(TileFetchMode::Cache, WorkerEvent::DiskRead { ok: false }), WorkerAction::Done);
    assert_eq!(worker_next(TileFetchMode::Any, WorkerEvent::DiskRead { ok: true }), WorkerAction::Done);
    assert_eq!(worker_next(TileFetchMode::Any, WorkerEvent::Fetched { code: TileRequestResultCode::Success }), WorkerAction::Save);
    assert_eq!(worker_next(TileFetchMode::Any, WorkerEvent::Fetched { code: TileRequestResultCode::NotFoundError }), WorkerAction::Done);
}

#[test]
fn tiles_made_for_requests() {
    let treq = TileRequest::new(0, 0, 3, 2, 4, 1, osm_source());
    let t = Tile::new_with_request_at(&treq, 100);
    assert_eq!((t.x(), t.y(), t.z(), t.mult()), (3, 2, 4, 1));
    assert_eq!((t.width(), t.height()), (256, 256));
    assert_eq!(t.access_time(), 100);
    assert!(!t.is_expired_at(100));
    assert!(t.is_expired_at(100 + 7 * 86400 + 1));
    let now = Tile::new_with_request(&treq);
    assert!(now.access_time() > 1_400_000_000);
    assert!(!now.is_expired());
}

#[test]
fn colored_tiles_and_flushing() {
    let treq = TileRequest::new(0, 0, 3, 2, 5, 1, osm_source());
    let mut t = Tile::new_with_color_at(&treq, 2, 0, 0, 100, "/c");
    assert_eq!(t.state(), TileState::Pending);
    assert!(matches!(t.get_surface(), Some(TileSurface::Fill { red: 2, green: 0, blue: 0, .. })));
    assert!(t.flushable());
    t.flush();
    assert_eq!(t.state(), TileState::Flushed);
    assert!(!t.flushable());
    assert!(t.get_surface().is_none());
}

#[test]
fn cache_lookup_and_fetch_read_back() {
    let mut cache = TileCache::new("/c".to_string());
    let src = osm_source();
    let treq = TileRequest::new(1, 0, 0, 0, 0, 1, src.clone());
    let now: i64 = 1_000;
    {
        let t = cache.get_tile_at(&treq, now).unwrap();
        assert_eq!(t.state(), TileState::Pending);
        assert!(matches!(t.get_surface(), Some(TileSurface::Fill { red: 2, green: 0, blue: 0, .. })));
    }
    assert_eq!(cache.queue_len(), 1);
    assert_eq!(cache.tile_count(), 1);
    let outside = TileRequest::new(1, 0, 0, 5, 0, 1, src.clone());
    assert!(cache.get_tile_at(&outside, now).is_none());
    assert_eq!(cache.tile_count(), 1);

    let pulled = cache.pull_request().unwrap();
    assert_eq!(pulled.to_key(), treq.to_key());
    let reply = FetchReply::Answered { status: 200, body: Some(png_bytes(8, 8)), expires_header: Some(now + 100) };
    let res = fetch_result(&pulled, reply, now);
    let png_len = res.img_data().unwrap().len() as i64;
    assert!(cache.handle_result(&res, 3));
    assert_eq!(cache.disk_usage(), png_len);
    let t = cache.get_tile_at(&treq, now).unwrap();
    assert_eq!(t.state(), TileState::Ready);
    assert_eq!(t.disk_usage(), png_len);
    assert_eq!(t.filepath(), Some("/c/osm-carto/00/0,0".to_string()));
    match t.get_surface() {
        Some(TileSurface::Bitmap { width, height, stride, data }) => {
            assert_eq!((*width, *height, *stride), (8, 8, 32));
            assert_eq!(data.len(), 256);
        },
        _ => panic!("expected a bitmap"),
    }
}

#[test]
fn transmission_errors_are_retried() {
    let mut cache = TileCache::new("/c".to_string());
    let treq = TileRequest::new(1, 0, 0, 0, 0, 1, osm_source());
    cache.get_tile_at(&treq, 10);
    let r = cache.pull_request().unwrap();
    let err = TileRequestResult::with_code(&r, TileRequestResultCode::TransmissionError);
    assert!(!cache.handle_result(&err, 1));
    let retry = cache.pull_request().unwrap();
    assert_eq!(retry.retry_count, Some(1));
    let err2 = TileRequestResult::with_code(&retry, TileRequestResultCode::TransmissionError);
    assert!(!cache.handle_result(&err2, 1));
    let retry2 = cache.pull_request().unwrap();
    assert_eq!(retry2.retry_count, Some(0));
    let err3 = TileRequestResult::with_code(&retry2, TileRequestResultCode::TransmissionError);
    assert!(!cache.handle_result(&err3, 1));
    assert!(cache.pull_request().is_none());
    assert_eq!(cache.tile_mut(&treq.to_key()).unwrap().state(), TileState::Error);
}

#[test]
fn fetch_errors_mark_tiles() {
    let cases = [
        (TileRequestResultCode::NotFoundError, TileState::NonExistent),
        (TileRequestResultCode::NoSourceError, TileState::NonExistent),
        (TileRequestResultCode::UnauthorizedError, TileState::Unauthorized),
        (TileRequestResultCode::UnknownError, TileState::Error),
    ];
    for (code, state) in cases {
        let mut cache = TileCache::new("/c".to_string());
        let treq = TileRequest::new(1, 0, 0, 0, 0, 1, osm_source());
        cache.get_tile_at(&treq, 10);
        let res = TileRequestResult::with_code(&treq, code);
        assert!(!cache.handle_result(&res, 3));
        assert_eq!(cache.tile_mut(&treq.to_key()).unwrap().state(), state);
    }
    let mut cache = TileCache::new("/c".to_string());
    let stranger = TileRequest::new(1, 0, 0, 0, 0, 1, osm_source());
    let res = TileRequestResult::with_code(&stranger, TileRequestResultCode::UnknownError);
    assert!(cache.handle_result(&res, 3));
    assert_eq!(cache.tile_count(), 0);
}

#[test]
fn approximations_request_zoomed_out_tiles() {
    let mut cache = TileCache::new("/c".to_string());
    let treq = TileRequest::new(5, 0, 10, 10, 5, 1, osm_source());
    {
        let t = cache.get_tile_at(&treq, 10).unwrap();
        assert!(matches!(t.get_surface(), Some(TileSurface::Fill { red: 2, green: 2, blue: 2, .. })));
    }
    assert!(cache.queue_len() > 1);
    let first = cache.pull_request().unwrap();
    assert_eq!(first.generation, 6);
    assert!(first.precautionary);
    assert_eq!(first.z, 2);
}

#[test]
fn zoom_level_focus_voids_dropped_tiles() {
    let mut cache = TileCache::new("/c".to_string());
    let src = osm_source();
    let a = TileRequest::new(1, 0, 0, 0, 1, 1, src.clone());
    let b = TileRequest::new(1, 0, 0, 0, 2, 1, src.clone());
    cache.get_tile_at(&a, 10);
    cache.get_tile_at(&b, 10);
    cache.focus_on_zoom_level(2);
    assert_eq!(cache.queue_len(), 1);
    assert_eq!(cache.pull_request().unwrap().z, 2);
    assert_eq!(cache.tile_mut(&a.to_key()).unwrap().state(), TileState::Void);
}

#[test]
fn cache_check_flushes_memory_and_plans_disk() {
    let mut cache = TileCache::new("/c".to_string());
    let src = osm_source();
    let mut keys = Vec::new();
    for (i, z) in [5u8, 6, 2].iter().enumerate() {
        let treq = TileRequest::new(1, 0, 0, 0, *z, 1, src.clone());
        cache.get_tile_at(&treq, 10 + i as i64);
        while cache.pull_request().is_some() {}
        let reply = FetchReply::Answered { status: 200, body: Some(png_bytes(16, 16)), expires_header: Some(1_000_000) };
        let res = fetch_result(&treq, reply, 10);
        cache.handle_result(&res, 3);
        keys.push(treq.to_key());
    }
    let total = cache.disk_usage();
    assert!(cache.check_cache(false, Some(0), Some(0)).is_empty());
    let order = cache.check_cache(true, Some(0), Some(total - 1));
    assert!(order.len() >= 3);
    for w in order.windows(2) {
        assert!(w[0].datetime <= w[1].datetime);
    }
    assert_eq!(cache.tile_mut(&keys[0]).unwrap().state(), TileState::Flushed);
    assert_eq!(cache.tile_mut(&keys[1]).unwrap().state(), TileState::Flushed);
    assert_eq!(cache.tile_mut(&keys[2]).unwrap().state(), TileState::Ready);
    let first = order[0].key.clone();
    let size = cache.tile_mut(&first).unwrap().disk_usage();
    let done = cache.disk_file_removed(&first, Some(size), total - 1);
    assert_eq!(done, size >= 1);
    assert!(cache.tile_mut(&first).is_none());
    assert!(cache.check_cache(true, None, None).is_empty());
}

#[test]
fn precautionary_results_are_converted_at_once() {
    let mut cache = TileCache::new("/c".to_string());
    let treq = TileRequest::new(5, 0, 10, 10, 5, 1, osm_source());
    cache.get_tile_at(&treq, 10);
    let first = cache.pull_request().unwrap();
    assert!(first.precautionary);
    let reply = FetchReply::Answered { status: 200, body: Some(png_bytes(4, 4)), expires_header: None };
    let res = fetch_result(&first, reply, 10);
    assert!(cache.receive_result(&res, 3));
    let t = cache.tile_mut(&first.to_key()).unwrap();
    assert!(t.has_lasting_surface());
}

#[test]
fn stored_state_restores_flushed_tiles() {
    let mut cache = TileCache::new("/c".to_string());
    let treq = TileRequest::new(1, 0, 0, 0, 0, 1, osm_source());
    cache.get_tile_at(&treq, 10);
    let r = cache.pull_request().unwrap();
    let reply = FetchReply::Answered { status: 200, body: Some(png_bytes(2, 2)), expires_header: None };
    cache.handle_result(&fetch_result(&r, reply, 10), 3);
    let usage = cache.disk_usage();
    let (path, state) = cache.store();
    assert_eq!(path, "/c/state");
    assert!(state.disk_sum_fits());
    let mut restored = create_tile_cache("/c".to_string(), Some(state));
    assert_eq!(restored.disk_usage(), usage);
    assert_eq!(restored.tile_count(), 1);
    let t = restored.tile_mut(&treq.to_key()).unwrap();
    assert_eq!(t.state(), TileState::Flushed);
    assert_eq!(t.disk_usage(), usage);
    let empty = create_tile_cache("/d".to_string(), None);
    assert_eq!(empty.tile_count(), 0);
    assert_eq!(empty.state_file(), "/d/state");
}

#[test]
fn fetch_plan_fails_on_bad_urls() {
    let ua = "Garta/0.1.0".to_string();
    let bad = TileSource::new("b".into(), vec!["no url at ${z}".to_string()], "".into(), 256, 256);
    let e = fetch_plan(&TileRequest::new(0, 0, 0, 0, 1, 1, bad), &ua).err().unwrap();
    assert!(e.starts_with("Tile url creation error: "));
}

#[test]
fn debugging_texts() {
    let src = osm_source();
    let r = TileRequest::new(3, -2, -1, 4, 3, 1, src.clone());
    assert_eq!(r.debug_text(), "{7,4 L3 osm-carto from-any gen=3 pri=-2}");
    let t = Tile::new_with_request_at(&r, 5);
    assert_eq!(t.debug_text(), "{7,4 L3 256x256 empty [Pending]}");
    let c = Tile::new_with_color_at(&r, 1, 1, 1, 5, "/c");
    assert_eq!(c.debug_text(), "{7,4 L3 256x256 surface(tmp) [Pending]}");
    let mut q = TileRequestQueue::new();
    q.push_request(&r);
    assert_eq!(q.debug_text(), "queue.len=1");
    let cache = TileCache::new("/c".to_string());
    assert_eq!(cache.debug_text(true), "tiles=0 queue.len=0 observer=true disk_usage=0");
}

#[test]
fn stored_tiles_come_back() {
    let t = Tile::from_stored(TileState::Ready, 1, 2, 3, 1, 256, 128, 10, 20, Some("/c/x".to_string()), 99);
    assert_eq!((t.x(), t.y(), t.z(), t.mult(), t.width(), t.height()), (1, 2, 3, 1, 256, 128));
    assert_eq!((t.access_time(), t.expire_time(), t.disk_usage()), (10, 20, 99));
    assert_eq!(t.filepath(), Some("/c/x".to_string()));
    assert_eq!(t.state(), TileState::Ready);
    assert!(!t.flushable());
}

#[test]
fn results_the_cache_can_take() {
    let cache = TileCache::new("/c".to_string());
    let src = osm_source();
    let ok = TileRequestResult::with_code(&TileRequest::new(0, 0, 0, 0, 1, 1, src.clone()), TileRequestResultCode::NotFoundError);
    assert!(cache.can_receive(&ok));
    let far = TileRequestResult::with_code(&TileRequest::new(0, 0, -1, 0, 31, 1, src.clone()), TileRequestResultCode::NotFoundError);
    assert!(!cache.can_receive(&far));
    assert!(TileRequest::new(0, 0, 5, 0, 31, 1, src.clone()).is_valid());
    assert!(!TileRequest::new(0, 0, -5, 0, 31, 1, src).is_valid());
}

#[test]
fn tiles_take_the_height_of_their_source() {
    let src = TileSource::new("osm-carto".into(), Vec::new(), "".into(), 256, 512);
    let treq = TileRequest::new(1, 1, -1, 0, 1, 1, src);
    let t = Tile::new_with_request(&treq);
    assert_eq!((t.x(), t.y(), t.z(), t.mult()), (1, 0, 1, 1));
    assert_eq!((t.width(), t.height()), (256, 512));
    assert_eq!(t.state(), TileState::Pending);
    assert!(!t.is_expired());
    let at = Tile::new_with_request_at(&treq, 100);
    assert_eq!((at.width(), at.height()), (256, 512));
}

#[test]
fn stand_in_tiles_lie_in_the_world() {
    let mut cache = TileCache::new("/c".to_string());
    let src = osm_source();
    let top = TileRequest::new(1, 0, 1, 0, 1, 1, src.clone());
    let now: i64 = 1_000;
    cache.get_tile_at(&top, now);
    let reply = FetchReply::Answered { status: 200, body: Some(png_bytes(8, 8)), expires_header: Some(now + 100) };
    let res = fetch_result(&top, reply, now);
    assert!(cache.handle_result(&res, 3));
    assert!(cache.get_tile_at(&top, now).unwrap().get_surface().is_some());
    let treq = TileRequest::new(1, 0, -1, 0, 2, 1, src.clone());
    let t = cache.get_tile_at(&treq, now).unwrap();
    assert_eq!(t.state(), TileState::Pending);
    assert!(matches!(t.get_surface(), Some(TileSurface::Zoomed { scale: 2, .. })));
    assert_eq!((t.x(), t.y(), t.z()), (3, 0, 2));
    assert!(0 <= t.x() && t.x() < 4);
}

#[test]
fn fetch_plans_follow_the_url_scheme() {
    let ua = "Garta/0.1.0".to_string();
    let plain = TileSource::new("p".into(), vec!["http://t/${z}/${x}/${y}.png".to_string()], "".into(), 256, 256);
    match fetch_plan(&TileRequest::new(0, 0, -1, 0, 1, 1, plain), &ua) {
        Ok(FetchPlan::Get { url, scheme, https, referer, .. }) => {
            assert_eq!(url.as_str(), "http://t/1/1/0.png");
            assert_eq!(scheme, "http");
            assert!(!https);
            assert_eq!(referer, None);
        },
        _ => panic!("expected a GET"),
    }
    let secure = TileSource::new("s".into(), vec!["HTTPS://t/${z}.png".to_string()], "".into(), 256, 256);
    match fetch_plan(&TileRequest::new(0, 0, 0, 0, 0, 1, secure), &ua) {
        Ok(FetchPlan::Get { scheme, https, .. }) => {
            assert_eq!(scheme, "https");
            assert!(https);
        },
        _ => panic!("expected a GET"),
    }
}

#[test]
fn tile_keys_are_ordered_by_time() {
    let src = osm_source();
    let old = Tile::new_with_request_at(&TileRequest::new(0, 0, 0, 0, 1, 1, src.clone()), 100);
    let new = Tile::new_with_request_at(&TileRequest::new(0, 0, 1, 0, 1, 1, src.clone()), 200);
    let a = TileOrd::new_with_access_time(&"a".to_string(), &old);
    let b = TileOrd::new_with_access_time(&"b".to_string(), &new);
    assert_eq!((a.key.as_str(), a.datetime), ("a", 100));
    assert_eq!(a.compare(&b), -1);
    assert_eq!(b.compare(&a), 1);
    assert_eq!(a.compare(&a), 0);
    assert!(!a.same_time(&b));
    let e = TileOrd::new_with_expire_time(&"e".to_string(), &old);
    assert_eq!(e.datetime, 100 + 7 * 86400);
    assert_eq!(e.compare(&b), 1);
    let mut keys = vec![b, e, a];
    keys.sort_by(|x, y| x.compare(y).cmp(&0));
    let order: Vec<&str> = keys.iter().map(|k| k.key.as_str()).collect();
    assert_eq!(order, vec!["a", "b", "e"]);
}

#[test]
fn held_tiles_are_at_the_place_of_their_request() {
    let mut cache = TileCache::new("/c".to_string());
    let treq = TileRequest::new(1, 0, -3, 1, 2, 1, osm_source());
    for _ in 0..2 {
        let t = cache.get_tile_at(&treq, 10).unwrap();
        assert_eq!((t.x(), t.y(), t.z(), t.mult()), (treq.wrap_x(), 1, 2, 1));
        assert_eq!(t.x(), 1);
    }
}

#[test]
fn stored_states_are_checked_for_places() {
    let mut cache = TileCache::new("/c".to_string());
    let treq = TileRequest::new(1, 0, 2, 1, 2, 1, osm_source());
    cache.get_tile_at(&treq, 10);
    let (_, state) = cache.store();
    assert!(state.tiles_in_place());
    let mut moved = state;
    let t = moved.tiles.tile_at(0).duplicate();
    let mut other = TileCache::new("/c".to_string()).store().1;
    other.tiles.insert("osm-carto/2/1/3@1".to_string(), t);
    assert!(!other.tiles_in_place());
    moved.tiles.insert("elsewhere/2/1/2@1".to_string(), moved.tiles.tile_at(0).duplicate());
    assert!(moved.tiles_in_place());
}
