//! Application settings and the paths derived from them.
use vstd::prelude::*;
use crate::foreign::{cpu_count, parse_url, url_accepts, url_host_of, url_port_of, url_scheme_of};
use crate::tiles::source::opt_str_view;
use crate::paths::{path_joined, push_component, push_component_str};
use crate::text::{chars_of, push_str, string_of};
use crate::units::Units;

verus! {

/// Minimum number of worker threads when the number is chosen automatically.
pub const MIN_WORKER_THREADS: i32 = 2;

/// Maximum number of worker threads when the number is chosen automatically.
pub const MAX_WORKER_THREADS: i32 = 8;

/// Application id.
pub const APP_ID: &'static str = "com.github.zaari.garta";

/// Application name.
pub const APP_NAME: &'static str = "Garta";

/// Application version.
pub const APP_VERSION: &'static str = "0.1.0";

/// Directory of the installed data files (maps, user interface files).
pub const DATA_PREFIX: &'static str = "/usr/local/share/garta";

/// Default maximum zoom level for maps that don't specify one.
pub fn default_max_zoom_level() -> (z: u8)
    ensures
        z == 16,
{
    16
}

/// `s` with a leading `~/` replaced by the home directory `home`.
pub open spec fn expand_home(s: Seq<char>, home: Seq<char>) -> Seq<char> {
    if s.len() >= 2 && s[0] == '~' && s[1] == '/' {
        path_joined(home, s.subrange(2, s.len() as int))
    } else {
        s
    }
}

/// The path `s`, with a leading `~/` replaced by the home directory `home`.
pub fn string_to_path(s: &String, home: &str) -> (p: Vec<char>)
    ensures
        p@ == expand_home(s@, home@),
{
    let cs = chars_of(s.as_str());
    if cs.len() >= 2 && cs[0] == '~' && cs[1] == '/' {
        let mut rest: Vec<char> = Vec::new();
        let mut i: usize = 2;
        while i < cs.len()
            invariant
                2 <= i <= cs@.len(),
                rest@ == cs@.subrange(2, i as int),
            decreases cs@.len() - i,
        {
            rest.push(cs[i]);
            i = i + 1;
            assert(rest@ =~= cs@.subrange(2, i as int));
        }
        let mut p = chars_of(home);
        push_component(&mut p, &rest);
        p
    } else {
        cs
    }
}

/// Number of worker threads for the configured number `configured`, when
/// the machine offers `cpus`: a negative number picks the CPU count, kept
/// between the minimum and the maximum; zero means one.
pub open spec fn threads_for(configured: i32, cpus: usize) -> i32 {
    if configured < 0 {
        let c = cpus as i32;
        if c < MIN_WORKER_THREADS {
            MIN_WORKER_THREADS
        } else if c > MAX_WORKER_THREADS {
            MAX_WORKER_THREADS
        } else {
            c
        }
    } else if configured == 0 {
        1
    } else {
        configured
    }
}

/// Computes `threads_for`.
pub fn worker_threads_for(configured: i32, cpus: usize) -> (n: i32)
    ensures
        n == threads_for(configured, cpus),
{
    if configured < 0 {
        let c: i32 = #[verifier::truncate] (cpus as i32);
        let lower = if c > MIN_WORKER_THREADS {
            c
        } else {
            MIN_WORKER_THREADS
        };
        if MAX_WORKER_THREADS < lower {
            MAX_WORKER_THREADS
        } else {
            lower
        }
    } else if configured == 0 {
        1
    } else {
        configured
    }
}

/// Text of the user agent header.
pub open spec fn user_agent_text() -> Seq<char> {
    seq!['G', 'a', 'r', 't', 'a', '/', '0', '.', '1', '.', '0', ' ', '(', '+', 'h', 't', 't', 'p', 's', ':', '/', '/', 'g', 'i', 't', 'h', 'u', 'b', '.', 'c', 'o', 'm', '/', 'z', 'a', 'a', 'r', 'i', '/', 'g', 'a', 'r', 't', 'a', ')']
}

/// Path of the installed data files.
pub open spec fn data_prefix() -> Seq<char> {
    seq!['/', 'u', 's', 'r', '/', 'l', 'o', 'c', 'a', 'l', '/', 's', 'h', 'a', 'r', 'e', '/', 'g', 'a', 'r', 't', 'a']
}

/// How the HTTP client for fetching tiles connects.
pub enum ClientPlan {
    /// Plain HTTP, without a proxy.
    Direct,
    /// Plain HTTP through the proxy at the host and port.
    HttpProxy { host: String, port: u16 },
    /// HTTPS, without a proxy.
    Tls,
    /// HTTPS through the HTTP proxy at the host and port.
    TlsProxy { host: String, port: u16 },
}

/// What a proxy url offers: its host, its port (or its scheme's default), and
/// its scheme.
pub struct ProxyParts {
    pub host: Option<String>,
    pub port: Option<u16>,
    pub scheme: String,
}

/// The connection without a proxy.
pub open spec fn is_plain(https: bool, r: ClientPlan) -> bool {
    if https {
        r is Tls
    } else {
        r is Direct
    }
}

/// The plan for HTTPS (`https`) or plain HTTP through a proxy with the
/// given host, port and scheme: through the proxy when it has a host and a
/// port and, for HTTPS, its scheme is `http`; else without a proxy.
pub open spec fn plan_through_parts(
    https: bool,
    host: Option<Seq<char>>,
    port: Option<u16>,
    scheme: Seq<char>,
    r: ClientPlan,
) -> bool {
    if host is Some && port is Some && (https ==> scheme == seq!['h', 't', 't', 'p']) {
        if https {
            r matches ClientPlan::TlsProxy { host: h, port: n } && h@ == host->0 && n == port->0
        } else {
            r matches ClientPlan::HttpProxy { host: h, port: n } && h@ == host->0 && n == port->0
        }
    } else {
        is_plain(https, r)
    }
}

/// The plan for HTTPS (`https`) or plain HTTP with the proxy url text
/// `proxy`: without a proxy when there is none or it does not parse, else
/// through the parsed url's host, port and scheme.
pub open spec fn plan_for_proxy_text(https: bool, proxy: Option<Seq<char>>, r: ClientPlan) -> bool {
    match proxy {
        Some(t) => if url_accepts(t) {
            plan_through_parts(https, url_host_of(t), url_port_of(t), url_scheme_of(t), r)
        } else {
            is_plain(https, r)
        },
        None => is_plain(https, r),
    }
}

/// How to connect for HTTPS (`https`) or plain HTTP, through the proxy
/// `proxy` when there is a usable one.
pub fn client_plan(https: bool, proxy: Option<ProxyParts>) -> (r: ClientPlan)
    ensures
        match proxy {
            Some(p) => plan_through_parts(https, opt_str_view(p.host), p.port, p.scheme@, r),
            None => is_plain(https, r),
        },
{
    proof {
        reveal_strlit("http");
        assert("http"@ =~= seq!['h', 't', 't', 'p']);
    }
    match proxy {
        Some(p) => {
            match (p.host, p.port) {
                (Some(host), Some(port)) => {
                    if https {
                        if p.scheme == String::from_str("http") {
                            ClientPlan::TlsProxy { host, port }
                        } else {
                            ClientPlan::Tls
                        }
                    } else {
                        ClientPlan::HttpProxy { host, port }
                    }
                },
                _ => if https {
                    ClientPlan::Tls
                } else {
                    ClientPlan::Direct
                },
            }
        },
        None => if https {
            ClientPlan::Tls
        } else {
            ClientPlan::Direct
        },
    }
}

/// How to connect through the proxy whose url text is `proxy`.
fn plan_with_proxy_text(https: bool, proxy: Option<&str>) -> (r: ClientPlan)
    ensures
        plan_for_proxy_text(
            https,
            match proxy {
                Some(t) => Some(t@),
                None => None,
            },
            r,
        ),
{
    match proxy {
        Some(text) => match parse_url(text) {
            Ok(p) => client_plan(https, Some(ProxyParts { host: p.host, port: p.port, scheme: p.scheme })),
            Err(_) => client_plan(https, None),
        },
        None => client_plan(https, None),
    }
}

/// Application settings.
pub struct Settings {
    /// Default units; a vehicle's own units override these.
    pub units: Units,
    /// Per-user data directory of the atlas.
    pub user_data_directory: String,
    /// Directory of the configuration files; maps are held here too.
    pub config_directory: String,
    /// Cache directory for tiles and images.
    pub cache_directory: String,
    /// Number of threads loading and processing data; negative chooses it
    /// from the number of CPUs.
    pub worker_threads: i32,
    /// HTTP read timeout in seconds when fetching tiles.
    pub tile_read_timeout: u64,
    /// HTTP write timeout in seconds when sending requests.
    pub tile_write_timeout: u64,
    /// Take proxies from the environment.
    pub http_proxy_auto: bool,
    /// Url of the HTTP proxy.
    pub http_proxy_url: Option<String>,
    /// Url of the HTTPS proxy.
    pub https_proxy_url: Option<String>,
    /// Number of times to retry fetching.
    pub http_retry_count: u8,
    /// Tile memory cache size in bytes; `None` for no limit.
    pub tile_mem_cache_capacity: Option<isize>,
    /// Tile disk cache size in bytes; `None` for no limit.
    pub tile_disk_cache_capacity: Option<i64>,
    /// Map window position and size.
    pub main_window_geometry: String,
    /// Command that launches an external web browser.
    pub browser_command: String,
}

impl Settings {
    /// The default settings.
    pub fn new() -> (s: Settings)
        ensures
            s.units == Units::Nautical,
            s.user_data_directory@ == seq!['~', '/', '.', 'l', 'o', 'c', 'a', 'l', '/', 's', 'h', 'a', 'r', 'e', '/', 'g', 'a', 'r', 't', 'a'],
            s.config_directory@ == seq!['~', '/', '.', 'c', 'o', 'n', 'f', 'i', 'g', '/', 'g', 'a', 'r', 't', 'a'],
            s.cache_directory@ == seq!['~', '/', '.', 'c', 'a', 'c', 'h', 'e', '/', 'g', 'a', 'r', 't', 'a'],
            s.worker_threads == -1,
            s.tile_read_timeout == 20,
            s.tile_write_timeout == 10,
            s.http_retry_count == 3,
            s.http_proxy_auto,
            s.http_proxy_url is None,
            s.https_proxy_url is None,
            s.tile_mem_cache_capacity == Some(268435456isize),
            s.tile_disk_cache_capacity == Some(1048576000i64),
            s.main_window_geometry@ == Seq::<char>::empty(),
            s.browser_command@ == seq!['x', 'd', 'g', '-', 'o', 'p', 'e', 'n'],
    {
        proof {
            reveal_strlit("~/.local/share/garta");
            reveal_strlit("~/.config/garta");
            reveal_strlit("~/.cache/garta");
            reveal_strlit("xdg-open");
        }
        Settings {
            units: Units::Nautical,
            user_data_directory: String::from_str("~/.local/share/garta"),
            config_directory: String::from_str("~/.config/garta"),
            cache_directory: String::from_str("~/.cache/garta"),
            worker_threads: -1,
            tile_read_timeout: 20,
            tile_write_timeout: 10,
            http_retry_count: 3,
            http_proxy_auto: true,
            http_proxy_url: None,
            https_proxy_url: None,
            tile_mem_cache_capacity: Some(256 * 1024 * 1024),
            tile_disk_cache_capacity: Some(1000 * 1024 * 1024),
            main_window_geometry: String::new(),
            browser_command: String::from_str("xdg-open"),
        }
    }

    /// The atlas directory.
    pub fn project_directory(&self, home: &str) -> (p: String)
        ensures
            p@ == expand_home(self.user_data_directory@, home@),
    {
        string_of(&string_to_path(&self.user_data_directory, home))
    }

    /// The user interface file `filename` among the installed data files.
    pub fn ui_directory_for(&self, filename: &str, home: &str) -> (p: String)
        ensures
            p@ == path_joined(
                path_joined(expand_home(data_prefix(), home@), seq!['u', 'i']),
                filename@,
            ),
    {
        proof {
            reveal_strlit("/usr/local/share/garta");
            reveal_strlit("ui");
        }
        let root = String::from_str(DATA_PREFIX);
        let mut pb = string_to_path(&root, home);
        push_component_str(&mut pb, "ui");
        push_component_str(&mut pb, filename);
        string_of(&pb)
    }

    /// The user's maps directory.
    pub fn user_maps_directory(&self, home: &str) -> (p: String)
        ensures
            p@ == path_joined(expand_home(self.config_directory@, home@), seq!['m', 'a', 'p', 's']),
    {
        proof {
            reveal_strlit("maps");
        }
        let mut pb = string_to_path(&self.config_directory, home);
        push_component_str(&mut pb, "maps");
        string_of(&pb)
    }

    /// The user's map tokens directory.
    pub fn user_tokens_directory(&self, home: &str) -> (p: String)
        ensures
            p@ == path_joined(
                path_joined(expand_home(self.config_directory@, home@), seq!['m', 'a', 'p', 's']),
                seq!['t', 'o', 'k', 'e', 'n', 's'],
            ),
    {
        proof {
            reveal_strlit("maps");
            reveal_strlit("tokens");
        }
        let mut pb = string_to_path(&self.config_directory, home);
        push_component_str(&mut pb, "maps");
        push_component_str(&mut pb, "tokens");
        string_of(&pb)
    }

    /// Directories where map files are looked for: the installed ones, the
    /// user's, and `maps` in the working directory.
    pub fn map_directories(&self, home: &str) -> (v: Vec<String>)
        ensures
            v@.len() == 3,
            v@[0]@ == path_joined(expand_home(data_prefix(), home@), seq!['m', 'a', 'p', 's']),
            v@[1]@ == path_joined(expand_home(self.config_directory@, home@), seq!['m', 'a', 'p', 's']),
            v@[2]@ == seq!['.', '/', 'm', 'a', 'p', 's'],
    {
        proof {
            reveal_strlit("/usr/local/share/garta");
            reveal_strlit("maps");
            reveal_strlit(".");
        }
        let root = String::from_str(DATA_PREFIX);
        let mut a = string_to_path(&root, home);
        push_component_str(&mut a, "maps");
        let mut c = chars_of(".");
        push_component_str(&mut c, "maps");
        assert(c@ =~= seq!['.', '/', 'm', 'a', 'p', 's']);
        let mut v: Vec<String> = Vec::new();
        v.push(string_of(&a));
        v.push(self.user_maps_directory(home));
        v.push(string_of(&c));
        v
    }

    /// Directories where map token files are looked for: the installed ones,
    /// the user's, and `maps/tokens` in the working directory.
    pub fn token_directories(&self, home: &str) -> (v: Vec<String>)
        ensures
            v@.len() == 3,
            v@[0]@ == path_joined(
                path_joined(expand_home(data_prefix(), home@), seq!['m', 'a', 'p', 's']),
                seq!['t', 'o', 'k', 'e', 'n', 's'],
            ),
            v@[1]@ == path_joined(
                path_joined(expand_home(self.config_directory@, home@), seq!['m', 'a', 'p', 's']),
                seq!['t', 'o', 'k', 'e', 'n', 's'],
            ),
            v@[2]@ == seq!['.', '/', 'm', 'a', 'p', 's', '/', 't', 'o', 'k', 'e', 'n', 's'],
    {
        proof {
            reveal_strlit("/usr/local/share/garta");
            reveal_strlit("maps");
            reveal_strlit("tokens");
            reveal_strlit(".");
        }
        let root = String::from_str(DATA_PREFIX);
        let mut a = string_to_path(&root, home);
        push_component_str(&mut a, "maps");
        push_component_str(&mut a, "tokens");
        let mut c = chars_of(".");
        push_component_str(&mut c, "maps");
        push_component_str(&mut c, "tokens");
        assert(c@ =~= seq!['.', '/', 'm', 'a', 'p', 's', '/', 't', 'o', 'k', 'e', 'n', 's']);
        let mut v: Vec<String> = Vec::new();
        v.push(string_of(&a));
        v.push(self.user_tokens_directory(home));
        v.push(string_of(&c));
        v
    }

    /// The settings file.
    pub fn settings_file(&self, home: &str) -> (p: String)
        ensures
            p@ == path_joined(
                expand_home(self.config_directory@, home@),
                seq!['s', 'e', 't', 't', 'i', 'n', 'g', 's'],
            ),
    {
        proof {
            reveal_strlit("settings");
        }
        let mut pb = string_to_path(&self.config_directory, home);
        push_component_str(&mut pb, "settings");
        string_of(&pb)
    }

    /// The map view file.
    pub fn mapview_file(&self, home: &str) -> (p: String)
        ensures
            p@ == path_joined(
                expand_home(self.config_directory@, home@),
                seq!['m', 'a', 'p', '-', 'v', 'i', 'e', 'w'],
            ),
    {
        proof {
            reveal_strlit("map-view");
        }
        let mut pb = string_to_path(&self.config_directory, home);
        push_component_str(&mut pb, "map-view");
        string_of(&pb)
    }

    /// The cache directory; it must not be empty.
    pub fn cache_directory(&self, home: &str) -> (p: String)
        requires
            self.cache_directory@.len() > 0,
        ensures
            p@ == expand_home(self.cache_directory@, home@),
    {
        string_of(&string_to_path(&self.cache_directory, home))
    }

    /// Number of worker threads to start.
    pub fn worker_threads(&self) -> (n: i32)
        ensures
            self.worker_threads >= 0 ==> n == threads_for(self.worker_threads, 0),
            exists|c: usize| n == threads_for(self.worker_threads, c),
            self.worker_threads < 0 ==> MIN_WORKER_THREADS <= n <= MAX_WORKER_THREADS,
    {
        let cpus = if self.worker_threads < 0 {
            cpu_count()
        } else {
            0
        };
        worker_threads_for(self.worker_threads, cpus)
    }

    /// The proxy url text used for HTTPS (`https`) or plain HTTP: with
    /// automatic proxy settings `env_proxy`, the value of the `https_proxy` or
    /// `http_proxy` environment variable if it is set; otherwise the url in
    /// the settings.
    pub open spec fn proxy_text(self, https: bool, env_proxy: Option<String>) -> Option<Seq<char>> {
        if self.http_proxy_auto {
            opt_str_view(env_proxy)
        } else if https {
            opt_str_view(self.https_proxy_url)
        } else {
            opt_str_view(self.http_proxy_url)
        }
    }

    /// How the HTTP client connects, for HTTPS (`https`) or plain HTTP:
    /// through the proxy of `proxy_text` when its url parses and offers a
    /// host and a port (and for HTTPS has the `http` scheme), else directly.
    pub fn http_client_plan(&self, https: bool, env_proxy: Option<String>) -> (r: ClientPlan)
        ensures
            plan_for_proxy_text(https, self.proxy_text(https, env_proxy), r),
    {
        let text: Option<&str> = if self.http_proxy_auto {
            match &env_proxy {
                Some(t) => Some(t.as_str()),
                None => None,
            }
        } else {
            let field = if https {
                &self.https_proxy_url
            } else {
                &self.http_proxy_url
            };
            match field {
                Some(t) => Some(t.as_str()),
                None => None,
            }
        };
        plan_with_proxy_text(https, text)
    }

    /// The HTTP user agent header.
    pub fn user_agent_header(&self) -> (h: String)
        ensures
            h@ == user_agent_text(),
    {
        let mut v: Vec<char> = Vec::new();
        push_str(&mut v, APP_NAME);
        v.push('/');
        push_str(&mut v, APP_VERSION);
        push_str(&mut v, " (+https://github.com/zaari/garta)");
        proof {
            reveal_strlit("Garta");
            reveal_strlit("0.1.0");
            reveal_strlit(" (+https://github.com/zaari/garta)");
        }
        let h = string_of(&v);
        assert(h@ =~= user_agent_text());
        h
    }

    /// The directories loading makes sure of: the atlas, maps, tokens and
    /// cache directories.
    pub fn load_directories(&self, home: &str) -> (v: Vec<String>)
        requires
            self.cache_directory@.len() > 0,
        ensures
            v@.len() == 4,
            v@[0]@ == expand_home(self.user_data_directory@, home@),
            v@[1]@ == path_joined(expand_home(self.config_directory@, home@), seq!['m', 'a', 'p', 's']),
            v@[2]@ == path_joined(
                path_joined(expand_home(self.config_directory@, home@), seq!['m', 'a', 'p', 's']),
                seq!['t', 'o', 'k', 'e', 'n', 's'],
            ),
            v@[3]@ == expand_home(self.cache_directory@, home@),
    {
        let mut v: Vec<String> = Vec::new();
        v.push(self.project_directory(home));
        v.push(self.user_maps_directory(home));
        v.push(self.user_tokens_directory(home));
        v.push(self.cache_directory(home));
        v
    }

    /// Saves the settings; nothing is written, and it succeeds.
    pub fn save(&self) -> (r: Result<(), &'static str>)
        ensures
            r is Ok,
    {
        Ok(())
    }
}

} // verus!
