//! GPX files: what reading one yields, and the reader that builds it from the
//! events of an XML parser, one event at a time.
use vstd::prelude::*;
use std::collections::VecDeque;
use crate::foreign::{
    parse_utc_time, parse_xml_events, parse_zoned_time, utc_time_parsed, xml_events, zoned_time_parsed,
};

verus! {

/// Attribute of an extension element.
#[derive(Clone, Debug)]
pub struct ExtensionAttribute {
    pub name: String,
    pub value: String,
}

/// GPX extension element.
#[derive(Debug)]
pub enum Extension {
    Elem { name: String, value: String, attrs: Vec<ExtensionAttribute> },
    List { name: String, extensions: Vec<Extension> },
}

/// Metadata of a GPX file.
#[derive(Debug)]
pub struct Metadata {
    pub extension: Option<Extension>,
}

/// The text of an optional string.
pub open spec fn opt_text(o: Option<String>) -> Option<Seq<char>> {
    match o {
        Some(s) => Some(s@),
        None => None,
    }
}

/// A waypoint, route point or track point as read: the texts of its `lat`
/// and `lon` attributes and of its `ele` and `time` elements, each as found.
#[derive(Debug)]
pub struct Point {
    pub lat: Option<String>,
    pub lon: Option<String>,
    pub elev: Option<String>,
    pub time: Option<String>,
}

/// A point as plain values.
pub struct PointView {
    pub lat: Option<Seq<char>>,
    pub lon: Option<Seq<char>>,
    pub elev: Option<Seq<char>>,
    pub time: Option<Seq<char>>,
}

impl View for Point {
    type V = PointView;

    open spec fn view(&self) -> PointView {
        PointView {
            lat: opt_text(self.lat),
            lon: opt_text(self.lon),
            elev: opt_text(self.elev),
            time: opt_text(self.time),
        }
    }
}

/// Track segment with its points.
#[derive(Debug)]
pub struct TrackSegment {
    pub trkpt: Vec<Point>,
}

impl View for TrackSegment {
    type V = Seq<PointView>;

    open spec fn view(&self) -> Seq<PointView> {
        self.trkpt@.map_values(|p: Point| p@)
    }
}

/// Track consisting of segments.
#[derive(Debug)]
pub struct Track {
    pub trkseg: Vec<TrackSegment>,
}

impl View for Track {
    type V = Seq<Seq<PointView>>;

    open spec fn view(&self) -> Seq<Seq<PointView>> {
        self.trkseg@.map_values(|s: TrackSegment| s@)
    }
}

/// Route with its points.
#[derive(Debug)]
pub struct Route {
    pub rtept: Vec<Point>,
}

impl View for Route {
    type V = Seq<PointView>;

    open spec fn view(&self) -> Seq<PointView> {
        self.rtept@.map_values(|p: Point| p@)
    }
}

/// What a GPX file holds.
#[derive(Debug)]
pub struct Collection {
    pub waypoints: Vec<Point>,
    pub routes: Vec<Route>,
    pub tracks: Vec<Track>,
}

/// A collection as plain values.
pub struct CollectionView {
    pub waypoints: Seq<PointView>,
    pub routes: Seq<Seq<PointView>>,
    pub tracks: Seq<Seq<Seq<PointView>>>,
}

impl View for Collection {
    type V = CollectionView;

    open spec fn view(&self) -> CollectionView {
        CollectionView {
            waypoints: self.waypoints@.map_values(|p: Point| p@),
            routes: self.routes@.map_values(|r: Route| r@),
            tracks: self.tracks@.map_values(|t: Track| t@),
        }
    }
}

impl Collection {
    /// An empty collection.
    pub fn new() -> (c: Collection)
        ensures
            c@.waypoints.len() == 0,
            c@.routes.len() == 0,
            c@.tracks.len() == 0,
    {
        Collection { waypoints: Vec::new(), routes: Vec::new(), tracks: Vec::new() }
    }
}

/// Attribute of an XML element: its local name and its value.
pub struct XmlAttribute {
    pub name: String,
    pub value: String,
}

/// What the XML parser reports, in order.
pub enum XmlEvent {
    StartDocument,
    StartElement { name: String, attributes: Vec<XmlAttribute> },
    Characters(String),
    EndElement { name: String },
    EndDocument,
    /// The parser failed.
    Failed,
    /// Anything else the parser reports.
    Other,
}

/// An XML parser event as plain values: names, attributes as pairs of local
/// name and value, and texts.
pub enum XmlEventView {
    StartDocument,
    StartElement { name: Seq<char>, attributes: Seq<(Seq<char>, Seq<char>)> },
    Characters(Seq<char>),
    EndElement { name: Seq<char> },
    EndDocument,
    Failed,
    Other,
}

impl View for XmlEvent {
    type V = XmlEventView;

    open spec fn view(&self) -> XmlEventView {
        match self {
            XmlEvent::StartDocument => XmlEventView::StartDocument,
            XmlEvent::StartElement { name, attributes } => XmlEventView::StartElement {
                name: name@,
                attributes: attrs_view(attributes@),
            },
            XmlEvent::Characters(s) => XmlEventView::Characters(s@),
            XmlEvent::EndElement { name } => XmlEventView::EndElement { name: name@ },
            XmlEvent::EndDocument => XmlEventView::EndDocument,
            XmlEvent::Failed => XmlEventView::Failed,
            XmlEvent::Other => XmlEventView::Other,
        }
    }
}

/// The events as plain values.
pub open spec fn events_view(evs: Seq<XmlEvent>) -> Seq<XmlEventView> {
    evs.map_values(|e: XmlEvent| e@)
}

/// What to do after an event.
pub enum ReadStep {
    /// Go on with the next event.
    Continue,
    /// The document has ended: the collection is complete.
    Finished,
    /// Reading failed with the message.
    Failed(String),
}

/// The attributes as pairs of local name and value.
pub open spec fn attrs_view(a: Seq<XmlAttribute>) -> Seq<(Seq<char>, Seq<char>)> {
    a.map_values(|x: XmlAttribute| (x.name@, x.value@))
}

/// The value of the first attribute named `name`.
pub open spec fn attr_value(attrs: Seq<(Seq<char>, Seq<char>)>, name: Seq<char>) -> Option<Seq<char>>
    decreases attrs.len(),
{
    if attrs.len() == 0 {
        None
    } else if attrs[0].0 == name {
        Some(attrs[0].1)
    } else {
        attr_value(attrs.drop_first(), name)
    }
}

/// A track point started with the attributes `attrs`.
pub open spec fn new_point(attrs: Seq<(Seq<char>, Seq<char>)>) -> PointView {
    PointView {
        lat: attr_value(attrs, seq!['l', 'a', 't']),
        lon: attr_value(attrs, seq!['l', 'o', 'n']),
        elev: None,
        time: None,
    }
}

/// The point with its elevation text (`elev`) or its time text set.
pub open spec fn with_text(p: PointView, elev: bool, text: Seq<char>) -> PointView {
    if elev {
        PointView { elev: Some(text), ..p }
    } else {
        PointView { time: Some(text), ..p }
    }
}

/// State of a reader as plain values: the names of the open elements, the
/// text of the current element, and what has been read.
pub struct ReaderView {
    pub stack: Seq<Seq<char>>,
    pub chars: Seq<char>,
    pub col: CollectionView,
}

/// After the element `name` starts: a track, a route, a track segment in the
/// last track, or a track point in the last segment of the last track is
/// added; other elements add nothing.
pub open spec fn started(r: ReaderView, name: Seq<char>, attrs: Seq<(Seq<char>, Seq<char>)>) -> ReaderView {
    let c = r.col;
    let col = if name == seq!['t', 'r', 'k'] {
        CollectionView { tracks: c.tracks.push(Seq::empty()), ..c }
    } else if name == seq!['r', 't', 'e'] {
        CollectionView { routes: c.routes.push(Seq::empty()), ..c }
    } else if name == seq!['t', 'r', 'k', 's', 'e', 'g'] {
        CollectionView { tracks: c.tracks.update(c.tracks.len() - 1, c.tracks.last().push(Seq::empty())), ..c }
    } else if name == seq!['t', 'r', 'k', 'p', 't'] {
        let t = c.tracks.last();
        CollectionView {
            tracks: c.tracks.update(c.tracks.len() - 1, t.update(t.len() - 1, t.last().push(new_point(attrs)))),
            ..c
        }
    } else {
        c
    };
    ReaderView { stack: r.stack.push(name), chars: Seq::empty(), col }
}

/// Starting the element `name` is an error the reader cannot go on from: a
/// segment outside any track, or a track point outside any segment.
pub open spec fn start_panics(r: ReaderView, name: Seq<char>) -> bool {
    ||| name == seq!['t', 'r', 'k', 's', 'e', 'g'] && r.col.tracks.len() == 0
    ||| name == seq!['t', 'r', 'k', 'p', 't'] && (r.col.tracks.len() == 0 || r.col.tracks.last().len() == 0)
}

/// After the element `name` ends: an `ele` or `time` element sets the text of
/// the current element on the last point of the enclosing track point, route
/// point or waypoint.
pub open spec fn ended(r: ReaderView, name: Seq<char>) -> ReaderView {
    let stack = r.stack.drop_last();
    let c = r.col;
    let is_ele = name == seq!['e', 'l', 'e'];
    let is_time = name == seq!['t', 'i', 'm', 'e'];
    let col = if is_ele || is_time {
        let parent = stack.last();
        if parent == seq!['t', 'r', 'k', 'p', 't'] {
            let t = c.tracks.last();
            let s = t.last();
            CollectionView {
                tracks: c.tracks.update(
                    c.tracks.len() - 1,
                    t.update(t.len() - 1, s.update(s.len() - 1, with_text(s.last(), is_ele, r.chars))),
                ),
                ..c
            }
        } else if parent == seq!['r', 't', 'e', 'p', 't'] {
            let rt = c.routes.last();
            CollectionView {
                routes: c.routes.update(c.routes.len() - 1, rt.update(rt.len() - 1, with_text(rt.last(), is_ele, r.chars))),
                ..c
            }
        } else if parent == seq!['w', 'p', 't'] {
            CollectionView {
                waypoints: c.waypoints.update(c.waypoints.len() - 1, with_text(c.waypoints.last(), is_ele, r.chars)),
                ..c
            }
        } else {
            c
        }
    } else {
        c
    };
    ReaderView { stack, chars: r.chars, col }
}

/// Ending the element `name` is an error the reader cannot go on from: no
/// element is open, another one is, or an `ele` or `time` element ends at the
/// top level or in a point that has not been read.
pub open spec fn end_panics(r: ReaderView, name: Seq<char>) -> bool {
    ||| r.stack.len() == 0
    ||| r.stack.last() != name
    ||| (name == seq!['e', 'l', 'e'] || name == seq!['t', 'i', 'm', 'e']) && {
        let stack = r.stack.drop_last();
        let c = r.col;
        ||| stack.len() == 0
        ||| stack.last() == seq!['t', 'r', 'k', 'p', 't'] && (c.tracks.len() == 0 || c.tracks.last().len() == 0
            || c.tracks.last().last().len() == 0)
        ||| stack.last() == seq!['r', 't', 'e', 'p', 't'] && (c.routes.len() == 0 || c.routes.last().len() == 0)
        ||| stack.last() == seq!['w', 'p', 't'] && c.waypoints.len() == 0
    }
}

/// The event is one the reader cannot go on from.
pub open spec fn step_panics(r: ReaderView, ev: XmlEventView) -> bool {
    match ev {
        XmlEventView::StartElement { name, attributes } => start_panics(r, name),
        XmlEventView::EndElement { name } => end_panics(r, name),
        _ => false,
    }
}

/// The reader's state after the event.
pub open spec fn stepped(r: ReaderView, ev: XmlEventView) -> ReaderView {
    match ev {
        XmlEventView::StartElement { name, attributes } => started(r, name, attributes),
        XmlEventView::Characters(s) => ReaderView { chars: s, ..r },
        XmlEventView::EndElement { name } => ended(r, name),
        _ => r,
    }
}

/// Reads a GPX document from the events of an XML parser.
pub struct GpxReader {
    stack: Vec<String>,
    chars: String,
    col: Collection,
}

impl View for GpxReader {
    type V = ReaderView;

    closed spec fn view(&self) -> ReaderView {
        ReaderView {
            stack: self.stack@.map_values(|s: String| s@),
            chars: self.chars@,
            col: self.col@,
        }
    }
}

/// Whether `s` holds the text `lit`.
fn is_name(s: &String, lit: &str) -> (r: bool)
    ensures
        r == (s@ == lit@),
{
    let t = String::from_str(lit);
    *s == t
}

/// The value of the first attribute named `name`.
fn pick_attr_value(name: &str, attrs: &Vec<XmlAttribute>) -> (r: Option<String>)
    ensures
        opt_text(r) == attr_value(attrs_view(attrs@), name@),
{
    let mut i: usize = 0;
    assert(attrs_view(attrs@).skip(0) =~= attrs_view(attrs@));
    while i < attrs.len()
        invariant
            i <= attrs@.len(),
            attr_value(attrs_view(attrs@), name@) == attr_value(attrs_view(attrs@).skip(i as int), name@),
        decreases attrs@.len() - i,
    {
        let ghost rest = attrs_view(attrs@).skip(i as int);
        assert(rest[0] == (attrs@[i as int].name@, attrs@[i as int].value@));
        assert(rest.drop_first() =~= attrs_view(attrs@).skip(i + 1));
        if is_name(&attrs[i].name, name) {
            return Some(attrs[i].value.clone());
        }
        i = i + 1;
    }
    None
}

/// Sets the elevation text (`elev`) or the time text of the point.
fn set_text(p: &mut Point, elev: bool, text: String)
    ensures
        final(p)@ == with_text(old(p)@, elev, text@),
{
    if elev {
        p.elev = Some(text);
    } else {
        p.time = Some(text);
    }
}

impl GpxReader {
    /// A reader that has read nothing.
    pub fn new() -> (r: GpxReader)
        ensures
            r@.stack.len() == 0,
            r@.chars.len() == 0,
            r@.col.waypoints.len() == 0,
            r@.col.routes.len() == 0,
            r@.col.tracks.len() == 0,
    {
        GpxReader { stack: Vec::new(), chars: String::new(), col: Collection::new() }
    }

    /// What has been read so far.
    pub fn collection(&self) -> (c: &Collection)
        ensures
            c@ == self@.col,
    {
        &self.col
    }

    /// What has been read.
    pub fn into_collection(self) -> (c: Collection)
        ensures
            c@ == self@.col,
    {
        self.col
    }

    /// Whether the event is one the reader cannot go on from.
    pub fn step_panics(&self, ev: &XmlEvent) -> (r: bool)
        ensures
            r == step_panics(self@, ev@),
    {
        match ev {
            XmlEvent::StartElement { name, attributes: _ } => {
                proof {
                    reveal_strlit("trkseg");
                    reveal_strlit("trkpt");
                    assert("trkseg"@ =~= seq!['t', 'r', 'k', 's', 'e', 'g']);
                    assert("trkpt"@ =~= seq!['t', 'r', 'k', 'p', 't']);
                }
                let n = self.col.tracks.len();
                if is_name(name, "trkseg") {
                    n == 0
                } else if is_name(name, "trkpt") {
                    n == 0 || self.col.tracks[n - 1].trkseg.len() == 0
                } else {
                    false
                }
            },
            XmlEvent::EndElement { name } => {
                proof {
                    reveal_strlit("ele");
                    reveal_strlit("time");
                    reveal_strlit("trkpt");
                    reveal_strlit("rtept");
                    reveal_strlit("wpt");
                    assert("ele"@ =~= seq!['e', 'l', 'e']);
                    assert("time"@ =~= seq!['t', 'i', 'm', 'e']);
                    assert("trkpt"@ =~= seq!['t', 'r', 'k', 'p', 't']);
                    assert("rtept"@ =~= seq!['r', 't', 'e', 'p', 't']);
                    assert("wpt"@ =~= seq!['w', 'p', 't']);
                }
                let depth = self.stack.len();
                if depth == 0 {
                    return true;
                }
                if self.stack[depth - 1] != *name {
                    return true;
                }
                if !is_name(name, "ele") && !is_name(name, "time") {
                    return false;
                }
                if depth < 2 {
                    return true;
                }
                let parent = &self.stack[depth - 2];
                assert(self@.stack.drop_last().last() == parent@);
                let c = &self.col;
                if is_name(parent, "trkpt") {
                    let nt = c.tracks.len();
                    if nt == 0 {
                        return true;
                    }
                    let ns = c.tracks[nt - 1].trkseg.len();
                    if ns == 0 {
                        return true;
                    }
                    c.tracks[nt - 1].trkseg[ns - 1].trkpt.len() == 0
                } else if is_name(parent, "rtept") {
                    let nr = c.routes.len();
                    nr == 0 || c.routes[nr - 1].rtept.len() == 0
                } else if is_name(parent, "wpt") {
                    c.waypoints.len() == 0
                } else {
                    false
                }
            },
            _ => false,
        }
    }

    /// The element `name` starts.
    fn start_element(&mut self, name: String, attributes: &Vec<XmlAttribute>)
        requires
            !start_panics(old(self)@, name@),
        ensures
            final(self)@ == started(old(self)@, name@, attrs_view(attributes@)),
    {
        proof {
            reveal_strlit("trk");
            reveal_strlit("rte");
            reveal_strlit("trkseg");
            reveal_strlit("trkpt");
            reveal_strlit("lat");
            reveal_strlit("lon");
            assert("trk"@ =~= seq!['t', 'r', 'k']);
            assert("rte"@ =~= seq!['r', 't', 'e']);
            assert("trkseg"@ =~= seq!['t', 'r', 'k', 's', 'e', 'g']);
            assert("trkpt"@ =~= seq!['t', 'r', 'k', 'p', 't']);
            assert("lat"@ =~= seq!['l', 'a', 't']);
            assert("lon"@ =~= seq!['l', 'o', 'n']);
        }
        let ghost r0 = self@;
        let ghost c0 = self.col@;
        self.chars = String::new();
        if is_name(&name, "trk") {
            let t = Track { trkseg: Vec::new() };
            assert(t@ =~= Seq::<Seq<PointView>>::empty());
            self.col.tracks.push(t);
            assert(self.col@.tracks =~= c0.tracks.push(Seq::empty()));
        } else if is_name(&name, "rte") {
            let rt = Route { rtept: Vec::new() };
            assert(rt@ =~= Seq::<PointView>::empty());
            self.col.routes.push(rt);
            assert(self.col@.routes =~= c0.routes.push(Seq::empty()));
        } else if is_name(&name, "trkseg") {
            let mut t = self.col.tracks.pop().unwrap();
            let ghost t0 = t@;
            let seg = TrackSegment { trkpt: Vec::new() };
            assert(seg@ =~= Seq::<PointView>::empty());
            t.trkseg.push(seg);
            assert(t@ =~= t0.push(Seq::empty()));
            self.col.tracks.push(t);
            assert(self.col@.tracks =~= c0.tracks.update(c0.tracks.len() - 1, c0.tracks.last().push(Seq::empty())));
        } else if is_name(&name, "trkpt") {
            let lat = pick_attr_value("lat", attributes);
            let lon = pick_attr_value("lon", attributes);
            let mut t = self.col.tracks.pop().unwrap();
            let ghost t0 = t@;
            let mut seg = t.trkseg.pop().unwrap();
            let ghost s0 = seg@;
            let pt = Point { lat, lon, elev: None, time: None };
            assert(pt@ == new_point(attrs_view(attributes@)));
            seg.trkpt.push(pt);
            assert(seg@ =~= s0.push(new_point(attrs_view(attributes@))));
            t.trkseg.push(seg);
            assert(t@ =~= t0.update(t0.len() - 1, s0.push(new_point(attrs_view(attributes@)))));
            self.col.tracks.push(t);
            assert(self.col@.tracks =~= c0.tracks.update(
                c0.tracks.len() - 1,
                c0.tracks.last().update(c0.tracks.last().len() - 1, c0.tracks.last().last().push(new_point(attrs_view(attributes@)))),
            ));
        }
        let ghost nm = name@;
        self.stack.push(name);
        assert(self@.stack =~= r0.stack.push(nm));
    }

    /// The element `name` ends.
    fn end_element(&mut self, name: String)
        requires
            !end_panics(old(self)@, name@),
        ensures
            final(self)@ == ended(old(self)@, name@),
    {
        proof {
            reveal_strlit("ele");
            reveal_strlit("time");
            reveal_strlit("trkpt");
            reveal_strlit("rtept");
            reveal_strlit("wpt");
            assert("ele"@ =~= seq!['e', 'l', 'e']);
            assert("time"@ =~= seq!['t', 'i', 'm', 'e']);
            assert("trkpt"@ =~= seq!['t', 'r', 'k', 'p', 't']);
            assert("rtept"@ =~= seq!['r', 't', 'e', 'p', 't']);
            assert("wpt"@ =~= seq!['w', 'p', 't']);
        }
        let ghost r0 = self@;
        let ghost c0 = self.col@;
        let _top = self.stack.pop().unwrap();
        assert(self@.stack =~= r0.stack.drop_last());
        let is_ele = is_name(&name, "ele");
        let is_time = is_name(&name, "time");
        if is_ele || is_time {
            let depth = self.stack.len();
            let text = self.chars.clone();
            let ghost tx = text@;
            assert(self@.stack.last() == self.stack@[depth - 1]@);
            if is_name(&self.stack[depth - 1], "trkpt") {
                let mut t = self.col.tracks.pop().unwrap();
                let ghost t0 = t@;
                let mut seg = t.trkseg.pop().unwrap();
                let ghost s0 = seg@;
                let mut p = seg.trkpt.pop().unwrap();
                let ghost p0 = p@;
                set_text(&mut p, is_ele, text);
                seg.trkpt.push(p);
                assert(seg@ =~= s0.update(s0.len() - 1, with_text(p0, is_ele, tx)));
                t.trkseg.push(seg);
                assert(t@ =~= t0.update(t0.len() - 1, s0.update(s0.len() - 1, with_text(p0, is_ele, tx))));
                self.col.tracks.push(t);
                assert(self.col@.tracks =~= c0.tracks.update(
                    c0.tracks.len() - 1,
                    t0.update(t0.len() - 1, s0.update(s0.len() - 1, with_text(p0, is_ele, tx))),
                ));
            } else if is_name(&self.stack[depth - 1], "rtept") {
                let mut rt = self.col.routes.pop().unwrap();
                let ghost rt0 = rt@;
                let mut p = rt.rtept.pop().unwrap();
                let ghost p0 = p@;
                set_text(&mut p, is_ele, text);
                rt.rtept.push(p);
                assert(rt@ =~= rt0.update(rt0.len() - 1, with_text(p0, is_ele, tx)));
                self.col.routes.push(rt);
                assert(self.col@.routes =~= c0.routes.update(c0.routes.len() - 1, rt0.update(rt0.len() - 1, with_text(p0, is_ele, tx))));
            } else if is_name(&self.stack[depth - 1], "wpt") {
                let mut p = self.col.waypoints.pop().unwrap();
                let ghost p0 = p@;
                set_text(&mut p, is_ele, text);
                self.col.waypoints.push(p);
                assert(self.col@.waypoints =~= c0.waypoints.update(c0.waypoints.len() - 1, with_text(p0, is_ele, tx)));
            }
        }
    }

    /// Takes the next event of the XML parser: the state changes as
    /// `stepped` says; the end of the document finishes reading, and a
    /// failure of the parser or any other event fails it.
    pub fn step(&mut self, ev: XmlEvent) -> (r: ReadStep)
        requires
            !step_panics(old(self)@, ev@),
        ensures
            match ev {
                XmlEvent::EndDocument => r is Finished && final(self)@ == old(self)@,
                XmlEvent::Failed => (r matches ReadStep::Failed(m) && m@ == seq!['S', 'o', 'm', 'e', 't', 'h', 'i', 'n', 'g', ' ', 'f', 'a', 'i', 'l', 'e', 'd'])
                    && final(self)@ == old(self)@,
                XmlEvent::Other => (r matches ReadStep::Failed(m) && m@ == seq!['E', 'm', 'p', 't', 'y']) && final(self)@ == old(self)@,
                _ => r is Continue && final(self)@ == stepped(old(self)@, ev@),
            },
    {
        match ev {
            XmlEvent::StartDocument => ReadStep::Continue,
            XmlEvent::StartElement { name, attributes } => {
                self.start_element(name, &attributes);
                ReadStep::Continue
            },
            XmlEvent::Characters(text) => {
                self.chars = text;
                ReadStep::Continue
            },
            XmlEvent::EndElement { name } => {
                self.end_element(name);
                ReadStep::Continue
            },
            XmlEvent::EndDocument => ReadStep::Finished,
            XmlEvent::Failed => {
                proof {
                    reveal_strlit("Something failed");
                }
                ReadStep::Failed(String::from_str("Something failed"))
            },
            XmlEvent::Other => {
                proof {
                    reveal_strlit("Empty");
                }
                ReadStep::Failed(String::from_str("Empty"))
            },
        }
    }
}

/// Message of a failure of the XML parser.
pub open spec fn failed_message() -> Seq<char> {
    seq!['S', 'o', 'm', 'e', 't', 'h', 'i', 'n', 'g', ' ', 'f', 'a', 'i', 'l', 'e', 'd']
}

/// Message of an event the reader does not take.
pub open spec fn empty_message() -> Seq<char> {
    seq!['E', 'm', 'p', 't', 'y']
}

/// Message of a document whose elements stand where the reader cannot go on.
pub open spec fn out_of_place_message() -> Seq<char> {
    seq!['G', 'P', 'X', ' ', 'e', 'l', 'e', 'm', 'e', 'n', 't', 's', ' ', 'o', 'u', 't', ' ', 'o', 'f', ' ', 'p', 'l', 'a', 'c', 'e']
}

/// A reader that has read nothing.
pub open spec fn empty_reader() -> ReaderView {
    ReaderView {
        stack: Seq::empty(),
        chars: Seq::empty(),
        col: CollectionView { waypoints: Seq::empty(), routes: Seq::empty(), tracks: Seq::empty() },
    }
}

/// What reading the events `evs` from the state `r` gives: the collection at
/// the end of the document; the parser's failure message at a failure or
/// when the events run out; `empty_message` at an event the reader does not
/// take; `out_of_place_message` at an event the reader cannot go on from.
pub open spec fn read_run(r: ReaderView, evs: Seq<XmlEventView>) -> Result<CollectionView, Seq<char>>
    decreases evs.len(),
{
    if evs.len() == 0 {
        Err(failed_message())
    } else if step_panics(r, evs[0]) {
        Err(out_of_place_message())
    } else {
        match evs[0] {
            XmlEventView::EndDocument => Ok(r.col),
            XmlEventView::Failed => Err(failed_message()),
            XmlEventView::Other => Err(empty_message()),
            _ => read_run(stepped(r, evs[0]), evs.drop_first()),
        }
    }
}

/// Reads a GPX document: the XML parser's events for the bytes are taken by
/// a reader one at a time, as `read_run` says.
pub fn read_gpx(doc: &Vec<u8>) -> (r: Result<Collection, String>)
    ensures
        match read_run(empty_reader(), xml_events(doc@)) {
            Ok(c) => r matches Ok(col) && col@ == c,
            Err(m) => r matches Err(e) && e@ == m,
        },
{
    let mut evs = parse_xml_events(doc);
    let mut queue: VecDeque<XmlEvent> = VecDeque::new();
    assert(events_view(evs@) + events_view(queue@) =~= xml_events(doc@));
    while evs.len() > 0
        invariant
            events_view(evs@) + events_view(queue@) == xml_events(doc@),
        decreases evs@.len(),
    {
        let ghost before_evs = evs@;
        let ghost before_queue = queue@;
        let ev = evs.pop().unwrap();
        queue.push_front(ev);
        proof {
            assert(before_evs =~= evs@.push(ev));
            assert(queue@ =~= seq![ev] + before_queue);
            assert(events_view(before_evs) =~= events_view(evs@).push(ev@));
            assert(events_view(queue@) =~= seq![ev@] + events_view(before_queue));
            assert(events_view(evs@) + events_view(queue@) =~= events_view(before_evs) + events_view(before_queue));
        }
    }
    assert(events_view(evs@) =~= Seq::<XmlEventView>::empty());
    assert(events_view(queue@) =~= xml_events(doc@));
    let mut reader = GpxReader::new();
    assert(reader@.stack =~= empty_reader().stack);
    assert(reader@.chars =~= empty_reader().chars);
    assert(reader@.col.waypoints =~= empty_reader().col.waypoints);
    assert(reader@.col.routes =~= empty_reader().col.routes);
    assert(reader@.col.tracks =~= empty_reader().col.tracks);
    assert(reader@ == empty_reader());
    while queue.len() > 0
        invariant
            read_run(empty_reader(), xml_events(doc@)) == read_run(reader@, events_view(queue@)),
        decreases queue@.len(),
    {
        let ghost before = queue@;
        let ev = queue.pop_front().unwrap();
        proof {
            assert(before =~= seq![ev] + queue@);
            assert(events_view(before)[0] == ev@);
            assert(events_view(before).drop_first() =~= events_view(queue@));
        }
        if reader.step_panics(&ev) {
            proof {
                reveal_strlit("GPX elements out of place");
            }
            return Err(String::from_str("GPX elements out of place"));
        }
        match reader.step(ev) {
            ReadStep::Continue => {},
            ReadStep::Finished => {
                return Ok(reader.into_collection());
            },
            ReadStep::Failed(m) => {
                return Err(m);
            },
        }
    }
    proof {
        reveal_strlit("Something failed");
    }
    Err(String::from_str("Something failed"))
}

/// Time format of GPX files (ISO 8601), in UTC.
pub const GPX_TIME_FORMAT: &'static str = "%Y-%m-%dT%H:%M:%S.%fZ";

/// Time format of GPX files with a time zone offset.
pub const GPX_TIME_FORMAT_WITH_TIMEZONE: &'static str = "%Y-%m-%dT%H:%M:%S.%f%z";

/// Compact time format of GPX files, in UTC.
pub const GPX_TIME_FORMAT_COMPACT: &'static str = "%Y%m%dT%H%M%S.%fZ";

/// Compact time format of GPX files without fractions of a second, in UTC.
pub const GPX_TIME_FORMAT_COMPACT_WITHOUT_FRACTIONS: &'static str = "%Y%m%dT%H%M%SZ";

/// Time format of GPX files without fractions of a second, in UTC.
pub const GPX_TIME_FORMAT_WITHOUT_FRACTIONS: &'static str = "%Y-%m-%dT%H:%M:%SZ";

/// The time of a GPX time text, as seconds since the Unix epoch and
/// nanoseconds: as read in the first of the GPX time formats, in the order
/// above, in which the text parses; `None` when it parses in none.
pub open spec fn gpx_time(text: Seq<char>) -> Option<(i64, u32)> {
    let a = utc_time_parsed(text, GPX_TIME_FORMAT@);
    let b = zoned_time_parsed(text, GPX_TIME_FORMAT_WITH_TIMEZONE@);
    let c = utc_time_parsed(text, GPX_TIME_FORMAT_COMPACT@);
    let d = utc_time_parsed(text, GPX_TIME_FORMAT_COMPACT_WITHOUT_FRACTIONS@);
    let e = utc_time_parsed(text, GPX_TIME_FORMAT_WITHOUT_FRACTIONS@);
    if a is Some {
        a
    } else if b is Some {
        b
    } else if c is Some {
        c
    } else if d is Some {
        d
    } else {
        e
    }
}

/// Reads the time of a GPX time text, as `gpx_time` says.
pub fn parse_gpx_time(text: &str) -> (r: Option<(i64, u32)>)
    ensures
        r == gpx_time(text@),
{
    match parse_utc_time(text, GPX_TIME_FORMAT) {
        Some(t) => return Some(t),
        None => {},
    }
    match parse_zoned_time(text, GPX_TIME_FORMAT_WITH_TIMEZONE) {
        Some(t) => return Some(t),
        None => {},
    }
    match parse_utc_time(text, GPX_TIME_FORMAT_COMPACT) {
        Some(t) => return Some(t),
        None => {},
    }
    match parse_utc_time(text, GPX_TIME_FORMAT_COMPACT_WITHOUT_FRACTIONS) {
        Some(t) => return Some(t),
        None => {},
    }
    parse_utc_time(text, GPX_TIME_FORMAT_WITHOUT_FRACTIONS)
}

} // verus!
