//! NFO files: the metadata that a library keeps beside its media, as XML in
//! the style of Kodi.
//!
//! A document is walked once. Repeated elements are all kept in document
//! order, what an `actor` block holds stays with that block, and the `aspect`
//! of a `thumb` tells a poster from other pictures.

use vstd::prelude::*;
use vstd::string::*;
use vstd::utf8::{decode_utf8, encode_utf8, valid_utf8};

use crate::number::{
    all_digits, digit, digits_value, i32_of, i64_of, is_digit, parse_i32, parse_i64,
};
use crate::text::{
    after_last, blank, first_of, from_utf8_lossy, is_blank, is_space, join, joined,
    lemma_after_last, lemma_filter_map_all, lemma_trim_bounds, lemma_trim_twice, lossy_text, lower, lowered, opt,
    opt_str, range_text, same, starts, strip_prefix, tail_after_last, texts, to_chars, trim,
    trimmed, without_prefix,
};
use crate::xml::{next_event, open_xml, unread, xml_document, XmlEvent, XmlEventView};

verus! {

/// What a document describes.
#[derive(Debug, Clone, Copy, PartialEq, Eq, Structural)]
pub enum NfoKind {
    Movie,
    Episode,
    Season,
    TvShow,
}

/// One actor.
#[derive(Debug, Clone, Default, PartialEq, Eq)]
pub struct NfoActor {
    pub name: String,
    pub role: Option<String>,
    /// The person's number at TMDB, out of the address of the profile.
    pub tmdb_id: Option<String>,
    pub thumb: Option<String>,
}

/// The metadata of a document. The community rating is its text; a reader
/// that wants the number parses it.
#[derive(Debug, Clone)]
pub struct Nfo {
    pub kind: Option<NfoKind>,
    pub title: Option<String>,
    pub description: Option<String>,
    pub air_date: Option<String>,
    pub year: Option<i32>,
    pub runtime: Option<i64>,
    pub tmdb_id: Option<String>,
    pub imdb_id: Option<String>,
    pub tvdb_id: Option<String>,
    pub season: i64,
    pub episode: i64,
    pub tagline: Option<String>,
    pub status: Option<String>,
    pub official_rating: Option<String>,
    pub community_rating: Option<String>,
    pub genres: Vec<String>,
    pub studios: Vec<String>,
    pub tags: Vec<String>,
    pub actors: Vec<NfoActor>,
    pub poster: Option<String>,
    pub backdrops: Vec<String>,
}

impl Default for Nfo {
    /// The metadata of a document that holds none.
    fn default() -> (r: Self)
        ensures
            r.kind is None,
            r.title is None,
            r.description is None,
            r.air_date is None,
            r.year is None,
            r.runtime is None,
            r.tmdb_id is None,
            r.imdb_id is None,
            r.tvdb_id is None,
            r.season == 0,
            r.episode == 0,
            r.tagline is None,
            r.status is None,
            r.official_rating is None,
            r.community_rating is None,
            r.genres@ == Seq::<String>::empty(),
            r.studios@ == Seq::<String>::empty(),
            r.tags@ == Seq::<String>::empty(),
            r.actors@ == Seq::<NfoActor>::empty(),
            r.poster is None,
            r.backdrops@ == Seq::<String>::empty(),
    {
        Nfo {
            kind: None,
            title: None,
            description: None,
            air_date: None,
            year: None,
            runtime: None,
            tmdb_id: None,
            imdb_id: None,
            tvdb_id: None,
            season: 0,
            episode: 0,
            tagline: None,
            status: None,
            official_rating: None,
            community_rating: None,
            genres: Vec::new(),
            studios: Vec::new(),
            tags: Vec::new(),
            actors: Vec::new(),
            poster: None,
            backdrops: Vec::new(),
        }
    }
}

impl Nfo {
    /// Whether the document names the item at any provider.
    pub fn has_any_id(&self) -> (r: bool)
        ensures
            r == (self.tmdb_id is Some || self.imdb_id is Some || self.tvdb_id is Some),
    {
        self.tmdb_id.is_some() || self.imdb_id.is_some() || self.tvdb_id.is_some()
    }
}

// ---------------------------------------------------------------------------
// The walk

/// An `actor` block as it stands in the document.
#[derive(Debug)]
pub struct ActorRaw {
    pub name: Option<String>,
    pub role: Option<String>,
    pub thumb: Option<String>,
    pub profile: Option<String>,
}

/// The content of an `actor` block.
pub struct ActorView {
    pub name: Option<Seq<char>>,
    pub role: Option<Seq<char>>,
    pub thumb: Option<Seq<char>>,
    pub profile: Option<Seq<char>>,
}

impl View for ActorRaw {
    type V = ActorView;

    open spec fn view(&self) -> ActorView {
        ActorView {
            name: opt(self.name),
            role: opt(self.role),
            thumb: opt(self.thumb),
            profile: opt(self.profile),
        }
    }
}

/// An `actor` block with nothing in it yet.
pub open spec fn empty_actor() -> ActorView {
    ActorView { name: None, role: None, thumb: None, profile: None }
}

/// What a walk through a document has gathered, and where it stands.
#[derive(Debug)]
pub struct Walk {
    /// The name of the root element.
    pub root: String,
    /// Paths below the root and the texts found there, in document order.
    pub fields: Vec<(String, String)>,
    /// The types of `uniqueid` elements and their texts, in document order.
    pub uniqueids: Vec<(String, String)>,
    pub actors: Vec<ActorRaw>,
    /// The open elements, the root first.
    pub stack: Vec<String>,
    pub thumb_aspect: Option<String>,
    pub uniqueid_type: Option<String>,
}

/// The content of a walk.
pub struct WalkView {
    pub root: Seq<char>,
    pub fields: Seq<(Seq<char>, Seq<char>)>,
    pub uniqueids: Seq<(Seq<char>, Seq<char>)>,
    pub actors: Seq<ActorView>,
    pub stack: Seq<Seq<char>>,
    pub thumb_aspect: Option<Seq<char>>,
    pub uniqueid_type: Option<Seq<char>>,
}

/// Pairs of strings as text.
pub open spec fn entries(v: Seq<(String, String)>) -> Seq<(Seq<char>, Seq<char>)> {
    v.map_values(|e: (String, String)| (e.0@, e.1@))
}

/// The contents of a list of `actor` blocks.
pub open spec fn actor_views(v: Seq<ActorRaw>) -> Seq<ActorView> {
    v.map_values(|a: ActorRaw| a@)
}

impl View for Walk {
    type V = WalkView;

    open spec fn view(&self) -> WalkView {
        WalkView {
            root: self.root@,
            fields: entries(self.fields@),
            uniqueids: entries(self.uniqueids@),
            actors: actor_views(self.actors@),
            stack: texts(self.stack@),
            thumb_aspect: opt(self.thumb_aspect),
            uniqueid_type: opt(self.uniqueid_type),
        }
    }
}

/// A walk that has not begun.
pub open spec fn walk_start() -> WalkView {
    WalkView {
        root: Seq::empty(),
        fields: Seq::empty(),
        uniqueids: Seq::empty(),
        actors: Seq::empty(),
        stack: Seq::empty(),
        thumb_aspect: None,
        uniqueid_type: None,
    }
}

/// The first value that stands under a key.
pub open spec fn first_value(list: Seq<(Seq<char>, Seq<char>)>, key: Seq<char>) -> Option<Seq<char>>
    decreases list.len(),
{
    if list.len() == 0 {
        None
    } else if list[0].0 == key {
        Some(list[0].1)
    } else {
        first_value(list.skip(1), key)
    }
}

/// The value of an entry, where it stands under a key.
pub open spec fn value_under(key: Seq<char>) -> spec_fn((Seq<char>, Seq<char>)) -> Option<Seq<char>> {
    |e: (Seq<char>, Seq<char>)|
        if e.0 == key {
            Some(e.1)
        } else {
            None
        }
}

/// All values that stand under a key, in order.
pub open spec fn all_values(list: Seq<(Seq<char>, Seq<char>)>, key: Seq<char>) -> Seq<Seq<char>> {
    list.filter_map(value_under(key))
}

/// The path of the innermost open element below the root. A `thumb` with an
/// aspect that is not empty has the aspect in its path.
pub open spec fn path_of(stack: Seq<Seq<char>>, thumb_aspect: Option<Seq<char>>) -> Seq<char> {
    let segments = stack.skip(1);
    if segments.len() > 0 && segments.last() == "thumb"@ && thumb_aspect is Some
        && thumb_aspect->0.len() > 0 {
        joined(segments.drop_last().push("thumb@"@ + thumb_aspect->0), "/"@)
    } else {
        joined(segments, "/"@)
    }
}

/// An `actor` block after a text below it: the first text of each kind stays.
pub open spec fn actor_with(a: ActorView, part: Seq<char>, text: Seq<char>) -> ActorView {
    if part == "name"@ && a.name is None {
        ActorView { name: Some(text), ..a }
    } else if part == "role"@ && a.role is None {
        ActorView { role: Some(text), ..a }
    } else if part == "thumb"@ && a.thumb is None {
        ActorView { thumb: Some(text), ..a }
    } else if part == "profile"@ && a.profile is None {
        ActorView { profile: Some(text), ..a }
    } else {
        a
    }
}

/// A walk after an opening tag.
pub open spec fn after_start(
    w: WalkView,
    name: Seq<char>,
    attributes: Seq<(Seq<char>, Seq<char>)>,
) -> WalkView {
    WalkView {
        root: if w.stack.len() == 0 {
            name
        } else {
            w.root
        },
        uniqueid_type: if name == "uniqueid"@ {
            first_value(attributes, "type"@)
        } else {
            w.uniqueid_type
        },
        thumb_aspect: if name == "thumb"@ {
            first_value(attributes, "aspect"@)
        } else {
            w.thumb_aspect
        },
        actors: if name == "actor"@ {
            w.actors.push(empty_actor())
        } else {
            w.actors
        },
        stack: w.stack.push(name),
        ..w
    }
}

/// A walk after text that is not blank, inside some element.
pub open spec fn after_words(w: WalkView, text: Seq<char>) -> WalkView {
    if w.stack.last() == "uniqueid"@ && w.uniqueid_type is Some {
        WalkView { uniqueids: w.uniqueids.push((lower(w.uniqueid_type->0), text)), ..w }
    } else {
        let path = path_of(w.stack, w.thumb_aspect);
        match without_prefix(path, "actor/"@) {
            Some(part) => if w.actors.len() > 0 {
                WalkView {
                    actors: w.actors.drop_last().push(actor_with(w.actors.last(), part, text)),
                    ..w
                }
            } else {
                w
            },
            None => WalkView { fields: w.fields.push((path, text)), ..w },
        }
    }
}

/// The place of the last open element of a name; none where it is not open.
pub open spec fn last_open(stack: Seq<Seq<char>>, name: Seq<char>) -> Option<int>
    decreases stack.len(),
{
    if stack.len() == 0 {
        None
    } else if stack.last() == name {
        Some(stack.len() - 1)
    } else {
        last_open(stack.drop_last(), name)
    }
}

/// A walk after a closing tag: the last open element of that name is closed,
/// with all that is open inside it.
pub open spec fn after_end(w: WalkView, name: Seq<char>) -> WalkView {
    WalkView {
        uniqueid_type: if name == "uniqueid"@ {
            None
        } else {
            w.uniqueid_type
        },
        thumb_aspect: if name == "thumb"@ {
            None
        } else {
            w.thumb_aspect
        },
        stack: match last_open(w.stack, name) {
            Some(at) => w.stack.take(at),
            None => w.stack,
        },
        ..w
    }
}

/// A walk after one event.
pub open spec fn walk_step(w: WalkView, event: XmlEventView) -> WalkView {
    match event {
        XmlEventView::Start(name, attributes) => after_start(w, name, attributes),
        XmlEventView::Text(text) => if blank(text) || w.stack.len() == 0 {
            w
        } else {
            after_words(w, trim(text))
        },
        XmlEventView::End(name) => after_end(w, name),
        XmlEventView::Other => w,
    }
}

/// The walk through a list of events.
pub open spec fn walk_of(events: Seq<XmlEventView>) -> WalkView
    decreases events.len(),
{
    if events.len() == 0 {
        walk_start()
    } else {
        walk_step(walk_of(events.drop_last()), events.last())
    }
}

// ---------------------------------------------------------------------------
// What a walk keeps

proof fn lemma_first_value_stays(
    list: Seq<(Seq<char>, Seq<char>)>,
    more: (Seq<char>, Seq<char>),
    key: Seq<char>,
)
    requires
        first_value(list, key) is Some,
    ensures
        first_value(list.push(more), key) == first_value(list, key),
    decreases list.len(),
{
    assert(list.push(more)[0] == list[0]);
    if list[0].0 != key {
        assert(list.push(more).skip(1) =~= list.skip(1).push(more));
        lemma_first_value_stays(list.skip(1), more, key);
    }
}

proof fn lemma_values_grow(
    list: Seq<(Seq<char>, Seq<char>)>,
    more: (Seq<char>, Seq<char>),
    key: Seq<char>,
)
    ensures
        all_values(list.push(more), key) == if more.0 == key {
            all_values(list, key).push(more.1)
        } else {
            all_values(list, key)
        },
{
    reveal(Seq::filter_map);
    assert(list.push(more).drop_last() =~= list);
}

/// Repeated elements are all kept, in document order: what a walk has read at a
/// path is the beginning of what it has read there in the end.
pub proof fn law_repeated_elements_are_kept(events: Seq<XmlEventView>, k: int, path: Seq<char>)
    requires
        0 <= k <= events.len(),
    ensures
        all_values(walk_of(events.take(k)).fields, path).is_prefix_of(
            all_values(walk_of(events).fields, path),
        ),
    decreases events.len(),
{
    if k == events.len() {
        assert(events.take(k) =~= events);
    } else {
        let w = walk_of(events.drop_last());
        assert(events.drop_last().take(k) =~= events.take(k));
        law_repeated_elements_are_kept(events.drop_last(), k, path);
        match events.last() {
            XmlEventView::Text(text) => {
                if !blank(text) && w.stack.len() > 0 {
                    lemma_values_grow(
                        w.fields,
                        (path_of(w.stack, w.thumb_aspect), trim(text)),
                        path,
                    );
                }
            },
            _ => {},
        }
    }
}

/// Of several identifiers of one type the first counts.
pub proof fn law_first_identifier_counts(events: Seq<XmlEventView>, k: int, kind: Seq<char>)
    requires
        0 <= k <= events.len(),
        first_value(walk_of(events.take(k)).uniqueids, kind) is Some,
    ensures
        first_value(walk_of(events).uniqueids, kind) == first_value(
            walk_of(events.take(k)).uniqueids,
            kind,
        ),
    decreases events.len(),
{
    if k == events.len() {
        assert(events.take(k) =~= events);
    } else {
        let w = walk_of(events.drop_last());
        assert(events.drop_last().take(k) =~= events.take(k));
        law_first_identifier_counts(events.drop_last(), k, kind);
        match events.last() {
            XmlEventView::Text(text) => {
                if w.uniqueid_type is Some {
                    lemma_first_value_stays(
                        w.uniqueids,
                        (lower(w.uniqueid_type->0), trim(text)),
                        kind,
                    );
                }
            },
            _ => {},
        }
    }
}

/// How many `actor` blocks a list of events opens.
pub open spec fn actor_tags(events: Seq<XmlEventView>) -> nat
    decreases events.len(),
{
    if events.len() == 0 {
        0
    } else {
        actor_tags(events.drop_last()) + match events.last() {
            XmlEventView::Start(name, _) => if name == "actor"@ {
                1nat
            } else {
                0nat
            },
            _ => 0nat,
        }
    }
}

/// Each `actor` block is gathered once.
pub proof fn law_actors_are_kept(events: Seq<XmlEventView>)
    ensures
        walk_of(events).actors.len() == actor_tags(events),
    decreases events.len(),
{
    if events.len() > 0 {
        law_actors_are_kept(events.drop_last());
    }
}

// ---------------------------------------------------------------------------
// Walking

fn find_value(list: &Vec<(String, String)>, key: &str) -> (r: Option<String>)
    ensures
        opt(r) == first_value(entries(list@), key@),
{
    let ghost all = entries(list@);
    let mut i: usize = 0;
    assert(all.skip(0) =~= all);
    while i < list.len()
        invariant
            i <= list.len(),
            all == entries(list@),
            first_value(all, key@) == first_value(all.skip(i as int), key@),
        decreases list.len() - i,
    {
        proof {
            assert(all.skip(i as int)[0] == all[i as int]);
            assert(all.skip(i as int).skip(1) =~= all.skip(i + 1));
        }
        if same(list[i].0.as_str(), key) {
            return Some(list[i].1.clone());
        }
        i = i + 1;
    }
    None
}

fn find_values(list: &Vec<(String, String)>, key: &str) -> (r: Vec<String>)
    ensures
        texts(r@) == all_values(entries(list@), key@),
{
    let ghost all = entries(list@);
    let ghost f = value_under(key@);
    let mut out: Vec<String> = Vec::new();
    let mut i: usize = 0;
    assert(texts(out@) =~= all.take(0).filter_map(f));
    while i < list.len()
        invariant
            i <= list.len(),
            all == entries(list@),
            f == value_under(key@),
            texts(out@) == all.take(i as int).filter_map(f),
        decreases list.len() - i,
    {
        proof {
            all.lemma_filter_map_take_succ(f, i as int);
        }
        let ghost before = texts(out@);
        if same(list[i].0.as_str(), key) {
            out.push(list[i].1.clone());
            assert(texts(out@) =~= before.push(list@[i as int].1@));
        }
        assert(texts(out@) =~= all.take(i + 1).filter_map(f));
        i = i + 1;
    }
    assert(all.take(all.len() as int) =~= all);
    out
}

/// The path of the innermost open element below the root.
pub fn rel_path(stack: &Vec<String>, thumb_aspect: Option<&str>) -> (r: String)
    requires
        stack@.len() > 0,
    ensures
        r@ == path_of(texts(stack@), opt_str(thumb_aspect)),
{
    let ghost names = texts(stack@);
    let ghost segments = names.skip(1);
    let mut segs: Vec<String> = Vec::new();
    let mut i: usize = 1;
    while i < stack.len()
        invariant
            1 <= i <= stack.len(),
            names == texts(stack@),
            segments == names.skip(1),
            texts(segs@) == segments.take(i - 1),
        decreases stack.len() - i,
    {
        let s = stack[i].clone();
        let ghost before = texts(segs@);
        segs.push(s);
        proof {
            assert(texts(segs@) =~= before.push(s@));
            assert(texts(segs@) =~= segments.take(i as int));
        }
        i = i + 1;
    }
    assert(segments.take(stack@.len() - 1) =~= segments);
    let n: usize = segs.len();
    if n > 0 && same(segs[n - 1].as_str(), "thumb") {
        assert(segments.last() == segs@[n - 1]@);
        if let Some(aspect) = thumb_aspect {
            if !aspect.is_empty() {
                let ghost before = texts(segs@);
                let marked = "thumb@".to_owned().concat(aspect);
                let _thumb = segs.pop();
                segs.push(marked);
                assert(texts(segs@) =~= before.drop_last().push(marked@));
                return join(&segs, "/");
            }
        }
    } else if n > 0 {
        assert(segments.last() == segs@[n - 1]@);
    }
    join(&segs, "/")
}

impl Walk {
    /// A walk that has not begun.
    pub fn new() -> (r: Walk)
        ensures
            r@ == walk_start(),
    {
        let r = Walk {
            root: String::new(),
            fields: Vec::new(),
            uniqueids: Vec::new(),
            actors: Vec::new(),
            stack: Vec::new(),
            thumb_aspect: None,
            uniqueid_type: None,
        };
        proof {
            assert(r@.fields =~= Seq::empty());
            assert(r@.uniqueids =~= Seq::empty());
            assert(r@.actors =~= Seq::empty());
            assert(r@.stack =~= Seq::empty());
        }
        r
    }

    fn open(&mut self, name: String, attributes: &Vec<(String, String)>)
        ensures
            final(self)@ == after_start(old(self)@, name@, entries(attributes@)),
    {
        let ghost before = self@;
        if self.stack.len() == 0 {
            self.root = name.clone();
        }
        if same(name.as_str(), "uniqueid") {
            self.uniqueid_type = find_value(attributes, "type");
        }
        if same(name.as_str(), "thumb") {
            self.thumb_aspect = find_value(attributes, "aspect");
        }
        if same(name.as_str(), "actor") {
            let a = ActorRaw { name: None, role: None, thumb: None, profile: None };
            self.actors.push(a);
            assert(self@.actors =~= before.actors.push(empty_actor()));
        }
        self.stack.push(name);
        proof {
            assert(self@.stack =~= before.stack.push(name@));
            let expected = after_start(before, name@, entries(attributes@));
            assert(self@.actors =~= expected.actors);
            assert(self@ == expected);
        }
    }

    fn actor_text(&mut self, part: &str, text: String)
        requires
            old(self).actors@.len() > 0,
        ensures
            final(self)@ == (WalkView {
                actors: old(self)@.actors.drop_last().push(
                    actor_with(old(self)@.actors.last(), part@, text@),
                ),
                ..old(self)@
            }),
    {
        let ghost before = self@;
        let n: usize = self.actors.len();
        let ghost last = self.actors@[n - 1]@;
        if same(part, "name") && self.actors[n - 1].name.is_none() {
            self.actors[n - 1].name = Some(text);
        } else if same(part, "role") && self.actors[n - 1].role.is_none() {
            self.actors[n - 1].role = Some(text);
        } else if same(part, "thumb") && self.actors[n - 1].thumb.is_none() {
            self.actors[n - 1].thumb = Some(text);
        } else if same(part, "profile") && self.actors[n - 1].profile.is_none() {
            self.actors[n - 1].profile = Some(text);
        }
        proof {
            assert(self.actors@[n - 1]@ == actor_with(last, part@, text@));
            assert(before.actors.last() == last);
            assert(self@.actors =~= before.actors.drop_last().push(
                actor_with(before.actors.last(), part@, text@),
            ));
        }
    }

    fn words(&mut self, text: String)
        requires
            old(self).stack@.len() > 0,
        ensures
            final(self)@ == after_words(old(self)@, text@),
    {
        let ghost before = self@;
        let n: usize = self.stack.len();
        assert(before.stack.last() == self.stack@[n - 1]@);
        if same(self.stack[n - 1].as_str(), "uniqueid") {
            if let Some(kind) = &self.uniqueid_type {
                let entry = (lowered(kind.as_str()), text);
                self.uniqueids.push(entry);
                assert(self@.uniqueids =~= before.uniqueids.push((entry.0@, entry.1@)));
                return;
            }
        }
        let path = rel_path(&self.stack, crate::text::borrowed(&self.thumb_aspect));
        match strip_prefix(path.as_str(), "actor/") {
            Some(part) => {
                if self.actors.len() > 0 {
                    self.actor_text(part.as_str(), text);
                }
            },
            None => {
                let entry = (path, text);
                self.fields.push(entry);
                assert(self@.fields =~= before.fields.push((entry.0@, entry.1@)));
            },
        }
    }

    fn close(&mut self, name: &str)
        ensures
            final(self)@ == after_end(old(self)@, name@),
    {
        let ghost before = self@;
        if same(name, "uniqueid") {
            self.uniqueid_type = None;
        }
        if same(name, "thumb") {
            self.thumb_aspect = None;
        }
        let mut at: usize = self.stack.len();
        assert(before.stack.take(at as int) =~= before.stack);
        while at > 0
            invariant
                before == old(self)@,
                at <= self.stack.len(),
                before.stack == texts(self.stack@),
                self@ == (WalkView { stack: before.stack, ..after_end(before, name@) }),
                last_open(before.stack, name@) == last_open(before.stack.take(at as int), name@),
            decreases at,
        {
            assert(before.stack.take(at as int).last() == self.stack@[at - 1]@);
            if same(self.stack[at - 1].as_str(), name) {
                self.stack.truncate(at - 1);
                assert(self@.stack =~= before.stack.take(at - 1));
                return;
            }
            assert(before.stack.take(at as int).drop_last() =~= before.stack.take(at - 1));
            at = at - 1;
        }
    }

    /// Takes one event into account.
    pub fn step(&mut self, event: XmlEvent)
        ensures
            final(self)@ == walk_step(old(self)@, event@),
    {
        match event {
            XmlEvent::Start(name, attributes) => {
                assert(entries(attributes@) =~= attributes@.map_values(
                    |a: (String, String)| (a.0@, a.1@),
                ));
                self.open(name, &attributes);
            },
            XmlEvent::Text(text) => {
                if is_blank(text.as_str()) || self.stack.len() == 0 {
                    return;
                }
                self.words(trimmed(text.as_str()));
            },
            XmlEvent::End(name) => {
                self.close(name.as_str());
            },
            XmlEvent::Other => {},
        }
    }
}

/// Walks through a document; none where it breaks off with an error.
pub fn collect(document: &[u8]) -> (r: Option<Walk>)
    ensures
        r is Some <==> xml_document(document@).whole,
        r is Some ==> r->0@ == walk_of(xml_document(document@).events),
{
    let ghost all = xml_document(document@).events;
    let mut reader = open_xml(document);
    let mut walk = Walk::new();
    let ghost mut n: int = 0;
    assert(all.take(0) =~= Seq::empty());
    assert(all.skip(0) =~= all);
    loop
        invariant
            0 <= n <= all.len(),
            all == xml_document(document@).events,
            unread(reader).events == all.skip(n),
            unread(reader).whole == xml_document(document@).whole,
            walk@ == walk_of(all.take(n)),
        decreases all.len() - n,
    {
        match next_event(&mut reader) {
            Ok(Some(event)) => {
                walk.step(event);
                proof {
                    assert(all.take(n + 1).drop_last() =~= all.take(n));
                    assert(all.take(n + 1).last() == event@);
                    assert(all.skip(n).skip(1) =~= all.skip(n + 1));
                    n = n + 1;
                }
            },
            Ok(None) => {
                assert(all.take(n) =~= all);
                return Some(walk);
            },
            Err(_) => {
                return None;
            },
        }
    }
}

// ---------------------------------------------------------------------------
// The metadata

/// The content of an actor's entry.
pub struct NfoActorView {
    pub name: Seq<char>,
    pub role: Option<Seq<char>>,
    pub tmdb_id: Option<Seq<char>>,
    pub thumb: Option<Seq<char>>,
}

impl View for NfoActor {
    type V = NfoActorView;

    open spec fn view(&self) -> NfoActorView {
        NfoActorView {
            name: self.name@,
            role: opt(self.role),
            tmdb_id: opt(self.tmdb_id),
            thumb: opt(self.thumb),
        }
    }
}

/// What a document with this root element describes.
pub open spec fn kind_of_root(root: Seq<char>) -> Option<NfoKind> {
    if root == "movie"@ {
        Some(NfoKind::Movie)
    } else if root == "episodedetails"@ || root == "episode"@ {
        Some(NfoKind::Episode)
    } else if root == "tvshow"@ {
        Some(NfoKind::TvShow)
    } else if root == "season"@ {
        Some(NfoKind::Season)
    } else {
        None
    }
}

/// What a document with this root element describes.
pub fn root_kind(root: &str) -> (r: Option<NfoKind>)
    ensures
        r == kind_of_root(root@),
{
    if same(root, "movie") {
        Some(NfoKind::Movie)
    } else if same(root, "episodedetails") || same(root, "episode") {
        Some(NfoKind::Episode)
    } else if same(root, "tvshow") {
        Some(NfoKind::TvShow)
    } else if same(root, "season") {
        Some(NfoKind::Season)
    } else {
        None
    }
}

/// The digits that a text starts with.
pub open spec fn leading_digits(s: Seq<char>) -> Seq<char>
    decreases s.len(),
{
    if s.len() > 0 && is_digit(s[0]) {
        seq![s[0]] + leading_digits(s.skip(1))
    } else {
        Seq::empty()
    }
}

proof fn lemma_leading_digits(s: Seq<char>, k: int)
    requires
        0 <= k <= s.len(),
        forall|i: int| 0 <= i < k ==> is_digit(#[trigger] s[i]),
        k == s.len() || !is_digit(s[k]),
    ensures
        leading_digits(s) == s.take(k),
    decreases k,
{
    if k > 0 {
        let t = s.skip(1);
        assert(is_digit(s[0]));
        assert forall|i: int| 0 <= i < k - 1 implies is_digit(#[trigger] t[i]) by {
            assert(t[i] == s[i + 1]);
        }
        if k < s.len() {
            assert(t[k - 1] == s[k]);
        }
        lemma_leading_digits(t, k - 1);
        assert(seq![s[0]] + t.take(k - 1) =~= s.take(k));
    } else {
        assert(s.take(0) =~= Seq::empty());
    }
}

/// The number of a person in the address of a profile: the digits that follow
/// the last `person/`.
pub open spec fn person_number(url: Seq<char>) -> Option<Seq<char>> {
    let digits = leading_digits(after_last(url, "person/"@));
    if digits.len() == 0 {
        None
    } else {
        Some(digits)
    }
}

/// The number of a person in the address of a profile.
pub fn extract_person_id(url: &str) -> (r: Option<String>)
    ensures
        opt(r) == person_number(url@),
{
    let tail = tail_after_last(url, "person/");
    let cs = to_chars(tail.as_str());
    let mut k: usize = 0;
    while k < cs.len() && digit(cs[k])
        invariant
            k <= cs.len(),
            forall|i: int| 0 <= i < k ==> is_digit(#[trigger] cs@[i]),
        decreases cs.len() - k,
    {
        k = k + 1;
    }
    proof {
        lemma_leading_digits(cs@, k as int);
        assert(cs@.take(k as int) =~= cs@.subrange(0, k as int));
    }
    if k == 0 {
        None
    } else {
        Some(range_text(cs.as_slice(), 0, k))
    }
}

/// A text that is not blank.
pub open spec fn not_blank(o: Option<Seq<char>>) -> Option<Seq<char>> {
    match o {
        Some(t) => if blank(t) {
            None
        } else {
            Some(t)
        },
        None => None,
    }
}

fn keep_if_not_blank(o: Option<String>) -> (r: Option<String>)
    ensures
        opt(r) == not_blank(opt(o)),
{
    match o {
        Some(t) => if is_blank(t.as_str()) {
            None
        } else {
            Some(t)
        },
        None => None,
    }
}

/// The entry of an `actor` block: none where it has no name.
pub open spec fn actor_entry() -> spec_fn(ActorView) -> Option<NfoActorView> {
    |a: ActorView|
        match not_blank(a.name) {
            Some(name) => Some(
                NfoActorView {
                    name: trim(name),
                    role: not_blank(a.role),
                    tmdb_id: match a.profile {
                        Some(url) => person_number(url),
                        None => None,
                    },
                    thumb: not_blank(a.thumb),
                },
            ),
            None => None,
        }
}

/// The entries of a list of actors.
pub open spec fn nfo_actors(v: Seq<NfoActor>) -> Seq<NfoActorView> {
    v.map_values(|a: NfoActor| a@)
}

fn copy_of(o: &Option<String>) -> (r: Option<String>)
    ensures
        opt(r) == opt(*o),
{
    crate::text::copy_opt(o)
}

fn build_actors(raw: &Vec<ActorRaw>) -> (r: Vec<NfoActor>)
    ensures
        nfo_actors(r@) == actor_views(raw@).filter_map(actor_entry()),
{
    let ghost all = actor_views(raw@);
    let ghost f = actor_entry();
    let mut out: Vec<NfoActor> = Vec::new();
    let mut i: usize = 0;
    assert(nfo_actors(out@) =~= all.take(0).filter_map(f));
    while i < raw.len()
        invariant
            i <= raw.len(),
            all == actor_views(raw@),
            f == actor_entry(),
            nfo_actors(out@) == all.take(i as int).filter_map(f),
        decreases raw.len() - i,
    {
        proof {
            all.lemma_filter_map_take_succ(f, i as int);
        }
        let ghost before = nfo_actors(out@);
        let a = &raw[i];
        assert(all[i as int] == a@);
        if let Some(name) = keep_if_not_blank(copy_of(&a.name)) {
            let entry = NfoActor {
                name: trimmed(name.as_str()),
                role: keep_if_not_blank(copy_of(&a.role)),
                tmdb_id: match &a.profile {
                    Some(url) => extract_person_id(url.as_str()),
                    None => None,
                },
                thumb: keep_if_not_blank(copy_of(&a.thumb)),
            };
            assert(f(all[i as int]) == Some(entry@));
            out.push(entry);
            assert(nfo_actors(out@) =~= before.push(entry@));
        }
        assert(nfo_actors(out@) =~= all.take(i + 1).filter_map(f));
        i = i + 1;
    }
    assert(all.take(all.len() as int) =~= all);
    out
}

/// The number in a text with blanks around it.
pub open spec fn number_in(o: Option<Seq<char>>) -> Option<i64> {
    match o {
        Some(t) => i64_of(trim(t)),
        None => None,
    }
}

fn parse_number(o: Option<String>) -> (r: Option<i64>)
    ensures
        r == number_in(opt(o)),
{
    match o {
        Some(t) => {
            let s = trimmed(t.as_str());
            parse_i64(s.as_str())
        },
        None => None,
    }
}

/// The year in a text with blanks around it.
pub open spec fn year_in(o: Option<Seq<char>>) -> Option<i32> {
    match o {
        Some(t) => i32_of(trim(t)),
        None => None,
    }
}

fn parse_year(o: Option<String>) -> (r: Option<i32>)
    ensures
        r == year_in(opt(o)),
{
    match o {
        Some(t) => {
            let s = trimmed(t.as_str());
            parse_i32(s.as_str())
        },
        None => None,
    }
}

fn either(a: Option<String>, b: Option<String>) -> (r: Option<String>)
    ensures
        opt(r) == first_of(opt(a), opt(b)),
{
    if a.is_some() {
        a
    } else {
        b
    }
}

/// The first text at a path.
pub open spec fn at(w: WalkView, path: Seq<char>) -> Option<Seq<char>> {
    first_value(w.fields, path)
}

/// The item's identifier at a provider: that of a `uniqueid` of either type,
/// or the text of the element that bears the provider's name.
pub open spec fn provider_id(w: WalkView, short: Seq<char>, long: Seq<char>) -> Option<Seq<char>> {
    first_of(first_of(first_value(w.uniqueids, short), first_value(w.uniqueids, long)), at(w, long))
}

fn find_provider_id(w: &Walk, short: &str, long: &str) -> (r: Option<String>)
    ensures
        opt(r) == provider_id(w@, short@, long@),
{
    either(
        either(find_value(&w.uniqueids, short), find_value(&w.uniqueids, long)),
        find_value(&w.fields, long),
    )
}

/// Whether `n` is the metadata that a walk has gathered.
pub open spec fn nfo_of(n: Nfo, w: WalkView) -> bool {
    &&& n.kind == kind_of_root(w.root)
    &&& opt(n.title) == at(w, "title"@)
    &&& opt(n.description) == first_of(
        first_of(at(w, "overview"@), at(w, "plot"@)),
        at(w, "outline"@),
    )
    &&& opt(n.air_date) == first_of(
        first_of(at(w, "premiered"@), at(w, "airdate"@)),
        at(w, "aired"@),
    )
    &&& n.year == year_in(at(w, "year"@))
    &&& n.runtime == number_in(at(w, "runtime"@))
    &&& opt(n.tagline) == not_blank(at(w, "tagline"@))
    &&& opt(n.status) == not_blank(at(w, "status"@))
    &&& opt(n.official_rating) == not_blank(first_of(at(w, "certification"@), at(w, "mpaa"@)))
    &&& n.season == match number_in(at(w, "season"@)) {
        Some(k) => k,
        None => 0,
    }
    &&& n.episode == match number_in(at(w, "episode"@)) {
        Some(k) => k,
        None => 0,
    }
    &&& opt(n.community_rating) == match first_of(
        at(w, "rating"@),
        at(w, "ratings/rating/value"@),
    ) {
        Some(t) => Some(trim(t)),
        None => None,
    }
    &&& texts(n.genres@) == all_values(w.fields, "genre"@)
    &&& texts(n.studios@) == all_values(w.fields, "studio"@)
    &&& texts(n.tags@) == all_values(w.fields, "tag"@)
    &&& opt(n.tmdb_id) == provider_id(w, "tmdb"@, "tmdbid"@)
    &&& opt(n.imdb_id) == provider_id(w, "imdb"@, "imdbid"@)
    &&& opt(n.tvdb_id) == provider_id(w, "tvdb"@, "tvdbid"@)
    &&& opt(n.poster) == first_of(
        first_of(at(w, "thumb@poster"@), at(w, "art/poster"@)),
        at(w, "thumb"@),
    )
    &&& texts(n.backdrops@) == all_values(w.fields, "fanart/thumb"@) + all_values(
        w.fields,
        "art/fanart"@,
    )
    &&& nfo_actors(n.actors@) == w.actors.filter_map(actor_entry())
}

/// The metadata that a walk has gathered.
pub fn build(w: &Walk) -> (r: Nfo)
    ensures
        nfo_of(r, w@),
{
    let f = &w.fields;
    let mut backdrops = find_values(f, "fanart/thumb");
    let mut more = find_values(f, "art/fanart");
    let ghost shown = texts(backdrops@) + texts(more@);
    backdrops.append(&mut more);
    assert(texts(backdrops@) =~= shown);
    let rating = either(find_value(f, "rating"), find_value(f, "ratings/rating/value"));
    Nfo {
        kind: root_kind(w.root.as_str()),
        title: find_value(f, "title"),
        description: either(
            either(find_value(f, "overview"), find_value(f, "plot")),
            find_value(f, "outline"),
        ),
        air_date: either(
            either(find_value(f, "premiered"), find_value(f, "airdate")),
            find_value(f, "aired"),
        ),
        year: parse_year(find_value(f, "year")),
        runtime: parse_number(find_value(f, "runtime")),
        tmdb_id: find_provider_id(w, "tmdb", "tmdbid"),
        imdb_id: find_provider_id(w, "imdb", "imdbid"),
        tvdb_id: find_provider_id(w, "tvdb", "tvdbid"),
        season: match parse_number(find_value(f, "season")) {
            Some(k) => k,
            None => 0,
        },
        episode: match parse_number(find_value(f, "episode")) {
            Some(k) => k,
            None => 0,
        },
        tagline: keep_if_not_blank(find_value(f, "tagline")),
        status: keep_if_not_blank(find_value(f, "status")),
        official_rating: keep_if_not_blank(
            either(find_value(f, "certification"), find_value(f, "mpaa")),
        ),
        community_rating: match rating {
            Some(t) => Some(trimmed(t.as_str())),
            None => None,
        },
        genres: find_values(f, "genre"),
        studios: find_values(f, "studio"),
        tags: find_values(f, "tag"),
        actors: build_actors(&w.actors),
        poster: either(
            either(find_value(f, "thumb@poster"), find_value(f, "art/poster")),
            find_value(f, "thumb"),
        ),
        backdrops,
    }
}

/// Whether `r` is the metadata of a document: none where the document cannot
/// be parsed to its end.
pub open spec fn nfo_of_document(r: Option<Nfo>, document: Seq<u8>) -> bool {
    match r {
        Some(n) => xml_document(document).whole && nfo_of(n, walk_of(xml_document(document).events)),
        None => !xml_document(document).whole,
    }
}

/// The metadata of a document in bytes.
pub fn parse_nfo_bytes(document: &[u8]) -> (r: Option<Nfo>)
    ensures
        nfo_of_document(r, document@),
{
    match collect(document) {
        Some(walk) => Some(build(&walk)),
        None => None,
    }
}

/// The metadata of a document.
pub fn parse_nfo_str(content: &str) -> (r: Option<Nfo>)
    ensures
        nfo_of_document(r, content.spec_bytes()),
{
    parse_nfo_bytes(content.as_bytes())
}

// ---------------------------------------------------------------------------
// What a document says

/// The elements that are open behind a list of events, the root first: a
/// closing tag closes the last open element of its name, with all inside it.
pub open spec fn open_elements(events: Seq<XmlEventView>) -> Seq<Seq<char>>
    decreases events.len(),
{
    if events.len() == 0 {
        Seq::empty()
    } else {
        let before = open_elements(events.drop_last());
        match events.last() {
            XmlEventView::Start(name, _) => before.push(name),
            XmlEventView::End(name) => match before.index_of_last(name) {
                Some(i) => before.take(i),
                None => before,
            },
            _ => before,
        }
    }
}

/// The texts of the elements of a name that stand directly below the root, in
/// document order, without blanks around them; blank ones do not count.
pub open spec fn texts_below_root(events: Seq<XmlEventView>, name: Seq<char>) -> Seq<Seq<char>>
    decreases events.len(),
{
    if events.len() == 0 {
        Seq::empty()
    } else {
        let before = texts_below_root(events.drop_last(), name);
        let open = open_elements(events.drop_last());
        match events.last() {
            XmlEventView::Text(text) => if trim(text).len() > 0 && open.len() == 2 && open[1]
                == name {
                before.push(trim(text))
            } else {
                before
            },
            _ => before,
        }
    }
}

proof fn lemma_last_open(stack: Seq<Seq<char>>, name: Seq<char>)
    ensures
        match last_open(stack, name) {
            Some(i) => 0 <= i < stack.len() && stack[i] == name && forall|j: int|
                i < j < stack.len() ==> #[trigger] stack[j] != name,
            None => forall|j: int| 0 <= j < stack.len() ==> #[trigger] stack[j] != name,
        },
    decreases stack.len(),
{
    if stack.len() > 0 && stack.last() != name {
        let rest = stack.drop_last();
        lemma_last_open(rest, name);
        assert forall|j: int| 0 <= j < stack.len() implies (#[trigger] stack[j] == rest[j] || j
            == rest.len()) by {
        }
    }
}

proof fn lemma_open_elements(events: Seq<XmlEventView>)
    ensures
        walk_of(events).stack == open_elements(events),
    decreases events.len(),
{
    if events.len() > 0 {
        let before = events.drop_last();
        lemma_open_elements(before);
        let stack = open_elements(before);
        match events.last() {
            XmlEventView::End(name) => {
                lemma_last_open(stack, name);
                stack.index_of_last_ensures(name);
                match stack.index_of_last(name) {
                    Some(i) => {
                        assert(stack[i] == name);
                        assert(last_open(stack, name) == Some(i));
                    },
                    None => {
                        if last_open(stack, name) is Some {
                            assert(stack.contains(stack[last_open(stack, name)->0]));
                        }
                    },
                }
            },
            _ => {},
        }
    }
}

proof fn lemma_first_of_values(list: Seq<(Seq<char>, Seq<char>)>, key: Seq<char>)
    ensures
        first_value(list, key) == if all_values(list, key).len() > 0 {
            Some(all_values(list, key)[0])
        } else {
            None
        },
    decreases list.len(),
{
    if list.len() == 0 {
        reveal(Seq::filter_map);
    } else {
        let rest = list.drop_last();
        lemma_first_of_values(rest, key);
        lemma_values_grow(rest, list.last(), key);
        assert(rest.push(list.last()) =~= list);
        if first_value(rest, key) is Some {
            lemma_first_value_stays(rest, list.last(), key);
        } else {
            lemma_first_value_joins(rest, list.last(), key);
        }
    }
}

proof fn lemma_first_value_joins(
    list: Seq<(Seq<char>, Seq<char>)>,
    more: (Seq<char>, Seq<char>),
    key: Seq<char>,
)
    requires
        first_value(list, key) is None,
    ensures
        first_value(list.push(more), key) == if more.0 == key {
            Some(more.1)
        } else {
            None
        },
    decreases list.len(),
{
    let all = list.push(more);
    reveal_with_fuel(first_value, 2);
    if list.len() == 0 {
        assert(all[0] == more);
        assert(all.skip(1).len() == 0);
    } else {
        assert(all[0] == list[0]);
        assert(all.skip(1) =~= list.skip(1).push(more));
        lemma_first_value_joins(list.skip(1), more, key);
    }
}

proof fn lemma_joined_has_slash(v: Seq<Seq<char>>)
    requires
        v.len() >= 2,
    ensures
        joined(v, "/"@).contains('/'),
{
    reveal_strlit("/");
    let head = joined(v.drop_last(), "/"@);
    assert(joined(v, "/"@)[head.len() as int] == '/');
}

/// Whether `name` is an element whose texts stand under its name alone.
pub open spec fn plain_name(name: Seq<char>) -> bool {
    name.len() > 0 && !name.contains('/') && !name.contains('@') && name != "uniqueid"@ && name
        != "thumb"@
}

proof fn lemma_path_of_plain_name(stack: Seq<Seq<char>>, aspect: Option<Seq<char>>, name: Seq<char>)
    requires
        plain_name(name),
        stack.len() > 0,
    ensures
        path_of(stack, aspect) == name <==> stack.len() == 2 && stack[1] == name,
{
    let segments = stack.skip(1);
    let path = path_of(stack, aspect);
    reveal_strlit("thumb@");
    if stack.len() == 1 {
        assert(segments.len() == 0);
        assert(path.len() == 0);
    } else if segments.last() == "thumb"@ && aspect is Some && aspect->0.len() > 0 {
        let last = "thumb@"@ + aspect->0;
        let shown = segments.drop_last().push(last);
        assert(last[5] == '@');
        if segments.len() == 1 {
            assert(joined(shown, "/"@) == last);
            assert(path.contains('@'));
            assert(stack[1] == segments[0]);
        } else {
            lemma_joined_has_slash(shown);
        }
    } else if segments.len() == 1 {
        assert(stack[1] == segments[0]);
    } else {
        lemma_joined_has_slash(segments);
    }
}

/// What a walk gathers under the name of an element is what the elements of that
/// name directly below the root say.
pub proof fn lemma_texts_below_root(events: Seq<XmlEventView>, name: Seq<char>)
    requires
        plain_name(name),
    ensures
        all_values(walk_of(events).fields, name) == texts_below_root(events, name),
        first_value(walk_of(events).fields, name) == if texts_below_root(events, name).len() > 0 {
            Some(texts_below_root(events, name)[0])
        } else {
            None
        },
    decreases events.len(),
{
    lemma_first_of_values(walk_of(events).fields, name);
    if events.len() == 0 {
        reveal(Seq::filter_map);
    } else {
        let before = events.drop_last();
        let w = walk_of(before);
        lemma_texts_below_root(before, name);
        lemma_open_elements(before);
        match events.last() {
            XmlEventView::Text(text) => {
                if !blank(text) && w.stack.len() > 0 {
                    let path = path_of(w.stack, w.thumb_aspect);
                    lemma_path_of_plain_name(w.stack, w.thumb_aspect, name);
                    lemma_values_grow(w.fields, (path, trim(text)), name);
                    if path == name && starts(path, "actor/"@) {
                        reveal_strlit("actor/");
                        assert(path.subrange(0, 6)[5] == '/');
                        assert(path[5] == '/');
                    }
                }
            },
            _ => {},
        }
    }
}

proof fn lemma_plain_names()
    ensures
        plain_name("title"@),
        plain_name("overview"@),
        plain_name("plot"@),
        plain_name("outline"@),
        plain_name("premiered"@),
        plain_name("airdate"@),
        plain_name("aired"@),
        plain_name("year"@),
        plain_name("runtime"@),
        plain_name("tagline"@),
        plain_name("status"@),
        plain_name("certification"@),
        plain_name("mpaa"@),
        plain_name("season"@),
        plain_name("episode"@),
        plain_name("genre"@),
        plain_name("studio"@),
        plain_name("tag"@),
        plain_name("rating"@),
        plain_name("tmdbid"@),
        plain_name("imdbid"@),
        plain_name("tvdbid"@),
{
    reveal_strlit("uniqueid");
    reveal_strlit("thumb");
    reveal_strlit("title");
    reveal_strlit("overview");
    reveal_strlit("plot");
    reveal_strlit("outline");
    reveal_strlit("premiered");
    reveal_strlit("airdate");
    reveal_strlit("aired");
    reveal_strlit("year");
    reveal_strlit("runtime");
    reveal_strlit("tagline");
    reveal_strlit("status");
    reveal_strlit("certification");
    reveal_strlit("mpaa");
    reveal_strlit("season");
    reveal_strlit("episode");
    reveal_strlit("genre");
    reveal_strlit("studio");
    reveal_strlit("tag");
    reveal_strlit("rating");
    reveal_strlit("tmdbid");
    reveal_strlit("imdbid");
    reveal_strlit("tvdbid");
    assert("thumb"@[0] == 't' && "thumb"@[1] == 'h' && "uniqueid"@[0] == 'u');
    assert("title"@[1] == 'i');
}

/// The date of a document is that of the first `premiered` directly below its
/// root; without one that of the first `airdate`, and without that one of the
/// first `aired`.
pub proof fn law_air_date(n: Nfo, events: Seq<XmlEventView>)
    requires
        nfo_of(n, walk_of(events)),
    ensures
        texts_below_root(events, "premiered"@).len() > 0 ==> opt(n.air_date) == Some(texts_below_root(events, "premiered"@)[0]),
        texts_below_root(events, "premiered"@).len() == 0 && texts_below_root(events, "airdate"@).len() > 0 ==> opt(n.air_date) == Some(texts_below_root(events, "airdate"@)[0]),
        texts_below_root(events, "premiered"@).len() == 0 && texts_below_root(events, "airdate"@).len() == 0 && texts_below_root(events, "aired"@).len() > 0 ==> opt(n.air_date) == Some(texts_below_root(events, "aired"@)[0]),
        texts_below_root(events, "premiered"@).len() == 0 && texts_below_root(events, "airdate"@).len() == 0 && texts_below_root(events, "aired"@).len() == 0 ==> n.air_date is None,
{
    lemma_plain_names();
    lemma_texts_below_root(events, "premiered"@);
    lemma_texts_below_root(events, "airdate"@);
    lemma_texts_below_root(events, "aired"@);
}

/// Nothing but these three elements has an effect on the date: two documents
/// that agree on them have one date, whatever else they hold.
pub proof fn law_air_date_alone(
    n: Nfo,
    m: Nfo,
    events: Seq<XmlEventView>,
    other: Seq<XmlEventView>,
)
    requires
        nfo_of(n, walk_of(events)),
        nfo_of(m, walk_of(other)),
        texts_below_root(events, "premiered"@) == texts_below_root(other, "premiered"@),
        texts_below_root(events, "airdate"@) == texts_below_root(other, "airdate"@),
        texts_below_root(events, "aired"@) == texts_below_root(other, "aired"@),
    ensures
        opt(n.air_date) == opt(m.air_date),
{
    law_air_date(n, events);
    law_air_date(m, other);
}

/// The title is that of the first `title`; the description is the first
/// `overview`, without one the first `plot`, and without that the first
/// `outline`.
pub proof fn law_title_and_description(n: Nfo, events: Seq<XmlEventView>)
    requires
        nfo_of(n, walk_of(events)),
    ensures
        texts_below_root(events, "title"@).len() > 0 ==> opt(n.title) == Some(texts_below_root(events, "title"@)[0]),
        texts_below_root(events, "title"@).len() == 0 ==> n.title is None,
        texts_below_root(events, "overview"@).len() > 0 ==> opt(n.description) == Some(texts_below_root(events, "overview"@)[0]),
        texts_below_root(events, "overview"@).len() == 0 && texts_below_root(events, "plot"@).len() > 0 ==> opt(n.description) == Some(texts_below_root(events, "plot"@)[0]),
        texts_below_root(events, "overview"@).len() == 0 && texts_below_root(events, "plot"@).len() == 0 && texts_below_root(events, "outline"@).len() > 0 ==> opt(n.description) == Some(texts_below_root(events, "outline"@)[0]),
        texts_below_root(events, "overview"@).len() == 0 && texts_below_root(events, "plot"@).len() == 0 && texts_below_root(events, "outline"@).len() == 0 ==> n.description is None,
{
    lemma_plain_names();
    lemma_texts_below_root(events, "title"@);
    lemma_texts_below_root(events, "overview"@);
    lemma_texts_below_root(events, "plot"@);
    lemma_texts_below_root(events, "outline"@);
}

proof fn lemma_number_reads(t: Seq<char>)
    requires
        t.len() > 0,
        all_digits(t),
    ensures
        trim(t) == t,
        digits_value(t) <= i64::MAX ==> number_in(Some(t)) == Some(digits_value(t) as i64),
        digits_value(t) <= i32::MAX ==> year_in(Some(t)) == Some(digits_value(t) as i32),
{
    lemma_digits_bound(t);
    assert(is_digit(t[0]));
    assert(is_digit(t[t.len() - 1]));
    lemma_trim_bounds(t, |c: char| is_space(c), 0, t.len() as int);
    assert(t.subrange(0, t.len() as int) =~= t);
}

proof fn lemma_digits_bound(t: Seq<char>)
    requires
        all_digits(t),
    ensures
        digits_value(t) >= 0,
    decreases t.len(),
{
    if t.len() > 0 {
        let s = t.drop_last();
        assert forall|i: int| 0 <= i < s.len() implies is_digit(#[trigger] s[i]) by {
            assert(s[i] == t[i]);
        }
        lemma_digits_bound(s);
        assert(is_digit(t[t.len() - 1]));
    }
}

/// The numbers of a document are those of the first `year`, `runtime`,
/// `season` and `episode`, each from the element of its own name. A season or
/// an episode that is not given is zero.
pub proof fn law_numbers(n: Nfo, events: Seq<XmlEventView>)
    requires
        nfo_of(n, walk_of(events)),
    ensures
        ({
            let t = texts_below_root(events, "year"@);
            &&& t.len() > 0 && all_digits(t[0]) && t[0].len() > 0 && digits_value(t[0]) <= i32::MAX
                ==> n.year is Some && n.year->0 == digits_value(t[0])
            &&& t.len() == 0 ==> n.year is None
        }),
        ({
            let t = texts_below_root(events, "runtime"@);
            &&& t.len() > 0 && all_digits(t[0]) && t[0].len() > 0 && digits_value(t[0]) <= i64::MAX
                ==> n.runtime is Some && n.runtime->0 == digits_value(t[0])
            &&& t.len() == 0 ==> n.runtime is None
        }),
        ({
            let t = texts_below_root(events, "season"@);
            &&& t.len() > 0 && all_digits(t[0]) && t[0].len() > 0 && digits_value(t[0]) <= i64::MAX
                ==> n.season == digits_value(t[0])
            &&& t.len() == 0 ==> n.season == 0
        }),
        ({
            let t = texts_below_root(events, "episode"@);
            &&& t.len() > 0 && all_digits(t[0]) && t[0].len() > 0 && digits_value(t[0]) <= i64::MAX
                ==> n.episode == digits_value(t[0])
            &&& t.len() == 0 ==> n.episode == 0
        }),
{
    lemma_plain_names();
    lemma_texts_below_root(events, "year"@);
    lemma_texts_below_root(events, "runtime"@);
    lemma_texts_below_root(events, "season"@);
    lemma_texts_below_root(events, "episode"@);
    if texts_below_root(events, "year"@).len() > 0 && all_digits(texts_below_root(events, "year"@)[0]) && texts_below_root(events, "year"@)[0].len() > 0 {
        lemma_number_reads(texts_below_root(events, "year"@)[0]);
        lemma_digits_bound(texts_below_root(events, "year"@)[0]);
    }
    if texts_below_root(events, "runtime"@).len() > 0 && all_digits(texts_below_root(events, "runtime"@)[0]) && texts_below_root(events, "runtime"@)[0].len() > 0 {
        lemma_number_reads(texts_below_root(events, "runtime"@)[0]);
        lemma_digits_bound(texts_below_root(events, "runtime"@)[0]);
    }
    if texts_below_root(events, "season"@).len() > 0 && all_digits(texts_below_root(events, "season"@)[0]) && texts_below_root(events, "season"@)[0].len() > 0 {
        lemma_number_reads(texts_below_root(events, "season"@)[0]);
        lemma_digits_bound(texts_below_root(events, "season"@)[0]);
    }
    if texts_below_root(events, "episode"@).len() > 0 && all_digits(texts_below_root(events, "episode"@)[0]) && texts_below_root(events, "episode"@)[0].len() > 0 {
        lemma_number_reads(texts_below_root(events, "episode"@)[0]);
        lemma_digits_bound(texts_below_root(events, "episode"@)[0]);
    }
}

proof fn lemma_texts_are_words(events: Seq<XmlEventView>, name: Seq<char>, i: int)
    requires
        0 <= i < texts_below_root(events, name).len(),
    ensures
        !blank(texts_below_root(events, name)[i]),
        trim(texts_below_root(events, name)[i]) == texts_below_root(events, name)[i],
    decreases events.len(),
{
    let before = texts_below_root(events.drop_last(), name);
    if i < before.len() {
        lemma_texts_are_words(events.drop_last(), name, i);
    } else {
        lemma_trim_twice(events.last()->Text_0, |c: char| is_space(c));
    }
}

/// The tagline, the status and the ratings are those of the first element of
/// their name; a `certification` goes before an `mpaa`.
pub proof fn law_tagline_status_and_ratings(n: Nfo, events: Seq<XmlEventView>)
    requires
        nfo_of(n, walk_of(events)),
    ensures
        texts_below_root(events, "tagline"@).len() > 0 ==> opt(n.tagline) == Some(texts_below_root(events, "tagline"@)[0]),
        texts_below_root(events, "tagline"@).len() == 0 ==> n.tagline is None,
        texts_below_root(events, "status"@).len() > 0 ==> opt(n.status) == Some(texts_below_root(events, "status"@)[0]),
        texts_below_root(events, "status"@).len() == 0 ==> n.status is None,
        texts_below_root(events, "certification"@).len() > 0 ==> opt(n.official_rating) == Some(texts_below_root(events, "certification"@)[0]),
        texts_below_root(events, "certification"@).len() == 0 && texts_below_root(events, "mpaa"@).len() > 0 ==> opt(n.official_rating) == Some(texts_below_root(events, "mpaa"@)[0]),
        texts_below_root(events, "certification"@).len() == 0 && texts_below_root(events, "mpaa"@).len() == 0 ==> n.official_rating is None,
        texts_below_root(events, "rating"@).len() > 0 ==> opt(n.community_rating) == Some(
            texts_below_root(events, "rating"@)[0],
        ),
        texts_below_root(events, "rating"@).len() == 0 ==> opt(n.community_rating) == match
            first_value(walk_of(events).fields, "ratings/rating/value"@) {
            Some(t) => Some(trim(t)),
            None => None,
        },
{
    lemma_plain_names();
    lemma_texts_below_root(events, "tagline"@);
    lemma_texts_below_root(events, "status"@);
    lemma_texts_below_root(events, "certification"@);
    lemma_texts_below_root(events, "mpaa"@);
    lemma_texts_below_root(events, "rating"@);
    if texts_below_root(events, "tagline"@).len() > 0 {
        lemma_texts_are_words(events, "tagline"@, 0);
    }
    if texts_below_root(events, "status"@).len() > 0 {
        lemma_texts_are_words(events, "status"@, 0);
    }
    if texts_below_root(events, "certification"@).len() > 0 {
        lemma_texts_are_words(events, "certification"@, 0);
    }
    if texts_below_root(events, "mpaa"@).len() > 0 {
        lemma_texts_are_words(events, "mpaa"@, 0);
    }
    if texts_below_root(events, "rating"@).len() > 0 {
        lemma_texts_are_words(events, "rating"@, 0);
    }
}

/// All genres, all studios and all tags of a document are kept, in its order,
/// each list from the elements of its own name.
pub proof fn law_lists_are_kept(n: Nfo, events: Seq<XmlEventView>)
    requires
        nfo_of(n, walk_of(events)),
    ensures
        texts(n.genres@) == texts_below_root(events, "genre"@),
        texts(n.studios@) == texts_below_root(events, "studio"@),
        texts(n.tags@) == texts_below_root(events, "tag"@),
{
    lemma_plain_names();
    lemma_texts_below_root(events, "genre"@);
    lemma_texts_below_root(events, "studio"@);
    lemma_texts_below_root(events, "tag"@);
}

/// The identifier at a provider is that of the first `uniqueid` of the
/// provider's short type, without one that of its long type, and without both
/// the text of the element of its long name.
pub proof fn law_provider_identifiers(n: Nfo, events: Seq<XmlEventView>)
    requires
        nfo_of(n, walk_of(events)),
    ensures
        ({
            let ids = walk_of(events).uniqueids;
            let t = texts_below_root(events, "tmdbid"@);
            &&& first_value(ids, "tmdb"@) is Some ==> opt(n.tmdb_id) == first_value(ids, "tmdb"@)
            &&& first_value(ids, "tmdb"@) is None && first_value(ids, "tmdbid"@) is Some ==> opt(
                n.tmdb_id,
            ) == first_value(ids, "tmdbid"@)
            &&& first_value(ids, "tmdb"@) is None && first_value(ids, "tmdbid"@) is None && t.len()
                > 0 ==> opt(n.tmdb_id) == Some(t[0])
            &&& first_value(ids, "tmdb"@) is None && first_value(ids, "tmdbid"@) is None && t.len()
                == 0 ==> n.tmdb_id is None
        }),
        ({
            let ids = walk_of(events).uniqueids;
            let t = texts_below_root(events, "imdbid"@);
            &&& first_value(ids, "imdb"@) is Some ==> opt(n.imdb_id) == first_value(ids, "imdb"@)
            &&& first_value(ids, "imdb"@) is None && first_value(ids, "imdbid"@) is Some ==> opt(
                n.imdb_id,
            ) == first_value(ids, "imdbid"@)
            &&& first_value(ids, "imdb"@) is None && first_value(ids, "imdbid"@) is None && t.len()
                > 0 ==> opt(n.imdb_id) == Some(t[0])
            &&& first_value(ids, "imdb"@) is None && first_value(ids, "imdbid"@) is None && t.len()
                == 0 ==> n.imdb_id is None
        }),
        ({
            let ids = walk_of(events).uniqueids;
            let t = texts_below_root(events, "tvdbid"@);
            &&& first_value(ids, "tvdb"@) is Some ==> opt(n.tvdb_id) == first_value(ids, "tvdb"@)
            &&& first_value(ids, "tvdb"@) is None && first_value(ids, "tvdbid"@) is Some ==> opt(
                n.tvdb_id,
            ) == first_value(ids, "tvdbid"@)
            &&& first_value(ids, "tvdb"@) is None && first_value(ids, "tvdbid"@) is None && t.len()
                > 0 ==> opt(n.tvdb_id) == Some(t[0])
            &&& first_value(ids, "tvdb"@) is None && first_value(ids, "tvdbid"@) is None && t.len()
                == 0 ==> n.tvdb_id is None
        }),
{
    lemma_plain_names();
    lemma_texts_below_root(events, "tmdbid"@);
    lemma_texts_below_root(events, "imdbid"@);
    lemma_texts_below_root(events, "tvdbid"@);
}

/// The poster is the first `thumb` whose aspect is `poster`, without one the
/// first `art/poster`, and without that the first `thumb` of no aspect. The
/// backdrops are all pictures of `fanart`, then all of `art`.
pub proof fn law_pictures(n: Nfo, w: WalkView)
    requires
        nfo_of(n, w),
    ensures
        first_value(w.fields, "thumb@poster"@) is Some ==> opt(n.poster) == first_value(
            w.fields,
            "thumb@poster"@,
        ),
        first_value(w.fields, "thumb@poster"@) is None && first_value(w.fields, "art/poster"@)
            is Some ==> opt(n.poster) == first_value(w.fields, "art/poster"@),
        first_value(w.fields, "thumb@poster"@) is None && first_value(w.fields, "art/poster"@)
            is None ==> opt(n.poster) == first_value(w.fields, "thumb"@),
        texts(n.backdrops@) == all_values(w.fields, "fanart/thumb"@) + all_values(
            w.fields,
            "art/fanart"@,
        ),
{
}

/// An element with a text, directly below the root, adds that text under its
/// name and leaves the walk otherwise as it was. Inside another element it
/// stands under both names.
pub proof fn law_element_is_gathered(
    w: WalkView,
    name: Seq<char>,
    attributes: Seq<(Seq<char>, Seq<char>)>,
    text: Seq<char>,
)
    requires
        w.stack.len() == 1 || (w.stack.len() == 2 && w.stack[1] != "actor"@ && !w.stack[1].contains(
            '/',
        )),
        plain_name(name),
        name != "actor"@,
        trim(text).len() > 0,
    ensures
        ({
            let opened = walk_step(w, XmlEventView::Start(name, attributes));
            let read = walk_step(opened, XmlEventView::Text(text));
            let closed = walk_step(read, XmlEventView::End(name));
            closed == WalkView {
                fields: w.fields.push(
                    (
                        if w.stack.len() == 1 {
                            name
                        } else {
                            w.stack[1] + "/"@ + name
                        },
                        trim(text),
                    ),
                ),
                ..w
            }
        }),
{
    let opened = walk_step(w, XmlEventView::Start(name, attributes));
    let read = walk_step(opened, XmlEventView::Text(text));
    let segments = opened.stack.skip(1);
    let path = path_of(opened.stack, opened.thumb_aspect);
    reveal_strlit("actor/");
    reveal_strlit("actor");
    reveal_strlit("/");
    assert(segments.last() == name);
    if w.stack.len() == 1 {
        assert(segments =~= seq![name]);
        assert(path == name);
        if starts(path, "actor/"@) {
            assert(path.subrange(0, 6)[5] == '/');
            assert(path[5] == '/');
        }
    } else {
        let outer = w.stack[1];
        assert(segments =~= seq![outer, name]);
        assert(segments.drop_last() =~= seq![outer]);
        reveal_with_fuel(joined, 3);
        assert(path == outer + "/"@ + name);
        if starts(path, "actor/"@) {
            assert(path.subrange(0, 6) == "actor/"@);
            assert(path.subrange(0, 6)[5] == '/');
            assert(path[5] == '/');
            assert(path[outer.len() as int] == '/');
            if outer.len() < 5 {
                assert(path.subrange(0, 6)[outer.len() as int] == '/');
            } else if outer.len() > 5 {
                assert(outer[5] == '/');
            } else {
                assert forall|i: int| 0 <= i < 5 implies outer[i] == "actor"@[i] by {
                    assert(path[i] == outer[i]);
                    assert(path.subrange(0, 6)[i] == "actor/"@[i]);
                }
                assert(outer =~= "actor"@);
            }
        }
    }
    assert(read.stack.last() == name);
    assert(read.stack.take(read.stack.len() - 1) =~= w.stack);
}

/// A `uniqueid` adds its text under its type, in lower case, and leaves the
/// walk otherwise as it was.
pub proof fn law_uniqueid_is_gathered(
    w: WalkView,
    kind: Seq<char>,
    attributes: Seq<(Seq<char>, Seq<char>)>,
    text: Seq<char>,
)
    requires
        w.stack.len() > 0,
        w.uniqueid_type is None,
        first_value(attributes, "type"@) == Some(kind),
        trim(text).len() > 0,
    ensures
        ({
            let opened = walk_step(w, XmlEventView::Start("uniqueid"@, attributes));
            let read = walk_step(opened, XmlEventView::Text(text));
            let closed = walk_step(read, XmlEventView::End("uniqueid"@));
            closed == (WalkView { uniqueids: w.uniqueids.push((lower(kind), trim(text))), ..w })
        }),
{
    let opened = walk_step(w, XmlEventView::Start("uniqueid"@, attributes));
    let read = walk_step(opened, XmlEventView::Text(text));
    reveal_strlit("uniqueid");
    reveal_strlit("thumb");
    reveal_strlit("actor");
    assert("uniqueid"@.len() == 8 && "thumb"@.len() == 5 && "actor"@.len() == 5);
    assert(read.stack.take(read.stack.len() - 1) =~= w.stack);
}

/// A `thumb` directly below the root adds its text under its aspect, and the
/// name and the role of an actor stay with the block that holds them.
pub proof fn law_thumbs_and_actors_are_gathered(
    w: WalkView,
    aspect: Seq<char>,
    attributes: Seq<(Seq<char>, Seq<char>)>,
    part: Seq<char>,
    text: Seq<char>,
)
    requires
        trim(text).len() > 0,
        aspect.len() > 0,
        w.thumb_aspect is None,
    ensures
        w.stack.len() == 1 && first_value(attributes, "aspect"@) == Some(aspect) ==> ({
            let opened = walk_step(w, XmlEventView::Start("thumb"@, attributes));
            let read = walk_step(opened, XmlEventView::Text(text));
            walk_step(read, XmlEventView::End("thumb"@)) == (WalkView {
                fields: w.fields.push(("thumb@"@ + aspect, trim(text))),
                ..w
            })
        }),
        w.stack.len() == 2 && w.stack[1] == "actor"@ && w.actors.len() > 0 && (part == "name"@
            || part == "role"@ || part == "profile"@) ==> ({
            let opened = walk_step(w, XmlEventView::Start(part, attributes));
            let read = walk_step(opened, XmlEventView::Text(text));
            let closed = walk_step(read, XmlEventView::End(part));
            let a = w.actors.last();
            &&& closed.fields == w.fields
            &&& closed.stack == w.stack
            &&& closed.actors.len() == w.actors.len()
            &&& closed.actors.drop_last() == w.actors.drop_last()
            &&& part == "name"@ && a.name is None ==> closed.actors.last() == (ActorView {
                name: Some(trim(text)),
                ..a
            })
            &&& part == "role"@ && a.role is None ==> closed.actors.last() == (ActorView {
                role: Some(trim(text)),
                ..a
            })
            &&& part == "profile"@ && a.profile is None ==> closed.actors.last() == (ActorView {
                profile: Some(trim(text)),
                ..a
            })
            &&& part == "name"@ && a.name is Some ==> closed.actors.last() == a
        }),
{
    reveal_strlit("uniqueid");
    reveal_strlit("thumb");
    reveal_strlit("thumb@");
    reveal_strlit("actor");
    reveal_strlit("actor/");
    reveal_strlit("/");
    reveal_strlit("name");
    reveal_strlit("role");
    reveal_strlit("profile");
    assert("thumb"@[0] == 't' && "actor"@[0] == 'a' && "uniqueid"@.len() == 8);
    assert("name"@[0] == 'n' && "role"@[0] == 'r' && "profile"@[0] == 'p');
    if w.stack.len() == 1 && first_value(attributes, "aspect"@) == Some(aspect) {
        let opened = walk_step(w, XmlEventView::Start("thumb"@, attributes));
        let read = walk_step(opened, XmlEventView::Text(text));
        let segments = opened.stack.skip(1);
        assert(segments =~= seq!["thumb"@]);
        assert(segments.drop_last().push("thumb@"@ + aspect) =~= seq!["thumb@"@ + aspect]);
        let path = path_of(opened.stack, opened.thumb_aspect);
        assert(path == "thumb@"@ + aspect);
        if starts(path, "actor/"@) {
            assert(path.subrange(0, 6)[0] == 'a');
            assert(path[0] == 't');
        }
        assert(read.stack.take(read.stack.len() - 1) =~= w.stack);
    }
    if w.stack.len() == 2 && w.stack[1] == "actor"@ && w.actors.len() > 0 && (part == "name"@ || part
        == "role"@ || part == "profile"@) {
        let opened = walk_step(w, XmlEventView::Start(part, attributes));
        let read = walk_step(opened, XmlEventView::Text(text));
        let segments = opened.stack.skip(1);
        assert(segments =~= seq!["actor"@, part]);
        assert(segments.drop_last() =~= seq!["actor"@]);
        reveal_with_fuel(joined, 3);
        let path = path_of(opened.stack, opened.thumb_aspect);
        assert(path =~= "actor/"@ + part);
        assert(path.subrange(0, 6) =~= "actor/"@);
        assert(path.skip(6) =~= part);
        assert(read.stack.take(read.stack.len() - 1) =~= w.stack);
        assert(read.actors.drop_last() =~= w.actors.drop_last());
    }
}

/// The entry of an actor keeps the name without blanks around it, the role and
/// the picture; a block without a name gives no entry, and all others do, in
/// order.
pub proof fn law_actor_entries(n: Nfo, w: WalkView, i: int)
    requires
        nfo_of(n, w),
        forall|k: int| 0 <= k < w.actors.len() ==> (#[trigger] w.actors[k]).name is Some && trim(
            w.actors[k].name->0,
        ).len() > 0,
        0 <= i < w.actors.len(),
    ensures
        n.actors@.len() == w.actors.len(),
        n.actors@[i].name@ == trim(w.actors[i].name->0),
        w.actors[i].role is Some && trim(w.actors[i].role->0).len() > 0 ==> opt(n.actors@[i].role)
            == w.actors[i].role,
        w.actors[i].role is None ==> n.actors@[i].role is None,
        w.actors[i].thumb is Some && trim(w.actors[i].thumb->0).len() > 0 ==> opt(
            n.actors@[i].thumb,
        ) == w.actors[i].thumb,
        w.actors[i].thumb is None ==> n.actors@[i].thumb is None,
        w.actors[i].profile is None ==> n.actors@[i].tmdb_id is None,
        w.actors[i].profile is Some ==> opt(n.actors@[i].tmdb_id) == person_number(
            w.actors[i].profile->0,
        ),
{
    let f = actor_entry();
    let t = Seq::new(w.actors.len(), |k: int| f(w.actors[k])->0);
    lemma_filter_map_all(w.actors, f, t);
    assert(nfo_actors(n.actors@).len() == n.actors@.len());
    assert(nfo_actors(n.actors@) == t);
    assert(nfo_actors(n.actors@)[i] == n.actors@[i]@);
}

/// The number of a person is the digits behind `person/` in the address of the
/// profile, whatever stands behind them.
pub proof fn law_person_number(head: Seq<char>, digits: Seq<char>, rest: Seq<char>)
    requires
        digits.len() > 0,
        all_digits(digits),
        !rest.contains('/'),
        rest.len() == 0 || !is_digit(rest[0]),
    ensures
        person_number(head + "person/"@ + digits + rest) == Some(digits),
{
    reveal_strlit("person/");
    let tail = digits + rest;
    assert(head + "person/"@ + digits + rest =~= head + "person/"@ + tail);
    assert(!tail.contains('/')) by {
        if tail.contains('/') {
            let i = choose|i: int| 0 <= i < tail.len() && tail[i] == '/';
            if i < digits.len() {
                assert(is_digit(digits[i]));
            } else {
                assert(rest[i - digits.len()] == '/');
            }
        }
    }
    lemma_after_last(head, "person/"@, tail);
    assert forall|i: int| 0 <= i < digits.len() implies is_digit(#[trigger] tail[i]) by {
        assert(tail[i] == digits[i]);
        assert(is_digit(digits[i]));
    }
    if rest.len() > 0 {
        assert(tail[digits.len() as int] == rest[0]);
    }
    lemma_leading_digits(tail, digits.len() as int);
    assert(tail.take(digits.len() as int) =~= digits);
}

/// What a document describes goes by its root alone.
pub proof fn law_kind_of_document(n: Nfo, w: WalkView)
    requires
        nfo_of(n, w),
    ensures
        w.root == "movie"@ ==> n.kind == Some(NfoKind::Movie),
        w.root == "episodedetails"@ ==> n.kind == Some(NfoKind::Episode),
        w.root == "episode"@ ==> n.kind == Some(NfoKind::Episode),
        w.root == "tvshow"@ ==> n.kind == Some(NfoKind::TvShow),
        w.root == "season"@ ==> n.kind == Some(NfoKind::Season),
        n.kind is Some ==> w.root == "movie"@ || w.root == "episodedetails"@ || w.root
            == "episode"@ || w.root == "tvshow"@ || w.root == "season"@,
{
    reveal_strlit("movie");
    reveal_strlit("episodedetails");
    reveal_strlit("episode");
    reveal_strlit("tvshow");
    reveal_strlit("season");
    assert("movie"@.len() == 5 && "episodedetails"@.len() == 14 && "episode"@.len() == 7);
    assert("tvshow"@[0] == 't' && "season"@[0] == 's');
}

/// A document that cannot be read to its end says nothing; any other does.
pub proof fn law_broken_document(r: Option<Nfo>, document: Seq<u8>)
    requires
        nfo_of_document(r, document),
    ensures
        r is Some <==> xml_document(document).whole,
{
}

// ---------------------------------------------------------------------------
// Encodings

/// The first half of a surrogate pair.
pub open spec fn high_surrogate(u: u16) -> bool {
    0xD800 <= u <= 0xDBFF
}

/// The second half of a surrogate pair.
pub open spec fn low_surrogate(u: u16) -> bool {
    0xDC00 <= u <= 0xDFFF
}

/// The text that UTF-16 units encode; none where a surrogate stands alone.
pub open spec fn utf16_text(units: Seq<u16>) -> Option<Seq<char>>
    decreases units.len(),
{
    if units.len() == 0 {
        Some(Seq::empty())
    } else if !high_surrogate(units[0]) && !low_surrogate(units[0]) {
        match utf16_text(units.skip(1)) {
            Some(rest) => Some(seq![(units[0] as u32) as char] + rest),
            None => None,
        }
    } else if high_surrogate(units[0]) && units.len() > 1 && low_surrogate(units[1]) {
        let c = (0x10000 + (units[0] - 0xD800) * 0x400 + (units[1] - 0xDC00)) as u32;
        match utf16_text(units.skip(2)) {
            Some(rest) => Some(seq![c as char] + rest),
            None => None,
        }
    } else {
        None
    }
}

/// `String::from_utf16`: decodes UTF-16, and fails on a surrogate that stands
/// alone.
#[verifier::external_body]
fn from_utf16(units: &[u16]) -> (r: Option<String>)
    ensures
        opt(r) == utf16_text(units@),
{
    String::from_utf16(units).ok()
}

/// The units in pairs of bytes; a byte left over is dropped.
pub open spec fn units_of(bytes: Seq<u8>, little: bool) -> Seq<u16> {
    Seq::new(
        (bytes.len() / 2) as nat,
        |i: int|
            (if little {
                bytes[2 * i] + 256 * bytes[2 * i + 1]
            } else {
                256 * bytes[2 * i] + bytes[2 * i + 1]
            }) as u16,
    )
}

fn read_units(bytes: &[u8], from: usize, little: bool) -> (r: Vec<u16>)
    requires
        from <= bytes@.len(),
    ensures
        r@ == units_of(bytes@.skip(from as int), little),
{
    let ghost body = bytes@.skip(from as int);
    let len: usize = bytes.len();
    let n: usize = (len - from) / 2;
    let mut out: Vec<u16> = Vec::new();
    let mut i: usize = 0;
    while i < n
        invariant
            i <= n == body.len() / 2,
            n == (len - from) / 2,
            from <= len == bytes@.len(),
            body == bytes@.skip(from as int),
            out@ =~= units_of(body, little).take(i as int),
        decreases n - i,
    {
        let a: u16 = bytes[from + 2 * i] as u16;
        let b: u16 = bytes[from + 2 * i + 1] as u16;
        assert(body[2 * i] == a && body[2 * i + 1] == b);
        let u: u16 = if little {
            a + 256 * b
        } else {
            256 * a + b
        };
        out.push(u);
        i = i + 1;
    }
    assert(units_of(body, little).take(n as int) =~= units_of(body, little));
    out
}

/// The text of a file: its byte order mark tells the encoding, and UTF-8 is
/// taken where there is none. UTF-16 that cannot be decoded gives no text.
pub open spec fn decoded(bytes: Seq<u8>) -> Seq<char> {
    if bytes.len() >= 3 && bytes[0] == 0xEF && bytes[1] == 0xBB && bytes[2] == 0xBF {
        lossy_text(bytes.skip(3))
    } else if bytes.len() >= 2 && bytes[0] == 0xFF && bytes[1] == 0xFE {
        match utf16_text(units_of(bytes.skip(2), true)) {
            Some(t) => t,
            None => Seq::empty(),
        }
    } else if bytes.len() >= 2 && bytes[0] == 0xFE && bytes[1] == 0xFF {
        match utf16_text(units_of(bytes.skip(2), false)) {
            Some(t) => t,
            None => Seq::empty(),
        }
    } else {
        lossy_text(bytes)
    }
}

/// Whether a file starts with the byte order mark of UTF-8.
pub open spec fn utf8_mark(bytes: Seq<u8>) -> bool {
    bytes.len() >= 3 && bytes[0] == 0xEF && bytes[1] == 0xBB && bytes[2] == 0xBF
}

/// Whether a file starts with a byte order mark.
pub open spec fn has_mark(bytes: Seq<u8>) -> bool {
    ||| utf8_mark(bytes)
    ||| bytes.len() >= 2 && bytes[0] == 0xFF && bytes[1] == 0xFE
    ||| bytes.len() >= 2 && bytes[0] == 0xFE && bytes[1] == 0xFF
}

/// Whether `text` is the text of a file. Valid UTF-8 is its own text, behind its
/// byte order mark or without any.
pub open spec fn text_of_file(bytes: Seq<u8>, text: Seq<char>) -> bool {
    &&& text == decoded(bytes)
    &&& valid_utf8(bytes) && !has_mark(bytes) ==> text == decode_utf8(bytes)
    &&& utf8_mark(bytes) && valid_utf8(bytes.skip(3)) ==> text == decode_utf8(bytes.skip(3))
}

/// The UTF-16 units of a text.
pub open spec fn utf16_units(s: Seq<char>) -> Seq<u16>
    decreases s.len(),
{
    if s.len() == 0 {
        Seq::empty()
    } else {
        let c = s[0] as u32;
        (if c < 0x10000 {
            seq![c as u16]
        } else {
            seq![
                (0xD800 + (c - 0x10000) / 0x400) as u16,
                (0xDC00 + (c - 0x10000) % 0x400) as u16,
            ]
        }) + utf16_units(s.skip(1))
    }
}

/// Units as pairs of bytes.
pub open spec fn unit_bytes(units: Seq<u16>, little: bool) -> Seq<u8> {
    Seq::new(
        2 * units.len(),
        |i: int|
            (if (i % 2 == 0) == little {
                units[i / 2] % 256
            } else {
                units[i / 2] / 256
            }) as u8,
    )
}

/// A file with a text in UTF-16, behind its byte order mark.
pub open spec fn utf16_file(s: Seq<char>, little: bool) -> Seq<u8> {
    (if little {
        seq![0xFFu8, 0xFEu8]
    } else {
        seq![0xFEu8, 0xFFu8]
    }) + unit_bytes(utf16_units(s), little)
}

/// A file with a text in UTF-8, behind its byte order mark.
pub open spec fn utf8_file(s: Seq<char>) -> Seq<u8> {
    seq![0xEFu8, 0xBBu8, 0xBFu8] + encode_utf8(s)
}

proof fn lemma_units_read_back(s: Seq<char>)
    ensures
        utf16_text(utf16_units(s)) == Some(s),
    decreases s.len(),
{
    if s.len() > 0 {
        let units = utf16_units(s);
        let rest = utf16_units(s.skip(1));
        let c = s[0] as u32;
        lemma_units_read_back(s.skip(1));
        vstd::utf8::char_is_scalar(s[0]);
        if c < 0x10000 {
            assert(units.skip(1) =~= rest);
            vstd::utf8::char_u32_cast(s[0], units[0] as u32);
        } else {
            assert(units.skip(2) =~= rest);
            assert(0 <= (c - 0x10000) / 0x400 < 0x400);
            let d = 0x10000 + (units[0] - 0xD800) * 0x400 + (units[1] - 0xDC00);
            assert(d == c);
            vstd::utf8::char_u32_cast(s[0], d as u32);
        }
        assert(seq![s[0]] + s.skip(1) =~= s);
    } else {
        assert(s =~= Seq::empty());
    }
}

proof fn lemma_bytes_read_back(units: Seq<u16>, little: bool)
    ensures
        units_of(unit_bytes(units, little), little) == units,
{
    let bytes = unit_bytes(units, little);
    assert forall|i: int| 0 <= i < units.len() implies #[trigger] units_of(bytes, little)[i]
        == units[i] by {
        assert((2 * i) / 2 == i && (2 * i + 1) / 2 == i);
        assert((2 * i) % 2 == 0 && (2 * i + 1) % 2 == 1);
        let u = units[i];
        if little {
            assert(bytes[2 * i] == u % 256 && bytes[2 * i + 1] == u / 256);
        } else {
            assert(bytes[2 * i] == u / 256 && bytes[2 * i + 1] == u % 256);
        }
    }
    assert(units_of(bytes, little) =~= units);
}

/// Only a text that starts with U+FEFF looks in UTF-8 as if it had a byte order
/// mark.
proof fn lemma_mark_is_a_character(s: Seq<char>)
    requires
        has_mark(encode_utf8(s)),
    ensures
        s.len() > 0,
        s[0] == '\u{FEFF}',
{
    let b = encode_utf8(s);
    vstd::utf8::encode_utf8_first_scalar(s);
    assert(vstd::utf8::codepoint_width_3(0xEF, 0xBB, 0xBF) == 0xFEFF) by (bit_vector);
    vstd::utf8::char_u32_cast(s[0], 0xFEFF);
    vstd::utf8::char_u32_cast('\u{FEFF}', 0xFEFF);
}

/// The text of a file is what was written into it, in UTF-16 of either order or
/// in UTF-8 behind the byte order mark. In UTF-8 without the mark that holds of
/// every text that does not itself start with the mark's character.
pub proof fn law_text_reads_back(s: Seq<char>, text: Seq<char>)
    ensures
        text_of_file(utf16_file(s, true), text) ==> text == s,
        text_of_file(utf16_file(s, false), text) ==> text == s,
        text_of_file(utf8_file(s), text) ==> text == s,
        !(s.len() > 0 && s[0] == '\u{FEFF}') && text_of_file(encode_utf8(s), text) ==> text == s,
{
    let units = utf16_units(s);
    lemma_units_read_back(s);
    lemma_bytes_read_back(units, true);
    lemma_bytes_read_back(units, false);
    assert(utf16_file(s, true).skip(2) =~= unit_bytes(units, true));
    assert(utf16_file(s, false).skip(2) =~= unit_bytes(units, false));
    assert(utf8_file(s).skip(3) =~= encode_utf8(s));
    vstd::utf8::encode_utf8_valid_utf8(s);
    vstd::utf8::encode_utf8_decode_utf8(s);
    if has_mark(encode_utf8(s)) {
        lemma_mark_is_a_character(s);
    }
}

/// The text of a file.
pub fn decode(bytes: Vec<u8>) -> (r: String)
    ensures
        text_of_file(bytes@, r@),
{
    let n: usize = bytes.len();
    if n >= 3 && bytes[0] == 0xEF && bytes[1] == 0xBB && bytes[2] == 0xBF {
        let body = vstd::slice::slice_subrange(bytes.as_slice(), 3, n);
        assert(body@ =~= bytes@.skip(3));
        return from_utf8_lossy(body);
    }
    if n >= 2 && ((bytes[0] == 0xFF && bytes[1] == 0xFE) || (bytes[0] == 0xFE && bytes[1] == 0xFF)) {
        let units = read_units(bytes.as_slice(), 2, bytes[0] == 0xFF);
        return match from_utf16(units.as_slice()) {
            Some(t) => t,
            None => String::new(),
        };
    }
    from_utf8_lossy(bytes.as_slice())
}

/// The metadata of a file, whatever its encoding.
pub fn read_nfo(bytes: Vec<u8>) -> (r: Option<Nfo>)
    ensures
        nfo_of_document(r, vstd::utf8::encode_utf8(decoded(bytes@))),
{
    let content = decode(bytes);
    parse_nfo_str(content.as_str())
}

} // verus!
