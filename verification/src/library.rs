//! Libraries: their types, their folders, and what an administrator may do to
//! them.

use vstd::prelude::*;
use vstd::string::*;

use crate::text::{join2, lower, opt_str, same, starts, starts_with, to_chars, trim, trimmed};

verus! {

// ---------------------------------------------------------------------------
// Types

/// The collection types that the protocol knows.
pub open spec fn collection_type(s: Seq<char>) -> bool {
    s == "movies"@ || s == "tvshows"@ || s == "music"@ || s == "musicvideos"@ || s == "homevideos"@
        || s == "games"@ || s == "books"@ || s == "livetv"@ || s == "channels"@ || s == "boxsets"@
        || s == "mixed"@ || s == "audiobooks"@ || s == "playlists"@
}

/// Whether the protocol knows a collection type.
pub fn is_valid_collection_type(s: &str) -> (r: bool)
    ensures
        r == collection_type(s@),
{
    same(s, "movies") || same(s, "tvshows") || same(s, "music") || same(s, "musicvideos") || same(
        s,
        "homevideos",
    ) || same(s, "games") || same(s, "books") || same(s, "livetv") || same(s, "channels") || same(
        s,
        "boxsets",
    ) || same(s, "mixed") || same(s, "audiobooks") || same(s, "playlists")
}

/// How a folder is reached: over the network, or on this machine.
pub open spec fn folder_kind(path: Seq<char>) -> Seq<char> {
    if starts(path, "http://"@) || starts(path, "https://"@) {
        "strm"@
    } else {
        "local"@
    }
}

/// How a folder is reached.
pub fn path_type(path: &str) -> (r: &'static str)
    ensures
        r@ == folder_kind(path@),
{
    if starts_with(path, "http://") || starts_with(path, "https://") {
        "strm"
    } else {
        "local"
    }
}

/// A path with forward slashes.
pub open spec fn with_slashes(path: Seq<char>) -> Seq<char> {
    path.map_values(
        |c: char|
            if c == '\\' {
                '/'
            } else {
                c
            },
    )
}

/// A folder that could not be resolved, in the form in which it is stored:
/// without blanks around it and with forward slashes.
pub fn unresolved_path(path: &str) -> (r: String)
    ensures
        r@ == with_slashes(trim(path@)),
{
    let t = trimmed(path);
    let cs = to_chars(t.as_str());
    let mut out = String::new();
    let mut i: usize = 0;
    while i < cs.len()
        invariant
            i <= cs.len(),
            out@ =~= with_slashes(cs@).take(i as int),
        decreases cs.len() - i,
    {
        if cs[i] == '\\' {
            out.push('/');
        } else {
            out.push(cs[i]);
        }
        i = i + 1;
    }
    assert(with_slashes(cs@).take(cs@.len() as int) =~= with_slashes(cs@));
    out
}

/// The name of a library that is made for a folder: the folder's own name, or
/// a general one where it has none.
pub fn library_name(file_name: Option<&str>) -> (r: String)
    ensures
        r@ == (match opt_str(file_name) {
            Some(n) => n,
            None => "Library"@,
        }),
{
    match file_name {
        Some(n) => n.to_owned(),
        None => "Library".to_owned(),
    }
}

// ---------------------------------------------------------------------------
// Requests

/// Why a request is refused.
#[derive(Debug, Clone, Copy, PartialEq, Eq, Structural)]
pub enum Refusal {
    /// The name or the path is empty.
    Empty,
    /// The protocol does not know the collection type.
    CollectionType,
}

/// The collection type that a library has by default.
pub open spec fn type_or_default(collection_type: Option<Seq<char>>) -> Seq<char> {
    match collection_type {
        Some(t) => t,
        None => "tvshows"@,
    }
}

/// Whether a collection type may be asked for: none, or one that is known.
pub open spec fn type_allowed(t: Option<Seq<char>>) -> bool {
    match t {
        Some(t) => collection_type(t),
        None => true,
    }
}

fn allows_type(t: Option<&str>) -> (r: bool)
    ensures
        r == type_allowed(opt_str(t)),
{
    match t {
        Some(t) => is_valid_collection_type(t),
        None => true,
    }
}

/// Whether a library may be made, and of which collection type. The name and
/// the path are needed; a type that is not known is refused.
pub fn check_new_library(name: &str, path: &str, collection_type: Option<&str>) -> (r: Result<
    String,
    Refusal,
>)
    ensures
        match r {
            Ok(t) => name@.len() > 0 && path@.len() > 0 && type_allowed(opt_str(collection_type))
                && t@ == type_or_default(opt_str(collection_type)),
            Err(Refusal::Empty) => name@.len() == 0 || path@.len() == 0,
            Err(Refusal::CollectionType) => name@.len() > 0 && path@.len() > 0 && !type_allowed(
                opt_str(collection_type),
            ),
        },
        new_library(r, name@, path@, opt_str(collection_type)),
{
    if name.is_empty() || path.is_empty() {
        return Err(Refusal::Empty);
    }
    if !allows_type(collection_type) {
        return Err(Refusal::CollectionType);
    }
    match collection_type {
        Some(t) => Ok(t.to_owned()),
        None => Ok("tvshows".to_owned()),
    }
}

/// Whether a library may be changed: only a type that is not known is refused.
pub fn check_library_change(collection_type: Option<&str>) -> (r: Result<(), Refusal>)
    ensures
        match r {
            Ok(_) => type_allowed(opt_str(collection_type)),
            Err(e) => !type_allowed(opt_str(collection_type)) && e == Refusal::CollectionType,
        },
{
    if allows_type(collection_type) {
        Ok(())
    } else {
        Err(Refusal::CollectionType)
    }
}

/// What a refused request is answered.
pub fn refusal_text(refusal: Refusal, collection_type: Option<&str>) -> (r: String)
    ensures
        r@ == (match refusal {
            Refusal::Empty => "name 和 path 不能为空"@,
            Refusal::CollectionType => "非法 collection_type: "@ + (match opt_str(collection_type) {
                Some(t) => t,
                None => ""@,
            }),
        }),
{
    match refusal {
        Refusal::Empty => "name 和 path 不能为空".to_owned(),
        Refusal::CollectionType => match collection_type {
            Some(t) => join2("非法 collection_type: ", t),
            None => join2("非法 collection_type: ", ""),
        },
    }
}

/// What to do for a folder that a library is asked for.
#[derive(Debug, Clone, Copy, PartialEq, Eq, Structural)]
pub enum FolderStep {
    /// The folder belongs to this library already: it is the answer, unchanged.
    Existing(i64),
    /// Make a library for the folder.
    Create,
}

/// A folder belongs to one library: where it has one, that is the answer and
/// none is made.
pub fn folder_step(existing: Option<i64>) -> (r: FolderStep)
    ensures
        r == match existing {
            Some(id) => FolderStep::Existing(id),
            None => FolderStep::Create,
        },
{
    match existing {
        Some(id) => FolderStep::Existing(id),
        None => FolderStep::Create,
    }
}

/// What is stored for a folder that has no library yet.
#[derive(Debug)]
pub struct NewFolder {
    /// The name of the library.
    pub name: String,
    pub path: String,
    pub path_type: &'static str,
}

/// Whether `r` is what asking for the library of a folder comes to: the library
/// that the folder has, or the rows of a new one.
pub open spec fn folder_plan(
    existing: Option<i64>,
    name: Seq<char>,
    path: Seq<char>,
    r: Result<i64, NewFolder>,
) -> bool {
    match r {
        Ok(id) => existing == Some(id),
        Err(row) => existing is None && row.name@ == name && row.path@ == path && row.path_type@
            == folder_kind(path),
    }
}

/// The rows to store for a folder that a library is asked for; none where the
/// folder has a library, whose name is left alone.
pub fn get_or_create_by_path(existing: Option<i64>, name: &str, path: &str) -> (r: Result<
    i64,
    NewFolder,
>)
    ensures
        folder_plan(existing, name@, path@, r),
{
    match folder_step(existing) {
        FolderStep::Existing(id) => Ok(id),
        FolderStep::Create => Err(
            NewFolder { name: name.to_owned(), path: path.to_owned(), path_type: path_type(path) },
        ),
    }
}

/// A row of the table of folders.
pub struct PathRow {
    pub library_id: i64,
    pub path: Seq<char>,
    pub path_type: Seq<char>,
}

/// The names of the libraries, and their folders.
pub struct Folders {
    pub names: Map<i64, Seq<char>>,
    pub paths: Seq<PathRow>,
}

/// The library of the first row with a path.
pub open spec fn library_of(paths: Seq<PathRow>, path: Seq<char>) -> Option<i64>
    decreases paths.len(),
{
    if paths.len() == 0 {
        None
    } else if paths[0].path == path {
        Some(paths[0].library_id)
    } else {
        library_of(paths.skip(1), path)
    }
}

/// The library of a folder and the tables once it was asked for, where `step` is
/// what asking came to and `fresh` the number that a new library gets.
pub open spec fn after_asking(t: Folders, step: Result<i64, NewFolder>, fresh: i64) -> (i64, Folders) {
    match step {
        Ok(id) => (id, t),
        Err(row) => (
            fresh,
            Folders {
                names: t.names.insert(fresh, row.name@),
                paths: t.paths.push(
                    PathRow { library_id: fresh, path: row.path@, path_type: row.path_type@ },
                ),
            },
        ),
    }
}

proof fn lemma_library_of_push(paths: Seq<PathRow>, row: PathRow)
    requires
        library_of(paths, row.path) is None,
    ensures
        library_of(paths.push(row), row.path) == Some(row.library_id),
    decreases paths.len(),
{
    if paths.len() > 0 {
        assert(paths.push(row)[0] == paths[0]);
        assert(paths.push(row).skip(1) =~= paths.skip(1).push(row));
        lemma_library_of_push(paths.skip(1), row);
    }
}

/// Asking twice for the library of a folder, under whatever names, gives the same
/// library, and the second time nothing is stored. The first time one library and
/// one folder are stored where the folder was new, and nothing where it was not.
pub proof fn law_folder_has_one_library(
    t: Folders,
    path: Seq<char>,
    first_name: Seq<char>,
    second_name: Seq<char>,
    first: Result<i64, NewFolder>,
    second: Result<i64, NewFolder>,
    fresh: i64,
    fresher: i64,
)
    requires
        folder_plan(library_of(t.paths, path), first_name, path, first),
        folder_plan(
            library_of(after_asking(t, first, fresh).1.paths, path),
            second_name,
            path,
            second,
        ),
    ensures
        ({
            let (id, stored) = after_asking(t, first, fresh);
            &&& after_asking(stored, second, fresher) == (id, stored)
            &&& library_of(t.paths, path) is Some ==> stored == t && library_of(t.paths, path) == Some(
                id,
            )
            &&& library_of(t.paths, path) is None ==> id == fresh && stored.names == t.names.insert(
                fresh,
                first_name,
            ) && stored.paths == t.paths.push(
                PathRow { library_id: fresh, path, path_type: folder_kind(path) },
            )
        }),
{
    if let Err(row) = first {
        lemma_library_of_push(
            t.paths,
            PathRow { library_id: fresh, path: row.path@, path_type: row.path_type@ },
        );
    }
}

// ---------------------------------------------------------------------------
// Deletion

/// The tables that hold what belongs to a library.
#[derive(Debug, Clone, Copy, PartialEq, Eq, Structural)]
pub enum Table {
    ExternalSubtitle,
    MediaSource,
    ItemGenre,
    ItemPeople,
    ItemStudio,
    ItemTag,
    ItemImage,
    UserItemData,
    Item,
    LibraryPath,
    ScanJob,
    Library,
}

/// Whether rows of one table are found by way of rows of another.
pub open spec fn found_through(a: Table, b: Table) -> bool {
    match a {
        Table::ExternalSubtitle => b == Table::MediaSource || b == Table::Item || b
            == Table::Library,
        Table::MediaSource | Table::ItemGenre | Table::ItemPeople | Table::ItemStudio
        | Table::ItemTag | Table::ItemImage | Table::UserItemData => b == Table::Item || b
            == Table::Library,
        Table::Item | Table::LibraryPath | Table::ScanJob => b == Table::Library,
        Table::Library => false,
    }
}

/// The order in which the rows of a library are deleted.
pub open spec fn deletion_order() -> Seq<Table> {
    seq![
        Table::ExternalSubtitle,
        Table::MediaSource,
        Table::ItemGenre,
        Table::ItemPeople,
        Table::ItemStudio,
        Table::ItemTag,
        Table::ItemImage,
        Table::UserItemData,
        Table::Item,
        Table::LibraryPath,
        Table::ScanJob,
        Table::Library,
    ]
}

/// The order in which the rows of a library are deleted.
pub fn deletion_plan() -> (r: Vec<Table>)
    ensures
        r@ == deletion_order(),
{
    let r: Vec<Table> = vec![
        Table::ExternalSubtitle,
        Table::MediaSource,
        Table::ItemGenre,
        Table::ItemPeople,
        Table::ItemStudio,
        Table::ItemTag,
        Table::ItemImage,
        Table::UserItemData,
        Table::Item,
        Table::LibraryPath,
        Table::ScanJob,
        Table::Library,
    ];
    assert(r@ =~= deletion_order());
    r
}

/// Every table is emptied before those through which its rows are found.
pub proof fn law_deletion_finds_all(i: int, j: int)
    requires
        0 <= i < deletion_order().len(),
        0 <= j < deletion_order().len(),
        found_through(deletion_order()[i], deletion_order()[j]),
    ensures
        i < j,
{
}

/// Every table is emptied once.
pub proof fn law_deletion_covers_all(t: Table)
    ensures
        deletion_order().contains(t),
        deletion_order().no_duplicates(),
{
    let o = deletion_order();
    assert(o[0] == Table::ExternalSubtitle && o[1] == Table::MediaSource && o[2]
        == Table::ItemGenre && o[3] == Table::ItemPeople && o[4] == Table::ItemStudio && o[5]
        == Table::ItemTag && o[6] == Table::ItemImage && o[7] == Table::UserItemData && o[8]
        == Table::Item && o[9] == Table::LibraryPath && o[10] == Table::ScanJob && o[11]
        == Table::Library);
}

/// The status that answers a change of a library: done, no such library, or
/// failed. `rows` is the number of rows changed; none where that failed.
pub fn change_status(rows: Option<u64>) -> (r: u16)
    ensures
        r == match rows {
            Some(n) => if n > 0 {
                200u16
            } else {
                404u16
            },
            None => 500u16,
        },
        r == status_after(rows, 200),
{
    match rows {
        Some(n) => if n > 0 {
            200
        } else {
            404
        },
        None => 500,
    }
}

/// The status that answers the deletion of a library.
pub fn deletion_status(rows: Option<u64>) -> (r: u16)
    ensures
        r == match rows {
            Some(n) => if n > 0 {
                204u16
            } else {
                404u16
            },
            None => 500u16,
        },
        r == status_after(rows, 204),
{
    match rows {
        Some(n) => if n > 0 {
            204
        } else {
            404
        },
        None => 500,
    }
}

// ---------------------------------------------------------------------------
// Identification

/// What follows once an item was given an identifier by hand.
#[derive(Debug, Clone, Copy, PartialEq, Eq, Structural)]
pub enum IdentifyStep {
    /// The item could not be changed.
    Fail,
    /// There is no such film or series.
    NotFound,
    /// Drop what was known of the item, then have it scraped.
    ClearAndScrape,
    /// Have the item scraped.
    Scrape,
}

/// What follows once an item was given an identifier by hand. `rows` is the
/// number of rows changed. What was known of the item is dropped unless the
/// request says otherwise.
pub fn identify_step(rows: Option<u64>, clear_metadata: Option<bool>) -> (r: IdentifyStep)
    ensures
        r == match rows {
            None => IdentifyStep::Fail,
            Some(n) => if n == 0 {
                IdentifyStep::NotFound
            } else if clear_metadata == Some(false) {
                IdentifyStep::Scrape
            } else {
                IdentifyStep::ClearAndScrape
            },
        },
        r == identified(rows, clear_metadata),
{
    match rows {
        None => IdentifyStep::Fail,
        Some(n) => if n == 0 {
            IdentifyStep::NotFound
        } else {
            match clear_metadata {
                Some(false) => IdentifyStep::Scrape,
                _ => IdentifyStep::ClearAndScrape,
            }
        },
    }
}

/// The tables from which the rows of an item are dropped that is to be
/// identified anew.
pub fn metadata_tables() -> (r: Vec<Table>)
    ensures
        r@ == seq![
            Table::ItemGenre,
            Table::ItemPeople,
            Table::ItemStudio,
            Table::ItemTag,
            Table::ItemImage,
        ],
{
    let r: Vec<Table> = vec![
        Table::ItemGenre,
        Table::ItemPeople,
        Table::ItemStudio,
        Table::ItemTag,
        Table::ItemImage,
    ];
    assert(r@ =~= seq![
        Table::ItemGenre,
        Table::ItemPeople,
        Table::ItemStudio,
        Table::ItemTag,
        Table::ItemImage,
    ]);
    r
}

/// The scrape status that items are listed by.
pub fn listed_status(asked: Option<&str>) -> (r: String)
    ensures
        r@ == (match opt_str(asked) {
            Some(s) => s,
            None => "pending"@,
        }),
{
    match asked {
        Some(s) => s.to_owned(),
        None => "pending".to_owned(),
    }
}

// ---------------------------------------------------------------------------
// What a library is

/// A folder with an address on the web is a link, and a path of the machine is
/// not.
pub proof fn law_folder_kinds(rest: Seq<char>)
    ensures
        folder_kind("http://"@ + rest) == "strm"@,
        folder_kind("https://"@ + rest) == "strm"@,
        folder_kind("/"@ + rest) == "local"@,
        folder_kind(Seq::empty()) == "local"@,
{
    reveal_strlit("http://");
    reveal_strlit("https://");
    reveal_strlit("/");
    let a = "http://"@ + rest;
    let b = "https://"@ + rest;
    let c = "/"@ + rest;
    assert(a.subrange(0, 7) =~= "http://"@);
    assert(b.subrange(0, 8) =~= "https://"@);
    if starts(c, "http://"@) {
        assert(c.subrange(0, 7)[0] == 'h');
    }
    if starts(c, "https://"@) {
        assert(c.subrange(0, 8)[0] == 'h');
    }
}

/// A path keeps its length and every character but the backslashes, which
/// become slashes.
pub proof fn law_only_backslashes_change(path: Seq<char>, i: int)
    requires
        0 <= i < path.len(),
    ensures
        with_slashes(path).len() == path.len(),
        path[i] == '\\' ==> with_slashes(path)[i] == '/',
        path[i] != '\\' ==> with_slashes(path)[i] == path[i],
        !with_slashes(path).contains('\\'),
{
}

/// A library may be of any of these types; without one it holds series.
pub proof fn law_collection_types(t: Seq<char>)
    ensures
        type_allowed(None) && type_or_default(None) == "tvshows"@,
        type_or_default(Some(t)) == t,
        type_allowed(Some("movies"@)) && type_allowed(Some("tvshows"@)) && type_allowed(
            Some("music"@),
        ) && type_allowed(Some("musicvideos"@)) && type_allowed(Some("homevideos"@))
            && type_allowed(Some("games"@)) && type_allowed(Some("books"@)) && type_allowed(
            Some("livetv"@),
        ) && type_allowed(Some("channels"@)) && type_allowed(Some("boxsets"@)) && type_allowed(
            Some("mixed"@),
        ) && type_allowed(Some("audiobooks"@)) && type_allowed(Some("playlists"@)),
        type_allowed(Some(t)) ==> 5 <= t.len() <= 11,
        lower(t) != t ==> !type_allowed(Some(t)),
{
    reveal_strlit("movies");
    reveal_strlit("tvshows");
    reveal_strlit("music");
    reveal_strlit("musicvideos");
    reveal_strlit("homevideos");
    reveal_strlit("games");
    reveal_strlit("books");
    reveal_strlit("livetv");
    reveal_strlit("channels");
    reveal_strlit("boxsets");
    reveal_strlit("mixed");
    reveal_strlit("audiobooks");
    reveal_strlit("playlists");
    if type_allowed(Some(t)) {
        assert(lower(t) =~= t);
    }
}

/// Whether `r` is what a request to make a library comes to.
pub open spec fn new_library(
    r: Result<String, Refusal>,
    name: Seq<char>,
    path: Seq<char>,
    asked: Option<Seq<char>>,
) -> bool {
    match r {
        Ok(t) => name.len() > 0 && path.len() > 0 && type_allowed(asked) && t@ == type_or_default(
            asked,
        ),
        Err(e) => if name.len() == 0 || path.len() == 0 {
            e == Refusal::Empty
        } else {
            e == Refusal::CollectionType && !type_allowed(asked)
        },
    }
}

/// What follows once so many rows were given an identifier by hand.
pub open spec fn identified(rows: Option<u64>, clear_metadata: Option<bool>) -> IdentifyStep {
    if rows is None {
        IdentifyStep::Fail
    } else if rows == Some(0u64) {
        IdentifyStep::NotFound
    } else if clear_metadata == Some(false) {
        IdentifyStep::Scrape
    } else {
        IdentifyStep::ClearAndScrape
    }
}

/// The status that answers a change of so many rows.
pub open spec fn status_after(rows: Option<u64>, done: u16) -> u16 {
    match rows {
        Some(n) => if n == 0 {
            404
        } else {
            done
        },
        None => 500,
    }
}

/// A library is made exactly where it has a name, a path and a type that is
/// known or left open; it holds series unless another type is asked for.
pub proof fn law_new_libraries(
    r: Result<String, Refusal>,
    name: Seq<char>,
    path: Seq<char>,
    asked: Option<Seq<char>>,
)
    requires
        new_library(r, name, path, asked),
    ensures
        r is Ok <==> name.len() > 0 && path.len() > 0 && (asked is None || type_allowed(asked)),
        r is Ok && asked is None ==> r->Ok_0@ == "tvshows"@,
        r is Ok && asked is Some ==> r->Ok_0@ == asked->0,
        r == Err::<String, Refusal>(Refusal::Empty) <==> name.len() == 0 || path.len() == 0,
{
}

/// A change that reached no row is answered as not found, one that failed as a
/// fault of the server. An item that was identified by hand is scraped, and what
/// was known of it is dropped before unless the request says otherwise.
pub proof fn law_changes_are_answered(rows: Option<u64>, done: u16, clear: Option<bool>)
    requires
        done != 404 && done != 500,
    ensures
        status_after(rows, done) == done <==> rows is Some && rows->0 > 0,
        status_after(rows, done) == 404 <==> rows == Some(0u64),
        status_after(rows, done) == 500 <==> rows is None,
        identified(rows, clear) == IdentifyStep::Fail <==> rows is None,
        identified(rows, clear) == IdentifyStep::NotFound <==> rows == Some(0u64),
        identified(rows, clear) == IdentifyStep::Scrape <==> rows is Some && rows->0 > 0 && clear
            == Some(false),
        identified(rows, clear) == IdentifyStep::ClearAndScrape <==> rows is Some && rows->0 > 0
            && clear != Some(false),
{
}

} // verus!
