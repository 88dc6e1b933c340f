//! The objects of a user's home screen: one folder for each library.

use vstd::prelude::*;
use vstd::string::*;

use crate::emby::shared::{BaseItemDto, ImageTagsDto, ViewsUserData, WIDE_ASPECT};
use crate::ids::{id_text, library_id, IdKind};

verus! {

/// A library.
#[derive(Debug)]
pub struct LibraryView {
    pub id: i64,
    pub name: String,
    pub collection_type: String,
    pub created_at: String,
    pub updated_at: String,
}

/// The folder of a library.
#[derive(Debug)]
pub struct CollectionFolderView {
    pub base: BaseItemDto,
    pub guid: String,
    pub etag: String,
    pub date_modified: String,
    pub can_delete: bool,
    pub can_download: bool,
    pub presentation_unique_key: String,
    pub sort_name: String,
    pub forced_sort_name: String,
    pub external_urls: Vec<String>,
    pub taglines: Vec<String>,
    pub remote_trailers: Vec<String>,
    pub parent_id: String,
    pub child_count: i64,
    pub display_preferences_id: String,
    pub collection_type: String,
    pub locked_fields: Vec<String>,
    pub lock_data: bool,
}

/// What holds of the folder of every library.
pub open spec fn fixed_parts(v: CollectionFolderView) -> bool {
    &&& v.base.is_folder
    &&& v.base.item_type@ == "CollectionFolder"@
    &&& v.base.primary_image_aspect_ratio == WIDE_ASPECT
    &&& !v.base.user_data.played
    &&& v.base.user_data.play_count == 0
    &&& v.base.user_data.playback_position_ticks == 0
    &&& v.base.user_data.last_played_date is None
    &&& !v.base.user_data.is_favorite
    &&& v.base.user_data.played_percentage is None
    &&& v.base.user_data.unplayed_item_count is None
    &&& v.base.image_tags.primary is None
    &&& v.base.image_tags.logo is None
    &&& v.base.image_tags.thumb is None
    &&& v.base.image_tags.banner is None
    &&& v.base.backdrop_image_tags@.len() == 0
    &&& v.base.provider_ids@.len() == 0
    &&& !v.can_delete
    &&& !v.can_download
    &&& v.external_urls@.len() == 0
    &&& v.taglines@.len() == 0
    &&& v.remote_trailers@.len() == 0
    &&& v.parent_id@ == "0"@
    &&& v.child_count == 1
    &&& v.locked_fields@.len() == 0
    &&& !v.lock_data
}

impl Default for CollectionFolderView {
    fn default() -> (r: Self)
        ensures
            fixed_parts(r),
            r.base.name@.len() == 0,
            r.base.server_id@.len() == 0,
            r.base.id@.len() == 0,
            r.base.date_created@.len() == 0,
            r.guid@.len() == 0,
            r.etag@.len() == 0,
            r.date_modified@.len() == 0,
            r.presentation_unique_key@.len() == 0,
            r.sort_name@.len() == 0,
            r.forced_sort_name@.len() == 0,
            r.display_preferences_id@.len() == 0,
            r.collection_type@.len() == 0,
    {
        CollectionFolderView {
            base: BaseItemDto {
                name: String::new(),
                server_id: String::new(),
                id: String::new(),
                item_type: "CollectionFolder".to_owned(),
                is_folder: true,
                date_created: String::new(),
                user_data: ViewsUserData::default(),
                primary_image_aspect_ratio: WIDE_ASPECT,
                image_tags: ImageTagsDto::default(),
                backdrop_image_tags: Vec::new(),
                provider_ids: Vec::new(),
            },
            guid: String::new(),
            etag: String::new(),
            date_modified: String::new(),
            can_delete: false,
            can_download: false,
            presentation_unique_key: String::new(),
            sort_name: String::new(),
            forced_sort_name: String::new(),
            external_urls: Vec::new(),
            taglines: Vec::new(),
            remote_trailers: Vec::new(),
            parent_id: "0".to_owned(),
            child_count: 1,
            display_preferences_id: String::new(),
            collection_type: String::new(),
            locked_fields: Vec::new(),
            lock_data: false,
        }
    }
}

/// Whether `v` is the folder of a library.
pub open spec fn folder_of(v: CollectionFolderView, server_id: Seq<char>, lib: LibraryView) -> bool {
    let id = id_text(IdKind::Library, lib.id as int);
    &&& fixed_parts(v)
    &&& v.base.name@ == lib.name@
    &&& v.base.server_id@ == server_id
    &&& v.base.id@ == id
    &&& v.base.date_created@ == lib.created_at@
    &&& v.guid@ == id
    &&& v.etag@ == id
    &&& v.date_modified@ == lib.updated_at@
    &&& v.presentation_unique_key@ == id
    &&& v.sort_name@ == lib.name@
    &&& v.forced_sort_name@ == lib.name@
    &&& v.display_preferences_id@ == id
    &&& v.collection_type@ == lib.collection_type@
}

impl CollectionFolderView {
    /// The folder of a library.
    pub fn from_library(server_id: &str, lib: &LibraryView) -> (r: Self)
        ensures
            folder_of(r, server_id@, *lib),
    {
        let mut v = CollectionFolderView::default();
        let id = library_id(lib.id);
        v.base.name = lib.name.clone();
        v.base.server_id = server_id.to_owned();
        v.base.id = id.clone();
        v.base.date_created = lib.created_at.clone();
        v.guid = id.clone();
        v.etag = id.clone();
        v.date_modified = lib.updated_at.clone();
        v.presentation_unique_key = id.clone();
        v.sort_name = lib.name.clone();
        v.forced_sort_name = lib.name.clone();
        v.display_preferences_id = id;
        v.collection_type = lib.collection_type.clone();
        v
    }
}

/// The folders of a home screen and their number.
#[derive(Debug)]
pub struct ViewsResponse {
    pub items: Vec<CollectionFolderView>,
    pub total_record_count: usize,
}

/// The home screen of a list of libraries.
pub fn views_response(server_id: &str, libraries: &Vec<LibraryView>) -> (r: ViewsResponse)
    ensures
        r.total_record_count == libraries@.len(),
        r.items@.len() == libraries@.len(),
        forall|i: int|
            0 <= i < libraries@.len() ==> folder_of(
                #[trigger] r.items@[i],
                server_id@,
                libraries@[i],
            ),
{
    let mut items: Vec<CollectionFolderView> = Vec::new();
    let mut i: usize = 0;
    while i < libraries.len()
        invariant
            i <= libraries.len(),
            items.len() == i,
            forall|k: int|
                0 <= k < i ==> folder_of(#[trigger] items@[k], server_id@, libraries@[k]),
        decreases libraries.len() - i,
    {
        items.push(CollectionFolderView::from_library(server_id, &libraries[i]));
        i = i + 1;
    }
    ViewsResponse { total_record_count: items.len(), items }
}

/// A library is shown as a folder that carries its name and its identifier,
/// its type and its dates, and that can be neither deleted nor downloaded.
pub proof fn law_library_folder(v: CollectionFolderView, server_id: Seq<char>, lib: LibraryView)
    requires
        folder_of(v, server_id, lib),
    ensures
        v.base.name@ == lib.name@ && v.sort_name@ == lib.name@ && v.forced_sort_name@ == lib.name@,
        v.base.id@ == id_text(IdKind::Library, lib.id as int),
        v.guid@ == v.base.id@ && v.etag@ == v.base.id@ && v.presentation_unique_key@ == v.base.id@
            && v.display_preferences_id@ == v.base.id@,
        v.base.server_id@ == server_id,
        v.base.date_created@ == lib.created_at@,
        v.date_modified@ == lib.updated_at@,
        v.collection_type@ == lib.collection_type@,
        v.base.is_folder && v.base.item_type@ == "CollectionFolder"@,
        v.base.primary_image_aspect_ratio == 1_777_778,
        !v.base.user_data.played && v.base.user_data.play_count == 0
            && v.base.user_data.playback_position_ticks == 0 && !v.base.user_data.is_favorite,
        v.base.image_tags.primary is None,
        v.parent_id@ == "0"@ && v.child_count == 1,
        !v.can_delete && !v.can_download && !v.lock_data,
{
}

} // verus!
