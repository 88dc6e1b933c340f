//! The full object of a person.

use vstd::prelude::*;
use vstd::string::*;

use crate::emby::rows::PersonRow;
use crate::emby::shared::{
    date_year_or_zero, pairs, provider_entry, provider_ids_map, provider_pairs, year_or_zero_of,
    ExternalUrlDto, ImageTagsDto, NameIdDto, NameIdTypeDto, POSTER_ASPECT,
};
use crate::ids::{format_opt_id, id_text, opt_id_text, person_id, IdKind};
use crate::text::{borrowed, copy_opt, opt};

verus! {

/// A person with everything that the detail page shows.
#[derive(Debug)]
pub struct PersonDetailDto {
    pub name_id_type: NameIdTypeDto,
    pub server_id: String,
    pub production_locations: Vec<String>,
    pub provider_ids: Vec<(String, String)>,
    pub image_tags: ImageTagsDto,
    pub backdrop_image_tags: Vec<String>,
    /// The aspect ratio in millionths.
    pub primary_image_aspect_ratio: i64,
    pub date_created: String,
    pub date_modified: String,
    pub external_urls: Vec<ExternalUrlDto>,
    pub premiere_date: Option<String>,
    pub production_year: Option<i64>,
    pub overview: Option<String>,
}

/// The object of a person; `primary_image_id` is the row of the portrait.
pub fn person_to_json(server_id: &str, person: &PersonRow, primary_image_id: Option<i64>) -> (r:
    PersonDetailDto)
    ensures
        r.name_id_type.name_id.name@ == person.name@,
        r.name_id_type.name_id.id@ == id_text(IdKind::People, person.id as int),
        r.name_id_type.item_type@ == "Person"@,
        r.server_id@ == server_id@,
        r.production_locations@.len() == 0,
        pairs(r.provider_ids@) == provider_entry("Tmdb"@, opt(person.tmdb_id)),
        opt(r.image_tags.primary) == opt_id_text(IdKind::Image, primary_image_id),
        r.image_tags.logo is None,
        r.image_tags.thumb is None,
        r.image_tags.banner is None,
        r.backdrop_image_tags@.len() == 0,
        r.primary_image_aspect_ratio == POSTER_ASPECT,
        r.date_created@ == person.created_at@,
        r.date_modified@ == person.updated_at@,
        r.external_urls@.len() == 0,
        opt(r.premiere_date) == opt(person.birthday),
        r.production_year == year_or_zero_of(opt(person.birthday)),
        opt(r.overview) == opt(person.description),
        shows_person(r, server_id@, *person, primary_image_id),
{
    let provider_ids = provider_ids_map(borrowed(&person.tmdb_id), None, None);
    assert(provider_pairs(opt(person.tmdb_id), None, None) =~= provider_entry(
        "Tmdb"@,
        opt(person.tmdb_id),
    ));
    PersonDetailDto {
        name_id_type: NameIdTypeDto {
            name_id: NameIdDto { name: person.name.clone(), id: person_id(person.id) },
            item_type: "Person".to_owned(),
        },
        server_id: server_id.to_owned(),
        production_locations: Vec::new(),
        provider_ids,
        image_tags: ImageTagsDto {
            primary: format_opt_id(IdKind::Image, primary_image_id),
            logo: None,
            thumb: None,
            banner: None,
        },
        backdrop_image_tags: Vec::new(),
        primary_image_aspect_ratio: POSTER_ASPECT,
        date_created: person.created_at.clone(),
        date_modified: person.updated_at.clone(),
        external_urls: Vec::new(),
        premiere_date: copy_opt(&person.birthday),
        production_year: date_year_or_zero(&person.birthday),
        overview: copy_opt(&person.description),
    }
}

/// Whether `r` is the object of a person.
pub open spec fn shows_person(
    r: PersonDetailDto,
    server_id: Seq<char>,
    person: PersonRow,
    primary_image_id: Option<i64>,
) -> bool {
    &&& r.name_id_type.name_id.name@ == person.name@
    &&& r.name_id_type.name_id.id@ == id_text(IdKind::People, person.id as int)
    &&& r.name_id_type.item_type@ == "Person"@
    &&& r.server_id@ == server_id
    &&& pairs(r.provider_ids@) == provider_entry("Tmdb"@, opt(person.tmdb_id))
    &&& opt(r.image_tags.primary) == opt_id_text(IdKind::Image, primary_image_id)
    &&& r.primary_image_aspect_ratio == POSTER_ASPECT
    &&& r.date_created@ == person.created_at@
    &&& r.date_modified@ == person.updated_at@
    &&& opt(r.premiere_date) == opt(person.birthday)
    &&& r.production_year == year_or_zero_of(opt(person.birthday))
    &&& opt(r.overview) == opt(person.description)
}

/// The object of a person carries the person's name, identifier, portrait and
/// description; the birthday stands where a film has its date.
pub proof fn law_person_object(
    r: PersonDetailDto,
    server_id: Seq<char>,
    person: PersonRow,
    primary_image_id: Option<i64>,
)
    requires
        shows_person(r, server_id, person, primary_image_id),
    ensures
        r.name_id_type.name_id.name@ == person.name@,
        r.name_id_type.name_id.id@ == id_text(IdKind::People, person.id as int),
        r.name_id_type.item_type@ == "Person"@,
        r.server_id@ == server_id,
        opt(r.overview) == opt(person.description),
        opt(r.premiere_date) == opt(person.birthday),
        person.birthday is None ==> r.production_year is None,
        r.date_created@ == person.created_at@,
        r.date_modified@ == person.updated_at@,
        opt(r.image_tags.primary) == opt_id_text(IdKind::Image, primary_image_id),
        r.primary_image_aspect_ratio == 666_667,
        person.tmdb_id is Some && person.tmdb_id->0@.len() > 0 ==> pairs(r.provider_ids@) == seq![
            ("Tmdb"@, person.tmdb_id->0@),
        ],
        person.tmdb_id is None ==> r.provider_ids@.len() == 0,
{
    assert(pairs(r.provider_ids@).len() == r.provider_ids@.len());
}

} // verus!
