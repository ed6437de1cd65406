use vstd::prelude::*;

verus! {

/// A WGS84 coordinate, in units of 1e-7 degrees.
#[derive(Clone, Copy, Debug, PartialEq, Eq, Structural)]
pub struct Coord {
    pub lat_e7: i32,
    pub lon_e7: i32,
}

/// One photo of the catalog, as the catalog service describes it.
#[derive(Debug, PartialEq)]
pub struct Image {
    pub id: usize,
    pub url_large: String,
    pub url_medium: String,
    pub url_small: String,
    /// Content digest of the image bytes, used as the favorite key.
    pub sha256: String,
    /// Opaque, never parsed.
    pub timestamp: String,
    pub coord: Coord,
    /// May be empty.
    pub city: String,
    pub country: String,
}

impl Clone for Image {
    fn clone(&self) -> (r: Image)
        ensures
            r == *self,
    {
        Image {
            id: self.id,
            url_large: self.url_large.clone(),
            url_medium: self.url_medium.clone(),
            url_small: self.url_small.clone(),
            sha256: self.sha256.clone(),
            timestamp: self.timestamp.clone(),
            coord: self.coord,
            city: self.city.clone(),
            country: self.country.clone(),
        }
    }
}

/// The place label of a city and a country: `"{city}, {country}"`, or the
/// country alone when the city is empty.
pub open spec fn location_label(city: Seq<char>, country: Seq<char>) -> Seq<char> {
    if city.len() == 0 {
        country
    } else {
        city + seq![',', ' '] + country
    }
}

/// The place label of a photo.
pub open spec fn label_of(image: Image) -> Seq<char> {
    location_label(image.city@, image.country@)
}

/// Computes the place label of a photo.
pub fn format_location(image: &Image) -> (r: String)
    ensures
        r@ == label_of(*image),
{
    if image.city.as_str().unicode_len() == 0 {
        image.country.clone()
    } else {
        let sep = ", ";
        proof {
            reveal_strlit(", ");
        }
        let r = image.city.clone().concat(sep).concat(image.country.as_str());
        assert(r@ =~= label_of(*image));
        r
    }
}

} // verus!
