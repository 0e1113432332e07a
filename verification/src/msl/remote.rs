//! Listings of the raw-image service: the camera families, what a query
//! sends, and which images of an answer are listed.

use vstd::prelude::*;
use vstd::string::to_string_from_display_ensures;
use vstd::string::StringExecFns;
use crate::msl::metadata::ImageRecord;
use crate::remotequery::RemoteQuery;
use crate::text::{contains, decimal, decimal_text, join, joined, occurs_in, texts_of};
use crate::util::{stringvec, stringvec_b, InstrumentMap};

verus! {

/// Where a listing stands: whether more pages follow, the number of images in
/// all, the page at hand and the number of images on a page.
#[derive(Debug, Clone)]
pub struct MslRemoteStats {
    pub more: bool,
    pub total: i32,
    pub page: i32,
    pub per_page: i32,
}

/// The text of an optional value: empty when there is none, else the value as
/// it displays.
pub fn null_to_str<T: core::fmt::Display>(o: &Option<T>) -> (text: String)
    ensures
        o is None ==> text@ == Seq::<char>::empty(),
        o matches Some(v) ==> to_string_from_display_ensures::<T>(&v, text),
{
    match o {
        None => String::new(),
        Some(v) => v.to_string(),
    }
}

/// The camera families of the rover and the names of their cameras.
pub open spec fn msl_instruments() -> Seq<(Seq<char>, Seq<Seq<char>>)> {
    seq![
        ("HAZ_FRONT"@, seq!["FHAZ_RIGHT_A"@, "FHAZ_LEFT_A"@, "FHAZ_RIGHT_B"@, "FHAZ_LEFT_B"@]),
        ("HAZ_REAR"@, seq!["RHAZ_RIGHT_A"@, "RHAZ_LEFT_A"@, "RHAZ_RIGHT_B"@, "RHAZ_LEFT_B"@]),
        ("NAV_LEFT"@, seq!["NAV_LEFT_A"@, "NAV_LEFT_B"@]),
        ("NAV_RIGHT"@, seq!["NAV_RIGHT_A"@, "NAV_RIGHT_B"@]),
        ("CHEMCAM"@, seq!["CHEMCAM_RMI"@]),
        ("MARDI"@, seq!["MARDI"@]),
        ("MAHLI"@, seq!["MAHLI"@]),
        ("MASTCAM"@, seq!["MAST_LEFT"@, "MAST_RIGHT"@]),
    ]
}

/// The eight camera families are told apart by their names.
proof fn lemma_msl_families_differ()
    ensures
        forall|i: int, j: int|
            0 <= i < j < msl_instruments().len() ==> msl_instruments()[i].0
                != msl_instruments()[j].0,
{
    reveal_strlit("HAZ_FRONT");
    reveal_strlit("HAZ_REAR");
    reveal_strlit("NAV_LEFT");
    reveal_strlit("NAV_RIGHT");
    reveal_strlit("CHEMCAM");
    reveal_strlit("MARDI");
    reveal_strlit("MAHLI");
    reveal_strlit("MASTCAM");
    let m = msl_instruments();
    assert(m[0].0[4] == 'F');
    assert(m[1].0[4] == 'R');
    assert(m[2].0[4] == 'L');
    assert(m[3].0[4] == 'R');
    assert(m[1].0[0] == 'H');
    assert(m[3].0[0] == 'N');
    assert(m[4].0[0] == 'C');
    assert(m[5].0[2] == 'R');
    assert(m[6].0[2] == 'H');
    assert(m[7].0[2] == 'S');
    assert(m[5].0.len() == 5);
    assert(m[6].0.len() == 5);
    assert(m[7].0.len() == 7);
    assert(m[4].0.len() == 7);
    assert(m[0].0.len() == 9);
    assert(m[1].0.len() == 8);
    assert(m[2].0.len() == 8);
    assert(m[3].0.len() == 9);
}

/// Makes the map of the camera families of the rover.
pub fn make_instrument_map() -> (instruments: InstrumentMap)
    ensures
        instruments@ == msl_instruments(),
        instruments.wf(),
{
    let mut map: Vec<(&'static str, Vec<&'static str>)> = Vec::new();
    map.push(("HAZ_FRONT", vec!["FHAZ_RIGHT_A", "FHAZ_LEFT_A", "FHAZ_RIGHT_B", "FHAZ_LEFT_B"]));
    map.push(("HAZ_REAR", vec!["RHAZ_RIGHT_A", "RHAZ_LEFT_A", "RHAZ_RIGHT_B", "RHAZ_LEFT_B"]));
    map.push(("NAV_LEFT", vec!["NAV_LEFT_A", "NAV_LEFT_B"]));
    map.push(("NAV_RIGHT", vec!["NAV_RIGHT_A", "NAV_RIGHT_B"]));
    map.push(("CHEMCAM", vec!["CHEMCAM_RMI"]));
    map.push(("MARDI", vec!["MARDI"]));
    map.push(("MAHLI", vec!["MAHLI"]));
    map.push(("MASTCAM", vec!["MAST_LEFT", "MAST_RIGHT"]));
    let instruments = InstrumentMap { map };
    proof {
        let want = msl_instruments();
        assert(instruments@.len() == want.len());
        assert forall|i: int| 0 <= i < want.len() implies instruments@[i] == want[i] by {
            assert(instruments@[i].1 =~= want[i].1);
        }
        assert(instruments@ =~= want);
        lemma_msl_families_differ();
    }
    instruments
}

/// Whether one of `search` stands in `imageid`.
pub open spec fn matches_search(imageid: Seq<char>, search: Seq<String>) -> bool {
    exists|k: int| 0 <= k < search.len() && occurs_in(#[trigger] search[k]@, imageid)
}

/// Whether `query` lists `image`: a thumbnail only where thumbnails are asked
/// for, and, where the query names search texts, only an image whose
/// identifier holds one of them.
pub open spec fn is_listed(image: ImageRecord, query: RemoteQuery) -> bool {
    &&& !(image.is_thumbnail && !query.thumbnails)
    &&& query.search@.len() == 0 || matches_search(image.imageid@, query.search@)
}

/// Tells whether `query` lists `image`.
pub fn lists_image(image: &ImageRecord, query: &RemoteQuery) -> (listed: bool)
    ensures
        listed == is_listed(*image, *query),
{
    if image.is_thumbnail && !query.thumbnails {
        return false;
    }
    if query.search.len() == 0 {
        return true;
    }
    let mut k: usize = 0;
    while k < query.search.len()
        invariant
            k <= query.search.len(),
            !(image.is_thumbnail && !query.thumbnails),
            forall|j: int| 0 <= j < k ==> !occurs_in(#[trigger] query.search@[j]@, image.imageid@),
        decreases query.search.len() - k,
    {
        if contains(image.imageid.as_str(), query.search[k].as_str()) {
            assert(occurs_in(query.search@[k as int]@, image.imageid@));
            return true;
        }
        k += 1;
    }
    false
}

/// The images of an answer that a query lists, and the count that the
/// listing reports.
#[derive(Debug)]
pub struct Listing {
    /// Positions, in the answer, of the images that are listed, in order.
    pub images: Vec<usize>,
    /// The position, among the listed images, of the last one; zero when
    /// nothing is listed.
    pub valid_img_count: usize,
}

/// The count that a listing of `listed` images reports.
pub open spec fn reported_count(listed: nat) -> nat {
    if listed == 0 {
        0
    } else {
        (listed - 1) as nat
    }
}

/// Picks from `results` the images that `query` lists, in the order of the
/// answer, and counts them as the listing reports them.
pub fn process_results(results: &Vec<ImageRecord>, query: &RemoteQuery) -> (listing: Listing)
    ensures
        forall|k: int|
            0 <= k < listing.images@.len() ==> (#[trigger] listing.images@[k]) < results@.len()
                && is_listed(results@[listing.images@[k] as int], *query),
        forall|j: int, k: int|
            0 <= j < k < listing.images@.len() ==> listing.images@[j] < listing.images@[k],
        forall|i: int|
            0 <= i < results@.len() && is_listed(#[trigger] results@[i], *query)
                ==> listing.images@.contains(i as usize),
        listing.valid_img_count == reported_count(listing.images@.len()),
{
    let mut images: Vec<usize> = Vec::new();
    let mut i: usize = 0;
    while i < results.len()
        invariant
            i <= results.len(),
            forall|k: int|
                0 <= k < images@.len() ==> (#[trigger] images@[k]) < i && is_listed(
                    results@[images@[k] as int],
                    *query,
                ),
            forall|j: int, k: int| 0 <= j < k < images@.len() ==> images@[j] < images@[k],
            forall|n: int|
                0 <= n < i && is_listed(#[trigger] results@[n], *query) ==> images@.contains(
                    n as usize,
                ),
        decreases results.len() - i,
    {
        if lists_image(&results[i], query) {
            let ghost before = images@;
            images.push(i);
            assert(images@[before.len() as int] == i);
            assert forall|n: int|
                0 <= n < i + 1 && is_listed(#[trigger] results@[n], *query) implies images@.contains(
                n as usize,
            ) by {
                if n < i {
                    let at = choose|at: int| 0 <= at < before.len() && before[at] == n as usize;
                    assert(images@[at] == n as usize);
                }
            }
        }
        i += 1;
    }
    let valid_img_count = if images.len() == 0 {
        0
    } else {
        images.len() - 1
    };
    Listing { images, valid_img_count }
}

/// The text of each string of each row.
pub open spec fn rows_of(rows: Seq<Vec<String>>) -> Seq<Seq<Seq<char>>> {
    Seq::new(rows.len(), |i: int| texts_of(rows[i]@))
}

/// The parameters that a query sends to the service, each a name and a
/// value: the mission, the page size, the order of the answer, the cameras
/// joined by `|`, the first and the last sol, and the page where one is asked
/// for.
pub open spec fn query_params_of(query: RemoteQuery) -> Seq<Seq<Seq<char>>> {
    let fixed = seq![
        seq!["condition_1"@, "msl:mission"@],
        seq!["per_page"@, decimal(query.num_per_page as int)],
        seq![
            "order"@,
            "sol desc,instrument_sort asc,sample_type_sort asc, date_taken desc"@,
        ],
        seq!["search"@, joined(texts_of(query.cameras@), "|"@)],
        seq!["condition_2"@, decimal(query.minsol as int) + ":sol:gte"@],
        seq!["condition_3"@, decimal(query.maxsol as int) + ":sol:lte"@],
    ];
    match query.page {
        Some(p) => fixed.push(seq!["page"@, decimal(p as int)]),
        None => fixed,
    }
}

/// Makes the parameters that `query` sends to the service.
pub fn query_params(query: &RemoteQuery) -> (params: Vec<Vec<String>>)
    ensures
        rows_of(params@) == query_params_of(*query),
{
    let mut params: Vec<Vec<String>> = Vec::new();
    params.push(stringvec("condition_1", "msl:mission"));
    params.push(stringvec_b("per_page", decimal_text(query.num_per_page)));
    params.push(
        stringvec(
            "order",
            "sol desc,instrument_sort asc,sample_type_sort asc, date_taken desc",
        ),
    );
    params.push(stringvec_b("search", join(&query.cameras, "|")));
    params.push(stringvec_b("condition_2", decimal_text(query.minsol).concat(":sol:gte")));
    params.push(stringvec_b("condition_3", decimal_text(query.maxsol).concat(":sol:lte")));
    if let Some(p) = query.page {
        params.push(stringvec_b("page", decimal_text(p)));
    }
    proof {
        let want = query_params_of(*query);
        let got = rows_of(params@);
        assert(got.len() == want.len());
        assert forall|i: int| 0 <= i < want.len() implies got[i] == want[i] by {
            assert(got[i] =~= want[i]);
        }
        assert(got =~= want);
    }
    params
}

} // verus!
