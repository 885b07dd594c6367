//! Film data contracts: the typed request and response aggregates of the
//! film endpoint family, and the query-string serialization of the film
//! list request.

use vstd::prelude::*;

use crate::defs::{
    ContributionType, ContributorSummary, Country, Cursor, Image, IncludeFriends,
    MemberFilmRelationship, Service,
};
use crate::encode::{dec_of, dec_string, string_pair_views};
use crate::error::Error;
use crate::json::{
    lookup_string, parse_json_object, spec_parse_object, spec_string_member,
};
use crate::text::{ascii_chars_of, str_eq};
use vstd::string::StringExecFns;
use vstd::utf8::encode_utf8;

verus! {

/// A streaming service a film may be available on.
#[derive(Debug, Clone, Copy, PartialEq, Eq, Structural)]
pub enum FilmAvailabilityService {
    Amazon,
    AmazonVideo,
    AmazonPrime,
    Itunes,
    Netflix,
}

/// Availability of a film on one service in one country.
#[derive(Debug, Clone, PartialEq, Eq)]
pub struct FilmAvailability {
    /// The service.
    pub service: FilmAvailabilityService,
    /// The service's display name.
    pub display_name: String,
    /// The regional store for the service.
    pub country: Country,
    /// The unique ID, if any, for the film on the store.
    pub id: String,
    /// The fully qualified URL for the film on this store.
    pub url: String,
}

/// The stores where a film is available.
#[derive(Debug, Clone, PartialEq, Eq)]
pub struct FilmAvailabilityResponse {
    /// The stores, in order of preference.
    pub items: Option<Vec<FilmAvailability>>,
}

/// Contributors of one discipline for a film.
#[derive(Debug, Clone, PartialEq, Eq)]
pub struct FilmContributions {
    /// The discipline.
    pub contribution_type: Option<ContributionType>,
    /// The contributors of that discipline.
    pub contributors: Vec<ContributorSummary>,
}

/// A film-list filter on status.
#[derive(Debug, Clone, Copy, PartialEq, Eq, Structural)]
pub enum FilmStatus {
    Released,
    NotReleased,
    InWatchlist,
    NotInWatchlist,
    Watched,
    NotWatched,
    FeatureLength,
    NotFeatureLength,
}

/// A member's possible relationships to a film.
#[derive(Debug, Clone, Copy, PartialEq, Eq, Structural)]
pub enum FilmRelationshipType {
    Watched,
    NotWatched,
    Liked,
    NotLiked,
    InWatchlist,
    NotInWatchlist,
    Favorited,
}

/// The identifier of a film.
#[derive(Debug, Clone, PartialEq, Eq)]
pub struct FilmIdentifier {
    /// The LID of the film.
    pub id: String,
}

/// The message code of a film relationship update.
#[derive(Debug, Clone, Copy, PartialEq, Eq, Structural)]
pub enum FilmRelationshipUpdateMessageCode {
    InvalidRatingValue,
    UnableToRemoveWatch,
}

/// A message returned by a film relationship update.
#[derive(Debug, Clone, PartialEq, Eq)]
pub enum FilmRelationshipUpdateMessage {
    /// An error message.
    Error {
        /// The error message code.
        code: FilmRelationshipUpdateMessageCode,
        /// The error message text in human-readable form.
        title: String,
    },
}

/// The services supported by the film list endpoint.
#[derive(Debug, Clone, PartialEq, Eq)]
pub struct FilmServicesResponse {
    /// The services, in alphabetical order.
    pub items: Vec<Service>,
}

/// Counts of member activity for a film.
#[derive(Debug, Clone, Copy, PartialEq, Eq, Structural)]
pub struct FilmStatisticsCounts {
    /// Members who have watched the film.
    pub watches: usize,
    /// Members who have liked the film.
    pub likes: usize,
    /// Members who have rated the film.
    pub ratings: usize,
    /// Members with the film among their four favorites.
    pub fans: usize,
    /// Lists in which the film appears.
    pub lists: usize,
    /// Reviews for the film.
    pub reviews: usize,
}

/// A film, in summary form.
#[derive(Debug, Clone, PartialEq, Eq)]
pub struct FilmSummary {
    /// The LID of the film.
    pub id: String,
    /// The title of the film.
    pub name: String,
    /// The original title, when first released under a non-English one.
    pub original_name: Option<String>,
    /// Other names the film is known by.
    pub alternative_names: Option<Vec<String>>,
    /// The year the film was first released.
    pub release_year: Option<u16>,
    /// The directors of the film.
    pub directors: Vec<ContributorSummary>,
    /// The film's poster image.
    pub poster: Option<Image>,
    /// Relationships to the film for relevant members.
    pub relationships: Vec<MemberFilmRelationship>,
}

/// A film's trailer.
#[derive(Debug, Clone, PartialEq, Eq)]
pub struct FilmTrailer {
    /// The YouTube ID of the trailer.
    pub id: String,
    /// The YouTube URL of the trailer.
    pub url: String,
}

/// The sort orders of the film list.
#[derive(Debug, Clone, Copy, PartialEq, Eq, Structural)]
pub enum FilmRequestSort {
    FilmName,
    ReleaseDateLatestFirst,
    ReleaseDateEarliestFirst,
    RatingHighToLow,
    RatingLowToHigh,
    FilmDurationShortestFirst,
    FilmDurationLongestFirst,
    FilmPopularity,
    FilmPopularityThisWeek,
    FilmPopularityThisMonth,
    FilmPopularityThisYear,
    FilmPopularityWithFriends,
    FilmPopularityWithFriendsThisWeek,
    FilmPopularityWithFriendsThisMonth,
    FilmPopularityWithFriendsThisYear,
}

/// One page of the film list.
#[derive(Debug, Clone, PartialEq, Eq)]
pub struct FilmsResponse {
    /// The cursor to the next page of results.
    pub next: Option<Cursor>,
    /// The films of this page.
    pub items: Vec<FilmSummary>,
}

/// A genre.
#[derive(Debug, Clone, PartialEq, Eq)]
pub struct Genre {
    /// The LID of the genre.
    pub id: String,
    /// The name of the genre.
    pub name: String,
}

/// The genres supported by the film list endpoint.
#[derive(Debug, Clone, PartialEq, Eq)]
pub struct GenresResponse {
    /// The genres, in alphabetical order.
    pub items: Vec<Genre>,
}

// ---------------------------------------------------------------------------
// Wire names of the filter enumerations
// ---------------------------------------------------------------------------

impl FilmStatus {
    /// The value carried in the query string.
    pub open spec fn spec_name(self) -> Seq<char> {
        match self {
            FilmStatus::Released => "Released"@,
            FilmStatus::NotReleased => "NotReleased"@,
            FilmStatus::InWatchlist => "InWatchlist"@,
            FilmStatus::NotInWatchlist => "NotInWatchlist"@,
            FilmStatus::Watched => "Watched"@,
            FilmStatus::NotWatched => "NotWatched"@,
            FilmStatus::FeatureLength => "FeatureLength"@,
            FilmStatus::NotFeatureLength => "NotFeatureLength"@,
        }
    }

    /// The status carried by a query value, when any.
    pub open spec fn spec_parse(s: Seq<char>) -> Option<FilmStatus> {
        if s == "Released"@ {
            Some(FilmStatus::Released)
        } else if s == "NotReleased"@ {
            Some(FilmStatus::NotReleased)
        } else if s == "InWatchlist"@ {
            Some(FilmStatus::InWatchlist)
        } else if s == "NotInWatchlist"@ {
            Some(FilmStatus::NotInWatchlist)
        } else if s == "Watched"@ {
            Some(FilmStatus::Watched)
        } else if s == "NotWatched"@ {
            Some(FilmStatus::NotWatched)
        } else if s == "FeatureLength"@ {
            Some(FilmStatus::FeatureLength)
        } else if s == "NotFeatureLength"@ {
            Some(FilmStatus::NotFeatureLength)
        } else {
            None
        }
    }

    /// The value carried in the query string.
    pub fn as_str(&self) -> (r: &'static str)
        ensures
            r@ == self.spec_name(),
    {
        match self {
            FilmStatus::Released => "Released",
            FilmStatus::NotReleased => "NotReleased",
            FilmStatus::InWatchlist => "InWatchlist",
            FilmStatus::NotInWatchlist => "NotInWatchlist",
            FilmStatus::Watched => "Watched",
            FilmStatus::NotWatched => "NotWatched",
            FilmStatus::FeatureLength => "FeatureLength",
            FilmStatus::NotFeatureLength => "NotFeatureLength",
        }
    }

    /// Reads a status back off a query value.
    pub fn from_str(s: &str) -> (r: Option<FilmStatus>)
        ensures
            r == FilmStatus::spec_parse(s@),
    {
        if str_eq(s, "Released") {
            Some(FilmStatus::Released)
        } else if str_eq(s, "NotReleased") {
            Some(FilmStatus::NotReleased)
        } else if str_eq(s, "InWatchlist") {
            Some(FilmStatus::InWatchlist)
        } else if str_eq(s, "NotInWatchlist") {
            Some(FilmStatus::NotInWatchlist)
        } else if str_eq(s, "Watched") {
            Some(FilmStatus::Watched)
        } else if str_eq(s, "NotWatched") {
            Some(FilmStatus::NotWatched)
        } else if str_eq(s, "FeatureLength") {
            Some(FilmStatus::FeatureLength)
        } else if str_eq(s, "NotFeatureLength") {
            Some(FilmStatus::NotFeatureLength)
        } else {
            None
        }
    }
}

/// A status name always reads back as the status it names.
pub proof fn lemma_film_status_round_trip(v: FilmStatus)
    ensures
        FilmStatus::spec_parse(v.spec_name()) == Some(v),
{
    broadcast use vstd::string::group_string_axioms;

    reveal_strlit("Released");
    reveal_strlit("NotReleased");
    reveal_strlit("InWatchlist");
    reveal_strlit("NotInWatchlist");
    reveal_strlit("Watched");
    reveal_strlit("NotWatched");
    reveal_strlit("FeatureLength");
    reveal_strlit("NotFeatureLength");
    assert("Released"@.len() == 8);
    assert("NotReleased"@.len() == 11);
    assert("InWatchlist"@.len() == 11);
    assert("NotInWatchlist"@.len() == 14);
    assert("Watched"@.len() == 7);
    assert("NotWatched"@.len() == 10);
    assert("FeatureLength"@.len() == 13);
    assert("NotFeatureLength"@.len() == 16);
    assert("NotReleased"@[0] == 'N');
    assert("InWatchlist"@[0] == 'I');
}

impl FilmRelationshipType {
    /// The value carried in the query string.
    pub open spec fn spec_name(self) -> Seq<char> {
        match self {
            FilmRelationshipType::Watched => "Watched"@,
            FilmRelationshipType::NotWatched => "NotWatched"@,
            FilmRelationshipType::Liked => "Liked"@,
            FilmRelationshipType::NotLiked => "NotLiked"@,
            FilmRelationshipType::InWatchlist => "InWatchlist"@,
            FilmRelationshipType::NotInWatchlist => "NotInWatchlist"@,
            FilmRelationshipType::Favorited => "Favorited"@,
        }
    }

    /// The relationship carried by a query value, when any.
    pub open spec fn spec_parse(s: Seq<char>) -> Option<FilmRelationshipType> {
        if s == "Watched"@ {
            Some(FilmRelationshipType::Watched)
        } else if s == "NotWatched"@ {
            Some(FilmRelationshipType::NotWatched)
        } else if s == "Liked"@ {
            Some(FilmRelationshipType::Liked)
        } else if s == "NotLiked"@ {
            Some(FilmRelationshipType::NotLiked)
        } else if s == "InWatchlist"@ {
            Some(FilmRelationshipType::InWatchlist)
        } else if s == "NotInWatchlist"@ {
            Some(FilmRelationshipType::NotInWatchlist)
        } else if s == "Favorited"@ {
            Some(FilmRelationshipType::Favorited)
        } else {
            None
        }
    }

    /// The value carried in the query string.
    pub fn as_str(&self) -> (r: &'static str)
        ensures
            r@ == self.spec_name(),
    {
        match self {
            FilmRelationshipType::Watched => "Watched",
            FilmRelationshipType::NotWatched => "NotWatched",
            FilmRelationshipType::Liked => "Liked",
            FilmRelationshipType::NotLiked => "NotLiked",
            FilmRelationshipType::InWatchlist => "InWatchlist",
            FilmRelationshipType::NotInWatchlist => "NotInWatchlist",
            FilmRelationshipType::Favorited => "Favorited",
        }
    }

    /// Reads a relationship back off a query value.
    pub fn from_str(s: &str) -> (r: Option<FilmRelationshipType>)
        ensures
            r == FilmRelationshipType::spec_parse(s@),
    {
        if str_eq(s, "Watched") {
            Some(FilmRelationshipType::Watched)
        } else if str_eq(s, "NotWatched") {
            Some(FilmRelationshipType::NotWatched)
        } else if str_eq(s, "Liked") {
            Some(FilmRelationshipType::Liked)
        } else if str_eq(s, "NotLiked") {
            Some(FilmRelationshipType::NotLiked)
        } else if str_eq(s, "InWatchlist") {
            Some(FilmRelationshipType::InWatchlist)
        } else if str_eq(s, "NotInWatchlist") {
            Some(FilmRelationshipType::NotInWatchlist)
        } else if str_eq(s, "Favorited") {
            Some(FilmRelationshipType::Favorited)
        } else {
            None
        }
    }
}

/// A relationship name always reads back as the relationship it names.
pub proof fn lemma_film_relationship_type_round_trip(v: FilmRelationshipType)
    ensures
        FilmRelationshipType::spec_parse(v.spec_name()) == Some(v),
{
    broadcast use vstd::string::group_string_axioms;

    reveal_strlit("Watched");
    reveal_strlit("NotWatched");
    reveal_strlit("Liked");
    reveal_strlit("NotLiked");
    reveal_strlit("InWatchlist");
    reveal_strlit("NotInWatchlist");
    reveal_strlit("Favorited");
    assert("Watched"@.len() == 7);
    assert("NotWatched"@.len() == 10);
    assert("Liked"@.len() == 5);
    assert("NotLiked"@.len() == 8);
    assert("InWatchlist"@.len() == 11);
    assert("NotInWatchlist"@.len() == 14);
    assert("Favorited"@.len() == 9);
}

impl FilmRequestSort {
    /// The value carried in the query string.
    pub open spec fn spec_name(self) -> Seq<char> {
        match self {
            FilmRequestSort::FilmName => "FilmName"@,
            FilmRequestSort::ReleaseDateLatestFirst => "ReleaseDateLatestFirst"@,
            FilmRequestSort::ReleaseDateEarliestFirst => "ReleaseDateEarliestFirst"@,
            FilmRequestSort::RatingHighToLow => "RatingHighToLow"@,
            FilmRequestSort::RatingLowToHigh => "RatingLowToHigh"@,
            FilmRequestSort::FilmDurationShortestFirst => "FilmDurationShortestFirst"@,
            FilmRequestSort::FilmDurationLongestFirst => "FilmDurationLongestFirst"@,
            FilmRequestSort::FilmPopularity => "FilmPopularity"@,
            FilmRequestSort::FilmPopularityThisWeek => "FilmPopularityThisWeek"@,
            FilmRequestSort::FilmPopularityThisMonth => "FilmPopularityThisMonth"@,
            FilmRequestSort::FilmPopularityThisYear => "FilmPopularityThisYear"@,
            FilmRequestSort::FilmPopularityWithFriends => "FilmPopularityWithFriends"@,
            FilmRequestSort::FilmPopularityWithFriendsThisWeek => "FilmPopularityWithFriendsThisWeek"@,
            FilmRequestSort::FilmPopularityWithFriendsThisMonth => "FilmPopularityWithFriendsThisMonth"@,
            FilmRequestSort::FilmPopularityWithFriendsThisYear => "FilmPopularityWithFriendsThisYear"@,
        }
    }

    /// The sort order carried by a query value, when any.
    pub open spec fn spec_parse(s: Seq<char>) -> Option<FilmRequestSort> {
        if s == "FilmName"@ {
            Some(FilmRequestSort::FilmName)
        } else if s == "ReleaseDateLatestFirst"@ {
            Some(FilmRequestSort::ReleaseDateLatestFirst)
        } else if s == "ReleaseDateEarliestFirst"@ {
            Some(FilmRequestSort::ReleaseDateEarliestFirst)
        } else if s == "RatingHighToLow"@ {
            Some(FilmRequestSort::RatingHighToLow)
        } else if s == "RatingLowToHigh"@ {
            Some(FilmRequestSort::RatingLowToHigh)
        } else if s == "FilmDurationShortestFirst"@ {
            Some(FilmRequestSort::FilmDurationShortestFirst)
        } else if s == "FilmDurationLongestFirst"@ {
            Some(FilmRequestSort::FilmDurationLongestFirst)
        } else if s == "FilmPopularity"@ {
            Some(FilmRequestSort::FilmPopularity)
        } else if s == "FilmPopularityThisWeek"@ {
            Some(FilmRequestSort::FilmPopularityThisWeek)
        } else if s == "FilmPopularityThisMonth"@ {
            Some(FilmRequestSort::FilmPopularityThisMonth)
        } else if s == "FilmPopularityThisYear"@ {
            Some(FilmRequestSort::FilmPopularityThisYear)
        } else if s == "FilmPopularityWithFriends"@ {
            Some(FilmRequestSort::FilmPopularityWithFriends)
        } else if s == "FilmPopularityWithFriendsThisWeek"@ {
            Some(FilmRequestSort::FilmPopularityWithFriendsThisWeek)
        } else if s == "FilmPopularityWithFriendsThisMonth"@ {
            Some(FilmRequestSort::FilmPopularityWithFriendsThisMonth)
        } else if s == "FilmPopularityWithFriendsThisYear"@ {
            Some(FilmRequestSort::FilmPopularityWithFriendsThisYear)
        } else {
            None
        }
    }

    /// The value carried in the query string.
    pub fn as_str(&self) -> (r: &'static str)
        ensures
            r@ == self.spec_name(),
    {
        match self {
            FilmRequestSort::FilmName => "FilmName",
            FilmRequestSort::ReleaseDateLatestFirst => "ReleaseDateLatestFirst",
            FilmRequestSort::ReleaseDateEarliestFirst => "ReleaseDateEarliestFirst",
            FilmRequestSort::RatingHighToLow => "RatingHighToLow",
            FilmRequestSort::RatingLowToHigh => "RatingLowToHigh",
            FilmRequestSort::FilmDurationShortestFirst => "FilmDurationShortestFirst",
            FilmRequestSort::FilmDurationLongestFirst => "FilmDurationLongestFirst",
            FilmRequestSort::FilmPopularity => "FilmPopularity",
            FilmRequestSort::FilmPopularityThisWeek => "FilmPopularityThisWeek",
            FilmRequestSort::FilmPopularityThisMonth => "FilmPopularityThisMonth",
            FilmRequestSort::FilmPopularityThisYear => "FilmPopularityThisYear",
            FilmRequestSort::FilmPopularityWithFriends => "FilmPopularityWithFriends",
            FilmRequestSort::FilmPopularityWithFriendsThisWeek => "FilmPopularityWithFriendsThisWeek",
            FilmRequestSort::FilmPopularityWithFriendsThisMonth => "FilmPopularityWithFriendsThisMonth",
            FilmRequestSort::FilmPopularityWithFriendsThisYear => "FilmPopularityWithFriendsThisYear",
        }
    }

    /// Reads a sort order back off a query value.
    pub fn from_str(s: &str) -> (r: Option<FilmRequestSort>)
        ensures
            r == FilmRequestSort::spec_parse(s@),
    {
        if str_eq(s, "FilmName") {
            Some(FilmRequestSort::FilmName)
        } else if str_eq(s, "ReleaseDateLatestFirst") {
            Some(FilmRequestSort::ReleaseDateLatestFirst)
        } else if str_eq(s, "ReleaseDateEarliestFirst") {
            Some(FilmRequestSort::ReleaseDateEarliestFirst)
        } else if str_eq(s, "RatingHighToLow") {
            Some(FilmRequestSort::RatingHighToLow)
        } else if str_eq(s, "RatingLowToHigh") {
            Some(FilmRequestSort::RatingLowToHigh)
        } else if str_eq(s, "FilmDurationShortestFirst") {
            Some(FilmRequestSort::FilmDurationShortestFirst)
        } else if str_eq(s, "FilmDurationLongestFirst") {
            Some(FilmRequestSort::FilmDurationLongestFirst)
        } else if str_eq(s, "FilmPopularity") {
            Some(FilmRequestSort::FilmPopularity)
        } else if str_eq(s, "FilmPopularityThisWeek") {
            Some(FilmRequestSort::FilmPopularityThisWeek)
        } else if str_eq(s, "FilmPopularityThisMonth") {
            Some(FilmRequestSort::FilmPopularityThisMonth)
        } else if str_eq(s, "FilmPopularityThisYear") {
            Some(FilmRequestSort::FilmPopularityThisYear)
        } else if str_eq(s, "FilmPopularityWithFriends") {
            Some(FilmRequestSort::FilmPopularityWithFriends)
        } else if str_eq(s, "FilmPopularityWithFriendsThisWeek") {
            Some(FilmRequestSort::FilmPopularityWithFriendsThisWeek)
        } else if str_eq(s, "FilmPopularityWithFriendsThisMonth") {
            Some(FilmRequestSort::FilmPopularityWithFriendsThisMonth)
        } else if str_eq(s, "FilmPopularityWithFriendsThisYear") {
            Some(FilmRequestSort::FilmPopularityWithFriendsThisYear)
        } else {
            None
        }
    }
}

/// A sort-order name always reads back as the order it names.
pub proof fn lemma_film_request_sort_round_trip(v: FilmRequestSort)
    ensures
        FilmRequestSort::spec_parse(v.spec_name()) == Some(v),
{
    broadcast use vstd::string::group_string_axioms;

    reveal_strlit("FilmName");
    reveal_strlit("ReleaseDateLatestFirst");
    reveal_strlit("ReleaseDateEarliestFirst");
    reveal_strlit("RatingHighToLow");
    reveal_strlit("RatingLowToHigh");
    reveal_strlit("FilmDurationShortestFirst");
    reveal_strlit("FilmDurationLongestFirst");
    reveal_strlit("FilmPopularity");
    reveal_strlit("FilmPopularityThisWeek");
    reveal_strlit("FilmPopularityThisMonth");
    reveal_strlit("FilmPopularityThisYear");
    reveal_strlit("FilmPopularityWithFriends");
    reveal_strlit("FilmPopularityWithFriendsThisWeek");
    reveal_strlit("FilmPopularityWithFriendsThisMonth");
    reveal_strlit("FilmPopularityWithFriendsThisYear");
    assert("FilmName"@.len() == 8);
    assert("ReleaseDateLatestFirst"@.len() == 22);
    assert("ReleaseDateEarliestFirst"@.len() == 24);
    assert("RatingHighToLow"@.len() == 15);
    assert("RatingLowToHigh"@.len() == 15);
    assert("FilmDurationShortestFirst"@.len() == 25);
    assert("FilmDurationLongestFirst"@.len() == 24);
    assert("FilmPopularity"@.len() == 14);
    assert("FilmPopularityThisWeek"@.len() == 22);
    assert("FilmPopularityThisMonth"@.len() == 23);
    assert("FilmPopularityThisYear"@.len() == 22);
    assert("FilmPopularityWithFriends"@.len() == 25);
    assert("FilmPopularityWithFriendsThisWeek"@.len() == 33);
    assert("FilmPopularityWithFriendsThisMonth"@.len() == 34);
    assert("FilmPopularityWithFriendsThisYear"@.len() == 33);
    assert("ReleaseDateLatestFirst"@[0] == 'R');
    assert("ReleaseDateEarliestFirst"@[0] == 'R');
    assert("RatingHighToLow"@[6] == 'H');
    assert("RatingLowToHigh"@[6] == 'L');
    assert("FilmDurationShortestFirst"@[4] == 'D');
    assert("FilmDurationLongestFirst"@[4] == 'D');
    assert("FilmPopularityThisWeek"@[0] == 'F');
    assert("FilmPopularityThisWeek"@[18] == 'W');
    assert("FilmPopularityThisYear"@[0] == 'F');
    assert("FilmPopularityThisYear"@[18] == 'Y');
    assert("FilmPopularityWithFriends"@[4] == 'P');
    assert("FilmPopularityWithFriendsThisWeek"@[29] == 'W');
    assert("FilmPopularityWithFriendsThisYear"@[29] == 'Y');
}

impl IncludeFriends {
    /// The value carried in the query string.  The member-only filter is
    /// transmitted as `None`, as the remote API spells it.
    pub open spec fn spec_name(self) -> Seq<char> {
        match self {
            IncludeFriends::Exclude => "None"@,
            IncludeFriends::Only => "Only"@,
            IncludeFriends::All => "All"@,
        }
    }

    /// The filter carried by a query value, when any.
    pub open spec fn spec_parse(s: Seq<char>) -> Option<IncludeFriends> {
        if s == "None"@ {
            Some(IncludeFriends::Exclude)
        } else if s == "Only"@ {
            Some(IncludeFriends::Only)
        } else if s == "All"@ {
            Some(IncludeFriends::All)
        } else {
            None
        }
    }

    /// The value carried in the query string.
    pub fn as_str(&self) -> (r: &'static str)
        ensures
            r@ == self.spec_name(),
    {
        match self {
            IncludeFriends::Exclude => "None",
            IncludeFriends::Only => "Only",
            IncludeFriends::All => "All",
        }
    }

    /// Reads a filter back off a query value.
    pub fn from_str(s: &str) -> (r: Option<IncludeFriends>)
        ensures
            r == IncludeFriends::spec_parse(s@),
    {
        if str_eq(s, "None") {
            Some(IncludeFriends::Exclude)
        } else if str_eq(s, "Only") {
            Some(IncludeFriends::Only)
        } else if str_eq(s, "All") {
            Some(IncludeFriends::All)
        } else {
            None
        }
    }
}

/// A filter name always reads back as the filter it names.
pub proof fn lemma_include_friends_round_trip(v: IncludeFriends)
    ensures
        IncludeFriends::spec_parse(v.spec_name()) == Some(v),
{
    broadcast use vstd::string::group_string_axioms;

    reveal_strlit("None");
    reveal_strlit("Only");
    reveal_strlit("All");
    assert("None"@.len() == 4);
    assert("Only"@.len() == 4);
    assert("All"@.len() == 3);
    assert("None"@[0] == 'N');
    assert("Only"@[0] == 'O');
}

// ---------------------------------------------------------------------------
// The film list request and its query-string serialization
// ---------------------------------------------------------------------------

/// The filter set of the film list.  Every field is optional; an unset
/// field contributes no query parameter at all, which is different from
/// a field set to a default value.
#[derive(Debug, Clone, PartialEq, Eq)]
pub struct FilmsRequest {
    /// The pagination cursor.
    pub cursor: Option<Cursor>,
    /// Items per page.
    pub per_page: Option<usize>,
    /// The order in which films are returned.
    pub sort: Option<FilmRequestSort>,
    /// The LID of a genre to filter on.
    pub genre: Option<String>,
    /// The starting year of a decade to filter on.
    pub decade: Option<u16>,
    /// A release year to filter on.
    pub year: Option<u16>,
    /// The ID of a service to filter on.
    pub service: Option<String>,
    /// Status filters; each one becomes its own `where` parameter.
    pub where_film_status: Vec<FilmStatus>,
    /// The LID of a member to filter on.
    pub member: Option<String>,
    /// The member relationship to filter on, together with `member`.
    pub member_relationship: Option<FilmRelationshipType>,
    /// Whether the member filter covers the member's friends.
    pub include_friends: Option<IncludeFriends>,
    /// A tag code to filter on.
    pub tag_code: Option<String>,
    /// The LID of the member whose tags are filtered on.
    pub tagger: Option<String>,
    /// Whether the tagger filter covers the tagger's friends.
    pub include_tagger_friends: Option<IncludeFriends>,
}

/// The film list request at specification level.
#[verifier::ext_equal]
pub struct FilmsRequestView {
    pub cursor: Option<Seq<char>>,
    pub per_page: Option<usize>,
    pub sort: Option<FilmRequestSort>,
    pub genre: Option<Seq<char>>,
    pub decade: Option<u16>,
    pub year: Option<u16>,
    pub service: Option<Seq<char>>,
    pub where_film_status: Seq<FilmStatus>,
    pub member: Option<Seq<char>>,
    pub member_relationship: Option<FilmRelationshipType>,
    pub include_friends: Option<IncludeFriends>,
    pub tag_code: Option<Seq<char>>,
    pub tagger: Option<Seq<char>>,
    pub include_tagger_friends: Option<IncludeFriends>,
}

impl View for FilmsRequest {
    type V = FilmsRequestView;

    open spec fn view(&self) -> FilmsRequestView {
        FilmsRequestView {
            cursor: match self.cursor {
                Some(c) => Some(c.0@),
                None => None,
            },
            per_page: self.per_page,
            sort: self.sort,
            genre: match self.genre {
                Some(g) => Some(g@),
                None => None,
            },
            decade: self.decade,
            year: self.year,
            service: match self.service {
                Some(s) => Some(s@),
                None => None,
            },
            where_film_status: self.where_film_status@,
            member: match self.member {
                Some(m) => Some(m@),
                None => None,
            },
            member_relationship: self.member_relationship,
            include_friends: self.include_friends,
            tag_code: match self.tag_code {
                Some(t) => Some(t@),
                None => None,
            },
            tagger: match self.tagger {
                Some(t) => Some(t@),
                None => None,
            },
            include_tagger_friends: self.include_tagger_friends,
        }
    }
}

impl Default for FilmsRequest {
    /// The empty filter set: no field set, no status filter.
    fn default() -> (r: Self)
        ensures
            r@.cursor is None,
            r@.per_page is None,
            r@.sort is None,
            r@.genre is None,
            r@.decade is None,
            r@.year is None,
            r@.service is None,
            r@.where_film_status == Seq::<FilmStatus>::empty(),
            r@.member is None,
            r@.member_relationship is None,
            r@.include_friends is None,
            r@.tag_code is None,
            r@.tagger is None,
            r@.include_tagger_friends is None,
    {
        let r = FilmsRequest {
            cursor: None,
            per_page: None,
            sort: None,
            genre: None,
            decade: None,
            year: None,
            service: None,
            where_film_status: Vec::new(),
            member: None,
            member_relationship: None,
            include_friends: None,
            tag_code: None,
            tagger: None,
            include_tagger_friends: None,
        };
        proof {
            assert(r@.where_film_status =~= Seq::<FilmStatus>::empty());
        }
        r
    }
}

/// The decimal rendering of a number, as characters.
pub open spec fn dec_chars(n: nat) -> Seq<char> {
    ascii_chars_of(dec_of(n))
}

/// Zero or one query pair: nothing for an unset field.
pub open spec fn opt_pair(key: Seq<char>, value: Option<Seq<char>>) -> Seq<(Seq<char>, Seq<char>)> {
    match value {
        Some(v) => seq![(key, v)],
        None => Seq::empty(),
    }
}

/// One `where` pair per status filter, in order.
pub open spec fn where_pairs(statuses: Seq<FilmStatus>) -> Seq<(Seq<char>, Seq<char>)> {
    statuses.map_values(|st: FilmStatus| ("where"@, st.spec_name()))
}

/// The leading query pairs of a film list request: the fields before
/// the status filters, in their fixed order.
pub open spec fn films_request_basic_pairs(v: FilmsRequestView) -> Seq<(Seq<char>, Seq<char>)> {
    opt_pair("cursor"@, v.cursor) + opt_pair(
        "perPage"@,
        match v.per_page {
            Some(n) => Some(dec_chars(n as nat)),
            None => None,
        },
    ) + opt_pair(
        "sort"@,
        match v.sort {
            Some(s) => Some(s.spec_name()),
            None => None,
        },
    ) + opt_pair("genre"@, v.genre) + opt_pair(
        "decade"@,
        match v.decade {
            Some(n) => Some(dec_chars(n as nat)),
            None => None,
        },
    ) + opt_pair(
        "year"@,
        match v.year {
            Some(n) => Some(dec_chars(n as nat)),
            None => None,
        },
    ) + opt_pair("service"@, v.service)
}

/// The trailing query pairs of a film list request: the member and tag
/// fields, in their fixed order.
pub open spec fn films_request_member_pairs(v: FilmsRequestView) -> Seq<(Seq<char>, Seq<char>)> {
    opt_pair("member"@, v.member) + opt_pair(
        "memberRelationship"@,
        match v.member_relationship {
            Some(m) => Some(m.spec_name()),
            None => None,
        },
    ) + opt_pair(
        "includeFriends"@,
        match v.include_friends {
            Some(f) => Some(f.spec_name()),
            None => None,
        },
    ) + opt_pair("tagCode"@, v.tag_code) + opt_pair("tagger"@, v.tagger) + opt_pair(
        "includeTaggerFriends"@,
        match v.include_tagger_friends {
            Some(f) => Some(f.spec_name()),
            None => None,
        },
    )
}

/// The query pairs of a film list request, in their fixed field order:
/// the leading fields, one `where` pair per status filter, then the
/// member and tag fields.
pub open spec fn films_request_pairs(v: FilmsRequestView) -> Seq<(Seq<char>, Seq<char>)> {
    films_request_basic_pairs(v) + where_pairs(v.where_film_status) + films_request_member_pairs(v)
}

impl FilmsRequest {
    /// Appends the `cursor` pair, when the field is set.
    fn push_cursor_pair(&self, q: &mut Vec<(String, String)>)
        ensures
            string_pair_views(final(q)@) == string_pair_views(old(q)@) + opt_pair("cursor"@, self@.cursor),
    {
        let ghost base = string_pair_views(old(q)@);
        match &self.cursor {
            Some(c) => q.push((String::from_str("cursor"), c.0.clone())),
            None => {},
        }
        proof {
            assert(string_pair_views(q@) =~= base + opt_pair("cursor"@, self@.cursor));
        }
    }

    /// Appends the `perPage` pair, when the field is set.
    fn push_per_page_pair(&self, q: &mut Vec<(String, String)>)
        ensures
            string_pair_views(final(q)@) == string_pair_views(old(q)@) + opt_pair(
                "perPage"@,
                match self@.per_page {
                    Some(n) => Some(dec_chars(n as nat)),
                    None => None,
                },
            ),
    {
        let ghost base = string_pair_views(old(q)@);
        match &self.per_page {
            Some(n) => q.push((String::from_str("perPage"), dec_string(*n as u64))),
            None => {},
        }
        proof {
            assert(string_pair_views(q@) =~= base + opt_pair(
                "perPage"@,
                match self@.per_page {
                    Some(n) => Some(dec_chars(n as nat)),
                    None => None,
                },
            ));
        }
    }

    /// Appends the `sort` pair, when the field is set.
    fn push_sort_pair(&self, q: &mut Vec<(String, String)>)
        ensures
            string_pair_views(final(q)@) == string_pair_views(old(q)@) + opt_pair(
                "sort"@,
                match self@.sort {
                    Some(s) => Some(s.spec_name()),
                    None => None,
                },
            ),
    {
        let ghost base = string_pair_views(old(q)@);
        match &self.sort {
            Some(s) => q.push((String::from_str("sort"), String::from_str(s.as_str()))),
            None => {},
        }
        proof {
            assert(string_pair_views(q@) =~= base + opt_pair(
                "sort"@,
                match self@.sort {
                    Some(s) => Some(s.spec_name()),
                    None => None,
                },
            ));
        }
    }

    /// Appends the `genre` pair, when the field is set.
    fn push_genre_pair(&self, q: &mut Vec<(String, String)>)
        ensures
            string_pair_views(final(q)@) == string_pair_views(old(q)@) + opt_pair("genre"@, self@.genre),
    {
        let ghost base = string_pair_views(old(q)@);
        match &self.genre {
            Some(g) => q.push((String::from_str("genre"), g.clone())),
            None => {},
        }
        proof {
            assert(string_pair_views(q@) =~= base + opt_pair("genre"@, self@.genre));
        }
    }

    /// Appends the `decade` pair, when the field is set.
    fn push_decade_pair(&self, q: &mut Vec<(String, String)>)
        ensures
            string_pair_views(final(q)@) == string_pair_views(old(q)@) + opt_pair(
                "decade"@,
                match self@.decade {
                    Some(n) => Some(dec_chars(n as nat)),
                    None => None,
                },
            ),
    {
        let ghost base = string_pair_views(old(q)@);
        match &self.decade {
            Some(n) => q.push((String::from_str("decade"), dec_string(*n as u64))),
            None => {},
        }
        proof {
            assert(string_pair_views(q@) =~= base + opt_pair(
                "decade"@,
                match self@.decade {
                    Some(n) => Some(dec_chars(n as nat)),
                    None => None,
                },
            ));
        }
    }

    /// Appends the `year` pair, when the field is set.
    fn push_year_pair(&self, q: &mut Vec<(String, String)>)
        ensures
            string_pair_views(final(q)@) == string_pair_views(old(q)@) + opt_pair(
                "year"@,
                match self@.year {
                    Some(n) => Some(dec_chars(n as nat)),
                    None => None,
                },
            ),
    {
        let ghost base = string_pair_views(old(q)@);
        match &self.year {
            Some(n) => q.push((String::from_str("year"), dec_string(*n as u64))),
            None => {},
        }
        proof {
            assert(string_pair_views(q@) =~= base + opt_pair(
                "year"@,
                match self@.year {
                    Some(n) => Some(dec_chars(n as nat)),
                    None => None,
                },
            ));
        }
    }

    /// Appends the `service` pair, when the field is set.
    fn push_service_pair(&self, q: &mut Vec<(String, String)>)
        ensures
            string_pair_views(final(q)@) == string_pair_views(old(q)@) + opt_pair("service"@, self@.service),
    {
        let ghost base = string_pair_views(old(q)@);
        match &self.service {
            Some(s) => q.push((String::from_str("service"), s.clone())),
            None => {},
        }
        proof {
            assert(string_pair_views(q@) =~= base + opt_pair("service"@, self@.service));
        }
    }

    /// Appends the leading fields to the pair list.
    #[verifier::rlimit(100)]
    fn push_basic_pairs(&self, q: &mut Vec<(String, String)>)
        ensures
            string_pair_views(final(q)@) == string_pair_views(old(q)@) + films_request_basic_pairs(
                self@,
            ),
    {
        let ghost base = string_pair_views(old(q)@);
        self.push_cursor_pair(q);
        self.push_per_page_pair(q);
        self.push_sort_pair(q);
        self.push_genre_pair(q);
        self.push_decade_pair(q);
        self.push_year_pair(q);
        self.push_service_pair(q);
        proof {
            assert(string_pair_views(q@) =~= base + films_request_basic_pairs(self@));
        }
    }

    /// Appends one `where` pair per status filter to the pair list.
    fn push_where_pairs(&self, q: &mut Vec<(String, String)>)
        ensures
            string_pair_views(final(q)@) == string_pair_views(old(q)@) + where_pairs(
                self@.where_film_status,
            ),
    {
        let ghost base = string_pair_views(old(q)@);
        let m = self.where_film_status.len();
        proof {
            assert(where_pairs(self.where_film_status@.take(0)) =~= Seq::<
                (Seq<char>, Seq<char>),
            >::empty());
            assert(string_pair_views(q@) =~= base + where_pairs(self.where_film_status@.take(0)));
        }
        for i in 0..m
            invariant
                m == self.where_film_status@.len(),
                string_pair_views(q@) =~= base + where_pairs(
                    self.where_film_status@.take(i as int),
                ),
        {
            let ghost old_q = q@;
            q.push(
                (String::from_str("where"), String::from_str(self.where_film_status[i].as_str())),
            );
            proof {
                assert(string_pair_views(q@) =~= string_pair_views(old_q).push(
                    ("where"@, self.where_film_status@[i as int].spec_name()),
                ));
                assert(self.where_film_status@.take(i + 1) =~= self.where_film_status@.take(
                    i as int,
                ).push(self.where_film_status@[i as int]));
                assert(where_pairs(self.where_film_status@.take(i + 1)) =~= where_pairs(
                    self.where_film_status@.take(i as int),
                ).push(("where"@, self.where_film_status@[i as int].spec_name())));
                assert(string_pair_views(q@) =~= base + where_pairs(
                    self.where_film_status@.take(i + 1),
                ));
            }
        }
        proof {
            assert(self.where_film_status@.take(m as int) =~= self.where_film_status@);
        }
    }

    /// Appends the `member` pair, when the field is set.
    fn push_member_pair(&self, q: &mut Vec<(String, String)>)
        ensures
            string_pair_views(final(q)@) == string_pair_views(old(q)@) + opt_pair("member"@, self@.member),
    {
        let ghost base = string_pair_views(old(q)@);
        match &self.member {
            Some(s) => q.push((String::from_str("member"), s.clone())),
            None => {},
        }
        proof {
            assert(string_pair_views(q@) =~= base + opt_pair("member"@, self@.member));
        }
    }

    /// Appends the `memberRelationship` pair, when the field is set.
    fn push_member_relationship_pair(&self, q: &mut Vec<(String, String)>)
        ensures
            string_pair_views(final(q)@) == string_pair_views(old(q)@) + opt_pair(
                "memberRelationship"@,
                match self@.member_relationship {
                    Some(m) => Some(m.spec_name()),
                    None => None,
                },
            ),
    {
        let ghost base = string_pair_views(old(q)@);
        match &self.member_relationship {
            Some(m) => q.push(
                (String::from_str("memberRelationship"), String::from_str(m.as_str())),
            ),
            None => {},
        }
        proof {
            assert(string_pair_views(q@) =~= base + opt_pair(
                "memberRelationship"@,
                match self@.member_relationship {
                    Some(m) => Some(m.spec_name()),
                    None => None,
                },
            ));
        }
    }

    /// Appends the `includeFriends` pair, when the field is set.
    fn push_include_friends_pair(&self, q: &mut Vec<(String, String)>)
        ensures
            string_pair_views(final(q)@) == string_pair_views(old(q)@) + opt_pair(
                "includeFriends"@,
                match self@.include_friends {
                    Some(f) => Some(f.spec_name()),
                    None => None,
                },
            ),
    {
        let ghost base = string_pair_views(old(q)@);
        match &self.include_friends {
            Some(f) => q.push((String::from_str("includeFriends"), String::from_str(f.as_str()))),
            None => {},
        }
        proof {
            assert(string_pair_views(q@) =~= base + opt_pair(
                "includeFriends"@,
                match self@.include_friends {
                    Some(f) => Some(f.spec_name()),
                    None => None,
                },
            ));
        }
    }

    /// Appends the `tagCode` pair, when the field is set.
    fn push_tag_code_pair(&self, q: &mut Vec<(String, String)>)
        ensures
            string_pair_views(final(q)@) == string_pair_views(old(q)@) + opt_pair("tagCode"@, self@.tag_code),
    {
        let ghost base = string_pair_views(old(q)@);
        match &self.tag_code {
            Some(s) => q.push((String::from_str("tagCode"), s.clone())),
            None => {},
        }
        proof {
            assert(string_pair_views(q@) =~= base + opt_pair("tagCode"@, self@.tag_code));
        }
    }

    /// Appends the `tagger` pair, when the field is set.
    fn push_tagger_pair(&self, q: &mut Vec<(String, String)>)
        ensures
            string_pair_views(final(q)@) == string_pair_views(old(q)@) + opt_pair("tagger"@, self@.tagger),
    {
        let ghost base = string_pair_views(old(q)@);
        match &self.tagger {
            Some(s) => q.push((String::from_str("tagger"), s.clone())),
            None => {},
        }
        proof {
            assert(string_pair_views(q@) =~= base + opt_pair("tagger"@, self@.tagger));
        }
    }

    /// Appends the `includeTaggerFriends` pair, when the field is set.
    fn push_include_tagger_friends_pair(&self, q: &mut Vec<(String, String)>)
        ensures
            string_pair_views(final(q)@) == string_pair_views(old(q)@) + opt_pair(
                "includeTaggerFriends"@,
                match self@.include_tagger_friends {
                    Some(f) => Some(f.spec_name()),
                    None => None,
                },
            ),
    {
        let ghost base = string_pair_views(old(q)@);
        match &self.include_tagger_friends {
            Some(f) => q.push(
                (String::from_str("includeTaggerFriends"), String::from_str(f.as_str())),
            ),
            None => {},
        }
        proof {
            assert(string_pair_views(q@) =~= base + opt_pair(
                "includeTaggerFriends"@,
                match self@.include_tagger_friends {
                    Some(f) => Some(f.spec_name()),
                    None => None,
                },
            ));
        }
    }

    /// Appends the member and tag fields to the pair list.
    #[verifier::rlimit(100)]
    fn push_member_pairs(&self, q: &mut Vec<(String, String)>)
        ensures
            string_pair_views(final(q)@) == string_pair_views(old(q)@)
                + films_request_member_pairs(self@),
    {
        let ghost base = string_pair_views(old(q)@);
        self.push_member_pair(q);
        self.push_member_relationship_pair(q);
        self.push_include_friends_pair(q);
        self.push_tag_code_pair(q);
        self.push_tagger_pair(q);
        self.push_include_tagger_friends_pair(q);
        proof {
            assert(string_pair_views(q@) =~= base + films_request_member_pairs(self@));
        }
    }

        /// Serializes the request into query pairs, set fields only, in the
    /// fixed field order; each status filter becomes one `where` pair.
    pub fn to_query_pairs(&self) -> (r: Vec<(String, String)>)
        ensures
            string_pair_views(r@) == films_request_pairs(self@),
    {
        let mut q: Vec<(String, String)> = Vec::new();
        proof {
            assert(string_pair_views(q@) =~= Seq::<(Seq<char>, Seq<char>)>::empty());
        }
        self.push_basic_pairs(&mut q);
        self.push_where_pairs(&mut q);
        self.push_member_pairs(&mut q);
        proof {
            assert(string_pair_views(q@) =~= films_request_pairs(self@));
        }
        q
    }
}

// ---------------------------------------------------------------------------
// Reading the request back off its query pairs
// ---------------------------------------------------------------------------

/// The first value under the key, when the key occurs.
pub open spec fn lookup_first(ps: Seq<(Seq<char>, Seq<char>)>, key: Seq<char>) -> Option<Seq<char>>
    decreases ps.len(),
{
    if ps.len() == 0 {
        None
    } else if ps.first().0 == key {
        Some(ps.first().1)
    } else {
        lookup_first(ps.drop_first(), key)
    }
}

/// The values of every pair under the key, in order.
pub open spec fn lookup_all(ps: Seq<(Seq<char>, Seq<char>)>, key: Seq<char>) -> Seq<Seq<char>>
    decreases ps.len(),
{
    if ps.len() == 0 {
        Seq::empty()
    } else if ps.first().0 == key {
        seq![ps.first().1] + lookup_all(ps.drop_first(), key)
    } else {
        lookup_all(ps.drop_first(), key)
    }
}

/// The statuses named by a value list, all of them or nothing.
pub open spec fn parse_status_list(values: Seq<Seq<char>>) -> Option<Seq<FilmStatus>>
    decreases values.len(),
{
    if values.len() == 0 {
        Some(Seq::empty())
    } else {
        match FilmStatus::spec_parse(values.first()) {
            None => None,
            Some(st) => match parse_status_list(values.drop_first()) {
                None => None,
                Some(rest) => Some(seq![st] + rest),
            },
        }
    }
}

/// A page size read off a query value.
pub open spec fn parse_usize_chars(s: Seq<char>) -> Option<usize> {
    match crate::json::spec_parse_u64(encode_utf8(s)) {
        Some(n) => if n <= usize::MAX {
            Some(n as usize)
        } else {
            None
        },
        None => None,
    }
}

/// A year or decade read off a query value.
pub open spec fn parse_u16_chars(s: Seq<char>) -> Option<u16> {
    match crate::json::spec_parse_u64(encode_utf8(s)) {
        Some(n) => if n <= u16::MAX {
            Some(n as u16)
        } else {
            None
        },
        None => None,
    }
}

/// The film list request carried by a pair list: every recognised key is
/// read back; a value that does not parse makes the whole read fail;
/// unrecognised keys are ignored.
pub open spec fn films_request_of_pairs(ps: Seq<(Seq<char>, Seq<char>)>) -> Option<
    FilmsRequestView,
> {
    let per_page = match lookup_first(ps, "perPage"@) {
        None => Some(None::<usize>),
        Some(v) => match parse_usize_chars(v) {
            None => None,
            Some(n) => Some(Some(n)),
        },
    };
    let sort = match lookup_first(ps, "sort"@) {
        None => Some(None::<FilmRequestSort>),
        Some(v) => match FilmRequestSort::spec_parse(v) {
            None => None,
            Some(s) => Some(Some(s)),
        },
    };
    let decade = match lookup_first(ps, "decade"@) {
        None => Some(None::<u16>),
        Some(v) => match parse_u16_chars(v) {
            None => None,
            Some(n) => Some(Some(n)),
        },
    };
    let year = match lookup_first(ps, "year"@) {
        None => Some(None::<u16>),
        Some(v) => match parse_u16_chars(v) {
            None => None,
            Some(n) => Some(Some(n)),
        },
    };
    let member_relationship = match lookup_first(ps, "memberRelationship"@) {
        None => Some(None::<FilmRelationshipType>),
        Some(v) => match FilmRelationshipType::spec_parse(v) {
            None => None,
            Some(m) => Some(Some(m)),
        },
    };
    let include_friends = match lookup_first(ps, "includeFriends"@) {
        None => Some(None::<IncludeFriends>),
        Some(v) => match IncludeFriends::spec_parse(v) {
            None => None,
            Some(f) => Some(Some(f)),
        },
    };
    let include_tagger_friends = match lookup_first(ps, "includeTaggerFriends"@) {
        None => Some(None::<IncludeFriends>),
        Some(v) => match IncludeFriends::spec_parse(v) {
            None => None,
            Some(f) => Some(Some(f)),
        },
    };
    let statuses = parse_status_list(lookup_all(ps, "where"@));
    if per_page is None || sort is None || decade is None || year is None || member_relationship
        is None || include_friends is None || include_tagger_friends is None || statuses is None {
        None
    } else {
        Some(
            FilmsRequestView {
                cursor: lookup_first(ps, "cursor"@),
                per_page: per_page->0,
                sort: sort->0,
                genre: lookup_first(ps, "genre"@),
                decade: decade->0,
                year: year->0,
                service: lookup_first(ps, "service"@),
                where_film_status: statuses->0,
                member: lookup_first(ps, "member"@),
                member_relationship: member_relationship->0,
                include_friends: include_friends->0,
                tag_code: lookup_first(ps, "tagCode"@),
                tagger: lookup_first(ps, "tagger"@),
                include_tagger_friends: include_tagger_friends->0,
            },
        )
    }
}

/// The first value under the key, cloned.
fn lookup_first_pairs(pairs: &Vec<(String, String)>, key: &str) -> (r: Option<String>)
    ensures
        match r {
            Some(v) => lookup_first(string_pair_views(pairs@), key@) == Some(v@),
            None => lookup_first(string_pair_views(pairs@), key@) is None,
        },
{
    let n = pairs.len();
    proof {
        assert(string_pair_views(pairs@).skip(0) =~= string_pair_views(pairs@));
    }
    for i in 0..n
        invariant
            n == pairs@.len(),
            lookup_first(string_pair_views(pairs@), key@) == lookup_first(
                string_pair_views(pairs@).skip(i as int),
                key@,
            ),
    {
        proof {
            let ms = string_pair_views(pairs@).skip(i as int);
            assert(ms.first() == (pairs@[i as int].0@, pairs@[i as int].1@));
            assert(ms.drop_first() =~= string_pair_views(pairs@).skip(i + 1));
        }
        if str_eq(pairs[i].0.as_str(), key) {
            return Some(pairs[i].1.clone());
        }
    }
    None
}

/// Collects statuses into the accumulated list, or fails as a whole.
pub open spec fn status_fold(acc: Seq<FilmStatus>, rest: Option<Seq<FilmStatus>>) -> Option<
    Seq<FilmStatus>,
> {
    match rest {
        Some(r) => Some(acc + r),
        None => None,
    }
}

impl FilmsRequest {
    /// Reads a request back off query pairs: every recognised key is read
    /// back, a value that does not parse fails the whole read, and
    /// unrecognised keys are ignored.
    #[verifier::rlimit(100)]
    pub fn from_query_pairs(pairs: &Vec<(String, String)>) -> (r: Option<FilmsRequest>)
        ensures
            match r {
                Some(req) => films_request_of_pairs(string_pair_views(pairs@)) == Some(req@),
                None => films_request_of_pairs(string_pair_views(pairs@)) is None,
            },
    {
        let ghost ps = string_pair_views(pairs@);
        let per_page: Option<usize> = match lookup_first_pairs(pairs, "perPage") {
            None => None,
            Some(v) => match crate::json::parse_u64_bytes(v.as_str().as_bytes()) {
                Some(n) => if n <= (usize::MAX as u64) {
                    Some(n as usize)
                } else {
                    return None;
                },
                None => {
                    return None;
                },
            },
        };
        let sort: Option<FilmRequestSort> = match lookup_first_pairs(pairs, "sort") {
            None => None,
            Some(v) => match FilmRequestSort::from_str(v.as_str()) {
                Some(x) => Some(x),
                None => {
                    return None;
                },
            },
        };
        let decade: Option<u16> = match lookup_first_pairs(pairs, "decade") {
            None => None,
            Some(v) => match crate::json::parse_u64_bytes(v.as_str().as_bytes()) {
                Some(n) => if n <= (u16::MAX as u64) {
                    Some(n as u16)
                } else {
                    return None;
                },
                None => {
                    return None;
                },
            },
        };
        let year: Option<u16> = match lookup_first_pairs(pairs, "year") {
            None => None,
            Some(v) => match crate::json::parse_u64_bytes(v.as_str().as_bytes()) {
                Some(n) => if n <= (u16::MAX as u64) {
                    Some(n as u16)
                } else {
                    return None;
                },
                None => {
                    return None;
                },
            },
        };
        let member_relationship: Option<FilmRelationshipType> = match lookup_first_pairs(
            pairs,
            "memberRelationship",
        ) {
            None => None,
            Some(v) => match FilmRelationshipType::from_str(v.as_str()) {
                Some(x) => Some(x),
                None => {
                    return None;
                },
            },
        };
        let include_friends: Option<IncludeFriends> = match lookup_first_pairs(
            pairs,
            "includeFriends",
        ) {
            None => None,
            Some(v) => match IncludeFriends::from_str(v.as_str()) {
                Some(x) => Some(x),
                None => {
                    return None;
                },
            },
        };
        let include_tagger_friends: Option<IncludeFriends> = match lookup_first_pairs(
            pairs,
            "includeTaggerFriends",
        ) {
            None => None,
            Some(v) => match IncludeFriends::from_str(v.as_str()) {
                Some(x) => Some(x),
                None => {
                    return None;
                },
            },
        };
        let mut statuses: Vec<FilmStatus> = Vec::new();
        let n = pairs.len();
        proof {
            assert(ps.skip(0) =~= ps);
            match parse_status_list(lookup_all(ps, "where"@)) {
                Some(r) => {
                    assert(Seq::<FilmStatus>::empty() + r =~= r);
                },
                None => {},
            }
        }
        for i in 0..n
            invariant
                n == pairs@.len(),
                ps == string_pair_views(pairs@),
                parse_status_list(lookup_all(ps, "where"@)) == status_fold(
                    statuses@,
                    parse_status_list(lookup_all(ps.skip(i as int), "where"@)),
                ),
        {
            proof {
                let ms = ps.skip(i as int);
                assert(ms.first() == (pairs@[i as int].0@, pairs@[i as int].1@));
                assert(ms.drop_first() =~= ps.skip(i + 1));
            }
            if str_eq(pairs[i].0.as_str(), "where") {
                proof {
                    let ms = ps.skip(i as int);
                    assert(lookup_all(ms, "where"@) == seq![ms.first().1] + lookup_all(
                        ps.skip(i + 1),
                        "where"@,
                    ));
                    assert((seq![ms.first().1] + lookup_all(ps.skip(i + 1), "where"@)).first()
                        == ms.first().1);
                    assert((seq![ms.first().1] + lookup_all(ps.skip(i + 1), "where"@)).drop_first()
                        =~= lookup_all(ps.skip(i + 1), "where"@));
                }
                match FilmStatus::from_str(pairs[i].1.as_str()) {
                    Some(st) => {
                        let ghost old_sts = statuses@;
                        statuses.push(st);
                        proof {
                            match parse_status_list(lookup_all(ps.skip(i + 1), "where"@)) {
                                Some(r) => {
                                    assert(old_sts + (seq![st] + r) =~= statuses@ + r);
                                },
                                None => {},
                            }
                        }
                    },
                    None => {
                        return None;
                    },
                }
            }
        }
        proof {
            assert(ps.skip(n as int) =~= Seq::<(Seq<char>, Seq<char>)>::empty());
            assert(lookup_all(Seq::<(Seq<char>, Seq<char>)>::empty(), "where"@) =~= Seq::<
                Seq<char>,
            >::empty());
            assert(parse_status_list(Seq::<Seq<char>>::empty()) == Some(Seq::<FilmStatus>::empty()));
            assert(statuses@ + Seq::<FilmStatus>::empty() =~= statuses@);
        }
        let cursor: Option<Cursor> = match lookup_first_pairs(pairs, "cursor") {
            Some(v) => Some(Cursor(v)),
            None => None,
        };
        let genre = lookup_first_pairs(pairs, "genre");
        let service = lookup_first_pairs(pairs, "service");
        let member = lookup_first_pairs(pairs, "member");
        let tag_code = lookup_first_pairs(pairs, "tagCode");
        let tagger = lookup_first_pairs(pairs, "tagger");
        let req = FilmsRequest {
            cursor,
            per_page,
            sort,
            genre,
            decade,
            year,
            service,
            where_film_status: statuses,
            member,
            member_relationship,
            include_friends,
            tag_code,
            tagger,
            include_tagger_friends,
        };
        proof {
            match films_request_of_pairs(ps) {
                Some(w) => {
                    assert(req@ =~= w);
                },
                None => {
                    assert(false);
                },
            }
        }
        Some(req)
    }
}

// ---------------------------------------------------------------------------
// Lookup laws and the serialization round trip
// ---------------------------------------------------------------------------

/// Looking a key up in a concatenation searches the left part first.
pub broadcast proof fn lemma_lookup_first_concat(
    a: Seq<(Seq<char>, Seq<char>)>,
    b: Seq<(Seq<char>, Seq<char>)>,
    key: Seq<char>,
)
    ensures
        #[trigger] lookup_first(a + b, key) == (match lookup_first(a, key) {
            Some(v) => Some(v),
            None => lookup_first(b, key),
        }),
    decreases a.len(),
{
    if a.len() == 0 {
        assert(a + b =~= b);
    } else {
        assert((a + b).first() == a.first());
        assert((a + b).drop_first() =~= a.drop_first() + b);
        lemma_lookup_first_concat(a.drop_first(), b, key);
    }
}

/// The values under a key in a concatenation are those of the left part
/// followed by those of the right part.
pub broadcast proof fn lemma_lookup_all_concat(
    a: Seq<(Seq<char>, Seq<char>)>,
    b: Seq<(Seq<char>, Seq<char>)>,
    key: Seq<char>,
)
    ensures
        #[trigger] lookup_all(a + b, key) == lookup_all(a, key) + lookup_all(b, key),
    decreases a.len(),
{
    if a.len() == 0 {
        assert(a + b =~= b);
        assert(lookup_all(a, key) + lookup_all(b, key) =~= lookup_all(b, key));
    } else {
        assert((a + b).first() == a.first());
        assert((a + b).drop_first() =~= a.drop_first() + b);
        lemma_lookup_all_concat(a.drop_first(), b, key);
        if a.first().0 == key {
            assert(seq![a.first().1] + (lookup_all(a.drop_first(), key) + lookup_all(b, key))
                =~= (seq![a.first().1] + lookup_all(a.drop_first(), key)) + lookup_all(b, key));
        }
    }
}

/// An optional pair answers a lookup exactly for its own key.
pub broadcast proof fn lemma_lookup_first_opt_pair(
    k: Seq<char>,
    val: Option<Seq<char>>,
    key: Seq<char>,
)
    ensures
        #[trigger] lookup_first(opt_pair(k, val), key) == (if key == k {
            val
        } else {
            None
        }),
{
    match val {
        Some(v) => {
            assert(opt_pair(k, val) =~= seq![(k, v)]);
            assert(seq![(k, v)].first() == (k, v));
            assert(seq![(k, v)].drop_first() =~= Seq::<(Seq<char>, Seq<char>)>::empty());
            assert(lookup_first(Seq::<(Seq<char>, Seq<char>)>::empty(), key) is None);
        },
        None => {},
    }
}

/// An optional pair contributes its value exactly under its own key.
pub broadcast proof fn lemma_lookup_all_opt_pair(
    k: Seq<char>,
    val: Option<Seq<char>>,
    key: Seq<char>,
)
    ensures
        #[trigger] lookup_all(opt_pair(k, val), key) == (if key == k {
            match val {
                Some(v) => seq![v],
                None => Seq::<Seq<char>>::empty(),
            }
        } else {
            Seq::<Seq<char>>::empty()
        }),
{
    match val {
        Some(v) => {
            assert(opt_pair(k, val) =~= seq![(k, v)]);
            assert(seq![(k, v)].first() == (k, v));
            assert(seq![(k, v)].drop_first() =~= Seq::<(Seq<char>, Seq<char>)>::empty());
            assert(lookup_all(Seq::<(Seq<char>, Seq<char>)>::empty(), key) =~= Seq::<
                Seq<char>,
            >::empty());
            if k == key {
                assert(seq![v] + Seq::<Seq<char>>::empty() =~= seq![v]);
            }
        },
        None => {},
    }
}

/// The status pairs carry no key but `where`.
pub proof fn lemma_lookup_where_pairs(statuses: Seq<FilmStatus>, key: Seq<char>)
    requires
        key != "where"@,
    ensures
        lookup_first(where_pairs(statuses), key) is None,
        lookup_all(where_pairs(statuses), key) == Seq::<Seq<char>>::empty(),
    decreases statuses.len(),
{
    if statuses.len() > 0 {
        assert(where_pairs(statuses).first() == ("where"@, statuses.first().spec_name()));
        assert(where_pairs(statuses).drop_first() =~= where_pairs(statuses.drop_first()));
        lemma_lookup_where_pairs(statuses.drop_first(), key);
    }
}

/// The values under `where` are exactly the status names, in order.
pub proof fn lemma_lookup_all_where_pairs(statuses: Seq<FilmStatus>)
    ensures
        lookup_all(where_pairs(statuses), "where"@) == statuses.map_values(
            |st: FilmStatus| st.spec_name(),
        ),
    decreases statuses.len(),
{
    let names = statuses.map_values(|st: FilmStatus| st.spec_name());
    if statuses.len() == 0 {
        assert(names =~= Seq::<Seq<char>>::empty());
    } else {
        assert(where_pairs(statuses).first() == ("where"@, statuses.first().spec_name()));
        assert(where_pairs(statuses).drop_first() =~= where_pairs(statuses.drop_first()));
        lemma_lookup_all_where_pairs(statuses.drop_first());
        assert(names =~= seq![statuses.first().spec_name()] + statuses.drop_first().map_values(
            |st: FilmStatus| st.spec_name(),
        ));
    }
}

/// A list of status names reads back as the statuses it names.
pub proof fn lemma_parse_status_names(statuses: Seq<FilmStatus>)
    ensures
        parse_status_list(statuses.map_values(|st: FilmStatus| st.spec_name())) == Some(statuses),
    decreases statuses.len(),
{
    let names = statuses.map_values(|st: FilmStatus| st.spec_name());
    if statuses.len() == 0 {
        assert(names.len() == 0);
    } else {
        assert(names.first() == statuses.first().spec_name());
        assert(names.drop_first() =~= statuses.drop_first().map_values(
            |st: FilmStatus| st.spec_name(),
        ));
        lemma_film_status_round_trip(statuses.first());
        lemma_parse_status_names(statuses.drop_first());
        assert(seq![statuses.first()] + statuses.drop_first() =~= statuses);
    }
}

/// The serialization round trip: reading the query pairs of any film
/// list request yields that request again — in particular, every unset
/// optional field comes back unset, and every set field comes back with
/// its exact value.
#[verifier::rlimit(100)]
pub proof fn lemma_films_request_round_trip(v: FilmsRequestView)
    ensures
        films_request_of_pairs(films_request_pairs(v)) == Some(v),
{
    broadcast use
        lemma_lookup_first_concat,
        lemma_lookup_all_concat,
        lemma_lookup_first_opt_pair,
        lemma_lookup_all_opt_pair,
        vstd::string::group_string_axioms,
    ;

    reveal_strlit("cursor");
    reveal_strlit("perPage");
    reveal_strlit("sort");
    reveal_strlit("genre");
    reveal_strlit("decade");
    reveal_strlit("year");
    reveal_strlit("service");
    reveal_strlit("where");
    reveal_strlit("member");
    reveal_strlit("memberRelationship");
    reveal_strlit("includeFriends");
    reveal_strlit("tagCode");
    reveal_strlit("tagger");
    reveal_strlit("includeTaggerFriends");
    assert("cursor"@.len() == 6);
    assert("perPage"@.len() == 7);
    assert("sort"@.len() == 4);
    assert("genre"@.len() == 5);
    assert("decade"@.len() == 6);
    assert("year"@.len() == 4);
    assert("service"@.len() == 7);
    assert("where"@.len() == 5);
    assert("member"@.len() == 6);
    assert("memberRelationship"@.len() == 18);
    assert("includeFriends"@.len() == 14);
    assert("tagCode"@.len() == 7);
    assert("tagger"@.len() == 6);
    assert("includeTaggerFriends"@.len() == 20);
    assert("cursor"@[0] == 'c');
    assert("decade"@[0] == 'd');
    assert("member"@[0] == 'm');
    assert("tagger"@[0] == 't');
    assert("perPage"@[0] == 'p');
    assert("service"@[0] == 's');
    assert("tagCode"@[0] == 't');
    assert("perPage"@[1] == 'e');
    assert("service"@[1] == 'e');
    assert("tagCode"@[1] == 'a');
    assert("perPage"@[2] == 'r');
    assert("service"@[2] == 'r');
    assert("sort"@[0] == 's');
    assert("year"@[0] == 'y');
    assert("genre"@[0] == 'g');
    assert("where"@[0] == 'w');

    let ps = films_request_pairs(v);
    let sts = v.where_film_status;
    lemma_lookup_where_pairs(sts, "cursor"@);
    lemma_lookup_where_pairs(sts, "perPage"@);
    lemma_lookup_where_pairs(sts, "sort"@);
    lemma_lookup_where_pairs(sts, "genre"@);
    lemma_lookup_where_pairs(sts, "decade"@);
    lemma_lookup_where_pairs(sts, "year"@);
    lemma_lookup_where_pairs(sts, "service"@);
    lemma_lookup_where_pairs(sts, "member"@);
    lemma_lookup_where_pairs(sts, "memberRelationship"@);
    lemma_lookup_where_pairs(sts, "includeFriends"@);
    lemma_lookup_where_pairs(sts, "tagCode"@);
    lemma_lookup_where_pairs(sts, "tagger"@);
    lemma_lookup_where_pairs(sts, "includeTaggerFriends"@);
    lemma_lookup_all_where_pairs(sts);
    lemma_parse_status_names(sts);

    assert(lookup_first(ps, "cursor"@) == v.cursor);
    assert(lookup_first(ps, "genre"@) == v.genre);
    assert(lookup_first(ps, "service"@) == v.service);
    assert(lookup_first(ps, "member"@) == v.member);
    assert(lookup_first(ps, "tagCode"@) == v.tag_code);
    assert(lookup_first(ps, "tagger"@) == v.tagger);
    assert(lookup_all(ps, "where"@) =~= sts.map_values(|st: FilmStatus| st.spec_name()));

    match v.per_page {
        Some(n) => {
            crate::encode::lemma_dec_of_ascii(n as nat);
            crate::text::lemma_ascii_bytes_utf8(dec_of(n as nat));
            crate::json::lemma_dec_of_round_trip(n as nat);
            assert(parse_usize_chars(dec_chars(n as nat)) == Some(n));
        },
        None => {},
    }
    match v.decade {
        Some(n) => {
            crate::encode::lemma_dec_of_ascii(n as nat);
            crate::text::lemma_ascii_bytes_utf8(dec_of(n as nat));
            crate::json::lemma_dec_of_round_trip(n as nat);
            assert(parse_u16_chars(dec_chars(n as nat)) == Some(n));
        },
        None => {},
    }
    match v.year {
        Some(n) => {
            crate::encode::lemma_dec_of_ascii(n as nat);
            crate::text::lemma_ascii_bytes_utf8(dec_of(n as nat));
            crate::json::lemma_dec_of_round_trip(n as nat);
            assert(parse_u16_chars(dec_chars(n as nat)) == Some(n));
        },
        None => {},
    }
    match v.sort {
        Some(x) => lemma_film_request_sort_round_trip(x),
        None => {},
    }
    match v.member_relationship {
        Some(x) => lemma_film_relationship_type_round_trip(x),
        None => {},
    }
    match v.include_friends {
        Some(x) => lemma_include_friends_round_trip(x),
        None => {},
    }
    match v.include_tagger_friends {
        Some(x) => lemma_include_friends_round_trip(x),
        None => {},
    }

    match films_request_of_pairs(ps) {
        Some(w) => {
            assert(w =~= v);
        },
        None => {
            assert(false);
        },
    }
}

/// The full wire round trip of a film list request: its query pairs,
/// encoded as a query string and parsed back off the wire, decode to the
/// same pairs, and reading those pairs yields the original request —
/// every unset optional field comes back unset, every set field with its
/// exact value.
pub proof fn lemma_films_request_wire_round_trip(v: FilmsRequestView)
    ensures
        ({
            let wire_pairs = crate::encode::pairs_utf8(films_request_pairs(v));
            &&& crate::encode::parse_query(crate::encode::encode_query(wire_pairs)) == Some(
                wire_pairs,
            )
            &&& crate::encode::pairs_decoded(wire_pairs) == films_request_pairs(v)
            &&& films_request_of_pairs(films_request_pairs(v)) == Some(v)
        }),
{
    crate::encode::lemma_parse_query_encode(crate::encode::pairs_utf8(films_request_pairs(v)));
    crate::encode::lemma_pairs_utf8_decoded(films_request_pairs(v));
    lemma_films_request_round_trip(v);
}

// ---------------------------------------------------------------------------
// Reading a genre out of a response body
// ---------------------------------------------------------------------------

/// The genre fields carried by a response body: present exactly when the
/// body is one flat JSON object with string members `id` and `name`.
pub open spec fn genre_fields_of_json(bytes: Seq<u8>) -> Option<(Seq<char>, Seq<char>)> {
    match spec_parse_object(bytes) {
        None => None,
        Some(ms) => {
            let id = spec_string_member(ms, encode_utf8("id"@));
            let name = spec_string_member(ms, encode_utf8("name"@));
            if id is Some && name is Some {
                Some((id->0, name->0))
            } else {
                None
            }
        },
    }
}

impl Genre {
    /// Reads a genre from a success response body in canonical flat JSON
    /// form (one object, no whitespace, no string escapes).  A body
    /// without that shape is a deserialization error.
    pub fn from_json(bytes: &[u8]) -> (r: Result<Genre, Error>)
        ensures
            match r {
                Ok(g) => genre_fields_of_json(bytes@) == Some((g.id@, g.name@)),
                Err(e) => genre_fields_of_json(bytes@) is None && e is Deserialization,
            },
    {
        match parse_json_object(bytes) {
            None => Err(
                Error::Deserialization {
                    detail: String::from_str("the genre response is not a flat JSON object"),
                },
            ),
            Some(members) => {
                let id = lookup_string(&members, "id");
                let name = lookup_string(&members, "name");
                match (id, name) {
                    (Some(id), Some(name)) => Ok(Genre { id, name }),
                    _ => Err(
                        Error::Deserialization {
                            detail: String::from_str("the genre response misses a field"),
                        },
                    ),
                }
            },
        }
    }
}

} // verus!
