//! Plain data carried between the surrounding application and the
//! library: download requests, catalogue lookups, and streaming
//! metadata. The application keeps serializable twins of these where a
//! wire format is needed.

use vstd::prelude::*;

verus! {

/// A request to download a movie: its catalogue id and its slug.
pub struct MovieDownloadRequest {
    pub id: String,
    pub slug: String,
}

/// A request to download one episode of a series.
pub struct EpisodeDownloadRequest {
    pub title_id: i32,
    pub slug: String,
    pub season: i32,
    pub episode: i32,
}

/// A free-text catalogue search.
pub struct SearchQuery {
    pub q: String,
}

/// A catalogue title lookup, by id or by page address.
pub struct TitleQuery {
    pub id: Option<String>,
    pub url: Option<String>,
    pub media_type: Option<String>,
}

/// A season lookup for a series title.
pub struct SeasonQuery {
    pub url: Option<String>,
    pub n: Option<String>,
}

/// A watch-position update for a watchlist entry.
pub struct UpdateWatchlistItem {
    pub id: i32,
    pub current_episode: Option<i32>,
    pub current_season: Option<i32>,
}

/// One catalogue search hit.
pub struct SearchResponse {
    pub id: i32,
    pub title: String,
    pub slug: String,
    pub media_type: String,
    pub year: Option<i32>,
    pub poster_path: Option<String>,
}

/// Full catalogue information for one title.
pub struct TitleInfo {
    pub id: i32,
    pub title: String,
    pub slug: String,
    pub media_type: String,
    pub year: Option<i32>,
    pub poster_path: Option<String>,
    pub overview: Option<String>,
    pub seasons: Option<Vec<Season>>,
}

/// One season of a series.
pub struct Season {
    pub season_number: i32,
    pub episode_count: i32,
    pub episodes: Vec<Episode>,
}

/// One episode within a season.
pub struct Episode {
    pub episode_number: i32,
    pub title: String,
    pub overview: Option<String>,
}

/// One playable source for a title.
pub struct VideoSource {
    pub url: String,
    pub quality: String,
    pub subtitles: Option<Vec<SubtitleTrack>>,
}

/// One subtitle track offered alongside a source.
pub struct SubtitleTrack {
    pub language: String,
    pub url: String,
}

} // verus!
