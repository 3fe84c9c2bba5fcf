//! Derivation of a job's destination path from its title, season and
//! episode: `{title}.mp4` for movies, `{title}_S{season:02}E{episode:02}.mp4`
//! for episodes, placed under the configured download directory.

use crate::numfmt::{i32_to_padded2, padded2};
use vstd::prelude::*;

verus! {

/// The destination filename a job will be written to. Episode jobs
/// carry a season and an episode number; any job without both is named
/// like a movie.
pub open spec fn dest_filename_spec(title: Seq<char>, season: Option<i32>, episode: Option<i32>) -> Seq<char> {
    match (season, episode) {
        (Some(s), Some(e)) => title + seq!['_', 'S'] + padded2(s as int) + seq!['E'] + padded2(
            e as int,
        ) + seq!['.', 'm', 'p', '4'],
        _ => title + seq!['.', 'm', 'p', '4'],
    }
}

/// The full destination path: the download directory, a separator, and
/// the derived filename.
pub open spec fn dest_path_spec(
    dir: Seq<char>,
    title: Seq<char>,
    season: Option<i32>,
    episode: Option<i32>,
) -> Seq<char> {
    dir + seq!['/'] + dest_filename_spec(title, season, episode)
}

/// Builds the destination filename for a job.
pub fn dest_filename(title: &String, season: Option<i32>, episode: Option<i32>) -> (r: String)
    ensures
        r@ == dest_filename_spec(title@, season, episode),
{
    let mut r = title.clone();
    match (season, episode) {
        (Some(s), Some(e)) => {
            r.append("_S");
            let sp = i32_to_padded2(s);
            r.append(sp.as_str());
            r.append("E");
            let ep = i32_to_padded2(e);
            r.append(ep.as_str());
            r.append(".mp4");
            proof {
                reveal_strlit("_S");
                reveal_strlit("E");
                reveal_strlit(".mp4");
                assert(r@ =~= dest_filename_spec(title@, season, episode));
            }
        },
        _ => {
            r.append(".mp4");
            proof {
                reveal_strlit(".mp4");
                assert(r@ =~= dest_filename_spec(title@, season, episode));
            }
        },
    }
    r
}

/// Builds the full destination path under `dir`.
pub fn dest_path(dir: &String, title: &String, season: Option<i32>, episode: Option<i32>) -> (r:
    String)
    ensures
        r@ == dest_path_spec(dir@, title@, season, episode),
{
    let mut r = dir.clone();
    r.append("/");
    let name = dest_filename(title, season, episode);
    r.append(name.as_str());
    proof {
        reveal_strlit("/");
        assert(r@ =~= dest_path_spec(dir@, title@, season, episode));
    }
    r
}

} // verus!
