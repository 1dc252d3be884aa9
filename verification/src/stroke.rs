//! Paths as sequences of points: the segment a path ends on, and the runs of
//! a stroke still being drawn that are ready to be drawn once and kept.

use vstd::prelude::*;

verus! {

/// How many points of a stroke being drawn make a run that is kept.
pub const CHUNK_POINTS: usize = 2048;

/// The last segment of a path, from its second-to-last point to its last;
/// none for a path of fewer than two points.
pub fn path_endpoints<P: Copy>(points: &[P]) -> (endpoints: Option<(P, P)>)
    ensures
        points@.len() >= 2 ==> endpoints == Some(
            (points@[points@.len() - 2], points@[points@.len() - 1]),
        ),
        points@.len() < 2 ==> endpoints is None,
{
    let n = points.len();
    if n < 2 {
        return None;
    }
    let start = points[n - 2];
    let end = points[n - 1];
    Some((start, end))
}

/// The run of a stroke to keep next, given how many points it has and where
/// the part not kept yet starts: when more than `CHUNK_POINTS` points follow
/// that start, the `CHUNK_POINTS` points from it, as an end index, and where
/// the rest then starts, on the run's last point so that the pieces join.
pub fn ready_chunk(len: usize, start: usize) -> (chunk: Option<(usize, usize)>)
    ensures
        len <= start + CHUNK_POINTS ==> chunk is None,
        len > start + CHUNK_POINTS ==> chunk == Some(
            ((start + CHUNK_POINTS) as usize, (start + CHUNK_POINTS - 1) as usize),
        ),
{
    if len.saturating_sub(start) <= CHUNK_POINTS {
        return None;
    }
    let end = start + CHUNK_POINTS;
    Some((end, end - 1))
}

} // verus!
