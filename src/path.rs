//! Path data of one trace: the command list, the points of its single move
//! command, and the trace's pixel length.
use vstd::prelude::*;
use crate::error::RoadError;
use crate::geometry::{
    absolute_length, points_pixel_distance_absolute, points_pixel_distance_relative,
    relative_length, Point,
};

verus! {

/// Coordinate convention of a path command.
#[derive(Clone, Copy, Debug, PartialEq, Eq, Structural)]
pub enum Position {
    Absolute,
    Relative,
}

/// One decoded path command. Only a move is measured; every other drawing
/// command (line, curve, arc, close) is `Other`.
#[derive(Debug)]
pub enum PathCommand {
    Move(Position, Vec<i32>),
    Other,
}

/// The points of a flat parameter list, taken two at a time.
pub open spec fn pairs(params: Seq<i32>) -> Seq<Point> {
    Seq::new(params.len() / 2, |i: int| Point { x: params[2 * i], y: params[2 * i + 1] })
}

/// Pixel length of a path given as its command list.
pub open spec fn path_length(cmds: Seq<PathCommand>) -> Result<nat, RoadError> {
    if cmds.len() != 1 {
        Err(RoadError::CommandCount)
    } else {
        match cmds[0] {
            PathCommand::Other => Err(RoadError::NonMoveCommand),
            PathCommand::Move(pos, params) => if params@.len() % 2 != 0 {
                Err(RoadError::OddParameterCount)
            } else {
                let pts = pairs(params@);
                match pos {
                    Position::Relative => Ok(relative_length(pts)),
                    Position::Absolute => if pts.len() < 2 {
                        Err(RoadError::TooFewPoints)
                    } else {
                        Ok(absolute_length(pts))
                    },
                }
            },
        }
    }
}

/// An executable length agrees with a mathematical one.
pub open spec fn agrees(r: Result<u128, RoadError>, s: Result<nat, RoadError>) -> bool {
    match r {
        Ok(v) => s == Ok::<nat, RoadError>(v as nat),
        Err(e) => s == Err::<nat, RoadError>(e),
    }
}

/// Groups a move command's parameters into points, first value `x`, second
/// `y`, keeping their order. Fails when the count is odd.
pub fn sample_points(params: &Vec<i32>) -> (r: Result<Vec<Point>, RoadError>)
    ensures
        params@.len() % 2 != 0 ==> r == Err::<Vec<Point>, RoadError>(RoadError::OddParameterCount),
        params@.len() % 2 == 0 ==> (r matches Ok(pts) && pts@ == pairs(params@)),
{
    if params.len() % 2 != 0 {
        return Err(RoadError::OddParameterCount);
    }
    let mut pts: Vec<Point> = Vec::new();
    let mut i: usize = 0;
    while i < params.len() / 2
        invariant
            params@.len() % 2 == 0,
            i <= params@.len() / 2,
            pts@ =~= pairs(params@).subrange(0, i as int),
        decreases params.len() / 2 - i,
    {
        pts.push(Point { x: params[2 * i], y: params[2 * i + 1] });
        i = i + 1;
    }
    assert(pts@ =~= pairs(params@));
    Ok(pts)
}

/// Pixel length of one trace's path data: exactly one move command, its
/// points measured under the command's coordinate convention.
pub fn data_pixel_distance(cmds: &Vec<PathCommand>) -> (r: Result<u128, RoadError>)
    ensures
        agrees(r, path_length(cmds@)),
{
    if cmds.len() != 1 {
        return Err(RoadError::CommandCount);
    }
    match &cmds[0] {
        PathCommand::Other => Err(RoadError::NonMoveCommand),
        PathCommand::Move(pos, params) => {
            let pts = match sample_points(params) {
                Ok(p) => p,
                Err(e) => return Err(e),
            };
            match pos {
                Position::Relative => Ok(points_pixel_distance_relative(&pts)),
                Position::Absolute => match points_pixel_distance_absolute(&pts) {
                    Some(d) => Ok(d),
                    None => Err(RoadError::TooFewPoints),
                },
            }
        },
    }
}

} // verus!
