//! The `multires` attribute: a base tile size and then, separated by commas,
//! one entry for each resolution of an image. An entry is a width, an
//! optional height and an optional tile size, separated by `x`.

use crate::chars::{chars_of, decimal, lemma_split_len, parse_u32, split, split_at, texts};
use crate::vec2d::Vec2d;
use vstd::prelude::*;

verus! {

/// The error for an attribute that does not start with a tile size.
pub open spec fn missing_tilesize() -> Seq<char> {
    "missing tilesize"@
}

/// The error for an entry that does not start with a width.
pub open spec fn invalid_width() -> Seq<char> {
    "invalid width"@
}

/// A result with the text of its error.
pub open spec fn outcome<T>(result: Result<T, &'static str>) -> Result<T, Seq<char>> {
    match result {
        Ok(value) => Ok(value),
        Err(error) => Err(error@),
    }
}

/// Results with the texts of their errors.
pub open spec fn outcomes<T>(results: Seq<Result<T, &'static str>>) -> Seq<Result<T, Seq<char>>> {
    results.map_values(|result: Result<T, &'static str>| outcome(result))
}

/// The number at `index` of `dims` where there is one, else `default`.
pub open spec fn dimension(dims: Seq<Seq<char>>, index: int, default: u32) -> u32 {
    if index < dims.len() && decimal(dims[index]) is Some {
        decimal(dims[index])->0
    } else {
        default
    }
}

/// The image size and the tile size that the entry `field` declares, with
/// `base` as the tile size of an entry that has none of its own.
///
/// The width is required. A height that is missing or no number is the
/// width; a tile size that is missing or no number is `base`. Tiles are
/// square. What follows a third dimension is not read.
pub open spec fn entry(field: Seq<char>, base: u32) -> Result<(Vec2d, Vec2d), Seq<char>> {
    let dims = split(field, 'x');
    match decimal(dims[0]) {
        None => Err(invalid_width()),
        Some(width) => {
            let height = dimension(dims, 1, width);
            let tile = dimension(dims, 2, base);
            Ok((Vec2d { x: width, y: height }, Vec2d { x: tile, y: tile }))
        },
    }
}

/// What the attribute `s` declares: one result for each field after the
/// first, in their order; or the one error `missing_tilesize` where the
/// first field is no number.
pub open spec fn multires(s: Seq<char>) -> Seq<Result<(Vec2d, Vec2d), Seq<char>>> {
    let fields = split(s, ',');
    match decimal(fields[0]) {
        None => seq![Err(missing_tilesize())],
        Some(base) => Seq::new((fields.len() - 1) as nat, |i: int| entry(fields[i + 1], base)),
    }
}

/// Whether the attribute `s` starts with a tile size and each of its entries
/// with a width.
pub open spec fn well_formed(s: Seq<char>) -> bool {
    let fields = split(s, ',');
    &&& decimal(fields[0]) is Some
    &&& forall|i: int| 1 <= i < fields.len() ==> decimal(split(#[trigger] fields[i], 'x')[0]) is Some
}

/// A well-formed attribute declares as many sizes as it has fields after the
/// first, without an error among them, and the size at `i` is the one that
/// the field at `i + 1` declares.
pub proof fn lemma_well_formed_entries(s: Seq<char>)
    requires
        well_formed(s),
    ensures
        multires(s).len() == split(s, ',').len() - 1,
        forall|i: int|
            0 <= i < multires(s).len() ==> {
                &&& (#[trigger] multires(s)[i]) is Ok
                &&& multires(s)[i] == entry(split(s, ',')[i + 1], decimal(split(s, ',')[0])->0)
            },
{
    lemma_split_len(s, ',');
    let fields = split(s, ',');
    assert forall|i: int| 0 <= i < multires(s).len() implies (#[trigger] multires(s)[i]) is Ok by {
        assert(decimal(split(fields[i + 1], 'x')[0]) is Some);
    }
}

/// Reads the entry `field`.
fn parse_entry(field: &Vec<char>, base: u32) -> (result: Result<(Vec2d, Vec2d), &'static str>)
    ensures
        outcome(result) == entry(field@, base),
{
    let dims = split_at(field, 'x');
    proof {
        assert(texts(dims@)[0] == dims@[0]@);
        if dims@.len() > 1 {
            assert(texts(dims@)[1] == dims@[1]@);
        }
        if dims@.len() > 2 {
            assert(texts(dims@)[2] == dims@[2]@);
        }
    }
    let width = match parse_u32(&dims[0]) {
        Some(width) => width,
        None => {
            return Err("invalid width");
        },
    };
    let mut height = width;
    if dims.len() > 1 {
        if let Some(number) = parse_u32(&dims[1]) {
            height = number;
        }
    }
    let mut tile = base;
    if dims.len() > 2 {
        if let Some(number) = parse_u32(&dims[2]) {
            tile = number;
        }
    }
    Ok((Vec2d { x: width, y: height }, Vec2d::square(tile)))
}

/// Reads a `multires` attribute.
///
/// Returns the image size and the tile size of each entry, in the order of
/// the entries. An entry without a width gives the error `invalid width` in
/// its place and the others are read all the same. An attribute that does
/// not start with a tile size gives the one error `missing tilesize`.
pub fn parse_multires(s: &str) -> (entries: Vec<Result<(Vec2d, Vec2d), &'static str>>)
    ensures
        outcomes(entries@) == multires(s@),
{
    let chars = chars_of(s);
    let fields = split_at(&chars, ',');
    proof {
        assert(texts(fields@)[0] == fields@[0]@);
    }
    let mut entries: Vec<Result<(Vec2d, Vec2d), &'static str>> = Vec::new();
    let base = match parse_u32(&fields[0]) {
        Some(base) => base,
        None => {
            entries.push(Err("missing tilesize"));
            proof {
                assert(outcomes(entries@) =~= multires(s@));
            }
            return entries;
        },
    };
    let mut i: usize = 1;
    while i < fields.len()
        invariant
            1 <= i <= fields.len(),
            texts(fields@) == split(s@, ','),
            decimal(split(s@, ',')[0]) == Some(base),
            entries@.len() == i - 1,
            forall|k: int| 0 <= k < i - 1 ==> outcome(#[trigger] entries@[k]) == multires(s@)[k],
        decreases fields.len() - i,
    {
        let result = parse_entry(&fields[i], base);
        proof {
            assert(texts(fields@)[i as int] == fields@[i as int]@);
        }
        entries.push(result);
        i = i + 1;
    }
    proof {
        assert(outcomes(entries@) =~= multires(s@));
    }
    entries
}

} // verus!
