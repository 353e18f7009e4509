//! The declarations of a krpano configuration and the level descriptions
//! that they resolve to.
//!
//! An image holds nodes. A node is a level, which declares the size of one
//! resolution and holds the nodes of its faces, or a shape, which names a
//! face and gives the template of its tile URLs. A shape takes its sizes
//! from its own `multires` attribute or, without one, from the level around
//! it.

use crate::multires::{multires, outcomes, parse_multires};
use crate::template::{Part, TemplateString, TemplateVariable};
use crate::vec2d::Vec2d;
use vstd::prelude::*;

verus! {

/// A parsed configuration: its images.
#[derive(Debug, PartialEq)]
pub struct KrpanoMetadata {
    pub image: Vec<KrpanoImage>,
}

/// An image: its nodes, the tile size that it declares, and the number of
/// its first tile, which is kept as it was declared and not used here.
#[derive(Debug, PartialEq)]
pub struct KrpanoImage {
    pub tilesize: Option<u32>,
    pub baseindex: u32,
    pub level: Vec<KrpanoLevel>,
}

/// The number of the first tile of an image that declares none.
pub fn default_base_index() -> (index: u32)
    ensures
        index == 1,
{
    1
}

/// One face of a panorama at one resolution.
#[derive(Debug, PartialEq)]
pub struct LevelDesc {
    /// The kind of the face.
    pub name: &'static str,
    /// The size of the image in pixels.
    pub size: Vec2d,
    /// The size of a tile in pixels, where the image is tiled.
    pub tilesize: Option<Vec2d>,
    /// The template of the tile URLs.
    pub url: TemplateString<TemplateVariable>,
}

/// A shape: the template of its tile URLs and its resolutions.
#[derive(Debug, PartialEq)]
pub struct ShapeDesc {
    pub url: TemplateString<TemplateVariable>,
    pub multires: Option<String>,
}

/// A level: the size of its image and the nodes of its faces.
#[derive(Debug, PartialEq)]
pub struct LevelAttributes {
    pub tiledimagewidth: u32,
    pub tiledimageheight: u32,
    pub shape: Vec<KrpanoLevel>,
}

/// A node of an image.
#[derive(Debug, PartialEq)]
pub enum KrpanoLevel {
    Level(LevelAttributes),
    Cube(ShapeDesc),
    Cylinder(ShapeDesc),
    Flat(ShapeDesc),
    Left(ShapeDesc),
    Right(ShapeDesc),
    Front(ShapeDesc),
    Back(ShapeDesc),
    Up(ShapeDesc),
    Down(ShapeDesc),
}

/// What a level description holds.
pub struct Level {
    pub name: Seq<char>,
    pub size: Vec2d,
    pub tilesize: Option<Vec2d>,
    pub url: Seq<Part<TemplateVariable>>,
}

impl View for LevelDesc {
    type V = Level;

    open spec fn view(&self) -> Level {
        Level { name: self.name@, size: self.size, tilesize: self.tilesize, url: self.url@ }
    }
}

/// What a result holds: the level, or the text of the error.
pub open spec fn described(result: Result<LevelDesc, &'static str>) -> Result<Level, Seq<char>> {
    match result {
        Ok(level) => Ok(level@),
        Err(error) => Err(error@),
    }
}

/// What the results hold.
pub open spec fn all_described(results: Seq<Result<LevelDesc, &'static str>>) -> Seq<
    Result<Level, Seq<char>>,
> {
    results.map_values(|result: Result<LevelDesc, &'static str>| described(result))
}

/// The error for a shape without a size.
pub open spec fn missing_multires() -> Seq<char> {
    "missing multires attribute"@
}

/// The level of a tiled face for an entry of a `multires` attribute.
pub open spec fn tiled(
    name: Seq<char>,
    url: Seq<Part<TemplateVariable>>,
    entry: Result<(Vec2d, Vec2d), Seq<char>>,
) -> Result<Level, Seq<char>> {
    match entry {
        Ok((size, tilesize)) => Ok(Level { name, size, tilesize: Some(tilesize), url }),
        Err(error) => Err(error),
    }
}

impl ShapeDesc {
    /// What the shape resolves to as the face `name`, inside a level of the
    /// size `size` if there is one.
    ///
    /// With a `multires` attribute: for each of its entries a tiled level of
    /// the entry's sizes, or the error of the entry. Without one, inside a
    /// level: one level of the size of that level, not tiled. Else the one
    /// error `missing_multires`. Each level has the template of the shape.
    pub open spec fn levels(self, name: Seq<char>, size: Option<Vec2d>) -> Seq<
        Result<Level, Seq<char>>,
    > {
        match self.multires {
            Some(text) => multires(text@).map_values(
                |entry: Result<(Vec2d, Vec2d), Seq<char>>| tiled(name, self.url@, entry),
            ),
            None => match size {
                Some(size) => seq![Ok(Level { name, size, tilesize: None, url: self.url@ })],
                None => seq![Err(missing_multires())],
            },
        }
    }
}

/// Resolves a shape as the face `name`, inside a level of the size `size`
/// if there is one.
pub fn shape_descriptions(name: &'static str, desc: ShapeDesc, size: Option<Vec2d>) -> (descriptions:
    Vec<Result<LevelDesc, &'static str>>)
    ensures
        all_described(descriptions@) == desc.levels(name@, size),
{
    let ShapeDesc { multires: ladder, url } = desc;
    let mut descriptions: Vec<Result<LevelDesc, &'static str>> = Vec::new();
    match ladder {
        Some(text) => {
            let entries = parse_multires(text.as_str());
            let mut i: usize = 0;
            while i < entries.len()
                invariant
                    i <= entries.len(),
                    outcomes(entries@) == multires(text@),
                    descriptions@.len() == i,
                    forall|k: int|
                        0 <= k < i ==> described(#[trigger] descriptions@[k]) == tiled(
                            name@,
                            url@,
                            outcomes(entries@)[k],
                        ),
                decreases entries.len() - i,
            {
                match entries[i] {
                    Ok((size, tilesize)) => {
                        descriptions.push(
                            Ok(LevelDesc { name, size, tilesize: Some(tilesize), url: url.clone() }),
                        );
                    },
                    Err(error) => {
                        descriptions.push(Err(error));
                    },
                }
                i = i + 1;
            }
            proof {
                assert(all_described(descriptions@) =~= desc.levels(name@, size));
            }
        },
        None => {
            match size {
                Some(size) => {
                    descriptions.push(Ok(LevelDesc { name, size, tilesize: None, url }));
                },
                None => {
                    descriptions.push(Err("missing multires attribute"));
                },
            }
            proof {
                assert(all_described(descriptions@) =~= desc.levels(name@, size));
            }
        },
    }
    descriptions
}

impl KrpanoLevel {
    /// The shape of the node. A level is none.
    pub open spec fn shape(self) -> Option<ShapeDesc> {
        match self {
            KrpanoLevel::Level(_) => None,
            KrpanoLevel::Cube(shape) => Some(shape),
            KrpanoLevel::Cylinder(shape) => Some(shape),
            KrpanoLevel::Flat(shape) => Some(shape),
            KrpanoLevel::Left(shape) => Some(shape),
            KrpanoLevel::Right(shape) => Some(shape),
            KrpanoLevel::Front(shape) => Some(shape),
            KrpanoLevel::Back(shape) => Some(shape),
            KrpanoLevel::Up(shape) => Some(shape),
            KrpanoLevel::Down(shape) => Some(shape),
        }
    }

    /// The name of the kind of the node.
    pub open spec fn name(self) -> Seq<char> {
        match self {
            KrpanoLevel::Level(_) => "Level"@,
            KrpanoLevel::Cube(_) => "Cube"@,
            KrpanoLevel::Cylinder(_) => "Cylinder"@,
            KrpanoLevel::Flat(_) => "Flat"@,
            KrpanoLevel::Left(_) => "Left"@,
            KrpanoLevel::Right(_) => "Right"@,
            KrpanoLevel::Front(_) => "Front"@,
            KrpanoLevel::Back(_) => "Back"@,
            KrpanoLevel::Up(_) => "Up"@,
            KrpanoLevel::Down(_) => "Down"@,
        }
    }

    /// What the node resolves to, inside a level of the size `size` if
    /// there is one.
    ///
    /// A level resolves to what its nodes resolve to inside it, one after
    /// the other in their order; the size around the level itself is not
    /// used. A shape resolves as the face that it names.
    pub open spec fn levels(self, size: Option<Vec2d>) -> Seq<Result<Level, Seq<char>>>
        decreases self, 0nat,
    {
        match self {
            KrpanoLevel::Level(attributes) => levels_of(
                attributes.shape@,
                Some(attributes.size()),
                attributes.shape@.len(),
            ),
            _ => self.shape()->0.levels(self.name(), size),
        }
    }
}

impl LevelAttributes {
    /// The size of the image of the level.
    pub open spec fn size(self) -> Vec2d {
        Vec2d { x: self.tiledimagewidth, y: self.tiledimageheight }
    }
}

/// What the first `count` of `nodes` resolve to inside a level of the size
/// `size`, or outside any level: the results of each, one after the other.
pub open spec fn levels_of(nodes: Seq<KrpanoLevel>, size: Option<Vec2d>, count: nat) -> Seq<
    Result<Level, Seq<char>>,
>
    decreases nodes, count,
{
    if count == 0 || count > nodes.len() {
        Seq::empty()
    } else {
        levels_of(nodes, size, (count - 1) as nat) + nodes[count - 1].levels(size)
    }
}

impl KrpanoLevel {
    /// Resolves the node, inside a level of the size `size` if there is one.
    ///
    /// Returns the level descriptions of the node and the errors of the
    /// shapes and entries that could not be resolved, in the order of the
    /// declarations. An error does not keep the others from being resolved.
    pub fn level_descriptions(self, size: Option<Vec2d>) -> (descriptions: Vec<
        Result<LevelDesc, &'static str>,
    >)
        ensures
            all_described(descriptions@) == self.levels(size),
        decreases self,
    {
        match self {
            KrpanoLevel::Level(attributes) => {
                let LevelAttributes { tiledimagewidth, tiledimageheight, shape } = attributes;
                let inner = Some(Vec2d { x: tiledimagewidth, y: tiledimageheight });
                let ghost nodes = shape@;
                let ghost children = shape;
                let mut descriptions: Vec<Result<LevelDesc, &'static str>> = Vec::new();
                for node in iter: shape
                    invariant
                        iter.seq() == nodes,
                        children@ == nodes,
                        decreases_to!(self => children),
                        all_described(descriptions@) == levels_of(
                            nodes,
                            inner,
                            iter.index() as nat,
                        ),
                {
                    let ghost before = descriptions@;
                    proof {
                        assert(decreases_to!(children => children[iter.index()]));
                    }
                    let mut more = node.level_descriptions(inner);
                    let ghost added = more@;
                    descriptions.append(&mut more);
                    proof {
                        assert(all_described(before + added) =~= all_described(before)
                            + all_described(added));
                    }
                }
                descriptions
            },
            KrpanoLevel::Cube(shape) => shape_descriptions("Cube", shape, size),
            KrpanoLevel::Cylinder(shape) => shape_descriptions("Cylinder", shape, size),
            KrpanoLevel::Flat(shape) => shape_descriptions("Flat", shape, size),
            KrpanoLevel::Left(shape) => shape_descriptions("Left", shape, size),
            KrpanoLevel::Right(shape) => shape_descriptions("Right", shape, size),
            KrpanoLevel::Front(shape) => shape_descriptions("Front", shape, size),
            KrpanoLevel::Back(shape) => shape_descriptions("Back", shape, size),
            KrpanoLevel::Up(shape) => shape_descriptions("Up", shape, size),
            KrpanoLevel::Down(shape) => shape_descriptions("Down", shape, size),
        }
    }
}

impl KrpanoImage {
    /// What the image resolves to: the results of its nodes, outside any
    /// level, one after the other.
    pub open spec fn levels(self) -> Seq<Result<Level, Seq<char>>> {
        levels_of(self.level@, None, self.level@.len())
    }

    /// Resolves the nodes of the image, in their order.
    pub fn level_descriptions(self) -> (descriptions: Vec<Result<LevelDesc, &'static str>>)
        ensures
            all_described(descriptions@) == self.levels(),
    {
        let ghost nodes = self.level@;
        let mut descriptions: Vec<Result<LevelDesc, &'static str>> = Vec::new();
        for node in iter: self.level
            invariant
                iter.seq() == nodes,
                all_described(descriptions@) == levels_of(nodes, None, iter.index() as nat),
        {
            let ghost before = descriptions@;
            let mut more = node.level_descriptions(None);
            let ghost added = more@;
            descriptions.append(&mut more);
            proof {
                assert(all_described(before + added) =~= all_described(before) + all_described(
                    added,
                ));
            }
        }
        descriptions
    }
}

/// What the first `count` of `images` resolve to: the results of each, one
/// after the other.
pub open spec fn levels_of_images(images: Seq<KrpanoImage>, count: nat) -> Seq<
    Result<Level, Seq<char>>,
>
    decreases count,
{
    if count == 0 || count > images.len() {
        Seq::empty()
    } else {
        levels_of_images(images, (count - 1) as nat) + images[count - 1].levels()
    }
}

impl KrpanoMetadata {
    /// What the configuration resolves to: the results of its images, one
    /// after the other.
    pub open spec fn levels(self) -> Seq<Result<Level, Seq<char>>> {
        levels_of_images(self.image@, self.image@.len())
    }

    /// Resolves every node of every image, in the order of the
    /// declarations.
    pub fn level_descriptions(self) -> (descriptions: Vec<Result<LevelDesc, &'static str>>)
        ensures
            all_described(descriptions@) == self.levels(),
    {
        let ghost images = self.image@;
        let mut descriptions: Vec<Result<LevelDesc, &'static str>> = Vec::new();
        for image in iter: self.image
            invariant
                iter.seq() == images,
                all_described(descriptions@) == levels_of_images(images, iter.index() as nat),
        {
            let ghost before = descriptions@;
            let mut more = image.level_descriptions();
            let ghost added = more@;
            descriptions.append(&mut more);
            proof {
                assert(all_described(before + added) =~= all_described(before) + all_described(
                    added,
                ));
            }
        }
        descriptions
    }
}

/// A shape without a `multires` attribute and outside any level resolves to
/// the error `missing_multires` and to no level.
pub proof fn lemma_shape_without_size(node: KrpanoLevel)
    requires
        node.shape() matches Some(shape) && shape.multires is None,
    ensures
        node.levels(None) == seq![Err::<Level, Seq<char>>(missing_multires())],
{
}

/// A shape without a `multires` attribute inside a level resolves to one
/// level: the face that the shape names, of the size of the level around
/// it, not tiled, with the template of the shape.
pub proof fn lemma_shape_in_level(attributes: LevelAttributes, size: Option<Vec2d>)
    requires
        attributes.shape@.len() == 1,
        attributes.shape@[0].shape() matches Some(shape) && shape.multires is None,
    ensures
        KrpanoLevel::Level(attributes).levels(size) == seq![
            Ok::<Level, Seq<char>>(
                Level {
                    name: attributes.shape@[0].name(),
                    size: attributes.size(),
                    tilesize: None,
                    url: attributes.shape@[0].shape()->0.url@,
                },
            ),
        ],
{
    let inner = Some(attributes.size());
    let nodes = attributes.shape@;
    assert(levels_of(nodes, inner, 0) =~= Seq::empty());
    assert(levels_of(nodes, inner, 1) =~= nodes[0].levels(inner));
}

} // verus!
