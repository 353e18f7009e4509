use krpano::metadata::{
    default_base_index, shape_descriptions, KrpanoImage, KrpanoLevel, KrpanoMetadata,
    LevelAttributes, LevelDesc, ShapeDesc,
};
use krpano::template::{TemplateString, TemplateVariable};
use krpano::Vec2d;

fn template(url: &str) -> TemplateString<TemplateVariable> {
    TemplateString::from_str(url).unwrap()
}

fn shape(url: &str, multires: Option<&str>) -> ShapeDesc {
    ShapeDesc { url: template(url), multires: multires.map(|text| text.to_string()) }
}

fn level(width: u32, height: u32, shape: Vec<KrpanoLevel>) -> KrpanoLevel {
    KrpanoLevel::Level(LevelAttributes { tiledimagewidth: width, tiledimageheight: height, shape })
}

fn untiled(name: &'static str, width: u32, height: u32, url: &str) -> Result<LevelDesc, &'static str> {
    Ok(LevelDesc { name, size: Vec2d { x: width, y: height }, tilesize: None, url: template(url) })
}

fn tiled(
    name: &'static str,
    width: u32,
    height: u32,
    tile: u32,
    url: &str,
) -> Result<LevelDesc, &'static str> {
    Ok(LevelDesc {
        name,
        size: Vec2d { x: width, y: height },
        tilesize: Some(Vec2d { x: tile, y: tile }),
        url: template(url),
    })
}

#[test]
fn base_index_defaults_to_one() {
    assert_eq!(default_base_index(), 1);
}

#[test]
fn shape_with_multires_and_no_size() {
    let node = KrpanoLevel::Flat(shape("https://example.com/", Some("512,768x554")));
    let descriptions = node.level_descriptions(None);
    assert_eq!(descriptions.len(), 1);
    let description = descriptions[0].as_ref().unwrap();
    assert_eq!(description.name, "Flat");
    assert_eq!(description.size, Vec2d { x: 768, y: 554 });
    assert_eq!(description.tilesize, Some(Vec2d { x: 512, y: 512 }));
    assert_eq!(description.url, template("https://example.com/"));
}

#[test]
fn shape_with_a_ladder_of_resolutions() {
    let node = KrpanoLevel::Flat(shape(
        "https://example.com/",
        Some("512,768x554,1664x1202,3200x2310,6400x4618,12800x9234"),
    ));
    assert_eq!(
        node.level_descriptions(None),
        vec![
            tiled("Flat", 768, 554, 512, "https://example.com/"),
            tiled("Flat", 1664, 1202, 512, "https://example.com/"),
            tiled("Flat", 3200, 2310, 512, "https://example.com/"),
            tiled("Flat", 6400, 4618, 512, "https://example.com/"),
            tiled("Flat", 12800, 9234, 512, "https://example.com/"),
        ]
    );
}

#[test]
fn shape_without_multires_and_without_size() {
    let node = KrpanoLevel::Cube(shape("tiles/%s/%v_%h.jpg", None));
    assert_eq!(node.level_descriptions(None), vec![Err("missing multires attribute")]);
}

#[test]
fn level_with_one_cylinder() {
    let url = "monomane.tiles/l7/%v/l7_%v_%h.jpg";
    let node = level(31646, 38234, vec![KrpanoLevel::Cylinder(shape(url, None))]);
    let mut descriptions = node.level_descriptions(None);
    assert_eq!(descriptions.len(), 1);
    let description = descriptions.pop().unwrap().unwrap();
    assert_eq!(description.name, "Cylinder");
    assert_eq!(description.size, Vec2d { x: 31646, y: 38234 });
    assert_eq!(description.tilesize, None);
    assert_eq!(description.url, template(url));
    assert_eq!(description.url.all_sides().len(), 1);
}

#[test]
fn level_of_an_old_cube() {
    let url = "https://example.com/%000r/%0000c.jpg";
    let node = level(3280, 3280, vec![KrpanoLevel::Left(shape(url, None))]);
    assert_eq!(node.level_descriptions(None), vec![untiled("Left", 3280, 3280, url)]);
}

#[test]
fn level_gives_its_size_to_each_face() {
    let node = level(
        2048,
        1024,
        vec![
            KrpanoLevel::Cube(shape("c", None)),
            KrpanoLevel::Cylinder(shape("y", None)),
            KrpanoLevel::Flat(shape("f", None)),
            KrpanoLevel::Left(shape("l", None)),
            KrpanoLevel::Right(shape("r", None)),
            KrpanoLevel::Front(shape("F", None)),
            KrpanoLevel::Back(shape("b", None)),
            KrpanoLevel::Up(shape("u", None)),
            KrpanoLevel::Down(shape("d", None)),
        ],
    );
    assert_eq!(
        node.level_descriptions(None),
        vec![
            untiled("Cube", 2048, 1024, "c"),
            untiled("Cylinder", 2048, 1024, "y"),
            untiled("Flat", 2048, 1024, "f"),
            untiled("Left", 2048, 1024, "l"),
            untiled("Right", 2048, 1024, "r"),
            untiled("Front", 2048, 1024, "F"),
            untiled("Back", 2048, 1024, "b"),
            untiled("Up", 2048, 1024, "u"),
            untiled("Down", 2048, 1024, "d"),
        ]
    );
}

#[test]
fn level_ignores_the_size_around_it() {
    let node = level(100, 50, vec![KrpanoLevel::Front(shape("f", None))]);
    assert_eq!(
        node.level_descriptions(Some(Vec2d { x: 7, y: 7 })),
        vec![untiled("Front", 100, 50, "f")]
    );
}

#[test]
fn shape_takes_the_size_around_it() {
    let node = KrpanoLevel::Up(shape("u_%v_%h", None));
    assert_eq!(
        node.level_descriptions(Some(Vec2d { x: 7, y: 9 })),
        vec![untiled("Up", 7, 9, "u_%v_%h")]
    );
}

#[test]
fn multires_comes_before_the_size_of_the_level() {
    let node = level(100, 50, vec![KrpanoLevel::Cube(shape("%s/%v_%h", Some("256,512,1024x1000x128")))]);
    assert_eq!(
        node.level_descriptions(None),
        vec![tiled("Cube", 512, 512, 256, "%s/%v_%h"), tiled("Cube", 1024, 1000, 128, "%s/%v_%h")]
    );
}

#[test]
fn errors_leave_the_other_results() {
    let nodes = vec![
        KrpanoLevel::Left(shape("l", None)),
        KrpanoLevel::Right(shape("r", Some("512,1024,oops,2048"))),
        level(10, 20, vec![
            KrpanoLevel::Up(shape("u", None)),
            KrpanoLevel::Down(shape("d", Some("nothing"))),
            level(30, 40, vec![KrpanoLevel::Back(shape("b", None))]),
            KrpanoLevel::Front(shape("f", None)),
        ]),
        level(1, 1, vec![]),
        KrpanoLevel::Flat(shape("f", Some("64"))),
    ];
    let image = KrpanoImage { tilesize: Some(512), baseindex: 0, level: nodes };
    assert_eq!(
        image.level_descriptions(),
        vec![
            Err("missing multires attribute"),
            tiled("Right", 1024, 1024, 512, "r"),
            Err("invalid width"),
            tiled("Right", 2048, 2048, 512, "r"),
            untiled("Up", 10, 20, "u"),
            Err("missing tilesize"),
            untiled("Back", 30, 40, "b"),
            untiled("Front", 10, 20, "f"),
        ]
    );
}

#[test]
fn shape_descriptions_names_the_face() {
    assert_eq!(
        shape_descriptions("Cube", shape("a", Some("5,10x20")), Some(Vec2d { x: 1, y: 2 })),
        vec![tiled("Cube", 10, 20, 5, "a")]
    );
    assert_eq!(
        shape_descriptions("Down", shape("a", None), Some(Vec2d { x: 1, y: 2 })),
        vec![untiled("Down", 1, 2, "a")]
    );
    assert_eq!(shape_descriptions("Down", shape("a", None), None), vec![Err("missing multires attribute")]);
    assert_eq!(shape_descriptions("Down", shape("a", Some("")), None), vec![Err("missing tilesize")]);
}

#[test]
fn metadata_resolves_its_images_in_order() {
    let metadata = KrpanoMetadata {
        image: vec![
            KrpanoImage {
                tilesize: Some(512),
                baseindex: 1,
                level: vec![
                    level(31646, 38234, vec![KrpanoLevel::Cylinder(shape("l7/%v/l7_%v_%h.jpg", None))]),
                    level(15823, 19117, vec![KrpanoLevel::Cylinder(shape("l6/%v/l6_%v_%h.jpg", None))]),
                ],
            },
            KrpanoImage { tilesize: None, baseindex: 1, level: vec![] },
            KrpanoImage {
                tilesize: None,
                baseindex: default_base_index(),
                level: vec![KrpanoLevel::Flat(shape("https://example.com/", Some("512,768x554")))],
            },
        ],
    };
    assert_eq!(
        metadata.level_descriptions(),
        vec![
            untiled("Cylinder", 31646, 38234, "l7/%v/l7_%v_%h.jpg"),
            untiled("Cylinder", 15823, 19117, "l6/%v/l6_%v_%h.jpg"),
            tiled("Flat", 768, 554, 512, "https://example.com/"),
        ]
    );
}

#[test]
fn metadata_without_images_is_empty() {
    assert_eq!(KrpanoMetadata { image: vec![] }.level_descriptions(), vec![]);
}

#[test]
fn descriptions_share_the_literals_of_the_shape() {
    let node = KrpanoLevel::Cube(shape("tiles_%s", Some("512,1024,2048")));
    let descriptions = node.level_descriptions(None);
    assert_eq!(descriptions.len(), 2);
    let first = descriptions[0].as_ref().unwrap();
    let second = descriptions[1].as_ref().unwrap();
    match (&first.url.0[0], &second.url.0[0]) {
        (krpano::template::TemplateStringPart::Literal(a), krpano::template::TemplateStringPart::Literal(b)) => {
            assert!(std::sync::Arc::ptr_eq(a, b))
        },
        _ => panic!("a literal is expected"),
    }
    assert_eq!(first.url.clone().all_sides().len(), 6);
}
