use recad_core::gr::{Color, Effects, Font, Justify, Pos, Pt, Pts, Rect};
use recad_core::math::fonts::{color_of_text, get_face, pixels, GlyphItem};
use recad_core::plot::svg::sweep_flag;
use recad_core::plot::text::{rgb_to_u32, to_color};
use recad_core::plot::theme::{Style, Theme, Themes};
use recad_core::plot::{
    anchor, baseline, FontAnchor, FontBaseline, LineCap, Paint, PlotCommand, PlotterImpl,
    PlotterNodes,
};
use recad_core::ErrorKind;

fn effects(justify: Vec<Justify>) -> Effects {
    let mut e = Effects::default();
    e.justify = justify;
    e
}

#[test]
fn plot_command_defaults_and_builders() {
    let c = PlotCommand::new();
    assert!(!c.border);
    assert_eq!(c.theme, Themes::Kicad2020);
    assert_eq!(c.scale, 10000);
    assert!(c.pages.is_empty());
    assert!(!c.split);

    let c = PlotCommand::new()
        .border(Some(true))
        .theme(Some(Themes::Kicad2020))
        .scale(Some(25000))
        .pages(Some(vec![1, 3]))
        .split(Some(true));
    assert!(c.border);
    assert_eq!(c.scale, 25000);
    assert_eq!(c.pages, vec![1, 3]);
    assert!(c.split);

    // a builder without a value leaves the field as it is
    let c = c.border(None).scale(None).pages(None).split(None).theme(None);
    assert!(c.border);
    assert_eq!(c.scale, 25000);
    assert_eq!(c.pages, vec![1, 3]);
    assert!(c.split);
}

#[test]
fn paints() {
    let p = Paint::black();
    assert_eq!(p.color, Color::Rgba(0, 0, 0, 255));
    assert!(p.fill.is_none());
    assert_eq!(Paint::red().color, Color::Rgba(255, 0, 0, 255));
    assert_eq!(Paint::green().color, Color::Rgba(0, 255, 0, 255));
    assert_eq!(Paint::blue().color, Color::Rgba(0, 0, 255, 255));
    assert_eq!(Paint::grey().color, Color::Rgba(128, 128, 128, 255));
}

#[test]
fn anchors_and_baselines() {
    assert_eq!(anchor(&effects(vec![Justify::Right])), FontAnchor::End);
    assert_eq!(anchor(&effects(vec![Justify::Left])), FontAnchor::Start);
    assert_eq!(anchor(&effects(vec![])), FontAnchor::Middle);
    assert_eq!(baseline(&effects(vec![Justify::Bottom])), FontBaseline::Auto);
    assert_eq!(baseline(&effects(vec![Justify::Top])), FontBaseline::Hanging);
    assert_eq!(baseline(&effects(vec![])), FontBaseline::Middle);
    assert_eq!(FontAnchor::End.to_string(), "end");
    assert_eq!(FontAnchor::Start.to_string(), "start");
    assert_eq!(FontAnchor::Middle.to_string(), "middle");
    assert_eq!(FontBaseline::Auto.to_string(), "auto");
    assert_eq!(FontBaseline::Hanging.to_string(), "hanging");
    assert_eq!(FontBaseline::Middle.to_string(), "middle");
    assert_eq!(LineCap::Butt.to_string(), "butt");
    assert_eq!(LineCap::Round.to_string(), "round");
    assert_eq!(LineCap::Square.to_string(), "square");
    assert_eq!(recad_core::plot::svg::anchor(&effects(vec![Justify::Right])), "end");
    assert_eq!(recad_core::plot::svg::baseline(&effects(vec![Justify::Top])), "hanging");
}

#[test]
fn sweep_flags() {
    let start = Pt { x: 0, y: 0 };
    let end = Pt { x: 20000, y: 0 };
    // (0 - 1)(0 - 1) = 1 > (0 - 1)(2 - 1) = -1
    assert_eq!(sweep_flag(&start, &Pt { x: 10000, y: 10000 }, &end), "0");
    // (0 - 1)(0 + 1) = -1 < (0 + 1)(2 - 1) = 1
    assert_eq!(sweep_flag(&start, &Pt { x: 10000, y: -10000 }, &end), "1");
    // three points on a line
    assert_eq!(sweep_flag(&start, &Pt { x: 10000, y: 0 }, &end), "1");
    // the products do not overflow
    let a = Pt { x: i32::MIN, y: i32::MIN };
    let b = Pt { x: i32::MAX, y: i32::MAX };
    assert_eq!(sweep_flag(&a, &b, &a), "1");
    assert_eq!(sweep_flag(&a, &b, &Pt { x: i32::MIN, y: i32::MAX }), "1");
    assert_eq!(sweep_flag(&a, &b, &Pt { x: i32::MAX, y: i32::MIN }), "0");
}

#[test]
fn packed_colors() {
    assert_eq!(rgb_to_u32(0x12, 0x34, 0x56, 0x78), 0x78123456);
    assert_eq!(rgb_to_u32(0, 0, 0, 0), 0);
    assert_eq!(rgb_to_u32(255, 255, 255, 255), 0xFFFFFFFF);
    // a channel above 255 is held to 255
    assert_eq!(rgb_to_u32(300, 1, 2, 1000), 0xFFFF0102);
    assert_eq!(to_color(&Color::Rgb(1, 2, 3)), Some((1, 2, 3, 255)));
    assert_eq!(to_color(&Color::Rgba(1, 2, 3, 4)), Some((1, 2, 3, 4)));
    assert_eq!(to_color(&Color::NoColor), None);
}

#[test]
fn theme_values() {
    let theme = Theme::from(Themes::Kicad2020);
    assert_eq!(theme.face(), "osifont");
    assert_eq!(theme.color(None, Style::Wire).unwrap(), Color::Rgba(0, 150, 0, 255));
    assert_eq!(theme.color(None, Style::NoConnect).unwrap(), Color::Rgba(0, 0, 132, 255));
    assert_eq!(theme.color(None, Style::Junction).unwrap(), Color::Rgba(0, 150, 0, 255));
    assert_eq!(theme.color(None, Style::Outline).unwrap(), Color::Rgba(132, 0, 0, 1));
    assert_eq!(theme.color(None, Style::Property).unwrap(), Color::Rgba(5, 105, 12, 255));
    assert_eq!(theme.color(None, Style::Label).unwrap_err().0, ErrorKind::Theme);
    assert_eq!(theme.color(Some(Color::Rgb(1, 2, 3)), Style::Label).unwrap(), Color::Rgb(1, 2, 3));
    assert_eq!(theme.fill(None, Style::Background).unwrap(), Color::Rgba(255, 255, 194, 255));
    assert_eq!(theme.fill(None, Style::Outline).unwrap(), Color::Rgba(200, 98, 194, 255));
    assert_eq!(theme.fill(None, Style::Wire).unwrap_err().0, ErrorKind::Theme);
    assert_eq!(theme.fill(Some(Color::NoColor), Style::Wire).unwrap(), Color::NoColor);
    assert_eq!(theme.width(0, Style::Wire).unwrap(), 3500);
    assert_eq!(theme.width(99, Style::NoConnect).unwrap(), 2500);
    assert_eq!(theme.width(0, Style::Junction).unwrap(), 1000);
    assert_eq!(theme.width(0, Style::Outline).unwrap(), 3500);
    assert_eq!(theme.width(0, Style::Label).unwrap_err().0, ErrorKind::Theme);
    assert_eq!(theme.font_size((0, 0), Style::Property).unwrap(), (17500, 17500));
    assert_eq!(theme.font_size((0, 5), Style::Label).unwrap(), (17500, 17500));
    assert_eq!(theme.font_size((12700, 12700), Style::Wire).unwrap(), (12700, 12700));
    assert_eq!(theme.font_size((0, 0), Style::Wire).unwrap_err().0, ErrorKind::Theme);
}

#[test]
fn style_names() {
    assert_eq!(Style::from("background".to_string()), Style::Background);
    assert_eq!(Style::from("junction".to_string()), Style::Junction);
    assert_eq!(Style::from("wire".to_string()), Style::Wire);
    assert_eq!(Style::Background.to_string(), "background");
    assert_eq!(Style::NoConnect.to_string(), "noconnect");
    assert_eq!(Style::Todo.to_string(), "todo");
    assert_eq!(Themes::from("anything".to_string()), Themes::Kicad2020);
}

fn point_of(node: &PlotterNodes) -> (i32, i32) {
    match node {
        PlotterNodes::MoveTo(p) => (p.x, p.y),
        PlotterNodes::LineTo(p) => (p.x, p.y),
        _ => panic!("no point"),
    }
}

#[test]
fn plotter_records_what_is_drawn() {
    let mut p = PlotterImpl::new();
    assert!(p.iter().is_empty());
    p.move_to(Pt { x: 1, y: 2 });
    p.line_to(Pt { x: 3, y: 4 });
    p.close();
    p.stroke(Paint::red());
    p.rect(Rect { start: Pt { x: 0, y: 0 }, end: Pt { x: 5, y: 6 } }, Paint::black());
    p.arc(Pt { x: 0, y: 0 }, Pt { x: 1, y: 1 }, Pt { x: 2, y: 0 }, Paint::blue());
    p.circle(Pt { x: 7, y: 8 }, 9, Paint::green());
    p.text("R1", Pos { x: 10, y: 11, angle: 900000 }, Effects::default());
    let items = p.iter();
    assert_eq!(items.len(), 8);
    assert!(matches!(items[0], PlotterNodes::MoveTo(Pt { x: 1, y: 2 })));
    assert!(matches!(items[1], PlotterNodes::LineTo(Pt { x: 3, y: 4 })));
    assert!(matches!(items[2], PlotterNodes::Close));
    match &items[3] {
        PlotterNodes::Stroke(s) => assert_eq!(s.color, Color::Rgba(255, 0, 0, 255)),
        _ => panic!(),
    }
    match &items[4] {
        PlotterNodes::Rect { rect, stroke } => {
            assert_eq!((rect.start.x, rect.start.y, rect.end.x, rect.end.y), (0, 0, 5, 6));
            assert_eq!(stroke.color, Color::Rgba(0, 0, 0, 255));
        }
        _ => panic!(),
    }
    match &items[5] {
        PlotterNodes::Arc { start, mid, end, .. } => {
            assert_eq!((start.x, mid.x, end.x), (0, 1, 2));
        }
        _ => panic!(),
    }
    match &items[6] {
        PlotterNodes::Circle { center, radius, .. } => {
            assert_eq!((center.x, center.y, *radius), (7, 8, 9));
        }
        _ => panic!(),
    }
    match &items[7] {
        PlotterNodes::Text { text, pos, .. } => {
            assert_eq!(text, "R1");
            assert_eq!((pos.x, pos.y, pos.angle), (10, 11, 900000));
        }
        _ => panic!(),
    }
}

#[test]
fn polyline_is_a_path_and_a_stroke() {
    let mut p = PlotterImpl::new();
    p.polyline(
        Pts(vec![Pt { x: 0, y: 0 }, Pt { x: 10, y: 0 }, Pt { x: 10, y: 10 }]),
        Paint::black(),
    );
    let items = p.iter();
    assert_eq!(items.len(), 4);
    assert!(matches!(items[0], PlotterNodes::MoveTo(_)));
    assert_eq!(point_of(&items[0]), (0, 0));
    assert!(matches!(items[1], PlotterNodes::LineTo(_)));
    assert_eq!(point_of(&items[1]), (10, 0));
    assert_eq!(point_of(&items[2]), (10, 10));
    assert!(matches!(items[3], PlotterNodes::Stroke(_)));

    let mut p = PlotterImpl::new();
    p.polyline(Pts(vec![]), Paint::black());
    assert_eq!(p.iter().len(), 1);
    assert!(matches!(p.iter()[0], PlotterNodes::Stroke(_)));
}

#[test]
fn scaling_what_was_drawn() {
    let mut p = PlotterImpl::new();
    p.move_to(Pt { x: 10000, y: 5000 });
    p.line_to(Pt { x: -30000, y: -7 });
    p.circle(Pt { x: 100, y: 200 }, 300, Paint::black());
    p.rect(Rect { start: Pt { x: 2, y: 4 }, end: Pt { x: 6, y: 8 } }, Paint::black());
    p.text("T", Pos { x: 50, y: 60, angle: 900000 }, Effects::default());
    p.close();
    p.scale(20000).unwrap();
    let items = p.iter();
    assert_eq!(items.len(), 6);
    assert_eq!(point_of(&items[0]), (20000, 10000));
    assert_eq!(point_of(&items[1]), (-60000, -14));
    match &items[2] {
        PlotterNodes::Circle { center, radius, .. } => {
            assert_eq!((center.x, center.y, *radius), (200, 400, 600));
        }
        _ => panic!(),
    }
    match &items[3] {
        PlotterNodes::Rect { rect, .. } => {
            assert_eq!((rect.start.x, rect.start.y, rect.end.x, rect.end.y), (4, 8, 12, 16));
        }
        _ => panic!(),
    }
    match &items[4] {
        PlotterNodes::Text { text, pos, .. } => {
            assert_eq!(text, "T");
            assert_eq!((pos.x, pos.y, pos.angle), (100, 120, 900000));
        }
        _ => panic!(),
    }
    assert!(matches!(items[5], PlotterNodes::Close));

    // the factor 1 changes nothing
    p.scale(10000).unwrap();
    assert_eq!(point_of(&p.iter()[1]), (-60000, -14));

    // half of an odd number is rounded away from zero
    let mut p = PlotterImpl::new();
    p.move_to(Pt { x: 3, y: -3 });
    p.scale(5000).unwrap();
    assert_eq!(point_of(&p.iter()[0]), (2, -2));
}

#[test]
fn scaling_beyond_the_range_fails() {
    let mut p = PlotterImpl::new();
    p.move_to(Pt { x: 1, y: 1 });
    p.line_to(Pt { x: i32::MAX, y: 0 });
    let e = p.scale(20000).unwrap_err();
    assert_eq!(e.0, ErrorKind::OutOfRange);
    assert!(p.iter().is_empty());
}

#[test]
fn faces_and_glyphs() {
    let mut e = Effects::default();
    assert_eq!(get_face(&e), "osifont");
    e.font = Font { face: Some("Arial".to_string()), ..Font::default() };
    assert_eq!(get_face(&e), "Arial");

    e.font.color = None;
    assert_eq!(color_of_text(&e), None);
    e.font.color = Some(Color::NoColor);
    assert_eq!(color_of_text(&e), Some((255, 255, 255)));
    e.font.color = Some(Color::Rgb(1, 2, 3));
    assert_eq!(color_of_text(&e), Some((1, 2, 3)));
    e.font.color = Some(Color::Rgba(4, 5, 6, 7));
    assert_eq!(color_of_text(&e), Some((4, 5, 6)));

    assert_eq!(pixels((1, 2, 3), &vec![9, 8]), vec![1, 2, 3, 9, 1, 2, 3, 8]);
    assert!(pixels((1, 2, 3), &vec![]).is_empty());

    let g = GlyphItem::new(5, 6, 2, 1, (10, 20, 30), &vec![0, 255]).unwrap();
    assert_eq!((g.x, g.y, g.width, g.height), (5, 6, 2, 1));
    assert_eq!(g.data, vec![10, 20, 30, 0, 10, 20, 30, 255]);
    assert!(GlyphItem::new(5, 6, 0, 1, (10, 20, 30), &vec![]).is_none());
}
