use lison::image::{
    Brush, Color, CubicBezierSegment, CurveData, CurveShape, GroupShape, Image, LineCap,
    LineJoin, LineSegment, LinearGradientPattern, MonochromePattern, Pattern, Pen, Point,
    QuadraticBezierSegment, RadialGradientPattern, RegionShape, Segment, Shape,
};
use lison::json::{DecodeError, Json, JsonNumber, Member};
use lison::render::{render, Command, RenderError};
use lison::scalar::Real;
use lison::strip::strip_image;

fn value_to_json(v: &serde_json::Value) -> Json {
    match v {
        serde_json::Value::Null => Json::Null,
        serde_json::Value::Bool(b) => Json::Bool(*b),
        serde_json::Value::Number(n) => Json::Number(JsonNumber {
            float_bits: n.as_f64().map(f64::to_bits),
            uint: n.as_u64(),
        }),
        serde_json::Value::String(s) => Json::Str(s.clone()),
        serde_json::Value::Array(a) => Json::Array(a.iter().map(value_to_json).collect()),
        serde_json::Value::Object(m) => Json::Object(
            m.iter()
                .map(|(k, v)| Member { key: k.clone(), value: value_to_json(v) })
                .collect(),
        ),
    }
}

fn json_to_value(j: &Json) -> serde_json::Value {
    match j {
        Json::Null => serde_json::Value::Null,
        Json::Bool(b) => serde_json::Value::Bool(*b),
        Json::Number(n) => match (n.uint, n.float_bits) {
            (Some(u), _) => serde_json::Value::from(u),
            (None, Some(b)) => serde_json::Value::from(f64::from_bits(b)),
            (None, None) => serde_json::Value::Null,
        },
        Json::Str(s) => serde_json::Value::String(s.clone()),
        Json::Array(a) => serde_json::Value::Array(a.iter().map(json_to_value).collect()),
        Json::Object(m) => serde_json::Value::Object(
            m.iter().map(|e| (e.key.clone(), json_to_value(&e.value))).collect(),
        ),
    }
}

fn parse(text: &str) -> Json {
    value_to_json(&serde_json::from_str(text).unwrap())
}

fn write(j: &Json) -> String {
    serde_json::to_string(&json_to_value(j)).unwrap()
}

fn r(v: f64) -> Real {
    Real::from_bits(v.to_bits())
}

fn pt(x: f64, y: f64) -> Point {
    Point { x: r(x), y: r(y) }
}

fn rgba(red: f64, green: f64, blue: f64, alpha: f64) -> Color {
    Color { red: r(red), green: r(green), blue: r(blue), alpha: r(alpha) }
}

fn near(expect: f64, actual: Real) -> bool {
    let a = f64::from_bits(actual.bits);
    if expect == 0.0 {
        a == 0.0
    } else {
        ((a - expect) / expect).abs() <= 0.0001
    }
}

fn point_near(expect: Point, actual: Point) -> bool {
    near(f64::from_bits(expect.x.bits), actual.x) && near(f64::from_bits(expect.y.bits), actual.y)
}

fn color_near(expect: Color, actual: Color) -> bool {
    near(f64::from_bits(expect.red.bits), actual.red)
        && near(f64::from_bits(expect.green.bits), actual.green)
        && near(f64::from_bits(expect.blue.bits), actual.blue)
        && near(f64::from_bits(expect.alpha.bits), actual.alpha)
}

fn pattern_near(expect: Pattern, actual: Pattern) -> bool {
    match (expect, actual) {
        (Pattern::Monochrome(a), Pattern::Monochrome(b)) => color_near(a.color, b.color),
        (Pattern::LinearGradient(a), Pattern::LinearGradient(b)) => {
            point_near(a.point_1, b.point_1)
                && color_near(a.color_1, b.color_1)
                && point_near(a.point_2, b.point_2)
                && color_near(a.color_2, b.color_2)
        }
        (Pattern::RadialGradient(a), Pattern::RadialGradient(b)) => {
            point_near(a.center_1, b.center_1)
                && near(f64::from_bits(a.radius_1.bits), b.radius_1)
                && color_near(a.color_1, b.color_1)
                && point_near(a.center_2, b.center_2)
                && near(f64::from_bits(a.radius_2.bits), b.radius_2)
                && color_near(a.color_2, b.color_2)
        }
        _ => false,
    }
}

fn segment_near(expect: Segment, actual: Segment) -> bool {
    match (expect, actual) {
        (Segment::Line(a), Segment::Line(b)) => point_near(a.point_2, b.point_2),
        (Segment::QuadraticBezier(a), Segment::QuadraticBezier(b)) => {
            point_near(a.point_2, b.point_2) && point_near(a.point_3, b.point_3)
        }
        (Segment::CubicBezier(a), Segment::CubicBezier(b)) => {
            point_near(a.point_2, b.point_2)
                && point_near(a.point_3, b.point_3)
                && point_near(a.point_4, b.point_4)
        }
        _ => false,
    }
}

fn mono(color: Color) -> Pattern {
    Pattern::Monochrome(MonochromePattern { color })
}

fn line(x: f64, y: f64) -> Segment {
    Segment::Line(LineSegment { point_2: pt(x, y) })
}

fn empty_image() -> Image {
    Image {
        width: r(100.0),
        height: r(50.0),
        unit_per_inch: r(72.0),
        editor: None,
        pens: vec![],
        brushes: vec![],
        shapes: vec![],
    }
}

#[test]
fn test_image_de() {
    let image_str = r#"{
  "width": 640,
  "height": 480,
  "unit-per-inch": 140,
  "pens": [],
  "brushes": [],
  "shapes": []
}"#;
    let image = Image::from_json(&parse(image_str)).unwrap();
    assert!(near(640.0, image.width));
    assert!(near(480.0, image.height));
    assert!(near(140.0, image.unit_per_inch));
    assert_eq!(None, image.editor);

    let image2_str = r#"{
  "width": 1920,
  "height": 1080,
  "unit-per-inch": 220,
  "editor": "T2SY95",
  "pens": [],
  "brushes": [],
  "shapes": []
}"#;
    let image2 = Image::from_json(&parse(image2_str)).unwrap();
    assert!(near(1920.0, image2.width));
    assert!(near(1080.0, image2.height));
    assert!(near(220.0, image2.unit_per_inch));
    assert_eq!(Some(String::from("T2SY95")), image2.editor);
}

#[test]
fn test_image_ser() {
    let image = Image {
        width: r(200.0),
        height: r(100.0),
        unit_per_inch: r(72.0),
        editor: Some(String::from("A7E6W9UF")),
        pens: vec![],
        brushes: vec![],
        shapes: vec![],
    };
    assert_eq!(
        r#"{"width":200.0,"height":100.0,"unit-per-inch":72.0,"editor":"A7E6W9UF","pens":[],"brushes":[],"shapes":[]}"#,
        &write(&image.to_json())
    );

    let image2 = Image {
        width: r(100.0),
        height: r(200.0),
        unit_per_inch: r(96.0),
        editor: None,
        pens: vec![],
        brushes: vec![],
        shapes: vec![],
    };
    assert_eq!(
        r#"{"width":100.0,"height":200.0,"unit-per-inch":96.0,"pens":[],"brushes":[],"shapes":[]}"#,
        &write(&image2.to_json())
    );
}

#[test]
fn test_point_de() {
    let p = Point::from_json(&parse(r#"[2.4, 5.6]"#)).unwrap();
    assert!(point_near(pt(2.4, 5.6), p));
    assert!(Point::from_json(&parse(r#"[1]"#)).is_err());
    assert!(Point::from_json(&parse(r#"[1, 2, 3]"#)).is_err());
}

#[test]
fn test_point_ser() {
    let p = pt(10.0, -8.5);
    assert_eq!(r#"[10.0,-8.5]"#, &write(&p.to_json()));
}

#[test]
fn test_color_de() {
    let c1 = Color::from_json(&parse(r#"[0.5, 1.0, 0.0]"#)).unwrap();
    assert!(color_near(rgba(0.5, 1.0, 0.0, 1.0), c1));
    let c2 = Color::from_json(&parse(r#"[0.541, 0.169, 0.886, 0.7]"#)).unwrap();
    assert!(color_near(rgba(0.541, 0.169, 0.886, 0.7), c2));
    assert!(Color::from_json(&parse(r#"[0.1, 0.2]"#)).is_err());
    assert!(Color::from_json(&parse(r#"[0.1, 0.2, 0.3, 0.4, 0.5]"#)).is_err());
}

#[test]
fn test_color_ser() {
    assert_eq!(r#"[1.0,0.5,0.25]"#, &write(&rgba(1.0, 0.5, 0.25, 1.0).to_json()));
    assert_eq!(r#"[0.25,0.125,1.0,0.5]"#, &write(&rgba(0.25, 0.125, 1.0, 0.5).to_json()));
}

#[test]
fn test_pattern_de() {
    let p1_str = r#"{
  "type": "monochrome",
  "color": [1, 1, 0]
}"#;
    let p1 = Pattern::from_json(&parse(p1_str)).unwrap();
    assert!(pattern_near(mono(rgba(1.0, 1.0, 0.0, 1.0)), p1));

    let p2_str = r#"{
  "type": "linear-gradient",
  "point-1": [0, 0],
  "color-1": [0, 1, 1],
  "point-2": [100, 100],
  "color-2": [1, 1, 1]
}"#;
    let p2 = Pattern::from_json(&parse(p2_str)).unwrap();
    assert!(pattern_near(
        Pattern::LinearGradient(LinearGradientPattern {
            point_1: pt(0.0, 0.0),
            color_1: rgba(0.0, 1.0, 1.0, 1.0),
            point_2: pt(100.0, 100.0),
            color_2: rgba(1.0, 1.0, 1.0, 1.0),
        }),
        p2
    ));

    let p3_str = r#"{
  "type": "radial-gradient",
  "center-1": [50, 50],
  "radius-1": 5,
  "color-1": [1, 0, 1],
  "center-2": [50, 50],
  "radius-2": 70.7,
  "color-2": [1, 0, 1, 0.1]
}"#;
    let p3 = Pattern::from_json(&parse(p3_str)).unwrap();
    assert!(pattern_near(
        Pattern::RadialGradient(RadialGradientPattern {
            center_1: pt(50.0, 50.0),
            radius_1: r(5.0),
            color_1: rgba(1.0, 0.0, 1.0, 1.0),
            center_2: pt(50.0, 50.0),
            radius_2: r(70.7),
            color_2: rgba(1.0, 0.0, 1.0, 0.1),
        }),
        p3
    ));
}

#[test]
fn test_pattern_ser() {
    let p1 = mono(rgba(1.0, 0.0, 0.0, 1.0));
    assert_eq!(r#"{"type":"monochrome","color":[1.0,0.0,0.0]}"#, &write(&p1.to_json()));

    let p2 = Pattern::LinearGradient(LinearGradientPattern {
        point_1: pt(0.0, 0.0),
        color_1: rgba(0.5, 0.5, 1.0, 1.0),
        point_2: pt(100.0, 0.0),
        color_2: rgba(0.0, 0.0, 1.0, 1.0),
    });
    assert_eq!(
        r#"{"type":"linear-gradient","point-1":[0.0,0.0],"color-1":[0.5,0.5,1.0],"point-2":[100.0,0.0],"color-2":[0.0,0.0,1.0]}"#,
        &write(&p2.to_json())
    );

    let p3 = Pattern::RadialGradient(RadialGradientPattern {
        center_1: pt(50.0, 50.0),
        radius_1: r(5.0),
        color_1: rgba(0.0, 0.5, 0.0, 1.0),
        center_2: pt(50.0, 50.0),
        radius_2: r(50.0),
        color_2: rgba(0.0, 0.5, 0.0, 0.25),
    });
    assert_eq!(
        r#"{"type":"radial-gradient","center-1":[50.0,50.0],"radius-1":5.0,"color-1":[0.0,0.5,0.0],"center-2":[50.0,50.0],"radius-2":50.0,"color-2":[0.0,0.5,0.0,0.25]}"#,
        &write(&p3.to_json())
    );
}

#[test]
fn test_line_cap_de() {
    assert!(LineCap::Butt == LineCap::from_json(&parse(r#""butt""#)).unwrap());
    assert!(LineCap::Round == LineCap::from_json(&parse(r#""round""#)).unwrap());
    assert!(LineCap::Square == LineCap::from_json(&parse(r#""square""#)).unwrap());
    assert!(LineCap::from_json(&parse(r#""bad-cap""#)).is_err());
}

#[test]
fn test_line_cap_ser() {
    assert_eq!(r#""butt""#, &write(&LineCap::Butt.to_json()));
    assert_eq!(r#""round""#, &write(&LineCap::Round.to_json()));
    assert_eq!(r#""square""#, &write(&LineCap::Square.to_json()));
}

#[test]
fn test_line_join_de() {
    assert!(LineJoin::Miter == LineJoin::from_json(&parse(r#""miter""#)).unwrap());
    assert!(LineJoin::Round == LineJoin::from_json(&parse(r#""round""#)).unwrap());
    assert!(LineJoin::Bevel == LineJoin::from_json(&parse(r#""bevel""#)).unwrap());
    assert!(LineJoin::from_json(&parse(r#""bad-join""#)).is_err());
}

#[test]
fn test_line_join_ser() {
    assert_eq!(r#""miter""#, &write(&LineJoin::Miter.to_json()));
    assert_eq!(r#""round""#, &write(&LineJoin::Round.to_json()));
    assert_eq!(r#""bevel""#, &write(&LineJoin::Bevel.to_json()));
}

#[test]
fn test_pen_de() {
    let pen_str = r#"{
  "pattern": {
    "type": "monochrome",
    "color": [0.3, 0.4, 0.5, 0.6]
  },
  "width": 5,
  "cap": "butt",
  "join": "bevel"
}"#;
    let pen = Pen::from_json(&parse(pen_str)).unwrap();
    assert!(pattern_near(mono(rgba(0.3, 0.4, 0.5, 0.6)), pen.pattern));
    assert!(near(5.0, pen.width));
    assert!(LineCap::Butt == pen.cap);
    assert!(LineJoin::Bevel == pen.join);
}

#[test]
fn test_pen_ser() {
    let pen = Pen {
        pattern: mono(rgba(0.9, 0.8, 0.7, 0.6)),
        width: r(2.5),
        cap: LineCap::Round,
        join: LineJoin::Round,
    };
    assert_eq!(
        r#"{"pattern":{"type":"monochrome","color":[0.9,0.8,0.7,0.6]},"width":2.5,"cap":"round","join":"round"}"#,
        &write(&pen.to_json())
    );
}

#[test]
fn test_brush_de() {
    let brush_str = r#"{
  "pattern": {
    "type": "monochrome",
    "color": [0.5, 0.6, 0.7]
  }
}"#;
    let brush = Brush::from_json(&parse(brush_str)).unwrap();
    assert!(pattern_near(mono(rgba(0.5, 0.6, 0.7, 1.0)), brush.pattern));
}

#[test]
fn test_brush_ser() {
    let brush = Brush { pattern: mono(rgba(0.5, 1.0, 0.25, 1.0)) };
    assert_eq!(
        r#"{"pattern":{"type":"monochrome","color":[0.5,1.0,0.25]}}"#,
        &write(&brush.to_json())
    );
}

#[test]
fn test_segment_de() {
    let seg1 = Segment::from_json(&parse(r#"["L", [10, 11]]"#)).unwrap();
    assert!(segment_near(line(10.0, 11.0), seg1));

    let seg2 = Segment::from_json(&parse(r#"["Q", [12, 13], [14, 15]]"#)).unwrap();
    assert!(segment_near(
        Segment::QuadraticBezier(QuadraticBezierSegment {
            point_2: pt(12.0, 13.0),
            point_3: pt(14.0, 15.0),
        }),
        seg2
    ));

    let seg3 = Segment::from_json(&parse(r#"["C", [16, 17], [18, 19], [20, 21]]"#)).unwrap();
    assert!(segment_near(
        Segment::CubicBezier(CubicBezierSegment {
            point_2: pt(16.0, 17.0),
            point_3: pt(18.0, 19.0),
            point_4: pt(20.0, 21.0),
        }),
        seg3
    ));
}

#[test]
fn test_segment_ser() {
    assert_eq!(r#"["L",[1.0,2.0]]"#, &write(&line(1.0, 2.0).to_json()));

    let seg2 = Segment::QuadraticBezier(QuadraticBezierSegment {
        point_2: pt(1.0, 2.0),
        point_3: pt(3.0, -4.0),
    });
    assert_eq!(r#"["Q",[1.0,2.0],[3.0,-4.0]]"#, &write(&seg2.to_json()));

    let seg3 = Segment::CubicBezier(CubicBezierSegment {
        point_2: pt(1.0, 2.0),
        point_3: pt(3.0, 4.0),
        point_4: pt(5.0, 6.0),
    });
    assert_eq!(r#"["C",[1.0,2.0],[3.0,4.0],[5.0,6.0]]"#, &write(&seg3.to_json()));
}

#[test]
fn test_curve_data_de() {
    let dat_str = r#"[
  [10, 11],
  ["L", [12, 13]],
  ["Q", [14, 15], [16, 17]]
]"#;
    let dat = CurveData::from_json(&parse(dat_str)).unwrap();
    assert!(near(10.0, dat.start.x));
    assert!(near(11.0, dat.start.y));
    assert_eq!(2, dat.segments.len());
    assert!(segment_near(line(12.0, 13.0), dat.segments[0]));
    assert!(segment_near(
        Segment::QuadraticBezier(QuadraticBezierSegment {
            point_2: pt(14.0, 15.0),
            point_3: pt(16.0, 17.0),
        }),
        dat.segments[1]
    ));
}

#[test]
fn test_curve_data_ser() {
    let dat = CurveData {
        start: pt(1.0, 2.0),
        segments: vec![
            line(3.0, 4.0),
            Segment::QuadraticBezier(QuadraticBezierSegment {
                point_2: pt(5.0, 6.0),
                point_3: pt(7.0, 8.0),
            }),
        ],
    };
    assert_eq!(
        r#"[[1.0,2.0],["L",[3.0,4.0]],["Q",[5.0,6.0],[7.0,8.0]]]"#,
        &write(&dat.to_json())
    );
}

#[test]
fn test_shape_de() {
    let sh1_str = r#"{
  "type": "group",
  "content": [{
    "type": "group",
    "content": [],
    "edit-annot": false
  }]
}"#;
    let sh = Shape::from_json(&parse(sh1_str)).unwrap();
    if let Shape::Group(s) = sh {
        assert!(matches!(s.edit_annot, Json::Null));
        assert_eq!(1, s.content.len());
        if let Shape::Group(s) = &s.content[0] {
            assert!(matches!(s.edit_annot, Json::Bool(false)));
            assert_eq!(0, s.content.len())
        } else {
            assert!(false);
        }
    } else {
        assert!(false);
    }

    let sh2_str = r#"{
  "type": "curve",
  "pen": 3,
  "data": [
    [10, 11],
    ["L", [12, 13]],
    ["Q", [14, 15], [16, 17]]
  ]
}"#;
    let sh2 = Shape::from_json(&parse(sh2_str)).unwrap();
    if let Shape::Curve(s) = sh2 {
        assert_eq!(3, s.pen);
        assert!(near(10.0, s.data.start.x));
        assert!(near(11.0, s.data.start.y));
        assert_eq!(2, s.data.segments.len());
        assert!(segment_near(line(12.0, 13.0), s.data.segments[0]));
        assert!(segment_near(
            Segment::QuadraticBezier(QuadraticBezierSegment {
                point_2: pt(14.0, 15.0),
                point_3: pt(16.0, 17.0),
            }),
            s.data.segments[1]
        ));
    } else {
        assert!(false);
    }

    let sh3_str = r#"{
  "type": "region",
  "pen": 0,
  "data": [[[7, 8]]]
}"#;
    let sh3 = Shape::from_json(&parse(sh3_str)).unwrap();
    if let Shape::Region(s) = sh3 {
        assert_eq!(Some(0), s.pen);
        assert_eq!(None, s.brush);
        assert_eq!(1, s.data.len());
        assert!(near(7.0, s.data[0].start.x));
        assert!(near(8.0, s.data[0].start.y));
    } else {
        assert!(false);
    }
}

#[test]
fn test_shape_ser() {
    let sh1 = Shape::Group(GroupShape { content: vec![], edit_annot: Json::Null });
    assert_eq!(r#"{"type":"group","content":[]}"#, &write(&sh1.to_json()));

    let sh2 = Shape::Group(GroupShape {
        content: vec![Shape::Group(GroupShape { content: vec![], edit_annot: Json::Null })],
        edit_annot: Json::Bool(true),
    });
    assert_eq!(
        r#"{"type":"group","content":[{"type":"group","content":[]}],"edit-annot":true}"#,
        &write(&sh2.to_json())
    );

    let sh3 = Shape::Curve(CurveShape {
        pen: 1,
        data: CurveData { start: pt(1.0, 2.0), segments: vec![line(3.0, 4.0)] },
    });
    assert_eq!(
        r#"{"type":"curve","pen":1,"data":[[1.0,2.0],["L",[3.0,4.0]]]}"#,
        &write(&sh3.to_json())
    );

    let sh4 = Shape::Region(RegionShape {
        pen: Some(0),
        brush: None,
        data: vec![CurveData { start: pt(5.0, 6.0), segments: vec![line(7.0, 8.0)] }],
    });
    assert_eq!(
        r#"{"type":"region","pen":0,"data":[[[5.0,6.0],["L",[7.0,8.0]]]]}"#,
        &write(&sh4.to_json())
    );

    let sh5 = Shape::Region(RegionShape {
        pen: None,
        brush: Some(1),
        data: vec![CurveData { start: pt(9.0, 10.0), segments: vec![] }],
    });
    assert_eq!(r#"{"type":"region","brush":1,"data":[[[9.0,10.0]]]}"#, &write(&sh5.to_json()));
}

fn array_len(j: &Json) -> usize {
    match j {
        Json::Array(a) => a.len(),
        _ => usize::MAX,
    }
}

fn square(x0: f64, y0: f64, x1: f64, y1: f64) -> CurveData {
    CurveData {
        start: pt(x0, y0),
        segments: vec![line(x1, y0), line(x1, y1), line(x0, y1), line(x0, y0)],
    }
}

fn solid_pen() -> Pen {
    Pen {
        pattern: mono(rgba(0.0, 0.0, 0.0, 1.0)),
        width: r(1.0),
        cap: LineCap::Butt,
        join: LineJoin::Miter,
    }
}

#[test]
fn alpha_is_written_only_below_one() {
    assert_eq!(3, array_len(&rgba(0.1, 0.2, 0.3, 1.0).to_json()));
    assert_eq!(4, array_len(&rgba(0.1, 0.2, 0.3, 0.5).to_json()));
    assert_eq!(3, array_len(&rgba(0.1, 0.2, 0.3, 1.5).to_json()));
    assert_eq!(3, array_len(&rgba(0.1, 0.2, 0.3, -0.5).to_json()));
    assert_eq!(4, array_len(&rgba(0.1, 0.2, 0.3, 0.0).to_json()));
    assert_eq!(4, array_len(&rgba(0.1, 0.2, 0.3, -0.0).to_json()));
    assert_eq!(3, array_len(&rgba(0.1, 0.2, 0.3, f64::NAN).to_json()));
}

#[test]
fn unit_interval_test_on_bit_patterns() {
    assert!(r(0.0).is_in_unit_interval());
    assert!(r(-0.0).is_in_unit_interval());
    assert!(r(0.999999).is_in_unit_interval());
    assert!(r(f64::MIN_POSITIVE / 4.0).is_in_unit_interval());
    assert!(!r(1.0).is_in_unit_interval());
    assert!(!r(-1e-300).is_in_unit_interval());
    assert!(!r(f64::INFINITY).is_in_unit_interval());
    assert!(!r(f64::NAN).is_in_unit_interval());
    assert_eq!(1.0f64.to_bits(), Real::one().bits);
}

#[test]
fn opaque_out_of_range_alpha_comes_back_as_one() {
    let c = Color::from_json(&rgba(0.1, 0.2, 0.3, 1.5).to_json()).unwrap();
    assert_eq!(1.0, f64::from_bits(c.alpha.bits));
    let d = Color::from_json(&rgba(0.1, 0.2, 0.3, 0.25).to_json()).unwrap();
    assert_eq!(rgba(0.1, 0.2, 0.3, 0.25), d);
}

#[test]
fn arity_errors() {
    assert_eq!(Err(DecodeError::InvalidLength(1)), Point::from_json(&parse("[1]")));
    assert_eq!(Err(DecodeError::InvalidLength(3)), Point::from_json(&parse("[1, 2, 3]")));
    assert_eq!(Err(DecodeError::InvalidLength(0)), Point::from_json(&parse("[]")));
    assert_eq!(Err(DecodeError::InvalidLength(2)), Color::from_json(&parse("[0.1, 0.2]")));
    assert_eq!(
        Err(DecodeError::InvalidLength(5)),
        Color::from_json(&parse("[0.1, 0.2, 0.3, 0.4, 0.5]"))
    );
    assert_eq!(
        Err(DecodeError::InvalidLength(3)),
        Segment::from_json(&parse(r#"["L", [1, 2], [3, 4]]"#))
    );
    assert_eq!(Err(DecodeError::InvalidLength(2)), Segment::from_json(&parse(r#"["Q", [1, 2]]"#)));
    assert_eq!(
        Err(DecodeError::InvalidLength(3)),
        Segment::from_json(&parse(r#"["C", [1, 2], [3, 4]]"#))
    );
    assert_eq!(Err(DecodeError::InvalidLength(0)), Segment::from_json(&parse("[]")));
    assert!(matches!(CurveData::from_json(&parse("[]")), Err(DecodeError::InvalidLength(0))));
}

#[test]
fn unknown_tags_name_the_allowed_ones() {
    let e = Segment::from_json(&parse(r#"["X", [1, 2]]"#)).unwrap_err();
    assert_eq!(DecodeError::UnknownVariant(lison::json::TagSet::Segment), e);
    if let DecodeError::UnknownVariant(set) = e {
        assert_eq!(vec!["L", "Q", "C"], set.allowed());
    }
    let p = Pattern::from_json(&parse(r#"{"type": "solid", "color": [1, 1, 1]}"#)).unwrap_err();
    assert_eq!(DecodeError::UnknownVariant(lison::json::TagSet::Pattern), p);
    let s = Shape::from_json(&parse(r#"{"type": "circle"}"#)).unwrap_err();
    assert_eq!(DecodeError::UnknownVariant(lison::json::TagSet::Shape), s);
    assert_eq!(
        Err(DecodeError::UnknownVariant(lison::json::TagSet::LineCap)),
        LineCap::from_json(&parse(r#""bad-cap""#))
    );
}

#[test]
fn field_errors() {
    assert_eq!(Err(DecodeError::WrongType), Point::from_json(&parse(r#""x""#)));
    assert_eq!(Err(DecodeError::WrongType), Point::from_json(&parse(r#"[1, "y"]"#)));
    let extra = r#"{"pattern": {"type": "monochrome", "color": [0, 0, 0]}, "width": 1,
        "cap": "butt", "join": "miter", "colour": 3}"#;
    assert_eq!(Err(DecodeError::UnknownField), Pen::from_json(&parse(extra)));
    let missing = r#"{"pattern": {"type": "monochrome", "color": [0, 0, 0]},
        "cap": "butt", "join": "miter"}"#;
    assert_eq!(Err(DecodeError::MissingField), Pen::from_json(&parse(missing)));
    let untagged = r#"{"color": [0, 0, 0]}"#;
    assert_eq!(Err(DecodeError::MissingField), Pattern::from_json(&parse(untagged)));
    let twice = Json::Object(vec![
        Member { key: String::from("pattern"), value: mono(rgba(0.0, 0.0, 0.0, 1.0)).to_json() },
        Member { key: String::from("pattern"), value: mono(rgba(1.0, 1.0, 1.0, 1.0)).to_json() },
    ]);
    assert_eq!(Err(DecodeError::DuplicateField), Brush::from_json(&twice));
    let float_index = r#"{"type": "curve", "pen": 1.5, "data": [[0, 0]]}"#;
    assert!(matches!(Shape::from_json(&parse(float_index)), Err(DecodeError::WrongType)));
}

#[test]
fn absent_and_null_optionals() {
    let image = Image::from_json(&parse(
        r#"{"width": 1, "height": 2, "unit-per-inch": 3, "editor": null,
            "pens": [], "brushes": [], "shapes": []}"#,
    ))
    .unwrap();
    assert_eq!(None, image.editor);
    let region = Shape::from_json(&parse(r#"{"type": "region", "pen": null, "data": []}"#)).unwrap();
    if let Shape::Region(g) = region {
        assert_eq!(None, g.pen);
        assert_eq!(None, g.brush);
        assert_eq!(0, g.data.len());
    } else {
        assert!(false);
    }
}

#[test]
fn document_round_trip() {
    let text = r#"{"width":100.0,"height":50.0,"unit-per-inch":72.0,"editor":"ed","pens":[{"pattern":{"type":"linear-gradient","point-1":[0.0,0.0],"color-1":[0.5,0.5,1.0],"point-2":[100.0,0.0],"color-2":[0.0,0.0,1.0,0.5]},"width":2.5,"cap":"square","join":"bevel"}],"brushes":[{"pattern":{"type":"radial-gradient","center-1":[1.0,2.0],"radius-1":3.0,"color-1":[0.0,0.0,0.0],"center-2":[4.0,5.0],"radius-2":6.0,"color-2":[1.0,1.0,1.0,0.75]}}],"shapes":[{"type":"group","content":[{"type":"curve","pen":0,"data":[[1.0,2.0],["C",[3.0,4.0],[5.0,6.0],[7.0,8.0]]]}],"edit-annot":{"name":"layer","locked":[true,null,3]}},{"type":"region","pen":0,"brush":0,"data":[[[0.0,0.0],["L",[1.0,1.0]]],[[2.0,2.0]]]}]}"#;
    let image = Image::from_json(&parse(text)).unwrap();
    assert_eq!(text, &write(&image.to_json()));
    let again = Image::from_json(&image.to_json()).unwrap();
    assert_eq!(text, &write(&again.to_json()));
}

#[test]
fn annotation_copy_is_deep() {
    let j = parse(r#"{"a": [1, {"b": null}], "c": "d"}"#);
    assert_eq!(write(&j), write(&j.duplicate()));
}

#[test]
fn strip_flattens_groups_in_order() {
    let curve_a = Shape::Curve(CurveShape { pen: 0, data: square(0.0, 0.0, 1.0, 1.0) });
    let region_b = Shape::Region(RegionShape {
        pen: None,
        brush: Some(0),
        data: vec![square(2.0, 2.0, 3.0, 3.0)],
    });
    let mut image = empty_image();
    image.editor = Some(String::from("tool"));
    image.shapes = vec![
        Shape::Group(GroupShape {
            content: vec![curve_a],
            edit_annot: Json::Bool(true),
        }),
        region_b,
        Shape::Group(GroupShape { content: vec![], edit_annot: Json::Null }),
    ];
    strip_image(&mut image);
    assert_eq!(None, image.editor);
    assert_eq!(2, image.shapes.len());
    assert_eq!(
        r#"{"type":"curve","pen":0,"data":[[0.0,0.0],["L",[1.0,0.0]],["L",[1.0,1.0]],["L",[0.0,1.0]],["L",[0.0,0.0]]]}"#,
        &write(&image.shapes[0].to_json())
    );
    assert_eq!(
        r#"{"type":"region","brush":0,"data":[[[2.0,2.0],["L",[3.0,2.0]],["L",[3.0,3.0]],["L",[2.0,3.0]],["L",[2.0,2.0]]]]}"#,
        &write(&image.shapes[1].to_json())
    );
}

#[test]
fn region_with_hole_is_one_path_filled_once() {
    let mut image = empty_image();
    image.brushes = vec![Brush { pattern: mono(rgba(1.0, 0.0, 0.0, 1.0)) }];
    image.shapes = vec![Shape::Region(RegionShape {
        pen: None,
        brush: Some(0),
        data: vec![square(0.0, 0.0, 10.0, 10.0), square(3.0, 3.0, 7.0, 7.0)],
    })];
    let commands = render(&image).unwrap();
    let mut expect = vec![Command::NewPath, Command::MoveTo(pt(0.0, 0.0))];
    for p in [pt(10.0, 0.0), pt(10.0, 10.0), pt(0.0, 10.0), pt(0.0, 0.0)] {
        expect.push(Command::LineTo(p));
    }
    expect.push(Command::ClosePath);
    expect.push(Command::NewSubPath);
    expect.push(Command::MoveTo(pt(3.0, 3.0)));
    for p in [pt(7.0, 3.0), pt(7.0, 7.0), pt(3.0, 7.0), pt(3.0, 3.0)] {
        expect.push(Command::LineTo(p));
    }
    expect.push(Command::ClosePath);
    expect.push(Command::SetSource(mono(rgba(1.0, 0.0, 0.0, 1.0))));
    expect.push(Command::FillPreserve);
    expect.push(Command::NewPath);
    assert_eq!(expect, commands);
    let fills = commands.iter().filter(|c| **c == Command::FillPreserve).count();
    let moves = commands.iter().filter(|c| matches!(c, Command::MoveTo(_))).count();
    assert_eq!((1, 2), (fills, moves));
}

#[test]
fn dangling_pen_fails_at_render_not_at_decode() {
    let text = r#"{"width": 10, "height": 10, "unit-per-inch": 72,
        "pens": [
          {"pattern": {"type": "monochrome", "color": [0, 0, 0]}, "width": 1, "cap": "butt", "join": "miter"},
          {"pattern": {"type": "monochrome", "color": [1, 1, 1]}, "width": 2, "cap": "round", "join": "round"}
        ],
        "brushes": [],
        "shapes": [{"type": "group", "content": [{"type": "curve", "pen": 5, "data": [[0, 0], ["L", [1, 1]]]}]}]}"#;
    let image = Image::from_json(&parse(text)).unwrap();
    assert_eq!(2, image.pens.len());
    assert_eq!(Err(RenderError::InvalidPen { index: 5, count: 2 }), render(&image));

    let mut brushless = empty_image();
    brushless.shapes = vec![Shape::Region(RegionShape {
        pen: Some(0),
        brush: Some(1),
        data: vec![square(0.0, 0.0, 1.0, 1.0)],
    })];
    assert_eq!(Err(RenderError::InvalidBrush { index: 1, count: 0 }), render(&brushless));
}

#[test]
fn curve_is_open_and_stroked_with_its_pen() {
    let mut image = empty_image();
    image.pens = vec![solid_pen()];
    image.shapes = vec![Shape::Curve(CurveShape {
        pen: 0,
        data: CurveData {
            start: pt(0.0, 0.0),
            segments: vec![
                Segment::QuadraticBezier(QuadraticBezierSegment {
                    point_2: pt(50.0, 100.0),
                    point_3: pt(100.0, 0.0),
                }),
                Segment::CubicBezier(CubicBezierSegment {
                    point_2: pt(1.0, 2.0),
                    point_3: pt(3.0, 4.0),
                    point_4: pt(5.0, 6.0),
                }),
                Segment::QuadraticBezier(QuadraticBezierSegment {
                    point_2: pt(7.0, 8.0),
                    point_3: pt(9.0, 10.0),
                }),
            ],
        },
    })];
    let pen = solid_pen();
    let expect = vec![
        Command::NewPath,
        Command::MoveTo(pt(0.0, 0.0)),
        Command::QuadraticTo(pt(0.0, 0.0), pt(50.0, 100.0), pt(100.0, 0.0)),
        Command::CurveTo(pt(1.0, 2.0), pt(3.0, 4.0), pt(5.0, 6.0)),
        Command::QuadraticTo(pt(5.0, 6.0), pt(7.0, 8.0), pt(9.0, 10.0)),
        Command::SetSource(pen.pattern),
        Command::SetLineWidth(pen.width),
        Command::SetLineCap(pen.cap),
        Command::SetLineJoin(pen.join),
        Command::Stroke,
    ];
    assert_eq!(Ok(expect), render(&image));
}

#[test]
fn empty_document_renders_a_fresh_path_only() {
    assert_eq!(Ok(vec![Command::NewPath]), render(&empty_image()));
}
