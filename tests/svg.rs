use tilemap::math::color::Color;
use tilemap::math::size2d::Size2d;
use tilemap::port::renderer::Renderer;
use tilemap::svg::renderer::SvgBuilder;

#[test]
fn test_empty_svg() {
    let builder = SvgBuilder::new(Size2d::new(100, 150));
    let svg = builder.finish();

    let result = "<svg viewBox=\"0 0 100 150\" xmlns=\"http://www.w3.org/2000/svg\">\n</svg>";

    assert_eq!(&svg.export(), result);
}

#[test]
fn test_rectangles() {
    let mut builder = SvgBuilder::new(Size2d::new(100, 150));
    builder.render_rectangle(10, 20, Size2d::new(30, 40), Color::orange());
    builder.render_rectangle(50, 70, Size2d::new(35, 45), Color::pink());
    let svg = builder.finish();

    let result = "<svg viewBox=\"0 0 100 150\" xmlns=\"http://www.w3.org/2000/svg\">
  <rect x=\"10\" y=\"20\" width=\"30\" height=\"40\" fill=\"#FFA500\"/>
  <rect x=\"50\" y=\"70\" width=\"35\" height=\"45\" fill=\"#FF0080\"/>
</svg>";

    assert_eq!(&svg.export(), result);
}
